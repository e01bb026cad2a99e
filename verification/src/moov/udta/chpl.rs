use vstd::prelude::*;
use vstd::utf8::{decode_utf8, encode_utf8, valid_utf8};

use crate::atom::Atom;
use crate::codec::{
    be64, be64_at, concat_map, group_codec, lemma_concat_map_first, lemma_concat_map_push,
    put_bytes, put_u64, put_u8, read_bytes, read_u64, read_u8,
};
use crate::error::Error;
use crate::fourcc::FourCC;
use crate::text::string_from_utf8;

verus! {

broadcast use group_codec;

/// One chapter of a [`Chpl`]: where it starts, in 100 ns units, and its title.
#[derive(Debug, Clone, PartialEq, Eq)]
pub struct ChplEntry {
    pub start: u64,
    pub title: String,
}

impl View for ChplEntry {
    type V = (u64, Seq<char>);

    open spec fn view(&self) -> (u64, Seq<char>) {
        (self.start, self.title@)
    }
}

/// Chapter list box (`chpl`), as Nero, ffmpeg and MP4Box write it.
///
/// Version 1 has four reserved bytes after the version and flags that version 0 lacks. It is
/// always written as version 1.
#[derive(Debug, Clone, PartialEq, Eq, Default)]
pub struct Chpl {
    pub entries: Vec<ChplEntry>,
}

impl View for Chpl {
    type V = Seq<(u64, Seq<char>)>;

    open spec fn view(&self) -> Seq<(u64, Seq<char>)> {
        self.entries@.map_values(|e: ChplEntry| e@)
    }
}

/// What decoding the chapter at `pos` gives: its start, a one-byte title length, the title
/// in UTF-8 (else `InvalidString`); and the offset after it.
pub open spec fn spec_chpl_entry(s: Seq<u8>, pos: int) -> Result<((u64, Seq<char>), int), Error> {
    if pos < 0 || pos + 9 > s.len() {
        Err(Error::OutOfBounds)
    } else {
        let l = s[pos + 8] as int;
        if pos + 9 + l > s.len() {
            Err(Error::OutOfBounds)
        } else {
            let t = s.subrange(pos + 9, pos + 9 + l);
            if valid_utf8(t) {
                Ok(((be64_at(s, pos), decode_utf8(t)), pos + 9 + l))
            } else {
                Err(Error::InvalidString)
            }
        }
    }
}

/// What decoding `count` chapters one after the other from `pos` gives.
pub open spec fn spec_chpl_entries(s: Seq<u8>, pos: int, count: nat) -> Result<
    (Seq<(u64, Seq<char>)>, int),
    Error,
>
    decreases count,
{
    if count == 0 {
        Ok((Seq::empty(), pos))
    } else {
        match spec_chpl_entry(s, pos) {
            Err(e) => Err(e),
            Ok((e, p)) => match spec_chpl_entries(s, p, (count - 1) as nat) {
                Err(e) => Err(e),
                Ok((rest, q)) => Ok((seq![e] + rest, q)),
            },
        }
    }
}

/// The bytes of one chapter.
pub open spec fn chpl_entry_bytes(e: (u64, Seq<char>)) -> Seq<u8> {
    be64(e.0) + seq![encode_utf8(e.1).len() as u8] + encode_utf8(e.1)
}

/// Whether some title is longer than 255 bytes.
pub open spec fn chpl_title_too_long(v: Seq<(u64, Seq<char>)>) -> bool {
    exists|k: int| 0 <= k < v.len() && encode_utf8(#[trigger] v[k].1).len() > 255
}

/// Decodes the chapter at `pos`.
fn decode_chpl_entry(buf: &[u8], pos: usize) -> (r: Result<(ChplEntry, usize), Error>)
    ensures
        r matches Ok((e, p)) ==> spec_chpl_entry(buf@, pos as int) == Ok::<
            ((u64, Seq<char>), int),
            Error,
        >((e@, p as int)),
        r matches Err(err) ==> spec_chpl_entry(buf@, pos as int) == Err::<
            ((u64, Seq<char>), int),
            Error,
        >(err),
{
    if pos > buf.len() || buf.len() - pos < 9 {
        return Err(Error::OutOfBounds);
    }
    let start = read_u64(buf, pos)?;
    let l = read_u8(buf, pos + 8)? as usize;
    let bytes = read_bytes(buf, pos + 9, l)?;
    match string_from_utf8(bytes) {
        Some(title) => Ok((ChplEntry { start, title }, pos + 9 + l)),
        None => Err(Error::InvalidString),
    }
}

/// Chapters that fit decode back from their bytes, one after the other.
pub proof fn lemma_chpl_entries_roundtrip(p: Seq<u8>, v: Seq<(u64, Seq<char>)>)
    requires
        !chpl_title_too_long(v),
    ensures
        spec_chpl_entries(
            p + concat_map(v, |e: (u64, Seq<char>)| chpl_entry_bytes(e)),
            p.len() as int,
            v.len(),
        ) == Ok::<(Seq<(u64, Seq<char>)>, int), Error>(
            (v, p.len() + concat_map(v, |e: (u64, Seq<char>)| chpl_entry_bytes(e)).len() as int),
        ),
    decreases v.len(),
{
    let f = |e: (u64, Seq<char>)| chpl_entry_bytes(e);
    if v.len() == 0 {
        assert(v =~= Seq::<(u64, Seq<char>)>::empty());
    } else {
        lemma_concat_map_first(v, f);
        let e = chpl_entry_bytes(v[0]);
        let rest = concat_map(v.drop_first(), f);
        let s = p + concat_map(v, f);
        let t = encode_utf8(v[0].1);
        assert(s =~= (p + e) + rest);
        assert(t.len() <= 255);
        assert(e =~= be64(v[0].0) + (seq![t.len() as u8] + t));
        assert(s =~= p + (be64(v[0].0) + (seq![t.len() as u8] + t + rest)));
        crate::codec::lemma_at_shift(p, be64(v[0].0) + (seq![t.len() as u8] + t + rest), 0);
        assert(s[p.len() as int + 8] == t.len());
        assert(s.subrange(p.len() as int + 9, p.len() as int + 9 + t.len() as int) =~= t);
        vstd::utf8::encode_utf8_valid_utf8(v[0].1);
        vstd::utf8::encode_utf8_decode_utf8(v[0].1);
        assert(spec_chpl_entry(s, p.len() as int) == Ok::<((u64, Seq<char>), int), Error>(
            (v[0], (p + e).len() as int),
        ));
        assert forall|k: int| 0 <= k < v.drop_first().len() implies encode_utf8(
            #[trigger] v.drop_first()[k].1,
        ).len() <= 255 by {
            assert(v.drop_first()[k] == v[k + 1]);
        }
        lemma_chpl_entries_roundtrip(p + e, v.drop_first());
        assert(seq![v[0]] + v.drop_first() =~= v);
    }
}

impl Atom for Chpl {
    open spec fn spec_kind() -> u32 {
        0x6368706c
    }

    fn kind() -> (k: FourCC) {
        FourCC::from_u32(0x6368706c)
    }

    /// A version byte, three flag bytes, four reserved bytes unless the version is 0, a
    /// one-byte count, then that many chapters.
    open spec fn spec_decode_body(s: Seq<u8>) -> Result<(Self::V, int), Error> {
        let start: int = if s.len() > 0 && s[0] != 0 {
            8
        } else {
            4
        };
        if s.len() < start + 1 {
            Err(Error::OutOfBounds)
        } else {
            spec_chpl_entries(s, start + 1, s[start] as nat)
        }
    }

    /// Version 1; more than 255 chapters, or a title longer than 255 bytes, is `TooLarge`.
    open spec fn spec_encode_body(v: Self::V) -> Result<Seq<u8>, Error> {
        if v.len() > 255 || chpl_title_too_long(v) {
            Err(Error::TooLarge(FourCC { code: 0x6368706c }))
        } else {
            Ok(
                seq![1u8, 0, 0, 0, 0, 0, 0, 0, v.len() as u8] + concat_map(
                    v,
                    |e: (u64, Seq<char>)| chpl_entry_bytes(e),
                ),
            )
        }
    }

    open spec fn spec_keeps(v: Self::V) -> bool {
        true
    }

    fn decode_body(buf: &[u8]) -> (r: Result<(Self, usize), Error>) {
        let version = read_u8(buf, 0)?;
        let start: usize = if version != 0 {
            8
        } else {
            4
        };
        let count = read_u8(buf, start)?;
        let mut entries: Vec<ChplEntry> = Vec::new();
        let mut pos: usize = start + 1;
        let mut i: u8 = 0;
        let ghost s = buf@;
        let ghost first = (start + 1) as int;
        proof {
            assert(Self::spec_decode_body(s) == spec_chpl_entries(s, first, count as nat));
            assert(entries@.map_values(|e: ChplEntry| e@) =~= Seq::<(u64, Seq<char>)>::empty());
            assert(forall|x: Seq<(u64, Seq<char>)>| Seq::<(u64, Seq<char>)>::empty() + x =~= x);
        }
        while i < count
            invariant
                i <= count,
                s == buf@,
                count == s[start as int],
                first == start + 1,
                start + 1 <= s.len(),
                Self::spec_decode_body(s) == spec_chpl_entries(s, first, count as nat),
                match spec_chpl_entries(s, pos as int, (count - i) as nat) {
                    Ok((rest, q)) => spec_chpl_entries(s, first, count as nat) == Ok::<
                        (Seq<(u64, Seq<char>)>, int),
                        Error,
                    >((entries@.map_values(|e: ChplEntry| e@) + rest, q)),
                    Err(e) => spec_chpl_entries(s, first, count as nat) == Err::<
                        (Seq<(u64, Seq<char>)>, int),
                        Error,
                    >(e),
                },
            decreases count - i,
        {
            let (e, p) = decode_chpl_entry(buf, pos)?;
            proof {
                let ghost old_view = entries@.map_values(|e: ChplEntry| e@);
                assert(entries@.push(e).map_values(|e: ChplEntry| e@) =~= old_view.push(e@));
                assert(forall|x: Seq<(u64, Seq<char>)>| old_view + (seq![e@] + x) =~= old_view.push(e@) + x);
            }
            entries.push(e);
            pos = p;
            i = i + 1;
        }
        proof {
            assert(entries@.map_values(|e: ChplEntry| e@) + Seq::<(u64, Seq<char>)>::empty() =~= entries@.map_values(|e: ChplEntry| e@));
        }
        Ok((Chpl { entries }, pos))
    }

    fn encode_body(&self, out: &mut Vec<u8>) -> (r: Result<(), Error>) {
        let n = self.entries.len();
        if n > 255 {
            return Err(Error::TooLarge(Self::kind()));
        }
        let ghost v = self@;
        let ghost f = |e: (u64, Seq<char>)| chpl_entry_bytes(e);
        let mut body: Vec<u8> = Vec::new();
        put_u8(&mut body, 1);
        put_u8(&mut body, 0);
        put_u8(&mut body, 0);
        put_u8(&mut body, 0);
        put_u8(&mut body, 0);
        put_u8(&mut body, 0);
        put_u8(&mut body, 0);
        put_u8(&mut body, 0);
        put_u8(&mut body, n as u8);
        let ghost head = body@;
        assert(head =~= seq![1u8, 0, 0, 0, 0, 0, 0, 0, n as u8]);
        let mut k: usize = 0;
        assert(concat_map(v.subrange(0, 0), f) =~= Seq::<u8>::empty()) by {
            assert(v.subrange(0, 0) =~= Seq::<(u64, Seq<char>)>::empty());
        }
        while k < n
            invariant
                k <= n,
                n == v.len(),
                v == self@,
                f == (|e: (u64, Seq<char>)| chpl_entry_bytes(e)),
                forall|j: int| 0 <= j < k ==> encode_utf8(#[trigger] v[j].1).len() <= 255,
                body@ == head + concat_map(v.subrange(0, k as int), f),
            decreases n - k,
        {
            let entry = &self.entries[k];
            assert(entry@ == v[k as int]);
            let t = entry.title.as_str().as_bytes();
            if t.len() > 255 {
                assert(encode_utf8(v[k as int].1).len() > 255);
                assert(chpl_title_too_long(v));
                return Err(Error::TooLarge(Self::kind()));
            }
            put_u64(&mut body, entry.start);
            put_u8(&mut body, t.len() as u8);
            put_bytes(&mut body, t);
            proof {
                lemma_concat_map_push(v.subrange(0, k as int), f, v[k as int]);
                assert(v.subrange(0, k as int).push(v[k as int]) =~= v.subrange(0, k + 1));
            }
            k = k + 1;
            assert(body@ =~= head + concat_map(v.subrange(0, k as int), f));
        }
        assert(v.subrange(0, n as int) =~= v);
        assert(!chpl_title_too_long(v));
        put_bytes(out, body.as_slice());
        Ok(())
    }

    proof fn lemma_body_roundtrip(v: Self::V) {
        let head = seq![1u8, 0, 0, 0, 0, 0, 0, 0, v.len() as u8];
        lemma_chpl_entries_roundtrip(head, v);
        let b = Self::spec_encode_body(v)->Ok_0;
        assert(b[0] == 1u8);
        assert(b[8] == v.len() as u8);
    }
}

/// Decoding `count` chapters gives `count` of them.
proof fn lemma_chpl_entries_count(s: Seq<u8>, pos: int, count: nat)
    ensures
        spec_chpl_entries(s, pos, count) matches Ok((v, _)) ==> v.len() == count,
    decreases count,
{
    if count > 0 {
        if let Ok((e, p)) = spec_chpl_entry(s, pos) {
            lemma_chpl_entries_count(s, p, (count - 1) as nat);
        }
    }
}

/// A `chpl` body whose version byte is not 0 has four reserved bytes after the version and
/// flags, so its chapter count is byte 8 and its chapters start at byte 9; with version 0
/// the count is byte 4 and the chapters start at byte 5. As many chapters come out as the
/// count says.
pub proof fn lemma_chpl_decode_layout(s: Seq<u8>)
    ensures
        s.len() >= 9 && s[0] != 0 ==> Chpl::spec_decode_body(s) == spec_chpl_entries(
            s,
            9,
            s[8] as nat,
        ),
        s.len() >= 5 && s[0] == 0 ==> Chpl::spec_decode_body(s) == spec_chpl_entries(
            s,
            5,
            s[4] as nat,
        ),
        s.len() < 9 && s.len() > 0 && s[0] != 0 ==> Chpl::spec_decode_body(s) == Err::<
            (Seq<(u64, Seq<char>)>, int),
            Error,
        >(Error::OutOfBounds),
        Chpl::spec_decode_body(s) matches Ok((v, _)) ==> s.len() > 0 && v.len() == (if s[0] != 0 {
            s[8]
        } else {
            s[4]
        }),
{
    if s.len() > 0 && s[0] != 0 && s.len() >= 9 {
        lemma_chpl_entries_count(s, 9, s[8] as nat);
    } else if s.len() >= 5 {
        lemma_chpl_entries_count(s, 5, s[4] as nat);
    }
}

/// Encoding a `chpl` body writes version 1, flags 0, the four reserved zero bytes, then the
/// chapter count as byte 8, and the chapters from byte 9 on.
pub proof fn lemma_chpl_encode_layout(v: Seq<(u64, Seq<char>)>)
    ensures
        Chpl::spec_encode_body(v) matches Ok(b) ==> {
            &&& b.len() >= 9
            &&& b.subrange(0, 9) == seq![1u8, 0, 0, 0, 0, 0, 0, 0, v.len() as u8]
            &&& b[8] == v.len()
            &&& b.subrange(9, b.len() as int) == concat_map(
                v,
                |e: (u64, Seq<char>)| chpl_entry_bytes(e),
            )
        },
{
    if let Ok(b) = Chpl::spec_encode_body(v) {
        let c = concat_map(v, |e: (u64, Seq<char>)| chpl_entry_bytes(e));
        assert(b.subrange(0, 9) =~= seq![1u8, 0, 0, 0, 0, 0, 0, 0, v.len() as u8]);
        assert(b.subrange(9, b.len() as int) =~= c);
    }
}

} // verus!
