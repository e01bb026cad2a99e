use vstd::prelude::*;
use vstd::utf8::{decode_utf8, encode_utf8, valid_utf8};

use crate::atom::Atom;
use crate::codec::{
    be16, be16_at, concat_map, group_codec, lemma_at_shift, lemma_concat_map_first,
    lemma_concat_map_push, put_bytes, put_u16, put_u8, read_bytes, read_u16, read_u8,
};
use crate::error::Error;
use crate::fourcc::FourCC;
use crate::text::string_from_utf8;

verus! {

broadcast use group_codec;

/// One font of a font table: its id and its name.
#[derive(Debug, Clone, PartialEq, Eq)]
pub struct FontEntry {
    pub font_id: u16,
    pub font: String,
}

impl View for FontEntry {
    type V = (u16, Seq<char>);

    open spec fn view(&self) -> (u16, Seq<char>) {
        (self.font_id, self.font@)
    }
}

/// Font table box (`ftab`, 3GPP TS 26.245): the fonts that timed text refers to.
#[derive(Debug, Clone, PartialEq, Eq, Default)]
pub struct Ftab {
    pub font_entries: Vec<FontEntry>,
}

impl View for Ftab {
    type V = Seq<(u16, Seq<char>)>;

    open spec fn view(&self) -> Seq<(u16, Seq<char>)> {
        self.font_entries@.map_values(|e: FontEntry| e@)
    }
}

/// What decoding the font at `pos` gives: an id, a one-byte name length, the name in UTF-8
/// (else `InvalidString`); and the offset after it.
pub open spec fn spec_font(s: Seq<u8>, pos: int) -> Result<((u16, Seq<char>), int), Error> {
    if pos < 0 || pos + 3 > s.len() {
        Err(Error::OutOfBounds)
    } else {
        let l = s[pos + 2] as int;
        if pos + 3 + l > s.len() {
            Err(Error::OutOfBounds)
        } else {
            let t = s.subrange(pos + 3, pos + 3 + l);
            if valid_utf8(t) {
                Ok(((be16_at(s, pos), decode_utf8(t)), pos + 3 + l))
            } else {
                Err(Error::InvalidString)
            }
        }
    }
}

/// What decoding `count` fonts one after the other from `pos` gives.
pub open spec fn spec_fonts(s: Seq<u8>, pos: int, count: nat) -> Result<
    (Seq<(u16, Seq<char>)>, int),
    Error,
>
    decreases count,
{
    if count == 0 {
        Ok((Seq::empty(), pos))
    } else {
        match spec_font(s, pos) {
            Err(e) => Err(e),
            Ok((e, p)) => match spec_fonts(s, p, (count - 1) as nat) {
                Err(e) => Err(e),
                Ok((rest, q)) => Ok((seq![e] + rest, q)),
            },
        }
    }
}

/// The bytes of one font.
pub open spec fn font_bytes(e: (u16, Seq<char>)) -> Seq<u8> {
    be16(e.0) + seq![encode_utf8(e.1).len() as u8] + encode_utf8(e.1)
}

/// Whether some name is longer than 255 bytes.
pub open spec fn font_name_too_long(v: Seq<(u16, Seq<char>)>) -> bool {
    exists|k: int| 0 <= k < v.len() && encode_utf8(#[trigger] v[k].1).len() > 255
}

fn decode_font(buf: &[u8], pos: usize) -> (r: Result<(FontEntry, usize), Error>)
    ensures
        r matches Ok((e, p)) ==> spec_font(buf@, pos as int) == Ok::<((u16, Seq<char>), int), Error>(
            (e@, p as int),
        ),
        r matches Err(err) ==> spec_font(buf@, pos as int) == Err::<((u16, Seq<char>), int), Error>(
            err,
        ),
{
    if pos > buf.len() || buf.len() - pos < 3 {
        return Err(Error::OutOfBounds);
    }
    let font_id = read_u16(buf, pos)?;
    let l = read_u8(buf, pos + 2)? as usize;
    let bytes = read_bytes(buf, pos + 3, l)?;
    match string_from_utf8(bytes) {
        Some(font) => Ok((FontEntry { font_id, font }, pos + 3 + l)),
        None => Err(Error::InvalidString),
    }
}

/// Fonts whose names fit decode back from their bytes, one after the other.
proof fn lemma_fonts_roundtrip(p: Seq<u8>, v: Seq<(u16, Seq<char>)>)
    requires
        !font_name_too_long(v),
    ensures
        spec_fonts(
            p + concat_map(v, |e: (u16, Seq<char>)| font_bytes(e)),
            p.len() as int,
            v.len(),
        ) == Ok::<(Seq<(u16, Seq<char>)>, int), Error>(
            (v, p.len() + concat_map(v, |e: (u16, Seq<char>)| font_bytes(e)).len() as int),
        ),
    decreases v.len(),
{
    let f = |e: (u16, Seq<char>)| font_bytes(e);
    if v.len() == 0 {
        assert(v =~= Seq::<(u16, Seq<char>)>::empty());
    } else {
        lemma_concat_map_first(v, f);
        let e = font_bytes(v[0]);
        let rest = concat_map(v.drop_first(), f);
        let s = p + concat_map(v, f);
        let t = encode_utf8(v[0].1);
        assert(s =~= (p + e) + rest);
        assert(t.len() <= 255);
        assert(s =~= p + (be16(v[0].0) + (seq![t.len() as u8] + t + rest)));
        lemma_at_shift(p, be16(v[0].0) + (seq![t.len() as u8] + t + rest), 0);
        assert(s[p.len() as int + 2] == t.len());
        assert(s.subrange(p.len() as int + 3, p.len() as int + 3 + t.len() as int) =~= t);
        vstd::utf8::encode_utf8_valid_utf8(v[0].1);
        vstd::utf8::encode_utf8_decode_utf8(v[0].1);
        assert(spec_font(s, p.len() as int) == Ok::<((u16, Seq<char>), int), Error>(
            (v[0], (p + e).len() as int),
        ));
        assert forall|k: int| 0 <= k < v.drop_first().len() implies encode_utf8(
            #[trigger] v.drop_first()[k].1,
        ).len() <= 255 by {
            assert(v.drop_first()[k] == v[k + 1]);
        }
        lemma_fonts_roundtrip(p + e, v.drop_first());
        assert(seq![v[0]] + v.drop_first() =~= v);
    }
}

impl Atom for Ftab {
    open spec fn spec_kind() -> u32 {
        0x66746162
    }

    fn kind() -> (k: FourCC) {
        FourCC::from_u32(0x66746162)
    }

    /// A 16-bit count, then that many fonts.
    open spec fn spec_decode_body(s: Seq<u8>) -> Result<(Self::V, int), Error> {
        if s.len() < 2 {
            Err(Error::OutOfBounds)
        } else {
            spec_fonts(s, 2, be16_at(s, 0) as nat)
        }
    }

    /// More than 65535 fonts, or a name longer than 255 bytes, is `TooLarge`.
    open spec fn spec_encode_body(v: Self::V) -> Result<Seq<u8>, Error> {
        if v.len() > 65535 || font_name_too_long(v) {
            Err(Error::TooLarge(FourCC { code: 0x66746162 }))
        } else {
            Ok(be16(v.len() as u16) + concat_map(v, |e: (u16, Seq<char>)| font_bytes(e)))
        }
    }

    open spec fn spec_keeps(v: Self::V) -> bool {
        true
    }

    fn decode_body(buf: &[u8]) -> (r: Result<(Self, usize), Error>) {
        let count = read_u16(buf, 0)?;
        let mut entries: Vec<FontEntry> = Vec::new();
        let mut pos: usize = 2;
        let mut i: u16 = 0;
        let ghost s = buf@;
        proof {
            assert(entries@.map_values(|e: FontEntry| e@) =~= Seq::<(u16, Seq<char>)>::empty());
            assert(forall|x: Seq<(u16, Seq<char>)>| Seq::<(u16, Seq<char>)>::empty() + x =~= x);
        }
        while i < count
            invariant
                i <= count,
                s == buf@,
                s.len() >= 2,
                count == be16_at(s, 0),
                match spec_fonts(s, pos as int, (count - i) as nat) {
                    Ok((rest, q)) => spec_fonts(s, 2, count as nat) == Ok::<
                        (Seq<(u16, Seq<char>)>, int),
                        Error,
                    >((entries@.map_values(|e: FontEntry| e@) + rest, q)),
                    Err(e) => spec_fonts(s, 2, count as nat) == Err::<
                        (Seq<(u16, Seq<char>)>, int),
                        Error,
                    >(e),
                },
            decreases count - i,
        {
            let (e, p) = decode_font(buf, pos)?;
            proof {
                let ghost old_view = entries@.map_values(|e: FontEntry| e@);
                assert(entries@.push(e).map_values(|e: FontEntry| e@) =~= old_view.push(e@));
                assert(forall|x: Seq<(u16, Seq<char>)>| old_view + (seq![e@] + x) =~= old_view.push(e@) + x);
            }
            entries.push(e);
            pos = p;
            i = i + 1;
        }
        proof {
            assert(entries@.map_values(|e: FontEntry| e@) + Seq::<(u16, Seq<char>)>::empty() =~= entries@.map_values(|e: FontEntry| e@));
        }
        Ok((Ftab { font_entries: entries }, pos))
    }

    fn encode_body(&self, out: &mut Vec<u8>) -> (r: Result<(), Error>) {
        let n = self.font_entries.len();
        if n > 65535 {
            return Err(Error::TooLarge(Self::kind()));
        }
        let ghost v = self@;
        let ghost f = |e: (u16, Seq<char>)| font_bytes(e);
        let mut body: Vec<u8> = Vec::new();
        put_u16(&mut body, n as u16);
        let ghost head = body@;
        let mut k: usize = 0;
        assert(concat_map(v.subrange(0, 0), f) =~= Seq::<u8>::empty()) by {
            assert(v.subrange(0, 0) =~= Seq::<(u16, Seq<char>)>::empty());
        }
        assert(body@ =~= head + concat_map(v.subrange(0, 0), f));
        while k < n
            invariant
                k <= n,
                n == v.len(),
                v == self@,
                f == (|e: (u16, Seq<char>)| font_bytes(e)),
                forall|j: int| 0 <= j < k ==> encode_utf8(#[trigger] v[j].1).len() <= 255,
                body@ == head + concat_map(v.subrange(0, k as int), f),
            decreases n - k,
        {
            let entry = &self.font_entries[k];
            assert(entry@ == v[k as int]);
            let t = entry.font.as_str().as_bytes();
            if t.len() > 255 {
                assert(encode_utf8(v[k as int].1).len() > 255);
                assert(font_name_too_long(v));
                return Err(Error::TooLarge(Self::kind()));
            }
            put_u16(&mut body, entry.font_id);
            put_u8(&mut body, t.len() as u8);
            put_bytes(&mut body, t);
            proof {
                lemma_concat_map_push(v.subrange(0, k as int), f, v[k as int]);
                assert(v.subrange(0, k as int).push(v[k as int]) =~= v.subrange(0, k + 1));
            }
            k = k + 1;
            assert(body@ =~= head + concat_map(v.subrange(0, k as int), f));
        }
        assert(v.subrange(0, n as int) =~= v);
        assert(!font_name_too_long(v));
        put_bytes(out, body.as_slice());
        Ok(())
    }

    proof fn lemma_body_roundtrip(v: Self::V) {
        let head = be16(v.len() as u16);
        lemma_fonts_roundtrip(head, v);
    }
}

} // verus!
