use vstd::prelude::*;

use crate::atom::Atom;
use crate::codec::{
    be16, be16_at, be32, be32_at, concat_map, group_codec, lemma_at_shift, lemma_concat_map_first,
    lemma_concat_map_push, put_bytes, put_u16, put_u32, put_u8, read_bytes, read_u16, read_u32,
    read_u8,
};
use crate::error::Error;
use crate::fourcc::FourCC;

verus! {

broadcast use group_codec;

/// The size of a subsample: 16 bits in version 0 of `subs`, 32 bits in version 1.
#[derive(Debug, Clone, Copy, PartialEq, Eq)]
pub enum SubsSubsampleSize {
    U16(u16),
    U32(u32),
}

impl Default for SubsSubsampleSize {
    fn default() -> (r: Self)
        ensures
            r == SubsSubsampleSize::U16(0),
    {
        SubsSubsampleSize::U16(0)
    }
}

/// The size as a 32-bit number.
pub open spec fn size_value(s: SubsSubsampleSize) -> u32 {
    match s {
        SubsSubsampleSize::U16(n) => n as u32,
        SubsSubsampleSize::U32(n) => n,
    }
}

impl SubsSubsampleSize {
    /// The size as a 32-bit number, whatever its width.
    pub fn value(&self) -> (r: u32)
        ensures
            r == size_value(*self),
    {
        match self {
            SubsSubsampleSize::U16(n) => *n as u32,
            SubsSubsampleSize::U32(n) => *n,
        }
    }
}

/// One subsample: its size, priority, whether it may be discarded, and four codec-specific
/// bytes.
#[derive(Debug, Clone, PartialEq, Eq, Default)]
pub struct SubsSubsample {
    pub size: SubsSubsampleSize,
    pub priority: u8,
    pub discardable: bool,
    pub codec_specific_parameters: Vec<u8>,
}

/// The size, the priority, whether discardable, and the codec-specific bytes.
pub type SubsSubsampleV = (SubsSubsampleSize, u8, bool, Seq<u8>);

impl View for SubsSubsample {
    type V = SubsSubsampleV;

    open spec fn view(&self) -> SubsSubsampleV {
        (self.size, self.priority, self.discardable, self.codec_specific_parameters@)
    }
}

/// The subsamples of one sample, and the sample's distance from the previous entry's.
#[derive(Debug, Clone, PartialEq, Eq, Default)]
pub struct SubsEntry {
    pub sample_delta: u32,
    pub subsamples: Vec<SubsSubsample>,
}

/// The sample delta, then the subsamples.
pub type SubsEntryV = (u32, Seq<SubsSubsampleV>);

impl View for SubsEntry {
    type V = SubsEntryV;

    open spec fn view(&self) -> SubsEntryV {
        (self.sample_delta, self.subsamples@.map_values(|x: SubsSubsample| x@))
    }
}

/// Sub-sample information box (`subs`, ISO/IEC 14496-12, 8.7.7).
///
/// Its flags mean what the coding system says they mean, so all three bytes are kept.
#[derive(Debug, Clone, PartialEq, Eq, Default)]
pub struct Subs {
    pub flags: [u8; 3],
    pub entries: Vec<SubsEntry>,
}

/// The three flag bytes, then the entries.
pub type SubsV = ((u8, u8, u8), Seq<SubsEntryV>);

impl View for Subs {
    type V = SubsV;

    open spec fn view(&self) -> SubsV {
        (
            (self.flags@[0], self.flags@[1], self.flags@[2]),
            self.entries@.map_values(|e: SubsEntry| e@),
        )
    }
}

// ---------------------------------------------------------------------------
// Decoding
// ---------------------------------------------------------------------------

/// What decoding the subsample at `pos` gives, with 32-bit sizes when `wide`.
pub open spec fn spec_subsample(s: Seq<u8>, pos: int, wide: bool) -> Result<(SubsSubsampleV, int), Error> {
    let w: int = if wide {
        4
    } else {
        2
    };
    if pos < 0 || pos + w + 6 > s.len() {
        Err(Error::OutOfBounds)
    } else {
        let size = if wide {
            SubsSubsampleSize::U32(be32_at(s, pos))
        } else {
            SubsSubsampleSize::U16(be16_at(s, pos))
        };
        Ok(
            (
                (size, s[pos + w], s[pos + w + 1] == 1, s.subrange(pos + w + 2, pos + w + 6)),
                pos + w + 6,
            ),
        )
    }
}

/// What decoding `count` subsamples one after the other from `pos` gives.
pub open spec fn spec_subsamples(s: Seq<u8>, pos: int, wide: bool, count: nat) -> Result<
    (Seq<SubsSubsampleV>, int),
    Error,
>
    decreases count,
{
    if count == 0 {
        Ok((Seq::empty(), pos))
    } else {
        match spec_subsample(s, pos, wide) {
            Err(e) => Err(e),
            Ok((x, p)) => match spec_subsamples(s, p, wide, (count - 1) as nat) {
                Err(e) => Err(e),
                Ok((rest, q)) => Ok((seq![x] + rest, q)),
            },
        }
    }
}

/// What decoding the entry at `pos` gives: a sample delta, a 16-bit count, the subsamples.
pub open spec fn spec_subs_entry(s: Seq<u8>, pos: int, wide: bool) -> Result<(SubsEntryV, int), Error> {
    if pos < 0 || pos + 6 > s.len() {
        Err(Error::OutOfBounds)
    } else {
        match spec_subsamples(s, pos + 6, wide, be16_at(s, pos + 4) as nat) {
            Err(e) => Err(e),
            Ok((v, p)) => Ok(((be32_at(s, pos), v), p)),
        }
    }
}

/// What decoding `count` entries one after the other from `pos` gives.
pub open spec fn spec_subs_entries(s: Seq<u8>, pos: int, wide: bool, count: nat) -> Result<
    (Seq<SubsEntryV>, int),
    Error,
>
    decreases count,
{
    if count == 0 {
        Ok((Seq::empty(), pos))
    } else {
        match spec_subs_entry(s, pos, wide) {
            Err(e) => Err(e),
            Ok((x, p)) => match spec_subs_entries(s, p, wide, (count - 1) as nat) {
                Err(e) => Err(e),
                Ok((rest, q)) => Ok((seq![x] + rest, q)),
            },
        }
    }
}

fn decode_subsample(buf: &[u8], pos: usize, wide: bool) -> (r: Result<(SubsSubsample, usize), Error>)
    ensures
        r matches Ok((x, p)) ==> spec_subsample(buf@, pos as int, wide) == Ok::<
            (SubsSubsampleV, int),
            Error,
        >((x@, p as int)),
        r matches Err(e) ==> spec_subsample(buf@, pos as int, wide) == Err::<
            (SubsSubsampleV, int),
            Error,
        >(e),
{
    let w: usize = if wide {
        4
    } else {
        2
    };
    if pos > buf.len() || buf.len() - pos < w + 6 {
        return Err(Error::OutOfBounds);
    }
    let size = if wide {
        SubsSubsampleSize::U32(read_u32(buf, pos)?)
    } else {
        SubsSubsampleSize::U16(read_u16(buf, pos)?)
    };
    let priority = read_u8(buf, pos + w)?;
    let discardable = read_u8(buf, pos + w + 1)? == 1;
    let codec_specific_parameters = read_bytes(buf, pos + w + 2, 4)?;
    Ok((SubsSubsample { size, priority, discardable, codec_specific_parameters }, pos + w + 6))
}

fn decode_subs_entry(buf: &[u8], pos: usize, wide: bool) -> (r: Result<(SubsEntry, usize), Error>)
    ensures
        r matches Ok((x, p)) ==> spec_subs_entry(buf@, pos as int, wide) == Ok::<
            (SubsEntryV, int),
            Error,
        >((x@, p as int)),
        r matches Err(e) ==> spec_subs_entry(buf@, pos as int, wide) == Err::<
            (SubsEntryV, int),
            Error,
        >(e),
{
    if pos > buf.len() || buf.len() - pos < 6 {
        return Err(Error::OutOfBounds);
    }
    let sample_delta = read_u32(buf, pos)?;
    let count = read_u16(buf, pos + 4)?;
    let ghost s = buf@;
    let ghost first = pos + 6;
    let mut subsamples: Vec<SubsSubsample> = Vec::new();
    let mut p: usize = pos + 6;
    let mut i: u16 = 0;
    proof {
        assert(subsamples@.map_values(|x: SubsSubsample| x@) =~= Seq::<SubsSubsampleV>::empty());
        assert(forall|x: Seq<SubsSubsampleV>| Seq::<SubsSubsampleV>::empty() + x =~= x);
    }
    while i < count
        invariant
            i <= count,
            s == buf@,
            spec_subs_entry(s, pos as int, wide) == (match spec_subsamples(s, first, wide, count as nat) {
                Err(e) => Err(e),
                Ok((v, p)) => Ok(((sample_delta, v), p)),
            }),
            match spec_subsamples(s, p as int, wide, (count - i) as nat) {
                Ok((rest, q)) => spec_subsamples(s, first, wide, count as nat) == Ok::<
                    (Seq<SubsSubsampleV>, int),
                    Error,
                >((subsamples@.map_values(|x: SubsSubsample| x@) + rest, q)),
                Err(e) => spec_subsamples(s, first, wide, count as nat) == Err::<
                    (Seq<SubsSubsampleV>, int),
                    Error,
                >(e),
            },
        decreases count - i,
    {
        let (x, q) = decode_subsample(buf, p, wide)?;
        proof {
            let ghost old_view = subsamples@.map_values(|x: SubsSubsample| x@);
            assert(subsamples@.push(x).map_values(|x: SubsSubsample| x@) =~= old_view.push(x@));
            assert(forall|y: Seq<SubsSubsampleV>| old_view + (seq![x@] + y) =~= old_view.push(x@) + y);
        }
        subsamples.push(x);
        p = q;
        i = i + 1;
    }
    proof {
        assert(subsamples@.map_values(|x: SubsSubsample| x@) + Seq::<SubsSubsampleV>::empty()
            =~= subsamples@.map_values(|x: SubsSubsample| x@));
    }
    Ok((SubsEntry { sample_delta, subsamples }, p))
}

// ---------------------------------------------------------------------------
// Encoding
// ---------------------------------------------------------------------------

/// The bytes of a size, in its own width.
pub open spec fn size_bytes(s: SubsSubsampleSize) -> Seq<u8> {
    match s {
        SubsSubsampleSize::U16(n) => be16(n),
        SubsSubsampleSize::U32(n) => be32(n),
    }
}

/// The bytes of a subsample.
pub open spec fn subsample_bytes(x: SubsSubsampleV) -> Seq<u8> {
    size_bytes(x.0) + seq![x.1, if x.2 {
        1u8
    } else {
        0u8
    }] + x.3
}

/// The bytes of the subsamples of an entry.
pub open spec fn subsamples_bytes(v: Seq<SubsSubsampleV>) -> Seq<u8> {
    concat_map(v, |x: SubsSubsampleV| subsample_bytes(x))
}

/// The bytes of an entry; the count is kept to its low 16 bits.
pub open spec fn subs_entry_bytes(e: SubsEntryV) -> Seq<u8> {
    be32(e.0) + be16(e.1.len() as u16) + subsamples_bytes(e.1)
}

/// Whether the first subsample of the first entry has a 32-bit size: that chooses version 1.
pub open spec fn subs_wide(entries: Seq<SubsEntryV>) -> bool {
    entries.len() > 0 && entries[0].1.len() > 0 && entries[0].1[0].0 is U32
}

/// The bytes of a `subs` body; the entry count is kept to its low 32 bits.
pub open spec fn subs_bytes(v: SubsV) -> Seq<u8> {
    seq![if subs_wide(v.1) {
        1u8
    } else {
        0u8
    }, (v.0).0, (v.0).1, (v.0).2] + be32(v.1.len() as u32) + concat_map(
        v.1,
        |e: SubsEntryV| subs_entry_bytes(e),
    )
}

fn encode_subsamples(v: &Vec<SubsSubsample>, out: &mut Vec<u8>)
    ensures
        final(out)@ == old(out)@ + subsamples_bytes(v@.map_values(|x: SubsSubsample| x@)),
{
    let ghost start = out@;
    let ghost vv = v@.map_values(|x: SubsSubsample| x@);
    let ghost f = |x: SubsSubsampleV| subsample_bytes(x);
    let n = v.len();
    let mut k: usize = 0;
    assert(concat_map(vv.subrange(0, 0), f) =~= Seq::<u8>::empty()) by {
        assert(vv.subrange(0, 0) =~= Seq::<SubsSubsampleV>::empty());
    }
    assert(out@ =~= start + concat_map(vv.subrange(0, 0), f));
    while k < n
        invariant
            k <= n,
            n == v.len(),
            vv == v@.map_values(|x: SubsSubsample| x@),
            f == (|x: SubsSubsampleV| subsample_bytes(x)),
            out@ == start + concat_map(vv.subrange(0, k as int), f),
        decreases n - k,
    {
        let x = &v[k];
        assert(x@ == vv[k as int]);
        match x.size {
            SubsSubsampleSize::U16(m) => put_u16(out, m),
            SubsSubsampleSize::U32(m) => put_u32(out, m),
        }
        put_u8(out, x.priority);
        if x.discardable {
            put_u8(out, 1);
        } else {
            put_u8(out, 0);
        }
        put_bytes(out, x.codec_specific_parameters.as_slice());
        proof {
            lemma_concat_map_push(vv.subrange(0, k as int), f, vv[k as int]);
            assert(vv.subrange(0, k as int).push(vv[k as int]) =~= vv.subrange(0, k + 1));
        }
        k = k + 1;
        assert(out@ =~= start + concat_map(vv.subrange(0, k as int), f));
    }
    assert(vv.subrange(0, n as int) =~= vv);
}

// ---------------------------------------------------------------------------
// The way back
// ---------------------------------------------------------------------------

/// A subsample comes back from its bytes when its size has the width of the version and it
/// has four codec-specific bytes.
pub open spec fn subsample_keeps(x: SubsSubsampleV, wide: bool) -> bool {
    &&& (x.0 is U32) == wide
    &&& x.3.len() == 4
}

/// An entry comes back when its count fits in 16 bits and each subsample comes back.
pub open spec fn subs_entry_keeps(e: SubsEntryV, wide: bool) -> bool {
    &&& e.1.len() <= u16::MAX
    &&& forall|k: int| 0 <= k < e.1.len() ==> subsample_keeps(#[trigger] e.1[k], wide)
}

#[verifier::spinoff_prover]
#[verifier::rlimit(40)]
proof fn lemma_subsamples_roundtrip(p: Seq<u8>, v: Seq<SubsSubsampleV>, q: Seq<u8>, wide: bool)
    requires
        forall|k: int| 0 <= k < v.len() ==> subsample_keeps(#[trigger] v[k], wide),
    ensures
        spec_subsamples(p + subsamples_bytes(v) + q, p.len() as int, wide, v.len()) == Ok::<
            (Seq<SubsSubsampleV>, int),
            Error,
        >((v, p.len() + subsamples_bytes(v).len() as int)),
    decreases v.len(),
{
    let f = |x: SubsSubsampleV| subsample_bytes(x);
    if v.len() == 0 {
        assert(v =~= Seq::<SubsSubsampleV>::empty());
    } else {
        lemma_concat_map_first(v, f);
        let x = v[0];
        let e = subsample_bytes(x);
        let rest = subsamples_bytes(v.drop_first());
        let s = p + subsamples_bytes(v) + q;
        assert(s =~= (p + e) + rest + q);
        assert(subsample_keeps(x, wide));
        let w: int = if wide {
            4
        } else {
            2
        };
        assert(size_bytes(x.0).len() == w);
        let tail = e + rest + q;
        assert(s =~= p + tail);
        lemma_at_shift(p, tail, 0);
        lemma_at_shift(p, tail, w);
        lemma_at_shift(p, tail, w + 1);
        assert(tail[w] == x.1);
        match x.0 {
            SubsSubsampleSize::U16(n) => {
                assert(be16_at(tail, 0) == n);
            },
            SubsSubsampleSize::U32(n) => {
                assert(be32_at(tail, 0) == n);
            },
        }
        assert(s.subrange(p.len() + w + 2, p.len() + w + 6) =~= x.3);
        assert(spec_subsample(s, p.len() as int, wide) == Ok::<(SubsSubsampleV, int), Error>(
            (x, (p + e).len() as int),
        ));
        assert forall|k: int| 0 <= k < v.drop_first().len() implies subsample_keeps(
            #[trigger] v.drop_first()[k],
            wide,
        ) by {
            assert(v.drop_first()[k] == v[k + 1]);
        }
        lemma_subsamples_roundtrip(p + e, v.drop_first(), q, wide);
        assert(seq![x] + v.drop_first() =~= v);
    }
}

#[verifier::spinoff_prover]
#[verifier::rlimit(40)]
proof fn lemma_subs_entries_roundtrip(p: Seq<u8>, v: Seq<SubsEntryV>, wide: bool)
    requires
        forall|k: int| 0 <= k < v.len() ==> subs_entry_keeps(#[trigger] v[k], wide),
    ensures
        spec_subs_entries(
            p + concat_map(v, |e: SubsEntryV| subs_entry_bytes(e)),
            p.len() as int,
            wide,
            v.len(),
        ) == Ok::<(Seq<SubsEntryV>, int), Error>(
            (v, p.len() + concat_map(v, |e: SubsEntryV| subs_entry_bytes(e)).len() as int),
        ),
    decreases v.len(),
{
    let f = |e: SubsEntryV| subs_entry_bytes(e);
    if v.len() == 0 {
        assert(v =~= Seq::<SubsEntryV>::empty());
    } else {
        lemma_concat_map_first(v, f);
        let x = v[0];
        let e = subs_entry_bytes(x);
        let rest = concat_map(v.drop_first(), f);
        let s = p + concat_map(v, f);
        assert(s =~= (p + e) + rest);
        assert(subs_entry_keeps(x, wide));
        let head = be32(x.0) + be16(x.1.len() as u16);
        let tail = e + rest;
        assert(s =~= p + tail);
        lemma_at_shift(p, tail, 0);
        lemma_at_shift(p, tail, 4);
        assert(be32_at(s, p.len() as int) == x.0);
        assert(be16_at(s, p.len() as int + 4) == x.1.len());
        lemma_subsamples_roundtrip(p + head, x.1, rest, wide);
        assert(p + head + subsamples_bytes(x.1) + rest =~= s);
        assert(spec_subs_entry(s, p.len() as int, wide) == Ok::<(SubsEntryV, int), Error>(
            (x, (p + e).len() as int),
        ));
        assert forall|k: int| 0 <= k < v.drop_first().len() implies subs_entry_keeps(
            #[trigger] v.drop_first()[k],
            wide,
        ) by {
            assert(v.drop_first()[k] == v[k + 1]);
        }
        lemma_subs_entries_roundtrip(p + e, v.drop_first(), wide);
        assert(seq![x] + v.drop_first() =~= v);
    }
}

impl Atom for Subs {
    open spec fn spec_kind() -> u32 {
        0x73756273
    }

    fn kind() -> (k: FourCC) {
        FourCC::from_u32(0x73756273)
    }

    /// A version byte (0 or 1, else `UnknownVersion`), three flag bytes, a 32-bit count, then
    /// the entries; version 1 has 32-bit subsample sizes.
    open spec fn spec_decode_body(s: Seq<u8>) -> Result<(SubsV, int), Error> {
        if s.len() < 4 {
            Err(Error::OutOfBounds)
        } else if s[0] > 1 {
            Err(Error::UnknownVersion(s[0]))
        } else if s.len() < 8 {
            Err(Error::OutOfBounds)
        } else {
            match spec_subs_entries(s, 8, s[0] == 1, be32_at(s, 4) as nat) {
                Err(e) => Err(e),
                Ok((v, p)) => Ok((((s[1], s[2], s[3]), v), p)),
            }
        }
    }

    /// Version 1 when the first subsample has a 32-bit size, else version 0; each size is
    /// written in its own width.
    open spec fn spec_encode_body(v: SubsV) -> Result<Seq<u8>, Error> {
        Ok(subs_bytes(v))
    }

    /// The counts fit, and every size has the width that the first one chooses, with four
    /// codec-specific bytes each.
    open spec fn spec_keeps(v: SubsV) -> bool {
        &&& v.1.len() <= u32::MAX
        &&& forall|k: int| 0 <= k < v.1.len() ==> subs_entry_keeps(#[trigger] v.1[k], subs_wide(v.1))
    }

    fn decode_body(buf: &[u8]) -> (r: Result<(Self, usize), Error>) {
        let version = read_u8(buf, 0)?;
        let f0 = read_u8(buf, 1)?;
        let f1 = read_u8(buf, 2)?;
        let f2 = read_u8(buf, 3)?;
        if version > 1 {
            return Err(Error::UnknownVersion(version));
        }
        let count = read_u32(buf, 4)?;
        let wide = version == 1;
        let ghost s = buf@;
        let mut entries: Vec<SubsEntry> = Vec::new();
        let mut p: usize = 8;
        let mut i: u32 = 0;
        proof {
            assert(entries@.map_values(|e: SubsEntry| e@) =~= Seq::<SubsEntryV>::empty());
            assert(forall|x: Seq<SubsEntryV>| Seq::<SubsEntryV>::empty() + x =~= x);
        }
        while i < count
            invariant
                i <= count,
                s == buf@,
                Self::spec_decode_body(s) == (match spec_subs_entries(s, 8, wide, count as nat) {
                    Err(e) => Err(e),
                    Ok((v, p)) => Ok((((f0, f1, f2), v), p)),
                }),
                match spec_subs_entries(s, p as int, wide, (count - i) as nat) {
                    Ok((rest, q)) => spec_subs_entries(s, 8, wide, count as nat) == Ok::<
                        (Seq<SubsEntryV>, int),
                        Error,
                    >((entries@.map_values(|e: SubsEntry| e@) + rest, q)),
                    Err(e) => spec_subs_entries(s, 8, wide, count as nat) == Err::<
                        (Seq<SubsEntryV>, int),
                        Error,
                    >(e),
                },
            decreases count - i,
        {
            let (x, q) = decode_subs_entry(buf, p, wide)?;
            proof {
                let ghost old_view = entries@.map_values(|e: SubsEntry| e@);
                assert(entries@.push(x).map_values(|e: SubsEntry| e@) =~= old_view.push(x@));
                assert(forall|y: Seq<SubsEntryV>| old_view + (seq![x@] + y) =~= old_view.push(x@) + y);
            }
            entries.push(x);
            p = q;
            i = i + 1;
        }
        proof {
            assert(entries@.map_values(|e: SubsEntry| e@) + Seq::<SubsEntryV>::empty()
                =~= entries@.map_values(|e: SubsEntry| e@));
        }
        let flags: [u8; 3] = [f0, f1, f2];
        assert(flags@[0] == f0 && flags@[1] == f1 && flags@[2] == f2);
        Ok((Subs { flags, entries }, p))
    }

    fn encode_body(&self, out: &mut Vec<u8>) -> (r: Result<(), Error>) {
        let ghost start = out@;
        let ghost v = self@.1;
        let ghost f = |e: SubsEntryV| subs_entry_bytes(e);
        let wide = self.entries.len() > 0 && self.entries[0].subsamples.len() > 0 && match self.entries[0].subsamples[0].size {
            SubsSubsampleSize::U32(_) => true,
            SubsSubsampleSize::U16(_) => false,
        };
        assert(wide == subs_wide(v));
        put_u8(out, if wide {
            1
        } else {
            0
        });
        put_u8(out, self.flags[0]);
        put_u8(out, self.flags[1]);
        put_u8(out, self.flags[2]);
        put_u32(out, self.entries.len() as u32);
        let ghost head = out@;
        let n = self.entries.len();
        let mut k: usize = 0;
        assert(concat_map(v.subrange(0, 0), f) =~= Seq::<u8>::empty()) by {
            assert(v.subrange(0, 0) =~= Seq::<SubsEntryV>::empty());
        }
        assert(out@ =~= head + concat_map(v.subrange(0, 0), f));
        while k < n
            invariant
                k <= n,
                n == v.len(),
                v == self@.1,
                f == (|e: SubsEntryV| subs_entry_bytes(e)),
                out@ == head + concat_map(v.subrange(0, k as int), f),
            decreases n - k,
        {
            let entry = &self.entries[k];
            assert(entry@ == v[k as int]);
            put_u32(out, entry.sample_delta);
            put_u16(out, entry.subsamples.len() as u16);
            encode_subsamples(&entry.subsamples, out);
            proof {
                lemma_concat_map_push(v.subrange(0, k as int), f, v[k as int]);
                assert(v.subrange(0, k as int).push(v[k as int]) =~= v.subrange(0, k + 1));
            }
            k = k + 1;
            assert(out@ =~= head + concat_map(v.subrange(0, k as int), f));
        }
        assert(v.subrange(0, n as int) =~= v);
        assert(out@ =~= start + subs_bytes(self@));
        Ok(())
    }

    proof fn lemma_body_roundtrip(v: SubsV) {
        let wide = subs_wide(v.1);
        let head = seq![if wide {
            1u8
        } else {
            0u8
        }, (v.0).0, (v.0).1, (v.0).2] + be32(v.1.len() as u32);
        lemma_subs_entries_roundtrip(head, v.1, wide);
        let b = subs_bytes(v);
        assert(b[0] == (if wide {
            1u8
        } else {
            0u8
        }));
        assert(be32_at(b, 4) == v.1.len());
    }
}

} // verus!
