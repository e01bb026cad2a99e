use vstd::prelude::*;

use crate::atom::Atom;
use crate::codec::{
    be32, be32_at, concat_map, group_codec, lemma_concat_map_fixed, lemma_concat_map_len,
    lemma_concat_map_push, lemma_read_in, put_u32, read_u32,
};
use crate::error::Error;
use crate::fourcc::FourCC;

verus! {

broadcast use group_codec;

/// Decoding time to sample box (`stts`): runs of samples with the same duration.
#[derive(Debug, Clone, PartialEq, Eq, Default)]
pub struct Stts {
    pub entries: Vec<SttsEntry>,
}

/// A run of `sample_count` samples, each lasting `sample_delta`.
#[derive(Debug, Clone, Copy, PartialEq, Eq, Default)]
pub struct SttsEntry {
    pub sample_count: u32,
    pub sample_delta: u32,
}

impl View for Stts {
    type V = Seq<SttsEntry>;

    open spec fn view(&self) -> Seq<SttsEntry> {
        self.entries@
    }
}

/// The 8 bytes of one entry.
pub open spec fn stts_entry_bytes(e: SttsEntry) -> Seq<u8> {
    be32(e.sample_count) + be32(e.sample_delta)
}

/// The entry whose bytes start at offset `i`.
pub open spec fn stts_entry_at(s: Seq<u8>, i: int) -> SttsEntry {
    SttsEntry { sample_count: be32_at(s, i), sample_delta: be32_at(s, i + 4) }
}

impl Atom for Stts {
    open spec fn spec_kind() -> u32 {
        0x73747473
    }

    fn kind() -> (k: FourCC) {
        FourCC::from_u32(0x73747473)
    }

    /// Version and flags (ignored), a count, then that many entries of two `u32`.
    open spec fn spec_decode_body(s: Seq<u8>) -> Result<(Seq<SttsEntry>, int), Error> {
        if s.len() < 8 {
            Err(Error::OutOfBounds)
        } else {
            let n = be32_at(s, 4) as int;
            if 8 + 8 * n > s.len() {
                Err(Error::OutOfBounds)
            } else {
                Ok((Seq::new(n as nat, |k: int| stts_entry_at(s, 8 + 8 * k)), 8 + 8 * n))
            }
        }
    }

    /// Version and flags 0, the count (kept to its low 32 bits), then the entries.
    open spec fn spec_encode_body(v: Seq<SttsEntry>) -> Result<Seq<u8>, Error> {
        Ok(be32(0) + be32(v.len() as u32) + concat_map(v, |e: SttsEntry| stts_entry_bytes(e)))
    }

    open spec fn spec_keeps(v: Seq<SttsEntry>) -> bool {
        v.len() <= u32::MAX
    }

    fn decode_body(buf: &[u8]) -> (r: Result<(Self, usize), Error>) {
        let _ext = read_u32(buf, 0)?;
        let count = read_u32(buf, 4)?;
        if count as usize > (buf.len() - 8) / 8 {
            return Err(Error::OutOfBounds);
        }
        let n = count as usize;
        let mut entries: Vec<SttsEntry> = Vec::new();
        let mut i: usize = 0;
        while i < n
            invariant
                i <= n,
                8 + 8 * n <= buf.len(),
                entries@ == Seq::new(i as nat, |k: int| stts_entry_at(buf@, 8 + 8 * k)),
            decreases n - i,
        {
            let sample_count = read_u32(buf, 8 + 8 * i)?;
            let sample_delta = read_u32(buf, 12 + 8 * i)?;
            entries.push(SttsEntry { sample_count, sample_delta });
            i = i + 1;
            assert(entries@ =~= Seq::new(i as nat, |k: int| stts_entry_at(buf@, 8 + 8 * k)));
        }
        Ok((Stts { entries }, 8 + 8 * n))
    }

    fn encode_body(&self, out: &mut Vec<u8>) -> (r: Result<(), Error>) {
        put_u32(out, 0);
        put_u32(out, self.entries.len() as u32);
        let ghost start = out@;
        let ghost f = |e: SttsEntry| stts_entry_bytes(e);
        let mut i: usize = 0;
        while i < self.entries.len()
            invariant
                i <= self.entries@.len(),
                f == (|e: SttsEntry| stts_entry_bytes(e)),
                out@ == start + concat_map(self.entries@.subrange(0, i as int), f),
            decreases self.entries@.len() - i,
        {
            let e = self.entries[i];
            let ghost prev = out@;
            put_u32(out, e.sample_count);
            put_u32(out, e.sample_delta);
            assert(out@ =~= prev + f(e));
            proof {
                lemma_concat_map_push(self.entries@.subrange(0, i as int), f, e);
                assert(self.entries@.subrange(0, i as int).push(e) =~= self.entries@.subrange(
                    0,
                    i + 1,
                ));
            }
            i = i + 1;
            assert(out@ =~= start + concat_map(self.entries@.subrange(0, i as int), f));
        }
        assert(self.entries@.subrange(0, self.entries@.len() as int) =~= self.entries@);
        Ok(())
    }

    proof fn lemma_body_roundtrip(v: Seq<SttsEntry>) {
        let f = |e: SttsEntry| stts_entry_bytes(e);
        let h = be32(0) + be32(v.len() as u32);
        let c = concat_map(v, f);
        let b = h + c;
        lemma_concat_map_len(v, f, 8);
        assert forall|k: int| 0 <= k < v.len() implies stts_entry_at(b, 8 + 8 * k) == v[k] by {
            lemma_concat_map_fixed(v, f, 8, k);
            lemma_read_in(c, 8 * k, f(v[k]), 0);
            lemma_read_in(c, 8 * k, f(v[k]), 4);
        }
        assert(Seq::new(v.len(), |k: int| stts_entry_at(b, 8 + 8 * k)) =~= v);
    }
}

/// Decoding an `stts` body reads the count from bytes 4 to 8, then each entry `k` from
/// offset `8 + 8 * k`: its sample count is the big-endian `u32` there and its sample delta
/// the one 4 bytes later.
pub proof fn lemma_stts_decode_layout(s: Seq<u8>)
    ensures
        Stts::spec_decode_body(s) matches Ok((v, n)) ==> {
            &&& v.len() == be32_at(s, 4)
            &&& n == 8 + 8 * v.len()
            &&& forall|k: int|
                0 <= k < v.len() ==> (#[trigger] v[k]).sample_count == be32_at(s, 8 + 8 * k)
                    && v[k].sample_delta == be32_at(s, 12 + 8 * k)
        },
{
}

/// Encoding an `stts` body writes version and flags 0, the count, then for each entry `k`
/// the big-endian sample count at offset `8 + 8 * k` followed by the big-endian sample delta
/// at offset `12 + 8 * k`.
pub proof fn lemma_stts_encode_layout(v: Seq<SttsEntry>)
    ensures
        Stts::spec_encode_body(v) matches Ok(b) ==> {
            &&& b.len() == 8 + 8 * v.len()
            &&& b.subrange(0, 4) == be32(0)
            &&& b.subrange(4, 8) == be32(v.len() as u32)
            &&& forall|k: int|
                0 <= k < v.len() ==> b.subrange(8 + 8 * k, 12 + 8 * k) == be32(
                    (#[trigger] v[k]).sample_count,
                ) && b.subrange(12 + 8 * k, 16 + 8 * k) == be32(v[k].sample_delta)
        },
{
    let f = |e: SttsEntry| stts_entry_bytes(e);
    let h = be32(0) + be32(v.len() as u32);
    let c = concat_map(v, f);
    let b = h + c;
    lemma_concat_map_len(v, f, 8);
    assert(b.subrange(0, 4) =~= be32(0));
    assert(b.subrange(4, 8) =~= be32(v.len() as u32));
    assert forall|k: int| 0 <= k < v.len() implies b.subrange(8 + 8 * k, 12 + 8 * k) == be32(
        (#[trigger] v[k]).sample_count,
    ) && b.subrange(12 + 8 * k, 16 + 8 * k) == be32(v[k].sample_delta) by {
        lemma_concat_map_fixed(v, f, 8, k);
        let e = c.subrange(8 * k, 8 * k + 8);
        assert(e == be32(v[k].sample_count) + be32(v[k].sample_delta));
        assert(b.subrange(8 + 8 * k, 12 + 8 * k) =~= e.subrange(0, 4));
        assert(b.subrange(12 + 8 * k, 16 + 8 * k) =~= e.subrange(4, 8));
        assert(e.subrange(0, 4) =~= be32(v[k].sample_count));
        assert(e.subrange(4, 8) =~= be32(v[k].sample_delta));
    }
}

} // verus!
