use vstd::prelude::*;

use crate::atom::Atom;
use crate::codec::{
    be32, be32_at, be32_seq, group_codec, lemma_be32_seq_at, lemma_be32_seq_len, put_u32,
    put_u32_list, read_u32, read_u32_list,
};
use crate::error::Error;
use crate::fourcc::FourCC;

verus! {

broadcast use group_codec;

/// Sync sample box (`stss`): the numbers of the samples that are random access points.
#[derive(Debug, Clone, PartialEq, Eq, Default)]
pub struct Stss {
    pub entries: Vec<u32>,
}

impl View for Stss {
    type V = Seq<u32>;

    open spec fn view(&self) -> Seq<u32> {
        self.entries@
    }
}

impl Atom for Stss {
    open spec fn spec_kind() -> u32 {
        0x73747373
    }

    fn kind() -> (k: FourCC) {
        FourCC::from_u32(0x73747373)
    }

    /// Version and flags (ignored), a count, then that many sample numbers.
    open spec fn spec_decode_body(s: Seq<u8>) -> Result<(Seq<u32>, int), Error> {
        if s.len() < 8 {
            Err(Error::OutOfBounds)
        } else {
            let n = be32_at(s, 4) as int;
            if 8 + 4 * n > s.len() {
                Err(Error::OutOfBounds)
            } else {
                Ok((Seq::new(n as nat, |k: int| be32_at(s, 8 + 4 * k)), 8 + 4 * n))
            }
        }
    }

    /// Version and flags 0, the count (kept to its low 32 bits), then the entries.
    open spec fn spec_encode_body(v: Seq<u32>) -> Result<Seq<u8>, Error> {
        Ok(be32(0) + be32(v.len() as u32) + be32_seq(v))
    }

    open spec fn spec_keeps(v: Seq<u32>) -> bool {
        v.len() <= u32::MAX
    }

    fn decode_body(buf: &[u8]) -> (r: Result<(Self, usize), Error>) {
        let _ext = read_u32(buf, 0)?;
        let count = read_u32(buf, 4)?;
        let entries = read_u32_list(buf, 8, count as usize)?;
        Ok((Stss { entries }, 8 + 4 * count as usize))
    }

    fn encode_body(&self, out: &mut Vec<u8>) -> (r: Result<(), Error>) {
        put_u32(out, 0);
        put_u32(out, self.entries.len() as u32);
        put_u32_list(out, &self.entries);
        assert(out@ =~= old(out)@ + (be32(0) + be32(self.entries@.len() as u32) + be32_seq(
            self.entries@,
        )));
        Ok(())
    }

    proof fn lemma_body_roundtrip(v: Seq<u32>) {
        let b = be32(0) + be32(v.len() as u32) + be32_seq(v);
        lemma_be32_seq_len(v);
        assert forall|k: int| 0 <= k < v.len() implies be32_at(b, 8 + 4 * k) == v[k] by {
            lemma_be32_seq_at(v, k);
        }
        assert(Seq::new(v.len(), |k: int| be32_at(b, 8 + 4 * k)) =~= v);
    }
}

} // verus!
