use vstd::prelude::*;

use crate::atom::Atom;
use crate::codec::{
    be32, be32_at, be32_seq, group_codec, lemma_be32_seq_at, lemma_be32_seq_len, put_u32,
    put_u32_list, read_u32, read_u32_list,
};
use crate::error::Error;
use crate::fourcc::FourCC;

verus! {

broadcast use group_codec;

/// Sample size box (`stsz`): the size of each sample.
#[derive(Debug, Clone, PartialEq, Eq, Default)]
pub struct Stsz {
    pub sample_sizes: Vec<u32>,
}

impl View for Stsz {
    type V = Seq<u32>;

    open spec fn view(&self) -> Seq<u32> {
        self.sample_sizes@
    }
}

/// Whether every size is the first one.
pub open spec fn all_same(v: Seq<u32>) -> bool {
    forall|k: int| 0 <= k < v.len() ==> #[trigger] v[k] == v[0]
}

impl Atom for Stsz {
    open spec fn spec_kind() -> u32 {
        0x7374737a
    }

    fn kind() -> (k: FourCC) {
        FourCC::from_u32(0x7374737a)
    }

    /// Version and flags (ignored), a common size, a count; when the common size is 0 the
    /// sizes follow one by one, else every sample has the common size.
    open spec fn spec_decode_body(s: Seq<u8>) -> Result<(Seq<u32>, int), Error> {
        if s.len() < 12 {
            Err(Error::OutOfBounds)
        } else {
            let size = be32_at(s, 4);
            let n = be32_at(s, 8) as int;
            if size == 0 {
                if 12 + 4 * n > s.len() {
                    Err(Error::OutOfBounds)
                } else {
                    Ok((Seq::new(n as nat, |k: int| be32_at(s, 12 + 4 * k)), 12 + 4 * n))
                }
            } else {
                Ok((Seq::new(n as nat, |k: int| size), 12))
            }
        }
    }

    /// No sizes: 0 and 0; all sizes equal: that size and the count; else 0, the count, the sizes.
    /// The count keeps its low 32 bits.
    open spec fn spec_encode_body(v: Seq<u32>) -> Result<Seq<u8>, Error> {
        if v.len() == 0 {
            Ok(be32(0) + be32(0) + be32(0))
        } else if all_same(v) {
            Ok(be32(0) + be32(v[0]) + be32(v.len() as u32))
        } else {
            Ok(be32(0) + be32(0) + be32(v.len() as u32) + be32_seq(v))
        }
    }

    /// A non-empty list of zero sizes is written as "common size 0", which reads back as a list.
    open spec fn spec_keeps(v: Seq<u32>) -> bool {
        v.len() <= u32::MAX && !(v.len() > 0 && all_same(v) && v[0] == 0)
    }

    fn decode_body(buf: &[u8]) -> (r: Result<(Self, usize), Error>) {
        let _ext = read_u32(buf, 0)?;
        let size = read_u32(buf, 4)?;
        let count = read_u32(buf, 8)?;
        if size == 0 {
            let sample_sizes = read_u32_list(buf, 12, count as usize)?;
            Ok((Stsz { sample_sizes }, 12 + 4 * count as usize))
        } else {
            let mut sample_sizes: Vec<u32> = Vec::new();
            let mut i: u32 = 0;
            while i < count
                invariant
                    i <= count,
                    sample_sizes@ == Seq::new(i as nat, |k: int| size),
                decreases count - i,
            {
                sample_sizes.push(size);
                i = i + 1;
                assert(sample_sizes@ =~= Seq::new(i as nat, |k: int| size));
            }
            Ok((Stsz { sample_sizes }, 12))
        }
    }

    fn encode_body(&self, out: &mut Vec<u8>) -> (r: Result<(), Error>) {
        put_u32(out, 0);
        let n = self.sample_sizes.len();
        if n == 0 {
            put_u32(out, 0);
            put_u32(out, 0);
            return Ok(());
        }
        let first = self.sample_sizes[0];
        let mut same = true;
        let mut i: usize = 1;
        while i < n
            invariant
                1 <= i <= n,
                n == self.sample_sizes@.len(),
                first == self.sample_sizes@[0],
                same == (forall|k: int| 0 <= k < i ==> #[trigger] self.sample_sizes@[k] == first),
            decreases n - i,
        {
            if self.sample_sizes[i] != first {
                same = false;
            }
            i = i + 1;
        }
        if same {
            put_u32(out, first);
            put_u32(out, n as u32);
        } else {
            put_u32(out, 0);
            put_u32(out, n as u32);
            put_u32_list(out, &self.sample_sizes);
        }
        Ok(())
    }

    proof fn lemma_body_roundtrip(v: Seq<u32>) {
        if v.len() == 0 {
            let b = be32(0) + be32(0) + be32(0);
            assert(Seq::new(0, |k: int| be32_at(b, 12 + 4 * k)) =~= v);
        } else if all_same(v) {
            assert(Seq::new(v.len(), |k: int| v[0]) =~= v);
        } else {
            let h = be32(0) + be32(0) + be32(v.len() as u32);
            let b = h + be32_seq(v);
            lemma_be32_seq_len(v);
            assert forall|k: int| 0 <= k < v.len() implies be32_at(b, 12 + 4 * k) == v[k] by {
                lemma_be32_seq_at(v, k);
            }
            assert(Seq::new(v.len(), |k: int| be32_at(b, 12 + 4 * k)) =~= v);
        }
    }
}

} // verus!
