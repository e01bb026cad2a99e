use vstd::prelude::*;

use crate::atom::Atom;
use crate::codec::{be32, be32_at, group_codec, put_u32, read_u32};
use crate::error::Error;
use crate::fourcc::FourCC;

verus! {

broadcast use group_codec;

/// Coding constraints box (`ccst`, ISO/IEC 23008-12): whether all reference pictures are
/// intra coded, whether intra prediction is used, and the most reference pictures a picture
/// may use.
#[derive(Debug, Clone, Copy, PartialEq, Eq, Default)]
pub struct Ccst {
    pub all_ref_pics_intra: bool,
    pub intra_pred_used: bool,
    pub max_ref_per_pic: u8,
}

impl View for Ccst {
    type V = Ccst;

    open spec fn view(&self) -> Ccst {
        *self
    }
}

/// The constraint word: bit 31, bit 30, then four bits from bit 26; the rest reserved.
pub open spec fn ccst_word(v: Ccst) -> u32 {
    ((if v.all_ref_pics_intra {
        0x80000000int
    } else {
        0
    }) + (if v.intra_pred_used {
        0x40000000int
    } else {
        0
    }) + (v.max_ref_per_pic % 16) as int * 0x4000000) as u32
}

impl Atom for Ccst {
    open spec fn spec_kind() -> u32 {
        0x63637374
    }

    fn kind() -> (k: FourCC) {
        FourCC::from_u32(0x63637374)
    }

    /// Version and flags (ignored), then the constraint word.
    open spec fn spec_decode_body(s: Seq<u8>) -> Result<(Ccst, int), Error> {
        if s.len() < 8 {
            Err(Error::OutOfBounds)
        } else {
            let w = be32_at(s, 4);
            Ok(
                (
                    Ccst {
                        all_ref_pics_intra: w / 0x80000000 == 1,
                        intra_pred_used: (w / 0x40000000) % 2 == 1,
                        max_ref_per_pic: ((w / 0x4000000) % 16) as u8,
                    },
                    8,
                ),
            )
        }
    }

    /// The number of reference pictures is kept to its low four bits.
    open spec fn spec_encode_body(v: Ccst) -> Result<Seq<u8>, Error> {
        Ok(be32(0) + be32(ccst_word(v)))
    }

    open spec fn spec_keeps(v: Ccst) -> bool {
        v.max_ref_per_pic < 16
    }

    fn decode_body(buf: &[u8]) -> (r: Result<(Self, usize), Error>) {
        let _ext = read_u32(buf, 0)?;
        let w = read_u32(buf, 4)?;
        Ok(
            (
                Ccst {
                    all_ref_pics_intra: w / 0x80000000 == 1,
                    intra_pred_used: (w / 0x40000000) % 2 == 1,
                    max_ref_per_pic: ((w / 0x4000000) % 16) as u8,
                },
                8,
            ),
        )
    }

    fn encode_body(&self, out: &mut Vec<u8>) -> (r: Result<(), Error>) {
        let mut w: u32 = ((self.max_ref_per_pic % 16) as u32) * 0x4000000;
        if self.all_ref_pics_intra {
            w = w + 0x80000000;
        }
        if self.intra_pred_used {
            w = w + 0x40000000;
        }
        put_u32(out, 0);
        put_u32(out, w);
        Ok(())
    }

    proof fn lemma_body_roundtrip(v: Ccst) {
        let w = ccst_word(v);
        assert(w / 0x80000000 == 1 <==> v.all_ref_pics_intra);
        assert((w / 0x40000000) % 2 == 1 <==> v.intra_pred_used);
        assert((w / 0x4000000) % 16 == v.max_ref_per_pic);
    }
}

} // verus!
