use vstd::prelude::*;

use crate::atom::Atom;
use crate::codec::{be32, group_codec, put_u32, read_u32};
use crate::error::Error;
use crate::fourcc::FourCC;

verus! {

broadcast use group_codec;

/// Subtitle media header box (`sthd`): a full box with no fields.
#[derive(Debug, Clone, Copy, PartialEq, Eq, Default)]
pub struct Sthd {}

impl View for Sthd {
    type V = Sthd;

    open spec fn view(&self) -> Sthd {
        *self
    }
}

impl Atom for Sthd {
    open spec fn spec_kind() -> u32 {
        0x73746864
    }

    fn kind() -> (k: FourCC) {
        FourCC::from_u32(0x73746864)
    }

    /// Only version and flags, which are ignored.
    open spec fn spec_decode_body(s: Seq<u8>) -> Result<(Sthd, int), Error> {
        if s.len() < 4 {
            Err(Error::OutOfBounds)
        } else {
            Ok((Sthd {  }, 4))
        }
    }

    open spec fn spec_encode_body(v: Sthd) -> Result<Seq<u8>, Error> {
        Ok(be32(0))
    }

    open spec fn spec_keeps(v: Sthd) -> bool {
        true
    }

    fn decode_body(buf: &[u8]) -> (r: Result<(Self, usize), Error>) {
        let _ext = read_u32(buf, 0)?;
        Ok((Sthd {  }, 4))
    }

    fn encode_body(&self, out: &mut Vec<u8>) -> (r: Result<(), Error>) {
        put_u32(out, 0);
        Ok(())
    }

    proof fn lemma_body_roundtrip(v: Sthd) {
    }
}

} // verus!
