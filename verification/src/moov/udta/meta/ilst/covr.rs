use vstd::prelude::*;

use crate::atom::Atom;
use crate::codec::put_bytes;
use crate::error::Error;
use crate::fourcc::FourCC;

verus! {

/// Cover art box (`covr`): the bytes of an image.
#[derive(Debug, Clone, PartialEq, Eq)]
pub struct Covr(pub Vec<u8>);

impl View for Covr {
    type V = Seq<u8>;

    open spec fn view(&self) -> Seq<u8> {
        self.0@
    }
}

impl Atom for Covr {
    open spec fn spec_kind() -> u32 {
        0x636f7672
    }

    fn kind() -> (k: FourCC) {
        FourCC::from_u32(0x636f7672)
    }

    /// The whole body.
    open spec fn spec_decode_body(s: Seq<u8>) -> Result<(Seq<u8>, int), Error> {
        Ok((s, s.len() as int))
    }

    open spec fn spec_encode_body(v: Seq<u8>) -> Result<Seq<u8>, Error> {
        Ok(v)
    }

    open spec fn spec_keeps(v: Seq<u8>) -> bool {
        true
    }

    fn decode_body(buf: &[u8]) -> (r: Result<(Self, usize), Error>) {
        Ok((Covr(vstd::slice::slice_to_vec(buf)), buf.len()))
    }

    fn encode_body(&self, out: &mut Vec<u8>) -> (r: Result<(), Error>) {
        put_bytes(out, self.0.as_slice());
        Ok(())
    }

    proof fn lemma_body_roundtrip(v: Seq<u8>) {
    }
}

} // verus!
