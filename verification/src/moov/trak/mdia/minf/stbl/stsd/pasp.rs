use vstd::prelude::*;

use crate::atom::Atom;
use crate::codec::{be32, be32_at, group_codec, put_u32, read_u32};
use crate::error::Error;
use crate::fourcc::FourCC;

verus! {

broadcast use group_codec;

/// Pixel aspect ratio box (`pasp`): the relative width and height of a pixel.
#[derive(Debug, Clone, Copy, PartialEq, Eq, Default)]
pub struct Pasp {
    pub h_spacing: u32,
    pub v_spacing: u32,
}

impl View for Pasp {
    type V = Pasp;

    open spec fn view(&self) -> Pasp {
        *self
    }
}

impl Pasp {
    /// A pixel aspect ratio of `h_spacing` to `v_spacing`; every pair is accepted.
    pub fn new(h_spacing: u32, v_spacing: u32) -> (r: Result<Pasp, Error>)
        ensures
            r == Ok::<Pasp, Error>(Pasp { h_spacing, v_spacing }),
    {
        Ok(Pasp { h_spacing, v_spacing })
    }
}

impl Atom for Pasp {
    open spec fn spec_kind() -> u32 {
        0x70617370
    }

    fn kind() -> (k: FourCC) {
        FourCC::from_u32(0x70617370)
    }

    /// The horizontal spacing, then the vertical spacing.
    open spec fn spec_decode_body(s: Seq<u8>) -> Result<(Pasp, int), Error> {
        if s.len() < 8 {
            Err(Error::OutOfBounds)
        } else {
            Ok((Pasp { h_spacing: be32_at(s, 0), v_spacing: be32_at(s, 4) }, 8))
        }
    }

    open spec fn spec_encode_body(v: Pasp) -> Result<Seq<u8>, Error> {
        Ok(be32(v.h_spacing) + be32(v.v_spacing))
    }

    open spec fn spec_keeps(v: Pasp) -> bool {
        true
    }

    fn decode_body(buf: &[u8]) -> (r: Result<(Self, usize), Error>) {
        let h_spacing = read_u32(buf, 0)?;
        let v_spacing = read_u32(buf, 4)?;
        Ok((Pasp { h_spacing, v_spacing }, 8))
    }

    fn encode_body(&self, out: &mut Vec<u8>) -> (r: Result<(), Error>) {
        put_u32(out, self.h_spacing);
        put_u32(out, self.v_spacing);
        Ok(())
    }

    proof fn lemma_body_roundtrip(v: Pasp) {
    }
}

} // verus!
