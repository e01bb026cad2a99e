use vstd::prelude::*;

use crate::atom::Atom;
use crate::codec::{put_u8, read_u8};
use crate::error::Error;
use crate::fourcc::FourCC;

verus! {

/// Field handling box (`fiel`): the number of fields per frame and their order.
#[derive(Debug, Clone, Copy, PartialEq, Eq, Default)]
pub struct Fiel {
    pub field_count: u8,
    pub field_order: u8,
}

impl View for Fiel {
    type V = Fiel;

    open spec fn view(&self) -> Fiel {
        *self
    }
}

impl Atom for Fiel {
    open spec fn spec_kind() -> u32 {
        0x6669656c
    }

    fn kind() -> (k: FourCC) {
        FourCC::from_u32(0x6669656c)
    }

    /// The field count, then the field order.
    open spec fn spec_decode_body(s: Seq<u8>) -> Result<(Fiel, int), Error> {
        if s.len() < 2 {
            Err(Error::OutOfBounds)
        } else {
            Ok((Fiel { field_count: s[0], field_order: s[1] }, 2))
        }
    }

    open spec fn spec_encode_body(v: Fiel) -> Result<Seq<u8>, Error> {
        Ok(seq![v.field_count, v.field_order])
    }

    open spec fn spec_keeps(v: Fiel) -> bool {
        true
    }

    fn decode_body(buf: &[u8]) -> (r: Result<(Self, usize), Error>) {
        let field_count = read_u8(buf, 0)?;
        let field_order = read_u8(buf, 1)?;
        Ok((Fiel { field_count, field_order }, 2))
    }

    fn encode_body(&self, out: &mut Vec<u8>) -> (r: Result<(), Error>) {
        put_u8(out, self.field_count);
        put_u8(out, self.field_order);
        assert(out@ =~= old(out)@ + Self::spec_encode_body(self@)->Ok_0);
        Ok(())
    }

    proof fn lemma_body_roundtrip(v: Fiel) {
    }
}

} // verus!
