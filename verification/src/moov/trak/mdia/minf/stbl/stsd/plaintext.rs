use vstd::prelude::*;

use crate::atom::{Decode, Encode};
use crate::codec::{be16, be16_at, be32, group_codec, put_u16, put_u32, read_u16, read_u32};
use crate::error::Error;

verus! {

broadcast use group_codec;

/// Plain text sample entry: the common head of a sample entry for timed text
/// (ISO/IEC 14496-12, 12.5.3).
#[derive(Debug, Clone, Copy, PartialEq, Eq, Default)]
pub struct PlainText {
    pub data_reference_index: u16,
}

impl View for PlainText {
    type V = PlainText;

    open spec fn view(&self) -> PlainText {
        *self
    }
}

impl Decode for PlainText {
    /// Six reserved bytes (ignored), then the data reference index.
    open spec fn spec_decode(s: Seq<u8>) -> Result<(PlainText, int), Error> {
        if s.len() < 8 {
            Err(Error::OutOfBounds)
        } else {
            Ok((PlainText { data_reference_index: be16_at(s, 6) }, 8))
        }
    }

    fn decode_prefix(buf: &[u8]) -> (r: Result<(PlainText, usize), Error>) {
        let _reserved = read_u32(buf, 0)?;
        let _reserved2 = read_u16(buf, 4)?;
        let data_reference_index = read_u16(buf, 6)?;
        Ok((PlainText { data_reference_index }, 8))
    }
}

impl Encode for PlainText {
    /// Six zero bytes, then the data reference index.
    open spec fn spec_encode(v: PlainText) -> Result<Seq<u8>, Error> {
        Ok(be32(0) + be16(0) + be16(v.data_reference_index))
    }

    fn encode(&self, out: &mut Vec<u8>) -> (r: Result<(), Error>) {
        put_u32(out, 0);
        put_u16(out, 0);
        put_u16(out, self.data_reference_index);
        assert(out@ =~= old(out)@ + (be32(0) + be16(0) + be16(self.data_reference_index)));
        Ok(())
    }
}

/// A plain text sample entry decodes back from its bytes, whatever follows them.
pub proof fn lemma_plaintext_roundtrip(v: PlainText, rest: Seq<u8>)
    ensures
        PlainText::spec_decode(PlainText::spec_encode(v)->Ok_0 + rest) == Ok::<(PlainText, int), Error>(
            (v, 8),
        ),
{
    let b = PlainText::spec_encode(v)->Ok_0;
    assert(b + rest =~= be32(0) + be16(0) + (be16(v.data_reference_index) + rest));
}

} // verus!
