use vstd::prelude::*;

use crate::atom::{Decode, Encode};
use crate::codec::{be16, be16_at, be32, group_codec, put_u16, put_u32, read_u16, read_u32};
use crate::error::Error;

verus! {

broadcast use group_codec;

/// Metadata sample entry: the common head of a sample entry for timed metadata
/// (ISO/IEC 14496-12, 12.3.3).
#[derive(Debug, Clone, Copy, PartialEq, Eq, Default)]
pub struct MetaData {
    pub data_reference_index: u16,
}

impl View for MetaData {
    type V = MetaData;

    open spec fn view(&self) -> MetaData {
        *self
    }
}

impl Decode for MetaData {
    /// Six reserved bytes (ignored), then the data reference index.
    open spec fn spec_decode(s: Seq<u8>) -> Result<(MetaData, int), Error> {
        if s.len() < 8 {
            Err(Error::OutOfBounds)
        } else {
            Ok((MetaData { data_reference_index: be16_at(s, 6) }, 8))
        }
    }

    fn decode_prefix(buf: &[u8]) -> (r: Result<(MetaData, usize), Error>) {
        let _reserved = read_u32(buf, 0)?;
        let _reserved2 = read_u16(buf, 4)?;
        let data_reference_index = read_u16(buf, 6)?;
        Ok((MetaData { data_reference_index }, 8))
    }
}

impl Encode for MetaData {
    /// Six zero bytes, then the data reference index.
    open spec fn spec_encode(v: MetaData) -> Result<Seq<u8>, Error> {
        Ok(be32(0) + be16(0) + be16(v.data_reference_index))
    }

    fn encode(&self, out: &mut Vec<u8>) -> (r: Result<(), Error>) {
        put_u32(out, 0);
        put_u16(out, 0);
        put_u16(out, self.data_reference_index);
        assert(out@ =~= old(out)@ + (be32(0) + be16(0) + be16(self.data_reference_index)));
        Ok(())
    }
}

/// A metadata sample entry decodes back from its bytes, whatever follows them.
pub proof fn lemma_metadata_roundtrip(v: MetaData, rest: Seq<u8>)
    ensures
        MetaData::spec_decode(MetaData::spec_encode(v)->Ok_0 + rest) == Ok::<(MetaData, int), Error>(
            (v, 8),
        ),
{
    let b = MetaData::spec_encode(v)->Ok_0;
    assert(b + rest =~= be32(0) + be16(0) + (be16(v.data_reference_index) + rest));
}

} // verus!
