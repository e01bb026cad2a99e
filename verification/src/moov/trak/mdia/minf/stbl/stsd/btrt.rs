use vstd::prelude::*;

use crate::atom::Atom;
use crate::codec::{be32, be32_at, group_codec, put_u32, read_u32};
use crate::error::Error;
use crate::fourcc::FourCC;

verus! {

broadcast use group_codec;

/// Bit rate box (`btrt`): the decoding buffer size and the maximum and average bit rates.
#[derive(Debug, Clone, Copy, PartialEq, Eq, Default)]
pub struct Btrt {
    pub buffer_size_db: u32,
    pub max_bitrate: u32,
    pub avg_bitrate: u32,
}

impl View for Btrt {
    type V = Btrt;

    open spec fn view(&self) -> Btrt {
        *self
    }
}

impl Atom for Btrt {
    open spec fn spec_kind() -> u32 {
        0x62747274
    }

    fn kind() -> (k: FourCC) {
        FourCC::from_u32(0x62747274)
    }

    /// The buffer size, the maximum bit rate, then the average bit rate.
    open spec fn spec_decode_body(s: Seq<u8>) -> Result<(Btrt, int), Error> {
        if s.len() < 12 {
            Err(Error::OutOfBounds)
        } else {
            Ok(
                (
                    Btrt {
                        buffer_size_db: be32_at(s, 0),
                        max_bitrate: be32_at(s, 4),
                        avg_bitrate: be32_at(s, 8),
                    },
                    12,
                ),
            )
        }
    }

    open spec fn spec_encode_body(v: Btrt) -> Result<Seq<u8>, Error> {
        Ok(be32(v.buffer_size_db) + be32(v.max_bitrate) + be32(v.avg_bitrate))
    }

    open spec fn spec_keeps(v: Btrt) -> bool {
        true
    }

    fn decode_body(buf: &[u8]) -> (r: Result<(Self, usize), Error>) {
        let buffer_size_db = read_u32(buf, 0)?;
        let max_bitrate = read_u32(buf, 4)?;
        let avg_bitrate = read_u32(buf, 8)?;
        Ok((Btrt { buffer_size_db, max_bitrate, avg_bitrate }, 12))
    }

    fn encode_body(&self, out: &mut Vec<u8>) -> (r: Result<(), Error>) {
        put_u32(out, self.buffer_size_db);
        put_u32(out, self.max_bitrate);
        put_u32(out, self.avg_bitrate);
        Ok(())
    }

    proof fn lemma_body_roundtrip(v: Btrt) {
    }
}

} // verus!
