use vstd::prelude::*;

use crate::atom::{Decode, Encode};
use crate::codec::{be16, be16_at, be32, group_codec, lemma_at_shift, put_u16, put_u32, read_u16};
use crate::error::Error;
use crate::types::{
    compressor_bytes, compressor_keeps, fixed16_bytes, put_fixed16, read_fixed16,
    spec_decode_compressor, Compressor, FixedPoint,
};

verus! {

broadcast use group_codec;

/// Visual sample entry: the common head of a sample entry for video (ISO/IEC 14496-12,
/// 12.1.3).
#[derive(Debug, Clone, PartialEq, Eq, Default)]
pub struct Visual {
    pub data_reference_index: u16,
    pub width: u16,
    pub height: u16,
    pub horizresolution: FixedPoint<u16>,
    pub vertresolution: FixedPoint<u16>,
    pub frame_count: u16,
    pub compressor: Compressor,
    pub depth: u16,
}

/// The value of a visual sample entry.
pub struct VisualV {
    pub data_reference_index: u16,
    pub width: u16,
    pub height: u16,
    pub horizresolution: (u16, u16),
    pub vertresolution: (u16, u16),
    pub frame_count: u16,
    pub compressor: Seq<char>,
    pub depth: u16,
}

impl View for Visual {
    type V = VisualV;

    open spec fn view(&self) -> VisualV {
        VisualV {
            data_reference_index: self.data_reference_index,
            width: self.width,
            height: self.height,
            horizresolution: self.horizresolution@,
            vertresolution: self.vertresolution@,
            frame_count: self.frame_count,
            compressor: self.compressor@,
            depth: self.depth,
        }
    }
}

/// The bytes of a visual sample entry: reserved and predefined fields are zero, but for the
/// last, which is -1.
pub open spec fn visual_bytes(v: VisualV) -> Seq<u8> {
    be32(0) + be16(0) + be16(v.data_reference_index) + be16(0) + be16(0) + be32(0) + be32(0)
        + be32(0) + be16(v.width) + be16(v.height) + fixed16_bytes(v.horizresolution)
        + fixed16_bytes(v.vertresolution) + be32(0) + be16(v.frame_count) + compressor_bytes(
        v.compressor,
    ) + be16(v.depth) + be16(0xffff)
}

impl Decode for Visual {
    /// 78 bytes; the reserved and predefined fields are ignored.
    open spec fn spec_decode(s: Seq<u8>) -> Result<(VisualV, int), Error> {
        if s.len() < 78 {
            Err(Error::OutOfBounds)
        } else {
            match spec_decode_compressor(s, 42) {
                Err(e) => Err(e),
                Ok(c) => Ok(
                    (
                        VisualV {
                            data_reference_index: be16_at(s, 6),
                            width: be16_at(s, 24),
                            height: be16_at(s, 26),
                            horizresolution: (be16_at(s, 28), be16_at(s, 30)),
                            vertresolution: (be16_at(s, 32), be16_at(s, 34)),
                            frame_count: be16_at(s, 40),
                            compressor: c,
                            depth: be16_at(s, 74),
                        },
                        78,
                    ),
                ),
            }
        }
    }

    fn decode_prefix(buf: &[u8]) -> (r: Result<(Visual, usize), Error>) {
        if buf.len() < 78 {
            return Err(Error::OutOfBounds);
        }
        let data_reference_index = read_u16(buf, 6)?;
        let width = read_u16(buf, 24)?;
        let height = read_u16(buf, 26)?;
        let horizresolution = read_fixed16(buf, 28)?;
        let vertresolution = read_fixed16(buf, 32)?;
        let frame_count = read_u16(buf, 40)?;
        let compressor = Compressor::decode_at(buf, 42)?;
        let depth = read_u16(buf, 74)?;
        Ok(
            (
                Visual {
                    data_reference_index,
                    width,
                    height,
                    horizresolution,
                    vertresolution,
                    frame_count,
                    compressor,
                    depth,
                },
                78,
            ),
        )
    }
}

impl Encode for Visual {
    open spec fn spec_encode(v: VisualV) -> Result<Seq<u8>, Error> {
        Ok(visual_bytes(v))
    }

    fn encode(&self, out: &mut Vec<u8>) -> (r: Result<(), Error>) {
        let ghost start = out@;
        put_u32(out, 0);
        put_u16(out, 0);
        put_u16(out, self.data_reference_index);
        put_u16(out, 0);
        put_u16(out, 0);
        put_u32(out, 0);
        put_u32(out, 0);
        put_u32(out, 0);
        put_u16(out, self.width);
        put_u16(out, self.height);
        put_fixed16(out, &self.horizresolution);
        put_fixed16(out, &self.vertresolution);
        put_u32(out, 0);
        put_u16(out, self.frame_count);
        self.compressor.encode(out);
        put_u16(out, self.depth);
        put_u16(out, 0xffff);
        assert(out@ =~= start + visual_bytes(self@));
        Ok(())
    }
}

/// A visual sample entry with a kept compressor name decodes back from its bytes, whatever
/// follows them.
pub proof fn lemma_visual_roundtrip(v: VisualV, rest: Seq<u8>)
    requires
        compressor_keeps(v.compressor),
    ensures
        Visual::spec_decode(visual_bytes(v) + rest) == Ok::<(VisualV, int), Error>((v, 78)),
{
    let head = be32(0) + be16(0) + be16(v.data_reference_index) + be16(0) + be16(0) + be32(0)
        + be32(0) + be32(0) + be16(v.width) + be16(v.height) + fixed16_bytes(v.horizresolution)
        + fixed16_bytes(v.vertresolution) + be32(0) + be16(v.frame_count);
    let c = compressor_bytes(v.compressor);
    let tail = be16(v.depth) + be16(0xffff) + rest;
    let s = visual_bytes(v) + rest;
    assert(head.len() == 42);
    assert(c.len() == 32);
    assert(s =~= head + c + tail);
    Compressor::lemma_roundtrip(v.compressor, head, tail);
    assert(s =~= head + (c + tail));
    lemma_at_shift(head + c, tail, 0);
    assert(be16_at(s, 74) == v.depth);
    assert(be16_at(head, 6) == v.data_reference_index);
    assert(be16_at(s, 6) == v.data_reference_index);
    assert(be16_at(s, 24) == v.width);
    assert(be16_at(s, 26) == v.height);
    assert(be16_at(s, 28) == v.horizresolution.0);
    assert(be16_at(s, 30) == v.horizresolution.1);
    assert(be16_at(s, 32) == v.vertresolution.0);
    assert(be16_at(s, 34) == v.vertresolution.1);
    assert(be16_at(s, 40) == v.frame_count);
}

} // verus!
