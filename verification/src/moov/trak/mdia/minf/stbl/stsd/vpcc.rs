use vstd::prelude::*;

use crate::atom::Atom;
use crate::codec::{be16, be16_at, group_codec, put_u16, put_u8, read_u16, read_u8};
use crate::error::Error;
use crate::fourcc::FourCC;

verus! {

broadcast use group_codec;

/// VP codec configuration box of the earlier draft binding (`vpcc`, version 1), which
/// records the size of the initialization data but not the data.
#[derive(Debug, Clone, Copy, PartialEq, Eq, Default)]
pub struct Vpcc {
    pub profile: u8,
    pub level: u8,
    pub bit_depth: u8,
    pub chroma_subsampling: u8,
    pub video_full_range_flag: bool,
    pub color_primaries: u8,
    pub transfer_characteristics: u8,
    pub matrix_coefficients: u8,
    pub codec_initialization_data_size: u16,
}

impl View for Vpcc {
    type V = Vpcc;

    open spec fn view(&self) -> Vpcc {
        *self
    }
}

/// The packed byte: the bit depth shifted up four bits, the chroma subsampling shifted up
/// one bit, and the full range flag, or'ed together in eight bits.
pub open spec fn vpcc_packed_byte(bit_depth: u8, chroma_subsampling: u8, full_range: bool) -> u8 {
    ((bit_depth << 4u8) | (chroma_subsampling << 1u8) | (if full_range {
        1u8
    } else {
        0u8
    })) as u8
}

proof fn lemma_vpcc_packed(bit_depth: u8, chroma_subsampling: u8, full_range: u8)
    requires
        bit_depth < 16,
        chroma_subsampling < 8,
        full_range < 2,
    ensures
        ({
            let b = ((bit_depth << 4u8) | (chroma_subsampling << 1u8) | full_range) as u8;
            &&& b >> 4u8 == bit_depth
            &&& (b << 4u8) >> 5u8 == chroma_subsampling
            &&& b & 1u8 == full_range
        }),
{
    assert(bit_depth < 16 && chroma_subsampling < 8 && full_range < 2 ==> ({
        let b = ((bit_depth << 4u8) | (chroma_subsampling << 1u8) | full_range) as u8;
        &&& b >> 4u8 == bit_depth
        &&& (b << 4u8) >> 5u8 == chroma_subsampling
        &&& b & 1u8 == full_range
    })) by (bit_vector);
}

impl Atom for Vpcc {
    open spec fn spec_kind() -> u32 {
        0x76706363
    }

    fn kind() -> (k: FourCC) {
        FourCC::from_u32(0x76706363)
    }

    /// Version 1 (else `UnknownVersion`) and flags (ignored), profile, level, the packed
    /// byte, colour primaries, transfer characteristics, matrix coefficients, then the
    /// 16-bit size of the initialization data.
    open spec fn spec_decode_body(s: Seq<u8>) -> Result<(Vpcc, int), Error> {
        if s.len() < 4 {
            Err(Error::OutOfBounds)
        } else if s[0] != 1 {
            Err(Error::UnknownVersion(s[0]))
        } else if s.len() < 12 {
            Err(Error::OutOfBounds)
        } else {
            Ok(
                (
                    Vpcc {
                        profile: s[4],
                        level: s[5],
                        bit_depth: s[6] >> 4u8,
                        chroma_subsampling: (s[6] << 4u8) >> 5u8,
                        video_full_range_flag: s[6] & 1u8 == 1,
                        color_primaries: s[7],
                        transfer_characteristics: s[8],
                        matrix_coefficients: s[9],
                        codec_initialization_data_size: be16_at(s, 10),
                    },
                    12,
                ),
            )
        }
    }

    open spec fn spec_encode_body(v: Vpcc) -> Result<Seq<u8>, Error> {
        Ok(
            seq![
                1u8,
                0,
                0,
                0,
                v.profile,
                v.level,
                vpcc_packed_byte(v.bit_depth, v.chroma_subsampling, v.video_full_range_flag),
                v.color_primaries,
                v.transfer_characteristics,
                v.matrix_coefficients,
            ] + be16(v.codec_initialization_data_size),
        )
    }

    /// A bit depth below 16 and a chroma subsampling below 8.
    open spec fn spec_keeps(v: Vpcc) -> bool {
        v.bit_depth < 16 && v.chroma_subsampling < 8
    }

    fn decode_body(buf: &[u8]) -> (r: Result<(Self, usize), Error>) {
        let version = read_u8(buf, 0)?;
        if buf.len() < 4 {
            return Err(Error::OutOfBounds);
        }
        if version != 1 {
            return Err(Error::UnknownVersion(version));
        }
        if buf.len() < 12 {
            return Err(Error::OutOfBounds);
        }
        let profile = read_u8(buf, 4)?;
        let level = read_u8(buf, 5)?;
        let b = read_u8(buf, 6)?;
        let color_primaries = read_u8(buf, 7)?;
        let transfer_characteristics = read_u8(buf, 8)?;
        let matrix_coefficients = read_u8(buf, 9)?;
        let codec_initialization_data_size = read_u16(buf, 10)?;
        Ok(
            (
                Vpcc {
                    profile,
                    level,
                    bit_depth: b >> 4u8,
                    chroma_subsampling: (b << 4u8) >> 5u8,
                    video_full_range_flag: b & 1u8 == 1,
                    color_primaries,
                    transfer_characteristics,
                    matrix_coefficients,
                    codec_initialization_data_size,
                },
                12,
            ),
        )
    }

    fn encode_body(&self, out: &mut Vec<u8>) -> (r: Result<(), Error>) {
        let ghost start = out@;
        put_u8(out, 1);
        put_u8(out, 0);
        put_u8(out, 0);
        put_u8(out, 0);
        put_u8(out, self.profile);
        put_u8(out, self.level);
        let flag: u8 = if self.video_full_range_flag {
            1
        } else {
            0
        };
        put_u8(out, (self.bit_depth << 4u8) | (self.chroma_subsampling << 1u8) | flag);
        put_u8(out, self.color_primaries);
        put_u8(out, self.transfer_characteristics);
        put_u8(out, self.matrix_coefficients);
        put_u16(out, self.codec_initialization_data_size);
        assert(out@ =~= start + Self::spec_encode_body(*self)->Ok_0);
        Ok(())
    }

    proof fn lemma_body_roundtrip(v: Vpcc) {
        let b = Self::spec_encode_body(v)->Ok_0;
        let f: u8 = if v.video_full_range_flag {
            1
        } else {
            0
        };
        lemma_vpcc_packed(v.bit_depth, v.chroma_subsampling, f);
        assert(b[6] == vpcc_packed_byte(v.bit_depth, v.chroma_subsampling, v.video_full_range_flag));
        assert(b.subrange(10, 12) =~= be16(v.codec_initialization_data_size));
        crate::codec::lemma_read_in(b, 10, be16(v.codec_initialization_data_size), 0);
    }
}

} // verus!
