use vstd::prelude::*;

use crate::atom::Atom;
use crate::codec::{be16, group_codec, put_bytes, put_u16, put_u8, read_bytes, read_u16, read_u8};
use crate::error::Error;
use crate::fourcc::FourCC;

verus! {

broadcast use group_codec;

/// VP codec configuration box (`vpcC`, version 1), as the VP9 codec binding for ISO base
/// media files defines it.
#[derive(Debug, Clone, PartialEq, Eq)]
pub struct VpcC {
    pub profile: u8,
    pub level: u8,
    pub bit_depth: u8,
    pub chroma_subsampling: u8,
    pub video_full_range_flag: bool,
    pub color_primaries: u8,
    pub transfer_characteristics: u8,
    pub matrix_coefficients: u8,
    pub codec_initialization_data: Vec<u8>,
}

impl Default for VpcC {
    /// 8-bit 4:2:0 with BT.709 colour, level undefined.
    fn default() -> (r: Self)
        ensures
            r.profile == 0 && r.level == 0 && r.bit_depth == 8 && r.chroma_subsampling == 0
                && !r.video_full_range_flag && r.color_primaries == 1
                && r.transfer_characteristics == 1 && r.matrix_coefficients == 1
                && r.codec_initialization_data@.len() == 0,
    {
        VpcC {
            profile: 0,
            level: 0,
            bit_depth: 8,
            chroma_subsampling: 0,
            video_full_range_flag: false,
            color_primaries: 1,
            transfer_characteristics: 1,
            matrix_coefficients: 1,
            codec_initialization_data: Vec::new(),
        }
    }
}

/// The value of a `vpcC` box.
pub struct VpcCV {
    pub profile: u8,
    pub level: u8,
    pub bit_depth: u8,
    pub chroma_subsampling: u8,
    pub video_full_range_flag: bool,
    pub color_primaries: u8,
    pub transfer_characteristics: u8,
    pub matrix_coefficients: u8,
    pub codec_initialization_data: Seq<u8>,
}

impl View for VpcC {
    type V = VpcCV;

    open spec fn view(&self) -> VpcCV {
        VpcCV {
            profile: self.profile,
            level: self.level,
            bit_depth: self.bit_depth,
            chroma_subsampling: self.chroma_subsampling,
            video_full_range_flag: self.video_full_range_flag,
            color_primaries: self.color_primaries,
            transfer_characteristics: self.transfer_characteristics,
            matrix_coefficients: self.matrix_coefficients,
            codec_initialization_data: self.codec_initialization_data@,
        }
    }
}

/// The byte that packs the bit depth (top four bits, kept to its low four), the chroma
/// subsampling (three bits from bit 1) and the full range flag (bit 0).
pub open spec fn vp_packed_byte(bit_depth: u8, chroma_subsampling: u8, full_range: bool) -> u8 {
    ((bit_depth % 16) as int * 16 + chroma_subsampling as int * 2 + (if full_range {
        1int
    } else {
        0
    })) as u8
}

/// The message of the error for matrix coefficients 0 without 4:4:4 subsampling.
pub open spec fn rgb_message() -> &'static str {
    "Matrix coefficient 0 (RGB) is only valid with chroma subsampling 3 (4:4:4)"
}

impl Atom for VpcC {
    open spec fn spec_kind() -> u32 {
        0x76706343
    }

    fn kind() -> (k: FourCC) {
        FourCC::from_u32(0x76706343)
    }

    /// Version 1 (else `UnknownVersion`) and flags (ignored), profile, level, the packed
    /// byte, colour primaries, transfer characteristics, matrix coefficients, a 16-bit size
    /// (ignored), then the initialization data up to the end of the body.
    open spec fn spec_decode_body(s: Seq<u8>) -> Result<(VpcCV, int), Error> {
        if s.len() < 4 {
            Err(Error::OutOfBounds)
        } else if s[0] != 1 {
            Err(Error::UnknownVersion(s[0]))
        } else if s.len() < 12 {
            Err(Error::OutOfBounds)
        } else {
            Ok(
                (
                    VpcCV {
                        profile: s[4],
                        level: s[5],
                        bit_depth: s[6] / 16,
                        chroma_subsampling: (s[6] / 2) % 8,
                        video_full_range_flag: s[6] % 2 == 1,
                        color_primaries: s[7],
                        transfer_characteristics: s[8],
                        matrix_coefficients: s[9],
                        codec_initialization_data: s.subrange(12, s.len() as int),
                    },
                    s.len() as int,
                ),
            )
        }
    }

    /// A chroma subsampling above 3 is `Reserved`; matrix coefficients 0 with a subsampling
    /// other than 3 is `InvalidCombination`. The size is the data's length kept to 16 bits.
    open spec fn spec_encode_body(v: VpcCV) -> Result<Seq<u8>, Error> {
        if v.chroma_subsampling > 3 {
            Err(Error::Reserved)
        } else if v.matrix_coefficients == 0 && v.chroma_subsampling != 3 {
            Err(Error::InvalidCombination(rgb_message()))
        } else {
            Ok(
                seq![
                    1u8,
                    0,
                    0,
                    0,
                    v.profile,
                    v.level,
                    vp_packed_byte(v.bit_depth, v.chroma_subsampling, v.video_full_range_flag),
                    v.color_primaries,
                    v.transfer_characteristics,
                    v.matrix_coefficients,
                ] + be16(v.codec_initialization_data.len() as u16) + v.codec_initialization_data,
            )
        }
    }

    /// A bit depth below 16.
    open spec fn spec_keeps(v: VpcCV) -> bool {
        v.bit_depth < 16
    }

    fn decode_body(buf: &[u8]) -> (r: Result<(Self, usize), Error>) {
        let version = read_u8(buf, 0)?;
        if buf.len() < 4 {
            return Err(Error::OutOfBounds);
        }
        if version != 1 {
            return Err(Error::UnknownVersion(version));
        }
        let profile = read_u8(buf, 4)?;
        let level = read_u8(buf, 5)?;
        let b = read_u8(buf, 6)?;
        let color_primaries = read_u8(buf, 7)?;
        let transfer_characteristics = read_u8(buf, 8)?;
        let matrix_coefficients = read_u8(buf, 9)?;
        let _size = read_u16(buf, 10)?;
        let codec_initialization_data = read_bytes(buf, 12, buf.len() - 12)?;
        Ok(
            (
                VpcC {
                    profile,
                    level,
                    bit_depth: b / 16,
                    chroma_subsampling: (b / 2) % 8,
                    video_full_range_flag: b % 2 == 1,
                    color_primaries,
                    transfer_characteristics,
                    matrix_coefficients,
                    codec_initialization_data,
                },
                buf.len(),
            ),
        )
    }

    fn encode_body(&self, out: &mut Vec<u8>) -> (r: Result<(), Error>) {
        if self.chroma_subsampling > 3 {
            return Err(Error::Reserved);
        }
        if self.matrix_coefficients == 0 && self.chroma_subsampling != 3 {
            return Err(
                Error::InvalidCombination(
                    "Matrix coefficient 0 (RGB) is only valid with chroma subsampling 3 (4:4:4)",
                ),
            );
        }
        let ghost start = out@;
        put_u8(out, 1);
        put_u8(out, 0);
        put_u8(out, 0);
        put_u8(out, 0);
        put_u8(out, self.profile);
        put_u8(out, self.level);
        let flag: u8 = if self.video_full_range_flag {
            1
        } else {
            0
        };
        put_u8(out, (self.bit_depth % 16) * 16 + self.chroma_subsampling * 2 + flag);
        put_u8(out, self.color_primaries);
        put_u8(out, self.transfer_characteristics);
        put_u8(out, self.matrix_coefficients);
        put_u16(out, self.codec_initialization_data.len() as u16);
        put_bytes(out, self.codec_initialization_data.as_slice());
        assert(out@ =~= start + Self::spec_encode_body(self@)->Ok_0);
        Ok(())
    }

    proof fn lemma_body_roundtrip(v: VpcCV) {
        let b = Self::spec_encode_body(v)->Ok_0;
        let p = vp_packed_byte(v.bit_depth, v.chroma_subsampling, v.video_full_range_flag);
        assert(b[6] == p);
        assert(p / 16 == v.bit_depth);
        assert((p / 2) % 8 == v.chroma_subsampling);
        assert((p % 2 == 1) == v.video_full_range_flag);
        assert(b.subrange(12, b.len() as int) =~= v.codec_initialization_data);
    }
}

} // verus!
