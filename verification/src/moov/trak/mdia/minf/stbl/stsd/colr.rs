use vstd::prelude::*;

use crate::atom::Atom;
use crate::codec::{be16, be16_at, be32, be32_at, group_codec, put_bytes, put_u16, put_u32, put_u8, read_u16, read_u32, read_u8};
use crate::error::Error;
use crate::fourcc::FourCC;

verus! {

broadcast use group_codec;

/// Colour information box (`colr`, ISO/IEC 14496-12, 12.1.5): coding-independent code
/// points, or an ICC profile.
#[derive(Debug, Clone, PartialEq, Eq)]
pub enum Colr {
    Nclx {
        colour_primaries: u16,
        transfer_characteristics: u16,
        matrix_coefficients: u16,
        full_range_flag: bool,
    },
    Ricc { profile: Vec<u8> },
    Prof { profile: Vec<u8> },
}

/// The value of a colour information box.
pub enum ColrV {
    Nclx {
        colour_primaries: u16,
        transfer_characteristics: u16,
        matrix_coefficients: u16,
        full_range_flag: bool,
    },
    Ricc { profile: Seq<u8> },
    Prof { profile: Seq<u8> },
}

impl View for Colr {
    type V = ColrV;

    open spec fn view(&self) -> ColrV {
        match self {
            Colr::Nclx {
                colour_primaries,
                transfer_characteristics,
                matrix_coefficients,
                full_range_flag,
            } => ColrV::Nclx {
                colour_primaries: *colour_primaries,
                transfer_characteristics: *transfer_characteristics,
                matrix_coefficients: *matrix_coefficients,
                full_range_flag: *full_range_flag,
            },
            Colr::Ricc { profile } => ColrV::Ricc { profile: profile@ },
            Colr::Prof { profile } => ColrV::Prof { profile: profile@ },
        }
    }
}

/// The colour types: `nclx`, `rICC` and `prof`.
pub open spec fn nclx_code() -> u32 {
    0x6e636c78
}

pub open spec fn ricc_code() -> u32 {
    0x72494343
}

pub open spec fn prof_code() -> u32 {
    0x70726f66
}

impl Atom for Colr {
    open spec fn spec_kind() -> u32 {
        0x636f6c72
    }

    fn kind() -> (k: FourCC) {
        FourCC::from_u32(0x636f6c72)
    }

    /// The colour type, then for `nclx` the three code points and a byte whose top bit is
    /// the full range flag, or for `rICC` and `prof` the profile to the end; another colour
    /// type is `Unsupported`.
    open spec fn spec_decode_body(s: Seq<u8>) -> Result<(ColrV, int), Error> {
        if s.len() < 4 {
            Err(Error::OutOfBounds)
        } else if be32_at(s, 0) == nclx_code() {
            if s.len() < 11 {
                Err(Error::OutOfBounds)
            } else {
                Ok(
                    (
                        ColrV::Nclx {
                            colour_primaries: be16_at(s, 4),
                            transfer_characteristics: be16_at(s, 6),
                            matrix_coefficients: be16_at(s, 8),
                            full_range_flag: s[10] >= 128,
                        },
                        11,
                    ),
                )
            }
        } else if be32_at(s, 0) == ricc_code() {
            Ok((ColrV::Ricc { profile: s.subrange(4, s.len() as int) }, s.len() as int))
        } else if be32_at(s, 0) == prof_code() {
            Ok((ColrV::Prof { profile: s.subrange(4, s.len() as int) }, s.len() as int))
        } else {
            Err(Error::Unsupported("colour type"))
        }
    }

    /// The colour type, then its fields; the seven bits after the full range flag are zero.
    open spec fn spec_encode_body(v: ColrV) -> Result<Seq<u8>, Error> {
        match v {
            ColrV::Nclx {
                colour_primaries,
                transfer_characteristics,
                matrix_coefficients,
                full_range_flag,
            } => Ok(be32(nclx_code()) + be16(colour_primaries) + be16(transfer_characteristics)
                + be16(matrix_coefficients) + seq![if full_range_flag { 0x80u8 } else { 0u8 }]),
            ColrV::Ricc { profile } => Ok(be32(ricc_code()) + profile),
            ColrV::Prof { profile } => Ok(be32(prof_code()) + profile),
        }
    }

    open spec fn spec_keeps(v: ColrV) -> bool {
        true
    }

    fn decode_body(buf: &[u8]) -> (r: Result<(Self, usize), Error>) {
        let t = read_u32(buf, 0)?;
        if t == 0x6e636c78 {
            if buf.len() < 11 {
                return Err(Error::OutOfBounds);
            }
            let colour_primaries = read_u16(buf, 4)?;
            let transfer_characteristics = read_u16(buf, 6)?;
            let matrix_coefficients = read_u16(buf, 8)?;
            let flags = read_u8(buf, 10)?;
            Ok(
                (
                    Colr::Nclx {
                        colour_primaries,
                        transfer_characteristics,
                        matrix_coefficients,
                        full_range_flag: flags >= 128,
                    },
                    11,
                ),
            )
        } else if t == 0x72494343 {
            let profile = vstd::slice::slice_to_vec(vstd::slice::slice_subrange(buf, 4, buf.len()));
            Ok((Colr::Ricc { profile }, buf.len()))
        } else if t == 0x70726f66 {
            let profile = vstd::slice::slice_to_vec(vstd::slice::slice_subrange(buf, 4, buf.len()));
            Ok((Colr::Prof { profile }, buf.len()))
        } else {
            Err(Error::Unsupported("colour type"))
        }
    }

    fn encode_body(&self, out: &mut Vec<u8>) -> (r: Result<(), Error>) {
        let ghost start = out@;
        match self {
            Colr::Nclx {
                colour_primaries,
                transfer_characteristics,
                matrix_coefficients,
                full_range_flag,
            } => {
                put_u32(out, 0x6e636c78);
                put_u16(out, *colour_primaries);
                put_u16(out, *transfer_characteristics);
                put_u16(out, *matrix_coefficients);
                put_u8(out, if *full_range_flag { 0x80 } else { 0 });
            },
            Colr::Ricc { profile } => {
                put_u32(out, 0x72494343);
                put_bytes(out, profile.as_slice());
            },
            Colr::Prof { profile } => {
                put_u32(out, 0x70726f66);
                put_bytes(out, profile.as_slice());
            },
        }
        assert(out@ =~= start + Self::spec_encode_body(self@)->Ok_0);
        Ok(())
    }

    proof fn lemma_body_roundtrip(v: ColrV) {
        let s = Self::spec_encode_body(v)->Ok_0;
        match v {
            ColrV::Nclx { .. } => {
                assert(be32_at(s, 0) == nclx_code());
            },
            ColrV::Ricc { profile } => {
                assert(be32_at(s, 0) == ricc_code());
                assert(s.subrange(4, s.len() as int) =~= profile);
            },
            ColrV::Prof { profile } => {
                assert(be32_at(s, 0) == prof_code());
                assert(s.subrange(4, s.len() as int) =~= profile);
            },
        }
    }
}

} // verus!
