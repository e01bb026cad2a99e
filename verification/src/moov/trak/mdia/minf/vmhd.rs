use vstd::prelude::*;

use crate::atom::Atom;
use crate::codec::{be16, be16_at, be32, group_codec, put_u16, put_u32, read_u16, read_u32};
use crate::error::Error;
use crate::fourcc::FourCC;

verus! {

broadcast use group_codec;

/// Video media header box (`vmhd`).
#[derive(Debug, Clone, Copy, PartialEq, Eq, Default)]
pub struct Vmhd {
    pub graphics_mode: u16,
    pub op_color: RgbColor,
}

/// A colour of three 16-bit channels.
#[derive(Debug, Clone, Copy, PartialEq, Eq, Default)]
pub struct RgbColor {
    pub red: u16,
    pub green: u16,
    pub blue: u16,
}

impl View for Vmhd {
    type V = Vmhd;

    open spec fn view(&self) -> Vmhd {
        *self
    }
}

impl Atom for Vmhd {
    open spec fn spec_kind() -> u32 {
        0x766d6864
    }

    fn kind() -> (k: FourCC) {
        FourCC::from_u32(0x766d6864)
    }

    /// Version and flags (ignored), the graphics mode, then red, green and blue.
    open spec fn spec_decode_body(s: Seq<u8>) -> Result<(Vmhd, int), Error> {
        if s.len() < 12 {
            Err(Error::OutOfBounds)
        } else {
            Ok(
                (
                    Vmhd {
                        graphics_mode: be16_at(s, 4),
                        op_color: RgbColor {
                            red: be16_at(s, 6),
                            green: be16_at(s, 8),
                            blue: be16_at(s, 10),
                        },
                    },
                    12,
                ),
            )
        }
    }

    /// Version 0 with flags 1, as ISO/IEC 14496-12 requires, then the fields.
    open spec fn spec_encode_body(v: Vmhd) -> Result<Seq<u8>, Error> {
        Ok(be32(1) + be16(v.graphics_mode) + be16(v.op_color.red) + be16(v.op_color.green) + be16(
            v.op_color.blue,
        ))
    }

    open spec fn spec_keeps(v: Vmhd) -> bool {
        true
    }

    fn decode_body(buf: &[u8]) -> (r: Result<(Self, usize), Error>) {
        let _ext = read_u32(buf, 0)?;
        let graphics_mode = read_u16(buf, 4)?;
        let red = read_u16(buf, 6)?;
        let green = read_u16(buf, 8)?;
        let blue = read_u16(buf, 10)?;
        Ok((Vmhd { graphics_mode, op_color: RgbColor { red, green, blue } }, 12))
    }

    fn encode_body(&self, out: &mut Vec<u8>) -> (r: Result<(), Error>) {
        put_u32(out, 1);
        put_u16(out, self.graphics_mode);
        put_u16(out, self.op_color.red);
        put_u16(out, self.op_color.green);
        put_u16(out, self.op_color.blue);
        Ok(())
    }

    proof fn lemma_body_roundtrip(v: Vmhd) {
    }
}

} // verus!
