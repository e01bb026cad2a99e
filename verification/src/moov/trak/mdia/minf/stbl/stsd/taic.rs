use vstd::prelude::*;
use vstd::std_specs::convert::FromSpecImpl;

use crate::atom::Atom;
use crate::codec::{
    be32, be32_at, be64, be64_at, group_codec, i32_bits, i32_of, put_i32, put_u32, put_u64,
    put_u8, read_i32, read_u32, read_u64, read_u8,
};
use crate::error::Error;
use crate::fourcc::FourCC;

verus! {

broadcast use group_codec;

/// How a clock keeps time, in the two top bits of the last byte of a `taic` box.
#[derive(Debug, Clone, Copy, PartialEq, Eq, Default)]
pub enum ClockType {
    #[default]
    Unknown,
    DoesNotSync,
    CanSync,
    Reserved,
}

/// The clock type that a two-bit code names; codes from 3 up are reserved.
pub open spec fn clock_type_of(v: u8) -> ClockType {
    if v == 0 {
        ClockType::Unknown
    } else if v == 1 {
        ClockType::DoesNotSync
    } else if v == 2 {
        ClockType::CanSync
    } else {
        ClockType::Reserved
    }
}

/// The two-bit code of a clock type.
pub open spec fn clock_type_code(c: ClockType) -> u8 {
    match c {
        ClockType::Unknown => 0,
        ClockType::DoesNotSync => 1,
        ClockType::CanSync => 2,
        ClockType::Reserved => 3,
    }
}

impl ClockType {
    /// The two-bit code of this clock type.
    pub fn code(&self) -> (r: u8)
        ensures
            r == clock_type_code(*self),
    {
        match self {
            ClockType::Unknown => 0,
            ClockType::DoesNotSync => 1,
            ClockType::CanSync => 2,
            ClockType::Reserved => 3,
        }
    }
}

impl From<u8> for ClockType {
    fn from(value: u8) -> (r: Self) {
        if value == 0 {
            ClockType::Unknown
        } else if value == 1 {
            ClockType::DoesNotSync
        } else if value == 2 {
            ClockType::CanSync
        } else {
            ClockType::Reserved
        }
    }
}

impl FromSpecImpl<u8> for ClockType {
    open spec fn obeys_from_spec() -> bool {
        true
    }

    open spec fn from_spec(v: u8) -> ClockType {
        clock_type_of(v)
    }
}

/// TAI clock information box (`taic`).
#[derive(Debug, Clone, Copy, PartialEq, Eq, Default)]
pub struct Taic {
    pub time_uncertainty: u64,
    pub clock_resolution: u32,
    pub clock_drift_rate: i32,
    pub clock_type: ClockType,
}

impl View for Taic {
    type V = Taic;

    open spec fn view(&self) -> Taic {
        *self
    }
}

impl Taic {
    /// A `taic` box with these fields; every combination is accepted.
    pub fn new(
        time_uncertainty: u64,
        clock_resolution: u32,
        clock_drift_rate: i32,
        clock_type: ClockType,
    ) -> (r: Result<Taic, Error>)
        ensures
            r == Ok::<Taic, Error>(
                Taic { time_uncertainty, clock_resolution, clock_drift_rate, clock_type },
            ),
    {
        Ok(Taic { time_uncertainty, clock_resolution, clock_drift_rate, clock_type })
    }
}

impl Atom for Taic {
    open spec fn spec_kind() -> u32 {
        0x74616963
    }

    fn kind() -> (k: FourCC) {
        FourCC::from_u32(0x74616963)
    }

    /// Version and flags (ignored), the uncertainty, the resolution, the drift rate, then a
    /// byte whose top two bits give the clock type.
    open spec fn spec_decode_body(s: Seq<u8>) -> Result<(Taic, int), Error> {
        if s.len() < 21 {
            Err(Error::OutOfBounds)
        } else {
            Ok(
                (
                    Taic {
                        time_uncertainty: be64_at(s, 4),
                        clock_resolution: be32_at(s, 12),
                        clock_drift_rate: i32_of(be32_at(s, 16)),
                        clock_type: clock_type_of(s[20] / 64),
                    },
                    21,
                ),
            )
        }
    }

    /// Version and flags 0, the fields, then the clock type in the top two bits of a byte.
    open spec fn spec_encode_body(v: Taic) -> Result<Seq<u8>, Error> {
        Ok(
            be32(0) + be64(v.time_uncertainty) + be32(v.clock_resolution) + be32(
                i32_bits(v.clock_drift_rate),
            ) + seq![(clock_type_code(v.clock_type) * 64) as u8],
        )
    }

    open spec fn spec_keeps(v: Taic) -> bool {
        true
    }

    fn decode_body(buf: &[u8]) -> (r: Result<(Self, usize), Error>) {
        let _ext = read_u32(buf, 0)?;
        let time_uncertainty = read_u64(buf, 4)?;
        let clock_resolution = read_u32(buf, 12)?;
        let clock_drift_rate = read_i32(buf, 16)?;
        let b = read_u8(buf, 20)?;
        let clock_type = ClockType::from(b / 64);
        Ok((Taic { time_uncertainty, clock_resolution, clock_drift_rate, clock_type }, 21))
    }

    fn encode_body(&self, out: &mut Vec<u8>) -> (r: Result<(), Error>) {
        put_u32(out, 0);
        put_u64(out, self.time_uncertainty);
        put_u32(out, self.clock_resolution);
        put_i32(out, self.clock_drift_rate);
        put_u8(out, self.clock_type.code() * 64);
        assert(out@ =~= old(out)@ + Self::spec_encode_body(*self)->Ok_0);
        Ok(())
    }

    proof fn lemma_body_roundtrip(v: Taic) {
        let b = Self::spec_encode_body(v)->Ok_0;
        crate::codec::lemma_i32(v.clock_drift_rate);
        assert(b[20] == (clock_type_code(v.clock_type) * 64) as u8);
    }
}

} // verus!
