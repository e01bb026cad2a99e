use vstd::prelude::*;

use crate::atom::Atom;
use crate::codec::{be32, be32_at, be64, be64_at, group_codec, put_u32, put_u64, read_u32, read_u64};
use crate::error::Error;
use crate::ext::{ext_flags, ext_version, ext_word, put_ext, read_ext};
use crate::fourcc::FourCC;

verus! {

broadcast use group_codec;

/// What the UTC time of a producer reference time box stands for.
#[derive(Debug, Clone, Copy, PartialEq, Eq, Default)]
pub enum ReferenceTime {
    /// The time at which the frame at `media_time` was input to the encoder.
    #[default]
    Input,
    /// The time at which the frame at `media_time` was output from the encoder.
    Output,
    /// The time at which the following movie fragment was finalized.
    Finalised,
    /// The time at which the following movie fragment was written to file.
    Written,
    /// An arbitrary but consistent association between media time and UTC time.
    Consistent,
    /// A consistent, small offset from the real time of the experience depicted.
    RealTime,
}

/// Producer reference time box (`prft`), ISO/IEC 14496-12 section 8.16.5.
#[derive(Debug, Clone, Copy, PartialEq, Eq, Default)]
pub struct Prft {
    pub reference_track_id: u32,
    pub ntp_timestamp: u64,
    pub media_time: u64,
    pub utc_time_semantics: ReferenceTime,
}

impl View for Prft {
    type V = Prft;

    open spec fn view(&self) -> Prft {
        *self
    }
}

/// The meaning given by the flags: bit 0 output time, bit 1 fragment finalised, bit 2 fragment
/// written, bit 3 consistent offset, bit 4 real time; the most specific one wins.
pub open spec fn prft_semantics(flags: u32) -> ReferenceTime {
    let output_time = flags % 2 == 1;
    let fragment_finalised = (flags / 2) % 2 == 1;
    let fragment_written = (flags / 4) % 2 == 1;
    let consistent_offset = (flags / 8) % 2 == 1;
    let real_time = (flags / 16) % 2 == 1;
    if real_time && consistent_offset {
        ReferenceTime::RealTime
    } else if consistent_offset {
        ReferenceTime::Consistent
    } else if fragment_written {
        ReferenceTime::Written
    } else if fragment_finalised {
        ReferenceTime::Finalised
    } else if output_time {
        ReferenceTime::Output
    } else {
        ReferenceTime::Input
    }
}

/// The flags that encoding writes for a meaning.
pub open spec fn prft_flags(t: ReferenceTime) -> u32 {
    match t {
        ReferenceTime::Input => 0,
        ReferenceTime::Output => 1,
        ReferenceTime::Finalised => 2,
        ReferenceTime::Written => 4,
        ReferenceTime::Consistent => 8,
        ReferenceTime::RealTime => 24,
    }
}

impl Atom for Prft {
    open spec fn spec_kind() -> u32 {
        0x70726674
    }

    fn kind() -> (k: FourCC) {
        FourCC::from_u32(0x70726674)
    }

    /// Version 0 has a 32-bit media time, version 1 a 64-bit one; other versions are unknown.
    open spec fn spec_decode_body(s: Seq<u8>) -> Result<(Prft, int), Error> {
        if s.len() < 4 {
            Err(Error::OutOfBounds)
        } else {
            let version = ext_version(be32_at(s, 0));
            let semantics = prft_semantics(ext_flags(be32_at(s, 0)));
            if version != 0 && version != 1 {
                Err(Error::UnknownVersion(version))
            } else if version == 0 {
                if s.len() < 20 {
                    Err(Error::OutOfBounds)
                } else {
                    Ok(
                        (
                            Prft {
                                reference_track_id: be32_at(s, 4),
                                ntp_timestamp: be64_at(s, 8),
                                media_time: be32_at(s, 16) as u64,
                                utc_time_semantics: semantics,
                            },
                            20,
                        ),
                    )
                }
            } else if s.len() < 24 {
                Err(Error::OutOfBounds)
            } else {
                Ok(
                    (
                        Prft {
                            reference_track_id: be32_at(s, 4),
                            ntp_timestamp: be64_at(s, 8),
                            media_time: be64_at(s, 16),
                            utc_time_semantics: semantics,
                        },
                        24,
                    ),
                )
            }
        }
    }

    /// Version 0 when the media time fits in 32 bits, else version 1.
    open spec fn spec_encode_body(v: Prft) -> Result<Seq<u8>, Error> {
        let flags = prft_flags(v.utc_time_semantics);
        if v.media_time <= u32::MAX {
            Ok(be32(ext_word(0, flags)) + be32(v.reference_track_id) + be64(v.ntp_timestamp) + be32(
                v.media_time as u32,
            ))
        } else {
            Ok(be32(ext_word(1, flags)) + be32(v.reference_track_id) + be64(v.ntp_timestamp) + be64(
                v.media_time,
            ))
        }
    }

    open spec fn spec_keeps(v: Prft) -> bool {
        true
    }

    fn decode_body(buf: &[u8]) -> (r: Result<(Self, usize), Error>) {
        let (version, flags) = read_ext(buf, 0)?;
        let output_time = flags % 2 == 1;
        let fragment_finalised = (flags / 2) % 2 == 1;
        let fragment_written = (flags / 4) % 2 == 1;
        let consistent_offset = (flags / 8) % 2 == 1;
        let real_time = (flags / 16) % 2 == 1;
        if version != 0 && version != 1 {
            return Err(Error::UnknownVersion(version));
        }
        let reference_track_id = read_u32(buf, 4)?;
        let ntp_timestamp = read_u64(buf, 8)?;
        let utc_time_semantics = if real_time && consistent_offset {
            ReferenceTime::RealTime
        } else if consistent_offset {
            ReferenceTime::Consistent
        } else if fragment_written {
            ReferenceTime::Written
        } else if fragment_finalised {
            ReferenceTime::Finalised
        } else if output_time {
            ReferenceTime::Output
        } else {
            ReferenceTime::Input
        };
        if version == 0 {
            let media_time = read_u32(buf, 16)? as u64;
            Ok((Prft { reference_track_id, ntp_timestamp, media_time, utc_time_semantics }, 20))
        } else {
            let media_time = read_u64(buf, 16)?;
            Ok((Prft { reference_track_id, ntp_timestamp, media_time, utc_time_semantics }, 24))
        }
    }

    fn encode_body(&self, out: &mut Vec<u8>) -> (r: Result<(), Error>) {
        let flags: u32 = match self.utc_time_semantics {
            ReferenceTime::Input => 0,
            ReferenceTime::Output => 1,
            ReferenceTime::Finalised => 2,
            ReferenceTime::Written => 4,
            ReferenceTime::Consistent => 8,
            ReferenceTime::RealTime => 24,
        };
        if self.media_time <= 4294967295 {
            put_ext(out, 0, flags);
            put_u32(out, self.reference_track_id);
            put_u64(out, self.ntp_timestamp);
            put_u32(out, self.media_time as u32);
        } else {
            put_ext(out, 1, flags);
            put_u32(out, self.reference_track_id);
            put_u64(out, self.ntp_timestamp);
            put_u64(out, self.media_time);
        }
        Ok(())
    }

    proof fn lemma_body_roundtrip(v: Prft) {
        let flags = prft_flags(v.utc_time_semantics);
        lemma_prft_flags(v.utc_time_semantics);
        let version: u8 = if v.media_time <= u32::MAX {
            0
        } else {
            1
        };
        let w = ext_word(version, flags);
        assert(ext_version(w) == version && ext_flags(w) == flags) by {
            assert(w == version as int * 16777216 + flags);
        }
        let b = Self::spec_encode_body(v)->Ok_0;
        assert(b.len() == if version == 0 { 20int } else { 24int });
        assert(be32_at(b, 0) == w);
        assert(be32_at(b, 4) == v.reference_track_id);
        assert(be64_at(b, 8) == v.ntp_timestamp);
    }
}

/// The flags written for a meaning read back as that meaning.
pub proof fn lemma_prft_flags(t: ReferenceTime)
    ensures
        prft_semantics(prft_flags(t)) == t,
        prft_flags(t) < 32,
{
}

} // verus!
