use vstd::prelude::*;

use crate::atom::{Decode, Encode};
use crate::codec::{be16, be16_at, be32, group_codec, lemma_at_shift, put_u16, put_u32, read_u16};
use crate::error::Error;
use crate::types::{fixed16_bytes, put_fixed16, read_fixed16, FixedPoint};

verus! {

broadcast use group_codec;

/// Audio sample entry: the common head of a sample entry for sound (ISO/IEC 14496-12,
/// 12.2.3), in its version 0 layout.
#[derive(Debug, Clone, Copy, PartialEq, Eq, Default)]
pub struct Audio {
    pub data_reference_index: u16,
    pub channel_count: u16,
    pub sample_size: u16,
    pub sample_rate: FixedPoint<u16>,
}

/// The value of an audio sample entry.
pub struct AudioV {
    pub data_reference_index: u16,
    pub channel_count: u16,
    pub sample_size: u16,
    pub sample_rate: (u16, u16),
}

impl View for Audio {
    type V = AudioV;

    open spec fn view(&self) -> AudioV {
        AudioV {
            data_reference_index: self.data_reference_index,
            channel_count: self.channel_count,
            sample_size: self.sample_size,
            sample_rate: self.sample_rate@,
        }
    }
}

/// The 28 bytes of an audio sample entry; the reserved, version, revision, vendor,
/// compression and packet size fields are zero.
pub open spec fn audio_bytes(v: AudioV) -> Seq<u8> {
    be32(0) + be16(0) + be16(v.data_reference_index) + be32(0) + be32(0) + be16(
        v.channel_count,
    ) + be16(v.sample_size) + be32(0) + fixed16_bytes(v.sample_rate)
}

impl Decode for Audio {
    /// 28 bytes; the fields other than these four are ignored.
    open spec fn spec_decode(s: Seq<u8>) -> Result<(AudioV, int), Error> {
        if s.len() < 28 {
            Err(Error::OutOfBounds)
        } else {
            Ok(
                (
                    AudioV {
                        data_reference_index: be16_at(s, 6),
                        channel_count: be16_at(s, 16),
                        sample_size: be16_at(s, 18),
                        sample_rate: (be16_at(s, 24), be16_at(s, 26)),
                    },
                    28,
                ),
            )
        }
    }

    fn decode_prefix(buf: &[u8]) -> (r: Result<(Audio, usize), Error>) {
        if buf.len() < 28 {
            return Err(Error::OutOfBounds);
        }
        let data_reference_index = read_u16(buf, 6)?;
        let channel_count = read_u16(buf, 16)?;
        let sample_size = read_u16(buf, 18)?;
        let sample_rate = read_fixed16(buf, 24)?;
        Ok((Audio { data_reference_index, channel_count, sample_size, sample_rate }, 28))
    }
}

impl Encode for Audio {
    open spec fn spec_encode(v: AudioV) -> Result<Seq<u8>, Error> {
        Ok(audio_bytes(v))
    }

    fn encode(&self, out: &mut Vec<u8>) -> (r: Result<(), Error>) {
        let ghost start = out@;
        put_u32(out, 0);
        put_u16(out, 0);
        put_u16(out, self.data_reference_index);
        put_u32(out, 0);
        put_u32(out, 0);
        put_u16(out, self.channel_count);
        put_u16(out, self.sample_size);
        put_u32(out, 0);
        put_fixed16(out, &self.sample_rate);
        assert(out@ =~= start + audio_bytes(self@));
        Ok(())
    }
}

/// An audio sample entry decodes back from its bytes, whatever follows them.
pub proof fn lemma_audio_roundtrip(v: AudioV, rest: Seq<u8>)
    ensures
        Audio::spec_decode(audio_bytes(v) + rest) == Ok::<(AudioV, int), Error>((v, 28)),
{
    let s = audio_bytes(v) + rest;
    let head = be32(0) + be16(0) + be16(v.data_reference_index) + be32(0) + be32(0) + be16(
        v.channel_count,
    ) + be16(v.sample_size) + be32(0);
    assert(head.len() == 24);
    assert(s =~= head + (fixed16_bytes(v.sample_rate) + rest));
    lemma_at_shift(head, fixed16_bytes(v.sample_rate) + rest, 0);
    lemma_at_shift(head, fixed16_bytes(v.sample_rate) + rest, 2);
    assert(be16_at(s, 6) == v.data_reference_index);
    assert(be16_at(s, 16) == v.channel_count);
    assert(be16_at(s, 18) == v.sample_size);
}

} // verus!
