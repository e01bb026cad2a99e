use vstd::prelude::*;

use crate::atom::header_bytes;
use crate::codec::{
    be16, be16_at, be64, be64_at, concat_map, group_codec, i16_bits, i16_of, i8_bits, i8_of,
    lemma_at_shift, lemma_concat_map_first, lemma_concat_map_push, lemma_i16, lemma_i8, put_bytes,
    put_i16, put_i8, put_u32, put_u64, put_u8, read_i16, read_i8, read_u64, read_u8,
};
use crate::error::Error;
use crate::ext::{ext_word, put_ext, read_ext};
use crate::fourcc::FourCC;

verus! {

broadcast use group_codec;

/// A loudspeaker position of ISO/IEC 23091-3, by its code; codes past the table are kept
/// as they are.
#[derive(Debug, Clone, Copy, PartialEq, Eq, Structural)]
pub enum AudioChannelPosition {
    FrontLeft,
    FrontRight,
    FrontCenter,
    LowFrequencyEffects,
    SurroundLeft,
    SurroundRight,
    FrontLeftOfCenter,
    FrontRightOfCenter,
    RearSurroundLeft,
    RearSurroundRight,
    RearCenter,
    SurroundDirectLeft,
    SurroundDirectRight,
    SideSurroundLeft,
    SideSurroundRight,
    FrontLeftWide,
    FrontRightWide,
    TopFrontLeft,
    TopFrontRight,
    TopFrontCenter,
    TopBackLeft,
    TopBackRight,
    TopBackCenter,
    TopSideLeft,
    TopSideRight,
    TopCenter,
    LowFrequencyEffects2,
    BottomFrontLeft,
    BottomFrontRight,
    BottomFrontCenter,
    TopSurroundLeft,
    TopSurroundRight,
    /// A code that the table does not name (other than 126, which marks an explicit position).
    Unknown(u8),
}

/// The code of a position.
pub open spec fn position_code(p: AudioChannelPosition) -> u8 {
    match p {
        AudioChannelPosition::FrontLeft => 0,
        AudioChannelPosition::FrontRight => 1,
        AudioChannelPosition::FrontCenter => 2,
        AudioChannelPosition::LowFrequencyEffects => 3,
        AudioChannelPosition::SurroundLeft => 4,
        AudioChannelPosition::SurroundRight => 5,
        AudioChannelPosition::FrontLeftOfCenter => 6,
        AudioChannelPosition::FrontRightOfCenter => 7,
        AudioChannelPosition::RearSurroundLeft => 8,
        AudioChannelPosition::RearSurroundRight => 9,
        AudioChannelPosition::RearCenter => 10,
        AudioChannelPosition::SurroundDirectLeft => 11,
        AudioChannelPosition::SurroundDirectRight => 12,
        AudioChannelPosition::SideSurroundLeft => 13,
        AudioChannelPosition::SideSurroundRight => 14,
        AudioChannelPosition::FrontLeftWide => 15,
        AudioChannelPosition::FrontRightWide => 16,
        AudioChannelPosition::TopFrontLeft => 17,
        AudioChannelPosition::TopFrontRight => 18,
        AudioChannelPosition::TopFrontCenter => 19,
        AudioChannelPosition::TopBackLeft => 20,
        AudioChannelPosition::TopBackRight => 21,
        AudioChannelPosition::TopBackCenter => 22,
        AudioChannelPosition::TopSideLeft => 23,
        AudioChannelPosition::TopSideRight => 24,
        AudioChannelPosition::TopCenter => 25,
        AudioChannelPosition::LowFrequencyEffects2 => 26,
        AudioChannelPosition::BottomFrontLeft => 27,
        AudioChannelPosition::BottomFrontRight => 28,
        AudioChannelPosition::BottomFrontCenter => 29,
        AudioChannelPosition::TopSurroundLeft => 30,
        AudioChannelPosition::TopSurroundRight => 31,
        AudioChannelPosition::Unknown(c) => c,
    }
}

/// The position with a code other than 126.
pub open spec fn position_of(c: u8) -> AudioChannelPosition {
    if c == 0 {
        AudioChannelPosition::FrontLeft
    } else if c == 1 {
        AudioChannelPosition::FrontRight
    } else if c == 2 {
        AudioChannelPosition::FrontCenter
    } else if c == 3 {
        AudioChannelPosition::LowFrequencyEffects
    } else if c == 4 {
        AudioChannelPosition::SurroundLeft
    } else if c == 5 {
        AudioChannelPosition::SurroundRight
    } else if c == 6 {
        AudioChannelPosition::FrontLeftOfCenter
    } else if c == 7 {
        AudioChannelPosition::FrontRightOfCenter
    } else if c == 8 {
        AudioChannelPosition::RearSurroundLeft
    } else if c == 9 {
        AudioChannelPosition::RearSurroundRight
    } else if c == 10 {
        AudioChannelPosition::RearCenter
    } else if c == 11 {
        AudioChannelPosition::SurroundDirectLeft
    } else if c == 12 {
        AudioChannelPosition::SurroundDirectRight
    } else if c == 13 {
        AudioChannelPosition::SideSurroundLeft
    } else if c == 14 {
        AudioChannelPosition::SideSurroundRight
    } else if c == 15 {
        AudioChannelPosition::FrontLeftWide
    } else if c == 16 {
        AudioChannelPosition::FrontRightWide
    } else if c == 17 {
        AudioChannelPosition::TopFrontLeft
    } else if c == 18 {
        AudioChannelPosition::TopFrontRight
    } else if c == 19 {
        AudioChannelPosition::TopFrontCenter
    } else if c == 20 {
        AudioChannelPosition::TopBackLeft
    } else if c == 21 {
        AudioChannelPosition::TopBackRight
    } else if c == 22 {
        AudioChannelPosition::TopBackCenter
    } else if c == 23 {
        AudioChannelPosition::TopSideLeft
    } else if c == 24 {
        AudioChannelPosition::TopSideRight
    } else if c == 25 {
        AudioChannelPosition::TopCenter
    } else if c == 26 {
        AudioChannelPosition::LowFrequencyEffects2
    } else if c == 27 {
        AudioChannelPosition::BottomFrontLeft
    } else if c == 28 {
        AudioChannelPosition::BottomFrontRight
    } else if c == 29 {
        AudioChannelPosition::BottomFrontCenter
    } else if c == 30 {
        AudioChannelPosition::TopSurroundLeft
    } else if c == 31 {
        AudioChannelPosition::TopSurroundRight
    } else {
        AudioChannelPosition::Unknown(c)
    }
}

impl AudioChannelPosition {
    /// The code of this position.
    pub fn code(&self) -> (r: u8)
        ensures
            r == position_code(*self),
    {
        match self {
            AudioChannelPosition::FrontLeft => 0,
            AudioChannelPosition::FrontRight => 1,
            AudioChannelPosition::FrontCenter => 2,
            AudioChannelPosition::LowFrequencyEffects => 3,
            AudioChannelPosition::SurroundLeft => 4,
            AudioChannelPosition::SurroundRight => 5,
            AudioChannelPosition::FrontLeftOfCenter => 6,
            AudioChannelPosition::FrontRightOfCenter => 7,
            AudioChannelPosition::RearSurroundLeft => 8,
            AudioChannelPosition::RearSurroundRight => 9,
            AudioChannelPosition::RearCenter => 10,
            AudioChannelPosition::SurroundDirectLeft => 11,
            AudioChannelPosition::SurroundDirectRight => 12,
            AudioChannelPosition::SideSurroundLeft => 13,
            AudioChannelPosition::SideSurroundRight => 14,
            AudioChannelPosition::FrontLeftWide => 15,
            AudioChannelPosition::FrontRightWide => 16,
            AudioChannelPosition::TopFrontLeft => 17,
            AudioChannelPosition::TopFrontRight => 18,
            AudioChannelPosition::TopFrontCenter => 19,
            AudioChannelPosition::TopBackLeft => 20,
            AudioChannelPosition::TopBackRight => 21,
            AudioChannelPosition::TopBackCenter => 22,
            AudioChannelPosition::TopSideLeft => 23,
            AudioChannelPosition::TopSideRight => 24,
            AudioChannelPosition::TopCenter => 25,
            AudioChannelPosition::LowFrequencyEffects2 => 26,
            AudioChannelPosition::BottomFrontLeft => 27,
            AudioChannelPosition::BottomFrontRight => 28,
            AudioChannelPosition::BottomFrontCenter => 29,
            AudioChannelPosition::TopSurroundLeft => 30,
            AudioChannelPosition::TopSurroundRight => 31,
            AudioChannelPosition::Unknown(c) => *c,
        }
    }

    /// The position with this code (other than 126).
    pub fn from_code(c: u8) -> (r: AudioChannelPosition)
        ensures
            r == position_of(c),
    {
        match c {
            0 => AudioChannelPosition::FrontLeft,
            1 => AudioChannelPosition::FrontRight,
            2 => AudioChannelPosition::FrontCenter,
            3 => AudioChannelPosition::LowFrequencyEffects,
            4 => AudioChannelPosition::SurroundLeft,
            5 => AudioChannelPosition::SurroundRight,
            6 => AudioChannelPosition::FrontLeftOfCenter,
            7 => AudioChannelPosition::FrontRightOfCenter,
            8 => AudioChannelPosition::RearSurroundLeft,
            9 => AudioChannelPosition::RearSurroundRight,
            10 => AudioChannelPosition::RearCenter,
            11 => AudioChannelPosition::SurroundDirectLeft,
            12 => AudioChannelPosition::SurroundDirectRight,
            13 => AudioChannelPosition::SideSurroundLeft,
            14 => AudioChannelPosition::SideSurroundRight,
            15 => AudioChannelPosition::FrontLeftWide,
            16 => AudioChannelPosition::FrontRightWide,
            17 => AudioChannelPosition::TopFrontLeft,
            18 => AudioChannelPosition::TopFrontRight,
            19 => AudioChannelPosition::TopFrontCenter,
            20 => AudioChannelPosition::TopBackLeft,
            21 => AudioChannelPosition::TopBackRight,
            22 => AudioChannelPosition::TopBackCenter,
            23 => AudioChannelPosition::TopSideLeft,
            24 => AudioChannelPosition::TopSideRight,
            25 => AudioChannelPosition::TopCenter,
            26 => AudioChannelPosition::LowFrequencyEffects2,
            27 => AudioChannelPosition::BottomFrontLeft,
            28 => AudioChannelPosition::BottomFrontRight,
            29 => AudioChannelPosition::BottomFrontCenter,
            30 => AudioChannelPosition::TopSurroundLeft,
            31 => AudioChannelPosition::TopSurroundRight,
            _ => AudioChannelPosition::Unknown(c),
        }
    }
}

/// A position given by its angles: azimuth and elevation in degrees.
#[derive(Debug, Clone, Copy, PartialEq, Eq, Structural)]
pub struct ExplicitSpeakerPosition {
    pub azimuth: i16,
    pub elevation: i8,
}

/// A loudspeaker position: one of the table, or given by its angles.
#[derive(Debug, Clone, Copy, PartialEq, Eq, Structural)]
pub enum SpeakerPosition {
    Standard(AudioChannelPosition),
    Explicit(ExplicitSpeakerPosition),
}

/// The code that marks an explicit position.
pub open spec fn explicit_code() -> u8 {
    126
}

/// What decoding the speaker position at `pos` gives, and the offset after it: a code,
/// followed by the angles when the code is 126.
pub open spec fn spec_speaker(s: Seq<u8>, pos: int) -> Result<(SpeakerPosition, int), Error> {
    if pos < 0 || pos + 1 > s.len() {
        Err(Error::OutOfBounds)
    } else if s[pos] == explicit_code() {
        if pos + 4 > s.len() {
            Err(Error::OutOfBounds)
        } else {
            Ok(
                (
                    SpeakerPosition::Explicit(
                        ExplicitSpeakerPosition {
                            azimuth: i16_of(be16_at(s, pos + 1)),
                            elevation: i8_of(s[pos + 3]),
                        },
                    ),
                    pos + 4,
                ),
            )
        }
    } else {
        Ok((SpeakerPosition::Standard(position_of(s[pos])), pos + 1))
    }
}

/// What decoding `count` speaker positions one after the other from `pos` gives.
pub open spec fn spec_speakers(s: Seq<u8>, pos: int, count: nat) -> Result<
    (Seq<SpeakerPosition>, int),
    Error,
>
    decreases count,
{
    if count == 0 {
        Ok((Seq::empty(), pos))
    } else {
        match spec_speaker(s, pos) {
            Err(e) => Err(e),
            Ok((p, q)) => match spec_speakers(s, q, (count - 1) as nat) {
                Err(e) => Err(e),
                Ok((rest, r)) => Ok((seq![p] + rest, r)),
            },
        }
    }
}

/// The bytes of one speaker position.
pub open spec fn speaker_bytes(p: SpeakerPosition) -> Seq<u8> {
    match p {
        SpeakerPosition::Standard(a) => seq![position_code(a)],
        SpeakerPosition::Explicit(e) => seq![explicit_code()] + be16(i16_bits(e.azimuth)) + seq![
            i8_bits(e.elevation),
        ],
    }
}

/// The bytes of speaker positions, one after the other.
pub open spec fn speakers_bytes(v: Seq<SpeakerPosition>) -> Seq<u8> {
    concat_map(v, |p: SpeakerPosition| speaker_bytes(p))
}

/// A position that comes back from its bytes: a table position is not written with the
/// code 126, and an unnamed code is not one the table names.
pub open spec fn speaker_keeps(p: SpeakerPosition) -> bool {
    match p {
        SpeakerPosition::Standard(AudioChannelPosition::Unknown(c)) => c >= 32 && c != explicit_code(),
        _ => true,
    }
}

/// A kept position decodes back from its bytes, whatever follows them.
proof fn lemma_speaker_roundtrip(p: Seq<u8>, x: SpeakerPosition, rest: Seq<u8>)
    requires
        speaker_keeps(x),
    ensures
        spec_speaker(p + speaker_bytes(x) + rest, p.len() as int) == Ok::<(SpeakerPosition, int), Error>(
            (x, p.len() + speaker_bytes(x).len() as int),
        ),
{
    let s = p + speaker_bytes(x) + rest;
    match x {
        SpeakerPosition::Standard(a) => {
            assert(s[p.len() as int] == position_code(a));
        },
        SpeakerPosition::Explicit(e) => {
            let t = be16(i16_bits(e.azimuth)) + (seq![i8_bits(e.elevation)] + rest);
            assert(s =~= (p + seq![explicit_code()]) + t);
            lemma_at_shift(p + seq![explicit_code()], t, 0);
            assert(s[p.len() as int] == explicit_code());
            assert(s[p.len() as int + 3] == i8_bits(e.elevation));
            lemma_i16(e.azimuth);
            lemma_i8(e.elevation);
        },
    }
}

/// Kept positions decode back from their bytes, one after the other, whatever follows.
proof fn lemma_speakers_roundtrip(p: Seq<u8>, v: Seq<SpeakerPosition>, rest: Seq<u8>)
    requires
        forall|k: int| 0 <= k < v.len() ==> speaker_keeps(#[trigger] v[k]),
    ensures
        spec_speakers(p + speakers_bytes(v) + rest, p.len() as int, v.len()) == Ok::<
            (Seq<SpeakerPosition>, int),
            Error,
        >((v, p.len() + speakers_bytes(v).len() as int)),
    decreases v.len(),
{
    let f = |x: SpeakerPosition| speaker_bytes(x);
    if v.len() == 0 {
        assert(v =~= Seq::<SpeakerPosition>::empty());
    } else {
        lemma_concat_map_first(v, f);
        let e = speaker_bytes(v[0]);
        let tail = speakers_bytes(v.drop_first());
        let s = p + speakers_bytes(v) + rest;
        assert(s =~= p + e + (tail + rest));
        assert(speaker_keeps(v[0]));
        lemma_speaker_roundtrip(p, v[0], tail + rest);
        assert forall|k: int| 0 <= k < v.drop_first().len() implies speaker_keeps(
            #[trigger] v.drop_first()[k],
        ) by {
            assert(v.drop_first()[k] == v[k + 1]);
        }
        lemma_speakers_roundtrip(p + e, v.drop_first(), rest);
        assert((p + e) + tail + rest =~= s);
        assert(seq![v[0]] + v.drop_first() =~= v);
    }
}

/// Decoding `count` positions gives `count` positions.
proof fn lemma_speakers_len(s: Seq<u8>, pos: int, count: nat)
    ensures
        spec_speakers(s, pos, count) matches Ok((ps, _)) ==> ps.len() == count,
    decreases count,
{
    if count > 0 {
        if let Ok((_, q)) = spec_speaker(s, pos) {
            lemma_speakers_len(s, q, (count - 1) as nat);
        }
    }
}

/// A position that is not kept does not come back from its byte.
proof fn lemma_speaker_not_kept(p: Seq<u8>, x: SpeakerPosition, rest: Seq<u8>)
    requires
        !speaker_keeps(x),
    ensures
        !(spec_speaker(p + speaker_bytes(x) + rest, p.len() as int) matches Ok((y, _)) && y == x),
{
    let s = p + speaker_bytes(x) + rest;
    if let SpeakerPosition::Standard(a) = x {
        assert(s[p.len() as int] == position_code(a));
    }
}

/// Positions of which one is not kept do not come back from their bytes.
proof fn lemma_speakers_not_kept(p: Seq<u8>, v: Seq<SpeakerPosition>, rest: Seq<u8>)
    requires
        exists|k: int| 0 <= k < v.len() && !speaker_keeps(#[trigger] v[k]),
    ensures
        !(spec_speakers(p + speakers_bytes(v) + rest, p.len() as int, v.len()) matches Ok((w, _))
            && w == v),
    decreases v.len(),
{
    let f = |x: SpeakerPosition| speaker_bytes(x);
    lemma_concat_map_first(v, f);
    let e = speaker_bytes(v[0]);
    let tail = speakers_bytes(v.drop_first());
    let s = p + speakers_bytes(v) + rest;
    assert(s =~= p + e + (tail + rest));
    if !speaker_keeps(v[0]) {
        lemma_speaker_not_kept(p, v[0], tail + rest);
    } else {
        lemma_speaker_roundtrip(p, v[0], tail + rest);
        let k = choose|k: int| 0 <= k < v.len() && !speaker_keeps(#[trigger] v[k]);
        assert(k != 0);
        assert(v.drop_first()[k - 1] == v[k]);
        lemma_speakers_not_kept(p + e, v.drop_first(), rest);
        assert((p + e) + tail + rest =~= s);
        if let Ok((w, _)) = spec_speakers(s, p.len() as int, v.len()) {
            let r = spec_speakers(s, (p + e).len() as int, (v.len() - 1) as nat)->Ok_0.0;
            assert(w == seq![v[0]] + r);
            if w == v {
                assert(r =~= v.drop_first());
            }
        }
    }
}

/// Reads the speaker position at `pos`.
fn decode_speaker(buf: &[u8], pos: usize) -> (r: Result<(SpeakerPosition, usize), Error>)
    ensures
        r matches Ok((x, q)) ==> spec_speaker(buf@, pos as int) == Ok::<(SpeakerPosition, int), Error>(
            (x, q as int),
        ),
        r matches Err(e) ==> spec_speaker(buf@, pos as int) == Err::<(SpeakerPosition, int), Error>(e),
{
    let c = read_u8(buf, pos)?;
    assert(pos < buf.len());
    if c == 126 {
        if pos > buf.len() || buf.len() - pos < 4 {
            return Err(Error::OutOfBounds);
        }
        let azimuth = read_i16(buf, pos + 1)?;
        let elevation = read_i8(buf, pos + 3)?;
        Ok((SpeakerPosition::Explicit(ExplicitSpeakerPosition { azimuth, elevation }), pos + 4))
    } else {
        Ok((SpeakerPosition::Standard(AudioChannelPosition::from_code(c)), pos + 1))
    }
}

/// Reads `count` speaker positions one after the other from `pos`.
fn decode_speakers(buf: &[u8], pos: usize, count: usize) -> (r: Result<
    (Vec<SpeakerPosition>, usize),
    Error,
>)
    ensures
        r matches Ok((v, q)) ==> spec_speakers(buf@, pos as int, count as nat) == Ok::<
            (Seq<SpeakerPosition>, int),
            Error,
        >((v@, q as int)),
        r matches Err(e) ==> spec_speakers(buf@, pos as int, count as nat) == Err::<
            (Seq<SpeakerPosition>, int),
            Error,
        >(e),
{
    let mut out: Vec<SpeakerPosition> = Vec::new();
    let mut p: usize = pos;
    let mut i: usize = 0;
    proof {
        assert(forall|x: Seq<SpeakerPosition>| Seq::<SpeakerPosition>::empty() + x =~= x);
    }
    while i < count
        invariant
            i <= count,
            match spec_speakers(buf@, p as int, (count - i) as nat) {
                Ok((rest, q)) => spec_speakers(buf@, pos as int, count as nat) == Ok::<
                    (Seq<SpeakerPosition>, int),
                    Error,
                >((out@ + rest, q)),
                Err(e) => spec_speakers(buf@, pos as int, count as nat) == Err::<
                    (Seq<SpeakerPosition>, int),
                    Error,
                >(e),
            },
        decreases count - i,
    {
        let (x, q) = decode_speaker(buf, p)?;
        proof {
            assert(forall|y: Seq<SpeakerPosition>| out@ + (seq![x] + y) =~= out@.push(x) + y);
        }
        out.push(x);
        p = q;
        i = i + 1;
    }
    assert(out@ + Seq::<SpeakerPosition>::empty() =~= out@);
    Ok((out, p))
}

/// Appends the bytes of speaker positions.
fn put_speakers(out: &mut Vec<u8>, v: &Vec<SpeakerPosition>)
    ensures
        final(out)@ == old(out)@ + speakers_bytes(v@),
{
    let ghost f = |x: SpeakerPosition| speaker_bytes(x);
    let ghost start = out@;
    let mut k: usize = 0;
    assert(v@.subrange(0, 0) =~= Seq::<SpeakerPosition>::empty());
    assert(out@ =~= start + concat_map(v@.subrange(0, 0), f));
    while k < v.len()
        invariant
            k <= v@.len(),
            f == (|x: SpeakerPosition| speaker_bytes(x)),
            out@ == start + concat_map(v@.subrange(0, k as int), f),
        decreases v@.len() - k,
    {
        let x = v[k];
        match x {
            SpeakerPosition::Standard(a) => {
                put_u8(out, a.code());
            },
            SpeakerPosition::Explicit(e) => {
                put_u8(out, 126);
                put_i16(out, e.azimuth);
                put_i8(out, e.elevation);
            },
        }
        proof {
            lemma_concat_map_push(v@.subrange(0, k as int), f, x);
            assert(v@.subrange(0, k as int).push(x) =~= v@.subrange(0, k + 1));
        }
        k = k + 1;
        assert(out@ =~= start + concat_map(v@.subrange(0, k as int), f));
    }
    assert(v@.subrange(0, v@.len() as int) =~= v@);
}

/// How the channels of a layout box are described: a layout of ISO/IEC 23091-3 by number,
/// or one position per channel.
#[derive(Debug, Clone, PartialEq, Eq)]
pub enum ChannelStructure {
    DefinedLayout {
        layout: u8,
        omitted_channels_map: Option<u64>,
        channel_order_definition: Option<u8>,
    },
    ExplicitPositions { positions: Vec<SpeakerPosition> },
}

/// The value of a channel structure.
pub enum ChannelStructureV {
    DefinedLayout {
        layout: u8,
        omitted_channels_map: Option<u64>,
        channel_order_definition: Option<u8>,
    },
    ExplicitPositions { positions: Seq<SpeakerPosition> },
}

impl View for ChannelStructure {
    type V = ChannelStructureV;

    open spec fn view(&self) -> ChannelStructureV {
        match self {
            ChannelStructure::DefinedLayout {
                layout,
                omitted_channels_map,
                channel_order_definition,
            } => ChannelStructureV::DefinedLayout {
                layout: *layout,
                omitted_channels_map: *omitted_channels_map,
                channel_order_definition: *channel_order_definition,
            },
            ChannelStructure::ExplicitPositions { positions } => ChannelStructureV::ExplicitPositions {
                positions: positions@,
            },
        }
    }
}

/// Channel layout box (`chnl`, ISO/IEC 14496-12, 12.2.4): how the channels of an audio
/// stream are laid out, and how many objects it carries.
///
/// Version 1 is written when a format ordering or a base channel count is given.
#[derive(Debug, Clone, PartialEq, Eq)]
pub struct Chnl {
    pub channel_structure: Option<ChannelStructure>,
    pub object_count: Option<u8>,
    pub format_ordering: Option<u8>,
    pub base_channel_count: Option<u8>,
}

/// The value of a channel layout box.
pub struct ChnlV {
    pub channel_structure: Option<ChannelStructureV>,
    pub object_count: Option<u8>,
    pub format_ordering: Option<u8>,
    pub base_channel_count: Option<u8>,
}

impl View for Chnl {
    type V = ChnlV;

    open spec fn view(&self) -> ChnlV {
        ChnlV {
            channel_structure: match self.channel_structure {
                Some(c) => Some(c@),
                None => None,
            },
            object_count: self.object_count,
            format_ordering: self.format_ordering,
            base_channel_count: self.base_channel_count,
        }
    }
}

/// The type code of a channel layout box.
pub open spec fn chnl_code() -> u32 {
    0x63686e6c
}

/// The stream structure bits: 1 for a channel structure, 2 for objects.
pub open spec fn structure_bits(v: ChnlV) -> u8 {
    ((if v.channel_structure is Some { 1int } else { 0int }) + (if v.object_count is Some {
        2int
    } else {
        0int
    })) as u8
}

/// Whether the box is written in version 1.
pub open spec fn chnl_v1(v: ChnlV) -> bool {
    v.format_ordering is Some || v.base_channel_count is Some
}

/// What decoding a version 0 box gives, after its version, flags and structure byte `ss`.
pub open spec fn spec_chnl_v0(s: Seq<u8>, ss: u8, channel_count: u16) -> Result<(ChnlV, int), Error> {
    let cs: Result<(Option<ChannelStructureV>, int), Error> = if ss % 2 == 1 {
        if s.len() < 6 {
            Err(Error::OutOfBounds)
        } else if s[5] == 0 {
            match spec_speakers(s, 6, channel_count as nat) {
                Err(e) => Err(e),
                Ok((ps, q)) => Ok((Some(ChannelStructureV::ExplicitPositions { positions: ps }), q)),
            }
        } else if s.len() < 14 {
            Err(Error::OutOfBounds)
        } else {
            Ok(
                (
                    Some(
                        ChannelStructureV::DefinedLayout {
                            layout: s[5],
                            omitted_channels_map: Some(be64_at(s, 6)),
                            channel_order_definition: None,
                        },
                    ),
                    14,
                ),
            )
        }
    } else {
        Ok((None, 5))
    };
    match cs {
        Err(e) => Err(e),
        Ok((c, p)) => if (ss / 2) % 2 == 1 {
            if p + 1 > s.len() {
                Err(Error::OutOfBounds)
            } else {
                Ok(
                    (
                        ChnlV {
                            channel_structure: c,
                            object_count: Some(s[p]),
                            format_ordering: None,
                            base_channel_count: None,
                        },
                        p + 1,
                    ),
                )
            }
        } else {
            Ok(
                (
                    ChnlV {
                        channel_structure: c,
                        object_count: None,
                        format_ordering: None,
                        base_channel_count: None,
                    },
                    p,
                ),
            )
        },
    }
}

/// What decoding a version 1 box gives: the structure and ordering byte, the base channel
/// count, then the channel structure.
pub open spec fn spec_chnl_v1(s: Seq<u8>, channel_count: u16) -> Result<(ChnlV, int), Error> {
    let ss = s[4] / 16;
    let base = s[5];
    let cs: Result<(Option<ChannelStructureV>, int), Error> = if ss % 2 == 1 {
        if s.len() < 8 {
            Err(Error::OutOfBounds)
        } else if s[6] == 0 {
            match spec_speakers(s, 8, s[7] as nat) {
                Err(e) => Err(e),
                Ok((ps, q)) => Ok((Some(ChannelStructureV::ExplicitPositions { positions: ps }), q)),
            }
        } else if s[7] % 2 == 1 {
            if s.len() < 16 {
                Err(Error::OutOfBounds)
            } else {
                Ok(
                    (
                        Some(
                            ChannelStructureV::DefinedLayout {
                                layout: s[6],
                                omitted_channels_map: Some(be64_at(s, 8)),
                                channel_order_definition: Some((s[7] / 2) % 8),
                            },
                        ),
                        16,
                    ),
                )
            }
        } else {
            Ok(
                (
                    Some(
                        ChannelStructureV::DefinedLayout {
                            layout: s[6],
                            omitted_channels_map: None,
                            channel_order_definition: Some((s[7] / 2) % 8),
                        },
                    ),
                    8,
                ),
            )
        }
    } else {
        Ok((None, 6))
    };
    match cs {
        Err(e) => Err(e),
        Ok((c, p)) => {
            let objects: Result<Option<u8>, Error> = if (ss / 2) % 2 == 1 {
                if (base as int) < (channel_count as int) {
                    Err(Error::InvalidSize)
                } else {
                    Ok(Some((base - channel_count) as u8))
                }
            } else {
                Ok(None)
            };
            match objects {
                Err(e) => Err(e),
                Ok(o) => Ok(
                    (
                        ChnlV {
                            channel_structure: c,
                            object_count: o,
                            format_ordering: Some(s[4] % 16),
                            base_channel_count: Some(base),
                        },
                        p,
                    ),
                ),
            }
        },
    }
}

/// What decoding the body of a channel layout box gives, for a sample entry with
/// `channel_count` channels: the value and the number of bytes used.
///
/// Version 0 gives one position per channel of the sample entry; in version 1 the number
/// of objects is the base channel count less the channels of the sample entry.
pub open spec fn spec_decode_chnl(s: Seq<u8>, channel_count: u16) -> Result<(ChnlV, int), Error> {
    if s.len() < 5 {
        Err(Error::OutOfBounds)
    } else if s[0] == 0 {
        spec_chnl_v0(s, s[4], channel_count)
    } else if s[0] == 1 {
        if s.len() < 6 {
            Err(Error::OutOfBounds)
        } else {
            spec_chnl_v1(s, channel_count)
        }
    } else {
        Err(Error::UnknownVersion(s[0]))
    }
}

/// The bytes of the channel structure of a version 0 box.
pub open spec fn cs0_bytes(c: Option<ChannelStructureV>) -> Seq<u8> {
    match c {
        None => Seq::empty(),
        Some(ChannelStructureV::DefinedLayout { layout, omitted_channels_map, .. }) => seq![layout]
            + be64(
            match omitted_channels_map {
                Some(m) => m,
                None => 0,
            },
        ),
        Some(ChannelStructureV::ExplicitPositions { positions }) => seq![0u8] + speakers_bytes(
            positions,
        ),
    }
}

/// The bytes of the channel structure of a version 1 box; an order definition past 7 or
/// more than 255 positions is `TooLarge`.
pub open spec fn cs1_bytes(c: Option<ChannelStructureV>) -> Result<Seq<u8>, Error> {
    match c {
        None => Ok(Seq::empty()),
        Some(ChannelStructureV::DefinedLayout { layout, omitted_channels_map, channel_order_definition }) => {
            let d: u8 = match channel_order_definition {
                Some(x) => x,
                None => 0,
            };
            if d >= 8 {
                Err(Error::TooLarge(FourCC { code: chnl_code() }))
            } else {
                match omitted_channels_map {
                    Some(m) => Ok(seq![layout, (d * 2 + 1) as u8] + be64(m)),
                    None => Ok(seq![layout, (d * 2) as u8]),
                }
            }
        },
        Some(ChannelStructureV::ExplicitPositions { positions }) => if positions.len() > 255 {
            Err(Error::TooLarge(FourCC { code: chnl_code() }))
        } else {
            Ok(seq![0u8, positions.len() as u8] + speakers_bytes(positions))
        },
    }
}

/// The bytes of the object count of a version 0 box.
pub open spec fn obj0_bytes(o: Option<u8>) -> Seq<u8> {
    match o {
        Some(n) => seq![n],
        None => Seq::empty(),
    }
}

/// What encoding the body of a channel layout box gives: version 0 with the structure
/// byte, the channel structure and the object count; or version 1 with the structure and
/// the format ordering in one byte (an ordering past 15 is `TooLarge`), the base channel
/// count, and the channel structure.
pub open spec fn spec_encode_chnl(v: ChnlV) -> Result<Seq<u8>, Error> {
    if !chnl_v1(v) {
        Ok(seq![0u8, 0, 0, 0, structure_bits(v)] + cs0_bytes(v.channel_structure) + obj0_bytes(
            v.object_count,
        ))
    } else {
        let fo: u8 = match v.format_ordering {
            Some(x) => x,
            None => 0,
        };
        let base: u8 = match v.base_channel_count {
            Some(x) => x,
            None => 0,
        };
        if fo >= 16 {
            Err(Error::TooLarge(FourCC { code: chnl_code() }))
        } else {
            match cs1_bytes(v.channel_structure) {
                Err(e) => Err(e),
                Ok(c) => Ok(seq![1u8, 0, 0, 0, (structure_bits(v) * 16 + fo) as u8, base] + c),
            }
        }
    }
}

/// What encoding a whole channel layout box gives: a header with a 32-bit size, then
/// the body.
pub open spec fn spec_encode_chnl_atom(v: ChnlV) -> Result<Seq<u8>, Error> {
    match spec_encode_chnl(v) {
        Err(e) => Err(e),
        Ok(b) => if b.len() + 8 > u32::MAX {
            Err(Error::TooLarge(FourCC { code: chnl_code() }))
        } else {
            Ok(header_bytes(chnl_code(), b.len() as int) + b)
        },
    }
}

/// The boxes that come back unchanged from their bytes, for a sample entry with
/// `channel_count` channels.
///
/// Version 0 holds a defined layout with its omitted channels map and no order
/// definition, or one position per channel; version 1 holds both its ordering and its
/// base count, an order definition for a defined layout, and an object count equal to the
/// base count less the channels. A defined layout is never layout 0, and every position
/// comes back from its byte.
pub open spec fn chnl_keeps(v: ChnlV, channel_count: u16) -> bool {
    &&& match v.channel_structure {
        Some(ChannelStructureV::DefinedLayout { layout, omitted_channels_map, channel_order_definition }) => {
            &&& layout != 0
            &&& !chnl_v1(v) ==> omitted_channels_map is Some && channel_order_definition is None
            &&& chnl_v1(v) ==> channel_order_definition is Some
        },
        Some(ChannelStructureV::ExplicitPositions { positions }) => {
            &&& forall|k: int| 0 <= k < positions.len() ==> speaker_keeps(#[trigger] positions[k])
            &&& !chnl_v1(v) ==> positions.len() == channel_count
        },
        None => true,
    }
    &&& chnl_v1(v) ==> v.format_ordering is Some && v.base_channel_count is Some
    &&& chnl_v1(v) ==> (v.object_count matches Some(n) ==> v.base_channel_count->0 >= channel_count
        && n == v.base_channel_count->0 - channel_count)
}

impl Chnl {
    /// Decodes the body of a channel layout box for a sample entry with `channel_count`
    /// channels, giving the value and the number of bytes used.
    pub fn decode_body_with_channel_count(buf: &[u8], channel_count: u16) -> (r: Result<
        (Chnl, usize),
        Error,
    >)
        ensures
            r matches Ok((v, n)) ==> spec_decode_chnl(buf@, channel_count) == Ok::<(ChnlV, int), Error>(
                (v@, n as int),
            ),
            r matches Err(e) ==> spec_decode_chnl(buf@, channel_count) == Err::<(ChnlV, int), Error>(
                e,
            ),
    {
        if buf.len() < 5 {
            return Err(Error::OutOfBounds);
        }
        let version = buf[0];
        if version == 0 {
            let ss = buf[4];
            let mut p: usize = 5;
            let mut cs: Option<ChannelStructure> = None;
            if ss % 2 == 1 {
                if buf.len() < 6 {
                    return Err(Error::OutOfBounds);
                }
                let layout = buf[5];
                if layout == 0 {
                    let (positions, q) = decode_speakers(buf, 6, channel_count as usize)?;
                    cs = Some(ChannelStructure::ExplicitPositions { positions });
                    p = q;
                } else {
                    let m = read_u64(buf, 6)?;
                    cs = Some(
                        ChannelStructure::DefinedLayout {
                            layout,
                            omitted_channels_map: Some(m),
                            channel_order_definition: None,
                        },
                    );
                    p = 14;
                }
            }
            let mut object_count: Option<u8> = None;
            if (ss / 2) % 2 == 1 {
                let n = read_u8(buf, p)?;
                object_count = Some(n);
                p = p + 1;
            }
            Ok(
                (
                    Chnl {
                        channel_structure: cs,
                        object_count,
                        format_ordering: None,
                        base_channel_count: None,
                    },
                    p,
                ),
            )
        } else if version == 1 {
            if buf.len() < 6 {
                return Err(Error::OutOfBounds);
            }
            let ss = buf[4] / 16;
            let base = buf[5];
            let mut p: usize = 6;
            let mut cs: Option<ChannelStructure> = None;
            if ss % 2 == 1 {
                if buf.len() < 8 {
                    return Err(Error::OutOfBounds);
                }
                let layout = buf[6];
                if layout == 0 {
                    let (positions, q) = decode_speakers(buf, 8, buf[7] as usize)?;
                    cs = Some(ChannelStructure::ExplicitPositions { positions });
                    p = q;
                } else if buf[7] % 2 == 1 {
                    let m = read_u64(buf, 8)?;
                    cs = Some(
                        ChannelStructure::DefinedLayout {
                            layout,
                            omitted_channels_map: Some(m),
                            channel_order_definition: Some((buf[7] / 2) % 8),
                        },
                    );
                    p = 16;
                } else {
                    cs = Some(
                        ChannelStructure::DefinedLayout {
                            layout,
                            omitted_channels_map: None,
                            channel_order_definition: Some((buf[7] / 2) % 8),
                        },
                    );
                    p = 8;
                }
            }
            let mut object_count: Option<u8> = None;
            if (ss / 2) % 2 == 1 {
                if (base as u16) < channel_count {
                    return Err(Error::InvalidSize);
                }
                object_count = Some((base as u16 - channel_count) as u8);
            }
            Ok(
                (
                    Chnl {
                        channel_structure: cs,
                        object_count,
                        format_ordering: Some(buf[4] % 16),
                        base_channel_count: Some(base),
                    },
                    p,
                ),
            )
        } else {
            Err(Error::UnknownVersion(version))
        }
    }

    /// Appends the body of this channel layout box.
    pub fn encode_body(&self, out: &mut Vec<u8>) -> (r: Result<(), Error>)
        ensures
            spec_encode_chnl(self@) matches Ok(b) ==> r is Ok && final(out)@ == old(out)@ + b,
            spec_encode_chnl(self@) matches Err(e) ==> r == Err::<(), Error>(e) && final(out)@
                == old(out)@,
    {
        let ghost v = self@;
        let oc: u8 = if self.object_count.is_some() { 2 } else { 0 };
        let bits: u8 = if self.channel_structure.is_some() { 1 + oc } else { oc };
        assert(bits == structure_bits(v));
        let mut body: Vec<u8> = Vec::new();
        if self.format_ordering.is_none() && self.base_channel_count.is_none() {
            put_u8(&mut body, 0);
            put_u8(&mut body, 0);
            put_u8(&mut body, 0);
            put_u8(&mut body, 0);
            put_u8(&mut body, bits);
            match &self.channel_structure {
                None => {},
                Some(ChannelStructure::DefinedLayout { layout, omitted_channels_map, .. }) => {
                    put_u8(&mut body, *layout);
                    let m: u64 = match omitted_channels_map {
                        Some(m) => *m,
                        None => 0,
                    };
                    put_u64(&mut body, m);
                },
                Some(ChannelStructure::ExplicitPositions { positions }) => {
                    put_u8(&mut body, 0);
                    put_speakers(&mut body, positions);
                },
            }
            match self.object_count {
                Some(n) => {
                    put_u8(&mut body, n);
                },
                None => {},
            }
        } else {
            let fo: u8 = match self.format_ordering {
                Some(x) => x,
                None => 0,
            };
            let base: u8 = match self.base_channel_count {
                Some(x) => x,
                None => 0,
            };
            if fo >= 16 {
                return Err(Error::TooLarge(FourCC::from_u32(0x63686e6c)));
            }
            put_u8(&mut body, 1);
            put_u8(&mut body, 0);
            put_u8(&mut body, 0);
            put_u8(&mut body, 0);
            put_u8(&mut body, bits * 16 + fo);
            put_u8(&mut body, base);
            match &self.channel_structure {
                None => {},
                Some(
                    ChannelStructure::DefinedLayout {
                        layout,
                        omitted_channels_map,
                        channel_order_definition,
                    },
                ) => {
                    let d: u8 = match channel_order_definition {
                        Some(x) => *x,
                        None => 0,
                    };
                    if d >= 8 {
                        return Err(Error::TooLarge(FourCC::from_u32(0x63686e6c)));
                    }
                    put_u8(&mut body, *layout);
                    match omitted_channels_map {
                        Some(m) => {
                            put_u8(&mut body, d * 2 + 1);
                            put_u64(&mut body, *m);
                        },
                        None => {
                            put_u8(&mut body, d * 2);
                        },
                    }
                },
                Some(ChannelStructure::ExplicitPositions { positions }) => {
                    if positions.len() > 255 {
                        return Err(Error::TooLarge(FourCC::from_u32(0x63686e6c)));
                    }
                    put_u8(&mut body, 0);
                    put_u8(&mut body, positions.len() as u8);
                    put_speakers(&mut body, positions);
                },
            }
        }
        assert(body@ =~= spec_encode_chnl(v)->Ok_0);
        put_bytes(out, body.as_slice());
        Ok(())
    }

    /// Appends this channel layout box, header included.
    pub fn encode(&self, out: &mut Vec<u8>) -> (r: Result<(), Error>)
        ensures
            spec_encode_chnl_atom(self@) matches Ok(b) ==> r is Ok && final(out)@ == old(out)@ + b,
            spec_encode_chnl_atom(self@) matches Err(e) ==> r == Err::<(), Error>(e) && final(out)@
                == old(out)@,
    {
        let mut body: Vec<u8> = Vec::new();
        self.encode_body(&mut body)?;
        if body.len() > 4294967287 {
            return Err(Error::TooLarge(FourCC::from_u32(0x63686e6c)));
        }
        put_u32(out, (body.len() + 8) as u32);
        put_u32(out, 0x63686e6c);
        put_bytes(out, body.as_slice());
        assert(out@ =~= old(out)@ + (header_bytes(chnl_code(), body@.len() as int) + body@));
        Ok(())
    }
}

/// A kept channel layout box decodes back from its bytes, for the same channel count.
pub proof fn lemma_chnl_roundtrip(v: ChnlV, channel_count: u16)
    requires
        chnl_keeps(v, channel_count),
        spec_encode_chnl(v) is Ok,
    ensures
        spec_decode_chnl(spec_encode_chnl(v)->Ok_0, channel_count) == Ok::<(ChnlV, int), Error>(
            (v, spec_encode_chnl(v)->Ok_0.len() as int),
        ),
{
    let b = spec_encode_chnl(v)->Ok_0;
    if !chnl_v1(v) {
        let head = seq![0u8, 0, 0, 0, structure_bits(v)];
        let ob = obj0_bytes(v.object_count);
        match v.channel_structure {
            None => {
                assert(b =~= head + ob);
            },
            Some(ChannelStructureV::DefinedLayout { layout, omitted_channels_map, .. }) => {
                let m = omitted_channels_map->0;
                let t = be64(m) + ob;
                assert(b =~= (head + seq![layout]) + t);
                lemma_at_shift(head + seq![layout], t, 0);
                assert(b[5] == layout);
            },
            Some(ChannelStructureV::ExplicitPositions { positions }) => {
                let p = head + seq![0u8];
                assert(b =~= p + speakers_bytes(positions) + ob);
                lemma_speakers_roundtrip(p, positions, ob);
                assert(b[5] == 0);
            },
        }
        assert(b[4] == structure_bits(v));
    } else {
        let fo = v.format_ordering->0;
        let base = v.base_channel_count->0;
        let head = seq![1u8, 0, 0, 0, (structure_bits(v) * 16 + fo) as u8, base];
        let c = cs1_bytes(v.channel_structure)->Ok_0;
        assert(b =~= head + c);
        assert(b[4] / 16 == structure_bits(v));
        assert(b[4] % 16 == fo);
        match v.channel_structure {
            None => {},
            Some(ChannelStructureV::DefinedLayout { layout, omitted_channels_map, channel_order_definition }) => {
                let d = channel_order_definition->0;
                assert(b[6] == layout);
                match omitted_channels_map {
                    Some(m) => {
                        assert(b[7] == d * 2 + 1);
                        assert(b =~= (head + seq![layout, (d * 2 + 1) as u8]) + be64(m));
                        lemma_at_shift(head + seq![layout, (d * 2 + 1) as u8], be64(m), 0);
                    },
                    None => {
                        assert(b[7] == d * 2);
                    },
                }
            },
            Some(ChannelStructureV::ExplicitPositions { positions }) => {
                let p = head + seq![0u8, positions.len() as u8];
                assert(b =~= p + speakers_bytes(positions) + Seq::<u8>::empty());
                lemma_speakers_roundtrip(p, positions, Seq::empty());
                assert(b[6] == 0);
                assert(b[7] == positions.len());
            },
        }
    }
}

/// A channel layout box comes back from its bytes only when it is kept: what
/// `lemma_chnl_roundtrip` asks of a box is exactly what its round trip needs.
pub proof fn lemma_chnl_roundtrip_only_kept(v: ChnlV, channel_count: u16)
    requires
        spec_encode_chnl(v) is Ok,
        spec_decode_chnl(spec_encode_chnl(v)->Ok_0, channel_count) matches Ok((w, _)) && w == v,
    ensures
        chnl_keeps(v, channel_count),
{
    let b = spec_encode_chnl(v)->Ok_0;
    let w = spec_decode_chnl(b, channel_count)->Ok_0.0;
    if !chnl_v1(v) {
        let head = seq![0u8, 0, 0, 0, structure_bits(v)];
        let ob = obj0_bytes(v.object_count);
        assert(b[0] == 0);
        assert(b[4] == structure_bits(v));
        match v.channel_structure {
            Some(ChannelStructureV::DefinedLayout { layout, omitted_channels_map, .. }) => {
                let m: u64 = match omitted_channels_map {
                    Some(m) => m,
                    None => 0,
                };
                assert(b =~= head + seq![layout] + (be64(m) + ob));
                assert(b[5] == layout);
            },
            Some(ChannelStructureV::ExplicitPositions { positions }) => {
                let p = head + seq![0u8];
                assert(b =~= p + speakers_bytes(positions) + ob);
                assert(b[5] == 0);
                lemma_speakers_len(b, 6, channel_count as nat);
                if exists|k: int| 0 <= k < positions.len() && !speaker_keeps(#[trigger] positions[k]) {
                    if positions.len() == channel_count {
                        lemma_speakers_not_kept(p, positions, ob);
                    }
                }
            },
            None => {},
        }
    } else {
        let fo: u8 = match v.format_ordering {
            Some(x) => x,
            None => 0,
        };
        let base: u8 = match v.base_channel_count {
            Some(x) => x,
            None => 0,
        };
        let head = seq![1u8, 0, 0, 0, (structure_bits(v) * 16 + fo) as u8, base];
        let c = cs1_bytes(v.channel_structure)->Ok_0;
        assert(b =~= head + c);
        assert(b[0] == 1);
        assert(b[4] / 16 == structure_bits(v));
        assert(b[4] % 16 == fo);
        assert(b[5] == base);
        match v.channel_structure {
            Some(ChannelStructureV::DefinedLayout { layout, .. }) => {
                assert(b[6] == layout);
            },
            Some(ChannelStructureV::ExplicitPositions { positions }) => {
                let p = head + seq![0u8, positions.len() as u8];
                assert(b =~= p + speakers_bytes(positions) + Seq::<u8>::empty());
                assert(b[6] == 0);
                assert(b[7] == positions.len());
                if exists|k: int| 0 <= k < positions.len() && !speaker_keeps(#[trigger] positions[k]) {
                    lemma_speakers_not_kept(p, positions, Seq::empty());
                }
            },
            None => {},
        }
    }
}

} // verus!
