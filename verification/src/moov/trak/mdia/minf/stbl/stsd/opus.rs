use vstd::prelude::*;

use crate::atom::{decode_atom, encode_atom, spec_decode_atom, spec_encode_atom, Atom, Decode, Encode};
use crate::codec::{
    be16, be16_at, be32, be32_at, bytes_from, group_codec, i16_bits, i16_of, lemma_at_shift,
    put_i16, put_u16, put_u32, put_u8, read_i16, read_u16, read_u32, read_u8,
};
use crate::container::{
    decode_children, encode_opt, lemma_decode_child, lemma_scan_child, lemma_scan_empty,
    lemma_scan_opt, opt_atom_bytes, opt_view, scan_children, Children,
};
use crate::error::Error;
use crate::fourcc::FourCC;
use super::audio::{audio_bytes, lemma_audio_roundtrip, Audio, AudioV};
use super::btrt::Btrt;

verus! {

broadcast use group_codec;

/// Opus specific box (`dOps`), version 0, with channel mapping family 0.
#[derive(Debug, Clone, Copy, PartialEq, Eq)]
pub struct Dops {
    pub output_channel_count: u8,
    pub pre_skip: u16,
    pub input_sample_rate: u32,
    pub output_gain: i16,
}

impl View for Dops {
    type V = Dops;

    open spec fn view(&self) -> Dops {
        *self
    }
}

/// The message of the error for a channel mapping family other than 0.
pub open spec fn channel_mapping_message() -> &'static str {
    "OPUS channel mapping"
}

impl Atom for Dops {
    open spec fn spec_kind() -> u32 {
        0x644f7073
    }

    fn kind() -> (k: FourCC) {
        FourCC::from_u32(0x644f7073)
    }

    /// A version (0, else `UnknownVersion`), the output channel count, the pre-skip, the
    /// input sample rate, the output gain, and a channel mapping family (0, else
    /// `Unsupported`).
    open spec fn spec_decode_body(s: Seq<u8>) -> Result<(Dops, int), Error> {
        if s.len() < 1 {
            Err(Error::OutOfBounds)
        } else if s[0] != 0 {
            Err(Error::UnknownVersion(s[0]))
        } else if s.len() < 11 {
            Err(Error::OutOfBounds)
        } else if s[10] != 0 {
            Err(Error::Unsupported(channel_mapping_message()))
        } else {
            Ok(
                (
                    Dops {
                        output_channel_count: s[1],
                        pre_skip: be16_at(s, 2),
                        input_sample_rate: be32_at(s, 4),
                        output_gain: i16_of(be16_at(s, 8)),
                    },
                    11,
                ),
            )
        }
    }

    open spec fn spec_encode_body(v: Dops) -> Result<Seq<u8>, Error> {
        Ok(
            seq![0u8, v.output_channel_count] + be16(v.pre_skip) + be32(v.input_sample_rate) + be16(
                i16_bits(v.output_gain),
            ) + seq![0u8],
        )
    }

    open spec fn spec_keeps(v: Dops) -> bool {
        true
    }

    fn decode_body(buf: &[u8]) -> (r: Result<(Self, usize), Error>) {
        let version = read_u8(buf, 0)?;
        if version != 0 {
            return Err(Error::UnknownVersion(version));
        }
        let output_channel_count = read_u8(buf, 1)?;
        let pre_skip = read_u16(buf, 2)?;
        let input_sample_rate = read_u32(buf, 4)?;
        let output_gain = read_i16(buf, 8)?;
        let family = read_u8(buf, 10)?;
        if family != 0 {
            return Err(Error::Unsupported("OPUS channel mapping"));
        }
        Ok((Dops { output_channel_count, pre_skip, input_sample_rate, output_gain }, 11))
    }

    fn encode_body(&self, out: &mut Vec<u8>) -> (r: Result<(), Error>) {
        let ghost start = out@;
        put_u8(out, 0);
        put_u8(out, self.output_channel_count);
        put_u16(out, self.pre_skip);
        put_u32(out, self.input_sample_rate);
        put_i16(out, self.output_gain);
        put_u8(out, 0);
        assert(out@ =~= start + Self::spec_encode_body(*self)->Ok_0);
        Ok(())
    }

    proof fn lemma_body_roundtrip(v: Dops) {
        let b = Self::spec_encode_body(v)->Ok_0;
        let p = seq![0u8, v.output_channel_count];
        let q = be16(v.pre_skip) + be32(v.input_sample_rate) + be16(i16_bits(v.output_gain))
            + seq![0u8];
        assert(b =~= p + q);
        lemma_at_shift(p, q, 0);
        lemma_at_shift(p, q, 2);
        lemma_at_shift(p, q, 6);
        crate::codec::lemma_i16(v.output_gain);
        assert(b[10] == 0);
    }
}

/// Decoding a `dOps` body succeeds exactly on 11 or more bytes with version 0 and channel
/// mapping family 0 (byte 10); it then reads the output channel count from byte 1, the
/// pre-skip as the big-endian `u16` at offset 2, the input sample rate as the big-endian
/// `u32` at offset 4, and the output gain as the signed big-endian `i16` at offset 8.
pub proof fn lemma_dops_decode_layout(s: Seq<u8>)
    ensures
        Dops::spec_decode_body(s) is Ok <==> s.len() >= 11 && s[0] == 0 && s[10] == 0,
        Dops::spec_decode_body(s) matches Ok((v, n)) ==> {
            &&& n == 11
            &&& v.output_channel_count == s[1]
            &&& v.pre_skip == be16_at(s, 2)
            &&& v.input_sample_rate == be32_at(s, 4)
            &&& v.output_gain == i16_of(be16_at(s, 8))
        },
{
}

/// Encoding a `dOps` body writes 11 bytes: version 0, the output channel count, the
/// big-endian pre-skip at offset 2, the big-endian input sample rate at offset 4, the output
/// gain as a signed big-endian `i16` at offset 8, and channel mapping family 0.
pub proof fn lemma_dops_encode_layout(v: Dops)
    ensures
        Dops::spec_encode_body(v) matches Ok(b) ==> {
            &&& b.len() == 11
            &&& b[0] == 0
            &&& b[1] == v.output_channel_count
            &&& b.subrange(2, 4) == be16(v.pre_skip)
            &&& b.subrange(4, 8) == be32(v.input_sample_rate)
            &&& b.subrange(8, 10) == be16(i16_bits(v.output_gain))
            &&& b[10] == 0
        },
{
    let b = Dops::spec_encode_body(v)->Ok_0;
    assert(b.subrange(2, 4) =~= be16(v.pre_skip));
    assert(b.subrange(4, 8) =~= be32(v.input_sample_rate));
    assert(b.subrange(8, 10) =~= be16(i16_bits(v.output_gain)));
}

/// Opus sample entry (`Opus`): an audio sample entry with a required `dOps` and an optional
/// bit rate.
#[derive(Debug, Clone, PartialEq, Eq)]
pub struct Opus {
    pub audio: Audio,
    pub dops: Dops,
    pub btrt: Option<Btrt>,
}

impl View for Opus {
    type V = (AudioV, Dops, Option<Btrt>);

    open spec fn view(&self) -> (AudioV, Dops, Option<Btrt>) {
        (self.audio@, self.dops, opt_view(self.btrt))
    }
}

/// The children of an `Opus` found so far.
pub struct OpusChildren {
    pub dops: Option<Dops>,
    pub btrt: Option<Btrt>,
}

impl Children for OpusChildren {
    type A = (Option<Dops>, Option<Btrt>);

    /// A known child is decoded and replaces an earlier one of its type; another is skipped.
    open spec fn spec_apply(acc: Self::A, code: u32, c: Seq<u8>) -> Result<Self::A, Error> {
        if code == Dops::spec_kind() {
            match spec_decode_atom::<Dops>(c) {
                Ok((x, _)) => Ok((Some(x), acc.1)),
                Err(e) => Err(e),
            }
        } else if code == Btrt::spec_kind() {
            match spec_decode_atom::<Btrt>(c) {
                Ok((x, _)) => Ok((acc.0, Some(x))),
                Err(e) => Err(e),
            }
        } else {
            Ok(acc)
        }
    }

    open spec fn spec_state(&self) -> Self::A {
        (opt_view(self.dops), opt_view(self.btrt))
    }

    fn apply(&mut self, code: u32, child: &[u8]) -> (r: Result<(), Error>) {
        if code == 0x644f7073 {
            let (x, _) = decode_atom::<Dops>(child)?;
            self.dops = Some(x);
        } else if code == 0x62747274 {
            let (x, _) = decode_atom::<Btrt>(child)?;
            self.btrt = Some(x);
        }
        Ok(())
    }
}

impl Atom for Opus {
    open spec fn spec_kind() -> u32 {
        0x4f707573
    }

    fn kind() -> (k: FourCC) {
        FourCC::from_u32(0x4f707573)
    }

    /// The audio sample entry, then children; a missing `dOps` is `MissingBox`.
    open spec fn spec_decode_body(s: Seq<u8>) -> Result<((AudioV, Dops, Option<Btrt>), int), Error> {
        match Audio::spec_decode(s) {
            Err(e) => Err(e),
            Ok((a, n)) => match scan_children::<OpusChildren>(bytes_from(s, n), (None, None)) {
                Err(e) => Err(e),
                Ok((acc, m)) => match acc.0 {
                    None => Err(Error::MissingBox(FourCC { code: Dops::spec_kind() })),
                    Some(d) => Ok(((a, d, acc.1), n + m)),
                },
            },
        }
    }

    /// The audio sample entry, the `dOps`, then the `btrt` where present.
    open spec fn spec_encode_body(v: (AudioV, Dops, Option<Btrt>)) -> Result<Seq<u8>, Error> {
        match opt_atom_bytes::<Btrt>(v.2) {
            Err(e) => Err(e),
            Ok(b) => Ok(audio_bytes(v.0) + spec_encode_atom::<Dops>(v.1)->Ok_0 + b),
        }
    }

    open spec fn spec_keeps(v: (AudioV, Dops, Option<Btrt>)) -> bool {
        true
    }

    fn decode_body(buf: &[u8]) -> (r: Result<(Self, usize), Error>) {
        let (audio, n) = Audio::decode_prefix(buf)?;
        let mut st = OpusChildren { dops: None, btrt: None };
        let end = decode_children(buf, n, &mut st)?;
        match st.dops {
            None => Err(Error::MissingBox(Dops::kind())),
            Some(dops) => Ok((Opus { audio, dops, btrt: st.btrt }, end)),
        }
    }

    fn encode_body(&self, out: &mut Vec<u8>) -> (r: Result<(), Error>) {
        let mut body: Vec<u8> = Vec::new();
        self.audio.encode(&mut body)?;
        match encode_atom(&self.dops, &mut body) {
            Ok(()) => {},
            Err(e) => {
                proof {
                    crate::atom::lemma_encode_atom_small::<Dops>(self.dops);
                }
                return Err(e);
            },
        }
        encode_opt(&self.btrt, &mut body)?;
        assert(body@ =~= Self::spec_encode_body(self@)->Ok_0);
        crate::codec::put_bytes(out, body.as_slice());
        Ok(())
    }

    proof fn lemma_body_roundtrip(v: (AudioV, Dops, Option<Btrt>)) {
        crate::atom::lemma_encode_atom_small::<Dops>(v.1);
        let d = spec_encode_atom::<Dops>(v.1)->Ok_0;
        let b = opt_atom_bytes::<Btrt>(v.2)->Ok_0;
        let z = Seq::<u8>::empty();
        let fin = (Some(v.1), v.2);
        lemma_scan_empty::<OpusChildren>(fin);
        if let Some(x) = v.2 {
            lemma_decode_child::<Btrt>(x);
        }
        lemma_scan_opt::<OpusChildren, Btrt>(v.2, z, (Some(v.1), None), fin, fin);
        assert(b + z =~= b);
        lemma_decode_child::<Dops>(v.1);
        lemma_scan_child::<OpusChildren, Dops>(v.1, b, (None, None), (Some(v.1), None), fin);
        let kids = d + b;
        let all = audio_bytes(v.0) + d + b;
        assert(all =~= audio_bytes(v.0) + kids);
        lemma_audio_roundtrip(v.0, kids);
        assert(bytes_from(all, 28) =~= kids);
    }
}

} // verus!
