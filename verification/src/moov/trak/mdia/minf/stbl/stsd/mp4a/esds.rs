use vstd::prelude::*;
use vstd::arithmetic::power2::pow2;

use crate::atom::{Atom, Decode, Encode};
use crate::bits::{
    bits_value, decode_bits, encode_bits, is_bits, lemma_bits_value_prefix,
    lemma_is_bits_concat, lemma_segment, lemma_value_bits_is_bits, pack_bits, value_bits,
};
use crate::codec::{
    be16, be16_at, be24, be24_at, be32, be32_at, bytes_from, group_codec, lemma_at_shift,
    put_bytes, put_u16, put_u24, put_u32, put_u8, read_bytes, read_u16, read_u24, read_u32,
    read_u8,
};
use crate::error::Error;
use vstd::std_specs::convert::FromSpecImpl;
use crate::fourcc::FourCC;
use crate::types::u24;

verus! {

broadcast use group_codec;

// ---------------------------------------------------------------------------
// Descriptor framing: a tag, a size in one to four 7-bit groups, then the body
// ---------------------------------------------------------------------------

/// What decoding the head of a descriptor gives: its tag, the length of the head, and the
/// size of the body that follows. A size with a fifth group is `InvalidSize`; a body that
/// does not fit is `OutOfBounds`.
pub open spec fn spec_frame(s: Seq<u8>) -> Result<(u8, int, int), Error> {
    let r: Result<(int, int), Error> = if s.len() < 2 {
        Err(Error::OutOfBounds)
    } else if s[1] < 128 {
        Ok((2, s[1] as int))
    } else if s.len() < 3 {
        Err(Error::OutOfBounds)
    } else if s[2] < 128 {
        Ok((3, (s[1] % 128) as int * 128 + s[2] as int))
    } else if s.len() < 4 {
        Err(Error::OutOfBounds)
    } else if s[3] < 128 {
        Ok((4, ((s[1] % 128) as int * 128 + (s[2] % 128) as int) * 128 + s[3] as int))
    } else if s.len() < 5 {
        Err(Error::OutOfBounds)
    } else if s[4] < 128 {
        Ok(
            (
                5,
                (((s[1] % 128) as int * 128 + (s[2] % 128) as int) * 128 + (s[3] % 128) as int)
                    * 128 + s[4] as int,
            ),
        )
    } else {
        Err(Error::InvalidSize)
    };
    match r {
        Err(e) => Err(e),
        Ok((h, size)) => if h + size > s.len() {
            Err(Error::OutOfBounds)
        } else {
            Ok((s[0], h, size))
        },
    }
}

/// The size of a body, written in 7-bit groups, most significant first, each but the last
/// with its top bit set.
pub open spec fn size_bytes(n: nat) -> Seq<u8> {
    if n < 128 {
        seq![n as u8]
    } else if n < 16384 {
        seq![(128 + n / 128) as u8, (n % 128) as u8]
    } else if n < 2097152 {
        seq![(128 + n / 16384) as u8, (128 + (n / 128) % 128) as u8, (n % 128) as u8]
    } else {
        seq![
            (128 + n / 2097152) as u8,
            (128 + (n / 16384) % 128) as u8,
            (128 + (n / 128) % 128) as u8,
            (n % 128) as u8,
        ]
    }
}

/// The bytes of a descriptor: its tag, its size, its body.
pub open spec fn frame_bytes(tag: u8, body: Seq<u8>) -> Seq<u8> {
    seq![tag] + size_bytes(body.len()) + body
}

/// The largest body a descriptor size can count.
pub open spec fn max_descriptor_body() -> nat {
    0x0FFF_FFFF
}

/// Reads the head of a descriptor.
fn decode_frame(buf: &[u8]) -> (r: Result<(u8, usize, usize), Error>)
    ensures
        r matches Ok((t, h, n)) ==> spec_frame(buf@) == Ok::<(u8, int, int), Error>(
            (t, h as int, n as int),
        ),
        r matches Err(e) ==> spec_frame(buf@) == Err::<(u8, int, int), Error>(e),
{
    let tag = read_u8(buf, 0)?;
    let b1 = read_u8(buf, 1)?;
    let (h, size): (usize, usize) = if b1 < 128 {
        (2, b1 as usize)
    } else {
        let b2 = read_u8(buf, 2)?;
        if b2 < 128 {
            (3, (b1 % 128) as usize * 128 + b2 as usize)
        } else {
            let b3 = read_u8(buf, 3)?;
            if b3 < 128 {
                (4, ((b1 % 128) as usize * 128 + (b2 % 128) as usize) * 128 + b3 as usize)
            } else {
                let b4 = read_u8(buf, 4)?;
                if b4 < 128 {
                    (
                        5,
                        (((b1 % 128) as usize * 128 + (b2 % 128) as usize) * 128 + (b3
                            % 128) as usize) * 128 + b4 as usize,
                    )
                } else {
                    return Err(Error::InvalidSize);
                }
            }
        }
    };
    if size > buf.len() - h {
        return Err(Error::OutOfBounds);
    }
    Ok((tag, h, size))
}

/// Appends a descriptor with this tag and body; a body over 0x0FFFFFFF bytes is
/// `InvalidSize`, and then nothing is appended.
fn put_frame(out: &mut Vec<u8>, tag: u8, body: &[u8]) -> (r: Result<(), Error>)
    ensures
        body@.len() > max_descriptor_body() ==> r == Err::<(), Error>(Error::InvalidSize)
            && final(out)@ == old(out)@,
        body@.len() <= max_descriptor_body() ==> r is Ok && final(out)@ == old(out)@ + frame_bytes(
            tag,
            body@,
        ),
{
    let n = body.len();
    if n > 0x0FFF_FFFF {
        return Err(Error::InvalidSize);
    }
    put_u8(out, tag);
    if n < 128 {
        put_u8(out, n as u8);
    } else if n < 16384 {
        put_u8(out, (128 + n / 128) as u8);
        put_u8(out, (n % 128) as u8);
    } else if n < 2097152 {
        put_u8(out, (128 + n / 16384) as u8);
        put_u8(out, (128 + (n / 128) % 128) as u8);
        put_u8(out, (n % 128) as u8);
    } else {
        put_u8(out, (128 + n / 2097152) as u8);
        put_u8(out, (128 + (n / 16384) % 128) as u8);
        put_u8(out, (128 + (n / 128) % 128) as u8);
        put_u8(out, (n % 128) as u8);
    }
    put_bytes(out, body);
    assert(out@ =~= old(out)@ + frame_bytes(tag, body@));
    Ok(())
}

/// The 7-bit groups of a size put back together give the size.
proof fn lemma_size_groups(n: nat)
    requires
        n <= 0x0FFF_FFFF,
    ensures
        n / 128 * 128 + n % 128 == n,
        n >= 128 ==> (n / 16384) * 128 + (n / 128) % 128 == n / 128,
        n >= 16384 ==> (n / 2097152) * 128 + (n / 16384) % 128 == n / 16384,
        n < 16384 ==> n / 128 < 128,
        n < 2097152 ==> n / 16384 < 128,
        n / 2097152 < 128,
{
    assert(n / 128 * 128 + n % 128 == n) by (nonlinear_arith);
    assert((n / 16384) * 128 + (n / 128) % 128 == n / 128) by (nonlinear_arith);
    assert((n / 2097152) * 128 + (n / 16384) % 128 == n / 16384) by (nonlinear_arith);
    assert(n < 16384 ==> n / 128 < 128) by (nonlinear_arith);
    assert(n < 2097152 ==> n / 16384 < 128) by (nonlinear_arith);
    assert(n <= 0x0FFF_FFFF ==> n / 2097152 < 128) by (nonlinear_arith);
}

/// A descriptor head reads back the tag and the size it was written with.
#[verifier::rlimit(40)]
pub proof fn lemma_frame_roundtrip(tag: u8, body: Seq<u8>, rest: Seq<u8>)
    requires
        body.len() <= max_descriptor_body(),
    ensures
        spec_frame(frame_bytes(tag, body) + rest) == Ok::<(u8, int, int), Error>(
            (tag, 1 + size_bytes(body.len()).len() as int, body.len() as int),
        ),
        size_bytes(body.len()).len() <= 4,
        frame_bytes(tag, body).len() == 1 + size_bytes(body.len()).len() + body.len(),
{
    let n = body.len();
    let s = frame_bytes(tag, body) + rest;
    let sz = size_bytes(n);
    assert(s =~= seq![tag] + sz + body + rest);
    lemma_size_groups(n);
    let q1 = n / 128;
    let r1 = n % 128;
    let q2 = n / 16384;
    let q3 = n / 2097152;
    if n < 128 {
        assert(s[1] == n);
    } else if n < 16384 {
        assert(s[1] == 128 + q1 && s[2] == r1);
        assert((s[1] % 128) as int * 128 + s[2] as int == n);
    } else if n < 2097152 {
        let m2 = (n / 128) % 128;
        assert(s[1] == 128 + q2 && s[2] == 128 + m2 && s[3] == r1);
        assert(((s[1] % 128) as int * 128 + (s[2] % 128) as int) * 128 + s[3] as int == n);
    } else {
        let m2 = (n / 128) % 128;
        let m3 = (n / 16384) % 128;
        assert(s[1] == 128 + q3 && s[2] == 128 + m3 && s[3] == 128 + m2 && s[4] == r1);
        assert((((s[1] % 128) as int * 128 + (s[2] % 128) as int) * 128 + (s[3] % 128) as int)
            * 128 + s[4] as int == n);
    }
}

// ---------------------------------------------------------------------------
// Sync layer configuration descriptor
// ---------------------------------------------------------------------------

/// Sync layer configuration descriptor: a single predefined byte.
#[derive(Debug, Clone, Copy, PartialEq, Eq, Default)]
pub struct SLConfig {}

impl SLConfig {
    /// The tag of this descriptor.
    pub fn tag() -> (r: u8)
        ensures
            r == 6,
    {
        6
    }
}

impl View for SLConfig {
    type V = SLConfig;

    open spec fn view(&self) -> SLConfig {
        *self
    }
}

impl Decode for SLConfig {
    /// One predefined byte, ignored.
    open spec fn spec_decode(s: Seq<u8>) -> Result<(SLConfig, int), Error> {
        if s.len() < 1 {
            Err(Error::OutOfBounds)
        } else {
            Ok((SLConfig {  }, 1))
        }
    }

    fn decode_prefix(buf: &[u8]) -> (r: Result<(SLConfig, usize), Error>) {
        let _predefined = read_u8(buf, 0)?;
        Ok((SLConfig {  }, 1))
    }
}

impl Encode for SLConfig {
    /// The predefined value 2.
    open spec fn spec_encode(v: SLConfig) -> Result<Seq<u8>, Error> {
        Ok(seq![2u8])
    }

    fn encode(&self, out: &mut Vec<u8>) -> (r: Result<(), Error>) {
        put_u8(out, 2);
        Ok(())
    }
}

// ---------------------------------------------------------------------------
// Decoder specific information (the start of an AudioSpecificConfig)
// ---------------------------------------------------------------------------

/// Decoder specific information: the audio object type, the sampling frequency index (with
/// an explicit rate for index 15) and the channel configuration, packed in bits.
#[derive(Debug, Clone, Copy, PartialEq, Eq, Default)]
pub struct DecoderSpecific {
    pub profile: u8,
    pub freq_index: u8,
    pub sample_rate: Option<u32>,
    pub chan_conf: u8,
}

impl DecoderSpecific {
    /// The tag of this descriptor.
    pub fn tag() -> (r: u8)
        ensures
            r == 5,
    {
        5
    }
}

impl View for DecoderSpecific {
    type V = DecoderSpecific;

    open spec fn view(&self) -> DecoderSpecific {
        *self
    }
}

/// What decoding decoder specific information from all of `s` gives: a 5-bit object type
/// (31 means 32 plus the next 6 bits), a 4-bit frequency index (15 means an explicit 24-bit
/// rate follows), then a 4-bit channel configuration; too few bits is `OutOfBounds`.
#[verifier::opaque]
pub open spec fn spec_decode_specific(s: Seq<u8>) -> Result<(DecoderSpecific, int), Error> {
    let l = 8 * s.len();
    if l < 5 {
        Err(Error::OutOfBounds)
    } else {
        let p0 = bits_value(s, 0, 5);
        let head: Result<(int, int), Error> = if p0 == 31 {
            if l < 11 {
                Err(Error::OutOfBounds)
            } else {
                Ok((32 + bits_value(s, 5, 6) as int, 11))
            }
        } else {
            Ok((p0 as int, 5))
        };
        match head {
            Err(e) => Err(e),
            Ok((profile, off)) => if l < off + 4 {
                Err(Error::OutOfBounds)
            } else {
                let freq = bits_value(s, off, 4);
                let rate: Result<(Option<u32>, int), Error> = if freq == 15 {
                    if l < off + 28 {
                        Err(Error::OutOfBounds)
                    } else {
                        Ok((Some(bits_value(s, off + 4, 24) as u32), off + 28))
                    }
                } else {
                    Ok((None, off + 4))
                };
                match rate {
                    Err(e) => Err(e),
                    Ok((sample_rate, off2)) => if l < off2 + 4 {
                        Err(Error::OutOfBounds)
                    } else {
                        Ok(
                            (
                                DecoderSpecific {
                                    profile: profile as u8,
                                    freq_index: freq as u8,
                                    sample_rate,
                                    chan_conf: bits_value(s, off2, 4) as u8,
                                },
                                s.len() as int,
                            ),
                        )
                    },
                }
            },
        }
    }
}

/// Whether decoder specific information can be written: an object type other than 31 and
/// at most 95, a frequency index and a channel configuration that fit in four bits, and an
/// explicit rate, of 24 bits, exactly with frequency index 15.
pub open spec fn specific_writable(v: DecoderSpecific) -> bool {
    &&& v.profile != 31
    &&& v.profile <= 95
    &&& v.freq_index <= 15
    &&& v.chan_conf <= 15
    &&& (v.freq_index == 15) == v.sample_rate.is_some()
    &&& (v.sample_rate matches Some(r) ==> r <= 0xFF_FFFF)
}

/// The bits of decoder specific information.
pub open spec fn specific_bits(v: DecoderSpecific) -> Seq<u8> {
    (if v.profile < 31 {
        value_bits(v.profile as u32, 5)
    } else {
        value_bits(31, 5) + value_bits((v.profile - 32) as u32, 6)
    }) + value_bits(v.freq_index as u32, 4) + (match v.sample_rate {
        Some(r) => value_bits(r, 24),
        None => Seq::empty(),
    }) + value_bits(v.chan_conf as u32, 4)
}

impl Decode for DecoderSpecific {
    open spec fn spec_decode(s: Seq<u8>) -> Result<(DecoderSpecific, int), Error> {
        spec_decode_specific(s)
    }

    fn decode_prefix(buf: &[u8]) -> (r: Result<(DecoderSpecific, usize), Error>) {
        reveal(spec_decode_specific);
        let m: usize = if buf.len() < 8 {
            buf.len()
        } else {
            8
        };
        let d = vstd::slice::slice_subrange(buf, 0, m);
        let ghost s = buf@;
        proof {
            assert forall|off: int, c: nat| 0 <= off && off + c <= 8 * m implies #[trigger] bits_value(
                d@,
                off,
                c,
            ) == bits_value(s, off, c) by {
                lemma_bits_value_prefix(s, m as int, off, c);
                assert(d@ =~= s.subrange(0, m as int));
            }
        }
        let mut off: usize = 0;
        let p0 = decode_bits(d, &mut off, 5)?;
        let profile: u32 = if p0 == 31 {
            let p1 = decode_bits(d, &mut off, 6)?;
            proof {
                crate::bits::lemma_bits_value_bound(s, 5, 6);
                vstd::arithmetic::power2::lemma2_to64();
            }
            32 + p1
        } else {
            p0
        };
        proof {
            crate::bits::lemma_bits_value_bound(s, 0, 5);
            vstd::arithmetic::power2::lemma2_to64();
        }
        assert(off == (if p0 == 31 { 11int } else { 5int }));
        assert(8 * m < off + 4 <==> 8 * s.len() < off + 4);
        let ghost o1 = off as int;
        proof {
            crate::bits::lemma_bits_value_bound(s, o1, 4);
        }
        let freq = decode_bits(d, &mut off, 4)?;
        assert(freq as nat == bits_value(s, o1, 4));
        assert(8 * m < off + 24 <==> 8 * s.len() < off + 24);
        let sample_rate: Option<u32> = if freq == 15 {
            Some(decode_bits(d, &mut off, 24)?)
        } else {
            None
        };
        assert(off <= 39);
        assert(8 * m < off + 4 <==> 8 * s.len() < off + 4);
        let chan = decode_bits(d, &mut off, 4)?;
        proof {
            crate::bits::lemma_bits_value_bound(s, (off - 4) as int, 4);
            crate::bits::lemma_bits_value_bound(s, (if p0 == 31 { 11int } else { 5int }), 4);
        }
        Ok(
            (
                DecoderSpecific {
                    profile: profile as u8,
                    freq_index: freq as u8,
                    sample_rate,
                    chan_conf: chan as u8,
                },
                buf.len(),
            ),
        )
    }
}

impl Encode for DecoderSpecific {
    /// The bits, padded with zeros to whole bytes; information that cannot be written is
    /// `InvalidSize`.
    open spec fn spec_encode(v: DecoderSpecific) -> Result<Seq<u8>, Error> {
        if specific_writable(v) {
            Ok(pack_bits(specific_bits(v)))
        } else {
            Err(Error::InvalidSize)
        }
    }

    fn encode(&self, out: &mut Vec<u8>) -> (r: Result<(), Error>) {
        let bad_rate = match self.sample_rate {
            Some(rate) => rate > 0xFF_FFFF,
            None => false,
        };
        if self.profile == 31 || self.profile > 95 || self.freq_index > 15 || self.chan_conf > 15
            || (self.freq_index == 15) != self.sample_rate.is_some() || bad_rate {
            return Err(Error::InvalidSize);
        }
        let mut encoded: Vec<u8> = Vec::new();
        let mut off: usize = 0;
        let ghost mut bits: Seq<u8> = Seq::empty();
        assert(encoded@ =~= pack_bits(bits));
        proof {
            lemma_value_bits_is_bits(self.profile as u32, 5);
            lemma_value_bits_is_bits(31, 5);
            lemma_value_bits_is_bits((self.profile - 32) as u32, 6);
            lemma_value_bits_is_bits(self.freq_index as u32, 4);
            lemma_value_bits_is_bits(self.chan_conf as u32, 4);
            if let Some(rate) = self.sample_rate {
                lemma_value_bits_is_bits(rate, 24);
            }
        }
        if self.profile < 31 {
            encode_bits(&mut encoded, &mut off, self.profile as u32, 5, Ghost(bits));
            proof {
                lemma_is_bits_concat(bits, value_bits(self.profile as u32, 5));
                bits = bits + value_bits(self.profile as u32, 5);
            }
        } else {
            encode_bits(&mut encoded, &mut off, 31, 5, Ghost(bits));
            proof {
                lemma_is_bits_concat(bits, value_bits(31, 5));
                bits = bits + value_bits(31, 5);
            }
            encode_bits(&mut encoded, &mut off, (self.profile - 32) as u32, 6, Ghost(bits));
            proof {
                lemma_is_bits_concat(bits, value_bits((self.profile - 32) as u32, 6));
                bits = bits + value_bits((self.profile - 32) as u32, 6);
            }
        }
        encode_bits(&mut encoded, &mut off, self.freq_index as u32, 4, Ghost(bits));
        proof {
            lemma_is_bits_concat(bits, value_bits(self.freq_index as u32, 4));
            bits = bits + value_bits(self.freq_index as u32, 4);
        }
        match self.sample_rate {
            Some(rate) => {
                encode_bits(&mut encoded, &mut off, rate, 24, Ghost(bits));
                proof {
                    lemma_is_bits_concat(bits, value_bits(rate, 24));
                    bits = bits + value_bits(rate, 24);
                }
            },
            None => {
                assert(bits + Seq::<u8>::empty() =~= bits);
            },
        }
        encode_bits(&mut encoded, &mut off, self.chan_conf as u32, 4, Ghost(bits));
        proof {
            bits = bits + value_bits(self.chan_conf as u32, 4);
            assert(bits =~= specific_bits(*self));
        }
        put_bytes(out, encoded.as_slice());
        Ok(())
    }
}

/// Decoder specific information that can be written decodes back from its bytes.
pub proof fn lemma_specific_roundtrip(v: DecoderSpecific)
    requires
        specific_writable(v),
    ensures
        spec_decode_specific(pack_bits(specific_bits(v))) == Ok::<(DecoderSpecific, int), Error>(
            (v, pack_bits(specific_bits(v)).len() as int),
        ),
{
    reveal(spec_decode_specific);
    let bits = specific_bits(v);
    let s = pack_bits(bits);
    vstd::arithmetic::power2::lemma2_to64();
    lemma_value_bits_is_bits(v.profile as u32, 5);
    lemma_value_bits_is_bits(31, 5);
    lemma_value_bits_is_bits((v.profile - 32) as u32, 6);
    lemma_value_bits_is_bits(v.freq_index as u32, 4);
    lemma_value_bits_is_bits(v.chan_conf as u32, 4);
    let a = if v.profile < 31 {
        value_bits(v.profile as u32, 5)
    } else {
        value_bits(31, 5) + value_bits((v.profile - 32) as u32, 6)
    };
    if v.profile >= 31 {
        lemma_is_bits_concat(value_bits(31, 5), value_bits((v.profile - 32) as u32, 6));
    }
    let f = value_bits(v.freq_index as u32, 4);
    let r = match v.sample_rate {
        Some(x) => value_bits(x, 24),
        None => Seq::<u8>::empty(),
    };
    if let Some(x) = v.sample_rate {
        lemma_value_bits_is_bits(x, 24);
    }
    let c = value_bits(v.chan_conf as u32, 4);
    lemma_is_bits_concat(a, f);
    lemma_is_bits_concat(a + f, r);
    lemma_is_bits_concat(a + f + r, c);
    assert(bits =~= a + f + r + c);
    assert(8 * s.len() >= bits.len());
    let off = a.len() as int;
    if v.profile < 31 {
        lemma_segment(bits, 0, v.profile as u32, 5);
    } else {
        lemma_segment(bits, 0, 31, 5);
        lemma_segment(bits, 5, (v.profile - 32) as u32, 6);
    }
    lemma_segment(bits, off, v.freq_index as u32, 4);
    let off2 = off + 4 + r.len();
    if let Some(x) = v.sample_rate {
        lemma_segment(bits, off + 4, x, 24);
    }
    lemma_segment(bits, off2, v.chan_conf as u32, 4);
}

// ---------------------------------------------------------------------------
// Decoder configuration and elementary stream descriptors
// ---------------------------------------------------------------------------

/// Decoder configuration descriptor: the object type, the stream type and direction, the
/// buffer size, the bit rates, and the decoder specific information.
#[derive(Debug, Clone, Copy, PartialEq, Eq, Default)]
pub struct DecoderConfig {
    pub object_type_indication: u8,
    pub stream_type: u8,
    pub up_stream: u8,
    pub buffer_size_db: u24,
    pub max_bitrate: u32,
    pub avg_bitrate: u32,
    pub dec_specific: DecoderSpecific,
}

/// The value of a decoder configuration descriptor.
pub struct DecoderConfigV {
    pub object_type_indication: u8,
    pub stream_type: u8,
    pub up_stream: u8,
    pub buffer_size_db: u32,
    pub max_bitrate: u32,
    pub avg_bitrate: u32,
    pub dec_specific: DecoderSpecific,
}

impl View for DecoderConfig {
    type V = DecoderConfigV;

    open spec fn view(&self) -> DecoderConfigV {
        DecoderConfigV {
            object_type_indication: self.object_type_indication,
            stream_type: self.stream_type,
            up_stream: self.up_stream,
            buffer_size_db: self.buffer_size_db@,
            max_bitrate: self.max_bitrate,
            avg_bitrate: self.avg_bitrate,
            dec_specific: self.dec_specific,
        }
    }
}

impl DecoderConfig {
    /// The tag of this descriptor.
    pub fn tag() -> (r: u8)
        ensures
            r == 4,
    {
        4
    }
}

/// Elementary stream descriptor: the stream's id, optional dependency, URL and clock
/// reference stream, its priority, and its decoder and sync layer configurations.
#[derive(Debug, Clone, PartialEq, Eq, Default)]
pub struct EsDescriptor {
    pub es_id: u16,
    pub depends_on_es_id: Option<u16>,
    pub url: Option<Vec<u8>>,
    pub ocr_es_id: Option<u16>,
    pub stream_priority: u8,
    pub dec_config: DecoderConfig,
    pub sl_config: SLConfig,
}

/// The value of an elementary stream descriptor.
pub struct EsDescriptorV {
    pub es_id: u16,
    pub depends_on_es_id: Option<u16>,
    pub url: Option<Seq<u8>>,
    pub ocr_es_id: Option<u16>,
    pub stream_priority: u8,
    pub dec_config: DecoderConfigV,
    pub sl_config: SLConfig,
}

impl View for EsDescriptor {
    type V = EsDescriptorV;

    open spec fn view(&self) -> EsDescriptorV {
        EsDescriptorV {
            es_id: self.es_id,
            depends_on_es_id: self.depends_on_es_id,
            url: match self.url {
                Some(u) => Some(u@),
                None => None,
            },
            ocr_es_id: self.ocr_es_id,
            stream_priority: self.stream_priority,
            dec_config: self.dec_config@,
            sl_config: self.sl_config,
        }
    }
}

impl EsDescriptor {
    /// The tag of this descriptor.
    pub fn tag() -> (r: u8)
        ensures
            r == 3,
    {
        3
    }
}

/// A descriptor of an elementary stream: one of the kinds above, or another kind kept as
/// its tag and body.
#[derive(Debug, Clone, PartialEq, Eq)]
pub enum Descriptor {
    EsDescriptor(EsDescriptor),
    DecoderConfig(DecoderConfig),
    DecoderSpecific(DecoderSpecific),
    SLConfig(SLConfig),
    Unknown(u8, Vec<u8>),
}

/// The value of a descriptor.
pub enum DescriptorV {
    EsDescriptor(EsDescriptorV),
    DecoderConfig(DecoderConfigV),
    DecoderSpecific(DecoderSpecific),
    SLConfig(SLConfig),
    Unknown(u8, Seq<u8>),
}

impl View for Descriptor {
    type V = DescriptorV;

    open spec fn view(&self) -> DescriptorV {
        match *self {
            Descriptor::EsDescriptor(d) => DescriptorV::EsDescriptor(d@),
            Descriptor::DecoderConfig(d) => DescriptorV::DecoderConfig(d@),
            Descriptor::DecoderSpecific(d) => DescriptorV::DecoderSpecific(d),
            Descriptor::SLConfig(d) => DescriptorV::SLConfig(d),
            Descriptor::Unknown(t, b) => DescriptorV::Unknown(t, b@),
        }
    }
}

/// The tag of a descriptor.
pub open spec fn descriptor_tag(d: DescriptorV) -> u8 {
    match d {
        DescriptorV::EsDescriptor(_) => 3,
        DescriptorV::DecoderConfig(_) => 4,
        DescriptorV::DecoderSpecific(_) => 5,
        DescriptorV::SLConfig(_) => 6,
        DescriptorV::Unknown(t, _) => t,
    }
}

impl Descriptor {
    /// The tag of this descriptor.
    pub fn tag(&self) -> (r: u8)
        ensures
            r == descriptor_tag(self@),
    {
        match self {
            Descriptor::EsDescriptor(_) => 3,
            Descriptor::DecoderConfig(_) => 4,
            Descriptor::DecoderSpecific(_) => 5,
            Descriptor::SLConfig(_) => 6,
            Descriptor::Unknown(t, _) => *t,
        }
    }
}

// ---------------------------------------------------------------------------
// What decoding descriptors gives
// ---------------------------------------------------------------------------

/// What decoding the body `b` of a descriptor with tag `tag` gives. The body of a known kind
/// must be used up: what is left is `ShortRead`.
pub open spec fn spec_desc_body(tag: u8, b: Seq<u8>) -> Result<DescriptorV, Error>
    decreases b.len(), 2int,
{
    if tag == 3 {
        match spec_es_body(b) {
            Err(e) => Err(e),
            Ok(v) => Ok(DescriptorV::EsDescriptor(v)),
        }
    } else if tag == 4 {
        match spec_config_body(b) {
            Err(e) => Err(e),
            Ok(v) => Ok(DescriptorV::DecoderConfig(v)),
        }
    } else if tag == 5 {
        match spec_decode_specific(b) {
            Err(e) => Err(e),
            Ok((v, _)) => Ok(DescriptorV::DecoderSpecific(v)),
        }
    } else if tag == 6 {
        if b.len() < 1 {
            Err(Error::OutOfBounds)
        } else if b.len() > 1 {
            Err(Error::ShortRead)
        } else {
            Ok(DescriptorV::SLConfig(SLConfig {  }))
        }
    } else {
        Ok(DescriptorV::Unknown(tag, b))
    }
}

/// What decoding the descriptor at the front of `s` gives, and the bytes it took.
pub open spec fn spec_descriptor(s: Seq<u8>) -> Result<(DescriptorV, int), Error> {
    match spec_frame(s) {
        Err(e) => Err(e),
        Ok((tag, h, n)) => match spec_desc_body(tag, s.subrange(h, h + n)) {
            Err(e) => Err(e),
            Ok(d) => Ok((d, h + n)),
        },
    }
}

/// What one more descriptor inside an elementary stream descriptor makes of what was
/// found: a decoder configuration and a sync layer configuration replace earlier ones, other
/// kinds are skipped, and the remaining known kinds are `UnexpectedDescriptor`.
pub open spec fn es_absorb(d: DescriptorV, tag: u8, cfg: Option<DecoderConfigV>, sl: bool) -> Result<
    (Option<DecoderConfigV>, bool),
    Error,
> {
    match d {
        DescriptorV::DecoderConfig(c) => Ok((Some(c), sl)),
        DescriptorV::SLConfig(_) => Ok((cfg, true)),
        DescriptorV::Unknown(_, _) => Ok((cfg, sl)),
        _ => Err(Error::UnexpectedDescriptor(tag)),
    }
}

/// What the descriptors inside an elementary stream descriptor give, from what was found.
pub open spec fn spec_es_scan(t: Seq<u8>, cfg: Option<DecoderConfigV>, sl: bool) -> Result<
    (Option<DecoderConfigV>, bool),
    Error,
>
    decreases t.len(), 0int,
{
    if t.len() == 0 {
        Ok((cfg, sl))
    } else {
        match spec_frame(t) {
            Err(e) => Err(e),
            Ok((tag, h, n)) => match spec_desc_body(tag, t.subrange(h, h + n)) {
                Err(e) => Err(e),
                Ok(d) => match es_absorb(d, tag, cfg, sl) {
                    Err(e) => Err(e),
                    Ok((c2, s2)) => spec_es_scan(t.subrange(h + n, t.len() as int), c2, s2),
                },
            },
        }
    }
}

/// An optional 16-bit field at `p`, present or not.
pub open spec fn spec_opt_u16(b: Seq<u8>, p: int, present: bool) -> Result<(Option<u16>, int), Error> {
    if !present {
        Ok((None, p))
    } else if p + 2 > b.len() {
        Err(Error::OutOfBounds)
    } else {
        Ok((Some(be16_at(b, p)), p + 2))
    }
}

/// An optional URL at `p`: a length byte, then that many bytes.
pub open spec fn spec_opt_url(b: Seq<u8>, p: int, present: bool) -> Result<(Option<Seq<u8>>, int), Error> {
    if !present {
        Ok((None, p))
    } else if p + 1 > b.len() {
        Err(Error::OutOfBounds)
    } else if p + 1 + b[p] > b.len() {
        Err(Error::OutOfBounds)
    } else {
        Ok((Some(b.subrange(p + 1, p + 1 + b[p])), p + 1 + b[p]))
    }
}

/// The fields at the front of an elementary stream descriptor: the id, a flag byte (bit 7:
/// a dependency, bit 6: a URL, bit 5: a clock reference stream; five bits of priority),
/// then the fields the flags announce; and the offset after them.
pub open spec fn spec_es_head(b: Seq<u8>) -> Result<
    (u16, Option<u16>, Option<Seq<u8>>, Option<u16>, u8, int),
    Error,
> {
    if b.len() < 3 {
        Err(Error::OutOfBounds)
    } else {
        let flags = b[2];
        match spec_opt_u16(b, 3, flags >= 128) {
            Err(e) => Err(e),
            Ok((dep, p1)) => match spec_opt_url(b, p1, (flags / 64) % 2 == 1) {
                Err(e) => Err(e),
                Ok((url, p2)) => match spec_opt_u16(b, p2, (flags / 32) % 2 == 1) {
                    Err(e) => Err(e),
                    Ok((ocr, p3)) => Ok((be16_at(b, 0), dep, url, ocr, flags % 32, p3)),
                },
            },
        }
    }
}

/// The elementary stream descriptor made of its head fields and what its descriptors gave;
/// a missing decoder or sync layer configuration is `MissingDescriptor`.
pub open spec fn es_finish(
    r: Result<(Option<DecoderConfigV>, bool), Error>,
    es_id: u16,
    dep: Option<u16>,
    url: Option<Seq<u8>>,
    ocr: Option<u16>,
    prio: u8,
) -> Result<EsDescriptorV, Error> {
    match r {
        Err(e) => Err(e),
        Ok((cfg, sl)) => match cfg {
            None => Err(Error::MissingDescriptor(4)),
            Some(c) => if !sl {
                Err(Error::MissingDescriptor(6))
            } else {
                Ok(
                    EsDescriptorV {
                        es_id,
                        depends_on_es_id: dep,
                        url,
                        ocr_es_id: ocr,
                        stream_priority: prio,
                        dec_config: c,
                        sl_config: SLConfig {  },
                    },
                )
            },
        },
    }
}

/// What decoding the body of an elementary stream descriptor gives.
pub open spec fn spec_es_body(b: Seq<u8>) -> Result<EsDescriptorV, Error>
    decreases b.len(), 1int,
{
    match spec_es_head(b) {
        Err(e) => Err(e),
        Ok((es_id, dep, url, ocr, prio, p)) => if p < 3 || p > b.len() {
            Err(Error::OutOfBounds)
        } else {
            es_finish(spec_es_scan(b.subrange(p, b.len() as int), None, false), es_id, dep, url, ocr, prio)
        },
    }
}

/// What one more descriptor inside a decoder configuration makes of what was found:
/// decoder specific information replaces earlier information, other kinds are skipped, and
/// the remaining known kinds are `UnexpectedDescriptor`.
pub open spec fn config_absorb(d: DescriptorV, tag: u8, ds: Option<DecoderSpecific>) -> Result<
    Option<DecoderSpecific>,
    Error,
> {
    match d {
        DescriptorV::DecoderSpecific(x) => Ok(Some(x)),
        DescriptorV::Unknown(_, _) => Ok(ds),
        _ => Err(Error::UnexpectedDescriptor(tag)),
    }
}

/// What the descriptors inside a decoder configuration give, from what was found.
pub open spec fn spec_config_scan(t: Seq<u8>, ds: Option<DecoderSpecific>) -> Result<
    Option<DecoderSpecific>,
    Error,
>
    decreases t.len(), 0int,
{
    if t.len() == 0 {
        Ok(ds)
    } else {
        match spec_frame(t) {
            Err(e) => Err(e),
            Ok((tag, h, n)) => match spec_desc_body(tag, t.subrange(h, h + n)) {
                Err(e) => Err(e),
                Ok(d) => match config_absorb(d, tag, ds) {
                    Err(e) => Err(e),
                    Ok(x) => spec_config_scan(t.subrange(h + n, t.len() as int), x),
                },
            },
        }
    }
}

/// The decoder configuration made of its head and what its descriptors gave; missing
/// decoder specific information is `MissingDescriptor`.
pub open spec fn config_finish(r: Result<Option<DecoderSpecific>, Error>, b: Seq<u8>) -> Result<
    DecoderConfigV,
    Error,
> {
    match r {
        Err(e) => Err(e),
        Ok(ds) => match ds {
            None => Err(Error::MissingDescriptor(5)),
            Some(x) => Ok(
                DecoderConfigV {
                    object_type_indication: b[0],
                    stream_type: b[1] / 4,
                    up_stream: if (b[1] / 2) % 2 == 1 {
                        2
                    } else {
                        0
                    },
                    buffer_size_db: be24_at(b, 2),
                    max_bitrate: be32_at(b, 5),
                    avg_bitrate: be32_at(b, 9),
                    dec_specific: x,
                },
            ),
        },
    }
}

/// What decoding the body of a decoder configuration gives: the object type, a byte with
/// the stream type (top six bits) and the up-stream bit (bit 1), a 24-bit buffer size, the
/// two bit rates, then descriptors.
pub open spec fn spec_config_body(b: Seq<u8>) -> Result<DecoderConfigV, Error>
    decreases b.len(), 1int,
{
    if b.len() < 13 {
        Err(Error::OutOfBounds)
    } else {
        config_finish(spec_config_scan(b.subrange(13, b.len() as int), None), b)
    }
}

// ---------------------------------------------------------------------------
// Decoding descriptors
// ---------------------------------------------------------------------------

/// Decodes the body of a descriptor with tag `tag`.
fn decode_desc_body(tag: u8, b: &[u8]) -> (r: Result<Descriptor, Error>)
    ensures
        r matches Ok(d) ==> spec_desc_body(tag, b@) == Ok::<DescriptorV, Error>(d@),
        r matches Err(e) ==> spec_desc_body(tag, b@) == Err::<DescriptorV, Error>(e),
    decreases b@.len(), 2int,
{
    if tag == 3 {
        let v = decode_es_body(b)?;
        Ok(Descriptor::EsDescriptor(v))
    } else if tag == 4 {
        let v = decode_config_body(b)?;
        Ok(Descriptor::DecoderConfig(v))
    } else if tag == 5 {
        let (v, _) = DecoderSpecific::decode_prefix(b)?;
        Ok(Descriptor::DecoderSpecific(v))
    } else if tag == 6 {
        if b.len() < 1 {
            Err(Error::OutOfBounds)
        } else if b.len() > 1 {
            Err(Error::ShortRead)
        } else {
            Ok(Descriptor::SLConfig(SLConfig {  }))
        }
    } else {
        Ok(Descriptor::Unknown(tag, vstd::slice::slice_to_vec(b)))
    }
}

/// Decodes the body of an elementary stream descriptor.
#[verifier::rlimit(50)]
fn decode_es_body(b: &[u8]) -> (r: Result<EsDescriptor, Error>)
    ensures
        r matches Ok(v) ==> spec_es_body(b@) == Ok::<EsDescriptorV, Error>(v@),
        r matches Err(e) ==> spec_es_body(b@) == Err::<EsDescriptorV, Error>(e),
    decreases b@.len(), 1int,
{
    if b.len() < 3 {
        return Err(Error::OutOfBounds);
    }
    let es_id = read_u16(b, 0)?;
    let flags = read_u8(b, 2)?;
    let mut p: usize = 3;
    let depends_on_es_id = if flags >= 128 {
        let x = read_u16(b, p)?;
        p = p + 2;
        Some(x)
    } else {
        None
    };
    let url = if (flags / 64) % 2 == 1 {
        let n = read_u8(b, p)?;
        let data = read_bytes(b, p + 1, n as usize)?;
        p = p + 1 + n as usize;
        Some(data)
    } else {
        None
    };
    let ocr_es_id = if (flags / 32) % 2 == 1 {
        let x = read_u16(b, p)?;
        p = p + 2;
        Some(x)
    } else {
        None
    };
    let ghost s = b@;
    let ghost uv = opt_bytes(url);
    assert(spec_es_head(s) == Ok::<(u16, Option<u16>, Option<Seq<u8>>, Option<u16>, u8, int), Error>(
        (es_id, depends_on_es_id, uv, ocr_es_id, flags % 32, p as int),
    ));
    let rest = vstd::slice::slice_subrange(b, p, b.len());
    let (cfg, sl) = decode_es_scan(rest, None, false)?;
    match cfg {
        None => Err(Error::MissingDescriptor(4)),
        Some(c) => {
            if !sl {
                return Err(Error::MissingDescriptor(6));
            }
            Ok(
                EsDescriptor {
                    es_id,
                    depends_on_es_id,
                    url,
                    ocr_es_id,
                    stream_priority: flags % 32,
                    dec_config: c,
                    sl_config: SLConfig {  },
                },
            )
        },
    }
}

/// Reads the descriptors inside an elementary stream descriptor, from what was found.
fn decode_es_scan(t: &[u8], cfg: Option<DecoderConfig>, sl: bool) -> (r: Result<
    (Option<DecoderConfig>, bool),
    Error,
>)
    ensures
        r matches Ok((c, x)) ==> spec_es_scan(t@, opt_config(cfg), sl) == Ok::<
            (Option<DecoderConfigV>, bool),
            Error,
        >((opt_config(c), x)),
        r matches Err(e) ==> spec_es_scan(t@, opt_config(cfg), sl) == Err::<
            (Option<DecoderConfigV>, bool),
            Error,
        >(e),
    decreases t@.len(), 0int,
{
    if t.len() == 0 {
        return Ok((cfg, sl));
    }
    let (tag, h, n) = decode_frame(t)?;
    let body = vstd::slice::slice_subrange(t, h, h + n);
    let d = decode_desc_body(tag, body)?;
    let rest = vstd::slice::slice_subrange(t, h + n, t.len());
    match d {
        Descriptor::DecoderConfig(c) => decode_es_scan(rest, Some(c), sl),
        Descriptor::SLConfig(_) => decode_es_scan(rest, cfg, true),
        Descriptor::Unknown(_, _) => decode_es_scan(rest, cfg, sl),
        _ => Err(Error::UnexpectedDescriptor(tag)),
    }
}

/// Reads the descriptors inside a decoder configuration, from what was found.
fn decode_config_scan(t: &[u8], ds: Option<DecoderSpecific>) -> (r: Result<
    Option<DecoderSpecific>,
    Error,
>)
    ensures
        r matches Ok(x) ==> spec_config_scan(t@, ds) == Ok::<Option<DecoderSpecific>, Error>(x),
        r matches Err(e) ==> spec_config_scan(t@, ds) == Err::<Option<DecoderSpecific>, Error>(e),
    decreases t@.len(), 0int,
{
    if t.len() == 0 {
        return Ok(ds);
    }
    let (tag, h, n) = decode_frame(t)?;
    let body = vstd::slice::slice_subrange(t, h, h + n);
    let d = decode_desc_body(tag, body)?;
    let rest = vstd::slice::slice_subrange(t, h + n, t.len());
    match d {
        Descriptor::DecoderSpecific(x) => decode_config_scan(rest, Some(x)),
        Descriptor::Unknown(_, _) => decode_config_scan(rest, ds),
        _ => Err(Error::UnexpectedDescriptor(tag)),
    }
}

/// The value of optional bytes.
pub open spec fn opt_bytes(u: Option<Vec<u8>>) -> Option<Seq<u8>> {
    match u {
        Some(x) => Some(x@),
        None => None,
    }
}

/// The value of an optional decoder configuration.
pub open spec fn opt_config(c: Option<DecoderConfig>) -> Option<DecoderConfigV> {
    match c {
        Some(x) => Some(x@),
        None => None,
    }
}

/// Decodes the body of a decoder configuration descriptor.
#[verifier::rlimit(50)]
fn decode_config_body(b: &[u8]) -> (r: Result<DecoderConfig, Error>)
    ensures
        r matches Ok(v) ==> spec_config_body(b@) == Ok::<DecoderConfigV, Error>(v@),
        r matches Err(e) ==> spec_config_body(b@) == Err::<DecoderConfigV, Error>(e),
    decreases b@.len(), 1int,
{
    if b.len() < 13 {
        return Err(Error::OutOfBounds);
    }
    let object_type_indication = read_u8(b, 0)?;
    let a = read_u8(b, 1)?;
    let buffer = read_u24(b, 2)?;
    proof {
        crate::codec::lemma_be24_bound(b@, 2);
    }
    let max_bitrate = read_u32(b, 5)?;
    let avg_bitrate = read_u32(b, 9)?;
    let rest = vstd::slice::slice_subrange(b, 13, b.len());
    let ds = decode_config_scan(rest, None)?;
    match ds {
        None => Err(Error::MissingDescriptor(5)),
        Some(x) => Ok(
            DecoderConfig {
                object_type_indication,
                stream_type: a / 4,
                up_stream: if (a / 2) % 2 == 1 {
                    2
                } else {
                    0
                },
                buffer_size_db: u24::from_u32_low(buffer),
                max_bitrate,
                avg_bitrate,
                dec_specific: x,
            },
        ),
    }
}

// ---------------------------------------------------------------------------
// Encoding descriptors
// ---------------------------------------------------------------------------

/// The byte with the stream type (shifted up two bits, kept to eight bits), the up-stream
/// bit, and the reserved bit 0 set.
pub open spec fn config_byte(c: DecoderConfigV) -> u8 {
    ((c.stream_type as int * 4) % 256 + (if (c.up_stream / 2) % 2 == 1 {
        2int
    } else {
        0
    }) + 1) as u8
}

/// The bytes of the body of a decoder configuration.
pub open spec fn config_bytes(c: DecoderConfigV) -> Result<Seq<u8>, Error> {
    match DecoderSpecific::spec_encode(c.dec_specific) {
        Err(e) => Err(e),
        Ok(sb) => Ok(
            seq![c.object_type_indication, config_byte(c)] + be24(c.buffer_size_db) + be32(
                c.max_bitrate,
            ) + be32(c.avg_bitrate) + frame_bytes(5, sb),
        ),
    }
}

/// A decoder configuration comes back when its stream type fits in six bits and its
/// up-stream field is 0 or 2.
pub open spec fn config_keeps(c: DecoderConfigV) -> bool {
    &&& c.stream_type < 64
    &&& (c.up_stream == 0 || c.up_stream == 2)
    &&& c.buffer_size_db < 16777216
}

/// The flag byte of an elementary stream descriptor.
pub open spec fn es_flags(v: EsDescriptorV) -> u8 {
    ((if v.depends_on_es_id is Some {
        128int
    } else {
        0
    }) + (if v.url is Some {
        64int
    } else {
        0
    }) + (if v.ocr_es_id is Some {
        32int
    } else {
        0
    }) + v.stream_priority as int) as u8
}

/// The bytes of an optional 16-bit field.
pub open spec fn opt_u16_bytes(o: Option<u16>) -> Seq<u8> {
    match o {
        Some(x) => be16(x),
        None => Seq::empty(),
    }
}

/// The bytes of an optional URL: its length, then its bytes.
pub open spec fn opt_url_bytes(o: Option<Seq<u8>>) -> Seq<u8> {
    match o {
        Some(u) => seq![u.len() as u8] + u,
        None => Seq::empty(),
    }
}

/// The bytes of the body of an elementary stream descriptor. A priority over 31 or a URL
/// over 255 bytes is `InvalidSize`.
pub open spec fn es_bytes(v: EsDescriptorV) -> Result<Seq<u8>, Error> {
    if v.stream_priority > 31 {
        Err(Error::InvalidSize)
    } else if v.url matches Some(u) && u.len() > 255 {
        Err(Error::InvalidSize)
    } else {
        match config_bytes(v.dec_config) {
            Err(e) => Err(e),
            Ok(cb) => Ok(
                be16(v.es_id) + seq![es_flags(v)] + opt_u16_bytes(v.depends_on_es_id)
                    + opt_url_bytes(v.url) + opt_u16_bytes(v.ocr_es_id) + frame_bytes(4, cb)
                    + frame_bytes(6, seq![2u8]),
            ),
        }
    }
}

/// An elementary stream descriptor comes back when its decoder configuration does.
pub open spec fn es_keeps(v: EsDescriptorV) -> bool {
    config_keeps(v.dec_config)
}

/// The bytes of the body of a descriptor.
pub open spec fn desc_body_bytes(d: DescriptorV) -> Result<Seq<u8>, Error> {
    match d {
        DescriptorV::EsDescriptor(v) => es_bytes(v),
        DescriptorV::DecoderConfig(c) => config_bytes(c),
        DescriptorV::DecoderSpecific(x) => DecoderSpecific::spec_encode(x),
        DescriptorV::SLConfig(_) => Ok(seq![2u8]),
        DescriptorV::Unknown(_, data) => Ok(data),
    }
}

/// The bytes of a descriptor; a body over 0x0FFFFFFF bytes is `InvalidSize`.
pub open spec fn descriptor_bytes(d: DescriptorV) -> Result<Seq<u8>, Error> {
    match desc_body_bytes(d) {
        Err(e) => Err(e),
        Ok(b) => if b.len() > max_descriptor_body() {
            Err(Error::InvalidSize)
        } else {
            Ok(frame_bytes(descriptor_tag(d), b))
        },
    }
}

/// A descriptor comes back from its bytes: the known kinds as above, and another kind when
/// its tag is not one of theirs.
pub open spec fn descriptor_keeps(d: DescriptorV) -> bool {
    match d {
        DescriptorV::EsDescriptor(v) => es_keeps(v),
        DescriptorV::DecoderConfig(c) => config_keeps(c),
        DescriptorV::DecoderSpecific(_) => true,
        DescriptorV::SLConfig(_) => true,
        DescriptorV::Unknown(t, _) => t < 3 || t > 6,
    }
}

fn encode_config_body(c: &DecoderConfig, out: &mut Vec<u8>) -> (r: Result<(), Error>)
    ensures
        config_bytes(c@) matches Ok(b) ==> r is Ok && final(out)@ == old(out)@ + b,
        config_bytes(c@) matches Err(e) ==> r == Err::<(), Error>(e) && final(out)@ == old(out)@,
{
    let mut sb: Vec<u8> = Vec::new();
    c.dec_specific.encode(&mut sb)?;
    let ghost start = out@;
    put_u8(out, c.object_type_indication);
    let up: u8 = if (c.up_stream / 2) % 2 == 1 {
        2
    } else {
        0
    };
    put_u8(out, (((c.stream_type as u16 * 4) % 256) as u8) + up + 1);
    put_u24(out, c.buffer_size_db.to_u32());
    put_u32(out, c.max_bitrate);
    put_u32(out, c.avg_bitrate);
    let _ = put_frame(out, 5, sb.as_slice());
    assert(out@ =~= start + config_bytes(c@)->Ok_0);
    Ok(())
}

fn encode_es_body(v: &EsDescriptor, out: &mut Vec<u8>) -> (r: Result<(), Error>)
    ensures
        es_bytes(v@) matches Ok(b) ==> r is Ok && final(out)@ == old(out)@ + b,
        es_bytes(v@) matches Err(e) ==> r == Err::<(), Error>(e) && final(out)@ == old(out)@,
{
    if v.stream_priority > 31 {
        return Err(Error::InvalidSize);
    }
    match &v.url {
        Some(u) => {
            if u.len() > 255 {
                return Err(Error::InvalidSize);
            }
        },
        None => {},
    }
    let mut cb: Vec<u8> = Vec::new();
    encode_config_body(&v.dec_config, &mut cb)?;
    let ghost start = out@;
    put_u16(out, v.es_id);
    let f: u8 = (if v.depends_on_es_id.is_some() {
        128u8
    } else {
        0u8
    }) + (if v.url.is_some() {
        64u8
    } else {
        0u8
    }) + (if v.ocr_es_id.is_some() {
        32u8
    } else {
        0u8
    }) + v.stream_priority;
    put_u8(out, f);
    match v.depends_on_es_id {
        Some(x) => put_u16(out, x),
        None => {},
    }
    match &v.url {
        Some(u) => {
            put_u8(out, u.len() as u8);
            put_bytes(out, u.as_slice());
        },
        None => {},
    }
    match v.ocr_es_id {
        Some(x) => put_u16(out, x),
        None => {},
    }
    let _ = put_frame(out, 4, cb.as_slice());
    let two: [u8; 1] = [2u8];
    assert(two@ =~= seq![2u8]);
    let _ = put_frame(out, 6, two.as_slice());
    assert(out@ =~= start + es_bytes(v@)->Ok_0);
    Ok(())
}

impl Encode for DecoderConfig {
    open spec fn spec_encode(v: DecoderConfigV) -> Result<Seq<u8>, Error> {
        config_bytes(v)
    }

    fn encode(&self, out: &mut Vec<u8>) -> (r: Result<(), Error>) {
        encode_config_body(self, out)
    }
}

impl Encode for EsDescriptor {
    open spec fn spec_encode(v: EsDescriptorV) -> Result<Seq<u8>, Error> {
        es_bytes(v)
    }

    fn encode(&self, out: &mut Vec<u8>) -> (r: Result<(), Error>) {
        encode_es_body(self, out)
    }
}

impl Decode for DecoderConfig {
    /// The whole of `s` is the body.
    open spec fn spec_decode(s: Seq<u8>) -> Result<(DecoderConfigV, int), Error> {
        match spec_config_body(s) {
            Err(e) => Err(e),
            Ok(v) => Ok((v, s.len() as int)),
        }
    }

    fn decode_prefix(buf: &[u8]) -> (r: Result<(DecoderConfig, usize), Error>) {
        let v = decode_config_body(buf)?;
        Ok((v, buf.len()))
    }
}

impl Decode for EsDescriptor {
    /// The whole of `s` is the body.
    open spec fn spec_decode(s: Seq<u8>) -> Result<(EsDescriptorV, int), Error> {
        match spec_es_body(s) {
            Err(e) => Err(e),
            Ok(v) => Ok((v, s.len() as int)),
        }
    }

    fn decode_prefix(buf: &[u8]) -> (r: Result<(EsDescriptor, usize), Error>) {
        let v = decode_es_body(buf)?;
        Ok((v, buf.len()))
    }
}

impl Decode for Descriptor {
    open spec fn spec_decode(s: Seq<u8>) -> Result<(DescriptorV, int), Error> {
        spec_descriptor(s)
    }

    fn decode_prefix(buf: &[u8]) -> (r: Result<(Descriptor, usize), Error>) {
        let (tag, h, n) = decode_frame(buf)?;
        let body = vstd::slice::slice_subrange(buf, h, h + n);
        let d = decode_desc_body(tag, body)?;
        Ok((d, h + n))
    }
}

impl Encode for Descriptor {
    open spec fn spec_encode(d: DescriptorV) -> Result<Seq<u8>, Error> {
        descriptor_bytes(d)
    }

    fn encode(&self, out: &mut Vec<u8>) -> (r: Result<(), Error>) {
        let mut tmp: Vec<u8> = Vec::new();
        match self {
            Descriptor::EsDescriptor(v) => encode_es_body(v, &mut tmp)?,
            Descriptor::DecoderConfig(c) => encode_config_body(c, &mut tmp)?,
            Descriptor::DecoderSpecific(x) => x.encode(&mut tmp)?,
            Descriptor::SLConfig(_) => put_u8(&mut tmp, 2),
            Descriptor::Unknown(_, data) => put_bytes(&mut tmp, data.as_slice()),
        }
        assert(tmp@ =~= desc_body_bytes(self@)->Ok_0);
        put_frame(out, self.tag(), tmp.as_slice())
    }
}

// ---------------------------------------------------------------------------
// The way back
// ---------------------------------------------------------------------------

/// Decoder specific information alone inside a decoder configuration reads back.
proof fn lemma_config_scan_single(sb: Seq<u8>, x: DecoderSpecific)
    requires
        spec_decode_specific(sb) == Ok::<(DecoderSpecific, int), Error>((x, sb.len() as int)),
        sb.len() <= 6,
    ensures
        spec_config_scan(frame_bytes(5, sb), None) == Ok::<Option<DecoderSpecific>, Error>(Some(x)),
{
    let t = frame_bytes(5, sb);
    lemma_frame_roundtrip(5, sb, Seq::empty());
    assert(t + Seq::<u8>::empty() =~= t);
    let h: int = 1 + size_bytes(sb.len()).len() as int;
    assert(t.subrange(h, h + sb.len()) =~= sb);
    assert(spec_desc_body(5, sb) == Ok::<DescriptorV, Error>(DescriptorV::DecoderSpecific(x)));
    let rest = t.subrange(h + sb.len(), t.len() as int);
    assert(rest.len() == 0);
    assert(spec_config_scan(rest, Some(x)) == Ok::<Option<DecoderSpecific>, Error>(Some(x)));
    assert(spec_frame(t) == Ok::<(u8, int, int), Error>((5, h, sb.len() as int)));
}

/// The bytes of decoder specific information that can be written are at most six.
proof fn lemma_specific_len(x: DecoderSpecific)
    requires
        specific_writable(x),
    ensures
        DecoderSpecific::spec_encode(x)->Ok_0.len() <= 6,
{
    assert(specific_bits(x).len() <= 43);
}

/// The descriptors inside a decoder configuration read back the decoder specific
/// information they were written with.
#[verifier::spinoff_prover]
proof fn lemma_config_roundtrip(c: DecoderConfigV)
    requires
        config_keeps(c),
        config_bytes(c) is Ok,
    ensures
        spec_config_body(config_bytes(c)->Ok_0) == Ok::<DecoderConfigV, Error>(c),
{
    let sb = DecoderSpecific::spec_encode(c.dec_specific)->Ok_0;
    let b = config_bytes(c)->Ok_0;
    let rest = be24(c.buffer_size_db) + be32(c.max_bitrate) + be32(c.avg_bitrate);
    let head = seq![c.object_type_indication, config_byte(c)] + rest;
    let fr = frame_bytes(5, sb);
    assert(head.len() == 13);
    assert(b =~= head + fr);
    lemma_specific_roundtrip(c.dec_specific);
    lemma_specific_len(c.dec_specific);
    lemma_config_scan_single(sb, c.dec_specific);
    assert(b.subrange(13, b.len() as int) =~= fr);
    assert(b =~= seq![c.object_type_indication, config_byte(c)] + (rest + fr));
    lemma_at_shift(seq![c.object_type_indication, config_byte(c)], rest + fr, 0);
    lemma_at_shift(seq![c.object_type_indication, config_byte(c)], rest + fr, 3);
    lemma_at_shift(seq![c.object_type_indication, config_byte(c)], rest + fr, 7);
    assert(be24_at(b, 2) == c.buffer_size_db);
    assert(be32_at(b, 5) == c.max_bitrate);
    assert(be32_at(b, 9) == c.avg_bitrate);
    assert(b[1] == config_byte(c));
    assert(b[1] / 4 == c.stream_type);
}

/// Decoding the body of a decoder configuration reads the object type from byte 0, the
/// stream type from the top six bits of byte 1, the buffer size as the big-endian 24-bit
/// number at offset 2, then the maximum bit rate as the big-endian `u32` at offset 5 and the
/// average bit rate as the one at offset 9; the decoder specific information comes from the
/// descriptors that start at offset 13.
pub proof fn lemma_config_decode_layout(b: Seq<u8>)
    ensures
        spec_config_body(b) matches Ok(c) ==> {
            &&& b.len() >= 13
            &&& c.object_type_indication == b[0]
            &&& c.stream_type == b[1] / 4
            &&& c.up_stream == (if (b[1] / 2) % 2 == 1 {
                2u8
            } else {
                0u8
            })
            &&& c.buffer_size_db == be24_at(b, 2)
            &&& c.max_bitrate == be32_at(b, 5)
            &&& c.avg_bitrate == be32_at(b, 9)
            &&& spec_config_scan(b.subrange(13, b.len() as int), None) == Ok::<
                Option<DecoderSpecific>,
                Error,
            >(Some(c.dec_specific))
        },
{
}

/// Encoding a decoder configuration writes the object type as byte 0, the stream type and
/// up-stream byte as byte 1, the big-endian 24-bit buffer size at offset 2, the big-endian
/// maximum bit rate at offset 5, the big-endian average bit rate at offset 9, and the decoder
/// specific information as a descriptor with tag 5 from offset 13 on.
pub proof fn lemma_config_encode_layout(c: DecoderConfigV)
    ensures
        config_bytes(c) matches Ok(b) ==> {
            &&& b.len() >= 13
            &&& b[0] == c.object_type_indication
            &&& b[1] / 4 == c.stream_type % 64
            &&& (b[1] / 2) % 2 == (c.up_stream / 2) % 2
            &&& b[1] % 2 == 1
            &&& b.subrange(2, 5) == be24(c.buffer_size_db)
            &&& b.subrange(5, 9) == be32(c.max_bitrate)
            &&& b.subrange(9, 13) == be32(c.avg_bitrate)
            &&& b.subrange(13, b.len() as int) == frame_bytes(
                5,
                DecoderSpecific::spec_encode(c.dec_specific)->Ok_0,
            )
        },
{
    if let Ok(b) = config_bytes(c) {
        let sb = DecoderSpecific::spec_encode(c.dec_specific)->Ok_0;
        let x = c.stream_type as int;
        let y: int = if (c.up_stream / 2) % 2 == 1 {
            2
        } else {
            0
        };
        assert(b[1] == config_byte(c));
        assert(0 <= (x * 4) % 256 + y + 1 < 256 && ((x * 4) % 256 + y + 1) / 4 == x % 64 && ((
            (x * 4) % 256 + y + 1) / 2) % 2 == y / 2 && ((x * 4) % 256 + y + 1) % 2 == 1)
            by (nonlinear_arith)
            requires
                0 <= x < 256,
                y == 0 || y == 2,
        ;
        assert(b.subrange(2, 5) =~= be24(c.buffer_size_db));
        assert(b.subrange(5, 9) =~= be32(c.max_bitrate));
        assert(b.subrange(9, 13) =~= be32(c.avg_bitrate));
        assert(b.subrange(13, b.len() as int) =~= frame_bytes(5, sb));
    }
}

/// A sync layer configuration after a decoder configuration reads back.
proof fn lemma_es_scan_sl(c: DecoderConfigV)
    ensures
        spec_es_scan(frame_bytes(6, seq![2u8]), Some(c), false) == Ok::<
            (Option<DecoderConfigV>, bool),
            Error,
        >((Some(c), true)),
{
    let t = frame_bytes(6, seq![2u8]);
    lemma_frame_roundtrip(6, seq![2u8], Seq::empty());
    assert(t + Seq::<u8>::empty() =~= t);
    assert(t.subrange(2, 3) =~= seq![2u8]);
    assert(spec_desc_body(6, seq![2u8]) == Ok::<DescriptorV, Error>(DescriptorV::SLConfig(SLConfig {  })));
    let rest = t.subrange(3, t.len() as int);
    assert(rest.len() == 0);
    assert(spec_es_scan(rest, Some(c), true) == Ok::<(Option<DecoderConfigV>, bool), Error>(
        (Some(c), true),
    ));
    assert(spec_frame(t) == Ok::<(u8, int, int), Error>((6, 2, 1)));
}

/// A decoder configuration, then a sync layer configuration, read back.
proof fn lemma_es_scan_pair(cb: Seq<u8>, c: DecoderConfigV)
    requires
        spec_config_body(cb) == Ok::<DecoderConfigV, Error>(c),
        cb.len() <= max_descriptor_body(),
    ensures
        spec_es_scan(frame_bytes(4, cb) + frame_bytes(6, seq![2u8]), None, false) == Ok::<
            (Option<DecoderConfigV>, bool),
            Error,
        >((Some(c), true)),
{
    let f6 = frame_bytes(6, seq![2u8]);
    let t = frame_bytes(4, cb) + f6;
    lemma_frame_roundtrip(4, cb, f6);
    let h: int = 1 + size_bytes(cb.len()).len() as int;
    assert(t.subrange(h, h + cb.len()) =~= cb);
    assert(spec_desc_body(4, cb) == Ok::<DescriptorV, Error>(DescriptorV::DecoderConfig(c)));
    assert(t.subrange(h + cb.len(), t.len() as int) =~= f6);
    lemma_es_scan_sl(c);
}

/// The head of an elementary stream descriptor, whatever follows it, reads back its fields.
#[verifier::spinoff_prover]
#[verifier::rlimit(40)]
proof fn lemma_es_head_roundtrip(v: EsDescriptorV, tail: Seq<u8>)
    requires
        v.stream_priority <= 31,
        v.url matches Some(u) ==> u.len() <= 255,
    ensures
        ({
            let head = be16(v.es_id) + seq![es_flags(v)] + opt_u16_bytes(v.depends_on_es_id)
                + opt_url_bytes(v.url) + opt_u16_bytes(v.ocr_es_id);
            spec_es_head(head + tail) == Ok::<
                (u16, Option<u16>, Option<Seq<u8>>, Option<u16>, u8, int),
                Error,
            >(
                (
                    v.es_id,
                    v.depends_on_es_id,
                    v.url,
                    v.ocr_es_id,
                    v.stream_priority,
                    head.len() as int,
                ),
            )
        }),
{
    let d = opt_u16_bytes(v.depends_on_es_id);
    let u = opt_url_bytes(v.url);
    let o = opt_u16_bytes(v.ocr_es_id);
    let b0 = be16(v.es_id) + seq![es_flags(v)];
    let b = b0 + d + u + o + tail;
    let flags = es_flags(v);
    assert(b[2] == flags);
    assert(flags >= 128 <==> v.depends_on_es_id is Some);
    assert((flags / 64) % 2 == 1 <==> v.url is Some);
    assert((flags / 32) % 2 == 1 <==> v.ocr_es_id is Some);
    assert(flags % 32 == v.stream_priority);
    let p1: int = 3 + d.len() as int;
    if let Some(x) = v.depends_on_es_id {
        lemma_at_shift(b0, d + u + o + tail, 0);
        assert(b =~= b0 + (d + u + o + tail));
    }
    if let Some(url) = v.url {
        assert(b =~= (b0 + d) + (u + o + tail));
        assert(b[p1] == url.len());
        assert(b.subrange(p1 + 1, p1 + 1 + url.len()) =~= url);
    }
    if let Some(x) = v.ocr_es_id {
        lemma_at_shift(b0 + d + u, o + tail, 0);
        assert(b =~= (b0 + d + u) + (o + tail));
    }
    assert(be16_at(b, 0) == v.es_id) by {
        lemma_at_shift(Seq::<u8>::empty(), b, 0);
        assert(b =~= be16(v.es_id) + (seq![es_flags(v)] + d + u + o + tail));
        crate::codec::lemma_at_prefix(be16(v.es_id), seq![es_flags(v)] + d + u + o + tail, 0);
    }
}

/// The body of an elementary stream descriptor reads back what it was written from.
#[verifier::spinoff_prover]
proof fn lemma_es_roundtrip(v: EsDescriptorV)
    requires
        es_keeps(v),
        es_bytes(v) is Ok,
    ensures
        spec_es_body(es_bytes(v)->Ok_0) == Ok::<EsDescriptorV, Error>(v),
{
    let cb = config_bytes(v.dec_config)->Ok_0;
    let b = es_bytes(v)->Ok_0;
    let f4 = frame_bytes(4, cb);
    let f6 = frame_bytes(6, seq![2u8]);
    let head = be16(v.es_id) + seq![es_flags(v)] + opt_u16_bytes(v.depends_on_es_id)
        + opt_url_bytes(v.url) + opt_u16_bytes(v.ocr_es_id);
    assert(b =~= head + (f4 + f6));
    lemma_es_head_roundtrip(v, f4 + f6);
    lemma_config_roundtrip(v.dec_config);
    assert(cb.len() <= max_descriptor_body()) by {
        lemma_specific_len(v.dec_config.dec_specific);
        lemma_frame_roundtrip(5, DecoderSpecific::spec_encode(v.dec_config.dec_specific)->Ok_0, Seq::empty());
    }
    lemma_es_scan_pair(cb, v.dec_config);
    assert(b.subrange(head.len() as int, b.len() as int) =~= f4 + f6);
    assert(head.len() >= 3);
}

/// A kept descriptor reads back from its bytes, whatever follows them.
pub proof fn lemma_descriptor_roundtrip(d: DescriptorV, rest: Seq<u8>)
    requires
        descriptor_keeps(d),
        descriptor_bytes(d) is Ok,
    ensures
        spec_descriptor(descriptor_bytes(d)->Ok_0 + rest) == Ok::<(DescriptorV, int), Error>(
            (d, descriptor_bytes(d)->Ok_0.len() as int),
        ),
{
    let body = desc_body_bytes(d)->Ok_0;
    let tag = descriptor_tag(d);
    let s = frame_bytes(tag, body) + rest;
    lemma_frame_roundtrip(tag, body, rest);
    let h: int = 1 + size_bytes(body.len()).len() as int;
    assert(s.subrange(h as int, h + body.len()) =~= body);
    match d {
        DescriptorV::EsDescriptor(v) => {
            lemma_es_roundtrip(v);
        },
        DescriptorV::DecoderConfig(c) => {
            lemma_config_roundtrip(c);
        },
        DescriptorV::DecoderSpecific(x) => {
            lemma_specific_roundtrip(x);
        },
        DescriptorV::SLConfig(x) => {
        },
        DescriptorV::Unknown(t, data) => {
        },
    }
}

// ---------------------------------------------------------------------------
// Conversions into a descriptor
// ---------------------------------------------------------------------------

impl From<EsDescriptor> for Descriptor {
    fn from(v: EsDescriptor) -> (r: Descriptor) {
        Descriptor::EsDescriptor(v)
    }
}

impl FromSpecImpl<EsDescriptor> for Descriptor {
    open spec fn obeys_from_spec() -> bool {
        true
    }

    open spec fn from_spec(v: EsDescriptor) -> Descriptor {
        Descriptor::EsDescriptor(v)
    }
}

impl From<DecoderConfig> for Descriptor {
    fn from(v: DecoderConfig) -> (r: Descriptor) {
        Descriptor::DecoderConfig(v)
    }
}

impl FromSpecImpl<DecoderConfig> for Descriptor {
    open spec fn obeys_from_spec() -> bool {
        true
    }

    open spec fn from_spec(v: DecoderConfig) -> Descriptor {
        Descriptor::DecoderConfig(v)
    }
}

impl From<DecoderSpecific> for Descriptor {
    fn from(v: DecoderSpecific) -> (r: Descriptor) {
        Descriptor::DecoderSpecific(v)
    }
}

impl FromSpecImpl<DecoderSpecific> for Descriptor {
    open spec fn obeys_from_spec() -> bool {
        true
    }

    open spec fn from_spec(v: DecoderSpecific) -> Descriptor {
        Descriptor::DecoderSpecific(v)
    }
}

impl From<SLConfig> for Descriptor {
    fn from(v: SLConfig) -> (r: Descriptor) {
        Descriptor::SLConfig(v)
    }
}

impl FromSpecImpl<SLConfig> for Descriptor {
    open spec fn obeys_from_spec() -> bool {
        true
    }

    open spec fn from_spec(v: SLConfig) -> Descriptor {
        Descriptor::SLConfig(v)
    }
}

// ---------------------------------------------------------------------------
// Elementary stream descriptor box
// ---------------------------------------------------------------------------

/// Elementary stream descriptor box (`esds`): an elementary stream descriptor.
#[derive(Debug, Clone, PartialEq, Eq, Default)]
pub struct Esds {
    pub es_desc: EsDescriptor,
}

impl View for Esds {
    type V = EsDescriptorV;

    open spec fn view(&self) -> EsDescriptorV {
        self.es_desc@
    }
}

/// What the descriptors of an `esds` give, from what was found: an elementary stream
/// descriptor replaces an earlier one, other kinds are skipped, and the remaining known
/// kinds are `UnexpectedDescriptor`.
pub open spec fn spec_esds_scan(t: Seq<u8>, acc: Option<EsDescriptorV>) -> Result<
    Option<EsDescriptorV>,
    Error,
>
    decreases t.len(),
{
    if t.len() == 0 {
        Ok(acc)
    } else {
        match spec_frame(t) {
            Err(e) => Err(e),
            Ok((tag, h, n)) => match spec_desc_body(tag, t.subrange(h, h + n)) {
                Err(e) => Err(e),
                Ok(d) => match d {
                    DescriptorV::EsDescriptor(v) => spec_esds_scan(
                        t.subrange(h + n, t.len() as int),
                        Some(v),
                    ),
                    DescriptorV::Unknown(_, _) => spec_esds_scan(
                        t.subrange(h + n, t.len() as int),
                        acc,
                    ),
                    _ => Err(Error::UnexpectedDescriptor(tag)),
                },
            },
        }
    }
}

/// Reads the descriptors of an `esds`, from what was found.
fn decode_esds_scan(t: &[u8], acc: Option<EsDescriptor>) -> (r: Result<Option<EsDescriptor>, Error>)
    ensures
        r matches Ok(x) ==> spec_esds_scan(t@, opt_es(acc)) == Ok::<Option<EsDescriptorV>, Error>(
            opt_es(x),
        ),
        r matches Err(e) ==> spec_esds_scan(t@, opt_es(acc)) == Err::<Option<EsDescriptorV>, Error>(
            e,
        ),
    decreases t@.len(),
{
    if t.len() == 0 {
        return Ok(acc);
    }
    let (tag, h, n) = decode_frame(t)?;
    let body = vstd::slice::slice_subrange(t, h, h + n);
    let d = decode_desc_body(tag, body)?;
    let rest = vstd::slice::slice_subrange(t, h + n, t.len());
    match d {
        Descriptor::EsDescriptor(v) => decode_esds_scan(rest, Some(v)),
        Descriptor::Unknown(_, _) => decode_esds_scan(rest, acc),
        _ => Err(Error::UnexpectedDescriptor(tag)),
    }
}

/// The value of an optional elementary stream descriptor.
pub open spec fn opt_es(o: Option<EsDescriptor>) -> Option<EsDescriptorV> {
    match o {
        Some(x) => Some(x@),
        None => None,
    }
}

impl Atom for Esds {
    open spec fn spec_kind() -> u32 {
        0x65736473
    }

    fn kind() -> (k: FourCC) {
        FourCC::from_u32(0x65736473)
    }

    /// Version and flags (ignored), then descriptors until the body ends; a missing
    /// elementary stream descriptor is `MissingDescriptor`.
    open spec fn spec_decode_body(s: Seq<u8>) -> Result<(EsDescriptorV, int), Error> {
        if s.len() < 4 {
            Err(Error::OutOfBounds)
        } else {
            match spec_esds_scan(bytes_from(s, 4), None) {
                Err(e) => Err(e),
                Ok(acc) => match acc {
                    None => Err(Error::MissingDescriptor(3)),
                    Some(v) => Ok((v, s.len() as int)),
                },
            }
        }
    }

    /// Version and flags 0, then the elementary stream descriptor.
    open spec fn spec_encode_body(v: EsDescriptorV) -> Result<Seq<u8>, Error> {
        match descriptor_bytes(DescriptorV::EsDescriptor(v)) {
            Err(e) => Err(e),
            Ok(d) => Ok(be32(0) + d),
        }
    }

    open spec fn spec_keeps(v: EsDescriptorV) -> bool {
        es_keeps(v)
    }

    fn decode_body(buf: &[u8]) -> (r: Result<(Self, usize), Error>) {
        let _ext = read_u32(buf, 0)?;
        let rest = vstd::slice::slice_subrange(buf, 4, buf.len());
        assert(rest@ =~= bytes_from(buf@, 4));
        match decode_esds_scan(rest, None)? {
            None => Err(Error::MissingDescriptor(3)),
            Some(es_desc) => Ok((Esds { es_desc }, buf.len())),
        }
    }

    fn encode_body(&self, out: &mut Vec<u8>) -> (r: Result<(), Error>) {
        let mut body: Vec<u8> = Vec::new();
        encode_es_body(&self.es_desc, &mut body)?;
        let mut tmp: Vec<u8> = Vec::new();
        put_frame(&mut tmp, 3, body.as_slice())?;
        put_u32(out, 0);
        put_bytes(out, tmp.as_slice());
        assert(out@ =~= old(out)@ + (be32(0) + tmp@));
        Ok(())
    }

    proof fn lemma_body_roundtrip(v: EsDescriptorV) {
        let d = DescriptorV::EsDescriptor(v);
        let db = descriptor_bytes(d)->Ok_0;
        let b = be32(0) + db;
        lemma_descriptor_roundtrip(d, Seq::empty());
        assert(db + Seq::<u8>::empty() =~= db);
        let t = bytes_from(b, 4);
        assert(t =~= db);
        let body = desc_body_bytes(d)->Ok_0;
        lemma_frame_roundtrip(3, body, Seq::empty());
        let h: int = 1 + size_bytes(body.len()).len() as int;
        assert(t.subrange(h, h + body.len()) =~= body);
        lemma_es_roundtrip(v);
        let rest = t.subrange(h + body.len(), t.len() as int);
        assert(rest.len() == 0);
        assert(spec_esds_scan(rest, Some(v)) == Ok::<Option<EsDescriptorV>, Error>(Some(v)));
    }
}

} // verus!
