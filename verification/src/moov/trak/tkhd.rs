use vstd::prelude::*;

use crate::atom::Atom;
use crate::codec::{
    be16, be16_at, be32, be32_at, be64, be64_at, group_codec, i32_bits, i32_of, lemma_i32, put_i32,
    put_u16, put_u32, put_u64, read_i32, read_u16, read_u32, read_u64,
};
use crate::error::Error;
use crate::ext::{ext_flags, ext_version, ext_word, put_ext, read_ext};
use crate::fourcc::FourCC;
use crate::types::{fixed16_bytes, fixed8_bytes, put_fixed16, put_fixed8, read_fixed16, read_fixed8, FixedPoint};

verus! {

broadcast use group_codec, FixedPoint::lemma_spec_new, FixedPoint::lemma_view_eq;

/// Track header box (`tkhd`).
#[derive(Debug, Clone, Copy, PartialEq, Eq, Default)]
pub struct Tkhd {
    pub creation_time: u64,
    pub modification_time: u64,
    pub track_id: u32,
    pub duration: u64,
    pub layer: u16,
    pub alternate_group: u16,
    pub enabled: bool,
    pub volume: FixedPoint<u8>,
    pub matrix: Matrix,
    pub width: FixedPoint<u16>,
    pub height: FixedPoint<u16>,
}

/// The transformation matrix of a track, nine fixed-point numbers.
#[derive(Debug, Clone, Copy, PartialEq, Eq)]
pub struct Matrix {
    pub a: i32,
    pub b: i32,
    pub u: i32,
    pub c: i32,
    pub d: i32,
    pub v: i32,
    pub x: i32,
    pub y: i32,
    pub w: i32,
}

impl Default for Matrix {
    /// The unity matrix of ISO/IEC 14496-12.
    fn default() -> (r: Self)
        ensures
            r == (Matrix { a: 0x00010000, b: 0, u: 0, c: 0, d: 0x00010000, v: 0, x: 0, y: 0, w: 0x40000000 }),
    {
        Matrix { a: 0x00010000, b: 0, u: 0, c: 0, d: 0x00010000, v: 0, x: 0, y: 0, w: 0x40000000 }
    }
}

/// The matrix whose nine numbers start at offset `i`.
pub open spec fn matrix_at(s: Seq<u8>, i: int) -> Matrix {
    Matrix {
        a: i32_of(be32_at(s, i)),
        b: i32_of(be32_at(s, i + 4)),
        u: i32_of(be32_at(s, i + 8)),
        c: i32_of(be32_at(s, i + 12)),
        d: i32_of(be32_at(s, i + 16)),
        v: i32_of(be32_at(s, i + 20)),
        x: i32_of(be32_at(s, i + 24)),
        y: i32_of(be32_at(s, i + 28)),
        w: i32_of(be32_at(s, i + 32)),
    }
}

/// The 36 bytes of a matrix.
pub open spec fn matrix_bytes(m: Matrix) -> Seq<u8> {
    be32(i32_bits(m.a)) + be32(i32_bits(m.b)) + be32(i32_bits(m.u)) + be32(i32_bits(m.c)) + be32(
        i32_bits(m.d),
    ) + be32(i32_bits(m.v)) + be32(i32_bits(m.x)) + be32(i32_bits(m.y)) + be32(i32_bits(m.w))
}

impl Matrix {
    /// Reads a matrix at `pos`.
    pub fn decode_at(buf: &[u8], pos: usize) -> (r: Result<Matrix, Error>)
        ensures
            pos + 36 <= buf@.len() ==> r == Ok::<Matrix, Error>(matrix_at(buf@, pos as int)),
            pos + 36 > buf@.len() ==> r == Err::<Matrix, Error>(Error::OutOfBounds),
    {
        if pos > buf.len() || buf.len() - pos < 36 {
            return Err(Error::OutOfBounds);
        }
        Ok(Matrix {
            a: read_i32(buf, pos)?,
            b: read_i32(buf, pos + 4)?,
            u: read_i32(buf, pos + 8)?,
            c: read_i32(buf, pos + 12)?,
            d: read_i32(buf, pos + 16)?,
            v: read_i32(buf, pos + 20)?,
            x: read_i32(buf, pos + 24)?,
            y: read_i32(buf, pos + 28)?,
            w: read_i32(buf, pos + 32)?,
        })
    }

    /// Appends the 36 bytes of this matrix.
    pub fn encode(&self, out: &mut Vec<u8>)
        ensures
            final(out)@ == old(out)@ + matrix_bytes(*self),
    {
        put_i32(out, self.a);
        put_i32(out, self.b);
        put_i32(out, self.u);
        put_i32(out, self.c);
        put_i32(out, self.d);
        put_i32(out, self.v);
        put_i32(out, self.x);
        put_i32(out, self.y);
        put_i32(out, self.w);
        assert(out@ =~= old(out)@ + matrix_bytes(*self));
    }

    /// A matrix reads back from its bytes.
    pub proof fn lemma_roundtrip(m: Matrix)
        ensures
            matrix_bytes(m).len() == 36,
            matrix_at(matrix_bytes(m), 0) == m,
    {
        lemma_i32(m.a);
        lemma_i32(m.b);
        lemma_i32(m.u);
        lemma_i32(m.c);
        lemma_i32(m.d);
        lemma_i32(m.v);
        lemma_i32(m.x);
        lemma_i32(m.y);
        lemma_i32(m.w);
        let s = matrix_bytes(m);
        let p8 = be32(i32_bits(m.a)) + be32(i32_bits(m.b)) + be32(i32_bits(m.u)) + be32(i32_bits(m.c)) + be32(
            i32_bits(m.d),
        ) + be32(i32_bits(m.v)) + be32(i32_bits(m.x)) + be32(i32_bits(m.y));
        assert(p8.len() == 32);
        assert(be32_at(s, 32) == i32_bits(m.w));
        assert(be32_at(s, 28) == be32_at(p8, 28));
    }
}

impl View for Tkhd {
    type V = Tkhd;

    open spec fn view(&self) -> Tkhd {
        *self
    }
}

/// The 60 bytes that follow the times, track and duration.
pub open spec fn tkhd_tail_bytes(v: Tkhd) -> Seq<u8> {
    be64(0) + be16(v.layer) + be16(v.alternate_group) + fixed8_bytes(v.volume@) + be16(0)
        + matrix_bytes(v.matrix) + fixed16_bytes(v.width@) + fixed16_bytes(v.height@)
}

/// The fields read from the 60 bytes `t` that follow the times, track and duration.
pub open spec fn tkhd_rest(
    t: Seq<u8>,
    creation_time: u64,
    modification_time: u64,
    track_id: u32,
    duration: u64,
    enabled: bool,
) -> Tkhd {
    Tkhd {
        creation_time,
        modification_time,
        track_id,
        duration,
        layer: be16_at(t, 8),
        alternate_group: be16_at(t, 10),
        enabled,
        volume: FixedPoint::spec_new(t[12], t[13]),
        matrix: matrix_at(t.subrange(16, 52), 0),
        width: FixedPoint::spec_new(be16_at(t, 52), be16_at(t, 54)),
        height: FixedPoint::spec_new(be16_at(t, 56), be16_at(t, 58)),
    }
}

impl Atom for Tkhd {
    open spec fn spec_kind() -> u32 {
        0x746b6864
    }

    fn kind() -> (k: FourCC) {
        FourCC::from_u32(0x746b6864)
    }

    /// Version 1 has 64-bit times and duration, version 0 has 32-bit ones; other versions are
    /// unknown. `enabled` is flag bit 0.
    open spec fn spec_decode_body(s: Seq<u8>) -> Result<(Tkhd, int), Error> {
        if s.len() < 4 {
            Err(Error::OutOfBounds)
        } else {
            let version = ext_version(be32_at(s, 0));
            let enabled = ext_flags(be32_at(s, 0)) % 2 == 1;
            if version == 1 {
                if s.len() < 96 {
                    Err(Error::OutOfBounds)
                } else {
                    Ok(
                        (
                            tkhd_rest(
                                s.subrange(36, 96),
                                be64_at(s, 4),
                                be64_at(s, 12),
                                be32_at(s, 20),
                                be64_at(s, 28),
                                enabled,
                            ),
                            96,
                        ),
                    )
                }
            } else if version == 0 {
                if s.len() < 84 {
                    Err(Error::OutOfBounds)
                } else {
                    Ok(
                        (
                            tkhd_rest(
                                s.subrange(24, 84),
                                be32_at(s, 4) as u64,
                                be32_at(s, 8) as u64,
                                be32_at(s, 12),
                                be32_at(s, 20) as u64,
                                enabled,
                            ),
                            84,
                        ),
                    )
                }
            } else {
                Err(Error::UnknownVersion(version))
            }
        }
    }

    /// Always version 1, with flag bit 0 set when the track is enabled.
    open spec fn spec_encode_body(v: Tkhd) -> Result<Seq<u8>, Error> {
        Ok(be32(ext_word(1, if v.enabled { 1 } else { 0 })) + be64(v.creation_time) + be64(
            v.modification_time,
        ) + be32(v.track_id) + be32(0) + be64(v.duration) + tkhd_tail_bytes(v))
    }

    open spec fn spec_keeps(v: Tkhd) -> bool {
        true
    }

    fn decode_body(buf: &[u8]) -> (r: Result<(Self, usize), Error>) {
        let (version, flags) = read_ext(buf, 0)?;
        let enabled = flags % 2 == 1;
        let (creation_time, modification_time, track_id, duration, i, end) = if version == 1 {
            if buf.len() < 96 {
                return Err(Error::OutOfBounds);
            }
            (read_u64(buf, 4)?, read_u64(buf, 12)?, read_u32(buf, 20)?, read_u64(buf, 28)?, 36, 96)
        } else if version == 0 {
            if buf.len() < 84 {
                return Err(Error::OutOfBounds);
            }
            (
                read_u32(buf, 4)? as u64,
                read_u32(buf, 8)? as u64,
                read_u32(buf, 12)?,
                read_u32(buf, 20)? as u64,
                24,
                84,
            )
        } else {
            return Err(Error::UnknownVersion(version));
        };
        let t = vstd::slice::slice_subrange(buf, i, i + 60);
        let layer = read_u16(t, 8)?;
        let alternate_group = read_u16(t, 10)?;
        let volume = read_fixed8(t, 12)?;
        let m = vstd::slice::slice_subrange(t, 16, 52);
        let matrix = Matrix::decode_at(m, 0)?;
        let width = read_fixed16(t, 52)?;
        let height = read_fixed16(t, 56)?;
        Ok(
            (
                Tkhd {
                    creation_time,
                    modification_time,
                    track_id,
                    duration,
                    layer,
                    alternate_group,
                    enabled,
                    volume,
                    matrix,
                    width,
                    height,
                },
                end,
            ),
        )
    }

    fn encode_body(&self, out: &mut Vec<u8>) -> (r: Result<(), Error>) {
        put_ext(
            out,
            1,
            if self.enabled {
                1
            } else {
                0
            },
        );
        put_u64(out, self.creation_time);
        put_u64(out, self.modification_time);
        put_u32(out, self.track_id);
        put_u32(out, 0);
        put_u64(out, self.duration);
        let ghost mid = out@;
        put_u64(out, 0);
        put_u16(out, self.layer);
        put_u16(out, self.alternate_group);
        put_fixed8(out, &self.volume);
        put_u16(out, 0);
        self.matrix.encode(out);
        put_fixed16(out, &self.width);
        put_fixed16(out, &self.height);
        assert(out@ =~= mid + tkhd_tail_bytes(*self));
        Ok(())
    }

    #[verifier::rlimit(40)]
    proof fn lemma_body_roundtrip(v: Tkhd) {
        let b = Self::spec_encode_body(v)->Ok_0;
        let head = be32(ext_word(1, if v.enabled { 1 } else { 0 })) + be64(v.creation_time) + be64(
            v.modification_time,
        ) + be32(v.track_id) + be32(0) + be64(v.duration);
        let t = tkhd_tail_bytes(v);
        lemma_tail(v);
        assert(head.len() == 36);
        assert(b == head + t);
        assert(b.subrange(36, 96) =~= t);
        assert(be64_at(b, 28) == v.duration);
        assert(be32_at(b, 20) == v.track_id);
        assert(be64_at(b, 12) == v.modification_time);
        assert(be64_at(b, 4) == v.creation_time);
        let d = Self::spec_decode_body(b)->Ok_0.0;
        assert(d.volume@ == v.volume@);
        assert(d.width@ == v.width@);
        assert(d.height@ == v.height@);
    }
}

/// The fields after the times read back from their 60 bytes.
#[verifier::rlimit(40)]
pub proof fn lemma_tail(v: Tkhd)
    ensures
        tkhd_tail_bytes(v).len() == 60,
        tkhd_rest(tkhd_tail_bytes(v), v.creation_time, v.modification_time, v.track_id, v.duration, v.enabled) == v,
{
    let t = tkhd_tail_bytes(v);
    Matrix::lemma_roundtrip(v.matrix);
    assert(t.subrange(16, 52) =~= matrix_bytes(v.matrix));
    let d = tkhd_rest(t, v.creation_time, v.modification_time, v.track_id, v.duration, v.enabled);
    assert(d.volume@ == v.volume@);
    assert(d.width@ == v.width@);
    assert(d.height@ == v.height@);
}

/// The layout of a `tkhd` body, read: version and flags in the first four bytes (`enabled`
/// is flag bit 0); with version 1 the creation and modification times as big-endian `u64` at
/// offsets 4 and 12, the track id as the big-endian `u32` at 20 and the duration as the
/// big-endian `u64` at 28; with version 0 the same as big-endian `u32` at 4, 8, 12 and 20.
/// The last 60 bytes then hold the layer and the alternate group as big-endian `u16` 52 and
/// 50 bytes before the end, the volume as 8.8 fixed point 48 bytes before it, the matrix 44
/// bytes before it, and last the width and the height as 16.16 fixed-point numbers 8 and 4
/// bytes before the end.
pub proof fn lemma_tkhd_decode_layout(s: Seq<u8>)
    ensures
        Tkhd::spec_decode_body(s) matches Ok((v, n)) ==> {
            &&& 60 <= n <= s.len()
            &&& v.enabled == (ext_flags(be32_at(s, 0)) % 2 == 1)
            &&& ext_version(be32_at(s, 0)) == 1 ==> {
                &&& n == 96
                &&& v.creation_time == be64_at(s, 4)
                &&& v.modification_time == be64_at(s, 12)
                &&& v.track_id == be32_at(s, 20)
                &&& v.duration == be64_at(s, 28)
            }
            &&& ext_version(be32_at(s, 0)) == 0 ==> {
                &&& n == 84
                &&& v.creation_time == be32_at(s, 4)
                &&& v.modification_time == be32_at(s, 8)
                &&& v.track_id == be32_at(s, 12)
                &&& v.duration == be32_at(s, 20)
            }
            &&& ext_version(be32_at(s, 0)) == 0 || ext_version(be32_at(s, 0)) == 1
            &&& v.layer == be16_at(s, n - 52)
            &&& v.alternate_group == be16_at(s, n - 50)
            &&& v.volume@ == (s[n - 48], s[n - 47])
            &&& v.matrix == matrix_at(s, n - 44)
            &&& v.width@ == (be16_at(s, n - 8), be16_at(s, n - 6))
            &&& v.height@ == (be16_at(s, n - 4), be16_at(s, n - 2))
        },
{
    if let Ok((v, n)) = Tkhd::spec_decode_body(s) {
        let i: int = n - 60;
        let t = s.subrange(i, n);
        crate::codec::lemma_read_in(s, i, t, 8);
        crate::codec::lemma_read_in(s, i, t, 10);
        crate::codec::lemma_read_in(s, i, t, 12);
        crate::codec::lemma_read_in(s, i, t, 13);
        crate::codec::lemma_read_in(s, i, t, 52);
        crate::codec::lemma_read_in(s, i, t, 54);
        crate::codec::lemma_read_in(s, i, t, 56);
        crate::codec::lemma_read_in(s, i, t, 58);
        let m = t.subrange(16, 52);
        assert(s.subrange(n - 44, n - 8) == m);
        crate::codec::lemma_read_in(s, n - 44, m, 0);
        crate::codec::lemma_read_in(s, n - 44, m, 4);
        crate::codec::lemma_read_in(s, n - 44, m, 8);
        crate::codec::lemma_read_in(s, n - 44, m, 12);
        crate::codec::lemma_read_in(s, n - 44, m, 16);
        crate::codec::lemma_read_in(s, n - 44, m, 20);
        crate::codec::lemma_read_in(s, n - 44, m, 24);
        crate::codec::lemma_read_in(s, n - 44, m, 28);
        crate::codec::lemma_read_in(s, n - 44, m, 32);
    }
}

/// The layout of a `tkhd` body, written: 96 bytes of version 1 with flag bit 0 set when the
/// track is enabled, the creation time, modification time, track id, 4 reserved bytes and the
/// duration, then 8 reserved bytes, the layer, the alternate group, the volume, 2 reserved
/// bytes and the matrix, and last the width, then the height, each as a 16.16 fixed-point
/// number (big-endian integer part, then big-endian fractional part).
pub proof fn lemma_tkhd_encode_layout(v: Tkhd)
    ensures
        Tkhd::spec_encode_body(v) matches Ok(b) ==> {
            &&& b.len() == 96
            &&& b.subrange(0, 4) == be32(ext_word(1, if v.enabled { 1 } else { 0 }))
            &&& b.subrange(4, 12) == be64(v.creation_time)
            &&& b.subrange(12, 20) == be64(v.modification_time)
            &&& b.subrange(20, 24) == be32(v.track_id)
            &&& b.subrange(24, 28) == be32(0)
            &&& b.subrange(28, 36) == be64(v.duration)
            &&& b.subrange(36, 44) == be64(0)
            &&& b.subrange(44, 46) == be16(v.layer)
            &&& b.subrange(46, 48) == be16(v.alternate_group)
            &&& b[48] == v.volume@.0
            &&& b[49] == v.volume@.1
            &&& b.subrange(50, 52) == be16(0)
            &&& b.subrange(52, 88) == matrix_bytes(v.matrix)
            &&& b.subrange(88, 92) == be16(v.width@.0) + be16(v.width@.1)
            &&& b.subrange(92, 96) == be16(v.height@.0) + be16(v.height@.1)
        },
{
    let b = Tkhd::spec_encode_body(v)->Ok_0;
    lemma_tail(v);
    Matrix::lemma_roundtrip(v.matrix);
    assert(b.subrange(0, 4) =~= be32(ext_word(1, if v.enabled { 1 } else { 0 })));
    assert(b.subrange(4, 12) =~= be64(v.creation_time));
    assert(b.subrange(12, 20) =~= be64(v.modification_time));
    assert(b.subrange(20, 24) =~= be32(v.track_id));
    assert(b.subrange(24, 28) =~= be32(0));
    assert(b.subrange(28, 36) =~= be64(v.duration));
    assert(b.subrange(36, 44) =~= be64(0));
    assert(b.subrange(44, 46) =~= be16(v.layer));
    assert(b.subrange(46, 48) =~= be16(v.alternate_group));
    assert(b.subrange(50, 52) =~= be16(0));
    assert(b.subrange(52, 88) =~= matrix_bytes(v.matrix));
    assert(b.subrange(88, 92) =~= be16(v.width@.0) + be16(v.width@.1));
    assert(b.subrange(92, 96) =~= be16(v.height@.0) + be16(v.height@.1));
}

} // verus!
