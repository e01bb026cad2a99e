use vstd::prelude::*;

use crate::error::Error;

verus! {

// ---------------------------------------------------------------------------
// Big-endian numbers in byte sequences
// ---------------------------------------------------------------------------

/// The big-endian `u16` at offset `i` of `s`.
#[verifier::opaque]
pub open spec fn be16_at(s: Seq<u8>, i: int) -> u16 {
    (s[i] as int * 256 + s[i + 1] as int) as u16
}

/// The big-endian `u24` (as a `u32`) at offset `i` of `s`.
#[verifier::opaque]
pub open spec fn be24_at(s: Seq<u8>, i: int) -> u32 {
    (s[i] as int * 65536 + s[i + 1] as int * 256 + s[i + 2] as int) as u32
}

/// The big-endian `u32` at offset `i` of `s`.
#[verifier::opaque]
pub open spec fn be32_at(s: Seq<u8>, i: int) -> u32 {
    (s[i] as int * 16777216 + s[i + 1] as int * 65536 + s[i + 2] as int * 256
        + s[i + 3] as int) as u32
}

/// The big-endian `u64` at offset `i` of `s`.
#[verifier::opaque]
pub open spec fn be64_at(s: Seq<u8>, i: int) -> u64 {
    (be32_at(s, i) as int * 4294967296 + be32_at(s, i + 4) as int) as u64
}

/// The two bytes of `v`, most significant first.
#[verifier::opaque]
pub open spec fn be16(v: u16) -> Seq<u8> {
    seq![(v / 256) as u8, (v % 256) as u8]
}

/// The three low bytes of `v`, most significant first.
#[verifier::opaque]
pub open spec fn be24(v: u32) -> Seq<u8> {
    seq![((v / 65536) % 256) as u8, ((v / 256) % 256) as u8, (v % 256) as u8]
}

/// The four bytes of `v`, most significant first.
#[verifier::opaque]
pub open spec fn be32(v: u32) -> Seq<u8> {
    seq![
        (v / 16777216) as u8,
        ((v / 65536) % 256) as u8,
        ((v / 256) % 256) as u8,
        (v % 256) as u8,
    ]
}

/// The eight bytes of `v`, most significant first.
#[verifier::opaque]
pub open spec fn be64(v: u64) -> Seq<u8> {
    be32((v / 4294967296) as u32) + be32((v % 4294967296) as u32)
}

/// The two's complement bits of a signed 8-bit number.
pub open spec fn i8_bits(v: i8) -> u8 {
    if v >= 0 {
        v as u8
    } else {
        (v + 256) as u8
    }
}

/// The signed 8-bit number with these two's complement bits.
pub open spec fn i8_of(b: u8) -> i8 {
    if b < 128 {
        b as i8
    } else {
        (b - 256) as i8
    }
}

/// The two's complement bits of a signed 16-bit number.
pub open spec fn i16_bits(v: i16) -> u16 {
    if v >= 0 {
        v as u16
    } else {
        (v + 65536) as u16
    }
}

/// The signed 16-bit number with these two's complement bits.
pub open spec fn i16_of(b: u16) -> i16 {
    if b < 32768 {
        b as i16
    } else {
        (b - 65536) as i16
    }
}

/// The two's complement bits of a signed 32-bit number.
pub open spec fn i32_bits(v: i32) -> u32 {
    if v >= 0 {
        v as u32
    } else {
        (v + 4294967296) as u32
    }
}

/// The signed 32-bit number with these two's complement bits.
pub open spec fn i32_of(b: u32) -> i32 {
    if b < 2147483648 {
        b as i32
    } else {
        (b - 4294967296) as i32
    }
}

/// The bytes of a sequence of `u32`, each big-endian, one after the other.
pub open spec fn be32_seq(v: Seq<u32>) -> Seq<u8>
    decreases v.len(),
{
    if v.len() == 0 {
        Seq::empty()
    } else {
        be32_seq(v.drop_last()) + be32(v.last())
    }
}

/// The bytes of a sequence of `u16`, each big-endian, one after the other.
pub open spec fn be16_seq(v: Seq<u16>) -> Seq<u8>
    decreases v.len(),
{
    if v.len() == 0 {
        Seq::empty()
    } else {
        be16_seq(v.drop_last()) + be16(v.last())
    }
}

// ---------------------------------------------------------------------------
// Lemmas on the encodings
// ---------------------------------------------------------------------------

pub proof fn lemma_be16(v: u16)
    ensures
        be16(v).len() == 2,
        be16_at(be16(v), 0) == v,
{
    reveal(be16_at);
    reveal(be24_at);
    reveal(be32_at);
    reveal(be64_at);
    reveal(be16);
    reveal(be24);
    reveal(be32);
    reveal(be64);
    assert(((v / 256) as u8) as int * 256 + ((v % 256) as u8) as int == v) by (bit_vector);
}

pub proof fn lemma_be24(v: u32)
    requires
        v < 16777216,
    ensures
        be24(v).len() == 3,
        be24_at(be24(v), 0) == v,
{
    reveal(be16_at);
    reveal(be24_at);
    reveal(be32_at);
    reveal(be64_at);
    reveal(be16);
    reveal(be24);
    reveal(be32);
    reveal(be64);
    assert(v < 16777216 ==> (((v / 65536) % 256) as u8) as int * 65536 + (((v / 256) % 256) as u8) as int
        * 256 + ((v % 256) as u8) as int == v) by (bit_vector);
}

pub proof fn lemma_be32(v: u32)
    ensures
        be32(v).len() == 4,
        be32_at(be32(v), 0) == v,
{
    reveal(be16_at);
    reveal(be24_at);
    reveal(be32_at);
    reveal(be64_at);
    reveal(be16);
    reveal(be24);
    reveal(be32);
    reveal(be64);
    assert(((v / 16777216) as u8) as int * 16777216 + (((v / 65536) % 256) as u8) as int * 65536
        + (((v / 256) % 256) as u8) as int * 256 + ((v % 256) as u8) as int == v) by (bit_vector);
}

pub proof fn lemma_be64(v: u64)
    ensures
        be64(v).len() == 8,
        be64_at(be64(v), 0) == v,
{
    reveal(be16_at);
    reveal(be24_at);
    reveal(be32_at);
    reveal(be64_at);
    reveal(be16);
    reveal(be24);
    reveal(be32);
    reveal(be64);
    let hi = (v / 4294967296) as u32;
    let lo = (v % 4294967296) as u32;
    lemma_be32(hi);
    lemma_be32(lo);
    let s = be64(v);
    assert(be32_at(s, 0) == be32_at(be32(hi), 0));
    assert(be32_at(s, 4) == be32_at(be32(lo), 0));
    assert(hi as int * 4294967296 + lo as int == v) by (bit_vector)
        requires
            hi == (v / 4294967296) as u32,
            lo == (v % 4294967296) as u32,
    ;
}

/// Reading a big-endian `u32` where its bytes were written gives it back.
pub proof fn lemma_be32_at(s: Seq<u8>, i: int, v: u32)
    requires
        0 <= i,
        i + 4 <= s.len(),
        s.subrange(i, i + 4) == be32(v),
    ensures
        be32_at(s, i) == v,
{
    reveal(be16_at);
    reveal(be24_at);
    reveal(be32_at);
    reveal(be64_at);
    reveal(be16);
    reveal(be24);
    reveal(be32);
    reveal(be64);
    lemma_be32(v);
    assert(s[i] == be32(v)[0]);
    assert(s[i + 1] == be32(v)[1]);
    assert(s[i + 2] == be32(v)[2]);
    assert(s[i + 3] == be32(v)[3]);
}

/// Reading a big-endian `u64` where its bytes were written gives it back.
pub proof fn lemma_be64_at(s: Seq<u8>, i: int, v: u64)
    requires
        0 <= i,
        i + 8 <= s.len(),
        s.subrange(i, i + 8) == be64(v),
    ensures
        be64_at(s, i) == v,
{
    reveal(be16_at);
    reveal(be24_at);
    reveal(be32_at);
    reveal(be64_at);
    reveal(be16);
    reveal(be24);
    reveal(be32);
    reveal(be64);
    lemma_be64(v);
    let t = be64(v);
    assert forall|k: int| 0 <= k < 8 implies s[i + k] == t[k] by {
        assert(s.subrange(i, i + 8)[k] == s[i + k]);
    }
    assert(be32_at(s, i) == be32_at(t, 0));
    assert(be32_at(s, i + 4) == be32_at(t, 4));
}

pub proof fn lemma_i8(v: i8)
    ensures
        i8_of(i8_bits(v)) == v,
{
}

pub proof fn lemma_i16(v: i16)
    ensures
        i16_of(i16_bits(v)) == v,
{
}

pub proof fn lemma_i32(v: i32)
    ensures
        i32_of(i32_bits(v)) == v,
{
}

pub proof fn lemma_be32_seq_len(v: Seq<u32>)
    ensures
        be32_seq(v).len() == 4 * v.len(),
    decreases v.len(),
{
    reveal(be16_at);
    reveal(be24_at);
    reveal(be32_at);
    reveal(be64_at);
    reveal(be16);
    reveal(be24);
    reveal(be32);
    reveal(be64);
    if v.len() > 0 {
        lemma_be32_seq_len(v.drop_last());
    }
}

/// Element `k` of a sequence of `u32` stands at offset `4 * k` of its bytes.
pub proof fn lemma_be32_seq_at(v: Seq<u32>, k: int)
    requires
        0 <= k < v.len(),
    ensures
        be32_seq(v).len() == 4 * v.len(),
        be32_at(be32_seq(v), 4 * k) == v[k],
    decreases v.len(),
{
    lemma_be32_seq_len(v);
    lemma_be32_seq_len(v.drop_last());
    let p = be32_seq(v.drop_last());
    lemma_be32_read(v.last());
    lemma_be32_concat(p, be32(v.last()), 4 * k);
    if k < v.len() - 1 {
        lemma_be32_seq_at(v.drop_last(), k);
    }
}

pub proof fn lemma_be16_seq_len(v: Seq<u16>)
    ensures
        be16_seq(v).len() == 2 * v.len(),
    decreases v.len(),
{
    reveal(be16_at);
    reveal(be24_at);
    reveal(be32_at);
    reveal(be64_at);
    reveal(be16);
    reveal(be24);
    reveal(be32);
    reveal(be64);
    if v.len() > 0 {
        lemma_be16_seq_len(v.drop_last());
    }
}

/// Element `k` of a sequence of `u16` stands at offset `2 * k` of its bytes.
pub proof fn lemma_be16_seq_at(v: Seq<u16>, k: int)
    requires
        0 <= k < v.len(),
    ensures
        be16_seq(v).len() == 2 * v.len(),
        be16_at(be16_seq(v), 2 * k) == v[k],
    decreases v.len(),
{
    lemma_be16_seq_len(v);
    lemma_be16_seq_len(v.drop_last());
    let p = be16_seq(v.drop_last());
    lemma_be16_read(v.last());
    lemma_be16_concat(p, be16(v.last()), 2 * k);
    if k < v.len() - 1 {
        lemma_be16_seq_at(v.drop_last(), k);
    }
}

/// Reading inside the second of two joined sequences is reading that sequence.
pub proof fn lemma_at_shift(p: Seq<u8>, q: Seq<u8>, i: int)
    requires
        0 <= i,
    ensures
        i + 2 <= q.len() ==> be16_at(p + q, p.len() + i) == be16_at(q, i),
        i + 3 <= q.len() ==> be24_at(p + q, p.len() + i) == be24_at(q, i),
        i + 4 <= q.len() ==> be32_at(p + q, p.len() + i) == be32_at(q, i),
        i + 8 <= q.len() ==> be64_at(p + q, p.len() + i) == be64_at(q, i),
        i + 1 <= q.len() ==> (p + q)[p.len() + i] == q[i],
{
    reveal(be16_at);
    reveal(be24_at);
    reveal(be32_at);
    reveal(be64_at);
    reveal(be16);
    reveal(be24);
    reveal(be32);
    reveal(be64);
}

/// Reading inside the first of two joined sequences is reading that sequence.
pub proof fn lemma_at_prefix(p: Seq<u8>, q: Seq<u8>, i: int)
    requires
        0 <= i,
    ensures
        i + 2 <= p.len() ==> be16_at(p + q, i) == be16_at(p, i),
        i + 3 <= p.len() ==> be24_at(p + q, i) == be24_at(p, i),
        i + 4 <= p.len() ==> be32_at(p + q, i) == be32_at(p, i),
        i + 8 <= p.len() ==> be64_at(p + q, i) == be64_at(p, i),
        i + 1 <= p.len() ==> (p + q)[i] == p[i],
{
    reveal(be16_at);
    reveal(be24_at);
    reveal(be32_at);
    reveal(be64_at);
    reveal(be16);
    reveal(be24);
    reveal(be32);
    reveal(be64);
}

// ---------------------------------------------------------------------------
// Reading numbers inside joined sequences (used to replay encodings)
// ---------------------------------------------------------------------------

pub broadcast proof fn lemma_be16_concat(a: Seq<u8>, b: Seq<u8>, i: int)
    requires
        0 <= i,
    ensures
        i + 2 <= a.len() ==> #[trigger] be16_at(a + b, i) == be16_at(a, i),
        i >= a.len() && i + 2 <= a.len() + b.len() ==> be16_at(a + b, i) == be16_at(b, i - a.len()),
{
    reveal(be16_at);
    reveal(be24_at);
    reveal(be32_at);
    reveal(be64_at);
    reveal(be16);
    reveal(be24);
    reveal(be32);
    reveal(be64);
}

pub broadcast proof fn lemma_be24_concat(a: Seq<u8>, b: Seq<u8>, i: int)
    requires
        0 <= i,
    ensures
        i + 3 <= a.len() ==> #[trigger] be24_at(a + b, i) == be24_at(a, i),
        i >= a.len() && i + 3 <= a.len() + b.len() ==> be24_at(a + b, i) == be24_at(b, i - a.len()),
{
    reveal(be16_at);
    reveal(be24_at);
    reveal(be32_at);
    reveal(be64_at);
    reveal(be16);
    reveal(be24);
    reveal(be32);
    reveal(be64);
}

pub broadcast proof fn lemma_be32_concat(a: Seq<u8>, b: Seq<u8>, i: int)
    requires
        0 <= i,
    ensures
        i + 4 <= a.len() ==> #[trigger] be32_at(a + b, i) == be32_at(a, i),
        i >= a.len() && i + 4 <= a.len() + b.len() ==> be32_at(a + b, i) == be32_at(b, i - a.len()),
{
    reveal(be16_at);
    reveal(be24_at);
    reveal(be32_at);
    reveal(be64_at);
    reveal(be16);
    reveal(be24);
    reveal(be32);
    reveal(be64);
}

pub broadcast proof fn lemma_be64_concat(a: Seq<u8>, b: Seq<u8>, i: int)
    requires
        0 <= i,
    ensures
        i + 8 <= a.len() ==> #[trigger] be64_at(a + b, i) == be64_at(a, i),
        i >= a.len() && i + 8 <= a.len() + b.len() ==> be64_at(a + b, i) == be64_at(b, i - a.len()),
{
    reveal(be16_at);
    reveal(be24_at);
    reveal(be32_at);
    reveal(be64_at);
    reveal(be16);
    reveal(be24);
    reveal(be32);
    reveal(be64);
}

pub broadcast proof fn lemma_be16_read(v: u16)
    ensures
        #[trigger] be16_at(be16(v), 0) == v,
        be16(v).len() == 2,
{
    lemma_be16(v);
}

pub broadcast proof fn lemma_be24_read(v: u32)
    ensures
        v < 16777216 ==> #[trigger] be24_at(be24(v), 0) == v,
        be24(v).len() == 3,
{
    reveal(be24);
    if v < 16777216 {
        lemma_be24(v);
    }
}

pub broadcast proof fn lemma_be32_read(v: u32)
    ensures
        #[trigger] be32_at(be32(v), 0) == v,
        be32(v).len() == 4,
{
    lemma_be32(v);
}

pub broadcast proof fn lemma_be64_read(v: u64)
    ensures
        #[trigger] be64_at(be64(v), 0) == v,
        be64(v).len() == 8,
{
    lemma_be64(v);
}

pub broadcast proof fn lemma_be16_len(v: u16)
    ensures
        #[trigger] be16(v).len() == 2,
{
    reveal(be16);
}

pub broadcast proof fn lemma_be24_len(v: u32)
    ensures
        #[trigger] be24(v).len() == 3,
{
    reveal(be24);
}

pub broadcast proof fn lemma_be32_len(v: u32)
    ensures
        #[trigger] be32(v).len() == 4,
{
    reveal(be32);
}

pub broadcast proof fn lemma_be64_len(v: u64)
    ensures
        #[trigger] be64(v).len() == 8,
{
    reveal(be16_at);
    reveal(be24_at);
    reveal(be32_at);
    reveal(be64_at);
    reveal(be16);
    reveal(be24);
    reveal(be32);
    reveal(be64);
}

pub broadcast group group_codec {
    lemma_be16_concat,
    lemma_be24_concat,
    lemma_be32_concat,
    lemma_be64_concat,
    lemma_be16_read,
    lemma_be24_read,
    lemma_be32_read,
    lemma_be64_read,
    lemma_be16_len,
    lemma_be24_len,
    lemma_be32_len,
    lemma_be64_len,
}

// ---------------------------------------------------------------------------
// Lists of fixed-size records
// ---------------------------------------------------------------------------

/// A 24-bit number read from bytes is below 2 to the 24.
pub proof fn lemma_be24_bound(s: Seq<u8>, i: int)
    ensures
        be24_at(s, i) < 16777216,
{
    reveal(be24_at);
    let x = s[i] as int * 65536 + s[i + 1] as int * 256 + s[i + 2] as int;
    assert(0 <= x < 16777216);
}

/// The number of bytes of `s`, as an integer.
pub open spec fn bytes_len(s: Seq<u8>) -> int {
    s.len() as int
}

/// The bytes of `s` from offset `n` to its end.
pub open spec fn bytes_from(s: Seq<u8>, n: int) -> Seq<u8> {
    s.subrange(n, s.len() as int)
}

/// The bytes of each element of `v`, one after the other.
pub open spec fn concat_map<T>(v: Seq<T>, f: spec_fn(T) -> Seq<u8>) -> Seq<u8>
    decreases v.len(),
{
    if v.len() == 0 {
        Seq::empty()
    } else {
        concat_map(v.drop_last(), f) + f(v.last())
    }
}

/// With records of `w` bytes each, record `k` stands at offset `w * k`.
pub proof fn lemma_concat_map_fixed<T>(v: Seq<T>, f: spec_fn(T) -> Seq<u8>, w: nat, k: int)
    requires
        forall|x: T| #[trigger] f(x).len() == w,
        0 <= k < v.len(),
    ensures
        concat_map(v, f).len() == w * v.len(),
        concat_map(v, f).subrange(w * k, w * k + w) == f(v[k]),
    decreases v.len(),
{
    lemma_concat_map_len(v, f, w);
    let p = concat_map(v.drop_last(), f);
    lemma_concat_map_len(v.drop_last(), f, w);
    assert(w * (v.len() - 1) + w == w * v.len()) by (nonlinear_arith);
    if k == v.len() - 1 {
        assert(concat_map(v, f).subrange(w * k, w * k + w) =~= f(v.last()));
    } else {
        lemma_concat_map_fixed(v.drop_last(), f, w, k);
        assert(w * k + w <= w * (v.len() - 1)) by (nonlinear_arith)
            requires
                k < v.len() - 1,
        ;
        assert(concat_map(v, f).subrange(w * k, w * k + w) =~= p.subrange(w * k, w * k + w));
    }
}

pub proof fn lemma_concat_map_len<T>(v: Seq<T>, f: spec_fn(T) -> Seq<u8>, w: nat)
    requires
        forall|x: T| #[trigger] f(x).len() == w,
    ensures
        concat_map(v, f).len() == w * v.len(),
    decreases v.len(),
{
    if v.len() > 0 {
        lemma_concat_map_len(v.drop_last(), f, w);
        assert(w * (v.len() - 1) + w == w * v.len()) by (nonlinear_arith);
    }
}

/// Extending the list by one element appends that element's bytes.
pub proof fn lemma_concat_map_push<T>(v: Seq<T>, f: spec_fn(T) -> Seq<u8>, x: T)
    ensures
        concat_map(v.push(x), f) == concat_map(v, f) + f(x),
{
    assert(v.push(x).drop_last() =~= v);
}

/// The bytes of a non-empty list are those of its first element, then those of the rest.
pub proof fn lemma_concat_map_first<T>(v: Seq<T>, f: spec_fn(T) -> Seq<u8>)
    requires
        v.len() > 0,
    ensures
        concat_map(v, f) == f(v[0]) + concat_map(v.drop_first(), f),
    decreases v.len(),
{
    if v.len() == 1 {
        assert(v.drop_last() =~= Seq::<T>::empty());
        assert(v.drop_first() =~= Seq::<T>::empty());
        assert(concat_map(v.drop_last(), f) =~= Seq::<u8>::empty());
        assert(concat_map(v.drop_first(), f) =~= Seq::<u8>::empty());
        assert(v.last() == v[0]);
        assert(concat_map(v, f) =~= f(v[0]) + concat_map(v.drop_first(), f));
    } else {
        lemma_concat_map_first(v.drop_last(), f);
        assert(v.drop_last().drop_first() =~= v.drop_first().drop_last());
        assert(v.drop_first().last() == v.last());
        assert(v.drop_last()[0] == v[0]);
        assert(concat_map(v, f) =~= f(v[0]) + concat_map(v.drop_first(), f));
    }
}

/// Numbers read from a range equal to `t` are those read from `t`.
pub proof fn lemma_read_in(s: Seq<u8>, a: int, t: Seq<u8>, o: int)
    requires
        0 <= a,
        0 <= o,
        a + t.len() <= s.len(),
        s.subrange(a, a + t.len()) == t,
    ensures
        o + 1 <= t.len() ==> s[a + o] == t[o],
        o + 2 <= t.len() ==> be16_at(s, a + o) == be16_at(t, o),
        o + 3 <= t.len() ==> be24_at(s, a + o) == be24_at(t, o),
        o + 4 <= t.len() ==> be32_at(s, a + o) == be32_at(t, o),
        o + 8 <= t.len() ==> be64_at(s, a + o) == be64_at(t, o),
{
    reveal(be16_at);
    reveal(be24_at);
    reveal(be32_at);
    reveal(be64_at);
    reveal(be16);
    reveal(be24);
    reveal(be32);
    reveal(be64);
    assert forall|j: int| 0 <= j < t.len() implies s[a + j] == t[j] by {
        assert(s.subrange(a, a + t.len())[j] == s[a + j]);
    }
}

// ---------------------------------------------------------------------------
// Reading from a byte slice at a position
// ---------------------------------------------------------------------------

pub fn read_u8(buf: &[u8], pos: usize) -> (r: Result<u8, Error>)
    ensures
        pos + 1 <= buf@.len() ==> r == Ok::<u8, Error>(buf@[pos as int]),
        pos + 1 > buf@.len() ==> r == Err::<u8, Error>(Error::OutOfBounds),
{
    if pos < buf.len() {
        Ok(buf[pos])
    } else {
        Err(Error::OutOfBounds)
    }
}

pub fn read_u16(buf: &[u8], pos: usize) -> (r: Result<u16, Error>)
    ensures
        pos + 2 <= buf@.len() ==> r == Ok::<u16, Error>(be16_at(buf@, pos as int)),
        pos + 2 > buf@.len() ==> r == Err::<u16, Error>(Error::OutOfBounds),
{
    proof {
        reveal(be16_at);
        reveal(be24_at);
        reveal(be32_at);
        reveal(be64_at);
        reveal(be16);
        reveal(be24);
        reveal(be32);
        reveal(be64);
    }
    if pos < buf.len() && buf.len() - pos >= 2 {
        Ok((buf[pos] as u16) * 256 + (buf[pos + 1] as u16))
    } else {
        Err(Error::OutOfBounds)
    }
}

pub fn read_u24(buf: &[u8], pos: usize) -> (r: Result<u32, Error>)
    ensures
        pos + 3 <= buf@.len() ==> r == Ok::<u32, Error>(be24_at(buf@, pos as int)),
        pos + 3 > buf@.len() ==> r == Err::<u32, Error>(Error::OutOfBounds),
{
    proof {
        reveal(be16_at);
        reveal(be24_at);
        reveal(be32_at);
        reveal(be64_at);
        reveal(be16);
        reveal(be24);
        reveal(be32);
        reveal(be64);
    }
    if pos < buf.len() && buf.len() - pos >= 3 {
        Ok((buf[pos] as u32) * 65536 + (buf[pos + 1] as u32) * 256 + (buf[pos + 2] as u32))
    } else {
        Err(Error::OutOfBounds)
    }
}

pub fn read_u32(buf: &[u8], pos: usize) -> (r: Result<u32, Error>)
    ensures
        pos + 4 <= buf@.len() ==> r == Ok::<u32, Error>(be32_at(buf@, pos as int)),
        pos + 4 > buf@.len() ==> r == Err::<u32, Error>(Error::OutOfBounds),
{
    proof {
        reveal(be16_at);
        reveal(be24_at);
        reveal(be32_at);
        reveal(be64_at);
        reveal(be16);
        reveal(be24);
        reveal(be32);
        reveal(be64);
    }
    if pos < buf.len() && buf.len() - pos >= 4 {
        Ok((buf[pos] as u32) * 16777216 + (buf[pos + 1] as u32) * 65536 + (buf[pos + 2] as u32)
            * 256 + (buf[pos + 3] as u32))
    } else {
        Err(Error::OutOfBounds)
    }
}

pub fn read_u64(buf: &[u8], pos: usize) -> (r: Result<u64, Error>)
    ensures
        pos + 8 <= buf@.len() ==> r == Ok::<u64, Error>(be64_at(buf@, pos as int)),
        pos + 8 > buf@.len() ==> r == Err::<u64, Error>(Error::OutOfBounds),
{
    proof {
        reveal(be16_at);
        reveal(be24_at);
        reveal(be32_at);
        reveal(be64_at);
        reveal(be16);
        reveal(be24);
        reveal(be32);
        reveal(be64);
    }
    if pos < buf.len() && buf.len() - pos >= 8 {
        let hi = read_u32(buf, pos)?;
        let lo = read_u32(buf, pos + 4)?;
        Ok((hi as u64) * 4294967296 + (lo as u64))
    } else {
        Err(Error::OutOfBounds)
    }
}

pub fn read_i8(buf: &[u8], pos: usize) -> (r: Result<i8, Error>)
    ensures
        pos + 1 <= buf@.len() ==> r == Ok::<i8, Error>(i8_of(buf@[pos as int])),
        pos + 1 > buf@.len() ==> r == Err::<i8, Error>(Error::OutOfBounds),
{
    let b = read_u8(buf, pos)?;
    if b < 128 {
        Ok(b as i8)
    } else {
        Ok((b as i16 - 256) as i8)
    }
}

pub fn read_i16(buf: &[u8], pos: usize) -> (r: Result<i16, Error>)
    ensures
        pos + 2 <= buf@.len() ==> r == Ok::<i16, Error>(i16_of(be16_at(buf@, pos as int))),
        pos + 2 > buf@.len() ==> r == Err::<i16, Error>(Error::OutOfBounds),
{
    let b = read_u16(buf, pos)?;
    if b < 32768 {
        Ok(b as i16)
    } else {
        Ok((b as i32 - 65536) as i16)
    }
}

pub fn read_i32(buf: &[u8], pos: usize) -> (r: Result<i32, Error>)
    ensures
        pos + 4 <= buf@.len() ==> r == Ok::<i32, Error>(i32_of(be32_at(buf@, pos as int))),
        pos + 4 > buf@.len() ==> r == Err::<i32, Error>(Error::OutOfBounds),
{
    let b = read_u32(buf, pos)?;
    if b < 2147483648 {
        Ok(b as i32)
    } else {
        Ok((b as i64 - 4294967296) as i32)
    }
}

/// The `n` bytes at `pos`, copied out.
pub fn read_bytes(buf: &[u8], pos: usize, n: usize) -> (r: Result<Vec<u8>, Error>)
    ensures
        pos + n <= buf@.len() ==> (r matches Ok(v) && v@ == buf@.subrange(pos as int, pos + n)),
        pos + n > buf@.len() ==> r == Err::<Vec<u8>, Error>(Error::OutOfBounds),
{
    if pos <= buf.len() && n <= buf.len() - pos {
        let mut v: Vec<u8> = Vec::with_capacity(n);
        let mut i: usize = 0;
        while i < n
            invariant
                i <= n,
                pos + n <= buf.len(),
                v@ == buf@.subrange(pos as int, pos + i),
            decreases n - i,
        {
            v.push(buf[pos + i]);
            i = i + 1;
            assert(v@ =~= buf@.subrange(pos as int, pos + i));
        }
        Ok(v)
    } else {
        Err(Error::OutOfBounds)
    }
}

// ---------------------------------------------------------------------------
// Writing to the end of a byte vector
// ---------------------------------------------------------------------------

pub fn put_u8(out: &mut Vec<u8>, v: u8)
    ensures
        final(out)@ == old(out)@.push(v),
{
    out.push(v);
}

pub fn put_u16(out: &mut Vec<u8>, v: u16)
    ensures
        final(out)@ == old(out)@ + be16(v),
{
    proof {
        reveal(be16_at);
        reveal(be24_at);
        reveal(be32_at);
        reveal(be64_at);
        reveal(be16);
        reveal(be24);
        reveal(be32);
        reveal(be64);
    }
    out.push((v / 256) as u8);
    out.push((v % 256) as u8);
    assert(out@ =~= old(out)@ + be16(v));
}

pub fn put_u24(out: &mut Vec<u8>, v: u32)
    ensures
        final(out)@ == old(out)@ + be24(v),
{
    proof {
        reveal(be16_at);
        reveal(be24_at);
        reveal(be32_at);
        reveal(be64_at);
        reveal(be16);
        reveal(be24);
        reveal(be32);
        reveal(be64);
    }
    out.push(((v / 65536) % 256) as u8);
    out.push(((v / 256) % 256) as u8);
    out.push((v % 256) as u8);
    assert(out@ =~= old(out)@ + be24(v));
}

pub fn put_u32(out: &mut Vec<u8>, v: u32)
    ensures
        final(out)@ == old(out)@ + be32(v),
{
    proof {
        reveal(be16_at);
        reveal(be24_at);
        reveal(be32_at);
        reveal(be64_at);
        reveal(be16);
        reveal(be24);
        reveal(be32);
        reveal(be64);
    }
    out.push((v / 16777216) as u8);
    out.push(((v / 65536) % 256) as u8);
    out.push(((v / 256) % 256) as u8);
    out.push((v % 256) as u8);
    assert(out@ =~= old(out)@ + be32(v));
}

pub fn put_u64(out: &mut Vec<u8>, v: u64)
    ensures
        final(out)@ == old(out)@ + be64(v),
{
    proof {
        reveal(be16_at);
        reveal(be24_at);
        reveal(be32_at);
        reveal(be64_at);
        reveal(be16);
        reveal(be24);
        reveal(be32);
        reveal(be64);
    }
    put_u32(out, (v / 4294967296) as u32);
    put_u32(out, (v % 4294967296) as u32);
    assert(out@ =~= old(out)@ + be64(v));
}

pub fn put_i8(out: &mut Vec<u8>, v: i8)
    ensures
        final(out)@ == old(out)@.push(i8_bits(v)),
{
    if v >= 0 {
        out.push(v as u8);
    } else {
        out.push((v as i16 + 256) as u8);
    }
}

pub fn put_i16(out: &mut Vec<u8>, v: i16)
    ensures
        final(out)@ == old(out)@ + be16(i16_bits(v)),
{
    if v >= 0 {
        put_u16(out, v as u16);
    } else {
        put_u16(out, (v as i32 + 65536) as u16);
    }
}

pub fn put_i32(out: &mut Vec<u8>, v: i32)
    ensures
        final(out)@ == old(out)@ + be32(i32_bits(v)),
{
    if v >= 0 {
        put_u32(out, v as u32);
    } else {
        put_u32(out, (v as i64 + 4294967296) as u32);
    }
}

pub fn put_bytes(out: &mut Vec<u8>, b: &[u8])
    ensures
        final(out)@ == old(out)@ + b@,
{
    let mut i: usize = 0;
    while i < b.len()
        invariant
            i <= b@.len(),
            out@ == old(out)@ + b@.subrange(0, i as int),
        decreases b@.len() - i,
    {
        out.push(b[i]);
        i = i + 1;
        assert(out@ =~= old(out)@ + b@.subrange(0, i as int));
    }
    assert(b@.subrange(0, b@.len() as int) =~= b@);
}

pub fn put_u32_list(out: &mut Vec<u8>, v: &Vec<u32>)
    ensures
        final(out)@ == old(out)@ + be32_seq(v@),
{
    let mut i: usize = 0;
    while i < v.len()
        invariant
            i <= v@.len(),
            out@ == old(out)@ + be32_seq(v@.subrange(0, i as int)),
        decreases v@.len() - i,
    {
        put_u32(out, v[i]);
        i = i + 1;
        assert(v@.subrange(0, i as int).drop_last() =~= v@.subrange(0, i - 1));
        assert(out@ =~= old(out)@ + be32_seq(v@.subrange(0, i as int)));
    }
    assert(v@.subrange(0, v@.len() as int) =~= v@);
}

/// Reads `count` big-endian `u32` values starting at `pos`.
pub fn read_u32_list(buf: &[u8], pos: usize, count: usize) -> (r: Result<Vec<u32>, Error>)
    ensures
        pos + 4 * count <= buf@.len() ==> (r matches Ok(v) && v@ == Seq::new(
            count as nat,
            |k: int| be32_at(buf@, pos + 4 * k),
        )),
        pos + 4 * count > buf@.len() ==> r == Err::<Vec<u32>, Error>(Error::OutOfBounds),
        r is Ok ==> pos + 4 * count <= buf.len(),
{
    if pos > buf.len() || count > (buf.len() - pos) / 4 {
        return Err(Error::OutOfBounds);
    }
    let mut v: Vec<u32> = Vec::new();
    let mut i: usize = 0;
    while i < count
        invariant
            i <= count,
            pos + 4 * count <= buf.len(),
            v@ == Seq::new(i as nat, |k: int| be32_at(buf@, pos + 4 * k)),
        decreases count - i,
    {
        let x = read_u32(buf, pos + 4 * i)?;
        v.push(x);
        i = i + 1;
        assert(v@ =~= Seq::new(i as nat, |k: int| be32_at(buf@, pos + 4 * k)));
    }
    Ok(v)
}

} // verus!
