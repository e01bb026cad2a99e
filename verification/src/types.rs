use vstd::prelude::*;
use vstd::std_specs::convert::FromSpecImpl;
use vstd::utf8::{decode_utf8, encode_utf8, valid_utf8};

use crate::atom::{Decode, Encode};
use crate::codec::{
    be16, be16_at, be24, be24_at, be32, be32_at, lemma_be24_bound, put_u16, put_u24, put_u32,
    put_u8, read_bytes, read_u16, read_u24, read_u32, read_u8,
};
use crate::error::Error;
use crate::text::{from_utf8_lossy, string_from_utf8_lossy};

verus! {

/// An unsigned 24-bit number, kept as its three big-endian bytes.
#[derive(Debug, Copy, Clone, Default, PartialEq, Eq)]
#[allow(non_camel_case_types)]
pub struct u24 {
    bytes: [u8; 3],
}

impl View for u24 {
    type V = u32;

    /// The number.
    closed spec fn view(&self) -> u32 {
        (self.bytes[0] as int * 65536 + self.bytes[1] as int * 256 + self.bytes[2] as int) as u32
    }
}

impl u24 {
    /// Two 24-bit numbers with the same value are the same.
    pub broadcast proof fn lemma_view_eq(a: u24, b: u24)
        requires
            #[trigger] a@ == #[trigger] b@,
        ensures
            a == b,
    {
        assert(a.bytes[0] == b.bytes[0] && a.bytes[1] == b.bytes[1] && a.bytes[2] == b.bytes[2]) by (nonlinear_arith)
            requires
                a.bytes[0] as int * 65536 + a.bytes[1] as int * 256 + a.bytes[2] as int == b.bytes[0] as int * 65536 + b.bytes[1] as int * 256 + b.bytes[2] as int,
                a.bytes[0] < 256, a.bytes[1] < 256, a.bytes[2] < 256,
                b.bytes[0] < 256, b.bytes[1] < 256, b.bytes[2] < 256,
        ;
        assert(a.bytes =~= b.bytes);
    }

    /// The low 24 bits of `v` (the top byte is dropped).
    pub fn from_u32_low(v: u32) -> (r: u24)
        ensures
            r@ == v % 16777216,
    {
        let r = u24 { bytes: [((v / 65536) % 256) as u8, ((v / 256) % 256) as u8, (v % 256) as u8] };
        assert((((v / 65536) % 256) as u8) as int * 65536 + (((v / 256) % 256) as u8) as int * 256
            + ((v % 256) as u8) as int == v % 16777216) by (nonlinear_arith);
        r
    }

    /// The number as a `u32`.
    pub fn to_u32(&self) -> (r: u32)
        ensures
            r == self@,
    {
        (self.bytes[0] as u32) * 65536 + (self.bytes[1] as u32) * 256 + (self.bytes[2] as u32)
    }
}

impl From<u24> for u32 {
    fn from(value: u24) -> (r: u32) {
        value.to_u32()
    }
}

impl FromSpecImpl<u24> for u32 {
    open spec fn obeys_from_spec() -> bool {
        true
    }

    open spec fn from_spec(v: u24) -> u32 {
        v@
    }
}

impl Decode for u24 {
    /// Three bytes, big-endian.
    open spec fn spec_decode(s: Seq<u8>) -> Result<(u32, int), Error> {
        if s.len() < 3 {
            Err(Error::OutOfBounds)
        } else {
            Ok((be24_at(s, 0), 3))
        }
    }

    fn decode_prefix(buf: &[u8]) -> (r: Result<(u24, usize), Error>) {
        let v = read_u24(buf, 0)?;
        proof {
            lemma_be24_bound(buf@, 0);
        }
        Ok((u24::from_u32_low(v), 3))
    }
}

impl Encode for u24 {
    /// Three bytes, big-endian.
    open spec fn spec_encode(v: u32) -> Result<Seq<u8>, Error> {
        Ok(be24(v))
    }

    fn encode(&self, out: &mut Vec<u8>) -> (r: Result<(), Error>) {
        put_u24(out, self.to_u32());
        Ok(())
    }
}

/// An unsigned 48-bit number, kept as its six big-endian bytes.
#[derive(Debug, Copy, Clone, Default, PartialEq, Eq)]
#[allow(non_camel_case_types)]
pub struct u48 {
    bytes: [u8; 6],
}

impl View for u48 {
    type V = u64;

    /// The number.
    closed spec fn view(&self) -> u64 {
        (self.bytes[0] as int * 1099511627776 + self.bytes[1] as int * 4294967296 + self.bytes[2] as int
            * 16777216 + self.bytes[3] as int * 65536 + self.bytes[4] as int * 256
            + self.bytes[5] as int) as u64
    }
}

impl u48 {
    /// The low 48 bits of `v` (the two top bytes are dropped).
    pub fn from_u64_low(v: u64) -> (r: u48)
        ensures
            r@ == v % 281474976710656,
    {
        let r = u48 {
            bytes: [
                ((v / 1099511627776) % 256) as u8,
                ((v / 4294967296) % 256) as u8,
                ((v / 16777216) % 256) as u8,
                ((v / 65536) % 256) as u8,
                ((v / 256) % 256) as u8,
                (v % 256) as u8,
            ],
        };
        assert(((((v / 1099511627776) % 256) as u8) as int * 1099511627776 + ((((v / 4294967296) % 256) as u8) as int) * 4294967296 + ((((v / 16777216) % 256) as u8) as int) * 16777216 + ((((v / 65536) % 256) as u8) as int) * 65536 + ((((v / 256) % 256) as u8) as int) * 256 + ((v % 256) as u8) as int) == v % 281474976710656) by (bit_vector);
        r
    }

    /// The number as a `u64`.
    pub fn to_u64(&self) -> (r: u64)
        ensures
            r == self@,
    {
        (self.bytes[0] as u64) * 1099511627776 + (self.bytes[1] as u64) * 4294967296
            + (self.bytes[2] as u64) * 16777216 + (self.bytes[3] as u64) * 65536 + (self.bytes[4] as u64)
            * 256 + (self.bytes[5] as u64)
    }
}

impl Decode for u48 {
    /// Six bytes, big-endian.
    open spec fn spec_decode(s: Seq<u8>) -> Result<(u64, int), Error> {
        if s.len() < 6 {
            Err(Error::OutOfBounds)
        } else {
            Ok(((be16_at(s, 0) as int * 4294967296 + be32_at(s, 2) as int) as u64, 6))
        }
    }

    fn decode_prefix(buf: &[u8]) -> (r: Result<(u48, usize), Error>) {
        let hi = read_u16(buf, 0)?;
        let lo = read_u32(buf, 2)?;
        let v: u64 = (hi as u64) * 4294967296 + (lo as u64);
        Ok((u48::from_u64_low(v), 6))
    }
}

impl Encode for u48 {
    /// Six bytes, big-endian.
    open spec fn spec_encode(v: u64) -> Result<Seq<u8>, Error> {
        Ok(be16((v / 4294967296) as u16) + be32((v % 4294967296) as u32))
    }

    fn encode(&self, out: &mut Vec<u8>) -> (r: Result<(), Error>) {
        let v = self.to_u64();
        put_u16(out, (v / 4294967296) as u16);
        put_u32(out, (v % 4294967296) as u32);
        Ok(())
    }
}

/// A 24-bit number decodes back from its three bytes, whatever follows them.
pub proof fn lemma_u24_roundtrip(v: u32, rest: Seq<u8>)
    requires
        v < 16777216,
    ensures
        u24::spec_decode(u24::spec_encode(v)->Ok_0 + rest) == Ok::<(u32, int), Error>((v, 3)),
{
    broadcast use crate::codec::group_codec;

}

/// A 48-bit number decodes back from its six bytes, whatever follows them.
pub proof fn lemma_u48_roundtrip(v: u64, rest: Seq<u8>)
    requires
        v < 281474976710656,
    ensures
        u48::spec_decode(u48::spec_encode(v)->Ok_0 + rest) == Ok::<(u64, int), Error>((v, 6)),
{
    broadcast use crate::codec::group_codec;

    let hi = (v / 4294967296) as u16;
    let lo = (v % 4294967296) as u32;
    let s = be16(hi) + be32(lo) + rest;
    assert(s =~= be16(hi) + (be32(lo) + rest));
    assert(be16_at(s, 0) == hi);
    assert(be32_at(s, 2) == lo);
}

impl From<u48> for u64 {
    fn from(value: u48) -> (r: u64) {
        value.to_u64()
    }
}

impl FromSpecImpl<u48> for u64 {
    open spec fn obeys_from_spec() -> bool {
        true
    }

    open spec fn from_spec(v: u48) -> u64 {
        v@
    }
}

/// A fixed-point number: the top half of its bits is the integer part, the bottom half the
/// fractional part.
#[derive(Copy, Clone, Default, Debug, PartialEq, Eq)]
pub struct FixedPoint<T> {
    whole: T,
    frac: T,
}

impl<T> View for FixedPoint<T> {
    type V = (T, T);

    /// The integer part and the fractional part.
    closed spec fn view(&self) -> (T, T) {
        (self.whole, self.frac)
    }
}

impl<T> FixedPoint<T> {
    /// The number with this integer part and this fractional part, in specifications.
    pub closed spec fn spec_new(whole: T, frac: T) -> FixedPoint<T> {
        FixedPoint { whole, frac }
    }

    pub broadcast proof fn lemma_spec_new(whole: T, frac: T)
        ensures
            (#[trigger] FixedPoint::spec_new(whole, frac))@ == (whole, frac),
    {
    }

    /// Two numbers with the same parts are the same number.
    pub broadcast proof fn lemma_view_eq(a: FixedPoint<T>, b: FixedPoint<T>)
        requires
            #[trigger] a@ == #[trigger] b@,
        ensures
            a == b,
    {
    }
}

impl<T: Copy> FixedPoint<T> {
    /// The number with this integer part and this fractional part.
    pub fn new(whole: T, frac: T) -> (r: Self)
        ensures
            r@ == (whole, frac),
    {
        Self { whole, frac }
    }

    /// The integer part.
    pub fn integer(&self) -> (r: T)
        ensures
            r == self@.0,
    {
        self.whole
    }

    /// The fractional part.
    pub fn decimal(&self) -> (r: T)
        ensures
            r == self@.1,
    {
        self.frac
    }
}

impl From<u8> for FixedPoint<u8> {
    fn from(value: u8) -> (r: Self)
        ensures
            r@ == (value, 0u8),
    {
        Self { whole: value, frac: 0 }
    }
}

impl FromSpecImpl<u8> for FixedPoint<u8> {
    open spec fn obeys_from_spec() -> bool {
        true
    }

    /// The number with integer part `v` and fractional part zero.
    open spec fn from_spec(v: u8) -> FixedPoint<u8> {
        FixedPoint::spec_new(v, 0)
    }
}

impl From<u16> for FixedPoint<u16> {
    fn from(value: u16) -> (r: Self)
        ensures
            r@ == (value, 0u16),
    {
        Self { whole: value, frac: 0 }
    }
}

impl FromSpecImpl<u16> for FixedPoint<u16> {
    open spec fn obeys_from_spec() -> bool {
        true
    }

    /// The number with integer part `v` and fractional part zero.
    open spec fn from_spec(v: u16) -> FixedPoint<u16> {
        FixedPoint::spec_new(v, 0)
    }
}

/// The number made from a `u8` has that integer part and a zero fractional part.
pub proof fn lemma_from_u8(v: u8)
    ensures
        <FixedPoint<u8> as vstd::std_specs::convert::FromSpec<u8>>::from_spec(v)@ == (v, 0u8),
{
}

/// The number made from a `u16` has that integer part and a zero fractional part.
pub proof fn lemma_from_u16(v: u16)
    ensures
        <FixedPoint<u16> as vstd::std_specs::convert::FromSpec<u16>>::from_spec(v)@ == (v, 0u16),
{
}

/// Reads an 8.8 fixed-point number at `pos`.
pub fn read_fixed8(buf: &[u8], pos: usize) -> (r: Result<FixedPoint<u8>, Error>)
    ensures
        pos + 2 <= buf@.len() ==> (r matches Ok(v) && v@ == (buf@[pos as int], buf@[pos + 1])),
        pos + 2 > buf@.len() ==> r == Err::<FixedPoint<u8>, Error>(Error::OutOfBounds),
{
    if pos >= buf.len() || buf.len() - pos < 2 {
        return Err(Error::OutOfBounds);
    }
    let whole = read_u8(buf, pos)?;
    let frac = read_u8(buf, pos + 1)?;
    Ok(FixedPoint { whole, frac })
}

/// Reads a 16.16 fixed-point number at `pos`.
pub fn read_fixed16(buf: &[u8], pos: usize) -> (r: Result<FixedPoint<u16>, Error>)
    ensures
        pos + 4 <= buf@.len() ==> (r matches Ok(v) && v@ == (
            be16_at(buf@, pos as int),
            be16_at(buf@, pos + 2),
        )),
        pos + 4 > buf@.len() ==> r == Err::<FixedPoint<u16>, Error>(Error::OutOfBounds),
{
    if pos >= buf.len() || buf.len() - pos < 4 {
        return Err(Error::OutOfBounds);
    }
    let whole = read_u16(buf, pos)?;
    let frac = read_u16(buf, pos + 2)?;
    Ok(FixedPoint { whole, frac })
}

/// The bytes of an 8.8 fixed-point number.
pub open spec fn fixed8_bytes(v: (u8, u8)) -> Seq<u8> {
    seq![v.0, v.1]
}

/// The bytes of a 16.16 fixed-point number.
pub open spec fn fixed16_bytes(v: (u16, u16)) -> Seq<u8> {
    crate::codec::be16(v.0) + crate::codec::be16(v.1)
}

pub fn put_fixed8(out: &mut Vec<u8>, v: &FixedPoint<u8>)
    ensures
        final(out)@ == old(out)@ + fixed8_bytes(v@),
{
    put_u8(out, v.whole);
    put_u8(out, v.frac);
    assert(out@ =~= old(out)@ + fixed8_bytes(v@));
}

pub fn put_fixed16(out: &mut Vec<u8>, v: &FixedPoint<u16>)
    ensures
        final(out)@ == old(out)@ + fixed16_bytes(v@),
{
    put_u16(out, v.whole);
    put_u16(out, v.frac);
    assert(out@ =~= old(out)@ + fixed16_bytes(v@));
}

/// The name of a compressor, as written in a visual sample entry (32 bytes, zero-padded).
#[derive(Debug, Clone, PartialEq, Eq, Default)]
pub struct Compressor {
    name: String,
}

impl View for Compressor {
    type V = Seq<char>;

    closed spec fn view(&self) -> Seq<char> {
        self.name@
    }
}

/// The bytes left once the zero bytes at the end are dropped.
pub open spec fn trim_zeros(b: Seq<u8>) -> Seq<u8>
    decreases b.len(),
{
    if b.len() > 0 && b.last() == 0 {
        trim_zeros(b.drop_last())
    } else {
        b
    }
}

/// What decoding a compressor name at `pos` gives: the 32 bytes without the zero bytes at
/// their end, read as UTF-8 with each invalid sequence replaced.
pub open spec fn spec_decode_compressor(s: Seq<u8>, pos: int) -> Result<Seq<char>, Error> {
    if pos + 32 > s.len() {
        Err(Error::OutOfBounds)
    } else {
        Ok(from_utf8_lossy(trim_zeros(s.subrange(pos, pos + 32))))
    }
}

/// The 32 bytes of a compressor name: at most 31 bytes of its UTF-8 encoding, then zeros.
pub open spec fn compressor_bytes(c: Seq<char>) -> Seq<u8> {
    let e = encode_utf8(c);
    let m = if e.len() < 31 {
        e.len() as int
    } else {
        31
    };
    e.subrange(0, m) + Seq::new((32 - m) as nat, |k: int| 0u8)
}

/// A name of at most 31 bytes whose encoding does not end in a zero byte comes back unchanged.
pub open spec fn compressor_keeps(c: Seq<char>) -> bool {
    let e = encode_utf8(c);
    e.len() <= 31 && (e.len() == 0 || e.last() != 0)
}

impl Compressor {
    /// The name.
    pub fn as_str(&self) -> (r: &str)
        ensures
            r@ == self@,
    {
        self.name.as_str()
    }

    /// Decodes a compressor name at `pos`.
    pub fn decode_at(buf: &[u8], pos: usize) -> (r: Result<Compressor, Error>)
        ensures
            r matches Ok(v) ==> spec_decode_compressor(buf@, pos as int) == Ok::<Seq<char>, Error>(
                v@,
            ),
            r matches Err(e) ==> spec_decode_compressor(buf@, pos as int) == Err::<Seq<char>, Error>(
                e,
            ),
    {
        let raw = read_bytes(buf, pos, 32)?;
        assert(raw@.subrange(0, 32) =~= raw@);
        let mut n: usize = 32;
        while n > 0 && raw[n - 1] == 0
            invariant
                n <= 32,
                raw@.len() == 32,
                trim_zeros(raw@) == trim_zeros(raw@.subrange(0, n as int)),
            decreases n,
        {
            assert(raw@.subrange(0, n as int).drop_last() =~= raw@.subrange(0, n - 1));
            n = n - 1;
        }
        let kept = vstd::slice::slice_subrange(raw.as_slice(), 0, n);
        let name = string_from_utf8_lossy(kept);
        Ok(Compressor { name })
    }

    /// Appends the 32 bytes of this compressor name.
    pub fn encode(&self, out: &mut Vec<u8>)
        ensures
            final(out)@ == old(out)@ + compressor_bytes(self@),
    {
        let name = self.name.as_str().as_bytes();
        let max = if name.len() < 31 {
            name.len()
        } else {
            31
        };
        let mut i: usize = 0;
        while i < max
            invariant
                i <= max <= name@.len(),
                max <= 31,
                out@ == old(out)@ + name@.subrange(0, i as int),
            decreases max - i,
        {
            out.push(name[i]);
            i = i + 1;
            assert(out@ =~= old(out)@ + name@.subrange(0, i as int));
        }
        let mut k: usize = max;
        while k < 32
            invariant
                max <= k <= 32,
                out@ == old(out)@ + name@.subrange(0, max as int) + Seq::new(
                    (k - max) as nat,
                    |j: int| 0u8,
                ),
            decreases 32 - k,
        {
            out.push(0);
            k = k + 1;
            assert(out@ =~= old(out)@ + name@.subrange(0, max as int) + Seq::new(
                (k - max) as nat,
                |j: int| 0u8,
            ));
        }
        assert(out@ =~= old(out)@ + compressor_bytes(self@));
    }

    /// A kept name decodes back from its 32 bytes.
    pub proof fn lemma_roundtrip(c: Seq<char>, p: Seq<u8>, q: Seq<u8>)
        requires
            compressor_keeps(c),
        ensures
            spec_decode_compressor(p + compressor_bytes(c) + q, p.len() as int) == Ok::<
                Seq<char>,
                Error,
            >(c),
    {
        let e = encode_utf8(c);
        let b = compressor_bytes(c);
        let s = p + b + q;
        assert(s.subrange(p.len() as int, p.len() + 32int) =~= b);
        assert(b.subrange(0, e.len() as int) =~= e);
        lemma_trim_zeros_pad(e, (32 - e.len()) as nat);
        assert(b =~= e + Seq::new((32 - e.len()) as nat, |k: int| 0u8));
        vstd::utf8::encode_utf8_valid_utf8(c);
        vstd::utf8::encode_utf8_decode_utf8(c);
    }
}

/// Dropping the zeros at the end of bytes padded with zeros gives the bytes, if they do not end
/// in a zero themselves.
pub proof fn lemma_trim_zeros_pad(e: Seq<u8>, n: nat)
    requires
        e.len() == 0 || e.last() != 0,
    ensures
        trim_zeros(e + Seq::new(n, |k: int| 0u8)) == e,
    decreases n,
{
    let z = Seq::new(n, |k: int| 0u8);
    if n == 0 {
        assert(e + z =~= e);
    } else {
        let z1 = Seq::new((n - 1) as nat, |k: int| 0u8);
        assert((e + z).drop_last() =~= e + z1);
        lemma_trim_zeros_pad(e, (n - 1) as nat);
    }
}

impl FromSpecImpl<&str> for Compressor {
    open spec fn obeys_from_spec() -> bool {
        false
    }

    open spec fn from_spec(v: &str) -> Compressor {
        arbitrary()
    }
}

impl FromSpecImpl<String> for Compressor {
    open spec fn obeys_from_spec() -> bool {
        false
    }

    open spec fn from_spec(v: String) -> Compressor {
        arbitrary()
    }
}

impl FromSpecImpl<Compressor> for String {
    open spec fn obeys_from_spec() -> bool {
        false
    }

    open spec fn from_spec(v: Compressor) -> String {
        arbitrary()
    }
}

impl From<&str> for Compressor {
    fn from(value: &str) -> (r: Self)
        ensures
            r@ == value@,
    {
        Compressor { name: value.to_owned() }
    }
}

impl From<String> for Compressor {
    fn from(value: String) -> (r: Self)
        ensures
            r@ == value@,
    {
        Compressor { name: value }
    }
}

impl From<Compressor> for String {
    fn from(value: Compressor) -> (r: String)
        ensures
            r@ == value@,
    {
        value.name
    }
}

} // verus!
