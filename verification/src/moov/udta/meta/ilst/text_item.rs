use vstd::prelude::*;

use crate::atom::Atom;
use crate::error::Error;
use crate::fourcc::FourCC;
use crate::text::{
    cstring_bytes, cstring_keeps, decode_cstring, lemma_cstring_roundtrip, put_cstring,
    spec_decode_cstring,
};

verus! {

/// Name box (`name`): a title, as a zero-terminated string.
#[derive(Debug, Clone, PartialEq, Eq)]
pub struct Name(pub String);

impl View for Name {
    type V = Seq<char>;

    open spec fn view(&self) -> Seq<char> {
        self.0@
    }
}

impl Atom for Name {
    open spec fn spec_kind() -> u32 {
        0x6e616d65
    }

    fn kind() -> (k: FourCC) {
        FourCC::from_u32(0x6e616d65)
    }

    /// A zero-terminated UTF-8 string.
    open spec fn spec_decode_body(s: Seq<u8>) -> Result<(Seq<char>, int), Error> {
        spec_decode_cstring(s, 0)
    }

    open spec fn spec_encode_body(v: Seq<char>) -> Result<Seq<u8>, Error> {
        Ok(cstring_bytes(v))
    }

    /// A string without a zero byte.
    open spec fn spec_keeps(v: Seq<char>) -> bool {
        cstring_keeps(v)
    }

    fn decode_body(buf: &[u8]) -> (r: Result<(Self, usize), Error>) {
        let (s, n) = decode_cstring(buf, 0)?;
        Ok((Name(s), n))
    }

    fn encode_body(&self, out: &mut Vec<u8>) -> (r: Result<(), Error>) {
        put_cstring(out, self.0.as_str());
        Ok(())
    }

    proof fn lemma_body_roundtrip(v: Seq<char>) {
        lemma_cstring_roundtrip(Seq::empty(), v, Seq::empty());
        assert(Seq::<u8>::empty() + cstring_bytes(v) + Seq::<u8>::empty() =~= cstring_bytes(v));
    }
}

/// Description box (`desc`): a summary, as a zero-terminated string.
#[derive(Debug, Clone, PartialEq, Eq)]
pub struct Desc(pub String);

impl View for Desc {
    type V = Seq<char>;

    open spec fn view(&self) -> Seq<char> {
        self.0@
    }
}

impl Atom for Desc {
    open spec fn spec_kind() -> u32 {
        0x64657363
    }

    fn kind() -> (k: FourCC) {
        FourCC::from_u32(0x64657363)
    }

    /// A zero-terminated UTF-8 string.
    open spec fn spec_decode_body(s: Seq<u8>) -> Result<(Seq<char>, int), Error> {
        spec_decode_cstring(s, 0)
    }

    open spec fn spec_encode_body(v: Seq<char>) -> Result<Seq<u8>, Error> {
        Ok(cstring_bytes(v))
    }

    /// A string without a zero byte.
    open spec fn spec_keeps(v: Seq<char>) -> bool {
        cstring_keeps(v)
    }

    fn decode_body(buf: &[u8]) -> (r: Result<(Self, usize), Error>) {
        let (s, n) = decode_cstring(buf, 0)?;
        Ok((Desc(s), n))
    }

    fn encode_body(&self, out: &mut Vec<u8>) -> (r: Result<(), Error>) {
        put_cstring(out, self.0.as_str());
        Ok(())
    }

    proof fn lemma_body_roundtrip(v: Seq<char>) {
        lemma_cstring_roundtrip(Seq::empty(), v, Seq::empty());
        assert(Seq::<u8>::empty() + cstring_bytes(v) + Seq::<u8>::empty() =~= cstring_bytes(v));
    }
}

/// Year box (`day `): a date, as a zero-terminated string.
#[derive(Debug, Clone, PartialEq, Eq)]
pub struct Year(pub String);

impl View for Year {
    type V = Seq<char>;

    open spec fn view(&self) -> Seq<char> {
        self.0@
    }
}

impl Atom for Year {
    open spec fn spec_kind() -> u32 {
        0x64617920
    }

    fn kind() -> (k: FourCC) {
        FourCC::from_u32(0x64617920)
    }

    /// A zero-terminated UTF-8 string.
    open spec fn spec_decode_body(s: Seq<u8>) -> Result<(Seq<char>, int), Error> {
        spec_decode_cstring(s, 0)
    }

    open spec fn spec_encode_body(v: Seq<char>) -> Result<Seq<u8>, Error> {
        Ok(cstring_bytes(v))
    }

    /// A string without a zero byte.
    open spec fn spec_keeps(v: Seq<char>) -> bool {
        cstring_keeps(v)
    }

    fn decode_body(buf: &[u8]) -> (r: Result<(Self, usize), Error>) {
        let (s, n) = decode_cstring(buf, 0)?;
        Ok((Year(s), n))
    }

    fn encode_body(&self, out: &mut Vec<u8>) -> (r: Result<(), Error>) {
        put_cstring(out, self.0.as_str());
        Ok(())
    }

    proof fn lemma_body_roundtrip(v: Seq<char>) {
        lemma_cstring_roundtrip(Seq::empty(), v, Seq::empty());
        assert(Seq::<u8>::empty() + cstring_bytes(v) + Seq::<u8>::empty() =~= cstring_bytes(v));
    }
}
} // verus!
