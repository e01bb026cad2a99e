use vstd::prelude::*;

use crate::atom::Atom;
use crate::codec::{be32, group_codec, put_u32, read_u32};
use crate::error::Error;
use crate::fourcc::FourCC;
use crate::text::{
    cstring_bytes, cstring_keeps, decode_cstring, lemma_cstring_roundtrip, put_cstring,
    spec_decode_cstring,
};

verus! {

broadcast use group_codec;

/// Track kind box (`kind`): a role given as a scheme URI and a value in that scheme.
#[derive(Debug, Clone, PartialEq, Eq, Default)]
pub struct Kind {
    pub scheme_uri: String,
    pub value: String,
}

impl View for Kind {
    /// The scheme URI, then the value.
    type V = (Seq<char>, Seq<char>);

    open spec fn view(&self) -> (Seq<char>, Seq<char>) {
        (self.scheme_uri@, self.value@)
    }
}

impl Atom for Kind {
    open spec fn spec_kind() -> u32 {
        0x6b696e64
    }

    fn kind() -> (k: FourCC) {
        FourCC::from_u32(0x6b696e64)
    }

    /// Version and flags (ignored), then two zero-terminated strings.
    open spec fn spec_decode_body(s: Seq<u8>) -> Result<(Self::V, int), Error> {
        if s.len() < 4 {
            Err(Error::OutOfBounds)
        } else {
            match spec_decode_cstring(s, 4) {
                Err(e) => Err(e),
                Ok((scheme, n)) => match spec_decode_cstring(s, n) {
                    Err(e) => Err(e),
                    Ok((value, m)) => Ok(((scheme, value), m)),
                },
            }
        }
    }

    open spec fn spec_encode_body(v: Self::V) -> Result<Seq<u8>, Error> {
        Ok(be32(0) + cstring_bytes(v.0) + cstring_bytes(v.1))
    }

    /// Strings without a zero byte.
    open spec fn spec_keeps(v: Self::V) -> bool {
        cstring_keeps(v.0) && cstring_keeps(v.1)
    }

    fn decode_body(buf: &[u8]) -> (r: Result<(Self, usize), Error>) {
        let _ext = read_u32(buf, 0)?;
        let (scheme_uri, n) = decode_cstring(buf, 4)?;
        let (value, m) = decode_cstring(buf, n)?;
        Ok((Kind { scheme_uri, value }, m))
    }

    fn encode_body(&self, out: &mut Vec<u8>) -> (r: Result<(), Error>) {
        put_u32(out, 0);
        put_cstring(out, self.scheme_uri.as_str());
        put_cstring(out, self.value.as_str());
        assert(out@ =~= old(out)@ + Self::spec_encode_body(self@)->Ok_0);
        Ok(())
    }

    proof fn lemma_body_roundtrip(v: Self::V) {
        let p = be32(0);
        let b = Self::spec_encode_body(v)->Ok_0;
        lemma_cstring_roundtrip(p, v.0, cstring_bytes(v.1));
        assert(p + cstring_bytes(v.0) + cstring_bytes(v.1) =~= b);
        let p2 = p + cstring_bytes(v.0);
        lemma_cstring_roundtrip(p2, v.1, Seq::empty());
        assert(p2 + cstring_bytes(v.1) + Seq::<u8>::empty() =~= b);
    }
}

} // verus!
