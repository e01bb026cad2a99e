use vstd::prelude::*;

use crate::atom::Atom;
use crate::codec::{be16, be16_at, be32, group_codec, put_u16, put_u32, read_u16, read_u32};
use crate::error::Error;
use crate::fourcc::FourCC;
use crate::text::{
    cstring_bytes, cstring_keeps, decode_cstring, language_chars, language_code,
    language_code_of, language_keeps, language_string, lemma_cstring_roundtrip,
    lemma_language_roundtrip, put_cstring, spec_decode_cstring,
};

verus! {

broadcast use group_codec;

/// Copyright box (`cprt`): a copyright notice and the language it is written in.
#[derive(Debug, Clone, PartialEq, Eq, Default)]
pub struct Cprt {
    pub language: String,
    pub notice: String,
}

impl View for Cprt {
    /// The language, then the notice.
    type V = (Seq<char>, Seq<char>);

    open spec fn view(&self) -> (Seq<char>, Seq<char>) {
        (self.language@, self.notice@)
    }
}

impl Atom for Cprt {
    open spec fn spec_kind() -> u32 {
        0x63707274
    }

    fn kind() -> (k: FourCC) {
        FourCC::from_u32(0x63707274)
    }

    /// Version and flags (ignored), a packed language code, then a zero-terminated notice.
    open spec fn spec_decode_body(s: Seq<u8>) -> Result<(Self::V, int), Error> {
        if s.len() < 6 {
            Err(Error::OutOfBounds)
        } else {
            match spec_decode_cstring(s, 6) {
                Err(e) => Err(e),
                Ok((notice, n)) => Ok(((language_chars(be16_at(s, 4)), notice), n)),
            }
        }
    }

    open spec fn spec_encode_body(v: Self::V) -> Result<Seq<u8>, Error> {
        Ok(be32(0) + be16(language_code_of(v.0)) + cstring_bytes(v.1))
    }

    /// A language of three characters from U+0060 to U+007F, and a notice without a zero byte.
    open spec fn spec_keeps(v: Self::V) -> bool {
        language_keeps(v.0) && cstring_keeps(v.1)
    }

    fn decode_body(buf: &[u8]) -> (r: Result<(Self, usize), Error>) {
        let _ext = read_u32(buf, 0)?;
        let code = read_u16(buf, 4)?;
        let language = language_string(code);
        let (notice, n) = decode_cstring(buf, 6)?;
        Ok((Cprt { language, notice }, n))
    }

    fn encode_body(&self, out: &mut Vec<u8>) -> (r: Result<(), Error>) {
        put_u32(out, 0);
        put_u16(out, language_code(self.language.as_str()));
        put_cstring(out, self.notice.as_str());
        assert(out@ =~= old(out)@ + Self::spec_encode_body(self@)->Ok_0);
        Ok(())
    }

    proof fn lemma_body_roundtrip(v: Self::V) {
        let p = be32(0) + be16(language_code_of(v.0));
        lemma_cstring_roundtrip(p, v.1, Seq::empty());
        assert(p + cstring_bytes(v.1) + Seq::<u8>::empty() =~= Self::spec_encode_body(v)->Ok_0);
        lemma_language_roundtrip(v.0);
    }
}

} // verus!
