use vstd::prelude::*;
use vstd::utf8::{decode_utf8, encode_utf8, valid_utf8};

use crate::atom::Atom;
use crate::codec::{
    be16, be16_at, be32, be32_at, group_codec, put_u16, put_u32, read_bytes, read_u16, read_u32,
};
use crate::error::Error;
use crate::fourcc::FourCC;
use crate::text::{
    cstring_bytes, language_chars, language_code, language_code_of, language_keeps,
    language_string, lemma_language_roundtrip, lemma_utf8_push_zero, put_cstring,
    string_from_utf8,
};

verus! {

broadcast use group_codec;

/// Rating box (`rtng`): a rating by some entity, under some criteria, in some language.
#[derive(Debug, Clone, PartialEq, Eq)]
pub struct Rtng {
    pub entity: FourCC,
    pub criteria: FourCC,
    pub language: String,
    pub rating_info: String,
}

impl View for Rtng {
    /// The entity, the criteria, the language, then the rating information.
    type V = (FourCC, FourCC, Seq<char>, Seq<char>);

    open spec fn view(&self) -> (FourCC, FourCC, Seq<char>, Seq<char>) {
        (self.entity, self.criteria, self.language@, self.rating_info@)
    }
}

/// The bytes without one trailing zero byte, if they end with one.
pub open spec fn trim_last_zero(b: Seq<u8>) -> Seq<u8> {
    if b.len() > 0 && b.last() == 0 {
        b.drop_last()
    } else {
        b
    }
}

/// What the rating information decodes to: all the remaining bytes as UTF-8, less one
/// trailing zero terminator; bytes that are not UTF-8 are an `InvalidSize` error.
pub open spec fn spec_decode_rating(b: Seq<u8>) -> Result<Seq<char>, Error> {
    if valid_utf8(b) {
        Ok(decode_utf8(trim_last_zero(b)))
    } else {
        Err(Error::InvalidSize)
    }
}

impl Atom for Rtng {
    open spec fn spec_kind() -> u32 {
        0x72746e67
    }

    fn kind() -> (k: FourCC) {
        FourCC::from_u32(0x72746e67)
    }

    /// Version and flags (ignored), the entity, the criteria, a packed language code, then
    /// the rating information up to the end of the body.
    open spec fn spec_decode_body(s: Seq<u8>) -> Result<(Self::V, int), Error> {
        if s.len() < 14 {
            Err(Error::OutOfBounds)
        } else {
            match spec_decode_rating(s.subrange(14, s.len() as int)) {
                Err(e) => Err(e),
                Ok(info) => Ok(
                    (
                        (
                            FourCC { code: be32_at(s, 4) },
                            FourCC { code: be32_at(s, 8) },
                            language_chars(be16_at(s, 12)),
                            info,
                        ),
                        s.len() as int,
                    ),
                ),
            }
        }
    }

    /// The rating information is written with a zero terminator.
    open spec fn spec_encode_body(v: Self::V) -> Result<Seq<u8>, Error> {
        Ok(
            be32(0) + be32(v.0.code) + be32(v.1.code) + be16(language_code_of(v.2)) + cstring_bytes(
                v.3,
            ),
        )
    }

    /// A language of three characters from U+0060 to U+007F; any rating information.
    open spec fn spec_keeps(v: Self::V) -> bool {
        language_keeps(v.2)
    }

    fn decode_body(buf: &[u8]) -> (r: Result<(Self, usize), Error>) {
        let _ext = read_u32(buf, 0)?;
        let entity = read_u32(buf, 4)?;
        let criteria = read_u32(buf, 8)?;
        let code = read_u16(buf, 12)?;
        let language = language_string(code);
        let n = buf.len();
        let ghost b = buf@.subrange(14, n as int);
        let rating_info = if n > 14 && buf[n - 1] == 0 {
            let bytes = read_bytes(buf, 14, n - 15)?;
            proof {
                lemma_utf8_push_zero(bytes@);
                assert(bytes@.push(0) =~= b);
                assert(trim_last_zero(b) =~= bytes@);
            }
            match string_from_utf8(bytes) {
                Some(s) => s,
                None => return Err(Error::InvalidSize),
            }
        } else {
            let bytes = read_bytes(buf, 14, n - 14)?;
            assert(bytes@ =~= trim_last_zero(b));
            match string_from_utf8(bytes) {
                Some(s) => s,
                None => return Err(Error::InvalidSize),
            }
        };
        Ok(
            (
                Rtng {
                    entity: FourCC::from_u32(entity),
                    criteria: FourCC::from_u32(criteria),
                    language,
                    rating_info,
                },
                n,
            ),
        )
    }

    fn encode_body(&self, out: &mut Vec<u8>) -> (r: Result<(), Error>) {
        put_u32(out, 0);
        put_u32(out, self.entity.code);
        put_u32(out, self.criteria.code);
        put_u16(out, language_code(self.language.as_str()));
        put_cstring(out, self.rating_info.as_str());
        assert(out@ =~= old(out)@ + Self::spec_encode_body(self@)->Ok_0);
        Ok(())
    }

    proof fn lemma_body_roundtrip(v: Self::V) {
        let b = Self::spec_encode_body(v)->Ok_0;
        let e = encode_utf8(v.3);
        lemma_language_roundtrip(v.2);
        assert(b.subrange(14, b.len() as int) =~= e.push(0));
        lemma_utf8_push_zero(e);
        vstd::utf8::encode_utf8_valid_utf8(v.3);
        vstd::utf8::encode_utf8_decode_utf8(v.3);
        assert(trim_last_zero(e.push(0)) =~= e);
    }
}

} // verus!
