use vstd::prelude::*;
use vstd::utf8::{decode_utf8, valid_utf8};

use crate::atom::Atom;
use crate::codec::{be32, be32_at, group_codec, put_u32, read_u32};
use crate::error::Error;
use crate::fourcc::FourCC;
use crate::text::{
    cstring_bytes, cstring_keeps, first_zero, lemma_cstring_roundtrip, lemma_first_zero,
    put_cstring, string_from_utf8,
};

verus! {

broadcast use group_codec;

/// Handler reference box (`hdlr`, ISO/IEC 14496-12, 8.4.3): the type of a media or metadata
/// handler, and a name for it.
#[derive(Debug, Clone, PartialEq, Eq)]
pub struct Hdlr {
    pub handler: FourCC,
    pub name: String,
}

impl View for Hdlr {
    type V = (FourCC, Seq<char>);

    open spec fn view(&self) -> (FourCC, Seq<char>) {
        (self.handler, self.name@)
    }
}

/// The bytes of a handler name that starts at `pos`: up to its zero terminator, or to the
/// end where there is none.
pub open spec fn name_bytes(s: Seq<u8>, pos: int) -> Seq<u8> {
    match first_zero(s, pos) {
        Some(i) => s.subrange(pos, i),
        None => s.subrange(pos, s.len() as int),
    }
}

impl Atom for Hdlr {
    open spec fn spec_kind() -> u32 {
        0x68646c72
    }

    fn kind() -> (k: FourCC) {
        FourCC::from_u32(0x68646c72)
    }

    /// Version and flags and a predefined word (ignored), the handler type, three reserved
    /// words (ignored), then the name in UTF-8 (else `InvalidString`) up to a zero byte or
    /// the end; whatever follows the name is ignored.
    open spec fn spec_decode_body(s: Seq<u8>) -> Result<((FourCC, Seq<char>), int), Error> {
        if s.len() < 24 {
            Err(Error::OutOfBounds)
        } else if valid_utf8(name_bytes(s, 24)) {
            Ok(((FourCC { code: be32_at(s, 8) }, decode_utf8(name_bytes(s, 24))), s.len() as int))
        } else {
            Err(Error::InvalidString)
        }
    }

    /// Zeros, the handler type, zeros, then the name with a zero terminator.
    open spec fn spec_encode_body(v: (FourCC, Seq<char>)) -> Result<Seq<u8>, Error> {
        Ok(be32(0) + be32(0) + be32(v.0.code) + be32(0) + be32(0) + be32(0) + cstring_bytes(v.1))
    }

    /// A name without a zero byte.
    open spec fn spec_keeps(v: (FourCC, Seq<char>)) -> bool {
        cstring_keeps(v.1)
    }

    fn decode_body(buf: &[u8]) -> (r: Result<(Self, usize), Error>) {
        if buf.len() < 24 {
            return Err(Error::OutOfBounds);
        }
        let code = read_u32(buf, 8)?;
        let mut i: usize = 24;
        let mut bytes: Vec<u8> = Vec::new();
        while i < buf.len() && buf[i] != 0
            invariant
                24 <= i <= buf@.len(),
                bytes@ == buf@.subrange(24, i as int),
                forall|k: int| 24 <= k < i ==> buf@[k] != 0,
            decreases buf@.len() - i,
        {
            bytes.push(buf[i]);
            i = i + 1;
            assert(bytes@ =~= buf@.subrange(24, i as int));
        }
        proof {
            lemma_first_zero(buf@, 24);
            if i < buf.len() {
                crate::text::lemma_first_zero_at(buf@, 24, i as int);
            }
        }
        match string_from_utf8(bytes) {
            Some(name) => Ok((Hdlr { handler: FourCC::from_u32(code), name }, buf.len())),
            None => Err(Error::InvalidString),
        }
    }

    fn encode_body(&self, out: &mut Vec<u8>) -> (r: Result<(), Error>) {
        let ghost start = out@;
        put_u32(out, 0);
        put_u32(out, 0);
        put_u32(out, self.handler.code);
        put_u32(out, 0);
        put_u32(out, 0);
        put_u32(out, 0);
        put_cstring(out, self.name.as_str());
        assert(out@ =~= start + Self::spec_encode_body(self@)->Ok_0);
        Ok(())
    }

    proof fn lemma_body_roundtrip(v: (FourCC, Seq<char>)) {
        let p = be32(0) + be32(0) + be32(v.0.code) + be32(0) + be32(0) + be32(0);
        let s = Self::spec_encode_body(v)->Ok_0;
        assert(p.len() == 24);
        lemma_cstring_roundtrip(p, v.1, Seq::empty());
        assert(p + cstring_bytes(v.1) + Seq::<u8>::empty() =~= s);
        assert(be32_at(s, 8) == v.0.code);
        FourCC::lemma_code_eq(FourCC { code: v.0.code }, v.0);
    }
}

} // verus!
