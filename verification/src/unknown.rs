use vstd::prelude::*;

use crate::atom::{
    lemma_header_encode_roundtrip, spec_decode_header, spec_encode_header, Decode, Encode, Header,
};
use crate::codec::put_bytes;
use crate::error::Error;
use crate::fourcc::FourCC;

verus! {

/// An atom of a type this library does not know: its type and its body as bytes.
#[derive(Debug, Clone, PartialEq, Eq)]
pub struct Unknown {
    pub kind: FourCC,
    pub data: Vec<u8>,
}

impl View for Unknown {
    type V = (FourCC, Seq<u8>);

    open spec fn view(&self) -> (FourCC, Seq<u8>) {
        (self.kind, self.data@)
    }
}

/// The number of body bytes an unknown atom takes: its size, or all that is left where the
/// size runs past the end or is not given.
pub open spec fn unknown_len(h: Header, left: int) -> int {
    match h.size {
        Some(n) => if n < left {
            n as int
        } else {
            left
        },
        None => left,
    }
}

impl Decode for Unknown {
    /// A header, then the body bytes.
    open spec fn spec_decode(s: Seq<u8>) -> Result<((FourCC, Seq<u8>), int), Error> {
        match spec_decode_header(s) {
            Err(e) => Err(e),
            Ok((h, hl)) => {
                let n = unknown_len(h, s.len() - hl);
                Ok(((h.kind, s.subrange(hl, hl + n)), hl + n))
            },
        }
    }

    fn decode_prefix(buf: &[u8]) -> (r: Result<(Unknown, usize), Error>) {
        let (h, hl) = Header::decode_prefix(buf)?;
        let left = buf.len() - hl;
        let n = match h.size {
            Some(n) => if n < left {
                n
            } else {
                left
            },
            None => left,
        };
        let data = vstd::slice::slice_to_vec(vstd::slice::slice_subrange(buf, hl, hl + n));
        Ok((Unknown { kind: h.kind, data }, hl + n))
    }
}

impl Encode for Unknown {
    /// A header for a body of the data's length, then the data.
    open spec fn spec_encode(v: (FourCC, Seq<u8>)) -> Result<Seq<u8>, Error> {
        match spec_encode_header(Header { kind: v.0, size: Some(v.1.len() as usize) }) {
            Err(e) => Err(e),
            Ok(h) => Ok(h + v.1),
        }
    }

    fn encode(&self, out: &mut Vec<u8>) -> (r: Result<(), Error>) {
        let h = Header { kind: self.kind, size: Some(self.data.len()) };
        let mut tmp: Vec<u8> = Vec::new();
        h.encode(&mut tmp)?;
        put_bytes(&mut tmp, self.data.as_slice());
        put_bytes(out, tmp.as_slice());
        Ok(())
    }
}

impl Unknown {
    /// The number of bytes this atom encodes to.
    pub fn encode_size(&self) -> (r: usize)
        requires
            self.data@.len() + 16 <= usize::MAX,
        ensures
            Unknown::spec_encode(self@) matches Ok(b) ==> r == b.len(),
    {
        let h = Header { kind: self.kind, size: Some(self.data.len()) };
        h.encode_size() + self.data.len()
    }
}

/// An unknown atom decodes back from its bytes, whatever follows them.
pub proof fn lemma_unknown_roundtrip(v: (FourCC, Seq<u8>), rest: Seq<u8>)
    requires
        v.1.len() <= usize::MAX,
        Unknown::spec_encode(v) is Ok,
    ensures
        Unknown::spec_decode(Unknown::spec_encode(v)->Ok_0 + rest) == Ok::<((FourCC, Seq<u8>), int), Error>(
            (v, Unknown::spec_encode(v)->Ok_0.len() as int),
        ),
{
    let h = Header { kind: v.0, size: Some(v.1.len() as usize) };
    let hb = spec_encode_header(h)->Ok_0;
    let s = hb + v.1 + rest;
    lemma_header_encode_roundtrip(h, v.1 + rest);
    assert(s =~= hb + (v.1 + rest));
    assert(s.subrange(hb.len() as int, hb.len() + v.1.len() as int) =~= v.1);
}

} // verus!
