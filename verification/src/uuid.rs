use vstd::prelude::*;
use vstd::utf8::encode_utf8;

use crate::atom::Atom;
use crate::codec::{put_bytes, put_u8};
use crate::error::Error;
use crate::fourcc::FourCC;
use crate::text::{
    cstring_bytes, cstring_keeps, decode_cstring, lemma_cstring_roundtrip, put_cstring,
    spec_decode_cstring,
};

verus! {

/// The 16-byte extended type that names the content of a `uuid` box.
#[derive(Debug, Clone, Copy, PartialEq, Eq)]
pub struct ExtendedType {
    pub bytes: [u8; 16],
}

impl View for ExtendedType {
    type V = Seq<u8>;

    open spec fn view(&self) -> Seq<u8> {
        self.bytes@
    }
}

impl ExtendedType {
    /// The extended type made of these 16 bytes.
    pub fn new(bytes: [u8; 16]) -> (r: ExtendedType)
        ensures
            r@ == bytes@,
    {
        ExtendedType { bytes }
    }

    /// Whether two extended types have the same bytes.
    pub fn same(&self, other: &ExtendedType) -> (r: bool)
        ensures
            r == (self@ == other@),
    {
        let mut i: usize = 0;
        while i < 16
            invariant
                i <= 16,
                self@.len() == 16,
                other@.len() == 16,
                forall|k: int| 0 <= k < i ==> self@[k] == other@[k],
            decreases 16 - i,
        {
            if self.bytes[i] != other.bytes[i] {
                return false;
            }
            i = i + 1;
        }
        assert(self@ =~= other@);
        true
    }
}

/// The extended type of a C2PA manifest box: d8fec3d6-1b0e-483c-9297-5828877ec481.
pub open spec fn c2pa_type() -> Seq<u8> {
    seq![
        0xd8u8, 0xfe, 0xc3, 0xd6, 0x1b, 0x0e, 0x48, 0x3c, 0x92, 0x97, 0x58, 0x28, 0x87, 0x7e,
        0xc4, 0x81,
    ]
}

/// A box whose type is a 16-byte extended type, inside a `uuid` box.
pub trait UuidAtom: View + Sized {
    /// The extended type of this box.
    spec fn spec_extended_type() -> Seq<u8>;

    /// The extended type of this box.
    fn extended_type() -> (t: ExtendedType)
        ensures
            t@ == Self::spec_extended_type(),
    ;

    /// What decoding a body (after the extended type) gives: the value and the bytes used.
    spec fn spec_decode_uuid_body(s: Seq<u8>) -> Result<(Self::V, int), Error>;

    /// What encoding a value as a body (after the extended type) gives.
    spec fn spec_encode_uuid_body(v: Self::V) -> Result<Seq<u8>, Error>;

    /// Decodes a body from the start of `buf`.
    fn decode_uuid_body(buf: &[u8]) -> (r: Result<(Self, usize), Error>)
        ensures
            r matches Ok((v, n)) ==> Self::spec_decode_uuid_body(buf@) == Ok::<(Self::V, int), Error>(
                (v@, n as int),
            ),
            r matches Err(e) ==> Self::spec_decode_uuid_body(buf@) == Err::<(Self::V, int), Error>(e),
    ;

    /// Appends the body of this box.
    fn encode_uuid_body(&self, out: &mut Vec<u8>) -> (r: Result<(), Error>)
        ensures
            Self::spec_encode_uuid_body(self@) matches Ok(b) ==> r is Ok && final(out)@ == old(out)@
                + b,
            Self::spec_encode_uuid_body(self@) matches Err(e) ==> r == Err::<(), Error>(e),
    ;
}

/// C2PA manifest box (a `uuid` box): the purpose of the box and its data.
#[derive(Debug, Clone, PartialEq, Eq)]
pub struct C2pa {
    pub box_purpose: String,
    pub data: Vec<u8>,
}

impl View for C2pa {
    type V = (Seq<char>, Seq<u8>);

    open spec fn view(&self) -> (Seq<char>, Seq<u8>) {
        (self.box_purpose@, self.data@)
    }
}

impl UuidAtom for C2pa {
    open spec fn spec_extended_type() -> Seq<u8> {
        c2pa_type()
    }

    fn extended_type() -> (t: ExtendedType) {
        let t = ExtendedType {
            bytes: [
                0xd8, 0xfe, 0xc3, 0xd6, 0x1b, 0x0e, 0x48, 0x3c, 0x92, 0x97, 0x58, 0x28, 0x87, 0x7e,
                0xc4, 0x81,
            ],
        };
        assert(t@ =~= c2pa_type());
        t
    }

    /// Version 0 (else `UnknownVersion`) and flags (ignored), the purpose as a
    /// zero-terminated string, then the data to the end.
    open spec fn spec_decode_uuid_body(s: Seq<u8>) -> Result<((Seq<char>, Seq<u8>), int), Error> {
        if s.len() < 4 {
            Err(Error::OutOfBounds)
        } else if s[0] != 0 {
            Err(Error::UnknownVersion(s[0]))
        } else {
            match spec_decode_cstring(s, 4) {
                Err(e) => Err(e),
                Ok((p, q)) => Ok(((p, s.subrange(q, s.len() as int)), s.len() as int)),
            }
        }
    }

    /// Version and flags 0, the purpose with a zero terminator, then the data.
    open spec fn spec_encode_uuid_body(v: (Seq<char>, Seq<u8>)) -> Result<Seq<u8>, Error> {
        Ok(seq![0u8, 0, 0, 0] + cstring_bytes(v.0) + v.1)
    }

    fn decode_uuid_body(buf: &[u8]) -> (r: Result<(Self, usize), Error>) {
        if buf.len() < 4 {
            return Err(Error::OutOfBounds);
        }
        let version = buf[0];
        if version != 0 {
            return Err(Error::UnknownVersion(version));
        }
        let (box_purpose, q) = decode_cstring(buf, 4)?;
        let data = vstd::slice::slice_to_vec(vstd::slice::slice_subrange(buf, q, buf.len()));
        Ok((C2pa { box_purpose, data }, buf.len()))
    }

    fn encode_uuid_body(&self, out: &mut Vec<u8>) -> (r: Result<(), Error>) {
        let ghost start = out@;
        put_u8(out, 0);
        put_u8(out, 0);
        put_u8(out, 0);
        put_u8(out, 0);
        put_cstring(out, self.box_purpose.as_str());
        put_bytes(out, self.data.as_slice());
        assert(out@ =~= start + Self::spec_encode_uuid_body(self@)->Ok_0);
        Ok(())
    }
}

/// A `uuid` box: a C2PA manifest, or another extended type with its payload as bytes.
#[derive(Debug, Clone, PartialEq, Eq)]
pub enum Uuid {
    C2pa(C2pa),
    Unknown(ExtendedType, Vec<u8>),
}

/// The value of a `uuid` box.
pub enum UuidV {
    C2pa(Seq<char>, Seq<u8>),
    Unknown(Seq<u8>, Seq<u8>),
}

impl View for Uuid {
    type V = UuidV;

    open spec fn view(&self) -> UuidV {
        match self {
            Uuid::C2pa(c) => UuidV::C2pa(c.box_purpose@, c.data@),
            Uuid::Unknown(t, p) => UuidV::Unknown(t@, p@),
        }
    }
}

impl Atom for Uuid {
    open spec fn spec_kind() -> u32 {
        0x75756964
    }

    fn kind() -> (k: FourCC) {
        FourCC::from_u32(0x75756964)
    }

    /// The 16-byte extended type; a C2PA body follows the C2PA type, and the rest of the
    /// bytes are the payload of any other.
    open spec fn spec_decode_body(s: Seq<u8>) -> Result<(UuidV, int), Error> {
        if s.len() < 16 {
            Err(Error::OutOfBounds)
        } else if s.subrange(0, 16) == c2pa_type() {
            match C2pa::spec_decode_uuid_body(s.subrange(16, s.len() as int)) {
                Err(e) => Err(e),
                Ok((v, n)) => Ok((UuidV::C2pa(v.0, v.1), 16 + n)),
            }
        } else {
            Ok((UuidV::Unknown(s.subrange(0, 16), s.subrange(16, s.len() as int)), s.len() as int))
        }
    }

    /// The extended type, then the body.
    open spec fn spec_encode_body(v: UuidV) -> Result<Seq<u8>, Error> {
        match v {
            UuidV::C2pa(p, d) => Ok(c2pa_type() + C2pa::spec_encode_uuid_body((p, d))->Ok_0),
            UuidV::Unknown(t, p) => Ok(t + p),
        }
    }

    /// A C2PA purpose has no zero byte; another extended type has 16 bytes and is not the
    /// C2PA type.
    open spec fn spec_keeps(v: UuidV) -> bool {
        match v {
            UuidV::C2pa(p, _) => cstring_keeps(p),
            UuidV::Unknown(t, _) => t.len() == 16 && t != c2pa_type(),
        }
    }

    fn decode_body(buf: &[u8]) -> (r: Result<(Self, usize), Error>) {
        if buf.len() < 16 {
            return Err(Error::OutOfBounds);
        }
        let t = ExtendedType {
            bytes: [
                buf[0], buf[1], buf[2], buf[3], buf[4], buf[5], buf[6], buf[7], buf[8], buf[9],
                buf[10], buf[11], buf[12], buf[13], buf[14], buf[15],
            ],
        };
        assert(t@ =~= buf@.subrange(0, 16));
        let rest = vstd::slice::slice_subrange(buf, 16, buf.len());
        if t.same(&C2pa::extended_type()) {
            let (c, n) = C2pa::decode_uuid_body(rest)?;
            Ok((Uuid::C2pa(c), 16 + n))
        } else {
            let payload = vstd::slice::slice_to_vec(rest);
            Ok((Uuid::Unknown(t, payload), buf.len()))
        }
    }

    fn encode_body(&self, out: &mut Vec<u8>) -> (r: Result<(), Error>) {
        match self {
            Uuid::C2pa(c) => {
                let t = C2pa::extended_type();
                put_bytes(out, t.bytes.as_slice());
                c.encode_uuid_body(out)?;
            },
            Uuid::Unknown(t, p) => {
                put_bytes(out, t.bytes.as_slice());
                put_bytes(out, p.as_slice());
            },
        }
        Ok(())
    }

    proof fn lemma_body_roundtrip(v: UuidV) {
        match v {
            UuidV::C2pa(p, d) => {
                let b = seq![0u8, 0, 0, 0] + cstring_bytes(p) + d;
                let s = c2pa_type() + b;
                assert(s.subrange(0, 16) =~= c2pa_type());
                assert(s.subrange(16, s.len() as int) =~= b);
                lemma_cstring_roundtrip(seq![0u8, 0, 0, 0], p, d);
                let q: int = 4 + encode_utf8(p).len() as int + 1;
                assert(b.subrange(q, b.len() as int) =~= d);
            },
            UuidV::Unknown(t, p) => {
                let s = t + p;
                assert(s.subrange(0, 16) =~= t);
                assert(s.subrange(16, s.len() as int) =~= p);
            },
        }
    }
}

} // verus!
