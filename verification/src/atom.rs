use vstd::prelude::*;
use vstd::slice::slice_subrange;

use crate::codec::{be32, be32_at, be64, be64_at, lemma_be32, lemma_be32_at, put_bytes, put_u32, put_u64, read_u32, read_u64};
use crate::error::Error;
use crate::fourcc::FourCC;

verus! {

/// The header in front of every atom: its type, and the size of its body.
///
/// `size` is `None` when the atom extends to the end of its container.
#[derive(Debug, Clone, Copy, PartialEq, Eq)]
pub struct Header {
    pub kind: FourCC,
    pub size: Option<usize>,
}

/// What decoding a header gives: the header and the number of bytes it took.
///
/// A 32-bit size of 0 means "to the end"; a size of 1 means that a 64-bit size follows.
/// Both sizes count the header itself.
pub open spec fn spec_decode_header(s: Seq<u8>) -> Result<(Header, int), Error> {
    if s.len() < 8 {
        Err(Error::OutOfBounds)
    } else {
        let size = be32_at(s, 0);
        let kind = FourCC { code: be32_at(s, 4) };
        if size == 0 {
            Ok((Header { kind, size: None }, 8))
        } else if size == 1 {
            if s.len() < 16 {
                Err(Error::OutOfBounds)
            } else if be64_at(s, 8) < 16 {
                Err(Error::InvalidSize)
            } else {
                Ok((Header { kind, size: Some((be64_at(s, 8) - 16) as usize) }, 16))
            }
        } else if size < 8 {
            Err(Error::InvalidSize)
        } else {
            Ok((Header { kind, size: Some((size - 8) as usize) }, 8))
        }
    }
}

/// The bytes of a header with a 32-bit size for a body of `body_len` bytes.
pub open spec fn header_bytes(kind: u32, body_len: int) -> Seq<u8> {
    be32((body_len + 8) as u32) + be32(kind)
}

/// The bytes of a header: a 32-bit size where it fits, else a 64-bit one, or 0 for "to the end".
pub open spec fn spec_encode_header(h: Header) -> Result<Seq<u8>, Error> {
    match h.size {
        None => Ok(be32(0) + be32(h.kind.code)),
        Some(n) => if n + 8 <= u32::MAX {
            Ok(be32((n + 8) as u32) + be32(h.kind.code))
        } else if n + 16 <= u64::MAX {
            Ok(be32(1) + be32(h.kind.code) + be64((n + 16) as u64))
        } else {
            Err(Error::TooLarge(h.kind))
        },
    }
}

impl Header {
    /// Decodes a header at the start of `buf`, giving it and the number of bytes it took.
    pub fn decode_prefix(buf: &[u8]) -> (r: Result<(Header, usize), Error>)
        ensures
            r matches Ok((h, n)) ==> spec_decode_header(buf@) == Ok::<(Header, int), Error>(
                (h, n as int),
            ),
            r matches Err(e) ==> spec_decode_header(buf@) == Err::<(Header, int), Error>(e),
    {
        let size = read_u32(buf, 0)?;
        let code = read_u32(buf, 4)?;
        let kind = FourCC::from_u32(code);
        if size == 0 {
            Ok((Header { kind, size: None }, 8))
        } else if size == 1 {
            let large = read_u64(buf, 8)?;
            if large < 16 {
                Err(Error::InvalidSize)
            } else {
                Ok((Header { kind, size: Some((large - 16) as usize) }, 16))
            }
        } else if size < 8 {
            Err(Error::InvalidSize)
        } else {
            Ok((Header { kind, size: Some((size - 8) as usize) }, 8))
        }
    }

    /// Appends the bytes of this header.
    pub fn encode(&self, out: &mut Vec<u8>) -> (r: Result<(), Error>)
        ensures
            spec_encode_header(*self) matches Ok(b) ==> r is Ok && final(out)@ == old(out)@ + b,
            spec_encode_header(*self) matches Err(e) ==> r == Err::<(), Error>(e)
                && final(out)@ == old(out)@,
    {
        match self.size {
            None => {
                put_u32(out, 0);
                put_u32(out, self.kind.code);
                Ok(())
            },
            Some(n) => {
                if n <= 4294967287 {
                    put_u32(out, (n + 8) as u32);
                    put_u32(out, self.kind.code);
                    Ok(())
                } else if (n as u64) <= 18446744073709551599 {
                    put_u32(out, 1);
                    put_u32(out, self.kind.code);
                    put_u64(out, n as u64 + 16);
                    Ok(())
                } else {
                    Err(Error::TooLarge(self.kind))
                }
            },
        }
    }

    /// The number of bytes of this header: 8, or 16 when a 64-bit size is needed.
    pub fn encode_size(&self) -> (r: usize)
        ensures
            spec_encode_header(*self) matches Ok(b) ==> r == b.len(),
            r == 8 || r == 16,
    {
        proof {
            lemma_be32(0);
            lemma_be32(1);
            lemma_be32(self.kind.code);
            if let Some(n) = self.size {
                lemma_be32((n + 8) as u32);
                crate::codec::lemma_be64((n + 16) as u64);
            }
        }
        match self.size {
            None => 8,
            Some(n) => if n <= 4294967287 {
                8
            } else {
                16
            },
        }
    }

    /// Decodes a header if at least 8 bytes are left, else gives `None`.
    pub fn decode_maybe(buf: &[u8]) -> (r: Result<Option<(Header, usize)>, Error>)
        ensures
            buf@.len() < 8 ==> r == Ok::<Option<(Header, usize)>, Error>(None),
            buf@.len() >= 8 ==> (r matches Ok(Some((h, n))) ==> spec_decode_header(buf@) == Ok::<
                (Header, int),
                Error,
            >((h, n as int))),
            buf@.len() >= 8 ==> (r matches Err(e) ==> spec_decode_header(buf@) == Err::<
                (Header, int),
                Error,
            >(e)),
            buf@.len() >= 8 ==> !(r matches Ok(None)),
    {
        if buf.len() < 8 {
            return Ok(None);
        }
        let (h, n) = Header::decode_prefix(buf)?;
        Ok(Some((h, n)))
    }
}

/// An atom (an ISO base media file format box): a header, then a body that this type knows.
///
/// `Self::V` is the mathematical value of an atom; the contracts speak of it.
pub trait Atom: View + Sized {
    /// The big-endian code of this atom's type.
    spec fn spec_kind() -> u32;

    /// The type code of this atom.
    fn kind() -> (k: FourCC)
        ensures
            k.code == Self::spec_kind(),
    ;

    /// What decoding a body gives: the value and the number of bytes used, or an error.
    spec fn spec_decode_body(s: Seq<u8>) -> Result<(Self::V, int), Error>;

    /// What encoding a value as a body gives: its bytes, or an error.
    spec fn spec_encode_body(v: Self::V) -> Result<Seq<u8>, Error>;

    /// The values that come back unchanged from their own encoding.
    spec fn spec_keeps(v: Self::V) -> bool;

    /// Decodes a body from the start of `buf`, giving the value and the number of bytes used.
    fn decode_body(buf: &[u8]) -> (r: Result<(Self, usize), Error>)
        ensures
            r matches Ok((v, n)) ==> Self::spec_decode_body(buf@) == Ok::<(Self::V, int), Error>(
                (v@, n as int),
            ),
            r matches Err(e) ==> Self::spec_decode_body(buf@) == Err::<(Self::V, int), Error>(e),
    ;

    /// Appends the bytes of the body of this atom.
    fn encode_body(&self, out: &mut Vec<u8>) -> (r: Result<(), Error>)
        ensures
            Self::spec_encode_body(self@) matches Ok(b) ==> r is Ok && final(out)@ == old(out)@
                + b,
            Self::spec_encode_body(self@) matches Err(e) ==> r == Err::<(), Error>(e),
    ;

    /// A body decodes back to the value it was encoded from.
    proof fn lemma_body_roundtrip(v: Self::V)
        requires
            Self::spec_keeps(v),
            Self::spec_encode_body(v) is Ok,
        ensures
            ({
                let b = Self::spec_encode_body(v)->Ok_0;
                Self::spec_decode_body(b) == Ok::<(Self::V, int), Error>((v, b.len() as int))
            }),
    ;
}

/// What decoding a whole atom of type `T` gives: its value and the number of bytes it took.
///
/// The header must name `T`; the body must fit in what is left; the body decoder must use
/// exactly the body. A body decoder that runs out of bytes makes an `OverDecode` error.
pub open spec fn spec_decode_atom<T: Atom>(s: Seq<u8>) -> Result<(T::V, int), Error> {
    match spec_decode_header(s) {
        Err(e) => Err(e),
        Ok((h, hl)) => if h.kind.code != T::spec_kind() {
            Err(Error::UnexpectedBox(h.kind))
        } else {
            let size = match h.size {
                Some(n) => n as int,
                None => s.len() - hl,
            };
            if size > s.len() - hl {
                Err(Error::OutOfBounds)
            } else {
                match T::spec_decode_body(s.subrange(hl, hl + size)) {
                    Ok((v, n)) => if n < size {
                        Err(Error::UnderDecode(h.kind))
                    } else {
                        Ok((v, hl + size))
                    },
                    Err(Error::OutOfBounds) => Err(Error::OverDecode(h.kind)),
                    Err(e) => Err(e),
                }
            }
        },
    }
}

/// What encoding a whole atom of type `T` gives: a header with a 32-bit size, then the body.
pub open spec fn spec_encode_atom<T: Atom>(v: T::V) -> Result<Seq<u8>, Error> {
    match T::spec_encode_body(v) {
        Err(e) => Err(e),
        Ok(b) => if b.len() + 8 > u32::MAX {
            Err(Error::TooLarge(FourCC { code: T::spec_kind() }))
        } else {
            Ok(header_bytes(T::spec_kind(), b.len() as int) + b)
        },
    }
}

/// A value that can be decoded from the front of a byte sequence.
pub trait Decode: View + Sized {
    /// What decoding from the front of `s` gives: the value and the number of bytes it took.
    spec fn spec_decode(s: Seq<u8>) -> Result<(Self::V, int), Error>;

    /// Decodes a value from the start of `buf`, giving it and the number of bytes it took.
    fn decode_prefix(buf: &[u8]) -> (r: Result<(Self, usize), Error>)
        ensures
            r matches Ok((v, n)) ==> Self::spec_decode(buf@) == Ok::<(Self::V, int), Error>(
                (v@, n as int),
            ) && n <= buf@.len(),
            r matches Err(e) ==> Self::spec_decode(buf@) == Err::<(Self::V, int), Error>(e),
    ;

    /// Decodes a value that must take exactly the first `size` bytes of `buf`, and moves
    /// `buf` past them: fewer bytes are `OutOfBounds`, a value that leaves some of them
    /// unused is a `ShortRead`.
    fn decode_exact(buf: &mut &[u8], size: usize) -> (r: Result<Self, Error>)
        ensures
            old(buf)@.len() < size ==> r == Err::<Self, Error>(Error::OutOfBounds),
            old(buf)@.len() >= size ==> match Self::spec_decode(old(buf)@.subrange(0, size as int)) {
                Err(e) => r == Err::<Self, Error>(e),
                Ok((w, n)) => if n < size {
                    r == Err::<Self, Error>(Error::ShortRead)
                } else {
                    r matches Ok(v) && v@ == w && final(buf)@ == old(buf)@.subrange(
                        size as int,
                        old(buf)@.len() as int,
                    )
                },
            },
    {
        if buf.len() < size {
            return Err(Error::OutOfBounds);
        }
        let part = slice_subrange(*buf, 0, size);
        let (v, n) = Self::decode_prefix(part)?;
        if n < size {
            return Err(Error::ShortRead);
        }
        let rest = slice_subrange(*buf, size, buf.len());
        *buf = rest;
        Ok(v)
    }

    /// Decodes a value from the front of `buf`, and moves `buf` past it.
    fn decode(buf: &mut &[u8]) -> (r: Result<Self, Error>)
        ensures
            r matches Ok(v) ==> (Self::spec_decode(old(buf)@) matches Ok((w, n)) && w == v@
                && final(buf)@ == old(buf)@.subrange(n, old(buf)@.len() as int)),
            r matches Err(e) ==> Self::spec_decode(old(buf)@) == Err::<(Self::V, int), Error>(e),
    {
        let (v, n) = Self::decode_prefix(*buf)?;
        let rest = slice_subrange(*buf, n, buf.len());
        *buf = rest;
        Ok(v)
    }
}

/// A value that can be appended to a byte vector.
pub trait Encode: View {
    /// What encoding `v` gives: its bytes, or an error.
    spec fn spec_encode(v: Self::V) -> Result<Seq<u8>, Error>;

    /// Appends the bytes of this value; on an error nothing is appended.
    fn encode(&self, out: &mut Vec<u8>) -> (r: Result<(), Error>)
        ensures
            Self::spec_encode(self@) matches Ok(b) ==> r is Ok && final(out)@ == old(out)@ + b,
            Self::spec_encode(self@) matches Err(e) ==> r == Err::<(), Error>(e) && final(out)@
                == old(out)@,
    ;
}

impl<T: Atom> Decode for T {
    open spec fn spec_decode(s: Seq<u8>) -> Result<(T::V, int), Error> {
        spec_decode_atom::<T>(s)
    }

    fn decode_prefix(buf: &[u8]) -> (r: Result<(T, usize), Error>) {
        decode_atom::<T>(buf)
    }
}

impl<T: Atom> Encode for T {
    open spec fn spec_encode(v: T::V) -> Result<Seq<u8>, Error> {
        spec_encode_atom::<T>(v)
    }

    fn encode(&self, out: &mut Vec<u8>) -> (r: Result<(), Error>) {
        encode_atom::<T>(self, out)
    }
}

/// Decodes a whole atom of type `T` from the start of `buf`.
pub fn decode_atom<T: Atom>(buf: &[u8]) -> (r: Result<(T, usize), Error>)
    ensures
        r matches Ok((v, n)) ==> spec_decode_atom::<T>(buf@) == Ok::<(T::V, int), Error>(
            (v@, n as int),
        ) && n <= buf@.len(),
        r matches Err(e) ==> spec_decode_atom::<T>(buf@) == Err::<(T::V, int), Error>(e),
{
    let (h, hl) = Header::decode_prefix(buf)?;
    let kind = T::kind();
    if !h.kind.same(&kind) {
        return Err(Error::UnexpectedBox(h.kind));
    }
    let rest = buf.len() - hl;
    let size = match h.size {
        Some(n) => n,
        None => rest,
    };
    if size > rest {
        return Err(Error::OutOfBounds);
    }
    let body = slice_subrange(buf, hl, hl + size);
    match T::decode_body(body) {
        Ok((v, n)) => {
            if n < size {
                Err(Error::UnderDecode(h.kind))
            } else {
                Ok((v, hl + size))
            }
        },
        Err(Error::OutOfBounds) => Err(Error::OverDecode(h.kind)),
        Err(e) => Err(e),
    }
}

/// What decoding the body of an atom of type `T` gives, once its header `h` was read: the
/// header must name `T`, and the body decoder must use exactly the body.
pub open spec fn spec_decode_atom_body<T: Atom>(h: Header, body: Seq<u8>) -> Result<T::V, Error> {
    if h.kind.code != T::spec_kind() {
        Err(Error::UnexpectedBox(h.kind))
    } else {
        match T::spec_decode_body(body) {
            Ok((v, n)) => if n < body.len() {
                Err(Error::UnderDecode(h.kind))
            } else {
                Ok(v)
            },
            Err(Error::OutOfBounds) => Err(Error::OverDecode(h.kind)),
            Err(e) => Err(e),
        }
    }
}

/// Decodes the body of an atom of type `T` whose header `h` was already read.
pub fn decode_atom_body<T: Atom>(h: Header, body: &[u8]) -> (r: Result<T, Error>)
    ensures
        r matches Ok(v) ==> spec_decode_atom_body::<T>(h, body@) == Ok::<T::V, Error>(v@),
        r matches Err(e) ==> spec_decode_atom_body::<T>(h, body@) == Err::<T::V, Error>(e),
{
    let kind = T::kind();
    if !h.kind.same(&kind) {
        return Err(Error::UnexpectedBox(h.kind));
    }
    match T::decode_body(body) {
        Ok((v, n)) => {
            if n < body.len() {
                Err(Error::UnderDecode(h.kind))
            } else {
                Ok(v)
            }
        },
        Err(Error::OutOfBounds) => Err(Error::OverDecode(h.kind)),
        Err(e) => Err(e),
    }
}

/// Appends a whole atom of type `T`; on an error nothing is appended.
pub fn encode_atom<T: Atom>(v: &T, out: &mut Vec<u8>) -> (r: Result<(), Error>)
    ensures
        spec_encode_atom::<T>(v@) matches Ok(b) ==> r is Ok && final(out)@ == old(out)@ + b,
        spec_encode_atom::<T>(v@) matches Err(e) ==> r == Err::<(), Error>(e) && final(out)@
            == old(out)@,
{
    let mut body: Vec<u8> = Vec::new();
    v.encode_body(&mut body)?;
    assert(body@ == T::spec_encode_body(v@)->Ok_0);
    if body.len() > 4294967287 {
        return Err(Error::TooLarge(T::kind()));
    }
    put_u32(out, (body.len() + 8) as u32);
    put_u32(out, T::kind().code);
    put_bytes(out, body.as_slice());
    assert(out@ =~= old(out)@ + (header_bytes(T::spec_kind(), body@.len() as int) + body@));
    Ok(())
}

/// An atom decodes back to the value it was encoded from, using all of its bytes.
pub proof fn lemma_atom_roundtrip<T: Atom>(v: T::V, rest: Seq<u8>)
    requires
        T::spec_keeps(v),
        spec_encode_atom::<T>(v) is Ok,
    ensures
        ({
            let b = spec_encode_atom::<T>(v)->Ok_0;
            spec_decode_atom::<T>(b + rest) == Ok::<(T::V, int), Error>((v, b.len() as int))
        }),
{
    let body = T::spec_encode_body(v)->Ok_0;
    T::lemma_body_roundtrip(v);
    let b = spec_encode_atom::<T>(v)->Ok_0;
    let s = b + rest;
    let size = (body.len() + 8) as u32;
    lemma_be32(size);
    lemma_be32(T::spec_kind());
    assert(s.subrange(0, 4) =~= be32(size));
    assert(s.subrange(4, 8) =~= be32(T::spec_kind()));
    lemma_be32_at(s, 0, size);
    lemma_be32_at(s, 4, T::spec_kind());
    assert(s.subrange(8, 8 + body.len() as int) =~= body);
}

/// A header written with a 32-bit size decodes back, whatever follows it.
pub proof fn lemma_header_roundtrip(kind: u32, body: Seq<u8>, rest: Seq<u8>)
    requires
        body.len() + 8 <= u32::MAX,
    ensures
        spec_decode_header(header_bytes(kind, body.len() as int) + body + rest) == Ok::<
            (Header, int),
            Error,
        >((Header { kind: FourCC { code: kind }, size: Some(body.len() as usize) }, 8)),
{
    let s = header_bytes(kind, body.len() as int) + body + rest;
    let size = (body.len() + 8) as u32;
    lemma_be32(size);
    lemma_be32(kind);
    assert(s.subrange(0, 4) =~= be32(size));
    assert(s.subrange(4, 8) =~= be32(kind));
    lemma_be32_at(s, 0, size);
    lemma_be32_at(s, 4, kind);
}

/// A header decodes back from its bytes, whatever follows them: with a 32-bit size, a
/// 64-bit size, or a size of 0 for "to the end".
pub proof fn lemma_header_encode_roundtrip(h: Header, rest: Seq<u8>)
    requires
        spec_encode_header(h) is Ok,
    ensures
        spec_decode_header(spec_encode_header(h)->Ok_0 + rest) == Ok::<(Header, int), Error>(
            (h, spec_encode_header(h)->Ok_0.len() as int),
        ),
{
    let b = spec_encode_header(h)->Ok_0;
    let s = b + rest;
    lemma_be32(h.kind.code);
    match h.size {
        None => {
            lemma_be32(0);
            assert(s.subrange(0, 4) =~= be32(0));
            assert(s.subrange(4, 8) =~= be32(h.kind.code));
            lemma_be32_at(s, 0, 0);
            lemma_be32_at(s, 4, h.kind.code);
        },
        Some(n) => {
            if n + 8 <= u32::MAX {
                let size = (n + 8) as u32;
                lemma_be32(size);
                assert(s.subrange(0, 4) =~= be32(size));
                assert(s.subrange(4, 8) =~= be32(h.kind.code));
                lemma_be32_at(s, 0, size);
                lemma_be32_at(s, 4, h.kind.code);
            } else {
                let size = (n + 16) as u64;
                lemma_be32(1);
                crate::codec::lemma_be64(size);
                assert(s.subrange(0, 4) =~= be32(1));
                assert(s.subrange(4, 8) =~= be32(h.kind.code));
                assert(s.subrange(8, 16) =~= be64(size));
                lemma_be32_at(s, 0, 1);
                lemma_be32_at(s, 4, h.kind.code);
                crate::codec::lemma_be64_at(s, 8, size);
            }
        },
    }
    FourCC::lemma_code_eq(FourCC { code: h.kind.code }, h.kind);
}

/// An atom whose body always encodes, to fewer bytes than a 32-bit size can count, encodes.
pub proof fn lemma_encode_atom_small<T: Atom>(v: T::V)
    requires
        T::spec_encode_body(v) is Ok,
        T::spec_encode_body(v)->Ok_0.len() + 8 <= u32::MAX,
    ensures
        spec_encode_atom::<T>(v) is Ok,
{
}

} // verus!
