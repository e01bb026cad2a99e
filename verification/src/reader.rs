use vstd::prelude::*;

use crate::atom::{Atom, Header};
use crate::codec::{be32_at, read_u32};
use crate::error::Error;
use crate::fourcc::FourCC;

verus! {

/// The header of the next top-level atom of a stream, with the reader that stands just
/// past it.
pub struct ReaderHeader<R> {
    pub reader: R,
    pub header: Header,
}

impl<R> ReaderHeader<R> {
    /// The header of the next atom, with the reader that stands past it.
    pub fn new(reader: R, header: Header) -> (r: ReaderHeader<R>)
        ensures
            r.header == header,
            r.reader == reader,
    {
        ReaderHeader { reader, header }
    }

    /// The type of the atom.
    pub fn kind(&self) -> (r: FourCC)
        ensures
            r == self.header.kind,
    {
        self.header.kind
    }

    /// The size of the atom's body; `None` means it extends to the end of the stream.
    pub fn size(&self) -> (r: Option<usize>)
        ensures
            r == self.header.size,
    {
        self.header.size
    }
}

/// How many bytes the next header takes, from the first bytes of the stream (up to eight):
/// none left is the end of the stream; fewer than eight is a `ShortRead`; a 32-bit size of 1
/// means that a 64-bit size follows, for sixteen bytes in all.
pub open spec fn spec_header_len(prefix: Seq<u8>) -> Result<Option<usize>, Error> {
    if prefix.len() == 0 {
        Ok(None)
    } else if prefix.len() < 8 {
        Err(Error::ShortRead)
    } else if be32_at(prefix, 0) == 1 {
        Ok(Some(16))
    } else {
        Ok(Some(8))
    }
}

/// How many bytes the next header takes, from the first bytes of the stream.
pub fn header_len(prefix: &[u8]) -> (r: Result<Option<usize>, Error>)
    ensures
        r == spec_header_len(prefix@),
{
    if prefix.len() == 0 {
        return Ok(None);
    }
    if prefix.len() < 8 {
        return Err(Error::ShortRead);
    }
    let size = read_u32(prefix, 0)?;
    if size == 1 {
        Ok(Some(16))
    } else {
        Ok(Some(8))
    }
}

/// Checks that at least `size` bytes (none when the size is not given) were read: fewer is
/// a `ShortRead`.
pub fn check_filled(have: usize, size: Option<usize>) -> (r: Result<(), Error>)
    ensures
        r is Ok <==> (match size {
            Some(n) => have >= n,
            None => true,
        }),
        r matches Err(e) ==> e == Error::ShortRead,
{
    match size {
        Some(n) => if have < n {
            Err(Error::ShortRead)
        } else {
            Ok(())
        },
        None => Ok(()),
    }
}

/// How many more bytes to read from the input to hold `limit` bytes, when `buffered` are
/// held already.
pub fn read_limit(limit: usize, buffered: usize) -> (r: usize)
    ensures
        r == if limit > buffered {
            limit - buffered
        } else {
            0
        },
{
    if limit > buffered {
        limit - buffered
    } else {
        0
    }
}

/// How to skip `size` bytes when `buffered` are held: how many to drop from what is held,
/// and how many more to read and drop from the input.
pub fn discard_split(buffered: usize, size: usize) -> (r: (usize, usize))
    ensures
        r.0 == if buffered < size {
            buffered
        } else {
            size
        },
        r.0 + r.1 == size,
{
    let taken = if buffered < size {
        buffered
    } else {
        size
    };
    (taken, size - taken)
}

/// Checks that `actual` bytes were skipped of the `wanted`: fewer is a `ShortRead`.
pub fn check_discarded(actual: u64, wanted: u64) -> (r: Result<(), Error>)
    ensures
        r is Ok <==> actual >= wanted,
        r matches Err(e) ==> e == Error::ShortRead,
{
    if actual < wanted {
        Err(Error::ShortRead)
    } else {
        Ok(())
    }
}

/// What decoding an atom of type `T` read from a stream gives, once its header `h` and its
/// body were read: the header must name `T`, and body bytes left over are a `ShortRead`.
pub open spec fn spec_decode_read_atom<T: Atom>(h: Header, body: Seq<u8>) -> Result<T::V, Error> {
    if h.kind.code != T::spec_kind() {
        Err(Error::UnexpectedBox(h.kind))
    } else {
        match T::spec_decode_body(body) {
            Err(e) => Err(e),
            Ok((v, n)) => if n < body.len() {
                Err(Error::ShortRead)
            } else {
                Ok(v)
            },
        }
    }
}

/// Decodes an atom of type `T` read from a stream, from its header and its body.
pub fn decode_read_atom<T: Atom>(h: Header, body: &[u8]) -> (r: Result<T, Error>)
    ensures
        r matches Ok(v) ==> spec_decode_read_atom::<T>(h, body@) == Ok::<T::V, Error>(v@),
        r matches Err(e) ==> spec_decode_read_atom::<T>(h, body@) == Err::<T::V, Error>(e),
{
    let kind = T::kind();
    if !h.kind.same(&kind) {
        return Err(Error::UnexpectedBox(h.kind));
    }
    let (v, n) = T::decode_body(body)?;
    if n < body.len() {
        return Err(Error::ShortRead);
    }
    Ok(v)
}

/// How many bytes a raw read of an atom's body may take into a buffer of `want` bytes,
/// when `remain` are left of the body (`None`: to the end of the stream).
pub fn raw_read_len(want: usize, remain: Option<usize>) -> (r: usize)
    ensures
        r == match remain {
            Some(n) => if want < n {
                want
            } else {
                n
            },
            None => want,
        },
{
    match remain {
        Some(n) => if want < n {
            want
        } else {
            n
        },
        None => want,
    }
}

/// What is left of an atom's body after a raw read of `n` bytes.
pub fn raw_remain_after(remain: Option<usize>, n: usize) -> (r: Option<usize>)
    requires
        remain matches Some(m) ==> n <= m,
    ensures
        r == match remain {
            Some(m) => Some((m - n) as usize),
            None => None,
        },
{
    match remain {
        Some(m) => Some(m - n),
        None => None,
    }
}

} // verus!
