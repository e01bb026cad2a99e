use vstd::prelude::*;

use crate::atom::{
    header_bytes, lemma_atom_roundtrip, spec_decode_atom, spec_decode_header, spec_encode_atom, Atom,
    Header,
};
use crate::codec::{be32, be32_at, lemma_be32, lemma_be32_at, put_u32, read_u32};
use crate::error::Error;

verus! {

/// The version in the first byte of the 32-bit version-and-flags word of a full box.
pub open spec fn ext_version(x: u32) -> u8 {
    (x / 16777216) as u8
}

/// The 24-bit flags of the version-and-flags word of a full box.
pub open spec fn ext_flags(x: u32) -> u32 {
    x % 16777216
}

/// The version-and-flags word made of a version and 24-bit flags.
pub open spec fn ext_word(version: u8, flags: u32) -> u32 {
    (version as int * 16777216 + flags % 16777216) as u32
}

/// Reads the version-and-flags word at `pos`, giving the version and the flags.
pub fn read_ext(buf: &[u8], pos: usize) -> (r: Result<(u8, u32), Error>)
    ensures
        pos + 4 <= buf@.len() ==> r == Ok::<(u8, u32), Error>(
            (ext_version(be32_at(buf@, pos as int)), ext_flags(be32_at(buf@, pos as int))),
        ),
        pos + 4 > buf@.len() ==> r == Err::<(u8, u32), Error>(Error::OutOfBounds),
{
    let x = read_u32(buf, pos)?;
    Ok(((x / 16777216) as u8, x % 16777216))
}

/// Appends a version-and-flags word.
pub fn put_ext(out: &mut Vec<u8>, version: u8, flags: u32)
    requires
        flags < 16777216,
    ensures
        final(out)@ == old(out)@ + be32(ext_word(version, flags)),
{
    put_u32(out, (version as u32) * 16777216 + flags);
}

/// The next child atom of a container: its header and its whole size, header included.
///
/// Fewer than 8 bytes left means no more children; a child that does not fit is an error.
pub open spec fn spec_next_child(s: Seq<u8>) -> Result<Option<(Header, int)>, Error> {
    if s.len() < 8 {
        Ok(None)
    } else {
        match spec_decode_header(s) {
            Err(e) => Err(e),
            Ok((h, hl)) => {
                let size = match h.size {
                    Some(n) => n as int,
                    None => s.len() - hl,
                };
                if size > s.len() - hl {
                    Err(Error::OutOfBounds)
                } else {
                    Ok(Some((h, hl + size)))
                }
            },
        }
    }
}

pub proof fn lemma_next_child_size(s: Seq<u8>)
    ensures
        spec_next_child(s) matches Ok(Some((h, t))) ==> 8 <= t <= s.len(),
{
}

/// Reads the header of the child atom at `pos`, giving it and the child's whole size.
pub fn next_child(buf: &[u8], pos: usize) -> (r: Result<Option<(Header, usize)>, Error>)
    requires
        pos <= buf@.len(),
    ensures
        r matches Ok(Some((h, t))) ==> spec_next_child(buf@.subrange(pos as int, buf@.len() as int))
            == Ok::<Option<(Header, int)>, Error>(Some((h, t as int))) && 8 <= t && pos + t
            <= buf@.len(),
        r matches Ok(None) ==> spec_next_child(buf@.subrange(pos as int, buf@.len() as int)) == Ok::<
            Option<(Header, int)>,
            Error,
        >(None),
        r matches Err(e) ==> spec_next_child(buf@.subrange(pos as int, buf@.len() as int)) == Err::<
            Option<(Header, int)>,
            Error,
        >(e),
{
    let rest = vstd::slice::slice_subrange(buf, pos, buf.len());
    if rest.len() < 8 {
        return Ok(None);
    }
    let (h, hl) = Header::decode_prefix(rest)?;
    let left = rest.len() - hl;
    let size = match h.size {
        Some(n) => n,
        None => left,
    };
    if size > left {
        return Err(Error::OutOfBounds);
    }
    Ok(Some((h, hl + size)))
}

/// The bytes of an atom, followed by anything, give that atom as the next child, and the
/// child's bytes decode back to the value.
pub proof fn lemma_child_roundtrip<T: Atom>(v: T::V, rest: Seq<u8>)
    requires
        T::spec_keeps(v),
        spec_encode_atom::<T>(v) is Ok,
    ensures
        ({
            let b = spec_encode_atom::<T>(v)->Ok_0;
            &&& 8 <= b.len()
            &&& spec_next_child(b + rest) matches Ok(Some((h, t))) && h.kind.code == T::spec_kind()
                && t == b.len()
            &&& (b + rest).subrange(0, b.len() as int) == b
            &&& spec_decode_atom::<T>(b) == Ok::<(T::V, int), Error>((v, b.len() as int))
        }),
{
    let b = spec_encode_atom::<T>(v)->Ok_0;
    let body = T::spec_encode_body(v)->Ok_0;
    let s = b + rest;
    lemma_atom_roundtrip::<T>(v, Seq::empty());
    assert(b + Seq::<u8>::empty() =~= b);
    let size = (body.len() + 8) as u32;
    lemma_be32(size);
    lemma_be32(T::spec_kind());
    assert(s.subrange(0, 4) =~= be32(size));
    assert(s.subrange(4, 8) =~= be32(T::spec_kind()));
    lemma_be32_at(s, 0, size);
    lemma_be32_at(s, 4, T::spec_kind());
    assert(s.subrange(0, b.len() as int) =~= b);
}

} // verus!
