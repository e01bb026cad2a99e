use vstd::prelude::*;

use crate::atom::{decode_atom, encode_atom, spec_decode_atom, spec_encode_atom, Atom, Decode, Encode};
use crate::codec::{be32, group_codec, put_bytes, put_u32, read_bytes, read_u32};
use crate::container::{
    decode_children, encode_opt, lemma_decode_child, lemma_scan_empty, lemma_scan_opt,
    opt_atom_bytes, opt_view, scan_children, Children,
};
use crate::error::Error;
use crate::ext::lemma_child_roundtrip;
use crate::fourcc::FourCC;
use crate::text::{
    cstring_bytes, cstring_keeps, decode_cstring, lemma_cstring_roundtrip, put_cstring,
    spec_decode_cstring,
};
use super::btrt::Btrt;
use super::metadata::{lemma_metadata_roundtrip, MetaData};

verus! {

broadcast use group_codec;

/// URI box (`uri `): the URI that names the scheme of a URI metadata sample entry.
#[derive(Debug, Clone, PartialEq, Eq)]
pub struct Uri {
    pub the_uri: String,
}

impl View for Uri {
    type V = Seq<char>;

    open spec fn view(&self) -> Seq<char> {
        self.the_uri@
    }
}

impl Atom for Uri {
    open spec fn spec_kind() -> u32 {
        0x75726920
    }

    fn kind() -> (k: FourCC) {
        FourCC::from_u32(0x75726920)
    }

    /// Version and flags (ignored), then a zero-terminated URI.
    open spec fn spec_decode_body(s: Seq<u8>) -> Result<(Seq<char>, int), Error> {
        if s.len() < 4 {
            Err(Error::OutOfBounds)
        } else {
            spec_decode_cstring(s, 4)
        }
    }

    open spec fn spec_encode_body(v: Seq<char>) -> Result<Seq<u8>, Error> {
        Ok(be32(0) + cstring_bytes(v))
    }

    /// A URI without a zero byte.
    open spec fn spec_keeps(v: Seq<char>) -> bool {
        cstring_keeps(v)
    }

    fn decode_body(buf: &[u8]) -> (r: Result<(Self, usize), Error>) {
        let _ext = read_u32(buf, 0)?;
        let (the_uri, n) = decode_cstring(buf, 4)?;
        Ok((Uri { the_uri }, n))
    }

    fn encode_body(&self, out: &mut Vec<u8>) -> (r: Result<(), Error>) {
        put_u32(out, 0);
        put_cstring(out, self.the_uri.as_str());
        assert(out@ =~= old(out)@ + (be32(0) + cstring_bytes(self@)));
        Ok(())
    }

    proof fn lemma_body_roundtrip(v: Seq<char>) {
        lemma_cstring_roundtrip(be32(0), v, Seq::empty());
        assert(be32(0) + cstring_bytes(v) + Seq::<u8>::empty() =~= be32(0) + cstring_bytes(v));
    }
}

/// URI initialization box (`uriI`): initialization data for a URI metadata sample entry.
#[derive(Debug, Clone, PartialEq, Eq)]
pub struct UriI {
    pub uri_initialization_data: Vec<u8>,
}

impl View for UriI {
    type V = Seq<u8>;

    open spec fn view(&self) -> Seq<u8> {
        self.uri_initialization_data@
    }
}

impl Atom for UriI {
    open spec fn spec_kind() -> u32 {
        0x75726949
    }

    fn kind() -> (k: FourCC) {
        FourCC::from_u32(0x75726949)
    }

    /// Version and flags (ignored), then the data up to the end of the body.
    open spec fn spec_decode_body(s: Seq<u8>) -> Result<(Seq<u8>, int), Error> {
        if s.len() < 4 {
            Err(Error::OutOfBounds)
        } else {
            Ok((s.subrange(4, s.len() as int), s.len() as int))
        }
    }

    open spec fn spec_encode_body(v: Seq<u8>) -> Result<Seq<u8>, Error> {
        Ok(be32(0) + v)
    }

    open spec fn spec_keeps(v: Seq<u8>) -> bool {
        true
    }

    fn decode_body(buf: &[u8]) -> (r: Result<(Self, usize), Error>) {
        let _ext = read_u32(buf, 0)?;
        let data = read_bytes(buf, 4, buf.len() - 4)?;
        Ok((UriI { uri_initialization_data: data }, buf.len()))
    }

    fn encode_body(&self, out: &mut Vec<u8>) -> (r: Result<(), Error>) {
        put_u32(out, 0);
        put_bytes(out, self.uri_initialization_data.as_slice());
        assert(out@ =~= old(out)@ + (be32(0) + self@));
        Ok(())
    }

    proof fn lemma_body_roundtrip(v: Seq<u8>) {
        assert((be32(0) + v).subrange(4, (be32(0) + v).len() as int) =~= v);
    }
}

/// Where a sample entry's body ends after its last child at `pos`: bytes left there that are
/// all zero are padding and are taken in as well.
pub open spec fn padded_end(s: Seq<u8>, pos: int) -> int {
    if forall|i: int| pos <= i < s.len() ==> s[i] == 0 {
        s.len() as int
    } else {
        pos
    }
}

/// Skips trailing zero padding from `pos`.
pub fn skip_trailing_padding(buf: &[u8], pos: usize) -> (r: usize)
    requires
        pos <= buf@.len(),
    ensures
        r == padded_end(buf@, pos as int),
{
    let mut i: usize = pos;
    while i < buf.len()
        invariant
            pos <= i <= buf@.len(),
            forall|k: int| pos <= k < i ==> buf@[k] == 0,
        decreases buf@.len() - i,
    {
        if buf[i] != 0 {
            return pos;
        }
        i = i + 1;
    }
    buf.len()
}

/// URI metadata sample entry (`urim`): a metadata sample entry, the URI of its scheme, and
/// optional initialization data and bit rate.
#[derive(Debug, Clone, PartialEq, Eq)]
pub struct Urim {
    pub metadata: MetaData,
    pub the_label: Uri,
    pub init: Option<UriI>,
    pub btrt: Option<Btrt>,
}

/// The sample entry, the URI, the initialization data and the bit rate.
pub type UrimV = (MetaData, Seq<char>, Option<Seq<u8>>, Option<Btrt>);

impl View for Urim {
    type V = UrimV;

    open spec fn view(&self) -> UrimV {
        (self.metadata, self.the_label@, opt_view(self.init), opt_view(self.btrt))
    }
}

/// The children of a `urim` found after its URI.
pub struct UrimChildren {
    pub init: Option<UriI>,
    pub btrt: Option<Btrt>,
}

impl Children for UrimChildren {
    type A = (Option<Seq<u8>>, Option<Btrt>);

    /// A known child is decoded and replaces an earlier one of its type; another is skipped.
    open spec fn spec_apply(acc: Self::A, code: u32, c: Seq<u8>) -> Result<Self::A, Error> {
        if code == UriI::spec_kind() {
            match spec_decode_atom::<UriI>(c) {
                Ok((x, _)) => Ok((Some(x), acc.1)),
                Err(e) => Err(e),
            }
        } else if code == Btrt::spec_kind() {
            match spec_decode_atom::<Btrt>(c) {
                Ok((x, _)) => Ok((acc.0, Some(x))),
                Err(e) => Err(e),
            }
        } else {
            Ok(acc)
        }
    }

    open spec fn spec_state(&self) -> Self::A {
        (opt_view(self.init), opt_view(self.btrt))
    }

    fn apply(&mut self, code: u32, child: &[u8]) -> (r: Result<(), Error>) {
        if code == 0x75726949 {
            let (x, _) = decode_atom::<UriI>(child)?;
            self.init = Some(x);
        } else if code == 0x62747274 {
            let (x, _) = decode_atom::<Btrt>(child)?;
            self.btrt = Some(x);
        }
        Ok(())
    }
}

impl Atom for Urim {
    open spec fn spec_kind() -> u32 {
        0x7572696d
    }

    fn kind() -> (k: FourCC) {
        FourCC::from_u32(0x7572696d)
    }

    /// The metadata sample entry, a `uri ` atom, then children, then zero padding.
    open spec fn spec_decode_body(s: Seq<u8>) -> Result<(UrimV, int), Error> {
        match MetaData::spec_decode(s) {
            Err(e) => Err(e),
            Ok((m, n)) => match spec_decode_atom::<Uri>(s.subrange(n, s.len() as int)) {
                Err(e) => Err(e),
                Ok((u, k)) => match scan_children::<UrimChildren>(
                    s.subrange(n + k, s.len() as int),
                    (None, None),
                ) {
                    Err(e) => Err(e),
                    Ok((acc, j)) => Ok(((m, u, acc.0, acc.1), padded_end(s, n + k + j))),
                },
            },
        }
    }

    /// The sample entry, the URI, then the initialization data and the bit rate where present.
    open spec fn spec_encode_body(v: UrimV) -> Result<Seq<u8>, Error> {
        match spec_encode_atom::<Uri>(v.1) {
            Err(e) => Err(e),
            Ok(u) => match opt_atom_bytes::<UriI>(v.2) {
                Err(e) => Err(e),
                Ok(i) => match opt_atom_bytes::<Btrt>(v.3) {
                    Err(e) => Err(e),
                    Ok(b) => Ok(MetaData::spec_encode(v.0)->Ok_0 + u + i + b),
                },
            },
        }
    }

    /// A URI without a zero byte.
    open spec fn spec_keeps(v: UrimV) -> bool {
        cstring_keeps(v.1)
    }

    fn decode_body(buf: &[u8]) -> (r: Result<(Self, usize), Error>) {
        let (metadata, n) = MetaData::decode_prefix(buf)?;
        let rest = vstd::slice::slice_subrange(buf, n, buf.len());
        let (the_label, k) = decode_atom::<Uri>(rest)?;
        let mut st = UrimChildren { init: None, btrt: None };
        assert(buf@.subrange(n + k, buf@.len() as int) =~= rest@.subrange(k as int, rest@.len() as int));
        let end = decode_children(buf, n + k, &mut st)?;
        let end = skip_trailing_padding(buf, end);
        Ok((Urim { metadata, the_label, init: st.init, btrt: st.btrt }, end))
    }

    fn encode_body(&self, out: &mut Vec<u8>) -> (r: Result<(), Error>) {
        let ghost start = out@;
        self.metadata.encode(out)?;
        encode_atom(&self.the_label, out)?;
        encode_opt(&self.init, out)?;
        encode_opt(&self.btrt, out)?;
        assert(out@ =~= start + Self::spec_encode_body(self@)->Ok_0);
        Ok(())
    }

    proof fn lemma_body_roundtrip(v: UrimV) {
        let m = MetaData::spec_encode(v.0)->Ok_0;
        let u = spec_encode_atom::<Uri>(v.1)->Ok_0;
        let i = opt_atom_bytes::<UriI>(v.2)->Ok_0;
        let b = opt_atom_bytes::<Btrt>(v.3)->Ok_0;
        let e = Seq::<u8>::empty();
        let fin = (v.2, v.3);
        lemma_scan_empty::<UrimChildren>(fin);
        if let Some(x) = v.3 {
            lemma_decode_child::<Btrt>(x);
        }
        lemma_scan_opt::<UrimChildren, Btrt>(v.3, e, (v.2, None), fin, fin);
        assert(b + e =~= b);
        if let Some(x) = v.2 {
            lemma_decode_child::<UriI>(x);
        }
        lemma_scan_opt::<UrimChildren, UriI>(v.2, b, (None, None), (v.2, None), fin);
        let all = m + u + i + b;
        assert(m.len() == 8);
        assert(all =~= m + (u + (i + b)));
        lemma_metadata_roundtrip(v.0, u + (i + b));
        let r1 = all.subrange(8, all.len() as int);
        assert(r1 =~= u + (i + b));
        lemma_child_roundtrip::<Uri>(v.1, i + b);
        crate::atom::lemma_atom_roundtrip::<Uri>(v.1, i + b);
        assert(all.subrange(8 + u.len() as int, all.len() as int) =~= i + b);
    }
}

} // verus!
