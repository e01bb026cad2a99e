use vstd::prelude::*;
use vstd::utf8::{decode_utf8, encode_utf8, valid_utf8};

use crate::atom::{decode_atom, spec_decode_atom, Atom, Decode, Encode};
use crate::codec::{group_codec, put_bytes};
use crate::container::{
    decode_children, encode_opt, lemma_decode_child, lemma_scan_child, lemma_scan_empty,
    lemma_scan_opt, opt_atom_bytes, opt_view, scan_children, Children,
};
use crate::error::Error;
use crate::fourcc::FourCC;
use crate::text::string_from_utf8;
use super::btrt::Btrt;
use super::plaintext::{lemma_plaintext_roundtrip, PlainText};

verus! {

broadcast use group_codec;

/// What a string that fills the rest of a box decodes to: all the bytes as UTF-8; bytes
/// that are not UTF-8 are an `InvalidSize` error.
pub open spec fn spec_decode_boxstring(s: Seq<u8>) -> Result<(Seq<char>, int), Error> {
    if valid_utf8(s) {
        Ok((decode_utf8(s), s.len() as int))
    } else {
        Err(Error::InvalidSize)
    }
}

/// Decodes a string that fills the rest of a box.
fn decode_boxstring(buf: &[u8]) -> (r: Result<(String, usize), Error>)
    ensures
        r matches Ok((v, n)) ==> spec_decode_boxstring(buf@) == Ok::<(Seq<char>, int), Error>(
            (v@, n as int),
        ),
        r matches Err(e) ==> spec_decode_boxstring(buf@) == Err::<(Seq<char>, int), Error>(e),
{
    let bytes = vstd::slice::slice_to_vec(buf);
    match string_from_utf8(bytes) {
        Some(s) => Ok((s, buf.len())),
        None => Err(Error::InvalidSize),
    }
}

/// A string written as its bytes decodes back to itself.
proof fn lemma_boxstring_roundtrip(c: Seq<char>)
    ensures
        spec_decode_boxstring(encode_utf8(c)) == Ok::<(Seq<char>, int), Error>(
            (c, encode_utf8(c).len() as int),
        ),
{
    vstd::utf8::encode_utf8_valid_utf8(c);
    vstd::utf8::encode_utf8_decode_utf8(c);
}

/// WebVTT configuration box (`vttC`): the WebVTT file header, as text.
#[derive(Debug, Clone, PartialEq, Eq)]
pub struct VttC {
    pub config: String,
}

impl View for VttC {
    type V = Seq<char>;

    open spec fn view(&self) -> Seq<char> {
        self.config@
    }
}

impl Atom for VttC {
    open spec fn spec_kind() -> u32 {
        0x76747443
    }

    fn kind() -> (k: FourCC) {
        FourCC::from_u32(0x76747443)
    }

    /// The whole body, as UTF-8.
    open spec fn spec_decode_body(s: Seq<u8>) -> Result<(Seq<char>, int), Error> {
        spec_decode_boxstring(s)
    }

    open spec fn spec_encode_body(v: Seq<char>) -> Result<Seq<u8>, Error> {
        Ok(encode_utf8(v))
    }

    open spec fn spec_keeps(v: Seq<char>) -> bool {
        true
    }

    fn decode_body(buf: &[u8]) -> (r: Result<(Self, usize), Error>) {
        let (config, n) = decode_boxstring(buf)?;
        Ok((VttC { config }, n))
    }

    fn encode_body(&self, out: &mut Vec<u8>) -> (r: Result<(), Error>) {
        put_bytes(out, self.config.as_str().as_bytes());
        Ok(())
    }

    proof fn lemma_body_roundtrip(v: Seq<char>) {
        lemma_boxstring_roundtrip(v);
    }
}

/// WebVTT source label box (`vlab`): a label of the source, as text.
#[derive(Debug, Clone, PartialEq, Eq)]
pub struct Vlab {
    pub source_label: String,
}

impl View for Vlab {
    type V = Seq<char>;

    open spec fn view(&self) -> Seq<char> {
        self.source_label@
    }
}

impl Atom for Vlab {
    open spec fn spec_kind() -> u32 {
        0x766c6162
    }

    fn kind() -> (k: FourCC) {
        FourCC::from_u32(0x766c6162)
    }

    /// The whole body, as UTF-8.
    open spec fn spec_decode_body(s: Seq<u8>) -> Result<(Seq<char>, int), Error> {
        spec_decode_boxstring(s)
    }

    open spec fn spec_encode_body(v: Seq<char>) -> Result<Seq<u8>, Error> {
        Ok(encode_utf8(v))
    }

    open spec fn spec_keeps(v: Seq<char>) -> bool {
        true
    }

    fn decode_body(buf: &[u8]) -> (r: Result<(Self, usize), Error>) {
        let (source_label, n) = decode_boxstring(buf)?;
        Ok((Vlab { source_label }, n))
    }

    fn encode_body(&self, out: &mut Vec<u8>) -> (r: Result<(), Error>) {
        put_bytes(out, self.source_label.as_str().as_bytes());
        Ok(())
    }

    proof fn lemma_body_roundtrip(v: Seq<char>) {
        lemma_boxstring_roundtrip(v);
    }
}

/// WebVTT sample entry (`wvtt`): a plain text entry with a required configuration, an
/// optional source label and an optional bit rate.
#[derive(Debug, Clone, PartialEq, Eq)]
pub struct Wvtt {
    pub plaintext: PlainText,
    pub config: VttC,
    pub label: Option<Vlab>,
    pub btrt: Option<Btrt>,
}

/// The sample entry, the configuration, the label and the bit rate.
pub type WvttV = (PlainText, Seq<char>, Option<Seq<char>>, Option<Btrt>);

impl View for Wvtt {
    type V = WvttV;

    open spec fn view(&self) -> WvttV {
        (self.plaintext, self.config@, opt_view(self.label), opt_view(self.btrt))
    }
}

/// The children of a `wvtt` found so far.
pub struct WvttChildren {
    pub config: Option<VttC>,
    pub label: Option<Vlab>,
    pub btrt: Option<Btrt>,
}

impl Children for WvttChildren {
    type A = (Option<Seq<char>>, Option<Seq<char>>, Option<Btrt>);

    /// A known child is decoded and replaces an earlier one of its type; another is skipped.
    open spec fn spec_apply(acc: Self::A, code: u32, c: Seq<u8>) -> Result<Self::A, Error> {
        if code == VttC::spec_kind() {
            match spec_decode_atom::<VttC>(c) {
                Ok((x, _)) => Ok((Some(x), acc.1, acc.2)),
                Err(e) => Err(e),
            }
        } else if code == Vlab::spec_kind() {
            match spec_decode_atom::<Vlab>(c) {
                Ok((x, _)) => Ok((acc.0, Some(x), acc.2)),
                Err(e) => Err(e),
            }
        } else if code == Btrt::spec_kind() {
            match spec_decode_atom::<Btrt>(c) {
                Ok((x, _)) => Ok((acc.0, acc.1, Some(x))),
                Err(e) => Err(e),
            }
        } else {
            Ok(acc)
        }
    }

    open spec fn spec_state(&self) -> Self::A {
        (opt_view(self.config), opt_view(self.label), opt_view(self.btrt))
    }

    fn apply(&mut self, code: u32, child: &[u8]) -> (r: Result<(), Error>) {
        if code == 0x76747443 {
            let (x, _) = decode_atom::<VttC>(child)?;
            self.config = Some(x);
        } else if code == 0x766c6162 {
            let (x, _) = decode_atom::<Vlab>(child)?;
            self.label = Some(x);
        } else if code == 0x62747274 {
            let (x, _) = decode_atom::<Btrt>(child)?;
            self.btrt = Some(x);
        }
        Ok(())
    }
}

impl Atom for Wvtt {
    open spec fn spec_kind() -> u32 {
        0x77767474
    }

    fn kind() -> (k: FourCC) {
        FourCC::from_u32(0x77767474)
    }

    /// The plain text sample entry, then children; a missing `vttC` is `MissingBox`.
    open spec fn spec_decode_body(s: Seq<u8>) -> Result<(WvttV, int), Error> {
        match PlainText::spec_decode(s) {
            Err(e) => Err(e),
            Ok((p, n)) => match scan_children::<WvttChildren>(
                s.subrange(n, s.len() as int),
                (None, None, None),
            ) {
                Err(e) => Err(e),
                Ok((acc, m)) => match acc.0 {
                    None => Err(Error::MissingBox(FourCC { code: VttC::spec_kind() })),
                    Some(c) => Ok(((p, c, acc.1, acc.2), n + m)),
                },
            },
        }
    }

    /// The sample entry, the configuration, then the label and the bit rate where present.
    open spec fn spec_encode_body(v: WvttV) -> Result<Seq<u8>, Error> {
        match crate::atom::spec_encode_atom::<VttC>(v.1) {
            Err(e) => Err(e),
            Ok(c) => match opt_atom_bytes::<Vlab>(v.2) {
                Err(e) => Err(e),
                Ok(l) => match opt_atom_bytes::<Btrt>(v.3) {
                    Err(e) => Err(e),
                    Ok(b) => Ok(PlainText::spec_encode(v.0)->Ok_0 + c + l + b),
                },
            },
        }
    }

    open spec fn spec_keeps(v: WvttV) -> bool {
        true
    }

    fn decode_body(buf: &[u8]) -> (r: Result<(Self, usize), Error>) {
        let (plaintext, n) = PlainText::decode_prefix(buf)?;
        let mut st = WvttChildren { config: None, label: None, btrt: None };
        let end = decode_children(buf, n, &mut st)?;
        match st.config {
            None => Err(Error::MissingBox(VttC::kind())),
            Some(config) => Ok((Wvtt { plaintext, config, label: st.label, btrt: st.btrt }, end)),
        }
    }

    fn encode_body(&self, out: &mut Vec<u8>) -> (r: Result<(), Error>) {
        let ghost start = out@;
        self.plaintext.encode(out)?;
        crate::atom::encode_atom(&self.config, out)?;
        encode_opt(&self.label, out)?;
        encode_opt(&self.btrt, out)?;
        assert(out@ =~= start + Self::spec_encode_body(self@)->Ok_0);
        Ok(())
    }

    proof fn lemma_body_roundtrip(v: WvttV) {
        let p = PlainText::spec_encode(v.0)->Ok_0;
        let c = crate::atom::spec_encode_atom::<VttC>(v.1)->Ok_0;
        let l = opt_atom_bytes::<Vlab>(v.2)->Ok_0;
        let b = opt_atom_bytes::<Btrt>(v.3)->Ok_0;
        let e = Seq::<u8>::empty();
        let fin = (Some(v.1), v.2, v.3);
        lemma_scan_empty::<WvttChildren>(fin);
        if let Some(x) = v.3 {
            lemma_decode_child::<Btrt>(x);
        }
        lemma_scan_opt::<WvttChildren, Btrt>(v.3, e, (Some(v.1), v.2, None), fin, fin);
        assert(b + e =~= b);
        if let Some(x) = v.2 {
            lemma_decode_child::<Vlab>(x);
        }
        lemma_scan_opt::<WvttChildren, Vlab>(v.2, b, (Some(v.1), None, None), (Some(v.1), v.2, None), fin);
        lemma_decode_child::<VttC>(v.1);
        lemma_scan_child::<WvttChildren, VttC>(v.1, l + b, (None, None, None), (Some(v.1), None, None), fin);
        let all = p + c + l + b;
        assert(p.len() == 8);
        assert(all =~= p + (c + (l + b)));
        lemma_plaintext_roundtrip(v.0, c + (l + b));
        assert(all.subrange(8, all.len() as int) =~= c + (l + b));
    }
}

} // verus!
