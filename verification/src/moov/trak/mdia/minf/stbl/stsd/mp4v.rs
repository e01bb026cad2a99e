use vstd::prelude::*;

use crate::atom::{decode_atom, encode_atom, spec_decode_atom, spec_encode_atom, Atom, Decode, Encode};
use crate::codec::{bytes_from, group_codec};
use crate::container::{
    decode_children, encode_opt, lemma_decode_child, lemma_scan_child, lemma_scan_empty,
    lemma_scan_opt, opt_atom_bytes, opt_view, scan_children, Children,
};
use crate::error::Error;
use crate::fourcc::FourCC;
use crate::types::compressor_keeps;
use super::btrt::Btrt;
use super::colr::{Colr, ColrV};
use super::fiel::Fiel;
use super::mp4a::esds::{EsDescriptorV, Esds};
use super::mp4a::opt_es_box;
use super::pasp::Pasp;
use super::visual::{lemma_visual_roundtrip, visual_bytes, Visual, VisualV};

verus! {

broadcast use group_codec;

/// MPEG-4 Part 2 visual sample entry (`mp4v`): a visual sample entry with a required `esds`
/// and an optional bit rate, colour information, pixel aspect ratio and field handling.
#[derive(Debug, Clone, PartialEq, Eq, Default)]
pub struct Mp4v {
    pub visual: Visual,
    pub esds: Esds,
    pub btrt: Option<Btrt>,
    pub colr: Option<Colr>,
    pub pasp: Option<Pasp>,
    pub fiel: Option<Fiel>,
}

/// The visual sample entry, the elementary stream descriptor, the bit rate, the colour
/// information, the pixel aspect ratio and the field handling.
pub type Mp4vV = (VisualV, EsDescriptorV, Option<Btrt>, Option<ColrV>, Option<Pasp>, Option<Fiel>);

impl View for Mp4v {
    type V = Mp4vV;

    open spec fn view(&self) -> Mp4vV {
        (
            self.visual@,
            self.esds@,
            opt_view(self.btrt),
            opt_view(self.colr),
            opt_view(self.pasp),
            opt_view(self.fiel),
        )
    }
}

/// The children of an `mp4v` found so far.
pub struct Mp4vChildren {
    pub esds: Option<Esds>,
    pub btrt: Option<Btrt>,
    pub colr: Option<Colr>,
    pub pasp: Option<Pasp>,
    pub fiel: Option<Fiel>,
}

/// What the children of an `mp4v` hold.
pub type Mp4vKids = (Option<EsDescriptorV>, Option<Btrt>, Option<ColrV>, Option<Pasp>, Option<Fiel>);

impl Children for Mp4vChildren {
    type A = Mp4vKids;

    /// A known child is decoded and replaces an earlier one of its type; another is skipped.
    open spec fn spec_apply(acc: Self::A, code: u32, c: Seq<u8>) -> Result<Self::A, Error> {
        if code == Esds::spec_kind() {
            match spec_decode_atom::<Esds>(c) {
                Ok((x, _)) => Ok((Some(x), acc.1, acc.2, acc.3, acc.4)),
                Err(e) => Err(e),
            }
        } else if code == Btrt::spec_kind() {
            match spec_decode_atom::<Btrt>(c) {
                Ok((x, _)) => Ok((acc.0, Some(x), acc.2, acc.3, acc.4)),
                Err(e) => Err(e),
            }
        } else if code == Colr::spec_kind() {
            match spec_decode_atom::<Colr>(c) {
                Ok((x, _)) => Ok((acc.0, acc.1, Some(x), acc.3, acc.4)),
                Err(e) => Err(e),
            }
        } else if code == Pasp::spec_kind() {
            match spec_decode_atom::<Pasp>(c) {
                Ok((x, _)) => Ok((acc.0, acc.1, acc.2, Some(x), acc.4)),
                Err(e) => Err(e),
            }
        } else if code == Fiel::spec_kind() {
            match spec_decode_atom::<Fiel>(c) {
                Ok((x, _)) => Ok((acc.0, acc.1, acc.2, acc.3, Some(x))),
                Err(e) => Err(e),
            }
        } else {
            Ok(acc)
        }
    }

    open spec fn spec_state(&self) -> Self::A {
        (
            opt_es_box(self.esds),
            opt_view(self.btrt),
            opt_view(self.colr),
            opt_view(self.pasp),
            opt_view(self.fiel),
        )
    }

    fn apply(&mut self, code: u32, child: &[u8]) -> (r: Result<(), Error>) {
        if code == 0x65736473 {
            let (x, _) = decode_atom::<Esds>(child)?;
            self.esds = Some(x);
        } else if code == 0x62747274 {
            let (x, _) = decode_atom::<Btrt>(child)?;
            self.btrt = Some(x);
        } else if code == 0x636f6c72 {
            let (x, _) = decode_atom::<Colr>(child)?;
            self.colr = Some(x);
        } else if code == 0x70617370 {
            let (x, _) = decode_atom::<Pasp>(child)?;
            self.pasp = Some(x);
        } else if code == 0x6669656c {
            let (x, _) = decode_atom::<Fiel>(child)?;
            self.fiel = Some(x);
        }
        Ok(())
    }
}

impl Atom for Mp4v {
    open spec fn spec_kind() -> u32 {
        0x6d703476
    }

    fn kind() -> (k: FourCC) {
        FourCC::from_u32(0x6d703476)
    }

    /// The visual sample entry, then children; a missing `esds` is `MissingBox`.
    open spec fn spec_decode_body(s: Seq<u8>) -> Result<(Mp4vV, int), Error> {
        match Visual::spec_decode(s) {
            Err(e) => Err(e),
            Ok((a, n)) => match scan_children::<Mp4vChildren>(
                bytes_from(s, n),
                (None, None, None, None, None),
            ) {
                Err(e) => Err(e),
                Ok((acc, m)) => match acc.0 {
                    None => Err(Error::MissingBox(FourCC { code: Esds::spec_kind() })),
                    Some(es) => Ok(((a, es, acc.1, acc.2, acc.3, acc.4), n + m)),
                },
            },
        }
    }

    /// The visual sample entry, the `esds`, then the `btrt`, `colr`, `pasp` and `fiel` where
    /// present.
    open spec fn spec_encode_body(v: Mp4vV) -> Result<Seq<u8>, Error> {
        match mp4v_children_bytes(v) {
            Err(e) => Err(e),
            Ok(k) => Ok(visual_bytes(v.0) + k),
        }
    }

    open spec fn spec_keeps(v: Mp4vV) -> bool {
        compressor_keeps(v.0.compressor) && Esds::spec_keeps(v.1)
    }

    fn decode_body(buf: &[u8]) -> (r: Result<(Self, usize), Error>) {
        let (visual, n) = Visual::decode_prefix(buf)?;
        let mut st = Mp4vChildren { esds: None, btrt: None, colr: None, pasp: None, fiel: None };
        let end = decode_children(buf, n, &mut st)?;
        assert(buf@.subrange(n as int, buf@.len() as int) =~= bytes_from(buf@, n as int));
        match st.esds {
            None => Err(Error::MissingBox(Esds::kind())),
            Some(esds) => Ok(
                (
                    Mp4v {
                        visual,
                        esds,
                        btrt: st.btrt,
                        colr: st.colr,
                        pasp: st.pasp,
                        fiel: st.fiel,
                    },
                    end,
                ),
            ),
        }
    }

    fn encode_body(&self, out: &mut Vec<u8>) -> (r: Result<(), Error>) {
        let mut body: Vec<u8> = Vec::new();
        self.visual.encode(&mut body)?;
        let ghost v = body@;
        encode_atom(&self.esds, &mut body)?;
        encode_opt(&self.btrt, &mut body)?;
        encode_opt(&self.colr, &mut body)?;
        encode_opt(&self.pasp, &mut body)?;
        encode_opt(&self.fiel, &mut body)?;
        assert(body@ =~= v + mp4v_children_bytes(self@)->Ok_0);
        crate::codec::put_bytes(out, body.as_slice());
        Ok(())
    }

    proof fn lemma_body_roundtrip(v: Mp4vV) {
        let kids = mp4v_children_bytes(v)->Ok_0;
        lemma_mp4v_children(v);
        lemma_visual_roundtrip(v.0, kids);
        let all = visual_bytes(v.0) + kids;
        assert(bytes_from(all, 78) =~= kids);
    }
}

/// The bytes of the children of an `mp4v`, one after the other.
pub open spec fn mp4v_children_bytes(v: Mp4vV) -> Result<Seq<u8>, Error> {
    match spec_encode_atom::<Esds>(v.1) {
        Err(e) => Err(e),
        Ok(es) => match opt_atom_bytes::<Btrt>(v.2) {
            Err(e) => Err(e),
            Ok(b) => match opt_atom_bytes::<Colr>(v.3) {
                Err(e) => Err(e),
                Ok(c) => match opt_atom_bytes::<Pasp>(v.4) {
                    Err(e) => Err(e),
                    Ok(p) => match opt_atom_bytes::<Fiel>(v.5) {
                        Err(e) => Err(e),
                        Ok(f) => Ok(es + (b + (c + (p + f)))),
                    },
                },
            },
        },
    }
}

/// The children of a kept `mp4v`, written one after the other, scan back to what they hold.
#[verifier::spinoff_prover]
proof fn lemma_mp4v_children(v: Mp4vV)
    requires
        Mp4v::spec_keeps(v),
        mp4v_children_bytes(v) is Ok,
    ensures
        scan_children::<Mp4vChildren>(mp4v_children_bytes(v)->Ok_0, (None, None, None, None, None))
            == Ok::<(Mp4vKids, int), Error>(
            (
                (Some(v.1), v.2, v.3, v.4, v.5),
                mp4v_children_bytes(v)->Ok_0.len() as int,
            ),
        ),
{
    let b = opt_atom_bytes::<Btrt>(v.2)->Ok_0;
    let c = opt_atom_bytes::<Colr>(v.3)->Ok_0;
    let p = opt_atom_bytes::<Pasp>(v.4)->Ok_0;
    let f = opt_atom_bytes::<Fiel>(v.5)->Ok_0;
    let z = Seq::<u8>::empty();
    let fin = (Some(v.1), v.2, v.3, v.4, v.5);
    lemma_scan_empty::<Mp4vChildren>(fin);
    if let Some(x) = v.5 {
        lemma_decode_child::<Fiel>(x);
    }
    lemma_scan_opt::<Mp4vChildren, Fiel>(v.5, z, (Some(v.1), v.2, v.3, v.4, None), fin, fin);
    assert(f + z =~= f);
    if let Some(x) = v.4 {
        lemma_decode_child::<Pasp>(x);
    }
    lemma_scan_opt::<Mp4vChildren, Pasp>(
        v.4,
        f,
        (Some(v.1), v.2, v.3, None, None),
        (Some(v.1), v.2, v.3, v.4, None),
        fin,
    );
    if let Some(x) = v.3 {
        lemma_decode_child::<Colr>(x);
    }
    lemma_scan_opt::<Mp4vChildren, Colr>(
        v.3,
        p + f,
        (Some(v.1), v.2, None, None, None),
        (Some(v.1), v.2, v.3, None, None),
        fin,
    );
    if let Some(x) = v.2 {
        lemma_decode_child::<Btrt>(x);
    }
    lemma_scan_opt::<Mp4vChildren, Btrt>(
        v.2,
        c + (p + f),
        (Some(v.1), None, None, None, None),
        (Some(v.1), v.2, None, None, None),
        fin,
    );
    lemma_decode_child::<Esds>(v.1);
    lemma_scan_child::<Mp4vChildren, Esds>(
        v.1,
        b + (c + (p + f)),
        (None, None, None, None, None),
        (Some(v.1), None, None, None, None),
        fin,
    );
}

} // verus!
