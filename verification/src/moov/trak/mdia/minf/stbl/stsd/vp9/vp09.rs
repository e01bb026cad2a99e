use vstd::prelude::*;

use crate::atom::{decode_atom, encode_atom, spec_decode_atom, spec_encode_atom, Atom, Decode, Encode};
use crate::codec::{bytes_from, group_codec};
use crate::container::{
    decode_children, lemma_decode_child, lemma_scan_child, lemma_scan_empty, opt_view,
    scan_children, Children,
};
use crate::error::Error;
use crate::fourcc::FourCC;
use crate::types::compressor_keeps;
use super::super::visual::{lemma_visual_roundtrip, visual_bytes, Visual, VisualV};
use super::vpcc::{VpcC, VpcCV};

verus! {

broadcast use group_codec;

/// VP9 sample entry (`vp09`): a visual sample entry with a required `vpcC`; children of
/// other types are skipped.
#[derive(Debug, Clone, PartialEq, Eq, Default)]
pub struct Vp09 {
    pub visual: Visual,
    pub vpcc: VpcC,
}

impl View for Vp09 {
    type V = (VisualV, VpcCV);

    open spec fn view(&self) -> (VisualV, VpcCV) {
        (self.visual@, self.vpcc@)
    }
}

/// The `vpcC` of a `vp09`, once found.
pub struct Vp09Children {
    pub vpcc: Option<VpcC>,
}

impl Children for Vp09Children {
    type A = Option<VpcCV>;

    /// A `vpcC` is decoded and replaces an earlier one; another child is skipped.
    open spec fn spec_apply(acc: Option<VpcCV>, code: u32, c: Seq<u8>) -> Result<Option<VpcCV>, Error> {
        if code == VpcC::spec_kind() {
            match spec_decode_atom::<VpcC>(c) {
                Ok((x, _)) => Ok(Some(x)),
                Err(e) => Err(e),
            }
        } else {
            Ok(acc)
        }
    }

    open spec fn spec_state(&self) -> Option<VpcCV> {
        opt_view(self.vpcc)
    }

    fn apply(&mut self, code: u32, child: &[u8]) -> (r: Result<(), Error>) {
        if code == 0x76706343 {
            let (x, _) = decode_atom::<VpcC>(child)?;
            self.vpcc = Some(x);
        }
        Ok(())
    }
}

impl Atom for Vp09 {
    open spec fn spec_kind() -> u32 {
        0x76703039
    }

    fn kind() -> (k: FourCC) {
        FourCC::from_u32(0x76703039)
    }

    /// The visual sample entry, then children; a missing `vpcC` is `MissingBox`.
    open spec fn spec_decode_body(s: Seq<u8>) -> Result<((VisualV, VpcCV), int), Error> {
        match Visual::spec_decode(s) {
            Err(e) => Err(e),
            Ok((v, n)) => match scan_children::<Vp09Children>(bytes_from(s, n), None) {
                Err(e) => Err(e),
                Ok((acc, m)) => match acc {
                    None => Err(Error::MissingBox(FourCC { code: VpcC::spec_kind() })),
                    Some(c) => Ok(((v, c), n + m)),
                },
            },
        }
    }

    open spec fn spec_encode_body(v: (VisualV, VpcCV)) -> Result<Seq<u8>, Error> {
        match spec_encode_atom::<VpcC>(v.1) {
            Err(e) => Err(e),
            Ok(c) => Ok(visual_bytes(v.0) + c),
        }
    }

    open spec fn spec_keeps(v: (VisualV, VpcCV)) -> bool {
        compressor_keeps(v.0.compressor) && VpcC::spec_keeps(v.1)
    }

    fn decode_body(buf: &[u8]) -> (r: Result<(Self, usize), Error>) {
        let (visual, n) = Visual::decode_prefix(buf)?;
        let mut st = Vp09Children { vpcc: None };
        let end = decode_children(buf, n, &mut st)?;
        match st.vpcc {
            None => Err(Error::MissingBox(VpcC::kind())),
            Some(vpcc) => Ok((Vp09 { visual, vpcc }, end)),
        }
    }

    fn encode_body(&self, out: &mut Vec<u8>) -> (r: Result<(), Error>) {
        let mut body: Vec<u8> = Vec::new();
        self.visual.encode(&mut body)?;
        encode_atom(&self.vpcc, &mut body)?;
        crate::codec::put_bytes(out, body.as_slice());
        Ok(())
    }

    proof fn lemma_body_roundtrip(v: (VisualV, VpcCV)) {
        let c = spec_encode_atom::<VpcC>(v.1)->Ok_0;
        let b = visual_bytes(v.0) + c;
        lemma_scan_empty::<Vp09Children>(Some(v.1));
        lemma_decode_child::<VpcC>(v.1);
        lemma_scan_child::<Vp09Children, VpcC>(v.1, Seq::empty(), None, Some(v.1), Some(v.1));
        assert(c + Seq::<u8>::empty() =~= c);
        lemma_visual_roundtrip(v.0, c);
        assert(bytes_from(b, 78) =~= c);
    }
}

} // verus!
