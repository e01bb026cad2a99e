use vstd::prelude::*;

use crate::atom::{decode_atom, encode_atom, spec_decode_atom, spec_encode_atom, Atom, Decode, Encode};
use crate::codec::{be32, bytes_from, group_codec, put_u32, read_u32};
use crate::error::Error;
use crate::fourcc::FourCC;
use crate::types::compressor_keeps;
use super::visual::{lemma_visual_roundtrip, visual_bytes, Visual, VisualV};
use super::vpcc::Vpcc;

verus! {

broadcast use group_codec;

/// VP9 sample entry of the earlier draft binding (`vp09` as a full box): a visual sample
/// entry followed directly by a `vpcc` box.
#[derive(Debug, Clone, PartialEq, Eq, Default)]
pub struct Vp09 {
    pub visual: Visual,
    pub vpcc: Vpcc,
}

impl View for Vp09 {
    type V = (VisualV, Vpcc);

    open spec fn view(&self) -> (VisualV, Vpcc) {
        (self.visual@, self.vpcc)
    }
}

impl Atom for Vp09 {
    open spec fn spec_kind() -> u32 {
        0x76703039
    }

    fn kind() -> (k: FourCC) {
        FourCC::from_u32(0x76703039)
    }

    /// Version and flags (ignored), the visual sample entry, then a `vpcc` atom.
    open spec fn spec_decode_body(s: Seq<u8>) -> Result<((VisualV, Vpcc), int), Error> {
        if s.len() < 4 {
            Err(Error::OutOfBounds)
        } else {
            match Visual::spec_decode(bytes_from(s, 4)) {
                Err(e) => Err(e),
                Ok((v, n)) => match spec_decode_atom::<Vpcc>(bytes_from(s, 4 + n)) {
                    Err(e) => Err(e),
                    Ok((c, m)) => Ok(((v, c), 4 + n + m)),
                },
            }
        }
    }

    open spec fn spec_encode_body(v: (VisualV, Vpcc)) -> Result<Seq<u8>, Error> {
        Ok(be32(0) + visual_bytes(v.0) + spec_encode_atom::<Vpcc>(v.1)->Ok_0)
    }

    open spec fn spec_keeps(v: (VisualV, Vpcc)) -> bool {
        compressor_keeps(v.0.compressor) && Vpcc::spec_keeps(v.1)
    }

    fn decode_body(buf: &[u8]) -> (r: Result<(Self, usize), Error>) {
        let _ext = read_u32(buf, 0)?;
        let rest = vstd::slice::slice_subrange(buf, 4, buf.len());
        let (visual, n) = Visual::decode_prefix(rest)?;
        let rest2 = vstd::slice::slice_subrange(buf, 4 + n, buf.len());
        assert(rest2@ =~= bytes_from(buf@, 4 + n));
        let (vpcc, m) = decode_atom::<Vpcc>(rest2)?;
        Ok((Vp09 { visual, vpcc }, 4 + n + m))
    }

    fn encode_body(&self, out: &mut Vec<u8>) -> (r: Result<(), Error>) {
        let ghost start = out@;
        put_u32(out, 0);
        self.visual.encode(out)?;
        match encode_atom(&self.vpcc, out) {
            Ok(()) => {},
            Err(e) => {
                proof {
                    crate::atom::lemma_encode_atom_small::<Vpcc>(self.vpcc);
                }
                return Err(e);
            },
        }
        assert(out@ =~= start + Self::spec_encode_body(self@)->Ok_0);
        Ok(())
    }

    proof fn lemma_body_roundtrip(v: (VisualV, Vpcc)) {
        let c = spec_encode_atom::<Vpcc>(v.1)->Ok_0;
        let b = Self::spec_encode_body(v)->Ok_0;
        crate::atom::lemma_encode_atom_small::<Vpcc>(v.1);
        lemma_visual_roundtrip(v.0, c);
        assert(bytes_from(b, 4) =~= visual_bytes(v.0) + c);
        assert(bytes_from(b, 82) =~= c);
        crate::atom::lemma_atom_roundtrip::<Vpcc>(v.1, Seq::empty());
        assert(c + Seq::<u8>::empty() =~= c);
    }
}

} // verus!
