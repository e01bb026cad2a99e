pub mod chpl;
pub mod cprt;
pub mod kind;
pub mod meta;
pub mod rtng;

use vstd::prelude::*;

use crate::atom::{decode_atom, spec_decode_atom, Atom};
use crate::container::{
    decode_children, encode_opt, lemma_decode_child, lemma_scan_empty, lemma_scan_opt,
    opt_atom_bytes, opt_view, scan_children, Children,
};
use crate::error::Error;
use crate::fourcc::FourCC;
use cprt::Cprt;
use kind::Kind;
use meta::Meta;
use rtng::Rtng;

verus! {

/// User data box (`udta`): an optional copyright, kind, metadata and rating.
///
/// Children of other types are skipped.
#[derive(Debug, Clone, PartialEq, Eq, Default)]
pub struct Udta {
    pub cprt: Option<Cprt>,
    pub kind: Option<Kind>,
    pub meta: Option<Meta>,
    pub rtng: Option<Rtng>,
}

/// The copyright, the kind, the metadata and the rating of a `udta`.
pub type UdtaV = (
    Option<<Cprt as View>::V>,
    Option<<Kind as View>::V>,
    Option<<Meta as View>::V>,
    Option<<Rtng as View>::V>,
);

impl View for Udta {
    type V = UdtaV;

    open spec fn view(&self) -> UdtaV {
        (opt_view(self.cprt), opt_view(self.kind), opt_view(self.meta), opt_view(self.rtng))
    }
}

impl Children for Udta {
    type A = UdtaV;

    /// A known child is decoded and replaces an earlier one of its type; another is skipped.
    open spec fn spec_apply(acc: UdtaV, code: u32, c: Seq<u8>) -> Result<UdtaV, Error> {
        if code == Cprt::spec_kind() {
            match spec_decode_atom::<Cprt>(c) {
                Ok((x, _)) => Ok((Some(x), acc.1, acc.2, acc.3)),
                Err(e) => Err(e),
            }
        } else if code == Kind::spec_kind() {
            match spec_decode_atom::<Kind>(c) {
                Ok((x, _)) => Ok((acc.0, Some(x), acc.2, acc.3)),
                Err(e) => Err(e),
            }
        } else if code == Meta::spec_kind() {
            match spec_decode_atom::<Meta>(c) {
                Ok((x, _)) => Ok((acc.0, acc.1, Some(x), acc.3)),
                Err(e) => Err(e),
            }
        } else if code == Rtng::spec_kind() {
            match spec_decode_atom::<Rtng>(c) {
                Ok((x, _)) => Ok((acc.0, acc.1, acc.2, Some(x))),
                Err(e) => Err(e),
            }
        } else {
            Ok(acc)
        }
    }

    open spec fn spec_state(&self) -> UdtaV {
        self@
    }

    fn apply(&mut self, code: u32, child: &[u8]) -> (r: Result<(), Error>) {
        if code == 0x63707274 {
            let (x, _) = decode_atom::<Cprt>(child)?;
            self.cprt = Some(x);
        } else if code == 0x6b696e64 {
            let (x, _) = decode_atom::<Kind>(child)?;
            self.kind = Some(x);
        } else if code == 0x6d657461 {
            let (x, _) = decode_atom::<Meta>(child)?;
            self.meta = Some(x);
        } else if code == 0x72746e67 {
            let (x, _) = decode_atom::<Rtng>(child)?;
            self.rtng = Some(x);
        }
        Ok(())
    }
}

impl Atom for Udta {
    open spec fn spec_kind() -> u32 {
        0x75647461
    }

    fn kind() -> (k: FourCC) {
        FourCC::from_u32(0x75647461)
    }

    /// Child atoms until fewer than eight bytes are left.
    open spec fn spec_decode_body(s: Seq<u8>) -> Result<(UdtaV, int), Error> {
        scan_children::<Udta>(s, (None, None, None, None))
    }

    /// The copyright, the metadata, the kind, then the rating, each where present.
    open spec fn spec_encode_body(v: UdtaV) -> Result<Seq<u8>, Error> {
        match opt_atom_bytes::<Cprt>(v.0) {
            Err(e) => Err(e),
            Ok(a) => match opt_atom_bytes::<Meta>(v.2) {
                Err(e) => Err(e),
                Ok(m) => match opt_atom_bytes::<Kind>(v.1) {
                    Err(e) => Err(e),
                    Ok(b) => match opt_atom_bytes::<Rtng>(v.3) {
                        Err(e) => Err(e),
                        Ok(c) => Ok(a + m + b + c),
                    },
                },
            },
        }
    }

    /// Each child present comes back from its own encoding.
    open spec fn spec_keeps(v: UdtaV) -> bool {
        &&& (v.0 matches Some(x) ==> Cprt::spec_keeps(x))
        &&& (v.1 matches Some(x) ==> Kind::spec_keeps(x))
        &&& (v.2 matches Some(x) ==> Meta::spec_keeps(x))
        &&& (v.3 matches Some(x) ==> Rtng::spec_keeps(x))
    }

    fn decode_body(buf: &[u8]) -> (r: Result<(Self, usize), Error>) {
        let mut st = Udta { cprt: None, kind: None, meta: None, rtng: None };
        assert(buf@.subrange(0, buf@.len() as int) =~= buf@);
        let n = decode_children(buf, 0, &mut st)?;
        Ok((st, n))
    }

    fn encode_body(&self, out: &mut Vec<u8>) -> (r: Result<(), Error>) {
        let ghost start = out@;
        let mut body: Vec<u8> = Vec::new();
        encode_opt(&self.cprt, &mut body)?;
        encode_opt(&self.meta, &mut body)?;
        encode_opt(&self.kind, &mut body)?;
        encode_opt(&self.rtng, &mut body)?;
        assert(body@ =~= Self::spec_encode_body(self@)->Ok_0);
        crate::codec::put_bytes(out, body.as_slice());
        Ok(())
    }

    proof fn lemma_body_roundtrip(v: UdtaV) {
        let a = opt_atom_bytes::<Cprt>(v.0)->Ok_0;
        let m = opt_atom_bytes::<Meta>(v.2)->Ok_0;
        let b = opt_atom_bytes::<Kind>(v.1)->Ok_0;
        let c = opt_atom_bytes::<Rtng>(v.3)->Ok_0;
        let e = Seq::<u8>::empty();
        lemma_scan_empty::<Udta>(v);
        if let Some(x) = v.3 {
            lemma_decode_child::<Rtng>(x);
        }
        lemma_scan_opt::<Udta, Rtng>(v.3, e, (v.0, v.1, v.2, None), v, v);
        assert(c + e =~= c);
        if let Some(x) = v.1 {
            lemma_decode_child::<Kind>(x);
        }
        lemma_scan_opt::<Udta, Kind>(v.1, c, (v.0, None, v.2, None), (v.0, v.1, v.2, None), v);
        if let Some(x) = v.2 {
            lemma_decode_child::<Meta>(x);
        }
        lemma_scan_opt::<Udta, Meta>(v.2, b + c, (v.0, None, None, None), (v.0, None, v.2, None), v);
        if let Some(x) = v.0 {
            lemma_decode_child::<Cprt>(x);
        }
        lemma_scan_opt::<Udta, Cprt>(
            v.0,
            m + (b + c),
            (None, None, None, None),
            (v.0, None, None, None),
            v,
        );
        assert(a + (m + (b + c)) =~= a + m + b + c);
    }
}

} // verus!
