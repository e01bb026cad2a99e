pub mod esds;

use vstd::prelude::*;

use crate::atom::{
    decode_atom, encode_atom, spec_decode_atom, spec_decode_header, spec_encode_atom, Atom,
    Decode, Encode, Header,
};
use crate::codec::{bytes_from, group_codec};
use crate::container::{
    decode_children, encode_opt, lemma_decode_child, lemma_scan_child, lemma_scan_empty,
    lemma_scan_opt, opt_atom_bytes, opt_view, scan_children, Children,
};
use crate::error::Error;
use crate::fourcc::FourCC;
use super::audio::{audio_bytes, lemma_audio_roundtrip, Audio, AudioV};
use super::btrt::Btrt;
use super::taic::Taic;
use esds::{opt_es, EsDescriptorV, Esds};

verus! {

broadcast use group_codec;

/// MPEG-4 audio sample entry (`mp4a`): an audio sample entry with a required `esds` and an
/// optional bit rate and TAI clock information.
///
/// The `esds` (and a `btrt`) may also sit inside a QuickTime `wave` box among the children.
#[derive(Debug, Clone, PartialEq, Eq)]
pub struct Mp4a {
    pub audio: Audio,
    pub esds: Esds,
    pub btrt: Option<Btrt>,
    pub taic: Option<Taic>,
}

/// The audio sample entry, the elementary stream descriptor, the bit rate and the clock
/// information.
pub type Mp4aV = (AudioV, EsDescriptorV, Option<Btrt>, Option<Taic>);

impl View for Mp4a {
    type V = Mp4aV;

    open spec fn view(&self) -> Mp4aV {
        (self.audio@, self.esds@, opt_view(self.btrt), opt_view(self.taic))
    }
}

/// The type code of a QuickTime `wave` box.
pub open spec fn wave_code() -> u32 {
    0x77617665
}

/// What scanning the children of a `wave` box gives, from what was found: an `esds` or a
/// `btrt` body replaces an earlier one; other children are skipped; a child that extends to
/// the end or past it ends the scan, as do fewer than eight bytes.
pub open spec fn spec_wave_scan(t: Seq<u8>, e: Option<EsDescriptorV>, b: Option<Btrt>) -> Result<
    (Option<EsDescriptorV>, Option<Btrt>),
    Error,
>
    decreases t.len(),
{
    if t.len() < 8 {
        Ok((e, b))
    } else {
        match spec_decode_header(t) {
            Err(x) => Err(x),
            Ok((h, hl)) => match h.size {
                None => Ok((e, b)),
                Some(n) => if n > t.len() - hl {
                    Ok((e, b))
                } else {
                    let c = t.subrange(hl, hl + n);
                    let rest = t.subrange(hl + n, t.len() as int);
                    if h.kind.code == Esds::spec_kind() {
                        match Esds::spec_decode_body(c) {
                            Err(x) => Err(x),
                            Ok((v, _)) => spec_wave_scan(rest, Some(v), b),
                        }
                    } else if h.kind.code == Btrt::spec_kind() {
                        match Btrt::spec_decode_body(c) {
                            Err(x) => Err(x),
                            Ok((v, _)) => spec_wave_scan(rest, e, Some(v)),
                        }
                    } else {
                        spec_wave_scan(rest, e, b)
                    }
                },
            },
        }
    }
}

/// Scans the children of a `wave` box for an `esds` and a `btrt`.
fn decode_wave(wave: &[u8], esds: &mut Option<Esds>, btrt: &mut Option<Btrt>) -> (r: Result<
    (),
    Error,
>)
    ensures
        r is Ok ==> spec_wave_scan(wave@, opt_es_box(*old(esds)), opt_view(*old(btrt))) == Ok::<
            (Option<EsDescriptorV>, Option<Btrt>),
            Error,
        >((opt_es_box(*final(esds)), opt_view(*final(btrt)))),
        r matches Err(e) ==> spec_wave_scan(wave@, opt_es_box(*old(esds)), opt_view(*old(btrt)))
            == Err::<(Option<EsDescriptorV>, Option<Btrt>), Error>(e),
    decreases wave@.len(),
{
    if wave.len() < 8 {
        return Ok(());
    }
    let (h, hl) = Header::decode_prefix(wave)?;
    match h.size {
        None => Ok(()),
        Some(n) => {
            if n > wave.len() - hl {
                return Ok(());
            }
            let child = vstd::slice::slice_subrange(wave, hl, hl + n);
            let rest = vstd::slice::slice_subrange(wave, hl + n, wave.len());
            if h.kind.code == 0x65736473 {
                let (v, _) = Esds::decode_body(child)?;
                *esds = Some(v);
            } else if h.kind.code == 0x62747274 {
                let (v, _) = Btrt::decode_body(child)?;
                *btrt = Some(v);
            }
            decode_wave(rest, esds, btrt)
        },
    }
}

/// The value of an optional `esds`.
pub open spec fn opt_es_box(o: Option<Esds>) -> Option<EsDescriptorV> {
    match o {
        Some(x) => Some(x@),
        None => None,
    }
}

/// The children of an `mp4a` found so far.
pub struct Mp4aChildren {
    pub esds: Option<Esds>,
    pub btrt: Option<Btrt>,
    pub taic: Option<Taic>,
}

impl Children for Mp4aChildren {
    type A = (Option<EsDescriptorV>, Option<Btrt>, Option<Taic>);

    /// A known child is decoded and replaces an earlier one of its type; a `wave` is scanned
    /// for an `esds` and a `btrt`; another child is skipped.
    open spec fn spec_apply(acc: Self::A, code: u32, c: Seq<u8>) -> Result<Self::A, Error> {
        if code == Esds::spec_kind() {
            match spec_decode_atom::<Esds>(c) {
                Ok((x, _)) => Ok((Some(x), acc.1, acc.2)),
                Err(e) => Err(e),
            }
        } else if code == Btrt::spec_kind() {
            match spec_decode_atom::<Btrt>(c) {
                Ok((x, _)) => Ok((acc.0, Some(x), acc.2)),
                Err(e) => Err(e),
            }
        } else if code == Taic::spec_kind() {
            match spec_decode_atom::<Taic>(c) {
                Ok((x, _)) => Ok((acc.0, acc.1, Some(x))),
                Err(e) => Err(e),
            }
        } else if code == wave_code() {
            match spec_decode_header(c) {
                Err(e) => Err(e),
                Ok((h, hl)) => match spec_wave_scan(bytes_from(c, hl), acc.0, acc.1) {
                    Err(e) => Err(e),
                    Ok((e, b)) => Ok((e, b, acc.2)),
                },
            }
        } else {
            Ok(acc)
        }
    }

    open spec fn spec_state(&self) -> Self::A {
        (opt_es_box(self.esds), opt_view(self.btrt), opt_view(self.taic))
    }

    fn apply(&mut self, code: u32, child: &[u8]) -> (r: Result<(), Error>) {
        if code == 0x65736473 {
            let (x, _) = decode_atom::<Esds>(child)?;
            self.esds = Some(x);
        } else if code == 0x62747274 {
            let (x, _) = decode_atom::<Btrt>(child)?;
            self.btrt = Some(x);
        } else if code == 0x74616963 {
            let (x, _) = decode_atom::<Taic>(child)?;
            self.taic = Some(x);
        } else if code == 0x77617665 {
            let (_h, hl) = Header::decode_prefix(child)?;
            let body = vstd::slice::slice_subrange(child, hl, child.len());
            assert(body@ =~= bytes_from(child@, hl as int));
            decode_wave(body, &mut self.esds, &mut self.btrt)?;
        }
        Ok(())
    }
}

impl Atom for Mp4a {
    open spec fn spec_kind() -> u32 {
        0x6d703461
    }

    fn kind() -> (k: FourCC) {
        FourCC::from_u32(0x6d703461)
    }

    /// The audio sample entry, then children; a missing `esds` is `MissingBox`.
    open spec fn spec_decode_body(s: Seq<u8>) -> Result<(Mp4aV, int), Error> {
        match Audio::spec_decode(s) {
            Err(e) => Err(e),
            Ok((a, n)) => match scan_children::<Mp4aChildren>(bytes_from(s, n), (None, None, None)) {
                Err(e) => Err(e),
                Ok((acc, m)) => match acc.0 {
                    None => Err(Error::MissingBox(FourCC { code: Esds::spec_kind() })),
                    Some(es) => Ok(((a, es, acc.1, acc.2), n + m)),
                },
            },
        }
    }

    /// The audio sample entry, the `esds`, then the `btrt` and the `taic` where present.
    open spec fn spec_encode_body(v: Mp4aV) -> Result<Seq<u8>, Error> {
        match spec_encode_atom::<Esds>(v.1) {
            Err(e) => Err(e),
            Ok(es) => match opt_atom_bytes::<Btrt>(v.2) {
                Err(e) => Err(e),
                Ok(b) => match opt_atom_bytes::<Taic>(v.3) {
                    Err(e) => Err(e),
                    Ok(t) => Ok(audio_bytes(v.0) + es + b + t),
                },
            },
        }
    }

    open spec fn spec_keeps(v: Mp4aV) -> bool {
        Esds::spec_keeps(v.1)
    }

    fn decode_body(buf: &[u8]) -> (r: Result<(Self, usize), Error>) {
        let (audio, n) = Audio::decode_prefix(buf)?;
        let mut st = Mp4aChildren { esds: None, btrt: None, taic: None };
        let end = decode_children(buf, n, &mut st)?;
        match st.esds {
            None => Err(Error::MissingBox(Esds::kind())),
            Some(esds) => Ok((Mp4a { audio, esds, btrt: st.btrt, taic: st.taic }, end)),
        }
    }

    fn encode_body(&self, out: &mut Vec<u8>) -> (r: Result<(), Error>) {
        let mut body: Vec<u8> = Vec::new();
        self.audio.encode(&mut body)?;
        encode_atom(&self.esds, &mut body)?;
        encode_opt(&self.btrt, &mut body)?;
        encode_opt(&self.taic, &mut body)?;
        assert(body@ =~= Self::spec_encode_body(self@)->Ok_0);
        crate::codec::put_bytes(out, body.as_slice());
        Ok(())
    }

    proof fn lemma_body_roundtrip(v: Mp4aV) {
        let es = spec_encode_atom::<Esds>(v.1)->Ok_0;
        let b = opt_atom_bytes::<Btrt>(v.2)->Ok_0;
        let t = opt_atom_bytes::<Taic>(v.3)->Ok_0;
        lemma_mp4a_children(v);
        let kids = es + (b + t);
        let all = audio_bytes(v.0) + es + b + t;
        assert(all =~= audio_bytes(v.0) + kids);
        lemma_audio_roundtrip(v.0, kids);
        assert(bytes_from(all, 28) =~= kids);
    }
}

/// The children of a kept `mp4a`, written one after the other, scan back to what they hold.
#[verifier::spinoff_prover]
proof fn lemma_mp4a_children(v: Mp4aV)
    requires
        Mp4a::spec_keeps(v),
        Mp4a::spec_encode_body(v) is Ok,
    ensures
        ({
            let es = spec_encode_atom::<Esds>(v.1)->Ok_0;
            let b = opt_atom_bytes::<Btrt>(v.2)->Ok_0;
            let t = opt_atom_bytes::<Taic>(v.3)->Ok_0;
            scan_children::<Mp4aChildren>(es + (b + t), (None, None, None)) == Ok::<
                (<Mp4aChildren as Children>::A, int),
                Error,
            >(((Some(v.1), v.2, v.3), (es + (b + t)).len() as int))
        }),
{
    let b = opt_atom_bytes::<Btrt>(v.2)->Ok_0;
    let t = opt_atom_bytes::<Taic>(v.3)->Ok_0;
    let z = Seq::<u8>::empty();
    let fin = (Some(v.1), v.2, v.3);
    lemma_scan_empty::<Mp4aChildren>(fin);
    if let Some(x) = v.3 {
        lemma_decode_child::<Taic>(x);
    }
    lemma_scan_opt::<Mp4aChildren, Taic>(v.3, z, (Some(v.1), v.2, None), fin, fin);
    assert(t + z =~= t);
    if let Some(x) = v.2 {
        lemma_decode_child::<Btrt>(x);
    }
    lemma_scan_opt::<Mp4aChildren, Btrt>(v.2, t, (Some(v.1), None, None), (Some(v.1), v.2, None), fin);
    lemma_decode_child::<Esds>(v.1);
    lemma_scan_child::<Mp4aChildren, Esds>(v.1, b + t, (None, None, None), (Some(v.1), None, None), fin);
}

} // verus!
