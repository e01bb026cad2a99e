use vstd::prelude::*;
use vstd::slice::slice_subrange;

use crate::atom::{
    decode_atom, encode_atom, header_bytes, lemma_header_roundtrip, spec_decode_atom,
    spec_decode_header, spec_encode_atom, Atom, Decode, Encode, Header,
};
use crate::codec::{bytes_from, group_codec, put_bytes, put_u8, read_u8};
use crate::container::{encode_opt, lemma_decode_child, opt_atom_bytes, opt_view};
use crate::error::Error;
use crate::ext::read_ext;
use crate::fourcc::FourCC;
use super::audio::{audio_bytes, lemma_audio_roundtrip, Audio, AudioV};
use super::btrt::Btrt;
use super::chnl::{
    chnl_code, chnl_keeps, lemma_chnl_roundtrip, lemma_chnl_roundtrip_only_kept, spec_decode_chnl, spec_encode_chnl,
    spec_encode_chnl_atom, Chnl, ChnlV,
};

verus! {

broadcast use group_codec;

/// PCM configuration box (`pcmC`, ISO/IEC 23003-5): the byte order and the size of the
/// samples.
#[derive(Debug, Clone, Copy, PartialEq, Eq, Structural)]
pub struct PcmC {
    pub big_endian: bool,
    pub sample_size: u8,
}

impl View for PcmC {
    type V = PcmC;

    open spec fn view(&self) -> PcmC {
        *self
    }
}

impl Atom for PcmC {
    open spec fn spec_kind() -> u32 {
        0x70636d43
    }

    fn kind() -> (k: FourCC) {
        FourCC::from_u32(0x70636d43)
    }

    /// Version 0 (else `UnknownVersion`) and flags (ignored), the format flags, where 0 is
    /// big-endian, then the sample size.
    open spec fn spec_decode_body(s: Seq<u8>) -> Result<(PcmC, int), Error> {
        if s.len() < 4 {
            Err(Error::OutOfBounds)
        } else if s[0] != 0 {
            Err(Error::UnknownVersion(s[0]))
        } else if s.len() < 6 {
            Err(Error::OutOfBounds)
        } else {
            Ok((PcmC { big_endian: s[4] == 0, sample_size: s[5] }, 6))
        }
    }

    /// Version and flags 0, the format flags (0 for big-endian, else 1), the sample size.
    open spec fn spec_encode_body(v: PcmC) -> Result<Seq<u8>, Error> {
        Ok(seq![0u8, 0, 0, 0, if v.big_endian { 0u8 } else { 1u8 }, v.sample_size])
    }

    open spec fn spec_keeps(v: PcmC) -> bool {
        true
    }

    fn decode_body(buf: &[u8]) -> (r: Result<(Self, usize), Error>) {
        if buf.len() < 4 {
            return Err(Error::OutOfBounds);
        }
        let version = buf[0];
        if version != 0 {
            return Err(Error::UnknownVersion(version));
        }
        let format_flags = read_u8(buf, 4)?;
        let sample_size = read_u8(buf, 5)?;
        Ok((PcmC { big_endian: format_flags == 0, sample_size }, 6))
    }

    fn encode_body(&self, out: &mut Vec<u8>) -> (r: Result<(), Error>) {
        let ghost start = out@;
        put_u8(out, 0);
        put_u8(out, 0);
        put_u8(out, 0);
        put_u8(out, 0);
        put_u8(out, if self.big_endian { 0 } else { 1 });
        put_u8(out, self.sample_size);
        assert(out@ =~= start + Self::spec_encode_body(self@)->Ok_0);
        Ok(())
    }

    proof fn lemma_body_roundtrip(v: PcmC) {
    }
}

/// The sample format of a PCM sample entry: byte order, bits per sample, and whether the
/// samples are floating point.
#[derive(Debug, Clone, Copy, PartialEq, Eq, Structural)]
pub struct PcmFormat {
    pub big_endian: bool,
    pub sample_size: u16,
    pub float: bool,
}

/// The type codes of the PCM sample entries.
pub open spec fn sowt_code() -> u32 { 0x736f7774 }
pub open spec fn twos_code() -> u32 { 0x74776f73 }
pub open spec fn lpcm_code() -> u32 { 0x6c70636d }
pub open spec fn ipcm_code() -> u32 { 0x6970636d }
pub open spec fn fpcm_code() -> u32 { 0x6670636d }
pub open spec fn in24_code() -> u32 { 0x696e3234 }
pub open spec fn in32_code() -> u32 { 0x696e3332 }
pub open spec fn fl32_code() -> u32 { 0x666c3332 }
pub open spec fn fl64_code() -> u32 { 0x666c3634 }
pub open spec fn s16l_code() -> u32 { 0x7331366c }

/// Whether a sample entry of this type must carry a `pcmC` box (`ipcm` and `fpcm`).
pub open spec fn needs_pcmc(code: u32) -> bool {
    code == ipcm_code() || code == fpcm_code()
}

/// The sample format of an entry of type `code` whose audio samples have `sample_size`
/// bits: the `pcmC` box decides the byte order and the size where present; else the type
/// implies them (none for `ipcm`, `fpcm` and unknown types). `fl32`, `fl64` and `fpcm` are
/// floating point.
pub open spec fn spec_resolve_format(code: u32, sample_size: u16, pcmc: Option<PcmC>) -> Option<
    PcmFormat,
> {
    let float = code == fl32_code() || code == fl64_code() || code == fpcm_code();
    match pcmc {
        Some(c) => Some(
            PcmFormat { big_endian: c.big_endian, sample_size: c.sample_size as u16, float },
        ),
        None => if code == twos_code() || code == lpcm_code() {
            Some(PcmFormat { big_endian: true, sample_size, float })
        } else if code == sowt_code() {
            Some(PcmFormat { big_endian: false, sample_size, float })
        } else if code == in24_code() {
            Some(PcmFormat { big_endian: true, sample_size: 24, float })
        } else if code == in32_code() || code == fl32_code() {
            Some(PcmFormat { big_endian: true, sample_size: 32, float })
        } else if code == fl64_code() {
            Some(PcmFormat { big_endian: true, sample_size: 64, float })
        } else if code == s16l_code() {
            Some(PcmFormat { big_endian: false, sample_size: 16, float })
        } else {
            None
        },
    }
}

/// The sample format of an entry of type `fourcc`.
fn resolve_format(fourcc: FourCC, audio: &Audio, pcmc: Option<&PcmC>) -> (r: Option<PcmFormat>)
    ensures
        r == spec_resolve_format(
            fourcc.code,
            audio.sample_size,
            match pcmc {
                Some(c) => Some(*c),
                None => None,
            },
        ),
{
    let code = fourcc.code;
    let float = code == 0x666c3332 || code == 0x666c3634 || code == 0x6670636d;
    if let Some(c) = pcmc {
        return Some(
            PcmFormat { big_endian: c.big_endian, sample_size: c.sample_size as u16, float },
        );
    }
    if code == 0x74776f73 || code == 0x6c70636d {
        Some(PcmFormat { big_endian: true, sample_size: audio.sample_size, float })
    } else if code == 0x736f7774 {
        Some(PcmFormat { big_endian: false, sample_size: audio.sample_size, float })
    } else if code == 0x696e3234 {
        Some(PcmFormat { big_endian: true, sample_size: 24, float })
    } else if code == 0x696e3332 || code == 0x666c3332 {
        Some(PcmFormat { big_endian: true, sample_size: 32, float })
    } else if code == 0x666c3634 {
        Some(PcmFormat { big_endian: true, sample_size: 64, float })
    } else if code == 0x7331366c {
        Some(PcmFormat { big_endian: false, sample_size: 16, float })
    } else {
        None
    }
}

/// What the children of a PCM sample entry hold: the `pcmC`, the `chnl` and the `btrt`.
pub type PcmKids = (Option<PcmC>, Option<ChnlV>, Option<Btrt>);

/// The value of a PCM sample entry without its type: the audio sample entry and the
/// children.
pub type PcmFieldsV = (AudioV, Option<PcmC>, Option<ChnlV>, Option<Btrt>);

/// What one child makes of what was found: a `chnl` body is decoded for the entry's
/// channel count, a `pcmC` or a `btrt` atom is decoded whole; another child is skipped.
pub open spec fn pcm_step(acc: PcmKids, code: u32, body: Seq<u8>, whole: Seq<u8>, cc: u16) -> Result<
    PcmKids,
    Error,
> {
    if code == chnl_code() {
        match spec_decode_chnl(body, cc) {
            Err(e) => Err(e),
            Ok((x, _)) => Ok((acc.0, Some(x), acc.2)),
        }
    } else if code == PcmC::spec_kind() {
        match spec_decode_atom::<PcmC>(whole) {
            Err(e) => Err(e),
            Ok((x, _)) => Ok((Some(x), acc.1, acc.2)),
        }
    } else if code == Btrt::spec_kind() {
        match spec_decode_atom::<Btrt>(whole) {
            Err(e) => Err(e),
            Ok((x, _)) => Ok((acc.0, acc.1, Some(x))),
        }
    } else {
        Ok(acc)
    }
}

/// What reading the children of a PCM sample entry from the front of `t` gives, and the
/// number of bytes used: fewer than eight bytes, or a child that does not fit, ends it.
pub open spec fn spec_pcm_scan(t: Seq<u8>, cc: u16, acc: PcmKids) -> Result<(PcmKids, int), Error>
    decreases t.len(),
{
    if t.len() < 8 {
        Ok((acc, 0))
    } else {
        match spec_decode_header(t) {
            Err(e) => Err(e),
            Ok((h, hl)) => {
                let size = match h.size {
                    Some(n) => n as int,
                    None => t.len() - hl,
                };
                if size > t.len() - hl {
                    Ok((acc, 0))
                } else {
                    let end = hl + size;
                    match pcm_step(acc, h.kind.code, t.subrange(hl, end), t.subrange(0, end), cc) {
                        Err(e) => Err(e),
                        Ok(a) => match spec_pcm_scan(t.subrange(end, t.len() as int), cc, a) {
                            Err(e) => Err(e),
                            Ok((r, n)) => Ok((r, end + n)),
                        },
                    }
                }
            },
        }
    }
}

/// What decoding the fields of a PCM sample entry of type `code` gives: the audio sample
/// entry, then the children; `ipcm` and `fpcm` without a `pcmC` are `MissingBox`.
pub open spec fn spec_decode_pcm(code: u32, s: Seq<u8>) -> Result<(PcmFieldsV, int), Error> {
    match Audio::spec_decode(s) {
        Err(e) => Err(e),
        Ok((a, n)) => match spec_pcm_scan(bytes_from(s, n), a.channel_count, (None, None, None)) {
            Err(e) => Err(e),
            Ok((acc, m)) => if acc.0 is None && needs_pcmc(code) {
                Err(Error::MissingBox(FourCC { code: PcmC::spec_kind() }))
            } else {
                Ok(((a, acc.0, acc.1, acc.2), n + m))
            },
        },
    }
}

/// The bytes of an optional channel layout box.
pub open spec fn opt_chnl_bytes(o: Option<ChnlV>) -> Result<Seq<u8>, Error> {
    match o {
        Some(x) => spec_encode_chnl_atom(x),
        None => Ok(Seq::empty()),
    }
}

/// What encoding the fields of a PCM sample entry of type `code` gives: the audio sample
/// entry, then the `pcmC`, the `chnl` and the `btrt` where present; `ipcm` and `fpcm`
/// without a `pcmC` are `MissingBox`.
pub open spec fn spec_encode_pcm(code: u32, v: PcmFieldsV) -> Result<Seq<u8>, Error> {
    if v.1 is None && needs_pcmc(code) {
        Err(Error::MissingBox(FourCC { code: PcmC::spec_kind() }))
    } else {
        match opt_atom_bytes::<PcmC>(v.1) {
            Err(e) => Err(e),
            Ok(p) => match opt_chnl_bytes(v.2) {
                Err(e) => Err(e),
                Ok(c) => match opt_atom_bytes::<Btrt>(v.3) {
                    Err(e) => Err(e),
                    Ok(b) => Ok(audio_bytes(v.0) + p + c + b),
                },
            },
        }
    }
}

/// The fields that come back unchanged from their bytes: a channel layout that comes back
/// for the entry's channel count.
pub open spec fn pcm_keeps(v: PcmFieldsV) -> bool {
    match v.2 {
        Some(c) => chnl_keeps(c, v.0.channel_count),
        None => true,
    }
}

/// The children of a PCM sample entry found so far.
pub struct PcmChildren {
    pub pcmc: Option<PcmC>,
    pub chnl: Option<Chnl>,
    pub btrt: Option<Btrt>,
}

impl PcmChildren {
    /// The value of what was found.
    pub open spec fn spec_state(&self) -> PcmKids {
        (self.pcmc, opt_view(self.chnl), self.btrt)
    }
}

/// Reads the children of a PCM sample entry from the front of `t`.
fn decode_pcm_scan(t: &[u8], cc: u16, st: &mut PcmChildren) -> (r: Result<usize, Error>)
    ensures
        r matches Ok(n) ==> n <= t@.len() && spec_pcm_scan(t@, cc, old(st).spec_state()) == Ok::<
            (PcmKids, int),
            Error,
        >((final(st).spec_state(), n as int)),
        r matches Err(e) ==> spec_pcm_scan(t@, cc, old(st).spec_state()) == Err::<
            (PcmKids, int),
            Error,
        >(e),
    decreases t@.len(),
{
    if t.len() < 8 {
        return Ok(0);
    }
    let (h, hl) = Header::decode_prefix(t)?;
    let left = t.len() - hl;
    let size = match h.size {
        Some(n) => n,
        None => left,
    };
    if size > left {
        return Ok(0);
    }
    let end = hl + size;
    if h.kind.code == 0x63686e6c {
        let body = slice_subrange(t, hl, end);
        let (x, _) = Chnl::decode_body_with_channel_count(body, cc)?;
        st.chnl = Some(x);
    } else if h.kind.code == 0x70636d43 {
        let whole = slice_subrange(t, 0, end);
        let (x, _) = decode_atom::<PcmC>(whole)?;
        st.pcmc = Some(x);
    } else if h.kind.code == 0x62747274 {
        let whole = slice_subrange(t, 0, end);
        let (x, _) = decode_atom::<Btrt>(whole)?;
        st.btrt = Some(x);
    }
    let rest = slice_subrange(t, end, t.len());
    let n = decode_pcm_scan(rest, cc, st)?;
    Ok(end + n)
}

/// Decodes the fields of a PCM sample entry of type `code` from the start of `buf`.
fn decode_pcm_fields(code: u32, buf: &[u8]) -> (r: Result<
    ((Audio, Option<PcmC>, Option<Chnl>, Option<Btrt>), usize),
    Error,
>)
    ensures
        r matches Ok((f, n)) ==> n <= buf@.len() && spec_decode_pcm(code, buf@) == Ok::<
            (PcmFieldsV, int),
            Error,
        >(((f.0@, f.1, opt_view(f.2), f.3), n as int)),
        r matches Err(e) ==> spec_decode_pcm(code, buf@) == Err::<(PcmFieldsV, int), Error>(e),
{
    let (audio, n) = Audio::decode_prefix(buf)?;
    let rest = slice_subrange(buf, n, buf.len());
    assert(rest@ =~= bytes_from(buf@, n as int));
    let mut st = PcmChildren { pcmc: None, chnl: None, btrt: None };
    let m = decode_pcm_scan(rest, audio.channel_count, &mut st)?;
    if st.pcmc.is_none() && (code == 0x6970636d || code == 0x6670636d) {
        return Err(Error::MissingBox(PcmC::kind()));
    }
    Ok(((audio, st.pcmc, st.chnl, st.btrt), n + m))
}

/// Appends the fields of a PCM sample entry of type `fourcc`; on an error nothing is
/// appended.
fn encode_fields(
    fourcc: FourCC,
    audio: &Audio,
    pcmc: &Option<PcmC>,
    chnl: &Option<Chnl>,
    btrt: &Option<Btrt>,
    out: &mut Vec<u8>,
) -> (r: Result<(), Error>)
    ensures
        spec_encode_pcm(fourcc.code, (audio@, *pcmc, opt_view(*chnl), *btrt)) matches Ok(b) ==> r is Ok
            && final(out)@ == old(out)@ + b,
        spec_encode_pcm(fourcc.code, (audio@, *pcmc, opt_view(*chnl), *btrt)) matches Err(e) ==> r
            == Err::<(), Error>(e) && final(out)@ == old(out)@,
{
    if pcmc.is_none() && (fourcc.code == 0x6970636d || fourcc.code == 0x6670636d) {
        return Err(Error::MissingBox(PcmC::kind()));
    }
    let mut body: Vec<u8> = Vec::new();
    audio.encode(&mut body)?;
    encode_opt(pcmc, &mut body)?;
    match chnl {
        Some(c) => {
            c.encode(&mut body)?;
        },
        None => {},
    }
    encode_opt(btrt, &mut body)?;
    assert(body@ =~= spec_encode_pcm(fourcc.code, (audio@, *pcmc, opt_view(*chnl), *btrt))->Ok_0);
    put_bytes(out, body.as_slice());
    Ok(())
}

/// A generic PCM sample entry: its type, the audio sample entry, and the optional `pcmC`,
/// `chnl` and `btrt` children.
#[derive(Debug, Clone, PartialEq, Eq)]
pub struct Pcm {
    pub fourcc: FourCC,
    pub audio: Audio,
    pub pcmc: Option<PcmC>,
    pub chnl: Option<Chnl>,
    pub btrt: Option<Btrt>,
}

impl View for Pcm {
    type V = (FourCC, PcmFieldsV);

    open spec fn view(&self) -> (FourCC, PcmFieldsV) {
        (self.fourcc, (self.audio@, self.pcmc, opt_view(self.chnl), self.btrt))
    }
}

impl Pcm {
    /// Decodes the fields of a sample entry of type `fourcc` from the front of `buf`, and
    /// moves `buf` past what was used.
    pub fn decode_with_fourcc(fourcc: FourCC, buf: &mut &[u8]) -> (r: Result<Pcm, Error>)
        ensures
            r matches Ok(p) ==> (spec_decode_pcm(fourcc.code, old(buf)@) matches Ok((v, n))
                && p@ == (fourcc, v) && final(buf)@ == old(buf)@.subrange(n, old(buf)@.len() as int)),
            r matches Err(e) ==> spec_decode_pcm(fourcc.code, old(buf)@) == Err::<
                (PcmFieldsV, int),
                Error,
            >(e),
    {
        let ((audio, pcmc, chnl, btrt), n) = decode_pcm_fields(fourcc.code, *buf)?;
        let rest = slice_subrange(*buf, n, buf.len());
        *buf = rest;
        Ok(Pcm { fourcc, audio, pcmc, chnl, btrt })
    }

    /// Appends the fields of this sample entry (not its header); on an error nothing is
    /// appended.
    pub fn encode_with_fourcc(&self, out: &mut Vec<u8>) -> (r: Result<(), Error>)
        ensures
            spec_encode_pcm(self.fourcc.code, self@.1) matches Ok(b) ==> r is Ok && final(out)@
                == old(out)@ + b,
            spec_encode_pcm(self.fourcc.code, self@.1) matches Err(e) ==> r == Err::<(), Error>(e)
                && final(out)@ == old(out)@,
    {
        encode_fields(self.fourcc, &self.audio, &self.pcmc, &self.chnl, &self.btrt, out)
    }

    /// The sample format of this entry.
    pub fn format(&self) -> (r: Option<PcmFormat>)
        ensures
            r == spec_resolve_format(self.fourcc.code, self.audio.sample_size, self.pcmc),
    {
        resolve_format(self.fourcc, &self.audio, self.pcmc.as_ref())
    }
}

/// Whether `code` is the type of one of the PCM sample entries.
pub open spec fn pcm_code(code: u32) -> bool {
    code == sowt_code() || code == twos_code() || code == lpcm_code() || code == ipcm_code()
        || code == fpcm_code() || code == in24_code() || code == in32_code() || code
        == fl32_code() || code == fl64_code() || code == s16l_code()
}

/// A decoded `ipcm` or `fpcm` entry carries its `pcmC`, so the sample format of a decoded
/// entry is missing only where it has no `pcmC` and its type is none of the PCM types.
pub proof fn lemma_decoded_format(code: u32, s: Seq<u8>)
    requires
        spec_decode_pcm(code, s) is Ok,
    ensures
        ({
            let v = spec_decode_pcm(code, s)->Ok_0.0;
            &&& needs_pcmc(code) ==> v.1 is Some
            &&& spec_resolve_format(code, v.0.sample_size, v.1) is None <==> (v.1 is None
                && !pcm_code(code))
        }),
{
}

/// An atom in front of the rest, as a child of a PCM sample entry: taken in, and the scan
/// goes on with the rest.
proof fn lemma_pcm_scan_atom<T: Atom>(x: T::V, rest: Seq<u8>, cc: u16, acc: PcmKids, next: PcmKids, res: PcmKids)
    requires
        T::spec_keeps(x),
        spec_encode_atom::<T>(x) is Ok,
        pcm_step(
            acc,
            T::spec_kind(),
            T::spec_encode_body(x)->Ok_0,
            spec_encode_atom::<T>(x)->Ok_0,
            cc,
        ) == Ok::<PcmKids, Error>(next),
        spec_pcm_scan(rest, cc, next) == Ok::<(PcmKids, int), Error>((res, rest.len() as int)),
    ensures
        spec_pcm_scan(spec_encode_atom::<T>(x)->Ok_0 + rest, cc, acc) == Ok::<(PcmKids, int), Error>(
            (res, (spec_encode_atom::<T>(x)->Ok_0 + rest).len() as int),
        ),
{
    let body = T::spec_encode_body(x)->Ok_0;
    let e = spec_encode_atom::<T>(x)->Ok_0;
    let s = e + rest;
    lemma_header_roundtrip(T::spec_kind(), body, rest);
    assert(s =~= header_bytes(T::spec_kind(), body.len() as int) + body + rest);
    assert(s.subrange(8, 8 + body.len() as int) =~= body);
    assert(s.subrange(0, 8 + body.len() as int) =~= e);
    assert(s.subrange(8 + body.len() as int, s.len() as int) =~= rest);
}

/// An atom in front of a rest whose scan fails, as a child of a PCM sample entry: the scan
/// fails too.
proof fn lemma_pcm_scan_atom_err<T: Atom>(x: T::V, rest: Seq<u8>, cc: u16, acc: PcmKids, next: PcmKids)
    requires
        T::spec_keeps(x),
        spec_encode_atom::<T>(x) is Ok,
        pcm_step(
            acc,
            T::spec_kind(),
            T::spec_encode_body(x)->Ok_0,
            spec_encode_atom::<T>(x)->Ok_0,
            cc,
        ) == Ok::<PcmKids, Error>(next),
        spec_pcm_scan(rest, cc, next) is Err,
    ensures
        spec_pcm_scan(spec_encode_atom::<T>(x)->Ok_0 + rest, cc, acc) is Err,
{
    let body = T::spec_encode_body(x)->Ok_0;
    let e = spec_encode_atom::<T>(x)->Ok_0;
    let s = e + rest;
    lemma_header_roundtrip(T::spec_kind(), body, rest);
    assert(s =~= header_bytes(T::spec_kind(), body.len() as int) + body + rest);
    assert(s.subrange(8, 8 + body.len() as int) =~= body);
    assert(s.subrange(0, 8 + body.len() as int) =~= e);
    assert(s.subrange(8 + body.len() as int, s.len() as int) =~= rest);
}

/// A channel layout box in front of the rest, as a child of a PCM sample entry: taken in,
/// and the scan goes on with the rest.
proof fn lemma_pcm_scan_chnl(x: ChnlV, rest: Seq<u8>, cc: u16, acc: PcmKids, res: PcmKids)
    requires
        chnl_keeps(x, cc),
        spec_encode_chnl_atom(x) is Ok,
        spec_pcm_scan(rest, cc, (acc.0, Some(x), acc.2)) == Ok::<(PcmKids, int), Error>(
            (res, rest.len() as int),
        ),
    ensures
        spec_pcm_scan(spec_encode_chnl_atom(x)->Ok_0 + rest, cc, acc) == Ok::<(PcmKids, int), Error>(
            (res, (spec_encode_chnl_atom(x)->Ok_0 + rest).len() as int),
        ),
{
    let body = spec_encode_chnl(x)->Ok_0;
    let e = spec_encode_chnl_atom(x)->Ok_0;
    let s = e + rest;
    lemma_header_roundtrip(chnl_code(), body, rest);
    lemma_chnl_roundtrip(x, cc);
    assert(s =~= header_bytes(chnl_code(), body.len() as int) + body + rest);
    assert(s.subrange(8, 8 + body.len() as int) =~= body);
    assert(s.subrange(8 + body.len() as int, s.len() as int) =~= rest);
}

/// A channel layout box in front of the rest, as a child of a PCM sample entry: its body is
/// decoded for the entry's channel count, and the scan goes on with the rest.
proof fn lemma_pcm_scan_chnl_any(x: ChnlV, rest: Seq<u8>, cc: u16, acc: PcmKids)
    requires
        spec_encode_chnl_atom(x) is Ok,
    ensures
        ({
            let e = spec_encode_chnl_atom(x)->Ok_0;
            spec_pcm_scan(e + rest, cc, acc) == match spec_decode_chnl(
                spec_encode_chnl(x)->Ok_0,
                cc,
            ) {
                Err(er) => Err(er),
                Ok((y, _)) => match spec_pcm_scan(rest, cc, (acc.0, Some(y), acc.2)) {
                    Err(er) => Err(er),
                    Ok((r, n)) => Ok((r, e.len() + n)),
                },
            }
        }),
{
    let body = spec_encode_chnl(x)->Ok_0;
    let e = spec_encode_chnl_atom(x)->Ok_0;
    let s = e + rest;
    lemma_header_roundtrip(chnl_code(), body, rest);
    assert(s =~= header_bytes(chnl_code(), body.len() as int) + body + rest);
    assert(s.subrange(8, 8 + body.len() as int) =~= body);
    assert(s.subrange(8 + body.len() as int, s.len() as int) =~= rest);
}

/// Fields whose channel layout box is not kept do not come back from their bytes.
#[verifier::spinoff_prover]
proof fn lemma_pcm_roundtrip_only_kept(code: u32, v: PcmFieldsV)
    requires
        spec_encode_pcm(code, v) is Ok,
        spec_decode_pcm(code, spec_encode_pcm(code, v)->Ok_0) matches Ok((w, _)) && w == v,
    ensures
        pcm_keeps(v),
{
    if let Some(x) = v.2 {
        let cc = v.0.channel_count;
        let p = opt_atom_bytes::<PcmC>(v.1)->Ok_0;
        let c = opt_chnl_bytes(v.2)->Ok_0;
        let b = opt_atom_bytes::<Btrt>(v.3)->Ok_0;
        let z = Seq::<u8>::empty();
        let kids = p + (c + b);
        let all = audio_bytes(v.0) + p + c + b;
        assert(all =~= audio_bytes(v.0) + kids);
        lemma_audio_roundtrip(v.0, kids);
        assert(bytes_from(all, 28) =~= kids);
        lemma_pcm_scan_chnl_any(x, b, cc, (v.1, None, None));
        match spec_decode_chnl(spec_encode_chnl(x)->Ok_0, cc) {
            Err(_) => {
                if let Some(y) = v.1 {
                    lemma_decode_child::<PcmC>(y);
                    lemma_pcm_scan_atom_err::<PcmC>(y, c + b, cc, (None, None, None), (v.1, None, None));
                } else {
                    assert(p + (c + b) =~= c + b);
                }
            },
            Ok((y, _)) => {
                let fin = (v.1, Some(y), v.3);
                assert(spec_pcm_scan(z, cc, fin) == Ok::<(PcmKids, int), Error>((fin, 0)));
                match v.3 {
                    Some(t) => {
                        lemma_decode_child::<Btrt>(t);
                        lemma_pcm_scan_atom::<Btrt>(t, z, cc, (v.1, Some(y), None), fin, fin);
                        assert(b + z =~= b);
                    },
                    None => {
                        assert(b =~= z);
                    },
                }
                match v.1 {
                    Some(t) => {
                        lemma_decode_child::<PcmC>(t);
                        lemma_pcm_scan_atom::<PcmC>(t, c + b, cc, (None, None, None), (v.1, None, None), fin);
                    },
                    None => {
                        assert(p + (c + b) =~= c + b);
                    },
                }
                lemma_chnl_roundtrip_only_kept(x, cc);
            },
        }
    }
}

/// The fields of a PCM sample entry come back from their bytes exactly when they are kept:
/// the channel layout box, where there is one, comes back for the entry's channel count.
pub proof fn lemma_pcm_roundtrip_exactly(code: u32, v: PcmFieldsV)
    requires
        spec_encode_pcm(code, v) is Ok,
    ensures
        spec_decode_pcm(code, spec_encode_pcm(code, v)->Ok_0) == Ok::<(PcmFieldsV, int), Error>(
            (v, spec_encode_pcm(code, v)->Ok_0.len() as int),
        ) <==> pcm_keeps(v),
{
    if pcm_keeps(v) {
        lemma_pcm_roundtrip(code, v);
    }
    if spec_decode_pcm(code, spec_encode_pcm(code, v)->Ok_0) == Ok::<(PcmFieldsV, int), Error>(
        (v, spec_encode_pcm(code, v)->Ok_0.len() as int),
    ) {
        lemma_pcm_roundtrip_only_kept(code, v);
    }
}

/// The children of kept fields, written one after the other, scan back to what they hold.
#[verifier::spinoff_prover]
proof fn lemma_pcm_children(code: u32, v: PcmFieldsV)
    requires
        pcm_keeps(v),
        spec_encode_pcm(code, v) is Ok,
    ensures
        ({
            let p = opt_atom_bytes::<PcmC>(v.1)->Ok_0;
            let c = opt_chnl_bytes(v.2)->Ok_0;
            let b = opt_atom_bytes::<Btrt>(v.3)->Ok_0;
            spec_pcm_scan(p + (c + b), v.0.channel_count, (None, None, None)) == Ok::<
                (PcmKids, int),
                Error,
            >(((v.1, v.2, v.3), (p + (c + b)).len() as int))
        }),
{
    let cc = v.0.channel_count;
    let p = opt_atom_bytes::<PcmC>(v.1)->Ok_0;
    let c = opt_chnl_bytes(v.2)->Ok_0;
    let b = opt_atom_bytes::<Btrt>(v.3)->Ok_0;
    let z = Seq::<u8>::empty();
    let fin = (v.1, v.2, v.3);
    assert(spec_pcm_scan(z, cc, fin) == Ok::<(PcmKids, int), Error>((fin, 0)));
    match v.3 {
        Some(x) => {
            lemma_decode_child::<Btrt>(x);
            lemma_pcm_scan_atom::<Btrt>(x, z, cc, (v.1, v.2, None), fin, fin);
            assert(b + z =~= b);
        },
        None => {
            assert(b =~= z);
        },
    }
    match v.2 {
        Some(x) => {
            lemma_pcm_scan_chnl(x, b, cc, (v.1, None, None), fin);
        },
        None => {
            assert(c + b =~= b);
        },
    }
    match v.1 {
        Some(x) => {
            lemma_decode_child::<PcmC>(x);
            lemma_pcm_scan_atom::<PcmC>(x, c + b, cc, (None, None, None), (v.1, None, None), fin);
        },
        None => {
            assert(p + (c + b) =~= c + b);
        },
    }
}

/// Kept fields decode back from their bytes.
pub proof fn lemma_pcm_roundtrip(code: u32, v: PcmFieldsV)
    requires
        pcm_keeps(v),
        spec_encode_pcm(code, v) is Ok,
    ensures
        spec_decode_pcm(code, spec_encode_pcm(code, v)->Ok_0) == Ok::<(PcmFieldsV, int), Error>(
            (v, spec_encode_pcm(code, v)->Ok_0.len() as int),
        ),
{
    let p = opt_atom_bytes::<PcmC>(v.1)->Ok_0;
    let c = opt_chnl_bytes(v.2)->Ok_0;
    let b = opt_atom_bytes::<Btrt>(v.3)->Ok_0;
    lemma_pcm_children(code, v);
    let kids = p + (c + b);
    let all = audio_bytes(v.0) + p + c + b;
    assert(all =~= audio_bytes(v.0) + kids);
    lemma_audio_roundtrip(v.0, kids);
    assert(bytes_from(all, 28) =~= kids);
}

/// PCM sample entry of type `sowt`: the audio sample entry and the optional `pcmC`, `chnl`
/// and `btrt` children.
#[derive(Debug, Clone, PartialEq, Eq)]
pub struct Sowt {
    pub audio: Audio,
    pub pcmc: Option<PcmC>,
    pub chnl: Option<Chnl>,
    pub btrt: Option<Btrt>,
}

impl View for Sowt {
    type V = PcmFieldsV;

    open spec fn view(&self) -> PcmFieldsV {
        (self.audio@, self.pcmc, opt_view(self.chnl), self.btrt)
    }
}

impl Sowt {
    /// The sample format of this entry.
    pub fn format(&self) -> (r: Option<PcmFormat>)
        ensures
            r == spec_resolve_format(0x736f7774, self.audio.sample_size, self.pcmc),
    {
        resolve_format(Self::kind(), &self.audio, self.pcmc.as_ref())
    }
}

impl Atom for Sowt {
    open spec fn spec_kind() -> u32 {
        0x736f7774
    }

    fn kind() -> (k: FourCC) {
        FourCC::from_u32(0x736f7774)
    }

    open spec fn spec_decode_body(s: Seq<u8>) -> Result<(PcmFieldsV, int), Error> {
        spec_decode_pcm(0x736f7774, s)
    }

    open spec fn spec_encode_body(v: PcmFieldsV) -> Result<Seq<u8>, Error> {
        spec_encode_pcm(0x736f7774, v)
    }

    open spec fn spec_keeps(v: PcmFieldsV) -> bool {
        pcm_keeps(v)
    }

    fn decode_body(buf: &[u8]) -> (r: Result<(Self, usize), Error>) {
        let ((audio, pcmc, chnl, btrt), n) = decode_pcm_fields(0x736f7774, buf)?;
        Ok((Sowt { audio, pcmc, chnl, btrt }, n))
    }

    fn encode_body(&self, out: &mut Vec<u8>) -> (r: Result<(), Error>) {
        encode_fields(Self::kind(), &self.audio, &self.pcmc, &self.chnl, &self.btrt, out)
    }

    proof fn lemma_body_roundtrip(v: PcmFieldsV) {
        lemma_pcm_roundtrip(0x736f7774, v);
    }
}

/// PCM sample entry of type `twos`: the audio sample entry and the optional `pcmC`, `chnl`
/// and `btrt` children.
#[derive(Debug, Clone, PartialEq, Eq)]
pub struct Twos {
    pub audio: Audio,
    pub pcmc: Option<PcmC>,
    pub chnl: Option<Chnl>,
    pub btrt: Option<Btrt>,
}

impl View for Twos {
    type V = PcmFieldsV;

    open spec fn view(&self) -> PcmFieldsV {
        (self.audio@, self.pcmc, opt_view(self.chnl), self.btrt)
    }
}

impl Twos {
    /// The sample format of this entry.
    pub fn format(&self) -> (r: Option<PcmFormat>)
        ensures
            r == spec_resolve_format(0x74776f73, self.audio.sample_size, self.pcmc),
    {
        resolve_format(Self::kind(), &self.audio, self.pcmc.as_ref())
    }
}

impl Atom for Twos {
    open spec fn spec_kind() -> u32 {
        0x74776f73
    }

    fn kind() -> (k: FourCC) {
        FourCC::from_u32(0x74776f73)
    }

    open spec fn spec_decode_body(s: Seq<u8>) -> Result<(PcmFieldsV, int), Error> {
        spec_decode_pcm(0x74776f73, s)
    }

    open spec fn spec_encode_body(v: PcmFieldsV) -> Result<Seq<u8>, Error> {
        spec_encode_pcm(0x74776f73, v)
    }

    open spec fn spec_keeps(v: PcmFieldsV) -> bool {
        pcm_keeps(v)
    }

    fn decode_body(buf: &[u8]) -> (r: Result<(Self, usize), Error>) {
        let ((audio, pcmc, chnl, btrt), n) = decode_pcm_fields(0x74776f73, buf)?;
        Ok((Twos { audio, pcmc, chnl, btrt }, n))
    }

    fn encode_body(&self, out: &mut Vec<u8>) -> (r: Result<(), Error>) {
        encode_fields(Self::kind(), &self.audio, &self.pcmc, &self.chnl, &self.btrt, out)
    }

    proof fn lemma_body_roundtrip(v: PcmFieldsV) {
        lemma_pcm_roundtrip(0x74776f73, v);
    }
}

/// PCM sample entry of type `lpcm`: the audio sample entry and the optional `pcmC`, `chnl`
/// and `btrt` children.
#[derive(Debug, Clone, PartialEq, Eq)]
pub struct Lpcm {
    pub audio: Audio,
    pub pcmc: Option<PcmC>,
    pub chnl: Option<Chnl>,
    pub btrt: Option<Btrt>,
}

impl View for Lpcm {
    type V = PcmFieldsV;

    open spec fn view(&self) -> PcmFieldsV {
        (self.audio@, self.pcmc, opt_view(self.chnl), self.btrt)
    }
}

impl Lpcm {
    /// The sample format of this entry.
    pub fn format(&self) -> (r: Option<PcmFormat>)
        ensures
            r == spec_resolve_format(0x6c70636d, self.audio.sample_size, self.pcmc),
    {
        resolve_format(Self::kind(), &self.audio, self.pcmc.as_ref())
    }
}

impl Atom for Lpcm {
    open spec fn spec_kind() -> u32 {
        0x6c70636d
    }

    fn kind() -> (k: FourCC) {
        FourCC::from_u32(0x6c70636d)
    }

    open spec fn spec_decode_body(s: Seq<u8>) -> Result<(PcmFieldsV, int), Error> {
        spec_decode_pcm(0x6c70636d, s)
    }

    open spec fn spec_encode_body(v: PcmFieldsV) -> Result<Seq<u8>, Error> {
        spec_encode_pcm(0x6c70636d, v)
    }

    open spec fn spec_keeps(v: PcmFieldsV) -> bool {
        pcm_keeps(v)
    }

    fn decode_body(buf: &[u8]) -> (r: Result<(Self, usize), Error>) {
        let ((audio, pcmc, chnl, btrt), n) = decode_pcm_fields(0x6c70636d, buf)?;
        Ok((Lpcm { audio, pcmc, chnl, btrt }, n))
    }

    fn encode_body(&self, out: &mut Vec<u8>) -> (r: Result<(), Error>) {
        encode_fields(Self::kind(), &self.audio, &self.pcmc, &self.chnl, &self.btrt, out)
    }

    proof fn lemma_body_roundtrip(v: PcmFieldsV) {
        lemma_pcm_roundtrip(0x6c70636d, v);
    }
}

/// PCM sample entry of type `ipcm`: the audio sample entry and the optional `pcmC`, `chnl`
/// and `btrt` children.
#[derive(Debug, Clone, PartialEq, Eq)]
pub struct Ipcm {
    pub audio: Audio,
    pub pcmc: Option<PcmC>,
    pub chnl: Option<Chnl>,
    pub btrt: Option<Btrt>,
}

impl View for Ipcm {
    type V = PcmFieldsV;

    open spec fn view(&self) -> PcmFieldsV {
        (self.audio@, self.pcmc, opt_view(self.chnl), self.btrt)
    }
}

impl Ipcm {
    /// The sample format of this entry.
    pub fn format(&self) -> (r: Option<PcmFormat>)
        ensures
            r == spec_resolve_format(0x6970636d, self.audio.sample_size, self.pcmc),
    {
        resolve_format(Self::kind(), &self.audio, self.pcmc.as_ref())
    }
}

impl Atom for Ipcm {
    open spec fn spec_kind() -> u32 {
        0x6970636d
    }

    fn kind() -> (k: FourCC) {
        FourCC::from_u32(0x6970636d)
    }

    open spec fn spec_decode_body(s: Seq<u8>) -> Result<(PcmFieldsV, int), Error> {
        spec_decode_pcm(0x6970636d, s)
    }

    open spec fn spec_encode_body(v: PcmFieldsV) -> Result<Seq<u8>, Error> {
        spec_encode_pcm(0x6970636d, v)
    }

    open spec fn spec_keeps(v: PcmFieldsV) -> bool {
        pcm_keeps(v)
    }

    fn decode_body(buf: &[u8]) -> (r: Result<(Self, usize), Error>) {
        let ((audio, pcmc, chnl, btrt), n) = decode_pcm_fields(0x6970636d, buf)?;
        Ok((Ipcm { audio, pcmc, chnl, btrt }, n))
    }

    fn encode_body(&self, out: &mut Vec<u8>) -> (r: Result<(), Error>) {
        encode_fields(Self::kind(), &self.audio, &self.pcmc, &self.chnl, &self.btrt, out)
    }

    proof fn lemma_body_roundtrip(v: PcmFieldsV) {
        lemma_pcm_roundtrip(0x6970636d, v);
    }
}

/// PCM sample entry of type `fpcm`: the audio sample entry and the optional `pcmC`, `chnl`
/// and `btrt` children.
#[derive(Debug, Clone, PartialEq, Eq)]
pub struct Fpcm {
    pub audio: Audio,
    pub pcmc: Option<PcmC>,
    pub chnl: Option<Chnl>,
    pub btrt: Option<Btrt>,
}

impl View for Fpcm {
    type V = PcmFieldsV;

    open spec fn view(&self) -> PcmFieldsV {
        (self.audio@, self.pcmc, opt_view(self.chnl), self.btrt)
    }
}

impl Fpcm {
    /// The sample format of this entry.
    pub fn format(&self) -> (r: Option<PcmFormat>)
        ensures
            r == spec_resolve_format(0x6670636d, self.audio.sample_size, self.pcmc),
    {
        resolve_format(Self::kind(), &self.audio, self.pcmc.as_ref())
    }
}

impl Atom for Fpcm {
    open spec fn spec_kind() -> u32 {
        0x6670636d
    }

    fn kind() -> (k: FourCC) {
        FourCC::from_u32(0x6670636d)
    }

    open spec fn spec_decode_body(s: Seq<u8>) -> Result<(PcmFieldsV, int), Error> {
        spec_decode_pcm(0x6670636d, s)
    }

    open spec fn spec_encode_body(v: PcmFieldsV) -> Result<Seq<u8>, Error> {
        spec_encode_pcm(0x6670636d, v)
    }

    open spec fn spec_keeps(v: PcmFieldsV) -> bool {
        pcm_keeps(v)
    }

    fn decode_body(buf: &[u8]) -> (r: Result<(Self, usize), Error>) {
        let ((audio, pcmc, chnl, btrt), n) = decode_pcm_fields(0x6670636d, buf)?;
        Ok((Fpcm { audio, pcmc, chnl, btrt }, n))
    }

    fn encode_body(&self, out: &mut Vec<u8>) -> (r: Result<(), Error>) {
        encode_fields(Self::kind(), &self.audio, &self.pcmc, &self.chnl, &self.btrt, out)
    }

    proof fn lemma_body_roundtrip(v: PcmFieldsV) {
        lemma_pcm_roundtrip(0x6670636d, v);
    }
}

/// PCM sample entry of type `in24`: the audio sample entry and the optional `pcmC`, `chnl`
/// and `btrt` children.
#[derive(Debug, Clone, PartialEq, Eq)]
pub struct In24 {
    pub audio: Audio,
    pub pcmc: Option<PcmC>,
    pub chnl: Option<Chnl>,
    pub btrt: Option<Btrt>,
}

impl View for In24 {
    type V = PcmFieldsV;

    open spec fn view(&self) -> PcmFieldsV {
        (self.audio@, self.pcmc, opt_view(self.chnl), self.btrt)
    }
}

impl In24 {
    /// The sample format of this entry.
    pub fn format(&self) -> (r: Option<PcmFormat>)
        ensures
            r == spec_resolve_format(0x696e3234, self.audio.sample_size, self.pcmc),
    {
        resolve_format(Self::kind(), &self.audio, self.pcmc.as_ref())
    }
}

impl Atom for In24 {
    open spec fn spec_kind() -> u32 {
        0x696e3234
    }

    fn kind() -> (k: FourCC) {
        FourCC::from_u32(0x696e3234)
    }

    open spec fn spec_decode_body(s: Seq<u8>) -> Result<(PcmFieldsV, int), Error> {
        spec_decode_pcm(0x696e3234, s)
    }

    open spec fn spec_encode_body(v: PcmFieldsV) -> Result<Seq<u8>, Error> {
        spec_encode_pcm(0x696e3234, v)
    }

    open spec fn spec_keeps(v: PcmFieldsV) -> bool {
        pcm_keeps(v)
    }

    fn decode_body(buf: &[u8]) -> (r: Result<(Self, usize), Error>) {
        let ((audio, pcmc, chnl, btrt), n) = decode_pcm_fields(0x696e3234, buf)?;
        Ok((In24 { audio, pcmc, chnl, btrt }, n))
    }

    fn encode_body(&self, out: &mut Vec<u8>) -> (r: Result<(), Error>) {
        encode_fields(Self::kind(), &self.audio, &self.pcmc, &self.chnl, &self.btrt, out)
    }

    proof fn lemma_body_roundtrip(v: PcmFieldsV) {
        lemma_pcm_roundtrip(0x696e3234, v);
    }
}

/// PCM sample entry of type `in32`: the audio sample entry and the optional `pcmC`, `chnl`
/// and `btrt` children.
#[derive(Debug, Clone, PartialEq, Eq)]
pub struct In32 {
    pub audio: Audio,
    pub pcmc: Option<PcmC>,
    pub chnl: Option<Chnl>,
    pub btrt: Option<Btrt>,
}

impl View for In32 {
    type V = PcmFieldsV;

    open spec fn view(&self) -> PcmFieldsV {
        (self.audio@, self.pcmc, opt_view(self.chnl), self.btrt)
    }
}

impl In32 {
    /// The sample format of this entry.
    pub fn format(&self) -> (r: Option<PcmFormat>)
        ensures
            r == spec_resolve_format(0x696e3332, self.audio.sample_size, self.pcmc),
    {
        resolve_format(Self::kind(), &self.audio, self.pcmc.as_ref())
    }
}

impl Atom for In32 {
    open spec fn spec_kind() -> u32 {
        0x696e3332
    }

    fn kind() -> (k: FourCC) {
        FourCC::from_u32(0x696e3332)
    }

    open spec fn spec_decode_body(s: Seq<u8>) -> Result<(PcmFieldsV, int), Error> {
        spec_decode_pcm(0x696e3332, s)
    }

    open spec fn spec_encode_body(v: PcmFieldsV) -> Result<Seq<u8>, Error> {
        spec_encode_pcm(0x696e3332, v)
    }

    open spec fn spec_keeps(v: PcmFieldsV) -> bool {
        pcm_keeps(v)
    }

    fn decode_body(buf: &[u8]) -> (r: Result<(Self, usize), Error>) {
        let ((audio, pcmc, chnl, btrt), n) = decode_pcm_fields(0x696e3332, buf)?;
        Ok((In32 { audio, pcmc, chnl, btrt }, n))
    }

    fn encode_body(&self, out: &mut Vec<u8>) -> (r: Result<(), Error>) {
        encode_fields(Self::kind(), &self.audio, &self.pcmc, &self.chnl, &self.btrt, out)
    }

    proof fn lemma_body_roundtrip(v: PcmFieldsV) {
        lemma_pcm_roundtrip(0x696e3332, v);
    }
}

/// PCM sample entry of type `fl32`: the audio sample entry and the optional `pcmC`, `chnl`
/// and `btrt` children.
#[derive(Debug, Clone, PartialEq, Eq)]
pub struct Fl32 {
    pub audio: Audio,
    pub pcmc: Option<PcmC>,
    pub chnl: Option<Chnl>,
    pub btrt: Option<Btrt>,
}

impl View for Fl32 {
    type V = PcmFieldsV;

    open spec fn view(&self) -> PcmFieldsV {
        (self.audio@, self.pcmc, opt_view(self.chnl), self.btrt)
    }
}

impl Fl32 {
    /// The sample format of this entry.
    pub fn format(&self) -> (r: Option<PcmFormat>)
        ensures
            r == spec_resolve_format(0x666c3332, self.audio.sample_size, self.pcmc),
    {
        resolve_format(Self::kind(), &self.audio, self.pcmc.as_ref())
    }
}

impl Atom for Fl32 {
    open spec fn spec_kind() -> u32 {
        0x666c3332
    }

    fn kind() -> (k: FourCC) {
        FourCC::from_u32(0x666c3332)
    }

    open spec fn spec_decode_body(s: Seq<u8>) -> Result<(PcmFieldsV, int), Error> {
        spec_decode_pcm(0x666c3332, s)
    }

    open spec fn spec_encode_body(v: PcmFieldsV) -> Result<Seq<u8>, Error> {
        spec_encode_pcm(0x666c3332, v)
    }

    open spec fn spec_keeps(v: PcmFieldsV) -> bool {
        pcm_keeps(v)
    }

    fn decode_body(buf: &[u8]) -> (r: Result<(Self, usize), Error>) {
        let ((audio, pcmc, chnl, btrt), n) = decode_pcm_fields(0x666c3332, buf)?;
        Ok((Fl32 { audio, pcmc, chnl, btrt }, n))
    }

    fn encode_body(&self, out: &mut Vec<u8>) -> (r: Result<(), Error>) {
        encode_fields(Self::kind(), &self.audio, &self.pcmc, &self.chnl, &self.btrt, out)
    }

    proof fn lemma_body_roundtrip(v: PcmFieldsV) {
        lemma_pcm_roundtrip(0x666c3332, v);
    }
}

/// PCM sample entry of type `fl64`: the audio sample entry and the optional `pcmC`, `chnl`
/// and `btrt` children.
#[derive(Debug, Clone, PartialEq, Eq)]
pub struct Fl64 {
    pub audio: Audio,
    pub pcmc: Option<PcmC>,
    pub chnl: Option<Chnl>,
    pub btrt: Option<Btrt>,
}

impl View for Fl64 {
    type V = PcmFieldsV;

    open spec fn view(&self) -> PcmFieldsV {
        (self.audio@, self.pcmc, opt_view(self.chnl), self.btrt)
    }
}

impl Fl64 {
    /// The sample format of this entry.
    pub fn format(&self) -> (r: Option<PcmFormat>)
        ensures
            r == spec_resolve_format(0x666c3634, self.audio.sample_size, self.pcmc),
    {
        resolve_format(Self::kind(), &self.audio, self.pcmc.as_ref())
    }
}

impl Atom for Fl64 {
    open spec fn spec_kind() -> u32 {
        0x666c3634
    }

    fn kind() -> (k: FourCC) {
        FourCC::from_u32(0x666c3634)
    }

    open spec fn spec_decode_body(s: Seq<u8>) -> Result<(PcmFieldsV, int), Error> {
        spec_decode_pcm(0x666c3634, s)
    }

    open spec fn spec_encode_body(v: PcmFieldsV) -> Result<Seq<u8>, Error> {
        spec_encode_pcm(0x666c3634, v)
    }

    open spec fn spec_keeps(v: PcmFieldsV) -> bool {
        pcm_keeps(v)
    }

    fn decode_body(buf: &[u8]) -> (r: Result<(Self, usize), Error>) {
        let ((audio, pcmc, chnl, btrt), n) = decode_pcm_fields(0x666c3634, buf)?;
        Ok((Fl64 { audio, pcmc, chnl, btrt }, n))
    }

    fn encode_body(&self, out: &mut Vec<u8>) -> (r: Result<(), Error>) {
        encode_fields(Self::kind(), &self.audio, &self.pcmc, &self.chnl, &self.btrt, out)
    }

    proof fn lemma_body_roundtrip(v: PcmFieldsV) {
        lemma_pcm_roundtrip(0x666c3634, v);
    }
}

/// PCM sample entry of type `s16l`: the audio sample entry and the optional `pcmC`, `chnl`
/// and `btrt` children.
#[derive(Debug, Clone, PartialEq, Eq)]
pub struct S16l {
    pub audio: Audio,
    pub pcmc: Option<PcmC>,
    pub chnl: Option<Chnl>,
    pub btrt: Option<Btrt>,
}

impl View for S16l {
    type V = PcmFieldsV;

    open spec fn view(&self) -> PcmFieldsV {
        (self.audio@, self.pcmc, opt_view(self.chnl), self.btrt)
    }
}

impl S16l {
    /// The sample format of this entry.
    pub fn format(&self) -> (r: Option<PcmFormat>)
        ensures
            r == spec_resolve_format(0x7331366c, self.audio.sample_size, self.pcmc),
    {
        resolve_format(Self::kind(), &self.audio, self.pcmc.as_ref())
    }
}

impl Atom for S16l {
    open spec fn spec_kind() -> u32 {
        0x7331366c
    }

    fn kind() -> (k: FourCC) {
        FourCC::from_u32(0x7331366c)
    }

    open spec fn spec_decode_body(s: Seq<u8>) -> Result<(PcmFieldsV, int), Error> {
        spec_decode_pcm(0x7331366c, s)
    }

    open spec fn spec_encode_body(v: PcmFieldsV) -> Result<Seq<u8>, Error> {
        spec_encode_pcm(0x7331366c, v)
    }

    open spec fn spec_keeps(v: PcmFieldsV) -> bool {
        pcm_keeps(v)
    }

    fn decode_body(buf: &[u8]) -> (r: Result<(Self, usize), Error>) {
        let ((audio, pcmc, chnl, btrt), n) = decode_pcm_fields(0x7331366c, buf)?;
        Ok((S16l { audio, pcmc, chnl, btrt }, n))
    }

    fn encode_body(&self, out: &mut Vec<u8>) -> (r: Result<(), Error>) {
        encode_fields(Self::kind(), &self.audio, &self.pcmc, &self.chnl, &self.btrt, out)
    }

    proof fn lemma_body_roundtrip(v: PcmFieldsV) {
        lemma_pcm_roundtrip(0x7331366c, v);
    }
}

} // verus!
