use vstd::prelude::*;

use crate::atom::Atom;
use crate::codec::{
    be16, be16_at, be32, be32_at, be64, be64_at, concat_map, group_codec, lemma_concat_map_fixed,
    lemma_concat_map_len, lemma_concat_map_push, lemma_read_in, put_u16, put_u32, put_u64,
    read_u16, read_u32, read_u64,
};
use crate::error::Error;
use crate::ext::{ext_version, ext_word, put_ext, read_ext};
use crate::fourcc::FourCC;

verus! {

broadcast use group_codec;

/// One reference of a segment index.
#[derive(Debug, Clone, Copy, PartialEq, Eq)]
pub struct SegmentReference {
    pub reference_type: bool,
    pub reference_size: u32,
    pub subsegment_duration: u32,
    pub starts_with_sap: bool,
    pub sap_type: u8,
    pub sap_delta_time: u32,
}

/// Segment index box (`sidx`), ISO/IEC 14496-12 section 8.16.3.
#[derive(Debug, Clone, PartialEq, Eq, Default)]
pub struct Sidx {
    pub reference_id: u32,
    pub timescale: u32,
    pub earliest_presentation_time: u64,
    pub first_offset: u64,
    pub references: Vec<SegmentReference>,
}

impl View for Sidx {
    /// The reference id, the timescale, the earliest presentation time, the first offset and
    /// the references.
    type V = (u32, u32, u64, u64, Seq<SegmentReference>);

    open spec fn view(&self) -> (u32, u32, u64, u64, Seq<SegmentReference>) {
        (
            self.reference_id,
            self.timescale,
            self.earliest_presentation_time,
            self.first_offset,
            self.references@,
        )
    }
}

/// The reference whose 12 bytes start at offset `i`: the top bit and the low 31 bits of the
/// first word; the second word; the top bit, the next 3 bits and the low 28 bits of the third.
pub open spec fn reference_at(s: Seq<u8>, i: int) -> SegmentReference {
    let a = be32_at(s, i);
    let c = be32_at(s, i + 8);
    SegmentReference {
        reference_type: a >= 0x8000_0000,
        reference_size: a % 0x8000_0000,
        subsegment_duration: be32_at(s, i + 4),
        starts_with_sap: c >= 0x8000_0000,
        sap_type: ((c / 0x1000_0000) % 8) as u8,
        sap_delta_time: c % 0x1000_0000,
    }
}

/// The first word of a reference: the size, with the top bit set for a type-1 reference.
pub open spec fn reference_word1(r: SegmentReference) -> u32 {
    if r.reference_type {
        (0x8000_0000 + r.reference_size % 0x8000_0000) as u32
    } else {
        r.reference_size
    }
}

/// The third word of a reference: the SAP flag, the SAP type (3 bits) and the delta (28 bits).
pub open spec fn reference_word3(r: SegmentReference) -> u32 {
    ((if r.starts_with_sap {
        0x8000_0000int
    } else {
        0
    }) + (r.sap_type % 8) as int * 0x1000_0000 + (r.sap_delta_time % 0x1000_0000) as int) as u32
}

/// The 12 bytes of a reference.
pub open spec fn reference_bytes(r: SegmentReference) -> Seq<u8> {
    be32(reference_word1(r)) + be32(r.subsegment_duration) + be32(reference_word3(r))
}

/// The references of the body that start at offset `i`.
pub open spec fn references_at(s: Seq<u8>, i: int, n: nat) -> Seq<SegmentReference> {
    Seq::new(n, |k: int| reference_at(s, i + 12 * k))
}

impl Atom for Sidx {
    open spec fn spec_kind() -> u32 {
        0x73696478
    }

    fn kind() -> (k: FourCC) {
        FourCC::from_u32(0x73696478)
    }

    /// Version 0 has 32-bit times and offsets, version 1 64-bit ones; then 16 reserved bits,
    /// a 16-bit count and that many references.
    open spec fn spec_decode_body(s: Seq<u8>) -> Result<(Self::V, int), Error> {
        if s.len() < 4 {
            Err(Error::OutOfBounds)
        } else {
            let version = ext_version(be32_at(s, 0));
            if version != 0 && version != 1 {
                Err(Error::UnknownVersion(version))
            } else {
                let i: int = if version == 0 {
                    24
                } else {
                    32
                };
                if s.len() < i {
                    Err(Error::OutOfBounds)
                } else {
                    let n = be16_at(s, i - 2) as int;
                    if i + 12 * n > s.len() {
                        Err(Error::OutOfBounds)
                    } else {
                        let (t, o) = if version == 0 {
                            (be32_at(s, 12) as u64, be32_at(s, 16) as u64)
                        } else {
                            (be64_at(s, 12), be64_at(s, 20))
                        };
                        Ok(
                            (
                                (be32_at(s, 4), be32_at(s, 8), t, o, references_at(s, i, n as nat)),
                                i + 12 * n,
                            ),
                        )
                    }
                }
            }
        }
    }

    /// Version 0 when the time and the offset both fit in 32 bits, else version 1. More than
    /// `u16::MAX` references is too large.
    open spec fn spec_encode_body(v: Self::V) -> Result<Seq<u8>, Error> {
        let (id, scale, t, o, refs) = v;
        if refs.len() > u16::MAX {
            Err(Error::TooLarge(FourCC { code: 0x73696478 }))
        } else {
            let times = if t <= u32::MAX && o <= u32::MAX {
                be32(ext_word(0, 0)) + be32(id) + be32(scale) + be32(t as u32) + be32(o as u32)
            } else {
                be32(ext_word(1, 0)) + be32(id) + be32(scale) + be64(t) + be64(o)
            };
            Ok(times + be16(0) + be16(refs.len() as u16) + concat_map(
                refs,
                |r: SegmentReference| reference_bytes(r),
            ))
        }
    }

    /// References whose fields fit their bit widths.
    open spec fn spec_keeps(v: Self::V) -> bool {
        forall|k: int|
            0 <= k < v.4.len() ==> {
                let r = #[trigger] v.4[k];
                r.reference_size < 0x8000_0000 && r.sap_type < 8 && r.sap_delta_time < 0x1000_0000
            }
    }

    fn decode_body(buf: &[u8]) -> (r: Result<(Self, usize), Error>) {
        let (version, _flags) = read_ext(buf, 0)?;
        if version != 0 && version != 1 {
            return Err(Error::UnknownVersion(version));
        }
        let reference_id = read_u32(buf, 4)?;
        let timescale = read_u32(buf, 8)?;
        let (earliest_presentation_time, first_offset, i) = if version == 0 {
            if buf.len() < 24 {
                return Err(Error::OutOfBounds);
            }
            (read_u32(buf, 12)? as u64, read_u32(buf, 16)? as u64, 24usize)
        } else {
            if buf.len() < 32 {
                return Err(Error::OutOfBounds);
            }
            (read_u64(buf, 12)?, read_u64(buf, 20)?, 32usize)
        };
        let n = read_u16(buf, i - 2)? as usize;
        if n > (buf.len() - i) / 12 {
            return Err(Error::OutOfBounds);
        }
        let mut references: Vec<SegmentReference> = Vec::new();
        let mut k: usize = 0;
        while k < n
            invariant
                k <= n,
                i + 12 * n <= buf.len(),
                references@ == Seq::new(k as nat, |j: int| reference_at(buf@, i + 12 * j)),
            decreases n - k,
        {
            let a = read_u32(buf, i + 12 * k)?;
            let subsegment_duration = read_u32(buf, i + 12 * k + 4)?;
            let c = read_u32(buf, i + 12 * k + 8)?;
            references.push(
                SegmentReference {
                    reference_type: a >= 0x8000_0000,
                    reference_size: a % 0x8000_0000,
                    subsegment_duration,
                    starts_with_sap: c >= 0x8000_0000,
                    sap_type: ((c / 0x1000_0000) % 8) as u8,
                    sap_delta_time: c % 0x1000_0000,
                },
            );
            k = k + 1;
            assert(references@ =~= Seq::new(k as nat, |j: int| reference_at(buf@, i + 12 * j)));
        }
        Ok(
            (
                Sidx {
                    reference_id,
                    timescale,
                    earliest_presentation_time,
                    first_offset,
                    references,
                },
                i + 12 * n,
            ),
        )
    }

    fn encode_body(&self, out: &mut Vec<u8>) -> (r: Result<(), Error>) {
        let n = self.references.len();
        if n > 65535 {
            return Err(Error::TooLarge(Self::kind()));
        }
        if self.earliest_presentation_time <= 4294967295 && self.first_offset <= 4294967295 {
            put_ext(out, 0, 0);
            put_u32(out, self.reference_id);
            put_u32(out, self.timescale);
            put_u32(out, self.earliest_presentation_time as u32);
            put_u32(out, self.first_offset as u32);
        } else {
            put_ext(out, 1, 0);
            put_u32(out, self.reference_id);
            put_u32(out, self.timescale);
            put_u64(out, self.earliest_presentation_time);
            put_u64(out, self.first_offset);
        }
        put_u16(out, 0);
        put_u16(out, n as u16);
        let ghost start = out@;
        let ghost f = |r: SegmentReference| reference_bytes(r);
        let mut k: usize = 0;
        while k < n
            invariant
                k <= n,
                n == self.references@.len(),
                f == (|r: SegmentReference| reference_bytes(r)),
                out@ == start + concat_map(self.references@.subrange(0, k as int), f),
            decreases n - k,
        {
            let r = self.references[k];
            let ghost prev = out@;
            let w1: u32 = if r.reference_type {
                0x8000_0000 + r.reference_size % 0x8000_0000
            } else {
                r.reference_size
            };
            let w3: u32 = (if r.starts_with_sap {
                0x8000_0000u32
            } else {
                0
            }) + ((r.sap_type % 8) as u32) * 0x1000_0000 + r.sap_delta_time % 0x1000_0000;
            put_u32(out, w1);
            put_u32(out, r.subsegment_duration);
            put_u32(out, w3);
            assert(out@ =~= prev + f(r));
            proof {
                lemma_concat_map_push(self.references@.subrange(0, k as int), f, r);
                assert(self.references@.subrange(0, k as int).push(r) =~= self.references@.subrange(
                    0,
                    k + 1,
                ));
            }
            k = k + 1;
        }
        assert(self.references@.subrange(0, n as int) =~= self.references@);
        Ok(())
    }

    #[verifier::rlimit(30)]
    proof fn lemma_body_roundtrip(v: Self::V) {
        let (id, scale, t, o, refs) = v;
        let f = |r: SegmentReference| reference_bytes(r);
        let v0 = t <= u32::MAX && o <= u32::MAX;
        let times = if v0 {
            be32(ext_word(0, 0)) + be32(id) + be32(scale) + be32(t as u32) + be32(o as u32)
        } else {
            be32(ext_word(1, 0)) + be32(id) + be32(scale) + be64(t) + be64(o)
        };
        let i: int = if v0 {
            24
        } else {
            32
        };
        let h = times + be16(0) + be16(refs.len() as u16);
        let c = concat_map(refs, f);
        let b = h + c;
        assert(h.len() == i);
        lemma_concat_map_len(refs, f, 12);
        assert(ext_version(ext_word(0, 0)) == 0);
        assert(ext_version(ext_word(1, 0)) == 1);
        assert(be16_at(b, i - 2) == refs.len());
        assert forall|k: int| 0 <= k < refs.len() implies reference_at(b, i + 12 * k) == refs[k] by {
            lemma_concat_map_fixed(refs, f, 12, k);
            lemma_read_in(c, 12 * k, f(refs[k]), 0);
            lemma_read_in(c, 12 * k, f(refs[k]), 4);
            lemma_read_in(c, 12 * k, f(refs[k]), 8);
            let r = refs[k];
            assert(r.reference_size < 0x8000_0000 && r.sap_type < 8 && r.sap_delta_time
                < 0x1000_0000);
            lemma_reference_words(r);
        }
        assert(references_at(b, i, refs.len()) =~= refs);
    }
}

/// The words of a reference whose fields fit give the fields back.
pub proof fn lemma_reference_words(r: SegmentReference)
    requires
        r.reference_size < 0x8000_0000,
        r.sap_type < 8,
        r.sap_delta_time < 0x1000_0000,
    ensures
        (reference_word1(r) >= 0x8000_0000) == r.reference_type,
        reference_word1(r) % 0x8000_0000 == r.reference_size,
        (reference_word3(r) >= 0x8000_0000) == r.starts_with_sap,
        ((reference_word3(r) / 0x1000_0000) % 8) as u8 == r.sap_type,
        reference_word3(r) % 0x1000_0000 == r.sap_delta_time,
{
    let s: int = if r.starts_with_sap {
        1
    } else {
        0
    };
    let w = s * 0x8000_0000 + r.sap_type as int * 0x1000_0000 + r.sap_delta_time as int;
    assert(reference_word3(r) == w);
    assert((w / 0x1000_0000) % 8 == r.sap_type && w % 0x1000_0000 == r.sap_delta_time && (w
        >= 0x8000_0000) == (s == 1)) by (nonlinear_arith)
        requires
            w == s * 0x8000_0000 + r.sap_type as int * 0x1000_0000 + r.sap_delta_time as int,
            0 <= s <= 1,
            r.sap_type < 8,
            r.sap_delta_time < 0x1000_0000,
    ;
}

} // verus!
