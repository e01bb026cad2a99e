use vstd::prelude::*;

use crate::atom::Atom;
use crate::codec::{
    be16_at, be16_seq, be32, be32_at, group_codec, lemma_be16_seq_at, lemma_be16_seq_len, put_u16,
    put_u32, put_u8, read_u16, read_u32, read_u8,
};
use crate::error::Error;
use crate::fourcc::FourCC;

verus! {

broadcast use group_codec;

/// Compact sample size box (`stz2`): the size of each sample, packed in 4, 8 or 16 bits.
#[derive(Debug, Clone, PartialEq, Eq, Default)]
pub struct Stz2 {
    pub entry_sizes: Vec<u16>,
}

impl View for Stz2 {
    type V = Seq<u16>;

    open spec fn view(&self) -> Seq<u16> {
        self.entry_sizes@
    }
}

/// Whether some size is above `t`.
pub open spec fn any_above(v: Seq<u16>, t: u16) -> bool {
    exists|k: int| 0 <= k < v.len() && #[trigger] v[k] > t
}

/// The field size that encoding picks: 16 bits if a size needs more than 8, else 8 bits if
/// one needs more than 4, else 4 bits.
pub open spec fn stz2_field_size(v: Seq<u16>) -> u32 {
    if any_above(v, 255) {
        16
    } else if any_above(v, 15) {
        8
    } else {
        4
    }
}

/// Two 4-bit sizes per byte, the first in the high half; an odd last size gets a zero partner.
pub open spec fn stz2_nibbles(v: Seq<u16>) -> Seq<u8> {
    Seq::new(
        ((v.len() + 1) / 2) as nat,
        |k: int|
            (v[2 * k] as int * 16 + (if 2 * k + 1 < v.len() {
                v[2 * k + 1] as int
            } else {
                0
            })) as u8,
    )
}

/// The packed sizes for a field size.
pub open spec fn stz2_payload(v: Seq<u16>, field: u32) -> Seq<u8> {
    if field == 16 {
        be16_seq(v)
    } else if field == 8 {
        Seq::new(v.len(), |k: int| v[k] as u8)
    } else {
        stz2_nibbles(v)
    }
}

/// Size `i` in a 4-bit packing that starts at offset 12.
pub open spec fn stz2_nibble_at(s: Seq<u8>, i: int) -> u16 {
    if i % 2 == 0 {
        (s[12 + i / 2] / 16) as u16
    } else {
        (s[12 + i / 2] % 16) as u16
    }
}

impl Atom for Stz2 {
    open spec fn spec_kind() -> u32 {
        0x73747a32
    }

    fn kind() -> (k: FourCC) {
        FourCC::from_u32(0x73747a32)
    }

    /// Version and flags (ignored), 3 reserved bytes, the field size, a count, then the sizes
    /// packed in fields of 4, 8 or 16 bits; another field size is an error.
    open spec fn spec_decode_body(s: Seq<u8>) -> Result<(Seq<u16>, int), Error> {
        if s.len() < 12 {
            Err(Error::OutOfBounds)
        } else {
            let field = s[7];
            let n = be32_at(s, 8) as int;
            if field == 4 {
                if 12 + (n + 1) / 2 > s.len() {
                    Err(Error::OutOfBounds)
                } else {
                    Ok((Seq::new(n as nat, |i: int| stz2_nibble_at(s, i)), 12 + (n + 1) / 2))
                }
            } else if field == 8 {
                if 12 + n > s.len() {
                    Err(Error::OutOfBounds)
                } else {
                    Ok((Seq::new(n as nat, |i: int| s[12 + i] as u16), 12 + n))
                }
            } else if field == 16 {
                if 12 + 2 * n > s.len() {
                    Err(Error::OutOfBounds)
                } else {
                    Ok((Seq::new(n as nat, |i: int| be16_at(s, 12 + 2 * i)), 12 + 2 * n))
                }
            } else {
                Err(Error::InvalidSize)
            }
        }
    }

    /// Version and flags 0, the field size as a `u32` (which makes the 3 reserved bytes), the
    /// count, then the packed sizes. More than `u32::MAX` sizes is too large.
    open spec fn spec_encode_body(v: Seq<u16>) -> Result<Seq<u8>, Error> {
        if v.len() > u32::MAX {
            Err(Error::TooLarge(FourCC { code: 0x73747a32 }))
        } else {
            let field = stz2_field_size(v);
            Ok(be32(0) + be32(field) + be32(v.len() as u32) + stz2_payload(v, field))
        }
    }

    open spec fn spec_keeps(v: Seq<u16>) -> bool {
        true
    }

    fn decode_body(buf: &[u8]) -> (r: Result<(Self, usize), Error>) {
        let _ext = read_u32(buf, 0)?;
        let _reserved = read_u32(buf, 4)?;
        let field = read_u8(buf, 7)?;
        let count = read_u32(buf, 8)?;
        let n = count as usize;
        let mut entry_sizes: Vec<u16> = Vec::new();
        if field == 4 {
            if n / 2 + n % 2 > buf.len() - 12 {
                return Err(Error::OutOfBounds);
            }
            let mut i: usize = 0;
            while i < n
                invariant
                    i <= n,
                    12 + (n + 1) / 2 <= buf.len(),
                    entry_sizes@ == Seq::new(i as nat, |k: int| stz2_nibble_at(buf@, k)),
                decreases n - i,
            {
                let b = read_u8(buf, 12 + i / 2)?;
                if i % 2 == 0 {
                    entry_sizes.push((b / 16) as u16);
                } else {
                    entry_sizes.push((b % 16) as u16);
                }
                i = i + 1;
                assert(entry_sizes@ =~= Seq::new(i as nat, |k: int| stz2_nibble_at(buf@, k)));
            }
            Ok((Stz2 { entry_sizes }, 12 + n / 2 + n % 2))
        } else if field == 8 {
            if n > buf.len() - 12 {
                return Err(Error::OutOfBounds);
            }
            let mut i: usize = 0;
            while i < n
                invariant
                    i <= n,
                    12 + n <= buf.len(),
                    entry_sizes@ == Seq::new(i as nat, |k: int| buf@[12 + k] as u16),
                decreases n - i,
            {
                let b = read_u8(buf, 12 + i)?;
                entry_sizes.push(b as u16);
                i = i + 1;
                assert(entry_sizes@ =~= Seq::new(i as nat, |k: int| buf@[12 + k] as u16));
            }
            Ok((Stz2 { entry_sizes }, 12 + n))
        } else if field == 16 {
            if n > (buf.len() - 12) / 2 {
                return Err(Error::OutOfBounds);
            }
            let mut i: usize = 0;
            while i < n
                invariant
                    i <= n,
                    12 + 2 * n <= buf.len(),
                    entry_sizes@ == Seq::new(i as nat, |k: int| be16_at(buf@, 12 + 2 * k)),
                decreases n - i,
            {
                let x = read_u16(buf, 12 + 2 * i)?;
                entry_sizes.push(x);
                i = i + 1;
                assert(entry_sizes@ =~= Seq::new(i as nat, |k: int| be16_at(buf@, 12 + 2 * k)));
            }
            Ok((Stz2 { entry_sizes }, 12 + 2 * n))
        } else {
            Err(Error::InvalidSize)
        }
    }

    fn encode_body(&self, out: &mut Vec<u8>) -> (r: Result<(), Error>) {
        let v = &self.entry_sizes;
        let n = v.len();
        if n > 4294967295 {
            return Err(Error::TooLarge(Self::kind()));
        }
        let mut above15 = false;
        let mut above255 = false;
        let mut i: usize = 0;
        while i < n
            invariant
                i <= n,
                n == v@.len(),
                above15 == (exists|k: int| 0 <= k < i && #[trigger] v@[k] > 15),
                above255 == (exists|k: int| 0 <= k < i && #[trigger] v@[k] > 255),
            decreases n - i,
        {
            if v[i] > 15 {
                above15 = true;
            }
            if v[i] > 255 {
                above255 = true;
            }
            i = i + 1;
        }
        let field: u32 = if above255 {
            16
        } else if above15 {
            8
        } else {
            4
        };
        put_u32(out, 0);
        put_u32(out, field);
        put_u32(out, n as u32);
        let ghost start = out@;
        if field == 16 {
            let mut i: usize = 0;
            while i < n
                invariant
                    i <= n,
                    n == v@.len(),
                    out@ == start + be16_seq(v@.subrange(0, i as int)),
                decreases n - i,
            {
                put_u16(out, v[i]);
                i = i + 1;
                assert(v@.subrange(0, i as int).drop_last() =~= v@.subrange(0, i - 1));
                assert(out@ =~= start + be16_seq(v@.subrange(0, i as int)));
            }
            assert(v@.subrange(0, n as int) =~= v@);
        } else if field == 8 {
            let mut i: usize = 0;
            while i < n
                invariant
                    i <= n,
                    n == v@.len(),
                    !any_above(v@, 255),
                    out@ == start + Seq::new(i as nat, |k: int| v@[k] as u8),
                decreases n - i,
            {
                put_u8(out, v[i] as u8);
                i = i + 1;
                assert(out@ =~= start + Seq::new(i as nat, |k: int| v@[k] as u8));
            }
        } else {
            let mut k: usize = 0;
            let pairs = n / 2 + n % 2;
            while k < pairs
                invariant
                    k <= pairs,
                    pairs == (n + 1) / 2,
                    n == v@.len(),
                    !any_above(v@, 15),
                    out@ == start + stz2_nibbles(v@).subrange(0, k as int),
                decreases pairs - k,
            {
                let hi = v[2 * k];
                let lo: u16 = if 2 * k + 1 < n {
                    v[2 * k + 1]
                } else {
                    0
                };
                assert(hi <= 15 && lo <= 15);
                put_u8(out, (hi * 16 + lo) as u8);
                k = k + 1;
                assert(out@ =~= start + stz2_nibbles(v@).subrange(0, k as int));
            }
            assert(stz2_nibbles(v@).subrange(0, pairs as int) =~= stz2_nibbles(v@));
        }
        Ok(())
    }

    proof fn lemma_body_roundtrip(v: Seq<u16>) {
        let field = stz2_field_size(v);
        let h = be32(0) + be32(field) + be32(v.len() as u32);
        let p = stz2_payload(v, field);
        let b = h + p;
        assert(b[7] == be32(field)[3]);
        assert(be32(field)[3] == field as u8) by {
            reveal(be32);
        }
        if field == 16 {
            lemma_be16_seq_len(v);
            assert forall|i: int| 0 <= i < v.len() implies be16_at(b, 12 + 2 * i) == v[i] by {
                lemma_be16_seq_at(v, i);
            }
            assert(Seq::new(v.len(), |i: int| be16_at(b, 12 + 2 * i)) =~= v);
        } else if field == 8 {
            assert forall|i: int| 0 <= i < v.len() implies (b[12 + i] as u16) == v[i] by {
                if v[i] > 255 {
                    assert(any_above(v, 255));
                }
            }
            assert(Seq::new(v.len(), |i: int| b[12 + i] as u16) =~= v);
        } else {
            assert forall|i: int| 0 <= i < v.len() implies stz2_nibble_at(b, i) == v[i] by {
                let k = i / 2;
                if v[2 * k] > 15 {
                    assert(any_above(v, 15));
                }
                if 2 * k + 1 < v.len() && v[2 * k + 1] > 15 {
                    assert(any_above(v, 15));
                }
                assert(b[12 + k] == p[k]);
                let lo = if 2 * k + 1 < v.len() {
                    v[2 * k + 1] as int
                } else {
                    0
                };
                assert(p[k] == (v[2 * k] as int * 16 + lo) as u8);
                assert((v[2 * k] as int * 16 + lo) / 16 == v[2 * k]) by (nonlinear_arith)
                    requires
                        0 <= lo <= 15,
                        v[2 * k] <= 15,
                ;
                assert((v[2 * k] as int * 16 + lo) % 16 == lo) by (nonlinear_arith)
                    requires
                        0 <= lo <= 15,
                        v[2 * k] <= 15,
                ;
            }
            assert(Seq::new(v.len(), |i: int| stz2_nibble_at(b, i)) =~= v);
        }
    }
}

} // verus!
