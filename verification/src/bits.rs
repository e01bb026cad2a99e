use vstd::prelude::*;
use vstd::arithmetic::power2::{lemma_pow2_unfold, pow2};

use crate::error::Error;

verus! {

// ---------------------------------------------------------------------------
// Bit strings, most significant bit first
// ---------------------------------------------------------------------------

/// Bit `i` of `d`, counting from the most significant bit of the first byte.
pub open spec fn bit_at(d: Seq<u8>, i: int) -> u8 {
    (d[i / 8] >> ((7 - i % 8) as u8)) & 1u8
}

/// The number that the `count` bits of `d` from bit `off` make, most significant first.
pub open spec fn bits_value(d: Seq<u8>, off: int, count: nat) -> nat
    decreases count,
{
    if count == 0 {
        0
    } else {
        bits_value(d, off, (count - 1) as nat) * 2 + bit_at(d, off + count - 1) as nat
    }
}

/// Bit `k` of the `count` low bits of `v`, most significant first.
pub open spec fn value_bit(v: u32, count: nat, k: int) -> u8 {
    ((v >> ((count - 1 - k) as u32)) & 1u32) as u8
}

/// The `count` low bits of `v`, most significant first, one per element.
pub open spec fn value_bits(v: u32, count: nat) -> Seq<u8> {
    Seq::new(count, |k: int| value_bit(v, count, k))
}

/// Eight bits (each 0 or 1), most significant first, as a byte.
pub open spec fn byte_of_bits(a0: u8, a1: u8, a2: u8, a3: u8, a4: u8, a5: u8, a6: u8, a7: u8) -> u8 {
    (a0 << 7u8) | (a1 << 6u8) | (a2 << 5u8) | (a3 << 4u8) | (a4 << 3u8) | (a5 << 2u8) | (a6
        << 1u8) | a7
}

/// Bit `k` of a bit string, or 0 past its end.
pub open spec fn bit_or_zero(bits: Seq<u8>, k: int) -> u8 {
    if 0 <= k < bits.len() {
        bits[k]
    } else {
        0
    }
}

/// The bytes of a bit string (each element 0 or 1), the last one padded with zero bits.
pub open spec fn pack_bits(bits: Seq<u8>) -> Seq<u8> {
    Seq::new(
        ((bits.len() + 7) / 8) as nat,
        |j: int|
            byte_of_bits(
                bit_or_zero(bits, 8 * j),
                bit_or_zero(bits, 8 * j + 1),
                bit_or_zero(bits, 8 * j + 2),
                bit_or_zero(bits, 8 * j + 3),
                bit_or_zero(bits, 8 * j + 4),
                bit_or_zero(bits, 8 * j + 5),
                bit_or_zero(bits, 8 * j + 6),
                bit_or_zero(bits, 8 * j + 7),
            ),
    )
}

/// Whether every element of a bit string is 0 or 1.
pub open spec fn is_bits(bits: Seq<u8>) -> bool {
    forall|k: int| 0 <= k < bits.len() ==> #[trigger] bits[k] <= 1
}

// ---------------------------------------------------------------------------
// Facts on single bytes
// ---------------------------------------------------------------------------

/// Each bit of a byte made of eight bits is the bit it was made with.
proof fn lemma_byte_of_bits(a0: u8, a1: u8, a2: u8, a3: u8, a4: u8, a5: u8, a6: u8, a7: u8, k: u8)
    requires
        a0 <= 1 && a1 <= 1 && a2 <= 1 && a3 <= 1 && a4 <= 1 && a5 <= 1 && a6 <= 1 && a7 <= 1,
        k < 8,
    ensures
        (byte_of_bits(a0, a1, a2, a3, a4, a5, a6, a7) >> ((7 - k) as u8)) & 1u8 == (if k == 0 {
            a0
        } else if k == 1 {
            a1
        } else if k == 2 {
            a2
        } else if k == 3 {
            a3
        } else if k == 4 {
            a4
        } else if k == 5 {
            a5
        } else if k == 6 {
            a6
        } else {
            a7
        }),
{
    assert(a0 <= 1 && a1 <= 1 && a2 <= 1 && a3 <= 1 && a4 <= 1 && a5 <= 1 && a6 <= 1 && a7 <= 1
        && k < 8 ==> ((((a0 << 7u8) | (a1 << 6u8) | (a2 << 5u8) | (a3 << 4u8) | (a4 << 3u8) | (a5
        << 2u8) | (a6 << 1u8) | a7) >> ((7 - k) as u8)) & 1u8 == (if k == 0 {
        a0
    } else if k == 1 {
        a1
    } else if k == 2 {
        a2
    } else if k == 3 {
        a3
    } else if k == 4 {
        a4
    } else if k == 5 {
        a5
    } else if k == 6 {
        a6
    } else {
        a7
    }))) by (bit_vector);
}

/// Setting bit `k` of a byte to `b` changes that bit alone.
proof fn lemma_set_bit(x: u8, k: u8, b: u8, j: u8)
    requires
        k < 8,
        j < 8,
        b <= 1,
    ensures
        j == k && (x >> ((7 - k) as u8)) & 1u8 == 0 ==> ((x | (b << ((7 - k) as u8))) >> ((7
            - j) as u8)) & 1u8 == b,
        j != k ==> ((x | (b << ((7 - k) as u8))) >> ((7 - j) as u8)) & 1u8 == (x >> ((7
            - j) as u8)) & 1u8,
{
    assert(k < 8 && j < 8 && b <= 1 ==> (j == k && (x >> ((7 - k) as u8)) & 1u8 == 0 ==> ((x | (b
        << ((7 - k) as u8))) >> ((7 - j) as u8)) & 1u8 == b) && (j != k ==> ((x | (b << ((7
        - k) as u8))) >> ((7 - j) as u8)) & 1u8 == (x >> ((7 - j) as u8)) & 1u8)) by (bit_vector);
}

/// Two bytes with the same eight bits are the same byte.
proof fn lemma_same_bits(x: u8, y: u8)
    requires
        forall|j: u8| j < 8 ==> (#[trigger] (x >> ((7 - j) as u8)) & 1u8) == (y >> ((7 - j) as u8))
            & 1u8,
    ensures
        x == y,
{
    assert((x >> 7u8) & 1u8 == (y >> 7u8) & 1u8) by {
        assert((x >> ((7 - 0u8) as u8)) & 1u8 == (y >> ((7 - 0u8) as u8)) & 1u8);
    }
    assert((x >> 6u8) & 1u8 == (y >> 6u8) & 1u8) by {
        assert((x >> ((7 - 1u8) as u8)) & 1u8 == (y >> ((7 - 1u8) as u8)) & 1u8);
    }
    assert((x >> 5u8) & 1u8 == (y >> 5u8) & 1u8) by {
        assert((x >> ((7 - 2u8) as u8)) & 1u8 == (y >> ((7 - 2u8) as u8)) & 1u8);
    }
    assert((x >> 4u8) & 1u8 == (y >> 4u8) & 1u8) by {
        assert((x >> ((7 - 3u8) as u8)) & 1u8 == (y >> ((7 - 3u8) as u8)) & 1u8);
    }
    assert((x >> 3u8) & 1u8 == (y >> 3u8) & 1u8) by {
        assert((x >> ((7 - 4u8) as u8)) & 1u8 == (y >> ((7 - 4u8) as u8)) & 1u8);
    }
    assert((x >> 2u8) & 1u8 == (y >> 2u8) & 1u8) by {
        assert((x >> ((7 - 5u8) as u8)) & 1u8 == (y >> ((7 - 5u8) as u8)) & 1u8);
    }
    assert((x >> 1u8) & 1u8 == (y >> 1u8) & 1u8) by {
        assert((x >> ((7 - 6u8) as u8)) & 1u8 == (y >> ((7 - 6u8) as u8)) & 1u8);
    }
    assert((x >> 0u8) & 1u8 == (y >> 0u8) & 1u8) by {
        assert((x >> ((7 - 7u8) as u8)) & 1u8 == (y >> ((7 - 7u8) as u8)) & 1u8);
    }
    assert((x >> 7u8) & 1u8 == (y >> 7u8) & 1u8 && (x >> 6u8) & 1u8 == (y >> 6u8) & 1u8 && (x
        >> 5u8) & 1u8 == (y >> 5u8) & 1u8 && (x >> 4u8) & 1u8 == (y >> 4u8) & 1u8 && (x >> 3u8)
        & 1u8 == (y >> 3u8) & 1u8 && (x >> 2u8) & 1u8 == (y >> 2u8) & 1u8 && (x >> 1u8) & 1u8 == (
    y >> 1u8) & 1u8 && (x >> 0u8) & 1u8 == (y >> 0u8) & 1u8 ==> x == y) by (bit_vector);
}

// ---------------------------------------------------------------------------
// Facts on bit strings
// ---------------------------------------------------------------------------

/// The bits of the bytes of a bit string are its bits, then zeros.
pub proof fn lemma_pack_bits_at(bits: Seq<u8>, i: int)
    requires
        is_bits(bits),
        0 <= i < 8 * pack_bits(bits).len(),
    ensures
        bit_at(pack_bits(bits), i) == bit_or_zero(bits, i),
{
    let j = i / 8;
    let k = (i % 8) as u8;
    assert forall|m: int| 0 <= m < 8 implies #[trigger] bit_or_zero(bits, 8 * j + m) <= 1 by {
        if 0 <= 8 * j + m < bits.len() {
            assert(bits[8 * j + m] <= 1);
        }
    }
    lemma_byte_of_bits(
        bit_or_zero(bits, 8 * j),
        bit_or_zero(bits, 8 * j + 1),
        bit_or_zero(bits, 8 * j + 2),
        bit_or_zero(bits, 8 * j + 3),
        bit_or_zero(bits, 8 * j + 4),
        bit_or_zero(bits, 8 * j + 5),
        bit_or_zero(bits, 8 * j + 6),
        bit_or_zero(bits, 8 * j + 7),
        k,
    );
    assert(8 * j + k == i);
}

/// One more bit goes into the last byte, or into a new one when the last is full.
proof fn lemma_pack_push(bits: Seq<u8>, b: u8)
    requires
        is_bits(bits),
        b <= 1,
    ensures
        ({
            let n = bits.len() as int;
            let e = if n % 8 == 0 {
                pack_bits(bits).push(0)
            } else {
                pack_bits(bits)
            };
            pack_bits(bits.push(b)) == e.update(n / 8, e[n / 8] | (b << ((7 - n % 8) as u8)))
        }),
{
    let n = bits.len() as int;
    let nb = bits.push(b);
    let e = if n % 8 == 0 {
        pack_bits(bits).push(0)
    } else {
        pack_bits(bits)
    };
    let j = n / 8;
    let k = (n % 8) as u8;
    let lhs = pack_bits(nb);
    let rhs = e.update(j, e[j] | (b << ((7 - k) as u8)));
    assert(is_bits(nb));
    assert(lhs.len() == rhs.len());
    assert forall|jj: int| 0 <= jj < lhs.len() implies lhs[jj] == rhs[jj] by {
        if jj != j {
            assert forall|m: int| 0 <= m < 8 implies #[trigger] bit_or_zero(nb, 8 * jj + m) == bit_or_zero(
                bits,
                8 * jj + m,
            ) by {
                assert(8 * jj + m != n);
            }
            assert(jj < pack_bits(bits).len());
        } else {
            let x = e[j];
            let y = lhs[j];
            assert forall|m: u8| m < 8 implies (#[trigger] (y >> ((7 - m) as u8)) & 1u8) == ((
            x | (b << ((7 - k) as u8))) >> ((7 - m) as u8)) & 1u8 by {
                lemma_set_bit(x, k, b, m);
                let i = 8 * j + m;
                lemma_pack_bits_at(nb, i);
                assert(i / 8 == j && i % 8 == m);
                if n % 8 == 0 {
                    assert(x == 0);
                    assert(forall|sh: u8| (0u8 >> sh) & 1u8 == 0) by (bit_vector);
                    assert((x >> ((7 - m) as u8)) & 1u8 == 0);
                    assert((x >> ((7 - k) as u8)) & 1u8 == 0);
                } else {
                    lemma_pack_bits_at(bits, i);
                    lemma_pack_bits_at(bits, n);
                    assert(n / 8 == j && n % 8 == k);
                }
            }
            lemma_same_bits(y, x | (b << ((7 - k) as u8)));
        }
    }
    assert(lhs =~= rhs);
}

/// Reading the `count` low bits of `v` back, most significant first, gives `v`.
pub proof fn lemma_value_bits_fold(d: Seq<u8>, off: int, v: u32, count: nat)
    requires
        count <= 32,
        v < pow2(count),
        forall|k: int| 0 <= k < count ==> #[trigger] bit_at(d, off + k) == value_bit(v, count, k),
    ensures
        bits_value(d, off, count) == v,
    decreases count,
{
    if count == 0 {
        vstd::arithmetic::power2::lemma2_to64();
    } else {
        let h = v >> 1u32;
        lemma_pow2_unfold(count);
        vstd::bits::lemma_u32_shr_is_div(v, 1u32);
        vstd::arithmetic::power2::lemma2_to64();
        assert(h < pow2((count - 1) as nat));
        assert forall|k: int| 0 <= k < count - 1 implies #[trigger] bit_at(d, off + k) == value_bit(
            h,
            (count - 1) as nat,
            k,
        ) by {
            let a = (count - 2 - k) as u32;
            let s1 = (count - 1 - k) as u32;
            assert(v >> s1 == (v >> 1u32) >> a) by (bit_vector)
                requires
                    a < 31,
                    s1 == a + 1,
            ;
            assert(bit_at(d, off + k) == value_bit(v, count, k));
        }
        lemma_value_bits_fold(d, off, h, (count - 1) as nat);
        assert(bit_at(d, off + count - 1) == value_bit(v, count, count - 1));
        assert(((v >> 0u32) & 1u32) as u8 == v & 1u32 && (v >> 1u32) * 2 + (v & 1u32) == v) by (
        bit_vector);
    }
}

/// A number read from `count` bits is below two to the `count`.
pub proof fn lemma_bits_value_bound(d: Seq<u8>, off: int, count: nat)
    ensures
        bits_value(d, off, count) < pow2(count),
    decreases count,
{
    if count == 0 {
        vstd::arithmetic::power2::lemma2_to64();
    } else {
        lemma_bits_value_bound(d, off, (count - 1) as nat);
        lemma_pow2_unfold(count);
        assert(bit_at(d, off + count - 1) <= 1) by {
            let x = d[(off + count - 1) / 8];
            let s = ((7 - (off + count - 1) % 8) as u8);
            assert((x >> s) & 1u8 <= 1) by (bit_vector);
        }
    }
}

/// The bits of a number are bits.
pub proof fn lemma_value_bits_is_bits(v: u32, count: nat)
    ensures
        is_bits(value_bits(v, count)),
{
    assert forall|k: int| 0 <= k < count implies #[trigger] value_bits(v, count)[k] <= 1 by {
        let sh = (count - 1 - k) as u32;
        assert(((v >> sh) & 1u32) as u8 <= 1) by (bit_vector);
    }
}

/// Two bit strings one after the other are a bit string.
pub proof fn lemma_is_bits_concat(a: Seq<u8>, b: Seq<u8>)
    requires
        is_bits(a),
        is_bits(b),
    ensures
        is_bits(a + b),
{
    assert forall|k: int| 0 <= k < (a + b).len() implies #[trigger] (a + b)[k] <= 1 by {
        if k < a.len() {
            assert((a + b)[k] == a[k]);
        } else {
            assert((a + b)[k] == b[k - a.len()]);
        }
    }
}

/// A number written as `count` bits at `off` of a bit string reads back from its bytes.
pub proof fn lemma_segment(bits: Seq<u8>, off: int, v: u32, count: nat)
    requires
        is_bits(bits),
        0 <= off,
        off + count <= bits.len(),
        count <= 32,
        v < pow2(count),
        forall|k: int| 0 <= k < count ==> #[trigger] bits[off + k] == value_bit(v, count, k),
    ensures
        bits_value(pack_bits(bits), off, count) == v,
{
    let d = pack_bits(bits);
    assert forall|k: int| 0 <= k < count implies #[trigger] bit_at(d, off + k) == value_bit(
        v,
        count,
        k,
    ) by {
        lemma_pack_bits_at(bits, off + k);
        assert(bits[off + k] == value_bit(v, count, k));
    }
    lemma_value_bits_fold(d, off, v, count);
}

/// Bits read from a prefix of some bytes are those of the bytes.
pub proof fn lemma_bits_value_prefix(d: Seq<u8>, m: int, off: int, count: nat)
    requires
        0 <= off,
        0 <= m <= d.len(),
        off + count <= 8 * m,
    ensures
        bits_value(d.subrange(0, m), off, count) == bits_value(d, off, count),
    decreases count,
{
    if count > 0 {
        lemma_bits_value_prefix(d, m, off, (count - 1) as nat);
        let i = off + count - 1;
        assert(i / 8 < m);
        assert(d.subrange(0, m)[i / 8] == d[i / 8]);
    }
}

// ---------------------------------------------------------------------------
// Reading and writing bits
// ---------------------------------------------------------------------------

/// Reads `count` bits from bit `bit_offset` of `data`, most significant first, and moves the
/// offset past them; too few bits left is `OutOfBounds`.
pub fn decode_bits(data: &[u8], bit_offset: &mut usize, count: usize) -> (r: Result<u32, Error>)
    requires
        count <= 32,
        8 * data@.len() <= usize::MAX,
        *old(bit_offset) + count <= usize::MAX,
    ensures
        8 * data@.len() < *old(bit_offset) + count ==> r == Err::<u32, Error>(Error::OutOfBounds)
            && *final(bit_offset) == *old(bit_offset),
        8 * data@.len() >= *old(bit_offset) + count ==> r == Ok::<u32, Error>(
            bits_value(data@, *old(bit_offset) as int, count as nat) as u32,
        ) && *final(bit_offset) == *old(bit_offset) + count,
{
    let start = *bit_offset;
    if data.len() * 8 < start + count {
        return Err(Error::OutOfBounds);
    }
    let mut value: u32 = 0;
    let mut k: usize = 0;
    while k < count
        invariant
            k <= count <= 32,
            8 * data@.len() >= start + count,
            start + count <= usize::MAX,
            value == bits_value(data@, start as int, k as nat),
            *bit_offset == start + k,
        decreases count - k,
    {
        proof {
            lemma_bits_value_bound(data@, start as int, k as nat);
            vstd::arithmetic::power2::lemma2_to64();
            if k < 31 {
                vstd::arithmetic::power2::lemma_pow2_strictly_increases(k as nat, 31);
            }
        }
        let i = start + k;
        let byte = data[i / 8];
        let bit = (byte >> ((7 - i % 8) as u8)) & 1u8;
        proof {
            assert(bit <= 1) by (bit_vector)
                requires
                    bit == (byte >> ((7 - i % 8) as u8)) & 1u8,
            ;
        }
        value = value * 2 + bit as u32;
        *bit_offset = i + 1;
        k = k + 1;
    }
    proof {
        lemma_bits_value_bound(data@, start as int, count as nat);
    }
    Ok(value)
}

/// Appends the `count` low bits of `value`, most significant first, at bit `bit_offset`,
/// starting a new byte whenever the last one is full, and moves the offset past them.
pub fn encode_bits(
    encoded: &mut Vec<u8>,
    bit_offset: &mut usize,
    value: u32,
    count: usize,
    Ghost(bits): Ghost<Seq<u8>>,
)
    requires
        count <= 32,
        is_bits(bits),
        bits.len() == *old(bit_offset),
        old(encoded)@ == pack_bits(bits),
        *old(bit_offset) + count <= usize::MAX,
    ensures
        *final(bit_offset) == *old(bit_offset) + count,
        final(encoded)@ == pack_bits(bits + value_bits(value, count as nat)),
{
    let ghost start = *bit_offset;
    let mut k: usize = 0;
    while k < count
        invariant
            k <= count <= 32,
            start + count <= usize::MAX,
            *bit_offset == start + k,
            is_bits(bits),
            bits.len() == start,
            encoded@ == pack_bits(bits + value_bits(value, count as nat).subrange(0, k as int)),
        decreases count - k,
    {
        let ghost cur = bits + value_bits(value, count as nat).subrange(0, k as int);
        let shift = (count - 1 - k) as u32;
        let b = ((value >> shift) & 1u32) as u8;
        proof {
            assert(b <= 1) by (bit_vector)
                requires
                    b == ((value >> shift) & 1u32) as u8,
            ;
            assert(is_bits(cur)) by {
                assert forall|m: int| 0 <= m < cur.len() implies #[trigger] cur[m] <= 1 by {
                    if m >= bits.len() {
                        let w = value;
                        let sh = (count - 1 - (m - bits.len())) as u32;
                        assert(((w >> sh) & 1u32) as u8 <= 1) by (bit_vector);
                    }
                }
            }
            lemma_pack_push(cur, b);
            assert(cur.push(b) =~= bits + value_bits(value, count as nat).subrange(0, k + 1));
        }
        let off = *bit_offset;
        if off % 8 == 0 {
            encoded.push(0);
        }
        let idx = off / 8;
        let old_byte = encoded[idx];
        encoded.set(idx, old_byte | (b << ((7 - off % 8) as u8)));
        *bit_offset = off + 1;
        k = k + 1;
    }
    assert(value_bits(value, count as nat).subrange(0, count as int) =~= value_bits(value, count as nat));
}

} // verus!
