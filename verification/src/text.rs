use vstd::prelude::*;
use vstd::utf8::{decode_utf8, encode_utf8, valid_utf8};

use vstd::string::StrSliceExecFns;

use crate::codec::put_bytes;
use crate::error::Error;

verus! {

/// `String::from_utf8`: the string whose UTF-8 bytes these are, if they are valid UTF-8.
///
/// The contract states what the standard library documents: the bytes are kept when valid.
#[verifier::external_body]
pub fn string_from_utf8(bytes: Vec<u8>) -> (r: Option<String>)
    ensures
        r matches Some(s) ==> valid_utf8(bytes@) && s@ == decode_utf8(bytes@),
        r is None ==> !valid_utf8(bytes@),
{
    String::from_utf8(bytes).ok()
}

/// The characters that `String::from_utf8_lossy` gives for these bytes.
pub uninterp spec fn lossy_utf8(b: Seq<u8>) -> Seq<char>;

/// What `String::from_utf8_lossy` gives: valid UTF-8 is read as it is; for other bytes
/// (where each invalid sequence becomes U+FFFD) the result is only named.
pub open spec fn from_utf8_lossy(b: Seq<u8>) -> Seq<char> {
    if valid_utf8(b) {
        decode_utf8(b)
    } else {
        lossy_utf8(b)
    }
}

/// `String::from_utf8_lossy`, made into an owned string.
///
/// The contract states the documented case of valid input exactly; for invalid input it only
/// names the result, which depends on the bytes alone.
#[verifier::external_body]
pub fn string_from_utf8_lossy(bytes: &[u8]) -> (r: String)
    ensures
        valid_utf8(bytes@) ==> r@ == decode_utf8(bytes@),
        !valid_utf8(bytes@) ==> r@ == lossy_utf8(bytes@),
{
    String::from_utf8_lossy(bytes).into_owned()
}

/// The index of the first zero byte at or after `from`, if there is one.
pub open spec fn first_zero(s: Seq<u8>, from: int) -> Option<int>
    decreases s.len() - from,
{
    if from < 0 || from >= s.len() {
        None
    } else if s[from] == 0 {
        Some(from)
    } else {
        first_zero(s, from + 1)
    }
}

pub proof fn lemma_first_zero(s: Seq<u8>, from: int)
    requires
        0 <= from,
    ensures
        first_zero(s, from) matches Some(i) ==> from <= i < s.len() && s[i] == 0 && forall|k: int|
            from <= k < i ==> s[k] != 0,
        first_zero(s, from) is None ==> forall|k: int| from <= k < s.len() ==> s[k] != 0,
    decreases s.len() - from,
{
    if from < s.len() && s[from] != 0 {
        lemma_first_zero(s, from + 1);
    }
}

/// Where there is no zero between `from` and `i` and a zero at `i`, the first zero is at `i`.
pub proof fn lemma_first_zero_at(s: Seq<u8>, from: int, i: int)
    requires
        0 <= from <= i < s.len(),
        s[i] == 0,
        forall|k: int| from <= k < i ==> s[k] != 0,
    ensures
        first_zero(s, from) == Some(i),
    decreases i - from,
{
    if from < i {
        lemma_first_zero_at(s, from + 1, i);
    }
}

/// What decoding a zero-terminated UTF-8 string at `pos` gives: its characters and the offset
/// just past the terminator.
pub open spec fn spec_decode_cstring(s: Seq<u8>, pos: int) -> Result<(Seq<char>, int), Error> {
    match first_zero(s, pos) {
        None => Err(Error::OutOfBounds),
        Some(i) => if valid_utf8(s.subrange(pos, i)) {
            Ok((decode_utf8(s.subrange(pos, i)), i + 1))
        } else {
            Err(Error::InvalidString)
        },
    }
}

/// The bytes of a zero-terminated UTF-8 string.
pub open spec fn cstring_bytes(c: Seq<char>) -> Seq<u8> {
    encode_utf8(c).push(0)
}

/// A string with no zero byte in its UTF-8 encoding comes back from its zero-terminated form.
pub open spec fn cstring_keeps(c: Seq<char>) -> bool {
    forall|k: int| 0 <= k < encode_utf8(c).len() ==> #[trigger] encode_utf8(c)[k] != 0
}

/// Decodes a zero-terminated UTF-8 string at `pos`, giving it and the offset past its terminator.
pub fn decode_cstring(buf: &[u8], pos: usize) -> (r: Result<(String, usize), Error>)
    requires
        pos <= buf@.len(),
    ensures
        r matches Ok((v, n)) ==> spec_decode_cstring(buf@, pos as int) == Ok::<
            (Seq<char>, int),
            Error,
        >((v@, n as int)) && n <= buf@.len(),
        r matches Err(e) ==> spec_decode_cstring(buf@, pos as int) == Err::<(Seq<char>, int), Error>(
            e,
        ),
{
    let mut i: usize = pos;
    let mut bytes: Vec<u8> = Vec::new();
    while i < buf.len() && buf[i] != 0
        invariant
            pos <= i <= buf@.len(),
            bytes@ == buf@.subrange(pos as int, i as int),
            forall|k: int| pos <= k < i ==> buf@[k] != 0,
        decreases buf@.len() - i,
    {
        bytes.push(buf[i]);
        i = i + 1;
        assert(bytes@ =~= buf@.subrange(pos as int, i as int));
    }
    proof {
        lemma_first_zero(buf@, pos as int);
    }
    if i == buf.len() {
        return Err(Error::OutOfBounds);
    }
    proof {
        lemma_first_zero_at(buf@, pos as int, i as int);
    }
    match string_from_utf8(bytes) {
        Some(s) => Ok((s, i + 1)),
        None => Err(Error::InvalidString),
    }
}

/// Appends the UTF-8 bytes of a string and a zero terminator.
pub fn put_cstring(out: &mut Vec<u8>, s: &str)
    ensures
        final(out)@ == old(out)@ + cstring_bytes(s@),
{
    put_bytes(out, s.as_bytes());
    out.push(0);
    assert(out@ =~= old(out)@ + cstring_bytes(s@));
}

/// A zero-terminated string decodes back to the characters it was written from.
pub proof fn lemma_cstring_roundtrip(p: Seq<u8>, c: Seq<char>, q: Seq<u8>)
    requires
        cstring_keeps(c),
    ensures
        spec_decode_cstring(p + cstring_bytes(c) + q, p.len() as int) == Ok::<
            (Seq<char>, int),
            Error,
        >((c, (p.len() + encode_utf8(c).len() + 1) as int)),
{
    let e = encode_utf8(c);
    let s = p + cstring_bytes(c) + q;
    let i = (p.len() + e.len()) as int;
    assert(s[i] == 0);
    assert forall|k: int| p.len() <= k < i implies s[k] != 0 by {
        assert(s[k] == e[k - p.len()]);
    }
    lemma_first_zero_at(s, p.len() as int, i);
    assert(s.subrange(p.len() as int, i) =~= e);
    vstd::utf8::encode_utf8_valid_utf8(c);
    vstd::utf8::encode_utf8_decode_utf8(c);
}

// ---------------------------------------------------------------------------
// ISO 639-2/T language codes packed in 15 bits
// ---------------------------------------------------------------------------

/// The three characters of a packed language code: each 5-bit group plus 0x60.
pub open spec fn language_chars(code: u16) -> Seq<char> {
    seq![
        ((code / 1024) % 32 + 0x60) as char,
        ((code / 32) % 32 + 0x60) as char,
        (code % 32 + 0x60) as char,
    ]
}

/// The UTF-16 code units of one character.
pub open spec fn utf16_of(c: char) -> Seq<u32> {
    if c as u32 >= 0x10000 {
        seq![
            (0xD800 + (c as u32 - 0x10000) / 1024) as u32,
            (0xDC00 + (c as u32 - 0x10000) % 1024) as u32,
        ]
    } else {
        seq![c as u32]
    }
}

/// The UTF-16 code units of some characters.
pub open spec fn utf16(cs: Seq<char>) -> Seq<u32>
    decreases cs.len(),
{
    if cs.len() == 0 {
        Seq::empty()
    } else {
        utf16(cs.drop_last()) + utf16_of(cs.last())
    }
}

/// Code unit `i`, or 0 when there is none.
pub open spec fn unit_or_zero(u: Seq<u32>, i: int) -> u32 {
    if 0 <= i < u.len() {
        u[i]
    } else {
        0
    }
}

/// The packed code of a language: the low 5 bits of each of its first three UTF-16 code units
/// (0 for a missing one), first one highest.
pub open spec fn language_code_of(cs: Seq<char>) -> u16 {
    let u = utf16(cs.take(if cs.len() < 3 { cs.len() as int } else { 3 }));
    ((unit_or_zero(u, 0) % 32) * 1024 + (unit_or_zero(u, 1) % 32) * 32 + unit_or_zero(u, 2) % 32) as u16
}

/// A language of three characters from U+0060 to U+007F comes back from its packed code.
pub open spec fn language_keeps(cs: Seq<char>) -> bool {
    cs.len() == 3 && forall|i: int| 0 <= i < 3 ==> 0x60 <= #[trigger] (cs[i] as u32) < 0x80
}

/// The language of a packed code, as a string of three characters.
pub fn language_string(code: u16) -> (r: String)
    ensures
        r@ == language_chars(code),
{
    let cs = Ghost(language_chars(code));
    let b0 = ((code / 1024) % 32 + 0x60) as u8;
    let b1 = ((code / 32) % 32 + 0x60) as u8;
    let b2 = (code % 32 + 0x60) as u8;
    let mut v: Vec<u8> = Vec::new();
    v.push(b0);
    v.push(b1);
    v.push(b2);
    proof {
        assert(vstd::utf8::is_ascii_chars(cs@));
        vstd::utf8::is_ascii_chars_encode_utf8(cs@);
        assert(v@ =~= encode_utf8(cs@));
        vstd::utf8::encode_utf8_valid_utf8(cs@);
        vstd::utf8::encode_utf8_decode_utf8(cs@);
    }
    match string_from_utf8(v) {
        Some(s) => s,
        None => {
            proof {
                assert(false);
            }
            String::new()
        },
    }
}

/// The packed code of a language.
pub fn language_code(language: &str) -> (r: u16)
    ensures
        r == language_code_of(language@),
{
    let n = language.unicode_len();
    let m: usize = if n < 3 {
        n
    } else {
        3
    };
    let mut units: Vec<u32> = Vec::new();
    let mut i: usize = 0;
    while i < m
        invariant
            i <= m <= 3,
            m <= language@.len(),
            units@ == utf16(language@.take(i as int)),
            units@.len() <= 2 * i,
        decreases m - i,
    {
        let c = language.get_char(i);
        let x = c as u32;
        if x >= 0x10000 {
            units.push(0xD800 + (x - 0x10000) / 1024);
            units.push(0xDC00 + (x - 0x10000) % 1024);
        } else {
            units.push(x);
        }
        proof {
            assert(language@.take(i + 1).drop_last() =~= language@.take(i as int));
        }
        i = i + 1;
        assert(units@ =~= utf16(language@.take(i as int)));
    }
    let u0: u32 = if units.len() > 0 {
        units[0]
    } else {
        0
    };
    let u1: u32 = if units.len() > 1 {
        units[1]
    } else {
        0
    };
    let u2: u32 = if units.len() > 2 {
        units[2]
    } else {
        0
    };
    ((u0 % 32) * 1024 + (u1 % 32) * 32 + u2 % 32) as u16
}

/// A kept language comes back from its packed code.
pub proof fn lemma_language_roundtrip(cs: Seq<char>)
    requires
        language_keeps(cs),
    ensures
        language_chars(language_code_of(cs)) == cs,
{
    let t = cs.take(3);
    assert(t =~= cs);
    assert(0x60 <= (cs[0] as u32) < 0x80);
    assert(0x60 <= (cs[1] as u32) < 0x80);
    assert(0x60 <= (cs[2] as u32) < 0x80);
    let t1 = seq![cs[0]];
    let t2 = seq![cs[0], cs[1]];
    assert(t1.drop_last() =~= Seq::<char>::empty());
    assert(utf16(t1.drop_last()) =~= Seq::<u32>::empty());
    assert(utf16_of(t1.last()) =~= seq![cs[0] as u32]);
    assert(utf16(t1) =~= seq![cs[0] as u32]);
    assert(t2.drop_last() =~= t1);
    assert(utf16_of(t2.last()) =~= seq![cs[1] as u32]);
    assert(utf16(t2) =~= seq![cs[0] as u32, cs[1] as u32]);
    assert(utf16_of(t.last()) =~= seq![cs[2] as u32]);
    assert(t.drop_last() =~= t2);
    let u = utf16(t);
    assert(u =~= seq![cs[0] as u32, cs[1] as u32, cs[2] as u32]);
    let code = language_code_of(cs);
    assert(0x60 <= (cs[0] as u32) < 0x80);
    assert(0x60 <= (cs[1] as u32) < 0x80);
    assert(0x60 <= (cs[2] as u32) < 0x80);
    let a = cs[0] as u32 % 32;
    let b = cs[1] as u32 % 32;
    let c = cs[2] as u32 % 32;
    assert(code == a * 1024 + b * 32 + c);
    assert((code / 1024) % 32 == a && (code / 32) % 32 == b && code % 32 == c) by (nonlinear_arith)
        requires
            code == a * 1024 + b * 32 + c,
            a < 32,
            b < 32,
            c < 32,
    ;
    assert(((a + 0x60) as char) == cs[0]) by {
        vstd::utf8::char_u32_cast(cs[0], (a + 0x60) as u32);
    }
    assert(((b + 0x60) as char) == cs[1]) by {
        vstd::utf8::char_u32_cast(cs[1], (b + 0x60) as u32);
    }
    assert(((c + 0x60) as char) == cs[2]) by {
        vstd::utf8::char_u32_cast(cs[2], (c + 0x60) as u32);
    }
    assert(language_chars(code) =~= cs);
}

/// A trailing zero byte neither makes nor breaks valid UTF-8.
pub proof fn lemma_utf8_push_zero(p: Seq<u8>)
    ensures
        valid_utf8(p.push(0)) == valid_utf8(p),
{
    let z = seq![0u8];
    assert(valid_utf8(z)) by {
        reveal_with_fuel(valid_utf8, 2);
        assert(vstd::utf8::pop_first_scalar(z) =~= Seq::<u8>::empty());
    }
    assert(p.push(0) =~= p + z);
    if valid_utf8(p) {
        vstd::utf8::valid_utf8_concat(p, z);
    }
    if valid_utf8(p.push(0)) {
        let b = p.push(0);
        vstd::utf8::is_char_boundary_iff_not_is_continuation_byte(b, p.len() as int);
        vstd::utf8::valid_utf8_split(b, p.len() as int);
        assert(b.subrange(0, p.len() as int) =~= p);
    }
}

// ---------------------------------------------------------------------------
// Decimal numbers
// ---------------------------------------------------------------------------

/// Whether every character is an ASCII digit.
pub open spec fn all_digits(s: Seq<char>) -> bool {
    forall|i: int| 0 <= i < s.len() ==> 48 <= #[trigger] (s[i] as u32) <= 57
}

/// The value of a string of ASCII digits, most significant first.
pub open spec fn digits_value(s: Seq<char>) -> int
    decreases s.len(),
{
    if s.len() == 0 {
        0
    } else {
        digits_value(s.drop_last()) * 10 + (s.last() as u32 - 48)
    }
}

/// What `str::parse::<u32>` gives: an optional `+`, then at least one ASCII digit and
/// nothing else, for a value that fits in 32 bits.
pub open spec fn spec_parse_u32(s: Seq<char>) -> Option<u32> {
    let d = if s.len() > 0 && s[0] == '+' {
        s.drop_first()
    } else {
        s
    };
    if d.len() > 0 && all_digits(d) && digits_value(d) <= u32::MAX {
        Some(digits_value(d) as u32)
    } else {
        None
    }
}

/// `str::parse::<u32>`, with the error dropped.
///
/// The contract states what the standard library documents for `u32::from_str`.
#[verifier::external_body]
pub fn parse_u32(s: &str) -> (r: Option<u32>)
    ensures
        r == spec_parse_u32(s@),
{
    s.parse::<u32>().ok()
}

} // verus!
