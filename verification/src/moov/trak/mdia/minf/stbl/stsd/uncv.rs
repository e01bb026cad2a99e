use vstd::prelude::*;
use vstd::utf8::encode_utf8;

use crate::atom::{decode_atom, encode_atom, spec_decode_atom, spec_encode_atom, Atom, Decode, Encode};
use crate::container::{
    decode_children, encode_opt, lemma_decode_child, lemma_scan_child, lemma_scan_empty,
    lemma_scan_opt, opt_atom_bytes, opt_view, scan_children, Children,
};
use super::btrt::Btrt;
use super::ccst::Ccst;
use super::pasp::Pasp;
use super::visual::{lemma_visual_roundtrip, visual_bytes, Visual, VisualV};
use crate::types::compressor_keeps;
use crate::codec::{
    be16, be16_at, be32, be32_at, bytes_from, bytes_len, concat_map, group_codec, lemma_at_shift, lemma_concat_map_first,
    lemma_concat_map_push, put_u16, put_u32, put_u8, read_u16, read_u24, read_u32, read_u8,
};
use crate::error::Error;
use crate::fourcc::FourCC;
use crate::text::{
    cstring_bytes, cstring_keeps, decode_cstring, lemma_cstring_roundtrip, put_cstring,
    spec_decode_cstring,
};

verus! {

broadcast use group_codec;

// ---------------------------------------------------------------------------
// Component definition box
// ---------------------------------------------------------------------------

/// One component of uncompressed video: its type, and from type 0x8000 up a URI that
/// names it.
#[derive(Debug, Clone, PartialEq, Eq)]
pub struct Component {
    pub component_type: u16,
    pub component_type_uri: Option<String>,
}

/// The type, then the URI if any.
pub type ComponentV = (u16, Option<Seq<char>>);

impl View for Component {
    type V = ComponentV;

    open spec fn view(&self) -> ComponentV {
        (
            self.component_type,
            match self.component_type_uri {
                Some(u) => Some(u@),
                None => None,
            },
        )
    }
}

/// Component definition box (`cmpd`).
#[derive(Debug, Clone, PartialEq, Eq, Default)]
pub struct Cmpd {
    pub components: Vec<Component>,
}

impl View for Cmpd {
    type V = Seq<ComponentV>;

    open spec fn view(&self) -> Seq<ComponentV> {
        self.components@.map_values(|c: Component| c@)
    }
}

/// What decoding the component at `pos` gives: a type, and from 0x8000 up a
/// zero-terminated URI; and the offset after it.
pub open spec fn spec_component(s: Seq<u8>, pos: int) -> Result<(ComponentV, int), Error> {
    if pos < 0 || pos + 2 > s.len() {
        Err(Error::OutOfBounds)
    } else {
        let t = be16_at(s, pos);
        if t >= 0x8000 {
            match spec_decode_cstring(s, pos + 2) {
                Err(e) => Err(e),
                Ok((u, p)) => Ok(((t, Some(u)), p)),
            }
        } else {
            Ok(((t, None), pos + 2))
        }
    }
}

/// What decoding `count` components one after the other from `pos` gives.
pub open spec fn spec_components(s: Seq<u8>, pos: int, count: nat) -> Result<
    (Seq<ComponentV>, int),
    Error,
>
    decreases count,
{
    if count == 0 {
        Ok((Seq::empty(), pos))
    } else {
        match spec_component(s, pos) {
            Err(e) => Err(e),
            Ok((x, p)) => match spec_components(s, p, (count - 1) as nat) {
                Err(e) => Err(e),
                Ok((rest, q)) => Ok((seq![x] + rest, q)),
            },
        }
    }
}

/// The bytes of a component: the type, and from 0x8000 up the URI.
pub open spec fn component_bytes(c: ComponentV) -> Seq<u8> {
    if c.0 >= 0x8000 {
        be16(c.0) + cstring_bytes(
            match c.1 {
                Some(u) => u,
                None => Seq::empty(),
            },
        )
    } else {
        be16(c.0)
    }
}

/// Whether some component from type 0x8000 up has no URI.
pub open spec fn component_uri_missing(v: Seq<ComponentV>) -> bool {
    exists|k: int| 0 <= k < v.len() && (#[trigger] v[k]).0 >= 0x8000 && v[k].1 is None
}

/// A component comes back when it has a URI exactly from type 0x8000 up, without a zero byte.
pub open spec fn component_keeps(c: ComponentV) -> bool {
    match c.1 {
        Some(u) => c.0 >= 0x8000 && cstring_keeps(u),
        None => c.0 < 0x8000,
    }
}

fn decode_component(buf: &[u8], pos: usize) -> (r: Result<(Component, usize), Error>)
    ensures
        r matches Ok((x, p)) ==> spec_component(buf@, pos as int) == Ok::<(ComponentV, int), Error>(
            (x@, p as int),
        ),
        r matches Err(e) ==> spec_component(buf@, pos as int) == Err::<(ComponentV, int), Error>(e),
{
    if pos > buf.len() || buf.len() - pos < 2 {
        return Err(Error::OutOfBounds);
    }
    let component_type = read_u16(buf, pos)?;
    if component_type >= 0x8000 {
        let (uri, p) = decode_cstring(buf, pos + 2)?;
        Ok((Component { component_type, component_type_uri: Some(uri) }, p))
    } else {
        Ok((Component { component_type, component_type_uri: None }, pos + 2))
    }
}

proof fn lemma_components_roundtrip(p: Seq<u8>, v: Seq<ComponentV>)
    requires
        forall|k: int| 0 <= k < v.len() ==> component_keeps(#[trigger] v[k]),
    ensures
        spec_components(
            p + concat_map(v, |c: ComponentV| component_bytes(c)),
            p.len() as int,
            v.len(),
        ) == Ok::<(Seq<ComponentV>, int), Error>(
            (v, p.len() + concat_map(v, |c: ComponentV| component_bytes(c)).len() as int),
        ),
    decreases v.len(),
{
    let f = |c: ComponentV| component_bytes(c);
    if v.len() == 0 {
        assert(v =~= Seq::<ComponentV>::empty());
    } else {
        lemma_concat_map_first(v, f);
        let x = v[0];
        let e = component_bytes(x);
        let rest = concat_map(v.drop_first(), f);
        let s = p + concat_map(v, f);
        assert(s =~= (p + e) + rest);
        assert(component_keeps(x));
        let tail = e + rest;
        assert(s =~= p + tail);
        lemma_at_shift(p, tail, 0);
        assert(be16_at(s, p.len() as int) == x.0);
        if x.0 >= 0x8000 {
            let u = x.1->Some_0;
            lemma_cstring_roundtrip(p + be16(x.0), u, rest);
            assert(p + be16(x.0) + cstring_bytes(u) + rest =~= s);
        }
        assert(spec_component(s, p.len() as int) == Ok::<(ComponentV, int), Error>(
            (x, (p + e).len() as int),
        ));
        assert forall|k: int| 0 <= k < v.drop_first().len() implies component_keeps(
            #[trigger] v.drop_first()[k],
        ) by {
            assert(v.drop_first()[k] == v[k + 1]);
        }
        lemma_components_roundtrip(p + e, v.drop_first());
        assert(seq![x] + v.drop_first() =~= v);
    }
}

impl Atom for Cmpd {
    open spec fn spec_kind() -> u32 {
        0x636d7064
    }

    fn kind() -> (k: FourCC) {
        FourCC::from_u32(0x636d7064)
    }

    /// A 32-bit count, then that many components.
    open spec fn spec_decode_body(s: Seq<u8>) -> Result<(Seq<ComponentV>, int), Error> {
        if s.len() < 4 {
            Err(Error::OutOfBounds)
        } else {
            spec_components(s, 4, be32_at(s, 0) as nat)
        }
    }

    /// The count (kept to its low 32 bits), then the components. A component from type
    /// 0x8000 up without a URI cannot be written: `InvalidCombination`.
    open spec fn spec_encode_body(v: Seq<ComponentV>) -> Result<Seq<u8>, Error> {
        if component_uri_missing(v) {
            Err(Error::InvalidCombination("component type without URI"))
        } else {
            Ok(be32(v.len() as u32) + concat_map(v, |c: ComponentV| component_bytes(c)))
        }
    }

    open spec fn spec_keeps(v: Seq<ComponentV>) -> bool {
        &&& v.len() <= u32::MAX
        &&& forall|k: int| 0 <= k < v.len() ==> component_keeps(#[trigger] v[k])
    }

    fn decode_body(buf: &[u8]) -> (r: Result<(Self, usize), Error>) {
        let count = read_u32(buf, 0)?;
        let ghost s = buf@;
        let mut components: Vec<Component> = Vec::new();
        let mut p: usize = 4;
        let mut i: u32 = 0;
        proof {
            assert(components@.map_values(|c: Component| c@) =~= Seq::<ComponentV>::empty());
            assert(forall|x: Seq<ComponentV>| Seq::<ComponentV>::empty() + x =~= x);
        }
        while i < count
            invariant
                i <= count,
                s == buf@,
                s.len() >= 4,
                count == be32_at(s, 0),
                match spec_components(s, p as int, (count - i) as nat) {
                    Ok((rest, q)) => spec_components(s, 4, count as nat) == Ok::<
                        (Seq<ComponentV>, int),
                        Error,
                    >((components@.map_values(|c: Component| c@) + rest, q)),
                    Err(e) => spec_components(s, 4, count as nat) == Err::<
                        (Seq<ComponentV>, int),
                        Error,
                    >(e),
                },
            decreases count - i,
        {
            let (x, q) = decode_component(buf, p)?;
            proof {
                let ghost old_view = components@.map_values(|c: Component| c@);
                assert(components@.push(x).map_values(|c: Component| c@) =~= old_view.push(x@));
                assert(forall|y: Seq<ComponentV>| old_view + (seq![x@] + y) =~= old_view.push(x@) + y);
            }
            components.push(x);
            p = q;
            i = i + 1;
        }
        proof {
            assert(components@.map_values(|c: Component| c@) + Seq::<ComponentV>::empty()
                =~= components@.map_values(|c: Component| c@));
        }
        Ok((Cmpd { components }, p))
    }

    fn encode_body(&self, out: &mut Vec<u8>) -> (r: Result<(), Error>) {
        let ghost v = self@;
        let ghost f = |c: ComponentV| component_bytes(c);
        let mut body: Vec<u8> = Vec::new();
        put_u32(&mut body, self.components.len() as u32);
        let ghost head = body@;
        let n = self.components.len();
        let mut k: usize = 0;
        assert(concat_map(v.subrange(0, 0), f) =~= Seq::<u8>::empty()) by {
            assert(v.subrange(0, 0) =~= Seq::<ComponentV>::empty());
        }
        assert(body@ =~= head + concat_map(v.subrange(0, 0), f));
        while k < n
            invariant
                k <= n,
                n == v.len(),
                v == self@,
                f == (|c: ComponentV| component_bytes(c)),
                forall|j: int| 0 <= j < k ==> !((#[trigger] v[j]).0 >= 0x8000 && v[j].1 is None),
                body@ == head + concat_map(v.subrange(0, k as int), f),
            decreases n - k,
        {
            let c = &self.components[k];
            assert(c@ == v[k as int]);
            put_u16(&mut body, c.component_type);
            if c.component_type >= 0x8000 {
                match &c.component_type_uri {
                    Some(u) => put_cstring(&mut body, u.as_str()),
                    None => {
                        assert(component_uri_missing(v));
                        return Err(Error::InvalidCombination("component type without URI"));
                    },
                }
            }
            proof {
                lemma_concat_map_push(v.subrange(0, k as int), f, v[k as int]);
                assert(v.subrange(0, k as int).push(v[k as int]) =~= v.subrange(0, k + 1));
            }
            k = k + 1;
            assert(body@ =~= head + concat_map(v.subrange(0, k as int), f));
        }
        assert(v.subrange(0, n as int) =~= v);
        assert(!component_uri_missing(v));
        crate::codec::put_bytes(out, body.as_slice());
        Ok(())
    }

    proof fn lemma_body_roundtrip(v: Seq<ComponentV>) {
        let head = be32(v.len() as u32);
        assert forall|k: int| 0 <= k < v.len() implies !((#[trigger] v[k]).0 >= 0x8000
            && v[k].1 is None) by {
            assert(component_keeps(v[k]));
        }
        lemma_components_roundtrip(head, v);
    }
}

// ---------------------------------------------------------------------------
// Uncompressed frame configuration box
// ---------------------------------------------------------------------------

/// One component of an uncompressed frame: its index in the component definitions, its bit
/// depth less one, its format and its alignment.
#[derive(Debug, Clone, Copy, PartialEq, Eq)]
pub struct UncompressedComponent {
    pub component_index: u16,
    pub component_bit_depth_minus_one: u8,
    pub component_format: u8,
    pub component_align_size: u8,
}

impl View for UncompressedComponent {
    type V = UncompressedComponent;

    open spec fn view(&self) -> UncompressedComponent {
        *self
    }
}

/// Uncompressed frame configuration box (`uncC`): a profile alone in version 1; the whole
/// layout in version 0.
#[derive(Debug, Clone, PartialEq, Eq)]
pub enum UncC {
    V1 { profile: FourCC },
    V0 {
        profile: FourCC,
        components: Vec<UncompressedComponent>,
        sampling_type: u8,
        interleave_type: u8,
        block_size: u8,
        components_little_endian: bool,
        block_pad_lsb: bool,
        block_little_endian: bool,
        block_reversed: bool,
        pad_unknown: bool,
        pixel_size: u32,
        row_align_size: u32,
        tile_align_size: u32,
        num_tile_cols_minus_one: u32,
        num_tile_rows_minus_one: u32,
    },
}

/// The value of an `uncC` box.
pub enum UncCV {
    V1 { profile: FourCC },
    V0 {
        profile: FourCC,
        components: Seq<UncompressedComponent>,
        sampling_type: u8,
        interleave_type: u8,
        block_size: u8,
        components_little_endian: bool,
        block_pad_lsb: bool,
        block_little_endian: bool,
        block_reversed: bool,
        pad_unknown: bool,
        pixel_size: u32,
        row_align_size: u32,
        tile_align_size: u32,
        num_tile_cols_minus_one: u32,
        num_tile_rows_minus_one: u32,
    },
}

impl View for UncC {
    type V = UncCV;

    open spec fn view(&self) -> UncCV {
        match *self {
            UncC::V1 { profile } => UncCV::V1 { profile },
            UncC::V0 {
                profile,
                components,
                sampling_type,
                interleave_type,
                block_size,
                components_little_endian,
                block_pad_lsb,
                block_little_endian,
                block_reversed,
                pad_unknown,
                pixel_size,
                row_align_size,
                tile_align_size,
                num_tile_cols_minus_one,
                num_tile_rows_minus_one,
            } => UncCV::V0 {
                profile,
                components: components@,
                sampling_type,
                interleave_type,
                block_size,
                components_little_endian,
                block_pad_lsb,
                block_little_endian,
                block_reversed,
                pad_unknown,
                pixel_size,
                row_align_size,
                tile_align_size,
                num_tile_cols_minus_one,
                num_tile_rows_minus_one,
            },
        }
    }
}

/// The five-byte component at `p`.
pub open spec fn ucomp_at(s: Seq<u8>, p: int) -> UncompressedComponent {
    UncompressedComponent {
        component_index: be16_at(s, p),
        component_bit_depth_minus_one: s[p + 2],
        component_format: s[p + 3],
        component_align_size: s[p + 4],
    }
}

/// The five bytes of a component.
pub open spec fn ucomp_bytes(c: UncompressedComponent) -> Seq<u8> {
    be16(c.component_index) + seq![
        c.component_bit_depth_minus_one,
        c.component_format,
        c.component_align_size,
    ]
}

/// The flag byte of a version 0 `uncC`: bits 7 down to 3.
pub open spec fn uncc_flag_byte(a: bool, b: bool, c: bool, d: bool, e: bool) -> u8 {
    ((if a {
        128int
    } else {
        0
    }) + (if b {
        64int
    } else {
        0
    }) + (if c {
        32int
    } else {
        0
    }) + (if d {
        16int
    } else {
        0
    }) + (if e {
        8int
    } else {
        0
    })) as u8
}

/// What decoding an `uncC` body gives.
pub open spec fn spec_decode_uncc(s: Seq<u8>) -> Result<(UncCV, int), Error> {
    if s.len() < 4 {
        Err(Error::OutOfBounds)
    } else if s[0] > 1 {
        Err(Error::UnknownVersion(s[0]))
    } else if s[0] == 1 {
        if s.len() < 8 {
            Err(Error::OutOfBounds)
        } else {
            Ok((UncCV::V1 { profile: FourCC { code: be32_at(s, 4) } }, 8))
        }
    } else if s.len() < 12 {
        Err(Error::OutOfBounds)
    } else {
        let n = be32_at(s, 8) as int;
        let q = 12 + 5 * n;
        if q + 24 > s.len() {
            Err(Error::OutOfBounds)
        } else {
            let f = s[q + 3];
            Ok(
                (
                    UncCV::V0 {
                        profile: FourCC { code: be32_at(s, 4) },
                        components: Seq::new(n as nat, |k: int| ucomp_at(s, 12 + 5 * k)),
                        sampling_type: s[q],
                        interleave_type: s[q + 1],
                        block_size: s[q + 2],
                        components_little_endian: (f / 128) % 2 == 1,
                        block_pad_lsb: (f / 64) % 2 == 1,
                        block_little_endian: (f / 32) % 2 == 1,
                        block_reversed: (f / 16) % 2 == 1,
                        pad_unknown: (f / 8) % 2 == 1,
                        pixel_size: be32_at(s, q + 4),
                        row_align_size: be32_at(s, q + 8),
                        tile_align_size: be32_at(s, q + 12),
                        num_tile_cols_minus_one: be32_at(s, q + 16),
                        num_tile_rows_minus_one: be32_at(s, q + 20),
                    },
                    q + 24,
                ),
            )
        }
    }
}

/// The bytes of an `uncC` body; the component count is kept to its low 32 bits.
pub open spec fn uncc_bytes(v: UncCV) -> Seq<u8> {
    match v {
        UncCV::V1 { profile } => seq![1u8, 0, 0, 0] + be32(profile.code),
        UncCV::V0 {
            profile,
            components,
            sampling_type,
            interleave_type,
            block_size,
            components_little_endian,
            block_pad_lsb,
            block_little_endian,
            block_reversed,
            pad_unknown,
            pixel_size,
            row_align_size,
            tile_align_size,
            num_tile_cols_minus_one,
            num_tile_rows_minus_one,
        } => seq![0u8, 0, 0, 0] + be32(profile.code) + be32(components.len() as u32) + concat_map(
            components,
            |c: UncompressedComponent| ucomp_bytes(c),
        ) + seq![
            sampling_type,
            interleave_type,
            block_size,
            uncc_flag_byte(
                components_little_endian,
                block_pad_lsb,
                block_little_endian,
                block_reversed,
                pad_unknown,
            ),
        ] + be32(pixel_size) + be32(row_align_size) + be32(tile_align_size) + be32(
            num_tile_cols_minus_one,
        ) + be32(num_tile_rows_minus_one),
    }
}

/// Each flag comes back from the flag byte.
proof fn lemma_uncc_flags(a: bool, b: bool, c: bool, d: bool, e: bool)
    ensures
        ({
            let f = uncc_flag_byte(a, b, c, d, e);
            &&& ((f / 128) % 2 == 1) == a
            &&& ((f / 64) % 2 == 1) == b
            &&& ((f / 32) % 2 == 1) == c
            &&& ((f / 16) % 2 == 1) == d
            &&& ((f / 8) % 2 == 1) == e
        }),
{
}

/// Appends the five bytes of each component.
fn put_ucomps(components: &Vec<UncompressedComponent>, out: &mut Vec<u8>)
    ensures
        final(out)@ == old(out)@ + concat_map(components@, |c: UncompressedComponent| ucomp_bytes(c)),
{
    let ghost f = |c: UncompressedComponent| ucomp_bytes(c);
    let ghost v = components@;
    let ghost head = out@;
    let n = components.len();
    let mut k: usize = 0;
    assert(concat_map(v.subrange(0, 0), f) =~= Seq::<u8>::empty()) by {
        assert(v.subrange(0, 0) =~= Seq::<UncompressedComponent>::empty());
    }
    assert(out@ =~= head + concat_map(v.subrange(0, 0), f));
    while k < n
        invariant
            k <= n,
            n == v.len(),
            v == components@,
            f == (|c: UncompressedComponent| ucomp_bytes(c)),
            out@ == head + concat_map(v.subrange(0, k as int), f),
        decreases n - k,
    {
        let c = components[k];
        put_u16(out, c.component_index);
        put_u8(out, c.component_bit_depth_minus_one);
        put_u8(out, c.component_format);
        put_u8(out, c.component_align_size);
        proof {
            lemma_concat_map_push(v.subrange(0, k as int), f, v[k as int]);
            assert(v.subrange(0, k as int).push(v[k as int]) =~= v.subrange(0, k + 1));
        }
        k = k + 1;
        assert(out@ =~= head + concat_map(v.subrange(0, k as int), f));
    }
    assert(v.subrange(0, n as int) =~= v);
}

fn decode_uncc(buf: &[u8]) -> (r: Result<(UncC, usize), Error>)
    ensures
        r matches Ok((v, n)) ==> spec_decode_uncc(buf@) == Ok::<(UncCV, int), Error>((v@, n as int)),
        r matches Err(e) ==> spec_decode_uncc(buf@) == Err::<(UncCV, int), Error>(e),
{
    let version = read_u8(buf, 0)?;
    let _flags = read_u24(buf, 1)?;
    if version > 1 {
        return Err(Error::UnknownVersion(version));
    }
    if version == 1 {
        let profile = read_u32(buf, 4)?;
        return Ok((UncC::V1 { profile: FourCC::from_u32(profile) }, 8));
    }
    let profile = read_u32(buf, 4)?;
    let count = read_u32(buf, 8)?;
    if (count as u64) * 5 + 36 > buf.len() as u64 {
        return Err(Error::OutOfBounds);
    }
    let ghost s = buf@;
    let n = count as usize;
    let mut components: Vec<UncompressedComponent> = Vec::new();
    let mut i: usize = 0;
    while i < n
        invariant
            i <= n,
            s == buf@,
            12 + 5 * n + 24 <= s.len(),
            12 + 5 * n + 24 <= buf.len(),
            components@ == Seq::new(i as nat, |k: int| ucomp_at(s, 12 + 5 * k)),
        decreases n - i,
    {
        let p = 12 + 5 * i;
        let component_index = read_u16(buf, p)?;
        let component_bit_depth_minus_one = read_u8(buf, p + 2)?;
        let component_format = read_u8(buf, p + 3)?;
        let component_align_size = read_u8(buf, p + 4)?;
        components.push(
            UncompressedComponent {
                component_index,
                component_bit_depth_minus_one,
                component_format,
                component_align_size,
            },
        );
        i = i + 1;
        assert(components@ =~= Seq::new(i as nat, |k: int| ucomp_at(s, 12 + 5 * k)));
    }
    let q = 12 + 5 * n;
    let sampling_type = read_u8(buf, q)?;
    let interleave_type = read_u8(buf, q + 1)?;
    let block_size = read_u8(buf, q + 2)?;
    let f = read_u8(buf, q + 3)?;
    let pixel_size = read_u32(buf, q + 4)?;
    let row_align_size = read_u32(buf, q + 8)?;
    let tile_align_size = read_u32(buf, q + 12)?;
    let num_tile_cols_minus_one = read_u32(buf, q + 16)?;
    let num_tile_rows_minus_one = read_u32(buf, q + 20)?;
    Ok(
        (
            UncC::V0 {
                profile: FourCC::from_u32(profile),
                components,
                sampling_type,
                interleave_type,
                block_size,
                components_little_endian: (f / 128) % 2 == 1,
                block_pad_lsb: (f / 64) % 2 == 1,
                block_little_endian: (f / 32) % 2 == 1,
                block_reversed: (f / 16) % 2 == 1,
                pad_unknown: (f / 8) % 2 == 1,
                pixel_size,
                row_align_size,
                tile_align_size,
                num_tile_cols_minus_one,
                num_tile_rows_minus_one,
            },
            q + 24,
        ),
    )
}

impl Atom for UncC {
    open spec fn spec_kind() -> u32 {
        0x756e6343
    }

    fn kind() -> (k: FourCC) {
        FourCC::from_u32(0x756e6343)
    }

    /// A version (0 or 1, else `UnknownVersion`) and flags (ignored); version 1 has a
    /// profile alone; version 0 has the profile, a 32-bit count, five-byte components, the
    /// sampling, interleave and block size bytes, a flag byte, and five 32-bit numbers.
    open spec fn spec_decode_body(s: Seq<u8>) -> Result<(UncCV, int), Error> {
        spec_decode_uncc(s)
    }

    /// The flags of version 0 are bits 7 down to 3 of their byte.
    open spec fn spec_encode_body(v: UncCV) -> Result<Seq<u8>, Error> {
        Ok(uncc_bytes(v))
    }

    open spec fn spec_keeps(v: UncCV) -> bool {
        v matches UncCV::V0 { components, .. } ==> components.len() <= u32::MAX
    }

    fn decode_body(buf: &[u8]) -> (r: Result<(Self, usize), Error>) {
        decode_uncc(buf)
    }

    #[verifier::rlimit(50)]
    fn encode_body(&self, out: &mut Vec<u8>) -> (r: Result<(), Error>) {
        let ghost start = out@;
        match self {
            UncC::V1 { profile } => {
                put_u8(out, 1);
                put_u8(out, 0);
                put_u8(out, 0);
                put_u8(out, 0);
                put_u32(out, profile.code);
            },
            UncC::V0 {
                profile,
                components,
                sampling_type,
                interleave_type,
                block_size,
                components_little_endian,
                block_pad_lsb,
                block_little_endian,
                block_reversed,
                pad_unknown,
                pixel_size,
                row_align_size,
                tile_align_size,
                num_tile_cols_minus_one,
                num_tile_rows_minus_one,
            } => {
                put_u8(out, 0);
                put_u8(out, 0);
                put_u8(out, 0);
                put_u8(out, 0);
                put_u32(out, profile.code);
                put_u32(out, components.len() as u32);
                put_ucomps(components, out);
                put_u8(out, *sampling_type);
                put_u8(out, *interleave_type);
                put_u8(out, *block_size);
                let mut flags: u8 = 0;
                if *components_little_endian {
                    flags = flags + 128;
                }
                if *block_pad_lsb {
                    flags = flags + 64;
                }
                if *block_little_endian {
                    flags = flags + 32;
                }
                if *block_reversed {
                    flags = flags + 16;
                }
                if *pad_unknown {
                    flags = flags + 8;
                }
                assert(flags == uncc_flag_byte(
                    *components_little_endian,
                    *block_pad_lsb,
                    *block_little_endian,
                    *block_reversed,
                    *pad_unknown,
                ));
                put_u8(out, flags);
                put_u32(out, *pixel_size);
                put_u32(out, *row_align_size);
                put_u32(out, *tile_align_size);
                put_u32(out, *num_tile_cols_minus_one);
                put_u32(out, *num_tile_rows_minus_one);
            },
        }
        assert(out@ =~= start + uncc_bytes(self@));
        Ok(())
    }

    #[verifier::rlimit(50)]
    proof fn lemma_body_roundtrip(v: UncCV) {
        let b = uncc_bytes(v);
        match v {
            UncCV::V1 { profile } => {
                assert(b[0] == 1);
            },
            UncCV::V0 {
                profile,
                components,
                sampling_type,
                interleave_type,
                block_size,
                components_little_endian,
                block_pad_lsb,
                block_little_endian,
                block_reversed,
                pad_unknown,
                pixel_size,
                row_align_size,
                tile_align_size,
                num_tile_cols_minus_one,
                num_tile_rows_minus_one,
            } => {
                let f = |c: UncompressedComponent| ucomp_bytes(c);
                let n = components.len();
                let head = seq![0u8, 0, 0, 0] + be32(profile.code) + be32(n as u32);
                let body = concat_map(components, f);
                crate::codec::lemma_concat_map_len(components, f, 5);
                let fb = uncc_flag_byte(
                    components_little_endian,
                    block_pad_lsb,
                    block_little_endian,
                    block_reversed,
                    pad_unknown,
                );
                let tail = seq![sampling_type, interleave_type, block_size, fb] + be32(pixel_size)
                    + be32(row_align_size) + be32(tile_align_size) + be32(num_tile_cols_minus_one)
                    + be32(num_tile_rows_minus_one);
                assert(b =~= head + body + tail);
                assert(b[0] == 0);
                assert(be32_at(b, 8) == n);
                assert forall|k: int| 0 <= k < n implies ucomp_at(b, 12 + 5 * k) == components[k] by {
                    crate::codec::lemma_concat_map_fixed(components, f, 5, k);
                    let r = body.subrange(5 * k, 5 * k + 5);
                    assert(r == ucomp_bytes(components[k]));
                    assert(b =~= head + (body + tail));
                    assert(b.subrange(12 + 5 * k, 12 + 5 * k + 5) =~= r);
                    crate::codec::lemma_read_in(b, 12 + 5 * k, r, 0);
                    crate::codec::lemma_read_in(b, 12 + 5 * k, r, 2);
                    crate::codec::lemma_read_in(b, 12 + 5 * k, r, 3);
                    crate::codec::lemma_read_in(b, 12 + 5 * k, r, 4);
                }
                assert(Seq::new(n as nat, |k: int| ucomp_at(b, 12 + 5 * k)) =~= components);
                let q = 12 + 5 * n;
                assert(b =~= (head + body) + tail);
                lemma_at_shift(head + body, tail, 0);
                lemma_at_shift(head + body, tail, 1);
                lemma_at_shift(head + body, tail, 2);
                lemma_at_shift(head + body, tail, 3);
                lemma_at_shift(head + body, tail, 4);
                lemma_at_shift(head + body, tail, 8);
                lemma_at_shift(head + body, tail, 12);
                lemma_at_shift(head + body, tail, 16);
                lemma_at_shift(head + body, tail, 20);
                lemma_uncc_flags(
                    components_little_endian,
                    block_pad_lsb,
                    block_little_endian,
                    block_reversed,
                    pad_unknown,
                );
            },
        }
    }
}

// ---------------------------------------------------------------------------
// Uncompressed video sample entry
// ---------------------------------------------------------------------------

/// Uncompressed video sample entry (`uncv`, ISO/IEC 23001-17): a visual sample entry with a
/// required `uncC` and optional `cmpd`, `btrt`, `ccst` and `pasp`.
///
/// A child of any other type is an `UnexpectedBox` error.
#[derive(Debug, Clone, PartialEq, Eq)]
pub struct Uncv {
    pub visual: Visual,
    pub cmpd: Option<Cmpd>,
    pub uncc: UncC,
    pub btrt: Option<Btrt>,
    pub ccst: Option<Ccst>,
    pub pasp: Option<Pasp>,
}

/// The value of an `uncv` sample entry.
pub struct UncvV {
    pub visual: VisualV,
    pub cmpd: Option<Seq<ComponentV>>,
    pub uncc: UncCV,
    pub btrt: Option<Btrt>,
    pub ccst: Option<Ccst>,
    pub pasp: Option<Pasp>,
}

impl View for Uncv {
    type V = UncvV;

    open spec fn view(&self) -> UncvV {
        UncvV {
            visual: self.visual@,
            cmpd: opt_view(self.cmpd),
            uncc: self.uncc@,
            btrt: opt_view(self.btrt),
            ccst: opt_view(self.ccst),
            pasp: opt_view(self.pasp),
        }
    }
}

/// The children of an `uncv` found so far.
pub struct UncvChildren {
    pub cmpd: Option<Cmpd>,
    pub uncc: Option<UncC>,
    pub btrt: Option<Btrt>,
    pub ccst: Option<Ccst>,
    pub pasp: Option<Pasp>,
}

/// What was found: `cmpd`, `uncC`, `btrt`, `ccst`, `pasp`.
pub type UncvChildrenV = (
    Option<Seq<ComponentV>>,
    Option<UncCV>,
    Option<Btrt>,
    Option<Ccst>,
    Option<Pasp>,
);

impl Children for UncvChildren {
    type A = UncvChildrenV;

    /// A known child is decoded and replaces an earlier one of its type; any other child is
    /// an `UnexpectedBox` error.
    open spec fn spec_apply(acc: UncvChildrenV, code: u32, c: Seq<u8>) -> Result<UncvChildrenV, Error> {
        if code == Cmpd::spec_kind() {
            match spec_decode_atom::<Cmpd>(c) {
                Ok((x, _)) => Ok((Some(x), acc.1, acc.2, acc.3, acc.4)),
                Err(e) => Err(e),
            }
        } else if code == UncC::spec_kind() {
            match spec_decode_atom::<UncC>(c) {
                Ok((x, _)) => Ok((acc.0, Some(x), acc.2, acc.3, acc.4)),
                Err(e) => Err(e),
            }
        } else if code == Btrt::spec_kind() {
            match spec_decode_atom::<Btrt>(c) {
                Ok((x, _)) => Ok((acc.0, acc.1, Some(x), acc.3, acc.4)),
                Err(e) => Err(e),
            }
        } else if code == Ccst::spec_kind() {
            match spec_decode_atom::<Ccst>(c) {
                Ok((x, _)) => Ok((acc.0, acc.1, acc.2, Some(x), acc.4)),
                Err(e) => Err(e),
            }
        } else if code == Pasp::spec_kind() {
            match spec_decode_atom::<Pasp>(c) {
                Ok((x, _)) => Ok((acc.0, acc.1, acc.2, acc.3, Some(x))),
                Err(e) => Err(e),
            }
        } else {
            Err(Error::UnexpectedBox(FourCC { code }))
        }
    }

    open spec fn spec_state(&self) -> UncvChildrenV {
        (
            opt_view(self.cmpd),
            opt_view(self.uncc),
            opt_view(self.btrt),
            opt_view(self.ccst),
            opt_view(self.pasp),
        )
    }

    fn apply(&mut self, code: u32, child: &[u8]) -> (r: Result<(), Error>) {
        if code == 0x636d7064 {
            let (x, _) = decode_atom::<Cmpd>(child)?;
            self.cmpd = Some(x);
        } else if code == 0x756e6343 {
            let (x, _) = decode_atom::<UncC>(child)?;
            self.uncc = Some(x);
        } else if code == 0x62747274 {
            let (x, _) = decode_atom::<Btrt>(child)?;
            self.btrt = Some(x);
        } else if code == 0x63637374 {
            let (x, _) = decode_atom::<Ccst>(child)?;
            self.ccst = Some(x);
        } else if code == 0x70617370 {
            let (x, _) = decode_atom::<Pasp>(child)?;
            self.pasp = Some(x);
        } else {
            return Err(Error::UnexpectedBox(FourCC::from_u32(code)));
        }
        Ok(())
    }
}

impl Atom for Uncv {
    open spec fn spec_kind() -> u32 {
        0x756e6376
    }

    fn kind() -> (k: FourCC) {
        FourCC::from_u32(0x756e6376)
    }

    /// The visual sample entry, then children; a missing `uncC` is `MissingBox`.
    open spec fn spec_decode_body(s: Seq<u8>) -> Result<(UncvV, int), Error> {
        match Visual::spec_decode(s) {
            Err(e) => Err(e),
            Ok((vis, n)) => match scan_children::<UncvChildren>(
                bytes_from(s, n),
                (None, None, None, None, None),
            ) {
                Err(e) => Err(e),
                Ok((acc, m)) => match acc.1 {
                    None => Err(Error::MissingBox(FourCC { code: UncC::spec_kind() })),
                    Some(u) => Ok(
                        (
                            UncvV {
                                visual: vis,
                                cmpd: acc.0,
                                uncc: u,
                                btrt: acc.2,
                                ccst: acc.3,
                                pasp: acc.4,
                            },
                            n + m,
                        ),
                    ),
                },
            },
        }
    }

    /// The visual sample entry, then `cmpd`, `uncC`, `btrt`, `ccst` and `pasp`, each where
    /// present.
    open spec fn spec_encode_body(v: UncvV) -> Result<Seq<u8>, Error> {
        match opt_atom_bytes::<Cmpd>(v.cmpd) {
            Err(e) => Err(e),
            Ok(a) => match spec_encode_atom::<UncC>(v.uncc) {
                Err(e) => Err(e),
                Ok(b) => match opt_atom_bytes::<Btrt>(v.btrt) {
                    Err(e) => Err(e),
                    Ok(c) => match opt_atom_bytes::<Ccst>(v.ccst) {
                        Err(e) => Err(e),
                        Ok(d) => match opt_atom_bytes::<Pasp>(v.pasp) {
                            Err(e) => Err(e),
                            Ok(e) => Ok(visual_bytes(v.visual) + a + b + c + d + e),
                        },
                    },
                },
            },
        }
    }

    open spec fn spec_keeps(v: UncvV) -> bool {
        &&& compressor_keeps(v.visual.compressor)
        &&& (v.cmpd matches Some(x) ==> Cmpd::spec_keeps(x))
        &&& UncC::spec_keeps(v.uncc)
        &&& (v.ccst matches Some(x) ==> Ccst::spec_keeps(x))
    }

    fn decode_body(buf: &[u8]) -> (r: Result<(Self, usize), Error>) {
        let (visual, n) = Visual::decode_prefix(buf)?;
        let mut st = UncvChildren { cmpd: None, uncc: None, btrt: None, ccst: None, pasp: None };
        let end = decode_children(buf, n, &mut st)?;
        match st.uncc {
            None => Err(Error::MissingBox(UncC::kind())),
            Some(uncc) => Ok(
                (
                    Uncv {
                        visual,
                        cmpd: st.cmpd,
                        uncc,
                        btrt: st.btrt,
                        ccst: st.ccst,
                        pasp: st.pasp,
                    },
                    end,
                ),
            ),
        }
    }

    fn encode_body(&self, out: &mut Vec<u8>) -> (r: Result<(), Error>) {
        let mut body: Vec<u8> = Vec::new();
        self.visual.encode(&mut body)?;
        encode_opt(&self.cmpd, &mut body)?;
        encode_atom(&self.uncc, &mut body)?;
        encode_opt(&self.btrt, &mut body)?;
        encode_opt(&self.ccst, &mut body)?;
        encode_opt(&self.pasp, &mut body)?;
        assert(body@ =~= Self::spec_encode_body(self@)->Ok_0);
        crate::codec::put_bytes(out, body.as_slice());
        Ok(())
    }

    #[verifier::spinoff_prover]
    #[verifier::rlimit(60)]
    proof fn lemma_body_roundtrip(v: UncvV) {
        let a = opt_atom_bytes::<Cmpd>(v.cmpd)->Ok_0;
        let b = spec_encode_atom::<UncC>(v.uncc)->Ok_0;
        let c = opt_atom_bytes::<Btrt>(v.btrt)->Ok_0;
        let d = opt_atom_bytes::<Ccst>(v.ccst)->Ok_0;
        let e = opt_atom_bytes::<Pasp>(v.pasp)->Ok_0;
        lemma_uncv_children(v);
        let kids = a + (b + (c + (d + e)));
        let all = visual_bytes(v.visual) + a + b + c + d + e;
        assert(all =~= visual_bytes(v.visual) + kids);
        lemma_visual_roundtrip(v.visual, kids);
        assert(bytes_from(all, 78) =~= kids);
    }
}

/// The children of a kept `uncv`, written one after the other, scan back to what they hold.
#[verifier::spinoff_prover]
proof fn lemma_uncv_children(v: UncvV)
    requires
        Uncv::spec_keeps(v),
        Uncv::spec_encode_body(v) is Ok,
    ensures
        ({
            let a = opt_atom_bytes::<Cmpd>(v.cmpd)->Ok_0;
            let b = spec_encode_atom::<UncC>(v.uncc)->Ok_0;
            let c = opt_atom_bytes::<Btrt>(v.btrt)->Ok_0;
            let d = opt_atom_bytes::<Ccst>(v.ccst)->Ok_0;
            let e = opt_atom_bytes::<Pasp>(v.pasp)->Ok_0;
            let kids = a + (b + (c + (d + e)));
            scan_children::<UncvChildren>(kids, (None, None, None, None, None)) == Ok::<
                (UncvChildrenV, int),
                Error,
            >(((v.cmpd, Some(v.uncc), v.btrt, v.ccst, v.pasp), bytes_len(kids)))
        }),
{
    let a = opt_atom_bytes::<Cmpd>(v.cmpd)->Ok_0;
    let b = spec_encode_atom::<UncC>(v.uncc)->Ok_0;
    let c = opt_atom_bytes::<Btrt>(v.btrt)->Ok_0;
    let d = opt_atom_bytes::<Ccst>(v.ccst)->Ok_0;
    let e = opt_atom_bytes::<Pasp>(v.pasp)->Ok_0;
    let z = Seq::<u8>::empty();
    let fin = (v.cmpd, Some(v.uncc), v.btrt, v.ccst, v.pasp);
    lemma_scan_empty::<UncvChildren>(fin);
    if let Some(x) = v.pasp {
        lemma_decode_child::<Pasp>(x);
    }
    lemma_scan_opt::<UncvChildren, Pasp>(v.pasp, z, (v.cmpd, Some(v.uncc), v.btrt, v.ccst, None), fin, fin);
    assert(e + z =~= e);
    if let Some(x) = v.ccst {
        lemma_decode_child::<Ccst>(x);
    }
    lemma_scan_opt::<UncvChildren, Ccst>(v.ccst, e, (v.cmpd, Some(v.uncc), v.btrt, None, None), (v.cmpd, Some(v.uncc), v.btrt, v.ccst, None), fin);
    if let Some(x) = v.btrt {
        lemma_decode_child::<Btrt>(x);
    }
    lemma_scan_opt::<UncvChildren, Btrt>(v.btrt, d + e, (v.cmpd, Some(v.uncc), None, None, None), (v.cmpd, Some(v.uncc), v.btrt, None, None), fin);
    lemma_decode_child::<UncC>(v.uncc);
    lemma_scan_child::<UncvChildren, UncC>(v.uncc, c + (d + e), (v.cmpd, None, None, None, None), (v.cmpd, Some(v.uncc), None, None, None), fin);
    if let Some(x) = v.cmpd {
        lemma_decode_child::<Cmpd>(x);
    }
    lemma_scan_opt::<UncvChildren, Cmpd>(v.cmpd, b + (c + (d + e)), (None, None, None, None, None), (v.cmpd, None, None, None, None), fin);
}

} // verus!
