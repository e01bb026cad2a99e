use vstd::prelude::*;

use crate::atom::{decode_atom, spec_decode_atom, Atom};
use crate::codec::{
    be16, be16_at, be32, be32_at, group_codec, i16_bits, i16_of, i8_bits, i8_of, lemma_i16,
    lemma_i8, put_i16, put_i8, put_u16, put_u32, put_u8, read_i16, read_i8, read_u16, read_u32,
    read_u8,
};
use crate::container::{
    decode_children, encode_opt, lemma_decode_child, lemma_scan_empty, lemma_scan_opt,
    opt_atom_bytes, opt_view, scan_children, Children,
};
use crate::error::Error;
use crate::fourcc::FourCC;
use super::ftab::Ftab;

verus! {

broadcast use group_codec;

/// A colour with transparency, one byte per channel.
#[derive(Debug, Clone, Copy, PartialEq, Eq)]
pub struct RgbaColor {
    pub red: u8,
    pub green: u8,
    pub blue: u8,
    pub alpha: u8,
}

impl Default for RgbaColor {
    /// Transparent black: every channel zero.
    fn default() -> (r: RgbaColor)
        ensures
            r == (RgbaColor { red: 0, green: 0, blue: 0, alpha: 0 }),
    {
        RgbaColor { red: 0, green: 0, blue: 0, alpha: 0 }
    }
}

/// Timed text sample entry (`tx3g`, 3GPP TS 26.245, 5.16): display flags, justification,
/// background colour, the default text box and style, and an optional font table.
#[derive(Debug, Clone, PartialEq, Eq)]
pub struct Tx3g {
    pub data_reference_index: u16,
    pub display_flags: u32,
    pub horizontal_justification: i8,
    pub vertical_justification: i8,
    pub bg_color_rgba: RgbaColor,
    pub box_record: [i16; 4],
    pub style_record: [u8; 12],
    pub ftab: Option<Ftab>,
}

/// The value of a timed text sample entry.
pub struct Tx3gV {
    pub data_reference_index: u16,
    pub display_flags: u32,
    pub horizontal_justification: i8,
    pub vertical_justification: i8,
    pub bg_color_rgba: RgbaColor,
    pub box_record: Seq<i16>,
    pub style_record: Seq<u8>,
    pub ftab: Option<Seq<(u16, Seq<char>)>>,
}

impl View for Tx3g {
    type V = Tx3gV;

    open spec fn view(&self) -> Tx3gV {
        Tx3gV {
            data_reference_index: self.data_reference_index,
            display_flags: self.display_flags,
            horizontal_justification: self.horizontal_justification,
            vertical_justification: self.vertical_justification,
            bg_color_rgba: self.bg_color_rgba,
            box_record: self.box_record@,
            style_record: self.style_record@,
            ftab: opt_view(self.ftab),
        }
    }
}

/// The default style record: characters 0 to 0, font 1, plain, 16 points, opaque white.
pub open spec fn default_style() -> Seq<u8> {
    seq![0u8, 0, 0, 0, 0, 1, 0, 16, 255, 255, 255, 255]
}

impl Default for Tx3g {
    /// Centred at the bottom, on opaque black, with the default style and no font table.
    fn default() -> (r: Tx3g)
        ensures
            r@ == (Tx3gV {
                data_reference_index: 0,
                display_flags: 0,
                horizontal_justification: 1,
                vertical_justification: -1i8,
                bg_color_rgba: RgbaColor { red: 0, green: 0, blue: 0, alpha: 255 },
                box_record: seq![0i16, 0, 0, 0],
                style_record: default_style(),
                ftab: None,
            }),
    {
        let r = Tx3g {
            data_reference_index: 0,
            display_flags: 0,
            horizontal_justification: 1,
            vertical_justification: -1,
            bg_color_rgba: RgbaColor { red: 0, green: 0, blue: 0, alpha: 255 },
            box_record: [0, 0, 0, 0],
            style_record: [0, 0, 0, 0, 0, 1, 0, 16, 255, 255, 255, 255],
            ftab: None,
        };
        assert(r.box_record@ =~= seq![0i16, 0, 0, 0]);
        assert(r.style_record@ =~= default_style());
        r
    }
}

/// The font table of a `tx3g` found so far.
pub struct Tx3gChildren {
    pub ftab: Option<Ftab>,
}

impl Children for Tx3gChildren {
    type A = Option<Seq<(u16, Seq<char>)>>;

    /// A font table is decoded and replaces an earlier one; another child is skipped.
    open spec fn spec_apply(acc: Self::A, code: u32, c: Seq<u8>) -> Result<Self::A, Error> {
        if code == Ftab::spec_kind() {
            match spec_decode_atom::<Ftab>(c) {
                Ok((x, _)) => Ok(Some(x)),
                Err(e) => Err(e),
            }
        } else {
            Ok(acc)
        }
    }

    open spec fn spec_state(&self) -> Self::A {
        opt_view(self.ftab)
    }

    fn apply(&mut self, code: u32, child: &[u8]) -> (r: Result<(), Error>) {
        if code == 0x66746162 {
            let (x, _) = decode_atom::<Ftab>(child)?;
            self.ftab = Some(x);
        }
        Ok(())
    }
}

/// The 38 bytes in front of the children: reserved zeros, then the fields in order.
pub open spec fn tx3g_head(v: Tx3gV) -> Seq<u8> {
    be32(0) + be16(0) + be16(v.data_reference_index) + be32(v.display_flags) + seq![
        i8_bits(v.horizontal_justification),
        i8_bits(v.vertical_justification),
        v.bg_color_rgba.red,
        v.bg_color_rgba.green,
        v.bg_color_rgba.blue,
        v.bg_color_rgba.alpha,
    ] + be16(i16_bits(v.box_record[0])) + be16(i16_bits(v.box_record[1])) + be16(
        i16_bits(v.box_record[2]),
    ) + be16(i16_bits(v.box_record[3])) + v.style_record
}

/// The fields read from the first 38 bytes of `s`, with the font table `ftab`.
pub open spec fn tx3g_fields(s: Seq<u8>, ftab: Option<Seq<(u16, Seq<char>)>>) -> Tx3gV {
    Tx3gV {
        data_reference_index: be16_at(s, 6),
        display_flags: be32_at(s, 8),
        horizontal_justification: i8_of(s[12]),
        vertical_justification: i8_of(s[13]),
        bg_color_rgba: RgbaColor { red: s[14], green: s[15], blue: s[16], alpha: s[17] },
        box_record: seq![
            i16_of(be16_at(s, 18)),
            i16_of(be16_at(s, 20)),
            i16_of(be16_at(s, 22)),
            i16_of(be16_at(s, 24)),
        ],
        style_record: s.subrange(26, 38),
        ftab,
    }
}

impl Atom for Tx3g {
    open spec fn spec_kind() -> u32 {
        0x74783367
    }

    fn kind() -> (k: FourCC) {
        FourCC::from_u32(0x74783367)
    }

    /// 38 bytes of fields, then children until fewer than eight bytes are left.
    open spec fn spec_decode_body(s: Seq<u8>) -> Result<(Tx3gV, int), Error> {
        if s.len() < 38 {
            Err(Error::OutOfBounds)
        } else {
            match scan_children::<Tx3gChildren>(s.subrange(38, s.len() as int), None) {
                Err(e) => Err(e),
                Ok((f, m)) => Ok((tx3g_fields(s, f), 38 + m)),
            }
        }
    }

    /// The fields, then the font table where present.
    open spec fn spec_encode_body(v: Tx3gV) -> Result<Seq<u8>, Error> {
        match opt_atom_bytes::<Ftab>(v.ftab) {
            Err(e) => Err(e),
            Ok(f) => Ok(tx3g_head(v) + f),
        }
    }

    open spec fn spec_keeps(v: Tx3gV) -> bool {
        v.box_record.len() == 4 && v.style_record.len() == 12
    }

    fn decode_body(buf: &[u8]) -> (r: Result<(Self, usize), Error>) {
        if buf.len() < 38 {
            return Err(Error::OutOfBounds);
        }
        let data_reference_index = read_u16(buf, 6)?;
        let display_flags = read_u32(buf, 8)?;
        let horizontal_justification = read_i8(buf, 12)?;
        let vertical_justification = read_i8(buf, 13)?;
        let bg_color_rgba = RgbaColor {
            red: read_u8(buf, 14)?,
            green: read_u8(buf, 15)?,
            blue: read_u8(buf, 16)?,
            alpha: read_u8(buf, 17)?,
        };
        let box_record: [i16; 4] = [
            read_i16(buf, 18)?,
            read_i16(buf, 20)?,
            read_i16(buf, 22)?,
            read_i16(buf, 24)?,
        ];
        let style_record: [u8; 12] = [
            buf[26],
            buf[27],
            buf[28],
            buf[29],
            buf[30],
            buf[31],
            buf[32],
            buf[33],
            buf[34],
            buf[35],
            buf[36],
            buf[37],
        ];
        let mut st = Tx3gChildren { ftab: None };
        let end = decode_children(buf, 38, &mut st)?;
        let r = Tx3g {
            data_reference_index,
            display_flags,
            horizontal_justification,
            vertical_justification,
            bg_color_rgba,
            box_record,
            style_record,
            ftab: st.ftab,
        };
        assert(r.box_record@ =~= tx3g_fields(buf@, opt_view(r.ftab)).box_record);
        assert(r.style_record@ =~= buf@.subrange(26, 38));
        Ok((r, end))
    }

    fn encode_body(&self, out: &mut Vec<u8>) -> (r: Result<(), Error>) {
        let ghost start = out@;
        put_u32(out, 0);
        put_u16(out, 0);
        put_u16(out, self.data_reference_index);
        put_u32(out, self.display_flags);
        put_i8(out, self.horizontal_justification);
        put_i8(out, self.vertical_justification);
        put_u8(out, self.bg_color_rgba.red);
        put_u8(out, self.bg_color_rgba.green);
        put_u8(out, self.bg_color_rgba.blue);
        put_u8(out, self.bg_color_rgba.alpha);
        let mut n: usize = 0;
        while n < 4
            invariant
                n <= 4,
                out@ == start + be32(0) + be16(0) + be16(self.data_reference_index) + be32(
                    self.display_flags,
                ) + seq![
                    i8_bits(self.horizontal_justification),
                    i8_bits(self.vertical_justification),
                    self.bg_color_rgba.red,
                    self.bg_color_rgba.green,
                    self.bg_color_rgba.blue,
                    self.bg_color_rgba.alpha,
                ] + box_bytes(self.box_record@, n as int),
            decreases 4 - n,
        {
            put_i16(out, self.box_record[n]);
            n = n + 1;
        }
        let mut k: usize = 0;
        while k < 12
            invariant
                k <= 12,
                out@ == start + be32(0) + be16(0) + be16(self.data_reference_index) + be32(
                    self.display_flags,
                ) + seq![
                    i8_bits(self.horizontal_justification),
                    i8_bits(self.vertical_justification),
                    self.bg_color_rgba.red,
                    self.bg_color_rgba.green,
                    self.bg_color_rgba.blue,
                    self.bg_color_rgba.alpha,
                ] + box_bytes(self.box_record@, 4) + self.style_record@.subrange(0, k as int),
            decreases 12 - k,
        {
            put_u8(out, self.style_record[k]);
            k = k + 1;
            assert(self.style_record@.subrange(0, k as int) =~= self.style_record@.subrange(
                0,
                k - 1,
            ).push(self.style_record@[k - 1]));
        }
        encode_opt(&self.ftab, out)?;
        assert(self.style_record@.subrange(0, 12) =~= self.style_record@);
        proof { lemma_box_bytes(self.box_record@); }
        assert(out@ =~= start + Self::spec_encode_body(self@)->Ok_0);
        Ok(())
    }

    proof fn lemma_body_roundtrip(v: Tx3gV) {
        let h = tx3g_head(v);
        let f = opt_atom_bytes::<Ftab>(v.ftab)->Ok_0;
        let s = h + f;
        lemma_box_bytes(v.box_record);
        lemma_scan_empty::<Tx3gChildren>(v.ftab);
        if let Some(x) = v.ftab {
            lemma_decode_child::<Ftab>(x);
        }
        lemma_scan_opt::<Tx3gChildren, Ftab>(v.ftab, Seq::empty(), None, v.ftab, v.ftab);
        assert(f + Seq::<u8>::empty() =~= f);
        assert(h.len() == 38);
        assert(s.subrange(38, s.len() as int) =~= f);
        lemma_i8(v.horizontal_justification);
        lemma_i8(v.vertical_justification);
        lemma_i16(v.box_record[0]);
        lemma_i16(v.box_record[1]);
        lemma_i16(v.box_record[2]);
        lemma_i16(v.box_record[3]);
        assert(be16_at(s, 6) == v.data_reference_index);
        assert(be32_at(s, 8) == v.display_flags);
        assert(be16_at(s, 18) == i16_bits(v.box_record[0]));
        assert(be16_at(s, 20) == i16_bits(v.box_record[1]));
        assert(be16_at(s, 22) == i16_bits(v.box_record[2]));
        assert(be16_at(s, 24) == i16_bits(v.box_record[3]));
        assert(s.subrange(26, 38) =~= v.style_record);
        assert(tx3g_fields(s, v.ftab).box_record =~= v.box_record);
    }
}

/// The bytes of the first `n` numbers of the box record.
pub open spec fn box_bytes(b: Seq<i16>, n: int) -> Seq<u8>
    decreases n,
{
    if n <= 0 {
        Seq::empty()
    } else {
        box_bytes(b, n - 1) + be16(i16_bits(b[n - 1]))
    }
}

/// The four numbers of a box record, written out.
proof fn lemma_box_bytes(b: Seq<i16>)
    ensures
        box_bytes(b, 4) == be16(i16_bits(b[0])) + be16(i16_bits(b[1])) + be16(i16_bits(b[2]))
            + be16(i16_bits(b[3])),
{
    assert(box_bytes(b, 0) =~= Seq::<u8>::empty());
    assert(box_bytes(b, 1) =~= be16(i16_bits(b[0])));
    assert(box_bytes(b, 2) =~= box_bytes(b, 1) + be16(i16_bits(b[1])));
    assert(box_bytes(b, 3) =~= box_bytes(b, 2) + be16(i16_bits(b[2])));
    assert(box_bytes(b, 4) =~= box_bytes(b, 3) + be16(i16_bits(b[3])));
}

} // verus!
