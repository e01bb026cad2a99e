use vstd::prelude::*;

use crate::atom::{spec_decode_header, Atom, Header};
use crate::codec::{
    be32, be32_at, be32_seq, concat_map, group_codec, lemma_be32_seq_at, lemma_be32_seq_len,
    lemma_concat_map_first, lemma_concat_map_push, put_u32, put_u32_list, read_u32_list,
};
use crate::error::Error;
use crate::fourcc::FourCC;

verus! {

broadcast use group_codec;

/// Track reference type box: a reference type and the ids of the referenced tracks.
///
/// It has the shape of an atom, but its type is a label from a namespace of its own.
#[derive(Debug, Clone, PartialEq, Eq)]
pub struct TrackReferenceTypeBox {
    pub reference_type: FourCC,
    pub track_ids: Vec<u32>,
}

impl View for TrackReferenceTypeBox {
    type V = (FourCC, Seq<u32>);

    open spec fn view(&self) -> (FourCC, Seq<u32>) {
        (self.reference_type, self.track_ids@)
    }
}

/// What decoding a track reference type box gives: its header's type, then as many `u32` as
/// fit in its size; leftover bytes of the size are skipped.
pub open spec fn spec_decode_reference(s: Seq<u8>) -> Result<((FourCC, Seq<u32>), int), Error> {
    match spec_decode_header(s) {
        Err(e) => Err(e),
        Ok((h, hl)) => {
            let size = match h.size {
                Some(n) => n as int,
                None => s.len() - hl,
            };
            if size > s.len() - hl {
                Err(Error::InvalidSize)
            } else {
                Ok(
                    (
                        (h.kind, Seq::new((size / 4) as nat, |k: int| be32_at(s, hl + 4 * k))),
                        hl + size,
                    ),
                )
            }
        },
    }
}

/// The bytes of a track reference type box: size, type, ids. Too many ids is an error.
pub open spec fn spec_encode_reference(b: (FourCC, Seq<u32>)) -> Result<Seq<u8>, Error> {
    if b.1.len() * 4 > u32::MAX - 8 {
        Err(Error::InvalidSize)
    } else {
        Ok(reference_bytes(b))
    }
}

/// The bytes of a track reference type box that fits.
pub open spec fn reference_bytes(b: (FourCC, Seq<u32>)) -> Seq<u8> {
    be32((8 + 4 * b.1.len()) as u32) + be32(b.0.code) + be32_seq(b.1)
}

/// Whether a box has too many ids to be encoded.
pub open spec fn reference_too_large(b: (FourCC, Seq<u32>)) -> bool {
    b.1.len() * 4 > u32::MAX - 8
}

impl TrackReferenceTypeBox {
    /// Decodes a track reference type box at the start of `buf`.
    pub fn decode(buf: &[u8]) -> (r: Result<(TrackReferenceTypeBox, usize), Error>)
        ensures
            r matches Ok((v, n)) ==> spec_decode_reference(buf@) == Ok::<
                ((FourCC, Seq<u32>), int),
                Error,
            >((v@, n as int)) && 8 <= n <= buf@.len(),
            r matches Err(e) ==> spec_decode_reference(buf@) == Err::<
                ((FourCC, Seq<u32>), int),
                Error,
            >(e),
    {
        let (h, hl) = Header::decode_prefix(buf)?;
        let rest = buf.len() - hl;
        let size = match h.size {
            Some(n) => n,
            None => rest,
        };
        if size > rest {
            return Err(Error::InvalidSize);
        }
        let track_ids = read_u32_list(buf, hl, size / 4)?;
        Ok((TrackReferenceTypeBox { reference_type: h.kind, track_ids }, hl + size))
    }

    /// Appends the bytes of this box.
    pub fn encode(&self, out: &mut Vec<u8>) -> (r: Result<(), Error>)
        ensures
            spec_encode_reference(self@) matches Ok(b) ==> r is Ok && final(out)@ == old(out)@ + b,
            spec_encode_reference(self@) matches Err(e) ==> r == Err::<(), Error>(e),
    {
        if self.track_ids.len() > 1073741821 {
            return Err(Error::InvalidSize);
        }
        put_u32(out, 8 + 4 * self.track_ids.len() as u32);
        put_u32(out, self.reference_type.code);
        put_u32_list(out, &self.track_ids);
        assert(out@ =~= old(out)@ + reference_bytes(self@));
        Ok(())
    }

    /// A box decodes back from its bytes.
    pub proof fn lemma_roundtrip(b: (FourCC, Seq<u32>), rest: Seq<u8>)
        requires
            !reference_too_large(b),
        ensures
            spec_decode_reference(reference_bytes(b) + rest) == Ok::<((FourCC, Seq<u32>), int), Error>(
                (b, (8 + 4 * b.1.len()) as int),
            ),
    {
        let e = reference_bytes(b);
        let s = e + rest;
        lemma_be32_seq_len(b.1);
        assert(be32_at(s, 0) == 8 + 4 * b.1.len());
        assert(be32_at(s, 4) == b.0.code);
        FourCC::lemma_code_eq(FourCC { code: be32_at(s, 4) }, b.0);
        assert forall|k: int| 0 <= k < b.1.len() implies be32_at(s, 8 + 4 * k) == b.1[k] by {
            lemma_be32_seq_at(b.1, k);
        }
        assert(Seq::new(((4 * b.1.len()) / 4) as nat, |k: int| be32_at(s, 8 + 4 * k)) =~= b.1);
    }
}

/// Track reference box (`tref`): a list of track reference type boxes.
#[derive(Debug, Clone, PartialEq, Eq, Default)]
pub struct Tref {
    pub track_reference_type_boxes: Vec<TrackReferenceTypeBox>,
}

impl View for Tref {
    type V = Seq<(FourCC, Seq<u32>)>;

    open spec fn view(&self) -> Seq<(FourCC, Seq<u32>)> {
        self.track_reference_type_boxes@.map_values(|b: TrackReferenceTypeBox| b@)
    }
}

/// What decoding track reference type boxes until the end of `s` gives.
pub open spec fn spec_decode_references(s: Seq<u8>) -> Result<Seq<(FourCC, Seq<u32>)>, Error>
    decreases s.len(),
{
    if s.len() == 0 {
        Ok(Seq::empty())
    } else {
        match spec_decode_reference(s) {
            Err(e) => Err(e),
            Ok((b, n)) => if n <= 0 || n > s.len() {
                Err(Error::InvalidSize)
            } else {
                match spec_decode_references(s.subrange(n, s.len() as int)) {
                    Err(e) => Err(e),
                    Ok(rest) => Ok(seq![b] + rest),
                }
            },
        }
    }
}

/// Whether some box has too many ids to be encoded.
pub open spec fn any_reference_too_large(v: Seq<(FourCC, Seq<u32>)>) -> bool {
    exists|k: int| 0 <= k < v.len() && reference_too_large(#[trigger] v[k])
}

impl Atom for Tref {
    open spec fn spec_kind() -> u32 {
        0x74726566
    }

    fn kind() -> (k: FourCC) {
        FourCC::from_u32(0x74726566)
    }

    /// Track reference type boxes until the body ends.
    open spec fn spec_decode_body(s: Seq<u8>) -> Result<(Self::V, int), Error> {
        match spec_decode_references(s) {
            Err(e) => Err(e),
            Ok(v) => Ok((v, s.len() as int)),
        }
    }

    open spec fn spec_encode_body(v: Self::V) -> Result<Seq<u8>, Error> {
        if any_reference_too_large(v) {
            Err(Error::InvalidSize)
        } else {
            Ok(concat_map(v, |b: (FourCC, Seq<u32>)| reference_bytes(b)))
        }
    }

    open spec fn spec_keeps(v: Self::V) -> bool {
        true
    }

    fn decode_body(buf: &[u8]) -> (r: Result<(Self, usize), Error>) {
        let mut boxes: Vec<TrackReferenceTypeBox> = Vec::new();
        let mut pos: usize = 0;
        proof {
            assert(buf@.subrange(0, buf@.len() as int) =~= buf@);
            assert(boxes@.map_values(|b: TrackReferenceTypeBox| b@) =~= Seq::<(FourCC, Seq<u32>)>::empty());
            assert(forall|x: Seq<(FourCC, Seq<u32>)>| Seq::<(FourCC, Seq<u32>)>::empty() + x =~= x);
        }
        while pos < buf.len()
            invariant
                pos <= buf@.len(),
                match spec_decode_references(buf@.subrange(pos as int, buf@.len() as int)) {
                    Ok(rest) => spec_decode_references(buf@) == Ok::<
                        Seq<(FourCC, Seq<u32>)>,
                        Error,
                    >(boxes@.map_values(|b: TrackReferenceTypeBox| b@) + rest),
                    Err(e) => spec_decode_references(buf@) == Err::<
                        Seq<(FourCC, Seq<u32>)>,
                        Error,
                    >(e),
                },
            decreases buf@.len() - pos,
        {
            let ghost s = buf@.subrange(pos as int, buf@.len() as int);
            let rest = vstd::slice::slice_subrange(buf, pos, buf.len());
            let (b, n) = TrackReferenceTypeBox::decode(rest)?;
            proof {
                assert(s.subrange(n as int, s.len() as int) =~= buf@.subrange(
                    pos + n,
                    buf@.len() as int,
                ));
                let ghost old_view = boxes@.map_values(|b: TrackReferenceTypeBox| b@);
                assert(boxes@.push(b).map_values(|b: TrackReferenceTypeBox| b@) =~= old_view.push(b@));
                assert(forall|x: Seq<(FourCC, Seq<u32>)>| old_view + (seq![b@] + x) =~= old_view.push(b@) + x);
            }
            boxes.push(b);
            pos = pos + n;
        }
        proof {
            assert(buf@.subrange(0, buf@.len() as int) =~= buf@);
            assert(buf@.subrange(pos as int, buf@.len() as int).len() == 0);
            assert(boxes@.map_values(|b: TrackReferenceTypeBox| b@) + Seq::<(FourCC, Seq<u32>)>::empty() =~= boxes@.map_values(|b: TrackReferenceTypeBox| b@));
        }
        Ok((Tref { track_reference_type_boxes: boxes }, buf.len()))
    }

    fn encode_body(&self, out: &mut Vec<u8>) -> (r: Result<(), Error>) {
        let ghost start = out@;
        let ghost v = self@;
        let ghost f = |b: (FourCC, Seq<u32>)| reference_bytes(b);
        let n = self.track_reference_type_boxes.len();
        let mut k: usize = 0;
        while k < n
            invariant
                k <= n,
                n == v.len(),
                v == self@,
                f == (|b: (FourCC, Seq<u32>)| reference_bytes(b)),
                forall|j: int| 0 <= j < k ==> !reference_too_large(#[trigger] v[j]),
                out@ == start + concat_map(v.subrange(0, k as int), f),
            decreases n - k,
        {
            let b = &self.track_reference_type_boxes[k];
            assert(b@ == v[k as int]);
            let ghost prev = out@;
            match b.encode(out) {
                Ok(()) => {},
                Err(e) => {
                    assert(any_reference_too_large(v));
                    return Err(e);
                },
            }
            proof {
                lemma_concat_map_push(v.subrange(0, k as int), f, v[k as int]);
                assert(v.subrange(0, k as int).push(v[k as int]) =~= v.subrange(0, k + 1));
            }
            k = k + 1;
        }
        assert(v.subrange(0, n as int) =~= v);
        Ok(())
    }

    proof fn lemma_body_roundtrip(v: Self::V) {
        lemma_references_roundtrip(v);
    }
}

/// Boxes that fit decode back from their bytes, one after the other.
pub proof fn lemma_references_roundtrip(v: Seq<(FourCC, Seq<u32>)>)
    requires
        !any_reference_too_large(v),
    ensures
        spec_decode_references(concat_map(v, |b: (FourCC, Seq<u32>)| reference_bytes(b))) == Ok::<
            Seq<(FourCC, Seq<u32>)>,
            Error,
        >(v),
    decreases v.len(),
{
    let f = |b: (FourCC, Seq<u32>)| reference_bytes(b);
    let s = concat_map(v, f);
    if v.len() == 0 {
        assert(v =~= Seq::<(FourCC, Seq<u32>)>::empty());
    } else {
        lemma_concat_map_first(v, f);
        let e = reference_bytes(v[0]);
        let rest = concat_map(v.drop_first(), f);
        assert(f(v[0]) == e);
        assert(s == e + rest);
        assert(!reference_too_large(v[0]));
        TrackReferenceTypeBox::lemma_roundtrip(v[0], rest);
        lemma_be32_seq_len(v[0].1);
        assert(s.subrange(e.len() as int, s.len() as int) =~= rest);
        assert forall|k: int| 0 <= k < v.drop_first().len() implies !reference_too_large(
            #[trigger] v.drop_first()[k],
        ) by {
            assert(v.drop_first()[k] == v[k + 1]);
        }
        lemma_references_roundtrip(v.drop_first());
        assert(e.len() == 8 + 4 * v[0].1.len());
        assert(spec_decode_reference(s) == Ok::<((FourCC, Seq<u32>), int), Error>((v[0], e.len() as int)));
        assert(seq![v[0]] + v.drop_first() =~= v);
        assert(spec_decode_references(s.subrange(e.len() as int, s.len() as int)) == Ok::<Seq<(FourCC, Seq<u32>)>, Error>(v.drop_first()));
        assert(spec_decode_references(s) == Ok::<Seq<(FourCC, Seq<u32>)>, Error>(v));
    }
}

} // verus!
