pub mod ilst;

use vstd::prelude::*;

use crate::atom::{
    decode_atom, encode_atom, lemma_header_encode_roundtrip, spec_decode_atom, spec_encode_atom,
    spec_encode_header, Atom, Decode, Encode, Header,
};
use crate::codec::{be32, bytes_from, group_codec, put_bytes, put_u32, read_u32};
use crate::container::{
    decode_children, lemma_decode_child, lemma_scan_child, lemma_scan_unfold, opt_view,
    scan_children, Children,
};
use crate::error::Error;
use crate::fourcc::FourCC;
use crate::moov::trak::mdia::hdlr::Hdlr;
use crate::unknown::{lemma_unknown_roundtrip, Unknown};

verus! {

broadcast use group_codec;

/// Metadata box (`meta`): a handler, then the other boxes it holds, each kept as its type
/// and its body bytes, in their order.
#[derive(Debug, Clone, PartialEq, Eq)]
pub struct Meta {
    pub hdlr: Hdlr,
    pub items: Vec<Unknown>,
}

/// The handler and the other boxes of a `meta`.
pub type MetaV = ((FourCC, Seq<char>), Seq<(FourCC, Seq<u8>)>);

/// The values of boxes kept as bytes.
pub open spec fn items_view(items: Seq<Unknown>) -> Seq<(FourCC, Seq<u8>)> {
    items.map_values(|u: Unknown| u@)
}

impl View for Meta {
    type V = MetaV;

    open spec fn view(&self) -> MetaV {
        (self.hdlr@, items_view(self.items@))
    }
}

/// The type code of a handler reference box.
pub open spec fn hdlr_code() -> u32 {
    0x68646c72
}

/// The bytes of boxes kept as bytes, one after the other; a box too large for its header
/// is an error.
pub open spec fn items_bytes(v: Seq<(FourCC, Seq<u8>)>) -> Result<Seq<u8>, Error>
    decreases v.len(),
{
    if v.len() == 0 {
        Ok(Seq::empty())
    } else {
        match Unknown::spec_encode(v[0]) {
            Err(e) => Err(e),
            Ok(e) => match items_bytes(v.drop_first()) {
                Err(er) => Err(er),
                Ok(r) => Ok(e + r),
            },
        }
    }
}

/// What a `meta` has found among its children so far.
pub struct MetaChildren {
    pub hdlr: Option<Hdlr>,
    pub items: Vec<Unknown>,
}

impl Children for MetaChildren {
    type A = (Option<(FourCC, Seq<char>)>, Seq<(FourCC, Seq<u8>)>);

    /// A handler is decoded and replaces an earlier one; any other box is kept as bytes, after
    /// those found before it.
    open spec fn spec_apply(acc: Self::A, code: u32, c: Seq<u8>) -> Result<Self::A, Error> {
        if code == hdlr_code() {
            match spec_decode_atom::<Hdlr>(c) {
                Ok((x, _)) => Ok((Some(x), acc.1)),
                Err(e) => Err(e),
            }
        } else {
            match Unknown::spec_decode(c) {
                Ok((u, _)) => Ok((acc.0, acc.1.push(u))),
                Err(e) => Err(e),
            }
        }
    }

    open spec fn spec_state(&self) -> Self::A {
        (opt_view(self.hdlr), items_view(self.items@))
    }

    fn apply(&mut self, code: u32, child: &[u8]) -> (r: Result<(), Error>) {
        if code == 0x68646c72 {
            let (x, _) = decode_atom::<Hdlr>(child)?;
            self.hdlr = Some(x);
        } else {
            let (u, _) = Unknown::decode_prefix(child)?;
            proof {
                assert(items_view(self.items@.push(u)) =~= items_view(self.items@).push(u@));
            }
            self.items.push(u);
        }
        Ok(())
    }
}

/// Appends the boxes kept as bytes from index `i` on; on an error the output is not stated.
fn encode_items(items: &Vec<Unknown>, i: usize, out: &mut Vec<u8>) -> (r: Result<(), Error>)
    requires
        i <= items@.len(),
    ensures
        items_bytes(items_view(items@).subrange(i as int, items@.len() as int)) matches Ok(b) ==> r
            is Ok && final(out)@ == old(out)@ + b,
        items_bytes(items_view(items@).subrange(i as int, items@.len() as int)) matches Err(e) ==> r
            == Err::<(), Error>(e),
    decreases items@.len() - i,
{
    let ghost v = items_view(items@).subrange(i as int, items@.len() as int);
    if i == items.len() {
        assert(v.len() == 0);
        assert(old(out)@ + Seq::<u8>::empty() =~= old(out)@);
        return Ok(());
    }
    assert(v[0] == items@[i as int]@);
    assert(v.drop_first() =~= items_view(items@).subrange(i + 1, items@.len() as int));
    items[i].encode(out)?;
    encode_items(items, i + 1, out)?;
    assert(final(out)@ =~= old(out)@ + items_bytes(v)->Ok_0) by {
        let e = Unknown::spec_encode(v[0])->Ok_0;
        let r = items_bytes(v.drop_first())->Ok_0;
        assert(items_bytes(v)->Ok_0 == e + r);
    };
    Ok(())
}

/// The bytes of the boxes kept as bytes are theirs, one after the other, and they scan
/// back, after those found before, where none is a handler.
proof fn lemma_scan_items(v: Seq<(FourCC, Seq<u8>)>, h: Option<(FourCC, Seq<char>)>, found: Seq<(FourCC, Seq<u8>)>)
    requires
        items_bytes(v) is Ok,
        forall|k: int| 0 <= k < v.len() ==> (#[trigger] v[k]).0.code != hdlr_code() && v[k].1.len()
            <= usize::MAX,
    ensures
        scan_children::<MetaChildren>(items_bytes(v)->Ok_0, (h, found)) == Ok::<
            (<MetaChildren as Children>::A, int),
            Error,
        >(((h, found + v), items_bytes(v)->Ok_0.len() as int)),
    decreases v.len(),
{
    if v.len() == 0 {
        assert(found + v =~= found);
    } else {
        let u = v[0];
        let e = Unknown::spec_encode(u)->Ok_0;
        let rest = items_bytes(v.drop_first())->Ok_0;
        assert forall|k: int| 0 <= k < v.drop_first().len() implies (#[trigger] v.drop_first()[k]).0.code
            != hdlr_code() && v.drop_first()[k].1.len() <= usize::MAX by {
            assert(v.drop_first()[k] == v[k + 1]);
        }
        lemma_scan_items(v.drop_first(), h, found.push(u));
        assert(found.push(u) + v.drop_first() =~= found + v);
        let hd = Header { kind: u.0, size: Some(u.1.len() as usize) };
        let hb = spec_encode_header(hd)->Ok_0;
        let s = e + rest;
        lemma_header_encode_roundtrip(hd, u.1 + rest);
        assert(hb + (u.1 + rest) =~= s);
        lemma_unknown_roundtrip(u, Seq::empty());
        assert(e + Seq::<u8>::empty() =~= e);
        lemma_scan_unfold::<MetaChildren>(s, (h, found));
        assert(s.subrange(0, e.len() as int) =~= e);
        assert(s.subrange(e.len() as int, s.len() as int) =~= rest);
    }
}

impl Atom for Meta {
    open spec fn spec_kind() -> u32 {
        0x6d657461
    }

    fn kind() -> (k: FourCC) {
        FourCC::from_u32(0x6d657461)
    }

    /// Version and flags (ignored), then children until fewer than eight bytes are left; a
    /// missing handler is `MissingBox`.
    open spec fn spec_decode_body(s: Seq<u8>) -> Result<(MetaV, int), Error> {
        if s.len() < 4 {
            Err(Error::OutOfBounds)
        } else {
            match scan_children::<MetaChildren>(bytes_from(s, 4), (None, Seq::empty())) {
                Err(e) => Err(e),
                Ok((acc, m)) => match acc.0 {
                    None => Err(Error::MissingBox(FourCC { code: hdlr_code() })),
                    Some(h) => Ok(((h, acc.1), 4 + m)),
                },
            }
        }
    }

    /// Version and flags 0, the handler, then the other boxes in their order.
    open spec fn spec_encode_body(v: MetaV) -> Result<Seq<u8>, Error> {
        match spec_encode_atom::<Hdlr>(v.0) {
            Err(e) => Err(e),
            Ok(h) => match items_bytes(v.1) {
                Err(e) => Err(e),
                Ok(b) => Ok(be32(0) + h + b),
            },
        }
    }

    /// A handler name without a zero byte, and no other box that is a handler.
    open spec fn spec_keeps(v: MetaV) -> bool {
        &&& Hdlr::spec_keeps(v.0)
        &&& forall|k: int| 0 <= k < v.1.len() ==> (#[trigger] v.1[k]).0.code != hdlr_code()
            && v.1[k].1.len() <= usize::MAX
    }

    fn decode_body(buf: &[u8]) -> (r: Result<(Self, usize), Error>) {
        let _ext = read_u32(buf, 0)?;
        let mut st = MetaChildren { hdlr: None, items: Vec::new() };
        assert(items_view(st.items@) =~= Seq::<(FourCC, Seq<u8>)>::empty());
        let end = decode_children(buf, 4, &mut st)?;
        assert(buf@.subrange(4, buf@.len() as int) =~= bytes_from(buf@, 4));
        match st.hdlr {
            None => Err(Error::MissingBox(Hdlr::kind())),
            Some(hdlr) => Ok((Meta { hdlr, items: st.items }, end)),
        }
    }

    fn encode_body(&self, out: &mut Vec<u8>) -> (r: Result<(), Error>) {
        let mut body: Vec<u8> = Vec::new();
        put_u32(&mut body, 0);
        encode_atom(&self.hdlr, &mut body)?;
        assert(items_view(self.items@).subrange(0, self.items@.len() as int) =~= items_view(
            self.items@,
        ));
        encode_items(&self.items, 0, &mut body)?;
        assert(body@ =~= Self::spec_encode_body(self@)->Ok_0);
        put_bytes(out, body.as_slice());
        Ok(())
    }

    proof fn lemma_body_roundtrip(v: MetaV) {
        let h = spec_encode_atom::<Hdlr>(v.0)->Ok_0;
        let b = items_bytes(v.1)->Ok_0;
        let s = be32(0) + h + b;
        lemma_scan_items(v.1, Some(v.0), Seq::empty());
        assert(Seq::<(FourCC, Seq<u8>)>::empty() + v.1 =~= v.1);
        lemma_decode_child::<Hdlr>(v.0);
        lemma_scan_child::<MetaChildren, Hdlr>(
            v.0,
            b,
            (None, Seq::empty()),
            (Some(v.0), Seq::empty()),
            (Some(v.0), v.1),
        );
        assert(bytes_from(s, 4) =~= h + b);
    }
}

} // verus!
