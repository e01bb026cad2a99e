use vstd::prelude::*;
use vstd::slice::slice_subrange;

use crate::atom::{spec_decode_atom, spec_encode_atom, Atom};
use crate::error::Error;
use crate::ext::{lemma_child_roundtrip, lemma_next_child_size, next_child, spec_next_child};

verus! {

/// What a container has gathered from its children so far, and how one more child changes it.
pub trait Children: Sized {
    /// The mathematical value of what was gathered.
    type A;

    /// What a child of type `code` whose whole bytes (header included) are `c` makes of `acc`.
    spec fn spec_apply(acc: Self::A, code: u32, c: Seq<u8>) -> Result<Self::A, Error>;

    /// The value of what was gathered.
    spec fn spec_state(&self) -> Self::A;

    /// Takes in one child.
    fn apply(&mut self, code: u32, child: &[u8]) -> (r: Result<(), Error>)
        ensures
            r is Ok ==> Self::spec_apply(old(self).spec_state(), code, child@) == Ok::<
                Self::A,
                Error,
            >(final(self).spec_state()),
            r matches Err(e) ==> Self::spec_apply(old(self).spec_state(), code, child@) == Err::<
                Self::A,
                Error,
            >(e),
    ;
}

/// What reading child atoms from the front of `s` until fewer than eight bytes are left
/// gives, from `acc`: what was gathered, and the number of bytes used.
pub open spec fn scan_children<C: Children>(s: Seq<u8>, acc: C::A) -> Result<(C::A, int), Error>
    decreases s.len(),
{
    match spec_next_child(s) {
        Err(e) => Err(e),
        Ok(None) => Ok((acc, 0)),
        Ok(Some((h, t))) => {
            proof {
                lemma_next_child_size(s);
            }
            match C::spec_apply(acc, h.kind.code, s.subrange(0, t)) {
                Err(e) => Err(e),
                Ok(a) => match scan_children::<C>(s.subrange(t, s.len() as int), a) {
                    Err(e) => Err(e),
                    Ok((r, n)) => Ok((r, t + n)),
                },
            }
        },
    }
}

/// One step of the scan, written out.
pub proof fn lemma_scan_unfold<C: Children>(s: Seq<u8>, acc: C::A)
    ensures
        scan_children::<C>(s, acc) == (match spec_next_child(s) {
            Err(e) => Err(e),
            Ok(None) => Ok((acc, 0)),
            Ok(Some((h, t))) => match C::spec_apply(acc, h.kind.code, s.subrange(0, t)) {
                Err(e) => Err(e),
                Ok(a) => match scan_children::<C>(s.subrange(t, s.len() as int), a) {
                    Err(e) => Err(e),
                    Ok((r, n)) => Ok((r, t + n)),
                },
            },
        }),
        spec_next_child(s) matches Ok(Some((h, t))) ==> 8 <= t <= s.len(),
{
    lemma_next_child_size(s);
}

/// The scan of all of `s` from `init` agrees with a scan of what is left from `pos`,
/// starting from `acc`.
pub open spec fn scan_agrees<C: Children>(s: Seq<u8>, init: C::A, pos: int, acc: C::A) -> bool {
    match scan_children::<C>(s.subrange(pos, s.len() as int), acc) {
        Ok((r, n)) => scan_children::<C>(s, init) == Ok::<(C::A, int), Error>((r, pos + n)),
        Err(e) => scan_children::<C>(s, init) == Err::<(C::A, int), Error>(e),
    }
}

/// Reads child atoms from `pos` until fewer than eight bytes are left, giving the offset
/// where it stopped.
pub fn decode_children<C: Children>(buf: &[u8], pos: usize, st: &mut C) -> (r: Result<usize, Error>)
    requires
        pos <= buf@.len(),
    ensures
        r matches Ok(n) ==> pos <= n <= buf@.len() && scan_children::<C>(
            buf@.subrange(pos as int, buf@.len() as int),
            old(st).spec_state(),
        ) == Ok::<(C::A, int), Error>((final(st).spec_state(), n - pos)),
        r matches Err(e) ==> scan_children::<C>(
            buf@.subrange(pos as int, buf@.len() as int),
            old(st).spec_state(),
        ) == Err::<(C::A, int), Error>(e),
{
    let ghost s = buf@.subrange(pos as int, buf@.len() as int);
    let ghost init = st.spec_state();
    let mut p: usize = pos;
    assert(s.subrange(0, s.len() as int) =~= s);
    loop
        invariant
            s == buf@.subrange(pos as int, buf@.len() as int),
            pos <= p <= buf@.len(),
            init == old(st).spec_state(),
            scan_agrees::<C>(s, init, p - pos, st.spec_state()),
        decreases buf@.len() - p,
    {
        let ghost acc = st.spec_state();
        let ghost here = buf@.subrange(p as int, buf@.len() as int);
        assert(s.subrange(p - pos, s.len() as int) =~= here);
        let nc = next_child(buf, p);
        proof {
            lemma_scan_unfold::<C>(here, acc);
        }
        match nc {
            Err(e) => {
                assert(scan_children::<C>(here, acc) == Err::<(C::A, int), Error>(e));
                return Err(e);
            },
            Ok(None) => {
                assert(scan_children::<C>(here, acc) == Ok::<(C::A, int), Error>((acc, 0)));
                return Ok(p);
            },
            Ok(Some((h, t))) => {
                assert(p + t <= buf.len());
                let child = slice_subrange(buf, p, p + t);
                assert(child@ =~= here.subrange(0, t as int));
                st.apply(h.kind.code, child)?;
                assert(here.subrange(t as int, here.len() as int) =~= s.subrange(
                    p + t - pos,
                    s.len() as int,
                ));
                p = p + t;
            },
        }
    }
}

/// Nothing left: the scan ends where it starts.
pub proof fn lemma_scan_empty<C: Children>(acc: C::A)
    ensures
        scan_children::<C>(Seq::empty(), acc) == Ok::<(C::A, int), Error>((acc, 0)),
{
}

/// An atom in front of the rest is taken in, and the scan goes on with the rest.
pub proof fn lemma_scan_child<C: Children, T: Atom>(
    x: T::V,
    rest: Seq<u8>,
    acc: C::A,
    next: C::A,
    res: C::A,
)
    requires
        T::spec_keeps(x),
        spec_encode_atom::<T>(x) is Ok,
        C::spec_apply(acc, T::spec_kind(), spec_encode_atom::<T>(x)->Ok_0) == Ok::<C::A, Error>(
            next,
        ),
        scan_children::<C>(rest, next) == Ok::<(C::A, int), Error>((res, rest.len() as int)),
    ensures
        scan_children::<C>(spec_encode_atom::<T>(x)->Ok_0 + rest, acc) == Ok::<(C::A, int), Error>(
            (res, (spec_encode_atom::<T>(x)->Ok_0 + rest).len() as int),
        ),
{
    let e = spec_encode_atom::<T>(x)->Ok_0;
    let s = e + rest;
    lemma_child_roundtrip::<T>(x, rest);
    lemma_scan_unfold::<C>(s, acc);
    assert(s.subrange(e.len() as int, s.len() as int) =~= rest);
}

/// The bytes of an optional child: its atom, or nothing.
pub open spec fn opt_atom_bytes<T: Atom>(o: Option<T::V>) -> Result<Seq<u8>, Error> {
    match o {
        Some(x) => spec_encode_atom::<T>(x),
        None => Ok(Seq::empty()),
    }
}

/// The value of an optional child.
pub open spec fn opt_view<T: View>(o: Option<T>) -> Option<T::V> {
    match o {
        Some(x) => Some(x@),
        None => None,
    }
}

/// Appends an optional child; on an error nothing is appended.
pub fn encode_opt<T: Atom>(o: &Option<T>, out: &mut Vec<u8>) -> (r: Result<(), Error>)
    ensures
        opt_atom_bytes::<T>(opt_view(*o)) matches Ok(b) ==> r is Ok && final(out)@ == old(out)@
            + b,
        opt_atom_bytes::<T>(opt_view(*o)) matches Err(e) ==> r == Err::<(), Error>(e)
            && final(out)@ == old(out)@,
{
    match o {
        Some(x) => crate::atom::encode_atom(x, out),
        None => {
            assert(out@ =~= old(out)@ + Seq::<u8>::empty());
            Ok(())
        },
    }
}

/// An optional child in front of the rest: taken in where present, then the scan goes on.
pub proof fn lemma_scan_opt<C: Children, T: Atom>(
    o: Option<T::V>,
    rest: Seq<u8>,
    acc: C::A,
    next: C::A,
    res: C::A,
)
    requires
        o matches Some(x) ==> T::spec_keeps(x),
        opt_atom_bytes::<T>(o) is Ok,
        o is None ==> next == acc,
        o matches Some(x) ==> C::spec_apply(acc, T::spec_kind(), spec_encode_atom::<T>(x)->Ok_0)
            == Ok::<C::A, Error>(next),
        scan_children::<C>(rest, next) == Ok::<(C::A, int), Error>((res, rest.len() as int)),
    ensures
        scan_children::<C>(opt_atom_bytes::<T>(o)->Ok_0 + rest, acc) == Ok::<(C::A, int), Error>(
            (res, (opt_atom_bytes::<T>(o)->Ok_0 + rest).len() as int),
        ),
{
    match o {
        None => {
            assert(Seq::<u8>::empty() + rest =~= rest);
        },
        Some(x) => {
            lemma_scan_child::<C, T>(x, rest, acc, next, res);
        },
    }
}

/// A child of type `T` decodes to the value it was encoded from.
pub proof fn lemma_decode_child<T: Atom>(x: T::V)
    requires
        T::spec_keeps(x),
        spec_encode_atom::<T>(x) is Ok,
    ensures
        spec_decode_atom::<T>(spec_encode_atom::<T>(x)->Ok_0) == Ok::<(T::V, int), Error>(
            (x, spec_encode_atom::<T>(x)->Ok_0.len() as int),
        ),
{
    lemma_child_roundtrip::<T>(x, Seq::empty());
}

} // verus!
