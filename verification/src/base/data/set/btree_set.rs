//! Sets ordered by their elements, with the classes of the library.
//!
//! A set is modelled by its view, a `Set` of elements; its elements come in ascending
//! order. As all of `BTreeSet`'s behaviour, this is specified for elements whose order is a
//! strict total order in Verus's model of ordering ([`strictly_ordered`]), as the integer
//! types' order is.

use std::collections::BTreeSet;

use vstd::laws_cmp::obeys_cmp;
use vstd::prelude::*;

use crate::base::data::functor::{
    ensures1, ensures2, foldl_rel, foldr_rel, lemma_foldl_rel_empty, lemma_foldl_rel_step,
    lemma_foldr_rel_empty, lemma_foldr_rel_step, total1, total2, AppA, ChainM, Foldable, Functor, PureA,
};
use crate::base::data::monoid::{concat_combinable, mconcat_default, models, Monoid};
use crate::base::data::ordered::{ascending, in_order, lemma_in_order, precedes, strictly_ordered};
use crate::base::data::pointed::Pointed;
use crate::base::data::semigroup::Semigroup;
use crate::base::data::traversable::{all_some, unwrap_all, SequenceA, TraverseT};

verus! {

impl<T> Pointed for BTreeSet<T> {
    type Pointed = T;
}

/// `BTreeSet::pop_first`: removes and returns the least element, or gives `None` on an
/// empty set, and only there. The length of the set goes down by one when an element is
/// removed; for elements whose order is a strict total order, the element was in the set
/// and comes before every element left.
#[verifier::external_body]
fn pop_first<T: Ord>(s: &mut BTreeSet<T>) -> (r: Option<T>)
    ensures
        match r {
            Some(_) => old(s).len() > 0 && final(s).len() == old(s).len() - 1,
            None => old(s).len() == 0 && old(s)@.is_empty() && final(s)@ == old(s)@,
        },
        strictly_ordered::<T>() ==> match r {
            Some(t) => {
                &&& old(s)@.contains(t)
                &&& final(s)@ == old(s)@.remove(t)
                &&& forall|u: T| #[trigger] final(s)@.contains(u) ==> precedes(t, u)
            },
            None => old(s)@.is_empty(),
        },
{
    s.pop_first()
}

/// `BTreeSet::pop_last`: removes and returns the greatest element, or gives `None` on an
/// empty set, and only there. The length of the set goes down by one when an element is
/// removed; for elements whose order is a strict total order, the element was in the set
/// and every element left comes before it.
#[verifier::external_body]
fn pop_last<T: Ord>(s: &mut BTreeSet<T>) -> (r: Option<T>)
    ensures
        match r {
            Some(_) => old(s).len() > 0 && final(s).len() == old(s).len() - 1,
            None => old(s).len() == 0 && old(s)@.is_empty() && final(s)@ == old(s)@,
        },
        strictly_ordered::<T>() ==> match r {
            Some(t) => {
                &&& old(s)@.contains(t)
                &&& final(s)@ == old(s)@.remove(t)
                &&& forall|u: T| #[trigger] final(s)@.contains(u) ==> precedes(u, t)
            },
            None => old(s)@.is_empty(),
        },
{
    s.pop_last()
}

/// Add every element of `from` to `into`.
fn insert_all<T: Ord>(into: &mut BTreeSet<T>, from: BTreeSet<T>)
    ensures
        strictly_ordered::<T>() ==> final(into)@ == old(into)@ + from@,
{
    let ghost whole = into@ + from@;
    let mut rest = from;
    while !rest.is_empty()
        invariant
            strictly_ordered::<T>() ==> into@ + rest@ == whole,
        decreases rest.len(),
    {
        let ghost into_before = into@;
        let ghost rest_before = rest@;
        match pop_first(&mut rest) {
            Some(t) => {
                into.insert(t);
                proof {
                    if strictly_ordered::<T>() {
                        assert(into@ + rest@ =~= into_before + rest_before);
                    }
                }
            },
            None => {},
        }
    }
    proof {
        if strictly_ordered::<T>() {
            assert(rest@ =~= Set::empty());
            assert(into@ + rest@ =~= into@);
        }
    }
}

/// The elements of a set, in ascending order.
pub fn to_vec<T: Ord>(s: BTreeSet<T>) -> (r: Vec<T>)
    ensures
        strictly_ordered::<T>() ==> r@ == in_order(s@) && r@.to_set() == s@,
{
    let ghost s0 = s@;
    let mut s = s;
    let mut out: Vec<T> = Vec::new();
    while !s.is_empty()
        invariant
            strictly_ordered::<T>() ==> {
                &&& ascending(out@)
                &&& s@.disjoint(out@.to_set())
                &&& s@ + out@.to_set() == s0
                &&& forall|i: int, u: T| 0 <= i < out@.len() && #[trigger] s@.contains(u) ==> precedes(#[trigger] out@[i], u)
            },
        decreases s.len(),
    {
        let ghost before = s@;
        let ghost done = out@;
        match pop_first(&mut s) {
            Some(t) => {
                let ghost t0 = t;
                out.push(t);
                proof {
                    if strictly_ordered::<T>() {
                        done.lemma_push_to_set_commute(t0);
                        assert(out@ == done.push(t0));
                        assert(ascending(out@)) by {
                            assert forall|i: int, j: int| 0 <= i < j < out@.len() implies precedes(
                                #[trigger] out@[i],
                                #[trigger] out@[j],
                            ) by {
                                if j == done.len() {
                                    assert(out@[i] == done[i]);
                                    assert(before.contains(t0));
                                } else {
                                    assert(out@[i] == done[i] && out@[j] == done[j]);
                                }
                            }
                        }
                        assert(s@ + out@.to_set() =~= before + done.to_set());
                        assert(s@.disjoint(out@.to_set()));
                        assert forall|i: int, u: T| 0 <= i < out@.len() && #[trigger] s@.contains(u) implies precedes(
                            #[trigger] out@[i],
                            u,
                        ) by {
                            if i < done.len() {
                                assert(out@[i] == done[i]);
                                assert(before.contains(u));
                            }
                        }
                    }
                }
            },
            None => {},
        }
    }
    proof {
        if strictly_ordered::<T>() {
            assert(s@ =~= Set::empty());
            assert(out@.to_set() =~= s0);
            lemma_in_order(s0, out@);
        }
    }
    out
}

/// The set of the elements of a list.
pub fn from_vec<T: Ord>(v: Vec<T>) -> (r: BTreeSet<T>)
    ensures
        strictly_ordered::<T>() ==> r@ == v@.to_set(),
{
    let ghost s = v@;
    let mut out: BTreeSet<T> = BTreeSet::new();
    for x in it: v
        invariant
            s == it.seq(),
            strictly_ordered::<T>() ==> out@ == s.take(it.index() as int).to_set(),
    {
        let ghost i = it.index() as int;
        out.insert(x);
        proof {
            if strictly_ordered::<T>() {
                assert(s.take(i + 1) =~= s.take(i).push(s[i]));
                s.take(i).lemma_push_to_set_commute(s[i]);
            }
        }
    }
    proof {
        assert(s.take(s.len() as int) =~= s);
    }
    out
}

/// Every element of `d` is related by `rel` to an element of `m`, and every element of
/// `m` to an element of `d`: `m` holds the images of the elements of `d`.
pub open spec fn images<T, U>(d: Set<T>, rel: spec_fn(T, U) -> bool, m: Set<U>) -> bool {
    &&& forall|a: T| #[trigger] d.contains(a) ==> exists|b: U| m.contains(b) && rel(a, b)
    &&& forall|b: U| #[trigger] m.contains(b) ==> exists|a: T| d.contains(a) && rel(a, b)
}

impl<T: Ord, U: Ord> Functor<U> for BTreeSet<T> {
    type Mapped = BTreeSet<U>;

    /// `y` holds the images of the elements of `x`.
    open spec fn fmapped(x: Self, rel: spec_fn(T, U) -> bool, y: BTreeSet<U>) -> bool {
        strictly_ordered::<T>() && strictly_ordered::<U>() ==> images(x@, rel, y@)
    }

    fn fmap<F: Fn(T) -> U>(self, f: F) -> (r: BTreeSet<U>) {
        let ghost s0 = self@;
        let mut s = self;
        let mut out: BTreeSet<U> = BTreeSet::new();
        while !s.is_empty()
            invariant
                total1(f),
                strictly_ordered::<T>() && strictly_ordered::<U>() ==> {
                    &&& s@.subset_of(s0)
                    &&& forall|a: T| #[trigger] s0.contains(a) && !s@.contains(a) ==> exists|b: U|
                        out@.contains(b) && call_ensures(f, (a,), b)
                    &&& forall|b: U| #[trigger] out@.contains(b) ==> exists|a: T|
                        s0.contains(a) && call_ensures(f, (a,), b)
                },
            decreases s.len(),
        {
            let ghost before = s@;
            let ghost out_before = out@;
            match pop_first(&mut s) {
                Some(a) => {
                    let ghost a0 = a;
                    let b = f(a);
                    out.insert(b);
                    proof {
                        if strictly_ordered::<T>() && strictly_ordered::<U>() {
                            assert(out@ == out_before.insert(b));
                            assert(out@.contains(b) && call_ensures(f, (a0,), b));
                            assert forall|x: T| #[trigger] s0.contains(x) && !s@.contains(x) implies exists|y: U|
                                out@.contains(y) && call_ensures(f, (x,), y) by {
                                if x != a0 {
                                    assert(!before.contains(x));
                                    let y = choose|y: U| out_before.contains(y) && call_ensures(f, (x,), y);
                                    assert(out@.contains(y));
                                }
                            }
                            assert forall|y: U| #[trigger] out@.contains(y) implies exists|x: T|
                                s0.contains(x) && call_ensures(f, (x,), y) by {
                                if y != b {
                                    assert(out_before.contains(y));
                                }
                            }
                        }
                    }
                },
                None => {},
            }
        }
        proof {
            if strictly_ordered::<T>() && strictly_ordered::<U>() {
                assert(s@ =~= Set::empty());
                assert forall|a: T| #[trigger] s0.contains(a) implies exists|b: U|
                    out@.contains(b) && ensures1(f)(a, b) by {
                    assert(!s@.contains(a));
                    let b = choose|b: U| out@.contains(b) && call_ensures(f, (a,), b);
                    assert(ensures1(f)(a, b));
                }
                assert forall|b: U| #[trigger] out@.contains(b) implies exists|a: T|
                    s0.contains(a) && ensures1(f)(a, b) by {
                    let a = choose|a: T| s0.contains(a) && call_ensures(f, (a,), b);
                    assert(ensures1(f)(a, b));
                }
            }
        }
        out
    }
}

impl<T: Ord> PureA for BTreeSet<T> {
    /// `r` holds `t` alone.
    open spec fn pure_of(t: T, r: Self) -> bool {
        obeys_cmp::<T>() ==> r@ == set![t]
    }

    fn pure_a(t: T) -> (r: Self) {
        let mut r = BTreeSet::new();
        r.insert(t);
        proof {
            if obeys_cmp::<T>() {
                assert(r@ =~= set![t]);
            }
        }
        r
    }
}

impl<T: Ord, U: Ord> ChainM<U> for BTreeSet<T> {
    type Chained = BTreeSet<U>;

    /// `y` is the union of sets related by `rel` to the elements of `x`, one for each.
    open spec fn chained(x: Self, rel: spec_fn(T, BTreeSet<U>) -> bool, y: BTreeSet<U>) -> bool {
        strictly_ordered::<T>() && strictly_ordered::<U>() ==> exists|parts: Map<T, BTreeSet<U>>|
            {
                &&& #[trigger] parts.dom() == x@
                &&& forall|a: T| #[trigger] x@.contains(a) ==> rel(a, parts[a])
                &&& forall|b: U| #[trigger] y@.contains(b) <==> exists|a: T| x@.contains(a) && parts[a]@.contains(b)
            }
    }

    fn chain_m<F: Fn(T) -> BTreeSet<U>>(self, f: F) -> (r: BTreeSet<U>) {
        let ghost s0 = self@;
        let ghost mut parts: Map<T, BTreeSet<U>> = Map::empty();
        let mut s = self;
        let mut out: BTreeSet<U> = BTreeSet::new();
        while !s.is_empty()
            invariant
                total1(f),
                strictly_ordered::<T>() && strictly_ordered::<U>() ==> {
                    &&& s@.disjoint(parts.dom())
                    &&& s@ + parts.dom() == s0
                    &&& forall|a: T| #[trigger] parts.contains_key(a) ==> call_ensures(f, (a,), parts[a])
                    &&& forall|b: U| #[trigger] out@.contains(b) <==> exists|a: T| parts.contains_key(a) && parts[a]@.contains(b)
                },
            decreases s.len(),
        {
            let ghost before = s@;
            let ghost out_before = out@;
            match pop_first(&mut s) {
                Some(a) => {
                    let ghost a0 = a;
                    let part = f(a);
                    let ghost p0 = part;
                    insert_all(&mut out, part);
                    proof {
                        if strictly_ordered::<T>() && strictly_ordered::<U>() {
                            let parts2 = parts.insert(a0, p0);
                            assert(s@ + parts2.dom() =~= before + parts.dom());
                            assert(s@.disjoint(parts2.dom()));
                            assert forall|b: U| #[trigger] out@.contains(b) <==> exists|x: T| parts2.contains_key(x) && parts2[x]@.contains(b) by {
                                if out@.contains(b) {
                                    if p0@.contains(b) {
                                        assert(parts2.contains_key(a0) && parts2[a0]@.contains(b));
                                    } else {
                                        assert(out_before.contains(b));
                                        let x = choose|x: T| parts.contains_key(x) && parts[x]@.contains(b);
                                        assert(parts2.contains_key(x) && parts2[x]@.contains(b));
                                    }
                                }
                                if exists|x: T| parts2.contains_key(x) && parts2[x]@.contains(b) {
                                    let x = choose|x: T| parts2.contains_key(x) && parts2[x]@.contains(b);
                                    if x != a0 {
                                        assert(parts.contains_key(x) && parts[x]@.contains(b));
                                        assert(out_before.contains(b));
                                    }
                                }
                            }
                            parts = parts2;
                        }
                    }
                },
                None => {},
            }
        }
        proof {
            if strictly_ordered::<T>() && strictly_ordered::<U>() {
                assert(s@ =~= Set::empty());
                assert(parts.dom() =~= s0);
                assert forall|a: T| #[trigger] s0.contains(a) implies ensures1(f)(a, parts[a]) by {
                    assert(parts.contains_key(a));
                }
            }
        }
        out
    }
}

impl<F: Ord, A: Ord, B: Ord> AppA<A, B> for BTreeSet<F> where F: Fn(A) -> B {
    type WithA = BTreeSet<A>;

    type WithB = BTreeSet<B>;

    /// The functions and the arguments are ordered by strict total orders, and every
    /// function can be called on every argument.
    open spec fn app_ok(f: BTreeSet<F>) -> bool {
        &&& strictly_ordered::<F>()
        &&& strictly_ordered::<A>()
        &&& forall|g: F| #[trigger] f@.contains(g) ==> total1(g)
    }

    /// In ascending order, each function is applied to the argument at its place; the
    /// longer of the two sets is cut to the length of the shorter. `r` holds the results.
    open spec fn applied(f: BTreeSet<F>, a: BTreeSet<A>, r: BTreeSet<B>) -> bool {
        strictly_ordered::<B>() ==> exists|ys: Seq<B>|
            {
                &&& ys.len() == if in_order(f@).len() <= in_order(a@).len() {
                    in_order(f@).len()
                } else {
                    in_order(a@).len()
                }
                &&& forall|i: int|
                    0 <= i < ys.len() ==> call_ensures(in_order(f@)[i], (in_order(a@)[i],), #[trigger] ys[i])
                &&& r@ == ys.to_set()
            }
    }

    fn app_a(self, a: BTreeSet<A>) -> (r: BTreeSet<B>) {
        let ghost fs = self@;
        let fv = to_vec(self);
        let av = to_vec(a);
        proof {
            assert forall|i: int| 0 <= i < fv@.len() implies total1(#[trigger] fv@[i]) by {
                assert(fv@.to_set().contains(fv@[i]));
            }
        }
        let ys = fv.app_a(av);
        from_vec(ys)
    }
}

impl<T: Ord> Foldable for BTreeSet<T> {
    /// The elements in ascending order.
    open spec fn elements(x: Self) -> Seq<T> {
        in_order(x@)
    }

    open spec fn elements_l(x: Self) -> Seq<T> {
        Self::elements(x)
    }

    open spec fn order_known() -> bool {
        strictly_ordered::<T>()
    }

    fn foldr<U, F: Fn(T, U) -> U>(self, f: F, z: U) -> (r: U) {
        let ghost s0 = self@;
        let ghost mut ps: Seq<T> = Seq::empty();
        let mut s = self;
        let mut acc = z;
        proof {
            lemma_foldr_rel_empty(ps, ensures2(f), z);
        }
        while !s.is_empty()
            invariant
                total2(f),
                strictly_ordered::<T>() ==> {
                    &&& ascending(ps)
                    &&& s@.disjoint(ps.to_set())
                    &&& s@ + ps.to_set() == s0
                    &&& forall|i: int, u: T| 0 <= i < ps.len() && #[trigger] s@.contains(u) ==> precedes(u, #[trigger] ps[i])
                    &&& foldr_rel(ps, ensures2(f), z, acc)
                },
            decreases s.len(),
        {
            let ghost before = s@;
            match pop_last(&mut s) {
                Some(t) => {
                    let ghost t0 = t;
                    let ghost prev = acc;
                    acc = f(t, acc);
                    proof {
                        if strictly_ordered::<T>() {
                            let ps2 = seq![t0] + ps;
                            assert(ascending(ps2)) by {
                                assert forall|i: int, j: int| 0 <= i < j < ps2.len() implies precedes(
                                    #[trigger] ps2[i],
                                    #[trigger] ps2[j],
                                ) by {
                                    if i == 0 {
                                        assert(ps2[j] == ps[j - 1]);
                                        assert(before.contains(t0));
                                    } else {
                                        assert(ps2[i] == ps[i - 1] && ps2[j] == ps[j - 1]);
                                    }
                                }
                            }
                            assert(ps2.to_set() =~= ps.to_set().insert(t0)) by {
                                assert forall|x: T| ps2.to_set().contains(x) <==> ps.to_set().insert(t0).contains(x) by {
                                    if ps2.contains(x) {
                                        let i = choose|i: int| 0 <= i < ps2.len() && ps2[i] == x;
                                        if i > 0 {
                                            assert(ps[i - 1] == x);
                                        }
                                    }
                                    if ps.contains(x) {
                                        let i = choose|i: int| 0 <= i < ps.len() && ps[i] == x;
                                        assert(ps2[i + 1] == x);
                                    }
                                    if x == t0 {
                                        assert(ps2[0] == x);
                                    }
                                }
                            }
                            assert(s@ + ps2.to_set() =~= before + ps.to_set());
                            assert(s@.disjoint(ps2.to_set()));
                            assert forall|i: int, u: T| 0 <= i < ps2.len() && #[trigger] s@.contains(u) implies precedes(
                                u,
                                #[trigger] ps2[i],
                            ) by {
                                if i > 0 {
                                    assert(ps2[i] == ps[i - 1]);
                                    assert(before.contains(u));
                                }
                            }
                            assert(ps2.drop_first() =~= ps);
                            lemma_foldr_rel_step(ps2, ensures2(f), z, prev, acc);
                            ps = ps2;
                        }
                    }
                },
                None => {},
            }
        }
        proof {
            if strictly_ordered::<T>() {
                assert(s@ =~= Set::empty());
                assert(ps.to_set() =~= s0);
                lemma_in_order(s0, ps);
            }
        }
        acc
    }

    fn foldl<U, F: Fn(U, T) -> U>(self, f: F, z: U) -> (r: U) {
        let ghost s0 = self@;
        let ghost mut ps: Seq<T> = Seq::empty();
        let mut s = self;
        let mut acc = z;
        proof {
            lemma_foldl_rel_empty(ps, ensures2(f), z);
        }
        while !s.is_empty()
            invariant
                total2(f),
                strictly_ordered::<T>() ==> {
                    &&& ascending(ps)
                    &&& s@.disjoint(ps.to_set())
                    &&& s@ + ps.to_set() == s0
                    &&& forall|i: int, u: T| 0 <= i < ps.len() && #[trigger] s@.contains(u) ==> precedes(#[trigger] ps[i], u)
                    &&& foldl_rel(ps, ensures2(f), z, acc)
                },
            decreases s.len(),
        {
            let ghost before = s@;
            match pop_first(&mut s) {
                Some(t) => {
                    let ghost t0 = t;
                    let ghost prev = acc;
                    acc = f(acc, t);
                    proof {
                        if strictly_ordered::<T>() {
                            let ps2 = ps.push(t0);
                            ps.lemma_push_to_set_commute(t0);
                            assert(ascending(ps2)) by {
                                assert forall|i: int, j: int| 0 <= i < j < ps2.len() implies precedes(
                                    #[trigger] ps2[i],
                                    #[trigger] ps2[j],
                                ) by {
                                    if j == ps.len() {
                                        assert(ps2[i] == ps[i]);
                                        assert(before.contains(t0));
                                    } else {
                                        assert(ps2[i] == ps[i] && ps2[j] == ps[j]);
                                    }
                                }
                            }
                            assert(s@ + ps2.to_set() =~= before + ps.to_set());
                            assert(s@.disjoint(ps2.to_set()));
                            assert forall|i: int, u: T| 0 <= i < ps2.len() && #[trigger] s@.contains(u) implies precedes(
                                #[trigger] ps2[i],
                                u,
                            ) by {
                                if i < ps.len() {
                                    assert(ps2[i] == ps[i]);
                                    assert(before.contains(u));
                                }
                            }
                            assert(ps2.drop_last() =~= ps);
                            lemma_foldl_rel_step(ps2, ensures2(f), z, prev, acc);
                            ps = ps2;
                        }
                    }
                },
                None => {},
            }
        }
        proof {
            if strictly_ordered::<T>() {
                assert(s@ =~= Set::empty());
                assert(ps.to_set() =~= s0);
                lemma_in_order(s0, ps);
            }
        }
        acc
    }
}

impl<U: Ord> SequenceA<Option<Vec<U>>> for BTreeSet<Option<U>> {
    /// The values of the elements in ascending order, if every element holds one.
    open spec fn sequenced(x: BTreeSet<Option<U>>, r: Option<Vec<U>>) -> bool {
        strictly_ordered::<Option<U>>() ==> sequenced_options(in_order(x@), r)
    }

    fn sequence_a(self) -> (r: Option<Vec<U>>) {
        to_vec(self).sequence_a()
    }
}

/// The values of the elements of `s` in order, if every element holds one; what
/// sequencing the options `s` gives.
pub open spec fn sequenced_options<U>(s: Seq<Option<U>>, r: Option<Vec<U>>) -> bool {
    if all_some(s) {
        r matches Some(v) && v@ == unwrap_all(s)
    } else {
        r is None
    }
}

impl<T: Ord, U: Ord> TraverseT<T, Option<U>, Option<Vec<U>>> for BTreeSet<T> {
    /// The set of what the action gives on the elements, sequenced in ascending order.
    open spec fn traversed(x: BTreeSet<T>, rel: spec_fn(T, Option<U>) -> bool, r: Option<Vec<U>>) -> bool {
        strictly_ordered::<T>() && strictly_ordered::<Option<U>>() ==> exists|m: Set<Option<U>>|
            #[trigger] images(x@, rel, m) && sequenced_options(in_order(m), r)
    }

    fn traverse_t<F: Fn(T) -> Option<U>>(self, f: F) -> (r: Option<Vec<U>>) {
        let m: BTreeSet<Option<U>> = self.fmap(f);
        let ghost m0 = m@;
        let r = m.sequence_a();
        proof {
            let rel = |a: T, o: Option<U>| call_ensures(f, (a,), o);
            assert(rel =~= ensures1(f));
            if strictly_ordered::<T>() && strictly_ordered::<Option<U>>() {
                assert(images(self@, rel, m0));
                assert(sequenced_options(in_order(m0), r));
            }
        }
        r
    }
}

impl<T: Ord> Semigroup for BTreeSet<T> {
    type Model = Set<T>;

    /// The elements of the set, for elements whose order is a strict total order; nothing
    /// (the empty set) is claimed of the elements of other sets.
    open spec fn model(&self) -> Set<T> {
        if strictly_ordered::<T>() {
            self@
        } else {
            Set::empty()
        }
    }

    /// The union.
    open spec fn combine(a: Set<T>, b: Set<T>) -> Set<T> {
        a + b
    }

    open spec fn combinable(a: Set<T>, b: Set<T>) -> bool {
        true
    }

    fn assoc_s(self, a: Self) -> (r: Self) {
        let mut out = self;
        insert_all(&mut out, a);
        proof {
            if !strictly_ordered::<T>() {
                assert(Set::<T>::empty() + Set::empty() =~= Set::empty());
            }
        }
        out
    }

    proof fn lemma_assoc(a: Set<T>, b: Set<T>, c: Set<T>) {
        assert(a + (b + c) =~= (a + b) + c);
    }
}

/// Combining sets is always defined, so every fold of them is.
proof fn lemma_concat_combinable<T: Ord>(s: Seq<Set<T>>)
    ensures
        concat_combinable::<BTreeSet<T>>(s, Set::empty()),
    decreases s.len(),
{
    if s.len() > 0 {
        lemma_concat_combinable::<T>(s.drop_first());
    }
}

impl<T: Ord> Monoid for BTreeSet<T> {
    open spec fn empty_model() -> Set<T> {
        Set::empty()
    }

    open spec fn mconcat_ok(s: Seq<Set<T>>) -> bool {
        true
    }

    fn mempty() -> (r: Self) {
        BTreeSet::new()
    }

    /// The union of the sets.
    fn mconcat(list: Vec<Self>) -> (r: Self) {
        let empty: BTreeSet<T> = BTreeSet::new();
        proof {
            lemma_concat_combinable::<T>(models(list@));
        }
        mconcat_default(list, empty)
    }

    proof fn lemma_identity(a: Set<T>) {
        assert(Set::<T>::empty() + a =~= a);
        assert(a + Set::<T>::empty() =~= a);
    }
}


/// Folds of a set take its elements in ascending order: where `s` lists the elements of the
/// set in ascending order, `foldr` and `foldl` see `s`.
pub proof fn lemma_btree_set_fold_order<T: Ord>(x: BTreeSet<T>, s: Seq<T>)
    requires
        strictly_ordered::<T>(),
        ascending(s),
        s.to_set() == x@,
    ensures
        <BTreeSet<T> as Foldable>::order_known(),
        <BTreeSet<T> as Foldable>::elements(x) == s,
        <BTreeSet<T> as Foldable>::elements_l(x) == s,
{
    lemma_in_order(x@, s);
}

/// Combining sets gives their union; the identity is the empty set.
pub proof fn lemma_btree_set_assoc_s_unites<T: Ord>(x: BTreeSet<T>, y: BTreeSet<T>, r: BTreeSet<T>)
    requires
        strictly_ordered::<T>(),
    ensures
        <BTreeSet<T> as Semigroup>::combinable(x.model(), y.model()),
        r.model() == <BTreeSet<T> as Semigroup>::combine(x.model(), y.model()) ==> forall|e: T|
            #[trigger] r@.contains(e) <==> (x@.contains(e) || y@.contains(e)),
        r.model() == <BTreeSet<T> as Monoid>::empty_model() ==> forall|e: T| !(#[trigger] r@.contains(e)),
{
}

} // verus!
