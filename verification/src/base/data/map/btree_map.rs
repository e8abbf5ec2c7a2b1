//! Maps ordered by their keys, with the classes of the library.
//!
//! A map is modelled by its view, a `Map` from keys to values; its entries come in
//! ascending order of their keys. As all of `BTreeMap`'s behaviour, this is specified for
//! keys whose order is a strict total order in Verus's model of ordering
//! ([`strictly_ordered`]), as the integer types' order is.

use std::collections::BTreeMap;

use vstd::laws_cmp::obeys_cmp;
use vstd::prelude::*;

use crate::base::data::bifunctor::{either_step_l, either_step_r, Bifmap, Bifoldable, Bipointed};
use crate::base::data::either::Either;
use crate::base::data::foldable::{mapped_by, FoldMap};
use crate::base::data::monoid::{concat_combinable, mconcat_default, Monoid};
use crate::base::data::semigroup::Semigroup;
use crate::base::data::functor::{
    ensures1, ensures2, foldl_rel, foldr_rel, lemma_foldl_rel_empty, lemma_foldl_rel_step,
    lemma_foldr_rel_empty, lemma_foldr_rel_step, total1, total2, Foldable, Functor,
};
use crate::base::data::ordered::{ascending, in_order, lemma_in_order, precedes, strictly_ordered};
use crate::base::data::pointed::Pointed;

verus! {

impl<K, V> Pointed for BTreeMap<K, V> {
    type Pointed = V;
}

impl<K, V> Bipointed for BTreeMap<K, V> {
    type Bipointed = K;
}

/// `BTreeMap::pop_first`: removes and returns the entry with the least key, or gives
/// `None` on an empty map. The length of the map goes down by one when an entry is
/// removed; for keys whose order is a strict total order, the entry was in the map and
/// its key comes before every key left.
#[verifier::external_body]
fn pop_first<K: Ord, V>(m: &mut BTreeMap<K, V>) -> (r: Option<(K, V)>)
    ensures
        match r {
            Some(_) => old(m).len() > 0 && final(m).len() == old(m).len() - 1,
            None => old(m).len() == 0 && final(m)@ == old(m)@,
        },
        strictly_ordered::<K>() ==> match r {
            Some((k, v)) => {
                &&& old(m)@.contains_key(k)
                &&& old(m)@[k] == v
                &&& final(m)@ == old(m)@.remove(k)
                &&& forall|j: K| #[trigger] final(m)@.contains_key(j) ==> precedes(k, j)
            },
            None => old(m)@.is_empty(),
        },
{
    m.pop_first()
}

/// `BTreeMap::pop_last`: removes and returns the entry with the greatest key, or gives
/// `None` on an empty map. The length of the map goes down by one when an entry is
/// removed; for keys whose order is a strict total order, the entry was in the map and
/// every key left comes before its key.
#[verifier::external_body]
fn pop_last<K: Ord, V>(m: &mut BTreeMap<K, V>) -> (r: Option<(K, V)>)
    ensures
        match r {
            Some(_) => old(m).len() > 0 && final(m).len() == old(m).len() - 1,
            None => old(m).len() == 0 && final(m)@ == old(m)@,
        },
        strictly_ordered::<K>() ==> match r {
            Some((k, v)) => {
                &&& old(m)@.contains_key(k)
                &&& old(m)@[k] == v
                &&& final(m)@ == old(m)@.remove(k)
                &&& forall|j: K| #[trigger] final(m)@.contains_key(j) ==> precedes(j, k)
            },
            None => old(m)@.is_empty(),
        },
{
    m.pop_last()
}

impl<K: Ord, V, U> Functor<U> for BTreeMap<K, V> {
    type Mapped = BTreeMap<K, U>;

    /// `y` has the keys of `x`, each with a value related by `rel` to its value in `x`.
    open spec fn fmapped(x: Self, rel: spec_fn(V, U) -> bool, y: BTreeMap<K, U>) -> bool {
        strictly_ordered::<K>() ==> {
            &&& y@.dom() == x@.dom()
            &&& forall|k: K| #[trigger] x@.contains_key(k) ==> rel(x@[k], y@[k])
        }
    }

    fn fmap<F: Fn(V) -> U>(self, f: F) -> (r: BTreeMap<K, U>) {
        let ghost m0 = self@;
        let mut m = self;
        let mut out: BTreeMap<K, U> = BTreeMap::new();
        while m.len() > 0
            invariant
                total1(f),
                strictly_ordered::<K>() ==> {
                    &&& m@.dom().disjoint(out@.dom())
                    &&& m@.dom() + out@.dom() == m0.dom()
                    &&& forall|k: K| #[trigger] m@.contains_key(k) ==> m@[k] == m0[k]
                    &&& forall|k: K| #[trigger] out@.contains_key(k) ==> call_ensures(f, (m0[k],), out@[k])
                },
            decreases m.len(),
        {
            let ghost before = m@;
            let ghost out_before = out@;
            match pop_first(&mut m) {
                Some((k, v)) => {
                    let u = f(v);
                    out.insert(k, u);
                    proof {
                        if strictly_ordered::<K>() {
                            assert(m@.dom() + out@.dom() =~= before.dom() + out_before.dom());
                            assert(m@.dom().disjoint(out@.dom()));
                        }
                    }
                },
                None => {},
            }
        }
        proof {
            if strictly_ordered::<K>() {
                assert(m@.dom() =~= Set::empty());
                assert(out@.dom() =~= m0.dom());
                assert forall|k: K| #[trigger] m0.contains_key(k) implies ensures1(f)(m0[k], out@[k]) by {
                    assert(out@.contains_key(k));
                }
            }
        }
        out
    }
}

/// The values of `m` at the keys `ks`, in order.
pub open spec fn values_at<K, V>(m: Map<K, V>, ks: Seq<K>) -> Seq<V> {
    ks.map_values(|k: K| m[k])
}

impl<K: Ord, V> Foldable for BTreeMap<K, V> {
    /// The values, in ascending order of their keys.
    open spec fn elements(x: Self) -> Seq<V> {
        values_at(x@, in_order(x@.dom()))
    }

    open spec fn elements_l(x: Self) -> Seq<V> {
        Self::elements(x)
    }

    open spec fn order_known() -> bool {
        strictly_ordered::<K>()
    }

    fn foldr<U, F: Fn(V, U) -> U>(self, f: F, z: U) -> (r: U) {
        let ghost m0 = self@;
        let ghost mut ps: Seq<K> = Seq::empty();
        let mut m = self;
        let mut acc = z;
        proof {
            lemma_foldr_rel_empty(values_at(m0, ps), ensures2(f), z);
        }
        while m.len() > 0
            invariant
                total2(f),
                strictly_ordered::<K>() ==> {
                    &&& ascending(ps)
                    &&& m@.dom().disjoint(ps.to_set())
                    &&& m@.dom() + ps.to_set() == m0.dom()
                    &&& forall|k: K| #[trigger] m@.contains_key(k) ==> m@[k] == m0[k]
                    &&& forall|i: int, k: K|
                        0 <= i < ps.len() && #[trigger] m@.contains_key(k) ==> precedes(k, #[trigger] ps[i])
                    &&& foldr_rel(values_at(m0, ps), ensures2(f), z, acc)
                },
            decreases m.len(),
        {
            let ghost before = m@;
            match pop_last(&mut m) {
                Some((k, v)) => {
                    let ghost prev = acc;
                    acc = f(v, acc);
                    proof {
                        if strictly_ordered::<K>() {
                            let ps2 = seq![k] + ps;
                            assert(before.contains_key(k));
                            assert(ascending(ps2)) by {
                                assert forall|i: int, j: int| 0 <= i < j < ps2.len() implies precedes(
                                    #[trigger] ps2[i],
                                    #[trigger] ps2[j],
                                ) by {
                                    if i == 0 {
                                        assert(ps2[j] == ps[j - 1]);
                                        assert(before.contains_key(k));
                                    } else {
                                        assert(ps2[i] == ps[i - 1] && ps2[j] == ps[j - 1]);
                                    }
                                }
                            }
                            assert(ps2.to_set() =~= ps.to_set().insert(k)) by {
                                assert forall|x: K| ps2.to_set().contains(x) <==> ps.to_set().insert(k).contains(x) by {
                                    if ps2.contains(x) {
                                        let i = choose|i: int| 0 <= i < ps2.len() && ps2[i] == x;
                                        if i > 0 {
                                            assert(ps[i - 1] == x);
                                        }
                                    }
                                    if ps.contains(x) {
                                        let i = choose|i: int| 0 <= i < ps.len() && ps[i] == x;
                                        assert(ps2[i + 1] == x);
                                    }
                                    if x == k {
                                        assert(ps2[0] == x);
                                    }
                                }
                            }
                            assert(m@.dom() + ps2.to_set() =~= before.dom() + ps.to_set());
                            assert(m@.dom().disjoint(ps2.to_set()));
                            assert forall|i: int, j: K|
                                0 <= i < ps2.len() && #[trigger] m@.contains_key(j) implies precedes(
                                j,
                                #[trigger] ps2[i],
                            ) by {
                                if i > 0 {
                                    assert(ps2[i] == ps[i - 1]);
                                    assert(before.contains_key(j));
                                }
                            }
                            assert(values_at(m0, ps2).drop_first() =~= values_at(m0, ps));
                            assert(values_at(m0, ps2)[0] == v);
                            lemma_foldr_rel_step(values_at(m0, ps2), ensures2(f), z, prev, acc);
                            ps = ps2;
                        }
                    }
                },
                None => {},
            }
        }
        proof {
            if strictly_ordered::<K>() {
                assert(m@.dom() =~= Set::empty());
                assert(ps.to_set() =~= m0.dom());
                lemma_in_order(m0.dom(), ps);
            }
        }
        acc
    }

    fn foldl<U, F: Fn(U, V) -> U>(self, f: F, z: U) -> (r: U) {
        let ghost m0 = self@;
        let ghost mut ps: Seq<K> = Seq::empty();
        let mut m = self;
        let mut acc = z;
        proof {
            lemma_foldl_rel_empty(values_at(m0, ps), ensures2(f), z);
        }
        while m.len() > 0
            invariant
                total2(f),
                strictly_ordered::<K>() ==> {
                    &&& ascending(ps)
                    &&& m@.dom().disjoint(ps.to_set())
                    &&& m@.dom() + ps.to_set() == m0.dom()
                    &&& forall|k: K| #[trigger] m@.contains_key(k) ==> m@[k] == m0[k]
                    &&& forall|i: int, k: K|
                        0 <= i < ps.len() && #[trigger] m@.contains_key(k) ==> precedes(#[trigger] ps[i], k)
                    &&& foldl_rel(values_at(m0, ps), ensures2(f), z, acc)
                },
            decreases m.len(),
        {
            let ghost before = m@;
            match pop_first(&mut m) {
                Some((k, v)) => {
                    let ghost prev = acc;
                    acc = f(acc, v);
                    proof {
                        if strictly_ordered::<K>() {
                            let ps2 = ps.push(k);
                            ps.lemma_push_to_set_commute(k);
                            assert(before.contains_key(k));
                            assert(ascending(ps2)) by {
                                assert forall|i: int, j: int| 0 <= i < j < ps2.len() implies precedes(
                                    #[trigger] ps2[i],
                                    #[trigger] ps2[j],
                                ) by {
                                    if j == ps.len() {
                                        assert(ps2[i] == ps[i]);
                                        assert(before.contains_key(k));
                                    } else {
                                        assert(ps2[i] == ps[i] && ps2[j] == ps[j]);
                                    }
                                }
                            }
                            assert(ps2.to_set() =~= ps.to_set().insert(k));
                            assert(m@.dom() + ps2.to_set() =~= before.dom() + ps.to_set());
                            assert(m@.dom().disjoint(ps2.to_set()));
                            assert forall|i: int, j: K|
                                0 <= i < ps2.len() && #[trigger] m@.contains_key(j) implies precedes(
                                #[trigger] ps2[i],
                                j,
                            ) by {
                                if i < ps.len() {
                                    assert(ps2[i] == ps[i]);
                                    assert(before.contains_key(j));
                                }
                            }
                            assert(values_at(m0, ps2).drop_last() =~= values_at(m0, ps));
                            assert(values_at(m0, ps2).last() == v);
                            lemma_foldl_rel_step(values_at(m0, ps2), ensures2(f), z, prev, acc);
                            ps = ps2;
                        }
                    }
                },
                None => {},
            }
        }
        proof {
            if strictly_ordered::<K>() {
                assert(m@.dom() =~= Set::empty());
                assert(ps.to_set() =~= m0.dom());
                lemma_in_order(m0.dom(), ps);
            }
        }
        acc
    }
}

impl<K: Ord, V, U: Monoid> FoldMap<U> for BTreeMap<K, V> {
    /// The values from the greatest key down: each value, in ascending order of the keys,
    /// is combined in front of those before it.
    open spec fn combined_in(x: Self) -> Seq<V> {
        Self::elements(x).reverse()
    }

    fn fold_map<F: Fn(V) -> U>(self, f: F) -> (r: U) {
        let ghost old_self = self;
        let ghost m0 = self@;
        let ghost mut ps: Seq<K> = Seq::empty();
        let mut m = self;
        let mut ys: Vec<U> = Vec::new();
        while m.len() > 0
            invariant
                total1(f),
                strictly_ordered::<K>(),
                ascending(ps),
                m@.dom().disjoint(ps.to_set()),
                m@.dom() + ps.to_set() == m0.dom(),
                forall|k: K| #[trigger] m@.contains_key(k) ==> m@[k] == m0[k],
                forall|i: int, k: K| 0 <= i < ps.len() && #[trigger] m@.contains_key(k) ==> precedes(#[trigger] ps[i], k),
                mapped_by(values_at(m0, ps).reverse(), ensures1(f), ys@),
            decreases m.len(),
        {
            let ghost before = m@;
            let ghost ys_before = ys@;
            match pop_first(&mut m) {
                Some((k, v)) => {
                    let y = f(v);
                    ys.insert(0, y);
                    proof {
                        let ps2 = ps.push(k);
                        ps.lemma_push_to_set_commute(k);
                        assert(before.contains_key(k));
                        assert(ascending(ps2)) by {
                            assert forall|i: int, j: int| 0 <= i < j < ps2.len() implies precedes(
                                #[trigger] ps2[i],
                                #[trigger] ps2[j],
                            ) by {
                                if j == ps.len() {
                                    assert(ps2[i] == ps[i]);
                                    assert(before.contains_key(k));
                                } else {
                                    assert(ps2[i] == ps[i] && ps2[j] == ps[j]);
                                }
                            }
                        }
                        assert(m@.dom() + ps2.to_set() =~= before.dom() + ps.to_set());
                        assert(m@.dom().disjoint(ps2.to_set()));
                        assert forall|i: int, j: K|
                            0 <= i < ps2.len() && #[trigger] m@.contains_key(j) implies precedes(
                            #[trigger] ps2[i],
                            j,
                        ) by {
                            if i < ps.len() {
                                assert(ps2[i] == ps[i]);
                                assert(before.contains_key(j));
                            }
                        }
                        let vs2 = values_at(m0, ps2).reverse();
                        let vs = values_at(m0, ps).reverse();
                        assert(vs2[0] == v);
                        assert forall|i: int| 0 <= i < vs2.len() implies #[trigger] ensures1(f)(vs2[i], ys@[i]) by {
                            if i > 0 {
                                assert(vs2[i] == vs[i - 1]);
                                assert(ys@[i] == ys_before[i - 1]);
                            }
                        }
                        ps = ps2;
                    }
                },
                None => {},
            }
        }
        proof {
            assert(m@.dom() =~= Set::empty());
            assert(ps.to_set() =~= m0.dom());
            lemma_in_order(m0.dom(), ps);
            assert(<BTreeMap<K, V> as FoldMap<U>>::combined_in(old_self) == values_at(m0, ps).reverse());
            assert(mapped_by(<BTreeMap<K, V> as FoldMap<U>>::combined_in(old_self), ensures1(f), ys@));
        }
        U::mconcat(ys)
    }
}

impl<K: Ord, V> Semigroup for BTreeMap<K, V> {
    type Model = Map<K, V>;

    /// The contents of the map, for keys whose order is a strict total order; nothing
    /// (the empty map) is claimed of the contents of other maps.
    open spec fn model(&self) -> Map<K, V> {
        if strictly_ordered::<K>() {
            self@
        } else {
            Map::empty()
        }
    }

    /// The entries of both maps; where both have a key, the second one's value.
    open spec fn combine(a: Map<K, V>, b: Map<K, V>) -> Map<K, V> {
        a.union_prefer_right(b)
    }

    open spec fn combinable(a: Map<K, V>, b: Map<K, V>) -> bool {
        true
    }

    fn assoc_s(self, a: Self) -> (r: Self) {
        let ghost whole = self@.union_prefer_right(a@);
        let mut out = self;
        let mut rest = a;
        while rest.len() > 0
            invariant
                strictly_ordered::<K>() ==> out@.union_prefer_right(rest@) == whole,
            decreases rest.len(),
        {
            let ghost out_before = out@;
            let ghost rest_before = rest@;
            match pop_first(&mut rest) {
                Some((k, v)) => {
                    out.insert(k, v);
                    proof {
                        if strictly_ordered::<K>() {
                            assert(out@.union_prefer_right(rest@) =~= out_before.union_prefer_right(rest_before));
                        }
                    }
                },
                None => {},
            }
        }
        proof {
            if strictly_ordered::<K>() {
                assert(rest@ =~= Map::empty());
                assert(out@.union_prefer_right(rest@) =~= out@);
            } else {
                assert(Map::<K, V>::empty().union_prefer_right(Map::empty()) =~= Map::empty());
            }
        }
        out
    }

    proof fn lemma_assoc(a: Map<K, V>, b: Map<K, V>, c: Map<K, V>) {
        assert(a.union_prefer_right(b.union_prefer_right(c)) =~= a.union_prefer_right(b).union_prefer_right(c));
    }
}

/// Combining maps is always defined, so every fold of them is.
proof fn lemma_concat_combinable<K: Ord, V>(s: Seq<Map<K, V>>)
    ensures
        concat_combinable::<BTreeMap<K, V>>(s, Map::empty()),
    decreases s.len(),
{
    if s.len() > 0 {
        lemma_concat_combinable::<K, V>(s.drop_first());
    }
}

impl<K: Ord, V> Monoid for BTreeMap<K, V> {
    open spec fn empty_model() -> Map<K, V> {
        Map::empty()
    }

    open spec fn mconcat_ok(s: Seq<Map<K, V>>) -> bool {
        true
    }

    fn mempty() -> (r: Self) {
        BTreeMap::new()
    }

    fn mconcat(list: Vec<Self>) -> (r: Self) {
        let empty: BTreeMap<K, V> = BTreeMap::new();
        proof {
            lemma_concat_combinable::<K, V>(crate::base::data::monoid::models(list@));
        }
        mconcat_default(list, empty)
    }

    proof fn lemma_identity(a: Map<K, V>) {
        assert(Map::<K, V>::empty().union_prefer_right(a) =~= a);
        assert(a.union_prefer_right(Map::<K, V>::empty()) =~= a);
    }
}

/// The map that inserting the keys `ks` with the values `vs`, pair by pair in order, into
/// an empty map gives: where keys repeat, the later value stays.
pub open spec fn inserted<K, V>(ks: Seq<K>, vs: Seq<V>) -> Map<K, V>
    decreases ks.len(),
{
    if ks.len() == 0 {
        Map::empty()
    } else {
        inserted(ks.drop_last(), vs.drop_last()).insert(ks.last(), vs[ks.len() - 1])
    }
}

impl<K: Ord, V, K2: Ord> Bifmap<K2> for BTreeMap<K, V> {
    type WithBipointed = BTreeMap<K2, V>;

    /// In ascending order of the keys of `x`, each value is inserted under a key related
    /// by `rel` to its key: where two keys give the same new key, the value of the
    /// greater stays.
    open spec fn bifmapped(x: Self, rel: spec_fn(K, K2) -> bool, y: BTreeMap<K2, V>) -> bool {
        strictly_ordered::<K>() && obeys_cmp::<K2>() ==> exists|ks2: Seq<K2>|
            #[trigger] mapped_by(in_order(x@.dom()), rel, ks2) && y@ == inserted(ks2, Self::elements(x))
    }

    fn bifmap<F: Fn(K) -> K2>(self, f: F) -> (r: BTreeMap<K2, V>) {
        let ghost m0 = self@;
        let ghost mut ps: Seq<K> = Seq::empty();
        let ghost mut ks2: Seq<K2> = Seq::empty();
        let mut m = self;
        let mut out: BTreeMap<K2, V> = BTreeMap::new();
        while m.len() > 0
            invariant
                total1(f),
                strictly_ordered::<K>() && obeys_cmp::<K2>() ==> {
                    &&& ascending(ps)
                    &&& m@.dom().disjoint(ps.to_set())
                    &&& m@.dom() + ps.to_set() == m0.dom()
                    &&& forall|k: K| #[trigger] m@.contains_key(k) ==> m@[k] == m0[k]
                    &&& forall|i: int, k: K|
                        0 <= i < ps.len() && #[trigger] m@.contains_key(k) ==> precedes(#[trigger] ps[i], k)
                    &&& mapped_by(ps, ensures1(f), ks2)
                    &&& out@ == inserted(ks2, values_at(m0, ps))
                },
            decreases m.len(),
        {
            let ghost before = m@;
            match pop_first(&mut m) {
                Some((k, v)) => {
                    let ghost k0 = k;
                    let k2 = f(k);
                    let ghost k20 = k2;
                    out.insert(k2, v);
                    proof {
                        if strictly_ordered::<K>() && obeys_cmp::<K2>() {
                            let ps2 = ps.push(k0);
                            let ks22 = ks2.push(k20);
                            ps.lemma_push_to_set_commute(k0);
                            assert(before.contains_key(k0));
                            assert(ascending(ps2)) by {
                                assert forall|i: int, j: int| 0 <= i < j < ps2.len() implies precedes(
                                    #[trigger] ps2[i],
                                    #[trigger] ps2[j],
                                ) by {
                                    if j == ps.len() {
                                        assert(ps2[i] == ps[i]);
                                        assert(before.contains_key(k0));
                                    } else {
                                        assert(ps2[i] == ps[i] && ps2[j] == ps[j]);
                                    }
                                }
                            }
                            assert(m@.dom() + ps2.to_set() =~= before.dom() + ps.to_set());
                            assert(m@.dom().disjoint(ps2.to_set()));
                            assert forall|i: int, j: K|
                                0 <= i < ps2.len() && #[trigger] m@.contains_key(j) implies precedes(
                                #[trigger] ps2[i],
                                j,
                            ) by {
                                if i < ps.len() {
                                    assert(ps2[i] == ps[i]);
                                    assert(before.contains_key(j));
                                }
                            }
                            assert forall|i: int| 0 <= i < ps2.len() implies #[trigger] ensures1(f)(ps2[i], ks22[i]) by {
                                if i < ps.len() {
                                    assert(ps2[i] == ps[i] && ks22[i] == ks2[i]);
                                }
                            }
                            assert(ks22.drop_last() =~= ks2);
                            assert(values_at(m0, ps2).drop_last() =~= values_at(m0, ps));
                            assert(values_at(m0, ps2).last() == v);
                            ps = ps2;
                            ks2 = ks22;
                        }
                    }
                },
                None => {},
            }
        }
        proof {
            if strictly_ordered::<K>() && obeys_cmp::<K2>() {
                assert(m@.dom() =~= Set::empty());
                assert(ps.to_set() =~= m0.dom());
                lemma_in_order(m0.dom(), ps);
                assert(mapped_by(in_order(m0.dom()), ensures1(f), ks2));
            }
        }
        out
    }
}

/// The entries of `m` at the keys `ks`, each as its value and then its key: the points in
/// the order in which a right fold over both combines them.
pub open spec fn entries_r<K, V>(m: Map<K, V>, ks: Seq<K>) -> Seq<Either<K, V>> {
    ks.map_values(|k: K| seq![Either::<K, V>::Right(m[k]), Either::Left(k)]).flatten()
}

/// The entries of `m` at the keys `ks`, each as its key and then its value: the points in
/// the order in which a left fold over both combines them.
pub open spec fn entries_l<K, V>(m: Map<K, V>, ks: Seq<K>) -> Seq<Either<K, V>> {
    ks.map_values(|k: K| seq![Either::<K, V>::Left(k), Either::Right(m[k])]).flatten()
}

impl<K: Ord, V> Bifoldable<K, V> for BTreeMap<K, V> {
    /// The entries in ascending order of their keys, each as its value and then its key.
    open spec fn bi_elements_r(x: Self) -> Seq<Either<K, V>> {
        entries_r(x@, in_order(x@.dom()))
    }

    /// The entries in ascending order of their keys, each as its key and then its value.
    open spec fn bi_elements_l(x: Self) -> Seq<Either<K, V>> {
        entries_l(x@, in_order(x@.dom()))
    }

    open spec fn bi_order_known() -> bool {
        strictly_ordered::<K>()
    }

    fn bifoldr<T, FA: Fn(K, T) -> T, FB: Fn(V, T) -> T>(self, fa: FA, fb: FB, z: T) -> (r: T) {
        let ghost m0 = self@;
        let ghost step = either_step_r(ensures2(fa), ensures2(fb));
        let ghost mut ps: Seq<K> = Seq::empty();
        let mut m = self;
        let mut acc = z;
        proof {
            assert(entries_r(m0, ps) =~= Seq::<Either<K, V>>::empty());
            lemma_foldr_rel_empty(entries_r(m0, ps), step, z);
        }
        while m.len() > 0
            invariant
                total2(fa),
                total2(fb),
                step == either_step_r(ensures2(fa), ensures2(fb)),
                strictly_ordered::<K>() ==> {
                    &&& ascending(ps)
                    &&& m@.dom().disjoint(ps.to_set())
                    &&& m@.dom() + ps.to_set() == m0.dom()
                    &&& forall|k: K| #[trigger] m@.contains_key(k) ==> m@[k] == m0[k]
                    &&& forall|i: int, k: K|
                        0 <= i < ps.len() && #[trigger] m@.contains_key(k) ==> precedes(k, #[trigger] ps[i])
                    &&& foldr_rel(entries_r(m0, ps), step, z, acc)
                },
            decreases m.len(),
        {
            let ghost before = m@;
            match pop_last(&mut m) {
                Some((k, v)) => {
                    let ghost k0 = k;
                    let ghost prev = acc;
                    let mid = fa(k, acc);
                    let ghost mid0 = mid;
                    acc = fb(v, mid);
                    proof {
                        if strictly_ordered::<K>() {
                            let ps2 = seq![k0] + ps;
                            assert(before.contains_key(k0));
                            assert(ascending(ps2)) by {
                                assert forall|i: int, j: int| 0 <= i < j < ps2.len() implies precedes(
                                    #[trigger] ps2[i],
                                    #[trigger] ps2[j],
                                ) by {
                                    if i == 0 {
                                        assert(ps2[j] == ps[j - 1]);
                                        assert(before.contains_key(k0));
                                    } else {
                                        assert(ps2[i] == ps[i - 1] && ps2[j] == ps[j - 1]);
                                    }
                                }
                            }
                            assert(ps2.to_set() =~= ps.to_set().insert(k0)) by {
                                assert forall|x: K| ps2.to_set().contains(x) <==> ps.to_set().insert(k0).contains(x) by {
                                    if ps2.contains(x) {
                                        let i = choose|i: int| 0 <= i < ps2.len() && ps2[i] == x;
                                        if i > 0 {
                                            assert(ps[i - 1] == x);
                                        }
                                    }
                                    if ps.contains(x) {
                                        let i = choose|i: int| 0 <= i < ps.len() && ps[i] == x;
                                        assert(ps2[i + 1] == x);
                                    }
                                    if x == k0 {
                                        assert(ps2[0] == x);
                                    }
                                }
                            }
                            assert(m@.dom() + ps2.to_set() =~= before.dom() + ps.to_set());
                            assert(m@.dom().disjoint(ps2.to_set()));
                            assert forall|i: int, j: K|
                                0 <= i < ps2.len() && #[trigger] m@.contains_key(j) implies precedes(
                                j,
                                #[trigger] ps2[i],
                            ) by {
                                if i > 0 {
                                    assert(ps2[i] == ps[i - 1]);
                                    assert(before.contains_key(j));
                                }
                            }
                            let g = |x: K| seq![Either::<K, V>::Right(m0[x]), Either::Left(x)];
                            let e = entries_r(m0, ps);
                            let one = seq![Either::<K, V>::Left(k0)] + e;
                            let two = seq![Either::<K, V>::Right(v)] + one;
                            assert(ps2.map_values(g).drop_first() =~= ps.map_values(g));
                            assert(ps2.map_values(g)[0] == seq![Either::<K, V>::Right(v), Either::Left(k0)]);
                            assert(entries_r(m0, ps2) =~= two);
                            assert(one.drop_first() =~= e);
                            assert(step(one[0], prev, mid0));
                            lemma_foldr_rel_step(one, step, z, prev, mid0);
                            assert(two.drop_first() =~= one);
                            assert(step(two[0], mid0, acc));
                            lemma_foldr_rel_step(two, step, z, mid0, acc);
                            ps = ps2;
                        }
                    }
                },
                None => {},
            }
        }
        proof {
            if strictly_ordered::<K>() {
                assert(m@.dom() =~= Set::empty());
                assert(ps.to_set() =~= m0.dom());
                lemma_in_order(m0.dom(), ps);
            }
        }
        acc
    }

    fn bifoldl<T, FA: Fn(T, K) -> T, FB: Fn(T, V) -> T>(self, fa: FA, fb: FB, z: T) -> (r: T) {
        let ghost m0 = self@;
        let ghost step = either_step_l(ensures2(fa), ensures2(fb));
        let ghost mut ps: Seq<K> = Seq::empty();
        let mut m = self;
        let mut acc = z;
        proof {
            assert(entries_l(m0, ps) =~= Seq::<Either<K, V>>::empty());
            lemma_foldl_rel_empty(entries_l(m0, ps), step, z);
        }
        while m.len() > 0
            invariant
                total2(fa),
                total2(fb),
                step == either_step_l(ensures2(fa), ensures2(fb)),
                strictly_ordered::<K>() ==> {
                    &&& ascending(ps)
                    &&& m@.dom().disjoint(ps.to_set())
                    &&& m@.dom() + ps.to_set() == m0.dom()
                    &&& forall|k: K| #[trigger] m@.contains_key(k) ==> m@[k] == m0[k]
                    &&& forall|i: int, k: K|
                        0 <= i < ps.len() && #[trigger] m@.contains_key(k) ==> precedes(#[trigger] ps[i], k)
                    &&& foldl_rel(entries_l(m0, ps), step, z, acc)
                },
            decreases m.len(),
        {
            let ghost before = m@;
            match pop_first(&mut m) {
                Some((k, v)) => {
                    let ghost k0 = k;
                    let ghost prev = acc;
                    let mid = fa(acc, k);
                    let ghost mid0 = mid;
                    acc = fb(mid, v);
                    proof {
                        if strictly_ordered::<K>() {
                            let ps2 = ps.push(k0);
                            ps.lemma_push_to_set_commute(k0);
                            assert(before.contains_key(k0));
                            assert(ascending(ps2)) by {
                                assert forall|i: int, j: int| 0 <= i < j < ps2.len() implies precedes(
                                    #[trigger] ps2[i],
                                    #[trigger] ps2[j],
                                ) by {
                                    if j == ps.len() {
                                        assert(ps2[i] == ps[i]);
                                        assert(before.contains_key(k0));
                                    } else {
                                        assert(ps2[i] == ps[i] && ps2[j] == ps[j]);
                                    }
                                }
                            }
                            assert(m@.dom() + ps2.to_set() =~= before.dom() + ps.to_set());
                            assert(m@.dom().disjoint(ps2.to_set()));
                            assert forall|i: int, j: K|
                                0 <= i < ps2.len() && #[trigger] m@.contains_key(j) implies precedes(
                                #[trigger] ps2[i],
                                j,
                            ) by {
                                if i < ps.len() {
                                    assert(ps2[i] == ps[i]);
                                    assert(before.contains_key(j));
                                }
                            }
                            let g = |x: K| seq![Either::<K, V>::Left(x), Either::Right(m0[x])];
                            let e = entries_l(m0, ps);
                            let pair = seq![Either::<K, V>::Left(k0), Either::Right(v)];
                            assert(ps2.map_values(g) =~= ps.map_values(g).push(pair));
                            vstd::seq_lib::lemma_flatten_concat(ps.map_values(g), seq![pair]);
                            assert(ps.map_values(g).push(pair) =~= ps.map_values(g) + seq![pair]);
                            seq![pair].lemma_flatten_one_element();
                            assert(seq![pair].first() == pair);
                            let one = e.push(Either::<K, V>::Left(k0));
                            let two = one.push(Either::<K, V>::Right(v));
                            assert(entries_l(m0, ps2) =~= two);
                            assert(one.drop_last() =~= e);
                            assert(step(prev, one.last(), mid0));
                            lemma_foldl_rel_step(one, step, z, prev, mid0);
                            assert(two.drop_last() =~= one);
                            assert(step(mid0, two.last(), acc));
                            lemma_foldl_rel_step(two, step, z, mid0, acc);
                            ps = ps2;
                        }
                    }
                },
                None => {},
            }
        }
        proof {
            if strictly_ordered::<K>() {
                assert(m@.dom() =~= Set::empty());
                assert(ps.to_set() =~= m0.dom());
                lemma_in_order(m0.dom(), ps);
            }
        }
        acc
    }
}

/// Insert a key and value into a map, replacing any value the key had.
pub fn insert<K: Ord, V>(k: K, v: V, m: BTreeMap<K, V>) -> (r: BTreeMap<K, V>)
    ensures
        obeys_cmp::<K>() ==> r@ == m@.insert(k, v),
{
    let mut m = m;
    m.insert(k, v);
    m
}


/// Folds of a map take its values in ascending order of their keys: where `ks` lists the
/// keys of the map in ascending order, `foldr` and `foldl` see the values at `ks`, in turn.
pub proof fn lemma_btree_map_fold_order<K: Ord, V>(m: BTreeMap<K, V>, ks: Seq<K>)
    requires
        strictly_ordered::<K>(),
        ascending(ks),
        ks.to_set() == m@.dom(),
    ensures
        <BTreeMap<K, V> as Foldable>::order_known(),
        <BTreeMap<K, V> as Foldable>::elements(m).len() == ks.len(),
        forall|i: int| 0 <= i < ks.len() ==> #[trigger] <BTreeMap<K, V> as Foldable>::elements(m)[i] == m@[ks[i]],
        <BTreeMap<K, V> as Foldable>::elements_l(m) == <BTreeMap<K, V> as Foldable>::elements(m),
{
    lemma_in_order(m@.dom(), ks);
}

/// Combining maps keeps the keys of both; where both have a key, the value of the second
/// one is kept. The identity is the empty map.
pub proof fn lemma_btree_map_assoc_s<K: Ord, V>(x: BTreeMap<K, V>, y: BTreeMap<K, V>, r: BTreeMap<K, V>)
    requires
        strictly_ordered::<K>(),
    ensures
        <BTreeMap<K, V> as Semigroup>::combinable(x.model(), y.model()),
        r.model() == <BTreeMap<K, V> as Semigroup>::combine(x.model(), y.model()) ==> {
            &&& forall|k: K| #[trigger] r@.contains_key(k) <==> (x@.contains_key(k) || y@.contains_key(k))
            &&& forall|k: K| y@.contains_key(k) ==> #[trigger] r@[k] == y@[k]
            &&& forall|k: K| x@.contains_key(k) && !y@.contains_key(k) ==> #[trigger] r@[k] == x@[k]
        },
        r.model() == <BTreeMap<K, V> as Monoid>::empty_model() ==> forall|k: K| !(#[trigger] r@.contains_key(k)),
{
}

} // verus!
