//! Keys in ascending order, for the collections that keep their keys sorted.
//!
//! The standard library's ordered collections behave as documented only for keys whose
//! `Ord` is a total order; their specifications hold where the keys' order follows Verus's
//! model of ordering and ranks no two distinct keys as equal (`strictly_ordered`), as the
//! integer types' order does.

use std::cmp::Ordering;

use vstd::laws_cmp::obeys_cmp;
use vstd::prelude::*;
use vstd::std_specs::cmp::{OrdSpec, PartialOrdSpec};

verus! {

/// Whether `K`'s order follows Verus's model of ordering (`obeys_cmp`) and ranks no two
/// distinct keys as equal.
pub open spec fn strictly_ordered<K: Ord>() -> bool {
    &&& obeys_cmp::<K>()
    &&& forall|a: K, b: K| #[trigger] a.cmp_spec(&b) == Ordering::Equal ==> a == b
}

/// `a` comes before `b`.
pub open spec fn precedes<K: Ord>(a: K, b: K) -> bool {
    a.cmp_spec(&b) == Ordering::Less
}

/// Every key of `s` comes before those after it.
pub open spec fn ascending<K: Ord>(s: Seq<K>) -> bool {
    forall|i: int, j: int| 0 <= i < j < s.len() ==> precedes(#[trigger] s[i], #[trigger] s[j])
}

/// `s` holds the keys of `d`, in ascending order.
pub open spec fn sorts<K: Ord>(d: Set<K>, s: Seq<K>) -> bool {
    &&& ascending(s)
    &&& s.to_set() == d
}

/// The keys of a finite set in ascending order (meaningful where the keys are
/// `strictly_ordered`).
pub open spec fn in_order<K: Ord>(d: Set<K>) -> Seq<K> {
    choose|s: Seq<K>| sorts(d, s)
}

/// Nothing comes before itself, and of two keys at most one comes before the other.
pub proof fn lemma_precedes_asymmetric<K: Ord>(a: K, b: K)
    requires
        strictly_ordered::<K>(),
    ensures
        !(precedes(a, b) && precedes(b, a)),
        !precedes(a, a),
{
    reveal(vstd::laws_cmp::obeys_cmp_ord);
    reveal(vstd::laws_cmp::obeys_partial_cmp_spec_properties);
    assert(a.partial_cmp_spec(&b) == Some(a.cmp_spec(&b)));
    assert(b.partial_cmp_spec(&a) == Some(b.cmp_spec(&a)));
    assert(a.partial_cmp_spec(&a) == Some(a.cmp_spec(&a)));
}

/// An ascending sequence holds no key twice.
pub proof fn lemma_ascending_no_duplicates<K: Ord>(s: Seq<K>)
    requires
        strictly_ordered::<K>(),
        ascending(s),
    ensures
        s.no_duplicates(),
{
    assert forall|i: int, j: int| 0 <= i < s.len() && 0 <= j < s.len() && i != j implies s[i] != s[j] by {
        if i < j {
            assert(precedes(s[i], s[j]));
            lemma_precedes_asymmetric(s[i], s[j]);
        } else {
            assert(precedes(s[j], s[i]));
            lemma_precedes_asymmetric(s[j], s[i]);
        }
    }
}

/// A set has only one ascending arrangement.
pub proof fn lemma_sorts_unique<K: Ord>(d: Set<K>, s1: Seq<K>, s2: Seq<K>)
    requires
        strictly_ordered::<K>(),
        sorts(d, s1),
        sorts(d, s2),
    ensures
        s1 == s2,
    decreases s1.len(),
{
    lemma_ascending_no_duplicates(s1);
    lemma_ascending_no_duplicates(s2);
    if s1.len() == 0 {
        assert(d =~= Set::empty());
        if s2.len() > 0 {
            assert(s2.to_set().contains(s2[0]));
        }
        assert(s1 =~= s2);
    } else {
        assert(s1.to_set().contains(s1[0]));
        assert(s2.len() > 0) by {
            if s2.len() == 0 {
                assert(s2.to_set() =~= Set::empty());
            }
        }
        let a = s1[0];
        let b = s2[0];
        assert(s2.to_set().contains(a));
        assert(s1.to_set().contains(b));
        let j = choose|j: int| 0 <= j < s2.len() && s2[j] == a;
        let i = choose|i: int| 0 <= i < s1.len() && s1[i] == b;
        if a != b {
            assert(j > 0);
            assert(i > 0);
            assert(precedes(s2[0], s2[j]));
            assert(precedes(s1[0], s1[i]));
            lemma_precedes_asymmetric(a, b);
        }
        let t1 = s1.drop_first();
        let t2 = s2.drop_first();
        let d2 = d.remove(a);
        assert forall|x: K| #[trigger] t1.to_set().contains(x) <==> d2.contains(x) by {
            if t1.to_set().contains(x) {
                let k = choose|k: int| 0 <= k < t1.len() && t1[k] == x;
                assert(s1[k + 1] == x);
                assert(s1.to_set().contains(x));
            }
            if d2.contains(x) {
                assert(s1.to_set().contains(x));
                let k = choose|k: int| 0 <= k < s1.len() && s1[k] == x;
                assert(k != 0);
                assert(t1[k - 1] == x);
            }
        }
        assert forall|x: K| #[trigger] t2.to_set().contains(x) <==> d2.contains(x) by {
            if t2.to_set().contains(x) {
                let k = choose|k: int| 0 <= k < t2.len() && t2[k] == x;
                assert(s2[k + 1] == x);
                assert(s2.to_set().contains(x));
            }
            if d2.contains(x) {
                assert(s2.to_set().contains(x));
                let k = choose|k: int| 0 <= k < s2.len() && s2[k] == x;
                assert(k != 0);
                assert(t2[k - 1] == x);
            }
        }
        assert(t1.to_set() =~= d2);
        assert(t2.to_set() =~= d2);
        assert(ascending(t1)) by {
            assert forall|p: int, q: int| 0 <= p < q < t1.len() implies precedes(#[trigger] t1[p], #[trigger] t1[q]) by {
                assert(precedes(s1[p + 1], s1[q + 1]));
            }
        }
        assert(ascending(t2)) by {
            assert forall|p: int, q: int| 0 <= p < q < t2.len() implies precedes(#[trigger] t2[p], #[trigger] t2[q]) by {
                assert(precedes(s2[p + 1], s2[q + 1]));
            }
        }
        lemma_sorts_unique(d2, t1, t2);
        assert(s1 =~= s2) by {
            assert forall|k: int| 0 <= k < s1.len() implies s1[k] == s2[k] by {
                if k > 0 {
                    assert(s1[k] == t1[k - 1]);
                    assert(s2[k] == t2[k - 1]);
                }
            }
        }
    }
}

/// A sequence that holds the keys of `d` in ascending order is their arrangement `in_order`.
pub proof fn lemma_in_order<K: Ord>(d: Set<K>, s: Seq<K>)
    requires
        strictly_ordered::<K>(),
        sorts(d, s),
    ensures
        in_order(d) == s,
{
    lemma_sorts_unique(d, in_order(d), s);
}

} // verus!
