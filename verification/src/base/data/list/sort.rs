//! Sorting lists.

use std::cmp::Ordering;

use vstd::prelude::*;
use vstd::laws_cmp::obeys_cmp;
use vstd::std_specs::cmp::OrdSpec;

use crate::base::data::functor::total2;

verus! {

/// Whether `s` is in ascending order under the `Ord` of its elements.
pub open spec fn ascending<T: Ord>(s: Seq<T>) -> bool {
    forall|i: int, j: int| 0 <= i < j < s.len() ==> s[i].cmp_spec(&s[j]) != Ordering::Greater
}

/// `<[T]>::sort`: the elements are rearranged into ascending order under `Ord`.
///
/// The claim is that the result holds the same elements in ascending order. The sort is
/// called only for types whose `Ord` is a total order (`obeys_cmp`), as std asks: on
/// other orders it may panic. That equal elements keep their order is not stated.
#[verifier::external_body]
fn sort_in_place<T: Ord>(v: &mut Vec<T>)
    requires
        obeys_cmp::<T>(),
    ensures
        final(v)@.to_multiset() == old(v)@.to_multiset(),
        ascending(final(v)@),
{
    <[T]>::sort(v);
}

/// The comparison `f`, called on clones of `a` and `b`, may give `o`.
pub open spec fn compares<T: Clone, F: Fn(T, T) -> Ordering>(f: F, a: T, b: T, o: Ordering) -> bool {
    exists|x: T, y: T| vstd::pervasive::cloned(a, x) && vstd::pervasive::cloned(b, y) && #[trigger] call_ensures(f, (x, y), o)
}

/// The converse of an ordering.
pub open spec fn flipped(o: Ordering) -> Ordering {
    match o {
        Ordering::Less => Ordering::Greater,
        Ordering::Equal => Ordering::Equal,
        Ordering::Greater => Ordering::Less,
    }
}

/// The results of `f` on clones of its arguments form a total order: `f` can always be
/// called, gives one result for each pair, is antisymmetric, and its `Less` and its
/// `Equal` are transitive.
pub open spec fn total_order_by<T: Clone, F: Fn(T, T) -> Ordering>(f: F) -> bool {
    &&& total2(f)
    &&& forall|a: T, b: T, o1: Ordering, o2: Ordering|
        #[trigger] compares(f, a, b, o1) && #[trigger] compares(f, a, b, o2) ==> o1 == o2
    &&& forall|a: T, b: T, o: Ordering| #[trigger] compares(f, a, b, o) ==> compares(f, b, a, flipped(o))
    &&& forall|a: T, b: T, c: T|
        #[trigger] compares(f, a, b, Ordering::Less) && #[trigger] compares(f, b, c, Ordering::Less) ==> compares(
            f,
            a,
            c,
            Ordering::Less,
        )
    &&& forall|a: T, b: T, c: T|
        #[trigger] compares(f, a, b, Ordering::Equal) && #[trigger] compares(f, b, c, Ordering::Equal) ==> compares(
            f,
            a,
            c,
            Ordering::Equal,
        )
}

/// `s` is in ascending order under the comparison `f`: no element compares `Greater`
/// than one after it.
pub open spec fn sorted_by<T: Clone, F: Fn(T, T) -> Ordering>(s: Seq<T>, f: F) -> bool {
    forall|i: int, j: int| 0 <= i < j < s.len() ==> !compares(f, s[i], s[j], Ordering::Greater)
}

/// `<[T]>::sort_by`, with the comparison applied to clones of the elements.
///
/// The claim is that the result holds the same elements in ascending order under the
/// comparison. It is called only where the comparison is a total order, as std asks: on
/// other comparisons it may panic. That equal elements keep their order is not stated.
#[verifier::external_body]
fn sort_in_place_by<T: Clone, F: Fn(T, T) -> Ordering>(v: &mut Vec<T>, f: &F)
    requires
        total_order_by(*f),
    ensures
        final(v)@.to_multiset() == old(v)@.to_multiset(),
        sorted_by(final(v)@, *f),
{
    <[T]>::sort_by(v, |a: &T, b: &T| compare_clones(f, a, b));
}

/// Compare clones of `a` and `b` with `f`.
fn compare_clones<T: Clone, F: Fn(T, T) -> Ordering>(f: &F, a: &T, b: &T) -> (r: Ordering)
    requires
        total2(*f),
    ensures
        compares(*f, *a, *b, r),
{
    let x = a.clone();
    let y = b.clone();
    let ghost x0 = x;
    let ghost y0 = y;
    let r = f(x, y);
    assert(call_ensures(*f, (x0, y0), r));
    r
}

/// Lists that can be sorted by the `Ord` of their elements.
pub trait Sort<T: Ord>: Sized {
    /// The elements of a list.
    spec fn sorted_items(x: Self) -> Seq<T>;

    /// The same elements in ascending order, for a type whose `Ord` is a total order.
    fn sort(self) -> (r: Self)
        requires
            obeys_cmp::<T>(),
        ensures
            Self::sorted_items(r).to_multiset() == Self::sorted_items(self).to_multiset(),
            ascending(Self::sorted_items(r)),
    ;
}

impl<T: Ord> Sort<T> for Vec<T> {
    open spec fn sorted_items(x: Vec<T>) -> Seq<T> {
        x@
    }

    fn sort(self) -> (r: Vec<T>) {
        let mut v = self;
        sort_in_place(&mut v);
        v
    }
}

/// Lists that can be sorted by a comparison function.
pub trait SortBy<T: Clone>: Sized {
    /// The elements of a list.
    spec fn sorted_by_items(x: Self) -> Seq<T>;

    /// The same elements, in ascending order under `f`, for a comparison that is a total
    /// order.
    fn sort_by<F: Fn(T, T) -> Ordering>(self, f: F) -> (r: Self)
        requires
            total_order_by(f),
        ensures
            Self::sorted_by_items(r).to_multiset() == Self::sorted_by_items(self).to_multiset(),
            sorted_by(Self::sorted_by_items(r), f),
    ;
}

impl<T: Clone> SortBy<T> for Vec<T> {
    open spec fn sorted_by_items(x: Vec<T>) -> Seq<T> {
        x@
    }

    fn sort_by<F: Fn(T, T) -> Ordering>(self, f: F) -> (r: Vec<T>) {
        let mut v = self;
        sort_in_place_by(&mut v, &f);
        v
    }
}

} // verus!
