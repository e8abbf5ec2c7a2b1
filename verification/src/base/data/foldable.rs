//! Folds that map each element into a monoid, and folds of non-empty structures.

use vstd::prelude::*;

use super::functor::{ensures1, ensures2, foldl_rel, foldr_rel, total1, total2, Foldable};
use super::monoid::{concat_model, models, Monoid};

verus! {

/// `ys` holds, in order, a result related by `rel` to each element of `xs`.
pub open spec fn mapped_by<T, U>(xs: Seq<T>, rel: spec_fn(T, U) -> bool, ys: Seq<U>) -> bool {
    &&& ys.len() == xs.len()
    &&& forall|i: int| 0 <= i < xs.len() ==> #[trigger] rel(xs[i], ys[i])
}

/// Structures whose elements can be mapped into a monoid and combined.
pub trait FoldMap<U: Monoid>: Foldable {
    /// The elements of `x` in the order in which `fold_map` combines them: as `elements`
    /// lists them, for all but the maps ordered by key, which combine from the greatest
    /// key down.
    open spec fn combined_in(x: Self) -> Seq<Self::Pointed> {
        Self::elements(x)
    }

    /// Map each element to the monoid with `f`, and combine the results in the order of
    /// `combined_in` (`mconcat` of the mapped elements).
    fn fold_map<F: Fn(Self::Pointed) -> U>(self, f: F) -> (r: U)
        requires
            total1(f),
            Self::order_known(),
            forall|ys: Seq<U>| #[trigger] mapped_by(Self::combined_in(self), ensures1(f), ys) ==> U::mconcat_ok(models(ys)),
        ensures
            exists|ys: Seq<U>|
                #[trigger] mapped_by(Self::combined_in(self), ensures1(f), ys) && r.model() == concat_model::<U>(
                    models(ys),
                    U::empty_model(),
                ),
    ;
}

/// Reductions of non-empty structures, with no starting value.
pub trait Foldable1: Foldable {
    /// Combine the elements from the first on: `f(... f(f(x0, x1), x2) ..., xn)`.
    fn foldr1<F: Fn(Self::Pointed, Self::Pointed) -> Self::Pointed>(self, f: F) -> (r: Self::Pointed)
        requires
            total2(f),
            Self::elements(self).len() > 0,
        ensures
            foldl_rel(Self::elements(self).drop_first(), ensures2(f), Self::elements(self)[0], r),
    ;

    /// Combine the elements from the last on: `f(x0, f(x1, ... f(xn-1, xn)))`.
    fn foldl1<F: Fn(Self::Pointed, Self::Pointed) -> Self::Pointed>(self, f: F) -> (r: Self::Pointed)
        requires
            total2(f),
            Self::elements(self).len() > 0,
        ensures
            foldr_rel(Self::elements(self).drop_last(), ensures2(f), Self::elements(self).last(), r),
    ;
}

} // verus!
