//! Structures with two free type parameters.

use vstd::prelude::*;

use super::either::Either;
use super::functor::{ensures1, ensures2, total1, total2};

verus! {

/// A structure with a first (left) type parameter as well as its last one.
pub trait Bipointed {
    /// The first type parameter.
    type Bipointed;
}

/// Mapping over the first type parameter.
pub trait Bifmap<L2>: Bipointed + Sized {
    /// `Self` with its first type parameter replaced by `L2`.
    type WithBipointed;

    /// `y` is `x` with each first-parameter point related by `rel` to the point at its place.
    spec fn bifmapped(x: Self, rel: spec_fn(Self::Bipointed, L2) -> bool, y: Self::WithBipointed) -> bool;

    /// Map a function over the first type parameter.
    fn bifmap<F: Fn(Self::Bipointed) -> L2>(self, f: F) -> (r: Self::WithBipointed)
        requires
            total1(f),
        ensures
            Self::bifmapped(self, ensures1(f), r),
    ;
}

/// Mapping over both type parameters at once.
pub trait Bifunctor<L2, R2>: Bipointed + crate::base::data::pointed::Pointed + Sized {
    /// `Self` with both type parameters replaced.
    type Bimapped;

    /// `y` is `x` with first-parameter points related by `ra` and the others by `rb`.
    spec fn bimapped(
        x: Self,
        ra: spec_fn(Self::Bipointed, L2) -> bool,
        rb: spec_fn(Self::Pointed, R2) -> bool,
        y: Self::Bimapped,
    ) -> bool;

    /// Map `fa` over the first type parameter and `fb` over the last.
    fn bimap<FA: Fn(Self::Bipointed) -> L2, FB: Fn(Self::Pointed) -> R2>(self, fa: FA, fb: FB) -> (r:
        Self::Bimapped)
        requires
            total1(fa),
            total1(fb),
        ensures
            Self::bimapped(self, ensures1(fa), ensures1(fb), r),
    ;
}

/// A structure that can be folded over both of its type parameters.
///
/// `bi_elements_r` and `bi_elements_l` list the points in the order in which the right
/// and the left fold see them, first-parameter points as `Left` and last-parameter
/// points as `Right`.
///
/// As for [`Foldable`](super::functor::Foldable), `bi_order_known` states when the folds are
/// known to see the points in these orders.
pub trait Bifoldable<L, R>: Sized {
    /// The points of `x`, outermost first, as the right fold combines them.
    spec fn bi_elements_r(x: Self) -> Seq<Either<L, R>>;

    /// The points of `x`, in the order in which the left fold combines them.
    spec fn bi_elements_l(x: Self) -> Seq<Either<L, R>>;

    /// Whether the folds are known to see the points as the two lists give them.
    open spec fn bi_order_known() -> bool {
        true
    }

    /// Right-associative fold, with `fa` for first-parameter points and `fb` for the others.
    fn bifoldr<T, FA: Fn(L, T) -> T, FB: Fn(R, T) -> T>(self, fa: FA, fb: FB, z: T) -> (r: T)
        requires
            total2(fa),
            total2(fb),
        ensures
            Self::bi_order_known() ==> bifoldr_rel(Self::bi_elements_r(self), ensures2(fa), ensures2(fb), z, r),
    ;

    /// Left-associative fold, with `fa` for first-parameter points and `fb` for the others.
    fn bifoldl<T, FA: Fn(T, L) -> T, FB: Fn(T, R) -> T>(self, fa: FA, fb: FB, z: T) -> (r: T)
        requires
            total2(fa),
            total2(fb),
        ensures
            Self::bi_order_known() ==> bifoldl_rel(Self::bi_elements_l(self), ensures2(fa), ensures2(fb), z, r),
    ;
}

/// The relation of one step of a right fold over both parameters.
pub open spec fn either_step_r<L, R, T>(
    ra: spec_fn(L, T, T) -> bool,
    rb: spec_fn(R, T, T) -> bool,
) -> spec_fn(Either<L, R>, T, T) -> bool {
    |e: Either<L, R>, acc: T, out: T|
        match e {
            Either::Left(a) => ra(a, acc, out),
            Either::Right(b) => rb(b, acc, out),
        }
}

/// The relation of one step of a left fold over both parameters.
pub open spec fn either_step_l<L, R, T>(
    ra: spec_fn(T, L, T) -> bool,
    rb: spec_fn(T, R, T) -> bool,
) -> spec_fn(T, Either<L, R>, T) -> bool {
    |acc: T, e: Either<L, R>, out: T|
        match e {
            Either::Left(a) => ra(acc, a, out),
            Either::Right(b) => rb(acc, b, out),
        }
}

/// `r` is the right fold of the points `s` from `z`.
pub open spec fn bifoldr_rel<L, R, T>(
    s: Seq<Either<L, R>>,
    ra: spec_fn(L, T, T) -> bool,
    rb: spec_fn(R, T, T) -> bool,
    z: T,
    r: T,
) -> bool {
    super::functor::foldr_rel(s, either_step_r(ra, rb), z, r)
}

/// `r` is the left fold of the points `s` from `z`.
pub open spec fn bifoldl_rel<L, R, T>(
    s: Seq<Either<L, R>>,
    ra: spec_fn(T, L, T) -> bool,
    rb: spec_fn(T, R, T) -> bool,
    z: T,
    r: T,
) -> bool {
    super::functor::foldl_rel(s, either_step_l(ra, rb), z, r)
}

} // verus!
