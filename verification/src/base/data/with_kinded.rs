//! Types with a single higher-kinded parameter, and changing it.

use vstd::prelude::*;

verus! {

/// A type with one distinguished type parameter, which may itself be a type constructor.
pub trait Kinded {
    /// The distinguished parameter.
    type Kinded;
}

/// A [`Kinded`] type whose distinguished parameter can be replaced by `T`.
pub trait WithKinded<T>: Kinded {
    /// `Self` with its distinguished parameter replaced by `T`.
    type WithKinded: Kinded<Kinded = T>;
}

impl<A> Kinded for (A,) {
    type Kinded = A;
}

impl<A, U> WithKinded<U> for (A,) {
    type WithKinded = (U,);
}

impl<L, A> Kinded for (L, A) {
    type Kinded = A;
}

impl<L, A, U> WithKinded<U> for (L, A) {
    type WithKinded = (L, U);
}

} // verus!
