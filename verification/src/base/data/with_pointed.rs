//! Changing the free type parameter of a [`Pointed`] type.

use vstd::prelude::*;

use super::either::Either;
use super::identity::Identity;
use super::maybe::Maybe;
use super::pointed::Pointed;

verus! {

/// A [`Pointed`] type whose free type parameter can be replaced by `T`.
pub trait WithPointed<T>: Pointed {
    /// `Self` with its free type parameter replaced by `T`.
    type WithPointed: Pointed<Pointed = T>;
}

impl<A, T> WithPointed<T> for Maybe<A> {
    type WithPointed = Maybe<T>;
}

impl<A, T> WithPointed<T> for Option<A> {
    type WithPointed = Option<T>;
}

impl<A, T> WithPointed<T> for Vec<A> {
    type WithPointed = Vec<T>;
}

impl<A, T> WithPointed<T> for Identity<A> {
    type WithPointed = Identity<T>;
}

impl<A, T> WithPointed<T> for (A,) {
    type WithPointed = (T,);
}

impl<L, A, T> WithPointed<T> for (L, A) {
    type WithPointed = (L, T);
}

impl<L, A, T> WithPointed<T> for Either<L, A> {
    type WithPointed = Either<L, T>;
}

} // verus!
