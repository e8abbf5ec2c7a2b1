//! The constant functor: a value that ignores the points of its type.
//!
//! Mapping leaves the value as it is; over a monoid it is an applicative functor whose
//! application combines the two values, in order, with the semigroup operation.

use std::marker::PhantomData;

use vstd::prelude::*;

use super::functor::{AppA, Functor, PureA};
use super::monoid::Monoid;
use super::pointed::Pointed;
use super::semigroup::Semigroup;

verus! {

/// A value of type `E`, standing in for a structure with points of type `P`.
#[derive(Debug)]
pub struct Const<E, P>(pub E, pub PhantomData<P>);

impl<E, P> Const<E, P> {
    /// A constant holding `e`.
    pub fn new(e: E) -> (r: Self)
        ensures
            r.0 == e,
    {
        Const(e, PhantomData)
    }
}

impl<E, P> Pointed for Const<E, P> {
    type Pointed = P;
}

impl<E, P, U> Functor<U> for Const<E, P> {
    type Mapped = Const<E, U>;

    /// The value is kept; the function is never called.
    open spec fn fmapped(x: Self, rel: spec_fn(P, U) -> bool, y: Const<E, U>) -> bool {
        y.0 == x.0
    }

    fn fmap<F: Fn(P) -> U>(self, f: F) -> (r: Const<E, U>) {
        Const(self.0, PhantomData)
    }
}

impl<E: Monoid, P> PureA for Const<E, P> {
    /// A lifted point holds the empty value.
    open spec fn pure_of(t: P, r: Self) -> bool {
        r.0.model() == E::empty_model()
    }

    fn pure_a(t: P) -> (r: Self) {
        Const(E::mempty(), PhantomData)
    }
}

impl<E: Semigroup, F, A, B> AppA<A, B> for Const<E, F> {
    type WithA = Const<E, A>;

    type WithB = Const<E, B>;

    /// Any two values of `E` can be combined.
    open spec fn app_ok(f: Self) -> bool {
        forall|a: E::Model, b: E::Model| E::combinable(a, b)
    }

    /// The value of the functions is combined with that of the arguments, in order.
    open spec fn applied(f: Self, a: Const<E, A>, r: Const<E, B>) -> bool {
        r.0.model() == E::combine(f.0.model(), a.0.model())
    }

    fn app_a(self, a: Const<E, A>) -> (r: Const<E, B>) {
        Const(self.0.assoc_s(a.0), PhantomData)
    }
}

} // verus!
