//! The identity functor and monad.

use vstd::prelude::*;

use super::functor::{
    ensures1, ensures2, foldl_chain, foldl_rel, foldr_chain, foldr_rel, total1, total2, ChainM,
    Foldable, Functor, PureA,
};
use super::pointed::Pointed;

verus! {

/// The identity monad: a value with no effect around it.
#[derive(Debug, Default, Copy, Clone, PartialEq, Eq, PartialOrd, Ord, Hash)]
pub struct Identity<T>(pub T);

impl<T> Identity<T> {
    /// Wrap a value.
    pub fn new(t: T) -> (r: Identity<T>)
        ensures
            r.0 == t,
    {
        Identity(t)
    }

    /// Unwrap the value.
    pub fn run(self) -> (r: T)
        ensures
            r == self.0,
    {
        self.0
    }

    /// Lift a value (the monadic return).
    pub fn return_m(t: T) -> (r: Identity<T>)
        ensures
            r.0 == t,
    {
        Identity(t)
    }
}

impl<T> Pointed for Identity<T> {
    type Pointed = T;
}

impl<T, U> Functor<U> for Identity<T> {
    type Mapped = Identity<U>;

    open spec fn fmapped(x: Identity<T>, rel: spec_fn(T, U) -> bool, y: Identity<U>) -> bool {
        rel(x.0, y.0)
    }

    fn fmap<F: Fn(T) -> U>(self, f: F) -> (r: Identity<U>) {
        Identity(f(self.0))
    }
}

impl<T> PureA for Identity<T> {
    open spec fn pure_of(t: T, r: Identity<T>) -> bool {
        r.0 == t
    }

    fn pure_a(t: T) -> (r: Identity<T>) {
        Identity(t)
    }
}

impl<T, U> ChainM<U> for Identity<T> {
    type Chained = Identity<U>;

    open spec fn chained(x: Identity<T>, rel: spec_fn(T, Identity<U>) -> bool, y: Identity<U>) -> bool {
        rel(x.0, y)
    }

    fn chain_m<F: Fn(T) -> Identity<U>>(self, f: F) -> (r: Identity<U>) {
        f(self.0)
    }
}

impl<T> Foldable for Identity<T> {
    open spec fn elements(x: Identity<T>) -> Seq<T> {
        seq![x.0]
    }

    open spec fn elements_l(x: Identity<T>) -> Seq<T> {
        Self::elements(x)
    }

    fn foldr<U, F: Fn(T, U) -> U>(self, f: F, z: U) -> (r: U) {
        let ghost zz = z;
        let x = self.0;
        let r = f(x, z);
        proof {
            assert(foldr_chain(seq![x], ensures2(f), zz, seq![r, zz]));
        }
        r
    }

    fn foldl<U, F: Fn(U, T) -> U>(self, f: F, z: U) -> (r: U) {
        let ghost zz = z;
        let y = self.0;
        let r = f(z, y);
        proof {
            assert(foldl_chain(seq![y], ensures2(f), zz, seq![zz, r]));
        }
        r
    }
}

} // verus!
