//! Tuples.

pub mod larger;
pub mod one;
pub mod pair;
pub mod unit;

use vstd::prelude::*;

verus! {

/// Pair a value with another, after it.
pub trait Cons<T>: Sized {
    /// `(self, t)`.
    fn cons(self, t: T) -> (r: (Self, T))
        ensures
            r == (self, t),
    {
        (self, t)
    }
}

impl<T, U> Cons<U> for T {

}

/// Pair a value with another, before it.
pub trait Snoc<T>: Sized {
    /// `(t, self)`.
    fn snoc(self, t: T) -> (r: (T, Self))
        ensures
            r == (t, self),
    {
        (t, self)
    }
}

impl<T, U> Snoc<U> for T {

}

/// Apply a function to the components of a tuple.
pub trait Apply<const N: usize, A, B, C>: Sized {
    /// The components of `x`, as the arguments of the function.
    spec fn args(x: Self) -> (A, B);

    /// Call `f` with the components of `self`.
    fn apply<F: FnOnce(A, B) -> C>(self, f: F) -> (r: C)
        requires
            call_requires(f, Self::args(self)),
        ensures
            call_ensures(f, Self::args(self), r),
    ;
}

impl<A, B, C> Apply<2, A, B, C> for (A, B) {
    open spec fn args(x: (A, B)) -> (A, B) {
        x
    }

    fn apply<F: FnOnce(A, B) -> C>(self, f: F) -> (r: C) {
        f(self.0, self.1)
    }
}

} // verus!
