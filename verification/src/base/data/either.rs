//! The [`Either`] type: a value of one of two types.

use vstd::prelude::*;

use super::functor::{ensures1, total1, ChainM, Functor, PureA};
use super::pointed::Pointed;

verus! {

/// A value that is either a `Left(L)` or a `Right(R)`.
///
/// By convention `Left` holds an error and `Right` a result; the functor and the monad
/// act on `Right`.
#[derive(Debug, Copy, Clone, PartialEq, Eq, PartialOrd, Ord, Hash)]
pub enum Either<L, R> {
    Left(L),
    Right(R),
}

impl<L, R> Pointed for Either<L, R> {
    type Pointed = R;
}

impl<L, R, U> Functor<U> for Either<L, R> {
    type Mapped = Either<L, U>;

    open spec fn fmapped(x: Either<L, R>, rel: spec_fn(R, U) -> bool, y: Either<L, U>) -> bool {
        match (x, y) {
            (Either::Left(a), Either::Left(b)) => a == b,
            (Either::Right(a), Either::Right(b)) => rel(a, b),
            _ => false,
        }
    }

    fn fmap<F: Fn(R) -> U>(self, f: F) -> (r: Either<L, U>) {
        match self {
            Either::Left(l) => Either::Left(l),
            Either::Right(x) => Either::Right(f(x)),
        }
    }
}

impl<L, R> PureA for Either<L, R> {
    open spec fn pure_of(t: R, r: Either<L, R>) -> bool {
        r == Either::<L, R>::Right(t)
    }

    fn pure_a(t: R) -> (r: Either<L, R>) {
        Either::Right(t)
    }
}

impl<L, R, U> ChainM<U> for Either<L, R> {
    type Chained = Either<L, U>;

    open spec fn chained(x: Either<L, R>, rel: spec_fn(R, Either<L, U>) -> bool, y: Either<L, U>) -> bool {
        match x {
            Either::Left(a) => y == Either::<L, U>::Left(a),
            Either::Right(a) => rel(a, y),
        }
    }

    fn chain_m<F: Fn(R) -> Either<L, U>>(self, f: F) -> (r: Either<L, U>) {
        match self {
            Either::Left(l) => Either::Left(l),
            Either::Right(x) => f(x),
        }
    }
}

} // verus!
