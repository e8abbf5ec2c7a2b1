//! An applicative functor that collects errors.

use vstd::prelude::*;

use crate::base::data::constant::Const;
use crate::base::data::either::Either;
use crate::base::data::pointed::Pointed;

use super::lift::Lift;

verus! {

/// A computation that either gives a value or holds a collection of errors `E`.
///
/// Unlike [`ExceptT`](crate::transformers::except::ExceptT), a sequence of such
/// computations goes on after an error, collecting the errors: applying a failure to a
/// failure gives the errors of both, combined in order with the semigroup operation of
/// `E`, and a pure function applied to a failure keeps its errors.
pub type Errors<E> = Lift<Const<E, <E as Pointed>::Pointed>>;

impl<E, P> Lift<Const<E, P>> {
    /// The outcome: `Right` with the value, or `Left` with the errors.
    pub fn run(self) -> (r: Either<E, P>)
        ensures
            r == (match self {
                Lift::Pure(x) => Either::<E, P>::Right(x),
                Lift::Other(c) => Either::<E, P>::Left(c.0),
            }),
    {
        match self {
            Lift::Pure(x) => Either::Right(x),
            Lift::Other(Const(e, _)) => Either::Left(e),
        }
    }

    /// A computation that fails with the errors `e`.
    pub fn failure(e: E) -> (r: Self)
        ensures
            r matches Lift::Other(c) && c.0 == e,
    {
        Lift::Other(Const::new(e))
    }
}

impl<E, P> From<Either<E, P>> for Lift<Const<E, P>> {
    fn from(value: Either<E, P>) -> (r: Self) {
        match value {
            Either::Left(e) => Lift::Other(Const(e, std::marker::PhantomData)),
            Either::Right(x) => Lift::Pure(x),
        }
    }
}

impl<E, P> vstd::std_specs::convert::FromSpecImpl<Either<E, P>> for Lift<Const<E, P>> {
    open spec fn obeys_from_spec() -> bool {
        true
    }

    open spec fn from_spec(value: Either<E, P>) -> Self {
        match value {
            Either::Left(e) => Lift::Other(Const(e, std::marker::PhantomData)),
            Either::Right(x) => Lift::Pure(x),
        }
    }
}

} // verus!
