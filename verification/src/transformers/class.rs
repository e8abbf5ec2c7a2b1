//! The class of monad transformers.
//!
//! A monad transformer makes a new monad out of an existing one, such that computations
//! of the old monad may be embedded in the new one.

use vstd::prelude::*;

verus! {

/// A monad built over the inner monad `MI`, into which computations of `MI` can be lifted.
///
/// `lifted(m, r)` states that `r` is the computation `m` seen in the outer monad:
/// it has the effects of `m`, and none of its own.
pub trait MonadTrans<MI>: Sized {
    /// `r` embeds the inner computation `m`.
    spec fn lifted(m: MI, r: Self) -> bool;

    /// Lift a computation from the inner monad.
    fn lift(m: MI) -> (r: Self)
        ensures
            Self::lifted(m, r),
    ;
}

} // verus!
