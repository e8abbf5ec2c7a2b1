//! Traits generalizing over parametrized types.

use vstd::prelude::*;

verus! {

/// A [`Pointed`] type addresses a single free type parameter.
pub trait Pointed {
    /// Free type parameter.
    type Pointed;
}

} // verus!
