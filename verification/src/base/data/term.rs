//! Bounds for the values that the abstractions of this library work on.

use vstd::prelude::*;

verus! {

/// The bounds of [`Term`] apart from `Sized` and `Clone`.
pub trait TermBase: 'static + Send + Sync {}

impl<T: 'static + Send + Sync> TermBase for T {}

/// A value suitable for use in a functional expression: owned, shareable and clonable.
pub trait Term: TermBase + Sized + Clone {}

impl<T: TermBase + Clone> Term for T {}

} // verus!
