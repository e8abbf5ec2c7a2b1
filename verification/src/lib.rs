//! Functional programming abstractions: functors, monads, monoids, folds and traversals,
//! and the monad transformers built on them, with their laws stated and proved.

pub mod base;
pub mod logger;
pub mod mtl;
pub mod transformers;
pub mod zipper_cont;
