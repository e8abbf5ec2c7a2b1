//! # Data

pub mod bifunctor;
pub mod constant;
pub mod either;
pub mod foldable;
pub mod functor;
pub mod identity;
pub mod laws;
pub mod list;
pub mod map;
pub mod maybe;
pub mod monoid;
pub mod ordered;
pub mod pointed;
pub mod semigroup;
pub mod set;
pub mod term;
pub mod traversable;
pub mod tree;
pub mod tuple;
pub mod with_kinded;
pub mod with_pointed;
