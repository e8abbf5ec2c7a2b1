//! Monad transformers: computations of an inner monad extended with another effect.

pub mod class;
pub mod errors;
pub mod except;
pub mod identity;
pub mod laws;
pub mod lift;
pub mod maybe;
pub mod reader;
pub mod state;
pub mod writer;
