//! Classes of monads by the effects they support, over the transformers.

pub mod reader;
pub mod state;
pub mod writer;
