//! Base data types and classes.

pub mod data;
pub mod grl;
