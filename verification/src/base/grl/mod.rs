//! Basic classes of values: booleans, numbers, I/O actions, lazy values, parsing and rendering.

pub mod bool;
pub mod io;
pub mod lazy;
pub mod num;
pub mod read;
pub mod show;
