//! Trees.

pub mod rose_tree;
