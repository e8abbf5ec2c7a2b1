//! Sets.

pub mod btree_set;
