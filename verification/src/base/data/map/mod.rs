//! Maps.

pub mod btree_map;
