//! Lists: `Vec`, `VecDeque`, linked lists and `String`.

mod append;
pub mod filter;

pub use append::Append;
pub use filter::{filter_by, judged, Filter};

pub mod array;
pub mod linked_list;
pub mod sort;
pub mod string;
pub mod vec;
pub mod vec_deque;
