//! A linked list of items, stored as a double-ended queue.

use std::collections::VecDeque;

use vstd::prelude::*;

verus! {

/// A list with cheap insertion at both ends.
pub type LinkedList<T> = VecDeque<T>;

/// Add an item at the back of the list.
pub fn push_back<T>(t: T, list: LinkedList<T>) -> (r: LinkedList<T>)
    ensures
        r@ == list@.push(t),
{
    let mut list = list;
    list.push_back(t);
    list
}

/// Add an item at the front of the list.
pub fn push_front<T>(t: T, list: LinkedList<T>) -> (r: LinkedList<T>)
    ensures
        r@ == seq![t] + list@,
{
    let mut list = list;
    list.push_front(t);
    list
}

} // verus!
