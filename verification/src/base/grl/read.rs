//! Parsing values from strings.

use vstd::prelude::*;

verus! {

/// Construction of a value from a string, by value.
pub trait Read: Sized {
    /// The value that the string `t` stands for.
    fn read(t: String) -> Self;
}

impl<T: From<String>> Read for T {
    /// The value that `From<String>` gives for `t`.
    fn read(t: String) -> (r: T)
        ensures
            <T as vstd::std_specs::convert::FromSpec<String>>::obeys_from_spec() ==> r == <T as vstd::std_specs::convert::FromSpec<String>>::from_spec(t),
    {
        T::from(t)
    }
}

} // verus!
