use vstd::prelude::*;
use vstd::string::StringExecFns;

verus! {

/// Concatenation of two lists.
pub trait Append: Sized {
    /// The type of the list's elements.
    type Item;

    /// The elements of a list.
    spec fn items(x: Self) -> Seq<Self::Item>;

    /// `self` followed by `t`.
    fn append(self, t: Self) -> (r: Self)
        ensures
            Self::items(r) == Self::items(self) + Self::items(t),
    ;
}

impl<T> Append for Vec<T> {
    type Item = T;

    open spec fn items(x: Vec<T>) -> Seq<T> {
        x@
    }

    fn append(self, t: Self) -> (r: Self) {
        let mut v = self;
        let mut t = t;
        Vec::append(&mut v, &mut t);
        v
    }
}

impl Append for String {
    type Item = char;

    open spec fn items(x: String) -> Seq<char> {
        x@
    }

    fn append(self, t: Self) -> (r: Self) {
        self.concat(t.as_str())
    }
}

} // verus!
