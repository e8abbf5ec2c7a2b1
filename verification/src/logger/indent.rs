//! Messages with an indentation depth.

use vstd::prelude::*;
use vstd::string::StringExecFns;

use crate::base::grl::show::Show;

verus! {

/// A message `T` to be written indented by a depth (two spaces a level).
#[derive(Debug, Default, Copy, Clone, PartialEq, Eq, PartialOrd, Ord, Hash)]
pub struct Indent<T>(pub T, pub usize);

impl<T> Indent<T> {
    /// A message at a depth.
    pub fn new(t: T, depth: usize) -> (r: Self)
        ensures
            r == Indent(t, depth),
    {
        Indent(t, depth)
    }
}

/// The indentation of a depth: two spaces a level.
pub open spec fn indentation(depth: nat) -> Seq<char> {
    Seq::new(2 * depth, |i: int| ' ')
}

impl<T: Show> Show for Indent<T> {
    /// The text of the message after its indentation.
    open spec fn shown(x: Indent<T>) -> Seq<char> {
        indentation(x.1 as nat) + T::shown(x.0)
    }

    fn show(self) -> (r: String) {
        let Indent(t, depth) = self;
        let mut out = String::new();
        let mut i: usize = 0;
        proof {
            assert(out@ =~= indentation(0));
        }
        while i < depth
            invariant
                i <= depth,
                out@ == indentation(i as nat),
            decreases depth - i,
        {
            proof {
                reveal_strlit("  ");
            }
            out.append("  ");
            i = i + 1;
            proof {
                assert(out@ =~= indentation(i as nat));
            }
        }
        let text = t.show();
        out.append(text.as_str());
        out
    }
}

} // verus!
