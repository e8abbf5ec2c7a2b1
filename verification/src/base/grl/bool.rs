//! Generalized boolean operations.

use vstd::prelude::*;

verus! {

/// Disjunction.
pub trait Or: Sized {
    /// Whether either value holds.
    spec fn either(a: Self, b: Self) -> Self;

    /// `self || other`.
    fn or(self, other: Self) -> (r: Self)
        ensures
            r == Self::either(self, other),
    ;
}

impl Or for bool {
    open spec fn either(a: bool, b: bool) -> bool {
        a || b
    }

    fn or(self, other: Self) -> (r: bool) {
        self || other
    }
}

/// Conjunction.
///
/// Its method keeps the name `or`, as in the trait it is modelled on.
pub trait And: Sized {
    /// Whether both values hold.
    spec fn both(a: Self, b: Self) -> Self;

    /// `self && other`.
    fn or(self, other: Self) -> (r: Self)
        ensures
            r == Self::both(self, other),
    ;
}

impl And for bool {
    open spec fn both(a: bool, b: bool) -> bool {
        a && b
    }

    fn or(self, other: Self) -> (r: bool) {
        self && other
    }
}

/// `Or` on `bool` is disjunction and `And` is conjunction: the result holds exactly when
/// one (for `Or`), or both (for `And`), of the arguments hold.
pub proof fn lemma_bool_or_and(a: bool, b: bool)
    ensures
        <bool as Or>::either(a, b) <==> (a || b),
        <bool as And>::both(a, b) <==> (a && b),
        <bool as Or>::either(true, b),
        !<bool as And>::both(false, b),
{
}

} // verus!
