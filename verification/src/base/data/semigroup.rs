use vstd::prelude::*;

verus! {

/// The class of types with an associative binary operation.
///
/// Every instance carries a mathematical model (`Model`) of its values;
/// `assoc_s` is specified as `combine` on models, and instances prove that
/// `combine` is associative:
///
/// ```text
/// x.assoc_s(y.assoc_s(z)) == x.assoc_s(y).assoc_s(z)
/// ```
///
/// `combinable` states when the operation is defined on the machine
/// (for instance, that a sum does not overflow); it is `true` for most instances.
pub trait Semigroup: Sized {
    /// The mathematical value that a value of this type stands for.
    type Model;

    /// The model of a value.
    spec fn model(&self) -> Self::Model;

    /// The associative operation on models.
    spec fn combine(a: Self::Model, b: Self::Model) -> Self::Model;

    /// Whether `assoc_s` can combine values with these models.
    spec fn combinable(a: Self::Model, b: Self::Model) -> bool;

    /// An associative operation.
    fn assoc_s(self, a: Self) -> (r: Self)
        requires
            Self::combinable(self.model(), a.model()),
        ensures
            r.model() == Self::combine(self.model(), a.model()),
    ;

    /// Associativity of `combine`.
    proof fn lemma_assoc(a: Self::Model, b: Self::Model, c: Self::Model)
        ensures
            Self::combine(a, Self::combine(b, c)) == Self::combine(Self::combine(a, b), c),
    ;
}

} // verus!
