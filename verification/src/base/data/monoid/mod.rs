//! A [`Monoid`] is a [`Semigroup`] with the added requirement of a neutral element.
//!
//! ```text
//! a.assoc_s(Monoid::mempty()) == Monoid::mempty().assoc_s(a) == a
//! ```

pub mod endo;
mod product;
mod sum;

pub use endo::Endo;
pub use product::Product;
pub use sum::Sum;

use vstd::prelude::*;

use super::semigroup::Semigroup;

verus! {

/// The model of `mconcat`: the models folded from the right with `combine`,
/// starting from the model of `mempty`.
pub open spec fn concat_model<T: Semigroup>(s: Seq<T::Model>, e: T::Model) -> T::Model
    decreases s.len(),
{
    if s.len() == 0 {
        e
    } else {
        T::combine(s[0], concat_model::<T>(s.drop_first(), e))
    }
}

/// Whether every step of the right fold behind `concat_model` is combinable.
pub open spec fn concat_combinable<T: Semigroup>(s: Seq<T::Model>, e: T::Model) -> bool
    decreases s.len(),
{
    if s.len() == 0 {
        true
    } else {
        T::combinable(s[0], concat_model::<T>(s.drop_first(), e)) && concat_combinable::<T>(
            s.drop_first(),
            e,
        )
    }
}

/// The models of a list of values.
pub open spec fn models<T: Semigroup>(s: Seq<T>) -> Seq<T::Model> {
    s.map_values(|x: T| x.model())
}

/// The class of monoids (types with an associative binary operation that has an identity).
///
/// Instances satisfy:
///
/// **Right identity** `x.assoc_s(Monoid::mempty()) == x`
///
/// **Left identity** `Monoid::mempty().assoc_s(x) == x`
///
/// **Concatenation** `Monoid::mconcat == foldr(assoc_s, mempty)`
pub trait Monoid: Semigroup {
    /// The model of the identity.
    spec fn empty_model() -> Self::Model;

    /// Whether `mconcat` can combine a list with these models.
    spec fn mconcat_ok(s: Seq<Self::Model>) -> bool;

    /// Identity of `assoc_s`.
    fn mempty() -> (r: Self)
        ensures
            r.model() == Self::empty_model(),
    ;

    /// Fold a list using the monoid.
    fn mconcat(list: Vec<Self>) -> (r: Self)
        requires
            Self::mconcat_ok(models(list@)),
        ensures
            r.model() == concat_model::<Self>(models(list@), Self::empty_model()),
    ;

    /// The identity laws, and that combining with the identity is always defined.
    proof fn lemma_identity(a: Self::Model)
        ensures
            Self::combine(Self::empty_model(), a) == a,
            Self::combine(a, Self::empty_model()) == a,
            Self::combinable(Self::empty_model(), a),
            Self::combinable(a, Self::empty_model()),
    ;
}

/// Fold a list from the right with `assoc_s`, starting from `empty`.
/// With the identity as `empty`, this is the meaning of `mconcat` for every monoid.
pub fn mconcat_default<T: Semigroup>(list: Vec<T>, empty: T) -> (r: T)
    requires
        concat_combinable::<T>(models(list@), empty.model()),
    ensures
        r.model() == concat_model::<T>(models(list@), empty.model()),
{
    let ghost all = models(list@);
    let ghost e = empty.model();
    let mut list = list;
    let mut acc = empty;
    while list.len() > 0
        invariant
            all.len() >= list@.len(),
            models(list@) == all.take(list@.len() as int),
            acc.model() == concat_model::<T>(all.skip(list@.len() as int), e),
            concat_combinable::<T>(all, e),
        decreases list.len(),
    {
        let ghost n = list@.len() as int;
        let ghost before = list@;
        let x = list.pop().unwrap();
        proof {
            lemma_concat_skip::<T>(all, e, n - 1);
            assert(models(list@) =~= all.take(n - 1));
            assert(models(before)[n - 1] == all[n - 1]);
            assert(x.model() == all[n - 1]);
        }
        acc = x.assoc_s(acc);
    }
    proof {
        assert(all.skip(0) =~= all);
    }
    acc
}

/// The models folded from the left with `combine`, starting from `acc`.
pub open spec fn foldl_model<T: Semigroup>(s: Seq<T::Model>, acc: T::Model) -> T::Model
    decreases s.len(),
{
    if s.len() == 0 {
        acc
    } else {
        foldl_model::<T>(s.drop_first(), T::combine(acc, s[0]))
    }
}

/// Whether every step of the left fold behind `foldl_model` is combinable.
pub open spec fn foldl_combinable<T: Semigroup>(s: Seq<T::Model>, acc: T::Model) -> bool
    decreases s.len(),
{
    if s.len() == 0 {
        true
    } else {
        T::combinable(acc, s[0]) && foldl_combinable::<T>(s.drop_first(), T::combine(acc, s[0]))
    }
}

/// In a monoid, folding from the left gives what folding from the right gives:
/// `foldl(s, acc) == acc <> mconcat(s)`.
pub proof fn lemma_foldl_concat<T: Semigroup>(s: Seq<T::Model>, acc: T::Model, e: T::Model)
    requires
        forall|a: T::Model| #[trigger] T::combine(a, e) == a,
    ensures
        foldl_model::<T>(s, acc) == T::combine(acc, concat_model::<T>(s, e)),
    decreases s.len(),
{
    if s.len() > 0 {
        lemma_foldl_concat::<T>(s.drop_first(), T::combine(acc, s[0]), e);
        T::lemma_assoc(acc, s[0], concat_model::<T>(s.drop_first(), e));
    }
}

/// Unfolding `foldl_model` at a position of a list.
pub proof fn lemma_foldl_skip<T: Semigroup>(s: Seq<T::Model>, i: int, acc: T::Model)
    requires
        0 <= i < s.len(),
    ensures
        foldl_model::<T>(s.skip(i), acc) == foldl_model::<T>(s.skip(i + 1), T::combine(acc, s[i])),
        foldl_combinable::<T>(s.skip(i), acc) == (T::combinable(acc, s[i])
            && foldl_combinable::<T>(s.skip(i + 1), T::combine(acc, s[i]))),
{
    assert(s.skip(i).drop_first() =~= s.skip(i + 1));
}

/// Unfolding `concat_model` at a position of a list.
pub proof fn lemma_concat_skip<T: Semigroup>(s: Seq<T::Model>, e: T::Model, i: int)
    requires
        0 <= i < s.len(),
        concat_combinable::<T>(s, e),
    ensures
        concat_model::<T>(s.skip(i), e) == T::combine(s[i], concat_model::<T>(s.skip(i + 1), e)),
        T::combinable(s[i], concat_model::<T>(s.skip(i + 1), e)),
    decreases i,
{
    if i > 0 {
        lemma_concat_skip::<T>(s.drop_first(), e, i - 1);
        assert(s.drop_first().skip(i - 1) =~= s.skip(i));
        assert(s.drop_first().skip(i) =~= s.skip(i + 1));
    } else {
        assert(s.skip(0) =~= s);
        assert(s.skip(1) =~= s.drop_first());
    }
}


/// Concatenating two lists in a monoid combines their concatenations.
pub proof fn lemma_concat_append<T: Monoid>(s1: Seq<T::Model>, s2: Seq<T::Model>)
    ensures
        concat_model::<T>(s1 + s2, T::empty_model()) == T::combine(
            concat_model::<T>(s1, T::empty_model()),
            concat_model::<T>(s2, T::empty_model()),
        ),
    decreases s1.len(),
{
    let e = T::empty_model();
    if s1.len() == 0 {
        assert(s1 + s2 =~= s2);
        T::lemma_identity(concat_model::<T>(s2, e));
    } else {
        assert((s1 + s2).drop_first() =~= s1.drop_first() + s2);
        assert((s1 + s2)[0] == s1[0]);
        lemma_concat_append::<T>(s1.drop_first(), s2);
        T::lemma_assoc(s1[0], concat_model::<T>(s1.drop_first(), e), concat_model::<T>(s2, e));
    }
}

/// The unit law of `mconcat`: concatenating the one-element list of `a` gives `a`.
pub proof fn lemma_mconcat_unit<T: Monoid>(a: T::Model)
    ensures
        concat_model::<T>(seq![a], T::empty_model()) == a,
{
    let e = T::empty_model();
    assert(seq![a].drop_first() =~= Seq::<T::Model>::empty());
    assert(concat_model::<T>(Seq::<T::Model>::empty(), e) == e);
    assert(concat_model::<T>(seq![a], e) == T::combine(a, concat_model::<T>(seq![a].drop_first(), e)));
    T::lemma_identity(a);
}

/// The multiplication law of `mconcat`: concatenating the lists of a list of lists, joined,
/// gives what concatenating their concatenations gives.
pub proof fn lemma_mconcat_flatten<T: Monoid>(xss: Seq<Seq<T::Model>>)
    ensures
        concat_model::<T>(xss.flatten(), T::empty_model()) == concat_model::<T>(
            xss.map_values(|xs: Seq<T::Model>| concat_model::<T>(xs, T::empty_model())),
            T::empty_model(),
        ),
    decreases xss.len(),
{
    let e = T::empty_model();
    let f = |xs: Seq<T::Model>| concat_model::<T>(xs, e);
    if xss.len() == 0 {
        assert(xss.map_values(f) =~= Seq::<T::Model>::empty());
    } else {
        lemma_mconcat_flatten::<T>(xss.drop_first());
        lemma_concat_append::<T>(xss.first(), xss.drop_first().flatten());
        assert(xss.map_values(f).drop_first() =~= xss.drop_first().map_values(f));
        assert(xss.map_values(f)[0] == f(xss[0]));
    }
}

} // verus!
