//! The [`Maybe`] type encapsulates an optional value.
//!
//! A value of type [`Maybe<A>`] either contains a value of type `A` (represented as `Just(A)`),
//! or it is empty (represented as `Nothing`).

pub mod option;

use vstd::prelude::*;

use super::functor::{
    ensures1, ensures2, foldl_chain, foldl_rel, foldr_chain, foldr_rel, total1, total2, AppA, ChainM,
    Foldable, Functor, PureA,
};
use super::monoid::{concat_combinable, concat_model, mconcat_default, models, Monoid};
use super::pointed::Pointed;
use super::semigroup::Semigroup;

verus! {

/// An optional value.
#[derive(Debug, Copy, Clone, PartialEq, Eq, PartialOrd, Ord, Hash)]
pub enum Maybe<T> {
    Just(T),
    Nothing,
}

impl<T> From<Option<T>> for Maybe<T> {
    fn from(value: Option<T>) -> (r: Maybe<T>) {
        match value {
            Some(t) => Maybe::Just(t),
            None => Maybe::Nothing,
        }
    }
}

impl<T> vstd::std_specs::convert::FromSpecImpl<Option<T>> for Maybe<T> {
    open spec fn obeys_from_spec() -> bool {
        true
    }

    open spec fn from_spec(value: Option<T>) -> Maybe<T> {
        match value {
            Some(t) => Maybe::Just(t),
            None => Maybe::Nothing,
        }
    }
}

impl<T> From<Maybe<T>> for Option<T> {
    fn from(value: Maybe<T>) -> (r: Option<T>) {
        match value {
            Maybe::Just(t) => Some(t),
            Maybe::Nothing => None,
        }
    }
}

impl<T> vstd::std_specs::convert::FromSpecImpl<Maybe<T>> for Option<T> {
    open spec fn obeys_from_spec() -> bool {
        true
    }

    open spec fn from_spec(value: Maybe<T>) -> Option<T> {
        match value {
            Maybe::Just(t) => Some(t),
            Maybe::Nothing => None,
        }
    }
}

impl<T> Pointed for Maybe<T> {
    type Pointed = T;
}

impl<T, U> Functor<U> for Maybe<T> {
    type Mapped = Maybe<U>;

    open spec fn fmapped(x: Maybe<T>, rel: spec_fn(T, U) -> bool, y: Maybe<U>) -> bool {
        match (x, y) {
            (Maybe::Just(a), Maybe::Just(b)) => rel(a, b),
            (Maybe::Nothing, Maybe::Nothing) => true,
            _ => false,
        }
    }

    fn fmap<F: Fn(T) -> U>(self, f: F) -> (r: Maybe<U>) {
        match self {
            Maybe::Just(t) => Maybe::Just(f(t)),
            Maybe::Nothing => Maybe::Nothing,
        }
    }
}

impl<T> PureA for Maybe<T> {
    open spec fn pure_of(t: T, r: Maybe<T>) -> bool {
        r == Maybe::Just(t)
    }

    fn pure_a(t: T) -> (r: Maybe<T>) {
        Maybe::Just(t)
    }
}

impl<T, U> ChainM<U> for Maybe<T> {
    type Chained = Maybe<U>;

    open spec fn chained(x: Maybe<T>, rel: spec_fn(T, Maybe<U>) -> bool, y: Maybe<U>) -> bool {
        match x {
            Maybe::Just(a) => rel(a, y),
            Maybe::Nothing => y is Nothing,
        }
    }

    fn chain_m<F: Fn(T) -> Maybe<U>>(self, f: F) -> (r: Maybe<U>) {
        match self {
            Maybe::Just(t) => f(t),
            Maybe::Nothing => Maybe::Nothing,
        }
    }
}

impl<T> Foldable for Maybe<T> {
    open spec fn elements(x: Maybe<T>) -> Seq<T> {
        match x {
            Maybe::Just(t) => seq![t],
            Maybe::Nothing => Seq::empty(),
        }
    }

    open spec fn elements_l(x: Maybe<T>) -> Seq<T> {
        Self::elements(x)
    }

    fn foldr<U, F: Fn(T, U) -> U>(self, f: F, z: U) -> (r: U) {
        match self {
            Maybe::Just(x) => {
                let ghost zz = z;
                let r = f(x, z);
                proof {
                    assert(foldr_chain(seq![x], ensures2(f), zz, seq![r, zz]));
                }
                r
            },
            Maybe::Nothing => {
                proof {
                    assert(foldr_chain(Seq::<T>::empty(), ensures2(f), z, seq![z]));
                }
                z
            },
        }
    }

    fn foldl<U, F: Fn(U, T) -> U>(self, f: F, z: U) -> (r: U) {
        match self {
            Maybe::Just(y) => {
                let ghost zz = z;
                let r = f(z, y);
                proof {
                    assert(foldl_chain(seq![y], ensures2(f), zz, seq![zz, r]));
                }
                r
            },
            Maybe::Nothing => {
                proof {
                    assert(foldl_chain(Seq::<T>::empty(), ensures2(f), z, seq![z]));
                }
                z
            },
        }
    }
}

/// The model of an optional value of a semigroup.
pub open spec fn maybe_model<T: Semigroup>(x: Maybe<T>) -> Option<T::Model> {
    match x {
        Maybe::Just(t) => Some(t.model()),
        Maybe::Nothing => None,
    }
}

/// Combining optional models: a missing value is the identity.
pub open spec fn option_combine<T: Semigroup>(a: Option<T::Model>, b: Option<T::Model>) -> Option<
    T::Model,
> {
    match (a, b) {
        (None, r) => r,
        (l, None) => l,
        (Some(l), Some(r)) => Some(T::combine(l, r)),
    }
}

/// Whether two optional models can be combined.
pub open spec fn option_combinable<T: Semigroup>(a: Option<T::Model>, b: Option<T::Model>) -> bool {
    match (a, b) {
        (Some(l), Some(r)) => T::combinable(l, r),
        _ => true,
    }
}

/// Associativity of `option_combine`, from that of the semigroup inside.
pub proof fn lemma_option_assoc<T: Semigroup>(
    a: Option<T::Model>,
    b: Option<T::Model>,
    c: Option<T::Model>,
)
    ensures
        option_combine::<T>(a, option_combine::<T>(b, c)) == option_combine::<T>(
            option_combine::<T>(a, b),
            c,
        ),
{
    if let (Some(x), Some(y), Some(z)) = (a, b, c) {
        T::lemma_assoc(x, y, z);
    }
}

impl<T: Semigroup> Semigroup for Maybe<T> {
    type Model = Option<T::Model>;

    open spec fn model(&self) -> Option<T::Model> {
        maybe_model(*self)
    }

    open spec fn combine(a: Option<T::Model>, b: Option<T::Model>) -> Option<T::Model> {
        option_combine::<T>(a, b)
    }

    open spec fn combinable(a: Option<T::Model>, b: Option<T::Model>) -> bool {
        option_combinable::<T>(a, b)
    }

    fn assoc_s(self, a: Self) -> (r: Self) {
        match (self, a) {
            (Maybe::Nothing, Maybe::Nothing) => Maybe::Nothing,
            (Maybe::Nothing, Maybe::Just(r)) => Maybe::Just(r),
            (Maybe::Just(l), Maybe::Nothing) => Maybe::Just(l),
            (Maybe::Just(l), Maybe::Just(r)) => Maybe::Just(l.assoc_s(r)),
        }
    }

    proof fn lemma_assoc(a: Option<T::Model>, b: Option<T::Model>, c: Option<T::Model>) {
        lemma_option_assoc::<T>(a, b, c);
    }
}

impl<T: Semigroup> Monoid for Maybe<T> {
    open spec fn empty_model() -> Option<T::Model> {
        None
    }

    open spec fn mconcat_ok(s: Seq<Option<T::Model>>) -> bool {
        concat_combinable::<Self>(s, None)
    }

    fn mempty() -> (r: Self) {
        Maybe::Nothing
    }

    fn mconcat(list: Vec<Self>) -> (r: Self) {
        mconcat_default(list, Maybe::Nothing)
    }

    proof fn lemma_identity(a: Option<T::Model>) {
    }
}

/// Apply a function to the value inside a `Just`, or return the default for `Nothing`.
pub fn maybe<A, B, F: Fn(A) -> B>(default: B, f: F, t: Maybe<A>) -> (r: B)
    requires
        total1(f),
    ensures
        match t {
            Maybe::Just(a) => call_ensures(f, (a,), r),
            Maybe::Nothing => r == default,
        },
{
    match t {
        Maybe::Just(t) => f(t),
        Maybe::Nothing => default,
    }
}

impl<F, A, B> AppA<A, B> for Maybe<F> where F: Fn(A) -> B {
    type WithA = Maybe<A>;

    type WithB = Maybe<B>;

    open spec fn app_ok(f: Maybe<F>) -> bool {
        f matches Maybe::Just(g) ==> total1(g)
    }

    open spec fn applied(f: Maybe<F>, a: Maybe<A>, r: Maybe<B>) -> bool {
        match (f, a) {
            (Maybe::Just(g), Maybe::Just(x)) => r matches Maybe::Just(y) && call_ensures(g, (x,), y),
            _ => r is Nothing,
        }
    }

    fn app_a(self, a: Maybe<A>) -> (r: Maybe<B>) {
        match self {
            Maybe::Just(f) => a.fmap(f),
            Maybe::Nothing => Maybe::Nothing,
        }
    }
}


/// Combining optional values: an absent value is the identity, and two present values
/// combine what they hold. The identity is `Nothing`.
pub proof fn lemma_maybe_assoc_s<T: Semigroup>(x: Maybe<T>, y: Maybe<T>, r: Maybe<T>)
    ensures
        r.model() == <Maybe<T> as Semigroup>::combine(x.model(), y.model()) ==> match (x, y) {
            (Maybe::Nothing, Maybe::Nothing) => r is Nothing,
            (Maybe::Nothing, Maybe::Just(b)) => r matches Maybe::Just(c) && c.model() == b.model(),
            (Maybe::Just(a), Maybe::Nothing) => r matches Maybe::Just(c) && c.model() == a.model(),
            (Maybe::Just(a), Maybe::Just(b)) => r matches Maybe::Just(c) && c.model() == T::combine(
                a.model(),
                b.model(),
            ),
        },
        (x is Nothing || y is Nothing) ==> <Maybe<T> as Semigroup>::combinable(x.model(), y.model()),
        r.model() == <Maybe<T> as Monoid>::empty_model() ==> r is Nothing,
{
}

} // verus!
