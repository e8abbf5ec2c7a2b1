//! The classes of this library on Rust's native `Option`.

use vstd::prelude::*;

use crate::base::data::functor::{
    ensures1, ensures2, foldl_chain, foldl_rel, foldr_chain, foldr_rel, total1, total2, AppA,
    ChainM, Foldable, Functor, PureA,
};
use crate::base::data::monoid::{concat_combinable, mconcat_default, models, Monoid};
use crate::base::data::pointed::Pointed;
use crate::base::data::semigroup::Semigroup;
use crate::base::data::maybe::{lemma_option_assoc, option_combinable, option_combine};

verus! {

/// The model of an optional value of a semigroup.
pub open spec fn opt_model<T: Semigroup>(x: Option<T>) -> Option<T::Model> {
    match x {
        Some(t) => Some(t.model()),
        None => None,
    }
}

impl<T> Pointed for Option<T> {
    type Pointed = T;
}

impl<T, U> Functor<U> for Option<T> {
    type Mapped = Option<U>;

    open spec fn fmapped(x: Option<T>, rel: spec_fn(T, U) -> bool, y: Option<U>) -> bool {
        match (x, y) {
            (Some(a), Some(b)) => rel(a, b),
            (None, None) => true,
            _ => false,
        }
    }

    fn fmap<F: Fn(T) -> U>(self, f: F) -> (r: Option<U>) {
        match self {
            Some(t) => Some(f(t)),
            None => None,
        }
    }
}

impl<T> PureA for Option<T> {
    open spec fn pure_of(t: T, r: Option<T>) -> bool {
        r == Some(t)
    }

    fn pure_a(t: T) -> (r: Option<T>) {
        Some(t)
    }
}

impl<F, A, B> AppA<A, B> for Option<F> where F: Fn(A) -> B {
    type WithA = Option<A>;

    type WithB = Option<B>;

    open spec fn app_ok(f: Option<F>) -> bool {
        f matches Some(g) ==> total1(g)
    }

    open spec fn applied(f: Option<F>, a: Option<A>, r: Option<B>) -> bool {
        match (f, a) {
            (Some(g), Some(x)) => r matches Some(y) && call_ensures(g, (x,), y),
            _ => r is None,
        }
    }

    fn app_a(self, a: Option<A>) -> (r: Option<B>) {
        match self {
            Some(f) => a.fmap(f),
            None => None,
        }
    }
}

impl<T, U> ChainM<U> for Option<T> {
    type Chained = Option<U>;

    open spec fn chained(x: Option<T>, rel: spec_fn(T, Option<U>) -> bool, y: Option<U>) -> bool {
        match x {
            Some(a) => rel(a, y),
            None => y is None,
        }
    }

    fn chain_m<F: Fn(T) -> Option<U>>(self, f: F) -> (r: Option<U>) {
        match self {
            Some(t) => f(t),
            None => None,
        }
    }
}

impl<T> Foldable for Option<T> {
    open spec fn elements(x: Option<T>) -> Seq<T> {
        match x {
            Some(t) => seq![t],
            None => Seq::empty(),
        }
    }

    open spec fn elements_l(x: Option<T>) -> Seq<T> {
        Self::elements(x)
    }

    fn foldr<U, F: Fn(T, U) -> U>(self, f: F, z: U) -> (r: U) {
        match self {
            Some(x) => {
                let ghost zz = z;
                let r = f(x, z);
                proof {
                    assert(foldr_chain(seq![x], ensures2(f), zz, seq![r, zz]));
                }
                r
            },
            None => {
                proof {
                    assert(foldr_chain(Seq::<T>::empty(), ensures2(f), z, seq![z]));
                }
                z
            },
        }
    }

    fn foldl<U, F: Fn(U, T) -> U>(self, f: F, z: U) -> (r: U) {
        match self {
            Some(y) => {
                let ghost zz = z;
                let r = f(z, y);
                proof {
                    assert(foldl_chain(seq![y], ensures2(f), zz, seq![zz, r]));
                }
                r
            },
            None => {
                proof {
                    assert(foldl_chain(Seq::<T>::empty(), ensures2(f), z, seq![z]));
                }
                z
            },
        }
    }
}

impl<T: Semigroup> Semigroup for Option<T> {
    type Model = Option<T::Model>;

    open spec fn model(&self) -> Option<T::Model> {
        opt_model(*self)
    }

    open spec fn combine(a: Option<T::Model>, b: Option<T::Model>) -> Option<T::Model> {
        option_combine::<T>(a, b)
    }

    open spec fn combinable(a: Option<T::Model>, b: Option<T::Model>) -> bool {
        option_combinable::<T>(a, b)
    }

    fn assoc_s(self, a: Self) -> (r: Self) {
        match (self, a) {
            (None, None) => None,
            (None, Some(r)) => Some(r),
            (Some(l), None) => Some(l),
            (Some(l), Some(r)) => Some(l.assoc_s(r)),
        }
    }

    proof fn lemma_assoc(a: Option<T::Model>, b: Option<T::Model>, c: Option<T::Model>) {
        lemma_option_assoc::<T>(a, b, c);
    }
}

impl<T: Semigroup> Monoid for Option<T> {
    open spec fn empty_model() -> Option<T::Model> {
        None
    }

    open spec fn mconcat_ok(s: Seq<Option<T::Model>>) -> bool {
        concat_combinable::<Self>(s, None)
    }

    fn mempty() -> (r: Self) {
        None
    }

    fn mconcat(list: Vec<Self>) -> (r: Self) {
        mconcat_default(list, None)
    }

    proof fn lemma_identity(a: Option<T::Model>) {
    }
}


/// Combining optional values: `None` is the identity, and two present values combine what
/// they hold. The identity is `None`.
pub proof fn lemma_option_assoc_s<T: Semigroup>(x: Option<T>, y: Option<T>, r: Option<T>)
    ensures
        r.model() == <Option<T> as Semigroup>::combine(x.model(), y.model()) ==> match (x, y) {
            (None, None) => r is None,
            (None, Some(b)) => r matches Some(c) && c.model() == b.model(),
            (Some(a), None) => r matches Some(c) && c.model() == a.model(),
            (Some(a), Some(b)) => r matches Some(c) && c.model() == T::combine(a.model(), b.model()),
        },
        (x is None || y is None) ==> <Option<T> as Semigroup>::combinable(x.model(), y.model()),
        r.model() == <Option<T> as Monoid>::empty_model() ==> r is None,
{
}

} // verus!
