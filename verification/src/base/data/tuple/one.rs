//! The one-tuple, as a functor, monad and monoid.

use vstd::prelude::*;

use crate::base::data::functor::{
    ensures1, ensures2, foldl_chain, foldl_rel, foldr_chain, foldr_rel, total1, total2, AppA,
    ChainM, Foldable, Functor, PureA,
};
use crate::base::data::monoid::{concat_combinable, concat_model, mconcat_default, models, Monoid};
use crate::base::data::pointed::Pointed;
use crate::base::data::semigroup::Semigroup;

verus! {

impl<A> Pointed for (A,) {
    type Pointed = A;
}

impl<A, U> Functor<U> for (A,) {
    type Mapped = (U,);

    open spec fn fmapped(x: (A,), rel: spec_fn(A, U) -> bool, y: (U,)) -> bool {
        rel(x.0, y.0)
    }

    fn fmap<F: Fn(A) -> U>(self, f: F) -> (r: (U,)) {
        let (t,) = self;
        (f(t),)
    }
}

impl<A> PureA for (A,) {
    open spec fn pure_of(t: A, r: (A,)) -> bool {
        r.0 == t
    }

    fn pure_a(t: A) -> (r: (A,)) {
        (t,)
    }
}

impl<F, A, B> AppA<A, B> for (F,) where F: Fn(A) -> B {
    type WithA = (A,);

    type WithB = (B,);

    open spec fn app_ok(f: (F,)) -> bool {
        total1(f.0)
    }

    open spec fn applied(f: (F,), a: (A,), r: (B,)) -> bool {
        call_ensures(f.0, (a.0,), r.0)
    }

    fn app_a(self, a: (A,)) -> (r: (B,)) {
        ((self.0)(a.0),)
    }
}

impl<T, U> ChainM<U> for (T,) {
    type Chained = (U,);

    open spec fn chained(x: (T,), rel: spec_fn(T, (U,)) -> bool, y: (U,)) -> bool {
        rel(x.0, y)
    }

    fn chain_m<F: Fn(T) -> (U,)>(self, f: F) -> (r: (U,)) {
        f(self.0)
    }
}

impl<T> Foldable for (T,) {
    open spec fn elements(x: (T,)) -> Seq<T> {
        seq![x.0]
    }

    open spec fn elements_l(x: (T,)) -> Seq<T> {
        Self::elements(x)
    }

    fn foldr<U, F: Fn(T, U) -> U>(self, f: F, z: U) -> (r: U) {
        let ghost zz = z;
        let x = self.0;
        let r = f(x, z);
        proof {
            assert(foldr_chain(seq![x], ensures2(f), zz, seq![r, zz]));
        }
        r
    }

    fn foldl<U, F: Fn(U, T) -> U>(self, f: F, z: U) -> (r: U) {
        let ghost zz = z;
        let y = self.0;
        let r = f(z, y);
        proof {
            assert(foldl_chain(seq![y], ensures2(f), zz, seq![zz, r]));
        }
        r
    }
}

impl<T: Semigroup> Semigroup for (T,) {
    type Model = T::Model;

    open spec fn model(&self) -> T::Model {
        self.0.model()
    }

    open spec fn combine(a: T::Model, b: T::Model) -> T::Model {
        T::combine(a, b)
    }

    open spec fn combinable(a: T::Model, b: T::Model) -> bool {
        T::combinable(a, b)
    }

    fn assoc_s(self, a: Self) -> (r: Self) {
        (self.0.assoc_s(a.0),)
    }

    proof fn lemma_assoc(a: T::Model, b: T::Model, c: T::Model) {
        T::lemma_assoc(a, b, c);
    }
}

impl<T: Monoid> Monoid for (T,) {
    open spec fn empty_model() -> T::Model {
        T::empty_model()
    }

    open spec fn mconcat_ok(s: Seq<T::Model>) -> bool {
        concat_combinable::<Self>(s, T::empty_model())
    }

    fn mempty() -> (r: Self) {
        (T::mempty(),)
    }

    fn mconcat(list: Vec<Self>) -> (r: Self) {
        mconcat_default(list, (T::mempty(),))
    }

    proof fn lemma_identity(a: T::Model) {
        T::lemma_identity(a);
    }
}

} // verus!
