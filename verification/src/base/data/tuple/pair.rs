//! Pairs, as functors over their second component.

use vstd::prelude::*;

use crate::base::data::bifunctor::{
    bifoldl_rel, bifoldr_rel, either_step_l, either_step_r, Bifmap, Bifoldable, Bifunctor,
    Bipointed,
};
use crate::base::data::either::Either;
use crate::base::data::functor::{
    ensures1, ensures2, foldl_chain, foldl_rel, foldr_chain, foldr_rel, total1, total2, AppA,
    Foldable, Functor, PureA,
};
use crate::base::data::monoid::Monoid;
use crate::base::data::pointed::Pointed;
use crate::base::data::semigroup::Semigroup;
use crate::base::data::traversable::{SequenceA, TraverseT};

verus! {

/// Construction and projection of pairs.
pub trait Pair<L, R>: Sized {
    /// The components of `x`.
    spec fn parts(x: Self) -> (L, R);

    /// Build a pair.
    fn pair(l: L, r: R) -> (p: Self)
        ensures
            Self::parts(p) == (l, r),
    ;

    /// The first component.
    fn fst(self) -> (l: L)
        ensures
            l == Self::parts(self).0,
    ;

    /// The second component.
    fn snd(self) -> (r: R)
        ensures
            r == Self::parts(self).1,
    ;
}

impl<L, R> Pair<L, R> for (L, R) {
    open spec fn parts(x: (L, R)) -> (L, R) {
        x
    }

    fn pair(l: L, r: R) -> (p: Self) {
        (l, r)
    }

    fn fst(self) -> (l: L) {
        self.0
    }

    fn snd(self) -> (r: R) {
        self.1
    }
}

impl<L, R> Pointed for (L, R) {
    type Pointed = R;
}

impl<L, R> Bipointed for (L, R) {
    type Bipointed = L;
}

impl<L, R, U> Functor<U> for (L, R) {
    type Mapped = (L, U);

    open spec fn fmapped(x: (L, R), rel: spec_fn(R, U) -> bool, y: (L, U)) -> bool {
        y.0 == x.0 && rel(x.1, y.1)
    }

    fn fmap<F: Fn(R) -> U>(self, f: F) -> (r: (L, U)) {
        (self.0, f(self.1))
    }
}

impl<L: Monoid, R> PureA for (L, R) {
    open spec fn pure_of(t: R, r: (L, R)) -> bool {
        r.0.model() == L::empty_model() && r.1 == t
    }

    fn pure_a(t: R) -> (r: (L, R)) {
        (L::mempty(), t)
    }
}

impl<M: Semigroup, FR, AR, BR> AppA<AR, BR> for (M, FR) where FR: Fn(AR) -> BR {
    type WithA = (M, AR);

    type WithB = (M, BR);

    open spec fn app_ok(f: (M, FR)) -> bool {
        total1(f.1) && forall|m: M| #[trigger] M::combinable(f.0.model(), m.model())
    }

    open spec fn applied(f: (M, FR), a: (M, AR), r: (M, BR)) -> bool {
        r.0.model() == M::combine(f.0.model(), a.0.model()) && call_ensures(f.1, (a.1,), r.1)
    }

    fn app_a(self, a: (M, AR)) -> (r: (M, BR)) {
        let (u, f) = self;
        let (v, x) = a;
        (u.assoc_s(v), f(x))
    }
}

impl<L, R> Foldable for (L, R) {
    open spec fn elements(x: (L, R)) -> Seq<R> {
        seq![x.1]
    }

    open spec fn elements_l(x: (L, R)) -> Seq<R> {
        Self::elements(x)
    }

    fn foldr<U, F: Fn(R, U) -> U>(self, f: F, z: U) -> (r: U) {
        let ghost zz = z;
        let x = self.1;
        let r = f(x, z);
        proof {
            assert(foldr_chain(seq![x], ensures2(f), zz, seq![r, zz]));
        }
        r
    }

    fn foldl<U, F: Fn(U, R) -> U>(self, f: F, z: U) -> (r: U) {
        let ghost zz = z;
        let y = self.1;
        let r = f(z, y);
        proof {
            assert(foldl_chain(seq![y], ensures2(f), zz, seq![zz, r]));
        }
        r
    }
}

impl<L, R, L2> Bifmap<L2> for (L, R) {
    type WithBipointed = (L2, R);

    open spec fn bifmapped(x: (L, R), rel: spec_fn(L, L2) -> bool, y: (L2, R)) -> bool {
        rel(x.0, y.0) && y.1 == x.1
    }

    fn bifmap<F: Fn(L) -> L2>(self, f: F) -> (r: (L2, R)) {
        (f(self.0), self.1)
    }
}

impl<L, R, L2, R2> Bifunctor<L2, R2> for (L, R) {
    type Bimapped = (L2, R2);

    open spec fn bimapped(
        x: (L, R),
        ra: spec_fn(L, L2) -> bool,
        rb: spec_fn(R, R2) -> bool,
        y: (L2, R2),
    ) -> bool {
        ra(x.0, y.0) && rb(x.1, y.1)
    }

    fn bimap<FA: Fn(L) -> L2, FB: Fn(R) -> R2>(self, fa: FA, fb: FB) -> (r: (L2, R2)) {
        self.bifmap(fa).fmap(fb)
    }
}

impl<L, R> Bifoldable<L, R> for (L, R) {
    open spec fn bi_elements_r(x: (L, R)) -> Seq<Either<L, R>> {
        seq![Either::Right(x.1), Either::Left(x.0)]
    }

    open spec fn bi_elements_l(x: (L, R)) -> Seq<Either<L, R>> {
        seq![Either::Left(x.0), Either::Right(x.1)]
    }

    fn bifoldr<T, FA: Fn(L, T) -> T, FB: Fn(R, T) -> T>(self, fa: FA, fb: FB, z: T) -> (r: T) {
        let ghost zz = z;
        let (a, b) = self;
        let m = fa(a, z);
        let r = fb(b, m);
        proof {
            let s = seq![Either::<L, R>::Right(b), Either::Left(a)];
            assert(either_step_r(ensures2(fa), ensures2(fb))(s[1], zz, m));
            assert(either_step_r(ensures2(fa), ensures2(fb))(s[0], m, r));
            assert(foldr_chain(s, either_step_r(ensures2(fa), ensures2(fb)), zz, seq![r, m, zz]));
        }
        r
    }

    fn bifoldl<T, FA: Fn(T, L) -> T, FB: Fn(T, R) -> T>(self, fa: FA, fb: FB, z: T) -> (r: T) {
        let ghost zz = z;
        let (a, b) = self;
        let m = fa(z, a);
        let r = fb(m, b);
        proof {
            let s = seq![Either::<L, R>::Left(a), Either::Right(b)];
            assert(either_step_l(ensures2(fa), ensures2(fb))(zz, s[0], m));
            assert(either_step_l(ensures2(fa), ensures2(fb))(m, s[1], r));
            assert(foldl_chain(s, either_step_l(ensures2(fa), ensures2(fb)), zz, seq![zz, m, r]));
        }
        r
    }
}

impl<L, T> SequenceA<Option<(L, T)>> for (L, Option<T>) {
    /// The pair with its second component's value, if it is present, and `None` otherwise.
    open spec fn sequenced(x: (L, Option<T>), r: Option<(L, T)>) -> bool {
        match x.1 {
            Some(t) => r == Some((x.0, t)),
            None => r is None,
        }
    }

    fn sequence_a(self) -> (r: Option<(L, T)>) {
        let (l, o) = self;
        match o {
            Some(t) => Some((l, t)),
            None => None,
        }
    }
}

impl<L, T, U> TraverseT<T, Option<U>, Option<(L, U)>> for (L, T) {
    /// The action runs on the second component; its value, if any, is paired with the first.
    open spec fn traversed(x: (L, T), rel: spec_fn(T, Option<U>) -> bool, r: Option<(L, U)>) -> bool {
        exists|m: Option<U>|
            #[trigger] rel(x.1, m) && match m {
                Some(u) => r == Some((x.0, u)),
                None => r is None,
            }
    }

    fn traverse_t<F: Fn(T) -> Option<U>>(self, f: F) -> (r: Option<(L, U)>) {
        let (l, t) = self;
        let ghost t0 = t;
        let m = f(t);
        let ghost m0 = m;
        let r = match m {
            Some(u) => Some((l, u)),
            None => None,
        };
        proof {
            let rel = |a: T, n: Option<U>| call_ensures(f, (a,), n);
            assert(rel(t0, m0));
        }
        r
    }
}

} // verus!
