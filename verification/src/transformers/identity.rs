//! The identity transformer: a monad seen through a wrapper that adds nothing to it.

use vstd::prelude::*;

use crate::base::data::functor::{ensures1, total1, AppA, ChainM, Functor, PureA};
use crate::base::data::pointed::Pointed;
use crate::base::grl::io::IO;

use super::class::MonadTrans;

verus! {

/// The trivial transformer, which maps a monad to an equivalent one.
#[derive(Debug, Default, Copy, Clone, PartialEq, Eq, PartialOrd, Ord, Hash)]
pub struct IdentityT<MA>(pub MA);

impl<MA> IdentityT<MA> {
    /// Wrap a computation.
    pub fn new(ma: MA) -> (r: Self)
        ensures
            r.0 == ma,
    {
        IdentityT(ma)
    }

    /// The wrapped computation.
    pub fn run(self) -> (r: MA)
        ensures
            r == self.0,
    {
        self.0
    }

    /// Apply a function to the wrapped computation.
    pub fn map<MB, F: Fn(MA) -> MB>(self, f: F) -> (r: IdentityT<MB>)
        requires
            call_requires(f, (self.0,)),
        ensures
            call_ensures(f, (self.0,), r.0),
    {
        IdentityT(f(self.0))
    }
}

impl<K> IdentityT<IO<K>> {
    /// Lift an I/O action, as it is.
    pub fn lift_io(m: IO<K>) -> (r: Self)
        ensures
            r.0 == m,
    {
        IdentityT(m)
    }
}

impl<MA: Pointed> Pointed for IdentityT<MA> {
    type Pointed = MA::Pointed;
}

impl<MA: Functor<T>, T> Functor<T> for IdentityT<MA> {
    type Mapped = IdentityT<MA::Mapped>;

    open spec fn fmapped(x: Self, rel: spec_fn(MA::Pointed, T) -> bool, y: IdentityT<MA::Mapped>) -> bool {
        MA::fmapped(x.0, rel, y.0)
    }

    fn fmap<F: Fn(MA::Pointed) -> T>(self, f: F) -> (r: IdentityT<MA::Mapped>) {
        IdentityT(self.0.fmap(f))
    }
}

impl<MA: PureA> PureA for IdentityT<MA> {
    open spec fn pure_of(t: MA::Pointed, r: Self) -> bool {
        MA::pure_of(t, r.0)
    }

    fn pure_a(t: MA::Pointed) -> (r: Self) {
        IdentityT(MA::pure_a(t))
    }
}

impl<MF: AppA<A, B>, A, B> AppA<A, B> for IdentityT<MF> {
    type WithA = IdentityT<MF::WithA>;

    type WithB = IdentityT<MF::WithB>;

    open spec fn app_ok(f: Self) -> bool {
        MF::app_ok(f.0)
    }

    open spec fn applied(f: Self, a: IdentityT<MF::WithA>, r: IdentityT<MF::WithB>) -> bool {
        MF::applied(f.0, a.0, r.0)
    }

    fn app_a(self, a: IdentityT<MF::WithA>) -> (r: IdentityT<MF::WithB>) {
        IdentityT(self.0.app_a(a.0))
    }
}

/// Every pair related by `inner` comes from a pair related by `rel`, unwrapped.
pub open spec fn unwrapped_rel<A, MB>(
    rel: spec_fn(A, IdentityT<MB>) -> bool,
    inner: spec_fn(A, MB) -> bool,
) -> bool {
    forall|a: A, m: MB| #[trigger] inner(a, m) ==> rel(a, IdentityT(m))
}

impl<MA: ChainM<B>, B> ChainM<B> for IdentityT<MA> {
    type Chained = IdentityT<MA::Chained>;

    /// The wrapped computations are chained through a function each of whose results
    /// is an unwrapped result of the function given.
    open spec fn chained(
        x: Self,
        rel: spec_fn(MA::Pointed, IdentityT<MA::Chained>) -> bool,
        y: IdentityT<MA::Chained>,
    ) -> bool {
        exists|inner: spec_fn(MA::Pointed, MA::Chained) -> bool|
            #[trigger] unwrapped_rel(rel, inner) && MA::chained(x.0, inner, y.0)
    }

    fn chain_m<F: Fn(MA::Pointed) -> IdentityT<MA::Chained>>(self, f: F) -> (r: IdentityT<
        MA::Chained,
    >) {
        let k = |t: MA::Pointed| -> (m: MA::Chained)
            ensures
                call_ensures(&f, (t,), IdentityT(m)),
            {
                f(t).0
            };
        let r = self.0.chain_m(k);
        proof {
            assert(unwrapped_rel(ensures1(f), ensures1(k)));
        }
        IdentityT(r)
    }
}

impl<MA> MonadTrans<MA> for IdentityT<MA> {
    open spec fn lifted(m: MA, r: Self) -> bool {
        r.0 == m
    }

    fn lift(m: MA) -> (r: Self) {
        IdentityT(m)
    }
}

} // verus!
