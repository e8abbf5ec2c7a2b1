//! The `MaybeT` transformer: a computation that may exit without a value.
//!
//! A sequence of actions produces a value only if every action in it does; once one
//! exits, the rest of the sequence is skipped. The return and the bind work over any
//! inner monad; the other operations are given for the identity monad inside, where a
//! computation is a [`Maybe`] in [`Identity`].

use vstd::prelude::*;

use crate::base::data::functor::{ensures1, total1, within, AppA, ChainM, Functor, PureA};
use crate::base::data::identity::Identity;
use crate::base::data::maybe::Maybe;
use crate::base::data::pointed::Pointed;

verus! {

/// A computation in the monad `MA` whose value is a [`Maybe`].
#[derive(Debug, Default, Copy, Clone, PartialEq, Eq, PartialOrd, Ord, Hash)]
pub struct MaybeT<MA>(pub MA);

impl<MA> MaybeT<MA> {
    /// Lift a [`Maybe`] into the inner monad with its `pure_a`.
    pub fn new(t: MA::Pointed) -> (r: Self)
        where
            MA: PureA,
        ensures
            MA::pure_of(t, r.0),
    {
        MaybeT(MA::pure_a(t))
    }

    /// Extract the inner computation.
    pub fn run(self) -> (r: MA)
        ensures
            r == self.0,
    {
        self.0
    }

    /// Transform the inner computation: `m.map(f).run() == f(m.run())`.
    pub fn map<MB, F: Fn(MA) -> MB>(self, f: F) -> (r: MaybeT<MB>)
        requires
            call_requires(f, (self.0,)),
        ensures
            call_ensures(f, (self.0,), r.0),
    {
        MaybeT(f(self.0))
    }
}

impl<A> MaybeT<Identity<Maybe<A>>> {
    /// The monadic return: a computation that gives `t`.
    pub fn return_m(t: A) -> (r: Self)
        ensures
            r.0.0 == Maybe::Just(t),
    {
        MaybeT(Identity(Maybe::Just(t)))
    }

    /// Sequentially compose, discarding the value of `self`: `m >> n`.
    pub fn then_m<B>(self, n: MaybeT<Identity<Maybe<B>>>) -> (r: MaybeT<Identity<Maybe<B>>>)
        ensures
            r == (match self.0.0 {
                Maybe::Just(_) => n,
                Maybe::Nothing => MaybeT(Identity(Maybe::<B>::Nothing)),
            }),
    {
        match self.0.0 {
            Maybe::Just(_) => n,
            Maybe::Nothing => MaybeT(Identity(Maybe::Nothing)),
        }
    }
}

impl<MA: Pointed<Pointed = Maybe<A>>, A> Pointed for MaybeT<MA> {
    type Pointed = A;
}

impl<A, B> Functor<B> for MaybeT<Identity<Maybe<A>>> {
    type Mapped = MaybeT<Identity<Maybe<B>>>;

    open spec fn fmapped(x: Self, rel: spec_fn(A, B) -> bool, y: MaybeT<Identity<Maybe<B>>>) -> bool {
        <Maybe<A> as Functor<B>>::fmapped(x.0.0, rel, y.0.0)
    }

    fn fmap<F: Fn(A) -> B>(self, f: F) -> (r: MaybeT<Identity<Maybe<B>>>) {
        MaybeT(Identity(self.0.0.fmap(f)))
    }
}

impl<MA: PureA<Pointed = Maybe<A>>, A> PureA for MaybeT<MA> {
    /// The return of the inner monad, on `Just(t)`.
    open spec fn pure_of(t: A, r: Self) -> bool {
        MA::pure_of(Maybe::Just(t), r.0)
    }

    fn pure_a(t: A) -> (r: Self) {
        MaybeT(MA::pure_a(Maybe::Just(t)))
    }
}

impl<F, A, B> AppA<A, B> for MaybeT<Identity<Maybe<F>>> where F: Fn(A) -> B {
    type WithA = MaybeT<Identity<Maybe<A>>>;

    type WithB = MaybeT<Identity<Maybe<B>>>;

    open spec fn app_ok(f: Self) -> bool {
        f.0.0 matches Maybe::Just(g) ==> total1(g)
    }

    /// The functions are applied only when both computations give a value.
    open spec fn applied(f: Self, a: MaybeT<Identity<Maybe<A>>>, r: MaybeT<Identity<Maybe<B>>>) -> bool {
        match (f.0.0, a.0.0) {
            (Maybe::Just(g), Maybe::Just(x)) => r.0.0 matches Maybe::Just(y) && call_ensures(g, (x,), y),
            _ => r.0.0 is Nothing,
        }
    }

    fn app_a(self, mx: MaybeT<Identity<Maybe<A>>>) -> (r: MaybeT<Identity<Maybe<B>>>) {
        let mf = self.0.0;
        let res = match mf {
            Maybe::Nothing => Maybe::Nothing,
            Maybe::Just(f) => match mx.0.0 {
                Maybe::Nothing => Maybe::Nothing,
                Maybe::Just(x) => Maybe::Just(f(x)),
            },
        };
        MaybeT(Identity(res))
    }
}

/// What applying a function `g` held in `Just` does with a value of the argument's inner
/// monad: `Nothing` is returned as it is, and `Just(x)` becomes `Just` of a result of `g`.
pub open spec fn maybe_apply_step<A, B, G: Fn(A) -> B, MB: PureA<Pointed = Maybe<B>>>(g: G) -> spec_fn(
    Maybe<A>,
    MB,
) -> bool {
    |m: Maybe<A>, mb: MB|
        match m {
            Maybe::Nothing => MB::pure_of(Maybe::Nothing, mb),
            Maybe::Just(x) => exists|y: B| call_ensures(g, (x,), y) && #[trigger] MB::pure_of(Maybe::Just(y), mb),
        }
}

/// What sequential application does with a value of the functions' inner monad: `Nothing`
/// is returned as it is, so that the arguments' computation is not run; `Just(g)` runs a
/// clone of the arguments' computation `mx` and applies `g` to its value.
pub open spec fn maybe_app_step<A, B, G: Fn(A) -> B, MX, MB>(mx: MX) -> spec_fn(Maybe<G>, MB) -> bool
    where
        MX: Pointed<Pointed = Maybe<A>> + ChainM<Maybe<B>, Chained = MB> + Clone,
        MB: PureA<Pointed = Maybe<B>>,
{
    |m: Maybe<G>, mb: MB|
        match m {
            Maybe::Nothing => MB::pure_of(Maybe::Nothing, mb),
            Maybe::Just(g) => exists|c: MX, inner: spec_fn(Maybe<A>, MB) -> bool|
                #![trigger vstd::pervasive::cloned(mx, c), within(inner, maybe_apply_step(g))]
                vstd::pervasive::cloned(mx, c) && within(inner, maybe_apply_step(g))
                    && MX::chained(c, inner, mb),
        }
}

impl<MF> MaybeT<MF> {
    /// Sequential application over any inner monad: the functions' computation runs first;
    /// if it gives `Nothing` the rest is skipped, and otherwise the arguments' computation
    /// runs and the function is applied to its value.
    pub fn app_a<G: Fn(A) -> B, A, B, MX: Clone, MB>(self, mx: MaybeT<MX>) -> (r: MaybeT<MB>)
        where
            MF: Pointed<Pointed = Maybe<G>> + ChainM<Maybe<B>, Chained = MB>,
            MX: Pointed<Pointed = Maybe<A>> + ChainM<Maybe<B>, Chained = MB>,
            MB: PureA<Pointed = Maybe<B>>,
        requires
            forall|g: G, x: A| call_requires(g, (x,)),
        ensures
            exists|inner: spec_fn(Maybe<G>, MB) -> bool|
                #[trigger] within(inner, maybe_app_step(mx.0)) && MF::chained(self.0, inner, r.0),
    {
        let mx = mx.0;
        let k = |m: Maybe<G>| -> (mb: MB)
            ensures
                maybe_app_step::<A, B, G, MX, MB>(*&mx)(m, mb),
            {
                match m {
                    Maybe::Nothing => MB::pure_a(Maybe::Nothing),
                    Maybe::Just(g) => {
                        let c = mx.clone();
                        let ghost c0 = c;
                        let ghost g0 = g;
                        let k2 = move |m2: Maybe<A>| -> (mb: MB)
                            ensures
                                maybe_apply_step::<A, B, G, MB>(*&g)(m2, mb),
                            {
                                match m2 {
                                    Maybe::Nothing => MB::pure_a(Maybe::Nothing),
                                    Maybe::Just(x) => {
                                        let y = g(x);
                                        MB::pure_a(Maybe::Just(y))
                                    },
                                }
                            };
                        let mb = c.chain_m(k2);
                        proof {
                            assert(within(ensures1(k2), maybe_apply_step::<A, B, G, MB>(g0)));
                            assert(vstd::pervasive::cloned(*&mx, c0));
                        }
                        mb
                    },
                }
            };
        let r = self.0.chain_m(k);
        proof {
            assert(within(ensures1(k), maybe_app_step::<A, B, G, MX, MB>(mx)));
        }
        MaybeT(r)
    }
}

/// What the bind of [`MaybeT`] does with a value of the inner monad: `Nothing` is returned
/// as it is, in the inner monad, and `Just(a)` is passed to a function whose calls are
/// described by `rel`.
pub open spec fn maybe_step<A, MB: PureA<Pointed = Maybe<B>>, B>(
    rel: spec_fn(A, MaybeT<MB>) -> bool,
) -> spec_fn(Maybe<A>, MB) -> bool {
    |m: Maybe<A>, mb: MB|
        match m {
            Maybe::Nothing => MB::pure_of(Maybe::Nothing, mb),
            Maybe::Just(a) => rel(a, MaybeT(mb)),
        }
}

impl<MA, A, B, MB> ChainM<B> for MaybeT<MA> where
    MA: Pointed<Pointed = Maybe<A>> + ChainM<Maybe<B>, Chained = MB>,
    MB: PureA<Pointed = Maybe<B>>,
 {
    type Chained = MaybeT<MB>;

    /// The inner computations are bound through a function that returns `Nothing` and
    /// passes the value of `Just` on (`maybe_step`): once a computation exits, the rest of
    /// the sequence is skipped.
    open spec fn chained(x: Self, rel: spec_fn(A, MaybeT<MB>) -> bool, y: MaybeT<MB>) -> bool {
        exists|inner: spec_fn(Maybe<A>, MB) -> bool|
            #[trigger] within(inner, maybe_step(rel)) && MA::chained(x.0, inner, y.0)
    }

    fn chain_m<F: Fn(A) -> MaybeT<MB>>(self, f: F) -> (r: MaybeT<MB>) {
        let k = |m: Maybe<A>| -> (mb: MB)
            ensures
                match m {
                    Maybe::Nothing => MB::pure_of(Maybe::Nothing, mb),
                    Maybe::Just(a) => call_ensures(&f, (a,), MaybeT(mb)),
                },
            {
                match m {
                    Maybe::Nothing => MB::pure_a(Maybe::Nothing),
                    Maybe::Just(a) => f(a).0,
                }
            };
        let r = self.0.chain_m(k);
        proof {
            assert(within(ensures1(k), maybe_step(ensures1(f))));
        }
        MaybeT(r)
    }
}

} // verus!
