//! State monads, passing an updatable state through a computation.
//!
//! A computation of `StateT<S, M, F>` is a function `F` from a state `S` to a computation
//! `M` of the inner monad. `fmap`, `chain_m`, `then_m` and `app_a` work over any inner
//! monad, through the inner monad's own bind and map, so that states stack over other
//! effects; a computation is then specified by `runs_to`. With the identity monad inside
//! (the alias [`State`]), a computation maps a state to a value and a new state; it is
//! specified by `runs`.

pub mod traverse;

use std::marker::PhantomData;

use vstd::prelude::*;

use crate::base::data::functor::{ensures1, total1, within, ChainM, Functor, PureA};
use crate::base::data::identity::Identity;
use crate::base::grl::io::IO;
use crate::logger::state_logging::WithState;

verus! {

/// A state transformer: a function from a state to a computation `M` in the inner monad.
///
/// `S` is the state and `F` the function, of type `Fn(S) -> M`.
pub struct StateT<S, M, F>(pub F, pub PhantomData<(S, M)>);

/// A state monad over the identity monad: a function from a state to a value and a new state.
pub type State<S, A, F> = StateT<S, Identity<(A, S)>, F>;

impl<S, M, F: Fn(S) -> M> StateT<S, M, F> {
    /// Whether the computation can be run from every state.
    #[verifier::inline]
    pub open spec fn total(&self) -> bool {
        forall|s: S| call_requires(self.0, (s,))
    }

    /// Whether running the computation from `s` may give `m`.
    #[verifier::inline]
    pub open spec fn runs_to(&self, s: S, m: M) -> bool {
        call_ensures(self.0, (s,), m)
    }

    /// Build a state transformer from a function.
    pub fn new_t(f: F) -> (r: Self)
        ensures
            r.0 == f,
    {
        StateT(f, PhantomData)
    }

    /// Run the computation from a state.
    pub fn run_t(&self, s: S) -> (r: M)
        requires
            call_requires(self.0, (s,)),
        ensures
            self.runs_to(s, r),
    {
        (self.0)(s)
    }

    /// Map the inner computation using the given function:
    /// `runStateT (mapStateT f m) = f . runStateT m`.
    pub fn map_t<N, G: Fn(M) -> N>(self, g: G) -> (r: StateT<S, N, impl Fn(S) -> N>)
        requires
            self.total(),
            total1(g),
        ensures
            r.total(),
            forall|s: S, n: N| #[trigger] r.runs_to(s, n) ==> exists|m: M|
                #[trigger] self.runs_to(s, m) && call_ensures(g, (m,), n),
    {
        let f = self.0;
        let h = move |s: S| -> (n: N)
            ensures
                exists|m: M| #[trigger] call_ensures(&f, (s,), m) && call_ensures(&g, (m,), n),
            {
                let m = f(s);
                g(m)
            };
        StateT(h, PhantomData)
    }

    /// Run the computation on a state modified by `g`:
    /// `withStateT f m = modify f >> m`.
    pub fn with_t<G: Fn(S) -> S>(self, g: G) -> (r: StateT<S, M, impl Fn(S) -> M>)
        requires
            self.total(),
            total1(g),
        ensures
            r.total(),
            forall|s: S, m: M| #[trigger] r.runs_to(s, m) ==> exists|s1: S|
                #[trigger] call_ensures(g, (s,), s1) && self.runs_to(s1, m),
    {
        let f = self.0;
        let h = move |s: S| -> (m: M)
            ensures
                exists|s1: S| #[trigger] call_ensures(&g, (s,), s1) && call_ensures(&f, (s1,), m),
            {
                let s1 = g(s);
                f(s1)
            };
        StateT(h, PhantomData)
    }
}

impl<S, A, F: Fn(S) -> Identity<(A, S)>> StateT<S, Identity<(A, S)>, F> {
    /// Whether running from `s` may give the value `a` and the final state `s2`.
    #[verifier::inline]
    pub open spec fn runs(&self, s: S, a: A, s2: S) -> bool {
        call_ensures(self.0, (s,), Identity((a, s2)))
    }

    /// Run a state computation from an initial state, giving the value and the final state.
    pub fn run(&self, s: S) -> (r: (A, S))
        requires
            self.total(),
        ensures
            self.runs(s, r.0, r.1),
    {
        (self.0)(s).run()
    }

    /// Run a state computation and keep its value: `evalState m s = fst (runState m s)`.
    pub fn eval(&self, s: S) -> (a: A)
        requires
            self.total(),
        ensures
            exists|s2: S| self.runs(s, a, s2),
    {
        self.run(s).0
    }

    /// Run a state computation and keep its final state: `execState m s = snd (runState m s)`.
    pub fn exec(&self, s: S) -> (s2: S)
        requires
            self.total(),
        ensures
            exists|a: A| self.runs(s, a, s2),
    {
        self.run(s).1
    }

    /// `eval`, with the value in the identity monad.
    pub fn eval_t(&self, s: S) -> (r: Identity<A>)
        requires
            self.total(),
        ensures
            exists|s2: S| self.runs(s, r.0, s2),
    {
        let p = self.run(s);
        let res = Identity(p.0);
        assert(self.runs(s, res.0, p.1));
        res
    }

    /// `exec`, with the final state in the identity monad.
    pub fn exec_t(&self, s: S) -> (r: Identity<S>)
        requires
            self.total(),
        ensures
            exists|a: A| self.runs(s, a, r.0),
    {
        let p = self.run(s);
        let res = Identity(p.1);
        assert(self.runs(s, p.0, res.0));
        res
    }

    /// Map the value and final state of a computation: `runState (mapState f m) = f . runState m`.
    pub fn map<B, G: Fn((A, S)) -> (B, S)>(self, g: G) -> (r: State<S, B, impl Fn(S) -> Identity<(B, S)>>)
        requires
            self.total(),
            total1(g),
        ensures
            r.total(),
            forall|s: S, b: B, s2: S| #[trigger] r.runs(s, b, s2) ==> exists|a: A, s1: S|
                #[trigger] self.runs(s, a, s1) && call_ensures(g, ((a, s1),), (b, s2)),
    {
        let f = self.0;
        let h = move |s: S| -> (o: Identity<(B, S)>)
            ensures
                exists|a: A, s1: S| #[trigger] call_ensures(&f, (s,), Identity((a, s1))) && call_ensures(&g, ((a, s1),), o.0),
            {
                let o = f(s);
                let p = o.0;
                proof {
                    assert(call_ensures(&f, (s,), Identity((p.0, p.1))));
                }
                Identity(g(p))
            };
        StateT(h, PhantomData)
    }

    /// Run the computation on a state modified by `g`: `withState f m = modify f >> m`.
    pub fn with<G: Fn(S) -> S>(self, g: G) -> (r: State<S, A, impl Fn(S) -> Identity<(A, S)>>)
        requires
            self.total(),
            total1(g),
        ensures
            r.total(),
            forall|s: S, a: A, s2: S| #[trigger] r.runs(s, a, s2) ==> exists|s1: S|
                #[trigger] call_ensures(g, (s,), s1) && self.runs(s1, a, s2),
    {
        self.with_t(g)
    }
}


/// What the bind of [`StateT`] does with a value and a state given by the first
/// computation: the value goes to a function whose calls are described by `krel`, and the
/// computation it gives runs from that state.
pub open spec fn state_step<S, A, MB, G: Fn(S) -> MB>(krel: spec_fn(A, StateT<S, MB, G>) -> bool) -> spec_fn(
    (A, S),
    MB,
) -> bool {
    |p: (A, S), mb: MB| exists|n: StateT<S, MB, G>| #[trigger] krel(p.0, n) && n.runs_to(p.1, mb)
}

/// What `then_m` does with a value and a state given by the first computation: the value
/// is dropped and `n` runs from that state.
pub open spec fn then_step<S, A, MB, G: Fn(S) -> MB>(n: StateT<S, MB, G>) -> spec_fn((A, S), MB) -> bool {
    |p: (A, S), mb: MB| n.runs_to(p.1, mb)
}

/// What `fmap` does with a value and a state: the value goes through a function whose
/// calls are described by `grel`, and the state is kept.
pub open spec fn value_step<S, A, B>(grel: spec_fn(A, B) -> bool) -> spec_fn((A, S), (B, S)) -> bool {
    |p: (A, S), q: (B, S)| grel(p.0, q.0) && q.1 == p.1
}

/// What sequential application does with a function and a state given by the first
/// computation: the arguments' computation `mx` runs from that state, and the function is
/// applied to its value.
pub open spec fn app_state_step<S, H: Fn(A) -> B, A, B, MX, MB, G: Fn(S) -> MX>(mx: StateT<S, MX, G>) -> spec_fn(
    (H, S),
    MB,
) -> bool
    where
        MX: Functor<(B, S), Pointed = (A, S), Mapped = MB>,
{
    |p: (H, S), mb: MB|
        exists|ma: MX, inner: spec_fn((A, S), (B, S)) -> bool|
            #![trigger mx.runs_to(p.1, ma), within(inner, value_step(ensures1(p.0)))]
            mx.runs_to(p.1, ma) && within(inner, value_step(ensures1(p.0))) && MX::fmapped(ma, inner, mb)
}

impl<S, M, F: Fn(S) -> M> StateT<S, M, F> {
    /// Map a function over the value of the computation, over any inner functor; the state
    /// is left as the computation leaves it.
    pub fn fmap<A, B, MB, G: Fn(A) -> B>(self, g: G) -> (r: StateT<S, MB, impl Fn(S) -> MB>)
        where
            M: Functor<(B, S), Pointed = (A, S), Mapped = MB>,
        requires
            self.total(),
            total1(g),
        ensures
            r.total(),
            forall|s: S, mb: MB| #[trigger] r.runs_to(s, mb) ==> exists|ma: M, inner: spec_fn((A, S), (B, S)) -> bool|
                #![trigger self.runs_to(s, ma), within(inner, value_step(ensures1(g)))]
                self.runs_to(s, ma) && within(inner, value_step(ensures1(g))) && M::fmapped(ma, inner, mb),
    {
        let f = self.0;
        let h = move |s: S| -> (mb: MB)
            ensures
                exists|ma: M, inner: spec_fn((A, S), (B, S)) -> bool|
                    #![trigger call_ensures(&f, (s,), ma), within(inner, value_step(ensures1(*&g)))]
                    call_ensures(&f, (s,), ma) && within(inner, value_step(ensures1(*&g))) && M::fmapped(ma, inner, mb),
            {
                let ma = f(s);
                let ghost ma0 = ma;
                let k = |p: (A, S)| -> (q: (B, S))
                    ensures
                        call_ensures(&g, (p.0,), q.0) && q.1 == p.1,
                    {
                        let (a, s1) = p;
                        (g(a), s1)
                    };
                let mb = ma.fmap(k);
                proof {
                    assert(within(ensures1(k), value_step::<S, A, B>(ensures1(*&g))));
                    assert(call_ensures(&f, (s,), ma0));
                }
                mb
            };
        StateT(h, PhantomData)
    }

    /// Sequentially compose over any inner monad: run `self`, pass its value to `k`, and
    /// run the computation that `k` gives from the state that `self` left, all bound in the
    /// inner monad.
    pub fn chain_m<A, B, MB, G: Fn(S) -> MB, K: Fn(A) -> StateT<S, MB, G>>(self, k: K) -> (r: StateT<
        S,
        MB,
        impl Fn(S) -> MB,
    >)
        where
            M: ChainM<(B, S), Pointed = (A, S), Chained = MB>,
        requires
            self.total(),
            total1(k),
            forall|a: A, n: StateT<S, MB, G>| #[trigger] call_ensures(k, (a,), n) ==> n.total(),
        ensures
            r.total(),
            forall|s: S, mb: MB| #[trigger] r.runs_to(s, mb) ==> exists|ma: M, inner: spec_fn((A, S), MB) -> bool|
                #![trigger self.runs_to(s, ma), within(inner, state_step(ensures1(k)))]
                self.runs_to(s, ma) && within(inner, state_step(ensures1(k))) && M::chained(ma, inner, mb),
    {
        let f = self.0;
        let h = move |s: S| -> (mb: MB)
            ensures
                exists|ma: M, inner: spec_fn((A, S), MB) -> bool|
                    #![trigger call_ensures(&f, (s,), ma), within(inner, state_step(ensures1(*&k)))]
                    call_ensures(&f, (s,), ma) && within(inner, state_step(ensures1(*&k))) && M::chained(ma, inner, mb),
            {
                let ma = f(s);
                let ghost ma0 = ma;
                let k2 = |p: (A, S)| -> (mb: MB)
                    ensures
                        exists|n: StateT<S, MB, G>| #[trigger] call_ensures(&k, (p.0,), n) && call_ensures(n.0, (p.1,), mb),
                    {
                        let (a, s1) = p;
                        let n = k(a);
                        (n.0)(s1)
                    };
                let mb = ma.chain_m(k2);
                proof {
                    assert forall|p: (A, S), mb: MB| #[trigger] ensures1(k2)(p, mb) implies state_step::<S, A, MB, G>(
                        ensures1(*&k),
                    )(p, mb) by {
                        let n = choose|n: StateT<S, MB, G>| #[trigger] call_ensures(&k, (p.0,), n) && call_ensures(n.0, (p.1,), mb);
                        assert(ensures1(*&k)(p.0, n));
                    }
                    assert(within(ensures1(k2), state_step::<S, A, MB, G>(ensures1(*&k))));
                    assert(call_ensures(&f, (s,), ma0));
                }
                mb
            };
        StateT(h, PhantomData)
    }

    /// Sequentially compose over any inner monad, discarding the value of `self`: `m >> n`.
    pub fn then_m<A, B, MB, G: Fn(S) -> MB>(self, n: StateT<S, MB, G>) -> (r: StateT<S, MB, impl Fn(S) -> MB>)
        where
            M: ChainM<(B, S), Pointed = (A, S), Chained = MB>,
        requires
            self.total(),
            n.total(),
        ensures
            r.total(),
            forall|s: S, mb: MB| #[trigger] r.runs_to(s, mb) ==> exists|ma: M, inner: spec_fn((A, S), MB) -> bool|
                #![trigger self.runs_to(s, ma), within(inner, then_step::<S, A, MB, G>(n))]
                self.runs_to(s, ma) && within(inner, then_step::<S, A, MB, G>(n)) && M::chained(ma, inner, mb),
    {
        let f = self.0;
        let g = n.0;
        let h = move |s: S| -> (mb: MB)
            ensures
                exists|ma: M, inner: spec_fn((A, S), MB) -> bool|
                    #![trigger call_ensures(&f, (s,), ma), within(inner, then_step::<S, A, MB, G>(StateT(*&g, PhantomData)))]
                    call_ensures(&f, (s,), ma) && within(inner, then_step::<S, A, MB, G>(StateT(*&g, PhantomData)))
                        && M::chained(ma, inner, mb),
            {
                let ma = f(s);
                let ghost ma0 = ma;
                let k2 = |p: (A, S)| -> (mb: MB)
                    ensures
                        call_ensures(&g, (p.1,), mb),
                    {
                        let (_a, s1) = p;
                        g(s1)
                    };
                let mb = ma.chain_m(k2);
                proof {
                    assert(within(ensures1(k2), then_step::<S, A, MB, G>(StateT(*&g, PhantomData))));
                    assert(call_ensures(&f, (s,), ma0));
                }
                mb
            };
        proof {
            assert(n == StateT::<S, MB, G>(g, PhantomData));
        }
        StateT(h, PhantomData)
    }

    /// Sequential application over any inner monad: run `self` for a function, then `mx`
    /// for its argument from the state that `self` left, and apply the one to the other.
    pub fn app_a<H: Fn(A) -> B, A, B, MX, MB, G: Fn(S) -> MX>(self, mx: StateT<S, MX, G>) -> (r: StateT<
        S,
        MB,
        impl Fn(S) -> MB,
    >)
        where
            M: ChainM<(B, S), Pointed = (H, S), Chained = MB>,
            MX: Functor<(B, S), Pointed = (A, S), Mapped = MB>,
        requires
            self.total(),
            mx.total(),
            forall|h: H, a: A| call_requires(h, (a,)),
        ensures
            r.total(),
            forall|s: S, mb: MB| #[trigger] r.runs_to(s, mb) ==> exists|mf: M, inner: spec_fn((H, S), MB) -> bool|
                #![trigger self.runs_to(s, mf), within(inner, app_state_step::<S, H, A, B, MX, MB, G>(mx))]
                self.runs_to(s, mf) && within(inner, app_state_step::<S, H, A, B, MX, MB, G>(mx)) && M::chained(
                    mf,
                    inner,
                    mb,
                ),
    {
        let f = self.0;
        let g = mx.0;
        let h = move |s: S| -> (mb: MB)
            ensures
                exists|mf: M, inner: spec_fn((H, S), MB) -> bool|
                    #![trigger call_ensures(&f, (s,), mf), within(inner, app_state_step::<S, H, A, B, MX, MB, G>(StateT(*&g, PhantomData)))]
                    call_ensures(&f, (s,), mf) && within(inner, app_state_step::<S, H, A, B, MX, MB, G>(StateT(*&g, PhantomData)))
                        && M::chained(mf, inner, mb),
            {
                let mf = f(s);
                let ghost mf0 = mf;
                let k2 = |p: (H, S)| -> (mb: MB)
                    ensures
                        app_state_step::<S, H, A, B, MX, MB, G>(StateT(*&g, PhantomData))(p, mb),
                    {
                        let (hh, s1) = p;
                        let ghost hh0 = hh;
                        let ma = g(s1);
                        let ghost ma0 = ma;
                        let k3 = move |q: (A, S)| -> (o: (B, S))
                            ensures
                                call_ensures(*&hh, (q.0,), o.0) && o.1 == q.1,
                            {
                                let (a, s2) = q;
                                (hh(a), s2)
                            };
                        let mb = ma.fmap(k3);
                        proof {
                            assert(within(ensures1(k3), value_step::<S, A, B>(ensures1(hh0))));
                            assert(StateT::<S, MX, G>(*&g, PhantomData).runs_to(s1, ma0));
                        }
                        mb
                    };
                let mb = mf.chain_m(k2);
                proof {
                    assert(within(ensures1(k2), app_state_step::<S, H, A, B, MX, MB, G>(StateT(*&g, PhantomData))));
                    assert(call_ensures(&f, (s,), mf0));
                }
                mb
            };
        proof {
            assert(mx == StateT::<S, MX, G>(g, PhantomData));
        }
        StateT(h, PhantomData)
    }
}

impl<S, M: PureA> StateT<S, M, ()> {
    /// Embed a function of the state into the inner monad `M`:
    /// `runStateT (state f) = return . f`.
    pub fn new<A, G: Fn(S) -> (A, S)>(g: G) -> (r: StateT<S, M, impl Fn(S) -> M>)
        where
            M: PureA<Pointed = (A, S)>,
        requires
            total1(g),
        ensures
            r.total(),
            forall|s: S, m: M| #[trigger] r.runs_to(s, m) ==> exists|o: (A, S)|
                call_ensures(g, (s,), o) && #[trigger] M::pure_of(o, m),
    {
        let h = move |s: S| -> (m: M)
            ensures
                exists|o: (A, S)| call_ensures(&g, (s,), o) && #[trigger] M::pure_of(o, m),
            {
                let o = g(s);
                M::pure_a(o)
            };
        StateT(h, PhantomData)
    }

    /// Fetch the state, in the inner monad `M`: the value is a clone of the state, which
    /// is left unchanged.
    pub fn get() -> (r: StateT<S, M, impl Fn(S) -> M>)
        where
            S: Clone,
            M: PureA<Pointed = (S, S)>,
        ensures
            r.total(),
            forall|s: S, m: M| #[trigger] r.runs_to(s, m) ==> exists|c: S|
                vstd::pervasive::cloned(s, c) && #[trigger] M::pure_of((c, s), m),
    {
        let h = |s: S| -> (m: M)
            ensures
                exists|c: S| vstd::pervasive::cloned(s, c) && #[trigger] M::pure_of((c, s), m),
            {
                let c = s.clone();
                M::pure_a((c, s))
            };
        StateT(h, PhantomData)
    }

    /// Replace the state with a clone of `s`, in the inner monad `M`; the previous state
    /// is discarded.
    pub fn put(s: S) -> (r: StateT<S, M, impl Fn(S) -> M>)
        where
            S: Clone,
            M: PureA<Pointed = ((), S)>,
        ensures
            r.total(),
            forall|s0: S, m: M| #[trigger] r.runs_to(s0, m) ==> exists|c: S|
                vstd::pervasive::cloned(s, c) && #[trigger] M::pure_of(((), c), m),
    {
        let h = move |_s0: S| -> (m: M)
            ensures
                exists|c: S| vstd::pervasive::cloned(*&s, c) && #[trigger] M::pure_of(((), c), m),
            {
                let c = s.clone();
                M::pure_a(((), c))
            };
        StateT(h, PhantomData)
    }
}

impl<S> StateT<S, (), ()> {
    /// Lift an I/O action: from each state `s`, the computation performs `m` and pairs its
    /// value with `s`, which it leaves unchanged.
    pub fn lift_io<K: Copy>(m: IO<K>) -> (r: StateT<S, WithState<IO<K>, S>, impl Fn(S) -> WithState<IO<K>, S>>)
        ensures
            r.total(),
            forall|s: S, x: WithState<IO<K>, S>| #[trigger] r.runs_to(s, x) ==> x == WithState(m, s),
    {
        let h = move |s: S| -> (x: WithState<IO<K>, S>)
            ensures
                x == WithState(m, s),
            {
                WithState(m, s)
            };
        StateT(h, PhantomData)
    }

    /// Build a state computation from a function of the state:
    /// `runState (state f) = f`.
    pub fn new<A, G: Fn(S) -> (A, S)>(g: G) -> (r: State<S, A, impl Fn(S) -> Identity<(A, S)>>)
        requires
            total1(g),
        ensures
            r.total(),
            forall|s: S, a: A, s2: S| #[trigger] r.runs(s, a, s2) ==> call_ensures(g, (s,), (a, s2)),
    {
        let h = move |s: S| -> (o: Identity<(A, S)>)
            ensures
                call_ensures(&g, (s,), o.0),
            {
                Identity(g(s))
            };
        StateT(h, PhantomData)
    }

    /// Lift a computation of the inner monad: from each state, the computation gives the
    /// value of `m` and leaves the state as it is.
    pub fn lift<A: Copy>(m: Identity<A>) -> (r: State<S, A, impl Fn(S) -> Identity<(A, S)>>)
        ensures
            r.total(),
            forall|s: S, b: A, s2: S| #[trigger] r.runs(s, b, s2) ==> b == m.0 && s2 == s,
    {
        Self::pure_a(m.0)
    }

    /// A computation that leaves the state as it is and gives `a` (the monadic return).
    pub fn pure_a<A: Copy>(a: A) -> (r: State<S, A, impl Fn(S) -> Identity<(A, S)>>)
        ensures
            r.total(),
            forall|s: S, b: A, s2: S| #[trigger] r.runs(s, b, s2) ==> b == a && s2 == s,
    {
        let h = move |s: S| -> (o: Identity<(A, S)>)
            ensures
                o == Identity((a, s)),
            {
                Identity((a, s))
            };
        StateT(h, PhantomData)
    }

    /// The monadic return: the same as [`StateT::pure_a`].
    pub fn return_m<A: Copy>(a: A) -> (r: State<S, A, impl Fn(S) -> Identity<(A, S)>>)
        ensures
            r.total(),
            forall|s: S, b: A, s2: S| #[trigger] r.runs(s, b, s2) ==> b == a && s2 == s,
    {
        Self::pure_a(a)
    }

    /// Fetch the current value of the state, leaving it unchanged.
    pub fn get() -> (r: State<S, S, impl Fn(S) -> Identity<(S, S)>>)
        where
            S: Clone,
        ensures
            r.total(),
            forall|s: S, a: S, s2: S| #[trigger] r.runs(s, a, s2) ==> vstd::pervasive::cloned(s, a)
                && s2 == s,
    {
        let h = |s: S| -> (o: Identity<(S, S)>)
            ensures
                vstd::pervasive::cloned(s, o.0.0) && o.0.1 == s,
            {
                let c = s.clone();
                Identity((c, s))
            };
        StateT(h, PhantomData)
    }

    /// Replace the state with `s`.
    pub fn put(s: S) -> (r: State<S, (), impl Fn(S) -> Identity<((), S)>>)
        where
            S: Clone,
        ensures
            r.total(),
            forall|s0: S, u: (), s2: S| #[trigger] r.runs(s0, u, s2) ==> vstd::pervasive::cloned(s, s2),
    {
        let h = move |_s0: S| -> (o: Identity<((), S)>)
            ensures
                vstd::pervasive::cloned(*&s, o.0.1),
            {
                Identity(((), s.clone()))
            };
        StateT(h, PhantomData)
    }

    /// Update the state with `f`: `modify f = get >>= (put . f)`.
    pub fn modify<G: Fn(S) -> S>(g: G) -> (r: State<S, (), impl Fn(S) -> Identity<((), S)>>)
        requires
            total1(g),
        ensures
            r.total(),
            forall|s: S, u: (), s2: S| #[trigger] r.runs(s, u, s2) ==> call_ensures(g, (s,), s2),
    {
        let h = move |s: S| -> (o: Identity<((), S)>)
            ensures
                call_ensures(&g, (s,), o.0.1),
            {
                Identity(((), g(s)))
            };
        StateT(h, PhantomData)
    }

    /// Update the state with a computation in the inner monad.
    pub fn modify_m<G: Fn(S) -> Identity<S>>(g: G) -> (r: State<S, (), impl Fn(S) -> Identity<((), S)>>)
        requires
            total1(g),
        ensures
            r.total(),
            forall|s: S, u: (), s2: S| #[trigger] r.runs(s, u, s2) ==> call_ensures(g, (s,), Identity(s2)),
    {
        let h = move |s: S| -> (o: Identity<((), S)>)
            ensures
                call_ensures(&g, (s,), Identity(o.0.1)),
            {
                let Identity(s2) = g(s);
                Identity(((), s2))
            };
        StateT(h, PhantomData)
    }

    /// Get a component of the state with a projection, leaving the state unchanged:
    /// `gets f = liftM f get`.
    pub fn gets<A, G: Fn(S) -> A>(g: G) -> (r: State<S, A, impl Fn(S) -> Identity<(A, S)>>)
        where
            S: Clone,
        requires
            total1(g),
        ensures
            r.total(),
            forall|s: S, a: A, s2: S| #[trigger] r.runs(s, a, s2) ==> s2 == s && exists|c: S|
                vstd::pervasive::cloned(s, c) && #[trigger] call_ensures(g, (c,), a),
    {
        let h = move |s: S| -> (o: Identity<(A, S)>)
            ensures
                o.0.1 == s && exists|c: S| vstd::pervasive::cloned(*&s, c) && #[trigger] call_ensures(&g, (c,), o.0.0),
            {
                let c = s.clone();
                let ghost cc = c;
                let a = g(c);
                let o = Identity((a, s));
                proof {
                    assert(call_ensures(&g, (cc,), o.0.0));
                }
                o
            };
        StateT(h, PhantomData)
    }
}

} // verus!
