//! Logging with a state: computations that read a logger and thread a state, such as the
//! depth of indentation that every message is logged with.
//!
//! A computation of `StateLogger<LVL, MSG, S, H, G, F>` is a function `F` of a logger `G`
//! and a state `S` that builds an [`Action`] producing a value and the new state. The
//! logger gets each message with the state at the time it is logged. This is a state
//! transformer over the logging monad, with the two layers run together: the action of a
//! computation, run with a logger from a state, is what running its logging computation from
//! that state with that logger builds.

use std::marker::PhantomData;

use vstd::prelude::*;

use crate::base::data::functor::total1;
use crate::base::grl::io::IO;

use super::level::Level;
use super::{logger_ok, Action, LoggingT, Pure};

verus! {

/// An action that performs an action and pairs what it produces with a state.
pub struct WithState<X, S>(pub X, pub S);

impl<X: Action, S> Action for WithState<X, S> {
    type Output = (X::Output, S);

    open spec fn runnable(x: Self) -> bool {
        X::runnable(x.0)
    }

    open spec fn yields(x: Self, o: (X::Output, S)) -> bool {
        X::yields(x.0, o.0) && o.1 == x.1
    }

    fn perform(self) -> (o: (X::Output, S)) {
        let WithState(x, s) = self;
        (x.perform(), s)
    }
}

/// An action that performs an action giving a value and a state, and produces the value.
pub struct First<X>(pub X);

impl<X: Action<Output = (A, S)>, A, S> Action for First<X> {
    type Output = A;

    open spec fn runnable(x: Self) -> bool {
        X::runnable(x.0)
    }

    open spec fn yields(x: Self, a: A) -> bool {
        exists|s: S| X::yields(x.0, (a, s))
    }

    fn perform(self) -> (a: A) {
        let (a, _s) = self.0.perform();
        a
    }
}

/// An action that performs an action giving a value and a state, and applies `M` to the
/// value.
pub struct MapFst<X, M>(pub X, pub M);

impl<X: Action<Output = (A, S)>, A, S, B, M: Fn(A) -> B> Action for MapFst<X, M> {
    type Output = (B, S);

    open spec fn runnable(x: Self) -> bool {
        X::runnable(x.0) && total1(x.1)
    }

    open spec fn yields(x: Self, o: (B, S)) -> bool {
        exists|a: A| #[trigger] X::yields(x.0, (a, o.1)) && call_ensures(x.1, (a,), o.0)
    }

    fn perform(self) -> (o: (B, S)) {
        let MapFst(x, m) = self;
        let (a, s) = x.perform();
        let ghost a0 = a;
        let o = (m(a), s);
        assert(X::yields(x, (a0, o.1)));
        o
    }
}

/// An action that performs an action giving a value and a state `s1`, builds with the
/// logger `G` the action of the computation `N` from `s1`, and performs it.
pub struct StateThen<X, N, G>(pub X, pub N, pub G);

impl<X: Action<Output = (A, S)>, A, S, N: Fn(G, S) -> Y, Y: Action, G> Action for StateThen<X, N, G> {
    type Output = Y::Output;

    open spec fn runnable(x: Self) -> bool {
        &&& X::runnable(x.0)
        &&& forall|o: (A, S)| #[trigger] X::yields(x.0, o) ==> {
            &&& call_requires(x.1, (x.2, o.1))
            &&& forall|y: Y| #[trigger] call_ensures(x.1, (x.2, o.1), y) ==> Y::runnable(y)
        }
    }

    open spec fn yields(x: Self, out: Y::Output) -> bool {
        exists|o: (A, S), y: Y|
            #![trigger X::yields(x.0, o), call_ensures(x.1, (x.2, o.1), y)]
            X::yields(x.0, o) && call_ensures(x.1, (x.2, o.1), y) && Y::yields(y, out)
    }

    fn perform(self) -> (out: Y::Output) {
        let StateThen(x, n, g) = self;
        let o = x.perform();
        let y = n(g, o.1);
        y.perform()
    }
}

/// An action that performs an action giving a value `a` and a state `s1`, and then the
/// action that the computation `K` gives on `a` builds with the logger `G` from `s1`.
pub struct StateBind<X, K, G>(pub X, pub K, pub G);

impl<LVL, MSG, S, H: FnOnce() -> (), G: Fn(LVL, (MSG, S)) -> IO<H>, X: Action<Output = (A, S)>, A, K, F2, Y> Action for StateBind<X, K, G> where
    K: Fn(A) -> StateLogger<LVL, MSG, S, H, G, F2>,
    F2: Fn(G, S) -> Y,
    Y: Action,
 {
    type Output = Y::Output;

    open spec fn runnable(x: Self) -> bool {
        &&& X::runnable(x.0)
        &&& total1(x.1)
        &&& forall|o: (A, S), n: StateLogger<LVL, MSG, S, H, G, F2>|
            X::yields(x.0, o) && #[trigger] call_ensures(x.1, (o.0,), n) ==> n.ok_at(x.2, o.1)
    }

    open spec fn yields(x: Self, out: Y::Output) -> bool {
        exists|o: (A, S), n: StateLogger<LVL, MSG, S, H, G, F2>, y: Y|
            #![trigger X::yields(x.0, o), call_ensures(x.1, (o.0,), n), call_ensures(n.0, (x.2, o.1), y)]
            X::yields(x.0, o) && call_ensures(x.1, (o.0,), n) && call_ensures(n.0, (x.2, o.1), y) && Y::yields(y, out)
    }

    fn perform(self) -> (out: Y::Output) {
        let StateBind(x, k, g) = self;
        let (a, s1) = x.perform();
        let n = k(a);
        let y = (n.0)(g, s1);
        y.perform()
    }
}

/// An action that performs an action giving a function and a state `s1`, then the action
/// that the computation `N` builds with the logger `G` from `s1`, giving an argument and a
/// state `s2`, and produces the function applied to the argument, and `s2`.
pub struct StateApply<X, N, G>(pub X, pub N, pub G);

impl<X: Action<Output = (HF, S)>, HF: FnOnce(A) -> B, A, B, S, N: Fn(G, S) -> Y, Y: Action<Output = (A, S)>, G> Action for StateApply<X, N, G> {
    type Output = (B, S);

    open spec fn runnable(x: Self) -> bool {
        &&& X::runnable(x.0)
        &&& forall|o: (HF, S)| #[trigger] X::yields(x.0, o) ==> {
            &&& call_requires(x.1, (x.2, o.1))
            &&& forall|y: Y| #[trigger] call_ensures(x.1, (x.2, o.1), y) ==> Y::runnable(y)
            &&& forall|a: A| #[trigger] call_requires(o.0, (a,))
        }
    }

    open spec fn yields(x: Self, out: (B, S)) -> bool {
        exists|o: (HF, S), y: Y, a: A|
            #![trigger X::yields(x.0, o), call_ensures(x.1, (x.2, o.1), y), Y::yields(y, (a, out.1))]
            X::yields(x.0, o) && call_ensures(x.1, (x.2, o.1), y) && Y::yields(y, (a, out.1)) && call_ensures(o.0, (a,), out.0)
    }

    fn perform(self) -> (out: (B, S)) {
        let StateApply(x, n, g) = self;
        let o = x.perform();
        let (h, s1) = o;
        let y = n(g, s1);
        let (a, s2) = y.perform();
        let ghost a0 = a;
        let out = (h(a), s2);
        assert(Y::yields(y, (a0, out.1)));
        out
    }
}

/// An action that performs an action giving a value and a depth, and produces the value
/// with the depth less one.
pub struct Unscope<X>(pub X);

impl<X: Action<Output = (A, usize)>, A> Action for Unscope<X> {
    type Output = (A, usize);

    open spec fn runnable(x: Self) -> bool {
        &&& X::runnable(x.0)
        &&& forall|o: (A, usize)| #[trigger] X::yields(x.0, o) ==> o.1 >= 1
    }

    open spec fn yields(x: Self, out: (A, usize)) -> bool {
        exists|d: usize| #[trigger] X::yields(x.0, (out.0, d)) && out.1 == d - 1
    }

    fn perform(self) -> (out: (A, usize)) {
        let Unscope(x) = self;
        let (a, d) = x.perform();
        let ghost a0 = a;
        let out = (a, d - 1);
        assert(X::yields(x, (a0, d)));
        assert(out.0 == a0 && out.1 == d - 1);
        out
    }
}

/// The logger `g` can be called on every level and message, and every action it gives can
/// be run: the loggers that a computation is run with.
pub open spec fn logs_ok<LVL, MSG, S, H: FnOnce() -> (), G: Fn(LVL, (MSG, S)) -> IO<H>>(g: G) -> bool {
    logger_ok::<LVL, (MSG, S), H, G>(g)
}

/// A computation that reads a logger `G` and a state `S`, and builds an action producing a
/// value and the new state.
pub struct StateLogger<LVL, MSG, S, H, G, F>(pub F, pub PhantomData<(LVL, MSG, S, H, G)>);

impl<LVL, MSG, S, H: FnOnce() -> (), G: Fn(LVL, (MSG, S)) -> IO<H>, F> StateLogger<LVL, MSG, S, H, G, F> {
    /// Whether the computation can be run with the logger `g` from the state `s`, building
    /// an action that can be performed.
    pub open spec fn ok_at<X: Action>(&self, g: G, s: S) -> bool
        where
            F: Fn(G, S) -> X,
    {
        &&& call_requires(self.0, (g, s))
        &&& forall|x: X| #[trigger] call_ensures(self.0, (g, s), x) ==> X::runnable(x)
    }

    /// Whether running the computation with the logger `g` from the state `s` may build `x`.
    #[verifier::inline]
    pub open spec fn runs<X: Action>(&self, g: G, s: S, x: X) -> bool
        where
            F: Fn(G, S) -> X,
    {
        call_ensures(self.0, (g, s), x)
    }

    /// Whether running the computation with the logger `g` from the state `s` may give the
    /// value `a` and the state `s2`.
    pub open spec fn gives<A, X: Action<Output = (A, S)>>(&self, g: G, s: S, a: A, s2: S) -> bool
        where
            F: Fn(G, S) -> X,
    {
        exists|x: X| #[trigger] call_ensures(self.0, (g, s), x) && X::yields(x, (a, s2))
    }

    /// Build a computation from a function of the logger and the state.
    pub fn new_t<X: Action>(f: F) -> (r: Self)
        where
            F: Fn(G, S) -> X,
        ensures
            r.0 == f,
    {
        StateLogger(f, PhantomData)
    }

    /// Run the computation with a logger from a state, giving the action it builds.
    pub fn run_t<X: Action>(&self, g: G, s: S) -> (r: X)
        where
            F: Fn(G, S) -> X,
        requires
            call_requires(self.0, (g, s)),
        ensures
            self.runs(g, s, r),
    {
        (self.0)(g, s)
    }
}

impl<LVL, MSG, S, H: FnOnce() -> (), G: Fn(LVL, (MSG, S)) -> IO<H> + Copy, F> StateLogger<LVL, MSG, S, H, G, F> {
    /// Sequentially compose, discarding the value of `self`: the action performs that of
    /// `self`, then that of `n` from the state that `self` left, both with the same logger.
    pub fn then_m<A, X: Action<Output = (A, S)>, Y: Action, F2: Fn(G, S) -> Y + Copy>(self, n: StateLogger<LVL, MSG, S, H, G, F2>) -> (r:
        StateLogger<LVL, MSG, S, H, G, impl Fn(G, S) -> StateThen<X, F2, G> + Copy>)
        where
            F: Fn(G, S) -> X + Copy,
        ensures
            forall|g: G, s: S|
                self.ok_at(g, s) && (forall|a: A, s1: S| #[trigger] self.gives(g, s, a, s1) ==> n.ok_at(g, s1))
                    ==> r.ok_at(g, s),
            forall|g: G, s: S, b: StateThen<X, F2, G>| #[trigger] r.runs(g, s, b) ==> self.runs(g, s, b.0) && b.1 == n.0 && b.2 == g,
    {
        let f = self.0;
        let f2 = n.0;
        let h = move |g: G, s: S| -> (b: StateThen<X, F2, G>)
            requires
                call_requires(*&f, (g, s)),
            ensures
                call_ensures(*&f, (g, s), b.0) && b.1 == f2 && b.2 == g,
            {
                StateThen(f(g, s), f2, g)
            };
        proof {
            assert forall|g: G, s: S|
                self.ok_at(g, s) && (forall|a: A, s1: S| #[trigger] self.gives(g, s, a, s1) ==> n.ok_at(g, s1))
                implies call_requires(h, (g, s)) && forall|b: StateThen<X, F2, G>| #[trigger] call_ensures(h, (g, s), b)
                    ==> <StateThen<X, F2, G> as Action>::runnable(b) by {
                assert forall|b: StateThen<X, F2, G>| #[trigger] call_ensures(h, (g, s), b)
                    implies <StateThen<X, F2, G> as Action>::runnable(b) by {
                    assert(X::runnable(b.0));
                    assert forall|o: (A, S)| #[trigger] X::yields(b.0, o) implies {
                        &&& call_requires(b.1, (b.2, o.1))
                        &&& forall|y: Y| #[trigger] call_ensures(b.1, (b.2, o.1), y) ==> Y::runnable(y)
                    } by {
                        assert(self.gives(g, s, o.0, o.1));
                        assert(n.ok_at(g, o.1));
                    }
                }
            }
        }
        StateLogger(h, PhantomData)
    }

    /// Sequentially compose: the action performs that of `self`, passes its value to `k`,
    /// and performs the action of the computation that `k` gives, from the state that
    /// `self` left, with the same logger.
    pub fn chain_m<A, X: Action<Output = (A, S)>, Y: Action, F2: Fn(G, S) -> Y, K: Fn(A) -> StateLogger<LVL, MSG, S, H, G, F2> + Copy>(
        self,
        k: K,
    ) -> (r: StateLogger<LVL, MSG, S, H, G, impl Fn(G, S) -> StateBind<X, K, G> + Copy>)
        where
            F: Fn(G, S) -> X + Copy,
        requires
            total1(k),
        ensures
            forall|g: G, s: S|
                self.ok_at(g, s) && (forall|a: A, s1: S, n: StateLogger<LVL, MSG, S, H, G, F2>|
                    #[trigger] self.gives(g, s, a, s1) && #[trigger] call_ensures(k, (a,), n) ==> n.ok_at(g, s1))
                    ==> r.ok_at(g, s),
            forall|g: G, s: S, b: StateBind<X, K, G>| #[trigger] r.runs(g, s, b) ==> self.runs(g, s, b.0) && b.1 == k && b.2 == g,
    {
        let f = self.0;
        let h = move |g: G, s: S| -> (b: StateBind<X, K, G>)
            requires
                call_requires(*&f, (g, s)),
            ensures
                call_ensures(*&f, (g, s), b.0) && b.1 == k && b.2 == g,
            {
                StateBind(f(g, s), k, g)
            };
        proof {
            assert forall|g: G, s: S|
                self.ok_at(g, s) && (forall|a: A, s1: S, n: StateLogger<LVL, MSG, S, H, G, F2>|
                    #[trigger] self.gives(g, s, a, s1) && #[trigger] call_ensures(k, (a,), n) ==> n.ok_at(g, s1))
                implies call_requires(h, (g, s)) && forall|b: StateBind<X, K, G>| #[trigger] call_ensures(h, (g, s), b)
                    ==> <StateBind<X, K, G> as Action>::runnable(b) by {
                assert forall|b: StateBind<X, K, G>| #[trigger] call_ensures(h, (g, s), b)
                    implies <StateBind<X, K, G> as Action>::runnable(b) by {
                    assert(X::runnable(b.0));
                    assert forall|o: (A, S), n: StateLogger<LVL, MSG, S, H, G, F2>|
                        X::yields(b.0, o) && #[trigger] call_ensures(b.1, (o.0,), n) implies n.ok_at(b.2, o.1) by {
                        assert(self.gives(g, s, o.0, o.1));
                    }
                }
            }
        }
        StateLogger(h, PhantomData)
    }

    /// Sequential application: the action performs that of `self`, giving a function, then
    /// that of `n` from the state that `self` left, giving an argument, and applies the one
    /// to the other.
    pub fn app_a<HF: FnOnce(A) -> B, A, B, X: Action<Output = (HF, S)>, Y: Action<Output = (A, S)>, F2: Fn(G, S) -> Y + Copy>(
        self,
        n: StateLogger<LVL, MSG, S, H, G, F2>,
    ) -> (r: StateLogger<LVL, MSG, S, H, G, impl Fn(G, S) -> StateApply<X, F2, G> + Copy>)
        where
            F: Fn(G, S) -> X + Copy,
        ensures
            forall|g: G, s: S|
                self.ok_at(g, s) && (forall|hf: HF, s1: S| #[trigger] self.gives(g, s, hf, s1) ==> n.ok_at(g, s1)
                    && forall|a: A| #[trigger] call_requires(hf, (a,))) ==> r.ok_at(g, s),
            forall|g: G, s: S, b: StateApply<X, F2, G>| #[trigger] r.runs(g, s, b) ==> self.runs(g, s, b.0) && b.1 == n.0 && b.2 == g,
    {
        let f = self.0;
        let f2 = n.0;
        let h = move |g: G, s: S| -> (b: StateApply<X, F2, G>)
            requires
                call_requires(*&f, (g, s)),
            ensures
                call_ensures(*&f, (g, s), b.0) && b.1 == f2 && b.2 == g,
            {
                StateApply(f(g, s), f2, g)
            };
        proof {
            assert forall|g: G, s: S|
                self.ok_at(g, s) && (forall|hf: HF, s1: S| #[trigger] self.gives(g, s, hf, s1) ==> n.ok_at(g, s1)
                    && forall|a: A| #[trigger] call_requires(hf, (a,)))
                implies call_requires(h, (g, s)) && forall|b: StateApply<X, F2, G>| #[trigger] call_ensures(h, (g, s), b)
                    ==> <StateApply<X, F2, G> as Action>::runnable(b) by {
                assert forall|b: StateApply<X, F2, G>| #[trigger] call_ensures(h, (g, s), b)
                    implies <StateApply<X, F2, G> as Action>::runnable(b) by {
                    assert(X::runnable(b.0));
                    assert forall|o: (HF, S)| #[trigger] X::yields(b.0, o) implies {
                        &&& call_requires(b.1, (b.2, o.1))
                        &&& forall|y: Y| #[trigger] call_ensures(b.1, (b.2, o.1), y) ==> Y::runnable(y)
                        &&& forall|a: A| #[trigger] call_requires(o.0, (a,))
                    } by {
                        assert(self.gives(g, s, o.0, o.1));
                        assert(n.ok_at(g, o.1));
                    }
                }
            }
        }
        StateLogger(h, PhantomData)
    }
}

impl<LVL, MSG, S, H: FnOnce() -> (), G: Fn(LVL, (MSG, S)) -> IO<H>, F> StateLogger<LVL, MSG, S, H, G, F> {
    /// Map a function over the value that the action produces, leaving the state it gives.
    pub fn fmap<A, B, X: Action<Output = (A, S)>, M: Fn(A) -> B + Copy>(self, m: M) -> (r: StateLogger<
        LVL,
        MSG,
        S,
        H,
        G,
        impl Fn(G, S) -> MapFst<X, M> + Copy,
    >)
        where
            F: Fn(G, S) -> X + Copy,
        requires
            total1(m),
        ensures
            forall|g: G, s: S| self.ok_at(g, s) ==> r.ok_at(g, s),
            forall|g: G, s: S, b: MapFst<X, M>| #[trigger] r.runs(g, s, b) ==> self.runs(g, s, b.0) && b.1 == m,
    {
        let f = self.0;
        let h = move |g: G, s: S| -> (b: MapFst<X, M>)
            requires
                call_requires(*&f, (g, s)),
            ensures
                call_ensures(*&f, (g, s), b.0) && b.1 == m,
            {
                MapFst(f(g, s), m)
            };
        StateLogger(h, PhantomData)
    }

    /// Transform the action of the inner monad that the computation builds.
    pub fn map_inner<X: Action, Y: Action, M: Fn(X) -> Y + Copy>(self, m: M) -> (r: StateLogger<LVL, MSG, S, H, G, impl Fn(G, S) -> Y + Copy>)
        where
            F: Fn(G, S) -> X + Copy,
        requires
            total1(m),
            forall|x: X, y: Y| #[trigger] call_ensures(m, (x,), y) ==> Y::runnable(y),
        ensures
            forall|g: G, s: S| self.ok_at(g, s) ==> r.ok_at(g, s),
            forall|g: G, s: S, y: Y| #[trigger] r.runs(g, s, y) ==> exists|x: X|
                #[trigger] self.runs(g, s, x) && call_ensures(m, (x,), y),
    {
        let f = self.0;
        let h = move |g: G, s: S| -> (y: Y)
            requires
                call_requires(*&f, (g, s)),
            ensures
                exists|x: X| #[trigger] call_ensures(*&f, (g, s), x) && call_ensures(*&m, (x,), y),
            {
                let x = f(g, s);
                m(x)
            };
        StateLogger(h, PhantomData)
    }

    /// Transform the computation as a whole: `m` gets the computation and gives the new one.
    pub fn map_t<R, M: FnOnce(Self) -> R>(self, m: M) -> (r: R)
        requires
            call_requires(m, (self,)),
        ensures
            call_ensures(m, (self,), r),
    {
        m(self)
    }

    /// The same as [`StateLogger::map_t`]: the computation is a state transformer over the
    /// logging monad, transformed as a whole.
    pub fn map_state<R, M: FnOnce(Self) -> R>(self, m: M) -> (r: R)
        requires
            call_requires(m, (self,)),
        ensures
            call_ensures(m, (self,), r),
    {
        self.map_t(m)
    }

    /// Run the computation with a logger from the default state, giving an action that
    /// produces its value.
    pub fn run<A, X: Action<Output = (A, S)>>(&self, g: G) -> (r: First<X>)
        where
            F: Fn(G, S) -> X,
            S: Default,
        requires
            forall|s0: S| #[trigger] call_ensures(S::default, (), s0) ==> self.ok_at(g, s0),
        ensures
            exists|s0: S| #[trigger] call_ensures(S::default, (), s0) && self.runs(g, s0, r.0),
            X::runnable(r.0),
    {
        let s0 = S::default();
        First((self.0)(g, s0))
    }
}

impl<LVL, MSG, H: FnOnce() -> (), G: Fn(LVL, (MSG, usize)) -> IO<H>, F> StateLogger<LVL, MSG, usize, H, G, F> {
    /// Run `self` one level deeper: indent, run `self`, and unindent, giving its value.
    pub fn log_scope<A, X: Action<Output = (A, usize)>>(self) -> (r: StateLogger<LVL, MSG, usize, H, G, impl Fn(G, usize) -> Unscope<X> + Copy>)
        where
            F: Fn(G, usize) -> X + Copy,
        ensures
            forall|g: G, s: usize|
                s < usize::MAX && self.ok_at(g, (s + 1) as usize) && (forall|a: A, d: usize| #[trigger] self.gives(g, (s + 1) as usize, a, d) ==> d >= 1)
                    ==> r.ok_at(g, s),
            forall|g: G, s: usize, u: Unscope<X>| #[trigger] r.runs(g, s, u) ==> s < usize::MAX && self.runs(g, (s + 1) as usize, u.0),
    {
        let f = self.0;
        let h = move |g: G, s: usize| -> (u: Unscope<X>)
            requires
                s < usize::MAX,
                call_requires(*&f, (g, (s + 1) as usize)),
            ensures
                s < usize::MAX && call_ensures(*&f, (g, (s + 1) as usize), u.0),
            {
                Unscope(f(g, s + 1))
            };
        proof {
            assert forall|g: G, s: usize|
                s < usize::MAX && self.ok_at(g, (s + 1) as usize) && (forall|a: A, d: usize| #[trigger] self.gives(g, (s + 1) as usize, a, d) ==> d >= 1)
                implies call_requires(h, (g, s)) && forall|u: Unscope<X>| #[trigger] call_ensures(h, (g, s), u)
                    ==> <Unscope<X> as Action>::runnable(u) by {
                assert forall|u: Unscope<X>| #[trigger] call_ensures(h, (g, s), u)
                    implies <Unscope<X> as Action>::runnable(u) by {
                    assert forall|o: (A, usize)| #[trigger] X::yields(u.0, o) implies o.1 >= 1 by {
                        assert(self.gives(g, (s + 1) as usize, o.0, o.1));
                    }
                }
            }
        }
        StateLogger(h, PhantomData)
    }
}

impl<LVL, MSG, S, H: FnOnce() -> (), G: Fn(LVL, (MSG, S)) -> IO<H>> StateLogger<LVL, MSG, S, H, G, ()> {
    /// A computation that gives `a` and leaves the state as it is (the monadic return).
    pub fn return_m<A: Copy>(a: A) -> (r: StateLogger<LVL, MSG, S, H, G, impl Fn(G, S) -> Pure<(A, S)> + Copy>)
        ensures
            forall|g: G, s: S| r.ok_at(g, s),
            forall|g: G, s: S, p: Pure<(A, S)>| #[trigger] r.runs(g, s, p) ==> p.0 == (a, s),
    {
        let h = move |_g: G, s: S| -> (p: Pure<(A, S)>)
            ensures
                p.0 == (a, s),
            {
                Pure((a, s))
            };
        StateLogger(h, PhantomData)
    }

    /// The same as [`StateLogger::return_m`].
    pub fn pure_a<A: Copy>(a: A) -> (r: StateLogger<LVL, MSG, S, H, G, impl Fn(G, S) -> Pure<(A, S)> + Copy>)
        ensures
            forall|g: G, s: S| r.ok_at(g, s),
            forall|g: G, s: S, p: Pure<(A, S)>| #[trigger] r.runs(g, s, p) ==> p.0 == (a, s),
    {
        Self::return_m(a)
    }

    /// A computation that hands `level` and `message`, with the state, to the logger, and
    /// leaves the state as it is.
    pub fn log(level: LVL, message: MSG) -> (r: StateLogger<LVL, MSG, S, H, G, impl Fn(G, S) -> WithState<IO<H>, S> + Copy>)
        where
            LVL: Copy,
            MSG: Copy,
            S: Copy,
        ensures
            forall|g: G, s: S| logs_ok(g) ==> r.ok_at(g, s),
            forall|g: G, s: S, w: WithState<IO<H>, S>| #[trigger] r.runs(g, s, w) ==> w.1 == s
                && call_ensures(g, (level, (message, s)), w.0),
    {
        let h = move |g: G, s: S| -> (w: WithState<IO<H>, S>)
            requires
                logs_ok(g),
            ensures
                w.0.runnable(),
                w.1 == s && call_ensures(g, (level, (message, s)), w.0),
            {
                WithState(g(level, (message, s)), s)
            };
        StateLogger(h, PhantomData)
    }

    /// A computation that ignores the state and builds the action of a logging computation,
    /// the state left as it is.
    pub fn lift<X: Action, F2: Fn(G) -> X + Copy>(m: LoggingT<LVL, (MSG, S), H, G, F2>) -> (r: StateLogger<
        LVL,
        MSG,
        S,
        H,
        G,
        impl Fn(G, S) -> WithState<X, S> + Copy,
    >)
        requires
            m.total(),
        ensures
            forall|g: G, s: S| logs_ok(g) ==> r.ok_at(g, s),
            forall|g: G, s: S, w: WithState<X, S>| #[trigger] r.runs(g, s, w) ==> w.1 == s && m.runs(g, w.0),
    {
        let f = m.0;
        let h = move |g: G, s: S| -> (w: WithState<X, S>)
            requires
                logs_ok(g),
                call_requires(*&f, (g,)),
                forall|x: X| #[trigger] call_ensures(*&f, (g,), x) ==> X::runnable(x),
            ensures
                X::runnable(w.0),
                w.1 == s && call_ensures(*&f, (g,), w.0),
            {
                WithState(f(g), s)
            };
        proof {
            assert forall|g: G, s: S| logs_ok(g) implies #[trigger] call_requires(h, (g, s)) by {
                assert(call_requires(m.0, (g,)));
            }
        }
        StateLogger(h, PhantomData)
    }

    /// A computation that ignores the logger and the state and builds the action `m` of the
    /// inner monad, the state left as it is.
    pub fn lift_t<X: Action + Copy>(m: X) -> (r: StateLogger<LVL, MSG, S, H, G, impl Fn(G, S) -> WithState<X, S> + Copy>)
        requires
            X::runnable(m),
        ensures
            forall|g: G, s: S| r.ok_at(g, s),
            forall|g: G, s: S, w: WithState<X, S>| #[trigger] r.runs(g, s, w) ==> w == WithState(m, s),
    {
        let h = move |_g: G, s: S| -> (w: WithState<X, S>)
            ensures
                w == WithState(m, s),
            {
                WithState(m, s)
            };
        StateLogger(h, PhantomData)
    }

    /// A computation that ignores the state and builds the I/O action `m`, the state left
    /// as it is.
    pub fn lift_io<T, K: FnOnce() -> T + Copy>(m: IO<K>) -> (r: StateLogger<LVL, MSG, S, H, G, impl Fn(G, S) -> WithState<IO<K>, S> + Copy>)
        requires
            m.runnable(),
        ensures
            forall|g: G, s: S| r.ok_at(g, s),
            forall|g: G, s: S, w: WithState<IO<K>, S>| #[trigger] r.runs(g, s, w) ==> w == WithState(m, s),
    {
        Self::lift_t(m)
    }
}

impl<LVL, MSG, H: FnOnce() -> (), G: Fn(LVL, (MSG, usize)) -> IO<H>> StateLogger<LVL, MSG, usize, H, G, ()> {
    /// A computation that adds one to the depth.
    pub fn indent() -> (r: StateLogger<LVL, MSG, usize, H, G, impl Fn(G, usize) -> Pure<((), usize)> + Copy>)
        ensures
            forall|g: G, s: usize| s < usize::MAX ==> r.ok_at(g, s),
            forall|g: G, s: usize, p: Pure<((), usize)>| #[trigger] r.runs(g, s, p) ==> p.0 == ((), (s + 1) as usize),
    {
        let h = |_g: G, s: usize| -> (p: Pure<((), usize)>)
            requires
                s < usize::MAX,
            ensures
                p.0 == ((), (s + 1) as usize),
            {
                Pure(((), s + 1))
            };
        StateLogger(h, PhantomData)
    }

    /// A computation that takes one from the depth.
    pub fn unindent() -> (r: StateLogger<LVL, MSG, usize, H, G, impl Fn(G, usize) -> Pure<((), usize)> + Copy>)
        ensures
            forall|g: G, s: usize| s >= 1 ==> r.ok_at(g, s),
            forall|g: G, s: usize, p: Pure<((), usize)>| #[trigger] r.runs(g, s, p) ==> p.0 == ((), (s - 1) as usize),
    {
        let h = |_g: G, s: usize| -> (p: Pure<((), usize)>)
            requires
                s >= 1,
            ensures
                p.0 == ((), (s - 1) as usize),
            {
                Pure(((), s - 1))
            };
        StateLogger(h, PhantomData)
    }
}

impl<MSG: Copy, S: Copy, H: FnOnce() -> (), G: Fn(Level, (MSG, S)) -> IO<H>> StateLogger<Level, MSG, S, H, G, ()> {
    /// Log `message` at the trace level, with the state.
    pub fn trace(message: MSG) -> (r: StateLogger<Level, MSG, S, H, G, impl Fn(G, S) -> WithState<IO<H>, S> + Copy>)
        ensures
            forall|g: G, s: S| logs_ok(g) ==> r.ok_at(g, s),
            forall|g: G, s: S, w: WithState<IO<H>, S>| #[trigger] r.runs(g, s, w) ==> w.1 == s
                && call_ensures(g, (Level::Trace, (message, s)), w.0),
    {
        Self::log(Level::Trace, message)
    }

    /// Log `message` at the debug level, with the state.
    pub fn debug(message: MSG) -> (r: StateLogger<Level, MSG, S, H, G, impl Fn(G, S) -> WithState<IO<H>, S> + Copy>)
        ensures
            forall|g: G, s: S| logs_ok(g) ==> r.ok_at(g, s),
            forall|g: G, s: S, w: WithState<IO<H>, S>| #[trigger] r.runs(g, s, w) ==> w.1 == s
                && call_ensures(g, (Level::Debug, (message, s)), w.0),
    {
        Self::log(Level::Debug, message)
    }

    /// Log `message` at the info level, with the state.
    pub fn info(message: MSG) -> (r: StateLogger<Level, MSG, S, H, G, impl Fn(G, S) -> WithState<IO<H>, S> + Copy>)
        ensures
            forall|g: G, s: S| logs_ok(g) ==> r.ok_at(g, s),
            forall|g: G, s: S, w: WithState<IO<H>, S>| #[trigger] r.runs(g, s, w) ==> w.1 == s
                && call_ensures(g, (Level::Info, (message, s)), w.0),
    {
        Self::log(Level::Info, message)
    }

    /// Log `message` at the warn level, with the state.
    pub fn warn(message: MSG) -> (r: StateLogger<Level, MSG, S, H, G, impl Fn(G, S) -> WithState<IO<H>, S> + Copy>)
        ensures
            forall|g: G, s: S| logs_ok(g) ==> r.ok_at(g, s),
            forall|g: G, s: S, w: WithState<IO<H>, S>| #[trigger] r.runs(g, s, w) ==> w.1 == s
                && call_ensures(g, (Level::Warn, (message, s)), w.0),
    {
        Self::log(Level::Warn, message)
    }

    /// Log `message` at the error level, with the state.
    pub fn error(message: MSG) -> (r: StateLogger<Level, MSG, S, H, G, impl Fn(G, S) -> WithState<IO<H>, S> + Copy>)
        ensures
            forall|g: G, s: S| logs_ok(g) ==> r.ok_at(g, s),
            forall|g: G, s: S, w: WithState<IO<H>, S>| #[trigger] r.runs(g, s, w) ==> w.1 == s
                && call_ensures(g, (Level::Error, (message, s)), w.0),
    {
        Self::log(Level::Error, message)
    }
}

/// Indenting and then unindenting leaves the depth as it was: for computations `i` and `u`
/// that add one to the depth and take one from it (as `indent` and `unindent` ensure),
/// every outcome of `i.then_m(u)` from depth `s` is depth `s`.
pub proof fn lemma_indent_unindent<
    LVL,
    MSG,
    H: FnOnce() -> (),
    G: Fn(LVL, (MSG, usize)) -> IO<H>,
    FI: Fn(G, usize) -> Pure<((), usize)>,
    FU: Fn(G, usize) -> Pure<((), usize)>,
>(
    i: StateLogger<LVL, MSG, usize, H, G, FI>,
    u: StateLogger<LVL, MSG, usize, H, G, FU>,
    g: G,
    s: usize,
    b: StateThen<Pure<((), usize)>, FU, G>,
    o: ((), usize),
)
    requires
        forall|g0: G, s0: usize, p: Pure<((), usize)>| #[trigger] i.runs(g0, s0, p) ==> p.0 == ((), (s0 + 1) as usize),
        forall|g0: G, s0: usize, p: Pure<((), usize)>| #[trigger] u.runs(g0, s0, p) ==> p.0 == ((), (s0 - 1) as usize),
        s < usize::MAX,
        i.runs(g, s, b.0),
        b.1 == u.0,
        b.2 == g,
        <StateThen<Pure<((), usize)>, FU, G> as Action>::yields(b, o),
    ensures
        o == ((), s),
{
    let (o1, y) = choose|o1: ((), usize), y: Pure<((), usize)>|
        #![trigger <Pure<((), usize)> as Action>::yields(b.0, o1), call_ensures(b.1, (b.2, o1.1), y)]
        <Pure<((), usize)> as Action>::yields(b.0, o1) && call_ensures(b.1, (b.2, o1.1), y)
            && <Pure<((), usize)> as Action>::yields(y, o);
    assert(o1 == ((), (s + 1) as usize));
    assert(u.runs(g, o1.1, y));
}

} // verus!
