//! A logging monad: computations that read a logger and build an action.
//!
//! A computation of `LoggingT<LVL, MSG, H, G, F>` is a function `F` from a logger `G`
//! (a function from a level and a message to an I/O action `IO<H>`) to an [`Action`].
//! Logging with `log` hands the level and the message to the logger; sequencing builds an
//! action that runs the actions of the two computations, with the same logger, in order.

pub mod indent;
pub mod level;
pub mod state_logging;

use std::marker::PhantomData;

use vstd::prelude::*;

use crate::base::data::functor::{total1, total2};
use crate::base::grl::io::IO;

use self::indent::Indent;
use self::level::Level;

verus! {

/// An action that can be run once, producing an output.
pub trait Action: Sized {
    /// What running the action produces.
    type Output;

    /// Whether the action can be run.
    spec fn runnable(x: Self) -> bool;

    /// Whether running the action may produce `o`.
    spec fn yields(x: Self, o: Self::Output) -> bool;

    /// Perform the action.
    fn perform(self) -> (o: Self::Output)
        requires
            Self::runnable(self),
        ensures
            Self::yields(self, o),
    ;
}

impl<T, K: FnOnce() -> T> Action for IO<K> {
    type Output = T;

    open spec fn runnable(x: Self) -> bool {
        x.runnable()
    }

    open spec fn yields(x: Self, o: T) -> bool {
        x.yields(o)
    }

    fn perform(self) -> (o: T) {
        self.run()
    }
}

/// An action that does nothing and produces a value.
#[derive(Clone, Copy)]
pub struct Pure<A>(pub A);

impl<A> Action for Pure<A> {
    type Output = A;

    open spec fn runnable(x: Self) -> bool {
        true
    }

    open spec fn yields(x: Self, o: A) -> bool {
        o == x.0
    }

    fn perform(self) -> (o: A) {
        self.0
    }
}

/// An action that performs one action and then another, producing what the second does.
pub struct Both<X, Y>(pub X, pub Y);

impl<X: Action, Y: Action> Action for Both<X, Y> {
    type Output = Y::Output;

    open spec fn runnable(x: Self) -> bool {
        X::runnable(x.0) && Y::runnable(x.1)
    }

    open spec fn yields(x: Self, o: Y::Output) -> bool {
        Y::yields(x.1, o)
    }

    fn perform(self) -> (o: Y::Output) {
        let _ = self.0.perform();
        self.1.perform()
    }
}

/// An action that performs an action and applies a function to what it produces.
pub struct MapAction<X, M>(pub X, pub M);

impl<X: Action, B, M: Fn(X::Output) -> B> Action for MapAction<X, M> {
    type Output = B;

    open spec fn runnable(x: Self) -> bool {
        X::runnable(x.0) && total1(x.1)
    }

    open spec fn yields(x: Self, o: B) -> bool {
        exists|a: X::Output| #[trigger] X::yields(x.0, a) && call_ensures(x.1, (a,), o)
    }

    fn perform(self) -> (o: B) {
        let MapAction(x, m) = self;
        let a = x.perform();
        m(a)
    }
}

/// An action that performs an action, passes what it produces to `k`, and performs the
/// action that the computation `k` gives builds with the logger `g`.
pub struct BindAction<X, K, G>(pub X, pub K, pub G);

impl<LVL, MSG, H, G, F2, Y, X, K> Action for BindAction<X, K, G> where
    X: Action,
    K: Fn(X::Output) -> LoggingT<LVL, MSG, H, G, F2>,
    F2: Fn(G) -> Y,
    Y: Action,
 {
    type Output = Y::Output;

    open spec fn runnable(x: Self) -> bool {
        &&& X::runnable(x.0)
        &&& total1(x.1)
        &&& forall|a: X::Output, n: LoggingT<LVL, MSG, H, G, F2>|
            #[trigger] call_ensures(x.1, (a,), n) ==> call_requires(n.0, (x.2,)) && forall|y: Y|
                #[trigger] call_ensures(n.0, (x.2,), y) ==> Y::runnable(y)
    }

    open spec fn yields(x: Self, o: Y::Output) -> bool {
        exists|a: X::Output, n: LoggingT<LVL, MSG, H, G, F2>, y: Y|
            #![trigger X::yields(x.0, a), call_ensures(x.1, (a,), n), call_ensures(n.0, (x.2,), y)]
            X::yields(x.0, a) && call_ensures(x.1, (a,), n) && call_ensures(n.0, (x.2,), y) && Y::yields(y, o)
    }

    fn perform(self) -> (o: Y::Output) {
        let BindAction(x, k, g) = self;
        let a = x.perform();
        let n = k(a);
        let y = (n.0)(g);
        y.perform()
    }
}

/// An action that performs an action giving a function, then one giving an argument, and
/// applies the one to the other.
pub struct Apply<X, Y>(pub X, pub Y);

impl<X: Action, Y: Action, B> Action for Apply<X, Y> where X::Output: FnOnce(Y::Output) -> B {
    type Output = B;

    open spec fn runnable(x: Self) -> bool {
        &&& X::runnable(x.0)
        &&& Y::runnable(x.1)
        &&& forall|h: X::Output| #[trigger] X::yields(x.0, h) ==> forall|a: Y::Output| #[trigger] call_requires(h, (a,))
    }

    open spec fn yields(x: Self, o: B) -> bool {
        exists|h: X::Output, a: Y::Output|
            #![trigger X::yields(x.0, h), Y::yields(x.1, a)]
            X::yields(x.0, h) && Y::yields(x.1, a) && call_ensures(h, (a,), o)
    }

    fn perform(self) -> (o: B) {
        let Apply(x, y) = self;
        let h = x.perform();
        let a = y.perform();
        h(a)
    }
}

/// A computation that reads a logger `G` and builds an action.
pub struct LoggingT<LVL, MSG, H, G, F>(pub F, pub PhantomData<(LVL, MSG, H, G)>);

/// Whether a logger can be called on every level and message, and every action that it
/// gives can be run.
pub open spec fn logger_ok<LVL, MSG, H: FnOnce() -> (), G: Fn(LVL, MSG) -> IO<H>>(g: G) -> bool {
    &&& total2(g)
    &&& forall|l: LVL, m: MSG, io: IO<H>| #[trigger] call_ensures(g, (l, m), io) ==> io.runnable()
}

impl<LVL, MSG, H: FnOnce() -> (), G: Fn(LVL, MSG) -> IO<H>, F> LoggingT<LVL, MSG, H, G, F> {
    /// Whether the computation can be run with every well-behaved logger, building an
    /// action that can be run.
    pub open spec fn total<X: Action>(&self) -> bool
        where
            F: Fn(G) -> X,
    {
        forall|g: G|
            #![trigger call_requires(self.0, (g,))]
            logger_ok(g) ==> call_requires(self.0, (g,)) && forall|x: X|
                #[trigger] call_ensures(self.0, (g,), x) ==> X::runnable(x)
    }

    /// Whether running the computation with the logger `g` may build the action `x`.
    #[verifier::inline]
    pub open spec fn runs<X: Action>(&self, g: G, x: X) -> bool
        where
            F: Fn(G) -> X,
    {
        call_ensures(self.0, (g,), x)
    }

    /// Build a computation from a function of the logger.
    pub fn new_t<X: Action>(f: F) -> (r: Self)
        where
            F: Fn(G) -> X,
        ensures
            r.0 == f,
    {
        LoggingT(f, PhantomData)
    }

    /// Run the computation with a logger, giving the action it builds.
    pub fn run_t<X: Action>(&self, g: G) -> (r: X)
        where
            F: Fn(G) -> X,
        requires
            call_requires(self.0, (g,)),
        ensures
            self.runs(g, r),
    {
        (self.0)(g)
    }

    /// Transform the action that the computation builds.
    pub fn map_t<X: Action, Y: Action, M: Fn(X) -> Y>(self, m: M) -> (r: LoggingT<LVL, MSG, H, G, impl Fn(G) -> Y>)
        where
            F: Fn(G) -> X,
        requires
            self.total(),
            total1(m),
            forall|x: X, y: Y| #[trigger] call_ensures(m, (x,), y) ==> Y::runnable(y),
        ensures
            r.total(),
            forall|g: G, y: Y| #[trigger] r.runs(g, y) && logger_ok(g) ==> exists|x: X|
                #[trigger] self.runs(g, x) && call_ensures(m, (x,), y),
    {
        let f = self.0;
        let h = move |g: G| -> (y: Y)
            requires
                logger_ok(g),
            ensures
                Y::runnable(y),
                exists|x: X| #[trigger] call_ensures(*&f, (g,), x) && call_ensures(*&m, (x,), y),
            {
                let x = f(g);
                m(x)
            };
        LoggingT(h, PhantomData)
    }

    /// Sequentially compose, discarding the value of `self`: the action runs the action
    /// of `self`, then that of `n`, both built with the same logger.
    pub fn then_m<X: Action, Y: Action, F2: Fn(G) -> Y>(self, n: LoggingT<LVL, MSG, H, G, F2>) -> (r:
        LoggingT<LVL, MSG, H, G, impl Fn(G) -> Both<X, Y>>)
        where
            F: Fn(G) -> X,
            G: Copy,
        requires
            self.total(),
            n.total(),
        ensures
            r.total(),
            forall|g: G, b: Both<X, Y>| #[trigger] r.runs(g, b) ==> self.runs(g, b.0) && n.runs(g, b.1),
    {
        let f = self.0;
        let f2 = n.0;
        let h = move |g: G| -> (b: Both<X, Y>)
            requires
                logger_ok(g),
            ensures
                <Both<X, Y> as Action>::runnable(b),
                call_ensures(&f, (g,), b.0) && call_ensures(&f2, (g,), b.1),
            {
                let x = f(g);
                let y = f2(g);
                assert(call_ensures(*&f, (g,), x) && call_requires(*&f, (g,)));
                assert(call_ensures(*&f2, (g,), y) && call_requires(*&f2, (g,)));
                assert(X::runnable(x));
                assert(Y::runnable(y));
                Both(x, y)
            };
        LoggingT(h, PhantomData)
    }
}

impl<LVL, MSG, H: FnOnce() -> (), G: Fn(LVL, MSG) -> IO<H> + Copy, F> LoggingT<LVL, MSG, H, G, F> {
    /// Map a function over what the action of the computation produces.
    pub fn fmap<X: Action, B, M: Fn(X::Output) -> B + Copy>(self, m: M) -> (r: LoggingT<
        LVL,
        MSG,
        H,
        G,
        impl Fn(G) -> MapAction<X, M>,
    >)
        where
            F: Fn(G) -> X,
        requires
            self.total(),
            total1(m),
        ensures
            r.total(),
            forall|g: G, b: MapAction<X, M>| #[trigger] r.runs(g, b) && logger_ok(g) ==> self.runs(g, b.0) && b.1 == m,
    {
        let f = self.0;
        let h = move |g: G| -> (b: MapAction<X, M>)
            requires
                logger_ok(g),
            ensures
                <MapAction<X, M> as Action>::runnable(b),
                call_ensures(*&f, (g,), b.0) && b.1 == m,
            {
                let x = f(g);
                assert(call_ensures(*&f, (g,), x) && call_requires(*&f, (g,)));
                MapAction(x, m)
            };
        LoggingT(h, PhantomData)
    }

    /// Sequentially compose: the action performs the action of `self`, passes what it
    /// produces to `k`, and performs the action of the computation that `k` gives, built
    /// with the same logger.
    pub fn chain_m<X: Action, Y: Action, F2: Fn(G) -> Y, K: Fn(X::Output) -> LoggingT<LVL, MSG, H, G, F2> + Copy>(
        self,
        k: K,
    ) -> (r: LoggingT<LVL, MSG, H, G, impl Fn(G) -> BindAction<X, K, G>>)
        where
            F: Fn(G) -> X,
        requires
            self.total(),
            total1(k),
            forall|a: X::Output, n: LoggingT<LVL, MSG, H, G, F2>| #[trigger] call_ensures(k, (a,), n) ==> n.total(),
        ensures
            r.total(),
            forall|g: G, b: BindAction<X, K, G>| #[trigger] r.runs(g, b) && logger_ok(g) ==> self.runs(g, b.0) && b.1 == k
                && b.2 == g,
    {
        let f = self.0;
        let h = move |g: G| -> (b: BindAction<X, K, G>)
            requires
                logger_ok(g),
            ensures
                <BindAction<X, K, G> as Action>::runnable(b),
                call_ensures(*&f, (g,), b.0) && b.1 == k && b.2 == g,
            {
                let x = f(g);
                assert(call_ensures(*&f, (g,), x) && call_requires(*&f, (g,)));
                BindAction(x, k, g)
            };
        LoggingT(h, PhantomData)
    }

    /// Sequential application: the action performs the action of `self`, giving a function,
    /// then that of `a`, giving an argument, both built with the same logger, and applies
    /// the one to the other.
    pub fn app_a<X: Action, Y: Action, B, F2: Fn(G) -> Y>(self, a: LoggingT<LVL, MSG, H, G, F2>) -> (r: LoggingT<
        LVL,
        MSG,
        H,
        G,
        impl Fn(G) -> Apply<X, Y>,
    >)
        where
            F: Fn(G) -> X,
            X::Output: FnOnce(Y::Output) -> B,
        requires
            self.total(),
            a.total(),
            forall|g: G, x: X, h: X::Output| logger_ok(g) && #[trigger] self.runs(g, x) && #[trigger] X::yields(x, h) ==> forall|v: Y::Output| #[trigger] call_requires(h, (v,)),
        ensures
            r.total(),
            forall|g: G, b: Apply<X, Y>| #[trigger] r.runs(g, b) && logger_ok(g) ==> self.runs(g, b.0) && a.runs(g, b.1),
    {
        let ghost this = self;
        let f = self.0;
        let f2 = a.0;
        let h = move |g: G| -> (b: Apply<X, Y>)
            requires
                logger_ok(g),
                call_requires(*&f, (g,)),
                call_requires(*&f2, (g,)),
                forall|x: X| #[trigger] call_ensures(*&f, (g,), x) ==> X::runnable(x),
                forall|y: Y| #[trigger] call_ensures(*&f2, (g,), y) ==> Y::runnable(y),
                forall|x: X, h: X::Output| #[trigger] call_ensures(*&f, (g,), x) && #[trigger] X::yields(x, h) ==> forall|v: Y::Output| #[trigger] call_requires(h, (v,)),
            ensures
                <Apply<X, Y> as Action>::runnable(b),
                call_ensures(*&f, (g,), b.0) && call_ensures(*&f2, (g,), b.1),
            {
                let x = f(g);
                let y = f2(g);
                Apply(x, y)
            };
        proof {
            assert forall|g: G| #![trigger call_requires(h, (g,))] logger_ok(g) implies call_requires(h, (g,)) by {
                assert(call_requires(this.0, (g,)));
            }
        }
        LoggingT(h, PhantomData)
    }
}

impl<LVL: Copy, MSG: Copy, H: FnOnce() -> (), G: Fn(LVL, MSG) -> IO<H>> LoggingT<LVL, MSG, H, G, ()> {
    /// A computation that hands `level` and `message` to the logger.
    pub fn log(level: LVL, message: MSG) -> (r: LoggingT<LVL, MSG, H, G, impl Fn(G) -> IO<H>>)
        ensures
            r.total(),
            forall|g: G, io: IO<H>| #[trigger] r.runs(g, io) ==> call_ensures(g, (level, message), io),
    {
        let h = move |g: G| -> (io: IO<H>)
            requires
                logger_ok(g),
            ensures
                io.runnable(),
                call_ensures(g, (level, message), io),
            {
                g(level, message)
            };
        LoggingT(h, PhantomData)
    }

    /// A computation that gives `a` and logs nothing (the monadic return).
    pub fn return_m<A: Copy>(a: A) -> (r: LoggingT<LVL, MSG, H, G, impl Fn(G) -> Pure<A>>)
        ensures
            r.total(),
            forall|g: G, p: Pure<A>| #[trigger] r.runs(g, p) ==> p.0 == a,
    {
        let h = move |_g: G| -> (p: Pure<A>)
            ensures
                p.0 == a,
            {
                Pure(a)
            };
        LoggingT(h, PhantomData)
    }

    /// A computation that gives `a` and logs nothing: the same as [`LoggingT::return_m`].
    pub fn pure_a<A: Copy>(a: A) -> (r: LoggingT<LVL, MSG, H, G, impl Fn(G) -> Pure<A>>)
        ensures
            r.total(),
            forall|g: G, p: Pure<A>| #[trigger] r.runs(g, p) ==> p.0 == a,
    {
        Self::return_m(a)
    }

    /// A computation that ignores the logger and builds the action `m`.
    pub fn lift<X: Action + Copy>(m: X) -> (r: LoggingT<LVL, MSG, H, G, impl Fn(G) -> X>)
        requires
            X::runnable(m),
        ensures
            r.total(),
            forall|g: G, x: X| #[trigger] r.runs(g, x) ==> x == m,
    {
        let h = move |_g: G| -> (x: X)
            ensures
                x == m,
            {
                m
            };
        LoggingT(h, PhantomData)
    }

    /// A computation that ignores the logger and builds the I/O action `m`.
    pub fn lift_io<T, K: FnOnce() -> T + Copy>(m: IO<K>) -> (r: LoggingT<LVL, MSG, H, G, impl Fn(G) -> IO<K>>)
        requires
            m.runnable(),
        ensures
            r.total(),
            forall|g: G, x: IO<K>| #[trigger] r.runs(g, x) ==> x == m,
    {
        Self::lift(m)
    }

    /// A computation whose action produces the logger itself.
    pub fn ask() -> (r: LoggingT<LVL, MSG, H, G, impl Fn(G) -> Pure<G>>)
        ensures
            r.total(),
            forall|g: G, p: Pure<G>| #[trigger] r.runs(g, p) ==> p.0 == g,
    {
        let h = |g: G| -> (p: Pure<G>)
            ensures
                p.0 == g,
            {
                Pure(g)
            };
        LoggingT(h, PhantomData)
    }
}

impl<MSG: Copy, H: FnOnce() -> (), G: Fn(Level, MSG) -> IO<H>> LoggingT<Level, MSG, H, G, ()> {
    /// Log `message` at the trace level.
    pub fn trace(message: MSG) -> (r: LoggingT<Level, MSG, H, G, impl Fn(G) -> IO<H>>)
        ensures
            r.total(),
            forall|g: G, io: IO<H>| #[trigger] r.runs(g, io) ==> call_ensures(g, (Level::Trace, message), io),
    {
        Self::log(Level::Trace, message)
    }

    /// Log `message` at the debug level.
    pub fn debug(message: MSG) -> (r: LoggingT<Level, MSG, H, G, impl Fn(G) -> IO<H>>)
        ensures
            r.total(),
            forall|g: G, io: IO<H>| #[trigger] r.runs(g, io) ==> call_ensures(g, (Level::Debug, message), io),
    {
        Self::log(Level::Debug, message)
    }

    /// Log `message` at the info level.
    pub fn info(message: MSG) -> (r: LoggingT<Level, MSG, H, G, impl Fn(G) -> IO<H>>)
        ensures
            r.total(),
            forall|g: G, io: IO<H>| #[trigger] r.runs(g, io) ==> call_ensures(g, (Level::Info, message), io),
    {
        Self::log(Level::Info, message)
    }

    /// Log `message` at the warn level.
    pub fn warn(message: MSG) -> (r: LoggingT<Level, MSG, H, G, impl Fn(G) -> IO<H>>)
        ensures
            r.total(),
            forall|g: G, io: IO<H>| #[trigger] r.runs(g, io) ==> call_ensures(g, (Level::Warn, message), io),
    {
        Self::log(Level::Warn, message)
    }

    /// Log `message` at the error level.
    pub fn error(message: MSG) -> (r: LoggingT<Level, MSG, H, G, impl Fn(G) -> IO<H>>)
        ensures
            r.total(),
            forall|g: G, io: IO<H>| #[trigger] r.runs(g, io) ==> call_ensures(g, (Level::Error, message), io),
    {
        Self::log(Level::Error, message)
    }
}

/// A logger of messages with their depth: `f` gets each message indented by its depth.
pub fn indent_logger<L, T, R, F: Fn(L, Indent<T>) -> R>(f: F) -> (r: impl Fn(L, (T, usize)) -> R)
    requires
        total2(f),
    ensures
        total2(r),
        forall|l: L, m: (T, usize), o: R| #[trigger] call_ensures(r, (l, m), o) ==> call_ensures(
            f,
            (l, Indent(m.0, m.1)),
            o,
        ),
{
    move |level: L, md: (T, usize)| -> (o: R)
        ensures
            call_ensures(f, (level, Indent(md.0, md.1)), o),
        {
            let (message, depth) = md;
            f(level, Indent::new(message, depth))
        }
}

} // verus!
