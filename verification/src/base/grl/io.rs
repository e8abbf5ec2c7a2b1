//! Monadic I/O actions.
//!
//! A value of type [`IO`] is a computation which, when performed, does some I/O before
//! returning a value. Building and combining actions is pure; only [`IO::run`]
//! performs them, so it should be called from impure code only (such as `main`).

use vstd::prelude::*;

use crate::base::data::functor::total1;
use crate::base::data::monoid::{concat_model, models, Monoid};
use crate::base::data::semigroup::Semigroup;

verus! {

/// An I/O action: a function of no arguments that performs the action when called.
///
/// An action is described by what running it may produce: `yields(x, t)` states that
/// running `x` may produce `t`. What it does to the outside world is not modelled.
#[derive(Clone, Copy)]
pub struct IO<F>(pub F);

impl<F> IO<F> {
    /// Whether `self` can be run.
    pub open spec fn runnable<T>(self) -> bool
        where
            F: FnOnce() -> T,
    {
        call_requires(self.0, ())
    }

    /// Whether running `self` may produce `t`.
    pub open spec fn yields<T>(self, t: T) -> bool
        where
            F: FnOnce() -> T,
    {
        call_ensures(self.0, (), t)
    }

    /// Construct a new I/O action from a nullary function.
    pub fn new<T>(f: F) -> (r: IO<F>)
        where
            F: FnOnce() -> T,
        ensures
            r.0 == f,
    {
        IO(f)
    }

    /// Run the I/O action, producing its output.
    pub fn run<T>(self) -> (r: T)
        where
            F: FnOnce() -> T,
        requires
            self.runnable(),
        ensures
            self.yields(r),
    {
        (self.0)()
    }

    /// Map a function over the output of the action.
    pub fn fmap<T, U, G: Fn(T) -> U>(self, g: G) -> (r: IO<impl FnOnce() -> U>)
        where
            F: FnOnce() -> T,
        requires
            self.runnable(),
            total1(g),
        ensures
            r.runnable(),
            forall|u: U| #[trigger] r.yields(u) ==> exists|t: T| #[trigger]
                call_ensures(self.0, (), t) && call_ensures(g, (t,), u),
    {
        let f = self.0;
        let h = move || -> (u: U)
            ensures
                exists|t: T| #[trigger] call_ensures(f, (), t) && call_ensures(g, (t,), u),
            {
                let t = f();
                g(t)
            };
        IO(h)
    }

    /// Sequentially compose: run `self`, then the action that `k` gives for its result.
    pub fn chain_m<T, U, G: FnOnce() -> U, K: Fn(T) -> IO<G>>(self, k: K) -> (r: IO<
        impl FnOnce() -> U,
    >)
        where
            F: FnOnce() -> T,
        requires
            self.runnable(),
            total1(k),
            forall|t: T, m: IO<G>| #[trigger] call_ensures(k, (t,), m) ==> m.runnable(),
        ensures
            r.runnable(),
            forall|u: U| #[trigger] r.yields(u) ==> exists|t: T, m: IO<G>|
                self.yields(t) && call_ensures(k, (t,), m) && m.yields(u),
    {
        let f = self.0;
        let h = move || -> (u: U)
            ensures
                exists|t: T, m: IO<G>|
                    call_ensures(f, (), t) && call_ensures(k, (t,), m) && call_ensures(m.0, (), u),
            {
                let t = f();
                let m = k(t);
                (m.0)()
            };
        IO(h)
    }
}

impl<F> IO<F> {
    /// Sequential application: run `self` for a function, then `a` for an argument, and
    /// apply the one to the other.
    pub fn app_a<H, A, B, G: FnOnce() -> A>(self, a: IO<G>) -> (r: IO<impl FnOnce() -> B>)
        where
            F: FnOnce() -> H,
            H: FnOnce(A) -> B,
        requires
            self.runnable(),
            a.runnable(),
            forall|h: H| #[trigger] self.yields(h) ==> forall|x: A| #[trigger] call_requires(h, (x,)),
        ensures
            r.runnable(),
            forall|b: B| #[trigger] r.yields(b) ==> exists|h: H, x: A|
                self.yields(h) && a.yields(x) && call_ensures(h, (x,), b),
    {
        let ghost this = self;
        let f = self.0;
        let g = a.0;
        proof {
            assert forall|h: H| #[trigger] call_ensures(f, (), h) implies forall|x: A| #[trigger] call_requires(h, (x,)) by {
                assert(this.yields(h));
            }
        }
        let k = move || -> (b: B)
            requires
                call_requires(f, ()),
                call_requires(g, ()),
                forall|h: H| #[trigger] call_ensures(f, (), h) ==> forall|x: A| #[trigger] call_requires(h, (x,)),
            ensures
                exists|h: H, x: A| call_ensures(f, (), h) && call_ensures(g, (), x) && call_ensures(h, (x,), b),
            {
                let h = f();
                let x = g();
                h(x)
            };
        IO(k)
    }

    /// Sequentially compose, discarding the result of `self`: run `self`, then `n`.
    pub fn then_m<T, U, G: FnOnce() -> U>(self, n: IO<G>) -> (r: IO<impl FnOnce() -> U>)
        where
            F: FnOnce() -> T,
        requires
            self.runnable(),
            n.runnable(),
        ensures
            r.runnable(),
            forall|u: U| #[trigger] r.yields(u) ==> n.yields(u),
    {
        let f = self.0;
        let g = n.0;
        let h = move || -> (u: U)
            ensures
                call_ensures(g, (), u),
            {
                let _ = f();
                g()
            };
        IO(h)
    }
}

/// Lift a value into an action that produces it without doing anything.
pub fn pure_a<T>(t: T) -> (r: IO<impl FnOnce() -> T>)
    ensures
        r.runnable(),
        forall|u: T| #[trigger] r.yields(u) ==> u == t,
{
    let h = move || -> (u: T) ensures u == t { t };
    IO(h)
}

/// Combine the values of two actions with the semigroup operation.
pub fn assoc_s<T: Semigroup, F: FnOnce() -> T, G: FnOnce() -> T>(a: IO<F>, b: IO<G>) -> (r: IO<
    impl FnOnce() -> T,
>)
    requires
        a.runnable(),
        b.runnable(),
        forall|x: T, y: T| a.yields(x) && b.yields(y) ==> T::combinable(x.model(), y.model()),
    ensures
        r.runnable(),
        forall|t: T| #[trigger] r.yields(t) ==> exists|x: T, y: T|
            a.yields(x) && b.yields(y) && t.model() == T::combine(x.model(), y.model()),
{
    let f = a.0;
    let g = b.0;
    let h = move || -> (t: T)
        ensures
            exists|x: T, y: T|
                call_ensures(f, (), x) && call_ensures(g, (), y) && t.model() == T::combine(
                    x.model(),
                    y.model(),
                ),
        {
            let x = f();
            let y = g();
            x.assoc_s(y)
        };
    IO(h)
}

/// Running the actions `ios` in order may produce the values `ys`.
pub open spec fn yields_all<T, F: FnOnce() -> T>(ios: Seq<IO<F>>, ys: Seq<T>) -> bool {
    &&& ys.len() == ios.len()
    &&& forall|i: int| 0 <= i < ios.len() ==> #[trigger] ios[i].yields(ys[i])
}

/// An action that runs the actions of a list in order and combines their values with the
/// monoid: `mconcat = foldr(assoc_s, mempty)`.
pub fn mconcat<T: Monoid, F: FnOnce() -> T>(list: Vec<IO<F>>) -> (r: IO<impl FnOnce() -> T>)
    requires
        forall|i: int| 0 <= i < list@.len() ==> (#[trigger] list@[i]).runnable(),
        forall|ys: Seq<T>| #[trigger] yields_all(list@, ys) ==> T::mconcat_ok(models(ys)),
    ensures
        r.runnable(),
        forall|t: T| #[trigger] r.yields(t) ==> exists|ys: Seq<T>|
            #[trigger] yields_all(list@, ys) && t.model() == concat_model::<T>(models(ys), T::empty_model()),
{
    let ghost ios = list@;
    let h = move || -> (t: T)
        requires
            list@ == ios,
            forall|i: int| 0 <= i < ios.len() ==> (#[trigger] ios[i]).runnable(),
            forall|ys: Seq<T>| #[trigger] yields_all(ios, ys) ==> T::mconcat_ok(models(ys)),
        ensures
            exists|ys: Seq<T>|
                #[trigger] yields_all(ios, ys) && t.model() == concat_model::<T>(models(ys), T::empty_model()),
        {
            let mut ys: Vec<T> = Vec::new();
            for io in it: list
                invariant
                    it.seq() == ios,
                    forall|i: int| 0 <= i < ios.len() ==> (#[trigger] ios[i]).runnable(),
                    ys@.len() == it.index(),
                    forall|i: int| 0 <= i < it.index() ==> #[trigger] ios[i].yields(ys@[i]),
            {
                let y = io.run();
                ys.push(y);
            }
            assert(yields_all(ios, ys@));
            T::mconcat(ys)
        };
    IO(h)
}

/// The action of the identity of a monoid.
pub fn mempty<T: Monoid>() -> (r: IO<impl FnOnce() -> T>)
    ensures
        r.runnable(),
        forall|t: T| #[trigger] r.yields(t) ==> t.model() == T::empty_model(),
{
    let h = || -> (t: T) ensures t.model() == T::empty_model() { T::mempty() };
    IO(h)
}

} // verus!
