//! Lazy computations.

use vstd::prelude::*;

use crate::base::data::functor::total1;
use crate::base::data::monoid::{concat_model, models, Monoid};
use crate::base::data::semigroup::Semigroup;

verus! {

/// A yet-to-be computed value: a function of no arguments that produces it when run.
///
/// A value of `Lazy` is described by what running it may produce:
/// `yields(x, t)` states that running `x` may produce `t`.
pub struct Lazy<F>(pub F);

impl<F> Lazy<F> {
    /// Whether `self` can be run.
    pub open spec fn runnable<T>(self) -> bool
        where
            F: FnOnce() -> T,
    {
        call_requires(self.0, ())
    }

    /// Whether running `self` may produce `t`.
    pub open spec fn yields<T>(self, t: T) -> bool
        where
            F: FnOnce() -> T,
    {
        call_ensures(self.0, (), t)
    }

    /// Construct a new lazy value from a nullary function.
    pub fn new<T>(f: F) -> (r: Lazy<F>)
        where
            F: FnOnce() -> T,
        ensures
            r.0 == f,
    {
        Lazy(f)
    }

    /// Evaluate the lazy value, producing a concrete value.
    pub fn run<T>(self) -> (r: T)
        where
            F: FnOnce() -> T,
        requires
            self.runnable(),
        ensures
            self.yields(r),
    {
        (self.0)()
    }

    /// Map a function over the value to be computed.
    pub fn fmap<T, U, G: Fn(T) -> U>(self, g: G) -> (r: Lazy<impl FnOnce() -> U>)
        where
            F: FnOnce() -> T,
        requires
            self.runnable(),
            total1(g),
        ensures
            r.runnable(),
            forall|u: U| #[trigger] r.yields(u) ==> exists|t: T| #[trigger]
                call_ensures(self.0, (), t) && call_ensures(g, (t,), u),
    {
        let f = self.0;
        let h = move || -> (u: U)
            ensures
                exists|t: T| #[trigger] call_ensures(f, (), t) && call_ensures(g, (t,), u),
            {
                let t = f();
                g(t)
            };
        Lazy(h)
    }

    /// Sequentially compose: run `self`, then the lazy value that `k` gives for its result.
    pub fn chain_m<T, U, G: FnOnce() -> U, K: Fn(T) -> Lazy<G>>(self, k: K) -> (r: Lazy<
        impl FnOnce() -> U,
    >)
        where
            F: FnOnce() -> T,
        requires
            self.runnable(),
            total1(k),
            forall|t: T, m: Lazy<G>| #[trigger] call_ensures(k, (t,), m) ==> m.runnable(),
        ensures
            r.runnable(),
            forall|u: U| #[trigger] r.yields(u) ==> exists|t: T, m: Lazy<G>|
                self.yields(t) && call_ensures(k, (t,), m) && m.yields(u),
    {
        let f = self.0;
        let h = move || -> (u: U)
            ensures
                exists|t: T, m: Lazy<G>|
                    call_ensures(f, (), t) && call_ensures(k, (t,), m) && call_ensures(m.0, (), u),
            {
                let t = f();
                let m = k(t);
                (m.0)()
            };
        Lazy(h)
    }

    /// Sequential application: compute the function of `self`, then the argument of `a`,
    /// and apply the one to the other.
    pub fn app_a<H, A, B, G: FnOnce() -> A>(self, a: Lazy<G>) -> (r: Lazy<impl FnOnce() -> B>)
        where
            F: FnOnce() -> H,
            H: FnOnce(A) -> B,
        requires
            self.runnable(),
            a.runnable(),
            forall|h: H| #[trigger] self.yields(h) ==> forall|x: A| #[trigger] call_requires(h, (x,)),
        ensures
            r.runnable(),
            forall|b: B| #[trigger] r.yields(b) ==> exists|h: H, x: A|
                self.yields(h) && a.yields(x) && call_ensures(h, (x,), b),
    {
        let ghost this = self;
        let f = self.0;
        let g = a.0;
        proof {
            assert forall|h: H| #[trigger] call_ensures(f, (), h) implies forall|x: A| #[trigger] call_requires(h, (x,)) by {
                assert(this.yields(h));
            }
        }
        let k = move || -> (b: B)
            requires
                call_requires(f, ()),
                call_requires(g, ()),
                forall|h: H| #[trigger] call_ensures(f, (), h) ==> forall|x: A| #[trigger] call_requires(h, (x,)),
            ensures
                exists|h: H, x: A| call_ensures(f, (), h) && call_ensures(g, (), x) && call_ensures(h, (x,), b),
            {
                let h = f();
                let x = g();
                h(x)
            };
        Lazy(k)
    }
}

/// Lift a value into a lazy computation that produces it.
pub fn pure_a<T>(t: T) -> (r: Lazy<impl FnOnce() -> T>)
    ensures
        r.runnable(),
        forall|u: T| #[trigger] r.yields(u) ==> u == t,
{
    let h = move || -> (u: T) ensures u == t { t };
    Lazy(h)
}

/// Combine the values of two lazy computations with the semigroup operation.
pub fn assoc_s<T: Semigroup, F: FnOnce() -> T, G: FnOnce() -> T>(a: Lazy<F>, b: Lazy<G>) -> (r: Lazy<
    impl FnOnce() -> T,
>)
    requires
        a.runnable(),
        b.runnable(),
        forall|x: T, y: T| a.yields(x) && b.yields(y) ==> T::combinable(x.model(), y.model()),
    ensures
        r.runnable(),
        forall|t: T| #[trigger] r.yields(t) ==> exists|x: T, y: T|
            a.yields(x) && b.yields(y) && t.model() == T::combine(x.model(), y.model()),
{
    let f = a.0;
    let g = b.0;
    let h = move || -> (t: T)
        ensures
            exists|x: T, y: T|
                call_ensures(f, (), x) && call_ensures(g, (), y) && t.model() == T::combine(
                    x.model(),
                    y.model(),
                ),
        {
            let x = f();
            let y = g();
            x.assoc_s(y)
        };
    Lazy(h)
}

/// Computing the values `ls` in order may produce `ys`.
pub open spec fn yields_all<T, F: FnOnce() -> T>(ls: Seq<Lazy<F>>, ys: Seq<T>) -> bool {
    &&& ys.len() == ls.len()
    &&& forall|i: int| 0 <= i < ls.len() ==> #[trigger] ls[i].yields(ys[i])
}

/// A lazy value that computes the values of a list in order and combines them with the
/// monoid: `mconcat = foldr(assoc_s, mempty)`.
pub fn mconcat<T: Monoid, F: FnOnce() -> T>(list: Vec<Lazy<F>>) -> (r: Lazy<impl FnOnce() -> T>)
    requires
        forall|i: int| 0 <= i < list@.len() ==> (#[trigger] list@[i]).runnable(),
        forall|ys: Seq<T>| #[trigger] yields_all(list@, ys) ==> T::mconcat_ok(models(ys)),
    ensures
        r.runnable(),
        forall|t: T| #[trigger] r.yields(t) ==> exists|ys: Seq<T>|
            #[trigger] yields_all(list@, ys) && t.model() == concat_model::<T>(models(ys), T::empty_model()),
{
    let ghost ls = list@;
    let h = move || -> (t: T)
        requires
            list@ == ls,
            forall|i: int| 0 <= i < ls.len() ==> (#[trigger] ls[i]).runnable(),
            forall|ys: Seq<T>| #[trigger] yields_all(ls, ys) ==> T::mconcat_ok(models(ys)),
        ensures
            exists|ys: Seq<T>|
                #[trigger] yields_all(ls, ys) && t.model() == concat_model::<T>(models(ys), T::empty_model()),
        {
            let mut ys: Vec<T> = Vec::new();
            for l in it: list
                invariant
                    it.seq() == ls,
                    forall|i: int| 0 <= i < ls.len() ==> (#[trigger] ls[i]).runnable(),
                    ys@.len() == it.index(),
                    forall|i: int| 0 <= i < it.index() ==> #[trigger] ls[i].yields(ys@[i]),
            {
                let y = l.run();
                ys.push(y);
            }
            assert(yields_all(ls, ys@));
            T::mconcat(ys)
        };
    Lazy(h)
}

/// The lazy computation of the identity of a monoid.
pub fn mempty<T: Monoid>() -> (r: Lazy<impl FnOnce() -> T>)
    ensures
        r.runnable(),
        forall|t: T| #[trigger] r.yields(t) ==> t.model() == T::empty_model(),
{
    let h = || -> (t: T) ensures t.model() == T::empty_model() { T::mempty() };
    Lazy(h)
}

} // verus!
