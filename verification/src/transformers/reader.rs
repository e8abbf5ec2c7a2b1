//! Reader monads: computations that read a shared, read-only environment.
//!
//! A computation of `ReaderT<R, M, F>` is a function `F` from an environment `R` to a
//! computation `M` of the inner monad. `fmap`, `chain_m`, `then_m` and `app_a` work over
//! any inner monad, through the inner monad's own bind and map; a computation is then
//! specified by `runs_to`. With the identity monad inside (the alias [`Reader`]), a
//! computation maps an environment to a value; it is specified by `runs`. Where the
//! environment is handed to several computations, each gets a clone.

use std::marker::PhantomData;

use vstd::prelude::*;

use crate::base::data::functor::{ensures1, total1, within, ChainM, Functor, PureA};
use crate::base::data::identity::Identity;
use crate::base::grl::io::IO;

verus! {

/// A reader transformer: a function from an environment to a computation `M` in the inner monad.
pub struct ReaderT<R, M, F>(pub F, pub PhantomData<(R, M)>);

/// A reader over the identity monad: a function from an environment to a value.
pub type Reader<R, A, F> = ReaderT<R, Identity<A>, F>;

impl<R, M, F: Fn(R) -> M> ReaderT<R, M, F> {
    /// Whether the computation can be run in every environment.
    #[verifier::inline]
    pub open spec fn total(&self) -> bool {
        forall|r: R| call_requires(self.0, (r,))
    }

    /// Whether running the computation in `r` may give `m`.
    #[verifier::inline]
    pub open spec fn runs_to(&self, r: R, m: M) -> bool {
        call_ensures(self.0, (r,), m)
    }

    /// Build a reader transformer from a function.
    pub fn new_t(f: F) -> (r: Self)
        ensures
            r.0 == f,
    {
        ReaderT(f, PhantomData)
    }

    /// Run the computation in an environment.
    pub fn run_t(&self, r: R) -> (m: M)
        requires
            call_requires(self.0, (r,)),
        ensures
            self.runs_to(r, m),
    {
        (self.0)(r)
    }

    /// Transform the inner computation: `runReaderT (mapReaderT f m) = f . runReaderT m`.
    pub fn map_t<N, G: Fn(M) -> N>(self, g: G) -> (res: ReaderT<R, N, impl Fn(R) -> N>)
        requires
            self.total(),
            total1(g),
        ensures
            res.total(),
            forall|r: R, n: N| #[trigger] res.runs_to(r, n) ==> exists|m: M|
                #[trigger] self.runs_to(r, m) && call_ensures(g, (m,), n),
    {
        let f = self.0;
        let h = move |r: R| -> (n: N)
            ensures
                exists|m: M| #[trigger] call_ensures(&f, (r,), m) && call_ensures(&g, (m,), n),
            {
                let m = f(r);
                g(m)
            };
        ReaderT(h, PhantomData)
    }

    /// Run the computation in an environment modified by `g`:
    /// `runReaderT (withReaderT f m) = runReaderT m . f`.
    pub fn with_t<B, G: Fn(B) -> R>(self, g: G) -> (res: ReaderT<B, M, impl Fn(B) -> M>)
        requires
            self.total(),
            total1(g),
        ensures
            res.total(),
            forall|b: B, m: M| #[trigger] res.runs_to(b, m) ==> exists|r: R|
                #[trigger] call_ensures(g, (b,), r) && self.runs_to(r, m),
    {
        let f = self.0;
        let h = move |b: B| -> (m: M)
            ensures
                exists|r: R| #[trigger] call_ensures(&g, (b,), r) && call_ensures(&f, (r,), m),
            {
                let r = g(b);
                f(r)
            };
        ReaderT(h, PhantomData)
    }

    /// Run the computation in an environment modified by `g` (the same as [`ReaderT::with_t`]).
    pub fn local<G: Fn(R) -> R>(self, g: G) -> (res: ReaderT<R, M, impl Fn(R) -> M>)
        requires
            self.total(),
            total1(g),
        ensures
            res.total(),
            forall|b: R, m: M| #[trigger] res.runs_to(b, m) ==> exists|r: R|
                #[trigger] call_ensures(g, (b,), r) && self.runs_to(r, m),
    {
        self.with_t(g)
    }
}

impl<R, A, F: Fn(R) -> Identity<A>> ReaderT<R, Identity<A>, F> {
    /// Whether running in the environment `r` may give the value `a`.
    #[verifier::inline]
    pub open spec fn runs(&self, r: R, a: A) -> bool {
        call_ensures(self.0, (r,), Identity(a))
    }

    /// Run a reader in an environment and give its value.
    pub fn run(&self, r: R) -> (a: A)
        requires
            self.total(),
        ensures
            self.runs(r, a),
    {
        (self.0)(r).run()
    }

    /// Map a function over the value of a reader: `runReader (mapReader f m) = f . runReader m`.
    pub fn map<B, G: Fn(A) -> B>(self, g: G) -> (res: Reader<R, B, impl Fn(R) -> Identity<B>>)
        requires
            self.total(),
            total1(g),
        ensures
            res.total(),
            forall|r: R, b: B| #[trigger] res.runs(r, b) ==> exists|a: A|
                #[trigger] self.runs(r, a) && call_ensures(g, (a,), b),
    {
        let f = self.0;
        let h = move |r: R| -> (o: Identity<B>)
            ensures
                exists|a: A| #[trigger] call_ensures(&f, (r,), Identity(a)) && call_ensures(&g, (a,), o.0),
            {
                let a = f(r).0;
                let ghost a0 = a;
                let o = Identity(g(a));
                proof {
                    assert(call_ensures(&f, (r,), Identity(a0)));
                }
                o
            };
        ReaderT(h, PhantomData)
    }

    /// Run a reader in an environment modified by `g`:
    /// `runReader (withReader f m) = runReader m . f`.
    pub fn with<B, G: Fn(B) -> R>(self, g: G) -> (res: Reader<B, A, impl Fn(B) -> Identity<A>>)
        requires
            self.total(),
            total1(g),
        ensures
            res.total(),
            forall|b: B, a: A| #[trigger] res.runs(b, a) ==> exists|r: R|
                #[trigger] call_ensures(g, (b,), r) && self.runs(r, a),
    {
        self.with_t(g)
    }
}


/// What the bind of [`ReaderT`] does with a value given by the first computation, in the
/// environment `r`: the value goes to a function whose calls are described by `krel`, and
/// the reader it gives runs in a clone of `r`.
pub open spec fn reader_step<R: Clone, A, MB, G: Fn(R) -> MB>(
    krel: spec_fn(A, ReaderT<R, MB, G>) -> bool,
    r: R,
) -> spec_fn(A, MB) -> bool {
    |a: A, mb: MB|
        exists|n: ReaderT<R, MB, G>, c: R|
            #![trigger krel(a, n), vstd::pervasive::cloned(r, c)]
            krel(a, n) && vstd::pervasive::cloned(r, c) && n.runs_to(c, mb)
}

/// What `then_m` does with a value given by the first computation, in the environment
/// `r`: the value is dropped and `n` runs in a clone of `r`.
pub open spec fn reader_then_step<R: Clone, A, MB, G: Fn(R) -> MB>(n: ReaderT<R, MB, G>, r: R) -> spec_fn(A, MB) -> bool {
    |a: A, mb: MB| exists|c: R| #[trigger] vstd::pervasive::cloned(r, c) && n.runs_to(c, mb)
}

/// What sequential application does with a function given by the first computation, in
/// the environment `r`: the arguments' reader `v` runs in a clone of `r`, and the function
/// is mapped over its value.
pub open spec fn reader_app_step<R: Clone, H: Fn(A) -> B, A, B, MX, MB, G: Fn(R) -> MX>(
    v: ReaderT<R, MX, G>,
    r: R,
) -> spec_fn(H, MB) -> bool
    where
        MX: Functor<B, Pointed = A, Mapped = MB>,
{
    |h: H, mb: MB|
        exists|c: R, ma: MX, inner: spec_fn(A, B) -> bool|
            #![trigger vstd::pervasive::cloned(r, c), v.runs_to(c, ma), within(inner, ensures1(h))]
            vstd::pervasive::cloned(r, c) && v.runs_to(c, ma) && within(inner, ensures1(h)) && MX::fmapped(ma, inner, mb)
}

impl<R, M, F: Fn(R) -> M> ReaderT<R, M, F> {
    /// Map a function over the value of a reader, over any inner functor.
    pub fn fmap<A, B, MB, G: Fn(A) -> B>(self, g: G) -> (res: ReaderT<R, MB, impl Fn(R) -> MB>)
        where
            M: Functor<B, Pointed = A, Mapped = MB>,
        requires
            self.total(),
            total1(g),
        ensures
            res.total(),
            forall|r: R, mb: MB| #[trigger] res.runs_to(r, mb) ==> exists|ma: M, inner: spec_fn(A, B) -> bool|
                #![trigger self.runs_to(r, ma), within(inner, ensures1(g))]
                self.runs_to(r, ma) && within(inner, ensures1(g)) && M::fmapped(ma, inner, mb),
    {
        let f = self.0;
        let h = move |r: R| -> (mb: MB)
            ensures
                exists|ma: M, inner: spec_fn(A, B) -> bool|
                    #![trigger call_ensures(&f, (r,), ma), within(inner, ensures1(*&g))]
                    call_ensures(&f, (r,), ma) && within(inner, ensures1(*&g)) && M::fmapped(ma, inner, mb),
            {
                let ma = f(r);
                let ghost ma0 = ma;
                let k = |a: A| -> (b: B)
                    ensures
                        call_ensures(&g, (a,), b),
                    {
                        g(a)
                    };
                let mb = ma.fmap(k);
                proof {
                    assert(within(ensures1(k), ensures1(*&g)));
                    assert(call_ensures(&f, (r,), ma0));
                }
                mb
            };
        ReaderT(h, PhantomData)
    }

    /// Sequentially compose over any inner monad: run `self` in a clone of the environment,
    /// pass its value to `k`, and run the reader that `k` gives in a clone of the
    /// environment, bound in the inner monad.
    pub fn chain_m<A, B, MB, G: Fn(R) -> MB, K: Fn(A) -> ReaderT<R, MB, G>>(self, k: K) -> (res: ReaderT<
        R,
        MB,
        impl Fn(R) -> MB,
    >)
        where
            R: Clone,
            M: ChainM<B, Pointed = A, Chained = MB>,
        requires
            self.total(),
            total1(k),
            forall|a: A, n: ReaderT<R, MB, G>| #[trigger] call_ensures(k, (a,), n) ==> n.total(),
        ensures
            res.total(),
            forall|r: R, mb: MB| #[trigger] res.runs_to(r, mb) ==> exists|c: R, ma: M, inner: spec_fn(A, MB) -> bool|
                #![trigger self.runs_to(c, ma), within(inner, reader_step(ensures1(k), r))]
                vstd::pervasive::cloned(r, c) && self.runs_to(c, ma) && within(inner, reader_step(ensures1(k), r))
                    && M::chained(ma, inner, mb),
    {
        let f = self.0;
        let h = move |r: R| -> (mb: MB)
            ensures
                exists|c: R, ma: M, inner: spec_fn(A, MB) -> bool|
                    #![trigger call_ensures(&f, (c,), ma), within(inner, reader_step(ensures1(*&k), r))]
                    vstd::pervasive::cloned(r, c) && call_ensures(&f, (c,), ma) && within(inner, reader_step(ensures1(*&k), r))
                        && M::chained(ma, inner, mb),
            {
                let c = r.clone();
                let ghost c0 = c;
                let ma = f(c);
                let ghost ma0 = ma;
                let k2 = |a: A| -> (mb: MB)
                    ensures
                        exists|n: ReaderT<R, MB, G>, c2: R|
                            #![trigger call_ensures(&k, (a,), n), vstd::pervasive::cloned(*&r, c2)]
                            call_ensures(&k, (a,), n) && vstd::pervasive::cloned(*&r, c2) && call_ensures(n.0, (c2,), mb),
                    {
                        let n = k(a);
                        let c2 = r.clone();
                        let ghost c20 = c2;
                        assert(vstd::pervasive::cloned(*&r, c20));
                        let mb = (n.0)(c2);
                        proof {
                            assert(call_ensures(n.0, (c20,), mb));
                        }
                        mb
                    };
                let mb = ma.chain_m(k2);
                proof {
                    assert forall|a: A, mb: MB| #[trigger] ensures1(k2)(a, mb) implies reader_step::<R, A, MB, G>(
                        ensures1(*&k),
                        r,
                    )(a, mb) by {
                        let (n, c2) = choose|n: ReaderT<R, MB, G>, c2: R|
                            #![trigger call_ensures(&k, (a,), n), vstd::pervasive::cloned(*&r, c2)]
                            call_ensures(&k, (a,), n) && vstd::pervasive::cloned(*&r, c2) && call_ensures(n.0, (c2,), mb);
                        assert(ensures1(*&k)(a, n));
                    }
                    assert(within(ensures1(k2), reader_step::<R, A, MB, G>(ensures1(*&k), r)));
                    assert(call_ensures(&f, (c0,), ma0));
                }
                mb
            };
        ReaderT(h, PhantomData)
    }

    /// Sequentially compose over any inner monad, discarding the value of `self`: `m >> n`.
    pub fn then_m<A, B, MB, G: Fn(R) -> MB>(self, n: ReaderT<R, MB, G>) -> (res: ReaderT<R, MB, impl Fn(R) -> MB>)
        where
            R: Clone,
            M: ChainM<B, Pointed = A, Chained = MB>,
        requires
            self.total(),
            n.total(),
        ensures
            res.total(),
            forall|r: R, mb: MB| #[trigger] res.runs_to(r, mb) ==> exists|c: R, ma: M, inner: spec_fn(A, MB) -> bool|
                #![trigger self.runs_to(c, ma), within(inner, reader_then_step::<R, A, MB, G>(n, r))]
                vstd::pervasive::cloned(r, c) && self.runs_to(c, ma) && within(inner, reader_then_step::<R, A, MB, G>(n, r))
                    && M::chained(ma, inner, mb),
    {
        let f = self.0;
        let g = n.0;
        let h = move |r: R| -> (mb: MB)
            ensures
                exists|c: R, ma: M, inner: spec_fn(A, MB) -> bool|
                    #![trigger call_ensures(&f, (c,), ma), within(inner, reader_then_step::<R, A, MB, G>(ReaderT(*&g, PhantomData), r))]
                    vstd::pervasive::cloned(r, c) && call_ensures(&f, (c,), ma) && within(
                        inner,
                        reader_then_step::<R, A, MB, G>(ReaderT(*&g, PhantomData), r),
                    ) && M::chained(ma, inner, mb),
            {
                let c = r.clone();
                let ghost c0 = c;
                let ma = f(c);
                let ghost ma0 = ma;
                let k2 = |a: A| -> (mb: MB)
                    ensures
                        exists|c2: R| #[trigger] vstd::pervasive::cloned(*&r, c2) && call_ensures(&g, (c2,), mb),
                    {
                        let c2 = r.clone();
                        let ghost c20 = c2;
                        assert(vstd::pervasive::cloned(*&r, c20));
                        let mb = g(c2);
                        proof {
                            assert(call_ensures(&g, (c20,), mb));
                        }
                        mb
                    };
                let mb = ma.chain_m(k2);
                proof {
                    assert(within(ensures1(k2), reader_then_step::<R, A, MB, G>(ReaderT(*&g, PhantomData), r)));
                    assert(call_ensures(&f, (c0,), ma0));
                }
                mb
            };
        proof {
            assert(n == ReaderT::<R, MB, G>(g, PhantomData));
        }
        ReaderT(h, PhantomData)
    }

    /// Sequential application over any inner monad: the function that `self` reads (in a
    /// clone of the environment) is mapped over the value that `v` reads (in a clone).
    pub fn app_a<H: Fn(A) -> B, A, B, MX, MB, G: Fn(R) -> MX>(self, v: ReaderT<R, MX, G>) -> (res: ReaderT<
        R,
        MB,
        impl Fn(R) -> MB,
    >)
        where
            R: Clone,
            M: ChainM<B, Pointed = H, Chained = MB>,
            MX: Functor<B, Pointed = A, Mapped = MB>,
        requires
            self.total(),
            v.total(),
            forall|h: H, a: A| call_requires(h, (a,)),
        ensures
            res.total(),
            forall|r: R, mb: MB| #[trigger] res.runs_to(r, mb) ==> exists|c: R, mf: M, inner: spec_fn(H, MB) -> bool|
                #![trigger self.runs_to(c, mf), within(inner, reader_app_step::<R, H, A, B, MX, MB, G>(v, r))]
                vstd::pervasive::cloned(r, c) && self.runs_to(c, mf) && within(
                    inner,
                    reader_app_step::<R, H, A, B, MX, MB, G>(v, r),
                ) && M::chained(mf, inner, mb),
    {
        let f = self.0;
        let g = v.0;
        let h = move |r: R| -> (mb: MB)
            ensures
                exists|c: R, mf: M, inner: spec_fn(H, MB) -> bool|
                    #![trigger call_ensures(&f, (c,), mf), within(inner, reader_app_step::<R, H, A, B, MX, MB, G>(ReaderT(*&g, PhantomData), r))]
                    vstd::pervasive::cloned(r, c) && call_ensures(&f, (c,), mf) && within(
                        inner,
                        reader_app_step::<R, H, A, B, MX, MB, G>(ReaderT(*&g, PhantomData), r),
                    ) && M::chained(mf, inner, mb),
            {
                let c = r.clone();
                let ghost c0 = c;
                let mf = f(c);
                let ghost mf0 = mf;
                let k2 = |hh: H| -> (mb: MB)
                    ensures
                        reader_app_step::<R, H, A, B, MX, MB, G>(ReaderT(*&g, PhantomData), *&r)(hh, mb),
                    {
                        let ghost hh0 = hh;
                        let c2 = r.clone();
                        let ghost c20 = c2;
                        assert(vstd::pervasive::cloned(*&r, c20));
                        let ma = g(c2);
                        let ghost ma0 = ma;
                        let k3 = move |a: A| -> (b: B)
                            ensures
                                call_ensures(*&hh, (a,), b),
                            {
                                hh(a)
                            };
                        let mb = ma.fmap(k3);
                        proof {
                            assert(within(ensures1(k3), ensures1(hh0)));
                            assert(ReaderT::<R, MX, G>(*&g, PhantomData).runs_to(c20, ma0));
                        }
                        mb
                    };
                let mb = mf.chain_m(k2);
                proof {
                    assert(within(ensures1(k2), reader_app_step::<R, H, A, B, MX, MB, G>(ReaderT(*&g, PhantomData), r)));
                    assert(call_ensures(&f, (c0,), mf0));
                }
                mb
            };
        proof {
            assert(v == ReaderT::<R, MX, G>(g, PhantomData));
        }
        ReaderT(h, PhantomData)
    }
}

impl<R, M: PureA> ReaderT<R, M, ()> {
    /// Fetch the environment, in the inner monad `M`: `ask = return`.
    pub fn ask() -> (res: ReaderT<R, M, impl Fn(R) -> M>)
        where
            M: PureA<Pointed = R>,
        ensures
            res.total(),
            forall|r: R, m: M| #[trigger] res.runs_to(r, m) ==> M::pure_of(r, m),
    {
        let h = |r: R| -> (m: M)
            ensures
                M::pure_of(r, m),
            {
                M::pure_a(r)
            };
        ReaderT(h, PhantomData)
    }

    /// Retrieve a function of the environment, in the inner monad `M`:
    /// `asks f = return . f`.
    pub fn asks<A, G: Fn(R) -> A>(g: G) -> (res: ReaderT<R, M, impl Fn(R) -> M>)
        where
            M: PureA<Pointed = A>,
        requires
            total1(g),
        ensures
            res.total(),
            forall|r: R, m: M| #[trigger] res.runs_to(r, m) ==> exists|a: A|
                call_ensures(g, (r,), a) && #[trigger] M::pure_of(a, m),
    {
        let h = move |r: R| -> (m: M)
            ensures
                exists|a: A| call_ensures(&g, (r,), a) && #[trigger] M::pure_of(a, m),
            {
                let a = g(r);
                M::pure_a(a)
            };
        ReaderT(h, PhantomData)
    }
}

impl<R> ReaderT<R, (), ()> {
    /// Build a reader from a function of the environment (the same as [`ReaderT::asks`]).
    pub fn new<A, G: Fn(R) -> A>(g: G) -> (res: Reader<R, A, impl Fn(R) -> Identity<A>>)
        requires
            total1(g),
        ensures
            res.total(),
            forall|r: R, a: A| #[trigger] res.runs(r, a) ==> call_ensures(g, (r,), a),
    {
        let h = move |r: R| -> (o: Identity<A>)
            ensures
                call_ensures(&g, (r,), o.0),
            {
                Identity(g(r))
            };
        ReaderT(h, PhantomData)
    }

    /// A reader that ignores the environment and gives the inner computation `m`.
    pub fn lift_t<M: Copy>(m: M) -> (res: ReaderT<R, M, impl Fn(R) -> M>)
        ensures
            res.total(),
            forall|r: R, n: M| #[trigger] res.runs_to(r, n) ==> n == m,
    {
        let h = move |_r: R| -> (n: M)
            ensures
                n == m,
            {
                m
            };
        ReaderT(h, PhantomData)
    }

    /// A reader that ignores the environment and gives the I/O action `m`.
    pub fn lift_io<K: Copy>(m: IO<K>) -> (res: ReaderT<R, IO<K>, impl Fn(R) -> IO<K>>)
        ensures
            res.total(),
            forall|r: R, n: IO<K>| #[trigger] res.runs_to(r, n) ==> n == m,
    {
        Self::lift_t(m)
    }

    /// A reader that ignores the environment and gives a clone of `a` (the monadic return).
    pub fn pure_a<A: Clone>(a: A) -> (res: Reader<R, A, impl Fn(R) -> Identity<A>>)
        ensures
            res.total(),
            forall|r: R, b: A| #[trigger] res.runs(r, b) ==> vstd::pervasive::cloned(a, b),
    {
        let h = move |_r: R| -> (o: Identity<A>)
            ensures
                vstd::pervasive::cloned(*&a, o.0),
            {
                Identity(a.clone())
            };
        ReaderT(h, PhantomData)
    }

    /// The monadic return: the same as [`ReaderT::pure_a`].
    pub fn return_m<A: Clone>(a: A) -> (res: Reader<R, A, impl Fn(R) -> Identity<A>>)
        ensures
            res.total(),
            forall|r: R, b: A| #[trigger] res.runs(r, b) ==> vstd::pervasive::cloned(a, b),
    {
        Self::pure_a(a)
    }

    /// Fetch the environment.
    pub fn ask() -> (res: Reader<R, R, impl Fn(R) -> Identity<R>>)
        ensures
            res.total(),
            forall|r: R, a: R| #[trigger] res.runs(r, a) ==> a == r,
    {
        let h = |r: R| -> (o: Identity<R>)
            ensures
                o.0 == r,
            {
                Identity(r)
            };
        ReaderT(h, PhantomData)
    }

    /// Retrieve a function of the environment: `asks f = liftM f ask`.
    pub fn asks<A, G: Fn(R) -> A>(g: G) -> (res: Reader<R, A, impl Fn(R) -> Identity<A>>)
        requires
            total1(g),
        ensures
            res.total(),
            forall|r: R, a: A| #[trigger] res.runs(r, a) ==> call_ensures(g, (r,), a),
    {
        Self::new(g)
    }
}

} // verus!
