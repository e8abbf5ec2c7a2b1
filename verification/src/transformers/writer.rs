//! Writer monads: computations that accumulate an output alongside their value.
//!
//! A computation of `WriterT<W, M>` is a computation `M` of the inner monad whose value is
//! a pair of a result and an output of type `W`. `chain_m`, `fmap`, `exec_t`, `listen`,
//! `listens`, `pass` and `censor` work over any inner monad: `chain_m` combines the outputs
//! of the two computations with the semigroup operation of `W`, inside the inner monad's
//! bind. `return_m`, `then_m` and `app_a` are given for the identity monad inside (the
//! alias [`Writer`]), where `return_m` writes the empty output. Outputs are specified
//! through their models (see [`Semigroup`]).

use std::marker::PhantomData;

use vstd::prelude::*;

use crate::base::data::functor::{ensures1, total1, within, ChainM, Functor, PureA};
use crate::base::data::identity::Identity;
use crate::base::data::monoid::Monoid;
use crate::base::data::pointed::Pointed;
use crate::base::data::semigroup::Semigroup;
use crate::base::grl::io::IO;
use crate::base::data::with_kinded::{Kinded, WithKinded};

use super::class::MonadTrans;

verus! {

/// A computation in the monad `M` whose value is a result paired with an output `W`.
#[derive(Debug)]
pub struct WriterT<W, M>(pub M, pub PhantomData<W>);

/// A writer over the identity monad: a result `A` paired with an output `W`.
pub type Writer<W, A> = WriterT<W, Identity<(A, W)>>;

impl<W, M> WriterT<W, M> {
    /// Wrap a computation of the inner monad.
    pub fn new_t(m: M) -> (r: Self)
        ensures
            r.0 == m,
    {
        WriterT(m, PhantomData)
    }

    /// Build a computation from a result and an output (the inverse of [`WriterT::run`]).
    pub fn new<A>(aw: (A, W)) -> (r: Self)
        where
            M: PureA<Pointed = (A, W)>,
        ensures
            M::pure_of(aw, r.0),
    {
        WriterT(M::pure_a(aw), PhantomData)
    }

    /// The inner computation.
    pub fn run_t(self) -> (r: M)
        ensures
            r == self.0,
    {
        self.0
    }

    /// Transform the inner computation: `runWriterT (mapWriterT f m) = f (runWriterT m)`.
    pub fn map_t<W2, N, F: Fn(M) -> N>(self, f: F) -> (r: WriterT<W2, N>)
        requires
            call_requires(f, (self.0,)),
        ensures
            call_ensures(f, (self.0,), r.0),
    {
        WriterT(f(self.0), PhantomData)
    }

    /// An action that produces the output `w`.
    pub fn tell(w: W) -> (r: Self)
        where
            M: PureA<Pointed = ((), W)>,
        ensures
            M::pure_of(((), w), r.0),
    {
        Self::new(((), w))
    }
}

impl<W, M> WriterT<W, M> {
    /// The output of a computation, in the inner monad:
    /// `execWriterT m = liftM snd (runWriterT m)`.
    pub fn exec_t<A>(self) -> (r: M::Mapped)
        where
            M: Functor<W, Pointed = (A, W)>,
        ensures
            exists|inner: spec_fn((A, W), W) -> bool|
                #[trigger] within(inner, output_rel()) && M::fmapped(self.0, inner, r),
    {
        let k = |aw: (A, W)| -> (w: W)
            ensures
                w == aw.1,
            {
                aw.1
            };
        let r = self.0.fmap(k);
        proof {
            assert(within(ensures1(k), output_rel::<A, W>()));
        }
        r
    }

    /// Run the computation and add its output to its value:
    /// `runWriterT (listen m) = liftM (\(a, w) -> ((a, w), w)) (runWriterT m)`.
    pub fn listen<A>(self) -> (r: WriterT<W, M::Mapped>)
        where
            W: Clone,
            M: Functor<((A, W), W), Pointed = (A, W)>,
        ensures
            exists|inner: spec_fn((A, W), ((A, W), W)) -> bool|
                #[trigger] within(inner, listened_rel()) && M::fmapped(self.0, inner, r.0),
    {
        let k = |aw: (A, W)| -> (o: ((A, W), W))
            ensures
                listened_rel()(aw, o),
            {
                let (a, w) = aw;
                ((a, w.clone()), w)
            };
        let r = self.0.fmap(k);
        proof {
            assert(within(ensures1(k), listened_rel()));
        }
        WriterT(r, PhantomData)
    }

    /// Run the computation and add `f` of its output to its value:
    /// `runWriterT (listens f m) = liftM (\(a, w) -> ((a, f w), w)) (runWriterT m)`.
    pub fn listens<A, B, F: Fn(W) -> B>(self, f: F) -> (r: WriterT<W, M::Mapped>)
        where
            W: Clone,
            M: Functor<((A, B), W), Pointed = (A, W)>,
        requires
            total1(f),
        ensures
            exists|inner: spec_fn((A, W), ((A, B), W)) -> bool|
                #[trigger] within(inner, listened_with_rel(ensures1(f))) && M::fmapped(self.0, inner, r.0),
    {
        let k = |aw: (A, W)| -> (o: ((A, B), W))
            ensures
                o.0.0 == aw.0 && o.1 == aw.1 && exists|c: W| vstd::pervasive::cloned(aw.1, c) && #[trigger] call_ensures(&f, (c,), o.0.1),
            {
                let ghost aw0 = aw;
                let (a, w) = aw;
                let c = w.clone();
                let ghost c0 = c;
                assert(vstd::pervasive::cloned(aw0.1, c0));
                let b = f(c);
                assert(call_ensures(&f, (c0,), b));
                let o = ((a, b), w);
                assert(o.0.1 == b);
                o
            };
        let r = self.0.fmap(k);
        proof {
            assert forall|aw: (A, W), o: ((A, B), W)| #[trigger] ensures1(k)(aw, o) implies listened_with_rel(
                ensures1(f),
            )(aw, o) by {
                let c = choose|c: W| vstd::pervasive::cloned(aw.1, c) && #[trigger] call_ensures(&f, (c,), o.0.1);
                assert(ensures1(f)(c, o.0.1));
            }
            assert(within(ensures1(k), listened_with_rel(ensures1(f))));
        }
        WriterT(r, PhantomData)
    }

    /// Apply `f` to the output, leaving the result as it is:
    /// `runWriterT (censor f m) = liftM (\(a, w) -> (a, f w)) (runWriterT m)`.
    pub fn censor<A, F: Fn(W) -> W>(self, f: F) -> (r: WriterT<W, M::Mapped>)
        where
            M: Functor<(A, W), Pointed = (A, W)>,
        requires
            total1(f),
        ensures
            exists|inner: spec_fn((A, W), (A, W)) -> bool|
                #[trigger] within(inner, censored_rel(ensures1(f))) && M::fmapped(self.0, inner, r.0),
    {
        let k = |aw: (A, W)| -> (o: (A, W))
            ensures
                o.0 == aw.0 && call_ensures(&f, (aw.1,), o.1),
            {
                let (a, w) = aw;
                (a, f(w))
            };
        let r = self.0.fmap(k);
        proof {
            assert(within(ensures1(k), censored_rel(ensures1(f))));
        }
        WriterT(r, PhantomData)
    }

    /// Run the computation, whose value holds a result and a function, and apply the
    /// function to the output:
    /// `runWriterT (pass m) = liftM (\((a, f), w) -> (a, f w)) (runWriterT m)`.
    pub fn pass<A, B, G: Fn(W) -> B>(self) -> (r: WriterT<B, M::Mapped>)
        where
            M: Functor<(A, B), Pointed = ((A, G), W)>,
        requires
            forall|g: G, w: W| call_requires(g, (w,)),
        ensures
            exists|inner: spec_fn(((A, G), W), (A, B)) -> bool|
                #[trigger] within(inner, passed_rel()) && M::fmapped(self.0, inner, r.0),
    {
        let k = |x: ((A, G), W)| -> (o: (A, B))
            ensures
                passed_rel()(x, o),
            {
                let ((a, g), w) = x;
                (a, g(w))
            };
        let r = self.0.fmap(k);
        proof {
            assert(within(ensures1(k), passed_rel::<A, B, G, W>()));
        }
        WriterT(r, PhantomData)
    }
}

/// What `exec_t` does with a result and an output: it keeps the output.
pub open spec fn output_rel<A, W>() -> spec_fn((A, W), W) -> bool {
    |aw: (A, W), w: W| w == aw.1
}

/// What `listen` does with a result and an output: the output is added, as a clone, to
/// the result.
pub open spec fn listened_rel<A, W: Clone>() -> spec_fn((A, W), ((A, W), W)) -> bool {
    |aw: (A, W), o: ((A, W), W)| o.0.0 == aw.0 && vstd::pervasive::cloned(aw.1, o.0.1) && o.1 == aw.1
}

/// What `listens` does with a result and an output: a result of a function described by
/// `rel`, on a clone of the output, is added to the result.
pub open spec fn listened_with_rel<A, B, W: Clone>(rel: spec_fn(W, B) -> bool) -> spec_fn((A, W), ((A, B), W)) -> bool {
    |aw: (A, W), o: ((A, B), W)|
        o.0.0 == aw.0 && o.1 == aw.1 && exists|c: W| vstd::pervasive::cloned(aw.1, c) && #[trigger] rel(c, o.0.1)
}

/// What `censor` does with a result and an output: the output is replaced by a result of a
/// function described by `rel`.
pub open spec fn censored_rel<A, W>(rel: spec_fn(W, W) -> bool) -> spec_fn((A, W), (A, W)) -> bool {
    |aw: (A, W), o: (A, W)| o.0 == aw.0 && rel(aw.1, o.1)
}

/// What `pass` does with a result, a function and an output: the function is applied to
/// the output.
pub open spec fn passed_rel<A, B, G: Fn(W) -> B, W>() -> spec_fn(((A, G), W), (A, B)) -> bool {
    |x: ((A, G), W), o: (A, B)| o.0 == x.0.0 && call_ensures(x.0.1, (x.1,), o.1)
}

/// What the bind of [`WriterT`] does with a result `b` and an output `w2` of the second
/// computation, the first having written `w`: it returns `b` with a clone of `w` combined
/// with `w2`.
pub open spec fn combine_step<B, W: Semigroup + Clone, MB: PureA<Pointed = (B, W)>>(w: W) -> spec_fn((B, W), MB) -> bool {
    |q: (B, W), mb: MB|
        exists|c: W, o: W|
            #![trigger vstd::pervasive::cloned(w, c), MB::pure_of((q.0, o), mb)]
            vstd::pervasive::cloned(w, c) && o.model() == W::combine(c.model(), q.1.model()) && MB::pure_of((q.0, o), mb)
}

/// What the bind of [`WriterT`] does with a result `a` and an output `w` of the first
/// computation: `a` goes to a function whose calls are described by `krel`, and the inner
/// computation it gives is bound through `combine_step(w)`.
pub open spec fn writer_step<A, B, W: Semigroup + Clone, MN, MB>(krel: spec_fn(A, WriterT<W, MN>) -> bool) -> spec_fn(
    (A, W),
    MB,
) -> bool
    where
        MN: ChainM<(B, W), Pointed = (B, W), Chained = MB>,
        MB: PureA<Pointed = (B, W)>,
{
    |p: (A, W), mb: MB|
        exists|n: WriterT<W, MN>, inner: spec_fn((B, W), MB) -> bool|
            #![trigger krel(p.0, n), within(inner, combine_step(p.1))]
            krel(p.0, n) && within(inner, combine_step(p.1)) && MN::chained(n.0, inner, mb)
}

impl<W, M> WriterT<W, M> {
    /// Sequentially compose over any inner monad: run `self`, pass its result to `k`, run
    /// the computation that `k` gives, and write the output of `self` combined with that of
    /// the second, in order. The output of `self` is cloned for each result of the second.
    pub fn chain_m<A, B, MN, MB, K: Fn(A) -> WriterT<W, MN>>(self, k: K) -> (r: WriterT<W, MB>)
        where
            W: Semigroup + Clone,
            M: ChainM<(B, W), Pointed = (A, W), Chained = MB>,
            MN: ChainM<(B, W), Pointed = (B, W), Chained = MB>,
            MB: PureA<Pointed = (B, W)>,
        requires
            total1(k),
            forall|x: W::Model, y: W::Model| W::combinable(x, y),
        ensures
            exists|inner: spec_fn((A, W), MB) -> bool|
                #[trigger] within(inner, writer_step(ensures1(k))) && M::chained(self.0, inner, r.0),
    {
        let k2 = |p: (A, W)| -> (mb: MB)
            ensures
                writer_step::<A, B, W, MN, MB>(ensures1(*&k))(p, mb),
            {
                let (a, w) = p;
                let ghost w0 = w;
                let n = k(a);
                let ghost n0 = n;
                let k3 = |q: (B, W)| -> (mb: MB)
                    ensures
                        combine_step::<B, W, MB>(*&w)(q, mb),
                    {
                        let (b, w2) = q;
                        let c = w.clone();
                        let ghost c0 = c;
                        let ghost w20 = w2;
                        let o = c.assoc_s(w2);
                        let mb = MB::pure_a((b, o));
                        proof {
                            assert(vstd::pervasive::cloned(*&w, c0));
                            assert(o.model() == W::combine(c0.model(), w20.model()));
                        }
                        mb
                    };
                let mb = n.0.chain_m(k3);
                proof {
                    assert(within(ensures1(k3), combine_step::<B, W, MB>(w0)));
                    assert(ensures1(*&k)(a, n0));
                }
                mb
            };
        let r = self.0.chain_m(k2);
        proof {
            assert(within(ensures1(k2), writer_step::<A, B, W, MN, MB>(ensures1(k))));
        }
        WriterT(r, PhantomData)
    }
}

impl<W, A> WriterT<W, Identity<(A, W)>> {
    /// The result and the output of a computation.
    pub fn run(self) -> (r: (A, W))
        ensures
            r == self.0.0,
    {
        self.0.0
    }

    /// The output of a computation: `execWriter m = snd (runWriter m)`.
    pub fn exec(self) -> (r: W)
        ensures
            r == self.0.0.1,
    {
        self.0.0.1
    }

    /// Map the result and the output: `runWriter (mapWriter f m) = f (runWriter m)`.
    pub fn map<B, W2, F: Fn((A, W)) -> (B, W2)>(self, f: F) -> (r: Writer<W2, B>)
        requires
            total1(f),
        ensures
            call_ensures(f, (self.0.0,), r.0.0),
    {
        WriterT(Identity(f(self.0.0)), PhantomData)
    }

    /// The monadic return: the result `a` with the empty output.
    pub fn return_m(a: A) -> (r: Self)
        where
            W: Monoid,
        ensures
            r.0.0.0 == a,
            r.0.0.1.model() == W::empty_model(),
    {
        WriterT(Identity((a, W::mempty())), PhantomData)
    }

    /// Sequentially compose, discarding the result of `self`: `m >> n`.
    pub fn then_m<B>(self, n: Writer<W, B>) -> (r: Writer<W, B>)
        where
            W: Semigroup,
        requires
            W::combinable(self.0.0.1.model(), n.0.0.1.model()),
        ensures
            r.0.0.0 == n.0.0.0,
            r.0.0.1.model() == W::combine(self.0.0.1.model(), n.0.0.1.model()),
    {
        let (_, w) = self.0.0;
        let (b, w2) = n.0.0;
        WriterT(Identity((b, w.assoc_s(w2))), PhantomData)
    }
}

impl<W, H> WriterT<W, Identity<(H, W)>> {
    /// Sequential application: the function of `self` applied to the result of `v`;
    /// the output is that of `self` combined with that of `v`.
    pub fn app_a<A, B>(self, v: Writer<W, A>) -> (r: Writer<W, B>)
        where
            H: Fn(A) -> B,
            W: Semigroup,
        requires
            total1(self.0.0.0),
            W::combinable(self.0.0.1.model(), v.0.0.1.model()),
        ensures
            call_ensures(self.0.0.0, (v.0.0.0,), r.0.0.0),
            r.0.0.1.model() == W::combine(self.0.0.1.model(), v.0.0.1.model()),
    {
        let (h, w) = self.0.0;
        let (a, w2) = v.0.0;
        WriterT(Identity((h(a), w.assoc_s(w2))), PhantomData)
    }
}

impl<W: Monoid> WriterT<W, IO<()>> {
    /// Lift an I/O action: its value is paired with the empty output.
    pub fn lift_io<A, K: FnOnce() -> A>(m: IO<K>) -> (r: WriterT<W, IO<impl FnOnce() -> (A, W)>>)
        requires
            m.runnable(),
        ensures
            r.0.runnable(),
            forall|o: (A, W)| #[trigger] r.0.yields(o) ==> m.yields(o.0) && o.1.model() == W::empty_model(),
    {
        let with_empty = |a: A| -> (o: (A, W))
            ensures
                o.0 == a && o.1.model() == W::empty_model(),
            {
                (a, W::mempty())
            };
        WriterT(m.fmap(with_empty), PhantomData)
    }
}

impl<W, M> Kinded for WriterT<W, M> {
    type Kinded = M;
}

impl<W, M, N> WithKinded<N> for WriterT<W, M> {
    type WithKinded = WriterT<W, N>;
}

impl<W, M: Pointed<Pointed = (A, W)>, A> Pointed for WriterT<W, M> {
    type Pointed = A;
}

/// What mapping does with a result and an output: the result goes through a function
/// whose calls are described by `rel`, and the output is kept.
pub open spec fn result_step<A, B, W>(rel: spec_fn(A, B) -> bool) -> spec_fn((A, W), (B, W)) -> bool {
    |p: (A, W), q: (B, W)| rel(p.0, q.0) && q.1 == p.1
}

impl<W, M, A, B, MB> Functor<B> for WriterT<W, M> where
    M: Functor<(B, W), Pointed = (A, W), Mapped = MB>,
    MB: Pointed<Pointed = (B, W)>,
 {
    type Mapped = WriterT<W, MB>;

    /// The inner computation is mapped through `result_step(rel)`: the result is mapped and
    /// the output is kept.
    open spec fn fmapped(x: Self, rel: spec_fn(A, B) -> bool, y: WriterT<W, MB>) -> bool {
        exists|inner: spec_fn((A, W), (B, W)) -> bool|
            #[trigger] within(inner, result_step(rel)) && M::fmapped(x.0, inner, y.0)
    }

    fn fmap<F: Fn(A) -> B>(self, f: F) -> (r: WriterT<W, MB>) {
        let k = |p: (A, W)| -> (q: (B, W))
            ensures
                call_ensures(&f, (p.0,), q.0) && q.1 == p.1,
            {
                let (a, w) = p;
                (f(a), w)
            };
        let r = self.0.fmap(k);
        proof {
            assert(within(ensures1(k), result_step::<A, B, W>(ensures1(f))));
        }
        WriterT(r, PhantomData)
    }
}

impl<W: Monoid, A> PureA for WriterT<W, Identity<(A, W)>> {
    open spec fn pure_of(t: A, r: Self) -> bool {
        r.0.0.0 == t && r.0.0.1.model() == W::empty_model()
    }

    fn pure_a(t: A) -> (r: Self) {
        WriterT(Identity((t, W::mempty())), PhantomData)
    }
}

impl<W: Monoid, A> MonadTrans<Identity<A>> for WriterT<W, Identity<(A, W)>> {
    /// A lifted computation writes the empty output.
    open spec fn lifted(m: Identity<A>, r: Self) -> bool {
        r.0.0.0 == m.0 && r.0.0.1.model() == W::empty_model()
    }

    fn lift(m: Identity<A>) -> (r: Self) {
        WriterT(Identity((m.0, W::mempty())), PhantomData)
    }
}

} // verus!
