//! The `ExceptT` transformer: computations that may throw an exception.
//!
//! A sequence of actions terminates normally, producing a value, only if none of the
//! actions in it throws. When one throws, the rest of the sequence is skipped and the
//! whole exits with that exception. Throwing, handling, the return and the bind work over
//! any inner monad; the other operations are given for the identity monad inside (the
//! alias [`Except`]), where a computation is an [`Either`] whose `Left` holds the
//! exception.

use vstd::prelude::*;

use crate::base::data::either::Either;
use crate::base::data::functor::{ensures1, total1, within, AppA, ChainM, Functor, PureA};
use crate::base::data::identity::Identity;
use crate::base::data::pointed::Pointed;
use crate::base::grl::io::IO;

use super::class::MonadTrans;

verus! {

/// A computation in the monad `MA` whose value is an [`Either`] of an exception and a result.
#[derive(Debug, Default, Copy, Clone, PartialEq, Eq, PartialOrd, Ord, Hash)]
pub struct ExceptT<MA>(pub MA);

/// The exception monad: either an exception `E` or a normal value `A`.
pub type Except<E, A> = ExceptT<Identity<Either<E, A>>>;

impl<MA> ExceptT<MA> {
    /// Wrap a computation of the inner monad.
    pub fn new_t(ma: MA) -> (r: Self)
        ensures
            r.0 == ma,
    {
        ExceptT(ma)
    }

    /// Lift an [`Either`] into the inner monad (the inverse of [`ExceptT::run`]).
    pub fn new<E, A>(either: Either<E, A>) -> (r: Self)
        where
            MA: PureA<Pointed = Either<E, A>>,
        ensures
            MA::pure_of(either, r.0),
    {
        ExceptT(MA::pure_a(either))
    }

    /// The inner computation (the inverse of [`ExceptT::new_t`]).
    pub fn run_t(self) -> (r: MA)
        ensures
            r == self.0,
    {
        self.0
    }

    /// Transform the inner computation: `m.map_t(f).run_t() == f(m.run_t())`.
    pub fn map_t<MB, F: Fn(MA) -> MB>(self, f: F) -> (r: ExceptT<MB>)
        requires
            call_requires(f, (self.0,)),
        ensures
            call_ensures(f, (self.0,), r.0),
    {
        ExceptT(f(self.0))
    }

    /// Signal the exception `e`: `ExceptT::throw(e).run_t() == pure_a(Left(e))`.
    pub fn throw<E, A>(e: E) -> (r: Self)
        where
            MA: PureA<Pointed = Either<E, A>>,
        ensures
            MA::pure_of(Either::Left(e), r.0),
    {
        ExceptT(MA::pure_a(Either::Left(e)))
    }
}

/// What handling does with a value of the inner monad: an exception `e` is passed to a
/// handler whose calls are described by `hrel`, and a normal value is returned as it is,
/// in the inner monad.
pub open spec fn catch_step<E, A, E2, MB: PureA<Pointed = Either<E2, A>>>(
    hrel: spec_fn(E, ExceptT<MB>) -> bool,
) -> spec_fn(Either<E, A>, MB) -> bool {
    |x: Either<E, A>, mb: MB|
        match x {
            Either::Left(e) => hrel(e, ExceptT(mb)),
            Either::Right(a) => MB::pure_of(Either::Right(a), mb),
        }
}

/// `r` is `x` with its exceptions handled by a handler whose results are described by
/// `hrel`: the inner computation of `x` is bound through `catch_step(hrel)`.
pub open spec fn caught<MA, E, A, E2, MB>(x: ExceptT<MA>, hrel: spec_fn(E, ExceptT<MB>) -> bool, r: ExceptT<MB>) -> bool
    where
        MA: Pointed<Pointed = Either<E, A>> + ChainM<Either<E2, A>, Chained = MB>,
        MB: PureA<Pointed = Either<E2, A>>,
{
    exists|inner: spec_fn(Either<E, A>, MB) -> bool|
        #[trigger] within(inner, catch_step(hrel)) && MA::chained(x.0, inner, r.0)
}

impl<MA> ExceptT<MA> {
    /// Handle an exception: a thrown `e` is replaced by the computation `h(e)`; a normal
    /// value passes through. The inner computation is bound once, through the handler.
    pub fn catch<E, A, E2, MB, H: Fn(E) -> ExceptT<MB>>(self, h: H) -> (r: ExceptT<MB>)
        where
            MA: Pointed<Pointed = Either<E, A>> + ChainM<Either<E2, A>, Chained = MB>,
            MB: PureA<Pointed = Either<E2, A>>,
        requires
            total1(h),
        ensures
            caught(self, ensures1(h), r),
    {
        let k = |x: Either<E, A>| -> (mb: MB)
            ensures
                match x {
                    Either::Left(e) => call_ensures(&h, (e,), ExceptT(mb)),
                    Either::Right(a) => MB::pure_of(Either::Right(a), mb),
                },
            {
                match x {
                    Either::Left(e) => h(e).0,
                    Either::Right(a) => MB::pure_a(Either::Right(a)),
                }
            };
        let r = self.0.chain_m(k);
        proof {
            assert(within(ensures1(k), catch_step(ensures1(h))));
        }
        ExceptT(r)
    }

    /// [`ExceptT::catch`] with its arguments the other way round.
    pub fn handle<E, A, E2, MB, H: Fn(E) -> ExceptT<MB>>(h: H, this: Self) -> (r: ExceptT<MB>)
        where
            MA: Pointed<Pointed = Either<E, A>> + ChainM<Either<E2, A>, Chained = MB>,
            MB: PureA<Pointed = Either<E2, A>>,
        requires
            total1(h),
        ensures
            caught(this, ensures1(h), r),
    {
        this.catch(h)
    }
}

impl ExceptT<IO<()>> {
    /// Lift an I/O action: its value is the value of a computation that throws nothing.
    pub fn lift_io<E, A, K: FnOnce() -> A>(m: IO<K>) -> (r: ExceptT<IO<impl FnOnce() -> Either<E, A>>>)
        requires
            m.runnable(),
        ensures
            r.0.runnable(),
            forall|x: Either<E, A>| #[trigger] r.0.yields(x) ==> exists|a: A| m.yields(a) && x == Either::<E, A>::Right(a),
    {
        let right = |a: A| -> (x: Either<E, A>)
            ensures
                x == Either::<E, A>::Right(a),
            {
                Either::Right(a)
            };
        let r = m.fmap(right);
        assert forall|x: Either<E, A>| #[trigger] r.yields(x) implies exists|a: A| m.yields(a) && x == Either::<E, A>::Right(a) by {
            let a = choose|a: A| #[trigger] call_ensures(m.0, (), a) && call_ensures(right, (a,), x);
            assert(m.yields(a));
        }
        ExceptT(r)
    }
}

impl<E, A> ExceptT<Identity<Either<E, A>>> {
    /// The result of the computation (the inverse of [`ExceptT::new`]).
    pub fn run(self) -> (r: Either<E, A>)
        ensures
            r == self.0.0,
    {
        self.0.0
    }

    /// Map a function over the normal value, leaving an exception as it is.
    pub fn map<B, F: Fn(A) -> B>(self, f: F) -> (r: Except<E, B>)
        requires
            total1(f),
        ensures
            <Either<E, A> as Functor<B>>::fmapped(self.0.0, |a: A, b: B| call_ensures(f, (a,), b), r.0.0),
    {
        let res = match self.0.0 {
            Either::Left(e) => Either::Left(e),
            Either::Right(x) => Either::Right(f(x)),
        };
        ExceptT(Identity(res))
    }

    /// Transform the exception, if one was thrown, with `f`.
    pub fn with_t<E2, F: Fn(E) -> E2>(self, f: F) -> (r: Except<E2, A>)
        requires
            total1(f),
        ensures
            match (self.0.0, r.0.0) {
                (Either::Left(e), Either::Left(e2)) => call_ensures(f, (e,), e2),
                (Either::Right(a), Either::Right(b)) => a == b,
                _ => false,
            },
    {
        let res = match self.0.0 {
            Either::Left(l) => Either::Left(f(l)),
            Either::Right(r) => Either::Right(r),
        };
        ExceptT(Identity(res))
    }

    /// Transform the exception, if one was thrown, with `f` (the same as [`ExceptT::with_t`]).
    pub fn with<E2, F: Fn(E) -> E2>(self, f: F) -> (r: Except<E2, A>)
        requires
            total1(f),
        ensures
            match (self.0.0, r.0.0) {
                (Either::Left(e), Either::Left(e2)) => call_ensures(f, (e,), e2),
                (Either::Right(a), Either::Right(b)) => a == b,
                _ => false,
            },
    {
        self.with_t(f)
    }

    /// Run the computation and report its outcome as a normal value:
    /// `Right(a)` if it gave `a`, `Left(e)` if it threw `e`.
    pub fn try_(self) -> (r: Except<E, Either<E, A>>)
        ensures
            r.0.0 == Either::<E, Either<E, A>>::Right(self.0.0),
    {
        let caught = match self.0.0 {
            Either::Left(e) => Either::Left(e),
            Either::Right(a) => Either::Right(a),
        };
        ExceptT(Identity(Either::Right(caught)))
    }

    /// The monadic return: a computation that gives `t`.
    pub fn return_m(t: A) -> (r: Self)
        ensures
            r.0.0 == Either::<E, A>::Right(t),
    {
        ExceptT(Identity(Either::Right(t)))
    }

    /// Sequentially compose, discarding the value of `self`: `m >> n`.
    pub fn then_m<B>(self, n: Except<E, B>) -> (r: Except<E, B>)
        ensures
            r.0.0 == (match self.0.0 {
                Either::Left(e) => Either::<E, B>::Left(e),
                Either::Right(_) => n.0.0,
            }),
    {
        match self.0.0 {
            Either::Left(e) => ExceptT(Identity(Either::Left(e))),
            Either::Right(_) => n,
        }
    }
}

impl<MA: Pointed<Pointed = Either<E, A>>, E, A> Pointed for ExceptT<MA> {
    type Pointed = A;
}

impl<E, A, B> Functor<B> for ExceptT<Identity<Either<E, A>>> {
    type Mapped = Except<E, B>;

    open spec fn fmapped(x: Self, rel: spec_fn(A, B) -> bool, y: Except<E, B>) -> bool {
        <Either<E, A> as Functor<B>>::fmapped(x.0.0, rel, y.0.0)
    }

    fn fmap<F: Fn(A) -> B>(self, f: F) -> (r: Except<E, B>) {
        ExceptT(Identity(self.0.0.fmap(f)))
    }
}

impl<MA: PureA<Pointed = Either<E, A>>, E, A> PureA for ExceptT<MA> {
    /// The return of the inner monad, on `Right(t)`.
    open spec fn pure_of(t: A, r: Self) -> bool {
        MA::pure_of(Either::Right(t), r.0)
    }

    fn pure_a(t: A) -> (r: Self) {
        ExceptT(MA::pure_a(Either::Right(t)))
    }
}

impl<E, F, A, B> AppA<A, B> for ExceptT<Identity<Either<E, F>>> where F: Fn(A) -> B {
    type WithA = Except<E, A>;

    type WithB = Except<E, B>;

    open spec fn app_ok(f: Self) -> bool {
        f.0.0 matches Either::Right(g) ==> total1(g)
    }

    /// The first exception wins: that of the functions, then that of the arguments.
    open spec fn applied(f: Self, a: Except<E, A>, r: Except<E, B>) -> bool {
        match (f.0.0, a.0.0) {
            (Either::Left(e), _) => r.0.0 == Either::<E, B>::Left(e),
            (Either::Right(_), Either::Left(e)) => r.0.0 == Either::<E, B>::Left(e),
            (Either::Right(g), Either::Right(x)) => r.0.0 matches Either::Right(y) && call_ensures(
                g,
                (x,),
                y,
            ),
        }
    }

    fn app_a(self, v: Except<E, A>) -> (r: Except<E, B>) {
        let res = match self.0.0 {
            Either::Left(e) => Either::Left(e),
            Either::Right(k) => match v.0.0 {
                Either::Left(e) => Either::Left(e),
                Either::Right(x) => Either::Right(k(x)),
            },
        };
        ExceptT(Identity(res))
    }
}

/// What applying a function `g` held in `Right` does with a value of the argument's inner
/// monad: an exception is returned as it is, and `Right(x)` becomes `Right` of a result of
/// `g`.
pub open spec fn except_apply_step<E, A, B, G: Fn(A) -> B, MB: PureA<Pointed = Either<E, B>>>(g: G) -> spec_fn(
    Either<E, A>,
    MB,
) -> bool {
    |x: Either<E, A>, mb: MB|
        match x {
            Either::Left(e) => MB::pure_of(Either::Left(e), mb),
            Either::Right(a) => exists|y: B| call_ensures(g, (a,), y) && #[trigger] MB::pure_of(Either::Right(y), mb),
        }
}

/// What sequential application does with a value of the functions' inner monad: an
/// exception is returned as it is, so that the arguments' computation is not run;
/// `Right(g)` runs a clone of the arguments' computation `mx` and applies `g` to its value.
pub open spec fn except_app_step<E, A, B, G: Fn(A) -> B, MX, MB>(mx: MX) -> spec_fn(Either<E, G>, MB) -> bool
    where
        MX: Pointed<Pointed = Either<E, A>> + ChainM<Either<E, B>, Chained = MB> + Clone,
        MB: PureA<Pointed = Either<E, B>>,
{
    |x: Either<E, G>, mb: MB|
        match x {
            Either::Left(e) => MB::pure_of(Either::Left(e), mb),
            Either::Right(g) => exists|c: MX, inner: spec_fn(Either<E, A>, MB) -> bool|
                #![trigger vstd::pervasive::cloned(mx, c), within(inner, except_apply_step(g))]
                vstd::pervasive::cloned(mx, c) && within(inner, except_apply_step(g))
                    && MX::chained(c, inner, mb),
        }
}

impl<MF> ExceptT<MF> {
    /// Sequential application over any inner monad: the functions' computation runs first;
    /// if it throws, the rest is skipped, and otherwise the arguments' computation runs and
    /// the function is applied to its value. The first exception wins.
    pub fn app_a<E, G: Fn(A) -> B, A, B, MX: Clone, MB>(self, mx: ExceptT<MX>) -> (r: ExceptT<MB>)
        where
            MF: Pointed<Pointed = Either<E, G>> + ChainM<Either<E, B>, Chained = MB>,
            MX: Pointed<Pointed = Either<E, A>> + ChainM<Either<E, B>, Chained = MB>,
            MB: PureA<Pointed = Either<E, B>>,
        requires
            forall|g: G, x: A| call_requires(g, (x,)),
        ensures
            exists|inner: spec_fn(Either<E, G>, MB) -> bool|
                #[trigger] within(inner, except_app_step(mx.0)) && MF::chained(self.0, inner, r.0),
    {
        let mx = mx.0;
        let k = |x: Either<E, G>| -> (mb: MB)
            ensures
                except_app_step::<E, A, B, G, MX, MB>(*&mx)(x, mb),
            {
                match x {
                    Either::Left(e) => MB::pure_a(Either::Left(e)),
                    Either::Right(g) => {
                        let c = mx.clone();
                        let ghost c0 = c;
                        let ghost g0 = g;
                        let k2 = move |x2: Either<E, A>| -> (mb: MB)
                            ensures
                                except_apply_step::<E, A, B, G, MB>(*&g)(x2, mb),
                            {
                                match x2 {
                                    Either::Left(e) => MB::pure_a(Either::Left(e)),
                                    Either::Right(a) => {
                                        let y = g(a);
                                        MB::pure_a(Either::Right(y))
                                    },
                                }
                            };
                        let mb = c.chain_m(k2);
                        proof {
                            assert(within(ensures1(k2), except_apply_step::<E, A, B, G, MB>(g0)));
                            assert(vstd::pervasive::cloned(*&mx, c0));
                        }
                        mb
                    },
                }
            };
        let r = self.0.chain_m(k);
        proof {
            assert(within(ensures1(k), except_app_step::<E, A, B, G, MX, MB>(mx)));
        }
        ExceptT(r)
    }
}

/// `y` is a clone of the outcome `x`: the same side, holding a clone of its content.
pub open spec fn recloned<E: Clone, A: Clone>(x: Either<E, A>, y: Either<E, A>) -> bool {
    match (x, y) {
        (Either::Left(e), Either::Left(e2)) => vstd::pervasive::cloned(e, e2),
        (Either::Right(a), Either::Right(b)) => vstd::pervasive::cloned(a, b),
        _ => false,
    }
}

/// What `finally` does with a value of the closer's inner monad, once the main
/// computation has given the outcome `x`: an exception of the closer wins; otherwise the
/// outcome `x` is returned again (an exception re-thrown, a value returned), as a clone.
pub open spec fn rethrow_step<E: Clone, A: Clone, MB: PureA<Pointed = Either<E, A>>>(x: Either<E, A>) -> spec_fn(
    Either<E, ()>,
    MB,
) -> bool {
    |u: Either<E, ()>, mb: MB|
        match u {
            Either::Left(e2) => MB::pure_of(Either::Left(e2), mb),
            Either::Right(_) => exists|y: Either<E, A>| recloned(x, y) && #[trigger] MB::pure_of(y, mb),
        }
}

/// What `finally` does with an outcome `x` of the main computation: it runs a clone of the
/// closer's computation `closer`, and then `rethrow_step(x)`.
pub open spec fn finally_step<E: Clone, A: Clone, MC, MB>(closer: MC) -> spec_fn(Either<E, A>, MB) -> bool
    where
        MC: Pointed<Pointed = Either<E, ()>> + ChainM<Either<E, A>, Chained = MB> + Clone,
        MB: PureA<Pointed = Either<E, A>>,
{
    |x: Either<E, A>, mb: MB|
        exists|c: MC, inner: spec_fn(Either<E, ()>, MB) -> bool|
            #![trigger vstd::pervasive::cloned(closer, c), within(inner, rethrow_step(x))]
            vstd::pervasive::cloned(closer, c) && within(inner, rethrow_step(x)) && MC::chained(c, inner, mb)
}

/// A clone of an outcome.
fn clone_outcome<E: Clone, A: Clone>(x: &Either<E, A>) -> (y: Either<E, A>)
    ensures
        recloned(*x, y),
{
    match x {
        Either::Left(e) => Either::Left(e.clone()),
        Either::Right(a) => Either::Right(a.clone()),
    }
}

impl<MA> ExceptT<MA> {
    /// Run `self`, then `closer` whatever `self` did, over any inner monad: the closer's
    /// effects come once for each outcome of `self`, after it. An exception of the closer
    /// wins; otherwise the outcome of `self` is kept (its exception re-thrown, its value
    /// returned).
    pub fn finally<E: Clone, A: Clone, MC: Clone, MB>(self, closer: ExceptT<MC>) -> (r: ExceptT<MB>)
        where
            MA: Pointed<Pointed = Either<E, A>> + ChainM<Either<E, A>, Chained = MB>,
            MC: Pointed<Pointed = Either<E, ()>> + ChainM<Either<E, A>, Chained = MB>,
            MB: PureA<Pointed = Either<E, A>>,
        ensures
            exists|inner: spec_fn(Either<E, A>, MB) -> bool|
                #[trigger] within(inner, finally_step(closer.0)) && MA::chained(self.0, inner, r.0),
    {
        let closer = closer.0;
        let k = |x: Either<E, A>| -> (mb: MB)
            ensures
                finally_step::<E, A, MC, MB>(*&closer)(x, mb),
            {
                let c = closer.clone();
                let ghost c0 = c;
                let ghost x0 = x;
                let k2 = move |u: Either<E, ()>| -> (mb: MB)
                    ensures
                        rethrow_step::<E, A, MB>(*&x)(u, mb),
                    {
                        match u {
                            Either::Left(e2) => MB::pure_a(Either::Left(e2)),
                            Either::Right(_) => {
                                let y = clone_outcome(&x);
                                MB::pure_a(y)
                            },
                        }
                    };
                let mb = c.chain_m(k2);
                proof {
                    assert(within(ensures1(k2), rethrow_step::<E, A, MB>(x0)));
                    assert(vstd::pervasive::cloned(*&closer, c0));
                }
                mb
            };
        let r = self.0.chain_m(k);
        proof {
            assert(within(ensures1(k), finally_step::<E, A, MC, MB>(closer)));
        }
        ExceptT(r)
    }
}

/// What the bind of [`ExceptT`] does with a value of the inner monad: an exception is
/// returned as it is, in the inner monad, and a normal value is passed to a function whose
/// calls are described by `rel`.
pub open spec fn except_step<E, A, B, MB: PureA<Pointed = Either<E, B>>>(
    rel: spec_fn(A, ExceptT<MB>) -> bool,
) -> spec_fn(Either<E, A>, MB) -> bool {
    |x: Either<E, A>, mb: MB|
        match x {
            Either::Left(e) => MB::pure_of(Either::Left(e), mb),
            Either::Right(a) => rel(a, ExceptT(mb)),
        }
}

impl<MA, E, A, B, MB> ChainM<B> for ExceptT<MA> where
    MA: Pointed<Pointed = Either<E, A>> + ChainM<Either<E, B>, Chained = MB>,
    MB: PureA<Pointed = Either<E, B>>,
 {
    type Chained = ExceptT<MB>;

    /// The inner computations are bound through `except_step`: an exception exits, and a
    /// normal value goes on to the function.
    open spec fn chained(x: Self, rel: spec_fn(A, ExceptT<MB>) -> bool, y: ExceptT<MB>) -> bool {
        exists|inner: spec_fn(Either<E, A>, MB) -> bool|
            #[trigger] within(inner, except_step(rel)) && MA::chained(x.0, inner, y.0)
    }

    fn chain_m<F: Fn(A) -> ExceptT<MB>>(self, f: F) -> (r: ExceptT<MB>) {
        let k = |x: Either<E, A>| -> (mb: MB)
            ensures
                match x {
                    Either::Left(e) => MB::pure_of(Either::Left(e), mb),
                    Either::Right(a) => call_ensures(&f, (a,), ExceptT(mb)),
                },
            {
                match x {
                    Either::Left(e) => MB::pure_a(Either::Left(e)),
                    Either::Right(a) => f(a).0,
                }
            };
        let r = self.0.chain_m(k);
        proof {
            assert(within(ensures1(k), except_step(ensures1(f))));
        }
        ExceptT(r)
    }
}

impl<E, A> MonadTrans<Identity<A>> for ExceptT<Identity<Either<E, A>>> {
    /// A lifted computation never throws.
    open spec fn lifted(m: Identity<A>, r: Self) -> bool {
        r.0.0 == Either::<E, A>::Right(m.0)
    }

    fn lift(m: Identity<A>) -> (r: Self) {
        ExceptT(Identity(Either::Right(m.0)))
    }
}

} // verus!
