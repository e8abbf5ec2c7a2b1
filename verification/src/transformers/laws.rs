//! Laws of the transformers: those of exceptions, the monad laws, and the laws of
//! [`MonadTrans`]: that `lift` is a monad transformation,
//!
//! ```text
//! lift . return = return
//! lift (m >>= f) = lift m >>= (lift . f)
//! ```
//!
//! The laws that hold over any inner monad (an exception or `Nothing` skips the rest of
//! the sequence, a thrown exception reaches the handler) take the inner monad's left
//! identity as a hypothesis; the others are stated over the identity monad.

use vstd::prelude::*;

use crate::base::data::either::Either;
use crate::base::data::functor::{ensures1, within, AppA, ChainM, PureA};
use crate::base::data::identity::Identity;
use crate::base::data::maybe::Maybe;
use crate::base::data::monoid::Monoid;
use crate::base::data::pointed::Pointed;
use crate::base::data::semigroup::Semigroup;

use super::class::MonadTrans;
use super::lift::Lift;
use crate::base::data::constant::Const;
use super::except::{caught, except_step, finally_step, recloned, rethrow_step, Except, ExceptT};
use super::identity::{unwrapped_rel, IdentityT};
use super::maybe::{maybe_app_step, maybe_step, MaybeT};
use super::reader::{reader_step, Reader};
use super::state::{state_step, then_step, State};
use super::writer::{combine_step, writer_step, Writer};

verus! {

/// The relation of `lift . f`, for a function whose results are described by `frel`.
pub open spec fn lift_rel<A, MI, MO: MonadTrans<MI>>(frel: spec_fn(A, MI) -> bool) -> spec_fn(A, MO) -> bool {
    |a: A, n: MO| exists|m: MI| #[trigger] frel(a, m) && MO::lifted(m, n)
}

/// Over the identity monad, the bind of [`MaybeT`] is one step of `maybe_step`.
proof fn lemma_maybe_t_identity_chained<A, B>(
    x: MaybeT<Identity<Maybe<A>>>,
    rel: spec_fn(A, MaybeT<Identity<Maybe<B>>>) -> bool,
    y: MaybeT<Identity<Maybe<B>>>,
)
    ensures
        <MaybeT<Identity<Maybe<A>>> as ChainM<B>>::chained(x, rel, y) <==> maybe_step(rel)(x.0.0, y.0),
{
    let step = maybe_step::<A, Identity<Maybe<B>>, B>(rel);
    if <MaybeT<Identity<Maybe<A>>> as ChainM<B>>::chained(x, rel, y) {
        let inner = choose|inner: spec_fn(Maybe<A>, Identity<Maybe<B>>) -> bool|
            #[trigger] within(inner, step) && <Identity<Maybe<A>> as ChainM<Maybe<B>>>::chained(x.0, inner, y.0);
        assert(within(inner, step));
        assert(inner(x.0.0, y.0));
    }
    if step(x.0.0, y.0) {
        assert(within(step, step));
        assert(<Identity<Maybe<A>> as ChainM<Maybe<B>>>::chained(x.0, step, y.0));
    }
}

/// Over the identity monad, the bind of [`ExceptT`] is one step of `except_step`.
proof fn lemma_except_identity_chained<E, A, B>(
    x: Except<E, A>,
    rel: spec_fn(A, Except<E, B>) -> bool,
    y: Except<E, B>,
)
    ensures
        <Except<E, A> as ChainM<B>>::chained(x, rel, y) <==> except_step(rel)(x.0.0, y.0),
{
    let step = except_step::<E, A, B, Identity<Either<E, B>>>(rel);
    if <Except<E, A> as ChainM<B>>::chained(x, rel, y) {
        let inner = choose|inner: spec_fn(Either<E, A>, Identity<Either<E, B>>) -> bool|
            #[trigger] within(inner, step) && <Identity<Either<E, A>> as ChainM<Either<E, B>>>::chained(x.0, inner, y.0);
        assert(within(inner, step));
        assert(inner(x.0.0, y.0));
    }
    if step(x.0.0, y.0) {
        assert(within(step, step));
        assert(<Identity<Either<E, A>> as ChainM<Either<E, B>>>::chained(x.0, step, y.0));
    }
}

/// A thrown exception skips the rest, over any inner monad that obeys left identity:
/// `ExceptT::throw(e).chain_m(k)` is `throw(e)` again, whatever `k`.
pub proof fn lemma_except_throw_chain<MA, E, A, B, MB>(
    e: E,
    x: ExceptT<MA>,
    rel: spec_fn(A, ExceptT<MB>) -> bool,
    y: ExceptT<MB>,
)
    where
        MA: Pointed<Pointed = Either<E, A>> + PureA + ChainM<Either<E, B>, Chained = MB>,
        MB: PureA<Pointed = Either<E, B>>,
    requires
        MA::pure_of(Either::Left(e), x.0),
        forall|inner: spec_fn(Either<E, A>, MB) -> bool, mb: MB|
            #[trigger] MA::chained(x.0, inner, mb) ==> inner(Either::Left(e), mb),
        <ExceptT<MA> as ChainM<B>>::chained(x, rel, y),
    ensures
        MB::pure_of(Either::Left(e), y.0),
{
    let inner = choose|inner: spec_fn(Either<E, A>, MB) -> bool|
        #[trigger] within(inner, except_step(rel)) && MA::chained(x.0, inner, y.0);
    assert(MA::chained(x.0, inner, y.0));
    assert(inner(Either::Left(e), y.0));
}

/// A handler is not called on a computation that does not throw:
/// `ExceptT::lift(m).catch(h) == ExceptT::lift(m)`.
pub proof fn lemma_except_lift_catch<E, E2, A>(
    m: Identity<A>,
    x: Except<E, A>,
    hrel: spec_fn(E, Except<E2, A>) -> bool,
    r: Except<E2, A>,
)
    requires
        <Except<E, A> as MonadTrans<Identity<A>>>::lifted(m, x),
        caught(x, hrel, r),
    ensures
        <Except<E2, A> as MonadTrans<Identity<A>>>::lifted(m, r),
{
}

/// A thrown exception is handed to the handler, over any inner monad that obeys left
/// identity: `ExceptT::throw(e).catch(h)` is `h(e)`.
pub proof fn lemma_except_throw_catch<MA, E, E2, A, MB>(
    e: E,
    x: ExceptT<MA>,
    hrel: spec_fn(E, ExceptT<MB>) -> bool,
    r: ExceptT<MB>,
)
    where
        MA: Pointed<Pointed = Either<E, A>> + PureA + ChainM<Either<E2, A>, Chained = MB>,
        MB: PureA<Pointed = Either<E2, A>>,
    requires
        MA::pure_of(Either::Left(e), x.0),
        forall|inner: spec_fn(Either<E, A>, MB) -> bool, mb: MB|
            #[trigger] MA::chained(x.0, inner, mb) ==> inner(Either::Left(e), mb),
        caught(x, hrel, r),
    ensures
        hrel(e, r),
{
    let inner = choose|inner: spec_fn(Either<E, A>, MB) -> bool|
        #[trigger] within(inner, super::except::catch_step(hrel)) && MA::chained(x.0, inner, r.0);
    assert(MA::chained(x.0, inner, r.0));
    assert(inner(Either::Left(e), r.0));
    assert(ExceptT(r.0) == r);
}

/// `finally` over the identity monad, for types whose clones are equal: an exception of
/// the closer wins, and otherwise the outcome of the main computation is kept.
pub proof fn lemma_except_finally<E: Clone, A: Clone>(x: Except<E, A>, closer: Except<E, ()>, r: Except<E, A>)
    requires
        clones_exactly::<E>(),
        clones_exactly::<A>(),
        clones_exactly::<Identity<Either<E, ()>>>(),
        exists|inner: spec_fn(Either<E, A>, Identity<Either<E, A>>) -> bool|
            #[trigger] within(inner, finally_step(closer.0)) && <Identity<Either<E, A>> as ChainM<Either<E, A>>>::chained(
                x.0,
                inner,
                r.0,
            ),
    ensures
        r.0.0 == (match closer.0.0 {
            Either::Left(c) => Either::<E, A>::Left(c),
            Either::Right(_) => x.0.0,
        }),
{
    let inner = choose|inner: spec_fn(Either<E, A>, Identity<Either<E, A>>) -> bool|
        #[trigger] within(inner, finally_step(closer.0)) && <Identity<Either<E, A>> as ChainM<Either<E, A>>>::chained(
            x.0,
            inner,
            r.0,
        );
    assert(inner(x.0.0, r.0));
    assert(finally_step::<E, A, Identity<Either<E, ()>>, Identity<Either<E, A>>>(closer.0)(x.0.0, r.0));
    let (c, inner2) = choose|c: Identity<Either<E, ()>>, inner2: spec_fn(Either<E, ()>, Identity<Either<E, A>>) -> bool|
        #![trigger vstd::pervasive::cloned(closer.0, c), within(inner2, rethrow_step(x.0.0))]
        vstd::pervasive::cloned(closer.0, c) && within(inner2, rethrow_step(x.0.0))
            && <Identity<Either<E, ()>> as ChainM<Either<E, A>>>::chained(c, inner2, r.0);
    assert(c == closer.0);
    assert(inner2(c.0, r.0));
    assert(rethrow_step::<E, A, Identity<Either<E, A>>>(x.0.0)(c.0, r.0));
    if let Either::Right(_) = c.0 {
        let y = choose|y: Either<E, A>| recloned(x.0.0, y) && #[trigger] <Identity<Either<E, A>> as PureA>::pure_of(y, r.0);
        assert(<Identity<Either<E, A>> as PureA>::pure_of(y, r.0));
        match x.0.0 {
            Either::Left(e) => {
                assert(y matches Either::Left(e2) && vstd::pervasive::cloned(e, e2));
            },
            Either::Right(a) => {
                assert(y matches Either::Right(b) && vstd::pervasive::cloned(a, b));
            },
        }
    }
}

/// [`Errors`](super::errors::Errors) collects errors: applying a failure to a failure
/// gives a failure with both errors combined in order, a failure applied to a pure value
/// keeps its errors, and a pure function applied to a failure keeps the failure's errors.
pub proof fn lemma_errors_collect<E: Monoid, F: Fn(A) -> B, A, B>(
    f: Lift<Const<E, F>>,
    a: Lift<Const<E, A>>,
    r: Lift<Const<E, B>>,
)
    requires
        <Lift<Const<E, F>> as AppA<A, B>>::applied(f, a, r),
    ensures
        match (f, a) {
            (Lift::Other(c1), Lift::Other(c2)) => r matches Lift::Other(c) && c.0.model() == E::combine(
                c1.0.model(),
                c2.0.model(),
            ),
            (Lift::Other(c1), Lift::Pure(_)) => r matches Lift::Other(c) && c.0.model() == c1.0.model(),
            (Lift::Pure(_), Lift::Other(c2)) => r matches Lift::Other(c) && c.0 == c2.0,
            _ => true,
        },
{
    if let Lift::Other(c1) = f {
        if let Lift::Pure(x) = a {
            E::lemma_identity(c1.0.model());
        }
    }
}

/// Monad left identity for [`Except`].
pub proof fn lemma_except_left_identity<E, A, B>(
    a: A,
    x: Except<E, A>,
    rel: spec_fn(A, Except<E, B>) -> bool,
    y: Except<E, B>,
)
    requires
        <Except<E, A> as PureA>::pure_of(a, x),
    ensures
        <Except<E, A> as ChainM<B>>::chained(x, rel, y) <==> rel(a, y),
{
    lemma_except_identity_chained(x, rel, y);
    assert(ExceptT(y.0) == y);
}

/// Monad right identity for [`Except`].
pub proof fn lemma_except_right_identity<E, A>(x: Except<E, A>, y: Except<E, A>)
    requires
        <Except<E, A> as ChainM<A>>::chained(
            x,
            |a: A, m: Except<E, A>| <Except<E, A> as PureA>::pure_of(a, m),
            y,
        ),
    ensures
        y.0.0 == x.0.0,
{
}

/// Monad associativity for [`Except`].
pub proof fn lemma_except_associativity<E, A, B, C>(
    x: Except<E, A>,
    y: Except<E, B>,
    z: Except<E, C>,
    r1: spec_fn(A, Except<E, B>) -> bool,
    r2: spec_fn(B, Except<E, C>) -> bool,
)
    requires
        <Except<E, A> as ChainM<B>>::chained(x, r1, y),
        <Except<E, B> as ChainM<C>>::chained(y, r2, z),
    ensures
        <Except<E, A> as ChainM<C>>::chained(
            x,
            |a: A, w: Except<E, C>| exists|m: Except<E, B>| #[trigger] r1(a, m) && <Except<E, B> as ChainM<C>>::chained(m, r2, w),
            z,
        ),
{
    lemma_except_identity_chained(x, r1, y);
    lemma_except_identity_chained(y, r2, z);
    let comp = |a: A, w: Except<E, C>| exists|m: Except<E, B>| #[trigger] r1(a, m) && <Except<E, B> as ChainM<C>>::chained(m, r2, w);
    lemma_except_identity_chained(x, comp, z);
    assert(ExceptT(y.0) == y);
    assert(ExceptT(z.0) == z);
    if let Either::Right(a) = x.0.0 {
        assert(r1(a, y));
        assert(comp(a, z));
    }
}

/// `lift . return = return` for [`Except`].
pub proof fn lemma_except_lift_return<E, A>(a: A, x: Except<E, A>)
    ensures
        <Except<E, A> as MonadTrans<Identity<A>>>::lifted(Identity(a), x) <==> <Except<E, A> as PureA>::pure_of(a, x),
{
}

/// `lift (m >>= f) = lift m >>= (lift . f)` for [`Except`].
pub proof fn lemma_except_lift_chain<E, A, B>(
    m: Identity<A>,
    frel: spec_fn(A, Identity<B>) -> bool,
    y: Identity<B>,
    x: Except<E, A>,
    r: Except<E, B>,
)
    requires
        <Identity<A> as ChainM<B>>::chained(m, frel, y),
        <Except<E, B> as MonadTrans<Identity<B>>>::lifted(y, r),
        <Except<E, A> as MonadTrans<Identity<A>>>::lifted(m, x),
    ensures
        <Except<E, A> as ChainM<B>>::chained(x, lift_rel::<A, Identity<B>, Except<E, B>>(frel), r),
{
    lemma_except_identity_chained(x, lift_rel::<A, Identity<B>, Except<E, B>>(frel), r);
    assert(frel(m.0, y));
    assert(<Except<E, B> as MonadTrans<Identity<B>>>::lifted(y, r));
    assert(ExceptT(r.0) == r);
}

/// Over any inner monad that obeys left identity, a [`MaybeT`] computation that returns
/// `Nothing` skips the rest of the sequence: binding it gives `Nothing`, returned in the
/// inner monad, whatever the continuation.
pub proof fn lemma_maybe_t_nothing_skips<MA, A, B, MB>(
    x: MaybeT<MA>,
    rel: spec_fn(A, MaybeT<MB>) -> bool,
    y: MaybeT<MB>,
)
    where
        MA: Pointed<Pointed = Maybe<A>> + PureA + ChainM<Maybe<B>, Chained = MB>,
        MB: PureA<Pointed = Maybe<B>>,
    requires
        MA::pure_of(Maybe::Nothing, x.0),
        forall|inner: spec_fn(Maybe<A>, MB) -> bool, mb: MB|
            #[trigger] MA::chained(x.0, inner, mb) ==> inner(Maybe::Nothing, mb),
        <MaybeT<MA> as ChainM<B>>::chained(x, rel, y),
    ensures
        MB::pure_of(Maybe::Nothing, y.0),
{
    let inner = choose|inner: spec_fn(Maybe<A>, MB) -> bool|
        #[trigger] within(inner, maybe_step(rel)) && MA::chained(x.0, inner, y.0);
    assert(MA::chained(x.0, inner, y.0));
    assert(inner(Maybe::Nothing, y.0));
}

/// Over any inner monad that obeys left identity, applying a [`MaybeT`] computation of
/// functions that returns `Nothing` gives `Nothing` without running the arguments'
/// computation.
pub proof fn lemma_maybe_t_app_nothing_skips<MF, MX, G: Fn(A) -> B, A, B, MB>(
    mf: MaybeT<MF>,
    mx: MaybeT<MX>,
    r: MaybeT<MB>,
)
    where
        MF: Pointed<Pointed = Maybe<G>> + PureA + ChainM<Maybe<B>, Chained = MB>,
        MX: Pointed<Pointed = Maybe<A>> + ChainM<Maybe<B>, Chained = MB> + Clone,
        MB: PureA<Pointed = Maybe<B>>,
    requires
        MF::pure_of(Maybe::Nothing, mf.0),
        forall|inner: spec_fn(Maybe<G>, MB) -> bool, mb: MB|
            #[trigger] MF::chained(mf.0, inner, mb) ==> inner(Maybe::Nothing, mb),
        exists|inner: spec_fn(Maybe<G>, MB) -> bool|
            #[trigger] within(inner, maybe_app_step(mx.0)) && MF::chained(mf.0, inner, r.0),
    ensures
        MB::pure_of(Maybe::Nothing, r.0),
{
    let inner = choose|inner: spec_fn(Maybe<G>, MB) -> bool|
        #[trigger] within(inner, maybe_app_step(mx.0)) && MF::chained(mf.0, inner, r.0);
    assert(MF::chained(mf.0, inner, r.0));
    assert(inner(Maybe::Nothing, r.0));
}

/// Monad left identity for [`MaybeT`].
pub proof fn lemma_maybe_t_left_identity<A, B>(
    a: A,
    x: MaybeT<Identity<Maybe<A>>>,
    rel: spec_fn(A, MaybeT<Identity<Maybe<B>>>) -> bool,
    y: MaybeT<Identity<Maybe<B>>>,
)
    requires
        <MaybeT<Identity<Maybe<A>>> as PureA>::pure_of(a, x),
    ensures
        <MaybeT<Identity<Maybe<A>>> as ChainM<B>>::chained(x, rel, y) <==> rel(a, y),
{
    lemma_maybe_t_identity_chained(x, rel, y);
    assert(MaybeT(y.0) == y);
}

/// Monad right identity for [`MaybeT`].
pub proof fn lemma_maybe_t_right_identity<A>(x: MaybeT<Identity<Maybe<A>>>, y: MaybeT<Identity<Maybe<A>>>)
    requires
        <MaybeT<Identity<Maybe<A>>> as ChainM<A>>::chained(
            x,
            |a: A, m: MaybeT<Identity<Maybe<A>>>| <MaybeT<Identity<Maybe<A>>> as PureA>::pure_of(a, m),
            y,
        ),
    ensures
        y.0.0 == x.0.0,
{
}

/// Monad associativity for [`MaybeT`].
pub proof fn lemma_maybe_t_associativity<A, B, C>(
    x: MaybeT<Identity<Maybe<A>>>,
    y: MaybeT<Identity<Maybe<B>>>,
    z: MaybeT<Identity<Maybe<C>>>,
    r1: spec_fn(A, MaybeT<Identity<Maybe<B>>>) -> bool,
    r2: spec_fn(B, MaybeT<Identity<Maybe<C>>>) -> bool,
)
    requires
        <MaybeT<Identity<Maybe<A>>> as ChainM<B>>::chained(x, r1, y),
        <MaybeT<Identity<Maybe<B>>> as ChainM<C>>::chained(y, r2, z),
    ensures
        <MaybeT<Identity<Maybe<A>>> as ChainM<C>>::chained(
            x,
            |a: A, w: MaybeT<Identity<Maybe<C>>>|
                exists|m: MaybeT<Identity<Maybe<B>>>| #[trigger] r1(a, m) && <MaybeT<Identity<Maybe<B>>> as ChainM<C>>::chained(m, r2, w),
            z,
        ),
{
    lemma_maybe_t_identity_chained(x, r1, y);
    lemma_maybe_t_identity_chained(y, r2, z);
    let comp = |a: A, w: MaybeT<Identity<Maybe<C>>>|
        exists|m: MaybeT<Identity<Maybe<B>>>| #[trigger] r1(a, m) && <MaybeT<Identity<Maybe<B>>> as ChainM<C>>::chained(m, r2, w);
    lemma_maybe_t_identity_chained(x, comp, z);
    assert(MaybeT(y.0) == y);
    assert(MaybeT(z.0) == z);
    if let Maybe::Just(a) = x.0.0 {
        assert(r1(a, y));
        assert(comp(a, z));
    }
}

/// `lift . return = return` for [`Writer`]: a lifted value writes the empty output,
/// as the return does.
pub proof fn lemma_writer_lift_return<W: Monoid, A>(a: A, x: Writer<W, A>)
    ensures
        <Writer<W, A> as MonadTrans<Identity<A>>>::lifted(Identity(a), x) <==> <Writer<W, A> as PureA>::pure_of(a, x),
{
}

/// `lift (m >>= f) = lift m >>= (lift . f)` for [`Writer`]: binding a lifted computation to
/// a lifted one can be done, and writes the empty output, as lifting the bind does.
pub proof fn lemma_writer_lift_chain<W: Monoid, A, B>(
    m: Identity<A>,
    y: Identity<B>,
    x: Writer<W, A>,
    n: Writer<W, B>,
)
    requires
        <Writer<W, A> as MonadTrans<Identity<A>>>::lifted(m, x),
        <Writer<W, B> as MonadTrans<Identity<B>>>::lifted(y, n),
    ensures
        W::combinable(x.0.0.1.model(), n.0.0.1.model()),
        W::combine(x.0.0.1.model(), n.0.0.1.model()) == W::empty_model(),
{
    W::lemma_identity(W::empty_model());
}

/// `lift . return = return` for [`IdentityT`].
pub proof fn lemma_identity_t_lift_return<MA: PureA>(a: MA::Pointed, m: MA, x: IdentityT<MA>)
    requires
        MA::pure_of(a, m),
        <IdentityT<MA> as MonadTrans<MA>>::lifted(m, x),
    ensures
        <IdentityT<MA> as PureA>::pure_of(a, x),
{
}

/// `lift (m >>= f) = lift m >>= (lift . f)` for [`IdentityT`].
pub proof fn lemma_identity_t_lift_chain<MA: ChainM<B>, B>(
    m: MA,
    frel: spec_fn(MA::Pointed, MA::Chained) -> bool,
    y: MA::Chained,
    x: IdentityT<MA>,
    r: IdentityT<MA::Chained>,
)
    requires
        MA::chained(m, frel, y),
        <IdentityT<MA> as MonadTrans<MA>>::lifted(m, x),
        <IdentityT<MA::Chained> as MonadTrans<MA::Chained>>::lifted(y, r),
    ensures
        <IdentityT<MA> as ChainM<B>>::chained(
            x,
            lift_rel::<MA::Pointed, MA::Chained, IdentityT<MA::Chained>>(frel),
            r,
        ),
{
    let rel = lift_rel::<MA::Pointed, MA::Chained, IdentityT<MA::Chained>>(frel);
    assert forall|a: MA::Pointed, n: MA::Chained| #[trigger] frel(a, n) implies rel(a, IdentityT(n)) by {
        assert(<IdentityT<MA::Chained> as MonadTrans<MA::Chained>>::lifted(n, IdentityT(n)));
    }
    assert(unwrapped_rel(rel, frel));
}

/// Over the identity monad, for outputs whose clones are equal, what `chain_m` ensures of
/// `x.chain_m(k)` (the inner bind of `writer_step`) is that `r` gives the result of the
/// writer `n` that `k` gave, with the output of `x` combined with that of `n`.
pub proof fn lemma_writer_chain_identity<W: Semigroup + Clone, A, B, K: Fn(A) -> Writer<W, B>>(
    x: Writer<W, A>,
    k: K,
    r: Writer<W, B>,
)
    requires
        clones_exactly::<W>(),
        exists|inner: spec_fn((A, W), Identity<(B, W)>) -> bool|
            #[trigger] within(inner, writer_step(ensures1(k))) && <Identity<(A, W)> as ChainM<(B, W)>>::chained(
                x.0,
                inner,
                r.0,
            ),
    ensures
        exists|n: Writer<W, B>| #[trigger] call_ensures(k, (x.0.0.0,), n) && r.0.0.0 == n.0.0.0 && r.0.0.1.model()
            == W::combine(x.0.0.1.model(), n.0.0.1.model()),
{
    let inner = choose|inner: spec_fn((A, W), Identity<(B, W)>) -> bool|
        #[trigger] within(inner, writer_step(ensures1(k))) && <Identity<(A, W)> as ChainM<(B, W)>>::chained(
            x.0,
            inner,
            r.0,
        );
    assert(inner(x.0.0, r.0));
    assert(writer_step::<A, B, W, Identity<(B, W)>, Identity<(B, W)>>(ensures1(k))(x.0.0, r.0));
    let (n, inner2) = choose|n: Writer<W, B>, inner2: spec_fn((B, W), Identity<(B, W)>) -> bool|
        #![trigger ensures1(k)(x.0.0.0, n), within(inner2, combine_step(x.0.0.1))]
        ensures1(k)(x.0.0.0, n) && within(inner2, combine_step(x.0.0.1)) && <Identity<(B, W)> as ChainM<(B, W)>>::chained(
            n.0,
            inner2,
            r.0,
        );
    assert(inner2(n.0.0, r.0));
    assert(combine_step::<B, W, Identity<(B, W)>>(x.0.0.1)(n.0.0, r.0));
    let (c, o) = choose|c: W, o: W|
        #![trigger vstd::pervasive::cloned(x.0.0.1, c), <Identity<(B, W)> as PureA>::pure_of((n.0.0.0, o), r.0)]
        vstd::pervasive::cloned(x.0.0.1, c) && o.model() == W::combine(c.model(), n.0.0.1.model())
            && <Identity<(B, W)> as PureA>::pure_of((n.0.0.0, o), r.0);
    assert(c == x.0.0.1);
    assert(call_ensures(k, (x.0.0.0,), n));
}

/// Telling in sequence writes the outputs in order: what `tell(w1)` and `tell(w2)`
/// ensure, and what `then_m` ensures of the sequence `r`, give the output `w1 <> w2`.
pub proof fn lemma_writer_tell_then<W: Semigroup>(w1: W, w2: W, x: Writer<W, ()>, n: Writer<W, ()>, r: Writer<W, ()>)
    requires
        <Identity<((), W)> as PureA>::pure_of(((), w1), x.0),
        <Identity<((), W)> as PureA>::pure_of(((), w2), n.0),
        r.0.0.0 == n.0.0.0,
        r.0.0.1.model() == W::combine(x.0.0.1.model(), n.0.0.1.model()),
    ensures
        r.0.0.1.model() == W::combine(w1.model(), w2.model()),
{
}

/// Monad left identity for [`Writer`]: binding `return_m(a)` to `k` gives the result of
/// `n = k(a)` with the output of `n`. Here `x` is what `return_m(a)` ensures and `r` what
/// `x.chain_m(k)` ensures, with `n` the computation that `k(a)` gave.
pub proof fn lemma_writer_left_identity<W: Monoid, A, B>(a: A, x: Writer<W, A>, n: Writer<W, B>, r: Writer<W, B>)
    requires
        x.0.0.0 == a,
        x.0.0.1.model() == W::empty_model(),
        r.0.0.0 == n.0.0.0,
        r.0.0.1.model() == W::combine(x.0.0.1.model(), n.0.0.1.model()),
    ensures
        W::combinable(x.0.0.1.model(), n.0.0.1.model()),
        r.0.0.0 == n.0.0.0,
        r.0.0.1.model() == n.0.0.1.model(),
{
    W::lemma_identity(n.0.0.1.model());
}

/// Monad right identity for [`Writer`]: binding `x` to `return_m` gives the result and the
/// output of `x`. Here `n` is what `return_m` gave on the result of `x`, and `r` what
/// `x.chain_m(return_m)` ensures.
pub proof fn lemma_writer_right_identity<W: Monoid, A>(x: Writer<W, A>, n: Writer<W, A>, r: Writer<W, A>)
    requires
        n.0.0.0 == x.0.0.0,
        n.0.0.1.model() == W::empty_model(),
        r.0.0.0 == n.0.0.0,
        r.0.0.1.model() == W::combine(x.0.0.1.model(), n.0.0.1.model()),
    ensures
        W::combinable(x.0.0.1.model(), n.0.0.1.model()),
        r.0.0.0 == x.0.0.0,
        r.0.0.1.model() == x.0.0.1.model(),
{
    W::lemma_identity(x.0.0.1.model());
}

/// Monad associativity for [`Writer`]: with `y = k1(result of x)` and `z = k2(result of y)`,
/// `(x >>= k1) >>= k2` and `x >>= (\a -> k1(a) >>= k2)` give the same result and outputs
/// with the same model. `r1` is what the first ensures, `r2` what the second does.
pub proof fn lemma_writer_associativity<W: Semigroup, A, B, C>(
    x: Writer<W, A>,
    y: Writer<W, B>,
    z: Writer<W, C>,
    r1: Writer<W, C>,
    r2: Writer<W, C>,
)
    requires
        r1.0.0.0 == z.0.0.0,
        r1.0.0.1.model() == W::combine(W::combine(x.0.0.1.model(), y.0.0.1.model()), z.0.0.1.model()),
        r2.0.0.0 == z.0.0.0,
        r2.0.0.1.model() == W::combine(x.0.0.1.model(), W::combine(y.0.0.1.model(), z.0.0.1.model())),
    ensures
        r1.0.0.0 == r2.0.0.0,
        r1.0.0.1.model() == r2.0.0.1.model(),
{
    W::lemma_assoc(x.0.0.1.model(), y.0.0.1.model(), z.0.0.1.model());
}

/// `m` gives `a` and leaves the state as it is, from every state: what `return_m(a)` ensures.
pub open spec fn gives_back<S, A, F: Fn(S) -> Identity<(A, S)>>(m: State<S, A, F>, a: A) -> bool {
    forall|s: S, b: A, s2: S| #[trigger] m.runs(s, b, s2) ==> b == a && s2 == s
}

/// Running `m` and then the computation that `k` gives on its value may go from `s` to
/// `s2` giving `b`: what `m.chain_m(k)` ensures of its results.
pub open spec fn chains<S, A, B, F: Fn(S) -> Identity<(A, S)>, G: Fn(S) -> Identity<(B, S)>, K: Fn(A) -> State<S, B, G>>(
    m: State<S, A, F>,
    k: K,
    s: S,
    b: B,
    s2: S,
) -> bool {
    exists|a: A, s1: S, n: State<S, B, G>|
        #![trigger m.runs(s, a, s1), call_ensures(k, (a,), n)]
        m.runs(s, a, s1) && call_ensures(k, (a,), n) && n.runs(s1, b, s2)
}

/// Over the identity monad, what `chain_m` ensures of a result of `m.chain_m(k)` (the
/// inner bind of `state_step`) is `chains`: `m` runs to a value and a state, and the
/// computation that `k` gives on the value runs from that state to the result.
pub proof fn lemma_state_chain_identity<
    S,
    A,
    B,
    F: Fn(S) -> Identity<(A, S)>,
    G: Fn(S) -> Identity<(B, S)>,
    K: Fn(A) -> State<S, B, G>,
    R: Fn(S) -> Identity<(B, S)>,
>(m: State<S, A, F>, k: K, r: State<S, B, R>, s: S, b: B, s2: S)
    requires
        forall|s0: S, mb: Identity<(B, S)>| #[trigger] r.runs_to(s0, mb) ==> exists|
            ma: Identity<(A, S)>,
            inner: spec_fn((A, S), Identity<(B, S)>) -> bool,
        |
            #![trigger m.runs_to(s0, ma), within(inner, state_step(ensures1(k)))]
            m.runs_to(s0, ma) && within(inner, state_step(ensures1(k))) && <Identity<(A, S)> as ChainM<(B, S)>>::chained(
                ma,
                inner,
                mb,
            ),
        r.runs(s, b, s2),
    ensures
        chains(m, k, s, b, s2),
{
    assert(r.runs_to(s, Identity((b, s2))));
    let (ma, inner) = choose|ma: Identity<(A, S)>, inner: spec_fn((A, S), Identity<(B, S)>) -> bool|
        #![trigger m.runs_to(s, ma), within(inner, state_step(ensures1(k)))]
        m.runs_to(s, ma) && within(inner, state_step(ensures1(k))) && <Identity<(A, S)> as ChainM<(B, S)>>::chained(
            ma,
            inner,
            Identity((b, s2)),
        );
    assert(inner(ma.0, Identity((b, s2))));
    assert(state_step::<S, A, Identity<(B, S)>, G>(ensures1(k))(ma.0, Identity((b, s2))));
    let n = choose|n: State<S, B, G>| #[trigger] ensures1(k)(ma.0.0, n) && n.runs_to(ma.0.1, Identity((b, s2)));
    assert(Identity((ma.0.0, ma.0.1)) == ma);
    assert(m.runs(s, ma.0.0, ma.0.1));
    assert(call_ensures(k, (ma.0.0,), n));
    assert(n.runs(ma.0.1, b, s2));
}

/// Over the identity monad, what `then_m` ensures of a result of `m.then_m(n)` is that `m`
/// runs to some value and state, and `n` runs from that state to the result.
pub proof fn lemma_state_then_identity<
    S,
    A,
    B,
    F: Fn(S) -> Identity<(A, S)>,
    G: Fn(S) -> Identity<(B, S)>,
    R: Fn(S) -> Identity<(B, S)>,
>(m: State<S, A, F>, n: State<S, B, G>, r: State<S, B, R>, s: S, b: B, s2: S)
    requires
        forall|s0: S, mb: Identity<(B, S)>| #[trigger] r.runs_to(s0, mb) ==> exists|
            ma: Identity<(A, S)>,
            inner: spec_fn((A, S), Identity<(B, S)>) -> bool,
        |
            #![trigger m.runs_to(s0, ma), within(inner, then_step::<S, A, Identity<(B, S)>, G>(n))]
            m.runs_to(s0, ma) && within(inner, then_step::<S, A, Identity<(B, S)>, G>(n)) && <Identity<
                (A, S),
            > as ChainM<(B, S)>>::chained(ma, inner, mb),
        r.runs(s, b, s2),
    ensures
        exists|a: A, s1: S| #[trigger] m.runs(s, a, s1) && n.runs(s1, b, s2),
{
    assert(r.runs_to(s, Identity((b, s2))));
    let (ma, inner) = choose|ma: Identity<(A, S)>, inner: spec_fn((A, S), Identity<(B, S)>) -> bool|
        #![trigger m.runs_to(s, ma), within(inner, then_step::<S, A, Identity<(B, S)>, G>(n))]
        m.runs_to(s, ma) && within(inner, then_step::<S, A, Identity<(B, S)>, G>(n)) && <Identity<(A, S)> as ChainM<
            (B, S),
        >>::chained(ma, inner, Identity((b, s2)));
    assert(inner(ma.0, Identity((b, s2))));
    assert(Identity((ma.0.0, ma.0.1)) == ma);
    assert(m.runs(s, ma.0.0, ma.0.1));
    assert(n.runs(ma.0.1, b, s2));
}

/// `put(s1) >> get` gives `s1` and leaves `s1`, for states whose clones are equal: here
/// `p` is what `put(s1)` ensures, `g` what `get()` ensures, and `r` what `p.then_m(g)`
/// ensures (through `lemma_state_then_identity`).
pub proof fn lemma_state_put_then_get<S: Clone, H: Fn(S) -> Identity<((), S)>, G: Fn(S) -> Identity<(S, S)>>(
    s1: S,
    p: State<S, (), H>,
    g: State<S, S, G>,
    s0: S,
    b: S,
    s2: S,
)
    requires
        clones_exactly::<S>(),
        forall|x: S, u: (), y: S| #[trigger] p.runs(x, u, y) ==> vstd::pervasive::cloned(s1, y),
        forall|x: S, a: S, y: S| #[trigger] g.runs(x, a, y) ==> vstd::pervasive::cloned(x, a) && y == x,
        exists|u: (), s: S| #[trigger] p.runs(s0, u, s) && g.runs(s, b, s2),
    ensures
        b == s1,
        s2 == s1,
{
    let (u, s) = choose|u: (), s: S| #[trigger] p.runs(s0, u, s) && g.runs(s, b, s2);
    assert(p.runs(s0, u, s));
    assert(g.runs(s, b, s2));
}

/// Monad left identity for [`State`]: binding `return_m(a)` to `k` runs `k(a)`.
pub proof fn lemma_state_left_identity<S, A, B, F: Fn(S) -> Identity<(A, S)>, G: Fn(S) -> Identity<(B, S)>, K: Fn(A) -> State<S, B, G>>(
    m: State<S, A, F>,
    a: A,
    k: K,
    s: S,
    b: B,
    s2: S,
)
    requires
        gives_back(m, a),
        chains(m, k, s, b, s2),
    ensures
        exists|n: State<S, B, G>| #[trigger] call_ensures(k, (a,), n) && n.runs(s, b, s2),
{
    let (a1, s1, n) = choose|a1: A, s1: S, n: State<S, B, G>|
        #![trigger m.runs(s, a1, s1), call_ensures(k, (a1,), n)]
        m.runs(s, a1, s1) && call_ensures(k, (a1,), n) && n.runs(s1, b, s2);
    assert(m.runs(s, a1, s1));
    assert(call_ensures(k, (a, ), n));
}

/// Monad right identity for [`State`]: binding `m` to `return_m` runs `m`.
pub proof fn lemma_state_right_identity<S, A, F: Fn(S) -> Identity<(A, S)>, G: Fn(S) -> Identity<(A, S)>, K: Fn(A) -> State<S, A, G>>(
    m: State<S, A, F>,
    k: K,
    s: S,
    b: A,
    s2: S,
)
    requires
        forall|a: A, n: State<S, A, G>| #[trigger] call_ensures(k, (a,), n) ==> gives_back(n, a),
        chains(m, k, s, b, s2),
    ensures
        m.runs(s, b, s2),
{
    let (a1, s1, n) = choose|a1: A, s1: S, n: State<S, A, G>|
        #![trigger m.runs(s, a1, s1), call_ensures(k, (a1,), n)]
        m.runs(s, a1, s1) && call_ensures(k, (a1,), n) && n.runs(s1, b, s2);
    assert(gives_back(n, a1));
    assert(n.runs(s1, b, s2));
}

/// Monad associativity for [`State`]: a result of `(m >>= k1) >>= k2` is a result of
/// `m >>= (\a -> k1(a) >>= k2)`. `y` is `m.chain_m(k1)`, described by what `chain_m` ensures.
pub proof fn lemma_state_associativity<
    S,
    A,
    B,
    C,
    F: Fn(S) -> Identity<(A, S)>,
    G1: Fn(S) -> Identity<(B, S)>,
    G2: Fn(S) -> Identity<(C, S)>,
    Y: Fn(S) -> Identity<(B, S)>,
    K1: Fn(A) -> State<S, B, G1>,
    K2: Fn(B) -> State<S, C, G2>,
>(m: State<S, A, F>, k1: K1, k2: K2, y: State<S, B, Y>, s: S, c: C, s2: S)
    requires
        forall|s0: S, b: B, s1: S| #[trigger] y.runs(s0, b, s1) ==> chains(m, k1, s0, b, s1),
        chains(y, k2, s, c, s2),
    ensures
        exists|a: A, s1: S, n: State<S, B, G1>|
            #![trigger m.runs(s, a, s1), call_ensures(k1, (a,), n)]
            m.runs(s, a, s1) && call_ensures(k1, (a,), n) && chains(n, k2, s1, c, s2),
{
    let (b, s1, p) = choose|b: B, s1: S, p: State<S, C, G2>|
        #![trigger y.runs(s, b, s1), call_ensures(k2, (b,), p)]
        y.runs(s, b, s1) && call_ensures(k2, (b,), p) && p.runs(s1, c, s2);
    assert(y.runs(s, b, s1));
    let (a, s0, n) = choose|a: A, s0: S, n: State<S, B, G1>|
        #![trigger m.runs(s, a, s0), call_ensures(k1, (a,), n)]
        m.runs(s, a, s0) && call_ensures(k1, (a,), n) && n.runs(s0, b, s1);
    assert(n.runs(s0, b, s1) && call_ensures(k2, (b,), p) && p.runs(s1, c, s2));
    assert(chains(n, k2, s0, c, s2));
    assert(m.runs(s, a, s0) && call_ensures(k1, (a,), n));
}

/// `lift . return = return` for [`State`]: what lifting `Identity(a)` ensures is what
/// `return_m(a)` ensures.
pub proof fn lemma_state_lift_return<S, A, F: Fn(S) -> Identity<(A, S)>>(a: A, x: State<S, A, F>)
    ensures
        (forall|s: S, b: A, s2: S| #[trigger] x.runs(s, b, s2) ==> b == Identity(a).0 && s2 == s) <==> gives_back(x, a),
{
}

/// `lift (m >>= f) = lift m >>= (lift . f)` for [`State`]: a result of binding the lifted
/// `m` to a function that lifts what `f` gives is a result of lifting `m >>= f`: it gives
/// the value of a computation that `f` gives on the value of `m`, and leaves the state.
pub proof fn lemma_state_lift_chain<
    S,
    A,
    B,
    F: Fn(S) -> Identity<(A, S)>,
    G: Fn(S) -> Identity<(B, S)>,
    K: Fn(A) -> State<S, B, G>,
>(m: Identity<A>, frel: spec_fn(A, Identity<B>) -> bool, x: State<S, A, F>, k: K, s: S, b: B, s2: S)
    requires
        forall|s0: S, a: A, s1: S| #[trigger] x.runs(s0, a, s1) ==> a == m.0 && s1 == s0,
        forall|a: A, n: State<S, B, G>| #[trigger] call_ensures(k, (a,), n) ==> exists|y: Identity<B>|
            #[trigger] frel(a, y) && gives_back(n, y.0),
        chains(x, k, s, b, s2),
    ensures
        exists|y: Identity<B>| #[trigger] <Identity<A> as ChainM<B>>::chained(m, frel, y) && b == y.0 && s2 == s,
{
    let (a, s1, n) = choose|a: A, s1: S, n: State<S, B, G>|
        #![trigger x.runs(s, a, s1), call_ensures(k, (a,), n)]
        x.runs(s, a, s1) && call_ensures(k, (a,), n) && n.runs(s1, b, s2);
    assert(x.runs(s, a, s1));
    assert(call_ensures(k, (a,), n));
    let y = choose|y: Identity<B>| #[trigger] frel(a, y) && gives_back(n, y.0);
    assert(n.runs(s1, b, s2));
    assert(<Identity<A> as ChainM<B>>::chained(m, frel, y));
}

/// `withState f m = modify f >> m`: a result of running `m` after a computation that only
/// replaces the state `s` by some `g(s)` (as `modify(g)` does) is a result of running `m`
/// on a state modified by `g` (as `m.with(g)` gives).
pub proof fn lemma_state_with_is_modify_then<S, A, F: Fn(S) -> Identity<(A, S)>, H: Fn(S) -> Identity<((), S)>, G: Fn(S) -> S>(
    m: State<S, A, F>,
    g: G,
    md: State<S, (), H>,
    s: S,
    a: A,
    s2: S,
)
    requires
        forall|s0: S, u: (), s1: S| #[trigger] md.runs(s0, u, s1) ==> call_ensures(g, (s0,), s1),
        exists|u: (), s1: S| #[trigger] md.runs(s, u, s1) && m.runs(s1, a, s2),
    ensures
        exists|s1: S| #[trigger] call_ensures(g, (s,), s1) && m.runs(s1, a, s2),
{
    let (u, s1) = choose|u: (), s1: S| #[trigger] md.runs(s, u, s1) && m.runs(s1, a, s2);
    assert(call_ensures(g, (s, ), s1));
}

/// `gets f = liftM f get`: mapping `g` over a computation that gives a clone of the state
/// and keeps it (as `get` does) gives a result of `gets(g)`: the state kept, and the value
/// `g` of a clone of it.
pub proof fn lemma_state_gets_is_fmap_get<S: Clone, A, H: Fn(S) -> Identity<(S, S)>, G: Fn(S) -> A>(
    get: State<S, S, H>,
    g: G,
    s: S,
    a: A,
    s2: S,
)
    requires
        forall|s0: S, c: S, s1: S| #[trigger] get.runs(s0, c, s1) ==> vstd::pervasive::cloned(s0, c) && s1 == s0,
        exists|c: S| #[trigger] get.runs(s, c, s2) && call_ensures(g, (c,), a),
    ensures
        s2 == s,
        exists|c: S| vstd::pervasive::cloned(s, c) && #[trigger] call_ensures(g, (c,), a),
{
    let c = choose|c: S| #[trigger] get.runs(s, c, s2) && call_ensures(g, (c,), a);
    assert(get.runs(s, c, s2));
}

/// Every clone of a value of `T` equals it, as for the integers and the other `Copy` types.
pub open spec fn clones_exactly<T: Clone>() -> bool {
    forall|x: T, y: T| #[trigger] vstd::pervasive::cloned(x, y) ==> x == y
}

/// Running `m` on a clone of `r`, and then in `r` the reader that `k` gives on its value,
/// may give `b`: what `m.chain_m(k)` ensures of its results.
pub open spec fn reads_through<R: Clone, A, B, F: Fn(R) -> Identity<A>, G: Fn(R) -> Identity<B>, K: Fn(A) -> Reader<R, B, G>>(
    m: Reader<R, A, F>,
    k: K,
    r: R,
    b: B,
) -> bool {
    exists|c: R, a: A, n: Reader<R, B, G>|
        #![trigger m.runs(c, a), call_ensures(k, (a,), n)]
        vstd::pervasive::cloned(r, c) && m.runs(c, a) && call_ensures(k, (a,), n) && n.runs(r, b)
}

/// `lift . return = return` for [`Reader`], for values whose clones are equal: a lifted
/// `Identity(a)` (`x`, described by what `lift_t` ensures) and `return_m(a)` (`y`) both give
/// `a` in every environment.
pub proof fn lemma_reader_lift_return<R, A: Clone, F: Fn(R) -> Identity<A>, G: Fn(R) -> Identity<A>>(
    a: A,
    x: Reader<R, A, F>,
    y: Reader<R, A, G>,
)
    requires
        clones_exactly::<A>(),
        forall|r: R, n: Identity<A>| #[trigger] x.runs_to(r, n) ==> n == Identity(a),
        forall|r: R, b: A| #[trigger] y.runs(r, b) ==> vstd::pervasive::cloned(a, b),
    ensures
        forall|r: R, b: A| #[trigger] x.runs(r, b) ==> b == a,
        forall|r: R, b: A| #[trigger] y.runs(r, b) ==> b == a,
{
    assert forall|r: R, b: A| #[trigger] x.runs(r, b) implies b == a by {
        assert(x.runs_to(r, Identity(b)));
    }
}

/// `lift (m >>= f) = lift m >>= (lift . f)` for [`Reader`]: a result of binding the lifted
/// `m` (`x`) to a function that lifts what `f` gives is a result of lifting `m >>= f`.
pub proof fn lemma_reader_lift_chain<
    R: Clone,
    A,
    B,
    F: Fn(R) -> Identity<A>,
    G: Fn(R) -> Identity<B>,
    K: Fn(A) -> Reader<R, B, G>,
>(m: Identity<A>, frel: spec_fn(A, Identity<B>) -> bool, x: Reader<R, A, F>, k: K, r: R, b: B)
    requires
        forall|r0: R, n: Identity<A>| #[trigger] x.runs_to(r0, n) ==> n == m,
        forall|a: A, n: Reader<R, B, G>| #[trigger] call_ensures(k, (a,), n) ==> exists|y: Identity<B>|
            #[trigger] frel(a, y) && (forall|r0: R, n2: Identity<B>| #[trigger] n.runs_to(r0, n2) ==> n2 == y),
        reads_through(x, k, r, b),
    ensures
        exists|y: Identity<B>| #[trigger] <Identity<A> as ChainM<B>>::chained(m, frel, y) && b == y.0,
{
    let (c, a, n) = choose|c: R, a: A, n: Reader<R, B, G>|
        #![trigger x.runs(c, a), call_ensures(k, (a,), n)]
        vstd::pervasive::cloned(r, c) && x.runs(c, a) && call_ensures(k, (a,), n) && n.runs(r, b);
    assert(x.runs_to(c, Identity(a)));
    assert(call_ensures(k, (a,), n));
    let y = choose|y: Identity<B>| #[trigger] frel(a, y) && (forall|r0: R, n2: Identity<B>| #[trigger] n.runs_to(r0, n2) ==> n2 == y);
    assert(n.runs_to(r, Identity(b)));
    assert(<Identity<A> as ChainM<B>>::chained(m, frel, y));
}

/// Over the identity monad, for environments whose clones are equal, what `chain_m`
/// ensures of a result of `m.chain_m(k)` (the inner bind of `reader_step`) is
/// `reads_through`.
pub proof fn lemma_reader_chain_identity<
    R: Clone,
    A,
    B,
    F: Fn(R) -> Identity<A>,
    G: Fn(R) -> Identity<B>,
    K: Fn(A) -> Reader<R, B, G>,
    Q: Fn(R) -> Identity<B>,
>(m: Reader<R, A, F>, k: K, res: Reader<R, B, Q>, r: R, b: B)
    requires
        clones_exactly::<R>(),
        forall|r0: R, mb: Identity<B>| #[trigger] res.runs_to(r0, mb) ==> exists|
            c: R,
            ma: Identity<A>,
            inner: spec_fn(A, Identity<B>) -> bool,
        |
            #![trigger m.runs_to(c, ma), within(inner, reader_step(ensures1(k), r0))]
            vstd::pervasive::cloned(r0, c) && m.runs_to(c, ma) && within(inner, reader_step(ensures1(k), r0))
                && <Identity<A> as ChainM<B>>::chained(ma, inner, mb),
        res.runs(r, b),
    ensures
        reads_through(m, k, r, b),
{
    assert(res.runs_to(r, Identity(b)));
    let (c, ma, inner) = choose|c: R, ma: Identity<A>, inner: spec_fn(A, Identity<B>) -> bool|
        #![trigger m.runs_to(c, ma), within(inner, reader_step(ensures1(k), r))]
        vstd::pervasive::cloned(r, c) && m.runs_to(c, ma) && within(inner, reader_step(ensures1(k), r))
            && <Identity<A> as ChainM<B>>::chained(ma, inner, Identity(b));
    assert(inner(ma.0, Identity(b)));
    assert(reader_step::<R, A, Identity<B>, G>(ensures1(k), r)(ma.0, Identity(b)));
    let (n, c2) = choose|n: Reader<R, B, G>, c2: R|
        #![trigger ensures1(k)(ma.0, n), vstd::pervasive::cloned(r, c2)]
        ensures1(k)(ma.0, n) && vstd::pervasive::cloned(r, c2) && n.runs_to(c2, Identity(b));
    assert(c2 == r);
    assert(Identity(ma.0) == ma);
    assert(m.runs(c, ma.0));
    assert(call_ensures(k, (ma.0,), n));
    assert(n.runs(r, b));
}

/// A change of environment made by `local` does not leak to what follows: binding a reader
/// to a function that gives readers returning their environment (as `ask` does) gives the
/// environment the whole runs in, for environments whose clones are equal. `reads_through`
/// is what `chain_m` ensures (through `lemma_reader_chain_identity`).
pub proof fn lemma_reader_local_no_leak<R: Clone, A, F: Fn(R) -> Identity<A>, G: Fn(R) -> Identity<R>, K: Fn(A) -> Reader<R, R, G>>(
    m: Reader<R, A, F>,
    k: K,
    r: R,
    b: R,
)
    requires
        forall|a: A, n: Reader<R, R, G>| #[trigger] call_ensures(k, (a,), n) ==> forall|r0: R, b0: R| #[trigger] n.runs(r0, b0) ==> b0 == r0,
        reads_through(m, k, r, b),
    ensures
        b == r,
{
    let (c, a, n) = choose|c: R, a: A, n: Reader<R, R, G>|
        #![trigger m.runs(c, a), call_ensures(k, (a,), n)]
        vstd::pervasive::cloned(r, c) && m.runs(c, a) && call_ensures(k, (a,), n) && n.runs(r, b);
    assert(call_ensures(k, (a,), n));
    assert(n.runs(r, b));
}

/// Monad left identity for [`Reader`]: binding `return_m(a)` to `k` runs `k(a)`, for values
/// whose clones are equal. `m` is what `return_m(a)` ensures.
pub proof fn lemma_reader_left_identity<R: Clone, A: Clone, B, F: Fn(R) -> Identity<A>, G: Fn(R) -> Identity<B>, K: Fn(A) -> Reader<R, B, G>>(
    m: Reader<R, A, F>,
    a: A,
    k: K,
    r: R,
    b: B,
)
    requires
        clones_exactly::<A>(),
        forall|r0: R, a0: A| #[trigger] m.runs(r0, a0) ==> vstd::pervasive::cloned(a, a0),
        reads_through(m, k, r, b),
    ensures
        exists|n: Reader<R, B, G>| #[trigger] call_ensures(k, (a,), n) && n.runs(r, b),
{
    let (c, a1, n) = choose|c: R, a1: A, n: Reader<R, B, G>|
        #![trigger m.runs(c, a1), call_ensures(k, (a1,), n)]
        vstd::pervasive::cloned(r, c) && m.runs(c, a1) && call_ensures(k, (a1,), n) && n.runs(r, b);
    assert(vstd::pervasive::cloned(a, a1));
    assert(call_ensures(k, (a,), n));
}

/// Monad right identity for [`Reader`]: binding `m` to `return_m` runs `m`, for
/// environments and values whose clones are equal. `k` is described by what `return_m`
/// ensures.
pub proof fn lemma_reader_right_identity<R: Clone, A: Clone, F: Fn(R) -> Identity<A>, G: Fn(R) -> Identity<A>, K: Fn(A) -> Reader<R, A, G>>(
    m: Reader<R, A, F>,
    k: K,
    r: R,
    b: A,
)
    requires
        clones_exactly::<R>(),
        clones_exactly::<A>(),
        forall|a: A, n: Reader<R, A, G>| #[trigger] call_ensures(k, (a,), n) ==> forall|r0: R, a0: A|
            #[trigger] n.runs(r0, a0) ==> vstd::pervasive::cloned(a, a0),
        reads_through(m, k, r, b),
    ensures
        m.runs(r, b),
{
    let (c, a1, n) = choose|c: R, a1: A, n: Reader<R, A, G>|
        #![trigger m.runs(c, a1), call_ensures(k, (a1,), n)]
        vstd::pervasive::cloned(r, c) && m.runs(c, a1) && call_ensures(k, (a1,), n) && n.runs(r, b);
    assert(n.runs(r, b));
    assert(vstd::pervasive::cloned(a1, b));
    assert(vstd::pervasive::cloned(r, c));
}

/// Monad associativity for [`Reader`]: a result of `(m >>= k1) >>= k2` is a result of
/// `m >>= (\a -> k1(a) >>= k2)`, for environments whose clones are equal. `y` is
/// `m.chain_m(k1)`, described by what `chain_m` ensures.
pub proof fn lemma_reader_associativity<
    R: Clone,
    A,
    B,
    C,
    F: Fn(R) -> Identity<A>,
    G1: Fn(R) -> Identity<B>,
    G2: Fn(R) -> Identity<C>,
    Y: Fn(R) -> Identity<B>,
    K1: Fn(A) -> Reader<R, B, G1>,
    K2: Fn(B) -> Reader<R, C, G2>,
>(m: Reader<R, A, F>, k1: K1, k2: K2, y: Reader<R, B, Y>, r: R, c: C)
    requires
        clones_exactly::<R>(),
        forall|r0: R, b: B| #[trigger] y.runs(r0, b) ==> reads_through(m, k1, r0, b),
        reads_through(y, k2, r, c),
    ensures
        exists|r1: R, a: A, n: Reader<R, B, G1>|
            #![trigger m.runs(r1, a), call_ensures(k1, (a,), n)]
            vstd::pervasive::cloned(r, r1) && m.runs(r1, a) && call_ensures(k1, (a,), n)
                && reads_through(n, k2, r, c),
{
    let (c1, b, p) = choose|c1: R, b: B, p: Reader<R, C, G2>|
        #![trigger y.runs(c1, b), call_ensures(k2, (b,), p)]
        vstd::pervasive::cloned(r, c1) && y.runs(c1, b) && call_ensures(k2, (b,), p) && p.runs(r, c);
    assert(vstd::pervasive::cloned(r, c1));
    assert(y.runs(c1, b));
    let (c2, a, n) = choose|c2: R, a: A, n: Reader<R, B, G1>|
        #![trigger m.runs(c2, a), call_ensures(k1, (a,), n)]
        vstd::pervasive::cloned(c1, c2) && m.runs(c2, a) && call_ensures(k1, (a,), n) && n.runs(c1, b);
    assert(vstd::pervasive::cloned(c1, c2));
    assert(vstd::pervasive::cloned(r, c1) && n.runs(c1, b) && call_ensures(k2, (b,), p) && p.runs(r, c));
    assert(reads_through(n, k2, r, c));
    assert(m.runs(c2, a) && call_ensures(k1, (a,), n));
}

/// `asks f = liftM f ask`: mapping `g` over a reader that gives its environment (as `ask`
/// does) gives a result of `asks(g)`: `g` of the environment.
pub proof fn lemma_reader_asks_is_fmap_ask<R, A, H: Fn(R) -> Identity<R>, G: Fn(R) -> A>(
    ask: Reader<R, R, H>,
    g: G,
    r: R,
    a: A,
)
    requires
        forall|r0: R, e: R| #[trigger] ask.runs(r0, e) ==> e == r0,
        exists|e: R| #[trigger] ask.runs(r, e) && call_ensures(g, (e,), a),
    ensures
        call_ensures(g, (r,), a),
{
    let e = choose|e: R| #[trigger] ask.runs(r, e) && call_ensures(g, (e,), a);
    assert(ask.runs(r, e));
}

} // verus!
