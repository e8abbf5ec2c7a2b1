//! Classes of monads that accumulate an output, and their instances for [`WriterT`].

use vstd::prelude::*;

use crate::base::data::functor::{ensures1, total1, within, Functor, PureA};
use crate::base::data::identity::Identity;
use crate::transformers::writer::{censored_rel, listened_rel, listened_with_rel, passed_rel, Writer, WriterT};

verus! {

/// Monads that can embed a simple writer action.
pub trait MonadWriter<W, A>: Sized {
    /// `r` gives `a` and writes `w`.
    spec fn wrote(a: A, w: W, r: Self) -> bool;

    /// An action that gives `a` and produces the output `w`.
    fn writer(a: A, w: W) -> (r: Self)
        ensures
            Self::wrote(a, w, r),
    ;
}

/// Monads that can produce an output.
pub trait MonadTell<W, A>: Sized {
    /// `r` produces the output `w`.
    spec fn told(w: W, r: Self) -> bool;

    /// An action that produces the output `w`.
    fn tell(w: W) -> (r: Self)
        ensures
            Self::told(w, r),
    ;
}

/// Monads whose output can be read back.
pub trait MonadListen<MO>: Sized {
    /// `r` is `x` with its output added to its value.
    spec fn listened(x: Self, r: MO) -> bool;

    /// Run the action and add its output to its value.
    fn listen(self) -> (r: MO)
        ensures
            Self::listened(self, r),
    ;
}

/// Monads whose output can be transformed by a function that the action gives.
pub trait MonadPass<MF>: Sized {
    /// `r` is `x` with the function in its value applied to its output.
    spec fn passed(x: Self, r: MF) -> bool;

    /// Whether the function in the value of `x` can be applied.
    spec fn pass_ok(x: Self) -> bool;

    /// Run the action, which gives a value and a function, and give the value, applying
    /// the function to the output.
    fn pass(self) -> (r: MF)
        requires
            Self::pass_ok(self),
        ensures
            Self::passed(self, r),
    ;
}

/// Actions that can add a function of their output to their value.
pub trait Listens<W, B, MAB>: Sized {
    /// `r` is `x` with a result of a function described by `rel` on its output added to its value.
    spec fn listened_with(x: Self, rel: spec_fn(W, B) -> bool, r: MAB) -> bool;

    /// `listens f m = liftM (id *** f) (listen m)`.
    fn listens<F: Fn(W) -> B>(self, f: F) -> (r: MAB)
        requires
            total1(f),
        ensures
            Self::listened_with(self, ensures1(f), r),
    ;
}

/// Actions whose output can be transformed.
pub trait Censor<W>: Sized {
    /// `r` is `x` with its output transformed by a function described by `rel`.
    spec fn censored(x: Self, rel: spec_fn(W, W) -> bool, r: Self) -> bool;

    /// Run the action and apply `f` to its output, leaving its value unchanged.
    fn censor<F: Fn(W) -> W>(self, f: F) -> (r: Self)
        requires
            total1(f),
        ensures
            Self::censored(self, ensures1(f), r),
    ;
}

impl<W, A, MA: PureA<Pointed = (A, W)>> MonadWriter<W, A> for WriterT<W, MA> {
    open spec fn wrote(a: A, w: W, r: Self) -> bool {
        MA::pure_of((a, w), r.0)
    }

    fn writer(a: A, w: W) -> (r: Self) {
        WriterT::new((a, w))
    }
}

impl<W, MA: PureA<Pointed = ((), W)>> MonadTell<W, ()> for WriterT<W, MA> {
    open spec fn told(w: W, r: Self) -> bool {
        MA::pure_of(((), w), r.0)
    }

    fn tell(w: W) -> (r: Self) {
        WriterT::tell(w)
    }
}

impl<W: Clone, A> MonadListen<Writer<W, (A, W)>> for WriterT<W, Identity<(A, W)>> {
    open spec fn listened(x: Self, r: Writer<W, (A, W)>) -> bool {
        &&& r.0.0.0.0 == x.0.0.0
        &&& vstd::pervasive::cloned(x.0.0.1, r.0.0.0.1)
        &&& r.0.0.1 == x.0.0.1
    }

    fn listen(self) -> (r: Writer<W, (A, W)>) {
        let ghost x = self;
        let r = WriterT::listen(self);
        proof {
            let inner = choose|inner: spec_fn((A, W), ((A, W), W)) -> bool|
                #[trigger] within(inner, listened_rel()) && <Identity<(A, W)> as Functor<((A, W), W)>>::fmapped(x.0, inner, r.0);
            assert(inner(x.0.0, r.0.0));
        }
        r
    }
}

impl<W, A, B, G: Fn(W) -> B> MonadPass<Writer<B, A>> for WriterT<W, Identity<((A, G), W)>> {
    open spec fn pass_ok(x: Self) -> bool {
        forall|g: G, w: W| call_requires(g, (w,))
    }

    open spec fn passed(x: Self, r: Writer<B, A>) -> bool {
        &&& r.0.0.0 == x.0.0.0.0
        &&& call_ensures(x.0.0.0.1, (x.0.0.1,), r.0.0.1)
    }

    fn pass(self) -> (r: Writer<B, A>) {
        let ghost x = self;
        let r = WriterT::pass(self);
        proof {
            let inner = choose|inner: spec_fn(((A, G), W), (A, B)) -> bool|
                #[trigger] within(inner, passed_rel()) && <Identity<((A, G), W)> as Functor<(A, B)>>::fmapped(x.0, inner, r.0);
            assert(inner(x.0.0, r.0.0));
        }
        r
    }
}

impl<W: Clone, A, B> Listens<W, B, Writer<W, (A, B)>> for WriterT<W, Identity<(A, W)>> {
    open spec fn listened_with(x: Self, rel: spec_fn(W, B) -> bool, r: Writer<W, (A, B)>) -> bool {
        &&& r.0.0.0.0 == x.0.0.0
        &&& r.0.0.1 == x.0.0.1
        &&& exists|c: W| vstd::pervasive::cloned(x.0.0.1, c) && #[trigger] rel(c, r.0.0.0.1)
    }

    fn listens<F: Fn(W) -> B>(self, f: F) -> (r: Writer<W, (A, B)>) {
        let ghost x = self;
        let r = WriterT::listens(self, f);
        proof {
            let inner = choose|inner: spec_fn((A, W), ((A, B), W)) -> bool|
                #[trigger] within(inner, listened_with_rel(ensures1(f))) && <Identity<(A, W)> as Functor<((A, B), W)>>::fmapped(x.0, inner, r.0);
            assert(inner(x.0.0, r.0.0));
        }
        r
    }
}

impl<W, A> Censor<W> for WriterT<W, Identity<(A, W)>> {
    open spec fn censored(x: Self, rel: spec_fn(W, W) -> bool, r: Self) -> bool {
        r.0.0.0 == x.0.0.0 && rel(x.0.0.1, r.0.0.1)
    }

    fn censor<F: Fn(W) -> W>(self, f: F) -> (r: Self) {
        let ghost x = self;
        let r = WriterT::censor(self, f);
        proof {
            let inner = choose|inner: spec_fn((A, W), (A, W)) -> bool|
                #[trigger] within(inner, censored_rel(ensures1(f))) && <Identity<(A, W)> as Functor<(A, W)>>::fmapped(x.0, inner, r.0);
            assert(inner(x.0.0, r.0.0));
        }
        r
    }
}

} // verus!
