//! The operations of state monads (an updatable state), for a state computation and for a
//! writer whose inner monad is a state computation.
//!
//! In a writer over a state computation, the state operations act on the inner
//! computation and write the empty output (`get = lift get`, `put s = lift (put s)`,
//! `state f = lift (state f)`).

use std::marker::PhantomData;

use vstd::prelude::*;

use crate::base::data::functor::total1;
use crate::base::data::identity::Identity;
use crate::base::data::monoid::Monoid;
use crate::transformers::state::{State, StateT};
use crate::transformers::writer::WriterT;

verus! {

impl<S> StateT<S, (), ()> {
    /// Embed a simple state action (the same as [`StateT::new`]).
    pub fn state<A, G: Fn(S) -> (A, S)>(g: G) -> (r: State<S, A, impl Fn(S) -> Identity<(A, S)>>)
        requires
            total1(g),
        ensures
            r.total(),
            forall|s: S, a: A, s2: S| #[trigger] r.runs(s, a, s2) ==> call_ensures(g, (s,), (a, s2)),
    {
        Self::new(g)
    }
}

impl<W: Monoid> WriterT<W, ()> {
    /// Fetch the state of the inner computation, leaving it unchanged and writing the empty
    /// output.
    pub fn get<S: Clone>() -> (r: WriterT<W, State<S, (S, W), impl Fn(S) -> Identity<((S, W), S)>>>)
        ensures
            r.0.total(),
            forall|s: S, o: (S, W), s2: S| #[trigger] r.0.runs(s, o, s2) ==> vstd::pervasive::cloned(s, o.0)
                && o.1.model() == W::empty_model() && s2 == s,
    {
        let h = |s: S| -> (o: Identity<((S, W), S)>)
            ensures
                vstd::pervasive::cloned(s, o.0.0.0) && o.0.0.1.model() == W::empty_model() && o.0.1 == s,
            {
                let c = s.clone();
                Identity(((c, W::mempty()), s))
            };
        WriterT(StateT(h, PhantomData), PhantomData)
    }

    /// Replace the state of the inner computation with `s`, writing the empty output.
    pub fn put<S: Clone>(s: S) -> (r: WriterT<W, State<S, ((), W), impl Fn(S) -> Identity<(((), W), S)>>>)
        ensures
            r.0.total(),
            forall|s0: S, o: ((), W), s2: S| #[trigger] r.0.runs(s0, o, s2) ==> vstd::pervasive::cloned(s, s2)
                && o.1.model() == W::empty_model(),
    {
        let h = move |_s0: S| -> (o: Identity<(((), W), S)>)
            ensures
                vstd::pervasive::cloned(*&s, o.0.1) && o.0.0.1.model() == W::empty_model(),
            {
                Identity((((), W::mempty()), s.clone()))
            };
        WriterT(StateT(h, PhantomData), PhantomData)
    }

    /// Embed a simple state action in the inner computation, writing the empty output.
    pub fn state<S, A, G: Fn(S) -> (A, S)>(g: G) -> (r: WriterT<W, State<S, (A, W), impl Fn(S) -> Identity<((A, W), S)>>>)
        requires
            total1(g),
        ensures
            r.0.total(),
            forall|s: S, o: (A, W), s2: S| #[trigger] r.0.runs(s, o, s2) ==> call_ensures(g, (s,), (o.0, s2))
                && o.1.model() == W::empty_model(),
    {
        let h = move |s: S| -> (o: Identity<((A, W), S)>)
            ensures
                call_ensures(&g, (s,), (o.0.0.0, o.0.1)) && o.0.0.1.model() == W::empty_model(),
            {
                let (a, s2) = g(s);
                Identity(((a, W::mempty()), s2))
            };
        WriterT(StateT(h, PhantomData), PhantomData)
    }
}

} // verus!
