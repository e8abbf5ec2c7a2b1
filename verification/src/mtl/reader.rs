//! The operations of reader monads (reading a shared environment), for a reader and for a
//! writer whose inner monad is a reader.
//!
//! In a writer over a reader, the environment operations act on the inner reader and
//! write the empty output (`ask = lift ask`, `reader f = lift (reader f)`), and `local`
//! runs the inner reader in a modified environment (`local f = mapWriterT (local f)`).

use std::marker::PhantomData;

use vstd::prelude::*;

use crate::base::data::functor::total1;
use crate::base::data::identity::Identity;
use crate::base::data::monoid::Monoid;
use crate::transformers::reader::{Reader, ReaderT};
use crate::transformers::writer::WriterT;

verus! {

impl<R> ReaderT<R, (), ()> {
    /// Retrieve a function of the environment (the same as [`ReaderT::new`]).
    pub fn reader<A, G: Fn(R) -> A>(g: G) -> (res: Reader<R, A, impl Fn(R) -> Identity<A>>)
        requires
            total1(g),
        ensures
            res.total(),
            forall|r: R, a: A| #[trigger] res.runs(r, a) ==> call_ensures(g, (r,), a),
    {
        Self::new(g)
    }
}

impl<W: Monoid> WriterT<W, ()> {
    /// Fetch the environment of the inner reader, writing the empty output.
    pub fn ask<R>() -> (res: WriterT<W, Reader<R, (R, W), impl Fn(R) -> Identity<(R, W)>>>)
        ensures
            res.0.total(),
            forall|r: R, o: (R, W)| #[trigger] res.0.runs(r, o) ==> o.0 == r && o.1.model() == W::empty_model(),
    {
        let h = |r: R| -> (o: Identity<(R, W)>)
            ensures
                o.0.0 == r && o.0.1.model() == W::empty_model(),
            {
                Identity((r, W::mempty()))
            };
        WriterT(ReaderT(h, PhantomData), PhantomData)
    }

    /// Retrieve a function of the environment of the inner reader, writing the empty output.
    pub fn reader<R, A, G: Fn(R) -> A>(g: G) -> (res: WriterT<W, Reader<R, (A, W), impl Fn(R) -> Identity<(A, W)>>>)
        requires
            total1(g),
        ensures
            res.0.total(),
            forall|r: R, o: (A, W)| #[trigger] res.0.runs(r, o) ==> call_ensures(g, (r,), o.0) && o.1.model()
                == W::empty_model(),
    {
        let h = move |r: R| -> (o: Identity<(A, W)>)
            ensures
                call_ensures(&g, (r,), o.0.0) && o.0.1.model() == W::empty_model(),
            {
                Identity((g(r), W::mempty()))
            };
        WriterT(ReaderT(h, PhantomData), PhantomData)
    }
}

impl<W, R, M, F: Fn(R) -> M> WriterT<W, ReaderT<R, M, F>> {
    /// Run the inner reader in an environment modified by `g`, keeping the output.
    pub fn local<G: Fn(R) -> R>(self, g: G) -> (res: WriterT<W, ReaderT<R, M, impl Fn(R) -> M>>)
        requires
            self.0.total(),
            total1(g),
        ensures
            res.0.total(),
            forall|b: R, m: M| #[trigger] res.0.runs_to(b, m) ==> exists|r: R|
                #[trigger] call_ensures(g, (b,), r) && self.0.runs_to(r, m),
    {
        WriterT(self.0.local(g), PhantomData)
    }
}

} // verus!
