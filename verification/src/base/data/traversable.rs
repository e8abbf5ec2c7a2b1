//! Structures that can be traversed from left to right, performing an action on each element
//! and collecting the results.

use vstd::prelude::*;

use super::functor::{ensures1, identity, total1, Functor, PureA};
use super::maybe::Maybe;

verus! {

/// Evaluate each action in a structure from left to right, and collect the results.
///
/// `sequenced(x, r)` states what `sequence_a` returns.
pub trait SequenceA<Out>: Sized {
    /// `r` is the result of sequencing the actions in `x`.
    spec fn sequenced(x: Self, r: Out) -> bool;

    /// Evaluate each action from left to right, and collect the results.
    fn sequence_a(self) -> (r: Out)
        ensures
            Self::sequenced(self, r),
    ;
}

/// Sequence with additional monad semantics: the same as [`SequenceA`].
pub trait Sequence<Out>: SequenceA<Out> {
    /// Evaluate each monadic action from left to right, and collect the results.
    fn sequence(self) -> (r: Out)
        ensures
            Self::sequenced(self, r),
    {
        self.sequence_a()
    }
}

impl<T, Out> Sequence<Out> for T where T: SequenceA<Out> {

}

/// Whether every element of `s` is present.
pub open spec fn all_some<T>(s: Seq<Option<T>>) -> bool {
    forall|i: int| 0 <= i < s.len() ==> (#[trigger] s[i]) is Some
}

/// The values of a sequence of present elements.
pub open spec fn unwrap_all<T>(s: Seq<Option<T>>) -> Seq<T> {
    s.map_values(|o: Option<T>| o->0)
}

/// The optional values held by a sequence of `Maybe`s.
pub open spec fn maybe_options<T>(s: Seq<Maybe<T>>) -> Seq<Option<T>> {
    s.map_values(
        |m: Maybe<T>|
            match m {
                Maybe::Just(t) => Some(t),
                Maybe::Nothing => None,
            },
    )
}

impl<T> SequenceA<Option<Vec<T>>> for Vec<Option<T>> {
    open spec fn sequenced(x: Vec<Option<T>>, r: Option<Vec<T>>) -> bool {
        if all_some(x@) {
            r matches Some(v) && v@ == unwrap_all(x@)
        } else {
            r is None
        }
    }

    #[verifier::spinoff_prover]
    fn sequence_a(self) -> (r: Option<Vec<T>>) {
        let ghost s = self@;
        let mut out: Vec<T> = Vec::new();
        for x in it: self
            invariant
                s == it.seq(),
                all_some(s.take(it.index() as int)),
                out@ == unwrap_all(s.take(it.index() as int)),
        {
            let ghost i = it.index() as int;
            match x {
                Some(t) => {
                    out.push(t);
                    proof {
                        assert(s.take(i + 1) =~= s.take(i).push(Some(t)));
                        assert(unwrap_all(s.take(i + 1)) =~= unwrap_all(s.take(i)).push(t));
                    }
                },
                None => {
                    proof {
                        assert(s[i] is None);
                    }
                    return None;
                },
            }
        }
        proof {
            assert(s.take(s.len() as int) =~= s);
        }
        Some(out)
    }
}

impl<T> SequenceA<Maybe<Vec<T>>> for Vec<Maybe<T>> {
    open spec fn sequenced(x: Vec<Maybe<T>>, r: Maybe<Vec<T>>) -> bool {
        if all_some(maybe_options(x@)) {
            r matches Maybe::Just(v) && v@ == unwrap_all(maybe_options(x@))
        } else {
            r is Nothing
        }
    }

    fn sequence_a(self) -> (r: Maybe<Vec<T>>) {
        let ghost s = maybe_options(self@);
        let ghost v = self@;
        let mut out: Vec<T> = Vec::new();
        for x in it: self
            invariant
                v == it.seq(),
                s == maybe_options(v),
                all_some(s.take(it.index() as int)),
                out@ == unwrap_all(s.take(it.index() as int)),
        {
            let ghost i = it.index() as int;
            match x {
                Maybe::Just(t) => {
                    out.push(t);
                    proof {
                        assert(s[i] == Some(t));
                        assert(s.take(i + 1) =~= s.take(i).push(Some(t)));
                        assert(unwrap_all(s.take(i + 1)) =~= unwrap_all(s.take(i)).push(t));
                    }
                },
                Maybe::Nothing => {
                    proof {
                        assert(s[i] is None);
                    }
                    return Maybe::Nothing;
                },
            }
        }
        proof {
            assert(s.take(s.len() as int) =~= s);
        }
        Maybe::Just(out)
    }
}

/// Map each element of a structure to an action, evaluate these actions from left to right,
/// and collect the results.
///
/// `traversed(x, rel, r)` states what `traverse_t` returns when every call of the action on
/// an element `a` gives some `m` with `rel(a, m)`.
pub trait TraverseT<T, A, Out>: Sized {
    /// `r` is the result of traversing `x` with an action whose calls are described by `rel`.
    spec fn traversed(x: Self, rel: spec_fn(T, A) -> bool, r: Out) -> bool;

    /// Map each element to an action, evaluate the actions from left to right,
    /// and collect the results.
    fn traverse_t<F: Fn(T) -> A>(self, f: F) -> (r: Out)
        requires
            total1(f),
        ensures
            Self::traversed(self, |a: T, m: A| call_ensures(f, (a,), m), r),
    ;
}

impl<T, U> TraverseT<T, Option<U>, Option<Vec<U>>> for Vec<T> {
    open spec fn traversed(x: Vec<T>, rel: spec_fn(T, Option<U>) -> bool, r: Option<Vec<U>>) -> bool {
        exists|results: Seq<Option<U>>|
            {
                &&& results.len() <= x@.len()
                &&& forall|i: int| 0 <= i < results.len() ==> #[trigger] rel(x@[i], results[i])
                &&& if all_some(results) && results.len() == x@.len() {
                    r matches Some(v) && v@ == unwrap_all(results)
                } else {
                    r is None && results.len() > 0 && results.last() is None
                }
            }
    }

    fn traverse_t<F: Fn(T) -> Option<U>>(self, f: F) -> (r: Option<Vec<U>>) {
        let ghost s = self@;
        let ghost mut results: Seq<Option<U>> = Seq::empty();
        let mut out: Vec<U> = Vec::new();
        for x in it: self
            invariant
                total1(f),
                s == it.seq(),
                results.len() == it.index(),
                forall|i: int| 0 <= i < results.len() ==> #[trigger] call_ensures(f, (s[i],), results[i]),
                all_some(results),
                out@ == unwrap_all(results),
        {
            let ghost i = it.index() as int;
            let y = f(x);
            proof {
                results = results.push(y);
            }
            match y {
                Some(u) => {
                    out.push(u);
                    proof {
                        assert(unwrap_all(results) =~= out@);
                    }
                },
                None => {
                    proof {
                        assert(x == s[i]);
                        assert(call_ensures(f, (s[i],), results[i]));
                        assert(!all_some(results));
                        let rel = |a: T, m: Option<U>| call_ensures(f, (a,), m);
                        assert(forall|j: int| 0 <= j < results.len() ==> #[trigger] rel(s[j], results[j]));
                    }
                    return None;
                },
            }
        }
        proof {
            let rel = |a: T, m: Option<U>| call_ensures(f, (a,), m);
            assert(forall|j: int| 0 <= j < results.len() ==> #[trigger] rel(s[j], results[j]));
        }
        Some(out)
    }
}

/// Traverse with a monadic action: the same as [`TraverseT`].
pub trait MapM<T, A, Out>: TraverseT<T, A, Out> {
    /// Map each element to a monadic action, evaluate the actions from left to right,
    /// and collect the results.
    fn map_m<F: Fn(T) -> A>(self, f: F) -> (r: Out)
        requires
            total1(f),
        ensures
            Self::traversed(self, |a: T, m: A| call_ensures(f, (a,), m), r),
    {
        self.traverse_t(f)
    }
}

impl<X, T, A, Out> MapM<T, A, Out> for X where X: TraverseT<T, A, Out> {

}

/// `Maybe::Just` as a function.
pub fn just<U>(u: U) -> (m: Maybe<U>)
    ensures
        m == Maybe::Just(u),
{
    Maybe::Just(u)
}

/// `Some` as a function.
pub fn some<U>(u: U) -> (m: Option<U>)
    ensures
        m == Some(u),
{
    Some(u)
}

impl<T, A, U, B> TraverseT<T, A, B> for Maybe<T> where
    A: Functor<Maybe<U>, Pointed = U, Mapped = B>,
    B: PureA<Pointed = Maybe<U>>,
 {
    /// A value is traversed by wrapping what the action gives in `Just`; `Nothing` is
    /// lifted as it is.
    open spec fn traversed(x: Maybe<T>, rel: spec_fn(T, A) -> bool, r: B) -> bool {
        match x {
            Maybe::Just(t) => exists|a: A| #[trigger] rel(t, a) && A::fmapped(a, ensures1(just::<U>), r),
            Maybe::Nothing => B::pure_of(Maybe::Nothing, r),
        }
    }

    fn traverse_t<F: Fn(T) -> A>(self, f: F) -> (r: B) {
        match self {
            Maybe::Just(x) => {
                let ghost x0 = x;
                let a = f(x);
                let ghost a0 = a;
                let r = a.fmap(just);
                proof {
                    let rel = |t: T, m: A| call_ensures(f, (t,), m);
                    assert(rel(x0, a0));
                }
                r
            },
            Maybe::Nothing => B::pure_a(Maybe::Nothing),
        }
    }
}

impl<A1, U, B> SequenceA<B> for Maybe<A1> where
    A1: Functor<Maybe<U>, Pointed = U, Mapped = B>,
    B: PureA<Pointed = Maybe<U>>,
 {
    /// The action inside is mapped with `Just`; `Nothing` is lifted as it is.
    open spec fn sequenced(x: Maybe<A1>, r: B) -> bool {
        match x {
            Maybe::Just(a) => A1::fmapped(a, ensures1(just::<U>), r),
            Maybe::Nothing => B::pure_of(Maybe::Nothing, r),
        }
    }

    fn sequence_a(self) -> (r: B) {
        match self {
            Maybe::Just(x) => x.fmap(just),
            Maybe::Nothing => B::pure_a(Maybe::Nothing),
        }
    }
}

impl<T, A, U, B> TraverseT<T, A, B> for Option<T> where
    A: Functor<Option<U>, Pointed = U, Mapped = B>,
    B: PureA<Pointed = Option<U>>,
 {
    /// A value is traversed by wrapping what the action gives in `Some`; `None` is lifted
    /// as it is.
    open spec fn traversed(x: Option<T>, rel: spec_fn(T, A) -> bool, r: B) -> bool {
        match x {
            Some(t) => exists|a: A| #[trigger] rel(t, a) && A::fmapped(a, ensures1(some::<U>), r),
            None => B::pure_of(None, r),
        }
    }

    fn traverse_t<F: Fn(T) -> A>(self, f: F) -> (r: B) {
        match self {
            Some(x) => {
                let ghost x0 = x;
                let a = f(x);
                let ghost a0 = a;
                let r = a.fmap(some);
                proof {
                    let rel = |t: T, m: A| call_ensures(f, (t,), m);
                    assert(rel(x0, a0));
                }
                r
            },
            None => B::pure_a(None),
        }
    }
}

impl<A1, U, B> SequenceA<B> for Option<A1> where
    A1: Functor<Option<U>, Pointed = U, Mapped = B>,
    B: PureA<Pointed = Option<U>>,
 {
    /// The action inside is mapped with `Some`; `None` is lifted as it is.
    open spec fn sequenced(x: Option<A1>, r: B) -> bool {
        match x {
            Some(a) => A1::fmapped(a, ensures1(some::<U>), r),
            None => B::pure_of(None, r),
        }
    }

    fn sequence_a(self) -> (r: B) {
        match self {
            Some(x) => x.fmap(some),
            None => B::pure_a(None),
        }
    }
}

/// Traverse by mapping each element to an action and sequencing the actions.
pub fn traverse_t_default<X: Functor<A, Mapped = M>, A, M: SequenceA<Out>, Out, F: Fn(X::Pointed) -> A>(
    this: X,
    f: F,
) -> (r: Out)
    requires
        total1(f),
    ensures
        exists|m: M| #[trigger] X::fmapped(this, ensures1(f), m) && M::sequenced(m, r),
{
    this.fmap(f).sequence_a()
}

/// Sequence by traversing with the identity.
pub fn sequence_a_default<X: TraverseT<A, A, Out>, A, Out>(this: X) -> (r: Out)
    ensures
        X::traversed(this, |a: A, m: A| call_ensures(identity::<A>, (a,), m), r),
{
    this.traverse_t(identity)
}

} // verus!
