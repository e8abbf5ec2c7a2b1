//! The functor and monad laws of the data types, and the conversions between
//! [`Maybe`] and [`Option`].
//!
//! The laws are stated over the relations that `fmap` and `chain_m` are specified by
//! (`fmapped` and `chained`): mapping a function whose results are related to its
//! arguments by `rel` gives a structure related to the input by `fmapped(_, rel, _)`.

use vstd::prelude::*;

use super::either::Either;
use super::functor::{compose_rel, eq_rel, ChainM, Functor, PureA};
use super::identity::Identity;
use super::list::vec::views;
use super::maybe::Maybe;
use super::ordered::strictly_ordered;
use super::traversable::{all_some, unwrap_all, SequenceA, TraverseT};
use std::collections::{BTreeMap, BTreeSet, VecDeque};

verus! {

/// Binding with `r1` and then with `r2`: `w` is a result of binding some result of
/// `r1` on `a` with `r2`.
pub open spec fn then_rel<A, MB: ChainM<C>, C>(
    r1: spec_fn(A, MB) -> bool,
    r2: spec_fn(MB::Pointed, MB::Chained) -> bool,
) -> spec_fn(A, MB::Chained) -> bool {
    |a: A, w: MB::Chained| exists|m: MB| #[trigger] r1(a, m) && MB::chained(m, r2, w)
}

/// Functor identity for [`Maybe`]: mapping the identity gives back the input.
pub proof fn lemma_maybe_fmap_identity<A>(x: Maybe<A>, y: Maybe<A>)
    requires
        <Maybe<A> as Functor<A>>::fmapped(x, eq_rel(), y),
    ensures
        y == x,
{
}

/// Functor composition for [`Maybe`]: mapping `f` and then `g` is mapping their composition.
pub proof fn lemma_maybe_fmap_compose<A, B, C>(
    x: Maybe<A>,
    y: Maybe<B>,
    z: Maybe<C>,
    r1: spec_fn(A, B) -> bool,
    r2: spec_fn(B, C) -> bool,
)
    requires
        <Maybe<A> as Functor<B>>::fmapped(x, r1, y),
        <Maybe<B> as Functor<C>>::fmapped(y, r2, z),
    ensures
        <Maybe<A> as Functor<C>>::fmapped(x, compose_rel(r1, r2), z),
{
    if let (Maybe::Just(a), Maybe::Just(b)) = (x, y) {
        assert(r1(a, b));
    }
}

/// Monad left identity for [`Maybe`]: binding `pure_a(a)` to `k` is `k(a)`.
pub proof fn lemma_maybe_left_identity<A, B>(a: A, rel: spec_fn(A, Maybe<B>) -> bool, y: Maybe<B>)
    ensures
        <Maybe<A> as ChainM<B>>::chained(Maybe::Just(a), rel, y) <==> rel(a, y),
        <Maybe<A> as PureA>::pure_of(a, Maybe::Just(a)),
{
}

/// Monad right identity for [`Maybe`]: binding to `pure_a` gives back the input.
pub proof fn lemma_maybe_right_identity<A>(x: Maybe<A>, y: Maybe<A>)
    requires
        <Maybe<A> as ChainM<A>>::chained(x, |a: A, m: Maybe<A>| <Maybe<A> as PureA>::pure_of(a, m), y),
    ensures
        y == x,
{
}

/// Monad associativity for [`Maybe`]: binding to `k1` and then to `k2` is binding to
/// the function that binds `k1(a)` to `k2`.
pub proof fn lemma_maybe_associativity<A, B, C>(
    x: Maybe<A>,
    y: Maybe<B>,
    z: Maybe<C>,
    r1: spec_fn(A, Maybe<B>) -> bool,
    r2: spec_fn(B, Maybe<C>) -> bool,
)
    requires
        <Maybe<A> as ChainM<B>>::chained(x, r1, y),
        <Maybe<B> as ChainM<C>>::chained(y, r2, z),
    ensures
        <Maybe<A> as ChainM<C>>::chained(x, then_rel::<A, Maybe<B>, C>(r1, r2), z),
{
    if let Maybe::Just(a) = x {
        assert(r1(a, y));
    }
}

/// Converting a [`Maybe`] to an [`Option`] and back gives the same value.
pub proof fn lemma_maybe_option_round_trip<T>(x: Maybe<T>)
    ensures
        <Maybe<T> as vstd::std_specs::convert::FromSpec<Option<T>>>::from_spec(
            <Option<T> as vstd::std_specs::convert::FromSpec<Maybe<T>>>::from_spec(x),
        ) == x,
{
}

/// Converting an [`Option`] to a [`Maybe`] and back gives the same value.
pub proof fn lemma_option_maybe_round_trip<T>(x: Option<T>)
    ensures
        <Option<T> as vstd::std_specs::convert::FromSpec<Maybe<T>>>::from_spec(
            <Maybe<T> as vstd::std_specs::convert::FromSpec<Option<T>>>::from_spec(x),
        ) == x,
{
}

/// Functor identity for [`Option`].
pub proof fn lemma_option_fmap_identity<A>(x: Option<A>, y: Option<A>)
    requires
        <Option<A> as Functor<A>>::fmapped(x, eq_rel(), y),
    ensures
        y == x,
{
}

/// Functor composition for [`Option`].
pub proof fn lemma_option_fmap_compose<A, B, C>(
    x: Option<A>,
    y: Option<B>,
    z: Option<C>,
    r1: spec_fn(A, B) -> bool,
    r2: spec_fn(B, C) -> bool,
)
    requires
        <Option<A> as Functor<B>>::fmapped(x, r1, y),
        <Option<B> as Functor<C>>::fmapped(y, r2, z),
    ensures
        <Option<A> as Functor<C>>::fmapped(x, compose_rel(r1, r2), z),
{
    if let (Some(a), Some(b)) = (x, y) {
        assert(r1(a, b));
    }
}

/// Monad left identity for [`Option`].
pub proof fn lemma_option_left_identity<A, B>(a: A, rel: spec_fn(A, Option<B>) -> bool, y: Option<B>)
    ensures
        <Option<A> as ChainM<B>>::chained(Some(a), rel, y) <==> rel(a, y),
        <Option<A> as PureA>::pure_of(a, Some(a)),
{
}

/// Monad right identity for [`Option`].
pub proof fn lemma_option_right_identity<A>(x: Option<A>, y: Option<A>)
    requires
        <Option<A> as ChainM<A>>::chained(x, |a: A, m: Option<A>| <Option<A> as PureA>::pure_of(a, m), y),
    ensures
        y == x,
{
}

/// Monad associativity for [`Option`].
pub proof fn lemma_option_associativity<A, B, C>(
    x: Option<A>,
    y: Option<B>,
    z: Option<C>,
    r1: spec_fn(A, Option<B>) -> bool,
    r2: spec_fn(B, Option<C>) -> bool,
)
    requires
        <Option<A> as ChainM<B>>::chained(x, r1, y),
        <Option<B> as ChainM<C>>::chained(y, r2, z),
    ensures
        <Option<A> as ChainM<C>>::chained(x, then_rel::<A, Option<B>, C>(r1, r2), z),
{
    if let Some(a) = x {
        assert(r1(a, y));
    }
}

/// Functor identity for [`Either`]: a `Left` is kept, a `Right` is mapped.
pub proof fn lemma_either_fmap_identity<L, A>(x: Either<L, A>, y: Either<L, A>)
    requires
        <Either<L, A> as Functor<A>>::fmapped(x, eq_rel(), y),
    ensures
        y == x,
{
}

/// Functor composition for [`Either`].
pub proof fn lemma_either_fmap_compose<L, A, B, C>(
    x: Either<L, A>,
    y: Either<L, B>,
    z: Either<L, C>,
    r1: spec_fn(A, B) -> bool,
    r2: spec_fn(B, C) -> bool,
)
    requires
        <Either<L, A> as Functor<B>>::fmapped(x, r1, y),
        <Either<L, B> as Functor<C>>::fmapped(y, r2, z),
    ensures
        <Either<L, A> as Functor<C>>::fmapped(x, compose_rel(r1, r2), z),
{
    if let (Either::Right(a), Either::Right(b)) = (x, y) {
        assert(r1(a, b));
    }
}

/// Monad left identity for [`Either`].
pub proof fn lemma_either_left_identity<L, A, B>(
    a: A,
    rel: spec_fn(A, Either<L, B>) -> bool,
    y: Either<L, B>,
)
    ensures
        <Either<L, A> as ChainM<B>>::chained(Either::Right(a), rel, y) <==> rel(a, y),
        <Either<L, A> as PureA>::pure_of(a, Either::Right(a)),
{
}

/// Monad right identity for [`Either`].
pub proof fn lemma_either_right_identity<L, A>(x: Either<L, A>, y: Either<L, A>)
    requires
        <Either<L, A> as ChainM<A>>::chained(
            x,
            |a: A, m: Either<L, A>| <Either<L, A> as PureA>::pure_of(a, m),
            y,
        ),
    ensures
        y == x,
{
}

/// Monad associativity for [`Either`].
pub proof fn lemma_either_associativity<L, A, B, C>(
    x: Either<L, A>,
    y: Either<L, B>,
    z: Either<L, C>,
    r1: spec_fn(A, Either<L, B>) -> bool,
    r2: spec_fn(B, Either<L, C>) -> bool,
)
    requires
        <Either<L, A> as ChainM<B>>::chained(x, r1, y),
        <Either<L, B> as ChainM<C>>::chained(y, r2, z),
    ensures
        <Either<L, A> as ChainM<C>>::chained(x, then_rel::<A, Either<L, B>, C>(r1, r2), z),
{
    if let Either::Right(a) = x {
        assert(r1(a, y));
    }
}

/// Functor identity for [`Identity`].
pub proof fn lemma_identity_fmap_identity<A>(x: Identity<A>, y: Identity<A>)
    requires
        <Identity<A> as Functor<A>>::fmapped(x, eq_rel(), y),
    ensures
        y == x,
{
}

/// Monad left identity for [`Identity`].
pub proof fn lemma_identity_left_identity<A, B>(
    a: A,
    rel: spec_fn(A, Identity<B>) -> bool,
    y: Identity<B>,
)
    ensures
        <Identity<A> as ChainM<B>>::chained(Identity(a), rel, y) <==> rel(a, y),
        <Identity<A> as PureA>::pure_of(a, Identity(a)),
{
}

/// Monad right identity for [`Identity`].
pub proof fn lemma_identity_right_identity<A>(x: Identity<A>, y: Identity<A>)
    requires
        <Identity<A> as ChainM<A>>::chained(
            x,
            |a: A, m: Identity<A>| <Identity<A> as PureA>::pure_of(a, m),
            y,
        ),
    ensures
        y == x,
{
}

/// Monad associativity for [`Identity`].
pub proof fn lemma_identity_associativity<A, B, C>(
    x: Identity<A>,
    y: Identity<B>,
    z: Identity<C>,
    r1: spec_fn(A, Identity<B>) -> bool,
    r2: spec_fn(B, Identity<C>) -> bool,
)
    requires
        <Identity<A> as ChainM<B>>::chained(x, r1, y),
        <Identity<B> as ChainM<C>>::chained(y, r2, z),
    ensures
        <Identity<A> as ChainM<C>>::chained(x, then_rel::<A, Identity<B>, C>(r1, r2), z),
{
    assert(r1(x.0, y));
}

/// Functor identity for `Vec`: mapping the identity gives back the same elements.
pub proof fn lemma_vec_fmap_identity<A>(x: Vec<A>, y: Vec<A>)
    requires
        <Vec<A> as Functor<A>>::fmapped(x, eq_rel(), y),
    ensures
        y@ == x@,
{
    assert forall|i: int| 0 <= i < x@.len() implies y@[i] == x@[i] by {
        assert(eq_rel::<A>()(x@[i], y@[i]));
    }
    assert(y@ =~= x@);
}

/// Functor composition for `Vec`.
pub proof fn lemma_vec_fmap_compose<A, B, C>(
    x: Vec<A>,
    y: Vec<B>,
    z: Vec<C>,
    r1: spec_fn(A, B) -> bool,
    r2: spec_fn(B, C) -> bool,
)
    requires
        <Vec<A> as Functor<B>>::fmapped(x, r1, y),
        <Vec<B> as Functor<C>>::fmapped(y, r2, z),
    ensures
        <Vec<A> as Functor<C>>::fmapped(x, compose_rel(r1, r2), z),
{
    assert forall|i: int| 0 <= i < x@.len() implies #[trigger] compose_rel(r1, r2)(x@[i], z@[i]) by {
        assert(r1(x@[i], y@[i]));
        assert(r2(y@[i], z@[i]));
    }
}

/// Monad left identity for `Vec`: binding the one-element list of `a` to `k` gives what
/// `k(a)` gives.
pub proof fn lemma_vec_left_identity<A, B>(x: Vec<A>, a: A, rel: spec_fn(A, Vec<B>) -> bool, y: Vec<B>)
    requires
        <Vec<A> as PureA>::pure_of(a, x),
        <Vec<A> as ChainM<B>>::chained(x, rel, y),
    ensures
        exists|m: Vec<B>| #[trigger] rel(a, m) && m@ == y@,
{
    let parts = choose|parts: Seq<Vec<B>>|
        {
            &&& parts.len() == x@.len()
            &&& forall|i: int| 0 <= i < x@.len() ==> #[trigger] rel(x@[i], parts[i])
            &&& y@ == #[trigger] views(parts).flatten()
        };
    assert(rel(x@[0], parts[0]));
    views(parts).lemma_flatten_one_element();
    assert(views(parts).first() == parts[0]@);
}

/// Flattening the one-element lists of the elements of `s` gives `s`.
proof fn lemma_flatten_singletons<A>(s: Seq<A>, parts: Seq<Vec<A>>)
    requires
        parts.len() == s.len(),
        forall|i: int| 0 <= i < s.len() ==> (#[trigger] parts[i])@ == seq![s[i]],
    ensures
        views(parts).flatten() == s,
    decreases s.len(),
{
    if s.len() == 0 {
        assert(views(parts) =~= Seq::<Seq<A>>::empty());
    } else {
        let rest = parts.drop_first();
        assert forall|i: int| 0 <= i < s.drop_first().len() implies (#[trigger] rest[i])@ == seq![s.drop_first()[i]] by {
            assert(rest[i] == parts[i + 1]);
        }
        lemma_flatten_singletons(s.drop_first(), rest);
        assert(views(parts).drop_first() =~= views(rest));
        assert(views(parts).first() == seq![s[0]]);
        assert(seq![s[0]] + s.drop_first() =~= s);
    }
}

/// Monad right identity for `Vec`: binding a list to the one-element list of each
/// element gives back the list.
pub proof fn lemma_vec_right_identity<A>(x: Vec<A>, y: Vec<A>)
    requires
        <Vec<A> as ChainM<A>>::chained(x, |a: A, m: Vec<A>| <Vec<A> as PureA>::pure_of(a, m), y),
    ensures
        y@ == x@,
{
    let rel = |a: A, m: Vec<A>| <Vec<A> as PureA>::pure_of(a, m);
    let parts = choose|parts: Seq<Vec<A>>|
        {
            &&& parts.len() == x@.len()
            &&& forall|i: int| 0 <= i < x@.len() ==> #[trigger] rel(x@[i], parts[i])
            &&& y@ == #[trigger] views(parts).flatten()
        };
    assert forall|i: int| 0 <= i < x@.len() implies (#[trigger] parts[i])@ == seq![x@[i]] by {
        assert(rel(x@[i], parts[i]));
    }
    lemma_flatten_singletons(x@, parts);
}


/// `ys` is the concatenation, in order, of lists related by `rel` to the elements of `xs`:
/// what binding the list `xs` to a function described by `rel` gives, over elements.
pub open spec fn binds<T, U>(xs: Seq<T>, rel: spec_fn(T, Seq<U>) -> bool, ys: Seq<U>) -> bool {
    exists|ws: Seq<Seq<U>>|
        {
            &&& ws.len() == xs.len()
            &&& forall|i: int| 0 <= i < xs.len() ==> #[trigger] rel(xs[i], ws[i])
            &&& ys == #[trigger] ws.flatten()
        }
}

/// The relation of a function giving lists, over the elements of the lists it gives.
pub open spec fn elements_rel<T, U>(rel: spec_fn(T, Vec<U>) -> bool) -> spec_fn(T, Seq<U>) -> bool {
    |a: T, w: Seq<U>| exists|m: Vec<U>| #[trigger] rel(a, m) && m@ == w
}

/// Splitting the results of binding a flattened list into the results for each of its parts.
proof fn lemma_bind_parts<B, C>(parts1: Seq<Vec<B>>, r2: spec_fn(B, Vec<C>) -> bool, parts2: Seq<Vec<C>>)
    requires
        parts2.len() == views(parts1).flatten().len(),
        forall|j: int| 0 <= j < parts2.len() ==> #[trigger] r2(views(parts1).flatten()[j], parts2[j]),
    ensures
        exists|ws: Seq<Seq<C>>|
            {
                &&& ws.len() == parts1.len()
                &&& forall|i: int| 0 <= i < parts1.len() ==> #[trigger] binds(parts1[i]@, elements_rel(r2), ws[i])
                &&& ws.flatten() == views(parts2).flatten()
            },
    decreases parts1.len(),
{
    let flat = views(parts1).flatten();
    if parts1.len() == 0 {
        assert(views(parts2) =~= Seq::<Seq<C>>::empty());
        let ws = Seq::<Seq<C>>::empty();
        assert(ws.flatten() == views(parts2).flatten());
    } else {
        let first = parts1[0]@;
        let l = first.len() as int;
        let rest1 = parts1.drop_first();
        let rest_flat = views(rest1).flatten();
        assert(views(parts1).drop_first() =~= views(rest1));
        assert(views(parts1).first() == first);
        assert(flat == first + rest_flat);
        let p2a = parts2.take(l);
        let p2b = parts2.skip(l);
        assert forall|j: int| 0 <= j < p2b.len() implies #[trigger] r2(rest_flat[j], p2b[j]) by {
            assert(r2(flat[l + j], parts2[l + j]));
            assert(flat[l + j] == rest_flat[j]);
        }
        lemma_bind_parts(rest1, r2, p2b);
        let ws1 = choose|ws: Seq<Seq<C>>|
            {
                &&& ws.len() == rest1.len()
                &&& forall|i: int| 0 <= i < rest1.len() ==> #[trigger] binds(rest1[i]@, elements_rel(r2), ws[i])
                &&& ws.flatten() == views(p2b).flatten()
            };
        let w0 = views(p2a).flatten();
        let rel = elements_rel(r2);
        assert forall|j: int| 0 <= j < first.len() implies #[trigger] rel(first[j], views(p2a)[j]) by {
            assert(r2(flat[j], parts2[j]));
            assert(flat[j] == first[j]);
            assert(views(p2a)[j] == p2a[j]@);
        }
        assert(binds(first, rel, w0));
        let ws = seq![w0] + ws1;
        assert forall|i: int| 0 <= i < parts1.len() implies #[trigger] binds(parts1[i]@, rel, ws[i]) by {
            if i > 0 {
                assert(parts1[i] == rest1[i - 1]);
                assert(ws[i] == ws1[i - 1]);
            }
        }
        assert(ws.drop_first() =~= ws1);
        assert(ws.flatten() == w0 + ws1.flatten());
        assert(p2a + p2b =~= parts2);
        assert(views(p2a + p2b) =~= views(p2a) + views(p2b));
        vstd::seq_lib::lemma_flatten_concat(views(p2a), views(p2b));
    }
}

/// Monad associativity for `Vec`: binding `x` to `k1` and the result to `k2` gives the
/// elements of binding `x` to `\a -> k1(a) >>= k2`, in order.
pub proof fn lemma_vec_associativity<A, B, C>(
    x: Vec<A>,
    y: Vec<B>,
    z: Vec<C>,
    r1: spec_fn(A, Vec<B>) -> bool,
    r2: spec_fn(B, Vec<C>) -> bool,
)
    requires
        <Vec<A> as ChainM<B>>::chained(x, r1, y),
        <Vec<B> as ChainM<C>>::chained(y, r2, z),
    ensures
        binds(
            x@,
            |a: A, w: Seq<C>| exists|m: Vec<B>| #[trigger] r1(a, m) && binds(m@, elements_rel(r2), w),
            z@,
        ),
{
    let parts1 = choose|parts: Seq<Vec<B>>|
        {
            &&& parts.len() == x@.len()
            &&& forall|i: int| 0 <= i < x@.len() ==> #[trigger] r1(x@[i], parts[i])
            &&& y@ == #[trigger] views(parts).flatten()
        };
    let parts2 = choose|parts: Seq<Vec<C>>|
        {
            &&& parts.len() == y@.len()
            &&& forall|i: int| 0 <= i < y@.len() ==> #[trigger] r2(y@[i], parts[i])
            &&& z@ == #[trigger] views(parts).flatten()
        };
    lemma_bind_parts(parts1, r2, parts2);
    let ws = choose|ws: Seq<Seq<C>>|
        {
            &&& ws.len() == parts1.len()
            &&& forall|i: int| 0 <= i < parts1.len() ==> #[trigger] binds(parts1[i]@, elements_rel(r2), ws[i])
            &&& ws.flatten() == views(parts2).flatten()
        };
    let rel = |a: A, w: Seq<C>| exists|m: Vec<B>| #[trigger] r1(a, m) && binds(m@, elements_rel(r2), w);
    assert forall|i: int| 0 <= i < x@.len() implies #[trigger] rel(x@[i], ws[i]) by {
        assert(r1(x@[i], parts1[i]));
        assert(binds(parts1[i]@, elements_rel(r2), ws[i]));
    }
}


/// Functor identity for `BTreeMap`: mapping the identity gives back the same entries.
pub proof fn lemma_btree_map_fmap_identity<K: Ord, V>(x: BTreeMap<K, V>, y: BTreeMap<K, V>)
    requires
        strictly_ordered::<K>(),
        <BTreeMap<K, V> as Functor<V>>::fmapped(x, eq_rel(), y),
    ensures
        y@ == x@,
{
    assert forall|k: K| #[trigger] x@.contains_key(k) implies y@[k] == x@[k] by {
        assert(eq_rel::<V>()(x@[k], y@[k]));
    }
    assert(y@ =~= x@);
}

/// Functor composition for `BTreeMap`.
pub proof fn lemma_btree_map_fmap_compose<K: Ord, A, B, C>(
    x: BTreeMap<K, A>,
    y: BTreeMap<K, B>,
    z: BTreeMap<K, C>,
    r1: spec_fn(A, B) -> bool,
    r2: spec_fn(B, C) -> bool,
)
    requires
        <BTreeMap<K, A> as Functor<B>>::fmapped(x, r1, y),
        <BTreeMap<K, B> as Functor<C>>::fmapped(y, r2, z),
    ensures
        <BTreeMap<K, A> as Functor<C>>::fmapped(x, compose_rel(r1, r2), z),
{
    if strictly_ordered::<K>() {
        assert forall|k: K| #[trigger] x@.contains_key(k) implies compose_rel(r1, r2)(x@[k], z@[k]) by {
            assert(r1(x@[k], y@[k]));
            assert(y@.contains_key(k));
            assert(r2(y@[k], z@[k]));
        }
    }
}

/// Functor identity for `BTreeSet`: mapping the identity gives back the same elements.
pub proof fn lemma_btree_set_fmap_identity<T: Ord>(x: BTreeSet<T>, y: BTreeSet<T>)
    requires
        strictly_ordered::<T>(),
        <BTreeSet<T> as Functor<T>>::fmapped(x, eq_rel(), y),
    ensures
        y@ == x@,
{
    assert forall|a: T| x@.contains(a) <==> y@.contains(a) by {
        if x@.contains(a) {
            let b = choose|b: T| y@.contains(b) && eq_rel::<T>()(a, b);
        }
        if y@.contains(a) {
            let b = choose|b: T| x@.contains(b) && eq_rel::<T>()(b, a);
        }
    }
    assert(y@ =~= x@);
}

/// Traversing a list with an action that always gives its argument back in `Some` gives
/// the list back in `Some` (the traversable law `traverse pure = pure`, for the optional
/// applicative).
pub proof fn lemma_vec_traverse_pure<T>(x: Vec<T>, rel: spec_fn(T, Option<T>) -> bool, r: Option<Vec<T>>)
    requires
        forall|a: T, m: Option<T>| #[trigger] rel(a, m) ==> m == Some(a),
        <Vec<T> as TraverseT<T, Option<T>, Option<Vec<T>>>>::traversed(x, rel, r),
    ensures
        r matches Some(v) && v@ == x@,
{
    let results = choose|results: Seq<Option<T>>|
        {
            &&& results.len() <= x@.len()
            &&& forall|i: int| 0 <= i < results.len() ==> #[trigger] rel(x@[i], results[i])
            &&& if all_some(results) && results.len() == x@.len() {
                r matches Some(v) && v@ == unwrap_all(results)
            } else {
                r is None && results.len() > 0 && results.last() is None
            }
        };
    assert forall|i: int| 0 <= i < results.len() implies results[i] == Some(x@[i]) by {
        assert(rel(x@[i], results[i]));
    }
    if results.len() > 0 {
        assert(results[results.len() - 1] == Some(x@[results.len() - 1]));
    }
    assert(all_some(results));
    if results.len() == x@.len() {
        assert(unwrap_all(results) =~= x@);
    }
}

/// Traversing a double-ended queue with an action that always gives its argument back in
/// `Some` gives the queue back in `Some`, in the same order (`traverse pure = pure`).
pub proof fn lemma_vec_deque_traverse_pure<T>(
    x: VecDeque<T>,
    rel: spec_fn(T, Option<T>) -> bool,
    r: Option<VecDeque<T>>,
)
    requires
        forall|a: T, m: Option<T>| #[trigger] rel(a, m) ==> m == Some(a),
        <VecDeque<T> as TraverseT<T, Option<T>, Option<VecDeque<T>>>>::traversed(x, rel, r),
    ensures
        r matches Some(v) && v@ == x@,
{
    let results = choose|results: Seq<Option<T>>|
        {
            &&& results.len() <= x@.len()
            &&& forall|i: int| 0 <= i < results.len() ==> #[trigger] rel(x@[i], results[i])
            &&& if all_some(results) && results.len() == x@.len() {
                r matches Some(v) && v@ == unwrap_all(results)
            } else {
                r is None && results.len() > 0 && results.last() is None
            }
        };
    assert forall|i: int| 0 <= i < results.len() implies results[i] == Some(x@[i]) by {
        assert(rel(x@[i], results[i]));
    }
    if results.len() > 0 {
        assert(results[results.len() - 1] == Some(x@[results.len() - 1]));
    }
    assert(all_some(results));
    if results.len() == x@.len() {
        assert(unwrap_all(results) =~= x@);
    }
}

/// The default traversal of a list (`fmap` then `sequence_a`) with the optional
/// applicative fails as soon as the action gives `None` on one element: if every call of
/// the action on the element at `i` gives `None`, the result is `None`.
pub proof fn lemma_vec_traverse_default_fails<T, U>(
    x: Vec<T>,
    rel: spec_fn(T, Option<U>) -> bool,
    m: Vec<Option<U>>,
    r: Option<Vec<U>>,
    i: int,
)
    requires
        0 <= i < x@.len(),
        forall|o: Option<U>| #[trigger] rel(x@[i], o) ==> o is None,
        <Vec<T> as Functor<Option<U>>>::fmapped(x, rel, m),
        <Vec<Option<U>> as SequenceA<Option<Vec<U>>>>::sequenced(m, r),
    ensures
        r is None,
{
    assert(rel(x@[i], m@[i]));
    assert(!all_some(m@));
}

/// The default traversal of a list with an action that gives its argument back in `Some`
/// gives the list back: `traverse_t_default(xs, Some) == Some(xs)`.
pub proof fn lemma_vec_traverse_default_pure<T>(x: Vec<T>, rel: spec_fn(T, Option<T>) -> bool, m: Vec<Option<T>>, r: Option<Vec<T>>)
    requires
        forall|a: T, o: Option<T>| #[trigger] rel(a, o) ==> o == Some(a),
        <Vec<T> as Functor<Option<T>>>::fmapped(x, rel, m),
        <Vec<Option<T>> as SequenceA<Option<Vec<T>>>>::sequenced(m, r),
    ensures
        r matches Some(v) && v@ == x@,
{
    assert forall|i: int| 0 <= i < m@.len() implies m@[i] == Some(x@[i]) by {
        assert(rel(x@[i], m@[i]));
    }
    assert(all_some(m@));
    assert(unwrap_all(m@) =~= x@);
}

/// Traversing an optional value with the identity action gives it back unchanged
/// (the traversable law `traverse Identity = Identity`).
pub proof fn lemma_maybe_traverse_identity<T>(x: Maybe<T>, rel: spec_fn(T, Identity<T>) -> bool, r: Identity<Maybe<T>>)
    requires
        forall|a: T, m: Identity<T>| #[trigger] rel(a, m) ==> m == Identity(a),
        <Maybe<T> as TraverseT<T, Identity<T>, Identity<Maybe<T>>>>::traversed(x, rel, r),
    ensures
        r == Identity(x),
{
    if let Maybe::Just(t) = x {
        let a = choose|a: Identity<T>| #[trigger] rel(t, a) && <Identity<T> as Functor<Maybe<T>>>::fmapped(
            a,
            super::functor::ensures1(super::traversable::just::<T>),
            r,
        );
        assert(a == Identity(t));
    }
}

} // verus!
