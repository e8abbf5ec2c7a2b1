//! Functors, applicatives and monads over the data types of this library.
//!
//! Every method that takes a function is specified through the relation
//! that the function's postcondition establishes between its inputs and its output
//! (`call_ensures`), so the contracts hold for every function passed in.

use vstd::prelude::*;

use super::pointed::Pointed;

verus! {

/// The relation between arguments and results that a unary function guarantees.
pub open spec fn ensures1<A, B, F: Fn(A) -> B>(f: F) -> spec_fn(A, B) -> bool {
    |a: A, b: B| call_ensures(f, (a,), b)
}

/// The relation between arguments and results that a binary function guarantees.
pub open spec fn ensures2<A, B, C, F: Fn(A, B) -> C>(f: F) -> spec_fn(A, B, C) -> bool {
    |a: A, b: B, c: C| call_ensures(f, (a, b), c)
}

/// The identity function.
pub fn identity<A>(a: A) -> (r: A)
    ensures
        r == a,
{
    a
}

/// The relation of a function that gives back its argument.
pub open spec fn eq_rel<A>() -> spec_fn(A, A) -> bool {
    |a: A, b: A| a == b
}

/// The relation of the composition of two functions: `c` is related to `a` through some `b`.
pub open spec fn compose_rel<A, B, C>(r1: spec_fn(A, B) -> bool, r2: spec_fn(B, C) -> bool) -> spec_fn(
    A,
    C,
) -> bool {
    |a: A, c: C| exists|b: B| #[trigger] r1(a, b) && r2(b, c)
}

/// Every pair related by `inner` is related by `outer`.
pub open spec fn within<A, B>(inner: spec_fn(A, B) -> bool, outer: spec_fn(A, B) -> bool) -> bool {
    forall|a: A, b: B| #[trigger] inner(a, b) ==> outer(a, b)
}

/// Whether a unary function can be called on every argument.
pub open spec fn total1<A, B, F: Fn(A) -> B>(f: F) -> bool {
    forall|a: A| call_requires(f, (a,))
}

/// Whether a binary function can be called on every pair of arguments.
pub open spec fn total2<A, B, C, F: Fn(A, B) -> C>(f: F) -> bool {
    forall|a: A, b: B| call_requires(f, (a, b))
}

/// A type that can be mapped over.
///
/// `fmapped(x, rel, y)` states that `y` has the shape of `x` with every point `a`
/// replaced by some `b` such that `rel(a, b)`. With `rel` the identity this is
/// the functor identity law: mapping the identity changes nothing.
pub trait Functor<U>: Pointed + Sized {
    /// `Self` with its points of type `U`.
    type Mapped;

    /// `y` is `x` with each point related by `rel` to the point at its place.
    spec fn fmapped(x: Self, rel: spec_fn(Self::Pointed, U) -> bool, y: Self::Mapped) -> bool;

    /// Map a function over every point.
    fn fmap<F: Fn(Self::Pointed) -> U>(self, f: F) -> (r: Self::Mapped)
        requires
            total1(f),
        ensures
            Self::fmapped(self, ensures1(f), r),
    ;
}

/// A type that lifts a single value.
pub trait PureA: Pointed + Sized {
    /// `r` holds `t` and nothing else.
    spec fn pure_of(t: Self::Pointed, r: Self) -> bool;

    /// Lift a value.
    fn pure_a(t: Self::Pointed) -> (r: Self)
        ensures
            Self::pure_of(t, r),
    ;
}

/// Sequential application of functions held in a structure to values held in another.
pub trait AppA<A, B>: Sized {
    /// The structure holding arguments.
    type WithA;

    /// The structure holding results.
    type WithB;

    /// Every function held in `f` can be called on every argument.
    spec fn app_ok(f: Self) -> bool;

    /// `r` is the application of the functions in `f` to the arguments in `a`.
    spec fn applied(f: Self, a: Self::WithA, r: Self::WithB) -> bool;

    /// Apply the functions in `self` to the values in `a`.
    fn app_a(self, a: Self::WithA) -> (r: Self::WithB)
        requires
            Self::app_ok(self),
        ensures
            Self::applied(self, a, r),
    ;
}

/// A type with a monadic bind.
///
/// `chained(x, rel, y)` states that `y` is what binding `x` to a function gives,
/// when every call of that function on a point `a` gives some `m` with `rel(a, m)`.
pub trait ChainM<U>: Pointed + Sized {
    /// The result of binding.
    type Chained;

    /// `y` is the bind of `x` through a function whose calls are described by `rel`.
    spec fn chained(x: Self, rel: spec_fn(Self::Pointed, Self::Chained) -> bool, y: Self::Chained) -> bool;

    /// Sequentially compose, passing the point of `self` to `f`.
    fn chain_m<F: Fn(Self::Pointed) -> Self::Chained>(self, f: F) -> (r: Self::Chained)
        requires
            total1(f),
        ensures
            Self::chained(self, ensures1(f), r),
    ;
}

} // verus!

verus! {

/// `accs` are the intermediate results of a right fold of `s` from `z`:
/// `accs[n] == z` and `accs[i]` is the call on `s[i]` and `accs[i + 1]`.
pub open spec fn foldr_chain<T, U>(s: Seq<T>, rel: spec_fn(T, U, U) -> bool, z: U, accs: Seq<U>) -> bool {
    &&& accs.len() == s.len() + 1
    &&& accs[s.len() as int] == z
    &&& forall|i: int| 0 <= i < s.len() ==> #[trigger] rel(s[i], accs[i + 1], accs[i])
}

/// `r` is the right fold of `s` from `z` through a function whose calls are described by `rel`:
/// `f(s[0], f(s[1], ... f(s[n-1], z)))`.
pub open spec fn foldr_rel<T, U>(s: Seq<T>, rel: spec_fn(T, U, U) -> bool, z: U, r: U) -> bool {
    exists|accs: Seq<U>| #[trigger] foldr_chain(s, rel, z, accs) && accs[0] == r
}

/// `accs` are the intermediate results of a left fold of `s` from `z`:
/// `accs[0] == z` and `accs[i + 1]` is the call on `accs[i]` and `s[i]`.
pub open spec fn foldl_chain<T, U>(s: Seq<T>, rel: spec_fn(U, T, U) -> bool, z: U, accs: Seq<U>) -> bool {
    &&& accs.len() == s.len() + 1
    &&& accs[0] == z
    &&& forall|i: int| 0 <= i < s.len() ==> #[trigger] rel(accs[i], s[i], accs[i + 1])
}

/// `r` is the left fold of `s` from `z` through a function whose calls are described by `rel`:
/// `f(... f(f(z, s[0]), s[1]) ..., s[n-1])`.
pub open spec fn foldl_rel<T, U>(s: Seq<T>, rel: spec_fn(U, T, U) -> bool, z: U, r: U) -> bool {
    exists|accs: Seq<U>| #[trigger] foldl_chain(s, rel, z, accs) && accs[s.len() as int] == r
}

/// A data structure that can be folded into a summary value.
///
/// `elements` lists the points of a structure in the order in which the right fold
/// combines them (outermost first), and `elements_l` in the order in which the left
/// fold combines them (innermost first). For most structures the two coincide.
///
/// `order_known` states when the folds are known to see the points in these orders:
/// always, but for collections kept sorted by keys whose order is not known to be a strict
/// total order (see [`strictly_ordered`](super::ordered::strictly_ordered)).
pub trait Foldable: Pointed + Sized {
    /// The points of `x`, as the right fold sees them.
    spec fn elements(x: Self) -> Seq<Self::Pointed>;

    /// The points of `x`, as the left fold sees them.
    spec fn elements_l(x: Self) -> Seq<Self::Pointed>;

    /// Whether the folds are known to see the points as `elements` and `elements_l` list them.
    open spec fn order_known() -> bool {
        true
    }

    /// Right-associative fold.
    fn foldr<U, F: Fn(Self::Pointed, U) -> U>(self, f: F, z: U) -> (r: U)
        requires
            total2(f),
        ensures
            Self::order_known() ==> foldr_rel(Self::elements(self), ensures2(f), z, r),
    ;

    /// Left-associative fold.
    fn foldl<U, F: Fn(U, Self::Pointed) -> U>(self, f: F, z: U) -> (r: U)
        requires
            total2(f),
        ensures
            Self::order_known() ==> foldl_rel(Self::elements_l(self), ensures2(f), z, r),
    ;
}

} // verus!

verus! {

/// One step of a right fold: folding `s[0]` onto a fold of the rest.
pub proof fn lemma_foldr_rel_step<T, U>(
    s: Seq<T>,
    rel: spec_fn(T, U, U) -> bool,
    z: U,
    m: U,
    r: U,
)
    requires
        s.len() > 0,
        foldr_rel(s.drop_first(), rel, z, m),
        rel(s[0], m, r),
    ensures
        foldr_rel(s, rel, z, r),
{
    let accs = choose|accs: Seq<U>| #[trigger] foldr_chain(s.drop_first(), rel, z, accs) && accs[0] == m;
    let accs2 = seq![r] + accs;
    assert forall|i: int| 0 <= i < s.len() implies #[trigger] rel(s[i], accs2[i + 1], accs2[i]) by {
        if i > 0 {
            assert(s[i] == s.drop_first()[i - 1]);
            assert(rel(s.drop_first()[i - 1], accs[i], accs[i - 1]));
        }
    }
    assert(foldr_chain(s, rel, z, accs2));
}

/// One step of a left fold: folding `s.last()` onto a fold of the rest.
pub proof fn lemma_foldl_rel_step<T, U>(
    s: Seq<T>,
    rel: spec_fn(U, T, U) -> bool,
    z: U,
    m: U,
    r: U,
)
    requires
        s.len() > 0,
        foldl_rel(s.drop_last(), rel, z, m),
        rel(m, s.last(), r),
    ensures
        foldl_rel(s, rel, z, r),
{
    let accs = choose|accs: Seq<U>| #[trigger] foldl_chain(s.drop_last(), rel, z, accs) && accs[s.len() - 1] == m;
    let accs2 = accs.push(r);
    assert forall|i: int| 0 <= i < s.len() implies #[trigger] rel(accs2[i], s[i], accs2[i + 1]) by {
        if i < s.len() - 1 {
            assert(s[i] == s.drop_last()[i]);
            assert(rel(accs[i], s.drop_last()[i], accs[i + 1]));
        }
    }
    assert(foldl_chain(s, rel, z, accs2));
}

} // verus!

verus! {

/// Folding nothing from the right gives the starting value.
pub proof fn lemma_foldr_rel_empty<T, U>(s: Seq<T>, rel: spec_fn(T, U, U) -> bool, z: U)
    requires
        s.len() == 0,
    ensures
        foldr_rel(s, rel, z, z),
{
    assert(foldr_chain(s, rel, z, seq![z]));
}

/// Folding nothing from the left gives the starting value.
pub proof fn lemma_foldl_rel_empty<T, U>(s: Seq<T>, rel: spec_fn(U, T, U) -> bool, z: U)
    requires
        s.len() == 0,
    ensures
        foldl_rel(s, rel, z, z),
{
    assert(foldl_chain(s, rel, z, seq![z]));
}

/// A right fold of `a + b` is a right fold of `a` from a right fold of `b`.
pub proof fn lemma_foldr_rel_append<T, U>(
    a: Seq<T>,
    b: Seq<T>,
    rel: spec_fn(T, U, U) -> bool,
    z: U,
    m: U,
    r: U,
)
    requires
        foldr_rel(b, rel, z, m),
        foldr_rel(a, rel, m, r),
    ensures
        foldr_rel(a + b, rel, z, r),
{
    let cb = choose|accs: Seq<U>| #[trigger] foldr_chain(b, rel, z, accs) && accs[0] == m;
    let ca = choose|accs: Seq<U>| #[trigger] foldr_chain(a, rel, m, accs) && accs[0] == r;
    let c = ca.drop_last() + cb;
    let s = a + b;
    assert forall|i: int| 0 <= i < s.len() implies #[trigger] rel(s[i], c[i + 1], c[i]) by {
        if i < a.len() {
            assert(rel(a[i], ca[i + 1], ca[i]));
            assert(c[i] == ca[i]);
            if i + 1 < a.len() {
                assert(c[i + 1] == ca[i + 1]);
            } else {
                assert(c[i + 1] == cb[0]);
            }
        } else {
            let j = i - a.len();
            assert(rel(b[j], cb[j + 1], cb[j]));
        }
    }
    assert(foldr_chain(s, rel, z, c));
}

/// A left fold of `a + b` is a left fold of `b` from a left fold of `a`.
pub proof fn lemma_foldl_rel_append<T, U>(
    a: Seq<T>,
    b: Seq<T>,
    rel: spec_fn(U, T, U) -> bool,
    z: U,
    m: U,
    r: U,
)
    requires
        foldl_rel(a, rel, z, m),
        foldl_rel(b, rel, m, r),
    ensures
        foldl_rel(a + b, rel, z, r),
{
    let ca = choose|accs: Seq<U>| #[trigger] foldl_chain(a, rel, z, accs) && accs[a.len() as int] == m;
    let cb = choose|accs: Seq<U>| #[trigger] foldl_chain(b, rel, m, accs) && accs[b.len() as int] == r;
    let c = ca + cb.drop_first();
    let s = a + b;
    assert forall|i: int| 0 <= i < s.len() implies #[trigger] rel(c[i], s[i], c[i + 1]) by {
        if i < a.len() {
            assert(rel(ca[i], a[i], ca[i + 1]));
        } else {
            let j = i - a.len();
            assert(rel(cb[j], b[j], cb[j + 1]));
            if j == 0 {
                assert(c[i] == ca[a.len() as int]);
            } else {
                assert(c[i] == cb[j]);
            }
        }
    }
    assert(foldl_chain(s, rel, z, c));
}


/// The step of a fold is the function `g`: every call it describes gives `g` of its arguments.
pub open spec fn computes2<A, B, C>(rel: spec_fn(A, B, C) -> bool, g: spec_fn(A, B) -> C) -> bool {
    forall|a: A, b: B, c: C| #[trigger] rel(a, b, c) ==> c == g(a, b)
}

/// The first `k` intermediate results of a left fold are the left folds of the first `k`
/// elements.
proof fn lemma_foldl_chain_prefix<T, U>(
    s: Seq<T>,
    rel: spec_fn(U, T, U) -> bool,
    g: spec_fn(U, T) -> U,
    z: U,
    accs: Seq<U>,
    k: int,
)
    requires
        computes2(rel, g),
        foldl_chain(s, rel, z, accs),
        0 <= k <= s.len(),
    ensures
        accs[k] == s.take(k).fold_left(z, g),
    decreases k,
{
    if k > 0 {
        lemma_foldl_chain_prefix(s, rel, g, z, accs, k - 1);
        assert(s.take(k).drop_last() =~= s.take(k - 1));
        let i = k - 1;
        assert(rel(accs[i], s[i], accs[i + 1]));
    }
}

/// A left fold through a function `g` gives `g(... g(g(z, s[0]), s[1]) ..., s[n-1])`:
/// the elements are taken from the first to the last, each onto the result so far.
pub proof fn lemma_foldl_rel_fold_left<T, U>(s: Seq<T>, rel: spec_fn(U, T, U) -> bool, g: spec_fn(U, T) -> U, z: U, r: U)
    requires
        computes2(rel, g),
        foldl_rel(s, rel, z, r),
    ensures
        r == s.fold_left(z, g),
{
    let accs = choose|accs: Seq<U>| #[trigger] foldl_chain(s, rel, z, accs) && accs[s.len() as int] == r;
    lemma_foldl_chain_prefix(s, rel, g, z, accs, s.len() as int);
    assert(s.take(s.len() as int) =~= s);
}

/// The first result of a right fold is the right fold of the first `k` elements onto the
/// `k`-th intermediate result.
proof fn lemma_foldr_chain_prefix<T, U>(
    s: Seq<T>,
    rel: spec_fn(T, U, U) -> bool,
    g: spec_fn(T, U) -> U,
    z: U,
    accs: Seq<U>,
    k: int,
)
    requires
        computes2(rel, g),
        foldr_chain(s, rel, z, accs),
        0 <= k <= s.len(),
    ensures
        accs[0] == s.take(k).fold_right(g, accs[k]),
    decreases k,
{
    if k > 0 {
        lemma_foldr_chain_prefix(s, rel, g, z, accs, k - 1);
        assert(s.take(k).drop_last() =~= s.take(k - 1));
        let i = k - 1;
        assert(rel(s[i], accs[i + 1], accs[i]));
    }
}

/// A right fold through a function `g` gives `g(s[0], g(s[1], ... g(s[n-1], z)))`:
/// the elements are taken from the last to the first, each onto the result so far.
pub proof fn lemma_foldr_rel_fold_right<T, U>(s: Seq<T>, rel: spec_fn(T, U, U) -> bool, g: spec_fn(T, U) -> U, z: U, r: U)
    requires
        computes2(rel, g),
        foldr_rel(s, rel, z, r),
    ensures
        r == s.fold_right(g, z),
{
    let accs = choose|accs: Seq<U>| #[trigger] foldr_chain(s, rel, z, accs) && accs[0] == r;
    lemma_foldr_chain_prefix(s, rel, g, z, accs, s.len() as int);
    assert(s.take(s.len() as int) =~= s);
}

} // verus!
