//! Multi-way trees, also known as rose trees.

use vstd::prelude::*;

use crate::base::data::functor::{
    ensures1, ensures2, foldl_rel, foldr_rel, lemma_foldl_rel_append, lemma_foldl_rel_empty,
    lemma_foldl_rel_step, lemma_foldr_rel_append, lemma_foldr_rel_empty, lemma_foldr_rel_step,
    total1, total2, ChainM, Foldable, Functor, PureA,
};
use crate::base::data::pointed::Pointed;
use crate::base::data::traversable::SequenceA;

verus! {

/// A tree with a value at every node and any number of children.
#[derive(Debug, PartialEq, Eq, PartialOrd, Ord, Hash)]
pub struct RoseTree<T>(pub T, pub Vec<RoseTree<T>>);

/// `y` has the shape of `x`, with every value related by `rel` to the value at its place.
pub open spec fn tree_fmapped<T, U>(x: RoseTree<T>, rel: spec_fn(T, U) -> bool, y: RoseTree<U>) -> bool
    decreases x,
{
    &&& rel(x.0, y.0)
    &&& y.1@.len() == x.1@.len()
    &&& forall|i: int|
        #![trigger x.1@[i]]
        0 <= i < x.1@.len() ==> tree_fmapped(x.1@[i], rel, y.1@[i])
}

impl<T> Pointed for RoseTree<T> {
    type Pointed = T;
}

/// Map a function over every value of a tree.
#[verifier::loop_isolation(false)]
fn tree_fmap<T, U, F: Fn(T) -> U>(t: RoseTree<T>, f: &F) -> (r: RoseTree<U>)
    requires
        total1(*f),
    ensures
        tree_fmapped(t, ensures1(*f), r),
    decreases t,
{
    let ghost t0 = t;
    let RoseTree(x, children) = t;
    let y = f(x);
    let ghost cs = children@;
    let mut out: Vec<RoseTree<U>> = Vec::new();
    for c in it: children
        invariant
            total1(*f),
            cs == it.seq(),
            cs == t0.1@,
            out@.len() == it.index(),
            forall|i: int| 0 <= i < it.index() ==> #[trigger] tree_fmapped(cs[i], ensures1(*f), out@[i]),
    {
        proof {
            assert(c == cs[it.index() as int]);
            assert(decreases_to!(t0 => c));
        }
        let m = tree_fmap(c, f);
        out.push(m);
    }
    let r = RoseTree(y, out);
    proof {
        assert(ensures1(*f)(t0.0, r.0));
        assert(r.1@.len() == t0.1@.len());
        assert(forall|i: int| 0 <= i < t0.1@.len() ==> tree_fmapped(#[trigger] t0.1@[i], ensures1(*f), r.1@[i]));
    }
    r
}

impl<T, U> Functor<U> for RoseTree<T> {
    type Mapped = RoseTree<U>;

    open spec fn fmapped(x: RoseTree<T>, rel: spec_fn(T, U) -> bool, y: RoseTree<U>) -> bool {
        tree_fmapped(x, rel, y)
    }

    fn fmap<F: Fn(T) -> U>(self, f: F) -> (r: RoseTree<U>) {
        tree_fmap(self, &f)
    }
}

impl<T> PureA for RoseTree<T> {
    open spec fn pure_of(t: T, r: RoseTree<T>) -> bool {
        r.0 == t && r.1@.len() == 0
    }

    fn pure_a(t: T) -> (r: RoseTree<T>) {
        RoseTree(t, Vec::new())
    }
}

/// `y` is the bind of `x` through a function whose calls are described by `rel`:
/// the root's image `m` gives the root value and the first children, followed by
/// the binds of the children of `x`.
pub open spec fn tree_chained<T, U>(
    x: RoseTree<T>,
    rel: spec_fn(T, RoseTree<U>) -> bool,
    y: RoseTree<U>,
) -> bool
    decreases x,
{
    exists|m: RoseTree<U>|
        {
            &&& #[trigger] rel(x.0, m)
            &&& y.0 == m.0
            &&& y.1@.len() == m.1@.len() + x.1@.len()
            &&& y.1@.subrange(0, m.1@.len() as int) == m.1@
            &&& forall|i: int|
                #![trigger x.1@[i]]
                0 <= i < x.1@.len() ==> tree_chained(x.1@[i], rel, y.1@[m.1@.len() + i])
        }
}

/// Bind a tree through `f`.
#[verifier::loop_isolation(false)]
fn tree_chain<T, U, F: Fn(T) -> RoseTree<U>>(t: RoseTree<T>, f: &F) -> (r: RoseTree<U>)
    requires
        total1(*f),
    ensures
        tree_chained(t, ensures1(*f), r),
    decreases t,
{
    let ghost t0 = t;
    let RoseTree(x, branches) = t;
    let m = f(x);
    let ghost mm = m;
    let RoseTree(y, first) = m;
    let ghost cs = branches@;
    let mut out: Vec<RoseTree<U>> = Vec::new();
    for c in it: branches
        invariant
            total1(*f),
            cs == it.seq(),
            cs == t0.1@,
            out@.len() == it.index(),
            forall|i: int| 0 <= i < it.index() ==> tree_chained(#[trigger] cs[i], ensures1(*f), out@[i]),
    {
        proof {
            assert(c == cs[it.index() as int]);
            assert(decreases_to!(t0 => c));
        }
        let b = tree_chain(c, f);
        out.push(b);
    }
    let ghost n = first@.len();
    let mut children = first;
    let mut rest = out;
    let ghost rs = rest@;
    children.append(&mut rest);
    let r = RoseTree(y, children);
    proof {
        assert(ensures1(*f)(t0.0, mm));
        assert(r.1@.subrange(0, n as int) =~= mm.1@);
        assert(forall|i: int| 0 <= i < t0.1@.len() ==> r.1@[n + i] == rs[i]);
        assert(forall|i: int| 0 <= i < t0.1@.len() ==> tree_chained(#[trigger] t0.1@[i], ensures1(*f), r.1@[n + i]));
    }
    r
}

impl<T, U> ChainM<U> for RoseTree<T> {
    type Chained = RoseTree<U>;

    open spec fn chained(x: RoseTree<T>, rel: spec_fn(T, RoseTree<U>) -> bool, y: RoseTree<U>) -> bool {
        tree_chained(x, rel, y)
    }

    fn chain_m<F: Fn(T) -> RoseTree<U>>(self, f: F) -> (r: RoseTree<U>) {
        tree_chain(self, &f)
    }
}

/// `a` is the first of the values that a call of `f` on `x` produced.
pub open spec fn first_result<T, A, F: Fn(T) -> Vec<A>>(f: F) -> spec_fn(T, A) -> bool {
    |x: T, a: A| exists|v: Vec<A>| #[trigger] call_ensures(f, (x,), v) && v@.len() > 0 && v@[0] == a
}

/// Every call of `f` produces at least one value.
pub open spec fn never_empty<T, A, F: Fn(T) -> Vec<A>>(f: F) -> bool {
    forall|x: T, v: Vec<A>| #[trigger] call_ensures(f, (x,), v) ==> v@.len() > 0
}

/// Traverse a tree with an action in the zip-list applicative, from left to right:
/// the `i`-th result tree takes, at every node, the `i`-th value that the action
/// produced there, for as long as every node has an `i`-th value.
///
/// As the empty list of children is lifted as a single list, there is at most one result:
/// the tree of the first values, when every node has one.
#[verifier::loop_isolation(false)]
pub fn rose_tree_traverse<T, A, F: Fn(T) -> Vec<A>>(t: RoseTree<T>, f: &F) -> (r: Vec<RoseTree<A>>)
    requires
        total1(*f),
    ensures
        r@.len() <= 1,
        r@.len() == 1 ==> tree_fmapped(t, first_result(*f), r@[0]),
        never_empty(*f) ==> r@.len() == 1,
    decreases t,
{
    let ghost t0 = t;
    let RoseTree(x, xs) = t;
    let fx = f(x);
    let ghost cs = xs@;
    // The children's traversals, zipped from the right onto the lifted empty list.
    let mut acc: Vec<Vec<RoseTree<A>>> = Vec::new();
    acc.push(Vec::new());
    let mut xs = xs;
    while xs.len() > 0
        invariant
            total1(*f),
            cs == t0.1@,
            xs@ == cs.take(xs@.len() as int),
            xs@.len() <= cs.len(),
            acc@.len() <= 1,
            acc@.len() == 1 ==> acc@[0]@.len() + xs@.len() == cs.len(),
            acc@.len() == 1 ==> forall|j: int| xs@.len() <= j < cs.len() ==>
                tree_fmapped(#[trigger] cs[j], first_result(*f), acc@[0]@[j - xs@.len()]),
            never_empty(*f) ==> acc@.len() == 1,
        decreases xs.len(),
    {
        let ghost n = xs@.len() as int;
        let c = xs.pop().unwrap();
        proof {
            assert(c == cs[n - 1]);
            assert(decreases_to!(t0 => c));
        }
        let ys = rose_tree_traverse(c, f);
        let mut next: Vec<Vec<RoseTree<A>>> = Vec::new();
        if ys.len() > 0 && acc.len() > 0 {
            let mut ys = ys;
            let y = ys.swap_remove(0);
            let rest = acc.swap_remove(0);
            let ghost rv = rest@;
            let cons = crate::base::data::list::vec::push(y, rest);
            proof {
                assert(forall|i: int| 0 <= i < cons@.len() ==> (i == 0 ==> cons@[i] == y) && (i > 0 ==> cons@[i] == rv[i - 1]));
                assert(xs@ =~= cs.take(n - 1));
                assert forall|j: int| n - 1 <= j < cs.len() implies tree_fmapped(#[trigger] cs[j], first_result(*f), cons@[j - (n - 1)]) by {
                    if j > n - 1 {
                        assert(cons@[j - (n - 1)] == rv[j - n]);
                    }
                }
            }
            next.push(cons);
        }
        acc = next;
        proof {
            assert(xs@ =~= cs.take(n - 1));
        }
    }
    let mut out: Vec<RoseTree<A>> = Vec::new();
    if fx.len() > 0 && acc.len() > 0 {
        let mut fx = fx;
        let a = fx.swap_remove(0);
        let children = acc.swap_remove(0);
        let tree = RoseTree(a, children);
        proof {
            assert(first_result(*f)(t0.0, tree.0));
            assert(tree.1@.len() == t0.1@.len());
            assert(forall|i: int| 0 <= i < t0.1@.len() ==> tree_fmapped(#[trigger] t0.1@[i], first_result(*f), tree.1@[i]));
        }
        out.push(tree);
    }
    out
}

/// The values of a tree in pre-order: the root, then each child's values in turn.
pub open spec fn tree_elements<T>(t: RoseTree<T>) -> Seq<T>
    decreases t, 0int,
{
    seq![t.0] + forest_elements(t.1@)
}

/// The values of a list of trees in pre-order.
pub open spec fn forest_elements<T>(cs: Seq<RoseTree<T>>) -> Seq<T>
    decreases cs, 1int,
{
    if cs.len() == 0 {
        Seq::empty()
    } else {
        tree_elements(cs[0]) + forest_elements(cs.drop_first())
    }
}

/// The values of a tree with each child's values before the root (post-order).
pub open spec fn tree_elements_post<T>(t: RoseTree<T>) -> Seq<T>
    decreases t, 0int,
{
    forest_elements_post(t.1@).push(t.0)
}

/// The values of a list of trees in post-order.
pub open spec fn forest_elements_post<T>(cs: Seq<RoseTree<T>>) -> Seq<T>
    decreases cs, 1int,
{
    if cs.len() == 0 {
        Seq::empty()
    } else {
        forest_elements_post(cs.drop_last()) + tree_elements_post(cs.last())
    }
}

/// Right fold over the values of a tree, in pre-order.
#[verifier::loop_isolation(false)]
fn tree_foldr<T, U, F: Fn(T, U) -> U>(t: RoseTree<T>, f: &F, z: U) -> (r: U)
    requires
        total2(*f),
    ensures
        foldr_rel(tree_elements(t), ensures2(*f), z, r),
    decreases t,
{
    let ghost t0 = t;
    let ghost rel = ensures2(*f);
    let RoseTree(x, children) = t;
    let ghost cs = children@;
    let mut children = children;
    let mut acc = z;
    proof {
        assert(cs.skip(cs.len() as int) =~= Seq::<RoseTree<T>>::empty());
        lemma_foldr_rel_empty(forest_elements(cs.skip(cs.len() as int)), rel, z);
    }
    while children.len() > 0
        invariant
            total2(*f),
            rel == ensures2(*f),
            cs == t0.1@,
            children@ == cs.take(children@.len() as int),
            children@.len() <= cs.len(),
            foldr_rel(forest_elements(cs.skip(children@.len() as int)), rel, z, acc),
        decreases children.len(),
    {
        let ghost n = children@.len() as int;
        let ghost prev = acc;
        let c = children.pop().unwrap();
        proof {
            assert(c == cs[n - 1]);
            assert(decreases_to!(t0 => c));
        }
        acc = tree_foldr(c, f, acc);
        proof {
            assert(cs.skip(n - 1)[0] == c);
            assert(cs.skip(n - 1).drop_first() =~= cs.skip(n));
            lemma_foldr_rel_append(tree_elements(c), forest_elements(cs.skip(n)), rel, z, prev, acc);
            assert(children@ =~= cs.take(n - 1));
        }
    }
    let ghost inner = acc;
    let r = f(x, acc);
    proof {
        assert(cs.skip(0) =~= cs);
        let whole = tree_elements(t0);
        assert(whole[0] == x);
        assert(whole.drop_first() =~= forest_elements(cs));
        lemma_foldr_rel_step(whole, rel, z, inner, r);
    }
    r
}

/// Left fold over the values of a tree, each child before the root.
#[verifier::loop_isolation(false)]
fn tree_foldl<T, U, F: Fn(U, T) -> U>(t: RoseTree<T>, f: &F, z: U) -> (r: U)
    requires
        total2(*f),
    ensures
        foldl_rel(tree_elements_post(t), ensures2(*f), z, r),
    decreases t,
{
    let ghost t0 = t;
    let ghost rel = ensures2(*f);
    let RoseTree(x, children) = t;
    let ghost cs = children@;
    let mut acc = z;
    proof {
        assert(cs.take(0) =~= Seq::<RoseTree<T>>::empty());
        lemma_foldl_rel_empty(forest_elements_post(cs.take(0)), rel, z);
    }
    for c in it: children
        invariant
            total2(*f),
            rel == ensures2(*f),
            cs == it.seq(),
            cs == t0.1@,
            foldl_rel(forest_elements_post(cs.take(it.index() as int)), rel, z, acc),
    {
        let ghost i = it.index() as int;
        let ghost prev = acc;
        proof {
            assert(c == cs[i]);
            assert(decreases_to!(t0 => c));
        }
        acc = tree_foldl(c, f, acc);
        proof {
            assert(cs.take(i + 1).drop_last() =~= cs.take(i));
            assert(cs.take(i + 1).last() == c);
            lemma_foldl_rel_append(
                forest_elements_post(cs.take(i)),
                tree_elements_post(c),
                rel,
                z,
                prev,
                acc,
            );
        }
    }
    let ghost inner = acc;
    let r = f(acc, x);
    proof {
        assert(cs.take(cs.len() as int) =~= cs);
        let whole = tree_elements_post(t0);
        assert(whole.last() == x);
        assert(whole.drop_last() =~= forest_elements_post(cs));
        lemma_foldl_rel_step(whole, rel, z, inner, r);
    }
    r
}

impl<T> Foldable for RoseTree<T> {
    open spec fn elements(x: RoseTree<T>) -> Seq<T> {
        tree_elements(x)
    }

    open spec fn elements_l(x: RoseTree<T>) -> Seq<T> {
        tree_elements_post(x)
    }

    fn foldr<U, F: Fn(T, U) -> U>(self, f: F, z: U) -> (r: U) {
        tree_foldr(self, &f, z)
    }

    fn foldl<U, F: Fn(U, T) -> U>(self, f: F, z: U) -> (r: U) {
        tree_foldl(self, &f, z)
    }
}

/// Every value of the tree is present.
pub open spec fn tree_all_some<T>(t: RoseTree<Option<T>>) -> bool
    decreases t,
{
    &&& t.0 is Some
    &&& forall|i: int| #![trigger t.1@[i]] 0 <= i < t.1@.len() ==> tree_all_some(t.1@[i])
}

/// `v` is the value held by `o`.
pub open spec fn holds<T>() -> spec_fn(Option<T>, T) -> bool {
    |o: Option<T>, v: T| o == Some(v)
}

/// Sequence the optional values of a tree: the tree of the values if every value is
/// present, and `None` otherwise.
#[verifier::loop_isolation(false)]
fn tree_sequence<T>(t: RoseTree<Option<T>>) -> (r: Option<RoseTree<T>>)
    ensures
        if tree_all_some(t) {
            r matches Some(y) && tree_fmapped(t, holds(), y)
        } else {
            r is None
        },
    decreases t,
{
    let ghost t0 = t;
    let RoseTree(x, children) = t;
    let ghost cs = children@;
    let mut out: Vec<RoseTree<T>> = Vec::new();
    for c in it: children
        invariant
            cs == it.seq(),
            cs == t0.1@,
            out@.len() == it.index(),
            forall|i: int| 0 <= i < it.index() ==> #[trigger] tree_all_some(cs[i]),
            forall|i: int| 0 <= i < it.index() ==> #[trigger] tree_fmapped(cs[i], holds(), out@[i]),
    {
        let ghost i = it.index() as int;
        proof {
            assert(c == cs[i]);
            assert(decreases_to!(t0 => c));
        }
        match tree_sequence(c) {
            Some(m) => {
                out.push(m);
            },
            None => {
                proof {
                    assert(!tree_all_some(cs[i]));
                    assert(!tree_all_some(t0));
                }
                return None;
            },
        }
    }
    match x {
        Some(v) => {
            let r = RoseTree(v, out);
            proof {
                assert(holds()(t0.0, r.0));
                assert(forall|i: int| 0 <= i < t0.1@.len() ==> tree_fmapped(#[trigger] t0.1@[i], holds(), r.1@[i]));
                assert(forall|i: int| 0 <= i < t0.1@.len() ==> tree_all_some(#[trigger] t0.1@[i]));
            }
            Some(r)
        },
        None => None,
    }
}

impl<T> SequenceA<Option<RoseTree<T>>> for RoseTree<Option<T>> {
    /// The tree of the values, of the same shape, if every value is present, and `None`
    /// otherwise.
    open spec fn sequenced(x: RoseTree<Option<T>>, r: Option<RoseTree<T>>) -> bool {
        if tree_all_some(x) {
            r matches Some(y) && tree_fmapped(x, holds(), y)
        } else {
            r is None
        }
    }

    fn sequence_a(self) -> (r: Option<RoseTree<T>>) {
        tree_sequence(self)
    }
}

/// The pre-order values of a list of trees are those of each tree in turn.
proof fn lemma_forest_elements_flatten<T>(cs: Seq<RoseTree<T>>)
    ensures
        forest_elements(cs) == cs.map_values(|c: RoseTree<T>| tree_elements(c)).flatten(),
    decreases cs.len(),
{
    let m = cs.map_values(|c: RoseTree<T>| tree_elements(c));
    if cs.len() > 0 {
        lemma_forest_elements_flatten(cs.drop_first());
        assert(m.drop_first() =~= cs.drop_first().map_values(|c: RoseTree<T>| tree_elements(c)));
        assert(m.first() == tree_elements(cs[0]));
    } else {
        assert(m =~= Seq::<Seq<T>>::empty());
    }
}

/// The post-order values of a list of trees are those of each tree in turn.
proof fn lemma_forest_elements_post_flatten<T>(cs: Seq<RoseTree<T>>)
    ensures
        forest_elements_post(cs) == cs.map_values(|c: RoseTree<T>| tree_elements_post(c)).flatten(),
    decreases cs.len(),
{
    let m = cs.map_values(|c: RoseTree<T>| tree_elements_post(c));
    if cs.len() > 0 {
        lemma_forest_elements_post_flatten(cs.drop_last());
        let m0 = cs.drop_last().map_values(|c: RoseTree<T>| tree_elements_post(c));
        assert(m =~= m0.push(tree_elements_post(cs.last())));
        m0.lemma_flatten_push(tree_elements_post(cs.last()));
    } else {
        assert(m =~= Seq::<Seq<T>>::empty());
    }
}

/// `foldr` order: the values of a tree, as `foldr` takes them, are its root and then the
/// values of each child, children in order.
pub proof fn lemma_rose_tree_elements<T>(t: RoseTree<T>)
    ensures
        <RoseTree<T> as Foldable>::elements(t) == seq![t.0] + t.1@.map_values(
            |c: RoseTree<T>| <RoseTree<T> as Foldable>::elements(c),
        ).flatten(),
{
    lemma_forest_elements_flatten(t.1@);
    assert(t.1@.map_values(|c: RoseTree<T>| <RoseTree<T> as Foldable>::elements(c)) =~= t.1@.map_values(
        |c: RoseTree<T>| tree_elements(c),
    ));
}

/// `foldl` order: the values of a tree, as `foldl` takes them, are the values of each
/// child, children in order, and then its root.
pub proof fn lemma_rose_tree_elements_l<T>(t: RoseTree<T>)
    ensures
        <RoseTree<T> as Foldable>::elements_l(t) == t.1@.map_values(
            |c: RoseTree<T>| <RoseTree<T> as Foldable>::elements_l(c),
        ).flatten().push(t.0),
{
    lemma_forest_elements_post_flatten(t.1@);
    assert(t.1@.map_values(|c: RoseTree<T>| <RoseTree<T> as Foldable>::elements_l(c)) =~= t.1@.map_values(
        |c: RoseTree<T>| tree_elements_post(c),
    ));
}

} // verus!
