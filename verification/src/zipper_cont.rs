//! Lambda terms, and a traversal of a term driven by a function that chooses, at every
//! node, a replacement for it and the direction in which to go on.

use vstd::prelude::*;

use crate::base::data::functor::{
    ensures1, ensures2, foldl_rel, foldr_rel, lemma_foldl_rel_append, lemma_foldl_rel_empty,
    lemma_foldl_rel_step, lemma_foldr_rel_append, lemma_foldr_rel_empty, lemma_foldr_rel_step,
    total1, total2,
};
use crate::base::data::identity::Identity;

verus! {

/// A lambda term: a variable, an abstraction, an application, or a hole.
#[derive(Debug, PartialEq, Eq, PartialOrd, Ord, Hash)]
pub enum ZipperTerm {
    /// A variable.
    Var(String),
    /// An abstraction of a variable over a body.
    L(String, Box<ZipperTerm>),
    /// An application of one term to another.
    A(Box<ZipperTerm>, Box<ZipperTerm>),
    /// A hole, to be filled in.
    Free,
}

/// Whether a term has a hole anywhere in it.
pub open spec fn has_free(t: ZipperTerm) -> bool
    decreases t,
{
    match t {
        ZipperTerm::Var(_) => false,
        ZipperTerm::L(_, n) => has_free(*n),
        ZipperTerm::A(l, r) => has_free(*l) || has_free(*r),
        ZipperTerm::Free => true,
    }
}

impl Clone for ZipperTerm {
    fn clone(&self) -> (r: Self)
        ensures
            r == *self,
        decreases self,
    {
        match self {
            ZipperTerm::Var(s) => ZipperTerm::Var(s.clone()),
            ZipperTerm::L(s, n) => ZipperTerm::L(s.clone(), Box::new((**n).clone())),
            ZipperTerm::A(l, r) => ZipperTerm::A(Box::new((**l).clone()), Box::new((**r).clone())),
            ZipperTerm::Free => ZipperTerm::Free,
        }
    }
}

impl ZipperTerm {
    /// A variable named `t`.
    pub fn var(t: &str) -> (r: Self)
        ensures
            r matches ZipperTerm::Var(s) && s@ == t@,
    {
        ZipperTerm::Var(t.to_owned())
    }

    /// The application of `lhs` to `rhs`.
    pub fn a(lhs: Self, rhs: Self) -> (r: Self)
        ensures
            r == ZipperTerm::A(Box::new(lhs), Box::new(rhs)),
    {
        ZipperTerm::A(Box::new(lhs), Box::new(rhs))
    }

    /// The abstraction of the variable `t` over `n`.
    pub fn l(t: &str, n: Self) -> (r: Self)
        ensures
            r matches ZipperTerm::L(s, b) && s@ == t@ && *b == n,
    {
        ZipperTerm::L(t.to_owned(), Box::new(n))
    }

    /// An application with holes on both sides.
    pub fn a_free() -> (r: Self)
        ensures
            r == ZipperTerm::A(Box::new(ZipperTerm::Free), Box::new(ZipperTerm::Free)),
    {
        Self::a(ZipperTerm::Free, ZipperTerm::Free)
    }

    /// An abstraction of `t` over a hole.
    pub fn l_free(t: &str) -> (r: Self)
        ensures
            r matches ZipperTerm::L(s, b) && s@ == t@ && *b == ZipperTerm::Free,
    {
        Self::l(t, ZipperTerm::Free)
    }

    /// Replace the left side of an application.
    pub fn left(self, t: Self) -> (r: Self)
        requires
            self is A,
        ensures
            r == ZipperTerm::A(Box::new(t), self->A_1),
    {
        match self {
            ZipperTerm::A(_, r) => ZipperTerm::a(t, *r),
            _ => ZipperTerm::Free,
        }
    }

    /// Replace the right side of an application.
    pub fn right(self, t: Self) -> (r: Self)
        requires
            self is A,
        ensures
            r == ZipperTerm::A(self->A_0, Box::new(t)),
    {
        match self {
            ZipperTerm::A(l, _) => ZipperTerm::a(*l, t),
            _ => ZipperTerm::Free,
        }
    }

    /// Replace the body of an abstraction.
    pub fn next(self, t: Self) -> (r: Self)
        requires
            self is L,
        ensures
            r == ZipperTerm::L(self->L_0, Box::new(t)),
    {
        match self {
            ZipperTerm::L(s, _) => ZipperTerm::L(s, Box::new(t)),
            _ => ZipperTerm::Free,
        }
    }
}

/// `y` is `x` with every variable name and every abstracted name related by `rel` to the
/// name at its place.
pub open spec fn term_fmapped(x: ZipperTerm, rel: spec_fn(String, String) -> bool, y: ZipperTerm) -> bool
    decreases x,
{
    match (x, y) {
        (ZipperTerm::Var(a), ZipperTerm::Var(b)) => rel(a, b),
        (ZipperTerm::L(a, n), ZipperTerm::L(b, m)) => rel(a, b) && term_fmapped(*n, rel, *m),
        (ZipperTerm::A(l, r), ZipperTerm::A(l2, r2)) => term_fmapped(*l, rel, *l2) && term_fmapped(
            *r,
            rel,
            *r2,
        ),
        _ => false,
    }
}

/// The names in a term, in pre-order: the name of an abstraction before those of its body,
/// those of the left side of an application before those of its right side.
pub open spec fn names(t: ZipperTerm) -> Seq<String>
    decreases t,
{
    match t {
        ZipperTerm::Var(x) => seq![x],
        ZipperTerm::L(x, n) => seq![x] + names(*n),
        ZipperTerm::A(l, n) => names(*l) + names(*n),
        ZipperTerm::Free => Seq::empty(),
    }
}

/// The steps of a left fold of a term: each name, with whether it is the name of an
/// abstraction. A variable is folded after the accumulator; the name of an abstraction
/// is folded before the fold of its body, after that fold is done.
pub open spec fn fold_steps(t: ZipperTerm) -> Seq<(String, bool)>
    decreases t,
{
    match t {
        ZipperTerm::Var(x) => seq![(x, false)],
        ZipperTerm::L(x, n) => fold_steps(*n).push((x, true)),
        ZipperTerm::A(l, n) => fold_steps(*l) + fold_steps(*n),
        ZipperTerm::Free => Seq::empty(),
    }
}

/// One step of a left fold of a term: `rel(acc, name, out)` for a variable, and
/// `rel(name, acc, out)` for the name of an abstraction.
pub open spec fn step_rel(rel: spec_fn(String, String, String) -> bool) -> spec_fn(String, (String, bool), String) -> bool {
    |acc: String, st: (String, bool), out: String|
        if st.1 {
            rel(st.0, acc, out)
        } else {
            rel(acc, st.0, out)
        }
}

impl ZipperTerm {
    /// Map a function over every name in a term without holes.
    pub fn fmap<F: Fn(String) -> String>(self, f: F) -> (r: ZipperTerm)
        requires
            total1(f),
            !has_free(self),
        ensures
            term_fmapped(self, ensures1(f), r),
    {
        self.fmap_by(&f)
    }

    fn fmap_by<F: Fn(String) -> String>(self, f: &F) -> (r: ZipperTerm)
        requires
            total1(*f),
            !has_free(self),
        ensures
            term_fmapped(self, ensures1(*f), r),
        decreases self,
    {
        match self {
            ZipperTerm::Var(t) => ZipperTerm::Var(f(t)),
            ZipperTerm::L(s, n) => {
                let s2 = f(s);
                ZipperTerm::L(s2, Box::new((*n).fmap_by(f)))
            },
            ZipperTerm::A(l, r) => {
                let l2 = (*l).fmap_by(f);
                ZipperTerm::A(Box::new(l2), Box::new((*r).fmap_by(f)))
            },
            ZipperTerm::Free => ZipperTerm::Free,
        }
    }

    /// Fold the names of a term without holes from the right (see [`names`]).
    pub fn foldr<F: Fn(String, String) -> String>(self, f: F, init: String) -> (r: String)
        requires
            total2(f),
            !has_free(self),
        ensures
            foldr_rel(names(self), ensures2(f), init, r),
    {
        self.foldr_by(&f, init)
    }

    fn foldr_by<F: Fn(String, String) -> String>(self, f: &F, init: String) -> (r: String)
        requires
            total2(*f),
            !has_free(self),
        ensures
            foldr_rel(names(self), ensures2(*f), init, r),
        decreases self,
    {
        let ghost rel = ensures2(*f);
        let ghost i0 = init;
        match self {
            ZipperTerm::Var(x) => {
                let ghost x0 = x;
                let r = f(x, init);
                proof {
                    lemma_foldr_rel_empty(seq![x0].drop_first(), rel, i0);
                    lemma_foldr_rel_step(seq![x0], rel, i0, i0, r);
                }
                r
            },
            ZipperTerm::L(x, n) => {
                let ghost x0 = x;
                let ghost n0 = *n;
                let m = (*n).foldr_by(f, init);
                let r = f(x, m);
                proof {
                    lemma_foldr_rel_empty(seq![x0].drop_first(), rel, m);
                    lemma_foldr_rel_step(seq![x0], rel, m, m, r);
                    lemma_foldr_rel_append(seq![x0], names(n0), rel, i0, m, r);
                }
                r
            },
            ZipperTerm::A(l, n) => {
                let ghost l0 = *l;
                let ghost n0 = *n;
                let m = (*n).foldr_by(f, init);
                let r = (*l).foldr_by(f, m);
                proof {
                    lemma_foldr_rel_append(names(l0), names(n0), rel, i0, m, r);
                }
                r
            },
            ZipperTerm::Free => init,
        }
    }

    /// Fold the names of a term without holes from the left (see [`fold_steps`]).
    pub fn foldl<F: Fn(String, String) -> String>(self, f: F, init: String) -> (r: String)
        requires
            total2(f),
            !has_free(self),
        ensures
            foldl_rel(fold_steps(self), step_rel(ensures2(f)), init, r),
    {
        self.foldl_by(&f, init)
    }

    fn foldl_by<F: Fn(String, String) -> String>(self, f: &F, init: String) -> (r: String)
        requires
            total2(*f),
            !has_free(self),
        ensures
            foldl_rel(fold_steps(self), step_rel(ensures2(*f)), init, r),
        decreases self,
    {
        let ghost rel = step_rel(ensures2(*f));
        let ghost i0 = init;
        match self {
            ZipperTerm::Var(x) => {
                let ghost x0 = x;
                let r = f(init, x);
                proof {
                    let st = seq![(x0, false)];
                    lemma_foldl_rel_empty(st.drop_last(), rel, i0);
                    assert(rel(i0, st.last(), r));
                    lemma_foldl_rel_step(st, rel, i0, i0, r);
                }
                r
            },
            ZipperTerm::L(x, n) => {
                let ghost x0 = x;
                let ghost n0 = *n;
                let m = (*n).foldl_by(f, init);
                let r = f(x, m);
                proof {
                    let st = fold_steps(n0).push((x0, true));
                    assert(st.drop_last() =~= fold_steps(n0));
                    assert(rel(m, st.last(), r));
                    lemma_foldl_rel_step(st, rel, i0, m, r);
                }
                r
            },
            ZipperTerm::A(l, n) => {
                let ghost l0 = *l;
                let ghost n0 = *n;
                let m = (*l).foldl_by(f, init);
                let r = (*n).foldl_by(f, m);
                proof {
                    lemma_foldl_rel_append(fold_steps(l0), fold_steps(n0), rel, i0, m, r);
                }
                r
            },
            ZipperTerm::Free => init,
        }
    }
}

/// Where a traversal goes on from a node.
#[derive(Debug, Default, Copy, Clone, PartialEq, Eq, PartialOrd, Ord, Hash)]
pub enum Direction {
    /// Stop here and keep the node as it is.
    #[default]
    Up,
    /// Go into every child.
    Next,
    /// Go into the left side of an application (and the body of an abstraction).
    DownLeft,
    /// Go into the right side of an application (and the body of an abstraction).
    DownRight,
}

/// Directions of a traversal that moves one step at a time.
#[derive(Debug, Copy, Clone, PartialEq, Eq, PartialOrd, Ord, Hash)]
pub enum Direction1 {
    FirstKid,
    RightKid,
    Parent,
}

/// The node that a traversal works on after the choice `o`: the replacement, if any.
pub open spec fn chosen(o: Option<ZipperTerm>, t: ZipperTerm) -> ZipperTerm {
    match o {
        Some(x) => x,
        None => t,
    }
}

/// The traversal of `t` by `tf` finishes within `n` levels of recursion, without meeting
/// a hole in a direction other than `Up`: at every node it visits, whatever `tf` chooses,
/// the children that the direction leads to can be traversed within one level less.
pub open spec fn travel_within<F: Fn(ZipperTerm) -> Identity<(Option<ZipperTerm>, Direction)>>(
    t: ZipperTerm,
    tf: F,
    n: nat,
) -> bool
    decreases n,
{
    if n == 0 {
        false
    } else {
        forall|o: Option<ZipperTerm>, d: Direction|
            #[trigger] call_ensures(tf, (t,), Identity((o, d))) ==> match (d, chosen(o, t)) {
                (Direction::Up, _) => true,
                (_, ZipperTerm::Var(_)) => true,
                (_, ZipperTerm::L(_, b)) => travel_within(*b, tf, (n - 1) as nat),
                (Direction::Next, ZipperTerm::A(l, r)) => travel_within(*l, tf, (n - 1) as nat) && travel_within(
                    *r,
                    tf,
                    (n - 1) as nat,
                ),
                (Direction::DownLeft, ZipperTerm::A(l, _)) => travel_within(*l, tf, (n - 1) as nat),
                (Direction::DownRight, ZipperTerm::A(_, r)) => travel_within(*r, tf, (n - 1) as nat),
                (_, ZipperTerm::Free) => false,
            }
    }
}

/// `r` is a possible result of traversing `t` with `tf` within `n` levels of recursion:
/// `tf` chooses a replacement of the node and a direction; `Up` (or a variable) keeps the
/// node, and otherwise the children that the direction leads to are traversed and put back
/// in place.
pub open spec fn travels_within<F: Fn(ZipperTerm) -> Identity<(Option<ZipperTerm>, Direction)>>(
    t: ZipperTerm,
    tf: F,
    r: ZipperTerm,
    n: nat,
) -> bool
    decreases n,
{
    if n == 0 {
        false
    } else {
        exists|o: Option<ZipperTerm>, d: Direction|
            #[trigger] call_ensures(tf, (t,), Identity((o, d))) && match (d, chosen(o, t)) {
                (Direction::Up, t2) => r == t2,
                (_, ZipperTerm::Var(x)) => r == ZipperTerm::Var(x),
                (_, ZipperTerm::L(v, b)) => r matches ZipperTerm::L(v2, m) && v2 == v && travels_within(
                    *b,
                    tf,
                    *m,
                    (n - 1) as nat,
                ),
                (Direction::Next, ZipperTerm::A(l, b)) => r matches ZipperTerm::A(l2, b2) && travels_within(
                    *l,
                    tf,
                    *l2,
                    (n - 1) as nat,
                ) && travels_within(*b, tf, *b2, (n - 1) as nat),
                (Direction::DownLeft, ZipperTerm::A(l, b)) => r matches ZipperTerm::A(l2, b2) && travels_within(
                    *l,
                    tf,
                    *l2,
                    (n - 1) as nat,
                ) && *b2 == *b,
                (Direction::DownRight, ZipperTerm::A(l, b)) => r matches ZipperTerm::A(l2, b2) && *l2 == *l
                    && travels_within(*b, tf, *b2, (n - 1) as nat),
                (_, ZipperTerm::Free) => false,
            }
    }
}

/// The abstraction of `v` over `b`.
pub open spec fn abstraction(v: String, b: ZipperTerm) -> ZipperTerm {
    ZipperTerm::L(v, Box::new(b))
}

/// The application of `l` to `r`.
pub open spec fn application(l: ZipperTerm, r: ZipperTerm) -> ZipperTerm {
    ZipperTerm::A(Box::new(l), Box::new(r))
}

/// `r` is a possible result of traversing `t` with `tf` under the moves of [`Direction1`]
/// within `n` levels of recursion: `Parent` keeps the node chosen; `FirstKid` and
/// `RightKid` traverse the body of an abstraction, `FirstKid` the function of an
/// application and `RightKid` its argument, put the result back in place, and traverse the
/// rebuilt node again.
pub open spec fn travels1_within<F: Fn(ZipperTerm) -> Identity<(Option<ZipperTerm>, Direction1)>>(
    t: ZipperTerm,
    tf: F,
    r: ZipperTerm,
    n: nat,
) -> bool
    decreases n,
{
    if n == 0 {
        false
    } else {
        exists|o: Option<ZipperTerm>, d: Direction1|
            #[trigger] call_ensures(tf, (t,), Identity((o, d))) && if d == Direction1::Parent {
                r == chosen(o, t)
            } else {
                match chosen(o, t) {
                    ZipperTerm::L(v, b) => exists|b2: ZipperTerm|
                        travels1_within(*b, tf, b2, (n - 1) as nat) && travels1_within(
                            #[trigger] abstraction(v, b2),
                            tf,
                            r,
                            (n - 1) as nat,
                        ),
                    ZipperTerm::A(l, b) => if d == Direction1::RightKid {
                        exists|b2: ZipperTerm|
                            travels1_within(*b, tf, b2, (n - 1) as nat) && travels1_within(
                                #[trigger] application(*l, b2),
                                tf,
                                r,
                                (n - 1) as nat,
                            )
                    } else {
                        exists|l2: ZipperTerm|
                            travels1_within(*l, tf, l2, (n - 1) as nat) && travels1_within(
                                #[trigger] application(l2, *b),
                                tf,
                                r,
                                (n - 1) as nat,
                            )
                    },
                    _ => false,
                }
            }
    }
}

/// The traversal of `t` by `tf` under the moves of [`Direction1`] finishes within `n`
/// levels of recursion: at every node it visits, whatever `tf` chooses, the move leads to
/// an abstraction or an application with the child it names (`Parent` leads anywhere), and
/// the child, and the node rebuilt from each result of traversing the child, can be
/// traversed within one level less.
pub open spec fn travel1_within<F: Fn(ZipperTerm) -> Identity<(Option<ZipperTerm>, Direction1)>>(
    t: ZipperTerm,
    tf: F,
    n: nat,
) -> bool
    decreases n,
{
    if n == 0 {
        false
    } else {
        forall|o: Option<ZipperTerm>, d: Direction1|
            #[trigger] call_ensures(tf, (t,), Identity((o, d))) ==> match (d, chosen(o, t)) {
                (Direction1::Parent, _) => true,
                (_, ZipperTerm::L(v, b)) => travel1_within(*b, tf, (n - 1) as nat) && forall|b2: ZipperTerm|
                    #[trigger] travels1_within(*b, tf, b2, (n - 1) as nat) ==> travel1_within(
                        ZipperTerm::L(v, Box::new(b2)),
                        tf,
                        (n - 1) as nat,
                    ),
                (Direction1::RightKid, ZipperTerm::A(l, b)) => travel1_within(*b, tf, (n - 1) as nat) && forall|
                    b2: ZipperTerm,
                | #[trigger] travels1_within(*b, tf, b2, (n - 1) as nat) ==> travel1_within(
                    ZipperTerm::A(l, Box::new(b2)),
                    tf,
                    (n - 1) as nat,
                ),
                (Direction1::FirstKid, ZipperTerm::A(l, b)) => travel1_within(*l, tf, (n - 1) as nat) && forall|
                    l2: ZipperTerm,
                | #[trigger] travels1_within(*l, tf, l2, (n - 1) as nat) ==> travel1_within(
                    ZipperTerm::A(Box::new(l2), b),
                    tf,
                    (n - 1) as nat,
                ),
                _ => false,
            }
    }
}

impl ZipperTerm {
    /// Traverse the term: at every node visited, `tf` gives a replacement for it (or
    /// `None` to keep it) and the direction in which to go on.
    pub fn travel<F: Fn(ZipperTerm) -> Identity<(Option<ZipperTerm>, Direction)>>(self, tf: F) -> (r: Identity<ZipperTerm>)
        requires
            total1(tf),
            exists|n: nat| #[trigger] travel_within(self, tf, n),
        ensures
            exists|n: nat| #[trigger] travels_within(self, tf, r.0, n),
    {
        let ghost n = choose|n: nat| #[trigger] travel_within(self, tf, n);
        let ghost t = self;
        let res = self.travel_by(&tf, Ghost(n));
        let out = Identity(res);
        assert(travels_within(t, tf, out.0, n));
        out
    }

    fn travel_by<F: Fn(ZipperTerm) -> Identity<(Option<ZipperTerm>, Direction)>>(self, tf: &F, Ghost(n): Ghost<nat>) -> (r: ZipperTerm)
        requires
            total1(*tf),
            travel_within(self, *tf, n),
        ensures
            travels_within(self, *tf, r, n),
        decreases n,
    {
        let ghost t = self;
        let c = self.clone();
        let Identity((o, d)) = tf(c);
        let ghost o0 = o;
        let t2 = match o {
            Some(x) => x,
            None => self,
        };
        assert(call_ensures(*tf, (t,), Identity((o0, d))));
        assert(t2 == chosen(o0, t));
        let ghost m1: nat = (n - 1) as nat;
        match d {
            Direction::Up => t2,
            _ => match t2 {
                ZipperTerm::Var(x) => ZipperTerm::Var(x),
                ZipperTerm::L(v, b) => {
                    let m = (*b).travel_by(tf, Ghost(m1));
                    ZipperTerm::L(v, Box::new(m))
                },
                ZipperTerm::A(l, b) => match d {
                    Direction::Next => {
                        let l2 = (*l).travel_by(tf, Ghost(m1));
                        let b2 = (*b).travel_by(tf, Ghost(m1));
                        ZipperTerm::A(Box::new(l2), Box::new(b2))
                    },
                    Direction::DownLeft => {
                        let l2 = (*l).travel_by(tf, Ghost(m1));
                        ZipperTerm::A(Box::new(l2), b)
                    },
                    _ => {
                        let b2 = (*b).travel_by(tf, Ghost(m1));
                        ZipperTerm::A(l, Box::new(b2))
                    },
                },
                ZipperTerm::Free => ZipperTerm::Free,
            },
        }
    }

    /// Traverse the term under the moves of [`Direction1`]: at every node visited, `tf`
    /// gives a replacement for it (or `None` to keep it) and a move; after a child has been
    /// traversed, the node rebuilt with the result is traversed again, until `tf` chooses
    /// `Parent`.
    pub fn travel1<F: Fn(ZipperTerm) -> Identity<(Option<ZipperTerm>, Direction1)>>(self, tf: F) -> (r: Identity<ZipperTerm>)
        requires
            total1(tf),
            exists|n: nat| #[trigger] travel1_within(self, tf, n),
        ensures
            exists|n: nat| #[trigger] travels1_within(self, tf, r.0, n),
    {
        let ghost n = choose|n: nat| #[trigger] travel1_within(self, tf, n);
        let ghost t = self;
        let res = self.travel1_by(&tf, Ghost(n));
        let out = Identity(res);
        assert(travels1_within(t, tf, out.0, n));
        out
    }

    fn travel1_by<F: Fn(ZipperTerm) -> Identity<(Option<ZipperTerm>, Direction1)>>(self, tf: &F, Ghost(n): Ghost<nat>) -> (r: ZipperTerm)
        requires
            total1(*tf),
            travel1_within(self, *tf, n),
        ensures
            travels1_within(self, *tf, r, n),
        decreases n,
    {
        let ghost t = self;
        let c = self.clone();
        let Identity((o, d)) = tf(c);
        let ghost o0 = o;
        let t2 = match o {
            Some(x) => x,
            None => self,
        };
        assert(call_ensures(*tf, (t,), Identity((o0, d))));
        assert(t2 == chosen(o0, t));
        let ghost m1: nat = (n - 1) as nat;
        match d {
            Direction1::Parent => {
                proof {
                    assert(n > 0);
                    assert(call_ensures(*tf, (t,), Identity((o0, d))) && t2 == chosen(o0, t));
                    assert(d == Direction1::Parent);
                    assert(travels1_within(t, *tf, t2, n));
                }
                t2
            },
            _ => match t2 {
                ZipperTerm::L(v, b) => {
                    let ghost v0 = v;
                    let ghost b0 = *b;
                    let b2 = (*b).travel1_by(tf, Ghost(m1));
                    let ghost b20 = b2;
                    let node = ZipperTerm::L(v, Box::new(b2));
                    let res = node.travel1_by(tf, Ghost(m1));
                    proof {
                        assert(travels1_within(b0, *tf, b20, m1));
                        assert(travels1_within(ZipperTerm::L(v0, Box::new(b20)), *tf, res, m1));
                        assert(d != Direction1::Parent);
                        assert(chosen(o0, t) == ZipperTerm::L(v0, Box::new(b0)));
                        assert(travels1_within(abstraction(v0, b20), *tf, res, m1));
                    }
                    assert(travels1_within(t, *tf, res, n));
                    res
                },
                ZipperTerm::A(l, b) => match d {
                    Direction1::RightKid => {
                        let ghost l0 = *l;
                        let b2 = (*b).travel1_by(tf, Ghost(m1));
                        let ghost b20 = b2;
                        let res = ZipperTerm::A(l, Box::new(b2)).travel1_by(tf, Ghost(m1));
                        assert(travels1_within(*b, *tf, b20, m1));
                        assert(travels1_within(application(l0, b20), *tf, res, m1));
                        assert(travels1_within(t, *tf, res, n));
                        res
                    },
                    _ => {
                        let ghost l0 = *l;
                        let ghost b0 = b;
                        let l2 = (*l).travel1_by(tf, Ghost(m1));
                        let ghost l20 = l2;
                        let node = ZipperTerm::A(Box::new(l2), b);
                        let res = node.travel1_by(tf, Ghost(m1));
                        proof {
                            assert(travels1_within(l0, *tf, l20, m1));
                            assert(travels1_within(ZipperTerm::A(Box::new(l20), b0), *tf, res, m1));
                            assert(d == Direction1::FirstKid);
                            assert(chosen(o0, t) == ZipperTerm::A(Box::new(l0), b0));
                            assert(travels1_within(application(l20, *b0), *tf, res, m1));
                        }
                        assert(travels1_within(t, *tf, res, n));
                        res
                    },
                },
                _ => {
                    assert(false);
                    t2
                },
            },
        }
    }
}

} // verus!
