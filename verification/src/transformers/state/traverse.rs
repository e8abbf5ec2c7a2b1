//! Running lists of state computations one after the other.
//!
//! Each function here builds a computation that runs a sequence of state computations
//! in order, each from the state that the one before it left. Their results are specified
//! by [`runs_all`]: the chain of states that the sequence passes through.

use std::marker::PhantomData;

use vstd::prelude::*;

use crate::base::data::functor::{total1, total2};
use crate::base::data::identity::Identity;
use crate::base::data::list::filter::filter_by;

use super::{State, StateT};

verus! {

/// Every computation in `ms` can be run from every state.
pub open spec fn all_total<S, A, F: Fn(S) -> Identity<(A, S)>>(ms: Seq<State<S, A, F>>) -> bool {
    forall|i: int| #![trigger ms[i]] 0 <= i < ms.len() ==> ms[i].total()
}

/// Running the first `n` computations of `ms`, in order, from `ss[0]` may pass through
/// the states `ss` and give the values `vals`: `ms[i]` goes from `ss[i]` to `ss[i + 1]`,
/// giving `vals[i]`.
pub open spec fn state_chain<S, A, F: Fn(S) -> Identity<(A, S)>>(
    ms: Seq<State<S, A, F>>,
    n: int,
    vals: Seq<A>,
    ss: Seq<S>,
) -> bool {
    &&& vals.len() == n
    &&& ss.len() == n + 1
    &&& forall|i: int| #![trigger vals[i]] 0 <= i < n ==> ms[i].runs(ss[i], vals[i], ss[i + 1])
}

/// Running all of `ms` in order from `s` may give the values `vals` and end in `s2`.
pub open spec fn runs_all<S, A, F: Fn(S) -> Identity<(A, S)>>(
    ms: Seq<State<S, A, F>>,
    s: S,
    vals: Seq<A>,
    s2: S,
) -> bool {
    exists|ss: Seq<S>| #[trigger] state_chain(ms, ms.len() as int, vals, ss) && ss[0] == s && ss[ms.len() as int] == s2
}

/// `ms[i]` is a result of `k` on `xs[i]`, for every `i`.
pub open spec fn made_by<T, B, G: Fn(S) -> Identity<(B, S)>, S, K: Fn(T) -> State<S, B, G>>(
    k: K,
    xs: Seq<T>,
    ms: Seq<State<S, B, G>>,
) -> bool {
    &&& ms.len() == xs.len()
    &&& forall|i: int| #![trigger ms[i]] 0 <= i < xs.len() ==> call_ensures(k, (xs[i],), ms[i])
}

/// Folding `xs` from `z` with `k`: `ms[i]` is a result of `k` on the accumulator `accs[i]`
/// and `xs[i]`, and running it from `ss[i]` gives the next accumulator and `ss[i + 1]`.
pub open spec fn fold_chain<T, B, G: Fn(S) -> Identity<(B, S)>, S, K: Fn(B, T) -> State<S, B, G>>(
    k: K,
    xs: Seq<T>,
    z: B,
    ms: Seq<State<S, B, G>>,
    accs: Seq<B>,
    ss: Seq<S>,
) -> bool {
    &&& ms.len() == xs.len()
    &&& accs.len() == xs.len() + 1
    &&& ss.len() == xs.len() + 1
    &&& accs[0] == z
    &&& forall|i: int|
        #![trigger ms[i]]
        0 <= i < xs.len() ==> call_ensures(k, (accs[i], xs[i]), ms[i]) && ms[i].runs(
            ss[i],
            accs[i + 1],
            ss[i + 1],
        )
}

/// Extending a chain by one more computation.
proof fn lemma_chain_push<S, A, F: Fn(S) -> Identity<(A, S)>>(
    ms: Seq<State<S, A, F>>,
    n: int,
    vals: Seq<A>,
    ss: Seq<S>,
    a: A,
    s1: S,
)
    requires
        0 <= n < ms.len(),
        state_chain(ms, n, vals, ss),
        ms[n].runs(ss[n], a, s1),
    ensures
        state_chain(ms, n + 1, vals.push(a), ss.push(s1)),
{
    let vals2 = vals.push(a);
    let ss2 = ss.push(s1);
    assert forall|i: int| #![trigger vals2[i]] 0 <= i < n + 1 implies ms[i].runs(ss2[i], vals2[i], ss2[i + 1]) by {
        if i < n {
            assert(vals[i] == vals2[i]);
        }
    }
}

/// Run the computations of `v` in order from `s`.
fn run_all<S, A, F: Fn(S) -> Identity<(A, S)>>(v: &Vec<State<S, A, F>>, s: S) -> (r: (Vec<A>, S))
    requires
        all_total(v@),
    ensures
        runs_all(v@, s, r.0@, r.1),
{
    let mut out: Vec<A> = Vec::new();
    let mut st = s;
    let ghost mut ss: Seq<S> = seq![s];
    let mut i: usize = 0;
    while i < v.len()
        invariant
            i <= v.len(),
            all_total(v@),
            state_chain(v@, i as int, out@, ss),
            ss[0] == s,
            ss[i as int] == st,
        decreases v.len() - i,
    {
        let ghost st0 = st;
        assert(v@[i as int].total());
        let o = (v[i].0)(st);
        let (a, s1) = o.0;
        proof {
            assert(v@[i as int].runs(st0, a, s1));
            lemma_chain_push(v@, i as int, out@, ss, a, s1);
            ss = ss.push(s1);
        }
        out.push(a);
        st = s1;
        i += 1;
    }
    (out, st)
}

/// Run a list of computations in order, collecting their values.
pub fn sequence_a<S, A, F: Fn(S) -> Identity<(A, S)>>(v: Vec<State<S, A, F>>) -> (r: State<
    S,
    Vec<A>,
    impl Fn(S) -> Identity<(Vec<A>, S)>,
>)
    requires
        all_total(v@),
    ensures
        r.total(),
        forall|s: S, xs: Vec<A>, s2: S| #[trigger] r.runs(s, xs, s2) ==> runs_all(v@, s, xs@, s2),
{
    let h = move |s: S| -> (o: Identity<(Vec<A>, S)>)
        ensures
            runs_all(v@, s, o.0.0@, o.0.1),
        {
            Identity(run_all(&v, s))
        };
    StateT(h, PhantomData)
}

impl<S, A, F: Fn(S) -> Identity<(A, S)>> StateT<S, Identity<(A, S)>, F> {
    /// Run the computation `n` times in a row, collecting its values.
    pub fn replicate_m(self, n: usize) -> (r: State<S, Vec<A>, impl Fn(S) -> Identity<(Vec<A>, S)>>)
        requires
            self.total(),
        ensures
            r.total(),
            forall|s: S, xs: Vec<A>, s2: S| #[trigger] r.runs(s, xs, s2) ==> runs_all(
                Seq::new(n as nat, |_i: int| self),
                s,
                xs@,
                s2,
            ),
    {
        let h = move |s: S| -> (o: Identity<(Vec<A>, S)>)
            ensures
                runs_all(Seq::new(n as nat, |_i: int| *&self), s, o.0.0@, o.0.1),
            {
                Identity(self.run_n(n, s))
            };
        StateT(h, PhantomData)
    }

    /// Run the computation `n` times from `s`.
    fn run_n(&self, n: usize, s: S) -> (r: (Vec<A>, S))
        requires
            self.total(),
        ensures
            runs_all(Seq::new(n as nat, |_i: int| *self), s, r.0@, r.1),
    {
        let ghost ms = Seq::new(n as nat, |_i: int| *self);
        let mut out: Vec<A> = Vec::new();
        let mut st = s;
        let ghost mut ss: Seq<S> = seq![s];
        let mut i: usize = 0;
        while i < n
            invariant
                i <= n,
                self.total(),
                ms == Seq::new(n as nat, |_i: int| *self),
                state_chain(ms, i as int, out@, ss),
                ss[0] == s,
                ss[i as int] == st,
            decreases n - i,
        {
            let ghost st0 = st;
            let o = (self.0)(st);
            let (a, s1) = o.0;
            proof {
                assert(ms[i as int] == *self);
                lemma_chain_push(ms, i as int, out@, ss, a, s1);
                ss = ss.push(s1);
            }
            out.push(a);
            st = s1;
            i += 1;
        }
        assert(state_chain(ms, ms.len() as int, out@, ss));
        (out, st)
    }
}

/// Run `k` on each element of `v` in order from `s`.
fn run_map<S, T: Copy, B, G: Fn(S) -> Identity<(B, S)>, K: Fn(T) -> State<S, B, G>>(
    v: &Vec<T>,
    k: &K,
    s: S,
) -> (r: (Vec<B>, S))
    requires
        total1(*k),
        forall|t: T, n: State<S, B, G>| #[trigger] call_ensures(*k, (t,), n) ==> n.total(),
    ensures
        exists|ms: Seq<State<S, B, G>>| #[trigger] made_by(*k, v@, ms) && runs_all(ms, s, r.0@, r.1),
{
    let ghost mut ms: Seq<State<S, B, G>> = Seq::empty();
    let mut out: Vec<B> = Vec::new();
    let mut st = s;
    let ghost mut ss: Seq<S> = seq![s];
    let mut i: usize = 0;
    while i < v.len()
        invariant
            i <= v.len(),
            total1(*k),
            forall|t: T, n: State<S, B, G>| #[trigger] call_ensures(*k, (t,), n) ==> n.total(),
            made_by(*k, v@.take(i as int), ms),
            state_chain(ms, i as int, out@, ss),
            ss[0] == s,
            ss[i as int] == st,
        decreases v.len() - i,
    {
        let ghost st0 = st;
        let x = v[i];
        let n = k(x);
        let o = (n.0)(st);
        let (b, s1) = o.0;
        proof {
            let ms2 = ms.push(n);
            assert(state_chain(ms2, i as int, out@, ss)) by {
                assert forall|j: int| #![trigger out@[j]] 0 <= j < i implies ms2[j].runs(ss[j], out@[j], ss[j + 1]) by {
                    assert(ms2[j] == ms[j]);
                }
            }
            assert(ms2[i as int] == n);
            lemma_chain_push(ms2, i as int, out@, ss, b, s1);
            assert(made_by(*k, v@.take(i + 1), ms2)) by {
                assert forall|j: int| #![trigger ms2[j]] 0 <= j < i + 1 implies call_ensures(*k, (v@.take(i + 1)[j],), ms2[j]) by {
                    if j < i {
                        assert(ms2[j] == ms[j]);
                        assert(v@.take(i + 1)[j] == v@.take(i as int)[j]);
                    }
                }
            }
            ms = ms2;
            ss = ss.push(s1);
        }
        out.push(b);
        st = s1;
        i += 1;
    }
    assert(v@.take(v.len() as int) =~= v@);
    (out, st)
}

/// Map each element of a list to a computation with `k`, and run them in order,
/// collecting their values.
pub fn map_m<S, T: Copy, B, G: Fn(S) -> Identity<(B, S)>, K: Fn(T) -> State<S, B, G>>(
    v: Vec<T>,
    k: K,
) -> (r: State<S, Vec<B>, impl Fn(S) -> Identity<(Vec<B>, S)>>)
    requires
        total1(k),
        forall|t: T, n: State<S, B, G>| #[trigger] call_ensures(k, (t,), n) ==> n.total(),
    ensures
        r.total(),
        forall|s: S, xs: Vec<B>, s2: S| #[trigger] r.runs(s, xs, s2) ==> exists|ms: Seq<State<S, B, G>>|
            #[trigger] made_by(k, v@, ms) && runs_all(ms, s, xs@, s2),
{
    let h = move |s: S| -> (o: Identity<(Vec<B>, S)>)
        ensures
            exists|ms: Seq<State<S, B, G>>| #[trigger] made_by(*&k, v@, ms) && runs_all(ms, s, o.0.0@, o.0.1),
        {
            Identity(run_map(&v, &k, s))
        };
    StateT(h, PhantomData)
}

/// Map each element of a list to a computation with `k`, and run them in order, keeping
/// only the final state.
pub fn map_m_<S, T: Copy, B, G: Fn(S) -> Identity<(B, S)>, K: Fn(T) -> State<S, B, G>>(
    v: Vec<T>,
    k: K,
) -> (r: State<S, (), impl Fn(S) -> Identity<((), S)>>)
    requires
        total1(k),
        forall|t: T, n: State<S, B, G>| #[trigger] call_ensures(k, (t,), n) ==> n.total(),
    ensures
        r.total(),
        forall|s: S, u: (), s2: S| #[trigger] r.runs(s, u, s2) ==> exists|ms: Seq<State<S, B, G>>, vals: Seq<B>|
            #![trigger made_by(k, v@, ms), runs_all(ms, s, vals, s2)]
            made_by(k, v@, ms) && runs_all(ms, s, vals, s2),
{
    let h = move |s: S| -> (o: Identity<((), S)>)
        ensures
            exists|ms: Seq<State<S, B, G>>, vals: Seq<B>|
                #![trigger made_by(*&k, v@, ms), runs_all(ms, s, vals, o.0.1)]
                made_by(*&k, v@, ms) && runs_all(ms, s, vals, o.0.1),
        {
            let (vals, s2) = run_map(&v, &k, s);
            let o = Identity(((), s2));
            proof {
                let ms = choose|ms: Seq<State<S, B, G>>| #[trigger] made_by(*&k, v@, ms) && runs_all(ms, s, vals@, s2);
                assert(made_by(*&k, v@, ms) && runs_all(ms, s, vals@, o.0.1));
            }
            o
        };
    StateT(h, PhantomData)
}

/// Map each element of a list to a computation of a flag with `p`, run them in order, and
/// keep the elements whose flag is `true`.
pub fn filter_m<S, T: Copy, G: Fn(S) -> Identity<(bool, S)>, P: Fn(T) -> State<S, bool, G>>(
    v: Vec<T>,
    p: P,
) -> (r: State<S, Vec<T>, impl Fn(S) -> Identity<(Vec<T>, S)>>)
    requires
        total1(p),
        forall|t: T, n: State<S, bool, G>| #[trigger] call_ensures(p, (t,), n) ==> n.total(),
    ensures
        r.total(),
        forall|s: S, xs: Vec<T>, s2: S| #[trigger] r.runs(s, xs, s2) ==> exists|
            ms: Seq<State<S, bool, G>>,
            flags: Seq<bool>,
        |
            #![trigger made_by(p, v@, ms), runs_all(ms, s, flags, s2)]
            made_by(p, v@, ms) && runs_all(ms, s, flags, s2) && xs@ == filter_by(v@, flags),
{
    let h = move |s: S| -> (o: Identity<(Vec<T>, S)>)
        ensures
            exists|ms: Seq<State<S, bool, G>>, flags: Seq<bool>|
                #![trigger made_by(*&p, v@, ms), runs_all(ms, s, flags, o.0.1)]
                made_by(*&p, v@, ms) && runs_all(ms, s, flags, o.0.1) && o.0.0@ == filter_by(v@, flags),
        {
            let (flags, s2) = run_map(&v, &p, s);
            let kept = keep_flagged(&v, &flags);
            let o = Identity((kept, s2));
            proof {
                let ms = choose|ms: Seq<State<S, bool, G>>| #[trigger] made_by(*&p, v@, ms) && runs_all(ms, s, flags@, s2);
                assert(made_by(*&p, v@, ms) && runs_all(ms, s, flags@, o.0.1));
            }
            o
        };
    StateT(h, PhantomData)
}

/// The elements of `v` whose flag in `flags` is `true`.
fn keep_flagged<T: Copy>(v: &Vec<T>, flags: &Vec<bool>) -> (r: Vec<T>)
    requires
        flags.len() == v.len(),
    ensures
        r@ == filter_by(v@, flags@),
{
    let mut out: Vec<T> = Vec::new();
    let mut i: usize = 0;
    while i < v.len()
        invariant
            i <= v.len(),
            flags.len() == v.len(),
            out@ == filter_by(v@.take(i as int), flags@.take(i as int)),
        decreases v.len() - i,
    {
        proof {
            assert(v@.take(i + 1).drop_last() =~= v@.take(i as int));
            assert(flags@.take(i + 1).drop_last() =~= flags@.take(i as int));
        }
        if flags[i] {
            out.push(v[i]);
        }
        i += 1;
    }
    assert(v@.take(v.len() as int) =~= v@);
    assert(flags@.take(v.len() as int) =~= flags@);
    out
}

/// Fold `v` from `z` with `k` in order from `s`.
fn run_fold<S, T: Copy, B: Copy, G: Fn(S) -> Identity<(B, S)>, K: Fn(B, T) -> State<S, B, G>>(
    v: &Vec<T>,
    k: &K,
    z: B,
    s: S,
) -> (r: (B, S))
    requires
        total2(*k),
        forall|b: B, t: T, n: State<S, B, G>| #[trigger] call_ensures(*k, (b, t), n) ==> n.total(),
    ensures
        exists|ms: Seq<State<S, B, G>>, accs: Seq<B>, ss: Seq<S>|
            #[trigger] fold_chain(*k, v@, z, ms, accs, ss) && ss[0] == s && accs[v.len() as int] == r.0
                && ss[v.len() as int] == r.1,
{
    let ghost mut ms: Seq<State<S, B, G>> = Seq::empty();
    let ghost mut accs: Seq<B> = seq![z];
    let ghost mut ss: Seq<S> = seq![s];
    let mut acc = z;
    let mut st = s;
    let mut i: usize = 0;
    while i < v.len()
        invariant
            i <= v.len(),
            total2(*k),
            forall|b: B, t: T, n: State<S, B, G>| #[trigger] call_ensures(*k, (b, t), n) ==> n.total(),
            fold_chain(*k, v@.take(i as int), z, ms, accs, ss),
            ss[0] == s,
            accs[i as int] == acc,
            ss[i as int] == st,
        decreases v.len() - i,
    {
        let x = v[i];
        let n = k(acc, x);
        let o = (n.0)(st);
        let (b, s1) = o.0;
        proof {
            let ms2 = ms.push(n);
            let accs2 = accs.push(b);
            let ss2 = ss.push(s1);
            let xs2 = v@.take(i + 1);
            assert forall|j: int| #![trigger ms2[j]] 0 <= j < i + 1 implies call_ensures(
                *k,
                (accs2[j], xs2[j]),
                ms2[j],
            ) && ms2[j].runs(ss2[j], accs2[j + 1], ss2[j + 1]) by {
                if j < i {
                    assert(ms2[j] == ms[j]);
                    assert(xs2[j] == v@.take(i as int)[j]);
                }
            }
            assert(fold_chain(*k, xs2, z, ms2, accs2, ss2));
            ms = ms2;
            accs = accs2;
            ss = ss2;
        }
        acc = b;
        st = s1;
        i += 1;
    }
    assert(v@.take(v.len() as int) =~= v@);
    (acc, st)
}

/// Fold a list from `z` with `k`, running the computation that `k` gives on the
/// accumulator and each element in order; the value is the final accumulator.
pub fn fold_m<S, T: Copy, B: Copy, G: Fn(S) -> Identity<(B, S)>, K: Fn(B, T) -> State<S, B, G>>(
    v: Vec<T>,
    k: K,
    z: B,
) -> (r: State<S, B, impl Fn(S) -> Identity<(B, S)>>)
    requires
        total2(k),
        forall|b: B, t: T, n: State<S, B, G>| #[trigger] call_ensures(k, (b, t), n) ==> n.total(),
    ensures
        r.total(),
        forall|s: S, b: B, s2: S| #[trigger] r.runs(s, b, s2) ==> exists|
            ms: Seq<State<S, B, G>>,
            accs: Seq<B>,
            ss: Seq<S>,
        |
            #[trigger] fold_chain(k, v@, z, ms, accs, ss) && ss[0] == s && accs[v.len() as int] == b
                && ss[v.len() as int] == s2,
{
    let h = move |s: S| -> (o: Identity<(B, S)>)
        ensures
            exists|ms: Seq<State<S, B, G>>, accs: Seq<B>, ss: Seq<S>|
                #[trigger] fold_chain(*&k, v@, z, ms, accs, ss) && ss[0] == s && accs[v.len() as int]
                    == o.0.0 && ss[v.len() as int] == o.0.1,
        {
            Identity(run_fold(&v, &k, z, s))
        };
    StateT(h, PhantomData)
}

} // verus!
