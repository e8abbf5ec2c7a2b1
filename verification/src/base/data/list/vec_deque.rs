//! Double-ended queues, with the classes of lists.
//!
//! Each operation moves the elements into a `Vec`, works there, and moves them back,
//! so its specification is that of the same operation on `Vec`.

use std::collections::VecDeque;

use vstd::prelude::*;

use crate::base::data::functor::{ensures1, AppA, ChainM, Foldable, Functor, PureA};
use crate::base::data::list::vec::views;
use crate::base::data::monoid::{concat_model, models, Monoid};
use crate::base::data::pointed::Pointed;
use crate::base::data::semigroup::Semigroup;
use crate::base::data::traversable::{all_some, unwrap_all, SequenceA, TraverseT};

verus! {

/// Add an item at the back of a double-ended queue.
pub fn push_back<T>(t: T, deque: VecDeque<T>) -> (r: VecDeque<T>)
    ensures
        r@ == deque@.push(t),
{
    let mut deque = deque;
    deque.push_back(t);
    deque
}

/// Add an item at the front of a double-ended queue.
pub fn push_front<T>(t: T, deque: VecDeque<T>) -> (r: VecDeque<T>)
    ensures
        r@ == seq![t] + deque@,
{
    let mut deque = deque;
    deque.push_front(t);
    deque
}

/// The elements of a queue, front first, in a `Vec`.
pub fn to_vec<T>(d: VecDeque<T>) -> (r: Vec<T>)
    ensures
        r@ == d@,
{
    let ghost s = d@;
    let mut d = d;
    let mut out: Vec<T> = Vec::new();
    while d.len() > 0
        invariant
            out@ + d@ == s,
        decreases d@.len(),
    {
        let ghost before = d@;
        let x = d.pop_front().unwrap();
        proof {
            assert(out@.push(x) + d@ =~= out@ + before);
        }
        out.push(x);
    }
    assert(out@ + d@ =~= out@);
    out
}

/// A queue of the elements of a `Vec`, the first at the front.
pub fn from_vec<T>(v: Vec<T>) -> (r: VecDeque<T>)
    ensures
        r@ == v@,
{
    let ghost s = v@;
    let mut d: VecDeque<T> = VecDeque::new();
    for x in it: v
        invariant
            s == it.seq(),
            d@ == s.take(it.index() as int),
    {
        let ghost i = it.index() as int;
        d.push_back(x);
        proof {
            assert(s.take(i + 1) =~= s.take(i).push(x));
        }
    }
    assert(s.take(s.len() as int) =~= s);
    d
}

impl<T> Pointed for VecDeque<T> {
    type Pointed = T;
}

impl<T, U> Functor<U> for VecDeque<T> {
    type Mapped = VecDeque<U>;

    open spec fn fmapped(x: VecDeque<T>, rel: spec_fn(T, U) -> bool, y: VecDeque<U>) -> bool {
        &&& y@.len() == x@.len()
        &&& forall|i: int| 0 <= i < x@.len() ==> #[trigger] rel(x@[i], y@[i])
    }

    fn fmap<F: Fn(T) -> U>(self, f: F) -> (r: VecDeque<U>) {
        let v = to_vec(self);
        let w = v.fmap(f);
        from_vec(w)
    }
}

impl<T> PureA for VecDeque<T> {
    open spec fn pure_of(t: T, r: VecDeque<T>) -> bool {
        r@ == seq![t]
    }

    fn pure_a(t: T) -> (r: VecDeque<T>) {
        let mut d = VecDeque::new();
        d.push_back(t);
        d
    }
}

impl<F, A, B> AppA<A, B> for VecDeque<F> where F: Fn(A) -> B {
    type WithA = VecDeque<A>;

    type WithB = VecDeque<B>;

    open spec fn app_ok(f: VecDeque<F>) -> bool {
        forall|i: int| 0 <= i < f@.len() ==> crate::base::data::functor::total1(#[trigger] f@[i])
    }

    /// The functions are applied to the arguments at the same places; the longer of the
    /// two queues is cut to the length of the shorter.
    open spec fn applied(f: VecDeque<F>, a: VecDeque<A>, r: VecDeque<B>) -> bool {
        &&& r@.len() == if f@.len() <= a@.len() { f@.len() } else { a@.len() }
        &&& forall|i: int| 0 <= i < r@.len() ==> call_ensures(f@[i], (a@[i],), #[trigger] r@[i])
    }

    fn app_a(self, a: VecDeque<A>) -> (r: VecDeque<B>) {
        let fs = to_vec(self);
        let xs = to_vec(a);
        let ys = fs.app_a(xs);
        from_vec(ys)
    }
}

impl<T, U> ChainM<U> for VecDeque<T> {
    type Chained = VecDeque<U>;

    /// The queues that the function gives on each element, concatenated in order.
    open spec fn chained(x: VecDeque<T>, rel: spec_fn(T, VecDeque<U>) -> bool, y: VecDeque<U>) -> bool {
        exists|parts: Seq<VecDeque<U>>|
            {
                &&& parts.len() == x@.len()
                &&& forall|i: int| 0 <= i < x@.len() ==> #[trigger] rel(x@[i], parts[i])
                &&& y@ == #[trigger] deque_views(parts).flatten()
            }
    }

    fn chain_m<F: Fn(T) -> VecDeque<U>>(self, f: F) -> (r: VecDeque<U>) {
        let v = to_vec(self);
        let g = |t: T| -> (w: Vec<U>)
            ensures
                exists|q: VecDeque<U>| #[trigger] call_ensures(*&f, (t,), q) && q@ == w@,
            {
                let q = f(t);
                let ghost q0 = q;
                let w = to_vec(q);
                assert(call_ensures(*&f, (t,), q0) && q0@ == w@);
                w
            };
        let ghost v0 = v;
        let ghost s = v@;
        let w = v.chain_m(g);
        proof {
            assert(<Vec<T> as ChainM<U>>::chained(v0, ensures1(g), w));
            let parts = choose|parts: Seq<Vec<U>>|
                {
                    &&& parts.len() == v0@.len()
                    &&& forall|i: int| 0 <= i < v0@.len() ==> #[trigger] ensures1(g)(v0@[i], parts[i])
                    &&& w@ == #[trigger] views(parts).flatten()
                };
            let dq = Seq::new(
                s.len(),
                |i: int| choose|q: VecDeque<U>| #[trigger] call_ensures(f, (s[i],), q) && q@ == parts[i]@,
            );
            assert forall|i: int| 0 <= i < s.len() implies #[trigger] call_ensures(f, (s[i],), dq[i]) && dq[i]@ == parts[i]@ by {
                assert(ensures1(g)(v0@[i], parts[i]));
                assert(call_ensures(g, (s[i],), parts[i]));
            }
            assert forall|i: int| 0 <= i < s.len() implies deque_views(dq)[i] == views(parts)[i] by {
                assert(call_ensures(f, (s[i],), dq[i]) && dq[i]@ == parts[i]@);
            }
            assert(deque_views(dq) =~= views(parts));
            assert(forall|i: int| 0 <= i < s.len() ==> #[trigger] call_ensures(f, (s[i],), dq[i]));
        }
        from_vec(w)
    }
}

impl<T> Foldable for VecDeque<T> {
    open spec fn elements(x: VecDeque<T>) -> Seq<T> {
        x@
    }

    open spec fn elements_l(x: VecDeque<T>) -> Seq<T> {
        x@
    }

    fn foldr<U, F: Fn(T, U) -> U>(self, f: F, z: U) -> (r: U) {
        to_vec(self).foldr(f, z)
    }

    fn foldl<U, F: Fn(U, T) -> U>(self, f: F, z: U) -> (r: U) {
        to_vec(self).foldl(f, z)
    }
}

impl<T> Semigroup for VecDeque<T> {
    type Model = Seq<T>;

    open spec fn model(&self) -> Seq<T> {
        self@
    }

    open spec fn combine(a: Seq<T>, b: Seq<T>) -> Seq<T> {
        a + b
    }

    open spec fn combinable(a: Seq<T>, b: Seq<T>) -> bool {
        true
    }

    fn assoc_s(self, a: Self) -> (r: Self) {
        let mut this = self;
        let mut a = a;
        this.append(&mut a);
        this
    }

    proof fn lemma_assoc(a: Seq<T>, b: Seq<T>, c: Seq<T>) {
        assert(a + (b + c) =~= (a + b) + c);
    }
}

impl<T> Monoid for VecDeque<T> {
    open spec fn empty_model() -> Seq<T> {
        Seq::empty()
    }

    open spec fn mconcat_ok(s: Seq<Seq<T>>) -> bool {
        true
    }

    fn mempty() -> (r: Self) {
        VecDeque::new()
    }

    fn mconcat(list: Vec<Self>) -> (r: Self) {
        let ghost all = models(list@);
        let mut out: VecDeque<T> = VecDeque::new();
        let mut vs: Vec<Vec<T>> = Vec::new();
        for x in it: list
            invariant
                all == models(it.seq()),
                vs@.len() == it.index(),
                forall|j: int| 0 <= j < it.index() ==> #[trigger] vs@[j]@ == all[j],
        {
            vs.push(to_vec(x));
        }
        proof {
            assert(models(vs@) =~= all);
        }
        let flat = Vec::<T>::mconcat(vs);
        proof {
            assert(concat_model::<Vec<T>>(all, Seq::empty()) == concat_model::<VecDeque<T>>(all, Seq::empty())) by {
                lemma_same_concat::<T>(all);
            }
        }
        from_vec(flat)
    }

    proof fn lemma_identity(a: Seq<T>) {
        assert(Seq::<T>::empty() + a =~= a);
        assert(a + Seq::<T>::empty() =~= a);
    }
}

/// The views of a list of queues.
pub open spec fn deque_views<U>(qs: Seq<VecDeque<U>>) -> Seq<Seq<U>> {
    qs.map_values(|q: VecDeque<U>| q@)
}

/// Concatenation of models is the same for `Vec` and `VecDeque`.
proof fn lemma_same_concat<T>(s: Seq<Seq<T>>)
    ensures
        concat_model::<Vec<T>>(s, Seq::empty()) == concat_model::<VecDeque<T>>(s, Seq::empty()),
    decreases s.len(),
{
    if s.len() > 0 {
        lemma_same_concat::<T>(s.drop_first());
    }
}

impl<T> SequenceA<Option<VecDeque<T>>> for VecDeque<Option<T>> {
    /// As for a `Vec`: the values, in order, if every element is present, and `None`
    /// otherwise.
    open spec fn sequenced(x: VecDeque<Option<T>>, r: Option<VecDeque<T>>) -> bool {
        if all_some(x@) {
            r matches Some(v) && v@ == unwrap_all(x@)
        } else {
            r is None
        }
    }

    fn sequence_a(self) -> (r: Option<VecDeque<T>>) {
        match to_vec(self).sequence_a() {
            Some(v) => Some(from_vec(v)),
            None => None,
        }
    }
}

impl<T, U> TraverseT<T, Option<U>, Option<VecDeque<U>>> for VecDeque<T> {
    /// As for a `Vec`: the actions run from the front while they give values; the result
    /// is the values in order, or `None` once an action gives `None`.
    open spec fn traversed(x: VecDeque<T>, rel: spec_fn(T, Option<U>) -> bool, r: Option<VecDeque<U>>) -> bool {
        exists|results: Seq<Option<U>>|
            {
                &&& results.len() <= x@.len()
                &&& forall|i: int| 0 <= i < results.len() ==> #[trigger] rel(x@[i], results[i])
                &&& if all_some(results) && results.len() == x@.len() {
                    r matches Some(v) && v@ == unwrap_all(results)
                } else {
                    r is None && results.len() > 0 && results.last() is None
                }
            }
    }

    fn traverse_t<F: Fn(T) -> Option<U>>(self, f: F) -> (r: Option<VecDeque<U>>) {
        let ghost d = self@;
        let v = to_vec(self);
        let rv = v.traverse_t(f);
        let ghost rel = |a: T, m: Option<U>| call_ensures(f, (a,), m);
        let r = match rv {
            Some(w) => Some(from_vec(w)),
            None => None,
        };
        proof {
            let results = choose|results: Seq<Option<U>>|
                {
                    &&& results.len() <= v@.len()
                    &&& forall|i: int| 0 <= i < results.len() ==> #[trigger] rel(v@[i], results[i])
                    &&& if all_some(results) && results.len() == v@.len() {
                        rv matches Some(w) && w@ == unwrap_all(results)
                    } else {
                        rv is None && results.len() > 0 && results.last() is None
                    }
                };
            assert(forall|i: int| 0 <= i < results.len() ==> #[trigger] rel(d[i], results[i]));
        }
        r
    }
}


/// Folds of a double-ended queue take its elements from the first to the last, as the queue holds them.
pub proof fn lemma_vec_deque_fold_order<T>(v: VecDeque<T>)
    ensures
        <VecDeque<T> as Foldable>::elements(v) == v@,
        <VecDeque<T> as Foldable>::elements_l(v) == v@,
        <VecDeque<T> as Foldable>::order_known(),
{
}

/// Combining two double-ended queues always succeeds and appends the second to the first; the identity is
/// empty.
pub proof fn lemma_vec_deque_assoc_s_appends<T>(x: VecDeque<T>, y: VecDeque<T>, r: VecDeque<T>)
    ensures
        <VecDeque<T> as Semigroup>::combinable(x.model(), y.model()),
        r.model() == <VecDeque<T> as Semigroup>::combine(x.model(), y.model()) ==> r@ == x@ + y@,
        r.model() == <VecDeque<T> as Monoid>::empty_model() ==> r@.len() == 0,
{
}

} // verus!
