use vstd::prelude::*;

use crate::base::data::functor::{
    ensures1, ensures2, foldl_chain, foldl_rel, foldr_chain, foldr_rel, lemma_foldl_rel_step, lemma_foldr_rel_step, total1,
    total2, Foldable, Functor,
};
use crate::base::data::monoid::{concat_combinable, concat_model, models, Monoid};
use crate::base::data::pointed::Pointed;
use crate::base::data::semigroup::Semigroup;
use crate::base::data::foldable::{mapped_by, FoldMap, Foldable1};
use crate::base::data::functor::{AppA, ChainM, PureA};

verus! {

impl<T> Pointed for Vec<T> {
    type Pointed = T;
}

impl<T> Foldable for Vec<T> {
    open spec fn elements(x: Vec<T>) -> Seq<T> {
        x@
    }

    open spec fn elements_l(x: Vec<T>) -> Seq<T> {
        Self::elements(x)
    }

    fn foldr<U, F: Fn(T, U) -> U>(self, f: F, z: U) -> (r: U) {
        let ghost s = self@;
        let mut v = self;
        let mut acc = z;
        proof {
            assert(s.skip(s.len() as int) =~= Seq::<T>::empty());
            assert(foldr_chain(s.skip(s.len() as int), ensures2(f), z, seq![z]));
        }
        while v.len() > 0
            invariant
                total2(f),
                v@ == s.take(v@.len() as int),
                v@.len() <= s.len(),
                foldr_rel(s.skip(v@.len() as int), ensures2(f), z, acc),
            decreases v.len(),
        {
            let ghost n = v@.len() as int;
            let ghost prev = acc;
            let x = v.pop().unwrap();
            acc = f(x, acc);
            proof {
                assert(s.skip(n - 1).drop_first() =~= s.skip(n));
                assert(s.skip(n - 1)[0] == x);
                assert(foldr_rel(s.skip(n - 1).drop_first(), ensures2(f), z, prev));
                assert(ensures2(f)(x, prev, acc));
                assert(v@ =~= s.take(n - 1));
                assert(v@.len() == n - 1);
                lemma_foldr_rel_step(s.skip(n - 1), ensures2(f), z, prev, acc);
            }
        }
        proof {
            assert(s.skip(0) =~= s);
        }
        acc
    }

    fn foldl<U, F: Fn(U, T) -> U>(self, f: F, z: U) -> (r: U) {
        let ghost s = self@;
        let mut acc = z;
        let mut i: usize = 0;
        proof {
            assert(s.take(0) =~= Seq::<T>::empty());
            assert(foldl_chain(s.take(0), ensures2(f), z, seq![z]));
        }
        for x in it: self
            invariant
                total2(f),
                s == it.seq(),
                foldl_rel(s.take(it.index() as int), ensures2(f), z, acc),
        {
            let ghost i = it.index() as int;
            let ghost prev = acc;
            acc = f(acc, x);
            proof {
                assert(s.take(i + 1).drop_last() =~= s.take(i));
                assert(foldl_rel(s.take(i + 1).drop_last(), ensures2(f), z, prev));
                assert(s.take(i + 1).last() == x);
                assert(ensures2(f)(prev, x, acc));
                lemma_foldl_rel_step(s.take(i + 1), ensures2(f), z, prev, acc);
            }
        }
        proof {
            assert(s.take(s.len() as int) =~= s);
        }
        acc
    }
}

impl<T, U> Functor<U> for Vec<T> {
    type Mapped = Vec<U>;

    open spec fn fmapped(x: Vec<T>, rel: spec_fn(T, U) -> bool, y: Vec<U>) -> bool {
        &&& y@.len() == x@.len()
        &&& forall|i: int| 0 <= i < x@.len() ==> #[trigger] rel(x@[i], y@[i])
    }

    fn fmap<F: Fn(T) -> U>(self, f: F) -> (r: Vec<U>) {
        let ghost s = self@;
        let mut out: Vec<U> = Vec::new();
        for x in it: self
            invariant
                total1(f),
                s == it.seq(),
                out@.len() == it.index(),
                forall|i: int| 0 <= i < it.index() ==> #[trigger] call_ensures(f, (s[i],), out@[i]),
        {
            let y = f(x);
            out.push(y);
        }
        proof {
            assert forall|i: int| 0 <= i < s.len() implies #[trigger] ensures1(f)(s[i], out@[i]) by {
                assert(call_ensures(f, (s[i],), out@[i]));
            }
        }
        out
    }
}

impl<T> PureA for Vec<T> {
    open spec fn pure_of(t: T, r: Vec<T>) -> bool {
        r@ == seq![t]
    }

    fn pure_a(t: T) -> (r: Vec<T>) {
        let mut v = Vec::new();
        v.push(t);
        v
    }
}

/// The views of a list of vectors.
pub open spec fn views<U>(vs: Seq<Vec<U>>) -> Seq<Seq<U>> {
    vs.map_values(|v: Vec<U>| v@)
}

impl<T, U> ChainM<U> for Vec<T> {
    type Chained = Vec<U>;

    open spec fn chained(x: Vec<T>, rel: spec_fn(T, Vec<U>) -> bool, y: Vec<U>) -> bool {
        exists|parts: Seq<Vec<U>>|
            {
                &&& parts.len() == x@.len()
                &&& forall|i: int| 0 <= i < x@.len() ==> #[trigger] rel(x@[i], parts[i])
                &&& y@ == #[trigger] views(parts).flatten()
            }
    }

    fn chain_m<F: Fn(T) -> Vec<U>>(self, f: F) -> (r: Vec<U>) {
        let ghost s = self@;
        let ghost mut parts: Seq<Vec<U>> = Seq::empty();
        let mut out: Vec<U> = Vec::new();
        proof {
            assert(views(parts) =~= Seq::<Seq<U>>::empty());
        }
        for x in it: self
            invariant
                total1(f),
                s == it.seq(),
                parts.len() == it.index(),
                forall|i: int| 0 <= i < it.index() ==> #[trigger] call_ensures(f, (s[i],), parts[i]),
                out@ == views(parts).flatten(),
        {
            let ghost i = it.index() as int;
            let mut ys = f(x);
            proof {
                views(parts).lemma_flatten_push(ys@);
                assert(views(parts.push(ys)) =~= views(parts).push(ys@));
                parts = parts.push(ys);
            }
            out.append(&mut ys);
        }
        proof {
            assert forall|i: int| 0 <= i < s.len() implies #[trigger] ensures1(f)(s[i], parts[i]) by {
                assert(call_ensures(f, (s[i],), parts[i]));
            }
        }
        out
    }
}

impl<T> Semigroup for Vec<T> {
    type Model = Seq<T>;

    open spec fn model(&self) -> Seq<T> {
        self@
    }

    open spec fn combine(a: Seq<T>, b: Seq<T>) -> Seq<T> {
        a + b
    }

    open spec fn combinable(a: Seq<T>, b: Seq<T>) -> bool {
        true
    }

    fn assoc_s(self, a: Self) -> (r: Self) {
        let mut this = self;
        let mut a = a;
        this.append(&mut a);
        this
    }

    proof fn lemma_assoc(a: Seq<T>, b: Seq<T>, c: Seq<T>) {
        assert(a + (b + c) =~= (a + b) + c);
    }
}

impl<T> Monoid for Vec<T> {
    open spec fn empty_model() -> Seq<T> {
        Seq::empty()
    }

    open spec fn mconcat_ok(s: Seq<Seq<T>>) -> bool {
        true
    }

    fn mempty() -> (r: Self) {
        Vec::new()
    }

    fn mconcat(list: Vec<Self>) -> (r: Self) {
        let ghost all = models(list@);
        let ghost done: Seq<Seq<T>> = Seq::empty();
        let mut out: Vec<T> = Vec::new();
        for x in it: list
            invariant
                all == models(it.seq()),
                out@ == concat_model::<Vec<T>>(all.take(it.index() as int), Seq::empty()),
        {
            let ghost i = it.index() as int;
            let mut x = x;
            proof {
                lemma_concat_push::<T>(all.take(i), x@);
                assert(all.take(i + 1) =~= all.take(i).push(x@));
            }
            out.append(&mut x);
        }
        proof {
            assert(all.take(all.len() as int) =~= all);
        }
        out
    }

    proof fn lemma_identity(a: Seq<T>) {
        assert(Seq::<T>::empty() + a =~= a);
        assert(a + Seq::<T>::empty() =~= a);
    }
}

/// Concatenating one more list onto the end of a list of lists.
proof fn lemma_concat_push<T>(s: Seq<Seq<T>>, x: Seq<T>)
    ensures
        concat_model::<Vec<T>>(s.push(x), Seq::empty()) == concat_model::<Vec<T>>(s, Seq::empty())
            + x,
    decreases s.len(),
{
    let e = Seq::<T>::empty();
    let sx = s.push(x);
    if s.len() == 0 {
        assert(sx.drop_first() =~= Seq::<Seq<T>>::empty());
        assert(concat_model::<Vec<T>>(sx.drop_first(), e) == e);
        assert(concat_model::<Vec<T>>(sx, e) == x + e);
        assert(x + e =~= e + x);
    } else {
        lemma_concat_push::<T>(s.drop_first(), x);
        assert(sx.drop_first() =~= s.drop_first().push(x));
        assert(sx[0] == s[0]);
        let rest = concat_model::<Vec<T>>(s.drop_first(), e);
        assert(concat_model::<Vec<T>>(sx, e) == s[0] + (rest + x));
        assert(concat_model::<Vec<T>>(s, e) == s[0] + rest);
        assert(s[0] + (rest + x) =~= (s[0] + rest) + x);
    }
}

/// Insert an item at the front of a list.
pub fn push<T>(t: T, v: Vec<T>) -> (r: Vec<T>)
    ensures
        r@ == seq![t] + v@,
{
    let ghost before = v@;
    let mut v = v;
    v.insert(0, t);
    proof {
        assert(v@ =~= seq![t] + before);
    }
    v
}


/// Folds of a list take its elements from the first to the last, as the list holds them.
pub proof fn lemma_vec_fold_order<T>(v: Vec<T>)
    ensures
        <Vec<T> as Foldable>::elements(v) == v@,
        <Vec<T> as Foldable>::elements_l(v) == v@,
        <Vec<T> as Foldable>::order_known(),
{
}

/// Combining two lists always succeeds and appends the second to the first; the identity is
/// empty.
pub proof fn lemma_vec_assoc_s_appends<T>(x: Vec<T>, y: Vec<T>, r: Vec<T>)
    ensures
        <Vec<T> as Semigroup>::combinable(x.model(), y.model()),
        r.model() == <Vec<T> as Semigroup>::combine(x.model(), y.model()) ==> r@ == x@ + y@,
        r.model() == <Vec<T> as Monoid>::empty_model() ==> r@.len() == 0,
{
}

} // verus!

verus! {

/// The elements of `v` in reverse order.
fn reversed<T>(v: Vec<T>) -> (r: Vec<T>)
    ensures
        r@.len() == v@.len(),
        forall|j: int| #![trigger r@[j]] 0 <= j < v@.len() ==> r@[j] == v@[v@.len() - 1 - j],
{
    let ghost s = v@;
    let mut v = v;
    let mut out: Vec<T> = Vec::new();
    while v.len() > 0
        invariant
            v@ == s.take(v@.len() as int),
            v@.len() <= s.len(),
            out@.len() + v@.len() == s.len(),
            forall|j: int| #![trigger out@[j]] 0 <= j < out@.len() ==> out@[j] == s[s.len() - 1 - j],
        decreases v.len(),
    {
        let ghost n = v@.len() as int;
        let x = v.pop().unwrap();
        proof {
            assert(x == s[n - 1]);
            assert(v@ =~= s.take(n - 1));
        }
        out.push(x);
    }
    out
}

impl<F, A, B> AppA<A, B> for Vec<F> where F: Fn(A) -> B {
    type WithA = Vec<A>;

    type WithB = Vec<B>;

    open spec fn app_ok(f: Vec<F>) -> bool {
        forall|i: int| 0 <= i < f@.len() ==> total1(#[trigger] f@[i])
    }

    /// The functions are applied to the arguments at the same places; the longer of the
    /// two lists is cut to the length of the shorter.
    open spec fn applied(f: Vec<F>, a: Vec<A>, r: Vec<B>) -> bool {
        &&& r@.len() == if f@.len() <= a@.len() { f@.len() } else { a@.len() }
        &&& forall|i: int| 0 <= i < r@.len() ==> call_ensures(f@[i], (a@[i],), #[trigger] r@[i])
    }

    fn app_a(self, a: Vec<A>) -> (r: Vec<B>) {
        let ghost fs = self@;
        let ghost xs = a@;
        let n: usize = if self.len() <= a.len() { self.len() } else { a.len() };
        let mut rf = reversed(self);
        let mut ra = reversed(a);
        let mut out: Vec<B> = Vec::new();
        let mut i: usize = 0;
        while i < n
            invariant
                n <= fs.len(),
                n <= xs.len(),
                i <= n,
                rf@.len() == fs.len() - i,
                ra@.len() == xs.len() - i,
                forall|j: int| #![trigger rf@[j]] 0 <= j < rf@.len() ==> rf@[j] == fs[fs.len() - 1 - j],
                forall|j: int| #![trigger ra@[j]] 0 <= j < ra@.len() ==> ra@[j] == xs[xs.len() - 1 - j],
                forall|k: int| 0 <= k < fs.len() ==> total1(#[trigger] fs[k]),
                out@.len() == i,
                forall|k: int| 0 <= k < i ==> call_ensures(fs[k], (xs[k],), #[trigger] out@[k]),
            decreases n - i,
        {
            let ghost lf = rf@.len() as int;
            let ghost la = ra@.len() as int;
            let g = rf.pop().unwrap();
            let x = ra.pop().unwrap();
            proof {
                assert(g == fs[fs.len() - 1 - (lf - 1)]);
                assert(x == xs[xs.len() - 1 - (la - 1)]);
                assert(g == fs[i as int]);
                assert(x == xs[i as int]);
            }
            let y = g(x);
            out.push(y);
            i += 1;
        }
        out
    }
}

impl<T, U: Monoid> FoldMap<U> for Vec<T> {
    fn fold_map<F: Fn(T) -> U>(self, f: F) -> (r: U) {
        let ghost old_self = self;
        let ys = self.fmap(f);
        proof {
            assert(mapped_by(<Vec<T> as FoldMap<U>>::combined_in(old_self), ensures1(f), ys@));
        }
        U::mconcat(ys)
    }
}

impl<T> Foldable1 for Vec<T> {
    fn foldr1<F: Fn(T, T) -> T>(self, f: F) -> (r: T) {
        let ghost s = self@;
        let mut v = self;
        let first = v.remove(0);
        proof {
            assert(v@ =~= s.drop_first());
        }
        v.foldl(f, first)
    }

    fn foldl1<F: Fn(T, T) -> T>(self, f: F) -> (r: T) {
        let ghost s = self@;
        let mut v = self;
        let last = v.pop().unwrap();
        proof {
            assert(v@ =~= s.drop_last());
        }
        v.foldr(f, last)
    }
}

} // verus!
