use vstd::prelude::*;

verus! {

/// The elements of `s` at the positions where `keep` holds, in order.
pub open spec fn filter_by<T>(s: Seq<T>, keep: Seq<bool>) -> Seq<T>
    decreases s.len(),
{
    if s.len() == 0 {
        Seq::empty()
    } else {
        let rest = filter_by(s.drop_last(), keep.drop_last());
        if keep[s.len() - 1] {
            rest.push(s.last())
        } else {
            rest
        }
    }
}

/// `keep[i]` is the answer of the predicate `p` on `clones[i]`, a clone of `s[i]`.
pub open spec fn judged<T: Clone, P: Fn(T) -> bool>(
    s: Seq<T>,
    p: P,
    clones: Seq<T>,
    keep: Seq<bool>,
) -> bool {
    &&& keep.len() == s.len()
    &&& clones.len() == s.len()
    &&& forall|i: int|
        #![trigger clones[i]]
        0 <= i < s.len() ==> vstd::pervasive::cloned(s[i], clones[i]) && call_ensures(
            p,
            (clones[i],),
            keep[i],
        )
}

/// Keep the elements of a list that satisfy a predicate.
pub trait Filter<T: Clone>: Sized {
    /// The elements of a list.
    spec fn items(x: Self) -> Seq<T>;

    /// Keep the elements that satisfy `p`, in order: `r` holds exactly the elements
    /// on whose clones `p` answered `true`.
    fn filter<P: Fn(T) -> bool>(self, p: P) -> (r: Self)
        requires
            forall|t: T| call_requires(p, (t,)),
        ensures
            exists|clones: Seq<T>, keep: Seq<bool>| #[trigger]
                judged(Self::items(self), p, clones, keep) && Self::items(r) == filter_by(
                    Self::items(self),
                    keep,
                ),
    ;
}

impl<T: Clone> Filter<T> for Vec<T> {
    open spec fn items(x: Vec<T>) -> Seq<T> {
        x@
    }

    fn filter<P: Fn(T) -> bool>(self, p: P) -> (r: Vec<T>) {
        let ghost s = self@;
        let ghost old_self = self;
        let ghost mut keep: Seq<bool> = Seq::empty();
        let ghost mut clones: Seq<T> = Seq::empty();
        let mut acc: Vec<T> = Vec::new();
        for next in it: self
            invariant
                forall|t: T| call_requires(p, (t,)),
                s == it.seq(),
                judged(s.take(it.index() as int), p, clones, keep),
                acc@ == filter_by(s.take(it.index() as int), keep),
        {
            let ghost i = it.index() as int;
            let c = next.clone();
            let ghost cc = c;
            let b = p(c);
            proof {
                let keep2 = keep.push(b);
                let clones2 = clones.push(cc);
                let s2 = s.take(i + 1);
                assert(s2.drop_last() =~= s.take(i));
                assert(keep2.drop_last() =~= keep);
                assert(forall|j: int| 0 <= j < i ==> s2[j] == s.take(i)[j]);
                assert(call_ensures(p, (clones2[i],), keep2[i]));
                assert(s2[i] == next);
                assert(vstd::pervasive::cloned(next, cc));
                assert(vstd::pervasive::cloned(s2[i], clones2[i]));
                assert(forall|j: int| 0 <= j < i ==> clones2[j] == clones[j] && keep2[j] == keep[j]);
                assert(judged(s2, p, clones2, keep2));
                keep = keep2;
                clones = clones2;
            }
            if b {
                acc.push(next);
            }
        }
        proof {
            assert(s.take(s.len() as int) =~= s);
            assert(judged(s, p, clones, keep));
            assert(acc@ == filter_by(s, keep));
            assert(judged(<Vec<T> as Filter<T>>::items(old_self), p, clones, keep));
        }
        acc
    }
}

} // verus!
