//! Arrays, with the classes of lists.
//!
//! Each operation moves the elements into a `Vec`, works there, and moves them back into
//! an array of the same length, so its specification is that of the same operation on `Vec`.

use vstd::prelude::*;

use crate::base::data::functor::{total1, AppA, Foldable, Functor, PureA};
use crate::base::data::pointed::Pointed;
use crate::base::data::with_pointed::WithPointed;

verus! {

/// `Vec::from` on an array: a list of the elements of `a`, in order.
#[verifier::external_body]
fn array_to_vec<T, const N: usize>(a: [T; N]) -> (r: Vec<T>)
    ensures
        r@ == a@,
{
    Vec::from(a)
}

/// `<[T; N]>::try_from` on a `Vec`: an array of its elements when it has exactly `N`
/// of them, and nothing otherwise.
#[verifier::external_body]
fn vec_to_array<T, const N: usize>(v: Vec<T>) -> (r: Option<[T; N]>)
    ensures
        match r {
            Some(a) => v@.len() == N && a@ == v@,
            None => v@.len() != N,
        },
{
    <[T; N]>::try_from(v).ok()
}

impl<T, const N: usize> Pointed for [T; N] {
    type Pointed = T;
}

impl<T, U, const N: usize> WithPointed<U> for [T; N] {
    type WithPointed = [U; N];
}

impl<T, U, const N: usize> Functor<U> for [T; N] {
    type Mapped = [U; N];

    open spec fn fmapped(x: [T; N], rel: spec_fn(T, U) -> bool, y: [U; N]) -> bool {
        forall|i: int| 0 <= i < N ==> #[trigger] rel(x@[i], y@[i])
    }

    fn fmap<F: Fn(T) -> U>(self, f: F) -> (r: [U; N]) {
        let v = array_to_vec(self);
        let w = v.fmap(f);
        let a = vec_to_array::<U, N>(w);
        a.unwrap()
    }
}

impl<T> PureA for [T; 1] {
    open spec fn pure_of(t: T, r: [T; 1]) -> bool {
        r@ == seq![t]
    }

    fn pure_a(t: T) -> (r: [T; 1]) {
        let r = [t];
        assert(r@ =~= seq![t]);
        r
    }
}

impl<F, A, B, const N: usize> AppA<A, B> for [F; N] where F: Fn(A) -> B {
    type WithA = [A; N];

    type WithB = [B; N];

    open spec fn app_ok(f: [F; N]) -> bool {
        forall|i: int| 0 <= i < N ==> total1(#[trigger] f@[i])
    }

    /// The functions are applied to the arguments at the same places.
    open spec fn applied(f: [F; N], a: [A; N], r: [B; N]) -> bool {
        forall|i: int| 0 <= i < N ==> call_ensures(f@[i], (a@[i],), #[trigger] r@[i])
    }

    fn app_a(self, a: [A; N]) -> (r: [B; N]) {
        let fs = array_to_vec(self);
        let xs = array_to_vec(a);
        let ys = fs.app_a(xs);
        let r = vec_to_array::<B, N>(ys);
        r.unwrap()
    }
}

impl<T, const N: usize> Foldable for [T; N] {
    open spec fn elements(x: [T; N]) -> Seq<T> {
        x@
    }

    open spec fn elements_l(x: [T; N]) -> Seq<T> {
        x@
    }

    fn foldr<U, F: Fn(T, U) -> U>(self, f: F, z: U) -> (r: U) {
        array_to_vec(self).foldr(f, z)
    }

    fn foldl<U, F: Fn(U, T) -> U>(self, f: F, z: U) -> (r: U) {
        array_to_vec(self).foldl(f, z)
    }
}


/// Folds of an array take its elements from the first to the last, as the array holds them.
pub proof fn lemma_array_fold_order<T, const N: usize>(v: [T; N])
    ensures
        <[T; N] as Foldable>::elements(v) == v@,
        <[T; N] as Foldable>::elements_l(v) == v@,
        <[T; N] as Foldable>::order_known(),
{
}

} // verus!
