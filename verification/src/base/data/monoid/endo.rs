use vstd::prelude::*;

use crate::base::data::functor::total1;

verus! {

/// The monoid of endomorphisms under composition.
#[derive(Debug, Default, Copy, Clone, PartialEq, Eq, PartialOrd, Ord, Hash)]
pub struct Endo<F>(pub F);

impl<F> Endo<F> {
    /// Wrap an endomorphism.
    pub fn new<A>(f: F) -> (r: Endo<F>)
        where
            F: Fn(A) -> A,
        ensures
            r.0 == f,
    {
        Endo(f)
    }

    /// The wrapped endomorphism.
    pub fn app(self) -> (r: F)
        ensures
            r == self.0,
    {
        self.0
    }

    /// Compose two endomorphisms: the result applies `self`, then `a`.
    pub fn assoc_s<A, G>(self, a: Endo<G>) -> (r: Endo<impl Fn(A) -> A>)
        where
            F: Fn(A) -> A,
            G: Fn(A) -> A,
        requires
            total1(self.0),
            total1(a.0),
        ensures
            total1(r.0),
            composes(self.0, a.0, r.0),
    {
        let f = self.app();
        let g = a.app();
        let h = move |x: A| -> (z: A)
            ensures
                exists|y: A| call_ensures(&f, (x,), y) && call_ensures(&g, (y,), z),
            {
                let y = f(x);
                g(y)
            };
        Endo(h)
    }
}

/// The identity endomorphism, the neutral element of composition.
pub fn mempty<A>() -> (r: Endo<impl Fn(A) -> A>)
    ensures
        total1(r.0),
        is_identity(r.0),
{
    let h = |x: A| -> (z: A) ensures z == x { x };
    Endo(h)
}


/// `r` applies `f` and then `g`: what `Endo(f).assoc_s(Endo(g))` ensures of its results.
pub open spec fn composes<A, F: Fn(A) -> A, G: Fn(A) -> A, R: Fn(A) -> A>(f: F, g: G, r: R) -> bool {
    forall|x: A, z: A|
        #[trigger] call_ensures(r, (x,), z) ==> exists|y: A|
            call_ensures(f, (x,), y) && call_ensures(g, (y,), z)
}

/// `i` gives back its argument: what `mempty` ensures.
pub open spec fn is_identity<A, I: Fn(A) -> A>(i: I) -> bool {
    forall|x: A, z: A| #[trigger] call_ensures(i, (x,), z) ==> z == x
}

/// Left identity of composition: composing the identity before `e` gives what `e` gives.
pub proof fn lemma_endo_left_identity<A, I: Fn(A) -> A, F: Fn(A) -> A, R: Fn(A) -> A>(i: I, e: F, r: R)
    requires
        is_identity(i),
        composes(i, e, r),
    ensures
        forall|x: A, z: A| #[trigger] call_ensures(r, (x,), z) ==> call_ensures(e, (x,), z),
{
    assert forall|x: A, z: A| #[trigger] call_ensures(r, (x,), z) implies call_ensures(e, (x,), z) by {
        let y = choose|y: A| call_ensures(i, (x,), y) && call_ensures(e, (y,), z);
        assert(call_ensures(i, (x,), y));
    }
}

/// Right identity of composition: composing the identity after `e` gives what `e` gives.
pub proof fn lemma_endo_right_identity<A, I: Fn(A) -> A, F: Fn(A) -> A, R: Fn(A) -> A>(i: I, e: F, r: R)
    requires
        is_identity(i),
        composes(e, i, r),
    ensures
        forall|x: A, z: A| #[trigger] call_ensures(r, (x,), z) ==> call_ensures(e, (x,), z),
{
    assert forall|x: A, z: A| #[trigger] call_ensures(r, (x,), z) implies call_ensures(e, (x,), z) by {
        let y = choose|y: A| call_ensures(e, (x,), y) && call_ensures(i, (y,), z);
        assert(call_ensures(i, (y,), z));
    }
}

/// `x` goes to `z` through `f`, `g` and `h` in turn.
pub open spec fn through3<A, F: Fn(A) -> A, G: Fn(A) -> A, H: Fn(A) -> A>(f: F, g: G, h: H, x: A, z: A) -> bool {
    exists|w: A, y: A|
        #![trigger call_ensures(f, (x,), w), call_ensures(g, (w,), y)]
        call_ensures(f, (x,), w) && call_ensures(g, (w,), y) && call_ensures(h, (y,), z)
}

/// Associativity of composition: `(f <> g) <> h` and `f <> (g <> h)` both take an argument
/// through `f`, `g` and `h` in turn.
pub proof fn lemma_endo_associativity<
    A,
    F: Fn(A) -> A,
    G: Fn(A) -> A,
    H: Fn(A) -> A,
    FG: Fn(A) -> A,
    GH: Fn(A) -> A,
    L: Fn(A) -> A,
    R: Fn(A) -> A,
>(f: F, g: G, h: H, fg: FG, gh: GH, l: L, r: R)
    requires
        composes(f, g, fg),
        composes(fg, h, l),
        composes(g, h, gh),
        composes(f, gh, r),
    ensures
        forall|x: A, z: A| #[trigger] call_ensures(l, (x,), z) ==> through3(f, g, h, x, z),
        forall|x: A, z: A| #[trigger] call_ensures(r, (x,), z) ==> through3(f, g, h, x, z),
{
    assert forall|x: A, z: A| #[trigger] call_ensures(l, (x,), z) implies through3(f, g, h, x, z) by {
        let y = choose|y: A| call_ensures(fg, (x,), y) && call_ensures(h, (y,), z);
        assert(call_ensures(fg, (x,), y));
        let w = choose|w: A| call_ensures(f, (x,), w) && call_ensures(g, (w,), y);
        assert(call_ensures(f, (x,), w) && call_ensures(g, (w,), y) && call_ensures(h, (y,), z));
    }
    assert forall|x: A, z: A| #[trigger] call_ensures(r, (x,), z) implies through3(f, g, h, x, z) by {
        let w = choose|w: A| call_ensures(f, (x,), w) && call_ensures(gh, (w,), z);
        assert(call_ensures(gh, (w,), z));
        let y = choose|y: A| call_ensures(g, (w,), y) && call_ensures(h, (y,), z);
        assert(call_ensures(f, (x,), w) && call_ensures(g, (w,), y) && call_ensures(h, (y,), z));
    }
}


/// Composition applies the first function, then the second: where the calls of `f` and `g`
/// compute `sf` and `sg`, every result of the composite of `Endo(f)` and `Endo(g)` on `x`
/// is `sg(sf(x))`.
pub proof fn lemma_endo_composes_in_order<A, F: Fn(A) -> A, G: Fn(A) -> A, R: Fn(A) -> A>(
    f: F,
    g: G,
    r: R,
    sf: spec_fn(A) -> A,
    sg: spec_fn(A) -> A,
)
    requires
        forall|x: A, y: A| #[trigger] call_ensures(f, (x,), y) ==> y == sf(x),
        forall|x: A, y: A| #[trigger] call_ensures(g, (x,), y) ==> y == sg(x),
        composes(f, g, r),
    ensures
        forall|x: A, z: A| #[trigger] call_ensures(r, (x,), z) ==> z == sg(sf(x)),
{
    assert forall|x: A, z: A| #[trigger] call_ensures(r, (x,), z) implies z == sg(sf(x)) by {
        let y = choose|y: A| call_ensures(f, (x,), y) && call_ensures(g, (y,), z);
        assert(call_ensures(f, (x,), y));
        assert(call_ensures(g, (y,), z));
    }
}

} // verus!
