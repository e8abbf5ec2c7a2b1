//! Adding a new kind of pure computation to an applicative functor.

use vstd::prelude::*;

use crate::base::data::foldable::{mapped_by, FoldMap};
use crate::base::data::functor::{ensures1, total1, AppA, Functor, PureA};
use crate::base::data::monoid::{concat_model, models, Monoid};
use crate::base::data::pointed::Pointed;

verus! {

/// The applicative functor `FA` with pure computations added to it.
pub enum Lift<FA: Pointed> {
    /// A pure computation.
    Pure(FA::Pointed),
    /// A computation of the underlying functor.
    Other(FA),
}

/// `u` is `x` projected to the underlying functor: a pure value is lifted with `pure_a`.
pub open spec fn unlifted<FA: PureA>(x: Lift<FA>, u: FA) -> bool {
    match x {
        Lift::Pure(a) => FA::pure_of(a, u),
        Lift::Other(e) => u == e,
    }
}

impl<FA: Pointed> Lift<FA> {
    /// Projection to the underlying functor.
    pub fn unlift(self) -> (r: FA)
        where
            FA: PureA,
        ensures
            unlifted(self, r),
    {
        match self {
            Lift::Pure(x) => FA::pure_a(x),
            Lift::Other(e) => e,
        }
    }

    /// Apply a transformation to the computation of the underlying functor.
    pub fn map<FG: Pointed<Pointed = FA::Pointed>, F: Fn(FA) -> FG>(self, f: F) -> (r: Lift<FG>)
        requires
            total1(f),
        ensures
            match self {
                Lift::Pure(x) => r == Lift::<FG>::Pure(x),
                Lift::Other(e) => r matches Lift::Other(g) && call_ensures(f, (e,), g),
            },
    {
        match self {
            Lift::Pure(x) => Lift::Pure(x),
            Lift::Other(e) => Lift::Other(f(e)),
        }
    }

    /// Eliminate a `Lift`: `f` handles a pure value, `g` a computation of the functor.
    pub fn elim<R, F: Fn(FA::Pointed) -> R, G: Fn(FA) -> R>(self, f: F, g: G) -> (r: R)
        requires
            total1(f),
            total1(g),
        ensures
            match self {
                Lift::Pure(x) => call_ensures(f, (x,), r),
                Lift::Other(e) => call_ensures(g, (e,), r),
            },
    {
        match self {
            Lift::Pure(x) => f(x),
            Lift::Other(e) => g(e),
        }
    }
}

/// The points of `x` in the order in which `fold_map` combines them: a pure value alone,
/// or those of the computation of the underlying functor.
pub open spec fn lift_combined_in<FA: FoldMap<B>, B: Monoid>(x: Lift<FA>) -> Seq<FA::Pointed> {
    match x {
        Lift::Pure(a) => seq![a],
        Lift::Other(y) => FA::combined_in(y),
    }
}

impl<FA: Pointed> Lift<FA> {
    /// Map the points to a monoid with `f` and combine the results: a pure value gives
    /// `f` of it, and a computation of the underlying functor is folded there.
    pub fn fold_map<B: Monoid, F: Fn(FA::Pointed) -> B>(self, f: F) -> (r: B)
        where
            FA: FoldMap<B>,
        requires
            total1(f),
            FA::order_known(),
            forall|ys: Seq<B>| #[trigger] mapped_by(lift_combined_in::<FA, B>(self), ensures1(f), ys) ==> B::mconcat_ok(models(ys)),
        ensures
            exists|ys: Seq<B>|
                #[trigger] mapped_by(lift_combined_in::<FA, B>(self), ensures1(f), ys) && r.model() == concat_model::<B>(
                    models(ys),
                    B::empty_model(),
                ),
    {
        let ghost this = self;
        match self {
            Lift::Pure(x) => {
                let ghost x0 = x;
                let b = f(x);
                proof {
                    let ys = seq![b];
                    let ms = models(ys);
                    let e = B::empty_model();
                    assert(lift_combined_in::<FA, B>(this) == seq![x0]);
                    assert(ensures1(f)(x0, b));
                    assert(mapped_by(lift_combined_in::<FA, B>(this), ensures1(f), ys));
                    B::lemma_identity(b.model());
                    assert(ms =~= seq![b.model()]);
                    assert(ms.drop_first() =~= Seq::<B::Model>::empty());
                    assert(concat_model::<B>(ms.drop_first(), e) == e);
                    assert(concat_model::<B>(ms, e) == B::combine(ms[0], concat_model::<B>(ms.drop_first(), e)));
                    assert(concat_model::<B>(ms, e) == b.model());
                }
                b
            },
            Lift::Other(y) => {
                proof {
                    assert(lift_combined_in::<FA, B>(this) == FA::combined_in(y));
                }
                y.fold_map(f)
            },
        }
    }
}

impl<FA: Pointed> Pointed for Lift<FA> {
    type Pointed = FA::Pointed;
}

impl<FA, B, FB> Functor<B> for Lift<FA> where
    FA: Functor<B, Mapped = FB>,
    FB: Pointed<Pointed = B>,
 {
    type Mapped = Lift<FB>;

    open spec fn fmapped(x: Self, rel: spec_fn(FA::Pointed, B) -> bool, y: Lift<FB>) -> bool {
        match (x, y) {
            (Lift::Pure(a), Lift::Pure(b)) => rel(a, b),
            (Lift::Other(u), Lift::Other(v)) => FA::fmapped(u, rel, v),
            _ => false,
        }
    }

    fn fmap<F: Fn(FA::Pointed) -> B>(self, f: F) -> (r: Lift<FB>) {
        match self {
            Lift::Pure(x) => Lift::Pure(f(x)),
            Lift::Other(y) => Lift::Other(y.fmap(f)),
        }
    }
}

impl<FA: Pointed> PureA for Lift<FA> {
    open spec fn pure_of(t: FA::Pointed, r: Self) -> bool {
        r == Lift::<FA>::Pure(t)
    }

    fn pure_a(t: FA::Pointed) -> (r: Self) {
        Lift::Pure(t)
    }
}

impl<FF, F, FA, A, FB, B> AppA<A, B> for Lift<FF> where
    FF: Pointed<Pointed = F> + AppA<A, B, WithA = FA, WithB = FB>,
    FA: Pointed<Pointed = A> + PureA + Functor<B, Mapped = FB>,
    FB: Pointed<Pointed = B>,
    F: Fn(A) -> B,
 {
    type WithA = Lift<FA>;

    type WithB = Lift<FB>;

    open spec fn app_ok(f: Self) -> bool {
        match f {
            Lift::Pure(g) => total1(g),
            Lift::Other(h) => FF::app_ok(h),
        }
    }

    /// A pure function is mapped over the arguments; otherwise the arguments are projected
    /// to the underlying functor and applied there.
    open spec fn applied(f: Self, a: Lift<FA>, r: Lift<FB>) -> bool {
        match f {
            Lift::Pure(g) => <Lift<FA> as Functor<B>>::fmapped(a, ensures1(g), r),
            Lift::Other(h) => r matches Lift::Other(y) && exists|u: FA| #[trigger] unlifted(a, u) && FF::applied(h, u, y),
        }
    }

    fn app_a(self, a: Lift<FA>) -> (r: Lift<FB>) {
        match self {
            Lift::Pure(f) => a.fmap(f),
            Lift::Other(f) => {
                let u = a.unlift();
                Lift::Other(f.app_a(u))
            },
        }
    }
}

} // verus!
