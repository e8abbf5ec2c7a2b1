//! The classes of tuples of three to sixteen elements, over their last element.

use vstd::prelude::*;

use crate::base::data::functor::Functor;
use crate::base::data::pointed::Pointed;
use crate::base::data::with_kinded::{Kinded, WithKinded};
use crate::base::data::with_pointed::WithPointed;

verus! {

impl<T0, T1, T2> Pointed for (T0, T1, T2) {
    type Pointed = T2;
}

impl<T0, T1, T2, U> WithPointed<U> for (T0, T1, T2) {
    type WithPointed = (T0, T1, U);
}

impl<T0, T1, T2> Kinded for (T0, T1, T2) {
    type Kinded = T2;
}

impl<T0, T1, T2, U> WithKinded<U> for (T0, T1, T2) {
    type WithKinded = (T0, T1, U);
}

impl<T0, T1, T2, U> Functor<U> for (T0, T1, T2) {
    type Mapped = (T0, T1, U);

    /// The last element is mapped; the others are kept.
    open spec fn fmapped(x: (T0, T1, T2), rel: spec_fn(T2, U) -> bool, y: (T0, T1, U)) -> bool {
        y.0 == x.0 && y.1 == x.1 && rel(x.2, y.2)
    }

    fn fmap<F: Fn(T2) -> U>(self, f: F) -> (r: (T0, T1, U)) {
        let (x0, x1, x2) = self;
        (x0, x1, f(x2))
    }
}

impl<T0, T1, T2, T3> Pointed for (T0, T1, T2, T3) {
    type Pointed = T3;
}

impl<T0, T1, T2, T3, U> WithPointed<U> for (T0, T1, T2, T3) {
    type WithPointed = (T0, T1, T2, U);
}

impl<T0, T1, T2, T3> Kinded for (T0, T1, T2, T3) {
    type Kinded = T3;
}

impl<T0, T1, T2, T3, U> WithKinded<U> for (T0, T1, T2, T3) {
    type WithKinded = (T0, T1, T2, U);
}

impl<T0, T1, T2, T3, U> Functor<U> for (T0, T1, T2, T3) {
    type Mapped = (T0, T1, T2, U);

    /// The last element is mapped; the others are kept.
    open spec fn fmapped(x: (T0, T1, T2, T3), rel: spec_fn(T3, U) -> bool, y: (T0, T1, T2, U)) -> bool {
        y.0 == x.0 && y.1 == x.1 && y.2 == x.2 && rel(x.3, y.3)
    }

    fn fmap<F: Fn(T3) -> U>(self, f: F) -> (r: (T0, T1, T2, U)) {
        let (x0, x1, x2, x3) = self;
        (x0, x1, x2, f(x3))
    }
}

impl<T0, T1, T2, T3, T4> Pointed for (T0, T1, T2, T3, T4) {
    type Pointed = T4;
}

impl<T0, T1, T2, T3, T4, U> WithPointed<U> for (T0, T1, T2, T3, T4) {
    type WithPointed = (T0, T1, T2, T3, U);
}

impl<T0, T1, T2, T3, T4> Kinded for (T0, T1, T2, T3, T4) {
    type Kinded = T4;
}

impl<T0, T1, T2, T3, T4, U> WithKinded<U> for (T0, T1, T2, T3, T4) {
    type WithKinded = (T0, T1, T2, T3, U);
}

impl<T0, T1, T2, T3, T4, U> Functor<U> for (T0, T1, T2, T3, T4) {
    type Mapped = (T0, T1, T2, T3, U);

    /// The last element is mapped; the others are kept.
    open spec fn fmapped(x: (T0, T1, T2, T3, T4), rel: spec_fn(T4, U) -> bool, y: (T0, T1, T2, T3, U)) -> bool {
        y.0 == x.0 && y.1 == x.1 && y.2 == x.2 && y.3 == x.3 && rel(x.4, y.4)
    }

    fn fmap<F: Fn(T4) -> U>(self, f: F) -> (r: (T0, T1, T2, T3, U)) {
        let (x0, x1, x2, x3, x4) = self;
        (x0, x1, x2, x3, f(x4))
    }
}

impl<T0, T1, T2, T3, T4, T5> Pointed for (T0, T1, T2, T3, T4, T5) {
    type Pointed = T5;
}

impl<T0, T1, T2, T3, T4, T5, U> WithPointed<U> for (T0, T1, T2, T3, T4, T5) {
    type WithPointed = (T0, T1, T2, T3, T4, U);
}

impl<T0, T1, T2, T3, T4, T5> Kinded for (T0, T1, T2, T3, T4, T5) {
    type Kinded = T5;
}

impl<T0, T1, T2, T3, T4, T5, U> WithKinded<U> for (T0, T1, T2, T3, T4, T5) {
    type WithKinded = (T0, T1, T2, T3, T4, U);
}

impl<T0, T1, T2, T3, T4, T5, U> Functor<U> for (T0, T1, T2, T3, T4, T5) {
    type Mapped = (T0, T1, T2, T3, T4, U);

    /// The last element is mapped; the others are kept.
    open spec fn fmapped(x: (T0, T1, T2, T3, T4, T5), rel: spec_fn(T5, U) -> bool, y: (T0, T1, T2, T3, T4, U)) -> bool {
        y.0 == x.0 && y.1 == x.1 && y.2 == x.2 && y.3 == x.3 && y.4 == x.4 && rel(x.5, y.5)
    }

    fn fmap<F: Fn(T5) -> U>(self, f: F) -> (r: (T0, T1, T2, T3, T4, U)) {
        let (x0, x1, x2, x3, x4, x5) = self;
        (x0, x1, x2, x3, x4, f(x5))
    }
}

impl<T0, T1, T2, T3, T4, T5, T6> Pointed for (T0, T1, T2, T3, T4, T5, T6) {
    type Pointed = T6;
}

impl<T0, T1, T2, T3, T4, T5, T6, U> WithPointed<U> for (T0, T1, T2, T3, T4, T5, T6) {
    type WithPointed = (T0, T1, T2, T3, T4, T5, U);
}

impl<T0, T1, T2, T3, T4, T5, T6> Kinded for (T0, T1, T2, T3, T4, T5, T6) {
    type Kinded = T6;
}

impl<T0, T1, T2, T3, T4, T5, T6, U> WithKinded<U> for (T0, T1, T2, T3, T4, T5, T6) {
    type WithKinded = (T0, T1, T2, T3, T4, T5, U);
}

impl<T0, T1, T2, T3, T4, T5, T6, U> Functor<U> for (T0, T1, T2, T3, T4, T5, T6) {
    type Mapped = (T0, T1, T2, T3, T4, T5, U);

    /// The last element is mapped; the others are kept.
    open spec fn fmapped(x: (T0, T1, T2, T3, T4, T5, T6), rel: spec_fn(T6, U) -> bool, y: (T0, T1, T2, T3, T4, T5, U)) -> bool {
        y.0 == x.0 && y.1 == x.1 && y.2 == x.2 && y.3 == x.3 && y.4 == x.4 && y.5 == x.5 && rel(x.6, y.6)
    }

    fn fmap<F: Fn(T6) -> U>(self, f: F) -> (r: (T0, T1, T2, T3, T4, T5, U)) {
        let (x0, x1, x2, x3, x4, x5, x6) = self;
        (x0, x1, x2, x3, x4, x5, f(x6))
    }
}

impl<T0, T1, T2, T3, T4, T5, T6, T7> Pointed for (T0, T1, T2, T3, T4, T5, T6, T7) {
    type Pointed = T7;
}

impl<T0, T1, T2, T3, T4, T5, T6, T7, U> WithPointed<U> for (T0, T1, T2, T3, T4, T5, T6, T7) {
    type WithPointed = (T0, T1, T2, T3, T4, T5, T6, U);
}

impl<T0, T1, T2, T3, T4, T5, T6, T7> Kinded for (T0, T1, T2, T3, T4, T5, T6, T7) {
    type Kinded = T7;
}

impl<T0, T1, T2, T3, T4, T5, T6, T7, U> WithKinded<U> for (T0, T1, T2, T3, T4, T5, T6, T7) {
    type WithKinded = (T0, T1, T2, T3, T4, T5, T6, U);
}

impl<T0, T1, T2, T3, T4, T5, T6, T7, U> Functor<U> for (T0, T1, T2, T3, T4, T5, T6, T7) {
    type Mapped = (T0, T1, T2, T3, T4, T5, T6, U);

    /// The last element is mapped; the others are kept.
    open spec fn fmapped(x: (T0, T1, T2, T3, T4, T5, T6, T7), rel: spec_fn(T7, U) -> bool, y: (T0, T1, T2, T3, T4, T5, T6, U)) -> bool {
        y.0 == x.0 && y.1 == x.1 && y.2 == x.2 && y.3 == x.3 && y.4 == x.4 && y.5 == x.5 && y.6 == x.6 && rel(x.7, y.7)
    }

    fn fmap<F: Fn(T7) -> U>(self, f: F) -> (r: (T0, T1, T2, T3, T4, T5, T6, U)) {
        let (x0, x1, x2, x3, x4, x5, x6, x7) = self;
        (x0, x1, x2, x3, x4, x5, x6, f(x7))
    }
}

impl<T0, T1, T2, T3, T4, T5, T6, T7, T8> Pointed for (T0, T1, T2, T3, T4, T5, T6, T7, T8) {
    type Pointed = T8;
}

impl<T0, T1, T2, T3, T4, T5, T6, T7, T8, U> WithPointed<U> for (T0, T1, T2, T3, T4, T5, T6, T7, T8) {
    type WithPointed = (T0, T1, T2, T3, T4, T5, T6, T7, U);
}

impl<T0, T1, T2, T3, T4, T5, T6, T7, T8> Kinded for (T0, T1, T2, T3, T4, T5, T6, T7, T8) {
    type Kinded = T8;
}

impl<T0, T1, T2, T3, T4, T5, T6, T7, T8, U> WithKinded<U> for (T0, T1, T2, T3, T4, T5, T6, T7, T8) {
    type WithKinded = (T0, T1, T2, T3, T4, T5, T6, T7, U);
}

impl<T0, T1, T2, T3, T4, T5, T6, T7, T8, U> Functor<U> for (T0, T1, T2, T3, T4, T5, T6, T7, T8) {
    type Mapped = (T0, T1, T2, T3, T4, T5, T6, T7, U);

    /// The last element is mapped; the others are kept.
    open spec fn fmapped(x: (T0, T1, T2, T3, T4, T5, T6, T7, T8), rel: spec_fn(T8, U) -> bool, y: (T0, T1, T2, T3, T4, T5, T6, T7, U)) -> bool {
        y.0 == x.0 && y.1 == x.1 && y.2 == x.2 && y.3 == x.3 && y.4 == x.4 && y.5 == x.5 && y.6 == x.6 && y.7 == x.7 && rel(x.8, y.8)
    }

    fn fmap<F: Fn(T8) -> U>(self, f: F) -> (r: (T0, T1, T2, T3, T4, T5, T6, T7, U)) {
        let (x0, x1, x2, x3, x4, x5, x6, x7, x8) = self;
        (x0, x1, x2, x3, x4, x5, x6, x7, f(x8))
    }
}

impl<T0, T1, T2, T3, T4, T5, T6, T7, T8, T9> Pointed for (T0, T1, T2, T3, T4, T5, T6, T7, T8, T9) {
    type Pointed = T9;
}

impl<T0, T1, T2, T3, T4, T5, T6, T7, T8, T9, U> WithPointed<U> for (T0, T1, T2, T3, T4, T5, T6, T7, T8, T9) {
    type WithPointed = (T0, T1, T2, T3, T4, T5, T6, T7, T8, U);
}

impl<T0, T1, T2, T3, T4, T5, T6, T7, T8, T9> Kinded for (T0, T1, T2, T3, T4, T5, T6, T7, T8, T9) {
    type Kinded = T9;
}

impl<T0, T1, T2, T3, T4, T5, T6, T7, T8, T9, U> WithKinded<U> for (T0, T1, T2, T3, T4, T5, T6, T7, T8, T9) {
    type WithKinded = (T0, T1, T2, T3, T4, T5, T6, T7, T8, U);
}

impl<T0, T1, T2, T3, T4, T5, T6, T7, T8, T9, U> Functor<U> for (T0, T1, T2, T3, T4, T5, T6, T7, T8, T9) {
    type Mapped = (T0, T1, T2, T3, T4, T5, T6, T7, T8, U);

    /// The last element is mapped; the others are kept.
    open spec fn fmapped(x: (T0, T1, T2, T3, T4, T5, T6, T7, T8, T9), rel: spec_fn(T9, U) -> bool, y: (T0, T1, T2, T3, T4, T5, T6, T7, T8, U)) -> bool {
        y.0 == x.0 && y.1 == x.1 && y.2 == x.2 && y.3 == x.3 && y.4 == x.4 && y.5 == x.5 && y.6 == x.6 && y.7 == x.7 && y.8 == x.8 && rel(x.9, y.9)
    }

    fn fmap<F: Fn(T9) -> U>(self, f: F) -> (r: (T0, T1, T2, T3, T4, T5, T6, T7, T8, U)) {
        let (x0, x1, x2, x3, x4, x5, x6, x7, x8, x9) = self;
        (x0, x1, x2, x3, x4, x5, x6, x7, x8, f(x9))
    }
}

impl<T0, T1, T2, T3, T4, T5, T6, T7, T8, T9, T10> Pointed for (T0, T1, T2, T3, T4, T5, T6, T7, T8, T9, T10) {
    type Pointed = T10;
}

impl<T0, T1, T2, T3, T4, T5, T6, T7, T8, T9, T10, U> WithPointed<U> for (T0, T1, T2, T3, T4, T5, T6, T7, T8, T9, T10) {
    type WithPointed = (T0, T1, T2, T3, T4, T5, T6, T7, T8, T9, U);
}

impl<T0, T1, T2, T3, T4, T5, T6, T7, T8, T9, T10> Kinded for (T0, T1, T2, T3, T4, T5, T6, T7, T8, T9, T10) {
    type Kinded = T10;
}

impl<T0, T1, T2, T3, T4, T5, T6, T7, T8, T9, T10, U> WithKinded<U> for (T0, T1, T2, T3, T4, T5, T6, T7, T8, T9, T10) {
    type WithKinded = (T0, T1, T2, T3, T4, T5, T6, T7, T8, T9, U);
}

impl<T0, T1, T2, T3, T4, T5, T6, T7, T8, T9, T10, U> Functor<U> for (T0, T1, T2, T3, T4, T5, T6, T7, T8, T9, T10) {
    type Mapped = (T0, T1, T2, T3, T4, T5, T6, T7, T8, T9, U);

    /// The last element is mapped; the others are kept.
    open spec fn fmapped(x: (T0, T1, T2, T3, T4, T5, T6, T7, T8, T9, T10), rel: spec_fn(T10, U) -> bool, y: (T0, T1, T2, T3, T4, T5, T6, T7, T8, T9, U)) -> bool {
        y.0 == x.0 && y.1 == x.1 && y.2 == x.2 && y.3 == x.3 && y.4 == x.4 && y.5 == x.5 && y.6 == x.6 && y.7 == x.7 && y.8 == x.8 && y.9 == x.9 && rel(x.10, y.10)
    }

    fn fmap<F: Fn(T10) -> U>(self, f: F) -> (r: (T0, T1, T2, T3, T4, T5, T6, T7, T8, T9, U)) {
        let (x0, x1, x2, x3, x4, x5, x6, x7, x8, x9, x10) = self;
        (x0, x1, x2, x3, x4, x5, x6, x7, x8, x9, f(x10))
    }
}

impl<T0, T1, T2, T3, T4, T5, T6, T7, T8, T9, T10, T11> Pointed for (T0, T1, T2, T3, T4, T5, T6, T7, T8, T9, T10, T11) {
    type Pointed = T11;
}

impl<T0, T1, T2, T3, T4, T5, T6, T7, T8, T9, T10, T11, U> WithPointed<U> for (T0, T1, T2, T3, T4, T5, T6, T7, T8, T9, T10, T11) {
    type WithPointed = (T0, T1, T2, T3, T4, T5, T6, T7, T8, T9, T10, U);
}

impl<T0, T1, T2, T3, T4, T5, T6, T7, T8, T9, T10, T11> Kinded for (T0, T1, T2, T3, T4, T5, T6, T7, T8, T9, T10, T11) {
    type Kinded = T11;
}

impl<T0, T1, T2, T3, T4, T5, T6, T7, T8, T9, T10, T11, U> WithKinded<U> for (T0, T1, T2, T3, T4, T5, T6, T7, T8, T9, T10, T11) {
    type WithKinded = (T0, T1, T2, T3, T4, T5, T6, T7, T8, T9, T10, U);
}

impl<T0, T1, T2, T3, T4, T5, T6, T7, T8, T9, T10, T11, U> Functor<U> for (T0, T1, T2, T3, T4, T5, T6, T7, T8, T9, T10, T11) {
    type Mapped = (T0, T1, T2, T3, T4, T5, T6, T7, T8, T9, T10, U);

    /// The last element is mapped; the others are kept.
    open spec fn fmapped(x: (T0, T1, T2, T3, T4, T5, T6, T7, T8, T9, T10, T11), rel: spec_fn(T11, U) -> bool, y: (T0, T1, T2, T3, T4, T5, T6, T7, T8, T9, T10, U)) -> bool {
        y.0 == x.0 && y.1 == x.1 && y.2 == x.2 && y.3 == x.3 && y.4 == x.4 && y.5 == x.5 && y.6 == x.6 && y.7 == x.7 && y.8 == x.8 && y.9 == x.9 && y.10 == x.10 && rel(x.11, y.11)
    }

    fn fmap<F: Fn(T11) -> U>(self, f: F) -> (r: (T0, T1, T2, T3, T4, T5, T6, T7, T8, T9, T10, U)) {
        let (x0, x1, x2, x3, x4, x5, x6, x7, x8, x9, x10, x11) = self;
        (x0, x1, x2, x3, x4, x5, x6, x7, x8, x9, x10, f(x11))
    }
}

impl<T0, T1, T2, T3, T4, T5, T6, T7, T8, T9, T10, T11, T12> Pointed for (T0, T1, T2, T3, T4, T5, T6, T7, T8, T9, T10, T11, T12) {
    type Pointed = T12;
}

impl<T0, T1, T2, T3, T4, T5, T6, T7, T8, T9, T10, T11, T12, U> WithPointed<U> for (T0, T1, T2, T3, T4, T5, T6, T7, T8, T9, T10, T11, T12) {
    type WithPointed = (T0, T1, T2, T3, T4, T5, T6, T7, T8, T9, T10, T11, U);
}

impl<T0, T1, T2, T3, T4, T5, T6, T7, T8, T9, T10, T11, T12> Kinded for (T0, T1, T2, T3, T4, T5, T6, T7, T8, T9, T10, T11, T12) {
    type Kinded = T12;
}

impl<T0, T1, T2, T3, T4, T5, T6, T7, T8, T9, T10, T11, T12, U> WithKinded<U> for (T0, T1, T2, T3, T4, T5, T6, T7, T8, T9, T10, T11, T12) {
    type WithKinded = (T0, T1, T2, T3, T4, T5, T6, T7, T8, T9, T10, T11, U);
}

impl<T0, T1, T2, T3, T4, T5, T6, T7, T8, T9, T10, T11, T12, U> Functor<U> for (T0, T1, T2, T3, T4, T5, T6, T7, T8, T9, T10, T11, T12) {
    type Mapped = (T0, T1, T2, T3, T4, T5, T6, T7, T8, T9, T10, T11, U);

    /// The last element is mapped; the others are kept.
    open spec fn fmapped(x: (T0, T1, T2, T3, T4, T5, T6, T7, T8, T9, T10, T11, T12), rel: spec_fn(T12, U) -> bool, y: (T0, T1, T2, T3, T4, T5, T6, T7, T8, T9, T10, T11, U)) -> bool {
        y.0 == x.0 && y.1 == x.1 && y.2 == x.2 && y.3 == x.3 && y.4 == x.4 && y.5 == x.5 && y.6 == x.6 && y.7 == x.7 && y.8 == x.8 && y.9 == x.9 && y.10 == x.10 && y.11 == x.11 && rel(x.12, y.12)
    }

    fn fmap<F: Fn(T12) -> U>(self, f: F) -> (r: (T0, T1, T2, T3, T4, T5, T6, T7, T8, T9, T10, T11, U)) {
        let (x0, x1, x2, x3, x4, x5, x6, x7, x8, x9, x10, x11, x12) = self;
        (x0, x1, x2, x3, x4, x5, x6, x7, x8, x9, x10, x11, f(x12))
    }
}

impl<T0, T1, T2, T3, T4, T5, T6, T7, T8, T9, T10, T11, T12, T13> Pointed for (T0, T1, T2, T3, T4, T5, T6, T7, T8, T9, T10, T11, T12, T13) {
    type Pointed = T13;
}

impl<T0, T1, T2, T3, T4, T5, T6, T7, T8, T9, T10, T11, T12, T13, U> WithPointed<U> for (T0, T1, T2, T3, T4, T5, T6, T7, T8, T9, T10, T11, T12, T13) {
    type WithPointed = (T0, T1, T2, T3, T4, T5, T6, T7, T8, T9, T10, T11, T12, U);
}

impl<T0, T1, T2, T3, T4, T5, T6, T7, T8, T9, T10, T11, T12, T13> Kinded for (T0, T1, T2, T3, T4, T5, T6, T7, T8, T9, T10, T11, T12, T13) {
    type Kinded = T13;
}

impl<T0, T1, T2, T3, T4, T5, T6, T7, T8, T9, T10, T11, T12, T13, U> WithKinded<U> for (T0, T1, T2, T3, T4, T5, T6, T7, T8, T9, T10, T11, T12, T13) {
    type WithKinded = (T0, T1, T2, T3, T4, T5, T6, T7, T8, T9, T10, T11, T12, U);
}

impl<T0, T1, T2, T3, T4, T5, T6, T7, T8, T9, T10, T11, T12, T13, U> Functor<U> for (T0, T1, T2, T3, T4, T5, T6, T7, T8, T9, T10, T11, T12, T13) {
    type Mapped = (T0, T1, T2, T3, T4, T5, T6, T7, T8, T9, T10, T11, T12, U);

    /// The last element is mapped; the others are kept.
    open spec fn fmapped(x: (T0, T1, T2, T3, T4, T5, T6, T7, T8, T9, T10, T11, T12, T13), rel: spec_fn(T13, U) -> bool, y: (T0, T1, T2, T3, T4, T5, T6, T7, T8, T9, T10, T11, T12, U)) -> bool {
        y.0 == x.0 && y.1 == x.1 && y.2 == x.2 && y.3 == x.3 && y.4 == x.4 && y.5 == x.5 && y.6 == x.6 && y.7 == x.7 && y.8 == x.8 && y.9 == x.9 && y.10 == x.10 && y.11 == x.11 && y.12 == x.12 && rel(x.13, y.13)
    }

    fn fmap<F: Fn(T13) -> U>(self, f: F) -> (r: (T0, T1, T2, T3, T4, T5, T6, T7, T8, T9, T10, T11, T12, U)) {
        let (x0, x1, x2, x3, x4, x5, x6, x7, x8, x9, x10, x11, x12, x13) = self;
        (x0, x1, x2, x3, x4, x5, x6, x7, x8, x9, x10, x11, x12, f(x13))
    }
}

impl<T0, T1, T2, T3, T4, T5, T6, T7, T8, T9, T10, T11, T12, T13, T14> Pointed for (T0, T1, T2, T3, T4, T5, T6, T7, T8, T9, T10, T11, T12, T13, T14) {
    type Pointed = T14;
}

impl<T0, T1, T2, T3, T4, T5, T6, T7, T8, T9, T10, T11, T12, T13, T14, U> WithPointed<U> for (T0, T1, T2, T3, T4, T5, T6, T7, T8, T9, T10, T11, T12, T13, T14) {
    type WithPointed = (T0, T1, T2, T3, T4, T5, T6, T7, T8, T9, T10, T11, T12, T13, U);
}

impl<T0, T1, T2, T3, T4, T5, T6, T7, T8, T9, T10, T11, T12, T13, T14> Kinded for (T0, T1, T2, T3, T4, T5, T6, T7, T8, T9, T10, T11, T12, T13, T14) {
    type Kinded = T14;
}

impl<T0, T1, T2, T3, T4, T5, T6, T7, T8, T9, T10, T11, T12, T13, T14, U> WithKinded<U> for (T0, T1, T2, T3, T4, T5, T6, T7, T8, T9, T10, T11, T12, T13, T14) {
    type WithKinded = (T0, T1, T2, T3, T4, T5, T6, T7, T8, T9, T10, T11, T12, T13, U);
}

impl<T0, T1, T2, T3, T4, T5, T6, T7, T8, T9, T10, T11, T12, T13, T14, U> Functor<U> for (T0, T1, T2, T3, T4, T5, T6, T7, T8, T9, T10, T11, T12, T13, T14) {
    type Mapped = (T0, T1, T2, T3, T4, T5, T6, T7, T8, T9, T10, T11, T12, T13, U);

    /// The last element is mapped; the others are kept.
    open spec fn fmapped(x: (T0, T1, T2, T3, T4, T5, T6, T7, T8, T9, T10, T11, T12, T13, T14), rel: spec_fn(T14, U) -> bool, y: (T0, T1, T2, T3, T4, T5, T6, T7, T8, T9, T10, T11, T12, T13, U)) -> bool {
        y.0 == x.0 && y.1 == x.1 && y.2 == x.2 && y.3 == x.3 && y.4 == x.4 && y.5 == x.5 && y.6 == x.6 && y.7 == x.7 && y.8 == x.8 && y.9 == x.9 && y.10 == x.10 && y.11 == x.11 && y.12 == x.12 && y.13 == x.13 && rel(x.14, y.14)
    }

    fn fmap<F: Fn(T14) -> U>(self, f: F) -> (r: (T0, T1, T2, T3, T4, T5, T6, T7, T8, T9, T10, T11, T12, T13, U)) {
        let (x0, x1, x2, x3, x4, x5, x6, x7, x8, x9, x10, x11, x12, x13, x14) = self;
        (x0, x1, x2, x3, x4, x5, x6, x7, x8, x9, x10, x11, x12, x13, f(x14))
    }
}

impl<T0, T1, T2, T3, T4, T5, T6, T7, T8, T9, T10, T11, T12, T13, T14, T15> Pointed for (T0, T1, T2, T3, T4, T5, T6, T7, T8, T9, T10, T11, T12, T13, T14, T15) {
    type Pointed = T15;
}

impl<T0, T1, T2, T3, T4, T5, T6, T7, T8, T9, T10, T11, T12, T13, T14, T15, U> WithPointed<U> for (T0, T1, T2, T3, T4, T5, T6, T7, T8, T9, T10, T11, T12, T13, T14, T15) {
    type WithPointed = (T0, T1, T2, T3, T4, T5, T6, T7, T8, T9, T10, T11, T12, T13, T14, U);
}

impl<T0, T1, T2, T3, T4, T5, T6, T7, T8, T9, T10, T11, T12, T13, T14, T15> Kinded for (T0, T1, T2, T3, T4, T5, T6, T7, T8, T9, T10, T11, T12, T13, T14, T15) {
    type Kinded = T15;
}

impl<T0, T1, T2, T3, T4, T5, T6, T7, T8, T9, T10, T11, T12, T13, T14, T15, U> WithKinded<U> for (T0, T1, T2, T3, T4, T5, T6, T7, T8, T9, T10, T11, T12, T13, T14, T15) {
    type WithKinded = (T0, T1, T2, T3, T4, T5, T6, T7, T8, T9, T10, T11, T12, T13, T14, U);
}

impl<T0, T1, T2, T3, T4, T5, T6, T7, T8, T9, T10, T11, T12, T13, T14, T15, U> Functor<U> for (T0, T1, T2, T3, T4, T5, T6, T7, T8, T9, T10, T11, T12, T13, T14, T15) {
    type Mapped = (T0, T1, T2, T3, T4, T5, T6, T7, T8, T9, T10, T11, T12, T13, T14, U);

    /// The last element is mapped; the others are kept.
    open spec fn fmapped(x: (T0, T1, T2, T3, T4, T5, T6, T7, T8, T9, T10, T11, T12, T13, T14, T15), rel: spec_fn(T15, U) -> bool, y: (T0, T1, T2, T3, T4, T5, T6, T7, T8, T9, T10, T11, T12, T13, T14, U)) -> bool {
        y.0 == x.0 && y.1 == x.1 && y.2 == x.2 && y.3 == x.3 && y.4 == x.4 && y.5 == x.5 && y.6 == x.6 && y.7 == x.7 && y.8 == x.8 && y.9 == x.9 && y.10 == x.10 && y.11 == x.11 && y.12 == x.12 && y.13 == x.13 && y.14 == x.14 && rel(x.15, y.15)
    }

    fn fmap<F: Fn(T15) -> U>(self, f: F) -> (r: (T0, T1, T2, T3, T4, T5, T6, T7, T8, T9, T10, T11, T12, T13, T14, U)) {
        let (x0, x1, x2, x3, x4, x5, x6, x7, x8, x9, x10, x11, x12, x13, x14, x15) = self;
        (x0, x1, x2, x3, x4, x5, x6, x7, x8, x9, x10, x11, x12, x13, x14, f(x15))
    }
}

} // verus!
