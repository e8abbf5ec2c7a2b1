use vstd::prelude::*;

use crate::base::data::monoid::{models, Monoid, concat_model};
use crate::base::data::pointed::Pointed;
use crate::base::data::semigroup::Semigroup;

verus! {

impl Pointed for () {
    type Pointed = ();
}

impl Semigroup for () {
    type Model = ();

    open spec fn model(&self) -> () {
        ()
    }

    open spec fn combine(a: (), b: ()) -> () {
        ()
    }

    open spec fn combinable(a: (), b: ()) -> bool {
        true
    }

    fn assoc_s(self, a: Self) -> (r: Self) {
        a
    }

    proof fn lemma_assoc(a: (), b: (), c: ()) {
    }
}

impl Monoid for () {
    open spec fn empty_model() -> () {
        ()
    }

    open spec fn mconcat_ok(s: Seq<()>) -> bool {
        true
    }

    fn mempty() -> (r: Self) {
    }

    fn mconcat(list: Vec<Self>) -> (r: Self) {
    }

    proof fn lemma_identity(a: ()) {
    }
}

} // verus!
