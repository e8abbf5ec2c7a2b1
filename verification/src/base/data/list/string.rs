use vstd::prelude::*;
use vstd::string::StringExecFns;

use crate::base::data::monoid::{concat_model, models, Monoid};
use crate::base::data::pointed::Pointed;
use crate::base::data::semigroup::Semigroup;

verus! {

impl Pointed for String {
    type Pointed = char;
}

impl Semigroup for String {
    type Model = Seq<char>;

    open spec fn model(&self) -> Seq<char> {
        self@
    }

    open spec fn combine(a: Seq<char>, b: Seq<char>) -> Seq<char> {
        a + b
    }

    open spec fn combinable(a: Seq<char>, b: Seq<char>) -> bool {
        true
    }

    fn assoc_s(self, a: Self) -> (r: Self) {
        self.concat(a.as_str())
    }

    proof fn lemma_assoc(a: Seq<char>, b: Seq<char>, c: Seq<char>) {
        assert(a + (b + c) =~= (a + b) + c);
    }
}

impl Monoid for String {
    open spec fn empty_model() -> Seq<char> {
        Seq::empty()
    }

    open spec fn mconcat_ok(s: Seq<Seq<char>>) -> bool {
        true
    }

    fn mempty() -> (r: Self) {
        String::new()
    }

    fn mconcat(list: Vec<Self>) -> (r: Self) {
        let ghost all = models(list@);
        let mut out = String::new();
        for x in it: list
            invariant
                all == models(it.seq()),
                out@ == concat_model::<String>(all.take(it.index() as int), Seq::empty()),
        {
            let ghost i = it.index() as int;
            proof {
                lemma_string_concat_push(all.take(i), x@);
                assert(all.take(i + 1) =~= all.take(i).push(x@));
            }
            out.append(x.as_str());
        }
        proof {
            assert(all.take(all.len() as int) =~= all);
        }
        out
    }

    proof fn lemma_identity(a: Seq<char>) {
        assert(Seq::<char>::empty() + a =~= a);
        assert(a + Seq::<char>::empty() =~= a);
    }
}

/// Concatenating one more string onto the end of a list of strings.
proof fn lemma_string_concat_push(s: Seq<Seq<char>>, x: Seq<char>)
    ensures
        concat_model::<String>(s.push(x), Seq::empty()) == concat_model::<String>(s, Seq::empty())
            + x,
    decreases s.len(),
{
    let e = Seq::<char>::empty();
    let sx = s.push(x);
    if s.len() == 0 {
        assert(sx.drop_first() =~= Seq::<Seq<char>>::empty());
        assert(concat_model::<String>(sx.drop_first(), e) == e);
        assert(concat_model::<String>(sx, e) == x + e);
        assert(x + e =~= e + x);
    } else {
        lemma_string_concat_push(s.drop_first(), x);
        assert(sx.drop_first() =~= s.drop_first().push(x));
        assert(sx[0] == s[0]);
        let rest = concat_model::<String>(s.drop_first(), e);
        assert(concat_model::<String>(sx, e) == s[0] + (rest + x));
        assert(concat_model::<String>(s, e) == s[0] + rest);
        assert(s[0] + (rest + x) =~= (s[0] + rest) + x);
    }
}


/// Combining two strings always succeeds and appends the second to the first; the identity is
/// empty.
pub proof fn lemma_string_assoc_s_appends(x: String, y: String, r: String)
    ensures
        <String as Semigroup>::combinable(x.model(), y.model()),
        r.model() == <String as Semigroup>::combine(x.model(), y.model()) ==> r@ == x@ + y@,
        r.model() == <String as Monoid>::empty_model() ==> r@.len() == 0,
{
}

} // verus!
