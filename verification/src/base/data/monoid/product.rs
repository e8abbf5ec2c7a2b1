use vstd::prelude::*;

use crate::base::data::monoid::{
    concat_model, foldl_combinable, foldl_model, lemma_foldl_concat,
    lemma_foldl_skip, models, Monoid,
};
use crate::base::data::functor::{total1, AppA, ChainM, Functor, PureA};
use crate::base::data::pointed::Pointed;
use crate::base::data::semigroup::Semigroup;
use crate::base::data::with_pointed::WithPointed;

verus! {

/// Monoid under multiplication.
#[derive(Debug, Default, Copy, Clone, PartialEq, Eq, PartialOrd, Ord, Hash)]
pub struct Product<T>(pub T);

impl<T> Product<T> {
    /// The wrapped number.
    pub fn get(self) -> (r: T)
        ensures
            r == self.0,
    {
        self.0
    }
}

impl<T> Pointed for Product<T> {
    type Pointed = T;
}

impl<T, U> WithPointed<U> for Product<T> {
    type WithPointed = Product<U>;
}

impl<T, U> Functor<U> for Product<T> {
    type Mapped = Product<U>;

    open spec fn fmapped(x: Product<T>, rel: spec_fn(T, U) -> bool, y: Product<U>) -> bool {
        rel(x.0, y.0)
    }

    fn fmap<F: Fn(T) -> U>(self, f: F) -> (r: Product<U>) {
        Product(f(self.0))
    }
}

impl<T> PureA for Product<T> {
    open spec fn pure_of(t: T, r: Product<T>) -> bool {
        r.0 == t
    }

    fn pure_a(t: T) -> (r: Product<T>) {
        Product(t)
    }
}

impl<F, A, B> AppA<A, B> for Product<F> where F: Fn(A) -> B {
    type WithA = Product<A>;

    type WithB = Product<B>;

    open spec fn app_ok(f: Product<F>) -> bool {
        total1(f.0)
    }

    open spec fn applied(f: Product<F>, a: Product<A>, r: Product<B>) -> bool {
        call_ensures(f.0, (a.0,), r.0)
    }

    fn app_a(self, a: Product<A>) -> (r: Product<B>) {
        Product((self.0)(a.0))
    }
}

impl<T, U> ChainM<U> for Product<T> {
    type Chained = Product<U>;

    open spec fn chained(x: Product<T>, rel: spec_fn(T, Product<U>) -> bool, y: Product<U>) -> bool {
        rel(x.0, y)
    }

    fn chain_m<F: Fn(T) -> Product<U>>(self, f: F) -> (r: Product<U>) {
        f(self.0)
    }
}

impl Semigroup for Product<u8> {
    type Model = u8;

    open spec fn model(&self) -> u8 {
        self.0
    }

    open spec fn combine(a: u8, b: u8) -> u8 {
        ((a * b) % 0x100int) as u8
    }

    open spec fn combinable(a: u8, b: u8) -> bool {
        a * b <= u8::MAX
    }

    fn assoc_s(self, a: Self) -> (r: Self) {
        proof {
            vstd::arithmetic::div_mod::lemma_small_mod((self.0 * a.0) as nat, 0x100int as nat);
        }
        Product(self.get() * a.get())
    }

    proof fn lemma_assoc(a: u8, b: u8, c: u8) {
        vstd::arithmetic::div_mod::lemma_mul_mod_noop_right(a as int, b * c, 0x100int);
        vstd::arithmetic::div_mod::lemma_mul_mod_noop_left(a * b, c as int, 0x100int);
        vstd::arithmetic::mul::lemma_mul_is_associative(a as int, b as int, c as int);
    }
}

impl Monoid for Product<u8> {
    open spec fn empty_model() -> u8 {
        1
    }

    open spec fn mconcat_ok(s: Seq<u8>) -> bool {
        foldl_combinable::<Self>(s, 1u8)
    }

    fn mempty() -> (r: Self) {
        Product(1)
    }

    fn mconcat(list: Vec<Self>) -> (r: Self) {
        let ghost all = models(list@);
        let mut acc = Self::mempty();
        let mut i: usize = 0;
        proof {
            assert(all.skip(0) =~= all);
        }
        while i < list.len()
            invariant
                i <= list.len(),
                all == models(list@),
                foldl_model::<Self>(all, 1u8) == foldl_model::<Self>(all.skip(i as int), acc.model()),
                foldl_combinable::<Self>(all.skip(i as int), acc.model()),
            decreases list.len() - i,
        {
            proof {
                lemma_foldl_skip::<Self>(all, i as int, acc.model());
            }
            acc = acc.assoc_s(list[i]);
            i = i + 1;
        }
        proof {
            assert(all.skip(i as int) =~= Seq::<u8>::empty());
            assert forall|a: u8| #[trigger] Self::combine(a, 1u8) == a by {
                vstd::arithmetic::div_mod::lemma_small_mod(a as nat, 0x100int as nat);
            }
            lemma_foldl_concat::<Self>(all, 1u8, 1u8);
            vstd::arithmetic::div_mod::lemma_small_mod(concat_model::<Self>(all, 1u8) as nat, 0x100int as nat);
        }
        acc
    }

    proof fn lemma_identity(a: u8) {
        vstd::arithmetic::div_mod::lemma_small_mod(a as nat, 0x100int as nat);
    }
}

impl Semigroup for Product<u16> {
    type Model = u16;

    open spec fn model(&self) -> u16 {
        self.0
    }

    open spec fn combine(a: u16, b: u16) -> u16 {
        ((a * b) % 0x10000int) as u16
    }

    open spec fn combinable(a: u16, b: u16) -> bool {
        a * b <= u16::MAX
    }

    fn assoc_s(self, a: Self) -> (r: Self) {
        proof {
            vstd::arithmetic::div_mod::lemma_small_mod((self.0 * a.0) as nat, 0x10000int as nat);
        }
        Product(self.get() * a.get())
    }

    proof fn lemma_assoc(a: u16, b: u16, c: u16) {
        vstd::arithmetic::div_mod::lemma_mul_mod_noop_right(a as int, b * c, 0x10000int);
        vstd::arithmetic::div_mod::lemma_mul_mod_noop_left(a * b, c as int, 0x10000int);
        vstd::arithmetic::mul::lemma_mul_is_associative(a as int, b as int, c as int);
    }
}

impl Monoid for Product<u16> {
    open spec fn empty_model() -> u16 {
        1
    }

    open spec fn mconcat_ok(s: Seq<u16>) -> bool {
        foldl_combinable::<Self>(s, 1u16)
    }

    fn mempty() -> (r: Self) {
        Product(1)
    }

    fn mconcat(list: Vec<Self>) -> (r: Self) {
        let ghost all = models(list@);
        let mut acc = Self::mempty();
        let mut i: usize = 0;
        proof {
            assert(all.skip(0) =~= all);
        }
        while i < list.len()
            invariant
                i <= list.len(),
                all == models(list@),
                foldl_model::<Self>(all, 1u16) == foldl_model::<Self>(all.skip(i as int), acc.model()),
                foldl_combinable::<Self>(all.skip(i as int), acc.model()),
            decreases list.len() - i,
        {
            proof {
                lemma_foldl_skip::<Self>(all, i as int, acc.model());
            }
            acc = acc.assoc_s(list[i]);
            i = i + 1;
        }
        proof {
            assert(all.skip(i as int) =~= Seq::<u16>::empty());
            assert forall|a: u16| #[trigger] Self::combine(a, 1u16) == a by {
                vstd::arithmetic::div_mod::lemma_small_mod(a as nat, 0x10000int as nat);
            }
            lemma_foldl_concat::<Self>(all, 1u16, 1u16);
            vstd::arithmetic::div_mod::lemma_small_mod(concat_model::<Self>(all, 1u16) as nat, 0x10000int as nat);
        }
        acc
    }

    proof fn lemma_identity(a: u16) {
        vstd::arithmetic::div_mod::lemma_small_mod(a as nat, 0x10000int as nat);
    }
}

impl Semigroup for Product<u32> {
    type Model = u32;

    open spec fn model(&self) -> u32 {
        self.0
    }

    open spec fn combine(a: u32, b: u32) -> u32 {
        ((a * b) % 0x1_0000_0000int) as u32
    }

    open spec fn combinable(a: u32, b: u32) -> bool {
        a * b <= u32::MAX
    }

    fn assoc_s(self, a: Self) -> (r: Self) {
        proof {
            vstd::arithmetic::div_mod::lemma_small_mod((self.0 * a.0) as nat, 0x1_0000_0000int as nat);
        }
        Product(self.get() * a.get())
    }

    proof fn lemma_assoc(a: u32, b: u32, c: u32) {
        vstd::arithmetic::div_mod::lemma_mul_mod_noop_right(a as int, b * c, 0x1_0000_0000int);
        vstd::arithmetic::div_mod::lemma_mul_mod_noop_left(a * b, c as int, 0x1_0000_0000int);
        vstd::arithmetic::mul::lemma_mul_is_associative(a as int, b as int, c as int);
    }
}

impl Monoid for Product<u32> {
    open spec fn empty_model() -> u32 {
        1
    }

    open spec fn mconcat_ok(s: Seq<u32>) -> bool {
        foldl_combinable::<Self>(s, 1u32)
    }

    fn mempty() -> (r: Self) {
        Product(1)
    }

    fn mconcat(list: Vec<Self>) -> (r: Self) {
        let ghost all = models(list@);
        let mut acc = Self::mempty();
        let mut i: usize = 0;
        proof {
            assert(all.skip(0) =~= all);
        }
        while i < list.len()
            invariant
                i <= list.len(),
                all == models(list@),
                foldl_model::<Self>(all, 1u32) == foldl_model::<Self>(all.skip(i as int), acc.model()),
                foldl_combinable::<Self>(all.skip(i as int), acc.model()),
            decreases list.len() - i,
        {
            proof {
                lemma_foldl_skip::<Self>(all, i as int, acc.model());
            }
            acc = acc.assoc_s(list[i]);
            i = i + 1;
        }
        proof {
            assert(all.skip(i as int) =~= Seq::<u32>::empty());
            assert forall|a: u32| #[trigger] Self::combine(a, 1u32) == a by {
                vstd::arithmetic::div_mod::lemma_small_mod(a as nat, 0x1_0000_0000int as nat);
            }
            lemma_foldl_concat::<Self>(all, 1u32, 1u32);
            vstd::arithmetic::div_mod::lemma_small_mod(concat_model::<Self>(all, 1u32) as nat, 0x1_0000_0000int as nat);
        }
        acc
    }

    proof fn lemma_identity(a: u32) {
        vstd::arithmetic::div_mod::lemma_small_mod(a as nat, 0x1_0000_0000int as nat);
    }
}

impl Semigroup for Product<u64> {
    type Model = u64;

    open spec fn model(&self) -> u64 {
        self.0
    }

    open spec fn combine(a: u64, b: u64) -> u64 {
        ((a * b) % 0x1_0000_0000_0000_0000int) as u64
    }

    open spec fn combinable(a: u64, b: u64) -> bool {
        a * b <= u64::MAX
    }

    fn assoc_s(self, a: Self) -> (r: Self) {
        proof {
            vstd::arithmetic::div_mod::lemma_small_mod((self.0 * a.0) as nat, 0x1_0000_0000_0000_0000int as nat);
        }
        Product(self.get() * a.get())
    }

    proof fn lemma_assoc(a: u64, b: u64, c: u64) {
        vstd::arithmetic::div_mod::lemma_mul_mod_noop_right(a as int, b * c, 0x1_0000_0000_0000_0000int);
        vstd::arithmetic::div_mod::lemma_mul_mod_noop_left(a * b, c as int, 0x1_0000_0000_0000_0000int);
        vstd::arithmetic::mul::lemma_mul_is_associative(a as int, b as int, c as int);
    }
}

impl Monoid for Product<u64> {
    open spec fn empty_model() -> u64 {
        1
    }

    open spec fn mconcat_ok(s: Seq<u64>) -> bool {
        foldl_combinable::<Self>(s, 1u64)
    }

    fn mempty() -> (r: Self) {
        Product(1)
    }

    fn mconcat(list: Vec<Self>) -> (r: Self) {
        let ghost all = models(list@);
        let mut acc = Self::mempty();
        let mut i: usize = 0;
        proof {
            assert(all.skip(0) =~= all);
        }
        while i < list.len()
            invariant
                i <= list.len(),
                all == models(list@),
                foldl_model::<Self>(all, 1u64) == foldl_model::<Self>(all.skip(i as int), acc.model()),
                foldl_combinable::<Self>(all.skip(i as int), acc.model()),
            decreases list.len() - i,
        {
            proof {
                lemma_foldl_skip::<Self>(all, i as int, acc.model());
            }
            acc = acc.assoc_s(list[i]);
            i = i + 1;
        }
        proof {
            assert(all.skip(i as int) =~= Seq::<u64>::empty());
            assert forall|a: u64| #[trigger] Self::combine(a, 1u64) == a by {
                vstd::arithmetic::div_mod::lemma_small_mod(a as nat, 0x1_0000_0000_0000_0000int as nat);
            }
            lemma_foldl_concat::<Self>(all, 1u64, 1u64);
            vstd::arithmetic::div_mod::lemma_small_mod(concat_model::<Self>(all, 1u64) as nat, 0x1_0000_0000_0000_0000int as nat);
        }
        acc
    }

    proof fn lemma_identity(a: u64) {
        vstd::arithmetic::div_mod::lemma_small_mod(a as nat, 0x1_0000_0000_0000_0000int as nat);
    }
}

impl Semigroup for Product<u128> {
    type Model = u128;

    open spec fn model(&self) -> u128 {
        self.0
    }

    open spec fn combine(a: u128, b: u128) -> u128 {
        ((a * b) % 0x1_0000_0000_0000_0000_0000_0000_0000_0000int) as u128
    }

    open spec fn combinable(a: u128, b: u128) -> bool {
        a * b <= u128::MAX
    }

    fn assoc_s(self, a: Self) -> (r: Self) {
        proof {
            vstd::arithmetic::div_mod::lemma_small_mod((self.0 * a.0) as nat, 0x1_0000_0000_0000_0000_0000_0000_0000_0000int as nat);
        }
        Product(self.get() * a.get())
    }

    proof fn lemma_assoc(a: u128, b: u128, c: u128) {
        vstd::arithmetic::div_mod::lemma_mul_mod_noop_right(a as int, b * c, 0x1_0000_0000_0000_0000_0000_0000_0000_0000int);
        vstd::arithmetic::div_mod::lemma_mul_mod_noop_left(a * b, c as int, 0x1_0000_0000_0000_0000_0000_0000_0000_0000int);
        vstd::arithmetic::mul::lemma_mul_is_associative(a as int, b as int, c as int);
    }
}

impl Monoid for Product<u128> {
    open spec fn empty_model() -> u128 {
        1
    }

    open spec fn mconcat_ok(s: Seq<u128>) -> bool {
        foldl_combinable::<Self>(s, 1u128)
    }

    fn mempty() -> (r: Self) {
        Product(1)
    }

    fn mconcat(list: Vec<Self>) -> (r: Self) {
        let ghost all = models(list@);
        let mut acc = Self::mempty();
        let mut i: usize = 0;
        proof {
            assert(all.skip(0) =~= all);
        }
        while i < list.len()
            invariant
                i <= list.len(),
                all == models(list@),
                foldl_model::<Self>(all, 1u128) == foldl_model::<Self>(all.skip(i as int), acc.model()),
                foldl_combinable::<Self>(all.skip(i as int), acc.model()),
            decreases list.len() - i,
        {
            proof {
                lemma_foldl_skip::<Self>(all, i as int, acc.model());
            }
            acc = acc.assoc_s(list[i]);
            i = i + 1;
        }
        proof {
            assert(all.skip(i as int) =~= Seq::<u128>::empty());
            assert forall|a: u128| #[trigger] Self::combine(a, 1u128) == a by {
                vstd::arithmetic::div_mod::lemma_small_mod(a as nat, 0x1_0000_0000_0000_0000_0000_0000_0000_0000int as nat);
            }
            lemma_foldl_concat::<Self>(all, 1u128, 1u128);
            vstd::arithmetic::div_mod::lemma_small_mod(concat_model::<Self>(all, 1u128) as nat, 0x1_0000_0000_0000_0000_0000_0000_0000_0000int as nat);
        }
        acc
    }

    proof fn lemma_identity(a: u128) {
        vstd::arithmetic::div_mod::lemma_small_mod(a as nat, 0x1_0000_0000_0000_0000_0000_0000_0000_0000int as nat);
    }
}

impl Semigroup for Product<usize> {
    type Model = usize;

    open spec fn model(&self) -> usize {
        self.0
    }

    open spec fn combine(a: usize, b: usize) -> usize {
        ((a * b) % (usize::MAX as int + 1)) as usize
    }

    open spec fn combinable(a: usize, b: usize) -> bool {
        a * b <= usize::MAX
    }

    fn assoc_s(self, a: Self) -> (r: Self) {
        proof {
            vstd::arithmetic::div_mod::lemma_small_mod((self.0 * a.0) as nat, (usize::MAX as int + 1) as nat);
        }
        Product(self.get() * a.get())
    }

    proof fn lemma_assoc(a: usize, b: usize, c: usize) {
        vstd::arithmetic::div_mod::lemma_mul_mod_noop_right(a as int, b * c, (usize::MAX as int + 1));
        vstd::arithmetic::div_mod::lemma_mul_mod_noop_left(a * b, c as int, (usize::MAX as int + 1));
        vstd::arithmetic::mul::lemma_mul_is_associative(a as int, b as int, c as int);
    }
}

impl Monoid for Product<usize> {
    open spec fn empty_model() -> usize {
        1
    }

    open spec fn mconcat_ok(s: Seq<usize>) -> bool {
        foldl_combinable::<Self>(s, 1usize)
    }

    fn mempty() -> (r: Self) {
        Product(1)
    }

    fn mconcat(list: Vec<Self>) -> (r: Self) {
        let ghost all = models(list@);
        let mut acc = Self::mempty();
        let mut i: usize = 0;
        proof {
            assert(all.skip(0) =~= all);
        }
        while i < list.len()
            invariant
                i <= list.len(),
                all == models(list@),
                foldl_model::<Self>(all, 1usize) == foldl_model::<Self>(all.skip(i as int), acc.model()),
                foldl_combinable::<Self>(all.skip(i as int), acc.model()),
            decreases list.len() - i,
        {
            proof {
                lemma_foldl_skip::<Self>(all, i as int, acc.model());
            }
            acc = acc.assoc_s(list[i]);
            i = i + 1;
        }
        proof {
            assert(all.skip(i as int) =~= Seq::<usize>::empty());
            assert forall|a: usize| #[trigger] Self::combine(a, 1usize) == a by {
                vstd::arithmetic::div_mod::lemma_small_mod(a as nat, (usize::MAX as int + 1) as nat);
            }
            lemma_foldl_concat::<Self>(all, 1usize, 1usize);
            vstd::arithmetic::div_mod::lemma_small_mod(concat_model::<Self>(all, 1usize) as nat, (usize::MAX as int + 1) as nat);
        }
        acc
    }

    proof fn lemma_identity(a: usize) {
        vstd::arithmetic::div_mod::lemma_small_mod(a as nat, (usize::MAX as int + 1) as nat);
    }
}

/// `Product<u8>` combines by multiplication: where the result fits, `assoc_s`
/// gives `x.0 * y.0` (`r` is what `assoc_s` ensures), and the combination is defined.
pub proof fn lemma_product_u8_multiplies(x: Product<u8>, y: Product<u8>, r: Product<u8>)
    requires
        x.0 * y.0 <= u8::MAX,
        r.model() == <Product<u8> as Semigroup>::combine(x.model(), y.model()),
    ensures
        <Product<u8> as Semigroup>::combinable(x.model(), y.model()),
        r.0 == x.0 * y.0,
{
    vstd::arithmetic::mul::lemma_mul_nonnegative(x.0 as int, y.0 as int);
    vstd::arithmetic::div_mod::lemma_small_mod((x.0 * y.0) as nat, (u8::MAX as int + 1) as nat);
}

/// The empty value of `Product<u8>` is `1`: `r` is what `mempty` ensures.
pub proof fn lemma_product_u8_empty(r: Product<u8>)
    requires
        r.model() == <Product<u8> as Monoid>::empty_model(),
    ensures
        r.0 == 1,
{
}

/// `Product<u16>` combines by multiplication: where the result fits, `assoc_s`
/// gives `x.0 * y.0` (`r` is what `assoc_s` ensures), and the combination is defined.
pub proof fn lemma_product_u16_multiplies(x: Product<u16>, y: Product<u16>, r: Product<u16>)
    requires
        x.0 * y.0 <= u16::MAX,
        r.model() == <Product<u16> as Semigroup>::combine(x.model(), y.model()),
    ensures
        <Product<u16> as Semigroup>::combinable(x.model(), y.model()),
        r.0 == x.0 * y.0,
{
    vstd::arithmetic::mul::lemma_mul_nonnegative(x.0 as int, y.0 as int);
    vstd::arithmetic::div_mod::lemma_small_mod((x.0 * y.0) as nat, (u16::MAX as int + 1) as nat);
}

/// The empty value of `Product<u16>` is `1`: `r` is what `mempty` ensures.
pub proof fn lemma_product_u16_empty(r: Product<u16>)
    requires
        r.model() == <Product<u16> as Monoid>::empty_model(),
    ensures
        r.0 == 1,
{
}

/// `Product<u32>` combines by multiplication: where the result fits, `assoc_s`
/// gives `x.0 * y.0` (`r` is what `assoc_s` ensures), and the combination is defined.
pub proof fn lemma_product_u32_multiplies(x: Product<u32>, y: Product<u32>, r: Product<u32>)
    requires
        x.0 * y.0 <= u32::MAX,
        r.model() == <Product<u32> as Semigroup>::combine(x.model(), y.model()),
    ensures
        <Product<u32> as Semigroup>::combinable(x.model(), y.model()),
        r.0 == x.0 * y.0,
{
    vstd::arithmetic::mul::lemma_mul_nonnegative(x.0 as int, y.0 as int);
    vstd::arithmetic::div_mod::lemma_small_mod((x.0 * y.0) as nat, (u32::MAX as int + 1) as nat);
}

/// The empty value of `Product<u32>` is `1`: `r` is what `mempty` ensures.
pub proof fn lemma_product_u32_empty(r: Product<u32>)
    requires
        r.model() == <Product<u32> as Monoid>::empty_model(),
    ensures
        r.0 == 1,
{
}

/// `Product<u64>` combines by multiplication: where the result fits, `assoc_s`
/// gives `x.0 * y.0` (`r` is what `assoc_s` ensures), and the combination is defined.
pub proof fn lemma_product_u64_multiplies(x: Product<u64>, y: Product<u64>, r: Product<u64>)
    requires
        x.0 * y.0 <= u64::MAX,
        r.model() == <Product<u64> as Semigroup>::combine(x.model(), y.model()),
    ensures
        <Product<u64> as Semigroup>::combinable(x.model(), y.model()),
        r.0 == x.0 * y.0,
{
    vstd::arithmetic::mul::lemma_mul_nonnegative(x.0 as int, y.0 as int);
    vstd::arithmetic::div_mod::lemma_small_mod((x.0 * y.0) as nat, (u64::MAX as int + 1) as nat);
}

/// The empty value of `Product<u64>` is `1`: `r` is what `mempty` ensures.
pub proof fn lemma_product_u64_empty(r: Product<u64>)
    requires
        r.model() == <Product<u64> as Monoid>::empty_model(),
    ensures
        r.0 == 1,
{
}

/// `Product<u128>` combines by multiplication: where the result fits, `assoc_s`
/// gives `x.0 * y.0` (`r` is what `assoc_s` ensures), and the combination is defined.
pub proof fn lemma_product_u128_multiplies(x: Product<u128>, y: Product<u128>, r: Product<u128>)
    requires
        x.0 * y.0 <= u128::MAX,
        r.model() == <Product<u128> as Semigroup>::combine(x.model(), y.model()),
    ensures
        <Product<u128> as Semigroup>::combinable(x.model(), y.model()),
        r.0 == x.0 * y.0,
{
    vstd::arithmetic::mul::lemma_mul_nonnegative(x.0 as int, y.0 as int);
    vstd::arithmetic::div_mod::lemma_small_mod((x.0 * y.0) as nat, (u128::MAX as int + 1) as nat);
}

/// The empty value of `Product<u128>` is `1`: `r` is what `mempty` ensures.
pub proof fn lemma_product_u128_empty(r: Product<u128>)
    requires
        r.model() == <Product<u128> as Monoid>::empty_model(),
    ensures
        r.0 == 1,
{
}

/// `Product<usize>` combines by multiplication: where the result fits, `assoc_s`
/// gives `x.0 * y.0` (`r` is what `assoc_s` ensures), and the combination is defined.
pub proof fn lemma_product_usize_multiplies(x: Product<usize>, y: Product<usize>, r: Product<usize>)
    requires
        x.0 * y.0 <= usize::MAX,
        r.model() == <Product<usize> as Semigroup>::combine(x.model(), y.model()),
    ensures
        <Product<usize> as Semigroup>::combinable(x.model(), y.model()),
        r.0 == x.0 * y.0,
{
    vstd::arithmetic::mul::lemma_mul_nonnegative(x.0 as int, y.0 as int);
    vstd::arithmetic::div_mod::lemma_small_mod((x.0 * y.0) as nat, (usize::MAX as int + 1) as nat);
}

/// The empty value of `Product<usize>` is `1`: `r` is what `mempty` ensures.
pub proof fn lemma_product_usize_empty(r: Product<usize>)
    requires
        r.model() == <Product<usize> as Monoid>::empty_model(),
    ensures
        r.0 == 1,
{
}

} // verus!
