use vstd::prelude::*;

use crate::base::data::monoid::{concat_combinable, mconcat_default, Monoid};
use crate::base::data::functor::{total1, AppA, ChainM, Functor, PureA};
use crate::base::data::pointed::Pointed;
use crate::base::data::semigroup::Semigroup;
use crate::base::data::with_pointed::WithPointed;

verus! {

/// Monoid under addition.
#[derive(Debug, Default, Copy, Clone, PartialEq, Eq, PartialOrd, Ord, Hash)]
pub struct Sum<T>(pub T);

impl<T> Sum<T> {
    /// The wrapped number.
    pub fn get(self) -> (r: T)
        ensures
            r == self.0,
    {
        self.0
    }
}

impl<T> Pointed for Sum<T> {
    type Pointed = T;
}

impl<T, U> WithPointed<U> for Sum<T> {
    type WithPointed = Sum<U>;
}

impl<T, U> Functor<U> for Sum<T> {
    type Mapped = Sum<U>;

    open spec fn fmapped(x: Sum<T>, rel: spec_fn(T, U) -> bool, y: Sum<U>) -> bool {
        rel(x.0, y.0)
    }

    fn fmap<F: Fn(T) -> U>(self, f: F) -> (r: Sum<U>) {
        Sum(f(self.0))
    }
}

impl<T> PureA for Sum<T> {
    open spec fn pure_of(t: T, r: Sum<T>) -> bool {
        r.0 == t
    }

    fn pure_a(t: T) -> (r: Sum<T>) {
        Sum(t)
    }
}

impl<F, A, B> AppA<A, B> for Sum<F> where F: Fn(A) -> B {
    type WithA = Sum<A>;

    type WithB = Sum<B>;

    open spec fn app_ok(f: Sum<F>) -> bool {
        total1(f.0)
    }

    open spec fn applied(f: Sum<F>, a: Sum<A>, r: Sum<B>) -> bool {
        call_ensures(f.0, (a.0,), r.0)
    }

    fn app_a(self, a: Sum<A>) -> (r: Sum<B>) {
        Sum((self.0)(a.0))
    }
}

impl<T, U> ChainM<U> for Sum<T> {
    type Chained = Sum<U>;

    open spec fn chained(x: Sum<T>, rel: spec_fn(T, Sum<U>) -> bool, y: Sum<U>) -> bool {
        rel(x.0, y)
    }

    fn chain_m<F: Fn(T) -> Sum<U>>(self, f: F) -> (r: Sum<U>) {
        f(self.0)
    }
}

impl Semigroup for Sum<u8> {
    type Model = u8;

    open spec fn model(&self) -> u8 {
        self.0
    }

    open spec fn combine(a: u8, b: u8) -> u8 {
        ((a + b) % 0x100int) as u8
    }

    open spec fn combinable(a: u8, b: u8) -> bool {
        a + b <= u8::MAX
    }

    fn assoc_s(self, a: Self) -> (r: Self) {
        proof {
            vstd::arithmetic::div_mod::lemma_small_mod((self.0 + a.0) as nat, 0x100int as nat);
        }
        Sum(self.get() + a.get())
    }

    proof fn lemma_assoc(a: u8, b: u8, c: u8) {
        vstd::arithmetic::div_mod::lemma_add_mod_noop_right(a as int, b + c, 0x100int);
        vstd::arithmetic::div_mod::lemma_add_mod_noop_right(c as int, a + b, 0x100int);
    }
}

impl Monoid for Sum<u8> {
    open spec fn empty_model() -> u8 {
        0
    }

    open spec fn mconcat_ok(s: Seq<u8>) -> bool {
        concat_combinable::<Self>(s, 0u8)
    }

    fn mempty() -> (r: Self) {
        Sum(0)
    }

    fn mconcat(list: Vec<Self>) -> (r: Self) {
        mconcat_default(list, Self::mempty())
    }

    proof fn lemma_identity(a: u8) {
        vstd::arithmetic::div_mod::lemma_small_mod(a as nat, 0x100int as nat);
    }
}

impl Semigroup for Sum<u16> {
    type Model = u16;

    open spec fn model(&self) -> u16 {
        self.0
    }

    open spec fn combine(a: u16, b: u16) -> u16 {
        ((a + b) % 0x10000int) as u16
    }

    open spec fn combinable(a: u16, b: u16) -> bool {
        a + b <= u16::MAX
    }

    fn assoc_s(self, a: Self) -> (r: Self) {
        proof {
            vstd::arithmetic::div_mod::lemma_small_mod((self.0 + a.0) as nat, 0x10000int as nat);
        }
        Sum(self.get() + a.get())
    }

    proof fn lemma_assoc(a: u16, b: u16, c: u16) {
        vstd::arithmetic::div_mod::lemma_add_mod_noop_right(a as int, b + c, 0x10000int);
        vstd::arithmetic::div_mod::lemma_add_mod_noop_right(c as int, a + b, 0x10000int);
    }
}

impl Monoid for Sum<u16> {
    open spec fn empty_model() -> u16 {
        0
    }

    open spec fn mconcat_ok(s: Seq<u16>) -> bool {
        concat_combinable::<Self>(s, 0u16)
    }

    fn mempty() -> (r: Self) {
        Sum(0)
    }

    fn mconcat(list: Vec<Self>) -> (r: Self) {
        mconcat_default(list, Self::mempty())
    }

    proof fn lemma_identity(a: u16) {
        vstd::arithmetic::div_mod::lemma_small_mod(a as nat, 0x10000int as nat);
    }
}

impl Semigroup for Sum<u32> {
    type Model = u32;

    open spec fn model(&self) -> u32 {
        self.0
    }

    open spec fn combine(a: u32, b: u32) -> u32 {
        ((a + b) % 0x1_0000_0000int) as u32
    }

    open spec fn combinable(a: u32, b: u32) -> bool {
        a + b <= u32::MAX
    }

    fn assoc_s(self, a: Self) -> (r: Self) {
        proof {
            vstd::arithmetic::div_mod::lemma_small_mod((self.0 + a.0) as nat, 0x1_0000_0000int as nat);
        }
        Sum(self.get() + a.get())
    }

    proof fn lemma_assoc(a: u32, b: u32, c: u32) {
        vstd::arithmetic::div_mod::lemma_add_mod_noop_right(a as int, b + c, 0x1_0000_0000int);
        vstd::arithmetic::div_mod::lemma_add_mod_noop_right(c as int, a + b, 0x1_0000_0000int);
    }
}

impl Monoid for Sum<u32> {
    open spec fn empty_model() -> u32 {
        0
    }

    open spec fn mconcat_ok(s: Seq<u32>) -> bool {
        concat_combinable::<Self>(s, 0u32)
    }

    fn mempty() -> (r: Self) {
        Sum(0)
    }

    fn mconcat(list: Vec<Self>) -> (r: Self) {
        mconcat_default(list, Self::mempty())
    }

    proof fn lemma_identity(a: u32) {
        vstd::arithmetic::div_mod::lemma_small_mod(a as nat, 0x1_0000_0000int as nat);
    }
}

impl Semigroup for Sum<u64> {
    type Model = u64;

    open spec fn model(&self) -> u64 {
        self.0
    }

    open spec fn combine(a: u64, b: u64) -> u64 {
        ((a + b) % 0x1_0000_0000_0000_0000int) as u64
    }

    open spec fn combinable(a: u64, b: u64) -> bool {
        a + b <= u64::MAX
    }

    fn assoc_s(self, a: Self) -> (r: Self) {
        proof {
            vstd::arithmetic::div_mod::lemma_small_mod((self.0 + a.0) as nat, 0x1_0000_0000_0000_0000int as nat);
        }
        Sum(self.get() + a.get())
    }

    proof fn lemma_assoc(a: u64, b: u64, c: u64) {
        vstd::arithmetic::div_mod::lemma_add_mod_noop_right(a as int, b + c, 0x1_0000_0000_0000_0000int);
        vstd::arithmetic::div_mod::lemma_add_mod_noop_right(c as int, a + b, 0x1_0000_0000_0000_0000int);
    }
}

impl Monoid for Sum<u64> {
    open spec fn empty_model() -> u64 {
        0
    }

    open spec fn mconcat_ok(s: Seq<u64>) -> bool {
        concat_combinable::<Self>(s, 0u64)
    }

    fn mempty() -> (r: Self) {
        Sum(0)
    }

    fn mconcat(list: Vec<Self>) -> (r: Self) {
        mconcat_default(list, Self::mempty())
    }

    proof fn lemma_identity(a: u64) {
        vstd::arithmetic::div_mod::lemma_small_mod(a as nat, 0x1_0000_0000_0000_0000int as nat);
    }
}

impl Semigroup for Sum<u128> {
    type Model = u128;

    open spec fn model(&self) -> u128 {
        self.0
    }

    open spec fn combine(a: u128, b: u128) -> u128 {
        ((a + b) % 0x1_0000_0000_0000_0000_0000_0000_0000_0000int) as u128
    }

    open spec fn combinable(a: u128, b: u128) -> bool {
        a + b <= u128::MAX
    }

    fn assoc_s(self, a: Self) -> (r: Self) {
        proof {
            vstd::arithmetic::div_mod::lemma_small_mod((self.0 + a.0) as nat, 0x1_0000_0000_0000_0000_0000_0000_0000_0000int as nat);
        }
        Sum(self.get() + a.get())
    }

    proof fn lemma_assoc(a: u128, b: u128, c: u128) {
        vstd::arithmetic::div_mod::lemma_add_mod_noop_right(a as int, b + c, 0x1_0000_0000_0000_0000_0000_0000_0000_0000int);
        vstd::arithmetic::div_mod::lemma_add_mod_noop_right(c as int, a + b, 0x1_0000_0000_0000_0000_0000_0000_0000_0000int);
    }
}

impl Monoid for Sum<u128> {
    open spec fn empty_model() -> u128 {
        0
    }

    open spec fn mconcat_ok(s: Seq<u128>) -> bool {
        concat_combinable::<Self>(s, 0u128)
    }

    fn mempty() -> (r: Self) {
        Sum(0)
    }

    fn mconcat(list: Vec<Self>) -> (r: Self) {
        mconcat_default(list, Self::mempty())
    }

    proof fn lemma_identity(a: u128) {
        vstd::arithmetic::div_mod::lemma_small_mod(a as nat, 0x1_0000_0000_0000_0000_0000_0000_0000_0000int as nat);
    }
}

impl Semigroup for Sum<usize> {
    type Model = usize;

    open spec fn model(&self) -> usize {
        self.0
    }

    open spec fn combine(a: usize, b: usize) -> usize {
        ((a + b) % (usize::MAX as int + 1)) as usize
    }

    open spec fn combinable(a: usize, b: usize) -> bool {
        a + b <= usize::MAX
    }

    fn assoc_s(self, a: Self) -> (r: Self) {
        proof {
            vstd::arithmetic::div_mod::lemma_small_mod((self.0 + a.0) as nat, (usize::MAX as int + 1) as nat);
        }
        Sum(self.get() + a.get())
    }

    proof fn lemma_assoc(a: usize, b: usize, c: usize) {
        vstd::arithmetic::div_mod::lemma_add_mod_noop_right(a as int, b + c, (usize::MAX as int + 1));
        vstd::arithmetic::div_mod::lemma_add_mod_noop_right(c as int, a + b, (usize::MAX as int + 1));
    }
}

impl Monoid for Sum<usize> {
    open spec fn empty_model() -> usize {
        0
    }

    open spec fn mconcat_ok(s: Seq<usize>) -> bool {
        concat_combinable::<Self>(s, 0usize)
    }

    fn mempty() -> (r: Self) {
        Sum(0)
    }

    fn mconcat(list: Vec<Self>) -> (r: Self) {
        mconcat_default(list, Self::mempty())
    }

    proof fn lemma_identity(a: usize) {
        vstd::arithmetic::div_mod::lemma_small_mod(a as nat, (usize::MAX as int + 1) as nat);
    }
}

/// `Sum<u8>` combines by addition: where the result fits, `assoc_s`
/// gives `x.0 + y.0` (`r` is what `assoc_s` ensures), and the combination is defined.
pub proof fn lemma_sum_u8_adds(x: Sum<u8>, y: Sum<u8>, r: Sum<u8>)
    requires
        x.0 + y.0 <= u8::MAX,
        r.model() == <Sum<u8> as Semigroup>::combine(x.model(), y.model()),
    ensures
        <Sum<u8> as Semigroup>::combinable(x.model(), y.model()),
        r.0 == x.0 + y.0,
{
    
    vstd::arithmetic::div_mod::lemma_small_mod((x.0 + y.0) as nat, (u8::MAX as int + 1) as nat);
}

/// The empty value of `Sum<u8>` is `0`: `r` is what `mempty` ensures.
pub proof fn lemma_sum_u8_empty(r: Sum<u8>)
    requires
        r.model() == <Sum<u8> as Monoid>::empty_model(),
    ensures
        r.0 == 0,
{
}

/// `Sum<u16>` combines by addition: where the result fits, `assoc_s`
/// gives `x.0 + y.0` (`r` is what `assoc_s` ensures), and the combination is defined.
pub proof fn lemma_sum_u16_adds(x: Sum<u16>, y: Sum<u16>, r: Sum<u16>)
    requires
        x.0 + y.0 <= u16::MAX,
        r.model() == <Sum<u16> as Semigroup>::combine(x.model(), y.model()),
    ensures
        <Sum<u16> as Semigroup>::combinable(x.model(), y.model()),
        r.0 == x.0 + y.0,
{
    
    vstd::arithmetic::div_mod::lemma_small_mod((x.0 + y.0) as nat, (u16::MAX as int + 1) as nat);
}

/// The empty value of `Sum<u16>` is `0`: `r` is what `mempty` ensures.
pub proof fn lemma_sum_u16_empty(r: Sum<u16>)
    requires
        r.model() == <Sum<u16> as Monoid>::empty_model(),
    ensures
        r.0 == 0,
{
}

/// `Sum<u32>` combines by addition: where the result fits, `assoc_s`
/// gives `x.0 + y.0` (`r` is what `assoc_s` ensures), and the combination is defined.
pub proof fn lemma_sum_u32_adds(x: Sum<u32>, y: Sum<u32>, r: Sum<u32>)
    requires
        x.0 + y.0 <= u32::MAX,
        r.model() == <Sum<u32> as Semigroup>::combine(x.model(), y.model()),
    ensures
        <Sum<u32> as Semigroup>::combinable(x.model(), y.model()),
        r.0 == x.0 + y.0,
{
    
    vstd::arithmetic::div_mod::lemma_small_mod((x.0 + y.0) as nat, (u32::MAX as int + 1) as nat);
}

/// The empty value of `Sum<u32>` is `0`: `r` is what `mempty` ensures.
pub proof fn lemma_sum_u32_empty(r: Sum<u32>)
    requires
        r.model() == <Sum<u32> as Monoid>::empty_model(),
    ensures
        r.0 == 0,
{
}

/// `Sum<u64>` combines by addition: where the result fits, `assoc_s`
/// gives `x.0 + y.0` (`r` is what `assoc_s` ensures), and the combination is defined.
pub proof fn lemma_sum_u64_adds(x: Sum<u64>, y: Sum<u64>, r: Sum<u64>)
    requires
        x.0 + y.0 <= u64::MAX,
        r.model() == <Sum<u64> as Semigroup>::combine(x.model(), y.model()),
    ensures
        <Sum<u64> as Semigroup>::combinable(x.model(), y.model()),
        r.0 == x.0 + y.0,
{
    
    vstd::arithmetic::div_mod::lemma_small_mod((x.0 + y.0) as nat, (u64::MAX as int + 1) as nat);
}

/// The empty value of `Sum<u64>` is `0`: `r` is what `mempty` ensures.
pub proof fn lemma_sum_u64_empty(r: Sum<u64>)
    requires
        r.model() == <Sum<u64> as Monoid>::empty_model(),
    ensures
        r.0 == 0,
{
}

/// `Sum<u128>` combines by addition: where the result fits, `assoc_s`
/// gives `x.0 + y.0` (`r` is what `assoc_s` ensures), and the combination is defined.
pub proof fn lemma_sum_u128_adds(x: Sum<u128>, y: Sum<u128>, r: Sum<u128>)
    requires
        x.0 + y.0 <= u128::MAX,
        r.model() == <Sum<u128> as Semigroup>::combine(x.model(), y.model()),
    ensures
        <Sum<u128> as Semigroup>::combinable(x.model(), y.model()),
        r.0 == x.0 + y.0,
{
    
    vstd::arithmetic::div_mod::lemma_small_mod((x.0 + y.0) as nat, (u128::MAX as int + 1) as nat);
}

/// The empty value of `Sum<u128>` is `0`: `r` is what `mempty` ensures.
pub proof fn lemma_sum_u128_empty(r: Sum<u128>)
    requires
        r.model() == <Sum<u128> as Monoid>::empty_model(),
    ensures
        r.0 == 0,
{
}

/// `Sum<usize>` combines by addition: where the result fits, `assoc_s`
/// gives `x.0 + y.0` (`r` is what `assoc_s` ensures), and the combination is defined.
pub proof fn lemma_sum_usize_adds(x: Sum<usize>, y: Sum<usize>, r: Sum<usize>)
    requires
        x.0 + y.0 <= usize::MAX,
        r.model() == <Sum<usize> as Semigroup>::combine(x.model(), y.model()),
    ensures
        <Sum<usize> as Semigroup>::combinable(x.model(), y.model()),
        r.0 == x.0 + y.0,
{
    
    vstd::arithmetic::div_mod::lemma_small_mod((x.0 + y.0) as nat, (usize::MAX as int + 1) as nat);
}

/// The empty value of `Sum<usize>` is `0`: `r` is what `mempty` ensures.
pub proof fn lemma_sum_usize_empty(r: Sum<usize>)
    requires
        r.model() == <Sum<usize> as Monoid>::empty_model(),
    ensures
        r.0 == 0,
{
}

} // verus!
