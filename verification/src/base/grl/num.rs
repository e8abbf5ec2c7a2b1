//! Generalized numeric operations.

use vstd::prelude::*;

verus! {

/// Types with an additive identity.
pub trait Zero: Sized {
    /// The additive identity.
    spec fn zero_value() -> Self;

    /// The additive identity.
    fn zero() -> (r: Self)
        ensures
            r == Self::zero_value(),
    ;
}

/// Types with a multiplicative identity.
pub trait One: Sized {
    /// The multiplicative identity.
    spec fn one_value() -> Self;

    /// The multiplicative identity.
    fn one() -> (r: Self)
        ensures
            r == Self::one_value(),
    ;
}

/// Whether a number is even: its remainder by two is zero.
pub trait Even: Sized {
    /// Whether `self` is even.
    spec fn is_even(self) -> bool;

    /// `self % 2 == 0`.
    fn even(self) -> (r: bool)
        ensures
            r == self.is_even(),
    ;
}

/// Whether a number is odd: its remainder by two is one.
///
/// As Rust's `%` keeps the sign of the dividend, a negative number is never odd here.
pub trait Odd: Sized {
    /// Whether `self` is odd.
    spec fn is_odd(self) -> bool;

    /// `self % 2 == 1`.
    fn odd(self) -> (r: bool)
        ensures
            r == self.is_odd(),
    ;
}

impl Zero for u8 {
    open spec fn zero_value() -> u8 {
        0
    }

    fn zero() -> (r: u8) {
        0
    }
}

impl One for u8 {
    open spec fn one_value() -> u8 {
        1
    }

    fn one() -> (r: u8) {
        1
    }
}

impl Even for u8 {
    open spec fn is_even(self) -> bool {
        self % 2 == 0
    }

    fn even(self) -> (r: bool) {
        self % 2 == 0
    }
}

impl Odd for u8 {
    open spec fn is_odd(self) -> bool {
        (self % 2 == 1)
    }

    fn odd(self) -> (r: bool) {
        self % 2 == 1
    }
}

impl Zero for u16 {
    open spec fn zero_value() -> u16 {
        0
    }

    fn zero() -> (r: u16) {
        0
    }
}

impl One for u16 {
    open spec fn one_value() -> u16 {
        1
    }

    fn one() -> (r: u16) {
        1
    }
}

impl Even for u16 {
    open spec fn is_even(self) -> bool {
        self % 2 == 0
    }

    fn even(self) -> (r: bool) {
        self % 2 == 0
    }
}

impl Odd for u16 {
    open spec fn is_odd(self) -> bool {
        (self % 2 == 1)
    }

    fn odd(self) -> (r: bool) {
        self % 2 == 1
    }
}

impl Zero for u32 {
    open spec fn zero_value() -> u32 {
        0
    }

    fn zero() -> (r: u32) {
        0
    }
}

impl One for u32 {
    open spec fn one_value() -> u32 {
        1
    }

    fn one() -> (r: u32) {
        1
    }
}

impl Even for u32 {
    open spec fn is_even(self) -> bool {
        self % 2 == 0
    }

    fn even(self) -> (r: bool) {
        self % 2 == 0
    }
}

impl Odd for u32 {
    open spec fn is_odd(self) -> bool {
        (self % 2 == 1)
    }

    fn odd(self) -> (r: bool) {
        self % 2 == 1
    }
}

impl Zero for u64 {
    open spec fn zero_value() -> u64 {
        0
    }

    fn zero() -> (r: u64) {
        0
    }
}

impl One for u64 {
    open spec fn one_value() -> u64 {
        1
    }

    fn one() -> (r: u64) {
        1
    }
}

impl Even for u64 {
    open spec fn is_even(self) -> bool {
        self % 2 == 0
    }

    fn even(self) -> (r: bool) {
        self % 2 == 0
    }
}

impl Odd for u64 {
    open spec fn is_odd(self) -> bool {
        (self % 2 == 1)
    }

    fn odd(self) -> (r: bool) {
        self % 2 == 1
    }
}

impl Zero for u128 {
    open spec fn zero_value() -> u128 {
        0
    }

    fn zero() -> (r: u128) {
        0
    }
}

impl One for u128 {
    open spec fn one_value() -> u128 {
        1
    }

    fn one() -> (r: u128) {
        1
    }
}

impl Even for u128 {
    open spec fn is_even(self) -> bool {
        self % 2 == 0
    }

    fn even(self) -> (r: bool) {
        self % 2 == 0
    }
}

impl Odd for u128 {
    open spec fn is_odd(self) -> bool {
        (self % 2 == 1)
    }

    fn odd(self) -> (r: bool) {
        self % 2 == 1
    }
}

impl Zero for usize {
    open spec fn zero_value() -> usize {
        0
    }

    fn zero() -> (r: usize) {
        0
    }
}

impl One for usize {
    open spec fn one_value() -> usize {
        1
    }

    fn one() -> (r: usize) {
        1
    }
}

impl Even for usize {
    open spec fn is_even(self) -> bool {
        self % 2 == 0
    }

    fn even(self) -> (r: bool) {
        self % 2 == 0
    }
}

impl Odd for usize {
    open spec fn is_odd(self) -> bool {
        (self % 2 == 1)
    }

    fn odd(self) -> (r: bool) {
        self % 2 == 1
    }
}

impl Zero for i8 {
    open spec fn zero_value() -> i8 {
        0
    }

    fn zero() -> (r: i8) {
        0
    }
}

impl One for i8 {
    open spec fn one_value() -> i8 {
        1
    }

    fn one() -> (r: i8) {
        1
    }
}

impl Even for i8 {
    open spec fn is_even(self) -> bool {
        self % 2 == 0
    }

    fn even(self) -> (r: bool) {
        self % 2 == 0
    }
}

impl Odd for i8 {
    open spec fn is_odd(self) -> bool {
        (self > 0 && self % 2 == 1)
    }

    fn odd(self) -> (r: bool) {
        self % 2 == 1
    }
}

impl Zero for i16 {
    open spec fn zero_value() -> i16 {
        0
    }

    fn zero() -> (r: i16) {
        0
    }
}

impl One for i16 {
    open spec fn one_value() -> i16 {
        1
    }

    fn one() -> (r: i16) {
        1
    }
}

impl Even for i16 {
    open spec fn is_even(self) -> bool {
        self % 2 == 0
    }

    fn even(self) -> (r: bool) {
        self % 2 == 0
    }
}

impl Odd for i16 {
    open spec fn is_odd(self) -> bool {
        (self > 0 && self % 2 == 1)
    }

    fn odd(self) -> (r: bool) {
        self % 2 == 1
    }
}

impl Zero for i32 {
    open spec fn zero_value() -> i32 {
        0
    }

    fn zero() -> (r: i32) {
        0
    }
}

impl One for i32 {
    open spec fn one_value() -> i32 {
        1
    }

    fn one() -> (r: i32) {
        1
    }
}

impl Even for i32 {
    open spec fn is_even(self) -> bool {
        self % 2 == 0
    }

    fn even(self) -> (r: bool) {
        self % 2 == 0
    }
}

impl Odd for i32 {
    open spec fn is_odd(self) -> bool {
        (self > 0 && self % 2 == 1)
    }

    fn odd(self) -> (r: bool) {
        self % 2 == 1
    }
}

impl Zero for i64 {
    open spec fn zero_value() -> i64 {
        0
    }

    fn zero() -> (r: i64) {
        0
    }
}

impl One for i64 {
    open spec fn one_value() -> i64 {
        1
    }

    fn one() -> (r: i64) {
        1
    }
}

impl Even for i64 {
    open spec fn is_even(self) -> bool {
        self % 2 == 0
    }

    fn even(self) -> (r: bool) {
        self % 2 == 0
    }
}

impl Odd for i64 {
    open spec fn is_odd(self) -> bool {
        (self > 0 && self % 2 == 1)
    }

    fn odd(self) -> (r: bool) {
        self % 2 == 1
    }
}

impl Zero for i128 {
    open spec fn zero_value() -> i128 {
        0
    }

    fn zero() -> (r: i128) {
        0
    }
}

impl One for i128 {
    open spec fn one_value() -> i128 {
        1
    }

    fn one() -> (r: i128) {
        1
    }
}

impl Even for i128 {
    open spec fn is_even(self) -> bool {
        self % 2 == 0
    }

    fn even(self) -> (r: bool) {
        self % 2 == 0
    }
}

impl Odd for i128 {
    open spec fn is_odd(self) -> bool {
        (self > 0 && self % 2 == 1)
    }

    fn odd(self) -> (r: bool) {
        self % 2 == 1
    }
}

impl Zero for isize {
    open spec fn zero_value() -> isize {
        0
    }

    fn zero() -> (r: isize) {
        0
    }
}

impl One for isize {
    open spec fn one_value() -> isize {
        1
    }

    fn one() -> (r: isize) {
        1
    }
}

impl Even for isize {
    open spec fn is_even(self) -> bool {
        self % 2 == 0
    }

    fn even(self) -> (r: bool) {
        self % 2 == 0
    }
}

impl Odd for isize {
    open spec fn is_odd(self) -> bool {
        (self > 0 && self % 2 == 1)
    }

    fn odd(self) -> (r: bool) {
        self % 2 == 1
    }
}

/// The numeric classes on `u8`: zero is `0`, one is `1`, a number is even when two
/// divides it, and odd exactly when it is not even.
pub proof fn lemma_u8_numeric_classes(n: u8)
    ensures
        <u8 as Zero>::zero_value() == 0,
        <u8 as One>::one_value() == 1,
        <u8 as Even>::is_even(n) <==> n % 2 == 0,
        <u8 as Odd>::is_odd(n) <==> !(n % 2 == 0),
{
}

/// The numeric classes on `u16`: zero is `0`, one is `1`, a number is even when two
/// divides it, and odd exactly when it is not even.
pub proof fn lemma_u16_numeric_classes(n: u16)
    ensures
        <u16 as Zero>::zero_value() == 0,
        <u16 as One>::one_value() == 1,
        <u16 as Even>::is_even(n) <==> n % 2 == 0,
        <u16 as Odd>::is_odd(n) <==> !(n % 2 == 0),
{
}

/// The numeric classes on `u32`: zero is `0`, one is `1`, a number is even when two
/// divides it, and odd exactly when it is not even.
pub proof fn lemma_u32_numeric_classes(n: u32)
    ensures
        <u32 as Zero>::zero_value() == 0,
        <u32 as One>::one_value() == 1,
        <u32 as Even>::is_even(n) <==> n % 2 == 0,
        <u32 as Odd>::is_odd(n) <==> !(n % 2 == 0),
{
}

/// The numeric classes on `u64`: zero is `0`, one is `1`, a number is even when two
/// divides it, and odd exactly when it is not even.
pub proof fn lemma_u64_numeric_classes(n: u64)
    ensures
        <u64 as Zero>::zero_value() == 0,
        <u64 as One>::one_value() == 1,
        <u64 as Even>::is_even(n) <==> n % 2 == 0,
        <u64 as Odd>::is_odd(n) <==> !(n % 2 == 0),
{
}

/// The numeric classes on `u128`: zero is `0`, one is `1`, a number is even when two
/// divides it, and odd exactly when it is not even.
pub proof fn lemma_u128_numeric_classes(n: u128)
    ensures
        <u128 as Zero>::zero_value() == 0,
        <u128 as One>::one_value() == 1,
        <u128 as Even>::is_even(n) <==> n % 2 == 0,
        <u128 as Odd>::is_odd(n) <==> !(n % 2 == 0),
{
}

/// The numeric classes on `usize`: zero is `0`, one is `1`, a number is even when two
/// divides it, and odd exactly when it is not even.
pub proof fn lemma_usize_numeric_classes(n: usize)
    ensures
        <usize as Zero>::zero_value() == 0,
        <usize as One>::one_value() == 1,
        <usize as Even>::is_even(n) <==> n % 2 == 0,
        <usize as Odd>::is_odd(n) <==> !(n % 2 == 0),
{
}

/// The numeric classes on `i8`: zero is `0`, one is `1`, a number is even when two
/// divides it; a positive number is odd exactly when it is not even, and a number below one
/// is never odd (Rust's `%` keeps the sign of the dividend).
pub proof fn lemma_i8_numeric_classes(n: i8)
    ensures
        <i8 as Zero>::zero_value() == 0,
        <i8 as One>::one_value() == 1,
        <i8 as Even>::is_even(n) <==> n % 2 == 0,
        n > 0 ==> (<i8 as Odd>::is_odd(n) <==> !(n % 2 == 0)),
        n <= 0 ==> !<i8 as Odd>::is_odd(n),
{
}

/// The numeric classes on `i16`: zero is `0`, one is `1`, a number is even when two
/// divides it; a positive number is odd exactly when it is not even, and a number below one
/// is never odd (Rust's `%` keeps the sign of the dividend).
pub proof fn lemma_i16_numeric_classes(n: i16)
    ensures
        <i16 as Zero>::zero_value() == 0,
        <i16 as One>::one_value() == 1,
        <i16 as Even>::is_even(n) <==> n % 2 == 0,
        n > 0 ==> (<i16 as Odd>::is_odd(n) <==> !(n % 2 == 0)),
        n <= 0 ==> !<i16 as Odd>::is_odd(n),
{
}

/// The numeric classes on `i32`: zero is `0`, one is `1`, a number is even when two
/// divides it; a positive number is odd exactly when it is not even, and a number below one
/// is never odd (Rust's `%` keeps the sign of the dividend).
pub proof fn lemma_i32_numeric_classes(n: i32)
    ensures
        <i32 as Zero>::zero_value() == 0,
        <i32 as One>::one_value() == 1,
        <i32 as Even>::is_even(n) <==> n % 2 == 0,
        n > 0 ==> (<i32 as Odd>::is_odd(n) <==> !(n % 2 == 0)),
        n <= 0 ==> !<i32 as Odd>::is_odd(n),
{
}

/// The numeric classes on `i64`: zero is `0`, one is `1`, a number is even when two
/// divides it; a positive number is odd exactly when it is not even, and a number below one
/// is never odd (Rust's `%` keeps the sign of the dividend).
pub proof fn lemma_i64_numeric_classes(n: i64)
    ensures
        <i64 as Zero>::zero_value() == 0,
        <i64 as One>::one_value() == 1,
        <i64 as Even>::is_even(n) <==> n % 2 == 0,
        n > 0 ==> (<i64 as Odd>::is_odd(n) <==> !(n % 2 == 0)),
        n <= 0 ==> !<i64 as Odd>::is_odd(n),
{
}

/// The numeric classes on `i128`: zero is `0`, one is `1`, a number is even when two
/// divides it; a positive number is odd exactly when it is not even, and a number below one
/// is never odd (Rust's `%` keeps the sign of the dividend).
pub proof fn lemma_i128_numeric_classes(n: i128)
    ensures
        <i128 as Zero>::zero_value() == 0,
        <i128 as One>::one_value() == 1,
        <i128 as Even>::is_even(n) <==> n % 2 == 0,
        n > 0 ==> (<i128 as Odd>::is_odd(n) <==> !(n % 2 == 0)),
        n <= 0 ==> !<i128 as Odd>::is_odd(n),
{
}

/// The numeric classes on `isize`: zero is `0`, one is `1`, a number is even when two
/// divides it; a positive number is odd exactly when it is not even, and a number below one
/// is never odd (Rust's `%` keeps the sign of the dividend).
pub proof fn lemma_isize_numeric_classes(n: isize)
    ensures
        <isize as Zero>::zero_value() == 0,
        <isize as One>::one_value() == 1,
        <isize as Even>::is_even(n) <==> n % 2 == 0,
        n > 0 ==> (<isize as Odd>::is_odd(n) <==> !(n % 2 == 0)),
        n <= 0 ==> !<isize as Odd>::is_odd(n),
{
}

} // verus!
