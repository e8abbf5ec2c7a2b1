//! Rendering values as text.

use vstd::prelude::*;
use vstd::string::StringExecFns;

verus! {

/// Values that can be rendered as text.
pub trait Show: Sized {
    /// The text of `x`.
    spec fn shown(x: Self) -> Seq<char>;

    /// Render the value as text.
    fn show(self) -> (r: String)
        ensures
            r@ == Self::shown(self),
    ;
}

/// The character of the decimal digit `d`.
pub open spec fn digit_char(d: int) -> char {
    if d == 0 {
        '0'
    } else if d == 1 {
        '1'
    } else if d == 2 {
        '2'
    } else if d == 3 {
        '3'
    } else if d == 4 {
        '4'
    } else if d == 5 {
        '5'
    } else if d == 6 {
        '6'
    } else if d == 7 {
        '7'
    } else if d == 8 {
        '8'
    } else {
        '9'
    }
}

/// The decimal digits of `n`, most significant first, with no leading zero.
pub open spec fn decimal(n: nat) -> Seq<char>
    decreases n,
{
    if n < 10 {
        seq![digit_char(n as int)]
    } else {
        decimal(n / 10).push(digit_char((n % 10) as int))
    }
}

/// The decimal text of an integer: its digits, after a minus sign if it is negative.
pub open spec fn signed_decimal(n: int) -> Seq<char> {
    if n < 0 {
        seq!['-'] + decimal((-n) as nat)
    } else {
        decimal(n as nat)
    }
}

/// The texts of `parts`, separated by a comma and a space.
pub open spec fn joined(parts: Seq<Seq<char>>) -> Seq<char>
    decreases parts.len(),
{
    if parts.len() == 0 {
        Seq::empty()
    } else if parts.len() == 1 {
        parts[0]
    } else {
        joined(parts.drop_last()) + seq![',', ' '] + parts.last()
    }
}

/// The texts of the elements of `s`.
pub open spec fn shown_all<T: Show>(s: Seq<T>) -> Seq<Seq<char>> {
    s.map_values(|t: T| T::shown(t))
}

/// The text of the digit `d`.
fn digit_str(d: u128) -> (r: &'static str)
    requires
        d < 10,
    ensures
        r@ == seq![digit_char(d as int)],
{
    if d == 0 {
        proof { reveal_strlit("0"); }
        "0"
    } else if d == 1 {
        proof { reveal_strlit("1"); }
        "1"
    } else if d == 2 {
        proof { reveal_strlit("2"); }
        "2"
    } else if d == 3 {
        proof { reveal_strlit("3"); }
        "3"
    } else if d == 4 {
        proof { reveal_strlit("4"); }
        "4"
    } else if d == 5 {
        proof { reveal_strlit("5"); }
        "5"
    } else if d == 6 {
        proof { reveal_strlit("6"); }
        "6"
    } else if d == 7 {
        proof { reveal_strlit("7"); }
        "7"
    } else if d == 8 {
        proof { reveal_strlit("8"); }
        "8"
    } else {
        proof { reveal_strlit("9"); }
        "9"
    }
}

/// The decimal text of `n`.
fn show_unsigned(n: u128) -> (r: String)
    ensures
        r@ == decimal(n as nat),
    decreases n,
{
    if n < 10 {
        String::from_str(digit_str(n))
    } else {
        let mut s = show_unsigned(n / 10);
        s.append(digit_str(n % 10));
        s
    }
}

/// The decimal text of `n`, with a minus sign if it is negative.
fn show_signed(n: i128) -> (r: String)
    ensures
        r@ == signed_decimal(n as int),
{
    if n < 0 {
        let m: u128 = ((-(n + 1)) as u128) + 1;
        proof {
            reveal_strlit("-");
        }
        String::from_str("-").concat(show_unsigned(m).as_str())
    } else {
        show_unsigned(n as u128)
    }
}

/// The one-character text of `c`.
#[verifier::external_body]
fn char_string(c: char) -> (r: String)
    ensures
        r@ == seq![c],
{
    c.to_string()
}

impl Show for bool {
    open spec fn shown(x: bool) -> Seq<char> {
        if x {
            seq!['t', 'r', 'u', 'e']
        } else {
            seq!['f', 'a', 'l', 's', 'e']
        }
    }

    fn show(self) -> (r: String) {
        if self {
            proof {
                reveal_strlit("true");
            }
            String::from_str("true")
        } else {
            proof {
                reveal_strlit("false");
            }
            String::from_str("false")
        }
    }
}

impl Show for u8 {
    open spec fn shown(x: u8) -> Seq<char> {
        decimal(x as nat)
    }

    fn show(self) -> (r: String) {
        show_unsigned(self as u128)
    }
}

impl Show for u16 {
    open spec fn shown(x: u16) -> Seq<char> {
        decimal(x as nat)
    }

    fn show(self) -> (r: String) {
        show_unsigned(self as u128)
    }
}

impl Show for u32 {
    open spec fn shown(x: u32) -> Seq<char> {
        decimal(x as nat)
    }

    fn show(self) -> (r: String) {
        show_unsigned(self as u128)
    }
}

impl Show for u64 {
    open spec fn shown(x: u64) -> Seq<char> {
        decimal(x as nat)
    }

    fn show(self) -> (r: String) {
        show_unsigned(self as u128)
    }
}

impl Show for u128 {
    open spec fn shown(x: u128) -> Seq<char> {
        decimal(x as nat)
    }

    fn show(self) -> (r: String) {
        show_unsigned(self)
    }
}

impl Show for usize {
    open spec fn shown(x: usize) -> Seq<char> {
        decimal(x as nat)
    }

    fn show(self) -> (r: String) {
        show_unsigned(self as u128)
    }
}

impl Show for i8 {
    open spec fn shown(x: i8) -> Seq<char> {
        signed_decimal(x as int)
    }

    fn show(self) -> (r: String) {
        show_signed(self as i128)
    }
}

impl Show for i16 {
    open spec fn shown(x: i16) -> Seq<char> {
        signed_decimal(x as int)
    }

    fn show(self) -> (r: String) {
        show_signed(self as i128)
    }
}

impl Show for i32 {
    open spec fn shown(x: i32) -> Seq<char> {
        signed_decimal(x as int)
    }

    fn show(self) -> (r: String) {
        show_signed(self as i128)
    }
}

impl Show for i64 {
    open spec fn shown(x: i64) -> Seq<char> {
        signed_decimal(x as int)
    }

    fn show(self) -> (r: String) {
        show_signed(self as i128)
    }
}

impl Show for i128 {
    open spec fn shown(x: i128) -> Seq<char> {
        signed_decimal(x as int)
    }

    fn show(self) -> (r: String) {
        show_signed(self)
    }
}

impl Show for isize {
    open spec fn shown(x: isize) -> Seq<char> {
        signed_decimal(x as int)
    }

    fn show(self) -> (r: String) {
        show_signed(self as i128)
    }
}

impl Show for char {
    open spec fn shown(x: char) -> Seq<char> {
        seq![x]
    }

    fn show(self) -> (r: String) {
        char_string(self)
    }
}

impl<'a> Show for &'a str {
    open spec fn shown(x: &'a str) -> Seq<char> {
        x@
    }

    fn show(self) -> (r: String) {
        String::from_str(self)
    }
}

impl Show for String {
    open spec fn shown(x: String) -> Seq<char> {
        x@
    }

    fn show(self) -> (r: String) {
        self
    }
}

impl<T: Show> Show for Box<T> {
    open spec fn shown(x: Box<T>) -> Seq<char> {
        T::shown(*x)
    }

    fn show(self) -> (r: String) {
        (*self).show()
    }
}

impl<T: Show, U: Show> Show for (T, U) {
    /// `(a, b)`.
    open spec fn shown(x: (T, U)) -> Seq<char> {
        seq!['('] + T::shown(x.0) + seq![',', ' '] + U::shown(x.1) + seq![')']
    }

    fn show(self) -> (r: String) {
        let (t, u) = self;
        proof {
            reveal_strlit("(");
            reveal_strlit(", ");
            reveal_strlit(")");
        }
        let mut out = String::from_str("(");
        let a = t.show();
        out.append(a.as_str());
        out.append(", ");
        let b = u.show();
        out.append(b.as_str());
        out.append(")");
        out
    }
}

impl<T: Show> Show for Vec<T> {
    /// The texts of the elements, separated by commas, in brackets: `[a, b, c]`.
    open spec fn shown(x: Vec<T>) -> Seq<char> {
        seq!['['] + joined(shown_all(x@)) + seq![']']
    }

    fn show(self) -> (r: String) {
        let ghost s = self@;
        let mut body = String::new();
        let mut first = true;
        proof {
            reveal_strlit(", ");
            assert(shown_all(s.take(0)) =~= Seq::<Seq<char>>::empty());
        }
        for x in it: self
            invariant
                s == it.seq(),
                first <==> it.index() == 0,
                body@ == joined(shown_all(s.take(it.index() as int))),
        {
            let ghost i = it.index() as int;
            let part = x.show();
            proof {
                reveal_strlit(", ");
                assert(shown_all(s.take(i + 1)).drop_last() =~= shown_all(s.take(i)));
                assert(shown_all(s.take(i + 1)).last() == T::shown(s[i]));
                assert(shown_all(s.take(i + 1)).len() == i + 1);
                assert(x == s[i]);
            }
            if first {
                body.append(part.as_str());
            } else {
                body.append(", ");
                body.append(part.as_str());
            }
            first = false;
        }
        proof {
            assert(s.take(s.len() as int) =~= s);
            reveal_strlit("[");
            reveal_strlit("]");
        }
        let mut out = String::from_str("[");
        out.append(body.as_str());
        out.append("]");
        out
    }
}

/// Whether `c` is one of the decimal digits `'0'` to `'9'`.
pub open spec fn is_digit(c: char) -> bool {
    '0' as int <= c as int <= '9' as int
}

/// The number that a string of decimal digits denotes, read from the left.
pub open spec fn numeral_value(s: Seq<char>) -> int
    decreases s.len(),
{
    if s.len() == 0 {
        0
    } else {
        numeral_value(s.drop_last()) * 10 + (s.last() as int - '0' as int)
    }
}

/// Whether `s` is the usual decimal numeral of a number: one or more digits, with no
/// leading zero unless the number is zero.
pub open spec fn is_numeral(s: Seq<char>) -> bool {
    &&& s.len() > 0
    &&& forall|i: int| 0 <= i < s.len() ==> is_digit(#[trigger] s[i])
    &&& s.len() > 1 ==> s[0] != '0'
}

proof fn lemma_digit_char(d: int)
    requires
        0 <= d < 10,
    ensures
        digit_char(d) as int == '0' as int + d,
{
}

/// The decimal text of `n` is the numeral of `n`: reading it back gives `n`.
proof fn lemma_decimal_numeral(n: nat)
    ensures
        is_numeral(decimal(n)),
        numeral_value(decimal(n)) == n,
    decreases n,
{
    if n < 10 {
        lemma_digit_char(n as int);
        let s = decimal(n);
        assert(s.drop_last() =~= Seq::<char>::empty());
        assert(numeral_value(Seq::<char>::empty()) == 0);
        assert(numeral_value(s) == numeral_value(s.drop_last()) * 10 + (s.last() as int - '0' as int));
    } else {
        let s = decimal(n / 10);
        let c = digit_char((n % 10) as int);
        lemma_decimal_numeral(n / 10);
        lemma_digit_char((n % 10) as int);
        assert(decimal(n) == s.push(c));
        assert(s.push(c).drop_last() =~= s);
        vstd::arithmetic::div_mod::lemma_fundamental_div_mod(n as int, 10);
        if s.len() == 1 {
            assert(s.drop_last() =~= Seq::<char>::empty());
            assert(numeral_value(Seq::<char>::empty()) == 0);
            assert(numeral_value(s) == numeral_value(s.drop_last()) * 10 + (s.last() as int - '0' as int));
            assert(s.last() == s[0]);
        }
        assert(numeral_value(s.push(c)) == numeral_value(s.push(c).drop_last()) * 10 + (s.push(c).last() as int
            - '0' as int));
        assert forall|i: int| 0 <= i < s.push(c).len() implies is_digit(#[trigger] s.push(c)[i]) by {
            if i < s.len() {
                assert(is_digit(s[i]));
            }
        }
    }
}

/// `show` on `u8` gives the decimal numeral of the number: reading it back gives the
/// number.
pub proof fn lemma_show_u8(x: u8)
    ensures
        is_numeral(<u8 as Show>::shown(x)),
        numeral_value(<u8 as Show>::shown(x)) == x,
{
    lemma_decimal_numeral(x as nat);
}

/// `show` on `u16` gives the decimal numeral of the number: reading it back gives the
/// number.
pub proof fn lemma_show_u16(x: u16)
    ensures
        is_numeral(<u16 as Show>::shown(x)),
        numeral_value(<u16 as Show>::shown(x)) == x,
{
    lemma_decimal_numeral(x as nat);
}

/// `show` on `u32` gives the decimal numeral of the number: reading it back gives the
/// number.
pub proof fn lemma_show_u32(x: u32)
    ensures
        is_numeral(<u32 as Show>::shown(x)),
        numeral_value(<u32 as Show>::shown(x)) == x,
{
    lemma_decimal_numeral(x as nat);
}

/// `show` on `u64` gives the decimal numeral of the number: reading it back gives the
/// number.
pub proof fn lemma_show_u64(x: u64)
    ensures
        is_numeral(<u64 as Show>::shown(x)),
        numeral_value(<u64 as Show>::shown(x)) == x,
{
    lemma_decimal_numeral(x as nat);
}

/// `show` on `u128` gives the decimal numeral of the number: reading it back gives the
/// number.
pub proof fn lemma_show_u128(x: u128)
    ensures
        is_numeral(<u128 as Show>::shown(x)),
        numeral_value(<u128 as Show>::shown(x)) == x,
{
    lemma_decimal_numeral(x as nat);
}

/// `show` on `usize` gives the decimal numeral of the number: reading it back gives the
/// number.
pub proof fn lemma_show_usize(x: usize)
    ensures
        is_numeral(<usize as Show>::shown(x)),
        numeral_value(<usize as Show>::shown(x)) == x,
{
    lemma_decimal_numeral(x as nat);
}

/// `show` on `i8` gives the decimal numeral of the number, after a minus sign when the
/// number is negative: reading the digits back gives its absolute value.
pub proof fn lemma_show_i8(x: i8)
    ensures
        x < 0 ==> <i8 as Show>::shown(x).len() > 1 && <i8 as Show>::shown(x)[0] == '-' && is_numeral(
            <i8 as Show>::shown(x).drop_first(),
        ) && numeral_value(<i8 as Show>::shown(x).drop_first()) == -x,
        x >= 0 ==> is_numeral(<i8 as Show>::shown(x)) && numeral_value(<i8 as Show>::shown(x)) == x,
{
    if x < 0 {
        lemma_decimal_numeral((-x) as nat);
        assert((seq!['-'] + decimal((-x) as nat)).drop_first() =~= decimal((-x) as nat));
    } else {
        lemma_decimal_numeral(x as nat);
    }
}

/// `show` on `i16` gives the decimal numeral of the number, after a minus sign when the
/// number is negative: reading the digits back gives its absolute value.
pub proof fn lemma_show_i16(x: i16)
    ensures
        x < 0 ==> <i16 as Show>::shown(x).len() > 1 && <i16 as Show>::shown(x)[0] == '-' && is_numeral(
            <i16 as Show>::shown(x).drop_first(),
        ) && numeral_value(<i16 as Show>::shown(x).drop_first()) == -x,
        x >= 0 ==> is_numeral(<i16 as Show>::shown(x)) && numeral_value(<i16 as Show>::shown(x)) == x,
{
    if x < 0 {
        lemma_decimal_numeral((-x) as nat);
        assert((seq!['-'] + decimal((-x) as nat)).drop_first() =~= decimal((-x) as nat));
    } else {
        lemma_decimal_numeral(x as nat);
    }
}

/// `show` on `i32` gives the decimal numeral of the number, after a minus sign when the
/// number is negative: reading the digits back gives its absolute value.
pub proof fn lemma_show_i32(x: i32)
    ensures
        x < 0 ==> <i32 as Show>::shown(x).len() > 1 && <i32 as Show>::shown(x)[0] == '-' && is_numeral(
            <i32 as Show>::shown(x).drop_first(),
        ) && numeral_value(<i32 as Show>::shown(x).drop_first()) == -x,
        x >= 0 ==> is_numeral(<i32 as Show>::shown(x)) && numeral_value(<i32 as Show>::shown(x)) == x,
{
    if x < 0 {
        lemma_decimal_numeral((-x) as nat);
        assert((seq!['-'] + decimal((-x) as nat)).drop_first() =~= decimal((-x) as nat));
    } else {
        lemma_decimal_numeral(x as nat);
    }
}

/// `show` on `i64` gives the decimal numeral of the number, after a minus sign when the
/// number is negative: reading the digits back gives its absolute value.
pub proof fn lemma_show_i64(x: i64)
    ensures
        x < 0 ==> <i64 as Show>::shown(x).len() > 1 && <i64 as Show>::shown(x)[0] == '-' && is_numeral(
            <i64 as Show>::shown(x).drop_first(),
        ) && numeral_value(<i64 as Show>::shown(x).drop_first()) == -x,
        x >= 0 ==> is_numeral(<i64 as Show>::shown(x)) && numeral_value(<i64 as Show>::shown(x)) == x,
{
    if x < 0 {
        lemma_decimal_numeral((-x) as nat);
        assert((seq!['-'] + decimal((-x) as nat)).drop_first() =~= decimal((-x) as nat));
    } else {
        lemma_decimal_numeral(x as nat);
    }
}

/// `show` on `i128` gives the decimal numeral of the number, after a minus sign when the
/// number is negative: reading the digits back gives its absolute value.
pub proof fn lemma_show_i128(x: i128)
    ensures
        x < 0 ==> <i128 as Show>::shown(x).len() > 1 && <i128 as Show>::shown(x)[0] == '-' && is_numeral(
            <i128 as Show>::shown(x).drop_first(),
        ) && numeral_value(<i128 as Show>::shown(x).drop_first()) == -x,
        x >= 0 ==> is_numeral(<i128 as Show>::shown(x)) && numeral_value(<i128 as Show>::shown(x)) == x,
{
    if x < 0 {
        lemma_decimal_numeral((-x) as nat);
        assert((seq!['-'] + decimal((-x) as nat)).drop_first() =~= decimal((-x) as nat));
    } else {
        lemma_decimal_numeral(x as nat);
    }
}

/// `show` on `isize` gives the decimal numeral of the number, after a minus sign when the
/// number is negative: reading the digits back gives its absolute value.
pub proof fn lemma_show_isize(x: isize)
    ensures
        x < 0 ==> <isize as Show>::shown(x).len() > 1 && <isize as Show>::shown(x)[0] == '-' && is_numeral(
            <isize as Show>::shown(x).drop_first(),
        ) && numeral_value(<isize as Show>::shown(x).drop_first()) == -x,
        x >= 0 ==> is_numeral(<isize as Show>::shown(x)) && numeral_value(<isize as Show>::shown(x)) == x,
{
    if x < 0 {
        lemma_decimal_numeral((-x) as nat);
        assert((seq!['-'] + decimal((-x) as nat)).drop_first() =~= decimal((-x) as nat));
    } else {
        lemma_decimal_numeral(x as nat);
    }
}

/// `show` on `bool` gives `true` or `false`.
pub proof fn lemma_show_bool()
    ensures
        <bool as Show>::shown(true) == seq!['t', 'r', 'u', 'e'],
        <bool as Show>::shown(false) == seq!['f', 'a', 'l', 's', 'e'],
{
}

/// `show` on text gives the text itself: a character alone, and a string or string slice
/// unchanged; a boxed value shows as the value inside.
pub proof fn lemma_show_text<T: Show>(c: char, s: &str, t: String, b: Box<T>)
    ensures
        <char as Show>::shown(c).len() == 1,
        <char as Show>::shown(c)[0] == c,
        <&str as Show>::shown(s) == s@,
        <String as Show>::shown(t) == t@,
        <Box<T> as Show>::shown(b) == T::shown(*b),
{
}

/// `show` on a pair gives the two texts, in order, separated by a comma and a space, in
/// parentheses.
pub proof fn lemma_show_pair<T: Show, U: Show>(x: (T, U))
    ensures
        <(T, U) as Show>::shown(x) == seq!['('] + T::shown(x.0) + seq![',', ' '] + U::shown(x.1) + seq![')'],
{
}

/// `show` on a list: an empty list gives `[]`, a list of one element gives its text in
/// brackets, and adding an element at the end of a non-empty list adds a comma, a space
/// and the element's text before the closing bracket.
pub proof fn lemma_show_vec<T: Show>(v: Vec<T>, w: Vec<T>, x: T)
    ensures
        v@.len() == 0 ==> <Vec<T> as Show>::shown(v) == seq!['[', ']'],
        v@.len() == 1 ==> <Vec<T> as Show>::shown(v) == seq!['['] + T::shown(v@[0]) + seq![']'],
        v@.len() > 0 && w@ == v@.push(x) ==> <Vec<T> as Show>::shown(w) == <Vec<T> as Show>::shown(v).drop_last()
            + seq![',', ' '] + T::shown(x) + seq![']'],
{
    if v@.len() == 0 {
        assert(shown_all(v@) =~= Seq::<Seq<char>>::empty());
        assert(<Vec<T> as Show>::shown(v) =~= seq!['[', ']']);
    }
    if v@.len() == 1 {
        assert(shown_all(v@).len() == 1);
        assert(joined(shown_all(v@)) == shown_all(v@)[0]);
    }
    if v@.len() > 0 && w@ == v@.push(x) {
        let p = shown_all(v@);
        assert(shown_all(w@) =~= p.push(T::shown(x)));
        assert(p.push(T::shown(x)).drop_last() =~= p);
        assert(joined(shown_all(w@)) == joined(p) + seq![',', ' '] + T::shown(x));
        assert((seq!['['] + joined(p) + seq![']']).drop_last() =~= seq!['['] + joined(p));
        assert(<Vec<T> as Show>::shown(w) =~= <Vec<T> as Show>::shown(v).drop_last() + seq![',', ' '] + T::shown(x)
            + seq![']']);
    }
}

} // verus!
