//! Decimal digits and the natural number that a run of them denotes.

use vstd::arithmetic::power::{lemma_pow0, lemma_pow1, lemma_pow_adds, lemma_pow_positive, pow};
use vstd::prelude::*;

verus! {

/// Whether `c` is one of the ten ASCII decimal digits.
pub open spec fn is_digit(c: char) -> bool {
    '0' <= c <= '9'
}

/// The number that the digit `c` stands for.
pub open spec fn digit_value(c: char) -> nat
    recommends
        is_digit(c),
{
    (c as u32 - '0' as u32) as nat
}

/// Whether every character of `s` is a decimal digit.
pub open spec fn all_digits(s: Seq<char>) -> bool {
    forall|i: int| 0 <= i < s.len() ==> is_digit(#[trigger] s[i])
}

/// Whether every character of `s` is the digit zero.
pub open spec fn all_zeros(s: Seq<char>) -> bool {
    forall|i: int| 0 <= i < s.len() ==> #[trigger] s[i] == '0'
}

/// The natural number written by the digits `s`, most significant first.
/// The empty run denotes zero.
pub open spec fn decimal_value(s: Seq<char>) -> nat
    decreases s.len(),
{
    if s.len() == 0 {
        0
    } else {
        decimal_value(s.drop_last()) * 10 + digit_value(s.last())
    }
}

/// Appending one digit multiplies by ten and adds the digit.
pub proof fn lemma_value_push(s: Seq<char>, c: char)
    ensures
        decimal_value(s.push(c)) == decimal_value(s) * 10 + digit_value(c),
{
    assert(s.push(c).drop_last() =~= s);
}

/// The value of a concatenation: the left part is shifted by the length of
/// the right part.
pub proof fn lemma_value_concat(s: Seq<char>, t: Seq<char>)
    ensures
        decimal_value(s + t) == decimal_value(s) * pow(10, t.len()) + decimal_value(t),
    decreases t.len(),
{
    if t.len() == 0 {
        assert(s + t =~= s);
        lemma_pow0(10);
    } else {
        let t0 = t.drop_last();
        assert((s + t).drop_last() =~= s + t0);
        lemma_value_concat(s, t0);
        lemma_pow_adds(10, t0.len(), 1);
        lemma_pow1(10);
        let a = decimal_value(s) as int;
        let b = decimal_value(t0) as int;
        let d = digit_value(t.last()) as int;
        let p = pow(10, t0.len());
        assert((a * p + b) * 10 + d == a * (p * 10) + (b * 10 + d)) by (nonlinear_arith);
    }
}

/// A run of zeros denotes zero.
pub proof fn lemma_value_zeros(s: Seq<char>)
    requires
        all_zeros(s),
    ensures
        decimal_value(s) == 0,
    decreases s.len(),
{
    if s.len() > 0 {
        lemma_value_zeros(s.drop_last());
    }
}

/// A run of `n` digits denotes a number below the `n`-th power of ten.
pub proof fn lemma_value_upper(s: Seq<char>)
    requires
        all_digits(s),
    ensures
        decimal_value(s) < pow(10, s.len()),
    decreases s.len(),
{
    if s.len() == 0 {
        lemma_pow0(10);
    } else {
        let s0 = s.drop_last();
        lemma_value_upper(s0);
        lemma_pow_adds(10, s0.len(), 1);
        lemma_pow1(10);
    }
}

/// A run of `n` digits that starts with a digit other than zero denotes at
/// least the power of ten with exponent `n - 1`.
pub proof fn lemma_value_lower(s: Seq<char>)
    requires
        all_digits(s),
        s.len() > 0,
        s[0] != '0',
    ensures
        decimal_value(s) >= pow(10, (s.len() - 1) as nat),
{
    let head = s.take(1);
    let tail = s.skip(1);
    assert(s =~= head + tail);
    lemma_value_concat(head, tail);
    assert(head =~= Seq::<char>::empty().push(s[0]));
    lemma_value_push(Seq::<char>::empty(), s[0]);
    assert(decimal_value(head) >= 1);
    let p = pow(10, tail.len());
    lemma_pow_positive(10, tail.len());
    let h = decimal_value(head) as int;
    assert(h * p >= p) by (nonlinear_arith)
        requires
            h >= 1,
            p > 0,
    ;
}

/// Leading zeros do not change the value.
pub proof fn lemma_value_skip_zeros(s: Seq<char>, k: int)
    requires
        0 <= k <= s.len(),
        all_zeros(s.take(k)),
    ensures
        decimal_value(s) == decimal_value(s.skip(k)),
{
    assert(s =~= s.take(k) + s.skip(k));
    lemma_value_concat(s.take(k), s.skip(k));
    lemma_value_zeros(s.take(k));
    assert(0 * pow(10, s.skip(k).len()) == 0);
}

/// Trailing zeros multiply the value by a power of ten.
pub proof fn lemma_value_pad(s: Seq<char>, zeros: Seq<char>)
    requires
        all_zeros(zeros),
    ensures
        decimal_value(s + zeros) == decimal_value(s) * pow(10, zeros.len()),
{
    lemma_value_concat(s, zeros);
    lemma_value_zeros(zeros);
}

/// Two runs of digits of one length are ordered by the first digit in which
/// they differ.
pub proof fn lemma_value_order(s: Seq<char>, t: Seq<char>, i: int)
    requires
        all_digits(s),
        all_digits(t),
        s.len() == t.len(),
        0 <= i < s.len(),
        forall|j: int| 0 <= j < i ==> s[j] == t[j],
        s[i] < t[i],
    ensures
        decimal_value(s) < decimal_value(t),
{
    let sh = s.take(i + 1);
    let th = t.take(i + 1);
    let sr = s.skip(i + 1);
    let tr = t.skip(i + 1);
    assert(s =~= sh + sr);
    assert(t =~= th + tr);
    lemma_value_concat(sh, sr);
    lemma_value_concat(th, tr);
    assert(sh.drop_last() =~= s.take(i));
    assert(th.drop_last() =~= t.take(i));
    assert(s.take(i) =~= t.take(i));
    assert(all_digits(sr));
    lemma_value_upper(sr);
    let x = decimal_value(sh) as int;
    let y = decimal_value(th) as int;
    let p = pow(10, sr.len());
    assert(x + 1 <= y);
    assert((x + 1) * p <= y * p) by (nonlinear_arith)
        requires
            x + 1 <= y,
            p >= 0,
    ;
    assert((x + 1) * p == x * p + p) by (nonlinear_arith);
}

/// Tells whether `c` is a decimal digit.
pub fn char_is_digit(c: char) -> (b: bool)
    ensures
        b == is_digit(c),
{
    '0' <= c && c <= '9'
}

/// The value of the digit `c`.
pub fn char_digit_value(c: char) -> (d: u8)
    requires
        is_digit(c),
    ensures
        d == digit_value(c),
        d <= 9,
{
    let code: u32 = c as u32;
    (code - 48) as u8
}

} // verus!
