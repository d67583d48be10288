//! The grammar of decimal text, and the number that each text denotes.
//!
//! A text is a number where it is an optional sign followed by `inf`,
//! `infinity` or `nan` in any mix of cases, or by a mantissa and an optional
//! exponent. The mantissa is a run of digits with at most one point in it and
//! at least one digit; the exponent is `e` or `E`, an optional sign and at
//! least one digit. No blank is allowed anywhere.

use crate::decimal::Decimal;
use crate::digits::{all_digits, char_is_digit, decimal_value, is_digit};
use crate::number::{signed, Number};
use crate::text::chars_of;
use vstd::prelude::*;

verus! {

/// The length of the sign that `s` starts with: one or zero.
pub open spec fn sign_len(s: Seq<char>) -> int {
    if s.len() > 0 && (s[0] == '+' || s[0] == '-') {
        1
    } else {
        0
    }
}

/// Whether `s` starts with a minus sign.
pub open spec fn is_negative(s: Seq<char>) -> bool {
    s.len() > 0 && s[0] == '-'
}

/// The length of the longest run of digits of `s` that starts at `from`.
pub open spec fn digit_run(s: Seq<char>, from: int) -> int
    decreases s.len() - from,
{
    if 0 <= from < s.len() && is_digit(s[from]) {
        1 + digit_run(s, from + 1)
    } else {
        0
    }
}

/// Whether `s` is the word that `lower` spells in small letters and `upper`
/// in capitals, in any mix of the two.
pub open spec fn spells(s: Seq<char>, lower: Seq<char>, upper: Seq<char>) -> bool {
    &&& s.len() == lower.len()
    &&& s.len() == upper.len()
    &&& forall|i: int| 0 <= i < s.len() ==> s[i] == lower[i] || s[i] == upper[i]
}

/// Whether `s` names an infinity or says that it is not a number.
pub open spec fn is_non_finite_word(s: Seq<char>) -> bool {
    ||| spells(s, "inf"@, "INF"@)
    ||| spells(s, "infinity"@, "INFINITY"@)
    ||| spells(s, "nan"@, "NAN"@)
}

/// The exponent written by `x`, the text that follows the `e`: an optional
/// sign and at least one digit.
pub open spec fn exponent_of(x: Seq<char>) -> Option<int> {
    let digits = x.skip(sign_len(x));
    if digits.len() > 0 && all_digits(digits) {
        Some(signed(is_negative(x), decimal_value(digits)))
    } else {
        None
    }
}

/// The finite number that `s` denotes, if it is written as a sign, a
/// mantissa and an exponent.
pub open spec fn finite_of(s: Seq<char>) -> Option<Number> {
    let start = sign_len(s);
    let int_end = start + digit_run(s, start);
    let frac_start = if int_end < s.len() && s[int_end] == '.' {
        int_end + 1
    } else {
        int_end
    };
    let frac_end = frac_start + digit_run(s, frac_start);
    let digits = s.subrange(start, int_end) + s.subrange(frac_start, frac_end);
    let mantissa = signed(is_negative(s), decimal_value(digits));
    let frac_len = frac_end - frac_start;
    if digits.len() == 0 {
        None
    } else if frac_end == s.len() {
        Some(Number::Finite { mantissa, exponent: -frac_len })
    } else if s[frac_end] == 'e' || s[frac_end] == 'E' {
        match exponent_of(s.skip(frac_end + 1)) {
            Some(x) => Some(Number::Finite { mantissa, exponent: x - frac_len }),
            None => None,
        }
    } else {
        None
    }
}

/// What the text `s` denotes, or `None` where it is outside the grammar.
pub open spec fn number_of(s: Seq<char>) -> Option<Number> {
    if is_non_finite_word(s.skip(sign_len(s))) {
        Some(Number::NonFinite)
    } else {
        finite_of(s)
    }
}

/// A run of digits ends within the text, and holds digits only.
pub proof fn lemma_digit_run(s: Seq<char>, from: int)
    requires
        0 <= from <= s.len(),
    ensures
        0 <= digit_run(s, from) <= s.len() - from,
        all_digits(s.subrange(from, from + digit_run(s, from))),
        from + digit_run(s, from) < s.len() ==> !is_digit(s[from + digit_run(s, from)]),
    decreases s.len() - from,
{
    if from < s.len() && is_digit(s[from]) {
        lemma_digit_run(s, from + 1);
        let run = s.subrange(from, from + digit_run(s, from));
        let rest = s.subrange(from + 1, from + 1 + digit_run(s, from + 1));
        assert forall|i: int| 0 <= i < run.len() implies is_digit(#[trigger] run[i]) by {
            if i > 0 {
                assert(run[i] == rest[i - 1]);
            }
        }
    }
}

/// A number as it was read from text.
pub enum Literal {
    Finite(Decimal),
    NonFinite,
}

impl View for Literal {
    type V = Number;

    open spec fn view(&self) -> Number {
        match self {
            Literal::Finite(d) => d@,
            Literal::NonFinite => Number::NonFinite,
        }
    }
}

impl Literal {
    /// `-bound <= self <= bound`, exactly. It holds of no infinity and of
    /// nothing that is not a number.
    pub fn within(&self, bound: &Decimal) -> (r: bool)
        ensures
            r == self@.within(bound@),
    {
        match self {
            Literal::Finite(d) => d.within(bound),
            Literal::NonFinite => false,
        }
    }

    /// `self < other`, exactly. It holds only between finite numbers.
    pub fn lt(&self, other: &Literal) -> (r: bool)
        ensures
            r == self@.lt(other@),
    {
        match self {
            Literal::Finite(a) => match other {
                Literal::Finite(b) => a.lt(b),
                Literal::NonFinite => false,
            },
            Literal::NonFinite => false,
        }
    }
}

/// Tells whether the characters of `v` from `from` on spell the word given
/// in small letters and in capitals.
fn spells_from(v: &Vec<char>, from: usize, lower: &str, upper: &str) -> (b: bool)
    requires
        from <= v.len(),
    ensures
        b == spells(v@.skip(from as int), lower@, upper@),
{
    let lo = chars_of(lower);
    let up = chars_of(upper);
    let n = v.len() - from;
    if lo.len() != n || up.len() != n {
        return false;
    }
    let ghost s = v@.skip(from as int);
    let mut i: usize = 0;
    while i < n
        invariant
            i <= n,
            n == v.len() - from,
            lo@ == lower@,
            up@ == upper@,
            lo.len() == n,
            up.len() == n,
            s == v@.skip(from as int),
            forall|j: int| 0 <= j < i ==> s[j] == lo@[j] || s[j] == up@[j],
        decreases n - i,
    {
        let c = v[from + i];
        assert(c == s[i as int]);
        if c != lo[i] && c != up[i] {
            return false;
        }
        i = i + 1;
    }
    true
}

/// Copies the run of digits of `v` that starts at `from` to the end of
/// `out`, and returns the place where the run ends.
fn take_digits(v: &Vec<char>, from: usize, out: &mut Vec<char>) -> (end: usize)
    requires
        from <= v.len(),
        all_digits(old(out)@),
    ensures
        end == from + digit_run(v@, from as int),
        from <= end <= v.len(),
        final(out)@ == old(out)@ + v@.subrange(from as int, end as int),
        all_digits(final(out)@),
{
    let mut i: usize = from;
    while i < v.len() && char_is_digit(v[i])
        invariant
            from <= i <= v.len(),
            digit_run(v@, from as int) == (i - from) + digit_run(v@, i as int),
            out@ == old(out)@ + v@.subrange(from as int, i as int),
            all_digits(out@),
        decreases v.len() - i,
    {
        out.push(v[i]);
        assert(v@.subrange(from as int, i + 1) =~= v@.subrange(from as int, i as int).push(
            v@[i as int],
        ));
        i = i + 1;
    }
    i
}

/// Reads the characters `v` as a number.
pub fn read_number(v: &Vec<char>) -> (r: Option<Literal>)
    ensures
        match r {
            Some(l) => number_of(v@) == Some(l@),
            None => number_of(v@) is None,
        },
{
    let n = v.len();
    let negative = n > 0 && v[0] == '-';
    let start: usize = if n > 0 && (v[0] == '+' || v[0] == '-') { 1 } else { 0 };
    if spells_from(v, start, "inf", "INF") || spells_from(v, start, "infinity", "INFINITY")
        || spells_from(v, start, "nan", "NAN") {
        return Some(Literal::NonFinite);
    }
    let mut digits: Vec<char> = Vec::new();
    let int_end = take_digits(v, start, &mut digits);
    let frac_start: usize = if int_end < n && v[int_end] == '.' { int_end + 1 } else { int_end };
    let frac_end = take_digits(v, frac_start, &mut digits);
    let frac_len = frac_end - frac_start;
    if digits.len() == 0 {
        return None;
    }
    if frac_end == n {
        return Some(Literal::Finite(Decimal::from_parts(negative, digits, frac_len, false, Vec::new())));
    }
    if v[frac_end] != 'e' && v[frac_end] != 'E' {
        return None;
    }
    let exp_at = frac_end + 1;
    let exp_negative = exp_at < n && v[exp_at] == '-';
    let exp_start: usize = if exp_at < n && (v[exp_at] == '+' || v[exp_at] == '-') {
        exp_at + 1
    } else {
        exp_at
    };
    let mut exp_digits: Vec<char> = Vec::new();
    let exp_end = take_digits(v, exp_start, &mut exp_digits);
    proof {
        let x = v@.skip(exp_at as int);
        assert(x.skip(sign_len(x)) =~= v@.subrange(exp_start as int, n as int));
        lemma_digit_run(v@, exp_start as int);
        if exp_end < n {
            assert(v@.subrange(exp_start as int, n as int)[exp_end - exp_start] == v@[exp_end as int]);
        } else {
            assert(exp_digits@ =~= v@.subrange(exp_start as int, n as int));
        }
    }
    if exp_end != n || exp_digits.len() == 0 {
        return None;
    }
    Some(Literal::Finite(Decimal::from_parts(negative, digits, frac_len, exp_negative, exp_digits)))
}

/// Reads the text `s` as a number.
pub fn parse_number(s: &str) -> (r: Option<Literal>)
    ensures
        match r {
            Some(l) => number_of(s@) == Some(l@),
            None => number_of(s@) is None,
        },
{
    let v = chars_of(s);
    read_number(&v)
}

} // verus!
