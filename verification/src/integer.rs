//! Whole numbers written in decimal: an optional sign and at least one
//! digit, with nothing before, between or after.

use crate::digits::{all_digits, char_digit_value, char_is_digit, decimal_value, lemma_value_push};
use crate::literal::is_negative;
use crate::number::signed;
use crate::text::chars_of;
use vstd::prelude::*;

verus! {

/// Why a text is no whole number of the type that was asked for.
#[derive(Clone, Copy, Debug, PartialEq, Eq, Structural)]
pub enum IntegerError {
    /// The text is empty.
    Empty,
    /// The text holds a character that is no digit where a digit must
    /// stand, or a sign and nothing after it.
    InvalidDigit,
    /// The number is above the largest of the type.
    PosOverflow,
    /// The number is below the smallest of the type.
    NegOverflow,
}

/// The whole number that `s` writes. A minus sign counts as a sign only
/// where `allow_minus` holds; a plus sign always does.
pub open spec fn whole_of(s: Seq<char>, allow_minus: bool) -> Result<int, IntegerError> {
    let start: int = if s.len() > 0 && (s[0] == '+' || (allow_minus && s[0] == '-')) {
        1
    } else {
        0
    };
    let digits = s.skip(start);
    if s.len() == 0 {
        Err(IntegerError::Empty)
    } else if digits.len() == 0 || !all_digits(digits) {
        Err(IntegerError::InvalidDigit)
    } else {
        Ok(signed(allow_minus && is_negative(s), decimal_value(digits)))
    }
}

/// The number that `s` writes, as a `u64`: no minus sign is accepted.
pub open spec fn u64_of(s: Seq<char>) -> Result<u64, IntegerError> {
    match whole_of(s, false) {
        Ok(n) => if n <= u64::MAX {
            Ok(n as u64)
        } else {
            Err(IntegerError::PosOverflow)
        },
        Err(e) => Err(e),
    }
}

/// The number that `s` writes, as an `i32`.
pub open spec fn i32_of(s: Seq<char>) -> Result<i32, IntegerError> {
    match whole_of(s, true) {
        Ok(n) => if n > i32::MAX {
            Err(IntegerError::PosOverflow)
        } else if n < i32::MIN {
            Err(IntegerError::NegOverflow)
        } else {
            Ok(n as i32)
        },
        Err(e) => Err(e),
    }
}

/// What a run of characters is, read as digits up to a limit.
enum Magnitude {
    /// Not a run of at least one digit.
    Invalid,
    /// A run of digits whose number is above the limit.
    Beyond,
    /// A run of digits with this number.
    Value(u64),
}

/// Reads the characters of `v` from `start` on as the digits of a number of
/// at most `limit`.
fn read_magnitude(v: &Vec<char>, start: usize, limit: u64) -> (m: Magnitude)
    requires
        start <= v.len(),
    ensures
        match m {
            Magnitude::Invalid => v@.skip(start as int).len() == 0 || !all_digits(
                v@.skip(start as int),
            ),
            Magnitude::Beyond => {
                &&& v@.skip(start as int).len() > 0
                &&& all_digits(v@.skip(start as int))
                &&& decimal_value(v@.skip(start as int)) > limit
            },
            Magnitude::Value(x) => {
                &&& v@.skip(start as int).len() > 0
                &&& all_digits(v@.skip(start as int))
                &&& decimal_value(v@.skip(start as int)) == x
                &&& x <= limit
            },
        },
{
    let ghost d = v@.skip(start as int);
    if start == v.len() {
        return Magnitude::Invalid;
    }
    let mut acc: u64 = 0;
    let mut beyond = false;
    let mut i: usize = start;
    assert(d.take(0) =~= Seq::<char>::empty());
    while i < v.len()
        invariant
            start <= i <= v.len(),
            d == v@.skip(start as int),
            all_digits(d.take(i - start)),
            beyond ==> decimal_value(d.take(i - start)) > limit,
            !beyond ==> decimal_value(d.take(i - start)) == acc && acc <= limit,
        decreases v.len() - i,
    {
        let c = v[i];
        assert(c == d[i - start]);
        if !char_is_digit(c) {
            return Magnitude::Invalid;
        }
        proof {
            assert(d.take(i - start + 1) =~= d.take(i - start).push(c));
            lemma_value_push(d.take(i - start), c);
        }
        if !beyond {
            let next: u128 = acc as u128 * 10 + char_digit_value(c) as u128;
            if next > limit as u128 {
                beyond = true;
            } else {
                acc = next as u64;
            }
        }
        i = i + 1;
    }
    assert(d.take(d.len() as int) =~= d);
    if beyond {
        Magnitude::Beyond
    } else {
        Magnitude::Value(acc)
    }
}

/// Reads `text` as a `u64`: an optional plus sign and at least one digit.
pub fn parse_u64(text: &str) -> (r: Result<u64, IntegerError>)
    ensures
        r == u64_of(text@),
{
    let v = chars_of(text);
    if v.len() == 0 {
        return Err(IntegerError::Empty);
    }
    let start: usize = if v[0] == '+' { 1 } else { 0 };
    match read_magnitude(&v, start, u64::MAX) {
        Magnitude::Invalid => Err(IntegerError::InvalidDigit),
        Magnitude::Beyond => Err(IntegerError::PosOverflow),
        Magnitude::Value(x) => Ok(x),
    }
}

/// Reads `text` as an `i32`: an optional sign and at least one digit.
pub fn parse_i32(text: &str) -> (r: Result<i32, IntegerError>)
    ensures
        r == i32_of(text@),
{
    let v = chars_of(text);
    if v.len() == 0 {
        return Err(IntegerError::Empty);
    }
    let negative = v[0] == '-';
    let start: usize = if v[0] == '+' || v[0] == '-' { 1 } else { 0 };
    let limit: u64 = if negative { 2147483648 } else { 2147483647 };
    match read_magnitude(&v, start, limit) {
        Magnitude::Invalid => Err(IntegerError::InvalidDigit),
        Magnitude::Beyond => if negative {
            Err(IntegerError::NegOverflow)
        } else {
            Err(IntegerError::PosOverflow)
        },
        Magnitude::Value(x) => if negative {
            Ok((0 - x as i64) as i32)
        } else {
            Ok(x as i32)
        },
    }
}

} // verus!
