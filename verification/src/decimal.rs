//! Finite decimal numbers of any length, held digit by digit, and their
//! exact order.

use crate::digits::{
    all_digits, all_zeros, char_digit_value, decimal_value, digit_value, is_digit,
    lemma_value_lower, lemma_value_order, lemma_value_pad, lemma_value_push,
    lemma_value_skip_zeros, lemma_value_upper, lemma_value_zeros,
};
use crate::number::{common_base, signed, Number};
use vstd::arithmetic::power::{lemma_pow_adds, lemma_pow_increases, lemma_pow_positive, pow};
use vstd::prelude::*;

verus! {

/// Beyond this distance two written exponents are only known to be far apart.
const GAP_LIMIT: i128 = 1_000_000_000_000_000_000_000_000_000_000;

/// `t`, held between `-GAP_LIMIT` and `GAP_LIMIT`.
spec fn clamp_gap(t: int) -> int {
    if t >= GAP_LIMIT {
        GAP_LIMIT as int
    } else if t <= -GAP_LIMIT {
        -GAP_LIMIT
    } else {
        t
    }
}

/// How one magnitude stands to another.
#[derive(Clone, Copy, Debug, PartialEq, Eq, Structural)]
enum Order {
    Less,
    Equal,
    Greater,
}

/// The digits of `d` from `from` on, continued with zeros up to `len` digits.
spec fn padded(d: Seq<char>, from: int, len: int) -> Seq<char> {
    Seq::new(len as nat, |i: int| if from + i < d.len() { d[from + i] } else { '0' })
}

/// Padding with zeros multiplies by a power of ten, and leading zeros that
/// are left out do not count.
proof fn lemma_padded_value(d: Seq<char>, from: int, len: int)
    requires
        all_digits(d),
        0 <= from <= d.len(),
        all_zeros(d.take(from)),
        len >= d.len() - from,
    ensures
        all_digits(padded(d, from, len)),
        decimal_value(padded(d, from, len)) == decimal_value(d) * pow(
            10,
            (len - (d.len() - from)) as nat,
        ),
{
    let zeros = Seq::new((len - (d.len() - from)) as nat, |i: int| '0');
    assert(padded(d, from, len) =~= d.skip(from) + zeros);
    lemma_value_pad(d.skip(from), zeros);
    lemma_value_skip_zeros(d, from);
}

/// Of two numbers whose digits start at different powers of ten, the one
/// that starts lower is the smaller.
proof fn lemma_lower_top(a: Seq<char>, fa: int, xa: int, b: Seq<char>, fb: int, xb: int, base: int)
    requires
        all_digits(a),
        all_digits(b),
        0 <= fa < a.len(),
        0 <= fb < b.len(),
        all_zeros(a.take(fa)),
        all_zeros(b.take(fb)),
        b[fb] != '0',
        base <= xa,
        base <= xb,
        xa + a.len() - fa < xb + b.len() - fb,
    ensures
        decimal_value(a) * pow(10, (xa - base) as nat) < decimal_value(b) * pow(
            10,
            (xb - base) as nat,
        ),
{
    let sa = a.skip(fa);
    let sb = b.skip(fb);
    lemma_value_skip_zeros(a, fa);
    lemma_value_skip_zeros(b, fb);
    lemma_value_upper(sa);
    lemma_value_lower(sb);
    let ea = (xa - base) as nat;
    let eb = (xb - base) as nat;
    let pa = pow(10, ea);
    let pb = pow(10, eb);
    lemma_pow_positive(10, ea);
    lemma_pow_positive(10, eb);
    lemma_pow_adds(10, sa.len(), ea);
    lemma_pow_adds(10, (sb.len() - 1) as nat, eb);
    lemma_pow_increases(10, sa.len() + ea, ((sb.len() - 1) as nat) + eb);
    let va = decimal_value(a) as int;
    let vb = decimal_value(b) as int;
    let ua = pow(10, sa.len());
    let lb = pow(10, (sb.len() - 1) as nat);
    assert(va * pa < ua * pa) by (nonlinear_arith)
        requires
            va < ua,
            pa > 0,
    ;
    assert(lb * pb <= vb * pb) by (nonlinear_arith)
        requires
            lb <= vb,
            pb > 0,
    ;
}

/// The place of the first digit of `d` that is not zero, or the length of `d`
/// where every digit is zero.
fn first_nonzero(d: &Vec<char>) -> (f: usize)
    ensures
        f <= d.len(),
        all_zeros(d@.take(f as int)),
        f < d.len() ==> d[f as int] != '0',
{
    let mut f: usize = 0;
    while f < d.len() && d[f] == '0'
        invariant
            f <= d.len(),
            all_zeros(d@.take(f as int)),
        decreases d.len() - f,
    {
        f = f + 1;
    }
    f
}

/// The character that writes the digit `d`.
fn digit_char(d: u8) -> (c: char)
    requires
        d <= 9,
    ensures
        is_digit(c),
        digit_value(c) == d,
{
    (d + 48) as char
}

/// A finite decimal number: a sign, the digits of its mantissa with the
/// number of them that follow the point, and a written exponent of any
/// length. Nothing is rounded.
pub struct Decimal {
    negative: bool,
    digits: Vec<char>,
    frac_len: usize,
    exp_negative: bool,
    exp_digits: Vec<char>,
}

impl View for Decimal {
    type V = Number;

    closed spec fn view(&self) -> Number {
        Number::Finite {
            mantissa: signed(self.negative, self.magnitude()),
            exponent: self.exponent(),
        }
    }
}

impl Decimal {
    #[verifier::type_invariant]
    spec fn wf(&self) -> bool {
        all_digits(self.digits@) && all_digits(self.exp_digits@)
    }

    spec fn magnitude(&self) -> nat {
        decimal_value(self.digits@)
    }

    spec fn written_exponent(&self) -> int {
        signed(self.exp_negative, decimal_value(self.exp_digits@))
    }

    spec fn exponent(&self) -> int {
        self.written_exponent() - self.frac_len
    }

    /// The magnitude in units of `10^base`.
    spec fn aligned(&self, base: int) -> int {
        self.magnitude() * pow(10, (self.exponent() - base) as nat)
    }

    /// The number `±digits * 10^(±exp_digits - frac_len)`.
    pub(crate) fn from_parts(
        negative: bool,
        digits: Vec<char>,
        frac_len: usize,
        exp_negative: bool,
        exp_digits: Vec<char>,
    ) -> (d: Decimal)
        requires
            all_digits(digits@),
            all_digits(exp_digits@),
        ensures
            d@ == (Number::Finite {
                mantissa: signed(negative, decimal_value(digits@)),
                exponent: signed(exp_negative, decimal_value(exp_digits@)) - frac_len,
            }),
    {
        Decimal { negative, digits, frac_len, exp_negative, exp_digits }
    }

    /// The number zero.
    pub fn zero() -> (d: Decimal)
        ensures
            d@ == Number::integer(0),
    {
        Decimal::from_parts(false, Vec::new(), 0, false, Vec::new())
    }

    /// The whole number `n`.
    pub fn whole(n: u8) -> (d: Decimal)
        ensures
            d@ == Number::integer(n as int),
    {
        let mut digits: Vec<char> = Vec::new();
        let hundreds = digit_char(n / 100);
        let tens = digit_char((n / 10) % 10);
        let ones = digit_char(n % 10);
        proof {
            lemma_value_push(digits@, hundreds);
            lemma_value_push(digits@.push(hundreds), tens);
            lemma_value_push(digits@.push(hundreds).push(tens), ones);
        }
        digits.push(hundreds);
        digits.push(tens);
        digits.push(ones);
        Decimal::from_parts(false, digits, 0, false, Vec::new())
    }

    /// How the signed count of units relates to the magnitude's.
    proof fn lemma_scaled(&self, base: int)
        requires
            base <= self.exponent(),
        ensures
            self@.scaled(base) == (if self.negative {
                -self.aligned(base)
            } else {
                self.aligned(base)
            }),
            self@.negated().scaled(base) == -self@.scaled(base),
            self.aligned(base) >= 0,
            self.aligned(base) == 0 <==> self.magnitude() == 0,
    {
        let m = self.magnitude() as int;
        let p = pow(10, (self.exponent() - base) as nat);
        lemma_pow_positive(10, (self.exponent() - base) as nat);
        assert((-m) * p == -(m * p)) by (nonlinear_arith);
        assert(m * p >= 0 && (m * p == 0 <==> m == 0)) by (nonlinear_arith)
            requires
                m >= 0,
                p > 0,
        ;
    }

    /// The written exponent of `self` less that of `other`, held within
    /// `GAP_LIMIT` on either side.
    fn exponent_gap(&self, other: &Decimal) -> (g: i128)
        ensures
            g == clamp_gap(self.written_exponent() - other.written_exponent()),
    {
        proof {
            use_type_invariant(self);
            use_type_invariant(other);
        }
        let la = self.exp_digits.len();
        let lb = other.exp_digits.len();
        let total = if la > lb { la } else { lb };
        let skip_a = total - la;
        let skip_b = total - lb;
        let mut acc: i128 = 0;
        let mut i: usize = 0;
        let ghost ea = self.exp_digits@;
        let ghost eb = other.exp_digits@;
        assert(ea.take(0) =~= Seq::<char>::empty());
        assert(eb.take(0) =~= Seq::<char>::empty());
        while i < total
            invariant
                i <= total,
                la == ea.len(),
                lb == eb.len(),
                ea == self.exp_digits@,
                eb == other.exp_digits@,
                all_digits(ea),
                all_digits(eb),
                skip_a == total - la,
                skip_b == total - lb,
                skip_a == 0 || skip_b == 0,
                acc == clamp_gap(
                    signed(
                        self.exp_negative,
                        decimal_value(ea.take(if i >= skip_a { i - skip_a } else { 0 })),
                    ) - signed(
                        other.exp_negative,
                        decimal_value(eb.take(if i >= skip_b { i - skip_b } else { 0 })),
                    ),
                ),
            decreases total - i,
        {
            let ghost ka: int = if i >= skip_a { i - skip_a } else { 0 };
            let ghost kb: int = if i >= skip_b { i - skip_b } else { 0 };
            let mut da: i128 = 0;
            if i >= skip_a {
                da = char_digit_value(self.exp_digits[i - skip_a]) as i128;
                proof {
                    assert(ea.take(ka + 1) =~= ea.take(ka).push(ea[ka]));
                    lemma_value_push(ea.take(ka), ea[ka]);
                }
            }
            let mut db: i128 = 0;
            if i >= skip_b {
                db = char_digit_value(other.exp_digits[i - skip_b]) as i128;
                proof {
                    assert(eb.take(kb + 1) =~= eb.take(kb).push(eb[kb]));
                    lemma_value_push(eb.take(kb), eb[kb]);
                }
            }
            let sa: i128 = if self.exp_negative { -da } else { da };
            let sb: i128 = if other.exp_negative { -db } else { db };
            if -GAP_LIMIT < acc && acc < GAP_LIMIT {
                acc = acc * 10 + (sa - sb);
                if acc > GAP_LIMIT {
                    acc = GAP_LIMIT;
                } else if acc < -GAP_LIMIT {
                    acc = -GAP_LIMIT;
                }
            }
            i = i + 1;
        }
        assert(ea.take(la as int) =~= ea);
        assert(eb.take(lb as int) =~= eb);
        acc
    }

    /// Whether the number is zero.
    pub fn is_zero(&self) -> (z: bool)
        ensures
            z == (self@ == Number::Finite { mantissa: 0, exponent: self@.exponent() }),
    {
        proof {
            use_type_invariant(self);
        }
        let f = first_nonzero(&self.digits);
        proof {
            self.lemma_magnitude_zero(f as int);
        }
        f == self.digits.len()
    }

    /// The magnitude is zero exactly where no digit differs from zero.
    proof fn lemma_magnitude_zero(&self, f: int)
        requires
            self.wf(),
            0 <= f <= self.digits@.len(),
            all_zeros(self.digits@.take(f)),
            f < self.digits@.len() ==> self.digits@[f] != '0',
        ensures
            self.magnitude() == 0 <==> f == self.digits@.len(),
    {
        let d = self.digits@;
        lemma_value_skip_zeros(d, f);
        if f < d.len() {
            lemma_value_lower(d.skip(f));
            lemma_pow_positive(10, (d.skip(f).len() - 1) as nat);
        } else {
            assert(d.take(f) =~= d);
            lemma_value_zeros(d);
        }
    }

    /// How the magnitude of `self` stands to that of `other`, both counted in
    /// units of the smaller of the two exponents.
    fn magnitude_order(&self, other: &Decimal) -> (o: Order)
        ensures
            ({
                let base = common_base(self.exponent(), other.exponent());
                let x = self.aligned(base);
                let y = other.aligned(base);
                &&& o == Order::Less <==> x < y
                &&& o == Order::Equal <==> x == y
                &&& o == Order::Greater <==> x > y
            }),
    {
        proof {
            use_type_invariant(self);
            use_type_invariant(other);
        }
        let ghost base = common_base(self.exponent(), other.exponent());
        let ghost a = self.digits@;
        let ghost b = other.digits@;
        let na = self.digits.len();
        let nb = other.digits.len();
        let fa = first_nonzero(&self.digits);
        let fb = first_nonzero(&other.digits);
        proof {
            self.lemma_magnitude_zero(fa as int);
            other.lemma_magnitude_zero(fb as int);
            self.lemma_scaled(base);
            other.lemma_scaled(base);
        }
        if fa == na {
            return if fb == nb { Order::Equal } else { Order::Less };
        }
        if fb == nb {
            return Order::Greater;
        }
        let sig_a = na - fa;
        let sig_b = nb - fb;
        let gap = self.exponent_gap(other);
        let mut lower = false;
        let mut higher = false;
        if gap >= GAP_LIMIT {
            higher = true;
        } else if gap <= -GAP_LIMIT {
            lower = true;
        } else {
            let top_a: i128 = sig_a as i128 - self.frac_len as i128;
            let top_b: i128 = sig_b as i128 - other.frac_len as i128;
            let t: i128 = gap + top_a - top_b;
            lower = t < 0;
            higher = t > 0;
        }
        if lower {
            proof {
                lemma_lower_top(a, fa as int, self.exponent(), b, fb as int, other.exponent(), base);
            }
            return Order::Less;
        }
        if higher {
            proof {
                lemma_lower_top(b, fb as int, other.exponent(), a, fa as int, self.exponent(), base);
            }
            return Order::Greater;
        }
        let len = if sig_a > sig_b { sig_a } else { sig_b };
        let ghost pa = padded(a, fa as int, len as int);
        let ghost pb = padded(b, fb as int, len as int);
        proof {
            lemma_padded_value(a, fa as int, len as int);
            lemma_padded_value(b, fb as int, len as int);
            assert(len - sig_a == self.exponent() - base);
            assert(len - sig_b == other.exponent() - base);
        }
        let mut i: usize = 0;
        while i < len
            invariant
                i <= len,
                na == self.digits@.len(),
                nb == other.digits@.len(),
                a == self.digits@,
                b == other.digits@,
                fa < na,
                fb < nb,
                sig_a == na - fa,
                sig_b == nb - fb,
                pa == padded(a, fa as int, len as int),
                pb == padded(b, fb as int, len as int),
                all_digits(pa),
                all_digits(pb),
                base == common_base(self.exponent(), other.exponent()),
                decimal_value(pa) == self.aligned(base),
                decimal_value(pb) == other.aligned(base),
                forall|j: int| 0 <= j < i ==> pa[j] == pb[j],
            decreases len - i,
        {
            let ca = if i < sig_a { self.digits[fa + i] } else { '0' };
            let cb = if i < sig_b { other.digits[fb + i] } else { '0' };
            assert(ca == pa[i as int]);
            assert(cb == pb[i as int]);
            if ca < cb {
                proof {
                    lemma_value_order(pa, pb, i as int);
                }
                return Order::Less;
            }
            if cb < ca {
                proof {
                    lemma_value_order(pb, pa, i as int);
                }
                return Order::Greater;
            }
            i = i + 1;
        }
        assert(pa =~= pb);
        Order::Equal
    }

    /// `self < other`, exactly.
    pub fn lt(&self, other: &Decimal) -> (r: bool)
        ensures
            r == self@.lt(other@),
    {
        let ghost base = common_base(self.exponent(), other.exponent());
        proof {
            self.lemma_scaled(base);
            other.lemma_scaled(base);
        }
        let o = self.magnitude_order(other);
        if self.negative {
            if other.negative {
                o == Order::Greater
            } else {
                o != Order::Equal || !self.is_zero()
            }
        } else {
            if other.negative {
                false
            } else {
                o == Order::Less
            }
        }
    }

    /// `-bound <= self <= bound`, exactly.
    pub fn within(&self, bound: &Decimal) -> (r: bool)
        ensures
            r == self@.within(bound@),
    {
        let ghost base = common_base(self.exponent(), bound.exponent());
        proof {
            self.lemma_scaled(base);
            bound.lemma_scaled(base);
        }
        if bound.negative && !bound.is_zero() {
            false
        } else {
            self.magnitude_order(bound) != Order::Greater
        }
    }
}

} // verus!
