//! The numbers that decimal text denotes, and their order.

use vstd::arithmetic::power::{lemma_pow_adds, lemma_pow_positive, pow};
use vstd::prelude::*;

verus! {

/// What a piece of decimal text denotes: either the exact number
/// `mantissa * 10^exponent`, or something that is no finite number (an
/// infinity, or not a number at all).
pub enum Number {
    Finite { mantissa: int, exponent: int },
    NonFinite,
}

/// `magnitude` with a sign in front of it.
pub open spec fn signed(negative: bool, magnitude: nat) -> int {
    if negative {
        -(magnitude as int)
    } else {
        magnitude as int
    }
}

/// The smaller of two exponents: the power of ten in which two numbers can
/// both be counted in whole units.
pub open spec fn common_base(a: int, b: int) -> int {
    if a <= b {
        a
    } else {
        b
    }
}

impl Number {
    /// The whole number `n`.
    pub open spec fn integer(n: int) -> Number {
        Number::Finite { mantissa: n, exponent: 0 }
    }

    /// The exponent of a finite number; zero for the others.
    pub open spec fn exponent(self) -> int {
        match self {
            Number::Finite { exponent, .. } => exponent,
            Number::NonFinite => 0,
        }
    }

    /// How many units of `10^base` a finite number holds. It is a whole
    /// number wherever `base` is at most the number's exponent.
    pub open spec fn scaled(self, base: int) -> int
        recommends
            self is Finite,
            base <= self.exponent(),
    {
        match self {
            Number::Finite { mantissa, exponent } => mantissa * pow(10, (exponent - base) as nat),
            Number::NonFinite => 0,
        }
    }

    /// `self < other`, as numbers. False unless both are finite.
    pub open spec fn lt(self, other: Number) -> bool {
        let base = common_base(self.exponent(), other.exponent());
        self is Finite && other is Finite && self.scaled(base) < other.scaled(base)
    }

    /// `self <= other`, as numbers. False unless both are finite.
    pub open spec fn le(self, other: Number) -> bool {
        let base = common_base(self.exponent(), other.exponent());
        self is Finite && other is Finite && self.scaled(base) <= other.scaled(base)
    }

    /// The number with the other sign.
    pub open spec fn negated(self) -> Number {
        match self {
            Number::Finite { mantissa, exponent } => Number::Finite { mantissa: -mantissa, exponent },
            Number::NonFinite => Number::NonFinite,
        }
    }

    /// `-bound <= self <= bound`, as numbers.
    pub open spec fn within(self, bound: Number) -> bool {
        bound.negated().le(self) && self.le(bound)
    }

    /// Counting in a smaller unit multiplies the count by a power of ten.
    pub proof fn lemma_rescale(self, base: int, lower: int)
        requires
            self is Finite,
            lower <= base <= self.exponent(),
        ensures
            self.scaled(lower) == self.scaled(base) * pow(10, (base - lower) as nat),
    {
        let m = self->mantissa;
        let up = (self.exponent() - base) as nat;
        let down = (base - lower) as nat;
        lemma_pow_adds(10, up, down);
        let p = pow(10, up);
        let q = pow(10, down);
        assert(m * (p * q) == (m * p) * q) by (nonlinear_arith);
    }

    /// The order of two finite numbers can be read in any unit in which both
    /// are whole.
    pub proof fn lemma_order_in_any_unit(self, other: Number, base: int)
        requires
            self is Finite,
            other is Finite,
            base <= self.exponent(),
            base <= other.exponent(),
        ensures
            self.lt(other) == (self.scaled(base) < other.scaled(base)),
            self.le(other) == (self.scaled(base) <= other.scaled(base)),
    {
        let common = common_base(self.exponent(), other.exponent());
        self.lemma_rescale(common, base);
        other.lemma_rescale(common, base);
        let q = pow(10, (common - base) as nat);
        lemma_pow_positive(10, (common - base) as nat);
        let x = self.scaled(common);
        let y = other.scaled(common);
        assert((x < y) == (x * q < y * q) && (x <= y) == (x * q <= y * q)) by (nonlinear_arith)
            requires
                q > 0,
        ;
    }

    /// `lt` is a strict order of the finite numbers, and `le` is the order
    /// that goes with it.
    pub proof fn lemma_strict_order(self, b: Number, c: Number)
        ensures
            !self.lt(self),
            self.lt(b) ==> !b.lt(self),
            self.lt(b) && b.lt(c) ==> self.lt(c),
            self is Finite && b is Finite ==> (self.le(b) <==> !b.lt(self)),
            self.le(b) && b.le(self) ==> !self.lt(b) && !b.lt(self),
    {
        if self is Finite && b is Finite && c is Finite {
            let base = common_base(common_base(self.exponent(), b.exponent()), c.exponent());
            self.lemma_order_in_any_unit(b, base);
            b.lemma_order_in_any_unit(c, base);
            self.lemma_order_in_any_unit(c, base);
            b.lemma_order_in_any_unit(self, base);
        }
    }

    /// A number is the same however its mantissa and exponent share its size:
    /// ten times the mantissa with one less in the exponent is neither below
    /// nor above.
    pub proof fn lemma_same_number(mantissa: int, exponent: int)
        ensures
            ({
                let a = Number::Finite { mantissa, exponent };
                let b = Number::Finite { mantissa: mantissa * 10, exponent: exponent - 1 };
                a.le(b) && b.le(a) && !a.lt(b) && !b.lt(a)
            }),
    {
        let a = Number::Finite { mantissa, exponent };
        let b = Number::Finite { mantissa: mantissa * 10, exponent: exponent - 1 };
        a.lemma_rescale(exponent, exponent - 1);
        vstd::arithmetic::power::lemma_pow1(10);
        vstd::arithmetic::power::lemma_pow0(10);
        assert(a.scaled(exponent) == mantissa * 1);
        assert(b.scaled(exponent - 1) == (mantissa * 10) * 1);
    }
}

} // verus!
