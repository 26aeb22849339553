//! Binary64 numbers by their bit patterns: their value, their order, and the operations on them
//! that need no rounding.

use vstd::arithmetic::power2::*;
use vstd::prelude::*;

verus! {

/// The pattern of negative zero, and the weight of the sign bit.
pub const SIGN: u64 = 0x8000_0000_0000_0000;

/// The pattern of positive infinity. The patterns above it, up to the sign bit, are no numbers.
pub const INFINITY: u64 = 0x7FF0_0000_0000_0000;

/// The weight of the lowest bit of the exponent.
pub const EXPONENT_UNIT: u64 = 0x0010_0000_0000_0000;

/// The pattern of 0.
pub const ZERO: u64 = 0;

/// The pattern of 1.
pub const ONE: u64 = 0x3FF0_0000_0000_0000;

/// The pattern of 4.
pub const FOUR: u64 = 0x4010_0000_0000_0000;

/// The pattern of 100.
pub const HUNDRED: u64 = 0x4059_0000_0000_0000;

/// A binary64 number, held as its bit pattern.
#[derive(Clone, Copy, Debug, PartialEq, Eq, Structural)]
pub struct Binary64 {
    pub bits: u64,
}

/// The number that has the given pattern.
pub open spec fn number(bits: u64) -> Binary64 {
    Binary64 { bits }
}

/// The pattern without its sign.
pub open spec fn magnitude(bits: u64) -> int {
    if bits >= SIGN {
        bits - SIGN
    } else {
        bits as int
    }
}

/// What the integer `n` is worth in units of the smallest positive number, 2 to the -1074.
pub open spec fn whole(n: int) -> int {
    n * pow2(1074)
}

/// The value of an unsigned pattern, in units of 2 to the -1074. Infinity comes out as the power
/// of two that follows the largest number.
pub open spec fn unsigned_value(magnitude: int) -> int {
    let exponent = magnitude / (EXPONENT_UNIT as int);
    let fraction = magnitude % (EXPONENT_UNIT as int);
    if exponent == 0 {
        fraction
    } else {
        (EXPONENT_UNIT + fraction) * pow2((exponent - 1) as nat)
    }
}

impl Binary64 {
    /// Whether this is not a number.
    pub open spec fn nan(self) -> bool {
        magnitude(self.bits) > INFINITY
    }

    /// Whether this is neither infinite nor not a number.
    pub open spec fn finite(self) -> bool {
        magnitude(self.bits) < INFINITY
    }

    /// The value, in units of 2 to the -1074; `whole(1)` is one. Infinities come out beyond every
    /// finite number.
    pub open spec fn value(self) -> int {
        if self.bits >= SIGN {
            -unsigned_value(magnitude(self.bits))
        } else {
            unsigned_value(magnitude(self.bits))
        }
    }

    /// Whether `self` is less than `other`. What is not a number is never less or greater.
    pub open spec fn below(self, other: Binary64) -> bool {
        !self.nan() && !other.nan() && self.value() < other.value()
    }

    /// Whether this is not a number.
    pub fn is_nan(self) -> (res: bool)
        ensures
            res == self.nan(),
    {
        if self.bits >= SIGN {
            self.bits - SIGN > INFINITY
        } else {
            self.bits > INFINITY
        }
    }

    /// Whether this is neither infinite nor not a number.
    pub fn is_finite(self) -> (res: bool)
        ensures
            res == self.finite(),
    {
        if self.bits >= SIGN {
            self.bits - SIGN < INFINITY
        } else {
            self.bits < INFINITY
        }
    }

    /// Whether `self` is less than `other`.
    pub fn is_below(self, other: Binary64) -> (res: bool)
        ensures
            res == self.below(other),
    {
        proof {
            lemma_unsigned_order(magnitude(self.bits), magnitude(other.bits));
            lemma_unsigned_order(magnitude(other.bits), magnitude(self.bits));
            lemma_unsigned_order(0, magnitude(self.bits));
            lemma_unsigned_order(0, magnitude(other.bits));
        }
        if self.is_nan() || other.is_nan() {
            false
        } else if self.bits < SIGN {
            other.bits < SIGN && self.bits < other.bits
        } else if other.bits < SIGN {
            self.bits > SIGN || other.bits > 0
        } else {
            other.bits < self.bits
        }
    }

    /// The number with its sign changed.
    pub fn negated(self) -> (res: Binary64)
        ensures
            res.value() == -self.value(),
            res.nan() == self.nan(),
            res.finite() == self.finite(),
            magnitude(res.bits) == magnitude(self.bits),
            (res.bits >= SIGN) != (self.bits >= SIGN),
    {
        if self.bits >= SIGN {
            Binary64 { bits: self.bits - SIGN }
        } else {
            Binary64 { bits: self.bits + SIGN }
        }
    }

    /// The number without its sign.
    pub fn absolute(self) -> (res: Binary64)
        ensures
            res.bits == magnitude(self.bits),
            res.value() == unsigned_value(magnitude(self.bits)),
    {
        if self.bits >= SIGN {
            Binary64 { bits: self.bits - SIGN }
        } else {
            self
        }
    }
}

/// Unsigned patterns are ordered as their values are.
pub proof fn lemma_unsigned_order(a: int, b: int)
    requires
        0 <= a,
        0 <= b,
    ensures
        a < b <==> unsigned_value(a) < unsigned_value(b),
        a == b <==> unsigned_value(a) == unsigned_value(b),
{
    if a < b {
        lemma_unsigned_increases(a, b);
    } else if b < a {
        lemma_unsigned_increases(b, a);
    }
}

proof fn lemma_unsigned_increases(a: int, b: int)
    requires
        0 <= a < b,
    ensures
        unsigned_value(a) < unsigned_value(b),
{
    let unit = EXPONENT_UNIT as int;
    let (ea, fa) = (a / unit, a % unit);
    let (eb, fb) = (b / unit, b % unit);
    if eb > 0 {
        let pb = pow2((eb - 1) as nat) as int;
        lemma_pow2_pos((eb - 1) as nat);
        if ea == eb {
            assert((unit + fa) * pb < (unit + fb) * pb) by (nonlinear_arith)
                requires
                    fa < fb,
                    pb > 0,
            ;
        } else if ea == 0 {
            assert((unit + fb) * pb >= unit) by (nonlinear_arith)
                requires
                    fb >= 0,
                    unit >= 0,
                    pb >= 1,
            ;
        } else {
            let pa = pow2((ea - 1) as nat) as int;
            lemma_pow2_pos((ea - 1) as nat);
            lemma_pow2_unfold(ea as nat);
            assert(pow2(ea as nat) == 2 * pa);
            if ea < eb - 1 {
                lemma_pow2_strictly_increases(ea as nat, (eb - 1) as nat);
            }
            assert((unit + fa) * pa < unit * pb) by (nonlinear_arith)
                requires
                    0 <= fa < unit,
                    pa > 0,
                    2 * pa <= pb,
            ;
            assert(unit * pb <= (unit + fb) * pb) by (nonlinear_arith)
                requires
                    0 <= fb,
                    pb > 0,
            ;
        }
    }
}

/// The value of the pattern of a whole number `n`, which has exponent `e` and `n` times two to
/// the `52 + 1023 - e` as its significand.
proof fn lemma_whole_pattern(bits: u64, e: nat, significand: int, n: int, odd: int, shift: nat)
    requires
        bits < SIGN,
        1 <= e,
        bits / EXPONENT_UNIT == e,
        EXPONENT_UNIT + bits % EXPONENT_UNIT == significand,
        significand == odd * pow2(shift),
        shift + e - 1 >= 1074,
        n == odd * pow2((shift + e - 1 - 1074) as nat),
    ensures
        unsigned_value(bits as int) == whole(n),
{
    let a = pow2(shift) as int;
    let b = pow2((e - 1) as nat) as int;
    let c = pow2((shift + e - 1 - 1074) as nat) as int;
    let d = pow2(1074) as int;
    lemma_pow2_adds(shift, (e - 1) as nat);
    lemma_pow2_adds((shift + e - 1 - 1074) as nat, 1074);
    assert(a * b == c * d);
    assert((odd * a) * b == (odd * c) * d) by (nonlinear_arith)
        requires
            a * b == c * d,
    ;
}

/// The patterns named here stand for the numbers that they are named after.
pub proof fn lemma_constants()
    ensures
        number(ZERO).value() == 0,
        number(ONE).value() == whole(1),
        number(FOUR).value() == whole(4),
        number(HUNDRED).value() == whole(100),
{
    lemma2_to64();
    lemma2_to64_rest();
    lemma_whole_pattern(ONE, 1023, 0x10_0000_0000_0000, 1, 1, 52);
    lemma_whole_pattern(FOUR, 1025, 0x10_0000_0000_0000, 4, 1, 52);
    lemma_whole_pattern(HUNDRED, 1029, 0x19_0000_0000_0000, 100, 25, 48);
}

/// Above four, taking two from the exponent divides by four.
pub proof fn lemma_quarter(magnitude: int)
    requires
        FOUR <= magnitude < INFINITY,
    ensures
        4 * unsigned_value(magnitude - 2 * EXPONENT_UNIT) == unsigned_value(magnitude),
{
    let unit = EXPONENT_UNIT as int;
    let (e, f) = (magnitude / unit, magnitude % unit);
    let less = magnitude - 2 * unit;
    assert(less / unit == e - 2 && less % unit == f);
    lemma_pow2_unfold((e - 1) as nat);
    lemma_pow2_unfold((e - 2) as nat);
    let q = pow2((e - 3) as nat) as int;
    assert(4 * ((unit + f) * q) == (unit + f) * (4 * q)) by (nonlinear_arith);
}

/// Among numbers, apart from the two zeros, the value determines the pattern.
pub proof fn law_value_determines_pattern(a: Binary64, b: Binary64)
    requires
        a.value() == b.value(),
        a.value() != 0,
    ensures
        a == b,
{
    lemma_unsigned_order(magnitude(a.bits), magnitude(b.bits));
    lemma_unsigned_order(0, magnitude(a.bits));
    lemma_unsigned_order(0, magnitude(b.bits));
}

/// Every finite number lies strictly between the two infinities.
pub proof fn law_infinities_enclose(a: Binary64)
    requires
        a.finite(),
    ensures
        a.below(number(INFINITY)),
        number((INFINITY + SIGN) as u64).below(a),
{
    lemma_unsigned_order(magnitude(a.bits), INFINITY as int);
    lemma_unsigned_order(0, magnitude(a.bits));
}

/// Among numbers the order is that of the patterns where both are positive, the reverse where both
/// are negative, and every negative one is below every positive one; the two zeros are equal.
pub proof fn law_order_by_pattern(a: Binary64, b: Binary64)
    requires
        !a.nan(),
        !b.nan(),
    ensures
        a.bits < SIGN && b.bits < SIGN ==> (a.below(b) <==> a.bits < b.bits),
        a.bits >= SIGN && b.bits >= SIGN ==> (a.below(b) <==> a.bits > b.bits),
        a.bits > SIGN && b.bits < SIGN ==> a.below(b) && !b.below(a),
        a.bits == SIGN && b.bits < SIGN ==> (a.below(b) <==> b.bits > 0) && !b.below(a),
{
    lemma_unsigned_order(magnitude(a.bits), magnitude(b.bits));
    lemma_unsigned_order(magnitude(b.bits), magnitude(a.bits));
    lemma_unsigned_order(0, magnitude(a.bits));
    lemma_unsigned_order(0, magnitude(b.bits));
}

/// What is no number is neither below nor above anything.
pub proof fn law_no_number_has_no_order(a: Binary64, b: Binary64)
    requires
        a.nan(),
    ensures
        !a.below(b),
        !b.below(a),
{
}

/// Patterns are of three kinds: finite numbers, the two infinities, and what is no number.
pub proof fn law_kinds_of_patterns(a: Binary64)
    ensures
        a.nan() <==> 0x7FF0_0000_0000_0000 < a.bits < 0x8000_0000_0000_0000 || a.bits
            > 0xFFF0_0000_0000_0000,
        a.finite() <==> a.bits < 0x7FF0_0000_0000_0000 || 0x8000_0000_0000_0000 <= a.bits
            < 0xFFF0_0000_0000_0000,
{
}

/// One more in the exponent doubles a number, and setting the sign changes its sign.
pub proof fn law_value_by_parts(a: Binary64)
    requires
        EXPONENT_UNIT <= a.bits < INFINITY,
    ensures
        number((a.bits + EXPONENT_UNIT) as u64).value() == 2 * a.value(),
        number((a.bits + SIGN) as u64).value() == -a.value(),
{
    let unit = EXPONENT_UNIT as int;
    let m = a.bits as int;
    let (e, f) = (m / unit, m % unit);
    assert((m + unit) / unit == e + 1 && (m + unit) % unit == f);
    lemma_pow2_unfold(e as nat);
    let q = pow2((e - 1) as nat) as int;
    assert((unit + f) * (2 * q) == 2 * ((unit + f) * q)) by (nonlinear_arith);
}

} // verus!
