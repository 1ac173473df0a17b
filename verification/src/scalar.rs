//! Single-precision parameters, held as IEEE 754 bit patterns.
//!
//! The library stores, moves and compares these values. It never rounds: sums and products are
//! computed by the caller and handed in.
use vstd::arithmetic::power2::{lemma2_to64, lemma_pow2_adds, pow2};
use vstd::prelude::*;

verus! {

/// Bit pattern of positive infinity; larger magnitudes are not numbers.
pub const INFINITY_BITS: u32 = 0x7f80_0000;

/// Bit pattern of 1.
pub const ONE_BITS: u32 = 0x3f80_0000;

/// Bit pattern of one half.
pub const HALF_BITS: u32 = 0x3f00_0000;

/// Bit pattern of the number nearest to one ten-thousandth, below which a change is not visible.
pub const EPSILON_BITS: u32 = 0x38d1_b717;

/// The sign bit.
pub const SIGN_BITS: u32 = 0x8000_0000;

/// A single-precision number, by its bit pattern.
#[derive(Debug, Clone, Copy, PartialEq, Eq, Structural)]
pub struct Scalar {
    pub bits: u32,
}

/// The magnitude that the bits below the sign stand for, in units of the smallest positive number.
/// Every further exponent step doubles the unit.
pub open spec fn magnitude_units(m: int) -> int
    decreases m,
{
    if m < 0x100_0000 {
        m
    } else {
        2 * magnitude_units(m - 0x80_0000)
    }
}

impl Scalar {
    /// The bits below the sign.
    pub open spec fn magnitude(self) -> int {
        if self.bits < SIGN_BITS {
            self.bits as int
        } else {
            self.bits - SIGN_BITS
        }
    }

    /// Whether the pattern stands for no number.
    pub open spec fn is_nan_spec(self) -> bool {
        self.magnitude() > INFINITY_BITS
    }

    /// The value, in units of the smallest positive number. Both zeros are 0; an infinity is the
    /// number that would follow the largest finite one.
    pub open spec fn units(self) -> int {
        if self.bits < SIGN_BITS {
            magnitude_units(self.magnitude())
        } else {
            -magnitude_units(self.magnitude())
        }
    }

    /// `self` compares less than `other`.
    pub open spec fn lt_spec(self, other: Scalar) -> bool {
        !self.is_nan_spec() && !other.is_nan_spec() && self.units() < other.units()
    }

    /// `self` compares equal to `other`.
    pub open spec fn eq_value(self, other: Scalar) -> bool {
        !self.is_nan_spec() && !other.is_nan_spec() && self.units() == other.units()
    }

    /// `self` compares less than `other`, or equal to it.
    pub open spec fn le_spec(self, other: Scalar) -> bool {
        self.lt_spec(other) || self.eq_value(other)
    }

    /// `self` is 0 or more.
    pub open spec fn at_least_zero_spec(self) -> bool {
        !self.is_nan_spec() && self.units() >= 0
    }

    /// `self` differs from 0 by less than one ten-thousandth.
    pub open spec fn near_zero_spec(self) -> bool {
        &&& !self.is_nan_spec()
        &&& -magnitude_units(EPSILON_BITS as int) < self.units() < magnitude_units(
            EPSILON_BITS as int,
        )
    }

    /// `self` is below one ten-thousandth; every negative number is.
    pub open spec fn below_epsilon_spec(self) -> bool {
        !self.is_nan_spec() && self.units() < magnitude_units(EPSILON_BITS as int)
    }

    /// `self` differs from 1 by less than one ten-thousandth.
    pub open spec fn near_one_spec(self) -> bool {
        let gap = self.units() - magnitude_units(ONE_BITS as int);
        &&& !self.is_nan_spec()
        &&& -magnitude_units(EPSILON_BITS as int) < gap < magnitude_units(EPSILON_BITS as int)
    }

    /// The number, kept between two others.
    pub open spec fn clamped_spec(self, low: Scalar, high: Scalar) -> Scalar {
        if self.lt_spec(low) {
            low
        } else if high.lt_spec(self) {
            high
        } else {
            self
        }
    }

    pub fn zero() -> (s: Scalar)
        ensures
            s.bits == 0,
    {
        Scalar { bits: 0 }
    }

    pub fn one() -> (s: Scalar)
        ensures
            s.bits == ONE_BITS,
    {
        Scalar { bits: ONE_BITS }
    }

    pub fn half() -> (s: Scalar)
        ensures
            s.bits == HALF_BITS,
    {
        Scalar { bits: HALF_BITS }
    }

    fn magnitude_bits(self) -> (m: u32)
        ensures
            m == self.magnitude(),
    {
        if self.bits < SIGN_BITS {
            self.bits
        } else {
            self.bits - SIGN_BITS
        }
    }

    pub fn is_nan(self) -> (b: bool)
        ensures
            b == self.is_nan_spec(),
    {
        self.magnitude_bits() > INFINITY_BITS
    }

    /// A whole number that orders scalars as their values do, the two zeros alike.
    pub fn order_key(self) -> (k: i64)
        ensures
            k == self.key(),
    {
        if self.bits < SIGN_BITS {
            self.bits as i64
        } else {
            -((self.bits - SIGN_BITS) as i64)
        }
    }

    /// See `order_key`.
    pub open spec fn key(self) -> int {
        if self.bits < SIGN_BITS {
            self.bits as int
        } else {
            -(self.bits - SIGN_BITS)
        }
    }

    /// Numeric `<`; false where either side is no number.
    pub fn lt(self, other: Scalar) -> (b: bool)
        ensures
            b == self.lt_spec(other),
    {
        proof {
            lemma_key_orders(self, other);
        }
        !self.is_nan() && !other.is_nan() && self.order_key() < other.order_key()
    }

    /// The number, kept between two others.
    pub fn clamped(self, low: Scalar, high: Scalar) -> (r: Scalar)
        ensures
            r == self.clamped_spec(low, high),
    {
        if self.lt(low) {
            low
        } else if high.lt(self) {
            high
        } else {
            self
        }
    }

    /// Numeric `==`; false where either side is no number.
    pub fn equals(self, other: Scalar) -> (b: bool)
        ensures
            b == self.eq_value(other),
    {
        proof {
            lemma_key_orders(self, other);
        }
        !self.is_nan() && !other.is_nan() && self.order_key() == other.order_key()
    }

    /// Numeric `<=`; false where either side is no number.
    pub fn le(self, other: Scalar) -> (b: bool)
        ensures
            b == self.le_spec(other),
    {
        self.lt(other) || self.equals(other)
    }

    /// Numeric `>= 0`; false where the pattern stands for no number.
    pub fn at_least_zero(self) -> (b: bool)
        ensures
            b == self.at_least_zero_spec(),
    {
        proof {
            lemma_key_orders(self, Scalar { bits: 0 });
            assert(magnitude_units(0) == 0);
        }
        !self.is_nan() && self.order_key() >= 0
    }

    /// Whether the value is as good as 0.
    pub fn near_zero(self) -> (b: bool)
        ensures
            b == self.near_zero_spec(),
    {
        proof {
            lemma_magnitude_monotone(self.magnitude(), EPSILON_BITS as int);
            lemma_magnitude_monotone(EPSILON_BITS as int, self.magnitude());
            lemma_magnitude_nonnegative(self.magnitude());
            lemma_magnitude_nonnegative(EPSILON_BITS as int);
        }
        self.magnitude_bits() < EPSILON_BITS
    }

    /// Whether the value is below one ten-thousandth.
    pub fn below_epsilon(self) -> (b: bool)
        ensures
            b == self.below_epsilon_spec(),
    {
        proof {
            lemma_magnitude_monotone(self.magnitude(), EPSILON_BITS as int);
            lemma_magnitude_monotone(EPSILON_BITS as int, self.magnitude());
            lemma_magnitude_nonnegative(self.magnitude());
            assert(magnitude_units(EPSILON_BITS as int) > 0) by {
                lemma_magnitude_monotone(0, EPSILON_BITS as int);
            }
        }
        !self.is_nan() && (self.bits >= SIGN_BITS || self.bits < EPSILON_BITS)
    }

    /// Whether the value is as good as 1.
    pub fn near_one(self) -> (b: bool)
        ensures
            b == self.near_one_spec(),
    {
        proof {
            lemma_near_one(self);
        }
        // 838 steps above 1 and 1677 steps of half the size below it stay within the bound.
        ONE_BITS - 1677 <= self.bits && self.bits <= ONE_BITS + 838
    }
}

pub proof fn lemma_magnitude_nonnegative(m: int)
    requires
        0 <= m,
    ensures
        0 <= magnitude_units(m),
    decreases m,
{
    if m >= 0x100_0000 {
        lemma_magnitude_nonnegative(m - 0x80_0000);
    }
}

/// A larger bit pattern stands for a larger magnitude.
pub proof fn lemma_magnitude_monotone(a: int, b: int)
    ensures
        0 <= a < b ==> magnitude_units(a) < magnitude_units(b),
        a == b ==> magnitude_units(a) == magnitude_units(b),
    decreases b,
{
    if 0 <= a < b {
        if b < 0x100_0000 {
        } else if a >= 0x100_0000 {
            lemma_magnitude_monotone(a - 0x80_0000, b - 0x80_0000);
        } else {
            // a is below the step at which the unit doubles, b is not.
            if b - 0x80_0000 > 0x80_0000 {
                lemma_magnitude_monotone(0x80_0000, b - 0x80_0000);
            }
            assert(magnitude_units(0x80_0000) == 0x80_0000);
        }
    }
}

/// The order key orders numbers as their values do.
pub proof fn lemma_key_orders(a: Scalar, b: Scalar)
    ensures
        a.key() < b.key() <==> a.units() < b.units(),
        a.key() == b.key() <==> a.units() == b.units(),
{
    lemma_magnitude_monotone(a.magnitude(), b.magnitude());
    lemma_magnitude_monotone(b.magnitude(), a.magnitude());
    lemma_magnitude_nonnegative(a.magnitude());
    lemma_magnitude_nonnegative(b.magnitude());
    lemma_magnitude_monotone(0, a.magnitude());
    lemma_magnitude_monotone(0, b.magnitude());
    assert(magnitude_units(0) == 0);
}

/// Within one exponent the magnitude is the significand times a power of two.
proof fn lemma_magnitude_in_exponent(e: int, f: int)
    requires
        1 <= e,
        0 <= f < 0x80_0000,
    ensures
        magnitude_units(e * 0x80_0000 + f) == (0x80_0000 + f) * pow2((e - 1) as nat),
    decreases e,
{
    let m = e * 0x80_0000 + f;
    if e == 1 {
        lemma2_to64();
        assert(magnitude_units(m) == m);
        assert((0x80_0000 + f) * pow2(0) == 0x80_0000 + f) by (nonlinear_arith)
            requires
                pow2(0) == 1,
        ;
    } else {
        lemma_magnitude_in_exponent(e - 1, f);
        assert(m >= 0x100_0000);
        assert(m - 0x80_0000 == (e - 1) * 0x80_0000 + f);
        lemma2_to64();
        lemma_pow2_adds(1, (e - 2) as nat);
        assert(pow2((e - 1) as nat) == 2 * pow2((e - 2) as nat));
        assert(2 * ((0x80_0000 + f) * pow2((e - 2) as nat)) == (0x80_0000 + f) * (2 * pow2(
            (e - 2) as nat,
        ))) by (nonlinear_arith);
    }
}

proof fn lemma_near_one(s: Scalar)
    ensures
        s.near_one_spec() <==> ONE_BITS - 1677 <= s.bits <= ONE_BITS + 838,
{
    let p = pow2(112);
    let one = magnitude_units(ONE_BITS as int);
    let eps = magnitude_units(EPSILON_BITS as int);
    lemma2_to64();
    lemma_pow2_adds(112, 14);
    lemma_pow2_adds(112, 13);
    assert(pow2(126) == p * 16384);
    assert(pow2(125) == p * 8192);
    vstd::arithmetic::power2::lemma_pow2_pos(112);
    lemma_magnitude_in_exponent(113, 0x51_b717);
    assert(eps == 13_743_895 * p);
    lemma_magnitude_in_exponent(127, 0);
    assert(one == 0x80_0000 * pow2(126));
    // The last patterns on either side that stay within the bound, and the first that do not.
    lemma_magnitude_in_exponent(127, 838);
    lemma_magnitude_in_exponent(127, 839);
    lemma_magnitude_in_exponent(126, 0x80_0000 - 1677);
    lemma_magnitude_in_exponent(126, 0x80_0000 - 1678);
    assert(magnitude_units(ONE_BITS + 838) == 0x80_0346 * (16384 * p));
    assert(magnitude_units(ONE_BITS + 839) == 0x80_0347 * (16384 * p));
    assert(magnitude_units(ONE_BITS - 1677) == (0x100_0000 - 1677) * (8192 * p));
    assert(magnitude_units(ONE_BITS - 1678) == (0x100_0000 - 1678) * (8192 * p));
    if s.bits < SIGN_BITS {
        let m = s.bits as int;
        lemma_magnitude_monotone(m, ONE_BITS + 838);
        lemma_magnitude_monotone(ONE_BITS + 839, m);
        lemma_magnitude_monotone(m, ONE_BITS - 1678);
        lemma_magnitude_monotone(ONE_BITS - 1677, m);
    } else {
        lemma_magnitude_nonnegative(s.magnitude());
    }
}

} // verus!
