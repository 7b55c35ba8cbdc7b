//! Double-precision numbers as bit patterns.
//!
//! Every number the renderer carries is an IEEE 754 binary64 value. This module
//! keeps such a value as the 64-bit integer that encodes it and decides every
//! comparison on that integer, so that each branch the renderer takes on a
//! number is a statement about integers. Arithmetic that rounds (sums,
//! products, roots) is not done here: callers compute it and hand the results
//! in.
use vstd::arithmetic::div_mod::lemma_div_denominator;
use vstd::arithmetic::power2::{lemma_pow2_pos, lemma_pow2_unfold, pow2};
use vstd::prelude::*;

verus! {

/// The sign bit of a binary64 pattern.
pub const SIGN_BIT: u64 = 0x8000_0000_0000_0000;

/// The pattern of positive infinity; every larger magnitude is a NaN.
pub const INFINITY_BITS: u64 = 0x7FF0_0000_0000_0000;

/// The pattern of negative infinity.
pub const NEG_INFINITY_BITS: u64 = 0xFFF0_0000_0000_0000;

/// The pattern of `1.0`.
pub const ONE_BITS: u64 = 0x3FF0_0000_0000_0000;

/// The pattern of `1/256`, the least brightness that is not written as the
/// byte 0.
pub const LEAST_VISIBLE_BITS: u64 = 0x3F70_0000_0000_0000;

/// Two to the power 52: the weight of the exponent field in a pattern, and
/// the leading bit that the fraction of a number stands behind.
pub const FRACTION_RANGE: u64 = 0x10_0000_0000_0000;

/// A binary64 number, held as its bit pattern.
///
/// `==` on this type compares patterns, so it tells `+0.0` from `-0.0` and
/// holds of a NaN and itself; [`Scalar::lt`] and its siblings compare the
/// numbers.
#[derive(Clone, Copy, Debug, PartialEq, Eq, Structural)]
pub struct Scalar {
    pub bits: u64,
}

impl Scalar {
    /// The pattern without its sign bit: exponent and fraction read as one
    /// integer. Among numbers of one sign it grows with the absolute value.
    pub open spec fn magnitude(self) -> int {
        self.bits as int % 0x8000_0000_0000_0000
    }

    /// Whether the sign bit is set.
    pub open spec fn is_negative(self) -> bool {
        self.bits >= SIGN_BIT
    }

    /// Whether the pattern encodes no number.
    pub open spec fn spec_is_nan(self) -> bool {
        self.magnitude() > INFINITY_BITS
    }

    /// The place of a number on the extended real line, as an integer that
    /// orders as the numbers do. Both zeros have rank 0. Meaningful for
    /// patterns that are not NaN.
    pub open spec fn rank(self) -> int {
        if self.is_negative() {
            -self.magnitude()
        } else {
            self.magnitude()
        }
    }

    /// The place of a pattern in the IEEE 754 total order: negative NaNs,
    /// negative infinity, negative numbers, `-0.0`, `+0.0`, positive numbers,
    /// positive infinity, positive NaNs.
    pub open spec fn total_rank(self) -> int {
        if self.is_negative() {
            -self.magnitude() - 1
        } else {
            self.magnitude()
        }
    }

    /// `self < other` as IEEE 754 defines it: false when either is a NaN.
    pub open spec fn spec_lt(self, other: Scalar) -> bool {
        !self.spec_is_nan() && !other.spec_is_nan() && self.rank() < other.rank()
    }

    /// `self <= other` as IEEE 754 defines it: false when either is a NaN.
    pub open spec fn spec_le(self, other: Scalar) -> bool {
        !self.spec_is_nan() && !other.spec_is_nan() && self.rank() <= other.rank()
    }

    /// `self > other` as IEEE 754 defines it.
    pub open spec fn spec_gt(self, other: Scalar) -> bool {
        other.spec_lt(self)
    }

    /// `self >= other` as IEEE 754 defines it.
    pub open spec fn spec_ge(self, other: Scalar) -> bool {
        other.spec_le(self)
    }

    /// The number with the opposite sign: the pattern with its sign bit flipped.
    pub open spec fn spec_neg(self) -> Scalar {
        if self.is_negative() {
            Scalar { bits: (self.bits - SIGN_BIT) as u64 }
        } else {
            Scalar { bits: (self.bits + SIGN_BIT) as u64 }
        }
    }

    /// The absolute value: the pattern with its sign bit cleared.
    pub open spec fn spec_abs(self) -> Scalar {
        Scalar { bits: self.magnitude() as u64 }
    }

    /// The lesser of two numbers. A NaN yields to the other argument; of two
    /// numbers that compare equal the first is returned.
    pub open spec fn spec_min(self, other: Scalar) -> Scalar {
        if self.spec_is_nan() {
            other
        } else if other.spec_lt(self) {
            other
        } else {
            self
        }
    }

    /// The greater of two numbers. A NaN yields to the other argument; of two
    /// numbers that compare equal the first is returned.
    pub open spec fn spec_max(self, other: Scalar) -> Scalar {
        if self.spec_is_nan() {
            other
        } else if self.spec_lt(other) {
            other
        } else {
            self
        }
    }

    /// Whether `self` comes strictly before `other` in the total order.
    pub open spec fn spec_total_lt(self, other: Scalar) -> bool {
        self.total_rank() < other.total_rank()
    }

    /// The exponent field of the pattern of a number that is not negative.
    pub open spec fn exponent_field(self) -> int {
        self.magnitude() / 0x10_0000_0000_0000
    }

    /// The fraction field of a pattern.
    pub open spec fn fraction_field(self) -> int {
        self.magnitude() % 0x10_0000_0000_0000
    }

    /// 256 times the number, cut to a whole number and held within a byte:
    /// 0 for a NaN and for anything negative, 255 for anything from 1 on.
    ///
    /// A number below 1 with exponent field `e` and fraction field `f` is at
    /// least `(2^52 + f) * 2^(e - 1075)`, and is exactly that unless it is
    /// subnormal; 256 times that, cut to a whole number, is `2^52 + f`
    /// divided by `2^(1067 - e)`. For a subnormal number the quotient is 0,
    /// as it must be.
    pub open spec fn spec_to_byte(self) -> u8 {
        if self.spec_is_nan() || self.is_negative() {
            0
        } else if self.exponent_field() >= 1023 {
            255
        } else {
            ((0x10_0000_0000_0000 + self.fraction_field()) / pow2(
                (1067 - self.exponent_field()) as nat,
            ) as int) as u8
        }
    }

    /// Positive zero.
    pub open spec fn spec_zero() -> Scalar {
        Scalar { bits: 0 }
    }

    /// The number one.
    pub open spec fn spec_one() -> Scalar {
        Scalar { bits: ONE_BITS }
    }

    /// Positive infinity.
    pub open spec fn spec_infinity() -> Scalar {
        Scalar { bits: INFINITY_BITS }
    }

    /// Negative infinity.
    pub open spec fn spec_neg_infinity() -> Scalar {
        Scalar { bits: NEG_INFINITY_BITS }
    }

    /// Wraps a bit pattern.
    pub fn from_bits(bits: u64) -> (res: Scalar)
        ensures
            res.bits == bits,
    {
        Scalar { bits }
    }

    /// The bit pattern.
    pub fn to_bits(self) -> (res: u64)
        ensures
            res == self.bits,
    {
        self.bits
    }

    #[verifier::when_used_as_spec(spec_zero)]
    pub fn zero() -> (res: Scalar)
        ensures
            res == Scalar::spec_zero(),
    {
        Scalar { bits: 0 }
    }

    #[verifier::when_used_as_spec(spec_one)]
    pub fn one() -> (res: Scalar)
        ensures
            res == Scalar::spec_one(),
    {
        Scalar { bits: ONE_BITS }
    }

    #[verifier::when_used_as_spec(spec_infinity)]
    pub fn infinity() -> (res: Scalar)
        ensures
            res == Scalar::spec_infinity(),
    {
        Scalar { bits: INFINITY_BITS }
    }

    #[verifier::when_used_as_spec(spec_neg_infinity)]
    pub fn neg_infinity() -> (res: Scalar)
        ensures
            res == Scalar::spec_neg_infinity(),
    {
        Scalar { bits: NEG_INFINITY_BITS }
    }

    fn magnitude_bits(self) -> (res: u64)
        ensures
            res == self.magnitude(),
            res < SIGN_BIT,
    {
        self.bits % SIGN_BIT
    }

    fn sign_set(self) -> (res: bool)
        ensures
            res == self.is_negative(),
    {
        self.bits >= SIGN_BIT
    }

    #[verifier::when_used_as_spec(spec_is_nan)]
    pub fn is_nan(self) -> (res: bool)
        ensures
            res == self.spec_is_nan(),
    {
        self.magnitude_bits() > INFINITY_BITS
    }

    #[verifier::when_used_as_spec(spec_lt)]
    pub fn lt(self, other: Scalar) -> (res: bool)
        ensures
            res == self.spec_lt(other),
    {
        if self.is_nan() || other.is_nan() {
            return false;
        }
        let a: u64 = self.magnitude_bits();
        let b: u64 = other.magnitude_bits();
        if self.sign_set() {
            if other.sign_set() {
                b < a
            } else {
                a > 0 || b > 0
            }
        } else {
            if other.sign_set() {
                false
            } else {
                a < b
            }
        }
    }

    #[verifier::when_used_as_spec(spec_le)]
    pub fn le(self, other: Scalar) -> (res: bool)
        ensures
            res == self.spec_le(other),
    {
        if self.is_nan() || other.is_nan() {
            return false;
        }
        !other.lt(self)
    }

    #[verifier::when_used_as_spec(spec_gt)]
    pub fn gt(self, other: Scalar) -> (res: bool)
        ensures
            res == self.spec_gt(other),
    {
        other.lt(self)
    }

    #[verifier::when_used_as_spec(spec_ge)]
    pub fn ge(self, other: Scalar) -> (res: bool)
        ensures
            res == self.spec_ge(other),
    {
        other.le(self)
    }

    #[verifier::when_used_as_spec(spec_neg)]
    pub fn neg(self) -> (res: Scalar)
        ensures
            res == self.spec_neg(),
    {
        if self.bits >= SIGN_BIT {
            Scalar { bits: self.bits - SIGN_BIT }
        } else {
            Scalar { bits: self.bits + SIGN_BIT }
        }
    }

    #[verifier::when_used_as_spec(spec_abs)]
    pub fn abs(self) -> (res: Scalar)
        ensures
            res == self.spec_abs(),
    {
        Scalar { bits: self.magnitude_bits() }
    }

    #[verifier::when_used_as_spec(spec_min)]
    pub fn min(self, other: Scalar) -> (res: Scalar)
        ensures
            res == self.spec_min(other),
    {
        if self.is_nan() {
            other
        } else if other.lt(self) {
            other
        } else {
            self
        }
    }

    #[verifier::when_used_as_spec(spec_max)]
    pub fn max(self, other: Scalar) -> (res: Scalar)
        ensures
            res == self.spec_max(other),
    {
        if self.is_nan() {
            other
        } else if self.lt(other) {
            other
        } else {
            self
        }
    }

    /// The brightness as a byte: 256 times the number, as a conversion of
    /// the product to a byte cuts and holds it.
    #[verifier::when_used_as_spec(spec_to_byte)]
    pub fn to_byte(self) -> (res: u8)
        ensures
            res == self.spec_to_byte(),
    {
        if self.is_nan() || self.sign_set() {
            return 0;
        }
        let exponent: u64 = self.bits / FRACTION_RANGE;
        let fraction: u64 = self.bits % FRACTION_RANGE;
        if exponent >= 1023 {
            return 255;
        }
        let significand: u64 = FRACTION_RANGE + fraction;
        let shift: u64 = 1067 - exponent;
        if shift > 53 {
            proof {
                lemma_pow2_at_least(53, shift as nat);
                assert(pow2(53) == 0x20_0000_0000_0000) by {
                    vstd::arithmetic::power2::lemma2_to64();
                    vstd::arithmetic::power2::lemma2_to64_rest();
                }
                vstd::arithmetic::div_mod::lemma_basic_div_specific_divisor(pow2(shift as nat) as int);
            }
            return 0;
        }
        let mut quotient: u64 = significand;
        let mut done: u64 = 0;
        proof {
            assert(pow2(0) == 1) by {
                vstd::arithmetic::power2::lemma2_to64();
            }
        }
        while done < shift
            invariant
                done <= shift,
                quotient == significand as int / pow2(done as nat) as int,
            decreases shift - done,
        {
            proof {
                lemma_pow2_pos(done as nat);
                lemma_pow2_unfold((done + 1) as nat);
                lemma_div_denominator(significand as int, pow2(done as nat) as int, 2);
                assert(pow2(done as nat) * 2 == 2 * pow2(done as nat)) by (nonlinear_arith);
            }
            quotient = quotient / 2;
            done = done + 1;
        }
        proof {
            lemma_pow2_at_least(45, shift as nat);
            assert(pow2(45) == 0x2000_0000_0000) by {
                vstd::arithmetic::power2::lemma2_to64();
                vstd::arithmetic::power2::lemma2_to64_rest();
            }
            lemma_quotient_is_small(significand as int, pow2(shift as nat) as int);
        }
        quotient as u8
    }

    #[verifier::when_used_as_spec(spec_total_lt)]
    pub fn total_lt(self, other: Scalar) -> (res: bool)
        ensures
            res == self.spec_total_lt(other),
    {
        let a: u64 = self.magnitude_bits();
        let b: u64 = other.magnitude_bits();
        if self.sign_set() {
            if other.sign_set() {
                b < a
            } else {
                true
            }
        } else {
            if other.sign_set() {
                false
            } else {
                a < b
            }
        }
    }
}

/// Powers of two grow with the exponent.
proof fn lemma_pow2_at_least(low: nat, high: nat)
    requires
        low <= high,
    ensures
        pow2(low) <= pow2(high),
{
    if low < high {
        vstd::arithmetic::power2::lemma_pow2_strictly_increases(low, high);
    }
}

/// A significand divided by at least two to the power 45 fits in a byte.
proof fn lemma_quotient_is_small(significand: int, divisor: int)
    requires
        0 <= significand < 0x20_0000_0000_0000,
        divisor >= 0x2000_0000_0000,
    ensures
        0 <= significand / divisor < 256,
{
    assert(significand / divisor < 256) by (nonlinear_arith)
        requires
            0 <= significand < 0x20_0000_0000_0000,
            divisor >= 0x2000_0000_0000,
    ;
    assert(0 <= significand / divisor) by (nonlinear_arith)
        requires
            0 <= significand,
            divisor > 0,
    ;
}

/// A brightness is written as a byte other than 0 exactly if it is at least
/// `1/256`.
pub proof fn lemma_byte_is_positive_from_least_visible(x: Scalar)
    ensures
        x.spec_to_byte() > 0 <==> (Scalar { bits: LEAST_VISIBLE_BITS }).spec_le(x),
{
    if x.spec_is_nan() || x.is_negative() {
    } else if x.exponent_field() >= 1023 {
    } else {
        let e = x.exponent_field();
        let significand = 0x10_0000_0000_0000 + x.fraction_field();
        let shift = (1067 - e) as nat;
        vstd::arithmetic::power2::lemma2_to64();
        vstd::arithmetic::power2::lemma2_to64_rest();
        if e >= 1015 {
            lemma_pow2_at_least(45, shift);
            lemma_pow2_at_least(shift, 52);
            lemma_quotient_is_small(significand, pow2(shift) as int);
            assert(significand / (pow2(shift) as int) >= 1) by (nonlinear_arith)
                requires
                    0 < pow2(shift) <= significand,
            ;
        } else {
            lemma_pow2_at_least(53, shift);
            vstd::arithmetic::div_mod::lemma_basic_div_specific_divisor(pow2(shift) as int);
        }
    }
}

/// Negation changes the sign of the rank and keeps NaNs NaN.
pub proof fn lemma_neg_mirrors(a: Scalar)
    ensures
        a.spec_neg().spec_is_nan() == a.spec_is_nan(),
        a.spec_neg().rank() == -a.rank(),
        a.spec_neg().spec_neg() == a,
{
}

/// The absolute value of a number is not negative, and is the number itself
/// or its negation.
pub proof fn lemma_abs_is_nonnegative(a: Scalar)
    ensures
        a.spec_abs().spec_is_nan() == a.spec_is_nan(),
        a.spec_abs().rank() >= 0,
        a.spec_abs() == (if a.is_negative() { a.spec_neg() } else { a }),
{
}

/// On numbers, `<=` is a total preorder and `<` is its strict part.
pub proof fn lemma_order_is_total(a: Scalar, b: Scalar, c: Scalar)
    requires
        !a.spec_is_nan(),
        !b.spec_is_nan(),
        !c.spec_is_nan(),
    ensures
        a.spec_le(a),
        a.spec_le(b) || b.spec_le(a),
        a.spec_le(b) && b.spec_le(c) ==> a.spec_le(c),
        a.spec_lt(b) <==> !b.spec_le(a),
{
}

/// The lesser of two numbers is one of them and exceeds neither; the greater
/// is one of them and is exceeded by neither.
pub proof fn lemma_min_max_bound(a: Scalar, b: Scalar)
    requires
        !a.spec_is_nan(),
        !b.spec_is_nan(),
    ensures
        a.spec_min(b) == a || a.spec_min(b) == b,
        a.spec_min(b).spec_le(a),
        a.spec_min(b).spec_le(b),
        a.spec_max(b) == a || a.spec_max(b) == b,
        a.spec_le(a.spec_max(b)),
        b.spec_le(a.spec_max(b)),
{
}

/// The total order agrees with `<` wherever `<` holds, and tells apart any
/// two distinct patterns.
pub proof fn lemma_total_order_refines(a: Scalar, b: Scalar)
    ensures
        a.spec_lt(b) ==> a.spec_total_lt(b),
        a != b ==> a.spec_total_lt(b) || b.spec_total_lt(a),
        !(a.spec_total_lt(b) && b.spec_total_lt(a)),
{
}

} // verus!
