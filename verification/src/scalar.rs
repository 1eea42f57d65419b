//! IEEE-754 binary64 values held by their bit patterns.
//!
//! A pattern is a sign bit, eleven bits of exponent and 52 bits of
//! fraction. A pattern whose exponent is not all ones stands for the number
//! `significand() * 2^(scale() - 1075)`, negated where the sign bit is set;
//! with an exponent of all ones it stands for an infinity where the fraction
//! is 0, and for no number (a NaN) otherwise.
//!
//! Comparing, negating and truncating such values takes no rounding, so
//! that integer arithmetic on the pattern does it exactly.

use vstd::arithmetic::power2::{
    lemma2_to64, lemma2_to64_rest, lemma_pow2_adds, lemma_pow2_pos, lemma_pow2_strictly_increases,
    pow2,
};
use vstd::bits::lemma_u64_shr_is_div;
use vstd::prelude::*;

verus! {

/// The sign bit of a binary64 pattern.
pub const SIGN_BIT: u64 = 0x8000_0000_0000_0000;

/// The pattern of positive infinity; every larger magnitude is a NaN.
pub const INFINITY_BITS: u64 = 0x7FF0_0000_0000_0000;

/// Two to the power 52: the implicit leading bit of a normal significand.
pub const HIDDEN_BIT: u64 = 0x0010_0000_0000_0000;

/// The pattern of 0.
pub const ZERO: u64 = 0;

/// The pattern of 1.
pub const ONE: u64 = 0x3FF0_0000_0000_0000;

/// The pattern of -1.
pub const MINUS_ONE: u64 = 0xBFF0_0000_0000_0000;

/// The pattern of negative infinity.
pub const NEG_INFINITY_BITS: u64 = 0xFFF0_0000_0000_0000;

/// A binary64 value, held by its bit pattern.
///
/// `==` on two scalars compares the patterns: it tells the two zeros apart
/// and finds a NaN equal to itself. The numeric comparisons are `lt`, `le`,
/// `gt` and `ge`.
#[derive(Clone, Copy, Debug, PartialEq, Eq, Structural)]
pub struct Scalar {
    pub bits: u64,
}

impl Scalar {
    /// Whether the sign bit is set.
    pub open spec fn negative(self) -> bool {
        self.bits >= SIGN_BIT
    }

    /// The pattern without its sign bit.
    pub open spec fn magnitude(self) -> int {
        if self.negative() {
            self.bits - SIGN_BIT
        } else {
            self.bits as int
        }
    }

    /// Whether the pattern is a NaN.
    pub open spec fn is_nan_spec(self) -> bool {
        self.magnitude() > INFINITY_BITS
    }

    /// The place of a value that is no NaN in the numeric order: patterns
    /// of one sign are ordered as their magnitudes are, and both zeros
    /// stand at 0.
    pub open spec fn rank(self) -> int {
        if self.negative() {
            -self.magnitude()
        } else {
            self.magnitude()
        }
    }

    /// `self < other` as IEEE-754 has it: false when either is a NaN.
    pub open spec fn lt_spec(self, other: Scalar) -> bool {
        !self.is_nan_spec() && !other.is_nan_spec() && self.rank() < other.rank()
    }

    /// `self <= other` as IEEE-754 has it: false when either is a NaN.
    pub open spec fn le_spec(self, other: Scalar) -> bool {
        !self.is_nan_spec() && !other.is_nan_spec() && self.rank() <= other.rank()
    }

    /// `self > other` as IEEE-754 has it.
    pub open spec fn gt_spec(self, other: Scalar) -> bool {
        other.lt_spec(self)
    }

    /// `self >= other` as IEEE-754 has it.
    pub open spec fn ge_spec(self, other: Scalar) -> bool {
        other.le_spec(self)
    }

    /// The value with its sign bit flipped.
    pub open spec fn neg_spec(self) -> Scalar {
        if self.negative() {
            Scalar { bits: (self.bits - SIGN_BIT) as u64 }
        } else {
            Scalar { bits: (self.bits + SIGN_BIT) as u64 }
        }
    }

    /// The value with its sign bit cleared.
    pub open spec fn abs_spec(self) -> Scalar {
        Scalar { bits: self.magnitude() as u64 }
    }

    /// The biased exponent field.
    pub open spec fn exponent(self) -> int {
        self.magnitude() / (HIDDEN_BIT as int)
    }

    /// The fraction field.
    pub open spec fn fraction(self) -> int {
        self.magnitude() % (HIDDEN_BIT as int)
    }

    /// The integer `m` such that a finite value is `m * 2^(e - 1075)` in
    /// magnitude, where `e` is `scale()`.
    pub open spec fn significand(self) -> int {
        if self.exponent() == 0 {
            self.fraction()
        } else {
            HIDDEN_BIT + self.fraction()
        }
    }

    /// The exponent that goes with `significand()`: the exponent field, and
    /// 1 for a subnormal value.
    pub open spec fn scale(self) -> int {
        if self.exponent() == 0 {
            1
        } else {
            self.exponent()
        }
    }

    /// The integer part of the magnitude of `self * 2^k`. Infinity counts
    /// as a value beyond every integer.
    pub open spec fn integer_part(self, k: nat) -> int {
        if self.scale() + k >= 1075 {
            self.significand() * pow2((self.scale() + k - 1075) as nat)
        } else {
            self.significand() / (pow2((1075 - self.scale() - k) as nat) as int)
        }
    }

    /// The integer part of the magnitude of `self * 2^k`, for `k` up to
    /// 255, where it is below 2^53, and 2^53 where it is not: the same as
    /// `integer_part` says up to there, in steps that can be followed on a
    /// given value. Of the 53 bits of the significand, `1075 - scale() - k`
    /// stand behind the binary point of the product.
    pub open spec fn whole_part(self, k: nat) -> int {
        let behind = 1075 - self.scale() - k;
        if behind > 52 {
            0
        } else if behind >= 0 {
            halved(self.significand(), behind)
        } else {
            0x20_0000_0000_0000
        }
    }

    /// `self * 2^k` rounded toward zero and brought into the range of
    /// `i32`, for `k` up to 255; 0 for a NaN.
    pub open spec fn truncated(self, k: nat) -> int {
        if self.is_nan_spec() {
            0
        } else if self.negative() {
            if self.whole_part(k) >= 0x8000_0000 {
                -0x8000_0000
            } else {
                -self.whole_part(k)
            }
        } else {
            if self.whole_part(k) > 0x7FFF_FFFF {
                0x7FFF_FFFF
            } else {
                self.whole_part(k)
            }
        }
    }

    /// The scalar with the given pattern.
    pub fn from_bits(bits: u64) -> (r: Scalar)
        ensures
            r.bits == bits,
    {
        Scalar { bits }
    }

    /// The pattern of the scalar.
    pub fn to_bits(self) -> (r: u64)
        ensures
            r == self.bits,
    {
        self.bits
    }

    /// The pattern without its sign bit.
    fn magnitude_bits(self) -> (r: u64)
        ensures
            r == self.magnitude(),
            r < SIGN_BIT,
    {
        if self.bits >= SIGN_BIT {
            self.bits - SIGN_BIT
        } else {
            self.bits
        }
    }

    /// The place in the numeric order, for a value that is no NaN.
    fn rank_of(self) -> (r: i64)
        requires
            !self.is_nan_spec(),
        ensures
            r == self.rank(),
    {
        let m: u64 = self.magnitude_bits();
        if self.bits >= SIGN_BIT {
            -(m as i64)
        } else {
            m as i64
        }
    }

    /// Whether the scalar is a NaN.
    #[verifier::when_used_as_spec(is_nan_spec)]
    pub fn is_nan(self) -> (r: bool)
        ensures
            r == self.is_nan_spec(),
    {
        self.magnitude_bits() > INFINITY_BITS
    }

    /// Numeric `<`.
    #[verifier::when_used_as_spec(lt_spec)]
    pub fn lt(self, other: Scalar) -> (r: bool)
        ensures
            r == self.lt_spec(other),
    {
        if self.is_nan() || other.is_nan() {
            false
        } else {
            self.rank_of() < other.rank_of()
        }
    }

    /// Numeric `<=`.
    #[verifier::when_used_as_spec(le_spec)]
    pub fn le(self, other: Scalar) -> (r: bool)
        ensures
            r == self.le_spec(other),
    {
        if self.is_nan() || other.is_nan() {
            false
        } else {
            self.rank_of() <= other.rank_of()
        }
    }

    /// Numeric `>`.
    #[verifier::when_used_as_spec(gt_spec)]
    pub fn gt(self, other: Scalar) -> (r: bool)
        ensures
            r == self.gt_spec(other),
    {
        other.lt(self)
    }

    /// Numeric `>=`.
    #[verifier::when_used_as_spec(ge_spec)]
    pub fn ge(self, other: Scalar) -> (r: bool)
        ensures
            r == self.ge_spec(other),
    {
        other.le(self)
    }

    /// The negated value: the sign bit flips, whatever the value is.
    #[verifier::when_used_as_spec(neg_spec)]
    pub fn neg(self) -> (r: Scalar)
        ensures
            r == self.neg_spec(),
            r.magnitude() == self.magnitude(),
            r.negative() != self.negative(),
    {
        if self.bits >= SIGN_BIT {
            Scalar { bits: self.bits - SIGN_BIT }
        } else {
            Scalar { bits: self.bits + SIGN_BIT }
        }
    }

    /// The absolute value: the sign bit is cleared.
    #[verifier::when_used_as_spec(abs_spec)]
    pub fn abs(self) -> (r: Scalar)
        ensures
            r == self.abs_spec(),
            !r.negative(),
            r.magnitude() == self.magnitude(),
    {
        Scalar { bits: self.magnitude_bits() }
    }

    /// The integer part of the magnitude of `self * 2^k`, or 2^53 where it
    /// is larger, for a value that is no NaN.
    fn whole_part_of(self, k: u8) -> (r: u64)
        requires
            !self.is_nan_spec(),
        ensures
            r == self.whole_part(k as nat),
            r <= 0x20_0000_0000_0000,
    {
        let mag: u64 = self.magnitude_bits();
        let exp: u64 = mag / HIDDEN_BIT;
        let frac: u64 = mag % HIDDEN_BIT;
        let m: u64 = if exp == 0 { frac } else { HIDDEN_BIT + frac };
        let e: u64 = if exp == 0 { 1 } else { exp };
        let total: u64 = e + k as u64;
        if total > 1075 {
            0x20_0000_0000_0000
        } else if 1075 - total > 52 {
            0
        } else {
            let behind: u64 = 1075 - total;
            proof {
                lemma_halved_is_shifted(m, behind);
                lemma_shifted_is_smaller(m, behind);
            }
            m >> behind
        }
    }

    /// `self * 2^k` rounded toward zero, as a conversion of the product to
    /// `i32` gives it: a value beyond the range of `i32` becomes the nearest
    /// end of the range, and a NaN becomes 0.
    pub fn scaled_to_i32(self, k: u8) -> (r: i32)
        ensures
            r == self.truncated(k as nat),
    {
        if self.is_nan() {
            return 0;
        }
        let w: u64 = self.whole_part_of(k);
        if self.bits >= SIGN_BIT {
            if w >= 0x8000_0000 {
                i32::MIN
            } else {
                -(w as i32)
            }
        } else {
            if w > 0x7FFF_FFFF {
                i32::MAX
            } else {
                w as i32
            }
        }
    }

    /// The value rounded toward zero, as a conversion to `i32` gives it.
    pub fn to_i32(self) -> (r: i32)
        ensures
            r == self.truncated(0),
    {
        self.scaled_to_i32(0)
    }
}

/// `m` divided by `2^s` without the remainder, for `s` from 0 to 63: `m` is
/// divided by 2^32 where the binary digits of `s` hold a 32, then by 2^16
/// where they hold a 16, and so on down to 2.
pub open spec fn halved(m: int, s: int) -> int {
    let m32 = if (s / 32) % 2 == 1 { m / 0x1_0000_0000 } else { m };
    let m16 = if (s / 16) % 2 == 1 { m32 / 0x1_0000 } else { m32 };
    let m8 = if (s / 8) % 2 == 1 { m16 / 0x100 } else { m16 };
    let m4 = if (s / 4) % 2 == 1 { m8 / 0x10 } else { m8 };
    let m2 = if (s / 2) % 2 == 1 { m4 / 4 } else { m4 };
    if s % 2 == 1 { m2 / 2 } else { m2 }
}

/// Dividing in steps is shifting.
proof fn lemma_halved_is_shifted(m: u64, s: u64)
    requires
        s < 64,
    ensures
        halved(m as int, s as int) == m >> s,
{
    let m32: u64 = if (s / 32) % 2 == 1 { m / 0x1_0000_0000 } else { m };
    let m16: u64 = if (s / 16) % 2 == 1 { m32 / 0x1_0000 } else { m32 };
    let m8: u64 = if (s / 8) % 2 == 1 { m16 / 0x100 } else { m16 };
    let m4: u64 = if (s / 4) % 2 == 1 { m8 / 0x10 } else { m8 };
    let m2: u64 = if (s / 2) % 2 == 1 { m4 / 4 } else { m4 };
    let m1: u64 = if s % 2 == 1 { m2 / 2 } else { m2 };
    assert(m1 == m >> s) by (bit_vector)
        requires
            s < 64,
            m32 == if (s / 32) % 2 == 1 { m / 0x1_0000_0000 } else { m },
            m16 == if (s / 16) % 2 == 1 { m32 / 0x1_0000 } else { m32 },
            m8 == if (s / 8) % 2 == 1 { m16 / 0x100 } else { m16 },
            m4 == if (s / 4) % 2 == 1 { m8 / 0x10 } else { m8 },
            m2 == if (s / 2) % 2 == 1 { m4 / 4 } else { m4 },
            m1 == if s % 2 == 1 { m2 / 2 } else { m2 },
    ;
}

/// Shifting to the right makes no number larger.
proof fn lemma_shifted_is_smaller(m: u64, s: u64)
    requires
        s < 64,
    ensures
        m >> s <= m,
{
    assert(m >> s <= m) by (bit_vector)
        requires
            s < 64,
    ;
}

/// What `whole_part` says in steps is the integer part of the magnitude of
/// `x * 2^k`, or 2^53 where the integer part is larger.
pub proof fn lemma_whole_part_is_integer_part(x: Scalar, k: nat)
    requires
        k <= 255,
    ensures
        x.integer_part(k) < 0x20_0000_0000_0000 ==> x.whole_part(k) == x.integer_part(k),
        x.integer_part(k) >= 0x20_0000_0000_0000 ==> x.whole_part(k) == 0x20_0000_0000_0000,
{
    lemma2_to64();
    lemma2_to64_rest();
    let m = x.significand();
    let behind = 1075 - x.scale() - k;
    assert(0 <= m < 0x20_0000_0000_0000);
    if behind > 52 {
        let p = pow2(behind as nat) as int;
        assert(x.integer_part(k) == m / p);
        if behind > 53 {
            lemma_pow2_strictly_increases(53, behind as nat);
        }
        lemma_quotient_vanishes(m, p);
    } else if behind > 0 {
        assert(x.integer_part(k) == m / (pow2(behind as nat) as int));
        lemma_halved_is_shifted(m as u64, behind as u64);
        lemma_u64_shr_is_div(m as u64, behind as u64);
        lemma_shifted_is_smaller(m as u64, behind as u64);
    } else if behind == 0 {
        assert(x.integer_part(k) == m * pow2(0));
        assert(m * 1 == m);
    } else {
        let p = pow2((-behind) as nat) as int;
        assert(x.integer_part(k) == m * p);
        if behind < -1 {
            lemma_pow2_strictly_increases(1, (-behind) as nat);
        }
        assert(x.exponent() != 0);
        lemma_product_is_large(m, p);
    }
}

/// The order of the magnitudes of two finite patterns is the order of the
/// numbers that they stand for, taken without their signs: `rank` orders
/// the values as the numbers are ordered.
pub proof fn lemma_magnitude_orders_values(a: Scalar, b: Scalar)
    requires
        a.magnitude() < INFINITY_BITS,
        b.magnitude() < INFINITY_BITS,
    ensures
        a.magnitude() <= b.magnitude() <==> a.significand() * pow2(a.scale() as nat)
            <= b.significand() * pow2(b.scale() as nat),
{
    lemma2_to64_rest();
    if a.exponent() == b.exponent() {
        lemma_pow2_pos(a.scale() as nat);
        lemma_scaling_keeps_order(a.significand(), b.significand(), pow2(a.scale() as nat) as int);
    } else if a.exponent() < b.exponent() {
        lemma_larger_exponent_is_larger(a, b);
    } else {
        lemma_larger_exponent_is_larger(b, a);
    }
}

/// A finite value with a smaller exponent field is the smaller number.
proof fn lemma_larger_exponent_is_larger(a: Scalar, b: Scalar)
    requires
        b.magnitude() < INFINITY_BITS,
        a.exponent() < b.exponent(),
    ensures
        a.magnitude() < b.magnitude(),
        a.significand() * pow2(a.scale() as nat) < b.significand() * pow2(b.scale() as nat),
{
    lemma2_to64_rest();
    let sa = a.scale() as nat;
    let sb = b.scale() as nat;
    lemma_pow2_pos(sa);
    if sa == sb {
        lemma_scaling_keeps_order(b.significand(), a.significand(), pow2(sa) as int);
    } else {
        lemma_pow2_adds((sb - sa) as nat, sa);
        lemma_pow2_pos((sb - sa) as nat);
        if sb - sa > 1 {
            lemma_pow2_strictly_increases(1, (sb - sa) as nat);
        }
        lemma2_to64();
        let ma = a.significand();
        let mb = b.significand();
        let p = pow2(sa) as int;
        let q = pow2((sb - sa) as nat) as int;
        assert(ma * p < mb * (q * p)) by (nonlinear_arith)
            requires
                0 <= ma < 0x20_0000_0000_0000,
                mb >= 0x10_0000_0000_0000,
                p > 0,
                q >= 2,
        ;
    }
}

/// Multiplying two numbers by one positive factor keeps their order.
proof fn lemma_scaling_keeps_order(x: int, y: int, p: int)
    requires
        p > 0,
    ensures
        x <= y <==> x * p <= y * p,
{
    assert(x <= y <==> x * p <= y * p) by (nonlinear_arith)
        requires
            p > 0,
    ;
}

/// A product of a number of at least 2^52 and one of at least 2 is at
/// least 2^53.
proof fn lemma_product_is_large(m: int, p: int)
    requires
        m >= 0x10_0000_0000_0000,
        p >= 2,
    ensures
        m * p >= 0x20_0000_0000_0000,
{
    assert(m * p >= 0x20_0000_0000_0000) by (nonlinear_arith)
        requires
            m >= 0x10_0000_0000_0000,
            p >= 2,
    ;
}

/// A quotient by a larger divisor is 0.
proof fn lemma_quotient_vanishes(m: int, p: int)
    requires
        0 <= m < p,
    ensures
        m / p == 0,
{
    assert(m / p == 0) by (nonlinear_arith)
        requires
            0 <= m < p,
    ;
}

} // verus!
