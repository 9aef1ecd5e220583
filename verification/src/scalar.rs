//! Binary64 numbers held as their bit patterns.
//!
//! The engine's arithmetic runs on the machine's floating-point unit, outside
//! this library. Every decision the engine takes on a number (an order test, a
//! sign flip, a clamp, a truncation to an integer) is taken here, on the
//! number's 64 bits, and proved against the number the bits stand for.
//!
//! A pattern that is not a NaN stands for `value() * 2^-1074`: every binary64
//! number is a whole multiple of the smallest subnormal, so `value()` is an
//! integer. The two infinities are given the value that their exponent field
//! would have as an ordinary one, which lies beyond every finite number.
use vstd::arithmetic::div_mod::{
    lemma_basic_div,
    lemma_div_is_ordered,
    lemma_div_multiples_vanish,
    lemma_div_multiples_vanish_quotient,
};
use vstd::arithmetic::mul::{lemma_mul_is_commutative, lemma_mul_strict_inequality};
use vstd::arithmetic::power2::{
    lemma2_to64,
    lemma2_to64_rest,
    lemma_pow2_adds,
    lemma_pow2_pos,
    lemma_pow2_strictly_increases,
    pow2,
};
use vstd::bits::{lemma_u64_pow2_no_overflow, lemma_u64_shl_is_mul};
use vstd::prelude::*;

verus! {

/// The sign bit of a pattern.
pub const SIGN_BIT: u64 = 0x8000_0000_0000_0000;

/// Two to the 52nd: the bit that a normal number's fraction leaves unwritten.
pub const HIDDEN_BIT: u64 = 0x0010_0000_0000_0000;

/// The exponent field of the number one.
pub const EXPONENT_BIAS: u64 = 1023;

/// The exponent field of the infinities and the NaNs.
pub const EXPONENT_TOP: u64 = 2047;

/// The pattern of `0.0`.
pub const ZERO_BITS: u64 = 0;

/// The pattern of `1.0`.
pub const ONE_BITS: u64 = 0x3ff0_0000_0000_0000;

/// The pattern of positive infinity.
pub const INFINITY_BITS: u64 = 0x7ff0_0000_0000_0000;

/// A binary64 number, as its bit pattern.
#[derive(Clone, Copy, Debug)]
pub struct Scalar {
    pub bits: u64,
}

impl Scalar {
    /// The sign bit is set. This holds of `-0.0` too.
    pub open spec fn negative(self) -> bool {
        self.bits >= SIGN_BIT
    }

    /// The pattern without its sign bit.
    pub open spec fn abs_bits(self) -> nat {
        (self.bits % SIGN_BIT) as nat
    }

    /// The eleven bits of the exponent field.
    pub open spec fn exponent(self) -> nat {
        ((self.bits / HIDDEN_BIT) % 2048) as nat
    }

    /// The fifty-two bits of the fraction field.
    pub open spec fn fraction(self) -> nat {
        (self.bits % HIDDEN_BIT) as nat
    }

    /// The pattern is a NaN: it stands for no number.
    pub open spec fn is_nan(self) -> bool {
        self.exponent() == EXPONENT_TOP && self.fraction() != 0
    }

    /// The pattern is one of the two infinities.
    pub open spec fn is_infinite(self) -> bool {
        self.exponent() == EXPONENT_TOP && self.fraction() == 0
    }

    /// The fraction of a normal number with its unwritten leading bit.
    pub open spec fn significand(self) -> nat {
        HIDDEN_BIT as nat + self.fraction()
    }

    /// The absolute value, in units of `2^-1074`.
    pub open spec fn magnitude(self) -> nat {
        if self.exponent() == 0 {
            self.fraction()
        } else {
            self.significand() * pow2((self.exponent() - 1) as nat)
        }
    }

    /// The number, in units of `2^-1074`.
    pub open spec fn value(self) -> int {
        if self.negative() {
            -(self.magnitude() as int)
        } else {
            self.magnitude() as int
        }
    }

    /// The pattern read as a signed whole number: the pattern without its
    /// sign, taken below zero where the sign bit is set. Numbers are in the
    /// order of their keys.
    pub open spec fn key(self) -> int {
        if self.negative() {
            -(self.abs_bits() as int)
        } else {
            self.abs_bits() as int
        }
    }

    /// `self < rhs` as the machine decides it: false where either is a NaN.
    pub open spec fn lt_spec(self, rhs: Scalar) -> bool {
        !self.is_nan() && !rhs.is_nan() && self.value() < rhs.value()
    }

    /// `self <= rhs` as the machine decides it: false where either is a NaN.
    pub open spec fn le_spec(self, rhs: Scalar) -> bool {
        !self.is_nan() && !rhs.is_nan() && self.value() <= rhs.value()
    }

    /// `self > rhs` as the machine decides it.
    pub open spec fn gt_spec(self, rhs: Scalar) -> bool {
        rhs.lt_spec(self)
    }

    /// `self >= rhs` as the machine decides it.
    pub open spec fn ge_spec(self, rhs: Scalar) -> bool {
        rhs.le_spec(self)
    }

    /// The number with its sign bit flipped.
    pub open spec fn neg_spec(self) -> Scalar {
        if self.bits >= SIGN_BIT {
            Scalar { bits: (self.bits - SIGN_BIT) as u64 }
        } else {
            Scalar { bits: (self.bits + SIGN_BIT) as u64 }
        }
    }

    /// The number held between `lo` and `hi`; a NaN stays as it is.
    pub open spec fn clamp_spec(self, lo: Scalar, hi: Scalar) -> Scalar {
        if self.lt_spec(lo) {
            lo
        } else if self.gt_spec(hi) {
            hi
        } else {
            self
        }
    }

    /// The whole part of the number, rounded toward zero.
    pub open spec fn trunc(self) -> int {
        if self.negative() {
            -((self.magnitude() / pow2(1074)) as int)
        } else {
            (self.magnitude() / pow2(1074)) as int
        }
    }

    /// The number as a `u64`: its whole part, held within the type's range,
    /// and zero for a NaN.
    pub open spec fn to_u64_spec(self) -> u64 {
        if self.is_nan() || self.trunc() < 0 {
            0
        } else if self.trunc() > u64::MAX {
            u64::MAX
        } else {
            self.trunc() as u64
        }
    }

    /// The number as a `u8`: its whole part, held within the type's range,
    /// and zero for a NaN.
    pub open spec fn to_u8_spec(self) -> u8 {
        if self.is_nan() || self.trunc() < 0 {
            0
        } else if self.trunc() > u8::MAX {
            u8::MAX
        } else {
            self.trunc() as u8
        }
    }

    /// The number as a `usize`: its whole part, held within the type's range,
    /// and zero for a NaN.
    pub open spec fn to_usize_spec(self) -> usize {
        if self.is_nan() || self.trunc() < 0 {
            0
        } else if self.trunc() > usize::MAX {
            usize::MAX
        } else {
            self.trunc() as usize
        }
    }

    /// The number with the given pattern.
    pub fn from_bits(bits: u64) -> (r: Scalar)
        ensures
            r.bits == bits,
    {
        Scalar { bits }
    }

    /// The number's pattern.
    pub fn to_bits(self) -> (r: u64)
        ensures
            r == self.bits,
    {
        self.bits
    }

    /// `0.0`.
    pub fn zero() -> (r: Scalar)
        ensures
            r.bits == ZERO_BITS,
            !r.is_nan(),
            r.value() == 0,
    {
        Scalar { bits: ZERO_BITS }
    }

    /// `1.0`.
    pub fn one() -> (r: Scalar)
        ensures
            r.bits == ONE_BITS,
            !r.is_nan(),
            r.value() == pow2(1074),
    {
        let r = Scalar { bits: ONE_BITS };
        proof {
            assert(r.exponent() == 1023 && r.fraction() == 0);
            lemma2_to64_rest();
            lemma_pow2_adds(52, 1022);
        }
        r
    }

    /// Positive infinity.
    pub fn infinity() -> (r: Scalar)
        ensures
            r.bits == INFINITY_BITS,
            r.is_infinite(),
            !r.negative(),
    {
        let r = Scalar { bits: INFINITY_BITS };
        proof {
            assert(r.exponent() == 2047 && r.fraction() == 0);
        }
        r
    }

    /// Whether the pattern is a NaN.
    pub fn nan(self) -> (r: bool)
        ensures
            r == self.is_nan(),
    {
        (self.bits / HIDDEN_BIT) % 2048 == EXPONENT_TOP && self.bits % HIDDEN_BIT != 0
    }

    /// Whether the sign bit is set.
    pub fn sign(self) -> (r: bool)
        ensures
            r == self.negative(),
    {
        self.bits >= SIGN_BIT
    }

    /// `self < rhs`, as the machine's comparison of the two numbers decides it.
    pub fn lt(self, rhs: Scalar) -> (r: bool)
        ensures
            r == self.lt_spec(rhs),
    {
        if self.nan() || rhs.nan() {
            return false;
        }
        let a: u64 = self.bits % SIGN_BIT;
        let b: u64 = rhs.bits % SIGN_BIT;
        proof {
            lemma_order_by_key(self, rhs);
        }
        if self.bits >= SIGN_BIT {
            if rhs.bits >= SIGN_BIT {
                b < a
            } else {
                a != 0 || b != 0
            }
        } else {
            if rhs.bits >= SIGN_BIT {
                false
            } else {
                a < b
            }
        }
    }

    /// `self <= rhs`, as the machine's comparison of the two numbers decides it.
    pub fn le(self, rhs: Scalar) -> (r: bool)
        ensures
            r == self.le_spec(rhs),
    {
        if self.nan() || rhs.nan() {
            return false;
        }
        !rhs.lt(self)
    }

    /// `self > rhs`, as the machine's comparison of the two numbers decides it.
    pub fn gt(self, rhs: Scalar) -> (r: bool)
        ensures
            r == self.gt_spec(rhs),
    {
        rhs.lt(self)
    }

    /// `self >= rhs`, as the machine's comparison of the two numbers decides it.
    pub fn ge(self, rhs: Scalar) -> (r: bool)
        ensures
            r == self.ge_spec(rhs),
    {
        rhs.le(self)
    }

    /// The number with the opposite sign. A NaN stays a NaN, and the two
    /// zeros change places.
    pub fn neg(self) -> (r: Scalar)
        ensures
            r == self.neg_spec(),
            r.is_nan() == self.is_nan(),
            r.negative() == !self.negative(),
            r.magnitude() == self.magnitude(),
            r.value() == -self.value(),
    {
        if self.bits >= SIGN_BIT {
            Scalar { bits: self.bits - SIGN_BIT }
        } else {
            Scalar { bits: self.bits + SIGN_BIT }
        }
    }

    /// The number held between `lo` and `hi`: `lo` where it is below `lo`, `hi`
    /// where it is above `hi`, else itself. A NaN stays as it is.
    pub fn clamp(self, lo: Scalar, hi: Scalar) -> (r: Scalar)
        requires
            lo.le_spec(hi),
        ensures
            r == self.clamp_spec(lo, hi),
            self.is_nan() ==> r == self,
            !self.is_nan() ==> lo.le_spec(r) && r.le_spec(hi),
    {
        if self.lt(lo) {
            lo
        } else if self.gt(hi) {
            hi
        } else {
            self
        }
    }

    /// The number as a `u64`, as a cast of it gives it: the whole part, rounded
    /// toward zero, zero for a NaN and for what lies below zero, and the
    /// largest `u64` for what lies above it.
    pub fn to_u64(self) -> (r: u64)
        ensures
            r == self.to_u64_spec(),
    {
        if self.nan() || self.bits >= SIGN_BIT {
            proof {
                lemma_pow2_pos(1074);
                lemma_div_is_ordered(0, self.magnitude() as int, pow2(1074) as int);
            }
            return 0;
        }
        let e: u64 = (self.bits / HIDDEN_BIT) % 2048;
        let f: u64 = self.bits % HIDDEN_BIT;
        let m: u64 = HIDDEN_BIT + f;
        proof {
            lemma_whole_part(self);
        }
        if e < EXPONENT_BIAS {
            0
        } else if e >= EXPONENT_BIAS + 64 {
            proof {
                let c = (e - 1075) as nat;
                lemma2_to64();
                if c > 12 {
                    lemma_pow2_strictly_increases(12, c);
                }
                assert(m * pow2(c) >= 0x1_0000_0000_0000_0000) by (nonlinear_arith)
                    requires
                        m >= 0x0010_0000_0000_0000,
                        pow2(c) >= 0x1000,
                ;
            }
            u64::MAX
        } else if e <= EXPONENT_BIAS + 52 {
            let d: u64 = power_of_two(EXPONENT_BIAS + 52 - e);
            proof {
                lemma_div_is_ordered(0, m as int, d as int);
                assert(m / d <= m) by (nonlinear_arith)
                    requires
                        d >= 1,
                ;
            }
            m / d
        } else {
            let d: u64 = power_of_two(e - (EXPONENT_BIAS + 52));
            proof {
                let c = (e - 1075) as nat;
                lemma2_to64();
                if c < 11 {
                    lemma_pow2_strictly_increases(c, 11);
                }
                assert(m * d <= 0xffff_ffff_ffff_ffff) by (nonlinear_arith)
                    requires
                        m < 0x0020_0000_0000_0000,
                        d <= 0x800,
                ;
            }
            m * d
        }
    }

    /// The number as a `u8`, as a cast of it gives it: the whole part, rounded
    /// toward zero, zero for a NaN and for what lies below zero, and 255 for
    /// what lies above it.
    pub fn to_u8(self) -> (r: u8)
        ensures
            r == self.to_u8_spec(),
    {
        let w: u64 = self.to_u64();
        if w > 255 {
            255
        } else {
            w as u8
        }
    }

    /// The number as a `usize`, as a cast of it gives it: the whole part,
    /// rounded toward zero, zero for a NaN and for what lies below zero, and
    /// the largest `usize` for what lies above it.
    pub fn to_usize(self) -> (r: usize)
        ensures
            r == self.to_usize_spec(),
    {
        let w: u64 = self.to_u64();
        if w > usize::MAX as u64 {
            usize::MAX
        } else {
            w as usize
        }
    }
}

/// Two to the power `k`.
fn power_of_two(k: u64) -> (r: u64)
    requires
        k < 64,
    ensures
        r == pow2(k as nat),
        r >= 1,
{
    proof {
        lemma_u64_pow2_no_overflow(k as nat);
        lemma_u64_shl_is_mul(1, k);
    }
    1u64 << k
}

/// The whole part of an absolute value, by the size of the exponent field:
/// nothing below the bias, the leading bits of the significand up to where
/// the fraction ends, and the significand with zeros behind it from there on.
pub proof fn lemma_whole_part(x: Scalar)
    ensures
        x.exponent() < 1023 ==> x.magnitude() / pow2(1074) == 0,
        1023 <= x.exponent() <= 1075 ==> x.magnitude() / pow2(1074) == x.significand() / pow2(
            (1075 - x.exponent()) as nat,
        ),
        1075 <= x.exponent() ==> x.magnitude() / pow2(1074) == x.significand() * pow2(
            (x.exponent() - 1075) as nat,
        ),
{
    lemma_fields(x);
    lemma2_to64_rest();
    let e = x.exponent();
    let m = x.significand();
    let unit = pow2(1074);
    lemma_pow2_pos(1074);
    if e == 0 {
        lemma_pow2_strictly_increases(52, 1074);
        lemma_basic_div(x.magnitude() as int, unit as int);
    } else if e < 1023 {
        let p = pow2((e - 1) as nat);
        lemma_pow2_pos((e - 1) as nat);
        lemma_pow2_adds(53, (e - 1) as nat);
        assert(m * p < pow2(53) * p) by (nonlinear_arith)
            requires
                m < pow2(53),
                p >= 1,
        ;
        if 52 + e < 1074 {
            lemma_pow2_strictly_increases((52 + e) as nat, 1074);
        }
        lemma_basic_div(x.magnitude() as int, unit as int);
    } else if e <= 1075 {
        let a = (e - 1) as nat;
        let b = (1075 - e) as nat;
        lemma_pow2_adds(a, b);
        lemma_pow2_pos(a);
        lemma_pow2_pos(b);
        lemma_div_multiples_vanish_quotient(pow2(a) as int, m as int, pow2(b) as int);
        lemma_mul_is_commutative(m as int, pow2(a) as int);
        assert(x.magnitude() / unit == m / pow2(b));
        if e == 1075 {
            lemma2_to64();
            assert(b == 0 && pow2(b) == 1);
            assert(m / 1 == m);
            assert(m * pow2(0) == m) by (nonlinear_arith)
                requires
                    pow2(0) == 1,
            ;
        }
    } else {
        let c = (e - 1075) as nat;
        lemma_pow2_adds(1074, c);
        assert(pow2((e - 1) as nat) == unit * pow2(c));
        lemma_div_multiples_vanish((m * pow2(c)) as int, unit as int);
        assert(m * (unit * pow2(c)) == unit * (m * pow2(c))) by (nonlinear_arith);
        assert(x.magnitude() == unit * (m * pow2(c)));
    }
}

/// The pattern without its sign is the exponent field above the fraction field.
pub proof fn lemma_fields(x: Scalar)
    ensures
        x.abs_bits() == x.exponent() * HIDDEN_BIT + x.fraction(),
        x.exponent() < 2048,
        x.fraction() < HIDDEN_BIT,
{
    let b = x.bits;
    assert(b % 0x8000_0000_0000_0000 == ((b / 0x0010_0000_0000_0000) % 2048)
        * 0x0010_0000_0000_0000 + b % 0x0010_0000_0000_0000) by (bit_vector);
}

/// Only the two zeros have magnitude zero.
pub proof fn lemma_magnitude_zero(x: Scalar)
    ensures
        x.magnitude() == 0 <==> x.abs_bits() == 0,
{
    lemma_fields(x);
    if x.exponent() != 0 {
        let p = pow2((x.exponent() - 1) as nat);
        lemma_pow2_pos((x.exponent() - 1) as nat);
        assert((HIDDEN_BIT + x.fraction()) * p >= 1) by (nonlinear_arith)
            requires
                p >= 1,
                HIDDEN_BIT + x.fraction() >= 1,
        ;
    }
}

/// The magnitude grows with the pattern: of two patterns without their signs,
/// the smaller stands for the smaller absolute value.
pub proof fn lemma_magnitude_order(x: Scalar, y: Scalar)
    ensures
        x.abs_bits() < y.abs_bits() ==> x.magnitude() < y.magnitude(),
        x.abs_bits() == y.abs_bits() ==> x.magnitude() == y.magnitude(),
{
    lemma_fields(x);
    lemma_fields(y);
    let ex = x.exponent();
    let ey = y.exponent();
    let fx = x.fraction();
    let fy = y.fraction();
    let h = HIDDEN_BIT as nat;
    if x.abs_bits() == y.abs_bits() {
        assert(ex == ey && fx == fy) by (nonlinear_arith)
            requires
                ex * h + fx == ey * h + fy,
                fx < h,
                fy < h,
        ;
    }
    if x.abs_bits() < y.abs_bits() {
        assert(ex < ey || (ex == ey && fx < fy)) by (nonlinear_arith)
            requires
                ex * h + fx < ey * h + fy,
                fx < h,
                fy < h,
        ;
        if ex == ey {
            if ex != 0 {
                let p = pow2((ex - 1) as nat);
                lemma_pow2_pos((ex - 1) as nat);
                lemma_mul_strict_inequality((h + fx) as int, (h + fy) as int, p as int);
            }
        } else {
            let q = pow2((ey - 1) as nat);
            lemma_pow2_pos((ey - 1) as nat);
            assert(h * q <= (h + fy) * q) by (nonlinear_arith);
            if ex == 0 {
                assert(h <= h * q) by (nonlinear_arith)
                    requires
                        q >= 1,
                ;
            } else {
                let p = pow2((ex - 1) as nat);
                lemma_pow2_pos((ex - 1) as nat);
                assert((h + fx) * p < 2 * h * p) by (nonlinear_arith)
                    requires
                        fx < h,
                        p >= 1,
                ;
                lemma_pow2_adds(1, (ex - 1) as nat);
                lemma2_to64();
                assert(pow2(ex) == 2 * p);
                if ex < ey - 1 {
                    lemma_pow2_strictly_increases(ex, (ey - 1) as nat);
                }
                assert(pow2(ex) <= q);
                assert(2 * h * p <= h * q) by (nonlinear_arith)
                    requires
                        2 * p <= q,
                ;
            }
        }
    }
}

/// Numbers are in the order of their keys, so two patterns can be put in
/// order without working out what they stand for.
pub proof fn lemma_order_by_key(x: Scalar, y: Scalar)
    ensures
        x.value() < y.value() <==> x.key() < y.key(),
        x.value() == y.value() <==> x.key() == y.key(),
{
    lemma_magnitude_order(x, y);
    lemma_magnitude_order(y, x);
    lemma_magnitude_zero(x);
    lemma_magnitude_zero(y);
}

/// Flipping the sign bit gives the opposite number, leaves a NaN a NaN, and
/// undoes itself.
pub proof fn lemma_neg(x: Scalar)
    ensures
        x.neg_spec().is_nan() == x.is_nan(),
        x.neg_spec().negative() == !x.negative(),
        x.neg_spec().magnitude() == x.magnitude(),
        x.neg_spec().value() == -x.value(),
        x.neg_spec().neg_spec() == x,
{
}

/// Two numbers of one value that is not zero have one pattern.
pub proof fn lemma_same_value(x: Scalar, y: Scalar)
    requires
        !x.is_nan(),
        !y.is_nan(),
        x.value() == y.value(),
        x.value() != 0,
    ensures
        x == y,
{
    lemma_magnitude_order(x, y);
    lemma_magnitude_order(y, x);
    assert(x.negative() == y.negative());
    assert(x.abs_bits() == y.abs_bits());
    let a = x.bits;
    let b = y.bits;
    assert(a == b) by (bit_vector)
        requires
            a % 0x8000_0000_0000_0000 == b % 0x8000_0000_0000_0000,
            (a >= 0x8000_0000_0000_0000) == (b >= 0x8000_0000_0000_0000),
    ;
}

} // verus!
