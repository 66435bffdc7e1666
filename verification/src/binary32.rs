use vstd::prelude::*;
use vstd::arithmetic::power2::{pow2, lemma_pow2_pos, lemma_pow2_unfold, lemma_pow2_adds, lemma_pow2_strictly_increases, lemma2_to64};

verus! {

/// Bit pattern of the sign of a single-precision number.
pub const SIGN_BIT: u32 = 0x8000_0000;

/// Weight of the lowest exponent bit, which is also the implicit leading
/// digit of a normal significand.
pub const HIDDEN_BIT: u32 = 0x0080_0000;

/// Bit pattern of `0.0`.
pub const ZERO_BITS: u32 = 0x0000_0000;

/// Bit pattern of `1.0`.
pub const ONE_BITS: u32 = 0x3F80_0000;

/// Bit pattern of `100.0`.
pub const HUNDRED_BITS: u32 = 0x42C8_0000;

/// An IEEE 754 single-precision number, held as its 32-bit encoding.
///
/// Every finite value of the format is a whole multiple of `2^-149`, the
/// smallest subnormal. The contracts of this type count in that unit, so
/// that order and rounding are stated over integers.
#[derive(Clone, Copy, Debug, PartialEq, Eq, Structural)]
pub struct Binary32 {
    pub bits: u32,
}

/// The number one, counted in units of `2^-149`.
pub open spec fn unit() -> nat {
    pow2(149)
}

impl Binary32 {
    /// The sign bit is set.
    pub open spec fn negative(self) -> bool {
        self.bits >= SIGN_BIT
    }

    /// The eight exponent bits, as stored.
    pub open spec fn biased_exponent(self) -> nat {
        ((self.bits % SIGN_BIT) / HIDDEN_BIT) as nat
    }

    /// The twenty-three stored significand bits.
    pub open spec fn fraction(self) -> nat {
        (self.bits % HIDDEN_BIT) as nat
    }

    /// The encoding stands for no number.
    pub open spec fn is_nan(self) -> bool {
        self.biased_exponent() == 255 && self.fraction() != 0
    }

    /// The absolute value in units of `2^-149`. Infinity, which has no value,
    /// is given the next power of two above every finite magnitude, so that
    /// it compares as the largest.
    pub open spec fn magnitude(self) -> nat {
        if self.biased_exponent() == 0 {
            self.fraction()
        } else {
            (HIDDEN_BIT as nat + self.fraction()) * pow2((self.biased_exponent() - 1) as nat)
        }
    }

    /// The signed value in units of `2^-149`. Both zeros give 0.
    pub open spec fn scaled(self) -> int {
        if self.negative() {
            -(self.magnitude() as int)
        } else {
            self.magnitude() as int
        }
    }

    /// Numeric `<=`: false whenever either side is not a number.
    pub open spec fn le_spec(self, other: Binary32) -> bool {
        !self.is_nan() && !other.is_nan() && self.scaled() <= other.scaled()
    }

    /// Membership in the closed range from `low` to `high`.
    pub open spec fn within(self, low: Binary32, high: Binary32) -> bool {
        low.le_spec(self) && self.le_spec(high)
    }

    /// The number lies in `[0, 1]`.
    pub open spec fn is_fraction(self) -> bool {
        self.within(Binary32 { bits: ZERO_BITS }, Binary32 { bits: ONE_BITS })
    }

    /// The number lies in `[0, 100]`.
    pub open spec fn is_percentage(self) -> bool {
        self.within(Binary32 { bits: ZERO_BITS }, Binary32 { bits: HUNDRED_BITS })
    }

    /// Takes an encoding as it is.
    pub fn from_bits(bits: u32) -> (value: Binary32)
        ensures
            value.bits == bits,
    {
        Binary32 { bits }
    }

    /// Gives the encoding back.
    pub fn to_bits(self) -> (bits: u32)
        ensures
            bits == self.bits,
    {
        self.bits
    }

    /// Tells whether the encoding stands for no number.
    pub fn is_not_a_number(self) -> (nan: bool)
        ensures
            nan == self.is_nan(),
    {
        (self.bits % SIGN_BIT) / HIDDEN_BIT == 255 && self.bits % HIDDEN_BIT != 0
    }

    /// Numeric `<=` on two encodings.
    pub fn le(self, other: Binary32) -> (holds: bool)
        ensures
            holds == self.le_spec(other),
    {
        if self.is_not_a_number() || other.is_not_a_number() {
            return false;
        }
        let a: u32 = self.bits % SIGN_BIT;
        let b: u32 = other.bits % SIGN_BIT;
        proof {
            lemma_magnitude_order(self, other);
            lemma_magnitude_order(other, self);
            lemma_magnitude_zero(self);
            lemma_magnitude_zero(other);
        }
        if self.bits >= SIGN_BIT {
            if other.bits >= SIGN_BIT {
                b <= a
            } else {
                true
            }
        } else {
            if other.bits >= SIGN_BIT {
                a == 0 && b == 0
            } else {
                a <= b
            }
        }
    }

    /// Tells whether the number lies in the closed range from `low` to `high`.
    pub fn is_within(self, low: Binary32, high: Binary32) -> (inside: bool)
        ensures
            inside == self.within(low, high),
    {
        low.le(self) && self.le(high)
    }
}

/// The magnitude is zero exactly for the two encodings of zero.
pub proof fn lemma_magnitude_zero(x: Binary32)
    ensures
        x.magnitude() == 0 <==> x.bits % SIGN_BIT == 0,
{
    if x.biased_exponent() != 0 {
        let p = pow2((x.biased_exponent() - 1) as nat);
        lemma_pow2_pos((x.biased_exponent() - 1) as nat);
        assert((HIDDEN_BIT as nat + x.fraction()) * p > 0) by (nonlinear_arith)
            requires
                p > 0,
                HIDDEN_BIT as nat + x.fraction() > 0,
        ;
    }
}

/// Magnitudes are ordered as the encodings without their sign bit are.
pub proof fn lemma_magnitude_order(x: Binary32, y: Binary32)
    ensures
        x.bits % SIGN_BIT < y.bits % SIGN_BIT ==> x.magnitude() < y.magnitude(),
        x.bits % SIGN_BIT == y.bits % SIGN_BIT ==> x.magnitude() == y.magnitude(),
{
    let ex = x.biased_exponent();
    let ey = y.biased_exponent();
    let fx = x.fraction();
    let fy = y.fraction();
    let h = HIDDEN_BIT as nat;
    if x.bits % SIGN_BIT < y.bits % SIGN_BIT {
        if ex == ey {
            assert(fx < fy);
            if ex != 0 {
                let p = pow2((ex - 1) as nat);
                lemma_pow2_pos((ex - 1) as nat);
                assert((h + fx) * p < (h + fy) * p) by (nonlinear_arith)
                    requires
                        fx < fy,
                        p > 0,
                ;
            }
        } else {
            assert(ex < ey);
            let q = pow2((ey - 1) as nat);
            lemma_pow2_pos((ey - 1) as nat);
            assert(h * q <= (h + fy) * q) by (nonlinear_arith)
                requires
                    q > 0,
                    h > 0,
                    fy >= 0,
            ;
            if ex == 0 {
                assert(h * 1 <= h * q) by (nonlinear_arith)
                    requires
                        q >= 1,
                        h > 0,
                ;
            } else {
                let p = pow2((ex - 1) as nat);
                lemma_pow2_pos((ex - 1) as nat);
                lemma_pow2_unfold(ex);
                assert(pow2(ex) == 2 * p);
                if ex < ey - 1 {
                    lemma_pow2_strictly_increases(ex, (ey - 1) as nat);
                }
                assert(2 * p <= q);
                assert((h + fx) * p < h * q) by (nonlinear_arith)
                    requires
                        fx < h,
                        2 * p <= q,
                        p > 0,
                        h > 0,
                ;
            }
        }
    }
}

/// Among numbers that are not negative, the order of the values is the
/// order of the encodings.
pub proof fn lemma_order_of_encodings(x: Binary32, y: Binary32)
    requires
        !x.negative(),
        !y.negative(),
        !x.is_nan(),
        !y.is_nan(),
    ensures
        x.le_spec(y) <==> x.bits <= y.bits,
{
    lemma_magnitude_order(x, y);
    lemma_magnitude_order(y, x);
}

/// `1.0` is `2^149` units and `100.0` is a hundred times as much.
pub proof fn lemma_range_ends()
    ensures
        (Binary32 { bits: ZERO_BITS }).scaled() == 0,
        (Binary32 { bits: ONE_BITS }).scaled() == unit(),
        (Binary32 { bits: HUNDRED_BITS }).scaled() == 100 * unit(),
        !(Binary32 { bits: ZERO_BITS }).is_nan(),
        !(Binary32 { bits: ONE_BITS }).is_nan(),
        !(Binary32 { bits: HUNDRED_BITS }).is_nan(),
{
    let one = Binary32 { bits: ONE_BITS };
    let hundred = Binary32 { bits: HUNDRED_BITS };
    assert(one.biased_exponent() == 127);
    assert(one.fraction() == 0);
    assert(hundred.biased_exponent() == 133);
    assert(hundred.fraction() == 0x48_0000);
    lemma_pow2_adds(23, 126);
    lemma_pow2_adds(16, 132);
    lemma_pow2_adds(1, 148);
    lemma2_to64();
    assert(pow2(23) == 0x80_0000);
    assert(pow2(16) == 0x1_0000);
    assert(pow2(1) == 2);
    let p132 = pow2(132);
    let p148 = pow2(148);
    assert(p148 == 0x1_0000 * p132);
    assert((0x80_0000 + 0x48_0000) * p132 == 100 * (2 * (0x1_0000 * p132))) by (nonlinear_arith);
}

/// A number lies in `[0, 1]` exactly when it is a number and its value,
/// counted in units of `2^-149`, lies between 0 and `2^149`.
pub proof fn lemma_fraction_range(x: Binary32)
    ensures
        x.is_fraction() <==> !x.is_nan() && 0 <= x.scaled() <= unit(),
        x.is_percentage() <==> !x.is_nan() && 0 <= x.scaled() <= 100 * unit(),
{
    lemma_range_ends();
}

} // verus!
