//! Real numbers in IEEE-754 binary64 encoding, held as their 64 bits.
//!
//! The arithmetic on such numbers is done by the caller's hardware. What is
//! decided here is how two encoded numbers are ordered, which is all that the
//! tolerance and range tests of the sensor models need.

use vstd::prelude::*;
use vstd::arithmetic::power2::*;

verus! {

/// The sign bit of an encoding.
pub const SIGN_BIT: u64 = 0x8000_0000_0000_0000;

/// All bits of an encoding but the sign bit.
pub const MAGNITUDE_MASK: u64 = 0x7fff_ffff_ffff_ffff;

/// The magnitude bits of an infinity; every larger magnitude encodes a NaN.
pub const INFINITY_MAGNITUDE: u64 = 0x7ff0_0000_0000_0000;

/// A binary64 number: one sign bit, eleven exponent bits, fifty-two fraction
/// bits, from the most significant bit down.
#[derive(Clone, Copy, Debug)]
pub struct Binary64 {
    pub bits: u64,
}

impl Binary64 {
    /// Whether the sign bit is set.
    pub open spec fn negative(self) -> bool {
        self.bits >= 0x8000_0000_0000_0000
    }

    /// The encoding without its sign bit.
    pub open spec fn magnitude_bits(self) -> nat {
        (self.bits % 0x8000_0000_0000_0000) as nat
    }

    /// The biased exponent, in `0..=2047`.
    pub open spec fn exponent_field(self) -> nat {
        self.magnitude_bits() / 0x10_0000_0000_0000
    }

    /// The fraction, in `0..2^52`.
    pub open spec fn fraction_field(self) -> nat {
        self.magnitude_bits() % 0x10_0000_0000_0000
    }

    /// Not a number: the exponent is all ones and the fraction is not zero.
    pub open spec fn nan(self) -> bool {
        self.exponent_field() == 2047 && self.fraction_field() != 0
    }

    /// Plus or minus infinity.
    pub open spec fn infinite(self) -> bool {
        self.exponent_field() == 2047 && self.fraction_field() == 0
    }

    /// The absolute value in units of 2^-1074, the spacing of the smallest
    /// numbers: every finite binary64 number is a whole multiple of it. An
    /// infinity counts as 2^2098, which is above every finite number.
    pub open spec fn scaled_magnitude(self) -> nat {
        if self.exponent_field() == 0 {
            self.fraction_field()
        } else {
            (pow2(52) + self.fraction_field()) * pow2((self.exponent_field() - 1) as nat)
        }
    }

    /// The value in units of 2^-1074. Both zeros have the value 0.
    pub open spec fn scaled(self) -> int {
        if self.negative() {
            -(self.scaled_magnitude() as int)
        } else {
            self.scaled_magnitude() as int
        }
    }

    /// The distance to the next binary64 number of larger absolute value,
    /// in units of 2^-1074.
    pub open spec fn spacing(self) -> nat {
        if self.exponent_field() == 0 {
            1
        } else {
            pow2((self.exponent_field() - 1) as nat)
        }
    }

    /// Whether this is the quotient `num / den` as binary64 holds it: a
    /// finite number that differs from the quotient by at most half the
    /// spacing of the binary64 numbers around it.
    pub open spec fn rounds(self, num: int, den: int) -> bool {
        &&& den > 0
        &&& self.exponent_field() < 2047
        &&& -(self.spacing() * den) <= 2 * (self.scaled() * den - num * pow2(1074))
            <= self.spacing() * den
    }

    /// `self < other` as IEEE-754 orders numbers: false if either is a NaN.
    pub open spec fn lt_spec(self, other: Binary64) -> bool {
        !self.nan() && !other.nan() && self.scaled() < other.scaled()
    }

    /// `self <= other` as IEEE-754 orders numbers: false if either is a NaN.
    pub open spec fn le_spec(self, other: Binary64) -> bool {
        !self.nan() && !other.nan() && self.scaled() <= other.scaled()
    }

    /// The number with the sign bit cleared.
    pub open spec fn abs_spec(self) -> Binary64 {
        Binary64 { bits: (self.bits % 0x8000_0000_0000_0000) as u64 }
    }

    /// The number with the given encoding.
    pub fn from_bits(bits: u64) -> (r: Binary64)
        ensures
            r.bits == bits,
    {
        Binary64 { bits }
    }

    /// The encoding of the number.
    pub fn to_bits(self) -> (r: u64)
        ensures
            r == self.bits,
    {
        self.bits
    }

    /// Whether the number is a NaN.
    pub fn is_nan(self) -> (r: bool)
        ensures
            r == self.nan(),
    {
        let magnitude: u64 = self.bits & MAGNITUDE_MASK;
        proof {
            lemma_fields(self);
        }
        magnitude > INFINITY_MAGNITUDE
    }

    /// Whether the number is zero, of either sign.
    pub fn is_zero(self) -> (r: bool)
        ensures
            r == (self.scaled() == 0),
    {
        let magnitude: u64 = self.bits & MAGNITUDE_MASK;
        proof {
            lemma_fields(self);
            lemma_magnitude_zero(self);
        }
        magnitude == 0
    }

    /// The absolute value: the sign bit is cleared, also of a NaN.
    pub fn abs(self) -> (r: Binary64)
        ensures
            r == self.abs_spec(),
            !r.negative(),
            r.nan() == self.nan(),
            r.scaled() == if self.scaled() < 0 { -self.scaled() } else { self.scaled() },
    {
        let bits: u64 = self.bits;
        assert(bits & 0x7fff_ffff_ffff_ffffu64 == bits % 0x8000_0000_0000_0000u64)
            by (bit_vector);
        Binary64 { bits: bits & MAGNITUDE_MASK }
    }

    /// `self < other`; false whenever one of the two is a NaN.
    pub fn lt(self, other: Binary64) -> (r: bool)
        ensures
            r == self.lt_spec(other),
    {
        if self.is_nan() || other.is_nan() {
            return false;
        }
        let a: u64 = self.bits & MAGNITUDE_MASK;
        let b: u64 = other.bits & MAGNITUDE_MASK;
        let a_negative: bool = self.bits >= SIGN_BIT;
        let b_negative: bool = other.bits >= SIGN_BIT;
        proof {
            lemma_fields(self);
            lemma_fields(other);
            lemma_magnitude_order(self, other);
            lemma_magnitude_order(other, self);
            lemma_magnitude_zero(self);
            lemma_magnitude_zero(other);
        }
        if a_negative {
            if b_negative {
                b < a
            } else {
                a != 0 || b != 0
            }
        } else {
            if b_negative {
                false
            } else {
                a < b
            }
        }
    }

    /// `self <= other`; false whenever one of the two is a NaN.
    pub fn le(self, other: Binary64) -> (r: bool)
        ensures
            r == self.le_spec(other),
    {
        if self.is_nan() || other.is_nan() {
            return false;
        }
        let a: u64 = self.bits & MAGNITUDE_MASK;
        let b: u64 = other.bits & MAGNITUDE_MASK;
        let a_negative: bool = self.bits >= SIGN_BIT;
        let b_negative: bool = other.bits >= SIGN_BIT;
        proof {
            lemma_fields(self);
            lemma_fields(other);
            lemma_magnitude_order(self, other);
            lemma_magnitude_order(other, self);
            lemma_magnitude_zero(self);
            lemma_magnitude_zero(other);
        }
        if a_negative {
            if b_negative {
                b <= a
            } else {
                true
            }
        } else {
            if b_negative {
                a == 0 && b == 0
            } else {
                a <= b
            }
        }
    }
}

/// The masked encoding is the magnitude, and the magnitude is made of the
/// exponent and the fraction.
pub proof fn lemma_fields(x: Binary64)
    ensures
        (x.bits & MAGNITUDE_MASK) as nat == x.magnitude_bits(),
        x.magnitude_bits() == x.exponent_field() * 0x10_0000_0000_0000 + x.fraction_field(),
        x.fraction_field() < 0x10_0000_0000_0000,
        x.exponent_field() <= 2047,
        x.nan() <==> x.magnitude_bits() > INFINITY_MAGNITUDE,
        x.infinite() <==> x.magnitude_bits() == INFINITY_MAGNITUDE,
{
    let bits: u64 = x.bits;
    assert(bits & 0x7fff_ffff_ffff_ffffu64 == bits % 0x8000_0000_0000_0000u64) by (bit_vector);
}

/// A larger exponent, or an equal exponent and a larger fraction, is a larger
/// absolute value.
proof fn lemma_scaled_increases(e1: nat, f1: nat, e2: nat, f2: nat)
    requires
        f1 < pow2(52),
        f2 < pow2(52),
        e1 < e2 || (e1 == e2 && f1 < f2),
    ensures
        (if e1 == 0 {
            f1
        } else {
            (pow2(52) + f1) * pow2((e1 - 1) as nat)
        }) < (if e2 == 0 {
            f2
        } else {
            (pow2(52) + f2) * pow2((e2 - 1) as nat)
        }),
{
    let p: nat = pow2(52);
    lemma_pow2_pos(52);
    if e1 == e2 {
        if e1 != 0 {
            let s: nat = pow2((e1 - 1) as nat);
            lemma_pow2_pos((e1 - 1) as nat);
            assert((p + f1) * s < (p + f2) * s) by (nonlinear_arith)
                requires
                    f1 < f2,
                    s > 0,
            ;
        }
    } else {
        let s2: nat = pow2((e2 - 1) as nat);
        lemma_pow2_pos((e2 - 1) as nat);
        assert(p * s2 <= (p + f2) * s2) by (nonlinear_arith)
            requires
                s2 > 0,
        ;
        if e1 == 0 {
            assert(p * 1 <= p * s2) by (nonlinear_arith)
                requires
                    s2 >= 1,
            ;
        } else {
            let s1: nat = pow2((e1 - 1) as nat);
            lemma_pow2_pos((e1 - 1) as nat);
            lemma_pow2_unfold(e1);
            assert(pow2(e1) == 2 * s1);
            if e1 < e2 - 1 {
                lemma_pow2_strictly_increases(e1, (e2 - 1) as nat);
            }
            assert(pow2(e1) <= s2);
            assert((p + f1) * s1 < p * (2 * s1)) by (nonlinear_arith)
                requires
                    f1 < p,
                    s1 > 0,
            ;
            assert(p * (2 * s1) <= p * s2) by (nonlinear_arith)
                requires
                    2 * s1 <= s2,
            ;
        }
    }
}

/// The magnitudes of two encodings are ordered as their absolute values are.
pub proof fn lemma_magnitude_order(a: Binary64, b: Binary64)
    ensures
        a.magnitude_bits() < b.magnitude_bits() ==> a.scaled_magnitude() < b.scaled_magnitude(),
        a.magnitude_bits() == b.magnitude_bits() ==> a.scaled_magnitude() == b.scaled_magnitude(),
{
    lemma_fields(a);
    lemma_fields(b);
    lemma2_to64_rest();
    if a.magnitude_bits() < b.magnitude_bits() {
        lemma_scaled_increases(
            a.exponent_field(),
            a.fraction_field(),
            b.exponent_field(),
            b.fraction_field(),
        );
    }
}

/// Only the two zeros have the absolute value 0.
pub proof fn lemma_magnitude_zero(a: Binary64)
    ensures
        a.scaled_magnitude() == 0 <==> a.magnitude_bits() == 0,
{
    lemma_fields(a);
    lemma2_to64_rest();
    if a.exponent_field() != 0 {
        let s: nat = pow2((a.exponent_field() - 1) as nat);
        lemma_pow2_pos((a.exponent_field() - 1) as nat);
        lemma_pow2_pos(52);
        assert((pow2(52) + a.fraction_field()) * s > 0) by (nonlinear_arith)
            requires
                s > 0,
                pow2(52) > 0,
        ;
    }
}

/// A normal number whose significand, taken with its sign, is within half a
/// unit of `num / den * 2^k`, where `k` makes up the exponent to 1075, is the
/// quotient as binary64 holds it.
pub proof fn lemma_rounds(x: Binary64, num: int, den: int, k: nat)
    requires
        den > 0,
        1 <= x.exponent_field() < 2047,
        x.exponent_field() + k == 1075,
        !x.negative() ==> -den <= 2 * ((pow2(52) + x.fraction_field()) * den - num * pow2(k))
            <= den,
        x.negative() ==> -den <= 2 * (-(pow2(52) + x.fraction_field()) * den - num * pow2(k))
            <= den,
    ensures
        x.rounds(num, den),
{
    let e = x.exponent_field();
    let unit: int = pow2((e - 1) as nat) as int;
    let significand: int = (pow2(52) + x.fraction_field()) as int;
    let m: int = if x.negative() {
        -significand
    } else {
        significand
    };
    lemma_pow2_pos((e - 1) as nat);
    lemma_pow2_adds(k, (e - 1) as nat);
    assert(pow2(1074) == pow2(k) * pow2((e - 1) as nat));
    assert(x.scaled_magnitude() == significand * unit);
    assert(x.scaled() == m * unit) by (nonlinear_arith)
        requires
            x.scaled() == if x.negative() {
                -(significand * unit)
            } else {
                significand * unit
            },
            m == if x.negative() {
                -significand
            } else {
                significand
            },
    ;
    let d: int = m * den - num * pow2(k);
    assert(x.scaled() * den - num * pow2(1074) == d * unit) by (nonlinear_arith)
        requires
            x.scaled() == m * unit,
            pow2(1074) == pow2(k) * unit,
            d == m * den - num * pow2(k),
    ;
    assert(-(unit * den) <= 2 * (d * unit) <= unit * den) by (nonlinear_arith)
        requires
            -den <= 2 * d <= den,
            unit > 0,
    ;
}

} // verus!
