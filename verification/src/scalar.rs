//! Binary32 numbers by their bit patterns: ordering, sign and special values.

use vstd::prelude::*;
use vstd::arithmetic::power2::pow2;
use vstd::arithmetic::div_mod::lemma_div_by_multiple;
use vstd::arithmetic::div_mod::lemma_div_multiples_vanish_quotient;
use vstd::arithmetic::power2::lemma_pow2_adds;
use vstd::arithmetic::power2::lemma_pow2_pos;
use vstd::arithmetic::power2::lemma_pow2_strictly_increases;
use vstd::arithmetic::power2::lemma_pow2_unfold;

verus! {

/// The bit that holds the sign.
pub const SIGN_BIT: u32 = 0x8000_0000;

/// The bit pattern of positive infinity, the largest magnitude that is a number.
pub const INFINITY_BITS: u32 = 0x7f80_0000;

/// The bit pattern of `1.0`.
pub const ONE_BITS: u32 = 0x3f80_0000;

/// Two to the number of fraction bits: the weight of the hidden leading bit.
pub const HIDDEN_BIT: u32 = 0x0080_0000;

/// An IEEE 754 binary32 number, held by its bit pattern.
///
/// The derived `==` compares bit patterns: it tells `-0.0` from `0.0` and
/// finds a NaN equal to itself. The numeric comparisons are [`Scalar::lt`],
/// [`Scalar::le`], [`Scalar::gt`] and [`Scalar::ge`].
#[derive(Clone, Copy, Debug, PartialEq, Eq, Structural)]
pub struct Scalar {
    pub bits: u32,
}

impl Scalar {
    /// The bit pattern without its sign.
    pub open spec fn magnitude(self) -> int {
        (self.bits % SIGN_BIT) as int
    }

    /// Whether the sign bit is set.
    pub open spec fn sign(self) -> bool {
        self.bits >= SIGN_BIT
    }

    /// Whether the pattern encodes no number.
    pub open spec fn nan(self) -> bool {
        self.magnitude() > INFINITY_BITS
    }

    /// The place of a number in the order of all numbers: for patterns that
    /// are not NaN, `a` is numerically below `b` exactly when
    /// `a.ordinal() < b.ordinal()`. Both zeros have ordinal 0.
    pub open spec fn ordinal(self) -> int {
        if self.sign() {
            -self.magnitude()
        } else {
            self.magnitude()
        }
    }

    /// Numeric `<`: false as soon as either side is NaN.
    pub open spec fn below(self, other: Scalar) -> bool {
        !self.nan() && !other.nan() && self.ordinal() < other.ordinal()
    }

    /// Numeric `<=`: false as soon as either side is NaN.
    pub open spec fn at_most(self, other: Scalar) -> bool {
        !self.nan() && !other.nan() && self.ordinal() <= other.ordinal()
    }

    /// The exponent field, between 0 and 255.
    pub open spec fn biased_exponent(self) -> int {
        self.magnitude() / (HIDDEN_BIT as int)
    }

    /// The digits of the number as an integer: the fraction field, under the
    /// hidden leading bit unless the number is subnormal.
    pub open spec fn significand(self) -> int {
        let fraction = self.magnitude() % (HIDDEN_BIT as int);
        if self.biased_exponent() == 0 {
            fraction
        } else {
            HIDDEN_BIT + fraction
        }
    }

    /// The power of two that one unit of the significand is worth: a finite
    /// number has the magnitude `significand * 2^exponent`.
    pub open spec fn exponent(self) -> int {
        if self.biased_exponent() == 0 {
            -149
        } else {
            self.biased_exponent() - 150
        }
    }

    /// Whether the pattern encodes a number that is not an infinity.
    pub open spec fn finite(self) -> bool {
        self.magnitude() < INFINITY_BITS
    }

    /// A finite number in units of `2^-149`, the smallest magnitude above
    /// zero; every finite number is a whole multiple of it.
    pub open spec fn in_units(self) -> int {
        let m = self.significand() * pow2((self.exponent() + 149) as nat);
        if self.sign() {
            -m
        } else {
            m
        }
    }

    /// For a finite number, the integer part of its magnitude times `2^k`.
    pub open spec fn floor_scaled(self, k: int) -> int {
        let e = self.exponent() + k;
        if e >= 0 {
            self.significand() * pow2(e as nat)
        } else {
            self.significand() / (pow2((-e) as nat) as int)
        }
    }

    /// The pattern with its sign flipped, which is how a binary32 is negated.
    pub open spec fn negated(self) -> Scalar {
        Scalar {
            bits: if self.sign() {
                (self.bits - SIGN_BIT) as u32
            } else {
                (self.bits + SIGN_BIT) as u32
            },
        }
    }

    /// The pattern with its sign cleared.
    pub open spec fn absolute(self) -> Scalar {
        Scalar { bits: self.magnitude() as u32 }
    }

    /// Among finite numbers of one sign, the larger pattern is the larger
    /// magnitude.
    proof fn magnitude_grows_with_pattern(self, other: Scalar)
        requires
            self.finite(),
            other.finite(),
            !self.sign(),
            !other.sign(),
            self.magnitude() < other.magnitude(),
        ensures
            0 <= self.in_units() < other.in_units(),
    {
        let xa = (self.exponent() + 149) as nat;
        let xb = (other.exponent() + 149) as nat;
        let sa = self.significand();
        let sb = other.significand();
        lemma_pow2_pos(xa);
        lemma_pow2_pos(xb);
        assert(0 <= sa * pow2(xa)) by (nonlinear_arith)
            requires
                0 <= sa,
                0 < pow2(xa),
        ;
        if self.biased_exponent() == other.biased_exponent() {
            assert(sa * pow2(xa) < sb * pow2(xa)) by (nonlinear_arith)
                requires
                    sa < sb,
                    0 < pow2(xa),
            ;
        } else if self.biased_exponent() == 0 {
            assert(pow2(0) == 1) by {
                vstd::arithmetic::power2::lemma2_to64();
            }
            assert(sb * pow2(xb) >= sb) by (nonlinear_arith)
                requires
                    0 <= sb,
                    1 <= pow2(xb),
            ;
        } else {
            assert(xa < xb);
            lemma_pow2_unfold(xa + 1);
            if xa + 1 < xb {
                lemma_pow2_strictly_increases(xa + 1, xb);
            }
            assert(sa * pow2(xa) < sb * pow2(xb)) by (nonlinear_arith)
                requires
                    0 <= sa < 2 * HIDDEN_BIT,
                    sb >= HIDDEN_BIT,
                    0 < pow2(xa),
                    2 * pow2(xa) <= pow2(xb),
            ;
        }
    }

    /// The order of the ordinals is the order of the numbers: of two finite
    /// numbers, the one with the smaller ordinal is the smaller multiple of
    /// `2^-149`, and equal ordinals are equal numbers.
    pub proof fn ordinal_is_numeric_order(self, other: Scalar)
        requires
            self.finite(),
            other.finite(),
        ensures
            self.ordinal() < other.ordinal() <==> self.in_units() < other.in_units(),
            self.ordinal() == other.ordinal() <==> self.in_units() == other.in_units(),
    {
        let a = self.absolute();
        let b = other.absolute();
        assert(a.magnitude() == self.magnitude() && b.magnitude() == other.magnitude());
        assert(a.in_units() == if self.sign() {
            -self.in_units()
        } else {
            self.in_units()
        });
        assert(b.in_units() == if other.sign() {
            -other.in_units()
        } else {
            other.in_units()
        });
        let zero = Scalar { bits: 0 };
        assert(zero.in_units() == 0) by {
            assert(zero.significand() == 0);
            assert(0 * pow2((zero.exponent() + 149) as nat) == 0);
        }
        if a.magnitude() < b.magnitude() {
            a.magnitude_grows_with_pattern(b);
        } else if b.magnitude() < a.magnitude() {
            b.magnitude_grows_with_pattern(a);
        } else {
            assert(a == b);
        }
        if a.magnitude() == 0 {
            assert(a == zero);
        } else {
            zero.magnitude_grows_with_pattern(a);
        }
        if b.magnitude() == 0 {
            assert(b == zero);
        } else {
            zero.magnitude_grows_with_pattern(b);
        }
    }

    /// [`Scalar::floor_scaled`] is what its name says: a finite number that
    /// is not negative is `in_units()` times `2^-149`, and the integer part
    /// of that times `2^k` is `in_units()` times `2^(k-149)`, rounded down.
    pub proof fn floor_scaled_is_of_the_number(self, k: nat)
        requires
            self.finite(),
            !self.sign(),
        ensures
            self.floor_scaled(k as int) == if k >= 149 {
                self.in_units() * pow2((k - 149) as nat)
            } else {
                self.in_units() / (pow2((149 - k) as nat) as int)
            },
    {
        let up = (self.exponent() + 149) as nat;
        let sig = self.significand();
        let e = self.exponent() + k;
        lemma_pow2_pos(up);
        if k >= 149 {
            let rest = (k - 149) as nat;
            lemma_pow2_adds(up, rest);
            assert(sig * (pow2(up) * pow2(rest)) == (sig * pow2(up)) * pow2(rest))
                by (nonlinear_arith);
        } else if e >= 0 {
            let down = (149 - k) as nat;
            lemma_pow2_pos(down);
            lemma_pow2_pos(e as nat);
            lemma_pow2_adds(e as nat, down);
            assert(sig * (pow2(e as nat) * pow2(down)) == (sig * pow2(e as nat)) * pow2(down))
                by (nonlinear_arith);
            assert(0 <= sig * pow2(e as nat)) by (nonlinear_arith)
                requires
                    0 <= sig,
                    0 < pow2(e as nat),
            ;
            lemma_div_by_multiple(sig * pow2(e as nat), pow2(down) as int);
        } else {
            let down = (149 - k) as nat;
            let cut = (-e) as nat;
            lemma_pow2_pos(cut);
            lemma_pow2_adds(up, cut);
            lemma_div_multiples_vanish_quotient(pow2(up) as int, sig, pow2(cut) as int);
            assert(pow2(up) * sig == sig * pow2(up)) by (nonlinear_arith);
        }
    }

    pub fn from_bits(bits: u32) -> (s: Scalar)
        ensures
            s.bits == bits,
    {
        Scalar { bits }
    }

    pub fn to_bits(self) -> (bits: u32)
        ensures
            bits == self.bits,
    {
        self.bits
    }

    fn magnitude_bits(self) -> (m: u32)
        ensures
            m == self.magnitude(),
            m < SIGN_BIT,
    {
        if self.bits >= SIGN_BIT {
            self.bits - SIGN_BIT
        } else {
            self.bits
        }
    }

    pub fn is_nan(self) -> (r: bool)
        ensures
            r == self.nan(),
    {
        self.magnitude_bits() > INFINITY_BITS
    }

    pub fn is_sign_negative(self) -> (r: bool)
        ensures
            r == self.sign(),
    {
        self.bits >= SIGN_BIT
    }

    fn rank(self) -> (k: i64)
        ensures
            k == self.ordinal(),
    {
        let m: u32 = self.magnitude_bits();
        if self.bits >= SIGN_BIT {
            0i64 - (m as i64)
        } else {
            m as i64
        }
    }

    /// `self < other`, as the numbers compare.
    pub fn lt(self, other: Scalar) -> (r: bool)
        ensures
            r == self.below(other),
    {
        !self.is_nan() && !other.is_nan() && self.rank() < other.rank()
    }

    /// `self <= other`, as the numbers compare.
    pub fn le(self, other: Scalar) -> (r: bool)
        ensures
            r == self.at_most(other),
    {
        !self.is_nan() && !other.is_nan() && self.rank() <= other.rank()
    }

    /// `self > other`, as the numbers compare.
    pub fn gt(self, other: Scalar) -> (r: bool)
        ensures
            r == other.below(self),
    {
        other.lt(self)
    }

    /// `self >= other`, as the numbers compare.
    pub fn ge(self, other: Scalar) -> (r: bool)
        ensures
            r == other.at_most(self),
    {
        other.le(self)
    }

    /// `-self`: the same magnitude under the other sign, NaN included.
    pub fn neg(self) -> (r: Scalar)
        ensures
            r == self.negated(),
            r.magnitude() == self.magnitude(),
            r.sign() == !self.sign(),
    {
        if self.bits >= SIGN_BIT {
            Scalar { bits: self.bits - SIGN_BIT }
        } else {
            Scalar { bits: self.bits + SIGN_BIT }
        }
    }

    /// `|self|`: the same magnitude with the sign cleared.
    pub fn abs(self) -> (r: Scalar)
        ensures
            r == self.absolute(),
            r.magnitude() == self.magnitude(),
            !r.sign(),
    {
        Scalar { bits: self.magnitude_bits() }
    }
}

} // verus!
