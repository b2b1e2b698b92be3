//! Single-precision quantities as bit patterns.
//!
//! A [`Scalar`] is the IEEE-754 binary32 encoding of a number: one sign bit,
//! eight exponent bits, twenty-three fraction bits. For every encoding that
//! is a number, reading the low 31 bits as an unsigned integer and giving it
//! the sign yields a rank, and two numbers compare as their ranks do. Both
//! zeros have rank zero. Encodings whose low 31 bits exceed those of
//! infinity are not numbers and compare as unordered with everything.

use vstd::prelude::*;
use vstd::arithmetic::power2::{lemma_pow2_strictly_increases, lemma_pow2_unfold, pow2};

verus! {

/// The sign bit of an encoding.
pub const SIGN_BIT: u32 = 0x8000_0000;

/// The low 31 bits of an infinity; a larger magnitude is not a number.
pub const INFINITY_MAGNITUDE: u32 = 0x7f80_0000;

/// Encoding of zero.
pub const ZERO_BITS: u32 = 0;

/// Encoding of one.
pub const ONE_BITS: u32 = 0x3f80_0000;

/// Encoding of minus 999, the value that marks a query axis as unset.
pub const UNSET_BITS: u32 = 0xc479_c000;

/// A binary32 encoding.
#[derive(Clone, Copy, Debug, PartialEq, Eq, Hash, Structural)]
pub struct Scalar {
    pub bits: u32,
}

impl Scalar {
    /// The low 31 bits, read as an unsigned integer.
    pub open spec fn magnitude(self) -> int {
        if self.bits >= SIGN_BIT {
            self.bits - SIGN_BIT
        } else {
            self.bits as int
        }
    }

    /// Whether the sign bit is set.
    pub open spec fn negative(self) -> bool {
        self.bits >= SIGN_BIT
    }

    /// Whether the encoding is not a number.
    pub open spec fn nan(self) -> bool {
        self.magnitude() > INFINITY_MAGNITUDE
    }

    /// The signed magnitude, by which numbers are ordered.
    pub open spec fn rank(self) -> int {
        if self.negative() {
            -self.magnitude()
        } else {
            self.magnitude()
        }
    }

    /// The exponent field.
    pub open spec fn exponent(self) -> int {
        self.magnitude() / 0x80_0000
    }

    /// The fraction field.
    pub open spec fn fraction(self) -> int {
        self.magnitude() % 0x80_0000
    }

    /// The number that the encoding stands for, as a multiple of `2^-149`.
    /// An infinity counts as the power of two beyond the largest number.
    pub open spec fn scaled_value(self) -> int {
        if self.negative() {
            -size_of_magnitude(self.magnitude())
        } else {
            size_of_magnitude(self.magnitude())
        }
    }

    /// `self < other` as the machine evaluates it: false when either side is
    /// not a number.
    pub open spec fn less(self, other: Scalar) -> bool {
        !self.nan() && !other.nan() && self.rank() < other.rank()
    }

    /// `self == other` as the machine evaluates it: false when either side
    /// is not a number, true for the two zeros.
    pub open spec fn equal(self, other: Scalar) -> bool {
        !self.nan() && !other.nan() && self.rank() == other.rank()
    }

    /// Wraps an encoding.
    pub fn from_bits(bits: u32) -> (s: Scalar)
        ensures
            s.bits == bits,
    {
        Scalar { bits }
    }

    /// The encoding.
    pub fn to_bits(&self) -> (bits: u32)
        ensures
            bits == self.bits,
    {
        self.bits
    }

    /// The value that marks a query axis as unset.
    pub fn unset() -> (s: Scalar)
        ensures
            s.bits == UNSET_BITS,
    {
        Scalar { bits: UNSET_BITS }
    }

    /// Zero.
    pub fn zero() -> (s: Scalar)
        ensures
            s.bits == ZERO_BITS,
    {
        Scalar { bits: ZERO_BITS }
    }

    /// One.
    pub fn one() -> (s: Scalar)
        ensures
            s.bits == ONE_BITS,
    {
        Scalar { bits: ONE_BITS }
    }

    fn magnitude_bits(&self) -> (m: u32)
        ensures
            m == self.magnitude(),
    {
        if self.bits >= SIGN_BIT {
            self.bits - SIGN_BIT
        } else {
            self.bits
        }
    }

    fn rank_value(&self) -> (r: i64)
        ensures
            r == self.rank(),
    {
        let m: u32 = self.magnitude_bits();
        if self.bits >= SIGN_BIT {
            -(m as i64)
        } else {
            m as i64
        }
    }

    /// Whether the encoding is not a number.
    pub fn is_nan(&self) -> (r: bool)
        ensures
            r == self.nan(),
    {
        self.magnitude_bits() > INFINITY_MAGNITUDE
    }

    /// `self < other`.
    pub fn lt(&self, other: &Scalar) -> (r: bool)
        ensures
            r == self.less(*other),
    {
        !self.is_nan() && !other.is_nan() && self.rank_value() < other.rank_value()
    }

    /// `self > other`.
    pub fn gt(&self, other: &Scalar) -> (r: bool)
        ensures
            r == other.less(*self),
    {
        other.lt(self)
    }

    /// `self == other` by value.
    pub fn eq_value(&self, other: &Scalar) -> (r: bool)
        ensures
            r == self.equal(*other),
    {
        !self.is_nan() && !other.is_nan() && self.rank_value() == other.rank_value()
    }

    /// `self != other` by value: true when either side is not a number.
    pub fn ne_value(&self, other: &Scalar) -> (r: bool)
        ensures
            r == !self.equal(*other),
    {
        !self.eq_value(other)
    }

    /// The encoding with the sign bit flipped, which is how the machine
    /// negates.
    pub fn negated(&self) -> (s: Scalar)
        ensures
            s.bits == if self.bits >= SIGN_BIT {
                self.bits - SIGN_BIT
            } else {
                self.bits + SIGN_BIT
            },
            s.magnitude() == self.magnitude(),
            s.negative() == !self.negative(),
            s.rank() == -self.rank(),
            s.scaled_value() == -self.scaled_value(),
            s.nan() == self.nan(),
    {
        if self.bits >= SIGN_BIT {
            Scalar { bits: self.bits - SIGN_BIT }
        } else {
            Scalar { bits: self.bits + SIGN_BIT }
        }
    }
}

/// The size of the number with the given low 31 bits, as a multiple of
/// `2^-149`: the fraction alone where the exponent field is zero, and
/// otherwise the fraction with its leading one, doubled once for every
/// exponent above one.
pub open spec fn size_of_magnitude(magnitude: int) -> int {
    let exponent = magnitude / 0x80_0000;
    let fraction = magnitude % 0x80_0000;
    if exponent == 0 {
        fraction
    } else {
        (0x80_0000 + fraction) * pow2((exponent - 1) as nat)
    }
}

/// A greater magnitude stands for a greater size.
pub proof fn lemma_size_grows(low: int, high: int)
    requires
        0 <= low < high,
    ensures
        0 <= size_of_magnitude(low) < size_of_magnitude(high),
{
    let e1 = low / 0x80_0000;
    let e2 = high / 0x80_0000;
    let f1 = low % 0x80_0000;
    let f2 = high % 0x80_0000;
    assert(e1 <= e2);
    if e1 == e2 {
        assert(f1 < f2);
        if e1 > 0 {
            let p = pow2((e1 - 1) as nat) as int;
            assert(p > 0) by {
                vstd::arithmetic::power2::lemma_pow2_pos((e1 - 1) as nat);
            }
            assert(0 <= (0x80_0000 + f1) * p < (0x80_0000 + f2) * p) by (nonlinear_arith)
                requires
                    0 <= f1 < f2,
                    p > 0,
            ;
        }
    } else {
        let q = pow2((e2 - 1) as nat) as int;
        assert(q > 0) by {
            vstd::arithmetic::power2::lemma_pow2_pos((e2 - 1) as nat);
        }
        assert(0x80_0000 * q <= (0x80_0000 + f2) * q) by (nonlinear_arith)
            requires
                f2 >= 0,
                q > 0,
        ;
        if e1 == 0 {
            assert(size_of_magnitude(low) == f1);
            assert(0x80_0000 <= 0x80_0000 * q) by (nonlinear_arith)
                requires
                    q >= 1,
            ;
        } else {
            let p = pow2((e1 - 1) as nat) as int;
            assert(p > 0) by {
                vstd::arithmetic::power2::lemma_pow2_pos((e1 - 1) as nat);
            }
            assert(2 * p == pow2(e1 as nat)) by {
                lemma_pow2_unfold(e1 as nat);
            }
            assert(pow2(e1 as nat) <= q) by {
                if e1 < e2 - 1 {
                    lemma_pow2_strictly_increases(e1 as nat, (e2 - 1) as nat);
                }
            }
            assert(0 <= (0x80_0000 + f1) * p < 0x80_0000 * (2 * p)) by (nonlinear_arith)
                requires
                    0 <= f1 < 0x80_0000,
                    p > 0,
            ;
            assert(0x80_0000 * (2 * p) <= 0x80_0000 * q) by (nonlinear_arith)
                requires
                    2 * p <= q,
            ;
        }
    }
}

/// Ranks order encodings as the numbers they stand for: of two encodings
/// that are numbers, one has the smaller rank exactly when it stands for
/// the smaller number, and they have the same rank exactly when they stand
/// for the same number.
pub proof fn lemma_rank_orders_values(a: Scalar, b: Scalar)
    requires
        !a.nan(),
        !b.nan(),
    ensures
        a.less(b) <==> a.scaled_value() < b.scaled_value(),
        a.equal(b) <==> a.scaled_value() == b.scaled_value(),
{
    let ma = a.magnitude();
    let mb = b.magnitude();
    if ma < mb {
        lemma_size_grows(ma, mb);
    } else if mb < ma {
        lemma_size_grows(mb, ma);
    }
    if ma > 0 {
        lemma_size_grows(0, ma);
    }
    if mb > 0 {
        lemma_size_grows(0, mb);
    }
    assert(size_of_magnitude(0) == 0);
}

/// Among numbers exactly one of less, equal and greater holds; with an
/// encoding that is not a number none of them does.
pub proof fn lemma_trichotomy(a: Scalar, b: Scalar)
    ensures
        (a.nan() || b.nan()) ==> !a.less(b) && !a.equal(b) && !b.less(a),
        !(a.nan() || b.nan()) ==> (a.less(b) && !a.equal(b) && !b.less(a)) || (!a.less(b)
            && a.equal(b) && !b.less(a)) || (!a.less(b) && !a.equal(b) && b.less(a)),
{
}

} // verus!
