//! Whole numbers among single-precision numbers.
//!
//! Pixel positions are whole numbers, sample positions are fractions. This
//! module decides, exactly, how the two meet: what a whole number becomes
//! when it is rounded to single precision, which whole number a
//! single-precision number begins with, and whether a single-precision
//! number is a given whole number.

use vstd::prelude::*;
use vstd::arithmetic::div_mod::{lemma_div_multiples_vanish, lemma_div_multiples_vanish_quotient};
use vstd::arithmetic::mul::lemma_mul_equality_converse;
use vstd::arithmetic::power2::{
    lemma2_to64,
    lemma_pow2_adds,
    lemma_pow2_pos,
    lemma_pow2_strictly_increases,
    lemma_pow2_unfold,
    pow2,
};
use crate::scalar::{size_of_magnitude, Scalar, SIGN_BIT};

verus! {

/// The distance between the single-precision numbers around a whole
/// number of 32 bits: one up to `2^24`, and twice as much for every
/// further bit.
pub open spec fn unit_of(n: int) -> int {
    if n < 0x100_0000 {
        1
    } else if n < 0x200_0000 {
        2
    } else if n < 0x400_0000 {
        4
    } else if n < 0x800_0000 {
        8
    } else if n < 0x1000_0000 {
        16
    } else if n < 0x2000_0000 {
        32
    } else if n < 0x4000_0000 {
        64
    } else if n < 0x8000_0000 {
        128
    } else {
        256
    }
}

/// A whole number of 32 bits rounded to single precision: the multiple of
/// its unit that is nearest to it, and of two that are equally near the
/// even one.
pub open spec fn rounded(n: int) -> int {
    let unit = unit_of(n);
    let q = n / unit;
    let r = n % unit;
    if 2 * r > unit || (2 * r == unit && q % 2 == 1) {
        (q + 1) * unit
    } else {
        q * unit
    }
}

/// Whether `x` is the number `w`.
pub open spec fn is_number(x: Scalar, w: int) -> bool {
    !x.nan() && x.scaled_value() == w * pow2(149)
}

/// The whole number that `x` begins with, as a conversion to 32 bits
/// gives it: zero for what is not a number and for what lies below one,
/// the largest value of 32 bits for what lies above it.
pub open spec fn whole_part(x: Scalar) -> int {
    if x.nan() || x.negative() {
        0
    } else {
        let whole = x.scaled_value() / (pow2(149) as int);
        if whole > u32::MAX {
            u32::MAX as int
        } else {
            whole
        }
    }
}

/// The whole number that a single-precision number begins with fits 32
/// bits.
pub proof fn lemma_whole_part_fits(x: Scalar)
    ensures
        0 <= whole_part(x) <= u32::MAX,
{
    if !x.nan() && !x.negative() {
        lemma_pow2_pos(149);
        let magnitude = x.magnitude();
        if magnitude > 0 {
            crate::scalar::lemma_size_grows(0, magnitude);
        }
        assert(x.scaled_value() >= 0);
        vstd::arithmetic::div_mod::lemma_div_basics_4(x.scaled_value(), pow2(149) as int);
    }
}

fn unit(n: u32) -> (u: u32)
    ensures
        u == unit_of(n as int),
{
    if n < 0x100_0000 {
        1
    } else if n < 0x200_0000 {
        2
    } else if n < 0x400_0000 {
        4
    } else if n < 0x800_0000 {
        8
    } else if n < 0x1000_0000 {
        16
    } else if n < 0x2000_0000 {
        32
    } else if n < 0x4000_0000 {
        64
    } else if n < 0x8000_0000 {
        128
    } else {
        256
    }
}

/// A whole number rounded to single precision.
pub fn round_whole(n: u32) -> (w: u64)
    ensures
        w == rounded(n as int),
{
    let u: u32 = unit(n);
    let q: u32 = n / u;
    let r: u32 = n % u;
    assert(q * u <= n) by {
        vstd::arithmetic::div_mod::lemma_fundamental_div_mod(n as int, u as int);
        assert(u * q == q * u) by (nonlinear_arith);
    }
    assert((q + 1) * u == q * u + u) by (nonlinear_arith);
    if 2 * r > u || (2 * r == u && q % 2 == 1) {
        (q as u64 + 1) * u as u64
    } else {
        q as u64 * u as u64
    }
}

/// Rounding moves a whole number by no more than half its unit, to a
/// multiple of the unit, and leaves numbers below `2^24` where they are.
pub proof fn lemma_rounded_is_near(n: int)
    requires
        0 <= n <= u32::MAX,
    ensures
        n < 0x100_0000 ==> rounded(n) == n,
        -unit_of(n) <= 2 * (rounded(n) - n) <= unit_of(n),
        rounded(n) % unit_of(n) == 0,
        0 <= rounded(n) <= 0x1_0000_0000,
{
}

/// A significand `m` with an exponent field of at least 150 stands for
/// the whole number `m * 2^(e - 150)`.
proof fn lemma_whole_high(m: int, e: int, w: int)
    requires
        150 <= e,
        0 <= m,
    ensures
        (m * pow2((e - 1) as nat)) / (pow2(149) as int) == m * pow2((e - 150) as nat),
        m * pow2((e - 1) as nat) == w * pow2(149) <==> m * pow2((e - 150) as nat) == w,
{
    let high = pow2((e - 150) as nat) as int;
    let base = pow2(149) as int;
    lemma_pow2_adds((e - 150) as nat, 149);
    lemma_pow2_pos(149);
    assert(m * (high * base) == base * (m * high)) by (nonlinear_arith);
    lemma_div_multiples_vanish(m * high, base);
    assert(w * base == base * w) by (nonlinear_arith);
    if base * (m * high) == base * w {
        lemma_mul_equality_converse(base, m * high, w);
    }
}

/// A significand `m` with an exponent field below 150 stands for
/// `m / 2^(150 - e)`.
proof fn lemma_whole_low(m: int, e: int, w: int)
    requires
        1 <= e < 150,
        0 <= m,
    ensures
        (m * pow2((e - 1) as nat)) / (pow2(149) as int) == m / (pow2((150 - e) as nat) as int),
        m * pow2((e - 1) as nat) == w * pow2(149) <==> m == w * pow2((150 - e) as nat),
{
    let low = pow2((e - 1) as nat) as int;
    let down = pow2((150 - e) as nat) as int;
    let base = pow2(149) as int;
    lemma_pow2_adds((150 - e) as nat, (e - 1) as nat);
    lemma_pow2_pos((e - 1) as nat);
    lemma_pow2_pos((150 - e) as nat);
    assert(base == low * down) by (nonlinear_arith)
        requires
            base == down * low,
    ;
    assert(m * low == low * m) by (nonlinear_arith);
    lemma_div_multiples_vanish_quotient(low, m, down);
    assert(w * (low * down) == low * (w * down)) by (nonlinear_arith);
    if low * m == low * (w * down) {
        lemma_mul_equality_converse(low, m, w * down);
    }
}

/// `2^k` for `k` up to 32.
fn power_of_two(k: u32) -> (p: u64)
    requires
        k <= 32,
    ensures
        p == pow2(k as nat),
        1 <= p <= 0x1_0000_0000,
{
    let mut p: u64 = 1;
    let mut j: u32 = 0;
    proof {
        lemma2_to64();
    }
    while j < k
        invariant
            j <= k <= 32,
            p == pow2(j as nat),
            1 <= p,
            p * pow2((32 - j) as nat) == 0x1_0000_0000,
        decreases k - j,
    {
        proof {
            lemma_pow2_unfold((j + 1) as nat);
            lemma_pow2_unfold((32 - j) as nat);
            lemma_pow2_pos((32 - j - 1) as nat);
            let rest = pow2((32 - j - 1) as nat) as int;
            assert(p * (2 * rest) == (2 * p) * rest) by (nonlinear_arith);
            assert(2 * p <= (2 * p) * rest) by (nonlinear_arith)
                requires
                    rest >= 1,
                    p >= 1,
            ;
        }
        p = p * 2;
        j = j + 1;
    }
    proof {
        lemma_pow2_pos((32 - j) as nat);
        let rest = pow2((32 - j) as nat) as int;
        assert(p <= p * rest) by (nonlinear_arith)
            requires
                rest >= 1,
                p >= 1,
        ;
    }
    p
}

/// The whole number that `x` begins with.
pub fn truncate(x: &Scalar) -> (w: u32)
    ensures
        w == whole_part(*x),
{
    if x.is_nan() || x.bits >= SIGN_BIT {
        return 0;
    }
    let e: u32 = x.bits / 0x80_0000;
    let f: u32 = x.bits % 0x80_0000;
    let m: u64 = 0x80_0000 + f as u64;
    proof {
        lemma2_to64();
        lemma_pow2_pos(149);
        assert(x.magnitude() == x.bits);
        assert(x.scaled_value() == size_of_magnitude(x.bits as int));
    }
    if e == 0 {
        proof {
            lemma_pow2_strictly_increases(23, 149);
            assert(x.scaled_value() == f);
            vstd::arithmetic::div_mod::lemma_basic_div(f as int, pow2(149) as int);
        }
        return 0;
    }
    if e < 127 {
        proof {
            lemma_whole_low(m as int, e as int, 0);
            if e < 126 {
                lemma_pow2_strictly_increases(24, (150 - e) as nat);
            }
            vstd::arithmetic::div_mod::lemma_basic_div(m as int, pow2((150 - e) as nat) as int);
        }
        return 0;
    }
    if e >= 159 {
        proof {
            lemma_whole_high(m as int, e as int, 0);
            if e > 159 {
                lemma_pow2_strictly_increases(9, (e - 150) as nat);
            }
            let high = pow2((e - 150) as nat) as int;
            assert(m * high >= 0x80_0000 * 0x200) by (nonlinear_arith)
                requires
                    m >= 0x80_0000,
                    high >= 0x200,
            ;
        }
        return u32::MAX;
    }
    if e >= 150 {
        let high: u64 = power_of_two(e - 150);
        proof {
            lemma_whole_high(m as int, e as int, 0);
            if e < 158 {
                lemma_pow2_strictly_increases((e - 150) as nat, 8);
            }
            assert(m * high < 0x100_0000 * 0x100) by (nonlinear_arith)
                requires
                    0 <= m < 0x100_0000,
                    0 < high <= 0x100,
            ;
        }
        (m * high) as u32
    } else {
        let down: u64 = power_of_two(150 - e);
        proof {
            lemma_whole_low(m as int, e as int, 0);
        }
        (m / down) as u32
    }
}

/// Whether `x` is the number that the whole number `n` becomes when it is
/// rounded to single precision: whether the machine finds them equal.
pub fn equals_whole(x: &Scalar, n: u32) -> (same: bool)
    ensures
        same == is_number(*x, rounded(n as int)),
{
    let w: u64 = round_whole(n);
    proof {
        lemma_rounded_is_near(n as int);
        lemma2_to64();
        lemma_pow2_pos(149);
    }
    if x.is_nan() {
        return false;
    }
    let magnitude: u32 = if x.bits >= SIGN_BIT {
        x.bits - SIGN_BIT
    } else {
        x.bits
    };
    if magnitude == 0 {
        assert(x.scaled_value() == 0);
        assert(w * pow2(149) == 0 <==> w == 0) by (nonlinear_arith)
            requires
                pow2(149) > 0,
        ;
        return w == 0;
    }
    proof {
        crate::scalar::lemma_size_grows(0, magnitude as int);
        assert(w * pow2(149) >= 0) by (nonlinear_arith)
            requires
                w >= 0,
                pow2(149) > 0,
        ;
    }
    if x.bits >= SIGN_BIT {
        return false;
    }
    let e: u32 = magnitude / 0x80_0000;
    let f: u32 = magnitude % 0x80_0000;
    let m: u64 = 0x80_0000 + f as u64;
    if e == 0 {
        proof {
            lemma_pow2_strictly_increases(23, 149);
            assert(x.scaled_value() == f);
            assert(w * pow2(149) == 0 || w * pow2(149) >= pow2(149)) by (nonlinear_arith)
                requires
                    w >= 0,
                    pow2(149) > 0,
            ;
        }
        return false;
    }
    if e >= 150 {
        if e > 159 {
            proof {
                lemma_whole_high(m as int, e as int, w as int);
                lemma_pow2_strictly_increases(9, (e - 150) as nat);
                let high = pow2((e - 150) as nat) as int;
                assert(m * high > 0x80_0000 * 0x200) by (nonlinear_arith)
                    requires
                        m >= 0x80_0000,
                        high > 0x200,
                ;
            }
            return false;
        }
        let high: u64 = power_of_two(e - 150);
        proof {
            lemma_whole_high(m as int, e as int, w as int);
            if e < 159 {
                lemma_pow2_strictly_increases((e - 150) as nat, 9);
            }
            assert(m * high < 0x100_0000 * 0x201) by (nonlinear_arith)
                requires
                    0 <= m < 0x100_0000,
                    0 < high <= 0x200,
            ;
        }
        m * high == w
    } else {
        if e < 118 {
            proof {
                lemma_whole_low(m as int, e as int, w as int);
                lemma_pow2_strictly_increases(32, (150 - e) as nat);
                let down = pow2((150 - e) as nat) as int;
                assert(w * down == 0 || w * down >= down) by (nonlinear_arith)
                    requires
                        w >= 0,
                        down > 0,
                ;
            }
            return false;
        }
        let down: u64 = power_of_two(150 - e);
        proof {
            lemma_whole_low(m as int, e as int, w as int);
            assert(w * down <= 0x1_0000_0000 * 0x1_0000_0000) by (nonlinear_arith)
                requires
                    0 <= w <= 0x1_0000_0000,
                    0 < down <= 0x1_0000_0000,
            ;
        }
        m as u128 == w as u128 * down as u128
    }
}

} // verus!
