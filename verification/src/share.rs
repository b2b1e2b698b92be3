//! Shares of a whole as single-precision numbers.
//!
//! A channel of a pixel holds a share of its largest value: `n / 255` for
//! eight bits, `n / 65535` for sixteen. A vertex of a grid lies a share of
//! the way along its row: `col / cells`. Such a share is carried as the
//! single-precision number nearest to it and, of two that are equally
//! near, the one whose significand is even. This is what the machine
//! computes when it divides one whole number below `2^24` by another.

use vstd::prelude::*;
use vstd::arithmetic::div_mod::lemma_fundamental_div_mod;
use vstd::arithmetic::power2::{
    lemma2_to64,
    lemma_pow2_adds,
    lemma_pow2_pos,
    lemma_pow2_strictly_increases,
    lemma_pow2_unfold,
    pow2,
};
use crate::scalar::{Scalar, ZERO_BITS};

verus! {

/// Whether `d` can be the whole of a share: a positive number below
/// `2^24`.
pub open spec fn is_whole(d: int) -> bool {
    0 < d < 0x100_0000
}

/// Whether `s` encodes the number nearest to `n / d`: zero for zero, and
/// otherwise a positive number `m * 2^(e - 150)`, with `m` the 24 bits of
/// the significand and `e` the exponent field, that lies within half a
/// unit in the last place of `n / d`, and whose significand is even if it
/// lies exactly half a unit away.
pub open spec fn is_share(n: int, d: int, s: Scalar) -> bool {
    if n == 0 {
        s.bits == ZERO_BITS
    } else {
        let e = s.bits as int / 0x80_0000;
        let m = 0x80_0000 + s.bits as int % 0x80_0000;
        let gap = 2 * (d * m - n * pow2((150 - e) as nat));
        &&& 103 <= e <= 127
        &&& -d <= gap <= d
        &&& gap == d || gap == -d ==> m % 2 == 0
    }
}

/// The encoding of the number nearest to `n / d`.
pub open spec fn share_of(n: int, d: int) -> Scalar {
    choose|s: Scalar| is_share(n, d, s)
}

/// The encoding of the number nearest to `n / d`.
pub fn share(n: u32, d: u32) -> (s: Scalar)
    requires
        is_whole(d as int),
        n <= d,
    ensures
        is_share(n as int, d as int, s),
        s == share_of(n as int, d as int),
{
    let s = nearest(n, d);
    proof {
        lemma_share_unique(n as int, d as int, s, share_of(n as int, d as int));
    }
    s
}

/// The encoding of `c / 255`, the share of a channel of eight bits in its
/// largest value.
pub fn unorm8(c: u8) -> (s: Scalar)
    ensures
        s == share_of(c as int, 255),
{
    share(c as u32, 255)
}

/// The encoding of `v / 65535`, the share of a channel of sixteen bits in
/// its largest value.
pub fn unorm16(v: u16) -> (s: Scalar)
    ensures
        s == share_of(v as int, 65535),
{
    share(v as u32, 65535)
}

fn nearest(n: u32, d: u32) -> (s: Scalar)
    requires
        is_whole(d as int),
        n <= d,
    ensures
        is_share(n as int, d as int, s),
{
    if n == 0 {
        return Scalar { bits: ZERO_BITS };
    }
    proof {
        lemma2_to64();
    }
    let floor: u64 = d as u64 * 0x80_0000;
    let mut k: u32 = 23;
    let mut scaled: u64 = n as u64 * 0x80_0000;
    while scaled < floor
        invariant
            23 <= k <= 47,
            1 <= n <= d < 0x100_0000,
            floor == d * 0x80_0000,
            scaled == n * pow2(k as nat),
            scaled < 2 * floor,
        decreases 47 - k,
    {
        proof {
            lemma2_to64();
            lemma_pow2_unfold((k + 1) as nat);
            assert(n * (2 * pow2(k as nat)) == 2 * (n * pow2(k as nat))) by (nonlinear_arith);
            assert(k < 47) by {
                if k >= 47 {
                    vstd::arithmetic::power2::lemma2_to64_rest();
                    assert(pow2(k as nat) >= 0x8000_0000_0000);
                    assert(n * pow2(k as nat) >= pow2(k as nat)) by (nonlinear_arith)
                        requires
                            n >= 1,
                            pow2(k as nat) >= 0,
                    ;
                }
            }
        }
        k = k + 1;
        scaled = scaled * 2;
    }
    let q: u64 = scaled / d as u64;
    let r: u64 = scaled % d as u64;
    proof {
        lemma_fundamental_div_mod(scaled as int, d as int);
        assert(d * q == q * d) by (nonlinear_arith);
        assert(q >= 0x80_0000) by (nonlinear_arith)
            requires
                scaled == d * q + r,
                r < d,
                scaled >= d * 0x80_0000,
                d > 0,
        ;
        assert(q < 0x100_0000) by (nonlinear_arith)
            requires
                scaled == d * q + r,
                r >= 0,
                scaled < d * 0x100_0000,
                d > 0,
        ;
    }
    let m: u64 = if 2 * r > d as u64 || (2 * r == d as u64 && q % 2 == 1) {
        q + 1
    } else {
        q
    };
    proof {
        assert(d * (q + 1) == d * q + d) by (nonlinear_arith);
        if m == 0x100_0000 {
            lemma_no_carry(n as int, d as int, k as int, q as int, r as int);
        }
    }
    let e: u32 = 150 - k;
    let bits: u32 = e * 0x80_0000 + (m - 0x80_0000) as u32;
    assert(bits as int / 0x80_0000 == e);
    assert(bits as int % 0x80_0000 == m - 0x80_0000);
    Scalar { bits }
}

/// The nearest number really is near: where `s` encodes the share `n / d`,
/// the number that `s` stands for differs from `n / d` by no more than
/// half of what the last bit of its fraction is worth. Both sides are
/// multiplied by `d` and by `2^149` here, which makes them whole.
pub proof fn lemma_share_is_near(n: int, d: int, s: Scalar)
    requires
        is_whole(d),
        1 <= n <= d,
        is_share(n, d, s),
    ensures
        !s.negative(),
        !s.nan(),
        s.exponent() >= 103,
        ({
            let last_bit = pow2((s.exponent() - 1) as nat) as int;
            let gap = d * s.scaled_value() - n * pow2(149);
            -(d * last_bit) <= 2 * gap <= d * last_bit
        }),
{
    let e = s.bits as int / 0x80_0000;
    let m = 0x80_0000 + s.bits as int % 0x80_0000;
    let up = pow2((150 - e) as nat) as int;
    let last_bit = pow2((e - 1) as nat) as int;
    assert(s.bits < 0x8000_0000);
    assert(s.magnitude() == s.bits);
    assert(s.scaled_value() == m * last_bit);
    lemma_pow2_adds((150 - e) as nat, (e - 1) as nat);
    lemma_pow2_pos((e - 1) as nat);
    let err = d * m - n * up;
    assert(d * (m * last_bit) - n * (up * last_bit) == err * last_bit) by (nonlinear_arith)
        requires
            err == d * m - n * up,
    ;
    assert(-(d * last_bit) <= 2 * (err * last_bit) <= d * last_bit) by (nonlinear_arith)
        requires
            -d <= 2 * err <= d,
            last_bit > 0,
    ;
}

/// `pow2(k)` is a multiple of `2^24` once `k` reaches 24.
proof fn lemma_scale_multiple(k: int)
    requires
        24 <= k,
    ensures
        pow2(k as nat) == 0x100_0000 * pow2((k - 24) as nat),
        pow2((k - 24) as nat) >= 1,
{
    lemma2_to64();
    lemma_pow2_adds(24, (k - 24) as nat);
    lemma_pow2_pos((k - 24) as nat);
}

/// Rounding never carries into the next power of two: a share that is not
/// the whole lies too far below it.
proof fn lemma_no_carry(n: int, d: int, k: int, q: int, r: int)
    requires
        is_whole(d),
        1 <= n <= d,
        23 <= k,
        n * pow2(k as nat) == d * q + r,
        0 <= r < d,
        n * pow2(k as nat) < 2 * (d * 0x80_0000),
        k == 23 ==> n * pow2(k as nat) <= d * 0x80_0000,
    ensures
        !(q + 1 == 0x100_0000 && 2 * r >= d),
{
    if q + 1 == 0x100_0000 && 2 * r >= d {
        assert(d * q == d * 0x100_0000 - d) by (nonlinear_arith)
            requires
                q == 0x100_0000 - 1,
        ;
        if k == 23 {
        } else {
            lemma_scale_multiple(k);
            let t = n * pow2((k - 24) as nat);
            assert(n * pow2(k as nat) == 0x100_0000 * t) by (nonlinear_arith)
                requires
                    pow2(k as nat) == 0x100_0000 * pow2((k - 24) as nat),
                    t == n * pow2((k - 24) as nat),
            ;
            assert(t < d);
            assert(0x100_0000 * t <= 0x100_0000 * d - 0x100_0000);
        }
    }
}

/// Only one encoding is the nearest to `n / d`.
pub proof fn lemma_share_unique(n: int, d: int, a: Scalar, b: Scalar)
    requires
        is_whole(d),
        0 <= n <= d,
        is_share(n, d, a),
        is_share(n, d, b),
    ensures
        a == b,
{
    if n != 0 {
        let ea = a.bits as int / 0x80_0000;
        let eb = b.bits as int / 0x80_0000;
        let ma = 0x80_0000 + a.bits as int % 0x80_0000;
        let mb = 0x80_0000 + b.bits as int % 0x80_0000;
        let pa = pow2((150 - ea) as nat) as int;
        let pb = pow2((150 - eb) as nat) as int;
        if ea < eb {
            lemma_scales_apart(ea, eb);
            lemma_share_differs(n, d, ma, mb, pa, pb);
        } else if eb < ea {
            lemma_scales_apart(eb, ea);
            lemma_share_differs(n, d, mb, ma, pb, pa);
        }
        assert(ea == eb);
        assert(d * ma - d * mb == d * (ma - mb)) by (nonlinear_arith);
        assert(-1 <= ma - mb <= 1) by (nonlinear_arith)
            requires
                -d <= d * (ma - mb) <= d,
                d > 0,
        ;
        if ma == mb + 1 {
            assert(d * (ma - mb) == d) by (nonlinear_arith)
                requires
                    ma - mb == 1,
            ;
            assert(ma % 2 == 0 && mb % 2 == 0);
        }
        if mb == ma + 1 {
            assert(d * (ma - mb) == -d) by (nonlinear_arith)
                requires
                    ma - mb == -1,
            ;
            assert(ma % 2 == 0 && mb % 2 == 0);
        }
        assert(ma == mb);
        assert(a.bits == ea * 0x80_0000 + (ma - 0x80_0000));
        assert(b.bits == eb * 0x80_0000 + (mb - 0x80_0000));
    }
}

/// The scale of a smaller exponent field is at least twice that of a
/// greater one, and a multiple of `2^24`.
proof fn lemma_scales_apart(low: int, high: int)
    requires
        103 <= low < high <= 127,
    ensures
        pow2((150 - low) as nat) >= 2 * pow2((150 - high) as nat),
        pow2((150 - high) as nat) >= 0x80_0000,
        pow2((150 - low) as nat) % 0x100_0000 == 0,
{
    lemma2_to64();
    lemma_pow2_unfold((150 - low) as nat);
    if low + 1 < high {
        lemma_pow2_strictly_increases((150 - high) as nat, (149 - low) as nat);
    }
    if high < 127 {
        lemma_pow2_strictly_increases(23, (150 - high) as nat);
    }
    lemma_scale_multiple(150 - low);
    let t = pow2((126 - low) as nat) as int;
    assert((0x100_0000 * t) % 0x100_0000 == 0) by (nonlinear_arith);
}

/// Two significands that are both nearest have scales less than a factor
/// of two apart, where the greater scale is a multiple of `2^24`.
proof fn lemma_share_differs(n: int, d: int, ma: int, mb: int, pa: int, pb: int)
    requires
        is_whole(d),
        1 <= n <= d,
        0x80_0000 <= ma < 0x100_0000,
        0x80_0000 <= mb < 0x100_0000,
        -d <= 2 * (d * ma - n * pa) <= d,
        -d <= 2 * (d * mb - n * pb) <= d,
        pb >= 0x80_0000,
        pa % 0x100_0000 == 0,
    ensures
        pa < 2 * pb,
{
    if pa >= 2 * pb {
        let t = pa / 0x100_0000;
        assert(pa == t * 0x100_0000);
        assert(n * pa == (n * t) * 0x100_0000) by (nonlinear_arith)
            requires
                pa == t * 0x100_0000,
        ;
        assert(n * pa >= 2 * (n * pb)) by (nonlinear_arith)
            requires
                pa >= 2 * pb,
                n >= 1,
        ;
        assert(d * ma < d * 0x100_0000) by (nonlinear_arith)
            requires
                ma < 0x100_0000,
                d > 0,
        ;
        assert(d * mb >= d * 0x80_0000) by (nonlinear_arith)
            requires
                mb >= 0x80_0000,
                d > 0,
        ;
        let u = n * t;
        assert(d * ma <= d * 0x100_0000 - d) by (nonlinear_arith)
            requires
                ma <= 0x100_0000 - 1,
                d > 0,
        ;
        assert(u * 0x100_0000 > d * 0x100_0000 - 0x100_0000);
        assert(u * 0x100_0000 < d * 0x100_0000);
    }
}

} // verus!
