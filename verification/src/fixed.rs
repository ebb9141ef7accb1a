//! The scalar kernel: signed 16.16 fixed-point numbers stored in `i64`.
//!
//! A scalar `x` stands for the real number `x / SCALE`.  Products and
//! quotients round toward negative infinity (floor), so every operation has
//! an exact specification over mathematical integers.

use vstd::prelude::*;
use vstd::arithmetic::div_mod::{
    lemma_div_pos_is_pos, lemma_fundamental_div_mod, lemma_fundamental_div_mod_converse,
    lemma_mod_bound,
};

verus! {

/// Number of fixed-point units in 1.0.
pub const SCALE: i64 = 65536;

/// Half of `SCALE`: 0.5 in fixed-point units.
pub const HALF: i64 = 32768;

/// Largest coordinate magnitude (in fixed-point units) the geometry kernel
/// accepts for query points and scene parameters; 32768.0 in real units.
pub const COORD_LIMIT: i64 = 2147483648;

/// Signed distances are saturated to this magnitude; about 4.2e6 real units,
/// far beyond any reachable march distance.
pub const SD_LIMIT: i64 = 274877906944;

/// Direction components are saturated to this magnitude (2.0 real), which is
/// ample for unit-length directions.
pub const DIR_LIMIT: i64 = 131072;

/// Largest color component a well-formed material or light may carry;
/// 256.0 in real units (colors are unclamped and may exceed 1.0).
pub const COLOR_LIMIT: i64 = 16777216;

/// Radiance components are saturated to this magnitude when lights are
/// accumulated; about 16.7e6 real units.
pub const LUM_LIMIT: i64 = 1099511627776;

/// `x` clamped to the closed interval `[-lim, lim]`.
pub open spec fn clamp_i(x: int, lim: int) -> int {
    if x < -lim {
        -lim
    } else if x > lim {
        lim
    } else {
        x
    }
}

pub open spec fn min_i(a: int, b: int) -> int {
    if a <= b {
        a
    } else {
        b
    }
}

pub open spec fn max_i(a: int, b: int) -> int {
    if a >= b {
        a
    } else {
        b
    }
}

pub open spec fn abs_i(a: int) -> int {
    if a < 0 {
        -a
    } else {
        a
    }
}

/// Floor division: in spec arithmetic `/` is Euclidean division, which for a
/// positive divisor rounds toward negative infinity.
pub open spec fn fdiv(a: int, b: int) -> int {
    a / b
}

/// The fixed-point product of `a` and `b`: `a * b / SCALE`, rounded down.
pub open spec fn fmul(a: int, b: int) -> int {
    fdiv(a * b, SCALE as int)
}

/// The linear blend `b * w + a * (1 - w)` with fixed-point weight `w`.
pub open spec fn mix_i(a: int, b: int, w: int) -> int {
    fdiv(b * w + a * (SCALE - w), SCALE as int)
}

/// Floor of the square root of a nonnegative integer, defined by counting up.
pub open spec fn sqrt_i(n: int) -> int
    decreases n,
{
    if n <= 0 {
        0
    } else {
        let p = sqrt_i(n - 1);
        if (p + 1) * (p + 1) <= n {
            p + 1
        } else {
            p
        }
    }
}

/// The defining property of `sqrt_i`: it is the floor of the square root.
pub proof fn lemma_sqrt_i(n: int)
    requires
        n >= 0,
    ensures
        sqrt_i(n) >= 0,
        sqrt_i(n) * sqrt_i(n) <= n,
        n < (sqrt_i(n) + 1) * (sqrt_i(n) + 1),
    decreases n,
{
    if n > 0 {
        lemma_sqrt_i(n - 1);
        let p = sqrt_i(n - 1);
        if (p + 1) * (p + 1) <= n {
            assert(n < (p + 2) * (p + 2)) by (nonlinear_arith)
                requires
                    n - 1 < (p + 1) * (p + 1),
                    p >= 0,
            ;
        }
    }
}

/// The floor of the square root is unique.
pub proof fn lemma_sqrt_unique(n: int, r: int)
    requires
        n >= 0,
        r >= 0,
        r * r <= n,
        n < (r + 1) * (r + 1),
    ensures
        r == sqrt_i(n),
{
    lemma_sqrt_i(n);
    let s = sqrt_i(n);
    if r < s {
        assert((r + 1) * (r + 1) <= s * s) by (nonlinear_arith)
            requires
                0 <= r,
                r < s,
        ;
    }
    if s < r {
        assert((s + 1) * (s + 1) <= r * r) by (nonlinear_arith)
            requires
                0 <= s,
                s < r,
        ;
    }
}

/// An upper bound transfers to the floor square root.
pub proof fn lemma_sqrt_le(n: int, m: int)
    requires
        0 <= n,
        0 <= m,
        n < (m + 1) * (m + 1),
    ensures
        0 <= sqrt_i(n) <= m,
{
    lemma_sqrt_i(n);
    let s = sqrt_i(n);
    if s > m {
        assert((m + 1) * (m + 1) <= s * s) by (nonlinear_arith)
            requires
                0 <= m,
                m < s,
        ;
    }
}

/// `|a * b| <= m * n` whenever `|a| <= m` and `|b| <= n`.
pub proof fn lemma_mul_abs_bound(a: int, b: int, m: int, n: int)
    by (nonlinear_arith)
    requires
        -m <= a <= m,
        -n <= b <= n,
        0 <= m,
        0 <= n,
    ensures
        -(m * n) <= a * b <= m * n,
{
}

/// Floor division by a positive divisor keeps a symmetric bound.
pub proof fn lemma_div_abs_bound(a: int, b: int, m: int)
    requires
        -m <= a <= m,
        0 <= m,
        1 <= b,
    ensures
        -m <= a / b <= m,
{
    lemma_fundamental_div_mod(a, b);
    lemma_mod_bound(a, b);
    assert(-m <= a / b <= m) by (nonlinear_arith)
        requires
            a == b * (a / b) + a % b,
            0 <= a % b < b,
            -m <= a <= m,
            0 <= m,
            1 <= b,
    ;
}

/// Dividing by a positive `b` shrinks a bound of the form `m * b` to `m`.
pub proof fn lemma_div_scaled_bound(a: int, b: int, m: int)
    requires
        1 <= b,
        0 <= m,
        -(m * b) <= a <= m * b,
    ensures
        -m <= a / b <= m,
{
    lemma_fundamental_div_mod(a, b);
    lemma_mod_bound(a, b);
    assert(-m <= a / b <= m) by (nonlinear_arith)
        requires
            a == b * (a / b) + a % b,
            0 <= a % b < b,
            -(m * b) <= a <= m * b,
            0 <= m,
            1 <= b,
    ;
}

/// Exec minimum of two scalars.
pub fn min64(a: i64, b: i64) -> (r: i64)
    ensures
        r == min_i(a as int, b as int),
{
    if a <= b {
        a
    } else {
        b
    }
}

/// Exec maximum of two scalars.
pub fn max64(a: i64, b: i64) -> (r: i64)
    ensures
        r == max_i(a as int, b as int),
{
    if a >= b {
        a
    } else {
        b
    }
}

/// Exec clamp to `[-lim, lim]`.
pub fn clamp64(x: i64, lim: i64) -> (r: i64)
    requires
        0 <= lim,
    ensures
        r == clamp_i(x as int, lim as int),
{
    if x < -lim {
        -lim
    } else if x > lim {
        lim
    } else {
        x
    }
}

/// Floor division of `a` by a positive `b`; matches the Euclidean `/` of the
/// specification language.
pub fn div_floor(a: i64, b: i64) -> (r: i64)
    requires
        1 <= b,
        -0x4000_0000_0000_0000 <= a <= 0x4000_0000_0000_0000,
    ensures
        r == fdiv(a as int, b as int),
{
    if a >= 0 {
        a / b
    } else {
        let n = -a;
        let q = n / b;
        let rem = n % b;
        proof {
            let ai = a as int;
            let bi = b as int;
            let ni = n as int;
            let qi = q as int;
            let ri = rem as int;
            lemma_fundamental_div_mod(ni, bi);
            lemma_mod_bound(ni, bi);
            lemma_div_pos_is_pos(ni, bi);
            if rem == 0 {
                assert(ai == (-qi) * bi + 0) by (nonlinear_arith)
                    requires
                        ni == bi * qi + ri,
                        ri == 0,
                        ai == -ni,
                ;
                lemma_fundamental_div_mod_converse(ai, bi, -qi, 0);
            } else {
                assert(ai == (-qi - 1) * bi + (bi - ri)) by (nonlinear_arith)
                    requires
                        ni == bi * qi + ri,
                        ai == -ni,
                ;
                lemma_fundamental_div_mod_converse(ai, bi, -qi - 1, bi - ri);
            }
        }
        if rem == 0 {
            -q
        } else {
            -q - 1
        }
    }
}

/// Floor square root of a `u64`, by binary search.
pub fn isqrt_u64(n: u64) -> (r: u64)
    ensures
        r == sqrt_i(n as int),
        r <= 0x1_0000_0000,
{
    let mut lo: u64 = 0;
    let mut hi: u64 = 0x1_0000_0000;
    proof {
        assert(0x1_0000_0000int * 0x1_0000_0000int > n as int);
    }
    while lo + 1 < hi
        invariant
            lo < hi <= 0x1_0000_0000,
            (lo as int) * (lo as int) <= n as int,
            (hi as int) * (hi as int) > n as int,
        decreases hi - lo,
    {
        let mid = lo + (hi - lo) / 2;
        proof {
            lemma_mul_abs_bound(mid as int, mid as int, 0x1_0000_0000, 0x1_0000_0000);
        }
        let sq = (mid as u128) * (mid as u128);
        if sq <= n as u128 {
            lo = mid;
        } else {
            hi = mid;
        }
    }
    proof {
        lemma_sqrt_unique(n as int, lo as int);
    }
    lo
}

/// Fixed-point square root: the floor square root of `a * SCALE`, so that
/// unit scaling is preserved (`sqrt_fixed(SCALE) == SCALE`).
pub fn sqrt_fixed(a: i64) -> (r: i64)
    requires
        0 <= a <= 0xFFFF_FFFF_FFFF,
    ensures
        r == sqrt_i(a as int * SCALE as int),
        0 <= r <= 0x1_0000_0000,
{
    let n: u64 = (a as u64) * 65536;
    let r = isqrt_u64(n);
    r as i64
}

/// Linear blend of two scalars with a fixed-point weight in `[0, SCALE]`.
pub fn mix_fixed(a: i64, b: i64, w: i64) -> (r: i64)
    requires
        0 <= w <= SCALE,
        -LUM_LIMIT <= a <= LUM_LIMIT,
        -LUM_LIMIT <= b <= LUM_LIMIT,
    ensures
        r == mix_i(a as int, b as int, w as int),
{
    proof {
        lemma_mul_abs_bound(b as int, w as int, LUM_LIMIT as int, SCALE as int);
        lemma_mul_abs_bound(a as int, SCALE - w, LUM_LIMIT as int, SCALE as int);
    }
    let p = b * w + a * (SCALE - w);
    div_floor(p, SCALE)
}

/// A blend with weight in `[0, SCALE]` stays inside the operands' interval.
pub proof fn lemma_mix_bounds(a: int, b: int, w: int, lo: int, hi: int)
    requires
        0 <= w <= SCALE,
        lo <= a <= hi,
        lo <= b <= hi,
    ensures
        lo <= mix_i(a, b, w) <= hi,
{
    assert(lo * SCALE <= b * w + a * (SCALE - w) <= hi * SCALE) by (nonlinear_arith)
        requires
            0 <= w <= SCALE,
            lo <= a <= hi,
            lo <= b <= hi,
    ;
    lemma_fundamental_div_mod(b * w + a * (SCALE - w), SCALE as int);
    lemma_mod_bound(b * w + a * (SCALE - w), SCALE as int);
    assert(lo <= mix_i(a, b, w) <= hi) by (nonlinear_arith)
        requires
            lo * SCALE <= b * w + a * (SCALE - w) <= hi * SCALE,
            b * w + a * (SCALE - w) == SCALE * mix_i(a, b, w) + (b * w + a * (SCALE - w)) % (
            SCALE as int),
            0 <= (b * w + a * (SCALE - w)) % (SCALE as int) < SCALE,
    ;
}

/// Fixed-point product with exact floor rounding.
pub fn mul_fixed(a: i64, b: i64) -> (r: i64)
    requires
        -0x4000_0000_0000_0000 <= a * b <= 0x4000_0000_0000_0000,
    ensures
        r == fmul(a as int, b as int),
{
    let p = a * b;
    div_floor(p, SCALE)
}

} // verus!
