//! Trigonometric and exponential kernels in micro-unit fixed point.
//!
//! Angles are micro-radians. Each executable function returns exactly the
//! value of its spec twin; the twins are truncated polynomial evaluations,
//! odd or even by construction, so parity laws hold exactly.

use vstd::prelude::*;
use crate::fixed::{
    SCALE, div_t, fmul_s, fdiv_s, clamp_s, fmul, fdiv, div_i64, clamp_i64, lemma_fmul_le,
    lemma_div_t_le, lemma_fdiv_le, lemma_div_t_abs,
};

verus! {

/// Pi in micro-radians.
pub const PI_FX: i64 = 3_141_593;

/// Two pi in micro-radians.
pub const TWO_PI_FX: i64 = 6_283_185;

/// Pi over two in micro-radians.
pub const HALF_PI_FX: i64 = 1_570_796;

/// Pi over four in micro-radians.
pub const QUARTER_PI_FX: i64 = 785_398;

/// Tangent of pi over eight, in micro-units.
pub const OCTANT_FX: i64 = 414_214;

/// Exponential of minus one, in micro-units.
pub const EXP_NEG_ONE_FX: i64 = 367_879;

/// The integer square root: the unique `r >= 0` with
/// `r * r <= n < (r + 1) * (r + 1)`.
pub open spec fn sqrt_s(n: int) -> int {
    choose|r: int| 0 <= r && r * r <= n && #[trigger] ((r + 1) * (r + 1)) > n
}

/// Any nonnegative `r` squeezing `n` between consecutive squares is
/// `sqrt_s(n)`.
pub proof fn lemma_sqrt_is(n: int, r: int)
    requires
        0 <= r,
        r * r <= n,
        n < (r + 1) * (r + 1),
    ensures
        sqrt_s(n) == r,
{
    assert(0 <= r && r * r <= n && ((r + 1) * (r + 1)) > n);
    let q = sqrt_s(n);
    assert(0 <= q && q * q <= n && ((q + 1) * (q + 1)) > n);
    assert(q == r) by (nonlinear_arith)
        requires
            0 <= q,
            q * q <= n,
            n < (q + 1) * (q + 1),
            0 <= r,
            r * r <= n,
            n < (r + 1) * (r + 1),
    ;
}

/// Integer square root by bisection.
pub fn isqrt_u64(n: u64) -> (r: u64)
    ensures
        r as int == sqrt_s(n as int),
        (r as int) * (r as int) <= n as int,
        (n as int) < (r as int + 1) * (r as int + 1),
        r <= 0xffff_ffff,
{
    let mut lo: u64 = 0;
    let mut hi: u64 = 0x1_0000_0000;
    proof {
        assert((hi as int) * (hi as int) > n as int) by (nonlinear_arith)
            requires
                hi == 0x1_0000_0000u64,
                n <= u64::MAX,
        ;
    }
    while lo + 1 < hi
        invariant
            0 <= lo < hi <= 0x1_0000_0000,
            (lo as int) * (lo as int) <= n as int,
            (n as int) < (hi as int) * (hi as int),
        decreases hi - lo,
    {
        let mid = lo + (hi - lo) / 2;
        proof {
            assert(mid * mid <= 0xffff_ffff * 0xffff_ffff) by (nonlinear_arith)
                requires
                    0 < mid <= 0xffff_ffffu64,
            ;
        }
        if mid * mid <= n {
            lo = mid;
        } else {
            hi = mid;
        }
    }
    proof {
        lemma_sqrt_is(n as int, lo as int);
    }
    lo
}

/// Fold an angle in `[0, 20_000_000]` micro-radians into `(-pi, pi]`
/// by subtracting two pi at most three times.
pub open spec fn wrap_pi_s(a: int) -> int {
    let a1 = if a > PI_FX as int { a - TWO_PI_FX as int } else { a };
    let a2 = if a1 > PI_FX as int { a1 - TWO_PI_FX as int } else { a1 };
    if a2 > PI_FX as int { a2 - TWO_PI_FX as int } else { a2 }
}

/// Truncated Taylor polynomial for the sine on `[0, pi/2]`.
pub open spec fn sin_poly_s(y: int) -> int {
    let s = SCALE as int;
    let y2 = fmul_s(y, y);
    let t5 = s - div_t(y2, 110);
    let t4 = s - div_t(fmul_s(y2, t5), 72);
    let t3 = s - div_t(fmul_s(y2, t4), 42);
    let t2 = s - div_t(fmul_s(y2, t3), 20);
    let t1 = s - div_t(fmul_s(y2, t2), 6);
    clamp_s(fmul_s(y, t1), -s, s)
}

/// Sine on `[0, pi]`, folding the second quadrant onto the first.
pub open spec fn sin_abs_s(a: int) -> int {
    if a > HALF_PI_FX as int {
        sin_poly_s(PI_FX as int - a)
    } else {
        sin_poly_s(a)
    }
}

/// Fixed-point sine, exactly odd by construction.
pub open spec fn sin_s(x: int) -> int {
    let ax = if x >= 0 { x } else { -x };
    let w = wrap_pi_s(ax);
    let v = if w >= 0 { sin_abs_s(w) } else { -sin_abs_s(-w) };
    if x >= 0 { v } else { -v }
}

/// Truncated Taylor polynomial for the cosine on `[0, pi/2]`.
pub open spec fn cos_poly_s(y: int) -> int {
    let s = SCALE as int;
    let y2 = fmul_s(y, y);
    let t5 = s - div_t(y2, 90);
    let t4 = s - div_t(fmul_s(y2, t5), 56);
    let t3 = s - div_t(fmul_s(y2, t4), 30);
    let t2 = s - div_t(fmul_s(y2, t3), 12);
    clamp_s(s - div_t(fmul_s(y2, t2), 2), -s, s)
}

/// Fixed-point cosine, exactly even by construction.
pub open spec fn cos_s(x: int) -> int {
    let ax = if x >= 0 { x } else { -x };
    let w = wrap_pi_s(ax);
    let aw = if w >= 0 { w } else { -w };
    if aw > HALF_PI_FX as int {
        -cos_poly_s(PI_FX as int - aw)
    } else {
        cos_poly_s(aw)
    }
}

/// Truncated Taylor polynomial for the arctangent on
/// `[-tan(pi/8), tan(pi/8)]`.
pub open spec fn atan_taylor_s(w: int) -> int {
    let w2 = fmul_s(w, w);
    let w3 = fmul_s(w, w2);
    let w5 = fmul_s(w3, w2);
    let w7 = fmul_s(w5, w2);
    let w9 = fmul_s(w7, w2);
    w - div_t(w3, 3) + div_t(w5, 5) - div_t(w7, 7) + div_t(w9, 9)
}

/// Arctangent of a ratio in `[0, 1]`, reducing the upper octant through
/// `atan(z) = pi/4 + atan((z - 1) / (z + 1))`; clamped into `[0, pi/2]`.
pub open spec fn atan_unit_s(z: int) -> int {
    let s = SCALE as int;
    let raw = if z > OCTANT_FX as int {
        QUARTER_PI_FX as int + atan_taylor_s(fdiv_s(z - s, z + s))
    } else {
        atan_taylor_s(z)
    };
    clamp_s(raw, 0, HALF_PI_FX as int)
}

/// Fixed-point two-argument arctangent in `(-pi, pi]`; zero at the origin.
/// Exactly odd in `y` away from the negative `x` axis, and invariant under
/// scaling both arguments by a positive factor.
pub open spec fn atan2_s(y: int, x: int) -> int {
    if y == 0 && x == 0 {
        0
    } else {
        let ay = if y >= 0 { y } else { -y };
        let ax = if x >= 0 { x } else { -x };
        let base = if ay <= ax {
            atan_unit_s(fdiv_s(ay, ax))
        } else {
            HALF_PI_FX as int - atan_unit_s(fdiv_s(ax, ay))
        };
        let r0 = if x >= 0 { base } else { PI_FX as int - base };
        if y < 0 { -r0 } else { r0 }
    }
}

/// Truncated Taylor polynomial for `exp(-f)` on `[0, 1)`, clamped into
/// `[0, 1]`.
pub open spec fn exp_frac_s(f: int) -> int {
    let s = SCALE as int;
    let f2 = fmul_s(f, f);
    let f3 = fmul_s(f2, f);
    let f4 = fmul_s(f3, f);
    let f5 = fmul_s(f4, f);
    let f6 = fmul_s(f5, f);
    let f7 = fmul_s(f6, f);
    let f8 = fmul_s(f7, f);
    clamp_s(
        s - f + div_t(f2, 2) - div_t(f3, 6) + div_t(f4, 24) - div_t(f5, 120) + div_t(f6, 720)
            - div_t(f7, 5040) + div_t(f8, 40320),
        0,
        s,
    )
}

/// Multiply by `exp(-1)` a given number of times.
pub open spec fn exp_scale_s(r: int, k: nat) -> int
    decreases k,
{
    if k == 0 {
        r
    } else {
        fmul_s(exp_scale_s(r, (k - 1) as nat), EXP_NEG_ONE_FX as int)
    }
}

/// Fixed-point `exp(-x)` for `x >= 0`: the fractional part by polynomial,
/// each whole unit by one multiplication with `exp(-1)`; zero from thirty on.
pub open spec fn exp_neg_s(x: int) -> int {
    let s = SCALE as int;
    if x >= 30 * s {
        0
    } else {
        exp_scale_s(exp_frac_s(x % s), (x / s) as nat)
    }
}

/// Sine polynomial kernel.
fn sin_poly(y: i64) -> (r: i64)
    requires
        0 <= y <= HALF_PI_FX,
    ensures
        r == sin_poly_s(y as int),
        -SCALE <= r <= SCALE,
{
    proof {
        lemma_fmul_le(y as int, y as int, HALF_PI_FX as int, HALF_PI_FX as int);
    }
    let y2 = fmul(y, y);
    proof {
        lemma_div_t_le(y2 as int, 110, 2_470_000);
    }
    let t5 = SCALE - div_i64(y2, 110);
    proof {
        lemma_fmul_le(y2 as int, t5 as int, 2_470_000, 1_030_000);
        lemma_div_t_le(fmul_s(y2 as int, t5 as int), 72, 2_600_000);
    }
    let t4 = SCALE - div_i64(fmul(y2, t5), 72);
    proof {
        lemma_fmul_le(y2 as int, t4 as int, 2_470_000, 1_040_000);
        lemma_div_t_le(fmul_s(y2 as int, t4 as int), 42, 2_600_000);
    }
    let t3 = SCALE - div_i64(fmul(y2, t4), 42);
    proof {
        lemma_fmul_le(y2 as int, t3 as int, 2_470_000, 1_070_000);
        lemma_div_t_le(fmul_s(y2 as int, t3 as int), 20, 2_700_000);
    }
    let t2 = SCALE - div_i64(fmul(y2, t3), 20);
    proof {
        lemma_fmul_le(y2 as int, t2 as int, 2_470_000, 1_140_000);
        lemma_div_t_le(fmul_s(y2 as int, t2 as int), 6, 2_900_000);
    }
    let t1 = SCALE - div_i64(fmul(y2, t2), 6);
    proof {
        lemma_fmul_le(y as int, t1 as int, HALF_PI_FX as int, 1_490_000);
    }
    let raw = fmul(y, t1);
    clamp_i64(raw, -SCALE, SCALE)
}

/// Cosine polynomial kernel.
fn cos_poly(y: i64) -> (r: i64)
    requires
        0 <= y <= HALF_PI_FX + 1,
    ensures
        r == cos_poly_s(y as int),
        -SCALE <= r <= SCALE,
{
    proof {
        lemma_fmul_le(y as int, y as int, 1_570_797, 1_570_797);
    }
    let y2 = fmul(y, y);
    proof {
        lemma_div_t_le(y2 as int, 90, 2_470_000);
    }
    let t5 = SCALE - div_i64(y2, 90);
    proof {
        lemma_fmul_le(y2 as int, t5 as int, 2_470_000, 1_030_000);
        lemma_div_t_le(fmul_s(y2 as int, t5 as int), 56, 2_600_000);
    }
    let t4 = SCALE - div_i64(fmul(y2, t5), 56);
    proof {
        lemma_fmul_le(y2 as int, t4 as int, 2_470_000, 1_050_000);
        lemma_div_t_le(fmul_s(y2 as int, t4 as int), 30, 2_600_000);
    }
    let t3 = SCALE - div_i64(fmul(y2, t4), 30);
    proof {
        lemma_fmul_le(y2 as int, t3 as int, 2_470_000, 1_090_000);
        lemma_div_t_le(fmul_s(y2 as int, t3 as int), 12, 2_700_000);
    }
    let t2 = SCALE - div_i64(fmul(y2, t3), 12);
    proof {
        lemma_fmul_le(y2 as int, t2 as int, 2_470_000, 1_230_000);
        lemma_div_t_le(fmul_s(y2 as int, t2 as int), 2, 3_100_000);
    }
    let raw = SCALE - div_i64(fmul(y2, t2), 2);
    clamp_i64(raw, -SCALE, SCALE)
}

/// Fixed-point sine of a micro-radian angle, exactly odd.
pub fn sin_fx(x: i64) -> (r: i64)
    requires
        -20_000_000 <= x <= 20_000_000,
    ensures
        r == sin_s(x as int),
        -SCALE <= r <= SCALE,
{
    let ax = if x >= 0 { x } else { -x };
    let mut w = ax;
    if w > PI_FX {
        w = w - TWO_PI_FX;
    }
    if w > PI_FX {
        w = w - TWO_PI_FX;
    }
    if w > PI_FX {
        w = w - TWO_PI_FX;
    }
    let v = if w >= 0 {
        if w > HALF_PI_FX {
            sin_poly(PI_FX - w)
        } else {
            sin_poly(w)
        }
    } else {
        let nw = -w;
        -(if nw > HALF_PI_FX {
            sin_poly(PI_FX - nw)
        } else {
            sin_poly(nw)
        })
    };
    if x >= 0 {
        v
    } else {
        -v
    }
}

/// Fixed-point cosine of a micro-radian angle, exactly even.
pub fn cos_fx(x: i64) -> (r: i64)
    requires
        -20_000_000 <= x <= 20_000_000,
    ensures
        r == cos_s(x as int),
        -SCALE <= r <= SCALE,
{
    let ax = if x >= 0 { x } else { -x };
    let mut w = ax;
    if w > PI_FX {
        w = w - TWO_PI_FX;
    }
    if w > PI_FX {
        w = w - TWO_PI_FX;
    }
    if w > PI_FX {
        w = w - TWO_PI_FX;
    }
    let aw = if w >= 0 { w } else { -w };
    if aw > HALF_PI_FX {
        -cos_poly(PI_FX - aw)
    } else {
        cos_poly(aw)
    }
}

/// Arctangent Taylor kernel on `[-tan(pi/8), tan(pi/8)]`.
fn atan_taylor(w: i64) -> (r: i64)
    requires
        -414_214 <= w <= 414_214,
    ensures
        r == atan_taylor_s(w as int),
        -500_000 <= r <= 500_000,
{
    proof {
        lemma_fmul_le(w as int, w as int, 414_214, 414_214);
    }
    let w2 = fmul(w, w);
    proof {
        lemma_fmul_le(w as int, w2 as int, 414_214, 172_000);
    }
    let w3 = fmul(w, w2);
    proof {
        lemma_fmul_le(w3 as int, w2 as int, 72_000, 172_000);
    }
    let w5 = fmul(w3, w2);
    proof {
        lemma_fmul_le(w5 as int, w2 as int, 12_500, 172_000);
    }
    let w7 = fmul(w5, w2);
    proof {
        lemma_fmul_le(w7 as int, w2 as int, 2_200, 172_000);
    }
    let w9 = fmul(w7, w2);
    proof {
        lemma_div_t_le(w3 as int, 3, 72_000);
        lemma_div_t_le(w5 as int, 5, 12_500);
        lemma_div_t_le(w7 as int, 7, 2_200);
        lemma_div_t_le(w9 as int, 9, 400);
    }
    w - div_i64(w3, 3) + div_i64(w5, 5) - div_i64(w7, 7) + div_i64(w9, 9)
}

/// Arctangent of a ratio in `[0, 1]` micro-units, clamped into `[0, pi/2]`.
fn atan_unit(z: i64) -> (r: i64)
    requires
        0 <= z <= SCALE,
    ensures
        r == atan_unit_s(z as int),
        0 <= r <= HALF_PI_FX,
{
    let raw = if z > OCTANT_FX {
        proof {
            lemma_fdiv_le(z as int - SCALE as int, z as int + SCALE as int, 585_786, 1_414_215);
        }
        let w = fdiv(z - SCALE, z + SCALE);
        QUARTER_PI_FX + atan_taylor(w)
    } else {
        atan_taylor(z)
    };
    clamp_i64(raw, 0, HALF_PI_FX)
}

/// Fixed-point two-argument arctangent in micro-radians, in `(-pi, pi]`;
/// zero when both arguments are zero.
pub fn atan2_fx(y: i64, x: i64) -> (r: i64)
    requires
        -1_000_000_000_000_000_000 <= y <= 1_000_000_000_000_000_000,
        -1_000_000_000_000_000_000 <= x <= 1_000_000_000_000_000_000,
    ensures
        r == atan2_s(y as int, x as int),
        -PI_FX <= r <= PI_FX,
        y >= 0 ==> 0 <= r,
{
    if y == 0 && x == 0 {
        return 0;
    }
    let ay = if y >= 0 { y } else { -y };
    let ax = if x >= 0 { x } else { -x };
    let base = if ay <= ax {
        proof {
            lemma_ratio_unit(ay as int, ax as int);
        }
        atan_unit(fdiv(ay, ax))
    } else {
        proof {
            lemma_ratio_unit(ax as int, ay as int);
        }
        HALF_PI_FX - atan_unit(fdiv(ax, ay))
    };
    let r0 = if x >= 0 { base } else { PI_FX - base };
    if y < 0 {
        -r0
    } else {
        r0
    }
}

/// The scaled ratio of `0 <= n <= d` lies in `[0, 1]` micro-units.
proof fn lemma_ratio_unit(n: int, d: int)
    requires
        0 <= n <= d,
        1 <= d,
    ensures
        0 <= fdiv_s(n, d) <= SCALE as int,
{
    let s = SCALE as int;
    lemma_mul_inequality_ns(n, d, s);
    vstd::arithmetic::div_mod::lemma_div_is_ordered(n * s, d * s, d);
    vstd::arithmetic::div_mod::lemma_div_multiples_vanish(s, d);
    vstd::arithmetic::mul::lemma_mul_is_commutative(d, s);
    if n > 0 {
        vstd::arithmetic::div_mod::lemma_div_pos_is_pos(n * s, d);
        vstd::arithmetic::mul::lemma_mul_strictly_positive(n, s);
    } else {
        assert(n * s == 0) by (nonlinear_arith)
            requires
                n == 0,
        ;
    }
}

/// Multiplying both sides of `n <= d` by a positive factor keeps the order.
proof fn lemma_mul_inequality_ns(n: int, d: int, s: int)
    requires
        n <= d,
        0 < s,
    ensures
        n * s <= d * s,
{
    vstd::arithmetic::mul::lemma_mul_inequality(n, d, s);
}

/// Fixed-point `exp(-x)` for nonnegative `x` in micro-units.
pub fn exp_neg_fx(x: i64) -> (r: i64)
    requires
        0 <= x,
    ensures
        r == exp_neg_s(x as int),
        0 <= r <= SCALE,
{
    if x >= 30 * SCALE {
        return 0;
    }
    let n = div_i64(x, SCALE);
    proof {
        assert(div_t(x as int, SCALE as int) == (x as int) / (SCALE as int));
        vstd::arithmetic::div_mod::lemma_fundamental_div_mod(x as int, SCALE as int);
        vstd::arithmetic::div_mod::lemma_div_pos_is_pos(x as int, SCALE as int);
        vstd::arithmetic::div_mod::lemma_div_is_ordered(x as int, 30_000_000, SCALE as int);
        vstd::arithmetic::div_mod::lemma_remainder_lower(x as int, SCALE as int);
        vstd::arithmetic::div_mod::lemma_remainder_upper(x as int, SCALE as int);
    }
    let f = x - n * SCALE;
    let core = exp_frac(f);
    let mut acc = core;
    let mut i: i64 = 0;
    while i < n
        invariant
            0 <= i <= n < 30,
            0 <= acc <= SCALE,
            acc == exp_scale_s(exp_frac_s(f as int), i as nat),
        decreases n - i,
    {
        proof {
            lemma_fmul_le(acc as int, EXP_NEG_ONE_FX as int, SCALE as int, EXP_NEG_ONE_FX as int);
            assert(0 <= (acc as int) * (EXP_NEG_ONE_FX as int)) by (nonlinear_arith)
                requires
                    0 <= acc,
            ;
            lemma_div_t_abs((acc as int) * (EXP_NEG_ONE_FX as int), SCALE as int,
                367_879_000_000);
        }
        acc = fmul(acc, EXP_NEG_ONE_FX);
        i = i + 1;
    }
    proof {
        assert((x as int) % (SCALE as int) == f as int);
        assert((x as int) / (SCALE as int) == n as int);
    }
    acc
}

/// Exponential polynomial kernel on one unit.
fn exp_frac(f: i64) -> (r: i64)
    requires
        0 <= f < SCALE,
    ensures
        r == exp_frac_s(f as int),
        0 <= r <= SCALE,
{
    proof {
        lemma_fmul_le(f as int, f as int, 999_999, 999_999);
    }
    let f2 = fmul(f, f);
    proof {
        lemma_fmul_le(f2 as int, f as int, 999_999, 999_999);
    }
    let f3 = fmul(f2, f);
    proof {
        lemma_fmul_le(f3 as int, f as int, 999_999, 999_999);
    }
    let f4 = fmul(f3, f);
    proof {
        lemma_fmul_le(f4 as int, f as int, 999_999, 999_999);
    }
    let f5 = fmul(f4, f);
    proof {
        lemma_fmul_le(f5 as int, f as int, 999_999, 999_999);
    }
    let f6 = fmul(f5, f);
    proof {
        lemma_fmul_le(f6 as int, f as int, 999_999, 999_999);
    }
    let f7 = fmul(f6, f);
    proof {
        lemma_fmul_le(f7 as int, f as int, 999_999, 999_999);
    }
    let f8 = fmul(f7, f);
    proof {
        lemma_div_t_le(f2 as int, 2, 999_999);
        lemma_div_t_le(f3 as int, 6, 999_999);
        lemma_div_t_le(f4 as int, 24, 999_999);
        lemma_div_t_le(f5 as int, 120, 999_999);
        lemma_div_t_le(f6 as int, 720, 999_999);
        lemma_div_t_le(f7 as int, 5040, 999_999);
        lemma_div_t_le(f8 as int, 40320, 999_999);
    }
    let raw = SCALE - f + div_i64(f2, 2) - div_i64(f3, 6) + div_i64(f4, 24) - div_i64(f5, 120)
        + div_i64(f6, 720) - div_i64(f7, 5040) + div_i64(f8, 40320);
    clamp_i64(raw, 0, SCALE)
}

} // verus!

verus! {

/// The fixed-point cosine stays clearly positive on the angles where the
/// low-angle-of-attack model divides by it.
pub proof fn lemma_cos_lower(x: int)
    requires
        -1_200_000 <= x <= 1_200_000,
    ensures
        cos_s(x) >= 280_000,
        cos_s(x) <= SCALE as int,
{
    let s = SCALE as int;
    let ax = if x >= 0 { x } else { -x };
    assert(wrap_pi_s(ax) == ax);
    let y2 = fmul_s(ax, ax);
    lemma_fmul_le(ax, ax, 1_200_000, 1_200_000);
    assert(0 <= y2 <= 1_440_000);
    lemma_div_t_le(y2, 90, 1_440_000);
    lemma_div_t_abs(y2, 90, 1_440_000);
    let t5 = s - div_t(y2, 90);
    assert(984_000 <= t5 <= s);
    lemma_fmul_le(y2, t5, 1_440_000, 1_000_000);
    lemma_div_t_le(fmul_s(y2, t5), 56, 1_440_000);
    lemma_div_t_abs(fmul_s(y2, t5), 56, 1_440_000);
    let t4 = s - div_t(fmul_s(y2, t5), 56);
    assert(974_286 <= t4 <= s) by {
        assert(0 <= fmul_s(y2, t5) <= 1_440_000);
    }
    lemma_fmul_le(y2, t4, 1_440_000, 1_000_000);
    lemma_div_t_abs(fmul_s(y2, t4), 30, 1_440_000);
    lemma_div_t_le(fmul_s(y2, t4), 30, 1_440_000);
    let t3 = s - div_t(fmul_s(y2, t4), 30);
    assert(952_000 <= t3 <= s);
    lemma_fmul_le(y2, t3, 1_440_000, 1_000_000);
    lemma_div_t_abs(fmul_s(y2, t3), 12, 1_440_000);
    lemma_div_t_le(fmul_s(y2, t3), 12, 1_440_000);
    let t2 = s - div_t(fmul_s(y2, t3), 12);
    assert(880_000 <= t2 <= s);
    lemma_fmul_le(y2, t2, 1_440_000, 1_000_000);
    lemma_div_t_abs(fmul_s(y2, t2), 2, 1_440_000);
    lemma_div_t_le(fmul_s(y2, t2), 2, 1_440_000);
    assert(280_000 <= s - div_t(fmul_s(y2, t2), 2));
    assert(cos_s(x) == cos_poly_s(ax));
}

} // verus!

verus! {

/// The fixed-point sine is exactly odd.
pub proof fn lemma_sin_odd(x: int)
    ensures
        sin_s(-x) == -sin_s(x),
{
    if x == 0 {
        assert(sin_s(0) == (if wrap_pi_s(0) >= 0 {
            sin_abs_s(wrap_pi_s(0))
        } else {
            -sin_abs_s(-wrap_pi_s(0))
        }));
    } else if x > 0 {
        let w = wrap_pi_s(x);
        assert(sin_s(x) == (if w >= 0 {
            sin_abs_s(w)
        } else {
            -sin_abs_s(-w)
        }));
        assert(sin_s(-x) == -(if w >= 0 {
            sin_abs_s(w)
        } else {
            -sin_abs_s(-w)
        }));
    } else {
        let w = wrap_pi_s(-x);
        assert(sin_s(-x) == (if w >= 0 {
            sin_abs_s(w)
        } else {
            -sin_abs_s(-w)
        }));
        assert(sin_s(x) == -(if w >= 0 {
            sin_abs_s(w)
        } else {
            -sin_abs_s(-w)
        }));
    }
}

/// The fixed-point cosine is exactly even.
pub proof fn lemma_cos_even(x: int)
    ensures
        cos_s(-x) == cos_s(x),
{
}

/// The two-argument arctangent is invariant under scaling both arguments
/// by the same positive factor.
pub proof fn lemma_atan2_scale(y: int, x: int, k: int)
    requires
        k >= 1,
    ensures
        atan2_s(k * y, k * x) == atan2_s(y, x),
{
    if y == 0 && x == 0 {
        assert(k * y == 0 && k * x == 0) by (nonlinear_arith)
            requires
                y == 0,
                x == 0,
        ;
    } else {
        let ay = if y >= 0 { y } else { -y };
        let ax = if x >= 0 { x } else { -x };
        assert(k * y == 0 <==> y == 0) by (nonlinear_arith)
            requires
                k >= 1,
        ;
        assert(k * x == 0 <==> x == 0) by (nonlinear_arith)
            requires
                k >= 1,
        ;
        assert((k * y >= 0 <==> y >= 0) && (k * x >= 0 <==> x >= 0) && (k * y < 0 <==> y < 0))
            by (nonlinear_arith)
            requires
                k >= 1,
        ;
        if y >= 0 {
            assert(k * y >= 0) by (nonlinear_arith)
                requires
                    k >= 1,
                    y >= 0,
            ;
        } else {
            assert(-(k * y) == k * (-y)) by (nonlinear_arith);
        }
        if x >= 0 {
            assert(k * x >= 0) by (nonlinear_arith)
                requires
                    k >= 1,
                    x >= 0,
            ;
        } else {
            assert(-(k * x) == k * (-x)) by (nonlinear_arith);
        }
        assert((if k * y >= 0 { k * y } else { -(k * y) }) == k * ay);
        assert((if k * x >= 0 { k * x } else { -(k * x) }) == k * ax);
        assert(k * ay <= k * ax <==> ay <= ax) by (nonlinear_arith)
            requires
                k >= 1,
        ;
        if ay <= ax {
            assert(ax >= 1);
            assert(fdiv_s(k * ay, k * ax) == fdiv_s(ay, ax)) by {
                assert((k * ay) * (SCALE as int) == k * (ay * (SCALE as int))) by (nonlinear_arith);
                crate::fixed::lemma_div_t_scale(ay * (SCALE as int), ax, k);
            }
        } else {
            assert(ay >= 1);
            assert(fdiv_s(k * ax, k * ay) == fdiv_s(ax, ay)) by {
                assert((k * ax) * (SCALE as int) == k * (ax * (SCALE as int))) by (nonlinear_arith);
                crate::fixed::lemma_div_t_scale(ax * (SCALE as int), ay, k);
            }
        }
    }
}

} // verus!
