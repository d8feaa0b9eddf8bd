//! Fixed-point arithmetic in micro-units.
//!
//! A quantity `q` is represented by the integer `q * SCALE` rounded toward
//! zero, exactly as Rust's integer division rounds. `div_t` is the spec-level
//! twin of that truncating division; `fmul` and `fdiv` are the fixed-point
//! product and quotient.

use vstd::prelude::*;
use vstd::arithmetic::div_mod::*;
use vstd::arithmetic::mul::*;

verus! {

/// Number of micro-units in one unit.
pub const SCALE: i64 = 1_000_000;

/// Truncating integer division (rounds toward zero), the semantics of
/// Rust's `/` on signed integers. In contrast, `/` on `int` in
/// specifications is Euclidean division.
pub open spec fn div_t(x: int, d: int) -> int {
    if x == 0 {
        0
    } else if x > 0 && d > 0 {
        x / d
    } else if x < 0 && d < 0 {
        (-x) / (-d)
    } else if x < 0 {
        -((-x) / d)
    } else {
        -(x / (-d))
    }
}

/// Fixed-point product: `a * b` scaled back down, rounded toward zero.
pub open spec fn fmul_s(a: int, b: int) -> int {
    div_t(a * b, SCALE as int)
}

/// Fixed-point quotient: `a / b` scaled up, rounded toward zero.
pub open spec fn fdiv_s(a: int, b: int) -> int {
    div_t(a * (SCALE as int), b)
}

/// Clamp `x` into `[lo, hi]`.
pub open spec fn clamp_s(x: int, lo: int, hi: int) -> int {
    if x < lo {
        lo
    } else if x > hi {
        hi
    } else {
        x
    }
}

/// Linear interpolation from `a` to `b` with the parameter clamped to `[0, 1]`.
pub open spec fn lerp_clamped_s(a: int, b: int, t: int) -> int {
    a + fmul_s(clamp_s(t, 0, SCALE as int), b - a)
}

/// Truncating division never increases magnitude (for divisors of
/// magnitude at least one) and is monotone in the numerator's magnitude.
pub proof fn lemma_div_t_abs(x: int, d: int, xb: int)
    requires
        -xb <= x <= xb,
        d >= 1 || d <= -1,
    ensures
        -xb <= div_t(x, d) <= xb,
        x >= 0 && d >= 1 ==> 0 <= div_t(x, d) <= x,
{
    let ax = if x >= 0 { x } else { -x };
    let ad = if d >= 1 { d } else { -d };
    if ax > 0 {
        lemma_div_pos_is_pos(ax, ad);
        lemma_div_is_ordered_by_denominator(ax, 1, ad);
        lemma_div_by_self(1);
        assert(ax / ad <= ax / 1);
    }
}

/// Bound on a truncated quotient from a bound on the numerator:
/// `|x| <= xb` and `d >= 1` give `|div_t(x, d)| <= xb / d`.
pub proof fn lemma_div_t_le(x: int, d: int, xb: int)
    requires
        -xb <= x <= xb,
        d >= 1,
        xb >= 0,
    ensures
        -(xb / d) <= div_t(x, d) <= xb / d,
{
    let ax = if x >= 0 { x } else { -x };
    lemma_div_is_ordered(ax, xb, d);
    if ax > 0 {
        lemma_div_pos_is_pos(ax, d);
    }
    lemma_div_pos_is_pos(xb, d);
}

/// Bound on a fixed-point product from bounds on its factors:
/// `|a| <= ab` and `|b| <= bb` give `|fmul_s(a, b)| <= ab * bb / SCALE`.
pub proof fn lemma_fmul_le(a: int, b: int, ab: int, bb: int)
    requires
        -ab <= a <= ab,
        -bb <= b <= bb,
        0 <= ab,
        0 <= bb,
    ensures
        -(ab * bb) <= a * b <= ab * bb,
        -(ab * bb / (SCALE as int)) <= fmul_s(a, b) <= ab * bb / (SCALE as int),
        0 <= a && 0 <= b ==> 0 <= fmul_s(a, b) <= a * b,
{
    assert(-(ab * bb) <= a * b <= ab * bb) by (nonlinear_arith)
        requires
            -ab <= a <= ab,
            -bb <= b <= bb,
            0 <= ab,
            0 <= bb,
    ;
    lemma_div_t_le(a * b, SCALE as int, ab * bb);
    if 0 <= a && 0 <= b {
        assert(0 <= a * b) by (nonlinear_arith)
            requires
                0 <= a,
                0 <= b,
        ;
        lemma_div_t_abs(a * b, SCALE as int, ab * bb);
    }
}

/// Lower bound on a fixed-point product of nonnegative factors, from a
/// lower bound on one factor and a positive constant other factor.
pub proof fn lemma_fmul_ge(a: int, k: int, amin: int)
    requires
        0 <= amin <= a,
        0 < k,
    ensures
        fmul_s(a, k) >= amin * k / (SCALE as int),
        fmul_s(a, k) >= 0,
{
    lemma_mul_inequality(amin, a, k);
    lemma_mul_nonnegative(amin, k);
    lemma_div_is_ordered(amin * k, a * k, SCALE as int);
    lemma_div_pos_is_pos(amin * k, SCALE as int);
    if a * k > 0 {
        lemma_div_pos_is_pos(a * k, SCALE as int);
    }
}

/// Fixed-point product with a wide result, for moment arms times forces.
pub fn fmul_wide(a: i64, b: i64) -> (r: i128)
    ensures
        r == fmul_s(a as int, b as int),
{
    proof {
        lemma_fmul_le(
            a as int,
            b as int,
            0x8000_0000_0000_0000,
            0x8000_0000_0000_0000,
        );
    }
    let p: i128 = (a as i128) * (b as i128);
    div_i128(p, SCALE as i128)
}

/// A truncated quotient of a scaled product by a larger scaled factor keeps
/// the multiplicand's bound: with `0 < cls <= pi_ar`, the induced quantity
/// `fdiv_s(fmul_s(cls, e), pi_ar)` lies between `0` and `e`.
pub proof fn lemma_induced_within(cls: int, pi_ar: int, e: int)
    requires
        0 < cls <= pi_ar,
    ensures
        e >= 0 ==> 0 <= fdiv_s(fmul_s(cls, e), pi_ar) <= e,
        e < 0 ==> e <= fdiv_s(fmul_s(cls, e), pi_ar) <= 0,
{
    let s = SCALE as int;
    let ea = if e >= 0 { e } else { -e };
    let la = fmul_s(cls, ea);
    lemma_mul_nonnegative(cls, ea);
    lemma_div_pos_is_pos(cls * ea, s);
    assert(0 <= la);
    let num = la * s;
    lemma_mul_nonnegative(la, s);
    // la * s <= cls * ea, since la rounds cls * ea / s down
    lemma_fundamental_div_mod(cls * ea, s);
    lemma_mul_is_commutative(la, s);
    assert(num <= cls * ea);
    lemma_div_is_ordered(num, cls * ea, pi_ar);
    lemma_mul_inequality(cls, pi_ar, ea);
    lemma_mul_is_commutative(pi_ar, ea);
    lemma_div_is_ordered(cls * ea, pi_ar * ea, pi_ar);
    lemma_div_multiples_vanish(ea, pi_ar);
    assert(div_t(num, pi_ar) <= ea);
    lemma_div_pos_is_pos(num, pi_ar);
    assert(0 <= fdiv_s(la, pi_ar) <= ea);
    if e < 0 {
        assert(cls * e == -(cls * ea)) by (nonlinear_arith)
            requires
                ea == -e,
        ;
        lemma_div_t_parity(cls * ea, s);
        assert(fmul_s(cls, e) == -la);
        assert((-la) * s == -(la * s)) by (nonlinear_arith);
        lemma_div_t_parity(la * s, pi_ar);
        assert(fdiv_s(-la, pi_ar) == -fdiv_s(la, pi_ar));
    }
}

/// Bound on a fixed-point quotient: `|a| <= ab` and `b >= bmin >= 1`
/// give `|fdiv_s(a, b)| <= ab * SCALE / bmin`.
pub proof fn lemma_fdiv_le(a: int, b: int, ab: int, bmin: int)
    requires
        -ab <= a <= ab,
        0 <= ab,
        1 <= bmin <= b,
    ensures
        -(ab * (SCALE as int)) <= a * (SCALE as int) <= ab * (SCALE as int),
        -(ab * (SCALE as int) / bmin) <= fdiv_s(a, b) <= ab * (SCALE as int) / bmin,
{
    lemma_fmul_le(a, SCALE as int, ab, SCALE as int);
    let n = a * (SCALE as int);
    let nb = ab * (SCALE as int);
    let an = if n >= 0 { n } else { -n };
    lemma_div_is_ordered(an, nb, b);
    lemma_div_is_ordered_by_denominator(nb, bmin, b);
    if an > 0 {
        lemma_div_pos_is_pos(an, b);
    }
    lemma_div_pos_is_pos(nb, bmin);
}

/// One-sided upper bound on a truncated quotient: a numerator below a
/// nonnegative cap divides to below the cap's quotient.
pub proof fn lemma_div_t_le_upper(x: int, d: int, xmax: int)
    requires
        x <= xmax,
        0 <= xmax,
        1 <= d,
    ensures
        div_t(x, d) <= xmax / d,
{
    lemma_div_pos_is_pos(xmax, d);
    if x >= 0 {
        lemma_div_is_ordered(x, xmax, d);
        if x > 0 {
            lemma_div_pos_is_pos(x, d);
        }
    } else {
        lemma_div_pos_is_pos(-x, d);
    }
}

/// Truncating division is odd in its numerator and in its divisor.
pub proof fn lemma_div_t_parity(x: int, d: int)
    requires
        d != 0,
    ensures
        div_t(-x, d) == -div_t(x, d),
        div_t(x, -d) == -div_t(x, d),
{
}

/// Truncating division of exact multiples is exact.
pub proof fn lemma_div_t_multiple(k: int, d: int)
    requires
        d >= 1,
    ensures
        div_t(k * d, d) == k,
{
    if k > 0 {
        lemma_div_multiples_vanish(k, d);
        lemma_mul_is_commutative(k, d);
    } else if k < 0 {
        lemma_div_multiples_vanish(-k, d);
        lemma_mul_is_commutative(-k, d);
        assert(-(k * d) == (-k) * d) by (nonlinear_arith);
        assert(k * d < 0) by (nonlinear_arith)
            requires
                k < 0,
                d >= 1,
        ;
    } else {
        assert(k * d == 0) by (nonlinear_arith)
            requires
                k == 0,
        ;
    }
}

/// A common factor in numerator and divisor cancels out of a
/// truncating division.
pub proof fn lemma_div_t_scale(x: int, d: int, k: int)
    requires
        d >= 1,
        k >= 1,
    ensures
        div_t(k * x, k * d) == div_t(x, d),
{
    let ax = if x >= 0 { x } else { -x };
    lemma_mul_strictly_positive(k, d);
    if x > 0 {
        lemma_mul_strictly_positive(k, x);
    }
    if x < 0 {
        lemma_mul_unary_negation(k, x);
        assert(k * x < 0) by (nonlinear_arith)
            requires
                k >= 1,
                x < 0,
        ;
    }
    lemma_div_denominator(k * ax, k, d);
    lemma_div_multiples_vanish(ax, k);
    lemma_mul_is_commutative(k, ax);
    assert((k * ax) / k == ax);
    assert((k * ax) / (k * d) == ax / d);
}

/// Exact truncating division on `i128`, through `checked_div`.
pub fn div_i128(a: i128, b: i128) -> (r: i128)
    requires
        b != 0,
        a > i128::MIN,
    ensures
        r == div_t(a as int, b as int),
{
    proof {
        lemma_div_t_abs(a as int, b as int, if a >= 0 { a as int } else { -(a as int) });
    }
    match a.checked_div(b) {
        Some(q) => q,
        None => {
            proof {
                assert(false);
            }
            0
        },
    }
}

/// Exact truncating division on `i64`.
pub fn div_i64(a: i64, b: i64) -> (r: i64)
    requires
        b != 0,
        a > i64::MIN,
    ensures
        r == div_t(a as int, b as int),
{
    proof {
        lemma_div_t_abs(a as int, b as int, if a >= 0 { a as int } else { -(a as int) });
    }
    match a.checked_div(b) {
        Some(q) => q,
        None => {
            proof {
                assert(false);
            }
            0
        },
    }
}

/// Fixed-point product of two micro-unit quantities.
pub fn fmul(a: i64, b: i64) -> (r: i64)
    requires
        i64::MIN < fmul_s(a as int, b as int) <= i64::MAX,
    ensures
        r == fmul_s(a as int, b as int),
{
    let p: i128 = (a as i128) * (b as i128);
    let q = div_i128(p, SCALE as i128);
    proof {
        lemma_div_t_abs(p as int, SCALE as int, if p >= 0 { p as int } else { -(p as int) });
    }
    q as i64
}

/// Fixed-point quotient of two micro-unit quantities.
pub fn fdiv(a: i64, b: i64) -> (r: i64)
    requires
        b != 0,
        i64::MIN < fdiv_s(a as int, b as int) <= i64::MAX,
    ensures
        r == fdiv_s(a as int, b as int),
{
    let p: i128 = (a as i128) * (SCALE as i128);
    let q = div_i128(p, b as i128);
    proof {
        lemma_div_t_abs(p as int, b as int, if p >= 0 { p as int } else { -(p as int) });
    }
    q as i64
}

/// Clamp `x` into `[lo, hi]`.
pub fn clamp_i64(x: i64, lo: i64, hi: i64) -> (r: i64)
    requires
        lo <= hi,
    ensures
        r == clamp_s(x as int, lo as int, hi as int),
        lo <= r <= hi,
{
    if x < lo {
        lo
    } else if x > hi {
        hi
    } else {
        x
    }
}

/// The interpolation parameter of `lerp_clamped_s` is confined to `[0, 1]`,
/// so the result lies between the two endpoints.
pub proof fn lemma_lerp_between(a: int, b: int, t: int)
    ensures
        a <= b ==> a <= lerp_clamped_s(a, b, t) <= b,
        b <= a ==> b <= lerp_clamped_s(a, b, t) <= a,
        lerp_clamped_s(a, b, 0) == a,
        lerp_clamped_s(a, b, SCALE as int) == b,
{
    let s = SCALE as int;
    let tc = clamp_s(t, 0, s);
    let d = b - a;
    assert(0 <= tc <= s);
    if d >= 0 {
        assert(0 <= tc * d <= s * d) by (nonlinear_arith)
            requires
                0 <= tc <= s,
                d >= 0,
        ;
        lemma_div_is_ordered(tc * d, s * d, s);
        lemma_div_pos_is_pos(tc * d, s);
        lemma_div_multiples_vanish(d, s);
        assert(div_t(tc * d, s) <= (s * d) / s == d);
    } else {
        assert(0 <= tc * (-d) <= s * (-d)) by (nonlinear_arith)
            requires
                0 <= tc <= s,
                d < 0,
        ;
        assert(tc * (-d) == -(tc * d)) by (nonlinear_arith);
        lemma_div_is_ordered(tc * (-d), s * (-d), s);
        lemma_div_pos_is_pos(tc * (-d), s);
        lemma_div_multiples_vanish(-d, s);
        assert(div_t(tc * d, s) >= d);
        assert(div_t(tc * d, s) <= 0);
    }
    lemma_div_t_multiple(d, s);
    assert(fmul_s(s, d) == div_t(d * s, s)) by {
        lemma_mul_is_commutative(s, d);
    }
}

/// Linear interpolation from `a` to `b`, the parameter clamped to `[0, 1]`.
pub fn lerp_clamped(a: i64, b: i64, t: i64) -> (r: i64)
    requires
        -0x2000_0000_0000_0000 <= a <= 0x2000_0000_0000_0000,
        -0x2000_0000_0000_0000 <= b <= 0x2000_0000_0000_0000,
    ensures
        r == lerp_clamped_s(a as int, b as int, t as int),
        a <= b ==> a <= r <= b,
        b <= a ==> b <= r <= a,
{
    let tc = clamp_i64(t, 0, SCALE);
    proof {
        lemma_lerp_between(a as int, b as int, t as int);
    }
    let step = fmul(tc, b - a);
    a + step
}

} // verus!

verus! {

/// The fixed-point product is odd in each factor.
pub proof fn lemma_fmul_parity(a: int, b: int)
    ensures
        fmul_s(-a, b) == -fmul_s(a, b),
        fmul_s(a, -b) == -fmul_s(a, b),
        fmul_s(-a, -b) == fmul_s(a, b),
{
    assert((-a) * b == -(a * b)) by (nonlinear_arith);
    assert(a * (-b) == -(a * b)) by (nonlinear_arith);
    assert((-a) * (-b) == a * b) by (nonlinear_arith);
    lemma_div_t_parity(a * b, SCALE as int);
}

/// The fixed-point quotient is odd in each operand.
pub proof fn lemma_fdiv_parity(a: int, b: int)
    requires
        b != 0,
    ensures
        fdiv_s(-a, b) == -fdiv_s(a, b),
        fdiv_s(a, -b) == -fdiv_s(a, b),
        fdiv_s(-a, -b) == fdiv_s(a, b),
{
    assert((-a) * (SCALE as int) == -(a * (SCALE as int))) by (nonlinear_arith);
    lemma_div_t_parity(a * (SCALE as int), b);
    lemma_div_t_parity(a * (SCALE as int), -b);
}

/// Negating both the value and the bounds mirrors a clamp.
pub proof fn lemma_clamp_parity(x: int, lo: int, hi: int)
    requires
        lo <= hi,
    ensures
        clamp_s(-x, -hi, -lo) == -clamp_s(x, lo, hi),
{
}

/// The clamped interpolation is odd in its endpoints.
pub proof fn lemma_lerp_parity(a: int, b: int, t: int)
    ensures
        lerp_clamped_s(-a, -b, t) == -lerp_clamped_s(a, b, t),
{
    let tc = clamp_s(t, 0, SCALE as int);
    lemma_fmul_parity(tc, b - a);
    assert(-b - (-a) == -(b - a));
}

/// Truncating division sits on or one above the Euclidean quotient.
pub proof fn lemma_div_t_vs_floor(x: int, d: int)
    requires
        d >= 1,
    ensures
        x / d <= div_t(x, d) <= x / d + 1,
        x >= 0 ==> div_t(x, d) == x / d,
{
    if x > 0 {
        lemma_div_pos_is_pos(x, d);
    } else if x < 0 {
        let q = (-x) / d;
        let r = (-x) % d;
        lemma_fundamental_div_mod(-x, d);
        lemma_mod_division_less_than_divisor(-x, d);
        lemma_div_pos_is_pos(-x, d);
        assert(-x == d * q + r);
        if r == 0 {
            assert(x == d * (-q)) by (nonlinear_arith)
                requires
                    -x == d * q,
            ;
            lemma_div_multiples_vanish(-q, d);
        } else {
            assert(x == d * (-q - 1) + (d - r)) by (nonlinear_arith)
                requires
                    -x == d * q + r,
            ;
            lemma_fundamental_div_mod_converse(x, d, -q - 1, d - r);
        }
    }
}

/// Scaling the numerator of a nonnegative Euclidean division by four
/// overshoots four times the quotient by at most three.
pub proof fn lemma_div_quadruple(n: int, d: int)
    requires
        n >= 0,
        d >= 1,
    ensures
        4 * div_t(n, d) <= div_t(4 * n, d) <= 4 * div_t(n, d) + 3,
{
    let q = n / d;
    let r = n % d;
    lemma_fundamental_div_mod(n, d);
    lemma_mod_division_less_than_divisor(n, d);
    lemma_div_pos_is_pos(n, d);
    assert(4 * n == d * (4 * q + (4 * r) / d) + (4 * r) % d) by {
        lemma_fundamental_div_mod(4 * r, d);
        assert(4 * n == 4 * (d * q) + 4 * r) by (nonlinear_arith)
            requires
                n == d * q + r,
        ;
        assert(4 * (d * q) + d * ((4 * r) / d) == d * (4 * q + (4 * r) / d)) by (nonlinear_arith);
    }
    lemma_mod_division_less_than_divisor(4 * r, d);
    lemma_div_pos_is_pos(4 * r, d);
    assert(4 * n >= 0) by (nonlinear_arith)
        requires
            n >= 0,
    ;
    lemma_fundamental_div_mod_converse(4 * n, d, 4 * q + (4 * r) / d, (4 * r) % d);
    assert((4 * r) / d <= 3) by {
        lemma_div_is_ordered(4 * r, 4 * d - 1, d);
        assert((4 * d - 1) / d == 3) by {
            lemma_fundamental_div_mod_converse(4 * d - 1, d, 3, d - 1);
        }
    }
}

/// Perturbing a numerator that was scaled by four moves the truncated
/// quotient from four times the unscaled one by at most the perturbation's own
/// quotient plus a few units of rounding.
pub proof fn lemma_div_t_quadruple_err(m: int, e: int, d: int, eb: int)
    requires
        d >= 1,
        0 <= eb,
        -eb <= e <= eb,
    ensures
        -(eb / d) - 5 <= div_t(4 * m + e, d) - 4 * div_t(m, d) <= eb / d + 5,
{
    let q = m / d;
    let r = m % d;
    lemma_fundamental_div_mod(m, d);
    lemma_mod_division_less_than_divisor(m, d);
    lemma_div_t_vs_floor(m, d);
    lemma_div_t_vs_floor(4 * m + e, d);
    // 4 m + e = d (4 q) + (4 r + e), so its floor quotient is 4 q plus the
    // floor quotient of 4 r + e
    assert((4 * m + e) / d == 4 * q + (4 * r + e) / d) by {
        assert(4 * m + e == d * (4 * q) + (4 * r + e)) by (nonlinear_arith)
            requires
                m == d * q + r,
        ;
        lemma_hoist_over_denominator(4 * r + e, 4 * q, d as nat);
        assert((4 * r + e) / d + 4 * q == (4 * r + e + 4 * q * d) / d);
        assert(d * (4 * q) + (4 * r + e) == 4 * r + e + 4 * q * d) by (nonlinear_arith);
    }
    assert((4 * r + e) / d <= 4 + eb / d) by {
        lemma_div_is_ordered(4 * r + e, 4 * d + eb, d);
        lemma_hoist_over_denominator(eb, 4, d as nat);
        assert(eb / d + 4 == (eb + 4 * d) / d);
        assert(eb + 4 * d == 4 * d + eb);
    }
    assert((4 * r + e) / d >= -(eb / d) - 1) by {
        lemma_div_is_ordered(-eb, 4 * r + e, d);
        lemma_floor_of_negative(eb, d);
    }
}

/// The Euclidean quotient of a negated nonnegative value undershoots the
/// negated quotient by at most one.
pub proof fn lemma_floor_of_negative(a: int, d: int)
    requires
        a >= 0,
        d >= 1,
    ensures
        (-a) / d >= -(a / d) - 1,
{
    let q = a / d;
    let r = a % d;
    lemma_fundamental_div_mod(a, d);
    lemma_mod_division_less_than_divisor(a, d);
    lemma_div_pos_is_pos(a, d);
    if r == 0 {
        assert(-a == d * (-q)) by (nonlinear_arith)
            requires
                a == d * q,
        ;
        lemma_div_multiples_vanish(-q, d);
    } else {
        assert(-a == d * (-q - 1) + (d - r)) by (nonlinear_arith)
            requires
                a == d * q + r,
        ;
        lemma_fundamental_div_mod_converse(-a, d, -q - 1, d - r);
    }
}

} // verus!
