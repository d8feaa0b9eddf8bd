//! Three-component fixed-point vectors, rotation matrices and poses.
//!
//! A `Rot3` holds a rotation matrix in micro-units; its columns are the
//! rotated frame's right, up and back axes expressed in the outer frame.
//! A `Pose` pairs a rotation with a translation. Composed rotation entries
//! are clamped into `[-1, 1]` micro-units, which a true rotation product
//! exceeds only by rounding.

use vstd::prelude::*;
use crate::fixed::{SCALE, fmul_s, fdiv_s, clamp_s, fmul, fdiv, clamp_i64, lemma_fmul_le};
use crate::trig::{sqrt_s, isqrt_u64};

verus! {

/// A vector of three micro-unit components.
#[derive(Clone, Copy, PartialEq, Eq, Structural, Debug)]
pub struct FxVec3 {
    pub x: i64,
    pub y: i64,
    pub z: i64,
}

/// A vector of three micro-unit components with extra headroom, used for
/// accumulated forces and torques.
#[derive(Clone, Copy, PartialEq, Eq, Structural, Debug)]
pub struct WideVec3 {
    pub x: i128,
    pub y: i128,
    pub z: i128,
}

/// A rotation matrix in row-major micro-units: row `x` is `(xx, xy, xz)`.
/// Columns are the local right, up and back axes in the outer frame.
#[derive(Clone, Copy, PartialEq, Eq, Structural, Debug)]
pub struct Rot3 {
    pub xx: i64,
    pub xy: i64,
    pub xz: i64,
    pub yx: i64,
    pub yy: i64,
    pub yz: i64,
    pub zx: i64,
    pub zy: i64,
    pub zz: i64,
}

/// A rigid placement: rotation and translation.
#[derive(Clone, Copy, PartialEq, Eq, Structural, Debug)]
pub struct Pose {
    pub rot: Rot3,
    pub pos: FxVec3,
}

/// All rotation entries within one unit in magnitude.
pub open spec fn rot_bounded(r: Rot3) -> bool {
    &&& -SCALE <= r.xx <= SCALE
    &&& -SCALE <= r.xy <= SCALE
    &&& -SCALE <= r.xz <= SCALE
    &&& -SCALE <= r.yx <= SCALE
    &&& -SCALE <= r.yy <= SCALE
    &&& -SCALE <= r.yz <= SCALE
    &&& -SCALE <= r.zx <= SCALE
    &&& -SCALE <= r.zy <= SCALE
    &&& -SCALE <= r.zz <= SCALE
}

/// All components of `v` within `b` in magnitude.
pub open spec fn vec_bounded(v: FxVec3, b: int) -> bool {
    &&& -b <= v.x <= b
    &&& -b <= v.y <= b
    &&& -b <= v.z <= b
}

/// Rotation applied to a vector: matrix times column vector.
pub open spec fn spec_rot_apply(r: Rot3, v: FxVec3) -> FxVec3 {
    FxVec3 {
        x: (fmul_s(r.xx as int, v.x as int) + fmul_s(r.xy as int, v.y as int) + fmul_s(
            r.xz as int,
            v.z as int,
        )) as i64,
        y: (fmul_s(r.yx as int, v.x as int) + fmul_s(r.yy as int, v.y as int) + fmul_s(
            r.yz as int,
            v.z as int,
        )) as i64,
        z: (fmul_s(r.zx as int, v.x as int) + fmul_s(r.zy as int, v.y as int) + fmul_s(
            r.zz as int,
            v.z as int,
        )) as i64,
    }
}

/// Inverse rotation applied to a vector: transposed matrix times vector.
pub open spec fn spec_rot_apply_inv(r: Rot3, v: FxVec3) -> FxVec3 {
    FxVec3 {
        x: (fmul_s(r.xx as int, v.x as int) + fmul_s(r.yx as int, v.y as int) + fmul_s(
            r.zx as int,
            v.z as int,
        )) as i64,
        y: (fmul_s(r.xy as int, v.x as int) + fmul_s(r.yy as int, v.y as int) + fmul_s(
            r.zy as int,
            v.z as int,
        )) as i64,
        z: (fmul_s(r.xz as int, v.x as int) + fmul_s(r.yz as int, v.y as int) + fmul_s(
            r.zz as int,
            v.z as int,
        )) as i64,
    }
}

/// One entry of a rotation product, clamped into one unit.
pub open spec fn spec_rot_mul_entry(a1: int, b1: int, a2: int, b2: int, a3: int, b3: int) -> int {
    clamp_s(fmul_s(a1, b1) + fmul_s(a2, b2) + fmul_s(a3, b3), -SCALE as int, SCALE as int)
}

/// Rotation composition, entrywise clamped into one unit.
pub open spec fn spec_rot_mul(a: Rot3, b: Rot3) -> Rot3 {
    Rot3 {
        xx: spec_rot_mul_entry(
            a.xx as int,
            b.xx as int,
            a.xy as int,
            b.yx as int,
            a.xz as int,
            b.zx as int,
        ) as i64,
        xy: spec_rot_mul_entry(
            a.xx as int,
            b.xy as int,
            a.xy as int,
            b.yy as int,
            a.xz as int,
            b.zy as int,
        ) as i64,
        xz: spec_rot_mul_entry(
            a.xx as int,
            b.xz as int,
            a.xy as int,
            b.yz as int,
            a.xz as int,
            b.zz as int,
        ) as i64,
        yx: spec_rot_mul_entry(
            a.yx as int,
            b.xx as int,
            a.yy as int,
            b.yx as int,
            a.yz as int,
            b.zx as int,
        ) as i64,
        yy: spec_rot_mul_entry(
            a.yx as int,
            b.xy as int,
            a.yy as int,
            b.yy as int,
            a.yz as int,
            b.zy as int,
        ) as i64,
        yz: spec_rot_mul_entry(
            a.yx as int,
            b.xz as int,
            a.yy as int,
            b.yz as int,
            a.yz as int,
            b.zz as int,
        ) as i64,
        zx: spec_rot_mul_entry(
            a.zx as int,
            b.xx as int,
            a.zy as int,
            b.yx as int,
            a.zz as int,
            b.zx as int,
        ) as i64,
        zy: spec_rot_mul_entry(
            a.zx as int,
            b.xy as int,
            a.zy as int,
            b.yy as int,
            a.zz as int,
            b.zy as int,
        ) as i64,
        zz: spec_rot_mul_entry(
            a.zx as int,
            b.xz as int,
            a.zy as int,
            b.yz as int,
            a.zz as int,
            b.zz as int,
        ) as i64,
    }
}

/// Cross product of two micro-unit vectors.
pub open spec fn spec_cross(a: FxVec3, b: FxVec3) -> FxVec3 {
    FxVec3 {
        x: (fmul_s(a.y as int, b.z as int) - fmul_s(a.z as int, b.y as int)) as i64,
        y: (fmul_s(a.z as int, b.x as int) - fmul_s(a.x as int, b.z as int)) as i64,
        z: (fmul_s(a.x as int, b.y as int) - fmul_s(a.y as int, b.x as int)) as i64,
    }
}

/// The direction of `v` in micro-units, or the zero vector when the
/// magnitude rounds to zero.
pub open spec fn spec_normalize(v: FxVec3) -> FxVec3 {
    let nn = (v.x as int) * (v.x as int) + (v.y as int) * (v.y as int) + (v.z as int) * (
    v.z as int);
    let n = sqrt_s(nn);
    if n == 0 {
        FxVec3 { x: 0, y: 0, z: 0 }
    } else {
        FxVec3 { x: fdiv_s(v.x as int, n) as i64, y: fdiv_s(v.y as int, n) as i64, z: fdiv_s(
            v.z as int,
            n,
        ) as i64 }
    }
}

/// Apply a rotation to a vector whose components are bounded by `vb`.
pub fn rot_apply(r: &Rot3, v: FxVec3, vb: Ghost<int>) -> (o: FxVec3)
    requires
        rot_bounded(*r),
        0 <= vb@ <= 2_000_000_000_000,
        vec_bounded(v, vb@),
    ensures
        o == spec_rot_apply(*r, v),
        vec_bounded(o, 3 * vb@),
{
    proof {
        lemma_fmul_le(r.xx as int, v.x as int, SCALE as int, vb@);
        lemma_fmul_le(r.xy as int, v.y as int, SCALE as int, vb@);
        lemma_fmul_le(r.xz as int, v.z as int, SCALE as int, vb@);
        lemma_fmul_le(r.yx as int, v.x as int, SCALE as int, vb@);
        lemma_fmul_le(r.yy as int, v.y as int, SCALE as int, vb@);
        lemma_fmul_le(r.yz as int, v.z as int, SCALE as int, vb@);
        lemma_fmul_le(r.zx as int, v.x as int, SCALE as int, vb@);
        lemma_fmul_le(r.zy as int, v.y as int, SCALE as int, vb@);
        lemma_fmul_le(r.zz as int, v.z as int, SCALE as int, vb@);
        lemma_scale_quotient(vb@);
    }
    FxVec3 {
        x: fmul(r.xx, v.x) + fmul(r.xy, v.y) + fmul(r.xz, v.z),
        y: fmul(r.yx, v.x) + fmul(r.yy, v.y) + fmul(r.yz, v.z),
        z: fmul(r.zx, v.x) + fmul(r.zy, v.y) + fmul(r.zz, v.z),
    }
}

/// Apply the inverse of a rotation to a vector bounded by `vb`.
pub fn rot_apply_inv(r: &Rot3, v: FxVec3, vb: Ghost<int>) -> (o: FxVec3)
    requires
        rot_bounded(*r),
        0 <= vb@ <= 2_000_000_000_000,
        vec_bounded(v, vb@),
    ensures
        o == spec_rot_apply_inv(*r, v),
        vec_bounded(o, 3 * vb@),
{
    proof {
        lemma_fmul_le(r.xx as int, v.x as int, SCALE as int, vb@);
        lemma_fmul_le(r.yx as int, v.y as int, SCALE as int, vb@);
        lemma_fmul_le(r.zx as int, v.z as int, SCALE as int, vb@);
        lemma_fmul_le(r.xy as int, v.x as int, SCALE as int, vb@);
        lemma_fmul_le(r.yy as int, v.y as int, SCALE as int, vb@);
        lemma_fmul_le(r.zy as int, v.z as int, SCALE as int, vb@);
        lemma_fmul_le(r.xz as int, v.x as int, SCALE as int, vb@);
        lemma_fmul_le(r.yz as int, v.y as int, SCALE as int, vb@);
        lemma_fmul_le(r.zz as int, v.z as int, SCALE as int, vb@);
        lemma_scale_quotient(vb@);
    }
    FxVec3 {
        x: fmul(r.xx, v.x) + fmul(r.yx, v.y) + fmul(r.zx, v.z),
        y: fmul(r.xy, v.x) + fmul(r.yy, v.y) + fmul(r.zy, v.z),
        z: fmul(r.xz, v.x) + fmul(r.yz, v.y) + fmul(r.zz, v.z),
    }
}

/// `SCALE * vb / SCALE == vb` for nonnegative `vb`.
proof fn lemma_scale_quotient(vb: int)
    requires
        0 <= vb,
    ensures
        (SCALE as int) * vb / (SCALE as int) == vb,
{
    vstd::arithmetic::div_mod::lemma_div_multiples_vanish(vb, SCALE as int);
}

/// One clamped entry of a rotation product.
fn rot_mul_entry(a1: i64, b1: i64, a2: i64, b2: i64, a3: i64, b3: i64) -> (o: i64)
    requires
        -SCALE <= a1 <= SCALE,
        -SCALE <= a2 <= SCALE,
        -SCALE <= a3 <= SCALE,
        -SCALE <= b1 <= SCALE,
        -SCALE <= b2 <= SCALE,
        -SCALE <= b3 <= SCALE,
    ensures
        o == spec_rot_mul_entry(a1 as int, b1 as int, a2 as int, b2 as int, a3 as int, b3 as int),
        -SCALE <= o <= SCALE,
{
    proof {
        lemma_fmul_le(a1 as int, b1 as int, SCALE as int, SCALE as int);
        lemma_fmul_le(a2 as int, b2 as int, SCALE as int, SCALE as int);
        lemma_fmul_le(a3 as int, b3 as int, SCALE as int, SCALE as int);
    }
    clamp_i64(fmul(a1, b1) + fmul(a2, b2) + fmul(a3, b3), -SCALE, SCALE)
}

/// Rotation composition with entries clamped into one unit.
pub fn rot_mul(a: &Rot3, b: &Rot3) -> (o: Rot3)
    requires
        rot_bounded(*a),
        rot_bounded(*b),
    ensures
        o == spec_rot_mul(*a, *b),
        rot_bounded(o),
{
    Rot3 {
        xx: rot_mul_entry(a.xx, b.xx, a.xy, b.yx, a.xz, b.zx),
        xy: rot_mul_entry(a.xx, b.xy, a.xy, b.yy, a.xz, b.zy),
        xz: rot_mul_entry(a.xx, b.xz, a.xy, b.yz, a.xz, b.zz),
        yx: rot_mul_entry(a.yx, b.xx, a.yy, b.yx, a.yz, b.zx),
        yy: rot_mul_entry(a.yx, b.xy, a.yy, b.yy, a.yz, b.zy),
        yz: rot_mul_entry(a.yx, b.xz, a.yy, b.yz, a.yz, b.zz),
        zx: rot_mul_entry(a.zx, b.xx, a.zy, b.yx, a.zz, b.zx),
        zy: rot_mul_entry(a.zx, b.xy, a.zy, b.yy, a.zz, b.zy),
        zz: rot_mul_entry(a.zx, b.xz, a.zy, b.yz, a.zz, b.zz),
    }
}

/// Cross product of two vectors bounded by `ab` and `bb`.
pub fn cross_fx(a: FxVec3, b: FxVec3, ab: Ghost<int>, bb: Ghost<int>) -> (o: FxVec3)
    requires
        0 <= ab@,
        0 <= bb@,
        ab@ * bb@ <= 4_000_000_000_000_000_000_000_000,
        vec_bounded(a, ab@),
        vec_bounded(b, bb@),
    ensures
        o == spec_cross(a, b),
        vec_bounded(o, 2 * (ab@ * bb@ / (SCALE as int))),
{
    proof {
        lemma_fmul_le(a.y as int, b.z as int, ab@, bb@);
        lemma_fmul_le(a.z as int, b.y as int, ab@, bb@);
        lemma_fmul_le(a.z as int, b.x as int, ab@, bb@);
        lemma_fmul_le(a.x as int, b.z as int, ab@, bb@);
        lemma_fmul_le(a.x as int, b.y as int, ab@, bb@);
        lemma_fmul_le(a.y as int, b.x as int, ab@, bb@);
        vstd::arithmetic::div_mod::lemma_div_is_ordered(
            0,
            ab@ * bb@,
            SCALE as int,
        );
        vstd::arithmetic::div_mod::lemma_div_of0(SCALE as int);
    }
    FxVec3 {
        x: fmul(a.y, b.z) - fmul(a.z, b.y),
        y: fmul(a.z, b.x) - fmul(a.x, b.z),
        z: fmul(a.x, b.y) - fmul(a.y, b.x),
    }
}

/// The unit direction of `v`, or zero when `v` has no direction; falls back
/// to the zero vector exactly where a floating normalization is undefined.
pub fn normalize_dir(v: FxVec3) -> (o: FxVec3)
    requires
        vec_bounded(v, 2_000_000_000),
    ensures
        o == spec_normalize(v),
        vec_bounded(o, SCALE as int),
{
    proof {
        lemma_sq_bound(v.x as int, 2_000_000_000);
        lemma_sq_bound(v.y as int, 2_000_000_000);
        lemma_sq_bound(v.z as int, 2_000_000_000);
    }
    let xx: i128 = (v.x as i128) * (v.x as i128);
    let yy: i128 = (v.y as i128) * (v.y as i128);
    let zz: i128 = (v.z as i128) * (v.z as i128);
    let nn: i128 = xx + yy + zz;
    let n128 = isqrt_u64(nn as u64);
    let n: i64 = n128 as i64;
    if n == 0 {
        FxVec3 { x: 0, y: 0, z: 0 }
    } else {
        proof {
            lemma_component_le_norm(v.x as int, nn as int, n as int);
            lemma_component_le_norm(v.y as int, nn as int, n as int);
            lemma_component_le_norm(v.z as int, nn as int, n as int);
            lemma_unit_quotient(v.x as int, n as int);
            lemma_unit_quotient(v.y as int, n as int);
            lemma_unit_quotient(v.z as int, n as int);
        }
        FxVec3 { x: fdiv(v.x, n), y: fdiv(v.y, n), z: fdiv(v.z, n) }
    }
}

/// A square of a bounded value is nonnegative and bounded.
proof fn lemma_sq_bound(x: int, b: int)
    requires
        -b <= x <= b,
        0 <= b,
    ensures
        0 <= x * x <= b * b,
{
    assert(0 <= x * x <= b * b) by (nonlinear_arith)
        requires
            -b <= x <= b,
            0 <= b,
    ;
}

/// Each component is bounded in magnitude by the rounded norm.
proof fn lemma_component_le_norm(x: int, nn: int, n: int)
    requires
        x * x <= nn,
        0 <= n,
        nn < (n + 1) * (n + 1),
    ensures
        -n <= x <= n,
{
    assert(-n <= x <= n) by (nonlinear_arith)
        requires
            x * x <= nn,
            0 <= n,
            nn < (n + 1) * (n + 1),
    ;
}

/// A quotient of a component by a norm at least as large stays within one
/// unit.
proof fn lemma_unit_quotient(x: int, n: int)
    requires
        1 <= n,
        -n <= x <= n,
    ensures
        -(SCALE as int) <= fdiv_s(x, n) <= SCALE as int,
{
    let s = SCALE as int;
    let ax = if x >= 0 { x } else { -x };
    vstd::arithmetic::mul::lemma_mul_inequality(ax, n, s);
    vstd::arithmetic::div_mod::lemma_div_is_ordered(ax * s, n * s, n);
    vstd::arithmetic::div_mod::lemma_div_multiples_vanish(s, n);
    vstd::arithmetic::mul::lemma_mul_is_commutative(n, s);
    if ax > 0 {
        vstd::arithmetic::div_mod::lemma_div_pos_is_pos(ax * s, n);
        vstd::arithmetic::mul::lemma_mul_strictly_positive(ax, s);
    } else {
        assert(ax * s == 0) by (nonlinear_arith)
            requires
                ax == 0,
        ;
    }
}

} // verus!
