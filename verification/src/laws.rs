//! The library's laws: properties of the force model stated over its spec
//! functions and proved for every input, not just tested values.

use vstd::prelude::*;
use vstd::math::abs;
use crate::fixed::{
    SCALE, div_t, fmul_s, fdiv_s, clamp_s, lerp_clamped_s, lemma_lerp_between,
    lemma_div_t_multiple, lemma_div_t_parity, lemma_fmul_le, lemma_fmul_ge, lemma_div_quadruple,
    lemma_div_t_quadruple_err, lemma_fmul_parity, lemma_fdiv_parity, lemma_clamp_parity,
    lemma_lerp_parity, lemma_induced_within,
};
use crate::trig::{
    PI_FX, HALF_PI_FX, atan2_s, sin_s, cos_s, lemma_atan2_scale, lemma_sin_odd, lemma_cos_even,
    lemma_cos_lower,
};
use crate::vec3::FxVec3;
use crate::aerodynamics::{
    AeroSurface, AeroSurfaceList, spec_calculate_forces, spec_net_forces,
    spec_accumulate_forces, spec_coefficients_at,
    spec_coefficients_low_aoa, spec_coefficients_stall, spec_zero_lift_aoa, spec_stall_high,
    spec_stall_low, spec_pad_high, spec_pad_low, spec_aspect_ratio, spec_corrected_lift_slope,
    spec_delta_lift, spec_torque_proportion, RAD_TO_DEG_FX, THRUST_FX,
};
use crate::vec3::Pose;

verus! {

/// Zero local air velocity gives exactly zero lift, drag and torque: the
/// dynamic pressure vanishes, whatever the coefficients.
pub proof fn lemma_zero_velocity_zero_forces(s: AeroSurface, rho: int)
    ensures
        spec_calculate_forces(s, FxVec3 { x: 0, y: 0, z: 0 }, rho) == (0int, 0int, 0int),
{
    let s1 = SCALE as int;
    let f = spec_calculate_forces(s, FxVec3 { x: 0, y: 0, z: 0 }, rho);
    assert(rho * (0 * 0 + 0 * 0) == 0) by (nonlinear_arith);
    assert(div_t(rho * (0 * 0 + 0 * 0), 2 * s1 * s1) == 0);
    let co = spec_coefficients_at(s, atan2_s(0, 0));
    let area = fmul_s(s.config.chord as int, s.config.span as int);
    assert(co.0 * 0 * area == 0) by (nonlinear_arith);
    assert(co.1 * 0 * area == 0) by (nonlinear_arith);
    assert(co.2 * 0 * area * (s.config.chord as int) == 0) by (nonlinear_arith);
}

/// The force model is referentially pure: it is a function of the surface,
/// the local air velocity and the air density alone, so identical inputs
/// give identical outputs on every call. The executable `calculate_forces`
/// returns exactly this function's value.
pub proof fn lemma_calculate_forces_deterministic(
    s1: AeroSurface,
    s2: AeroSurface,
    v1: FxVec3,
    v2: FxVec3,
    rho1: int,
    rho2: int,
)
    requires
        s1 == s2,
        v1 == v2,
        rho1 == rho2,
    ensures
        spec_calculate_forces(s1, v1, rho1) == spec_calculate_forces(s2, v2, rho2),
{
}

/// An empty surface list produces exactly the constant forward-thrust
/// force and no torque.
pub proof fn lemma_empty_list_thrust_only(
    list: AeroSurfaceList,
    body: Pose,
    linvel: FxVec3,
    angvel: FxVec3,
    com: FxVec3,
)
    requires
        list.surfaces@.len() == 0,
    ensures
        spec_net_forces(list, body, linvel, angvel, com) == ((
            fmul_s(THRUST_FX as int, -(body.rot.xz as int)),
            fmul_s(THRUST_FX as int, -(body.rot.yz as int)),
            fmul_s(THRUST_FX as int, -(body.rot.zz as int)),
        ), (0int, 0int, 0int)),
{
    assert(spec_accumulate_forces(list.surfaces@, body, linvel, angvel, com, 0) == ((0int, 0int,
    0int), (0int, 0int, 0int)));
}

/// The blended coefficients are continuous across every region boundary:
/// at a stall angle they equal the attached-flow model there, and at a
/// padded stall angle they equal the separated-flow model there — exact
/// equality, not merely within tolerance, since the blend parameter is
/// exactly zero and exactly one at the two edges of each band.
pub proof fn lemma_coefficients_continuous(s: AeroSurface)
    requires
        s.valid(),
    ensures
        ({
            let ar = spec_aspect_ratio(s.config);
            let cls = spec_corrected_lift_slope(s.config);
            let zl = spec_zero_lift_aoa(s);
            let sh = spec_stall_high(s);
            let sl = spec_stall_low(s);
            let ph = sh + spec_pad_high(s);
            let pl = sl - spec_pad_low(s);
            spec_coefficients_at(s, sh) == spec_coefficients_low_aoa(s, ar, sh, cls, zl)
                && spec_coefficients_at(s, ph) == spec_coefficients_stall(s, ar, ph, cls, zl, sh, sl)
                && spec_coefficients_at(s, sl) == spec_coefficients_low_aoa(s, ar, sl, cls, zl)
                && spec_coefficients_at(s, pl) == spec_coefficients_stall(s, ar, pl, cls, zl, sh, sl)
        }),
{
    let ar = spec_aspect_ratio(s.config);
    let cls = spec_corrected_lift_slope(s.config);
    let zl = spec_zero_lift_aoa(s);
    let sh = spec_stall_high(s);
    let sl = spec_stall_low(s);
    let pad_h = spec_pad_high(s);
    let pad_l = spec_pad_low(s);
    let ph = sh + pad_h;
    let pl = sl - pad_l;
    lemma_pads_positive(s);
    assert(sl < sh);
    // at the upper stall angle: the high-side blend with parameter zero
    let lo_h = spec_coefficients_low_aoa(s, ar, sh, cls, zl);
    let st_h = spec_coefficients_stall(s, ar, ph, cls, zl, sh, sl);
    assert(fdiv_s(sh - sh, ph - sh) == 0) by {
        assert((sh - sh) * (SCALE as int) == 0) by (nonlinear_arith);
    }
    lemma_lerp_between(lo_h.0, st_h.0, 0);
    lemma_lerp_between(lo_h.1, st_h.1, 0);
    lemma_lerp_between(lo_h.2, st_h.2, 0);
    // at the upper padded angle: the high-side blend with parameter one
    assert(fdiv_s(ph - sh, ph - sh) == SCALE as int) by {
        assert((ph - sh) * (SCALE as int) == (SCALE as int) * (ph - sh)) by (nonlinear_arith);
        lemma_div_t_multiple(SCALE as int, ph - sh);
    }
    lemma_lerp_between(lo_h.0, st_h.0, SCALE as int);
    lemma_lerp_between(lo_h.1, st_h.1, SCALE as int);
    lemma_lerp_between(lo_h.2, st_h.2, SCALE as int);
    // at the lower stall angle: the low-side blend with parameter zero
    let lo_l = spec_coefficients_low_aoa(s, ar, sl, cls, zl);
    let st_l = spec_coefficients_stall(s, ar, pl, cls, zl, sh, sl);
    assert(fdiv_s(sl - sl, pl - sl) == 0) by {
        assert((sl - sl) * (SCALE as int) == 0) by (nonlinear_arith);
    }
    lemma_lerp_between(lo_l.0, st_l.0, 0);
    lemma_lerp_between(lo_l.1, st_l.1, 0);
    lemma_lerp_between(lo_l.2, st_l.2, 0);
    // at the lower padded angle: the low-side blend with parameter one
    assert(fdiv_s(pl - sl, pl - sl) == SCALE as int) by {
        assert((pl - sl) * (SCALE as int) == -((sl - pl) * (SCALE as int))) by (nonlinear_arith);
        lemma_div_t_parity((sl - pl) * (SCALE as int), sl - pl);
        lemma_div_t_parity((sl - pl) * (SCALE as int), pl - sl);
        assert((sl - pl) * (SCALE as int) == (SCALE as int) * (sl - pl)) by (nonlinear_arith);
        lemma_div_t_multiple(SCALE as int, sl - pl);
    }
    lemma_lerp_between(lo_l.0, st_l.0, SCALE as int);
    lemma_lerp_between(lo_l.1, st_l.1, SCALE as int);
    lemma_lerp_between(lo_l.2, st_l.2, SCALE as int);
}

/// For a valid surface both padding bands are strictly positive, between
/// five and fifteen degrees, and the stall angles straddle the zero-lift
/// angle.
pub proof fn lemma_pads_positive(s: AeroSurface)
    requires
        s.valid(),
    ensures
        87_265 <= spec_pad_high(s) <= 261_795,
        87_265 <= spec_pad_low(s) <= 261_795,
        spec_zero_lift_aoa(s) + 1_000 <= spec_stall_high(s) <= 1_300_000,
        spec_stall_high(s) - spec_zero_lift_aoa(s) <= 1_150_000,
        -1_300_000 <= spec_stall_low(s) <= spec_zero_lift_aoa(s) - 1_000,
        spec_zero_lift_aoa(s) - spec_stall_low(s) <= 1_150_000,
        -650_000 <= spec_zero_lift_aoa(s) <= 650_000,
{
    let d = s.control_surface_angle as int;
    lemma_fmul_le(d, 57_295_780, 500_000, 57_295_780);
    let d_deg = fmul_s(d, 57_295_780);
    let th = div_t(d_deg + 50_000_000, 100);
    let tl = div_t(-d_deg + 50_000_000, 100);
    lemma_lerp_between(15_000_000, 5_000_000, th);
    lemma_lerp_between(15_000_000, 5_000_000, tl);
    lemma_fmul_le(lerp_clamped_s(15_000_000, 5_000_000, th), 17_453, 15_000_000, 17_453);
    lemma_fmul_ge(lerp_clamped_s(15_000_000, 5_000_000, th), 17_453, 5_000_000);
    lemma_fmul_le(lerp_clamped_s(15_000_000, 5_000_000, tl), 17_453, 15_000_000, 17_453);
    lemma_fmul_ge(lerp_clamped_s(15_000_000, 5_000_000, tl), 17_453, 5_000_000);
}

} // verus!

verus! {

/// Doubling the local air velocity at a fixed angle of attack quadruples
/// lift, drag and torque, up to fixed-point rounding. Exactly: the angle of
/// attack is unchanged (so the coefficients are identical), and each force
/// differs from four times the single-speed value by at most the quotient of three
/// coefficient-times-area units, a few rounding steps of the final
/// division.
pub proof fn lemma_forces_quadratic_in_airspeed(s: AeroSurface, v: FxVec3, rho: int)
    requires
        s.valid(),
        crate::vec3::vec_bounded(v, 900_000_000),
        0 <= rho <= 10_000_000,
    ensures
        ({
            let s1 = SCALE as int;
            let v2 = FxVec3 { x: (2 * v.x) as i64, y: (2 * v.y) as i64, z: (2 * v.z) as i64 };
            let f1 = spec_calculate_forces(s, v, rho);
            let f2 = spec_calculate_forces(s, v2, rho);
            let co = spec_coefficients_at(s, atan2_s(-(v.y as int), v.z as int));
            let area = fmul_s(s.config.chord as int, s.config.span as int);
            let eb_lift = 3 * abs(co.0) * area;
            let eb_drag = 3 * abs(co.1) * area;
            let eb_torque = 3 * abs(co.2) * area * (s.config.chord as int);
            atan2_s(-(v2.y as int), v2.z as int) == atan2_s(-(v.y as int), v.z as int)
                && -(eb_lift / (s1 * s1)) - 5 <= f2.0 - 4 * f1.0 <= eb_lift / (s1 * s1) + 5
                && -(eb_drag / (s1 * s1)) - 5 <= f2.1 - 4 * f1.1 <= eb_drag / (s1 * s1) + 5
                && -(eb_torque / (s1 * s1 * s1)) - 5 <= f2.2 - 4 * f1.2 <= eb_torque / (s1 * s1
                * s1) + 5
        }),
{
    let s1 = SCALE as int;
    let vy = v.y as int;
    let vz = v.z as int;
    let v2 = FxVec3 { x: (2 * v.x) as i64, y: (2 * v.y) as i64, z: (2 * v.z) as i64 };
    assert(v2.y as int == 2 * vy && v2.z as int == 2 * vz);
    assert(-(2 * vy) == 2 * (-vy));
    lemma_atan2_scale(-vy, vz, 2);
    let aoa = atan2_s(-vy, vz);
    let co = spec_coefficients_at(s, aoa);
    let area = fmul_s(s.config.chord as int, s.config.span as int);
    lemma_fmul_le(s.config.chord as int, s.config.span as int, 9_000_000, 20_000_000);
    assert(0 <= area);
    let sum = vy * vy + vz * vz;
    assert(0 <= vy * vy && 0 <= vz * vz && (2 * vy) * (2 * vy) + (2 * vz) * (2 * vz) == 4 * (vy
        * vy + vz * vz)) by (nonlinear_arith);
    let n = rho * sum;
    assert(0 <= rho * (vy * vy + vz * vz) && rho * (4 * (vy * vy + vz * vz)) == 4 * (rho * (vy
        * vy + vz * vz))) by (nonlinear_arith)
        requires
            0 <= rho,
            0 <= vy * vy + vz * vz,
    ;
    let d = 2 * s1 * s1;
    let q1 = div_t(n, d);
    let q2 = div_t(4 * n, d);
    lemma_div_quadruple(n, d);
    let e = q2 - 4 * q1;
    assert(0 <= e <= 3);
    // lift
    assert(co.0 * q2 * area == 4 * (co.0 * q1 * area) + co.0 * e * area) by (nonlinear_arith)
        requires
            q2 == 4 * q1 + e,
    ;
    assert(-(3 * abs(co.0) * area) <= co.0 * e * area <= 3 * abs(co.0) * area)
        by (nonlinear_arith)
        requires
            0 <= e <= 3,
            0 <= area,
    ;
    lemma_div_t_quadruple_err(co.0 * q1 * area, co.0 * e * area, s1 * s1, 3 * abs(co.0) * area);
    // drag
    assert(co.1 * q2 * area == 4 * (co.1 * q1 * area) + co.1 * e * area) by (nonlinear_arith)
        requires
            q2 == 4 * q1 + e,
    ;
    assert(-(3 * abs(co.1) * area) <= co.1 * e * area <= 3 * abs(co.1) * area)
        by (nonlinear_arith)
        requires
            0 <= e <= 3,
            0 <= area,
    ;
    lemma_div_t_quadruple_err(co.1 * q1 * area, co.1 * e * area, s1 * s1, 3 * abs(co.1) * area);
    // torque
    let ch = s.config.chord as int;
    assert(co.2 * q2 * area * ch == 4 * (co.2 * q1 * area * ch) + co.2 * e * area * ch)
        by (nonlinear_arith)
        requires
            q2 == 4 * q1 + e,
    ;
    assert(-(3 * abs(co.2) * area * ch) <= co.2 * e * area * ch <= 3 * abs(co.2) * area * ch)
        by (nonlinear_arith)
        requires
            0 <= e <= 3,
            0 <= area,
            0 < ch,
    ;
    lemma_div_t_quadruple_err(
        co.2 * q1 * area * ch,
        co.2 * e * area * ch,
        s1 * s1 * s1,
        3 * abs(co.2) * area * ch,
    );
}

} // verus!

verus! {

/// The torque proportion depends only on the magnitude of the angle.
proof fn lemma_torque_proportion_even(a: int)
    ensures
        crate::aerodynamics::spec_torque_proportion(-a) == crate::aerodynamics::spec_torque_proportion(a),
{
}

/// The attached-flow model with a zero zero-lift angle is exactly odd in
/// the angle of attack: lift and torque flip sign, drag is even.
proof fn lemma_low_model_odd(s: AeroSurface, ar: int, a: int, cls: int)
    requires
        1 <= cls <= fmul_s(crate::trig::PI_FX as int, ar),
        -1_150_000 <= a <= 1_150_000,
    ensures
        ({
            let p = spec_coefficients_low_aoa(s, ar, a, cls, 0);
            let m = spec_coefficients_low_aoa(s, ar, -a, cls, 0);
            m.0 == -p.0 && m.1 == p.1 && m.2 == -p.2
        }),
{
    let pi_ar = fmul_s(PI_FX as int, ar);
    let lift = fmul_s(cls, a - 0);
    lemma_fmul_parity(cls, a);
    assert(-a - 0 == -(a - 0));
    let ind = fdiv_s(lift, pi_ar);
    lemma_fdiv_parity(lift, pi_ar);
    let eff = a - 0 - ind;
    lemma_induced_within(cls, pi_ar, a);
    assert(-a - 0 - (-ind) == -eff);
    lemma_sin_odd(eff);
    lemma_cos_even(eff);
    let cose = cos_s(eff);
    let sine = sin_s(eff);
    lemma_cos_lower(eff);
    let tang = fmul_s(s.config.skin_friction as int, cose);
    lemma_fmul_parity(sine, tang);
    assert(-lift + fmul_s(-sine, tang) == -(lift + fmul_s(sine, tang)));
    lemma_fdiv_parity(lift + fmul_s(sine, tang), cose);
    let normal = fdiv_s(lift + fmul_s(sine, tang), cose);
    lemma_fmul_parity(normal, sine);
    lemma_fmul_parity(normal, spec_torque_proportion(eff));
    lemma_torque_proportion_even(eff);
}

/// The separated-flow model over mirrored stall angles, with no flap
/// deflection and a zero zero-lift angle, is exactly odd in the angle of
/// attack, for angles beyond the stall boundary (the only ones it is
/// evaluated at).
proof fn lemma_stall_model_odd(s: AeroSurface, ar: int, a: int, cls: int, sh: int)
    requires
        1 <= cls <= fmul_s(crate::trig::PI_FX as int, ar),
        1_000 <= sh <= 1_300_000,
        a > sh || a < -sh,
    ensures
        ({
            let p = spec_coefficients_stall(s, ar, a, cls, 0, sh, -sh);
            let m = spec_coefficients_stall(s, ar, -a, cls, 0, sh, -sh);
            m.0 == -p.0 && m.1 == p.1 && m.2 == -p.2
        }),
{
    let h = HALF_PI_FX as int;
    let pi_ar = fmul_s(PI_FX as int, ar);
    lemma_fmul_parity(cls, sh);
    assert(-sh - 0 == -(sh - 0));
    let lift_ref = if a > sh { fmul_s(cls, sh - 0) } else { fmul_s(cls, -sh - 0) };
    lemma_fdiv_parity(lift_ref, pi_ar);
    let ind_ref = fdiv_s(lift_ref, pi_ar);
    let ca = clamp_s(a, -h, h);
    lemma_clamp_parity(a, -h, h);
    assert(clamp_s(-a, -h, h) == -ca);
    let lp = if a > sh { fdiv_s(h - ca, h - sh) } else { fdiv_s(-h - ca, -h - (-sh)) };
    if a > sh {
        lemma_fdiv_parity(h - ca, h - sh);
        assert(-h - (-ca) == -(h - ca));
        assert(-h - (-sh) == -(h - sh));
        assert(fdiv_s(-h - (-ca), -h - (-sh)) == lp);
    } else {
        lemma_fdiv_parity(-h - ca, -h + sh);
        assert(h - (-ca) == -(-h - ca));
        assert(h - sh == -(-h + sh));
        assert(fdiv_s(h - (-ca), h - sh) == lp);
    }
    lemma_lerp_parity(0, ind_ref, lp);
    let ind = lerp_clamped_s(0, ind_ref, lp);
    let eff = a - 0 - ind;
    assert(-a - 0 - (-ind) == -eff);
    lemma_sin_odd(eff);
    lemma_cos_even(eff);
    let sine = sin_s(eff);
    let cose = cos_s(eff);
    let asine = if sine >= 0 { sine } else { -sine };
    assert((if -sine >= 0 { -sine } else { sine }) == asine);
    let f90 = crate::aerodynamics::spec_friction_at_90(s);
    lemma_fmul_parity(f90, sine);
    let n1 = fmul_s(f90, sine);
    let bracket = fdiv_s(
        SCALE as int,
        560_000 + fmul_s(440_000, asine),
    ) - fmul_s(410_000, SCALE as int - crate::trig::exp_neg_s(fdiv_s(17_000_000, ar)));
    lemma_fmul_parity(n1, bracket);
    let normal = fmul_s(n1, bracket);
    let tang = fmul_s(fmul_s(500_000, s.config.skin_friction as int), cose);
    lemma_fmul_parity(normal, cose);
    lemma_fmul_parity(tang, sine);
    lemma_fmul_parity(normal, sine);
    lemma_fmul_parity(normal, spec_torque_proportion(eff));
    lemma_torque_proportion_even(eff);
}

/// A symmetric surface mirrors exactly: with a zero zero-lift angle, no
/// flap and mirrored stall angles, negating the angle of attack negates
/// the lift and torque coefficients and preserves the drag coefficient —
/// in every regime, exact down to the fixed-point unit.
pub proof fn lemma_symmetric_surface_mirrors(s: AeroSurface, aoa: int)
    requires
        s.valid(),
        s.config.zero_lift_aoa == 0,
        s.config.control_surface_fraction == 0,
        s.control_surface_angle == 0,
        s.config.stall_angle_low == -s.config.stall_angle_high,
    ensures
        ({
            let p = spec_coefficients_at(s, aoa);
            let m = spec_coefficients_at(s, -aoa);
            m.0 == -p.0 && m.1 == p.1 && m.2 == -p.2
        }),
{
    let ar = spec_aspect_ratio(s.config);
    let cls = spec_corrected_lift_slope(s.config);
    let shb = s.config.stall_angle_high as int;
    // no deflection: the flap's lift increment vanishes
    let x2 = fmul_s(
        fmul_s(cls, crate::aerodynamics::spec_flap_effectiveness(s.config)),
        crate::aerodynamics::spec_effectiveness_correction(s),
    );
    assert(x2 * 0 == 0) by (nonlinear_arith);
    assert(spec_delta_lift(s) == 0);
    // and with it the zero-lift shift
    assert(0 * (SCALE as int) == 0) by (nonlinear_arith);
    assert(fdiv_s(0, cls) == 0);
    let zl = spec_zero_lift_aoa(s);
    assert(zl == 0);
    // the stall boundaries mirror
    let clf = crate::aerodynamics::spec_cl_max_fraction(s.config);
    assert(0 * clf == 0) by (nonlinear_arith);
    assert(fmul_s(0, clf) == 0);
    lemma_fmul_parity(cls, shb);
    assert(crate::aerodynamics::spec_cl_max_low(s) == -crate::aerodynamics::spec_cl_max_high(s));
    lemma_fdiv_parity(crate::aerodynamics::spec_cl_max_high(s), cls);
    let rawh = fdiv_s(crate::aerodynamics::spec_cl_max_high(s), cls);
    lemma_clamp_parity(rawh, 1_000, 1_150_000);
    let sh = spec_stall_high(s);
    let sl = spec_stall_low(s);
    assert(sl == -sh);
    assert(1_000 <= sh <= 1_150_000);
    // no deflection: both padding bands are the same width
    assert(fmul_s(0, RAD_TO_DEG_FX as int) == 0) by {
        assert(0 * (RAD_TO_DEG_FX as int) == 0) by (nonlinear_arith);
    }
    let pad = spec_pad_high(s);
    assert(spec_pad_low(s) == pad);
    lemma_pads_positive(s);
    let ph = sh + pad;
    let pl = sl - pad;
    assert(pl == -ph);
    // the corrected lift slope stays below pi times the aspect ratio
    assert(cls <= fmul_s(PI_FX as int, ar));
    if sl < aoa && aoa < sh {
        assert(sl < -aoa && -aoa < sh);
        lemma_low_model_odd(s, ar, aoa, cls);
    } else if aoa > ph || aoa < pl {
        assert(-aoa > ph || -aoa < pl);
        lemma_stall_model_odd(s, ar, aoa, cls, sh);
    } else if aoa >= sh {
        // the mirrored angle lies in the lower blending band
        assert(pl <= -aoa && -aoa <= sl && !(-aoa >= sh));
        lemma_low_model_odd(s, ar, sh, cls);
        lemma_stall_model_odd(s, ar, ph, cls, sh);
        lemma_fdiv_parity(aoa - sh, ph - sh);
        assert(-aoa - sl == -(aoa - sh));
        assert(pl - sl == -(ph - sh));
        let t = fdiv_s(aoa - sh, ph - sh);
        assert(fdiv_s(-aoa - sl, pl - sl) == t);
        let lo = spec_coefficients_low_aoa(s, ar, sh, cls, 0);
        let st = spec_coefficients_stall(s, ar, ph, cls, 0, sh, sl);
        lemma_lerp_parity(lo.0, st.0, t);
        lemma_lerp_parity(lo.2, st.2, t);
    } else {
        // the plus angle lies in the lower band, the mirrored one above
        assert(pl <= aoa && aoa <= sl);
        assert(-aoa >= sh && -aoa <= ph);
        lemma_low_model_odd(s, ar, sh, cls);
        lemma_stall_model_odd(s, ar, ph, cls, sh);
        lemma_fdiv_parity(-aoa - sh, ph - sh);
        assert(aoa - sl == -(-aoa - sh));
        assert(pl - sl == -(ph - sh));
        let t = fdiv_s(-aoa - sh, ph - sh);
        assert(fdiv_s(aoa - sl, pl - sl) == t);
        let lo = spec_coefficients_low_aoa(s, ar, sh, cls, 0);
        let st = spec_coefficients_stall(s, ar, ph, cls, 0, sh, sl);
        lemma_lerp_parity(lo.0, st.0, t);
        lemma_lerp_parity(lo.2, st.2, t);
    }
}

} // verus!

verus! {

/// Repeated decay factors keep a value inside `[0, 1]`.
proof fn lemma_exp_scale_bounded(r: int, k: nat)
    requires
        0 <= r <= SCALE as int,
    ensures
        0 <= crate::trig::exp_scale_s(r, k) <= SCALE as int,
    decreases k,
{
    if k > 0 {
        lemma_exp_scale_bounded(r, (k - 1) as nat);
        let prev = crate::trig::exp_scale_s(r, (k - 1) as nat);
        lemma_fmul_le(prev, crate::trig::EXP_NEG_ONE_FX as int, SCALE as int, 367_879);
    }
}

/// The decaying exponential stays inside `[0, 1]`.
proof fn lemma_exp_neg_bounded(x: int)
    ensures
        0 <= crate::trig::exp_neg_s(x) <= SCALE as int,
{
    let s = SCALE as int;
    if x < 30 * s {
        lemma_exp_scale_bounded(crate::trig::exp_frac_s(x % s), (x / s) as nat);
    }
}

/// The fixed-point sine and cosine stay inside one unit: their kernels are
/// clamped.
proof fn lemma_sin_cos_bounded(x: int)
    ensures
        -(SCALE as int) <= sin_s(x) <= SCALE as int,
        -(SCALE as int) <= cos_s(x) <= SCALE as int,
{
}

/// The torque proportion of any moderate effective angle lies in
/// `[0, 0.8]`.
proof fn lemma_torque_proportion_bounded(a: int)
    requires
        -6_000_000 <= a <= 6_000_000,
    ensures
        0 <= spec_torque_proportion(a) <= 800_000,
{
    let s = SCALE as int;
    let aa = if a >= 0 { a } else { -a };
    crate::fixed::lemma_fdiv_le(2 * aa, PI_FX as int, 12_000_000, 3_141_593);
    assert(0 <= 2 * aa * s) by (nonlinear_arith)
        requires
            aa >= 0,
            s == 1_000_000,
    ;
    vstd::arithmetic::div_mod::lemma_div_pos_is_pos(2 * aa * s, PI_FX as int);
    let ratio = fdiv_s(2 * aa, PI_FX as int);
    lemma_fmul_le(175_000, s - ratio, 175_000, 2_900_000);
    crate::fixed::lemma_div_t_le_upper(175_000 * (s - ratio), s, 175_000_000_000);
    assert(175_000 * (s - ratio) <= 175_000_000_000) by (nonlinear_arith)
        requires
            ratio >= 0,
            s == 1_000_000,
    ;
}

/// Coefficient bounds of the attached-flow model.
proof fn lemma_low_model_bounded(s: AeroSurface, ar: int, a: int, cls: int, zl: int)
    requires
        0 <= s.config.skin_friction <= 1_000_000,
        1 <= cls <= 6_283_185,
        cls <= fmul_s(PI_FX as int, ar),
        -650_000 <= zl <= 650_000,
        -1_150_000 <= a - zl <= 1_150_000,
    ensures
        ({
            let p = spec_coefficients_low_aoa(s, ar, a, cls, zl);
            -7_300_000 <= p.0 <= 7_300_000 && -31_000_000 <= p.1 <= 31_000_000 && -24_000_000
                <= p.2 <= 24_000_000
        }),
{
    let pi_ar = fmul_s(PI_FX as int, ar);
    lemma_fmul_le(cls, a - zl, 6_283_185, 1_150_000);
    let lift = fmul_s(cls, a - zl);
    lemma_induced_within(cls, pi_ar, a - zl);
    let ind = fdiv_s(lift, pi_ar);
    let eff = a - zl - ind;
    lemma_cos_lower(eff);
    lemma_sin_cos_bounded(eff);
    let cose = cos_s(eff);
    let sine = sin_s(eff);
    lemma_fmul_le(s.config.skin_friction as int, cose, 1_000_000, 1_000_000);
    let tang = fmul_s(s.config.skin_friction as int, cose);
    lemma_fmul_le(sine, tang, 1_000_000, 1_000_000);
    crate::fixed::lemma_fdiv_le(lift + fmul_s(sine, tang), cose, 8_226_000, 280_000);
    let normal = fdiv_s(lift + fmul_s(sine, tang), cose);
    lemma_fmul_le(normal, sine, 29_380_000, 1_000_000);
    lemma_fmul_le(tang, cose, 1_000_000, 1_000_000);
    lemma_torque_proportion_bounded(eff);
    lemma_fmul_le(normal, spec_torque_proportion(eff), 29_380_000, 800_000);
}

/// Coefficient bounds of the separated-flow model.
proof fn lemma_stall_model_bounded(
    s: AeroSurface,
    ar: int,
    a: int,
    cls: int,
    zl: int,
    sh: int,
    sl: int,
)
    requires
        0 <= s.config.skin_friction <= 1_000_000,
        -500_000 <= s.control_surface_angle <= 500_000,
        1 <= cls <= 6_283_185,
        cls <= fmul_s(PI_FX as int, ar),
        1 <= ar,
        -650_000 <= zl <= 650_000,
        zl + 1_000 <= sh,
        sh - zl <= 1_150_000,
        sl <= zl - 1_000,
        zl - sl <= 1_150_000,
        -3_200_000 <= a <= 3_200_000,
    ensures
        ({
            let p = spec_coefficients_stall(s, ar, a, cls, zl, sh, sl);
            -4_300_000 <= p.0 <= 4_300_000 && -4_300_000 <= p.1 <= 4_300_000 && -3_100_000 <= p.2
                <= 3_100_000
        }),
{
    let s1 = SCALE as int;
    let pi_ar = fmul_s(PI_FX as int, ar);
    lemma_fmul_le(cls, sh - zl, 6_283_185, 1_150_000);
    lemma_fmul_le(cls, sl - zl, 6_283_185, 1_150_000);
    lemma_induced_within(cls, pi_ar, sh - zl);
    lemma_induced_within(cls, pi_ar, sl - zl);
    let lift_ref = if a > sh { fmul_s(cls, sh - zl) } else { fmul_s(cls, sl - zl) };
    let ind_ref = fdiv_s(lift_ref, pi_ar);
    let ca = clamp_s(a, -(HALF_PI_FX as int), HALF_PI_FX as int);
    let lp = if a > sh {
        fdiv_s(HALF_PI_FX as int - ca, HALF_PI_FX as int - sh)
    } else {
        fdiv_s(-(HALF_PI_FX as int) - ca, -(HALF_PI_FX as int) - sl)
    };
    lemma_lerp_between(0, ind_ref, lp);
    let ind = lerp_clamped_s(0, ind_ref, lp);
    let eff = a - zl - ind;
    lemma_sin_cos_bounded(eff);
    let sine = sin_s(eff);
    let cose = cos_s(eff);
    let asine = if sine >= 0 { sine } else { -sine };
    lemma_fmul_le(440_000, asine, 440_000, 1_000_000);
    let den2 = 560_000 + fmul_s(440_000, asine);
    crate::fixed::lemma_fdiv_le(s1, den2, 1_000_000, 560_000);
    assert(s1 * s1 > 0) by (nonlinear_arith)
        requires
            s1 == 1_000_000,
    ;
    vstd::arithmetic::div_mod::lemma_div_pos_is_pos(s1 * s1, den2);
    let b1 = fdiv_s(s1, den2);
    assert(17_000_000 * s1 > 0) by (nonlinear_arith)
        requires
            s1 == 1_000_000,
    ;
    vstd::arithmetic::div_mod::lemma_div_pos_is_pos(17_000_000 * s1, ar);
    let ex = fdiv_s(17_000_000, ar);
    lemma_exp_neg_bounded(ex);
    lemma_fmul_le(410_000, s1 - crate::trig::exp_neg_s(ex), 410_000, 1_000_000);
    let b2 = fmul_s(410_000, s1 - crate::trig::exp_neg_s(ex));
    let bracket = b1 - b2;
    // friction at ninety degrees
    let d = s.control_surface_angle as int;
    lemma_fmul_le(d, d, 500_000, 500_000);
    let dd = fmul_s(d, d);
    assert(0 <= d * d) by (nonlinear_arith);
    crate::fixed::lemma_div_t_abs(d * d, s1, 250_000_000_000);
    lemma_fmul_le(42_600, dd, 42_600, 250_000);
    assert(0 <= 42_600 * dd) by (nonlinear_arith)
        requires
            dd >= 0,
    ;
    crate::fixed::lemma_div_t_abs(42_600 * dd, s1, 10_650_000_000);
    lemma_fmul_le(210_000, d, 210_000, 500_000);
    let f90 = crate::aerodynamics::spec_friction_at_90(s);
    assert(1_860_000 <= f90 <= 2_090_000);
    lemma_fmul_le(f90, sine, 2_090_000, 1_000_000);
    let n1 = fmul_s(f90, sine);
    lemma_fmul_le(n1, bracket, 2_090_000, 1_790_000);
    let normal = fmul_s(n1, bracket);
    lemma_fmul_le(500_000, s.config.skin_friction as int, 500_000, 1_000_000);
    lemma_fmul_le(fmul_s(500_000, s.config.skin_friction as int), cose, 500_000, 1_000_000);
    let tang = fmul_s(fmul_s(500_000, s.config.skin_friction as int), cose);
    lemma_fmul_le(normal, cose, 3_750_000, 1_000_000);
    lemma_fmul_le(tang, sine, 500_000, 1_000_000);
    lemma_fmul_le(normal, sine, 3_750_000, 1_000_000);
    lemma_fmul_le(tang, cose, 500_000, 1_000_000);
    lemma_torque_proportion_bounded(eff);
    lemma_fmul_le(normal, spec_torque_proportion(eff), 3_750_000, 800_000);
}

/// The coefficient magnitudes of a valid surface never exceed thirty-one,
/// whatever the angle of attack within half a turn.
pub proof fn lemma_coefficients_bounded(s: AeroSurface, aoa: int)
    requires
        s.valid(),
        -3_200_000 <= aoa <= 3_200_000,
    ensures
        ({
            let co = spec_coefficients_at(s, aoa);
            -31_000_000 <= co.0 <= 31_000_000 && -31_000_000 <= co.1 <= 31_000_000 && -31_000_000
                <= co.2 <= 31_000_000
        }),
{
    let ar = spec_aspect_ratio(s.config);
    let cls = spec_corrected_lift_slope(s.config);
    let zl = spec_zero_lift_aoa(s);
    let sh = spec_stall_high(s);
    let sl = spec_stall_low(s);
    lemma_pads_positive(s);
    assert(1 <= ar) by {
        crate::fixed::lemma_fdiv_le(s.config.span as int, s.config.chord as int, 20_000_000,
            10_000);
        assert((s.config.span as int) * (SCALE as int) >= 10_000_000_000) by (nonlinear_arith)
            requires
                s.config.span >= 10_000,
        ;
        vstd::arithmetic::div_mod::lemma_div_is_ordered(
            10_000_000_000,
            (s.config.span as int) * (SCALE as int),
            s.config.chord as int,
        );
        vstd::arithmetic::div_mod::lemma_div_is_ordered_by_denominator(
            10_000_000_000,
            s.config.chord as int,
            9_000_000,
        );
        vstd::arithmetic::div_mod::lemma_div_pos_is_pos(
            (s.config.span as int) * (SCALE as int),
            s.config.chord as int,
        );
    }
    let ph = sh + spec_pad_high(s);
    let pl = sl - spec_pad_low(s);
    if sl < aoa && aoa < sh {
        lemma_low_model_bounded(s, ar, aoa, cls, zl);
    } else if aoa > ph || aoa < pl {
        lemma_stall_model_bounded(s, ar, aoa, cls, zl, sh, sl);
    } else if aoa >= sh {
        lemma_low_model_bounded(s, ar, sh, cls, zl);
        lemma_stall_model_bounded(s, ar, ph, cls, zl, sh, sl);
        let lo = spec_coefficients_low_aoa(s, ar, sh, cls, zl);
        let st = spec_coefficients_stall(s, ar, ph, cls, zl, sh, sl);
        let t = fdiv_s(aoa - sh, ph - sh);
        lemma_lerp_between(lo.0, st.0, t);
        lemma_lerp_between(lo.1, st.1, t);
        lemma_lerp_between(lo.2, st.2, t);
    } else {
        lemma_low_model_bounded(s, ar, sl, cls, zl);
        lemma_stall_model_bounded(s, ar, pl, cls, zl, sh, sl);
        let lo = spec_coefficients_low_aoa(s, ar, sl, cls, zl);
        let st = spec_coefficients_stall(s, ar, pl, cls, zl, sh, sl);
        let t = fdiv_s(aoa - sl, pl - sl);
        lemma_lerp_between(lo.0, st.0, t);
        lemma_lerp_between(lo.1, st.1, t);
        lemma_lerp_between(lo.2, st.2, t);
    }
}

/// The quadratic law with its slop made concrete: doubling the airspeed
/// changes each force from exactly four times the original force by less
/// than two hundredths of a force unit.
#[verifier::rlimit(100)]
pub proof fn lemma_forces_quadratic_concrete(s: AeroSurface, v: FxVec3, rho: int)
    requires
        s.valid(),
        crate::vec3::vec_bounded(v, 900_000_000),
        0 <= rho <= 10_000_000,
    ensures
        ({
            let v2 = FxVec3 { x: (2 * v.x) as i64, y: (2 * v.y) as i64, z: (2 * v.z) as i64 };
            let f1 = spec_calculate_forces(s, v, rho);
            let f2 = spec_calculate_forces(s, v2, rho);
            -17_000 <= f2.0 - 4 * f1.0 <= 17_000 && -17_000 <= f2.1 - 4 * f1.1 <= 17_000
                && -151_000 <= f2.2 - 4 * f1.2 <= 151_000
        }),
{
    let s1 = SCALE as int;
    assert(s1 * s1 == 1_000_000_000_000 && s1 * s1 * s1 == 1_000_000_000_000_000_000)
        by (nonlinear_arith)
        requires
            s1 == 1_000_000,
    ;
    lemma_forces_quadratic_in_airspeed(s, v, rho);
    let aoa = atan2_s(-(v.y as int), v.z as int);
    lemma_coefficients_bounded(s, aoa);
    let co = spec_coefficients_at(s, aoa);
    lemma_fmul_le(s.config.chord as int, s.config.span as int, 9_000_000, 20_000_000);
    let area = fmul_s(s.config.chord as int, s.config.span as int);
    assert(3 * abs(co.0) * area <= 16_740_000_000_000_000 && 0 <= 3 * abs(co.0) * area)
        by (nonlinear_arith)
        requires
            0 <= abs(co.0) <= 31_000_000,
            0 <= area <= 180_000_000,
    ;
    assert(3 * abs(co.1) * area <= 16_740_000_000_000_000 && 0 <= 3 * abs(co.1) * area)
        by (nonlinear_arith)
        requires
            0 <= abs(co.1) <= 31_000_000,
            0 <= area <= 180_000_000,
    ;
    assert(3 * abs(co.2) * area * (s.config.chord as int) <= 150_660_000_000_000_000_000_000
        && 0 <= 3 * abs(co.2) * area * (s.config.chord as int)) by (nonlinear_arith)
        requires
            0 <= abs(co.2) <= 31_000_000,
            0 <= area <= 180_000_000,
            0 < s.config.chord <= 9_000_000,
    ;
    vstd::arithmetic::div_mod::lemma_div_is_ordered(
        3 * abs(co.0) * area,
        16_740_000_000_000_000,
        s1 * s1,
    );
    vstd::arithmetic::div_mod::lemma_div_is_ordered(
        3 * abs(co.1) * area,
        16_740_000_000_000_000,
        s1 * s1,
    );
    vstd::arithmetic::div_mod::lemma_div_is_ordered(
        3 * abs(co.2) * area * (s.config.chord as int),
        150_660_000_000_000_000_000_000,
        s1 * s1 * s1,
    );
    vstd::arithmetic::div_mod::lemma_div_pos_is_pos(3 * abs(co.0) * area, s1 * s1);
    vstd::arithmetic::div_mod::lemma_div_pos_is_pos(3 * abs(co.1) * area, s1 * s1);
    vstd::arithmetic::div_mod::lemma_div_pos_is_pos(
        3 * abs(co.2) * area * (s.config.chord as int),
        s1 * s1 * s1,
    );
}

} // verus!
