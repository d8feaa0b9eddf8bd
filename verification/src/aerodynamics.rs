//! The per-surface aerodynamic coefficient model and the aggregation of a
//! set of lifting surfaces into one net force and torque.
//!
//! All quantities are micro-unit fixed point: angles in micro-radians,
//! lengths in micro-metres, the air density in micro-units of kilograms per
//! cubic metre. Configuration ranges are validated once, at construction;
//! the force computation never fails and never panics. A few interior
//! quantities are clamped into the range the model is meant for (the
//! flap-induced shifts of the zero-lift angle and of the stall boundaries);
//! for configurations within the documented ranges those clamps cannot
//! bind, they only arm the fixed-point arithmetic.

use vstd::prelude::*;
use crate::fixed::{
    SCALE, div_t, fmul_s, fdiv_s, clamp_s, lerp_clamped_s, fmul, fdiv, div_i64, div_i128,
    clamp_i64, lerp_clamped, fmul_wide, lemma_fmul_le, lemma_fmul_ge, lemma_div_t_le,
    lemma_div_t_abs, lemma_fdiv_le, lemma_div_t_parity, lemma_div_t_multiple, lemma_div_t_le_upper,
    lemma_induced_within,
};
use crate::trig::{
    PI_FX, HALF_PI_FX, sin_s, cos_s, atan2_s, exp_neg_s, sqrt_s, sin_fx, cos_fx, atan2_fx,
    exp_neg_fx, isqrt_u64, lemma_cos_lower,
};
use crate::vec3::{FxVec3, WideVec3, Rot3, Pose, vec_bounded, rot_bounded, spec_rot_apply, spec_rot_apply_inv, spec_rot_mul, spec_cross, spec_normalize, rot_apply, rot_apply_inv, rot_mul, cross_fx, normalize_dir};

verus! {

/// Degrees per radian, micro-units.
pub const RAD_TO_DEG_FX: i64 = 57_295_780;

/// Radians per degree, micro-units.
pub const DEG_TO_RAD_FX: i64 = 17_453;

/// Largest magnitude of a control deflection angle, micro-radians.
pub const MAX_DEFLECTION_FX: i64 = 500_000;

/// A configuration value outside the validated range.
#[derive(Clone, Copy, PartialEq, Eq, Structural, Debug)]
pub enum ConfigError {
    LiftSlopeOutOfRange,
    SkinFrictionOutOfRange,
    ZeroLiftAngleOutOfRange,
    StallAngleHighOutOfRange,
    StallAngleLowOutOfRange,
    ChordOutOfRange,
    SpanOutOfRange,
    ControlFractionOutOfRange,
    DegenerateLiftSlope,
    SensitivityOutOfRange,
}

/// The control-input channel a surface listens to.
#[derive(Clone, Copy, PartialEq, Eq, Structural, Debug)]
pub enum ControlInputType {
    Neutral,
    Pitch,
    Yaw,
    Roll,
    Flap,
}

/// Immutable aerodynamic parameters of one lifting surface, micro-units.
#[derive(Clone, Copy, PartialEq, Eq, Structural, Debug)]
pub struct AeroSurfaceConfig {
    pub lift_slope: i64,
    pub skin_friction: i64,
    pub zero_lift_aoa: i64,
    pub stall_angle_high: i64,
    pub stall_angle_low: i64,
    pub chord: i64,
    pub span: i64,
    pub control_surface_fraction: i64,
}

/// A lifting surface: its configuration, the control channel it follows,
/// the input sensitivity, and the per-step control deflection angle.
#[derive(Clone, Copy, PartialEq, Eq, Structural, Debug)]
pub struct AeroSurface {
    pub config: AeroSurfaceConfig,
    pub input_type: ControlInputType,
    pub input_sensitivity: i64,
    pub control_surface_angle: i64,
}

/// Span over chord, micro-units.
pub open spec fn spec_aspect_ratio(c: AeroSurfaceConfig) -> int {
    fdiv_s(c.span as int, c.chord as int)
}

/// Pi times the aspect ratio.
pub open spec fn spec_pi_aspect(c: AeroSurfaceConfig) -> int {
    fmul_s(PI_FX as int, spec_aspect_ratio(c))
}

/// The finite-wing correction divisor term `2 (ar + 4) / (ar + 2)`.
pub open spec fn spec_slope_inner(c: AeroSurfaceConfig) -> int {
    fdiv_s(2 * (spec_aspect_ratio(c) + 4_000_000), spec_aspect_ratio(c) + 2_000_000)
}

/// The lift slope corrected for the finite aspect ratio.
pub open spec fn spec_corrected_lift_slope(c: AeroSurfaceConfig) -> int {
    fdiv_s(
        fmul_s(c.lift_slope as int, spec_aspect_ratio(c)),
        spec_aspect_ratio(c) + spec_slope_inner(c),
    )
}

/// Validated configuration: every field within its range, the stall angles
/// straddling the zero-lift angle, and the derived corrected lift slope
/// neither degenerate nor above pi times the aspect ratio (which keeps the
/// induced angle below the angle of attack).
pub open spec fn config_valid(c: AeroSurfaceConfig) -> bool {
    &&& 0 < c.lift_slope <= 6_283_185
    &&& 0 <= c.skin_friction <= 1_000_000
    &&& -200_000 <= c.zero_lift_aoa <= 200_000
    &&& c.zero_lift_aoa < c.stall_angle_high <= 500_000
    &&& -500_000 <= c.stall_angle_low < c.zero_lift_aoa
    &&& 10_000 <= c.chord <= 9_000_000
    &&& 10_000 <= c.span <= 20_000_000
    &&& 0 <= c.control_surface_fraction < 1_000_000
    &&& 1_000 <= spec_corrected_lift_slope(c) <= 6_283_185
    &&& spec_corrected_lift_slope(c) <= spec_pi_aspect(c)
}

/// Valid surface: a valid configuration, and sensitivity and deflection
/// within the modelled control range.
pub open spec fn surface_valid(s: AeroSurface) -> bool {
    &&& config_valid(s.config)
    &&& -MAX_DEFLECTION_FX <= s.input_sensitivity <= MAX_DEFLECTION_FX
    &&& -MAX_DEFLECTION_FX <= s.control_surface_angle <= MAX_DEFLECTION_FX
}

impl AeroSurfaceConfig {
    /// The validity predicate as a method, for contracts.
    pub open spec fn valid(self) -> bool {
        config_valid(self)
    }

    /// Validate a configuration once; force computation never re-checks.
    /// Returns the error of the first field out of range, in field order,
    /// then `DegenerateLiftSlope` where the corrected lift slope leaves
    /// `[0.001, 2 pi]` or exceeds pi times the aspect ratio.
    pub fn new(
        lift_slope: i64,
        skin_friction: i64,
        zero_lift_aoa: i64,
        stall_angle_high: i64,
        stall_angle_low: i64,
        chord: i64,
        span: i64,
        control_surface_fraction: i64,
    ) -> (r: Result<AeroSurfaceConfig, ConfigError>)
        ensures
            r is Ok ==> (r matches Ok(c) && c == (AeroSurfaceConfig {
                lift_slope,
                skin_friction,
                zero_lift_aoa,
                stall_angle_high,
                stall_angle_low,
                chord,
                span,
                control_surface_fraction,
            }) && c.valid()),
            !(0 < lift_slope <= 6_283_185) <==> r == Err::<AeroSurfaceConfig, ConfigError>(
                ConfigError::LiftSlopeOutOfRange,
            ),
            r is Err ==> !(AeroSurfaceConfig {
                lift_slope,
                skin_friction,
                zero_lift_aoa,
                stall_angle_high,
                stall_angle_low,
                chord,
                span,
                control_surface_fraction,
            }).valid(),
    {
        if !(0 < lift_slope && lift_slope <= 6_283_185) {
            return Err(ConfigError::LiftSlopeOutOfRange);
        }
        if !(0 <= skin_friction && skin_friction <= 1_000_000) {
            return Err(ConfigError::SkinFrictionOutOfRange);
        }
        if !(-200_000 <= zero_lift_aoa && zero_lift_aoa <= 200_000) {
            return Err(ConfigError::ZeroLiftAngleOutOfRange);
        }
        if !(zero_lift_aoa < stall_angle_high && stall_angle_high <= 500_000) {
            return Err(ConfigError::StallAngleHighOutOfRange);
        }
        if !(-500_000 <= stall_angle_low && stall_angle_low < zero_lift_aoa) {
            return Err(ConfigError::StallAngleLowOutOfRange);
        }
        if !(10_000 <= chord && chord <= 9_000_000) {
            return Err(ConfigError::ChordOutOfRange);
        }
        if !(10_000 <= span && span <= 20_000_000) {
            return Err(ConfigError::SpanOutOfRange);
        }
        if !(0 <= control_surface_fraction && control_surface_fraction < 1_000_000) {
            return Err(ConfigError::ControlFractionOutOfRange);
        }
        let c = AeroSurfaceConfig {
            lift_slope,
            skin_friction,
            zero_lift_aoa,
            stall_angle_high,
            stall_angle_low,
            chord,
            span,
            control_surface_fraction,
        };
        let cls = corrected_lift_slope(&c);
        let pi_ar = pi_aspect(&c);
        if !(1_000 <= cls && cls <= 6_283_185 && cls <= pi_ar) {
            return Err(ConfigError::DegenerateLiftSlope);
        }
        Ok(c)
    }
}

impl Default for AeroSurfaceConfig {
    /// The reference configuration: lift slope `6.28`, skin friction
    /// `0.02`, symmetric stall at `0.26` radians, a chord of one metre and
    /// a span of two, no flap.
    fn default() -> (r: Self)
        ensures
            r == (AeroSurfaceConfig {
                lift_slope: 6_280_000i64,
                skin_friction: 20_000i64,
                zero_lift_aoa: 0i64,
                stall_angle_high: 260_000i64,
                stall_angle_low: -260_000i64,
                chord: 1_000_000i64,
                span: 2_000_000i64,
                control_surface_fraction: 0i64,
            }),
            r.valid(),
    {
        let r = AeroSurfaceConfig {
            lift_slope: 6_280_000,
            skin_friction: 20_000,
            zero_lift_aoa: 0,
            stall_angle_high: 260_000,
            stall_angle_low: -260_000,
            chord: 1_000_000,
            span: 2_000_000,
            control_surface_fraction: 0,
        };
        proof {
            assert(spec_aspect_ratio(r) == 2_000_000);
            assert(spec_slope_inner(r) == 3_000_000);
            assert(fmul_s(6_280_000, 2_000_000) == 12_560_000);
            assert(spec_corrected_lift_slope(r) == 2_512_000);
            assert(spec_pi_aspect(r) == 6_283_186);
        }
        r
    }
}

/// Span over chord of a validated configuration.
pub fn aspect_ratio(c: &AeroSurfaceConfig) -> (r: i64)
    requires
        10_000 <= c.chord <= 9_000_000,
        10_000 <= c.span <= 20_000_000,
    ensures
        r == spec_aspect_ratio(*c),
        1_100 <= r <= 2_000_000_000,
{
    proof {
        lemma_fdiv_le(c.span as int, c.chord as int, 20_000_000, 10_000);
        lemma_div_is_ordered_wrap(10_000_000_000, (c.span as int) * (SCALE as int), c.chord as int);
        vstd::arithmetic::div_mod::lemma_div_is_ordered_by_denominator(
            10_000_000_000,
            c.chord as int,
            9_000_000,
        );
        assert((c.span as int) * (SCALE as int) >= 10_000_000_000) by (nonlinear_arith)
            requires
                c.span >= 10_000,
        ;
        vstd::arithmetic::div_mod::lemma_div_pos_is_pos(
            (c.span as int) * (SCALE as int),
            c.chord as int,
        );
    }
    fdiv(c.span, c.chord)
}

/// Division on nonnegative numerators is ordered in the numerator.
proof fn lemma_div_is_ordered_wrap(lo: int, x: int, d: int)
    requires
        0 <= lo <= x,
        1 <= d,
    ensures
        lo / d <= x / d,
        div_t(x, d) == x / d,
{
    vstd::arithmetic::div_mod::lemma_div_is_ordered(lo, x, d);
    if x > 0 {
        vstd::arithmetic::div_mod::lemma_div_pos_is_pos(x, d);
    }
}

/// Pi times the aspect ratio of a validated configuration.
pub fn pi_aspect(c: &AeroSurfaceConfig) -> (r: i64)
    requires
        10_000 <= c.chord <= 9_000_000,
        10_000 <= c.span <= 20_000_000,
    ensures
        r == spec_pi_aspect(*c),
        3_400 <= r <= 6_300_000_000_000,
{
    let ar = aspect_ratio(c);
    proof {
        lemma_fmul_le(PI_FX as int, ar as int, 3_141_593, 2_000_000_000);
        lemma_fmul_ge(PI_FX as int, ar as int, 1);
        assert((PI_FX as int) * (ar as int) >= 3_141_593 * 1_100) by (nonlinear_arith)
            requires
                ar >= 1_100,
        ;
        lemma_div_is_ordered_wrap(3_455_752_300, (PI_FX as int) * (ar as int), SCALE as int);
    }
    fmul(PI_FX, ar)
}

/// The corrected lift slope of a configuration whose fields are in range;
/// validation compares it against its own floor and ceiling.
pub fn corrected_lift_slope(c: &AeroSurfaceConfig) -> (r: i64)
    requires
        0 < c.lift_slope <= 6_283_185,
        10_000 <= c.chord <= 9_000_000,
        10_000 <= c.span <= 20_000_000,
    ensures
        r == spec_corrected_lift_slope(*c),
        0 <= r <= 7_000_000_000_000,
{
    let ar = aspect_ratio(c);
    proof {
        assert(2 * ((ar as int) + 4_000_000) * (SCALE as int) >= 2_000_000 * ((ar as int)
            + 2_000_000)) by (nonlinear_arith)
            requires
                ar >= 1_100,
        ;
        lemma_fdiv_le(2 * ((ar as int) + 4_000_000), (ar as int) + 2_000_000, 4_010_000_000,
            2_001_000);
        lemma_div_is_ordered_wrap(
            2_000_000 * ((ar as int) + 2_000_000),
            2 * ((ar as int) + 4_000_000) * (SCALE as int),
            (ar as int) + 2_000_000,
        );
        lemma_div_t_multiple(2_000_000, (ar as int) + 2_000_000);
    }
    let inner = fdiv(2 * (ar + 4_000_000), ar + 2_000_000);
    proof {
        lemma_fmul_le(c.lift_slope as int, ar as int, 6_283_185, 2_000_000_000);
        assert(0 <= (c.lift_slope as int) * (ar as int)) by (nonlinear_arith)
            requires
                c.lift_slope > 0,
                ar >= 0,
        ;
        lemma_div_t_abs((c.lift_slope as int) * (ar as int), SCALE as int,
            12_566_370_000_000_000);
    }
    let num = fmul(c.lift_slope, ar);
    proof {
        lemma_fdiv_le(num as int, (ar as int) + (inner as int), 12_566_370_000, 2_001_000);
        vstd::arithmetic::div_mod::lemma_div_pos_is_pos(
            (num as int) * (SCALE as int),
            (ar as int) + (inner as int),
        );
        assert(0 <= (num as int) * (SCALE as int)) by (nonlinear_arith)
            requires
                num >= 0,
        ;
    }
    fdiv(num, ar + inner)
}

} // verus!

verus! {

/// Lift effectiveness of a plain flap: `1 - (theta - sin theta) / pi` with
/// `theta = acos(2 f - 1)`, clamped into `[0, 1]`; the sine of `theta` is
/// the square root of `1 - (2 f - 1)^2`.
pub open spec fn spec_flap_effectiveness(c: AeroSurfaceConfig) -> int {
    let s = SCALE as int;
    let v = 2 * c.control_surface_fraction - s;
    let sn = sqrt_s((s - v) * (s + v));
    let theta = atan2_s(sn, v);
    clamp_s(s - fdiv_s(theta - sn, PI_FX as int), 0, s)
}

/// Deflection-dependent derating of the flap effectiveness: from `0.8`
/// below ten degrees of deflection down to `0.4` at sixty.
pub open spec fn spec_effectiveness_correction(s: AeroSurface) -> int {
    let d = s.control_surface_angle as int;
    let ad = if d >= 0 { d } else { -d };
    lerp_clamped_s(800_000, 400_000, div_t(fmul_s(ad, RAD_TO_DEG_FX as int) - 10_000_000, 50))
}

/// Lift increment produced by the deflected flap.
pub open spec fn spec_delta_lift(s: AeroSurface) -> int {
    fmul_s(
        fmul_s(
            fmul_s(spec_corrected_lift_slope(s.config), spec_flap_effectiveness(s.config)),
            spec_effectiveness_correction(s),
        ),
        s.control_surface_angle as int,
    )
}

/// The zero-lift angle of attack shifted by the flap, the shift clamped
/// into `0.41` radians, beyond the `0.8 * 0.5` radians a valid surface's
/// flap can produce.
pub open spec fn spec_zero_lift_aoa(s: AeroSurface) -> int {
    s.config.zero_lift_aoa - clamp_s(
        fdiv_s(spec_delta_lift(s), spec_corrected_lift_slope(s.config)),
        -410_000,
        410_000,
    )
}

/// How much of the flap's lift increment survives at the maximum lift
/// coefficient, falling off with the flap fraction.
pub open spec fn spec_cl_max_fraction(c: AeroSurfaceConfig) -> int {
    clamp_s(
        SCALE as int - fdiv_s(c.control_surface_fraction - 100_000, 600_000),
        0,
        SCALE as int,
    )
}

/// Maximum lift coefficient at the upper stall boundary.
pub open spec fn spec_cl_max_high(s: AeroSurface) -> int {
    fmul_s(spec_corrected_lift_slope(s.config), s.config.stall_angle_high - spec_zero_lift_aoa(s))
        + fmul_s(spec_delta_lift(s), spec_cl_max_fraction(s.config))
}

/// Maximum lift coefficient at the lower stall boundary.
pub open spec fn spec_cl_max_low(s: AeroSurface) -> int {
    fmul_s(spec_corrected_lift_slope(s.config), s.config.stall_angle_low - spec_zero_lift_aoa(s))
        + fmul_s(spec_delta_lift(s), spec_cl_max_fraction(s.config))
}

/// The effective upper stall angle: the zero-lift angle plus the angle that
/// reaches the maximum lift coefficient. The offset is kept within
/// `[0.001, 1.15]` radians of the zero-lift angle and below `1.3` radians
/// absolute, bounds that valid surfaces cannot cross.
pub open spec fn spec_stall_high(s: AeroSurface) -> int {
    let zl = spec_zero_lift_aoa(s);
    let raw = zl + fdiv_s(spec_cl_max_high(s), spec_corrected_lift_slope(s.config));
    let c1 = clamp_s(raw, zl + 1_000, zl + 1_150_000);
    if c1 > 1_300_000 {
        1_300_000
    } else {
        c1
    }
}

/// The effective lower stall angle, mirrored.
pub open spec fn spec_stall_low(s: AeroSurface) -> int {
    let zl = spec_zero_lift_aoa(s);
    let raw = zl + fdiv_s(spec_cl_max_low(s), spec_corrected_lift_slope(s.config));
    let c1 = clamp_s(raw, zl - 1_150_000, zl - 1_000);
    if c1 < -1_300_000 {
        -1_300_000
    } else {
        c1
    }
}

/// Width of the blending band above the upper stall angle, in
/// micro-radians: fifteen degrees fading to five with positive deflection.
pub open spec fn spec_pad_high(s: AeroSurface) -> int {
    let d_deg = fmul_s(s.control_surface_angle as int, RAD_TO_DEG_FX as int);
    fmul_s(
        lerp_clamped_s(15_000_000, 5_000_000, div_t(d_deg + 50_000_000, 100)),
        DEG_TO_RAD_FX as int,
    )
}

/// Width of the blending band below the lower stall angle.
pub open spec fn spec_pad_low(s: AeroSurface) -> int {
    let d_deg = fmul_s(s.control_surface_angle as int, RAD_TO_DEG_FX as int);
    fmul_s(
        lerp_clamped_s(15_000_000, 5_000_000, div_t(-d_deg + 50_000_000, 100)),
        DEG_TO_RAD_FX as int,
    )
}

/// Friction coefficient at ninety degrees of attack, a quadratic in the
/// deflection angle.
pub open spec fn spec_friction_at_90(s: AeroSurface) -> int {
    let d = s.control_surface_angle as int;
    1_980_000 - fmul_s(42_600, fmul_s(d, d)) + fmul_s(210_000, d)
}

/// Fraction of the chord at which the normal force acts, as a torque
/// proportion: `0.25 - 0.175 (1 - 2 |a| / pi)`.
pub open spec fn spec_torque_proportion(a: int) -> int {
    let aa = if a >= 0 { a } else { -a };
    250_000 - fmul_s(175_000, SCALE as int - fdiv_s(2 * aa, PI_FX as int))
}

/// The attached-flow model: linear lift in the angle of attack, with the
/// induced angle of the finite wing, skin friction, and the resulting drag
/// and torque coefficients.
pub open spec fn spec_coefficients_low_aoa(
    s: AeroSurface,
    ar: int,
    aoa: int,
    cls: int,
    zl: int,
) -> (int, int, int) {
    let lift = fmul_s(cls, aoa - zl);
    let ind = fdiv_s(lift, fmul_s(PI_FX as int, ar));
    let eff = aoa - zl - ind;
    let cose = cos_s(eff);
    let sine = sin_s(eff);
    let tang = fmul_s(s.config.skin_friction as int, cose);
    let normal = fdiv_s(lift + fmul_s(sine, tang), cose);
    (
        lift,
        fmul_s(normal, sine) + fmul_s(tang, cose),
        -fmul_s(normal, spec_torque_proportion(eff)),
    )
}

/// The separated-flow model: the induced angle fades to zero as the angle
/// of attack approaches ninety degrees, and the normal coefficient follows
/// the flat-plate law with the aspect-ratio correction.
pub open spec fn spec_coefficients_stall(
    s: AeroSurface,
    ar: int,
    aoa: int,
    cls: int,
    zl: int,
    sh: int,
    sl: int,
) -> (int, int, int) {
    let s1 = SCALE as int;
    let lift_ref = if aoa > sh {
        fmul_s(cls, sh - zl)
    } else {
        fmul_s(cls, sl - zl)
    };
    let ind_ref = fdiv_s(lift_ref, fmul_s(PI_FX as int, ar));
    let ca = clamp_s(aoa, -HALF_PI_FX as int, HALF_PI_FX as int);
    let lp = if aoa > sh {
        fdiv_s(HALF_PI_FX as int - ca, HALF_PI_FX as int - sh)
    } else {
        fdiv_s(-(HALF_PI_FX as int) - ca, -(HALF_PI_FX as int) - sl)
    };
    let ind = lerp_clamped_s(0, ind_ref, lp);
    let eff = aoa - zl - ind;
    let sine = sin_s(eff);
    let cose = cos_s(eff);
    let asine = if sine >= 0 { sine } else { -sine };
    let bracket = fdiv_s(s1, 560_000 + fmul_s(440_000, asine)) - fmul_s(
        410_000,
        s1 - exp_neg_s(fdiv_s(17_000_000, ar)),
    );
    let normal = fmul_s(fmul_s(spec_friction_at_90(s), sine), bracket);
    let tang = fmul_s(fmul_s(500_000, s.config.skin_friction as int), cose);
    (
        fmul_s(normal, cose) - fmul_s(tang, sine),
        fmul_s(normal, sine) + fmul_s(tang, cose),
        -fmul_s(normal, spec_torque_proportion(eff)),
    )
}

/// The three regimes over the angle of attack.
#[derive(Clone, Copy, PartialEq, Eq, Structural, Debug)]
pub enum AoaRegion {
    LowAoa,
    Transition,
    Stall,
}

/// Classify an angle of attack against the stall boundaries and their
/// padded companions: strictly between the stall angles is attached flow,
/// beyond a padded boundary is stall, between a stall angle and its padded
/// boundary is the blending band.
pub open spec fn spec_classify_region(aoa: int, sh: int, sl: int, ph: int, pl: int) -> AoaRegion {
    if sl < aoa && aoa < sh {
        AoaRegion::LowAoa
    } else if aoa > ph || aoa < pl {
        AoaRegion::Stall
    } else {
        AoaRegion::Transition
    }
}

/// The classification, executable.
pub fn classify_region(aoa: i64, sh: i64, sl: i64, ph: i64, pl: i64) -> (r: AoaRegion)
    ensures
        r == spec_classify_region(aoa as int, sh as int, sl as int, ph as int, pl as int),
{
    if sl < aoa && aoa < sh {
        AoaRegion::LowAoa
    } else if aoa > ph || aoa < pl {
        AoaRegion::Stall
    } else {
        AoaRegion::Transition
    }
}

/// Coefficients over the full range of the angle of attack: each regime's
/// model inside its region, and a linear blend across each padding band,
/// evaluated between the exact boundary values.
pub open spec fn spec_calculate_coefficients(
    s: AeroSurface,
    ar: int,
    aoa: int,
    cls: int,
    zl: int,
    sh: int,
    sl: int,
) -> (int, int, int) {
    let ph = sh + spec_pad_high(s);
    let pl = sl - spec_pad_low(s);
    let region = spec_classify_region(aoa, sh, sl, ph, pl);
    if region is LowAoa {
        spec_coefficients_low_aoa(s, ar, aoa, cls, zl)
    } else if region is Stall {
        spec_coefficients_stall(s, ar, aoa, cls, zl, sh, sl)
    } else if aoa >= sh {
        let lo = spec_coefficients_low_aoa(s, ar, sh, cls, zl);
        let st = spec_coefficients_stall(s, ar, ph, cls, zl, sh, sl);
        let t = fdiv_s(aoa - sh, ph - sh);
        (
            lerp_clamped_s(lo.0, st.0, t),
            lerp_clamped_s(lo.1, st.1, t),
            lerp_clamped_s(lo.2, st.2, t),
        )
    } else {
        let lo = spec_coefficients_low_aoa(s, ar, sl, cls, zl);
        let st = spec_coefficients_stall(s, ar, pl, cls, zl, sh, sl);
        let t = fdiv_s(aoa - sl, pl - sl);
        (
            lerp_clamped_s(lo.0, st.0, t),
            lerp_clamped_s(lo.1, st.1, t),
            lerp_clamped_s(lo.2, st.2, t),
        )
    }
}

/// Lift effectiveness of the flap, from the flap fraction alone.
pub fn flap_effectiveness(c: &AeroSurfaceConfig) -> (r: i64)
    requires
        0 <= c.control_surface_fraction < 1_000_000,
    ensures
        r == spec_flap_effectiveness(*c),
        0 <= r <= SCALE,
{
    let v = 2 * c.control_surface_fraction - SCALE;
    proof {
        assert(0 <= ((SCALE as int) - v) * ((SCALE as int) + v) <= 4_000_000_000_000)
            by (nonlinear_arith)
            requires
                -1_000_000 <= v < 1_000_000,
                SCALE == 1_000_000i64,
        ;
    }
    let p: i64 = (SCALE - v) * (SCALE + v);
    let sn64 = isqrt_u64(p as u64);
    let sn = sn64 as i64;
    proof {
        assert(((SCALE as int) - v) * ((SCALE as int) + v) <= (SCALE as int) * (SCALE as int))
            by (nonlinear_arith)
            requires
                -1_000_000 <= v < 1_000_000,
                SCALE == 1_000_000i64,
        ;
        assert(sn <= 1_000_000) by (nonlinear_arith)
            requires
                0 <= sn,
                (sn as int) * (sn as int) <= p as int,
                (p as int) <= 1_000_000_000_000,
        ;
    }
    let theta = atan2_fx(sn, v);
    proof {
        lemma_fdiv_le((theta as int) - (sn as int), PI_FX as int, 4_200_000, 3_141_593);
    }
    let ratio = fdiv(theta - sn, PI_FX);
    clamp_i64(SCALE - ratio, 0, SCALE)
}

impl AeroSurface {
    /// The validity predicate as a method, for contracts.
    pub open spec fn valid(self) -> bool {
        surface_valid(self)
    }

    /// Build a surface over a validated configuration; the deflection
    /// starts at zero and is written once per step by the control binding.
    pub fn new(config: AeroSurfaceConfig, input_type: ControlInputType, input_sensitivity: i64) -> (r:
        Result<AeroSurface, ConfigError>)
        requires
            config.valid(),
        ensures
            -MAX_DEFLECTION_FX <= input_sensitivity <= MAX_DEFLECTION_FX <==> (r matches Ok(s)
                && s == (AeroSurface {
                config,
                input_type,
                input_sensitivity,
                control_surface_angle: 0i64,
            }) && s.valid()),
            !(-MAX_DEFLECTION_FX <= input_sensitivity <= MAX_DEFLECTION_FX) <==> r == Err::<
                AeroSurface,
                ConfigError,
            >(ConfigError::SensitivityOutOfRange),
    {
        if -MAX_DEFLECTION_FX <= input_sensitivity && input_sensitivity <= MAX_DEFLECTION_FX {
            Ok(
                AeroSurface {
                    config,
                    input_type,
                    input_sensitivity,
                    control_surface_angle: 0,
                },
            )
        } else {
            Err(ConfigError::SensitivityOutOfRange)
        }
    }

    /// Friction coefficient at ninety degrees of attack.
    fn friction_at_90_degrees(&self) -> (r: i64)
        requires
            -MAX_DEFLECTION_FX <= self.control_surface_angle <= MAX_DEFLECTION_FX,
        ensures
            r == spec_friction_at_90(*self),
            1_860_000 <= r <= 2_090_000,
    {
        let d = self.control_surface_angle;
        proof {
            lemma_fmul_le(d as int, d as int, 500_000, 500_000);
        }
        let dd = fmul(d, d);
        proof {
            lemma_fmul_le(42_600, dd as int, 42_600, 250_000);
            lemma_fmul_le(210_000, d as int, 210_000, 500_000);
            assert(0 <= (d as int) * (d as int)) by (nonlinear_arith);
            lemma_div_t_abs((d as int) * (d as int), SCALE as int, 250_000_000_000);
            assert(0 <= (42_600 as int) * (dd as int)) by (nonlinear_arith)
                requires
                    dd >= 0,
            ;
            lemma_div_t_abs(42_600 * (dd as int), SCALE as int, 10_650_000_000);
        }
        1_980_000 - fmul(42_600, dd) + fmul(210_000, d)
    }

    /// Derating of the flap effectiveness with the deflection magnitude.
    fn control_surface_effectiveness_correction(&self) -> (r: i64)
        requires
            -MAX_DEFLECTION_FX <= self.control_surface_angle <= MAX_DEFLECTION_FX,
        ensures
            r == spec_effectiveness_correction(*self),
            400_000 <= r <= 800_000,
    {
        let d = self.control_surface_angle;
        let ad = if d >= 0 { d } else { -d };
        proof {
            lemma_fmul_le(ad as int, RAD_TO_DEG_FX as int, 500_000, 57_295_780);
            lemma_div_t_le(fmul_s(ad as int, RAD_TO_DEG_FX as int) - 10_000_000, 50, 38_700_000);
        }
        let ad_deg = fmul(ad, RAD_TO_DEG_FX);
        let t = div_i64(ad_deg - 10_000_000, 50);
        lerp_clamped(800_000, 400_000, t)
    }

    /// Fraction of the flap's lift increment kept at maximum lift.
    fn lift_coefficient_max_fraction(&self) -> (r: i64)
        requires
            0 <= self.config.control_surface_fraction < 1_000_000,
        ensures
            r == spec_cl_max_fraction(self.config),
            0 <= r <= SCALE,
    {
        proof {
            lemma_fdiv_le(
                (self.config.control_surface_fraction as int) - 100_000,
                600_000,
                1_000_000,
                600_000,
            );
        }
        let t = fdiv(self.config.control_surface_fraction - 100_000, 600_000);
        clamp_i64(SCALE - t, 0, SCALE)
    }

    /// Torque proportion of the normal force at an effective angle.
    fn torque_coefficient_proportion(effective_angle: i64) -> (r: i64)
        requires
            -6_000_000 <= effective_angle <= 6_000_000,
        ensures
            r == spec_torque_proportion(effective_angle as int),
            0 <= r <= 800_000,
    {
        let ae = if effective_angle >= 0 {
            effective_angle
        } else {
            -effective_angle
        };
        proof {
            lemma_fdiv_le(2 * (ae as int), PI_FX as int, 12_000_000, 3_141_593);
            vstd::arithmetic::div_mod::lemma_div_pos_is_pos(
                2 * (ae as int) * (SCALE as int),
                PI_FX as int,
            );
            assert(0 <= 2 * (ae as int) * (SCALE as int)) by (nonlinear_arith)
                requires
                    ae >= 0,
            ;
        }
        let ratio = fdiv(2 * ae, PI_FX);
        proof {
            lemma_fmul_le(175_000, (SCALE as int) - (ratio as int), 175_000, 2_900_000);
            lemma_div_t_le_upper(175_000 * ((SCALE as int) - (ratio as int)), SCALE as int,
                175_000_000_000);
            assert(175_000 * ((SCALE as int) - (ratio as int)) <= 175_000_000_000)
                by (nonlinear_arith)
                requires
                    ratio >= 0,
            ;
        }
        let m = fmul(175_000, SCALE - ratio);
        250_000 - m
    }
}

} // verus!

verus! {

impl AeroSurface {
    /// Attached-flow coefficients at an angle of attack inside the
    /// low-angle region or exactly on a stall boundary.
    fn calculate_coefficients_low_aoa(
        &self,
        aspect_ratio: i64,
        angle_of_attack: i64,
        corrected_lift_slope: i64,
        zero_lift_aoa: i64,
    ) -> (r: FxVec3)
        requires
            0 <= self.config.skin_friction <= 1_000_000,
            1_100 <= aspect_ratio <= 2_000_000_000,
            1_000 <= corrected_lift_slope <= 6_283_185,
            corrected_lift_slope as int <= fmul_s(PI_FX as int, aspect_ratio as int),
            -650_000 <= zero_lift_aoa <= 650_000,
            -1_150_000 <= angle_of_attack - zero_lift_aoa <= 1_150_000,
        ensures
            (r.x as int, r.y as int, r.z as int) == spec_coefficients_low_aoa(
                *self,
                aspect_ratio as int,
                angle_of_attack as int,
                corrected_lift_slope as int,
                zero_lift_aoa as int,
            ),
            -7_300_000 <= r.x <= 7_300_000,
            -31_000_000 <= r.y <= 31_000_000,
            -24_000_000 <= r.z <= 24_000_000,
    {
        let e = angle_of_attack - zero_lift_aoa;
        proof {
            lemma_fmul_le(corrected_lift_slope as int, e as int, 6_283_185, 1_150_000);
        }
        let lift = fmul(corrected_lift_slope, e);
        proof {
            lemma_fmul_le(PI_FX as int, aspect_ratio as int, 3_141_593, 2_000_000_000);
        }
        let pi_ar = fmul(PI_FX, aspect_ratio);
        proof {
            lemma_induced_within(
                corrected_lift_slope as int,
                pi_ar as int,
                e as int,
            );
            assert(lift as int == fmul_s(corrected_lift_slope as int, e as int));
        }
        let ind = fdiv(lift, pi_ar);
        let eff = angle_of_attack - zero_lift_aoa - ind;
        proof {
            lemma_cos_lower(eff as int);
        }
        let sine = sin_fx(eff);
        let cose = cos_fx(eff);
        proof {
            lemma_fmul_le(self.config.skin_friction as int, cose as int, 1_000_000, 1_000_000);
        }
        let tang = fmul(self.config.skin_friction, cose);
        proof {
            lemma_fmul_le(sine as int, tang as int, 1_000_000, 1_000_000);
            lemma_fdiv_le(
                (lift as int) + fmul_s(sine as int, tang as int),
                cose as int,
                8_226_000,
                280_000,
            );
        }
        let normal = fdiv(lift + fmul(sine, tang), cose);
        proof {
            lemma_fmul_le(normal as int, sine as int, 29_380_000, 1_000_000);
            lemma_fmul_le(tang as int, cose as int, 1_000_000, 1_000_000);
        }
        let drag = fmul(normal, sine) + fmul(tang, cose);
        let prop = Self::torque_coefficient_proportion(eff);
        proof {
            lemma_fmul_le(normal as int, prop as int, 29_380_000, 800_000);
        }
        let torque = -fmul(normal, prop);
        FxVec3 { x: lift, y: drag, z: torque }
    }

    /// Separated-flow coefficients at an angle of attack beyond a padded
    /// stall boundary or exactly on one.
    fn calculate_coefficients_stall(
        &self,
        aspect_ratio: i64,
        angle_of_attack: i64,
        corrected_lift_slope: i64,
        zero_lift_aoa: i64,
        stall_angle_high: i64,
        stall_angle_low: i64,
    ) -> (r: FxVec3)
        requires
            0 <= self.config.skin_friction <= 1_000_000,
            -MAX_DEFLECTION_FX <= self.control_surface_angle <= MAX_DEFLECTION_FX,
            1_100 <= aspect_ratio <= 2_000_000_000,
            1_000 <= corrected_lift_slope <= 6_283_185,
            corrected_lift_slope as int <= fmul_s(PI_FX as int, aspect_ratio as int),
            -650_000 <= zero_lift_aoa <= 650_000,
            zero_lift_aoa + 1_000 <= stall_angle_high <= 1_300_000,
            stall_angle_high - zero_lift_aoa <= 1_150_000,
            -1_300_000 <= stall_angle_low <= zero_lift_aoa - 1_000,
            zero_lift_aoa - stall_angle_low <= 1_150_000,
            -3_200_000 <= angle_of_attack <= 3_200_000,
        ensures
            (r.x as int, r.y as int, r.z as int) == spec_coefficients_stall(
                *self,
                aspect_ratio as int,
                angle_of_attack as int,
                corrected_lift_slope as int,
                zero_lift_aoa as int,
                stall_angle_high as int,
                stall_angle_low as int,
            ),
            -4_300_000 <= r.x <= 4_300_000,
            -4_300_000 <= r.y <= 4_300_000,
            -3_100_000 <= r.z <= 3_100_000,
    {
        let e_ref = if angle_of_attack > stall_angle_high {
            stall_angle_high - zero_lift_aoa
        } else {
            stall_angle_low - zero_lift_aoa
        };
        proof {
            lemma_fmul_le(corrected_lift_slope as int, e_ref as int, 6_283_185, 1_150_000);
        }
        let lift_ref = fmul(corrected_lift_slope, e_ref);
        proof {
            lemma_fmul_le(PI_FX as int, aspect_ratio as int, 3_141_593, 2_000_000_000);
        }
        let pi_ar = fmul(PI_FX, aspect_ratio);
        proof {
            lemma_induced_within(corrected_lift_slope as int, pi_ar as int, e_ref as int);
        }
        let ind_ref = fdiv(lift_ref, pi_ar);
        let ca = clamp_i64(angle_of_attack, -HALF_PI_FX, HALF_PI_FX);
        let lp = if angle_of_attack > stall_angle_high {
            proof {
                lemma_fdiv_le(
                    (HALF_PI_FX as int) - (ca as int),
                    (HALF_PI_FX as int) - (stall_angle_high as int),
                    3_200_000,
                    270_796,
                );
            }
            fdiv(HALF_PI_FX - ca, HALF_PI_FX - stall_angle_high)
        } else {
            proof {
                let n = -(HALF_PI_FX as int) - (ca as int);
                let d = -(HALF_PI_FX as int) - (stall_angle_low as int);
                lemma_fdiv_le(-n, -d, 3_200_000, 270_796);
                assert((-n) * (SCALE as int) == -(n * (SCALE as int))) by (nonlinear_arith);
                lemma_div_t_parity(n * (SCALE as int), -d);
                lemma_div_t_parity(n * (SCALE as int), d);
                assert(fdiv_s(n, d) == fdiv_s(-n, -d));
            }
            fdiv(-HALF_PI_FX - ca, -HALF_PI_FX - stall_angle_low)
        };
        let ind = lerp_clamped(0, ind_ref, lp);
        let eff = angle_of_attack - zero_lift_aoa - ind;
        let sine = sin_fx(eff);
        let cose = cos_fx(eff);
        let asine = if sine >= 0 {
            sine
        } else {
            -sine
        };
        proof {
            lemma_fmul_le(440_000, asine as int, 440_000, 1_000_000);
            assert(0 <= 440_000 * (asine as int)) by (nonlinear_arith)
                requires
                    asine >= 0,
            ;
            lemma_div_t_abs(440_000 * (asine as int), SCALE as int, 440_000_000_000);
        }
        let den2 = 560_000 + fmul(440_000, asine);
        proof {
            lemma_fdiv_le(SCALE as int, den2 as int, 1_000_000, 560_000);
        }
        let b1 = fdiv(SCALE, den2);
        proof {
            lemma_fdiv_le(17_000_000, aspect_ratio as int, 17_000_000, 1_100);
            vstd::arithmetic::div_mod::lemma_div_pos_is_pos(
                17_000_000 * (SCALE as int),
                aspect_ratio as int,
            );
        }
        let ex_arg = fdiv(17_000_000, aspect_ratio);
        let expv = exp_neg_fx(ex_arg);
        proof {
            lemma_fmul_le(410_000, (SCALE as int) - (expv as int), 410_000, 1_000_000);
            assert(0 <= 410_000 * ((SCALE as int) - (expv as int))) by (nonlinear_arith)
                requires
                    expv <= SCALE,
            ;
            lemma_div_t_abs(410_000 * ((SCALE as int) - (expv as int)), SCALE as int,
                410_000_000_000);
        }
        let b2 = fmul(410_000, SCALE - expv);
        let bracket = b1 - b2;
        let f90 = self.friction_at_90_degrees();
        proof {
            lemma_fmul_le(f90 as int, sine as int, 2_090_000, 1_000_000);
        }
        let n1 = fmul(f90, sine);
        proof {
            lemma_fmul_le(n1 as int, bracket as int, 2_090_000, 1_790_000);
        }
        let normal = fmul(n1, bracket);
        proof {
            lemma_fmul_le(500_000, self.config.skin_friction as int, 500_000, 1_000_000);
        }
        let half_skin = fmul(500_000, self.config.skin_friction);
        proof {
            lemma_fmul_le(half_skin as int, cose as int, 500_000, 1_000_000);
        }
        let tang = fmul(half_skin, cose);
        proof {
            lemma_fmul_le(normal as int, cose as int, 3_750_000, 1_000_000);
            lemma_fmul_le(tang as int, sine as int, 500_000, 1_000_000);
            lemma_fmul_le(normal as int, sine as int, 3_750_000, 1_000_000);
            lemma_fmul_le(tang as int, cose as int, 500_000, 1_000_000);
        }
        let lift = fmul(normal, cose) - fmul(tang, sine);
        let drag = fmul(normal, sine) + fmul(tang, cose);
        let prop = Self::torque_coefficient_proportion(eff);
        proof {
            lemma_fmul_le(normal as int, prop as int, 3_750_000, 800_000);
        }
        let torque = -fmul(normal, prop);
        FxVec3 { x: lift, y: drag, z: torque }
    }

    /// Coefficients over the full range of the angle of attack, blending
    /// linearly across each padding band.
    fn calculate_coefficients(
        &self,
        aspect_ratio: i64,
        angle_of_attack: i64,
        corrected_lift_slope: i64,
        zero_lift_aoa: i64,
        stall_angle_high: i64,
        stall_angle_low: i64,
    ) -> (r: FxVec3)
        requires
            0 <= self.config.skin_friction <= 1_000_000,
            -MAX_DEFLECTION_FX <= self.control_surface_angle <= MAX_DEFLECTION_FX,
            1_100 <= aspect_ratio <= 2_000_000_000,
            1_000 <= corrected_lift_slope <= 6_283_185,
            corrected_lift_slope as int <= fmul_s(PI_FX as int, aspect_ratio as int),
            -650_000 <= zero_lift_aoa <= 650_000,
            zero_lift_aoa + 1_000 <= stall_angle_high <= 1_300_000,
            stall_angle_high - zero_lift_aoa <= 1_150_000,
            -1_300_000 <= stall_angle_low <= zero_lift_aoa - 1_000,
            zero_lift_aoa - stall_angle_low <= 1_150_000,
            -3_200_000 <= angle_of_attack <= 3_200_000,
        ensures
            (r.x as int, r.y as int, r.z as int) == spec_calculate_coefficients(
                *self,
                aspect_ratio as int,
                angle_of_attack as int,
                corrected_lift_slope as int,
                zero_lift_aoa as int,
                stall_angle_high as int,
                stall_angle_low as int,
            ),
            -31_000_000 <= r.x <= 31_000_000,
            -31_000_000 <= r.y <= 31_000_000,
            -31_000_000 <= r.z <= 31_000_000,
    {
        let d_deg = fmul(self.control_surface_angle, RAD_TO_DEG_FX);
        proof {
            lemma_fmul_le(self.control_surface_angle as int, RAD_TO_DEG_FX as int, 500_000,
                57_295_780);
            lemma_div_t_le((d_deg as int) + 50_000_000, 100, 79_000_000);
            lemma_div_t_le(-(d_deg as int) + 50_000_000, 100, 79_000_000);
        }
        let th = div_i64(d_deg + 50_000_000, 100);
        let tl = div_i64(-d_deg + 50_000_000, 100);
        let pad_h_deg = lerp_clamped(15_000_000, 5_000_000, th);
        let pad_l_deg = lerp_clamped(15_000_000, 5_000_000, tl);
        proof {
            lemma_fmul_le(pad_h_deg as int, DEG_TO_RAD_FX as int, 15_000_000, 17_453);
            lemma_fmul_ge(pad_h_deg as int, DEG_TO_RAD_FX as int, 5_000_000);
            lemma_fmul_le(pad_l_deg as int, DEG_TO_RAD_FX as int, 15_000_000, 17_453);
            lemma_fmul_ge(pad_l_deg as int, DEG_TO_RAD_FX as int, 5_000_000);
        }
        let pad_h = fmul(pad_h_deg, DEG_TO_RAD_FX);
        let pad_l = fmul(pad_l_deg, DEG_TO_RAD_FX);
        let ph = stall_angle_high + pad_h;
        let pl = stall_angle_low - pad_l;
        if stall_angle_low < angle_of_attack && angle_of_attack < stall_angle_high {
            self.calculate_coefficients_low_aoa(
                aspect_ratio,
                angle_of_attack,
                corrected_lift_slope,
                zero_lift_aoa,
            )
        } else if angle_of_attack > ph || angle_of_attack < pl {
            self.calculate_coefficients_stall(
                aspect_ratio,
                angle_of_attack,
                corrected_lift_slope,
                zero_lift_aoa,
                stall_angle_high,
                stall_angle_low,
            )
        } else if angle_of_attack >= stall_angle_high {
            let lo = self.calculate_coefficients_low_aoa(
                aspect_ratio,
                stall_angle_high,
                corrected_lift_slope,
                zero_lift_aoa,
            );
            let st = self.calculate_coefficients_stall(
                aspect_ratio,
                ph,
                corrected_lift_slope,
                zero_lift_aoa,
                stall_angle_high,
                stall_angle_low,
            );
            proof {
                lemma_fdiv_le(
                    (angle_of_attack as int) - (stall_angle_high as int),
                    pad_h as int,
                    262_000,
                    87_265,
                );
            }
            let t = fdiv(angle_of_attack - stall_angle_high, pad_h);
            FxVec3 {
                x: lerp_clamped(lo.x, st.x, t),
                y: lerp_clamped(lo.y, st.y, t),
                z: lerp_clamped(lo.z, st.z, t),
            }
        } else {
            let lo = self.calculate_coefficients_low_aoa(
                aspect_ratio,
                stall_angle_low,
                corrected_lift_slope,
                zero_lift_aoa,
            );
            let st = self.calculate_coefficients_stall(
                aspect_ratio,
                pl,
                corrected_lift_slope,
                zero_lift_aoa,
                stall_angle_high,
                stall_angle_low,
            );
            proof {
                let n = (angle_of_attack as int) - (stall_angle_low as int);
                let d = (pl as int) - (stall_angle_low as int);
                lemma_fdiv_le(-n, -d, 262_000, 87_265);
                assert((-n) * (SCALE as int) == -(n * (SCALE as int))) by (nonlinear_arith);
                lemma_div_t_parity(n * (SCALE as int), -d);
                lemma_div_t_parity(n * (SCALE as int), d);
                assert(fdiv_s(n, d) == fdiv_s(-n, -d));
            }
            let t = fdiv(angle_of_attack - stall_angle_low, pl - stall_angle_low);
            FxVec3 {
                x: lerp_clamped(lo.x, st.x, t),
                y: lerp_clamped(lo.y, st.y, t),
                z: lerp_clamped(lo.z, st.z, t),
            }
        }
    }
}

} // verus!

verus! {

/// Lift, drag and torque magnitude of one surface from the local airflow:
/// the span component of the velocity is zeroed, the angle of attack read
/// from the vertical and forward components, and each coefficient scaled by
/// the dynamic pressure and the surface area (the torque also by the
/// chord). Inputs in micro-units; one micro-unit of force per unit.
pub open spec fn spec_calculate_forces(s: AeroSurface, v: FxVec3, rho: int) -> (int, int, int) {
    let s1 = SCALE as int;
    let vy = v.y as int;
    let vz = v.z as int;
    let aoa = atan2_s(-vy, vz);
    let q = div_t(rho * (vy * vy + vz * vz), 2 * s1 * s1);
    let area = fmul_s(s.config.chord as int, s.config.span as int);
    let co = spec_calculate_coefficients(
        s,
        spec_aspect_ratio(s.config),
        aoa,
        spec_corrected_lift_slope(s.config),
        spec_zero_lift_aoa(s),
        spec_stall_high(s),
        spec_stall_low(s),
    );
    (
        div_t(co.0 * q * area, s1 * s1),
        div_t(co.1 * q * area, s1 * s1),
        div_t(co.2 * q * area * (s.config.chord as int), s1 * s1 * s1),
    )
}

impl AeroSurface {
    /// The zero-lift angle and both effective stall angles, shifted by the
    /// flap deflection, with the armour clamps of their spec twins.
    fn stall_boundaries(&self) -> (r: (i64, i64, i64))
        requires
            self.valid(),
        ensures
            r.0 as int == spec_zero_lift_aoa(*self),
            r.1 as int == spec_stall_high(*self),
            r.2 as int == spec_stall_low(*self),
            -650_000 <= r.0 <= 650_000,
            r.0 + 1_000 <= r.1 <= 1_300_000,
            r.1 - r.0 <= 1_150_000,
            -1_300_000 <= r.2 <= r.0 - 1_000,
            r.0 - r.2 <= 1_150_000,
    {
        let cls = corrected_lift_slope(&self.config);
        let flap = flap_effectiveness(&self.config);
        let corr = self.control_surface_effectiveness_correction();
        proof {
            lemma_fmul_le(cls as int, flap as int, 6_283_185, 1_000_000);
            lemma_fmul_le(fmul_s(cls as int, flap as int), corr as int, 6_283_185, 800_000);
            lemma_fmul_le(
                fmul_s(fmul_s(cls as int, flap as int), corr as int),
                self.control_surface_angle as int,
                5_030_000,
                500_000,
            );
        }
        let delta = fmul(fmul(fmul(cls, flap), corr), self.control_surface_angle);
        proof {
            lemma_fdiv_le(delta as int, cls as int, 2_515_000, 1_000);
        }
        let shift = clamp_i64(fdiv(delta, cls), -410_000, 410_000);
        let zl = self.config.zero_lift_aoa - shift;
        let clf = self.lift_coefficient_max_fraction();
        proof {
            lemma_fmul_le(cls as int, (self.config.stall_angle_high as int) - (zl as int),
                6_283_185, 1_120_000);
            lemma_fmul_le(cls as int, (self.config.stall_angle_low as int) - (zl as int),
                6_283_185, 1_120_000);
            lemma_fmul_le(delta as int, clf as int, 2_515_000, 1_000_000);
        }
        let cmh = fmul(cls, self.config.stall_angle_high - zl) + fmul(delta, clf);
        let cml = fmul(cls, self.config.stall_angle_low - zl) + fmul(delta, clf);
        proof {
            lemma_fdiv_le(cmh as int, cls as int, 9_560_000, 1_000);
            lemma_fdiv_le(cml as int, cls as int, 9_560_000, 1_000);
        }
        let sh1 = clamp_i64(zl + fdiv(cmh, cls), zl + 1_000, zl + 1_150_000);
        let sh = if sh1 > 1_300_000 {
            1_300_000
        } else {
            sh1
        };
        let sl1 = clamp_i64(zl + fdiv(cml, cls), zl - 1_150_000, zl - 1_000);
        let sl = if sl1 < -1_300_000 {
            -1_300_000
        } else {
            sl1
        };
        (zl, sh, sl)
    }

    /// The per-surface force model. Returns lift, drag and torque magnitude
    /// as the three components, exactly the values of
    /// `spec_calculate_forces`. Zero local air velocity gives exactly zero.
    /// The velocity and density caps are fixed-point machine limits: two
    /// thousand units of speed and ten of density keep every intermediate
    /// product inside its integer type.
    #[verifier::rlimit(60)]
    pub fn calculate_forces(&self, local_air_velocity: FxVec3, air_density: i64) -> (r: FxVec3)
        requires
            self.valid(),
            vec_bounded(local_air_velocity, 2_000_000_000),
            0 <= air_density <= 10_000_000,
        ensures
            (r.x as int, r.y as int, r.z as int) == spec_calculate_forces(
                *self,
                local_air_velocity,
                air_density as int,
            ),
            vec_bounded(r, 2_100_000_000_000_000_000),
    {
        let ar = aspect_ratio(&self.config);
        let cls = corrected_lift_slope(&self.config);
        let bounds = self.stall_boundaries();
        let zl = bounds.0;
        let sh = bounds.1;
        let sl = bounds.2;
        let aoa = atan2_fx(-local_air_velocity.y, local_air_velocity.z);
        let vy128 = local_air_velocity.y as i128;
        let vz128 = local_air_velocity.z as i128;
        proof {
            assert(0 <= vy128 * vy128 <= 4_000_000_000_000_000_000
                && 0 <= vz128 * vz128 <= 4_000_000_000_000_000_000) by (nonlinear_arith)
                requires
                    -2_000_000_000 <= vy128 <= 2_000_000_000,
                    -2_000_000_000 <= vz128 <= 2_000_000_000,
            ;
        }
        let sq: i128 = vy128 * vy128 + vz128 * vz128;
        proof {
            assert(0 <= (air_density as i128) * sq <= 80_000_000_000_000_000_000_000_000)
                by (nonlinear_arith)
                requires
                    0 <= air_density <= 10_000_000,
                    0 <= sq <= 8_000_000_000_000_000_000i128,
            ;
            lemma_div_t_abs((air_density as int) * (sq as int), 2_000_000_000_000,
                80_000_000_000_000_000_000_000_000);
            lemma_div_t_le((air_density as int) * (sq as int), 2_000_000_000_000,
                80_000_000_000_000_000_000_000_000);
            vstd::arithmetic::div_mod::lemma_div_pos_is_pos(
                (air_density as int) * (sq as int),
                2_000_000_000_000,
            );
        }
        let q128 = div_i128((air_density as i128) * sq, 2_000_000_000_000);
        let q = q128 as i64;
        proof {
            lemma_fmul_le(self.config.chord as int, self.config.span as int, 9_000_000,
                20_000_000);
            assert(0 <= (self.config.chord as int) * (self.config.span as int))
                by (nonlinear_arith)
                requires
                    self.config.chord > 0,
                    self.config.span > 0,
            ;
            lemma_div_t_abs((self.config.chord as int) * (self.config.span as int), SCALE as int,
                180_000_000_000_000);
        }
        let area = fmul(self.config.chord, self.config.span);
        let co = self.calculate_coefficients(ar, aoa, cls, zl, sh, sl);
        proof {
            lemma_force_product_bounds(co.x as int, q as int, area as int);
            lemma_force_product_bounds(co.y as int, q as int, area as int);
            lemma_force_product_bounds(co.z as int, q as int, area as int);
            lemma_torque_product_bounds(
                (co.z as int) * (q as int) * (area as int),
                self.config.chord as int,
            );
        }
        let px: i128 = (co.x as i128) * (q as i128) * (area as i128);
        let py: i128 = (co.y as i128) * (q as i128) * (area as i128);
        let pz: i128 = (co.z as i128) * (q as i128) * (area as i128);
        let lift = div_i128(px, 1_000_000_000_000) as i64;
        let drag = div_i128(py, 1_000_000_000_000) as i64;
        let torque = div_i128(pz * (self.config.chord as i128), 1_000_000_000_000_000_000) as i64;
        FxVec3 { x: lift, y: drag, z: torque }
    }
}

/// Bounds for a coefficient times dynamic pressure times area.
proof fn lemma_force_product_bounds(c: int, q: int, area: int)
    requires
        -31_000_000 <= c <= 31_000_000,
        0 <= q <= 40_000_000_000_000,
        0 <= area <= 180_000_000,
    ensures
        -1_300_000_000_000_000_000_000 <= c * q <= 1_300_000_000_000_000_000_000,
        -230_000_000_000_000_000_000_000_000_000 <= c * q * area
            <= 230_000_000_000_000_000_000_000_000_000,
        -230_000_000_000_000_000 <= div_t(c * q * area, 1_000_000_000_000)
            <= 230_000_000_000_000_000,
{
    assert(-1_300_000_000_000_000_000_000 <= c * q <= 1_300_000_000_000_000_000_000
        && -230_000_000_000_000_000_000_000_000_000 <= c * q * area
        <= 230_000_000_000_000_000_000_000_000_000) by (nonlinear_arith)
        requires
            -31_000_000 <= c <= 31_000_000,
            0 <= q <= 40_000_000_000_000,
            0 <= area <= 180_000_000,
    ;
    lemma_div_t_le(c * q * area, 1_000_000_000_000, 230_000_000_000_000_000_000_000_000_000);
    lemma_div_t_abs(c * q * area, 1_000_000_000_000, 230_000_000_000_000_000_000_000_000_000);
}

/// Bounds for the torque product, which also carries the chord.
proof fn lemma_torque_product_bounds(p: int, chord: int)
    requires
        -230_000_000_000_000_000_000_000_000_000 <= p <= 230_000_000_000_000_000_000_000_000_000,
        0 <= chord <= 9_000_000,
    ensures
        -2_070_000_000_000_000_000_000_000_000_000_000_000 <= p * chord
            <= 2_070_000_000_000_000_000_000_000_000_000_000_000,
        -2_070_000_000_000_000_000 <= div_t(p * chord, 1_000_000_000_000_000_000)
            <= 2_070_000_000_000_000_000,
{
    assert(-2_070_000_000_000_000_000_000_000_000_000_000_000 <= p * chord
        <= 2_070_000_000_000_000_000_000_000_000_000_000_000) by (nonlinear_arith)
        requires
            -230_000_000_000_000_000_000_000_000_000 <= p
                <= 230_000_000_000_000_000_000_000_000_000,
            0 <= chord <= 9_000_000,
    ;
    lemma_div_t_le(p * chord, 1_000_000_000_000_000_000,
        2_070_000_000_000_000_000_000_000_000_000_000_000);
}

} // verus!

verus! {

/// Air density handed to every surface, micro-units of kilograms per cubic
/// metre.
pub const AIR_DENSITY_FX: i64 = 1_200_000;

/// Magnitude of the constant forward thrust, micro-units of force. A
/// propulsion stub: provided, literal, external configuration.
pub const THRUST_FX: i64 = 10_000_000_000;

/// Normalized control-axis values from the input layer, micro-units in
/// `[-1, 1]` (values beyond are clamped on use).
#[derive(Clone, Copy, PartialEq, Eq, Structural, Debug)]
pub struct ControlAxes {
    pub roll: i64,
    pub pitch: i64,
    pub yaw: i64,
}

/// An ordered set of lifting surfaces with their attachment poses, owned by
/// one rigid body.
pub struct AeroSurfaceList {
    pub surfaces: Vec<(AeroSurface, Pose)>,
}

/// The control-axis value a surface listens to, clamped into `[-1, 1]`.
pub open spec fn spec_axis_value(t: ControlInputType, axes: ControlAxes) -> int {
    match t {
        ControlInputType::Neutral => 0,
        ControlInputType::Flap => 0,
        ControlInputType::Roll => clamp_s(axes.roll as int, -(SCALE as int), SCALE as int),
        ControlInputType::Pitch => clamp_s(axes.pitch as int, -(SCALE as int), SCALE as int),
        ControlInputType::Yaw => clamp_s(axes.yaw as int, -(SCALE as int), SCALE as int),
    }
}

/// A surface after one control-binding step: only the deflection angle
/// changes, to sensitivity times the selected axis value.
pub open spec fn spec_with_deflection(s: AeroSurface, axes: ControlAxes) -> AeroSurface {
    AeroSurface {
        control_surface_angle: fmul_s(
            s.input_sensitivity as int,
            spec_axis_value(s.input_type, axes),
        ) as i64,
        ..s
    }
}

/// Every surface valid and every attachment pose within the modelled
/// envelope: rotation entries within one, translations within twenty
/// metres of the body origin.
pub open spec fn surfaces_ok(s: Seq<(AeroSurface, Pose)>) -> bool {
    forall|i: int|
        0 <= i < s.len() ==> {
            let p = #[trigger] s[i];
            p.0.valid() && rot_bounded(p.1.rot) && vec_bounded(p.1.pos, 20_000_000)
        }
}

/// The aggregation's input envelope: a bounded body pose, linear velocity
/// within two hundred metres per second, angular velocity within ten
/// radians per second, the centre of mass within twenty metres of the body
/// origin, and at most a million surfaces.
pub open spec fn spec_list_inputs_ok(
    list: AeroSurfaceList,
    body: Pose,
    linvel: FxVec3,
    angvel: FxVec3,
    com: FxVec3,
) -> bool {
    &&& list.surfaces@.len() <= 1_000_000
    &&& surfaces_ok(list.surfaces@)
    &&& rot_bounded(body.rot)
    &&& vec_bounded(body.pos, 100_000_000_000_000)
    &&& vec_bounded(linvel, 100_000_000)
    &&& vec_bounded(angvel, 2_000_000)
    &&& -20_000_000 <= com.x - body.pos.x <= 20_000_000
    &&& -20_000_000 <= com.y - body.pos.y <= 20_000_000
    &&& -20_000_000 <= com.z - body.pos.z <= 20_000_000
}

/// One surface's contribution to the net force and torque, world frame.
pub open spec fn spec_surface_contribution(
    surface: AeroSurface,
    spose: Pose,
    body: Pose,
    linvel: FxVec3,
    angvel: FxVec3,
    com: FxVec3,
) -> ((int, int, int), (int, int, int)) {
    let rot = spec_rot_mul(body.rot, spose.rot);
    let wr = spec_rot_apply(body.rot, spose.pos);
    let rel = FxVec3 {
        x: (wr.x + body.pos.x - com.x) as i64,
        y: (wr.y + body.pos.y - com.y) as i64,
        z: (wr.z + body.pos.z - com.z) as i64,
    };
    let av = spec_cross(angvel, rel);
    let airv = FxVec3 {
        x: (-(linvel.x as int) - av.x) as i64,
        y: (-(linvel.y as int) - av.y) as i64,
        z: (-(linvel.z as int) - av.z) as i64,
    };
    let lav = spec_rot_apply_inv(rot, airv);
    let f = spec_calculate_forces(surface, lav, AIR_DENSITY_FX as int);
    let dragdir = spec_normalize(airv);
    let liftdir = spec_normalize(
        spec_cross(dragdir, FxVec3 { x: rot.xx, y: rot.yx, z: rot.zx }),
    );
    let fx = fmul_s(f.0, liftdir.x as int) + fmul_s(f.1, dragdir.x as int);
    let fy = fmul_s(f.0, liftdir.y as int) + fmul_s(f.1, dragdir.y as int);
    let fz = fmul_s(f.0, liftdir.z as int) + fmul_s(f.1, dragdir.z as int);
    let tx = fmul_s(rel.y as int, fz) - fmul_s(rel.z as int, fy) + fmul_s(f.2, rot.xz as int);
    let ty = fmul_s(rel.z as int, fx) - fmul_s(rel.x as int, fz) + fmul_s(f.2, rot.yz as int);
    let tz = fmul_s(rel.x as int, fy) - fmul_s(rel.y as int, fx) + fmul_s(f.2, rot.zz as int);
    ((fx, fy, fz), (tx, ty, tz))
}

/// Sum of the first `n` surfaces' contributions.
pub open spec fn spec_accumulate_forces(
    surfaces: Seq<(AeroSurface, Pose)>,
    body: Pose,
    linvel: FxVec3,
    angvel: FxVec3,
    com: FxVec3,
    n: int,
) -> ((int, int, int), (int, int, int))
    decreases n,
{
    if n <= 0 {
        ((0, 0, 0), (0, 0, 0))
    } else {
        let prev = spec_accumulate_forces(surfaces, body, linvel, angvel, com, n - 1);
        let c = spec_surface_contribution(
            surfaces[n - 1].0,
            surfaces[n - 1].1,
            body,
            linvel,
            angvel,
            com,
        );
        (
            (prev.0.0 + c.0.0, prev.0.1 + c.0.1, prev.0.2 + c.0.2),
            (prev.1.0 + c.1.0, prev.1.1 + c.1.1, prev.1.2 + c.1.2),
        )
    }
}

/// Net force and torque: the surface contributions summed in order, plus
/// the constant thrust along the body's forward axis. The torque carries no
/// thrust term.
pub open spec fn spec_net_forces(
    list: AeroSurfaceList,
    body: Pose,
    linvel: FxVec3,
    angvel: FxVec3,
    com: FxVec3,
) -> ((int, int, int), (int, int, int)) {
    let acc = spec_accumulate_forces(
        list.surfaces@,
        body,
        linvel,
        angvel,
        com,
        list.surfaces@.len() as int,
    );
    (
        (
            acc.0.0 + fmul_s(THRUST_FX as int, -(body.rot.xz as int)),
            acc.0.1 + fmul_s(THRUST_FX as int, -(body.rot.yz as int)),
            acc.0.2 + fmul_s(THRUST_FX as int, -(body.rot.zz as int)),
        ),
        acc.1,
    )
}

impl AeroSurfaceList {
    /// Write each surface's deflection angle from the control axes: the
    /// per-step control-binding phase, to run before the force phase. Only
    /// the deflection angles change.
    pub fn update_control_surface_angle(&mut self, axes: &ControlAxes)
        requires
            surfaces_ok(old(self).surfaces@),
        ensures
            final(self).surfaces@.len() == old(self).surfaces@.len(),
            forall|i: int|
                0 <= i < final(self).surfaces@.len() ==> #[trigger] final(self).surfaces@[i] == (
                spec_with_deflection(old(self).surfaces@[i].0, *axes),
                old(self).surfaces@[i].1,
                ),
            surfaces_ok(final(self).surfaces@),
    {
        let n = self.surfaces.len();
        let mut i: usize = 0;
        while i < n
            invariant
                i <= n,
                n == self.surfaces@.len(),
                self.surfaces@.len() == old(self).surfaces@.len(),
                surfaces_ok(old(self).surfaces@),
                forall|j: int|
                    0 <= j < i ==> #[trigger] self.surfaces@[j] == (
                    spec_with_deflection(old(self).surfaces@[j].0, *axes),
                    old(self).surfaces@[j].1,
                    ),
                forall|j: int|
                    i <= j < n ==> #[trigger] self.surfaces@[j] == old(self).surfaces@[j],
            decreases n - i,
        {
            let input_type = self.surfaces[i].0.input_type;
            let sens = self.surfaces[i].0.input_sensitivity;
            let input_value = match input_type {
                ControlInputType::Neutral => 0,
                ControlInputType::Roll => clamp_i64(axes.roll, -SCALE, SCALE),
                ControlInputType::Pitch => clamp_i64(axes.pitch, -SCALE, SCALE),
                ControlInputType::Yaw => clamp_i64(axes.yaw, -SCALE, SCALE),
                ControlInputType::Flap => 0,
            };
            proof {
                lemma_fmul_le(sens as int, input_value as int, 500_000, 1_000_000);
            }
            let angle = fmul(sens, input_value);
            self.surfaces[i].0.control_surface_angle = angle;
            i = i + 1;
        }
        proof {
            assert forall|i2: int| 0 <= i2 < self.surfaces@.len() implies {
                let p = #[trigger] self.surfaces@[i2];
                p.0.valid() && rot_bounded(p.1.rot) && vec_bounded(p.1.pos, 20_000_000)
            } by {
                assert(self.surfaces@[i2] == (
                    spec_with_deflection(old(self).surfaces@[i2].0, *axes),
                    old(self).surfaces@[i2].1,
                ));
                let s0 = old(self).surfaces@[i2].0;
                lemma_fmul_le(
                    s0.input_sensitivity as int,
                    spec_axis_value(s0.input_type, *axes),
                    500_000,
                    1_000_000,
                );
            }
        }
    }

    /// Net aerodynamic force and torque on the body, world frame, plus the
    /// constant forward thrust; recomputed from scratch each call. For each
    /// surface: the attachment pose composed with the body pose, the local
    /// airflow from the body's linear and angular velocity about the centre
    /// of mass, the surface's lift, drag and torque, and the world-frame
    /// directions (degenerate normalizations fall back to the zero vector).
    #[verifier::rlimit(100)]
    pub fn calculate_forces(
        &self,
        plane_transform: &Pose,
        velocity_linear: FxVec3,
        velocity_angular: FxVec3,
        world_center_of_mass: FxVec3,
    ) -> (r: (WideVec3, WideVec3))
        requires
            spec_list_inputs_ok(
                *self,
                *plane_transform,
                velocity_linear,
                velocity_angular,
                world_center_of_mass,
            ),
        ensures
            ({
                let net = spec_net_forces(
                    *self,
                    *plane_transform,
                    velocity_linear,
                    velocity_angular,
                    world_center_of_mass,
                );
                r.0.x as int == net.0.0 && r.0.y as int == net.0.1 && r.0.z as int == net.0.2
                    && r.1.x as int == net.1.0 && r.1.y as int == net.1.1 && r.1.z as int
                    == net.1.2
            }),
    {
        let body = plane_transform;
        let n = self.surfaces.len();
        let mut afx: i128 = 0;
        let mut afy: i128 = 0;
        let mut afz: i128 = 0;
        let mut atx: i128 = 0;
        let mut aty: i128 = 0;
        let mut atz: i128 = 0;
        let mut i: usize = 0;
        while i < n
            invariant
                i <= n,
                n == self.surfaces@.len(),
                spec_list_inputs_ok(
                    *self,
                    *body,
                    velocity_linear,
                    velocity_angular,
                    world_center_of_mass,
                ),
                ({
                    let acc = spec_accumulate_forces(
                        self.surfaces@,
                        *body,
                        velocity_linear,
                        velocity_angular,
                        world_center_of_mass,
                        i as int,
                    );
                    afx == acc.0.0 && afy == acc.0.1 && afz == acc.0.2 && atx == acc.1.0 && aty
                        == acc.1.1 && atz == acc.1.2
                }),
                -(i as int) * 4_300_000_000_000_000_000 <= afx <= (i as int)
                    * 4_300_000_000_000_000_000,
                -(i as int) * 4_300_000_000_000_000_000 <= afy <= (i as int)
                    * 4_300_000_000_000_000_000,
                -(i as int) * 4_300_000_000_000_000_000 <= afz <= (i as int)
                    * 4_300_000_000_000_000_000,
                -(i as int) * 700_000_000_000_000_000_000 <= atx <= (i as int)
                    * 700_000_000_000_000_000_000,
                -(i as int) * 700_000_000_000_000_000_000 <= aty <= (i as int)
                    * 700_000_000_000_000_000_000,
                -(i as int) * 700_000_000_000_000_000_000 <= atz <= (i as int)
                    * 700_000_000_000_000_000_000,
            decreases n - i,
        {
            let pair = &self.surfaces[i];
            let surface = &pair.0;
            let spose = &pair.1;
            let rot = rot_mul(&body.rot, &spose.rot);
            let wr = rot_apply(&body.rot, spose.pos, Ghost(20_000_000));
            let rel = FxVec3 {
                x: wr.x + body.pos.x - world_center_of_mass.x,
                y: wr.y + body.pos.y - world_center_of_mass.y,
                z: wr.z + body.pos.z - world_center_of_mass.z,
            };
            let av = cross_fx(velocity_angular, rel, Ghost(2_000_000), Ghost(80_000_000));
            let airv = FxVec3 {
                x: -velocity_linear.x - av.x,
                y: -velocity_linear.y - av.y,
                z: -velocity_linear.z - av.z,
            };
            let lav = rot_apply_inv(&rot, airv, Ghost(420_000_000));
            let f = surface.calculate_forces(lav, AIR_DENSITY_FX);
            let dragdir = normalize_dir(airv);
            let right = FxVec3 { x: rot.xx, y: rot.yx, z: rot.zx };
            let liftdir = normalize_dir(cross_fx(dragdir, right, Ghost(1_000_000), Ghost(1_000_000)));
            proof {
                lemma_fmul_le(f.x as int, liftdir.x as int, 2_100_000_000_000_000_000, 1_000_000);
                lemma_fmul_le(f.y as int, dragdir.x as int, 2_100_000_000_000_000_000, 1_000_000);
                lemma_fmul_le(f.x as int, liftdir.y as int, 2_100_000_000_000_000_000, 1_000_000);
                lemma_fmul_le(f.y as int, dragdir.y as int, 2_100_000_000_000_000_000, 1_000_000);
                lemma_fmul_le(f.x as int, liftdir.z as int, 2_100_000_000_000_000_000, 1_000_000);
                lemma_fmul_le(f.y as int, dragdir.z as int, 2_100_000_000_000_000_000, 1_000_000);
            }
            let fx = fmul(f.x, liftdir.x) + fmul(f.y, dragdir.x);
            let fy = fmul(f.x, liftdir.y) + fmul(f.y, dragdir.y);
            let fz = fmul(f.x, liftdir.z) + fmul(f.y, dragdir.z);
            proof {
                lemma_fmul_le(rel.y as int, fz as int, 80_000_000, 4_200_000_000_000_000_000);
                lemma_fmul_le(rel.z as int, fy as int, 80_000_000, 4_200_000_000_000_000_000);
                lemma_fmul_le(rel.z as int, fx as int, 80_000_000, 4_200_000_000_000_000_000);
                lemma_fmul_le(rel.x as int, fz as int, 80_000_000, 4_200_000_000_000_000_000);
                lemma_fmul_le(rel.x as int, fy as int, 80_000_000, 4_200_000_000_000_000_000);
                lemma_fmul_le(rel.y as int, fx as int, 80_000_000, 4_200_000_000_000_000_000);
                lemma_fmul_le(f.z as int, rot.xz as int, 2_100_000_000_000_000_000, 1_000_000);
                lemma_fmul_le(f.z as int, rot.yz as int, 2_100_000_000_000_000_000, 1_000_000);
                lemma_fmul_le(f.z as int, rot.zz as int, 2_100_000_000_000_000_000, 1_000_000);
            }
            let tx = fmul_wide(rel.y, fz) - fmul_wide(rel.z, fy) + fmul_wide(f.z, rot.xz);
            let ty = fmul_wide(rel.z, fx) - fmul_wide(rel.x, fz) + fmul_wide(f.z, rot.yz);
            let tz = fmul_wide(rel.x, fy) - fmul_wide(rel.y, fx) + fmul_wide(f.z, rot.zz);
            afx = afx + (fx as i128);
            afy = afy + (fy as i128);
            afz = afz + (fz as i128);
            atx = atx + tx;
            aty = aty + ty;
            atz = atz + tz;
            i = i + 1;
        }
        proof {
            lemma_fmul_le(THRUST_FX as int, -(body.rot.xz as int), 10_000_000_000, 1_000_000);
            lemma_fmul_le(THRUST_FX as int, -(body.rot.yz as int), 10_000_000_000, 1_000_000);
            lemma_fmul_le(THRUST_FX as int, -(body.rot.zz as int), 10_000_000_000, 1_000_000);
        }
        let thrust_x = fmul(THRUST_FX, -body.rot.xz);
        let thrust_y = fmul(THRUST_FX, -body.rot.yz);
        let thrust_z = fmul(THRUST_FX, -body.rot.zz);
        (
            WideVec3 {
                x: afx + (thrust_x as i128),
                y: afy + (thrust_y as i128),
                z: afz + (thrust_z as i128),
            },
            WideVec3 { x: atx, y: aty, z: atz },
        )
    }
}

/// One force phase: the world centre of mass from the body pose and the
/// local centre of mass, then the net force and torque of the surface set.
pub open spec fn spec_simulate_aerodynamics(
    list: AeroSurfaceList,
    body: Pose,
    local_center_of_mass: FxVec3,
    linvel: FxVec3,
    angvel: FxVec3,
) -> ((int, int, int), (int, int, int)) {
    let cr = spec_rot_apply(body.rot, local_center_of_mass);
    let com = FxVec3 {
        x: (cr.x + body.pos.x) as i64,
        y: (cr.y + body.pos.y) as i64,
        z: (cr.z + body.pos.z) as i64,
    };
    spec_net_forces(list, body, linvel, angvel, com)
}

/// The per-step force phase of one body, to run after the control phase.
pub fn simulate_aerodynamics(
    list: &AeroSurfaceList,
    plane_transform: &Pose,
    local_center_of_mass: FxVec3,
    velocity_linear: FxVec3,
    velocity_angular: FxVec3,
) -> (r: (WideVec3, WideVec3))
    requires
        list.surfaces@.len() <= 1_000_000,
        surfaces_ok(list.surfaces@),
        rot_bounded(plane_transform.rot),
        vec_bounded(plane_transform.pos, 100_000_000_000_000),
        vec_bounded(velocity_linear, 100_000_000),
        vec_bounded(velocity_angular, 2_000_000),
        vec_bounded(local_center_of_mass, 6_000_000),
    ensures
        ({
            let net = spec_simulate_aerodynamics(
                *list,
                *plane_transform,
                local_center_of_mass,
                velocity_linear,
                velocity_angular,
            );
            r.0.x as int == net.0.0 && r.0.y as int == net.0.1 && r.0.z as int == net.0.2
                && r.1.x as int == net.1.0 && r.1.y as int == net.1.1 && r.1.z as int == net.1.2
        }),
{
    let cr = rot_apply(&plane_transform.rot, local_center_of_mass, Ghost(6_000_000));
    let com = FxVec3 {
        x: cr.x + plane_transform.pos.x,
        y: cr.y + plane_transform.pos.y,
        z: cr.z + plane_transform.pos.z,
    };
    list.calculate_forces(plane_transform, velocity_linear, velocity_angular, com)
}

} // verus!

verus! {

/// The coefficient triple of a surface at an angle of attack, with every
/// derived parameter taken from the surface itself.
pub open spec fn spec_coefficients_at(s: AeroSurface, aoa: int) -> (int, int, int) {
    spec_calculate_coefficients(
        s,
        spec_aspect_ratio(s.config),
        aoa,
        spec_corrected_lift_slope(s.config),
        spec_zero_lift_aoa(s),
        spec_stall_high(s),
        spec_stall_low(s),
    )
}

} // verus!

verus! {

/// The outline of a surface in the outer frame: the span-wise ends of the
/// leading edge, of the flap hinge line, and of the trailing edge. A pure
/// read of the surface and its pose, for an external overlay to draw.
#[derive(Clone, Copy, PartialEq, Eq, Structural, Debug)]
pub struct SurfaceGeometry {
    pub leading_left: FxVec3,
    pub leading_right: FxVec3,
    pub hinge_left: FxVec3,
    pub hinge_right: FxVec3,
    pub trailing_left: FxVec3,
    pub trailing_right: FxVec3,
}

/// One outline point: the base plus a right-axis offset.
pub open spec fn spec_geometry_point(base: FxVec3, rot: Rot3, half_span: int, sign: int) -> FxVec3 {
    FxVec3 {
        x: (base.x + sign * fmul_s(rot.xx as int, half_span)) as i64,
        y: (base.y + sign * fmul_s(rot.yx as int, half_span)) as i64,
        z: (base.z + sign * fmul_s(rot.zx as int, half_span)) as i64,
    }
}

/// The leading edge's centre: half a chord forward of the surface origin.
pub open spec fn spec_leading_centre(s: AeroSurface, pose: Pose) -> FxVec3 {
    let half_chord = div_t(s.config.chord as int, 2);
    FxVec3 {
        x: (pose.pos.x - fmul_s(pose.rot.xz as int, half_chord)) as i64,
        y: (pose.pos.y - fmul_s(pose.rot.yz as int, half_chord)) as i64,
        z: (pose.pos.z - fmul_s(pose.rot.zz as int, half_chord)) as i64,
    }
}

/// The hinge line's centre: the fixed part of the chord behind the leading
/// edge.
pub open spec fn spec_hinge_centre(s: AeroSurface, pose: Pose) -> FxVec3 {
    let le = spec_leading_centre(s, pose);
    let fixed_chord = fmul_s(
        s.config.chord as int,
        SCALE as int - s.config.control_surface_fraction as int,
    );
    FxVec3 {
        x: (le.x + fmul_s(pose.rot.xz as int, fixed_chord)) as i64,
        y: (le.y + fmul_s(pose.rot.yz as int, fixed_chord)) as i64,
        z: (le.z + fmul_s(pose.rot.zz as int, fixed_chord)) as i64,
    }
}

/// The trailing edge's centre: the flap's chord behind the hinge, rotated
/// by the deflection angle in the up-back plane.
pub open spec fn spec_trailing_centre(s: AeroSurface, pose: Pose) -> FxVec3 {
    let hinge = spec_hinge_centre(s, pose);
    let flap_chord = fmul_s(s.config.chord as int, s.config.control_surface_fraction as int);
    let sd = sin_s(s.control_surface_angle as int);
    let cd = cos_s(s.control_surface_angle as int);
    FxVec3 {
        x: (hinge.x + fmul_s(
            fmul_s(pose.rot.xy as int, -sd) + fmul_s(pose.rot.xz as int, cd),
            flap_chord,
        )) as i64,
        y: (hinge.y + fmul_s(
            fmul_s(pose.rot.yy as int, -sd) + fmul_s(pose.rot.yz as int, cd),
            flap_chord,
        )) as i64,
        z: (hinge.z + fmul_s(
            fmul_s(pose.rot.zy as int, -sd) + fmul_s(pose.rot.zz as int, cd),
            flap_chord,
        )) as i64,
    }
}

/// The six outline points of `surface_geometry`.
pub open spec fn spec_surface_geometry(s: AeroSurface, pose: Pose) -> SurfaceGeometry {
    let half_span = div_t(s.config.span as int, 2);
    let le = spec_leading_centre(s, pose);
    let hinge = spec_hinge_centre(s, pose);
    let trailing = spec_trailing_centre(s, pose);
    SurfaceGeometry {
        leading_left: spec_geometry_point(le, pose.rot, half_span, -1),
        leading_right: spec_geometry_point(le, pose.rot, half_span, 1),
        hinge_left: spec_geometry_point(hinge, pose.rot, half_span, -1),
        hinge_right: spec_geometry_point(hinge, pose.rot, half_span, 1),
        trailing_left: spec_geometry_point(trailing, pose.rot, half_span, -1),
        trailing_right: spec_geometry_point(trailing, pose.rot, half_span, 1),
    }
}

/// The surface outline in the frame of the given pose (compose the body
/// pose with the attachment pose for world coordinates).
#[verifier::rlimit(60)]
pub fn surface_geometry(surface: &AeroSurface, pose: &Pose) -> (r: SurfaceGeometry)
    requires
        surface.valid(),
        rot_bounded(pose.rot),
        vec_bounded(pose.pos, 100_000_000_000_000),
    ensures
        r == spec_surface_geometry(*surface, *pose),
{
    let half_chord = div_i64(surface.config.chord, 2);
    let half_span = div_i64(surface.config.span, 2);
    proof {
        lemma_div_t_le(surface.config.chord as int, 2, 9_000_000);
        lemma_div_t_le(surface.config.span as int, 2, 20_000_000);
        lemma_fmul_le(pose.rot.xz as int, half_chord as int, 1_000_000, 4_500_000);
        lemma_fmul_le(pose.rot.yz as int, half_chord as int, 1_000_000, 4_500_000);
        lemma_fmul_le(pose.rot.zz as int, half_chord as int, 1_000_000, 4_500_000);
    }
    let le = FxVec3 {
        x: pose.pos.x - fmul(pose.rot.xz, half_chord),
        y: pose.pos.y - fmul(pose.rot.yz, half_chord),
        z: pose.pos.z - fmul(pose.rot.zz, half_chord),
    };
    proof {
        lemma_fmul_le(
            surface.config.chord as int,
            (SCALE as int) - (surface.config.control_surface_fraction as int),
            9_000_000,
            1_000_000,
        );
    }
    let fixed_chord = fmul(surface.config.chord, SCALE - surface.config.control_surface_fraction);
    proof {
        lemma_fmul_le(pose.rot.xz as int, fixed_chord as int, 1_000_000, 9_000_000);
        lemma_fmul_le(pose.rot.yz as int, fixed_chord as int, 1_000_000, 9_000_000);
        lemma_fmul_le(pose.rot.zz as int, fixed_chord as int, 1_000_000, 9_000_000);
    }
    let hinge = FxVec3 {
        x: le.x + fmul(pose.rot.xz, fixed_chord),
        y: le.y + fmul(pose.rot.yz, fixed_chord),
        z: le.z + fmul(pose.rot.zz, fixed_chord),
    };
    proof {
        lemma_fmul_le(
            surface.config.chord as int,
            surface.config.control_surface_fraction as int,
            9_000_000,
            1_000_000,
        );
    }
    let flap_chord = fmul(surface.config.chord, surface.config.control_surface_fraction);
    let sd = sin_fx(surface.control_surface_angle);
    let cd = cos_fx(surface.control_surface_angle);
    proof {
        lemma_fmul_le(pose.rot.xy as int, -(sd as int), 1_000_000, 1_000_000);
        lemma_fmul_le(pose.rot.yy as int, -(sd as int), 1_000_000, 1_000_000);
        lemma_fmul_le(pose.rot.zy as int, -(sd as int), 1_000_000, 1_000_000);
        lemma_fmul_le(pose.rot.xz as int, cd as int, 1_000_000, 1_000_000);
        lemma_fmul_le(pose.rot.yz as int, cd as int, 1_000_000, 1_000_000);
        lemma_fmul_le(pose.rot.zz as int, cd as int, 1_000_000, 1_000_000);
        lemma_fmul_le(
            fmul_s(pose.rot.xy as int, -(sd as int)) + fmul_s(pose.rot.xz as int, cd as int),
            flap_chord as int,
            2_000_000,
            9_000_000,
        );
        lemma_fmul_le(
            fmul_s(pose.rot.yy as int, -(sd as int)) + fmul_s(pose.rot.yz as int, cd as int),
            flap_chord as int,
            2_000_000,
            9_000_000,
        );
        lemma_fmul_le(
            fmul_s(pose.rot.zy as int, -(sd as int)) + fmul_s(pose.rot.zz as int, cd as int),
            flap_chord as int,
            2_000_000,
            9_000_000,
        );
    }
    let trailing = FxVec3 {
        x: hinge.x + fmul(fmul(pose.rot.xy, -sd) + fmul(pose.rot.xz, cd), flap_chord),
        y: hinge.y + fmul(fmul(pose.rot.yy, -sd) + fmul(pose.rot.yz, cd), flap_chord),
        z: hinge.z + fmul(fmul(pose.rot.zy, -sd) + fmul(pose.rot.zz, cd), flap_chord),
    };
    proof {
        lemma_fmul_le(pose.rot.xx as int, half_span as int, 1_000_000, 10_000_000);
        lemma_fmul_le(pose.rot.yx as int, half_span as int, 1_000_000, 10_000_000);
        lemma_fmul_le(pose.rot.zx as int, half_span as int, 1_000_000, 10_000_000);
    }
    let sx = fmul(pose.rot.xx, half_span);
    let sy = fmul(pose.rot.yx, half_span);
    let sz = fmul(pose.rot.zx, half_span);
    SurfaceGeometry {
        leading_left: FxVec3 { x: le.x - sx, y: le.y - sy, z: le.z - sz },
        leading_right: FxVec3 { x: le.x + sx, y: le.y + sy, z: le.z + sz },
        hinge_left: FxVec3 { x: hinge.x - sx, y: hinge.y - sy, z: hinge.z - sz },
        hinge_right: FxVec3 { x: hinge.x + sx, y: hinge.y + sy, z: hinge.z + sz },
        trailing_left: FxVec3 { x: trailing.x - sx, y: trailing.y - sy, z: trailing.z - sz },
        trailing_right: FxVec3 { x: trailing.x + sx, y: trailing.y + sy, z: trailing.z + sz },
    }
}

} // verus!

verus! {

/// One instrument reading of the flight metrics.
#[derive(Clone, Copy, PartialEq, Eq, Structural, Debug)]
pub enum FlightMetric {
    Airspeed,
    VerticalSpeed,
    Height,
}

/// The instrument readings of one body, micro-units.
#[derive(Clone, Copy, PartialEq, Eq, Structural, Debug)]
pub struct FlightMetrics {
    pub airspeed: i64,
    pub vertical_speed: i64,
    pub height: i64,
}

impl FlightMetrics {
    /// One reading by name.
    pub fn get(&self, metric: FlightMetric) -> (r: i64)
        ensures
            metric is Airspeed ==> r == self.airspeed,
            metric is VerticalSpeed ==> r == self.vertical_speed,
            metric is Height ==> r == self.height,
    {
        match metric {
            FlightMetric::Airspeed => self.airspeed,
            FlightMetric::VerticalSpeed => self.vertical_speed,
            FlightMetric::Height => self.height,
        }
    }
}

/// The airspeed as the velocity component along the body's forward axis,
/// the vertical speed, and the height above the ground plane.
pub open spec fn spec_update_flight_metrics(body: Pose, linvel: FxVec3) -> FlightMetrics {
    FlightMetrics {
        airspeed: (fmul_s(linvel.x as int, -(body.rot.xz as int)) + fmul_s(
            linvel.y as int,
            -(body.rot.yz as int),
        ) + fmul_s(linvel.z as int, -(body.rot.zz as int))) as i64,
        vertical_speed: linvel.y,
        height: body.pos.y,
    }
}

/// Refresh the flight metrics from the body's pose and linear velocity,
/// for an external instrument display to read.
pub fn update_flight_metrics(body: &Pose, linvel: FxVec3) -> (r: FlightMetrics)
    requires
        rot_bounded(body.rot),
        vec_bounded(linvel, 2_000_000_000),
    ensures
        r == spec_update_flight_metrics(*body, linvel),
{
    proof {
        lemma_fmul_le(linvel.x as int, -(body.rot.xz as int), 2_000_000_000, 1_000_000);
        lemma_fmul_le(linvel.y as int, -(body.rot.yz as int), 2_000_000_000, 1_000_000);
        lemma_fmul_le(linvel.z as int, -(body.rot.zz as int), 2_000_000_000, 1_000_000);
    }
    FlightMetrics {
        airspeed: fmul(linvel.x, -body.rot.xz) + fmul(linvel.y, -body.rot.yz) + fmul(
            linvel.z,
            -body.rot.zz,
        ),
        vertical_speed: linvel.y,
        height: body.pos.y,
    }
}

} // verus!
