use airplane::fixed::{SCALE, fmul, fdiv, fmul_wide, div_i64, div_i128, clamp_i64, lerp_clamped};
use airplane::trig::{
    PI_FX, HALF_PI_FX, QUARTER_PI_FX, sin_fx, cos_fx, atan2_fx, exp_neg_fx, isqrt_u64,
};
use airplane::vec3::{FxVec3, Rot3, normalize_dir, rot_mul};

#[test]
fn fixed_point_product_truncates_toward_zero() {
    assert_eq!(fmul(2_000_000, 3_000_000), 6_000_000);
    assert_eq!(fmul(1_500_000, 1), 1);
    assert_eq!(fmul(-1_500_000, 1), -1);
    assert_eq!(fmul(1, 1), 0);
    assert_eq!(fdiv(1_000_000, 3_000_000), 333_333);
    assert_eq!(fdiv(-1_000_000, 3_000_000), -333_333);
    assert_eq!(fdiv(1_000_000, -3_000_000), -333_333);
}

#[test]
fn clamp_and_lerp_behave() {
    assert_eq!(clamp_i64(5, 0, 10), 5);
    assert_eq!(clamp_i64(-5, 0, 10), 0);
    assert_eq!(clamp_i64(15, 0, 10), 10);
    assert_eq!(lerp_clamped(0, 10_000_000, 500_000), 5_000_000);
    assert_eq!(lerp_clamped(0, 10_000_000, -500_000), 0);
    assert_eq!(lerp_clamped(0, 10_000_000, 2_000_000), 10_000_000);
    assert_eq!(lerp_clamped(10_000_000, 0, 250_000), 7_500_000);
}

#[test]
fn sine_matches_reference_and_is_odd() {
    assert_eq!(sin_fx(0), 0);
    assert!((sin_fx(HALF_PI_FX) - SCALE).abs() <= 3);
    assert!((sin_fx(523_599) - 500_000).abs() <= 3); // sin(pi/6) = 1/2
    assert!(sin_fx(PI_FX).abs() <= 3);
    assert_eq!(sin_fx(-777_777), -sin_fx(777_777));
    assert_eq!(sin_fx(-3_000_000), -sin_fx(3_000_000));
    let x = 1_234_567i64;
    let reference = (x as f64 / 1e6).sin();
    assert!((sin_fx(x) as f64 / 1e6 - reference).abs() < 1e-4);
}

#[test]
fn cosine_matches_reference_and_is_even() {
    assert_eq!(cos_fx(0), SCALE);
    assert!(cos_fx(HALF_PI_FX).abs() <= 3);
    assert!((cos_fx(PI_FX) + SCALE).abs() <= 3);
    assert_eq!(cos_fx(-777_777), cos_fx(777_777));
    let x = 2_345_678i64;
    let reference = (x as f64 / 1e6).cos();
    assert!((cos_fx(x) as f64 / 1e6 - reference).abs() < 1e-4);
}

#[test]
fn arctangent_matches_reference() {
    assert_eq!(atan2_fx(0, 0), 0);
    assert_eq!(atan2_fx(0, 1_000_000), 0);
    assert_eq!(atan2_fx(0, -1_000_000), PI_FX);
    assert_eq!(atan2_fx(1_000_000, 0), HALF_PI_FX);
    assert_eq!(atan2_fx(-1_000_000, 0), -HALF_PI_FX);
    assert!((atan2_fx(1_000_000, 1_000_000) - QUARTER_PI_FX).abs() <= 3);
    let reference = 1.0f64.atan2(50.0);
    assert!((atan2_fx(1_000_000, 50_000_000) as f64 / 1e6 - reference).abs() < 1e-4);
    // odd in the first argument, invariant under common scaling
    assert_eq!(atan2_fx(-7_000_000, 9_000_000), -atan2_fx(7_000_000, 9_000_000));
    assert_eq!(atan2_fx(14_000_000, 18_000_000), atan2_fx(7_000_000, 9_000_000));
}

#[test]
fn exponential_decay_matches_reference() {
    assert_eq!(exp_neg_fx(0), SCALE);
    assert!((exp_neg_fx(1_000_000) - 367_879).abs() <= 3);
    assert!((exp_neg_fx(8_500_000) as f64 / 1e6 - (-8.5f64).exp()).abs() < 1e-4);
    assert_eq!(exp_neg_fx(30_000_000), 0);
}

#[test]
fn integer_square_root_is_exact() {
    assert_eq!(isqrt_u64(0), 0);
    assert_eq!(isqrt_u64(1), 1);
    assert_eq!(isqrt_u64(999_999), 999);
    assert_eq!(isqrt_u64(1_000_000_000_000), 1_000_000);
    assert_eq!(isqrt_u64(u64::MAX), 4_294_967_295);
}

#[test]
fn normalize_handles_degenerate_direction() {
    let zero = normalize_dir(FxVec3 { x: 0, y: 0, z: 0 });
    assert_eq!(zero, FxVec3 { x: 0, y: 0, z: 0 });
    let unit = normalize_dir(FxVec3 { x: 0, y: 0, z: 50_000_000 });
    assert_eq!(unit, FxVec3 { x: 0, y: 0, z: 1_000_000 });
    let diag = normalize_dir(FxVec3 { x: 3_000_000, y: 0, z: 4_000_000 });
    assert_eq!(diag, FxVec3 { x: 600_000, y: 0, z: 800_000 });
}

#[test]
fn wide_product_and_exact_division() {
    assert_eq!(fmul_wide(4_000_000_000_000_000_000, 500_000), 2_000_000_000_000_000_000i128);
    assert_eq!(fmul_wide(-4_000_000_000_000_000_000, 500_000), -2_000_000_000_000_000_000i128);
    assert_eq!(div_i64(-7, 2), -3);
    assert_eq!(div_i64(7, 2), 3);
    assert_eq!(div_i128(-7, -2), 3);
}

#[test]
fn rotation_composition_is_matrix_product() {
    // two quarter turns about the vertical axis give a half turn
    let quarter = Rot3 {
        xx: 0, xy: 0, xz: 1_000_000,
        yx: 0, yy: 1_000_000, yz: 0,
        zx: -1_000_000, zy: 0, zz: 0,
    };
    let half = rot_mul(&quarter, &quarter);
    assert_eq!(half.xx, -1_000_000);
    assert_eq!(half.yy, 1_000_000);
    assert_eq!(half.zz, -1_000_000);
    assert_eq!(half.xz, 0);
    assert_eq!(half.zx, 0);
}
