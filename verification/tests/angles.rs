//! Checks of the fixed-point scalar and angle primitives on concrete
//! values.

use rusty_metro::utils::fixed::{clamp, div_floor, fx_mul, isqrt, HALF_PI, ONE, PI, TAU};
use rusty_metro::utils::trig::{atan2_fp, cos_fp, sin_fp};
use rusty_metro::utils::vec2::Vec2;
use rusty_metro::utils::{angle_between, lerp_angle, normalize_angle};

#[test]
fn normalize_angle_is_identity_in_range() {
    assert_eq!(normalize_angle(0), 0);
    assert_eq!(normalize_angle(PI), PI);
    assert_eq!(normalize_angle(TAU - 1), TAU - 1);
}

#[test]
fn normalize_angle_folds_whole_turns() {
    assert_eq!(normalize_angle(TAU), 0);
    assert_eq!(normalize_angle(TAU + 5), 5);
    assert_eq!(normalize_angle(-1), TAU - 1);
    assert_eq!(normalize_angle(-TAU - 7), TAU - 7);
}

#[test]
fn lerp_angle_hits_midpoint() {
    // Halfway from angle zero to a half turn is a quarter turn.
    assert_eq!(lerp_angle(0, PI, 1024, false), HALF_PI);
    // The ends are hit exactly.
    assert_eq!(lerp_angle(0, PI, 0, false), 0);
    assert_eq!(lerp_angle(0, PI, ONE, false), PI);
}

#[test]
fn lerp_angle_takes_larger_sweep_when_asked() {
    // From 0 to a quarter turn the long way: the start is lifted a full
    // turn and interpolation runs downward through the back of the circle.
    let r = lerp_angle(0, HALF_PI, 1024, true);
    assert_eq!(r, 8042);
}

#[test]
fn angle_between_takes_shorter_way() {
    assert_eq!(angle_between(0, 3000), 3000);
    assert_eq!(angle_between(3000, 0), 3000);
    // More than a half turn apart: measured the short way around.
    assert_eq!(angle_between(0, 10000), TAU - 10000);
    assert_eq!(angle_between(0, PI), PI);
}

#[test]
fn sine_and_cosine_key_points() {
    assert_eq!(sin_fp(0), 0);
    assert_eq!(sin_fp(PI), 0);
    let peak = sin_fp(HALF_PI);
    assert!(peak > 2000 && peak <= ONE, "sine peak {peak}");
    let trough = sin_fp(PI + HALF_PI);
    assert!(trough < -2000 && trough >= -ONE, "sine trough {trough}");
    let c = cos_fp(0);
    assert!(c > 2000 && c <= ONE, "cosine at zero {c}");
}

#[test]
fn atan2_on_the_axes() {
    assert_eq!(atan2_fp(0, 2048), 0);
    assert_eq!(atan2_fp(2048, 0), HALF_PI);
    assert_eq!(atan2_fp(0, -2048), PI);
    assert_eq!(atan2_fp(-2048, 0), TAU - HALF_PI);
    // The zero vector maps to angle zero.
    assert_eq!(atan2_fp(0, 0), 0);
}

#[test]
fn vec2_angle_matches_atan2() {
    let v = Vec2::new(0, 5000);
    assert_eq!(v.angle(), HALF_PI);
    let diag = Vec2::new(3000, 3000);
    let a = diag.angle();
    // A diagonal heads close to an eighth of a turn.
    assert!((a - 1608).abs() < 40, "diagonal angle {a}");
}

#[test]
fn isqrt_exact_values() {
    assert_eq!(isqrt(0), 0);
    assert_eq!(isqrt(1), 1);
    assert_eq!(isqrt(15), 3);
    assert_eq!(isqrt(16), 4);
    assert_eq!(isqrt(1 << 40), 1 << 20);
    assert_eq!(isqrt(i64::MAX), 3037000499);
}

#[test]
fn vec2_length_is_euclidean() {
    assert_eq!(Vec2::new(3000, 4000).length(), 5000);
    assert_eq!(Vec2::new(-3000, 4000).length(), 5000);
    assert_eq!(Vec2::new(0, 0).length(), 0);
}

#[test]
fn vec2_normalize_has_unit_magnitude() {
    let n = Vec2::new(9000, 0).normalize();
    assert_eq!(n.x, ONE);
    assert_eq!(n.y, 0);
    let d = Vec2::new(300, -400).normalize();
    let mag = d.length();
    assert!((mag - ONE).abs() <= 2, "normalized magnitude {mag}");
}

#[test]
fn div_floor_rounds_toward_negative_infinity() {
    assert_eq!(div_floor(7, 2), 3);
    assert_eq!(div_floor(-7, 2), -4);
    assert_eq!(div_floor(-4, 2), -2);
    assert_eq!(div_floor(0, 5), 0);
}

#[test]
fn fx_mul_scales_products() {
    assert_eq!(fx_mul(ONE, ONE), ONE);
    assert_eq!(fx_mul(1024, 1024), 512);
    assert_eq!(fx_mul(3, -ONE), -3);
    assert_eq!(fx_mul(0, 12345), 0);
}

#[test]
fn clamp_forces_into_interval() {
    assert_eq!(clamp(5, 0, 10), 5);
    assert_eq!(clamp(-5, 0, 10), 0);
    assert_eq!(clamp(15, 0, 10), 10);
}
