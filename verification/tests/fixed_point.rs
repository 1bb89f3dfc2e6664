//! Exact-value tests for the fixed-point scalar and vector layers.

use raytrace::fixed::{Fx, SCALE};
use raytrace::vec3::Vec3;

fn fx(raw: i64) -> Fx {
    Fx::from_raw(raw)
}

#[test]
fn scalar_add_sub_exact() {
    assert_eq!(fx(65536).add(fx(32768)).raw, 98304);
    assert_eq!(fx(65536).sub(fx(98304)).raw, -32768);
    assert_eq!(Fx::from_u32(3).raw, 3 * SCALE);
}

#[test]
fn scalar_add_saturates() {
    assert_eq!(fx(i64::MAX).add(fx(1)).raw, i64::MAX);
    assert_eq!(fx(i64::MIN).sub(fx(1)).raw, i64::MIN);
    assert_eq!(fx(i64::MIN).neg().raw, i64::MAX);
}

#[test]
fn scalar_mul_truncates_toward_zero() {
    // 1.5 * -3.0 == -4.5 exactly.
    assert_eq!(fx(98304).mul(fx(-196608)).raw, -294912);
    // Tiny products truncate toward zero from both sides.
    assert_eq!(fx(3).mul(fx(3)).raw, 0);
    assert_eq!(fx(-3).mul(fx(3)).raw, 0);
}

#[test]
fn scalar_div_exact_and_by_zero() {
    assert_eq!(fx(196608).div(fx(131072)).raw, 98304);  // 3 / 2 == 1.5
    assert_eq!(fx(-131072).div(fx(-131072)).raw, 65536);
    assert_eq!(fx(5).div(Fx::zero()).raw, i64::MAX);
    assert_eq!(fx(-5).div(Fx::zero()).raw, i64::MIN);
    assert_eq!(Fx::zero().div(Fx::zero()).raw, 0);
}

#[test]
fn scalar_sqrt_values() {
    assert_eq!(fx(4 * SCALE).sqrt().raw, 2 * SCALE);
    assert_eq!(fx(SCALE).sqrt().raw, SCALE);
    // sqrt(2) truncates: floor(sqrt(2) * 65536) == 92681.
    assert_eq!(fx(2 * SCALE).sqrt().raw, 92681);
    assert_eq!(fx(-65536).sqrt().raw, 0);
    assert_eq!(Fx::zero().sqrt().raw, 0);
}

#[test]
fn scalar_min_max_abs() {
    assert_eq!(fx(-5).min(fx(3)).raw, -5);
    assert_eq!(fx(-5).max(fx(3)).raw, 3);
    assert_eq!(fx(-5).abs().raw, 5);
    assert!(fx(2).lt(fx(3)));
    assert!(fx(3).le(fx(3)));
}

#[test]
fn vector_dot_and_cross() {
    let a = Vec3::new(fx(SCALE), fx(2 * SCALE), fx(3 * SCALE));
    let b = Vec3::new(fx(4 * SCALE), fx(5 * SCALE), fx(6 * SCALE));
    // 1*4 + 2*5 + 3*6 == 32.
    assert_eq!(a.dot(b).raw, 32 * SCALE);
    // (1,2,3) x (4,5,6) == (-3, 6, -3).
    let c = a.cross(b);
    assert_eq!(c.x.raw, -3 * SCALE);
    assert_eq!(c.y.raw, 6 * SCALE);
    assert_eq!(c.z.raw, -3 * SCALE);
}

#[test]
fn vector_length_and_normalize() {
    let v = Vec3::new(fx(3 * SCALE), fx(4 * SCALE), fx(0));
    assert_eq!(v.length().raw, 5 * SCALE);
    let u = v.normalized();
    // 0.6 and 0.8 truncate to 39321 and 52428.
    assert_eq!(u.x.raw, 39321);
    assert_eq!(u.y.raw, 52428);
    assert_eq!(u.z.raw, 0);
}

#[test]
fn vector_near_zero_is_exact_zero() {
    assert!(Vec3::zero().near_zero());
    assert!(!Vec3::new(fx(1), fx(0), fx(0)).near_zero());
}

#[test]
fn reflect_involution_on_exact_values() {
    // With an axis-aligned unit normal the fixed-point arithmetic is
    // exact, so reflecting twice returns the original vector.
    let v = Vec3::new(fx(SCALE), fx(2 * SCALE), fx(3 * SCALE));
    let n = Vec3::new(fx(0), fx(0), fx(SCALE));
    let r = v.reflect(n);
    assert_eq!(r.x.raw, SCALE);
    assert_eq!(r.y.raw, 2 * SCALE);
    assert_eq!(r.z.raw, -3 * SCALE);
    let rr = r.reflect(n);
    assert_eq!(rr, v);
}

#[test]
fn refract_straight_through() {
    // Head-on incidence with a ratio of one passes straight through, up
    // to the parallel component's truncation.
    let v = Vec3::new(fx(0), fx(0), fx(-SCALE));
    let n = Vec3::new(fx(0), fx(0), fx(SCALE));
    let r = v.refract(n, fx(SCALE));
    // cos == 1, perpendicular part is zero, parallel is -sqrt(1)*n.
    assert_eq!(r.x.raw, 0);
    assert_eq!(r.y.raw, 0);
    assert_eq!(r.z.raw, -SCALE);
}
