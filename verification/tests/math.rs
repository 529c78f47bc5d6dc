//! Fixed-point scalar and vector arithmetic, and sRGB encoding.

use raytracer::color::srgb_byte;
use raytracer::fx::{fx_add, fx_clamp, fx_div, fx_mul, fx_neg, fx_sqrt, fx_sub, FX_MAX, FX_ONE};
use raytracer::vec3::Vec3;

#[test]
fn mul_is_floor_scaled_product() {
    assert_eq!(fx_mul(FX_ONE, FX_ONE), FX_ONE);
    assert_eq!(fx_mul(3 * FX_ONE, 2 * FX_ONE), 6 * FX_ONE);
    // 0.5 * 0.5 = 0.25 exactly
    assert_eq!(fx_mul(32768, 32768), 16384);
    // floor rounding toward negative infinity
    assert_eq!(fx_mul(-1, 1), -1);
    assert_eq!(fx_mul(1, 1), 0);
}

#[test]
fn mul_saturates_at_range_bound() {
    assert_eq!(fx_mul(FX_MAX, FX_MAX), FX_MAX);
    assert_eq!(fx_mul(FX_MAX, -FX_MAX), -FX_MAX);
    assert_eq!(fx_add(FX_MAX, FX_MAX), FX_MAX);
    assert_eq!(fx_sub(-FX_MAX, FX_MAX), -FX_MAX);
}

#[test]
fn div_is_floor_and_total() {
    assert_eq!(fx_div(FX_ONE, 2 * FX_ONE), 32768);
    assert_eq!(fx_div(3 * FX_ONE, 2 * FX_ONE), 98304);
    // division by zero or a negative divisor yields zero by convention
    assert_eq!(fx_div(FX_ONE, 0), 0);
    assert_eq!(fx_div(FX_ONE, -3), 0);
    // floor toward negative infinity
    assert_eq!(fx_div(-FX_ONE, 3 * FX_ONE), -21846);
}

#[test]
fn sqrt_exact_on_perfect_squares() {
    assert_eq!(fx_sqrt(FX_ONE), FX_ONE);
    assert_eq!(fx_sqrt(4 * FX_ONE), 2 * FX_ONE);
    // sqrt(0.25) = 0.5 exactly
    assert_eq!(fx_sqrt(16384), 32768);
    assert_eq!(fx_sqrt(0), 0);
    assert_eq!(fx_sqrt(-7), 0);
}

#[test]
fn neg_and_clamp() {
    assert_eq!(fx_neg(5), -5);
    assert_eq!(fx_clamp(70000, 0, FX_ONE), FX_ONE);
    assert_eq!(fx_clamp(-3, 0, FX_ONE), 0);
    assert_eq!(fx_clamp(123, 0, FX_ONE), 123);
}

#[test]
fn vector_ops_componentwise() {
    let a = Vec3::new(FX_ONE, 2 * FX_ONE, -FX_ONE);
    let b = Vec3::new(3 * FX_ONE, -FX_ONE, 32768);
    assert_eq!(a.add(b), Vec3::new(4 * FX_ONE, FX_ONE, -32768));
    assert_eq!(a.sub(b), Vec3::new(-2 * FX_ONE, 3 * FX_ONE, -98304));
    assert_eq!(a.neg(), Vec3::new(-FX_ONE, -2 * FX_ONE, FX_ONE));
    assert_eq!(a.scale(2 * FX_ONE), Vec3::new(2 * FX_ONE, 4 * FX_ONE, -2 * FX_ONE));
    assert_eq!(a.mul(b), Vec3::new(3 * FX_ONE, -2 * FX_ONE, -32768));
    // 1*3 + 2*(-1) + (-1)*0.5 = 0.5
    assert_eq!(a.dot(b), 32768);
}

#[test]
fn length_of_axis_multiple_is_exact() {
    let v = Vec3::new(3 * FX_ONE, 0, 0);
    assert_eq!(v.length_squared(), 9 * FX_ONE);
    assert_eq!(v.length(), 3 * FX_ONE);
    // a 3-4-5 triple
    let v = Vec3::new(3 * FX_ONE, 4 * FX_ONE, 0);
    assert_eq!(v.length(), 5 * FX_ONE);
}

#[test]
fn lerp_endpoints_and_midpoint() {
    let a = Vec3::new(0, 0, 0);
    let b = Vec3::new(FX_ONE, 2 * FX_ONE, -FX_ONE);
    assert_eq!(a.lerp(b, 0), a);
    assert_eq!(a.lerp(b, FX_ONE), b);
    assert_eq!(a.lerp(b, 32768), Vec3::new(32768, FX_ONE, -32768));
}

#[test]
fn srgb_known_values() {
    assert_eq!(srgb_byte(0), 0);
    assert_eq!(srgb_byte(-5), 0);
    // the linear-segment cutoff
    assert_eq!(srgb_byte(205), 10);
    assert_eq!(srgb_byte(206), 10);
    // quarter, half, three quarters, one
    assert_eq!(srgb_byte(16384), 137);
    assert_eq!(srgb_byte(32768), 188);
    assert_eq!(srgb_byte(49152), 225);
    assert_eq!(srgb_byte(FX_ONE), 255);
    // values over one clamp to full brightness
    assert_eq!(srgb_byte(100000), 255);
}

#[test]
fn srgb_tracks_the_standard_transform() {
    for c in (0..=65536i64).step_by(97) {
        let cr = (c as f64) / 65536.0;
        let s = if cr <= 0.0031308 { 12.92 * cr } else { 1.055 * cr.powf(1.0 / 2.4) - 0.055 };
        let expected = ((s * 256.0).clamp(0.0, 255.0)) as i64;
        let got = srgb_byte(c) as i64;
        assert!(
            (got - expected).abs() <= 1,
            "channel {} encoded to {} but the standard transform gives {}",
            c,
            got,
            expected
        );
    }
}

#[test]
fn srgb_is_monotone() {
    let mut prev = 0u8;
    for c in 0..=65536i64 {
        let b = srgb_byte(c);
        assert!(b >= prev);
        prev = b;
    }
}
