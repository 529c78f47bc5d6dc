//! The non-zero and normalized marker wrappers, and default arguments.

use raytracer::camera::Args;
use raytracer::fx::FX_ONE;
use raytracer::utils::{NonZero, Zero};
use raytracer::vec3::Vec3;

#[test]
fn default_arguments() {
    let args = Args::default();
    assert_eq!(args.width, 0);
    assert_eq!(args.height, 0);
    assert_eq!(args.samples_per_frame, 1);
    assert_eq!(args.ray_depth, 50);
    // an uncapped accumulation weight: the fraction one
    assert_eq!((args.max_weight_num, args.max_weight_den), (1, 1));
}

#[test]
fn zero_vector_is_refused() {
    assert_eq!(NonZero::try_new(Vec3::new(0, 0, 0)).unwrap_err(), Zero);
}

#[test]
fn non_zero_vector_is_wrapped_unchanged() {
    let v = Vec3::new(1, -2, 3);
    let nz = NonZero::try_new(v).unwrap();
    assert_eq!(nz.get(), v);
    assert_eq!(nz.as_ref().copied().get(), v);
    assert_eq!(nz.as_ref().cloned().get(), v);
}

#[test]
fn normalize_scales_to_unit_length() {
    let v = Vec3::new(3 * FX_ONE, 0, 0);
    let n = NonZero::try_new(v).unwrap().normalize();
    assert_eq!(n.get(), Vec3::new(FX_ONE, 0, 0));
    assert_eq!(n.as_ref().copied().get(), Vec3::new(FX_ONE, 0, 0));
    assert_eq!(n.into_non_zero().get(), Vec3::new(FX_ONE, 0, 0));
}

#[test]
fn negation_keeps_the_markers() {
    let v = Vec3::new(FX_ONE, -2, 0);
    let nz = NonZero::try_new(v).unwrap();
    assert_eq!(nz.neg().get(), Vec3::new(-FX_ONE, 2, 0));
    let n = NonZero::try_new(Vec3::new(2 * FX_ONE, 0, 0)).unwrap().normalize();
    assert_eq!(n.neg().get(), Vec3::new(-FX_ONE, 0, 0));
}

#[test]
fn normalize_a_pythagorean_direction() {
    // (3,4,0) has length 5 exactly
    let v = Vec3::new(3 * FX_ONE, 4 * FX_ONE, 0);
    let n = NonZero::try_new(v).unwrap().normalize();
    let got = n.get();
    assert_eq!(got, Vec3::new(39321, 52428, 0));
    // 0.6 and 0.8 as Q16.16 floors
    assert_eq!(got.x, 3 * FX_ONE * FX_ONE / (5 * FX_ONE));
    assert_eq!(got.y, 4 * FX_ONE * FX_ONE / (5 * FX_ONE));
}
