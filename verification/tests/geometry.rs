//! Sphere intersection, the closest-hit scan, and camera setup.

use raytracer::camera::{resolve_size, Camera, MAX_DIMENSION};
use raytracer::fx::FX_ONE;
use raytracer::geom::{hit_collection, hit_sphere, Face, Primitive, Ray, Sphere};
use raytracer::materials::{Lambertian, MaterialEnum};
use raytracer::vec3::Vec3;

fn test_material() -> MaterialEnum {
    MaterialEnum::Lambertian(Lambertian { albedo: Vec3::new(32768, 32768, 32768) })
}

fn unit_sphere_at_minus_z() -> Sphere {
    Sphere {
        center: Vec3::new(0, 0, -FX_ONE),
        radius: 32768,
        material: test_material(),
    }
}

#[test]
fn hit_straight_ahead_at_half() {
    // a sphere centered at (0,0,-1) with radius 0.5, a ray from the
    // origin along (0,0,-1): the hit is at t = 0.5 with normal (0,0,1)
    let s = unit_sphere_at_minus_z();
    let ray = Ray::new(Vec3::new(0, 0, 0), Vec3::new(0, 0, -FX_ONE));
    let hit = s.hit_with_ray(ray, 66, i64::MAX / 2).expect("the ray points at the sphere");
    assert_eq!(hit.t, 32768);
    assert_eq!(hit.at, Vec3::new(0, 0, -32768));
    assert_eq!(hit.normal, Vec3::new(0, 0, FX_ONE));
    assert_eq!(hit.face, Face::Front);
}

#[test]
fn miss_sideways() {
    // the same sphere, a ray along (1,0,0): no hit
    let s = unit_sphere_at_minus_z();
    let ray = Ray::new(Vec3::new(0, 0, 0), Vec3::new(FX_ONE, 0, 0));
    assert!(s.hit_with_ray(ray, 66, i64::MAX / 2).is_none());
}

#[test]
fn inside_the_sphere_takes_the_far_root() {
    // from the center the near root is behind the valid range; the far
    // root at t = radius is used, and the face is marked back
    let s = unit_sphere_at_minus_z();
    let ray = Ray::new(Vec3::new(0, 0, -FX_ONE), Vec3::new(0, 0, -FX_ONE));
    let hit = s.hit_with_ray(ray, 66, i64::MAX / 2).expect("the ray exits the sphere");
    assert_eq!(hit.t, 32768);
    assert_eq!(hit.face, Face::Back);
    assert_eq!(hit.normal, Vec3::new(0, 0, FX_ONE));
}

#[test]
fn range_excludes_the_near_hit() {
    let s = unit_sphere_at_minus_z();
    let ray = Ray::new(Vec3::new(0, 0, 0), Vec3::new(0, 0, -FX_ONE));
    // the upper bound is exclusive: a hit exactly at it is refused and
    // the far root (t = 1.5) is out of range too
    assert!(s.hit_with_ray(ray, 66, 32768).is_none());
}

#[test]
fn closest_hit_wins_regardless_of_order() {
    let near = Primitive::Sphere(Sphere {
        center: Vec3::new(0, 0, -FX_ONE),
        radius: 32768,
        material: test_material(),
    });
    let far = Primitive::Sphere(Sphere {
        center: Vec3::new(0, 0, -3 * FX_ONE),
        radius: 32768,
        material: test_material(),
    });
    let ray = Ray::new(Vec3::new(0, 0, 0), Vec3::new(0, 0, -FX_ONE));
    let a = hit_collection(&vec![near, far], ray, 66, i64::MAX / 2).unwrap();
    let b = hit_collection(&vec![far, near], ray, 66, i64::MAX / 2).unwrap();
    assert_eq!(a.t, 32768);
    assert_eq!(b.t, 32768);
    assert_eq!(a.at, b.at);
}

#[test]
fn empty_scene_has_no_hit() {
    let ray = Ray::new(Vec3::new(0, 0, 0), Vec3::new(0, 0, -FX_ONE));
    assert!(hit_collection(&vec![], ray, 66, i64::MAX / 2).is_none());
}

#[test]
fn boolean_hit_test() {
    let ray = Ray::new(Vec3::new(0, 0, 0), Vec3::new(0, 0, -FX_ONE));
    assert!(hit_sphere(Vec3::new(0, 0, -FX_ONE), 32768, ray));
    let ray = Ray::new(Vec3::new(0, 0, 0), Vec3::new(FX_ONE, 0, 0));
    assert!(!hit_sphere(Vec3::new(0, 0, -FX_ONE), 32768, ray));
}

#[test]
fn ray_at_parameter() {
    let ray = Ray::new(Vec3::new(FX_ONE, 0, 0), Vec3::new(0, 2 * FX_ONE, 0));
    assert_eq!(ray.at(32768), Vec3::new(FX_ONE, FX_ONE, 0));
}

#[test]
fn camera_rejects_zero_dimensions() {
    assert!(Camera::new(0, 100, Vec3::new(0, 0, 0), FX_ONE).is_none());
    assert!(Camera::new(100, 0, Vec3::new(0, 0, 0), FX_ONE).is_none());
    assert!(Camera::new(0, 0, Vec3::new(0, 0, 0), FX_ONE).is_none());
    assert!(Camera::new(MAX_DIMENSION + 1, 100, Vec3::new(0, 0, 0), FX_ONE).is_none());
    assert!(Camera::new(100, 100, Vec3::new(0, 0, 0), FX_ONE).is_some());
}

#[test]
fn camera_viewport_follows_aspect_ratio() {
    let cam = Camera::new(200, 100, Vec3::new(0, 0, 0), FX_ONE).unwrap();
    // viewport is 2 * width / height by 2
    assert_eq!(cam.viewport_x, 4 * FX_ONE);
    assert_eq!(cam.viewport_y, 2 * FX_ONE);
}

#[test]
fn camera_center_pixel_ray_points_down_the_axis() {
    let cam = Camera::new(2, 2, Vec3::new(0, 0, 0), FX_ONE).unwrap();
    let (ux, uy) = cam.pixel_uv(1, 0);
    // column 1 of 2 maps to u = 0.5; row 0 is the top: y = 1/2
    assert_eq!(ux, 32768);
    assert_eq!(uy, 32768);
    let ray = cam.primary_ray(ux, uy, 0, 0);
    assert_eq!(ray.origin, Vec3::new(0, 0, 0));
    assert_eq!(ray.direction, Vec3::new(0, 0, -FX_ONE));
}

#[test]
fn window_size_rule() {
    assert_eq!(resolve_size(0, 0), None);
    assert_eq!(resolve_size(640, 0), Some((640, 640)));
    assert_eq!(resolve_size(0, 480), Some((480, 480)));
    assert_eq!(resolve_size(640, 480), Some((640, 480)));
}
