//! The color integrator and material scattering.

use raytracer::fx::FX_ONE;
use raytracer::geom::{Face, Hit, Primitive, Ray, Sphere};
use raytracer::materials::{Lambertian, MaterialEnum, Metal, Scatter};
use raytracer::rng::Pcg32;
use raytracer::scene::example_primitives;
use raytracer::shade::{background, color, ray_color};
use raytracer::vec3::Vec3;

#[test]
fn depth_zero_is_black() {
    // the recursion bound: at depth 0 the integrator returns black no
    // matter the scene or the generator state
    let scene = example_primitives();
    let mut rng = Pcg32::new(1, 2);
    let ray = Ray::new(Vec3::new(0, 0, 0), Vec3::new(0, 0, -FX_ONE));
    assert_eq!(color(&scene, &mut rng, &ray, 0), Vec3::new(0, 0, 0));
    let mut rng = Pcg32::new(999, 7);
    let ray = Ray::new(Vec3::new(0, FX_ONE, 0), Vec3::new(FX_ONE, FX_ONE, FX_ONE));
    assert_eq!(color(&vec![], &mut rng, &ray, 0), Vec3::new(0, 0, 0));
}

#[test]
fn miss_returns_background_gradient() {
    let mut rng = Pcg32::new(1, 2);
    let ray = Ray::new(Vec3::new(0, 0, 0), Vec3::new(0, 0, -FX_ONE));
    let c = color(&vec![], &mut rng, &ray, 10);
    // level direction: halfway between white and sky blue
    assert_eq!(c, Vec3::new(49152, 55705, FX_ONE));
    assert_eq!(c, background(&ray));
}

#[test]
fn background_at_extremes() {
    // straight up: pure sky blue; straight down: pure white
    let up = Ray::new(Vec3::new(0, 0, 0), Vec3::new(0, FX_ONE, 0));
    assert_eq!(background(&up), Vec3::new(32768, 45875, FX_ONE));
    let down = Ray::new(Vec3::new(0, 0, 0), Vec3::new(0, -FX_ONE, 0));
    assert_eq!(background(&down), Vec3::new(FX_ONE, FX_ONE, FX_ONE));
}

fn front_hit(material: MaterialEnum) -> Hit {
    Hit {
        at: Vec3::new(0, 0, -32768),
        t: 32768,
        normal: Vec3::new(0, 0, FX_ONE),
        face: Face::Front,
        material,
    }
}

#[test]
fn lambertian_scatter_originates_at_the_hit() {
    let albedo = Vec3::new(32768, 32768, 32768);
    let m = MaterialEnum::Lambertian(Lambertian { albedo });
    let hit = front_hit(m);
    let ray = Ray::new(Vec3::new(0, 0, 0), Vec3::new(0, 0, -FX_ONE));
    let mut rng = Pcg32::new(5, 9);
    for _ in 0..50 {
        let Scatter { attenuation, ray: out } =
            m.scatter(&mut rng, &ray, &hit).expect("a Lambertian always scatters");
        assert_eq!(out.origin, hit.at);
        assert_eq!(attenuation, albedo);
    }
}

#[test]
fn metal_reflects_up_from_a_level_mirror() {
    let albedo = Vec3::new(52428, 52428, 52428);
    let m = MaterialEnum::Metal(Metal { albedo, fuzz: 0 });
    let hit = Hit {
        at: Vec3::new(0, 0, 0),
        t: FX_ONE,
        normal: Vec3::new(0, FX_ONE, 0),
        face: Face::Front,
        material: m,
    };
    // incoming at 45 degrees downward
    let ray = Ray::new(Vec3::new(-FX_ONE, FX_ONE, 0), Vec3::new(FX_ONE, -FX_ONE, 0));
    let mut rng = Pcg32::new(5, 9);
    let s = m.scatter(&mut rng, &ray, &hit).expect("the reflection leaves the surface");
    assert_eq!(s.ray.origin, hit.at);
    assert_eq!(s.attenuation, albedo);
    // reflected direction is (1, 1, 0) normalized; both components equal
    // and positive
    assert_eq!(s.ray.direction.x, s.ray.direction.y);
    assert!(s.ray.direction.x > 0);
    assert_eq!(s.ray.direction.z, 0);
}

#[test]
fn metal_absorbs_a_grazing_scatter() {
    // full fuzz can push the scatter below the surface; with a ray along
    // the surface the reflection equals the ray and the perturbed
    // direction often points into it. Absorption must happen for some
    // draws, and every absorption returns None without a ray.
    let m = MaterialEnum::Metal(Metal { albedo: Vec3::new(52428, 52428, 52428), fuzz: FX_ONE });
    let hit = front_hit(m);
    let ray = Ray::new(Vec3::new(0, 0, 0), Vec3::new(FX_ONE, 0, 0));
    let mut rng = Pcg32::new(5, 9);
    let mut absorbed = 0;
    for _ in 0..100 {
        if m.scatter(&mut rng, &ray, &hit).is_none() {
            absorbed += 1;
        }
    }
    assert!(absorbed > 0);
}

#[test]
fn single_bounce_never_exceeds_the_albedo() {
    // energy conservation: a Lambertian of albedo one half, one bounce,
    // then the path ends on the depth bound (black) or the background;
    // either way the result is at most the albedo channel by channel
    let albedo = Vec3::new(32768, 32768, 32768);
    let scene = vec![Primitive::Sphere(Sphere {
        center: Vec3::new(0, 0, -FX_ONE),
        radius: 32768,
        material: MaterialEnum::Lambertian(Lambertian { albedo }),
    })];
    let ray = Ray::new(Vec3::new(0, 0, 0), Vec3::new(0, 0, -FX_ONE));
    for seed in 0..32u64 {
        let mut rng = Pcg32::new(seed, 77);
        let c = color(&scene, &mut rng, &ray, 2);
        assert!(0 <= c.x && c.x <= albedo.x);
        assert!(0 <= c.y && c.y <= albedo.y);
        assert!(0 <= c.z && c.z <= albedo.z);
    }
}

#[test]
fn integrator_stays_a_valid_color_on_the_example_scene() {
    let scene = example_primitives();
    let mut rng = Pcg32::new(11, 13);
    for col in 0..8u32 {
        let ray = Ray::new(
            Vec3::new(0, 0, 0),
            Vec3::new((col as i64 - 4) * 16384, 8192, -FX_ONE),
        );
        let c = color(&scene, &mut rng, &ray, 50);
        assert!(0 <= c.x && c.x <= FX_ONE);
        assert!(0 <= c.y && c.y <= FX_ONE);
        assert!(0 <= c.z && c.z <= FX_ONE);
    }
}

#[test]
fn preview_shading_is_red_on_the_sphere() {
    let hit = Ray::new(Vec3::new(0, 0, 0), Vec3::new(0, 0, -FX_ONE));
    assert_eq!(ray_color(&hit), Vec3::new(FX_ONE, 0, 0));
    let miss = Ray::new(Vec3::new(0, 0, 0), Vec3::new(0, FX_ONE, 0));
    assert_eq!(ray_color(&miss), background(&miss));
}
