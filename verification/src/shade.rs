//! The recursive color integrator.
//!
//! A ray gathers color by bouncing through the scene: at depth zero the
//! path is cut off and contributes black; a hit scatters through the
//! material and attenuates whatever the scattered ray gathers; a miss
//! yields the fixed background gradient between white and sky blue,
//! driven by the normalized direction's vertical component (with the
//! interpolation parameter clamped to `[0, 1]`, which the exact real
//! formula guarantees of itself).

use vstd::prelude::*;
use crate::fx::{fx_clamp, fx_mul, fx_add, sp_fx_add, sp_fx_clamp, sp_fx_mul, FX_HALF, FX_ONE, FX_MAX};
use crate::geom::{hit_collection, sp_hit_collection, Hit, Primitive, Ray};
use crate::materials::{sp_albedo, sp_scatter, sp_valid_color, MaterialEnum};
use crate::rng::Pcg32;
use crate::vec3::{sp_v3_div, sp_v3_length, sp_v3_lerp, sp_v3_mul, Vec3};

verus! {

/// Lower bound of the valid hit range: keeps a scattered ray from
/// re-hitting its own surface (about 0.001).
pub const T_MIN_HIT: i64 = 66;

/// The sky-blue end of the background gradient.
pub const SKY_R: i64 = 32768;

/// See `SKY_R`.
pub const SKY_G: i64 = 45875;

/// See `SKY_R`.
pub const SKY_B: i64 = 65536;

/// Spec mirror of the background gradient for a ray direction.
pub open spec fn sp_background(ray: Ray) -> Vec3 {
    let n = sp_v3_div(ray.direction, sp_v3_length(ray.direction));
    let t = sp_fx_clamp(sp_fx_mul(FX_HALF as int, sp_fx_add(n.y as int, FX_ONE as int)), 0, FX_ONE as int);
    sp_v3_lerp(
        Vec3 { x: FX_ONE, y: FX_ONE, z: FX_ONE },
        Vec3 { x: SKY_R, y: SKY_G, z: SKY_B },
        t,
    )
}

/// The background gradient: white at the bottom of the view blending to
/// sky blue at the top.
pub fn background(ray: &Ray) -> (r: Vec3)
    ensures
        r == sp_background(*ray),
{
    let n = ray.direction.div(ray.direction.length());
    let t = fx_clamp(fx_mul(FX_HALF, fx_add(n.y, FX_ONE)), 0, FX_ONE);
    Vec3::one().lerp(Vec3 { x: SKY_R, y: SKY_G, z: SKY_B }, t)
}

/// Spec mirror of the recursive integrator, threading the generator
/// state through every scatter.
pub open spec fn sp_color(scene: Seq<Primitive>, g: Pcg32, ray: Ray, depth: nat) -> (
    Vec3,
    Pcg32,
)
    decreases depth,
{
    if depth == 0 {
        (Vec3 { x: 0i64, y: 0i64, z: 0i64 }, g)
    } else {
        match sp_hit_collection(scene, ray, T_MIN_HIT, FX_MAX) {
            Some(hit) => {
                let (s, g1) = sp_scatter(hit.material, g, ray, hit);
                match s {
                    Some(sc) => {
                        let (c, g2) = sp_color(scene, g1, sc.ray, (depth - 1) as nat);
                        (sp_v3_mul(sc.attenuation, c), g2)
                    },
                    None => (Vec3 { x: 0i64, y: 0i64, z: 0i64 }, g1),
                }
            },
            None => (sp_background(ray), g),
        }
    }
}

/// Gather the color a ray sees, recursing up to `depth` bounces. Depth
/// zero is black, no matter the scene.
pub fn color(scene: &Vec<Primitive>, rng: &mut Pcg32, ray: &Ray, depth: u32) -> (r: Vec3)
    ensures
        (r, *final(rng)) == sp_color(scene@, *old(rng), *ray, depth as nat),
        depth == 0 ==> r == (Vec3 { x: 0i64, y: 0i64, z: 0i64 }),
    decreases depth,
{
    if depth == 0 {
        Vec3::zero()
    } else {
        match hit_collection(scene, *ray, T_MIN_HIT, FX_MAX) {
            Some(hit) => {
                match hit.material.scatter(rng, ray, &hit) {
                    Some(sc) => {
                        let c = color(scene, rng, &sc.ray, depth - 1);
                        sc.attenuation.mul(c)
                    },
                    None => Vec3::zero(),
                }
            },
            None => background(ray),
        }
    }
}

/// Spec mirror of the single-sphere preview shading: solid red on a
/// hit, else the background gradient.
pub open spec fn sp_ray_color(ray: Ray) -> Vec3 {
    if crate::geom::sp_hit_sphere_test(
        Vec3 { x: 0i64, y: 0i64, z: -65536i64 },
        FX_HALF,
        ray,
    ) {
        Vec3 { x: FX_ONE, y: 0i64, z: 0i64 }
    } else {
        sp_background(ray)
    }
}

/// The preview shading for the fixed test sphere (center `(0,0,-1)`,
/// radius one half): red where the ray meets it, the background
/// gradient elsewhere.
pub fn ray_color(ray: &Ray) -> (r: Vec3)
    ensures
        r == sp_ray_color(*ray),
{
    if crate::geom::hit_sphere(Vec3 { x: 0, y: 0, z: -65536 }, FX_HALF, *ray) {
        Vec3 { x: FX_ONE, y: 0, z: 0 }
    } else {
        background(ray)
    }
}

/// A scene is color-valid when every material's albedo is a valid color.
pub open spec fn sp_valid_scene(scene: Seq<Primitive>) -> bool {
    forall|i: int|
        0 <= i < scene.len() ==> sp_valid_color(
            sp_albedo((#[trigger] scene[i])->Sphere_0.material),
        )
}

/// Interpolating between valid channels with a parameter in `[0, 1]`
/// stays within the channels' span.
proof fn lemma_lerp_channel_bounds(a: int, b: int, t: int)
    requires
        0 <= a <= FX_ONE as int,
        0 <= b <= FX_ONE as int,
        0 <= t <= FX_ONE as int,
    ensures
        0 <= sp_fx_add(a, sp_fx_mul(b - a, t)) <= FX_ONE as int,
{
    let p = (b - a) * t;
    let q = p / (FX_ONE as int);
    if b >= a {
        assert(0 <= (b - a) * t <= (b - a) * (FX_ONE as int)) by (nonlinear_arith)
            requires
                0 <= b - a,
                0 <= t <= FX_ONE as int,
        ;
        assert((b - a) * (FX_ONE as int) / (FX_ONE as int) == b - a) by (nonlinear_arith);
        vstd::arithmetic::div_mod::lemma_div_is_ordered(p, (b - a) * (FX_ONE as int), FX_ONE as int);
        vstd::arithmetic::div_mod::lemma_div_pos_is_pos(p, FX_ONE as int);
        assert(0 <= q <= b - a);
    } else {
        assert((b - a) * (FX_ONE as int) <= (b - a) * t <= 0) by (nonlinear_arith)
            requires
                b - a < 0,
                0 <= t <= FX_ONE as int,
        ;
        assert((b - a) * (FX_ONE as int) / (FX_ONE as int) == b - a) by (nonlinear_arith);
        vstd::arithmetic::div_mod::lemma_div_is_ordered((b - a) * (FX_ONE as int), p, FX_ONE as int);
        vstd::arithmetic::div_mod::lemma_div_is_ordered(p, 0, FX_ONE as int);
        assert(b - a <= q <= 0);
    }
}

/// The background gradient is a valid color for every ray.
pub proof fn lemma_background_valid(ray: Ray)
    ensures
        sp_valid_color(sp_background(ray)),
{
    let n = sp_v3_div(ray.direction, sp_v3_length(ray.direction));
    let t = sp_fx_clamp(sp_fx_mul(FX_HALF as int, sp_fx_add(n.y as int, FX_ONE as int)), 0, FX_ONE as int);
    lemma_lerp_channel_bounds(FX_ONE as int, SKY_R as int, t);
    lemma_lerp_channel_bounds(FX_ONE as int, SKY_G as int, t);
    lemma_lerp_channel_bounds(FX_ONE as int, SKY_B as int, t);
}

/// Energy conservation: over a color-valid scene the integrator returns
/// a valid color, and one bounce multiplies by an albedo, which never
/// amplifies any channel.
pub proof fn lemma_color_valid(scene: Seq<Primitive>, g: Pcg32, ray: Ray, depth: nat)
    requires
        sp_valid_scene(scene),
    ensures
        sp_valid_color(sp_color(scene, g, ray, depth).0),
    decreases depth,
{
    if depth != 0 {
        match sp_hit_collection(scene, ray, T_MIN_HIT, FX_MAX) {
            Some(hit) => {
                lemma_hit_material_valid(scene, ray, hit);
                let (s, g1) = sp_scatter(hit.material, g, ray, hit);
                match s {
                    Some(sc) => {
                        lemma_color_valid(scene, g1, sc.ray, (depth - 1) as nat);
                        let (c, _) = sp_color(scene, g1, sc.ray, (depth - 1) as nat);
                        lemma_scatter_attenuation(hit.material, g, ray, hit);
                        crate::materials::lemma_attenuation_never_amplifies(sc.attenuation, c);
                    },
                    None => {},
                }
            },
            None => {
                lemma_background_valid(ray);
            },
        }
    }
}

/// A scatter's attenuation is the scattering material's albedo.
proof fn lemma_scatter_attenuation(m: MaterialEnum, g: Pcg32, ray: Ray, hit: Hit)
    ensures
        sp_scatter(m, g, ray, hit).0 is Some ==> sp_scatter(m, g, ray, hit).0->Some_0.attenuation
            == sp_albedo(m),
{
}

/// The material recorded in a closest hit belongs to some primitive of
/// the scene, so over a color-valid scene its albedo is valid.
proof fn lemma_hit_material_valid(scene: Seq<Primitive>, ray: Ray, hit: Hit)
    requires
        sp_valid_scene(scene),
        sp_hit_collection(scene, ray, T_MIN_HIT, FX_MAX) == Some(hit),
    ensures
        sp_valid_color(sp_albedo(hit.material)),
{
    lemma_hit_loop_material(scene, 0, ray, T_MIN_HIT, FX_MAX, None, hit);
}

/// Any hit the scan returns either was the incoming best or carries the
/// material of a scanned primitive.
proof fn lemma_hit_loop_material(
    scene: Seq<Primitive>,
    i: int,
    ray: Ray,
    t_min: i64,
    t_max: i64,
    best: Option<Hit>,
    hit: Hit,
)
    requires
        sp_valid_scene(scene),
        crate::geom::sp_hit_loop(scene, i, ray, t_min, t_max, best) == Some(hit),
        best is Some ==> sp_valid_color(sp_albedo(best->Some_0.material)),
    ensures
        sp_valid_color(sp_albedo(hit.material)),
    decreases scene.len() - i,
{
    if 0 <= i < scene.len() {
        match crate::geom::sp_hit_primitive(scene[i], ray, t_min, t_max) {
            Some(h) => {
                assert(h.material == scene[i]->Sphere_0.material);
                lemma_hit_loop_material(scene, i + 1, ray, t_min, h.t, Some(h), hit);
            },
            None => {
                lemma_hit_loop_material(scene, i + 1, ray, t_min, t_max, best, hit);
            },
        }
    }
}

} // verus!
