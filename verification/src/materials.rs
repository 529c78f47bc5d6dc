//! Materials and scattering.
//!
//! The material set is a closed sum type dispatched by exhaustive match:
//! a Lambertian diffuse surface and a fuzzed metal mirror. A scatter
//! always originates exactly at the hit point; a diffuse direction whose
//! squared length rounds to zero is replaced by the surface normal, and a
//! metal reflection that does not leave the surface is absorbed.

use vstd::prelude::*;
use crate::fx::{FX_ONE, FX_TWO};
use crate::geom::{Hit, Ray};
use crate::rng::{sp_sample_unit, sample_unit_sphere, Pcg32, SPHERE_SAMPLE_TRIES};
use crate::vec3::{sp_v3_add, sp_v3_div, sp_v3_dot, sp_v3_length, sp_v3_length_squared,
    sp_v3_mul, sp_v3_scale, sp_v3_sub, Vec3};

verus! {

/// A diffuse surface scattering around the normal.
#[derive(Clone, Copy, PartialEq, Eq, Structural, Debug)]
pub struct Lambertian {
    pub albedo: Vec3,
}

/// A mirror surface with a fuzz radius perturbing the reflection.
#[derive(Clone, Copy, PartialEq, Eq, Structural, Debug)]
pub struct Metal {
    pub albedo: Vec3,
    pub fuzz: i64,
}

/// The closed set of material variants.
#[derive(Clone, Copy, PartialEq, Eq, Structural, Debug)]
pub enum MaterialEnum {
    Lambertian(Lambertian),
    Metal(Metal),
}

/// A material's response to a hit: the re-emitted ray and the per-channel
/// attenuation applied to whatever that ray gathers.
#[derive(Clone, Copy, PartialEq, Eq, Structural, Debug)]
pub struct Scatter {
    pub attenuation: Vec3,
    pub ray: Ray,
}

/// Spec mirror of reflecting a direction about a unit normal:
/// `d - n * (2 * (d . n))`.
pub open spec fn sp_reflect(d: Vec3, n: Vec3) -> Vec3 {
    sp_v3_sub(d, sp_v3_scale(sp_v3_scale(n, sp_v3_dot(d, n)), FX_TWO as int))
}

/// Reflect a direction about a unit normal.
pub fn reflect(d: Vec3, n: Vec3) -> (r: Vec3)
    ensures
        r == sp_reflect(d, n),
{
    d.sub(n.scale(d.dot(n)).scale(FX_TWO))
}

/// Spec mirror of normalization used by scattering: a vector whose
/// squared length rounds to zero has no direction and yields `None`.
pub open spec fn sp_unitize(v: Vec3) -> Option<Vec3> {
    if sp_v3_length_squared(v) == 0 {
        None
    } else {
        Some(sp_v3_div(v, sp_v3_length(v)))
    }
}

/// Normalize a vector, or report that it is too short to have a
/// direction.
pub fn unitize(v: Vec3) -> (r: Option<Vec3>)
    ensures
        r == sp_unitize(v),
{
    let ls = v.length_squared();
    if ls == 0 {
        None
    } else {
        Some(v.div(v.length()))
    }
}

/// Spec mirror of the Lambertian scatter: the new direction is the
/// normal plus a random unit vector, replaced by the normal itself when
/// that sum rounds to zero; the attenuation is the albedo.
pub open spec fn sp_scatter_lambertian(m: Lambertian, g: Pcg32, hit: Hit) -> (
    Option<Scatter>,
    Pcg32,
) {
    let (u, g1) = sp_sample_unit(g, SPHERE_SAMPLE_TRIES as nat);
    let raw = sp_v3_add(hit.normal, u);
    let direction = match sp_unitize(raw) {
        Some(d) => d,
        None => hit.normal,
    };
    (
        Some(
            Scatter {
                ray: Ray { origin: hit.at, direction },
                attenuation: m.albedo,
            },
        ),
        g1,
    )
}

/// Spec mirror of the metal scatter: the reflection perturbed by fuzz,
/// absorbed when it does not point away from the surface or rounds to
/// zero; the attenuation is the albedo.
pub open spec fn sp_scatter_metal(m: Metal, g: Pcg32, ray: Ray, hit: Hit) -> (
    Option<Scatter>,
    Pcg32,
) {
    let (u, g1) = sp_sample_unit(g, SPHERE_SAMPLE_TRIES as nat);
    let raw = sp_v3_add(sp_reflect(ray.direction, hit.normal), sp_v3_scale(u, m.fuzz as int));
    if sp_v3_dot(raw, hit.normal) > 0 {
        match sp_unitize(raw) {
            Some(d) => (
                Some(
                    Scatter {
                        ray: Ray { origin: hit.at, direction: d },
                        attenuation: m.albedo,
                    },
                ),
                g1,
            ),
            None => (None, g1),
        }
    } else {
        (None, g1)
    }
}

/// Spec mirror of dispatching a scatter over the material variants.
pub open spec fn sp_scatter(m: MaterialEnum, g: Pcg32, ray: Ray, hit: Hit) -> (
    Option<Scatter>,
    Pcg32,
) {
    match m {
        MaterialEnum::Lambertian(l) => sp_scatter_lambertian(l, g, hit),
        MaterialEnum::Metal(t) => sp_scatter_metal(t, g, ray, hit),
    }
}

impl MaterialEnum {
    /// Scatter an incoming ray at a hit. A returned scatter always
    /// originates exactly at the hit point and carries the variant's
    /// albedo as attenuation; `None` means the ray was absorbed, which
    /// only a metal does.
    pub fn scatter(&self, rng: &mut Pcg32, ray: &Ray, hit: &Hit) -> (r: Option<Scatter>)
        ensures
            (r, *final(rng)) == sp_scatter(*self, *old(rng), *ray, *hit),
            r is Some ==> r->Some_0.ray.origin == hit.at,
            r is Some ==> r->Some_0.attenuation == sp_albedo(*self),
            self is Lambertian ==> r is Some,
    {
        match self {
            MaterialEnum::Lambertian(l) => {
                let u = sample_unit_sphere(rng);
                let raw = hit.normal.add(u);
                let direction = match unitize(raw) {
                    Some(d) => d,
                    None => hit.normal,
                };
                Some(
                    Scatter {
                        ray: Ray { origin: hit.at, direction },
                        attenuation: l.albedo,
                    },
                )
            },
            MaterialEnum::Metal(m) => {
                let u = sample_unit_sphere(rng);
                let raw = reflect(ray.direction, hit.normal).add(u.scale(m.fuzz));
                if raw.dot(hit.normal) > 0 {
                    match unitize(raw) {
                        Some(d) => Some(
                            Scatter {
                                ray: Ray { origin: hit.at, direction: d },
                                attenuation: m.albedo,
                            },
                        ),
                        None => None,
                    }
                } else {
                    None
                }
            },
        }
    }
}

/// The albedo carried by a material variant.
pub open spec fn sp_albedo(m: MaterialEnum) -> Vec3 {
    match m {
        MaterialEnum::Lambertian(l) => l.albedo,
        MaterialEnum::Metal(t) => t.albedo,
    }
}

/// A color is valid when every channel lies in `[0, 1]`.
pub open spec fn sp_valid_color(c: Vec3) -> bool {
    &&& 0 <= c.x <= FX_ONE
    &&& 0 <= c.y <= FX_ONE
    &&& 0 <= c.z <= FX_ONE
}

/// Attenuation never amplifies: multiplying a valid color by a valid
/// albedo yields a color bounded above, channel by channel, by that
/// albedo, and never below zero.
pub proof fn lemma_attenuation_never_amplifies(albedo: Vec3, c: Vec3)
    requires
        sp_valid_color(albedo),
        sp_valid_color(c),
    ensures
        0 <= sp_v3_mul(albedo, c).x <= albedo.x,
        0 <= sp_v3_mul(albedo, c).y <= albedo.y,
        0 <= sp_v3_mul(albedo, c).z <= albedo.z,
        sp_valid_color(sp_v3_mul(albedo, c)),
{
    crate::fx::lemma_fx_mul_attenuates(albedo.x as int, c.x as int);
    crate::fx::lemma_fx_mul_attenuates(albedo.y as int, c.y as int);
    crate::fx::lemma_fx_mul_attenuates(albedo.z as int, c.z as int);
}

} // verus!
