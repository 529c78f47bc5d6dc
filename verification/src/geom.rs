//! Rays, hits, and sphere intersection.
//!
//! The quadratic solve follows the classic form: with `oc = origin -
//! center`, `a = |d|^2`, `b = oc . d`, `c = |oc|^2 - r^2`, a root exists
//! when `d = b^2 - a c` is non-negative. The near root is preferred and
//! the far root is used only when the near one falls outside the valid
//! parameter range, which handles a camera inside a sphere. Scene-level
//! resolution is a linear scan that shrinks the upper bound of the range
//! to the closest hit found so far.

use vstd::prelude::*;
use crate::fx::{fx_mul, fx_sub, sp_fx_add, sp_fx_div, sp_fx_mul, sp_fx_neg, sp_fx_sqrt,
    sp_fx_sub};
use crate::fx::{fx_add, fx_div, fx_neg, fx_sqrt};
use crate::materials::MaterialEnum;
use crate::vec3::{as_fx, sp_v3_add, sp_v3_div, sp_v3_dot, sp_v3_length_squared, sp_v3_neg,
    sp_v3_scale, sp_v3_sub, Vec3};

verus! {

/// A half-line `origin + direction * t`; the direction need not be
/// normalized.
#[derive(Clone, Copy, PartialEq, Eq, Structural, Debug)]
pub struct Ray {
    pub origin: Vec3,
    pub direction: Vec3,
}

/// Spec mirror of the point a ray reaches at parameter `t`.
pub open spec fn sp_ray_at(ray: Ray, t: int) -> Vec3 {
    sp_v3_add(ray.origin, sp_v3_scale(ray.direction, t))
}

impl Ray {
    /// Build a ray from an origin and a direction.
    pub fn new(origin: Vec3, direction: Vec3) -> (r: Ray)
        ensures
            r == (Ray { origin, direction }),
    {
        Ray { origin, direction }
    }

    /// The point `origin + direction * t`.
    pub fn at(self, t: i64) -> (r: Vec3)
        ensures
            r == sp_ray_at(self, t as int),
    {
        self.origin.add(self.direction.scale(t))
    }

    /// Intersect this ray with one primitive over `[t_min, t_max)`.
    pub fn hit(self, visible: &Primitive, t_min: i64, t_max: i64) -> (r: Option<Hit>)
        ensures
            r == sp_hit_primitive(*visible, self, t_min, t_max),
    {
        visible.hit_with_ray(self, t_min, t_max)
    }
}

/// Which side of a surface a ray met.
#[derive(Clone, Copy, PartialEq, Eq, Structural, Debug)]
pub enum Face {
    Front,
    Back,
}

impl Face {
    /// The opposite side.
    pub fn neg(self) -> (r: Face)
        ensures
            r == sp_face_neg(self),
    {
        match self {
            Face::Front => Face::Back,
            Face::Back => Face::Front,
        }
    }
}

/// Spec mirror of flipping a face.
pub open spec fn sp_face_neg(f: Face) -> Face {
    match f {
        Face::Front => Face::Back,
        Face::Back => Face::Front,
    }
}

/// A resolved intersection: parameter, point, outward-corrected normal,
/// side, and the material met there.
#[derive(Clone, Copy, PartialEq, Eq, Structural, Debug)]
pub struct Hit {
    pub at: Vec3,
    pub t: i64,
    pub normal: Vec3,
    pub face: Face,
    pub material: MaterialEnum,
}

/// Spec mirror of the front-face correction: when the normal points with
/// the ray the normal is flipped and the face marked back.
pub open spec fn sp_correct_face(h: Hit, ray: Ray) -> Hit {
    if sp_v3_dot(h.normal, ray.direction) > 0 {
        Hit { normal: sp_v3_neg(h.normal), face: sp_face_neg(h.face), ..h }
    } else {
        h
    }
}

impl Hit {
    /// Orient the normal against the incoming ray, flipping the face flag
    /// when the ray arrives from inside.
    pub fn correct_face(self, ray: Ray) -> (r: Hit)
        ensures
            r == sp_correct_face(self, ray),
    {
        if self.normal.dot(ray.direction) > 0 {
            Hit { normal: self.normal.neg(), face: self.face.neg(), ..self }
        } else {
            self
        }
    }
}

/// A sphere with its material.
#[derive(Clone, Copy, PartialEq, Eq, Structural, Debug)]
pub struct Sphere {
    pub center: Vec3,
    pub radius: i64,
    pub material: MaterialEnum,
}

/// The closed set of primitives a scene may hold.
#[derive(Clone, Copy, PartialEq, Eq, Structural, Debug)]
pub enum Primitive {
    Sphere(Sphere),
}

/// Spec mirror of the sphere intersection over the valid range
/// `[t_min, t_max)`: the near quadratic root when it is in range, else
/// the far root, else no hit; the normal is `(point - center) / radius`
/// corrected to face the ray.
pub open spec fn sp_hit_sphere(s: Sphere, ray: Ray, t_min: i64, t_max: i64) -> Option<Hit> {
    let oc = sp_v3_sub(ray.origin, s.center);
    let a = sp_v3_length_squared(ray.direction);
    let b = sp_v3_dot(oc, ray.direction);
    let c = sp_fx_sub(sp_v3_length_squared(oc), sp_fx_mul(s.radius as int, s.radius as int));
    let d = sp_fx_sub(sp_fx_mul(b, b), sp_fx_mul(a, c));
    if d < 0 {
        None
    } else {
        let sd = sp_fx_sqrt(d);
        let t_near = as_fx(sp_fx_div(sp_fx_sub(sp_fx_neg(b), sd), a));
        let t_far = as_fx(sp_fx_div(sp_fx_add(sp_fx_neg(b), sd), a));
        if t_min <= t_near < t_max {
            Some(sp_sphere_hit_at(s, ray, t_near))
        } else if t_min <= t_far < t_max {
            Some(sp_sphere_hit_at(s, ray, t_far))
        } else {
            None
        }
    }
}

/// Spec mirror of building the hit record at a chosen root.
pub open spec fn sp_sphere_hit_at(s: Sphere, ray: Ray, t: i64) -> Hit {
    let at = sp_ray_at(ray, t as int);
    let normal = sp_v3_div(sp_v3_sub(at, s.center), s.radius as int);
    sp_correct_face(
        Hit { t, at, normal, face: Face::Front, material: s.material },
        ray,
    )
}

impl Sphere {
    /// Intersect a ray with this sphere over `[t_min, t_max)`.
    pub fn hit_with_ray(&self, ray: Ray, t_min: i64, t_max: i64) -> (r: Option<Hit>)
        ensures
            r == sp_hit_sphere(*self, ray, t_min, t_max),
            r is Some ==> t_min <= r->Some_0.t < t_max,
    {
        let oc = ray.origin.sub(self.center);
        let a = ray.direction.length_squared();
        let b = oc.dot(ray.direction);
        let c = fx_sub(oc.length_squared(), fx_mul(self.radius, self.radius));
        let d = fx_sub(fx_mul(b, b), fx_mul(a, c));
        if d < 0 {
            None
        } else {
            let sd = fx_sqrt(d);
            let t_near = fx_div(fx_sub(fx_neg(b), sd), a);
            if t_min <= t_near && t_near < t_max {
                Some(self.hit_at(ray, t_near))
            } else {
                let t_far = fx_div(fx_add(fx_neg(b), sd), a);
                if t_min <= t_far && t_far < t_max {
                    Some(self.hit_at(ray, t_far))
                } else {
                    None
                }
            }
        }
    }

    /// Build the hit record for a chosen root.
    fn hit_at(&self, ray: Ray, t: i64) -> (r: Hit)
        ensures
            r == sp_sphere_hit_at(*self, ray, t),
    {
        let at = ray.at(t);
        let normal = at.sub(self.center).div(self.radius);
        Hit { t, at, normal, face: Face::Front, material: self.material }.correct_face(ray)
    }
}

impl Primitive {
    /// Intersect a ray with this primitive over `[t_min, t_max)`.
    pub fn hit_with_ray(&self, ray: Ray, t_min: i64, t_max: i64) -> (r: Option<Hit>)
        ensures
            r == sp_hit_primitive(*self, ray, t_min, t_max),
            r is Some ==> t_min <= r->Some_0.t < t_max,
    {
        match self {
            Primitive::Sphere(s) => s.hit_with_ray(ray, t_min, t_max),
        }
    }
}

/// Spec mirror of the boolean hit test with the unhalved quadratic:
/// `b = 2 (oc . d)`, `d = b^2 - 4 a c`, a hit when the discriminant is
/// strictly positive.
pub open spec fn sp_hit_sphere_test(center: Vec3, radius: i64, ray: Ray) -> bool {
    let oc = sp_v3_sub(ray.origin, center);
    let a = sp_v3_length_squared(ray.direction);
    let b = sp_fx_mul(crate::fx::FX_TWO as int, sp_v3_dot(oc, ray.direction));
    let c = sp_fx_sub(sp_v3_length_squared(oc), sp_fx_mul(radius as int, radius as int));
    let d = sp_fx_sub(sp_fx_mul(b, b), sp_fx_mul(0x40000, sp_fx_mul(a, c)));
    d > 0
}

/// Whether a ray meets a sphere at all: the discriminant of the
/// unhalved quadratic is strictly positive.
pub fn hit_sphere(center: Vec3, radius: i64, ray: Ray) -> (r: bool)
    ensures
        r == sp_hit_sphere_test(center, radius, ray),
{
    let oc = ray.origin.sub(center);
    let a = ray.direction.length_squared();
    let b = fx_mul(crate::fx::FX_TWO, oc.dot(ray.direction));
    let c = fx_sub(oc.length_squared(), fx_mul(radius, radius));
    let d = fx_sub(fx_mul(b, b), fx_mul(0x40000, fx_mul(a, c)));
    d > 0
}

/// Spec mirror of intersecting one primitive.
pub open spec fn sp_hit_primitive(p: Primitive, ray: Ray, t_min: i64, t_max: i64) -> Option<
    Hit,
> {
    match p {
        Primitive::Sphere(s) => sp_hit_sphere(s, ray, t_min, t_max),
    }
}

/// Spec mirror of the closest-hit scan from index `i` with the best hit
/// found so far; a found hit shrinks the upper bound of the range.
pub open spec fn sp_hit_loop(
    scene: Seq<Primitive>,
    i: int,
    ray: Ray,
    t_min: i64,
    t_max: i64,
    best: Option<Hit>,
) -> Option<Hit>
    decreases scene.len() - i,
{
    if i < 0 || i >= scene.len() {
        best
    } else {
        match sp_hit_primitive(scene[i], ray, t_min, t_max) {
            Some(h) => sp_hit_loop(scene, i + 1, ray, t_min, h.t, Some(h)),
            None => sp_hit_loop(scene, i + 1, ray, t_min, t_max, best),
        }
    }
}

/// Spec mirror of the scene-level closest hit.
pub open spec fn sp_hit_collection(
    scene: Seq<Primitive>,
    ray: Ray,
    t_min: i64,
    t_max: i64,
) -> Option<Hit> {
    sp_hit_loop(scene, 0, ray, t_min, t_max, None)
}

/// The near root never exceeds the far root, so shrinking the valid
/// range can only drop a sphere's hit, never move it: the hit under a
/// tighter upper bound is the hit under the full range when that hit is
/// still close enough, and nothing otherwise.
pub proof fn lemma_hit_restrict(p: Primitive, ray: Ray, t_min: i64, t_max: i64, m: i64)
    requires
        m <= t_max,
    ensures
        sp_hit_primitive(p, ray, t_min, m) == match sp_hit_primitive(p, ray, t_min, t_max) {
            Some(h) => if h.t < m {
                Some(h)
            } else {
                None::<Hit>
            },
            None => None::<Hit>,
        },
{
    let s = p->Sphere_0;
    let oc = sp_v3_sub(ray.origin, s.center);
    let a = sp_v3_length_squared(ray.direction);
    let b = sp_v3_dot(oc, ray.direction);
    let c = sp_fx_sub(sp_v3_length_squared(oc), sp_fx_mul(s.radius as int, s.radius as int));
    let d = sp_fx_sub(sp_fx_mul(b, b), sp_fx_mul(a, c));
    if d >= 0 {
        let sd = sp_fx_sqrt(d);
        crate::fx::lemma_fx_sqrt_nonneg(d);
        let lo = sp_fx_sub(sp_fx_neg(b), sd);
        let hi = sp_fx_add(sp_fx_neg(b), sd);
        crate::fx::lemma_fx_clip_mono(sp_fx_neg(b) - sd, sp_fx_neg(b) + sd);
        crate::fx::lemma_fx_div_mono(lo, hi, a);
        assert(as_fx(sp_fx_div(lo, a)) as int <= as_fx(sp_fx_div(hi, a)) as int);
    }
}

/// Intersect a ray with every primitive, keeping the closest hit: the
/// valid range's upper bound shrinks to each hit found, so a later
/// primitive can only replace the best hit with a strictly closer one.
pub fn hit_collection(scene: &Vec<Primitive>, ray: Ray, t_min: i64, t_max: i64) -> (r: Option<
    Hit,
>)
    ensures
        r == sp_hit_collection(scene@, ray, t_min, t_max),
        r is Some ==> t_min <= r->Some_0.t < t_max,
{
    let mut best: Option<Hit> = None;
    let mut cur_max: i64 = t_max;
    let n = scene.len();
    let mut i: usize = 0;
    while i < n
        invariant
            n == scene@.len(),
            i <= n,
            sp_hit_loop(scene@, 0, ray, t_min, t_max, None) == sp_hit_loop(
                scene@,
                i as int,
                ray,
                t_min,
                cur_max,
                best,
            ),
            best is Some ==> t_min <= best->Some_0.t < t_max && cur_max == best->Some_0.t,
            best is None ==> cur_max == t_max,
        decreases n - i,
    {
        match scene[i].hit_with_ray(ray, t_min, cur_max) {
            Some(h) => {
                best = Some(h);
                cur_max = h.t;
            },
            None => {},
        }
        i = i + 1;
    }
    best
}

/// The scan's result from the middle of the walk: whatever order the
/// remaining primitives come in, the result improves on the best found
/// so far exactly by the closest remaining full-range hit.
#[verifier::rlimit(100)]
proof fn lemma_hit_loop_closest(
    scene: Seq<Primitive>,
    i: int,
    ray: Ray,
    t_min: i64,
    t_max: i64,
    cur_max: i64,
    best: Option<Hit>,
)
    requires
        0 <= i,
        best is Some ==> cur_max == best->Some_0.t && best->Some_0.t < t_max,
        best is None ==> cur_max == t_max,
        best is Some ==> exists|j: int|
            0 <= j < i && j < scene.len() && #[trigger] sp_hit_primitive(
                scene[j],
                ray,
                t_min,
                t_max,
            ) == best,
        forall|j: int|
            0 <= j < i && j < scene.len() && (#[trigger] sp_hit_primitive(
                scene[j],
                ray,
                t_min,
                t_max,
            )) is Some ==> best is Some && best->Some_0.t <= sp_hit_primitive(
                scene[j],
                ray,
                t_min,
                t_max,
            )->Some_0.t,
    ensures
        ({
            let r = sp_hit_loop(scene, i, ray, t_min, cur_max, best);
            &&& r is None ==> forall|j: int|
                0 <= j < scene.len() ==> (#[trigger] sp_hit_primitive(
                    scene[j],
                    ray,
                    t_min,
                    t_max,
                )) is None
            &&& r is None ==> best is None
            &&& r is Some ==> exists|j: int|
                0 <= j < scene.len() && #[trigger] sp_hit_primitive(scene[j], ray, t_min, t_max)
                    == r
            &&& r is Some ==> forall|j: int|
                0 <= j < scene.len() && (#[trigger] sp_hit_primitive(
                    scene[j],
                    ray,
                    t_min,
                    t_max,
                )) is Some ==> r->Some_0.t <= sp_hit_primitive(
                    scene[j],
                    ray,
                    t_min,
                    t_max,
                )->Some_0.t
        }),
    decreases scene.len() - i,
{
    if i < scene.len() {
        lemma_hit_restrict(scene[i], ray, t_min, t_max, cur_max);
        match sp_hit_primitive(scene[i], ray, t_min, cur_max) {
            Some(h) => {
                assert(sp_hit_primitive(scene[i], ray, t_min, t_max) == Some(h));
                lemma_hit_loop_closest(scene, i + 1, ray, t_min, t_max, h.t, Some(h));
            },
            None => {
                lemma_hit_loop_closest(scene, i + 1, ray, t_min, t_max, cur_max, best);
            },
        }
    }
}

/// Closest hit, independent of primitive order: the scan returns `None`
/// exactly when no primitive meets the ray within the full range, and
/// otherwise a hit of one of the primitives whose parameter is minimal
/// among every primitive's own full-range hit — so any ordering of the
/// scene yields a hit at the same, closest parameter.
pub proof fn lemma_hit_collection_closest(
    scene: Seq<Primitive>,
    ray: Ray,
    t_min: i64,
    t_max: i64,
)
    ensures
        ({
            let r = sp_hit_collection(scene, ray, t_min, t_max);
            &&& r is None ==> forall|j: int|
                0 <= j < scene.len() ==> (#[trigger] sp_hit_primitive(
                    scene[j],
                    ray,
                    t_min,
                    t_max,
                )) is None
            &&& r is Some ==> exists|j: int|
                0 <= j < scene.len() && #[trigger] sp_hit_primitive(scene[j], ray, t_min, t_max)
                    == r
            &&& r is Some ==> forall|j: int|
                0 <= j < scene.len() && (#[trigger] sp_hit_primitive(
                    scene[j],
                    ray,
                    t_min,
                    t_max,
                )) is Some ==> r->Some_0.t <= sp_hit_primitive(
                    scene[j],
                    ray,
                    t_min,
                    t_max,
                )->Some_0.t
        }),
{
    lemma_hit_loop_closest(scene, 0, ray, t_min, t_max, t_max, None);
}

} // verus!
