//! The example scene: a large ground sphere, a matte center sphere, and
//! two metal spheres, with their classic albedos as Q16.16 floors.

use vstd::prelude::*;
use crate::geom::{Primitive, Sphere};
use crate::materials::{Lambertian, MaterialEnum, Metal};
use crate::vec3::Vec3;

verus! {

/// Spec mirror of the example scene.
pub open spec fn sp_example_primitives() -> Seq<Primitive> {
    seq![
        Primitive::Sphere(
            Sphere {
                center: Vec3 { x: 0i64, y: -6586368i64, z: -65536i64 },
                radius: 6553600i64,
                material: MaterialEnum::Lambertian(
                    Lambertian { albedo: Vec3 { x: 52428i64, y: 52428i64, z: 0i64 } },
                ),
            },
        ),
        Primitive::Sphere(
            Sphere {
                center: Vec3 { x: 0i64, y: 0i64, z: -65536i64 },
                radius: 32768i64,
                material: MaterialEnum::Lambertian(
                    Lambertian { albedo: Vec3 { x: 45875i64, y: 19660i64, z: 19660i64 } },
                ),
            },
        ),
        Primitive::Sphere(
            Sphere {
                center: Vec3 { x: -65536i64, y: 0i64, z: -65536i64 },
                radius: 32768i64,
                material: MaterialEnum::Metal(
                    Metal {
                        albedo: Vec3 { x: 52428i64, y: 52428i64, z: 52428i64 },
                        fuzz: 19660i64,
                    },
                ),
            },
        ),
        Primitive::Sphere(
            Sphere {
                center: Vec3 { x: 65536i64, y: 0i64, z: -65536i64 },
                radius: 32768i64,
                material: MaterialEnum::Metal(
                    Metal {
                        albedo: Vec3 { x: 52428i64, y: 39321i64, z: 13107i64 },
                        fuzz: 65536i64,
                    },
                ),
            },
        ),
    ]
}

/// The four example spheres: yellow ground (radius 100 centered at
/// y = -100.5), a matte red center sphere, a lightly fuzzed silver
/// sphere on the left, and a fully fuzzed gold sphere on the right.
pub fn example_primitives() -> (r: Vec<Primitive>)
    ensures
        r@ == sp_example_primitives(),
{
    let mut v: Vec<Primitive> = Vec::new();
    v.push(
        Primitive::Sphere(
            Sphere {
                center: Vec3 { x: 0, y: -6586368, z: -65536 },
                radius: 6553600,
                material: MaterialEnum::Lambertian(
                    Lambertian { albedo: Vec3 { x: 52428, y: 52428, z: 0 } },
                ),
            },
        ),
    );
    v.push(
        Primitive::Sphere(
            Sphere {
                center: Vec3 { x: 0, y: 0, z: -65536 },
                radius: 32768,
                material: MaterialEnum::Lambertian(
                    Lambertian { albedo: Vec3 { x: 45875, y: 19660, z: 19660 } },
                ),
            },
        ),
    );
    v.push(
        Primitive::Sphere(
            Sphere {
                center: Vec3 { x: -65536, y: 0, z: -65536 },
                radius: 32768,
                material: MaterialEnum::Metal(
                    Metal { albedo: Vec3 { x: 52428, y: 52428, z: 52428 }, fuzz: 19660 },
                ),
            },
        ),
    );
    v.push(
        Primitive::Sphere(
            Sphere {
                center: Vec3 { x: 65536, y: 0, z: -65536 },
                radius: 32768,
                material: MaterialEnum::Metal(
                    Metal { albedo: Vec3 { x: 52428, y: 39321, z: 13107 }, fuzz: 65536 },
                ),
            },
        ),
    );
    proof {
        assert(v@ =~= sp_example_primitives());
    }
    v
}

} // verus!
