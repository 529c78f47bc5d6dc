//! Flattening a scene into typed buffers and index-range tables.
//!
//! The GPU encoding path consumes the scene as three flat buffers — one
//! of padded four-component vectors, one of scalars, one of indices —
//! with a range table per primitive and material variant giving each
//! field's base index. Centers come first in the vector buffer, then
//! the albedos of the Lambertian materials in scene order, then those
//! of the metals; radii precede fuzz values in the scalar buffer; the
//! index buffer holds every sphere's material tag and then its index
//! into its variant's table. The contracts pin every slot's content.

use vstd::prelude::*;
use crate::fx::FX_ONE;
use crate::geom::Primitive;
use crate::materials::MaterialEnum;

verus! {

/// Tag marking a Lambertian material in the index buffer.
pub const MATERIAL_TY_LAMBERTIAN: i32 = 1;

/// Tag marking a metal material in the index buffer.
pub const MATERIAL_TY_METAL: i32 = 2;

/// Largest scene the flattener accepts, so every base index fits `i32`.
pub const MAX_FLAT_SCENE: usize = 0x3FFF_FFFF;

/// Where the sphere fields live in the flat buffers.
#[derive(Clone, Copy, PartialEq, Eq, Structural, Debug)]
pub struct SphereRange {
    pub center_base_idx: i32,
    pub radius_base_idx: i32,
    pub material_ty_base_idx: i32,
    pub material_idx_base_idx: i32,
    pub length: i32,
}

/// Where the Lambertian albedos live.
#[derive(Clone, Copy, PartialEq, Eq, Structural, Debug)]
pub struct LambertianRange {
    pub albedo_base_idx: i32,
    pub length: i32,
}

/// Where the metal albedos and fuzz values live.
#[derive(Clone, Copy, PartialEq, Eq, Structural, Debug)]
pub struct MetalRange {
    pub albedo_base_idx: i32,
    pub fuzz_base_idx: i32,
    pub length: i32,
}

/// The flattened scene: range tables plus the three data buffers.
#[derive(Clone, PartialEq, Eq, Debug)]
pub struct FlatWorld {
    pub spheres: SphereRange,
    pub lambertians: LambertianRange,
    pub metals: MetalRange,
    pub vec4_data: Vec<[i64; 4]>,
    pub scalar_data: Vec<i64>,
    pub index_data: Vec<i32>,
}

/// How many Lambertian materials stand among the first `i` primitives.
pub open spec fn sp_lam_count(scene: Seq<Primitive>, i: int) -> int
    decreases i,
{
    if i <= 0 {
        0
    } else {
        sp_lam_count(scene, i - 1) + if scene[i - 1]->Sphere_0.material is Lambertian {
            1int
        } else {
            0int
        }
    }
}

/// How many metal materials stand among the first `i` primitives.
pub open spec fn sp_metal_count(scene: Seq<Primitive>, i: int) -> int
    decreases i,
{
    if i <= 0 {
        0
    } else {
        sp_metal_count(scene, i - 1) + if scene[i - 1]->Sphere_0.material is Metal {
            1int
        } else {
            0int
        }
    }
}

/// The tag an index-buffer entry carries for a material.
pub open spec fn sp_material_tag(m: MaterialEnum) -> i32 {
    match m {
        MaterialEnum::Lambertian(_) => MATERIAL_TY_LAMBERTIAN,
        MaterialEnum::Metal(_) => MATERIAL_TY_METAL,
    }
}

/// A vector padded to four components with 1.
pub open spec fn sp_pad4(v: crate::vec3::Vec3) -> [i64; 4] {
    [v.x, v.y, v.z, FX_ONE]
}

/// The counts grow along the scene, and strictly past a primitive of
/// the counted variant.
proof fn lemma_count_mono(scene: Seq<Primitive>, a: int, b: int)
    requires
        0 <= a <= b,
    ensures
        sp_lam_count(scene, a) <= sp_lam_count(scene, b),
        sp_metal_count(scene, a) <= sp_metal_count(scene, b),
        a < b && scene[a]->Sphere_0.material is Lambertian ==> sp_lam_count(scene, a)
            < sp_lam_count(scene, b),
        a < b && scene[a]->Sphere_0.material is Metal ==> sp_metal_count(scene, a)
            < sp_metal_count(scene, b),
    decreases b - a,
{
    if a < b {
        lemma_count_mono(scene, a + 1, b);
    }
}

/// Counts never exceed the number of primitives counted.
proof fn lemma_counts_bounded(scene: Seq<Primitive>, i: int)
    requires
        0 <= i,
    ensures
        0 <= sp_lam_count(scene, i) <= i,
        0 <= sp_metal_count(scene, i) <= i,
        sp_lam_count(scene, i) + sp_metal_count(scene, i) == i || i > scene.len(),
    decreases i,
{
    if i > 0 {
        lemma_counts_bounded(scene, i - 1);
    }
}

/// Every primitive is a Lambertian or a metal, so the two counts
/// together cover the scene.
pub proof fn lemma_counts_partition(scene: Seq<Primitive>)
    ensures
        0 <= sp_lam_count(scene, scene.len() as int) <= scene.len(),
        0 <= sp_metal_count(scene, scene.len() as int) <= scene.len(),
        sp_lam_count(scene, scene.len() as int) + sp_metal_count(scene, scene.len() as int)
            == scene.len(),
{
    lemma_counts_bounded(scene, scene.len() as int);
}

/// The Lambertian albedo table is filled correctly up to primitive
/// `upto`: each Lambertian's padded albedo sits at its running count,
/// offset by `base`.
pub open spec fn sp_lam_table_ok(
    scene: Seq<Primitive>,
    table: Seq<[i64; 4]>,
    base: int,
    upto: int,
) -> bool {
    forall|k: int|
        0 <= k < upto && scene[k]->Sphere_0.material is Lambertian ==> #[trigger] table[base
            + sp_lam_count(scene, k)] == sp_pad4(
            crate::materials::sp_albedo(scene[k]->Sphere_0.material),
        )
}

/// The metal albedo table is filled correctly up to primitive `upto`.
pub open spec fn sp_metal_table_ok(
    scene: Seq<Primitive>,
    table: Seq<[i64; 4]>,
    base: int,
    upto: int,
) -> bool {
    forall|k: int|
        0 <= k < upto && scene[k]->Sphere_0.material is Metal ==> #[trigger] table[base
            + sp_metal_count(scene, k)] == sp_pad4(
            crate::materials::sp_albedo(scene[k]->Sphere_0.material),
        )
}

/// The fuzz table is filled correctly up to primitive `upto`.
pub open spec fn sp_fuzz_table_ok(
    scene: Seq<Primitive>,
    table: Seq<i64>,
    base: int,
    upto: int,
) -> bool {
    forall|k: int|
        0 <= k < upto && scene[k]->Sphere_0.material is Metal ==> #[trigger] table[base
            + sp_metal_count(scene, k)] == scene[k]->Sphere_0.material->Metal_0.fuzz
}

/// Flatten a scene into typed buffers with index-range tables: centers,
/// per-variant albedos and fuzz values land at the documented base
/// indices, every sphere's entries sit at its own offset, and each
/// sphere's material index points at its material's slot within its
/// variant's table.
pub fn flatten_world(scene: &Vec<Primitive>) -> (r: FlatWorld)
    requires
        scene@.len() <= MAX_FLAT_SCENE,
    ensures
        ({
            let n = scene@.len() as int;
            let nl = sp_lam_count(scene@, n);
            let nm = sp_metal_count(scene@, n);
            &&& r.spheres == (SphereRange {
                center_base_idx: 0i32,
                radius_base_idx: 0i32,
                material_ty_base_idx: 0i32,
                material_idx_base_idx: n as i32,
                length: n as i32,
            })
            &&& r.lambertians == (LambertianRange {
                albedo_base_idx: n as i32,
                length: nl as i32,
            })
            &&& r.metals == (MetalRange {
                albedo_base_idx: (n + nl) as i32,
                fuzz_base_idx: n as i32,
                length: nm as i32,
            })
            &&& r.vec4_data@.len() == n + nl + nm
            &&& r.scalar_data@.len() == n + nm
            &&& r.index_data@.len() == n + n
            &&& forall|i: int|
                0 <= i < n ==> #[trigger] r.vec4_data@[i] == sp_pad4(
                    scene@[i]->Sphere_0.center,
                )
            &&& forall|i: int|
                0 <= i < n ==> #[trigger] r.scalar_data@[i] == scene@[i]->Sphere_0.radius
            &&& forall|i: int|
                0 <= i < n ==> #[trigger] r.index_data@[i] == sp_material_tag(
                    scene@[i]->Sphere_0.material,
                )
            &&& forall|i: int|
                0 <= i < n ==> #[trigger] r.index_data@[n + i] == if scene@[i]->Sphere_0.material
                    is Lambertian {
                    sp_lam_count(scene@, i) as i32
                } else {
                    sp_metal_count(scene@, i) as i32
                }
            &&& sp_lam_table_ok(scene@, r.vec4_data@, n, n)
            &&& sp_metal_table_ok(scene@, r.vec4_data@, n + nl, n)
            &&& sp_fuzz_table_ok(scene@, r.scalar_data@, n, n)
        }),
{
    let n = scene.len();
    let mut centers: Vec<[i64; 4]> = Vec::new();
    let mut radii: Vec<i64> = Vec::new();
    let mut tags: Vec<i32> = Vec::new();
    let mut mat_idxs: Vec<i32> = Vec::new();
    let mut lam_albedos: Vec<[i64; 4]> = Vec::new();
    let mut metal_albedos: Vec<[i64; 4]> = Vec::new();
    let mut fuzzes: Vec<i64> = Vec::new();

    let mut i: usize = 0;
    while i < n
        invariant
            n == scene@.len(),
            i <= n,
            n <= MAX_FLAT_SCENE,
            centers@.len() == i,
            radii@.len() == i,
            tags@.len() == i,
            mat_idxs@.len() == i,
            lam_albedos@.len() == sp_lam_count(scene@, i as int),
            metal_albedos@.len() == sp_metal_count(scene@, i as int),
            fuzzes@.len() == sp_metal_count(scene@, i as int),
            forall|k: int|
                0 <= k < i ==> #[trigger] centers@[k] == sp_pad4(scene@[k]->Sphere_0.center),
            forall|k: int| 0 <= k < i ==> #[trigger] radii@[k] == scene@[k]->Sphere_0.radius,
            forall|k: int|
                0 <= k < i ==> #[trigger] tags@[k] == sp_material_tag(
                    scene@[k]->Sphere_0.material,
                ),
            forall|k: int|
                0 <= k < i ==> #[trigger] mat_idxs@[k] == if scene@[k]->Sphere_0.material
                    is Lambertian {
                    sp_lam_count(scene@, k) as i32
                } else {
                    sp_metal_count(scene@, k) as i32
                },
            sp_lam_table_ok(scene@, lam_albedos@, 0, i as int),
            sp_metal_table_ok(scene@, metal_albedos@, 0, i as int),
            sp_fuzz_table_ok(scene@, fuzzes@, 0, i as int),
        decreases n - i,
    {
        proof {
            lemma_counts_bounded(scene@, i as int);
        }
        let ghost lam0 = lam_albedos@;
        let ghost metal0 = metal_albedos@;
        let ghost fuzz0 = fuzzes@;
        let p = scene[i];
        match p {
            Primitive::Sphere(s) => {
                centers.push([s.center.x, s.center.y, s.center.z, FX_ONE]);
                radii.push(s.radius);
                match s.material {
                    MaterialEnum::Lambertian(l) => {
                        tags.push(MATERIAL_TY_LAMBERTIAN);
                        mat_idxs.push(lam_albedos.len() as i32);
                        lam_albedos.push([l.albedo.x, l.albedo.y, l.albedo.z, FX_ONE]);
                    },
                    MaterialEnum::Metal(m) => {
                        tags.push(MATERIAL_TY_METAL);
                        mat_idxs.push(metal_albedos.len() as i32);
                        metal_albedos.push([m.albedo.x, m.albedo.y, m.albedo.z, FX_ONE]);
                        fuzzes.push(m.fuzz);
                    },
                }
            },
        }
        proof {
            let gi = i as int;
            assert forall|k: int|
                0 <= k < gi + 1 && scene@[k]->Sphere_0.material is Lambertian implies
                #[trigger] lam_albedos@[0 + sp_lam_count(scene@, k)] == sp_pad4(
                crate::materials::sp_albedo(scene@[k]->Sphere_0.material),
            ) by {
                if k < gi {
                    lemma_counts_bounded(scene@, k);
                    lemma_count_mono(scene@, k, gi);
                    assert(lam0[0 + sp_lam_count(scene@, k)] == sp_pad4(
                        crate::materials::sp_albedo(scene@[k]->Sphere_0.material),
                    ));
                    if scene@[gi]->Sphere_0.material is Lambertian {
                        assert(lam_albedos@ == lam0.push(lam_albedos@.last()));
                    } else {
                        assert(lam_albedos@ == lam0);
                    }
                } else {
                    let m = scene@[gi]->Sphere_0.material;
                    assert(m is Lambertian);
                    assert(lam_albedos@[sp_lam_count(scene@, gi)] =~= sp_pad4(
                        crate::materials::sp_albedo(m),
                    ));
                }
            }
            assert(sp_lam_table_ok(scene@, lam_albedos@, 0, gi + 1));
            assert forall|k: int|
                0 <= k < gi + 1 && scene@[k]->Sphere_0.material is Metal implies
                #[trigger] metal_albedos@[0 + sp_metal_count(scene@, k)] == sp_pad4(
                crate::materials::sp_albedo(scene@[k]->Sphere_0.material),
            ) by {
                if k < gi {
                    lemma_counts_bounded(scene@, k);
                    lemma_count_mono(scene@, k, gi);
                    assert(metal0[0 + sp_metal_count(scene@, k)] == sp_pad4(
                        crate::materials::sp_albedo(scene@[k]->Sphere_0.material),
                    ));
                    if scene@[gi]->Sphere_0.material is Metal {
                        assert(metal_albedos@ == metal0.push(metal_albedos@.last()));
                    } else {
                        assert(metal_albedos@ == metal0);
                    }
                } else {
                    let m = scene@[gi]->Sphere_0.material;
                    assert(m is Metal);
                    assert(metal_albedos@[sp_metal_count(scene@, gi)] =~= sp_pad4(
                        crate::materials::sp_albedo(m),
                    ));
                }
            }
            assert(sp_metal_table_ok(scene@, metal_albedos@, 0, gi + 1));
            assert forall|k: int|
                0 <= k < gi + 1 && scene@[k]->Sphere_0.material is Metal implies
                #[trigger] fuzzes@[0 + sp_metal_count(scene@, k)]
                == scene@[k]->Sphere_0.material->Metal_0.fuzz by {
                if k < gi {
                    lemma_counts_bounded(scene@, k);
                    lemma_count_mono(scene@, k, gi);
                    assert(fuzz0[0 + sp_metal_count(scene@, k)]
                        == scene@[k]->Sphere_0.material->Metal_0.fuzz);
                    if scene@[gi]->Sphere_0.material is Metal {
                        assert(fuzzes@ == fuzz0.push(fuzzes@.last()));
                    } else {
                        assert(fuzzes@ == fuzz0);
                    }
                } else {
                    let m = scene@[gi]->Sphere_0.material;
                    assert(m is Metal);
                    assert(fuzzes@[sp_metal_count(scene@, gi)] == m->Metal_0.fuzz);
                }
            }
            assert(sp_fuzz_table_ok(scene@, fuzzes@, 0, gi + 1));
        }
        i = i + 1;
    }

    proof {
        lemma_counts_bounded(scene@, n as int);
    }
    let nl = lam_albedos.len();
    let nm = metal_albedos.len();

    let mut vec4_data: Vec<[i64; 4]> = centers;
    extend_vec4(&mut vec4_data, &lam_albedos);
    extend_vec4(&mut vec4_data, &metal_albedos);

    let mut scalar_data: Vec<i64> = radii;
    extend_i64(&mut scalar_data, &fuzzes);

    let mut index_data: Vec<i32> = tags;
    extend_i32(&mut index_data, &mat_idxs);

    proof {
        let gn = n as int;
        let gnl = nl as int;
        let gnm = nm as int;
        assert(vec4_data@.len() == gn + gnl + gnm);
        assert forall|i: int| 0 <= i < gn implies #[trigger] vec4_data@[i] == sp_pad4(
            scene@[i]->Sphere_0.center,
        ) by {
            assert(vec4_data@[i] == centers@[i]);
        }
        assert forall|i: int| 0 <= i < gn implies #[trigger] scalar_data@[i]
            == scene@[i]->Sphere_0.radius by {
            assert(scalar_data@[i] == radii@[i]);
        }
        assert forall|i: int| 0 <= i < gn implies #[trigger] index_data@[i] == sp_material_tag(
            scene@[i]->Sphere_0.material,
        ) by {
            assert(index_data@[i] == tags@[i]);
        }
        assert forall|i: int| 0 <= i < gn implies #[trigger] index_data@[gn + i] == (
        if scene@[i]->Sphere_0.material is Lambertian {
            sp_lam_count(scene@, i) as i32
        } else {
            sp_metal_count(scene@, i) as i32
        }) by {
            assert(index_data@[gn + i] == mat_idxs@[i]);
        }
        assert forall|k: int|
            0 <= k < gn && scene@[k]->Sphere_0.material is Lambertian implies
            #[trigger] vec4_data@[gn + sp_lam_count(scene@, k)] == sp_pad4(
            crate::materials::sp_albedo(scene@[k]->Sphere_0.material),
        ) by {
            lemma_counts_bounded(scene@, k);
            lemma_count_mono(scene@, k, gn);
            assert(lam_albedos@[0 + sp_lam_count(scene@, k)] == sp_pad4(
                crate::materials::sp_albedo(scene@[k]->Sphere_0.material),
            ));
            assert(vec4_data@[gn + sp_lam_count(scene@, k)] == lam_albedos@[sp_lam_count(
                scene@,
                k,
            )]);
        }
        assert forall|k: int|
            0 <= k < gn && scene@[k]->Sphere_0.material is Metal implies
            #[trigger] vec4_data@[gn + gnl + sp_metal_count(scene@, k)] == sp_pad4(
            crate::materials::sp_albedo(scene@[k]->Sphere_0.material),
        ) by {
            lemma_counts_bounded(scene@, k);
            lemma_count_mono(scene@, k, gn);
            assert(metal_albedos@[0 + sp_metal_count(scene@, k)] == sp_pad4(
                crate::materials::sp_albedo(scene@[k]->Sphere_0.material),
            ));
            assert(vec4_data@[gn + gnl + sp_metal_count(scene@, k)] == metal_albedos@[
                sp_metal_count(scene@, k)]);
        }
        assert forall|k: int|
            0 <= k < gn && scene@[k]->Sphere_0.material is Metal implies
            #[trigger] scalar_data@[gn + sp_metal_count(scene@, k)]
            == scene@[k]->Sphere_0.material->Metal_0.fuzz by {
            lemma_counts_bounded(scene@, k);
            lemma_count_mono(scene@, k, gn);
            assert(fuzzes@[0 + sp_metal_count(scene@, k)]
                == scene@[k]->Sphere_0.material->Metal_0.fuzz);
            assert(scalar_data@[gn + sp_metal_count(scene@, k)] == fuzzes@[sp_metal_count(
                scene@,
                k,
            )]);
        }
    }

    FlatWorld {
        spheres: SphereRange {
            center_base_idx: 0,
            radius_base_idx: 0,
            material_ty_base_idx: 0,
            material_idx_base_idx: n as i32,
            length: n as i32,
        },
        lambertians: LambertianRange { albedo_base_idx: n as i32, length: nl as i32 },
        metals: MetalRange {
            albedo_base_idx: (n + nl) as i32,
            fuzz_base_idx: n as i32,
            length: nm as i32,
        },
        vec4_data,
        scalar_data,
        index_data,
    }
}

/// The screen-filling quad every render pipeline draws: the four corner
/// vertices in triangle-strip order.
pub fn unit_quad_vertices() -> (r: Vec<[i64; 2]>)
    ensures
        r@ == seq![
            [-65536i64, -65536i64],
            [-65536i64, 65536i64],
            [65536i64, -65536i64],
            [65536i64, 65536i64],
        ],
{
    let mut v: Vec<[i64; 2]> = Vec::new();
    v.push([-FX_ONE, -FX_ONE]);
    v.push([-FX_ONE, FX_ONE]);
    v.push([FX_ONE, -FX_ONE]);
    v.push([FX_ONE, FX_ONE]);
    proof {
        assert(v@ =~= seq![
            [-65536i64, -65536i64],
            [-65536i64, 65536i64],
            [65536i64, -65536i64],
            [65536i64, 65536i64],
        ]);
    }
    v
}

/// Append every element of `src` to `dst`.
fn extend_vec4(dst: &mut Vec<[i64; 4]>, src: &Vec<[i64; 4]>)
    ensures
        final(dst)@ == old(dst)@ + src@,
{
    let mut i: usize = 0;
    let m = src.len();
    while i < m
        invariant
            i <= m,
            m == src@.len(),
            dst@ == old(dst)@ + src@.subrange(0, i as int),
        decreases m - i,
    {
        let v = src[i];
        dst.push(v);
        proof {
            assert(dst@ =~= old(dst)@ + src@.subrange(0, i + 1 as int));
        }
        i = i + 1;
    }
    proof {
        assert(dst@ =~= old(dst)@ + src@);
    }
}

/// Append every element of `src` to `dst`.
fn extend_i64(dst: &mut Vec<i64>, src: &Vec<i64>)
    ensures
        final(dst)@ == old(dst)@ + src@,
{
    let mut i: usize = 0;
    let m = src.len();
    while i < m
        invariant
            i <= m,
            m == src@.len(),
            dst@ == old(dst)@ + src@.subrange(0, i as int),
        decreases m - i,
    {
        let v = src[i];
        dst.push(v);
        proof {
            assert(dst@ =~= old(dst)@ + src@.subrange(0, i + 1 as int));
        }
        i = i + 1;
    }
    proof {
        assert(dst@ =~= old(dst)@ + src@);
    }
}

/// Append every element of `src` to `dst`.
fn extend_i32(dst: &mut Vec<i32>, src: &Vec<i32>)
    ensures
        final(dst)@ == old(dst)@ + src@,
{
    let mut i: usize = 0;
    let m = src.len();
    while i < m
        invariant
            i <= m,
            m == src@.len(),
            dst@ == old(dst)@ + src@.subrange(0, i as int),
        decreases m - i,
    {
        let v = src[i];
        dst.push(v);
        proof {
            assert(dst@ =~= old(dst)@ + src@.subrange(0, i + 1 as int));
        }
        i = i + 1;
    }
    proof {
        assert(dst@ =~= old(dst)@ + src@);
    }
}

} // verus!
