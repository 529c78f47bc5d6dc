//! Scene flattening into typed buffers and index-range tables.

use raytracer::flatten::{
    flatten_world, FlatWorld, MATERIAL_TY_LAMBERTIAN, MATERIAL_TY_METAL,
};
use raytracer::fx::FX_ONE;
use raytracer::scene::example_primitives;

fn flat_example() -> FlatWorld {
    flatten_world(&example_primitives())
}

#[test]
fn ranges_describe_the_example_scene() {
    let w = flat_example();
    assert_eq!(w.spheres.length, 4);
    assert_eq!(w.lambertians.length, 2);
    assert_eq!(w.metals.length, 2);
    assert_eq!(w.spheres.center_base_idx, 0);
    assert_eq!(w.spheres.radius_base_idx, 0);
    assert_eq!(w.spheres.material_ty_base_idx, 0);
    assert_eq!(w.spheres.material_idx_base_idx, 4);
    assert_eq!(w.lambertians.albedo_base_idx, 4);
    assert_eq!(w.metals.albedo_base_idx, 6);
    assert_eq!(w.metals.fuzz_base_idx, 4);
}

#[test]
fn buffers_have_the_documented_layout() {
    let w = flat_example();
    assert_eq!(w.vec4_data.len(), 4 + 2 + 2);
    assert_eq!(w.scalar_data.len(), 4 + 2);
    assert_eq!(w.index_data.len(), 8);
}

#[test]
fn centers_are_padded_with_one() {
    let w = flat_example();
    assert_eq!(w.vec4_data[0], [0, -6586368, -65536, FX_ONE]);
    assert_eq!(w.vec4_data[1], [0, 0, -65536, FX_ONE]);
    assert_eq!(w.vec4_data[2], [-65536, 0, -65536, FX_ONE]);
    assert_eq!(w.vec4_data[3], [65536, 0, -65536, FX_ONE]);
}

#[test]
fn radii_then_fuzzes_in_the_scalar_buffer() {
    let w = flat_example();
    assert_eq!(&w.scalar_data[0..4], &[6553600, 32768, 32768, 32768]);
    // the two metal fuzz values in scene order
    assert_eq!(&w.scalar_data[4..6], &[19660, 65536]);
}

#[test]
fn tags_and_material_indices() {
    let w = flat_example();
    assert_eq!(
        &w.index_data[0..4],
        &[
            MATERIAL_TY_LAMBERTIAN,
            MATERIAL_TY_LAMBERTIAN,
            MATERIAL_TY_METAL,
            MATERIAL_TY_METAL
        ]
    );
    // each sphere's index within its variant's table
    assert_eq!(&w.index_data[4..8], &[0, 1, 0, 1]);
}

#[test]
fn albedos_grouped_by_variant() {
    let w = flat_example();
    // Lambertian albedos in scene order at the Lambertian base
    assert_eq!(w.vec4_data[4], [52428, 52428, 0, FX_ONE]);
    assert_eq!(w.vec4_data[5], [45875, 19660, 19660, FX_ONE]);
    // metal albedos after them
    assert_eq!(w.vec4_data[6], [52428, 52428, 52428, FX_ONE]);
    assert_eq!(w.vec4_data[7], [52428, 39321, 13107, FX_ONE]);
}

#[test]
fn screen_quad_corners() {
    let v = raytracer::flatten::unit_quad_vertices();
    assert_eq!(
        v,
        vec![
            [-65536, -65536],
            [-65536, 65536],
            [65536, -65536],
            [65536, 65536]
        ]
    );
}

#[test]
fn empty_scene_flattens_to_empty_tables() {
    let w = flatten_world(&vec![]);
    assert_eq!(w.spheres.length, 0);
    assert_eq!(w.lambertians.length, 0);
    assert_eq!(w.metals.length, 0);
    assert!(w.vec4_data.is_empty());
    assert!(w.scalar_data.is_empty());
    assert!(w.index_data.is_empty());
}
