//! Whole-frame rendering: determinism, layout, and row independence.

use raytracer::camera::Camera;
use raytracer::fx::FX_ONE;
use raytracer::render::{multisampled_color, render_frame, render_row, row_rng};
use raytracer::rng::Pcg32;
use raytracer::scene::example_primitives;
use raytracer::vec3::Vec3;

fn camera(w: u32, h: u32) -> Camera {
    Camera::new(w, h, Vec3::new(0, 0, 0), FX_ONE).unwrap()
}

#[test]
fn render_frame_is_deterministic() {
    // identical scene, camera, sample count, depth, and seed give
    // byte-identical output
    let scene = example_primitives();
    let cam = camera(8, 6);
    let a = render_frame(&scene, &cam, 2, 5, 42);
    let b = render_frame(&scene, &cam, 2, 5, 42);
    assert_eq!(a, b);
}

#[test]
fn frame_layout_is_packed_rgba() {
    let scene = example_primitives();
    let cam = camera(7, 5);
    let frame = render_frame(&scene, &cam, 1, 4, 3);
    assert_eq!(frame.len(), 7 * 5 * 4);
    for px in frame.chunks(4) {
        assert_eq!(px[3], 255);
    }
}

#[test]
fn frame_is_its_rows_concatenated() {
    let scene = example_primitives();
    let cam = camera(6, 4);
    let frame = render_frame(&scene, &cam, 2, 4, 9);
    for row in 0..4u32 {
        let line = render_row(&scene, &cam, row, 2, 4, 9);
        let base = (row as usize) * 6 * 4;
        assert_eq!(&frame[base..base + 6 * 4], &line[..]);
    }
}

#[test]
fn row_generator_depends_only_on_seed_and_row() {
    assert_eq!(row_rng(5, 3), row_rng(5, 3));
    assert_ne!(row_rng(5, 3), row_rng(5, 4));
    assert_ne!(row_rng(5, 3), row_rng(6, 3));
}

#[test]
fn multisampled_pixel_is_deterministic_and_opaque() {
    let scene = example_primitives();
    let cam = camera(16, 16);
    let mut g1 = Pcg32::new(21, 43);
    let mut g2 = Pcg32::new(21, 43);
    let a = multisampled_color(&scene, &mut g1, &cam, 5, 7, 4, 8);
    let b = multisampled_color(&scene, &mut g2, &cam, 5, 7, 4, 8);
    assert_eq!(a, b);
    assert_eq!(a[3], 255);
    assert_eq!(g1, g2);
}

#[test]
fn zero_samples_yield_black_pixels() {
    // averaging over zero samples divides by zero, which the fixed-point
    // convention makes zero: black, fully opaque
    let scene = example_primitives();
    let cam = camera(2, 2);
    let mut g = Pcg32::new(1, 1);
    let px = multisampled_color(&scene, &mut g, &cam, 0, 0, 0, 4);
    assert_eq!(px, [0, 0, 0, 255]);
}

#[test]
fn frame_shows_sky_at_the_top() {
    // with only the background, the top rows blend toward sky blue:
    // blue channel stays at full brightness while red falls below it
    let cam = camera(4, 4);
    let frame = render_frame(&vec![], &cam, 4, 4, 1);
    let top = &frame[0..4];
    assert_eq!(top[3], 255);
    assert!(top[2] > top[0], "blue {} should exceed red {}", top[2], top[0]);
}
