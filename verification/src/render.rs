//! Whole-frame rendering.
//!
//! A pixel's color is the average of jittered samples of the integrator,
//! clamped to `[0, 1]` and sRGB-encoded into four bytes with opaque
//! alpha. Rows are rendered with a generator derived from the frame seed
//! and the row index alone, so rows can be computed independently (and
//! concurrently by a caller) while the whole frame stays a function of
//! the seed: rendering is deterministic.

use vstd::prelude::*;
use crate::camera::{sp_camera_wf, sp_pixel_uv, sp_primary_ray, Camera};
use crate::color::{linear_to_srgb, sp_srgb_byte};
use crate::fx::FX_ONE;
use crate::geom::Primitive;
use crate::rng::{sp_pcg_new, sp_pcg_next, sp_pcg_unit, sp_splitmix_mix, sp_splitmix_step,
    Pcg32, SplitMix64};
use crate::shade::{color, sp_color};
use crate::vec3::{sp_v3_add, sp_v3_clamp, sp_v3_div, Vec3};

verus! {

/// Spec mirror of the per-row generator: the frame seed offset by the
/// row index feeds SplitMix64, whose first two outputs become the PCG
/// state and stream.
pub open spec fn sp_row_rng(seed: u64, row: u32) -> Pcg32 {
    let x0 = vstd::wrapping::u64_specs::wrapping_add(seed, row as u64);
    let x1 = sp_splitmix_step(x0);
    let state = sp_splitmix_mix(x1);
    let x2 = sp_splitmix_step(x1);
    let stream = sp_splitmix_mix(x2);
    sp_pcg_new(state, stream)
}

/// Derive the sampling generator for one row of a frame.
pub fn row_rng(seed: u64, row: u32) -> (r: Pcg32)
    ensures
        r == sp_row_rng(seed, row),
{
    let mut sm = SplitMix64::seed_from_u64(seed.wrapping_add(row as u64));
    let state = sm.next_u64();
    let stream = sm.next_u64();
    Pcg32::new(state, stream)
}

/// Spec mirror of the clamped sample accumulation: each sample draws two
/// jitter values, traces a primary ray, and adds the clamped color.
pub open spec fn sp_sample_sum(
    scene: Seq<Primitive>,
    g: Pcg32,
    cam: Camera,
    uv_x: i64,
    uv_y: i64,
    depth: u32,
    n: nat,
    acc: Vec3,
) -> (Vec3, Pcg32)
    decreases n,
{
    if n == 0 {
        (acc, g)
    } else {
        let jx = sp_pcg_unit(g.state);
        let g1 = sp_pcg_next(g);
        let jy = sp_pcg_unit(g1.state);
        let g2 = sp_pcg_next(g1);
        let ray = sp_primary_ray(cam, uv_x, uv_y, jx, jy);
        let (c, g3) = sp_color(scene, g2, ray, depth as nat);
        let acc2 = sp_v3_add(acc, sp_v3_clamp(c, 0, FX_ONE as int));
        sp_sample_sum(scene, g3, cam, uv_x, uv_y, depth, (n - 1) as nat, acc2)
    }
}

/// Spec mirror of one pixel's averaged linear color.
#[verifier::opaque]
pub open spec fn sp_pixel_color(
    scene: Seq<Primitive>,
    g: Pcg32,
    cam: Camera,
    col: u32,
    row: u32,
    samples: u32,
    depth: u32,
) -> (Vec3, Pcg32) {
    let (uv_x, uv_y) = sp_pixel_uv(cam, col, row);
    let (sum, g1) = sp_sample_sum(
        scene,
        g,
        cam,
        uv_x,
        uv_y,
        depth,
        samples as nat,
        Vec3 { x: 0i64, y: 0i64, z: 0i64 },
    );
    (sp_v3_div(sum, samples * FX_ONE), g1)
}

/// Average `samples` jittered integrator samples for one pixel and
/// encode them as packed sRGB bytes with opaque alpha.
pub fn multisampled_color(
    scene: &Vec<Primitive>,
    rng: &mut Pcg32,
    cam: &Camera,
    col: u32,
    row: u32,
    samples: u32,
    depth: u32,
) -> (r: [u8; 4])
    ensures
        ({
            let (avg, g1) = sp_pixel_color(scene@, *old(rng), *cam, col, row, samples, depth);
            &&& *final(rng) == g1
            &&& r[0] == sp_srgb_byte(avg.x as int)
            &&& r[1] == sp_srgb_byte(avg.y as int)
            &&& r[2] == sp_srgb_byte(avg.z as int)
            &&& r[3] == 255
        }),
{
    proof {
        reveal(sp_pixel_color);
    }
    let (uv_x, uv_y) = cam.pixel_uv(col, row);
    let mut sum = Vec3::zero();
    let mut left: u32 = samples;
    while left > 0
        invariant
            sp_sample_sum(
                scene@,
                *old(rng),
                *cam,
                uv_x,
                uv_y,
                depth,
                samples as nat,
                Vec3 { x: 0i64, y: 0i64, z: 0i64 },
            ) == sp_sample_sum(scene@, *rng, *cam, uv_x, uv_y, depth, left as nat, sum),
        decreases left,
    {
        let jx = rng.next_unit();
        let jy = rng.next_unit();
        let ray = cam.primary_ray(uv_x, uv_y, jx, jy);
        let c = color(scene, rng, &ray, depth);
        sum = sum.add(c.clamp(0, FX_ONE));
        left = left - 1;
    }
    let samples_fx: i64 = (samples as i64) * FX_ONE;
    let avg = sum.div(samples_fx);
    linear_to_srgb(avg)
}

/// Spec mirror of one row's bytes from a column onward.
pub open spec fn sp_row_from(
    scene: Seq<Primitive>,
    g: Pcg32,
    cam: Camera,
    row: u32,
    samples: u32,
    depth: u32,
    col: int,
) -> Seq<u8>
    decreases cam.width - col,
{
    if col < 0 || col >= cam.width {
        Seq::empty()
    } else {
        let (avg, g1) = sp_pixel_color(scene, g, cam, col as u32, row, samples, depth);
        seq![
            sp_srgb_byte(avg.x as int),
            sp_srgb_byte(avg.y as int),
            sp_srgb_byte(avg.z as int),
            255u8,
        ] + sp_row_from(scene, g1, cam, row, samples, depth, col + 1)
    }
}

/// Spec mirror of one row's bytes.
pub open spec fn sp_render_row(
    scene: Seq<Primitive>,
    cam: Camera,
    row: u32,
    samples: u32,
    depth: u32,
    seed: u64,
) -> Seq<u8> {
    sp_row_from(scene, sp_row_rng(seed, row), cam, row, samples, depth, 0)
}

/// Render one row of the frame into packed bytes. The row's generator
/// depends only on the seed and the row index, so rows may be rendered
/// in any order or concurrently.
#[verifier::rlimit(100)]
pub fn render_row(
    scene: &Vec<Primitive>,
    cam: &Camera,
    row: u32,
    samples: u32,
    depth: u32,
    seed: u64,
) -> (r: Vec<u8>)
    requires
        sp_camera_wf(*cam),
    ensures
        r@ == sp_render_row(scene@, *cam, row, samples, depth, seed),
        r@.len() == 4 * cam.width,
        forall|p: int| 0 <= p < cam.width ==> #[trigger] r@[4 * p + 3] == 255,
{
    let mut rng = row_rng(seed, row);
    let mut out: Vec<u8> = Vec::new();
    let mut col: u32 = 0;
    let width = cam.width;
    proof {
        lemma_row_from_len(scene@, rng, *cam, row, samples, depth, 0);
    }
    while col < width
        invariant
            sp_camera_wf(*cam),
            width == cam.width,
            col <= width,
            out@.len() == 4 * col,
            out@ + sp_row_from(scene@, rng, *cam, row, samples, depth, col as int)
                == sp_render_row(scene@, *cam, row, samples, depth, seed),
            forall|p: int| 0 <= p < col ==> #[trigger] out@[4 * p + 3] == 255,
        decreases width - col,
    {
        let bytes = multisampled_color(scene, &mut rng, cam, col, row, samples, depth);
        out.push(bytes[0]);
        out.push(bytes[1]);
        out.push(bytes[2]);
        out.push(bytes[3]);
        col = col + 1;
        proof {
            assert(out@ + sp_row_from(scene@, rng, *cam, row, samples, depth, col as int)
                =~= sp_render_row(scene@, *cam, row, samples, depth, seed));
        }
    }
    proof {
        assert(out@ =~= sp_render_row(scene@, *cam, row, samples, depth, seed));
    }
    out
}

/// The length of a row suffix is four bytes per remaining column.
proof fn lemma_row_from_len(
    scene: Seq<Primitive>,
    g: Pcg32,
    cam: Camera,
    row: u32,
    samples: u32,
    depth: u32,
    col: int,
)
    ensures
        col < 0 ==> sp_row_from(scene, g, cam, row, samples, depth, col).len() == 0,
        0 <= col ==> sp_row_from(scene, g, cam, row, samples, depth, col).len() == if col
            < cam.width {
            4 * (cam.width - col)
        } else {
            0
        },
    decreases cam.width - col,
{
    if 0 <= col < cam.width {
        let (avg, g1) = sp_pixel_color(scene, g, cam, col as u32, row, samples, depth);
        lemma_row_from_len(scene, g1, cam, row, samples, depth, col + 1);
    }
}

/// Spec mirror of the frame's bytes from a row onward.
pub open spec fn sp_frame_from(
    scene: Seq<Primitive>,
    cam: Camera,
    samples: u32,
    depth: u32,
    seed: u64,
    row: int,
) -> Seq<u8>
    decreases cam.height - row,
{
    if row < 0 || row >= cam.height {
        Seq::empty()
    } else {
        sp_render_row(scene, cam, row as u32, samples, depth, seed) + sp_frame_from(
            scene,
            cam,
            samples,
            depth,
            seed,
            row + 1,
        )
    }
}

/// Spec mirror of a whole frame's bytes.
pub open spec fn sp_render_frame(
    scene: Seq<Primitive>,
    cam: Camera,
    samples: u32,
    depth: u32,
    seed: u64,
) -> Seq<u8> {
    sp_frame_from(scene, cam, samples, depth, seed, 0)
}

/// Render a whole frame: tightly packed rows, four bytes per pixel,
/// row-major from the top, alpha always 255. The result is a function
/// of the arguments alone — the same scene, camera, sample count, depth
/// and seed give byte-identical output.
pub fn render_frame(
    scene: &Vec<Primitive>,
    cam: &Camera,
    samples: u32,
    depth: u32,
    seed: u64,
) -> (r: Vec<u8>)
    requires
        sp_camera_wf(*cam),
    ensures
        r@ == sp_render_frame(scene@, *cam, samples, depth, seed),
        r@.len() == 4 * cam.width * cam.height,
{
    let mut out: Vec<u8> = Vec::new();
    let mut row: u32 = 0;
    let height = cam.height;
    while row < height
        invariant
            sp_camera_wf(*cam),
            height == cam.height,
            row <= height,
            out@.len() == 4 * cam.width * row,
            out@ + sp_frame_from(scene@, *cam, samples, depth, seed, row as int)
                == sp_render_frame(scene@, *cam, samples, depth, seed),
        decreases height - row,
    {
        let line = render_row(scene, cam, row, samples, depth, seed);
        let ghost out0 = out@;
        let mut i: usize = 0;
        let line_len = line.len();
        while i < line_len
            invariant
                i <= line_len,
                line_len == line@.len(),
                out@ == out0 + line@.subrange(0, i as int),
            decreases line_len - i,
        {
            let b = line[i];
            out.push(b);
            proof {
                assert(out@ =~= out0 + line@.subrange(0, i + 1 as int));
            }
            i = i + 1;
        }
        proof {
            assert(out@ =~= out0 + line@);
            assert(out@.len() == 4 * cam.width * row + 4 * cam.width);
            assert(4 * cam.width * row + 4 * cam.width == 4 * cam.width * (row + 1))
                by (nonlinear_arith);
        }
        row = row + 1;
        proof {
            assert(out@ + sp_frame_from(scene@, *cam, samples, depth, seed, row as int)
                =~= sp_render_frame(scene@, *cam, samples, depth, seed));
        }
    }
    proof {
        assert(out@ =~= sp_render_frame(scene@, *cam, samples, depth, seed));
    }
    out
}

/// A frame suffix holds four bytes per pixel of the remaining rows.
proof fn lemma_frame_from_len(
    scene: Seq<Primitive>,
    cam: Camera,
    samples: u32,
    depth: u32,
    seed: u64,
    row: int,
)
    requires
        0 <= row,
    ensures
        sp_frame_from(scene, cam, samples, depth, seed, row).len() == if row < cam.height {
            4 * cam.width * (cam.height - row)
        } else {
            0
        },
    decreases cam.height - row,
{
    if row < cam.height {
        lemma_row_from_len(scene, sp_row_rng(seed, row as u32), cam, row as u32, samples, depth, 0);
        lemma_frame_from_len(scene, cam, samples, depth, seed, row + 1);
        assert(4 * cam.width + 4 * cam.width * (cam.height - row - 1) == 4 * cam.width * (
        cam.height - row)) by (nonlinear_arith);
    }
}

/// A subrange is a skip followed by a take.
proof fn lemma_subrange_skip_take<A>(s: Seq<A>, a: int, len: int)
    requires
        0 <= a,
        0 <= len,
        a + len <= s.len(),
    ensures
        s.subrange(a, a + len) == s.skip(a).take(len),
{
    assert(s.subrange(a, a + len) =~= s.skip(a).take(len));
}

/// Row-major, top-to-bottom layout: the frame's bytes for one row are
/// exactly that row's bytes, at the row's offset.
pub proof fn lemma_frame_row_slice(
    scene: Seq<Primitive>,
    cam: Camera,
    samples: u32,
    depth: u32,
    seed: u64,
    row: u32,
)
    requires
        row < cam.height,
    ensures
        sp_render_frame(scene, cam, samples, depth, seed).subrange(
            4 * cam.width * row,
            4 * cam.width * (row + 1),
        ) == sp_render_row(scene, cam, row, samples, depth, seed),
{
    let w4 = 4 * cam.width as int;
    let frame = sp_render_frame(scene, cam, samples, depth, seed);
    lemma_frame_skip(scene, cam, samples, depth, seed, 0, row);
    assert(w4 * (row - 0) == 4 * cam.width * row) by (nonlinear_arith)
        requires
            w4 == 4 * cam.width as int,
    ;
    let rest = sp_frame_from(scene, cam, samples, depth, seed, row as int);
    assert(frame.skip(4 * cam.width * row) == rest);
    let head = sp_render_row(scene, cam, row, samples, depth, seed);
    let tail = sp_frame_from(scene, cam, samples, depth, seed, row as int + 1);
    lemma_row_from_len(scene, sp_row_rng(seed, row), cam, row, samples, depth, 0);
    assert(head.len() == w4);
    assert(rest == head + tail);
    vstd::seq_lib::lemma_seq_append_take_skip(head, tail, w4);
    assert(rest.take(w4) == head);
    lemma_frame_from_len(scene, cam, samples, depth, seed, 0);
    assert(4 * cam.width * row + w4 <= 4 * cam.width * cam.height
        && 4 * cam.width * (row + 1) == 4 * cam.width * row + w4) by (nonlinear_arith)
        requires
            w4 == 4 * cam.width as int,
            row + 1 <= cam.height,
    ;
    lemma_subrange_skip_take(frame, 4 * cam.width * row, w4);
}

/// Skipping whole rows of the frame suffix lands on a later suffix.
proof fn lemma_frame_skip(
    scene: Seq<Primitive>,
    cam: Camera,
    samples: u32,
    depth: u32,
    seed: u64,
    r0: int,
    row: u32,
)
    requires
        0 <= r0 <= row < cam.height,
    ensures
        sp_frame_from(scene, cam, samples, depth, seed, r0).skip(4 * cam.width * (row - r0))
            == sp_frame_from(scene, cam, samples, depth, seed, row as int),
    decreases row - r0,
{
    let w4 = 4 * cam.width as int;
    let head = sp_render_row(scene, cam, r0 as u32, samples, depth, seed);
    let tail = sp_frame_from(scene, cam, samples, depth, seed, r0 + 1);
    lemma_row_from_len(scene, sp_row_rng(seed, r0 as u32), cam, r0 as u32, samples, depth, 0);
    assert(head.len() == w4);
    if r0 == row {
        assert((head + tail).skip(0) =~= head + tail);
    } else {
        lemma_frame_skip(scene, cam, samples, depth, seed, r0 + 1, row);
        lemma_frame_from_len(scene, cam, samples, depth, seed, r0 + 1);
        let k2 = w4 * (row - (r0 + 1));
        assert(w4 * (row - r0) == w4 + k2) by (nonlinear_arith)
            requires
                w4 == 4 * cam.width as int,
                k2 == w4 * (row - (r0 + 1)),
        ;
        assert(0 <= k2 && k2 <= w4 * (cam.height - r0 - 1)) by (nonlinear_arith)
            requires
                w4 >= 0,
                0 <= row - (r0 + 1),
                row < cam.height,
                k2 == w4 * (row - (r0 + 1)),
        ;
        vstd::seq_lib::lemma_seq_append_take_skip(head, tail, w4);
        lemma_skip_skip(head + tail, w4, k2);
    }
}

/// Skipping in two steps is skipping the sum.
proof fn lemma_skip_skip<A>(s: Seq<A>, a: int, b: int)
    requires
        0 <= a,
        0 <= b,
        a + b <= s.len(),
    ensures
        s.skip(a + b) == s.skip(a).skip(b),
{
    assert(s.skip(a + b) =~= s.skip(a).skip(b));
}

/// Determinism: a frame's bytes are a function of the scene, camera,
/// sample count, depth, and seed alone, so two renders with identical
/// arguments are byte-identical.
pub proof fn lemma_render_frame_deterministic(
    b1: Seq<u8>,
    b2: Seq<u8>,
    scene: Seq<Primitive>,
    cam: Camera,
    samples: u32,
    depth: u32,
    seed: u64,
)
    requires
        b1 == sp_render_frame(scene, cam, samples, depth, seed),
        b2 == sp_render_frame(scene, cam, samples, depth, seed),
    ensures
        b1 == b2,
{
}

} // verus!
