//! Camera configuration and primary-ray generation.
//!
//! A camera maps a pixel's normalized coordinate (rows counted from the
//! top) through a viewport rectangle derived from the aspect ratio and a
//! focal length to a ray from a fixed origin. Anti-aliasing jitter is a
//! per-sample offset within one pixel's footprint. Configuration with a
//! zero dimension is rejected at setup; dimensions are also capped so a
//! frame's byte count fits comfortably in an index.

use vstd::prelude::*;
use crate::fx::{fx_add, fx_div, fx_mul, fx_neg, fx_sub, sp_fx_add, sp_fx_div, sp_fx_mul,
    sp_fx_neg, sp_fx_sub, FX_HALF, FX_ONE, FX_TWO};
use crate::geom::Ray;
use crate::vec3::{as_fx, sp_v3_add, Vec3};

verus! {

/// Most pixels a frame may have on a side.
pub const MAX_DIMENSION: u32 = 16384;

/// Rendering parameters as callers hand them in. The accumulation weight
/// cap is an exact rational `max_weight_num / max_weight_den`.
#[derive(Clone, Copy, PartialEq, Eq, Structural, Debug)]
pub struct Args {
    pub width: u32,
    pub height: u32,
    pub samples_per_frame: u32,
    pub ray_depth: u32,
    pub max_weight_num: u32,
    pub max_weight_den: u32,
}

impl Default for Args {
    /// Zero dimensions (take them from the window), one sample per
    /// frame, fifty bounces, and an uncapped accumulation weight.
    fn default() -> (r: Args)
        ensures
            r == (Args {
                width: 0u32,
                height: 0u32,
                samples_per_frame: 1u32,
                ray_depth: 50u32,
                max_weight_num: 1u32,
                max_weight_den: 1u32,
            }),
    {
        Args {
            width: 0,
            height: 0,
            samples_per_frame: 1,
            ray_depth: 50,
            max_weight_num: 1,
            max_weight_den: 1,
        }
    }
}

/// Spec mirror of the window-size rule: both dimensions zero defers to
/// the windowing layer, one zero dimension copies the other, and both
/// set stand as given.
pub open spec fn sp_resolve_size(width: u32, height: u32) -> Option<(u32, u32)> {
    if width == 0 && height == 0 {
        None
    } else if height == 0 {
        Some((width, width))
    } else if width == 0 {
        Some((height, height))
    } else {
        Some((width, height))
    }
}

/// Resolve requested dimensions into a concrete window size, or `None`
/// when the window's own size should be used.
pub fn resolve_size(width: u32, height: u32) -> (r: Option<(u32, u32)>)
    ensures
        r == sp_resolve_size(width, height),
{
    if width == 0 && height == 0 {
        None
    } else if height == 0 {
        Some((width, width))
    } else if width == 0 {
        Some((height, height))
    } else {
        Some((width, height))
    }
}

/// A configured camera: pixel dimensions, their fixed-point shape, one
/// pixel's footprint, the viewport rectangle, the eye, and the focal
/// length.
#[derive(Clone, Copy, PartialEq, Eq, Structural, Debug)]
pub struct Camera {
    pub width: u32,
    pub height: u32,
    pub shape_x: i64,
    pub shape_y: i64,
    pub pixel_w: i64,
    pub pixel_h: i64,
    pub viewport_x: i64,
    pub viewport_y: i64,
    pub origin: Vec3,
    pub focal_length: i64,
}

/// Spec mirror of the derived camera fields for accepted dimensions.
pub open spec fn sp_camera_new(width: u32, height: u32, origin: Vec3, focal_length: i64) -> Camera {
    let shape_x = (width * FX_ONE) as i64;
    let shape_y = (height * FX_ONE) as i64;
    Camera {
        width,
        height,
        shape_x,
        shape_y,
        pixel_w: as_fx(sp_fx_div(FX_ONE as int, shape_x as int)),
        pixel_h: as_fx(sp_fx_div(FX_ONE as int, shape_y as int)),
        viewport_x: as_fx(sp_fx_div(sp_fx_mul(FX_TWO as int, shape_x as int), shape_y as int)),
        viewport_y: as_fx(sp_fx_div(sp_fx_mul(FX_TWO as int, shape_y as int), shape_y as int)),
        origin,
        focal_length,
    }
}

/// The well-formedness a constructed camera keeps.
pub open spec fn sp_camera_wf(cam: Camera) -> bool {
    &&& 0 < cam.width <= MAX_DIMENSION
    &&& 0 < cam.height <= MAX_DIMENSION
    &&& cam == sp_camera_new(cam.width, cam.height, cam.origin, cam.focal_length)
}

impl Camera {
    /// Configure a camera. A zero dimension is a configuration error and
    /// is rejected, as is a dimension over the cap; exactly the accepted
    /// dimensions yield a camera.
    pub fn new(width: u32, height: u32, origin: Vec3, focal_length: i64) -> (r: Option<Camera>)
        ensures
            r is Some <==> (0 < width <= MAX_DIMENSION && 0 < height <= MAX_DIMENSION),
            r is Some ==> r->Some_0 == sp_camera_new(width, height, origin, focal_length)
                && sp_camera_wf(r->Some_0),
    {
        if width == 0 || height == 0 || width > MAX_DIMENSION || height > MAX_DIMENSION {
            None
        } else {
            let shape_x: i64 = (width as i64) * FX_ONE;
            let shape_y: i64 = (height as i64) * FX_ONE;
            Some(
                Camera {
                    width,
                    height,
                    shape_x,
                    shape_y,
                    pixel_w: fx_div(FX_ONE, shape_x),
                    pixel_h: fx_div(FX_ONE, shape_y),
                    viewport_x: fx_div(fx_mul(FX_TWO, shape_x), shape_y),
                    viewport_y: fx_div(fx_mul(FX_TWO, shape_y), shape_y),
                    origin,
                    focal_length,
                },
            )
        }
    }

    /// The normalized coordinate of a pixel's corner, with row 0 mapped
    /// to the top of the image.
    pub fn pixel_uv(&self, col: u32, row: u32) -> (r: (i64, i64))
        ensures
            r == sp_pixel_uv(*self, col, row),
    {
        let x: i64 = (col as i64) * FX_ONE;
        let y: i64 = fx_sub(fx_sub(self.shape_y, (row as i64) * FX_ONE), FX_ONE);
        (fx_div(x, self.shape_x), fx_div(y, self.shape_y))
    }

    /// The primary ray for a normalized coordinate and a jitter inside
    /// one pixel's footprint.
    pub fn primary_ray(&self, uv_x: i64, uv_y: i64, jx: i64, jy: i64) -> (r: Ray)
        ensures
            r == sp_primary_ray(*self, uv_x, uv_y, jx, jy),
    {
        let ux = fx_add(uv_x, fx_mul(jx, self.pixel_w));
        let uy = fx_add(uv_y, fx_mul(jy, self.pixel_h));
        let dx = fx_mul(fx_sub(ux, FX_HALF), self.viewport_x);
        let dy = fx_mul(fx_sub(uy, FX_HALF), self.viewport_y);
        let dz = fx_neg(self.focal_length);
        let direction = self.origin.add(Vec3 { x: dx, y: dy, z: dz });
        Ray { origin: self.origin, direction }
    }
}

/// Spec mirror of `pixel_uv`.
pub open spec fn sp_pixel_uv(cam: Camera, col: u32, row: u32) -> (i64, i64) {
    let x = (col * FX_ONE) as i64;
    let y = sp_fx_sub(sp_fx_sub(cam.shape_y as int, (row * FX_ONE) as int), FX_ONE as int);
    (
        as_fx(sp_fx_div(x as int, cam.shape_x as int)),
        as_fx(sp_fx_div(y, cam.shape_y as int)),
    )
}

/// Spec mirror of `primary_ray`.
pub open spec fn sp_primary_ray(cam: Camera, uv_x: i64, uv_y: i64, jx: i64, jy: i64) -> Ray {
    let ux = sp_fx_add(uv_x as int, sp_fx_mul(jx as int, cam.pixel_w as int));
    let uy = sp_fx_add(uv_y as int, sp_fx_mul(jy as int, cam.pixel_h as int));
    let dx = sp_fx_mul(sp_fx_sub(ux, FX_HALF as int), cam.viewport_x as int);
    let dy = sp_fx_mul(sp_fx_sub(uy, FX_HALF as int), cam.viewport_y as int);
    let dz = sp_fx_neg(cam.focal_length as int);
    let direction = sp_v3_add(cam.origin, Vec3 { x: as_fx(dx), y: as_fx(dy), z: as_fx(dz) });
    Ray { origin: cam.origin, direction }
}

} // verus!
