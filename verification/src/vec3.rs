//! Three-component fixed-point vectors.
//!
//! `Vec3` serves both geometry (points, directions, normals) and linear
//! RGB colors, as in the scene model. Every operation mirrors a spec
//! function exactly, so vector computations are pinned value by value.

use vstd::prelude::*;
use crate::fx::{
    fx_add, fx_clamp, fx_div, fx_mul, fx_neg, fx_sqrt, fx_sub, sp_fx_add, sp_fx_clamp,
    sp_fx_div, sp_fx_mul, sp_fx_neg, sp_fx_sqrt, sp_fx_sub, FX_ONE,
};

verus! {

/// A vector of three Q47.16 fixed-point scalars.
#[derive(Clone, Copy, PartialEq, Eq, Structural, Debug)]
pub struct Vec3 {
    pub x: i64,
    pub y: i64,
    pub z: i64,
}

/// Narrow a clipped spec scalar back to `i64`.
pub open spec fn as_fx(v: int) -> i64 {
    v as i64
}

/// Spec mirror of componentwise addition.
pub open spec fn sp_v3_add(a: Vec3, b: Vec3) -> Vec3 {
    Vec3 {
        x: as_fx(sp_fx_add(a.x as int, b.x as int)),
        y: as_fx(sp_fx_add(a.y as int, b.y as int)),
        z: as_fx(sp_fx_add(a.z as int, b.z as int)),
    }
}

/// Spec mirror of componentwise subtraction.
pub open spec fn sp_v3_sub(a: Vec3, b: Vec3) -> Vec3 {
    Vec3 {
        x: as_fx(sp_fx_sub(a.x as int, b.x as int)),
        y: as_fx(sp_fx_sub(a.y as int, b.y as int)),
        z: as_fx(sp_fx_sub(a.z as int, b.z as int)),
    }
}

/// Spec mirror of componentwise negation.
pub open spec fn sp_v3_neg(a: Vec3) -> Vec3 {
    Vec3 {
        x: as_fx(sp_fx_neg(a.x as int)),
        y: as_fx(sp_fx_neg(a.y as int)),
        z: as_fx(sp_fx_neg(a.z as int)),
    }
}

/// Spec mirror of scaling by a scalar.
pub open spec fn sp_v3_scale(a: Vec3, s: int) -> Vec3 {
    Vec3 {
        x: as_fx(sp_fx_mul(a.x as int, s)),
        y: as_fx(sp_fx_mul(a.y as int, s)),
        z: as_fx(sp_fx_mul(a.z as int, s)),
    }
}

/// Spec mirror of the componentwise (Hadamard) product.
pub open spec fn sp_v3_mul(a: Vec3, b: Vec3) -> Vec3 {
    Vec3 {
        x: as_fx(sp_fx_mul(a.x as int, b.x as int)),
        y: as_fx(sp_fx_mul(a.y as int, b.y as int)),
        z: as_fx(sp_fx_mul(a.z as int, b.z as int)),
    }
}

/// Spec mirror of dividing each component by a scalar.
pub open spec fn sp_v3_div(a: Vec3, s: int) -> Vec3 {
    Vec3 {
        x: as_fx(sp_fx_div(a.x as int, s)),
        y: as_fx(sp_fx_div(a.y as int, s)),
        z: as_fx(sp_fx_div(a.z as int, s)),
    }
}

/// Spec mirror of the dot product.
pub open spec fn sp_v3_dot(a: Vec3, b: Vec3) -> int {
    sp_fx_add(
        sp_fx_add(
            sp_fx_mul(a.x as int, b.x as int),
            sp_fx_mul(a.y as int, b.y as int),
        ),
        sp_fx_mul(a.z as int, b.z as int),
    )
}

/// Spec mirror of the squared length.
pub open spec fn sp_v3_length_squared(a: Vec3) -> int {
    sp_v3_dot(a, a)
}

/// Spec mirror of the length.
pub open spec fn sp_v3_length(a: Vec3) -> int {
    sp_fx_sqrt(sp_v3_length_squared(a))
}

/// Spec mirror of linear interpolation `a + (b - a) * t`.
pub open spec fn sp_v3_lerp(a: Vec3, b: Vec3, t: int) -> Vec3 {
    sp_v3_add(a, sp_v3_scale(sp_v3_sub(b, a), t))
}

/// Spec mirror of clamping each component into `[lo, hi]`.
pub open spec fn sp_v3_clamp(a: Vec3, lo: int, hi: int) -> Vec3 {
    Vec3 {
        x: as_fx(sp_fx_clamp(a.x as int, lo, hi)),
        y: as_fx(sp_fx_clamp(a.y as int, lo, hi)),
        z: as_fx(sp_fx_clamp(a.z as int, lo, hi)),
    }
}

impl Vec3 {
    /// Build a vector from its components.
    pub fn new(x: i64, y: i64, z: i64) -> (r: Vec3)
        ensures
            r == (Vec3 { x, y, z }),
    {
        Vec3 { x, y, z }
    }

    /// The zero vector (also the color black).
    pub fn zero() -> (r: Vec3)
        ensures
            r == (Vec3 { x: 0i64, y: 0i64, z: 0i64 }),
    {
        Vec3 { x: 0, y: 0, z: 0 }
    }

    /// The all-ones vector (also the color white).
    pub fn one() -> (r: Vec3)
        ensures
            r == (Vec3 { x: FX_ONE, y: FX_ONE, z: FX_ONE }),
    {
        Vec3 { x: FX_ONE, y: FX_ONE, z: FX_ONE }
    }

    /// Componentwise sum.
    pub fn add(self, b: Vec3) -> (r: Vec3)
        ensures
            r == sp_v3_add(self, b),
    {
        Vec3 { x: fx_add(self.x, b.x), y: fx_add(self.y, b.y), z: fx_add(self.z, b.z) }
    }

    /// Componentwise difference.
    pub fn sub(self, b: Vec3) -> (r: Vec3)
        ensures
            r == sp_v3_sub(self, b),
    {
        Vec3 { x: fx_sub(self.x, b.x), y: fx_sub(self.y, b.y), z: fx_sub(self.z, b.z) }
    }

    /// Componentwise negation.
    pub fn neg(self) -> (r: Vec3)
        ensures
            r == sp_v3_neg(self),
    {
        Vec3 { x: fx_neg(self.x), y: fx_neg(self.y), z: fx_neg(self.z) }
    }

    /// Each component multiplied by a scalar.
    pub fn scale(self, s: i64) -> (r: Vec3)
        ensures
            r == sp_v3_scale(self, s as int),
    {
        Vec3 { x: fx_mul(self.x, s), y: fx_mul(self.y, s), z: fx_mul(self.z, s) }
    }

    /// Componentwise (Hadamard) product, used for attenuation.
    pub fn mul(self, b: Vec3) -> (r: Vec3)
        ensures
            r == sp_v3_mul(self, b),
    {
        Vec3 { x: fx_mul(self.x, b.x), y: fx_mul(self.y, b.y), z: fx_mul(self.z, b.z) }
    }

    /// Each component divided by a scalar (zero for a non-positive divisor).
    pub fn div(self, s: i64) -> (r: Vec3)
        ensures
            r == sp_v3_div(self, s as int),
    {
        Vec3 { x: fx_div(self.x, s), y: fx_div(self.y, s), z: fx_div(self.z, s) }
    }

    /// Dot product.
    pub fn dot(self, b: Vec3) -> (r: i64)
        ensures
            r as int == sp_v3_dot(self, b),
    {
        fx_add(fx_add(fx_mul(self.x, b.x), fx_mul(self.y, b.y)), fx_mul(self.z, b.z))
    }

    /// Squared length.
    pub fn length_squared(self) -> (r: i64)
        ensures
            r as int == sp_v3_length_squared(self),
    {
        self.dot(self)
    }

    /// Length (floor of the real square root of the squared length).
    pub fn length(self) -> (r: i64)
        ensures
            r as int == sp_v3_length(self),
            0 <= r,
    {
        fx_sqrt(self.length_squared())
    }

    /// Linear interpolation `self + (b - self) * t`.
    pub fn lerp(self, b: Vec3, t: i64) -> (r: Vec3)
        ensures
            r == sp_v3_lerp(self, b, t as int),
    {
        self.add(b.sub(self).scale(t))
    }

    /// Each component clamped into `[lo, hi]`.
    pub fn clamp(self, lo: i64, hi: i64) -> (r: Vec3)
        requires
            lo <= hi,
        ensures
            r == sp_v3_clamp(self, lo as int, hi as int),
    {
        Vec3 {
            x: fx_clamp(self.x, lo, hi),
            y: fx_clamp(self.y, lo, hi),
            z: fx_clamp(self.z, lo, hi),
        }
    }

    /// Whether all components are exactly zero.
    pub fn is_zero(self) -> (r: bool)
        ensures
            r <==> self == (Vec3 { x: 0i64, y: 0i64, z: 0i64 }),
    {
        self.x == 0 && self.y == 0 && self.z == 0
    }
}

} // verus!
