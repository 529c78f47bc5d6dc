//! sRGB output encoding.
//!
//! A linear channel in `[0, 1]` is gamma-encoded with the standard
//! piecewise transform: `12.92 c` below the linear cutoff, else
//! `1.055 c^(1/2.4) - 0.055`, and quantized to a byte. The exponent
//! `1/2.4` is exactly `5/12`, so the power is computed exactly in
//! integers: the floor square root lifts `c` to `c^(1/2)` and a floor
//! sixth root of its fifth power yields `c^(5/12)`, both pinned by spec.
//! The constants are the Q16.16 floors of the standard values.

use vstd::prelude::*;
use crate::fx::{fx_clamp, fx_mul, fx_sqrt, fx_sub, lemma_sqrt_floor_unique, sp_fx_clamp,
    sp_fx_mul, sp_fx_sqrt, sp_fx_sub, sqrt_floor, FX_ONE};
use crate::vec3::Vec3;

verus! {

/// Below this linear value the transform is the linear segment
/// (0.0031308 in Q16.16).
pub const SRGB_CUTOFF: i64 = 205;

/// Slope of the linear segment (12.92 in Q16.16).
pub const SRGB_LINEAR_FACTOR: i64 = 846725;

/// Scale of the power segment (1.055 in Q16.16).
pub const SRGB_SCALE: i64 = 69140;

/// Offset of the power segment (0.055 in Q16.16).
pub const SRGB_OFFSET: i64 = 3604;

/// The sixth power, written with explicit intermediate squares.
pub open spec fn sp_pow6(r: int) -> int {
    (r * r * r) * (r * r * r)
}

/// The floor of the sixth root of a natural number.
pub open spec fn root6_floor(n: nat) -> nat
    decreases n,
{
    if n < 1 {
        0
    } else {
        let r = root6_floor((n - 1) as nat);
        if sp_pow6(r + 1 as int) <= n {
            r + 1
        } else {
            r
        }
    }
}

/// `root6_floor(n)` brackets `n` between consecutive sixth powers.
pub proof fn lemma_root6_floor_bounds(n: nat)
    ensures
        sp_pow6(root6_floor(n) as int) <= n,
        n < sp_pow6(root6_floor(n) + 1 as int),
    decreases n,
{
    let s = root6_floor(n);
    if n >= 1 {
        lemma_root6_floor_bounds((n - 1) as nat);
        let r = root6_floor((n - 1) as nat);
        if sp_pow6(r + 1 as int) <= n {
            assert(s == r + 1);
            assert(n < sp_pow6(s + 1 as int)) by (nonlinear_arith)
                requires
                    s == r + 1,
                    n <= sp_pow6(r + 1 as int),
                    sp_pow6(r + 1 as int) == ((r + 1) * (r + 1) * (r + 1)) * ((r + 1) * (r + 1) * (r
                        + 1)),
                    sp_pow6(s + 1 as int) == ((s + 1) * (s + 1) * (s + 1)) * ((s + 1) * (s + 1) * (s
                        + 1)),
                    r >= 0,
            ;
        } else {
            assert(s == r);
        }
    } else {
        assert(s == 0);
        assert(sp_pow6(0int) <= n && n < sp_pow6(1int)) by (nonlinear_arith)
            requires
                n == 0,
        ;
    }
}

/// Any bracketing sixth root equals `root6_floor`.
pub proof fn lemma_root6_floor_unique(n: nat, r: nat)
    requires
        sp_pow6(r as int) <= n,
        n < sp_pow6(r + 1 as int),
    ensures
        r == root6_floor(n),
{
    let s = root6_floor(n);
    lemma_root6_floor_bounds(n);
    assert(r == s) by (nonlinear_arith)
        requires
            sp_pow6(r as int) <= n < sp_pow6(r + 1 as int),
            sp_pow6(s as int) <= n < sp_pow6(s + 1 as int),
            sp_pow6(r as int) == (r * r * r) * (r * r * r),
            sp_pow6(s as int) == (s * s * s) * (s * s * s),
            sp_pow6(r + 1 as int) == ((r + 1) * (r + 1) * (r + 1)) * ((r + 1) * (r + 1) * (r + 1)),
            sp_pow6(s + 1 as int) == ((s + 1) * (s + 1) * (s + 1)) * ((s + 1) * (s + 1) * (s + 1)),
            r >= 0,
            s >= 0,
    ;
}

/// Integer sixth root by binary search.
fn iroot6(n: u128) -> (r: u64)
    requires
        n < 0x1_0000_0000_0000_0000_0000_0000_0000,  // 2^112
    ensures
        r == root6_floor(n as nat),
{
    let mut lo: u64 = 0;
    let mut hi: u64 = 0x80000;  // 2^19; (2^19)^6 = 2^114 > 2^112 > n
    proof {
        assert(n < sp_pow6(0x80000 as int)) by (nonlinear_arith)
            requires
                n < 0x1_0000_0000_0000_0000_0000_0000_0000u128,
        ;
    }
    while lo + 1 < hi
        invariant
            lo < hi <= 0x80000,
            sp_pow6(lo as int) <= n,
            (n as int) < sp_pow6(hi as int),
        decreases hi - lo,
    {
        let mid: u64 = lo + (hi - lo) / 2;
        proof {
            assert((mid as int * mid as int * mid as int) * (mid as int * mid as int
                * mid as int) <= u128::MAX) by (nonlinear_arith)
                requires
                    0 <= mid <= 0x80000u64,
            ;
            assert(mid as int * mid as int <= u128::MAX) by (nonlinear_arith)
                requires
                    0 <= mid <= 0x80000u64,
            ;
            assert(mid as int * mid as int * mid as int <= u128::MAX) by (nonlinear_arith)
                requires
                    0 <= mid <= 0x80000u64,
            ;
        }
        let m1: u128 = mid as u128;
        let m3: u128 = m1 * m1 * m1;
        let m6: u128 = m3 * m3;
        if m6 <= n {
            lo = mid;
        } else {
            hi = mid;
        }
    }
    proof {
        lemma_root6_floor_unique(n as nat, lo as nat);
    }
    lo
}

/// Spec mirror of `c^(5/12)` in Q16.16 for `c` in `[0, 1]`: the floor
/// square root lifts to the half power, whose fifth power rescaled has
/// the sixth root taken.
pub open spec fn sp_gamma_pow(c: int) -> int {
    let u = sp_fx_sqrt(c);
    root6_floor((u * u * u * u * u * (FX_ONE as int)) as nat) as int
}

/// Spec mirror of encoding one linear channel to an sRGB byte.
#[verifier::opaque]
pub open spec fn sp_srgb_byte(c: int) -> u8 {
    let cc = sp_fx_clamp(c, 0, FX_ONE as int);
    if cc <= SRGB_CUTOFF as int {
        let s = sp_fx_mul(SRGB_LINEAR_FACTOR as int, cc);
        sp_byte_of_fx(s)
    } else {
        let y = sp_gamma_pow(cc);
        let s = sp_fx_sub(sp_fx_mul(SRGB_SCALE as int, y), SRGB_OFFSET as int);
        sp_byte_of_fx(s)
    }
}

/// Spec mirror of quantizing a non-negative Q16.16 value scaled by 256
/// into a byte.
pub open spec fn sp_byte_of_fx(s: int) -> u8 {
    if s < 0 {
        0
    } else if s / 256 > 255 {
        255
    } else {
        (s / 256) as u8
    }
}

/// Quantize an encoded channel into a byte.
fn byte_of_fx(s: i64) -> (r: u8)
    ensures
        r == sp_byte_of_fx(s as int),
{
    if s < 0 {
        0
    } else {
        let b = s / 256;
        if b > 255 {
            255
        } else {
            b as u8
        }
    }
}

/// Encode one linear channel (clamped to `[0, 1]`) to its sRGB byte.
pub fn srgb_byte(c: i64) -> (r: u8)
    ensures
        r == sp_srgb_byte(c as int),
{
    proof {
        reveal(sp_srgb_byte);
    }
    let cc = fx_clamp(c, 0, FX_ONE);
    if cc <= SRGB_CUTOFF {
        byte_of_fx(fx_mul(SRGB_LINEAR_FACTOR, cc))
    } else {
        let u = fx_sqrt(cc);
        proof {
            lemma_gamma_sqrt_bound(cc as int);
        }
        let uu: u128 = u as u128;
        proof {
            assert(uu as int * uu as int <= 0x1_0000_0000 && uu as int * uu as int * uu as int
                <= 0x1_0000_0000_0000 && uu as int * uu as int * uu as int * uu as int
                <= 0x1_0000_0000_0000_0000 && uu as int * uu as int * uu as int * uu as int
                * uu as int <= 0x1_0000_0000_0000_0000_0000 && uu as int * uu as int * uu as int
                * uu as int * uu as int * (FX_ONE as int)
                < 0x1_0000_0000_0000_0000_0000_0000_0000) by (nonlinear_arith)
                requires
                    0 <= uu <= 0x10000u128,
            ;
        }
        let m: u128 = uu * uu * uu * uu * uu * (FX_ONE as u128);
        let y = iroot6(m);
        proof {
            assert(y as int <= 0x10000) by {
                lemma_root6_floor_bounds(m as nat);
                assert(sp_pow6(y as int) <= m as int);
                assert(y as int <= 0x10000) by (nonlinear_arith)
                    requires
                        sp_pow6(y as int) == (y as int * y as int * y as int) * (y as int
                            * y as int * y as int),
                        sp_pow6(y as int) <= m as int,
                        m as int <= 0x1_0000_0000_0000_0000_0000_0000i128 as int,
                        y >= 0,
                ;
            }
        }
        byte_of_fx(fx_sub(fx_mul(SRGB_SCALE, y as i64), SRGB_OFFSET))
    }
}

/// For `c` in `[0, 1]` the floor square root stays within `[0, 1]`.
proof fn lemma_gamma_sqrt_bound(c: int)
    requires
        0 <= c <= FX_ONE as int,
    ensures
        0 <= sp_fx_sqrt(c) <= FX_ONE as int,
{
    if c > 0 {
        let n = (c * (FX_ONE as int)) as nat;
        crate::fx::lemma_sqrt_floor_bounds(n);
        let r = sqrt_floor(n);
        assert(r <= FX_ONE) by (nonlinear_arith)
            requires
                r * r <= n,
                n <= (FX_ONE as int) * (FX_ONE as int),
                r >= 0,
        ;
    }
}

/// Encode an averaged linear color into packed sRGB bytes with a fully
/// opaque alpha.
pub fn linear_to_srgb(color: Vec3) -> (r: [u8; 4])
    ensures
        r[0] == sp_srgb_byte(color.x as int),
        r[1] == sp_srgb_byte(color.y as int),
        r[2] == sp_srgb_byte(color.z as int),
        r[3] == 255,
{
    [srgb_byte(color.x), srgb_byte(color.y), srgb_byte(color.z), 255]
}

} // verus!
