//! Q47.16 fixed-point scalars.
//!
//! A scalar is an `i64` holding the value times 65536. Every operation is
//! total: intermediate products are taken in `i128` and the result is
//! clipped to `[-FX_MAX, FX_MAX]`, so no input can overflow or panic.
//! Multiplication and division round toward negative infinity (floor);
//! the square root is the exact floor of the real square root. Each
//! operation's result equals its spec-level mirror, so whole computations
//! built from these operations are pinned exactly.

use vstd::prelude::*;
use vstd::arithmetic::div_mod::lemma_fundamental_div_mod_converse;

verus! {

/// A fixed-point scalar: the represented value is the integer divided by 65536.
pub type Fx = i64;

/// The fixed-point representation of 1.
pub const FX_ONE: i64 = 65536;

/// Magnitude bound kept by every fixed-point operation (2^47).
pub const FX_MAX: i64 = 0x8000_0000_0000;

/// The fixed-point representation of 2.
pub const FX_TWO: i64 = 131072;

/// The fixed-point representation of one half.
pub const FX_HALF: i64 = 32768;

/// Clip an unbounded integer into the fixed-point range.
pub open spec fn fx_clip(v: int) -> int {
    if v > FX_MAX as int {
        FX_MAX as int
    } else if v < -(FX_MAX as int) {
        -(FX_MAX as int)
    } else {
        v
    }
}

/// Spec mirror of fixed-point addition.
pub open spec fn sp_fx_add(a: int, b: int) -> int {
    fx_clip(a + b)
}

/// Spec mirror of fixed-point subtraction.
pub open spec fn sp_fx_sub(a: int, b: int) -> int {
    fx_clip(a - b)
}

/// Spec mirror of fixed-point negation.
pub open spec fn sp_fx_neg(a: int) -> int {
    fx_clip(-a)
}

/// Spec mirror of fixed-point multiplication (floor rounding).
pub open spec fn sp_fx_mul(a: int, b: int) -> int {
    fx_clip((a * b) / (FX_ONE as int))
}

/// Spec mirror of fixed-point division. Only positive divisors are
/// meaningful; for a divisor that is zero or negative the result is 0.
pub open spec fn sp_fx_div(a: int, b: int) -> int {
    if b <= 0 {
        0
    } else {
        fx_clip((a * (FX_ONE as int)) / b)
    }
}

/// The floor of the square root of a natural number.
pub open spec fn sqrt_floor(n: nat) -> nat
    decreases n,
{
    if n < 1 {
        0
    } else {
        let r = sqrt_floor((n - 1) as nat);
        if (r + 1) * (r + 1) <= n {
            r + 1
        } else {
            r
        }
    }
}

/// Spec mirror of the fixed-point square root: zero for a non-positive
/// argument, else the floor of the real square root of the value.
pub open spec fn sp_fx_sqrt(x: int) -> int {
    if x <= 0 {
        0
    } else {
        sqrt_floor((x * (FX_ONE as int)) as nat) as int
    }
}

/// `sqrt_floor(n)` brackets `n` between consecutive squares.
pub proof fn lemma_sqrt_floor_bounds(n: nat)
    ensures
        sqrt_floor(n) * sqrt_floor(n) <= n,
        n < (sqrt_floor(n) + 1) * (sqrt_floor(n) + 1),
    decreases n,
{
    let s = sqrt_floor(n);
    if n >= 1 {
        lemma_sqrt_floor_bounds((n - 1) as nat);
        let r = sqrt_floor((n - 1) as nat);
        assert(r * r <= n - 1);
        assert(n - 1 < (r + 1) * (r + 1));
        if (r + 1) * (r + 1) <= n {
            assert(s == r + 1);
            assert(s * s <= n && n < (s + 1) * (s + 1)) by (nonlinear_arith)
                requires
                    s == r + 1,
                    (r + 1) * (r + 1) <= n,
                    n <= (r + 1) * (r + 1),
            ;
        } else {
            assert(s == r);
            assert(s * s <= n && n < (s + 1) * (s + 1)) by (nonlinear_arith)
                requires
                    s == r,
                    r * r <= n - 1,
                    n < (r + 1) * (r + 1),
            ;
        }
    } else {
        assert(s == 0);
        assert(s * s <= n && n < (s + 1) * (s + 1)) by (nonlinear_arith)
            requires
                s == 0,
                n == 0,
        ;
    }
}

/// Any bracketing root equals `sqrt_floor`.
pub proof fn lemma_sqrt_floor_unique(n: nat, r: nat)
    requires
        r * r <= n,
        n < (r + 1) * (r + 1),
    ensures
        r == sqrt_floor(n),
{
    let s = sqrt_floor(n);
    lemma_sqrt_floor_bounds(n);
    assert(r == s) by (nonlinear_arith)
        requires
            r * r <= n,
            n < (r + 1) * (r + 1),
            s * s <= n,
            n < (s + 1) * (s + 1),
    ;
}

/// Floor division of a wide intermediate by a positive divisor.
fn div_floor_i128(p: i128, d: i128) -> (q: i128)
    requires
        0 < d,
        -(0x4000_0000_0000_0000_0000_0000_0000_0000i128) <= p,
    ensures
        q == p as int / d as int,
{
    if p >= 0 {
        let qt: i128 = p / d;
        proof {
            assert(qt == p as int / d as int);
        }
        qt
    } else {
        let m: i128 = -p;
        let qt: i128 = m / d;
        let rt: i128 = m % d;
        proof {
            vstd::arithmetic::div_mod::lemma_fundamental_div_mod(m as int, d as int);
            assert(m == d * qt + rt && 0 <= rt < d);
            if rt == 0 {
                assert(p as int == (-qt) * d as int + 0) by (nonlinear_arith)
                    requires
                        p == -m,
                        m == d * qt,
                ;
                lemma_fundamental_div_mod_converse(p as int, d as int, -qt as int, 0);
            } else {
                assert(p as int == (-qt - 1) * d as int + (d - rt)) by (nonlinear_arith)
                    requires
                        p == -m,
                        m == d * qt + rt,
                ;
                lemma_fundamental_div_mod_converse(
                    p as int,
                    d as int,
                    (-qt - 1) as int,
                    (d - rt) as int,
                );
            }
        }
        if rt == 0 {
            -qt
        } else {
            -qt - 1
        }
    }
}

/// Clip a wide intermediate into the fixed-point range.
fn fx_sat(q: i128) -> (r: i64)
    ensures
        r as int == fx_clip(q as int),
{
    if q > FX_MAX as i128 {
        FX_MAX
    } else if q < -(FX_MAX as i128) {
        -FX_MAX
    } else {
        q as i64
    }
}

/// Saturating fixed-point addition.
pub fn fx_add(a: i64, b: i64) -> (r: i64)
    ensures
        r as int == sp_fx_add(a as int, b as int),
{
    fx_sat(a as i128 + b as i128)
}

/// Saturating fixed-point subtraction.
pub fn fx_sub(a: i64, b: i64) -> (r: i64)
    ensures
        r as int == sp_fx_sub(a as int, b as int),
{
    fx_sat(a as i128 - b as i128)
}

/// Saturating fixed-point negation.
pub fn fx_neg(a: i64) -> (r: i64)
    ensures
        r as int == sp_fx_neg(a as int),
{
    fx_sat(-(a as i128))
}

/// Saturating fixed-point multiplication with floor rounding.
pub fn fx_mul(a: i64, b: i64) -> (r: i64)
    ensures
        r as int == sp_fx_mul(a as int, b as int),
{
    proof {
        assert(-(0x4000_0000_0000_0000_0000_0000_0000_0000i128) <= a as int * b as int
            <= 0x4000_0000_0000_0000_0000_0000_0000_0000i128) by (nonlinear_arith)
            requires
                i64::MIN <= a <= i64::MAX,
                i64::MIN <= b <= i64::MAX,
        ;
    }
    let p: i128 = a as i128 * b as i128;
    let q = div_floor_i128(p, FX_ONE as i128);
    fx_sat(q)
}

/// Saturating fixed-point division with floor rounding; 0 when the divisor
/// is zero or negative.
pub fn fx_div(a: i64, b: i64) -> (r: i64)
    ensures
        r as int == sp_fx_div(a as int, b as int),
{
    if b <= 0 {
        0
    } else {
        proof {
            assert(-(0x4000_0000_0000_0000_0000_0000_0000_0000i128) <= a as int
                * (FX_ONE as int) <= 0x4000_0000_0000_0000_0000_0000_0000_0000i128)
                by (nonlinear_arith)
                requires
                    i64::MIN <= a <= i64::MAX,
            ;
        }
        let p: i128 = a as i128 * FX_ONE as i128;
        let q = div_floor_i128(p, b as i128);
        fx_sat(q)
    }
}

/// Integer square root: the floor of the square root of `n`.
fn isqrt_u128(n: u128) -> (r: u128)
    ensures
        r == sqrt_floor(n as nat),
        r * r <= n,
        n < (r + 1) * (r + 1),
{
    let mut lo: u128 = 0;
    let mut hi: u128 = 0x1_0000_0000_0000_0000;
    while lo + 1 < hi
        invariant
            lo < hi <= 0x1_0000_0000_0000_0000,
            (lo as int) * (lo as int) <= n,
            (n as int) < (hi as int) * (hi as int),
        decreases hi - lo,
    {
        let mid: u128 = lo + (hi - lo) / 2;
        if mid >= 0x1_0000_0000_0000_0000 {
            proof {
                assert((n as int) < (mid as int) * (mid as int)) by (nonlinear_arith)
                    requires
                        mid >= 0x1_0000_0000_0000_0000u128,
                        n <= u128::MAX,
                ;
            }
            hi = mid;
        } else {
            proof {
                assert(mid as int * mid as int <= u128::MAX) by (nonlinear_arith)
                    requires
                        0 <= mid < 0x1_0000_0000_0000_0000u128,
                ;
            }
            if mid * mid <= n {
                lo = mid;
            } else {
                hi = mid;
            }
        }
    }
    proof {
        lemma_sqrt_floor_unique(n as nat, lo as nat);
    }
    lo
}

/// Fixed-point square root: floor of the square root of the represented
/// value; 0 for a non-positive argument.
pub fn fx_sqrt(x: i64) -> (r: i64)
    ensures
        r as int == sp_fx_sqrt(x as int),
        0 <= r,
{
    if x <= 0 {
        0
    } else {
        proof {
            assert(x as int * (FX_ONE as int) <= u128::MAX) by (nonlinear_arith)
                requires
                    0 < x <= i64::MAX,
            ;
        }
        let n: u128 = x as u128 * FX_ONE as u128;
        let r = isqrt_u128(n);
        proof {
            assert(r as int <= 0x8000_0000_0000i128 as int) by (nonlinear_arith)
                requires
                    (r as int) * (r as int) <= n as int,
                    n as int == x as int * (FX_ONE as int),
                    0 < x <= i64::MAX,
            ;
        }
        r as i64
    }
}

/// The smaller of two scalars.
pub fn fx_min(a: i64, b: i64) -> (r: i64)
    ensures
        r == if a as int <= b as int { a as int } else { b as int },
{
    if a <= b {
        a
    } else {
        b
    }
}

/// The larger of two scalars.
pub fn fx_max(a: i64, b: i64) -> (r: i64)
    ensures
        r == if a as int >= b as int { a as int } else { b as int },
{
    if a >= b {
        a
    } else {
        b
    }
}

/// Spec mirror of clamping into `[lo, hi]`.
pub open spec fn sp_fx_clamp(v: int, lo: int, hi: int) -> int {
    if v < lo {
        lo
    } else if v > hi {
        hi
    } else {
        v
    }
}

/// Clamp a scalar into `[lo, hi]` (callers pass `lo <= hi`).
pub fn fx_clamp(v: i64, lo: i64, hi: i64) -> (r: i64)
    requires
        lo <= hi,
    ensures
        r as int == sp_fx_clamp(v as int, lo as int, hi as int),
{
    if v < lo {
        lo
    } else if v > hi {
        hi
    } else {
        v
    }
}

/// Clipping preserves order.
pub proof fn lemma_fx_clip_mono(a: int, b: int)
    requires
        a <= b,
    ensures
        fx_clip(a) <= fx_clip(b),
{
}

/// Division by a positive scalar preserves order of the numerators.
pub proof fn lemma_fx_div_mono(a: int, b: int, d: int)
    requires
        a <= b,
    ensures
        sp_fx_div(a, d) <= sp_fx_div(b, d),
{
    if d > 0 {
        assert(a * (FX_ONE as int) <= b * (FX_ONE as int)) by (nonlinear_arith)
            requires
                a <= b,
        ;
        vstd::arithmetic::div_mod::lemma_div_is_ordered(
            a * (FX_ONE as int),
            b * (FX_ONE as int),
            d,
        );
        lemma_fx_clip_mono(a * (FX_ONE as int) / d, b * (FX_ONE as int) / d);
    }
}

/// The square root spec is never negative.
pub proof fn lemma_fx_sqrt_nonneg(x: int)
    ensures
        0 <= sp_fx_sqrt(x),
{
}

/// Attenuation never amplifies: multiplying a non-negative scalar by a
/// factor in `[0, 1]` cannot increase it and cannot make it negative.
pub proof fn lemma_fx_mul_attenuates(a: int, c: int)
    requires
        0 <= a <= FX_MAX as int,
        0 <= c <= FX_ONE as int,
    ensures
        0 <= sp_fx_mul(a, c) <= a,
{
    assert(0 <= a * c <= a * (FX_ONE as int)) by (nonlinear_arith)
        requires
            0 <= a,
            0 <= c <= FX_ONE as int,
    ;
    assert(a * (FX_ONE as int) / (FX_ONE as int) == a) by (nonlinear_arith)
        requires
            true,
    ;
    assert((a * c) / (FX_ONE as int) <= (a * (FX_ONE as int)) / (FX_ONE as int)) by {
        vstd::arithmetic::div_mod::lemma_div_is_ordered(
            a * c,
            a * (FX_ONE as int),
            FX_ONE as int,
        );
    }
    assert(0 <= (a * c) / (FX_ONE as int)) by {
        vstd::arithmetic::div_mod::lemma_div_pos_is_pos(a * c, FX_ONE as int);
    }
}

} // verus!
