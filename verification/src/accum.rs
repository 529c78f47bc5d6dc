//! Temporal accumulation weighting.
//!
//! Each completed frame is blended into a running average:
//! `result = mix(new_frame, accumulated, weight)` with
//! `weight = min(max_weight, n / (n + 1))` for the running frame count
//! `n`, the cap an exact rational in `(0, 1]`. The weight starts at zero
//! (the first frame replaces the buffer) and approaches but never
//! reaches 1, so new samples keep contributing while their influence
//! shrinks. The convergence law is proved here: blending a uniform
//! color multiplies the distance to that color by the weight, and the
//! product of the first `n` weights is at most `1 / (n + 1)` whatever
//! the cap, so the accumulated buffer converges to the blended color.

use vstd::prelude::*;

verus! {

/// The accumulation state: how many frames were blended and the weight
/// cap as an exact rational.
#[derive(Clone, Copy, PartialEq, Eq, Structural, Debug)]
pub struct AccumState {
    pub frame_count: u32,
    pub max_weight_num: u32,
    pub max_weight_den: u32,
}

/// The cap is a rational in `(0, 1]`.
pub open spec fn sp_accum_wf(s: AccumState) -> bool {
    &&& 0 < s.max_weight_num <= s.max_weight_den
}

/// Spec mirror of the blend weight for frame count `n`:
/// `min(max_weight, n / (n + 1))` as an exact fraction.
pub open spec fn sp_weight(n: int, num: int, den: int) -> (int, int) {
    if n * den < num * (n + 1) {
        (n, n + 1)
    } else {
        (num, den)
    }
}

impl AccumState {
    /// Start accumulating with a weight cap `num / den`. Exactly the
    /// caps in `(0, 1]` are accepted.
    pub fn new(max_weight_num: u32, max_weight_den: u32) -> (r: Option<AccumState>)
        ensures
            r is Some <==> 0 < max_weight_num <= max_weight_den,
            r is Some ==> r->Some_0 == (AccumState {
                frame_count: 0u32,
                max_weight_num,
                max_weight_den,
            }) && sp_accum_wf(r->Some_0),
    {
        if 0 < max_weight_num && max_weight_num <= max_weight_den {
            Some(AccumState { frame_count: 0, max_weight_num, max_weight_den })
        } else {
            None
        }
    }

    /// Count one more completed frame; the count saturates rather than
    /// wrapping.
    pub fn advance(&mut self)
        ensures
            final(self).frame_count == if old(self).frame_count == u32::MAX {
                u32::MAX as int
            } else {
                old(self).frame_count + 1
            },
            final(self).max_weight_num == old(self).max_weight_num,
            final(self).max_weight_den == old(self).max_weight_den,
    {
        self.frame_count = if self.frame_count == u32::MAX {
            u32::MAX
        } else {
            self.frame_count + 1
        };
    }

    /// The blend weight for the current frame count, as an exact
    /// fraction `(numerator, denominator)`.
    pub fn weight(&self) -> (r: (u64, u64))
        requires
            sp_accum_wf(*self),
        ensures
            (r.0 as int, r.1 as int) == sp_weight(
                self.frame_count as int,
                self.max_weight_num as int,
                self.max_weight_den as int,
            ),
            0 < r.1,
            r.0 <= r.1,
    {
        let n = self.frame_count as u64;
        proof {
            assert(n * (self.max_weight_den as u64) <= u64::MAX && (self.max_weight_num as u64)
                * (n + 1) <= u64::MAX) by (nonlinear_arith)
                requires
                    n <= u32::MAX,
                    self.max_weight_den <= u32::MAX,
                    self.max_weight_num <= u32::MAX,
            ;
        }
        let lhs: u64 = n * (self.max_weight_den as u64);
        let rhs: u64 = (self.max_weight_num as u64) * (n + 1);
        if lhs < rhs {
            (n, n + 1)
        } else {
            (self.max_weight_num as u64, self.max_weight_den as u64)
        }
    }
}

/// Blending a uniform color multiplies the distance to that color by
/// the weight: with `blend = (c * (wd - wn) + acc * wn) / wd`, the
/// residual `blend - c` equals `(acc - c) * wn / wd` exactly.
pub proof fn lemma_blend_residual(c: int, acc: int, wn: int, wd: int)
    requires
        0 < wd,
    ensures
        (c * (wd - wn) + acc * wn) - c * wd == (acc - c) * wn,
{
    assert((c * (wd - wn) + acc * wn) - c * wd == (acc - c) * wn) by (nonlinear_arith);
}

/// Spec mirror of the product of the blend weights of frames `1` to
/// `n`, as an exact fraction.
pub open spec fn sp_weight_prod(n: nat, num: int, den: int) -> (int, int)
    decreases n,
{
    if n == 0 {
        (1, 1)
    } else {
        let (pn, pd) = sp_weight_prod((n - 1) as nat, num, den);
        let (wn, wd) = sp_weight(n as int, num, den);
        (pn * wn, pd * wd)
    }
}

/// Accumulation convergence: for every cap in `(0, 1]` the product of
/// the first `n` blend weights is at most `1 / (n + 1)`, so after `n`
/// blends of a uniform color the residual is at most a `1 / (n + 1)`
/// fraction of the starting residual and vanishes as the frame count
/// grows.
pub proof fn lemma_accumulation_converges(n: nat, num: int, den: int)
    requires
        0 < num <= den,
    ensures
        0 <= sp_weight_prod(n, num, den).0,
        0 < sp_weight_prod(n, num, den).1,
        sp_weight_prod(n, num, den).0 * (n + 1) <= sp_weight_prod(n, num, den).1,
    decreases n,
{
    if n == 0 {
    } else {
        lemma_accumulation_converges((n - 1) as nat, num, den);
        let (pn, pd) = sp_weight_prod((n - 1) as nat, num, den);
        let (wn, wd) = sp_weight(n as int, num, den);
        assert(0 <= wn && 0 < wd);
        assert(wn * (n + 1) <= wd * n) by {
            if n * den < num * (n + 1) {
                assert(wn == n && wd == n + 1);
                assert(n * (n + 1) <= (n + 1) * n) by (nonlinear_arith);
            } else {
                assert(wn == num && wd == den);
                assert(num * (n + 1) <= den * n) by (nonlinear_arith)
                    requires
                        num * (n + 1int) <= n * den,
                ;
            }
        }
        assert(0 <= pn * wn) by (nonlinear_arith)
            requires
                0 <= pn,
                0 <= wn,
        ;
        assert(0 < pd * wd) by (nonlinear_arith)
            requires
                0 < pd,
                0 < wd,
        ;
        assert((pn * wn) * (n + 1) <= pd * wd) by (nonlinear_arith)
            requires
                pn * n <= pd,
                wn * (n + 1) <= wd * n,
                0 <= pn,
                0 <= wn,
                0 < pd,
                0 < wd,
                1 <= n,
        ;
    }
}

} // verus!
