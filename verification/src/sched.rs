//! The progressive scheduler: adaptive batching, cursors, and
//! cancellation-safe committing.
//!
//! A render job walks a row in batches. The batch size is initialized by
//! timing one representative pixel bundle and dividing the target update
//! interval by that cost, and after every batch it is recomputed as
//! `floor(len * target / elapsed)`, clamped to at least one pixel: a
//! feedback controller that holds each flush near the target cadence.
//! Before a batch is copied into the shared framebuffer the job checks
//! the cancellation flag and that the buffer still has the expected
//! size; on either failure nothing is written. The caller runs the loop
//! and the clock; every decision and every write is made here.

use vstd::prelude::*;
use vstd::arithmetic::div_mod::lemma_fundamental_div_mod;
use vstd::arithmetic::div_mod::lemma_fundamental_div_mod_converse;

verus! {

/// Why a batch was not committed: the job was cancelled, or the shared
/// buffer's size changed under the job (a resize), which discards the
/// stale work the same way.
#[derive(Clone, Copy, PartialEq, Eq, Structural, Debug)]
pub enum RenderError {
    Cancel,
    Resize,
}

/// Spec mirror of the initial batch size: the target interval divided by
/// the measured cost of one pixel, at least 1; an unmeasurably small
/// cost saturates.
pub open spec fn sp_initial_batch(target_ns: u64, cost_ns: u64) -> usize {
    if cost_ns == 0 {
        usize::MAX
    } else {
        let q = target_ns as int / cost_ns as int;
        if q < 1 {
            1usize
        } else if q > usize::MAX {
            usize::MAX
        } else {
            q as usize
        }
    }
}

/// The starting batch size from one timed representative pixel.
pub fn initial_batch(target_ns: u64, cost_ns: u64) -> (r: usize)
    ensures
        r == sp_initial_batch(target_ns, cost_ns),
        r >= 1,
{
    if cost_ns == 0 {
        usize::MAX
    } else {
        let q: u64 = target_ns / cost_ns;
        if q < 1 {
            1
        } else if q > usize::MAX as u64 {
            usize::MAX
        } else {
            q as usize
        }
    }
}

/// Spec mirror of the feedback update `floor(len * target / elapsed)`,
/// clamped to at least 1; a zero elapsed time saturates.
pub open spec fn sp_next_batch(len: usize, target_ns: u64, elapsed_ns: u64) -> usize {
    if elapsed_ns == 0 {
        usize::MAX
    } else {
        let q = (len * target_ns) as int / elapsed_ns as int;
        if q < 1 {
            1usize
        } else if q > usize::MAX {
            usize::MAX
        } else {
            q as usize
        }
    }
}

/// Recompute the batch size after rendering `len` pixels in
/// `elapsed_ns`: the feedback step of the controller.
pub fn next_batch(len: usize, target_ns: u64, elapsed_ns: u64) -> (r: usize)
    ensures
        r == sp_next_batch(len, target_ns, elapsed_ns),
        r >= 1,
{
    if elapsed_ns == 0 {
        usize::MAX
    } else {
        proof {
            assert(len as int * target_ns as int <= u128::MAX) by (nonlinear_arith)
                requires
                    len <= u64::MAX,
                    target_ns <= u64::MAX,
            ;
        }
        let p: u128 = (len as u128) * (target_ns as u128);
        let q: u128 = p / (elapsed_ns as u128);
        if q < 1 {
            1
        } else if q > usize::MAX as u128 {
            usize::MAX
        } else {
            q as usize
        }
    }
}

/// Convergence of the feedback controller: when each pixel costs a
/// fixed `cost_ns`, one update from any batch length lands on
/// `floor(target / cost)` (clamped to at least 1), independent of the
/// length it started from — so that value is reached after a single
/// measurement and is a fixed point of the controller.
pub proof fn lemma_batch_converges(len: usize, target_ns: u64, cost_ns: u64)
    requires
        1 <= len,
        1 <= cost_ns,
        len * cost_ns <= u64::MAX,
    ensures
        sp_next_batch(len, target_ns, (len * cost_ns) as u64) == sp_initial_batch(
            target_ns,
            cost_ns,
        ),
        sp_next_batch(
            sp_initial_batch(target_ns, cost_ns),
            target_ns,
            (sp_initial_batch(target_ns, cost_ns) * cost_ns) as u64,
        ) == sp_initial_batch(target_ns, cost_ns),
{
    assert(1 <= len * cost_ns) by (nonlinear_arith)
        requires
            1 <= len,
            1 <= cost_ns,
    ;
    lemma_scaled_div(len as int, target_ns as int, cost_ns as int);
    let b = sp_initial_batch(target_ns, cost_ns);
    assert(1 <= b);
    assert(b * cost_ns <= u64::MAX) by {
        let q = target_ns as int / cost_ns as int;
        lemma_fundamental_div_mod(target_ns as int, cost_ns as int);
        if q >= 1 {
            if q > usize::MAX {
                assert(b == usize::MAX);
            }
            assert(q * cost_ns <= target_ns) by (nonlinear_arith)
                requires
                    target_ns == (target_ns as int / cost_ns as int) * cost_ns + target_ns as int
                        % cost_ns as int,
                    q == target_ns as int / cost_ns as int,
                    0 <= target_ns as int % cost_ns as int,
            ;
            assert(b <= q);
            assert(b * cost_ns <= q * cost_ns) by (nonlinear_arith)
                requires
                    b <= q,
                    cost_ns >= 1,
            ;
        } else {
            assert(b == 1);
        }
    }
    assert(1 <= b * cost_ns) by (nonlinear_arith)
        requires
            1 <= b,
            1 <= cost_ns,
    ;
    lemma_scaled_div(b as int, target_ns as int, cost_ns as int);
}

/// Scaling numerator and denominator by the same positive factor leaves
/// the integer quotient unchanged.
proof fn lemma_scaled_div(a: int, t: int, c: int)
    requires
        1 <= a,
        0 <= t,
        1 <= c,
    ensures
        (a * t) / (a * c) == t / c,
{
    let q = t / c;
    let r = t % c;
    lemma_fundamental_div_mod(t, c);
    assert(a * t == q * (a * c) + a * r) by (nonlinear_arith)
        requires
            t == q * c + r,
    ;
    assert(0 <= a * r < a * c) by (nonlinear_arith)
        requires
            1 <= a,
            0 <= r < c,
    ;
    assert(a * c != 0) by (nonlinear_arith)
        requires
            1 <= a,
            1 <= c,
    ;
    lemma_fundamental_div_mod_converse(a * t, a * c, q, a * r);
}

/// A batch's column span within one row, half-open.
#[derive(Clone, Copy, PartialEq, Eq, Structural, Debug)]
pub struct BatchSpan {
    pub start: usize,
    pub end: usize,
}

/// Spec mirror of advancing the cursor: the next span begins where this
/// one ended and extends by the batch size, capped at the row's width.
pub open spec fn sp_advance_span(span: BatchSpan, batch: usize, width: usize) -> BatchSpan {
    BatchSpan {
        start: span.end,
        end: if span.end + batch <= width {
            (span.end + batch) as usize
        } else {
            width
        },
    }
}

impl BatchSpan {
    /// The first span of a row: up to `batch` pixels from column zero.
    pub fn first(batch: usize, width: usize) -> (r: BatchSpan)
        ensures
            r.start == 0,
            r.end == if batch <= width { batch as int } else { width as int },
            r.start <= r.end <= width,
    {
        BatchSpan { start: 0, end: if batch <= width { batch } else { width } }
    }

    /// Advance past this span by `batch` pixels, capped at `width`; the
    /// row is complete when the returned span is empty.
    pub fn advance(self, batch: usize, width: usize) -> (r: BatchSpan)
        requires
            self.end <= width,
        ensures
            r == sp_advance_span(self, batch, width),
            r.start == self.end,
            r.start <= r.end <= width,
    {
        BatchSpan {
            start: self.end,
            end: if width - self.end >= batch {
                self.end + batch
            } else {
                width
            },
        }
    }

    /// Whether the span holds no pixels.
    pub fn is_empty(self) -> (r: bool)
        ensures
            r <==> self.start >= self.end,
    {
        self.start >= self.end
    }
}

/// Copy a rendered batch into the shared framebuffer, unless the job
/// was cancelled or the buffer's size no longer matches the job's
/// expectation. On any refusal the buffer is untouched — no byte beyond
/// the last committed batch is ever written — and on success exactly
/// the batch's bytes change, at the row's offset.
pub fn flush_batch(
    frame: &mut Vec<u8>,
    expected_len: usize,
    width: usize,
    row: usize,
    span: BatchSpan,
    row_buffer: &Vec<u8>,
    cancelled: bool,
) -> (r: Result<(), RenderError>)
    requires
        span.start <= span.end <= width,
        row_buffer@.len() == 4 * width,
        4 * ((row + 1) * width) <= expected_len,
    ensures
        cancelled ==> r == Err::<(), RenderError>(RenderError::Cancel),
        !cancelled && old(frame)@.len() != expected_len ==> r == Err::<(), RenderError>(
            RenderError::Resize,
        ),
        r is Ok <==> (!cancelled && old(frame)@.len() == expected_len),
        r is Err ==> *final(frame) == *old(frame),
        r is Ok ==> ({
            let lo = 4 * (row * width + span.start);
            let hi = 4 * (row * width + span.end);
            &&& final(frame)@.len() == old(frame)@.len()
            &&& forall|j: int|
                0 <= j < old(frame)@.len() && !(lo <= j < hi) ==> final(frame)@[j] == old(
                    frame,
                )@[j]
            &&& forall|j: int|
                lo <= j < hi ==> final(frame)@[j] == row_buffer@[j - 4 * (row * width)]
        }),
{
    if cancelled {
        return Err(RenderError::Cancel);
    }
    if frame.len() != expected_len {
        return Err(RenderError::Resize);
    }
    let ghost lo = 4 * (row * width + span.start);
    let ghost hi = 4 * (row * width + span.end);
    proof {
        assert(4 * (row * width + span.end) <= 4 * ((row + 1) * width)) by (nonlinear_arith)
            requires
                span.end <= width,
        ;
    }
    let base: usize = 4 * (row * width);
    let mut k: usize = 4 * span.start;
    let stop: usize = 4 * span.end;
    proof {
        assert(base + stop == hi && base + 4 * span.start == lo);
        assert(4 * (row * width) + 4 * span.end == 4 * (row * width + span.end));
        assert(4 * (row * width) + 4 * span.start == 4 * (row * width + span.start));
    }
    while k < stop
        invariant
            4 * span.start <= k <= stop,
            stop == 4 * span.end,
            base == 4 * (row * width),
            lo == base + 4 * span.start,
            hi == base + stop,
            hi <= expected_len,
            frame@.len() == expected_len,
            row_buffer@.len() == 4 * width,
            span.end <= width,
            old(frame)@.len() == expected_len,
            forall|j: int|
                0 <= j < expected_len && !(lo <= j < base + k) ==> frame@[j] == old(frame)@[j],
            forall|j: int| lo <= j < base + k ==> frame@[j] == row_buffer@[j - base],
        decreases stop - k,
    {
        let b = row_buffer[k];
        frame[base + k] = b;
        k = k + 1;
    }
    Ok(())
}

} // verus!
