//! The adaptive batch controller and cancellation-safe committing.

use raytracer::sched::{flush_batch, initial_batch, next_batch, BatchSpan, RenderError};

#[test]
fn batch_size_converges_for_constant_cost() {
    // with a synthetic fixed per-pixel cost, one update lands on
    // target / cost no matter the starting length, and stays there
    let target: u64 = 16_000_000;
    let cost: u64 = 1_000;
    let expected = (target / cost) as usize;
    assert_eq!(initial_batch(target, cost), expected);
    for len in [1usize, 7, 100, 16_000, 1_000_000] {
        assert_eq!(next_batch(len, target, (len as u64) * cost), expected);
    }
    // a fixed point of the controller
    assert_eq!(next_batch(expected, target, (expected as u64) * cost), expected);
}

#[test]
fn batch_size_is_at_least_one() {
    // a cost above the whole target still renders one pixel per batch
    assert_eq!(initial_batch(1_000, 50_000), 1);
    assert_eq!(next_batch(10, 1_000, 1_000_000), 1);
}

#[test]
fn unmeasurable_cost_saturates() {
    assert_eq!(initial_batch(1_000, 0), usize::MAX);
    assert_eq!(next_batch(10, 1_000, 0), usize::MAX);
}

#[test]
fn batch_shrinks_when_a_batch_ran_long() {
    // 100 pixels took twice the target: halve the batch
    assert_eq!(next_batch(100, 1_000_000, 2_000_000), 50);
}

#[test]
fn span_advances_and_caps_at_the_width() {
    let width = 100;
    let s0 = BatchSpan::first(30, width);
    assert_eq!((s0.start, s0.end), (0, 30));
    let s1 = s0.advance(30, width);
    assert_eq!((s1.start, s1.end), (30, 60));
    let s2 = s1.advance(50, width);
    assert_eq!((s2.start, s2.end), (60, 100));
    let s3 = s2.advance(50, width);
    assert!(s3.is_empty());
    assert_eq!((s3.start, s3.end), (100, 100));
}

#[test]
fn first_span_caps_at_a_narrow_row() {
    let s = BatchSpan::first(1_000, 8);
    assert_eq!((s.start, s.end), (0, 8));
}

fn filled_frame(width: usize, height: usize, b: u8) -> Vec<u8> {
    vec![b; width * height * 4]
}

fn row_buffer(width: usize, b: u8) -> Vec<u8> {
    vec![b; width * 4]
}

#[test]
fn cancellation_writes_nothing() {
    // cancellation safety: after a cancel no byte of the shared buffer
    // changes, verified on an instrumented buffer
    let width = 10;
    let mut frame = filled_frame(width, 4, 7);
    let expected_len = frame.len();
    let buf = row_buffer(width, 9);
    let span = BatchSpan { start: 2, end: 6 };
    let r = flush_batch(&mut frame, expected_len, width, 1, span, &buf, true);
    assert_eq!(r, Err(RenderError::Cancel));
    assert!(frame.iter().all(|&b| b == 7));
}

#[test]
fn stale_buffer_writes_nothing() {
    // a dimension mismatch discards the batch exactly like cancellation
    let width = 10;
    let mut frame = filled_frame(width, 4, 7);
    let wrong_len = frame.len() + 4;
    let buf = row_buffer(width, 9);
    let span = BatchSpan { start: 0, end: 10 };
    let r = flush_batch(&mut frame, wrong_len, width, 1, span, &buf, false);
    assert_eq!(r, Err(RenderError::Resize));
    assert!(frame.iter().all(|&b| b == 7));
}

#[test]
fn commit_touches_exactly_the_batch() {
    let width = 10;
    let row = 2;
    let mut frame = filled_frame(width, 4, 7);
    let expected_len = frame.len();
    let buf = row_buffer(width, 9);
    let span = BatchSpan { start: 3, end: 6 };
    let r = flush_batch(&mut frame, expected_len, width, row, span, &buf, false);
    assert_eq!(r, Ok(()));
    let lo = 4 * (row * width + span.start);
    let hi = 4 * (row * width + span.end);
    for (j, &b) in frame.iter().enumerate() {
        if (lo..hi).contains(&j) {
            assert_eq!(b, 9, "byte {} belongs to the batch", j);
        } else {
            assert_eq!(b, 7, "byte {} lies outside the batch", j);
        }
    }
}

#[test]
fn committed_bytes_come_from_the_row_buffer() {
    let width = 4;
    let mut frame = filled_frame(width, 2, 0);
    let expected_len = frame.len();
    let buf: Vec<u8> = (0..16).collect();
    let span = BatchSpan { start: 1, end: 3 };
    flush_batch(&mut frame, expected_len, width, 1, span, &buf, false).unwrap();
    // row 1 starts at byte 16; columns 1..3 are bytes 4..12 of the row
    assert_eq!(&frame[20..28], &buf[4..12]);
}
