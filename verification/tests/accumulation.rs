//! Temporal accumulation weighting and its convergence.

use raytracer::accum::AccumState;

#[test]
fn weight_cap_must_be_a_fraction_in_unit_interval() {
    assert!(AccumState::new(0, 1).is_none());
    assert!(AccumState::new(1, 0).is_none());
    assert!(AccumState::new(3, 2).is_none());
    assert!(AccumState::new(1, 1).is_some());
    assert!(AccumState::new(3, 4).is_some());
}

#[test]
fn weight_follows_the_formula() {
    // weight = min(max_weight, n / (n + 1))
    let mut s = AccumState::new(3, 4).unwrap();
    assert_eq!(s.weight(), (0, 1));
    s.advance();
    assert_eq!(s.weight(), (1, 2));
    s.advance();
    assert_eq!(s.weight(), (2, 3));
    s.advance();
    // 3/4 == cap: the cap wins from here on
    assert_eq!(s.weight(), (3, 4));
    s.advance();
    assert_eq!(s.weight(), (3, 4));
}

#[test]
fn uncapped_weight_keeps_growing_below_one() {
    let mut s = AccumState::new(1, 1).unwrap();
    for n in 0..100u64 {
        let (num, den) = s.weight();
        assert_eq!((num, den), (n, n + 1));
        assert!(num < den);
        s.advance();
    }
}

#[test]
fn frame_count_saturates() {
    let mut s = AccumState::new(1, 1).unwrap();
    s.frame_count = u32::MAX;
    s.advance();
    assert_eq!(s.frame_count, u32::MAX);
    let (num, den) = s.weight();
    assert!(num < den);
}

#[test]
fn later_weights_still_converge_from_any_start() {
    // even without the zeroth frame's full replacement, the product of
    // the weights of frames 1..n is at most 1 / (n + 1), so the
    // residual keeps shrinking at that rate from any starting buffer
    for (cap_num, cap_den) in [(1u32, 1u32), (1, 2), (9, 10)] {
        let mut s = AccumState::new(cap_num, cap_den).unwrap();
        s.frame_count = 1;
        let c = 0.25f64;
        let mut acc = 1.0f64;
        let d0 = (acc - c).abs();
        let mut blends = 0u32;
        while blends < 400 {
            let (num, den) = s.weight();
            let w = num as f64 / den as f64;
            acc = c * (1.0 - w) + acc * w;
            s.advance();
            blends += 1;
            let bound = d0 / (blends as f64 + 1.0) + 1e-12;
            assert!((acc - c).abs() <= bound);
        }
    }
}

#[test]
fn blending_uniform_color_converges() {
    // repeatedly blending frames of a uniform color converges the
    // accumulated value to that color for any cap in (0, 1]; after n
    // frames the residual is at most the initial residual over n + 1
    for (cap_num, cap_den) in [(1u32, 1u32), (1, 4), (3, 4), (99, 100)] {
        let mut s = AccumState::new(cap_num, cap_den).unwrap();
        let c = 0.75f64;
        let mut acc = 0.1f64;
        let d0 = (acc - c).abs();
        for n in 1..=500u32 {
            let (num, den) = s.weight();
            let w = num as f64 / den as f64;
            acc = c * (1.0 - w) + acc * w;
            s.advance();
            let bound = d0 / (n as f64 + 1.0) + 1e-12;
            assert!(
                (acc - c).abs() <= bound,
                "cap {}/{}: residual {} after {} frames exceeds {}",
                cap_num,
                cap_den,
                (acc - c).abs(),
                n,
                bound
            );
        }
        assert!((acc - c).abs() < 1e-3);
    }
}
