use sensor_merge::merger::MergeError;
use sensor_merge::merger::Merger;

#[test]
fn no_emission_before_second_slow_sample() {
    let mut merger = Merger::new();
    assert!(!merger.is_draining());
    merger.on_slow_sample((0, 42)).unwrap();
    // The first slow sample only seeds the anchor: no window is open yet,
    // so no fast sample can produce a merged record.
    assert!(!merger.is_draining());
    merger.on_slow_sample((100, 43)).unwrap();
    assert!(merger.is_draining());
}

#[test]
fn window_emits_one_record_per_fast_sample() {
    let mut merger = Merger::new();
    merger.on_slow_sample((0, 0)).unwrap();
    merger.on_slow_sample((100, 1000)).unwrap();

    // Slow period 100, fast period 20: the window spans five fast periods.
    let mut emitted: Vec<(u64, i64, i64)> = Vec::new();
    for ft in [20u64, 40, 60, 80, 100] {
        let (m, closed) = merger.on_fast_sample((ft, 7)).unwrap().unwrap();
        emitted.push(m);
        assert_eq!(closed, ft == 100);
    }
    assert_eq!(emitted.len(), 5);
    assert!(!merger.is_draining());

    // The interpolated values track the ramp from 0 to 1000.
    assert_eq!(emitted[0], (20, 200, 7));
    assert_eq!(emitted[1], (40, 400, 7));
    assert_eq!(emitted[2], (60, 600, 7));
    assert_eq!(emitted[3], (80, 800, 7));
    assert_eq!(emitted[4], (100, 1000, 7));
}

#[test]
fn emitted_timestamps_strictly_increase_across_windows() {
    let mut merger = Merger::new();
    let mut stamps: Vec<u64> = Vec::new();
    let mut slow_t: u64 = 0;
    let mut fast_t: u64 = 0;
    merger.on_slow_sample((slow_t, 0)).unwrap();
    for step in 1..=4u64 {
        slow_t += 100;
        merger.on_slow_sample((slow_t, 1000 * step as i64)).unwrap();
        loop {
            fast_t += 20;
            let (m, closed) = merger.on_fast_sample((fast_t, 1)).unwrap().unwrap();
            stamps.push(m.0);
            if closed {
                break;
            }
        }
    }
    assert_eq!(stamps.len(), 20);
    for w in stamps.windows(2) {
        assert!(w[0] < w[1]);
    }
}

#[test]
fn first_window_skips_backlog_at_the_anchor() {
    // The fast sample that piled up at the lower anchor's own timestamp
    // before the first window opened is consumed without emitting, so the
    // first window emits exactly one record per fast period it spans, like
    // every later window.
    let mut merger = Merger::new();
    merger.on_slow_sample((0, 0)).unwrap();
    merger.on_slow_sample((100, 100)).unwrap();
    assert_eq!(merger.on_fast_sample((0, 5)).unwrap(), None);
    let mut n = 0;
    for ft in [20u64, 40, 60, 80, 100] {
        let (m, closed) = merger.on_fast_sample((ft, 5)).unwrap().unwrap();
        assert_eq!(m.0, ft);
        n += 1;
        assert_eq!(closed, ft == 100);
    }
    assert_eq!(n, 5);
}

#[test]
fn stale_slow_sample_is_a_monotonicity_violation() {
    let mut merger = Merger::new();
    merger.on_slow_sample((50, 1)).unwrap();
    assert_eq!(merger.on_slow_sample((50, 2)), Err(MergeError::MonotonicityViolation));
    assert_eq!(merger.on_slow_sample((10, 2)), Err(MergeError::MonotonicityViolation));
    // A later sample is still accepted: the failed ones changed nothing.
    merger.on_slow_sample((60, 2)).unwrap();
    assert!(merger.is_draining());
}

#[test]
fn fast_sample_outside_the_window_is_a_monotonicity_violation() {
    let mut merger = Merger::new();
    merger.on_slow_sample((100, 0)).unwrap();
    merger.on_slow_sample((200, 100)).unwrap();
    // Beyond the upper anchor.
    assert_eq!(merger.on_fast_sample((250, 1)), Err(MergeError::MonotonicityViolation));
    // At or before the lower anchor with nothing emitted yet: backlog from
    // before the first window, consumed without emitting.
    assert_eq!(merger.on_fast_sample((50, 1)).unwrap(), None);
    assert_eq!(merger.on_fast_sample((100, 1)).unwrap(), None);
    // In range: accepted.
    let (m, closed) = merger.on_fast_sample((150, 1)).unwrap().unwrap();
    assert_eq!(m, (150, 50, 1));
    assert!(!closed);
    // A repeated fast timestamp does not advance: rejected.
    assert_eq!(merger.on_fast_sample((150, 2)), Err(MergeError::MonotonicityViolation));
    // Once something was emitted, a sample at the anchor is no longer
    // backlog but a monotonicity breach.
    assert_eq!(merger.on_fast_sample((100, 3)), Err(MergeError::MonotonicityViolation));
}
