use sensor_merge::interp::interpolate;

#[test]
fn test_interpolate() {
    // beginning
    assert_eq!(interpolate(0, 0, 20, 100, 0), 0);
    // middle
    assert_eq!(interpolate(0, 0, 100, 100, 30), 30);
    assert_eq!(interpolate(0, 0, 100, 100, 40), 40);
    assert_eq!(interpolate(0, 0, 100, 100, 50), 50);
    // end
    assert_eq!(interpolate(0, 0, 30, 30, 30), 30);
}

#[test]
fn interpolate_boundaries_hit_the_anchors() {
    // At the anchors the anchor values come back exactly.
    assert_eq!(interpolate(10, -500, 30, 700, 10), -500);
    assert_eq!(interpolate(10, -500, 30, 700, 30), 700);
}

#[test]
fn interpolate_on_a_descending_segment() {
    // Halfway down from 100 to 0.
    assert_eq!(interpolate(0, 100, 10, 0, 5), 50);
    // Descending across zero.
    assert_eq!(interpolate(0, 50, 10, -50, 5), 0);
}

#[test]
fn interpolate_rounds_toward_negative_infinity() {
    // The exact value is 1/3; it rounds down to 0.
    assert_eq!(interpolate(0, 0, 3, 1, 1), 0);
    // The exact value is -1/3; it rounds down to -1, not toward zero.
    assert_eq!(interpolate(0, 0, 3, -1, 1), -1);
}

#[test]
fn interpolate_stays_between_the_anchor_values() {
    let cases: [(u64, i64, u64, i64); 4] =
        [(0, -7, 13, 29), (5, 100, 6, -100), (0, 0, 1000, 1), (2, -3, 9, -11)];
    for (t0, v0, t1, v1) in cases {
        let lo = v0.min(v1);
        let hi = v0.max(v1);
        let mut t = t0;
        while t <= t1 {
            let r = interpolate(t0, v0, t1, v1, t);
            assert!(lo <= r && r <= hi);
            t += 1;
        }
    }
}

#[test]
fn interpolate_with_extreme_values() {
    // Anchor values at the ends of the i64 range, widest possible window.
    assert_eq!(interpolate(0, i64::MIN, u64::MAX, i64::MAX, 0), i64::MIN);
    assert_eq!(interpolate(0, i64::MIN, u64::MAX, i64::MAX, u64::MAX), i64::MAX);
    let mid = interpolate(0, i64::MIN, u64::MAX, i64::MAX, u64::MAX / 2);
    assert!(i64::MIN <= mid && mid <= i64::MAX);
    assert!((-2..=2).contains(&mid));
}
