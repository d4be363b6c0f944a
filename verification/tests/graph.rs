use wasserspiegel_core::domain::MeasurementPoint;
use wasserspiegel_core::graph::slice_series;
use wasserspiegel_core::models::F64Bits;

fn series(n: usize, start_ms: i64, step_ms: i64) -> Vec<MeasurementPoint> {
    (0..n)
        .map(|i| MeasurementPoint {
            timestamp_ms: start_ms + (i as i64) * step_ms,
            value: F64Bits((i as f64).to_bits()),
        })
        .collect()
}

#[test]
fn slicing_by_hours() {
    // hourly points, 48 of them; window is [latest-24h, latest] -> 25 points
    let s = series(48, 0, 3_600_000);
    let out = slice_series(&s, 24, 1000);
    assert_eq!(out.len(), 25);
    assert_eq!(out[0].timestamp_ms, 23 * 3_600_000);
    assert_eq!(out.last().unwrap().timestamp_ms, 47 * 3_600_000);
}

#[test]
fn downsampling_keeps_endpoints() {
    let s = series(960, 0, 900_000); // 15-min interval, 10 days
    let out = slice_series(&s, 24 * 10, 200);
    assert!(out.len() <= 200);
    assert_eq!(out[0].timestamp_ms, 0);
    assert_eq!(out.last().unwrap().timestamp_ms, 959 * 900_000);
    // strictly increasing timestamps
    assert!(out
        .windows(2)
        .all(|w| w[0].timestamp_ms < w[1].timestamp_ms));
}

#[test]
fn no_resample_when_small() {
    let s = series(10, 0, 1);
    let out = slice_series(&s, 24, 200);
    assert_eq!(out.len(), 10);
}

#[test]
fn degenerate_max_points() {
    let s = series(10, 0, 1);
    assert!(slice_series(&s, 24, 0).is_empty());
    let one = slice_series(&s, 24, 1);
    assert_eq!(one.len(), 1);
    assert_eq!(one[0].timestamp_ms, s[9].timestamp_ms);
}

#[test]
fn non_positive_hours_clamped() {
    let s = series(48, 0, 3_600_000);
    // 0 or negative hours must not swallow the whole series
    let out = slice_series(&s, 0, 1000);
    assert_eq!(out.len(), 2); // [latest-1h, latest]
    assert!(!slice_series(&s, -5, 1000).is_empty());
}

#[test]
fn empty_history_gives_nothing() {
    assert!(slice_series(&[], 24, 100).is_empty());
}

#[test]
fn stride_positions_round_half_up() {
    // 6 points into 3 samples: positions 0, 2.5 -> 3, 5
    let s = series(6, 0, 10);
    let out = slice_series(&s, 1, 3);
    let ts: Vec<i64> = out.iter().map(|p| p.timestamp_ms).collect();
    assert_eq!(ts, vec![0, 30, 50]);
    // values travel with their points
    assert_eq!(f64::from_bits(out[1].value.0), 3.0);
}

#[test]
fn stale_history_is_windowed_from_newest_sample() {
    // a series that ended long ago still shows its last day
    let s = series(48, 1_000_000_000, 3_600_000);
    let out = slice_series(&s, 24, 1000);
    assert_eq!(out.len(), 25);
    assert_eq!(out[0].timestamp_ms, 1_000_000_000 + 23 * 3_600_000);
}

#[test]
fn equal_timestamps_are_collapsed_when_downsampling() {
    let mut s = series(10, 0, 0);
    s.push(MeasurementPoint { timestamp_ms: 5, value: F64Bits(0) });
    let out = slice_series(&s, 1, 4);
    let ts: Vec<i64> = out.iter().map(|p| p.timestamp_ms).collect();
    assert_eq!(ts, vec![0, 5]);
}
