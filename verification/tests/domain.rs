use wasserspiegel_core::domain::{
    parse_timestamp_ms, MeasurementPoint, station_summaries, StationMetrics, StationSummary,
};
use wasserspiegel_core::models::{
    F64Bits, RawMeasurement, RawStation, RawTrend, RawWaterLevel, StationDetailResponse,
    StationListResponse, WaterRef, NAN_BITS,
};

fn bits(v: f64) -> F64Bits {
    F64Bits(v.to_bits())
}

fn raw_station() -> RawStation {
    RawStation {
        uuid: "57090802-c51a-4d09-8340-b4453cd0e1f5".into(),
        longname: "MANNHEIM".into(),
        shortname: "MANNHEIM".into(),
        km: bits(424.7),
        latitude: bits(49.4),
        longitude: bits(8.4),
        water: WaterRef { longname: "RHEIN".into(), shortname: "RHEIN".into() },
    }
}

fn measurement(ts: &str, value: f64) -> RawMeasurement {
    RawMeasurement { timestamp: ts.into(), value: bits(value), unit: String::new() }
}

fn empty_trend() -> RawTrend {
    RawTrend { p1d: None, p3d: None, p7d: None }
}

fn detail(
    measurements: Vec<RawMeasurement>,
    latest: Option<RawMeasurement>,
    trend: RawTrend,
    unit: &str,
) -> StationDetailResponse {
    StationDetailResponse {
        station: raw_station(),
        water_level: RawWaterLevel {
            station_id: "57090802-c51a-4d09-8340-b4453cd0e1f5".into(),
            start: String::new(),
            end: String::new(),
            measurements,
            latest,
            trend,
            unit: unit.into(),
        },
    }
}

#[test]
fn parses_rfc3339_timestamps() {
    assert_eq!(parse_timestamp_ms("1970-01-01T00:00:01Z"), Some(1000));
    assert_eq!(
        parse_timestamp_ms("2026-08-15T10:00:00+02:00"),
        Some(1_786_780_800_000)
    );
    assert_eq!(parse_timestamp_ms("yesterday"), None);
}

#[test]
fn tolerates_missing_trend_fields() {
    let d = detail(
        vec![measurement("2026-08-15T10:00:00+02:00", 42.5)],
        None,
        empty_trend(),
        "",
    );
    let m = StationMetrics::from_detail(&d, 0);
    assert_eq!(f64::from_bits(m.current_level.0), 42.5); // falls back to last history point
    assert_eq!(m.current_timestamp_ms, 1_786_780_800_000);
    assert!(f64::from_bits(m.change_1day.0).is_nan());
    assert_eq!(m.change_1day.0, NAN_BITS);
    assert_eq!(m.unit, "cm"); // defaults when empty
    assert_eq!(m.history.len(), 1);
    assert_eq!(m.fetched_at_ms, 0);
}

#[test]
fn detail_prefers_latest_and_skips_bad_timestamps() {
    let d = detail(
        vec![
            measurement("2026-08-15T10:00:00+02:00", 70.0),
            measurement("not a time", 1.0),
            measurement("2026-08-15T10:15:00+02:00", 70.5),
        ],
        Some(measurement("2026-08-15T10:30:00+02:00", 71.0)),
        RawTrend {
            p1d: Some(measurement("", -3.0)),
            p3d: Some(measurement("", 3.5416666666666714)),
            p7d: None,
        },
        "cm",
    );
    let m = StationMetrics::from_detail(&d, 1_755_000_600_000);
    assert_eq!(m.station_name, "MANNHEIM");
    assert_eq!(m.water, "RHEIN");
    assert_eq!(m.station_id, "57090802-c51a-4d09-8340-b4453cd0e1f5");
    assert_eq!(f64::from_bits(m.km.0), 424.7);
    assert_eq!(f64::from_bits(m.current_level.0), 71.0);
    assert_eq!(m.current_timestamp_ms, 1_786_782_600_000);
    assert_eq!(f64::from_bits(m.change_1day.0), -3.0);
    assert!((f64::from_bits(m.change_3day.0) - 3.5416666666666714).abs() < 1e-9);
    assert!(f64::from_bits(m.change_7day.0).is_nan());
    assert_eq!(m.history.len(), 2);
    assert_eq!(m.history[1].timestamp_ms, 1_786_781_700_000);
    assert_eq!(m.fetched_at_ms, 1_755_000_600_000);
}

#[test]
fn unparsable_latest_falls_back_to_history_time() {
    let d = detail(
        vec![measurement("1970-01-01T00:00:02Z", 5.0)],
        Some(measurement("garbage", 6.0)),
        empty_trend(),
        "m",
    );
    let m = StationMetrics::from_detail(&d, 7);
    assert_eq!(f64::from_bits(m.current_level.0), 6.0);
    assert_eq!(m.current_timestamp_ms, 2000);
    assert_eq!(m.unit, "m");
    let empty = detail(vec![], None, empty_trend(), "");
    let m = StationMetrics::from_detail(&empty, 7);
    assert!(f64::from_bits(m.current_level.0).is_nan());
    assert_eq!(m.current_timestamp_ms, 0);
}

#[test]
fn station_list_becomes_summaries() {
    let list = StationListResponse { stations: vec![raw_station(), raw_station()] };
    let summaries: Vec<StationSummary> = station_summaries(&list);
    assert_eq!(summaries.len(), 2);
    assert_eq!(summaries[0].id, "57090802-c51a-4d09-8340-b4453cd0e1f5");
    assert_eq!(summaries[0].name, "MANNHEIM");
    assert_eq!(summaries[0].water, "RHEIN");
    assert_eq!(f64::from_bits(summaries[1].longitude.0), 8.4);
    let one = StationSummary::from_raw(&raw_station());
    assert_eq!(one.water, "RHEIN");
}

#[test]
fn metrics_from_given_instants() {
    let d = detail(
        vec![measurement("a", 1.0), measurement("b", 2.0), measurement("c", 3.0)],
        Some(measurement("d", 4.0)),
        empty_trend(),
        "",
    );
    let m = StationMetrics::from_parts(&d, &[Some(10), None, Some(30)], None, 5);
    let ts: Vec<i64> = m.history.iter().map(|p| p.timestamp_ms).collect();
    assert_eq!(ts, vec![10, 30]);
    assert_eq!(f64::from_bits(m.history[1].value.0), 3.0);
    assert_eq!(f64::from_bits(m.current_level.0), 4.0);
    assert_eq!(m.current_timestamp_ms, 30);
    let m = StationMetrics::from_parts(&d, &[None, None, None], Some(99), 5);
    assert!(m.history.is_empty());
    assert_eq!(m.current_timestamp_ms, 99);
}

#[test]
fn parses_station_detail_into_metrics() {
    // ten days of readings, every 8th quarter-hour kept: 120 points
    let start_s: i64 = 1_754_136_000; // 2025-08-02T12:00:00Z
    let measurements: Vec<RawMeasurement> = (0..120)
        .map(|k| {
            let t = chrono::DateTime::from_timestamp(start_s + k * 7_200, 0)
                .unwrap()
                .to_rfc3339();
            measurement(&t, 60.0 + (k as f64) / 10.0)
        })
        .collect();
    let latest = measurement("2025-08-12T13:45:00+02:00", 71.0);
    let trend = RawTrend {
        p1d: Some(measurement("", -3.0)),
        p3d: Some(measurement("", 3.5416666666666714)),
        p7d: Some(measurement("", 16.020833333337535)),
    };
    let detail = detail(measurements, Some(latest), trend, "cm");
    let metrics = StationMetrics::from_detail(&detail, 1_755_000_600_000);

    assert_eq!(metrics.station_name, "MANNHEIM");
    assert_eq!(metrics.water, "RHEIN");
    assert_eq!(metrics.unit, "cm");
    assert_eq!(f64::from_bits(metrics.current_level.0), 71.0);
    assert!(metrics.current_timestamp_ms > 0);

    assert_eq!(f64::from_bits(metrics.change_1day.0), -3.0);
    assert!((f64::from_bits(metrics.change_3day.0) - 3.5416666666666714).abs() < 1e-9);
    assert!((f64::from_bits(metrics.change_7day.0) - 16.020833333337535).abs() < 1e-6);

    assert_eq!(metrics.history.len(), 120);
    assert!(metrics.history.iter().all(|p| p.timestamp_ms > 0));
    assert!(metrics
        .history
        .windows(2)
        .all(|w| w[0].timestamp_ms <= w[1].timestamp_ms));
}

#[test]
fn float_values_compare_as_f64() {
    let nan = F64Bits(f64::NAN.to_bits());
    assert!(nan != nan);
    assert!(bits(0.0) == bits(-0.0));
    assert!(bits(1.5) == bits(1.5));
    assert!(bits(1.5) != bits(2.5));
    let p = MeasurementPoint { timestamp_ms: 1, value: bits(0.0) };
    let q = MeasurementPoint { timestamp_ms: 1, value: bits(-0.0) };
    assert!(p == q);
    let r = MeasurementPoint { timestamp_ms: 1, value: nan };
    assert!(r != r);
    assert!(p != MeasurementPoint { timestamp_ms: 2, value: bits(0.0) });
}
