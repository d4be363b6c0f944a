//! Processed domain types derived from raw API payloads.

use vstd::prelude::*;
use vstd::string::StringExecFns;

use crate::models::{
    F64Bits, NAN_BITS, ieee_eq, RawMeasurement, RawStation, RawTrend, StationDetailResponse,
    StationListResponse,
};

verus! {

/// One point of the level history, timestamp in epoch milliseconds.
#[derive(Debug, Clone, Copy)]
pub struct MeasurementPoint {
    pub timestamp_ms: i64,
    pub value: F64Bits,
}

impl PartialEq for MeasurementPoint {
    /// Equal timestamps and values equal as `f64` values are.
    fn eq(&self, other: &Self) -> (r: bool) {
        self.timestamp_ms == other.timestamp_ms && self.value.eq(&other.value)
    }
}

impl vstd::std_specs::cmp::PartialEqSpecImpl for MeasurementPoint {
    open spec fn obeys_eq_spec() -> bool {
        true
    }

    open spec fn eq_spec(&self, other: &Self) -> bool {
        self.timestamp_ms == other.timestamp_ms && ieee_eq(self.value.0, other.value.0)
    }
}

/// Fully processed dashboard payload for a single station.
#[derive(Debug, Clone)]
pub struct StationMetrics {
    pub station_id: String,
    pub station_name: String,
    pub water: String,
    pub km: F64Bits,
    pub latitude: F64Bits,
    pub longitude: F64Bits,
    pub current_level: F64Bits,
    pub current_timestamp_ms: i64,
    pub change_1day: F64Bits,
    pub change_3day: F64Bits,
    pub change_7day: F64Bits,
    pub unit: String,
    pub history: Vec<MeasurementPoint>,
    pub fetched_at_ms: i64,
}

/// Compact station descriptor for pickers and lists.
#[derive(Debug, Clone)]
pub struct StationSummary {
    pub id: String,
    pub name: String,
    pub water: String,
    pub km: F64Bits,
    pub latitude: F64Bits,
    pub longitude: F64Bits,
}

/// A `StationSummary` with its texts seen as character sequences.
pub ghost struct SummaryView {
    pub id: Seq<char>,
    pub name: Seq<char>,
    pub water: Seq<char>,
    pub km: F64Bits,
    pub latitude: F64Bits,
    pub longitude: F64Bits,
}

impl View for StationSummary {
    type V = SummaryView;

    open spec fn view(&self) -> SummaryView {
        SummaryView {
            id: self.id@,
            name: self.name@,
            water: self.water@,
            km: self.km,
            latitude: self.latitude,
            longitude: self.longitude,
        }
    }
}

/// The instant that an RFC 3339 timestamp denotes, in milliseconds since the
/// Unix epoch, or `None` where the text is no RFC 3339 timestamp (what
/// `chrono::DateTime::parse_from_rfc3339` followed by `timestamp_millis` gives).
pub uninterp spec fn rfc3339_millis(text: Seq<char>) -> Option<i64>;

/// Parses an RFC 3339 timestamp into epoch milliseconds, through
/// `chrono::DateTime::parse_from_rfc3339` and `DateTime::timestamp_millis`.
/// Claimed: the result is `rfc3339_millis` of the text, a function of the
/// characters alone.
#[verifier::external_body]
pub fn parse_timestamp_ms(ts: &str) -> (r: Option<i64>)
    ensures
        r == rfc3339_millis(ts@),
{
    match chrono::DateTime::parse_from_rfc3339(ts) {
        Ok(dt) => Some(dt.timestamp_millis()),
        Err(_) => None,
    }
}

/// The summary that a raw station entry gives.
pub open spec fn summary_of(s: RawStation) -> SummaryView {
    SummaryView {
        id: s.uuid@,
        name: s.longname@,
        water: s.water.longname@,
        km: s.km,
        latitude: s.latitude,
        longitude: s.longitude,
    }
}

impl StationSummary {
    /// The summary of a raw station entry: its uuid, long name, the long
    /// name of its water and its coordinates.
    pub fn from_raw(s: &RawStation) -> (r: StationSummary)
        ensures
            r@ == summary_of(*s),
            r.id@ == s.uuid@,
            r.name@ == s.longname@,
            r.water@ == s.water.longname@,
            r.km == s.km,
            r.latitude == s.latitude,
            r.longitude == s.longitude,
    {
        StationSummary {
            id: s.uuid.clone(),
            name: s.longname.clone(),
            water: s.water.longname.clone(),
            km: s.km,
            latitude: s.latitude,
            longitude: s.longitude,
        }
    }
}

/// The summaries of all stations of a list reply, in the reply's order.
pub fn station_summaries(list: &StationListResponse) -> (r: Vec<StationSummary>)
    ensures
        r.len() == list.stations.len(),
        forall|i: int| 0 <= i < r.len() ==> #[trigger] r[i]@ == summary_of(list.stations[i]),
        forall|i: int|
            0 <= i < r.len() ==> {
                &&& (#[trigger] r[i]).id@ == list.stations[i].uuid@
                &&& r[i].name@ == list.stations[i].longname@
                &&& r[i].water@ == list.stations[i].water.longname@
                &&& r[i].km == list.stations[i].km
                &&& r[i].latitude == list.stations[i].latitude
                &&& r[i].longitude == list.stations[i].longitude
            },
{
    let mut out: Vec<StationSummary> = Vec::new();
    for i in 0..list.stations.len()
        invariant
            out.len() == i,
            forall|k: int| 0 <= k < i ==> #[trigger] out[k]@ == summary_of(list.stations[k]),
            forall|k: int|
                0 <= k < i ==> {
                    &&& (#[trigger] out[k]).id@ == list.stations[k].uuid@
                    &&& out[k].name@ == list.stations[k].longname@
                    &&& out[k].water@ == list.stations[k].water.longname@
                    &&& out[k].km == list.stations[k].km
                    &&& out[k].latitude == list.stations[k].latitude
                    &&& out[k].longitude == list.stations[k].longitude
                },
    {
        out.push(StationSummary::from_raw(&list.stations[i]));
    }
    out
}

/// The history points of a measurement series, given the instant that each
/// measurement's timestamp denotes where it parses: each measurement with
/// an instant, in the series' order.
pub open spec fn history_from(ms: Seq<RawMeasurement>, stamps: Seq<Option<i64>>) -> Seq<
    MeasurementPoint,
>
    decreases ms.len(),
{
    if ms.len() == 0 {
        Seq::empty()
    } else {
        let prev = history_from(ms.drop_last(), stamps.drop_last());
        match stamps.last() {
            Some(t) => prev.push(MeasurementPoint { timestamp_ms: t, value: ms.last().value }),
            None => prev,
        }
    }
}

/// The instants that the timestamps of a measurement series denote.
pub open spec fn stamps_of(ms: Seq<RawMeasurement>) -> Seq<Option<i64>> {
    ms.map_values(|m: RawMeasurement| rfc3339_millis(m.timestamp@))
}

/// The history points of a measurement series: each measurement whose
/// timestamp parses, in the series' order.
pub open spec fn parsed_history(ms: Seq<RawMeasurement>) -> Seq<MeasurementPoint> {
    history_from(ms, stamps_of(ms))
}

/// The value of an optional measurement, NaN where there is none.
pub open spec fn value_or_nan(m: Option<RawMeasurement>) -> F64Bits {
    match m {
        Some(m) => m.value,
        None => F64Bits(NAN_BITS),
    }
}

/// The current level: the latest measurement's value, else the value of the
/// last history point, else NaN.
pub open spec fn current_level_of(latest: Option<RawMeasurement>, history: Seq<MeasurementPoint>) -> F64Bits {
    match latest {
        Some(m) => m.value,
        None => if history.len() > 0 {
            history.last().value
        } else {
            F64Bits(NAN_BITS)
        },
    }
}

/// The current timestamp: the instant of the latest measurement where there
/// is one and its timestamp parses (to `latest_stamp`), else the timestamp
/// of the last history point, else 0.
pub open spec fn current_timestamp_of(
    latest: Option<RawMeasurement>,
    latest_stamp: Option<i64>,
    history: Seq<MeasurementPoint>,
) -> i64 {
    let fallback = if history.len() > 0 {
        history.last().timestamp_ms
    } else {
        0
    };
    match latest {
        Some(_) => match latest_stamp {
            Some(t) => t,
            None => fallback,
        },
        None => fallback,
    }
}

/// The instant of the latest measurement's timestamp, where there is a
/// latest measurement.
pub open spec fn latest_stamp_of(latest: Option<RawMeasurement>) -> Option<i64> {
    match latest {
        Some(m) => rfc3339_millis(m.timestamp@),
        None => None,
    }
}

/// The unit of a water level series, "cm" where the API leaves it empty.
pub open spec fn unit_of(unit: Seq<char>) -> Seq<char> {
    if unit.len() == 0 {
        "cm"@
    } else {
        unit
    }
}

/// The span of a trend value.
enum TrendSpan {
    OneDay,
    ThreeDays,
    SevenDays,
}

fn trend_value(trend: &RawTrend, span: TrendSpan) -> (r: F64Bits)
    ensures
        r == value_or_nan(
            match span {
                TrendSpan::OneDay => trend.p1d,
                TrendSpan::ThreeDays => trend.p3d,
                TrendSpan::SevenDays => trend.p7d,
            },
        ),
{
    let m = match span {
        TrendSpan::OneDay => &trend.p1d,
        TrendSpan::ThreeDays => &trend.p3d,
        TrendSpan::SevenDays => &trend.p7d,
    };
    match m {
        Some(m) => m.value,
        None => F64Bits(NAN_BITS),
    }
}

fn history_from_stamps(ms: &Vec<RawMeasurement>, stamps: &[Option<i64>]) -> (r: Vec<
    MeasurementPoint,
>)
    requires
        stamps.len() == ms.len(),
    ensures
        r@ == history_from(ms@, stamps@),
{
    let mut out: Vec<MeasurementPoint> = Vec::new();
    for i in 0..ms.len()
        invariant
            stamps.len() == ms.len(),
            out@ == history_from(ms@.take(i as int), stamps@.take(i as int)),
    {
        proof {
            assert(ms@.take(i + 1).drop_last() =~= ms@.take(i as int));
            assert(stamps@.take(i + 1).drop_last() =~= stamps@.take(i as int));
            assert(ms@.take(i + 1).last() == ms@[i as int]);
            assert(stamps@.take(i + 1).last() == stamps@[i as int]);
        }
        match stamps[i] {
            Some(t) => out.push(MeasurementPoint { timestamp_ms: t, value: ms[i].value }),
            None => {},
        }
    }
    assert(ms@.take(ms.len() as int) =~= ms@);
    assert(stamps@.take(ms.len() as int) =~= stamps@);
    out
}

impl StationMetrics {
    /// The dashboard payload of a station detail reply, fetched at
    /// `fetched_at_ms`, given the instants that the timestamps of its
    /// measurements denote (`stamps`, one per measurement, `None` where a
    /// timestamp does not parse) and that of its latest measurement.
    pub fn from_parts(
        detail: &StationDetailResponse,
        stamps: &[Option<i64>],
        latest_stamp: Option<i64>,
        fetched_at_ms: i64,
    ) -> (r: StationMetrics)
        requires
            stamps.len() == detail.water_level.measurements.len(),
        ensures
            r.station_id@ == detail.station.uuid@,
            r.station_name@ == detail.station.longname@,
            r.water@ == detail.station.water.longname@,
            r.km == detail.station.km,
            r.latitude == detail.station.latitude,
            r.longitude == detail.station.longitude,
            r.history@ == history_from(detail.water_level.measurements@, stamps@),
            r.current_level == current_level_of(detail.water_level.latest, r.history@),
            detail.water_level.latest is Some ==> r.current_level
                == detail.water_level.latest->0.value,
            detail.water_level.latest is None && r.history@.len() > 0 ==> r.current_level
                == r.history@.last().value,
            detail.water_level.latest is None && r.history@.len() == 0 ==> r.current_level
                == F64Bits(NAN_BITS),
            detail.water_level.latest is None && r.history@.len() > 0 ==> r.current_timestamp_ms
                == r.history@.last().timestamp_ms,
            detail.water_level.latest is None && r.history@.len() == 0 ==> r.current_timestamp_ms
                == 0,
            r.current_timestamp_ms == current_timestamp_of(
                detail.water_level.latest,
                latest_stamp,
                r.history@,
            ),
            detail.water_level.latest is Some && latest_stamp is Some ==> r.current_timestamp_ms
                == latest_stamp->0,
            detail.water_level.latest is Some && latest_stamp is None && r.history@.len() > 0
                ==> r.current_timestamp_ms == r.history@.last().timestamp_ms,
            r.change_1day == value_or_nan(detail.water_level.trend.p1d),
            r.change_3day == value_or_nan(detail.water_level.trend.p3d),
            r.change_7day == value_or_nan(detail.water_level.trend.p7d),
            r.unit@ == unit_of(detail.water_level.unit@),
            r.fetched_at_ms == fetched_at_ms,
    {
        let station = &detail.station;
        let wl = &detail.water_level;

        let history = history_from_stamps(&wl.measurements, stamps);
        let n = history.len();

        let current_level = match &wl.latest {
            Some(m) => m.value,
            None => if n > 0 {
                history[n - 1].value
            } else {
                F64Bits(NAN_BITS)
            },
        };
        let fallback_ts: i64 = if n > 0 {
            history[n - 1].timestamp_ms
        } else {
            0
        };
        let current_timestamp_ms = match &wl.latest {
            Some(_) => match latest_stamp {
                Some(t) => t,
                None => fallback_ts,
            },
            None => fallback_ts,
        };
        let unit = if wl.unit.as_str().is_empty() {
            String::from_str("cm")
        } else {
            wl.unit.clone()
        };

        StationMetrics {
            station_id: station.uuid.clone(),
            station_name: station.longname.clone(),
            water: station.water.longname.clone(),
            km: station.km,
            latitude: station.latitude,
            longitude: station.longitude,
            current_level,
            current_timestamp_ms,
            change_1day: trend_value(&wl.trend, TrendSpan::OneDay),
            change_3day: trend_value(&wl.trend, TrendSpan::ThreeDays),
            change_7day: trend_value(&wl.trend, TrendSpan::SevenDays),
            unit,
            history,
            fetched_at_ms,
        }
    }

    /// The dashboard payload of a station detail reply, fetched at
    /// `fetched_at_ms`: the history holds the measurements whose timestamps
    /// parse as RFC 3339; the current level and timestamp come from the
    /// latest measurement, falling back to the last history point; missing
    /// trend values are NaN; an empty unit is "cm".
    pub fn from_detail(detail: &StationDetailResponse, fetched_at_ms: i64) -> (r: StationMetrics)
        ensures
            r.station_id@ == detail.station.uuid@,
            r.station_name@ == detail.station.longname@,
            r.water@ == detail.station.water.longname@,
            r.km == detail.station.km,
            r.latitude == detail.station.latitude,
            r.longitude == detail.station.longitude,
            r.history@ == parsed_history(detail.water_level.measurements@),
            r.current_level == current_level_of(detail.water_level.latest, r.history@),
            detail.water_level.latest is Some ==> r.current_level
                == detail.water_level.latest->0.value,
            detail.water_level.latest is None && r.history@.len() > 0 ==> r.current_level
                == r.history@.last().value,
            detail.water_level.latest is None && r.history@.len() == 0 ==> r.current_level
                == F64Bits(NAN_BITS),
            detail.water_level.latest is None && r.history@.len() > 0 ==> r.current_timestamp_ms
                == r.history@.last().timestamp_ms,
            detail.water_level.latest is None && r.history@.len() == 0 ==> r.current_timestamp_ms
                == 0,
            r.current_timestamp_ms == current_timestamp_of(
                detail.water_level.latest,
                latest_stamp_of(detail.water_level.latest),
                r.history@,
            ),
            detail.water_level.latest is Some ==> match rfc3339_millis(
                detail.water_level.latest->0.timestamp@,
            ) {
                Some(t) => r.current_timestamp_ms == t,
                None => r.history@.len() > 0 ==> r.current_timestamp_ms
                    == r.history@.last().timestamp_ms,
            },
            r.change_1day == value_or_nan(detail.water_level.trend.p1d),
            r.change_3day == value_or_nan(detail.water_level.trend.p3d),
            r.change_7day == value_or_nan(detail.water_level.trend.p7d),
            r.unit@ == unit_of(detail.water_level.unit@),
            r.fetched_at_ms == fetched_at_ms,
    {
        let ms = &detail.water_level.measurements;
        let mut stamps: Vec<Option<i64>> = Vec::new();
        for i in 0..ms.len()
            invariant
                stamps@ == stamps_of(ms@).take(i as int),
        {
            stamps.push(parse_timestamp_ms(ms[i].timestamp.as_str()));
            assert(stamps@ =~= stamps_of(ms@).take(i + 1));
        }
        assert(stamps@ =~= stamps_of(ms@));
        let latest_stamp = match &detail.water_level.latest {
            Some(m) => parse_timestamp_ms(m.timestamp.as_str()),
            None => None,
        };
        StationMetrics::from_parts(detail, stamps.as_slice(), latest_stamp, fetched_at_ms)
    }
}

/// The current level is the latest measurement's value; without one, the
/// value of the newest history point; without history either, NaN.
pub proof fn law_current_level_is_newest(latest: Option<RawMeasurement>, history: Seq<MeasurementPoint>)
    ensures
        latest is Some ==> current_level_of(latest, history) == latest->0.value,
        latest is None && history.len() > 0 ==> current_level_of(latest, history)
            == history[history.len() - 1].value,
        latest is None && history.len() == 0 ==> current_level_of(latest, history).0 == NAN_BITS,
{
}

/// The current time is the latest measurement's instant where it has one;
/// else the time of the newest history point; without history, 0.
pub proof fn law_current_time_is_newest(
    latest: Option<RawMeasurement>,
    latest_stamp: Option<i64>,
    history: Seq<MeasurementPoint>,
)
    ensures
        latest is Some && latest_stamp is Some ==> current_timestamp_of(latest, latest_stamp, history)
            == latest_stamp->0,
        (latest is None || latest_stamp is None) && history.len() > 0 ==> current_timestamp_of(
            latest,
            latest_stamp,
            history,
        ) == history[history.len() - 1].timestamp_ms,
        (latest is None || latest_stamp is None) && history.len() == 0 ==> current_timestamp_of(
            latest,
            latest_stamp,
            history,
        ) == 0,
{
}

/// A summary carries the raw station's own id, names and coordinates.
pub proof fn law_summary_fields(s: RawStation)
    ensures
        summary_of(s).id == s.uuid@,
        summary_of(s).name == s.longname@,
        summary_of(s).water == s.water.longname@,
        summary_of(s).km == s.km,
        summary_of(s).latitude == s.latitude,
        summary_of(s).longitude == s.longitude,
{
}

} // verus!
