//! The payloads that the wasserspiegel API serves (raw PegelOnline shapes).
//!
//! Decoding them from JSON is done outside this crate, into copies of these
//! types; here they are plain data that the domain logic reads. Numbers that
//! the API sends as floating point are carried as `F64Bits`.

use vstd::prelude::*;

verus! {

/// An IEEE-754 binary64 value, held by its bit pattern. The library moves
/// such values around and never computes with them.
#[derive(Debug, Clone, Copy)]
pub struct F64Bits(pub u64);

/// The bit pattern is a NaN: all exponent bits set and a non-zero fraction.
pub open spec fn is_nan_bits(b: u64) -> bool {
    (b & 0x7ff0_0000_0000_0000u64) == 0x7ff0_0000_0000_0000u64 && (b & 0x000f_ffff_ffff_ffffu64)
        != 0
}

/// The bit pattern is a zero, positive or negative.
pub open spec fn is_zero_bits(b: u64) -> bool {
    (b & 0x7fff_ffff_ffff_ffffu64) == 0
}

/// IEEE-754 equality of two binary64 values given by their bit patterns: a
/// NaN equals nothing, not even itself; `+0.0` equals `-0.0`; any other two
/// values are equal where their bit patterns are.
pub open spec fn ieee_eq(a: u64, b: u64) -> bool {
    &&& !is_nan_bits(a)
    &&& !is_nan_bits(b)
    &&& (a == b || (is_zero_bits(a) && is_zero_bits(b)))
}

impl PartialEq for F64Bits {
    /// Compares as `f64` does (IEEE-754 equality).
    fn eq(&self, other: &Self) -> (r: bool) {
        let a = self.0;
        let b = other.0;
        let a_nan = (a & 0x7ff0_0000_0000_0000u64) == 0x7ff0_0000_0000_0000u64 && (a
            & 0x000f_ffff_ffff_ffffu64) != 0;
        let b_nan = (b & 0x7ff0_0000_0000_0000u64) == 0x7ff0_0000_0000_0000u64 && (b
            & 0x000f_ffff_ffff_ffffu64) != 0;
        !a_nan && !b_nan && (a == b || ((a & 0x7fff_ffff_ffff_ffffu64) == 0 && (b
            & 0x7fff_ffff_ffff_ffffu64) == 0))
    }
}

impl vstd::std_specs::cmp::PartialEqSpecImpl for F64Bits {
    open spec fn obeys_eq_spec() -> bool {
        true
    }

    open spec fn eq_spec(&self, other: &Self) -> bool {
        ieee_eq(self.0, other.0)
    }
}

/// The bit pattern of `f64::NAN`, the value that stands for "no measurement".
pub const NAN_BITS: u64 = 0x7ff8_0000_0000_0000u64;

/// The name of a body of water.
#[derive(Debug, Clone)]
pub struct WaterRef {
    pub longname: String,
    pub shortname: String,
}

/// One measurement station as listed by the API.
#[derive(Debug, Clone)]
pub struct RawStation {
    pub uuid: String,
    pub longname: String,
    pub shortname: String,
    pub km: F64Bits,
    pub latitude: F64Bits,
    pub longitude: F64Bits,
    pub water: WaterRef,
}

/// The reply to `GET /stations`.
#[derive(Debug, Clone)]
pub struct StationListResponse {
    pub stations: Vec<RawStation>,
}

/// Single measurement point as served in water level collections.
/// `unit` is usually empty on series entries; the collection carries it.
#[derive(Debug, Clone)]
pub struct RawMeasurement {
    pub timestamp: String,
    pub value: F64Bits,
    pub unit: String,
}

/// Level changes over the last one, three and seven days, where known.
#[derive(Debug, Clone)]
pub struct RawTrend {
    pub p1d: Option<RawMeasurement>,
    pub p3d: Option<RawMeasurement>,
    pub p7d: Option<RawMeasurement>,
}

/// The water level part of a station detail.
#[derive(Debug, Clone)]
pub struct RawWaterLevel {
    pub station_id: String,
    pub start: String,
    pub end: String,
    pub measurements: Vec<RawMeasurement>,
    pub latest: Option<RawMeasurement>,
    pub trend: RawTrend,
    pub unit: String,
}

/// The reply to `GET /stations/{id}`.
#[derive(Debug, Clone)]
pub struct StationDetailResponse {
    pub station: RawStation,
    pub water_level: RawWaterLevel,
}

/// Error envelope: `{"error": "..."}` - served on all failures
/// (including "resource not found" which arrives with HTTP 500).
#[derive(Debug, Clone)]
pub struct ApiError {
    pub error: String,
}

} // verus!
