//! Weather-station backend core: query construction for the time-series
//! store, range validation, and the derived-metrics pipeline.
//!
//! The library is organised leaf-first:
//! - [`time`] models instants as calendar fields with a UTC offset,
//!   parses and renders them in RFC 3339 text, and validates ranges.
//! - [`flux`] renders the query programs sent to the time-series store.
//! - [`metrics`] derives apparent temperature, rainfall deltas and daily
//!   extrema from ordered rows of hourly samples.
//! - [`solar`] computes sunrise and sunset instants for fixed coordinates.
//!
//! Network I/O, HTTP routing and configuration live outside the library;
//! they hand rows and parameters in as plain values.

use vstd::prelude::*;

pub mod flux;
pub mod metrics;
pub mod solar;
pub mod time;

verus! {

/// Errors surfaced to the request handlers.
///
/// `InvalidRange` rejects a request before any store interaction;
/// `QueryFailed` wraps the store's own error text; `EmptyResult` reports
/// a range that returned no rows where at least one was needed.
#[derive(Debug)]
pub enum ApiError {
    InvalidRange,
    QueryFailed(String),
    EmptyResult,
}

impl ApiError {
    /// Human-readable error text, used for the JSON error body.
    pub fn message(&self) -> (r: String)
        ensures
            r@ == self.spec_message(),
    {
        match self {
            ApiError::InvalidRange => "Invalid range".to_owned(),
            ApiError::QueryFailed(cause) => "Influx query failed: ".to_owned().concat(
                cause.as_str(),
            ),
            ApiError::EmptyResult => "Empty result".to_owned(),
        }
    }

    /// What [`ApiError::message`] returns, as a sequence of characters.
    pub open spec fn spec_message(&self) -> Seq<char> {
        match self {
            ApiError::InvalidRange => "Invalid range"@,
            ApiError::QueryFailed(cause) => "Influx query failed: "@ + cause@,
            ApiError::EmptyResult => "Empty result"@,
        }
    }
}

/// The raw `start`/`end` query parameters of a range request.
pub struct RangeParams {
    pub start: String,
    pub end: String,
}

} // verus!
