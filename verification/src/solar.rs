//! Sunrise and sunset lookup for the station's fixed coordinates.
//!
//! The solar computation itself comes from the `sunrise` crate, behind
//! trusted wrappers that hand instants out as plain epoch seconds; turning
//! an instant into local calendar fields and RFC 3339 text is verified
//! ([`crate::time`]).  Coordinates are validated once at startup, outside
//! the library, and carried through opaquely.

use vstd::prelude::*;
use crate::time::Timestamp;
use crate::time::spec_rfc3339_text;
use crate::time::days_in_month;
use crate::time::day_index;
use crate::time::format_rfc3339;
use crate::time::timestamp_from_epoch;
use crate::time::DAYS_TO_UNIX_EPOCH;

verus! {

#[verifier::external_type_specification]
#[verifier::external_body]
pub struct ExCoordinates(sunrise::Coordinates);

/// The epoch second of the civil date's noon, UTC.
pub open spec fn spec_utc_noon_epoch(year: int, month: int, day: int) -> int {
    (day_index(year, month, day) - DAYS_TO_UNIX_EPOCH) * 86400 + 43200
}

/// Relies on `sunrise::SolarDay::event_time(SolarEvent::Sunrise)`: the
/// sunrise instant of the given civil date at the given coordinates, as
/// epoch seconds, or `None` where the sun never rises that day.  The date
/// must be a real calendar date in the years 0 through 9999, so that the
/// underlying `NaiveDate` exists and the instant stays far inside the
/// range its conversion accepts.  The returned instant lies within two
/// days of the date's UTC noon: the crate offsets that noon by at most
/// half a day of longitude, a hundredth of a day of equation-of-time
/// terms, and half a day of hour angle.
#[verifier::external_body]
fn sunrise_epoch(coords: &sunrise::Coordinates, year: i64, month: u8, day: u8) -> (r: Option<i64>)
    requires
        0 <= year <= 9999,
        1 <= month <= 12,
        1 <= day <= days_in_month(year as int, month as int),
    ensures
        r matches Some(secs) ==> spec_utc_noon_epoch(year as int, month as int, day as int) - 2
            * 86400 <= secs <= spec_utc_noon_epoch(year as int, month as int, day as int) + 2
            * 86400,
{
    let date = chrono::NaiveDate::from_ymd_opt(year as i32, month as u32, day as u32)?;
    let event = sunrise::SolarDay::new(*coords, date).event_time(sunrise::SolarEvent::Sunrise)?;
    Some(event.timestamp())
}

/// Relies on `sunrise::SolarDay::event_time(SolarEvent::Sunset)`: the
/// sunset instant of the given civil date at the given coordinates, as
/// epoch seconds, or `None` where the sun never sets that day; same date
/// conditions and same two-day window as the sunrise wrapper.
#[verifier::external_body]
fn sunset_epoch(coords: &sunrise::Coordinates, year: i64, month: u8, day: u8) -> (r: Option<i64>)
    requires
        0 <= year <= 9999,
        1 <= month <= 12,
        1 <= day <= days_in_month(year as int, month as int),
    ensures
        r matches Some(secs) ==> spec_utc_noon_epoch(year as int, month as int, day as int) - 2
            * 86400 <= secs <= spec_utc_noon_epoch(year as int, month as int, day as int) + 2
            * 86400,
{
    let date = chrono::NaiveDate::from_ymd_opt(year as i32, month as u32, day as u32)?;
    let event = sunrise::SolarDay::new(*coords, date).event_time(sunrise::SolarEvent::Sunset)?;
    Some(event.timestamp())
}

/// An RFC 3339 text denoting an instant on the clock `offset_minutes`
/// ahead of UTC, to whole seconds, within two days of the epoch second
/// `near_epoch`.
pub open spec fn renders_instant_near(
    text: Seq<char>,
    offset_minutes: int,
    near_epoch: int,
) -> bool {
    exists|ts: Timestamp|
        {
            &&& ts.wf()
            &&& ts.offset_minutes == offset_minutes
            &&& ts.nanos == 0
            &&& near_epoch - 2 * 86400 <= ts.epoch_seconds() <= near_epoch + 2 * 86400
            &&& #[trigger] spec_rfc3339_text(ts) == text
        }
}

/// Sunrise and sunset of the civil date `(year, month, day)` at the given
/// coordinates, rendered as RFC 3339 text in the clock `offset_minutes`
/// ahead of UTC.  `None` only where an event does not occur on that day
/// (polar day or night) or falls outside the representable calendar.
/// Whatever instants the solar computation returns, the rendered texts
/// denote instants on that clock within two days of the date's UTC noon.
pub fn today_solar_strings(
    coords: &sunrise::Coordinates,
    year: i64,
    month: u8,
    day: u8,
    offset_minutes: i64,
) -> (r: Option<(String, String)>)
    requires
        0 <= year <= 9999,
        1 <= month <= 12,
        1 <= day <= days_in_month(year as int, month as int),
        -1439 <= offset_minutes <= 1439,
    ensures
        r matches Some(texts) ==> {
            let noon = spec_utc_noon_epoch(year as int, month as int, day as int);
            &&& renders_instant_near(texts.0@, offset_minutes as int, noon)
            &&& renders_instant_near(texts.1@, offset_minutes as int, noon)
        },
{
    let rise_secs = match sunrise_epoch(coords, year, month, day) {
        Some(v) => v,
        None => {
            return None;
        },
    };
    let set_secs = match sunset_epoch(coords, year, month, day) {
        Some(v) => v,
        None => {
            return None;
        },
    };
    let rise_ts = match timestamp_from_epoch(rise_secs, offset_minutes) {
        Some(ts) => ts,
        None => {
            return None;
        },
    };
    let set_ts = match timestamp_from_epoch(set_secs, offset_minutes) {
        Some(ts) => ts,
        None => {
            return None;
        },
    };
    let rise_text = format_rfc3339(&rise_ts);
    let set_text = format_rfc3339(&set_ts);
    proof {
        assert(spec_rfc3339_text(rise_ts) == rise_text@);
        assert(spec_rfc3339_text(set_ts) == set_text@);
    }
    Some((rise_text, set_text))
}

} // verus!
