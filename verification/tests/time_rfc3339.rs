use weather_backend::time::{format_rfc3339, parse_rfc3339, timestamp_from_epoch, validate_range_params, Timestamp};
use weather_backend::RangeParams;

fn params(start: &str, end: &str) -> RangeParams {
    RangeParams { start: start.to_string(), end: end.to_string() }
}

#[test]
fn parses_epoch_origin() {
    let ts = parse_rfc3339("1970-01-01T00:00:00Z").unwrap();
    assert_eq!(ts.year, 1970);
    assert_eq!((ts.month, ts.day, ts.hour, ts.minute, ts.second, ts.nanos), (1, 1, 0, 0, 0, 0));
    assert_eq!(ts.offset_minutes, 0);
    assert_eq!(ts.to_epoch_seconds(), 0);
}

#[test]
fn parses_fraction_and_offset() {
    let ts = parse_rfc3339("2024-03-10T15:30:45.5+02:00").unwrap();
    assert_eq!(ts.nanos, 500_000_000);
    assert_eq!(ts.offset_minutes, 120);
    let chrono_ts = chrono::DateTime::parse_from_rfc3339("2024-03-10T15:30:45.5+02:00").unwrap();
    assert_eq!(ts.to_epoch_seconds(), chrono_ts.timestamp());
}

#[test]
fn epoch_seconds_agree_with_chrono() {
    for text in [
        "2000-02-29T23:59:59Z",
        "1999-12-31T23:59:59-11:30",
        "2038-01-19T03:14:07+00:00",
        "0001-01-01T00:00:00Z",
        "9999-12-31T23:59:59+13:59",
        "1969-07-20T20:17:40-05:00",
    ] {
        let ours = parse_rfc3339(text).unwrap();
        let theirs = chrono::DateTime::parse_from_rfc3339(text).unwrap();
        assert_eq!(ours.to_epoch_seconds(), theirs.timestamp(), "{text}");
    }
}

#[test]
fn rejects_malformed_texts() {
    for text in [
        "",
        "2024-03-10",
        "2024-03-10T15:30:45",
        "2024-03-10 15:30:45Z",
        "2024-13-10T15:30:45Z",
        "2024-02-30T15:30:45Z",
        "2023-02-29T00:00:00Z",
        "2100-02-29T00:00:00Z",
        "2024-03-10T24:00:00Z",
        "2024-03-10T15:61:45Z",
        "2024-03-10T15:30:45.Z",
        "2024-03-10T15:30:45.0123456789Z",
        "2024-03-10T15:30:45+2:00",
        "2024-03-10T15:30:45+24:00",
        "2024-03-10T15:30:45Zjunk",
        "not a timestamp",
    ] {
        assert!(parse_rfc3339(text).is_none(), "{text}");
    }
}

#[test]
fn folds_the_leap_second_onto_the_last_ordinary_second() {
    let leap = parse_rfc3339("2016-12-31T23:59:60Z").unwrap();
    assert_eq!(leap.second, 59);
    let plain = parse_rfc3339("2016-12-31T23:59:59Z").unwrap();
    assert_eq!(leap.to_epoch_seconds(), plain.to_epoch_seconds());
    // Other readers place the leap second on the same epoch second.
    let theirs = chrono::DateTime::parse_from_rfc3339("2016-12-31T23:59:60Z").unwrap();
    assert_eq!(leap.to_epoch_seconds(), theirs.timestamp());
}

#[test]
fn accepts_leap_day_and_lowercase_marks() {
    assert!(parse_rfc3339("2024-02-29T00:00:00Z").is_some());
    assert!(parse_rfc3339("2000-02-29T12:00:00z").is_some());
    assert!(parse_rfc3339("2024-02-29t23:59:59+05:45").is_some());
}

#[test]
fn round_trips_through_canonical_text() {
    for text in [
        "2024-03-10T15:30:45.5+02:00",
        "1970-01-01T00:00:00Z",
        "2024-02-29T23:59:59.000000001-09:30",
        "0000-01-01T00:00:00+00:00",
    ] {
        let ts = parse_rfc3339(text).unwrap();
        let rendered = format_rfc3339(&ts);
        let again = parse_rfc3339(rendered.as_str()).unwrap();
        assert_eq!(ts, again, "{text} via {rendered}");
        // The rendering is RFC 3339 that other readers take to the same instant.
        let theirs = chrono::DateTime::parse_from_rfc3339(rendered.as_str()).unwrap();
        assert_eq!(ts.to_epoch_seconds(), theirs.timestamp());
    }
}

#[test]
fn renders_canonical_shapes() {
    let ts = parse_rfc3339("2024-03-10T15:30:45.5+02:00").unwrap();
    assert_eq!(format_rfc3339(&ts), "2024-03-10T15:30:45.500000000+02:00");
    let ts = parse_rfc3339("1970-01-01T00:00:00Z").unwrap();
    assert_eq!(format_rfc3339(&ts), "1970-01-01T00:00:00+00:00");
    let ts = parse_rfc3339("2024-03-10T15:30:45-00:30").unwrap();
    assert_eq!(format_rfc3339(&ts), "2024-03-10T15:30:45-00:30");
}

#[test]
fn validates_ranges_by_instant_not_text() {
    // Different offsets, same instant: the range is valid both ways.
    assert!(validate_range_params(&params(
        "2024-01-01T01:00:00+01:00",
        "2024-01-01T00:00:00Z",
    )));
    assert!(validate_range_params(&params(
        "2024-01-01T00:00:00Z",
        "2024-01-01T01:00:00+01:00",
    )));
    // A nanosecond backwards is invalid.
    assert!(!validate_range_params(&params(
        "2024-01-01T00:00:00.000000001Z",
        "2024-01-01T00:00:00Z",
    )));
    assert!(validate_range_params(&params("2024-01-01T00:00:00Z", "2024-01-02T00:00:00Z")));
    assert!(!validate_range_params(&params("2024-01-02T00:00:00Z", "2024-01-01T00:00:00Z")));
    assert!(!validate_range_params(&params("bogus", "2024-01-02T00:00:00Z")));
    assert!(!validate_range_params(&params("2024-01-01T00:00:00Z", "bogus")));
}

#[test]
fn recovers_calendar_fields_from_epoch() {
    let ts = timestamp_from_epoch(0, 0).unwrap();
    assert_eq!((ts.year, ts.month, ts.day, ts.hour, ts.minute, ts.second), (1970, 1, 1, 0, 0, 0));

    // A quarter past eight in the evening of 2024-02-29, two hours east.
    let reference = parse_rfc3339("2024-02-29T20:15:00+02:00").unwrap();
    let secs = reference.to_epoch_seconds();
    let recovered = timestamp_from_epoch(secs, 120).unwrap();
    assert_eq!(recovered, reference);

    // Negative epochs reach back before 1970.
    let recovered = timestamp_from_epoch(-1, 0).unwrap();
    assert_eq!(
        (recovered.year, recovered.month, recovered.day, recovered.hour, recovered.minute,
        recovered.second),
        (1969, 12, 31, 23, 59, 59),
    );
    assert_eq!(recovered.to_epoch_seconds(), -1);
}

#[test]
fn epoch_conversion_fails_outside_the_calendar() {
    // Far beyond year 9999.
    assert!(timestamp_from_epoch(300_000_000_000_000, 0).is_none());
    // Far before year 0.
    assert!(timestamp_from_epoch(-300_000_000_000_000, 0).is_none());
}

#[test]
fn start_of_day_clears_the_clock() {
    let ts = parse_rfc3339("2024-06-15T13:45:30.25+02:00").unwrap();
    let midnight = ts.start_of_day();
    assert_eq!(format_rfc3339(&midnight), "2024-06-15T00:00:00+02:00");
}

#[test]
fn instant_order_spans_offsets() {
    let a = parse_rfc3339("2024-01-01T12:00:00+01:00").unwrap();
    let b = parse_rfc3339("2024-01-01T12:00:00Z").unwrap();
    // 12:00 at +01:00 is 11:00 UTC, an hour before 12:00 UTC.
    assert!(a.instant_le(&b));
    assert!(!b.instant_le(&a));
    assert!(a.instant_le(&a));
}
