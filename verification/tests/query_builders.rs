use weather_backend::flux::{build_monthly_flux, build_range_flux, plan_monthly_query, plan_past_query, plan_today_query};
use weather_backend::time::Timestamp;
use weather_backend::{ApiError, RangeParams};

const BUCKET: &str = "weatherdata";
const START: &str = "2024-01-01T00:00:00Z";
const END: &str = "2024-02-01T00:00:00Z";

#[test]
fn hourly_query_exact_text() {
    let bucket = BUCKET;
    let start = START;
    let end = END;
    let expected = format!(
        r#"from(bucket: "{bucket}")
|> range(start: time(v: "{start}"), stop: time(v: "{end}"))
|> filter(fn: (r) => r._measurement == "weather")
|> filter(fn: (r) =>
r._field == "tempc" or r._field == "tempinc" or r._field == "humidity" or r._field == "humidityin" or
r._field == "windspeedkph" or r._field == "windgustkph" or r._field == "winddir" or r._field == "rainratemm" or
r._field == "totalrainmm" or r._field == "uv" or r._field == "solarradiation")
|> aggregateWindow(every: 1h, fn: mean, createEmpty: false)
|> pivot(rowKey:["_time"], columnKey:["_field"], valueColumn:"_value")
|> sort(columns:["_time"])
|> rename(columns: {{_measurement: "_field", submitted_by: "_value"}})
"#
    );
    assert_eq!(build_range_flux(bucket, start, end), expected);
}

#[test]
fn monthly_query_exact_text() {
    let bucket = BUCKET;
    let start = START;
    let end = END;
    let expected = format!(
        r#"maximums = from(bucket: "{bucket}")
|> range(start: time(v: "{start}"), stop: time(v: "{end}"))
|> filter(fn: (r) => r._measurement == "weather")
|> filter(fn: (r) =>
r._field == "tempc" or r._field == "tempinc" or r._field == "humidity" or r._field == "humidityin" or
r._field == "uv" or r._field == "solarradiation")
|> aggregateWindow(every: 1mo, fn: max, createEmpty: false, timeSrc: "_start")
|> pivot(rowKey:["_time"], columnKey:["_field"], valueColumn:"_value")
|> sort(columns:["_time"])
|> drop(columns: ["_model", "_field", "_start", "_stop", "_value", "_measurement", "submitted_by"])

mean_maximums = from(bucket: "{bucket}")
|> range(start: time(v: "{start}"), stop: time(v: "{end}"))
|> filter(fn: (r) => r._measurement == "weather")
|> filter(fn: (r) =>
r._field == "tempc" or r._field == "tempinc" or r._field == "humidity" or r._field == "humidityin" or
r._field == "uv" or r._field == "solarradiation")
|> aggregateWindow(every: 1d, fn: max, createEmpty: false, timeSrc: "_start")
|> aggregateWindow(every: 1mo, fn: mean, createEmpty: false, timeSrc: "_start")
|> pivot(rowKey:["_time"], columnKey:["_field"], valueColumn:"_value")
|> sort(columns:["_time"])
|> drop(columns: ["_model", "_field", "_start", "_stop", "_value", "_measurement", "submitted_by"])

averages = from(bucket: "{bucket}")
|> range(start: time(v: "{start}"), stop: time(v: "{end}"))
|> filter(fn: (r) => r._measurement == "weather")
|> filter(fn: (r) =>
r._field == "tempc" or r._field == "tempinc" or r._field == "humidity" or r._field == "humidityin" or
r._field == "solarradiation")
|> aggregateWindow(every: 1mo, fn: mean, createEmpty: false, timeSrc: "_start")
|> pivot(rowKey:["_time"], columnKey:["_field"], valueColumn:"_value")
|> sort(columns:["_time"])
|> drop(columns: ["_model", "_field", "_start", "_stop", "_value", "_measurement", "submitted_by"])

mean_minimums = from(bucket: "{bucket}")
|> range(start: time(v: "{start}"), stop: time(v: "{end}"))
|> filter(fn: (r) => r._measurement == "weather")
|> filter(fn: (r) =>
r._field == "tempc" or r._field == "tempinc" or r._field == "humidity" or r._field == "humidityin" or
r._field == "solarradiation")
|> aggregateWindow(every: 1d, fn: min, createEmpty: false, timeSrc: "_start")
|> aggregateWindow(every: 1mo, fn: mean, createEmpty: false, timeSrc: "_start")
|> pivot(rowKey:["_time"], columnKey:["_field"], valueColumn:"_value")
|> sort(columns:["_time"])
|> drop(columns: ["_model", "_field", "_start", "_stop", "_value", "_measurement", "submitted_by"])

minimums = from(bucket: "{bucket}")
|> range(start: time(v: "{start}"), stop: time(v: "{end}"))
|> filter(fn: (r) => r._measurement == "weather")
|> filter(fn: (r) =>
r._field == "tempc" or r._field == "tempinc" or r._field == "humidity" or r._field == "humidityin" or
r._field == "solarradiation")
|> aggregateWindow(every: 1mo, fn: min, createEmpty: false, timeSrc: "_start")
|> pivot(rowKey:["_time"], columnKey:["_field"], valueColumn:"_value")
|> sort(columns:["_time"])
|> drop(columns: ["_model", "_field", "_start", "_stop", "_value", "submitted_by"])

rainy_days = from(bucket: "{bucket}")
|> range(start: time(v: "{start}"), stop: time(v: "{end}"))
|> filter(fn: (r) => r._measurement == "weather")
|> filter(fn: (r) => r._field == "totalrainmm")
|> aggregateWindow(every: 1d, fn: last, timeSrc: "_start")
|> map(fn: (r) => ({{ r with _value: if exists r._value then r._value else 0.0 }}))
|> difference(nonNegative: true, initialZero: true)

total_rain = rainy_days
|> aggregateWindow(every: 1mo, fn: sum, createEmpty: false, timeSrc: "_start")
|> rename(columns: {{ _value: "totalrainmm" }})
|> drop(columns: ["_model", "_field", "_start", "_stop", "_value", "_measurement", "submitted_by", "model"])

rainy_days_count = rainy_days
|> map(fn: (r) => ({{ r with _value: if r._value > 0 then 1 else 0 }}))
|> aggregateWindow(every: 1mo, fn: sum, createEmpty: false, timeSrc: "_start")
|> rename(columns: {{ _value: "raindayscount" }})
|> drop(columns: ["model", "_field", "_start", "_stop", "_value", "_measurement", "submitted_by"])

rain = join(
    tables: {{left: total_rain, right: rainy_days_count}},
    on: ["_time"],
    method: "inner"
)

max_mmax = join(
  tables: {{absolute: maximums, mean: mean_maximums}},
  on: ["_time"],
  method: "inner"
)

min_mmin = join(
  tables: {{absolute: minimums, mean: mean_minimums}},
  on: ["_time"],
  method: "inner"
)

min_max = join(
  tables: {{min: min_mmin, max: max_mmax}},
  on: ["_time"],
  method: "inner"
)

max_and_avgs = join(
  tables: {{abs: min_max, avg: averages}},
  on: ["_time"],
  method: "inner"
)

all_stats = join(
    tables: {{left: max_and_avgs, right: rain}},
    on: ["_time"],
    method: "inner"
)

all_stats
  |> sort(columns: ["_time"])
  |> rename(columns: {{_measurement: "_field", model: "_value"}})
    "#
    );
    assert_eq!(build_monthly_flux(bucket, start, end), expected);
}

#[test]
fn hourly_query_is_stable_and_verbatim() {
    let a = build_range_flux(BUCKET, START, END);
    let b = build_range_flux(BUCKET, START, END);
    assert_eq!(a, b);
    assert!(a.contains(BUCKET));
    assert!(a.contains(START));
    assert!(a.contains(END));
}

#[test]
fn monthly_query_requests_only_inner_joins() {
    let q = build_monthly_flux(BUCKET, START, END);
    assert_eq!(q.matches("method: \"inner\"").count(), 6);
    assert_eq!(q.matches("join(").count(), 6);
    assert!(!q.contains("outer"));
}

#[test]
fn query_values_are_escaped() {
    let q = build_range_flux("a\"b\\c", START, END);
    assert!(q.starts_with("from(bucket: \"a\\\"b\\\\c\")"));
}

#[test]
fn plan_past_query_accepts_valid_range() {
    let params = RangeParams { start: START.to_string(), end: END.to_string() };
    let q = plan_past_query(BUCKET, &params).unwrap();
    assert!(q.contains(START) && q.contains(END) && q.contains(BUCKET));
}

#[test]
fn plan_rejects_reversed_range_before_any_query_exists() {
    // With end before start there is no query text at all, so nothing can
    // ever reach a store: validation precedes interaction.
    let params = RangeParams { start: END.to_string(), end: START.to_string() };
    assert!(matches!(plan_past_query(BUCKET, &params), Err(ApiError::InvalidRange)));
    assert!(matches!(plan_monthly_query(BUCKET, &params), Err(ApiError::InvalidRange)));
}

#[test]
fn plan_rejects_unparsable_endpoints() {
    let params = RangeParams { start: "yesterday".to_string(), end: END.to_string() };
    assert!(matches!(plan_past_query(BUCKET, &params), Err(ApiError::InvalidRange)));
    let params = RangeParams { start: START.to_string(), end: "".to_string() };
    assert!(matches!(plan_monthly_query(BUCKET, &params), Err(ApiError::InvalidRange)));
}

#[test]
fn plan_accepts_equal_endpoints() {
    let params = RangeParams { start: START.to_string(), end: START.to_string() };
    assert!(plan_past_query(BUCKET, &params).is_ok());
}

#[test]
fn today_query_runs_from_local_midnight() {
    let now = Timestamp {
        year: 2024,
        month: 6,
        day: 15,
        hour: 13,
        minute: 45,
        second: 30,
        nanos: 0,
        offset_minutes: 120,
    };
    let q = plan_today_query(BUCKET, &now);
    assert!(q.contains("2024-06-15T00:00:00+02:00"));
    assert!(q.contains("2024-06-15T13:45:30+02:00"));
}
