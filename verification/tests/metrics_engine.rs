use weather_backend::metrics::{
    enrich_hourly, feels_like_temperature, process_past_rows, sort_hour_records,
    sort_month_records, today_summary, HourRecordFlux, MonthRecordFlux,
};
use weather_backend::ApiError;

fn row(time: i64, tempc: i64, totalrain: i64) -> HourRecordFlux {
    HourRecordFlux { time, tempc, totalrainmm: totalrain, ..Default::default() }
}

#[test]
fn rainfall_deltas_arrest_counter_drops() {
    // Cumulative series 5, 5, 3, 10 (mm): the drop from 5 to 3 becomes a
    // zero delta, not -2, and the rise from 3 to 10 a delta of 7.
    let rows = vec![
        row(0, 0, 5_000),
        row(1, 0, 5_000),
        row(2, 0, 3_000),
        row(3, 0, 10_000),
    ];
    let out = enrich_hourly(&rows).unwrap();
    assert_eq!(out.len(), 3);
    let deltas: Vec<i64> = out.iter().map(|r| r.totalrainmm).collect();
    assert_eq!(deltas, vec![0, 0, 7_000]);
}

#[test]
fn rainfall_deltas_clamp_negative_readings() {
    let rows = vec![row(0, 0, -2_000), row(1, 0, 5_000)];
    let out = enrich_hourly(&rows).unwrap();
    // -2 clamps to 0 before differencing, so the delta is the full 5.
    assert_eq!(out[0].totalrainmm, 5_000);
}

#[test]
fn enrichment_drops_the_baseline_row_and_fills_derived_fields() {
    let mut first = row(0, 21_000, 0);
    first.humidity = 45_000;
    let mut second = row(1, 20_000, 1_000);
    second.humidity = 50_000;
    second.windspeedkph = 10_000;
    second.tempinc = 20_000;
    second.humidityin = 50_000;
    let out = enrich_hourly(&vec![first, second]).unwrap();
    assert_eq!(out.len(), 1);
    assert_eq!(out[0].time, 1);
    assert_eq!(out[0].tempc, 20_000);
    assert_eq!(out[0].feelslike, feels_like_temperature(20_000, 50_000, 10_000));
    // Indoor apparent temperature always uses zero wind.
    assert_eq!(out[0].feelslikein, feels_like_temperature(20_000, 50_000, 0));
}

#[test]
fn enrichment_of_nothing_is_an_empty_result_error() {
    assert!(matches!(enrich_hourly(&vec![]), Err(ApiError::EmptyResult)));
    assert!(matches!(process_past_rows(vec![]), Err(ApiError::EmptyResult)));
    assert!(matches!(
        today_summary(vec![], String::new(), String::new()),
        Err(ApiError::EmptyResult)
    ));
}

#[test]
fn apparent_temperature_fixed_point_values() {
    // 20 °C, 50 % humidity, 10 kph wind.
    assert_eq!(feels_like_temperature(20_000, 50_000, 10_000), 17_897);
    // The same air with no wind feels warmer.
    assert_eq!(feels_like_temperature(20_000, 50_000, 0), 19_840);
    // Hot and humid feels far above the dry-bulb reading.
    assert_eq!(feels_like_temperature(30_000, 80_000, 5_000), 36_172);
    // Cold and windy feels far below it.
    assert_eq!(feels_like_temperature(-5_000, 60_000, 20_000), -12_058);
    // Dry, still, freezing air: only the constant term remains.
    assert_eq!(feels_like_temperature(0, 0, 0), -4_000);
}

#[test]
fn apparent_temperature_dry_still_is_temperature_minus_four() {
    // With no humidity and no wind only the constant term remains, on the
    // whole admitted span.
    for t in [-100_000, -50_000, -1, 0, 25_000, 100_000] {
        assert_eq!(feels_like_temperature(t, 0, 0), t - 4_000);
    }
}

#[test]
fn apparent_temperature_moves_with_wind_and_humidity() {
    // More wind cools; more humidity warms.
    assert!(
        feels_like_temperature(20_000, 50_000, 20_000)
            < feels_like_temperature(20_000, 50_000, 10_000)
    );
    assert!(
        feels_like_temperature(20_000, 80_000, 10_000)
            > feels_like_temperature(20_000, 50_000, 10_000)
    );
    assert!(
        feels_like_temperature(-5_000, 60_000, 30_000)
            < feels_like_temperature(-5_000, 60_000, 0)
    );
}

#[test]
fn sorting_orders_rows_by_time_only() {
    let rows = vec![row(5, 1, 0), row(1, 2, 0), row(3, 3, 0), row(1, 4, 0)];
    let sorted = sort_hour_records(rows);
    let times: Vec<i64> = sorted.iter().map(|r| r.time).collect();
    assert_eq!(times, vec![1, 1, 3, 5]);
    let temps: Vec<i64> = sorted.iter().map(|r| r.tempc).collect();
    let mut expected_temps = temps.clone();
    expected_temps.sort();
    // Both rows at time 1 survive, whatever their order.
    assert!(temps.contains(&2) && temps.contains(&4));
    assert_eq!(expected_temps, vec![1, 2, 3, 4]);
}

#[test]
fn past_pipeline_sorts_before_differencing() {
    // Delivered out of order: by time the counter reads 1, 2, 4 mm.
    let rows = vec![row(2, 0, 2_000), row(1, 0, 1_000), row(3, 0, 4_000)];
    let out = process_past_rows(rows).unwrap();
    let deltas: Vec<i64> = out.iter().map(|r| r.totalrainmm).collect();
    assert_eq!(deltas, vec![1_000, 2_000]);
}

fn temp_row(time: i64, tempc: i64, tempinc: i64, uv: i64) -> HourRecordFlux {
    HourRecordFlux { time, tempc, tempinc, uv, ..Default::default() }
}

#[test]
fn today_extrema_ignore_arrival_order() {
    // Outdoor temps 10, 22, 5, 18: min 5 and max 22 in any order.
    let a = vec![
        temp_row(0, 10_000, 1_000, 1_000),
        temp_row(1, 22_000, 2_000, 4_000),
        temp_row(2, 5_000, 3_000, 2_000),
        temp_row(3, 18_000, 4_000, 3_000),
    ];
    let mut b = a.clone();
    b.reverse();
    let sa = today_summary(a, "r".to_string(), "s".to_string()).unwrap();
    let sb = today_summary(b, "r".to_string(), "s".to_string()).unwrap();
    assert_eq!(sa.mintemp, 5_000);
    assert_eq!(sa.maxtemp, 22_000);
    assert_eq!((sb.mintemp, sb.maxtemp), (sa.mintemp, sa.maxtemp));
    assert_eq!((sa.mintempin, sa.maxtempin), (1_000, 4_000));
    assert_eq!(sa.maxuv, 4_000);
    assert_eq!(sb.maxuv, 4_000);
}

#[test]
fn today_summary_reads_the_latest_sample_and_total_rain() {
    let mut early = row(100, 10_000, 2_000);
    early.uv = 5_000;
    let mut late = row(200, 15_000, 6_500);
    late.humidity = 40_000;
    late.windspeedkph = 8_000;
    // Delivered newest first: the summary must still pick time 200 as current.
    let summary = today_summary(
        vec![late, early],
        "2024-06-15T04:55:00+02:00".to_string(),
        "2024-06-15T21:30:00+02:00".to_string(),
    )
    .unwrap();
    assert_eq!(summary.time, 200);
    assert_eq!(summary.tempc, 15_000);
    // Total rain is last counter minus first, by time.
    assert_eq!(summary.totalrainmm, 4_500);
    assert_eq!(summary.sunrise, "2024-06-15T04:55:00+02:00");
    assert_eq!(summary.sunset, "2024-06-15T21:30:00+02:00");
    assert_eq!(summary.feelslike, feels_like_temperature(15_000, 40_000, 8_000));
    assert_eq!(summary.maxuv, 5_000);
}

#[test]
fn monthly_rows_are_resorted_by_time() {
    let mk = |time: i64, tempc: i64| MonthRecordFlux {
        time,
        tempc,
        humidity: 0,
        humidity_absolute_max: 0,
        humidity_absolute_min: 0,
        humidity_mean_max: 0,
        humidity_mean_min: 0,
        humidityin: 0,
        humidityin_absolute_max: 0,
        humidityin_absolute_min: 0,
        humidityin_mean_max: 0,
        humidityin_mean_min: 0,
        solarradiation: 0,
        solarradiation_absolute_max: 0,
        solarradiation_absolute_min: 0,
        solarradiation_mean_max: 0,
        solarradiation_mean_min: 0,
        tempc_absolute_max: 0,
        tempc_absolute_min: 0,
        tempc_mean_max: 0,
        tempc_mean_min: 0,
        tempinc: 0,
        tempinc_absolute_max: 0,
        tempinc_absolute_min: 0,
        tempinc_mean_max: 0,
        tempinc_mean_min: 0,
        totalrainmm: 0,
        raindayscount: 0,
        uv_absolute: 0,
        uv_mean: 0,
    };
    let rows = vec![mk(3, 30), mk(1, 10), mk(2, 20)];
    let sorted = sort_month_records(rows);
    let order: Vec<(i64, i64)> = sorted.iter().map(|r| (r.time, r.tempc)).collect();
    assert_eq!(order, vec![(1, 10), (2, 20), (3, 30)]);
}

#[test]
fn error_messages_match_the_api_surface() {
    assert_eq!(ApiError::InvalidRange.message(), "Invalid range");
    assert_eq!(ApiError::EmptyResult.message(), "Empty result");
    assert_eq!(
        ApiError::QueryFailed("connection refused".to_string()).message(),
        "Influx query failed: connection refused",
    );
}

#[test]
fn default_rows_start_at_their_sentinels() {
    let raw = HourRecordFlux::default();
    assert_eq!(raw.time, 0);
    assert_eq!(raw.tempc, 0);
    assert_eq!(raw.solarradiation, i64::MIN);

    let enriched = weather_backend::metrics::HourRecordWithDerivedTypes::from(raw);
    assert_eq!(enriched.feelslike, i64::MIN);
    assert_eq!(enriched.feelslikein, i64::MIN);
    assert_eq!(enriched.tempc, raw.tempc);

    let today = weather_backend::metrics::TodayDataWithDerivedTypes::default();
    assert_eq!(today.mintemp, i64::MAX);
    assert_eq!(today.maxtemp, i64::MIN);
    assert_eq!(today.mintempin, i64::MAX);
    assert_eq!(today.maxtempin, i64::MIN);
    assert_eq!(today.maxuv, i64::MIN);
    assert_eq!(today.sunrise, "");
    assert_eq!(today.sunset, "");

    let month = MonthRecordFlux::default();
    assert_eq!(month.time, 0);
    assert_eq!(month.raindayscount, 0);
}
