use weather_backend::solar::today_solar_strings;
use weather_backend::time::parse_rfc3339;

#[test]
fn solar_strings_render_real_instants_in_the_local_clock() {
    // Berlin, midsummer, clock two hours ahead of UTC.
    let coords = sunrise::Coordinates::new(52.52, 13.405).unwrap();
    let (rise, set) = today_solar_strings(&coords, 2024, 6, 21, 120).unwrap();

    let rise_ts = parse_rfc3339(rise.as_str()).unwrap();
    let set_ts = parse_rfc3339(set.as_str()).unwrap();
    assert_eq!(rise_ts.offset_minutes, 120);
    assert_eq!(set_ts.offset_minutes, 120);

    // The rendered instants are the crate's own solar instants.
    let date = chrono::NaiveDate::from_ymd_opt(2024, 6, 21).unwrap();
    let day = sunrise::SolarDay::new(coords, date);
    let expected_rise = day.event_time(sunrise::SolarEvent::Sunrise).unwrap().timestamp();
    let expected_set = day.event_time(sunrise::SolarEvent::Sunset).unwrap().timestamp();
    assert_eq!(rise_ts.to_epoch_seconds(), expected_rise);
    assert_eq!(set_ts.to_epoch_seconds(), expected_set);

    // Midsummer in Berlin: the sun rises before it sets, early and late.
    assert!(expected_rise < expected_set);
    assert!(rise.starts_with("2024-06-21T"));
    assert!(set.starts_with("2024-06-21T"));
}

#[test]
fn polar_night_has_no_sunrise() {
    // Longyearbyen in late December: the sun never rises.
    let coords = sunrise::Coordinates::new(78.22, 15.65).unwrap();
    assert!(today_solar_strings(&coords, 2024, 12, 21, 60).is_none());
}
