use standing_tracker::time::{
    dec_string_i64, elapsed_seconds, get_seconds_difference, get_time_difference,
    total_seconds_to_hms, TimeError, TS_MAX, TS_MIN,
};

#[test]
fn test_elapsed_seconds_exact() {
    assert_eq!(elapsed_seconds(1000, 1190), Ok(190));
    assert_eq!(elapsed_seconds(1190, 1000), Ok(-190));
    assert_eq!(elapsed_seconds(TS_MAX, TS_MAX), Ok(0));
    assert_eq!(elapsed_seconds(TS_MIN, TS_MIN), Ok(0));
}

#[test]
fn test_elapsed_seconds_invalid_timestamp() {
    assert_eq!(elapsed_seconds(TS_MAX + 1, 0), Err(TimeError::InvalidTimestamp));
    assert_eq!(elapsed_seconds(0, TS_MIN - 1), Err(TimeError::InvalidTimestamp));
    assert_eq!(elapsed_seconds(i64::MAX, i64::MIN), Err(TimeError::InvalidTimestamp));
}

#[test]
fn test_seconds_difference_zero_when_unparseable() {
    assert_eq!(get_seconds_difference(1000, 1190), 190);
    assert_eq!(get_seconds_difference(TS_MAX + 1, 1190), 0);
    assert_eq!(get_seconds_difference(1000, TS_MAX + 1), 0);
}

#[test]
fn test_time_difference_format() {
    assert_eq!(get_time_difference(1000, 1190), "3 минут 10 секунд");
    assert_eq!(get_time_difference(0, 0), "0 минут 0 секунд");
    assert_eq!(get_time_difference(0, 3599), "59 минут 59 секунд");
    assert_eq!(get_time_difference(TS_MAX + 1, 0), "");
}

#[test]
fn test_time_difference_negative_elapsed_keeps_seconds_in_range() {
    // -190 seconds: -4 whole minutes plus 50 seconds.
    assert_eq!(get_time_difference(1190, 1000), "-4 минут 50 секунд");
}

#[test]
fn test_hms_format() {
    assert_eq!(total_seconds_to_hms(100), "0 часов 1 минут 40 секунд");
    assert_eq!(total_seconds_to_hms(3700), "1 часов 1 минут 40 секунд");
    assert_eq!(total_seconds_to_hms(0), "0 часов 0 минут 0 секунд");
    assert_eq!(total_seconds_to_hms(600), "0 часов 10 минут 0 секунд");
}

#[test]
fn test_dec_string() {
    assert_eq!(dec_string_i64(0), "0");
    assert_eq!(dec_string_i64(1234567890), "1234567890");
    assert_eq!(dec_string_i64(-42), "-42");
    assert_eq!(dec_string_i64(i64::MIN), "-9223372036854775808");
}

#[test]
fn test_format_elapsed_parses_back() {
    let text = get_time_difference(1000, 1190);
    let parts: Vec<&str> = text.split(' ').collect();
    assert_eq!(parts.len(), 4);
    let minutes: i64 = parts[0].parse().unwrap();
    let seconds: i64 = parts[2].parse().unwrap();
    assert_eq!(minutes, 190 / 60);
    assert_eq!(seconds, 190 % 60);
}
