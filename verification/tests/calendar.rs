use chrono::Datelike;
use standing_tracker::dates::{date_of_timestamp, weekday, week_start, window_start, Date, Window};
use standing_tracker::time::{TS_MAX, TS_MIN};

#[test]
fn test_epoch_dates() {
    assert_eq!(date_of_timestamp(0), Some(Date { year: 1970, month: 1, day: 1 }));
    assert_eq!(date_of_timestamp(86399), Some(Date { year: 1970, month: 1, day: 1 }));
    assert_eq!(date_of_timestamp(86400), Some(Date { year: 1970, month: 1, day: 2 }));
    assert_eq!(date_of_timestamp(-1), Some(Date { year: 1969, month: 12, day: 31 }));
    assert_eq!(date_of_timestamp(1718409600), Some(Date { year: 2024, month: 6, day: 15 }));
}

#[test]
fn test_range_bounds_match_backend() {
    assert!(date_of_timestamp(TS_MAX).is_some());
    assert!(date_of_timestamp(TS_MIN).is_some());
    assert_eq!(date_of_timestamp(TS_MAX + 1), None);
    assert_eq!(date_of_timestamp(TS_MIN - 1), None);
    assert!(chrono::DateTime::from_timestamp(TS_MAX, 0).is_some());
    assert!(chrono::DateTime::from_timestamp(TS_MIN, 0).is_some());
    assert!(chrono::DateTime::from_timestamp(TS_MAX + 1, 0).is_none());
    assert!(chrono::DateTime::from_timestamp(TS_MIN - 1, 0).is_none());
}

#[test]
fn test_dates_match_backend() {
    for ts in [0i64, -1, 86400, 951868800, 1718409600, 4102444800, -62135596800] {
        let ours = date_of_timestamp(ts).unwrap();
        let theirs = chrono::DateTime::from_timestamp(ts, 0).unwrap().date_naive();
        assert_eq!(ours.year, theirs.year());
        assert_eq!(ours.month as u32, theirs.month());
        assert_eq!(ours.day as u32, theirs.day());
    }
}

#[test]
fn test_weekday_matches_backend() {
    let samples = [
        (1970, 1, 1),
        (2000, 3, 1),
        (2023, 12, 31),
        (2024, 2, 29),
        (2024, 6, 15),
        (1999, 7, 4),
    ];
    for (y, m, d) in samples {
        let ours = weekday(&Date { year: y, month: m as u8, day: d as u8 });
        let theirs = chrono::NaiveDate::from_ymd_opt(y, m, d)
            .unwrap()
            .weekday()
            .num_days_from_sunday();
        assert_eq!(ours as u32, theirs);
    }
}

#[test]
fn test_week_start() {
    // 2024-06-15 is a Saturday: the week began the previous Sunday.
    let sat = Date { year: 2024, month: 6, day: 15 };
    assert_eq!(week_start(&sat), Date { year: 2024, month: 6, day: 9 });
    // On a Sunday the window reaches back a full week.
    let sun = Date { year: 2024, month: 6, day: 16 };
    assert_eq!(week_start(&sun), Date { year: 2024, month: 6, day: 9 });
    // A week start can cross a month boundary.
    let mon = Date { year: 2024, month: 7, day: 1 };
    assert_eq!(week_start(&mon), Date { year: 2024, month: 6, day: 30 });
}

#[test]
fn test_window_starts() {
    let today = Date { year: 2024, month: 6, day: 15 };
    assert_eq!(window_start(&today, Window::Day), None);
    assert_eq!(window_start(&today, Window::Month), Some(Date { year: 2024, month: 6, day: 1 }));
    assert_eq!(window_start(&today, Window::Year), Some(Date { year: 2024, month: 1, day: 1 }));
    assert_eq!(window_start(&today, Window::Week), Some(Date { year: 2024, month: 6, day: 9 }));
}
