use standing_tracker::dates::{date_of_timestamp, Date};
use standing_tracker::total_management::{StorageError, Total};

// 2024-06-15 00:00:00 UTC, a Saturday.
const NOW: i64 = 1_718_409_600;
const DAY: i64 = 86_400;

fn today() -> Date {
    Date { year: 2024, month: 6, day: 15 }
}

#[test]
fn test_creating() {
    let mut total = Total::new();
    total.set_total_today(1, &today(), 100);
    assert_eq!(total.get_total_timestamp_day(NOW, 1), Some(100));
}

#[test]
fn test_adding_yesterdays_dates() {
    let mut total = Total::new();
    let old_day = date_of_timestamp(NOW - 5 * DAY).unwrap();
    total.upsert_add(1, &old_day, 100).unwrap();
    assert_eq!(total.get_total_timestamp_day(NOW, 1), None);
    total.set_total_today(1, &today(), 200);
    assert_eq!(total.get_total_timestamp_day(NOW, 1), Some(200));
}

#[test]
fn test_total_yesterdays_dates() {
    let mut total = Total::new();
    let old_day = date_of_timestamp(NOW - 5 * DAY).unwrap();
    total.upsert_add(1, &old_day, 100).unwrap();
    assert_eq!(total.get_total_timestamp_day(NOW - 5 * DAY, 1), Some(100));
}

#[test]
fn test_total() {
    let mut total = Total::new();
    let today = today();
    total.set_total_today(1, &today, 100);
    total.set_total_today(1, &today, 200);
    total.set_total_today(2, &today, 300);
    let d1 = date_of_timestamp(NOW - DAY).unwrap();
    let d2 = date_of_timestamp(NOW - 2 * DAY).unwrap();
    total.upsert_add(2, &d1, 100).unwrap();
    total.upsert_add(2, &d2, 200).unwrap();

    let totals = total.get_total_seconds_grouped_by_chat(&today).unwrap();
    assert_eq!(totals.len(), 2);
    assert_eq!(totals[0].0, 1);
    assert_eq!(totals[0].1, Some(200));
    assert_eq!(totals[1].0, 2);
    assert_eq!(totals[1].1, Some(600));
}

#[test]
fn test_month_total() {
    let mut total = Total::new();
    let today = today();
    total.set_total_today(1, &today, 100);
    total.upsert_add(1, &Date { year: 2024, month: 5, day: 15 }, 100).unwrap();

    let month_totals = total.get_total_seconds_grouped_by_month(&today).unwrap();
    assert_eq!(month_totals.len(), 1);
    assert_eq!(month_totals[0].0, 1);
    assert_eq!(month_totals[0].1, Some(100));
}

#[test]
fn test_week_total() {
    let mut total = Total::new();
    let today = today();
    total.set_total_today(1, &today, 100);
    total.upsert_add(1, &Date { year: 2024, month: 6, day: 1 }, 100).unwrap();

    let week_totals = total.get_total_seconds_grouped_by_week(&today).unwrap();
    assert_eq!(week_totals.len(), 1);
    assert_eq!(week_totals[0].0, 1);
    assert_eq!(week_totals[0].1, Some(100));
}

#[test]
fn test_year_total() {
    let mut total = Total::new();
    let today = today();
    total.set_total_today(1, &today, 100);
    total.upsert_add(1, &Date { year: 2023, month: 6, day: 15 }, 100).unwrap();

    let year_totals = total.get_total_seconds_grouped_by_year(&today).unwrap();
    assert_eq!(year_totals.len(), 1);
    assert_eq!(year_totals[0].0, 1);
    assert_eq!(year_totals[0].1, Some(100));
}

#[test]
fn test_average_by_day() {
    let mut total = Total::new();
    let today = today();
    total.set_total_today(1, &today, 100);
    total.set_total_today(1, &today, 200);
    total.set_total_today(2, &today, 300);
    let d1 = date_of_timestamp(NOW - DAY).unwrap();
    let d2 = date_of_timestamp(NOW - 2 * DAY).unwrap();
    total.upsert_add(2, &d1, 100).unwrap();
    total.upsert_add(2, &d2, 200).unwrap();

    let averages = total.get_average_total_per_day_by_chat(&today).unwrap();
    assert_eq!(averages.len(), 2);
    assert_eq!(averages[0], (1, Some(200)));
    // Chat 2 stored 300 + 100 + 200 over three days.
    assert_eq!(averages[1], (2, Some(200)));
}

#[test]
fn test_average_windows() {
    let mut total = Total::new();
    let today = today();
    total.set_total_today(1, &today, 150);
    total.set_total_today(1, &today, 250);
    total.upsert_add(1, &Date { year: 2024, month: 5, day: 15 }, 100).unwrap();

    // Only today's row lies inside the month window.
    let month = total.get_average_total_per_month_by_chat(&today).unwrap();
    assert_eq!(month, vec![(1, Some(250))]);
    let week = total.get_average_total_per_week_by_chat(&today).unwrap();
    assert_eq!(week, vec![(1, Some(250))]);
    let year = total.get_average_total_per_year_by_chat(&today).unwrap();
    assert_eq!(year, vec![(1, Some(175))]);
}

#[test]
fn test_upsert_accumulates() {
    let mut total = Total::new();
    let today = today();
    assert_eq!(total.upsert_add(7, &today, 100), Ok(100));
    assert_eq!(total.upsert_add(7, &today, 50), Ok(150));
    assert_eq!(total.get_bucket_total(7, &today), Some(150));
}

#[test]
fn test_upsert_overflow_leaves_store_unchanged() {
    let mut total = Total::new();
    let today = today();
    total.upsert_add(1, &today, i64::MAX).unwrap();
    assert_eq!(total.upsert_add(1, &today, 1), Err(StorageError::Overflow));
    assert_eq!(total.get_bucket_total(1, &today), Some(i64::MAX));
}

#[test]
fn test_sum_aggregate_overflow() {
    let mut total = Total::new();
    let today = today();
    let d1 = date_of_timestamp(NOW - DAY).unwrap();
    total.upsert_add(1, &today, i64::MAX).unwrap();
    total.upsert_add(1, &d1, 1).unwrap();
    assert_eq!(total.get_total_seconds_grouped_by_chat(&today), Err(StorageError::Overflow));
    // The average of the same rows is representable and rounds down.
    let avg = total.get_average_total_per_day_by_chat(&today).unwrap();
    assert_eq!(avg, vec![(1, Some(i64::MAX / 2 + 1))]);
}

#[test]
fn test_aggregate_orders_by_chat() {
    let mut total = Total::new();
    let today = today();
    total.upsert_add(5, &today, 10).unwrap();
    total.upsert_add(3, &today, 20).unwrap();
    total.upsert_add(9, &today, 30).unwrap();
    total.upsert_add(-4, &today, 40).unwrap();
    let rows = total.get_total_seconds_grouped_by_chat(&today).unwrap();
    let chats: Vec<i64> = rows.iter().map(|r| r.0).collect();
    assert_eq!(chats, vec![-4, 3, 5, 9]);
}

#[test]
fn test_week_window_on_sunday() {
    // 2024-06-16 is a Sunday: the week window reaches back to 2024-06-09.
    let sunday = Date { year: 2024, month: 6, day: 16 };
    let mut total = Total::new();
    total.upsert_add(1, &Date { year: 2024, month: 6, day: 9 }, 100).unwrap();
    total.upsert_add(1, &Date { year: 2024, month: 6, day: 8 }, 900).unwrap();
    let rows = total.get_total_seconds_grouped_by_week(&sunday).unwrap();
    assert_eq!(rows, vec![(1, Some(100))]);
}

#[test]
fn test_day_sum_two_conversations_single_entries() {
    // Two conversations with one entry each give exactly two rows, each
    // equal to its single entry's value.
    let mut total = Total::new();
    let today = today();
    total.upsert_add(10, &today, 300).unwrap();
    total.upsert_add(20, &Date { year: 2024, month: 6, day: 14 }, 44).unwrap();
    let rows = total.get_total_seconds_grouped_by_chat(&today).unwrap();
    assert_eq!(rows, vec![(10, Some(300)), (20, Some(44))]);
}

#[test]
fn test_same_day_sessions_accumulate() {
    let mut total = Total::new();
    assert_eq!(total.record_close(1, NOW, NOW + 100), Ok(100));
    assert_eq!(total.record_close(1, NOW + 1000, NOW + 1050), Ok(150));
    assert_eq!(total.get_bucket_total(1, &today()), Some(150));
}

#[test]
fn test_record_close_out_of_range_records_nothing() {
    let mut total = Total::new();
    assert_eq!(total.record_close(1, standing_tracker::time::TS_MAX + 1, NOW), Ok(0));
    assert_eq!(total.get_total_timestamp_day(NOW, 1), None);
}

#[test]
fn test_get_total_previews_running_total() {
    let mut total = Total::new();
    total.set_total_today(1, &today(), 100);
    assert_eq!(total.get_total(1, NOW, NOW + 50), 150);
    assert_eq!(total.get_total(2, NOW, NOW + 50), 50);
    assert_eq!(total.get_total(1, standing_tracker::time::TS_MAX + 1, NOW), 0);
}
