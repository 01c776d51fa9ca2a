//! Calendar dates for bucketing session time.
//!
//! A `Date` is a proleptic-Gregorian calendar day. Timestamps are converted
//! to dates by the calendar backend behind one trusted wrapper; everything
//! else here — validity, ordering, month lengths, weekday, and the window
//! start computations used by the aggregate queries — is verified calendar
//! arithmetic.
use crate::time::timestamp_in_range;
use chrono::Datelike;
use vstd::prelude::*;

verus! {

/// Smallest representable year.
pub const YEAR_MIN: i32 = -262_143;

/// Largest representable year.
pub const YEAR_MAX: i32 = 262_142;

/// A calendar day: year, month (1..=12) and day of month.
#[derive(Clone, Copy, Debug, PartialEq, Eq, Structural)]
pub struct Date {
    pub year: i32,
    pub month: u8,
    pub day: u8,
}

/// A Gregorian leap year.
pub open spec fn spec_is_leap_year(y: int) -> bool {
    (y % 4 == 0 && y % 100 != 0) || y % 400 == 0
}

/// Number of days in a month.
pub open spec fn spec_days_in_month(y: int, m: int) -> int {
    if m == 2 {
        if spec_is_leap_year(y) {
            29
        } else {
            28
        }
    } else if m == 4 || m == 6 || m == 9 || m == 11 {
        30
    } else {
        31
    }
}

impl Date {
    /// A well-formed calendar day.
    pub open spec fn wf(self) -> bool {
        &&& YEAR_MIN <= self.year <= YEAR_MAX
        &&& 1 <= self.month <= 12
        &&& 1 <= self.day as int <= spec_days_in_month(self.year as int, self.month as int)
    }
}

/// Lexicographic order on (year, month, day): `a` is on or before `b`.
pub open spec fn spec_date_le(a: Date, b: Date) -> bool {
    if a.year != b.year {
        a.year < b.year
    } else if a.month != b.month {
        a.month < b.month
    } else {
        a.day <= b.day
    }
}

/// Whether `a` is on or before `b` in the calendar.
pub fn date_le(a: &Date, b: &Date) -> (r: bool)
    ensures
        r == spec_date_le(*a, *b),
{
    if a.year != b.year {
        a.year < b.year
    } else if a.month != b.month {
        a.month < b.month
    } else {
        a.day <= b.day
    }
}

fn is_leap_year(y: i32) -> (r: bool)
    ensures
        r == spec_is_leap_year(y as int),
{
    let m4 = y.checked_rem_euclid(4).unwrap();
    let m100 = y.checked_rem_euclid(100).unwrap();
    let m400 = y.checked_rem_euclid(400).unwrap();
    (m4 == 0 && m100 != 0) || m400 == 0
}

fn days_in_month(y: i32, m: u8) -> (r: u8)
    ensures
        r as int == spec_days_in_month(y as int, m as int),
{
    if m == 2 {
        if is_leap_year(y) {
            29
        } else {
            28
        }
    } else if m == 4 || m == 6 || m == 9 || m == 11 {
        30
    } else {
        31
    }
}

/// The calendar day right before `d`.
pub open spec fn spec_prev_day(d: Date) -> Date {
    if d.day > 1 {
        Date { year: d.year, month: d.month, day: (d.day - 1) as u8 }
    } else if d.month > 1 {
        Date {
            year: d.year,
            month: (d.month - 1) as u8,
            day: spec_days_in_month(d.year as int, d.month as int - 1) as u8,
        }
    } else {
        Date { year: (d.year - 1) as i32, month: 12, day: 31 }
    }
}

/// The calendar day right before `d`; `d` must not be the first
/// representable day.
pub fn prev_day(d: &Date) -> (r: Date)
    requires
        d.wf(),
        !(d.year == YEAR_MIN && d.month == 1 && d.day == 1),
    ensures
        r == spec_prev_day(*d),
        r.wf(),
{
    if d.day > 1 {
        Date { year: d.year, month: d.month, day: d.day - 1 }
    } else if d.month > 1 {
        let pm = d.month - 1;
        Date { year: d.year, month: pm, day: days_in_month(d.year, pm) }
    } else {
        Date { year: d.year - 1, month: 12, day: 31 }
    }
}

/// Offset table entering the weekday formula, one value per month.
pub open spec fn spec_month_offset(m: int) -> int {
    if m == 1 {
        0
    } else if m == 2 {
        3
    } else if m == 3 {
        2
    } else if m == 4 {
        5
    } else if m == 5 {
        0
    } else if m == 6 {
        3
    } else if m == 7 {
        5
    } else if m == 8 {
        1
    } else if m == 9 {
        4
    } else if m == 10 {
        6
    } else if m == 11 {
        2
    } else {
        4
    }
}

/// Day of the week of a date, 0 for Sunday through 6 for Saturday, by the
/// closed-form Gregorian weekday formula.
pub open spec fn spec_weekday(d: Date) -> int {
    let y: int = if d.month < 3 {
        d.year as int - 1
    } else {
        d.year as int
    };
    (y + y / 4 - y / 100 + y / 400 + spec_month_offset(d.month as int) + d.day as int) % 7
}

/// Day of the week, 0 for Sunday through 6 for Saturday.
pub fn weekday(d: &Date) -> (r: u8)
    requires
        d.wf(),
    ensures
        r as int == spec_weekday(*d),
        r < 7,
{
    let y: i64 = if d.month < 3 {
        d.year as i64 - 1
    } else {
        d.year as i64
    };
    let q4 = y.checked_div_euclid(4).unwrap();
    let q100 = y.checked_div_euclid(100).unwrap();
    let q400 = y.checked_div_euclid(400).unwrap();
    let offset: i64 = match d.month {
        1 => 0,
        2 => 3,
        3 => 2,
        4 => 5,
        5 => 0,
        6 => 3,
        7 => 5,
        8 => 1,
        9 => 4,
        10 => 6,
        11 => 2,
        _ => 4,
    };
    let sum = y + q4 - q100 + q400 + offset + d.day as i64;
    let r = sum.checked_rem_euclid(7).unwrap();
    r as u8
}

/// `d` taken back `k` calendar days.
pub open spec fn spec_back_days(d: Date, k: int) -> Date
    decreases k,
{
    if k <= 0 {
        d
    } else {
        spec_back_days(spec_prev_day(d), k - 1)
    }
}

/// Start of the week that `today` lies in: the week closes on Sunday, so
/// this is `today` taken back a full week when `today` is a Sunday and back
/// to the previous Sunday otherwise.
pub open spec fn spec_week_start(today: Date) -> Date {
    spec_back_days(today, if spec_weekday(today) == 0 {
        7int
    } else {
        spec_weekday(today)
    })
}

/// Start of the week that `today` lies in.
pub fn week_start(today: &Date) -> (r: Date)
    requires
        today.wf(),
        today.year > YEAR_MIN,
    ensures
        r == spec_week_start(*today),
        r.wf(),
{
    let wd = weekday(today);
    let k: u8 = if wd == 0 {
        7
    } else {
        wd
    };
    let mut cur: Date = *today;
    let mut i: u8 = 0;
    while i < k
        invariant
            i <= k <= 7,
            cur.wf(),
            spec_back_days(*today, k as int) == spec_back_days(cur, k as int - i as int),
            cur.year == YEAR_MIN ==> cur.month == 12 && cur.day as int >= 31 - i as int,
            today.year > YEAR_MIN,
        decreases k as int - i as int,
    {
        cur = prev_day(&cur);
        i = i + 1;
    }
    cur
}

/// Aggregation window: all stored days, or the days since the start of the
/// current week, month or year.
#[derive(Clone, Copy, Debug, PartialEq, Eq, Structural)]
pub enum Window {
    Day,
    Week,
    Month,
    Year,
}

/// First day of the month that `today` lies in.
pub open spec fn spec_month_start(today: Date) -> Date {
    Date { year: today.year, month: today.month, day: 1 }
}

/// First day of the year that `today` lies in.
pub open spec fn spec_year_start(today: Date) -> Date {
    Date { year: today.year, month: 1, day: 1 }
}

/// The first day a window covers, `None` for the unbounded window.
pub open spec fn spec_window_start(today: Date, w: Window) -> Option<Date> {
    match w {
        Window::Day => None,
        Window::Week => Some(spec_week_start(today)),
        Window::Month => Some(spec_month_start(today)),
        Window::Year => Some(spec_year_start(today)),
    }
}

/// Whether day `d` falls inside the window beginning at `ws`.
pub open spec fn spec_in_window(d: Date, ws: Option<Date>) -> bool {
    match ws {
        None => true,
        Some(s) => spec_date_le(s, d),
    }
}

/// The first day the window covers, `None` for the unbounded window.
pub fn window_start(today: &Date, w: Window) -> (r: Option<Date>)
    requires
        today.wf(),
        today.year > YEAR_MIN,
    ensures
        r == spec_window_start(*today, w),
        r matches Some(s) ==> s.wf(),
{
    match w {
        Window::Day => None,
        Window::Week => Some(week_start(today)),
        Window::Month => Some(Date { year: today.year, month: today.month, day: 1 }),
        Window::Year => Some(Date { year: today.year, month: 1, day: 1 }),
    }
}

/// Whether day `d` falls inside the window beginning at `ws`.
pub fn in_window(d: &Date, ws: &Option<Date>) -> (r: bool)
    ensures
        r == spec_in_window(*d, *ws),
{
    match ws {
        None => true,
        Some(s) => date_le(s, d),
    }
}

/// The day number of a timestamp: days since the Unix epoch, rounding down.
pub open spec fn spec_day_number(ts: int) -> int {
    ts / 86400
}

/// The civil date (year, month, day) of an epoch day number, as the
/// calendar backend computes it.
pub uninterp spec fn civil_of_day(day: int) -> (int, int, int);

/// Relies on chrono's `DateTime::<Utc>::from_timestamp`: it derives the UTC
/// calendar date from the timestamp's epoch day number alone, returns
/// `None` exactly outside the representable range, and yields a valid
/// calendar day.
#[verifier::external_body]
fn timestamp_to_date(ts: i64) -> (r: Option<Date>)
    ensures
        r is Some <==> timestamp_in_range(ts as int),
        r matches Some(d) ==> (d.year as int, d.month as int, d.day as int) == civil_of_day(
            spec_day_number(ts as int),
        ) && d.wf(),
{
    match chrono::DateTime::from_timestamp(ts, 0) {
        Some(dt) => {
            let nd = dt.date_naive();
            Some(Date { year: nd.year(), month: nd.month() as u8, day: nd.day() as u8 })
        },
        None => None,
    }
}

/// The day bucket a timestamp falls in: the civil date of its day number.
pub open spec fn spec_bucket(ts: int) -> Date {
    Date {
        year: civil_of_day(spec_day_number(ts)).0 as i32,
        month: civil_of_day(spec_day_number(ts)).1 as u8,
        day: civil_of_day(spec_day_number(ts)).2 as u8,
    }
}

/// The calendar day a timestamp falls on, in UTC; `None` exactly when the
/// timestamp is out of range.
pub fn date_of_timestamp(ts: i64) -> (r: Option<Date>)
    ensures
        r is Some <==> timestamp_in_range(ts as int),
        r matches Some(d) ==> d == spec_bucket(ts as int) && d.wf(),
{
    let r = timestamp_to_date(ts);
    proof {
        if r is Some {
            let d = r->0;
            let c = civil_of_day(spec_day_number(ts as int));
            assert(d.year as int == c.0 && d.month as int == c.1 && d.day as int == c.2);
            assert(d == spec_bucket(ts as int));
        }
    }
    r
}

} // verus!
