//! Proleptic Gregorian calendar arithmetic: Julian day numbers and Unix timestamps,
//! computed by the `time` crate.
use vstd::prelude::*;
use crate::util::{is_calendar_date, leap_year, month_length};

verus! {

/// Smallest year the calendar computations accept.
pub const MIN_YEAR: i32 = -9999;

/// Largest year the calendar computations accept.
pub const MAX_YEAR: i32 = 9999;

/// Julian day number of 1970-01-01, the Unix epoch.
pub const UNIX_EPOCH_JULIAN_DAY: i32 = 2440588;

/// Days from 0001-01-01 to the first day of `year` (negative before it).
pub open spec fn days_before_year(year: int) -> int {
    365 * (year - 1) + (year - 1) / 4 - (year - 1) / 100 + (year - 1) / 400
}

/// Days of `year` before the first day of `month`.
pub open spec fn days_before_month(year: int, month: int) -> int {
    let leap: int = if leap_year(year) { 1 } else { 0 };
    if month == 1 {
        0
    } else if month == 2 {
        31
    } else if month == 3 {
        59 + leap
    } else if month == 4 {
        90 + leap
    } else if month == 5 {
        120 + leap
    } else if month == 6 {
        151 + leap
    } else if month == 7 {
        181 + leap
    } else if month == 8 {
        212 + leap
    } else if month == 9 {
        243 + leap
    } else if month == 10 {
        273 + leap
    } else if month == 11 {
        304 + leap
    } else {
        334 + leap
    }
}

/// Julian day number of a calendar date: days since -4713-11-24 of the proleptic
/// Gregorian calendar.
pub open spec fn julian_day(year: int, month: int, day: int) -> int {
    days_before_year(year) + days_before_month(year, month) + day + 1721425
}

/// A calendar date within the years the calendar computations accept.
pub open spec fn supported_date(year: int, month: int, day: int) -> bool {
    MIN_YEAR <= year <= MAX_YEAR && is_calendar_date(year, month, day)
}

/// Julian day number of the first supported date.
pub open spec fn first_julian_day() -> int {
    julian_day(MIN_YEAR as int, 1, 1)
}

/// Julian day number of the last supported date.
pub open spec fn last_julian_day() -> int {
    julian_day(MAX_YEAR as int, 12, 31)
}

/// Seconds from the Unix epoch to a UTC wall clock, every day counted as 86 400 seconds.
pub open spec fn unix_seconds(
    year: int,
    month: int,
    day: int,
    hour: int,
    minute: int,
    second: int,
) -> int {
    (julian_day(year, month, day) - UNIX_EPOCH_JULIAN_DAY) * 86400 + hour * 3600 + minute * 60
        + second
}

/// A time of day accepted by the calendar computations.
pub open spec fn clock_time(hour: int, minute: int, second: int) -> bool {
    0 <= hour < 24 && 0 <= minute < 60 && 0 <= second < 60
}

/// Which component of a calendar value was out of range.
#[derive(Debug, Clone, Copy, PartialEq, Eq, Structural)]
pub enum CalendarError {
    Month,
    Date,
    Time,
}

/// The first failing component, checked in the order month, date, time.
pub open spec fn calendar_error(
    year: int,
    month: int,
    day: int,
    hour: int,
    minute: int,
    second: int,
) -> Option<CalendarError> {
    if !(1 <= month <= 12) {
        Some(CalendarError::Month)
    } else if !supported_date(year, month, day) {
        Some(CalendarError::Date)
    } else if !clock_time(hour, minute, second) {
        Some(CalendarError::Time)
    } else {
        None
    }
}

/// Calls `time::Month::try_from`, `time::Date::from_calendar_date` and
/// `time::Date::to_julian_day`: the Julian day number of a date of years -9999 to 9999,
/// or which of month and date is out of range.
#[verifier::external_body]
pub(crate) fn julian_day_number(year: i32, month: u8, day: u8) -> (r: Result<i32, CalendarError>)
    ensures
        match r {
            Ok(jd) => supported_date(year as int, month as int, day as int) && jd as int
                == julian_day(year as int, month as int, day as int),
            Err(e) => e == (if !(1 <= month <= 12) {
                CalendarError::Month
            } else {
                CalendarError::Date
            }) && !supported_date(year as int, month as int, day as int),
        },
{
    let month = match time::Month::try_from(month) {
        Ok(m) => m,
        Err(_) => return Err(CalendarError::Month),
    };
    match time::Date::from_calendar_date(year, month, day) {
        Ok(date) => Ok(date.to_julian_day()),
        Err(_) => Err(CalendarError::Date),
    }
}

/// Calls `time::Date::from_julian_day` and reads the date's year, month and day: the date
/// whose Julian day number is `jd`, within years -9999 to 9999.
#[verifier::external_body]
pub(crate) fn date_of_julian_day(jd: i32) -> (r: Option<(i32, u8, u8)>)
    ensures
        match r {
            Some((y, m, d)) => supported_date(y as int, m as int, d as int) && julian_day(
                y as int,
                m as int,
                d as int,
            ) == jd,
            None => !(first_julian_day() <= jd <= last_julian_day()),
        },
{
    match time::Date::from_julian_day(jd) {
        Ok(date) => Some((date.year(), date.month() as u8, date.day())),
        Err(_) => None,
    }
}

/// Calls `time::Month::try_from`, `time::Date::from_calendar_date`, `time::Time::from_hms`,
/// `time::PrimitiveDateTime::new`, `assume_utc` and `unix_timestamp`: the Unix timestamp of
/// a UTC wall clock, or its first out-of-range component.
#[verifier::external_body]
pub(crate) fn utc_unix_timestamp(year: i32, month: u8, day: u8, hour: u8, minute: u8, second: u8) -> (r:
    Result<i64, CalendarError>)
    ensures
        match calendar_error(
            year as int,
            month as int,
            day as int,
            hour as int,
            minute as int,
            second as int,
        ) {
            None => r matches Ok(ts) && ts as int == unix_seconds(
                year as int,
                month as int,
                day as int,
                hour as int,
                minute as int,
                second as int,
            ),
            Some(e) => r == Err::<i64, CalendarError>(e),
        },
{
    let month = match time::Month::try_from(month) {
        Ok(m) => m,
        Err(_) => return Err(CalendarError::Month),
    };
    let date = match time::Date::from_calendar_date(year, month, day) {
        Ok(d) => d,
        Err(_) => return Err(CalendarError::Date),
    };
    let time = match time::Time::from_hms(hour, minute, second) {
        Ok(t) => t,
        Err(_) => return Err(CalendarError::Time),
    };
    Ok(time::PrimitiveDateTime::new(date, time).assume_utc().unix_timestamp())
}

/// Unix timestamps from -9999-01-01 00:00:00 to 9999-12-31 23:59:59 UTC.
pub open spec fn supported_timestamp(ts: int) -> bool {
    unix_seconds(MIN_YEAR as int, 1, 1, 0, 0, 0) <= ts <= unix_seconds(
        MAX_YEAR as int,
        12,
        31,
        23,
        59,
        59,
    )
}

/// Calls `time::OffsetDateTime::from_unix_timestamp` and reads its year, month, day, hour,
/// minute, second and nanosecond: the UTC wall clock of a Unix timestamp.
#[verifier::external_body]
pub(crate) fn utc_clock_of_timestamp(ts: i64) -> (r: Option<(i32, u8, u8, u8, u8, u8, u32)>)
    ensures
        match r {
            Some((y, mo, d, h, mi, s, ns)) => {
                &&& supported_timestamp(ts as int)
                &&& supported_date(y as int, mo as int, d as int)
                &&& clock_time(h as int, mi as int, s as int)
                &&& ns == 0
                &&& unix_seconds(y as int, mo as int, d as int, h as int, mi as int, s as int)
                    == ts
            },
            None => !supported_timestamp(ts as int),
        },
{
    match time::OffsetDateTime::from_unix_timestamp(ts) {
        Ok(dt) => Some(
            (dt.year(), dt.month() as u8, dt.day(), dt.hour(), dt.minute(), dt.second(), dt.nanosecond()),
        ),
        Err(_) => None,
    }
}

/// Calls `time::OffsetDateTime::now_utc` and reads its year, month, day, hour, minute,
/// second and nanosecond. The reading depends on the system clock: only the ranges of the
/// fields are stated.
#[verifier::external_body]
pub(crate) fn utc_clock_now() -> (r: (i32, u8, u8, u8, u8, u8, u32))
    ensures
        supported_date(r.0 as int, r.1 as int, r.2 as int),
        clock_time(r.3 as int, r.4 as int, r.5 as int),
        r.6 < 1_000_000_000,
{
    let now = time::OffsetDateTime::now_utc();
    (now.year(), now.month() as u8, now.day(), now.hour(), now.minute(), now.second(), now.nanosecond())
}


/// Stepping a year forward decreases the floored quotient of `year - 1` by `k` by one
/// exactly when `k` divides `year`.
proof fn lemma_floor_step(year: int, k: int)
    requires
        k > 0,
    ensures
        year / k - (year - 1) / k == (if year % k == 0 { 1int } else { 0int }),
{
    let q = year / k;
    let r = year % k;
    vstd::arithmetic::div_mod::lemma_fundamental_div_mod(year, k);
    assert(year == q * k + r) by (nonlinear_arith)
        requires
            year == k * q + r;
    if r > 0 {
        vstd::arithmetic::div_mod::lemma_fundamental_div_mod_converse(year - 1, k, q, r - 1);
    } else {
        assert(year - 1 == (q - 1) * k + (k - 1)) by (nonlinear_arith)
            requires
                year == q * k + r,
                r == 0;
        vstd::arithmetic::div_mod::lemma_fundamental_div_mod_converse(year - 1, k, q - 1, k - 1);
    }
}

/// A multiple of `a * b` is a multiple of `b`.
proof fn lemma_multiple_of_factor(year: int, a: int, b: int)
    requires
        a > 0,
        b > 0,
        year % (a * b) == 0,
    ensures
        year % b == 0,
{
    assert(a * b > 0) by (nonlinear_arith)
        requires
            a > 0,
            b > 0;
    vstd::arithmetic::div_mod::lemma_fundamental_div_mod(year, a * b);
    let q = year / (a * b);
    assert(year == (q * a) * b + 0) by (nonlinear_arith)
        requires
            year == (a * b) * q + year % (a * b),
            year % (a * b) == 0;
    vstd::arithmetic::div_mod::lemma_fundamental_div_mod_converse(year, b, q * a, 0);
}

/// Consecutive years start 365 days apart, or 366 after a leap year.
pub proof fn lemma_year_length(year: int)
    ensures
        days_before_year(year + 1) == days_before_year(year) + 365 + (if leap_year(year) {
            1int
        } else {
            0int
        }),
{
    lemma_floor_step(year, 4);
    lemma_floor_step(year, 100);
    lemma_floor_step(year, 400);
    if year % 400 == 0 {
        lemma_multiple_of_factor(year, 4, 100);
        lemma_multiple_of_factor(year, 25, 4);
    } else if year % 100 == 0 {
        lemma_multiple_of_factor(year, 25, 4);
    }
    if year % 4 != 0 {
        if year % 100 == 0 {
            lemma_multiple_of_factor(year, 25, 4);
        }
        if year % 400 == 0 {
            lemma_multiple_of_factor(year, 100, 4);
        }
    }
}

/// The days of a calendar date counted from the start of its year lie in the year.
proof fn lemma_day_of_year_range(year: int, month: int, day: int)
    requires
        is_calendar_date(year, month, day),
    ensures
        1 <= days_before_month(year, month) + day <= 365 + (if leap_year(year) { 1int } else { 0int }),
{
}

/// Within a year, later months start after every day of earlier months.
proof fn lemma_month_order(year: int, m1: int, d1: int, m2: int, d2: int)
    requires
        is_calendar_date(year, m1, d1),
        is_calendar_date(year, m2, d2),
        m1 < m2,
    ensures
        days_before_month(year, m1) + d1 < days_before_month(year, m2) + d2,
{
}

/// Year starts increase with the year.
proof fn lemma_year_start_monotone(y1: int, y2: int)
    requires
        y1 <= y2,
    ensures
        days_before_year(y1) + 365 * (y2 - y1) <= days_before_year(y2),
    decreases y2 - y1,
{
    if y1 < y2 {
        lemma_year_start_monotone(y1, y2 - 1);
        lemma_year_length(y2 - 1);
    }
}

/// Julian day numbers increase strictly with the calendar date.
pub proof fn lemma_julian_day_strictly_increasing(y1: int, m1: int, d1: int, y2: int, m2: int, d2: int)
    requires
        is_calendar_date(y1, m1, d1),
        is_calendar_date(y2, m2, d2),
        y1 < y2 || (y1 == y2 && m1 < m2) || (y1 == y2 && m1 == m2 && d1 < d2),
    ensures
        julian_day(y1, m1, d1) < julian_day(y2, m2, d2),
{
    if y1 < y2 {
        lemma_day_of_year_range(y1, m1, d1);
        lemma_day_of_year_range(y2, m2, d2);
        lemma_year_length(y1);
        lemma_year_start_monotone(y1 + 1, y2);
    } else if m1 < m2 {
        lemma_month_order(y1, m1, d1, m2, d2);
    }
}

/// Distinct calendar dates have distinct Julian day numbers.
pub proof fn lemma_julian_day_injective(y1: int, m1: int, d1: int, y2: int, m2: int, d2: int)
    requires
        is_calendar_date(y1, m1, d1),
        is_calendar_date(y2, m2, d2),
        julian_day(y1, m1, d1) == julian_day(y2, m2, d2),
    ensures
        y1 == y2 && m1 == m2 && d1 == d2,
{
    if y1 < y2 || (y1 == y2 && m1 < m2) || (y1 == y2 && m1 == m2 && d1 < d2) {
        lemma_julian_day_strictly_increasing(y1, m1, d1, y2, m2, d2);
    } else if y2 < y1 || (y1 == y2 && m2 < m1) || (y1 == y2 && m1 == m2 && d2 < d1) {
        lemma_julian_day_strictly_increasing(y2, m2, d2, y1, m1, d1);
    }
}

/// Distinct UTC wall clocks have distinct Unix timestamps.
pub proof fn lemma_unix_seconds_injective(
    y1: int,
    mo1: int,
    d1: int,
    h1: int,
    mi1: int,
    s1: int,
    y2: int,
    mo2: int,
    d2: int,
    h2: int,
    mi2: int,
    s2: int,
)
    requires
        is_calendar_date(y1, mo1, d1),
        is_calendar_date(y2, mo2, d2),
        clock_time(h1, mi1, s1),
        clock_time(h2, mi2, s2),
        unix_seconds(y1, mo1, d1, h1, mi1, s1) == unix_seconds(y2, mo2, d2, h2, mi2, s2),
    ensures
        y1 == y2 && mo1 == mo2 && d1 == d2 && h1 == h2 && mi1 == mi2 && s1 == s2,
{
    let j1 = julian_day(y1, mo1, d1);
    let j2 = julian_day(y2, mo2, d2);
    let t1 = h1 * 3600 + mi1 * 60 + s1;
    let t2 = h2 * 3600 + mi2 * 60 + s2;
    assert(j1 == j2) by (nonlinear_arith)
        requires
            (j1 - UNIX_EPOCH_JULIAN_DAY) * 86400 + t1 == (j2 - UNIX_EPOCH_JULIAN_DAY) * 86400 + t2,
            0 <= t1 < 86400,
            0 <= t2 < 86400,
    ;
    lemma_julian_day_injective(y1, mo1, d1, y2, mo2, d2);
}


/// The Julian day numbers of supported dates run from -1930999 to 5373484.
pub proof fn lemma_supported_julian_range(year: int, month: int, day: int)
    requires
        supported_date(year, month, day),
    ensures
        first_julian_day() <= julian_day(year, month, day) <= last_julian_day(),
        first_julian_day() == -1930999,
        last_julian_day() == 5373484,
{
    if !(year == MIN_YEAR && month == 1 && day == 1) {
        lemma_julian_day_strictly_increasing(MIN_YEAR as int, 1, 1, year, month, day);
    }
    if !(year == MAX_YEAR && month == 12 && day == 31) {
        lemma_julian_day_strictly_increasing(year, month, day, MAX_YEAR as int, 12, 31);
    }
}

/// Unix timestamps of supported wall clocks fit comfortably in 64 bits.
pub proof fn lemma_unix_seconds_bounds(
    year: int,
    month: int,
    day: int,
    hour: int,
    minute: int,
    second: int,
)
    requires
        supported_date(year, month, day),
        clock_time(hour, minute, second),
    ensures
        -400_000_000_000 <= unix_seconds(year, month, day, hour, minute, second) <= 400_000_000_000,
{
    lemma_supported_julian_range(year, month, day);
}

/// The calendar day after a date.
pub open spec fn next_date(year: int, month: int, day: int) -> (int, int, int) {
    if day < month_length(year, month) {
        (year, month, day + 1)
    } else if month < 12 {
        (year, month + 1, 1)
    } else {
        (year + 1, 1, 1)
    }
}

/// The day after a calendar date is a calendar date one Julian day later.
pub proof fn lemma_julian_next(year: int, month: int, day: int)
    requires
        is_calendar_date(year, month, day),
    ensures
        ({
            let n = next_date(year, month, day);
            is_calendar_date(n.0, n.1, n.2) && julian_day(n.0, n.1, n.2) == julian_day(year, month, day)
                + 1
        }),
{
    if day >= month_length(year, month) && month == 12 {
        lemma_year_length(year);
    }
}

/// The day before a calendar date is a calendar date one Julian day earlier.
pub proof fn lemma_julian_previous(year: int, month: int, day: int)
    requires
        is_calendar_date(year, month, day),
    ensures
        ({
            let p = crate::util::day_before(year, month, day);
            is_calendar_date(p.0, p.1, p.2) && julian_day(p.0, p.1, p.2) + 1 == julian_day(
                year,
                month,
                day,
            )
        }),
{
    if day == 1 && month == 1 {
        lemma_year_length(year - 1);
    }
}

/// `d` is a supported date with Julian day number `jd`.
pub open spec fn dated(d: (int, int, int), jd: int) -> bool {
    supported_date(d.0, d.1, d.2) && julian_day(d.0, d.1, d.2) == jd
}

/// Every Julian day number of the supported range is that of a supported date.
pub proof fn lemma_date_for_julian_day(jd: int)
    requires
        first_julian_day() <= jd <= last_julian_day(),
    ensures
        exists|d: (int, int, int)| #[trigger] dated(d, jd),
    decreases jd - first_julian_day(),
{
    if jd == first_julian_day() {
        assert(dated((MIN_YEAR as int, 1int, 1int), jd));
    } else {
        lemma_date_for_julian_day(jd - 1);
        let d = choose|d: (int, int, int)| #[trigger] dated(d, jd - 1);
        lemma_julian_next(d.0, d.1, d.2);
        let n = next_date(d.0, d.1, d.2);
        if n.0 > MAX_YEAR {
            assert(d == (MAX_YEAR as int, 12int, 31int));
        }
        assert(dated(n, jd));
    }
}

} // verus!
