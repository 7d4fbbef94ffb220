use vstd::prelude::*;
use crate::leap_second::{is_built_in_leap_second, is_leap_day, LeapSeconds};
use crate::precision::Precision;
use crate::time_zone::TimeZone;
use crate::uncertainty::Uncertainty;
use crate::calendar::utc_clock_now;
use crate::text::owned;
use crate::time_zone::zone_offset;
use crate::util::{date_fields_error, month_days, month_in_range, month_length, valid_date};
pub use crate::parsing::{parse_date_time_point, time_point};

verus! {

/// A wall-clock reading in a time zone, resolved to a precision, with an optional
/// symmetric uncertainty.
#[derive(Debug, PartialEq, Eq, Clone, Copy, Structural)]
pub struct TimePoint {
    pub year: u32,
    pub month: u32,
    pub day: u32,
    pub hour: u32,
    pub minute: u32,
    pub second: u32,
    pub millisecond: u32,
    pub precision: Precision,
    pub zone: TimeZone,
    pub uncertainty: Option<Uncertainty>,
}

/// Midnight at the start of a day, with no uncertainty.
pub open spec fn start_of_day(
    year: int,
    month: int,
    day: int,
    precision: Precision,
    zone: TimeZone,
) -> TimePoint {
    TimePoint {
        year: year as u32,
        month: month as u32,
        day: day as u32,
        hour: 0,
        minute: 0,
        second: 0,
        millisecond: 0,
        precision,
        zone,
        uncertainty: None,
    }
}

/// Whether the day of `t` ends with a leap second.
pub open spec fn on_leap_day(t: TimePoint) -> bool {
    is_leap_day(t.year, t.month, t.day)
}

/// Whether advancing `t` to the next day stays within its field types.
pub open spec fn day_step_ok(t: TimePoint) -> bool {
    &&& month_in_range(t.month as int)
    &&& t.day == month_length(t.year as int, t.month as int) ==> (t.month == 12 ==> t.year
        < u32::MAX)
    &&& t.day != month_length(t.year as int, t.month as int) ==> t.day < u32::MAX
}

/// The start of the next day.
pub open spec fn next_day(t: TimePoint) -> TimePoint {
    if t.day == month_length(t.year as int, t.month as int) {
        if t.month == 12 {
            start_of_day(t.year + 1, 1, 1, t.precision, t.zone)
        } else {
            start_of_day(t.year as int, t.month + 1, 1, t.precision, t.zone)
        }
    } else {
        start_of_day(t.year as int, t.month as int, t.day + 1, t.precision, t.zone)
    }
}

/// Whether advancing `t` to the next month stays within its field types.
pub open spec fn month_step_ok(t: TimePoint) -> bool {
    if t.month == 12 {
        t.year < u32::MAX
    } else {
        t.month < u32::MAX
    }
}

/// The start of the next month.
pub open spec fn next_month(t: TimePoint) -> TimePoint {
    if t.month == 12 {
        start_of_day(t.year + 1, 1, 1, t.precision, t.zone)
    } else {
        start_of_day(t.year as int, t.month + 1, 1, t.precision, t.zone)
    }
}

/// The start of the next year.
pub open spec fn next_year(t: TimePoint) -> TimePoint {
    start_of_day(t.year + 1, 1, 1, t.precision, t.zone)
}

/// Whether advancing `t` to the next hour stays within its field types.
pub open spec fn hour_step_ok(t: TimePoint) -> bool {
    if t.hour == 23 {
        day_step_ok(t)
    } else {
        t.hour < u32::MAX
    }
}

/// The start of the next hour.
pub open spec fn next_hour(t: TimePoint) -> TimePoint {
    if t.hour == 23 {
        TimePoint { precision: t.precision, ..next_day(t) }
    } else {
        TimePoint {
            hour: (t.hour + 1) as u32,
            minute: 0,
            second: 0,
            millisecond: 0,
            uncertainty: None,
            ..t
        }
    }
}

/// Whether advancing `t` to the next minute stays within its field types.
pub open spec fn minute_step_ok(t: TimePoint) -> bool {
    if t.minute == 59 {
        hour_step_ok(t)
    } else {
        t.minute < u32::MAX
    }
}

/// The start of the next minute.
pub open spec fn next_minute(t: TimePoint) -> TimePoint {
    if t.minute == 59 {
        TimePoint { precision: t.precision, ..next_hour(t) }
    } else {
        TimePoint {
            minute: (t.minute + 1) as u32,
            second: 0,
            millisecond: 0,
            uncertainty: None,
            ..t
        }
    }
}

/// Whether advancing `t` to the next second stays within its field types, where `into_leap`
/// tells whether that second is a leap second.
pub open spec fn second_step_ok_given(t: TimePoint, into_leap: bool) -> bool {
    if into_leap {
        true
    } else if t.second == 60 || t.second == 59 {
        minute_step_ok(t)
    } else {
        t.second < u32::MAX
    }
}

/// Whether advancing `t` to the next second stays within its field types.
pub open spec fn second_step_ok(t: TimePoint) -> bool {
    second_step_ok_given(t, into_leap_second(t))
}

/// Whether advancing `t` to the next second stays within its field types, leap seconds
/// taken from the list of leap days `days`.
pub open spec fn second_step_ok_in(days: Seq<(u32, u32, u32)>, t: TimePoint) -> bool {
    second_step_ok_given(t, into_leap_second_in(days, t))
}

/// Whether the next second of `t` is the leap second 23:59:60: `t` is at 23:59:59 of a day
/// that ends with a leap second.
pub open spec fn into_leap_second(t: TimePoint) -> bool {
    t.hour == 23 && t.minute == 59 && t.second == 59 && on_leap_day(t)
}

/// Whether the next second of `t` is the leap second 23:59:60 when the days that end with a
/// leap second are `days`.
pub open spec fn into_leap_second_in(days: Seq<(u32, u32, u32)>, t: TimePoint) -> bool {
    t.hour == 23 && t.minute == 59 && t.second == 59 && days.contains((t.year, t.month, t.day))
}

/// The start of the next second, where `into_leap` tells whether it is the leap second
/// 23:59:60.
pub open spec fn stepped_second(t: TimePoint, into_leap: bool) -> TimePoint {
    if into_leap {
        TimePoint { second: 60, millisecond: 0, uncertainty: None, ..t }
    } else if t.second == 60 || t.second == 59 {
        TimePoint { millisecond: 0, precision: t.precision, zone: t.zone, ..next_minute(t) }
    } else {
        TimePoint { second: (t.second + 1) as u32, millisecond: 0, uncertainty: None, ..t }
    }
}

/// The start of the next second. 23:59:59 of a day that ends with a leap second is followed
/// by 23:59:60.
pub open spec fn next_second(t: TimePoint) -> TimePoint {
    stepped_second(t, into_leap_second(t))
}

/// The start of the next second, leap seconds taken from the list of leap days `days`.
pub open spec fn next_second_in(days: Seq<(u32, u32, u32)>, t: TimePoint) -> TimePoint {
    stepped_second(t, into_leap_second_in(days, t))
}

/// Whether advancing `t` by one millisecond stays within its field types.
pub open spec fn millisecond_step_ok(t: TimePoint) -> bool {
    if t.millisecond == 999 {
        second_step_ok(t)
    } else {
        t.millisecond < u32::MAX
    }
}

/// One millisecond later.
pub open spec fn next_millisecond(t: TimePoint) -> TimePoint {
    if t.millisecond == 999 {
        TimePoint { millisecond: 0, precision: t.precision, zone: t.zone, ..next_second(t) }
    } else {
        TimePoint { millisecond: (t.millisecond + 1) as u32, uncertainty: None, ..t }
    }
}

/// Whether stepping `t` back to the previous day stays within its field types.
pub open spec fn day_back_ok(t: TimePoint) -> bool {
    &&& (t.day <= 1 && t.month > 1) ==> t.month <= 13
    &&& (t.day <= 1 && t.month <= 1) ==> t.year > 0
}

/// The start of the previous day; the millisecond, zone and uncertainty are kept.
pub open spec fn previous_day_start(t: TimePoint) -> TimePoint {
    if t.day > 1 {
        TimePoint { day: (t.day - 1) as u32, hour: 0, minute: 0, second: 0, ..t }
    } else if t.month > 1 {
        TimePoint {
            month: (t.month - 1) as u32,
            day: month_length(t.year as int, t.month - 1) as u32,
            hour: 0,
            minute: 0,
            second: 0,
            ..t
        }
    } else {
        TimePoint { year: (t.year - 1) as u32, month: 12, day: 31, hour: 0, minute: 0, second: 0, ..t }
    }
}

/// Whether stepping `t` back by one second stays within its field types.
pub open spec fn second_back_ok(t: TimePoint) -> bool {
    t.second > 0 || t.minute > 0 || t.hour > 0 || day_back_ok(t)
}

/// The previous second. Midnight is preceded by 23:59:60 when the day before ends with a
/// leap second.
pub open spec fn previous_second(t: TimePoint) -> TimePoint {
    stepped_back_second(t, on_leap_day(previous_day_start(t)))
}

/// The previous second, leap seconds taken from the list of leap days `days`.
pub open spec fn previous_second_in(days: Seq<(u32, u32, u32)>, t: TimePoint) -> TimePoint {
    let pd = previous_day_start(t);
    stepped_back_second(t, days.contains((pd.year, pd.month, pd.day)))
}

/// The previous second, where `leap_before` tells whether the day before `t`'s ends with a
/// leap second; it matters only at midnight.
pub open spec fn stepped_back_second(t: TimePoint, leap_before: bool) -> TimePoint {
    if t.second > 0 {
        TimePoint { second: (t.second - 1) as u32, millisecond: 0, ..t }
    } else if t.minute > 0 {
        TimePoint { minute: (t.minute - 1) as u32, second: 59, ..t }
    } else if t.hour > 0 {
        TimePoint { hour: (t.hour - 1) as u32, minute: 59, second: 59, ..t }
    } else {
        let pd = previous_day_start(t);
        TimePoint {
            hour: 23,
            minute: 59,
            second: if leap_before {
                60
            } else {
                59
            },
            ..pd
        }
    }
}

/// One millisecond earlier.
pub open spec fn previous_millisecond(t: TimePoint) -> TimePoint {
    if t.millisecond > 0 {
        TimePoint { millisecond: (t.millisecond - 1) as u32, ..t }
    } else {
        TimePoint { millisecond: 999, ..previous_second(t) }
    }
}

/// Whether stepping `t` back by one millisecond stays within its field types.
pub open spec fn millisecond_back_ok(t: TimePoint) -> bool {
    t.millisecond > 0 || second_back_ok(t)
}

/// Whether stepping `t` back to the previous hour stays within its field types.
pub open spec fn hour_back_ok(t: TimePoint) -> bool {
    t.hour > 0 || day_back_ok(t)
}

/// The last second (59) of the previous hour.
pub open spec fn previous_hour(t: TimePoint) -> TimePoint {
    if t.hour > 0 {
        TimePoint { hour: (t.hour - 1) as u32, minute: 59, second: 59, ..t }
    } else {
        TimePoint { hour: 23, minute: 59, second: 59, ..previous_day_start(t) }
    }
}

/// The last second (59) of the previous minute.
pub open spec fn previous_minute(t: TimePoint) -> TimePoint {
    if t.minute > 0 {
        TimePoint { minute: (t.minute - 1) as u32, second: 59, ..t }
    } else {
        previous_hour(t)
    }
}

/// Whether stepping `t` back to the previous month stays within its field types.
pub open spec fn month_back_ok(t: TimePoint) -> bool {
    t.month <= 1 ==> t.year > 0
}

/// The start of the previous month.
pub open spec fn previous_month(t: TimePoint) -> TimePoint {
    if t.month > 1 {
        start_of_day(t.year as int, t.month - 1, 1, t.precision, t.zone)
    } else {
        start_of_day(t.year - 1, 12, 1, t.precision, t.zone)
    }
}

/// The start of the previous year.
pub open spec fn previous_year(t: TimePoint) -> TimePoint {
    start_of_day(t.year - 1, 1, 1, t.precision, t.zone)
}

fn start_of(year: u32, month: u32, day: u32, precision: Precision, zone: TimeZone) -> (r: TimePoint)
    ensures
        r == start_of_day(year as int, month as int, day as int, precision, zone),
{
    TimePoint {
        year,
        month,
        day,
        hour: 0,
        minute: 0,
        second: 0,
        millisecond: 0,
        precision,
        zone,
        uncertainty: None,
    }
}

impl TimePoint {
    pub fn add_one_millisecond(t: &TimePoint) -> (r: TimePoint)
        requires
            millisecond_step_ok(*t),
        ensures
            r == next_millisecond(*t),
    {
        if t.millisecond == 999 {
            let next_second = Self::add_one_second(t);
            return TimePoint { millisecond: 0, precision: t.precision, zone: t.zone, ..next_second };
        }
        TimePoint {
            year: t.year,
            month: t.month,
            day: t.day,
            hour: t.hour,
            minute: t.minute,
            second: t.second,
            millisecond: t.millisecond + 1,
            precision: t.precision,
            zone: t.zone,
            uncertainty: None,
        }
    }

    pub fn add_one_second(t: &TimePoint) -> (r: TimePoint)
        requires
            second_step_ok(*t),
        ensures
            r == next_second(*t),
    {
        let into_leap = t.hour == 23 && t.minute == 59 && t.second == 59 && is_built_in_leap_second(
            t.year,
            t.month,
            t.day,
        );
        Self::step_second(t, into_leap)
    }

    /// The start of the next second, leap seconds taken from `list`.
    pub fn add_one_second_with(list: &LeapSeconds, t: &TimePoint) -> (r: TimePoint)
        requires
            second_step_ok_in(list.leap_days(), *t),
        ensures
            r == next_second_in(list.leap_days(), *t),
    {
        let into_leap = t.hour == 23 && t.minute == 59 && t.second == 59 && list.is_leap_second(
            t.year,
            t.month,
            t.day,
        );
        Self::step_second(t, into_leap)
    }

    /// The start of the next second, which is the leap second 23:59:60 when `into_leap`.
    fn step_second(t: &TimePoint, into_leap: bool) -> (r: TimePoint)
        requires
            second_step_ok_given(*t, into_leap),
        ensures
            r == stepped_second(*t, into_leap),
    {
        if into_leap {
            return TimePoint {
                year: t.year,
                month: t.month,
                day: t.day,
                hour: t.hour,
                minute: t.minute,
                second: 60,
                millisecond: 0,
                precision: t.precision,
                zone: t.zone,
                uncertainty: None,
            };
        }
        if t.second == 60 || t.second == 59 {
            let next_minute = Self::add_one_minute(t);
            return TimePoint { millisecond: 0, precision: t.precision, zone: t.zone, ..next_minute };
        }
        TimePoint {
            year: t.year,
            month: t.month,
            day: t.day,
            hour: t.hour,
            minute: t.minute,
            second: t.second + 1,
            millisecond: 0,
            precision: t.precision,
            zone: t.zone,
            uncertainty: None,
        }
    }

    pub fn add_one_minute(t: &TimePoint) -> (r: TimePoint)
        requires
            minute_step_ok(*t),
        ensures
            r == next_minute(*t),
    {
        if t.minute == 59 {
            let next_hour = Self::add_one_hour(t);
            TimePoint { precision: t.precision, ..next_hour }
        } else {
            TimePoint {
                year: t.year,
                month: t.month,
                day: t.day,
                hour: t.hour,
                minute: t.minute + 1,
                second: 0,
                millisecond: 0,
                precision: t.precision,
                zone: t.zone,
                uncertainty: None,
            }
        }
    }

    pub fn add_one_hour(t: &TimePoint) -> (r: TimePoint)
        requires
            hour_step_ok(*t),
        ensures
            r == next_hour(*t),
    {
        if t.hour == 23 {
            let next_day = Self::add_one_day(t);
            TimePoint { precision: t.precision, ..next_day }
        } else {
            TimePoint {
                year: t.year,
                month: t.month,
                day: t.day,
                hour: t.hour + 1,
                minute: 0,
                second: 0,
                millisecond: 0,
                precision: t.precision,
                zone: t.zone,
                uncertainty: None,
            }
        }
    }

    pub fn add_one_day(t: &TimePoint) -> (r: TimePoint)
        requires
            day_step_ok(*t),
        ensures
            r == next_day(*t),
    {
        let days = month_days(t.year, t.month);
        let zone = t.zone;
        if t.day == days {
            if t.month == 12 {
                start_of(t.year + 1, 1, 1, t.precision, zone)
            } else {
                start_of(t.year, t.month + 1, 1, t.precision, zone)
            }
        } else {
            start_of(t.year, t.month, t.day + 1, t.precision, zone)
        }
    }

    pub fn add_one_month(t: &TimePoint) -> (r: TimePoint)
        requires
            month_step_ok(*t),
        ensures
            r == next_month(*t),
    {
        if t.month == 12 {
            start_of(t.year + 1, 1, 1, t.precision, t.zone)
        } else {
            start_of(t.year, t.month + 1, 1, t.precision, t.zone)
        }
    }

    pub fn add_one_year(t: &TimePoint) -> (r: TimePoint)
        requires
            t.year < u32::MAX,
        ensures
            r == next_year(*t),
    {
        start_of(t.year + 1, 1, 1, t.precision, t.zone)
    }

    pub fn sub_one_day(t: &TimePoint) -> (r: TimePoint)
        requires
            day_back_ok(*t),
        ensures
            r == previous_day_start(*t),
    {
        if t.day > 1 {
            return TimePoint { day: t.day - 1, hour: 0, minute: 0, second: 0, precision: t.precision, ..*t };
        }
        if t.month > 1 {
            let previous_month = t.month - 1;
            let last_day = month_days(t.year, previous_month);
            return TimePoint {
                month: previous_month,
                day: last_day,
                hour: 0,
                minute: 0,
                second: 0,
                precision: t.precision,
                ..*t
            };
        }
        TimePoint {
            year: t.year - 1,
            month: 12,
            day: 31,
            hour: 0,
            minute: 0,
            second: 0,
            precision: t.precision,
            ..*t
        }
    }

    pub fn sub_one_second(t: &TimePoint) -> (r: TimePoint)
        requires
            second_back_ok(*t),
        ensures
            r == previous_second(*t),
    {
        let leap_before = if t.second == 0 && t.minute == 0 && t.hour == 0 {
            let previous_day = Self::sub_one_day(t);
            is_built_in_leap_second(previous_day.year, previous_day.month, previous_day.day)
        } else {
            false
        };
        Self::step_back_second(t, leap_before)
    }

    /// The previous second, leap seconds taken from `list`.
    pub fn sub_one_second_with(list: &LeapSeconds, t: &TimePoint) -> (r: TimePoint)
        requires
            second_back_ok(*t),
        ensures
            r == previous_second_in(list.leap_days(), *t),
    {
        let leap_before = if t.second == 0 && t.minute == 0 && t.hour == 0 {
            let previous_day = Self::sub_one_day(t);
            list.is_leap_second(previous_day.year, previous_day.month, previous_day.day)
        } else {
            false
        };
        Self::step_back_second(t, leap_before)
    }

    /// The previous second; midnight is preceded by 23:59:60 when `leap_before`.
    fn step_back_second(t: &TimePoint, leap_before: bool) -> (r: TimePoint)
        requires
            second_back_ok(*t),
        ensures
            r == stepped_back_second(*t, leap_before),
    {
        if t.second > 0 {
            return TimePoint {
                second: t.second - 1,
                millisecond: 0,
                precision: t.precision,
                zone: t.zone,
                ..*t
            };
        }
        if t.minute > 0 {
            return TimePoint {
                minute: t.minute - 1,
                second: 59,
                precision: t.precision,
                zone: t.zone,
                ..*t
            };
        }
        if t.hour > 0 {
            return TimePoint {
                hour: t.hour - 1,
                minute: 59,
                second: 59,
                precision: t.precision,
                zone: t.zone,
                ..*t
            };
        }
        let previous_day = Self::sub_one_day(t);
        let second = if leap_before {
            60
        } else {
            59
        };
        TimePoint {
            hour: 23,
            minute: 59,
            second,
            precision: t.precision,
            zone: t.zone,
            ..previous_day
        }
    }

    /// One millisecond earlier.
    pub fn sub_one_millisecond(t: &TimePoint) -> (r: TimePoint)
        requires
            millisecond_back_ok(*t),
        ensures
            r == previous_millisecond(*t),
    {
        if t.millisecond > 0 {
            return TimePoint { millisecond: t.millisecond - 1, ..*t };
        }
        let previous = Self::sub_one_second(t);
        TimePoint { millisecond: 999, ..previous }
    }

    /// The last second of the previous hour.
    pub fn sub_one_hour(t: &TimePoint) -> (r: TimePoint)
        requires
            hour_back_ok(*t),
        ensures
            r == previous_hour(*t),
    {
        if t.hour > 0 {
            return TimePoint { hour: t.hour - 1, minute: 59, second: 59, ..*t };
        }
        let previous_day = Self::sub_one_day(t);
        TimePoint { hour: 23, minute: 59, second: 59, ..previous_day }
    }

    /// The last second of the previous minute.
    pub fn sub_one_minute(t: &TimePoint) -> (r: TimePoint)
        requires
            t.minute > 0 || hour_back_ok(*t),
        ensures
            r == previous_minute(*t),
    {
        if t.minute > 0 {
            return TimePoint { minute: t.minute - 1, second: 59, ..*t };
        }
        Self::sub_one_hour(t)
    }

    /// The start of the previous month.
    pub fn sub_one_month(t: &TimePoint) -> (r: TimePoint)
        requires
            month_back_ok(*t),
        ensures
            r == previous_month(*t),
    {
        if t.month > 1 {
            start_of(t.year, t.month - 1, 1, t.precision, t.zone)
        } else {
            start_of(t.year - 1, 12, 1, t.precision, t.zone)
        }
    }

    /// The start of the previous year.
    pub fn sub_one_year(t: &TimePoint) -> (r: TimePoint)
        requires
            t.year > 0,
        ensures
            r == previous_year(*t),
    {
        start_of(t.year - 1, 1, 1, t.precision, t.zone)
    }
}


/// `t` advanced by `n` seconds, one `next_second` step at a time.
pub open spec fn seconds_after(t: TimePoint, n: nat) -> TimePoint
    decreases n,
{
    if n == 0 {
        t
    } else {
        next_second(seconds_after(t, (n - 1) as nat))
    }
}

/// Whether every one of the `n` forward second steps from `t` stays within the field types.
pub open spec fn can_add_seconds(t: TimePoint, n: nat) -> bool {
    forall|k: nat| k < n ==> second_step_ok(#[trigger] seconds_after(t, k))
}

/// `t` moved back by `n` seconds, one `previous_second` step at a time.
pub open spec fn seconds_before(t: TimePoint, n: nat) -> TimePoint
    decreases n,
{
    if n == 0 {
        t
    } else {
        previous_second(seconds_before(t, (n - 1) as nat))
    }
}

/// Whether every one of the `n` backward second steps from `t` stays within the field types.
pub open spec fn can_sub_seconds(t: TimePoint, n: nat) -> bool {
    forall|k: nat| k < n ==> second_back_ok(#[trigger] seconds_before(t, k))
}

/// `t` moved back by `n` milliseconds.
pub open spec fn milliseconds_before(t: TimePoint, n: nat) -> TimePoint
    decreases n,
{
    if n == 0 {
        t
    } else {
        previous_millisecond(milliseconds_before(t, (n - 1) as nat))
    }
}

/// Whether every one of the `n` backward millisecond steps stays within the field types.
pub open spec fn can_sub_milliseconds(t: TimePoint, n: nat) -> bool {
    forall|k: nat| k < n ==> millisecond_back_ok(#[trigger] milliseconds_before(t, k))
}

/// `n` steps to the start of the previous day.
pub open spec fn days_back(t: TimePoint, n: nat) -> TimePoint
    decreases n,
{
    if n == 0 {
        t
    } else {
        previous_day_start(days_back(t, (n - 1) as nat))
    }
}

/// Whether every one of the `n` backward day steps stays within the field types.
pub open spec fn can_sub_days(t: TimePoint, n: nat) -> bool {
    forall|k: nat| k < n ==> day_back_ok(#[trigger] days_back(t, k))
}

/// `n` steps to the start of the next day.
pub open spec fn days_forward(t: TimePoint, n: nat) -> TimePoint
    decreases n,
{
    if n == 0 {
        t
    } else {
        next_day(days_forward(t, (n - 1) as nat))
    }
}

/// Whether every one of the `n` forward day steps stays within the field types.
pub open spec fn can_add_days(t: TimePoint, n: nat) -> bool {
    forall|k: nat| k < n ==> day_step_ok(#[trigger] days_forward(t, k))
}

impl TimePoint {
    /// Adds whole seconds one at a time, passing through leap seconds; the uncertainty is
    /// kept.
    pub fn add_seconds(&self, seconds: u64) -> (r: Self)
        requires
            can_add_seconds(*self, seconds as nat),
        ensures
            r == (TimePoint { uncertainty: self.uncertainty, ..seconds_after(*self, seconds as nat) }),
    {
        let uncertainty = self.uncertainty;
        let mut result = *self;
        let mut i: u64 = 0;
        while i < seconds
            invariant
                i <= seconds,
                can_add_seconds(*self, seconds as nat),
                result == seconds_after(*self, i as nat),
            decreases seconds - i,
        {
            result = Self::add_one_second(&result);
            i = i + 1;
        }
        result.uncertainty = uncertainty;
        result
    }

    pub fn add_minutes(&self, minutes: u64) -> (r: Self)
        requires
            minutes * 60 <= u64::MAX,
            can_add_seconds(*self, (minutes * 60) as nat),
        ensures
            r == (TimePoint {
                uncertainty: self.uncertainty,
                ..seconds_after(*self, (minutes * 60) as nat)
            }),
    {
        self.add_seconds(minutes * 60)
    }

    pub fn add_hours(&self, hours: u64) -> (r: Self)
        requires
            hours * 3600 <= u64::MAX,
            can_add_seconds(*self, (hours * 3600) as nat),
        ensures
            r == (TimePoint {
                uncertainty: self.uncertainty,
                ..seconds_after(*self, (hours * 3600) as nat)
            }),
    {
        self.add_seconds(hours * 60 * 60)
    }

    /// Subtracts whole seconds one at a time, passing through leap seconds; the uncertainty
    /// is kept.
    pub fn sub_seconds(&self, seconds: u64) -> (r: Self)
        requires
            can_sub_seconds(*self, seconds as nat),
        ensures
            r == (TimePoint { uncertainty: self.uncertainty, ..seconds_before(*self, seconds as nat) }),
    {
        let uncertainty = self.uncertainty;
        let mut result = *self;
        let mut i: u64 = 0;
        while i < seconds
            invariant
                i <= seconds,
                can_sub_seconds(*self, seconds as nat),
                result == seconds_before(*self, i as nat),
            decreases seconds - i,
        {
            result = Self::sub_one_second(&result);
            i = i + 1;
        }
        result.uncertainty = uncertainty;
        result
    }

    pub fn sub_minutes(&self, minutes: u64) -> (r: Self)
        requires
            minutes * 60 <= u64::MAX,
            can_sub_seconds(*self, (minutes * 60) as nat),
        ensures
            r == (TimePoint {
                uncertainty: self.uncertainty,
                ..seconds_before(*self, (minutes * 60) as nat)
            }),
    {
        self.sub_seconds(minutes * 60)
    }

    pub fn sub_hours(&self, hours: u64) -> (r: Self)
        requires
            hours * 3600 <= u64::MAX,
            can_sub_seconds(*self, (hours * 3600) as nat),
        ensures
            r == (TimePoint {
                uncertainty: self.uncertainty,
                ..seconds_before(*self, (hours * 3600) as nat)
            }),
    {
        self.sub_seconds(hours * 60 * 60)
    }

    /// Subtracts milliseconds one at a time; the uncertainty is kept.
    pub fn sub_milliseconds(&self, milliseconds: u64) -> (r: Self)
        requires
            can_sub_milliseconds(*self, milliseconds as nat),
        ensures
            r == (TimePoint {
                uncertainty: self.uncertainty,
                ..milliseconds_before(*self, milliseconds as nat)
            }),
    {
        let uncertainty = self.uncertainty;
        let mut result = *self;
        let mut i: u64 = 0;
        while i < milliseconds
            invariant
                i <= milliseconds,
                can_sub_milliseconds(*self, milliseconds as nat),
                result == milliseconds_before(*self, i as nat),
            decreases milliseconds - i,
        {
            result = Self::sub_one_millisecond(&result);
            i = i + 1;
        }
        result.uncertainty = uncertainty;
        result
    }

    /// Steps back to the start of the day `days` days earlier.
    pub fn sub_days(&self, days: u64) -> (r: Self)
        requires
            can_sub_days(*self, days as nat),
        ensures
            r == days_back(*self, days as nat),
    {
        let mut result = *self;
        let mut i: u64 = 0;
        while i < days
            invariant
                i <= days,
                can_sub_days(*self, days as nat),
                result == days_back(*self, i as nat),
            decreases days - i,
        {
            result = Self::sub_one_day(&result);
            i = i + 1;
        }
        result
    }
}


/// The precision that the present fields give, when they form a prefix of
/// month, day, hour, minute, second, millisecond.
pub open spec fn precision_of_fields(
    month: Option<u32>,
    day: Option<u32>,
    hour: Option<u32>,
    minute: Option<u32>,
    second: Option<u32>,
    millisecond: Option<u32>,
) -> Option<Precision> {
    if month is None && day is None && hour is None && minute is None && second is None
        && millisecond is None {
        Some(Precision::Year)
    } else if month is Some && day is None && hour is None && minute is None && second is None
        && millisecond is None {
        Some(Precision::Month)
    } else if month is Some && day is Some && hour is None && minute is None && second is None
        && millisecond is None {
        Some(Precision::Day)
    } else if month is Some && day is Some && hour is Some && minute is None && second is None
        && millisecond is None {
        Some(Precision::Hour)
    } else if month is Some && day is Some && hour is Some && minute is Some && second is None
        && millisecond is None {
        Some(Precision::Minute)
    } else if month is Some && day is Some && hour is Some && minute is Some && second is Some
        && millisecond is None {
        Some(Precision::Second)
    } else if month is Some && day is Some && hour is Some && minute is Some && second is Some
        && millisecond is Some {
        Some(Precision::Millisecond)
    } else {
        None
    }
}

/// `o`'s value, or `d` when absent.
pub open spec fn or_default(o: Option<u32>, d: u32) -> u32 {
    match o {
        Some(v) => v,
        None => d,
    }
}

/// A field's value, or `d` when it is missing.
fn field_or(o: Option<u32>, d: u32) -> (r: u32)
    ensures
        r == or_default(o, d),
{
    match o {
        Some(v) => v,
        None => d,
    }
}

/// The point that `TimePoint::new_with_zone` builds from its arguments, or its error text.
/// Missing fields default to the start of the enclosing unit; second 60 is accepted only in
/// UTC, at 23:59 of a day that ends with a leap second.
pub open spec fn constructed(
    year: u32,
    month: Option<u32>,
    day: Option<u32>,
    hour: Option<u32>,
    minute: Option<u32>,
    second: Option<u32>,
    millisecond: Option<u32>,
    zone: TimeZone,
) -> Result<TimePoint, Seq<char>> {
    constructed_given(
        year,
        month,
        day,
        hour,
        minute,
        second,
        millisecond,
        zone,
        is_leap_day(year, or_default(month, 1), or_default(day, 1)),
    )
}

/// The point that `TimePoint::new_with` builds from its arguments in UTC, leap seconds taken
/// from the list of leap days `days`, or its error text.
pub open spec fn constructed_in(
    days: Seq<(u32, u32, u32)>,
    year: u32,
    month: Option<u32>,
    day: Option<u32>,
    hour: Option<u32>,
    minute: Option<u32>,
    second: Option<u32>,
    millisecond: Option<u32>,
) -> Result<TimePoint, Seq<char>> {
    constructed_given(
        year,
        month,
        day,
        hour,
        minute,
        second,
        millisecond,
        TimeZone::UTC,
        days.contains((year, or_default(month, 1), or_default(day, 1))),
    )
}

/// The point built from the arguments, or its error text, where `leap_day` tells whether the
/// date ends with a leap second.
pub open spec fn constructed_given(
    year: u32,
    month: Option<u32>,
    day: Option<u32>,
    hour: Option<u32>,
    minute: Option<u32>,
    second: Option<u32>,
    millisecond: Option<u32>,
    zone: TimeZone,
    leap_day: bool,
) -> Result<TimePoint, Seq<char>> {
    let m = or_default(month, 1);
    let d = or_default(day, 1);
    let h = or_default(hour, 0);
    let mi = or_default(minute, 0);
    let s = or_default(second, 0);
    let ms = or_default(millisecond, 0);
    match precision_of_fields(month, day, hour, minute, second, millisecond) {
        None => Err("Invalid missing fields order"@),
        Some(precision) => match date_fields_error(
            year,
            Some(m),
            Some(d),
            Some(h),
            Some(mi),
            Some(s),
            Some(ms),
        ) {
            Some(msg) => Err(msg),
            None => if s == 60 && !(h == 23 && mi == 59 && leap_day && zone == TimeZone::UTC) {
                Err("Invalid leap second"@)
            } else {
                Ok(
                    TimePoint {
                        year,
                        month: m,
                        day: d,
                        hour: h,
                        minute: mi,
                        second: s,
                        millisecond: ms,
                        precision,
                        zone,
                        uncertainty: None,
                    },
                )
            },
        },
    }
}

/// Whether a constructor result matches `constructed`.
pub open spec fn constructor_result(r: Result<TimePoint, String>, expected: Result<TimePoint, Seq<char>>) -> bool {
    match expected {
        Ok(t) => r == Ok::<TimePoint, String>(t),
        Err(msg) => r matches Err(e) && e@ == msg,
    }
}

/// The wall-clock fields of `a` come strictly before those of `b`, compared from the year
/// down to the millisecond; precision, zone and uncertainty take no part.
pub open spec fn clock_before(a: TimePoint, b: TimePoint) -> bool {
    if a.year != b.year {
        a.year < b.year
    } else if a.month != b.month {
        a.month < b.month
    } else if a.day != b.day {
        a.day < b.day
    } else if a.hour != b.hour {
        a.hour < b.hour
    } else if a.minute != b.minute {
        a.minute < b.minute
    } else if a.second != b.second {
        a.second < b.second
    } else {
        a.millisecond < b.millisecond
    }
}

/// Packs a wall clock into one sortable key: 14 bits of year, 4 of month, 5 of day, 5 of
/// hour, 6 of minute, 6 of second and 24 of millisecond, from the most significant bit down.
pub open spec fn datetime_key(
    year: u32,
    month: u32,
    day: u32,
    hour: u32,
    minute: u32,
    second: u32,
    millisecond: u32,
) -> u64 {
    ((year as u64) << 50u64) | ((month as u64) << 46u64) | ((day as u64) << 41u64) | ((hour as u64)
        << 36u64) | ((minute as u64) << 30u64) | ((second as u64) << 24u64) | (millisecond as u64)
}

/// The boundary key of a point's wall clock.
pub open spec fn clock_key(t: TimePoint) -> u64 {
    datetime_key(t.year, t.month, t.day, t.hour, t.minute, t.second, t.millisecond)
}

/// Packs a date into one sortable key: day in the low 5 bits, month in the next 4, year above.
pub open spec fn date_key(year: u32, month: u32, day: u32) -> u32 {
    ((year << 9u32) | (month << 5u32)) | day
}

impl TimePoint {
    pub fn new(
        year: u32,
        month: Option<u32>,
        day: Option<u32>,
        hour: Option<u32>,
        minute: Option<u32>,
        second: Option<u32>,
        millisecond: Option<u32>,
    ) -> (r: Result<Self, String>)
        ensures
            constructor_result(
                r,
                constructed(year, month, day, hour, minute, second, millisecond, TimeZone::UTC),
            ),
    {
        Self::new_with_zone(year, month, day, hour, minute, second, millisecond, TimeZone::UTC)
    }

    /// Like `new`, with the zone the fields are read in. Only UTC shows leap seconds.
    pub fn new_with_zone(
        year: u32,
        month: Option<u32>,
        day: Option<u32>,
        hour: Option<u32>,
        minute: Option<u32>,
        second: Option<u32>,
        millisecond: Option<u32>,
        zone: TimeZone,
    ) -> (r: Result<Self, String>)
        ensures
            constructor_result(
                r,
                constructed(year, month, day, hour, minute, second, millisecond, zone),
            ),
    {
        let leap_day = is_built_in_leap_second(year, field_or(month, 1), field_or(day, 1));
        Self::build(year, month, day, hour, minute, second, millisecond, zone, leap_day)
    }

    /// Like `new`, with the leap seconds taken from `list`.
    pub fn new_with(
        list: &LeapSeconds,
        year: u32,
        month: Option<u32>,
        day: Option<u32>,
        hour: Option<u32>,
        minute: Option<u32>,
        second: Option<u32>,
        millisecond: Option<u32>,
    ) -> (r: Result<Self, String>)
        ensures
            constructor_result(
                r,
                constructed_in(list.leap_days(), year, month, day, hour, minute, second, millisecond),
            ),
    {
        let leap_day = list.is_leap_second(year, field_or(month, 1), field_or(day, 1));
        Self::build(year, month, day, hour, minute, second, millisecond, TimeZone::UTC, leap_day)
    }

    /// The point built from the fields, where `leap_day` tells whether the date ends with a
    /// leap second.
    fn build(
        year: u32,
        month: Option<u32>,
        day: Option<u32>,
        hour: Option<u32>,
        minute: Option<u32>,
        second: Option<u32>,
        millisecond: Option<u32>,
        zone: TimeZone,
        leap_day: bool,
    ) -> (r: Result<Self, String>)
        ensures
            constructor_result(
                r,
                constructed_given(year, month, day, hour, minute, second, millisecond, zone, leap_day),
            ),
    {
        let precision = if month.is_none() && day.is_none() && hour.is_none() && minute.is_none()
            && second.is_none() && millisecond.is_none() {
            Precision::Year
        } else if month.is_some() && day.is_none() && hour.is_none() && minute.is_none()
            && second.is_none() && millisecond.is_none() {
            Precision::Month
        } else if month.is_some() && day.is_some() && hour.is_none() && minute.is_none()
            && second.is_none() && millisecond.is_none() {
            Precision::Day
        } else if month.is_some() && day.is_some() && hour.is_some() && minute.is_none()
            && second.is_none() && millisecond.is_none() {
            Precision::Hour
        } else if month.is_some() && day.is_some() && hour.is_some() && minute.is_some()
            && second.is_none() && millisecond.is_none() {
            Precision::Minute
        } else if month.is_some() && day.is_some() && hour.is_some() && minute.is_some()
            && second.is_some() && millisecond.is_none() {
            Precision::Second
        } else if month.is_some() && day.is_some() && hour.is_some() && minute.is_some()
            && second.is_some() && millisecond.is_some() {
            Precision::Millisecond
        } else {
            return Err(owned("Invalid missing fields order"));
        };
        let month = match month {
            Some(v) => v,
            None => 1,
        };
        let day = match day {
            Some(v) => v,
            None => 1,
        };
        let hour = match hour {
            Some(v) => v,
            None => 0,
        };
        let minute = match minute {
            Some(v) => v,
            None => 0,
        };
        let second = match second {
            Some(v) => v,
            None => 0,
        };
        let millisecond = match millisecond {
            Some(v) => v,
            None => 0,
        };
        match valid_date(
            year,
            Some(month),
            Some(day),
            Some(hour),
            Some(minute),
            Some(second),
            Some(millisecond),
        ) {
            Ok(()) => {},
            Err(e) => return Err(e),
        }
        if second == 60 {
            if hour != 23 || minute != 59 || !leap_day || zone
                != TimeZone::UTC {
                return Err(owned("Invalid leap second"));
            }
        }
        Ok(
            Self {
                year,
                month,
                day,
                hour,
                minute,
                second,
                millisecond,
                precision,
                zone,
                uncertainty: None,
            },
        )
    }

    /// The point that a UTC clock reading denotes, at millisecond precision: the fields
    /// are taken over as they are read (the year as its 32-bit pattern) and the
    /// nanoseconds are cut down to whole milliseconds.
    pub fn from_utc_reading(
        year: i32,
        month: u8,
        day: u8,
        hour: u8,
        minute: u8,
        second: u8,
        nanosecond: u32,
    ) -> (r: Self)
        requires
            nanosecond < 1_000_000_000,
        ensures
            r.year == year as u32,
            r.month == month as u32,
            r.day == day as u32,
            r.hour == hour as u32,
            r.minute == minute as u32,
            r.second == second as u32,
            r.millisecond == nanosecond / 1_000_000,
            r.millisecond < 1000,
            r.precision == Precision::Millisecond,
            r.zone == TimeZone::UTC,
            r.uncertainty is None,
    {
        TimePoint {
            year: year as u32,
            month: month as u32,
            day: day as u32,
            hour: hour as u32,
            minute: minute as u32,
            second: second as u32,
            millisecond: nanosecond / 1_000_000,
            precision: Precision::Millisecond,
            zone: TimeZone::UTC,
            uncertainty: None,
        }
    }

    /// The current UTC wall clock, at millisecond precision. Which instant is read rests on
    /// the system clock; the reading is turned into a point by `from_utc_reading`.
    pub fn now_utc() -> (r: Self)
        ensures
            r.precision == Precision::Millisecond,
            r.zone == TimeZone::UTC,
            r.uncertainty is None,
            1 <= r.month <= 12,
            1 <= r.day <= 31,
            r.hour < 24,
            r.minute < 60,
            r.second < 60,
            r.millisecond < 1000,
    {
        let (year, month, day, hour, minute, second, nanosecond) = utc_clock_now();
        Self::from_utc_reading(year, month, day, hour, minute, second, nanosecond)
    }

    pub fn with_uncertainty(self, uncertainty: Uncertainty) -> (r: Self)
        ensures
            r == (TimePoint { uncertainty: Some(uncertainty), ..self }),
    {
        let mut out = self;
        out.uncertainty = Some(uncertainty);
        out
    }

    pub fn uncertainty(&self) -> (r: Option<Uncertainty>)
        ensures
            r == self.uncertainty,
    {
        self.uncertainty
    }

    /// Attaches a zone to this point without converting its wall clock.
    pub fn with_zone(&self, zone: TimeZone) -> (r: Self)
        ensures
            r == (TimePoint { zone, ..*self }),
    {
        TimePoint { zone, ..*self }
    }

    pub(crate) fn with_millisecond(&self, millisecond: u32) -> (r: Self)
        ensures
            r == (TimePoint { millisecond, ..*self }),
    {
        TimePoint { millisecond, ..*self }
    }

    /// The UTC offset in seconds for the zone this point is expressed in.
    pub fn utc_offset_seconds(&self) -> (r: Result<i64, String>)
        ensures
            match r {
                Ok(s) => zone_offset(self.zone) == Some(s as int),
                Err(e) => zone_offset(self.zone) is None && e@ == "TAI has no fixed UTC offset"@,
            },
    {
        self.zone.utc_offset_seconds()
    }

    /// Sortable key of the wall clock.
    pub fn boundary_key(&self) -> (r: u64)
        ensures
            r == clock_key(*self),
    {
        encode_datetime(
            self.year,
            self.month,
            self.day,
            self.hour,
            self.minute,
            self.second,
            self.millisecond,
        )
    }
}

/// Whether the wall clock of `a` comes strictly after that of `b`.
pub fn clock_after(a: &TimePoint, b: &TimePoint) -> (r: bool)
    ensures
        r == clock_before(*b, *a),
{
    if a.year != b.year {
        a.year > b.year
    } else if a.month != b.month {
        a.month > b.month
    } else if a.day != b.day {
        a.day > b.day
    } else if a.hour != b.hour {
        a.hour > b.hour
    } else if a.minute != b.minute {
        a.minute > b.minute
    } else if a.second != b.second {
        a.second > b.second
    } else {
        a.millisecond > b.millisecond
    }
}

pub fn encode_date(year: u32, month: u32, day: u32) -> (r: u32)
    ensures
        r == date_key(year, month, day),
{
    (year << 9) | (month << 5) | day
}

pub fn decode_year(encoded: u32) -> (r: u32)
    ensures
        r == encoded >> 9u32,
{
    encoded >> 9
}

pub fn decode_month(encoded: u32) -> (r: u32)
    ensures
        r == (encoded >> 5u32) & 15u32,
{
    (encoded >> 5) & 0b1111
}

pub fn decode_day(encoded: u32) -> (r: u32)
    ensures
        r == encoded & 31u32,
{
    encoded & 0b11111
}

pub fn encode_datetime(
    year: u32,
    month: u32,
    day: u32,
    hour: u32,
    minute: u32,
    second: u32,
    millisecond: u32,
) -> (r: u64)
    ensures
        r == datetime_key(year, month, day, hour, minute, second, millisecond),
{
    ((year as u64) << 50) | ((month as u64) << 46) | ((day as u64) << 41) | ((hour as u64) << 36) | ((
    minute as u64) << 30) | ((second as u64) << 24) | millisecond as u64
}

/// Whether each field of a wall clock fits the bits its key gives it.
pub open spec fn key_fields_fit(t: TimePoint) -> bool {
    &&& t.year < 0x4000
    &&& t.month < 16
    &&& t.day < 32
    &&& t.hour < 32
    &&& t.minute < 64
    &&& t.second < 64
    &&& t.millisecond < 0x1000000
}

/// The key of fields that fit is their weighted sum.
pub proof fn lemma_datetime_key_value(
    year: u32,
    month: u32,
    day: u32,
    hour: u32,
    minute: u32,
    second: u32,
    millisecond: u32,
)
    requires
        year < 0x4000,
        month < 16,
        day < 32,
        hour < 32,
        minute < 64,
        second < 64,
        millisecond < 0x1000000,
    ensures
        datetime_key(year, month, day, hour, minute, second, millisecond) == year * 0x4_0000_0000_0000
            + month * 0x4000_0000_0000 + day * 0x200_0000_0000 + hour * 0x10_0000_0000 + minute
            * 0x4000_0000 + second * 0x100_0000 + millisecond,
{
    assert(((year as u64) << 50u64) | ((month as u64) << 46u64) | ((day as u64) << 41u64) | ((
    hour as u64) << 36u64) | ((minute as u64) << 30u64) | ((second as u64) << 24u64) | (
    millisecond as u64) == (year as u64) * 0x4_0000_0000_0000u64 + (month as u64)
        * 0x4000_0000_0000u64 + (day as u64) * 0x200_0000_0000u64 + (hour as u64)
        * 0x10_0000_0000u64 + (minute as u64) * 0x4000_0000u64 + (second as u64) * 0x100_0000u64
        + (millisecond as u64)) by (bit_vector)
        requires
            year < 0x4000,
            month < 16,
            day < 32,
            hour < 32,
            minute < 64,
            second < 64,
            millisecond < 0x1000000,
    ;
}

/// Keys order wall clocks: a clock that comes before another has the smaller key, and two
/// clocks with the same key agree in every field.
pub proof fn lemma_clock_key_order(a: TimePoint, b: TimePoint)
    requires
        key_fields_fit(a),
        key_fields_fit(b),
    ensures
        clock_before(a, b) <==> clock_key(a) < clock_key(b),
        clock_key(a) == clock_key(b) <==> (a.year == b.year && a.month == b.month && a.day == b.day
            && a.hour == b.hour && a.minute == b.minute && a.second == b.second && a.millisecond
            == b.millisecond),
{
    lemma_datetime_key_value(a.year, a.month, a.day, a.hour, a.minute, a.second, a.millisecond);
    lemma_datetime_key_value(b.year, b.month, b.day, b.hour, b.minute, b.second, b.millisecond);
}

/// The date key of fields that fit is their weighted sum.
proof fn lemma_date_key_value(year: u32, month: u32, day: u32)
    requires
        year < 0x80_0000,
        month < 16,
        day < 32,
    ensures
        date_key(year, month, day) == year * 512 + month * 32 + day,
{
    assert(((year << 9u32) | (month << 5u32)) | day == year * 512 + month * 32 + day) by (bit_vector)
        requires
            year < 0x80_0000,
            month < 16,
            day < 32,
    ;
}

/// Decoding a date key gives back the year, month and day it was made of, and date keys order
/// dates as the calendar does.
pub proof fn lemma_date_key_round_trip(year: u32, month: u32, day: u32)
    requires
        year < 0x80_0000,
        month < 16,
        day < 32,
    ensures
        date_key(year, month, day) >> 9u32 == year,
        (date_key(year, month, day) >> 5u32) & 15u32 == month,
        date_key(year, month, day) & 31u32 == day,
{
    assert((((year << 9u32) | (month << 5u32)) | day) >> 9u32 == year && (((((year << 9u32) | (
    month << 5u32)) | day) >> 5u32) & 15u32) == month && ((((year << 9u32) | (month << 5u32))
        | day) & 31u32) == day) by (bit_vector)
        requires
            year < 0x80_0000,
            month < 16,
            day < 32,
    ;
}

/// Date keys order dates as the calendar does.
pub proof fn lemma_date_key_order(y1: u32, m1: u32, d1: u32, y2: u32, m2: u32, d2: u32)
    requires
        y1 < 0x80_0000,
        m1 < 16,
        d1 < 32,
        y2 < 0x80_0000,
        m2 < 16,
        d2 < 32,
    ensures
        (y1 < y2 || (y1 == y2 && m1 < m2) || (y1 == y2 && m1 == m2 && d1 < d2)) <==> date_key(
            y1,
            m1,
            d1,
        ) < date_key(y2, m2, d2),
{
    lemma_date_key_value(y1, m1, d1);
    lemma_date_key_value(y2, m2, d2);
}

} // verus!
