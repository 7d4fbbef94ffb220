//! Calendar arithmetic keeps dates real: every move by years, months, days, seconds or a
//! period turns a calendar date into a calendar date.
use vstd::prelude::*;
use crate::period::PeriodParts;
use crate::time_arithmetic::{
    backward_steps, calendar_moved, days_ok, days_shifted, forward_steps, months_added,
    period_added, period_ok, shift_ok, shifted, time_part_ms, years_added,
};
use crate::time_point::{
    can_add_days, can_add_seconds, can_sub_days, can_sub_seconds, days_back, days_forward,
    next_day, next_second, previous_day_start, previous_second, second_back_ok, second_step_ok,
    seconds_after, seconds_before, TimePoint,
};
use crate::util::is_calendar_date;

verus! {

/// The date of `t` is a real calendar date.
pub open spec fn on_calendar_date(t: TimePoint) -> bool {
    is_calendar_date(t.year as int, t.month as int, t.day as int)
}

/// Moving a calendar date by a whole number of years, in either direction, gives a calendar
/// date: a day past the end of its month in the new year is brought back into the month.
pub proof fn lemma_years_keep_calendar_date(t: TimePoint, years: int)
    requires
        on_calendar_date(t),
    ensures
        on_calendar_date(years_added(t, years)),
        years_added(t, years).month == t.month,
        years_added(t, years).day <= t.day,
{
}

/// Moving a date by whole years lands `years` years later, in the same month, on the same
/// day when the new year has it and on the last day of the month otherwise; the clock is
/// kept.
pub proof fn lemma_years_land_on_the_same_day(t: TimePoint, years: int)
    requires
        on_calendar_date(t),
        0 <= t.year + years <= u32::MAX,
    ensures
        ({
            let r = years_added(t, years);
            &&& r.year == t.year + years
            &&& r.month == t.month
            &&& (is_calendar_date(r.year as int, t.month as int, t.day as int) ==> r.day == t.day)
            &&& (!is_calendar_date(r.year as int, t.month as int, t.day as int) ==> r.day
                == crate::util::month_length(r.year as int, t.month as int))
            &&& r.hour == t.hour && r.minute == t.minute && r.second == t.second
            &&& r.millisecond == t.millisecond
        }),
{
}

/// Moving a date by whole months lands `months` months later counted across years, on the
/// same day when the new month has it and on its last day otherwise; the clock is kept.
pub proof fn lemma_months_land_on_the_same_day(t: TimePoint, months: int)
    requires
        on_calendar_date(t),
        0 <= t.year * 12 + t.month - 1 + months < (u32::MAX + 1) * 12,
    ensures
        ({
            let r = months_added(t, months);
            &&& r.year * 12 + r.month == t.year * 12 + t.month + months
            &&& 1 <= r.month <= 12
            &&& (is_calendar_date(r.year as int, r.month as int, t.day as int) ==> r.day == t.day)
            &&& (!is_calendar_date(r.year as int, r.month as int, t.day as int) ==> r.day
                == crate::util::month_length(r.year as int, r.month as int))
            &&& r.hour == t.hour && r.minute == t.minute && r.second == t.second
            &&& r.millisecond == t.millisecond
        }),
{
    if months != 0 {
        let total = t.month - 1 + months;
        assert(t.year * 12 + total == (t.year + total / 12) * 12 + total % 12);
    }
}

/// Moving a calendar date by a whole number of months, in either direction, gives a calendar
/// date.
pub proof fn lemma_months_keep_calendar_date(t: TimePoint, months: int)
    requires
        on_calendar_date(t),
    ensures
        on_calendar_date(months_added(t, months)),
        months_added(t, months).day <= t.day,
{
}

/// The next day of a calendar date is a calendar date.
proof fn lemma_next_day_keeps_calendar_date(t: TimePoint)
    requires
        on_calendar_date(t),
        t.day == crate::util::month_length(t.year as int, t.month as int) && t.month == 12 ==> t.year
            < u32::MAX,
    ensures
        on_calendar_date(next_day(t)),
{
}

/// The day before a calendar date is a calendar date.
proof fn lemma_previous_day_keeps_calendar_date(t: TimePoint)
    requires
        on_calendar_date(t),
        crate::time_point::day_back_ok(t),
    ensures
        on_calendar_date(previous_day_start(t)),
{
}

/// One second forward from a calendar date lands on a calendar date.
proof fn lemma_next_second_keeps_calendar_date(t: TimePoint)
    requires
        on_calendar_date(t),
        second_step_ok(t),
    ensures
        on_calendar_date(next_second(t)),
{
    if t.hour == 23 && t.minute == 59 && (t.second == 59 || t.second == 60) {
        lemma_next_day_keeps_calendar_date(t);
    }
}

/// One second back from a calendar date lands on a calendar date.
proof fn lemma_previous_second_keeps_calendar_date(t: TimePoint)
    requires
        on_calendar_date(t),
        second_back_ok(t),
    ensures
        on_calendar_date(previous_second(t)),
{
    if t.second == 0 && t.minute == 0 && t.hour == 0 {
        lemma_previous_day_keeps_calendar_date(t);
    }
}

/// Every point of a forward run of seconds from a calendar date is on a calendar date.
pub proof fn lemma_seconds_after_keep_calendar_date(t: TimePoint, n: nat)
    requires
        on_calendar_date(t),
        can_add_seconds(t, n),
    ensures
        on_calendar_date(seconds_after(t, n)),
    decreases n,
{
    if n > 0 {
        let m = (n - 1) as nat;
        assert(second_step_ok(seconds_after(t, m)));
        lemma_seconds_after_keep_calendar_date(t, m);
        lemma_next_second_keeps_calendar_date(seconds_after(t, m));
    }
}

/// Every point of a backward run of seconds from a calendar date is on a calendar date.
pub proof fn lemma_seconds_before_keep_calendar_date(t: TimePoint, n: nat)
    requires
        on_calendar_date(t),
        can_sub_seconds(t, n),
    ensures
        on_calendar_date(seconds_before(t, n)),
    decreases n,
{
    if n > 0 {
        let m = (n - 1) as nat;
        assert(second_back_ok(seconds_before(t, m)));
        lemma_seconds_before_keep_calendar_date(t, m);
        lemma_previous_second_keeps_calendar_date(seconds_before(t, m));
    }
}

/// Moving a calendar date by a duration lands on a calendar date.
pub proof fn lemma_shift_keeps_calendar_date(t: TimePoint, ms: int)
    requires
        on_calendar_date(t),
        shift_ok(t, ms),
    ensures
        on_calendar_date(shifted(t, ms)),
{
    if ms < 0 {
        lemma_seconds_before_keep_calendar_date(t, backward_steps(t, (-ms) as nat));
    } else {
        lemma_seconds_after_keep_calendar_date(t, forward_steps(t, ms as nat));
    }
}

/// Every day of a forward run of days from a calendar date is a calendar date.
proof fn lemma_days_forward_keep_calendar_date(t: TimePoint, n: nat)
    requires
        on_calendar_date(t),
        can_add_days(t, n),
    ensures
        on_calendar_date(days_forward(t, n)),
    decreases n,
{
    if n > 0 {
        let m = (n - 1) as nat;
        assert(crate::time_point::day_step_ok(days_forward(t, m)));
        lemma_days_forward_keep_calendar_date(t, m);
        lemma_next_day_keeps_calendar_date(days_forward(t, m));
    }
}

/// Every day of a backward run of days from a calendar date is a calendar date.
proof fn lemma_days_back_keep_calendar_date(t: TimePoint, n: nat)
    requires
        on_calendar_date(t),
        can_sub_days(t, n),
    ensures
        on_calendar_date(days_back(t, n)),
    decreases n,
{
    if n > 0 {
        let m = (n - 1) as nat;
        assert(crate::time_point::day_back_ok(days_back(t, m)));
        lemma_days_back_keep_calendar_date(t, m);
        lemma_previous_day_keeps_calendar_date(days_back(t, m));
    }
}

/// Moving a calendar date by a whole number of days, in either direction, gives a calendar
/// date.
pub proof fn lemma_days_keep_calendar_date(t: TimePoint, days: int)
    requires
        on_calendar_date(t),
        days_ok(t, days),
    ensures
        on_calendar_date(days_shifted(t, days)),
{
    if days < 0 {
        lemma_days_back_keep_calendar_date(t, (-days) as nat);
    } else {
        lemma_days_forward_keep_calendar_date(t, days as nat);
    }
}

/// Moving a calendar date by a period, years, months, days and time part alike, gives a
/// calendar date.
pub proof fn lemma_period_keeps_calendar_date(t: TimePoint, p: PeriodParts)
    requires
        on_calendar_date(t),
        period_ok(t, p),
    ensures
        on_calendar_date(calendar_moved(t, p)),
        on_calendar_date(period_added(t, p)),
{
    let y = years_added(t, p.0);
    lemma_years_keep_calendar_date(t, p.0);
    let m = months_added(y, p.1);
    lemma_months_keep_calendar_date(y, p.1);
    lemma_days_keep_calendar_date(m, p.2);
    lemma_shift_keeps_calendar_date(calendar_moved(t, p), time_part_ms(p));
}

} // verus!
