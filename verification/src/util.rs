use vstd::prelude::*;
use crate::text::owned;

verus! {

/// Gregorian leap-year rule.
pub open spec fn leap_year(year: int) -> bool {
    (year % 4 == 0 && year % 100 != 0) || year % 400 == 0
}

/// Whether `month` names a calendar month.
pub open spec fn month_in_range(month: int) -> bool {
    1 <= month <= 12
}

/// Number of days of `month` in `year`; zero outside the twelve months.
pub open spec fn month_length(year: int, month: int) -> int {
    if month == 1 || month == 3 || month == 5 || month == 7 || month == 8 || month == 10
        || month == 12 {
        31
    } else if month == 4 || month == 6 || month == 9 || month == 11 {
        30
    } else if month == 2 {
        if leap_year(year) {
            29
        } else {
            28
        }
    } else {
        0
    }
}

/// A real calendar day of the proleptic Gregorian calendar.
pub open spec fn is_calendar_date(year: int, month: int, day: int) -> bool {
    month_in_range(month) && 1 <= day <= month_length(year, month)
}

/// The first check of `valid_date` that the fields fail, as its error text.
pub open spec fn date_fields_error(
    year: u32,
    month: Option<u32>,
    day: Option<u32>,
    hour: Option<u32>,
    minute: Option<u32>,
    second: Option<u32>,
    millisecond: Option<u32>,
) -> Option<Seq<char>> {
    if month is Some && !month_in_range(month->0 as int) {
        Some("Invalid month"@)
    } else if month is Some && day is Some && !(1 <= day->0 <= month_length(
        year as int,
        month->0 as int,
    )) {
        Some("Invalid day"@)
    } else if month is None && day is Some {
        Some("Day provided without month"@)
    } else if hour is Some && day is None {
        Some("Hour provided without day"@)
    } else if minute is Some && hour is None {
        Some("Minute provided without hour"@)
    } else if second is Some && minute is None {
        Some("Second provided without minute"@)
    } else if millisecond is Some && second is None {
        Some("Millisecond provided without second"@)
    } else if hour is Some && hour->0 > 23 {
        Some("Invalid hour"@)
    } else if minute is Some && minute->0 > 59 {
        Some("Invalid minute"@)
    } else if second is Some && second->0 > 60 {
        Some("Invalid second"@)
    } else if millisecond is Some && millisecond->0 > 999 {
        Some("Invalid millisecond"@)
    } else {
        None
    }
}

/// The day before a calendar day.
pub open spec fn day_before(year: int, month: int, day: int) -> (int, int, int) {
    if day > 1 {
        (year, month, day - 1)
    } else if month == 1 {
        (year - 1, 12, 31)
    } else {
        (year, month - 1, month_length(year, month - 1))
    }
}

/// The month number of a three-letter English month abbreviation.
pub open spec fn month_abbreviation(m: Seq<char>) -> Option<u32> {
    if m == seq!['J', 'a', 'n'] {
        Some(1u32)
    } else if m == seq!['F', 'e', 'b'] {
        Some(2u32)
    } else if m == seq!['M', 'a', 'r'] {
        Some(3u32)
    } else if m == seq!['A', 'p', 'r'] {
        Some(4u32)
    } else if m == seq!['M', 'a', 'y'] {
        Some(5u32)
    } else if m == seq!['J', 'u', 'n'] {
        Some(6u32)
    } else if m == seq!['J', 'u', 'l'] {
        Some(7u32)
    } else if m == seq!['A', 'u', 'g'] {
        Some(8u32)
    } else if m == seq!['S', 'e', 'p'] {
        Some(9u32)
    } else if m == seq!['O', 'c', 't'] {
        Some(10u32)
    } else if m == seq!['N', 'o', 'v'] {
        Some(11u32)
    } else if m == seq!['D', 'e', 'c'] {
        Some(12u32)
    } else {
        None
    }
}

pub fn is_leap_year(year: u32) -> (r: bool)
    ensures
        r == leap_year(year as int),
{
    (year % 4 == 0 && year % 100 != 0) || (year % 400 == 0)
}

/// Length of a month that is known to be in range.
pub fn month_days(year: u32, month: u32) -> (r: u32)
    requires
        month_in_range(month as int),
    ensures
        r as int == month_length(year as int, month as int),
        28 <= r <= 31,
{
    if month == 2 {
        if is_leap_year(year) {
            29
        } else {
            28
        }
    } else if month == 4 || month == 6 || month == 9 || month == 11 {
        30
    } else {
        31
    }
}

pub fn days_in_month(year: u32, month: u32) -> (r: Result<u32, String>)
    ensures
        match r {
            Ok(d) => month_in_range(month as int) && d as int == month_length(
                year as int,
                month as int,
            ),
            Err(e) => !month_in_range(month as int) && e@ == "Invalid month"@,
        },
{
    if 1 <= month && month <= 12 {
        Ok(month_days(year, month))
    } else {
        Err(owned("Invalid month"))
    }
}

pub fn valid_date(
    year: u32,
    month: Option<u32>,
    day: Option<u32>,
    hour: Option<u32>,
    minute: Option<u32>,
    second: Option<u32>,
    millisecond: Option<u32>,
) -> (r: Result<(), String>)
    ensures
        match date_fields_error(year, month, day, hour, minute, second, millisecond) {
            None => r is Ok,
            Some(msg) => r matches Err(e) && e@ == msg,
        },
{
    if let Some(month) = month {
        if month == 0 || month > 12 {
            return Err(owned("Invalid month"));
        }
        if let Some(day) = day {
            let max_day = month_days(year, month);
            if day == 0 || day > max_day {
                return Err(owned("Invalid day"));
            }
        }
    } else if day.is_some() {
        return Err(owned("Day provided without month"));
    }
    if hour.is_some() && day.is_none() {
        return Err(owned("Hour provided without day"));
    }
    if minute.is_some() && hour.is_none() {
        return Err(owned("Minute provided without hour"));
    }
    if second.is_some() && minute.is_none() {
        return Err(owned("Second provided without minute"));
    }
    if millisecond.is_some() && second.is_none() {
        return Err(owned("Millisecond provided without second"));
    }
    if let Some(hour) = hour {
        if hour > 23 {
            return Err(owned("Invalid hour"));
        }
    }
    if let Some(minute) = minute {
        if minute > 59 {
            return Err(owned("Invalid minute"));
        }
    }
    if let Some(second) = second {
        if second > 60 {
            return Err(owned("Invalid second"));
        }
    }
    if let Some(millisecond) = millisecond {
        if millisecond > 999 {
            return Err(owned("Invalid millisecond"));
        }
    }
    Ok(())
}

/// The month number of a three-letter English month abbreviation.
pub fn parse_month(m: &str) -> (r: Option<u32>)
    ensures
        r == month_abbreviation(m@),
{
    let c = crate::text::chars_of(m);
    month_number(&c)
}

/// The month number of a three-letter English month abbreviation.
pub fn month_number(c: &Vec<char>) -> (r: Option<u32>)
    ensures
        r == month_abbreviation(c@),
{
    if c.len() != 3 {
        assert(forall|k: Seq<char>| k.len() == 3 ==> c@ != k);
        return None;
    }
    let (a, b, d) = (c[0], c[1], c[2]);
    assert(c@ == seq![a, b, d]);
    if a == 'J' && b == 'a' && d == 'n' {
        Some(1)
    } else if a == 'F' && b == 'e' && d == 'b' {
        Some(2)
    } else if a == 'M' && b == 'a' && d == 'r' {
        Some(3)
    } else if a == 'A' && b == 'p' && d == 'r' {
        Some(4)
    } else if a == 'M' && b == 'a' && d == 'y' {
        Some(5)
    } else if a == 'J' && b == 'u' && d == 'n' {
        Some(6)
    } else if a == 'J' && b == 'u' && d == 'l' {
        Some(7)
    } else if a == 'A' && b == 'u' && d == 'g' {
        Some(8)
    } else if a == 'S' && b == 'e' && d == 'p' {
        Some(9)
    } else if a == 'O' && b == 'c' && d == 't' {
        Some(10)
    } else if a == 'N' && b == 'o' && d == 'v' {
        Some(11)
    } else if a == 'D' && b == 'e' && d == 'c' {
        Some(12)
    } else {
        None
    }
}

pub fn previous_day(year: u32, month: u32, day: u32) -> (r: Result<(u32, u32, u32), String>)
    requires
        (month == 1 && day == 1) ==> year > 0,
    ensures
        match r {
            Ok((y, m, d)) => {
                &&& is_calendar_date(year as int, month as int, day as int)
                &&& (y as int, m as int, d as int) == day_before(
                    year as int,
                    month as int,
                    day as int,
                )
            },
            Err(e) => {
                &&& !is_calendar_date(year as int, month as int, day as int)
                &&& e@ == (if month_in_range(month as int) {
                    "Invalid day"@
                } else {
                    "Invalid month"@
                })
            },
        },
{
    if month == 0 || month > 12 {
        return Err(owned("Invalid month"));
    }
    let max_day = month_days(year, month);
    if day == 0 || day > max_day {
        return Err(owned("Invalid day"));
    }
    if day > 1 {
        return Ok((year, month, day - 1));
    }
    if month == 1 {
        return Ok((year - 1, 12, 31));
    }
    let previous_month = month - 1;
    let last_day = month_days(year, previous_month);
    Ok((year, previous_month, last_day))
}

} // verus!
