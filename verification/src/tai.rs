//! TAI (Temps Atomique International) interoperability.
//!
//! TAI is a continuous time scale with no leap seconds, so it never displays
//! second 60. UTC differs from TAI by an integer number of seconds that grows by
//! one at each leap second insertion. TAI-UTC offsets come from the
//! leap second table (see `leap_second`).
//!
//! During a positive leap second (23:59:60) the UTC day is one second longer
//! while TAI keeps counting, so the leap second maps to a regular TAI second
//! whose UTC representation is second 60.
use vstd::prelude::*;
use crate::calendar::{
    dated, lemma_date_for_julian_day, lemma_julian_previous,
    date_of_julian_day, first_julian_day, julian_day, julian_day_number, last_julian_day,
    lemma_julian_day_injective, lemma_supported_julian_range, supported_date, CalendarError,
    UNIX_EPOCH_JULIAN_DAY,
};
use crate::leap_second::{built_in_leap_second_entries, leap_table, LeapSeconds};
use crate::util::is_calendar_date;
use crate::reversal::valid_clock;
use crate::leap_second::leap_day_of;
use crate::precision::Precision;
use crate::text::owned;
use crate::time_point::TimePoint;
use crate::time_zone::TimeZone;
use crate::unix::{calendar_error_text, read_fields};

verus! {

/// Seconds between the NTP epoch 1900-01-01 and the Unix epoch 1970-01-01.
pub const NTP_EPOCH_SECONDS: i64 = 2_208_988_800;

/// TAI-UTC offset before the first table entry.
pub const DEFAULT_OFFSET: u32 = 10;

/// Seconds since the Unix epoch of a point's wall clock, every day counted as 86 400
/// seconds, or the error text of an invalid date. Hour, minute and second are taken as they
/// are: second 60 counts as the first second of the next day.
pub open spec fn linear_seconds(point: TimePoint) -> Result<int, Seq<char>> {
    let f = read_fields(point);
    if !(1 <= f.1 <= 12) {
        Err(calendar_error_text(CalendarError::Month))
    } else if !supported_date(f.0, f.1, f.2) {
        Err(calendar_error_text(CalendarError::Date))
    } else {
        Ok(
            (julian_day(f.0, f.1, f.2) - UNIX_EPOCH_JULIAN_DAY) * 86400 + point.hour * 3600
                + point.minute * 60 + point.second,
        )
    }
}

/// The date whose Julian day number is `jd`.
pub open spec fn date_with_julian_day(jd: int) -> (int, int, int) {
    choose|d: (int, int, int)| #[trigger] dated(d, jd)
}

/// Whether linear seconds `s` fall on a supported date.
pub open spec fn linear_in_range(s: int) -> bool {
    first_julian_day() <= s / 86400 + UNIX_EPOCH_JULIAN_DAY <= last_julian_day()
}

/// The UTC point at second precision whose wall clock lies `s` linear seconds after the
/// Unix epoch.
pub open spec fn point_at_linear(s: int) -> TimePoint {
    let date = date_with_julian_day(s / 86400 + UNIX_EPOCH_JULIAN_DAY);
    let rem = s % 86400;
    TimePoint {
        year: date.0 as u32,
        month: date.1 as u32,
        day: date.2 as u32,
        hour: (rem / 3600) as u32,
        minute: ((rem % 3600) / 60) as u32,
        second: (rem % 60) as u32,
        millisecond: 0,
        precision: Precision::Second,
        zone: TimeZone::UTC,
        uncertainty: None,
    }
}

/// The offset of the last entry of the longest run of leading entries that pass `passes`, or
/// the default offset when the first entry fails.
pub open spec fn leading_offset(entries: Seq<(u64, u32)>, k: int) -> u32 {
    if k == 0 {
        DEFAULT_OFFSET
    } else {
        entries[k - 1].1
    }
}

/// `k` is the number of leading entries whose timestamp is at or before `ntp`.
pub open spec fn utc_run(entries: Seq<(u64, u32)>, ntp: int, k: int) -> bool {
    &&& 0 <= k <= entries.len()
    &&& forall|i: int| 0 <= i < k ==> (#[trigger] entries[i]).0 as i64 <= ntp
    &&& k < entries.len() ==> entries[k].0 as i64 > ntp
}

/// `k` is the number of leading entries whose offset is in force by TAI count `ntp`.
pub open spec fn tai_run(entries: Seq<(u64, u32)>, ntp: int, k: int) -> bool {
    &&& 0 <= k <= entries.len()
    &&& forall|i: int|
        0 <= i < k ==> (#[trigger] entries[i]).0 as i64 + entries[i].1 <= ntp
    &&& k < entries.len() ==> entries[k].0 as i64 + entries[k].1 > ntp
}

/// The table as (timestamp, offset) pairs.
pub open spec fn offset_table() -> Seq<(u64, u32)> {
    leap_table().map_values(|e: crate::leap_second::LeapEntry| (e.ntp, e.offset))
}

/// The TAI-UTC offset that `entries` put in force at NTP instant `ntp` of UTC.
pub open spec fn utc_offset_in(entries: Seq<(u64, u32)>, ntp: int) -> u32 {
    leading_offset(entries, choose|k: int| utc_run(entries, ntp, k))
}

/// The TAI-UTC offset that `entries` put in force at TAI count `ntp`.
pub open spec fn tai_offset_in(entries: Seq<(u64, u32)>, ntp: int) -> u32 {
    leading_offset(entries, choose|k: int| tai_run(entries, ntp, k))
}

/// The TAI-UTC offset in force at NTP instant `ntp` of UTC.
pub open spec fn utc_offset_at(ntp: int) -> u32 {
    utc_offset_in(offset_table(), ntp)
}

/// The TAI-UTC offset in force at TAI count `ntp`.
pub open spec fn tai_offset_at(ntp: int) -> u32 {
    tai_offset_in(offset_table(), ntp)
}

/// The run length of a scan is unique.
proof fn lemma_utc_run_unique(entries: Seq<(u64, u32)>, ntp: int, k1: int, k2: int)
    requires
        utc_run(entries, ntp, k1),
        utc_run(entries, ntp, k2),
    ensures
        k1 == k2,
{
    if k1 < k2 {
        assert(entries[k1].0 as i64 <= ntp);
    } else if k2 < k1 {
        assert(entries[k2].0 as i64 <= ntp);
    }
}

proof fn lemma_tai_run_unique(entries: Seq<(u64, u32)>, ntp: int, k1: int, k2: int)
    requires
        tai_run(entries, ntp, k1),
        tai_run(entries, ntp, k2),
    ensures
        k1 == k2,
{
    if k1 < k2 {
        assert(entries[k1].0 as i64 + entries[k1].1 <= ntp);
    } else if k2 < k1 {
        assert(entries[k2].0 as i64 + entries[k2].1 <= ntp);
    }
}

pub(crate) fn to_linear_seconds(point: &TimePoint) -> (r: Result<i64, String>)
    ensures
        match linear_seconds(*point) {
            Ok(s) => r matches Ok(v) && v as int == s,
            Err(msg) => r matches Err(e) && e@ == msg,
        },
        r matches Ok(v) ==> -1_000_000_000_000_000 <= v <= 1_000_000_000_000_000,
{
    let jd = match julian_day_number(point.year as i32, point.month as u8, point.day as u8) {
        Ok(jd) => jd,
        Err(CalendarError::Month) => return Err(owned("Invalid month")),
        Err(_) => return Err(owned("Invalid date")),
    };
    proof {
        let f = read_fields(*point);
        lemma_supported_julian_range(f.0, f.1, f.2);
    }
    let days = jd as i64 - UNIX_EPOCH_JULIAN_DAY as i64;
    let mut seconds = days * 86_400;
    seconds = seconds + point.hour as i64 * 3_600;
    seconds = seconds + point.minute as i64 * 60;
    seconds = seconds + point.second as i64;
    Ok(seconds)
}

fn from_linear_seconds(seconds: i64) -> (r: TimePoint)
    requires
        linear_in_range(seconds as int),
    ensures
        r == point_at_linear(seconds as int),
{
    let days = if seconds % 86_400 < 0 {
        seconds / 86_400 - 1
    } else {
        seconds / 86_400
    };
    let remainder = seconds - days * 86_400;
    proof {
        vstd::arithmetic::div_mod::lemma_fundamental_div_mod_converse(
            seconds as int,
            86400,
            days as int,
            remainder as int,
        );
    }
    let (year, month, day) = match date_of_julian_day(days as i32 + UNIX_EPOCH_JULIAN_DAY) {
        Some(d) => d,
        None => {
            assert(false);
            (0, 1, 1)
        },
    };
    proof {
        let jd = days + UNIX_EPOCH_JULIAN_DAY;
        let chosen = date_with_julian_day(jd);
        assert(dated((year as int, month as int, day as int), jd));
        lemma_julian_day_injective(
            chosen.0,
            chosen.1,
            chosen.2,
            year as int,
            month as int,
            day as int,
        );
    }
    TimePoint {
        year: year as u32,
        month: month as u32,
        day: day as u32,
        hour: (remainder / 3_600) as u32,
        minute: ((remainder % 3_600) / 60) as u32,
        second: (remainder % 60) as u32,
        millisecond: 0,
        precision: Precision::Second,
        zone: TimeZone::UTC,
        uncertainty: None,
    }
}

/// Offset (DTAI = TAI - UTC) valid at the given NTP instant, using the
/// last entry whose timestamp is at or before it.
fn offset_at_or_before(entries: &Vec<(u64, u32)>, ntp: i64) -> (r: u32)
    ensures
        exists|k: int| utc_run(entries@, ntp as int, k) && r == leading_offset(entries@, k),
{
    let mut offset = DEFAULT_OFFSET;
    let mut i: usize = 0;
    while i < entries.len()
        invariant
            i <= entries.len(),
            forall|j: int| 0 <= j < i ==> (#[trigger] entries@[j]).0 as i64 <= ntp,
            offset == leading_offset(entries@, i as int),
        decreases entries.len() - i,
    {
        let (timestamp, next_offset) = entries[i];
        if timestamp as i64 <= ntp {
            offset = next_offset;
        } else {
            assert(utc_run(entries@, ntp as int, i as int));
            return offset;
        }
        i = i + 1;
    }
    assert(utc_run(entries@, ntp as int, i as int));
    offset
}

/// Offset valid at a TAI instant. An offset `N` begins at the physical instant
/// whose UTC representation is the entry timestamp `T`, which has the TAI
/// count `T + N`. Hence offset `N` applies for TAI counts >= T + N.
pub(crate) fn offset_valid_at_tai(entries: &Vec<(u64, u32)>, ntp: i64) -> (r: u32)
    ensures
        exists|k: int| tai_run(entries@, ntp as int, k) && r == leading_offset(entries@, k),
{
    let mut offset = DEFAULT_OFFSET;
    let mut i: usize = 0;
    while i < entries.len()
        invariant
            i <= entries.len(),
            forall|j: int|
                0 <= j < i ==> (#[trigger] entries@[j]).0 as i64 + entries@[j].1 <= ntp,
            offset == leading_offset(entries@, i as int),
        decreases entries.len() - i,
    {
        let (timestamp, next_offset) = entries[i];
        if (timestamp as i64) as i128 + next_offset as i128 <= ntp as i128 {
            offset = next_offset;
        } else {
            assert(tai_run(entries@, ntp as int, i as int));
            return offset;
        }
        i = i + 1;
    }
    assert(tai_run(entries@, ntp as int, i as int));
    offset
}

proof fn lemma_entries_are_table(entries: Seq<(u64, u32)>)
    requires
        entries.len() == leap_table().len(),
        forall|i: int|
            0 <= i < entries.len() ==> #[trigger] entries[i] == (
                leap_table()[i].ntp,
                leap_table()[i].offset,
            ),
    ensures
        entries == offset_table(),
{
    assert(entries =~= offset_table());
}


/// The TAI-UTC offset that `entries` give a UTC or TAI point, or the text of the reason there is none. A UTC
/// leap second still has the offset in force before it.
pub open spec fn offset_of_with(entries: Seq<(u64, u32)>, point: TimePoint) -> Result<u32, Seq<char>> {
    match point.zone {
        TimeZone::UTC => match linear_seconds(point) {
            Err(msg) => Err(msg),
            Ok(l) => Ok(
                utc_offset_in(entries, 
                    l + NTP_EPOCH_SECONDS - (if point.second == 60 {
                        1int
                    } else {
                        0int
                    }),
                ),
            ),
        },
        TimeZone::TAI => match linear_seconds(point) {
            Err(msg) => Err(msg),
            Ok(l) => Ok(tai_offset_in(entries, l + NTP_EPOCH_SECONDS)),
        },
        TimeZone::Unix => Err("A Unix TimePoint has no TAI-UTC relationship without UTC context"@),
        TimeZone::Fixed { .. } => Err(
            "A fixed-offset TimePoint must be converted to UTC before TAI conversion"@,
        ),
    }
}

/// The TAI-UTC offset of a UTC or TAI point, or the text of the reason there is none.
pub open spec fn tai_utc_offset_of(point: TimePoint) -> Result<u32, Seq<char>> {
    offset_of_with(offset_table(), point)
}

/// Whether a computed result matches an expected one, errors compared by their text.
pub open spec fn result_matches<T>(r: Result<T, String>, expected: Result<T, Seq<char>>) -> bool {
    match expected {
        Ok(v) => r == Ok::<T, String>(v),
        Err(msg) => r matches Err(e) && e@ == msg,
    }
}

/// The TAI point of a UTC point under the offsets of `entries`, or the text of the reason there is none.
pub open spec fn tai_of_with(entries: Seq<(u64, u32)>, point: TimePoint) -> Result<TimePoint, Seq<char>> {
    if point.zone != TimeZone::UTC {
        Err("utc_to_tai requires a UTC TimePoint"@)
    } else {
        match linear_seconds(point) {
            Err(msg) => Err(msg),
            Ok(l) => Ok(
                TimePoint {
                    precision: point.precision,
                    zone: TimeZone::TAI,
                    ..point_at_linear(l + offset_of_with(entries, point)->Ok_0)
                },
            ),
        }
    }
}

/// Whether the UTC instant `u` (linear seconds) falls on an offset change that the TAI count
/// `ntp` has not reached yet: then `u` is shown as the leap second 23:59:60 before it.
pub open spec fn in_leap_second_with(entries: Seq<(u64, u32)>, u: int, ntp: int) -> bool {
    exists|i: int|
        0 <= i < entries.len() && #[trigger] entries[i].0 as i64 == u + NTP_EPOCH_SECONDS
            && entries[i].0 as i64 + entries[i].1 > ntp
}

/// The UTC point of a TAI point under the offsets of `entries`, or the text of the reason there is none.
pub open spec fn utc_of_with(entries: Seq<(u64, u32)>, point: TimePoint) -> Result<TimePoint, Seq<char>> {
    if point.zone != TimeZone::TAI {
        Err("tai_to_utc requires a TAI TimePoint"@)
    } else {
        match linear_seconds(point) {
            Err(msg) => Err(msg),
            Ok(l) => {
                let ntp = l + NTP_EPOCH_SECONDS;
                let u = l - tai_offset_in(entries, ntp);
                if in_leap_second_with(entries, u, ntp) {
                    Ok(
                        TimePoint {
                            second: 60,
                            precision: point.precision,
                            zone: TimeZone::UTC,
                            ..point_at_linear(u - 1)
                        },
                    )
                } else {
                    Ok(TimePoint { precision: point.precision, zone: TimeZone::UTC, ..point_at_linear(u) })
                }
            },
        }
    }
}

/// Whether converting a UTC point to TAI stays on supported dates.
pub open spec fn tai_convertible_with(entries: Seq<(u64, u32)>, point: TimePoint) -> bool {
    point.zone == TimeZone::UTC && linear_seconds(point) is Ok ==> linear_in_range(
        linear_seconds(point)->Ok_0 + offset_of_with(entries, point)->Ok_0,
    )
}

/// Whether converting a TAI point to UTC stays on supported dates.
pub open spec fn utc_convertible_with(entries: Seq<(u64, u32)>, point: TimePoint) -> bool {
    point.zone == TimeZone::TAI && linear_seconds(point) is Ok ==> {
        let l = linear_seconds(point)->Ok_0;
        let u = l - tai_offset_in(entries, l + NTP_EPOCH_SECONDS);
        linear_in_range(u) && (in_leap_second_with(entries, u, l + NTP_EPOCH_SECONDS) ==> linear_in_range(u - 1))
    }
}

/// The TAI point of a UTC point, or the text of the reason there is none.
pub open spec fn tai_of(point: TimePoint) -> Result<TimePoint, Seq<char>> {
    tai_of_with(offset_table(), point)
}

/// Whether the UTC instant `u` (linear seconds) is shown as the leap second before an offset
/// change of the table that the TAI count `ntp` has not reached yet.
pub open spec fn in_leap_second(u: int, ntp: int) -> bool {
    in_leap_second_with(offset_table(), u, ntp)
}

/// The UTC point of a TAI point, or the text of the reason there is none.
pub open spec fn utc_of(point: TimePoint) -> Result<TimePoint, Seq<char>> {
    utc_of_with(offset_table(), point)
}

/// Whether converting a UTC point to TAI stays on supported dates.
pub open spec fn tai_convertible(point: TimePoint) -> bool {
    tai_convertible_with(offset_table(), point)
}

/// Whether converting a TAI point to UTC stays on supported dates.
pub open spec fn utc_convertible(point: TimePoint) -> bool {
    utc_convertible_with(offset_table(), point)
}

/// The built-in table as (timestamp, offset) pairs, in time order.
pub(crate) fn table_offsets() -> (v: Vec<(u64, u32)>)
    ensures
        v@ == offset_table(),
{
    let v = built_in_leap_second_entries();
    proof {
        lemma_entries_are_table(v@);
    }
    v
}

/// The built-in leap-second list; its entries are the table's.
fn built_in_list() -> (r: LeapSeconds)
    ensures
        r.entry_seq() == offset_table(),
{
    let r = LeapSeconds::built_in();
    proof {
        lemma_entries_are_table(r.entry_seq());
    }
    r
}

/// The TAI-UTC offset (DTAI) in seconds that the leap-second list `table` gives the instant a
/// TimePoint represents.
///
/// Accepts a UTC or TAI TimePoint. For a UTC leap second (second 60) the
/// offset still equals the pre-transition value: the new offset only applies
/// from the following 00:00:00.
pub fn tai_utc_offset_with(table: &LeapSeconds, point: &TimePoint) -> (r: Result<u32, String>)
    ensures
        result_matches(r, offset_of_with(table.entry_seq(), *point)),
{
    let entries = table.entries();
    match point.zone {
        TimeZone::UTC => {
            let mut ntp = match to_linear_seconds(point) {
                Ok(l) => l + NTP_EPOCH_SECONDS,
                Err(e) => return Err(e),
            };
            if point.second == 60 {
                ntp = ntp - 1;
            }
            let offset = offset_at_or_before(entries, ntp);
            proof {
                let k = choose|k: int| utc_run(entries@, ntp as int, k) && offset == leading_offset(entries@, k);
                let k2 = choose|k: int| utc_run(entries@, ntp as int, k);
                lemma_utc_run_unique(entries@, ntp as int, k, k2);
            }
            Ok(offset)
        },
        TimeZone::TAI => {
            let ntp = match to_linear_seconds(point) {
                Ok(l) => l + NTP_EPOCH_SECONDS,
                Err(e) => return Err(e),
            };
            let offset = offset_valid_at_tai(entries, ntp);
            proof {
                let k = choose|k: int| tai_run(entries@, ntp as int, k) && offset == leading_offset(entries@, k);
                let k2 = choose|k: int| tai_run(entries@, ntp as int, k);
                lemma_tai_run_unique(entries@, ntp as int, k, k2);
            }
            Ok(offset)
        },
        TimeZone::Unix => Err(owned("A Unix TimePoint has no TAI-UTC relationship without UTC context")),
        TimeZone::Fixed { .. } => Err(
            owned("A fixed-offset TimePoint must be converted to UTC before TAI conversion"),
        ),
    }
}

/// The TAI-UTC offset (DTAI) in seconds for the instant a TimePoint represents, by the
/// built-in leap-second list.
///
/// Accepts a UTC or TAI TimePoint. For a UTC leap second (second 60) the
/// offset still equals the pre-transition value: the new offset only applies
/// from the following 00:00:00.
pub fn tai_utc_offset(point: &TimePoint) -> (r: Result<u32, String>)
    ensures
        result_matches(r, tai_utc_offset_of(*point)),
{
    tai_utc_offset_with(&built_in_list(), point)
}

/// The TAI-UTC offset in seconds; the same as `tai_utc_offset`.
pub fn tai_utc_offset_seconds(point: &TimePoint) -> (r: Result<u32, String>)
    ensures
        result_matches(r, tai_utc_offset_of(*point)),
{
    tai_utc_offset(point)
}

/// Converts a UTC TimePoint to its corresponding TAI TimePoint under the leap-second list
/// `table`.
///
/// Leap seconds are absorbed by the offset: the UTC leap second 23:59:60 maps
/// to a regular TAI second. The precision is preserved.
pub fn utc_to_tai_with(table: &LeapSeconds, point: &TimePoint) -> (r: Result<TimePoint, String>)
    requires
        tai_convertible_with(table.entry_seq(), *point),
    ensures
        result_matches(r, tai_of_with(table.entry_seq(), *point)),
{
    if point.zone != TimeZone::UTC {
        return Err(owned("utc_to_tai requires a UTC TimePoint"));
    }
    let offset = match tai_utc_offset_with(table, point) {
        Ok(o) => o,
        Err(e) => return Err(e),
    };
    let linear = match to_linear_seconds(point) {
        Ok(l) => l,
        Err(e) => return Err(e),
    };
    let tai = from_linear_seconds(linear + offset as i64);
    Ok(TimePoint { precision: point.precision, zone: TimeZone::TAI, ..tai })
}

/// Converts a UTC TimePoint to its corresponding TAI TimePoint.
///
/// Leap seconds are absorbed by the offset: the UTC leap second 23:59:60 maps
/// to a regular TAI second. The precision is preserved.
pub fn utc_to_tai(point: &TimePoint) -> (r: Result<TimePoint, String>)
    requires
        tai_convertible(*point),
    ensures
        result_matches(r, tai_of(*point)),
{
    utc_to_tai_with(&built_in_list(), point)
}

/// Converts a TAI TimePoint to its corresponding UTC TimePoint under the leap-second list
/// `table`.
///
/// TAI never displays second 60; the TAI second that falls during a leap
/// second converts back to UTC 23:59:60. The precision is preserved.
pub fn tai_to_utc_with(table: &LeapSeconds, point: &TimePoint) -> (r: Result<TimePoint, String>)
    requires
        utc_convertible_with(table.entry_seq(), *point),
    ensures
        result_matches(r, utc_of_with(table.entry_seq(), *point)),
{
    if point.zone != TimeZone::TAI {
        return Err(owned("tai_to_utc requires a TAI TimePoint"));
    }
    let entries = table.entries();
    let linear = match to_linear_seconds(point) {
        Ok(l) => l,
        Err(e) => return Err(e),
    };
    let ntp = linear + NTP_EPOCH_SECONDS;
    let offset = offset_valid_at_tai(entries, ntp);
    proof {
        let k = choose|k: int| tai_run(entries@, ntp as int, k) && offset == leading_offset(entries@, k);
        let k2 = choose|k: int| tai_run(entries@, ntp as int, k);
        lemma_tai_run_unique(entries@, ntp as int, k, k2);
    }
    let utc_linear = linear - offset as i64;
    if shows_leap_second(entries, utc_linear, ntp) {
        let leap = from_linear_seconds(utc_linear - 1);
        return Ok(TimePoint { second: 60, precision: point.precision, zone: TimeZone::UTC, ..leap });
    }
    let utc = from_linear_seconds(utc_linear);
    Ok(TimePoint { precision: point.precision, zone: TimeZone::UTC, ..utc })
}

/// Converts a TAI TimePoint to its corresponding UTC TimePoint.
///
/// TAI never displays second 60; the TAI second that falls during a leap
/// second converts back to UTC 23:59:60. The precision is preserved.
pub fn tai_to_utc(point: &TimePoint) -> (r: Result<TimePoint, String>)
    requires
        utc_convertible(*point),
    ensures
        result_matches(r, utc_of(*point)),
{
    tai_to_utc_with(&built_in_list(), point)
}

/// The rows of the table are in order: each timestamp is midnight UTC at the start of its
/// row's day, a first of the month, and the offsets run 10, 11, 12, ... from the first row.
proof fn lemma_table_rows()
    ensures
        leap_table().len() == 28,
        forall|i: int|
            0 <= i < 28 ==> {
                let e = #[trigger] leap_table()[i];
                &&& e.offset == 10 + i
                &&& e.day == 1
                &&& is_calendar_date(e.year as int, e.month as int, e.day as int)
                &&& 1972 <= e.year <= 2017
                &&& e.ntp == NTP_EPOCH_SECONDS + (julian_day(e.year as int, e.month as int, 1)
                    - UNIX_EPOCH_JULIAN_DAY) * 86400
            },
        forall|i: int| 0 < i < 28 ==> (#[trigger] leap_table()[i]).ntp > leap_table()[i - 1].ntp,
{
    let t = leap_table();
    assert(t[0].ntp == NTP_EPOCH_SECONDS + (julian_day(1972, 1, 1) - UNIX_EPOCH_JULIAN_DAY) * 86400);
    assert(t[1].ntp == NTP_EPOCH_SECONDS + (julian_day(1972, 7, 1) - UNIX_EPOCH_JULIAN_DAY) * 86400);
    assert(t[2].ntp == NTP_EPOCH_SECONDS + (julian_day(1973, 1, 1) - UNIX_EPOCH_JULIAN_DAY) * 86400);
    assert(t[3].ntp == NTP_EPOCH_SECONDS + (julian_day(1974, 1, 1) - UNIX_EPOCH_JULIAN_DAY) * 86400);
    assert(t[4].ntp == NTP_EPOCH_SECONDS + (julian_day(1975, 1, 1) - UNIX_EPOCH_JULIAN_DAY) * 86400);
    assert(t[5].ntp == NTP_EPOCH_SECONDS + (julian_day(1976, 1, 1) - UNIX_EPOCH_JULIAN_DAY) * 86400);
    assert(t[6].ntp == NTP_EPOCH_SECONDS + (julian_day(1977, 1, 1) - UNIX_EPOCH_JULIAN_DAY) * 86400);
    assert(t[7].ntp == NTP_EPOCH_SECONDS + (julian_day(1978, 1, 1) - UNIX_EPOCH_JULIAN_DAY) * 86400);
    assert(t[8].ntp == NTP_EPOCH_SECONDS + (julian_day(1979, 1, 1) - UNIX_EPOCH_JULIAN_DAY) * 86400);
    assert(t[9].ntp == NTP_EPOCH_SECONDS + (julian_day(1980, 1, 1) - UNIX_EPOCH_JULIAN_DAY) * 86400);
    assert(t[10].ntp == NTP_EPOCH_SECONDS + (julian_day(1981, 7, 1) - UNIX_EPOCH_JULIAN_DAY) * 86400);
    assert(t[11].ntp == NTP_EPOCH_SECONDS + (julian_day(1982, 7, 1) - UNIX_EPOCH_JULIAN_DAY) * 86400);
    assert(t[12].ntp == NTP_EPOCH_SECONDS + (julian_day(1983, 7, 1) - UNIX_EPOCH_JULIAN_DAY) * 86400);
    assert(t[13].ntp == NTP_EPOCH_SECONDS + (julian_day(1985, 7, 1) - UNIX_EPOCH_JULIAN_DAY) * 86400);
    assert(t[14].ntp == NTP_EPOCH_SECONDS + (julian_day(1988, 1, 1) - UNIX_EPOCH_JULIAN_DAY) * 86400);
    assert(t[15].ntp == NTP_EPOCH_SECONDS + (julian_day(1990, 1, 1) - UNIX_EPOCH_JULIAN_DAY) * 86400);
    assert(t[16].ntp == NTP_EPOCH_SECONDS + (julian_day(1991, 1, 1) - UNIX_EPOCH_JULIAN_DAY) * 86400);
    assert(t[17].ntp == NTP_EPOCH_SECONDS + (julian_day(1992, 7, 1) - UNIX_EPOCH_JULIAN_DAY) * 86400);
    assert(t[18].ntp == NTP_EPOCH_SECONDS + (julian_day(1993, 7, 1) - UNIX_EPOCH_JULIAN_DAY) * 86400);
    assert(t[19].ntp == NTP_EPOCH_SECONDS + (julian_day(1994, 7, 1) - UNIX_EPOCH_JULIAN_DAY) * 86400);
    assert(t[20].ntp == NTP_EPOCH_SECONDS + (julian_day(1996, 1, 1) - UNIX_EPOCH_JULIAN_DAY) * 86400);
    assert(t[21].ntp == NTP_EPOCH_SECONDS + (julian_day(1997, 7, 1) - UNIX_EPOCH_JULIAN_DAY) * 86400);
    assert(t[22].ntp == NTP_EPOCH_SECONDS + (julian_day(1999, 1, 1) - UNIX_EPOCH_JULIAN_DAY) * 86400);
    assert(t[23].ntp == NTP_EPOCH_SECONDS + (julian_day(2006, 1, 1) - UNIX_EPOCH_JULIAN_DAY) * 86400);
    assert(t[24].ntp == NTP_EPOCH_SECONDS + (julian_day(2009, 1, 1) - UNIX_EPOCH_JULIAN_DAY) * 86400);
    assert(t[25].ntp == NTP_EPOCH_SECONDS + (julian_day(2012, 7, 1) - UNIX_EPOCH_JULIAN_DAY) * 86400);
    assert(t[26].ntp == NTP_EPOCH_SECONDS + (julian_day(2015, 7, 1) - UNIX_EPOCH_JULIAN_DAY) * 86400);
    assert(t[27].ntp == NTP_EPOCH_SECONDS + (julian_day(2017, 1, 1) - UNIX_EPOCH_JULIAN_DAY) * 86400);
}

/// A year of the supported range survives the trip through the unsigned year field.
proof fn lemma_signed_year(x: i32)
    requires
        -9999 <= x <= 9999,
    ensures
        ((x as u32) as i32) == x,
{
    assert(-9999 <= x <= 9999 ==> ((x as u32) as i32) == x) by (bit_vector);
}

/// An unsigned year survives the trip through the signed reading.
proof fn lemma_unsigned_year(y: u32)
    ensures
        ((y as i32) as u32) == y,
{
    assert(((y as i32) as u32) == y) by (bit_vector);
}

/// A time of day splits back into its hour, minute and second.
proof fn lemma_time_of_day(hour: int, minute: int, second: int)
    requires
        0 <= hour < 24,
        0 <= minute < 60,
        0 <= second < 60,
    ensures
        ({
            let rem = hour * 3600 + minute * 60 + second;
            &&& 0 <= rem < 86400
            &&& rem / 3600 == hour
            &&& (rem % 3600) / 60 == minute
            &&& rem % 60 == second
        }),
{
    let rem = hour * 3600 + minute * 60 + second;
    vstd::arithmetic::div_mod::lemma_fundamental_div_mod_converse(rem, 3600, hour, minute * 60 + second);
    vstd::arithmetic::div_mod::lemma_fundamental_div_mod_converse(minute * 60 + second, 60, minute, second);
    vstd::arithmetic::div_mod::lemma_fundamental_div_mod_converse(rem, 60, hour * 60 + minute, second);
}

/// The point at linear seconds `s` is a valid second-precision UTC clock that reads back as
/// `s`.
pub proof fn lemma_linear_of_point(s: int)
    requires
        linear_in_range(s),
    ensures
        linear_seconds(point_at_linear(s)) == Ok::<int, Seq<char>>(s),
        point_at_linear(s).hour < 24,
        point_at_linear(s).minute < 60,
        point_at_linear(s).second < 60,
{
    let jd = s / 86400 + UNIX_EPOCH_JULIAN_DAY;
    lemma_date_for_julian_day(jd);
    let d = date_with_julian_day(jd);
    assert(dated(d, jd));
    let p = point_at_linear(s);
    let y: i32 = d.0 as i32;
    lemma_signed_year(y);
    let rem = s % 86400;
    vstd::arithmetic::div_mod::lemma_fundamental_div_mod(s, 86400);
    let h = rem / 3600;
    let mi = (rem % 3600) / 60;
    let se = rem % 60;
    vstd::arithmetic::div_mod::lemma_fundamental_div_mod(rem, 3600);
    vstd::arithmetic::div_mod::lemma_fundamental_div_mod(rem % 3600, 60);
    vstd::arithmetic::div_mod::lemma_mod_mod(rem, 60, 60);
    assert(rem % 3600 % 60 == rem % 60) by {
        vstd::arithmetic::div_mod::lemma_mod_mod(rem, 60, 60);
    }
    assert(rem == h * 3600 + mi * 60 + se);
    let f = read_fields(p);
    assert(f.0 == d.0);
    assert(f.1 == d.1 && f.2 == d.2);
    assert(linear_seconds(p) == Ok::<int, Seq<char>>(s));
}

/// The linear seconds of a valid clock, before second 60, lead back to the same clock.
pub proof fn lemma_point_of_linear(p: TimePoint)
    requires
        linear_seconds(p) is Ok,
        1 <= p.month <= 12,
        1 <= p.day <= 31,
        p.hour < 24,
        p.minute < 60,
        p.second < 60,
    ensures
        point_at_linear(linear_seconds(p)->Ok_0) == (TimePoint {
            millisecond: 0,
            precision: Precision::Second,
            zone: TimeZone::UTC,
            uncertainty: None,
            ..p
        }),
        linear_in_range(linear_seconds(p)->Ok_0),
{
    let f = read_fields(p);
    let l = linear_seconds(p)->Ok_0;
    let jd = julian_day(f.0, f.1, f.2);
    lemma_supported_julian_range(f.0, f.1, f.2);
    lemma_time_of_day(p.hour as int, p.minute as int, p.second as int);
    let tod = p.hour * 3600 + p.minute * 60 + p.second;
    vstd::arithmetic::div_mod::lemma_fundamental_div_mod_converse(l, 86400, jd - UNIX_EPOCH_JULIAN_DAY, tod);
    let d = date_with_julian_day(jd);
    assert(dated((f.0, f.1, f.2), jd));
    assert(dated(d, jd));
    lemma_julian_day_injective(d.0, d.1, d.2, f.0, f.1, f.2);
    lemma_unsigned_year(p.year);
}

/// The timestamps of the table strictly increase.
proof fn lemma_table_sorted(i: int, j: int)
    requires
        0 <= i < j < 28,
    ensures
        leap_table()[i].ntp < leap_table()[j].ntp,
    decreases j - i,
{
    lemma_table_rows();
    if i < j - 1 {
        lemma_table_sorted(i, j - 1);
    }
    assert(leap_table()[j].ntp > leap_table()[j - 1].ntp);
}

/// The number of leading entries from index `i` on whose timestamp is at or before `ntp`.
pub open spec fn scan_end(entries: Seq<(u64, u32)>, ntp: int, i: int) -> int
    decreases entries.len() - i,
{
    if 0 <= i < entries.len() && entries[i].0 as i64 <= ntp {
        scan_end(entries, ntp, i + 1)
    } else {
        i
    }
}

/// The scan over the leading entries at or before `ntp` ends somewhere.
proof fn lemma_scan_end(entries: Seq<(u64, u32)>, ntp: int, i: int)
    requires
        0 <= i <= entries.len(),
        forall|j: int| 0 <= j < i ==> (#[trigger] entries[j]).0 as i64 <= ntp,
    ensures
        utc_run(entries, ntp, scan_end(entries, ntp, i)),
    decreases entries.len() - i,
{
    if i < entries.len() && entries[i].0 as i64 <= ntp {
        lemma_scan_end(entries, ntp, i + 1);
    }
}

/// The offsets of the table run 10, 11, 12, ... and its timestamps are those of its rows.
proof fn lemma_offsets()
    ensures
        offset_table().len() == 28,
        forall|i: int| 0 <= i < 28 ==> (#[trigger] offset_table()[i]).1 == 10 + i,
        forall|i: int| 0 <= i < 28 ==> (#[trigger] offset_table()[i]).0 == leap_table()[i].ntp,
{
    lemma_table_rows();
}

/// A UTC clock before second 60 goes to TAI at the offset of its instant and back to itself.
#[verifier::spinoff_prover]
#[verifier::rlimit(40)]
proof fn lemma_tai_round_trip_regular(p: TimePoint)
    requires
        p.zone == TimeZone::UTC,
        valid_clock(p),
        p.second < 60,
        p.millisecond == 0,
        p.uncertainty is None,
        linear_seconds(p) is Ok,
        tai_convertible(p),
    ensures
        tai_of(p) is Ok,
        utc_convertible(tai_of(p)->Ok_0),
        utc_of(tai_of(p)->Ok_0) == Ok::<TimePoint, Seq<char>>(p),
{
    lemma_offsets();
    let table = offset_table();
    let l = linear_seconds(p)->Ok_0;
    lemma_point_of_linear(p);
    let ntp = l + NTP_EPOCH_SECONDS;
    lemma_scan_end(table, ntp, 0);
    let k = scan_end(table, ntp, 0);
    let k0 = choose|k: int| utc_run(table, ntp, k);
    lemma_utc_run_unique(table, ntp, k, k0);
    let o = leading_offset(table, k);
    assert(tai_utc_offset_of(p) == Ok::<u32, Seq<char>>(o));
    let tai = tai_of(p)->Ok_0;
    lemma_linear_of_point(l + o);
    assert(linear_seconds(tai) == Ok::<int, Seq<char>>(l + o));
    let m = ntp + o;
    assert(tai_run(table, m, k)) by {
        assert forall|j: int| 0 <= j < k implies (#[trigger] table[j]).0 as i64 + table[j].1 <= m by {
            assert(table[j].0 as i64 <= ntp);
        }
    }
    let k1 = choose|k: int| tai_run(table, m, k);
    lemma_tai_run_unique(table, m, k, k1);
    assert(tai_offset_at(m) == o);
    assert(!in_leap_second(l, m)) by {
        if in_leap_second(l, m) {
            let i = choose|i: int|
                0 <= i < table.len() && #[trigger] table[i].0 as i64 == l + NTP_EPOCH_SECONDS
                    && table[i].0 as i64 + table[i].1 > m;
            if i > k {
                lemma_table_sorted(k, i);
            }
        }
    }
}

/// The row after a leap second 23:59:60, other than the first row's, starts at the instant
/// the leap second reads as.
proof fn lemma_leap_row(p: TimePoint) -> (i: int)
    requires
        valid_clock(p),
        p.second == 60,
        linear_seconds(p) is Ok,
        !(p.year == 1971 && p.month == 12 && p.day == 31),
    ensures
        0 < i < 28,
        offset_table()[i].0 as i64 == linear_seconds(p)->Ok_0 + NTP_EPOCH_SECONDS,
{
    let i = choose|i: int|
        0 <= i < leap_table().len() && #[trigger] leap_day_of(leap_table()[i]) == Some(
            (p.year, p.month, p.day),
        );
    let e = leap_table()[i];
    lemma_table_rows();
    assert(e.day == 1 && 1972 <= e.year <= 2017);
    lemma_julian_previous(e.year as int, e.month as int, 1);
    lemma_offsets();
    i
}

/// The leap second 23:59:60 of a day that ends with one, after the first row, goes to TAI at
/// the offset before the change and back to itself.
proof fn lemma_tai_round_trip_leap(p: TimePoint)
    requires
        p.zone == TimeZone::UTC,
        valid_clock(p),
        p.second == 60,
        p.millisecond == 0,
        p.uncertainty is None,
        linear_seconds(p) is Ok,
        linear_in_range(linear_seconds(p)->Ok_0 - 1),
        tai_convertible(p),
        !(p.year == 1971 && p.month == 12 && p.day == 31),
    ensures
        tai_of(p) is Ok,
        utc_convertible(tai_of(p)->Ok_0),
        utc_of(tai_of(p)->Ok_0) == Ok::<TimePoint, Seq<char>>(p),
{
    lemma_offsets();
    let table = offset_table();
    let l = linear_seconds(p)->Ok_0;
    let q = TimePoint { second: 59, ..p };
    assert(linear_seconds(q) == Ok::<int, Seq<char>>(l - 1));
    lemma_point_of_linear(q);
    let i = lemma_leap_row(p);
    let ntp = l + NTP_EPOCH_SECONDS;
    let before = ntp - 1;
    assert(utc_run(table, before, i)) by {
        assert forall|j: int| 0 <= j < i implies (#[trigger] table[j]).0 as i64 <= before by {
            lemma_table_sorted(j, i);
        }
    }
    let k0 = choose|k: int| utc_run(table, before, k);
    lemma_utc_run_unique(table, before, i, k0);
    let o = leading_offset(table, i);
    assert(tai_utc_offset_of(p) == Ok::<u32, Seq<char>>(o));
    let tai = tai_of(p)->Ok_0;
    lemma_linear_of_point(l + o);
    assert(linear_seconds(tai) == Ok::<int, Seq<char>>(l + o));
    let m = ntp + o;
    assert(tai_run(table, m, i)) by {
        assert forall|j: int| 0 <= j < i implies (#[trigger] table[j]).0 as i64 + table[j].1 <= m by {
            lemma_table_sorted(j, i);
        }
    }
    let k1 = choose|k: int| tai_run(table, m, k);
    lemma_tai_run_unique(table, m, i, k1);
    assert(tai_offset_at(m) == o);
    assert(in_leap_second(l, m));
}

/// Converting a valid UTC point to TAI and back gives the point again. The conversions work
/// at whole seconds and keep no uncertainty, so the point has neither; and the leap second at
/// the end of 1971-12-31, before the first offset change of the table, is left out, since the
/// table gives no change there. The point and its TAI reading lie in the supported years, as
/// the conversions require.
pub proof fn lemma_tai_round_trip(p: TimePoint)
    requires
        p.zone == TimeZone::UTC,
        valid_clock(p),
        p.millisecond == 0,
        p.uncertainty is None,
        linear_seconds(p) is Ok,
        tai_convertible(p),
        !(p.second == 60 && p.year == 1971 && p.month == 12 && p.day == 31),
    ensures
        tai_of(p) is Ok,
        utc_convertible(tai_of(p)->Ok_0),
        utc_of(tai_of(p)->Ok_0) == Ok::<TimePoint, Seq<char>>(p),
{
    if p.second < 60 {
        lemma_tai_round_trip_regular(p);
    } else {
        lemma_tai_round_trip_leap(p);
    }
}

/// Whether linear seconds `s` fall on a supported date.
fn in_linear_range(s: i64) -> (r: bool)
    ensures
        r == linear_in_range(s as int),
{
    let days = if s % 86_400 < 0 {
        s / 86_400 - 1
    } else {
        s / 86_400
    };
    proof {
        vstd::arithmetic::div_mod::lemma_fundamental_div_mod_converse(
            s as int,
            86400,
            days as int,
            s - days * 86400,
        );
        lemma_supported_julian_range(crate::calendar::MIN_YEAR as int, 1, 1);
    }
    -1_930_999 <= days + 2_440_588 && days + 2_440_588 <= 5_373_484
}

/// Whether `utc_to_tai_with(table, point)` can be computed: the TAI reading falls on a
/// supported date.
pub fn fits_tai_with(table: &LeapSeconds, point: &TimePoint) -> (r: bool)
    ensures
        r == tai_convertible_with(table.entry_seq(), *point),
{
    if point.zone != TimeZone::UTC {
        return true;
    }
    let linear = match to_linear_seconds(point) {
        Ok(l) => l,
        Err(_) => return true,
    };
    let offset = match tai_utc_offset_with(table, point) {
        Ok(o) => o,
        Err(_) => return true,
    };
    in_linear_range(linear + offset as i64)
}

/// Whether `utc_to_tai` can be computed for `point`: the TAI reading falls on a supported
/// date.
pub fn fits_tai(point: &TimePoint) -> (r: bool)
    ensures
        r == tai_convertible(*point),
{
    fits_tai_with(&built_in_list(), point)
}

/// Whether `tai_to_utc_with(table, point)` can be computed: the UTC reading falls on a
/// supported date, and so does the second before it when the reading is a leap second.
pub fn fits_utc_with(table: &LeapSeconds, point: &TimePoint) -> (r: bool)
    ensures
        r == utc_convertible_with(table.entry_seq(), *point),
{
    if point.zone != TimeZone::TAI {
        return true;
    }
    let linear = match to_linear_seconds(point) {
        Ok(l) => l,
        Err(_) => return true,
    };
    let entries = table.entries();
    let ntp = linear + NTP_EPOCH_SECONDS;
    let offset = offset_valid_at_tai(entries, ntp);
    proof {
        let k = choose|k: int| tai_run(entries@, ntp as int, k) && offset == leading_offset(entries@, k);
        let k2 = choose|k: int| tai_run(entries@, ntp as int, k);
        lemma_tai_run_unique(entries@, ntp as int, k, k2);
    }
    let utc_linear = linear - offset as i64;
    if !in_linear_range(utc_linear) {
        return false;
    }
    !shows_leap_second(entries, utc_linear, ntp) || in_linear_range(utc_linear - 1)
}

/// Whether `tai_to_utc` can be computed for `point`: the UTC reading falls on a supported
/// date, and so does the second before it when the reading is a leap second.
pub fn fits_utc(point: &TimePoint) -> (r: bool)
    ensures
        r == utc_convertible(*point),
{
    fits_utc_with(&built_in_list(), point)
}

/// Whether the UTC instant `u` is shown as a leap second at the TAI count `ntp`: an entry
/// changes the offset at `u` and its new offset has not been reached by `ntp`.
fn shows_leap_second(entries: &Vec<(u64, u32)>, u: i64, ntp: i64) -> (r: bool)
    requires
        -1_000_000_000_000_000 <= u <= 1_000_000_000_000_000,
        -1_000_000_000_000_000 <= ntp <= 1_000_000_000_000_000,
    ensures
        r == in_leap_second_with(entries@, u as int, ntp as int),
{
    let mut i: usize = 0;
    while i < entries.len()
        invariant
            i <= entries.len(),
            -1_000_000_000_000_000 <= u <= 1_000_000_000_000_000,
            -1_000_000_000_000_000 <= ntp <= 1_000_000_000_000_000,
            forall|j: int|
                0 <= j < i ==> !((#[trigger] entries@[j]).0 as i64 == u + NTP_EPOCH_SECONDS
                    && entries@[j].0 as i64 + entries@[j].1 > ntp),
        decreases entries.len() - i,
    {
        let (timestamp, next_offset) = entries[i];
        if timestamp as i64 == u + NTP_EPOCH_SECONDS && (timestamp as i64) as i128
            + next_offset as i128 > ntp as i128 {
            assert(entries@[i as int].0 as i64 == u + NTP_EPOCH_SECONDS);
            return true;
        }
        i = i + 1;
    }
    false
}

} // verus!
