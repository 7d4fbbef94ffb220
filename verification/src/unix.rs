//! Unix timestamp conversion.
//!
//! The Unix time scale counts whole seconds since the epoch (1970-01-01T00:00:00Z)
//! and cannot represent leap seconds. Therefore a TimePoint carrying second 60
//! cannot be converted to a Unix timestamp.
use vstd::prelude::*;
use crate::calendar::{
    calendar_error, clock_time, lemma_unix_seconds_bounds, lemma_unix_seconds_injective, supported_date, supported_timestamp,
    unix_seconds, utc_clock_of_timestamp, utc_unix_timestamp, CalendarError,
};
use crate::precision::Precision;
use crate::text::owned;
use crate::time_point::TimePoint;
use crate::time_zone::{zone_offset, TimeZone};
use crate::calendar::{lemma_julian_next, lemma_julian_previous};
use crate::conversion::{converted, reading_ok};
use crate::period::magnitude;
use crate::reversal::{lemma_backward_run_valid, lemma_forward_run_valid, valid_clock};
use crate::time_point::{
    can_add_seconds, can_sub_seconds, next_second, previous_second, second_back_ok,
    second_step_ok, seconds_after, seconds_before,
};

verus! {

/// Error text for a calendar component out of range.
pub open spec fn calendar_error_text(e: CalendarError) -> Seq<char> {
    match e {
        CalendarError::Month => "Invalid month"@,
        CalendarError::Date => "Invalid date"@,
        CalendarError::Time => "Invalid time"@,
    }
}

/// The fields of `point` as the calendar computations read them: year as a signed 32-bit
/// value, the other fields as bytes.
pub open spec fn read_fields(point: TimePoint) -> (int, int, int, int, int, int) {
    (
        (point.year as i32) as int,
        (point.month as u8) as int,
        (point.day as u8) as int,
        (point.hour as u8) as int,
        (point.minute as u8) as int,
        (point.second as u8) as int,
    )
}

/// The Unix timestamp of a point, or the text of the reason it has none. The wall clock is
/// read in the point's zone, so a fixed offset is taken off.
pub open spec fn unix_timestamp_of(point: TimePoint) -> Result<int, Seq<char>> {
    let f = read_fields(point);
    if point.second == 60 {
        Err("Unix timestamp cannot represent leap seconds"@)
    } else if point.zone == TimeZone::TAI {
        Err("TAI TimePoint must be converted to UTC before Unix conversion"@)
    } else {
        match calendar_error(f.0, f.1, f.2, f.3, f.4, f.5) {
            Some(e) => Err(calendar_error_text(e)),
            None => Ok(unix_seconds(f.0, f.1, f.2, f.3, f.4, f.5) - zone_offset(point.zone)->0),
        }
    }
}

/// Whether `r` is the UTC point at second precision whose wall clock has Unix time `ts`.
pub open spec fn clock_of_timestamp(r: TimePoint, ts: int) -> bool {
    &&& r.precision == Precision::Second
    &&& r.zone == TimeZone::UTC
    &&& r.uncertainty is None
    &&& r.millisecond == 0
    &&& exists|y: i32| #[trigger] clock_reads(r, y, ts)
}

/// The wall clock of `r`, with its year read as the signed year `y`, is a supported UTC clock
/// with Unix time `ts`.
pub open spec fn clock_reads(r: TimePoint, y: i32, ts: int) -> bool {
    &&& r.year == y as u32
    &&& supported_date(y as int, r.month as int, r.day as int)
    &&& clock_time(r.hour as int, r.minute as int, r.second as int)
    &&& unix_seconds(
        y as int,
        r.month as int,
        r.day as int,
        r.hour as int,
        r.minute as int,
        r.second as int,
    ) == ts
}

pub fn to_unix_timestamp(point: &TimePoint) -> (r: Result<i64, String>)
    ensures
        match unix_timestamp_of(*point) {
            Ok(ts) => r matches Ok(v) && v as int == ts,
            Err(msg) => r matches Err(e) && e@ == msg,
        },
{
    if point.second == 60 {
        return Err(owned("Unix timestamp cannot represent leap seconds"));
    }
    if point.zone == TimeZone::TAI {
        return Err(owned("TAI TimePoint must be converted to UTC before Unix conversion"));
    }
    let offset = match point.zone.utc_offset_seconds() {
        Ok(o) => o,
        Err(e) => return Err(e),
    };
    match utc_unix_timestamp(
        point.year as i32,
        point.month as u8,
        point.day as u8,
        point.hour as u8,
        point.minute as u8,
        point.second as u8,
    ) {
        Ok(ts) => {
            proof {
                let f = read_fields(*point);
                lemma_unix_seconds_bounds(f.0, f.1, f.2, f.3, f.4, f.5);
            }
            Ok(ts - offset)
        },
        Err(CalendarError::Month) => Err(owned("Invalid month")),
        Err(CalendarError::Date) => Err(owned("Invalid date")),
        Err(CalendarError::Time) => Err(owned("Invalid time")),
    }
}

/// The UTC wall clock of a Unix timestamp, at second precision.
pub fn from_unix_timestamp(ts: i64) -> (r: TimePoint)
    requires
        supported_timestamp(ts as int),
    ensures
        clock_of_timestamp(r, ts as int),
{
    let (year, month, day, hour, minute, second, nanosecond) = match utc_clock_of_timestamp(ts) {
        Some(c) => c,
        None => {
            assert(false);
            (0, 1, 1, 0, 0, 0, 0)
        },
    };
    let r = TimePoint {
        year: year as u32,
        month: month as u32,
        day: day as u32,
        hour: hour as u32,
        minute: minute as u32,
        second: second as u32,
        millisecond: nanosecond / 1_000_000,
        precision: Precision::Second,
        zone: TimeZone::UTC,
        uncertainty: None,
    };
    assert(clock_reads(r, year, ts as int));
    r
}


/// A Unix timestamp determines its UTC wall clock: at most one point denotes it.
pub proof fn lemma_clock_of_timestamp_unique(r1: TimePoint, r2: TimePoint, ts: int)
    requires
        clock_of_timestamp(r1, ts),
        clock_of_timestamp(r2, ts),
    ensures
        r1 == r2,
{
    let y1 = choose|y: i32| #[trigger] clock_reads(r1, y, ts);
    let y2 = choose|y: i32| #[trigger] clock_reads(r2, y, ts);
    lemma_unix_seconds_injective(
        y1 as int,
        r1.month as int,
        r1.day as int,
        r1.hour as int,
        r1.minute as int,
        r1.second as int,
        y2 as int,
        r2.month as int,
        r2.day as int,
        r2.hour as int,
        r2.minute as int,
        r2.second as int,
    );
}

/// The point read from a timestamp converts back to that timestamp.
pub proof fn lemma_timestamp_round_trip(r: TimePoint, ts: int)
    requires
        clock_of_timestamp(r, ts),
    ensures
        unix_timestamp_of(r) == Ok::<int, Seq<char>>(ts),
{
    let y = choose|y: i32| #[trigger] clock_reads(r, y, ts);
    let (month, day, hour, minute, second) = (r.month, r.day, r.hour, r.minute, r.second);
    assert((y as u32) as i32 == y) by (bit_vector);
    assert(month as u8 == month) by (bit_vector)
        requires
            month < 256u32;
    assert(day as u8 == day) by (bit_vector)
        requires
            day < 256u32;
    assert(hour as u8 == hour) by (bit_vector)
        requires
            hour < 256u32;
    assert(minute as u8 == minute) by (bit_vector)
        requires
            minute < 256u32;
    assert(second as u8 == second) by (bit_vector)
        requires
            second < 256u32;
}

/// A UTC point at second precision, on a supported day with no leap second, no millisecond and
/// no uncertainty, is the point read back from its own timestamp.
pub proof fn lemma_point_round_trip(t: TimePoint)
    requires
        t.zone == TimeZone::UTC,
        t.precision == Precision::Second,
        t.uncertainty is None,
        t.millisecond == 0,
        t.year <= 9999,
        supported_date(t.year as int, t.month as int, t.day as int),
        clock_time(t.hour as int, t.minute as int, t.second as int),
    ensures
        unix_timestamp_of(t) matches Ok(ts) && clock_of_timestamp(t, ts),
{
    let (year, month, day, hour, minute, second) = (t.year, t.month, t.day, t.hour, t.minute, t.second);
    assert(year as i32 == year) by (bit_vector)
        requires
            year <= 9999u32;
    assert((year as i32) as u32 == year) by (bit_vector)
        requires
            year <= 9999u32;
    assert(month as u8 == month) by (bit_vector)
        requires
            month < 256u32;
    assert(day as u8 == day) by (bit_vector)
        requires
            day < 256u32;
    assert(hour as u8 == hour) by (bit_vector)
        requires
            hour < 256u32;
    assert(minute as u8 == minute) by (bit_vector)
        requires
            minute < 256u32;
    assert(second as u8 == second) by (bit_vector)
        requires
            second < 256u32;
    let ts = unix_timestamp_of(t)->Ok_0;
    assert(clock_reads(t, year as i32, ts));
}


/// The point `add_seconds_fast` gives: the wall clock `seconds` later, read through Unix time.
pub open spec fn fast_shift_result(r: TimePoint, t: TimePoint, ts: int) -> bool {
    &&& r.precision == t.precision
    &&& r.zone == t.zone
    &&& r.uncertainty == t.uncertainty
    &&& clock_of_timestamp(
        TimePoint { precision: Precision::Second, zone: TimeZone::UTC, uncertainty: None, ..r },
        ts,
    )
}

impl TimePoint {
    pub fn to_unix_timestamp(&self) -> (r: Result<i64, String>)
        ensures
            match unix_timestamp_of(*self) {
                Ok(ts) => r matches Ok(v) && v as int == ts,
                Err(msg) => r matches Err(e) && e@ == msg,
            },
    {
        to_unix_timestamp(self)
    }

    pub fn from_unix_timestamp(ts: i64) -> (r: Self)
        requires
            supported_timestamp(ts as int),
        ensures
            clock_of_timestamp(r, ts as int),
    {
        from_unix_timestamp(ts)
    }

    /// Adds seconds by way of Unix time: leap seconds are not counted. Precision, zone and
    /// uncertainty are kept.
    pub fn add_seconds_fast(&self, seconds: u64) -> (r: Result<Self, String>)
        requires
            unix_timestamp_of(*self) is Ok ==> supported_timestamp(
                unix_timestamp_of(*self)->Ok_0 + zone_offset(self.zone)->0 + (seconds as i64),
            ),
        ensures
            match unix_timestamp_of(*self) {
                Ok(ts) => r matches Ok(p) && fast_shift_result(
                    p,
                    *self,
                    ts + zone_offset(self.zone)->0 + (seconds as i64),
                ),
                Err(msg) => r matches Err(e) && e@ == msg,
            },
    {
        let ts = match self.to_unix_timestamp() {
            Ok(ts) => ts,
            Err(e) => return Err(e),
        };
        let offset = match self.zone.utc_offset_seconds() {
            Ok(o) => o,
            Err(e) => return Err(e),
        };
        let shifted = TimePoint::from_unix_timestamp(ts + offset + seconds as i64);
        let result = TimePoint {
            precision: self.precision,
            zone: self.zone,
            uncertainty: self.uncertainty,
            ..shifted
        };
        assert(TimePoint { precision: Precision::Second, zone: TimeZone::UTC, uncertainty: None, ..result } == shifted);
        Ok(result)
    }

    /// Seconds from this point to `other` in Unix time.
    pub fn duration_until(&self, other: &TimePoint) -> (r: Result<i64, String>)
        ensures
            match (unix_timestamp_of(*other), unix_timestamp_of(*self)) {
                (Ok(b), Ok(a)) => r matches Ok(d) && d as int == b - a,
                (Err(msg), _) => r matches Err(e) && e@ == msg,
                (Ok(_), Err(msg)) => r matches Err(e) && e@ == msg,
            },
    {
        let b = match other.to_unix_timestamp() {
            Ok(v) => v,
            Err(e) => return Err(e),
        };
        let a = match self.to_unix_timestamp() {
            Ok(v) => v,
            Err(e) => return Err(e),
        };
        proof {
            lemma_timestamp_bounds(*self);
            lemma_timestamp_bounds(*other);
        }
        Ok(b - a)
    }
}

/// Timestamps of points fit comfortably in 64 bits.
pub proof fn lemma_timestamp_bounds(t: TimePoint)
    ensures
        unix_timestamp_of(t) is Ok ==> -400_100_000_000 <= unix_timestamp_of(t)->Ok_0
            <= 400_100_000_000,
{
    let f = read_fields(t);
    if unix_timestamp_of(t) is Ok {
        lemma_unix_seconds_bounds(f.0, f.1, f.2, f.3, f.4, f.5);
    }
}

/// Whether a Unix timestamp lies in the supported years, so that `from_unix_timestamp` can
/// take it.
pub fn timestamp_fits(ts: i64) -> (r: bool)
    ensures
        r == supported_timestamp(ts as int),
{
    proof {
        crate::calendar::lemma_supported_julian_range(crate::calendar::MIN_YEAR as int, 1, 1);
    }
    -377_705_116_800 <= ts && ts <= 253_402_300_799
}

impl TimePoint {
    /// Whether `add_seconds_fast` can be computed for this point and `seconds`.
    pub fn fits_fast_shift(&self, seconds: u64) -> (r: bool)
        ensures
            r == (unix_timestamp_of(*self) is Ok ==> supported_timestamp(
                unix_timestamp_of(*self)->Ok_0 + zone_offset(self.zone)->0 + (seconds as i64),
            )),
    {
        let ts = match self.to_unix_timestamp() {
            Ok(ts) => ts,
            Err(_) => return true,
        };
        let offset = match self.zone.utc_offset_seconds() {
            Ok(o) => o,
            Err(_) => return true,
        };
        let target = ts as i128 + offset as i128 + (seconds as i64) as i128;
        proof {
            crate::calendar::lemma_supported_julian_range(crate::calendar::MIN_YEAR as int, 1, 1);
        }
        -377_705_116_800 <= target && target <= 253_402_300_799
    }
}


/// Seconds from the Unix epoch to the wall clock of `x`, read as it stands, every day
/// counted as 86 400 seconds.
pub open spec fn clock_seconds(x: TimePoint) -> int {
    unix_seconds(x.year as int, x.month as int, x.day as int, x.hour as int, x.minute as int, x.second as int)
}

/// A step to the next second that neither leaves nor reaches a leap second moves the clock
/// one second later.
proof fn lemma_step_adds_one_second(x: TimePoint)
    requires
        valid_clock(x),
        second_step_ok(x),
        x.second != 60,
        next_second(x).second != 60,
    ensures
        clock_seconds(next_second(x)) == clock_seconds(x) + 1,
{
    if x.second == 59 && x.minute == 59 && x.hour == 23 {
        lemma_julian_next(x.year as int, x.month as int, x.day as int);
    }
}

/// A step to the previous second that neither leaves nor reaches a leap second moves the
/// clock one second earlier.
proof fn lemma_step_back_takes_one_second(x: TimePoint)
    requires
        valid_clock(x),
        second_back_ok(x),
        x.second != 60,
        previous_second(x).second != 60,
    ensures
        clock_seconds(previous_second(x)) == clock_seconds(x) - 1,
{
    if x.second == 0 && x.minute == 0 && x.hour == 0 {
        lemma_julian_previous(x.year as int, x.month as int, x.day as int);
    }
}

/// `n` steps forward through no leap second move the clock `n` seconds later.
proof fn lemma_run_adds_seconds(t: TimePoint, n: nat)
    requires
        valid_clock(t),
        can_add_seconds(t, n),
        forall|j: nat| j <= n ==> (#[trigger] seconds_after(t, j)).second != 60,
    ensures
        clock_seconds(seconds_after(t, n)) == clock_seconds(t) + n,
    decreases n,
{
    if n > 0 {
        let m = (n - 1) as nat;
        lemma_run_adds_seconds(t, m);
        lemma_forward_run_valid(t, n, m);
        assert(second_step_ok(seconds_after(t, m)));
        assert(seconds_after(t, m).second != 60);
        assert(seconds_after(t, n).second != 60);
        lemma_step_adds_one_second(seconds_after(t, m));
    }
}

/// `n` steps back through no leap second move the clock `n` seconds earlier.
proof fn lemma_run_takes_seconds(t: TimePoint, n: nat)
    requires
        valid_clock(t),
        can_sub_seconds(t, n),
        forall|j: nat| j <= n ==> (#[trigger] seconds_before(t, j)).second != 60,
    ensures
        clock_seconds(seconds_before(t, n)) == clock_seconds(t) - n,
    decreases n,
{
    if n > 0 {
        let m = (n - 1) as nat;
        lemma_run_takes_seconds(t, m);
        lemma_backward_run_valid(t, n, m);
        assert(second_back_ok(seconds_before(t, m)));
        assert(seconds_before(t, m).second != 60);
        assert(seconds_before(t, n).second != 60);
        lemma_step_back_takes_one_second(seconds_before(t, m));
    }
}

/// Whether reading `t` in UTC, second by second across its zone's offset, meets no leap
/// second: no point on the way, ends included, shows second 60.
pub open spec fn reading_meets_no_leap_second(t: TimePoint, offset: int) -> bool {
    &&& offset > 0 ==> forall|j: nat| j <= offset ==> (#[trigger] seconds_before(t, j)).second != 60
    &&& offset <= 0 ==> forall|j: nat| j <= -offset ==> (#[trigger] seconds_after(t, j)).second != 60
}

/// The timestamp of a valid clock in the years from 0 on is its clock seconds less its
/// zone's offset.
proof fn lemma_timestamp_is_clock_seconds(x: TimePoint)
    requires
        valid_clock(x),
        x.year <= 9999,
        unix_timestamp_of(x) is Ok,
    ensures
        unix_timestamp_of(x) == Ok::<int, Seq<char>>(clock_seconds(x) - zone_offset(x.zone)->0),
{
    assert(read_fields(x).0 == x.year as int);
    assert(read_fields(x).1 == x.month as int);
    assert(read_fields(x).2 == x.day as int);
    assert(read_fields(x).3 == x.hour as int);
    assert(read_fields(x).4 == x.minute as int);
    assert(read_fields(x).5 == x.second as int);
}

/// Reading a valid clock in UTC across a positive offset `n` meeting no leap second gives a
/// valid clock `n` seconds earlier.
proof fn lemma_reading_back(t: TimePoint, n: nat)
    requires
        valid_clock(t),
        can_sub_seconds(t, n),
        forall|j: nat| j <= n ==> (#[trigger] seconds_before(t, j)).second != 60,
    ensures
        valid_clock(seconds_before(t, n)),
        clock_seconds(seconds_before(t, n)) == clock_seconds(t) - n,
{
    lemma_run_takes_seconds(t, n);
    lemma_backward_run_valid(t, n, n);
}

/// Reading a valid clock in UTC across a negative offset `-n` meeting no leap second gives a
/// valid clock `n` seconds later.
proof fn lemma_reading_forward(t: TimePoint, n: nat)
    requires
        valid_clock(t),
        can_add_seconds(t, n),
        forall|j: nat| j <= n ==> (#[trigger] seconds_after(t, j)).second != 60,
    ensures
        valid_clock(seconds_after(t, n)),
        clock_seconds(seconds_after(t, n)) == clock_seconds(t) + n,
{
    lemma_run_adds_seconds(t, n);
    lemma_forward_run_valid(t, n, n);
}

/// The Unix timestamp of a clock in a fixed-offset zone is the timestamp of its UTC reading:
/// both stand for the same instant. This holds whenever the reading meets no leap second
/// (a Unix timestamp gives a leap second and the second after it the same value), and the
/// clock and its reading lie in the supported years from 0 on.
#[verifier::spinoff_prover]
#[verifier::rlimit(60)]
pub proof fn lemma_local_timestamp_is_utc_timestamp(t: TimePoint)
    requires
        t.zone is Fixed,
        valid_clock(t),
        reading_ok(t, zone_offset(t.zone)->0),
        reading_meets_no_leap_second(t, zone_offset(t.zone)->0),
        unix_timestamp_of(t) is Ok,
        unix_timestamp_of(converted(t, TimeZone::UTC)->Ok_0) is Ok,
        t.year <= 9999,
        converted(t, TimeZone::UTC)->Ok_0.year <= 9999,
    ensures
        converted(t, TimeZone::UTC) is Ok,
        unix_timestamp_of(t) == unix_timestamp_of(converted(t, TimeZone::UTC)->Ok_0),
{
    let o = zone_offset(t.zone)->0;
    let u = converted(t, TimeZone::UTC)->Ok_0;
    if o > 0 {
        let n = o as nat;
        let r = seconds_before(t, n);
        assert(u == TimePoint { zone: TimeZone::UTC, millisecond: t.millisecond, uncertainty: t.uncertainty, ..r });
        lemma_reading_back(t, n);
        assert(clock_seconds(u) == clock_seconds(r));
    } else {
        let n = (-o) as nat;
        let r = seconds_after(t, n);
        assert(u == TimePoint { zone: TimeZone::UTC, millisecond: t.millisecond, uncertainty: t.uncertainty, ..r });
        lemma_reading_forward(t, n);
        assert(clock_seconds(u) == clock_seconds(r));
    }
    assert(valid_clock(u));
    lemma_timestamp_is_clock_seconds(t);
    lemma_timestamp_is_clock_seconds(u);
}

/// Reading the same wall clock in a fixed-offset zone gives the timestamp of that clock in
/// UTC less the zone's offset, which carries the sign of its hours: `+05:30` takes five and
/// a half hours off, `-05:30` adds them.
pub proof fn lemma_fixed_zone_timestamp(t: TimePoint, hours: i8, minutes: i8)
    requires
        t.zone == TimeZone::UTC,
        unix_timestamp_of(t) is Ok,
    ensures
        unix_timestamp_of(TimePoint { zone: TimeZone::Fixed { hours, minutes }, ..t })
            == Ok::<int, Seq<char>>(unix_timestamp_of(t)->Ok_0 - (if hours < 0 {
            -1int
        } else {
            1int
        }) * (magnitude(hours as int) * 3600 + minutes * 60)),
{
    let r = TimePoint { zone: TimeZone::Fixed { hours, minutes }, ..t };
    assert(read_fields(r) == read_fields(t));
    if hours < 0 {
        assert(zone_offset(r.zone)->0 == hours * 3600 - minutes * 60);
        assert(-1int * (magnitude(hours as int) * 3600 + minutes * 60) == hours * 3600 - minutes * 60);
    } else {
        assert(zone_offset(r.zone)->0 == hours * 3600 + minutes * 60);
        assert(1int * (magnitude(hours as int) * 3600 + minutes * 60) == hours * 3600 + minutes * 60);
    }
}

} // verus!
