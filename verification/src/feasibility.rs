//! Deciding beforehand whether an operation on a point can be carried out within the ranges
//! of its fields, for callers that cannot prove it.
use vstd::prelude::*;
use crate::conversion::convert_ok;
use crate::duration::Duration;
use crate::interval::expandable;
use crate::leap_second::is_built_in_leap_second;
use crate::period::Period;
use crate::precision::Precision;
use crate::reversal::{lemma_run_advances, lemma_step_advances, second_before};
use crate::tai::{fits_tai, fits_utc, tai_to_utc};
use crate::time_arithmetic::{
    add_days_signed, add_months_calendar, add_years_calendar, earlier_ok, lemma_least_is_steps,
    lemma_least_reach, measurable, period_back_ok, period_ok, reachable, reaches, same_second,
    same_second_position, shift_ok, since_ok, steps_between,
};
use crate::time_point::{
    can_add_days, can_add_seconds, can_sub_days, can_sub_seconds, clock_after, clock_before,
    day_back_ok, day_step_ok, days_back, days_forward, hour_step_ok, minute_step_ok,
    second_back_ok, second_step_ok, seconds_after, seconds_before, TimePoint,
};
use crate::time_zone::{fixed_offset, TimeZone};
use crate::util::month_days;

verus! {

impl TimePoint {
    fn day_step_possible(&self) -> (r: bool)
        ensures
            r == day_step_ok(*self),
    {
        if !(1 <= self.month && self.month <= 12) {
            return false;
        }
        let length = month_days(self.year, self.month);
        if self.day == length {
            self.month != 12 || self.year < u32::MAX
        } else {
            self.day < u32::MAX
        }
    }

    fn hour_step_possible(&self) -> (r: bool)
        ensures
            r == hour_step_ok(*self),
    {
        if self.hour == 23 {
            self.day_step_possible()
        } else {
            self.hour < u32::MAX
        }
    }

    fn minute_step_possible(&self) -> (r: bool)
        ensures
            r == minute_step_ok(*self),
    {
        if self.minute == 59 {
            self.hour_step_possible()
        } else {
            self.minute < u32::MAX
        }
    }

    /// Whether the step to the next second stays within the fields.
    pub fn second_step_possible(&self) -> (r: bool)
        ensures
            r == second_step_ok(*self),
    {
        if self.hour == 23 && self.minute == 59 && self.second == 59 && is_built_in_leap_second(self.year, self.month, self.day) {
            true
        } else if self.second == 60 || self.second == 59 {
            self.minute_step_possible()
        } else {
            self.second < u32::MAX
        }
    }

    /// Whether the step back to the previous second stays within the fields.
    pub fn second_back_possible(&self) -> (r: bool)
        ensures
            r == second_back_ok(*self),
    {
        self.second > 0 || self.minute > 0 || self.hour > 0 || self.day_back_possible()
    }

    fn day_back_possible(&self) -> (r: bool)
        ensures
            r == day_back_ok(*self),
    {
        if self.day <= 1 && self.month > 1 {
            self.month <= 13
        } else if self.day <= 1 {
            self.year > 0
        } else {
            true
        }
    }

    /// Whether `seconds` steps forward, one second each, stay within the fields.
    pub fn fits_seconds_forward(&self, seconds: u64) -> (r: bool)
        ensures
            r == can_add_seconds(*self, seconds as nat),
    {
        let mut current = *self;
        let mut i: u64 = 0;
        while i < seconds
            invariant
                i <= seconds,
                current == seconds_after(*self, i as nat),
                forall|k: nat| k < i ==> second_step_ok(#[trigger] seconds_after(*self, k)),
            decreases seconds - i,
        {
            if !current.second_step_possible() {
                assert(!second_step_ok(seconds_after(*self, i as nat)));
                return false;
            }
            current = TimePoint::add_one_second(&current);
            i = i + 1;
        }
        true
    }

    /// Whether `seconds` steps back, one second each, stay within the fields.
    pub fn fits_seconds_back(&self, seconds: u64) -> (r: bool)
        ensures
            r == can_sub_seconds(*self, seconds as nat),
    {
        let mut current = *self;
        let mut i: u64 = 0;
        while i < seconds
            invariant
                i <= seconds,
                current == seconds_before(*self, i as nat),
                forall|k: nat| k < i ==> second_back_ok(#[trigger] seconds_before(*self, k)),
            decreases seconds - i,
        {
            if !current.second_back_possible() {
                assert(!second_back_ok(seconds_before(*self, i as nat)));
                return false;
            }
            current = TimePoint::sub_one_second(&current);
            i = i + 1;
        }
        true
    }

    /// Whether `days` steps forward to the start of the next day stay within the fields.
    pub fn fits_days_forward(&self, days: u64) -> (r: bool)
        ensures
            r == can_add_days(*self, days as nat),
    {
        let mut current = *self;
        let mut i: u64 = 0;
        while i < days
            invariant
                i <= days,
                current == days_forward(*self, i as nat),
                forall|k: nat| k < i ==> day_step_ok(#[trigger] days_forward(*self, k)),
            decreases days - i,
        {
            if !current.day_step_possible() {
                assert(!day_step_ok(days_forward(*self, i as nat)));
                return false;
            }
            current = TimePoint::add_one_day(&current);
            i = i + 1;
        }
        true
    }

    /// Whether `days` steps back to the start of the previous day stay within the fields.
    pub fn fits_days_back(&self, days: u64) -> (r: bool)
        ensures
            r == can_sub_days(*self, days as nat),
    {
        let mut current = *self;
        let mut i: u64 = 0;
        while i < days
            invariant
                i <= days,
                current == days_back(*self, i as nat),
                forall|k: nat| k < i ==> day_back_ok(#[trigger] days_back(*self, k)),
            decreases days - i,
        {
            if !current.day_back_possible() {
                assert(!day_back_ok(days_back(*self, i as nat)));
                return false;
            }
            current = TimePoint::sub_one_day(&current);
            i = i + 1;
        }
        true
    }

    /// Whether the span this point denotes can be computed.
    pub fn fits_span(&self) -> (r: bool)
        ensures
            r == expandable(*self),
    {
        match self.uncertainty {
            Some(u) => self.fits_seconds_back(u.seconds()) && self.fits_seconds_forward(u.seconds()),
            None => match self.precision {
                Precision::Year => self.year < u32::MAX,
                Precision::Month => {
                    if self.month == 12 {
                        self.year < u32::MAX
                    } else {
                        self.month < u32::MAX
                    }
                },
                Precision::Day => self.day_step_possible(),
                Precision::Hour => self.hour_step_possible(),
                Precision::Minute => self.minute_step_possible(),
                Precision::Second => self.second_step_possible(),
                Precision::Millisecond => {
                    if self.millisecond == 999 {
                        self.second_step_possible()
                    } else {
                        self.millisecond < u32::MAX
                    }
                },
            },
        }
    }

    /// Whether moving this point by `duration` can be computed.
    pub fn fits_shift(&self, duration: Duration) -> (r: bool)
        ensures
            r == shift_ok(*self, duration@),
    {
        let ms = duration.milliseconds();
        if ms == i64::MIN {
            return false;
        }
        if ms < 0 {
            let magnitude = (0 - ms) as u64;
            let borrow: u64 = if (self.millisecond as u64) < magnitude % 1000 {
                1
            } else {
                0
            };
            self.fits_seconds_back(magnitude / 1000 + borrow)
        } else {
            let magnitude = ms as u64;
            let carry = (self.millisecond as u64 + magnitude % 1000) / 1000;
            self.fits_seconds_forward(magnitude / 1000 + carry)
        }
    }

    /// Whether moving this point back by `duration` can be computed.
    pub fn fits_shift_back(&self, duration: Duration) -> (r: bool)
        ensures
            r == earlier_ok(*self, duration@),
    {
        let ms = duration.milliseconds();
        if ms == i64::MIN {
            return false;
        }
        if ms < 0 {
            let magnitude = (0 - ms) as u64;
            let carry = (self.millisecond as u64 + magnitude % 1000) / 1000;
            self.fits_seconds_forward(magnitude / 1000 + carry)
        } else {
            let magnitude = ms as u64;
            let borrow: u64 = if (self.millisecond as u64) < magnitude % 1000 {
                1
            } else {
                0
            };
            self.fits_seconds_back(magnitude / 1000 + borrow)
        }
    }

    /// Whether adding `period` to this point can be computed.
    pub fn fits_period(&self, period: Period) -> (r: bool)
        ensures
            r == period_ok(*self, period@),
    {
        period.check_normal();
        let years = period.years();
        if years != 0 && (years > i64::MAX - self.year as i64 || !(1 <= self.month && self.month
            <= 12)) {
            return false;
        }
        let with_years = add_years_calendar(self, years);
        let months = period.months();
        if months != 0 {
            let total = with_years.month as i128 - 1 + months as i128;
            if total < i64::MIN as i128 || total > i64::MAX as i128 {
                return false;
            }
        }
        let with_months = add_months_calendar(&with_years, months);
        let days = period.days();
        let days_fit = if days < 0 {
            with_months.fits_days_back((0i128 - days as i128) as u64)
        } else {
            with_months.fits_days_forward(days as u64)
        };
        if !days_fit {
            return false;
        }
        let with_days = add_days_signed(&with_months, days);
        let hours_ms = period.hours() as i128 * 3_600_000;
        if hours_ms < i64::MIN as i128 {
            return false;
        }
        let total = hours_ms + period.minutes() as i128 * 60_000 + period.seconds() as i128 * 1000
            + period.milliseconds() as i128;
        if total > i64::MAX as i128 {
            return false;
        }
        with_days.fits_shift(Duration::from_milliseconds(total as i64))
    }

    /// Whether subtracting `period` from this point can be computed.
    pub fn fits_period_back(&self, period: Period) -> (r: bool)
        ensures
            r == period_back_ok(*self, period@),
    {
        if period.years() == i64::MIN || period.months() == i64::MIN || period.days() == i64::MIN
            || period.hours() == i64::MIN || period.minutes() == i64::MIN || period.seconds()
            == i64::MIN || period.milliseconds() == i64::MIN {
            return false;
        }
        if !Period::fits(
            -period.years(),
            -period.months(),
            -period.days(),
            -period.hours(),
            -period.minutes(),
            -period.seconds(),
            -period.milliseconds(),
        ) {
            return false;
        }
        self.fits_period(core::ops::Neg::neg(period))
    }

    /// Whether converting this point to `zone` can be computed.
    pub fn fits_conversion(&self, zone: TimeZone) -> (r: bool)
        ensures
            r == convert_ok(*self, zone),
    {
        if self.zone == zone {
            return true;
        }
        let utc = if self.zone == TimeZone::TAI {
            if !fits_utc(self) {
                return false;
            }
            match tai_to_utc(self) {
                Ok(u) => u,
                Err(_) => return true,
            }
        } else {
            let offset = match self.utc_offset_seconds() {
                Ok(o) => o,
                Err(_) => return true,
            };
            let reading_fits = if offset > 0 {
                self.fits_seconds_back(offset as u64)
            } else {
                self.fits_seconds_forward((0 - offset) as u64)
            };
            if !reading_fits {
                return false;
            }
            match self.as_utc() {
                Ok(u) => u,
                Err(_) => return true,
            }
        };
        match zone {
            TimeZone::TAI => fits_tai(&utc),
            TimeZone::Fixed { hours, minutes } => {
                let offset = fixed_offset(hours, minutes);
                if offset > 0 {
                    utc.fits_seconds_forward(offset as u64)
                } else {
                    utc.fits_seconds_back((0 - offset) as u64)
                }
            },
            _ => true,
        }
    }
}

/// A number that orders wall clocks down to the second, field by field.
pub open spec fn second_key(t: TimePoint) -> int {
    ((((t.year * 0x1_0000_0000 + t.month) * 0x1_0000_0000 + t.day) * 0x1_0000_0000 + t.hour)
        * 0x1_0000_0000 + t.minute) * 0x1_0000_0000 + t.second
}

/// How far the key of `a` lies below that of `b`, or zero.
pub open spec fn gap(a: TimePoint, b: TimePoint) -> nat {
    if second_key(a) < second_key(b) {
        (second_key(b) - second_key(a)) as nat
    } else {
        0
    }
}

/// The key grows with the clock, and clocks on the same second share it.
proof fn lemma_second_key(a: TimePoint, b: TimePoint)
    ensures
        second_before(a, b) ==> second_key(a) < second_key(b),
        same_second(a, b) ==> second_key(a) == second_key(b),
        !second_before(a, b) && !same_second(a, b) ==> second_before(b, a),
{
}

/// Whether the clock of `a` comes before that of `b`, down to the second.
fn second_earlier(a: &TimePoint, b: &TimePoint) -> (r: bool)
    ensures
        r == second_before(*a, *b),
{
    if a.year != b.year {
        a.year < b.year
    } else if a.month != b.month {
        a.month < b.month
    } else if a.day != b.day {
        a.day < b.day
    } else if a.hour != b.hour {
        a.hour < b.hour
    } else if a.minute != b.minute {
        a.minute < b.minute
    } else {
        a.second < b.second
    }
}

/// A clock that lies after `later` at some point of a forward run is never `later` again.
proof fn lemma_passed(from: TimePoint, later: TimePoint, k: nat, n: nat)
    requires
        second_before(later, seconds_after(from, k)),
        can_add_seconds(from, n),
        k < n,
    ensures
        !reaches(from, later, n),
{
    lemma_run_advances(from, n, k);
    lemma_second_key(later, seconds_after(from, k));
    lemma_second_key(seconds_after(from, k), seconds_after(from, n));
    lemma_second_key(later, seconds_after(from, n));
}

/// A forward run that has passed `later`, or cannot take its next step, without reaching
/// it, never reaches it.
proof fn lemma_not_reachable(from: TimePoint, later: TimePoint, count: nat)
    requires
        forall|k: nat| k < count ==> !reaches(from, later, k),
        !same_second(seconds_after(from, count), later),
        !second_before(seconds_after(from, count), later) || !second_step_ok(
            seconds_after(from, count),
        ),
    ensures
        !reachable(from, later),
{
    if reachable(from, later) {
        let n = choose|n: nat| #[trigger] reaches(from, later, n) && can_add_seconds(from, n);
        assert(n > count);
        if second_before(seconds_after(from, count), later) {
            assert(second_step_ok(seconds_after(from, count)));
        } else {
            lemma_second_key(seconds_after(from, count), later);
            lemma_passed(from, later, count, n);
        }
    }
}

/// When no run of up to `count` steps reaches `later`, the fewest steps that do are more.
proof fn lemma_more_steps(from: TimePoint, later: TimePoint, count: nat)
    requires
        forall|k: nat| k <= count ==> !reaches(from, later, k),
        reachable(from, later),
    ensures
        steps_between(from, later) > count,
{
    let n = choose|n: nat| #[trigger] reaches(from, later, n) && can_add_seconds(from, n);
    lemma_least_reach(from, later, n);
    let m = choose|m: nat|
        #[trigger] reaches(from, later, m) && m <= n && forall|k: nat| k < m ==> !reaches(from, later, k);
    lemma_least_is_steps(from, later, m);
}

/// One more forward step keeps the run computable and its end short of `later`.
proof fn lemma_one_more_step(from: TimePoint, later: TimePoint, count: nat)
    requires
        can_add_seconds(from, count),
        second_step_ok(seconds_after(from, count)),
        second_before(seconds_after(from, count), later),
        forall|k: nat| k < count ==> !reaches(from, later, k),
    ensures
        can_add_seconds(from, count + 1),
        forall|k: nat| k < count + 1 ==> !reaches(from, later, k),
        second_key(seconds_after(from, count + 1)) > second_key(seconds_after(from, count)),
{
    lemma_step_advances(seconds_after(from, count));
    lemma_second_key(seconds_after(from, count), seconds_after(from, count + 1));
    lemma_second_key(seconds_after(from, count), later);
    assert forall|j: nat| j < count + 1 implies second_step_ok(#[trigger] seconds_after(from, j)) by {
        if j < count {
            assert(can_add_seconds(from, count));
        }
    }
    assert(!reaches(from, later, count));
}

/// Whether the time from `earlier` to the later `later` can be measured.
#[verifier::spinoff_prover]
#[verifier::rlimit(40)]
fn measurable_from(later: &TimePoint, earlier: &TimePoint) -> (r: bool)
    requires
        clock_before(*earlier, *later),
    ensures
        r == measurable(*later, *earlier),
{
    let mut current = *earlier;
    let mut count: u64 = 0;
    while !same_second_position(&current, later)
        invariant
            current == seconds_after(*earlier, count as nat),
            can_add_seconds(*earlier, count as nat),
            forall|k: nat| k < count ==> !reaches(*earlier, *later, k),
            count * 1000 + later.millisecond <= i64::MAX,
        decreases gap(current, *later),
    {
        if !second_earlier(&current, later) || !current.second_step_possible() {
            proof {
                lemma_not_reachable(*earlier, *later, count as nat);
            }
            return false;
        }
        if count as u128 * 1000 + 1000 + later.millisecond as u128 > i64::MAX as u128 {
            proof {
                if reachable(*earlier, *later) {
                    lemma_more_steps(*earlier, *later, count as nat);
                }
            }
            return false;
        }
        proof {
            lemma_one_more_step(*earlier, *later, count as nat);
            lemma_second_key(current, *later);
        }
        let ghost before = current;
        current = TimePoint::add_one_second(&current);
        count = count + 1;
        assert(current == seconds_after(*earlier, count as nat));
        assert(second_key(current) > second_key(before));
    }
    proof {
        assert(reaches(*earlier, *later, count as nat));
        lemma_least_is_steps(*earlier, *later, count as nat);
    }
    true
}

/// How `since_ok` splits on the order of the clocks.
proof fn lemma_since_ok_cases(a: TimePoint, e: TimePoint)
    requires
        a != e,
    ensures
        clock_before(e, a) ==> (since_ok(a, e) == measurable(a, e)),
        !clock_before(e, a) && clock_before(a, e) ==> (since_ok(a, e) == measurable(e, a)),
        !clock_before(e, a) && !clock_before(a, e) ==> !since_ok(a, e),
{
    if clock_before(e, a) {
        assert(!clock_before(a, e));
    }
}

impl TimePoint {
    /// Whether the time since `earlier` can be measured.
    pub fn fits_measure(&self, earlier: &TimePoint) -> (r: bool)
        ensures
            r == since_ok(*self, *earlier),
    {
        if *self == *earlier {
            return true;
        }
        let forward = clock_after(self, earlier);
        let backward = clock_after(earlier, self);
        let r = if forward {
            measurable_from(self, earlier)
        } else if backward {
            measurable_from(earlier, self)
        } else {
            false
        };
        proof {
            lemma_since_ok_cases(*self, *earlier);
        }
        r
    }
}

} // verus!
