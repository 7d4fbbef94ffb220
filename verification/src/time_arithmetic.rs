//! Shifting points by durations and periods, and measuring the time between them.
use vstd::prelude::*;
use vstd::std_specs::ops::{AddSpecImpl, SubSpecImpl};
use crate::duration::Duration;
use crate::period::{div_mod_euclid, normalize, normalize_fits, parts_neg, Period, PeriodParts};
use crate::time_point::{
    can_add_days, can_add_seconds, can_sub_days, can_sub_seconds, clock_after, clock_before,
    days_back, days_forward, seconds_after, seconds_before, second_step_ok, TimePoint,
};
use crate::util::{month_days, month_in_range, month_length};

verus! {

/// The second steps that moving `t` `ms` milliseconds later takes: the whole seconds of
/// `ms`, and one more when the milliseconds carry.
pub open spec fn forward_steps(t: TimePoint, ms: nat) -> nat {
    (ms / 1000 + (t.millisecond + ms % 1000) / 1000) as nat
}

/// `t` moved `ms` milliseconds later: whole seconds are stepped one at a time, and the
/// millisecond field absorbs the rest, carrying into the seconds.
pub open spec fn shifted_forward(t: TimePoint, ms: nat) -> TimePoint {
    TimePoint {
        millisecond: ((t.millisecond + ms % 1000) % 1000) as u32,
        uncertainty: t.uncertainty,
        ..seconds_after(t, forward_steps(t, ms))
    }
}

/// Whether `shifted_forward(t, ms)` can be computed.
pub open spec fn forward_ok(t: TimePoint, ms: nat) -> bool {
    can_add_seconds(t, forward_steps(t, ms))
}

/// The second steps that moving `t` `ms` milliseconds earlier takes: the whole seconds of
/// `ms`, and one more when the milliseconds borrow.
pub open spec fn backward_steps(t: TimePoint, ms: nat) -> nat {
    (ms / 1000 + (if t.millisecond < ms % 1000 { 1int } else { 0int })) as nat
}

/// `t` moved `ms` milliseconds earlier, borrowing a second when the milliseconds run out.
pub open spec fn shifted_back(t: TimePoint, ms: nat) -> TimePoint {
    let delta = t.millisecond - ms % 1000;
    TimePoint {
        millisecond: (if delta < 0 { delta + 1000 } else { delta }) as u32,
        uncertainty: t.uncertainty,
        ..seconds_before(t, backward_steps(t, ms))
    }
}

/// Whether `shifted_back(t, ms)` can be computed.
pub open spec fn backward_ok(t: TimePoint, ms: nat) -> bool {
    can_sub_seconds(t, backward_steps(t, ms))
}

/// `t` moved by a signed number of milliseconds.
pub open spec fn shifted(t: TimePoint, ms: int) -> TimePoint {
    if ms < 0 {
        shifted_back(t, (-ms) as nat)
    } else {
        shifted_forward(t, ms as nat)
    }
}

/// Whether `shifted(t, ms)` can be computed.
pub open spec fn shift_ok(t: TimePoint, ms: int) -> bool {
    &&& ms != i64::MIN
    &&& ms < 0 ==> backward_ok(t, (-ms) as nat)
    &&& ms >= 0 ==> forward_ok(t, ms as nat)
}

/// `t` moved `ms` milliseconds earlier; a negative `ms` moves it later.
pub open spec fn shifted_earlier(t: TimePoint, ms: int) -> TimePoint {
    if ms < 0 {
        shifted_forward(t, (-ms) as nat)
    } else {
        shifted_back(t, ms as nat)
    }
}

/// Whether `shifted_earlier(t, ms)` can be computed.
pub open spec fn earlier_ok(t: TimePoint, ms: int) -> bool {
    &&& ms != i64::MIN
    &&& ms < 0 ==> forward_ok(t, (-ms) as nat)
    &&& ms >= 0 ==> backward_ok(t, ms as nat)
}

/// Whether `a` and `b` show the same second of the same minute, hour and day.
pub open spec fn same_second(a: TimePoint, b: TimePoint) -> bool {
    a.year == b.year && a.month == b.month && a.day == b.day && a.hour == b.hour && a.minute
        == b.minute && a.second == b.second
}

/// Stepping `n` seconds forward from `from` reaches the second of `to`.
pub open spec fn reaches(from: TimePoint, to: TimePoint, n: nat) -> bool {
    same_second(seconds_after(from, n), to)
}

/// The second of `to` is reached from `from`, with every step before it computable.
pub open spec fn reachable(from: TimePoint, to: TimePoint) -> bool {
    exists|n: nat| #[trigger] reaches(from, to, n) && can_add_seconds(from, n)
}

/// The fewest forward second steps from `from` to the second of `to`.
pub open spec fn steps_between(from: TimePoint, to: TimePoint) -> nat {
    choose|n: nat| #[trigger] reaches(from, to, n) && forall|k: nat| k < n ==> !reaches(from, to, k)
}

/// Milliseconds from `earlier` to `later`, counting each second step, leap seconds included.
pub open spec fn elapsed(later: TimePoint, earlier: TimePoint) -> int {
    steps_between(earlier, later) * 1000 + later.millisecond - earlier.millisecond
}

/// Whether the measure from `earlier` to `later` can be computed in 64-bit milliseconds.
pub open spec fn measurable(later: TimePoint, earlier: TimePoint) -> bool {
    &&& reachable(earlier, later)
    &&& steps_between(earlier, later) * 1000 + later.millisecond <= i64::MAX
    &&& i64::MIN < elapsed(later, earlier)
}

/// Whether `duration_since` can be computed between `a` and `earlier`.
pub open spec fn since_ok(a: TimePoint, earlier: TimePoint) -> bool {
    a == earlier || (clock_before(earlier, a) && measurable(a, earlier)) || (clock_before(a, earlier)
        && measurable(earlier, a))
}

/// The signed milliseconds from `earlier` to `a`.
pub open spec fn since(a: TimePoint, earlier: TimePoint) -> int {
    if a == earlier {
        0
    } else if clock_before(earlier, a) {
        elapsed(a, earlier)
    } else {
        -elapsed(earlier, a)
    }
}

/// When some step count reaches the target, a least one does.
pub proof fn lemma_least_reach(from: TimePoint, to: TimePoint, n: nat)
    requires
        reaches(from, to, n),
    ensures
        exists|m: nat| #[trigger] reaches(from, to, m) && m <= n && forall|k: nat| k < m ==> !reaches(from, to, k),
    decreases n,
{
    if exists|k: nat| k < n && #[trigger] reaches(from, to, k) {
        let k = choose|k: nat| k < n && #[trigger] reaches(from, to, k);
        lemma_least_reach(from, to, k);
    } else {
        assert(reaches(from, to, n));
    }
}

/// The least step count that reaches the target is the one `steps_between` names.
pub proof fn lemma_least_is_steps(from: TimePoint, to: TimePoint, n: nat)
    requires
        reaches(from, to, n),
        forall|k: nat| k < n ==> !reaches(from, to, k),
    ensures
        steps_between(from, to) == n,
{
    let m = steps_between(from, to);
    assert(reaches(from, to, m) && forall|k: nat| k < m ==> !reaches(from, to, k));
    if m < n {
        assert(!reaches(from, to, m));
    } else if n < m {
        assert(!reaches(from, to, n));
    }
}

/// Two targets on the same second are reached by the same step counts.
pub proof fn lemma_same_target(from: TimePoint, to: TimePoint, other: TimePoint)
    requires
        same_second(to, other),
        reachable(from, to),
    ensures
        reachable(from, other),
        steps_between(from, other) == steps_between(from, to),
{
    assert forall|n: nat| #[trigger] reaches(from, other, n) == reaches(from, to, n) by {}
    let w = choose|n: nat| #[trigger] reaches(from, to, n) && can_add_seconds(from, n);
    assert(reaches(from, other, w) && can_add_seconds(from, w));
    lemma_least_reach(from, other, w);
    let m = choose|m: nat| #[trigger] reaches(from, other, m) && m <= w && forall|k: nat| k < m ==> !reaches(from, other, k);
    lemma_least_is_steps(from, other, m);
    assert forall|k: nat| k < m implies !reaches(from, to, k) by {
        assert(reaches(from, other, k) == reaches(from, to, k));
    }
    lemma_least_is_steps(from, to, m);
}

pub(crate) fn same_second_position(a: &TimePoint, b: &TimePoint) -> (r: bool)
    ensures
        r == same_second(*a, *b),
{
    a.year == b.year && a.month == b.month && a.day == b.day && a.hour == b.hour && a.minute
        == b.minute && a.second == b.second
}

fn seconds_forward(from: &TimePoint, to: &TimePoint) -> (r: u64)
    requires
        reachable(*from, *to),
        steps_between(*from, *to) <= u64::MAX,
    ensures
        r == steps_between(*from, *to),
        reaches(*from, *to, r as nat),
        forall|k: nat| k < r ==> !reaches(*from, *to, k),
{
    let ghost witness = choose|n: nat| #[trigger] reaches(*from, *to, n) && can_add_seconds(*from, n);
    proof {
        lemma_least_reach(*from, *to, witness);
    }
    let ghost least = steps_between(*from, *to);
    let mut count: u64 = 0;
    let mut current = *from;
    while !same_second_position(&current, to)
        invariant
            count <= least,
            least <= witness,
            least <= u64::MAX,
            reaches(*from, *to, least),
            forall|k: nat| k < least ==> !reaches(*from, *to, k),
            can_add_seconds(*from, witness),
            current == seconds_after(*from, count as nat),
        decreases least - count,
    {
        assert(count < least);
        assert(second_step_ok(seconds_after(*from, count as nat)));
        current = TimePoint::add_one_second(&current);
        count = count + 1;
    }
    assert(reaches(*from, *to, count as nat));
    count
}

impl TimePoint {
    fn add_nonnegative(&self, duration: Duration) -> (r: Self)
        requires
            duration@ >= 0,
            forward_ok(*self, duration@ as nat),
        ensures
            r == shifted_forward(*self, duration@ as nat),
    {
        let seconds = duration.seconds() as u64;
        let subsec = duration.subsec_milliseconds();
        let total_milliseconds = self.millisecond as i64 + subsec;
        let carry = total_milliseconds / 1000;
        let remainder = total_milliseconds % 1000;
        let base = self.add_seconds(seconds + carry as u64);
        TimePoint { millisecond: remainder as u32, ..base }
    }

    fn sub_nonnegative(&self, duration: Duration) -> (r: Self)
        requires
            duration@ >= 0,
            backward_ok(*self, duration@ as nat),
        ensures
            r == shifted_back(*self, duration@ as nat),
    {
        let seconds = duration.seconds() as u64;
        let subsec = duration.subsec_milliseconds();
        let mut delta = self.millisecond as i64 - subsec;
        let mut borrow: u64 = 0;
        if delta < 0 {
            delta = delta + 1000;
            borrow = 1;
        }
        let base = self.sub_seconds(seconds + borrow);
        TimePoint { millisecond: delta as u32, ..base }
    }

    /// Moves the point by a signed duration: whole seconds one at a time, leap seconds
    /// included, then the milliseconds. Uncertainty, precision and zone are kept.
    pub fn add_duration(&self, duration: Duration) -> (r: Self)
        requires
            shift_ok(*self, duration@),
        ensures
            r == shifted(*self, duration@),
    {
        if duration.is_negative() {
            return self.sub_nonnegative(core::ops::Neg::neg(duration));
        }
        self.add_nonnegative(duration)
    }

    /// Moves the point back by a signed duration.
    pub fn sub_duration(&self, duration: Duration) -> (r: Self)
        requires
            earlier_ok(*self, duration@),
        ensures
            r == shifted_earlier(*self, duration@),
    {
        if duration.is_negative() {
            return self.add_nonnegative(core::ops::Neg::neg(duration));
        }
        self.sub_nonnegative(duration)
    }

    /// The milliseconds from an earlier wall clock to this one.
    fn forward_since(&self, earlier: &TimePoint) -> (r: Duration)
        requires
            clock_before(*earlier, *self),
            measurable(*self, *earlier),
        ensures
            r@ == elapsed(*self, *earlier),
    {
        let ghost target = TimePoint { millisecond: 0, ..*self };
        proof {
            lemma_same_target(*earlier, *self, target);
        }
        let seconds = seconds_forward(earlier, &self.with_millisecond(0));
        let ghost steps = steps_between(*earlier, *self);
        assert(seconds == steps);
        assert(seconds * 1000 + self.millisecond <= i64::MAX);
        Duration::from_milliseconds(
            seconds as i64 * 1000 + self.millisecond as i64 - earlier.millisecond as i64,
        )
    }

    /// The signed time from `earlier` to this point, counting every second between them,
    /// leap seconds included.
    pub fn duration_since(&self, earlier: &TimePoint) -> (r: Duration)
        requires
            since_ok(*self, *earlier),
        ensures
            r@ == since(*self, *earlier),
        decreases (if clock_before(*earlier, *self) { 0int } else { 1int }),
    {
        if *self == *earlier {
            return Duration::zero();
        }
        if clock_after(self, earlier) {
            self.forward_since(earlier)
        } else {
            let forward = earlier.duration_since(self);
            core::ops::Neg::neg(forward)
        }
    }
}


/// The smaller of two integers.
pub open spec fn min_of(a: int, b: int) -> int {
    if a <= b {
        a
    } else {
        b
    }
}

/// `t` moved by whole calendar years, its day clamped to the length of its month in the
/// new year; the clock and every other field are kept. A year outside the field's range
/// wraps around, as the unsigned field takes the low 32 bits.
pub open spec fn years_added(t: TimePoint, years: int) -> TimePoint {
    if years == 0 {
        t
    } else {
        let year = (t.year + years) as u32;
        TimePoint {
            year,
            day: min_of(t.day as int, month_length(year as int, t.month as int)) as u32,
            ..t
        }
    }
}

/// Whether `years_added(t, years)` can be computed: the sum fits 64-bit arithmetic, and the
/// month can be looked up.
pub open spec fn years_ok(t: TimePoint, years: int) -> bool {
    years != 0 ==> (t.year + years <= i64::MAX && month_in_range(t.month as int))
}

/// `t` moved by whole calendar months, carrying into the year with Euclidean division and
/// clamping the day to the length of the new month. A year outside the field's range wraps
/// around, as the unsigned field takes the low 32 bits.
pub open spec fn months_added(t: TimePoint, months: int) -> TimePoint {
    if months == 0 {
        t
    } else {
        let total = t.month - 1 + months;
        let year = (t.year + total / 12) as u32;
        let month = total % 12 + 1;
        TimePoint {
            year,
            month: month as u32,
            day: min_of(t.day as int, month_length(year as int, month)) as u32,
            ..t
        }
    }
}

/// Whether `months_added(t, months)` can be computed in 64-bit arithmetic.
pub open spec fn months_ok(t: TimePoint, months: int) -> bool {
    let total = t.month - 1 + months;
    months != 0 ==> i64::MIN <= total <= i64::MAX
}

/// `t` moved by a signed number of calendar days, keeping its clock.
pub open spec fn days_shifted(t: TimePoint, days: int) -> TimePoint {
    let moved = if days < 0 {
        days_back(t, (-days) as nat)
    } else {
        days_forward(t, days as nat)
    };
    TimePoint {
        hour: t.hour,
        minute: t.minute,
        second: t.second,
        millisecond: t.millisecond,
        ..moved
    }
}

/// Whether every day step of `days_shifted(t, days)` can be computed.
pub open spec fn days_ok(t: TimePoint, days: int) -> bool {
    &&& days < 0 ==> can_sub_days(t, (-days) as nat)
    &&& days >= 0 ==> can_add_days(t, days as nat)
}

pub(crate) fn add_years_calendar(t: &TimePoint, years: i64) -> (r: TimePoint)
    requires
        years_ok(*t, years as int),
    ensures
        r == years_added(*t, years as int),
{
    if years == 0 {
        return *t;
    }
    let year = t.year as i64 + years;
    let length = month_days(year as u32, t.month);
    let day = if t.day <= length {
        t.day
    } else {
        length
    };
    TimePoint { year: year as u32, day, ..*t }
}

pub(crate) fn add_months_calendar(t: &TimePoint, months: i64) -> (r: TimePoint)
    requires
        months_ok(*t, months as int),
    ensures
        r == months_added(*t, months as int),
{
    if months == 0 {
        return *t;
    }
    let total = t.month as i64 - 1 + months;
    let (carry, rest) = div_mod_euclid(total, 12);
    let year = t.year as i64 + carry;
    let month = rest + 1;
    let length = month_days(year as u32, month as u32);
    let day = if t.day <= length {
        t.day
    } else {
        length
    };
    TimePoint { year: year as u32, month: month as u32, day, ..*t }
}

pub(crate) fn add_days_signed(t: &TimePoint, days: i64) -> (r: TimePoint)
    requires
        days_ok(*t, days as int),
    ensures
        r == days_shifted(*t, days as int),
{
    let count: u64 = if days < 0 {
        (0i128 - days as i128) as u64
    } else {
        days as u64
    };
    let mut result = *t;
    let mut i: u64 = 0;
    while i < count
        invariant
            i <= count,
            count == (if days < 0 { -days } else { days as int }),
            days_ok(*t, days as int),
            result == (if days < 0 {
                days_back(*t, i as nat)
            } else {
                days_forward(*t, i as nat)
            }),
        decreases count - i,
    {
        if days < 0 {
            result = TimePoint::sub_one_day(&result);
        } else {
            result = TimePoint::add_one_day(&result);
        }
        i = i + 1;
    }
    TimePoint {
        hour: t.hour,
        minute: t.minute,
        second: t.second,
        millisecond: t.millisecond,
        ..result
    }
}

/// Milliseconds of the fixed time part of a period: hours, minutes, seconds, milliseconds.
pub open spec fn time_part_ms(p: PeriodParts) -> int {
    p.3 * 3600000 + p.4 * 60000 + p.5 * 1000 + p.6
}

/// The calendar part of a period applied to `t`: years first, then months, then days.
pub open spec fn calendar_moved(t: TimePoint, p: PeriodParts) -> TimePoint {
    days_shifted(months_added(years_added(t, p.0), p.1), p.2)
}

/// `t` moved by a period: the calendar part, then the time part as a duration. The
/// uncertainty of `t` is kept.
pub open spec fn period_added(t: TimePoint, p: PeriodParts) -> TimePoint {
    TimePoint { uncertainty: t.uncertainty, ..shifted(calendar_moved(t, p), time_part_ms(p)) }
}

/// Whether `period_added(t, p)` can be computed for a period in normal form.
pub open spec fn period_ok(t: TimePoint, p: PeriodParts) -> bool {
    &&& years_ok(t, p.0)
    &&& months_ok(years_added(t, p.0), p.1)
    &&& days_ok(months_added(years_added(t, p.0), p.1), p.2)
    &&& i64::MIN <= p.3 * 3600000
    &&& time_part_ms(p) <= i64::MAX
    &&& shift_ok(calendar_moved(t, p), time_part_ms(p))
}

/// Whether `t` can be moved back by the period `p`, that is, forward by its negation.
pub open spec fn period_back_ok(t: TimePoint, p: PeriodParts) -> bool {
    normalize_fits(parts_neg(p)) && period_ok(t, normalize(parts_neg(p)))
}

impl TimePoint {
    /// Adds a period: calendar years, then months (each clamping the day to the month's
    /// length), then days, then the time part as a duration. The uncertainty is kept.
    pub fn add_period(&self, period: Period) -> (r: Self)
        requires
            period_ok(*self, period@),
        ensures
            r == period_added(*self, period@),
    {
        period.check_normal();
        let uncertainty = self.uncertainty;
        let mut result = *self;
        result = add_years_calendar(&result, period.years());
        result = add_months_calendar(&result, period.months());
        result = add_days_signed(&result, period.days());
        let total_milliseconds = period.hours() * 3_600_000 + period.minutes() * 60_000
            + period.seconds() * 1000 + period.milliseconds();
        result = result.add_duration(Duration::from_milliseconds(total_milliseconds));
        result.uncertainty = uncertainty;
        result
    }

    /// Subtracts a period by adding its negation.
    pub fn sub_period(&self, period: Period) -> (r: Self)
        requires
            period_back_ok(*self, period@),
        ensures
            r == period_added(*self, normalize(parts_neg(period@))),
    {
        self.add_period(core::ops::Neg::neg(period))
    }
}

impl AddSpecImpl<Duration> for TimePoint {
    open spec fn obeys_add_spec() -> bool {
        true
    }

    open spec fn add_req(self, rhs: Duration) -> bool {
        shift_ok(self, rhs@)
    }

    open spec fn add_spec(self, rhs: Duration) -> TimePoint {
        shifted(self, rhs@)
    }
}

impl core::ops::Add<Duration> for TimePoint {
    type Output = TimePoint;

    fn add(self, rhs: Duration) -> (r: TimePoint)
        ensures
            r == shifted(self, rhs@),
    {
        self.add_duration(rhs)
    }
}

impl SubSpecImpl<Duration> for TimePoint {
    open spec fn obeys_sub_spec() -> bool {
        true
    }

    open spec fn sub_req(self, rhs: Duration) -> bool {
        earlier_ok(self, rhs@)
    }

    open spec fn sub_spec(self, rhs: Duration) -> TimePoint {
        shifted_earlier(self, rhs@)
    }
}

impl core::ops::Sub<Duration> for TimePoint {
    type Output = TimePoint;

    fn sub(self, rhs: Duration) -> (r: TimePoint)
        ensures
            r == shifted_earlier(self, rhs@),
    {
        self.sub_duration(rhs)
    }
}

impl SubSpecImpl<TimePoint> for TimePoint {
    open spec fn obeys_sub_spec() -> bool {
        true
    }

    open spec fn sub_req(self, rhs: TimePoint) -> bool {
        since_ok(self, rhs)
    }

    open spec fn sub_spec(self, rhs: TimePoint) -> Duration {
        choose|d: Duration| d@ == since(self, rhs)
    }
}

impl core::ops::Sub<TimePoint> for TimePoint {
    type Output = Duration;

    fn sub(self, rhs: TimePoint) -> (r: Duration)
        ensures
            r@ == since(self, rhs),
    {
        let r = self.duration_since(&rhs);
        proof {
            let d = choose|d: Duration| d@ == since(self, rhs);
            Duration::lemma_view_injective(d, r);
        }
        r
    }
}

impl AddSpecImpl<Period> for TimePoint {
    open spec fn obeys_add_spec() -> bool {
        true
    }

    open spec fn add_req(self, rhs: Period) -> bool {
        period_ok(self, rhs@)
    }

    open spec fn add_spec(self, rhs: Period) -> TimePoint {
        period_added(self, rhs@)
    }
}

impl core::ops::Add<Period> for TimePoint {
    type Output = TimePoint;

    fn add(self, rhs: Period) -> (r: TimePoint)
        ensures
            r == period_added(self, rhs@),
    {
        self.add_period(rhs)
    }
}

impl SubSpecImpl<Period> for TimePoint {
    open spec fn obeys_sub_spec() -> bool {
        true
    }

    open spec fn sub_req(self, rhs: Period) -> bool {
        period_back_ok(self, rhs@)
    }

    open spec fn sub_spec(self, rhs: Period) -> TimePoint {
        period_added(self, normalize(parts_neg(rhs@)))
    }
}

impl core::ops::Sub<Period> for TimePoint {
    type Output = TimePoint;

    fn sub(self, rhs: Period) -> (r: TimePoint)
        ensures
            r == period_added(self, normalize(parts_neg(rhs@))),
    {
        self.sub_period(rhs)
    }
}

/// Second steps keep the zone and the precision.
proof fn lemma_second_runs_keep_zone(t: TimePoint, n: nat)
    ensures
        seconds_after(t, n).zone == t.zone,
        seconds_after(t, n).precision == t.precision,
        seconds_before(t, n).zone == t.zone,
        seconds_before(t, n).precision == t.precision,
    decreases n,
{
    if n > 0 {
        lemma_second_runs_keep_zone(t, (n - 1) as nat);
    }
}

/// Day steps keep the zone and the precision.
proof fn lemma_day_runs_keep_zone(t: TimePoint, n: nat)
    ensures
        days_forward(t, n).zone == t.zone,
        days_forward(t, n).precision == t.precision,
        days_back(t, n).zone == t.zone,
        days_back(t, n).precision == t.precision,
    decreases n,
{
    if n > 0 {
        lemma_day_runs_keep_zone(t, (n - 1) as nat);
    }
}

/// Arithmetic keeps a point's zone, precision and uncertainty: moving it by a number of
/// seconds, by a duration or by a period changes only its wall clock.
pub proof fn lemma_arithmetic_keeps_zone(t: TimePoint, n: nat, d: int, p: PeriodParts)
    ensures
        seconds_after(t, n).zone == t.zone && seconds_after(t, n).precision == t.precision,
        seconds_before(t, n).zone == t.zone && seconds_before(t, n).precision == t.precision,
        shifted(t, d).zone == t.zone && shifted(t, d).precision == t.precision && shifted(t, d).uncertainty
            == t.uncertainty,
        period_added(t, p).zone == t.zone && period_added(t, p).precision == t.precision
            && period_added(t, p).uncertainty == t.uncertainty,
{
    lemma_second_runs_keep_zone(t, n);
    lemma_second_runs_keep_zone(t, forward_steps(t, d as nat));
    lemma_second_runs_keep_zone(t, backward_steps(t, (-d) as nat));
    let m = months_added(years_added(t, p.0), p.1);
    lemma_day_runs_keep_zone(m, p.2 as nat);
    lemma_day_runs_keep_zone(m, (-p.2) as nat);
    let c = calendar_moved(t, p);
    let ms = time_part_ms(p);
    lemma_second_runs_keep_zone(c, forward_steps(c, ms as nat));
    lemma_second_runs_keep_zone(c, backward_steps(c, (-ms) as nat));
}

} // verus!
