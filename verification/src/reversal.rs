//! Stepping a wall clock forward and back again.
//!
//! A step to the next second and a step to the previous second undo each other on a valid
//! clock reading, the leap second 23:59:60 included.
use vstd::prelude::*;
use crate::time_point::{
    can_add_seconds, can_sub_seconds, into_leap_second, next_second, on_leap_day, previous_day_start,
    previous_second, second_back_ok, second_step_ok, seconds_after, seconds_before, TimePoint,
};
use crate::time_arithmetic::{
    backward_steps, earlier_ok, forward_steps, lemma_least_is_steps, reaches, same_second, shift_ok,
    shifted, shifted_back, shifted_earlier, shifted_forward, since, since_ok,
};
use crate::time_point::clock_before;
use crate::time_zone::TimeZone;
use crate::util::{is_calendar_date, month_length};

verus! {

/// A wall clock that names a real instant: a calendar date, a time of day with at most 999
/// milliseconds, and a second 60 only at 23:59 of a day that ends with a leap second.
pub open spec fn valid_clock(t: TimePoint) -> bool {
    &&& is_calendar_date(t.year as int, t.month as int, t.day as int)
    &&& t.hour < 24
    &&& t.minute < 60
    &&& (t.second < 60 || (t.second == 60 && t.hour == 23 && t.minute == 59 && on_leap_day(t)))
    &&& t.millisecond < 1000
}

/// `t` without its milliseconds and uncertainty, as every second step leaves a point.
pub open spec fn whole_second(t: TimePoint) -> TimePoint {
    TimePoint { millisecond: 0, uncertainty: None, ..t }
}

/// The day after a calendar day, stepped back, is that day again.
proof fn lemma_day_after_then_before(t: TimePoint)
    requires
        is_calendar_date(t.year as int, t.month as int, t.day as int),
        t.day == month_length(t.year as int, t.month as int) && t.month == 12 ==> t.year < u32::MAX,
    ensures
        ({
            let n = crate::time_point::next_day(t);
            let p = previous_day_start(n);
            p.year == t.year && p.month == t.month && p.day == t.day && is_calendar_date(
                n.year as int,
                n.month as int,
                n.day as int,
            )
        }),
{
}

/// Stepping one second forward from a valid clock gives a valid clock from which one second
/// back returns to where it started.
pub proof fn lemma_second_undone(t: TimePoint)
    requires
        valid_clock(t),
        second_step_ok(t),
    ensures
        valid_clock(next_second(t)),
        second_back_ok(next_second(t)),
        previous_second(next_second(t)) == whole_second(t),
        next_second(t).millisecond == 0,
        next_second(t).uncertainty is None,
{
    if into_leap_second(t) {
    } else if t.second == 60 || t.second == 59 {
        if t.minute == 59 && t.hour == 23 {
            lemma_day_after_then_before(t);
        }
    }
}

/// The day before a calendar day, stepped forward, is that day again.
proof fn lemma_day_before_then_after(s: TimePoint)
    requires
        is_calendar_date(s.year as int, s.month as int, s.day as int),
        crate::time_point::day_back_ok(s),
    ensures
        ({
            let p = previous_day_start(s);
            let n = crate::time_point::next_day(p);
            n.year == s.year && n.month == s.month && n.day == s.day && is_calendar_date(
                p.year as int,
                p.month as int,
                p.day as int,
            ) && (p.day == month_length(p.year as int, p.month as int) && p.month == 12 ==> p.year
                < u32::MAX)
        }),
{
}

/// Stepping one second back from a valid clock gives a valid clock from which one second
/// forward returns to where it started.
pub proof fn lemma_second_redone(s: TimePoint)
    requires
        valid_clock(s),
        second_back_ok(s),
    ensures
        valid_clock(previous_second(s)),
        second_step_ok(previous_second(s)),
        next_second(previous_second(s)) == whole_second(s),
{
    if s.second == 0 && s.minute == 0 && s.hour == 0 {
        lemma_day_before_then_after(s);
    }
}

/// Every forward step yields a point without milliseconds or uncertainty.
proof fn lemma_step_is_whole(t: TimePoint)
    ensures
        whole_second(next_second(t)) == next_second(t),
{
}

/// Every point along a forward run from a valid clock is a valid clock.
pub proof fn lemma_forward_run_valid(t: TimePoint, n: nat, k: nat)
    requires
        valid_clock(t),
        can_add_seconds(t, n),
        k <= n,
    ensures
        valid_clock(seconds_after(t, k)),
    decreases k,
{
    if k > 0 {
        lemma_forward_run_valid(t, n, (k - 1) as nat);
        assert(second_step_ok(seconds_after(t, (k - 1) as nat)));
        lemma_second_undone(seconds_after(t, (k - 1) as nat));
    }
}

/// Stepping `m` seconds back from the end of a forward run of `n` seconds retraces it.
proof fn lemma_retrace(t: TimePoint, n: nat, m: nat)
    requires
        valid_clock(t),
        can_add_seconds(t, n),
        0 < n,
        m <= n,
    ensures
        seconds_before(seconds_after(t, n), m) == (if m == n {
            whole_second(t)
        } else {
            seconds_after(t, (n - m) as nat)
        }),
        forall|j: nat| j < m ==> second_back_ok(#[trigger] seconds_before(seconds_after(t, n), j)),
    decreases m,
{
    if m > 0 {
        lemma_retrace(t, n, (m - 1) as nat);
        let k = (n - m) as nat;
        lemma_forward_run_valid(t, n, k);
        assert(second_step_ok(seconds_after(t, k)));
        lemma_second_undone(seconds_after(t, k));
        if k > 0 {
            lemma_step_is_whole(seconds_after(t, (k - 1) as nat));
        }
        assert(seconds_after(t, (k + 1) as nat) == next_second(seconds_after(t, k)));
        assert forall|j: nat| j < m implies second_back_ok(
            #[trigger] seconds_before(seconds_after(t, n), j),
        ) by {
            if j == m - 1 {
                assert(seconds_before(seconds_after(t, n), j) == seconds_after(t, (k + 1) as nat));
            }
        }
    }
}

/// A forward run of `n` seconds from a valid clock is undone by `n` steps back: the
/// point returns without its milliseconds and uncertainty.
pub proof fn lemma_seconds_undone(t: TimePoint, n: nat)
    requires
        valid_clock(t),
        can_add_seconds(t, n),
        0 < n,
    ensures
        can_sub_seconds(seconds_after(t, n), n),
        seconds_before(seconds_after(t, n), n) == whole_second(t),
{
    lemma_retrace(t, n, n);
}

/// A forward step does not look at the milliseconds or the uncertainty.
proof fn lemma_step_ignores_fraction(t: TimePoint)
    ensures
        next_second(whole_second(t)) == next_second(t),
        second_step_ok(whole_second(t)) == second_step_ok(t),
{
}

/// Every point along a backward run from a valid clock is a valid clock.
pub proof fn lemma_backward_run_valid(t: TimePoint, n: nat, k: nat)
    requires
        valid_clock(t),
        can_sub_seconds(t, n),
        k <= n,
    ensures
        valid_clock(seconds_before(t, k)),
    decreases k,
{
    if k > 0 {
        lemma_backward_run_valid(t, n, (k - 1) as nat);
        assert(second_back_ok(seconds_before(t, (k - 1) as nat)));
        lemma_second_redone(seconds_before(t, (k - 1) as nat));
    }
}

/// Stepping `m` seconds forward from the end of a backward run of `n` seconds
/// retraces it.
proof fn lemma_redo(t: TimePoint, n: nat, m: nat)
    requires
        valid_clock(t),
        can_sub_seconds(t, n),
        m <= n,
    ensures
        seconds_after(seconds_before(t, n), m) == (if m == 0 {
            seconds_before(t, n)
        } else {
            whole_second(seconds_before(t, (n - m) as nat))
        }),
        forall|j: nat| j < m ==> second_step_ok(#[trigger] seconds_after(seconds_before(t, n), j)),
    decreases m,
{
    if m > 0 {
        lemma_redo(t, n, (m - 1) as nat);
        let k = (n - m) as nat;
        lemma_backward_run_valid(t, n, k);
        assert(second_back_ok(seconds_before(t, k)));
        lemma_second_redone(seconds_before(t, k));
        assert(seconds_before(t, (k + 1) as nat) == previous_second(seconds_before(t, k)));
        lemma_step_ignores_fraction(seconds_before(t, (k + 1) as nat));
        assert forall|j: nat| j < m implies second_step_ok(
            #[trigger] seconds_after(seconds_before(t, n), j),
        ) by {
            if j == m - 1 {
                if j > 0 {
                    lemma_step_ignores_fraction(seconds_before(t, (k + 1) as nat));
                }
            }
        }
    }
}

/// A backward run of `n` seconds from a valid clock is undone by `n` steps forward:
/// the point returns without its milliseconds and uncertainty.
pub proof fn lemma_seconds_redone(t: TimePoint, n: nat)
    requires
        valid_clock(t),
        can_sub_seconds(t, n),
        0 < n,
    ensures
        can_add_seconds(seconds_before(t, n), n),
        seconds_after(seconds_before(t, n), n) == whole_second(t),
{
    lemma_redo(t, n, n);
}

/// A backward step does not look at the milliseconds or the uncertainty, beyond keeping them.
proof fn lemma_back_ignores_fraction(x: TimePoint)
    ensures
        whole_second(previous_second(whole_second(x))) == whole_second(previous_second(x)),
        second_back_ok(whole_second(x)) == second_back_ok(x),
{
}

/// A backward run depends on the milliseconds and uncertainty of its start only through what
/// it keeps of them.
pub proof fn lemma_back_run_ignores_fraction(x: TimePoint, m: nat)
    ensures
        whole_second(seconds_before(whole_second(x), m)) == whole_second(seconds_before(x, m)),
        can_sub_seconds(whole_second(x), m) == can_sub_seconds(x, m),
    decreases m,
{
    if m > 0 {
        lemma_back_run_ignores_fraction(x, (m - 1) as nat);
        lemma_back_ignores_fraction(seconds_before(x, (m - 1) as nat));
        lemma_back_ignores_fraction(seconds_before(whole_second(x), (m - 1) as nat));
    }
    assert forall|j: nat| j < m implies second_back_ok(
        #[trigger] seconds_before(whole_second(x), j),
    ) == second_back_ok(seconds_before(x, j)) by {
        lemma_back_run_ignores_fraction(x, j);
        lemma_back_ignores_fraction(seconds_before(x, j));
        lemma_back_ignores_fraction(seconds_before(whole_second(x), j));
    }
}

/// A forward run depends on its start only through its fraction-free part.
pub proof fn lemma_forward_run_ignores_fraction(x: TimePoint, m: nat)
    ensures
        m > 0 ==> seconds_after(whole_second(x), m) == seconds_after(x, m),
        can_add_seconds(whole_second(x), m) == can_add_seconds(x, m),
    decreases m,
{
    if m > 0 {
        lemma_forward_run_ignores_fraction(x, (m - 1) as nat);
        lemma_step_ignores_fraction(x);
    }
    assert forall|j: nat| j < m implies second_step_ok(
        #[trigger] seconds_after(whole_second(x), j),
    ) == second_step_ok(seconds_after(x, j)) by {
        lemma_forward_run_ignores_fraction(x, j);
        lemma_step_ignores_fraction(x);
    }
}

/// Moving a valid point by a duration and then back by the same duration gives the point
/// back.
pub proof fn lemma_duration_round_trip(t: TimePoint, d: int)
    requires
        valid_clock(t),
        shift_ok(t, d),
    ensures
        earlier_ok(shifted(t, d), d),
        shifted_earlier(shifted(t, d), d) == t,
{
    if d >= 0 {
        let ms = d as nat;
        let n = forward_steps(t, ms);
        let r = shifted(t, d);
        assert(r == shifted_forward(t, ms));
        assert(backward_steps(r, ms) == n);
        if n > 0 {
            lemma_seconds_undone(t, n);
            lemma_step_is_whole(seconds_after(t, (n - 1) as nat));
            assert(whole_second(r) == seconds_after(t, n));
            lemma_back_run_ignores_fraction(r, n);
        }
    } else {
        let ms = (-d) as nat;
        let n = backward_steps(t, ms);
        let r = shifted(t, d);
        assert(r == shifted_back(t, ms));
        assert(forward_steps(r, ms) == n);
        if n > 0 {
            lemma_seconds_redone(t, n);
            lemma_back_run_ignores_fraction(t, n);
            lemma_forward_run_ignores_fraction(r, n);
            lemma_forward_run_ignores_fraction(seconds_before(t, n), n);
            assert(whole_second(r) == whole_second(seconds_before(t, n)));
        }
    }
}

/// Moving a valid point back by a duration and then forward by the same duration gives the
/// point back.
pub proof fn lemma_duration_round_trip_back(t: TimePoint, d: int)
    requires
        valid_clock(t),
        i64::MIN < d <= i64::MAX,
        earlier_ok(t, d),
    ensures
        shift_ok(shifted_earlier(t, d), d),
        shifted(shifted_earlier(t, d), d) == t,
{
    if d == 0 {
        assert(shifted_earlier(t, d) == t);
    } else {
        assert(shifted(t, -d) == shifted_earlier(t, d));
        assert(shift_ok(t, -d));
        lemma_duration_round_trip(t, -d);
        assert(shifted_earlier(shifted(t, -d), -d) == shifted(shifted_earlier(t, d), d));
    }
}

/// The wall clock of `a` down to the second comes strictly before that of `b`.
pub open spec fn second_before(a: TimePoint, b: TimePoint) -> bool {
    if a.year != b.year {
        a.year < b.year
    } else if a.month != b.month {
        a.month < b.month
    } else if a.day != b.day {
        a.day < b.day
    } else if a.hour != b.hour {
        a.hour < b.hour
    } else if a.minute != b.minute {
        a.minute < b.minute
    } else {
        a.second < b.second
    }
}

/// Every forward step moves the clock to a later second.
pub proof fn lemma_step_advances(t: TimePoint)
    requires
        second_step_ok(t),
    ensures
        second_before(t, next_second(t)),
{
}

/// Each point of a forward run lies at a later second than the points before it.
pub proof fn lemma_run_advances(t: TimePoint, n: nat, k: nat)
    requires
        can_add_seconds(t, n),
        k < n,
    ensures
        second_before(seconds_after(t, k), seconds_after(t, n)),
    decreases n - k,
{
    lemma_step_advances(seconds_after(t, (n - 1) as nat));
    if k < n - 1 {
        lemma_run_advances(t, (n - 1) as nat, k);
    }
}

/// The time from `e` to a later `a` that a forward run of `n` seconds first reaches.
proof fn lemma_since_by_steps(a: TimePoint, e: TimePoint, n: nat)
    requires
        clock_before(e, a),
        same_second(seconds_after(e, n), a),
        can_add_seconds(e, n),
        n * 1000 + a.millisecond <= i64::MAX,
        i64::MIN < n * 1000 + a.millisecond - e.millisecond,
    ensures
        since_ok(a, e),
        since(a, e) == n * 1000 + a.millisecond - e.millisecond,
{
    assert(reaches(e, a, n));
    assert forall|k: nat| k < n implies !reaches(e, a, k) by {
        lemma_run_advances(e, n, k);
    }
    lemma_least_is_steps(e, a, n);
    assert(a != e);
}

/// The time to a point moved later by a positive duration is that duration.
proof fn lemma_difference_forward(t: TimePoint, d: int)
    requires
        valid_clock(t),
        0 < d,
        d + t.millisecond <= i64::MAX,
        shift_ok(t, d),
    ensures
        since_ok(shifted(t, d), t),
        since(shifted(t, d), t) == d,
{
    let r = shifted(t, d);
    let ms = d as nat;
    let n = forward_steps(t, ms);
    assert(r == shifted_forward(t, ms));
    if n > 0 {
        lemma_run_advances(t, n, 0);
    }
    assert(clock_before(t, r));
    lemma_since_by_steps(r, t, n);
}

/// The time to a point moved earlier by a positive duration is minus that duration.
proof fn lemma_difference_backward(t: TimePoint, d: int)
    requires
        valid_clock(t),
        -i64::MAX + 999 <= d < 0,
        shift_ok(t, d),
    ensures
        since_ok(shifted(t, d), t),
        since(shifted(t, d), t) == d,
{
    let r = shifted(t, d);
    let ms = (-d) as nat;
    let n = backward_steps(t, ms);
    assert(r == shifted_back(t, ms));
    if n > 0 {
        lemma_seconds_redone(t, n);
        lemma_back_run_ignores_fraction(t, n);
        lemma_forward_run_ignores_fraction(r, n);
        lemma_forward_run_ignores_fraction(seconds_before(t, n), n);
        assert(seconds_after(r, n) == whole_second(t));
        lemma_run_advances(r, n, 0);
    }
    assert(clock_before(r, t));
    lemma_since_by_steps(t, r, n);
}

/// The time from a valid point to that point moved by a duration is the duration, whenever
/// that time fits in 64-bit milliseconds.
pub proof fn lemma_difference_recreates(t: TimePoint, d: int)
    requires
        valid_clock(t),
        shift_ok(t, d),
        -i64::MAX + 999 <= d,
        d + t.millisecond <= i64::MAX,
    ensures
        since_ok(shifted(t, d), t),
        since(shifted(t, d), t) == d,
{
    if d > 0 {
        lemma_difference_forward(t, d);
    } else if d < 0 {
        lemma_difference_backward(t, d);
    } else {
        assert(shifted(t, d) == t);
    }
}

/// Two points whose wall clocks agree down to the millisecond are no time apart.
pub proof fn lemma_same_clock_no_time(a: TimePoint, b: TimePoint)
    requires
        !clock_before(a, b),
        !clock_before(b, a),
    ensures
        since(a, b) == 0,
        since(b, a) == 0,
{
    assert(reaches(a, b, 0));
    assert(reaches(b, a, 0));
    lemma_least_is_steps(a, b, 0);
    lemma_least_is_steps(b, a, 0);
}

/// The time from `b` to `a` is minus the time from `a` to `b`.
pub proof fn lemma_since_antisymmetric(a: TimePoint, b: TimePoint)
    ensures
        since(a, b) == -since(b, a),
{
    if !clock_before(a, b) && !clock_before(b, a) {
        lemma_same_clock_no_time(a, b);
    }
}

/// `t` shown in another zone, its wall clock unchanged.
pub open spec fn rezoned(t: TimePoint, zone: TimeZone) -> TimePoint {
    TimePoint { zone, ..t }
}

/// Forward steps carry the zone along and do not look at it.
proof fn lemma_forward_ignores_zone(t: TimePoint, zone: TimeZone, n: nat)
    ensures
        seconds_after(rezoned(t, zone), n) == rezoned(seconds_after(t, n), zone),
    decreases n,
{
    if n > 0 {
        lemma_forward_ignores_zone(t, zone, (n - 1) as nat);
    }
}

/// Backward steps carry the zone along and do not look at it.
proof fn lemma_backward_ignores_zone(t: TimePoint, zone: TimeZone, n: nat)
    ensures
        seconds_before(rezoned(t, zone), n) == rezoned(seconds_before(t, n), zone),
    decreases n,
{
    if n > 0 {
        lemma_backward_ignores_zone(t, zone, (n - 1) as nat);
    }
}

/// Whether a run of second steps can be computed does not depend on the zone.
pub proof fn lemma_runs_ignore_zone(t: TimePoint, zone: TimeZone, n: nat)
    ensures
        seconds_after(rezoned(t, zone), n) == rezoned(seconds_after(t, n), zone),
        seconds_before(rezoned(t, zone), n) == rezoned(seconds_before(t, n), zone),
        can_add_seconds(rezoned(t, zone), n) == can_add_seconds(t, n),
        can_sub_seconds(rezoned(t, zone), n) == can_sub_seconds(t, n),
{
    lemma_forward_ignores_zone(t, zone, n);
    lemma_backward_ignores_zone(t, zone, n);
    assert forall|j: nat|
        #![trigger seconds_after(rezoned(t, zone), j)]
        #![trigger seconds_after(t, j)]
        j < n implies second_step_ok(seconds_after(rezoned(t, zone), j)) == second_step_ok(
        seconds_after(t, j),
    ) by {
        lemma_forward_ignores_zone(t, zone, j);
    }
    assert forall|j: nat|
        #![trigger seconds_before(rezoned(t, zone), j)]
        #![trigger seconds_before(t, j)]
        j < n implies second_back_ok(seconds_before(rezoned(t, zone), j)) == second_back_ok(
        seconds_before(t, j),
    ) by {
        lemma_backward_ignores_zone(t, zone, j);
    }
}

/// A point without milliseconds keeps none through backward steps.
pub proof fn lemma_backward_keeps_whole_millisecond(x: TimePoint, n: nat)
    requires
        x.millisecond == 0,
    ensures
        seconds_before(x, n).millisecond == 0,
    decreases n,
{
    if n > 0 {
        lemma_backward_keeps_whole_millisecond(x, (n - 1) as nat);
    }
}

} // verus!
