//! Reading a point's wall clock in another zone.
use vstd::prelude::*;
use crate::tai::{tai_convertible, tai_of, tai_to_utc, utc_convertible, utc_of, utc_to_tai};
use crate::time_point::{can_add_seconds, can_sub_seconds, seconds_after, seconds_before, TimePoint};
use crate::time_zone::{fixed_offset, fixed_offset_seconds, zone_offset, TimeZone};
use crate::reversal::{
    lemma_back_run_ignores_fraction, lemma_backward_keeps_whole_millisecond,
    lemma_forward_run_ignores_fraction, lemma_runs_ignore_zone, lemma_seconds_redone,
    lemma_seconds_undone, rezoned, valid_clock, whole_second,
};

verus! {

/// The UTC wall clock of `t` when `t` is read with a zone offset of `offset` seconds: the
/// clock is stepped back by the offset, second by second. The millisecond and the uncertainty
/// are kept.
pub open spec fn utc_reading(t: TimePoint, offset: int) -> TimePoint {
    let moved = if offset > 0 {
        seconds_before(t, offset as nat)
    } else {
        seconds_after(t, (-offset) as nat)
    };
    TimePoint { zone: TimeZone::UTC, millisecond: t.millisecond, uncertainty: t.uncertainty, ..moved }
}

/// Whether every second step of `utc_reading(t, offset)` can be computed.
pub open spec fn reading_ok(t: TimePoint, offset: int) -> bool {
    &&& offset > 0 ==> can_sub_seconds(t, offset as nat)
    &&& offset <= 0 ==> can_add_seconds(t, (-offset) as nat)
}

/// What `as_utc` gives for `t`: its UTC reading, or the text of the reason there is none.
pub open spec fn as_utc_result(t: TimePoint) -> Result<TimePoint, Seq<char>> {
    match zone_offset(t.zone) {
        Some(offset) => Ok(utc_reading(t, offset)),
        None => Err("TAI has no fixed UTC offset"@),
    }
}

/// Whether `as_utc_result(t)` can be computed.
pub open spec fn as_utc_ok(t: TimePoint) -> bool {
    match zone_offset(t.zone) {
        Some(offset) => reading_ok(t, offset),
        None => true,
    }
}

/// A UTC wall clock shown in a zone `offset` seconds ahead of UTC; the millisecond is kept.
pub open spec fn local_reading(utc: TimePoint, offset: int, zone: TimeZone) -> TimePoint {
    let moved = if offset > 0 {
        seconds_after(utc, offset as nat)
    } else {
        seconds_before(utc, (-offset) as nat)
    };
    TimePoint { zone, millisecond: utc.millisecond, ..moved }
}

/// Whether every second step of `local_reading(utc, offset, _)` can be computed.
pub open spec fn local_ok(utc: TimePoint, offset: int) -> bool {
    &&& offset > 0 ==> can_add_seconds(utc, offset as nat)
    &&& offset <= 0 ==> can_sub_seconds(utc, (-offset) as nat)
}

/// The UTC point that a conversion starts from: TAI goes through the leap-second table,
/// every other zone through its fixed offset.
pub open spec fn utc_source(t: TimePoint) -> Result<TimePoint, Seq<char>> {
    if t.zone == TimeZone::TAI {
        utc_of(t)
    } else {
        as_utc_result(t)
    }
}

/// Whether `utc_source(t)` can be computed.
pub open spec fn source_ok(t: TimePoint) -> bool {
    if t.zone == TimeZone::TAI {
        utc_convertible(t)
    } else {
        as_utc_ok(t)
    }
}

/// A UTC point shown in `zone`.
pub open spec fn from_utc(utc: TimePoint, zone: TimeZone) -> Result<TimePoint, Seq<char>> {
    match zone {
        TimeZone::TAI => tai_of(utc),
        TimeZone::Fixed { hours, minutes } => Ok(
            local_reading(utc, fixed_offset_seconds(hours as int, minutes as int), zone),
        ),
        _ => Ok(TimePoint { zone, ..utc }),
    }
}

/// Whether `from_utc(utc, zone)` can be computed.
pub open spec fn target_ok(utc: TimePoint, zone: TimeZone) -> bool {
    match zone {
        TimeZone::TAI => tai_convertible(utc),
        TimeZone::Fixed { hours, minutes } => local_ok(
            utc,
            fixed_offset_seconds(hours as int, minutes as int),
        ),
        _ => true,
    }
}

/// What `convert_to` gives: `t` itself when already in `zone`, else `t` read in UTC and shown
/// in `zone`, with `t`'s uncertainty; or the text of the first failure.
pub open spec fn converted(t: TimePoint, zone: TimeZone) -> Result<TimePoint, Seq<char>> {
    if t.zone == zone {
        Ok(t)
    } else {
        match utc_source(t) {
            Err(msg) => Err(msg),
            Ok(utc) => match from_utc(utc, zone) {
                Err(msg) => Err(msg),
                Ok(r) => Ok(TimePoint { uncertainty: t.uncertainty, ..r }),
            },
        }
    }
}

/// Whether `converted(t, zone)` can be computed.
pub open spec fn convert_ok(t: TimePoint, zone: TimeZone) -> bool {
    t.zone != zone ==> (source_ok(t) && (utc_source(t) matches Ok(utc) ==> target_ok(utc, zone)))
}

/// Whether a computed result matches the expected one, errors compared by their text.
pub open spec fn point_result(r: Result<TimePoint, String>, expected: Result<TimePoint, Seq<char>>) -> bool {
    match expected {
        Ok(t) => r == Ok::<TimePoint, String>(t),
        Err(msg) => r matches Err(e) && e@ == msg,
    }
}

impl TimePoint {
    /// Interprets this point's wall clock together with its zone offset as a UTC wall clock.
    /// Errors for TAI, which is not a fixed-offset zone.
    pub fn as_utc(&self) -> (r: Result<TimePoint, String>)
        requires
            as_utc_ok(*self),
        ensures
            point_result(r, as_utc_result(*self)),
    {
        let offset = match self.utc_offset_seconds() {
            Ok(o) => o,
            Err(e) => return Err(e),
        };
        let uncertainty = self.uncertainty;
        let mut utc = if offset > 0 {
            self.sub_seconds(offset as u64)
        } else {
            self.add_seconds((-offset) as u64)
        };
        utc.zone = TimeZone::UTC;
        utc.millisecond = self.millisecond;
        utc.uncertainty = uncertainty;
        Ok(utc)
    }

    /// Converts this point to the equivalent wall clock in another zone.
    ///
    /// Supports UTC, `Unix`, and fixed-offset zones directly. Converting to or from TAI
    /// routes through the leap-second-aware TAI conversion.
    pub fn convert_to(&self, zone: TimeZone) -> (r: Result<TimePoint, String>)
        requires
            convert_ok(*self, zone),
        ensures
            point_result(r, converted(*self, zone)),
    {
        if self.zone == zone {
            return Ok(*self);
        }
        let uncertainty = self.uncertainty;
        let utc = if self.zone == TimeZone::TAI {
            match tai_to_utc(self) {
                Ok(u) => u,
                Err(e) => return Err(e),
            }
        } else {
            match self.as_utc() {
                Ok(u) => u,
                Err(e) => return Err(e),
            }
        };
        let mut result = match zone {
            TimeZone::TAI => match utc_to_tai(&utc) {
                Ok(t) => t,
                Err(e) => return Err(e),
            },
            TimeZone::Fixed { hours, minutes } => {
                let offset = fixed_offset(hours, minutes);
                let mut local = if offset > 0 {
                    utc.add_seconds(offset as u64)
                } else {
                    utc.sub_seconds((-offset) as u64)
                };
                local.zone = zone;
                local.millisecond = utc.millisecond;
                local
            },
            _ => utc.with_zone(zone),
        };
        result.uncertainty = uncertainty;
        Ok(result)
    }

    /// Convenience conversion to UTC.
    pub fn to_utc(&self) -> (r: Result<TimePoint, String>)
        requires
            convert_ok(*self, TimeZone::UTC),
        ensures
            point_result(r, converted(*self, TimeZone::UTC)),
    {
        self.convert_to(TimeZone::UTC)
    }
}

/// A valid clock read in UTC `n` seconds behind it, then stepped `n` seconds forward, is the
/// clock again in UTC.
proof fn lemma_ahead_and_back(t: TimePoint, n: nat)
    requires
        valid_clock(t),
        0 < n,
        can_sub_seconds(t, n),
    ensures
        ({
            let u = TimePoint {
                zone: TimeZone::UTC,
                millisecond: t.millisecond,
                uncertainty: t.uncertainty,
                ..seconds_before(t, n)
            };
            can_add_seconds(u, n) && seconds_after(u, n) == rezoned(whole_second(t), TimeZone::UTC)
        }),
{
    let sb = seconds_before(t, n);
    let u = TimePoint { zone: TimeZone::UTC, millisecond: t.millisecond, uncertainty: t.uncertainty, ..sb };
    lemma_seconds_redone(t, n);
    lemma_forward_run_ignores_fraction(u, n);
    lemma_forward_run_ignores_fraction(sb, n);
    lemma_runs_ignore_zone(whole_second(sb), TimeZone::UTC, n);
    assert(whole_second(u) == rezoned(whole_second(sb), TimeZone::UTC));
}

/// A valid clock read in UTC `n` seconds ahead of it, then stepped `n` seconds back, is the
/// clock again in UTC, up to its milliseconds and uncertainty.
proof fn lemma_behind_and_back(t: TimePoint, n: nat)
    requires
        valid_clock(t),
        0 < n,
        can_add_seconds(t, n),
    ensures
        ({
            let u = TimePoint {
                zone: TimeZone::UTC,
                millisecond: t.millisecond,
                uncertainty: t.uncertainty,
                ..seconds_after(t, n)
            };
            can_sub_seconds(u, n) && whole_second(seconds_before(u, n)) == rezoned(
                whole_second(t),
                TimeZone::UTC,
            )
        }),
{
    let sa = seconds_after(t, n);
    let u = TimePoint { zone: TimeZone::UTC, millisecond: t.millisecond, uncertainty: t.uncertainty, ..sa };
    lemma_seconds_undone(t, n);
    lemma_step_is_whole_run(t, n);
    assert(whole_second(u) == rezoned(sa, TimeZone::UTC));
    lemma_back_run_ignores_fraction(u, n);
    lemma_runs_ignore_zone(sa, TimeZone::UTC, n);
}

/// Reading a valid point of a fixed-offset zone in UTC and then back in its zone gives the
/// point again.
pub proof fn lemma_fixed_round_trip(t: TimePoint)
    requires
        t.zone is Fixed,
        valid_clock(t),
        reading_ok(t, zone_offset(t.zone)->0),
    ensures
        convert_ok(t, TimeZone::UTC),
        converted(t, TimeZone::UTC) is Ok,
        convert_ok(converted(t, TimeZone::UTC)->Ok_0, t.zone),
        converted(converted(t, TimeZone::UTC)->Ok_0, t.zone) == Ok::<TimePoint, Seq<char>>(t),
{
    let o = zone_offset(t.zone)->0;
    let u = converted(t, TimeZone::UTC)->Ok_0;
    assert(utc_reading(u, 0) == u);
    if o > 0 {
        let n = o as nat;
        assert(u == TimePoint {
            zone: TimeZone::UTC,
            millisecond: t.millisecond,
            uncertainty: t.uncertainty,
            ..seconds_before(t, n)
        });
        lemma_ahead_and_back(t, n);
    } else if o < 0 {
        let n = (-o) as nat;
        assert(u == TimePoint {
            zone: TimeZone::UTC,
            millisecond: t.millisecond,
            uncertainty: t.uncertainty,
            ..seconds_after(t, n)
        });
        lemma_behind_and_back(t, n);
    }
}

/// A forward run of at least one step ends without milliseconds or uncertainty.
proof fn lemma_step_is_whole_run(t: TimePoint, n: nat)
    requires
        n > 0,
    ensures
        whole_second(seconds_after(t, n)) == seconds_after(t, n),
{
}

/// Converting a point that is not in TAI to another zone is converting it to UTC and then to
/// that zone.
pub proof fn lemma_conversion_through_utc(t: TimePoint, zone: TimeZone)
    requires
        t.zone != TimeZone::TAI,
        t.zone != zone,
        as_utc_ok(t),
    ensures
        converted(t, TimeZone::UTC) is Ok,
        converted(t, zone) == converted(converted(t, TimeZone::UTC)->Ok_0, zone),
{
    let u = converted(t, TimeZone::UTC)->Ok_0;
    if t.zone == TimeZone::UTC {
        assert(utc_reading(t, 0) == t);
    }
    assert(u.zone == TimeZone::UTC);
    assert(utc_reading(u, 0) == u);
}

/// Reading a UTC clock in a zone does not look at its uncertainty: two UTC points that differ
/// only there give the same reading, up to the uncertainty.
proof fn lemma_reading_ignores_uncertainty(utc: TimePoint, c: Option<crate::uncertainty::Uncertainty>, zone: TimeZone)
    requires
        utc.zone == TimeZone::UTC,
        zone != TimeZone::TAI,
    ensures
        ({
            let u = TimePoint { uncertainty: c, ..utc };
            &&& from_utc(u, zone) is Ok
            &&& from_utc(utc, zone) is Ok
            &&& TimePoint { uncertainty: c, ..from_utc(u, zone)->Ok_0 } == TimePoint {
                uncertainty: c,
                ..from_utc(utc, zone)->Ok_0
            }
        }),
{
    let u = TimePoint { uncertainty: c, ..utc };
    assert(whole_second(u) == whole_second(utc));
    match zone {
        TimeZone::Fixed { hours, minutes } => {
            let o = fixed_offset_seconds(hours as int, minutes as int);
            if o > 0 {
                let n = o as nat;
                lemma_forward_run_ignores_fraction(u, n);
                lemma_forward_run_ignores_fraction(utc, n);
            } else if o < 0 {
                let n = (-o) as nat;
                lemma_back_run_ignores_fraction(u, n);
                lemma_back_run_ignores_fraction(utc, n);
                assert(whole_second(seconds_before(u, n)) == whole_second(seconds_before(utc, n)));
            }
        },
        _ => {},
    }
}

/// Converting a point to a zone other than its own, a TAI point included, is converting it
/// to UTC and then from UTC to that zone: both give the same point, or the same error.
pub proof fn lemma_every_conversion_through_utc(t: TimePoint, zone: TimeZone)
    requires
        t.zone != zone,
    ensures
        converted(t, zone) == (match converted(t, TimeZone::UTC) {
            Ok(u) => converted(u, zone),
            Err(e) => Err(e),
        }),
{
    if t.zone == TimeZone::UTC {
        return;
    }
    if t.zone == TimeZone::TAI {
        match utc_of(t) {
            Err(_) => {},
            Ok(utc) => {
                let u = TimePoint { uncertainty: t.uncertainty, ..utc };
                assert(converted(t, TimeZone::UTC) == Ok::<TimePoint, Seq<char>>(u));
                if zone != TimeZone::UTC {
                    assert(utc_reading(u, 0) == u);
                    lemma_reading_ignores_uncertainty(utc, t.uncertainty, zone);
                }
            },
        }
    } else {
        let u = converted(t, TimeZone::UTC)->Ok_0;
        assert(utc_reading(u, 0) == u);
    }
}

} // verus!
