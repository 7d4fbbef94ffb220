//! Time zone representation.
//!
//! A `TimePoint`'s fields are its local wall clock in its `TimeZone`. `UTC`,
//! `TAI`, and `Unix` are the built-in scales, and `Fixed` represents a named
//! zone by a constant UTC offset (for example `UTC-05:00` for Eastern Time in
//! winter). Fixed-offset zones keep their offset constant; daylight-saving
//! transitions must be applied by the caller.
use vstd::prelude::*;
use crate::text::{decimal, owned, push_decimal, push_padded, zero_padded};

verus! {

#[derive(Debug, PartialEq, Eq, Clone, Copy, Structural)]
pub enum TimeZone {
    UTC,
    TAI,
    Unix,
    Fixed { hours: i8, minutes: i8 },
}

/// An offset that `TimeZone::fixed` accepts: from UTC-14:59 to UTC+14:00.
pub open spec fn valid_fixed_offset(hours: int, minutes: int) -> bool {
    -14 <= hours <= 14 && 0 <= minutes <= 59 && !(hours == 14 && minutes > 0)
}

/// The UTC offset in seconds of a fixed-offset zone: the minutes carry the sign of the hours,
/// so that `-05:30` is five and a half hours behind UTC.
pub open spec fn fixed_offset_seconds(hours: int, minutes: int) -> int {
    if hours < 0 {
        hours * 3600 - minutes * 60
    } else {
        hours * 3600 + minutes * 60
    }
}

/// The offset in seconds of a zone with a fixed relation to UTC.
pub open spec fn zone_offset(zone: TimeZone) -> Option<int> {
    match zone {
        TimeZone::UTC => Some(0),
        TimeZone::Unix => Some(0),
        TimeZone::TAI => None,
        TimeZone::Fixed { hours, minutes } => Some(fixed_offset_seconds(hours as int, minutes as int)),
    }
}

/// Two-character (or longer) rendering of a minutes field, as `{:02}` prints it.
pub open spec fn minutes_text(minutes: int) -> Seq<char> {
    if minutes < 0 {
        seq!['-'] + decimal((-minutes) as nat)
    } else {
        zero_padded(minutes as nat, 2)
    }
}

/// Offset-style label of a zone.
pub open spec fn zone_label(zone: TimeZone) -> Seq<char> {
    match zone {
        TimeZone::UTC => "+00:00"@,
        TimeZone::TAI => "TAI"@,
        TimeZone::Unix => "unix"@,
        TimeZone::Fixed { hours, minutes } => {
            let sign = if hours < 0 { '-' } else { '+' };
            let magnitude = if hours < 0 { -hours } else { hours as int };
            seq![sign] + zero_padded(magnitude as nat, 2) + seq![':'] + minutes_text(minutes as int)
        },
    }
}

/// The UTC offset in seconds of a fixed-offset zone.
pub(crate) fn fixed_offset(hours: i8, minutes: i8) -> (r: i64)
    ensures
        r as int == fixed_offset_seconds(hours as int, minutes as int),
{
    if hours < 0 {
        (hours as i64) * 3600 - (minutes as i64) * 60
    } else {
        (hours as i64) * 3600 + (minutes as i64) * 60
    }
}

impl TimeZone {
    pub fn fixed(hours: i8, minutes: i8) -> (r: Result<Self, String>)
        ensures
            match r {
                Ok(z) => valid_fixed_offset(hours as int, minutes as int) && z == (TimeZone::Fixed {
                    hours,
                    minutes,
                }),
                Err(e) => !valid_fixed_offset(hours as int, minutes as int) && e@ == (if !(-14
                    <= hours <= 14) {
                    "Offset hours must be between -14 and 14"@
                } else if !(0 <= minutes <= 59) {
                    "Offset minutes must be between 0 and 59"@
                } else {
                    "Offset cannot exceed UTC+14:00"@
                }),
            },
    {
        if !(-14 <= hours && hours <= 14) {
            return Err(owned("Offset hours must be between -14 and 14"));
        }
        if !(0 <= minutes && minutes <= 59) {
            return Err(owned("Offset minutes must be between 0 and 59"));
        }
        if hours == 14 && minutes > 0 {
            return Err(owned("Offset cannot exceed UTC+14:00"));
        }
        Ok(TimeZone::Fixed { hours, minutes })
    }

    /// The UTC offset in seconds for zones with a fixed relationship to UTC.
    pub fn utc_offset_seconds(&self) -> (r: Result<i64, String>)
        ensures
            match r {
                Ok(s) => zone_offset(*self) == Some(s as int),
                Err(e) => zone_offset(*self) is None && e@ == "TAI has no fixed UTC offset"@,
            },
    {
        match self {
            TimeZone::UTC | TimeZone::Unix => Ok(0),
            TimeZone::TAI => Err(owned("TAI has no fixed UTC offset")),
            TimeZone::Fixed { hours, minutes } => Ok(fixed_offset(*hours, *minutes)),
        }
    }

    /// Offset-style label such as `+05:30` or `-05:00`.
    pub fn offset_label(&self) -> (r: String)
        ensures
            r@ == zone_label(*self),
    {
        match self {
            TimeZone::UTC => owned("+00:00"),
            TimeZone::TAI => owned("TAI"),
            TimeZone::Unix => owned("unix"),
            TimeZone::Fixed { hours, minutes } => {
                let mut out = String::new();
                proof {
                    reveal_strlit("-");
                    reveal_strlit("+");
                    reveal_strlit(":");
                }
                if *hours < 0 {
                    out.append("-");
                } else {
                    out.append("+");
                }
                let magnitude: u64 = if *hours < 0 {
                    (0i64 - *hours as i64) as u64
                } else {
                    *hours as u64
                };
                push_padded(&mut out, magnitude, 2);
                out.append(":");
                if *minutes < 0 {
                    out.append("-");
                    push_decimal(&mut out, (0i64 - *minutes as i64) as u64);
                } else {
                    push_padded(&mut out, *minutes as u64, 2);
                }
                assert(out@ =~= zone_label(*self));
                out
            },
        }
    }

    /// The label, as the zone is displayed.
    pub fn to_string(&self) -> (r: String)
        ensures
            r@ == zone_label(*self),
    {
        self.offset_label()
    }

    /// Name of the zone: `UTC`, `TAI`, `Unix`, or `UTC` followed by the offset label.
    pub fn name(&self) -> (r: String)
        ensures
            r@ == match *self {
                TimeZone::UTC => "UTC"@,
                TimeZone::TAI => "TAI"@,
                TimeZone::Unix => "Unix"@,
                TimeZone::Fixed { .. } => "UTC"@ + zone_label(*self),
            },
    {
        match self {
            TimeZone::UTC => owned("UTC"),
            TimeZone::TAI => owned("TAI"),
            TimeZone::Unix => owned("Unix"),
            TimeZone::Fixed { .. } => {
                let mut out = owned("UTC");
                let label = self.offset_label();
                out.append(label.as_str());
                out
            },
        }
    }

    /// Whether the scale shows leap seconds as second 60: only UTC does.
    pub fn supports_leap_seconds(&self) -> (r: bool)
        ensures
            r == (*self == TimeZone::UTC),
    {
        match self {
            TimeZone::UTC => true,
            _ => false,
        }
    }
}

} // verus!
