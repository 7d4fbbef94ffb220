use vstd::prelude::*;
use vstd::std_specs::ops::{AddSpecImpl, NegSpecImpl, SubSpecImpl};
use crate::text::{decimal, push_decimal, push_padded, zero_padded};

verus! {

/// Integer division of `a` by `b` rounding toward zero, as Rust's `/` does.
pub open spec fn div_toward_zero(a: int, b: int) -> int {
    if a >= 0 {
        a / b
    } else {
        -((-a) / b)
    }
}

/// Remainder matching `div_toward_zero`: it takes the sign of `a`.
pub open spec fn rem_toward_zero(a: int, b: int) -> int {
    a - b * div_toward_zero(a, b)
}

/// A fixed elapsed amount of time with millisecond resolution and no calendar
/// concepts (months and years are not representable).
#[derive(Debug, Clone, Copy, PartialEq, Eq, PartialOrd, Ord, Hash)]
pub struct Duration {
    milliseconds: i64,
}

impl View for Duration {
    type V = int;

    /// The signed number of milliseconds.
    closed spec fn view(&self) -> int {
        self.milliseconds as int
    }
}

impl Duration {
    /// Two durations are the same value exactly when they hold the same number of milliseconds.
    pub proof fn lemma_view_injective(a: Duration, b: Duration)
        ensures
            a@ == b@ <==> a == b,
    {
    }

    /// Every duration fits the signed 64-bit millisecond range.
    pub proof fn lemma_view_range(d: Duration)
        ensures
            i64::MIN <= d@ <= i64::MAX,
    {
    }

    pub fn from_milliseconds(milliseconds: i64) -> (r: Self)
        ensures
            r@ == milliseconds as int,
    {
        Self { milliseconds }
    }

    pub fn from_seconds(seconds: i64) -> (r: Self)
        requires
            i64::MIN <= seconds * 1000 <= i64::MAX,
        ensures
            r@ == seconds * 1000,
    {
        Self { milliseconds: seconds * 1000 }
    }

    pub fn from_minutes(minutes: i64) -> (r: Self)
        requires
            i64::MIN <= minutes * 60000 <= i64::MAX,
        ensures
            r@ == minutes * 60000,
    {
        Self::from_seconds(minutes * 60)
    }

    pub fn from_hours(hours: i64) -> (r: Self)
        requires
            i64::MIN <= hours * 3600000 <= i64::MAX,
        ensures
            r@ == hours * 3600000,
    {
        Self::from_seconds(hours * 3600)
    }

    pub fn zero() -> (r: Self)
        ensures
            r@ == 0,
    {
        Self { milliseconds: 0 }
    }

    pub fn milliseconds(self) -> (r: i64)
        ensures
            r as int == self@,
    {
        self.milliseconds
    }

    /// Whole seconds, rounded toward zero.
    pub fn seconds(self) -> (r: i64)
        ensures
            r as int == div_toward_zero(self@, 1000),
    {
        self.milliseconds / 1000
    }

    /// The milliseconds beyond the whole seconds; negative for negative durations.
    pub fn subsec_milliseconds(self) -> (r: i64)
        ensures
            r as int == rem_toward_zero(self@, 1000),
            -1000 < r < 1000,
    {
        self.milliseconds % 1000
    }

    pub fn is_zero(self) -> (r: bool)
        ensures
            r == (self@ == 0),
    {
        self.milliseconds == 0
    }

    pub fn is_negative(self) -> (r: bool)
        ensures
            r == (self@ < 0),
    {
        self.milliseconds < 0
    }

    pub fn is_positive(self) -> (r: bool)
        ensures
            r == (self@ > 0),
    {
        self.milliseconds > 0
    }

    pub fn checked_add(self, other: Duration) -> (r: Option<Duration>)
        ensures
            match r {
                Some(d) => d@ == self@ + other@,
                None => !(i64::MIN <= self@ + other@ <= i64::MAX),
            },
    {
        match self.milliseconds.checked_add(other.milliseconds) {
            Some(ms) => Some(Duration::from_milliseconds(ms)),
            None => None,
        }
    }

    pub fn checked_sub(self, other: Duration) -> (r: Option<Duration>)
        ensures
            match r {
                Some(d) => d@ == self@ - other@,
                None => !(i64::MIN <= self@ - other@ <= i64::MAX),
            },
    {
        match self.milliseconds.checked_sub(other.milliseconds) {
            Some(ms) => Some(Duration::from_milliseconds(ms)),
            None => None,
        }
    }

    /// Text such as `0s`, `5s`, `-5s` or `-1.500s`.
    pub fn to_string(&self) -> (r: String)
        ensures
            r@ == duration_text(self@),
    {
        let mut out = String::new();
        if self.milliseconds == 0 {
            proof { reveal_strlit("0s"); }
            out.append("0s");
            assert(out@ =~= duration_text(self@));
            return out;
        }
        if self.milliseconds < 0 {
            proof { reveal_strlit("-"); }
            out.append("-");
        }
        let magnitude: u64 = if self.milliseconds < 0 {
            (0i128 - self.milliseconds as i128) as u64
        } else {
            self.milliseconds as u64
        };
        let whole = magnitude / 1000;
        let fraction = magnitude % 1000;
        push_decimal(&mut out, whole);
        if fraction != 0 {
            proof { reveal_strlit("."); }
            out.append(".");
            push_padded(&mut out, fraction, 3);
        }
        proof { reveal_strlit("s"); }
        out.append("s");
        assert(out@ =~= duration_text(self@));
        out
    }
}

/// Display text of a duration of `ms` milliseconds.
pub open spec fn duration_text(ms: int) -> Seq<char> {
    if ms == 0 {
        seq!['0', 's']
    } else {
        let magnitude = if ms < 0 { -ms } else { ms };
        let sign = if ms < 0 { seq!['-'] } else { Seq::<char>::empty() };
        let whole = decimal((magnitude / 1000) as nat);
        let fraction = magnitude % 1000;
        if fraction == 0 {
            sign + whole + seq!['s']
        } else {
            sign + whole + seq!['.'] + zero_padded(fraction as nat, 3) + seq!['s']
        }
    }
}

impl AddSpecImpl for Duration {
    open spec fn obeys_add_spec() -> bool {
        true
    }

    open spec fn add_req(self, rhs: Duration) -> bool {
        i64::MIN <= self@ + rhs@ <= i64::MAX
    }

    closed spec fn add_spec(self, rhs: Duration) -> Duration {
        Duration { milliseconds: (self.milliseconds + rhs.milliseconds) as i64 }
    }
}

impl core::ops::Add for Duration {
    type Output = Duration;

    fn add(self, rhs: Duration) -> (r: Duration)
        ensures
            r@ == self@ + rhs@,
    {
        Duration::from_milliseconds(self.milliseconds + rhs.milliseconds)
    }
}

impl SubSpecImpl for Duration {
    open spec fn obeys_sub_spec() -> bool {
        true
    }

    open spec fn sub_req(self, rhs: Duration) -> bool {
        i64::MIN <= self@ - rhs@ <= i64::MAX
    }

    closed spec fn sub_spec(self, rhs: Duration) -> Duration {
        Duration { milliseconds: (self.milliseconds - rhs.milliseconds) as i64 }
    }
}

impl core::ops::Sub for Duration {
    type Output = Duration;

    fn sub(self, rhs: Duration) -> (r: Duration)
        ensures
            r@ == self@ - rhs@,
    {
        Duration::from_milliseconds(self.milliseconds - rhs.milliseconds)
    }
}

impl NegSpecImpl for Duration {
    open spec fn obeys_neg_spec() -> bool {
        true
    }

    open spec fn neg_req(self) -> bool {
        self@ != i64::MIN
    }

    closed spec fn neg_spec(self) -> Duration {
        Duration { milliseconds: (-self.milliseconds) as i64 }
    }
}

impl core::ops::Neg for Duration {
    type Output = Duration;

    fn neg(self) -> (r: Duration)
        ensures
            r@ == -self@,
    {
        Duration::from_milliseconds(-self.milliseconds)
    }
}

/// The whole seconds and the milliseconds beyond them make up a duration: both carry its
/// sign, and the remainder stays below one second.
pub proof fn lemma_seconds_and_remainder(ms: int)
    ensures
        div_toward_zero(ms, 1000) * 1000 + rem_toward_zero(ms, 1000) == ms,
        ms >= 0 ==> 0 <= rem_toward_zero(ms, 1000) < 1000,
        ms < 0 ==> -1000 < rem_toward_zero(ms, 1000) <= 0,
        ms >= 0 ==> div_toward_zero(ms, 1000) >= 0,
        ms < 0 ==> div_toward_zero(ms, 1000) <= 0,
{
    if ms >= 0 {
        vstd::arithmetic::div_mod::lemma_fundamental_div_mod(ms, 1000);
    } else {
        vstd::arithmetic::div_mod::lemma_fundamental_div_mod(-ms, 1000);
    }
}

} // verus!
