use vstd::prelude::*;
use vstd::std_specs::ops::{AddSpecImpl, NegSpecImpl, SubSpecImpl};
use crate::text::{
    all_digits, decimal, digits_value, lemma_decimal_reads_back, lemma_three_digits_read_back,
    push_decimal, push_padded, zero_padded,
};

verus! {

/// The seven components of a period: years, months, days, hours, minutes, seconds,
/// milliseconds.
pub type PeriodParts = (int, int, int, int, int, int, int);

/// Whether every component fits in a signed 64-bit integer.
pub open spec fn parts_fit(p: PeriodParts) -> bool {
    &&& i64::MIN <= p.0 <= i64::MAX
    &&& i64::MIN <= p.1 <= i64::MAX
    &&& i64::MIN <= p.2 <= i64::MAX
    &&& i64::MIN <= p.3 <= i64::MAX
    &&& i64::MIN <= p.4 <= i64::MAX
    &&& i64::MIN <= p.5 <= i64::MAX
    &&& i64::MIN <= p.6 <= i64::MAX
}

/// Carries whole units into the next coarser component with Euclidean division, so that
/// months fall in 0..12, minutes and seconds in 0..60 and milliseconds in 0..1000.
/// Days and hours take no carry out; weeks and days are not calendar-fixed.
pub open spec fn normalize(p: PeriodParts) -> PeriodParts {
    let sec_total = p.5 + p.6 / 1000;
    let min_total = p.4 + sec_total / 60;
    (p.0 + p.1 / 12, p.1 % 12, p.2, p.3 + min_total / 60, min_total % 60, sec_total % 60, p.6 % 1000)
}

/// Whether normalizing `p` stays within signed 64-bit components at every carry.
pub open spec fn normalize_fits(p: PeriodParts) -> bool {
    let sec_total = p.5 + p.6 / 1000;
    let min_total = p.4 + sec_total / 60;
    &&& parts_fit(p)
    &&& i64::MIN <= sec_total <= i64::MAX
    &&& i64::MIN <= min_total <= i64::MAX
    &&& i64::MIN <= p.3 + min_total / 60 <= i64::MAX
    &&& i64::MIN <= p.0 + p.1 / 12 <= i64::MAX
}

/// Whether the components are in normal form.
pub open spec fn is_normal(p: PeriodParts) -> bool {
    &&& parts_fit(p)
    &&& 0 <= p.1 < 12
    &&& 0 <= p.4 < 60
    &&& 0 <= p.5 < 60
    &&& 0 <= p.6 < 1000
}

/// Component-wise sum.
pub open spec fn parts_add(a: PeriodParts, b: PeriodParts) -> PeriodParts {
    (a.0 + b.0, a.1 + b.1, a.2 + b.2, a.3 + b.3, a.4 + b.4, a.5 + b.5, a.6 + b.6)
}

/// Component-wise negation.
pub open spec fn parts_neg(a: PeriodParts) -> PeriodParts {
    (-a.0, -a.1, -a.2, -a.3, -a.4, -a.5, -a.6)
}

/// A period is negative when its first non-zero component is.
pub open spec fn leading_negative(p: PeriodParts) -> bool {
    if p.0 != 0 {
        p.0 < 0
    } else if p.1 != 0 {
        p.1 < 0
    } else if p.2 != 0 {
        p.2 < 0
    } else if p.3 != 0 {
        p.3 < 0
    } else if p.4 != 0 {
        p.4 < 0
    } else if p.5 != 0 {
        p.5 < 0
    } else {
        p.6 < 0
    }
}

pub(crate) fn div_mod_euclid(value: i64, divisor: i64) -> (r: (i64, i64))
    requires
        divisor > 1,
    ensures
        r.0 as int == value as int / divisor as int,
        r.1 as int == value as int % divisor as int,
{
    let q = value / divisor;
    let m = value % divisor;
    assert(q == crate::duration::div_toward_zero(value as int, divisor as int));
    let ghost a: int = if value >= 0 { value as int } else { -value };
    assert(m == (if value >= 0 { a % divisor as int } else { -(a % divisor as int) }));
    proof {
        vstd::arithmetic::div_mod::lemma_fundamental_div_mod(a, divisor as int);
    }
    assert(q * divisor + m == value) by (nonlinear_arith)
        requires
            q == (if value >= 0 { a / divisor as int } else { -(a / divisor as int) }),
            m == (if value >= 0 { a % divisor as int } else { -(a % divisor as int) }),
            a == divisor * (a / divisor as int) + a % divisor as int,
            a == (if value >= 0 { value as int } else { -value }),
            divisor > 1,
    ;
    if m < 0 {
        assert((q - 1) * divisor + (m + divisor) == value) by (nonlinear_arith)
            requires
                q * divisor + m == value;
        assert(q - 1 >= i64::MIN) by (nonlinear_arith)
            requires
                q * divisor + m == value,
                divisor > 1,
                m < 0,
                value >= i64::MIN;
        proof {
            vstd::arithmetic::div_mod::lemma_fundamental_div_mod_converse(
                value as int,
                divisor as int,
                q - 1,
                m + divisor,
            );
        }
        (q - 1, m + divisor)
    } else {
        proof {
            vstd::arithmetic::div_mod::lemma_fundamental_div_mod_converse(
                value as int,
                divisor as int,
                q as int,
                m as int,
            );
        }
        (q, m)
    }
}

/// A calendar-relative amount of time (years, months, days, and a fixed time
/// part). Unlike [`crate::duration::Duration`], it only becomes concrete once
/// anchored to a [`TimePoint`](crate::time_point::TimePoint).
#[derive(Debug, Clone, Copy, PartialEq, Eq, Structural)]
pub struct Period {
    years: i64,
    months: i64,
    days: i64,
    hours: i64,
    minutes: i64,
    seconds: i64,
    milliseconds: i64,
}

impl View for Period {
    type V = PeriodParts;

    closed spec fn view(&self) -> PeriodParts {
        (
            self.years as int,
            self.months as int,
            self.days as int,
            self.hours as int,
            self.minutes as int,
            self.seconds as int,
            self.milliseconds as int,
        )
    }
}

fn normalized(
    years: i64,
    months: i64,
    days: i64,
    hours: i64,
    minutes: i64,
    seconds: i64,
    milliseconds: i64,
) -> (r: Period)
    requires
        normalize_fits(
            (
                years as int,
                months as int,
                days as int,
                hours as int,
                minutes as int,
                seconds as int,
                milliseconds as int,
            ),
        ),
    ensures
        r@ == normalize(
            (
                years as int,
                months as int,
                days as int,
                hours as int,
                minutes as int,
                seconds as int,
                milliseconds as int,
            ),
        ),
{
    let (sec_carry, ms) = div_mod_euclid(milliseconds, 1000);
    let (min_carry, sec) = div_mod_euclid(seconds + sec_carry, 60);
    let (hour_carry, min) = div_mod_euclid(minutes + min_carry, 60);
    let (year_carry, month) = div_mod_euclid(months, 12);
    Period {
        years: years + year_carry,
        months: month,
        days,
        hours: hours + hour_carry,
        minutes: min,
        seconds: sec,
        milliseconds: ms,
    }
}

impl Period {
    #[verifier::type_invariant]
    spec fn normal_form(self) -> bool {
        is_normal(self@)
    }

    /// Every period is in normal form.
    pub(crate) fn check_normal(&self)
        ensures
            is_normal(self@),
    {
        proof { use_type_invariant(self); }
    }

    /// Two periods are the same value exactly when their components agree.
    pub proof fn lemma_view_injective(a: Period, b: Period)
        ensures
            a@ == b@ <==> a == b,
    {
    }

    pub fn new(
        years: i64,
        months: i64,
        days: i64,
        hours: i64,
        minutes: i64,
        seconds: i64,
        milliseconds: i64,
    ) -> (r: Self)
        requires
            normalize_fits(
                (
                    years as int,
                    months as int,
                    days as int,
                    hours as int,
                    minutes as int,
                    seconds as int,
                    milliseconds as int,
                ),
            ),
        ensures
            r@ == normalize(
                (
                    years as int,
                    months as int,
                    days as int,
                    hours as int,
                    minutes as int,
                    seconds as int,
                    milliseconds as int,
                ),
            ),
    {
        normalized(years, months, days, hours, minutes, seconds, milliseconds)
    }

    /// Whether normalizing these components stays within 64-bit components, so that `new`
    /// can take them.
    pub fn fits(
        years: i64,
        months: i64,
        days: i64,
        hours: i64,
        minutes: i64,
        seconds: i64,
        milliseconds: i64,
    ) -> (r: bool)
        ensures
            r == normalize_fits(
                (
                    years as int,
                    months as int,
                    days as int,
                    hours as int,
                    minutes as int,
                    seconds as int,
                    milliseconds as int,
                ),
            ),
    {
        let (sec_carry, _) = div_mod_euclid(milliseconds, 1000);
        let sec_total = seconds as i128 + sec_carry as i128;
        if sec_total < i64::MIN as i128 || sec_total > i64::MAX as i128 {
            return false;
        }
        let (min_carry, _) = div_mod_euclid(sec_total as i64, 60);
        let min_total = minutes as i128 + min_carry as i128;
        if min_total < i64::MIN as i128 || min_total > i64::MAX as i128 {
            return false;
        }
        let (hour_carry, _) = div_mod_euclid(min_total as i64, 60);
        let hour_total = hours as i128 + hour_carry as i128;
        if hour_total < i64::MIN as i128 || hour_total > i64::MAX as i128 {
            return false;
        }
        let (year_carry, _) = div_mod_euclid(months, 12);
        let year_total = years as i128 + year_carry as i128;
        year_total >= i64::MIN as i128 && year_total <= i64::MAX as i128
    }

    pub fn from_years(years: i64) -> (r: Self)
        ensures
            r@ == (years as int, 0int, 0int, 0int, 0int, 0int, 0int),
    {
        Self::new(years, 0, 0, 0, 0, 0, 0)
    }

    pub fn from_months(months: i64) -> (r: Self)
        ensures
            r@ == normalize((0, months as int, 0, 0, 0, 0, 0)),
    {
        Self::new(0, months, 0, 0, 0, 0, 0)
    }

    pub fn from_days(days: i64) -> (r: Self)
        ensures
            r@ == (0int, 0int, days as int, 0int, 0int, 0int, 0int),
    {
        Self::new(0, 0, days, 0, 0, 0, 0)
    }

    pub fn from_hours(hours: i64) -> (r: Self)
        ensures
            r@ == (0int, 0int, 0int, hours as int, 0int, 0int, 0int),
    {
        Self::new(0, 0, 0, hours, 0, 0, 0)
    }

    pub fn from_minutes(minutes: i64) -> (r: Self)
        ensures
            r@ == normalize((0, 0, 0, 0, minutes as int, 0, 0)),
    {
        Self::new(0, 0, 0, 0, minutes, 0, 0)
    }

    pub fn from_seconds(seconds: i64) -> (r: Self)
        ensures
            r@ == normalize((0, 0, 0, 0, 0, seconds as int, 0)),
    {
        Self::new(0, 0, 0, 0, 0, seconds, 0)
    }

    pub fn from_milliseconds(milliseconds: i64) -> (r: Self)
        ensures
            r@ == normalize((0, 0, 0, 0, 0, 0, milliseconds as int)),
    {
        Self::new(0, 0, 0, 0, 0, 0, milliseconds)
    }

    pub fn zero() -> (r: Self)
        ensures
            r@ == (0int, 0int, 0int, 0int, 0int, 0int, 0int),
    {
        Self::new(0, 0, 0, 0, 0, 0, 0)
    }

    pub fn years(self) -> (r: i64)
        ensures
            r as int == self@.0,
    {
        self.years
    }

    pub fn months(self) -> (r: i64)
        ensures
            r as int == self@.1,
    {
        self.months
    }

    pub fn days(self) -> (r: i64)
        ensures
            r as int == self@.2,
    {
        self.days
    }

    pub fn hours(self) -> (r: i64)
        ensures
            r as int == self@.3,
    {
        self.hours
    }

    pub fn minutes(self) -> (r: i64)
        ensures
            r as int == self@.4,
    {
        self.minutes
    }

    pub fn seconds(self) -> (r: i64)
        ensures
            r as int == self@.5,
    {
        self.seconds
    }

    pub fn milliseconds(self) -> (r: i64)
        ensures
            r as int == self@.6,
    {
        self.milliseconds
    }

    pub fn is_zero(self) -> (r: bool)
        ensures
            r == (self@ == (0int, 0int, 0int, 0int, 0int, 0int, 0int)),
    {
        self == Period::zero()
    }

    pub fn is_negative(self) -> (r: bool)
        ensures
            r == leading_negative(self@),
    {
        if self.years != 0 {
            self.years < 0
        } else if self.months != 0 {
            self.months < 0
        } else if self.days != 0 {
            self.days < 0
        } else if self.hours != 0 {
            self.hours < 0
        } else if self.minutes != 0 {
            self.minutes < 0
        } else if self.seconds != 0 {
            self.seconds < 0
        } else {
            self.milliseconds < 0
        }
    }
}

/// Absolute value.
pub open spec fn magnitude(x: int) -> nat {
    if x < 0 {
        (-x) as nat
    } else {
        x as nat
    }
}

/// `digits` followed by `unit` when `x` is non-zero, else nothing.
pub open spec fn component_text(x: int, unit: char) -> Seq<char> {
    if magnitude(x) > 0 {
        decimal(magnitude(x)) + seq![unit]
    } else {
        Seq::empty()
    }
}

/// The years, months and days part of a period's text.
pub open spec fn date_part_text(p: PeriodParts) -> Seq<char> {
    component_text(p.0, 'Y') + component_text(p.1, 'M') + component_text(p.2, 'D')
}

/// The `T...` time part of a period's text, empty when the time components are zero.
pub open spec fn time_part_text(p: PeriodParts) -> Seq<char> {
    let has_time = magnitude(p.3) > 0 || magnitude(p.4) > 0 || magnitude(p.5) > 0 || magnitude(p.6)
        > 0;
    let seconds_part = if magnitude(p.6) > 0 {
        decimal(magnitude(p.5)) + seq!['.'] + zero_padded(magnitude(p.6), 3) + seq!['S']
    } else {
        component_text(p.5, 'S')
    };
    if has_time {
        seq!['T'] + component_text(p.3, 'H') + component_text(p.4, 'M') + seconds_part
    } else {
        Seq::empty()
    }
}

/// ISO-8601-like text of a period, such as `P1Y2M3DT4H5M6S`, `PT1.500S`, `-P1Y` or `P0D`.
pub open spec fn period_text(p: PeriodParts) -> Seq<char> {
    let sign = if leading_negative(p) { seq!['-'] } else { Seq::<char>::empty() };
    let body = date_part_text(p) + time_part_text(p);
    sign + seq!['P'] + (if body.len() == 0 { seq!['0', 'D'] } else { body })
}

/// A text made of a head that ends in a non-digit, a run of digits, `.`, three digits and
/// `S` reads back as the two runs.
proof fn lemma_fraction_layout(pre: Seq<char>, sec: Seq<char>, frac: Seq<char>, whole: int, part: int)
    requires
        pre.len() >= 1,
        !('0' <= pre.last() <= '9'),
        sec.len() >= 1,
        all_digits(sec),
        digits_value(sec) == whole,
        frac.len() == 3,
        all_digits(frac),
        digits_value(frac) == part,
    ensures
        ({
            let t = pre + sec + seq!['.'] + frac + seq!['S'];
            let n = t.len() as int;
            &&& n >= 6
            &&& t[n - 1] == 'S'
            &&& t[n - 5] == '.'
            &&& all_digits(t.subrange(n - 4, n - 1))
            &&& digits_value(t.subrange(n - 4, n - 1)) == part
            &&& exists|k: int|
                0 < k < n - 5 && !('0' <= t[k - 1] <= '9') && all_digits(
                    #[trigger] t.subrange(k, n - 5),
                ) && digits_value(t.subrange(k, n - 5)) == whole
        }),
{
    let t = pre + sec + seq!['.'] + frac + seq!['S'];
    let n = t.len() as int;
    let k = pre.len() as int;
    assert(t.subrange(n - 4, n - 1) =~= frac);
    assert(t.subrange(k, n - 5) =~= sec);
    assert(t[k - 1] == pre.last());
}

/// The text of a period in normal form that has milliseconds shows its seconds as a decimal
/// fraction that reads back as the amount: it ends with the whole seconds, a `.`, exactly
/// three digits whose value is the milliseconds, and `S`; the whole seconds stand as a run
/// of digits right after a unit letter or the `T`.
pub proof fn lemma_seconds_text_reads_back(p: PeriodParts)
    requires
        is_normal(p),
        p.6 != 0,
    ensures
        ({
            let t = period_text(p);
            let n = t.len() as int;
            &&& n >= 6
            &&& t[n - 1] == 'S'
            &&& t[n - 5] == '.'
            &&& all_digits(t.subrange(n - 4, n - 1))
            &&& digits_value(t.subrange(n - 4, n - 1)) == p.6
            &&& exists|k: int|
                0 < k < n - 5 && !('0' <= t[k - 1] <= '9') && all_digits(
                    #[trigger] t.subrange(k, n - 5),
                ) && digits_value(t.subrange(k, n - 5)) == p.5
        }),
{
    let sign = if leading_negative(p) { seq!['-'] } else { Seq::<char>::empty() };
    let hours = component_text(p.3, 'H');
    let minutes = component_text(p.4, 'M');
    let head = sign + seq!['P'] + date_part_text(p) + seq!['T'] + hours;
    let pre = head + minutes;
    let sec = decimal(magnitude(p.5));
    let frac = zero_padded(magnitude(p.6), 3);
    assert(magnitude(p.5) == p.5 && magnitude(p.6) == p.6);
    lemma_decimal_reads_back(magnitude(p.5));
    lemma_three_digits_read_back(magnitude(p.6));
    let time = time_part_text(p);
    assert(time =~= seq!['T'] + hours + minutes + (sec + seq!['.'] + frac + seq!['S']));
    let body = date_part_text(p) + time;
    assert(body.len() != 0);
    assert(period_text(p) == sign + seq!['P'] + body);
    assert(period_text(p) =~= pre + sec + seq!['.'] + frac + seq!['S']);
    if magnitude(p.4) > 0 {
        assert(pre.last() == 'M');
    } else {
        assert(minutes =~= Seq::<char>::empty());
        assert(pre =~= head);
        if magnitude(p.3) > 0 {
            assert(head.last() == 'H');
        } else {
            assert(hours =~= Seq::<char>::empty());
            assert(head.last() == 'T');
        }
    }
    lemma_fraction_layout(pre, sec, frac, p.5, p.6);
}

fn abs_u64(x: i64) -> (r: u64)
    ensures
        r as nat == magnitude(x as int),
{
    if x < 0 {
        (0i128 - x as i128) as u64
    } else {
        x as u64
    }
}

fn push_component(out: &mut String, x: i64, unit: &str, c: Ghost<char>)
    requires
        unit@ == seq![c@],
    ensures
        final(out)@ == old(out)@ + component_text(x as int, c@),
{
    let m = abs_u64(x);
    if m > 0 {
        push_decimal(out, m);
        out.append(unit);
    }
    assert(final(out)@ =~= old(out)@ + component_text(x as int, c@));
}

fn push_date_part(out: &mut String, years: i64, months: i64, days: i64)
    ensures
        final(out)@ == old(out)@ + date_part_text(
            (years as int, months as int, days as int, 0, 0, 0, 0),
        ),
{
    proof {
        reveal_strlit("Y");
        reveal_strlit("M");
        reveal_strlit("D");
        assert("Y"@ =~= seq!['Y']);
        assert("M"@ =~= seq!['M']);
        assert("D"@ =~= seq!['D']);
    }
    push_component(out, years, "Y", Ghost('Y'));
    push_component(out, months, "M", Ghost('M'));
    push_component(out, days, "D", Ghost('D'));
    assert(final(out)@ =~= old(out)@ + date_part_text(
        (years as int, months as int, days as int, 0, 0, 0, 0),
    ));
}

fn push_time_part(out: &mut String, hours: i64, minutes: i64, seconds: i64, milliseconds: i64)
    ensures
        final(out)@ == old(out)@ + time_part_text(
            (0, 0, 0, hours as int, minutes as int, seconds as int, milliseconds as int),
        ),
{
    proof {
        reveal_strlit("T");
        reveal_strlit("H");
        reveal_strlit("M");
        reveal_strlit("S");
        reveal_strlit(".");
        assert("H"@ =~= seq!['H']);
        assert("M"@ =~= seq!['M']);
        assert("S"@ =~= seq!['S']);
    }
    let seconds_abs = abs_u64(seconds);
    let milliseconds_abs = abs_u64(milliseconds);
    if abs_u64(hours) > 0 || abs_u64(minutes) > 0 || seconds_abs > 0 || milliseconds_abs > 0 {
        out.append("T");
        push_component(out, hours, "H", Ghost('H'));
        push_component(out, minutes, "M", Ghost('M'));
        if milliseconds_abs > 0 {
            push_decimal(out, seconds_abs);
            out.append(".");
            push_padded(out, milliseconds_abs, 3);
            out.append("S");
        } else {
            push_component(out, seconds, "S", Ghost('S'));
        }
    }
    assert(final(out)@ =~= old(out)@ + time_part_text(
        (0, 0, 0, hours as int, minutes as int, seconds as int, milliseconds as int),
    ));
}

impl Period {
    /// Text such as `P1Y2M3DT4H5M6S`.
    pub fn to_string(&self) -> (r: String)
        ensures
            r@ == period_text(self@),
    {
        proof {
            reveal_strlit("-");
            reveal_strlit("P");
            reveal_strlit("0D");
        }
        let mut out = String::new();
        if self.is_negative() {
            out.append("-");
        }
        out.append("P");
        let ghost head = out@;
        push_date_part(&mut out, self.years, self.months, self.days);
        push_time_part(&mut out, self.hours, self.minutes, self.seconds, self.milliseconds);
        let ghost p = self@;
        assert(date_part_text(p) == date_part_text((p.0, p.1, p.2, 0, 0, 0, 0)));
        assert(time_part_text(p) == time_part_text((0, 0, 0, p.3, p.4, p.5, p.6)));
        assert(out@ =~= head + date_part_text(p) + time_part_text(p));
        if out.unicode_len() == 1 || (out.unicode_len() == 2 && self.is_negative()) {
            out.append("0D");
        }
        assert(out@ =~= period_text(self@));
        out
    }
}

impl AddSpecImpl for Period {
    open spec fn obeys_add_spec() -> bool {
        true
    }

    open spec fn add_req(self, rhs: Period) -> bool {
        normalize_fits(parts_add(self@, rhs@))
    }

    closed spec fn add_spec(self, rhs: Period) -> Period {
        let n = normalize(parts_add(self@, rhs@));
        Period {
            years: n.0 as i64,
            months: n.1 as i64,
            days: n.2 as i64,
            hours: n.3 as i64,
            minutes: n.4 as i64,
            seconds: n.5 as i64,
            milliseconds: n.6 as i64,
        }
    }
}

impl core::ops::Add for Period {
    type Output = Period;

    fn add(self, rhs: Period) -> (r: Period)
        ensures
            r@ == normalize(parts_add(self@, rhs@)),
    {
        Period::new(
            self.years + rhs.years,
            self.months + rhs.months,
            self.days + rhs.days,
            self.hours + rhs.hours,
            self.minutes + rhs.minutes,
            self.seconds + rhs.seconds,
            self.milliseconds + rhs.milliseconds,
        )
    }
}

impl NegSpecImpl for Period {
    open spec fn obeys_neg_spec() -> bool {
        true
    }

    open spec fn neg_req(self) -> bool {
        normalize_fits(parts_neg(self@))
    }

    closed spec fn neg_spec(self) -> Period {
        let n = normalize(parts_neg(self@));
        Period {
            years: n.0 as i64,
            months: n.1 as i64,
            days: n.2 as i64,
            hours: n.3 as i64,
            minutes: n.4 as i64,
            seconds: n.5 as i64,
            milliseconds: n.6 as i64,
        }
    }
}

impl core::ops::Neg for Period {
    type Output = Period;

    fn neg(self) -> (r: Period)
        ensures
            r@ == normalize(parts_neg(self@)),
    {
        Period::new(
            -self.years,
            -self.months,
            -self.days,
            -self.hours,
            -self.minutes,
            -self.seconds,
            -self.milliseconds,
        )
    }
}

impl SubSpecImpl for Period {
    open spec fn obeys_sub_spec() -> bool {
        true
    }

    open spec fn sub_req(self, rhs: Period) -> bool {
        &&& normalize_fits(parts_neg(rhs@))
        &&& normalize_fits(parts_add(self@, normalize(parts_neg(rhs@))))
    }

    closed spec fn sub_spec(self, rhs: Period) -> Period {
        let n = normalize(parts_add(self@, normalize(parts_neg(rhs@))));
        Period {
            years: n.0 as i64,
            months: n.1 as i64,
            days: n.2 as i64,
            hours: n.3 as i64,
            minutes: n.4 as i64,
            seconds: n.5 as i64,
            milliseconds: n.6 as i64,
        }
    }
}

impl core::ops::Sub for Period {
    type Output = Period;

    fn sub(self, rhs: Period) -> (r: Period)
        ensures
            r@ == normalize(parts_add(self@, normalize(parts_neg(rhs@)))),
    {
        core::ops::Add::add(self, core::ops::Neg::neg(rhs))
    }
}

/// The calendar amount of a period in months.
pub open spec fn total_months(p: PeriodParts) -> int {
    p.0 * 12 + p.1
}

/// The fixed amount of a period's time part in milliseconds.
pub open spec fn total_milliseconds(p: PeriodParts) -> int {
    p.3 * 3600000 + p.4 * 60000 + p.5 * 1000 + p.6
}

/// Normalizing keeps the amount of a period: its months, its days and its milliseconds.
pub proof fn lemma_normalize_keeps_amount(p: PeriodParts)
    ensures
        total_months(normalize(p)) == total_months(p),
        normalize(p).2 == p.2,
        total_milliseconds(normalize(p)) == total_milliseconds(p),
        0 <= normalize(p).1 < 12,
        0 <= normalize(p).4 < 60,
        0 <= normalize(p).5 < 60,
        0 <= normalize(p).6 < 1000,
{
    let sec_total = p.5 + p.6 / 1000;
    let min_total = p.4 + sec_total / 60;
    vstd::arithmetic::div_mod::lemma_fundamental_div_mod(p.1, 12);
    vstd::arithmetic::div_mod::lemma_fundamental_div_mod(p.6, 1000);
    vstd::arithmetic::div_mod::lemma_fundamental_div_mod(sec_total, 60);
    vstd::arithmetic::div_mod::lemma_fundamental_div_mod(min_total, 60);
}

/// A period in normal form is determined by its amount.
pub proof fn lemma_normal_form_unique(a: PeriodParts, b: PeriodParts)
    requires
        0 <= a.1 < 12,
        0 <= a.4 < 60,
        0 <= a.5 < 60,
        0 <= a.6 < 1000,
        0 <= b.1 < 12,
        0 <= b.4 < 60,
        0 <= b.5 < 60,
        0 <= b.6 < 1000,
        total_months(a) == total_months(b),
        a.2 == b.2,
        total_milliseconds(a) == total_milliseconds(b),
    ensures
        a == b,
{
    vstd::arithmetic::div_mod::lemma_fundamental_div_mod_converse(total_months(a), 12, a.0, a.1);
    vstd::arithmetic::div_mod::lemma_fundamental_div_mod_converse(total_months(b), 12, b.0, b.1);
    let ta = total_milliseconds(a);
    vstd::arithmetic::div_mod::lemma_fundamental_div_mod_converse(ta, 1000, a.3 * 3600 + a.4 * 60 + a.5, a.6);
    vstd::arithmetic::div_mod::lemma_fundamental_div_mod_converse(ta, 1000, b.3 * 3600 + b.4 * 60 + b.5, b.6);
    let sa = a.3 * 3600 + a.4 * 60 + a.5;
    vstd::arithmetic::div_mod::lemma_fundamental_div_mod_converse(sa, 60, a.3 * 60 + a.4, a.5);
    vstd::arithmetic::div_mod::lemma_fundamental_div_mod_converse(sa, 60, b.3 * 60 + b.4, b.5);
    let ma = a.3 * 60 + a.4;
    vstd::arithmetic::div_mod::lemma_fundamental_div_mod_converse(ma, 60, a.3, a.4);
    vstd::arithmetic::div_mod::lemma_fundamental_div_mod_converse(ma, 60, b.3, b.4);
}

/// A period plus its negation is the zero period.
pub proof fn lemma_negation_cancels(p: PeriodParts)
    requires
        is_normal(p),
        normalize_fits(parts_neg(p)),
        normalize_fits(parts_add(p, normalize(parts_neg(p)))),
    ensures
        normalize(parts_add(p, normalize(parts_neg(p)))) == (0int, 0int, 0int, 0int, 0int, 0int, 0int),
{
    let n = normalize(parts_neg(p));
    lemma_normalize_keeps_amount(parts_neg(p));
    let sum = parts_add(p, n);
    lemma_normalize_keeps_amount(sum);
    lemma_normal_form_unique(normalize(sum), (0int, 0int, 0int, 0int, 0int, 0int, 0int));
}

/// Negating a period twice gives it back.
pub proof fn lemma_double_negation(p: PeriodParts)
    requires
        is_normal(p),
        normalize_fits(parts_neg(p)),
        normalize_fits(parts_neg(normalize(parts_neg(p)))),
    ensures
        normalize(parts_neg(normalize(parts_neg(p)))) == p,
{
    let n = normalize(parts_neg(p));
    lemma_normalize_keeps_amount(parts_neg(p));
    lemma_normalize_keeps_amount(parts_neg(n));
    lemma_normal_form_unique(normalize(parts_neg(n)), p);
}

} // verus!
