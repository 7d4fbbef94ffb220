use vstd::prelude::*;
use crate::precision::{rank, Precision};
use crate::text::owned;
use crate::time_point::{
    can_add_seconds, can_sub_seconds, clock_after, clock_before, clock_key, day_step_ok, hour_step_ok,
    millisecond_step_ok, minute_step_ok, month_step_ok, next_day, next_hour, next_millisecond,
    next_minute, next_month, next_second, next_year, second_step_ok, seconds_after, seconds_before,
    TimePoint,
};
use crate::truth_values::{truth_of, TruthValue};

verus! {

/// A half-open span `[lower, upper)` of wall-clock time, with the sortable keys of its
/// bounds.
#[derive(Debug, PartialEq, Eq, Clone, Copy, Structural)]
pub struct Interval {
    pub lower: TimePoint,
    pub upper: TimePoint,
    pub lower_key: u64,
    pub upper_key: u64,
}

/// The thirteen relations of Allen's interval algebra.
#[derive(Debug, Clone, Copy, PartialEq, Eq, Structural)]
pub enum AllenRelation {
    Before,
    After,
    Meets,
    MetBy,
    Overlaps,
    OverlappedBy,
    Contains,
    During,
    Starts,
    StartedBy,
    Finishes,
    FinishedBy,
    Equal,
}

/// Whether the relation holds between `[a_start, a_end)` and `[b_start, b_end)`.
pub open spec fn allen_holds(rel: AllenRelation, a_start: int, a_end: int, b_start: int, b_end: int) -> bool {
    match rel {
        AllenRelation::Before => a_end < b_start,
        AllenRelation::Meets => a_end == b_start,
        AllenRelation::Overlaps => a_start < b_start && b_start < a_end && a_end < b_end,
        AllenRelation::FinishedBy => a_start < b_start && a_end == b_end,
        AllenRelation::Contains => a_start < b_start && b_end < a_end,
        AllenRelation::Starts => a_start == b_start && a_end < b_end,
        AllenRelation::Equal => a_start == b_start && a_end == b_end,
        AllenRelation::StartedBy => a_start == b_start && b_end < a_end,
        AllenRelation::During => b_start < a_start && a_end < b_end,
        AllenRelation::Finishes => b_start < a_start && a_end == b_end,
        AllenRelation::OverlappedBy => b_start < a_start && a_start < b_end && b_end < a_end,
        AllenRelation::MetBy => b_end == a_start,
        AllenRelation::After => b_end < a_start,
    }
}

/// The relation that holds with the two intervals swapped.
pub open spec fn converse(rel: AllenRelation) -> AllenRelation {
    match rel {
        AllenRelation::Before => AllenRelation::After,
        AllenRelation::After => AllenRelation::Before,
        AllenRelation::Meets => AllenRelation::MetBy,
        AllenRelation::MetBy => AllenRelation::Meets,
        AllenRelation::Overlaps => AllenRelation::OverlappedBy,
        AllenRelation::OverlappedBy => AllenRelation::Overlaps,
        AllenRelation::Contains => AllenRelation::During,
        AllenRelation::During => AllenRelation::Contains,
        AllenRelation::Starts => AllenRelation::StartedBy,
        AllenRelation::StartedBy => AllenRelation::Starts,
        AllenRelation::Finishes => AllenRelation::FinishedBy,
        AllenRelation::FinishedBy => AllenRelation::Finishes,
        AllenRelation::Equal => AllenRelation::Equal,
    }
}

/// Display name of a relation.
pub open spec fn relation_name(rel: AllenRelation) -> Seq<char> {
    match rel {
        AllenRelation::Before => "before"@,
        AllenRelation::After => "after"@,
        AllenRelation::Meets => "meets"@,
        AllenRelation::MetBy => "met-by"@,
        AllenRelation::Overlaps => "overlaps"@,
        AllenRelation::OverlappedBy => "overlapped-by"@,
        AllenRelation::Contains => "contains"@,
        AllenRelation::During => "during"@,
        AllenRelation::Starts => "starts"@,
        AllenRelation::StartedBy => "started-by"@,
        AllenRelation::Finishes => "finishes"@,
        AllenRelation::FinishedBy => "finished-by"@,
        AllenRelation::Equal => "equal"@,
    }
}

impl AllenRelation {
    /// The relation's name, such as `met-by`.
    pub fn to_string(&self) -> (r: String)
        ensures
            r@ == relation_name(*self),
    {
        match self {
            AllenRelation::Before => owned("before"),
            AllenRelation::After => owned("after"),
            AllenRelation::Meets => owned("meets"),
            AllenRelation::MetBy => owned("met-by"),
            AllenRelation::Overlaps => owned("overlaps"),
            AllenRelation::OverlappedBy => owned("overlapped-by"),
            AllenRelation::Contains => owned("contains"),
            AllenRelation::During => owned("during"),
            AllenRelation::Starts => owned("starts"),
            AllenRelation::StartedBy => owned("started-by"),
            AllenRelation::Finishes => owned("finishes"),
            AllenRelation::FinishedBy => owned("finished-by"),
            AllenRelation::Equal => owned("equal"),
        }
    }
}

/// An interval whose stored lower key is below its stored upper key.
pub open spec fn proper(i: Interval) -> bool {
    i.lower_key < i.upper_key
}

/// Three-valued "`a` lies before `b`": certain when `a` ends by the start of `b`, refuted
/// when `a` starts at or after the end of `b`.
pub open spec fn before_truth(a: Interval, b: Interval) -> TruthValue {
    if a.upper_key <= b.lower_key {
        TruthValue::True
    } else if a.lower_key >= b.upper_key {
        TruthValue::False
    } else {
        TruthValue::Unknown
    }
}

/// Three-valued "`a` lies after `b`".
pub open spec fn after_truth(a: Interval, b: Interval) -> TruthValue {
    if a.lower_key >= b.upper_key {
        TruthValue::True
    } else if a.upper_key <= b.lower_key {
        TruthValue::False
    } else {
        TruthValue::Unknown
    }
}

/// The intervals share no instant.
pub open spec fn disjoint(a: Interval, b: Interval) -> bool {
    a.upper_key <= b.lower_key || b.upper_key <= a.lower_key
}

/// The intervals share some instant.
pub open spec fn overlapping(a: Interval, b: Interval) -> bool {
    a.lower_key < b.upper_key && b.lower_key < a.upper_key
}

/// Three-valued "`a` equals `b`".
pub open spec fn equals_truth(a: Interval, b: Interval) -> TruthValue {
    if a.lower_key == b.lower_key && a.upper_key == b.upper_key {
        TruthValue::True
    } else if disjoint(a, b) {
        TruthValue::False
    } else {
        TruthValue::Unknown
    }
}

/// Whether the bounds of `a` resolve to smaller units than those of `b`, so that a span of
/// `a`'s unit cannot hold one of `b`'s.
pub open spec fn finer(a: Interval, b: Interval) -> bool {
    rank(a.lower.precision) > rank(b.lower.precision)
}

/// Three-valued "`a` contains `b`": certain when `b` lies within `a`, refuted when they are
/// disjoint or when `a` is of a finer precision than `b` (a day cannot contain a month).
pub open spec fn contains_truth(a: Interval, b: Interval) -> TruthValue {
    if a.lower_key <= b.lower_key && b.upper_key <= a.upper_key {
        TruthValue::True
    } else if disjoint(a, b) || finer(a, b) {
        TruthValue::False
    } else {
        TruthValue::Unknown
    }
}

/// Three-valued "`a` overlaps `b`".
pub open spec fn overlaps_truth(a: Interval, b: Interval) -> TruthValue {
    if overlapping(a, b) {
        TruthValue::True
    } else if disjoint(a, b) {
        TruthValue::False
    } else {
        TruthValue::Unknown
    }
}

/// Whether `rel` holds between the stored keys of `a` and `b`.
pub open spec fn related(rel: AllenRelation, a: Interval, b: Interval) -> bool {
    allen_holds(rel, a.lower_key as int, a.upper_key as int, b.lower_key as int, b.upper_key as int)
}

/// The interval with bounds `lower` and `upper` and their keys.
pub open spec fn interval_of(lower: TimePoint, upper: TimePoint) -> Interval {
    Interval { lower, upper, lower_key: clock_key(lower), upper_key: clock_key(upper) }
}

/// `point` without its uncertainty.
pub open spec fn cleared(point: TimePoint) -> TimePoint {
    TimePoint { uncertainty: None, ..point }
}

/// Whether stepping `t` to the start of its next unit of precision stays within its field
/// types.
pub open spec fn unit_step_ok(t: TimePoint) -> bool {
    match t.precision {
        Precision::Year => t.year < u32::MAX,
        Precision::Month => month_step_ok(t),
        Precision::Day => day_step_ok(t),
        Precision::Hour => hour_step_ok(t),
        Precision::Minute => minute_step_ok(t),
        Precision::Second => second_step_ok(t),
        Precision::Millisecond => millisecond_step_ok(t),
    }
}

/// The start of the unit of precision after `t`'s: the exclusive end of the span `t` denotes.
pub open spec fn unit_after(t: TimePoint) -> TimePoint {
    match t.precision {
        Precision::Year => next_year(t),
        Precision::Month => next_month(t),
        Precision::Day => next_day(t),
        Precision::Hour => next_hour(t),
        Precision::Minute => next_minute(t),
        Precision::Second => next_second(t),
        Precision::Millisecond => next_millisecond(t),
    }
}

/// Whether the span `point` denotes can be computed: its uncertainty can be stepped through
/// in both directions, or, without one, its unit of precision can be.
pub open spec fn expandable(point: TimePoint) -> bool {
    match point.uncertainty {
        Some(u) => can_sub_seconds(point, u@) && can_add_seconds(point, u@),
        None => unit_step_ok(point),
    }
}

/// The span a point denotes: `±u` seconds around it when it carries an uncertainty `u`,
/// else its whole unit of precision.
pub open spec fn expanded(point: TimePoint) -> Interval {
    match point.uncertainty {
        Some(u) => interval_of(cleared(seconds_before(point, u@)), cleared(seconds_after(point, u@))),
        None => interval_of(point, unit_after(point)),
    }
}

pub fn interval(lower: &TimePoint, upper: &TimePoint) -> (r: Result<Interval, String>)
    ensures
        match r {
            Ok(i) => !clock_before(*upper, *lower) && i == interval_of(cleared(*lower), cleared(*upper)),
            Err(e) => clock_before(*upper, *lower) && e@
                == "Lower bound must be less than or equal to upper bound"@,
        },
{
    if clock_after(lower, upper) {
        return Err(owned("Lower bound must be less than or equal to upper bound"));
    }
    Ok(Interval::spanning(clear_uncertainty(*lower), clear_uncertainty(*upper)))
}

pub fn calculate_upper(lower: &TimePoint) -> (r: TimePoint)
    requires
        unit_step_ok(*lower),
    ensures
        r == unit_after(*lower),
{
    match lower.precision {
        Precision::Year => TimePoint::add_one_year(lower),
        Precision::Month => TimePoint::add_one_month(lower),
        Precision::Day => TimePoint::add_one_day(lower),
        Precision::Hour => TimePoint::add_one_hour(lower),
        Precision::Minute => TimePoint::add_one_minute(lower),
        Precision::Second => TimePoint::add_one_second(lower),
        Precision::Millisecond => TimePoint::add_one_millisecond(lower),
    }
}

fn clear_uncertainty(point: TimePoint) -> (r: TimePoint)
    ensures
        r == cleared(point),
{
    TimePoint { uncertainty: None, ..point }
}

/// The interval from `point` to `upper`, or, without `upper`, the span `point` denotes.
pub fn to_interval(point: &TimePoint, upper: Option<&TimePoint>) -> (r: Result<Interval, String>)
    requires
        upper is None ==> expandable(*point),
    ensures
        match upper {
            Some(u) => match r {
                Ok(i) => !clock_before(*u, *point) && i == interval_of(cleared(*point), cleared(*u)),
                Err(e) => clock_before(*u, *point) && e@
                    == "Lower bound must be less than or equal to upper bound"@,
            },
            None => r == Ok::<Interval, String>(expanded(*point)),
        },
{
    let uncertainty = point.uncertainty;
    match upper {
        Some(upper_point) => {
            if clock_after(point, upper_point) {
                return Err(owned("Lower bound must be less than or equal to upper bound"));
            }
            Ok(Interval::spanning(clear_uncertainty(*point), clear_uncertainty(*upper_point)))
        },
        None => match uncertainty {
            Some(u) => Ok(
                Interval::spanning(
                    clear_uncertainty(point.sub_seconds(u.seconds())),
                    clear_uncertainty(point.add_seconds(u.seconds())),
                ),
            ),
            None => Ok(Interval::spanning(*point, calculate_upper(point))),
        },
    }
}

impl Interval {
    /// The interval from `lower` to `upper`, refused when `lower` comes after `upper`.
    pub fn new(lower: TimePoint, upper: TimePoint) -> (r: Result<Self, String>)
        ensures
            match r {
                Ok(i) => !clock_before(upper, lower) && i == interval_of(lower, upper),
                Err(e) => clock_before(upper, lower) && e@
                    == "Lower bound must be less than or equal to upper bound"@,
            },
    {
        if clock_after(&lower, &upper) {
            return Err(owned("Lower bound must be less than or equal to upper bound"));
        }
        Ok(Self::spanning(lower, upper))
    }

    /// The interval from `lower` to `upper` with the keys of its bounds.
    fn spanning(lower: TimePoint, upper: TimePoint) -> (r: Self)
        ensures
            r == interval_of(lower, upper),
    {
        let lower_key = lower.boundary_key();
        let upper_key = upper.boundary_key();
        Self { lower, upper, lower_key, upper_key }
    }

    /// The key of the lower bound, computed from the bound.
    pub fn lower_key(&self) -> (r: u64)
        ensures
            r == clock_key(self.lower),
    {
        self.lower.boundary_key()
    }

    /// The key of the upper bound, computed from the bound.
    pub fn upper_key(&self) -> (r: u64)
        ensures
            r == clock_key(self.upper),
    {
        self.upper.boundary_key()
    }

    fn certainly_disjoint(&self, other: &Interval) -> (r: bool)
        ensures
            r == disjoint(*self, *other),
    {
        self.upper_key <= other.lower_key || other.upper_key <= self.lower_key
    }

    fn certainly_overlapping(&self, other: &Interval) -> (r: bool)
        ensures
            r == overlapping(*self, *other),
    {
        self.lower_key < other.upper_key && other.lower_key < self.upper_key
    }

    pub fn before(&self, other: &Interval) -> (r: TruthValue)
        ensures
            r == before_truth(*self, *other),
    {
        if self.upper_key <= other.lower_key {
            TruthValue::True
        } else if self.lower_key >= other.upper_key {
            TruthValue::False
        } else {
            TruthValue::Unknown
        }
    }

    pub fn after(&self, other: &Interval) -> (r: TruthValue)
        ensures
            r == after_truth(*self, *other),
    {
        if self.lower_key >= other.upper_key {
            TruthValue::True
        } else if self.upper_key <= other.lower_key {
            TruthValue::False
        } else {
            TruthValue::Unknown
        }
    }

    pub fn equals(&self, other: &Interval) -> (r: TruthValue)
        ensures
            r == equals_truth(*self, *other),
    {
        if self.lower_key == other.lower_key && self.upper_key == other.upper_key {
            TruthValue::True
        } else if self.certainly_disjoint(other) {
            TruthValue::False
        } else {
            TruthValue::Unknown
        }
    }

    pub fn contains(&self, other: &Interval) -> (r: TruthValue)
        ensures
            r == contains_truth(*self, *other),
    {
        if self.lower_key <= other.lower_key && other.upper_key <= self.upper_key {
            TruthValue::True
        } else if self.certainly_disjoint(other) || self.lower.precision.finer_than(
            &other.lower.precision,
        ) {
            TruthValue::False
        } else {
            TruthValue::Unknown
        }
    }

    pub fn overlaps(&self, other: &Interval) -> (r: TruthValue)
        ensures
            r == overlaps_truth(*self, *other),
    {
        if self.certainly_overlapping(other) {
            TruthValue::True
        } else if self.certainly_disjoint(other) {
            TruthValue::False
        } else {
            TruthValue::Unknown
        }
    }

    /// Whether this interval ends exactly where `other` starts.
    pub fn meets(&self, other: &Interval) -> (r: TruthValue)
        ensures
            r == truth_of(related(AllenRelation::Meets, *self, *other)),
    {
        TruthValue::from(self.upper_key == other.lower_key)
    }

    /// Whether this interval starts exactly where `other` ends.
    pub fn met_by(&self, other: &Interval) -> (r: TruthValue)
        ensures
            r == truth_of(related(AllenRelation::MetBy, *self, *other)),
    {
        TruthValue::from(other.upper_key == self.lower_key)
    }

    /// Whether both start together and this interval ends first.
    pub fn starts(&self, other: &Interval) -> (r: TruthValue)
        ensures
            r == truth_of(related(AllenRelation::Starts, *self, *other)),
    {
        TruthValue::from(self.lower_key == other.lower_key && self.upper_key < other.upper_key)
    }

    /// Whether both start together and this interval ends last.
    pub fn started_by(&self, other: &Interval) -> (r: TruthValue)
        ensures
            r == truth_of(related(AllenRelation::StartedBy, *self, *other)),
    {
        TruthValue::from(self.lower_key == other.lower_key && other.upper_key < self.upper_key)
    }

    /// Whether both end together and this interval starts last.
    pub fn finishes(&self, other: &Interval) -> (r: TruthValue)
        ensures
            r == truth_of(related(AllenRelation::Finishes, *self, *other)),
    {
        TruthValue::from(other.lower_key < self.lower_key && self.upper_key == other.upper_key)
    }

    /// Whether both end together and this interval starts first.
    pub fn finished_by(&self, other: &Interval) -> (r: TruthValue)
        ensures
            r == truth_of(related(AllenRelation::FinishedBy, *self, *other)),
    {
        TruthValue::from(self.lower_key < other.lower_key && self.upper_key == other.upper_key)
    }

    /// Whether this interval lies strictly inside `other`.
    pub fn during(&self, other: &Interval) -> (r: TruthValue)
        ensures
            r == truth_of(related(AllenRelation::During, *self, *other)),
    {
        TruthValue::from(other.lower_key < self.lower_key && self.upper_key < other.upper_key)
    }

    /// The Allen relation between two proper intervals.
    pub fn allen_relation(&self, other: &Interval) -> (r: Result<AllenRelation, String>)
        ensures
            proper(*self) && proper(*other) ==> (r matches Ok(rel) && related(rel, *self, *other)),
            !proper(*self) || !proper(*other) ==> (r matches Err(e) && e@
                == "Interval is invalid, lower bound must be less than upper bound"@),
    {
        match self.validate_interval() {
            Ok(()) => {},
            Err(e) => return Err(e),
        }
        match other.validate_interval() {
            Ok(()) => {},
            Err(e) => return Err(e),
        }
        let a_start = self.lower_key;
        let a_end = self.upper_key;
        let b_start = other.lower_key;
        let b_end = other.upper_key;
        if a_end < b_start {
            return Ok(AllenRelation::Before);
        }
        if a_end == b_start {
            return Ok(AllenRelation::Meets);
        }
        if a_start < b_start && b_end < a_end {
            return Ok(AllenRelation::Contains);
        }
        if a_start < b_start && b_start < a_end && a_end < b_end {
            return Ok(AllenRelation::Overlaps);
        }
        if a_start < b_start && a_end == b_end {
            return Ok(AllenRelation::FinishedBy);
        }
        if a_start == b_start && a_end < b_end {
            return Ok(AllenRelation::Starts);
        }
        if a_start == b_start && a_end == b_end {
            return Ok(AllenRelation::Equal);
        }
        if b_start < a_start && a_end < b_end {
            return Ok(AllenRelation::During);
        }
        if a_start == b_start && a_end > b_end {
            return Ok(AllenRelation::StartedBy);
        }
        if b_start < a_start && a_end == b_end {
            return Ok(AllenRelation::Finishes);
        }
        if b_start < a_start && a_start < b_end && b_end < a_end {
            return Ok(AllenRelation::OverlappedBy);
        }
        if b_end == a_start {
            return Ok(AllenRelation::MetBy);
        }
        if b_end < a_start {
            return Ok(AllenRelation::After);
        }
        Err(owned("Unable to classify interval relation"))
    }

    fn validate_interval(&self) -> (r: Result<(), String>)
        ensures
            match r {
                Ok(()) => proper(*self),
                Err(e) => !proper(*self) && e@
                    == "Interval is invalid, lower bound must be less than upper bound"@,
            },
    {
        if self.lower_key >= self.upper_key {
            return Err(owned("Interval is invalid, lower bound must be less than upper bound"));
        }
        Ok(())
    }
}

impl TimePoint {
    /// Three-valued "the spans of the two points are equal".
    pub fn equals(&self, other: &TimePoint) -> (r: Result<TruthValue, String>)
        requires
            expandable(*self),
            expandable(*other),
        ensures
            r == Ok::<TruthValue, String>(equals_truth(expanded(*self), expanded(*other))),
    {
        let a = match to_interval(self, None) {
            Ok(i) => i,
            Err(e) => return Err(e),
        };
        let b = match to_interval(other, None) {
            Ok(i) => i,
            Err(e) => return Err(e),
        };
        Ok(a.equals(&b))
    }

    /// Three-valued "the span of this point lies before that of `other`".
    pub fn before(&self, other: &TimePoint) -> (r: Result<TruthValue, String>)
        requires
            expandable(*self),
            expandable(*other),
        ensures
            r == Ok::<TruthValue, String>(before_truth(expanded(*self), expanded(*other))),
    {
        let a = match to_interval(self, None) {
            Ok(i) => i,
            Err(e) => return Err(e),
        };
        let b = match to_interval(other, None) {
            Ok(i) => i,
            Err(e) => return Err(e),
        };
        Ok(a.before(&b))
    }

    /// Three-valued "the span of this point lies after that of `other`".
    pub fn after(&self, other: &TimePoint) -> (r: Result<TruthValue, String>)
        requires
            expandable(*self),
            expandable(*other),
        ensures
            r == Ok::<TruthValue, String>(after_truth(expanded(*self), expanded(*other))),
    {
        let a = match to_interval(self, None) {
            Ok(i) => i,
            Err(e) => return Err(e),
        };
        let b = match to_interval(other, None) {
            Ok(i) => i,
            Err(e) => return Err(e),
        };
        Ok(a.after(&b))
    }

    /// Three-valued "the span of this point contains that of `other`".
    pub fn contains(&self, other: &TimePoint) -> (r: Result<TruthValue, String>)
        requires
            expandable(*self),
            expandable(*other),
        ensures
            r == Ok::<TruthValue, String>(contains_truth(expanded(*self), expanded(*other))),
    {
        let a = match to_interval(self, None) {
            Ok(i) => i,
            Err(e) => return Err(e),
        };
        let b = match to_interval(other, None) {
            Ok(i) => i,
            Err(e) => return Err(e),
        };
        Ok(a.contains(&b))
    }

    /// Three-valued "the spans of the two points overlap".
    pub fn overlaps(&self, other: &TimePoint) -> (r: Result<TruthValue, String>)
        requires
            expandable(*self),
            expandable(*other),
        ensures
            r == Ok::<TruthValue, String>(overlaps_truth(expanded(*self), expanded(*other))),
    {
        let a = match to_interval(self, None) {
            Ok(i) => i,
            Err(e) => return Err(e),
        };
        let b = match to_interval(other, None) {
            Ok(i) => i,
            Err(e) => return Err(e),
        };
        Ok(a.overlaps(&b))
    }

    /// The Allen relation between the spans of the two points.
    pub fn allen_relation(&self, other: &TimePoint) -> (r: Result<AllenRelation, String>)
        requires
            expandable(*self),
            expandable(*other),
        ensures
            proper(expanded(*self)) && proper(expanded(*other)) ==> (r matches Ok(rel) && related(
                rel,
                expanded(*self),
                expanded(*other),
            )),
            !proper(expanded(*self)) || !proper(expanded(*other)) ==> (r matches Err(e) && e@
                == "Interval is invalid, lower bound must be less than upper bound"@),
    {
        let a = match to_interval(self, None) {
            Ok(i) => i,
            Err(e) => return Err(e),
        };
        let b = match to_interval(other, None) {
            Ok(i) => i,
            Err(e) => return Err(e),
        };
        a.allen_relation(&b)
    }
}

/// Between two proper intervals exactly one Allen relation holds.
pub proof fn lemma_allen_exactly_one(a: Interval, b: Interval)
    requires
        proper(a),
        proper(b),
    ensures
        exists|rel: AllenRelation| #[trigger] related(rel, a, b),
        forall|r1: AllenRelation, r2: AllenRelation|
            #[trigger] related(r1, a, b) && #[trigger] related(r2, a, b) ==> r1 == r2,
{
    let (s1, e1, s2, e2) = (a.lower_key as int, a.upper_key as int, b.lower_key as int, b.upper_key as int);
    let rel = if e1 < s2 {
        AllenRelation::Before
    } else if e1 == s2 {
        AllenRelation::Meets
    } else if e2 < s1 {
        AllenRelation::After
    } else if e2 == s1 {
        AllenRelation::MetBy
    } else if s1 < s2 {
        if e1 < e2 {
            AllenRelation::Overlaps
        } else if e1 == e2 {
            AllenRelation::FinishedBy
        } else {
            AllenRelation::Contains
        }
    } else if s1 == s2 {
        if e1 < e2 {
            AllenRelation::Starts
        } else if e1 == e2 {
            AllenRelation::Equal
        } else {
            AllenRelation::StartedBy
        }
    } else {
        if e1 < e2 {
            AllenRelation::During
        } else if e1 == e2 {
            AllenRelation::Finishes
        } else {
            AllenRelation::OverlappedBy
        }
    };
    assert(related(rel, a, b));
}

/// Swapping the two intervals turns the relation into its converse.
pub proof fn lemma_allen_converse(rel: AllenRelation, a: Interval, b: Interval)
    ensures
        related(rel, a, b) <==> related(converse(rel), b, a),
{
}

/// The three-valued predicates agree with the Allen relation of two proper intervals of the
/// same precision: `before` is certain exactly for Before and Meets and refuted for After and
/// MetBy, and likewise for `after`, `equals`, `contains` and `overlaps`.
pub proof fn lemma_truth_values_follow_relation(rel: AllenRelation, a: Interval, b: Interval)
    requires
        proper(a),
        proper(b),
        a.lower.precision == b.lower.precision,
        related(rel, a, b),
    ensures
        before_truth(a, b) == (match rel {
            AllenRelation::Before | AllenRelation::Meets => TruthValue::True,
            AllenRelation::After | AllenRelation::MetBy => TruthValue::False,
            _ => TruthValue::Unknown,
        }),
        after_truth(a, b) == (match rel {
            AllenRelation::After | AllenRelation::MetBy => TruthValue::True,
            AllenRelation::Before | AllenRelation::Meets => TruthValue::False,
            _ => TruthValue::Unknown,
        }),
        equals_truth(a, b) == (match rel {
            AllenRelation::Equal => TruthValue::True,
            AllenRelation::Before | AllenRelation::Meets | AllenRelation::MetBy
            | AllenRelation::After => TruthValue::False,
            _ => TruthValue::Unknown,
        }),
        contains_truth(a, b) == (match rel {
            AllenRelation::Equal | AllenRelation::Contains | AllenRelation::StartedBy
            | AllenRelation::FinishedBy => TruthValue::True,
            AllenRelation::Before | AllenRelation::Meets | AllenRelation::MetBy
            | AllenRelation::After => TruthValue::False,
            _ => TruthValue::Unknown,
        }),
        overlaps_truth(a, b) == (match rel {
            AllenRelation::Before | AllenRelation::Meets | AllenRelation::MetBy
            | AllenRelation::After => TruthValue::False,
            _ => TruthValue::True,
        }),
{
}

/// Whatever the precisions, `contains` is certain exactly when the relation puts the second
/// interval inside the first (Equal, Contains, StartedBy, FinishedBy), and refuted whenever
/// the intervals are apart (Before, Meets, MetBy, After).
pub proof fn lemma_contains_follows_relation(rel: AllenRelation, a: Interval, b: Interval)
    requires
        proper(a),
        proper(b),
        related(rel, a, b),
    ensures
        (contains_truth(a, b) == TruthValue::True) <==> (rel == AllenRelation::Equal || rel
            == AllenRelation::Contains || rel == AllenRelation::StartedBy || rel
            == AllenRelation::FinishedBy),
        (rel == AllenRelation::Before || rel == AllenRelation::Meets || rel == AllenRelation::MetBy
            || rel == AllenRelation::After) ==> contains_truth(a, b) == TruthValue::False,
{
}

} // verus!
