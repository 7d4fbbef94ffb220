use vstd::prelude::*;

verus! {

/// The granularity a `TimePoint` resolves to; it determines the interval size
/// when the point is expanded (e.g. a `Day` point spans one whole day).
#[derive(Debug, PartialEq, Eq, Clone, Copy, Structural)]
pub enum Precision {
    Year,
    Month,
    Day,
    Hour,
    Minute,
    Second,
    Millisecond,
}

/// The place of a precision from the coarsest, the year, to the finest, the millisecond.
pub open spec fn rank(p: Precision) -> int {
    match p {
        Precision::Year => 0,
        Precision::Month => 1,
        Precision::Day => 2,
        Precision::Hour => 3,
        Precision::Minute => 4,
        Precision::Second => 5,
        Precision::Millisecond => 6,
    }
}

impl Precision {
    /// Whether this precision resolves to smaller units than `other`.
    pub fn finer_than(&self, other: &Precision) -> (r: bool)
        ensures
            r == (rank(*self) > rank(*other)),
    {
        self.position() > other.position()
    }

    fn position(&self) -> (r: u8)
        ensures
            r == rank(*self),
    {
        match self {
            Precision::Year => 0,
            Precision::Month => 1,
            Precision::Day => 2,
            Precision::Hour => 3,
            Precision::Minute => 4,
            Precision::Second => 5,
            Precision::Millisecond => 6,
        }
    }
}

} // verus!
