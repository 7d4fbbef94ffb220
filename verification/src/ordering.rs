//! Ordering points by their wall clocks.
use vstd::prelude::*;
use core::cmp::Ordering;
use vstd::std_specs::cmp::PartialOrdSpecImpl;
use crate::time_point::{clock_after, clock_before, TimePoint};

verus! {

/// How the wall clocks of two points compare, from the year down to the millisecond;
/// precision, zone and uncertainty take no part.
pub open spec fn clock_order(a: TimePoint, b: TimePoint) -> Ordering {
    if clock_before(a, b) {
        Ordering::Less
    } else if clock_before(b, a) {
        Ordering::Greater
    } else {
        Ordering::Equal
    }
}

impl PartialOrdSpecImpl for TimePoint {
    open spec fn obeys_partial_cmp_spec() -> bool {
        true
    }

    open spec fn partial_cmp_spec(&self, other: &TimePoint) -> Option<Ordering> {
        Some(clock_order(*self, *other))
    }
}

impl PartialOrd for TimePoint {
    fn partial_cmp(&self, other: &TimePoint) -> (r: Option<Ordering>)
        ensures
            r == Some(clock_order(*self, *other)),
    {
        if clock_after(other, self) {
            Some(Ordering::Less)
        } else if clock_after(self, other) {
            Some(Ordering::Greater)
        } else {
            Some(Ordering::Equal)
        }
    }
}

/// Points are ordered totally by their wall clocks: the order is reversed by swapping the
/// points, is transitive, and calls two points equal exactly when their clocks agree.
pub proof fn lemma_clock_order_total(a: TimePoint, b: TimePoint, c: TimePoint)
    ensures
        (clock_order(a, b) == Ordering::Less) <==> (clock_order(b, a) == Ordering::Greater),
        (clock_order(a, b) == Ordering::Equal) <==> (a.year == b.year && a.month == b.month && a.day
            == b.day && a.hour == b.hour && a.minute == b.minute && a.second == b.second
            && a.millisecond == b.millisecond),
        clock_before(a, b) && clock_before(b, c) ==> clock_before(a, c),
{
}

} // verus!
