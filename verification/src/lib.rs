use vstd::prelude::*;

pub mod text;
pub mod time_arithmetic;
pub mod util;
pub mod calendar;
pub mod calendar_validity;
pub mod conversion;
pub mod duration;
pub mod feasibility;
pub mod interval;
pub mod leap_second;
pub mod ordering;
pub mod parsing;
pub mod period;
pub mod precision;
pub mod reversal;
pub mod tai;
pub mod time_point;
pub mod time_zone;
pub mod truth_values;
pub mod uncertainty;
pub mod unix;

verus! {

} // verus!
