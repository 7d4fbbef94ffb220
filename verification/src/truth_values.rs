use vstd::prelude::*;
use vstd::std_specs::convert::FromSpecImpl;

verus! {

/// Three-valued answer of a relation between possibly imprecise times.
#[derive(Debug, PartialEq, Eq, Clone, Copy, Structural)]
pub enum TruthValue {
    True,
    False,
    Unknown,
}

/// The definite truth value of a boolean.
pub open spec fn truth_of(value: bool) -> TruthValue {
    if value {
        TruthValue::True
    } else {
        TruthValue::False
    }
}

impl FromSpecImpl<bool> for TruthValue {
    open spec fn obeys_from_spec() -> bool {
        true
    }

    open spec fn from_spec(v: bool) -> TruthValue {
        truth_of(v)
    }
}

impl From<bool> for TruthValue {
    fn from(value: bool) -> (r: TruthValue) {
        if value {
            TruthValue::True
        } else {
            TruthValue::False
        }
    }
}

} // verus!
