use vstd::prelude::*;
use crate::text::{decimal, push_decimal};

verus! {

/// A symmetric uncertainty offset `±u` in whole seconds attached to a point.
#[derive(Debug, Clone, Copy, PartialEq, Eq, PartialOrd, Ord, Structural)]
pub struct Uncertainty {
    seconds: u64,
}

impl View for Uncertainty {
    type V = nat;

    /// The number of seconds of the offset.
    closed spec fn view(&self) -> nat {
        self.seconds as nat
    }
}

impl Uncertainty {
    /// Two uncertainties are the same value exactly when they hold the same number of seconds.
    pub proof fn lemma_view_injective(a: Uncertainty, b: Uncertainty)
        ensures
            a@ == b@ <==> a == b,
            a@ <= u64::MAX,
    {
    }

    pub fn from_seconds(seconds: u64) -> (r: Self)
        ensures
            r@ == seconds,
    {
        Self { seconds }
    }

    pub fn seconds(self) -> (r: u64)
        ensures
            r == self@,
    {
        self.seconds
    }

    /// Text such as `±10s`.
    pub fn to_string(&self) -> (r: String)
        ensures
            r@ == seq!['±'] + decimal(self@) + seq!['s'],
    {
        let mut out = String::new();
        proof {
            reveal_strlit("±");
            reveal_strlit("s");
        }
        out.append("±");
        push_decimal(&mut out, self.seconds);
        out.append("s");
        assert(out@ =~= seq!['±'] + decimal(self@) + seq!['s']);
        out
    }
}

} // verus!
