//! The speed of an effect.

use std::cmp::Ordering;
use vstd::prelude::*;
use vstd::std_specs::cmp::PartialOrdSpecImpl;
use vstd::std_specs::convert::FromSpecImpl;

verus! {

/// How fast an effect runs: an opaque magnitude, ordered like the number it
/// was made from.
#[derive(Copy, Clone, Debug, PartialEq, Eq, Structural)]
pub struct Speed(u16);

impl View for Speed {
    type V = u16;

    /// The magnitude.
    closed spec fn view(&self) -> u16 {
        self.0
    }
}

impl Speed {
    /// The magnitude that the speed was made from.
    pub fn value(&self) -> (v: u16)
        ensures
            v == self@,
    {
        self.0
    }

    /// How two magnitudes compare.
    pub open spec fn ordering(a: u16, b: u16) -> Ordering {
        if a < b {
            Ordering::Less
        } else if a == b {
            Ordering::Equal
        } else {
            Ordering::Greater
        }
    }
}

impl From<u16> for Speed {
    fn from(input: u16) -> (s: Speed)
        ensures
            s@ == input,
    {
        Speed(input)
    }
}

impl FromSpecImpl<u16> for Speed {
    open spec fn obeys_from_spec() -> bool {
        true
    }

    closed spec fn from_spec(input: u16) -> Speed {
        Speed(input)
    }
}

impl PartialOrd for Speed {
    fn partial_cmp(&self, other: &Speed) -> (r: Option<Ordering>) {
        if self.0 < other.0 {
            Some(Ordering::Less)
        } else if self.0 == other.0 {
            Some(Ordering::Equal)
        } else {
            Some(Ordering::Greater)
        }
    }
}

impl PartialOrdSpecImpl for Speed {
    open spec fn obeys_partial_cmp_spec() -> bool {
        true
    }

    open spec fn partial_cmp_spec(&self, other: &Speed) -> Option<Ordering> {
        Some(Speed::ordering(self@, other@))
    }
}

/// A speed is its magnitude and nothing more: equal magnitudes, equal speeds.
pub proof fn lemma_speed_is_magnitude(a: Speed, b: Speed)
    ensures
        a@ == b@ <==> a == b,
{
}

} // verus!
