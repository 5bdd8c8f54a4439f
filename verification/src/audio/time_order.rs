//! Which of two positions comes first.

use super::time::AudioTime;
use std::cmp::Ordering;
use vstd::prelude::*;
use vstd::std_specs::cmp::PartialOrdSpecImpl;

verus! {

impl PartialOrdSpecImpl for AudioTime {
    open spec fn obeys_partial_cmp_spec() -> bool {
        true
    }

    open spec fn partial_cmp_spec(&self, other: &AudioTime) -> Option<Ordering> {
        if self.time < other.time {
            Some(Ordering::Less)
        } else if self.time == other.time {
            Some(Ordering::Equal)
        } else {
            Some(Ordering::Greater)
        }
    }
}

impl PartialOrd for AudioTime {
    /// Positions are ordered by their times alone.
    fn partial_cmp(&self, other: &AudioTime) -> (result: Option<Ordering>) {
        if self.time < other.time {
            Some(Ordering::Less)
        } else if self.time == other.time {
            Some(Ordering::Equal)
        } else {
            Some(Ordering::Greater)
        }
    }
}

} // verus!
