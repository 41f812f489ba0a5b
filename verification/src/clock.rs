//! Readings of a clock that never goes back.

use vstd::prelude::*;

verus! {

/// What the clock shows, in nanoseconds since it was started.
#[derive(Clone, Copy, Debug, PartialEq, Eq, Structural, PartialOrd, Ord)]
pub struct ClockReading(pub u64);

/// How long something took, in nanoseconds.
#[derive(Clone, Copy, Debug, PartialEq, Eq, Structural, PartialOrd, Ord)]
pub struct Elapsed(pub u64);

impl ClockReading {
    /// How long after another reading this one was made: no time where the other
    /// one is later.
    pub open spec fn spec_since(self, earlier: ClockReading) -> Elapsed {
        if self.0 >= earlier.0 {
            Elapsed((self.0 - earlier.0) as u64)
        } else {
            Elapsed(0)
        }
    }

    /// How long after another reading this one was made.
    pub fn since(self, earlier: ClockReading) -> (elapsed: Elapsed)
        ensures
            elapsed == self.spec_since(earlier),
    {
        if self.0 >= earlier.0 {
            Elapsed(self.0 - earlier.0)
        } else {
            Elapsed(0)
        }
    }
}

} // verus!
