//! Timestamps of the asynchronous runtime, in microseconds.

use vstd::prelude::*;

verus! {

/// A point in the runtime's time, kept in whole microseconds.
#[derive(Debug, Clone, Copy, PartialEq, Eq, Structural)]
pub struct EmbassyTime {
    micros: u64,
}

impl EmbassyTime {
    /// The time in microseconds.
    pub closed spec fn spec_micros(&self) -> u64 {
        self.micros
    }

    /// Wrap a microsecond count.
    pub fn from_micros(micros: u64) -> (r: EmbassyTime)
        ensures
            r.spec_micros() == micros,
    {
        EmbassyTime { micros }
    }

    /// The time in microseconds.
    pub fn as_micros(&self) -> (r: u64)
        ensures
            r == self.spec_micros(),
    {
        self.micros
    }
}

} // verus!
