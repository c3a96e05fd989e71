//! A pacing stage: asks the driver to pause and leaves the record
//! untouched.

use vstd::prelude::*;

verus! {

/// Pauses a run for a fixed number of milliseconds.
#[derive(Debug)]
pub struct DelayNode {
    delay_ms: u64,
}

impl View for DelayNode {
    type V = u64;

    closed spec fn view(&self) -> u64 {
        self.delay_ms
    }
}

impl DelayNode {
    /// A stage that pauses for this many milliseconds.
    pub fn new(delay_ms: u64) -> (r: Self)
        ensures
            r@ == delay_ms,
    {
        DelayNode { delay_ms }
    }

    /// How long the stage pauses.
    pub fn delay_ms(&self) -> (r: u64)
        ensures
            r == self@,
    {
        self.delay_ms
    }
}

} // verus!
