//! Delta derivation for monotonically non-decreasing cumulative counters.

use vstd::prelude::*;

verus! {

/// Fixed divisor for presenting byte counts as mebibytes.
pub const BYTES_PER_MB: u64 = 1048576;

/// Fixed divisor for presenting byte counts as gibibytes.
pub const BYTES_PER_GB: u64 = 1073741824;

/// The delta reported for one observation of a cumulative counter: zero on
/// the first observation of a stream, and a subtraction clamped to zero when
/// the counter went backwards (reset) otherwise.
pub open spec fn delta_spec(previous: Option<u64>, current: u64) -> u64 {
    match previous {
        None => 0,
        Some(p) => if p <= current {
            (current - p) as u64
        } else {
            0
        },
    }
}

/// Last-seen cumulative counter value for one stream; `None` until the
/// stream's first observation.
pub struct CounterState {
    pub previous: Option<u64>,
}

impl CounterState {
    pub fn new() -> (s: Self)
        ensures
            s.previous == None::<u64>,
    {
        CounterState { previous: None }
    }

    /// Records `current` as the last-seen value and returns the per-interval
    /// delta: zero on the first observation or after a counter reset, the
    /// plain difference otherwise.
    pub fn advance(&mut self, current: u64) -> (delta: u64)
        ensures
            delta == delta_spec(old(self).previous, current),
            final(self).previous == Some(current),
    {
        let delta = match self.previous {
            None => 0,
            Some(p) => if p <= current {
                current - p
            } else {
                0
            },
        };
        self.previous = Some(current);
        delta
    }
}

/// First observation of a stream reports a zero delta, whatever the counter
/// value, so a device's lifetime total is never shown as one interval's rate.
pub proof fn lemma_first_delta_zero(current: u64)
    ensures
        delta_spec(None::<u64>, current) == 0,
{
}

/// A counter that went backwards (reset or wraparound) reports a zero delta
/// rather than underflowing.
pub proof fn lemma_reset_delta_zero(previous: u64, current: u64)
    requires
        current < previous,
    ensures
        delta_spec(Some(previous), current) == 0,
{
}

/// A counter that did not decrease reports exactly the increase.
pub proof fn lemma_monotone_delta(previous: u64, current: u64)
    requires
        previous <= current,
    ensures
        delta_spec(Some(previous), current) == current - previous,
{
}

} // verus!
