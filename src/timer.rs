//! A repeating countdown in milliseconds.
use vstd::prelude::*;

verus! {

/// Longest period a countdown can have: one hour.
pub const PERIOD_LIMIT: u64 = 3_600_000;

/// A repeating countdown: it fires each time `period_ms` milliseconds have
/// gone by, and carries the excess over into the next round.
#[derive(Clone, Copy, Debug, PartialEq, Eq, Structural)]
pub struct Countdown {
    pub period_ms: u64,
    pub elapsed_ms: u64,
}

impl Countdown {
    pub open spec fn wf(&self) -> bool {
        0 < self.period_ms <= PERIOD_LIMIT && self.elapsed_ms < self.period_ms
    }

    /// Whether `dt_ms` more milliseconds finish the current round.
    pub open spec fn fires(&self, dt_ms: int) -> bool {
        self.elapsed_ms + dt_ms >= self.period_ms
    }

    pub open spec fn ticked(&self, dt_ms: int) -> Countdown {
        Countdown {
            period_ms: self.period_ms,
            elapsed_ms: ((self.elapsed_ms + dt_ms) % (self.period_ms as int)) as u64,
        }
    }

    /// A countdown of `period_ms` that has already run for `offset_ms`.
    pub fn started(period_ms: u64, offset_ms: u64) -> (r: Countdown)
        requires
            0 < period_ms <= PERIOD_LIMIT,
        ensures
            r.wf(),
            r.period_ms == period_ms,
            r.elapsed_ms == offset_ms % period_ms,
    {
        Countdown { period_ms, elapsed_ms: offset_ms % period_ms }
    }

    /// Lets `dt_ms` milliseconds go by; returns whether a round finished.
    pub fn tick(&mut self, dt_ms: u64) -> (fired: bool)
        requires
            old(self).wf(),
        ensures
            fired == old(self).fires(dt_ms as int),
            *final(self) == old(self).ticked(dt_ms as int),
            final(self).wf(),
    {
        let total = self.elapsed_ms as u128 + dt_ms as u128;
        let period = self.period_ms as u128;
        self.elapsed_ms = (total % period) as u64;
        total >= period
    }
}

} // verus!
