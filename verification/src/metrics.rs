//! What the operator counts: reconciliations, failures, and the time of the
//! last event.

use vstd::prelude::*;

verus! {

/// One more, without passing the largest count.
pub open spec fn counted(n: u64) -> u64 {
    if n < u64::MAX {
        (n + 1) as u64
    } else {
        n
    }
}

/// The counters of the operator.
#[derive(Clone, Copy, Debug, PartialEq, Eq, Structural)]
pub struct Metrics {
    pub reconciliations: u64,
    pub failures: u64,
}

impl Metrics {
    /// Counters that have counted nothing.
    pub fn new() -> (r: Metrics)
        ensures
            r.reconciliations == 0,
            r.failures == 0,
    {
        Metrics { reconciliations: 0, failures: 0 }
    }

    /// Counts one reconciliation.
    pub fn record_reconciliation(&mut self)
        ensures
            final(self).reconciliations == counted(old(self).reconciliations),
            final(self).failures == old(self).failures,
    {
        if self.reconciliations < u64::MAX {
            self.reconciliations = self.reconciliations + 1;
        }
    }

    /// Counts one failed reconciliation.
    pub fn record_failure(&mut self)
        ensures
            final(self).failures == counted(old(self).failures),
            final(self).reconciliations == old(self).reconciliations,
    {
        if self.failures < u64::MAX {
            self.failures = self.failures + 1;
        }
    }
}

/// The counters of the operator, all at zero.
pub fn register_custom_metrics() -> (r: Metrics)
    ensures
        r.reconciliations == 0,
        r.failures == 0,
{
    Metrics::new()
}

/// What the operator remembers between reconciliations.
#[derive(Clone, Copy, Debug, PartialEq, Eq, Structural)]
pub struct State {
    /// When the last event was processed; seconds since the epoch.
    pub last_event: i64,
}

impl State {
    /// The state as of `now`.
    pub fn new(now: i64) -> (r: State)
        ensures
            r.last_event == now,
    {
        State { last_event: now }
    }

    /// Remembers that an event was processed at `now`.
    pub fn record_event(&mut self, now: i64)
        ensures
            final(self).last_event == now,
    {
        self.last_event = now;
    }
}

} // verus!
