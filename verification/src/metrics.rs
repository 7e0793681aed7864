//! Stage counters: events processed, alerts generated, rule errors, parse
//! errors. The counters themselves are plain saturating integers; exposing
//! them over HTTP is the embedding program's affair.

use vstd::prelude::*;

verus! {

/// One more than `n`, saturating at the greatest count.
pub open spec fn inc_sat(n: u64) -> u64 {
    if n == u64::MAX {
        n
    } else {
        (n + 1) as u64
    }
}

/// `a` grown by `b`, saturating at the greatest count.
pub open spec fn sat_add(a: u64, b: nat) -> u64 {
    if a + b > u64::MAX {
        u64::MAX
    } else {
        (a + b) as u64
    }
}

/// The pipeline's counters, one per stage.
#[derive(Debug, PartialEq, Eq, Structural, Clone, Copy)]
pub struct Metrics {
    pub events_processed: u64,
    pub alerts_generated: u64,
    pub rule_errors: u64,
    pub parse_errors: u64,
}

impl Metrics {
    /// All counters at zero.
    pub fn new() -> (r: Metrics)
        ensures
            r == (Metrics {
                events_processed: 0u64,
                alerts_generated: 0u64,
                rule_errors: 0u64,
                parse_errors: 0u64,
            }),
    {
        Metrics { events_processed: 0, alerts_generated: 0, rule_errors: 0, parse_errors: 0 }
    }

    /// Counts one consumed event.
    pub fn inc_events_processed(&mut self)
        ensures
            *final(self) == (Metrics {
                events_processed: inc_sat(old(self).events_processed),
                ..*old(self)
            }),
    {
        if self.events_processed < u64::MAX {
            self.events_processed = self.events_processed + 1;
        }
    }

    /// Counts one emitted alert.
    pub fn inc_alerts_generated(&mut self)
        ensures
            *final(self) == (Metrics {
                alerts_generated: inc_sat(old(self).alerts_generated),
                ..*old(self)
            }),
    {
        if self.alerts_generated < u64::MAX {
            self.alerts_generated = self.alerts_generated + 1;
        }
    }

    /// Counts one rule whose evaluation failed.
    pub fn inc_rule_errors(&mut self)
        ensures
            *final(self) == (Metrics { rule_errors: inc_sat(old(self).rule_errors), ..*old(self) }),
    {
        if self.rule_errors < u64::MAX {
            self.rule_errors = self.rule_errors + 1;
        }
    }

    /// Counts one payload that did not parse.
    pub fn inc_parse_errors(&mut self)
        ensures
            *final(self) == (Metrics {
                parse_errors: inc_sat(old(self).parse_errors),
                ..*old(self)
            }),
    {
        if self.parse_errors < u64::MAX {
            self.parse_errors = self.parse_errors + 1;
        }
    }
}

} // verus!
