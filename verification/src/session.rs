//! The per-port probe session: how many attempts remain, whether to sleep
//! before the next one, and the summary block once the sequence is done.

use vstd::prelude::*;
use crate::stats::sum_micros;
use crate::stats::ProbeStatistics;

verus! {

/// What the probe loop does next for the current port.
#[derive(Debug, Clone, Copy, PartialEq, Eq, Structural)]
pub enum SessionAction {
    /// Make one more timed connection attempt.
    Probe,
    /// All planned attempts are done: print the summary block.
    Report,
}

/// One port's probe sequence: a planned number of attempts and the
/// statistics accumulated over the attempts made so far.
pub struct ProbeSession {
    /// How many attempts are planned for this port.
    pub planned: u64,
    /// Outcomes of the attempts made so far.
    pub stats: ProbeStatistics,
}

impl ProbeSession {
    pub open spec fn wf(&self) -> bool {
        self.stats.wf()
    }

    /// A fresh session: no attempt made yet, and the minimum-latency
    /// sentinel one second above the probe timeout.
    pub fn new(planned: u64, timeout_micros: u64) -> (r: Self)
        requires
            timeout_micros + 1_000_000 <= u64::MAX,
        ensures
            r.wf(),
            r.planned == planned,
            r.stats.attempts == 0,
            r.stats.failures == 0,
            r.stats.total_micros == 0,
            r.stats.max_micros == 0,
            r.stats.sentinel_micros == timeout_micros + 1_000_000,
            r.stats.min_micros == r.stats.sentinel_micros,
            r.stats.recorded@ == Seq::<u64>::empty(),
    {
        ProbeSession { planned, stats: ProbeStatistics::new(timeout_micros + 1_000_000) }
    }

    /// Probe again while attempts remain; report once they are spent.  A
    /// session planned with zero attempts reports at once.
    pub fn next_action(&self) -> (a: SessionAction)
        ensures
            a == (if self.stats.attempts < self.planned {
                SessionAction::Probe
            } else {
                SessionAction::Report
            }),
    {
        if self.stats.attempts < self.planned {
            SessionAction::Probe
        } else {
            SessionAction::Report
        }
    }

    /// Fold one probe outcome into the session's statistics.
    pub fn record_probe(&mut self, succeeded: bool, elapsed_micros: u64)
        requires
            old(self).wf(),
            old(self).stats.attempts < old(self).planned,
            old(self).stats.total_micros + elapsed_micros <= u64::MAX,
        ensures
            final(self).wf(),
            final(self).planned == old(self).planned,
            final(self).stats.recorded@ == old(self).stats.recorded@.push(elapsed_micros),
            final(self).stats.attempts == old(self).stats.attempts + 1,
            final(self).stats.failures == old(self).stats.failures + (if succeeded {
                0u64
            } else {
                1u64
            }),
            final(self).stats.total_micros == old(self).stats.total_micros + elapsed_micros,
            final(self).stats.min_micros == (if elapsed_micros < old(self).stats.min_micros {
                elapsed_micros
            } else {
                old(self).stats.min_micros
            }),
            final(self).stats.max_micros == (if elapsed_micros > old(self).stats.max_micros {
                elapsed_micros
            } else {
                old(self).stats.max_micros
            }),
            final(self).stats.sentinel_micros == old(self).stats.sentinel_micros,
    {
        self.stats.record(succeeded, elapsed_micros);
    }

    /// After an attempt, the loop sleeps for the configured interval only if
    /// another attempt is still to come.
    pub fn sleep_before_next(&self) -> (r: bool)
        ensures
            r == (self.stats.attempts < self.planned),
    {
        self.stats.attempts < self.planned
    }
}

/// The summary block printed after one port's probe sequence.
#[derive(Debug, Clone, Copy, PartialEq, Eq, Structural)]
pub struct PortSummary {
    /// Attempts actually made.
    pub probes_sent: u64,
    /// Attempts that got a response.
    pub successes: u64,
    /// Attempts that got none.
    pub failures: u64,
    /// Failure rate in hundredths of a percent, 0 with no attempts.
    pub fail_centi_percent: u64,
    /// Whether any attempt was made: without one there is no latency line.
    pub has_samples: bool,
    /// Smallest elapsed time, in microseconds.
    pub min_micros: u64,
    /// Largest elapsed time, in microseconds.
    pub max_micros: u64,
    /// Mean elapsed time, in microseconds, 0 with no attempts.
    pub avg_micros: u64,
}

/// Compute the summary of one port's probe sequence.
///
/// With no attempts the failure rate and the average are reported as zero
/// rather than divided by zero.  When every attempt failed, the failure rate
/// is exactly 100 percent.
pub fn summarize(stats: &ProbeStatistics) -> (r: PortSummary)
    requires
        stats.wf(),
    ensures
        r.probes_sent == stats.attempts,
        r.successes as nat == stats.spec_successes(),
        r.failures == stats.failures,
        r.has_samples == (stats.attempts > 0),
        r.min_micros == stats.min_micros,
        r.max_micros == stats.max_micros,
        stats.attempts == 0 ==> r.fail_centi_percent == 0 && r.avg_micros == 0,
        stats.attempts > 0 ==> r.fail_centi_percent as int == stats.failures * 10000
            / stats.attempts as int,
        stats.attempts > 0 ==> r.avg_micros as int == stats.total_micros as int
            / stats.attempts as int,
        r.fail_centi_percent <= 10000,
        stats.attempts > 0 && stats.failures == stats.attempts ==> r.fail_centi_percent == 10000,
{
    let attempts = stats.attempts;
    if attempts == 0 {
        PortSummary {
            probes_sent: 0,
            successes: 0,
            failures: stats.failures,
            fail_centi_percent: 0,
            has_samples: false,
            min_micros: stats.min_micros,
            max_micros: stats.max_micros,
            avg_micros: 0,
        }
    } else {
        let fail_wide: u128 = (stats.failures as u128) * 10000 / (attempts as u128);
        proof {
            assert(stats.failures * 10000 <= stats.attempts * 10000) by (nonlinear_arith)
                requires
                    stats.failures <= stats.attempts,
            ;
            assert(stats.failures * 10000 / stats.attempts as int <= stats.attempts * 10000
                / stats.attempts as int) by (nonlinear_arith)
                requires
                    stats.failures * 10000 <= stats.attempts * 10000,
                    stats.attempts > 0,
            ;
            assert(stats.attempts * 10000 / stats.attempts as int == 10000) by (nonlinear_arith)
                requires
                    stats.attempts > 0,
            ;
        }
        let avg: u64 = stats.total_micros / attempts;
        PortSummary {
            probes_sent: attempts,
            successes: stats.attempts - stats.failures,
            failures: stats.failures,
            fail_centi_percent: fail_wide as u64,
            has_samples: true,
            min_micros: stats.min_micros,
            max_micros: stats.max_micros,
            avg_micros: avg,
        }
    }
}

} // verus!
