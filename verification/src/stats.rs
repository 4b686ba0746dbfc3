//! Per-port probe statistics and the per-port probe session.
//!
//! One `ProbeStatistics` accumulator lives for one port's sequence of probe
//! attempts.  It counts attempts and failures and tracks the minimum,
//! maximum and total elapsed time, in microseconds.  The minimum starts at a
//! sentinel one second above the probe timeout, so any attempt that finishes
//! within the timeout lowers it.

use vstd::prelude::*;

verus! {

/// Sum of a sequence of durations, in microseconds.
pub open spec fn sum_micros(s: Seq<u64>) -> nat
    decreases s.len(),
{
    if s.len() == 0 {
        0
    } else {
        sum_micros(s.drop_last()) + s.last() as nat
    }
}

proof fn lemma_sum_push(s: Seq<u64>, x: u64)
    ensures
        sum_micros(s.push(x)) == sum_micros(s) + x,
{
    assert(s.push(x).drop_last() =~= s);
}

/// Accumulated outcomes of the probe attempts made so far against one port.
pub struct ProbeStatistics {
    /// Number of attempts recorded.
    pub attempts: u64,
    /// Number of attempts that got no response.
    pub failures: u64,
    /// Smallest elapsed time recorded, or the sentinel if none is below it.
    pub min_micros: u64,
    /// Largest elapsed time recorded, or 0 before the first attempt.
    pub max_micros: u64,
    /// Total elapsed time of all recorded attempts.
    pub total_micros: u64,
    /// Initial value of the minimum: one second above the probe timeout.
    pub sentinel_micros: u64,
    /// The elapsed times recorded, in order.
    pub recorded: Ghost<Seq<u64>>,
}

impl ProbeStatistics {
    /// The accumulator faithfully summarises its recorded durations:
    /// attempts count them, failures never exceed attempts, the total is
    /// their sum, the minimum is the least of the sentinel and all recorded
    /// durations, and the maximum is the greatest of 0 and all of them.
    pub open spec fn wf(&self) -> bool {
        &&& self.recorded@.len() == self.attempts as nat
        &&& self.failures <= self.attempts
        &&& self.total_micros as nat == sum_micros(self.recorded@)
        &&& self.min_micros <= self.sentinel_micros
        &&& forall|i: int|
            0 <= i < self.recorded@.len() ==> self.min_micros <= #[trigger] self.recorded@[i]
        &&& (self.min_micros == self.sentinel_micros || exists|i: int|
            0 <= i < self.recorded@.len() && self.min_micros == #[trigger] self.recorded@[i])
        &&& forall|i: int|
            0 <= i < self.recorded@.len() ==> #[trigger] self.recorded@[i] <= self.max_micros
        &&& (self.max_micros == 0 || exists|i: int|
            0 <= i < self.recorded@.len() && self.max_micros == #[trigger] self.recorded@[i])
    }

    /// Number of attempts that got a response.
    pub open spec fn spec_successes(&self) -> nat {
        (self.attempts - self.failures) as nat
    }

    /// A fresh accumulator for one port, with the minimum at its sentinel.
    pub fn new(sentinel_micros: u64) -> (r: Self)
        ensures
            r.wf(),
            r.attempts == 0,
            r.failures == 0,
            r.total_micros == 0,
            r.min_micros == sentinel_micros,
            r.max_micros == 0,
            r.sentinel_micros == sentinel_micros,
            r.recorded@ == Seq::<u64>::empty(),
    {
        ProbeStatistics {
            attempts: 0,
            failures: 0,
            min_micros: sentinel_micros,
            max_micros: 0,
            total_micros: 0,
            sentinel_micros,
            recorded: Ghost(Seq::empty()),
        }
    }

    /// Fold one probe outcome into the accumulator: count the attempt (and
    /// the failure, if it got no response), lower the minimum and raise the
    /// maximum where the elapsed time passes them, and add it to the total.
    pub fn record(&mut self, succeeded: bool, elapsed_micros: u64)
        requires
            old(self).wf(),
            old(self).attempts < u64::MAX,
            old(self).total_micros + elapsed_micros <= u64::MAX,
        ensures
            final(self).wf(),
            final(self).recorded@ == old(self).recorded@.push(elapsed_micros),
            final(self).attempts == old(self).attempts + 1,
            final(self).failures == old(self).failures + (if succeeded {
                0u64
            } else {
                1u64
            }),
            final(self).total_micros == old(self).total_micros + elapsed_micros,
            final(self).min_micros == (if elapsed_micros < old(self).min_micros {
                elapsed_micros
            } else {
                old(self).min_micros
            }),
            final(self).max_micros == (if elapsed_micros > old(self).max_micros {
                elapsed_micros
            } else {
                old(self).max_micros
            }),
            final(self).sentinel_micros == old(self).sentinel_micros,
    {
        proof {
            lemma_sum_push(self.recorded@, elapsed_micros);
        }
        let ghost prior = self.recorded@;
        self.attempts = self.attempts + 1;
        if !succeeded {
            self.failures = self.failures + 1;
        }
        if elapsed_micros < self.min_micros {
            self.min_micros = elapsed_micros;
        }
        if elapsed_micros > self.max_micros {
            self.max_micros = elapsed_micros;
        }
        self.total_micros = self.total_micros + elapsed_micros;
        self.recorded = Ghost(prior.push(elapsed_micros));
        proof {
            let r = self.recorded@;
            assert(r[r.len() - 1] == elapsed_micros);
            assert forall|i: int| 0 <= i < r.len() implies self.min_micros <= #[trigger] r[i] by {
                if i < r.len() - 1 {
                    assert(r[i] == prior[i]);
                }
            }
            assert forall|i: int| 0 <= i < r.len() implies #[trigger] r[i] <= self.max_micros by {
                if i < r.len() - 1 {
                    assert(r[i] == prior[i]);
                }
            }
            if self.min_micros != self.sentinel_micros {
                if elapsed_micros < old(self).min_micros {
                    assert(self.min_micros == r[r.len() - 1]);
                } else {
                    let j = choose|j: int|
                        0 <= j < prior.len() && old(self).min_micros == #[trigger] prior[j];
                    assert(self.min_micros == r[j]);
                }
            }
            if self.max_micros != 0 {
                if elapsed_micros > old(self).max_micros {
                    assert(self.max_micros == r[r.len() - 1]);
                } else {
                    let j = choose|j: int|
                        0 <= j < prior.len() && old(self).max_micros == #[trigger] prior[j];
                    assert(self.max_micros == r[j]);
                }
            }
        }
    }

    /// Number of attempts that got a response.
    pub fn successes(&self) -> (r: u64)
        requires
            self.wf(),
        ensures
            r as nat == self.spec_successes(),
    {
        self.attempts - self.failures
    }
}

/// Every well-formed accumulator satisfies the statistics invariants:
/// successes and failures partition the attempts, every recorded duration
/// lies between the minimum and the maximum, and the total is the sum of
/// the recorded durations.
pub proof fn lemma_statistics_invariants(s: ProbeStatistics)
    requires
        s.wf(),
    ensures
        s.spec_successes() + s.failures == s.attempts,
        forall|i: int|
            0 <= i < s.recorded@.len() ==> s.min_micros <= #[trigger] s.recorded@[i]
                <= s.max_micros,
        s.attempts > 0 ==> s.min_micros <= s.max_micros,
        s.total_micros == sum_micros(s.recorded@),
{
    if s.attempts > 0 {
        assert(s.min_micros <= s.recorded@[0]);
        assert(s.recorded@[0] <= s.max_micros);
    }
}

} // verus!
