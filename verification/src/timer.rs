//! Periodic timers and the jittered first-export timeout.

use vstd::prelude::*;
use crate::time::{Duration, Timestamp, MAX_SEC, NANOS_PER_SEC};

verus! {

/// A periodic timer: ready once per `delay`, starting ready.
pub struct Timer {
    pub delay: Duration,
    pub next: Timestamp,
}

impl Timer {
    /// Well-formed: a non-negative period and an in-range deadline.
    pub open spec fn wf(&self) -> bool {
        self.next.wf() && 0 <= self.delay.ns
    }

    /// A timer that fires immediately, then every `delay`.
    pub fn new(delay: Duration) -> (r: Timer)
        requires
            delay.ns >= 0,
        ensures
            r.wf(),
            r.delay == delay,
            r.next.nanos() == 0,
    {
        Timer { delay, next: Timestamp::zero() }
    }

    /// True when the deadline has arrived; rearms `delay` past `ts`.
    pub fn ready(&mut self, ts: Timestamp) -> (r: bool)
        requires
            old(self).wf(),
            ts.wf(),
        ensures
            final(self).wf(),
            r == (old(self).next.nanos() <= ts.nanos()),
            final(self).delay == old(self).delay,
            r && ts.nanos() + old(self).delay.ns <= MAX_SEC * NANOS_PER_SEC ==> final(self).next.nanos() == ts.nanos() + old(self).delay.ns,
            !r ==> *final(self) == *old(self),
    {
        if self.next.le(ts) {
            let delay = self.delay;
            self.next = ts.plus(delay);
            true
        } else {
            false
        }
    }
}

/// Draws a number below `n` from the thread-local generator.
///
/// Relies on `rand::random_range` over `0..n`: the sample lies in the
/// range. The value itself is random; nothing more is assumed of it.
#[verifier::external_body]
fn random_below(n: u64) -> (r: u64)
    requires
        n >= 1,
    ensures
        r < n,
{
    rand::random_range(0..n)
}

/// The export timeout: a fixed interval with a jittered first deadline.
pub struct Timeout {
    pub delay: Duration,
}

impl Timeout {
    /// Well-formed: a non-negative interval of whole seconds.
    pub open spec fn wf(&self) -> bool {
        0 <= self.delay.ns <= MAX_SEC * NANOS_PER_SEC
    }

    /// A timeout with the given interval.
    pub fn new(delay: Duration) -> (r: Timeout)
        requires
            0 <= delay.ns <= MAX_SEC * NANOS_PER_SEC,
        ensures
            r.wf(),
            r.delay == delay,
    {
        Timeout { delay }
    }

    /// The first deadline: `ts` moved forward by a uniformly drawn whole
    /// number of seconds, at most the interval.
    pub fn first(&mut self, ts: Timestamp) -> (r: Timestamp)
        requires
            old(self).wf(),
            ts.wf(),
        ensures
            *final(self) == *old(self),
            r.wf(),
            ts.nanos() <= r.nanos() || r.sec == MAX_SEC,
            ts.nanos() + old(self).delay.ns <= MAX_SEC * NANOS_PER_SEC ==> ts.nanos() <= r.nanos() <= ts.nanos() + old(self).delay.ns,
    {
        let whole: i64 = self.delay.whole_seconds();
        let skew: u64 = random_below((whole as u64) + 1);
        let d = Duration::seconds(skew as i64);
        proof {
            assert(whole as int == self.delay.ns as int / (NANOS_PER_SEC as int));
            assert(skew * (NANOS_PER_SEC as int) <= whole * (NANOS_PER_SEC as int) <= self.delay.ns) by (nonlinear_arith)
                requires
                    skew <= whole,
                    0 <= self.delay.ns,
                    whole as int == self.delay.ns as int / (NANOS_PER_SEC as int),
            ;
        }
        ts.plus(d)
    }

    /// The deadline after `ts`: one whole interval later.
    pub fn next(&self, ts: Timestamp) -> (r: Timestamp)
        requires
            self.wf(),
            ts.wf(),
        ensures
            r.wf(),
            ts.nanos() + self.delay.ns <= MAX_SEC * NANOS_PER_SEC ==> r.nanos() == ts.nanos() + self.delay.ns,
            r.nanos() >= ts.nanos() || r.sec == MAX_SEC,
    {
        ts.plus(self.delay)
    }
}

} // verus!
