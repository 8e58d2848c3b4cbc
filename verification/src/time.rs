//! Wall-clock timestamps and signed durations.
//!
//! A `Timestamp` is seconds plus nanoseconds since the Unix epoch; a
//! `Duration` is a signed count of nanoseconds. Arithmetic is exact over
//! the mathematical nanosecond value of each.

use vstd::prelude::*;

verus! {

/// Nanoseconds per second.
pub const NANOS_PER_SEC: u64 = 1_000_000_000;

/// Upper bound on the seconds field of a well-formed timestamp.
/// Keeps every timestamp's nanosecond value well inside `i64`, so that
/// differences of timestamps always fit a `Duration`.
pub const MAX_SEC: u64 = 4_000_000_000;

/// A point in wall-clock time: seconds and nanoseconds since the Unix epoch.
#[derive(Clone, Copy, Debug, PartialEq, Eq, Structural)]
pub struct Timestamp {
    pub sec: u64,
    pub nsec: u64,
}

/// A signed span of time, counted in nanoseconds.
#[derive(Clone, Copy, Debug, PartialEq, Eq, Structural)]
pub struct Duration {
    pub ns: i64,
}

impl Timestamp {
    /// The timestamp's value as a mathematical count of nanoseconds.
    pub open spec fn nanos(self) -> int {
        self.sec * (NANOS_PER_SEC as int) + self.nsec
    }

    /// Well-formed: nanoseconds below one second, seconds bounded.
    pub open spec fn wf(self) -> bool {
        self.nsec < NANOS_PER_SEC && self.sec <= MAX_SEC
    }

    /// The current wall-clock time.
    ///
    /// Relies on `std::time::SystemTime::now` and
    /// `Duration::since(UNIX_EPOCH)`: the subsecond part of a
    /// `std::time::Duration` is below one second. Nothing more is
    /// assumed of the clock's reading; a clock before the epoch reads
    /// as the epoch.
    #[verifier::external_body]
    fn clock_raw() -> (r: (u64, u64))
        ensures
            r.1 < NANOS_PER_SEC,
    {
        match std::time::SystemTime::now().duration_since(std::time::UNIX_EPOCH) {
            Ok(d) => (d.as_secs(), d.subsec_nanos() as u64),
            Err(_) => (0, 0),
        }
    }

    /// The wall clock, with the seconds clamped to the representable
    /// range.
    pub fn now() -> (r: Timestamp)
        ensures
            r.wf(),
    {
        let (sec, nsec) = Self::clock_raw();
        Timestamp { sec: if sec > MAX_SEC { MAX_SEC } else { sec }, nsec }
    }

    /// The epoch itself.
    pub fn zero() -> (r: Timestamp)
        ensures
            r.sec == 0 && r.nsec == 0,
            r.wf(),
    {
        Timestamp { sec: 0, nsec: 0 }
    }

    /// This timestamp moved forward by `d` (which must not be negative),
    /// saturating at the well-formedness bound.
    pub fn plus(self, d: Duration) -> (r: Timestamp)
        requires
            self.wf(),
            d.ns >= 0,
        ensures
            r.wf(),
            self.nanos() + d.ns <= MAX_SEC * NANOS_PER_SEC ==> r.nanos() == self.nanos() + d.ns,
            r.nanos() >= self.nanos() || r.sec == MAX_SEC,
    {
        let add_sec: u64 = (d.ns as u64) / NANOS_PER_SEC;
        let add_ns: u64 = (d.ns as u64) % NANOS_PER_SEC;
        let mut sec: u64 = self.sec;
        let mut nsec: u64 = self.nsec + add_ns;
        if nsec >= NANOS_PER_SEC {
            nsec = nsec - NANOS_PER_SEC;
            sec = sec + 1;
        }
        if sec > MAX_SEC || add_sec > MAX_SEC - sec {
            Timestamp { sec: MAX_SEC, nsec }
        } else {
            Timestamp { sec: sec + add_sec, nsec }
        }
    }

    /// The signed span from `other` to `self`.
    pub fn minus(self, other: Timestamp) -> (r: Duration)
        requires
            self.wf(),
            other.wf(),
        ensures
            r.ns == self.nanos() - other.nanos(),
    {
        let a: i64 = (self.sec * NANOS_PER_SEC + self.nsec) as i64;
        let b: i64 = (other.sec * NANOS_PER_SEC + other.nsec) as i64;
        Duration { ns: a - b }
    }

    /// True when `self` is no later than `other`.
    pub fn le(self, other: Timestamp) -> (r: bool)
        requires
            self.wf(),
            other.wf(),
        ensures
            r == (self.nanos() <= other.nanos()),
    {
        self.sec < other.sec || (self.sec == other.sec && self.nsec <= other.nsec)
    }

    /// True when `self` is strictly earlier than `other`.
    pub fn lt(self, other: Timestamp) -> (r: bool)
        requires
            self.wf(),
            other.wf(),
        ensures
            r == (self.nanos() < other.nanos()),
    {
        self.sec < other.sec || (self.sec == other.sec && self.nsec < other.nsec)
    }
}

impl Duration {
    /// A whole number of seconds.
    pub fn seconds(s: i64) -> (r: Duration)
        requires
            -9_000_000_000 <= s <= 9_000_000_000,
        ensures
            r.ns == s * NANOS_PER_SEC,
    {
        Duration { ns: s * (NANOS_PER_SEC as i64) }
    }

    /// A whole number of milliseconds.
    pub fn milliseconds(ms: i64) -> (r: Duration)
        requires
            -9_000_000_000_000 <= ms <= 9_000_000_000_000,
        ensures
            r.ns == ms * 1_000_000,
    {
        Duration { ns: ms * 1_000_000 }
    }

    /// A count of nanoseconds.
    pub fn nanoseconds(ns: i64) -> (r: Duration)
        ensures
            r.ns == ns,
    {
        Duration { ns }
    }

    /// Integer division truncated toward zero, as Rust's `/` rounds.
    pub open spec fn div_trunc(n: int, d: int) -> int {
        if n >= 0 {
            n / d
        } else {
            -((-n) / d)
        }
    }

    /// The span in whole seconds, truncated toward zero.
    pub fn whole_seconds(self) -> (r: i64)
        requires
            self.ns != i64::MIN,
        ensures
            r == Self::div_trunc(self.ns as int, NANOS_PER_SEC as int),
    {
        if self.ns >= 0 {
            ((self.ns as u64) / NANOS_PER_SEC) as i64
        } else {
            -((((-self.ns) as u64) / NANOS_PER_SEC) as i64)
        }
    }

    /// The span in whole milliseconds, truncated toward zero.
    pub fn whole_milliseconds(self) -> (r: i64)
        requires
            self.ns != i64::MIN,
        ensures
            r == Self::div_trunc(self.ns as int, 1_000_000),
    {
        if self.ns >= 0 {
            ((self.ns as u64) / 1_000_000) as i64
        } else {
            -((((-self.ns) as u64) / 1_000_000) as i64)
        }
    }

    /// Half the span, truncated toward zero.
    pub fn half(self) -> (r: Duration)
        requires
            self.ns != i64::MIN,
        ensures
            r.ns == Self::div_trunc(self.ns as int, 2),
    {
        if self.ns >= 0 {
            Duration { ns: (((self.ns as u64) / 2) as i64) }
        } else {
            Duration { ns: -((((-self.ns) as u64) / 2) as i64) }
        }
    }

    /// True when `self` is no longer than `other`.
    pub fn le(self, other: Duration) -> (r: bool)
        ensures
            r == (self.ns <= other.ns),
    {
        self.ns <= other.ns
    }

    /// True when `self` is strictly shorter than `other`.
    pub fn lt(self, other: Duration) -> (r: bool)
        ensures
            r == (self.ns < other.ns),
    {
        self.ns < other.ns
    }
}

} // verus!
