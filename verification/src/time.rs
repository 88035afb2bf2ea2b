//! Spans and points of time.
use vstd::prelude::*;

verus! {

/// A span of time in whole seconds and nanoseconds.
#[derive(Debug, Clone, Copy, PartialEq, Eq, Structural)]
pub struct Duration {
    pub secs: u64,
    /// Less than a second's worth
    pub nanos: u32,
}

/// A point of time, in nanoseconds since a start that stays the same while the program runs.
#[derive(Debug, Clone, Copy, PartialEq, Eq, Structural)]
pub struct Instant {
    pub nanos: u64,
}

/// A point of time as the system's clock tells it, since the start of 1970.
#[derive(Debug, Clone, Copy, PartialEq, Eq, Structural)]
pub struct SystemTime {
    pub secs: u64,
    /// Less than a second's worth
    pub nanos: u32,
}

impl Duration {
    /// The nanosecond part is less than a second.
    pub open spec fn wf(self) -> bool {
        self.nanos < 1_000_000_000
    }

    /// The whole span in nanoseconds.
    pub open spec fn total_nanos(self) -> nat {
        (self.secs * 1_000_000_000 + self.nanos) as nat
    }

    /// The span of this many milliseconds.
    pub fn from_millis(millis: u64) -> (result: Self)
        ensures
            result.wf(),
            result.total_nanos() == millis * 1_000_000,
    {
        let part: u64 = millis % 1000;
        Duration { secs: millis / 1000, nanos: part as u32 * 1_000_000 }
    }

    /// The span of this many seconds.
    pub fn from_secs(secs: u64) -> (result: Self)
        ensures
            result.wf(),
            result.total_nanos() == secs * 1_000_000_000,
    {
        Duration { secs, nanos: 0 }
    }

    /// The span of this many nanoseconds.
    pub fn from_nanos(nanos: u64) -> (result: Self)
        ensures
            result.wf(),
            result.total_nanos() == nanos,
    {
        let part: u64 = nanos % 1_000_000_000;
        Duration { secs: nanos / 1_000_000_000, nanos: part as u32 }
    }

    /// The whole span in nanoseconds.
    pub fn as_nanos(&self) -> (result: u128)
        ensures
            result == self.total_nanos(),
    {
        self.secs as u128 * 1_000_000_000 + self.nanos as u128
    }

    /// The whole span in milliseconds, rounded down.
    pub fn as_millis(&self) -> (result: u128)
        ensures
            result == self.total_nanos() / 1_000_000,
    {
        self.as_nanos() / 1_000_000
    }

    /// Whether this span is longer than the other.
    pub fn exceeds(&self, other: &Duration) -> (result: bool)
        ensures
            result == (self.total_nanos() > other.total_nanos()),
    {
        self.as_nanos() > other.as_nanos()
    }
}

/// The nanoseconds from `start` to `now`; none where `now` lies before `start`.
pub open spec fn nanos_between(start: Instant, now: Instant) -> nat {
    if now.nanos >= start.nanos {
        (now.nanos - start.nanos) as nat
    } else {
        0
    }
}

/// Time adds up: the spans between points in order make up the span between the first and the last,
/// a point that lies so many nanoseconds behind another is that far from it, and no time passes
/// backwards.
pub proof fn law_time_adds_up(a: Instant, b: Instant, c: Instant)
    requires
        a.nanos <= b.nanos <= c.nanos,
    ensures
        nanos_between(a, b) + nanos_between(b, c) == nanos_between(a, c),
        a.nanos + nanos_between(a, b) == b.nanos,
        nanos_between(b, a) == 0,
{
}

/// A span is its seconds, of a thousand million nanoseconds each, and the nanoseconds beyond them.
pub proof fn law_spans(d: Duration, e: Duration)
    requires
        d.wf(),
        e.wf(),
    ensures
        d.total_nanos() == d.secs * 1_000_000_000 + d.nanos,
        d.total_nanos() == e.total_nanos() ==> d == e,
        d.secs < e.secs ==> d.total_nanos() < e.total_nanos(),
{
}

impl Instant {
    /// The span from this point to `now`; none where `now` lies before it.
    pub fn elapsed(&self, now: Instant) -> (result: Duration)
        ensures
            result.wf(),
            result.total_nanos() == nanos_between(*self, now),
    {
        if now.nanos >= self.nanos {
            Duration::from_nanos(now.nanos - self.nanos)
        } else {
            Duration::from_nanos(0)
        }
    }
}

} // verus!
