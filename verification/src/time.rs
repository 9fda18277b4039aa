//! Spans of time as plain numbers, and the clock.

use vstd::prelude::*;

verus! {

/// A moment of the clock, `std::time::Instant`. It is carried, never
/// looked into.
#[verifier::external_type_specification]
#[verifier::external_body]
pub struct ExInstant(std::time::Instant);

/// A span of time: whole seconds and the nanoseconds of a further part of
/// a second.
#[derive(Debug, Clone, Copy, PartialEq, Eq, Structural)]
pub struct Duration {
    secs: u64,
    nanos: u32,
}

impl Duration {
    /// The span in nanoseconds.
    pub closed spec fn total_nanos(&self) -> nat {
        (self.secs * 1_000_000_000 + self.nanos) as nat
    }

    /// The whole milliseconds of the span.
    pub open spec fn millis(&self) -> nat {
        self.total_nanos() / 1_000_000
    }

    #[verifier::type_invariant]
    spec fn nanos_below_a_second(self) -> bool {
        self.nanos < 1_000_000_000
    }

    /// A span of `secs` seconds.
    pub fn from_secs(secs: u64) -> (d: Self)
        ensures
            d.total_nanos() == secs * 1_000_000_000,
    {
        Duration { secs, nanos: 0 }
    }

    /// A span of `millis` milliseconds.
    pub fn from_millis(millis: u64) -> (d: Self)
        ensures
            d.total_nanos() == millis * 1_000_000,
    {
        let part: u32 = (millis % 1000) as u32;
        Duration { secs: millis / 1000, nanos: part * 1_000_000 }
    }

    /// A span of `secs` seconds and `nanos` nanoseconds; whole seconds
    /// among the nanoseconds are carried over. `None` where the seconds
    /// would pass the largest number.
    pub fn new(secs: u64, nanos: u32) -> (d: Option<Self>)
        ensures
            d is Some <==> secs + nanos / 1_000_000_000 <= u64::MAX,
            d is Some ==> d->0.total_nanos() == secs * 1_000_000_000 + nanos,
    {
        let carry: u64 = (nanos / 1_000_000_000) as u64;
        match secs.checked_add(carry) {
            Some(total) => Some(Duration { secs: total, nanos: nanos % 1_000_000_000 }),
            None => None,
        }
    }

    /// The whole seconds of the span.
    pub fn as_secs(&self) -> (secs: u64)
        ensures
            secs == self.total_nanos() / 1_000_000_000,
    {
        proof {
            use_type_invariant(self);
        }
        self.secs
    }

    /// The nanoseconds of the span beyond its whole seconds.
    pub fn subsec_nanos(&self) -> (nanos: u32)
        ensures
            nanos == self.total_nanos() % 1_000_000_000,
    {
        proof {
            use_type_invariant(self);
        }
        self.nanos
    }

    /// The whole milliseconds of the span.
    pub fn as_millis(&self) -> (millis: u128)
        ensures
            millis == self.millis(),
    {
        proof {
            use_type_invariant(self);
        }
        let secs: u128 = self.secs as u128;
        let part: u128 = (self.nanos / 1_000_000) as u128;
        secs * 1000 + part
    }

    /// True when this span is longer than `other`.
    pub fn longer_than(&self, other: &Duration) -> (longer: bool)
        ensures
            longer == (self.total_nanos() > other.total_nanos()),
    {
        proof {
            use_type_invariant(self);
            use_type_invariant(other);
        }
        self.secs > other.secs || (self.secs == other.secs && self.nanos > other.nanos)
    }
}

/// `Instant::now` of std: the present moment. Nothing is claimed of it.
#[verifier::external_body]
pub(crate) fn instant_now() -> std::time::Instant {
    std::time::Instant::now()
}

/// `Instant::elapsed` of std: the time gone by since `then`. Nothing is
/// claimed of it.
#[verifier::external_body]
pub(crate) fn instant_elapsed(then: &std::time::Instant) -> std::time::Duration {
    then.elapsed()
}

/// `Duration::as_secs` of std: the whole seconds of the span. Nothing is
/// claimed of them.
#[verifier::external_body]
pub(crate) fn whole_seconds(span: &std::time::Duration) -> u64 {
    span.as_secs()
}

/// `Duration::subsec_nanos` of std: the part of the span beyond its whole
/// seconds, in nanoseconds, which is always less than a second.
#[verifier::external_body]
pub(crate) fn nanoseconds_beyond(span: &std::time::Duration) -> (nanos: u32)
    ensures
        nanos < 1_000_000_000,
{
    span.subsec_nanos()
}

/// The time gone by since `then`.
pub fn elapsed_since(then: &std::time::Instant) -> (gone: Duration) {
    let span = instant_elapsed(then);
    Duration { secs: whole_seconds(&span), nanos: nanoseconds_beyond(&span) }
}

} // verus!
