//! Spans of time and points on a monotonic clock, both counted in whole
//! nanoseconds.

use vstd::prelude::*;

verus! {

/// Nanoseconds in one second.
pub const NANOS_PER_SEC: u128 = 1_000_000_000;

/// A span of time. Its view is the number of nanoseconds it lasts.
#[derive(Clone, Copy, Debug, PartialEq, Eq, Structural, PartialOrd, Ord, Hash)]
pub struct Duration {
    pub nanos: u128,
}

impl View for Duration {
    type V = nat;

    open spec fn view(&self) -> nat {
        self.nanos as nat
    }
}

impl Duration {
    /// The empty span.
    pub fn zero() -> (r: Duration)
        ensures
            r@ == 0,
    {
        Duration { nanos: 0 }
    }

    /// The span of `secs` seconds and `nanos` nanoseconds.
    pub fn new(secs: u64, nanos: u32) -> (r: Duration)
        ensures
            r@ == secs * 1_000_000_000 + nanos,
    {
        let whole: u128 = secs as u128;
        let part: u128 = nanos as u128;
        Duration { nanos: whole * NANOS_PER_SEC + part }
    }

    /// The span of `secs` seconds.
    pub fn from_secs(secs: u64) -> (r: Duration)
        ensures
            r@ == secs * 1_000_000_000,
    {
        let whole: u128 = secs as u128;
        Duration { nanos: whole * NANOS_PER_SEC }
    }

    /// The span of `millis` milliseconds.
    pub fn from_millis(millis: u64) -> (r: Duration)
        ensures
            r@ == millis * 1_000_000,
    {
        let whole: u128 = millis as u128;
        Duration { nanos: whole * 1_000_000 }
    }

    /// The span of `nanos` nanoseconds.
    pub fn from_nanos(nanos: u128) -> (r: Duration)
        ensures
            r@ == nanos,
    {
        Duration { nanos }
    }

    /// The whole span in nanoseconds.
    pub fn as_nanos(&self) -> (r: u128)
        ensures
            r == self@,
    {
        self.nanos
    }

    /// The number of whole seconds in the span.
    pub fn as_secs(&self) -> (r: u128)
        ensures
            r == self@ / 1_000_000_000,
    {
        self.nanos / NANOS_PER_SEC
    }

    /// The part of the span beyond its whole seconds, in nanoseconds.
    pub fn subsec_nanos(&self) -> (r: u32)
        ensures
            r == self@ % 1_000_000_000,
    {
        (self.nanos % NANOS_PER_SEC) as u32
    }

    /// The sum of two spans, or `None` where it is more than a span can hold.
    pub fn checked_add(&self, other: Duration) -> (r: Option<Duration>)
        ensures
            self@ + other@ <= u128::MAX ==> r == Some(Duration { nanos: (self@ + other@) as u128 }),
            self@ + other@ > u128::MAX ==> r is None,
    {
        if self.nanos <= u128::MAX - other.nanos {
            Some(Duration { nanos: self.nanos + other.nanos })
        } else {
            None
        }
    }

    /// What is left of this span after `other`, or `None` where `other` is the
    /// longer one.
    pub fn checked_sub(&self, other: Duration) -> (r: Option<Duration>)
        ensures
            self@ >= other@ ==> r == Some(Duration { nanos: (self@ - other@) as u128 }),
            self@ < other@ ==> r is None,
    {
        if self.nanos >= other.nanos {
            Some(Duration { nanos: self.nanos - other.nanos })
        } else {
            None
        }
    }

    /// The remainder of this span after as many whole `cycle`s as fit in it.
    pub fn rem(&self, cycle: Duration) -> (r: Duration)
        requires
            cycle@ > 0,
        ensures
            r@ == self@ % cycle@,
            r@ < cycle@,
    {
        Duration { nanos: self.nanos % cycle.nanos }
    }
}

/// A point on a monotonic clock: the time that has passed since an origin
/// that the caller fixes once. Its view is that time in nanoseconds.
#[derive(Clone, Copy, Debug, PartialEq, Eq, Structural, PartialOrd, Ord, Hash)]
pub struct Instant {
    pub nanos: u128,
}

impl View for Instant {
    type V = nat;

    open spec fn view(&self) -> nat {
        self.nanos as nat
    }
}

impl Instant {
    /// The point that lies `since_origin` after the origin.
    pub fn after_origin(since_origin: Duration) -> (r: Instant)
        ensures
            r@ == since_origin@,
    {
        Instant { nanos: since_origin.nanos }
    }

    /// The time from `earlier` to this point, or `None` where `earlier` is in
    /// fact the later one.
    pub fn checked_duration_since(&self, earlier: Instant) -> (r: Option<Duration>)
        ensures
            self@ >= earlier@ ==> r == Some(Duration { nanos: (self@ - earlier@) as u128 }),
            self@ < earlier@ ==> r is None,
    {
        if self.nanos >= earlier.nanos {
            Some(Duration { nanos: self.nanos - earlier.nanos })
        } else {
            None
        }
    }
}

} // verus!
