//! A stopwatch that is either running or paused, and that reads time only
//! from the instants it is handed.

use vstd::prelude::*;
use crate::time::{Duration, Instant};

verus! {

/// An instant was older than the moment at which the clock last resumed.
#[derive(Clone, Copy, Debug, PartialEq, Eq, Structural)]
pub struct ClockError;

impl ClockError {
    /// The error in words.
    pub fn message(&self) -> (r: String)
        ensures
            r@ == "Provided `Instant` is older than the resumed time"@,
    {
        "Provided `Instant` is older than the resumed time".to_owned()
    }
}

/// The stopwatch. While it runs, `offset` is what had accumulated before it
/// resumed at `resumed`; while it is paused, `elapsed` is the frozen total.
#[derive(Clone, Copy, Debug, PartialEq, Eq, Structural)]
pub enum Clock {
    Running { resumed: Instant, offset: Duration },
    Paused { elapsed: Duration },
}

impl Clock {
    /// The nanoseconds that the clock has accumulated by `until`, or `None`
    /// where `until` lies before the moment at which a running clock resumed.
    pub open spec fn elapsed_at(self, until: Instant) -> Option<nat> {
        match self {
            Clock::Running { resumed, offset } => if until@ >= resumed@ {
                Some((until@ - resumed@ + offset@) as nat)
            } else {
                None
            },
            Clock::Paused { elapsed } => Some(elapsed@),
        }
    }

    /// What the clock holds without looking at any instant: the offset of a
    /// running clock, the total of a paused one.
    pub open spec fn stored(self) -> nat {
        match self {
            Clock::Running { offset, .. } => offset@,
            Clock::Paused { elapsed } => elapsed@,
        }
    }

    /// The total at `until`, where there is one, is a span that can be held.
    pub open spec fn in_range(self, until: Instant) -> bool {
        match self.elapsed_at(until) {
            Some(n) => n <= u128::MAX,
            None => true,
        }
    }

    /// The clock after a toggle at `now`: a running clock freezes its total, a
    /// paused one resumes from it. `None` where `now` is older than the moment
    /// at which the running clock resumed.
    pub open spec fn toggled(self, now: Instant) -> Option<Clock> {
        match self {
            Clock::Running { resumed, offset } => if now@ >= resumed@ {
                Some(Clock::Paused { elapsed: Duration { nanos: (offset@ + (now@ - resumed@)) as u128 } })
            } else {
                None
            },
            Clock::Paused { elapsed } => Some(Clock::Running { resumed: now, offset: elapsed }),
        }
    }

    /// The clock with `time` added to what it holds, running or paused as
    /// before.
    pub open spec fn skipped(self, time: Duration) -> Clock {
        match self {
            Clock::Running { resumed, offset } => Clock::Running {
                resumed,
                offset: Duration { nanos: (offset@ + time@) as u128 },
            },
            Clock::Paused { elapsed } => Clock::Paused {
                elapsed: Duration { nanos: (elapsed@ + time@) as u128 },
            },
        }
    }

    /// A paused clock that has accumulated nothing.
    pub fn new() -> (r: Clock)
        ensures
            r == (Clock::Paused { elapsed: Duration { nanos: 0 } }),
    {
        Clock::Paused { elapsed: Duration::zero() }
    }

    /// Whether the clock is paused.
    pub fn is_paused(&self) -> (r: bool)
        ensures
            r == (*self is Paused),
    {
        match self {
            Clock::Paused { .. } => true,
            Clock::Running { .. } => false,
        }
    }

    /// Whether the total at `until`, where there is one, can be held.
    pub fn fits_at(&self, until: Instant) -> (r: bool)
        ensures
            r == self.in_range(until),
    {
        match *self {
            Clock::Running { resumed, offset } => match until.checked_duration_since(resumed) {
                Some(run) => run.checked_add(offset).is_some(),
                None => true,
            },
            Clock::Paused { .. } => true,
        }
    }

    /// What the clock holds without a look at any instant.
    pub fn stored_span(&self) -> (r: Duration)
        ensures
            r@ == self.stored(),
    {
        match *self {
            Clock::Running { offset, .. } => offset,
            Clock::Paused { elapsed } => elapsed,
        }
    }

    /// The time accumulated by `until`. Fails exactly where `until` precedes
    /// the moment at which a running clock resumed.
    pub fn duration_until(&self, until: Instant) -> (r: Result<Duration, ClockError>)
        requires
            self.in_range(until),
        ensures
            match self.elapsed_at(until) {
                Some(n) => r matches Ok(d) && d@ == n,
                None => r is Err,
            },
    {
        match *self {
            Clock::Running { resumed, offset } => match until.checked_duration_since(resumed) {
                Some(run) => match run.checked_add(offset) {
                    Some(total) => Ok(total),
                    None => Err(ClockError),
                },
                None => Err(ClockError),
            },
            Clock::Paused { elapsed } => Ok(elapsed),
        }
    }

    /// The clock in its other state: paused with the total at `now`, or
    /// running from `now` on. Fails exactly where `now` precedes the moment at
    /// which a running clock resumed.
    pub fn toggle(&self, now: Instant) -> (r: Result<Clock, ClockError>)
        requires
            self.in_range(now),
        ensures
            match self.toggled(now) {
                Some(next) => r == Ok::<Clock, ClockError>(next),
                None => r is Err,
            },
    {
        match *self {
            Clock::Running { resumed, offset } => match now.checked_duration_since(resumed) {
                Some(run) => match offset.checked_add(run) {
                    Some(elapsed) => Ok(Clock::Paused { elapsed }),
                    None => Err(ClockError),
                },
                None => Err(ClockError),
            },
            Clock::Paused { elapsed } => Ok(Clock::Running { resumed: now, offset: elapsed }),
        }
    }

    /// The clock moved forward by `time`, without a look at the current
    /// instant.
    pub fn skip_by(&self, time: Duration) -> (r: Clock)
        requires
            self.stored() + time@ <= u128::MAX,
        ensures
            r == self.skipped(time),
    {
        match *self {
            Clock::Running { resumed, offset } => Clock::Running {
                resumed,
                offset: Duration::from_nanos(offset.as_nanos() + time.as_nanos()),
            },
            Clock::Paused { elapsed } => Clock::Paused {
                elapsed: Duration::from_nanos(elapsed.as_nanos() + time.as_nanos()),
            },
        }
    }
}

/// The total never shrinks: where the clock can be read at `earlier`, it can
/// be read at any `later` instant, and shows at least as much.
pub proof fn lemma_elapsed_never_shrinks(clock: Clock, earlier: Instant, later: Instant)
    requires
        earlier@ <= later@,
        clock.elapsed_at(earlier) is Some,
    ensures
        clock.elapsed_at(later) is Some,
        clock.elapsed_at(later)->0 >= clock.elapsed_at(earlier)->0,
        clock is Running ==> clock.elapsed_at(later)->0 - clock.elapsed_at(earlier)->0 == later@
            - earlier@,
{
}

/// Two toggles at one instant change nothing that can be read afterwards:
/// the clock is in its first state again and shows, at every later instant,
/// the total it would have shown untouched.
pub proof fn lemma_toggle_twice_at_once(clock: Clock, at: Instant, later: Instant)
    requires
        at@ <= later@,
        clock.toggled(at) is Some,
        clock.in_range(at),
    ensures
        clock.toggled(at)->0.toggled(at) is Some,
        clock.toggled(at)->0.toggled(at)->0.elapsed_at(later) == clock.elapsed_at(later),
        (clock.toggled(at)->0.toggled(at)->0 is Paused) == (clock is Paused),
{
}

/// Two toggles at `first` and then at `second` keep what ran and drop what
/// was paused: a running clock ends up short of the untouched one by the time
/// between the two, a paused clock ends up ahead of it by that time.
pub proof fn lemma_toggle_twice(clock: Clock, first: Instant, second: Instant, later: Instant)
    requires
        first@ <= second@ <= later@,
        clock.toggled(first) is Some,
        clock.in_range(first),
        clock.toggled(first)->0.in_range(second),
    ensures
        clock.toggled(first)->0.toggled(second) is Some,
        clock.toggled(first)->0.toggled(second)->0.elapsed_at(later) is Some,
        clock.elapsed_at(later) is Some,
        clock is Running ==> clock.toggled(first)->0.toggled(second)->0.elapsed_at(later)->0 + (
        second@ - first@) == clock.elapsed_at(later)->0,
        clock is Paused ==> clock.toggled(first)->0.toggled(second)->0.elapsed_at(later)->0
            == clock.elapsed_at(later)->0 + (second@ - first@),
{
}

} // verus!
