//! The timer itself: a stopwatch laid over a repeating cycle of sessions.

use vstd::prelude::*;
use vstd::arithmetic::div_mod::{lemma_fundamental_div_mod, lemma_fundamental_div_mod_converse_div, lemma_mod_multiples_vanish, lemma_small_mod, lemma_mod_self_0, lemma_mod_pos_bound};
use crate::clock::{Clock, ClockError};
use crate::config::Session;
use crate::format::{duration_fmt, duration_text};
use crate::socket::ServerAction;
use crate::time::{Duration, Instant};

verus! {

/// The length of the first `count` of `spans` together: where session
/// `count` starts, and where session `count - 1` ends.
pub open spec fn prefix_sum(spans: Seq<nat>, count: nat) -> nat
    decreases count,
{
    if count == 0 {
        0
    } else {
        prefix_sum(spans, (count - 1) as nat) + if count - 1 < spans.len() {
            spans[count - 1]
        } else {
            0
        }
    }
}

/// Among the first `count` sessions, the last one that has started once
/// `elapsed` of the cycle has passed. A session starts where its predecessor
/// ends, so at a boundary the later session is the one.
pub open spec fn last_started(spans: Seq<nat>, elapsed: nat, count: nat) -> nat
    decreases count,
{
    if count <= 1 {
        0
    } else if prefix_sum(spans, (count - 1) as nat) <= elapsed {
        (count - 1) as nat
    } else {
        last_started(spans, elapsed, (count - 1) as nat)
    }
}

/// `part` of `whole` in hundredths, rounded down; 0 where `whole` is empty.
pub open spec fn percent_of(part: nat, whole: nat) -> nat {
    if whole == 0 {
        0
    } else {
        (100 * part) / whole
    }
}

/// Sessions start one after the other: a later one never before an earlier.
pub proof fn lemma_prefix_sum_grows(spans: Seq<nat>, i: nat, j: nat)
    requires
        i <= j,
    ensures
        prefix_sum(spans, i) <= prefix_sum(spans, j),
    decreases j,
{
    if i < j {
        lemma_prefix_sum_grows(spans, i, (j - 1) as nat);
    }
}

/// Within the cycle, the session found is the one whose half-open range
/// holds `elapsed`.
pub proof fn lemma_last_started_holds(spans: Seq<nat>, elapsed: nat, count: nat)
    requires
        elapsed < prefix_sum(spans, count),
    ensures
        last_started(spans, elapsed, count) < count,
        prefix_sum(spans, last_started(spans, elapsed, count)) <= elapsed,
        elapsed < prefix_sum(spans, last_started(spans, elapsed, count) + 1),
    decreases count,
{
    if count > 1 && prefix_sum(spans, (count - 1) as nat) > elapsed {
        lemma_last_started_holds(spans, elapsed, (count - 1) as nat);
    }
}

/// No session but the found one holds `elapsed` in its half-open range.
pub proof fn lemma_last_started_only(spans: Seq<nat>, elapsed: nat, count: nat, i: nat)
    requires
        i < count,
        prefix_sum(spans, i) <= elapsed < prefix_sum(spans, i + 1),
    ensures
        last_started(spans, elapsed, count) == i,
    decreases count,
{
    if count > 1 {
        if prefix_sum(spans, (count - 1) as nat) <= elapsed {
            if i < count - 1 {
                lemma_prefix_sum_grows(spans, i + 1, (count - 1) as nat);
            }
        } else {
            if i == count - 1 {
            } else {
                lemma_last_started_only(spans, elapsed, (count - 1) as nat, i);
            }
        }
    }
}

/// The session found is one of the first `count`.
pub proof fn lemma_last_started_below(spans: Seq<nat>, elapsed: nat, count: nat)
    requires
        count > 0,
    ensures
        last_started(spans, elapsed, count) < count,
    decreases count,
{
    if count > 1 && prefix_sum(spans, (count - 1) as nat) > elapsed {
        lemma_last_started_below(spans, elapsed, (count - 1) as nat);
    }
}

/// A session has started by `elapsed` exactly where it has ended by then or
/// holds `elapsed` in its range.
pub proof fn lemma_started_means_ended_or_current(spans: Seq<nat>, elapsed: nat, i: nat)
    ensures
        prefix_sum(spans, i) <= elapsed <==> (prefix_sum(spans, i + 1) <= elapsed || prefix_sum(
            spans,
            i,
        ) <= elapsed < prefix_sum(spans, i + 1)),
{
    lemma_prefix_sum_grows(spans, i, i + 1);
}

/// The sessions that have started by `elapsed` are the leading ones of the
/// list, without a gap, and the session found is the last of them.
pub proof fn lemma_started_up_to_last(spans: Seq<nat>, elapsed: nat, count: nat, i: nat)
    requires
        i < count,
    ensures
        prefix_sum(spans, i) <= elapsed <==> i <= last_started(spans, elapsed, count),
    decreases count,
{
    if count > 1 {
        if prefix_sum(spans, (count - 1) as nat) <= elapsed {
            lemma_prefix_sum_grows(spans, i, (count - 1) as nat);
        } else {
            lemma_last_started_below(spans, elapsed, (count - 1) as nat);
            if i < count - 1 {
                lemma_started_up_to_last(spans, elapsed, (count - 1) as nat, i);
            }
        }
    }
}

/// Where the first session is not empty, it is the one found before any time
/// has passed.
pub proof fn lemma_first_session_at_start(spans: Seq<nat>, count: nat)
    requires
        spans.len() > 0,
        spans[0] > 0,
    ensures
        last_started(spans, 0, count) == 0,
    decreases count,
{
    if count > 1 {
        lemma_prefix_sum_grows(spans, 1, (count - 1) as nat);
        assert(prefix_sum(spans, 1) == prefix_sum(spans, 0) + spans[0]);
        lemma_first_session_at_start(spans, (count - 1) as nat);
    }
}

/// `part` of `whole` in hundredths, rounded down; 0 where `whole` is empty.
pub fn percent_done(part: u128, whole: u128) -> (r: u32)
    requires
        part <= whole,
    ensures
        r == percent_of(part as nat, whole as nat),
        r <= 100,
{
    if whole == 0 {
        return 0;
    }
    let mut count: u32 = 0;
    let mut rest: u128 = 0;
    let mut i: u32 = 0;
    while i < 100
        invariant
            i <= 100,
            count <= i,
            rest < whole,
            part <= whole,
            i * part == count * whole + rest,
        decreases 100 - i,
    {
        proof {
            assert((i + 1) * part == i * part + part) by (nonlinear_arith);
            assert((count + 1) * whole == count * whole + whole) by (nonlinear_arith);
        }
        if rest >= whole - part {
            rest = rest - (whole - part);
            count = count + 1;
        } else {
            rest = rest + part;
        }
        i = i + 1;
    }
    proof {
        lemma_fundamental_div_mod_converse_div(100 * part as int, whole as int, count as int, rest as int);
    }
    count
}

/// Why no state could be shown.
#[derive(Clone, Copy, Debug, PartialEq, Eq, Structural)]
pub enum StateError {
    /// The instant was older than the moment at which the clock resumed.
    Clock,
    /// A span of a day or more, or a pattern that the formatter rejects.
    Format,
}

/// The half-open range `[start, end)` that one session takes up in the cycle.
#[derive(Clone, Copy, Debug, PartialEq, Eq, Structural)]
pub struct Bounds {
    pub start: Duration,
    pub end: Duration,
}

impl Bounds {
    /// Whether `elapsed` lies in the range.
    pub fn contains(&self, elapsed: Duration) -> (r: bool)
        ensures
            r == (self.start@ <= elapsed@ < self.end@),
    {
        self.start.nanos <= elapsed.nanos && elapsed.nanos < self.end.nanos
    }
}

/// Where the timer stands in its cycle, before anything is rendered.
#[derive(Clone, Copy, Debug, PartialEq, Eq, Structural)]
pub struct Position {
    pub is_paused: bool,
    /// The current session's place in the list.
    pub index: usize,
    /// What is left of the current session.
    pub time_left: Duration,
    /// How much of the current session has passed, in hundredths.
    pub percent: u32,
}

/// What a client is shown: the position with its spans rendered as text.
#[derive(Clone, Debug, PartialEq, Eq)]
pub struct PomodoroState {
    pub is_paused: bool,
    pub time: String,
    pub session_name: String,
    pub session_duration: String,
    pub percent: u32,
}

/// A stopwatch over a list of sessions that repeats without end.
pub struct PomodoroClock<'a> {
    pub clock: Clock,
    pub default_time_format: &'a str,
    pub sessions: Vec<&'a Session>,
}

impl<'a> PomodoroClock<'a> {
    /// The sessions' lengths in nanoseconds, in cycle order.
    pub open spec fn spans(&self) -> Seq<nat> {
        Seq::new(self.sessions@.len(), |i: int| self.sessions@[i].duration@)
    }

    /// The length of one full cycle.
    pub open spec fn cycle(&self) -> nat {
        prefix_sum(self.spans(), self.sessions@.len())
    }

    /// The cycle is not empty, and its length is a span that can be held.
    pub open spec fn has_cycle(&self) -> bool {
        0 < self.cycle() <= u128::MAX
    }

    /// How far into the current cycle the timer is at `instant`; `None` where
    /// the clock cannot be read there.
    pub open spec fn elapsed_at(&self, instant: Instant) -> Option<nat> {
        match self.clock.elapsed_at(instant) {
            Some(total) => Some(total % self.cycle()),
            None => None,
        }
    }

    /// The current session once `elapsed` of the cycle has passed.
    pub open spec fn index_of(&self, elapsed: nat) -> nat {
        last_started(self.spans(), elapsed, self.sessions@.len())
    }

    /// What is left of the current session once `elapsed` of the cycle has
    /// passed.
    pub open spec fn left_of(&self, elapsed: nat) -> nat {
        (prefix_sum(self.spans(), self.index_of(elapsed) + 1) - elapsed) as nat
    }

    /// The position once `elapsed` of the cycle has passed.
    pub open spec fn position_of(&self, elapsed: nat) -> Position {
        let index = self.index_of(elapsed);
        let whole = self.spans()[index as int];
        let left = self.left_of(elapsed);
        Position {
            is_paused: self.clock is Paused,
            index: index as usize,
            time_left: Duration { nanos: left as u128 },
            percent: percent_of((whole - left) as nat, whole) as u32,
        }
    }

    /// The pattern under which session `index` is rendered: its own, or the
    /// default where it has none.
    pub open spec fn pattern_of(&self, index: int) -> Seq<char> {
        match self.sessions@[index].time_format {
            Some(own) => own@,
            None => self.default_time_format@,
        }
    }

    /// A timer over `sessions` that is paused at the start of its cycle.
    pub fn paused(sessions: Vec<&'a Session>, default_time_format: &'a str) -> (r: Self)
        ensures
            r.clock == (Clock::Paused { elapsed: Duration { nanos: 0 } }),
            r.default_time_format == default_time_format,
            r.sessions == sessions,
    {
        PomodoroClock { clock: Clock::new(), default_time_format, sessions }
    }

    /// The range of every session, in cycle order: each starts where its
    /// predecessor ends, the first at zero.
    pub fn sessions_bounds(&self) -> (r: Vec<Bounds>)
        requires
            self.cycle() <= u128::MAX,
        ensures
            r@.len() == self.sessions@.len(),
            forall|i: int|
                0 <= i < r@.len() ==> (#[trigger] r@[i]).start@ == prefix_sum(self.spans(), i as nat)
                    && r@[i].end@ == prefix_sum(self.spans(), (i + 1) as nat),
    {
        let ghost spans = self.spans();
        let mut bounds: Vec<Bounds> = Vec::new();
        let mut start: u128 = 0;
        let mut k: usize = 0;
        while k < self.sessions.len()
            invariant
                k <= self.sessions@.len(),
                spans == self.spans(),
                self.cycle() <= u128::MAX,
                start == prefix_sum(spans, k as nat),
                bounds@.len() == k,
                forall|i: int|
                    0 <= i < k ==> (#[trigger] bounds@[i]).start@ == prefix_sum(spans, i as nat)
                        && bounds@[i].end@ == prefix_sum(spans, (i + 1) as nat),
            decreases self.sessions@.len() - k,
        {
            proof {
                lemma_prefix_sum_grows(spans, (k + 1) as nat, self.sessions@.len() as nat);
            }
            let end: u128 = start + self.sessions[k].duration.as_nanos();
            bounds.push(Bounds { start: Duration::from_nanos(start), end: Duration::from_nanos(end) });
            start = end;
            k = k + 1;
        }
        bounds
    }

    /// The length of one full cycle, or `None` where it is more than a span
    /// can hold.
    pub fn checked_cycle(&self) -> (r: Option<Duration>)
        ensures
            match r {
                Some(cycle) => cycle@ == self.cycle(),
                None => self.cycle() > u128::MAX,
            },
    {
        let ghost spans = self.spans();
        let mut total: u128 = 0;
        let mut k: usize = 0;
        while k < self.sessions.len()
            invariant
                k <= self.sessions@.len(),
                spans == self.spans(),
                total == prefix_sum(spans, k as nat),
            decreases self.sessions@.len() - k,
        {
            let span: u128 = self.sessions[k].duration.as_nanos();
            if total > u128::MAX - span {
                proof {
                    lemma_prefix_sum_grows(spans, (k + 1) as nat, self.sessions@.len() as nat);
                }
                return None;
            }
            total = total + span;
            k = k + 1;
        }
        Some(Duration::from_nanos(total))
    }

    /// The length of one full cycle.
    pub fn cycle_duration(&self) -> (r: Duration)
        requires
            self.cycle() <= u128::MAX,
        ensures
            r@ == self.cycle(),
    {
        let ghost spans = self.spans();
        let mut total: u128 = 0;
        let mut k: usize = 0;
        while k < self.sessions.len()
            invariant
                k <= self.sessions@.len(),
                spans == self.spans(),
                self.cycle() <= u128::MAX,
                total == prefix_sum(spans, k as nat),
            decreases self.sessions@.len() - k,
        {
            proof {
                lemma_prefix_sum_grows(spans, (k + 1) as nat, self.sessions@.len() as nat);
            }
            total = total + self.sessions[k].duration.as_nanos();
            k = k + 1;
        }
        Duration::from_nanos(total)
    }

    /// How far into the current cycle the timer is at `instant`: the clock's
    /// total, less every whole cycle in it. Always short of a full cycle.
    /// Fails exactly where the clock cannot be read at `instant`.
    pub fn elapsed_until(&self, instant: Instant) -> (r: Result<Duration, ClockError>)
        requires
            self.has_cycle(),
            self.clock.in_range(instant),
        ensures
            match self.elapsed_at(instant) {
                Some(elapsed) => r matches Ok(d) && d@ == elapsed && d@ < self.cycle(),
                None => r is Err,
            },
    {
        let cycle = self.cycle_duration();
        match self.clock.duration_until(instant) {
            Ok(total) => Ok(total.rem(cycle)),
            Err(e) => Err(e),
        }
    }

    /// Where the timer stands at `instant`: the session that holds the
    /// elapsed part of the cycle, what is left of it, and how much of it has
    /// passed. Fails exactly where the clock cannot be read at `instant`.
    pub fn position_at(&self, instant: Instant) -> (r: Result<Position, ClockError>)
        requires
            self.has_cycle(),
            self.clock.in_range(instant),
        ensures
            match self.elapsed_at(instant) {
                Some(elapsed) => r == Ok::<Position, ClockError>(self.position_of(elapsed))
                    && self.position_of(elapsed).index < self.sessions@.len()
                    && 0 < self.position_of(elapsed).time_left@ <= self.spans()[self.position_of(
                    elapsed,
                ).index as int]
                    && self.position_of(elapsed).percent < 100,
                None => r is Err,
            },
    {
        let elapsed = match self.elapsed_until(instant) {
            Ok(elapsed) => elapsed.as_nanos(),
            Err(e) => { return Err(e); },
        };
        let ghost spans = self.spans();
        let mut index: usize = 0;
        let mut start: u128 = 0;
        let mut end: u128 = 0;
        let mut k: usize = 0;
        while k < self.sessions.len()
            invariant
                k <= self.sessions@.len(),
                spans == self.spans(),
                self.cycle() <= u128::MAX,
                start == prefix_sum(spans, k as nat),
                index == last_started(spans, elapsed as nat, k as nat),
                k > 0 ==> index < k && end == prefix_sum(spans, (index + 1) as nat),
            decreases self.sessions@.len() - k,
        {
            proof {
                lemma_prefix_sum_grows(spans, (k + 1) as nat, self.sessions@.len() as nat);
            }
            let next: u128 = start + self.sessions[k].duration.as_nanos();
            if k == 0 || start <= elapsed {
                index = k;
                end = next;
            }
            start = next;
            k = k + 1;
        }
        proof {
            lemma_last_started_holds(spans, elapsed as nat, self.sessions@.len() as nat);
            assert(prefix_sum(spans, (index + 1) as nat) == prefix_sum(spans, index as nat)
                + spans[index as int]);
        }
        let whole: u128 = self.sessions[index].duration.as_nanos();
        let left: u128 = end - elapsed;
        let percent = percent_done(whole - left, whole);
        proof {
            let part = (whole - left) as int;
            assert(part < whole);
            if percent == 100 {
                lemma_fundamental_div_mod(100 * part, whole as int);
                assert(whole * 100 <= 100 * part) by (nonlinear_arith)
                    requires
                        100 * part == whole * ((100 * part) / (whole as int)) + (100 * part) % (
                        whole as int),
                        (100 * part) / (whole as int) == 100,
                        (100 * part) % (whole as int) >= 0,
                ;
            }
        }
        Ok(
            Position {
                is_paused: self.clock.is_paused(),
                index,
                time_left: Duration::from_nanos(left),
                percent,
            },
        )
    }

    /// The state that a client is shown for `instant`, rendered under the
    /// current session's pattern. Fails with `Clock` exactly where the clock
    /// cannot be read at `instant`, and otherwise with `Format` exactly where
    /// one of the two spans has no text.
    pub fn state_at(&self, instant: Instant) -> (r: Result<PomodoroState, StateError>)
        requires
            self.has_cycle(),
            self.clock.in_range(instant),
        ensures
            match self.elapsed_at(instant) {
                Some(elapsed) => {
                    let position = self.position_of(elapsed);
                    let index = position.index as int;
                    match (
                        duration_text(self.sessions@[index].duration@, self.pattern_of(index)),
                        duration_text(position.time_left@, self.pattern_of(index)),
                    ) {
                        (Some(whole), Some(left)) => r matches Ok(state) && state.shows(
                            position,
                            self.sessions@[index].name@,
                            whole,
                            left,
                        ),
                        _ => r == Err::<PomodoroState, StateError>(StateError::Format),
                    }
                },
                None => r == Err::<PomodoroState, StateError>(StateError::Clock),
            },
    {
        let position = match self.position_at(instant) {
            Ok(position) => position,
            Err(_) => { return Err(StateError::Clock); },
        };
        let session = self.sessions[position.index];
        let time_format: &str = match &session.time_format {
            Some(own) => own.as_str(),
            None => self.default_time_format,
        };
        let session_duration = duration_fmt(session.duration, time_format);
        let time = duration_fmt(position.time_left, time_format);
        PomodoroState::compose(&position, session.name.clone(), session_duration, time)
    }

    /// Pauses a running timer, resumes a paused one. Fails, and changes
    /// nothing, exactly where `now` is older than the moment at which the
    /// running clock resumed.
    pub fn toggle(&mut self, now: Instant) -> (r: Result<(), ClockError>)
        requires
            old(self).clock.in_range(now),
        ensures
            final(self).sessions == old(self).sessions,
            final(self).default_time_format == old(self).default_time_format,
            match old(self).clock.toggled(now) {
                Some(next) => r is Ok && final(self).clock == next,
                None => r is Err && final(self).clock == old(self).clock,
            },
    {
        match self.clock.toggle(now) {
            Ok(next) => {
                self.clock = next;
                Ok(())
            },
            Err(e) => Err(e),
        }
    }

    /// Moves the clock forward by what is left of the current session, so
    /// that at `now` the timer stands exactly where that session ends: at the
    /// start of the next one, or at the start of the cycle after the last.
    /// Fails, and changes nothing, exactly where the clock cannot be read at
    /// `now`.
    pub fn skip_session(&mut self, now: Instant) -> (r: Result<(), ClockError>)
        requires
            old(self).has_cycle(),
            old(self).clock.in_range(now),
            old(self).can_skip(now),
        ensures
            final(self).sessions == old(self).sessions,
            final(self).default_time_format == old(self).default_time_format,
            match old(self).elapsed_at(now) {
                Some(elapsed) => {
                    let end = prefix_sum(old(self).spans(), old(self).index_of(elapsed) + 1);
                    &&& r is Ok
                    &&& final(self).clock == old(self).clock.skipped(
                        Duration { nanos: old(self).left_of(elapsed) as u128 },
                    )
                    &&& final(self).elapsed_at(now) == Some(
                        if end == old(self).cycle() {
                            0nat
                        } else {
                            end
                        },
                    )
                },
                None => r is Err && final(self).clock == old(self).clock,
            },
    {
        let position = match self.position_at(now) {
            Ok(position) => position,
            Err(e) => { return Err(e); },
        };
        proof {
            let total = self.clock.elapsed_at(now)->0 as int;
            let cycle = self.cycle() as int;
            let elapsed = total % cycle;
            lemma_mod_pos_bound(total, cycle);
            lemma_last_started_holds(self.spans(), elapsed as nat, self.sessions@.len() as nat);
            let end = prefix_sum(self.spans(), self.index_of(elapsed as nat) + 1) as int;
            lemma_prefix_sum_grows(self.spans(), self.index_of(elapsed as nat) + 1, self.sessions@.len() as nat);
            lemma_fundamental_div_mod(total, cycle);
            lemma_mod_multiples_vanish(total / cycle, end, cycle);
            assert(total + (end - elapsed) == cycle * (total / cycle) + end);
            if end == cycle {
                lemma_mod_self_0(cycle);
            } else {
                lemma_small_mod(end as nat, cycle as nat);
            }
        }
        self.clock = self.clock.skip_by(position.time_left);
        Ok(())
    }

    /// The clock can take what is left of the session that is current at
    /// `now` on top of what it holds.
    pub open spec fn can_skip(&self, now: Instant) -> bool {
        match self.elapsed_at(now) {
            Some(elapsed) => self.clock.stored() + self.left_of(elapsed) <= u128::MAX,
            None => true,
        }
    }

    /// Puts the timer back to the start of its cycle, paused.
    pub fn reset(&mut self)
        ensures
            final(self).clock == (Clock::Paused { elapsed: Duration { nanos: 0 } }),
            final(self).sessions == old(self).sessions,
            final(self).default_time_format == old(self).default_time_format,
    {
        self.clock = Clock::new();
    }
}

impl PomodoroState {
    /// The state shows `position`, with the session's name and the two spans
    /// as the given texts.
    pub open spec fn shows(
        &self,
        position: Position,
        name: Seq<char>,
        session_duration: Seq<char>,
        time: Seq<char>,
    ) -> bool {
        &&& self.is_paused == position.is_paused
        &&& self.percent == position.percent
        &&& self.session_name@ == name
        &&& self.session_duration@ == session_duration
        &&& self.time@ == time
    }

    /// Puts a state together from a position, the session's name and the two
    /// rendered spans. Fails with `Format` exactly where a text is missing.
    pub fn compose(
        position: &Position,
        session_name: String,
        session_duration: Option<String>,
        time: Option<String>,
    ) -> (r: Result<PomodoroState, StateError>)
        ensures
            match (session_duration, time) {
                (Some(d), Some(t)) => r matches Ok(state) && state.shows(
                    *position,
                    session_name@,
                    d@,
                    t@,
                ),
                _ => r == Err::<PomodoroState, StateError>(StateError::Format),
            },
    {
        match (session_duration, time) {
            (Some(session_duration), Some(time)) => Ok(
                PomodoroState {
                    is_paused: position.is_paused,
                    time,
                    session_name,
                    session_duration,
                    percent: position.percent,
                },
            ),
            _ => Err(StateError::Format),
        }
    }
}

/// After a reset the timer is paused at the very start of its cycle: where
/// the first session is not empty, it is the current one at every instant,
/// with nothing of it passed and all of it left.
pub proof fn lemma_reset_position(timer: PomodoroClock, instant: Instant)
    requires
        timer.has_cycle(),
        timer.sessions@.len() > 0,
        timer.sessions@[0].duration@ > 0,
        timer.clock == (Clock::Paused { elapsed: Duration { nanos: 0 } }),
    ensures
        timer.elapsed_at(instant) == Some(0nat),
        timer.position_of(0).is_paused,
        timer.position_of(0).index == 0,
        timer.position_of(0).percent == 0,
        timer.position_of(0).time_left@ == timer.sessions@[0].duration@,
{
    let spans = timer.spans();
    lemma_first_session_at_start(spans, timer.sessions@.len() as nat);
    assert(prefix_sum(spans, 1) == prefix_sum(spans, 0) + spans[0]);
    lemma_prefix_sum_grows(spans, 1, timer.sessions@.len() as nat);
    lemma_small_mod(0, timer.cycle());
}

/// What a client asks of the server.
#[derive(Clone, Copy, Debug, PartialEq, Eq, Structural)]
pub enum Request {
    Fetch,
    Toggle,
    Skip,
    Reset,
    Stop,
}

/// What the server answers.
#[derive(Debug, PartialEq, Eq)]
pub enum Response {
    State(PomodoroState),
    Confirmation(Result<(), String>),
}

/// The answer to a request that was carried out and has nothing to show.
pub open spec fn confirmed() -> Response {
    Response::Confirmation(Ok(()))
}

impl<'a> PomodoroClock<'a> {
    /// What `update` needs of the timer for `request` at `now`: a cycle where
    /// the request looks at the sessions, and spans that can be held where it
    /// reads or moves the clock.
    pub open spec fn accepts(&self, request: Request, now: Instant) -> bool {
        match request {
            Request::Fetch => self.has_cycle() && self.clock.in_range(now),
            Request::Skip => self.has_cycle() && self.clock.in_range(now) && self.can_skip(now),
            Request::Toggle => self.clock.in_range(now),
            Request::Reset => true,
            Request::Stop => true,
        }
    }

    /// Whether the timer has what `update` needs for `request` at `now`.
    pub fn ready_for(&self, request: &Request, now: Instant) -> (r: bool)
        ensures
            r == self.accepts(*request, now),
    {
        match request {
            Request::Reset => true,
            Request::Stop => true,
            Request::Toggle => self.clock.fits_at(now),
            Request::Fetch => self.cycle_is_usable() && self.clock.fits_at(now),
            Request::Skip => {
                if !self.cycle_is_usable() || !self.clock.fits_at(now) {
                    return false;
                }
                match self.position_at(now) {
                    Ok(position) => {
                        proof {
                            let total = self.clock.elapsed_at(now)->0 as int;
                            lemma_mod_pos_bound(total, self.cycle() as int);
                            let elapsed = (total % (self.cycle() as int)) as nat;
                            lemma_last_started_holds(self.spans(), elapsed, self.sessions@.len() as nat);
                            lemma_prefix_sum_grows(
                                self.spans(),
                                self.index_of(elapsed) + 1,
                                self.sessions@.len() as nat,
                            );
                        }
                        self.clock.stored_span().checked_add(position.time_left).is_some()
                    },
                    Err(_) => true,
                }
            },
        }
    }

    /// Whether the cycle is not empty and its length can be held.
    pub fn cycle_is_usable(&self) -> (r: bool)
        ensures
            r == self.has_cycle(),
    {
        match self.checked_cycle() {
            Some(cycle) => cycle.as_nanos() > 0,
            None => false,
        }
    }

    /// What one request at `now` makes of the timer, and what the server is
    /// told: every request is answered, `Stop` alone also ends the server,
    /// and only `Toggle`, `Skip` and `Reset` touch the clock. A request
    /// fails, with the timer unchanged, where the clock cannot be read at
    /// `now` or a fetched state cannot be rendered.
    pub open spec fn updated(
        &self,
        request: Request,
        now: Instant,
        after: Self,
        r: Result<ServerAction<Response>, StateError>,
    ) -> bool {
        &&& after.sessions == self.sessions
        &&& after.default_time_format == self.default_time_format
        &&& match request {
            Request::Fetch => after.clock == self.clock && match self.elapsed_at(now) {
                Some(elapsed) => {
                    let position = self.position_of(elapsed);
                    let index = position.index as int;
                    match (
                        duration_text(self.sessions@[index].duration@, self.pattern_of(index)),
                        duration_text(position.time_left@, self.pattern_of(index)),
                    ) {
                        (Some(whole), Some(left)) => r matches Ok(
                            ServerAction::Respond(Response::State(state)),
                        ) && state.shows(position, self.sessions@[index].name@, whole, left),
                        _ => r == Err::<ServerAction<Response>, StateError>(StateError::Format),
                    }
                },
                None => r == Err::<ServerAction<Response>, StateError>(StateError::Clock),
            },
            Request::Toggle => match self.clock.toggled(now) {
                Some(next) => after.clock == next && r == Ok::<
                    ServerAction<Response>,
                    StateError,
                >(ServerAction::Respond(confirmed())),
                None => after.clock == self.clock && r == Err::<
                    ServerAction<Response>,
                    StateError,
                >(StateError::Clock),
            },
            Request::Skip => match self.elapsed_at(now) {
                Some(elapsed) => after.clock == self.clock.skipped(
                    Duration { nanos: self.left_of(elapsed) as u128 },
                ) && r == Ok::<ServerAction<Response>, StateError>(
                    ServerAction::Respond(confirmed()),
                ),
                None => after.clock == self.clock && r == Err::<
                    ServerAction<Response>,
                    StateError,
                >(StateError::Clock),
            },
            Request::Reset => after.clock == (Clock::Paused { elapsed: Duration { nanos: 0 } })
                && r == Ok::<ServerAction<Response>, StateError>(
                ServerAction::Respond(confirmed()),
            ),
            Request::Stop => after.clock == self.clock && r == Ok::<
                ServerAction<Response>,
                StateError,
            >(ServerAction::StopRespond(confirmed())),
        }
    }

    /// Carries out one request at `now` and says what the server does next.
    pub fn update(&mut self, request: &Request, now: Instant) -> (r: Result<
        ServerAction<Response>,
        StateError,
    >)
        requires
            old(self).accepts(*request, now),
        ensures
            old(self).updated(*request, now, *final(self), r),
    {
        match request {
            Request::Toggle => match self.toggle(now) {
                Ok(()) => Ok(ServerAction::Respond(Response::Confirmation(Ok(())))),
                Err(_) => Err(StateError::Clock),
            },
            Request::Skip => match self.skip_session(now) {
                Ok(()) => Ok(ServerAction::Respond(Response::Confirmation(Ok(())))),
                Err(_) => Err(StateError::Clock),
            },
            Request::Reset => {
                self.reset();
                Ok(ServerAction::Respond(Response::Confirmation(Ok(()))))
            },
            Request::Fetch => match self.state_at(now) {
                Ok(state) => Ok(ServerAction::Respond(Response::State(state))),
                Err(e) => Err(e),
            },
            Request::Stop => Ok(ServerAction::StopRespond(Response::Confirmation(Ok(())))),
        }
    }
}

} // verus!
