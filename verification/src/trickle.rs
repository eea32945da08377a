//! The trickle algorithm: when a node repeats its state to its neighbours,
//! and how it weighs a state that it hears against its own.

use std::cmp::Ordering;

use vstd::prelude::*;

use crate::rng::Rng;
use crate::time::Instant;

verus! {

/// The constants of one trickle instance.
#[derive(Clone, Copy, Debug)]
pub struct TrickleParams {
    pub i_min_micros: u64,
    pub i_max_micros: u64,
    pub k: u32,
}

impl TrickleParams {
    /// Parameters under which the algorithm never gets stuck: the intervals
    /// are ordered, last at least one draw unit, and their length in draw
    /// units fits 32 bits.
    pub open spec fn valid(self) -> bool {
        1024 <= self.i_min_micros <= self.i_max_micros < 0x400_0000_0000
    }
}

/// What a caller of `TrickleState::poll` has to do.
#[derive(Clone, Copy, PartialEq, Eq, Structural, Debug)]
pub enum TricklePollResult {
    /// Data should be broadcast out immediately
    Send,
    /// Timeout in microseconds with how long until poll should be called again
    /// (max time to wait--can be called sooner.)
    Wait(u64),
}

/// The trickle timer of a node.
#[derive(Debug)]
pub struct TrickleState<'a> {
    params: &'a TrickleParams,
    rng: Rng,
    interval_micros: u64,
    counter: u32,
    t_expiry: Instant,
    interval_expiry: Instant,
    after_t: bool,
}

/// What a trickle timer holds.
pub struct TrickleModel {
    pub params: TrickleParams,
    pub rng: (u64, u64),
    pub interval_micros: u64,
    pub counter: u32,
    pub t_expiry: Instant,
    pub interval_expiry: Instant,
    pub after_t: bool,
}

impl<'a> View for TrickleState<'a> {
    type V = TrickleModel;

    closed spec fn view(&self) -> TrickleModel {
        TrickleModel {
            params: *self.params,
            rng: self.rng@,
            interval_micros: self.interval_micros,
            counter: self.counter,
            t_expiry: self.t_expiry,
            interval_expiry: self.interval_expiry,
            after_t: self.after_t,
        }
    }
}

/// The length of an interval in draw units of 1024 microseconds, as it fits a `u32`.
pub open spec fn draw_units(interval_micros: u64) -> u32 {
    ((interval_micros / 1024) % 0x1_0000_0000) as u32
}

impl TrickleModel {
    /// Whether an interval of the current length can begin at `now`: there is
    /// a point to draw in it, and the clock can show its end.
    pub open spec fn can_begin(self, now: Instant) -> bool {
        draw_units(self.interval_micros) >= 1 && now.can_add(self.interval_micros as int)
    }

    /// The point drawn from the second half of the interval, in draw units,
    /// and the generator after the draw.
    pub open spec fn draw(self) -> (u32, (u64, u64)) {
        let units = draw_units(self.interval_micros);
        crate::rng::rand32_range(self.rng, units / 2, units)
    }

    /// The timer when an interval has begun at `now`.
    pub open spec fn begun(self, now: Instant) -> TrickleModel {
        TrickleModel {
            rng: self.draw().1,
            counter: 0,
            t_expiry: now.plus(self.draw().0 * 1024),
            interval_expiry: now.plus(self.interval_micros as int),
            after_t: false,
            ..self
        }
    }

    /// The timer when one more consistent state was heard.
    pub open spec fn counted(self) -> TrickleModel {
        TrickleModel { counter: (self.counter + 1) as u32, ..self }
    }

    /// The timer with the shortest interval.
    pub open spec fn reset(self) -> TrickleModel {
        TrickleModel { interval_micros: self.params.i_min_micros, ..self }
    }

    /// The timer with twice the interval, or the longest one.
    pub open spec fn doubled(self) -> TrickleModel {
        TrickleModel {
            interval_micros: if 2 * self.interval_micros <= self.params.i_max_micros {
                (2 * self.interval_micros) as u64
            } else {
                self.params.i_max_micros
            },
            ..self
        }
    }

    /// Whether the interval is over at `now`.
    pub open spec fn interval_over(self, now: Instant) -> bool {
        self.after_t && now.nanos >= self.interval_expiry.nanos
    }

    /// Whether the timer can be polled at `now`: a next interval can begin if one has to.
    pub open spec fn can_poll(self, now: Instant) -> bool {
        self.interval_over(now) ==> 2 * self.interval_micros <= u64::MAX && self.doubled().can_begin(now)
    }

    /// The timer when it has been polled at `now`.
    pub open spec fn polled(self, now: Instant) -> TrickleModel {
        if self.interval_over(now) {
            self.doubled().begun(now)
        } else if !self.after_t && now.nanos >= self.t_expiry.nanos {
            TrickleModel { after_t: true, ..self }
        } else {
            self
        }
    }

    /// What polling at `now` asks for: to send when the drawn point is
    /// reached and fewer than `k` consistent states were heard, otherwise to
    /// wait for the next point on the timer.
    pub open spec fn poll_result(self, now: Instant) -> TricklePollResult {
        let after = self.polled(now);
        if !self.after_t && after.after_t && self.counter < self.params.k {
            TricklePollResult::Send
        } else if after.after_t {
            TricklePollResult::Wait(after.interval_expiry.micros_since_spec(now))
        } else {
            TricklePollResult::Wait(after.t_expiry.micros_since_spec(now))
        }
    }

    /// The send point of an interval that began at `began`: it lies at least
    /// one draw unit before the end, and less than one before the middle unless
    /// the interval is too long to count in draw units.
    pub open spec fn send_point_in_interval(self, began: Instant) -> bool {
        &&& began.nanos <= self.t_expiry.nanos
        &&& self.t_expiry.nanos + 1_024_000 <= self.interval_expiry.nanos
        &&& self.interval_micros < 0x400_0000_0000 ==> 2 * (self.t_expiry.nanos - began.nanos) > (
        self.interval_micros - 2048) * 1000
    }

    /// What the operations keep under valid parameters.
    pub open spec fn inv(self) -> bool {
        self.params.valid() && self.params.i_min_micros <= self.interval_micros
            <= self.params.i_max_micros
    }
}

impl<'a> TrickleState<'a> {
    /// A timer whose first interval, the shortest, begins at `now`.
    pub fn new(params: &'a TrickleParams, now: Instant, rng_seed: u64) -> (result: Self)
        requires
            draw_units(params.i_min_micros) >= 1,
            now.can_add(params.i_min_micros as int),
        ensures
            result@ == (TrickleModel {
                params: *params,
                rng: crate::rng::rand32_seeded(rng_seed),
                interval_micros: params.i_min_micros,
                counter: 0,
                t_expiry: now,
                interval_expiry: now,
                after_t: false,
            }).begun(now),
            result@.send_point_in_interval(now),
            result@.params == *params,
            result@.interval_micros == params.i_min_micros,
            result@.interval_expiry.nanos == now.nanos + 1000 * params.i_min_micros,
            result@.counter == 0,
            !result@.after_t,
            now.nanos <= result@.t_expiry.nanos,
            result@.t_expiry.nanos + 1_024_000 <= result@.interval_expiry.nanos,
            params.i_min_micros < 0x400_0000_0000 ==> 2 * (result@.t_expiry.nanos - now.nanos)
                > 1000 * (params.i_min_micros - 2048),
    {
        let mut result = TrickleState {
            params,
            rng: Rng::new(rng_seed),
            interval_micros: params.i_min_micros,
            counter: 0,
            t_expiry: now,
            interval_expiry: now,
            after_t: false,
        };
        result.begin_interval(now);
        result
    }

    /// Whether the shortest interval can begin at `now`.
    pub fn can_restart(&self, now: Instant) -> (can_restart: bool)
        ensures
            can_restart == self@.reset().can_begin(now),
            1024 <= self@.params.i_min_micros < 0x400_0000_0000 && now.nanos + 1000
                * self@.params.i_min_micros <= u128::MAX ==> can_restart,
    {
        Self::can_begin(self.params.i_min_micros, now)
    }

    /// Whether another consistent state can be counted.
    pub fn can_count(&self) -> (can_count: bool)
        ensures
            can_count == (self@.counter < u32::MAX),
    {
        self.counter < u32::MAX
    }

    /// Whether the timer can be polled at `now`.
    pub fn can_poll(&self, now: Instant) -> (can_poll: bool)
        ensures
            can_poll == self@.can_poll(now),
            !self@.after_t || now.nanos < self@.interval_expiry.nanos ==> can_poll,
    {
        if self.after_t && now.nanos >= self.interval_expiry.nanos {
            if self.interval_micros > u64::MAX / 2 {
                false
            } else if self.interval_micros * 2 <= self.params.i_max_micros {
                Self::can_begin(self.interval_micros * 2, now)
            } else {
                Self::can_begin(self.params.i_max_micros, now)
            }
        } else {
            true
        }
    }

    fn can_begin(interval_micros: u64, now: Instant) -> (can_begin: bool)
        ensures
            can_begin == (draw_units(interval_micros) >= 1 && now.can_add(interval_micros as int)),
    {
        (interval_micros / 1024) % 0x1_0000_0000 >= 1 && now.nanos <= u128::MAX - interval_micros as u128
            * 1000
    }

    fn begin_interval(&mut self, now: Instant)
        requires
            old(self)@.can_begin(now),
        ensures
            final(self)@ == old(self)@.begun(now),
            final(self)@.send_point_in_interval(now),
    {
        self.counter = 0;

        // The draw is in units of 1024 microseconds so that a 32-bit generator does.
        // Rounding is towards zero: the point drawn may lie slightly before the
        // middle of the interval but never behind its end.
        let micros: u64 = self.interval_micros;
        let quotient: u64 = micros / 1024;
        assert(quotient as u32 == quotient % 0x1_0000_0000u64) by (bit_vector);
        let units: u32 = quotient as u32;
        let t_units: u32 = self.rng.range(units / 2, units);
        assert(t_units * 1024 <= micros);
        self.t_expiry = now.add_micros(t_units as u64 * 1024);
        self.interval_expiry = now.add_micros(self.interval_micros);
        self.after_t = false;
    }

    fn double_interval(&mut self)
        requires
            2 * old(self)@.interval_micros <= u64::MAX,
        ensures
            final(self)@ == old(self)@.doubled(),
    {
        let twice: u64 = self.interval_micros * 2;
        if twice <= self.params.i_max_micros {
            self.interval_micros = twice;
        } else {
            self.interval_micros = self.params.i_max_micros;
        }
    }

    fn reset_interval(&mut self)
        ensures
            final(self)@ == old(self)@.reset(),
    {
        self.interval_micros = self.params.i_min_micros;
    }

    /// Advance the trickle algorithm.
    pub fn poll(&mut self, now: Instant) -> (result: TricklePollResult)
        requires
            old(self)@.can_poll(now),
        ensures
            final(self)@ == old(self)@.polled(now),
            result == old(self)@.poll_result(now),
            old(self)@.interval_over(now) ==> final(self)@.send_point_in_interval(now),
            old(self)@.after_t && now.nanos >= old(self)@.interval_expiry.nanos ==> {
                &&& now.nanos <= final(self)@.t_expiry.nanos
                &&& final(self)@.t_expiry.nanos + 1_024_000 <= final(self)@.interval_expiry.nanos
                &&& final(self)@.interval_micros < 0x400_0000_0000 ==> 2 * (
                final(self)@.t_expiry.nanos - now.nanos) > 1000 * (final(self)@.interval_micros
                    - 2048)
            },
    {
        if !self.after_t {
            if now.nanos >= self.t_expiry.nanos {
                self.after_t = true;
                if self.counter < self.params.k {
                    TricklePollResult::Send
                } else {
                    TricklePollResult::Wait(self.interval_expiry.micros_since(now))
                }
            } else {
                TricklePollResult::Wait(self.t_expiry.micros_since(now))
            }
        } else {
            if now.nanos >= self.interval_expiry.nanos {
                self.double_interval();
                self.begin_interval(now);
                TricklePollResult::Wait(self.t_expiry.micros_since(now))
            } else {
                TricklePollResult::Wait(self.interval_expiry.micros_since(now))
            }
        }
    }

    /// Takes appropriate trickle actions given that we are assuming newer state.
    /// The polling loop should be woken.
    pub fn got_new_state(&mut self, now: Instant)
        requires
            old(self)@.reset().can_begin(now),
        ensures
            final(self)@ == old(self)@.reset().begun(now),
            final(self)@.send_point_in_interval(now),
            final(self)@.params == old(self)@.params,
            final(self)@.interval_micros == old(self)@.params.i_min_micros,
            final(self)@.interval_expiry.nanos == now.nanos + 1000
                * old(self)@.params.i_min_micros,
            final(self)@.counter == 0,
            !final(self)@.after_t,
            now.nanos <= final(self)@.t_expiry.nanos,
            final(self)@.t_expiry.nanos + 1_024_000 <= final(self)@.interval_expiry.nanos,
            old(self)@.params.i_min_micros < 0x400_0000_0000 ==> 2 * (final(self)@.t_expiry.nanos
                - now.nanos) > 1000 * (old(self)@.params.i_min_micros - 2048),
    {
        self.reset_interval();
        self.begin_interval(now);
    }

    /// Takes appropriate trickle actions given that we received a consistent (redundant) state.
    /// (The polling loop does not need to be woken.)
    pub fn got_consistent_state(&mut self)
        requires
            old(self)@.counter < u32::MAX,
        ensures
            final(self)@ == old(self)@.counted(),
            final(self)@ == (TrickleModel { counter: (old(self)@.counter + 1) as u32, ..old(self)@ }),
    {
        self.counter = self.counter + 1;
    }

    /// Takes appropriate trickle actions given that we received an outdated state.
    /// The polling loop should be woken.
    pub fn got_outdated_state(&mut self, now: Instant)
        requires
            old(self)@.reset().can_begin(now),
        ensures
            final(self)@ == old(self)@.reset().begun(now),
            final(self)@.send_point_in_interval(now),
            final(self)@.params == old(self)@.params,
            final(self)@.interval_micros == old(self)@.params.i_min_micros,
            final(self)@.interval_expiry.nanos == now.nanos + 1000
                * old(self)@.params.i_min_micros,
            final(self)@.counter == 0,
            !final(self)@.after_t,
            now.nanos <= final(self)@.t_expiry.nanos,
            final(self)@.t_expiry.nanos + 1_024_000 <= final(self)@.interval_expiry.nanos,
            old(self)@.params.i_min_micros < 0x400_0000_0000 ==> 2 * (final(self)@.t_expiry.nanos
                - now.nanos) > 1000 * (old(self)@.params.i_min_micros - 2048),
    {
        self.reset_interval();
        self.begin_interval(now);
    }
}

impl<'a> Clone for TrickleState<'a> {
    fn clone(&self) -> (copy: Self)
        ensures
            copy@ == self@,
    {
        TrickleState {
            params: self.params,
            rng: self.rng,
            interval_micros: self.interval_micros,
            counter: self.counter,
            t_expiry: self.t_expiry,
            interval_expiry: self.interval_expiry,
            after_t: self.after_t,
        }
    }
}

/// Weighs a state that was heard against the state that is held.
pub trait TrickleOrd {
    /// What `consider` returns.
    spec fn considered(&self, other: &Self) -> TrickleOrdering;

    /// Note that comparison cannot necessarily be reversed.
    /// a.consider(b).reverse() is generally NOT the same as b.consider(a).
    fn consider(&self, other: &Self) -> (ordering: TrickleOrdering)
        ensures
            ordering == self.considered(other),
    ;
}

/// How a state that was heard stands to the state that is held.
#[derive(Clone, Copy, PartialEq, Eq, Structural, Debug)]
pub enum TrickleOrdering {
    /// State is less and inconsistent (e.g. outdated)
    Less,
    /// State is equal, or less but consistent
    Consistent,
    /// State is greater (e.g. newer)
    Greater,
}

/// How the heard number `theirs` stands to the held number `ours`, the larger being the newer.
pub open spec fn weigh(ours: int, theirs: int) -> TrickleOrdering {
    if theirs < ours {
        TrickleOrdering::Less
    } else if theirs == ours {
        TrickleOrdering::Consistent
    } else {
        TrickleOrdering::Greater
    }
}

impl TrickleOrdering {
    /// `self` where it decides, otherwise `other`.
    pub open spec fn or_else(self, other: TrickleOrdering) -> TrickleOrdering {
        if self is Consistent {
            other
        } else {
            self
        }
    }

    /// The ordering that stands for a comparison of the heard value with the held one.
    pub fn from_ordering(value: Ordering) -> (ordering: TrickleOrdering)
        ensures
            ordering == (match value {
                Ordering::Less => TrickleOrdering::Less,
                Ordering::Equal => TrickleOrdering::Consistent,
                Ordering::Greater => TrickleOrdering::Greater,
            }),
    {
        match value {
            Ordering::Less => TrickleOrdering::Less,
            Ordering::Equal => TrickleOrdering::Consistent,
            Ordering::Greater => TrickleOrdering::Greater,
        }
    }

    /// `self` unless it leaves the matter open, then `other`.
    pub fn then(self, other: TrickleOrdering) -> (ordering: TrickleOrdering)
        ensures
            ordering == self.or_else(other),
            self is Consistent ==> ordering == other,
            !(self is Consistent) ==> ordering == self,
            other is Consistent ==> ordering == self,
            forall|last: TrickleOrdering| #[trigger]
                ordering.or_else(last) == self.or_else(other.or_else(last)),
    {
        match self {
            TrickleOrdering::Less => TrickleOrdering::Less,
            TrickleOrdering::Consistent => other,
            TrickleOrdering::Greater => TrickleOrdering::Greater,
        }
    }

    /// `self` unless it leaves the matter open, then what `f` returns.
    pub fn then_with<F: FnOnce() -> TrickleOrdering>(self, f: F) -> (ordering: TrickleOrdering)
        requires
            self is Consistent ==> f.requires(()),
        ensures
            self is Consistent ==> f.ensures((), ordering),
            !(self is Consistent) ==> ordering == self,
    {
        match self {
            TrickleOrdering::Less => TrickleOrdering::Less,
            TrickleOrdering::Consistent => f(),
            TrickleOrdering::Greater => TrickleOrdering::Greater,
        }
    }
}

/// How the heard number `theirs` stands to the held number `ours`.
pub fn weigh_u64(ours: u64, theirs: u64) -> (ordering: TrickleOrdering)
    ensures
        ordering == weigh(ours as int, theirs as int),
        ordering is Greater <==> theirs > ours,
        ordering is Consistent <==> theirs == ours,
        ordering is Less <==> theirs < ours,
{
    if theirs < ours {
        TrickleOrdering::Less
    } else if theirs == ours {
        TrickleOrdering::Consistent
    } else {
        TrickleOrdering::Greater
    }
}

/// Under valid parameters every operation keeps the interval between the
/// shortest and the longest one, and can be carried out at any time that
/// leaves the clock room for the longest interval.
pub proof fn law_interval_stays_in_range(m: TrickleModel, now: Instant)
    requires
        m.inv(),
        now.can_add(m.params.i_max_micros as int),
    ensures
        m.can_poll(now),
        m.reset().can_begin(now),
        m.polled(now).inv(),
        m.reset().begun(now).inv(),
{
}

/// An interval doubles when it ends, until it is the longest one.
pub proof fn law_interval_doubles(m: TrickleModel, now: Instant)
    requires
        m.inv(),
        m.interval_over(now),
    ensures
        m.polled(now).interval_micros == if 2 * m.interval_micros < m.params.i_max_micros {
            2 * m.interval_micros
        } else {
            m.params.i_max_micros as int
        },
{
}

/// A node sends at most once in an interval: after it was told to send, a
/// poll asks for the next time only once the interval is over and another
/// one has begun.
pub proof fn law_at_most_one_send_per_interval(m: TrickleModel, now: Instant, later: Instant)
    requires
        m.poll_result(now) is Send,
    ensures
        m.polled(now).poll_result(later) is Wait,
        !m.polled(now).interval_over(later) ==> m.polled(now).polled(later) == m.polled(now),
{
}

/// A node that has heard `k` consistent states in an interval keeps silent in it.
pub proof fn law_redundant_sends_are_suppressed(m: TrickleModel, now: Instant)
    requires
        m.counter >= m.params.k,
    ensures
        m.poll_result(now) is Wait,
{
}

/// A node whose interval has just begun and that hears nothing sends when the
/// drawn point is reached.
pub proof fn law_silence_leads_to_a_send(m: TrickleModel, began: Instant, now: Instant)
    requires
        m.can_begin(began),
        m.params.k > 0,
        now.nanos >= m.begun(began).t_expiry.nanos,
    ensures
        m.begun(began).poll_result(now) is Send,
{
}

/// Nothing is missed by waiting as long as a poll says: any poll before that
/// time is up changes nothing and asks to wait again.
pub proof fn law_nothing_due_before_the_wait_is_over(
    m: TrickleModel,
    now: Instant,
    micros: u64,
    sooner: Instant,
)
    requires
        m.poll_result(now) == TricklePollResult::Wait(micros),
        now.nanos <= sooner.nanos < now.nanos + micros * 1000,
    ensures
        m.polled(now).polled(sooner) == m.polled(now),
        m.polled(now).poll_result(sooner) is Wait,
{
    let after = m.polled(now);
    let target = if after.after_t {
        after.interval_expiry
    } else {
        after.t_expiry
    };
    assert(micros == target.micros_since_spec(now));
    assert(micros <= target.micros_past(now));
}

/// Something that happens to a timer.
pub enum TimerEvent {
    /// It is polled.
    Poll(Instant),
    /// A consistent state is heard.
    Consistent,
}

/// How many consistent states are heard.
pub open spec fn consistent_count(events: Seq<TimerEvent>) -> int
    decreases events.len(),
{
    if events.len() == 0 {
        0
    } else {
        consistent_count(events.drop_last()) + if events.last() is Consistent {
            1int
        } else {
            0
        }
    }
}

impl TrickleModel {
    /// The timer after an event.
    pub open spec fn stepped(self, event: TimerEvent) -> TrickleModel {
        match event {
            TimerEvent::Poll(now) => self.polled(now),
            TimerEvent::Consistent => self.counted(),
        }
    }

    /// The timer after some events.
    pub open spec fn ran(self, events: Seq<TimerEvent>) -> TrickleModel
        decreases events.len(),
    {
        if events.len() == 0 {
            self
        } else {
            self.ran(events.drop_last()).stepped(events.last())
        }
    }

    /// Whether an event asks to send.
    pub open spec fn sends_at(self, event: TimerEvent) -> bool {
        event matches TimerEvent::Poll(now) && self.poll_result(now) is Send
    }

    /// Whether an event is a poll at the send point or behind it.
    pub open spec fn is_due(self, event: TimerEvent) -> bool {
        event matches TimerEvent::Poll(now) && now.nanos >= self.t_expiry.nanos
    }

    /// Whether one of some events is a poll at the send point or behind it.
    pub open spec fn was_due(self, events: Seq<TimerEvent>) -> bool {
        exists|i: int| 0 <= i < events.len() && #[trigger] self.is_due(events[i])
    }

    /// Whether some events all fall into the interval: no poll ends it.
    pub open spec fn within_interval(self, events: Seq<TimerEvent>) -> bool {
        forall|i: int|
            0 <= i < events.len() ==> ((#[trigger] events[i]) matches TimerEvent::Poll(now)
                ==> !self.ran(events.take(i)).interval_over(now))
    }
}

proof fn lemma_consistent_count_grows(events: Seq<TimerEvent>, i: int)
    requires
        0 <= i <= events.len(),
    ensures
        0 <= consistent_count(events.take(i)) <= consistent_count(events),
    decreases events.len(),
{
    if i == events.len() {
        assert(events.take(i) =~= events);
        if events.len() > 0 {
            lemma_consistent_count_grows(events.drop_last(), i - 1);
            assert(events.drop_last().take(i - 1) =~= events.drop_last());
        }
    } else {
        assert(events.drop_last().take(i) =~= events.take(i));
        lemma_consistent_count_grows(events.drop_last(), i);
    }
}

proof fn lemma_ran_within_interval(m: TrickleModel, events: Seq<TimerEvent>)
    requires
        !m.after_t,
        m.within_interval(events),
        m.counter + consistent_count(events) <= u32::MAX,
    ensures
        m.ran(events) == (TrickleModel {
            after_t: m.was_due(events),
            counter: (m.counter + consistent_count(events)) as u32,
            ..m
        }),
        0 <= consistent_count(events) <= events.len(),
    decreases events.len(),
{
    if events.len() > 0 {
        let earlier = events.drop_last();
        assert forall|i: int| 0 <= i < earlier.len() implies ((#[trigger] earlier[i]) matches
            TimerEvent::Poll(now) ==> !m.ran(earlier.take(i)).interval_over(now)) by {
            assert(earlier[i] == events[i]);
            assert(earlier.take(i) =~= events.take(i));
        }
        lemma_ran_within_interval(m, earlier);
        assert(events.take(events.len() - 1) =~= earlier);
        let last = events[events.len() - 1];
        if m.was_due(earlier) {
            let i = choose|i: int| 0 <= i < earlier.len() && #[trigger] m.is_due(earlier[i]);
            assert(m.is_due(events[i]));
        }
        if m.is_due(last) {
            assert(m.was_due(events));
        }
        if m.was_due(events) && !m.is_due(last) {
            let i = choose|i: int| 0 <= i < events.len() && #[trigger] m.is_due(events[i]);
            assert(m.is_due(earlier[i]));
        }
    }
}

/// However an interval is polled, and whatever consistent states are heard in
/// it, it asks to send at most once: at the first poll at the send point or
/// behind it, and exactly if fewer than `k` consistent states were heard by
/// then. What is heard after that makes no difference.
pub proof fn law_one_send_in_an_interval(m: TrickleModel, events: Seq<TimerEvent>, i: int)
    requires
        !m.after_t,
        m.within_interval(events),
        m.counter + consistent_count(events) <= u32::MAX,
        0 <= i < events.len(),
    ensures
        m.ran(events.take(i)).sends_at(events[i]) <==> m.is_due(events[i]) && !m.was_due(
            events.take(i),
        ) && m.counter + consistent_count(events.take(i)) < m.params.k,
{
    let earlier = events.take(i);
    lemma_consistent_count_grows(events, i);
    assert forall|j: int| 0 <= j < earlier.len() implies ((#[trigger] earlier[j]) matches
        TimerEvent::Poll(now) ==> !m.ran(earlier.take(j)).interval_over(now)) by {
        assert(earlier[j] == events[j]);
        assert(earlier.take(j) =~= events.take(j));
    }
    lemma_ran_within_interval(m, earlier);
}

/// What decides first decides: a consistent step leaves the matter to the
/// others, any other step settles it, and grouping does not matter.
pub proof fn law_first_decision_counts(
    a: TrickleOrdering,
    b: TrickleOrdering,
    c: TrickleOrdering,
)
    ensures
        a.or_else(b).or_else(c) == a.or_else(b.or_else(c)),
        TrickleOrdering::Consistent.or_else(b) == b,
        b.or_else(TrickleOrdering::Consistent) == b,
        TrickleOrdering::Less.or_else(b) == TrickleOrdering::Less,
        TrickleOrdering::Greater.or_else(b) == TrickleOrdering::Greater,
{
}

/// Of two numbers the larger is the newer, and only equal ones agree.
pub proof fn law_larger_number_is_newer(ours: int, theirs: int)
    ensures
        weigh(ours, theirs) is Greater <==> theirs > ours,
        weigh(ours, theirs) is Consistent <==> theirs == ours,
        weigh(ours, theirs) is Less <==> theirs < ours,
{
}

/// However long the interval of a timer has grown, a restart brings it back to
/// the shortest one, which begins at once: nothing has been heard in it, and it
/// ends when the shortest interval is over.
pub proof fn law_restart_begins_the_shortest_interval(m: TrickleModel, now: Instant)
    requires
        now.nanos + 1000 * m.params.i_min_micros <= u128::MAX,
    ensures
        m.reset().begun(now).params == m.params,
        m.reset().begun(now).interval_micros == m.params.i_min_micros,
        m.reset().begun(now).interval_expiry.nanos == now.nanos + 1000 * m.params.i_min_micros,
        m.reset().begun(now).counter == 0,
        !m.reset().begun(now).after_t,
{
}

/// What a restart leads to does not depend on how far the timer had come.
pub proof fn law_restart_forgets_the_interval(a: TrickleModel, b: TrickleModel, now: Instant)
    requires
        a.params == b.params,
        a.rng == b.rng,
    ensures
        a.reset().begun(now) == b.reset().begun(now),
        a.reset().can_begin(now) == b.reset().can_begin(now),
{
}

/// With intervals of at least one draw unit that can be counted in 32 bits, and
/// room on the clock for the longest, a timer can be polled and restarted at any
/// time.
pub proof fn law_timer_never_gets_stuck(m: TrickleModel, now: Instant)
    requires
        1024 <= m.params.i_min_micros <= m.interval_micros <= m.params.i_max_micros,
        m.params.i_max_micros < 0x400_0000_0000,
        now.nanos + 1000 * m.params.i_max_micros <= u128::MAX,
    ensures
        m.inv(),
        m.can_poll(now),
        m.can_begin(now),
        m.reset().can_begin(now),
{
}

/// Before the send point a poll changes nothing, and asks to wait up to it.
pub proof fn law_send_point_is_waited_for(m: TrickleModel, now: Instant)
    requires
        !m.after_t,
        now.nanos < m.t_expiry.nanos,
    ensures
        m.can_poll(now),
        m.polled(now) == m,
        m.poll_result(now) is Wait,
        m.t_expiry.nanos - now.nanos < 1000 * (u64::MAX + 1) ==> m.poll_result(now)
            == TricklePollResult::Wait(((m.t_expiry.nanos - now.nanos) / 1000) as u64),
{
}

/// The first poll at the send point or behind it asks to send exactly if fewer
/// than `k` consistent states were heard, and otherwise to wait for the end of
/// the interval. All that changes is that the point has been passed.
pub proof fn law_send_point_is_used_once(m: TrickleModel, now: Instant)
    requires
        !m.after_t,
        now.nanos >= m.t_expiry.nanos,
    ensures
        m.can_poll(now),
        m.polled(now) == (TrickleModel { after_t: true, ..m }),
        m.poll_result(now) is Send <==> m.counter < m.params.k,
        m.counter >= m.params.k && 0 <= m.interval_expiry.nanos - now.nanos < 1000 * (u64::MAX + 1)
            ==> m.poll_result(now) == TricklePollResult::Wait(
            ((m.interval_expiry.nanos - now.nanos) / 1000) as u64,
        ),
        m.counter >= m.params.k && m.interval_expiry.nanos < now.nanos ==> m.poll_result(now)
            == TricklePollResult::Wait(0),
{
}

/// Behind the send point a poll changes nothing before the interval is over,
/// and asks to wait up to its end.
pub proof fn law_rest_of_the_interval_is_waited_for(m: TrickleModel, now: Instant)
    requires
        m.after_t,
        now.nanos < m.interval_expiry.nanos,
    ensures
        m.can_poll(now),
        m.polled(now) == m,
        m.poll_result(now) is Wait,
        m.interval_expiry.nanos - now.nanos < 1000 * (u64::MAX + 1) ==> m.poll_result(now)
            == TricklePollResult::Wait(((m.interval_expiry.nanos - now.nanos) / 1000) as u64),
{
}

/// The first poll when an interval is over begins another one at once, twice as
/// long or the longest, in which nothing has been heard, and never sends.
pub proof fn law_intervals_follow_each_other(m: TrickleModel, now: Instant)
    requires
        m.after_t,
        now.nanos >= m.interval_expiry.nanos,
        2 * m.interval_micros <= u64::MAX,
        now.nanos + 1000 * m.params.i_max_micros <= u128::MAX,
    ensures
        ({
            let next = m.polled(now);
            &&& next.params == m.params
            &&& 2 * m.interval_micros <= m.params.i_max_micros ==> next.interval_micros == 2
                * m.interval_micros
            &&& 2 * m.interval_micros > m.params.i_max_micros ==> next.interval_micros
                == m.params.i_max_micros
            &&& next.interval_expiry.nanos == now.nanos + 1000 * next.interval_micros
            &&& next.counter == 0
            &&& !next.after_t
            &&& m.poll_result(now) is Wait
        }),
{
}

/// A consistent state is counted, and changes nothing else: it neither moves the
/// send point nor the end of the interval.
pub proof fn law_consistent_state_only_counts(m: TrickleModel)
    requires
        m.counter < u32::MAX,
    ensures
        m.counted().counter == m.counter + 1,
        m.counted() == (TrickleModel { counter: m.counted().counter, ..m }),
{
}

/// The send point is drawn from the second half of the interval, in units of 1024
/// microseconds, and the generator moves on with the draw.
pub proof fn law_send_point_is_drawn(m: TrickleModel, now: Instant)
    requires
        m.interval_micros < 0x400_0000_0000,
        now.nanos + 1000 * m.interval_micros <= u128::MAX,
    ensures
        ({
            let units = (m.interval_micros / 1024) as u32;
            let (t_units, rng) = crate::rng::rand32_range(m.rng, (units / 2) as u32, units);
            &&& m.begun(now).rng == rng
            &&& t_units < units ==> m.begun(now).t_expiry.nanos == now.nanos + 1_024_000 * t_units
            &&& m.begun(now).interval_expiry.nanos == now.nanos + 1000 * m.interval_micros
        }),
{
    assert(m.interval_micros / 1024 < 0x1_0000_0000);
    assert(draw_units(m.interval_micros) == m.interval_micros / 1024);
}

/// What is said of a send point holds of its time: nothing is sent before the
/// interval begins or in its last 1024 microseconds, and in intervals short
/// enough to be counted in draw units nothing is sent earlier than 1024
/// microseconds before the middle.
pub proof fn law_send_point_leaves_time_to_listen(m: TrickleModel, began: Instant)
    requires
        m.send_point_in_interval(began),
        m.interval_expiry.nanos == began.nanos + 1000 * m.interval_micros,
    ensures
        began.nanos <= m.t_expiry.nanos,
        m.t_expiry.nanos + 1_024_000 <= m.interval_expiry.nanos,
        m.interval_micros < 0x400_0000_0000 ==> (m.t_expiry.nanos - began.nanos) + 1_024_000
            > 500 * m.interval_micros,
{
}

} // verus!
