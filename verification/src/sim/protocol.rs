//! How a simulated node decides when to repeat its state.

use vstd::prelude::*;

use crate::rng::random_u64;
use crate::sim::state::{frame_decoded, CommState, CommStateType, DeserializeError};
use crate::time::Instant;

verus! {

/// The shortest interval, in nanoseconds.
pub const IMIN_NANOS: u64 = 10_000_000;

/// The longest interval, in nanoseconds.
pub const IMAX_NANOS: u64 = 10_000_000_000;

/// How many consistent messages make a node keep silent.
pub const K: usize = 1;

/// How often a node has something new to say, in seconds.
pub const EVENT_PERIOD_SECS: u64 = 3;

/// The state of the trickle algorithm on a node.
#[derive(Clone, Copy, PartialEq, Eq, Structural, Debug)]
pub struct TrickleProtocol {
    pub interval_nanos: u64,
    /// When in the interval the node may send.
    pub t_nanos: u64,
    /// How many messages were heard that say the same.
    pub counter: usize,
    pub current_state: CommState,
}

/// What a message or an event leads to.
#[derive(Clone, Copy, PartialEq, Eq, Structural, Debug)]
pub enum ProtocolStep {
    /// Wait on.
    Continue,
    /// Start another interval.
    Restart,
    /// Take note of the state in the network, and start another interval.
    Adopt(CommState),
}

impl TrickleProtocol {
    /// What holds of every node.
    pub open spec fn inv(self) -> bool {
        IMIN_NANOS <= self.interval_nanos <= IMAX_NANOS
    }

    /// The node when an interval has begun in which it may send at `t_nanos`.
    pub open spec fn begun(self, t_nanos: u64, current_state: CommState) -> TrickleProtocol {
        TrickleProtocol {
            interval_nanos: self.interval_nanos,
            t_nanos,
            counter: 0,
            current_state,
        }
    }

    /// The node with the shortest interval.
    pub open spec fn reset(self) -> TrickleProtocol {
        TrickleProtocol { interval_nanos: IMIN_NANOS, ..self }
    }

    /// The node after it heard a state: a newer one is taken over, an outdated
    /// one makes it speak soon, and its own is counted.
    pub open spec fn heard(self, received: CommState) -> TrickleProtocol {
        if received.newer(self.current_state) {
            TrickleProtocol { current_state: received, ..self.reset() }
        } else if self.current_state.newer(received) {
            if self.current_state.consistent(received) {
                self
            } else {
                self.reset()
            }
        } else {
            TrickleProtocol { counter: (self.counter + 1) as usize, ..self }
        }
    }

    /// The node after an event of its own.
    pub open spec fn told(self, new_state: CommState) -> TrickleProtocol {
        TrickleProtocol { current_state: new_state, ..self.reset() }
    }

    /// What hearing a state leads to.
    pub open spec fn step(self, received: CommState) -> ProtocolStep {
        if received.newer(self.current_state) {
            ProtocolStep::Adopt(received)
        } else if self.current_state.newer(received) && !self.current_state.consistent(received) {
            ProtocolStep::Restart
        } else {
            ProtocolStep::Continue
        }
    }

    /// The node when an interval is over.
    pub open spec fn doubled(self) -> TrickleProtocol {
        TrickleProtocol {
            interval_nanos: if 2 * self.interval_nanos <= IMAX_NANOS {
                (2 * self.interval_nanos) as u64
            } else {
                IMAX_NANOS
            },
            ..self
        }
    }

    /// A node that has not begun an interval.
    pub fn new(current_state: CommState) -> (node: TrickleProtocol)
        ensures
            node == (TrickleProtocol {
                interval_nanos: IMIN_NANOS,
                t_nanos: 0,
                counter: 0,
                current_state,
            }),
            node.inv(),
    {
        TrickleProtocol { interval_nanos: IMIN_NANOS, t_nanos: 0, counter: 0, current_state }
    }

    /// Begins an interval, and draws the point in its second half at which the
    /// node may send.
    pub fn begin_interval(&mut self, current_state: CommState)
        requires
            old(self).inv(),
        ensures
            *final(self) == old(self).begun(final(self).t_nanos, current_state),
            old(self).interval_nanos / 2 <= final(self).t_nanos < old(self).interval_nanos,
            final(self).inv(),
    {
        let t_nanos: u64 = random_u64(self.interval_nanos / 2, self.interval_nanos);
        self.begin_interval_at(t_nanos, current_state);
    }

    /// Begins an interval in which the node may send at `t_nanos`.
    pub fn begin_interval_at(&mut self, t_nanos: u64, current_state: CommState)
        ensures
            *final(self) == old(self).begun(t_nanos, current_state),
    {
        self.counter = 0;
        self.t_nanos = t_nanos;
        self.current_state = current_state;
    }

    /// Takes note of what a message holds.
    pub fn hear(&mut self, received: Result<CommState, DeserializeError>) -> (step: ProtocolStep)
        requires
            old(self).inv(),
            old(self).counter < usize::MAX,
        ensures
            match received {
                Ok(state) => *final(self) == old(self).heard(state) && step == old(self).step(state),
                Err(_) => *final(self) == *old(self) && step == ProtocolStep::Continue,
            },
            final(self).inv(),
    {
        match received {
            Ok(received_state) => {
                if received_state.is_newer(&self.current_state) {
                    // Received message takes precedence
                    self.current_state = received_state;
                    self.interval_nanos = IMIN_NANOS;
                    ProtocolStep::Adopt(received_state)
                } else if self.current_state.is_newer(&received_state) {
                    if !self.current_state.is_consistent(&received_state) {
                        // Received message is outdated
                        self.interval_nanos = IMIN_NANOS;
                        ProtocolStep::Restart
                    } else {
                        // Received message is consistent
                        ProtocolStep::Continue
                    }
                } else {
                    self.counter = self.counter + 1;
                    ProtocolStep::Continue
                }
            },
            Err(_) => ProtocolStep::Continue,
        }
    }

    /// Handles an incoming message.
    pub fn hear_message(&mut self, message: &[u8]) -> (step: ProtocolStep)
        requires
            old(self).inv(),
            old(self).counter < usize::MAX,
        ensures
            *final(self) == old(self).heard_message(message@),
            match frame_decoded(message@) {
                Ok(state) => step == old(self).step(state),
                Err(_) => step == ProtocolStep::Continue,
            },
            final(self).inv(),
    {
        self.hear(CommState::deserialize(message))
    }

    /// Handles an event on the node itself.
    pub fn on_event(&mut self, new_state: CommState) -> (step: ProtocolStep)
        requires
            old(self).inv(),
        ensures
            *final(self) == old(self).told(new_state),
            *final(self) == (TrickleProtocol { current_state: new_state, ..old(self).reset() }),
            final(self).interval_nanos == 10_000_000,
            final(self).current_state == new_state,
            final(self).t_nanos == old(self).t_nanos,
            final(self).counter == old(self).counter,
            step == ProtocolStep::Adopt(new_state),
            final(self).inv(),
    {
        self.current_state = new_state;
        self.interval_nanos = IMIN_NANOS;
        ProtocolStep::Adopt(new_state)
    }

    /// The messages to the north, south, east and west when the drawn point is
    /// reached, or `None` where enough was heard already.
    pub fn on_t_expiry(&self) -> (messages: Option<[Vec<u8>; 4]>)
        ensures
            messages is Some <==> self.counter < K,
            messages matches Some(m) ==> forall|i: int|
                0 <= i < 4 ==> (#[trigger] m@[i])@ == self.current_state.frame() && frame_decoded(
                    m@[i]@,
                ) == Ok::<CommState, DeserializeError>(self.current_state),
    {
        if self.counter < K {
            let states = self.current_state.propagate();
            Some(
                [
                    states[0].serialize(),
                    states[1].serialize(),
                    states[2].serialize(),
                    states[3].serialize(),
                ],
            )
        } else {
            None
        }
    }

    /// How long the interval lasts beyond the drawn point.
    pub fn rest_nanos(&self) -> (nanos: u64)
        requires
            self.t_nanos <= self.interval_nanos,
        ensures
            nanos == self.interval_nanos - self.t_nanos,
    {
        self.interval_nanos - self.t_nanos
    }

    /// Handles the end of the interval: the next one is twice as long.
    pub fn on_interval_expiry(&mut self)
        requires
            old(self).inv(),
        ensures
            *final(self) == old(self).doubled(),
            final(self).inv(),
    {
        let twice: u64 = self.interval_nanos * 2;
        if twice <= IMAX_NANOS {
            self.interval_nanos = twice;
        } else {
            self.interval_nanos = IMAX_NANOS;
        }
    }
}

/// Where in its interval a node is.
#[derive(Clone, Copy, PartialEq, Eq, Structural, Debug)]
pub enum ProtocolPhase {
    /// Before the drawn point.
    Listening,
    /// At the drawn point, with messages on their way.
    Sending,
    /// Behind the drawn point.
    Resting,
}

/// What a node waits for.
#[derive(Clone, Copy, PartialEq, Eq, Structural, Debug)]
pub enum ProtocolEvent {
    /// The time that it had to wait is over.
    Elapsed,
    /// Its messages have been sent.
    Sent,
    /// A message or an event makes another interval begin.
    Restarted,
}

/// What a node has to do next.
#[derive(Debug)]
pub enum ProtocolAction {
    /// Wait for so many nanoseconds, or until another interval has to begin.
    Wait(u64),
    /// Send these messages to the north, south, east and west.
    Send([Vec<u8>; 4]),
}

/// A node and where in its interval it is.
#[derive(Clone, Copy, PartialEq, Eq, Structural, Debug)]
pub struct ProtocolNode {
    pub protocol: TrickleProtocol,
    pub phase: ProtocolPhase,
}

impl ProtocolNode {
    /// Whether an event can come: messages are over only where some were sent,
    /// and until then nothing is waited for. Another interval can begin at any
    /// time.
    pub open spec fn expects(self, event: ProtocolEvent) -> bool {
        &&& self.protocol.inv()
        &&& match event {
            ProtocolEvent::Elapsed => !(self.phase is Sending) && self.protocol.t_nanos
                <= self.protocol.interval_nanos,
            ProtocolEvent::Sent => self.phase is Sending && self.protocol.t_nanos
                <= self.protocol.interval_nanos,
            ProtocolEvent::Restarted => true,
        }
    }

    /// Whether an interval begins with an event.
    pub open spec fn begins(self, event: ProtocolEvent) -> bool {
        event is Restarted || (event is Elapsed && self.phase is Resting)
    }

    /// The node after an event, where an interval that begins has its point at
    /// `t_nanos` and its state from `stored`.
    pub open spec fn followed(
        self,
        event: ProtocolEvent,
        stored: CommState,
        t_nanos: u64,
    ) -> ProtocolNode {
        match event {
            ProtocolEvent::Restarted => ProtocolNode {
                protocol: self.protocol.begun(t_nanos, stored),
                phase: ProtocolPhase::Listening,
            },
            ProtocolEvent::Sent => ProtocolNode { phase: ProtocolPhase::Resting, ..self },
            ProtocolEvent::Elapsed => match self.phase {
                ProtocolPhase::Listening => ProtocolNode {
                    phase: if self.protocol.counter < K {
                        ProtocolPhase::Sending
                    } else {
                        ProtocolPhase::Resting
                    },
                    ..self
                },
                ProtocolPhase::Sending => self,
                ProtocolPhase::Resting => ProtocolNode {
                    protocol: self.protocol.doubled().begun(t_nanos, stored),
                    phase: ProtocolPhase::Listening,
                },
            },
        }
    }

    /// Whether an action is what the node has to do.
    pub open spec fn calls_for(self, action: ProtocolAction) -> bool {
        match self.phase {
            ProtocolPhase::Listening => action == ProtocolAction::Wait(self.protocol.t_nanos),
            ProtocolPhase::Sending => action matches ProtocolAction::Send(m) && forall|i: int|
                0 <= i < 4 ==> (#[trigger] m@[i])@ == self.protocol.current_state.frame(),
            ProtocolPhase::Resting => action == ProtocolAction::Wait(
                (self.protocol.interval_nanos - self.protocol.t_nanos) as u64,
            ),
        }
    }

    /// A node that has not begun an interval.
    pub fn new(current_state: CommState) -> (node: ProtocolNode)
        ensures
            node.protocol == (TrickleProtocol {
                interval_nanos: IMIN_NANOS,
                t_nanos: 0,
                counter: 0,
                current_state,
            }),
            node.phase is Listening,
            node.expects(ProtocolEvent::Restarted),
    {
        ProtocolNode {
            protocol: TrickleProtocol::new(current_state),
            phase: ProtocolPhase::Listening,
        }
    }

    /// Goes on after an event: tells what to do next. The network holds
    /// `stored` for the node.
    pub fn next(&mut self, event: ProtocolEvent, stored: CommState) -> (action: ProtocolAction)
        requires
            old(self).expects(event),
        ensures
            *final(self) == old(self).followed(event, stored, final(self).protocol.t_nanos),
            final(self).calls_for(action),
            old(self).begins(event) ==> final(self).protocol.interval_nanos / 2
                <= final(self).protocol.t_nanos < final(self).protocol.interval_nanos,
            final(self).protocol.t_nanos <= final(self).protocol.interval_nanos,
            final(self).protocol.inv(),
    {
        match event {
            ProtocolEvent::Restarted => {
                self.protocol.begin_interval(stored);
                self.phase = ProtocolPhase::Listening;
                ProtocolAction::Wait(self.protocol.t_nanos)
            },
            ProtocolEvent::Sent => {
                self.phase = ProtocolPhase::Resting;
                ProtocolAction::Wait(self.protocol.rest_nanos())
            },
            ProtocolEvent::Elapsed => match self.phase {
                ProtocolPhase::Resting => {
                    self.protocol.on_interval_expiry();
                    self.protocol.begin_interval(stored);
                    self.phase = ProtocolPhase::Listening;
                    ProtocolAction::Wait(self.protocol.t_nanos)
                },
                _ => match self.protocol.on_t_expiry() {
                    Some(messages) => {
                        self.phase = ProtocolPhase::Sending;
                        ProtocolAction::Send(messages)
                    },
                    None => {
                        self.phase = ProtocolPhase::Resting;
                        ProtocolAction::Wait(self.protocol.rest_nanos())
                    },
                },
            },
        }
    }
}

/// How long it is from `now` to a deadline, or `None` where it has passed.
pub open spec fn remaining(deadline: Instant, now: Instant) -> Option<u128> {
    if deadline.nanos > now.nanos {
        Some((deadline.nanos - now.nanos) as u128)
    } else {
        None
    }
}

/// What a node with the given state comes up with when it has something new to
/// say.
pub open spec fn event_after(state: CommState) -> CommState {
    CommState { seq_num: (state.seq_num + 1) as u32, type_: CommStateType::Nop }
}

/// How long it is from `now` to a deadline, or `None` where it has passed.
pub fn remaining_nanos(deadline: Instant, now: Instant) -> (remaining_time: Option<u128>)
    ensures
        remaining_time == remaining(deadline, now),
        deadline.nanos > now.nanos ==> remaining_time == Some(
            (deadline.nanos - now.nanos) as u128,
        ),
        deadline.nanos <= now.nanos ==> remaining_time is None,
{
    if deadline.nanos > now.nanos {
        Some(deadline.nanos - now.nanos)
    } else {
        None
    }
}

/// What a node comes up with when it has something new to say.
pub fn next_event(state: &CommState) -> (event: CommState)
    requires
        state.seq_num < u32::MAX,
    ensures
        event == (CommState { seq_num: (state.seq_num + 1) as u32, type_: CommStateType::Nop }),
        event == event_after(*state),
        event.newer(*state),
{
    CommState { seq_num: state.seq_num + 1, type_: CommStateType::Nop }
}

/// Hearing never takes a node back to an older state, and what is newer than
/// its own becomes its own.
pub proof fn law_states_only_advance(node: TrickleProtocol, received: CommState)
    ensures
        !node.current_state.newer(node.heard(received).current_state),
        received.newer(node.current_state) ==> node.heard(received).current_state == received,
        !received.newer(node.heard(received).current_state),
{
}

/// Two nodes that hear each other agree: the one that is behind takes over,
/// and both then hold the newer state.
pub proof fn law_two_nodes_agree(a: TrickleProtocol, b: TrickleProtocol)
    ensures
        a.heard(b.current_state).current_state.seq_num == b.heard(
            a.current_state,
        ).current_state.seq_num,
{
}

/// A node that hears its own state keeps silent in that interval.
pub proof fn law_repetition_is_suppressed(node: TrickleProtocol)
    requires
        node.counter < usize::MAX,
    ensures
        node.heard(node.current_state).counter >= K,
        node.step(node.current_state) == ProtocolStep::Continue,
{
}

/// Left alone, a node doubles its interval until it is the longest one.
pub proof fn law_interval_grows_to_the_longest(node: TrickleProtocol)
    requires
        node.inv(),
    ensures
        node.doubled().inv(),
        node.doubled().interval_nanos == 2 * node.interval_nanos || node.doubled().interval_nanos
            == IMAX_NANOS,
        node.interval_nanos < IMAX_NANOS ==> node.doubled().interval_nanos > node.interval_nanos,
{
}

/// An interval that is not broken off runs in order: the node listens up to the
/// drawn point, sends there unless enough was heard, rests to the end, and
/// begins another interval that is twice as long, up to the longest one.
pub proof fn law_interval_runs_in_order(
    node: ProtocolNode,
    stored: CommState,
    t_nanos: u64,
    next_t_nanos: u64,
)
    requires
        node.phase is Listening,
        node.expects(ProtocolEvent::Elapsed),
    ensures
        ({
            let at_t = node.followed(ProtocolEvent::Elapsed, stored, t_nanos);
            let behind_t = if at_t.phase is Sending {
                at_t.followed(ProtocolEvent::Sent, stored, t_nanos)
            } else {
                at_t
            };
            let next = behind_t.followed(ProtocolEvent::Elapsed, stored, next_t_nanos);
            &&& at_t.phase is Sending <==> node.protocol.counter < K
            &&& at_t.phase is Sending ==> at_t.expects(ProtocolEvent::Sent)
            &&& behind_t == (ProtocolNode { phase: ProtocolPhase::Resting, ..node })
            &&& behind_t.expects(ProtocolEvent::Elapsed)
            &&& behind_t.begins(ProtocolEvent::Elapsed)
            &&& next.phase is Listening
            &&& next.protocol == node.protocol.doubled().begun(next_t_nanos, stored)
        }),
{
}

/// A message that leads nowhere leaves the node in its interval, with the same
/// point in it.
pub proof fn law_waiting_goes_on(node: ProtocolNode, received: CommState, event: ProtocolEvent)
    requires
        node.expects(event),
        node.protocol.step(received) is Continue,
    ensures
        (ProtocolNode { protocol: node.protocol.heard(received), ..node }).expects(event),
        node.protocol.heard(received).t_nanos == node.protocol.t_nanos,
        node.protocol.heard(received).interval_nanos == node.protocol.interval_nanos,
{
}

impl TrickleProtocol {
    /// The node after a message came in.
    pub open spec fn heard_message(self, message: Seq<u8>) -> TrickleProtocol {
        match frame_decoded(message) {
            Ok(state) => self.heard(state),
            Err(_) => self,
        }
    }

    /// The node after some messages came in.
    pub open spec fn heard_messages(self, messages: Seq<Seq<u8>>) -> TrickleProtocol
        decreases messages.len(),
    {
        if messages.len() == 0 {
            self
        } else {
            self.heard_messages(messages.drop_last()).heard_message(messages.last())
        }
    }
}

/// A later state is taken over and spoken of soon, the same state is counted,
/// an earlier one makes the node speak soon, and a message that cannot be read
/// has no effect.
pub proof fn law_message_is_weighed(node: TrickleProtocol, message: Seq<u8>)
    requires
        node.counter < usize::MAX,
    ensures
        match frame_decoded(message) {
            Err(_) => node.heard_message(message) == node,
            Ok(state) => {
                let after = node.heard_message(message);
                &&& state.seq_num > node.current_state.seq_num ==> after.current_state == state
                    && after.interval_nanos == IMIN_NANOS && node.step(state)
                    == ProtocolStep::Adopt(state)
                &&& state.seq_num == node.current_state.seq_num ==> after == (TrickleProtocol {
                    counter: (node.counter + 1) as usize,
                    ..node
                }) && node.step(state) is Continue
                &&& state.seq_num < node.current_state.seq_num ==> after == node.reset()
                    && node.step(state) is Restart
            },
        },
{
}

/// No messages, however many and in whatever order, lower the state of a node,
/// and it ends up with none that is behind one that it could read.
pub proof fn law_messages_never_lower_the_state(node: TrickleProtocol, messages: Seq<Seq<u8>>)
    ensures
        !node.current_state.newer(node.heard_messages(messages).current_state),
        forall|i: int|
            0 <= i < messages.len() ==> (frame_decoded(#[trigger] messages[i]) matches Ok(state)
                ==> !state.newer(node.heard_messages(messages).current_state)),
    decreases messages.len(),
{
    if messages.len() > 0 {
        let earlier = messages.drop_last();
        law_messages_never_lower_the_state(node, earlier);
        assert forall|i: int| 0 <= i < messages.len() implies (frame_decoded(
            #[trigger] messages[i],
        ) matches Ok(state) ==> !state.newer(node.heard_messages(messages).current_state)) by {
            if i < earlier.len() {
                assert(messages[i] == earlier[i]);
            }
        }
    }
}

/// However long the interval of a node has grown, an event of its own brings it
/// back to ten milliseconds, and so does a message with an earlier or a later
/// state. The event and the later state become the node's own.
pub proof fn law_news_are_spoken_of_soon(node: TrickleProtocol, other: CommState)
    ensures
        node.told(other).interval_nanos == 10_000_000,
        node.told(other).current_state == other,
        other.seq_num > node.current_state.seq_num ==> node.heard(other).interval_nanos
            == 10_000_000 && node.heard(other).current_state == other && node.step(other)
            == ProtocolStep::Adopt(other),
        other.seq_num < node.current_state.seq_num ==> node.heard(other).interval_nanos
            == 10_000_000 && node.heard(other).current_state == node.current_state && node.step(
            other,
        ) == ProtocolStep::Restart,
        other.seq_num == node.current_state.seq_num && node.counter < usize::MAX ==> node.heard(
            other,
        ).interval_nanos == node.interval_nanos && node.heard(other).counter == node.counter + 1
            && node.heard(other).current_state == node.current_state && node.step(other)
            == ProtocolStep::Continue,
        node.heard(other).t_nanos == node.t_nanos,
        node.told(other).t_nanos == node.t_nanos,
        node.told(other).counter == node.counter,
        other.seq_num != node.current_state.seq_num ==> node.heard(other).counter == node.counter,
{
}

/// A message with a state that was sent is weighed by that state, and one that
/// cannot be read is not weighed at all.
pub proof fn law_readable_messages_are_weighed(node: TrickleProtocol, message: Seq<u8>)
    ensures
        frame_decoded(message) matches Ok(state) ==> node.heard_message(message) == node.heard(
            state,
        ),
        frame_decoded(message) is Err ==> node.heard_message(message) == node,
{
}

/// Left alone, a node waits twice as long each time, and at most ten seconds. In
/// each interval it starts to count anew, with the state that it was given.
pub proof fn law_intervals_grow(node: TrickleProtocol, t_nanos: u64, stored: CommState)
    requires
        node.interval_nanos <= 10_000_000_000,
    ensures
        2 * node.interval_nanos <= 10_000_000_000 ==> node.doubled().interval_nanos == 2
            * node.interval_nanos,
        2 * node.interval_nanos > 10_000_000_000 ==> node.doubled().interval_nanos
            == 10_000_000_000,
        node.doubled() == (TrickleProtocol {
            interval_nanos: node.doubled().interval_nanos,
            ..node
        }),
        node.begun(t_nanos, stored) == (TrickleProtocol {
            interval_nanos: node.interval_nanos,
            t_nanos,
            counter: 0,
            current_state: stored,
        }),
        node.inv() <==> node.interval_nanos >= 10_000_000,
{
}

/// At the drawn point a node sends exactly if it has heard nothing that says the
/// same, and otherwise rests at once. A new interval can begin at any time.
pub proof fn law_node_sends_unless_it_heard_enough(
    node: ProtocolNode,
    stored: CommState,
    t_nanos: u64,
)
    ensures
        node.phase is Listening ==> {
            let next = node.followed(ProtocolEvent::Elapsed, stored, t_nanos);
            &&& node.protocol.counter == 0 ==> next.phase is Sending
            &&& node.protocol.counter >= 1 ==> next.phase is Resting
            &&& next.protocol == node.protocol
        },
        node.followed(ProtocolEvent::Restarted, stored, t_nanos).phase is Listening,
        node.followed(ProtocolEvent::Restarted, stored, t_nanos).protocol == (TrickleProtocol {
            interval_nanos: node.protocol.interval_nanos,
            t_nanos,
            counter: 0,
            current_state: stored,
        }),
        node.followed(ProtocolEvent::Sent, stored, t_nanos).phase is Resting,
        node.followed(ProtocolEvent::Sent, stored, t_nanos).protocol == node.protocol,
        node.protocol.inv() ==> node.expects(ProtocolEvent::Restarted),
        node.protocol.inv() && node.protocol.t_nanos <= node.protocol.interval_nanos ==> (
        node.expects(ProtocolEvent::Elapsed) <==> !(node.phase is Sending)) && (node.expects(
            ProtocolEvent::Sent,
        ) <==> node.phase is Sending),
{
}

/// What a node has to do is told by where it is: to wait for the drawn point, to
/// send its state in every direction, or to wait for the end of the interval.
pub proof fn law_phase_tells_what_to_do(node: ProtocolNode, nanos: u64)
    requires
        node.protocol.t_nanos <= node.protocol.interval_nanos,
    ensures
        node.phase is Listening ==> (node.calls_for(ProtocolAction::Wait(nanos)) <==> nanos
            == node.protocol.t_nanos),
        node.phase is Resting ==> (node.calls_for(ProtocolAction::Wait(nanos)) <==> nanos
            == node.protocol.interval_nanos - node.protocol.t_nanos),
        node.phase is Sending ==> !node.calls_for(ProtocolAction::Wait(nanos)),
        IMIN_NANOS == 10_000_000,
        IMAX_NANOS == 10_000_000_000,
        K == 1,
        EVENT_PERIOD_SECS == 3,
{
}

/// A deadline is ahead exactly until it is reached, and by as much as is left.
pub proof fn law_deadline_is_reached_in_time(deadline: Instant, now: Instant)
    ensures
        remaining(deadline, now) is Some <==> now.nanos < deadline.nanos,
        remaining(deadline, now) matches Some(nanos) ==> nanos > 0 && now.nanos + nanos
            == deadline.nanos,
{
}

/// What a node comes up with is the next state after its own: later than it, with
/// none in between, so that every node that hears of it takes it over.
pub proof fn law_event_is_news(node: TrickleProtocol)
    requires
        node.current_state.seq_num < u32::MAX,
    ensures
        event_after(node.current_state).seq_num == node.current_state.seq_num + 1,
        node.heard(event_after(node.current_state)).current_state == event_after(
            node.current_state,
        ),
        node.told(event_after(node.current_state)).current_state.seq_num
            == node.current_state.seq_num + 1,
{
}

/// An interval begins when the node is restarted and when the rest of the one
/// before is over, and at no other time. The node then listens anew: it has heard
/// nothing, holds the state that was stored, and sends at the point that was drawn.
pub proof fn law_interval_begins_anew(
    node: ProtocolNode,
    event: ProtocolEvent,
    stored: CommState,
    t_nanos: u64,
)
    ensures
        node.begins(ProtocolEvent::Restarted),
        node.begins(ProtocolEvent::Elapsed) <==> node.phase is Resting,
        !node.begins(ProtocolEvent::Sent),
        node.begins(event) ==> {
            let next = node.followed(event, stored, t_nanos);
            &&& next.phase is Listening
            &&& next.protocol.counter == 0
            &&& next.protocol.t_nanos == t_nanos
            &&& next.protocol.current_state == stored
        },
        !node.begins(event) ==> node.followed(event, stored, t_nanos).protocol == node.protocol,
{
}

} // verus!
