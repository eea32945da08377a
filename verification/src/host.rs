//! The end of a network that sits on a computer: it takes part in the network
//! like a node, but leaves it to its user what to make of news.

use vstd::prelude::*;

use crate::packet::packet_decoded;
use crate::proto::{CommState, StateModel, TypeModel};
use crate::time::Instant;
use crate::trickle::{
    draw_units, TrickleModel, TrickleOrd, TrickleOrdering, TrickleParams, TricklePollResult,
    TrickleState,
};

verus! {

/// What became of a frame.
#[derive(Debug)]
pub enum Heard {
    /// It does not hold a packet.
    Ignored,
    /// No more states can be counted, or the timer cannot restart.
    Refused,
    /// The state in it is no news. The sender has to be woken.
    Noted,
    /// The state in it is newer than ours. The sender has to be woken.
    Newer(CommState),
}

/// What the sender has to do.
#[derive(Debug)]
pub enum HostTransmission {
    /// Wait for so many microseconds, or until it is woken.
    Wait(u64),
    /// Send these bytes.
    Send(Vec<u8>),
}

/// The state of a host.
pub struct Host<'a> {
    comm_state: CommState,
    trickle_state: TrickleState<'a>,
}

/// What a host holds.
pub struct HostModel {
    pub comm_state: StateModel,
    pub trickle_state: TrickleModel,
}

impl<'a> View for Host<'a> {
    type V = HostModel;

    closed spec fn view(&self) -> HostModel {
        HostModel { comm_state: self.comm_state@, trickle_state: self.trickle_state@ }
    }
}

impl HostModel {
    /// Whether a state can be taken note of at `now`.
    pub open spec fn can_hear(self, heard: StateModel, now: Instant) -> bool {
        match self.comm_state.considered(heard) {
            TrickleOrdering::Greater => true,
            TrickleOrdering::Consistent => self.trickle_state.counter < u32::MAX,
            TrickleOrdering::Less => self.trickle_state.reset().can_begin(now),
        }
    }

    /// The host after it heard a state: what is consistent with its own is
    /// counted, what is outdated makes the timer start anew, and what is newer
    /// changes nothing here.
    pub open spec fn heard(self, heard: StateModel, now: Instant) -> HostModel {
        HostModel {
            trickle_state: match self.comm_state.considered(heard) {
                TrickleOrdering::Greater => self.trickle_state,
                TrickleOrdering::Consistent => TrickleModel {
                    counter: (self.trickle_state.counter + 1) as u32,
                    ..self.trickle_state
                },
                TrickleOrdering::Less => self.trickle_state.reset().begun(now),
            },
            ..self
        }
    }

    /// The host after a frame came in: one that holds no packet, and one whose
    /// state cannot be taken note of, change nothing.
    pub open spec fn heard_frame(self, frame: Seq<u8>, now: Instant) -> HostModel {
        match packet_decoded(frame) {
            Ok(heard) => if frame.len() > 1 && self.can_hear(heard, now) {
                self.heard(heard, now)
            } else {
                self
            },
            Err(_) => self,
        }
    }

    /// Whether the sender sends when it is polled at `now`.
    pub open spec fn sends(self, now: Instant) -> bool {
        self.trickle_state.poll_result(now) is Send
    }

    /// The host when the sender was polled at `now`.
    pub open spec fn transmitted(self, now: Instant) -> HostModel {
        HostModel {
            comm_state: if self.sends(now) {
                self.comm_state.updated(now)
            } else {
                self.comm_state
            },
            trickle_state: self.trickle_state.polled(now),
        }
    }

    /// The host with another state, which it begins to spread at `now`.
    pub open spec fn holding(self, state: StateModel, now: Instant) -> HostModel {
        HostModel { comm_state: state, trickle_state: self.trickle_state.reset().begun(now) }
    }
}

impl<'a> Host<'a> {
    /// A host that holds the initial state.
    pub fn new(params: &'a TrickleParams, now: Instant, rng_seed: u64) -> (host: Self)
        requires
            draw_units(params.i_min_micros) >= 1,
            now.can_add(params.i_min_micros as int),
        ensures
            host@.comm_state == (StateModel { seq_num: 0, type_: TypeModel::Init }),
            host@.trickle_state == (TrickleModel {
                params: *params,
                rng: crate::rng::rand32_seeded(rng_seed),
                interval_micros: params.i_min_micros,
                counter: 0,
                t_expiry: now,
                interval_expiry: now,
                after_t: false,
            }).begun(now),
    {
        Host {
            comm_state: CommState::default(),
            trickle_state: TrickleState::new(params, now, rng_seed),
        }
    }

    /// The state that is held.
    pub fn comm_state(&self) -> (state: &CommState)
        ensures
            state@ == self@.comm_state,
    {
        &self.comm_state
    }

    /// Whether another state can be held from `now` on.
    pub fn can_hold(&self, now: Instant) -> (can_hold: bool)
        ensures
            can_hold == self@.trickle_state.reset().can_begin(now),
    {
        self.trickle_state.can_restart(now)
    }

    /// Whether a state can be taken note of at `now`.
    pub fn can_hear(&self, heard: &CommState, now: Instant) -> (can_hear: bool)
        ensures
            can_hear == self@.can_hear(heard@, now),
    {
        match self.comm_state.consider(heard) {
            TrickleOrdering::Greater => true,
            TrickleOrdering::Consistent => self.trickle_state.can_count(),
            TrickleOrdering::Less => self.trickle_state.can_restart(now),
        }
    }

    /// Takes note of a state that was heard, and hands it back if it is newer
    /// than ours. The sender has to be woken.
    pub fn hear(&mut self, heard: CommState, now: Instant) -> (newer: Option<CommState>)
        requires
            old(self)@.can_hear(heard@, now),
        ensures
            final(self)@ == old(self)@.heard(heard@, now),
            newer is Some <==> old(self)@.comm_state.adopts(heard@),
            newer matches Some(state) ==> state@ == heard@,
    {
        match self.comm_state.consider(&heard) {
            TrickleOrdering::Greater => {
                // Receiving a newer state generally means that we should assume it.
                // But sometimes we want to alter or react to it.
                Some(heard)
            },
            TrickleOrdering::Consistent => {
                self.trickle_state.got_consistent_state();
                None
            },
            TrickleOrdering::Less => {
                self.trickle_state.got_outdated_state(now);
                None
            },
        }
    }

    /// Takes note of the state in what was read up to a zero, that zero
    /// included. A lone zero is not looked at. The buffer is used up.
    pub fn hear_frame(&mut self, frame: &mut [u8], now: Instant) -> (result: Heard)
        ensures
            final(self)@ == old(self)@.heard_frame(old(frame)@, now),
            old(frame)@.len() <= 1 ==> result is Ignored && final(self)@ == old(self)@,
            old(frame)@.len() > 1 ==> match packet_decoded(old(frame)@) {
                Err(_) => result is Ignored && final(self)@ == old(self)@,
                Ok(heard) => if !old(self)@.can_hear(heard, now) {
                    result is Refused && final(self)@ == old(self)@
                } else {
                    &&& final(self)@ == old(self)@.heard(heard, now)
                    &&& if old(self)@.comm_state.adopts(heard) {
                        result matches Heard::Newer(state) && state@ == heard
                    } else {
                        result is Noted
                    }
                },
            },
    {
        if frame.len() <= 1 {
            return Heard::Ignored;
        }
        match CommState::try_deserialize_packet(frame) {
            Err(_) => Heard::Ignored,
            Ok(heard) => if self.can_hear(&heard, now) {
                match self.hear(heard, now) {
                    Some(state) => Heard::Newer(state),
                    None => Heard::Noted,
                }
            } else {
                Heard::Refused
            },
        }
    }

    /// Holds another state, and begins to spread it at `now`. The sender has
    /// to be woken.
    pub fn hold(&mut self, state: CommState, now: Instant)
        requires
            old(self)@.trickle_state.reset().can_begin(now),
        ensures
            final(self)@ == old(self)@.holding(state@, now),
    {
        self.comm_state = state;
        self.trickle_state.got_new_state(now);
    }

    /// Whether the sender can be polled at `now`.
    pub fn can_transmit(&self, now: Instant) -> (can_transmit: bool)
        ensures
            can_transmit == (self@.trickle_state.can_poll(now) && self@.comm_state.can_update(now)),
    {
        self.trickle_state.can_poll(now) && self.comm_state.fits(now)
    }

    /// Polls the sender: the state is brought up to `now` and sent when the
    /// timer asks for it.
    pub fn transmit(&mut self, now: Instant) -> (transmission: HostTransmission)
        requires
            old(self)@.trickle_state.can_poll(now),
            old(self)@.trickle_state.poll_result(now) is Send ==> old(self)@.comm_state.can_update(
                now,
            ),
        ensures
            final(self)@ == old(self)@.transmitted(now),
            transmission is Send <==> old(self)@.sends(now),
            final(self)@.trickle_state == old(self)@.trickle_state.polled(now),
            match old(self)@.trickle_state.poll_result(now) {
                TricklePollResult::Wait(micros) => {
                    &&& transmission == HostTransmission::Wait(micros)
                    &&& final(self)@.comm_state == old(self)@.comm_state
                },
                TricklePollResult::Send => {
                    &&& transmission matches HostTransmission::Send(sent) && sent@ == old(
                        self,
                    )@.comm_state.updated(now).transmission()
                    &&& final(self)@.comm_state == old(self)@.comm_state.updated(now)
                },
            },
    {
        match self.trickle_state.poll(now) {
            TricklePollResult::Wait(timeout_micros) => HostTransmission::Wait(timeout_micros),
            TricklePollResult::Send => {
                self.comm_state.update(now);
                HostTransmission::Send(self.comm_state.transmission())
            },
        }
    }
}

/// What a host hears leaves its state alone. News change nothing at all, what
/// agrees is counted, and what is out of date begins the shortest interval at
/// once, whatever interval the host had come to.
pub proof fn law_host_takes_note(m: HostModel, heard: StateModel, now: Instant)
    requires
        now.nanos + 1000 * m.trickle_state.params.i_min_micros <= u128::MAX,
        m.trickle_state.counter < u32::MAX,
    ensures
        m.heard(heard, now).comm_state == m.comm_state,
        m.comm_state.adopts(heard) ==> m.heard(heard, now) == m && m.can_hear(heard, now),
        m.comm_state.considered(heard) is Consistent ==> m.can_hear(heard, now) && m.heard(
            heard,
            now,
        ).trickle_state == (TrickleModel {
            counter: (m.trickle_state.counter + 1) as u32,
            ..m.trickle_state
        }),
        m.comm_state.considered(heard) is Less ==> {
            let timer = m.heard(heard, now).trickle_state;
            &&& timer.params == m.trickle_state.params
            &&& timer.interval_micros == m.trickle_state.params.i_min_micros
            &&& timer.interval_expiry.nanos == now.nanos + 1000
                * m.trickle_state.params.i_min_micros
            &&& timer.counter == 0
            &&& !timer.after_t
        },
        1024 <= m.trickle_state.params.i_min_micros < 0x400_0000_0000 ==> m.can_hear(heard, now),
{
}

/// A state that the host is given to hold is held as it is, and spread from the
/// shortest interval on, whatever interval the host had come to.
pub proof fn law_host_spreads_what_it_holds(m: HostModel, state: StateModel, now: Instant)
    requires
        now.nanos + 1000 * m.trickle_state.params.i_min_micros <= u128::MAX,
    ensures
        m.holding(state, now).comm_state == state,
        m.holding(state, now).trickle_state.params == m.trickle_state.params,
        m.holding(state, now).trickle_state.interval_micros == m.trickle_state.params.i_min_micros,
        m.holding(state, now).trickle_state.interval_expiry.nanos == now.nanos + 1000
            * m.trickle_state.params.i_min_micros,
        m.holding(state, now).trickle_state.counter == 0,
        !m.holding(state, now).trickle_state.after_t,
{
}

/// No frame changes the state that a host holds. Frames that cannot be read, and
/// lone zeros, change nothing at all.
pub proof fn law_frames_leave_the_state_alone(m: HostModel, frame: Seq<u8>, now: Instant)
    ensures
        m.heard_frame(frame, now).comm_state == m.comm_state,
        packet_decoded(frame) is Err || frame.len() <= 1 ==> m.heard_frame(frame, now) == m,
        packet_decoded(frame) matches Ok(heard) ==> (heard.seq_num < m.comm_state.seq_num
            && frame.len() > 1 && m.can_hear(heard, now) ==> m.heard_frame(
            frame,
            now,
        ).trickle_state.interval_expiry.nanos == now.nanos + 1000
            * m.trickle_state.params.i_min_micros),
{
}

/// A host sends at the first poll behind its send point unless it has heard `k`
/// states that agree, and what it sends is the state that it holds.
pub proof fn law_host_sends_what_it_holds(m: HostModel, now: Instant)
    ensures
        m.sends(now) <==> !m.trickle_state.after_t && now.nanos >= m.trickle_state.t_expiry.nanos
            && m.trickle_state.counter < m.trickle_state.params.k,
        m.transmitted(now).comm_state.seq_num == m.comm_state.seq_num,
        !m.sends(now) ==> m.transmitted(now).comm_state == m.comm_state,
        !(m.comm_state.type_ is BlBroadcastPing) ==> m.transmitted(now).comm_state == m.comm_state,
        m.transmitted(now).trickle_state == m.trickle_state.polled(now),
{
}

} // verus!
