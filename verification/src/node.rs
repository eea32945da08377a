//! A node that runs its application and only passes on what it hears.

use vstd::prelude::*;

use crate::host::{Host, HostModel, HostTransmission};
use crate::packet::{app_packet_decoded, app_payload_decoded, payload_decoded};
use crate::proto::{CommState, CommType, StateModel, TypeModel};
use crate::time::Instant;
use crate::trickle::{
    draw_units, TrickleModel, TrickleOrd, TrickleOrdering, TrickleParams, TricklePollResult,
};
use crate::wire::PacketError;

verus! {

/// The trickle parameters of an application.
pub fn app_trickle_params() -> (params: TrickleParams)
    ensures
        params.i_min_micros == 100_000,
        params.i_max_micros == 10_000_000,
        params.k == 1,
        params.valid(),
{
    TrickleParams { i_min_micros: 100_000, i_max_micros: 10_000_000, k: 1 }
}

/// What became of a frame.
#[derive(Clone, Copy, PartialEq, Eq, Structural, Debug)]
pub enum AppReception {
    /// It does not hold a packet.
    Ignored,
    /// No more states can be counted, or the timer cannot restart.
    Refused,
    /// The state in it was taken note of.
    Heard {
        /// Whether the sender has to be woken.
        wake: bool,
    },
}

/// What the sender has to do.
#[derive(Debug)]
pub enum AppTransmission {
    /// Wait for so many microseconds, or until it is woken.
    Wait(u64),
    /// Send these bytes to the north, south, east and west.
    Send([Vec<u8>; 4]),
}

/// The state of a node.
pub struct AppNode<'a> {
    host: Host<'a>,
}

impl<'a> View for AppNode<'a> {
    type V = HostModel;

    closed spec fn view(&self) -> HostModel {
        self.host@
    }
}

impl StateModel {
    /// The state as an application understands it: it knows nothing of what
    /// bootloaders talk about.
    pub open spec fn for_app(self) -> StateModel {
        StateModel {
            seq_num: self.seq_num,
            type_: if self.type_.is_bl() {
                TypeModel::BlUnknown
            } else {
                self.type_
            },
        }
    }
}

impl CommState {
    /// The state as an application understands it.
    pub fn for_app(self) -> (state: CommState)
        ensures
            state@ == self@.for_app(),
    {
        if self.type_.is_bl() {
            CommState { seq_num: self.seq_num, type_: CommType::BlUnknown }
        } else {
            self
        }
    }
}

impl HostModel {
    /// Whether a node can take note of a state at `now`.
    pub open spec fn can_pass_on(self, heard: StateModel, now: Instant) -> bool {
        match self.comm_state.considered(heard.for_app()) {
            TrickleOrdering::Consistent => self.trickle_state.counter < u32::MAX,
            _ => self.trickle_state.reset().can_begin(now),
        }
    }

    /// The node after a frame came in: one that holds no packet, and one whose
    /// state cannot be taken note of, change nothing.
    pub open spec fn passed_frame_on(self, frame: Seq<u8>, now: Instant) -> HostModel {
        match app_packet_decoded(frame) {
            Ok(heard) => if self.can_pass_on(heard, now) {
                self.passed_on(heard, now)
            } else {
                self
            },
            Err(_) => self,
        }
    }

    /// The node after it heard a state, which it passes on from `now` on if it
    /// is newer than its own.
    pub open spec fn passed_on(self, heard: StateModel, now: Instant) -> HostModel {
        if self.comm_state.adopts(heard.for_app()) {
            self.holding(heard.for_app(), now)
        } else {
            self.heard(heard.for_app(), now)
        }
    }
}

impl<'a> AppNode<'a> {
    /// A node that holds the initial state.
    pub fn new(params: &'a TrickleParams, now: Instant, rng_seed: u64) -> (node: Self)
        requires
            draw_units(params.i_min_micros) >= 1,
            now.can_add(params.i_min_micros as int),
        ensures
            node@.comm_state == (StateModel { seq_num: 0, type_: TypeModel::Init }),
            node@.trickle_state == (TrickleModel {
                params: *params,
                rng: crate::rng::rand32_seeded(rng_seed),
                interval_micros: params.i_min_micros,
                counter: 0,
                t_expiry: now,
                interval_expiry: now,
                after_t: false,
            }).begun(now),
    {
        AppNode { host: Host::new(params, now, rng_seed) }
    }

    /// Whether a state can be taken note of at `now`.
    pub fn can_receive(&self, heard: &CommState, now: Instant) -> (can_receive: bool)
        ensures
            can_receive == self@.can_pass_on(heard@, now),
    {
        let state = heard.clone().for_app();
        match self.host.comm_state().consider(&state) {
            TrickleOrdering::Consistent => self.host.can_hear(&state, now),
            _ => self.host.can_hold(now),
        }
    }

    /// Takes note of a state that was heard. Tells whether the sender has to
    /// be woken.
    pub fn receive(&mut self, heard: CommState, now: Instant) -> (wake: bool)
        requires
            old(self)@.can_pass_on(heard@, now),
        ensures
            final(self)@ == old(self)@.passed_on(heard@, now),
            wake == !(old(self)@.comm_state.considered(heard@.for_app()) is Consistent),
    {
        let state = heard.for_app();
        let wake = match self.host.comm_state().consider(&state) {
            TrickleOrdering::Consistent => false,
            _ => true,
        };
        match self.host.hear(state, now) {
            Some(newer) => {
                self.host.hold(newer, now);
            },
            None => {},
        }
        wake
    }

    /// Takes note of the state in a frame, if there is one. The buffer is used up.
    pub fn receive_frame(&mut self, frame: &mut [u8], now: Instant) -> (reception: AppReception)
        ensures
            final(self)@ == old(self)@.passed_frame_on(old(frame)@, now),
            match app_packet_decoded(old(frame)@) {
                Err(_) => reception is Ignored && final(self)@ == old(self)@,
                Ok(heard) => if old(self)@.can_pass_on(heard, now) {
                    &&& reception == (AppReception::Heard {
                        wake: !(old(self)@.comm_state.considered(heard.for_app()) is Consistent),
                    })
                    &&& final(self)@ == old(self)@.passed_on(heard, now)
                } else {
                    reception is Refused && final(self)@ == old(self)@
                },
            },
    {
        match CommState::try_deserialize_app_packet(frame) {
            Err(_) => AppReception::Ignored,
            Ok(heard) => if self.can_receive(&heard, now) {
                AppReception::Heard { wake: self.receive(heard, now) }
            } else {
                AppReception::Refused
            },
        }
    }

    /// Whether the sender can be polled at `now`.
    pub fn can_transmit(&self, now: Instant) -> (can_transmit: bool)
        ensures
            can_transmit == (self@.trickle_state.can_poll(now) && self@.comm_state.can_update(now)),
    {
        self.host.can_transmit(now)
    }

    /// Polls the sender: the state is sent in every direction when the timer
    /// asks for it.
    pub fn transmit(&mut self, now: Instant) -> (transmission: AppTransmission)
        requires
            old(self)@.trickle_state.can_poll(now),
            old(self)@.trickle_state.poll_result(now) is Send ==> old(self)@.comm_state.can_update(
                now,
            ),
        ensures
            final(self)@ == old(self)@.transmitted(now),
            transmission is Send <==> old(self)@.sends(now),
            final(self)@.trickle_state == old(self)@.trickle_state.polled(now),
            match old(self)@.trickle_state.poll_result(now) {
                TricklePollResult::Wait(micros) => {
                    &&& transmission == AppTransmission::Wait(micros)
                    &&& final(self)@.comm_state == old(self)@.comm_state
                },
                TricklePollResult::Send => {
                    &&& transmission matches AppTransmission::Send(sent) && forall|i: int|
                        0 <= i < 4 ==> (#[trigger] sent@[i])@ == old(self)@.comm_state.updated(
                            now,
                        ).transmission()
                    &&& final(self)@.comm_state == old(self)@.comm_state.updated(now)
                },
            },
    {
        match self.host.transmit(now) {
            HostTransmission::Wait(micros) => AppTransmission::Wait(micros),
            HostTransmission::Send(_) => {
                let propagated = self.host.comm_state().propagate();
                AppTransmission::Send(
                    [
                        propagated[0].transmission(),
                        propagated[1].transmission(),
                        propagated[2].transmission(),
                        propagated[3].transmission(),
                    ],
                )
            },
        }
    }
}

/// A node that heard a state holds one that is no older, and speaks soon
/// unless it heard nothing new.
pub proof fn law_news_are_passed_on(m: HostModel, heard: StateModel, now: Instant)
    ensures
        m.comm_state.adopts(heard.for_app()) ==> m.passed_on(heard, now).comm_state
            == heard.for_app(),
        !m.comm_state.adopts(heard.for_app()) ==> m.passed_on(heard, now).comm_state
            == m.comm_state,
        !(m.comm_state.considered(heard.for_app()) is Consistent) ==> m.passed_on(
            heard,
            now,
        ).trickle_state == m.trickle_state.reset().begun(now),
{
}

/// An application reads of a payload what there is for it in what a bootloader
/// reads of it.
pub proof fn law_app_reads_its_part(s: Seq<u8>)
    ensures
        payload_decoded(s) matches Ok(state) ==> app_payload_decoded(s) == Ok::<
            StateModel,
            PacketError,
        >(state.for_app()),
{
}

/// An application takes its own states as they are, and knows of those of
/// bootloaders only that they are there.
pub proof fn law_app_knows_its_own(heard: StateModel)
    ensures
        heard.for_app().seq_num == heard.seq_num,
        heard.type_ is Init || heard.type_ is Unknown ==> heard.for_app() == heard,
        !(heard.type_ is Init) && !(heard.type_ is Unknown) ==> heard.for_app().type_ is BlUnknown,
{
}

/// A node passes a later state on from the shortest interval on, keeps to its
/// own against an earlier one and repeats it as soon, and only counts what
/// agrees, whatever interval it had come to.
pub proof fn law_later_states_are_passed_on(m: HostModel, heard: StateModel, now: Instant)
    requires
        now.nanos + 1000 * m.trickle_state.params.i_min_micros <= u128::MAX,
        m.trickle_state.counter < u32::MAX,
    ensures
        heard.seq_num > m.comm_state.seq_num ==> m.passed_on(heard, now).comm_state.seq_num
            == heard.seq_num,
        heard.seq_num > m.comm_state.seq_num && (heard.type_ is Init || heard.type_ is Unknown)
            ==> m.passed_on(heard, now).comm_state == heard,
        heard.seq_num > m.comm_state.seq_num && !(heard.type_ is Init) && !(heard.type_ is Unknown)
            ==> m.passed_on(heard, now).comm_state.type_ is BlUnknown,
        heard.seq_num < m.comm_state.seq_num ==> m.passed_on(heard, now).comm_state
            == m.comm_state,
        heard.seq_num != m.comm_state.seq_num ==> {
            let timer = m.passed_on(heard, now).trickle_state;
            &&& timer.params == m.trickle_state.params
            &&& timer.interval_micros == m.trickle_state.params.i_min_micros
            &&& timer.interval_expiry.nanos == now.nanos + 1000
                * m.trickle_state.params.i_min_micros
            &&& timer.counter == 0
            &&& !timer.after_t
        },
        heard.for_app() == m.comm_state ==> m.passed_on(heard, now)
            == (HostModel {
            trickle_state: TrickleModel {
                counter: (m.trickle_state.counter + 1) as u32,
                ..m.trickle_state
            },
            ..m
        }),
        1024 <= m.trickle_state.params.i_min_micros < 0x400_0000_0000 ==> m.can_pass_on(heard, now),
{
}

/// Frames that cannot be read change nothing, no frame takes a node back to an
/// earlier sequence number, and a later one is passed on by any node that can.
pub proof fn law_frames_only_bring_news(m: HostModel, frame: Seq<u8>, now: Instant)
    ensures
        app_packet_decoded(frame) is Err ==> m.passed_frame_on(frame, now) == m,
        m.passed_frame_on(frame, now).comm_state.seq_num >= m.comm_state.seq_num,
        app_packet_decoded(frame) matches Ok(heard) ==> (m.can_pass_on(heard, now) && heard.seq_num
            > m.comm_state.seq_num ==> m.passed_frame_on(frame, now).comm_state.seq_num
            == heard.seq_num),
        app_packet_decoded(frame) matches Ok(heard) ==> (heard.seq_num < m.comm_state.seq_num
            ==> m.passed_frame_on(frame, now).comm_state == m.comm_state),
{
}

} // verus!
