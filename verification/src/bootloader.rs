//! The bootloader of a node: it takes part in the network, writes the program
//! that it hears to flash, and hands over to it.

use vstd::prelude::*;

use crate::chunk::Chunk;
use crate::packet::packet_decoded;
use crate::proto::{
    progress_state, BlCodeProgress, CommState, CommType, PingModel, StateModel, TypeModel,
};
use crate::time::Instant;
use crate::trickle::{
    draw_units, TrickleModel, TrickleOrd, TrickleOrdering, TrickleParams, TricklePollResult,
    TrickleState,
};

verus! {

/// How long the bootloader listens before it hands over to the program.
pub const BOOT_DELAY_MILLIS: u64 = 500;

/// Where in flash the program begins.
pub const APP_ADDRESS: u32 = 0x0800_8000;

/// The bytes of a flash page, which is what one chunk fills.
pub const PAGE_SIZE: u32 = 256;

/// What the bootloader is in the middle of.
#[derive(Clone, Copy, PartialEq, Eq, Structural, Debug)]
pub enum BlState {
    Init,
    /// The sequence number of the ping that was last marked.
    Ping(u64),
    /// How many chunks have been written.
    CodeWrite(u32),
}

/// What is left to do for a received state.
#[derive(Debug)]
pub enum BlAction {
    Nothing,
    /// Reboot into the program.
    BranchToApp,
    /// Write a page of flash.
    WritePage { address: u32, data: Chunk },
}

/// What a `BlAction` holds.
pub enum ActionModel {
    Nothing,
    BranchToApp,
    WritePage { address: u32, data: Seq<u8> },
}

impl View for BlAction {
    type V = ActionModel;

    open spec fn view(&self) -> ActionModel {
        match *self {
            BlAction::Nothing => ActionModel::Nothing,
            BlAction::BranchToApp => ActionModel::BranchToApp,
            BlAction::WritePage { address, data } => ActionModel::WritePage { address, data: data@ },
        }
    }
}

/// What became of a frame.
#[derive(Debug)]
pub enum Reception {
    /// It does not hold a packet.
    Ignored,
    /// The state in it is out of range.
    Refused,
    /// The state in it was taken note of. The sender has to be woken.
    Heard(BlAction),
}

/// What the sender has to do.
#[derive(Debug)]
pub enum Transmission {
    /// Wait for so many microseconds, or until it is woken.
    Wait(u64),
    /// Send these bytes to the north, south, east and west.
    Send([Vec<u8>; 4]),
}

/// The state of a bootloader.
pub struct Bootloader<'a> {
    comm_state: CommState,
    trickle_state: TrickleState<'a>,
    did_receive_packet: bool,
    bl_state: BlState,
}

/// What a bootloader holds.
pub struct BlModel {
    pub comm_state: StateModel,
    pub trickle_state: TrickleModel,
    pub did_receive_packet: bool,
    pub bl_state: BlState,
}

impl<'a> View for Bootloader<'a> {
    type V = BlModel;

    closed spec fn view(&self) -> BlModel {
        BlModel {
            comm_state: self.comm_state@,
            trickle_state: self.trickle_state@,
            did_receive_packet: self.did_receive_packet,
            bl_state: self.bl_state,
        }
    }
}

impl StateModel {
    /// The state as a bootloader understands it: it knows nothing of the
    /// states of an application.
    pub open spec fn for_bootloader(self) -> StateModel {
        StateModel {
            seq_num: self.seq_num,
            type_: if self.type_.is_bl() {
                self.type_
            } else {
                TypeModel::Unknown
            },
        }
    }
}

impl CommState {
    /// The state as a bootloader understands it.
    pub fn for_bootloader(self) -> (state: CommState)
        ensures
            state@ == self@.for_bootloader(),
    {
        if self.type_.is_bl() {
            self
        } else {
            CommState { seq_num: self.seq_num, type_: CommType::Unknown }
        }
    }
}

impl BlModel {
    /// How many chunks of the program have been written.
    pub open spec fn pages(self) -> u32 {
        match self.bl_state {
            BlState::CodeWrite(chunk_count) => chunk_count,
            _ => 0,
        }
    }

    /// Whether a state carries the chunk that is to be written next.
    pub open spec fn is_next_chunk(self, heard: StateModel) -> bool {
        heard.type_ matches TypeModel::BlCodeWrite(write) && write.chunk_index == self.pages()
    }

    /// Whether a state can be taken note of at `now`: the timer can restart,
    /// or count one more state that agrees, an age that is taken over fits its
    /// field, and the address of a chunk that is written exists.
    pub open spec fn can_receive(self, heard: StateModel, now: Instant) -> bool {
        let state = heard.for_bootloader();
        match self.comm_state.considered(state) {
            TrickleOrdering::Greater => state.type_ is Unknown || {
                &&& self.trickle_state.reset().can_begin(now)
                &&& state.can_update(now)
                &&& self.is_next_chunk(state) ==> APP_ADDRESS + PAGE_SIZE * self.pages() <= u32::MAX
            },
            TrickleOrdering::Consistent => self.trickle_state.counter < u32::MAX,
            TrickleOrdering::Less => self.trickle_state.reset().can_begin(now),
        }
    }

    /// The state that is held once `state` was taken over: a ping that was not
    /// seen before is marked with its age, and a report of progress is lowered
    /// to the chunks that were written here.
    pub open spec fn marked(self, state: StateModel) -> StateModel {
        StateModel {
            seq_num: state.seq_num,
            type_: match state.type_ {
                TypeModel::BlBroadcastPing(ping) => TypeModel::BlBroadcastPing(
                    if self.bl_state == BlState::Ping(state.seq_num) {
                        ping
                    } else {
                        PingModel { latency_micros: ping.age_micros.age_micros, ..ping }
                    },
                ),
                TypeModel::BlCodeProgress(progress) => TypeModel::BlCodeProgress(
                    BlCodeProgress {
                        chunk_count: if progress.chunk_count <= self.pages() {
                            progress.chunk_count
                        } else {
                            self.pages()
                        },
                        ..progress
                    },
                ),
                other => other,
            },
        }
    }

    /// What the bootloader is in the middle of once `state` was taken over.
    pub open spec fn next_bl_state(self, state: StateModel) -> BlState {
        match state.type_ {
            TypeModel::BlInit => BlState::Init,
            TypeModel::BlBroadcastPing(_) => BlState::Ping(state.seq_num),
            TypeModel::BlCodeWrite(_) => BlState::CodeWrite(
                if self.is_next_chunk(state) {
                    (self.pages() + 1) as u32
                } else {
                    self.pages()
                },
            ),
            TypeModel::BlCodeProgress(_) => BlState::CodeWrite(self.pages()),
            _ => self.bl_state,
        }
    }

    /// The bootloader after it heard a state: a newer one is taken over, one
    /// that agrees is counted, and any other makes the timer start anew. With
    /// a state of the application it comes to its end.
    pub open spec fn received(self, heard: StateModel, now: Instant) -> BlModel {
        let state = heard.for_bootloader();
        let restarted = self.trickle_state.reset().begun(now);
        if self.comm_state.considered(state) is Consistent {
            BlModel {
                trickle_state: TrickleModel {
                    counter: (self.trickle_state.counter + 1) as u32,
                    ..self.trickle_state
                },
                ..self
            }
        } else if self.comm_state.considered(state) is Less {
            BlModel { trickle_state: restarted, ..self }
        } else if state.type_ is Unknown {
            BlModel { comm_state: state, ..self }
        } else {
            BlModel {
                comm_state: self.marked(state.updated(now)),
                trickle_state: restarted,
                did_receive_packet: true,
                bl_state: self.next_bl_state(state),
            }
        }
    }

    /// The bootloader after a frame came in: one that holds no packet, and one
    /// whose state is out of range, change nothing.
    pub open spec fn heard_frame(self, frame: Seq<u8>, now: Instant) -> BlModel {
        match packet_decoded(frame) {
            Ok(heard) => if self.can_receive(heard, now) {
                self.received(heard, now)
            } else {
                self
            },
            Err(_) => self,
        }
    }

    /// Whether the sender sends when it is polled at `now`.
    pub open spec fn sends(self, now: Instant) -> bool {
        self.trickle_state.poll_result(now) is Send
    }

    /// The bootloader when the sender was polled at `now`.
    pub open spec fn transmitted(self, now: Instant) -> BlModel {
        BlModel {
            comm_state: if self.sends(now) {
                self.comm_state.updated(now)
            } else {
                self.comm_state
            },
            trickle_state: self.trickle_state.polled(now),
            ..self
        }
    }

    /// What is left to do after a state was heard.
    pub open spec fn action(self, heard: StateModel) -> ActionModel {
        let state = heard.for_bootloader();
        if !self.comm_state.adopts(state) {
            ActionModel::Nothing
        } else {
            match state.type_ {
                TypeModel::Unknown => ActionModel::BranchToApp,
                TypeModel::BlCodeWrite(write) => if self.is_next_chunk(state) {
                    ActionModel::WritePage {
                        address: (APP_ADDRESS + PAGE_SIZE * write.chunk_index) as u32,
                        data: write.chunk_data,
                    }
                } else {
                    ActionModel::Nothing
                },
                _ => ActionModel::Nothing,
            }
        }
    }
}

impl<'a> Bootloader<'a> {
    /// A bootloader that has just started.
    pub fn new(params: &'a TrickleParams, now: Instant, rng_seed: u64) -> (bootloader: Self)
        requires
            draw_units(params.i_min_micros) >= 1,
            now.can_add(params.i_min_micros as int),
        ensures
            bootloader@.comm_state == (StateModel { seq_num: 0, type_: TypeModel::BlInit }),
            bootloader@.trickle_state == (TrickleModel {
                params: *params,
                rng: crate::rng::rand32_seeded(rng_seed),
                interval_micros: params.i_min_micros,
                counter: 0,
                t_expiry: now,
                interval_expiry: now,
                after_t: false,
            }).begun(now),
            !bootloader@.did_receive_packet,
            bootloader@.bl_state == BlState::Init,
    {
        Bootloader {
            comm_state: CommState { seq_num: 0, type_: CommType::BlInit },
            trickle_state: TrickleState::new(params, now, rng_seed),
            did_receive_packet: false,
            bl_state: BlState::Init,
        }
    }

    /// Whether to hand over to the program once `BOOT_DELAY_MILLIS` have
    /// passed: no news was heard from other bootloaders.
    pub fn should_branch_to_app(&self) -> (should_branch: bool)
        ensures
            should_branch == !self@.did_receive_packet,
    {
        !self.did_receive_packet
    }

    fn pages(&self) -> (pages: u32)
        ensures
            pages == self@.pages(),
    {
        match self.bl_state {
            BlState::CodeWrite(chunk_count) => chunk_count,
            _ => 0,
        }
    }

    fn is_next_chunk(&self, heard: &CommState) -> (is_next_chunk: bool)
        ensures
            is_next_chunk == self@.is_next_chunk(heard@),
    {
        match &heard.type_ {
            CommType::BlCodeWrite(write) => write.chunk_index == self.pages(),
            _ => false,
        }
    }

    /// Whether a state can be taken note of at `now`.
    pub fn can_receive(&self, heard: &CommState, now: Instant) -> (can_receive: bool)
        ensures
            can_receive == self@.can_receive(heard@, now),
    {
        let state = heard.clone().for_bootloader();
        match self.comm_state.consider(&state) {
            TrickleOrdering::Greater => match &state.type_ {
                CommType::Unknown => true,
                _ => self.trickle_state.can_restart(now) && state.fits(now)
                    && (!self.is_next_chunk(&state) || self.pages() <= (u32::MAX - APP_ADDRESS)
                    / PAGE_SIZE),
            },
            TrickleOrdering::Consistent => self.trickle_state.can_count(),
            TrickleOrdering::Less => self.trickle_state.can_restart(now),
        }
    }

    /// Takes note of a state that was heard. The sender has to be woken.
    pub fn receive(&mut self, heard: CommState, now: Instant) -> (action: BlAction)
        requires
            old(self)@.can_receive(heard@, now),
        ensures
            final(self)@ == old(self)@.received(heard@, now),
            action@ == old(self)@.action(heard@),
    {
        let state = heard.for_bootloader();
        match self.comm_state.consider(&state) {
            TrickleOrdering::Greater => {
                // Receiving a newer state means that we should assume it.
                self.take_over(state, now)
            },
            TrickleOrdering::Consistent => {
                self.trickle_state.got_consistent_state();
                BlAction::Nothing
            },
            TrickleOrdering::Less => {
                self.trickle_state.got_outdated_state(now);
                BlAction::Nothing
            },
        }
    }

    fn take_over(&mut self, state: CommState, now: Instant) -> (action: BlAction)
        requires
            old(self)@.comm_state.adopts(state@),
            state@ == state@.for_bootloader(),
            old(self)@.can_receive(state@, now),
        ensures
            final(self)@ == old(self)@.received(state@, now),
            action@ == old(self)@.action(state@),
    {
        let mut state = state;
        if let CommType::Unknown = state.type_ {
            // Reboot into app
            self.comm_state = state;
            return BlAction::BranchToApp;
        }
        state.update(now);
        let pages: u32 = self.pages();
        let mut action = BlAction::Nothing;
        match &mut state.type_ {
            CommType::BlInit => {
                self.bl_state = BlState::Init;
            },
            CommType::BlBroadcastPing(ping) => {
                let seen = match self.bl_state {
                    BlState::Ping(sn) => sn == state.seq_num,
                    _ => false,
                };
                if !seen {
                    // If this is the first time we've seen this ping,
                    // mark it with our observed latency.
                    ping.latency_micros = ping.age_micros.age_micros;
                    self.bl_state = BlState::Ping(state.seq_num);
                }
            },
            CommType::BlCodeWrite(write) => {
                if pages == write.chunk_index {
                    action = BlAction::WritePage {
                        address: APP_ADDRESS + PAGE_SIZE * write.chunk_index,
                        data: write.chunk_data.clone(),
                    };
                    self.bl_state = BlState::CodeWrite(pages + 1);
                } else {
                    self.bl_state = BlState::CodeWrite(pages);
                }
            },
            CommType::BlCodeProgress(progress) => {
                // Report what both have.
                if pages < progress.chunk_count {
                    progress.chunk_count = pages;
                }
                self.bl_state = BlState::CodeWrite(pages);
            },
            _ => {},
        }
        self.comm_state = state;
        self.did_receive_packet = true;
        self.trickle_state.got_new_state(now);
        action
    }

    /// Takes note of the state in a frame, if there is one. The buffer is used up.
    pub fn receive_frame(&mut self, frame: &mut [u8], now: Instant) -> (reception: Reception)
        ensures
            final(self)@ == old(self)@.heard_frame(old(frame)@, now),
            match packet_decoded(old(frame)@) {
                Err(_) => reception is Ignored && final(self)@ == old(self)@,
                Ok(heard) => if old(self)@.can_receive(heard, now) {
                    &&& reception matches Reception::Heard(action) && action@ == old(self)@.action(
                        heard,
                    )
                    &&& final(self)@ == old(self)@.received(heard, now)
                } else {
                    reception is Refused && final(self)@ == old(self)@
                },
            },
    {
        match CommState::try_deserialize_packet(frame) {
            Err(_) => Reception::Ignored,
            Ok(heard) => if self.can_receive(&heard, now) {
                Reception::Heard(self.receive(heard, now))
            } else {
                Reception::Refused
            },
        }
    }

    /// Whether the sender can be polled at `now`.
    pub fn can_transmit(&self, now: Instant) -> (can_transmit: bool)
        ensures
            can_transmit == (self@.trickle_state.can_poll(now) && self@.comm_state.can_update(now)),
    {
        self.trickle_state.can_poll(now) && self.comm_state.fits(now)
    }

    /// Polls the sender: the state is brought up to `now` and sent in every
    /// direction when the timer asks for it.
    pub fn transmit(&mut self, now: Instant) -> (transmission: Transmission)
        requires
            old(self)@.trickle_state.can_poll(now),
            old(self)@.trickle_state.poll_result(now) is Send ==> old(self)@.comm_state.can_update(
                now,
            ),
        ensures
            final(self)@ == old(self)@.transmitted(now),
            transmission is Send <==> old(self)@.sends(now),
            match old(self)@.trickle_state.poll_result(now) {
                TricklePollResult::Wait(micros) => {
                    &&& transmission == Transmission::Wait(micros)
                    &&& final(self)@ == (BlModel {
                        trickle_state: old(self)@.trickle_state.polled(now),
                        ..old(self)@
                    })
                },
                TricklePollResult::Send => {
                    &&& transmission matches Transmission::Send(sent) && forall|i: int|
                        0 <= i < 4 ==> (#[trigger] sent@[i])@ == old(self)@.comm_state.updated(
                            now,
                        ).transmission()
                    &&& final(self)@ == (BlModel {
                        comm_state: old(self)@.comm_state.updated(now),
                        trickle_state: old(self)@.trickle_state.polled(now),
                        ..old(self)@
                    })
                },
            },
    {
        match self.trickle_state.poll(now) {
            TricklePollResult::Wait(timeout_micros) => Transmission::Wait(timeout_micros),
            TricklePollResult::Send => {
                self.comm_state.update(now);
                let propagated = self.comm_state.propagate();
                Transmission::Send(
                    [
                        propagated[0].transmission(),
                        propagated[1].transmission(),
                        propagated[2].transmission(),
                        propagated[3].transmission(),
                    ],
                )
            },
        }
    }
}

/// Pages are written one after another from the start of the program, each
/// behind those that were written before.
pub proof fn law_pages_are_written_in_order(m: BlModel, heard: StateModel, now: Instant)
    requires
        m.can_receive(heard, now),
        m.action(heard) is WritePage,
    ensures
        m.action(heard)->address == APP_ADDRESS + PAGE_SIZE * m.pages(),
        m.received(heard, now).pages() == m.pages() + 1,
{
}

/// Without a page being written the count of pages stays, or starts anew
/// because the network turned to something else.
pub proof fn law_only_written_pages_count(m: BlModel, heard: StateModel, now: Instant)
    requires
        !(m.action(heard) is WritePage),
    ensures
        m.received(heard, now).pages() == m.pages() || m.received(heard, now).bl_state is Init
            || m.received(heard, now).bl_state is Ping,
{
}

/// A chunk that was written is not written again when it is repeated.
pub proof fn law_repeated_chunk_is_not_written_again(
    m: BlModel,
    heard: StateModel,
    again: StateModel,
    now: Instant,
)
    requires
        m.can_receive(heard, now),
        m.action(heard) is WritePage,
        again.type_ is BlCodeWrite,
        again.type_->BlCodeWrite_0.chunk_index == heard.type_->BlCodeWrite_0.chunk_index,
    ensures
        !(m.received(heard, now).action(again) is WritePage),
{
}

/// A ping is marked with its age when it is first seen, and with nothing
/// after that.
pub proof fn law_ping_is_marked_once(
    m: BlModel,
    first: PingModel,
    second: PingModel,
    seq_num: u64,
    now: Instant,
    later: Instant,
)
    requires
        ({
            let heard = StateModel { seq_num, type_: TypeModel::BlBroadcastPing(first) };
            let again = StateModel { seq_num, type_: TypeModel::BlBroadcastPing(second) };
            &&& m.comm_state.adopts(heard)
            &&& m.bl_state != BlState::Ping(seq_num)
            &&& m.received(heard, now).comm_state.adopts(again)
        }),
    ensures
        ({
            let heard = StateModel { seq_num, type_: TypeModel::BlBroadcastPing(first) };
            let again = StateModel { seq_num, type_: TypeModel::BlBroadcastPing(second) };
            let once = m.received(heard, now);
            let twice = once.received(again, later);
            &&& once.comm_state.type_->BlBroadcastPing_0.latency_micros == first.age_micros.updated(
                now,
            ).age_micros
            &&& twice.comm_state.type_->BlBroadcastPing_0.latency_micros == second.latency_micros
        }),
{
}

/// A node that takes over a report of progress answers with what both have:
/// the lesser of the count that it heard and its own. Its own stays.
pub proof fn law_progress_is_answered(m: BlModel, heard: StateModel, now: Instant)
    requires
        m.comm_state.adopts(heard),
        heard.type_ is BlCodeProgress,
    ensures
        ({
            let report = heard.type_->BlCodeProgress_0;
            let count = if report.chunk_count <= m.pages() {
                report.chunk_count
            } else {
                m.pages()
            };
            m.received(heard, now).comm_state == progress_state(
                heard.seq_num,
                report.hardware_id,
                count,
            )
        }),
        m.received(heard, now).pages() == m.pages(),
{
}

/// News, and what is out of date, make the node speak soon: its timer starts
/// anew with the shortest interval, unless the node leaves for the program.
pub proof fn law_differing_state_restarts_the_timer(m: BlModel, heard: StateModel, now: Instant)
    requires
        !(m.comm_state.considered(heard.for_bootloader()) is Consistent),
        !(m.action(heard) is BranchToApp),
    ensures
        m.received(heard, now).trickle_state == m.trickle_state.reset().begun(now),
{
}

/// A state that agrees changes nothing but the count of such states.
pub proof fn law_consistent_state_is_counted(m: BlModel, heard: StateModel, now: Instant)
    requires
        m.can_receive(heard, now),
        m.comm_state.considered(heard.for_bootloader()) is Consistent,
    ensures
        m.received(heard, now) == (BlModel {
            trickle_state: TrickleModel {
                counter: (m.trickle_state.counter + 1) as u32,
                ..m.trickle_state
            },
            ..m
        }),
        m.action(heard) is Nothing,
{
}

impl BlModel {
    /// Whether the node holds a report on a piece of hardware that claims no
    /// more than it has, no more than was asked about and no less than `least`.
    pub open spec fn reports(
        self,
        seq_num: u64,
        hardware_id: u32,
        asked: u32,
        least: u32,
    ) -> bool {
        &&& self.comm_state.type_ matches TypeModel::BlCodeProgress(report) && {
            &&& self.comm_state == progress_state(seq_num, hardware_id, report.chunk_count)
            &&& least <= report.chunk_count <= asked
            &&& report.chunk_count <= self.pages()
        }
    }

    /// The count in the report that the node holds.
    pub open spec fn reported(self) -> u32 {
        self.comm_state.type_->BlCodeProgress_0.chunk_count
    }

    /// The node after it heard some reports in turn.
    pub open spec fn after_reports(
        self,
        seq_num: u64,
        heard: Seq<BlCodeProgress>,
        now: Instant,
    ) -> BlModel
        decreases heard.len(),
    {
        if heard.len() == 0 {
            self
        } else {
            self.after_reports(seq_num, heard.drop_last(), now).received(
                progress_state(seq_num, heard.last().hardware_id, heard.last().chunk_count),
                now,
            )
        }
    }
}

/// A node that is asked for its progress and then hears reports, in whatever
/// order, ends up with the largest hardware id that it heard, and with the
/// least of the counts that came with it and its own. Its own stays.
pub proof fn law_node_settles_on_the_least_progress(
    m: BlModel,
    seq_num: u64,
    heard: Seq<BlCodeProgress>,
    now: Instant,
) -> (held: BlCodeProgress)
    requires
        m.comm_state.seq_num < seq_num,
        heard.len() > 0,
    ensures
        ({
            let end = m.after_reports(seq_num, heard, now);
            &&& end.comm_state == progress_state(seq_num, held.hardware_id, held.chunk_count)
            &&& end.pages() == m.pages()
        }),
        held.chunk_count <= m.pages(),
        forall|i: int| 0 <= i < heard.len() ==> held.prevails_over(#[trigger] heard[i]),
        exists|i: int|
            0 <= i < heard.len() && (#[trigger] heard[i]).hardware_id == held.hardware_id && (
            held.chunk_count == m.pages() || held.chunk_count == heard[i].chunk_count),
    decreases heard.len(),
{
    let earlier = heard.drop_last();
    let last = heard[heard.len() - 1];
    let lowered = BlCodeProgress {
        chunk_count: if last.chunk_count <= m.pages() {
            last.chunk_count
        } else {
            m.pages()
        },
        ..last
    };
    assert(forall|i: int| 0 <= i < earlier.len() ==> #[trigger] heard[i] == earlier[i]);
    if earlier.len() == 0 {
        assert(m.after_reports(seq_num, earlier, now) == m);
        lowered
    } else {
        let before = law_node_settles_on_the_least_progress(m, seq_num, earlier, now);
        if before.prevails_over(last) {
            let k = choose|i: int|
                0 <= i < earlier.len() && (#[trigger] earlier[i]).hardware_id == before.hardware_id
                    && (before.chunk_count == m.pages() || before.chunk_count
                    == earlier[i].chunk_count);
            assert(heard[k] == earlier[k]);
            before
        } else {
            lowered
        }
    }
}

/// In a network of nodes that report on the same hardware, whichever node
/// hears whichever other, every node goes on to report no more than it has and
/// no less than the node that is furthest behind. A count that changes drops.
pub proof fn law_reports_stay_truthful(
    hearer: BlModel,
    speaker: BlModel,
    seq_num: u64,
    hardware_id: u32,
    asked: u32,
    least: u32,
    now: Instant,
)
    requires
        hearer.reports(seq_num, hardware_id, asked, least),
        speaker.reports(seq_num, hardware_id, asked, least),
    ensures
        ({
            let after = hearer.received(speaker.comm_state, now);
            &&& after.reports(seq_num, hardware_id, asked, least)
            &&& after.pages() == hearer.pages()
            &&& after.reported() == if speaker.reported() < hearer.reported() {
                speaker.reported()
            } else {
                hearer.reported()
            }
        }),
{
}

/// Once no node of such a network takes over the report of another, they all
/// hold the same one: the least of what was asked about and what the nodes have.
pub proof fn law_network_settles_on_the_least_progress(
    nodes: Seq<BlModel>,
    seq_num: u64,
    hardware_id: u32,
    asked: u32,
    least: u32,
)
    requires
        forall|i: int|
            0 <= i < nodes.len() ==> (#[trigger] nodes[i]).reports(
                seq_num,
                hardware_id,
                asked,
                least,
            ),
        least == asked || exists|i: int|
            0 <= i < nodes.len() && (#[trigger] nodes[i]).pages() == least,
        forall|i: int, j: int|
            0 <= i < nodes.len() && 0 <= j < nodes.len() ==> !(#[trigger] nodes[i]).comm_state.adopts(
                (#[trigger] nodes[j]).comm_state,
            ),
    ensures
        forall|i: int|
            0 <= i < nodes.len() ==> (#[trigger] nodes[i]).comm_state == progress_state(
                seq_num,
                hardware_id,
                least,
            ),
{
    if least != asked {
        let k = choose|i: int| 0 <= i < nodes.len() && (#[trigger] nodes[i]).pages() == least;
        assert(nodes[k].reported() == least);
        assert forall|i: int| 0 <= i < nodes.len() implies (#[trigger] nodes[i]).comm_state
            == progress_state(seq_num, hardware_id, least) by {
            assert(!nodes[i].comm_state.adopts(nodes[k].comm_state));
        }
    }
}

/// A node that takes over a state of bootloaders, whatever its kind, stays in the
/// bootloader from then on. Nothing else that it hears makes it stay, and nothing
/// makes it forget.
pub proof fn law_news_keep_the_node_in_the_bootloader(
    m: BlModel,
    heard: StateModel,
    now: Instant,
)
    ensures
        m.comm_state.adopts(heard) && (heard.type_ is BlInit || heard.type_ is BlBroadcastPing
            || heard.type_ is BlCodeWrite || heard.type_ is BlCodeProgress
            || heard.type_ is BlUnknown) ==> m.received(heard, now).did_receive_packet,
        m.did_receive_packet ==> m.received(heard, now).did_receive_packet,
        !m.comm_state.adopts(heard.for_bootloader()) || heard.type_ is Init
            || heard.type_ is Unknown ==> m.received(heard, now).did_receive_packet
            == m.did_receive_packet,
{
}

/// The node after it heard some states in turn.
pub open spec fn after_states(m: BlModel, heard: Seq<StateModel>, now: Instant) -> BlModel
    decreases heard.len(),
{
    if heard.len() == 0 {
        m
    } else {
        after_states(m, heard.drop_last(), now).received(heard.last(), now)
    }
}

/// Whatever a node hears besides, one later state of bootloaders among it is
/// enough to keep the node from leaving for the program when its time is over.
pub proof fn law_one_packet_is_enough(
    m: BlModel,
    before: Seq<StateModel>,
    news: StateModel,
    after: Seq<StateModel>,
    now: Instant,
)
    requires
        after_states(m, before, now).comm_state.seq_num < news.seq_num,
        !(news.type_ is Init),
        !(news.type_ is Unknown),
    ensures
        after_states(m, before.push(news) + after, now).did_receive_packet,
    decreases after.len(),
{
    if after.len() == 0 {
        assert(before.push(news) + after =~= before.push(news));
        assert(before.push(news).drop_last() =~= before);
        law_news_keep_the_node_in_the_bootloader(after_states(m, before, now), news, now);
    } else {
        law_one_packet_is_enough(m, before, news, after.drop_last(), now);
        assert((before.push(news) + after).drop_last() =~= before.push(news) + after.drop_last());
        law_news_keep_the_node_in_the_bootloader(
            after_states(m, before.push(news) + after.drop_last(), now),
            after.last(),
            now,
        );
    }
}

/// A bootloader takes states of bootloaders as they are, and knows of those of
/// an application only that they are there.
pub proof fn law_bootloader_knows_its_own(heard: StateModel)
    ensures
        heard.for_bootloader().seq_num == heard.seq_num,
        heard.type_ is Init || heard.type_ is Unknown ==> heard.for_bootloader().type_ is Unknown,
        !(heard.type_ is Init) && !(heard.type_ is Unknown) ==> heard.for_bootloader() == heard,
{
}

/// What is not newer leaves the node with its state and its count of pages, and
/// with nothing to do.
pub proof fn law_only_news_are_taken_over(m: BlModel, heard: StateModel, now: Instant)
    requires
        !m.comm_state.adopts(heard.for_bootloader()),
    ensures
        m.received(heard, now).comm_state == m.comm_state,
        m.received(heard, now).bl_state == m.bl_state,
        m.received(heard, now).did_receive_packet == m.did_receive_packet,
        m.action(heard) is Nothing,
{
}

/// News are held as they were heard: the number and what they are about. Only a
/// ping and a report of progress are marked on the way.
pub proof fn law_news_are_held(m: BlModel, heard: StateModel, now: Instant)
    requires
        m.comm_state.adopts(heard),
        !(heard.type_ is Init),
        !(heard.type_ is Unknown),
    ensures
        m.received(heard, now).comm_state.seq_num == heard.seq_num,
        heard.type_ is BlInit || heard.type_ is BlCodeWrite || heard.type_ is BlUnknown
            ==> m.received(heard, now).comm_state == heard,
        heard.type_ matches TypeModel::BlBroadcastPing(ping) ==> {
            let held = m.received(heard, now).comm_state.type_;
            &&& held is BlBroadcastPing
            &&& held->BlBroadcastPing_0.data == ping.data
            &&& held->BlBroadcastPing_0.age_micros == ping.age_micros.updated(now)
            &&& m.bl_state == BlState::Ping(heard.seq_num)
                ==> held->BlBroadcastPing_0.latency_micros == ping.latency_micros
            &&& m.bl_state != BlState::Ping(heard.seq_num)
                ==> held->BlBroadcastPing_0.latency_micros == ping.age_micros.updated(
                now,
            ).age_micros
        },
{
}

/// A ping that has just come in is marked with the age that it came with.
pub proof fn law_fresh_ping_tells_its_age(
    m: BlModel,
    seq_num: u64,
    ping: PingModel,
    now: Instant,
)
    requires
        m.comm_state.seq_num < seq_num,
        m.bl_state != BlState::Ping(seq_num),
        ping.age_micros.last_update is None,
    ensures
        ({
            let heard = StateModel { seq_num, type_: TypeModel::BlBroadcastPing(ping) };
            let held = m.received(heard, now).comm_state.type_;
            held is BlBroadcastPing && held->BlBroadcastPing_0.latency_micros
                == ping.age_micros.age_micros
        }),
{
}

/// A node leaves for the program exactly when it hears of something newer that
/// belongs to applications.
pub proof fn law_node_follows_the_application(m: BlModel, heard: StateModel, now: Instant)
    ensures
        m.action(heard) is BranchToApp <==> (heard.type_ is Init || heard.type_ is Unknown)
            && m.comm_state.adopts(StateModel { seq_num: heard.seq_num, type_: TypeModel::Unknown }),
        (heard.type_ is Init || heard.type_ is Unknown) && heard.seq_num > m.comm_state.seq_num
            ==> m.action(heard) is BranchToApp,
        m.action(heard) is BranchToApp ==> m.received(heard, now).bl_state == m.bl_state && m.received(
            heard,
            now,
        ).trickle_state == m.trickle_state,
{
}

/// A page is written exactly when a newer state carries the chunk that follows
/// those that were written: that chunk, to the page that it belongs to.
pub proof fn law_next_chunk_is_written(m: BlModel, heard: StateModel)
    ensures
        m.action(heard) is WritePage <==> m.comm_state.adopts(heard) && heard.type_ is BlCodeWrite
            && heard.type_->BlCodeWrite_0.chunk_index == m.pages(),
        m.action(heard) is WritePage && 0x0800_8000 + 256 * m.pages() <= u32::MAX ==> m.action(
            heard,
        )->address == 0x0800_8000 + 256 * heard.type_->BlCodeWrite_0.chunk_index && m.action(
            heard,
        )->data == heard.type_->BlCodeWrite_0.chunk_data,
{
}

/// What a node is in the middle of follows from what it takes over. Chunks are
/// counted from none, and the count ends when the subject is another one.
pub proof fn law_subject_follows_the_news(m: BlModel, heard: StateModel, now: Instant)
    requires
        m.comm_state.adopts(heard),
        m.pages() < u32::MAX,
    ensures
        heard.type_ is BlInit ==> m.received(heard, now).bl_state == BlState::Init,
        heard.type_ is BlBroadcastPing ==> m.received(heard, now).bl_state == BlState::Ping(
            heard.seq_num,
        ),
        heard.type_ is BlUnknown ==> m.received(heard, now).bl_state == m.bl_state,
        heard.type_ is BlCodeProgress ==> m.received(heard, now).bl_state == BlState::CodeWrite(
            m.pages(),
        ),
        heard.type_ matches TypeModel::BlCodeWrite(write) ==> m.received(heard, now).bl_state
            == BlState::CodeWrite(
            if write.chunk_index == m.pages() {
                (m.pages() + 1) as u32
            } else {
                m.pages()
            },
        ),
        m.bl_state matches BlState::CodeWrite(n) ==> m.pages() == n,
        !(m.bl_state is CodeWrite) ==> m.pages() == 0,
{
}

/// A node that hears news, or something out of date, begins the shortest interval
/// at once, whatever interval it had come to.
pub proof fn law_differing_state_is_answered_soon(m: BlModel, heard: StateModel, now: Instant)
    requires
        heard.seq_num != m.comm_state.seq_num,
        !(heard.type_ is Init),
        !(heard.type_ is Unknown),
        now.nanos + 1000 * m.trickle_state.params.i_min_micros <= u128::MAX,
    ensures
        ({
            let timer = m.received(heard, now).trickle_state;
            &&& timer.params == m.trickle_state.params
            &&& timer.interval_micros == m.trickle_state.params.i_min_micros
            &&& timer.interval_expiry.nanos == now.nanos + 1000
                * m.trickle_state.params.i_min_micros
            &&& timer.counter == 0
            &&& !timer.after_t
        }),
{
}

/// With usable intervals, room on the clock, ages that fit and a page that
/// exists, a node can take note of any state.
pub proof fn law_node_can_listen(m: BlModel, heard: StateModel, now: Instant)
    requires
        1024 <= m.trickle_state.params.i_min_micros < 0x400_0000_0000,
        now.nanos + 1000 * m.trickle_state.params.i_min_micros <= u128::MAX,
        m.trickle_state.counter < u32::MAX,
        heard.can_update(now),
        0x0800_8000 + 256 * m.pages() <= u32::MAX,
    ensures
        m.can_receive(heard, now),
{
}

/// Pages of 256 bytes follow each other from the start of the program, and the
/// bootloader listens for half a second.
pub proof fn law_flash_is_laid_out()
    ensures
        APP_ADDRESS == 0x0800_8000,
        PAGE_SIZE == 256,
        BOOT_DELAY_MILLIS == 500,
{
}

/// Frames that cannot be read change nothing, and no frame takes a node back to
/// an earlier sequence number. A later state of bootloaders is taken over by any
/// node that can.
pub proof fn law_frames_only_bring_news(m: BlModel, frame: Seq<u8>, now: Instant)
    ensures
        packet_decoded(frame) is Err ==> m.heard_frame(frame, now) == m,
        m.heard_frame(frame, now).comm_state.seq_num >= m.comm_state.seq_num,
        m.did_receive_packet ==> m.heard_frame(frame, now).did_receive_packet,
        packet_decoded(frame) matches Ok(heard) ==> (m.can_receive(heard, now) && heard.seq_num
            > m.comm_state.seq_num ==> m.heard_frame(frame, now).comm_state.seq_num
            == heard.seq_num),
        packet_decoded(frame) matches Ok(heard) ==> (heard.seq_num < m.comm_state.seq_num
            ==> m.heard_frame(frame, now).comm_state == m.comm_state),
{
}

/// A node sends at the first poll behind its send point unless it has heard `k`
/// states that agree. Polling it changes nothing of what it is about, but for the
/// age of a ping that is sent.
pub proof fn law_node_sends_what_it_holds(m: BlModel, now: Instant)
    ensures
        m.sends(now) <==> !m.trickle_state.after_t && now.nanos >= m.trickle_state.t_expiry.nanos
            && m.trickle_state.counter < m.trickle_state.params.k,
        m.transmitted(now).comm_state.seq_num == m.comm_state.seq_num,
        !m.sends(now) ==> m.transmitted(now).comm_state == m.comm_state,
        !(m.comm_state.type_ is BlBroadcastPing) ==> m.transmitted(now).comm_state == m.comm_state,
        m.comm_state.type_ matches TypeModel::BlBroadcastPing(ping) ==> (m.sends(now)
            ==> m.transmitted(now).comm_state.type_ == TypeModel::BlBroadcastPing(
            PingModel { age_micros: ping.age_micros.updated(now), ..ping },
        )),
        m.transmitted(now).bl_state == m.bl_state,
        m.transmitted(now).did_receive_packet == m.did_receive_packet,
        m.transmitted(now).trickle_state == m.trickle_state.polled(now),
{
}

} // verus!
