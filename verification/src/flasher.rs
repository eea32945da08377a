//! Bringing a program onto every node of a network.
//!
//! The nodes are called into their bootloaders, a ping tells whether there are
//! any, the program is sent chunk by chunk and again from where the slowest
//! node fell behind, and at last the nodes are called back into the program.

use vstd::prelude::*;
use vstd::slice::slice_subrange;

use crate::bootloader::{ActionModel, BlModel, APP_ADDRESS, PAGE_SIZE};
use crate::chunk::{Chunk, CHUNK_CAPACITY};
use crate::host::{Host, HostModel};
use crate::proto::{
    AgeMicros, BlBroadcastPing, BlCodeProgress, BlCodeWrite, CodeWriteModel, CommState, CommType,
    PingModel, StateModel, TypeModel,
};
use crate::time::Instant;

verus! {

/// By how much the sequence number is raised to talk over whatever is going on.
pub const HIGH_PRIORITY_SEQ_INCREMENT: u64 = 8;

/// How long the network gets to agree on something, in milliseconds.
pub const LONG_TIMEOUT_MILLIS: u128 = 1_000;

/// How long a chunk gets to reach the network at first, in milliseconds.
pub const INITIAL_CODE_CHUNK_TIMEOUT_MILLIS: u128 = 50;

/// The longest time that can be waited for, in milliseconds.
pub const MAX_TIMEOUT_MILLIS: u128 = 18_446_744_073_709_551_615_999;

/// The hardware that the program is for.
pub const HARDWARE_ID: u32 = 1;

/// The bytes of the program that go into one chunk.
pub const CHUNK_SIZE: usize = 256;

/// The number of chunks that a program takes.
pub open spec fn chunk_count(firmware: Seq<u8>) -> int {
    (firmware.len() + CHUNK_SIZE - 1) / CHUNK_SIZE as int
}

/// Where chunk `index` of a program begins.
pub open spec fn chunk_start(firmware: Seq<u8>, index: int) -> int {
    if CHUNK_SIZE * index <= firmware.len() {
        CHUNK_SIZE * index
    } else {
        firmware.len() as int
    }
}

/// A chunk of a program.
pub open spec fn chunk(firmware: Seq<u8>, index: int) -> Seq<u8> {
    firmware.subrange(chunk_start(firmware, index), chunk_start(firmware, index + 1))
}

/// The first `n` chunks of a program, one behind the other.
pub open spec fn chunks(firmware: Seq<u8>, n: nat) -> Seq<u8>
    decreases n,
{
    if n == 0 {
        Seq::empty()
    } else {
        chunks(firmware, (n - 1) as nat) + chunk(firmware, n - 1)
    }
}

/// Where the flasher is.
#[derive(Clone, Copy, PartialEq, Eq, Structural, Debug)]
pub enum Phase {
    /// The nodes are called into their bootloaders.
    SwitchToBootloader,
    /// The network is searched for nodes.
    Ping,
    /// A chunk is sent.
    Write(usize),
    /// The nodes are asked how far they are.
    Progress,
    /// The nodes are called back into the program.
    SwitchToApp,
    /// There is nothing left to do.
    Done,
}

/// What a phase came to.
#[derive(Clone, Copy, PartialEq, Eq, Structural, Debug)]
pub enum Report {
    /// Nothing worth telling.
    Nothing,
    /// How long it took to reach the whole network.
    Latency { millis: u64 },
    /// How many chunks every node has.
    Progress { chunk_count: u32 },
}

/// Why flashing failed.
#[derive(Clone, Copy, PartialEq, Eq, Structural, Debug)]
pub enum FlashError {
    /// Other messages float around the network
    OtherTraffic,
    /// The type of the message changed unexpectedly on the network
    TypeChanged,
    /// No devices were detected on the network
    NoDevices,
    /// A node claims to have more chunks than there are
    ProgressOutOfRange,
    /// The nodes are too slow to wait for
    TimeoutOverflow,
}

/// Brings a program onto the nodes of a network.
pub struct Flasher {
    firmware: Vec<u8>,
    seq_num: u64,
    code_chunk_timeout_millis: u128,
    phase: Phase,
}

/// What a flasher holds.
pub struct FlasherModel {
    pub firmware: Seq<u8>,
    /// The sequence number that was last announced.
    pub seq_num: u64,
    pub code_chunk_timeout_millis: u128,
    pub phase: Phase,
}

impl View for Flasher {
    type V = FlasherModel;

    closed spec fn view(&self) -> FlasherModel {
        FlasherModel {
            firmware: self.firmware@,
            seq_num: self.seq_num,
            code_chunk_timeout_millis: self.code_chunk_timeout_millis,
            phase: self.phase,
        }
    }
}

/// The state that carries a chunk.
pub open spec fn chunk_message(firmware: Seq<u8>, index: usize) -> TypeModel {
    TypeModel::BlCodeWrite(
        CodeWriteModel {
            hardware_id: HARDWARE_ID,
            chunk_count: chunk_count(firmware) as u32,
            chunk_index: index as u32,
            chunk_data: chunk(firmware, index as int),
        },
    )
}

impl FlasherModel {
    /// What holds of every flasher: there is a program, and a chunk that is
    /// sent is one of it.
    pub open spec fn inv(self) -> bool {
        &&& self.firmware.len() > 0
        &&& self.phase matches Phase::Write(index) ==> index < chunk_count(self.firmware)
        &&& 1 <= self.code_chunk_timeout_millis <= MAX_TIMEOUT_MILLIS
    }

    /// By how much a phase raises the sequence number.
    pub open spec fn seq_increment(self) -> u64 {
        if self.phase is SwitchToBootloader {
            HIGH_PRIORITY_SEQ_INCREMENT
        } else {
            1
        }
    }

    /// What a phase tells the network.
    pub open spec fn message(self) -> TypeModel {
        match self.phase {
            Phase::SwitchToBootloader => TypeModel::BlInit,
            Phase::Ping => TypeModel::BlBroadcastPing(
                PingModel {
                    latency_micros: 0,
                    age_micros: AgeMicros { age_micros: 0, last_update: None },
                    data: Seq::new(CHUNK_SIZE as nat, |i: int| 0xAAu8),
                },
            ),
            Phase::Write(index) => chunk_message(self.firmware, index),
            Phase::Progress => TypeModel::BlCodeProgress(
                BlCodeProgress {
                    hardware_id: HARDWARE_ID,
                    chunk_count: chunk_count(self.firmware) as u32,
                },
            ),
            Phase::SwitchToApp => TypeModel::Init,
            Phase::Done => TypeModel::Init,
        }
    }

    /// How long a phase lasts, in milliseconds.
    pub open spec fn timeout_millis(self) -> u128 {
        if self.phase is Write {
            self.code_chunk_timeout_millis
        } else {
            LONG_TIMEOUT_MILLIS
        }
    }

    /// Whether the phase can begin at `now`.
    pub open spec fn can_begin(self, host: HostModel, now: Instant) -> bool {
        host.comm_state.seq_num + self.seq_increment() <= u64::MAX
            && host.trickle_state.reset().can_begin(now)
    }

    /// The state that the phase spreads from `now` on.
    pub open spec fn announcement(self, host: HostModel, now: Instant) -> StateModel {
        (StateModel {
            seq_num: (host.comm_state.seq_num + self.seq_increment()) as u64,
            type_: self.message(),
        }).updated(now)
    }

    /// The flasher when the phase has begun.
    pub open spec fn begun(self, host: HostModel) -> FlasherModel {
        FlasherModel {
            seq_num: (host.comm_state.seq_num + self.seq_increment()) as u64,
            ..self
        }
    }

    /// Whether the phase has to begin again to talk over a newer state.
    pub open spec fn is_outdone(self, newer: StateModel) -> bool {
        self.phase is SwitchToBootloader && newer.seq_num > self.seq_num
    }

    /// Whether a newer state can be taken note of at `now`.
    pub open spec fn can_meet(self, host: HostModel, newer: StateModel, now: Instant) -> bool {
        if self.is_outdone(newer) {
            self.can_begin(host, now)
        } else {
            host.trickle_state.reset().can_begin(now)
        }
    }

    /// The flasher after it met a newer state.
    pub open spec fn met(self, host: HostModel, newer: StateModel) -> FlasherModel {
        if self.is_outdone(newer) {
            self.begun(host)
        } else {
            self
        }
    }

    /// The host after the flasher met a newer state, which is taken over, or
    /// talked over.
    pub open spec fn host_met(self, host: HostModel, newer: StateModel, now: Instant) -> HostModel {
        if self.is_outdone(newer) {
            host.holding(self.announcement(host, now), now)
        } else {
            host.holding(newer, now)
        }
    }

    /// What a phase came to when its time is over.
    pub open spec fn outcome(self, host: HostModel) -> Result<Report, FlashError> {
        let undisturbed = host.comm_state.seq_num == self.seq_num;
        match self.phase {
            Phase::Ping => if !undisturbed {
                Err(FlashError::OtherTraffic)
            } else {
                match host.comm_state.type_ {
                    TypeModel::BlBroadcastPing(ping) => if ping.latency_micros == 0 {
                        Err(FlashError::NoDevices)
                    } else {
                        Ok(Report::Latency { millis: ping.latency_micros / 1_000 })
                    },
                    _ => Err(FlashError::TypeChanged),
                }
            },
            Phase::Write(_) => if !undisturbed {
                Err(FlashError::OtherTraffic)
            } else {
                Ok(Report::Nothing)
            },
            Phase::Progress => if !undisturbed {
                Err(FlashError::OtherTraffic)
            } else {
                match host.comm_state.type_ {
                    TypeModel::BlCodeProgress(progress) => if progress.chunk_count == chunk_count(
                        self.firmware,
                    ) {
                        Ok(Report::Progress { chunk_count: progress.chunk_count })
                    } else if 2 * self.code_chunk_timeout_millis > MAX_TIMEOUT_MILLIS {
                        Err(FlashError::TimeoutOverflow)
                    } else if progress.chunk_count > chunk_count(self.firmware) {
                        Err(FlashError::ProgressOutOfRange)
                    } else {
                        Ok(Report::Progress { chunk_count: progress.chunk_count })
                    },
                    _ => Err(FlashError::TypeChanged),
                }
            },
            _ => Ok(Report::Nothing),
        }
    }

    /// The flasher when a phase has ended well: one chunk follows the other,
    /// and where the slowest node is not done it starts over with the first
    /// chunk that is missing there, with twice the time for each.
    pub open spec fn advanced(self, host: HostModel) -> FlasherModel {
        match self.phase {
            Phase::SwitchToBootloader => FlasherModel { phase: Phase::Ping, ..self },
            Phase::Ping => FlasherModel { phase: Phase::Write(0), ..self },
            Phase::Write(index) => FlasherModel {
                phase: if index + 1 < chunk_count(self.firmware) {
                    Phase::Write((index + 1) as usize)
                } else {
                    Phase::Progress
                },
                ..self
            },
            Phase::Progress => {
                let done = host.comm_state.type_->BlCodeProgress_0.chunk_count;
                if done == chunk_count(self.firmware) {
                    FlasherModel { phase: Phase::SwitchToApp, ..self }
                } else {
                    FlasherModel {
                        phase: Phase::Write(done as usize),
                        code_chunk_timeout_millis: (2 * self.code_chunk_timeout_millis) as u128,
                        ..self
                    }
                }
            },
            Phase::SwitchToApp => FlasherModel { phase: Phase::Done, ..self },
            Phase::Done => self,
        }
    }
}

/// The number of chunks that a program takes.
pub fn count_chunks(firmware: &[u8]) -> (count: usize)
    ensures
        count == chunk_count(firmware@),
{
    let whole: usize = firmware.len() / CHUNK_SIZE;
    if firmware.len() % CHUNK_SIZE == 0 {
        whole
    } else {
        whole + 1
    }
}

/// A chunk of a program.
fn cut_chunk(firmware: &[u8], index: usize) -> (data: &[u8])
    requires
        index < chunk_count(firmware@),
    ensures
        data@ == chunk(firmware@, index as int),
        data@.len() <= CHUNK_SIZE,
{
    let len: usize = firmware.len();
    let start: usize = index * CHUNK_SIZE;
    let end: usize = if len - start < CHUNK_SIZE {
        len
    } else {
        start + CHUNK_SIZE
    };
    slice_subrange(firmware, start, end)
}

/// A chunk with the bytes that a ping carries along.
fn ping_data() -> (data: Chunk)
    ensures
        data@ == Seq::new(CHUNK_SIZE as nat, |i: int| 0xAAu8),
{
    let mut data = Chunk::new();
    let mut i: usize = 0;
    while i < CHUNK_SIZE
        invariant
            i <= CHUNK_SIZE,
            data@ == Seq::new(i as nat, |i: int| 0xAAu8),
        decreases CHUNK_SIZE - i,
    {
        let pushed = data.push(0xAA);
        i = i + 1;
        assert(data@ =~= Seq::new(i as nat, |i: int| 0xAAu8));
    }
    data
}

impl Flasher {
    #[verifier::type_invariant]
    spec fn type_inv(self) -> bool {
        self@.inv()
    }

    /// A flasher for a program, or `None` where the program is empty.
    pub fn new(firmware: Vec<u8>) -> (flasher: Option<Self>)
        ensures
            flasher is Some <==> firmware@.len() > 0,
            flasher matches Some(f) ==> f@ == (FlasherModel {
                firmware: firmware@,
                seq_num: 0,
                code_chunk_timeout_millis: INITIAL_CODE_CHUNK_TIMEOUT_MILLIS,
                phase: Phase::SwitchToBootloader,
            }),
            flasher matches Some(f) ==> f@.code_chunk_timeout_millis == 50 && f@.phase
                == Phase::SwitchToBootloader && f@.firmware == firmware@,
    {
        if firmware.len() == 0 {
            return None;
        }
        Some(
            Flasher {
                firmware,
                seq_num: 0,
                code_chunk_timeout_millis: INITIAL_CODE_CHUNK_TIMEOUT_MILLIS,
                phase: Phase::SwitchToBootloader,
            },
        )
    }

    /// Where the flasher is.
    pub fn phase(&self) -> (phase: Phase)
        ensures
            phase == self@.phase,
    {
        self.phase
    }

    /// The number of chunks that the program takes.
    pub fn chunk_count(&self) -> (count: usize)
        ensures
            count == chunk_count(self@.firmware),
    {
        count_chunks(self.firmware.as_slice())
    }

    fn seq_increment(&self) -> (increment: u64)
        ensures
            increment == self@.seq_increment(),
    {
        match self.phase {
            Phase::SwitchToBootloader => HIGH_PRIORITY_SEQ_INCREMENT,
            _ => 1,
        }
    }

    fn message(&self) -> (message: CommType)
        requires
            self@.inv(),
        ensures
            message@ == self@.message(),
    {
        match self.phase {
            Phase::SwitchToBootloader => CommType::BlInit,
            Phase::Ping => CommType::BlBroadcastPing(
                BlBroadcastPing {
                    latency_micros: 0,
                    age_micros: AgeMicros::default(),
                    data: ping_data(),
                },
            ),
            Phase::Write(index) => {
                // What is cut off fits
                let data = cut_chunk(self.firmware.as_slice(), index);
                let chunk_data = match Chunk::from_slice(data) {
                    Some(chunk_data) => chunk_data,
                    None => Chunk::new(),
                };
                CommType::BlCodeWrite(
                    BlCodeWrite {
                        hardware_id: HARDWARE_ID,
                        chunk_count: self.chunk_count() as u32,
                        chunk_index: index as u32,
                        chunk_data,
                    },
                )
            },
            Phase::Progress => CommType::BlCodeProgress(
                BlCodeProgress {
                    hardware_id: HARDWARE_ID,
                    chunk_count: self.chunk_count() as u32,
                },
            ),
            Phase::SwitchToApp => CommType::Init,
            Phase::Done => CommType::Init,
        }
    }

    /// Whether the phase can begin at `now`.
    pub fn can_begin(&self, host: &Host, now: Instant) -> (can_begin: bool)
        ensures
            can_begin == self@.can_begin(host@, now),
    {
        host.comm_state().seq_num <= u64::MAX - self.seq_increment() && host.can_hold(now)
    }

    /// Begins the phase at `now`: the network is told of it. Returns how long
    /// the phase lasts, in milliseconds. The sender has to be woken.
    pub fn begin(&mut self, host: &mut Host, now: Instant) -> (timeout_millis: u128)
        requires
            old(self)@.can_begin(old(host)@, now),
        ensures
            final(self)@ == old(self)@.begun(old(host)@),
            final(host)@ == old(host)@.holding(old(self)@.announcement(old(host)@, now), now),
            timeout_millis == old(self)@.timeout_millis(),
    {
        proof {
            use_type_invariant(&*self);
        }
        let seq_num: u64 = host.comm_state().seq_num + self.seq_increment();
        let mut state = CommState { seq_num, type_: self.message() };
        state.update(now);
        host.hold(state, now);
        self.seq_num = seq_num;
        match self.phase {
            Phase::Write(_) => self.code_chunk_timeout_millis,
            _ => LONG_TIMEOUT_MILLIS,
        }
    }

    fn is_outdone(&self, newer: &CommState) -> (is_outdone: bool)
        ensures
            is_outdone == self@.is_outdone(newer@),
    {
        match self.phase {
            Phase::SwitchToBootloader => newer.seq_num > self.seq_num,
            _ => false,
        }
    }

    /// Whether a newer state can be taken note of at `now`.
    pub fn can_meet(&self, host: &Host, newer: &CommState, now: Instant) -> (can_meet: bool)
        ensures
            can_meet == self@.can_meet(host@, newer@, now),
    {
        if self.is_outdone(newer) {
            self.can_begin(host, now)
        } else {
            host.can_hold(now)
        }
    }

    /// Takes note of a state that is newer than ours. The sender has to be woken.
    pub fn meet(&mut self, host: &mut Host, newer: CommState, now: Instant)
        requires
            old(self)@.can_meet(old(host)@, newer@, now),
        ensures
            final(self)@ == old(self)@.met(old(host)@, newer@),
            final(host)@ == old(self)@.host_met(old(host)@, newer@, now),
    {
        proof {
            use_type_invariant(&*self);
        }
        if self.is_outdone(&newer) {
            // Send the message again with higher seq num
            let timeout_millis: u128 = self.begin(host, now);
        } else {
            host.hold(newer, now);
        }
    }

    /// Ends the phase when its time is over, and goes on to the next one if it
    /// ended well.
    pub fn end(&mut self, host: &Host) -> (outcome: Result<Report, FlashError>)
        ensures
            outcome == old(self)@.outcome(host@),
            final(self)@ == if outcome is Ok {
                old(self)@.advanced(host@)
            } else {
                old(self)@
            },
    {
        proof {
            use_type_invariant(&*self);
        }
        let undisturbed = host.comm_state().seq_num == self.seq_num;
        let count: usize = self.chunk_count();
        match self.phase {
            Phase::SwitchToBootloader => {
                self.phase = Phase::Ping;
                Ok(Report::Nothing)
            },
            Phase::Ping => {
                // Make sure there aren't other messages floating around the network
                if !undisturbed {
                    return Err(FlashError::OtherTraffic);
                }
                let latency_micros: u64 = match &host.comm_state().type_ {
                    CommType::BlBroadcastPing(ping) => ping.latency_micros,
                    _ => {
                        return Err(FlashError::TypeChanged);
                    },
                };
                if latency_micros == 0 {
                    return Err(FlashError::NoDevices);
                }
                self.phase = Phase::Write(0);
                Ok(Report::Latency { millis: latency_micros / 1_000 })
            },
            Phase::Write(index) => {
                if !undisturbed {
                    return Err(FlashError::OtherTraffic);
                }
                if index + 1 < count {
                    self.phase = Phase::Write(index + 1);
                } else {
                    self.phase = Phase::Progress;
                }
                Ok(Report::Nothing)
            },
            Phase::Progress => {
                if !undisturbed {
                    return Err(FlashError::OtherTraffic);
                }
                let done: u32 = match &host.comm_state().type_ {
                    CommType::BlCodeProgress(progress) => progress.chunk_count,
                    _ => {
                        return Err(FlashError::TypeChanged);
                    },
                };
                if done as usize == count {
                    self.phase = Phase::SwitchToApp;
                } else {
                    // Need to retransmit some chunks
                    if self.code_chunk_timeout_millis > MAX_TIMEOUT_MILLIS / 2 {
                        return Err(FlashError::TimeoutOverflow);
                    }
                    if done as usize > count {
                        return Err(FlashError::ProgressOutOfRange);
                    }
                    self.phase = Phase::Write(done as usize);
                    self.code_chunk_timeout_millis = self.code_chunk_timeout_millis * 2;
                }
                Ok(Report::Progress { chunk_count: done })
            },
            Phase::SwitchToApp => {
                self.phase = Phase::Done;
                Ok(Report::Nothing)
            },
            Phase::Done => Ok(Report::Nothing),
        }
    }
}

/// The chunks of a program, one behind the other, are the program.
pub proof fn law_chunks_make_up_the_program(firmware: Seq<u8>)
    ensures
        chunks(firmware, chunk_count(firmware) as nat) == firmware,
{
    lemma_first_chunks(firmware, chunk_count(firmware) as nat);
    assert(firmware.take(firmware.len() as int) =~= firmware);
}

proof fn lemma_first_chunks(firmware: Seq<u8>, n: nat)
    ensures
        chunks(firmware, n) == firmware.take(chunk_start(firmware, n as int)),
    decreases n,
{
    if n == 0 {
        assert(firmware.take(0) =~= Seq::<u8>::empty());
    } else {
        lemma_first_chunks(firmware, (n - 1) as nat);
        assert(firmware.take(chunk_start(firmware, n - 1)) + chunk(firmware, n - 1)
            =~= firmware.take(chunk_start(firmware, n as int)));
    }
}

/// Every chunk of a program holds something, and none holds more than fits.
pub proof fn law_chunks_fit(firmware: Seq<u8>, index: int)
    requires
        0 <= index < chunk_count(firmware),
    ensures
        0 < chunk(firmware, index).len() <= CHUNK_CAPACITY,
{
}

/// A node that has the first chunks of a program and takes over the next one
/// writes it right behind them: it then has one chunk more of the program.
pub proof fn law_chunks_are_flashed_in_place(
    firmware: Seq<u8>,
    index: usize,
    seq_num: u64,
    node: BlModel,
    now: Instant,
)
    requires
        index < chunk_count(firmware),
        index <= u32::MAX,
        node.pages() == index,
        node.comm_state.adopts(StateModel { seq_num, type_: chunk_message(firmware, index) }),
        node.can_receive(StateModel { seq_num, type_: chunk_message(firmware, index) }, now),
    ensures
        ({
            let heard = StateModel { seq_num, type_: chunk_message(firmware, index) };
            &&& node.action(heard) matches ActionModel::WritePage { address, data } && address
                == APP_ADDRESS + chunks(firmware, index as nat).len() && chunks(
                firmware,
                index as nat,
            ) + data == chunks(firmware, (index + 1) as nat)
            &&& node.received(heard, now).pages() == index + 1
        }),
{
    lemma_first_chunks(firmware, index as nat);
    assert(256 * index < firmware.len());
    assert(PAGE_SIZE == CHUNK_SIZE);
}

/// What an action adds to the program in flash.
pub open spec fn written(action: ActionModel) -> Seq<u8> {
    match action {
        ActionModel::WritePage { data, .. } => data,
        _ => Seq::empty(),
    }
}

/// A node when it has heard the first `n` chunks of a program in order, and
/// what it has written to flash by then.
pub open spec fn after_chunks(
    node: BlModel,
    firmware: Seq<u8>,
    seq_num: u64,
    n: nat,
    now: Instant,
) -> (BlModel, Seq<u8>)
    decreases n,
{
    if n == 0 {
        (node, Seq::empty())
    } else {
        let (before, memory) = after_chunks(node, firmware, seq_num, (n - 1) as nat, now);
        let heard = StateModel {
            seq_num: (seq_num + n - 1) as u64,
            type_: chunk_message(firmware, (n - 1) as usize),
        };
        (before.received(heard, now), memory + written(before.action(heard)))
    }
}

/// A node that hears the chunks of a program in order ends up with the program
/// in flash, the whole of it when it has heard all of them.
pub proof fn law_program_is_flashed(
    node: BlModel,
    firmware: Seq<u8>,
    seq_num: u64,
    n: nat,
    now: Instant,
)
    requires
        node.pages() == 0,
        node.comm_state.seq_num < seq_num,
        node.trickle_state.reset().can_begin(now),
        n <= chunk_count(firmware),
        seq_num + n <= u64::MAX,
        APP_ADDRESS + PAGE_SIZE * n <= u32::MAX,
    ensures
        after_chunks(node, firmware, seq_num, n, now).0.pages() == n,
        after_chunks(node, firmware, seq_num, n, now).1 == chunks(firmware, n),
        n == chunk_count(firmware) ==> after_chunks(node, firmware, seq_num, n, now).1 == firmware,
{
    lemma_chunks_are_heard(node, firmware, seq_num, n, now);
    law_chunks_make_up_the_program(firmware);
}

proof fn lemma_chunks_are_heard(
    node: BlModel,
    firmware: Seq<u8>,
    seq_num: u64,
    n: nat,
    now: Instant,
)
    requires
        node.pages() == 0,
        node.comm_state.seq_num < seq_num,
        node.trickle_state.reset().can_begin(now),
        n <= chunk_count(firmware),
        seq_num + n <= u64::MAX,
        APP_ADDRESS + PAGE_SIZE * n <= u32::MAX,
    ensures
        ({
            let (after, memory) = after_chunks(node, firmware, seq_num, n, now);
            &&& after.pages() == n
            &&& memory == chunks(firmware, n)
            &&& after.comm_state.seq_num < seq_num + n
            &&& after.trickle_state.reset().can_begin(now)
        }),
    decreases n,
{
    if n > 0 {
        let index = (n - 1) as usize;
        lemma_chunks_are_heard(node, firmware, seq_num, (n - 1) as nat, now);
        let (before, memory) = after_chunks(node, firmware, seq_num, (n - 1) as nat, now);
        let heard = StateModel {
            seq_num: (seq_num + n - 1) as u64,
            type_: chunk_message(firmware, index),
        };
        assert(before.comm_state.adopts(heard));
        law_chunks_are_flashed_in_place(firmware, index, heard.seq_num, before, now);
    }
}

/// The nodes are called back only when the slowest of them has the whole program.
pub proof fn law_program_is_complete_before_the_switch(m: FlasherModel, host: HostModel)
    requires
        m.outcome(host) is Ok,
        !(m.phase is SwitchToApp),
        m.advanced(host).phase is SwitchToApp,
    ensures
        host.comm_state.seq_num == m.seq_num,
        host.comm_state.type_ matches TypeModel::BlCodeProgress(progress) && progress.chunk_count
            == chunk_count(m.firmware),
{
}

/// Where the slowest node is not done, sending goes on with the first chunk
/// that it lacks, and each chunk gets twice the time.
pub proof fn law_sending_resumes_at_the_slowest_node(m: FlasherModel, host: HostModel)
    requires
        m.inv(),
        m.phase is Progress,
        m.outcome(host) is Ok,
        host.comm_state.type_->BlCodeProgress_0.chunk_count != chunk_count(m.firmware),
    ensures
        m.advanced(host).phase == Phase::Write(
            host.comm_state.type_->BlCodeProgress_0.chunk_count as usize,
        ),
        m.advanced(host).code_chunk_timeout_millis == 2 * m.code_chunk_timeout_millis,
        m.advanced(host).inv(),
{
}

/// The flasher when `steps` phases have ended well.
pub open spec fn phases_from(m: FlasherModel, host: HostModel, steps: nat) -> FlasherModel
    decreases steps,
{
    if steps == 0 {
        m
    } else {
        phases_from(m, host, (steps - 1) as nat).advanced(host)
    }
}

/// From the chunk where sending begins every chunk to the last is sent, in
/// order, before the nodes are asked how far they are.
pub proof fn law_every_chunk_is_sent(m: FlasherModel, host: HostModel, from: usize, steps: nat)
    requires
        m.inv(),
        m.phase == Phase::Write(from),
        from + steps <= chunk_count(m.firmware),
        chunk_count(m.firmware) <= usize::MAX,
    ensures
        phases_from(m, host, steps) == (FlasherModel {
            phase: if from + steps < chunk_count(m.firmware) {
                Phase::Write((from + steps) as usize)
            } else {
                Phase::Progress
            },
            ..m
        }),
    decreases steps,
{
    if steps > 0 {
        law_every_chunk_is_sent(m, host, from, (steps - 1) as nat);
    }
}

/// Each phase raises the sequence number, so that what it announces is taken
/// over by every node that agrees with the host.
pub proof fn law_announcements_are_news(m: FlasherModel, host: HostModel, now: Instant)
    requires
        m.can_begin(host, now),
    ensures
        host.comm_state.adopts(m.announcement(host, now)),
{
}

/// In the phase that looks for nodes, a ping that came back with any latency
/// tells of nodes: flashing goes on with the first chunk, and the latency is
/// reported in milliseconds. Without any latency there are no nodes.
pub proof fn law_answered_ping_finds_the_nodes(m: FlasherModel, host: HostModel, ping: PingModel)
    requires
        m.phase is Ping,
        host.comm_state.seq_num == m.seq_num,
        host.comm_state.type_ == TypeModel::BlBroadcastPing(ping),
    ensures
        ping.latency_micros > 0 ==> m.outcome(host) == Ok::<Report, FlashError>(
            Report::Latency { millis: (ping.latency_micros / 1000) as u64 },
        ) && m.advanced(host) == (FlasherModel { phase: Phase::Write(0), ..m }),
        ping.latency_micros == 0 ==> m.outcome(host) == Err::<Report, FlashError>(
            FlashError::NoDevices,
        ),
{
}

/// While nodes are looked for, chunks are sent and progress is asked for, any
/// other sequence number in the network means that others talk, and fails. The
/// phases that only call the nodes never fail.
pub proof fn law_other_traffic_fails(m: FlasherModel, host: HostModel)
    ensures
        (m.phase is Ping || m.phase is Write || m.phase is Progress) && host.comm_state.seq_num
            != m.seq_num ==> m.outcome(host) == Err::<Report, FlashError>(FlashError::OtherTraffic),
        m.phase is Ping && host.comm_state.seq_num == m.seq_num
            && !(host.comm_state.type_ is BlBroadcastPing) ==> m.outcome(host) == Err::<
            Report,
            FlashError,
        >(FlashError::TypeChanged),
        m.phase is Progress && host.comm_state.seq_num == m.seq_num
            && !(host.comm_state.type_ is BlCodeProgress) ==> m.outcome(host) == Err::<
            Report,
            FlashError,
        >(FlashError::TypeChanged),
        m.phase is Write && host.comm_state.seq_num == m.seq_num ==> m.outcome(host) == Ok::<
            Report,
            FlashError,
        >(Report::Nothing),
        m.phase is SwitchToBootloader || m.phase is SwitchToApp || m.phase is Done ==> m.outcome(
            host,
        ) == Ok::<Report, FlashError>(Report::Nothing),
{
}

/// Asked for progress, a count of all chunks ends the sending. A lesser one makes
/// it go on with the first chunk that is missing, each chunk with twice the time.
/// A larger one cannot be, and time that can no longer be waited for fails.
pub proof fn law_progress_decides_what_follows(
    m: FlasherModel,
    host: HostModel,
    report: BlCodeProgress,
)
    requires
        m.phase is Progress,
        host.comm_state.seq_num == m.seq_num,
        host.comm_state.type_ == TypeModel::BlCodeProgress(report),
        m.code_chunk_timeout_millis <= 18_446_744_073_709_551_615_999,
    ensures
        report.chunk_count == chunk_count(m.firmware) ==> m.outcome(host) == Ok::<
            Report,
            FlashError,
        >(Report::Progress { chunk_count: report.chunk_count }) && m.advanced(host)
            == (FlasherModel { phase: Phase::SwitchToApp, ..m }),
        report.chunk_count != chunk_count(m.firmware) && 2 * m.code_chunk_timeout_millis
            > 18_446_744_073_709_551_615_999 ==> m.outcome(host) == Err::<Report, FlashError>(
            FlashError::TimeoutOverflow,
        ),
        report.chunk_count > chunk_count(m.firmware) && 2 * m.code_chunk_timeout_millis
            <= 18_446_744_073_709_551_615_999 ==> m.outcome(host) == Err::<Report, FlashError>(
            FlashError::ProgressOutOfRange,
        ),
        report.chunk_count < chunk_count(m.firmware) && 2 * m.code_chunk_timeout_millis
            <= 18_446_744_073_709_551_615_999 ==> m.outcome(host) == Ok::<Report, FlashError>(
            Report::Progress { chunk_count: report.chunk_count },
        ) && m.advanced(host) == (FlasherModel {
            phase: Phase::Write(report.chunk_count as usize),
            code_chunk_timeout_millis: (2 * m.code_chunk_timeout_millis) as u128,
            ..m
        }),
{
}

/// The phases follow each other: the call into the bootloaders, the ping, every
/// chunk, the question for progress, and the call back into the program.
pub proof fn law_phases_follow_each_other(m: FlasherModel, host: HostModel)
    requires
        m.inv(),
    ensures
        m.phase is SwitchToBootloader ==> m.advanced(host) == (FlasherModel {
            phase: Phase::Ping,
            ..m
        }),
        m.phase is Ping ==> m.advanced(host) == (FlasherModel { phase: Phase::Write(0), ..m }),
        m.phase matches Phase::Write(index) ==> 256 * (index + 1) < m.firmware.len() && index
            < usize::MAX ==> m.advanced(host) == (FlasherModel {
            phase: Phase::Write((index + 1) as usize),
            ..m
        }),
        m.phase matches Phase::Write(index) ==> 256 * (index + 1) >= m.firmware.len() ==> m.advanced(
            host,
        ) == (FlasherModel { phase: Phase::Progress, ..m }),
        m.phase is SwitchToApp ==> m.advanced(host) == (FlasherModel { phase: Phase::Done, ..m }),
        m.phase is Done ==> m.advanced(host) == m,
{
}

/// The network is told of a phase with a number that is higher than any it has:
/// by eight to call the nodes over other traffic, and otherwise by one. The
/// flasher goes by that number from then on.
pub proof fn law_phase_is_announced(m: FlasherModel, host: HostModel, now: Instant)
    requires
        host.comm_state.seq_num <= u64::MAX - 8,
    ensures
        m.phase is SwitchToBootloader ==> m.announcement(host, now).seq_num
            == host.comm_state.seq_num + 8,
        !(m.phase is SwitchToBootloader) ==> m.announcement(host, now).seq_num
            == host.comm_state.seq_num + 1,
        m.begun(host).seq_num == m.announcement(host, now).seq_num,
        m.begun(host) == (FlasherModel { seq_num: m.begun(host).seq_num, ..m }),
        m.phase is Write ==> m.timeout_millis() == m.code_chunk_timeout_millis,
        !(m.phase is Write) ==> m.timeout_millis() == 1_000,
        1024 <= host.trickle_state.params.i_min_micros < 0x400_0000_0000 && now.nanos + 1000
            * host.trickle_state.params.i_min_micros <= u128::MAX ==> m.can_begin(host, now),
{
}

/// What the network is told: nodes are called by the initial states of the two
/// sides, a ping starts without latency or age, a chunk is sent with its place in
/// the program, and progress is asked for with the count of a whole program.
pub proof fn law_phase_tells_what_it_is_for(m: FlasherModel, host: HostModel, now: Instant)
    ensures
        m.phase is SwitchToBootloader ==> m.announcement(host, now).type_ is BlInit,
        m.phase is SwitchToApp ==> m.announcement(host, now).type_ is Init,
        m.phase is Ping ==> {
            let told = m.announcement(host, now).type_;
            &&& told is BlBroadcastPing
            &&& told->BlBroadcastPing_0.latency_micros == 0
            &&& told->BlBroadcastPing_0.age_micros.age_micros == 0
            &&& told->BlBroadcastPing_0.age_micros.last_update == Some(now)
            &&& told->BlBroadcastPing_0.data.len() == 256
            &&& forall|i: int|
                0 <= i < 256 ==> #[trigger] told->BlBroadcastPing_0.data[i] == 0xAA
        },
        m.phase matches Phase::Write(index) ==> {
            let told = m.announcement(host, now).type_;
            &&& told is BlCodeWrite
            &&& told->BlCodeWrite_0.hardware_id == 1
            &&& chunk_count(m.firmware) <= u32::MAX ==> told->BlCodeWrite_0.chunk_count
                == chunk_count(m.firmware)
            &&& index <= u32::MAX ==> told->BlCodeWrite_0.chunk_index == index
            &&& 256 * (index + 1) <= m.firmware.len() ==> told->BlCodeWrite_0.chunk_data
                == m.firmware.subrange(256 * index, 256 * (index + 1))
            &&& 256 * index <= m.firmware.len() < 256 * (index + 1)
                ==> told->BlCodeWrite_0.chunk_data == m.firmware.skip(256 * index)
        },
        m.phase is Progress ==> {
            let told = m.announcement(host, now).type_;
            &&& told is BlCodeProgress
            &&& told->BlCodeProgress_0.hardware_id == 1
            &&& chunk_count(m.firmware) <= u32::MAX ==> told->BlCodeProgress_0.chunk_count
                == chunk_count(m.firmware)
        },
{
    if let Phase::Write(index) = m.phase {
        if 256 * index <= m.firmware.len() < 256 * (index + 1) {
            assert(m.firmware.skip(256 * index) =~= m.firmware.subrange(
                256 * index,
                m.firmware.len() as int,
            ));
        }
    }
}

/// A program takes as many chunks of 256 bytes as hold it, and no more.
pub proof fn law_chunks_are_just_enough(firmware: Seq<u8>, index: int)
    ensures
        256 * chunk_count(firmware) >= firmware.len(),
        256 * (chunk_count(firmware) - 1) < firmware.len(),
        0 <= index && 256 * (index + 1) <= firmware.len() ==> chunk(firmware, index).len() == 256,
{
}

/// While the nodes are called into their bootloaders a state with a higher number
/// is talked over with one that is higher still. Any other news are taken over
/// and spread at once.
pub proof fn law_news_are_talked_over_or_taken_over(
    m: FlasherModel,
    host: HostModel,
    newer: StateModel,
    now: Instant,
)
    requires
        host.comm_state.seq_num <= u64::MAX - 8,
        now.nanos + 1000 * host.trickle_state.params.i_min_micros <= u128::MAX,
    ensures
        m.phase is SwitchToBootloader && newer.seq_num > m.seq_num ==> m.host_met(
            host,
            newer,
            now,
        ).comm_state == (StateModel {
            seq_num: (host.comm_state.seq_num + 8) as u64,
            type_: TypeModel::BlInit,
        }) && m.met(host, newer).seq_num == host.comm_state.seq_num + 8,
        !(m.phase is SwitchToBootloader) || newer.seq_num <= m.seq_num ==> m.host_met(
            host,
            newer,
            now,
        ).comm_state == newer && m.met(host, newer) == m,
        m.met(host, newer).phase == m.phase,
        m.host_met(host, newer, now).trickle_state.interval_micros
            == host.trickle_state.params.i_min_micros,
        m.host_met(host, newer, now).trickle_state.interval_expiry.nanos == now.nanos + 1000
            * host.trickle_state.params.i_min_micros,
        m.host_met(host, newer, now).trickle_state.counter == 0,
        1024 <= host.trickle_state.params.i_min_micros < 0x400_0000_0000 ==> m.can_meet(
            host,
            newer,
            now,
        ),
{
}

} // verus!
