//! The state that the nodes of a network agree on.

use vstd::prelude::*;

use crate::chunk::Chunk;
use crate::time::Instant;
use crate::trickle::{weigh_u64, TrickleOrd, TrickleOrdering, TrickleParams};

verus! {

/// The most bytes that a packet takes.
pub const MAX_PACKET_LEN: usize = 300;

pub const COMM_TYPE_INIT: u8 = 0x00;

pub const COMM_TYPE_UNKNOWN: u8 = 0x7F;

pub const COMM_TYPE_BL_INIT: u8 = 0x80;

pub const COMM_TYPE_BL_BROADCAST_PING: u8 = 0x81;

pub const COMM_TYPE_BL_CODE_WRITE: u8 = 0x82;

pub const COMM_TYPE_BL_CODE_PROGRESS: u8 = 0x83;

pub const COMM_TYPE_BL_UNKNOWN: u8 = 0xFF;

/// The bit that marks the discriminants of the bootloader.
pub const COMM_TYPE_BL_BITMASK: u8 = 0x80;

/// The trickle parameters of the network.
pub fn trickle_params() -> (params: TrickleParams)
    ensures
        params.i_min_micros == 10_000,
        params.i_max_micros == 10_000_000,
        params.k == 1,
        params.valid(),
{
    TrickleParams { i_min_micros: 10_000, i_max_micros: 10_000_000, k: 1 }
}

/// How long ago something happened, kept up across nodes.
#[derive(Clone, Copy, PartialEq, Eq, Structural, Debug)]
pub struct AgeMicros {
    pub age_micros: u64,
    /// When `age_micros` was right, on this node. It is not sent.
    pub last_update: Option<Instant>,
}

impl AgeMicros {
    /// The microseconds that `age_micros` is behind at `now`.
    pub open spec fn behind(self, now: Instant) -> u64 {
        match self.last_update {
            Some(last) => now.micros_since_spec(last),
            None => 0,
        }
    }

    /// Whether the age at `now` can be told.
    pub open spec fn can_update(self, now: Instant) -> bool {
        self.age_micros + self.behind(now) <= u64::MAX
    }

    /// The age brought up to `now`. What is left of a microsecond stays with
    /// the time of the update, so that it counts at the next one.
    pub open spec fn updated(self, now: Instant) -> AgeMicros {
        AgeMicros {
            age_micros: (self.age_micros + self.behind(now)) as u64,
            last_update: match self.last_update {
                Some(last) => Some(last.plus(self.behind(now) as int)),
                None => Some(now),
            },
        }
    }

    /// The age as a node receives it.
    pub open spec fn received(self) -> AgeMicros {
        AgeMicros { age_micros: self.age_micros, last_update: None }
    }

    /// Whether the age at `now` fits its field.
    pub fn fits(&self, now: Instant) -> (fits: bool)
        ensures
            fits == self.can_update(now),
    {
        match self.last_update {
            Some(last_update) => now.micros_since(last_update) <= u64::MAX - self.age_micros,
            None => true,
        }
    }

    /// Update the age_micros field so it is accurate for the given current time
    pub fn update(&mut self, now: Instant)
        requires
            old(self).can_update(now),
        ensures
            *final(self) == old(self).updated(now),
    {
        match self.last_update {
            Some(last_update) => {
                let elapsed_micros: u64 = now.micros_since(last_update);
                self.age_micros = self.age_micros + elapsed_micros;
                // Only whole microseconds were counted: go on from there.
                self.last_update = Some(last_update.add_micros(elapsed_micros));
            },
            None => {
                // First update--assume this is done quickly after we receive the age
                self.last_update = Some(now);
            },
        }
    }
}

impl Default for AgeMicros {
    fn default() -> (age: AgeMicros)
        ensures
            age == (AgeMicros { age_micros: 0, last_update: None }),
    {
        AgeMicros { age_micros: 0, last_update: None }
    }
}

/// A message that measures how long it takes to reach the whole network.
#[derive(Debug)]
pub struct BlBroadcastPing {
    pub latency_micros: u64,
    pub age_micros: AgeMicros,
    pub data: Chunk,
}

/// What a ping holds.
pub struct PingModel {
    pub latency_micros: u64,
    pub age_micros: AgeMicros,
    pub data: Seq<u8>,
}

impl View for BlBroadcastPing {
    type V = PingModel;

    open spec fn view(&self) -> PingModel {
        PingModel {
            latency_micros: self.latency_micros,
            age_micros: self.age_micros,
            data: self.data@,
        }
    }
}

impl PingModel {
    /// A slower ping is the newer one. Its age and data do not matter.
    pub open spec fn considered(self, other: PingModel) -> TrickleOrdering {
        crate::trickle::weigh(self.latency_micros as int, other.latency_micros as int)
    }
}

impl BlBroadcastPing {
    /// Brings the age up to `now`.
    pub fn update(&mut self, now: Instant)
        requires
            old(self).age_micros.can_update(now),
        ensures
            final(self)@ == (PingModel {
                age_micros: old(self).age_micros.updated(now),
                ..old(self)@
            }),
    {
        self.age_micros.update(now);
    }

    /// How `other`, which was heard, stands to `self`.
    pub fn consider(&self, other: &BlBroadcastPing) -> (ordering: TrickleOrdering)
        ensures
            ordering == self@.considered(other@),
    {
        weigh_u64(self.latency_micros, other.latency_micros)
    }
}

impl Clone for BlBroadcastPing {
    fn clone(&self) -> (copy: BlBroadcastPing)
        ensures
            copy@ == self@,
    {
        BlBroadcastPing {
            latency_micros: self.latency_micros,
            age_micros: self.age_micros,
            data: self.data.clone(),
        }
    }
}

impl Default for BlBroadcastPing {
    fn default() -> (ping: BlBroadcastPing)
        ensures
            ping@ == (PingModel {
                latency_micros: 0,
                age_micros: AgeMicros { age_micros: 0, last_update: None },
                data: Seq::empty(),
            }),
    {
        BlBroadcastPing { latency_micros: 0, age_micros: AgeMicros::default(), data: Chunk::new() }
    }
}

/// A piece of a program to be written to flash.
#[derive(Debug)]
pub struct BlCodeWrite {
    pub hardware_id: u32,
    pub chunk_count: u32,
    pub chunk_index: u32,
    pub chunk_data: Chunk,
}

/// What a code write holds.
pub struct CodeWriteModel {
    pub hardware_id: u32,
    pub chunk_count: u32,
    pub chunk_index: u32,
    pub chunk_data: Seq<u8>,
}

impl View for BlCodeWrite {
    type V = CodeWriteModel;

    open spec fn view(&self) -> CodeWriteModel {
        CodeWriteModel {
            hardware_id: self.hardware_id,
            chunk_count: self.chunk_count,
            chunk_index: self.chunk_index,
            chunk_data: self.chunk_data@,
        }
    }
}

/// How the heard bytes `theirs` stand to the held bytes `ours` in
/// lexicographic order, a proper beginning of a string being less than it.
pub open spec fn weigh_bytes(ours: Seq<u8>, theirs: Seq<u8>) -> TrickleOrdering
    decreases ours.len(),
{
    if ours.len() == 0 || theirs.len() == 0 {
        crate::trickle::weigh(ours.len() as int, theirs.len() as int)
    } else {
        crate::trickle::weigh(ours[0] as int, theirs[0] as int).or_else(
            weigh_bytes(ours.drop_first(), theirs.drop_first()),
        )
    }
}

/// How the heard bytes `theirs` stand to the held bytes `ours`.
fn weigh_slices(ours: &[u8], theirs: &[u8]) -> (ordering: TrickleOrdering)
    ensures
        ordering == weigh_bytes(ours@, theirs@),
{
    let mut i: usize = 0;
    assert(ours@.skip(0) =~= ours@ && theirs@.skip(0) =~= theirs@);
    while i < ours.len() && i < theirs.len()
        invariant
            i <= ours@.len(),
            i <= theirs@.len(),
            weigh_bytes(ours@, theirs@) == weigh_bytes(ours@.skip(i as int), theirs@.skip(i as int)),
        decreases ours@.len() - i,
    {
        let step = weigh_u64(ours[i] as u64, theirs[i] as u64);
        assert(ours@.skip(i as int).drop_first() =~= ours@.skip(i + 1));
        assert(theirs@.skip(i as int).drop_first() =~= theirs@.skip(i + 1));
        match step {
            TrickleOrdering::Consistent => {},
            _ => {
                return step;
            },
        }
        i = i + 1;
    }
    weigh_u64((ours.len() - i) as u64, (theirs.len() - i) as u64)
}

impl CodeWriteModel {
    /// The fields are weighed in turn, the first that differs decides.
    pub open spec fn considered(self, other: CodeWriteModel) -> TrickleOrdering {
        crate::trickle::weigh(self.hardware_id as int, other.hardware_id as int).or_else(
            crate::trickle::weigh(self.chunk_count as int, other.chunk_count as int),
        ).or_else(crate::trickle::weigh(self.chunk_index as int, other.chunk_index as int)).or_else(
            weigh_bytes(self.chunk_data, other.chunk_data),
        )
    }
}

impl BlCodeWrite {
    /// How `other`, which was heard, stands to `self`.
    pub fn consider(&self, other: &BlCodeWrite) -> (ordering: TrickleOrdering)
        ensures
            ordering == self@.considered(other@),
    {
        if self.hardware_id != other.hardware_id {
            weigh_u64(self.hardware_id as u64, other.hardware_id as u64)
        } else if self.chunk_count != other.chunk_count {
            weigh_u64(self.chunk_count as u64, other.chunk_count as u64)
        } else if self.chunk_index != other.chunk_index {
            weigh_u64(self.chunk_index as u64, other.chunk_index as u64)
        } else {
            weigh_slices(self.chunk_data.as_slice(), other.chunk_data.as_slice())
        }
    }
}

impl Clone for BlCodeWrite {
    fn clone(&self) -> (copy: BlCodeWrite)
        ensures
            copy@ == self@,
    {
        BlCodeWrite {
            hardware_id: self.hardware_id,
            chunk_count: self.chunk_count,
            chunk_index: self.chunk_index,
            chunk_data: self.chunk_data.clone(),
        }
    }
}

/// How many chunks of a program have been written by the node that is furthest behind.
#[derive(Clone, Copy, PartialEq, Eq, Structural, Debug)]
pub struct BlCodeProgress {
    pub hardware_id: u32,
    pub chunk_count: u32,
}

impl BlCodeProgress {
    /// Lower chunk counts compare as "greater" so the network will reach a consensus
    /// corresponding to the device with the least complete firmware update
    pub open spec fn considered(self, other: BlCodeProgress) -> TrickleOrdering {
        crate::trickle::weigh(self.hardware_id as int, other.hardware_id as int).or_else(
            crate::trickle::weigh(other.chunk_count as int, self.chunk_count as int),
        )
    }

    /// Whether a report is not outdone by another: it is on a larger hardware
    /// id, or on the same one with no larger a count.
    pub open spec fn prevails_over(self, other: BlCodeProgress) -> bool {
        self.hardware_id > other.hardware_id || (self.hardware_id == other.hardware_id
            && self.chunk_count <= other.chunk_count)
    }

    /// How `other`, which was heard, stands to `self`.
    pub fn consider(&self, other: &BlCodeProgress) -> (ordering: TrickleOrdering)
        ensures
            ordering == self.considered(*other),
    {
        if self.hardware_id != other.hardware_id {
            weigh_u64(self.hardware_id as u64, other.hardware_id as u64)
        } else {
            weigh_u64(other.chunk_count as u64, self.chunk_count as u64)
        }
    }
}

/// What the network is about.
#[derive(Debug)]
pub enum CommType {
    /// The application has just started.
    Init,
    /// Something that the application may know.
    Unknown,
    /// The bootloader has just started.
    BlInit,
    BlBroadcastPing(BlBroadcastPing),
    BlCodeWrite(BlCodeWrite),
    BlCodeProgress(BlCodeProgress),
    /// Something that a bootloader may know.
    BlUnknown,
}

/// What a `CommType` holds.
pub enum TypeModel {
    Init,
    Unknown,
    BlInit,
    BlBroadcastPing(PingModel),
    BlCodeWrite(CodeWriteModel),
    BlCodeProgress(BlCodeProgress),
    BlUnknown,
}

impl View for CommType {
    type V = TypeModel;

    open spec fn view(&self) -> TypeModel {
        match *self {
            CommType::Init => TypeModel::Init,
            CommType::Unknown => TypeModel::Unknown,
            CommType::BlInit => TypeModel::BlInit,
            CommType::BlBroadcastPing(data) => TypeModel::BlBroadcastPing(data@),
            CommType::BlCodeWrite(data) => TypeModel::BlCodeWrite(data@),
            CommType::BlCodeProgress(data) => TypeModel::BlCodeProgress(data),
            CommType::BlUnknown => TypeModel::BlUnknown,
        }
    }
}

impl TypeModel {
    /// The number that stands for the variant on the wire.
    pub open spec fn discriminant(self) -> u8 {
        match self {
            TypeModel::Init => COMM_TYPE_INIT,
            TypeModel::Unknown => COMM_TYPE_UNKNOWN,
            TypeModel::BlInit => COMM_TYPE_BL_INIT,
            TypeModel::BlBroadcastPing(_) => COMM_TYPE_BL_BROADCAST_PING,
            TypeModel::BlCodeWrite(_) => COMM_TYPE_BL_CODE_WRITE,
            TypeModel::BlCodeProgress(_) => COMM_TYPE_BL_CODE_PROGRESS,
            TypeModel::BlUnknown => COMM_TYPE_BL_UNKNOWN,
        }
    }

    /// Whether the variant belongs to the bootloader.
    pub open spec fn is_bl(self) -> bool {
        self.discriminant() >= COMM_TYPE_BL_BITMASK
    }

    /// Whether `self` can be brought up to `now`.
    pub open spec fn can_update(self, now: Instant) -> bool {
        self matches TypeModel::BlBroadcastPing(data) ==> data.age_micros.can_update(now)
    }

    /// `self` brought up to `now`.
    pub open spec fn updated(self, now: Instant) -> TypeModel {
        match self {
            TypeModel::BlBroadcastPing(data) => TypeModel::BlBroadcastPing(
                PingModel { age_micros: data.age_micros.updated(now), ..data },
            ),
            other => other,
        }
    }

    /// How `other` stands to `self`. Two of one kind are weighed by what they
    /// hold; the catch-all of a kind is consistent with everything of that
    /// kind; otherwise the discriminant decides.
    pub open spec fn considered(self, other: TypeModel) -> TrickleOrdering {
        match (self, other) {
            (TypeModel::BlBroadcastPing(s), TypeModel::BlBroadcastPing(o)) => s.considered(o),
            (TypeModel::BlCodeWrite(s), TypeModel::BlCodeWrite(o)) => s.considered(o),
            (TypeModel::BlCodeProgress(s), TypeModel::BlCodeProgress(o)) => s.considered(o),
            _ => if (other is Unknown && !self.is_bl()) || (other is BlUnknown && self.is_bl()) {
                TrickleOrdering::Consistent
            } else {
                crate::trickle::weigh(self.discriminant() as int, other.discriminant() as int)
            },
        }
    }
}

impl CommType {
    /// The number that stands for the variant on the wire.
    pub fn discriminant(&self) -> (discriminant: u8)
        ensures
            discriminant == self@.discriminant(),
    {
        match self {
            CommType::Init => COMM_TYPE_INIT,
            CommType::Unknown => COMM_TYPE_UNKNOWN,
            CommType::BlInit => COMM_TYPE_BL_INIT,
            CommType::BlBroadcastPing(_) => COMM_TYPE_BL_BROADCAST_PING,
            CommType::BlCodeWrite(_) => COMM_TYPE_BL_CODE_WRITE,
            CommType::BlCodeProgress(_) => COMM_TYPE_BL_CODE_PROGRESS,
            CommType::BlUnknown => COMM_TYPE_BL_UNKNOWN,
        }
    }

    /// Whether the variant belongs to the bootloader.
    pub fn is_bl(&self) -> (is_bl: bool)
        ensures
            is_bl == self@.is_bl(),
    {
        let discriminant: u8 = self.discriminant();
        assert((discriminant & 0x80u8 != 0) == (discriminant >= 0x80)) by (bit_vector);
        (discriminant & COMM_TYPE_BL_BITMASK) != 0
    }

    /// Whether what depends on time fits its field at `now`.
    pub fn fits(&self, now: Instant) -> (fits: bool)
        ensures
            fits == self@.can_update(now),
    {
        match self {
            CommType::BlBroadcastPing(data) => data.age_micros.fits(now),
            _ => true,
        }
    }

    /// Brings what depends on time up to `now`.
    pub fn update(&mut self, now: Instant)
        requires
            old(self)@.can_update(now),
        ensures
            final(self)@ == old(self)@.updated(now),
    {
        match self {
            CommType::BlBroadcastPing(data) => {
                data.update(now);
            },
            _ => {},
        }
    }

    /// What is sent to the north, south, east and west.
    pub fn propagate(&self) -> (sent: [CommType; 4])
        ensures
            forall|i: int| 0 <= i < 4 ==> (#[trigger] sent@[i])@ == self@,
    {
        [self.clone(), self.clone(), self.clone(), self.clone()]
    }

    /// How `other`, which was heard, stands to `self`.
    pub fn consider(&self, other: &CommType) -> (ordering: TrickleOrdering)
        ensures
            ordering == self@.considered(other@),
    {
        match (self, other) {
            (CommType::BlBroadcastPing(s), CommType::BlBroadcastPing(o)) => s.consider(o),
            (CommType::BlCodeWrite(s), CommType::BlCodeWrite(o)) => s.consider(o),
            (CommType::BlCodeProgress(s), CommType::BlCodeProgress(o)) => s.consider(o),
            (s, CommType::Unknown) if !s.is_bl() => TrickleOrdering::Consistent,
            (s, CommType::BlUnknown) if s.is_bl() => TrickleOrdering::Consistent,
            (s, o) => weigh_u64(s.discriminant() as u64, o.discriminant() as u64),
        }
    }
}

impl Clone for CommType {
    fn clone(&self) -> (copy: CommType)
        ensures
            copy@ == self@,
    {
        match self {
            CommType::Init => CommType::Init,
            CommType::Unknown => CommType::Unknown,
            CommType::BlInit => CommType::BlInit,
            CommType::BlBroadcastPing(data) => CommType::BlBroadcastPing(data.clone()),
            CommType::BlCodeWrite(data) => CommType::BlCodeWrite(data.clone()),
            CommType::BlCodeProgress(data) => CommType::BlCodeProgress(*data),
            CommType::BlUnknown => CommType::BlUnknown,
        }
    }
}

impl Default for CommType {
    fn default() -> (type_: CommType)
        ensures
            type_@ == TypeModel::Init,
    {
        CommType::Init
    }
}

/// The state of a node: what the network is about, and a number that grows
/// with every new subject.
#[derive(Debug)]
pub struct CommState {
    pub seq_num: u64,
    pub type_: CommType,
}

/// What a state holds.
pub struct StateModel {
    pub seq_num: u64,
    pub type_: TypeModel,
}

impl View for CommState {
    type V = StateModel;

    open spec fn view(&self) -> StateModel {
        StateModel { seq_num: self.seq_num, type_: self.type_@ }
    }
}

impl StateModel {
    /// Whether the state can be brought up to `now`.
    pub open spec fn can_update(self, now: Instant) -> bool {
        self.type_.can_update(now)
    }

    /// The state brought up to `now`.
    pub open spec fn updated(self, now: Instant) -> StateModel {
        StateModel { seq_num: self.seq_num, type_: self.type_.updated(now) }
    }

    /// How `other` stands to `self`: by the sequence number, then by the type.
    pub open spec fn considered(self, other: StateModel) -> TrickleOrdering {
        crate::trickle::weigh(self.seq_num as int, other.seq_num as int).or_else(
            self.type_.considered(other.type_),
        )
    }

    /// Whether a node in state `self` that hears `other` takes it over.
    pub open spec fn adopts(self, other: StateModel) -> bool {
        self.considered(other) is Greater
    }
}

impl TrickleOrd for CommState {
    open spec fn considered(&self, other: &CommState) -> TrickleOrdering {
        self@.considered(other@)
    }

    fn consider(&self, other: &CommState) -> (ordering: TrickleOrdering) {
        let consider_seq_num = weigh_u64(self.seq_num, other.seq_num);
        let consider_type = || -> (ordering: TrickleOrdering)
            ensures
                ordering == self.type_@.considered(other.type_@),
            { self.type_.consider(&other.type_) };
        consider_seq_num.then_with(consider_type)
    }
}

impl CommState {
    /// Whether what depends on time fits its field at `now`.
    pub fn fits(&self, now: Instant) -> (fits: bool)
        ensures
            fits == self@.can_update(now),
    {
        self.type_.fits(now)
    }

    /// Brings what depends on time up to `now`.
    pub fn update(&mut self, now: Instant)
        requires
            old(self)@.can_update(now),
        ensures
            final(self)@ == old(self)@.updated(now),
    {
        self.type_.update(now);
    }

    /// What is sent to the north, south, east and west.
    pub fn propagate(&self) -> (sent: [CommState; 4])
        ensures
            forall|i: int| 0 <= i < 4 ==> (#[trigger] sent@[i])@ == self@,
    {
        [self.clone(), self.clone(), self.clone(), self.clone()]
    }
}

impl Clone for CommState {
    fn clone(&self) -> (copy: CommState)
        ensures
            copy@ == self@,
    {
        CommState { seq_num: self.seq_num, type_: self.type_.clone() }
    }
}

impl Default for CommState {
    fn default() -> (state: CommState)
        ensures
            state@ == (StateModel { seq_num: 0, type_: TypeModel::Init }),
    {
        CommState { seq_num: 0, type_: CommType::default() }
    }
}

/// Bytes are consistent with themselves and with no others, and what is newer
/// one way round is older the other.
pub proof fn law_bytes_are_ordered(ours: Seq<u8>, theirs: Seq<u8>)
    ensures
        weigh_bytes(ours, theirs) is Consistent <==> ours == theirs,
        weigh_bytes(ours, theirs) is Greater <==> weigh_bytes(theirs, ours) is Less,
    decreases ours.len(),
{
    if ours.len() == 0 || theirs.len() == 0 {
        if ours.len() == theirs.len() {
            assert(ours =~= theirs);
        }
    } else {
        law_bytes_are_ordered(ours.drop_first(), theirs.drop_first());
        if ours[0] == theirs[0] && ours.drop_first() == theirs.drop_first() {
            assert(ours =~= seq![ours[0]] + ours.drop_first());
            assert(theirs =~= seq![theirs[0]] + theirs.drop_first());
        }
    }
}

proof fn lemma_bytes_are_transitive(a: Seq<u8>, b: Seq<u8>, c: Seq<u8>)
    requires
        weigh_bytes(a, b) is Greater,
        weigh_bytes(b, c) is Greater,
    ensures
        weigh_bytes(a, c) is Greater,
    decreases a.len(),
{
    if a.len() > 0 && b.len() > 0 && c.len() > 0 {
        if a[0] == b[0] && b[0] == c[0] {
            lemma_bytes_are_transitive(a.drop_first(), b.drop_first(), c.drop_first());
        }
    }
}

/// A node is consistent with its own state.
pub proof fn law_state_is_consistent_with_itself(m: StateModel)
    ensures
        m.considered(m) is Consistent,
{
    match m.type_ {
        TypeModel::BlCodeWrite(data) => {
            law_bytes_are_ordered(data.chunk_data, data.chunk_data);
        },
        _ => {},
    }
}

/// A state that one node takes over from another is outdated in the eyes of
/// the other: two nodes never swap their states.
pub proof fn law_adoption_is_one_way(a: StateModel, b: StateModel)
    requires
        a.adopts(b),
    ensures
        b.considered(a) is Less,
{
    match (a.type_, b.type_) {
        (TypeModel::BlCodeWrite(s), TypeModel::BlCodeWrite(o)) => {
            law_bytes_are_ordered(s.chunk_data, o.chunk_data);
        },
        _ => {},
    }
}

/// A node that takes over one state after another would have taken over the
/// last at once: no sequence of adoptions leads back to where it began.
pub proof fn law_adoption_is_transitive(a: StateModel, b: StateModel, c: StateModel)
    requires
        a.adopts(b),
        b.adopts(c),
    ensures
        a.adopts(c),
{
    match (a.type_, b.type_, c.type_) {
        (TypeModel::BlCodeWrite(x), TypeModel::BlCodeWrite(y), TypeModel::BlCodeWrite(z)) => {
            law_bytes_are_ordered(x.chunk_data, y.chunk_data);
            law_bytes_are_ordered(y.chunk_data, z.chunk_data);
            if weigh_bytes(x.chunk_data, y.chunk_data) is Greater && weigh_bytes(
                y.chunk_data,
                z.chunk_data,
            ) is Greater {
                lemma_bytes_are_transitive(x.chunk_data, y.chunk_data, z.chunk_data);
            }
        },
        _ => {},
    }
}

/// Once two nodes have heard each other neither has anything left to take over.
pub proof fn law_exchange_settles(a: StateModel, b: StateModel)
    ensures
        ({
            let a_after = if a.adopts(b) {
                b
            } else {
                a
            };
            let b_after = if b.adopts(a) {
                a
            } else {
                b
            };
            !a_after.adopts(b_after) && !b_after.adopts(a_after)
        }),
{
    law_state_is_consistent_with_itself(a);
    law_state_is_consistent_with_itself(b);
    if a.adopts(b) {
        law_adoption_is_one_way(a, b);
    }
    if b.adopts(a) {
        law_adoption_is_one_way(b, a);
    }
}

/// The state that a node ends up with when it hears some states in turn.
pub open spec fn after_hearing(m: StateModel, heard: Seq<StateModel>) -> StateModel
    decreases heard.len(),
{
    if heard.len() == 0 {
        m
    } else {
        let before = after_hearing(m, heard.drop_last());
        if before.adopts(heard.last()) {
            heard.last()
        } else {
            before
        }
    }
}

/// Whatever a node hears, and in whatever order, it ends up with a state that
/// none of them supersedes, nor the one that it began with.
pub proof fn law_newest_state_is_kept(m: StateModel, heard: Seq<StateModel>)
    ensures
        !after_hearing(m, heard).adopts(m),
        forall|i: int|
            0 <= i < heard.len() ==> !after_hearing(m, heard).adopts(#[trigger] heard[i]),
    decreases heard.len(),
{
    let end = after_hearing(m, heard);
    if heard.len() == 0 {
        law_state_is_consistent_with_itself(m);
    } else {
        let earlier = heard.drop_last();
        let before = after_hearing(m, earlier);
        law_newest_state_is_kept(m, earlier);
        law_state_is_consistent_with_itself(heard.last());
        if before.adopts(heard.last()) && end.adopts(m) {
            law_adoption_is_transitive(before, end, m);
        }
        assert forall|i: int| 0 <= i < heard.len() implies !end.adopts(#[trigger] heard[i]) by {
            if i < earlier.len() {
                assert(heard[i] == earlier[i]);
                if before.adopts(heard.last()) && end.adopts(heard[i]) {
                    law_adoption_is_transitive(before, end, heard[i]);
                }
            }
        }
    }
}

/// A report of progress.
pub open spec fn progress_state(seq_num: u64, hardware_id: u32, chunk_count: u32) -> StateModel {
    StateModel {
        seq_num,
        type_: TypeModel::BlCodeProgress(BlCodeProgress { hardware_id, chunk_count }),
    }
}

/// Whoever hears reports ends up with one on the largest hardware id, and with
/// the least count among those: the one of the node that is furthest behind.
pub proof fn law_consensus_is_the_least_progress(
    seq_num: u64,
    ours: BlCodeProgress,
    theirs: Seq<BlCodeProgress>,
) -> (consensus: BlCodeProgress)
    ensures
        after_hearing(
            progress_state(seq_num, ours.hardware_id, ours.chunk_count),
            theirs.map_values(
                |report: BlCodeProgress|
                    progress_state(seq_num, report.hardware_id, report.chunk_count),
            ),
        ) == progress_state(seq_num, consensus.hardware_id, consensus.chunk_count),
        consensus.prevails_over(ours),
        forall|i: int|
            0 <= i < theirs.len() ==> consensus.prevails_over(#[trigger] theirs[i]),
        consensus == ours || theirs.contains(consensus),
    decreases theirs.len(),
{
    let state = |report: BlCodeProgress|
        progress_state(seq_num, report.hardware_id, report.chunk_count);
    let heard = theirs.map_values(state);
    if theirs.len() == 0 {
        ours
    } else {
        let earlier = theirs.drop_last();
        let before = law_consensus_is_the_least_progress(seq_num, ours, earlier);
        assert(heard.drop_last() =~= earlier.map_values(state));
        assert(heard.last() == state(theirs.last()));
        assert(forall|i: int| 0 <= i < earlier.len() ==> #[trigger] theirs[i] == earlier[i]);
        if !before.prevails_over(theirs.last()) {
            assert(theirs[theirs.len() - 1] == theirs.last());
            theirs.last()
        } else {
            if before != ours {
                let k = choose|k: int| 0 <= k < earlier.len() && earlier[k] == before;
                assert(theirs[k] == before);
            }
            before
        }
    }
}

/// A larger sequence number wins, whatever the two states are about.
pub proof fn law_new_subject_wins(a: StateModel, b: StateModel)
    requires
        a.seq_num < b.seq_num,
    ensures
        a.adopts(b),
        b.considered(a) is Less,
{
}

/// Time passes without error: an age that was brought up to date on the way
/// is the same as one that was brought up to date only at the end.
pub proof fn law_age_has_no_drift(age: AgeMicros, last: Instant, halfway: Instant, now: Instant)
    requires
        age.last_update == Some(last),
        last.nanos <= halfway.nanos <= now.nanos,
        now.nanos - last.nanos < 1000 * (u64::MAX + 1),
        age.can_update(now),
    ensures
        age.can_update(halfway),
        age.updated(halfway).can_update(now),
        age.updated(halfway).updated(now) == age.updated(now),
{
    let first = (halfway.nanos - last.nanos) / 1000;
    let total = (now.nanos - last.nanos) / 1000;
    let between = last.plus(first);
    assert(0 <= first <= total <= u64::MAX);
    assert(age.behind(halfway) == first);
    assert(age.behind(now) == total);
    assert(between.nanos == last.nanos + 1000 * first);
    assert((now.nanos - between.nanos) / 1000 == total - first);
    assert(age.updated(halfway).behind(now) == total - first);
}

/// An age that is brought up to date grows by the whole microseconds that
/// have passed, and less than a microsecond is left for the next time.
pub proof fn law_age_counts_every_microsecond(age: AgeMicros, last: Instant, now: Instant)
    requires
        age.last_update == Some(last),
        last.nanos <= now.nanos,
        now.nanos - last.nanos < 1000 * (u64::MAX + 1),
        age.can_update(now),
    ensures
        age.updated(now).age_micros - age.age_micros == (now.nanos - last.nanos) / 1000,
        age.updated(now).last_update matches Some(l) && now.nanos - 1000 < l.nanos <= now.nanos,
{
}

/// A ping.
pub open spec fn ping_state(seq_num: u64, ping: PingModel) -> StateModel {
    StateModel { seq_num, type_: TypeModel::BlBroadcastPing(ping) }
}

/// Of two pings with one sequence number the slower is taken over, however long
/// the two took, and whatever else they hold.
pub proof fn law_slower_ping_is_taken_over(seq_num: u64, ours: PingModel, theirs: PingModel)
    ensures
        ping_state(seq_num, ours).adopts(ping_state(seq_num, theirs)) <==> theirs.latency_micros
            > ours.latency_micros,
        ping_state(seq_num, ours).considered(ping_state(seq_num, theirs)) is Consistent
            <==> theirs.latency_micros == ours.latency_micros,
        ping_state(seq_num, ours).considered(ping_state(seq_num, theirs)) is Less
            <==> theirs.latency_micros < ours.latency_micros,
        ours.considered(theirs) is Greater <==> theirs.latency_micros > ours.latency_micros,
        ours.considered(theirs) is Less <==> theirs.latency_micros < ours.latency_micros,
{
}

/// Whoever hears pings with one sequence number, in whatever order, ends up with
/// the slowest of them and its own: the one of the node that is furthest away.
pub proof fn law_slowest_ping_prevails(seq_num: u64, ours: PingModel, theirs: Seq<PingModel>) -> (
    slowest: PingModel)
    ensures
        after_hearing(
            ping_state(seq_num, ours),
            theirs.map_values(|ping: PingModel| ping_state(seq_num, ping)),
        ) == ping_state(seq_num, slowest),
        slowest.latency_micros >= ours.latency_micros,
        forall|i: int|
            0 <= i < theirs.len() ==> slowest.latency_micros >= (
            #[trigger] theirs[i]).latency_micros,
        slowest == ours || theirs.contains(slowest),
    decreases theirs.len(),
{
    let state = |ping: PingModel| ping_state(seq_num, ping);
    let heard = theirs.map_values(state);
    if theirs.len() == 0 {
        ours
    } else {
        let earlier = theirs.drop_last();
        let before = law_slowest_ping_prevails(seq_num, ours, earlier);
        assert(heard.drop_last() =~= earlier.map_values(state));
        assert(heard.last() == state(theirs.last()));
        assert(forall|i: int| 0 <= i < earlier.len() ==> #[trigger] theirs[i] == earlier[i]);
        law_slower_ping_is_taken_over(seq_num, before, theirs.last());
        if theirs.last().latency_micros > before.latency_micros {
            assert(theirs[theirs.len() - 1] == theirs.last());
            theirs.last()
        } else {
            if before != ours {
                let k = choose|k: int| 0 <= k < earlier.len() && earlier[k] == before;
                assert(theirs[k] == before);
            }
            before
        }
    }
}

/// Of two reports with one sequence number the one on the larger hardware id is
/// taken over, and on the same hardware the one with the lesser count.
pub proof fn law_lesser_progress_is_taken_over(
    seq_num: u64,
    ours: BlCodeProgress,
    theirs: BlCodeProgress,
)
    ensures
        ({
            let order = progress_state(seq_num, ours.hardware_id, ours.chunk_count).considered(
                progress_state(seq_num, theirs.hardware_id, theirs.chunk_count),
            );
            &&& order == ours.considered(theirs)
            &&& theirs.hardware_id > ours.hardware_id ==> order is Greater
            &&& theirs.hardware_id < ours.hardware_id ==> order is Less
            &&& theirs.hardware_id == ours.hardware_id ==> {
                &&& order is Greater <==> theirs.chunk_count < ours.chunk_count
                &&& order is Consistent <==> theirs.chunk_count == ours.chunk_count
                &&& order is Less <==> theirs.chunk_count > ours.chunk_count
            }
        }),
{
}

/// Byte strings are weighed as in a dictionary: behind a common beginning the
/// first byte that differs decides, and a string is newer than its beginnings.
pub proof fn law_bytes_are_weighed_as_in_a_dictionary(
    common: Seq<u8>,
    ours: u8,
    our_rest: Seq<u8>,
    theirs: u8,
    their_rest: Seq<u8>,
)
    ensures
        theirs > ours ==> weigh_bytes(
            common + seq![ours] + our_rest,
            common + seq![theirs] + their_rest,
        ) is Greater,
        theirs < ours ==> weigh_bytes(
            common + seq![ours] + our_rest,
            common + seq![theirs] + their_rest,
        ) is Less,
        weigh_bytes(common, common + seq![theirs] + their_rest) is Greater,
        weigh_bytes(common + seq![ours] + our_rest, common) is Less,
        weigh_bytes(common, common) is Consistent,
    decreases common.len(),
{
    let a = common + seq![ours] + our_rest;
    let b = common + seq![theirs] + their_rest;
    if common.len() > 0 {
        let rest = common.drop_first();
        law_bytes_are_weighed_as_in_a_dictionary(rest, ours, our_rest, theirs, their_rest);
        assert(a.drop_first() =~= rest + seq![ours] + our_rest);
        assert(b.drop_first() =~= rest + seq![theirs] + their_rest);
    }
}

/// Of two chunks with one sequence number the hardware id decides first, then
/// the number of chunks, then which chunk it is, and only then what it holds.
pub proof fn law_chunks_are_weighed_in_turn(seq_num: u64, a: CodeWriteModel, b: CodeWriteModel)
    ensures
        ({
            let order = (StateModel { seq_num, type_: TypeModel::BlCodeWrite(a) }).considered(
                StateModel { seq_num, type_: TypeModel::BlCodeWrite(b) },
            );
            &&& order == a.considered(b)
            &&& b.hardware_id > a.hardware_id ==> order is Greater
            &&& b.hardware_id < a.hardware_id ==> order is Less
            &&& b.hardware_id == a.hardware_id ==> {
                &&& b.chunk_count > a.chunk_count ==> order is Greater
                &&& b.chunk_count < a.chunk_count ==> order is Less
                &&& b.chunk_count == a.chunk_count ==> {
                    &&& b.chunk_index > a.chunk_index ==> order is Greater
                    &&& b.chunk_index < a.chunk_index ==> order is Less
                    &&& b.chunk_index == a.chunk_index ==> order == weigh_bytes(
                        a.chunk_data,
                        b.chunk_data,
                    )
                }
            }
        }),
{
}

/// Each kind of state has a number of its own on the wire, and the bootloader
/// those from 0x80 on.
pub proof fn law_kinds_are_numbered(type_: TypeModel)
    ensures
        type_ is Init <==> type_.discriminant() == 0x00,
        type_ is Unknown <==> type_.discriminant() == 0x7F,
        type_ is BlInit <==> type_.discriminant() == 0x80,
        type_ is BlBroadcastPing <==> type_.discriminant() == 0x81,
        type_ is BlCodeWrite <==> type_.discriminant() == 0x82,
        type_ is BlCodeProgress <==> type_.discriminant() == 0x83,
        type_ is BlUnknown <==> type_.discriminant() == 0xFF,
        type_.is_bl() <==> !(type_ is Init) && !(type_ is Unknown),
{
}

/// Of two states of different kinds with one sequence number the kind with the
/// larger number is the newer, except that the catch-all of a side agrees with
/// everything on that side. States of a kind that holds nothing agree.
pub proof fn law_kinds_are_weighed(a: StateModel, b: StateModel)
    requires
        a.seq_num == b.seq_num,
    ensures
        ({
            let (ours, theirs) = (a.type_.discriminant(), b.type_.discriminant());
            let agrees = (b.type_ is Unknown && ours < 0x80) || (b.type_ is BlUnknown && ours
                >= 0x80);
            &&& agrees ==> a.considered(b) is Consistent
            &&& !agrees && theirs > ours ==> a.considered(b) is Greater
            &&& !agrees && theirs < ours ==> a.considered(b) is Less
            &&& theirs == ours && !(a.type_ is BlBroadcastPing) && !(a.type_ is BlCodeWrite)
                && !(a.type_ is BlCodeProgress) ==> a.considered(b) is Consistent
        }),
{
    law_kinds_are_numbered(a.type_);
    law_kinds_are_numbered(b.type_);
}

/// The sequence number comes first: a later one is taken over and an earlier one
/// is outdated, whatever the two states are about.
pub proof fn law_sequence_number_comes_first(a: StateModel, b: StateModel)
    ensures
        b.seq_num > a.seq_num ==> a.considered(b) is Greater && a.adopts(b),
        b.seq_num < a.seq_num ==> a.considered(b) is Less && !a.adopts(b),
        a.adopts(b) <==> a.considered(b) is Greater,
        a.adopts(b) ==> b.seq_num >= a.seq_num,
        a.considered(b) is Consistent ==> b.seq_num == a.seq_num,
{
}

/// An age that has just come in begins to count at its first update, which is
/// always possible.
pub proof fn law_age_begins_to_count(age: AgeMicros, now: Instant)
    requires
        age.last_update is None,
    ensures
        age.can_update(now),
        age.updated(now).age_micros == age.age_micros,
        age.updated(now).last_update == Some(now),
{
}

/// An age grows by what has passed since it was right, in whole microseconds,
/// and can do so exactly as long as it fits its field. Time does not run back.
pub proof fn law_age_grows_with_time(age: AgeMicros, last: Instant, now: Instant)
    requires
        age.last_update == Some(last),
        now.nanos - last.nanos < 1000 * (u64::MAX + 1),
    ensures
        now.nanos < last.nanos ==> age.can_update(now) && age.updated(now) == age,
        now.nanos >= last.nanos ==> {
            let passed = (now.nanos - last.nanos) / 1000;
            &&& age.can_update(now) <==> age.age_micros + passed <= u64::MAX
            &&& age.can_update(now) ==> age.updated(now).age_micros == age.age_micros + passed
            &&& age.can_update(now) ==> age.updated(now).last_update is Some && age.updated(
                now,
            ).last_update->0.nanos == last.nanos + 1000 * passed
        },
{
}

/// Time only goes by for a ping, and only its age changes with it. The age is
/// sent as it is, without the time at which it was right.
pub proof fn law_only_pings_grow_old(state: StateModel, now: Instant)
    ensures
        state.updated(now).seq_num == state.seq_num,
        !(state.type_ is BlBroadcastPing) ==> state.can_update(now) && state.updated(now) == state,
        state.type_ matches TypeModel::BlBroadcastPing(ping) ==> {
            &&& state.can_update(now) <==> ping.age_micros.can_update(now)
            &&& state.updated(now).type_ matches TypeModel::BlBroadcastPing(after)
                && after.latency_micros == ping.latency_micros && after.data == ping.data
                && after.age_micros == ping.age_micros.updated(now)
            &&& ping.age_micros.received().age_micros == ping.age_micros.age_micros
            &&& ping.age_micros.received().last_update is None
        },
{
}

} // verus!
