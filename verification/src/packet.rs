//! Packets: how a state travels over a link.
//!
//! The state is written field by field, a checksum is put behind it, and the
//! whole is framed so that a zero byte stands at its end and nowhere else.

use vstd::arithmetic::power2::lemma2_to64;
use vstd::prelude::*;
use vstd::slice::slice_subrange;

use crate::chunk::CHUNK_CAPACITY;
use crate::framer::{law_packet_is_found, FramerModel};
use crate::link::{
    checksum_bzip2, cobs_frame, cobs_unframed, crc32_bzip2, delimited, frame_cobs, is_code,
    law_one_damaged_byte_changes_the_checksum, unframe_cobs,
};
use crate::proto::{
    AgeMicros, BlBroadcastPing, BlCodeProgress, BlCodeWrite, CodeWriteModel, CommState, CommType,
    PingModel, StateModel, TypeModel, COMM_TYPE_BL_BITMASK, COMM_TYPE_BL_BROADCAST_PING,
    COMM_TYPE_BL_CODE_PROGRESS, COMM_TYPE_BL_CODE_WRITE, COMM_TYPE_BL_INIT, COMM_TYPE_INIT,
    MAX_PACKET_LEN,
};
use crate::wire::{
    law_broken_byte_string_is_refused, law_broken_integer_is_refused,
    law_le_bytes_read_back, law_le_word_reads_back, law_sized_bytes_read_back,
    law_varint_reads_back, le_bytes, le_word, lemma_varint_len, push_le, put_sized_bytes,
    put_varint, sized_bytes, take_chunk, take_sized_bytes, take_u32, take_u64, take_varint, varint,
    word_from_le, PacketError,
};

verus! {

impl PingModel {
    /// The fields on the wire. The time of the last update stays behind.
    pub open spec fn wire(self) -> Seq<u8> {
        varint(self.latency_micros as nat) + varint(self.age_micros.age_micros as nat)
            + sized_bytes(self.data)
    }
}

impl CodeWriteModel {
    /// The fields on the wire.
    pub open spec fn wire(self) -> Seq<u8> {
        varint(self.hardware_id as nat) + varint(self.chunk_count as nat) + varint(
            self.chunk_index as nat,
        ) + sized_bytes(self.chunk_data)
    }
}

impl BlCodeProgress {
    /// The fields on the wire.
    pub open spec fn wire(self) -> Seq<u8> {
        varint(self.hardware_id as nat) + varint(self.chunk_count as nat)
    }
}

impl TypeModel {
    /// What follows the discriminant on the wire.
    pub open spec fn content(self) -> Seq<u8> {
        match self {
            TypeModel::BlBroadcastPing(data) => data.wire(),
            TypeModel::BlCodeWrite(data) => data.wire(),
            TypeModel::BlCodeProgress(data) => data.wire(),
            _ => Seq::empty(),
        }
    }

    /// Whether the bytes in it are few enough for a chunk.
    pub open spec fn valid(self) -> bool {
        match self {
            TypeModel::BlBroadcastPing(data) => data.data.len() <= CHUNK_CAPACITY,
            TypeModel::BlCodeWrite(data) => data.chunk_data.len() <= CHUNK_CAPACITY,
            _ => true,
        }
    }

    /// What a receiver makes of it.
    pub open spec fn received(self) -> TypeModel {
        match self {
            TypeModel::BlBroadcastPing(data) => TypeModel::BlBroadcastPing(
                PingModel { age_micros: data.age_micros.received(), ..data },
            ),
            other => other,
        }
    }
}

impl StateModel {
    /// Whether the bytes in it are few enough for a chunk.
    pub open spec fn valid(self) -> bool {
        self.type_.valid()
    }

    /// What a receiver makes of it.
    pub open spec fn received(self) -> StateModel {
        StateModel { seq_num: self.seq_num, type_: self.type_.received() }
    }

    /// The fields on the wire.
    pub open spec fn payload(self) -> Seq<u8> {
        varint(self.seq_num as nat) + varint(self.type_.discriminant() as nat)
            + self.type_.content()
    }

    /// The packet that carries the state.
    pub open spec fn packet(self) -> Seq<u8> {
        sealed(self.payload())
    }

    /// The packet behind a zero.
    pub open spec fn transmission(self) -> Seq<u8> {
        seq![0u8] + self.packet()
    }
}

/// A payload behind which its checksum was put, in a frame.
pub open spec fn sealed(payload: Seq<u8>) -> Seq<u8> {
    cobs_frame(payload + le_bytes(crc32_bzip2(payload)))
}

/// Reads the fields of a ping.
pub open spec fn ping_decoded(s: Seq<u8>) -> Result<PingModel, PacketError> {
    match take_varint(s, 64) {
        Err(e) => Err(e),
        Ok((latency, s)) => match take_varint(s, 64) {
            Err(e) => Err(e),
            Ok((age, s)) => match take_sized_bytes(s) {
                Err(e) => Err(e),
                Ok((data, _)) => Ok(
                    PingModel {
                        latency_micros: latency as u64,
                        age_micros: AgeMicros { age_micros: age as u64, last_update: None },
                        data,
                    },
                ),
            },
        },
    }
}

/// Reads the fields of a code write.
pub open spec fn code_write_decoded(s: Seq<u8>) -> Result<CodeWriteModel, PacketError> {
    match take_varint(s, 32) {
        Err(e) => Err(e),
        Ok((hardware_id, s)) => match take_varint(s, 32) {
            Err(e) => Err(e),
            Ok((chunk_count, s)) => match take_varint(s, 32) {
                Err(e) => Err(e),
                Ok((chunk_index, s)) => match take_sized_bytes(s) {
                    Err(e) => Err(e),
                    Ok((chunk_data, _)) => Ok(
                        CodeWriteModel {
                            hardware_id: hardware_id as u32,
                            chunk_count: chunk_count as u32,
                            chunk_index: chunk_index as u32,
                            chunk_data,
                        },
                    ),
                },
            },
        },
    }
}

/// Reads the fields of a code progress.
pub open spec fn code_progress_decoded(s: Seq<u8>) -> Result<BlCodeProgress, PacketError> {
    match take_varint(s, 32) {
        Err(e) => Err(e),
        Ok((hardware_id, s)) => match take_varint(s, 32) {
            Err(e) => Err(e),
            Ok((chunk_count, _)) => Ok(
                BlCodeProgress { hardware_id: hardware_id as u32, chunk_count: chunk_count as u32 },
            ),
        },
    }
}

/// Reads what follows the discriminant. A discriminant that is not known
/// stands for the catch-all of its kind, whatever follows it.
pub open spec fn content_decoded(discriminant: nat, s: Seq<u8>) -> Result<TypeModel, PacketError> {
    if discriminant > u8::MAX {
        Err(PacketError::SerdeDeCustom)
    } else if discriminant == COMM_TYPE_INIT {
        Ok(TypeModel::Init)
    } else if discriminant == COMM_TYPE_BL_INIT {
        Ok(TypeModel::BlInit)
    } else if discriminant == COMM_TYPE_BL_BROADCAST_PING {
        match ping_decoded(s) {
            Ok(data) => Ok(TypeModel::BlBroadcastPing(data)),
            Err(e) => Err(e),
        }
    } else if discriminant == COMM_TYPE_BL_CODE_WRITE {
        match code_write_decoded(s) {
            Ok(data) => Ok(TypeModel::BlCodeWrite(data)),
            Err(e) => Err(e),
        }
    } else if discriminant == COMM_TYPE_BL_CODE_PROGRESS {
        match code_progress_decoded(s) {
            Ok(data) => Ok(TypeModel::BlCodeProgress(data)),
            Err(e) => Err(e),
        }
    } else if discriminant < COMM_TYPE_BL_BITMASK {
        Ok(TypeModel::Unknown)
    } else {
        Ok(TypeModel::BlUnknown)
    }
}

/// The state that a payload holds. What follows it is not looked at.
pub open spec fn payload_decoded(s: Seq<u8>) -> Result<StateModel, PacketError> {
    match take_varint(s, 64) {
        Err(e) => Err(e),
        Ok((seq_num, s)) => match take_varint(s, 32) {
            Err(e) => Err(e),
            Ok((discriminant, s)) => match content_decoded(discriminant, s) {
                Err(e) => Err(e),
                Ok(type_) => Ok(StateModel { seq_num: seq_num as u64, type_ }),
            },
        },
    }
}

/// What an application reads of a payload: it knows nothing of what
/// bootloaders talk about, and does not look at what follows the discriminant.
pub open spec fn app_payload_decoded(s: Seq<u8>) -> Result<StateModel, PacketError> {
    match take_varint(s, 64) {
        Err(e) => Err(e),
        Ok((seq_num, s)) => match take_varint(s, 32) {
            Err(e) => Err(e),
            Ok((discriminant, _)) => if discriminant > u8::MAX {
                Err(PacketError::SerdeDeCustom)
            } else {
                Ok(
                    StateModel {
                        seq_num: seq_num as u64,
                        type_: if discriminant == COMM_TYPE_INIT {
                            TypeModel::Init
                        } else if discriminant < COMM_TYPE_BL_BITMASK {
                            TypeModel::Unknown
                        } else {
                            TypeModel::BlUnknown
                        },
                    },
                )
            },
        },
    }
}

/// The payload in the bytes of a frame, where the checksum of all but the last
/// four of them is `crc`.
pub open spec fn checked_payload(unframed: Seq<u8>, crc: u32) -> Result<Seq<u8>, PacketError> {
    if unframed.len() < 4 {
        Err(PacketError::DeserializeUnexpectedEnd)
    } else if crc != le_word(unframed.skip(unframed.len() - 4)) {
        Err(PacketError::DeserializeBadCrc)
    } else {
        Ok(unframed.take(unframed.len() - 4))
    }
}

/// The state in the bytes of a frame, where the checksum of all but the last
/// four of them is `crc`.
pub open spec fn checked_decoded(unframed: Seq<u8>, crc: u32) -> Result<StateModel, PacketError> {
    match checked_payload(unframed, crc) {
        Err(e) => Err(e),
        Ok(payload) => payload_decoded(payload),
    }
}

/// What an application reads of the bytes of a frame, where the checksum of all
/// but the last four of them is `crc`.
pub open spec fn app_checked_decoded(unframed: Seq<u8>, crc: u32) -> Result<
    StateModel,
    PacketError,
> {
    match checked_payload(unframed, crc) {
        Err(e) => Err(e),
        Ok(payload) => app_payload_decoded(payload),
    }
}

/// The state that a packet carries.
pub open spec fn packet_decoded(s: Seq<u8>) -> Result<StateModel, PacketError> {
    match cobs_unframed(s) {
        None => Err(PacketError::DeserializeBadEncoding),
        Some(unframed) => checked_decoded(
            unframed,
            crc32_bzip2(unframed.take(unframed.len() - 4)),
        ),
    }
}

/// What an application reads of a packet.
pub open spec fn app_packet_decoded(s: Seq<u8>) -> Result<StateModel, PacketError> {
    match cobs_unframed(s) {
        None => Err(PacketError::DeserializeBadEncoding),
        Some(unframed) => app_checked_decoded(
            unframed,
            crc32_bzip2(unframed.take(unframed.len() - 4)),
        ),
    }
}

/// Whether a packet in which one byte was replaced is found to be damaged.
/// Its delimiter and the codes of its frame are left out: with another code
/// the frame may break up into other bytes altogether.
pub open spec fn damage_is_noticed(packet: Seq<u8>) -> bool {
    forall|i: int, b: u8|
        0 <= i < packet.len() - 1 && !is_code(packet, 0, i) && b != 0 && b != packet[i] ==> {
            &&& packet_decoded(#[trigger] packet.update(i, b)) == Err::<StateModel, PacketError>(
                PacketError::DeserializeBadCrc,
            )
            &&& app_packet_decoded(packet.update(i, b)) == Err::<StateModel, PacketError>(
                PacketError::DeserializeBadCrc,
            )
        }
}

proof fn lemma_damage_is_noticed(payload: Seq<u8>, k: int, b: u8)
    requires
        0 <= k < payload.len() + 4,
        b != (payload + le_bytes(crc32_bzip2(payload)))[k],
    ensures
        ({
            let damaged = (payload + le_bytes(crc32_bzip2(payload))).update(k, b);
            checked_payload(damaged, crc32_bzip2(damaged.take(damaged.len() - 4))) == Err::<
                Seq<u8>,
                PacketError,
            >(PacketError::DeserializeBadCrc)
        }),
{
    let crc = crc32_bzip2(payload);
    let damaged = (payload + le_bytes(crc)).update(k, b);
    let n = damaged.len() - 4;
    law_le_bytes_read_back(crc);
    if k < n {
        assert(damaged.take(n) =~= payload.update(k, b));
        assert(damaged.skip(n) =~= le_bytes(crc));
        law_one_damaged_byte_changes_the_checksum(payload, k, b);
    } else {
        assert(damaged.take(n) =~= payload);
        let word = damaged.skip(n);
        assert(word[k - n] == b);
        law_le_word_reads_back(word);
    }
}

/// Whether a decoder came to the given outcome.
pub open spec fn is_outcome(
    decoded: Result<CommState, PacketError>,
    outcome: Result<StateModel, PacketError>,
) -> bool {
    match outcome {
        Ok(m) => decoded matches Ok(state) && state@ == m,
        Err(e) => decoded matches Err(error) && error == e,
    }
}

fn append_varint(bytes: &mut Vec<u8>, value: u64)
    ensures
        final(bytes)@ == old(bytes)@ + varint(value as nat),
{
    let digits = put_varint(value);
    bytes.extend_from_slice(digits.as_slice());
    assert(bytes@ =~= old(bytes)@ + varint(value as nat));
}

fn append_sized_bytes(bytes: &mut Vec<u8>, value: &[u8])
    ensures
        final(bytes)@ == old(bytes)@ + sized_bytes(value@),
{
    let sized = put_sized_bytes(value);
    bytes.extend_from_slice(sized.as_slice());
    assert(bytes@ =~= old(bytes)@ + sized_bytes(value@));
}

fn append_content(bytes: &mut Vec<u8>, type_: &CommType)
    ensures
        final(bytes)@ == old(bytes)@ + type_@.content(),
        type_@.valid(),
{
    match type_ {
        CommType::BlBroadcastPing(data) => {
            append_varint(bytes, data.latency_micros);
            append_varint(bytes, data.age_micros.age_micros);
            append_sized_bytes(bytes, data.data.as_slice());
        },
        CommType::BlCodeWrite(data) => {
            append_varint(bytes, data.hardware_id as u64);
            append_varint(bytes, data.chunk_count as u64);
            append_varint(bytes, data.chunk_index as u64);
            append_sized_bytes(bytes, data.chunk_data.as_slice());
        },
        CommType::BlCodeProgress(data) => {
            append_varint(bytes, data.hardware_id as u64);
            append_varint(bytes, data.chunk_count as u64);
        },
        _ => {},
    }
    assert(bytes@ =~= old(bytes)@ + type_@.content());
}

fn decode_ping(s: &[u8]) -> (decoded: Result<BlBroadcastPing, PacketError>)
    ensures
        match ping_decoded(s@) {
            Ok(m) => decoded matches Ok(ping) && ping@ == m,
            Err(e) => decoded matches Err(error) && error == e,
        },
{
    match take_u64(s) {
        Err(e) => Err(e),
        Ok((latency_micros, s)) => match take_u64(s) {
            Err(e) => Err(e),
            Ok((age_micros, s)) => match take_chunk(s) {
                Err(e) => Err(e),
                Ok((data, _)) => Ok(
                    BlBroadcastPing {
                        latency_micros,
                        age_micros: AgeMicros { age_micros, last_update: None },
                        data,
                    },
                ),
            },
        },
    }
}

fn decode_code_write(s: &[u8]) -> (decoded: Result<BlCodeWrite, PacketError>)
    ensures
        match code_write_decoded(s@) {
            Ok(m) => decoded matches Ok(write) && write@ == m,
            Err(e) => decoded matches Err(error) && error == e,
        },
{
    match take_u32(s) {
        Err(e) => Err(e),
        Ok((hardware_id, s)) => match take_u32(s) {
            Err(e) => Err(e),
            Ok((chunk_count, s)) => match take_u32(s) {
                Err(e) => Err(e),
                Ok((chunk_index, s)) => match take_chunk(s) {
                    Err(e) => Err(e),
                    Ok((chunk_data, _)) => Ok(
                        BlCodeWrite { hardware_id, chunk_count, chunk_index, chunk_data },
                    ),
                },
            },
        },
    }
}

fn decode_code_progress(s: &[u8]) -> (decoded: Result<BlCodeProgress, PacketError>)
    ensures
        match code_progress_decoded(s@) {
            Ok(m) => decoded matches Ok(progress) && progress == m,
            Err(e) => decoded matches Err(error) && error == e,
        },
{
    match take_u32(s) {
        Err(e) => Err(e),
        Ok((hardware_id, s)) => match take_u32(s) {
            Err(e) => Err(e),
            Ok((chunk_count, _)) => Ok(BlCodeProgress { hardware_id, chunk_count }),
        },
    }
}

fn decode_content(discriminant: u32, s: &[u8]) -> (decoded: Result<CommType, PacketError>)
    ensures
        match content_decoded(discriminant as nat, s@) {
            Ok(m) => decoded matches Ok(type_) && type_@ == m,
            Err(e) => decoded matches Err(error) && error == e,
        },
{
    if discriminant > 0xFF {
        return Err(PacketError::SerdeDeCustom);
    }
    let d: u8 = discriminant as u8;
    if d == COMM_TYPE_INIT {
        Ok(CommType::Init)
    } else if d == COMM_TYPE_BL_INIT {
        Ok(CommType::BlInit)
    } else if d == COMM_TYPE_BL_BROADCAST_PING {
        match decode_ping(s) {
            Ok(data) => Ok(CommType::BlBroadcastPing(data)),
            Err(e) => Err(e),
        }
    } else if d == COMM_TYPE_BL_CODE_WRITE {
        match decode_code_write(s) {
            Ok(data) => Ok(CommType::BlCodeWrite(data)),
            Err(e) => Err(e),
        }
    } else if d == COMM_TYPE_BL_CODE_PROGRESS {
        match decode_code_progress(s) {
            Ok(data) => Ok(CommType::BlCodeProgress(data)),
            Err(e) => Err(e),
        }
    } else {
        assert((d & 0x80u8 == 0) == (d < 0x80)) by (bit_vector);
        if (d & COMM_TYPE_BL_BITMASK) == 0 {
            Ok(CommType::Unknown)
        } else {
            Ok(CommType::BlUnknown)
        }
    }
}

/// Puts a checksum behind a payload and frames both.
pub fn seal(payload: &[u8]) -> (packet: Vec<u8>)
    ensures
        packet@ == sealed(payload@),
        delimited(packet@),
        payload@.len() + 6 <= packet@.len() <= payload@.len() + 4 + (payload@.len() + 4) / 254 + 2,
        packet_decoded(packet@) == payload_decoded(payload@),
        app_packet_decoded(packet@) == app_payload_decoded(payload@),
        damage_is_noticed(packet@),
{
    let crc: u32 = checksum_bzip2(payload);
    let mut bytes: Vec<u8> = Vec::new();
    bytes.extend_from_slice(payload);
    push_le(&mut bytes, crc);
    assert(bytes@ =~= payload@ + le_bytes(crc));
    proof {
        assert(bytes@.take(bytes@.len() - 4) =~= payload@);
        assert(bytes@.skip(bytes@.len() - 4) =~= le_bytes(crc));
        law_le_bytes_read_back(crc);
    }
    let packet = frame_cobs(bytes.as_slice());
    proof {
        assert forall|i: int, b: u8|
            0 <= i < packet@.len() - 1 && !is_code(packet@, 0, i) && b != 0 && b
                != packet@[i] implies {
            &&& packet_decoded(#[trigger] packet@.update(i, b)) == Err::<StateModel, PacketError>(
                PacketError::DeserializeBadCrc,
            )
            &&& app_packet_decoded(packet@.update(i, b)) == Err::<StateModel, PacketError>(
                PacketError::DeserializeBadCrc,
            )
        } by {
            let k = choose|k: int|
                0 <= k < bytes@.len() && bytes@[k] == packet@[i] && cobs_unframed(
                    packet@.update(i, b),
                ) == Some(#[trigger] bytes@.update(k, b));
            lemma_damage_is_noticed(payload@, k, b);
        }
    }
    packet
}

fn checked_len(unframed: &[u8], crc: u32) -> (len: Result<usize, PacketError>)
    ensures
        match checked_payload(unframed@, crc) {
            Ok(payload) => len matches Ok(n) && n <= unframed@.len() && payload
                == unframed@.take(n as int),
            Err(e) => len matches Err(error) && error == e,
        },
{
    let sz: usize = unframed.len();
    if sz < 4 {
        return Err(PacketError::DeserializeUnexpectedEnd);
    }
    let expected_crc: u32 = word_from_le(
        unframed[sz - 4],
        unframed[sz - 3],
        unframed[sz - 2],
        unframed[sz - 1],
    );
    if crc != expected_crc {
        return Err(PacketError::DeserializeBadCrc);
    }
    Ok(sz - 4)
}

/// Takes a frame apart: how many bytes are in it, which then stand at the front
/// of the buffer, and the checksum of all but the last four of them.
fn unframe(s: &mut [u8]) -> (unframed: Option<(usize, u32)>)
    ensures
        final(s)@.len() == old(s)@.len(),
        unframed is Some <==> cobs_unframed(old(s)@) is Some,
        unframed matches Some((sz, crc)) ==> {
            &&& sz <= old(s)@.len()
            &&& cobs_unframed(old(s)@) == Some(final(s)@.take(sz as int))
            &&& sz >= 4 ==> crc == crc32_bzip2(final(s)@.take(sz - 4))
        },
{
    let sz: usize = match unframe_cobs(s) {
        Some(sz) => sz,
        None => {
            return None;
        },
    };
    if sz < 4 {
        return Some((sz, 0));
    }
    let data = slice_subrange(&*s, 0, sz - 4);
    assert(data@ =~= s@.take(sz - 4));
    Some((sz, checksum_bzip2(data)))
}

/// The state in the bytes of a frame, where `crc` was calculated from all but
/// the last four of them.
pub fn decode_checked(unframed: &[u8], crc: u32) -> (decoded: Result<CommState, PacketError>)
    ensures
        is_outcome(decoded, checked_decoded(unframed@, crc)),
{
    match checked_len(unframed, crc) {
        Err(e) => Err(e),
        Ok(len) => {
            let data = slice_subrange(unframed, 0, len);
            assert(data@ =~= unframed@.take(len as int));
            CommState::decode_payload(data)
        },
    }
}

/// What an application reads of the bytes of a frame, where `crc` was
/// calculated from all but the last four of them.
pub fn decode_app_checked(unframed: &[u8], crc: u32) -> (decoded: Result<CommState, PacketError>)
    ensures
        is_outcome(decoded, app_checked_decoded(unframed@, crc)),
{
    match checked_len(unframed, crc) {
        Err(e) => Err(e),
        Ok(len) => {
            let data = slice_subrange(unframed, 0, len);
            assert(data@ =~= unframed@.take(len as int));
            CommState::decode_app_payload(data)
        },
    }
}

impl CommState {
    /// The state that a payload holds. What follows it is not looked at.
    pub fn decode_payload(s: &[u8]) -> (decoded: Result<CommState, PacketError>)
        ensures
            is_outcome(decoded, payload_decoded(s@)),
    {
        match take_u64(s) {
            Err(e) => Err(e),
            Ok((seq_num, s)) => match take_u32(s) {
                Err(e) => Err(e),
                Ok((discriminant, s)) => match decode_content(discriminant, s) {
                    Err(e) => Err(e),
                    Ok(type_) => Ok(CommState { seq_num, type_ }),
                },
            },
        }
    }

    /// What an application reads of a payload: only which kind the state is of.
    pub fn decode_app_payload(s: &[u8]) -> (decoded: Result<CommState, PacketError>)
        ensures
            is_outcome(decoded, app_payload_decoded(s@)),
    {
        match take_u64(s) {
            Err(e) => Err(e),
            Ok((seq_num, s)) => match take_u32(s) {
                Err(e) => Err(e),
                Ok((discriminant, _)) => {
                    if discriminant > 0xFF {
                        return Err(PacketError::SerdeDeCustom);
                    }
                    let d: u8 = discriminant as u8;
                    assert((d & 0x80u8 == 0) == (d < 0x80)) by (bit_vector);
                    let type_ = if d == COMM_TYPE_INIT {
                        CommType::Init
                    } else if (d & COMM_TYPE_BL_BITMASK) == 0 {
                        CommType::Unknown
                    } else {
                        CommType::BlUnknown
                    };
                    Ok(CommState { seq_num, type_ })
                },
            },
        }
    }

    /// The fields on the wire.
    pub fn payload(&self) -> (payload: Vec<u8>)
        ensures
            payload@ == self@.payload(),
            self@.valid(),
    {
        let mut payload: Vec<u8> = Vec::new();
        append_varint(&mut payload, self.seq_num);
        append_varint(&mut payload, self.type_.discriminant() as u64);
        append_content(&mut payload, &self.type_);
        assert(payload@ =~= self@.payload());
        payload
    }

    /// The packet that carries the state. No state needs more than
    /// `MAX_PACKET_LEN` bytes, and a receiver finds the state in them.
    pub fn to_packet(&self) -> (packet: Vec<u8>)
        ensures
            packet@ == self@.packet(),
            delimited(packet@),
            2 <= packet@.len() <= MAX_PACKET_LEN,
            packet_decoded(packet@) == Ok::<StateModel, PacketError>(self@.received()),
            damage_is_noticed(packet@),
    {
        let payload = self.payload();
        proof {
            lemma_payload_len(self@);
            law_payload_reads_back(self@, Seq::empty());
            assert(payload@ + Seq::<u8>::empty() =~= payload@);
        }
        seal(payload.as_slice())
    }

    /// What is sent over a link: the packet behind a zero, which ends whatever
    /// the receiver may have heard before. Every receiver finds the packet in
    /// it, and the state in the packet.
    pub fn transmission(&self) -> (sent: Vec<u8>)
        ensures
            sent@ == self@.transmission(),
            sent@.len() <= MAX_PACKET_LEN + 1,
            forall|m: FramerModel| #[trigger]
                m.frames(sent@) == m.completed(0) + seq![self@.packet()],
            packet_decoded(self@.packet()) == Ok::<StateModel, PacketError>(self@.received()),
            damage_is_noticed(self@.packet()),
    {
        let packet = self.to_packet();
        let mut sent: Vec<u8> = Vec::new();
        sent.push(0);
        sent.extend_from_slice(packet.as_slice());
        proof {
            assert(sent@ =~= seq![0u8] + packet@);
            assert forall|m: FramerModel| #[trigger]
                m.frames(sent@) == m.completed(0) + seq![self@.packet()] by {
                law_packet_is_found(m, packet@);
            }
        }
        sent
    }

    /// Reads a packet. The buffer is used up: the bytes of the frame stand at its
    /// front, and what is behind them is left open.
    pub fn try_deserialize_packet(s: &mut [u8]) -> (decoded: Result<CommState, PacketError>)
        ensures
            is_outcome(decoded, packet_decoded(old(s)@)),
            final(s)@.len() == old(s)@.len(),
            cobs_unframed(old(s)@) matches Some(unframed) ==> final(s)@.take(unframed.len() as int)
                == unframed,
    {
        match unframe(s) {
            None => Err(PacketError::DeserializeBadEncoding),
            Some((sz, crc)) => {
                let unframed = slice_subrange(&*s, 0, sz);
                assert(unframed@ =~= s@.take(sz as int));
                assert(sz >= 4 ==> unframed@.take(sz - 4) =~= s@.take(sz - 4));
                decode_checked(unframed, crc)
            },
        }
    }

    /// Reads a packet as an application does. The buffer is used up: the bytes of
    /// the frame stand at its front, and what is behind them is left open.
    pub fn try_deserialize_app_packet(s: &mut [u8]) -> (decoded: Result<CommState, PacketError>)
        ensures
            is_outcome(decoded, app_packet_decoded(old(s)@)),
            final(s)@.len() == old(s)@.len(),
            cobs_unframed(old(s)@) matches Some(unframed) ==> final(s)@.take(unframed.len() as int)
                == unframed,
    {
        match unframe(s) {
            None => Err(PacketError::DeserializeBadEncoding),
            Some((sz, crc)) => {
                let unframed = slice_subrange(&*s, 0, sz);
                assert(unframed@ =~= s@.take(sz as int));
                assert(sz >= 4 ==> unframed@.take(sz - 4) =~= s@.take(sz - 4));
                decode_app_checked(unframed, crc)
            },
        }
    }

    /// Writes the packet that carries the state to the front of `s`, which has
    /// to be long enough, and returns that part of it.
    pub fn serialize_packet<'p>(&self, s: &'p mut [u8]) -> (packet: &'p mut [u8])
        requires
            self@.packet().len() <= old(s)@.len(),
        ensures
            packet@ == self@.packet(),
            delimited(packet@),
            2 <= packet@.len() <= MAX_PACKET_LEN,
            packet_decoded(packet@) == Ok::<StateModel, PacketError>(self@.received()),
            damage_is_noticed(packet@),
            final(s)@ == final(packet)@ + old(s)@.skip(packet@.len() as int),
    {
        let bytes = self.to_packet();
        let n: usize = bytes.len();
        let mut i: usize = 0;
        while i < n
            invariant
                i <= n,
                n == bytes@.len(),
                n <= s@.len(),
                s@.len() == old(s)@.len(),
                forall|j: int| 0 <= j < i ==> s@[j] == bytes@[j],
                forall|j: int| i <= j < s@.len() ==> s@[j] == old(s)@[j],
            decreases n - i,
        {
            s[i] = bytes[i];
            i = i + 1;
        }
        let (packet, rest) = s.split_at_mut(n);
        assert(packet@ =~= bytes@);
        assert(rest@ =~= old(s)@.skip(n as int));
        packet
    }

    /// Writes the packet that carries the state to the front of `s` and
    /// returns that part of it, or `None` where the packet does not fit.
    pub fn try_serialize_packet<'p>(&self, s: &'p mut [u8]) -> (packet: Option<&'p mut [u8]>)
        ensures
            packet is Some <==> self@.packet().len() <= old(s)@.len(),
            packet matches Some(p) ==> {
                &&& p@ == self@.packet()
                &&& packet_decoded(p@) == Ok::<StateModel, PacketError>(self@.received())
                &&& damage_is_noticed(p@)
                &&& final(s)@ == final(p)@ + old(s)@.skip(p@.len() as int)
            },
            packet is None ==> final(s)@ == old(s)@,
    {
        if self.to_packet().len() <= s.len() {
            Some(self.serialize_packet(s))
        } else {
            None
        }
    }
}

proof fn lemma_payload_len(m: StateModel)
    requires
        m.valid(),
    ensures
        m.payload().len() <= 290,
{
    lemma2_to64();
    lemma_varint_len(m.seq_num as nat, 64);
    lemma_varint_len(m.type_.discriminant() as nat, 8);
    match m.type_ {
        TypeModel::BlBroadcastPing(data) => {
            lemma_varint_len(data.latency_micros as nat, 64);
            lemma_varint_len(data.age_micros.age_micros as nat, 64);
            lemma_varint_len(data.data.len(), 9);
        },
        TypeModel::BlCodeWrite(data) => {
            lemma_varint_len(data.hardware_id as nat, 32);
            lemma_varint_len(data.chunk_count as nat, 32);
            lemma_varint_len(data.chunk_index as nat, 32);
            lemma_varint_len(data.chunk_data.len(), 9);
        },
        TypeModel::BlCodeProgress(data) => {
            lemma_varint_len(data.hardware_id as nat, 32);
            lemma_varint_len(data.chunk_count as nat, 32);
        },
        _ => {},
    }
}

proof fn lemma_content_reads_back(type_: TypeModel, tail: Seq<u8>)
    requires
        type_.valid(),
    ensures
        content_decoded(type_.discriminant() as nat, type_.content() + tail) == Ok::<
            TypeModel,
            PacketError,
        >(type_.received()),
{
    lemma2_to64();
    let s = type_.content() + tail;
    match type_ {
        TypeModel::BlBroadcastPing(data) => {
            let s2 = sized_bytes(data.data) + tail;
            let s1 = varint(data.age_micros.age_micros as nat) + s2;
            assert(s =~= varint(data.latency_micros as nat) + s1);
            law_varint_reads_back(data.latency_micros as nat, 64, s1);
            law_varint_reads_back(data.age_micros.age_micros as nat, 64, s2);
            law_sized_bytes_read_back(data.data, tail);
        },
        TypeModel::BlCodeWrite(data) => {
            let s3 = sized_bytes(data.chunk_data) + tail;
            let s2 = varint(data.chunk_index as nat) + s3;
            let s1 = varint(data.chunk_count as nat) + s2;
            assert(s =~= varint(data.hardware_id as nat) + s1);
            law_varint_reads_back(data.hardware_id as nat, 32, s1);
            law_varint_reads_back(data.chunk_count as nat, 32, s2);
            law_varint_reads_back(data.chunk_index as nat, 32, s3);
            law_sized_bytes_read_back(data.chunk_data, tail);
        },
        TypeModel::BlCodeProgress(data) => {
            let s1 = varint(data.chunk_count as nat) + tail;
            assert(s =~= varint(data.hardware_id as nat) + s1);
            law_varint_reads_back(data.hardware_id as nat, 32, s1);
            law_varint_reads_back(data.chunk_count as nat, 32, tail);
        },
        _ => {},
    }
}

/// A receiver finds the state in its payload, whatever follows. Only the time
/// of the last update is not carried over.
pub proof fn law_payload_reads_back(m: StateModel, tail: Seq<u8>)
    requires
        m.valid(),
    ensures
        payload_decoded(m.payload() + tail) == Ok::<StateModel, PacketError>(m.received()),
{
    lemma2_to64();
    let s2 = m.type_.content() + tail;
    let s1 = varint(m.type_.discriminant() as nat) + s2;
    assert(m.payload() + tail =~= varint(m.seq_num as nat) + s1);
    law_varint_reads_back(m.seq_num as nat, 64, s1);
    law_varint_reads_back(m.type_.discriminant() as nat, 32, s2);
    lemma_content_reads_back(m.type_, tail);
}

/// A state of a kind that is not known here is received as the catch-all of
/// its side, whatever it carries: newer nodes can talk past older ones.
pub proof fn law_unknown_kinds_are_received(seq_num: u64, discriminant: u8, content: Seq<u8>)
    requires
        discriminant != COMM_TYPE_INIT,
        discriminant < COMM_TYPE_BL_INIT || discriminant > COMM_TYPE_BL_CODE_PROGRESS,
    ensures
        payload_decoded(varint(seq_num as nat) + varint(discriminant as nat) + content) == Ok::<
            StateModel,
            PacketError,
        >(
            (StateModel {
                seq_num,
                type_: if discriminant < COMM_TYPE_BL_BITMASK {
                    TypeModel::Unknown
                } else {
                    TypeModel::BlUnknown
                },
            }),
        ),
{
    lemma2_to64();
    let s1 = varint(discriminant as nat) + content;
    assert(varint(seq_num as nat) + varint(discriminant as nat) + content =~= varint(
        seq_num as nat,
    ) + s1);
    law_varint_reads_back(seq_num as nat, 64, s1);
    law_varint_reads_back(discriminant as nat, 32, content);
}

/// What stands on the wire: the sequence number, the number of the kind, and
/// then the fields of that kind in their order, byte strings behind their length.
pub proof fn law_fields_stand_in_order(m: StateModel)
    ensures
        m.type_ is Init ==> m.payload() == varint(m.seq_num as nat) + varint(0x00),
        m.type_ is Unknown ==> m.payload() == varint(m.seq_num as nat) + varint(0x7F),
        m.type_ is BlInit ==> m.payload() == varint(m.seq_num as nat) + varint(0x80),
        m.type_ is BlUnknown ==> m.payload() == varint(m.seq_num as nat) + varint(0xFF),
        m.type_ matches TypeModel::BlBroadcastPing(ping) ==> m.payload() == varint(
            m.seq_num as nat,
        ) + varint(0x81) + (varint(ping.latency_micros as nat) + varint(
            ping.age_micros.age_micros as nat,
        ) + (varint(ping.data.len()) + ping.data)),
        m.type_ matches TypeModel::BlCodeWrite(write) ==> m.payload() == varint(m.seq_num as nat)
            + varint(0x82) + (varint(write.hardware_id as nat) + varint(write.chunk_count as nat)
            + varint(write.chunk_index as nat) + (varint(write.chunk_data.len())
            + write.chunk_data)),
        m.type_ matches TypeModel::BlCodeProgress(report) ==> m.payload() == varint(
            m.seq_num as nat,
        ) + varint(0x83) + (varint(report.hardware_id as nat) + varint(
            report.chunk_count as nat,
        )),
{
    assert(varint(m.seq_num as nat) + varint(m.type_.discriminant() as nat) + Seq::<u8>::empty()
        =~= varint(m.seq_num as nat) + varint(m.type_.discriminant() as nat));
}

/// All that a receiver does not get of a state is when its age was right.
pub proof fn law_receiver_gets_the_state(m: StateModel)
    ensures
        m.received().seq_num == m.seq_num,
        !(m.type_ is BlBroadcastPing) ==> m.received() == m,
        m.type_ matches TypeModel::BlBroadcastPing(ping) ==> m.received().type_
            == TypeModel::BlBroadcastPing(
            PingModel {
                age_micros: AgeMicros { age_micros: ping.age_micros.age_micros, last_update: None },
                ..ping
            },
        ),
        m.valid() <==> {
            &&& m.type_ matches TypeModel::BlBroadcastPing(ping) ==> ping.data.len() <= 256
            &&& m.type_ matches TypeModel::BlCodeWrite(write) ==> write.chunk_data.len() <= 256
        },
        m.transmission() == seq![0u8] + m.packet(),
        m.packet() == cobs_frame(m.payload() + le_bytes(crc32_bzip2(m.payload()))),
{
}

/// A payload that breaks off anywhere is refused.
pub proof fn law_broken_payload_is_refused(m: StateModel, k: int)
    requires
        m.valid(),
        0 <= k < m.payload().len(),
    ensures
        payload_decoded(m.payload().take(k)) == Err::<StateModel, PacketError>(
            PacketError::DeserializeUnexpectedEnd,
        ),
{
    lemma2_to64();
    let seq = varint(m.seq_num as nat);
    let kind = varint(m.type_.discriminant() as nat);
    let content = m.type_.content();
    let s = m.payload().take(k);
    if k < seq.len() {
        assert(s =~= seq.take(k));
        law_broken_integer_is_refused(m.seq_num as nat, 64, k);
    } else if k < seq.len() + kind.len() {
        let part = kind.take(k - seq.len());
        assert(s =~= seq + part);
        law_varint_reads_back(m.seq_num as nat, 64, part);
        law_broken_integer_is_refused(m.type_.discriminant() as nat, 32, k - seq.len());
    } else {
        let j = k - seq.len() - kind.len();
        let part = content.take(j);
        assert(s =~= seq + (kind + part));
        law_varint_reads_back(m.seq_num as nat, 64, kind + part);
        law_varint_reads_back(m.type_.discriminant() as nat, 32, part);
        lemma_broken_content_is_refused(m.type_, j);
    }
}

proof fn lemma_broken_content_is_refused(type_: TypeModel, k: int)
    requires
        type_.valid(),
        0 <= k < type_.content().len(),
    ensures
        content_decoded(type_.discriminant() as nat, type_.content().take(k)) == Err::<
            TypeModel,
            PacketError,
        >(PacketError::DeserializeUnexpectedEnd),
{
    lemma2_to64();
    let s = type_.content().take(k);
    match type_ {
        TypeModel::BlBroadcastPing(data) => {
            let a = varint(data.latency_micros as nat);
            let b = varint(data.age_micros.age_micros as nat);
            let c = sized_bytes(data.data);
            if k < a.len() {
                assert(s =~= a.take(k));
                law_broken_integer_is_refused(data.latency_micros as nat, 64, k);
            } else if k < a.len() + b.len() {
                let part = b.take(k - a.len());
                assert(s =~= a + part);
                law_varint_reads_back(data.latency_micros as nat, 64, part);
                law_broken_integer_is_refused(
                    data.age_micros.age_micros as nat,
                    64,
                    k - a.len(),
                );
            } else {
                let part = c.take(k - a.len() - b.len());
                assert(s =~= a + (b + part));
                law_varint_reads_back(data.latency_micros as nat, 64, b + part);
                law_varint_reads_back(data.age_micros.age_micros as nat, 64, part);
                law_broken_byte_string_is_refused(data.data, k - a.len() - b.len());
            }
        },
        TypeModel::BlCodeWrite(data) => {
            let a = varint(data.hardware_id as nat);
            let b = varint(data.chunk_count as nat);
            let c = varint(data.chunk_index as nat);
            let d = sized_bytes(data.chunk_data);
            if k < a.len() {
                assert(s =~= a.take(k));
                law_broken_integer_is_refused(data.hardware_id as nat, 32, k);
            } else if k < a.len() + b.len() {
                let part = b.take(k - a.len());
                assert(s =~= a + part);
                law_varint_reads_back(data.hardware_id as nat, 32, part);
                law_broken_integer_is_refused(data.chunk_count as nat, 32, k - a.len());
            } else if k < a.len() + b.len() + c.len() {
                let part = c.take(k - a.len() - b.len());
                assert(s =~= a + (b + part));
                law_varint_reads_back(data.hardware_id as nat, 32, b + part);
                law_varint_reads_back(data.chunk_count as nat, 32, part);
                law_broken_integer_is_refused(
                    data.chunk_index as nat,
                    32,
                    k - a.len() - b.len(),
                );
            } else {
                let j = k - a.len() - b.len() - c.len();
                let part = d.take(j);
                assert(s =~= a + (b + (c + part)));
                law_varint_reads_back(data.hardware_id as nat, 32, b + (c + part));
                law_varint_reads_back(data.chunk_count as nat, 32, c + part);
                law_varint_reads_back(data.chunk_index as nat, 32, part);
                law_broken_byte_string_is_refused(data.chunk_data, j);
            }
        },
        TypeModel::BlCodeProgress(data) => {
            let a = varint(data.hardware_id as nat);
            let b = varint(data.chunk_count as nat);
            if k < a.len() {
                assert(s =~= a.take(k));
                law_broken_integer_is_refused(data.hardware_id as nat, 32, k);
            } else {
                let part = b.take(k - a.len());
                assert(s =~= a + part);
                law_varint_reads_back(data.hardware_id as nat, 32, part);
                law_broken_integer_is_refused(data.chunk_count as nat, 32, k - a.len());
            }
        },
        _ => {},
    }
}

/// A kind that does not fit a byte is refused, by bootloaders and applications.
pub proof fn law_impossible_kind_is_refused(seq_num: u64, kind: u32, content: Seq<u8>)
    requires
        kind >= 256,
    ensures
        payload_decoded(varint(seq_num as nat) + varint(kind as nat) + content) == Err::<
            StateModel,
            PacketError,
        >(PacketError::SerdeDeCustom),
        app_payload_decoded(varint(seq_num as nat) + varint(kind as nat) + content) == Err::<
            StateModel,
            PacketError,
        >(PacketError::SerdeDeCustom),
{
    lemma2_to64();
    let s1 = varint(kind as nat) + content;
    assert(varint(seq_num as nat) + varint(kind as nat) + content =~= varint(seq_num as nat) + s1);
    law_varint_reads_back(seq_num as nat, 64, s1);
    law_varint_reads_back(kind as nat, 32, content);
}

/// An application tells its own initial state, other states of applications and
/// states of bootloaders apart by their kind, and looks no further.
pub proof fn law_app_looks_at_the_kind_only(seq_num: u64, kind: u8, content: Seq<u8>)
    ensures
        app_payload_decoded(varint(seq_num as nat) + varint(kind as nat) + content) == Ok::<
            StateModel,
            PacketError,
        >(
            (StateModel {
                seq_num,
                type_: if kind == 0x00 {
                    TypeModel::Init
                } else if kind < 0x80 {
                    TypeModel::Unknown
                } else {
                    TypeModel::BlUnknown
                },
            }),
        ),
{
    lemma2_to64();
    let s1 = varint(kind as nat) + content;
    assert(varint(seq_num as nat) + varint(kind as nat) + content =~= varint(seq_num as nat) + s1);
    law_varint_reads_back(seq_num as nat, 64, s1);
    law_varint_reads_back(kind as nat, 32, content);
}

/// What becomes of a packet: a damaged frame, one too short for a checksum and
/// one whose checksum does not match are each refused as such, and of any other
/// the payload before the checksum is read.
pub proof fn law_packet_is_checked_first(s: Seq<u8>, payload: Seq<u8>, crc: Seq<u8>)
    requires
        crc.len() == 4,
    ensures
        cobs_unframed(s) is None ==> packet_decoded(s) == Err::<StateModel, PacketError>(
            PacketError::DeserializeBadEncoding,
        ) && app_packet_decoded(s) == Err::<StateModel, PacketError>(
            PacketError::DeserializeBadEncoding,
        ),
        cobs_unframed(s) matches Some(unframed) && unframed.len() < 4 ==> packet_decoded(s)
            == Err::<StateModel, PacketError>(PacketError::DeserializeUnexpectedEnd)
            && app_packet_decoded(s) == Err::<StateModel, PacketError>(
            PacketError::DeserializeUnexpectedEnd,
        ),
        cobs_unframed(s) == Some(payload + crc) && le_bytes(crc32_bzip2(payload)) != crc
            ==> packet_decoded(s) == Err::<StateModel, PacketError>(
            PacketError::DeserializeBadCrc,
        ) && app_packet_decoded(s) == Err::<StateModel, PacketError>(
            PacketError::DeserializeBadCrc,
        ),
        cobs_unframed(s) == Some(payload + crc) && le_bytes(crc32_bzip2(payload)) == crc
            ==> packet_decoded(s) == payload_decoded(payload) && app_packet_decoded(s)
            == app_payload_decoded(payload),
{
    assert((payload + crc).take((payload + crc).len() - 4) =~= payload);
    assert((payload + crc).skip((payload + crc).len() - 4) =~= crc);
    law_le_word_reads_back(crc);
    law_le_bytes_read_back(crc32_bzip2(payload));
}

} // verus!
