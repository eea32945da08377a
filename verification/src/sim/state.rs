//! The state that simulated nodes agree on, and how it travels.

use vstd::arithmetic::power2::lemma2_to64;
use vstd::prelude::*;
use vstd::slice::slice_subrange;

use crate::link::{
    checksum_iso_hdlc, cobs_decoded, cobs_encoded, crc32_iso_hdlc, decode_cobs, delimited,
    encode_cobs, is_code, law_one_damaged_byte_changes_the_checksum,
};
use crate::text::{digits, hexadecimal, law_number_reads_back, number};
use crate::wire::{
    law_broken_integer_is_refused,
    law_le_bytes_read_back, law_le_word_reads_back, law_varint_reads_back, le_bytes, le_word,
    lemma_varint_len, push_le, put_varint, take_u32, take_varint, varint, word_from_le, PacketError,
};

verus! {

/// What the network is about.
#[derive(Clone, Copy, PartialEq, Eq, Structural, PartialOrd, Ord, Debug)]
pub enum CommStateType {
    Nop,
}

impl CommStateType {
    /// Whether two subjects go together.
    pub open spec fn consistent(self, other: CommStateType) -> bool {
        self == other
    }

    /// Whether two subjects go together.
    pub fn is_consistent(&self, other: &CommStateType) -> (consistent: bool)
        ensures
            consistent == self.consistent(*other),
    {
        match (self, other) {
            (CommStateType::Nop, CommStateType::Nop) => true,
        }
    }

    /// What is sent to the north, south, east and west.
    pub fn propagate(&self) -> (sent: [CommStateType; 4])
        ensures
            forall|i: int| 0 <= i < 4 ==> (#[trigger] sent@[i]) == *self,
    {
        match self {
            CommStateType::Nop => [
                CommStateType::Nop,
                CommStateType::Nop,
                CommStateType::Nop,
                CommStateType::Nop,
            ],
        }
    }
}

/// The state of a simulated node.
#[derive(Clone, Copy, PartialEq, Eq, Structural, PartialOrd, Ord, Debug)]
pub struct CommState {
    pub seq_num: u32,
    pub type_: CommStateType,
}

/// Why bytes do not hold a state.
#[derive(Clone, Copy, PartialEq, Eq, Structural, Debug)]
pub enum DeserializeError {
    CobsDecoding,
    TooShort,
    CrcMismatch { expected: u32, received: u32 },
    Postcard(PacketError),
}

/// The text that `postcard` has for an error.
pub open spec fn postcard_text(error: PacketError) -> Seq<char> {
    match error {
        PacketError::DeserializeUnexpectedEnd => "Hit the end of buffer, expected more data"@,
        PacketError::DeserializeBadVarint =>
            "Found a varint that didn't terminate. Is the usize too big for this platform?"@,
        PacketError::DeserializeBadEncoding => "The original data was not well encoded"@,
        PacketError::DeserializeBadCrc => "Bad CRC while deserializing"@,
        PacketError::SerdeDeCustom => "Serde Deserialization Error"@,
    }
}

/// Calls `to_string` on the `postcard::Error` of the same name, which has a
/// fixed text for each.
#[verifier::external_body]
fn postcard_to_string(error: PacketError) -> (text: String)
    ensures
        text@ == postcard_text(error),
{
    match error {
        PacketError::DeserializeUnexpectedEnd => postcard::Error::DeserializeUnexpectedEnd,
        PacketError::DeserializeBadVarint => postcard::Error::DeserializeBadVarint,
        PacketError::DeserializeBadEncoding => postcard::Error::DeserializeBadEncoding,
        PacketError::DeserializeBadCrc => postcard::Error::DeserializeBadCrc,
        PacketError::SerdeDeCustom => postcard::Error::SerdeDeCustom,
    }.to_string()
}

impl DeserializeError {
    /// What the error says.
    pub open spec fn text(self) -> Seq<char> {
        match self {
            DeserializeError::CobsDecoding => "COBS decoding failed"@,
            DeserializeError::TooShort => "Data too short to contain CRC"@,
            DeserializeError::CrcMismatch { expected, received } => "CRC mismatch: expected "@ + (
            seq!['0', 'x'] + digits(expected as nat, 16)) + ", received "@ + (seq!['0', 'x']
                + digits(received as nat, 16)),
            DeserializeError::Postcard(e) => "Postcard deserialization error: "@ + postcard_text(e),
        }
    }

    /// What the error says.
    pub fn message(&self) -> (text: String)
        ensures
            text@ == self.text(),
    {
        match *self {
            DeserializeError::CobsDecoding => "COBS decoding failed".to_owned(),
            DeserializeError::TooShort => "Data too short to contain CRC".to_owned(),
            DeserializeError::CrcMismatch { expected, received } => {
                let mut text = "CRC mismatch: expected ".to_owned();
                text.append(hexadecimal(expected).as_str());
                text.append(", received ");
                text.append(hexadecimal(received).as_str());
                text
            },
            DeserializeError::Postcard(e) => {
                let mut text = "Postcard deserialization error: ".to_owned();
                text.append(postcard_to_string(e).as_str());
                text
            },
        }
    }
}

impl CommState {
    /// Whether `self` is the later of the two.
    pub open spec fn newer(self, other: CommState) -> bool {
        self.seq_num > other.seq_num
    }

    /// Whether two states go together.
    pub open spec fn consistent(self, other: CommState) -> bool {
        self.seq_num == other.seq_num && self.type_.consistent(other.type_)
    }

    /// The fields on the wire. The number of the subject is zero.
    pub open spec fn payload(self) -> Seq<u8> {
        varint(self.seq_num as nat) + varint(0)
    }

    /// The fields with their checksum.
    pub open spec fn checked_payload(self) -> Seq<u8> {
        self.payload() + le_bytes(crc32_iso_hdlc(self.payload()))
    }

    /// The frame that carries the state.
    pub open spec fn frame(self) -> Seq<u8> {
        cobs_encoded(self.checked_payload()).push(0)
    }
}

/// The state that a payload holds.
pub open spec fn payload_decoded(s: Seq<u8>) -> Result<CommState, DeserializeError> {
    match take_varint(s, 32) {
        Err(e) => Err(DeserializeError::Postcard(e)),
        Ok((seq_num, s)) => match take_varint(s, 32) {
            Err(e) => Err(DeserializeError::Postcard(e)),
            Ok((variant, _)) => if variant == 0 {
                Ok(CommState { seq_num: seq_num as u32, type_: CommStateType::Nop })
            } else {
                Err(DeserializeError::Postcard(PacketError::SerdeDeCustom))
            },
        },
    }
}

/// The state in decoded bytes, where the checksum of all but the last four of
/// them is `computed_crc`.
pub open spec fn checked_decoded(decoded: Seq<u8>, computed_crc: u32) -> Result<
    CommState,
    DeserializeError,
> {
    if decoded.len() < 4 {
        Err(DeserializeError::TooShort)
    } else if le_word(decoded.skip(decoded.len() - 4)) != computed_crc {
        Err(
            DeserializeError::CrcMismatch {
                expected: computed_crc,
                received: le_word(decoded.skip(decoded.len() - 4)) as u32,
            },
        )
    } else {
        payload_decoded(decoded.take(decoded.len() - 4))
    }
}

/// The frame without its delimiter, if it has one.
pub open spec fn undelimited(frame: Seq<u8>) -> Seq<u8> {
    if frame.len() > 0 && frame.last() == 0 {
        frame.drop_last()
    } else {
        frame
    }
}

/// The state that a frame carries.
pub open spec fn frame_decoded(frame: Seq<u8>) -> Result<CommState, DeserializeError> {
    match cobs_decoded(undelimited(frame)) {
        None => Err(DeserializeError::CobsDecoding),
        Some(decoded) => checked_decoded(
            decoded,
            crc32_iso_hdlc(decoded.take(decoded.len() - 4)),
        ),
    }
}

fn decode_payload(s: &[u8]) -> (state: Result<CommState, DeserializeError>)
    ensures
        state == payload_decoded(s@),
{
    match take_u32(s) {
        Err(e) => Err(DeserializeError::Postcard(e)),
        Ok((seq_num, s)) => match take_u32(s) {
            Err(e) => Err(DeserializeError::Postcard(e)),
            Ok((variant, _)) => if variant == 0 {
                Ok(CommState { seq_num, type_: CommStateType::Nop })
            } else {
                Err(DeserializeError::Postcard(PacketError::SerdeDeCustom))
            },
        },
    }
}

/// The state in decoded bytes, where `computed_crc` was calculated from all
/// but the last four of them.
pub fn decode_checked(decoded: &[u8], computed_crc: u32) -> (state: Result<
    CommState,
    DeserializeError,
>)
    ensures
        state == checked_decoded(decoded@, computed_crc),
{
    let len: usize = decoded.len();
    if len < 4 {
        return Err(DeserializeError::TooShort);
    }
    let received_crc: u32 = word_from_le(
        decoded[len - 4],
        decoded[len - 3],
        decoded[len - 2],
        decoded[len - 1],
    );
    if received_crc != computed_crc {
        return Err(
            DeserializeError::CrcMismatch { expected: computed_crc, received: received_crc },
        );
    }
    let data = slice_subrange(decoded, 0, len - 4);
    assert(data@ =~= decoded@.take(len - 4));
    decode_payload(data)
}

impl CommState {
    /// Whether `self` is the later of the two.
    pub fn is_newer(&self, other: &CommState) -> (newer: bool)
        ensures
            newer == self.newer(*other),
    {
        self.seq_num > other.seq_num
    }

    /// Whether two states go together.
    pub fn is_consistent(&self, other: &CommState) -> (consistent: bool)
        ensures
            consistent == self.consistent(*other),
    {
        self.seq_num == other.seq_num && self.type_.is_consistent(&other.type_)
    }

    /// Serialize CommState to bytes with CRC checksum and COBS framing
    /// Returns a Vec<u8> containing the COBS-encoded frame
    pub fn serialize(&self) -> (encoded: Vec<u8>)
        ensures
            encoded@ == self.frame(),
            delimited(encoded@),
            frame_decoded(encoded@) == Ok::<CommState, DeserializeError>(*self),
            damage_is_noticed(encoded@),
    {
        // 1. Serialize to bytes
        let mut data_with_crc = put_varint(self.seq_num as u64);
        let variant = put_varint(0);
        data_with_crc.extend_from_slice(variant.as_slice());
        assert(data_with_crc@ =~= self.payload());
        proof {
            lemma2_to64();
            lemma_varint_len(self.seq_num as nat, 32);
        }

        // 2. Calculate CRC32 checksum
        let checksum: u32 = checksum_iso_hdlc(data_with_crc.as_slice());

        // 3. Append checksum to serialized data
        push_le(&mut data_with_crc, checksum);
        assert(data_with_crc@ =~= self.checked_payload());

        // 4. COBS encode the data
        // COBS encoding adds 1 byte overhead plus potential padding
        let room: usize = data_with_crc.len() + data_with_crc.len() + 1;
        let mut encoded: Vec<u8> = vec![0u8; room];
        let encoded_len: usize = encode_cobs(data_with_crc.as_slice(), encoded.as_mut_slice());
        encoded.truncate(encoded_len);
        let ghost body = encoded@;
        assert(body == cobs_encoded(self.checked_payload()));

        // Add delimiter (0x00) at the end
        encoded.push(0x00);
        proof {
            let data = self.checked_payload();
            assert(undelimited(encoded@) =~= body);
            assert(data.take(data.len() - 4) =~= self.payload());
            assert(data.skip(data.len() - 4) =~= le_bytes(checksum));
            law_le_bytes_read_back(checksum);
            law_payload_reads_back(*self);
            assert forall|i: int, b: u8|
                0 <= i < encoded@.len() - 1 && !is_code(encoded@.drop_last(), 0, i) && b != 0 && b
                    != encoded@[i] implies frame_decoded(#[trigger] encoded@.update(i, b)) is Err
                && frame_decoded(encoded@.update(i, b))->Err_0 is CrcMismatch by {
                assert(encoded@.drop_last() =~= body);
                assert(undelimited(encoded@.update(i, b)) =~= body.update(i, b));
                let k = choose|k: int|
                    0 <= k < data.len() && data[k] == body[i] && cobs_decoded(body.update(i, b))
                        == Some(#[trigger] data.update(k, b));
                lemma_damage_is_noticed(*self, k, b);
            }
        }
        encoded
    }

    /// Deserialize CommState from COBS-framed bytes with CRC verification
    /// The input should include the COBS encoding and trailing delimiter
    pub fn deserialize(encoded: &[u8]) -> (state: Result<CommState, DeserializeError>)
        ensures
            state == frame_decoded(encoded@),
    {
        // 1. Remove trailing delimiter if present
        let len: usize = encoded.len();
        let body = if len > 0 && encoded[len - 1] == 0x00 {
            slice_subrange(encoded, 0, len - 1)
        } else {
            encoded
        };
        assert(body@ =~= undelimited(encoded@));

        // 2. COBS decode
        let mut decoded: Vec<u8> = vec![0u8; body.len()];
        let decoded_len: usize = match decode_cobs(body, decoded.as_mut_slice()) {
            Some(decoded_len) => decoded_len,
            None => {
                return Err(DeserializeError::CobsDecoding);
            },
        };
        decoded.truncate(decoded_len);

        // 3. Extract and verify CRC checksum
        if decoded.len() < 4 {
            return Err(DeserializeError::TooShort);
        }
        let data = slice_subrange(decoded.as_slice(), 0, decoded.len() - 4);
        assert(data@ =~= decoded@.take(decoded@.len() - 4));
        decode_checked(decoded.as_slice(), checksum_iso_hdlc(data))
    }

    /// What is sent to the north, south, east and west.
    pub fn propagate(&self) -> (sent: [CommState; 4])
        ensures
            forall|i: int| 0 <= i < 4 ==> (#[trigger] sent@[i]) == *self,
    {
        let types = self.type_.propagate();
        [
            CommState { seq_num: self.seq_num, type_: types[0] },
            CommState { seq_num: self.seq_num, type_: types[1] },
            CommState { seq_num: self.seq_num, type_: types[2] },
            CommState { seq_num: self.seq_num, type_: types[3] },
        ]
    }
}

/// Whether a frame in which one byte was replaced is found to be damaged. Its
/// delimiter and its codes are left out.
pub open spec fn damage_is_noticed(frame: Seq<u8>) -> bool {
    forall|i: int, b: u8|
        0 <= i < frame.len() - 1 && !is_code(frame.drop_last(), 0, i) && b != 0 && b != frame[i]
            ==> frame_decoded(#[trigger] frame.update(i, b)) is Err && frame_decoded(
            frame.update(i, b),
        )->Err_0 is CrcMismatch
}

proof fn lemma_damage_is_noticed(state: CommState, k: int, b: u8)
    requires
        0 <= k < state.checked_payload().len(),
        b != state.checked_payload()[k],
    ensures
        ({
            let damaged = state.checked_payload().update(k, b);
            let outcome = checked_decoded(
                damaged,
                crc32_iso_hdlc(damaged.take(damaged.len() - 4)),
            );
            outcome is Err && outcome->Err_0 is CrcMismatch
        }),
{
    let payload = state.payload();
    let crc = crc32_iso_hdlc(payload);
    let damaged = state.checked_payload().update(k, b);
    let n = damaged.len() - 4;
    law_le_bytes_read_back(crc);
    if k < n {
        assert(damaged.take(n) =~= payload.update(k, b));
        assert(damaged.skip(n) =~= le_bytes(crc));
        law_one_damaged_byte_changes_the_checksum(payload, k, b);
    } else {
        assert(damaged.take(n) =~= payload);
        let word = damaged.skip(n);
        assert(word[k - n] == b);
        law_le_word_reads_back(word);
    }
}

/// A receiver finds the state in its payload.
pub proof fn law_payload_reads_back(state: CommState)
    ensures
        payload_decoded(state.payload()) == Ok::<CommState, DeserializeError>(state),
{
    lemma2_to64();
    law_varint_reads_back(state.seq_num as nat, 32, varint(0));
    law_varint_reads_back(0, 32, Seq::empty());
    assert(varint(0) + Seq::<u8>::empty() =~= varint(0));
}

/// Of two states the one with the larger number is the later, and only states
/// with the same number go together.
pub proof fn law_larger_number_is_later(a: CommState, b: CommState)
    ensures
        a.newer(b) <==> a.seq_num > b.seq_num,
        a.consistent(b) <==> a.seq_num == b.seq_num,
        a.newer(b) || b.newer(a) || a.consistent(b),
{
}

/// What stands on the wire: the number, and zero for the one subject there is.
pub proof fn law_fields_stand_in_order(state: CommState)
    ensures
        state.payload() == varint(state.seq_num as nat) + varint(0),
        state.checked_payload() == state.payload() + le_bytes(crc32_iso_hdlc(state.payload())),
        state.frame() == cobs_encoded(state.checked_payload()) + seq![0u8],
{
    assert(cobs_encoded(state.checked_payload()).push(0) =~= cobs_encoded(state.checked_payload())
        + seq![0u8]);
}

/// What becomes of a frame, with its delimiter or without: a damaged one, one too
/// short for a checksum and one whose checksum does not match are each refused as
/// such, and of any other the payload before the checksum is read.
pub proof fn law_frame_is_checked_first(body: Seq<u8>, payload: Seq<u8>, crc: Seq<u8>)
    requires
        crc.len() == 4,
        body.len() > 0 ==> body.last() != 0,
    ensures
        frame_decoded(body.push(0)) == frame_decoded(body),
        cobs_decoded(body) is None ==> frame_decoded(body) == Err::<CommState, DeserializeError>(
            DeserializeError::CobsDecoding,
        ),
        cobs_decoded(body) matches Some(decoded) && decoded.len() < 4 ==> frame_decoded(body)
            == Err::<CommState, DeserializeError>(DeserializeError::TooShort),
        cobs_decoded(body) == Some(payload + crc) && le_bytes(crc32_iso_hdlc(payload)) != crc
            ==> frame_decoded(body) == Err::<CommState, DeserializeError>(
            DeserializeError::CrcMismatch {
                expected: crc32_iso_hdlc(payload),
                received: le_word(crc) as u32,
            },
        ),
        cobs_decoded(body) == Some(payload + crc) && le_bytes(crc32_iso_hdlc(payload)) == crc
            ==> frame_decoded(body) == payload_decoded(payload),
{
    assert(body.push(0).drop_last() =~= body);
    assert((payload + crc).take((payload + crc).len() - 4) =~= payload);
    assert((payload + crc).skip((payload + crc).len() - 4) =~= crc);
    law_le_word_reads_back(crc);
    law_le_bytes_read_back(crc32_iso_hdlc(payload));
}

/// A payload holds a state exactly if it begins with a number and the zero of the
/// one subject there is. One that breaks off, or is about anything else, is
/// refused.
pub proof fn law_other_subjects_are_refused(seq_num: u32, subject: u32, rest: Seq<u8>, k: int)
    requires
        0 <= k < varint(seq_num as nat).len(),
    ensures
        subject == 0 ==> payload_decoded(varint(seq_num as nat) + varint(subject as nat) + rest)
            == Ok::<CommState, DeserializeError>(
            CommState { seq_num, type_: CommStateType::Nop },
        ),
        subject != 0 ==> payload_decoded(varint(seq_num as nat) + varint(subject as nat) + rest)
            == Err::<CommState, DeserializeError>(
            DeserializeError::Postcard(PacketError::SerdeDeCustom),
        ),
        payload_decoded(varint(seq_num as nat).take(k)) == Err::<CommState, DeserializeError>(
            DeserializeError::Postcard(PacketError::DeserializeUnexpectedEnd),
        ),
        payload_decoded(varint(seq_num as nat)) == Err::<CommState, DeserializeError>(
            DeserializeError::Postcard(PacketError::DeserializeUnexpectedEnd),
        ),
{
    lemma2_to64();
    let number = varint(seq_num as nat);
    let s1 = varint(subject as nat) + rest;
    assert(number + varint(subject as nat) + rest =~= number + s1);
    law_varint_reads_back(seq_num as nat, 32, s1);
    law_varint_reads_back(subject as nat, 32, rest);
    law_broken_integer_is_refused(seq_num as nat, 32, k);
    assert(number + Seq::<u8>::empty() =~= number);
    law_varint_reads_back(seq_num as nat, 32, Seq::empty());
}

/// An error says what went wrong, and for a wrong sum which one was expected and
/// which one came, both in hexadecimal.
pub proof fn law_error_says_what_went_wrong(expected: u32, received: u32, e: PacketError)
    ensures
        DeserializeError::CobsDecoding.text() == "COBS decoding failed"@,
        DeserializeError::TooShort.text() == "Data too short to contain CRC"@,
        (DeserializeError::CrcMismatch { expected, received }).text()
            == "CRC mismatch: expected 0x"@ + digits(expected as nat, 16) + ", received 0x"@
            + digits(received as nat, 16),
        number(digits(expected as nat, 16), 16) == expected,
        number(digits(received as nat, 16), 16) == received,
        DeserializeError::Postcard(e).text().take(32) == "Postcard deserialization error: "@,
        DeserializeError::Postcard(e).text().skip(32) == postcard_text(e),
{
    reveal_strlit("CRC mismatch: expected ");
    reveal_strlit("CRC mismatch: expected 0x");
    reveal_strlit(", received ");
    reveal_strlit(", received 0x");
    reveal_strlit("Postcard deserialization error: ");
    law_number_reads_back(expected as nat, 16);
    law_number_reads_back(received as nat, 16);
    assert("CRC mismatch: expected "@ + seq!['0', 'x'] =~= "CRC mismatch: expected 0x"@);
    assert(", received "@ + seq!['0', 'x'] =~= ", received 0x"@);
    assert((DeserializeError::CrcMismatch { expected, received }).text()
        =~= "CRC mismatch: expected 0x"@ + digits(expected as nat, 16) + ", received 0x"@ + digits(
        received as nat,
        16,
    ));
    assert(DeserializeError::Postcard(e).text().take(32) =~= "Postcard deserialization error: "@);
    assert(DeserializeError::Postcard(e).text().skip(32) =~= postcard_text(e));
}

} // verus!
