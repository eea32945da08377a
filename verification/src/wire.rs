//! The primitives of the wire format: variable-length integers, byte strings
//! and little-endian words.

use vstd::arithmetic::power2::{
    lemma2_to64, lemma_pow2_adds, lemma_pow2_strictly_increases, pow2,
};
use vstd::prelude::*;

use crate::chunk::{chunk_bytes, Chunk, CHUNK_CAPACITY};

verus! {

/// Why bytes do not hold a packet.
#[derive(Clone, Copy, PartialEq, Eq, Structural, Debug)]
pub enum PacketError {
    /// The bytes end before the value does
    DeserializeUnexpectedEnd,
    /// A variable-length integer is longer than its type allows
    DeserializeBadVarint,
    /// The framing of the packet is damaged
    DeserializeBadEncoding,
    /// The checksum does not match the data
    DeserializeBadCrc,
    /// A value is out of range for its field
    SerdeDeCustom,
}

/// `n` in groups of seven bits, the lowest first, all but the last one marked by their top bit.
pub open spec fn varint(n: nat) -> Seq<u8>
    decreases n,
{
    if n < 128 {
        seq![n as u8]
    } else {
        seq![(n % 128 + 128) as u8] + varint(n / 128)
    }
}

/// Reads an integer of `bits` bits from the front of `s`: the integer and what follows it.
pub open spec fn take_varint(s: Seq<u8>, bits: nat) -> Result<(nat, Seq<u8>), PacketError>
    decreases bits,
{
    if s.len() == 0 {
        Err(PacketError::DeserializeUnexpectedEnd)
    } else if s[0] < 128 {
        if bits < 7 && s[0] >= pow2(bits) {
            Err(PacketError::DeserializeBadVarint)
        } else {
            Ok((s[0] as nat, s.drop_first()))
        }
    } else if bits <= 7 {
        Err(PacketError::DeserializeBadVarint)
    } else {
        match take_varint(s.drop_first(), (bits - 7) as nat) {
            Ok((high, rest)) => Ok(((s[0] - 128 + 128 * high) as nat, rest)),
            Err(e) => Err(e),
        }
    }
}

/// A byte string behind its length.
pub open spec fn sized_bytes(bytes: Seq<u8>) -> Seq<u8> {
    varint(bytes.len()) + bytes
}

/// Reads a byte string of at most `CHUNK_CAPACITY` bytes from the front of
/// `s`: the string and what follows it. Of a longer one the bytes are read
/// until there are too many.
pub open spec fn take_sized_bytes(s: Seq<u8>) -> Result<(Seq<u8>, Seq<u8>), PacketError> {
    match take_varint(s, usize::BITS as nat) {
        Ok((n, rest)) => if rest.len() < n && rest.len() <= CHUNK_CAPACITY {
            Err(PacketError::DeserializeUnexpectedEnd)
        } else if n > CHUNK_CAPACITY {
            Err(PacketError::SerdeDeCustom)
        } else {
            Ok((rest.take(n as int), rest.skip(n as int)))
        },
        Err(e) => Err(e),
    }
}

/// Calls `postcard::to_allocvec` on a `u64`, which it writes as a
/// variable-length integer.
#[verifier::external_body]
pub(crate) fn put_varint(value: u64) -> (bytes: Vec<u8>)
    ensures
        bytes@ == varint(value as nat),
{
    postcard::to_allocvec(&value).unwrap()
}

/// Calls `postcard::to_allocvec` on a byte slice, which it writes as its
/// length and the bytes.
#[verifier::external_body]
pub(crate) fn put_sized_bytes(value: &[u8]) -> (bytes: Vec<u8>)
    ensures
        bytes@ == sized_bytes(value@),
{
    postcard::to_allocvec(value).unwrap()
}

/// Calls `postcard::take_from_bytes` for a `u64`: the integer at the front of
/// the slice, and what follows it. The slice may end too soon, or the integer
/// be too long: it knows no other failure here.
#[verifier::external_body]
pub(crate) fn take_u64(s: &[u8]) -> (taken: Result<(u64, &[u8]), PacketError>)
    ensures
        match take_varint(s@, 64) {
            Ok((n, rest)) => taken matches Ok((value, after)) && value == n && after@ == rest,
            Err(e) => taken matches Err(error) && error == e,
        },
{
    match postcard::take_from_bytes::<u64>(s) {
        Ok((value, after)) => Ok((value, after)),
        Err(postcard::Error::DeserializeBadVarint) => Err(PacketError::DeserializeBadVarint),
        Err(_) => Err(PacketError::DeserializeUnexpectedEnd),
    }
}

/// Calls `postcard::take_from_bytes` for a `u32`: the integer at the front of
/// the slice, and what follows it. The slice may end too soon, or the integer
/// be too long: it knows no other failure here.
#[verifier::external_body]
pub(crate) fn take_u32(s: &[u8]) -> (taken: Result<(u32, &[u8]), PacketError>)
    ensures
        match take_varint(s@, 32) {
            Ok((n, rest)) => taken matches Ok((value, after)) && value == n && after@ == rest,
            Err(e) => taken matches Err(error) && error == e,
        },
{
    match postcard::take_from_bytes::<u32>(s) {
        Ok((value, after)) => Ok((value, after)),
        Err(postcard::Error::DeserializeBadVarint) => Err(PacketError::DeserializeBadVarint),
        Err(_) => Err(PacketError::DeserializeUnexpectedEnd),
    }
}

/// Calls `postcard::take_from_bytes` for a `heapless::Vec<u8, 256>`: the
/// length, then byte after byte until the vector is complete or overflows,
/// which is reported as a custom error.
#[verifier::external_body]
pub(crate) fn take_chunk(s: &[u8]) -> (taken: Result<(Chunk, &[u8]), PacketError>)
    ensures
        match take_sized_bytes(s@) {
            Ok((bytes, rest)) => taken matches Ok((chunk, after)) && chunk_bytes(chunk) == bytes
                && after@ == rest,
            Err(e) => taken matches Err(error) && error == e,
        },
{
    match postcard::take_from_bytes::<heapless::Vec<u8, 256>>(s) {
        Ok((inner, after)) => Ok((Chunk { inner }, after)),
        Err(postcard::Error::DeserializeBadVarint) => Err(PacketError::DeserializeBadVarint),
        Err(postcard::Error::SerdeDeCustom) => Err(PacketError::SerdeDeCustom),
        Err(_) => Err(PacketError::DeserializeUnexpectedEnd),
    }
}

/// Reading gives back the integer that was written, whatever follows it.
pub proof fn law_varint_reads_back(n: nat, bits: nat, tail: Seq<u8>)
    requires
        n < pow2(bits),
    ensures
        take_varint(varint(n) + tail, bits) == Ok::<(nat, Seq<u8>), PacketError>((n, tail)),
    decreases n,
{
    let s = varint(n) + tail;
    lemma2_to64();
    if n < 128 {
        assert(s.drop_first() =~= tail);
    } else {
        if bits <= 7 {
            if bits < 7 {
                lemma_pow2_strictly_increases(bits, 7);
            }
            assert(false);
        }
        let rest = (bits - 7) as nat;
        lemma_pow2_adds(7, rest);
        assert(pow2(bits) == 128 * pow2(rest));
        assert(n / 128 < pow2(rest)) by (nonlinear_arith)
            requires
                n < 128 * pow2(rest),
        ;
        assert(s.drop_first() =~= varint(n / 128) + tail);
        law_varint_reads_back(n / 128, rest, tail);
    }
}

/// An integer of `bits` bits takes at most one byte for each seven of them.
pub proof fn lemma_varint_len(n: nat, bits: nat)
    requires
        n < pow2(bits),
        bits > 0,
    ensures
        1 <= varint(n).len() <= (bits + 6) / 7,
    decreases n,
{
    lemma2_to64();
    if n >= 128 {
        if bits <= 7 {
            if bits < 7 {
                lemma_pow2_strictly_increases(bits, 7);
            }
            assert(false);
        }
        let rest = (bits - 7) as nat;
        lemma_pow2_adds(7, rest);
        assert(pow2(bits) == 128 * pow2(rest));
        assert(n / 128 < pow2(rest)) by (nonlinear_arith)
            requires
                n < 128 * pow2(rest),
        ;
        lemma_varint_len(n / 128, rest);
    }
}

/// Reading gives back the byte string that was written, whatever follows it.
pub proof fn law_sized_bytes_read_back(bytes: Seq<u8>, tail: Seq<u8>)
    requires
        bytes.len() <= CHUNK_CAPACITY,
    ensures
        take_sized_bytes(sized_bytes(bytes) + tail) == Ok::<(Seq<u8>, Seq<u8>), PacketError>(
            (bytes, tail),
        ),
{
    lemma2_to64();
    if usize::BITS > 9 {
        lemma_pow2_strictly_increases(9, usize::BITS as nat);
    }
    assert(sized_bytes(bytes) + tail =~= varint(bytes.len()) + (bytes + tail));
    law_varint_reads_back(bytes.len(), usize::BITS as nat, bytes + tail);
    assert((bytes + tail).take(bytes.len() as int) =~= bytes);
    assert((bytes + tail).skip(bytes.len() as int) =~= tail);
}

/// The four bytes of a word, the lowest first.
pub open spec fn le_bytes(word: u32) -> Seq<u8> {
    seq![
        (word % 256) as u8,
        (word / 256 % 256) as u8,
        (word / 0x1_0000 % 256) as u8,
        (word / 0x100_0000) as u8,
    ]
}

/// The word whose four bytes, the lowest first, are `s`.
pub open spec fn le_word(s: Seq<u8>) -> int {
    s[0] + 256 * s[1] + 0x1_0000 * s[2] + 0x100_0000 * s[3]
}

/// The word with the given bytes, the lowest first.
pub fn word_from_le(b0: u8, b1: u8, b2: u8, b3: u8) -> (word: u32)
    ensures
        word == le_word(seq![b0, b1, b2, b3]),
{
    b0 as u32 + 256 * b1 as u32 + 0x1_0000 * b2 as u32 + 0x100_0000 * b3 as u32
}

/// Appends the bytes of a word, the lowest first.
pub fn push_le(bytes: &mut Vec<u8>, word: u32)
    ensures
        final(bytes)@ == old(bytes)@ + le_bytes(word),
{
    bytes.push((word % 256) as u8);
    bytes.push((word / 256 % 256) as u8);
    bytes.push((word / 0x1_0000 % 256) as u8);
    bytes.push((word / 0x100_0000) as u8);
    assert(bytes@ =~= old(bytes)@ + le_bytes(word));
}

/// The bytes of a word tell the word.
pub proof fn law_le_bytes_read_back(word: u32)
    ensures
        le_word(le_bytes(word)) == word,
{
}

proof fn lemma_digits(b0: int, b1: int, b2: int, b3: int, word: int)
    requires
        0 <= b0 < 256,
        0 <= b1 < 256,
        0 <= b2 < 256,
        0 <= b3 < 256,
        word == b0 + 256 * b1 + 0x1_0000 * b2 + 0x100_0000 * b3,
    ensures
        0 <= word <= u32::MAX,
        word % 256 == b0,
        word / 256 % 256 == b1,
        word / 0x1_0000 % 256 == b2,
        word / 0x100_0000 == b3,
{
    assert(word / 256 == b1 + 256 * b2 + 0x1_0000 * b3);
    assert(word / 0x1_0000 == b2 + 256 * b3);
}

/// A word tells the bytes that it was made of.
pub proof fn law_le_word_reads_back(s: Seq<u8>)
    requires
        s.len() == 4,
    ensures
        le_bytes(le_word(s) as u32) == s,
{
    lemma_digits(s[0] as int, s[1] as int, s[2] as int, s[3] as int, le_word(s));
    assert(le_bytes(le_word(s) as u32) =~= s);
}

/// An integer is written in as few groups as it takes, none of them marked but
/// those that another one follows.
pub proof fn law_small_integers_take_one_byte(n: nat)
    ensures
        n < 128 ==> varint(n) == seq![n as u8],
        n >= 128 ==> varint(n).len() == 1 + varint(n / 128).len() && varint(n)[0] == n % 128 + 128,
{
}

/// An integer that breaks off cannot be read.
pub proof fn law_broken_integer_is_refused(n: nat, bits: nat, k: int)
    requires
        n < pow2(bits),
        0 <= k < varint(n).len(),
    ensures
        take_varint(varint(n).take(k), bits) == Err::<(nat, Seq<u8>), PacketError>(
            PacketError::DeserializeUnexpectedEnd,
        ),
    decreases n,
{
    let s = varint(n).take(k);
    lemma2_to64();
    if k > 0 {
        assert(n >= 128);
        if bits <= 7 {
            if bits < 7 {
                lemma_pow2_strictly_increases(bits, 7);
            }
            assert(false);
        }
        let rest = (bits - 7) as nat;
        lemma_pow2_adds(7, rest);
        assert(pow2(bits) == 128 * pow2(rest));
        assert(n / 128 < pow2(rest)) by (nonlinear_arith)
            requires
                n < 128 * pow2(rest),
        ;
        assert(s.drop_first() =~= varint(n / 128).take(k - 1));
        law_broken_integer_is_refused(n / 128, rest, k - 1);
    }
}

/// A byte string that breaks off cannot be read.
pub proof fn law_broken_byte_string_is_refused(bytes: Seq<u8>, k: int)
    requires
        bytes.len() <= CHUNK_CAPACITY,
        0 <= k < sized_bytes(bytes).len(),
    ensures
        take_sized_bytes(sized_bytes(bytes).take(k)) == Err::<(Seq<u8>, Seq<u8>), PacketError>(
            PacketError::DeserializeUnexpectedEnd,
        ),
{
    lemma2_to64();
    if usize::BITS > 9 {
        lemma_pow2_strictly_increases(9, usize::BITS as nat);
    }
    let len = varint(bytes.len());
    let s = sized_bytes(bytes).take(k);
    if k < len.len() {
        assert(s =~= len.take(k));
        law_broken_integer_is_refused(bytes.len(), usize::BITS as nat, k);
    } else {
        let part = bytes.take(k - len.len());
        assert(s =~= len + part);
        law_varint_reads_back(bytes.len(), usize::BITS as nat, part);
    }
}

/// A word is written as the four digits that it has to the base of 256, the
/// lowest first, and read the same way.
pub proof fn law_words_are_little_endian(word: u32, b0: u8, b1: u8, b2: u8, b3: u8)
    ensures
        le_bytes(word).len() == 4,
        le_bytes(word)[0] + 0x100 * le_bytes(word)[1] + 0x1_0000 * le_bytes(word)[2] + 0x100_0000
            * le_bytes(word)[3] == word,
        le_word(seq![b0, b1, b2, b3]) == b0 + 0x100 * b1 + 0x1_0000 * b2 + 0x100_0000 * b3,
{
}

} // verus!
