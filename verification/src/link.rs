//! Checksums and framing of the bytes on a link.

use postcard::ser_flavors::{AllocVec, Cobs, Flavor};
use vstd::prelude::*;

verus! {

/// The register of CRC-32/BZIP2 after one more bit: the highest comes out, and
/// where it is set the polynomial is taken off.
pub open spec fn bzip2_bit(register: u32) -> u32 {
    if register & 0x8000_0000 != 0 {
        (register << 1) ^ 0x04C1_1DB7
    } else {
        register << 1
    }
}

/// The register of CRC-32/BZIP2 after one more byte.
pub open spec fn bzip2_byte(register: u32, byte: u8) -> u32 {
    let r = bzip2_bit(bzip2_bit(bzip2_bit(bzip2_bit(register ^ ((byte as u32) << 24)))));
    bzip2_bit(bzip2_bit(bzip2_bit(bzip2_bit(r))))
}

/// The register of CRC-32/BZIP2 after some bytes.
pub open spec fn bzip2_register(data: Seq<u8>) -> u32
    decreases data.len(),
{
    if data.len() == 0 {
        0xFFFF_FFFF
    } else {
        bzip2_byte(bzip2_register(data.drop_last()), data.last())
    }
}

/// The CRC-32/BZIP2 checksum of some bytes.
pub open spec fn crc32_bzip2(data: Seq<u8>) -> u32 {
    bzip2_register(data) ^ 0xFFFF_FFFF
}

/// The register of CRC-32/ISO-HDLC after one more bit: the lowest comes out,
/// and where it is set the polynomial is taken off.
pub open spec fn iso_hdlc_bit(register: u32) -> u32 {
    if register & 1 != 0 {
        (register >> 1) ^ 0xEDB8_8320
    } else {
        register >> 1
    }
}

/// The register of CRC-32/ISO-HDLC after one more byte.
pub open spec fn iso_hdlc_byte(register: u32, byte: u8) -> u32 {
    let r = iso_hdlc_bit(iso_hdlc_bit(iso_hdlc_bit(iso_hdlc_bit(register ^ (byte as u32)))));
    iso_hdlc_bit(iso_hdlc_bit(iso_hdlc_bit(iso_hdlc_bit(r))))
}

/// The register of CRC-32/ISO-HDLC after some bytes.
pub open spec fn iso_hdlc_register(data: Seq<u8>) -> u32
    decreases data.len(),
{
    if data.len() == 0 {
        0xFFFF_FFFF
    } else {
        iso_hdlc_byte(iso_hdlc_register(data.drop_last()), data.last())
    }
}

/// The CRC-32/ISO-HDLC checksum of some bytes.
pub open spec fn crc32_iso_hdlc(data: Seq<u8>) -> u32 {
    iso_hdlc_register(data) ^ 0xFFFF_FFFF
}

/// The frame that the COBS flavor of `postcard` makes of some bytes, its zero delimiter included.
pub uninterp spec fn cobs_frame(data: Seq<u8>) -> Seq<u8>;

/// The bytes that `cobs::decode_in_place` finds in a frame, if it is sound.
pub uninterp spec fn cobs_unframed(frame: Seq<u8>) -> Option<Seq<u8>>;

/// What `cobs::encode` writes for some bytes.
pub uninterp spec fn cobs_encoded(data: Seq<u8>) -> Seq<u8>;

/// The bytes that `cobs::decode` finds in an encoding, if it is sound.
pub uninterp spec fn cobs_decoded(encoded: Seq<u8>) -> Option<Seq<u8>>;

/// Calls `crc::Crc::digest`, `update` and `finalize` with the algorithm
/// `CRC_32_BZIP2`: polynomial 0x04C11DB7, the highest bit first, from all ones,
/// and all bits of the outcome turned over.
#[verifier::external_body]
pub(crate) fn checksum_bzip2(data: &[u8]) -> (crc: u32)
    ensures
        crc == crc32_bzip2(data@),
{
    let algorithm = crc::Crc::<u32>::new(&crc::CRC_32_BZIP2);
    let mut digest = algorithm.digest();
    digest.update(data);
    digest.finalize()
}

/// Calls `crc::Crc::checksum` with the algorithm `CRC_32_ISO_HDLC`: the same
/// polynomial, the lowest bit first, from all ones, and all bits of the outcome
/// turned over.
#[verifier::external_body]
pub(crate) fn checksum_iso_hdlc(data: &[u8]) -> (crc: u32)
    ensures
        crc == crc32_iso_hdlc(data@),
{
    crc::Crc::<u32>::new(&crc::CRC_32_ISO_HDLC).checksum(data)
}

/// Whether a zero byte stands at the end of `frame` and nowhere else.
pub open spec fn delimited(frame: Seq<u8>) -> bool {
    &&& frame.len() > 0
    &&& frame.last() == 0
    &&& forall|i: int| 0 <= i < frame.len() - 1 ==> frame[i] != 0
}

/// Whether a byte of a COBS frame is a code, given that the one at `from` is:
/// a code tells how far behind it the next one stands.
pub open spec fn is_code(frame: Seq<u8>, from: int, i: int) -> bool
    decreases i - from,
{
    from == i || (frame[from] > 0 && from + frame[from] <= i && is_code(
        frame,
        from + frame[from],
        i,
    ))
}

/// Passes the bytes through `postcard::ser_flavors::Cobs` over an `AllocVec`.
/// The frame ends in the only zero byte in it, has one byte of overhead
/// before the first block, one for each full block of 254 bytes and one for
/// the delimiter, and `cobs::decode_in_place` finds the bytes in it again.
/// Where a byte that is neither the delimiter nor a code is replaced by
/// another that is not zero, it finds the same bytes but for the one that
/// stood there.
#[verifier::external_body]
pub(crate) fn frame_cobs(data: &[u8]) -> (frame: Vec<u8>)
    ensures
        frame@ == cobs_frame(data@),
        delimited(frame@),
        data@.len() + 2 <= frame@.len() <= data@.len() + data@.len() / 254 + 2,
        cobs_unframed(frame@) == Some(data@),
        forall|i: int, b: u8|
            0 <= i < frame@.len() - 1 && !is_code(frame@, 0, i) && b != 0 ==> exists|k: int|
                0 <= k < data@.len() && data@[k] == frame@[i] && cobs_unframed(
                    #[trigger] frame@.update(i, b),
                ) == Some(#[trigger] data@.update(k, b)),
{
    let mut flavor = Cobs::try_new(AllocVec::new()).unwrap();
    flavor.try_extend(data).unwrap();
    flavor.finalize().unwrap()
}

/// Calls `cobs::decode_in_place`: the number of decoded bytes, which then
/// stand at the front of the buffer, or `None` where the frame is damaged.
/// What the rest of the buffer holds is left open.
#[verifier::external_body]
pub(crate) fn unframe_cobs(frame: &mut [u8]) -> (len: Option<usize>)
    ensures
        final(frame)@.len() == old(frame)@.len(),
        len is Some <==> cobs_unframed(old(frame)@) is Some,
        len matches Some(n) ==> n <= old(frame)@.len() && cobs_unframed(old(frame)@) == Some(
            final(frame)@.take(n as int),
        ),
{
    cobs::decode_in_place(frame).ok()
}

/// Calls `cobs::encode`: the number of bytes written to the front of `dest`.
/// They hold no zero, and `cobs::decode` finds the bytes in them again. Where
/// one of them that is not a code is replaced by another that is not zero, it
/// finds the same bytes but for the one that stood there.
/// `dest` has the room that `cobs::max_encoding_length` asks for, since the
/// function panics without. An empty `data`, which encodes to nothing, is
/// left out.
#[verifier::external_body]
pub(crate) fn encode_cobs(data: &[u8], dest: &mut [u8]) -> (len: usize)
    requires
        data@.len() > 0,
        old(dest)@.len() >= data@.len() + (data@.len() + 253) / 254,
    ensures
        final(dest)@.len() == old(dest)@.len(),
        len <= data@.len() + (data@.len() + 253) / 254,
        final(dest)@.take(len as int) == cobs_encoded(data@),
        forall|i: int| 0 <= i < len ==> final(dest)@[i] != 0,
        cobs_decoded(final(dest)@.take(len as int)) == Some(data@),
        forall|i: int, b: u8|
            0 <= i < len && !is_code(final(dest)@.take(len as int), 0, i) && b != 0 ==> exists|
                k: int,
            |
                0 <= k < data@.len() && data@[k] == final(dest)@[i] && cobs_decoded(
                    #[trigger] final(dest)@.take(len as int).update(i, b),
                ) == Some(#[trigger] data@.update(k, b)),
{
    cobs::encode(data, dest)
}

/// Calls `cobs::decode`: the number of decoded bytes, which then stand at the
/// front of `dest`, or `None` where the encoding is damaged. `dest` is as long
/// as the encoding, and so never too short.
#[verifier::external_body]
pub(crate) fn decode_cobs(encoded: &[u8], dest: &mut [u8]) -> (len: Option<usize>)
    requires
        old(dest)@.len() >= encoded@.len(),
    ensures
        final(dest)@.len() == old(dest)@.len(),
        len is Some <==> cobs_decoded(encoded@) is Some,
        len matches Some(n) ==> n <= encoded@.len() && cobs_decoded(encoded@) == Some(
            final(dest)@.take(n as int),
        ),
{
    cobs::decode(encoded, dest).ok()
}

proof fn lemma_bzip2_byte(a: u32, b: u32, x: u8, y: u8)
    requires
        (a == b && x != y) || (a != b && x == y),
    ensures
        bzip2_byte(a, x) != bzip2_byte(b, y),
{
    assert forall|r: u32, s: u32| r != s implies #[trigger] bzip2_bit(r) != #[trigger] bzip2_bit(
        s,
    ) by {
        assert(r != s ==> bzip2_bit(r) != bzip2_bit(s)) by (bit_vector);
    }
    let r = a ^ ((x as u32) << 24);
    let s = b ^ ((y as u32) << 24);
    assert((a == b && x != y) || (a != b && x == y) ==> a ^ ((x as u32) << 24) != b ^ ((y as u32)
        << 24)) by (bit_vector);
    assert(bzip2_bit(r) != bzip2_bit(s));
}

proof fn lemma_bzip2_register(data: Seq<u8>, k: int, b: u8)
    requires
        0 <= k < data.len(),
        b != data[k],
    ensures
        bzip2_register(data) != bzip2_register(data.update(k, b)),
    decreases data.len(),
{
    let damaged = data.update(k, b);
    let earlier = data.drop_last();
    if k == data.len() - 1 {
        assert(damaged.drop_last() =~= earlier);
    } else {
        assert(damaged.drop_last() =~= earlier.update(k, b));
        lemma_bzip2_register(earlier, k, b);
    }
    lemma_bzip2_byte(
        bzip2_register(earlier),
        bzip2_register(damaged.drop_last()),
        data.last(),
        damaged.last(),
    );
}

proof fn lemma_iso_hdlc_byte(a: u32, b: u32, x: u8, y: u8)
    requires
        (a == b && x != y) || (a != b && x == y),
    ensures
        iso_hdlc_byte(a, x) != iso_hdlc_byte(b, y),
{
    assert forall|r: u32, s: u32| r != s implies #[trigger] iso_hdlc_bit(r) != #[trigger] iso_hdlc_bit(
        s,
    ) by {
        assert(r != s ==> iso_hdlc_bit(r) != iso_hdlc_bit(s)) by (bit_vector);
    }
    let r = a ^ (x as u32);
    let s = b ^ (y as u32);
    assert((a == b && x != y) || (a != b && x == y) ==> a ^ (x as u32) != b ^ (y as u32))
        by (bit_vector);
    assert(iso_hdlc_bit(r) != iso_hdlc_bit(s));
}

proof fn lemma_iso_hdlc_register(data: Seq<u8>, k: int, b: u8)
    requires
        0 <= k < data.len(),
        b != data[k],
    ensures
        iso_hdlc_register(data) != iso_hdlc_register(data.update(k, b)),
    decreases data.len(),
{
    let damaged = data.update(k, b);
    let earlier = data.drop_last();
    if k == data.len() - 1 {
        assert(damaged.drop_last() =~= earlier);
    } else {
        assert(damaged.drop_last() =~= earlier.update(k, b));
        lemma_iso_hdlc_register(earlier, k, b);
    }
    lemma_iso_hdlc_byte(
        iso_hdlc_register(earlier),
        iso_hdlc_register(damaged.drop_last()),
        data.last(),
        damaged.last(),
    );
}

/// Bytes that differ in one place have different checksums, by either
/// algorithm.
pub proof fn law_one_damaged_byte_changes_the_checksum(data: Seq<u8>, k: int, b: u8)
    requires
        0 <= k < data.len(),
        b != data[k],
    ensures
        crc32_bzip2(data) != crc32_bzip2(data.update(k, b)),
        crc32_iso_hdlc(data) != crc32_iso_hdlc(data.update(k, b)),
{
    lemma_bzip2_register(data, k, b);
    lemma_iso_hdlc_register(data, k, b);
    assert forall|r: u32, s: u32| r != s implies #[trigger] (r ^ 0xFFFF_FFFF) != #[trigger] (s
        ^ 0xFFFF_FFFF) by {
        assert(r != s ==> r ^ 0xFFFF_FFFF != s ^ 0xFFFF_FFFF) by (bit_vector);
    }
}

} // verus!
