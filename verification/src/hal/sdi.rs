//! Printing over the debug interface, which takes seven bytes at a time.

use vstd::prelude::*;
use vstd::string::StringSliceAdditionalSpecFns;

use crate::wire::{law_le_word_reads_back, le_bytes, le_word, word_from_le};

verus! {

/// Where the first word goes. It is zero while the interface is not busy.
pub const DEBUG_DATA0_ADDRESS: u32 = 0xE000_0380;

/// Where the second word goes, which has to be there before the first.
pub const DEBUG_DATA1_ADDRESS: u32 = 0xE000_0384;

/// How many bytes go into two words, behind their number.
pub const SDI_CHUNK_SIZE: usize = 7;

/// The debug interface.
pub struct SDIPrint {}

/// The number of bytes that go next.
pub open spec fn next_len(bytes: Seq<u8>) -> int {
    if bytes.len() < SDI_CHUNK_SIZE {
        bytes.len() as int
    } else {
        SDI_CHUNK_SIZE as int
    }
}

/// Eight bytes with the next bytes behind their number. What is not needed of
/// them stays as it was.
pub open spec fn loaded(data: Seq<u8>, bytes: Seq<u8>) -> Seq<u8> {
    seq![next_len(bytes) as u8] + bytes.take(next_len(bytes)) + data.skip(next_len(bytes) + 1)
}

/// The two words that eight bytes make up.
pub open spec fn words(data: Seq<u8>) -> (u32, u32) {
    (le_word(data.take(4)) as u32, le_word(data.skip(4)) as u32)
}

/// The words for some bytes, where `data` holds the eight bytes that went before.
pub open spec fn packed(data: Seq<u8>, bytes: Seq<u8>) -> Seq<(u32, u32)>
    decreases bytes.len(),
{
    if bytes.len() == 0 {
        Seq::empty()
    } else {
        seq![words(loaded(data, bytes))] + packed(
            loaded(data, bytes),
            bytes.skip(next_len(bytes)),
        )
    }
}

/// The bytes that a reader finds in some words.
pub open spec fn unpacked(words: Seq<(u32, u32)>) -> Seq<u8>
    decreases words.len(),
{
    if words.len() == 0 {
        Seq::empty()
    } else {
        let data = le_bytes(words[0].0) + le_bytes(words[0].1);
        data.subrange(1, 1 + data[0] as int) + unpacked(words.drop_first())
    }
}

/// Eight zeros.
pub open spec fn blank() -> Seq<u8> {
    Seq::new(8, |i: int| 0u8)
}

/// The words for some bytes, in the order in which they are written.
fn pack(bytes: &[u8]) -> (packed_words: Vec<(u32, u32)>)
    ensures
        packed_words@ == packed(blank(), bytes@),
{
    let len: usize = bytes.len();
    let mut data: [u8; 8] = [0; 8];
    let mut packed_words: Vec<(u32, u32)> = Vec::new();
    let mut pos: usize = 0;
    assert(data@ =~= blank());
    assert(bytes@.skip(0) =~= bytes@);
    while pos < len
        invariant
            len == bytes@.len(),
            pos <= len,
            data@.len() == 8,
            packed(blank(), bytes@) == packed_words@ + packed(data@, bytes@.skip(pos as int)),
        decreases len - pos,
    {
        let ghost before = data@;
        let ghost rest = bytes@.skip(pos as int);
        let n: usize = if len - pos < SDI_CHUNK_SIZE {
            len - pos
        } else {
            SDI_CHUNK_SIZE
        };
        let mut i: usize = 0;
        while i < n
            invariant
                i <= n <= SDI_CHUNK_SIZE,
                len == bytes@.len(),
                pos + n <= len,
                data@.len() == 8,
                before.len() == 8,
                rest == bytes@.skip(pos as int),
                forall|j: int| 1 <= j <= i ==> data@[j] == rest[j - 1],
                forall|j: int| i < j < 8 ==> data@[j] == before[j],
            decreases n - i,
        {
            data[i + 1] = bytes[pos + i];
            i = i + 1;
        }
        data[0] = n as u8;
        assert(data@ =~= loaded(before, rest));
        let data1: u32 = word_from_le(data[4], data[5], data[6], data[7]);
        let data0: u32 = word_from_le(data[0], data[1], data[2], data[3]);
        packed_words.push((data0, data1));
        pos = pos + n;
        proof {
            assert((data0, data1) == words(data@));
            assert(rest.skip(n as int) =~= bytes@.skip(pos as int));
        }
    }
    assert(packed(data@, bytes@.skip(pos as int)) =~= Seq::<(u32, u32)>::empty());
    packed_words
}

impl SDIPrint {
    /// The words for a text, in the order in which they are to be written.
    pub fn write_str(&mut self, s: &str) -> (packed_words: Vec<(u32, u32)>)
        ensures
            packed_words@ == packed(blank(), s.spec_bytes()),
    {
        pack(s.as_bytes())
    }
}

proof fn lemma_words_tell_bytes(data: Seq<u8>)
    requires
        data.len() == 8,
    ensures
        le_bytes(words(data).0) + le_bytes(words(data).1) == data,
{
    law_le_word_reads_back(data.take(4));
    law_le_word_reads_back(data.skip(4));
    assert(data.take(4) + data.skip(4) =~= data);
}

/// A reader finds the text in the words.
pub proof fn law_text_reads_back(data: Seq<u8>, bytes: Seq<u8>)
    requires
        data.len() == 8,
    ensures
        unpacked(packed(data, bytes)) == bytes,
    decreases bytes.len(),
{
    if bytes.len() == 0 {
        assert(bytes =~= Seq::<u8>::empty());
    } else {
        let next = loaded(data, bytes);
        let n = next_len(bytes);
        let rest = packed(next, bytes.skip(n));
        law_text_reads_back(next, bytes.skip(n));
        lemma_words_tell_bytes(next);
        assert(packed(data, bytes).drop_first() =~= rest);
        assert(next.subrange(1, 1 + n) =~= bytes.take(n));
        assert(bytes.take(n) + bytes.skip(n) =~= bytes);
    }
}

/// A text goes out in as few pairs of words as hold it, seven bytes in each, and
/// the first byte of a pair tells how many there are.
pub proof fn law_text_goes_out_in_sevens(data: Seq<u8>, bytes: Seq<u8>, i: int)
    requires
        data.len() == 8,
        0 <= i < packed(data, bytes).len(),
    ensures
        7 * packed(data, bytes).len() >= bytes.len() > 7 * (packed(data, bytes).len() - 1),
        7 * (i + 1) <= bytes.len() ==> packed(data, bytes)[i].0 % 256 == 7,
        7 * i < bytes.len() < 7 * (i + 1) ==> packed(data, bytes)[i].0 % 256 == bytes.len() - 7 * i,
    decreases bytes.len(),
{
    let next = loaded(data, bytes);
    let n = next_len(bytes);
    let rest = packed(next, bytes.skip(n));
    lemma_words_tell_bytes(next);
    assert(le_bytes(words(next).0)[0] == next[0]);
    assert(packed(data, bytes)[0] == words(next));
    if i > 0 {
        law_text_goes_out_in_sevens(next, bytes.skip(n), i - 1);
        assert(packed(data, bytes)[i] == rest[i - 1]);
    } else if rest.len() > 0 {
        law_text_goes_out_in_sevens(next, bytes.skip(n), 0);
    } else {
        if bytes.skip(n).len() > 0 {
            assert(packed(next, bytes.skip(n)).len() > 0);
        }
    }
}

} // verus!
