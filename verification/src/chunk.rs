//! Byte strings of bounded length, kept in place.

use vstd::prelude::*;

verus! {

/// The most bytes that a chunk holds.
pub const CHUNK_CAPACITY: usize = 256;

/// Up to `CHUNK_CAPACITY` bytes.
#[verifier::external_body]
#[derive(Debug)]
pub struct Chunk {
    pub(crate) inner: heapless::Vec<u8, 256>,
}

/// The bytes in the `heapless::Vec` of a chunk.
pub uninterp spec fn chunk_bytes(chunk: Chunk) -> Seq<u8>;

impl View for Chunk {
    type V = Seq<u8>;

    open spec fn view(&self) -> Seq<u8> {
        chunk_bytes(*self)
    }
}

/// Calls `heapless::Vec::new`: the vector is empty.
#[verifier::external_body]
fn heapless_new() -> (chunk: Chunk)
    ensures
        chunk_bytes(chunk) == Seq::<u8>::empty(),
{
    Chunk { inner: heapless::Vec::new() }
}

/// Calls `heapless::Vec::from_slice`: it holds the bytes of the slice, or
/// fails where they are more than the capacity.
#[verifier::external_body]
fn heapless_from_slice(bytes: &[u8]) -> (chunk: Option<Chunk>)
    ensures
        chunk is Some <==> bytes@.len() <= CHUNK_CAPACITY,
        chunk matches Some(c) ==> chunk_bytes(c) == bytes@,
{
    heapless::Vec::from_slice(bytes).ok().map(|inner| Chunk { inner })
}

/// Calls `heapless::Vec::push`: the byte comes last, or is handed back where
/// the vector is full, which then stays as it was.
#[verifier::external_body]
fn heapless_push(chunk: &mut Chunk, byte: u8) -> (pushed: Result<(), u8>)
    ensures
        pushed is Ok <==> chunk_bytes(*old(chunk)).len() < CHUNK_CAPACITY,
        pushed is Ok ==> chunk_bytes(*final(chunk)) == chunk_bytes(*old(chunk)).push(byte),
        pushed matches Err(back) ==> back == byte && chunk_bytes(*final(chunk)) == chunk_bytes(
            *old(chunk),
        ),
{
    chunk.inner.push(byte)
}

/// Calls `heapless::Vec::as_slice`: the bytes of the vector, which are never
/// more than the capacity.
#[verifier::external_body]
fn heapless_as_slice(chunk: &Chunk) -> (bytes: &[u8])
    ensures
        bytes@ == chunk_bytes(*chunk),
        bytes@.len() <= CHUNK_CAPACITY,
{
    chunk.inner.as_slice()
}

/// Calls `clone` on the `heapless::Vec`: the copy holds the same bytes.
#[verifier::external_body]
fn heapless_clone(chunk: &Chunk) -> (copy: Chunk)
    ensures
        chunk_bytes(copy) == chunk_bytes(*chunk),
{
    Chunk { inner: chunk.inner.clone() }
}

impl Chunk {
    /// A chunk without bytes.
    pub fn new() -> (chunk: Chunk)
        ensures
            chunk@ == Seq::<u8>::empty(),
    {
        heapless_new()
    }

    /// A chunk with the given bytes, unless they are too many.
    pub fn from_slice(bytes: &[u8]) -> (chunk: Option<Chunk>)
        ensures
            chunk is Some <==> bytes@.len() <= CHUNK_CAPACITY,
            chunk matches Some(c) ==> c@ == bytes@,
    {
        heapless_from_slice(bytes)
    }

    /// Appends a byte, or hands it back where the chunk is full.
    pub fn push(&mut self, byte: u8) -> (pushed: Result<(), u8>)
        ensures
            pushed is Ok <==> old(self)@.len() < CHUNK_CAPACITY,
            pushed is Ok ==> final(self)@ == old(self)@.push(byte),
            pushed matches Err(back) ==> back == byte && final(self)@ == old(self)@,
    {
        heapless_push(self, byte)
    }

    /// The bytes.
    pub fn as_slice(&self) -> (bytes: &[u8])
        ensures
            bytes@ == self@,
            bytes@.len() <= CHUNK_CAPACITY,
    {
        heapless_as_slice(self)
    }

    /// The number of bytes.
    pub fn len(&self) -> (len: usize)
        ensures
            len == self@.len(),
            len <= CHUNK_CAPACITY,
    {
        self.as_slice().len()
    }

    /// The most bytes that the chunk can hold.
    pub fn capacity(&self) -> (capacity: usize)
        ensures
            capacity == CHUNK_CAPACITY,
    {
        CHUNK_CAPACITY
    }
}

impl Clone for Chunk {
    fn clone(&self) -> (copy: Chunk)
        ensures
            copy@ == self@,
    {
        heapless_clone(self)
    }
}

impl Default for Chunk {
    fn default() -> (chunk: Chunk)
        ensures
            chunk@ == Seq::<u8>::empty(),
    {
        Chunk::new()
    }
}

} // verus!
