//! The serial ports to the neighbours. Bytes come in through a circular buffer
//! that the hardware fills, and are copied to a ring before it comes round.

use vstd::prelude::*;
use vstd::slice::slice_subrange;

use crate::hal::board::Usart;
use crate::link::delimited;

verus! {

/// The bytes that the ring of a port holds.
pub const USART_RX_CAPACITY: usize = 1024;

/// The bytes of the circular buffer of a port.
pub const USART_RX_DMA_BUFFER_SIZE: usize = 64;

/// The bytes in a ring, the oldest first.
pub uninterp spec fn ring_bytes(ring: fring::Buffer<u8, 1024>) -> Seq<u8>;

/// How many bytes can be read from a ring before it comes round to its start.
pub uninterp spec fn ring_run(ring: fring::Buffer<u8, 1024>) -> nat;

/// The bytes after `piece` was offered: it is taken whole or not at all.
pub open spec fn offered(bytes: Seq<u8>, piece: Seq<u8>) -> Seq<u8> {
    if bytes.len() + piece.len() <= USART_RX_CAPACITY {
        bytes + piece
    } else {
        bytes
    }
}

/// How many bytes a read of `target_len` gives: no more than there are, and no
/// more than stand in one piece.
pub open spec fn readable(bytes: Seq<u8>, run: nat, target_len: int) -> int {
    let available = if bytes.len() <= run {
        bytes.len() as int
    } else {
        run as int
    };
    if target_len <= available {
        target_len
    } else {
        available
    }
}

/// The run that is left when `n` bytes were read, at most as many as a ring
/// holds.
pub open spec fn run_after(run: nat, n: int) -> nat {
    if n < run {
        (run - n) as nat
    } else {
        (run + USART_RX_CAPACITY - n) as nat
    }
}

/// Calls `fring::Buffer::new`: the ring is empty and starts at its start.
#[verifier::external_body]
fn fring_new() -> (ring: fring::Buffer<u8, 1024>)
    ensures
        ring_bytes(ring) == Seq::<u8>::empty(),
        ring_run(ring) == USART_RX_CAPACITY,
{
    fring::Buffer::new()
}

/// Calls `fring::Producer::write_slice`: the bytes come last, or the ring
/// stays as it was where they do not all fit.
#[verifier::external_body]
fn fring_write_slice(ring: &mut fring::Buffer<u8, 1024>, bytes: &[u8]) -> (written: bool)
    ensures
        written <==> ring_bytes(*old(ring)).len() + bytes@.len() <= USART_RX_CAPACITY,
        ring_bytes(*final(ring)) == offered(ring_bytes(*old(ring)), bytes@),
        ring_run(*final(ring)) == ring_run(*old(ring)),
{
    let (mut producer, _) = ring.split();
    producer.write_slice(bytes).is_some()
}

/// Calls `fring::Consumer::data_size`: the number of bytes in the ring, which
/// stays as it was.
#[verifier::external_body]
fn fring_data_size(ring: &mut fring::Buffer<u8, 1024>) -> (size: usize)
    ensures
        size == ring_bytes(*old(ring)).len(),
        size <= USART_RX_CAPACITY,
        ring_bytes(*final(ring)) == ring_bytes(*old(ring)),
        ring_run(*final(ring)) == ring_run(*old(ring)),
{
    let (_, consumer) = ring.split();
    consumer.data_size()
}

/// Calls `fring::Consumer::read` and drops what it returns: as many bytes as
/// are there, were asked for and stand in one piece. They leave the ring.
#[verifier::external_body]
fn fring_read(ring: &mut fring::Buffer<u8, 1024>, target_len: usize) -> (region: Vec<u8>)
    ensures
        region@ == ring_bytes(*old(ring)).take(
            readable(ring_bytes(*old(ring)), ring_run(*old(ring)), target_len as int),
        ),
        ring_bytes(*final(ring)) == ring_bytes(*old(ring)).skip(region@.len() as int),
        ring_run(*final(ring)) == run_after(ring_run(*old(ring)), region@.len() as int),
{
    let (_, mut consumer) = ring.split();
    let region = consumer.read(target_len);
    region.to_vec()
}

/// The receiving side of a port.
pub struct UsartRx {
    usart: Usart,
    ring: fring::Buffer<u8, 1024>,
    /// How many of the bytes in the ring are zero.
    zeros: usize,
}

/// What a port has received.
pub struct RxModel {
    /// Which port it is.
    pub usart: Usart,
    /// The bytes that have not been read, the oldest first.
    pub bytes: Seq<u8>,
    /// How many of them can be read in one piece.
    pub run: nat,
}

impl RxModel {
    /// What holds of every port.
    pub open spec fn inv(self) -> bool {
        self.bytes.len() <= USART_RX_CAPACITY && 1 <= self.run <= USART_RX_CAPACITY
    }

    /// What is left when a piece was offered.
    pub open spec fn offered(self, piece: Seq<u8>) -> RxModel {
        RxModel { bytes: offered(self.bytes, piece), ..self }
    }

    /// What a read of `target_len` gives.
    pub open spec fn region(self, target_len: int) -> Seq<u8> {
        self.bytes.take(readable(self.bytes, self.run, target_len))
    }

    /// What is left when the first `n` bytes were read.
    pub open spec fn consumed(self, n: int) -> RxModel {
        RxModel { bytes: self.bytes.skip(n), run: run_after(self.run, n), ..self }
    }
}

impl View for UsartRx {
    type V = RxModel;

    closed spec fn view(&self) -> RxModel {
        RxModel { usart: self.usart, bytes: ring_bytes(self.ring), run: ring_run(self.ring) }
    }
}

/// How many of some bytes are zero.
pub open spec fn zero_count(bytes: Seq<u8>) -> nat
    decreases bytes.len(),
{
    if bytes.len() == 0 {
        0
    } else {
        zero_count(bytes.drop_last()) + if bytes.last() == 0 {
            1nat
        } else {
            0
        }
    }
}

proof fn lemma_zero_count_adds_up(first: Seq<u8>, second: Seq<u8>)
    ensures
        zero_count(first + second) == zero_count(first) + zero_count(second),
    decreases second.len(),
{
    if second.len() == 0 {
        assert(first + second =~= first);
    } else {
        assert((first + second).drop_last() =~= first + second.drop_last());
        lemma_zero_count_adds_up(first, second.drop_last());
    }
}

proof fn lemma_zero_count(bytes: Seq<u8>)
    ensures
        zero_count(bytes) <= bytes.len(),
        zero_count(bytes) > 0 <==> bytes.contains(0u8),
    decreases bytes.len(),
{
    if bytes.len() > 0 {
        let earlier = bytes.drop_last();
        lemma_zero_count(earlier);
        if earlier.contains(0u8) {
            let i = choose|i: int| 0 <= i < earlier.len() && earlier[i] == 0u8;
            assert(bytes[i] == 0u8);
        }
        if bytes.contains(0u8) && bytes.last() != 0 {
            let i = choose|i: int| 0 <= i < bytes.len() && bytes[i] == 0u8;
            assert(earlier[i] == 0u8);
        }
        if bytes.last() == 0 {
            assert(bytes[bytes.len() - 1] == 0u8);
        }
    }
}

fn count_zeros(bytes: &[u8]) -> (zeros: usize)
    ensures
        zeros == zero_count(bytes@),
{
    let mut zeros: usize = 0;
    let mut i: usize = 0;
    while i < bytes.len()
        invariant
            zeros == zero_count(bytes@.take(i as int)),
            zeros <= i <= bytes@.len(),
        decreases bytes@.len() - i,
    {
        assert(bytes@.take(i + 1).drop_last() =~= bytes@.take(i as int));
        if bytes[i] == 0 {
            zeros = zeros + 1;
        }
        i = i + 1;
    }
    assert(bytes@.take(bytes@.len() as int) =~= bytes@);
    zeros
}

impl UsartRx {
    /// What holds of every port.
    pub open spec fn inv(self) -> bool {
        self@.inv() && self.zeros_are_counted()
    }

    /// Whether the zeros in the ring were counted right.
    pub closed spec fn zeros_are_counted(self) -> bool {
        self.zeros == zero_count(self@.bytes)
    }

    /// A port that has received nothing.
    pub fn new(usart: Usart) -> (rx: UsartRx)
        ensures
            rx@ == (RxModel { usart, bytes: Seq::empty(), run: USART_RX_CAPACITY as nat }),
            rx.inv(),
    {
        UsartRx { usart, ring: fring_new(), zeros: 0 }
    }

    /// Which port it is.
    pub fn usart(&self) -> (usart: Usart)
        ensures
            usart == self@.usart,
    {
        self.usart
    }

    /// Takes in a piece, or drops it where it does not fit.
    pub fn receive(&mut self, piece: &[u8])
        requires
            old(self).inv(),
        ensures
            final(self)@ == old(self)@.offered(piece@),
            final(self).inv(),
    {
        let written = fring_write_slice(&mut self.ring, piece);
        if written {
            let zeros: usize = count_zeros(piece);
            proof {
                lemma_zero_count_adds_up(old(self)@.bytes, piece@);
                lemma_zero_count(old(self)@.bytes + piece@);
            }
            self.zeros = self.zeros + zeros;
        }
    }

    /// The number of bytes that have not been read.
    pub fn data_size(&mut self) -> (size: usize)
        ensures
            size == old(self)@.bytes.len(),
            final(self)@ == old(self)@,
            old(self).inv() ==> final(self).inv(),
    {
        fring_data_size(&mut self.ring)
    }

    /// Reads at most `target_len` bytes, without waiting for any.
    pub fn read_nb(&mut self, target_len: usize) -> (region: Vec<u8>)
        requires
            old(self).inv(),
        ensures
            region@ == old(self)@.region(target_len as int),
            final(self)@ == old(self)@.consumed(region@.len() as int),
            final(self).inv(),
    {
        let region = fring_read(&mut self.ring, target_len);
        let zeros: usize = count_zeros(region.as_slice());
        proof {
            let n = region@.len() as int;
            assert(old(self)@.bytes =~= region@ + old(self)@.bytes.skip(n));
            lemma_zero_count_adds_up(region@, old(self)@.bytes.skip(n));
        }
        self.zeros = self.zeros - zeros;
        region
    }

    /// Reads at most `target_len` bytes, or returns `None` where there is
    /// nothing to read yet.
    pub fn read(&mut self, target_len: usize) -> (region: Option<Vec<u8>>)
        requires
            old(self).inv(),
        ensures
            region is Some <==> old(self)@.bytes.len() > 0,
            region matches Some(r) ==> r@ == old(self)@.region(target_len as int) && final(self)@
                == old(self)@.consumed(r@.len() as int),
            region is None ==> final(self)@ == old(self)@,
            final(self).inv(),
    {
        if self.data_size() > 0 {
            Some(self.read_nb(target_len))
        } else {
            None
        }
    }

    /// Reads up to a zero, also where the ring comes round to its start before
    /// it, or returns `None` where there is no zero to read yet. Nothing is
    /// read then. Where the port is full and holds no zero, none can come in:
    /// the answer stays `None` until something is read in another way.
    pub fn read_until_zero(&mut self) -> (region: Option<Vec<u8>>)
        requires
            old(self).inv(),
        ensures
            region is Some <==> old(self)@.bytes.contains(0u8),
            region matches Some(r) ==> {
                &&& delimited(r@)
                &&& r@ == old(self)@.bytes.take(r@.len() as int)
                &&& final(self)@ == old(self)@.consumed(r@.len() as int)
            },
            region is None ==> final(self)@ == old(self)@,
            final(self).inv(),
    {
        proof {
            lemma_zero_count(self@.bytes);
        }
        if self.zeros == 0 {
            return None;
        }
        let ghost all = self@;
        let mut collected: Vec<u8> = Vec::new();
        assert(all.bytes.take(0) =~= collected@);
        assert(all.bytes.skip(0) =~= all.bytes);
        loop
            invariant
                all == old(self)@,
                all.inv(),
                self.inv(),
                self.zeros > 0,
                collected@.len() < all.bytes.len(),
                collected@ == all.bytes.take(collected@.len() as int),
                self@ == all.consumed(collected@.len() as int),
                all.bytes.contains(0u8),
                forall|i: int| 0 <= i < collected@.len() ==> collected@[i] != 0,
            decreases self@.bytes.len(),
        {
            let ghost n = collected@.len() as int;
            let ghost left = self@.bytes;
            let byte = self.read_nb(1);
            assert(byte@ =~= seq![all.bytes[n]]);
            collected.push(byte[0]);
            proof {
                assert(collected@ =~= all.bytes.take(n + 1));
                assert(left.skip(1) =~= all.bytes.skip(n + 1));
                assert(self@ == all.consumed(n + 1));
            }
            if byte[0] == 0 {
                return Some(collected);
            }
            proof {
                assert(left =~= byte@ + left.skip(1));
                lemma_zero_count_adds_up(byte@, left.skip(1));
                lemma_zero_count(byte@);
                lemma_zero_count(left.skip(1));
            }
        }
    }
}

/// What the hardware reports of a circular buffer.
#[derive(Clone, Copy, PartialEq, Eq, Structural, Debug)]
pub struct RxDmaStatus {
    /// A transfer failed.
    pub teif: bool,
    /// The first half was filled.
    pub htif: bool,
    /// The buffer was filled to its end.
    pub tcif: bool,
    /// How many bytes are left to its end.
    pub ndtr: usize,
}

/// What became of the bytes in a circular buffer.
#[derive(Clone, Copy, PartialEq, Eq, Structural, Debug)]
pub enum RxCopy {
    /// A transfer failed.
    TransferError,
    /// There were no new bytes.
    Nothing,
    /// The new bytes were offered to the port. The reader has to be woken.
    Copied,
}

/// Where the bytes begin that have not been copied yet: where the last copy
/// ended, unless the buffer came round in the meantime.
pub open spec fn copy_start(status: RxDmaStatus, size: int, last_pos: usize) -> int {
    if status.htif && status.tcif {
        size - status.ndtr
    } else {
        last_pos as int
    }
}

/// The port when the bytes from `start` to `end` were offered, in two pieces
/// where they come round.
pub open spec fn copied(rx: RxModel, dma_buffer: Seq<u8>, start: int, end: int) -> RxModel {
    if start <= end {
        rx.offered(dma_buffer.subrange(start, end))
    } else {
        rx.offered(dma_buffer.skip(start)).offered(dma_buffer.take(end))
    }
}

/// What a port has received when the hardware reported of its circular buffer.
pub open spec fn rx_after(
    rx: RxModel,
    dma_buffer: Seq<u8>,
    status: RxDmaStatus,
    last_pos: usize,
) -> RxModel {
    let start = copy_start(status, dma_buffer.len() as int, last_pos);
    let end = dma_buffer.len() - status.ndtr;
    if status.teif || start == end {
        rx
    } else {
        copied(rx, dma_buffer, start, end)
    }
}

/// Generic USART RX handler - handles data copy from DMA buffer to the port.
/// Where both halves were filled since the last time we are too slow: what
/// came in is lost, and copying goes on from the current position.
pub fn handle_usart_rx_copy(
    rx: &mut UsartRx,
    dma_buffer: &[u8],
    status: RxDmaStatus,
    last_pos: &mut usize,
) -> (copy: RxCopy)
    requires
        old(rx).inv(),
        status.ndtr <= dma_buffer@.len(),
        *old(last_pos) <= dma_buffer@.len(),
    ensures
        final(rx).inv(),
        final(rx)@ == rx_after(old(rx)@, dma_buffer@, status, *old(last_pos)),
        status.teif ==> copy is TransferError && final(rx)@ == old(rx)@ && *final(last_pos) == *old(
            last_pos,
        ),
        !status.teif ==> {
            let start = copy_start(status, dma_buffer@.len() as int, *old(last_pos));
            let end = dma_buffer@.len() - status.ndtr;
            &&& copy == if start == end {
                RxCopy::Nothing
            } else {
                RxCopy::Copied
            }
            &&& final(rx)@ == if start == end {
                old(rx)@
            } else {
                copied(old(rx)@, dma_buffer@, start, end)
            }
            &&& *final(last_pos) == end
        },
{
    if status.teif {
        return RxCopy::TransferError;
    }
    // Get current DMA position
    let current_pos: usize = dma_buffer.len() - status.ndtr;
    // Check for overrun: both HT and TC set means we're too slow
    if status.htif && status.tcif {
        // Overrun: skip copying, just update position to current DMA position
        *last_pos = current_pos;
    }
    if current_pos == *last_pos {
        return RxCopy::Nothing;
    }
    if current_pos > *last_pos {
        // Copy 1 contiguous src region
        rx.receive(slice_subrange(dma_buffer, *last_pos, current_pos));
    } else {
        // Wraparound--copy 2 contiguous src regions
        let tail = slice_subrange(dma_buffer, *last_pos, dma_buffer.len());
        assert(tail@ =~= dma_buffer@.skip(*last_pos as int));
        rx.receive(tail);
        let head = slice_subrange(dma_buffer, 0, current_pos);
        assert(head@ =~= dma_buffer@.take(current_pos as int));
        rx.receive(head);
    }
    *last_pos = current_pos;
    RxCopy::Copied
}

/// How many bytes came in between two positions of a circular buffer.
pub open spec fn distance(size: int, start: int, end: int) -> int {
    if start <= end {
        end - start
    } else {
        size - start + end
    }
}

/// A copy carries over every byte between the two positions, once and in the
/// order in which they came, as long as the port has room for them.
pub proof fn law_copy_is_complete(rx: RxModel, dma_buffer: Seq<u8>, start: int, end: int)
    requires
        0 <= start <= dma_buffer.len(),
        0 <= end <= dma_buffer.len(),
        rx.bytes.len() + distance(dma_buffer.len() as int, start, end) <= USART_RX_CAPACITY,
    ensures
        copied(rx, dma_buffer, start, end).bytes == rx.bytes + Seq::new(
            distance(dma_buffer.len() as int, start, end) as nat,
            |i: int|
                if start + i < dma_buffer.len() {
                    dma_buffer[start + i]
                } else {
                    dma_buffer[start + i - dma_buffer.len()]
                },
        ),
{
    let came = Seq::new(
        distance(dma_buffer.len() as int, start, end) as nat,
        |i: int|
            if start + i < dma_buffer.len() {
                dma_buffer[start + i]
            } else {
                dma_buffer[start + i - dma_buffer.len()]
            },
    );
    assert(copied(rx, dma_buffer, start, end).bytes =~= rx.bytes + came);
}

/// What goes in comes out, in the same order, however it is read.
pub proof fn law_port_keeps_the_order(m: RxModel, piece: Seq<u8>, target_len: int)
    requires
        m.inv(),
        target_len >= 0,
        m.bytes.len() + piece.len() <= USART_RX_CAPACITY,
    ensures
        m.offered(piece).bytes == m.bytes + piece,
        m.region(target_len) + m.consumed(m.region(target_len).len() as int).bytes == m.bytes,
        target_len > 0 && m.bytes.len() > 0 ==> m.region(target_len).len() > 0,
{
    assert(m.region(target_len) + m.consumed(m.region(target_len).len() as int).bytes =~= m.bytes);
}

/// A port that is full without a zero in it drops whatever comes in, so no
/// amount of waiting brings a zero.
pub proof fn law_full_port_without_a_zero_waits(m: RxModel, piece: Seq<u8>)
    requires
        m.bytes.len() == USART_RX_CAPACITY,
        !m.bytes.contains(0u8),
        piece.len() > 0,
    ensures
        m.offered(piece) == m,
{
}

/// Frames that were taken in one after another are read up to a zero one after
/// another, however the ring lies.
pub proof fn law_frames_come_out_whole(frame: Seq<u8>, rest: Seq<u8>, n: int)
    requires
        delimited(frame),
        0 < n <= frame.len() + rest.len(),
        delimited((frame + rest).take(n)),
    ensures
        (frame + rest).take(n) == frame,
        (frame + rest).skip(n) == rest,
{
    let all = frame + rest;
    let read = all.take(n);
    if n < frame.len() {
        assert(read[n - 1] == frame[n - 1]);
    }
    if n > frame.len() {
        assert(read[frame.len() - 1] == frame[frame.len() - 1]);
    }
    assert(read =~= frame);
    assert(all.skip(n) =~= rest);
}

/// The sending side of a port.
#[derive(Clone, Copy, PartialEq, Eq, Structural, Debug)]
pub struct UsartTx {
    /// The channel that moves its bytes, counted from one.
    pub dma_ch: usize,
}

/// A transfer to start.
#[derive(Clone, Copy, PartialEq, Eq, Structural, Debug)]
pub struct DmaTransfer {
    /// The channel, counted from zero.
    pub channel: usize,
    /// The number of bytes.
    pub count: u16,
}

/// The transfer that sends so many bytes over a channel that is counted from one.
pub open spec fn transfer(dma_ch: int, len: int) -> Option<DmaTransfer> {
    if len == 0 {
        None
    } else {
        Some(DmaTransfer { channel: (dma_ch - 1) as usize, count: len as u16 })
    }
}

/// What the flags of a channel mean.
pub open spec fn tx_event(teif: bool, tcif: bool) -> TxDmaEvent {
    if teif {
        TxDmaEvent::TransferError
    } else if tcif {
        TxDmaEvent::Complete
    } else {
        TxDmaEvent::Nothing
    }
}

impl UsartTx {
    /// The transfer that sends some bytes, or `None` where there are none. A
    /// transfer cannot be longer than its counter tells.
    pub fn write(&self, data: &[u8]) -> (sent: Option<DmaTransfer>)
        requires
            self.dma_ch >= 1,
            data@.len() <= 0xFFFF,
        ensures
            sent == transfer(self.dma_ch as int, data@.len() as int),
            data@.len() == 0 ==> sent is None,
            data@.len() > 0 ==> sent == Some(
                DmaTransfer { channel: (self.dma_ch - 1) as usize, count: data@.len() as u16 },
            ),
    {
        if data.len() == 0 {
            return None;
        }
        Some(DmaTransfer { channel: self.dma_ch - 1, count: data.len() as u16 })
    }
}

/// What became of a transfer.
#[derive(Clone, Copy, PartialEq, Eq, Structural, Debug)]
pub enum TxDmaEvent {
    /// It failed.
    TransferError,
    /// It is complete: the channel is to be disabled, and the writer woken.
    Complete,
    /// It goes on.
    Nothing,
}

/// Generic USART TX DMA interrupt handler: what the flags of a channel mean.
pub fn handle_usart_tx_dma_interrupt(teif: bool, tcif: bool) -> (event: TxDmaEvent)
    ensures
        event == tx_event(teif, tcif),
        event == if teif {
            TxDmaEvent::TransferError
        } else if tcif {
            TxDmaEvent::Complete
        } else {
            TxDmaEvent::Nothing
        },
{
    if teif {
        return TxDmaEvent::TransferError;
    }
    if tcif {
        TxDmaEvent::Complete
    } else {
        TxDmaEvent::Nothing
    }
}

/// A piece is taken in whole behind what is there, or dropped whole where the
/// two are more than the port holds.
pub proof fn law_piece_is_taken_whole_or_not(m: RxModel, piece: Seq<u8>)
    ensures
        m.bytes.len() + piece.len() <= 1024 ==> m.offered(piece).bytes == m.bytes + piece,
        m.bytes.len() + piece.len() > 1024 ==> m.offered(piece).bytes == m.bytes,
        m.offered(piece).usart == m.usart,
        m.offered(piece).run == m.run,
{
}

/// A read gives the oldest bytes: all that were asked for, unless there are
/// fewer, or fewer up to the end of the ring. They leave the port.
pub proof fn law_read_gives_the_oldest_bytes(m: RxModel, target_len: int)
    requires
        m.inv(),
        target_len >= 0,
    ensures
        ({
            let n = m.region(target_len).len();
            &&& m.region(target_len) == m.bytes.take(n as int)
            &&& n <= target_len && n <= m.bytes.len() && n <= m.run
            &&& n == target_len || n == m.bytes.len() || n == m.run
            &&& m.consumed(n as int).bytes == m.bytes.skip(n as int)
            &&& m.consumed(n as int).usart == m.usart
            &&& n < m.run ==> m.consumed(n as int).run == m.run - n
            &&& n == m.run ==> m.consumed(n as int).run == 1024
            &&& m.consumed(n as int).inv()
        }),
{
}

/// Copying goes on where it last ended. Where both halves of the buffer were
/// filled in between, what came in is lost, and copying goes on behind it.
pub proof fn law_copying_goes_on(status: RxDmaStatus, size: int, last_pos: usize)
    ensures
        status.htif && status.tcif ==> copy_start(status, size, last_pos) == size - status.ndtr,
        !status.htif || !status.tcif ==> copy_start(status, size, last_pos) == last_pos,
{
}

/// What lies between two positions of a circular buffer is offered in one piece,
/// or in two where it comes round: first up to the end, then from the start.
pub proof fn law_copy_offers_what_came_in(rx: RxModel, dma_buffer: Seq<u8>, start: int, end: int)
    requires
        0 <= start <= dma_buffer.len(),
        0 <= end <= dma_buffer.len(),
    ensures
        start <= end ==> copied(rx, dma_buffer, start, end) == rx.offered(
            dma_buffer.subrange(start, end),
        ),
        start > end ==> copied(rx, dma_buffer, start, end) == rx.offered(
            dma_buffer.subrange(start, dma_buffer.len() as int),
        ).offered(dma_buffer.subrange(0, end)),
{
    assert(dma_buffer.skip(start) =~= dma_buffer.subrange(start, dma_buffer.len() as int));
    assert(dma_buffer.take(end) =~= dma_buffer.subrange(0, end));
}

/// Any number of bytes but none is a transfer of as many, over the channel before
/// the one that is counted from one.
pub proof fn law_all_bytes_are_transferred(dma_ch: int, len: int)
    requires
        1 <= dma_ch <= usize::MAX,
        0 <= len <= 0xFFFF,
    ensures
        transfer(dma_ch, len) is Some <==> len > 0,
        transfer(dma_ch, len) matches Some(t) ==> t.channel + 1 == dma_ch && t.count == len,
{
}

/// A failure comes before all else, and without one a transfer is complete
/// exactly when the hardware says so.
pub proof fn law_flags_tell_the_event(teif: bool, tcif: bool)
    ensures
        tx_event(teif, tcif) is TransferError <==> teif,
        tx_event(teif, tcif) is Complete <==> tcif && !teif,
{
}

/// Without a failure, and unless both halves of the buffer were filled, a port
/// that has room for them receives all the bytes from where copying last ended to
/// where the hardware is. Otherwise it receives nothing.
pub proof fn law_port_receives_what_came_in(
    rx: RxModel,
    dma_buffer: Seq<u8>,
    status: RxDmaStatus,
    last_pos: usize,
)
    requires
        status.ndtr <= dma_buffer.len(),
        last_pos <= dma_buffer.len(),
    ensures
        ({
            let end = dma_buffer.len() - status.ndtr;
            let after = rx_after(rx, dma_buffer, status, last_pos);
            &&& status.teif ==> after == rx
            &&& status.htif && status.tcif ==> after == rx
            &&& !status.teif && !(status.htif && status.tcif) && last_pos <= end
                && rx.bytes.len() + (end - last_pos) <= 1024 ==> after.bytes == rx.bytes
                + dma_buffer.subrange(last_pos as int, end)
            &&& !status.teif && !(status.htif && status.tcif) && last_pos > end
                && rx.bytes.len() + (dma_buffer.len() - last_pos + end) <= 1024 ==> after.bytes
                == rx.bytes + dma_buffer.subrange(last_pos as int, dma_buffer.len() as int)
                + dma_buffer.subrange(0, end)
        }),
{
    let end = dma_buffer.len() - status.ndtr;
    law_copy_offers_what_came_in(rx, dma_buffer, last_pos as int, end);
    if last_pos == end {
        assert(rx.bytes + dma_buffer.subrange(end, end) =~= rx.bytes);
    }
}

} // verus!
