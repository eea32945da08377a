//! Cutting a stream of received bytes into packets.

use vstd::prelude::*;
use vstd::slice::{slice_subrange, slice_to_vec};

use crate::link::delimited;
use crate::proto::MAX_PACKET_LEN;

verus! {

/// The bytes that were received since the last zero.
#[verifier::external_body]
#[derive(Debug)]
pub struct RxBuffer {
    inner: heapless::Vec<u8, 300>,
}

/// The bytes in the `heapless::Vec` of a receive buffer.
pub uninterp spec fn rx_bytes(buffer: RxBuffer) -> Seq<u8>;

/// Calls `heapless::Vec::new`: the vector is empty.
#[verifier::external_body]
fn heapless_new() -> (buffer: RxBuffer)
    ensures
        rx_bytes(buffer) == Seq::<u8>::empty(),
{
    RxBuffer { inner: heapless::Vec::new() }
}

/// Calls `heapless::Vec::extend_from_slice`: the bytes are appended, or
/// nothing changes where they do not fit.
#[verifier::external_body]
fn heapless_extend(buffer: &mut RxBuffer, bytes: &[u8]) -> (extended: Result<(), ()>)
    ensures
        extended is Ok <==> rx_bytes(*old(buffer)).len() + bytes@.len() <= MAX_PACKET_LEN,
        rx_bytes(*final(buffer)) == if extended is Ok {
            rx_bytes(*old(buffer)) + bytes@
        } else {
            rx_bytes(*old(buffer))
        },
{
    buffer.inner.extend_from_slice(bytes).map_err(|_| ())
}

/// Calls `heapless::Vec::as_slice`: the bytes of the vector, which are never
/// more than the capacity.
#[verifier::external_body]
fn heapless_as_slice(buffer: &RxBuffer) -> (bytes: &[u8])
    ensures
        bytes@ == rx_bytes(*buffer),
        bytes@.len() <= MAX_PACKET_LEN,
{
    buffer.inner.as_slice()
}

/// Calls `heapless::Vec::drain` on the first `n` bytes and drops what it
/// returns: the bytes leave the vector. The vector has that many, since the
/// function panics without.
#[verifier::external_body]
fn heapless_drain(buffer: &mut RxBuffer, n: usize)
    requires
        n <= rx_bytes(*old(buffer)).len(),
    ensures
        rx_bytes(*final(buffer)) == rx_bytes(*old(buffer)).skip(n as int),
{
    buffer.inner.drain(..n);
}

/// The state of a framer.
pub struct FramerModel {
    /// What was received since the last zero.
    pub pending: Seq<u8>,
    /// Whether something was lost since the last zero.
    pub overrun: bool,
}

impl FramerModel {
    /// The state after one more byte.
    pub open spec fn heard(self, byte: u8) -> FramerModel {
        if byte == 0 {
            FramerModel { pending: Seq::empty(), overrun: false }
        } else {
            FramerModel { pending: self.pending.push(byte), overrun: self.overrun }
        }
    }

    /// The frame that a byte completes: a zero ends one unless nothing stands
    /// before it or something was lost.
    pub open spec fn completed(self, byte: u8) -> Seq<Seq<u8>> {
        if byte == 0 && self.pending.len() > 0 && !self.overrun {
            seq![self.pending.push(byte)]
        } else {
            Seq::empty()
        }
    }

    /// The state after some more bytes.
    pub open spec fn scanned(self, bytes: Seq<u8>) -> FramerModel
        decreases bytes.len(),
    {
        if bytes.len() == 0 {
            self
        } else {
            self.scanned(bytes.drop_last()).heard(bytes.last())
        }
    }

    /// The frames that some more bytes complete.
    pub open spec fn frames(self, bytes: Seq<u8>) -> Seq<Seq<u8>>
        decreases bytes.len(),
    {
        if bytes.len() == 0 {
            Seq::empty()
        } else {
            self.frames(bytes.drop_last()) + self.scanned(bytes.drop_last()).completed(bytes.last())
        }
    }

    /// The state after some more bytes came in at once. A full buffer counts
    /// as an overrun: what is in it is dropped, and what comes up to the next
    /// zero is lost, too.
    pub open spec fn fed(self, bytes: Seq<u8>) -> FramerModel {
        let after = self.scanned(bytes);
        if after.pending.len() == MAX_PACKET_LEN {
            FramerModel { pending: Seq::empty(), overrun: true }
        } else {
            after
        }
    }

    /// The state after some pieces came in one after another.
    pub open spec fn fed_all(self, pieces: Seq<Seq<u8>>) -> FramerModel
        decreases pieces.len(),
    {
        if pieces.len() == 0 {
            self
        } else {
            self.fed_all(pieces.drop_last()).fed(pieces.last())
        }
    }

    /// The frames that some pieces complete.
    pub open spec fn all_frames(self, pieces: Seq<Seq<u8>>) -> Seq<Seq<u8>>
        decreases pieces.len(),
    {
        if pieces.len() == 0 {
            Seq::empty()
        } else {
            self.all_frames(pieces.drop_last()) + self.fed_all(pieces.drop_last()).frames(
                pieces.last(),
            )
        }
    }

    /// What holds of every framer: the bytes since the last zero hold none,
    /// and leave room in the buffer.
    pub open spec fn inv(self) -> bool {
        &&& self.pending.len() < MAX_PACKET_LEN
        &&& forall|i: int| 0 <= i < self.pending.len() ==> self.pending[i] != 0
    }
}

/// Collects received bytes until a zero ends a frame.
#[derive(Debug)]
pub struct Framer {
    rx_buffer: RxBuffer,
    overrun: bool,
}

impl View for Framer {
    type V = FramerModel;

    closed spec fn view(&self) -> FramerModel {
        FramerModel { pending: rx_bytes(self.rx_buffer), overrun: self.overrun }
    }
}

impl Framer {
    #[verifier::type_invariant]
    spec fn type_inv(self) -> bool {
        self@.inv()
    }

    /// A framer that has received nothing.
    pub fn new() -> (framer: Framer)
        ensures
            framer@ == (FramerModel { pending: Seq::empty(), overrun: false }),
    {
        Framer { rx_buffer: heapless_new(), overrun: false }
    }

    /// How many bytes can be fed at once. There is always room for one.
    pub fn room(&self) -> (room: usize)
        ensures
            room == MAX_PACKET_LEN - self@.pending.len(),
            room >= 1,
    {
        proof {
            use_type_invariant(self);
        }
        MAX_PACKET_LEN - heapless_as_slice(&self.rx_buffer).len()
    }

    /// Takes in some bytes and returns the frames that they complete, the
    /// zero at the end of each included.
    pub fn feed(&mut self, region: &[u8]) -> (frames: Vec<Vec<u8>>)
        requires
            old(self)@.pending.len() + region@.len() <= MAX_PACKET_LEN,
        ensures
            final(self)@ == old(self)@.fed(region@),
            final(self)@.inv(),
            frames@.len() == old(self)@.frames(region@).len(),
            forall|i: int|
                0 <= i < frames@.len() ==> (#[trigger] frames@[i])@ == old(self)@.frames(region@)[i],
    {
        proof {
            use_type_invariant(&*self);
        }
        let ghost m = self@;
        let mut rx_buffer = heapless_new();
        std::mem::swap(&mut rx_buffer, &mut self.rx_buffer);
        let start: usize = heapless_as_slice(&rx_buffer).len();
        let added = heapless_extend(&mut rx_buffer, region);
        let mut overrun = self.overrun;
        let mut frames: Vec<Vec<u8>> = Vec::new();
        let mut i: usize = start;
        let ghost mut k: int = 0;
        let mut len: usize = heapless_as_slice(&rx_buffer).len();
        proof {
            assert(region@.take(0) =~= Seq::<u8>::empty());
            assert(region@.skip(0) =~= region@);
            assert(rx_bytes(rx_buffer) =~= m.pending + region@);
        }
        while i < len
            invariant
                0 <= k <= region@.len(),
                m.inv(),
                forall|j: int|
                    0 <= j < m.scanned(region@.take(k)).pending.len() ==> m.scanned(
                        region@.take(k),
                    ).pending[j] != 0,
                rx_bytes(rx_buffer) == m.scanned(region@.take(k)).pending + region@.skip(k),
                rx_bytes(rx_buffer).len() <= MAX_PACKET_LEN,
                len == rx_bytes(rx_buffer).len(),
                i == m.scanned(region@.take(k)).pending.len(),
                overrun == m.scanned(region@.take(k)).overrun,
                frames@.len() == m.frames(region@.take(k)).len(),
                forall|j: int|
                    0 <= j < frames@.len() ==> (#[trigger] frames@[j])@ == m.frames(
                        region@.take(k),
                    )[j],
            decreases region@.len() - k,
        {
            let ghost now = m.scanned(region@.take(k));
            let bytes = heapless_as_slice(&rx_buffer);
            let byte: u8 = bytes[i];
            proof {
                assert(byte == region@[k]);
                assert(region@.take(k + 1).drop_last() =~= region@.take(k));
                assert(region@.take(k + 1).last() == region@[k]);
                assert(region@.skip(k) =~= seq![region@[k]] + region@.skip(k + 1));
            }
            if byte == 0 {
                if i > 0 && !overrun {
                    let frame = slice_to_vec(slice_subrange(bytes, 0, i + 1));
                    assert(frame@ =~= now.pending.push(0));
                    frames.push(frame);
                }
                heapless_drain(&mut rx_buffer, i + 1);
                overrun = false;
                i = 0;
                assert(rx_bytes(rx_buffer) =~= region@.skip(k + 1));
                assert(rx_bytes(rx_buffer) =~= Seq::<u8>::empty() + region@.skip(k + 1));
            } else {
                i = i + 1;
                assert(rx_bytes(rx_buffer) =~= now.pending.push(byte) + region@.skip(k + 1));
            }
            len = heapless_as_slice(&rx_buffer).len();
            proof {
                k = k + 1;
            }
        }
        proof {
            assert(k == region@.len());
            assert(region@.take(k) =~= region@);
            assert(rx_bytes(rx_buffer) =~= m.scanned(region@).pending);
        }
        if len == MAX_PACKET_LEN {
            // What is left of the frame is lost.
            heapless_drain(&mut rx_buffer, len);
            overrun = true;
            assert(rx_bytes(rx_buffer) =~= Seq::<u8>::empty());
        }
        *self = Framer { rx_buffer, overrun };
        frames
    }
}

/// Every frame ends in its only zero and holds something before it.
pub proof fn law_frames_are_delimited(m: FramerModel, bytes: Seq<u8>)
    requires
        m.inv(),
    ensures
        forall|i: int|
            0 <= i < m.frames(bytes).len() ==> delimited(#[trigger] m.frames(bytes)[i]) && m.frames(
                bytes,
            )[i].len() >= 2,
        forall|i: int|
            0 <= i < m.scanned(bytes).pending.len() ==> m.scanned(bytes).pending[i] != 0,
    decreases bytes.len(),
{
    if bytes.len() > 0 {
        let before = m.scanned(bytes.drop_last());
        law_frames_are_delimited(m, bytes.drop_last());
        assert(m.frames(bytes) =~= m.frames(bytes.drop_last()) + before.completed(bytes.last()));
        assert forall|i: int| 0 <= i < m.frames(bytes).len() implies delimited(
            #[trigger] m.frames(bytes)[i],
        ) && m.frames(bytes)[i].len() >= 2 by {
            if i < m.frames(bytes.drop_last()).len() {
                assert(m.frames(bytes)[i] == m.frames(bytes.drop_last())[i]);
            } else {
                assert(m.frames(bytes)[i] == before.pending.push(0));
            }
        }
        assert(m.scanned(bytes) == before.heard(bytes.last()));
    }
}

/// Bytes that come in one piece after another are scanned like bytes that
/// come at once.
pub proof fn law_scanning_can_pause(m: FramerModel, a: Seq<u8>, b: Seq<u8>)
    ensures
        m.scanned(a + b) == m.scanned(a).scanned(b),
        m.frames(a + b) == m.frames(a) + m.scanned(a).frames(b),
    decreases b.len(),
{
    if b.len() == 0 {
        assert(a + b =~= a);
        assert(m.frames(a) + Seq::<Seq<u8>>::empty() =~= m.frames(a));
    } else {
        assert((a + b).drop_last() =~= a + b.drop_last());
        law_scanning_can_pause(m, a, b.drop_last());
        assert(m.frames(a + b) =~= m.frames(a) + m.scanned(a).frames(b));
    }
}

/// How the bytes are cut up on their way in does not matter, as long as the
/// first piece does not fill the buffer.
pub proof fn law_pieces_do_not_matter(m: FramerModel, a: Seq<u8>, b: Seq<u8>)
    requires
        m.scanned(a).pending.len() < MAX_PACKET_LEN,
    ensures
        m.fed(a).fed(b) == m.fed(a + b),
        m.frames(a) + m.fed(a).frames(b) == m.frames(a + b),
{
    law_scanning_can_pause(m, a, b);
}

proof fn lemma_scan_of_nonzero_bytes(m: FramerModel, bytes: Seq<u8>)
    requires
        forall|i: int| 0 <= i < bytes.len() ==> bytes[i] != 0,
    ensures
        m.scanned(bytes) == (FramerModel { pending: m.pending + bytes, overrun: m.overrun }),
        m.frames(bytes) == Seq::<Seq<u8>>::empty(),
    decreases bytes.len(),
{
    if bytes.len() == 0 {
        assert(m.pending + bytes =~= m.pending);
    } else {
        lemma_scan_of_nonzero_bytes(m, bytes.drop_last());
        assert(m.pending + bytes =~= (m.pending + bytes.drop_last()).push(bytes.last()));
        assert(m.frames(bytes) =~= Seq::<Seq<u8>>::empty());
    }
}

/// A packet with a zero in front of it is found, whatever was received before
/// it, and nothing is left over.
pub proof fn law_packet_is_found(m: FramerModel, packet: Seq<u8>)
    requires
        delimited(packet),
        packet.len() >= 2,
    ensures
        m.frames(seq![0u8] + packet) == m.completed(0) + seq![packet],
        m.scanned(seq![0u8] + packet) == (FramerModel { pending: Seq::empty(), overrun: false }),
{
    let zero = seq![0u8];
    let clean = FramerModel { pending: Seq::empty(), overrun: false };
    law_scanning_can_pause(m, zero, packet);
    assert(zero.drop_last() =~= Seq::<u8>::empty());
    assert(m.scanned(zero) == clean);
    assert(m.frames(zero) =~= m.frames(zero.drop_last()) + m.scanned(zero.drop_last()).completed(0));
    assert(m.frames(zero) =~= m.completed(0));
    let body = packet.drop_last();
    lemma_scan_of_nonzero_bytes(clean, body);
    assert(clean.pending + body =~= body);
    assert(body.push(0) =~= packet);
    assert(clean.frames(packet) =~= seq![packet]);
}

/// All pieces, one behind the other.
pub open spec fn joined(pieces: Seq<Seq<u8>>) -> Seq<u8>
    decreases pieces.len(),
{
    if pieces.len() == 0 {
        Seq::empty()
    } else {
        joined(pieces.drop_last()) + pieces.last()
    }
}

proof fn lemma_packet_leaves_room(m: FramerModel, packet: Seq<u8>, k: int)
    requires
        m.inv(),
        delimited(packet),
        2 <= packet.len() <= MAX_PACKET_LEN,
        0 <= k <= packet.len() + 1,
    ensures
        m.scanned((seq![0u8] + packet).take(k)).pending.len() < MAX_PACKET_LEN,
{
    let sent = seq![0u8] + packet;
    if k == 0 {
        assert(sent.take(0) =~= Seq::<u8>::empty());
    } else if k == sent.len() {
        assert(sent.take(k) =~= sent);
        law_packet_is_found(m, packet);
    } else {
        let zero = seq![0u8];
        let body = packet.take(k - 1);
        assert(sent.take(k) =~= zero + body);
        law_scanning_can_pause(m, zero, body);
        assert(zero.drop_last() =~= Seq::<u8>::empty());
        lemma_scan_of_nonzero_bytes(m.scanned(zero), body);
    }
}

proof fn lemma_packet_in_pieces(m: FramerModel, packet: Seq<u8>, pieces: Seq<Seq<u8>>)
    requires
        m.inv(),
        delimited(packet),
        2 <= packet.len() <= MAX_PACKET_LEN,
        joined(pieces).len() <= packet.len() + 1,
        joined(pieces) == (seq![0u8] + packet).take(joined(pieces).len() as int),
    ensures
        m.fed_all(pieces) == m.scanned(joined(pieces)),
        m.all_frames(pieces) == m.frames(joined(pieces)),
    decreases pieces.len(),
{
    if pieces.len() > 0 {
        let earlier = pieces.drop_last();
        let sent = seq![0u8] + packet;
        let so_far = joined(earlier);
        assert(so_far =~= joined(pieces).take(so_far.len() as int));
        assert(so_far =~= sent.take(so_far.len() as int));
        lemma_packet_in_pieces(m, packet, earlier);
        law_scanning_can_pause(m, so_far, pieces.last());
        lemma_packet_leaves_room(m, packet, joined(pieces).len() as int);
    }
}

/// A packet that fits the buffer, with a zero in front of it, is found however
/// it is cut up on its way in, also where the framer was overrun before, and
/// nothing is left over.
pub proof fn law_packet_is_found_in_pieces(
    m: FramerModel,
    packet: Seq<u8>,
    pieces: Seq<Seq<u8>>,
)
    requires
        m.inv(),
        delimited(packet),
        2 <= packet.len() <= MAX_PACKET_LEN,
        joined(pieces) == seq![0u8] + packet,
    ensures
        m.all_frames(pieces) == m.completed(0) + seq![packet],
        m.fed_all(pieces) == (FramerModel { pending: Seq::empty(), overrun: false }),
{
    let sent = seq![0u8] + packet;
    assert(sent.take(sent.len() as int) =~= sent);
    lemma_packet_in_pieces(m, packet, pieces);
    law_packet_is_found(m, packet);
}

/// What stands between two zeros is a frame, with the zero that ends it, however
/// long it is, as long as nothing of it was lost. Then the framer is empty.
pub proof fn law_zero_ends_a_frame(m: FramerModel, body: Seq<u8>)
    requires
        forall|i: int| 0 <= i < body.len() ==> body[i] != 0,
    ensures
        !m.overrun && m.pending.len() + body.len() > 0 ==> m.frames(body.push(0)) == seq![
            (m.pending + body).push(0),
        ],
        m.overrun || m.pending.len() + body.len() == 0 ==> m.frames(body.push(0)) == Seq::<
            Seq<u8>,
        >::empty(),
        m.scanned(body.push(0)).pending == Seq::<u8>::empty(),
        !m.scanned(body.push(0)).overrun,
        m.fed(body.push(0)).pending == Seq::<u8>::empty(),
        !m.fed(body.push(0)).overrun,
{
    lemma_scan_of_nonzero_bytes(m, body);
    assert(body.push(0).drop_last() =~= body);
    let before = m.scanned(body);
    assert(m.frames(body.push(0)) =~= m.frames(body) + before.completed(0));
    if !m.overrun && m.pending.len() + body.len() > 0 {
        assert(m.frames(body.push(0)) =~= seq![(m.pending + body).push(0)]);
    } else {
        assert(m.frames(body.push(0)) =~= Seq::<Seq<u8>>::empty());
    }
}

/// Bytes without a zero are kept for the frame to come, unless they fill the
/// buffer: then the frame is lost, and the buffer free.
pub proof fn law_full_buffer_loses_the_frame(m: FramerModel, bytes: Seq<u8>)
    requires
        forall|i: int| 0 <= i < bytes.len() ==> bytes[i] != 0,
        m.pending.len() + bytes.len() <= 300,
    ensures
        m.frames(bytes) == Seq::<Seq<u8>>::empty(),
        m.pending.len() + bytes.len() < 300 ==> m.fed(bytes).pending == m.pending + bytes && m.fed(
            bytes,
        ).overrun == m.overrun,
        m.pending.len() + bytes.len() == 300 ==> m.fed(bytes).pending == Seq::<u8>::empty()
            && m.fed(bytes).overrun,
{
    lemma_scan_of_nonzero_bytes(m, bytes);
}

} // verus!
