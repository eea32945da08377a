//! The strip of WS2812 LEDs, which hangs on a serial port that sends words of
//! sixteen bits.

use vstd::prelude::*;

verus! {

/// The most bytes that a frame takes.
pub const LED_FRAME_BUFFER_MAX_DATA_COUNT: usize = 1200;

/// The frames that can wait, the one that is being sent included.
pub const LED_FRAME_COUNT: usize = 2;

/// The words that tell the LEDs that a frame is over.
pub const RESET_PULSE_COUNT: usize = 20;

/// The bytes of a frame.
#[derive(Clone, Copy)]
pub struct LedFrameBuffer {
    len: usize,
    data: [u8; LED_FRAME_BUFFER_MAX_DATA_COUNT],
}

impl View for LedFrameBuffer {
    type V = Seq<u8>;

    closed spec fn view(&self) -> Seq<u8> {
        self.data@.take(self.len as int)
    }
}

/// What a bit looks like to an LED: a pulse that is short or long.
pub open spec fn pulse(bit: int) -> int {
    if bit == 0 {
        0b1000
    } else {
        0b1110
    }
}

/// The word for four bits, the highest first.
pub open spec fn signal(bits: int) -> int {
    0x1000 * pulse(bits / 8 % 2) + 0x100 * pulse(bits / 4 % 2) + 0x10 * pulse(bits / 2 % 2) + pulse(
        bits % 2,
    )
}

/// The word at position `nibble_index` of the words for some bytes, the high
/// half of each byte first.
pub open spec fn signal_at(bytes: Seq<u8>, nibble_index: int) -> u16 {
    let byte = bytes[nibble_index / 2];
    if nibble_index % 2 == 0 {
        signal(byte as int / 16) as u16
    } else {
        signal(byte as int % 16) as u16
    }
}

/// The words for some bytes.
pub open spec fn signals(bytes: Seq<u8>) -> Seq<u16> {
    Seq::new(2 * bytes.len(), |i: int| signal_at(bytes, i))
}

fn pulse_word(bit: u8) -> (word: u16)
    ensures
        word == pulse(bit as int),
{
    if bit == 0 {
        0b1000
    } else {
        0b1110
    }
}

fn signal_word(bits: u8) -> (word: u16)
    requires
        bits < 16,
    ensures
        word == signal(bits as int),
{
    pulse_word(bits / 8 % 2) * 0x1000 + pulse_word(bits / 4 % 2) * 0x100 + pulse_word(bits / 2 % 2)
        * 0x10 + pulse_word(bits % 2)
}

impl LedFrameBuffer {
    #[verifier::type_invariant]
    spec fn type_inv(self) -> bool {
        self.len <= LED_FRAME_BUFFER_MAX_DATA_COUNT
    }

    /// The whole memory of the frame, also behind the bytes that it holds.
    pub closed spec fn memory(self) -> Seq<u8> {
        self.data@
    }

    /// A frame without bytes.
    pub fn new() -> (frame: LedFrameBuffer)
        ensures
            frame@ == Seq::<u8>::empty(),
            frame.memory() == Seq::new(LED_FRAME_BUFFER_MAX_DATA_COUNT as nat, |i: int| 0u8),
    {
        let frame = LedFrameBuffer { len: 0, data: [0; LED_FRAME_BUFFER_MAX_DATA_COUNT] };
        assert(frame@ =~= Seq::<u8>::empty());
        assert(frame.memory() =~= Seq::new(
            LED_FRAME_BUFFER_MAX_DATA_COUNT as nat,
            |i: int| 0u8,
        ));
        frame
    }

    /// Puts some bytes in place of what the frame holds. The memory behind them
    /// stays as it was.
    pub fn fill_from_slice(&mut self, data: &[u8])
        requires
            data@.len() <= LED_FRAME_BUFFER_MAX_DATA_COUNT,
        ensures
            final(self)@ == data@,
            final(self).memory() == data@ + old(self).memory().skip(data@.len() as int),
    {
        proof {
            use_type_invariant(&*self);
        }
        let mut i: usize = 0;
        while i < data.len()
            invariant
                i <= data@.len() <= LED_FRAME_BUFFER_MAX_DATA_COUNT,
                self.type_inv(),
                self.data@.take(i as int) == data@.take(i as int),
                self.data@.skip(i as int) == old(self).data@.skip(i as int),
            decreases data@.len() - i,
        {
            let ghost before = self.data@;
            self.data[i] = data[i];
            proof {
                assert(before.skip(i as int).skip(1) =~= before.skip(i + 1));
                assert(old(self).data@.skip(i as int).skip(1) =~= old(self).data@.skip(i + 1));
                assert(self.data@.skip(i + 1) =~= before.skip(i + 1));
            }
            i = i + 1;
            assert(self.data@.take(i as int) =~= data@.take(i as int));
        }
        self.len = data.len();
        assert(self@ =~= data@);
        proof {
            let n = data@.len() as int;
            assert(self.data@ =~= self.data@.take(n) + self.data@.skip(n));
            assert(data@.take(n) =~= data@);
        }
    }

    /// The next word, if there is one left, and the position behind it.
    pub fn next_4bits(&self, nibble_index: &mut usize) -> (word: Option<u16>)
        ensures
            *old(nibble_index) < 2 * self@.len() ==> word == Some(
                signals(self@)[*old(nibble_index) as int],
            ) && *final(nibble_index) == *old(nibble_index) + 1,
            *old(nibble_index) >= 2 * self@.len() ==> word is None && *final(nibble_index) == *old(
                nibble_index,
            ),
    {
        proof {
            use_type_invariant(self);
        }
        if *nibble_index / 2 >= self.len {
            return None;
        }
        let byte: u8 = self.data[*nibble_index / 2];
        let bits: u8 = if *nibble_index % 2 == 0 {
            byte / 16
        } else {
            byte % 16
        };
        let out: u16 = signal_word(bits);
        *nibble_index = *nibble_index + 1;
        Some(out)
    }
}

/// The ring of frames.
#[verifier::external_type_specification]
#[verifier::external_body]
#[verifier::reject_recursive_types(T)]
pub struct ExBuffer<T: Sized, const N: usize>(fring::Buffer<T, N>);

/// The frames in a ring, the oldest first.
pub uninterp spec fn ring_frames(ring: fring::Buffer<LedFrameBuffer, 2>) -> Seq<LedFrameBuffer>;

/// Calls `fring::Buffer::new`: the ring is empty.
#[verifier::external_body]
fn fring_new() -> (ring: fring::Buffer<LedFrameBuffer, 2>)
    ensures
        ring_frames(ring) == Seq::<LedFrameBuffer>::empty(),
{
    fring::Buffer::new()
}

/// Calls `fring::Producer::write` for one slot and puts a frame in it: it
/// comes last, unless the ring is full, which then stays as it was.
#[verifier::external_body]
fn fring_write(ring: &mut fring::Buffer<LedFrameBuffer, 2>, frame: LedFrameBuffer) -> (written: bool)
    ensures
        written <==> ring_frames(*old(ring)).len() < LED_FRAME_COUNT,
        ring_frames(*final(ring)) == if written {
            ring_frames(*old(ring)).push(frame)
        } else {
            ring_frames(*old(ring))
        },
{
    let (mut producer, _) = ring.split();
    let mut region = producer.write(1);
    match region.first_mut() {
        Some(slot) => {
            *slot = frame;
            true
        },
        None => false,
    }
}

/// Calls `fring::Consumer::read` for one slot, and `fring::Region::partial_drop`
/// with `done` on what it returns: the oldest frame, which leaves the ring if
/// `done` is one. It cannot leave where there is none, since the latter
/// function panics then.
#[verifier::external_body]
fn fring_read(ring: &mut fring::Buffer<LedFrameBuffer, 2>, done: usize) -> (frame: Option<
    LedFrameBuffer,
>)
    requires
        done <= 1,
        done <= ring_frames(*old(ring)).len(),
    ensures
        ring_frames(*final(ring)) == ring_frames(*old(ring)).skip(done as int),
        ring_frames(*old(ring)).len() > 0 ==> frame == Some(ring_frames(*old(ring))[0]),
        ring_frames(*old(ring)).len() == 0 ==> frame is None,
{
    let (_, mut consumer) = ring.split();
    let region = consumer.read(1);
    let frame = region.first().copied();
    region.partial_drop(done);
    frame
}

/// The words for a frame: those for its bytes, then those that end it.
pub open spec fn frame_words(bytes: Seq<u8>) -> Seq<u16> {
    signals(bytes) + Seq::new(RESET_PULSE_COUNT as nat, |i: int| 0u16)
}

/// The words for some frames.
pub open spec fn frames_words(frames: Seq<Seq<u8>>) -> Seq<u16>
    decreases frames.len(),
{
    if frames.len() == 0 {
        Seq::empty()
    } else {
        frame_words(frames[0]) + frames_words(frames.drop_first())
    }
}

/// The frame that is being sent.
#[derive(Clone, Copy)]
struct LedTx {
    frame: LedFrameBuffer,
    nibble_index: usize,
    reset_pulse_count: usize,
}

/// The LED strip.
pub struct Leds {
    ring: fring::Buffer<LedFrameBuffer, 2>,
    active_tx: Option<LedTx>,
}

/// What there is to send.
pub struct LedsModel {
    /// The frames that have not been sent to the end, the oldest first.
    pub frames: Seq<Seq<u8>>,
    /// How many words of the first frame have been sent, once it has begun.
    pub sent: Option<int>,
}

/// What to do when the port is ready.
#[derive(Clone, Copy, PartialEq, Eq, Structural, Debug)]
pub enum LedStep {
    /// Nothing: it was not ready.
    Ignore,
    /// Send a word.
    Send(u16),
    /// Ask no more until there is another frame.
    Disable,
}

impl LedsModel {
    /// What holds of every strip.
    pub open spec fn inv(self) -> bool {
        &&& self.frames.len() <= LED_FRAME_COUNT
        &&& self.sent matches Some(n) ==> self.frames.len() > 0 && 0 <= n <= frame_words(
            self.frames[0],
        ).len()
    }

    /// Whether the first frame has been sent to the end.
    pub open spec fn first_is_over(self) -> bool {
        self.sent == Some(frame_words(self.frames[0]).len() as int)
    }

    /// What is left once the first frame, if it is over, has made room.
    pub open spec fn cleared(self) -> LedsModel {
        if self.first_is_over() {
            LedsModel { frames: self.frames.drop_first(), sent: None }
        } else {
            self
        }
    }

    /// The position in the first frame.
    pub open spec fn position(self) -> int {
        match self.sent {
            Some(n) => n,
            None => 0,
        }
    }

    /// What is left to send.
    pub open spec fn words(self) -> Seq<u16> {
        frames_words(self.frames).skip(self.position())
    }

    /// Whether a frame can be taken in: it fits, and there is room for one more.
    pub open spec fn has_room_for(self, data: Seq<u8>) -> bool {
        data.len() <= LED_FRAME_BUFFER_MAX_DATA_COUNT && self.frames.len() < LED_FRAME_COUNT
    }

    /// What there is to send when a frame was offered.
    pub open spec fn offered(self, data: Seq<u8>) -> LedsModel {
        if self.has_room_for(data) {
            LedsModel { frames: self.frames.push(data), ..self }
        } else {
            self
        }
    }

    /// What to do when the port is ready.
    pub open spec fn step(self) -> LedStep {
        if self.cleared().frames.len() == 0 {
            LedStep::Disable
        } else {
            LedStep::Send(frame_words(self.cleared().frames[0])[self.cleared().position()])
        }
    }

    /// What is left once that was done.
    pub open spec fn stepped(self) -> LedsModel {
        if self.cleared().frames.len() == 0 {
            self.cleared()
        } else {
            LedsModel {
                frames: self.cleared().frames,
                sent: Some(self.cleared().position() + 1),
            }
        }
    }
}

impl View for Leds {
    type V = LedsModel;

    closed spec fn view(&self) -> LedsModel {
        LedsModel {
            frames: Seq::new(ring_frames(self.ring).len(), |i: int| ring_frames(self.ring)[i]@),
            sent: match self.active_tx {
                Some(tx) => Some(tx.nibble_index + tx.reset_pulse_count),
                None => None,
            },
        }
    }
}

impl Leds {
    /// Whether the frame that is being sent is the oldest one.
    pub closed spec fn inv(self) -> bool {
        &&& self@.inv()
        &&& self.active_tx matches Some(tx) ==> {
            &&& tx.frame == ring_frames(self.ring)[0]
            &&& tx.nibble_index <= 2 * tx.frame@.len()
            &&& tx.reset_pulse_count <= RESET_PULSE_COUNT
            &&& tx.reset_pulse_count > 0 ==> tx.nibble_index == 2 * tx.frame@.len()
        }
    }

    /// A strip with nothing to send.
    pub fn new() -> (leds: Leds)
        ensures
            leds.inv(),
            leds@ == (LedsModel { frames: Seq::empty(), sent: None }),
    {
        let leds = Leds { ring: fring_new(), active_tx: None };
        assert(leds@.frames =~= Seq::<Seq<u8>>::empty());
        leds
    }

    /// Send a new frame to the LEDs.
    /// The data is buffered and this function returns immediately.
    /// Returns Ok(()) if the data was buffered and will be sent. The port has
    /// to be asked again whether it is ready.
    /// Returns Err(()) if there was insufficient space in the buffer for the given data.
    pub fn write_slice(&mut self, data: &[u8]) -> (result: Result<(), ()>)
        requires
            old(self).inv(),
        ensures
            final(self).inv(),
            final(self)@.inv(),
            result is Ok <==> data@.len() <= LED_FRAME_BUFFER_MAX_DATA_COUNT && old(
                self,
            )@.frames.len() < LED_FRAME_COUNT,
            result is Ok <==> old(self)@.has_room_for(data@),
            final(self)@ == old(self)@.offered(data@),
            final(self)@ == if result is Ok {
                LedsModel { frames: old(self)@.frames.push(data@), ..old(self)@ }
            } else {
                old(self)@
            },
    {
        if data.len() > LED_FRAME_BUFFER_MAX_DATA_COUNT {
            return Err(());
        }
        let mut buffer = LedFrameBuffer::new();
        buffer.fill_from_slice(data);
        let written = fring_write(&mut self.ring, buffer);
        if written {
            assert(self@.frames =~= old(self)@.frames.push(data@));
            Ok(())
        } else {
            assert(self@.frames =~= old(self)@.frames);
            Err(())
        }
    }

    /// Answers the port, which is ready to take a word if `txe` is set.
    pub fn on_interrupt(&mut self, txe: bool) -> (step: LedStep)
        requires
            old(self).inv(),
        ensures
            final(self).inv(),
            final(self)@.inv(),
            !txe ==> step is Ignore && final(self)@ == old(self)@,
            txe ==> step == old(self)@.step() && final(self)@ == old(self)@.stepped(),
    {
        if !txe {
            return LedStep::Ignore;
        }
        // See if we have an in-progress frame and that frame has another 4 bits to send
        if let Some(tx) = self.active_tx {
            let mut nibble_index: usize = tx.nibble_index;
            if let Some(word) = tx.frame.next_4bits(&mut nibble_index) {
                self.active_tx = Some(LedTx { nibble_index, ..tx });
                assert(self@.frames =~= old(self)@.frames);
                return LedStep::Send(word);
            }
            // See if we are sending a reset pulse
            if tx.reset_pulse_count < RESET_PULSE_COUNT {
                self.active_tx = Some(
                    LedTx { reset_pulse_count: tx.reset_pulse_count + 1, ..tx },
                );
                assert(self@.frames =~= old(self)@.frames);
                return LedStep::Send(0x0000);
            }
            self.active_tx = None;
            let over = fring_read(&mut self.ring, 1);
            assert(self@.frames =~= old(self)@.frames.drop_first());
        }
        // We don't have an in-progress frame, so see if there is one available.
        let ghost cleared = self@;
        match fring_read(&mut self.ring, 0) {
            Some(frame) => {
                let mut nibble_index: usize = 0;
                let first = frame.next_4bits(&mut nibble_index);
                assert(self@.frames =~= cleared.frames);
                match first {
                    Some(word) => {
                        self.active_tx = Some(LedTx { frame, nibble_index, reset_pulse_count: 0 });
                        LedStep::Send(word)
                    },
                    None => {
                        self.active_tx = Some(LedTx { frame, nibble_index, reset_pulse_count: 1 });
                        LedStep::Send(0x0000)
                    },
                }
            },
            None => {
                // Buffer empty - disable interrupt until next push
                assert(self@.frames =~= cleared.frames);
                LedStep::Disable
            },
        }
    }
}

proof fn lemma_words_of_one_more_frame(frames: Seq<Seq<u8>>, data: Seq<u8>)
    ensures
        frames_words(frames.push(data)) == frames_words(frames) + frame_words(data),
    decreases frames.len(),
{
    if frames.len() == 0 {
        assert(frames.push(data).drop_first() =~= Seq::<Seq<u8>>::empty());
        assert(frames_words(Seq::<Seq<u8>>::empty()) =~= Seq::<u16>::empty());
        assert(frames_words(frames.push(data)) =~= frame_words(data));
        assert(frames_words(frames) + frame_words(data) =~= frame_words(data));
    } else {
        lemma_words_of_one_more_frame(frames.drop_first(), data);
        assert(frames.push(data).drop_first() =~= frames.drop_first().push(data));
        assert(frames_words(frames.push(data)) =~= frames_words(frames) + frame_words(data));
    }
}

/// The words go out one by one and in order, and the port is asked no more
/// exactly when none is left.
pub proof fn law_words_go_out_in_order(m: LedsModel)
    requires
        m.inv(),
    ensures
        m.step() is Disable <==> m.words().len() == 0,
        m.words().len() > 0 ==> m.step() == LedStep::Send(m.words()[0]) && m.stepped().words()
            == m.words().skip(1),
        m.stepped().inv(),
{
    if m.frames.len() > 0 {
        let first = frame_words(m.frames[0]);
        let rest = frames_words(m.frames.drop_first());
        assert(frames_words(m.frames) == first + rest);
        if m.first_is_over() {
            assert(m.words() =~= rest);
            assert(m.cleared().words() =~= rest);
            if m.cleared().frames.len() > 0 {
                assert(m.cleared().words().skip(1) =~= m.stepped().words());
            }
        } else {
            assert(m.words()[0] == first[m.position()]);
            assert(m.words().skip(1) =~= m.stepped().words());
        }
    }
}

/// A frame that is taken in goes out behind what was waiting.
pub proof fn law_frame_goes_out_last(m: LedsModel, data: Seq<u8>)
    requires
        m.inv(),
    ensures
        (LedsModel { frames: m.frames.push(data), ..m }).words() == m.words() + frame_words(data),
{
    lemma_words_of_one_more_frame(m.frames, data);
    if m.frames.len() > 0 {
        assert(frames_words(m.frames) == frame_words(m.frames[0]) + frames_words(
            m.frames.drop_first(),
        ));
    }
    assert((frames_words(m.frames) + frame_words(data)).skip(m.position()) =~= m.words()
        + frame_words(data));
}

/// Different bits look different, and a short pulse never looks like the end
/// of a frame.
pub proof fn law_signals_differ(a: int, b: int)
    requires
        0 <= a < 16,
        0 <= b < 16,
    ensures
        signal(a) == signal(b) <==> a == b,
        0x8888 <= signal(a) <= 0xEEEE,
{
}

/// Four bits go out as four pulses, the highest bit first: a long one for a bit
/// that is set, and a short one for any other.
pub proof fn law_bits_are_long_and_short_pulses(bits: int)
    requires
        0 <= bits < 16,
    ensures
        signal(bits) / 0x1000 == if bits / 8 % 2 == 1 {
            0b1110int
        } else {
            0b1000
        },
        signal(bits) / 0x100 % 16 == if bits / 4 % 2 == 1 {
            0b1110int
        } else {
            0b1000
        },
        signal(bits) / 0x10 % 16 == if bits / 2 % 2 == 1 {
            0b1110int
        } else {
            0b1000
        },
        signal(bits) % 16 == if bits % 2 == 1 {
            0b1110int
        } else {
            0b1000
        },
{
}

/// A frame goes out byte by byte, the high half of each first, with twenty silent
/// words behind it.
pub proof fn law_frame_goes_out_byte_by_byte(bytes: Seq<u8>, i: int)
    ensures
        frame_words(bytes).len() == 2 * bytes.len() + 20,
        0 <= i < bytes.len() ==> frame_words(bytes)[2 * i] == signal(bytes[i] as int / 16)
            && frame_words(bytes)[2 * i + 1] == signal(bytes[i] as int % 16),
        2 * bytes.len() <= i < 2 * bytes.len() + 20 ==> frame_words(bytes)[i] == 0,
{
    if 0 <= i < bytes.len() {
        assert((2 * i) / 2 == i && (2 * i + 1) / 2 == i);
        assert(0 <= signal(bytes[i] as int / 16) <= 0xFFFF);
        assert(0 <= signal(bytes[i] as int % 16) <= 0xFFFF);
    }
}

/// Frames go out one behind the other, each as if it were alone.
pub proof fn law_frames_go_out_one_behind_the_other(first: Seq<u8>, second: Seq<u8>)
    ensures
        (LedsModel { frames: Seq::empty(), sent: None }).words() == Seq::<u16>::empty(),
        (LedsModel { frames: seq![first], sent: None }).words() == frame_words(first),
        (LedsModel { frames: seq![first, second], sent: None }).words() == frame_words(first)
            + frame_words(second),
{
    let none = Seq::<Seq<u8>>::empty();
    assert(frames_words(none) == Seq::<u16>::empty());
    assert(none.push(first) =~= seq![first]);
    assert(none.push(first).push(second) =~= seq![first, second]);
    lemma_words_of_one_more_frame(none, first);
    lemma_words_of_one_more_frame(none.push(first), second);
    assert((LedsModel { frames: none, sent: None }).words() =~= Seq::<u16>::empty());
    assert((LedsModel { frames: seq![first], sent: None }).words() =~= frame_words(first));
    assert((LedsModel { frames: seq![first, second], sent: None }).words() =~= frame_words(first)
        + frame_words(second));
}

/// What is left to send is all that there was but for the words that went out.
pub proof fn law_sent_words_are_gone(m: LedsModel, n: int)
    requires
        0 <= n <= frames_words(m.frames).len(),
    ensures
        (LedsModel { sent: Some(n), ..m }).words() == (LedsModel { sent: None, ..m }).words().skip(
            n,
        ),
        (LedsModel { sent: None, ..m }).words() == frames_words(m.frames),
{
    assert(frames_words(m.frames).skip(0) =~= frames_words(m.frames));
}

/// A frame of up to 1200 bytes is taken in whole while fewer than two wait, and
/// goes out behind them. Any other is refused, and changes nothing.
pub proof fn law_frame_is_taken_in_or_refused(m: LedsModel, data: Seq<u8>)
    requires
        m.inv(),
    ensures
        m.has_room_for(data) <==> data.len() <= 1200 && m.frames.len() < 2,
        m.has_room_for(data) ==> m.offered(data).words() == m.words() + frame_words(data),
        m.has_room_for(data) ==> m.offered(data).sent == m.sent,
        !m.has_room_for(data) ==> m.offered(data) == m,
{
    law_frame_goes_out_last(m, data);
}

} // verus!
