//! Random numbers: a seeded generator for the firmware and the process-wide
//! one for the simulator.

use vstd::prelude::*;

verus! {

/// What `oorandom::Rand32::new(seed).state()` returns.
pub uninterp spec fn rand32_seeded(seed: u64) -> (u64, u64);

/// What a generator whose state is `rng` draws from `lo..hi` by
/// `oorandom::Rand32::rand_range`, and the state that it is left in.
pub uninterp spec fn rand32_range(rng: (u64, u64), lo: u32, hi: u32) -> (u32, (u64, u64));

/// Calls `oorandom::Rand32::new` and reads the state of the generator. The
/// second half of the state, the increment of the sequence, is odd: the
/// constructor sets its lowest bit.
#[verifier::external_body]
fn seed_rand32(seed: u64) -> (rng: (u64, u64))
    ensures
        rng == rand32_seeded(seed),
        rng.1 % 2 == 1,
{
    oorandom::Rand32::new(seed).state()
}

/// Calls `oorandom::Rand32::rand_range` on the generator with the given state.
/// The number drawn lies in the range and the increment stays what it was. An
/// even increment is left out because such a sequence can be too short for
/// the rejection sampling inside to end, an empty range because it is
/// asserted against.
#[verifier::external_body]
fn draw_rand32(rng: (u64, u64), lo: u32, hi: u32) -> (drawn: (u32, (u64, u64)))
    requires
        lo < hi,
        rng.1 % 2 == 1,
    ensures
        drawn == rand32_range(rng, lo, hi),
        lo <= drawn.0 < hi,
        drawn.1.1 == rng.1,
{
    let mut generator = oorandom::Rand32::from_state(rng);
    let value: u32 = generator.rand_range(lo..hi);
    (value, generator.state())
}

/// Calls `rand::random_range` on a range of `u64`. Two calls may draw
/// different numbers: all that is known of one is that it lies in the range.
#[verifier::external_body]
pub(crate) fn random_u64(lo: u64, hi: u64) -> (value: u64)
    requires
        lo < hi,
    ensures
        lo <= value < hi,
{
    rand::random_range(lo..hi)
}

/// A small generator of 32-bit numbers whose sequence follows from its seed.
#[derive(Clone, Copy, Debug)]
pub struct Rng {
    state: u64,
    inc: u64,
}

impl View for Rng {
    type V = (u64, u64);

    closed spec fn view(&self) -> (u64, u64) {
        (self.state, self.inc)
    }
}

impl Rng {
    #[verifier::type_invariant]
    spec fn odd_increment(self) -> bool {
        self.inc % 2 == 1
    }

    /// The generator for `seed`.
    pub fn new(seed: u64) -> (rng: Rng)
        ensures
            rng@ == rand32_seeded(seed),
    {
        let (state, inc) = seed_rand32(seed);
        Rng { state, inc }
    }

    /// Draws a number from `lo..hi`.
    pub fn range(&mut self, lo: u32, hi: u32) -> (value: u32)
        requires
            lo < hi,
        ensures
            (value, final(self)@) == rand32_range(old(self)@, lo, hi),
            lo <= value < hi,
    {
        proof {
            use_type_invariant(&*self);
        }
        let (value, (state, inc)) = draw_rand32((self.state, self.inc), lo, hi);
        *self = Rng { state, inc };
        value
    }
}

} // verus!
