//! Points on a monotonic clock.

use vstd::prelude::*;

verus! {

/// A point on a monotonic clock, in nanoseconds since an arbitrary epoch.
#[derive(Clone, Copy, PartialEq, Eq, Structural, Debug)]
pub struct Instant {
    pub nanos: u128,
}

impl Instant {
    /// Whole microseconds from `earlier` to `self`, zero if `earlier` is the later of the two.
    pub open spec fn micros_past(self, earlier: Instant) -> int {
        if self.nanos < earlier.nanos {
            0
        } else {
            (self.nanos - earlier.nanos) / 1000
        }
    }

    /// The same count as it fits a `u64`: modulo two to the power of 64.
    pub open spec fn micros_since_spec(self, earlier: Instant) -> u64 {
        (self.micros_past(earlier) % 0x1_0000_0000_0000_0000) as u64
    }

    /// Whether a clock can show the point `micros` microseconds after `self`.
    pub open spec fn can_add(self, micros: int) -> bool {
        self.nanos + micros * 1000 <= u128::MAX
    }

    /// The point `micros` microseconds after `self`.
    pub open spec fn plus(self, micros: int) -> Instant {
        Instant { nanos: (self.nanos + micros * 1000) as u128 }
    }

    /// Whole microseconds from `earlier` to `self`, saturating at zero.
    pub fn micros_since(self, earlier: Instant) -> (micros: u64)
        ensures
            micros == self.micros_since_spec(earlier),
            self.nanos < earlier.nanos ==> micros == 0,
            0 <= self.nanos - earlier.nanos < 1000 * (u64::MAX + 1) ==> micros == (self.nanos
                - earlier.nanos) / 1000,
    {
        if self.nanos < earlier.nanos {
            0
        } else {
            let elapsed: u128 = (self.nanos - earlier.nanos) / 1000;
            assert(elapsed as u64 == elapsed % 0x1_0000_0000_0000_0000u128) by (bit_vector);
            elapsed as u64
        }
    }

    /// The point `micros` microseconds later.
    pub fn add_micros(self, micros: u64) -> (later: Instant)
        requires
            self.can_add(micros as int),
        ensures
            later == self.plus(micros as int),
            later.nanos == self.nanos + 1000 * micros,
    {
        Instant { nanos: self.nanos + micros as u128 * 1000 }
    }
}

/// A microsecond is a thousand nanoseconds: so many of them later, so many of
/// them have passed, and of two points only the later one has something past.
pub proof fn law_time_passes_evenly(point: Instant, micros: u64, nanos: u128, other: Instant)
    requires
        point.nanos + 1000 * micros + nanos <= u128::MAX,
        nanos < 1000,
        other.nanos <= point.nanos,
    ensures
        point.can_add(micros as int),
        point.plus(micros as int).nanos == point.nanos + 1000 * micros,
        (Instant { nanos: (point.nanos + 1000 * micros + nanos) as u128 }).micros_since_spec(point)
            == micros,
        other.micros_since_spec(point) == 0,
{
    assert((1000 * micros + nanos) / 1000 == micros);
}

} // verus!
