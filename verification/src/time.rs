//! Spans of time, counted in whole nanoseconds.

use vstd::prelude::*;

verus! {

/// Nanoseconds in a second.
pub const NANOS_PER_SEC: u128 = 1_000_000_000;

/// The longest span: the largest whole number of seconds that fits in 64 bits, and then some.
pub const MAX_NANOS: u128 = 18_446_744_073_709_551_615_999_999_999;

/// A span of time.
#[derive(Debug, Clone, Copy, PartialEq, Eq, PartialOrd, Ord, Hash, Structural)]
pub struct Duration {
    /// Its length.
    pub nanos: u128,
}

/// The smaller of two lengths.
pub open spec fn at_most(nanos: nat, limit: nat) -> nat {
    if nanos < limit {
        nanos
    } else {
        limit
    }
}

impl Duration {
    /// The length in nanoseconds.
    pub open spec fn view(self) -> nat {
        self.nanos as nat
    }

    /// No time at all.
    pub fn zero() -> (r: Duration)
        ensures
            r@ == 0,
    {
        Duration { nanos: 0 }
    }

    /// `secs` whole seconds.
    pub fn from_secs(secs: u64) -> (r: Duration)
        ensures
            r@ == secs * NANOS_PER_SEC,
    {
        Duration { nanos: secs as u128 * NANOS_PER_SEC }
    }

    /// `millis` thousandths of a second.
    pub fn from_millis(millis: u64) -> (r: Duration)
        ensures
            r@ == millis * 1_000_000,
    {
        Duration { nanos: millis as u128 * 1_000_000 }
    }

    /// `micros` millionths of a second.
    pub fn from_micros(micros: u64) -> (r: Duration)
        ensures
            r@ == micros * 1_000,
    {
        Duration { nanos: micros as u128 * 1_000 }
    }

    /// `nanos` nanoseconds.
    pub fn from_nanos(nanos: u64) -> (r: Duration)
        ensures
            r@ == nanos,
    {
        Duration { nanos: nanos as u128 }
    }

    /// The whole length, in nanoseconds.
    pub fn as_nanos(self) -> (r: u128)
        ensures
            r == self@,
    {
        self.nanos
    }

    /// This span and `other` one after the other, no longer than the longest span.
    pub fn saturating_add(self, other: Duration) -> (r: Duration)
        ensures
            r@ == at_most(self@ + other@, MAX_NANOS as nat),
    {
        let sum: u128 = self.nanos.saturating_add(other.nanos);
        if sum < MAX_NANOS {
            Duration { nanos: sum }
        } else {
            Duration { nanos: MAX_NANOS }
        }
    }

    /// What is left of this span without `other`; nothing if `other` is longer.
    pub fn saturating_sub(self, other: Duration) -> (r: Duration)
        ensures
            r@ == if self@ >= other@ {
                self@ - other@
            } else {
                0int
            },
    {
        Duration { nanos: self.nanos.saturating_sub(other.nanos) }
    }

    /// Whether this span is at least as long as `other`.
    pub fn reaches(self, other: Duration) -> (r: bool)
        ensures
            r == (self@ >= other@),
    {
        self.nanos >= other.nanos
    }
}

} // verus!
