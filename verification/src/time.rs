//! Lengths of time, in whole nanoseconds.
use vstd::prelude::*;

verus! {

/// The longest length of time that can be told: `u64::MAX` seconds and 999 999 999 nanoseconds.
pub const MAX_NANOS: u128 = 18446744073709551615999999999;

/// A length of time.
#[derive(Clone, Copy, Debug, PartialEq, Eq, Structural)]
pub struct Duration {
    nanos: u128,
}

impl View for Duration {
    type V = nat;

    closed spec fn view(&self) -> nat {
        self.nanos as nat
    }
}

impl Duration {
    #[verifier::type_invariant]
    spec fn in_range(self) -> bool {
        self.nanos <= MAX_NANOS
    }

    /// A length of `secs` seconds.
    pub fn from_secs(secs: u64) -> (d: Duration)
        ensures
            d@ == secs * 1_000_000_000,
    {
        Duration { nanos: secs as u128 * 1_000_000_000 }
    }

    /// A length of `millis` milliseconds.
    pub fn from_millis(millis: u64) -> (d: Duration)
        ensures
            d@ == millis * 1_000_000,
    {
        Duration { nanos: millis as u128 * 1_000_000 }
    }

    /// A length of `secs` seconds and `nanos` nanoseconds.
    pub fn from_parts(secs: u64, nanos: u32) -> (d: Duration)
        requires
            nanos < 1_000_000_000,
        ensures
            d@ == secs * 1_000_000_000 + nanos,
    {
        Duration { nanos: secs as u128 * 1_000_000_000 + nanos as u128 }
    }

    /// The whole seconds.
    pub fn as_secs(&self) -> (s: u64)
        ensures
            s == self@ / 1_000_000_000,
    {
        proof {
            use_type_invariant(self);
        }
        (self.nanos / 1_000_000_000) as u64
    }

    /// The nanoseconds past the whole seconds.
    pub fn subsec_nanos(&self) -> (n: u32)
        ensures
            n == self@ % 1_000_000_000,
    {
        (self.nanos % 1_000_000_000) as u32
    }

    /// The whole length in nanoseconds.
    pub fn as_nanos(&self) -> (n: u128)
        ensures
            n == self@,
    {
        self.nanos
    }

    /// Whether this length is shorter than `other`.
    pub fn shorter_than(&self, other: Duration) -> (r: bool)
        ensures
            r == (self@ < other@),
    {
        self.nanos < other.nanos
    }

    /// This length `factor` times over, where that is still in range.
    pub fn checked_mul(&self, factor: u32) -> (r: Option<Duration>)
        ensures
            match r {
                Some(d) => self@ * factor <= MAX_NANOS && d@ == self@ * factor,
                None => self@ * factor > MAX_NANOS,
            },
    {
        proof {
            use_type_invariant(self);
        }
        assert(self.nanos * factor <= MAX_NANOS * u32::MAX) by (nonlinear_arith)
            requires
                self.nanos <= MAX_NANOS,
                0 <= factor <= u32::MAX,
        ;
        let product: u128 = self.nanos * factor as u128;
        if product <= MAX_NANOS {
            Some(Duration { nanos: product })
        } else {
            None
        }
    }
}

} // verus!
