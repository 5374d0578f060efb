use vstd::prelude::*;

verus! {

/// Nanoseconds in one second.
pub const NANOS_PER_SEC: u128 = 1_000_000_000;

/// The most nanoseconds that a span holds: `u64::MAX` seconds and
/// 999_999_999 nanoseconds, as in `std::time::Duration`.
pub open spec fn max_nanos() -> int {
    (u64::MAX as int) * 1_000_000_000 + 999_999_999
}

/// A span of time, counted in nanoseconds, with the range of
/// `std::time::Duration`.
#[derive(Debug, Default, Clone, Copy, PartialEq, Eq, Structural, PartialOrd, Ord, Hash)]
pub struct Duration {
    nanos: u128,
}

impl View for Duration {
    type V = int;

    closed spec fn view(&self) -> int {
        self.nanos as int
    }
}

impl Duration {
    /// What holds of every span: it is at most `max_nanos()`.
    #[verifier::type_invariant]
    closed spec fn within_range(&self) -> bool {
        self.nanos <= max_nanos()
    }

    /// The span of no time.
    pub fn zero() -> (d: Self)
        ensures
            d@ == 0,
    {
        Duration { nanos: 0 }
    }

    /// A span of `secs` whole seconds.
    pub fn from_secs(secs: u64) -> (d: Self)
        ensures
            d@ == secs * 1_000_000_000,
    {
        Duration { nanos: (secs as u128) * NANOS_PER_SEC }
    }

    /// A span of `secs` seconds and `nanos` nanoseconds; nanoseconds beyond
    /// a second carry over into the seconds, which must not overflow.
    pub fn new(secs: u64, nanos: u32) -> (d: Self)
        requires
            secs + nanos / 1_000_000_000 <= u64::MAX,
        ensures
            d@ == secs * 1_000_000_000 + nanos,
    {
        Duration { nanos: (secs as u128) * NANOS_PER_SEC + (nanos as u128) }
    }

    /// The number of whole seconds in the span.
    pub fn as_secs(&self) -> (s: u64)
        ensures
            s == self@ / 1_000_000_000,
    {
        proof {
            use_type_invariant(self);
        }
        (self.nanos / NANOS_PER_SEC) as u64
    }

    /// The nanoseconds of the span beyond its whole seconds.
    pub fn subsec_nanos(&self) -> (n: u32)
        ensures
            n == self@ % 1_000_000_000,
    {
        (self.nanos % NANOS_PER_SEC) as u32
    }

    /// The span is of no time.
    pub fn is_zero(&self) -> (b: bool)
        ensures
            b == (self@ == 0),
    {
        self.nanos == 0
    }

    /// `self` minus `rhs`, or no time if `rhs` is longer.
    pub fn saturating_sub(&self, rhs: Duration) -> (d: Self)
        ensures
            d@ == if self@ >= rhs@ { self@ - rhs@ } else { 0 },
    {
        proof {
            use_type_invariant(self);
        }
        if self.nanos >= rhs.nanos {
            Duration { nanos: self.nanos - rhs.nanos }
        } else {
            Duration { nanos: 0 }
        }
    }

    /// `self` is shorter than `rhs`.
    pub fn is_shorter_than(&self, rhs: &Duration) -> (b: bool)
        ensures
            b == (self@ < rhs@),
    {
        self.nanos < rhs.nanos
    }

    /// `self` is longer than `rhs`.
    pub fn is_longer_than(&self, rhs: &Duration) -> (b: bool)
        ensures
            b == (self@ > rhs@),
    {
        self.nanos > rhs.nanos
    }
}

} // verus!
