//! Spans of monotonic time, counted in whole nanoseconds.

use vstd::prelude::*;

verus! {

/// Nanoseconds in one second.
pub const NANOS_PER_SEC: u128 = 1_000_000_000;

/// Nanoseconds in one millisecond.
pub const NANOS_PER_MILLI: u128 = 1_000_000;

/// The longest span: `u64::MAX` seconds and 999 999 999 nanoseconds.
pub const MAX_NANOS: u128 = 18_446_744_073_709_551_615_999_999_999;

/// A span of time. Its view is its length in nanoseconds.
#[derive(Debug, Clone, Copy, PartialEq, Eq, PartialOrd, Ord, Hash, Structural)]
pub struct Duration {
    nanos: u128,
}

impl View for Duration {
    type V = nat;

    closed spec fn view(&self) -> nat {
        self.nanos as nat
    }
}

/// Two spans of the same length are the same span.
pub broadcast proof fn same_length_same_span(a: Duration, b: Duration)
    requires
        #[trigger] a@ == #[trigger] b@,
    ensures
        a == b,
{
}

impl Duration {
    #[verifier::type_invariant]
    spec fn within_range(self) -> bool {
        self.nanos <= MAX_NANOS
    }

    /// The empty span.
    pub fn zero() -> (result: Self)
        ensures
            result@ == 0,
    {
        Duration { nanos: 0 }
    }

    /// The longest span.
    pub fn longest() -> (result: Self)
        ensures
            result@ == MAX_NANOS,
    {
        Duration { nanos: MAX_NANOS }
    }

    /// A span of whole seconds.
    pub fn from_secs(secs: u64) -> (result: Self)
        ensures
            result@ == secs * NANOS_PER_SEC,
    {
        Duration { nanos: secs as u128 * NANOS_PER_SEC }
    }

    /// A span of whole milliseconds.
    pub fn from_millis(millis: u64) -> (result: Self)
        ensures
            result@ == millis * NANOS_PER_MILLI,
    {
        Duration { nanos: millis as u128 * NANOS_PER_MILLI }
    }

    /// A span of whole seconds and a part of one more second.
    pub fn from_parts(secs: u64, subsec_nanos: u32) -> (result: Self)
        requires
            subsec_nanos < NANOS_PER_SEC,
        ensures
            result@ == secs * NANOS_PER_SEC + subsec_nanos,
    {
        Duration { nanos: secs as u128 * NANOS_PER_SEC + subsec_nanos as u128 }
    }

    /// The whole seconds of the span.
    pub fn as_secs(&self) -> (secs: u64)
        ensures
            secs == self@ / (NANOS_PER_SEC as nat),
    {
        proof {
            use_type_invariant(self);
        }
        (self.nanos / NANOS_PER_SEC) as u64
    }

    /// What the span holds beyond its whole seconds.
    pub fn subsec_nanos(&self) -> (nanos: u32)
        ensures
            nanos == self@ % (NANOS_PER_SEC as nat),
    {
        (self.nanos % NANOS_PER_SEC) as u32
    }

    /// The whole milliseconds of the span.
    pub fn as_millis(&self) -> (millis: u128)
        ensures
            millis == self@ / (NANOS_PER_MILLI as nat),
    {
        self.nanos / NANOS_PER_MILLI
    }

    /// Whether the span is empty.
    pub fn is_zero(&self) -> (result: bool)
        ensures
            result == (self@ == 0),
    {
        self.nanos == 0
    }

    /// Whether the span is no shorter than `other`.
    pub fn at_least(&self, other: Duration) -> (result: bool)
        ensures
            result == (self@ >= other@),
    {
        self.nanos >= other.nanos
    }

    /// Whether both spans after one another are no longer than the longest span.
    pub fn fits_before(&self, other: Duration) -> (result: bool)
        ensures
            result == (self@ + other@ <= MAX_NANOS),
    {
        proof {
            use_type_invariant(self);
            use_type_invariant(&other);
        }
        self.nanos + other.nanos <= MAX_NANOS
    }

    /// Both spans after one another.
    pub fn plus(&self, other: Duration) -> (result: Self)
        requires
            self@ + other@ <= MAX_NANOS,
        ensures
            result@ == self@ + other@,
    {
        Duration { nanos: self.nanos + other.nanos }
    }

    /// Both spans after one another, or the longest span where that is too long.
    pub fn saturating_add(&self, other: Duration) -> (result: Self)
        ensures
            result@ == if self@ + other@ <= MAX_NANOS {
                self@ + other@
            } else {
                MAX_NANOS as nat
            },
    {
        proof {
            use_type_invariant(self);
            use_type_invariant(&other);
        }
        if self.nanos + other.nanos <= MAX_NANOS {
            Duration { nanos: self.nanos + other.nanos }
        } else {
            Duration { nanos: MAX_NANOS }
        }
    }

    /// What is left of the span after `other`, which may be nothing.
    pub fn saturating_sub(&self, other: Duration) -> (result: Self)
        ensures
            result@ == if self@ >= other@ {
                (self@ - other@) as nat
            } else {
                0
            },
    {
        proof {
            use_type_invariant(self);
        }
        if self.nanos >= other.nanos {
            Duration { nanos: self.nanos - other.nanos }
        } else {
            Duration { nanos: 0 }
        }
    }

    /// The shorter of the two spans.
    pub fn shorter(&self, other: Duration) -> (result: Self)
        ensures
            result@ == if self@ <= other@ {
                self@
            } else {
                other@
            },
    {
        if self.nanos <= other.nanos {
            *self
        } else {
            other
        }
    }

    /// The longer of the two spans.
    pub fn longer(&self, other: Duration) -> (result: Self)
        ensures
            result@ == if self@ >= other@ {
                self@
            } else {
                other@
            },
    {
        if self.nanos >= other.nanos {
            *self
        } else {
            other
        }
    }
}

/// A second has a thousand million nanoseconds and a millisecond a million; the longest span is
/// one nanosecond short of `2^64` seconds.
pub proof fn spans_in_nanoseconds()
    ensures
        NANOS_PER_SEC == 1_000_000_000,
        NANOS_PER_MILLI * 1_000 == NANOS_PER_SEC,
        MAX_NANOS + 1 == 0x1_0000_0000_0000_0000 * NANOS_PER_SEC,
{
}

} // verus!
