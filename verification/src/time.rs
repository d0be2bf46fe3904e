//! Spans of time.

use vstd::prelude::*;

verus! {

/// The number of nanoseconds in a second.
pub const NANOS_PER_SEC: u32 = 1_000_000_000;

/// A span of time: whole seconds and a part of a second in nanoseconds. It
/// also serves as a reading of a monotonic clock, counted from the clock's
/// origin.
#[derive(Clone, Copy, Debug, PartialEq, Eq, PartialOrd, Ord, Hash, Structural)]
pub struct Duration {
    secs: u64,
    nanos: u32,
}

impl View for Duration {
    type V = nat;

    /// The span in nanoseconds.
    closed spec fn view(&self) -> nat {
        (self.secs * NANOS_PER_SEC + self.nanos) as nat
    }
}

/// The number of nanoseconds in `secs` seconds.
pub open spec fn secs_to_nanos(secs: nat) -> nat {
    secs * 1_000_000_000
}

impl Duration {
    #[verifier::type_invariant]
    spec fn inv(self) -> bool {
        self.nanos < NANOS_PER_SEC
    }

    /// `secs` whole seconds.
    pub fn from_secs(secs: u64) -> (r: Self)
        ensures
            r@ == secs_to_nanos(secs as nat),
    {
        Duration { secs, nanos: 0 }
    }

    /// `secs` seconds and `nanos` nanoseconds, which are less than a second.
    pub fn new(secs: u64, nanos: u32) -> (r: Option<Self>)
        ensures
            r is Some == (nanos < 1_000_000_000),
            r matches Some(d) ==> d@ == secs_to_nanos(secs as nat) + nanos,
    {
        if nanos < NANOS_PER_SEC {
            Some(Duration { secs, nanos })
        } else {
            None
        }
    }

    /// The whole seconds of the span.
    pub fn as_secs(&self) -> (r: u64)
        ensures
            r as nat == self@ / 1_000_000_000,
    {
        proof {
            use_type_invariant(self);
        }
        self.secs
    }

    /// The nanoseconds behind the whole seconds.
    pub fn subsec_nanos(&self) -> (r: u32)
        ensures
            r as nat == self@ % 1_000_000_000,
    {
        proof {
            use_type_invariant(self);
        }
        self.nanos
    }

    /// Whether this span is shorter than `other`.
    pub fn shorter(&self, other: &Self) -> (r: bool)
        ensures
            r == (self@ < other@),
    {
        proof {
            use_type_invariant(self);
            use_type_invariant(other);
        }
        self.secs < other.secs || (self.secs == other.secs && self.nanos < other.nanos)
    }

    /// The shorter of two spans.
    pub fn shortest(self, other: Self) -> (r: Self)
        ensures
            r@ == (if other@ < self@ {
                other@
            } else {
                self@
            }),
    {
        if other.shorter(&self) {
            other
        } else {
            self
        }
    }

    /// The sum of two spans, if it can be held.
    pub fn checked_sum(self, other: Self) -> (r: Option<Self>)
        ensures
            r is Some == (self@ + other@ < secs_to_nanos(u64::MAX as nat + 1)),
            r matches Some(d) ==> d@ == self@ + other@,
    {
        proof {
            use_type_invariant(&self);
            use_type_invariant(&other);
        }
        let nanos: u32 = self.nanos + other.nanos;
        let carry: u64 = if nanos >= NANOS_PER_SEC {
            1
        } else {
            0
        };
        if self.secs > u64::MAX - other.secs || self.secs + other.secs > u64::MAX - carry {
            return None;
        }
        if nanos >= NANOS_PER_SEC {
            Some(
                Duration {
                    secs: self.secs + other.secs + carry,
                    nanos: nanos - NANOS_PER_SEC,
                },
            )
        } else {
            Some(Duration { secs: self.secs + other.secs, nanos })
        }
    }

    /// What is left of this span when a span that is not longer is taken away.
    pub fn minus(self, other: Self) -> (r: Self)
        requires
            other@ <= self@,
        ensures
            r@ == self@ - other@,
    {
        proof {
            use_type_invariant(&self);
            use_type_invariant(&other);
        }
        if self.nanos >= other.nanos {
            Duration { secs: self.secs - other.secs, nanos: self.nanos - other.nanos }
        } else {
            Duration {
                secs: self.secs - other.secs - 1,
                nanos: (self.nanos + NANOS_PER_SEC) - other.nanos,
            }
        }
    }
}

} // verus!
