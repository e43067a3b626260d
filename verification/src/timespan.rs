//! A non-negative span of time with nanosecond resolution.

use vstd::prelude::*;

verus! {

/// Nanoseconds in one second.
pub const NANOS_PER_SEC: u32 = 1_000_000_000;

/// Nanoseconds in one millisecond.
pub const NANOS_PER_MILLI: u32 = 1_000_000;

/// Milliseconds in one second.
pub const MILLIS_PER_SEC: u64 = 1_000;

/// A span of time: whole seconds and the nanoseconds beyond them.
///
/// The view of a span is its length in nanoseconds.
#[derive(Clone, Copy, Debug, PartialEq, Eq, Structural)]
pub struct TimeSpan {
    secs: u64,
    nanos: u32,
}

impl View for TimeSpan {
    type V = nat;

    closed spec fn view(&self) -> nat {
        (self.secs as nat) * 1_000_000_000 + (self.nanos as nat)
    }
}

/// The length in nanoseconds of an optional span.
pub open spec fn span_nanos(d: Option<TimeSpan>) -> Option<nat> {
    match d {
        Some(span) => Some(span@),
        None => None,
    }
}

impl TimeSpan {
    #[verifier::type_invariant]
    spec fn well_formed(self) -> bool {
        self.nanos < 1_000_000_000
    }

    /// The span of no length.
    pub fn zero() -> (span: TimeSpan)
        ensures
            span@ == 0,
    {
        TimeSpan { secs: 0, nanos: 0 }
    }

    /// The span of `secs` seconds and `nanos` nanoseconds, or `None` when
    /// `nanos` is a whole second or more.
    pub fn from_parts(secs: u64, nanos: u32) -> (span: Option<TimeSpan>)
        ensures
            nanos < NANOS_PER_SEC <==> span is Some,
            span matches Some(s) ==> s@ == secs as nat * 1_000_000_000 + nanos as nat,
    {
        if nanos < NANOS_PER_SEC {
            Some(TimeSpan { secs, nanos })
        } else {
            None
        }
    }

    /// The span of `secs` whole seconds.
    pub fn from_secs(secs: u64) -> (span: TimeSpan)
        ensures
            span@ == secs as nat * 1_000_000_000,
    {
        TimeSpan { secs, nanos: 0 }
    }

    /// The span of `millis` milliseconds.
    pub fn from_millis(millis: u64) -> (span: TimeSpan)
        ensures
            span@ == millis as nat * 1_000_000,
    {
        let secs: u64 = millis / MILLIS_PER_SEC;
        let rest: u64 = millis % MILLIS_PER_SEC;
        let nanos: u32 = (rest as u32) * NANOS_PER_MILLI;
        assert(millis as nat * 1_000_000 == secs as nat * 1_000_000_000 + nanos as nat) by {
            assert(millis == secs * 1_000 + rest);
        }
        TimeSpan { secs, nanos }
    }

    /// The span of `nanos` nanoseconds.
    pub fn from_nanos(nanos: u64) -> (span: TimeSpan)
        ensures
            span@ == nanos as nat,
    {
        let per_sec: u64 = 1_000_000_000;
        let secs: u64 = nanos / per_sec;
        let rest: u64 = nanos % per_sec;
        TimeSpan { secs, nanos: rest as u32 }
    }

    /// The whole seconds of the span.
    pub fn as_secs(&self) -> (secs: u64)
        ensures
            secs as nat == self@ / 1_000_000_000,
    {
        proof {
            use_type_invariant(self);
        }
        self.secs
    }

    /// The nanoseconds beyond the whole seconds.
    pub fn subsec_nanos(&self) -> (nanos: u32)
        ensures
            nanos as nat == self@ % 1_000_000_000,
    {
        proof {
            use_type_invariant(self);
        }
        self.nanos
    }

    /// The whole milliseconds of the span.
    pub fn as_millis(&self) -> (millis: u128)
        ensures
            millis as nat == self@ / 1_000_000,
    {
        proof {
            use_type_invariant(self);
        }
        let sub: u32 = self.nanos / NANOS_PER_MILLI;
        let whole: u128 = (self.secs as u128) * 1_000;
        assert((self.secs as nat * 1_000_000_000 + self.nanos as nat) / 1_000_000
            == self.secs as nat * 1_000 + (self.nanos as nat) / 1_000_000) by {
            let s = self.secs as int;
            let n = self.nanos as int;
            assert((s * 1_000_000_000 + n) / 1_000_000 == s * 1_000 + n / 1_000_000)
                by (nonlinear_arith);
        }
        whole + (sub as u128)
    }

    /// Whether two spans have the same length.
    pub fn same(&self, other: &TimeSpan) -> (equal: bool)
        ensures
            equal == (self@ == other@),
            equal == (*self == *other),
    {
        proof {
            use_type_invariant(self);
            use_type_invariant(other);
        }
        self.secs == other.secs && self.nanos == other.nanos
    }
}

} // verus!
