//! Lengths of time, to the nanosecond.

use vstd::prelude::*;

verus! {

pub const NANOS_PER_SEC: u32 = 1_000_000_000;

/// A length of time: whole seconds and a remainder below one second in nanoseconds.
#[derive(Clone, Copy, Debug, PartialEq, Eq, Structural)]
pub struct TimeSpan {
    secs: u64,
    nanos: u32,
}

impl TimeSpan {
    #[verifier::type_invariant]
    spec fn remainder_below_one_second(self) -> bool {
        self.nanos < NANOS_PER_SEC
    }

    /// Whole seconds.
    pub closed spec fn secs(self) -> nat {
        self.secs as nat
    }

    /// Nanoseconds beyond the whole seconds.
    pub closed spec fn subsec_nanos(self) -> nat {
        self.nanos as nat
    }

    /// The length in nanoseconds.
    pub open spec fn nanos(self) -> nat {
        self.secs() * 1_000_000_000 + self.subsec_nanos()
    }

    /// The length in whole milliseconds.
    pub open spec fn millis(self) -> nat {
        self.nanos() / 1_000_000
    }

    /// The span of so many whole seconds.
    pub closed spec fn whole_secs(secs: u64) -> TimeSpan {
        TimeSpan { secs, nanos: 0 }
    }

    /// A span of whole seconds is as long as it says.
    pub proof fn law_whole_secs(secs: u64)
        ensures
            TimeSpan::whole_secs(secs).secs() == secs,
            TimeSpan::whole_secs(secs).subsec_nanos() == 0,
    {
    }

    /// Two spans with the same seconds and nanoseconds are the same span.
    pub proof fn law_equal(a: TimeSpan, b: TimeSpan)
        requires
            a.secs() == b.secs(),
            a.subsec_nanos() == b.subsec_nanos(),
        ensures
            a == b,
    {
    }

    /// A span of whole seconds and a remainder in nanoseconds.
    pub fn new(secs: u64, nanos: u32) -> (span: TimeSpan)
        requires
            nanos < NANOS_PER_SEC,
        ensures
            span.secs() == secs,
            span.subsec_nanos() == nanos,
    {
        TimeSpan { secs, nanos }
    }

    /// A span of whole seconds.
    pub fn from_secs(secs: u64) -> (span: TimeSpan)
        ensures
            span == TimeSpan::whole_secs(secs),
            span.secs() == secs,
            span.subsec_nanos() == 0,
    {
        TimeSpan { secs, nanos: 0 }
    }

    /// A span of whole milliseconds.
    pub fn from_millis(millis: u64) -> (span: TimeSpan)
        ensures
            span.nanos() == millis * 1_000_000,
            span.subsec_nanos() < NANOS_PER_SEC,
    {
        TimeSpan { secs: millis / 1_000, nanos: ((millis % 1_000) * 1_000_000) as u32 }
    }

    /// A span of nanoseconds.
    pub fn from_nanos(nanos: u64) -> (span: TimeSpan)
        ensures
            span.nanos() == nanos,
            span.subsec_nanos() < NANOS_PER_SEC,
    {
        TimeSpan { secs: nanos / 1_000_000_000, nanos: (nanos % 1_000_000_000) as u32 }
    }

    /// Whole seconds.
    pub fn as_secs(&self) -> (secs: u64)
        ensures
            secs == self.secs(),
    {
        self.secs
    }

    /// Nanoseconds beyond the whole seconds.
    pub fn subsec(&self) -> (nanos: u32)
        ensures
            nanos == self.subsec_nanos(),
            nanos < NANOS_PER_SEC,
    {
        proof {
            use_type_invariant(self);
        }
        self.nanos
    }

    /// The length in nanoseconds.
    pub fn as_nanos(&self) -> (nanos: u128)
        ensures
            nanos == self.nanos(),
    {
        self.secs as u128 * 1_000_000_000 + self.nanos as u128
    }

    /// The length in whole milliseconds.
    pub fn as_millis(&self) -> (millis: u128)
        ensures
            millis == self.millis(),
    {
        self.as_nanos() / 1_000_000
    }

    /// Whether the span has no length.
    pub fn is_zero(&self) -> (zero: bool)
        ensures
            zero == (self.nanos() == 0),
    {
        self.secs == 0 && self.nanos == 0
    }
}

/// A span is as long as its seconds and its nanoseconds together, and its milliseconds are the whole
/// ones of that length.
pub proof fn law_span_units(span: TimeSpan)
    ensures
        span.nanos() == span.secs() * 1_000_000_000 + span.subsec_nanos(),
        span.millis() * 1_000_000 <= span.nanos() < (span.millis() + 1) * 1_000_000,
{
}

/// A span gives back what it was made of: milliseconds, nanoseconds, or seconds and a remainder.
pub proof fn law_spans_give_back_their_length(
    millis: u64,
    nanos: u64,
    secs: u64,
    rest: u32,
    of_millis: TimeSpan,
    of_nanos: TimeSpan,
    of_parts: TimeSpan,
    millis_back: u128,
    nanos_back: u128,
    secs_back: u64,
    rest_back: u32,
)
    requires
        call_ensures(TimeSpan::from_millis, (millis,), of_millis),
        call_ensures(TimeSpan::as_millis, (&of_millis,), millis_back),
        call_ensures(TimeSpan::from_nanos, (nanos,), of_nanos),
        call_ensures(TimeSpan::as_nanos, (&of_nanos,), nanos_back),
        rest < 1_000_000_000,
        call_ensures(TimeSpan::new, (secs, rest), of_parts),
        call_ensures(TimeSpan::as_secs, (&of_parts,), secs_back),
        call_ensures(TimeSpan::subsec, (&of_parts,), rest_back),
    ensures
        millis_back == millis,
        nanos_back == nanos,
        secs_back == secs,
        rest_back == rest,
{
}

} // verus!
