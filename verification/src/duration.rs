//! Spans of time with nanosecond resolution.
use vstd::prelude::*;

verus! {

/// A span of time: whole seconds and the nanoseconds below one second.
#[derive(Debug, Clone, Copy, PartialEq, Eq, Structural)]
pub struct Duration {
    /// Whole seconds.
    pub secs: u64,
    /// Nanoseconds below one second.
    pub nanos: u32,
}

/// The whole milliseconds in a span.
pub open spec fn millis_of(d: Duration) -> nat {
    (d.secs * 1000 + d.nanos as int / 1_000_000) as nat
}

/// The span of `ms` milliseconds.
pub open spec fn of_millis(ms: u64) -> Duration {
    Duration { secs: ms / 1000, nanos: ((ms % 1000) * 1_000_000) as u32 }
}

/// The whole milliseconds of a span, kept in 64 bits: larger counts wrap.
pub open spec fn millis64(d: Duration) -> u64 {
    (millis_of(d) % 0x1_0000_0000_0000_0000) as u64
}

/// The text of a span in messages.
pub uninterp spec fn debug_text(secs: u64, nanos: u32) -> Seq<char>;

/// The `Debug` text of a `std::time::Duration` of the seconds and nanoseconds.
#[verifier::external_body]
fn format_debug(secs: u64, nanos: u32) -> (r: String)
    requires
        nanos < 1_000_000_000,
    ensures
        r@ == debug_text(secs, nanos),
{
    format!("{:?}", std::time::Duration::new(secs, nanos))
}

impl Duration {
    /// The nanoseconds stay below one second.
    pub open spec fn wf(self) -> bool {
        self.nanos < 1_000_000_000
    }

    /// A span of whole seconds.
    pub fn from_secs(secs: u64) -> (r: Duration)
        ensures
            r.wf(),
            r.secs == secs,
            r.nanos == 0,
    {
        Duration { secs, nanos: 0 }
    }

    /// A span of milliseconds.
    pub fn from_millis(ms: u64) -> (r: Duration)
        ensures
            r.wf(),
            r == of_millis(ms),
            millis_of(r) == ms,
    {
        Duration { secs: ms / 1000, nanos: ((ms % 1000) * 1_000_000) as u32 }
    }

    /// The whole milliseconds in the span.
    pub fn as_millis(&self) -> (r: u128)
        ensures
            r == millis_of(*self),
    {
        (self.secs as u128) * 1000 + (self.nanos / 1_000_000) as u128
    }

    /// The whole milliseconds in the span, kept in 64 bits.
    pub fn as_millis64(&self) -> (r: u64)
        ensures
            r == millis64(*self),
    {
        (self.as_millis() % 0x1_0000_0000_0000_0000) as u64
    }

    /// The text of the span in messages.
    pub fn to_string(&self) -> (r: String)
        requires
            self.wf(),
        ensures
            r@ == debug_text(self.secs, self.nanos),
    {
        format_debug(self.secs, self.nanos)
    }
}

/// A span made of milliseconds holds that many milliseconds.
pub proof fn law_millis_round_trip(ms: u64)
    ensures
        millis_of(of_millis(ms)) == ms,
        millis64(of_millis(ms)) == ms,
{
}

} // verus!
