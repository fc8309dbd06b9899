//! Points in time and signed spans, within the range of the calendar library.
use crate::duration::Duration;
use vstd::prelude::*;

verus! {

/// Seconds of the first instant of the calendar, counted from 1970.
pub const MIN_SECS: i64 = -8_334_601_228_800;

/// Seconds of the last instant of the calendar, counted from 1970.
pub const MAX_SECS: i64 = 8_210_266_876_799;

/// Whole seconds of the longest span.
pub const MAX_SPAN_SECS: i64 = 9_223_372_036_854_775;

/// The calendar has this instant. Nanoseconds above one second stand for a leap
/// second, which can only follow the last second of a minute.
pub open spec fn representable(secs: int, nanos: int) -> bool {
    &&& MIN_SECS <= secs <= MAX_SECS
    &&& 0 <= nanos < 2_000_000_000
    &&& nanos >= 1_000_000_000 ==> secs % 60 == 59
}

/// A span is between minus and plus `i64::MAX` milliseconds.
pub open spec fn span_in_range(secs: int, nanos: int) -> bool {
    &&& 0 <= nanos < 1_000_000_000
    &&& -9_223_372_036_854_775_807_000_000 <= secs * 1_000_000_000 + nanos
    &&& secs * 1_000_000_000 + nanos <= 9_223_372_036_854_775_807_000_000
}

/// `(secs, nanos)` moved by a span, if the calendar has the instant.
pub open spec fn moved(secs: int, nanos: int, dsecs: int, dnanos: int) -> Option<(i64, u32)> {
    let s = secs + dsecs + (nanos + dnanos) / 1_000_000_000;
    let f = (nanos + dnanos) % 1_000_000_000;
    if MIN_SECS <= s <= MAX_SECS {
        Some((s as i64, f as u32))
    } else {
        None
    }
}

/// The instant `(secs, nanos)` moved by a span. Within a leap second only the
/// nanoseconds move; a span that leaves it counts from the second's end.
pub open spec fn shifted(secs: i64, nanos: u32, dsecs: i64, dnanos: u32) -> Option<(i64, u32)> {
    if nanos < 1_000_000_000 {
        moved(secs as int, nanos as int, dsecs as int, dnanos as int)
    } else {
        let whole = if dsecs < 0 && dnanos > 0 {
            dsecs + 1
        } else {
            dsecs as int
        };
        let part = if dsecs < 0 && dnanos > 0 {
            dnanos - 1_000_000_000
        } else {
            dnanos as int
        };
        if whole > 0 || (part > 0 && nanos + part >= 2_000_000_000) {
            moved(secs as int, nanos - 1_000_000_000, dsecs as int, dnanos as int)
        } else if whole < 0 {
            moved(secs + 1, nanos - 1_000_000_000, dsecs as int, dnanos as int)
        } else {
            Some((secs, (nanos + part) as u32))
        }
    }
}

/// The RFC 3339 text of an instant in UTC.
pub uninterp spec fn rfc3339_text(secs: i64, nanos: u32) -> Seq<char>;

/// The instant that an RFC 3339 text names, as seconds and nanoseconds in UTC.
pub uninterp spec fn rfc3339_instant(s: Seq<char>) -> Option<(i64, u32)>;

/// The text of an instant in UTC with three digits of milliseconds, as kept in
/// text columns.
pub uninterp spec fn column_text(secs: i64, nanos: u32) -> Seq<char>;

/// The text of an instant in UTC as messages show it.
pub uninterp spec fn display_text(secs: i64, nanos: u32) -> Seq<char>;

/// The time of the system clock, as `chrono::Utc::now` reads it: an instant that
/// the calendar has, not before 1970 and no leap second.
#[verifier::external_body]
fn clock() -> (r: (i64, u32))
    ensures
        representable(r.0 as int, r.1 as int),
        r.0 >= 0,
        r.1 < 1_000_000_000,
{
    let t = chrono::Utc::now();
    (t.timestamp(), t.timestamp_subsec_nanos())
}

/// The system clock gave this instant.
pub closed spec fn read_from_clock(t: Timestamp) -> bool {
    exists|r: (i64, u32)| t.parts() == r && #[trigger] call_ensures(clock, (), r)
}

/// This instant is a reading of the system clock: not before 1970, and no leap second.
pub open spec fn clock_gave(t: Timestamp) -> bool {
    t.parts().0 >= 0 && t.parts().1 < 1_000_000_000 && read_from_clock(t)
}

/// `chrono::DateTime::checked_add_signed`: the instant moved by the span, or
/// `None` where the calendar ends before.
#[verifier::external_body]
fn checked_add(secs: i64, nanos: u32, dsecs: i64, dnanos: u32) -> (r: Option<(i64, u32)>)
    requires
        representable(secs as int, nanos as int),
        span_in_range(dsecs as int, dnanos as int),
    ensures
        r == shifted(secs, nanos, dsecs, dnanos),
{
    let t = chrono::DateTime::from_timestamp(secs, nanos).unwrap();
    let d = chrono::TimeDelta::new(dsecs, dnanos).unwrap();
    t.checked_add_signed(d).map(|x| (x.timestamp(), x.timestamp_subsec_nanos()))
}

/// The instant lies in the years 0 to 9999 and is no leap second.
pub open spec fn has_rfc3339_text(secs: i64, nanos: u32) -> bool {
    -62_167_219_200 <= secs <= 253_402_300_799 && nanos < 1_000_000_000
}

/// `chrono::DateTime::to_rfc3339` of the instant in UTC. In the years 0 to 9999,
/// leap seconds aside, `chrono::DateTime::parse_from_rfc3339` reads the text back.
#[verifier::external_body]
fn format_rfc3339(secs: i64, nanos: u32) -> (r: String)
    requires
        representable(secs as int, nanos as int),
    ensures
        r@ == rfc3339_text(secs, nanos),
        has_rfc3339_text(secs, nanos) ==> rfc3339_instant(r@) == Some((secs, nanos)),
{
    chrono::DateTime::from_timestamp(secs, nanos).unwrap().to_rfc3339()
}

/// `chrono::DateTime::parse_from_rfc3339`, converted to UTC. What it accepts lies
/// within the calendar.
#[verifier::external_body]
fn parse_rfc3339(s: &str) -> (r: Option<(i64, u32)>)
    ensures
        r == rfc3339_instant(s@),
        r matches Some(x) ==> representable(x.0 as int, x.1 as int),
{
    match chrono::DateTime::parse_from_rfc3339(s) {
        Ok(t) => Some((t.timestamp(), t.timestamp_subsec_nanos())),
        Err(_) => None,
    }
}

/// `chrono::DateTime::format` of the instant in UTC with the pattern
/// `%Y-%m-%dT%H:%M:%S%.3fZ`.
#[verifier::external_body]
fn format_column(secs: i64, nanos: u32) -> (r: String)
    requires
        representable(secs as int, nanos as int),
    ensures
        r@ == column_text(secs, nanos),
{
    chrono::DateTime::from_timestamp(secs, nanos).unwrap().format("%Y-%m-%dT%H:%M:%S%.3fZ").to_string()
}

/// The `Display` text of a `chrono::DateTime<Utc>` at the instant.
#[verifier::external_body]
fn format_display(secs: i64, nanos: u32) -> (r: String)
    requires
        representable(secs as int, nanos as int),
    ensures
        r@ == display_text(secs, nanos),
{
    chrono::DateTime::from_timestamp(secs, nanos).unwrap().to_string()
}

/// A signed span of time.
#[derive(Debug, Clone, Copy, PartialEq, Eq, Structural)]
pub struct TimeDelta {
    secs: i64,
    nanos: u32,
}

impl TimeDelta {
    /// Whole seconds of the span, rounded down, and the nanoseconds above them.
    pub closed spec fn parts(self) -> (i64, u32) {
        (self.secs, self.nanos)
    }

    #[verifier::type_invariant]
    spec fn in_range(self) -> bool {
        span_in_range(self.secs as int, self.nanos as int)
    }

    /// The span of whole seconds rounded down and nanoseconds above them, if it is
    /// in range.
    pub fn new(secs: i64, nanos: u32) -> (r: Option<TimeDelta>)
        ensures
            match r {
                Some(d) => span_in_range(secs as int, nanos as int) && d.parts() == (secs, nanos),
                None => !span_in_range(secs as int, nanos as int),
            },
    {
        if nanos >= 1_000_000_000 {
            return None;
        }
        if secs > MAX_SPAN_SECS || secs < -MAX_SPAN_SECS - 1 {
            return None;
        }
        if secs == MAX_SPAN_SECS && nanos > 807_000_000 {
            return None;
        }
        if secs == -MAX_SPAN_SECS - 1 && nanos < 193_000_000 {
            return None;
        }
        Some(TimeDelta { secs, nanos })
    }

    /// A span of whole seconds.
    pub fn try_seconds(secs: i64) -> (r: Option<TimeDelta>)
        ensures
            match r {
                Some(d) => span_in_range(secs as int, 0) && d.parts() == (secs, 0u32),
                None => !span_in_range(secs as int, 0),
            },
    {
        TimeDelta::new(secs, 0)
    }

    /// A span of milliseconds; only `i64::MIN` is out of range.
    pub fn try_milliseconds(ms: i64) -> (r: Option<TimeDelta>)
        ensures
            match r {
                Some(d) => ms != i64::MIN && d.parts() == millis_span(ms),
                None => ms == i64::MIN,
            },
    {
        if ms == i64::MIN {
            return None;
        }
        if ms >= 0 {
            Some(TimeDelta { secs: ms / 1000, nanos: ((ms % 1000) * 1_000_000) as u32 })
        } else {
            // Rounded down: the nanoseconds count upwards from the second before.
            let up: i64 = -(ms + 1);
            Some(
                TimeDelta {
                    secs: -(up / 1000) - 1,
                    nanos: ((999 - up % 1000) * 1_000_000) as u32,
                },
            )
        }
    }

    /// The longest span: `i64::MAX` milliseconds.
    pub fn max() -> (r: TimeDelta)
        ensures
            r.parts() == (MAX_SPAN_SECS, 807_000_000u32),
    {
        TimeDelta { secs: MAX_SPAN_SECS, nanos: 807_000_000 }
    }

    /// The span of a duration, or the longest span where the duration is longer.
    pub fn from_duration(d: Duration) -> (r: TimeDelta)
        requires
            d.wf(),
        ensures
            r.parts() == duration_span(d),
    {
        if d.secs > MAX_SPAN_SECS as u64 {
            return TimeDelta::max();
        }
        match TimeDelta::new(d.secs as i64, d.nanos) {
            Some(r) => r,
            None => TimeDelta::max(),
        }
    }
}

/// Seconds rounded down, and nanoseconds above them, of a number of milliseconds.
pub open spec fn millis_span(ms: i64) -> (i64, u32) {
    ((ms as int / 1000) as i64, ((ms as int % 1000) * 1_000_000) as u32)
}

/// The span of a duration, cut to the longest span.
pub open spec fn duration_span(d: Duration) -> (i64, u32) {
    if span_in_range(d.secs as int, d.nanos as int) {
        (d.secs as i64, d.nanos)
    } else {
        (MAX_SPAN_SECS, 807_000_000)
    }
}

/// A point in time in UTC.
#[derive(Debug, Clone, Copy, PartialEq, Eq, Structural)]
pub struct Timestamp {
    secs: i64,
    nanos: u32,
}

/// The instant `a` is not before the instant `b`.
pub open spec fn not_before(a: (i64, u32), b: (i64, u32)) -> bool {
    a.0 > b.0 || (a.0 == b.0 && a.1 >= b.1)
}

/// A count of seconds as an unsigned number; negative counts wrap.
pub open spec fn unsigned_secs(secs: i64) -> u64 {
    if secs >= 0 {
        secs as u64
    } else {
        (secs + 0x1_0000_0000_0000_0000) as u64
    }
}

impl Timestamp {
    /// Seconds since 1970 and nanoseconds above them.
    pub closed spec fn parts(self) -> (i64, u32) {
        (self.secs, self.nanos)
    }

    #[verifier::type_invariant]
    spec fn in_calendar(self) -> bool {
        representable(self.secs as int, self.nanos as int)
    }

    /// The instant of seconds since 1970 and nanoseconds above them, if the calendar
    /// has it.
    pub fn from_parts(secs: i64, nanos: u32) -> (r: Option<Timestamp>)
        ensures
            match r {
                Some(t) => representable(secs as int, nanos as int) && t.parts() == (secs, nanos),
                None => !representable(secs as int, nanos as int),
            },
    {
        if secs < MIN_SECS || secs > MAX_SECS || nanos >= 2_000_000_000 {
            return None;
        }
        if nanos >= 1_000_000_000 {
            // The remainder of a negative count is taken from a multiple of a minute
            // below the first instant.
            let above: i64 = secs + 8_334_601_228_800;
            proof {
                assert(above % 60 == secs as int % 60);
            }
            if above % 60 != 59 {
                return None;
            }
        }
        Some(Timestamp { secs, nanos })
    }

    /// The time of the system clock.
    pub fn now() -> (r: Timestamp)
        ensures
            clock_gave(r),
    {
        let reading = clock();
        let r = Timestamp { secs: reading.0, nanos: reading.1 };
        proof {
            assert(call_ensures(clock, (), reading));
            assert(r.parts() == reading);
        }
        r
    }

    /// Seconds since 1970.
    pub fn timestamp(&self) -> (r: i64)
        ensures
            r == self.parts().0,
            MIN_SECS <= r <= MAX_SECS,
    {
        proof {
            use_type_invariant(self);
        }
        self.secs
    }

    /// Nanoseconds above the seconds.
    pub fn subsec_nanos(&self) -> (r: u32)
        ensures
            r == self.parts().1,
    {
        self.nanos
    }

    /// Seconds since 1970 as an unsigned number.
    pub fn unix(&self) -> (r: u64)
        ensures
            r == unsigned_secs(self.parts().0),
    {
        if self.secs >= 0 {
            self.secs as u64
        } else {
            let below: u64 = (-(self.secs + 1)) as u64;
            u64::MAX - below
        }
    }

    /// Whether this instant is not before `other`.
    pub fn reached(&self, other: &Timestamp) -> (r: bool)
        ensures
            r == not_before(self.parts(), other.parts()),
    {
        self.secs > other.secs || (self.secs == other.secs && self.nanos >= other.nanos)
    }

    /// The instant moved by a span, if the calendar has it.
    pub fn checked_add_signed(&self, delta: TimeDelta) -> (r: Option<Timestamp>)
        ensures
            opt_parts(r) == shifted(
                self.parts().0,
                self.parts().1,
                delta.parts().0,
                delta.parts().1,
            ),
    {
        proof {
            use_type_invariant(self);
            use_type_invariant(&delta);
        }
        match checked_add(self.secs, self.nanos, delta.secs, delta.nanos) {
            Some((secs, nanos)) => Some(Timestamp { secs, nanos }),
            None => None,
        }
    }

    /// The RFC 3339 text of the instant.
    pub fn to_rfc3339(&self) -> (r: String)
        ensures
            r@ == rfc3339_text(self.parts().0, self.parts().1),
            has_rfc3339_text(self.parts().0, self.parts().1) ==> rfc3339_instant(r@) == Some(
                self.parts(),
            ),
    {
        proof {
            use_type_invariant(self);
        }
        format_rfc3339(self.secs, self.nanos)
    }

    /// The text of the instant in a text column.
    pub fn to_column_text(&self) -> (r: String)
        ensures
            r@ == column_text(self.parts().0, self.parts().1),
    {
        proof {
            use_type_invariant(self);
        }
        format_column(self.secs, self.nanos)
    }

    /// The text of the instant in messages.
    pub fn to_string(&self) -> (r: String)
        ensures
            r@ == display_text(self.parts().0, self.parts().1),
    {
        proof {
            use_type_invariant(self);
        }
        format_display(self.secs, self.nanos)
    }

    /// The instant that an RFC 3339 text names.
    pub fn parse_from_rfc3339(s: &str) -> (r: Option<Timestamp>)
        ensures
            opt_parts(r) == rfc3339_instant(s@),
    {
        match parse_rfc3339(s) {
            Some((secs, nanos)) => Some(Timestamp { secs, nanos }),
            None => None,
        }
    }
}

/// Seconds and nanoseconds of an optional instant.
pub open spec fn opt_parts(o: Option<Timestamp>) -> Option<(i64, u32)> {
    match o {
        Some(t) => Some(t.parts()),
        None => None,
    }
}

/// Time does not run backwards when a span that is not negative is added.
pub proof fn law_shift_forward(secs: i64, nanos: u32, dsecs: i64, dnanos: u32)
    requires
        representable(secs as int, nanos as int),
        span_in_range(dsecs as int, dnanos as int),
        dsecs >= 0,
    ensures
        shifted(secs, nanos, dsecs, dnanos) matches Some(r) ==> r.0 >= secs,
{
}

} // verus!
