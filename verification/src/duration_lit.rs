//! Duration literals like `30s`, `100ms`, `5m` and `1h`.
use crate::duration::Duration;
use crate::text;
use crate::text::{concat3, parse_unsigned};
use vstd::prelude::*;

verus! {

/// A character has the property White_Space of the Unicode character database.
pub open spec fn white_space(c: char) -> bool {
    let n = c as int;
    ||| 0x9 <= n <= 0xd
    ||| n == 0x20
    ||| n == 0x85
    ||| n == 0xa0
    ||| n == 0x1680
    ||| 0x2000 <= n <= 0x200a
    ||| n == 0x2028
    ||| n == 0x2029
    ||| n == 0x202f
    ||| n == 0x205f
    ||| n == 0x3000
}

/// `char::is_whitespace`: the characters with the property White_Space, and no others.
#[verifier::external_body]
fn is_whitespace(c: char) -> (r: bool)
    ensures
        r == white_space(c),
{
    c.is_whitespace()
}

/// A text without the whitespace at its start.
pub open spec fn trimmed_start(s: Seq<char>) -> Seq<char>
    decreases s.len(),
{
    if s.len() > 0 && white_space(s[0]) {
        trimmed_start(s.drop_first())
    } else {
        s
    }
}

/// A text without the whitespace at its end.
pub open spec fn trimmed_end(s: Seq<char>) -> Seq<char>
    decreases s.len(),
{
    if s.len() > 0 && white_space(s.last()) {
        trimmed_end(s.drop_last())
    } else {
        s
    }
}

/// A text without the whitespace around it.
pub open spec fn trimmed(s: Seq<char>) -> Seq<char> {
    trimmed_end(trimmed_start(s))
}

/// The part of a text that is left without the whitespace around it.
fn trim(s: &str) -> (r: &str)
    ensures
        r@ == trimmed(s@),
{
    let n: usize = s.unicode_len();
    let mut from: usize = 0;
    proof {
        assert(s@.skip(0) =~= s@);
    }
    while from < n && is_whitespace(s.get_char(from))
        invariant
            n == s@.len(),
            from <= n,
            trimmed_start(s@.skip(from as int)) == trimmed_start(s@),
        ensures
            from <= n,
            s@.skip(from as int) == trimmed_start(s@),
        decreases n - from,
    {
        proof {
            assert(s@.skip(from as int).drop_first() =~= s@.skip(from + 1));
        }
        from = from + 1;
    }
    let mut to: usize = n;
    proof {
        assert(s@.subrange(from as int, n as int) =~= s@.skip(from as int));
    }
    while from < to && is_whitespace(s.get_char(to - 1))
        invariant
            n == s@.len(),
            from <= to <= n,
            trimmed_end(s@.subrange(from as int, to as int)) == trimmed(s@),
        ensures
            from <= to <= n,
            s@.subrange(from as int, to as int) == trimmed(s@),
        decreases to,
    {
        proof {
            assert(s@.subrange(from as int, to as int).drop_last() =~= s@.subrange(
                from as int,
                to - 1,
            ));
        }
        to = to - 1;
    }
    s.substring_char(from, to)
}

/// A duration literal.
#[derive(Debug, Clone, Copy, PartialEq, Eq, Structural)]
pub struct DurationLit {
    /// The duration in milliseconds.
    pub millis: u64,
}

/// Why a text is no duration literal.
#[derive(Debug)]
pub enum DurationError {
    /// Nothing but whitespace.
    Empty,
    /// No known suffix.
    Suffix(String),
    /// No number before the suffix.
    Number(String),
    /// More milliseconds than a `u64` counts.
    TooLong(String),
}

/// The contents of a [`DurationError`].
pub enum DurationFault {
    Empty,
    Suffix(Seq<char>),
    Number(Seq<char>),
    TooLong(Seq<char>),
}

impl View for DurationError {
    type V = DurationFault;

    open spec fn view(&self) -> DurationFault {
        match *self {
            DurationError::Empty => DurationFault::Empty,
            DurationError::Suffix(s) => DurationFault::Suffix(s@),
            DurationError::Number(s) => DurationFault::Number(s@),
            DurationError::TooLong(s) => DurationFault::TooLong(s@),
        }
    }
}

/// A literal ends in a suffix.
pub open spec fn ends_in(s: Seq<char>, suffix: Seq<char>) -> bool {
    suffix.is_suffix_of(s)
}

/// The length of the suffix of a literal and the number of milliseconds that it stands
/// for. `ms` comes before `s`.
pub open spec fn unit_of(s: Seq<char>) -> Option<(nat, nat)> {
    if ends_in(s, seq!['m', 's']) {
        Some((2, 1))
    } else if ends_in(s, seq!['s']) {
        Some((1, 1_000))
    } else if ends_in(s, seq!['m']) {
        Some((1, 60_000))
    } else if ends_in(s, seq!['h']) {
        Some((1, 3_600_000))
    } else {
        None
    }
}

/// The number of milliseconds of a literal without whitespace around it.
pub open spec fn literal_millis(s: Seq<char>) -> Result<nat, DurationFault> {
    if s.len() == 0 {
        Err(DurationFault::Empty)
    } else {
        match unit_of(s) {
            None => Err(DurationFault::Suffix(s)),
            Some((n, unit)) => match text::parsed_unsigned(s.take(s.len() - n)) {
                None => Err(DurationFault::Number(s)),
                Some(count) => if count * unit > u64::MAX {
                    Err(DurationFault::TooLong(s))
                } else {
                    Ok(count * unit)
                },
            },
        }
    }
}

/// What an error says.
pub open spec fn duration_text(f: DurationFault) -> Seq<char> {
    match f {
        DurationFault::Empty => "empty duration string"@,
        DurationFault::Suffix(s) => "invalid duration suffix in \""@ + s
            + "\"; expected ms, s, m, or h"@,
        DurationFault::Number(s) => "invalid number in duration \""@ + s + "\""@,
        DurationFault::TooLong(s) => "duration \""@ + s + "\" is too long"@,
    }
}

impl DurationError {
    /// What the error says.
    pub fn to_string(&self) -> (r: String)
        ensures
            r@ == duration_text(self@),
    {
        match self {
            DurationError::Empty => String::from_str("empty duration string"),
            DurationError::Suffix(s) => concat3(
                "invalid duration suffix in \"",
                s.as_str(),
                "\"; expected ms, s, m, or h",
            ),
            DurationError::Number(s) => concat3(
                "invalid number in duration \"",
                s.as_str(),
                "\"",
            ),
            DurationError::TooLong(s) => concat3("duration \"", s.as_str(), "\" is too long"),
        }
    }
}

/// The suffix of a literal: its length and the milliseconds that it stands for.
fn unit(s: &str) -> (r: Option<(usize, u64)>)
    requires
        s@.len() > 0,
    ensures
        match r {
            Some((n, u)) => unit_of(s@) == Some((n as nat, u as nat)) && 0 < n <= s@.len() && n
                <= 2 && 0 < u <= 3_600_000,
            None => unit_of(s@) is None,
        },
{
    let n = s.unicode_len();
    let last = s.get_char(n - 1);
    proof {
        let t = s@;
        assert(ends_in(t, seq!['s']) == (t[n - 1] == 's')) by {
            if t[n - 1] == 's' {
                assert(t.subrange(n - 1, n as int) =~= seq!['s']);
            } else if ends_in(t, seq!['s']) {
                assert(t.subrange(n - 1, n as int)[0] == 's');
            }
        }
        assert(ends_in(t, seq!['m']) == (t[n - 1] == 'm')) by {
            if t[n - 1] == 'm' {
                assert(t.subrange(n - 1, n as int) =~= seq!['m']);
            } else if ends_in(t, seq!['m']) {
                assert(t.subrange(n - 1, n as int)[0] == 'm');
            }
        }
        assert(ends_in(t, seq!['h']) == (t[n - 1] == 'h')) by {
            if t[n - 1] == 'h' {
                assert(t.subrange(n - 1, n as int) =~= seq!['h']);
            } else if ends_in(t, seq!['h']) {
                assert(t.subrange(n - 1, n as int)[0] == 'h');
            }
        }
        assert(ends_in(t, seq!['m', 's']) == (n >= 2 && t[n - 2] == 'm' && t[n - 1] == 's')) by {
            if n >= 2 && t[n - 2] == 'm' && t[n - 1] == 's' {
                assert(t.subrange(n - 2, n as int) =~= seq!['m', 's']);
            } else if ends_in(t, seq!['m', 's']) {
                assert(t.subrange(n - 2, n as int)[0] == 'm');
                assert(t.subrange(n - 2, n as int)[1] == 's');
            }
        }
    }
    if last == 's' {
        if n >= 2 && s.get_char(n - 2) == 'm' {
            return Some((2, 1));
        }
        return Some((1, 1_000));
    }
    if last == 'm' {
        return Some((1, 60_000));
    }
    if last == 'h' {
        return Some((1, 3_600_000));
    }
    None
}

impl DurationLit {
    /// Parse a literal without whitespace around it.
    pub fn parse_trimmed(s: &str) -> (r: Result<Self, DurationError>)
        ensures
            match literal_millis(s@) {
                Ok(ms) => r is Ok && r->Ok_0.millis == ms,
                Err(f) => r is Err && r->Err_0@ == f,
            },
    {
        let n = s.unicode_len();
        if n == 0 {
            return Err(DurationError::Empty);
        }
        let (len, per) = match unit(s) {
            Some(u) => u,
            None => {
                return Err(DurationError::Suffix(String::from_str(s)));
            },
        };
        let number = s.substring_char(0, n - len);
        proof {
            assert(s@.take(n - len) =~= number@);
        }
        let count = match parse_unsigned(number) {
            Some(c) => c,
            None => {
                return Err(DurationError::Number(String::from_str(s)));
            },
        };
        proof {
            assert(count * per <= 0xffff_ffff_ffff_ffff * 3_600_000) by (nonlinear_arith)
                requires
                    count <= 0xffff_ffff_ffff_ffff,
                    per <= 3_600_000,
            ;
        }
        let ms: u128 = count as u128 * per as u128;
        if ms > u64::MAX as u128 {
            return Err(DurationError::TooLong(String::from_str(s)));
        }
        Ok(DurationLit { millis: ms as u64 })
    }

    /// Parse a literal like `30s`, `100ms`, `5m` or `1h`.
    pub fn parse(s: &str) -> (r: Result<Self, DurationError>)
        ensures
            match literal_millis(trimmed(s@)) {
                Ok(ms) => r is Ok && r->Ok_0.millis == ms,
                Err(f) => r is Err && r->Err_0@ == f,
            },
    {
        DurationLit::parse_trimmed(trim(s))
    }

    /// The duration of the literal.
    pub fn duration(&self) -> (r: Duration)
        ensures
            r == crate::duration::of_millis(self.millis),
    {
        Duration::from_millis(self.millis)
    }
}

} // verus!
