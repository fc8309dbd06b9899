//! Task priority levels for execution ordering.
//!
//! Priority determines the order in which tasks are picked up by workers.
//! Lower numeric values indicate higher priority. The default is
//! [`Normal`](Priority::Normal) (3).
use std::cmp::Ordering;
use vstd::prelude::*;

verus! {

/// Execution priority for a task.
///
/// Lower numeric values are executed first. Workers use this value
/// (combined with aging) to decide which available task to claim next.
#[derive(Debug, Clone, Copy, PartialEq, Eq, Ord, Hash, Structural)]
pub enum Priority {
    /// Highest priority (1). Use sparingly for time-critical work.
    Critical,
    /// High priority (2).
    High,
    /// Default priority (3).
    Normal,
    /// Low priority (4). Background work.
    Low,
    /// Lowest priority (5). Best-effort, may be starved without aging.
    Minimal,
}

/// The numeric value of a priority.
pub open spec fn rank(p: Priority) -> u8 {
    match p {
        Priority::Critical => 1,
        Priority::High => 2,
        Priority::Normal => 3,
        Priority::Low => 4,
        Priority::Minimal => 5,
    }
}

/// The priority with a numeric value, if there is one.
pub open spec fn level(v: u8) -> Option<Priority> {
    if v == 1 {
        Some(Priority::Critical)
    } else if v == 2 {
        Some(Priority::High)
    } else if v == 3 {
        Some(Priority::Normal)
    } else if v == 4 {
        Some(Priority::Low)
    } else if v == 5 {
        Some(Priority::Minimal)
    } else {
        None
    }
}

/// How two numeric values compare.
pub open spec fn rank_order(a: u8, b: u8) -> Option<Ordering> {
    if a < b {
        Some(Ordering::Less)
    } else if a == b {
        Some(Ordering::Equal)
    } else {
        Some(Ordering::Greater)
    }
}

impl PartialOrd for Priority {
    /// A priority that is executed first is the lesser one.
    fn partial_cmp(&self, other: &Self) -> (r: Option<Ordering>) {
        let a = self.as_u8();
        let b = other.as_u8();
        if a < b {
            Some(Ordering::Less)
        } else if a == b {
            Some(Ordering::Equal)
        } else {
            Some(Ordering::Greater)
        }
    }
}

impl vstd::std_specs::cmp::PartialOrdSpecImpl for Priority {
    open spec fn obeys_partial_cmp_spec() -> bool {
        true
    }

    open spec fn partial_cmp_spec(&self, other: &Self) -> Option<Ordering> {
        rank_order(rank(*self), rank(*other))
    }
}

impl Default for Priority {
    fn default() -> (r: Self)
        ensures
            r == Priority::Normal,
    {
        Priority::Normal
    }
}

impl Priority {
    /// Convert a `u8` to a `Priority`, returning `None` for out-of-range values.
    pub fn from_u8(value: u8) -> (r: Option<Self>)
        ensures
            r == level(value),
            r is Some <==> 1 <= value <= 5,
    {
        match value {
            1 => Some(Priority::Critical),
            2 => Some(Priority::High),
            3 => Some(Priority::Normal),
            4 => Some(Priority::Low),
            5 => Some(Priority::Minimal),
            _ => None,
        }
    }

    /// Return the numeric value of this priority (1–5).
    pub fn as_u8(self) -> (r: u8)
        ensures
            r == rank(self),
            1 <= r <= 5,
    {
        match self {
            Priority::Critical => 1,
            Priority::High => 2,
            Priority::Normal => 3,
            Priority::Low => 4,
            Priority::Minimal => 5,
        }
    }
}

/// Priorities compare by their numeric values, so that `Critical` comes before `High`,
/// `High` before `Normal`, `Normal` before `Low` and `Low` before `Minimal`. Two that
/// compare equal are the same. `Critical` has the value 1, the default 3, and a priority is
/// found again under its value.
pub proof fn law_priority_order(a: Priority, b: Priority)
    ensures
        vstd::std_specs::cmp::PartialOrdSpec::partial_cmp_spec(&a, &b) is Some,
        vstd::std_specs::cmp::PartialOrdSpec::partial_cmp_spec(&a, &b) == Some(Ordering::Less) <==> rank(a) < rank(b),
        vstd::std_specs::cmp::PartialOrdSpec::partial_cmp_spec(&a, &b) == Some(Ordering::Greater) <==> rank(b) < rank(a),
        vstd::std_specs::cmp::PartialOrdSpec::partial_cmp_spec(&a, &b) == Some(Ordering::Equal) <==> a == b,
        rank(Priority::Critical) < rank(Priority::High) < rank(Priority::Normal) < rank(
            Priority::Low,
        ) < rank(Priority::Minimal),
        rank(Priority::Critical) == 1,
        rank(Priority::Normal) == 3,
        level(rank(a)) == Some(a),
{
}

/// A numeric value that names a priority is that priority's value.
pub proof fn law_level_round_trip(v: u8)
    requires
        1 <= v <= 5,
    ensures
        level(v) matches Some(p) && rank(p) == v,
{
}

} // verus!
