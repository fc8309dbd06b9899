//! Task claiming mechanism for multi-node collaboration.
use crate::hash32::TaskId;
use crate::snapshot;
use crate::snapshot::WorkflowSnapshot;
use crate::string_map::str_same;
use crate::time;
use crate::time::{TimeDelta, Timestamp};
use vstd::prelude::*;

verus! {

/// A claim on a task by a worker node.
///
/// When a worker claims a task, it has exclusive rights to execute it
/// until the claim expires or is released.
#[derive(Debug)]
pub struct TaskClaim {
    /// The workflow instance ID (not to be confused with the workflow ID).
    pub instance_id: String,
    /// The task ID being claimed.
    pub task_id: TaskId,
    /// The worker node ID that claimed the task.
    pub worker_id: String,
    /// When the claim was created (Unix timestamp).
    pub claimed_at: u64,
    /// When the claim expires (Unix timestamp).
    /// If None, the claim never expires.
    pub expires_at: Option<u64>,
}

/// When a claim made at `now` expires: never without a time to live, nor where the
/// calendar ends before.
pub open spec fn claim_expiry(now: (i64, u32), ttl: Option<(i64, u32)>) -> Option<u64> {
    match ttl {
        Some(d) => match time::shifted(now.0, now.1, d.0, d.1) {
            Some(t) => Some(time::unsigned_secs(t.0)),
            None => None,
        },
        None => None,
    }
}

/// A claim with this expiry has expired at a time in seconds since 1970.
pub open spec fn expired_at(expires_at: Option<u64>, now: u64) -> bool {
    match expires_at {
        Some(e) => now >= e,
        None => false,
    }
}

/// Seconds and nanoseconds of an optional span.
pub open spec fn opt_span(o: Option<TimeDelta>) -> Option<(i64, u32)> {
    match o {
        Some(d) => Some(d.parts()),
        None => None,
    }
}

impl TaskClaim {
    /// A claim made at `now`.
    pub fn new_at(
        instance_id: &str,
        task_id: TaskId,
        worker_id: String,
        ttl: Option<TimeDelta>,
        now: Timestamp,
    ) -> (r: Self)
        ensures
            r.instance_id@ == instance_id@,
            r.task_id == task_id,
            r.worker_id == worker_id,
            r.claimed_at == time::unsigned_secs(now.parts().0),
            r.expires_at == claim_expiry(now.parts(), opt_span(ttl)),
    {
        let expires_at = match ttl {
            Some(d) => match now.checked_add_signed(d) {
                Some(t) => Some(t.unix()),
                None => None,
            },
            None => None,
        };
        TaskClaim {
            instance_id: String::from_str(instance_id),
            task_id,
            worker_id,
            claimed_at: now.unix(),
            expires_at,
        }
    }

    /// Create a new task claim.
    pub fn new(
        instance_id: &str,
        task_id: TaskId,
        worker_id: String,
        ttl: Option<TimeDelta>,
    ) -> (r: Self)
        ensures
            r.instance_id@ == instance_id@,
            r.task_id == task_id,
            r.worker_id == worker_id,
            ttl is None ==> r.expires_at is None,
            exists|now: Timestamp| #[trigger]
                time::clock_gave(now) && r.claimed_at == time::unsigned_secs(now.parts().0)
                    && r.expires_at == claim_expiry(now.parts(), opt_span(ttl)),
    {
        let now = Timestamp::now();
        Self::new_at(instance_id, task_id, worker_id, ttl, now)
    }

    /// Whether this claim has expired at `now`: from its expiry on.
    pub fn is_expired_at(&self, now: &Timestamp) -> (r: bool)
        ensures
            r == expired_at(self.expires_at, time::unsigned_secs(now.parts().0)),
    {
        match self.expires_at {
            Some(e) => now.unix() >= e,
            None => false,
        }
    }

    /// Check if this claim has expired. The time is that of the clock, which is not before
    /// 1970.
    pub fn is_expired(&self) -> (r: bool)
        ensures
            exists|now: Timestamp| #[trigger]
                time::clock_gave(now) && r == expired_at(
                    self.expires_at,
                    time::unsigned_secs(now.parts().0),
                ),
            self.expires_at is None ==> !r,
            self.expires_at == Some(0u64) ==> r,
    {
        let now = Timestamp::now();
        self.is_expired_at(&now)
    }

    /// Check if this claim belongs to the given worker.
    pub fn is_owned_by(&self, worker_id: &str) -> (r: bool)
        ensures
            r == (self.worker_id@ == worker_id@),
    {
        str_same(self.worker_id.as_str(), worker_id)
    }
}

/// A claim with a time to live that is not negative does not expire before it was
/// made.
pub proof fn law_claim_expires_after_claim(now: (i64, u32), ttl: (i64, u32))
    requires
        time::representable(now.0 as int, now.1 as int),
        now.0 >= 0,
        time::span_in_range(ttl.0 as int, ttl.1 as int),
        ttl.0 >= 0,
    ensures
        claim_expiry(now, Some(ttl)) matches Some(e) ==> e >= time::unsigned_secs(now.0),
{
    time::law_shift_forward(now.0, now.1, ttl.0, ttl.1);
}

/// Information about an available task ready for execution.
pub struct AvailableTask {
    /// The workflow instance ID.
    pub instance_id: String,
    /// The task ID.
    pub task_id: TaskId,
    /// The input data for the task (serialized).
    pub input: Vec<u8>,
    /// The workflow definition hash.
    pub workflow_definition_hash: String,
    /// W3C `traceparent` header for distributed trace context propagation.
    pub trace_parent: Option<String>,
    /// Workflow state at dispatch time.
    pub snapshot: WorkflowSnapshot,
}

impl AvailableTask {
    /// Take ownership of the dispatch snapshot, leaving an empty placeholder behind.
    pub fn take_snapshot(&mut self) -> (r: WorkflowSnapshot)
        ensures
            r == old(self).snapshot,
            exists|now: Timestamp| #[trigger]
                time::clock_gave(now) && final(self).snapshot@ == snapshot::fresh(
                    Seq::empty(),
                    Seq::empty(),
                    None,
                    time::unsigned_secs(now.parts().0),
                ),
            final(self).instance_id == old(self).instance_id,
            final(self).task_id == old(self).task_id,
            final(self).input == old(self).input,
            final(self).workflow_definition_hash == old(self).workflow_definition_hash,
            final(self).trace_parent == old(self).trace_parent,
    {
        let mut taken = WorkflowSnapshot::new(String::new(), String::new());
        std::mem::swap(&mut taken, &mut self.snapshot);
        taken
    }
}

} // verus!
