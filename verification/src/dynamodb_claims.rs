//! Claims of workers on tasks, and the search for tasks that are ready.
use crate::backend_error::{BackendError, BackendFault, WriteOutcome};
use crate::dynamodb_item;
use crate::dynamodb_item::{
    claim_pk, lone_key_item, query_partition, sig_pk, Guard, GuardSpec, Item, Query, QuerySpec, Val,
    Write, WriteSpec,
};
use crate::dynamodb_store;
use crate::dynamodb_store::{DynamoDbBackend, STATUS_UPDATED_INDEX};
use crate::hash32::TaskId;
use crate::snapshot;
use crate::snapshot::{
    ExecutionPosition, Outcome, Position, Snap, State, WorkflowSnapshot, WorkflowSnapshotState,
};
use crate::string_map::{str_same, StringMap};
use crate::task_claim;
use crate::task_claim::{AvailableTask, TaskClaim};
use crate::task_index;
use crate::text;
use crate::text::{clone_opt_text, concat, concat3, parse_signed};
use crate::time;
use crate::time::{TimeDelta, Timestamp};
use vstd::prelude::*;

verus! {

/// The stored form of a claim.
pub open spec fn claim_map(
    instance_id: Seq<char>,
    task_id: Seq<char>,
    worker_id: Seq<char>,
    claimed_at: u64,
    expires_at: Option<u64>,
) -> Map<Seq<char>, Val> {
    let m = dynamodb_item::lone_key_map(
        dynamodb_item::joined_key(instance_id, task_id),
    ).insert("worker_id"@, Val::S(worker_id)).insert("instance_id"@, Val::S(instance_id)).insert(
        "task_id"@,
        Val::S(task_id),
    ).insert("claimed_at"@, Val::N(text::decimal(claimed_at as nat)));
    match expires_at {
        Some(e) => m.insert("expires_at_epoch"@, Val::N(text::decimal(e as nat))),
        None => m,
    }
}

/// The condition that there is no claim, or one that has expired before `now`.
pub open spec fn free_guard(now: u64) -> GuardSpec {
    GuardSpec {
        expression: "attribute_not_exists(PK) OR expires_at_epoch < :now"@,
        values: Map::<Seq<char>, Val>::empty().insert(":now"@, Val::N(text::decimal(now as nat))),
    }
}

/// The condition that a claim is held by a worker.
pub open spec fn owner_guard(worker_id: Seq<char>) -> GuardSpec {
    GuardSpec {
        expression: "worker_id = :expected"@,
        values: Map::<Seq<char>, Val>::empty().insert(":expected"@, Val::S(worker_id)),
    }
}

/// Whether the claim in an item is held by a worker.
pub open spec fn owner_check(
    item: Option<Map<Seq<char>, Val>>,
    instance_id: Seq<char>,
    task_id: Seq<char>,
    worker_id: Seq<char>,
) -> Result<Map<Seq<char>, Val>, BackendFault> {
    match item {
        None => Err(BackendFault::NotFound(instance_id + ":"@ + task_id)),
        Some(m) => match dynamodb_item::text_of(m, "worker_id"@) {
            None => Err(BackendFault::Backend("missing worker_id"@)),
            Some(owner) => if owner == worker_id {
                Ok(m)
            } else {
                Err(BackendFault::Backend("Claim owned by different worker: "@ + owner))
            },
        },
    }
}

/// Check that the claim in an item is held by a worker.
fn check_owner<'a>(item: Option<&'a Item>, instance_id: &str, task_id: &str, worker_id: &str) -> (r:
    Result<&'a Item, BackendError>)
    ensures
        match owner_check(dynamodb_store::opt_item(item), instance_id@, task_id@, worker_id@) {
            Ok(m) => r is Ok && item is Some && r->Ok_0 == item->0 && r->Ok_0@ == m,
            Err(f) => r is Err && r->Err_0@ == f,
        },
{
    let i = match item {
        Some(i) => i,
        None => {
            return Err(BackendError::NotFound(concat3(instance_id, ":", task_id)));
        },
    };
    match i.text("worker_id") {
        None => Err(BackendError::Backend(String::from_str("missing worker_id"))),
        Some(owner) => if str_same(owner, worker_id) {
            Ok(i)
        } else {
            Err(BackendError::Backend(concat("Claim owned by different worker: ", owner)))
        },
    }
}

/// What extending the claim in an item comes to: the new expiry, or none where the
/// claim never expires.
pub open spec fn extended_expiry(m: Map<Seq<char>, Val>, more: (i64, u32)) -> Result<
    Option<u64>,
    BackendFault,
> {
    match dynamodb_item::number_of(m, "expires_at_epoch"@) {
        None => Ok(None),
        Some(t) => match text::parsed_signed(t) {
            None => Err(BackendFault::Backend("invalid expires_at_epoch"@)),
            Some(secs) => if !time::representable(secs, 0) {
                Err(BackendFault::Backend("invalid timestamp"@))
            } else {
                match time::shifted(secs as i64, 0, more.0, more.1) {
                    Some(p) => Ok(Some(time::unsigned_secs(p.0))),
                    None => Err(BackendFault::Backend("Time overflow"@)),
                }
            },
        },
    }
}

/// A claim is there and has not expired before `now`.
pub open spec fn active_claim(item: Option<Map<Seq<char>, Val>>, now: i64) -> bool {
    match item {
        None => false,
        Some(m) => match dynamodb_item::number_of(m, "expires_at_epoch"@) {
            None => true,
            Some(t) => match text::parsed_signed(t) {
                None => true,
                Some(e) => e >= now,
            },
        },
    }
}

/// Whether a claim is there and has not expired before `now`.
pub fn has_active_claim(item: Option<&Item>, now: Timestamp) -> (r: bool)
    ensures
        r == active_claim(dynamodb_store::opt_item(item), now.parts().0),
{
    match item {
        None => false,
        Some(i) => match i.number("expires_at_epoch") {
            None => true,
            Some(t) => match parse_signed(t) {
                None => true,
                Some(e) => e >= now.timestamp(),
            },
        },
    }
}

impl<C> DynamoDbBackend<C> {
    /// The key under which the claim on a task is stored.
    pub fn claim_key(&self, instance_id: &str, task_id: &str) -> (r: Item)
        ensures
            r@ == dynamodb_item::lone_key_map(dynamodb_item::joined_key(instance_id@, task_id@)),
    {
        lone_key_item(claim_pk(instance_id, task_id).as_str())
    }

    /// The claim of a worker on a task at `now`, and its write, which asks that there
    /// is no claim or one that has expired.
    pub fn claim_task(
        &self,
        instance_id: &str,
        task_id: &str,
        worker_id: &str,
        ttl: Option<TimeDelta>,
        now: Timestamp,
    ) -> (r: (TaskClaim, Write))
        ensures
            r.0.instance_id@ == instance_id@,
            r.0.task_id@ == task_index::id_digest(task_id@),
            r.0.worker_id@ == worker_id@,
            r.0.claimed_at == time::unsigned_secs(now.parts().0),
            r.0.expires_at == task_claim::claim_expiry(now.parts(), task_claim::opt_span(ttl)),
            r.1@ == (WriteSpec::Put {
                table: self.claims_table@,
                item: claim_map(
                    instance_id@,
                    task_id@,
                    worker_id@,
                    r.0.claimed_at,
                    r.0.expires_at,
                ),
                guard: Some(free_guard(r.0.claimed_at)),
            }),
    {
        let claim = TaskClaim::new_at(
            instance_id,
            TaskId::from(task_id),
            String::from_str(worker_id),
            ttl,
            now,
        );
        let mut item = self.claim_key(instance_id, task_id);
        item.set_text("worker_id", worker_id);
        item.set_text("instance_id", instance_id);
        item.set_text("task_id", task_id);
        item.set_number("claimed_at", claim.claimed_at);
        if let Some(e) = claim.expires_at {
            item.set_number("expires_at_epoch", e);
        }
        let mut values = Item::new();
        values.set_number(":now", claim.claimed_at);
        let w = Write::Put {
            table: self.claims_table.clone(),
            item,
            guard: Some(
                Guard {
                    expression: String::from_str(
                        "attribute_not_exists(PK) OR expires_at_epoch < :now",
                    ),
                    values,
                },
            ),
        };
        (claim, w)
    }

    /// The release of the claim that was read from `item`. A claim of another worker is
    /// an error.
    pub fn release_task_claim(
        &self,
        instance_id: &str,
        task_id: &str,
        worker_id: &str,
        item: Option<&Item>,
    ) -> (r: Result<Write, BackendError>)
        ensures
            match owner_check(dynamodb_store::opt_item(item), instance_id@, task_id@, worker_id@) {
                Ok(_) => r is Ok && r->Ok_0@ == (WriteSpec::Delete {
                    table: self.claims_table@,
                    key: dynamodb_item::lone_key_map(
                        dynamodb_item::joined_key(instance_id@, task_id@),
                    ),
                    guard: Some(owner_guard(worker_id@)),
                }),
                Err(f) => r is Err && r->Err_0@ == f,
            },
    {
        match check_owner(item, instance_id, task_id, worker_id) {
            Ok(_) => {},
            Err(e) => {
                return Err(e);
            },
        }
        let mut values = Item::new();
        values.set_text(":expected", worker_id);
        Ok(
            Write::Delete {
                table: self.claims_table.clone(),
                key: self.claim_key(instance_id, task_id),
                guard: Some(
                    Guard { expression: String::from_str("worker_id = :expected"), values },
                ),
            },
        )
    }

    /// The extension of the claim that was read from `item`; nothing where it never
    /// expires. A claim of another worker is an error.
    pub fn extend_task_claim(
        &self,
        instance_id: &str,
        task_id: &str,
        worker_id: &str,
        additional: TimeDelta,
        item: Option<&Item>,
    ) -> (r: Result<Option<Write>, BackendError>)
        ensures
            match owner_check(dynamodb_store::opt_item(item), instance_id@, task_id@, worker_id@) {
                Err(f) => r is Err && r->Err_0@ == f,
                Ok(m) => match extended_expiry(m, additional.parts()) {
                    Err(f) => r is Err && r->Err_0@ == f,
                    Ok(None) => r is Ok && r->Ok_0 is None,
                    Ok(Some(e)) => r is Ok && r->Ok_0 is Some && r->Ok_0->0@ == (
                    WriteSpec::Update {
                        table: self.claims_table@,
                        key: dynamodb_item::lone_key_map(
                            dynamodb_item::joined_key(instance_id@, task_id@),
                        ),
                        update: "SET expires_at_epoch = :new_exp"@,
                        guard: GuardSpec {
                            expression: "worker_id = :expected"@,
                            values: Map::<Seq<char>, Val>::empty().insert(
                                ":new_exp"@,
                                Val::N(text::decimal(e as nat)),
                            ).insert(":expected"@, Val::S(worker_id@)),
                        },
                    }),
                },
            },
    {
        let i = match check_owner(item, instance_id, task_id, worker_id) {
            Ok(i) => i,
            Err(e) => {
                return Err(e);
            },
        };
        let t = match i.number("expires_at_epoch") {
            Some(t) => t,
            None => {
                return Ok(None);
            },
        };
        let secs = match parse_signed(t) {
            Some(s) => s,
            None => {
                return Err(BackendError::Backend(String::from_str("invalid expires_at_epoch")));
            },
        };
        let expiry = match Timestamp::from_parts(secs, 0) {
            Some(e) => e,
            None => {
                return Err(BackendError::Backend(String::from_str("invalid timestamp")));
            },
        };
        let later = match expiry.checked_add_signed(additional) {
            Some(l) => l,
            None => {
                return Err(BackendError::Backend(String::from_str("Time overflow")));
            },
        };
        let mut values = Item::new();
        values.set_number(":new_exp", later.unix());
        values.set_text(":expected", worker_id);
        Ok(
            Some(
                Write::Update {
                    table: self.claims_table.clone(),
                    key: self.claim_key(instance_id, task_id),
                    update: String::from_str("SET expires_at_epoch = :new_exp"),
                    guard: Guard { expression: String::from_str("worker_id = :expected"), values },
                },
            ),
        )
    }

    /// The query for a signal of any kind to an instance.
    pub fn has_any_signal(&self, instance_id: &str) -> (r: Query)
        ensures
            r@ == dynamodb_item::partition_query(
                self.snapshots_table@,
                "SIG#"@ + instance_id@,
                false,
            ),
    {
        query_partition(self.snapshots_table.as_str(), sig_pk(instance_id).as_str(), false)
    }

    /// The query for snapshots in progress, by time of update.
    pub fn find_available_tasks(&self) -> (r: Query)
        ensures
            r@ == (QuerySpec {
                table: self.snapshots_table@,
                index: Some("status-updated-index"@),
                key_condition: "#s = :status"@,
                names: Map::<Seq<char>, Seq<char>>::empty().insert("#s"@, "status"@),
                values: Map::<Seq<char>, Val>::empty().insert(":status"@, Val::S("InProgress"@)),
                forward: false,
                limit: None,
            }),
    {
        let mut values = Item::new();
        values.set_text(":status", "InProgress");
        let mut names: StringMap<String> = StringMap::new();
        names.insert(String::from_str("#s"), String::from_str("status"));
        let r = Query {
            table: self.snapshots_table.clone(),
            index: Some(String::from_str(STATUS_UPDATED_INDEX)),
            key_condition: String::from_str("#s = :status"),
            names,
            values,
            forward: false,
            limit: None,
        };
        proof {
            assert(r@.names =~= Map::<Seq<char>, Seq<char>>::empty().insert("#s"@, "status"@));
        }
        r
    }
}

/// What a claim came to: the claim, or nothing where somebody else holds one.
pub fn task_claimed(claim: TaskClaim, outcome: WriteOutcome) -> (r: Result<
    Option<TaskClaim>,
    BackendError,
>)
    ensures
        match outcome {
            WriteOutcome::Done => r == Ok::<Option<TaskClaim>, BackendError>(Some(claim)),
            WriteOutcome::ConditionFailed => r is Ok && r->Ok_0 is None,
            WriteOutcome::Failed(e) => r is Err && r->Err_0@ == BackendFault::Backend(e@),
        },
{
    match outcome {
        WriteOutcome::Done => Ok(Some(claim)),
        WriteOutcome::ConditionFailed => Ok(None),
        WriteOutcome::Failed(e) => Err(BackendError::Backend(e)),
    }
}

/// The input of the next task: that of the workflow before any result is there, else
/// the output of the task that was completed last.
pub open spec fn next_input(s: Snap, completed: Map<Seq<char>, Outcome>) -> Option<Seq<u8>> {
    if completed == Map::<Seq<char>, Outcome>::empty() {
        s.initial_input
    } else {
        snapshot::last_output(s.state)
    }
}

/// A task that is offered to a worker.
pub struct Offer {
    pub instance_id: Seq<char>,
    pub task_id: Seq<u8>,
    pub input: Seq<u8>,
    pub definition_hash: Seq<char>,
    pub trace_parent: Option<Seq<char>>,
    pub snapshot: Snap,
}

impl View for AvailableTask {
    type V = Offer;

    open spec fn view(&self) -> Offer {
        Offer {
            instance_id: self.instance_id@,
            task_id: self.task_id@,
            input: self.input@,
            definition_hash: self.workflow_definition_hash@,
            trace_parent: text::opt_text(self.trace_parent),
            snapshot: self.snapshot@,
        }
    }
}

/// The offer of the task that a workflow is at, if it has an input.
pub open spec fn offer(s: Snap, task_id: Seq<char>, completed: Map<Seq<char>, Outcome>) -> Option<
    Offer,
> {
    match next_input(s, completed) {
        Some(input) => Some(
            Offer {
                instance_id: s.instance_id,
                task_id: task_index::id_digest(task_id),
                input,
                definition_hash: s.definition_hash,
                trace_parent: s.trace_parent,
                snapshot: s,
            },
        ),
        None => None,
    }
}

/// The contents of an optional task.
pub open spec fn opt_offer(o: Option<AvailableTask>) -> Option<Offer> {
    match o {
        Some(t) => Some(t@),
        None => None,
    }
}

/// The offer of the task that a workflow in progress is at, if it has an input.
pub fn build_available_task(s: &WorkflowSnapshot, task_id: &str) -> (r: Option<AvailableTask>)
    requires
        s@.state is InProgress,
    ensures
        opt_offer(r) == offer(s@, task_id@, s@.state->InProgress_completed),
{
    let none_yet = match s.get_all_task_results() {
        Some(m) => {
            proof {
                if m@ == Map::<Seq<char>, snapshot::TaskResult>::empty() {
                    assert(snapshot::outcomes(m@) =~= Map::<Seq<char>, Outcome>::empty());
                } else if snapshot::outcomes(m@) == Map::<Seq<char>, Outcome>::empty() {
                    assert(snapshot::outcomes(m@).dom() =~= m@.dom());
                    assert(m@ =~= Map::<Seq<char>, snapshot::TaskResult>::empty());
                }
            }
            m.is_empty()
        },
        None => true,
    };
    let input = if none_yet {
        s.initial_input_bytes()
    } else {
        s.get_last_task_output()
    };
    match input {
        Some(bytes) => Some(
            AvailableTask {
                instance_id: s.instance_id.clone(),
                task_id: TaskId::from(task_id),
                input: bytes,
                workflow_definition_hash: s.definition_hash.clone(),
                trace_parent: clone_opt_text(&s.trace_parent),
                snapshot: s.clone(),
            },
        ),
        None => None,
    }
}

/// What to do with a workflow that nobody has claimed and no signal waits for.
pub enum Dispatch {
    /// Leave it.
    Skip,
    /// Offer the task that it is at, if it has an input.
    Ready(Option<AvailableTask>),
    /// Store it at the task after an expired delay, then offer the task.
    Advance(WorkflowSnapshot, Option<AvailableTask>),
    /// Store it as completed, as nothing comes after an expired delay.
    Finish(WorkflowSnapshot),
}

/// The contents of a [`Dispatch`].
pub enum DispatchSpec {
    Skip,
    Ready(Option<Offer>),
    Advance(Snap, Option<Offer>),
    Finish(Snap),
}

impl View for Dispatch {
    type V = DispatchSpec;

    open spec fn view(&self) -> DispatchSpec {
        match *self {
            Dispatch::Skip => DispatchSpec::Skip,
            Dispatch::Ready(t) => DispatchSpec::Ready(opt_offer(t)),
            Dispatch::Advance(s, t) => DispatchSpec::Advance(s@, opt_offer(t)),
            Dispatch::Finish(s) => DispatchSpec::Finish(s@),
        }
    }
}

/// What to do at `now` with a workflow: go past a delay that has expired, offer a task
/// whose result is not there and that is not held back by a retry.
pub open spec fn dispatched(s: Snap, now: Timestamp) -> DispatchSpec {
    match s.state {
        State::InProgress { position: Position::AtDelay { delay_id, wake_at, next_task_id, .. }, completed, .. } =>
            if !time::not_before(now.parts(), wake_at.parts()) {
                DispatchSpec::Skip
            } else {
                match next_task_id {
                    Some(next) => {
                        let there = snapshot::moved_to(
                            s,
                            Position::AtTask { task_id: next },
                            time::unsigned_secs(now.parts().0),
                        );
                        DispatchSpec::Advance(there, offer(there, next, completed))
                    },
                    None => DispatchSpec::Finish(
                        snapshot::ended(
                            s,
                            State::Completed {
                                final_output: if completed.dom().contains(delay_id) {
                                    completed[delay_id].output
                                } else {
                                    seq![]
                                },
                            },
                            time::unsigned_secs(now.parts().0),
                        ),
                    ),
                }
            },
        State::InProgress { position: Position::AtTask { task_id }, completed, .. } => if completed.dom().contains(
            task_id,
        ) {
            DispatchSpec::Skip
        } else if s.task_retries.dom().contains(task_id) && !time::not_before(
            now.parts(),
            s.task_retries[task_id].next_retry_at.parts(),
        ) {
            DispatchSpec::Skip
        } else {
            DispatchSpec::Ready(offer(s, task_id, completed))
        },
        _ => DispatchSpec::Skip,
    }
}

/// Decide what to do at `now` with a workflow that nobody has claimed and no signal
/// waits for.
pub fn dispatch(loaded: WorkflowSnapshot, now: Timestamp) -> (r: Dispatch)
    ensures
        r@ == dispatched(loaded@, now),
{
    let ghost start = loaded@;
    let mut s = loaded;
    let (delay, next) = match &s.state {
        WorkflowSnapshotState::InProgress { position, completed_tasks, .. } => match position {
            ExecutionPosition::AtDelay { delay_id, wake_at, next_task_id, .. } => {
                if !now.reached(wake_at) {
                    return Dispatch::Skip;
                }
                (delay_id.clone(), clone_opt_text(next_task_id))
            },
            ExecutionPosition::AtTask { task_id } => {
                if completed_tasks.contains_key(task_id.as_str()) {
                    return Dispatch::Skip;
                }
                if let Some(rs) = s.task_retries.get(task_id.as_str()) {
                    if !now.reached(&rs.next_retry_at) {
                        return Dispatch::Skip;
                    }
                }
                return Dispatch::Ready(build_available_task(&s, task_id.as_str()));
            },
            _ => {
                return Dispatch::Skip;
            },
        },
        _ => {
            return Dispatch::Skip;
        },
    };
    match next {
        Some(next_id) => {
            s.update_position_at(ExecutionPosition::AtTask { task_id: next_id.clone() }, now);
            let task = build_available_task(&s, next_id.as_str());
            Dispatch::Advance(s, task)
        },
        None => {
            let output = match s.get_task_result_bytes(delay.as_str()) {
                Some(b) => b,
                None => Vec::new(),
            };
            proof {
                assert(output@ =~= (if start.state->InProgress_completed.dom().contains(delay@) {
                    start.state->InProgress_completed[delay@].output
                } else {
                    seq![]
                }));
            }
            s.mark_completed_at(output, now);
            Dispatch::Finish(s)
        },
    }
}

} // verus!
