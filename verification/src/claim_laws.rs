//! What claims keep, and what workers are offered.
use crate::backend_error::BackendError;
use crate::dynamodb_claims;
use crate::dynamodb_claims::{build_available_task, dispatch, Dispatch, DispatchSpec};
use crate::dynamodb_item;
use crate::dynamodb_item::{Item, Val, Write};
use crate::dynamodb_laws;
use crate::dynamodb_store::DynamoDbBackend;
use crate::snapshot;
use crate::snapshot::{Outcome, Position, Snap, State, WorkflowSnapshot};
use crate::snapshot_laws;
use crate::task_claim;
use crate::task_claim::{AvailableTask, TaskClaim};
use crate::task_index;
use crate::text;
use crate::time;
use crate::time::{TimeDelta, Timestamp};
use vstd::prelude::*;

verus! {

/// The attributes of a claim have different names.
proof fn lemma_claim_names()
    ensures
        "PK"@ != "expires_at_epoch"@,
        "worker_id"@ != "expires_at_epoch"@,
        "instance_id"@ != "expires_at_epoch"@,
        "task_id"@ != "expires_at_epoch"@,
        "claimed_at"@ != "expires_at_epoch"@,
        "worker_id"@ != "instance_id"@,
        "worker_id"@ != "task_id"@,
        "worker_id"@ != "claimed_at"@,
        "worker_id"@ != "PK"@,
        ":new_exp"@ != ":expected"@,
{
    reveal_strlit("PK");
    reveal_strlit("worker_id");
    reveal_strlit("instance_id");
    reveal_strlit("task_id");
    reveal_strlit("claimed_at");
    reveal_strlit("expires_at_epoch");
    reveal_strlit(":new_exp");
    reveal_strlit(":expected");
    assert("PK"@.len() == 2 && "expires_at_epoch"@.len() == 16);
    assert("worker_id"@.len() == 9 && "instance_id"@.len() == 11 && "task_id"@.len() == 7);
    assert("claimed_at"@.len() == 10);
    assert(":new_exp"@.len() == 8 && ":expected"@.len() == 9);
}

/// Extending a stored claim moves its expiry by the span that is asked for. A claim that
/// expires at `e` and is extended by `d` seconds gets the expiry `e + d` and stays with its
/// worker.
pub proof fn law_extension_moves_expiry<C>(
    b: &DynamoDbBackend<C>,
    instance_id: &str,
    task_id: &str,
    worker_id: &str,
    claimed_at: u64,
    e: u64,
    d: i64,
    additional: TimeDelta,
    item: &Item,
    r: Result<Option<Write>, BackendError>,
)
    requires
        item@ == dynamodb_claims::claim_map(
            instance_id@,
            task_id@,
            worker_id@,
            claimed_at,
            Some(e),
        ),
        additional.parts() == (d, 0u32),
        0 <= d,
        e + d <= time::MAX_SECS,
        call_ensures(
            DynamoDbBackend::<C>::extend_task_claim,
            (b, instance_id, task_id, worker_id, additional, Some(item)),
            r,
        ),
    ensures
        r is Ok && r->Ok_0 is Some,
        r->Ok_0->0@ is Update,
        r->Ok_0->0@->Update_table == b.claims_table@,
        r->Ok_0->0@->Update_key == Map::<Seq<char>, Val>::empty().insert(
            "PK"@,
            Val::S(instance_id@ + "#"@ + task_id@),
        ),
        r->Ok_0->0@->update == "SET expires_at_epoch = :new_exp"@,
        r->Ok_0->0@->Update_guard.expression == "worker_id = :expected"@,
        r->Ok_0->0@->Update_guard.values[":new_exp"@] == Val::N(text::decimal((e + d) as nat)),
        r->Ok_0->0@->Update_guard.values[":expected"@] == Val::S(worker_id@),
        text::parsed_unsigned(text::decimal((e + d) as nat)) == Some((e + d) as nat),
{
    lemma_claim_names();
    dynamodb_laws::law_claim_belongs_to_its_worker(
        instance_id@,
        task_id@,
        worker_id@,
        worker_id@,
        claimed_at,
        Some(e),
    );
    text::law_decimal_is_read_back(e as nat);
    text::law_decimal_is_read_back((e + d) as nat);
}

/// A claim with the expiry that an extension gives is active at every instant up to the old
/// expiry and the span, and not after; by a span that is not empty the expiry gets later.
pub proof fn law_extended_claim_is_active_longer(
    instance_id: Seq<char>,
    task_id: Seq<char>,
    worker_id: Seq<char>,
    claimed_at: u64,
    e: u64,
    d: i64,
    now: i64,
)
    requires
        0 <= d,
        e + d <= time::MAX_SECS,
    ensures
        ({
            let m = dynamodb_claims::claim_map(
                instance_id,
                task_id,
                worker_id,
                claimed_at,
                Some(e),
            );
            let later = dynamodb_claims::extended_expiry(m, (d, 0u32));
            &&& later is Ok && later->Ok_0 is Some
            &&& later->Ok_0->0 - e == d
            &&& d > 0 ==> later->Ok_0->0 > e
            &&& dynamodb_claims::active_claim(
                Some(
                    dynamodb_claims::claim_map(
                        instance_id,
                        task_id,
                        worker_id,
                        claimed_at,
                        later->Ok_0,
                    ),
                ),
                now,
            ) <==> now <= e + d
        }),
{
    lemma_claim_names();
    text::law_decimal_is_read_back(e as nat);
    dynamodb_laws::law_claim_is_active_until_it_expires(
        instance_id,
        task_id,
        worker_id,
        claimed_at,
        Some((e + d) as u64),
        now,
    );
}

/// A claim of a worker on a task is stored under the task and names the worker. With a time
/// to live of `d` seconds it expires `d` seconds after it was made; without one it never
/// does. The write asks that there is no claim or one that has expired.
pub proof fn law_claim_expires_after_its_time<C>(
    b: &DynamoDbBackend<C>,
    instance_id: &str,
    task_id: &str,
    worker_id: &str,
    ttl: Option<TimeDelta>,
    now: Timestamp,
    r: (TaskClaim, Write),
)
    requires
        0 <= now.parts().0 <= time::MAX_SECS,
        now.parts().1 < 1_000_000_000,
        ttl matches Some(d) ==> d.parts().1 == 0 && 0 <= d.parts().0 && now.parts().0
            + d.parts().0 <= time::MAX_SECS,
        call_ensures(
            DynamoDbBackend::<C>::claim_task,
            (b, instance_id, task_id, worker_id, ttl, now),
            r,
        ),
    ensures
        r.0.instance_id@ == instance_id@,
        r.0.worker_id@ == worker_id@,
        r.0.claimed_at == now.parts().0,
        match ttl {
            Some(d) => r.0.expires_at matches Some(e) && e == now.parts().0 + d.parts().0,
            None => r.0.expires_at is None,
        },
        r.1@ is Put && r.1@->Put_table == b.claims_table@,
        r.1@->Put_item["PK"@] == Val::S(instance_id@ + "#"@ + task_id@),
        r.1@->Put_item["worker_id"@] == Val::S(worker_id@),
        match ttl {
            Some(d) => dynamodb_item::number_of(r.1@->Put_item, "expires_at_epoch"@) == Some(
                text::decimal((now.parts().0 + d.parts().0) as nat),
            ),
            None => dynamodb_item::number_of(r.1@->Put_item, "expires_at_epoch"@) is None,
        },
        r.1@->Put_guard matches Some(g) && g.expression
            == "attribute_not_exists(PK) OR expires_at_epoch < :now"@ && g.values[":now"@]
            == Val::N(text::decimal(now.parts().0 as nat)),
        forall|at: i64| #[trigger]
            dynamodb_claims::active_claim(Some(r.1@->Put_item), at) <==> (match ttl {
                Some(d) => at <= now.parts().0 + d.parts().0,
                None => true,
            }),
{
    lemma_claim_names();
    reveal_strlit("PK");
    reveal_strlit("instance_id");
    reveal_strlit("task_id");
    reveal_strlit("claimed_at");
    assert("PK"@.len() == 2 && "instance_id"@.len() == 11 && "task_id"@.len() == 7
        && "claimed_at"@.len() == 10);
    if let Some(d) = ttl {
        text::law_decimal_is_read_back((now.parts().0 + d.parts().0) as nat);
    }
}

/// A claim is released and extended by its worker alone: to any other worker it is refused,
/// with the name of the worker that holds it, and one that is not there is not found.
pub proof fn law_other_workers_are_refused<C>(
    b: &DynamoDbBackend<C>,
    instance_id: &str,
    task_id: &str,
    worker_id: &str,
    owner: Seq<char>,
    claimed_at: u64,
    expires_at: Option<u64>,
    additional: TimeDelta,
    item: Option<&Item>,
    released: Result<Write, BackendError>,
    extended: Result<Option<Write>, BackendError>,
)
    requires
        item matches Some(i) ==> i@ == dynamodb_claims::claim_map(
            instance_id@,
            task_id@,
            owner,
            claimed_at,
            expires_at,
        ),
        call_ensures(
            DynamoDbBackend::<C>::release_task_claim,
            (b, instance_id, task_id, worker_id, item),
            released,
        ),
        call_ensures(
            DynamoDbBackend::<C>::extend_task_claim,
            (b, instance_id, task_id, worker_id, additional, item),
            extended,
        ),
    ensures
        item is None ==> released is Err && released->Err_0@
            == crate::backend_error::BackendFault::NotFound(instance_id@ + ":"@ + task_id@)
            && extended is Err && extended->Err_0@ == released->Err_0@,
        item is Some && owner != worker_id@ ==> released is Err && released->Err_0@
            == crate::backend_error::BackendFault::Backend(
            "Claim owned by different worker: "@ + owner,
        ) && extended is Err && extended->Err_0@ == released->Err_0@,
        item is Some && owner == worker_id@ ==> released is Ok && released->Ok_0@ is Delete
            && released->Ok_0@->Delete_table == b.claims_table@ && released->Ok_0@->Delete_key
            == Map::<Seq<char>, Val>::empty().insert(
            "PK"@,
            Val::S(instance_id@ + "#"@ + task_id@),
        ) && released->Ok_0@->Delete_guard is Some && released->Ok_0@->Delete_guard->0.expression
            == "worker_id = :expected"@ && released->Ok_0@->Delete_guard->0.values[":expected"@]
            == Val::S(worker_id@),
        item is Some && owner == worker_id@ && expires_at is None ==> extended is Ok
            && extended->Ok_0 is None,
{
    lemma_claim_names();
}

/// A task is claimed by at most one worker at a time: while a stored claim is active, it has
/// not expired before `now`, so the condition of another claim does not hold; once it has
/// expired, it is not active.
pub proof fn law_active_claim_excludes_others(
    instance_id: Seq<char>,
    task_id: Seq<char>,
    worker_id: Seq<char>,
    claimed_at: u64,
    e: u64,
    item: &Item,
    now: Timestamp,
    r: bool,
)
    requires
        e <= i64::MAX,
        item@ == dynamodb_claims::claim_map(instance_id, task_id, worker_id, claimed_at, Some(e)),
        call_ensures(dynamodb_claims::has_active_claim, (Some(item), now), r),
    ensures
        r <==> !(e < now.parts().0),
{
    lemma_claim_names();
    text::law_decimal_is_read_back(e as nat);
}

/// The offer made of a workflow right after a result was stored carries that result as its
/// input, whichever task is offered, and names the workflow.
pub proof fn law_offer_carries_last_result(
    s: Snap,
    done: Seq<char>,
    output: Seq<u8>,
    at: u64,
    snap: &WorkflowSnapshot,
    task_id: &str,
    r: Option<AvailableTask>,
)
    requires
        s.state is InProgress,
        snap@ == snapshot::with_result(s, done, output, at),
        call_ensures(build_available_task, (snap, task_id), r),
    ensures
        r is Some,
        r->0.input@ == output,
        r->0.instance_id@ == s.instance_id,
        r->0.workflow_definition_hash@ == s.definition_hash,
        text::opt_text(r->0.trace_parent) == s.trace_parent,
        r->0.task_id@ == task_index::id_digest(task_id@),
        r->0.snapshot@ == snap@,
{
    let m = snap@.state->InProgress_completed;
    assert(m.dom().contains(done));
}

/// The offer made of a workflow that has no result yet carries the initial input; without
/// one nothing is offered.
pub proof fn law_first_offer_carries_initial_input(
    instance_id: Seq<char>,
    definition_hash: Seq<char>,
    input: Option<Seq<u8>>,
    position: Position,
    at: u64,
    then: u64,
    snap: &WorkflowSnapshot,
    task_id: &str,
    r: Option<AvailableTask>,
)
    requires
        snap@ == snapshot::moved_to(
            snapshot::fresh(instance_id, definition_hash, input, at),
            position,
            then,
        ),
        call_ensures(build_available_task, (snap, task_id), r),
    ensures
        match input {
            Some(bytes) => r is Some && r->0.input@ == bytes,
            None => r is None,
        },
        r is Some ==> r->0.instance_id@ == instance_id && r->0.workflow_definition_hash@
            == definition_hash,
{
}

/// What is offered of a workflow in progress that is at a task: nothing where the task has a
/// result or waits for a retry, else the task itself, with the output of the task that
/// completed last.
pub proof fn law_task_is_offered_when_ready(loaded: WorkflowSnapshot, now: Timestamp, r: Dispatch)
    requires
        loaded@.state is InProgress,
        loaded@.state->InProgress_position is AtTask,
        call_ensures(dispatch, (loaded, now), r),
    ensures
        ({
            let t = loaded@.state->InProgress_position->AtTask_task_id;
            let done = loaded@.state->InProgress_completed;
            let last = loaded@.state->InProgress_last;
            let waits = loaded@.task_retries.dom().contains(t) && !snapshot_laws::at_or_after(
                now.parts(),
                loaded@.task_retries[t].next_retry_at.parts(),
            );
            &&& (done.dom().contains(t) || waits) <==> r@ is Skip
            &&& !(r@ is Skip) ==> r@ is Ready
            &&& r@ matches DispatchSpec::Ready(Some(o)) ==> o.task_id == task_index::id_digest(t)
                && o.instance_id == loaded@.instance_id && o.snapshot == loaded@
            &&& r@ is Ready && (last matches Some(k) && done.dom().contains(k)) ==> r@->Ready_0
                is Some && r@->Ready_0->0.input == done[last->0].output
            &&& r@ is Ready && done.dom() == Set::<Seq<char>>::empty() && loaded@.initial_input
                is Some ==> r@->Ready_0 is Some && r@->Ready_0->0.input
                == loaded@.initial_input->0
        }),
{
    let done = loaded@.state->InProgress_completed;
    if done.dom() == Set::<Seq<char>>::empty() {
        assert(done =~= Map::<Seq<char>, Outcome>::empty());
    }
    if let Some(k) = loaded@.state->InProgress_last {
        if done.dom().contains(k) {
            assert(done != Map::<Seq<char>, Outcome>::empty());
        }
    }
}

/// A workflow at a delay is left alone until the delay is over. Then it goes on at the task
/// after the delay, with its results, and the task is offered; without such a task it is
/// completed with what passed through the delay.
pub proof fn law_delay_is_passed_when_over(loaded: WorkflowSnapshot, now: Timestamp, r: Dispatch)
    requires
        loaded@.state is InProgress,
        loaded@.state->InProgress_position is AtDelay,
        call_ensures(dispatch, (loaded, now), r),
    ensures
        ({
            let p = loaded@.state->InProgress_position;
            let done = loaded@.state->InProgress_completed;
            let last = loaded@.state->InProgress_last;
            let over = snapshot_laws::at_or_after(now.parts(), p->AtDelay_wake_at.parts());
            &&& !over <==> r@ is Skip
            &&& over && p->AtDelay_next_task_id is Some ==> {
                &&& r@ is Advance
                &&& r@->Advance_0.state == (State::InProgress {
                    position: Position::AtTask { task_id: p->AtDelay_next_task_id->0 },
                    completed: done,
                    last,
                })
                &&& r@->Advance_0.instance_id == loaded@.instance_id
                &&& r@->Advance_1 matches Some(o) ==> o.task_id == task_index::id_digest(
                    p->AtDelay_next_task_id->0,
                ) && o.instance_id == loaded@.instance_id
                &&& (last matches Some(k) && done.dom().contains(k)) ==> r@->Advance_1 is Some
                    && r@->Advance_1->0.input == done[last->0].output
            }
            &&& over && p->AtDelay_next_task_id is None ==> {
                &&& r@ is Finish
                &&& r@->Finish_0.state == (State::Completed {
                    final_output: if done.dom().contains(p->AtDelay_delay_id) {
                        done[p->AtDelay_delay_id].output
                    } else {
                        seq![]
                    },
                })
                &&& r@->Finish_0.instance_id == loaded@.instance_id
            }
        }),
{
    let done = loaded@.state->InProgress_completed;
    if let Some(k) = loaded@.state->InProgress_last {
        if done.dom().contains(k) {
            assert(done != Map::<Seq<char>, Outcome>::empty());
        }
    }
}

/// Nothing is offered of a workflow that is parked elsewhere or not in progress.
pub proof fn law_other_workflows_are_left_alone(
    loaded: WorkflowSnapshot,
    now: Timestamp,
    r: Dispatch,
)
    requires
        !(loaded@.state is InProgress) || !(loaded@.state->InProgress_position is AtTask
            || loaded@.state->InProgress_position is AtDelay),
        call_ensures(dispatch, (loaded, now), r),
    ensures
        r@ is Skip,
{
}

} // verus!
