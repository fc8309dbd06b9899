//! What is written to the key-value tables for every change of a workflow, and read again.
use crate::backend_error::{BackendError, BackendFault, WriteOutcome};
use crate::codec::{DecodeValue, EncodeValue};
use crate::dynamodb_claims;
use crate::dynamodb_events;
use crate::dynamodb_item;
use crate::dynamodb_item::{Guard, Item, Query, Val, Write, WriteSpec};
use crate::dynamodb_store;
use crate::dynamodb_store::{get_signal, DynamoDbBackend, KeyKind, TableLookup, TableSchema};
use crate::snapshot::{Position, Request, SignalKind, SignalRequest, Snap, State, WorkflowSnapshot};
use crate::snapshot_laws;
use crate::sqlite_laws;
use crate::task_claim::TaskClaim;
use crate::text;
use crate::time;
use crate::time::Timestamp;
use vstd::prelude::*;

verus! {

/// The name of the state of a workflow.
pub open spec fn state_name(s: State) -> Seq<char> {
    match s {
        State::InProgress { .. } => "InProgress"@,
        State::Completed { .. } => "Completed"@,
        State::Failed { .. } => "Failed"@,
        State::Cancelled { .. } => "Cancelled"@,
        State::Paused { .. } => "Paused"@,
    }
}

/// An item has a text under a name.
pub open spec fn has_text(m: Map<Seq<char>, Val>, name: Seq<char>, t: Seq<char>) -> bool {
    m.dom().contains(name) && m[name] == Val::S(t)
}

/// An item is the current snapshot of an instance: under its key, with the bytes, the
/// version, the state and the definition of the snapshot, and with the task that it is at.
pub open spec fn stored_as(
    m: Map<Seq<char>, Val>,
    instance_id: Seq<char>,
    s: Snap,
    data: Seq<u8>,
    version: nat,
) -> bool {
    &&& has_text(m, "PK"@, "SNAP#"@ + instance_id)
    &&& has_text(m, "SK"@, "current"@)
    &&& has_text(m, "instance_id"@, instance_id)
    &&& has_text(m, "status"@, state_name(s.state))
    &&& has_text(m, "definition_hash"@, s.definition_hash)
    &&& m.dom().contains("data"@) && m["data"@] == Val::B(data)
    &&& m.dom().contains("version"@) && m["version"@] == Val::N(text::decimal(version))
}

/// An item tells what kind of place a workflow is at, while it is at one.
pub open spec fn names_place(m: Map<Seq<char>, Val>, s: Snap) -> bool {
    match sqlite_laws::place_of(s.state) {
        Some(p) => has_text(m, "position_kind"@, sqlite_laws::kind_name(p)),
        None => !m.dom().contains("position_kind"@),
    }
}

/// An item tells when a workflow ended, if it did.
pub open spec fn names_end(m: Map<Seq<char>, Val>, s: Snap, now: Timestamp) -> bool {
    if s.state is Completed || s.state is Failed || s.state is Cancelled {
        has_text(m, "completed_at"@, time::rfc3339_text(now.parts().0, now.parts().1))
    } else {
        !m.dom().contains("completed_at"@)
    }
}

/// An item tells how many results a workflow in progress has.
pub open spec fn names_count(m: Map<Seq<char>, Val>, s: Snap) -> bool {
    &&& m.dom().contains("completed_task_count"@)
    &&& s.state is InProgress && s.state->InProgress_completed.len() <= 0x7fff_ffff
        ==> m["completed_task_count"@] == Val::N(
        text::decimal(s.state->InProgress_completed.len()),
    )
    &&& s.state is Paused && s.state->Paused_completed.len() <= 0x7fff_ffff
        ==> m["completed_task_count"@] == Val::N(text::decimal(s.state->Paused_completed.len()))
}

/// An item is dated.
pub open spec fn is_dated(m: Map<Seq<char>, Val>, name: Seq<char>, now: Timestamp) -> bool {
    has_text(m, name, time::rfc3339_text(now.parts().0, now.parts().1))
}

/// An item names the task that a workflow in progress is at, and no other.
pub open spec fn names_task(m: Map<Seq<char>, Val>, s: Snap) -> bool {
    if s.state is InProgress && s.state->InProgress_position is AtTask {
        has_text(m, "current_task_id"@, s.state->InProgress_position->AtTask_task_id)
    } else {
        !m.dom().contains("current_task_id"@)
    }
}

/// An item says until when a workflow is parked at a delay or a signal.
pub open spec fn names_wake_up(m: Map<Seq<char>, Val>, s: Snap) -> bool {
    match s.state {
        State::InProgress { position: Position::AtDelay { wake_at, .. }, .. } => has_text(
            m,
            "delay_wake_at"@,
            time::rfc3339_text(wake_at.parts().0, wake_at.parts().1),
        ),
        State::InProgress { position: Position::AtSignal { wake_at: Some(w), .. }, .. } => has_text(
            m,
            "delay_wake_at"@,
            time::rfc3339_text(w.parts().0, w.parts().1),
        ),
        _ => !m.dom().contains("delay_wake_at"@),
    }
}

/// The names of attributes differ.
proof fn lemma_names()
    ensures
        "PK"@.len() == 2 && "SK"@.len() == 2 && "PK"@ != "SK"@,
        "data"@.len() == 4,
        "version"@.len() == 7,
        "status"@.len() == 6 && "reason"@.len() == 6 && "status"@ != "reason"@,
        "definition_hash"@.len() == 15 && "current_task_id"@.len() == 15,
        "definition_hash"@ != "current_task_id"@,
        "updated_at"@.len() == 10 && "created_at"@.len() == 10 && "updated_at"@ != "created_at"@,
        "instance_id"@.len() == 11,
        "completed_task_count"@.len() == 20,
        "error"@.len() == 5,
        "position_kind"@.len() == 13 && "delay_wake_at"@.len() == 13,
        "position_kind"@ != "delay_wake_at"@,
        "completed_at"@.len() == 12 && "requested_by"@.len() == 12,
        "completed_at"@ != "requested_by"@,
        "payload"@.len() == 7 && "payload"@ != "version"@,
{
    reveal_strlit("PK");
    reveal_strlit("SK");
    reveal_strlit("data");
    reveal_strlit("version");
    reveal_strlit("status");
    reveal_strlit("reason");
    reveal_strlit("definition_hash");
    reveal_strlit("current_task_id");
    reveal_strlit("updated_at");
    reveal_strlit("created_at");
    reveal_strlit("instance_id");
    reveal_strlit("completed_task_count");
    reveal_strlit("error");
    reveal_strlit("position_kind");
    reveal_strlit("delay_wake_at");
    reveal_strlit("completed_at");
    reveal_strlit("requested_by");
    reveal_strlit("payload");
    assert("PK"@[0] == 'P' && "SK"@[0] == 'S');
    assert("status"@[0] == 's' && "reason"@[0] == 'r');
    assert("definition_hash"@[0] == 'd' && "current_task_id"@[0] == 'c');
    assert("updated_at"@[0] == 'u' && "created_at"@[0] == 'c');
    assert("position_kind"@[0] == 'p' && "delay_wake_at"@[0] == 'd');
    assert("completed_at"@[0] == 'c' && "requested_by"@[0] == 'r');
    assert("payload"@[0] == 'p' && "version"@[0] == 'v');
}

/// A saved snapshot is written twice, with the same bytes: as the current one of its
/// instance, and as the entry of its version in the history.
pub proof fn law_save_writes_snapshot_and_history<
    C: EncodeValue<WorkflowSnapshot>,
>(
    b: &DynamoDbBackend<C>,
    s: &WorkflowSnapshot,
    version: u64,
    now: Timestamp,
    r: Result<Vec<Write>, BackendError>,
)
    requires
        call_ensures(DynamoDbBackend::<C>::save_snapshot, (b, s, version, now), r),
        r is Ok,
    ensures
        r->Ok_0@.len() == 2,
        r->Ok_0@[0]@ is Put && r->Ok_0@[1]@ is Put,
        r->Ok_0@[0]@->Put_table == b.snapshots_table@ && r->Ok_0@[1]@->Put_table
            == b.snapshots_table@,
        exists|data: Vec<u8>|
            #[trigger] dynamodb_store::encoded(b.codec, *s, Ok(data)) && stored_as(
                r->Ok_0@[0]@->item,
                s@.instance_id,
                s@,
                data@,
                version as nat,
            ) && r->Ok_0@[1]@->item.dom().contains("data"@) && r->Ok_0@[1]@->item["data"@]
                == Val::B(data@),
        names_task(r->Ok_0@[0]@->item, s@) && names_task(r->Ok_0@[1]@->item, s@),
        names_wake_up(r->Ok_0@[0]@->item, s@),
        names_place(r->Ok_0@[0]@->item, s@),
        names_end(r->Ok_0@[0]@->item, s@, now),
        names_count(r->Ok_0@[0]@->item, s@),
        is_dated(r->Ok_0@[0]@->item, "updated_at"@, now),
        is_dated(r->Ok_0@[1]@->item, "created_at"@, now),
        s@.state is Failed ==> has_text(r->Ok_0@[0]@->item, "error"@, s@.state->error),
        !(s@.state is Failed) ==> !r->Ok_0@[0]@->item.dom().contains("error"@),
        has_text(r->Ok_0@[1]@->item, "PK"@, "HIST#"@ + s@.instance_id),
        has_text(
            r->Ok_0@[1]@->item,
            "SK"@,
            "v"@ + text::padded(text::decimal(version as nat), 8),
        ),
        has_text(r->Ok_0@[1]@->item, "status"@, state_name(s@.state)),
{
    lemma_names();
    let e = choose|e: Result<Vec<u8>, BackendError>| #[trigger]
        dynamodb_store::encoded(b.codec, *s, e) && (match e {
            Ok(data) => r is Ok && dynamodb_item::writes(r->Ok_0@) == dynamodb_store::save_writes(
                b.snapshots_table@,
                s@,
                data@,
                version as nat,
                now,
            ),
            Err(err) => r is Err && r->Err_0 == err,
        });
    let w = dynamodb_item::writes(r->Ok_0@);
    assert(w.len() == r->Ok_0@.len());
    assert(w[0] == r->Ok_0@[0]@ && w[1] == r->Ok_0@[1]@);
    assert(dynamodb_store::encoded(b.codec, *s, Ok(e->Ok_0)));
}

/// A write puts the current snapshot of an instance, and goes through only if the stored
/// version is still the one that was read; it stores the next version.
pub open spec fn replaces(
    w: WriteSpec,
    table: Seq<char>,
    instance_id: Seq<char>,
    s: Snap,
    data: Seq<u8>,
    version: nat,
) -> bool {
    &&& w is Put
    &&& w->Put_table == table
    &&& stored_as(w->item, instance_id, s, data, version + 1)
    &&& w->Put_guard is Some
    &&& w->Put_guard->0.expression == "version = :expected_version"@
    &&& w->Put_guard->0.values.dom().contains(":expected_version"@)
    &&& w->Put_guard->0.values[":expected_version"@] == Val::N(text::decimal(version))
}

/// A write deletes a signal of an instance.
pub open spec fn clears_signal(
    w: WriteSpec,
    table: Seq<char>,
    instance_id: Seq<char>,
    name: Seq<char>,
) -> bool {
    &&& w is Delete
    &&& w->Delete_table == table
    &&& has_text(w->Delete_key, "PK"@, "SIG#"@ + instance_id)
    &&& has_text(w->Delete_key, "SK"@, name)
}

/// A result that is stored replaces the snapshot by one that has the result as well.
pub proof fn law_result_is_stored<C: EncodeValue<WorkflowSnapshot>>(
    b: &DynamoDbBackend<C>,
    instance_id: &str,
    task_id: &str,
    output: Vec<u8>,
    loaded: WorkflowSnapshot,
    version: u64,
    now: Timestamp,
    r: Result<Write, BackendError>,
)
    requires
        version < u64::MAX,
        loaded@.state is InProgress,
        call_ensures(
            DynamoDbBackend::<C>::save_task_result,
            (b, instance_id, task_id, output, loaded, version, now),
            r,
        ),
        r is Ok,
    ensures
        exists|s: WorkflowSnapshot, data: Vec<u8>|
            #[trigger] dynamodb_store::encoded(b.codec, s, Ok(data)) && replaces(
                r->Ok_0@,
                b.snapshots_table@,
                instance_id@,
                s@,
                data@,
                version as nat,
            ) && names_task(r->Ok_0@->item, s@) && names_count(r->Ok_0@->item, s@)
                && is_dated(r->Ok_0@->item, "updated_at"@, now)
                && snapshot_laws::same_workflow(loaded@, s@)
                && s@.state is InProgress && s@.state->InProgress_position
                == loaded@.state->InProgress_position && s@.state->InProgress_last == Some(
                task_id@,
            ) && s@.state->InProgress_completed.dom().contains(task_id@)
                && s@.state->InProgress_completed[task_id@].output == output@ && (forall|
                other: Seq<char>,
            |
                #![trigger s@.state->InProgress_completed.dom().contains(other)]
                other != task_id@ && loaded@.state->InProgress_completed.dom().contains(other)
                    ==> s@.state->InProgress_completed.dom().contains(other)
                    && s@.state->InProgress_completed[other]
                    == loaded@.state->InProgress_completed[other]),
{
    lemma_names();
    let (s, e) = choose|s: WorkflowSnapshot, e: Result<Vec<u8>, BackendError>| #[trigger]
        dynamodb_store::encoded(b.codec, s, e) && s@ == crate::snapshot::with_result(
            loaded@,
            task_id@,
            output@,
            time::unsigned_secs(now.parts().0),
        ) && (match e {
            Ok(data) => r is Ok && r->Ok_0@ == dynamodb_store::versioned_put(
                b.snapshots_table@,
                dynamodb_store::result_map(instance_id@, s@, data@, version as nat + 1, now),
                version as nat,
            ),
            Err(err) => r is Err && r->Err_0 == err,
        });
    assert(dynamodb_store::encoded(b.codec, s, Ok(e->Ok_0)));
}

/// A workflow in progress that is asked to cancel is replaced by the cancelled one, with who
/// asked, why and at which task, and the request is cleared; another one is left alone.
pub proof fn law_cancellation_is_stored<C: EncodeValue<WorkflowSnapshot>>(
    b: &DynamoDbBackend<C>,
    instance_id: &str,
    request: SignalRequest,
    task: Option<String>,
    loaded: WorkflowSnapshot,
    version: u64,
    now: Timestamp,
    r: Result<Option<Vec<Write>>, BackendError>,
)
    requires
        version < u64::MAX,
        call_ensures(
            DynamoDbBackend::<C>::check_and_cancel,
            (b, instance_id, request, task, loaded, version, now),
            r,
        ),
        r is Ok,
    ensures
        r->Ok_0 is Some <==> loaded@.state is InProgress,
        r->Ok_0 is Some ==> r->Ok_0->0@.len() == 2 && clears_signal(
            r->Ok_0->0@[1]@,
            b.snapshots_table@,
            instance_id@,
            "Cancel"@,
        ),
        r->Ok_0 is Some ==> exists|s: WorkflowSnapshot, data: Vec<u8>|
            #[trigger] dynamodb_store::encoded(b.codec, s, Ok(data)) && replaces(
                r->Ok_0->0@[0]@,
                b.snapshots_table@,
                instance_id@,
                s@,
                data@,
                version as nat,
            ) && names_end(r->Ok_0->0@[0]@->item, s@, now) && is_dated(
                r->Ok_0->0@[0]@->item,
                "updated_at"@,
                now,
            ) && snapshot_laws::same_workflow(loaded@, s@) && s@.state is Cancelled
                && s@.state->Cancelled_reason == request@.reason && s@.state->cancelled_by
                == request@.requested_by && s@.state->interrupted_at_task == text::opt_text(task)
                && s@.state->Cancelled_completed == loaded@.state->InProgress_completed,
{
    lemma_names();
    if loaded@.state is InProgress {
        let (s, e) = choose|s: WorkflowSnapshot, e: Result<Vec<u8>, BackendError>| #[trigger]
            dynamodb_store::encoded(b.codec, s, e) && s@ == crate::snapshot::cancelled(
                loaded@,
                request@.reason,
                request@.requested_by,
                text::opt_text(task),
                now,
            ) && (match e {
                Ok(data) => r is Ok && r->Ok_0 is Some && dynamodb_item::writes(r->Ok_0->0@)
                    == seq![
                    dynamodb_store::versioned_put(
                        b.snapshots_table@,
                        dynamodb_store::cancelled_map(
                            instance_id@,
                            s@,
                            data@,
                            version as nat + 1,
                            now,
                        ),
                        version as nat,
                    ),
                    dynamodb_store::signal_delete(
                        b.snapshots_table@,
                        instance_id@,
                        SignalKind::Cancel,
                    ),
                ],
                Err(err) => r is Err && r->Err_0 == err,
            });
        let w = dynamodb_item::writes(r->Ok_0->0@);
        assert(w.len() == r->Ok_0->0@.len());
        assert(w[0] == r->Ok_0->0@[0]@ && w[1] == r->Ok_0->0@[1]@);
        assert(dynamodb_store::encoded(b.codec, s, Ok(e->Ok_0)));
    }
}

/// A workflow in progress that is asked to pause is replaced by the paused one, which keeps
/// its results and its place, and the request is cleared; another one is left alone.
pub proof fn law_pause_is_stored<C: EncodeValue<WorkflowSnapshot>>(
    b: &DynamoDbBackend<C>,
    instance_id: &str,
    request: SignalRequest,
    loaded: WorkflowSnapshot,
    version: u64,
    now: Timestamp,
    r: Result<Option<Vec<Write>>, BackendError>,
)
    requires
        version < u64::MAX,
        call_ensures(
            DynamoDbBackend::<C>::check_and_pause,
            (b, instance_id, request, loaded, version, now),
            r,
        ),
        r is Ok,
    ensures
        r->Ok_0 is Some <==> loaded@.state is InProgress,
        r->Ok_0 is Some ==> r->Ok_0->0@.len() == 2 && clears_signal(
            r->Ok_0->0@[1]@,
            b.snapshots_table@,
            instance_id@,
            "Pause"@,
        ),
        r->Ok_0 is Some ==> exists|s: WorkflowSnapshot, data: Vec<u8>|
            #[trigger] dynamodb_store::encoded(b.codec, s, Ok(data)) && replaces(
                r->Ok_0->0@[0]@,
                b.snapshots_table@,
                instance_id@,
                s@,
                data@,
                version as nat,
            ) && names_place(r->Ok_0->0@[0]@->item, s@) && names_count(
                r->Ok_0->0@[0]@->item,
                s@,
            ) && is_dated(r->Ok_0->0@[0]@->item, "updated_at"@, now)
                && snapshot_laws::same_workflow(loaded@, s@) && s@.state is Paused
                && s@.state->Paused_reason == request@.reason && s@.state->paused_by
                == request@.requested_by && s@.state->Paused_completed
                == loaded@.state->InProgress_completed && s@.state->Paused_position
                == loaded@.state->InProgress_position && s@.state->Paused_last
                == loaded@.state->InProgress_last,
{
    lemma_names();
    if loaded@.state is InProgress {
        let (s, e) = choose|s: WorkflowSnapshot, e: Result<Vec<u8>, BackendError>| #[trigger]
            dynamodb_store::encoded(b.codec, s, e) && s@ == crate::snapshot::paused(
                loaded@,
                Request { requested_at: now, ..request@ },
                now,
            ) && (match e {
                Ok(data) => r is Ok && r->Ok_0 is Some && dynamodb_item::writes(r->Ok_0->0@)
                    == seq![
                    dynamodb_store::versioned_put(
                        b.snapshots_table@,
                        dynamodb_store::held_map(
                            instance_id@,
                            s@,
                            data@,
                            version as nat + 1,
                            now,
                        ),
                        version as nat,
                    ),
                    dynamodb_store::signal_delete(
                        b.snapshots_table@,
                        instance_id@,
                        SignalKind::Pause,
                    ),
                ],
                Err(err) => r is Err && r->Err_0 == err,
            });
        let w = dynamodb_item::writes(r->Ok_0->0@);
        assert(w.len() == r->Ok_0->0@.len());
        assert(w[0] == r->Ok_0->0@[0]@ && w[1] == r->Ok_0->0@[1]@);
        assert(dynamodb_store::encoded(b.codec, s, Ok(e->Ok_0)));
    }
}

/// A paused workflow that is unpaused is replaced by the one that goes on where it was; one
/// that is not paused cannot be.
pub proof fn law_unpause_is_stored<C: EncodeValue<WorkflowSnapshot>>(
    b: &DynamoDbBackend<C>,
    instance_id: &str,
    loaded: WorkflowSnapshot,
    version: u64,
    now: Timestamp,
    r: Result<(WorkflowSnapshot, Write), BackendError>,
)
    requires
        version < u64::MAX,
        call_ensures(
            DynamoDbBackend::<C>::unpause,
            (b, instance_id, loaded, version, now),
            r,
        ),
    ensures
        !(loaded@.state is Paused) ==> r is Err && r->Err_0@ is CannotPause,
        r is Ok ==> exists|data: Vec<u8>|
            #[trigger] dynamodb_store::encoded(b.codec, r->Ok_0.0, Ok(data)) && replaces(
                r->Ok_0.1@,
                b.snapshots_table@,
                instance_id@,
                r->Ok_0.0@,
                data@,
                version as nat,
            ),
        r is Ok ==> names_place(r->Ok_0.1@->item, r->Ok_0.0@) && names_wake_up(
            r->Ok_0.1@->item,
            r->Ok_0.0@,
        ) && names_task(r->Ok_0.1@->item, r->Ok_0.0@) && names_count(
            r->Ok_0.1@->item,
            r->Ok_0.0@,
        ) && is_dated(r->Ok_0.1@->item, "updated_at"@, now),
        r is Ok ==> snapshot_laws::same_workflow(loaded@, r->Ok_0.0@) && r->Ok_0.0@.state
            is InProgress && r->Ok_0.0@.state->InProgress_completed
            == loaded@.state->Paused_completed && r->Ok_0.0@.state->InProgress_position
            == loaded@.state->Paused_position && r->Ok_0.0@.state->InProgress_last
            == loaded@.state->Paused_last,
{
    lemma_names();
    if r is Ok {
        let (s, e) = choose|s: WorkflowSnapshot, e: Result<Vec<u8>, BackendError>| #[trigger]
            dynamodb_store::encoded(b.codec, s, e) && s@ == crate::snapshot::unpaused(
                loaded@,
                time::unsigned_secs(now.parts().0),
            ) && (match e {
                Ok(data) => r is Ok && r->Ok_0.0 == s && r->Ok_0.1@
                    == dynamodb_store::versioned_put(
                    b.snapshots_table@,
                    dynamodb_store::held_map(instance_id@, s@, data@, version as nat + 1, now),
                    version as nat,
                ),
                Err(err) => r is Err && r->Err_0 == err,
            });
        assert(dynamodb_store::encoded(b.codec, r->Ok_0.0, Ok(e->Ok_0)));
    }
}

/// A request to cancel or pause is stored under its own key, unless the workflow has ended,
/// and read back as it was made.
pub proof fn law_request_is_stored_and_read_back<C>(
    b: &DynamoDbBackend<C>,
    instance_id: &str,
    kind: SignalKind,
    request: &SignalRequest,
    loaded: &WorkflowSnapshot,
    now: Timestamp,
    r: Result<Write, BackendError>,
    item: &Item,
    later: Timestamp,
    back: Option<SignalRequest>,
    none: Option<SignalRequest>,
)
    requires
        call_ensures(
            DynamoDbBackend::<C>::store_signal,
            (b, instance_id, kind, request, loaded, now),
            r,
        ),
        r is Ok ==> r->Ok_0@ is Put && item@ == r->Ok_0@->item,
        call_ensures(get_signal, (Some(item), later), back),
        call_ensures(get_signal, (None::<&Item>, later), none),
    ensures
        r is Err <==> loaded@.state is Completed || loaded@.state is Failed || (loaded@.state
            is Cancelled && kind == SignalKind::Pause),
        r is Ok ==> r->Ok_0@ is Put && r->Ok_0@->Put_table == b.snapshots_table@,
        r is Ok ==> has_text(item@, "PK"@, "SIG#"@ + instance_id@),
        r is Ok ==> has_text(
            item@,
            "SK"@,
            match kind {
                SignalKind::Cancel => "Cancel"@,
                SignalKind::Pause => "Pause"@,
            },
        ),
        r is Ok ==> back is Some && back->0@.reason == request@.reason && back->0@.requested_by
            == request@.requested_by,
        none is None,
{
    lemma_names();
}

/// An event is written to the queue of its signal, the query for the oldest event asks for
/// that queue, oldest first, what was written is what is read, and to consume it deletes it.
pub proof fn law_event_goes_through_its_queue<C>(
    b: &DynamoDbBackend<C>,
    instance_id: &str,
    signal_name: &str,
    id: &str,
    payload: Vec<u8>,
    w: Write,
    q: Query,
    items: &Vec<Item>,
    read: Result<Option<(String, Vec<u8>)>, BackendError>,
    done: Write,
)
    requires
        call_ensures(
            DynamoDbBackend::<C>::event_write,
            (b, instance_id, signal_name, id, payload),
            w,
        ),
        call_ensures(DynamoDbBackend::<C>::event_query, (b, instance_id, signal_name), q),
        w@ is Put,
        items@.len() > 0,
        items@[0]@ == w@->item,
        call_ensures(dynamodb_events::oldest_event, (items,), read),
        call_ensures(DynamoDbBackend::<C>::consume_event, (b, instance_id, signal_name, id), done),
    ensures
        w@->Put_table == b.events_table@ && q@.table == b.events_table@,
        w@->Put_guard is None,
        q@.forward,
        q@.limit is Some && q@.limit->0 == 1,
        q@.index is None,
        q@.key_condition == "PK = :pk"@,
        q@.values.dom().contains(":pk"@) && w@->item.dom().contains("PK"@) && q@.values[":pk"@]
            == w@->item["PK"@],
        w@->item["PK"@] == Val::S(instance_id@ + "#"@ + signal_name@),
        read is Ok && read->Ok_0 is Some,
        (read->Ok_0->0).0@ == id@ && (read->Ok_0->0).1@ == payload@,
        done@ is Delete && done@->Delete_table == b.events_table@,
        done@->Delete_key.dom().contains("PK"@) && done@->Delete_key["PK"@] == w@->item["PK"@],
        done@->Delete_key.dom().contains("SK"@) && done@->Delete_key["SK"@] == w@->item["SK"@],
        done@->Delete_guard is Some,
{
    lemma_names();
    let m = dynamodb_events::item_maps(items@);
    assert(m[0] == items@[0]@);
    assert(m.len() == items@.len());
}

/// Without items there is no event.
pub proof fn law_empty_queue_has_no_event(
    items: &Vec<Item>,
    read: Result<Option<(String, Vec<u8>)>, BackendError>,
)
    requires
        items@.len() == 0,
        call_ensures(dynamodb_events::oldest_event, (items,), read),
    ensures
        read is Ok && read->Ok_0 is None,
{
    assert(dynamodb_events::item_maps(items@).len() == 0);
}

/// What is loaded of an instance is decoded from the item that a save wrote, the key of
/// which is the one that is asked for and deleted; without an item there is no such instance.
pub proof fn law_saved_key_is_loaded_and_deleted<C: DecodeValue<WorkflowSnapshot>>(
    b: &DynamoDbBackend<C>,
    instance_id: &str,
    key: Item,
    gone: Write,
    item: &Item,
    s: Snap,
    data: Seq<u8>,
    version: nat,
    r: Result<WorkflowSnapshot, BackendError>,
    none: Result<WorkflowSnapshot, BackendError>,
)
    requires
        call_ensures(DynamoDbBackend::<C>::snapshot_key, (b, instance_id), key),
        call_ensures(DynamoDbBackend::<C>::delete_snapshot, (b, instance_id), gone),
        stored_as(item@, instance_id@, s, data, version),
        call_ensures(DynamoDbBackend::<C>::load_snapshot, (b, instance_id, Some(item)), r),
        call_ensures(DynamoDbBackend::<C>::load_snapshot, (b, instance_id, None::<&Item>), none),
    ensures
        key@.dom().contains("PK"@) && key@["PK"@] == item@["PK"@],
        key@.dom().contains("SK"@) && key@["SK"@] == item@["SK"@],
        gone@ is Delete && gone@->Delete_table == b.snapshots_table@ && gone@->Delete_key == key@,
        gone@->Delete_guard is Some && gone@->Delete_guard->0.expression
            == "attribute_exists(PK)"@,
        dynamodb_store::decoded(b.codec, data, r),
        none is Err && none->Err_0@ == BackendFault::NotFound(instance_id@),
{
    lemma_names();
}

proof fn lemma_listed(items: Seq<Map<Seq<char>, Val>>, k: nat, id: Seq<char>)
    requires
        k <= items.len(),
    ensures
        dynamodb_events::listed_ids(items, k).contains(id) <==> exists|j: int|
            0 <= j < k && has_text(#[trigger] items[j], "instance_id"@, id),
    decreases k,
{
    if k > 0 {
        lemma_listed(items, (k - 1) as nat, id);
        let p = dynamodb_events::listed_ids(items, (k - 1) as nat);
        let all = dynamodb_events::listed_ids(items, k);
        if p.contains(id) {
            let j = choose|j: int|
                0 <= j < k - 1 && has_text(#[trigger] items[j], "instance_id"@, id);
            assert(has_text(items[j], "instance_id"@, id));
            assert(all[p.index_of(id)] == id);
        }
        if has_text(items[k - 1], "instance_id"@, id) {
            assert(all[all.len() - 1] == id);
        }
        if all.contains(id) && !p.contains(id) {
            let n = all.index_of(id);
            assert(n == p.len());
            assert(has_text(items[k - 1], "instance_id"@, id));
        }
    }
}

/// A page of items adds the instances that it names to those listed before.
pub proof fn law_page_is_listed(
    ids: &mut Vec<String>,
    items: &Vec<Item>,
    last_key: Option<Item>,
    r: Option<Item>,
    id: Seq<char>,
)
    requires
        call_ensures(dynamodb_events::list_snapshots, (ids, items, last_key), r),
    ensures
        text::texts(final(ids)@).contains(id) <==> text::texts(old(ids)@).contains(id) || exists|
            j: int,
        |
            0 <= j < items@.len() && has_text(#[trigger] items@[j]@, "instance_id"@, id),
        text::texts(old(ids)@).is_prefix_of(text::texts(final(ids)@)),
        last_key is None ==> r is None,
{
    let m = dynamodb_events::item_maps(items@);
    lemma_listed(m, m.len(), id);
    let a = text::texts(old(ids)@);
    let b = dynamodb_events::listed_ids(m, m.len());
    let c = text::texts(final(ids)@);
    assert(a =~= c.subrange(0, a.len() as int));
    if a.contains(id) {
        assert(c[a.index_of(id)] == id);
    }
    if b.contains(id) {
        assert(c[a.len() + b.index_of(id)] == id);
        let j = choose|j: int| 0 <= j < m.len() && has_text(#[trigger] m[j], "instance_id"@, id);
        assert(has_text(items@[j]@, "instance_id"@, id));
    }
    if c.contains(id) && !a.contains(id) {
        let n = c.index_of(id);
        assert(b[n - a.len()] == id);
    }
    if exists|j: int| 0 <= j < items@.len() && has_text(#[trigger] items@[j]@, "instance_id"@, id) {
        let j = choose|j: int|
            0 <= j < items@.len() && has_text(#[trigger] items@[j]@, "instance_id"@, id);
        assert(has_text(m[j], "instance_id"@, id));
    }
}

/// What came of a conditional write: a claim is held where it was done and by another worker
/// where its condition failed, a snapshot that was not there could not be deleted, and an
/// event was consumed by another worker where it was gone. A failure of the store is an error.
pub proof fn law_outcomes_are_told(
    claim: TaskClaim,
    instance_id: &str,
    payload: Vec<u8>,
    outcome: WriteOutcome,
    c: Result<Option<TaskClaim>, BackendError>,
    d: Result<(), BackendError>,
    e: Result<Option<Vec<u8>>, BackendError>,
)
    requires
        call_ensures(dynamodb_claims::task_claimed, (claim, outcome), c),
        call_ensures(dynamodb_store::snapshot_deleted, (instance_id, outcome), d),
        call_ensures(dynamodb_events::event_consumed, (payload, outcome), e),
    ensures
        outcome is Done ==> c is Ok && c->Ok_0 == Some(claim) && d is Ok && e is Ok && e->Ok_0
            == Some(payload),
        outcome is ConditionFailed ==> c is Ok && c->Ok_0 is None && d is Err && d->Err_0@
            == BackendFault::NotFound(instance_id@) && e is Ok && e->Ok_0 is None,
        outcome matches WriteOutcome::Failed(m) ==> c is Err && d is Err && e is Err && c->Err_0@
            == BackendFault::Backend(m@) && d->Err_0@ == BackendFault::Backend(m@) && e->Err_0@
            == BackendFault::Backend(m@),
{
}

/// The version of a stored snapshot is the one that it was stored under, 0 where there is
/// none, and the next one is one more.
pub proof fn law_version_is_read_back(
    item: &Item,
    instance_id: Seq<char>,
    s: Snap,
    data: Seq<u8>,
    version: u64,
    r: u64,
    next: u64,
    none: u64,
)
    requires
        version < u64::MAX,
        stored_as(item@, instance_id, s, data, version as nat),
        call_ensures(dynamodb_store::get_current_version, (Some(item),), r),
        call_ensures(dynamodb_store::get_next_version, (Some(item),), next),
        call_ensures(dynamodb_store::get_current_version, (None::<&Item>,), none),
    ensures
        r == version,
        next == version + 1,
        none == 0,
{
    text::law_decimal_is_read_back(version as nat);
}

/// A table is there if it was found; it is waited for until it is active, but not for ever.
pub proof fn law_tables_are_waited_for(
    name: &str,
    polled: u32,
    active: bool,
    m: String,
    there: Result<bool, BackendError>,
    gone: Result<bool, BackendError>,
    failed: Result<bool, BackendError>,
    waited: Result<bool, BackendError>,
    lost: Result<bool, BackendError>,
)
    requires
        call_ensures(dynamodb_store::table_exists, (name, TableLookup::Found(active)), there),
        call_ensures(dynamodb_store::table_exists, (name, TableLookup::Missing(m)), gone),
        call_ensures(dynamodb_store::table_exists, (name, TableLookup::Failed(m)), failed),
        call_ensures(
            dynamodb_store::wait_for_table,
            (name, polled, TableLookup::Found(active)),
            waited,
        ),
        call_ensures(
            dynamodb_store::wait_for_table,
            (name, polled, TableLookup::Failed(m)),
            lost,
        ),
    ensures
        there is Ok && there->Ok_0,
        gone is Ok && !gone->Ok_0,
        failed is Err && lost is Err,
        active ==> waited is Ok && waited->Ok_0,
        !active && waited is Ok ==> !waited->Ok_0,
        !active && polled == u32::MAX ==> waited is Err,
        !active && polled == 0 ==> waited is Ok,
{
}

/// Each table has a name of its own behind the prefix. The attributes of the keys of the
/// snapshots and of their index, and the one by which claims are dropped, are those that are
/// written.
pub proof fn law_tables_hold_what_is_written<C>(
    codec: C,
    prefix: &str,
    b: DynamoDbBackend<C>,
    s: TableSchema,
    e: TableSchema,
    c: TableSchema,
)
    requires
        call_ensures(DynamoDbBackend::<C>::with_prefix, (codec, prefix), b),
        call_ensures(DynamoDbBackend::<C>::ensure_snapshots_table, (&b,), s),
        call_ensures(DynamoDbBackend::<C>::ensure_events_table, (&b,), e),
        call_ensures(DynamoDbBackend::<C>::ensure_claims_table, (&b,), c),
    ensures
        b.codec == codec,
        prefix@.is_prefix_of(b.snapshots_table@) && prefix@.is_prefix_of(b.events_table@)
            && prefix@.is_prefix_of(b.claims_table@),
        b.snapshots_table@ != b.events_table@ && b.snapshots_table@ != b.claims_table@
            && b.events_table@ != b.claims_table@,
        s.name@ == b.snapshots_table@ && e.name@ == b.events_table@ && c.name@ == b.claims_table@,
        dynamodb_store::key_parts(s.key@) == dynamodb_store::key_parts(e.key@),
        dynamodb_store::key_parts(s.key@).len() == 2 && dynamodb_store::key_parts(s.key@)[0]
            == ("PK"@, KeyKind::Hash) && dynamodb_store::key_parts(s.key@)[1] == (
            "SK"@,
            KeyKind::Range,
        ),
        dynamodb_store::key_parts(c.key@).len() == 1 && dynamodb_store::key_parts(c.key@)[0] == (
            "PK"@,
            KeyKind::Hash,
        ),
        s.index is Some && dynamodb_store::key_parts((s.index->0).1@)[0] == (
            "status"@,
            KeyKind::Hash,
        ) && dynamodb_store::key_parts((s.index->0).1@)[1] == ("updated_at"@, KeyKind::Range),
        c.ttl_attribute is Some && c.ttl_attribute->0@ == "expires_at_epoch"@,
        s.ttl_attribute is None && e.ttl_attribute is None,
{
    reveal_strlit("_snapshots");
    reveal_strlit("_events");
    reveal_strlit("_claims");
    let p = prefix@;
    assert("_snapshots"@.len() == 10 && "_events"@.len() == 7 && "_claims"@.len() == 7);
    assert("_events"@[1] == 'e' && "_claims"@[1] == 'c');
    let k: int = p.len() + 1int;
    assert((p + "_events"@)[k] == 'e' && (p + "_claims"@)[k] == 'c');
    assert((p + "_snapshots"@).subrange(0, p.len() as int) =~= p);
    assert((p + "_events"@).subrange(0, p.len() as int) =~= p);
    assert((p + "_claims"@).subrange(0, p.len() as int) =~= p);
}

/// The queries ask for what is written: the one for signals of an instance for the partition
/// of its requests, the one for ready tasks for the workflows in progress by the index of the
/// snapshots, and the filter of a listing for current snapshots.
pub proof fn law_queries_ask_for_what_is_written<C>(
    b: &DynamoDbBackend<C>,
    instance_id: &str,
    kind: SignalKind,
    key: Item,
    q: Query,
    ready: Query,
    schema: TableSchema,
    filter: Guard,
)
    requires
        call_ensures(DynamoDbBackend::<C>::signal_key, (b, instance_id, kind), key),
        call_ensures(DynamoDbBackend::<C>::has_any_signal, (b, instance_id), q),
        call_ensures(DynamoDbBackend::<C>::find_available_tasks, (b,), ready),
        call_ensures(DynamoDbBackend::<C>::ensure_snapshots_table, (b,), schema),
        call_ensures(dynamodb_events::snapshot_filter, (), filter),
    ensures
        q@.table == b.snapshots_table@ && q@.key_condition == "PK = :pk"@,
        q@.limit is Some && q@.limit->0 == 1,
        q@.values.dom().contains(":pk"@) && key@.dom().contains("PK"@) && q@.values[":pk"@]
            == key@["PK"@],
        has_text(key@, "PK"@, "SIG#"@ + instance_id@),
        ready@.table == b.snapshots_table@,
        ready@.index is Some && schema.index is Some && ready@.index->0 == (schema.index->0).0@,
        ready@.values.dom().contains(":status"@) && ready@.values[":status"@] == Val::S(
            "InProgress"@,
        ),
        ready@.names.dom().contains("#s"@) && ready@.names["#s"@] == "status"@,
        ready@.limit is None,
        has_text(filter.values@, ":current"@, "current"@),
        has_text(filter.values@, ":snap_prefix"@, "SNAP#"@),
{
    lemma_names();
    reveal_strlit(":current");
    reveal_strlit(":snap_prefix");
    assert(":current"@.len() == 8 && ":snap_prefix"@.len() == 12);
}

} // verus!
