//! What is written to the relational tables for every change of a workflow, and read again.
use crate::backend_error::{BackendError, BackendFault};
use crate::backend_laws;
use crate::codec::{CodecIdentity, DecodeValue};
use crate::dynamodb_store;
use crate::snapshot;
use crate::snapshot::{
    Position, SignalKind, SignalRequest, Snap, SnapshotStatus, State, WorkflowSnapshot,
};
use crate::snapshot_laws;
use crate::sqlite_backend;
use crate::sqlite_backend::{
    migration_done, next_migration, Migration, SQLiteBackend, SignalRow, SqlVal, Statement,
};
use crate::text;
use crate::time;
use crate::time::Timestamp;
use vstd::prelude::*;

verus! {

/// A column holds a text, or nothing where there is none.
pub open spec fn column_is(v: SqlVal, o: Option<Seq<char>>) -> bool {
    match o {
        Some(s) => v == SqlVal::Text(s),
        None => v is Null,
    }
}

/// The name of the kind of a position.
pub open spec fn kind_name(p: Position) -> Seq<char> {
    match p {
        Position::NotStarted => "NotStarted"@,
        Position::AtTask { .. } => "AtTask"@,
        Position::AtFork { .. } => "AtFork"@,
        Position::AtJoin { .. } => "AtJoin"@,
        Position::AtDelay { .. } => "AtDelay"@,
        Position::AtSignal { .. } => "AtSignal"@,
        Position::InLoop { .. } => "InLoop"@,
    }
}

/// The place that a workflow is at: one in progress or paused is somewhere.
pub open spec fn place_of(s: State) -> Option<Position> {
    match s {
        State::InProgress { position, .. } => Some(position),
        State::Paused { position, .. } => Some(position),
        _ => None,
    }
}

/// A saved snapshot has its columns: instance, state, definition, task, number of results,
/// bytes, error, kind of position, time to wake up, trace parent and awaited signal, in the
/// order of the parameters of the statement. The history entry has those that it needs.
pub proof fn law_saved_snapshot_has_its_columns<T>(
    b: &SQLiteBackend<T>,
    s: &WorkflowSnapshot,
    data: &Vec<u8>,
    r: (Statement, Statement),
)
    requires
        call_ensures(SQLiteBackend::<T>::save_snapshot, (b, s, data), r),
    ensures
        r.0@.args.len() == 11,
        r.0@.args[0] == SqlVal::Text(s@.instance_id),
        r.0@.args[1] == SqlVal::Text(backend_laws::state_name(s@.state)),
        r.0@.args[2] == SqlVal::Text(s@.definition_hash),
        r.0@.args[3] is Null <==> !(s@.state is InProgress
            && s@.state->InProgress_position is AtTask),
        r.0@.args[5] == SqlVal::Blob(data@),
        column_is(
            r.0@.args[6],
            if s@.state is Failed {
                Some(s@.state->error)
            } else {
                None
            },
        ),
        column_is(
            r.0@.args[7],
            if place_of(s@.state) is Some {
                Some(kind_name(place_of(s@.state)->0))
            } else {
                None
            },
        ),
        column_is(
            r.0@.args[8],
            match s@.state {
                State::InProgress { position: Position::AtDelay { wake_at, .. }, .. } => Some(
                    time::column_text(wake_at.parts().0, wake_at.parts().1),
                ),
                State::InProgress { position: Position::AtFork { wake_at, .. }, .. } => Some(
                    time::column_text(wake_at.parts().0, wake_at.parts().1),
                ),
                State::InProgress {
                    position: Position::AtSignal { wake_at: Some(w), .. },
                    ..
                } => Some(time::column_text(w.parts().0, w.parts().1)),
                _ => None,
            },
        ),
        column_is(r.0@.args[9], s@.trace_parent),
        column_is(
            r.0@.args[10],
            match s@.state {
                State::InProgress { position: Position::AtSignal { signal_name, .. }, .. } => Some(
                    signal_name,
                ),
                _ => None,
            },
        ),
        r.1@.args.len() == 4,
        r.1@.args[0] == SqlVal::Text(s@.instance_id),
        r.1@.args[1] == SqlVal::Text(backend_laws::state_name(s@.state)),
        r.1@.args[2] == r.0@.args[3],
        r.1@.args[3] == SqlVal::Blob(data@),
{
}

/// The number of results in a saved snapshot is that of the results that it holds.
pub proof fn law_results_are_counted<T>(
    b: &SQLiteBackend<T>,
    s: &WorkflowSnapshot,
    data: &Vec<u8>,
    r: (Statement, Statement),
)
    requires
        call_ensures(SQLiteBackend::<T>::save_snapshot, (b, s, data), r),
        s@.state is InProgress,
        s@.state->InProgress_completed.len() <= 0x7fff_ffff,
    ensures
        r.0@.args[4] == SqlVal::Integer(s@.state->InProgress_completed.len() as i64),
{
}

/// A snapshot is read, deleted and asked for its status under its instance, and one that was
/// not there could not be deleted.
pub proof fn law_statements_name_the_instance<T>(
    b: &SQLiteBackend<T>,
    instance_id: &str,
    rows: u64,
    load: Statement,
    delete: Statement,
    status: Statement,
    deleted: Result<(), BackendError>,
)
    requires
        call_ensures(SQLiteBackend::<T>::load_statement, (b, instance_id), load),
        call_ensures(SQLiteBackend::<T>::delete_statement, (b, instance_id), delete),
        call_ensures(SQLiteBackend::<T>::status_statement, (b, instance_id), status),
        call_ensures(SQLiteBackend::<T>::delete_snapshot, (b, instance_id, rows), deleted),
    ensures
        load@.args == seq![SqlVal::Text(instance_id@)],
        delete@.args == seq![SqlVal::Text(instance_id@)],
        status@.args == seq![SqlVal::Text(instance_id@)],
        rows == 0 <==> deleted is Err,
        deleted is Err ==> deleted->Err_0@ == BackendFault::NotFound(instance_id@),
{
}

/// What is loaded is the decoded snapshot with the trace parent of its own column; without a
/// row there is no such instance.
pub proof fn law_row_is_loaded<T, C: DecodeValue<WorkflowSnapshot> + CodecIdentity>(
    b: &SQLiteBackend<T>,
    codec: &C,
    instance_id: &str,
    data: Vec<u8>,
    trace_parent: Option<String>,
    r: Result<WorkflowSnapshot, BackendError>,
    none: Result<WorkflowSnapshot, BackendError>,
)
    requires
        call_ensures(
            SQLiteBackend::<T>::load_snapshot::<C>,
            (b, codec, instance_id, Some((data, trace_parent))),
            r,
        ),
        call_ensures(
            SQLiteBackend::<T>::load_snapshot::<C>,
            (b, codec, instance_id, None::<(Vec<u8>, Option<String>)>),
            none,
        ),
    ensures
        none is Err && none->Err_0@ == BackendFault::NotFound(instance_id@),
        r is Ok ==> r->Ok_0@.trace_parent == text::opt_text(trace_parent) && exists|
            s: WorkflowSnapshot,
        |
            #[trigger] sqlite_backend::decoded_frame(
                *codec,
                data@,
                Ok::<WorkflowSnapshot, BackendError>(s),
            ) && r->Ok_0@.state == s@.state && r->Ok_0@.instance_id == s@.instance_id
                && r->Ok_0@.definition_hash == s@.definition_hash && r->Ok_0@.initial_input
                == s@.initial_input && r->Ok_0@.task_retries == s@.task_retries
                && r->Ok_0@.task_deadline == s@.task_deadline && r->Ok_0@.loop_iterations
                == s@.loop_iterations && r->Ok_0@.created_at == s@.created_at
                && r->Ok_0@.updated_at == s@.updated_at,
{
    if r is Ok {
        let d = choose|d: Result<WorkflowSnapshot, BackendError>| #[trigger]
            sqlite_backend::decoded_frame(*codec, data@, d) && (match d {
                Ok(s) => r is Ok && r->Ok_0@ == (Snap {
                    trace_parent: text::opt_text(trace_parent),
                    ..s@
                }),
                Err(e) => r is Err && r->Err_0 == e,
            });
        assert(sqlite_backend::decoded_frame(
            *codec,
            data@,
            Ok::<WorkflowSnapshot, BackendError>(d->Ok_0),
        ));
    }
}

/// A result that is stored is in the snapshot, under its task and as the last one, and
/// nothing else of the workflow changes.
pub proof fn law_result_is_in_the_snapshot<T>(
    b: &SQLiteBackend<T>,
    loaded: WorkflowSnapshot,
    task_id: &str,
    output: Vec<u8>,
    now: Timestamp,
    r: WorkflowSnapshot,
)
    requires
        loaded@.state is InProgress,
        call_ensures(SQLiteBackend::<T>::save_task_result, (b, loaded, task_id, output, now), r),
    ensures
        snapshot_laws::same_workflow(loaded@, r@),
        r@.state is InProgress && r@.state->InProgress_position
            == loaded@.state->InProgress_position,
        r@.state->InProgress_last == Some(task_id@),
        r@.state->InProgress_completed.dom().contains(task_id@),
        r@.state->InProgress_completed[task_id@].output == output@,
        forall|other: Seq<char>|
            #![trigger r@.state->InProgress_completed.dom().contains(other)]
            other != task_id@ && loaded@.state->InProgress_completed.dom().contains(other)
                ==> r@.state->InProgress_completed.dom().contains(other)
                && r@.state->InProgress_completed[other]
                == loaded@.state->InProgress_completed[other],
        r@.task_retries == loaded@.task_retries && r@.task_deadline == loaded@.task_deadline,
{
}

/// A request to cancel or pause is stored under its instance and its kind, unless the
/// workflow has ended, and asked for and cleared under the same; what its row holds is read.
pub proof fn law_request_is_stored<T>(
    b: &SQLiteBackend<T>,
    instance_id: &str,
    kind: SignalKind,
    request: &SignalRequest,
    status: String,
    r: Result<Statement, BackendError>,
    select: Statement,
    clear: Statement,
    row: SignalRow,
    now: Timestamp,
    read: Result<Option<SignalRequest>, BackendError>,
)
    requires
        call_ensures(
            SQLiteBackend::<T>::store_signal,
            (b, instance_id, kind, request, Some(Some(status))),
            r,
        ),
        call_ensures(SQLiteBackend::<T>::signal_statement, (b, instance_id, kind), select),
        call_ensures(SQLiteBackend::<T>::clear_signal, (b, instance_id, kind), clear),
        call_ensures(SQLiteBackend::<T>::get_signal, (b, Some(row), now), read),
    ensures
        r is Err <==> status@ == "Completed"@ || status@ == "Failed"@ || (status@ == "Cancelled"@
            && kind == SignalKind::Pause),
        r is Err && kind == SignalKind::Cancel ==> r->Err_0@ == BackendFault::CannotCancel(status@),
        r is Err && kind == SignalKind::Pause ==> r->Err_0@ == BackendFault::CannotPause(status@),
        ({
            let name = match kind {
                SignalKind::Cancel => "Cancel"@,
                SignalKind::Pause => "Pause"@,
            };
            &&& r is Ok ==> r->Ok_0@.args.len() == 4 && r->Ok_0@.args[0] == SqlVal::Text(
                instance_id@,
            ) && r->Ok_0@.args[1] == SqlVal::Text(name) && column_is(
                r->Ok_0@.args[2],
                request@.reason,
            ) && column_is(r->Ok_0@.args[3], request@.requested_by)
            &&& select@.args == seq![SqlVal::Text(instance_id@), SqlVal::Text(name)]
            &&& clear@.args == seq![SqlVal::Text(instance_id@), SqlVal::Text(name)]
        }),
        row.created_at is Some ==> read is Ok && read->Ok_0 is Some && read->Ok_0->0@.reason
            == text::opt_text(row.reason) && read->Ok_0->0@.requested_by == text::opt_text(
            row.requested_by,
        ),
{
    if exists|k: SnapshotStatus|
        dynamodb_store::refused(k, kind) && status@ == #[trigger] snapshot::status_name(k) {
    }
    assert(snapshot::status_name(SnapshotStatus::Completed) == "Completed"@);
    assert(snapshot::status_name(SnapshotStatus::Failed) == "Failed"@);
    assert(snapshot::status_name(SnapshotStatus::Cancelled) == "Cancelled"@);
}

/// An event is inserted for its instance and signal, with its payload, and asked for by the
/// same; a row that is consumed gives its payload and is deleted by its id.
pub proof fn law_event_is_inserted_and_consumed<T>(
    b: &SQLiteBackend<T>,
    instance_id: &str,
    signal_name: &str,
    payload: Vec<u8>,
    id: i64,
    insert: Statement,
    select: Statement,
    got: Vec<u8>,
    r: Result<Option<(Vec<u8>, Statement)>, BackendError>,
    none: Result<Option<(Vec<u8>, Statement)>, BackendError>,
)
    requires
        call_ensures(
            SQLiteBackend::<T>::send_event,
            (b, instance_id, signal_name, payload),
            insert,
        ),
        call_ensures(SQLiteBackend::<T>::event_statement, (b, instance_id, signal_name), select),
        call_ensures(SQLiteBackend::<T>::consume_event, (b, Some((Some(id), Some(got)))), r),
        call_ensures(
            SQLiteBackend::<T>::consume_event,
            (b, None::<(Option<i64>, Option<Vec<u8>>)>),
            none,
        ),
    ensures
        insert@.args.len() == 3,
        insert@.args[0] == SqlVal::Text(instance_id@),
        insert@.args[1] == SqlVal::Text(signal_name@),
        insert@.args[2] == SqlVal::Blob(payload@),
        select@.args == seq![SqlVal::Text(instance_id@), SqlVal::Text(signal_name@)],
        r is Ok && r->Ok_0 is Some && (r->Ok_0->0).0@ == got@,
        (r->Ok_0->0).1@.args == seq![SqlVal::Integer(id)],
        none is Ok && none->Ok_0 is None,
{
}

/// The query for instances that should be driven on is bound to the age and the limit that it
/// is given.
pub proof fn law_resumable_query_is_bound<T>(
    b: &SQLiteBackend<T>,
    stale_after_seconds: u32,
    limit: u32,
    r: Statement,
)
    requires
        call_ensures(
            SQLiteBackend::<T>::find_resumable_instances,
            (b, stale_after_seconds, limit),
            r,
        ),
    ensures
        r@.args.len() == 2,
        r@.args[0] == SqlVal::Integer(stale_after_seconds as i64),
        r@.args[1] == SqlVal::Integer(limit as i64),
{
}

/// The migration that comes next is the first that the database lacks, and once it is done
/// its version is stored; a column that was there already is no error, and every other one is.
pub proof fn law_migrations_run_in_turn(
    migrations: &Vec<Migration>,
    current: i64,
    from: usize,
    r: Option<usize>,
    version: u32,
    outcome: Result<(), String>,
    done: Result<Statement, BackendError>,
)
    requires
        call_ensures(next_migration, (migrations, current, from), r),
        call_ensures(migration_done, (version, outcome), done),
    ensures
        r is None <==> forall|k: int|
            #![trigger migrations@[k]]
            from <= k < migrations@.len() ==> migrations@[k].version <= current,
        r matches Some(i) ==> from <= i < migrations@.len() && migrations@[i as int].version
            > current && forall|k: int|
            #![trigger migrations@[k]]
            from <= k < i ==> migrations@[k].version <= current,
        outcome is Ok ==> done is Ok,
        done is Ok ==> done->Ok_0@.args == seq![SqlVal::Integer(version as i64)],
        outcome matches Err(e) ==> (done is Ok <==> exists|a: Seq<char>, z: Seq<char>|
            e@ == #[trigger] (a + "duplicate column name"@ + z)),
{
    let v = sqlite_backend::versions_of(migrations@);
    sqlite_backend::law_migrated_database_lacks_nothing(v, current, from as nat);
    assert forall|k: int| #![trigger migrations@[k]] 0 <= k < migrations@.len() implies v[k]
        == migrations@[k].version by {
    }
    if forall|k: int|
        #![trigger migrations@[k]]
        from <= k < migrations@.len() ==> migrations@[k].version <= current {
        assert forall|k: int| from <= k < v.len() implies #[trigger] v[k] <= current by {
            assert(migrations@[k].version <= current);
        }
    }
    if let Err(e) = outcome {
        let p = "duplicate column name"@;
        if sqlite_backend::holds_text(e@, p) {
            let i = choose|i: int|
                0 <= i <= e@.len() - p.len() && #[trigger] e@.subrange(i, i + p.len()) == p;
            let a = e@.take(i);
            let z = e@.skip(i + p.len());
            assert(e@ =~= a + p + z);
        }
        if exists|a: Seq<char>, z: Seq<char>| e@ == #[trigger] (a + p + z) {
            let (a, z) = choose|a: Seq<char>, z: Seq<char>| e@ == #[trigger] (a + p + z);
            let i = a.len() as int;
            assert(e@.subrange(i, i + p.len()) =~= p);
        }
    }
}

/// The row of a workflow that has ended gets the time of the end; that of any other keeps the
/// one it has, and starts without one.
pub proof fn law_end_is_stamped<T>(
    b: &SQLiteBackend<T>,
    s: &WorkflowSnapshot,
    data: &Vec<u8>,
    r: (Statement, Statement),
)
    requires
        call_ensures(SQLiteBackend::<T>::save_snapshot, (b, s, data), r),
    ensures
        ({
            let ended = s@.state is Completed || s@.state is Failed || s@.state is Cancelled;
            let sql = r.0@.sql;
            let now = sqlite_backend::SQL_NOW@;
            let new_row = sqlite_backend::UPSERT_HEAD@;
            let old_row = sqlite_backend::UPSERT_MIDDLE@;
            let tail = " THEN "@ + now + sqlite_backend::UPSERT_TAIL@ + now;
            &&& ended ==> (new_row + now + ", "@).is_prefix_of(sql)
            &&& !ended ==> (new_row + "NULL"@ + ", "@).is_prefix_of(sql)
            &&& ended ==> (old_row + "1"@ + tail).is_suffix_of(sql)
            &&& !ended ==> (old_row + "0"@ + tail).is_suffix_of(sql)
        }),
{
    let ended = s@.state is Completed || s@.state is Failed || s@.state is Cancelled;
    let sql = r.0@.sql;
    let now = sqlite_backend::SQL_NOW@;
    let tail = " THEN "@ + now + sqlite_backend::UPSERT_TAIL@ + now;
    let a = if ended {
        now
    } else {
        "NULL"@
    };
    let z = if ended {
        "1"@
    } else {
        "0"@
    };
    let head = sqlite_backend::UPSERT_HEAD@ + a + ", "@;
    let rest = sqlite_backend::UPSERT_MIDDLE@ + z + tail;
    assert(sql =~= head + (now + rest));
    assert(sql =~= (head + now) + rest);
    assert(sql.subrange(0, head.len() as int) =~= head);
    assert(sql.subrange(sql.len() - rest.len(), sql.len() as int) =~= rest);
}

} // verus!
