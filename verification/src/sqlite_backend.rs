//! Snapshots, history, signals and events in SQL tables.
//!
//! At most one writer at a time works on a workflow instance. The functions here say
//! which statements to run, and what the rows that come back mean; running them is left
//! to the caller.
use crate::backend_error::{BackendError, BackendFault};
use crate::codec::{CodecIdentity, DecodeValue, EncodeValue};
use crate::continuation;
use crate::dynamodb_store;
use crate::dynamodb_store::validate_signal_allowed;
use crate::error::BoxError;
use crate::hash32::TaskId;
use crate::snapshot;
use crate::snapshot::{SignalKind, SignalRequest, Snap, SnapshotStatus, WorkflowSnapshot};
use crate::snapshot_format;
use crate::snapshot_format::{decode_framed, encode_framed, CodecId};
use crate::task_index;
use crate::text;
use crate::text::{clone_bytes, concat, concat3, decimal_text};
use crate::time;
use crate::time::Timestamp;
use vstd::prelude::*;

verus! {

/// A value that is bound to a parameter of a statement.
#[derive(Debug)]
pub enum SqlValue {
    /// Text.
    Text(String),
    /// An integer.
    Integer(i64),
    /// Bytes.
    Blob(Vec<u8>),
    /// No value.
    Null,
}

/// The contents of a [`SqlValue`].
pub enum SqlVal {
    Text(Seq<char>),
    Integer(i64),
    Blob(Seq<u8>),
    Null,
}

impl View for SqlValue {
    type V = SqlVal;

    open spec fn view(&self) -> SqlVal {
        match *self {
            SqlValue::Text(s) => SqlVal::Text(s@),
            SqlValue::Integer(n) => SqlVal::Integer(n),
            SqlValue::Blob(b) => SqlVal::Blob(b@),
            SqlValue::Null => SqlVal::Null,
        }
    }
}

/// A statement with the values of its parameters, in order.
pub struct Statement {
    /// The text of the statement.
    pub sql: String,
    /// The values of its parameters.
    pub args: Vec<SqlValue>,
}

/// The contents of a [`Statement`].
pub struct StatementSpec {
    pub sql: Seq<char>,
    pub args: Seq<SqlVal>,
}

/// The contents of a list of values.
pub open spec fn sql_vals(v: Seq<SqlValue>) -> Seq<SqlVal> {
    Seq::new(v.len(), |i: int| v[i]@)
}

impl View for Statement {
    type V = StatementSpec;

    open spec fn view(&self) -> StatementSpec {
        StatementSpec { sql: self.sql@, args: sql_vals(self.args@) }
    }
}

/// A text, or no value.
pub open spec fn text_or_null(o: Option<Seq<char>>) -> SqlVal {
    match o {
        Some(s) => SqlVal::Text(s),
        None => SqlVal::Null,
    }
}

/// A text as a value.
fn text_value(s: &str) -> (r: SqlValue)
    ensures
        r@ == SqlVal::Text(s@),
{
    SqlValue::Text(String::from_str(s))
}

/// A text, or no value.
fn opt_text_value(o: Option<&str>) -> (r: SqlValue)
    ensures
        r@ == text_or_null(continuation::opt_str(o)),
{
    match o {
        Some(s) => SqlValue::Text(String::from_str(s)),
        None => SqlValue::Null,
    }
}

/// A statement with no more than three parameters.
fn statement3(sql: &str, a: SqlValue, b: SqlValue, c: SqlValue) -> (r: Statement)
    ensures
        r@ == (StatementSpec { sql: sql@, args: seq![a@, b@, c@] }),
{
    let mut args: Vec<SqlValue> = Vec::new();
    args.push(a);
    args.push(b);
    args.push(c);
    proof {
        assert(sql_vals(args@) =~= seq![a@, b@, c@]);
    }
    Statement { sql: String::from_str(sql), args }
}

/// A statement with two parameters.
fn statement2(sql: &str, a: SqlValue, b: SqlValue) -> (r: Statement)
    ensures
        r@ == (StatementSpec { sql: sql@, args: seq![a@, b@] }),
{
    let mut args: Vec<SqlValue> = Vec::new();
    args.push(a);
    args.push(b);
    proof {
        assert(sql_vals(args@) =~= seq![a@, b@]);
    }
    Statement { sql: String::from_str(sql), args }
}

/// A statement with one parameter.
fn statement1(sql: &str, a: SqlValue) -> (r: Statement)
    ensures
        r@ == (StatementSpec { sql: sql@, args: seq![a@] }),
{
    let mut args: Vec<SqlValue> = Vec::new();
    args.push(a);
    proof {
        assert(sql_vals(args@) =~= seq![a@]);
    }
    Statement { sql: String::from_str(sql), args }
}

/// A statement without parameters.
fn statement0(sql: &str) -> (r: Statement)
    ensures
        r@ == (StatementSpec { sql: sql@, args: seq![] }),
{
    let args: Vec<SqlValue> = Vec::new();
    proof {
        assert(sql_vals(args@) =~= seq![]);
    }
    Statement { sql: String::from_str(sql), args }
}

/// The time of the database.
pub const SQL_NOW: &'static str = "strftime('%Y-%m-%dT%H:%M:%fZ','now')";

/// The upsert of a snapshot up to the time of completion.
pub const UPSERT_HEAD: &'static str = "INSERT INTO sayiir_workflow_snapshots
                (instance_id, status, definition_hash, current_task_id,
                 completed_task_count, data, error, position_kind, delay_wake_at,
                 trace_parent, awaited_signal_name, completed_at, updated_at)
             VALUES (?1, ?2, ?3, ?4, ?5, ?6, ?7, ?8, ?9, ?10, ?11,
                     ";

/// The upsert of a snapshot from the time of update on.
pub const UPSERT_MIDDLE: &'static str = ")
             ON CONFLICT (instance_id) DO UPDATE SET
                status = ?2,
                definition_hash = ?3,
                current_task_id = ?4,
                completed_task_count = ?5,
                data = ?6,
                error = ?7,
                position_kind = ?8,
                delay_wake_at = ?9,
                trace_parent = ?10,
                awaited_signal_name = ?11,
                completed_at = CASE WHEN ";

/// The upsert of a snapshot after the new time of completion.
pub const UPSERT_TAIL: &'static str = " ELSE sayiir_workflow_snapshots.completed_at END,
                updated_at = ";

/// The insertion of a history entry under the next version.
pub const HISTORY_SQL: &'static str = "INSERT INTO sayiir_workflow_snapshot_history
                (instance_id, version, status, current_task_id, data)
             VALUES (
                ?1,
                (SELECT COALESCE(MAX(version), 0) + 1
                 FROM sayiir_workflow_snapshot_history WHERE instance_id = ?1),
                ?2, ?3, ?4
             )";

/// The query for a snapshot.
pub const LOAD_SQL: &'static str = "SELECT data, trace_parent FROM sayiir_workflow_snapshots WHERE instance_id = ?1";

/// The deletion of a snapshot.
pub const DELETE_SQL: &'static str = "DELETE FROM sayiir_workflow_snapshots WHERE instance_id = ?1";

/// The query for the ids of all snapshots.
pub const LIST_SQL: &'static str = "SELECT instance_id FROM sayiir_workflow_snapshots";

/// The query for the status of a snapshot.
pub const STATUS_SQL: &'static str = "SELECT status FROM sayiir_workflow_snapshots WHERE instance_id = ?1";

/// The upsert of a signal.
pub const SIGNAL_UPSERT_SQL: &'static str = "INSERT INTO sayiir_workflow_signals (instance_id, kind, reason, requested_by)
             VALUES (?1, ?2, ?3, ?4)
             ON CONFLICT (instance_id, kind) DO UPDATE SET
                reason = ?3, requested_by = ?4,
                created_at = strftime('%Y-%m-%dT%H:%M:%fZ','now')";

/// The query for a signal.
pub const SIGNAL_SELECT_SQL: &'static str = "SELECT reason, requested_by, created_at
             FROM sayiir_workflow_signals
             WHERE instance_id = ?1 AND kind = ?2";

/// The deletion of a signal.
pub const SIGNAL_DELETE_SQL: &'static str = "DELETE FROM sayiir_workflow_signals WHERE instance_id = ?1 AND kind = ?2";

/// The insertion of an event.
pub const EVENT_INSERT_SQL: &'static str = "INSERT INTO sayiir_workflow_events (instance_id, signal_name, payload)
             VALUES (?1, ?2, ?3)";

/// The query for the oldest event of a signal.
pub const EVENT_SELECT_SQL: &'static str = "SELECT id, payload FROM sayiir_workflow_events
             WHERE instance_id = ?1 AND signal_name = ?2
             ORDER BY id ASC LIMIT 1";

/// The deletion of an event.
pub const EVENT_DELETE_SQL: &'static str = "DELETE FROM sayiir_workflow_events WHERE id = ?1";

/// The query for instances that should be driven on, up to the status of those.
pub const RESUMABLE_HEAD: &'static str = "SELECT s.instance_id FROM sayiir_workflow_snapshots s
             WHERE s.status = '";

/// The query for instances that should be driven on, up to the time that a parked one is
/// due at.
pub const RESUMABLE_DUE: &'static str = "'
               AND (
                 (s.delay_wake_at IS NOT NULL AND s.delay_wake_at <= ";

/// The query for instances that should be driven on, up to the time that a stale one was
/// updated at.
pub const RESUMABLE_STALE: &'static str = ")
                 OR
                 (s.position_kind = 'AtSignal'
                  AND s.awaited_signal_name IS NOT NULL
                  AND EXISTS (SELECT 1 FROM sayiir_workflow_events e
                              WHERE e.instance_id = s.instance_id
                                AND e.signal_name = s.awaited_signal_name))
                 OR
                 (s.delay_wake_at IS NULL
                  AND (s.position_kind IS NULL
                       OR s.position_kind IN ('AtTask', 'AtJoin', 'InLoop', 'NotStarted'))
                  AND s.updated_at <= ";

/// The time of the database, so many seconds ago.
pub const SQL_SECONDS_AGO: &'static str = "strftime('%Y-%m-%dT%H:%M:%fZ','now','-' || ?1 || ' seconds')";

/// The end of the query for instances that should be driven on: the oldest come first.
pub const RESUMABLE_TAIL: &'static str = ")
               )
             ORDER BY s.updated_at ASC
             LIMIT ?2";

/// The query for instances that should be driven on: parked ones whose time has come,
/// signalled ones, and stale ones that were executing, the oldest first. Times are
/// compared in the form in which the columns hold them.
pub open spec fn resumable_text(status: Seq<char>) -> Seq<char> {
    RESUMABLE_HEAD@ + status + RESUMABLE_DUE@ + SQL_NOW@ + RESUMABLE_STALE@ + SQL_SECONDS_AGO@
        + RESUMABLE_TAIL@
}

/// The creation of the table that holds the schema version.
pub const VERSION_TABLE_SQL: &'static str = "CREATE TABLE IF NOT EXISTS sayiir_schema_version (
                 id      INTEGER PRIMARY KEY CHECK (id = 1),
                 version INTEGER NOT NULL
             )";

/// The first schema version.
pub const VERSION_SEED_SQL: &'static str = "INSERT OR IGNORE INTO sayiir_schema_version (id, version) VALUES (1, 0)";

/// The query for the schema version.
pub const VERSION_SELECT_SQL: &'static str = "SELECT version FROM sayiir_schema_version WHERE id = 1";

/// The change of the schema version.
pub const VERSION_UPDATE_SQL: &'static str = "UPDATE sayiir_schema_version SET version = ?1 WHERE id = 1";

/// The text of the upsert of a snapshot. The time of completion is set for a workflow
/// that has ended, and else kept.
pub open spec fn upsert_text(terminal: bool) -> Seq<char> {
    UPSERT_HEAD@ + (if terminal {
        SQL_NOW@
    } else {
        "NULL"@
    }) + ", "@ + SQL_NOW@ + UPSERT_MIDDLE@ + (if terminal {
        "1"@
    } else {
        "0"@
    }) + " THEN "@ + SQL_NOW@ + UPSERT_TAIL@ + SQL_NOW@
}

/// The text of the upsert of a snapshot.
pub fn upsert_sql(terminal: bool) -> (r: String)
    ensures
        r@ == upsert_text(terminal),
{
    let mut s = String::from_str(UPSERT_HEAD);
    if terminal {
        s.append(SQL_NOW);
    } else {
        s.append("NULL");
    }
    s.append(", ");
    s.append(SQL_NOW);
    s.append(UPSERT_MIDDLE);
    if terminal {
        s.append("1");
    } else {
        s.append("0");
    }
    s.append(" THEN ");
    s.append(SQL_NOW);
    s.append(UPSERT_TAIL);
    s.append(SQL_NOW);
    s
}

/// The text of an optional instant in a text column.
pub open spec fn opt_column_text(o: Option<Timestamp>) -> Option<Seq<char>> {
    match o {
        Some(t) => Some(time::column_text(t.parts().0, t.parts().1)),
        None => None,
    }
}

/// The text of an optional instant in a text column.
pub fn dt_to_sqlite(dt: Option<Timestamp>) -> (r: Option<String>)
    ensures
        text::opt_text(r) == opt_column_text(dt),
{
    match dt {
        Some(t) => Some(t.to_column_text()),
        None => None,
    }
}

/// The column of the task that a workflow is at: the digest of its id.
pub open spec fn task_column(o: Option<Seq<char>>) -> Option<Seq<char>> {
    match o {
        Some(id) => Some(task_index::digest_key(task_index::id_digest(id))),
        None => None,
    }
}

/// The values of the upsert of a snapshot.
pub open spec fn upsert_args(s: Snap, data: Seq<u8>) -> Seq<SqlVal> {
    seq![
        SqlVal::Text(s.instance_id),
        SqlVal::Text(snapshot::status_name(snapshot::status_of(s.state))),
        SqlVal::Text(s.definition_hash),
        text_or_null(task_column(snapshot::task_at(s.state))),
        SqlVal::Integer(snapshot::result_count(s.state) as i64),
        SqlVal::Blob(data),
        text_or_null(snapshot::error_of(s.state)),
        text_or_null(snapshot::position_name_of(s.state)),
        text_or_null(opt_column_text(snapshot::wake_time(s.state))),
        text_or_null(s.trace_parent),
        text_or_null(snapshot::awaited_signal(s.state)),
    ]
}

/// The values of the insertion of a history entry.
pub open spec fn history_args(s: Snap, data: Seq<u8>) -> Seq<SqlVal> {
    seq![
        SqlVal::Text(s.instance_id),
        SqlVal::Text(snapshot::status_name(snapshot::status_of(s.state))),
        text_or_null(task_column(snapshot::task_at(s.state))),
        SqlVal::Blob(data),
    ]
}

/// The column of the task that a workflow is at.
fn task_id_column(s: &WorkflowSnapshot) -> (r: SqlValue)
    ensures
        r@ == text_or_null(task_column(snapshot::task_at(s@.state))),
{
    match s.current_task_id() {
        Some(id) => SqlValue::Text(TaskId::from(id).to_hex()),
        None => SqlValue::Null,
    }
}

/// A backend on a connection.
pub struct SQLiteBackend<T> {
    /// The connection.
    pub connection: T,
}

/// The row of a signal.
pub struct SignalRow {
    /// The reason, if any.
    pub reason: Option<String>,
    /// Who sent the signal, if known.
    pub requested_by: Option<String>,
    /// The column with the time at which it was stored.
    pub created_at: Option<String>,
}

/// What encoding a snapshot came to: the frame of what the codec made of it, or its
/// error.
pub open spec fn encoded_frame<C: EncodeValue<WorkflowSnapshot> + CodecIdentity>(
    codec: C,
    s: WorkflowSnapshot,
    r: Result<Vec<u8>, BackendError>,
) -> bool {
    match r {
        Ok(b) => exists|payload: Vec<u8>, id: CodecId|
            #![trigger call_ensures(C::encode_value, (&codec, &s), Ok(payload)),
                call_ensures(C::codec_id, (&codec,), id)]
            call_ensures(C::encode_value, (&codec, &s), Ok(payload)) && call_ensures(
                C::codec_id,
                (&codec,),
                id,
            ) && b@ == snapshot_format::framed(id, payload@),
        Err(f) => exists|e: BoxError|
            #[trigger] call_ensures(C::encode_value, (&codec, &s), Err(e)) && f@
                == BackendFault::Serialization(e.message@),
    }
}

/// What decoding a stored blob came to: a blob that is not framed by the codec is an
/// error, else its payload is what the codec got.
pub open spec fn decoded_frame<C: DecodeValue<WorkflowSnapshot> + CodecIdentity>(
    codec: C,
    data: Seq<u8>,
    r: Result<WorkflowSnapshot, BackendError>,
) -> bool {
    exists|id: CodecId| #[trigger]
        call_ensures(C::codec_id, (&codec,), id) && (match snapshot_format::unframed_as(data, id) {
            Err(e) => r is Err && r->Err_0@ == BackendFault::Serialization(
                snapshot_format::format_text(e),
            ),
            Ok((_, p)) => exists|payload: &[u8], d: Result<WorkflowSnapshot, BoxError>|
                payload@ == p && #[trigger] call_ensures(C::decode_value, (&codec, payload), d) && (
                match d {
                    Ok(s) => r == Ok::<WorkflowSnapshot, BackendError>(s),
                    Err(e) => r is Err && r->Err_0@ == BackendFault::Serialization(e.message@),
                }),
        })
}

impl<T> SQLiteBackend<T> {
    /// A handle of the connection.
    pub fn exec(&self) -> (r: T) where T: Clone
        ensures
            cloned(self.connection, r),
    {
        self.connection.clone()
    }

    /// Encode a snapshot into a framed blob.
    pub fn encode<C: EncodeValue<WorkflowSnapshot> + CodecIdentity>(
        &self,
        codec: &C,
        s: &WorkflowSnapshot,
    ) -> (r: Result<Vec<u8>, BackendError>)
        ensures
            encoded_frame(*codec, *s, r),
    {
        match encode_framed(codec, s) {
            Ok(b) => Ok(b),
            Err(e) => Err(BackendError::Serialization(e.message)),
        }
    }

    /// Decode a snapshot from a framed blob.
    pub fn decode<C: DecodeValue<WorkflowSnapshot> + CodecIdentity>(
        &self,
        codec: &C,
        data: &[u8],
    ) -> (r: Result<WorkflowSnapshot, BackendError>)
        ensures
            decoded_frame(*codec, data@, r),
    {
        match decode_framed(codec, data) {
            Ok(s) => Ok(s),
            Err(e) => Err(BackendError::Serialization(e.message)),
        }
    }

    /// The statements that store a snapshot of which `data` is the encoded form: the
    /// upsert, and the history entry.
    pub fn save_snapshot(&self, s: &WorkflowSnapshot, data: &Vec<u8>) -> (r: (
        Statement,
        Statement,
    ))
        ensures
            r.0@ == (StatementSpec {
                sql: upsert_text(snapshot::terminal_state(s@.state)),
                args: upsert_args(s@, data@),
            }),
            r.1@ == (StatementSpec { sql: HISTORY_SQL@, args: history_args(s@, data@) }),
    {
        let mut args: Vec<SqlValue> = Vec::new();
        args.push(text_value(s.instance_id.as_str()));
        args.push(text_value(s.state.as_ref()));
        args.push(text_value(s.definition_hash.as_str()));
        args.push(task_id_column(s));
        args.push(SqlValue::Integer(s.completed_task_count() as i64));
        args.push(SqlValue::Blob(clone_bytes(data)));
        args.push(opt_text_value(s.error_message()));
        args.push(opt_text_value(s.position_kind()));
        match dt_to_sqlite(s.delay_wake_at()) {
            Some(t) => {
                args.push(SqlValue::Text(t));
            },
            None => {
                args.push(SqlValue::Null);
            },
        }
        match &s.trace_parent {
            Some(t) => {
                args.push(text_value(t.as_str()));
            },
            None => {
                args.push(SqlValue::Null);
            },
        }
        args.push(opt_text_value(s.awaited_signal_name()));
        proof {
            assert(sql_vals(args@) =~= upsert_args(s@, data@));
        }
        let upsert = Statement { sql: upsert_sql(s.state.is_terminal()), args };
        let mut entry: Vec<SqlValue> = Vec::new();
        entry.push(text_value(s.instance_id.as_str()));
        entry.push(text_value(s.state.as_ref()));
        entry.push(task_id_column(s));
        entry.push(SqlValue::Blob(clone_bytes(data)));
        proof {
            assert(sql_vals(entry@) =~= history_args(s@, data@));
        }
        (upsert, Statement { sql: String::from_str(HISTORY_SQL), args: entry })
    }

    /// A loaded snapshot to which a task result is added.
    pub fn save_task_result(
        &self,
        loaded: WorkflowSnapshot,
        task_id: &str,
        output: Vec<u8>,
        now: Timestamp,
    ) -> (r: WorkflowSnapshot)
        ensures
            r@ == snapshot::with_result(
                loaded@,
                task_id@,
                output@,
                time::unsigned_secs(now.parts().0),
            ),
    {
        let mut s = loaded;
        s.mark_task_completed_at(String::from_str(task_id), output, now);
        s
    }

    /// The query for a snapshot.
    pub fn load_statement(&self, instance_id: &str) -> (r: Statement)
        ensures
            r@ == (StatementSpec { sql: LOAD_SQL@, args: seq![SqlVal::Text(instance_id@)] }),
    {
        statement1(LOAD_SQL, text_value(instance_id))
    }

    /// The snapshot in a row of blob and trace header. The header is kept beside the
    /// blob.
    pub fn load_snapshot<C: DecodeValue<WorkflowSnapshot> + CodecIdentity>(
        &self,
        codec: &C,
        instance_id: &str,
        row: Option<(Vec<u8>, Option<String>)>,
    ) -> (r: Result<WorkflowSnapshot, BackendError>)
        ensures
            match row {
                None => r is Err && r->Err_0@ == BackendFault::NotFound(instance_id@),
                Some((data, trace_parent)) => exists|d: Result<WorkflowSnapshot, BackendError>|
                 #[trigger]
                    decoded_frame(*codec, data@, d) && (match d {
                        Ok(s) => r is Ok && r->Ok_0@ == (Snap {
                            trace_parent: text::opt_text(trace_parent),
                            ..s@
                        }),
                        Err(e) => r is Err && r->Err_0 == e,
                    }),
            },
    {
        match row {
            None => Err(BackendError::NotFound(String::from_str(instance_id))),
            Some((data, trace_parent)) => {
                let d = self.decode(codec, data.as_slice());
                proof {
                    assert(decoded_frame(*codec, data@, d));
                }
                match d {
                    Ok(s) => {
                        let mut s = s;
                        s.trace_parent = trace_parent;
                        Ok(s)
                    },
                    Err(e) => Err(e),
                }
            },
        }
    }

    /// The deletion of a snapshot.
    pub fn delete_statement(&self, instance_id: &str) -> (r: Statement)
        ensures
            r@ == (StatementSpec { sql: DELETE_SQL@, args: seq![SqlVal::Text(instance_id@)] }),
    {
        statement1(DELETE_SQL, text_value(instance_id))
    }

    /// What the deletion of a snapshot came to.
    pub fn delete_snapshot(&self, instance_id: &str, rows_affected: u64) -> (r: Result<
        (),
        BackendError,
    >)
        ensures
            (r is Ok) == (rows_affected >= 1),
            r matches Err(e) ==> e@ == BackendFault::NotFound(instance_id@),
    {
        if rows_affected < 1 {
            return Err(BackendError::NotFound(String::from_str(instance_id)));
        }
        Ok(())
    }

    /// The query for the ids of all snapshots.
    pub fn list_snapshots(&self) -> (r: Statement)
        ensures
            r@ == (StatementSpec { sql: LIST_SQL@, args: seq![] }),
    {
        statement0(LIST_SQL)
    }

    /// The query for instances that should be driven on.
    pub fn find_resumable_instances(&self, stale_after_seconds: u32, limit: u32) -> (r: Statement)
        ensures
            r@ == (StatementSpec {
                sql: resumable_text(snapshot::status_name(SnapshotStatus::InProgress)),
                args: seq![
                    SqlVal::Integer(stale_after_seconds as i64),
                    SqlVal::Integer(limit as i64),
                ],
            }),
    {
        let mut sql = String::from_str(RESUMABLE_HEAD);
        sql.append(SnapshotStatus::InProgress.as_ref());
        sql.append(RESUMABLE_DUE);
        sql.append(SQL_NOW);
        sql.append(RESUMABLE_STALE);
        sql.append(SQL_SECONDS_AGO);
        sql.append(RESUMABLE_TAIL);
        statement2(
            sql.as_str(),
            SqlValue::Integer(stale_after_seconds as i64),
            SqlValue::Integer(limit as i64),
        )
    }

    /// The query for the status of a snapshot.
    pub fn status_statement(&self, instance_id: &str) -> (r: Statement)
        ensures
            r@ == (StatementSpec { sql: STATUS_SQL@, args: seq![SqlVal::Text(instance_id@)] }),
    {
        statement1(STATUS_SQL, text_value(instance_id))
    }

    /// The statement that stores a signal to a workflow whose row of status was read.
    /// A workflow that has ended refuses it.
    pub fn store_signal(
        &self,
        instance_id: &str,
        kind: SignalKind,
        request: &SignalRequest,
        row: Option<Option<String>>,
    ) -> (r: Result<Statement, BackendError>)
        ensures
            match row {
                None => r is Err && r->Err_0@ == BackendFault::NotFound(instance_id@),
                Some(None) => r is Err && r->Err_0@ == BackendFault::Backend(
                    "missing status column"@,
                ),
                Some(Some(status)) => if exists|k: SnapshotStatus|
                    dynamodb_store::refused(k, kind) && status@ == #[trigger] snapshot::status_name(
                        k,
                    ) {
                    r is Err && r->Err_0@ == (match kind {
                        SignalKind::Cancel => BackendFault::CannotCancel(status@),
                        SignalKind::Pause => BackendFault::CannotPause(status@),
                    })
                } else {
                    r is Ok && r->Ok_0@ == (StatementSpec {
                        sql: SIGNAL_UPSERT_SQL@,
                        args: seq![
                            SqlVal::Text(instance_id@),
                            SqlVal::Text(snapshot::signal_name(kind)),
                            text_or_null(request@.reason),
                            text_or_null(request@.requested_by),
                        ],
                    })
                },
            },
    {
        let status = match row {
            None => {
                return Err(BackendError::NotFound(String::from_str(instance_id)));
            },
            Some(None) => {
                return Err(BackendError::Backend(String::from_str("missing status column")));
            },
            Some(Some(s)) => s,
        };
        match validate_signal_allowed(status.as_str(), kind) {
            Ok(()) => {},
            Err(e) => {
                return Err(e);
            },
        }
        let mut args: Vec<SqlValue> = Vec::new();
        args.push(text_value(instance_id));
        args.push(text_value(kind.as_ref()));
        match &request.reason {
            Some(t) => {
                args.push(text_value(t.as_str()));
            },
            None => {
                args.push(SqlValue::Null);
            },
        }
        match &request.requested_by {
            Some(t) => {
                args.push(text_value(t.as_str()));
            },
            None => {
                args.push(SqlValue::Null);
            },
        }
        proof {
            assert(sql_vals(args@) =~= seq![
                SqlVal::Text(instance_id@),
                SqlVal::Text(snapshot::signal_name(kind)),
                text_or_null(request@.reason),
                text_or_null(request@.requested_by),
            ]);
        }
        Ok(Statement { sql: String::from_str(SIGNAL_UPSERT_SQL), args })
    }

    /// The query for a signal.
    pub fn signal_statement(&self, instance_id: &str, kind: SignalKind) -> (r: Statement)
        ensures
            r@ == (StatementSpec {
                sql: SIGNAL_SELECT_SQL@,
                args: seq![
                    SqlVal::Text(instance_id@),
                    SqlVal::Text(snapshot::signal_name(kind)),
                ],
            }),
    {
        statement2(SIGNAL_SELECT_SQL, text_value(instance_id), text_value(kind.as_ref()))
    }

    /// The signal in a row that was read at `now`. A time that cannot be read is taken to
    /// be `now`.
    pub fn get_signal(&self, row: Option<SignalRow>, now: Timestamp) -> (r: Result<
        Option<SignalRequest>,
        BackendError,
    >)
        ensures
            match row {
                None => r is Ok && r->Ok_0 is None,
                Some(s) => match s.created_at {
                    None => r is Err && r->Err_0@ == BackendFault::Backend(
                        "missing created_at column"@,
                    ),
                    Some(t) => {
                        &&& r is Ok && r->Ok_0 is Some
                        &&& r->Ok_0->0@.reason == text::opt_text(s.reason)
                        &&& r->Ok_0->0@.requested_by == text::opt_text(s.requested_by)
                        &&& match time::rfc3339_instant(t@) {
                            Some(p) => r->Ok_0->0@.requested_at.parts() == p,
                            None => r->Ok_0->0@.requested_at == now,
                        }
                    },
                },
            },
    {
        let s = match row {
            Some(s) => s,
            None => {
                return Ok(None);
            },
        };
        let requested_at = match &s.created_at {
            None => {
                return Err(BackendError::Backend(String::from_str("missing created_at column")));
            },
            Some(t) => match Timestamp::parse_from_rfc3339(t.as_str()) {
                Some(p) => p,
                None => now,
            },
        };
        Ok(
            Some(
                SignalRequest { reason: s.reason, requested_by: s.requested_by, requested_at },
            ),
        )
    }

    /// The deletion of a signal.
    pub fn clear_signal(&self, instance_id: &str, kind: SignalKind) -> (r: Statement)
        ensures
            r@ == (StatementSpec {
                sql: SIGNAL_DELETE_SQL@,
                args: seq![
                    SqlVal::Text(instance_id@),
                    SqlVal::Text(snapshot::signal_name(kind)),
                ],
            }),
    {
        statement2(SIGNAL_DELETE_SQL, text_value(instance_id), text_value(kind.as_ref()))
    }

    /// The insertion of an event.
    pub fn send_event(&self, instance_id: &str, signal_name: &str, payload: Vec<u8>) -> (r:
        Statement)
        ensures
            r@ == (StatementSpec {
                sql: EVENT_INSERT_SQL@,
                args: seq![
                    SqlVal::Text(instance_id@),
                    SqlVal::Text(signal_name@),
                    SqlVal::Blob(payload@),
                ],
            }),
    {
        statement3(
            EVENT_INSERT_SQL,
            text_value(instance_id),
            text_value(signal_name),
            SqlValue::Blob(payload),
        )
    }

    /// The query for the oldest event of a signal.
    pub fn event_statement(&self, instance_id: &str, signal_name: &str) -> (r: Statement)
        ensures
            r@ == (StatementSpec {
                sql: EVENT_SELECT_SQL@,
                args: seq![SqlVal::Text(instance_id@), SqlVal::Text(signal_name@)],
            }),
    {
        statement2(EVENT_SELECT_SQL, text_value(instance_id), text_value(signal_name))
    }

    /// What the oldest event comes to, given its row of id and payload: the payload,
    /// and the deletion to run before it is handed out.
    pub fn consume_event(&self, row: Option<(Option<i64>, Option<Vec<u8>>)>) -> (r: Result<
        Option<(Vec<u8>, Statement)>,
        BackendError,
    >)
        ensures
            match row {
                None => r is Ok && r->Ok_0 is None,
                Some((_, None)) => r is Err && r->Err_0@ == BackendFault::Backend(
                    "missing payload column"@,
                ),
                Some((None, Some(_))) => r is Err && r->Err_0@ == BackendFault::Backend(
                    "missing id column"@,
                ),
                Some((Some(id), Some(payload))) => r is Ok && r->Ok_0 is Some && (r->Ok_0->0).0
                    == payload && (r->Ok_0->0).1@ == (StatementSpec {
                    sql: EVENT_DELETE_SQL@,
                    args: seq![SqlVal::Integer(id)],
                }),
            },
    {
        match row {
            None => Ok(None),
            Some((id, payload)) => match payload {
                None => Err(BackendError::Backend(String::from_str("missing payload column"))),
                Some(p) => match id {
                    None => Err(BackendError::Backend(String::from_str("missing id column"))),
                    Some(n) => Ok(Some((p, statement1(EVENT_DELETE_SQL, SqlValue::Integer(n))))),
                },
            },
        }
    }
}

/// A versioned change of the schema.
pub struct Migration {
    /// The schema version after it.
    pub version: u32,
    /// The text of the change.
    pub sql: String,
}

/// Where running the migrations failed.
#[derive(Debug, Clone, Copy, PartialEq, Eq, Structural)]
pub enum MigrationStep {
    /// Creating the table that holds the schema version.
    Create,
    /// Storing the first schema version.
    Seed,
    /// Reading the schema version.
    Read,
    /// Decoding the schema version.
    Decode,
    /// Changing the schema version to this one.
    Bump(u32),
}

/// What an error of a step says.
pub open spec fn step_text(step: MigrationStep, e: Seq<char>) -> Seq<char> {
    (match step {
        MigrationStep::Create => "create sayiir_schema_version: "@,
        MigrationStep::Seed => "seed sayiir_schema_version: "@,
        MigrationStep::Read => "read schema version: "@,
        MigrationStep::Decode => "decode schema version: "@,
        MigrationStep::Bump(v) => "bump schema version to "@ + text::decimal(v as nat) + ": "@,
    }) + e
}

/// The error of a step of the migrations.
pub fn migration_error(step: MigrationStep, e: &str) -> (r: BackendError)
    ensures
        r@ == BackendFault::Backend(step_text(step, e@)),
{
    let prefix = match step {
        MigrationStep::Create => String::from_str("create sayiir_schema_version: "),
        MigrationStep::Seed => String::from_str("seed sayiir_schema_version: "),
        MigrationStep::Read => String::from_str("read schema version: "),
        MigrationStep::Decode => String::from_str("decode schema version: "),
        MigrationStep::Bump(v) => concat3(
            "bump schema version to ",
            decimal_text(v as u128).as_str(),
            ": ",
        ),
    };
    BackendError::Backend(concat(prefix.as_str(), e))
}

/// The index of the first migration from the `i`-th on that a database at a version
/// lacks.
pub open spec fn next_due(versions: Seq<u32>, current: i64, i: nat) -> Option<nat>
    decreases versions.len() - i,
{
    if i >= versions.len() {
        None
    } else if versions[i as int] > current {
        Some(i)
    } else {
        next_due(versions, current, i + 1)
    }
}

/// The versions of a list of migrations.
pub open spec fn versions_of(v: Seq<Migration>) -> Seq<u32> {
    Seq::new(v.len(), |i: int| v[i].version)
}

/// The index of the first migration from the `from`-th on that a database at `current`
/// lacks.
pub fn next_migration(migrations: &Vec<Migration>, current: i64, from: usize) -> (r: Option<usize>)
    ensures
        match r {
            Some(i) => next_due(versions_of(migrations@), current, from as nat) == Some(i as nat)
                && i < migrations@.len(),
            None => next_due(versions_of(migrations@), current, from as nat) is None,
        },
{
    let ghost v = versions_of(migrations@);
    let mut i: usize = from;
    while i < migrations.len()
        invariant
            v == versions_of(migrations@),
            next_due(v, current, i as nat) == next_due(v, current, from as nat),
        decreases migrations@.len() - i,
    {
        if migrations[i].version as i64 > current {
            return Some(i);
        }
        i = i + 1;
    }
    None
}

/// A text holds another one.
pub open spec fn holds_text(s: Seq<char>, part: Seq<char>) -> bool {
    exists|i: int|
        0 <= i <= s.len() - part.len() && #[trigger] s.subrange(i, i + part.len()) == part
}

/// Whether a text holds another one.
pub fn contains_str(s: &str, part: &str) -> (r: bool)
    ensures
        r == holds_text(s@, part@),
{
    let n = s.unicode_len();
    let m = part.unicode_len();
    if n < m {
        return false;
    }
    let mut i: usize = 0;
    while i <= n - m
        invariant
            n == s@.len(),
            m == part@.len(),
            m <= n,
            i <= n - m + 1,
            forall|k: int| 0 <= k < i ==> #[trigger] s@.subrange(k, k + m) != part@,
        decreases n - m + 1 - i,
    {
        let mut j: usize = 0;
        let mut same = true;
        while j < m
            invariant
                j <= m,
                m == part@.len(),
                n == s@.len(),
                m <= n,
                i <= n - m,
                same == (forall|k: int| 0 <= k < j ==> s@[i + k] == #[trigger] part@[k]),
            decreases m - j,
        {
            if s.get_char(i + j) != part.get_char(j) {
                same = false;
            }
            j = j + 1;
        }
        if same {
            proof {
                assert(s@.subrange(i as int, i + m) =~= part@);
            }
            return true;
        }
        proof {
            if s@.subrange(i as int, i + m) == part@ {
                assert forall|k: int| 0 <= k < m implies s@[i + k] == #[trigger] part@[k] by {
                    assert(s@.subrange(i as int, i + m)[k] == s@[i + k]);
                }
            }
        }
        if i == n - m {
            return false;
        }
        i = i + 1;
    }
    false
}

/// What running a migration came to: the statement that stores its version. A column
/// that was there already is no error.
pub fn migration_done(version: u32, outcome: Result<(), String>) -> (r: Result<
    Statement,
    BackendError,
>)
    ensures
        match outcome {
            Err(e) if !holds_text(e@, "duplicate column name"@) => r is Err && r->Err_0@
                == BackendFault::Backend(
                "migration "@ + text::decimal(version as nat) + " failed: "@ + e@,
            ),
            _ => r is Ok && r->Ok_0@ == (StatementSpec {
                sql: VERSION_UPDATE_SQL@,
                args: seq![SqlVal::Integer(version as i64)],
            }),
        },
{
    if let Err(e) = outcome {
        if !contains_str(e.as_str(), "duplicate column name") {
            return Err(
                BackendError::Backend(
                    concat(
                        concat3(
                            "migration ",
                            decimal_text(version as u128).as_str(),
                            " failed: ",
                        ).as_str(),
                        e.as_str(),
                    ),
                ),
            );
        }
    }
    Ok(statement1(VERSION_UPDATE_SQL, SqlValue::Integer(version as i64)))
}

/// The migrations that a database at a version lacks are those with a larger version: a
/// database at the largest one lacks none, so running the migrations again does nothing.
pub proof fn law_migrated_database_lacks_nothing(versions: Seq<u32>, current: i64, i: nat)
    ensures
        next_due(versions, current, i) is None == (forall|k: int|
            i <= k < versions.len() ==> #[trigger] versions[k] <= current),
        next_due(versions, current, i) matches Some(j) ==> i <= j < versions.len()
            && versions[j as int] > current && forall|k: int|
            i <= k < j ==> #[trigger] versions[k] <= current,
    decreases versions.len() - i,
{
    if i < versions.len() && versions[i as int] <= current {
        law_migrated_database_lacks_nothing(versions, current, i + 1);
    }
}

/// The query for instances that should be driven on asks for the status under which the
/// upsert stores a workflow in progress, and under which it stores no other.
pub proof fn law_resumable_are_in_progress(s: Snap, data: Seq<u8>)
    ensures
        s.state is InProgress <==> upsert_args(s, data)[1] == SqlVal::Text(
            snapshot::status_name(SnapshotStatus::InProgress),
        ),
        s.state is InProgress <==> snapshot::status_of(s.state) == SnapshotStatus::InProgress,
{
    snapshot::law_status_names_differ(snapshot::status_of(s.state), SnapshotStatus::InProgress);
}

} // verus!
