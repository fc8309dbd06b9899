//! Snapshots, history, signals and events in key-value tables.
//!
//! Three tables share a prefix: `{prefix}_snapshots` holds snapshots, history and
//! signals, `{prefix}_events` the queues of external events, and `{prefix}_claims`
//! the claims of workers. The functions here say what is to be read and written,
//! and what an answer of the store means; sending the requests is left to the
//! caller. Every write of a snapshot carries a version. A composite operation is
//! guarded by the version that was read.
use crate::backend_error::{BackendError, BackendFault, WriteOutcome};
use crate::codec::{DecodeValue, EncodeValue};
use crate::continuation;
use crate::dynamodb_item;
use crate::dynamodb_item::{
    hist_pk, key_item, sig_pk, snap_pk, Guard, GuardSpec, Item, Val, Value, Write, WriteSpec,
};
use crate::error::BoxError;
use crate::snapshot;
use crate::snapshot::{
    ExecutionPosition, PauseRequest, Request, SignalKind, SignalRequest, Snap, SnapshotStatus,
    State, WorkflowSnapshot, WorkflowSnapshotState,
};
use crate::text;
use crate::text::{clone_bytes, concat, concat3, decimal_text, pad_zeros, parse_unsigned};
use crate::time;
use crate::time::Timestamp;
use vstd::prelude::*;

verus! {

/// Name of the index of the snapshots table on status and time of update.
pub const STATUS_UPDATED_INDEX: &'static str = "status-updated-index";

/// How often to look whether a new table has become active.
pub const MAX_TABLE_POLLS: u32 = 60;

/// The names of the tables, and the codec of the snapshots in them.
pub struct DynamoDbBackend<C> {
    /// The codec.
    pub codec: C,
    /// Name of the table of snapshots, history and signals.
    pub snapshots_table: String,
    /// Name of the table of external events.
    pub events_table: String,
    /// Name of the table of claims.
    pub claims_table: String,
}

/// How a key attribute takes part in a key.
#[derive(Debug, Clone, Copy, PartialEq, Eq, Structural)]
pub enum KeyKind {
    /// The partition key.
    Hash,
    /// The sort key.
    Range,
}

/// The schema of a table. All attributes of its keys are strings, and it is billed by
/// request.
pub struct TableSchema {
    /// The name of the table.
    pub name: String,
    /// The attributes of the key.
    pub key: Vec<(&'static str, KeyKind)>,
    /// The attributes that the keys of the table and of its index use.
    pub attributes: Vec<&'static str>,
    /// The index, which holds whole items: its name and the attributes of its key.
    pub index: Option<(&'static str, Vec<(&'static str, KeyKind)>)>,
    /// The attribute that says when an item may be dropped.
    pub ttl_attribute: Option<&'static str>,
    /// What an error of creating the table starts with.
    pub error_prefix: &'static str,
}

/// What is known of a table.
#[derive(Debug)]
pub enum TableLookup {
    /// It is there; whether it is active.
    Found(bool),
    /// It is not there, with the message of the store.
    Missing(String),
    /// The store failed, with a message.
    Failed(String),
}

/// The contents of a list of key attributes.
pub open spec fn key_parts(v: Seq<(&'static str, KeyKind)>) -> Seq<(Seq<char>, KeyKind)> {
    Seq::new(v.len(), |i: int| (v[i].0@, v[i].1))
}

/// Partition key and sort key.
pub open spec fn pair_key(a: Seq<char>, b: Seq<char>) -> Seq<(Seq<char>, KeyKind)> {
    seq![(a, KeyKind::Hash), (b, KeyKind::Range)]
}

/// Partition key and sort key.
fn pair(a: &'static str, b: &'static str) -> (r: Vec<(&'static str, KeyKind)>)
    ensures
        key_parts(r@) == pair_key(a@, b@),
{
    let mut v: Vec<(&'static str, KeyKind)> = Vec::new();
    v.push((a, KeyKind::Hash));
    v.push((b, KeyKind::Range));
    proof {
        assert(key_parts(v@) =~= pair_key(a@, b@));
    }
    v
}

/// What the store has of a table: whether it is there at all.
pub fn table_exists(name: &str, lookup: TableLookup) -> (r: Result<bool, BackendError>)
    ensures
        match lookup {
            TableLookup::Found(_) => r == Ok::<bool, BackendError>(true),
            TableLookup::Missing(_) => r == Ok::<bool, BackendError>(false),
            TableLookup::Failed(e) => r is Err && r->Err_0@ == BackendFault::Backend(
                "describe table "@ + name@ + ": "@ + e@,
            ),
        },
{
    match lookup {
        TableLookup::Found(_) => Ok(true),
        TableLookup::Missing(_) => Ok(false),
        TableLookup::Failed(e) => Err(
            BackendError::Backend(concat(concat3("describe table ", name, ": ").as_str(), e.as_str())),
        ),
    }
}

/// What to do about a table that was just created, after the `polled`-th look at it:
/// `Ok(true)` it is active, `Ok(false)` look again later. A look that fails is an error,
/// and so is one that finds no table.
pub fn wait_for_table(name: &str, polled: u32, lookup: TableLookup) -> (r: Result<
    bool,
    BackendError,
>)
    ensures
        match lookup {
            TableLookup::Found(true) => r == Ok::<bool, BackendError>(true),
            TableLookup::Missing(e) => r is Err && r->Err_0@ == BackendFault::Backend(
                "describe table: "@ + e@,
            ),
            TableLookup::Failed(e) => r is Err && r->Err_0@ == BackendFault::Backend(
                "describe table: "@ + e@,
            ),
            TableLookup::Found(false) => if polled < MAX_TABLE_POLLS {
                r == Ok::<bool, BackendError>(false)
            } else {
                r is Err && r->Err_0@ == BackendFault::Backend(
                    "table "@ + name@ + " did not become active"@,
                )
            },
        },
{
    match lookup {
        TableLookup::Found(true) => Ok(true),
        TableLookup::Missing(e) => Err(
            BackendError::Backend(concat("describe table: ", e.as_str())),
        ),
        TableLookup::Failed(e) => Err(
            BackendError::Backend(concat("describe table: ", e.as_str())),
        ),
        TableLookup::Found(false) => if polled < MAX_TABLE_POLLS {
            Ok(false)
        } else {
            Err(BackendError::Backend(concat3("table ", name, " did not become active")))
        },
    }
}

/// When a workflow that is parked at a delay or a signal may go on.
pub open spec fn parked_until(s: State) -> Option<Timestamp> {
    match s {
        State::InProgress { position: snapshot::Position::AtDelay { wake_at, .. }, .. } => Some(
            wake_at,
        ),
        State::InProgress { position: snapshot::Position::AtSignal { wake_at, .. }, .. } => wake_at,
        _ => None,
    }
}

/// When a workflow that is parked at a delay or a signal may go on.
pub fn delay_wake_at(s: &WorkflowSnapshot) -> (r: Option<Timestamp>)
    ensures
        r == parked_until(s@.state),
{
    match &s.state {
        WorkflowSnapshotState::InProgress { position, .. } => match position {
            ExecutionPosition::AtDelay { wake_at, .. } => Some(*wake_at),
            ExecutionPosition::AtSignal { wake_at, .. } => *wake_at,
            _ => None,
        },
        _ => None,
    }
}

/// The RFC 3339 text of an optional instant.
pub open spec fn opt_time_text(o: Option<Timestamp>) -> Option<Seq<char>> {
    match o {
        Some(t) => Some(time::rfc3339_text(t.parts().0, t.parts().1)),
        None => None,
    }
}

/// The RFC 3339 text of an instant.
pub open spec fn time_text(t: Timestamp) -> Seq<char> {
    time::rfc3339_text(t.parts().0, t.parts().1)
}

/// The attributes that every stored snapshot has.
pub open spec fn core_map(
    instance_id: Seq<char>,
    s: Snap,
    data: Seq<u8>,
    version: nat,
    now: Timestamp,
) -> Map<Seq<char>, Val> {
    dynamodb_item::key_map("SNAP#"@ + instance_id, "current"@).insert("data"@, Val::B(data)).insert(
        "version"@,
        Val::N(text::decimal(version)),
    ).insert("status"@, Val::S(snapshot::status_name(snapshot::status_of(s.state)))).insert(
        "definition_hash"@,
        Val::S(s.definition_hash),
    ).insert("updated_at"@, Val::S(time_text(now))).insert("instance_id"@, Val::S(instance_id))
}

/// The attributes that every stored snapshot has.
fn core_item(
    instance_id: &str,
    s: &WorkflowSnapshot,
    data: &Vec<u8>,
    version: u64,
    now: Timestamp,
) -> (r: Item)
    ensures
        r@ == core_map(instance_id@, s@, data@, version as nat, now),
{
    let mut item = key_item(snap_pk(instance_id).as_str(), "current");
    item.set("data", Value::B(clone_bytes(data)));
    item.set_number("version", version);
    item.set_text("status", s.state.as_ref());
    item.set_text("definition_hash", s.definition_hash.as_str());
    item.set_text("updated_at", now.to_rfc3339().as_str());
    item.set_text("instance_id", instance_id);
    item
}

/// With the number of results and the task that the workflow is at.
pub open spec fn with_progress(m: Map<Seq<char>, Val>, s: Snap) -> Map<Seq<char>, Val> {
    dynamodb_item::with_text(
        m.insert(
            "completed_task_count"@,
            Val::N(text::decimal(snapshot::result_count(s.state) as nat)),
        ),
        "current_task_id"@,
        snapshot::task_at(s.state),
    )
}

/// Add the number of results and the task that the workflow is at.
fn add_progress(item: &mut Item, s: &WorkflowSnapshot)
    ensures
        final(item)@ == with_progress(old(item)@, s@),
{
    item.set_number("completed_task_count", s.completed_task_count() as u64);
    item.set_opt_text("current_task_id", s.current_task_id());
}

/// With the kind of the position, and when a parked workflow may go on.
pub open spec fn with_position(m: Map<Seq<char>, Val>, s: Snap) -> Map<Seq<char>, Val> {
    dynamodb_item::with_text(
        dynamodb_item::with_text(m, "position_kind"@, snapshot::position_name_of(s.state)),
        "delay_wake_at"@,
        opt_time_text(parked_until(s.state)),
    )
}

/// Add the kind of the position, and when a parked workflow may go on.
fn add_position(item: &mut Item, s: &WorkflowSnapshot)
    ensures
        final(item)@ == with_position(old(item)@, s@),
{
    item.set_opt_text("position_kind", s.position_kind());
    if let Some(t) = delay_wake_at(s) {
        item.set_text("delay_wake_at", t.to_rfc3339().as_str());
    }
}

/// The stored form of a snapshot.
pub open spec fn snapshot_map(s: Snap, data: Seq<u8>, version: nat, now: Timestamp) -> Map<
    Seq<char>,
    Val,
> {
    let m = with_position(
        dynamodb_item::with_text(
            with_progress(core_map(s.instance_id, s, data, version, now), s),
            "error"@,
            snapshot::error_of(s.state),
        ),
        s,
    );
    if snapshot::terminal_state(s.state) {
        m.insert("completed_at"@, Val::S(time_text(now)))
    } else {
        m
    }
}

/// The sort key of a history entry: the version with at least eight digits.
pub open spec fn history_sk(version: nat) -> Seq<char> {
    "v"@ + text::padded(text::decimal(version), 8)
}

/// The history entry of a snapshot.
pub open spec fn history_map(s: Snap, data: Seq<u8>, version: nat, now: Timestamp) -> Map<
    Seq<char>,
    Val,
> {
    dynamodb_item::with_text(
        dynamodb_item::key_map("HIST#"@ + s.instance_id, history_sk(version)).insert(
            "data"@,
            Val::B(data),
        ).insert(
            "status"@,
            Val::S(snapshot::status_name(snapshot::status_of(s.state))),
        ).insert("created_at"@, Val::S(time_text(now))),
        "current_task_id"@,
        snapshot::task_at(s.state),
    )
}

/// A put without a condition.
pub open spec fn plain_put(table: Seq<char>, item: Map<Seq<char>, Val>) -> WriteSpec {
    WriteSpec::Put { table, item, guard: None }
}

/// The condition that the stored version is still the one that was read.
pub open spec fn version_guard(version: nat) -> GuardSpec {
    GuardSpec {
        expression: "version = :expected_version"@,
        values: Map::<Seq<char>, Val>::empty().insert(
            ":expected_version"@,
            Val::N(text::decimal(version)),
        ),
    }
}

/// The condition that the stored version is still the one that was read.
fn guard_version(version: u64) -> (r: Guard)
    ensures
        r@ == version_guard(version as nat),
{
    let mut values = Item::new();
    values.set_number(":expected_version", version);
    Guard { expression: String::from_str("version = :expected_version"), values }
}

/// A put that asks for the version that was read.
pub open spec fn versioned_put(
    table: Seq<char>,
    item: Map<Seq<char>, Val>,
    version: nat,
) -> WriteSpec {
    WriteSpec::Put { table, item, guard: Some(version_guard(version)) }
}

/// The condition that an item is there.
pub open spec fn presence_guard() -> GuardSpec {
    GuardSpec { expression: "attribute_exists(PK)"@, values: Map::empty() }
}

/// The condition that an item is there.
fn guard_presence() -> (r: Guard)
    ensures
        r@ == presence_guard(),
{
    Guard { expression: String::from_str("attribute_exists(PK)"), values: Item::new() }
}

/// The deletion of a signal.
pub open spec fn signal_delete(table: Seq<char>, instance_id: Seq<char>, kind: SignalKind) -> WriteSpec {
    WriteSpec::Delete {
        table,
        key: dynamodb_item::key_map("SIG#"@ + instance_id, snapshot::signal_name(kind)),
        guard: None,
    }
}

/// The version of a stored snapshot; 0 where there is none.
pub open spec fn stored_version(item: Option<Map<Seq<char>, Val>>) -> nat {
    match item {
        Some(m) => match dynamodb_item::number_of(m, "version"@) {
            Some(t) => match text::parsed_unsigned(t) {
                Some(n) => n,
                None => 0,
            },
            None => 0,
        },
        None => 0,
    }
}

/// The contents of an optional item.
pub open spec fn opt_item(o: Option<&Item>) -> Option<Map<Seq<char>, Val>> {
    match o {
        Some(i) => Some(i@),
        None => None,
    }
}

/// The version of a stored snapshot; 0 where there is none.
pub fn get_current_version(item: Option<&Item>) -> (r: u64)
    ensures
        r == stored_version(opt_item(item)),
{
    match item {
        Some(i) => match i.number("version") {
            Some(t) => match parse_unsigned(t) {
                Some(n) => n,
                None => 0,
            },
            None => 0,
        },
        None => 0,
    }
}

/// The version after that of a stored snapshot.
pub fn get_next_version(item: Option<&Item>) -> (r: u64)
    requires
        stored_version(opt_item(item)) < u64::MAX,
    ensures
        r == stored_version(opt_item(item)) + 1,
{
    get_current_version(item) + 1
}

/// What decoding stored bytes came to.
pub open spec fn decoded<C: DecodeValue<WorkflowSnapshot>>(
    codec: C,
    data: Seq<u8>,
    r: Result<WorkflowSnapshot, BackendError>,
) -> bool {
    exists|bytes: &[u8], d: Result<WorkflowSnapshot, BoxError>| #[trigger]
        call_ensures(C::decode_value, (&codec, bytes), d) && bytes@ == data && (match d {
            Ok(s) => r == Ok::<WorkflowSnapshot, BackendError>(s),
            Err(e) => r is Err && r->Err_0@ == BackendFault::Serialization(e.message@),
        })
}

/// What encoding a snapshot came to.
pub open spec fn encoded<C: EncodeValue<WorkflowSnapshot>>(
    codec: C,
    s: WorkflowSnapshot,
    r: Result<Vec<u8>, BackendError>,
) -> bool {
    exists|d: Result<Vec<u8>, BoxError>| #[trigger]
        call_ensures(C::encode_value, (&codec, &s), d) && (match d {
            Ok(b) => r == Ok::<Vec<u8>, BackendError>(b),
            Err(e) => r is Err && r->Err_0@ == BackendFault::Serialization(e.message@),
        })
}

impl<C> DynamoDbBackend<C> {
    /// The tables under a prefix.
    pub fn with_prefix(codec: C, prefix: &str) -> (r: Self)
        ensures
            r.codec == codec,
            r.snapshots_table@ == prefix@ + "_snapshots"@,
            r.events_table@ == prefix@ + "_events"@,
            r.claims_table@ == prefix@ + "_claims"@,
    {
        DynamoDbBackend {
            codec,
            snapshots_table: concat(prefix, "_snapshots"),
            events_table: concat(prefix, "_events"),
            claims_table: concat(prefix, "_claims"),
        }
    }

    /// Schema of the snapshots table: `PK` and `SK`, and the index on `status` and
    /// `updated_at`.
    pub fn ensure_snapshots_table(&self) -> (r: TableSchema)
        ensures
            r.name@ == self.snapshots_table@,
            key_parts(r.key@) == pair_key("PK"@, "SK"@),
            continuation::str_texts(r.attributes@) == seq![
                "PK"@,
                "SK"@,
                "status"@,
                "updated_at"@,
            ],
            r.index is Some,
            (r.index->0).0@ == "status-updated-index"@,
            key_parts((r.index->0).1@) == pair_key("status"@, "updated_at"@),
            r.ttl_attribute is None,
            r.error_prefix@ == "create snapshots table: "@,
    {
        let mut attributes: Vec<&'static str> = Vec::new();
        attributes.push("PK");
        attributes.push("SK");
        attributes.push("status");
        attributes.push("updated_at");
        proof {
            assert(continuation::str_texts(attributes@) =~= seq![
                "PK"@,
                "SK"@,
                "status"@,
                "updated_at"@,
            ]);
        }
        TableSchema {
            name: self.snapshots_table.clone(),
            key: pair("PK", "SK"),
            attributes,
            index: Some((STATUS_UPDATED_INDEX, pair("status", "updated_at"))),
            ttl_attribute: None,
            error_prefix: "create snapshots table: ",
        }
    }

    /// Schema of the events table: `PK` and `SK`.
    pub fn ensure_events_table(&self) -> (r: TableSchema)
        ensures
            r.name@ == self.events_table@,
            key_parts(r.key@) == pair_key("PK"@, "SK"@),
            continuation::str_texts(r.attributes@) == seq!["PK"@, "SK"@],
            r.index is None,
            r.ttl_attribute is None,
            r.error_prefix@ == "create events table: "@,
    {
        let mut attributes: Vec<&'static str> = Vec::new();
        attributes.push("PK");
        attributes.push("SK");
        proof {
            assert(continuation::str_texts(attributes@) =~= seq!["PK"@, "SK"@]);
        }
        TableSchema {
            name: self.events_table.clone(),
            key: pair("PK", "SK"),
            attributes,
            index: None,
            ttl_attribute: None,
            error_prefix: "create events table: ",
        }
    }

    /// Schema of the claims table: `PK` alone, and items that are dropped after
    /// `expires_at_epoch`.
    pub fn ensure_claims_table(&self) -> (r: TableSchema)
        ensures
            r.name@ == self.claims_table@,
            key_parts(r.key@) == seq![("PK"@, KeyKind::Hash)],
            continuation::str_texts(r.attributes@) == seq!["PK"@],
            r.index is None,
            r.ttl_attribute is Some,
            r.ttl_attribute->0@ == "expires_at_epoch"@,
            r.error_prefix@ == "create claims table: "@,
    {
        let mut attributes: Vec<&'static str> = Vec::new();
        attributes.push("PK");
        let mut key: Vec<(&'static str, KeyKind)> = Vec::new();
        key.push(("PK", KeyKind::Hash));
        proof {
            assert(continuation::str_texts(attributes@) =~= seq!["PK"@]);
            assert(key_parts(key@) =~= seq![("PK"@, KeyKind::Hash)]);
        }
        TableSchema {
            name: self.claims_table.clone(),
            key,
            attributes,
            index: None,
            ttl_attribute: Some("expires_at_epoch"),
            error_prefix: "create claims table: ",
        }
    }

    /// The key under which the current snapshot of an instance is stored.
    pub fn snapshot_key(&self, instance_id: &str) -> (r: Item)
        ensures
            r@ == dynamodb_item::key_map("SNAP#"@ + instance_id@, "current"@),
    {
        key_item(snap_pk(instance_id).as_str(), "current")
    }

    /// The deletion of the current snapshot of an instance, which has to be there.
    pub fn delete_snapshot(&self, instance_id: &str) -> (r: Write)
        ensures
            r@ == (WriteSpec::Delete {
                table: self.snapshots_table@,
                key: dynamodb_item::key_map("SNAP#"@ + instance_id@, "current"@),
                guard: Some(presence_guard()),
            }),
    {
        Write::Delete {
            table: self.snapshots_table.clone(),
            key: self.snapshot_key(instance_id),
            guard: Some(guard_presence()),
        }
    }

    /// The key under which a signal is stored.
    pub fn signal_key(&self, instance_id: &str, kind: SignalKind) -> (r: Item)
        ensures
            r@ == dynamodb_item::key_map("SIG#"@ + instance_id@, snapshot::signal_name(kind)),
    {
        key_item(sig_pk(instance_id).as_str(), kind.as_ref())
    }

    /// The deletion of a signal, which need not be there.
    pub fn clear_signal(&self, instance_id: &str, kind: SignalKind) -> (r: Write)
        ensures
            r@ == signal_delete(self.snapshots_table@, instance_id@, kind),
    {
        Write::Delete {
            table: self.snapshots_table.clone(),
            key: self.signal_key(instance_id, kind),
            guard: None,
        }
    }
}

impl<C: EncodeValue<WorkflowSnapshot>> DynamoDbBackend<C> {
    /// Encode a snapshot with the codec.
    pub fn encode(&self, s: &WorkflowSnapshot) -> (r: Result<Vec<u8>, BackendError>)
        ensures
            encoded(self.codec, *s, r),
    {
        match self.codec.encode_value(s) {
            Ok(b) => Ok(b),
            Err(e) => Err(BackendError::Serialization(e.message)),
        }
    }
}

impl<C: DecodeValue<WorkflowSnapshot>> DynamoDbBackend<C> {
    /// Decode a snapshot with the codec.
    pub fn decode(&self, data: &[u8]) -> (r: Result<WorkflowSnapshot, BackendError>)
        ensures
            decoded(self.codec, data@, r),
    {
        let d = self.codec.decode_value(data);
        let r = match d {
            Ok(s) => Ok(s),
            Err(e) => Err(BackendError::Serialization(e.message)),
        };
        r
    }

    /// The snapshot in a stored item.
    pub fn load_snapshot(&self, instance_id: &str, item: Option<&Item>) -> (r: Result<
        WorkflowSnapshot,
        BackendError,
    >)
        ensures
            match opt_item(item) {
                None => r is Err && r->Err_0@ == BackendFault::NotFound(instance_id@),
                Some(m) => match dynamodb_item::bytes_of(m, "data"@) {
                    None => r is Err && r->Err_0@ == BackendFault::Backend(
                        "missing data attribute"@,
                    ),
                    Some(data) => decoded(self.codec, data, r),
                },
            },
    {
        let i = match item {
            Some(i) => i,
            None => {
                return Err(BackendError::NotFound(String::from_str(instance_id)));
            },
        };
        match i.bytes("data") {
            Some(data) => self.decode(data.as_slice()),
            None => Err(BackendError::Backend(String::from_str("missing data attribute"))),
        }
    }
}

/// What the deletion of a snapshot came to.
pub fn snapshot_deleted(instance_id: &str, outcome: WriteOutcome) -> (r: Result<(), BackendError>)
    ensures
        match outcome {
            WriteOutcome::Done => r is Ok,
            WriteOutcome::ConditionFailed => r is Err && r->Err_0@ == BackendFault::NotFound(
                instance_id@,
            ),
            WriteOutcome::Failed(e) => r is Err && r->Err_0@ == BackendFault::Backend(e@),
        },
{
    match outcome {
        WriteOutcome::Done => Ok(()),
        WriteOutcome::ConditionFailed => Err(
            BackendError::NotFound(String::from_str(instance_id)),
        ),
        WriteOutcome::Failed(e) => Err(BackendError::Backend(e)),
    }
}

/// The writes of a snapshot: the current item, and a history entry.
pub open spec fn save_writes(
    table: Seq<char>,
    s: Snap,
    data: Seq<u8>,
    version: nat,
    now: Timestamp,
) -> Seq<WriteSpec> {
    seq![
        plain_put(table, snapshot_map(s, data, version, now)),
        plain_put(table, history_map(s, data, version, now)),
    ]
}

/// The stored form after a task result was added.
pub open spec fn result_map(
    instance_id: Seq<char>,
    s: Snap,
    data: Seq<u8>,
    version: nat,
    now: Timestamp,
) -> Map<Seq<char>, Val> {
    with_progress(core_map(instance_id, s, data, version, now), s)
}

/// The stored form after a cancellation.
pub open spec fn cancelled_map(
    instance_id: Seq<char>,
    s: Snap,
    data: Seq<u8>,
    version: nat,
    now: Timestamp,
) -> Map<Seq<char>, Val> {
    with_position(
        dynamodb_item::with_text(
            core_map(instance_id, s, data, version, now).insert(
                "completed_at"@,
                Val::S(time_text(now)),
            ),
            "error"@,
            snapshot::error_of(s.state),
        ),
        s,
    )
}

/// The stored form after a pause or its end.
pub open spec fn held_map(
    instance_id: Seq<char>,
    s: Snap,
    data: Seq<u8>,
    version: nat,
    now: Timestamp,
) -> Map<Seq<char>, Val> {
    with_position(with_progress(core_map(instance_id, s, data, version, now), s), s)
}

impl<C: EncodeValue<WorkflowSnapshot>> DynamoDbBackend<C> {
    /// The writes of a snapshot, which form one transaction: the current item with
    /// the version, and a history entry.
    pub fn save_snapshot(&self, s: &WorkflowSnapshot, version: u64, now: Timestamp) -> (r: Result<
        Vec<Write>,
        BackendError,
    >)
        ensures
            exists|e: Result<Vec<u8>, BackendError>| #[trigger]
                encoded(self.codec, *s, e) && (match e {
                    Ok(data) => r is Ok && dynamodb_item::writes(r->Ok_0@) == save_writes(
                        self.snapshots_table@,
                        s@,
                        data@,
                        version as nat,
                        now,
                    ),
                    Err(err) => r is Err && r->Err_0 == err,
                }),
    {
        let data = match self.encode(s) {
            Ok(d) => d,
            Err(e) => {
                proof {
                    assert(encoded(self.codec, *s, Err::<Vec<u8>, BackendError>(e)));
                }
                return Err(e);
            },
        };
        proof {
            assert(encoded(self.codec, *s, Ok::<Vec<u8>, BackendError>(data)));
        }
        let mut item = core_item(s.instance_id.as_str(), s, &data, version, now);
        add_progress(&mut item, s);
        item.set_opt_text("error", s.error_message());
        add_position(&mut item, s);
        if s.state.is_terminal() {
            item.set_text("completed_at", now.to_rfc3339().as_str());
        }
        let sk = concat("v", pad_zeros(decimal_text(version as u128), 8).as_str());
        let mut entry = key_item(hist_pk(s.instance_id.as_str()).as_str(), sk.as_str());
        entry.set("data", Value::B(clone_bytes(&data)));
        entry.set_text("status", s.state.as_ref());
        entry.set_text("created_at", now.to_rfc3339().as_str());
        entry.set_opt_text("current_task_id", s.current_task_id());
        let mut out: Vec<Write> = Vec::new();
        out.push(Write::Put { table: self.snapshots_table.clone(), item, guard: None });
        out.push(Write::Put { table: self.snapshots_table.clone(), item: entry, guard: None });
        proof {
            assert(dynamodb_item::writes(out@) =~= save_writes(
                self.snapshots_table@,
                s@,
                data@,
                version as nat,
                now,
            ));
        }
        Ok(out)
    }

    /// The write of a snapshot to which a task result is added, guarded by the
    /// version that was read with it.
    pub fn save_task_result(
        &self,
        instance_id: &str,
        task_id: &str,
        output: Vec<u8>,
        loaded: WorkflowSnapshot,
        version: u64,
        now: Timestamp,
    ) -> (r: Result<Write, BackendError>)
        requires
            version < u64::MAX,
        ensures
            exists|s: WorkflowSnapshot, e: Result<Vec<u8>, BackendError>| #[trigger]
                encoded(self.codec, s, e) && s@ == snapshot::with_result(
                    loaded@,
                    task_id@,
                    output@,
                    time::unsigned_secs(now.parts().0),
                ) && (match e {
                    Ok(data) => r is Ok && r->Ok_0@ == versioned_put(
                        self.snapshots_table@,
                        result_map(instance_id@, s@, data@, version as nat + 1, now),
                        version as nat,
                    ),
                    Err(err) => r is Err && r->Err_0 == err,
                }),
    {
        let mut s = loaded;
        s.mark_task_completed_at(String::from_str(task_id), output, now);
        let data = match self.encode(&s) {
            Ok(d) => d,
            Err(e) => {
                proof {
                    assert(encoded(self.codec, s, Err::<Vec<u8>, BackendError>(e)));
                }
                return Err(e);
            },
        };
        proof {
            assert(encoded(self.codec, s, Ok::<Vec<u8>, BackendError>(data)));
        }
        let mut item = core_item(instance_id, &s, &data, version + 1, now);
        add_progress(&mut item, &s);
        Ok(
            Write::Put {
                table: self.snapshots_table.clone(),
                item,
                guard: Some(guard_version(version)),
            },
        )
    }

    /// What a cancel request comes to for a snapshot that was read with its version:
    /// nothing for a workflow that is not in progress, else one transaction that
    /// stores the cancelled snapshot, guarded by the version, and deletes the signal.
    pub fn check_and_cancel(
        &self,
        instance_id: &str,
        request: SignalRequest,
        interrupted_at_task: Option<String>,
        loaded: WorkflowSnapshot,
        version: u64,
        now: Timestamp,
    ) -> (r: Result<Option<Vec<Write>>, BackendError>)
        requires
            version < u64::MAX,
        ensures
            if loaded@.state is InProgress {
                exists|s: WorkflowSnapshot, e: Result<Vec<u8>, BackendError>| #[trigger]
                    encoded(self.codec, s, e) && s@ == snapshot::cancelled(
                        loaded@,
                        request@.reason,
                        request@.requested_by,
                        text::opt_text(interrupted_at_task),
                        now,
                    ) && (match e {
                        Ok(data) => r is Ok && r->Ok_0 is Some && dynamodb_item::writes(
                            r->Ok_0->0@,
                        ) == seq![
                            versioned_put(
                                self.snapshots_table@,
                                cancelled_map(instance_id@, s@, data@, version as nat + 1, now),
                                version as nat,
                            ),
                            signal_delete(self.snapshots_table@, instance_id@, SignalKind::Cancel),
                        ],
                        Err(err) => r is Err && r->Err_0 == err,
                    })
            } else {
                r is Ok && r->Ok_0 is None
            },
    {
        if !loaded.state.is_in_progress() {
            return Ok(None);
        }
        let mut s = loaded;
        s.mark_cancelled_at(request.reason, request.requested_by, interrupted_at_task, now);
        let data = match self.encode(&s) {
            Ok(d) => d,
            Err(e) => {
                proof {
                    assert(encoded(self.codec, s, Err::<Vec<u8>, BackendError>(e)));
                }
                return Err(e);
            },
        };
        proof {
            assert(encoded(self.codec, s, Ok::<Vec<u8>, BackendError>(data)));
        }
        let mut item = core_item(instance_id, &s, &data, version + 1, now);
        item.set_text("completed_at", now.to_rfc3339().as_str());
        item.set_opt_text("error", s.error_message());
        add_position(&mut item, &s);
        let out = self.guarded_pair(item, version, instance_id, SignalKind::Cancel);
        Ok(Some(out))
    }

    /// A put guarded by a version, and the deletion of a signal.
    fn guarded_pair(&self, item: Item, version: u64, instance_id: &str, kind: SignalKind) -> (r:
        Vec<Write>)
        ensures
            dynamodb_item::writes(r@) == seq![
                versioned_put(self.snapshots_table@, item@, version as nat),
                signal_delete(self.snapshots_table@, instance_id@, kind),
            ],
    {
        let ghost put = versioned_put(self.snapshots_table@, item@, version as nat);
        let mut out: Vec<Write> = Vec::new();
        out.push(
            Write::Put {
                table: self.snapshots_table.clone(),
                item,
                guard: Some(guard_version(version)),
            },
        );
        out.push(self.clear_signal(instance_id, kind));
        proof {
            assert(dynamodb_item::writes(out@) =~= seq![
                put,
                signal_delete(self.snapshots_table@, instance_id@, kind),
            ]);
        }
        out
    }

    /// What a pause request comes to for a snapshot that was read with its version:
    /// nothing for a workflow that is not in progress, else one transaction that
    /// stores the paused snapshot, guarded by the version, and deletes the signal.
    pub fn check_and_pause(
        &self,
        instance_id: &str,
        request: SignalRequest,
        loaded: WorkflowSnapshot,
        version: u64,
        now: Timestamp,
    ) -> (r: Result<Option<Vec<Write>>, BackendError>)
        requires
            version < u64::MAX,
        ensures
            if loaded@.state is InProgress {
                exists|s: WorkflowSnapshot, e: Result<Vec<u8>, BackendError>| #[trigger]
                    encoded(self.codec, s, e) && s@ == snapshot::paused(
                        loaded@,
                        Request { requested_at: now, ..request@ },
                        now,
                    ) && (match e {
                        Ok(data) => r is Ok && r->Ok_0 is Some && dynamodb_item::writes(
                            r->Ok_0->0@,
                        ) == seq![
                            versioned_put(
                                self.snapshots_table@,
                                held_map(instance_id@, s@, data@, version as nat + 1, now),
                                version as nat,
                            ),
                            signal_delete(self.snapshots_table@, instance_id@, SignalKind::Pause),
                        ],
                        Err(err) => r is Err && r->Err_0 == err,
                    })
            } else {
                r is Ok && r->Ok_0 is None
            },
    {
        if !loaded.state.is_in_progress() {
            return Ok(None);
        }
        let mut s = loaded;
        let pause = PauseRequest::new_at(request.reason, request.requested_by, now);
        s.mark_paused_at(&pause, now);
        let data = match self.encode(&s) {
            Ok(d) => d,
            Err(e) => {
                proof {
                    assert(encoded(self.codec, s, Err::<Vec<u8>, BackendError>(e)));
                }
                return Err(e);
            },
        };
        proof {
            assert(encoded(self.codec, s, Ok::<Vec<u8>, BackendError>(data)));
        }
        let mut item = core_item(instance_id, &s, &data, version + 1, now);
        add_progress(&mut item, &s);
        add_position(&mut item, &s);
        let out = self.guarded_pair(item, version, instance_id, SignalKind::Pause);
        Ok(Some(out))
    }

    /// The end of a pause for a snapshot that was read with its version: the snapshot
    /// in progress again, and its write, guarded by the version. A workflow that is
    /// not paused is an error.
    pub fn unpause(
        &self,
        instance_id: &str,
        loaded: WorkflowSnapshot,
        version: u64,
        now: Timestamp,
    ) -> (r: Result<(WorkflowSnapshot, Write), BackendError>)
        requires
            version < u64::MAX,
        ensures
            if loaded@.state is Paused {
                exists|s: WorkflowSnapshot, e: Result<Vec<u8>, BackendError>| #[trigger]
                    encoded(self.codec, s, e) && s@ == snapshot::unpaused(
                        loaded@,
                        time::unsigned_secs(now.parts().0),
                    ) && (match e {
                        Ok(data) => r is Ok && r->Ok_0.0 == s && r->Ok_0.1@ == versioned_put(
                            self.snapshots_table@,
                            held_map(instance_id@, s@, data@, version as nat + 1, now),
                            version as nat,
                        ),
                        Err(err) => r is Err && r->Err_0 == err,
                    })
            } else {
                r is Err && r->Err_0@ == BackendFault::CannotPause(
                    "Workflow is not paused (current state: \""@ + snapshot::status_name(
                        snapshot::status_of(loaded@.state),
                    ) + "\")"@,
                )
            },
    {
        if !loaded.state.is_paused() {
            return Err(
                BackendError::CannotPause(
                    concat3(
                        "Workflow is not paused (current state: \"",
                        loaded.state.as_ref(),
                        "\")",
                    ),
                ),
            );
        }
        let mut s = loaded;
        s.mark_unpaused_at(now);
        let data = match self.encode(&s) {
            Ok(d) => d,
            Err(e) => {
                proof {
                    assert(encoded(self.codec, s, Err::<Vec<u8>, BackendError>(e)));
                }
                return Err(e);
            },
        };
        proof {
            assert(encoded(self.codec, s, Ok::<Vec<u8>, BackendError>(data)));
        }
        let mut item = core_item(instance_id, &s, &data, version + 1, now);
        add_progress(&mut item, &s);
        add_position(&mut item, &s);
        let w = Write::Put {
            table: self.snapshots_table.clone(),
            item,
            guard: Some(guard_version(version)),
        };
        Ok((s, w))
    }
}

/// A signal to a workflow with a status is refused.
pub open spec fn refused(status: SnapshotStatus, kind: SignalKind) -> bool {
    status == SnapshotStatus::Completed || status == SnapshotStatus::Failed || (status
        == SnapshotStatus::Cancelled && kind == SignalKind::Pause)
}

/// Validate that a signal can be sent to a workflow with a status. A status that is
/// not known is let through.
pub fn validate_signal_allowed(status: &str, kind: SignalKind) -> (r: Result<(), BackendError>)
    ensures
        (r is Err) == (exists|k: SnapshotStatus|
            refused(k, kind) && status@ == #[trigger] snapshot::status_name(k)),
        r matches Err(e) ==> e@ == (match kind {
            SignalKind::Cancel => BackendFault::CannotCancel(status@),
            SignalKind::Pause => BackendFault::CannotPause(status@),
        }),
{
    let known = match SnapshotStatus::from_str(status) {
        Some(k) => k,
        None => {
            return Ok(());
        },
    };
    proof {
        assert forall|k: SnapshotStatus| status@ == #[trigger] snapshot::status_name(
            k,
        ) implies k == known by {
            snapshot::law_status_names_differ(k, known);
        }
    }
    let no = match known {
        SnapshotStatus::Completed => true,
        SnapshotStatus::Failed => true,
        SnapshotStatus::Cancelled => match kind {
            SignalKind::Pause => true,
            SignalKind::Cancel => false,
        },
        _ => false,
    };
    if !no {
        return Ok(());
    }
    let name = String::from_str(known.as_ref());
    match kind {
        SignalKind::Cancel => Err(BackendError::CannotCancel(name)),
        SignalKind::Pause => Err(BackendError::CannotPause(name)),
    }
}

/// The stored form of a signal.
pub open spec fn signal_map(
    instance_id: Seq<char>,
    kind: SignalKind,
    request: Request,
    now: Timestamp,
) -> Map<Seq<char>, Val> {
    dynamodb_item::with_text(
        dynamodb_item::with_text(
            dynamodb_item::key_map("SIG#"@ + instance_id, snapshot::signal_name(kind)),
            "reason"@,
            request.reason,
        ),
        "requested_by"@,
        request.requested_by,
    ).insert("created_at"@, Val::S(time_text(now)))
}

/// The signal in a stored item that was read at `now`. A time that cannot be read is
/// taken to be `now`.
pub open spec fn signal_in(m: Map<Seq<char>, Val>, r: Request, now: Timestamp) -> bool {
    &&& r.reason == dynamodb_item::text_of(m, "reason"@)
    &&& r.requested_by == dynamodb_item::text_of(m, "requested_by"@)
    &&& match dynamodb_item::text_of(m, "created_at"@) {
        Some(t) => match time::rfc3339_instant(t) {
            Some(p) => r.requested_at.parts() == p,
            None => r.requested_at == now,
        },
        None => r.requested_at == now,
    }
}

/// The attributes of a signal have different names.
pub proof fn lemma_signal_names()
    ensures
        "reason"@ != "requested_by"@,
        "reason"@ != "created_at"@,
        "requested_by"@ != "created_at"@,
        "reason"@ != "PK"@,
        "reason"@ != "SK"@,
        "requested_by"@ != "PK"@,
        "requested_by"@ != "SK"@,
{
    reveal_strlit("reason");
    reveal_strlit("requested_by");
    reveal_strlit("created_at");
    reveal_strlit("PK");
    reveal_strlit("SK");
    assert("reason"@.len() == 6);
    assert("requested_by"@.len() == 12);
    assert("created_at"@.len() == 10);
    assert("PK"@.len() == 2);
    assert("SK"@.len() == 2);
}

/// A copy of an optional string slice.
fn owned(o: Option<&str>) -> (r: Option<String>)
    ensures
        text::opt_text(r) == continuation::opt_str(o),
{
    match o {
        Some(s) => Some(String::from_str(s)),
        None => None,
    }
}

/// The signal in a stored item that was read at `now`.
pub fn get_signal(item: Option<&Item>, now: Timestamp) -> (r: Option<SignalRequest>)
    ensures
        match (opt_item(item), r) {
            (Some(m), Some(q)) => signal_in(m, q@, now),
            (None, None) => true,
            _ => false,
        },
{
    let i = match item {
        Some(i) => i,
        None => {
            return None;
        },
    };
    let requested_at = match i.text("created_at") {
        Some(t) => match Timestamp::parse_from_rfc3339(t) {
            Some(p) => p,
            None => now,
        },
        None => now,
    };
    Some(
        SignalRequest {
            reason: owned(i.text("reason")),
            requested_by: owned(i.text("requested_by")),
            requested_at,
        },
    )
}

impl<C> DynamoDbBackend<C> {
    /// The write of a signal to a workflow whose snapshot was read. A workflow that
    /// has ended refuses it. What was written is read back as the same request, made at
    /// the time of the write.
    pub fn store_signal(
        &self,
        instance_id: &str,
        kind: SignalKind,
        request: &SignalRequest,
        loaded: &WorkflowSnapshot,
        now: Timestamp,
    ) -> (r: Result<Write, BackendError>)
        ensures
            if refused(snapshot::status_of(loaded@.state), kind) {
                r is Err && r->Err_0@ == (match kind {
                    SignalKind::Cancel => BackendFault::CannotCancel(
                        snapshot::status_name(snapshot::status_of(loaded@.state)),
                    ),
                    SignalKind::Pause => BackendFault::CannotPause(
                        snapshot::status_name(snapshot::status_of(loaded@.state)),
                    ),
                })
            } else {
                r is Ok && r->Ok_0@ == plain_put(
                    self.snapshots_table@,
                    signal_map(instance_id@, kind, request@, now),
                )
            },
            time::has_rfc3339_text(now.parts().0, now.parts().1) ==> forall|
                q: Request,
                later: Timestamp,
            | #[trigger]
                signal_in(signal_map(instance_id@, kind, request@, now), q, later) ==> q.reason
                    == request@.reason && q.requested_by == request@.requested_by
                    && q.requested_at.parts() == now.parts(),
    {
        let ghost status = snapshot::status_of(loaded@.state);
        let stamp = now.to_rfc3339();
        proof {
            lemma_signal_names();
            assert forall|k: SnapshotStatus| snapshot::status_name(status)
                == #[trigger] snapshot::status_name(k) implies k == status by {
                snapshot::law_status_names_differ(k, status);
            }
        }
        match validate_signal_allowed(loaded.state.as_ref(), kind) {
            Ok(()) => {},
            Err(e) => {
                return Err(e);
            },
        }
        let mut item = self.signal_key(instance_id, kind);
        if let Some(reason) = &request.reason {
            item.set_text("reason", reason.as_str());
        }
        if let Some(by) = &request.requested_by {
            item.set_text("requested_by", by.as_str());
        }
        item.set_text("created_at", stamp.as_str());
        Ok(Write::Put { table: self.snapshots_table.clone(), item, guard: None })
    }
}

} // verus!
