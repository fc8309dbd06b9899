use sayiir::backend_error::{BackendError, WriteOutcome};
use sayiir::codec::{DecodeValue, EncodeValue};
use sayiir::dynamodb_claims::{
    build_available_task, dispatch, has_active_claim, task_claimed, Dispatch,
};
use sayiir::dynamodb_events::{event_consumed, list_snapshots, oldest_event, snapshot_filter};
use sayiir::dynamodb_item::{
    claim_pk, event_pk, hist_pk, sig_pk, snap_pk, Guard, Item, Value, Write,
};
use sayiir::dynamodb_store::{
    get_current_version, get_next_version, get_signal, snapshot_deleted, table_exists,
    validate_signal_allowed, wait_for_table, DynamoDbBackend, TableLookup,
};
use sayiir::error::BoxError;
use sayiir::hash32::TaskId;
use sayiir::snapshot::{
    ExecutionPosition, PauseRequest, SignalKind, SignalRequest, WorkflowSnapshot,
};
use sayiir::task_search::{SearchStep, TaskSearch};
use sayiir::time::{TimeDelta, Timestamp};

struct NameCodec;

impl EncodeValue<WorkflowSnapshot> for NameCodec {
    fn encode_value(&self, value: &WorkflowSnapshot) -> Result<Vec<u8>, BoxError> {
        if value.instance_id == "bad" {
            return Err(BoxError { message: "no encoding".into() });
        }
        Ok(format!("{}:{}", value.instance_id, value.state.as_ref()).into_bytes())
    }
}

impl DecodeValue<WorkflowSnapshot> for NameCodec {
    fn decode_value(&self, bytes: &[u8]) -> Result<WorkflowSnapshot, BoxError> {
        let text = String::from_utf8(bytes.to_vec()).unwrap();
        match text.split_once(':') {
            Some((id, _)) => Ok(WorkflowSnapshot::new(id.into(), "hash".into())),
            None => Err(BoxError { message: "no decoding".into() }),
        }
    }
}

fn at(secs: i64) -> Timestamp {
    Timestamp::from_parts(secs, 0).unwrap()
}

fn backend() -> DynamoDbBackend<NameCodec> {
    DynamoDbBackend::with_prefix(NameCodec, "wf")
}

fn snapshot(id: &str) -> WorkflowSnapshot {
    WorkflowSnapshot::new_at(id.into(), "hash".into(), Some(b"in".to_vec()), at(100))
}

fn at_task(id: &str, task: &str) -> WorkflowSnapshot {
    let mut s = snapshot(id);
    s.update_position_at(ExecutionPosition::AtTask { task_id: task.into() }, at(101));
    s
}

fn put(w: &Write) -> (&str, &Item, Option<&Guard>) {
    match w {
        Write::Put { table, item, guard } => (table.as_str(), item, guard.as_ref()),
        _ => panic!("expected a put"),
    }
}

#[test]
fn tables_have_their_schemas() {
    let b = backend();
    let t = b.ensure_snapshots_table();
    assert_eq!(t.name, "wf_snapshots");
    assert_eq!(t.attributes, vec!["PK", "SK", "status", "updated_at"]);
    assert_eq!(t.index.unwrap().0, "status-updated-index");
    assert_eq!(b.ensure_events_table().key.len(), 2);
    let t = b.ensure_claims_table();
    assert_eq!(t.key.len(), 1);
    assert_eq!(t.ttl_attribute, Some("expires_at_epoch"));
}

#[test]
fn tables_are_awaited() {
    assert!(table_exists("t", TableLookup::Found(false)).unwrap());
    assert!(!table_exists("t", TableLookup::Missing("gone".into())).unwrap());
    match table_exists("t", TableLookup::Failed("boom".into())) {
        Err(BackendError::Backend(m)) => assert_eq!(m, "describe table t: boom"),
        _ => panic!("expected a backend error"),
    }
    assert!(wait_for_table("t", 0, TableLookup::Found(true)).unwrap());
    assert!(!wait_for_table("t", 59, TableLookup::Found(false)).unwrap());
    match wait_for_table("t", 60, TableLookup::Found(false)) {
        Err(BackendError::Backend(m)) => assert_eq!(m, "table t did not become active"),
        _ => panic!("expected a backend error"),
    }
    for lookup in [TableLookup::Missing("gone".into()), TableLookup::Failed("gone".into())] {
        match wait_for_table("t", 1, lookup) {
            Err(BackendError::Backend(m)) => assert_eq!(m, "describe table: gone"),
            _ => panic!("expected a backend error"),
        }
    }
}

#[test]
fn a_saved_snapshot_is_read_back() {
    let b = backend();
    let s = at_task("inst-1", "task-1");
    let writes = b.save_snapshot(&s, 7, at(200)).ok().unwrap();
    assert_eq!(writes.len(), 2);
    let (table, item, guard) = put(&writes[0]);
    assert_eq!(table, "wf_snapshots");
    assert!(guard.is_none());
    assert_eq!(item.text("PK"), Some("SNAP#inst-1"));
    assert_eq!(item.text("SK"), Some("current"));
    assert_eq!(item.number("version"), Some("7"));
    assert_eq!(item.text("status"), Some("InProgress"));
    assert_eq!(item.text("position_kind"), Some("AtTask"));
    assert_eq!(item.text("current_task_id"), Some("task-1"));
    assert_eq!(item.number("completed_task_count"), Some("0"));
    assert_eq!(item.text("updated_at"), Some("1970-01-01T00:03:20+00:00"));
    assert_eq!(item.text("completed_at"), None);
    assert_eq!(get_current_version(Some(item)), 7);
    assert_eq!(get_next_version(Some(item)), 8);
    assert_eq!(get_next_version(None), 1);
    let back = b.load_snapshot("inst-1", Some(item)).ok().unwrap();
    assert_eq!(back.instance_id, "inst-1");
    let (_, history, _) = put(&writes[1]);
    assert_eq!(history.text("PK"), Some("HIST#inst-1"));
    assert_eq!(history.text("SK"), Some("v00000007"));
    assert_eq!(history.bytes("data"), item.bytes("data"));
}

#[test]
fn snapshots_that_cannot_be_read() {
    let b = backend();
    assert!(matches!(
        b.load_snapshot("inst-1", None),
        Err(BackendError::NotFound(id)) if id == "inst-1",
    ));
    assert!(matches!(
        b.load_snapshot("inst-1", Some(&Item::new())),
        Err(BackendError::Backend(m)) if m == "missing data attribute",
    ));
    let mut item = Item::new();
    item.set("data", Value::B(b"x".to_vec()));
    assert!(matches!(
        b.load_snapshot("inst-1", Some(&item)),
        Err(BackendError::Serialization(m)) if m == "no decoding",
    ));
    assert!(matches!(
        b.save_snapshot(&snapshot("bad"), 1, at(1)),
        Err(BackendError::Serialization(m)) if m == "no encoding",
    ));
    assert!(snapshot_deleted("i", WriteOutcome::Done).is_ok());
    assert!(matches!(
        snapshot_deleted("i", WriteOutcome::ConditionFailed),
        Err(BackendError::NotFound(id)) if id == "i",
    ));
    assert!(matches!(
        snapshot_deleted("i", WriteOutcome::Failed("f".into())),
        Err(BackendError::Backend(m)) if m == "f",
    ));
}

#[test]
fn results_are_saved_under_the_version_that_was_read() {
    let b = backend();
    let w = b
        .save_task_result("inst-1", "task-1", b"out".to_vec(), snapshot("inst-1"), 4, at(5))
        .ok()
        .unwrap();
    let (_, item, guard) = put(&w);
    assert_eq!(item.number("version"), Some("5"));
    assert_eq!(item.number("completed_task_count"), Some("1"));
    let guard = guard.unwrap();
    assert_eq!(guard.expression, "version = :expected_version");
    assert_eq!(guard.values.number(":expected_version"), Some("4"));
}

#[test]
fn cancel_and_pause_requests() {
    let b = backend();
    let request = || SignalRequest::new_at(Some("why".into()), Some("who".into()), at(9));
    let writes = b
        .check_and_cancel("i", request(), Some("t".into()), at_task("i", "t"), 1, at(10))
        .ok()
        .unwrap()
        .unwrap();
    let (_, item, _) = put(&writes[0]);
    assert_eq!(item.text("status"), Some("Cancelled"));
    assert_eq!(item.text("completed_at"), Some("1970-01-01T00:00:10+00:00"));
    match &writes[1] {
        Write::Delete { key, .. } => {
            assert_eq!(key.text("PK"), Some("SIG#i"));
            assert_eq!(key.text("SK"), Some("Cancel"));
        }
        _ => panic!("expected a deletion"),
    }
    let mut done = snapshot("i");
    done.mark_completed_at(vec![], at(2));
    assert!(b.check_and_cancel("i", request(), None, done, 1, at(10)).ok().unwrap().is_none());
    let writes = b
        .check_and_pause("i", request(), at_task("i", "t"), 1, at(10))
        .ok()
        .unwrap()
        .unwrap();
    assert_eq!(put(&writes[0]).1.text("status"), Some("Paused"));
    let mut paused = at_task("i", "t");
    paused.mark_paused_at(&PauseRequest::new_at(None, None, at(3)), at(3));
    let (s, w) = b.unpause("i", paused, 2, at(11)).ok().unwrap();
    assert!(s.state.is_in_progress());
    assert_eq!(put(&w).1.number("version"), Some("3"));
    assert!(matches!(
        b.unpause("i", snapshot("i"), 2, at(11)),
        Err(BackendError::CannotPause(m))
            if m == "Workflow is not paused (current state: \"InProgress\")",
    ));
}

#[test]
fn signals_are_validated_stored_and_read_back() {
    let b = backend();
    assert!(validate_signal_allowed("InProgress", SignalKind::Cancel).is_ok());
    assert!(validate_signal_allowed("Cancelled", SignalKind::Cancel).is_ok());
    assert!(validate_signal_allowed("unknown", SignalKind::Pause).is_ok());
    assert!(matches!(
        validate_signal_allowed("Completed", SignalKind::Cancel),
        Err(BackendError::CannotCancel(s)) if s == "Completed",
    ));
    assert!(matches!(
        validate_signal_allowed("Cancelled", SignalKind::Pause),
        Err(BackendError::CannotPause(s)) if s == "Cancelled",
    ));
    let request = SignalRequest::new_at(Some("why".into()), None, at(9));
    let w = b
        .store_signal("i", SignalKind::Pause, &request, &snapshot("i"), at(12))
        .ok()
        .unwrap();
    let (_, item, _) = put(&w);
    let back = get_signal(Some(item), at(99)).unwrap();
    assert_eq!(back.reason, Some("why".into()));
    assert_eq!(back.requested_by, None);
    assert_eq!(back.requested_at.unix(), 12);
    assert!(get_signal(None, at(99)).is_none());
    let mut failed = snapshot("i");
    failed.mark_failed_at("e".into(), at(2));
    assert!(b.store_signal("i", SignalKind::Pause, &request, &failed, at(12)).is_err());
}

#[test]
fn events_are_queued_and_consumed_once() {
    let b = backend();
    let first = b.send_event("i", "sig", b"1".to_vec());
    let second = b.send_event("i", "sig", b"2".to_vec());
    let (table, a, _) = put(&first);
    assert_eq!(table, "wf_events");
    let (_, c, _) = put(&second);
    assert_eq!(a.text("PK"), c.text("PK"));
    assert_ne!(a.text("SK"), c.text("SK"));
    assert_eq!(a.text("SK").unwrap().len(), 26);
    let base32 = "0123456789ABCDEFGHJKMNPQRSTVWXYZ";
    assert!(a.text("SK").unwrap().chars().all(|x| base32.contains(x)));
    let w = b.event_write("i", "sig", "01", b"x".to_vec());
    let (_, item, _) = put(&w);
    let query = b.event_query("i", "sig");
    assert_eq!(query.values.text(":pk"), item.text("PK"));
    assert!(query.forward);
    assert_eq!(query.limit, Some(1));
    let mut stored = Item::new();
    stored.set_text("PK", item.text("PK").unwrap());
    stored.set_text("SK", item.text("SK").unwrap());
    stored.set("payload", Value::B(b"x".to_vec()));
    let (sk, payload) = oldest_event(&vec![stored]).ok().unwrap().unwrap();
    assert_eq!(sk, "01");
    assert_eq!(payload, b"x".to_vec());
    assert!(oldest_event(&vec![]).ok().unwrap().is_none());
    assert!(oldest_event(&vec![Item::new()]).is_err());
    assert_eq!(
        event_consumed(b"x".to_vec(), WriteOutcome::Done).ok().unwrap(),
        Some(b"x".to_vec()),
    );
    assert_eq!(
        event_consumed(b"x".to_vec(), WriteOutcome::ConditionFailed).ok().unwrap(),
        None,
    );
    assert!(event_consumed(vec![], WriteOutcome::Failed("f".into())).is_err());
}

#[test]
fn pages_of_snapshots_are_listed() {
    assert_eq!(
        snapshot_filter().expression,
        "SK = :current AND begins_with(PK, :snap_prefix)",
    );
    let row = |id: &str| {
        let mut item = Item::new();
        item.set_text("instance_id", id);
        item
    };
    let mut ids = Vec::new();
    let next = list_snapshots(&mut ids, &vec![row("a"), Item::new()], Some(row("k")));
    assert!(next.is_some());
    assert!(list_snapshots(&mut ids, &vec![row("b")], None).is_none());
    assert_eq!(ids, vec!["a", "b"]);
}

#[test]
fn claims_belong_to_their_worker() {
    let b = backend();
    let ttl = TimeDelta::try_seconds(60).unwrap();
    let (claim, w) = b.claim_task("i", "t", "w1", Some(ttl), at(100));
    assert_eq!(claim.expires_at, Some(160));
    let (table, item, guard) = put(&w);
    assert_eq!(table, "wf_claims");
    assert_eq!(item.number("expires_at_epoch"), Some("160"));
    assert_eq!(
        guard.unwrap().expression,
        "attribute_not_exists(PK) OR expires_at_epoch < :now",
    );
    assert!(has_active_claim(Some(item), at(159)));
    assert!(!has_active_claim(Some(item), at(161)));
    assert!(!has_active_claim(None, at(1)));
    assert!(b.release_task_claim("i", "t", "w1", Some(item)).is_ok());
    assert!(b.release_task_claim("i", "t", "w2", Some(item)).is_err());
    assert!(b.release_task_claim("i", "t", "w1", None).is_err());
    match b.extend_task_claim("i", "t", "w1", ttl, Some(item)).ok().unwrap().unwrap() {
        Write::Update { guard, .. } => {
            assert_eq!(guard.values.text(":expected"), Some("w1"));
        }
        _ => panic!("expected an update"),
    }
    assert!(b.extend_task_claim("i", "t", "w2", ttl, Some(item)).is_err());
    let (forever, w) = b.claim_task("i", "t", "w1", None, at(100));
    assert_eq!(forever.expires_at, None);
    let (_, item, _) = put(&w);
    assert!(has_active_claim(Some(item), at(1_000_000_000)));
    assert!(task_claimed(claim, WriteOutcome::Done).ok().unwrap().is_some());
    assert!(task_claimed(forever, WriteOutcome::ConditionFailed).ok().unwrap().is_none());
}

#[test]
fn tasks_are_offered() {
    let s = at_task("i", "t1");
    let task = build_available_task(&s, "t1").unwrap();
    assert_eq!(task.instance_id, "i");
    assert_eq!(task.input, b"in".to_vec());
    assert_eq!(task.task_id.to_hex(), TaskId::from("t1").to_hex());
    assert!(matches!(dispatch(at_task("i", "t1"), at(200)), Dispatch::Ready(Some(_))));
    let mut done = at_task("i", "t1");
    done.mark_task_completed_at("t1".into(), vec![1], at(102));
    assert!(matches!(dispatch(done, at(200)), Dispatch::Skip));
    let delayed = |next: Option<&str>| {
        let mut s = snapshot("i");
        s.update_position_at(
            ExecutionPosition::AtDelay {
                delay_id: "d".into(),
                entered_at: at(100),
                wake_at: at(150),
                next_task_id: next.map(String::from),
            },
            at(101),
        );
        s
    };
    assert!(matches!(dispatch(delayed(Some("t2")), at(149)), Dispatch::Skip));
    match dispatch(delayed(Some("t2")), at(150)) {
        Dispatch::Advance(s, _) => assert_eq!(s.current_task_id(), Some("t2")),
        _ => panic!("expected an advance"),
    }
    match dispatch(delayed(None), at(150)) {
        Dispatch::Finish(s) => assert!(s.state.is_completed()),
        _ => panic!("expected the end"),
    }
}

fn row(id: &str) -> Item {
    let mut item = Item::new();
    item.set_text("PK", &format!("SNAP#{id}"));
    item.set_text("SK", "current");
    item.set_text("instance_id", id);
    item
}

#[test]
fn a_search_finds_ready_tasks() {
    let items = vec![row("a"), row("b"), row("c")];
    let (mut search, step) = TaskSearch::start(&items, 1);
    assert!(matches!(step, SearchStep::CheckSignals(id) if id == "a"));
    // A pending signal passes an instance over.
    assert!(matches!(search.on_signals(true), SearchStep::CheckSignals(id) if id == "b"));
    assert!(matches!(search.on_signals(false), SearchStep::Load(id) if id == "b"));
    let step = search.on_loaded(Some(at_task("b", "t")), at(200));
    assert!(matches!(step, SearchStep::CheckClaim(i, t) if i == "b" && t == "t"));
    assert!(matches!(search.on_claim(false, at(200)), SearchStep::Done));
    let found = search.into_found();
    assert_eq!(found.len(), 1);
    assert_eq!(found[0].instance_id, "b");
}

#[test]
fn a_search_ends_without_tasks() {
    let (mut search, step) = TaskSearch::start(&vec![row("a")], 5);
    assert!(matches!(step, SearchStep::CheckSignals(_)));
    assert!(matches!(search.on_signals(false), SearchStep::Load(_)));
    assert!(matches!(search.on_loaded(None, at(1)), SearchStep::Done));
    assert!(search.into_found().is_empty());
    let (search, step) = TaskSearch::start(&vec![], 5);
    assert!(matches!(step, SearchStep::Done));
    assert!(search.into_found().is_empty());
}

#[test]
fn keys_are_apart() {
    assert_eq!(snap_pk("i"), "SNAP#i");
    assert_eq!(hist_pk("i"), "HIST#i");
    assert_eq!(sig_pk("i"), "SIG#i");
    assert_eq!(event_pk("i", "go"), "i#go");
    assert_eq!(claim_pk("i", "t"), "i#t");
    // An id with the separator in it can meet the key of another instance.
    assert_eq!(event_pk("a#b", "c"), event_pk("a", "b#c"));
}

#[test]
fn history_entries_have_keys_of_their_own() {
    let b = backend();
    let s = snapshot("i");
    let mut keys = Vec::new();
    for version in [1, 10, 99_999_999, 100_000_000] {
        let writes = b.save_snapshot(&s, version, at(5)).unwrap();
        match &writes[1] {
            Write::Put { item, .. } => keys.push(item.text("SK").unwrap().to_string()),
            _ => panic!("no history entry"),
        }
    }
    assert_eq!(keys, vec!["v00000001", "v00000010", "v99999999", "v100000000"]);
}
