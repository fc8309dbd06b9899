use sayiir::backend_error::{BackendError, D1Error};
use sayiir::codec::{CodecIdentity, DecodeValue, EncodeValue};
use sayiir::error::BoxError;
use sayiir::hash32::TaskId;
use sayiir::snapshot::{ExecutionPosition, SignalKind, SignalRequest, WorkflowSnapshot};
use sayiir::snapshot_format::CodecId;
use sayiir::sqlite_backend::{
    dt_to_sqlite, migration_done, migration_error, next_migration, upsert_sql, Migration,
    MigrationStep, SQLiteBackend, SignalRow, SqlValue,
};
use sayiir::time::Timestamp;

struct NameCodec;

impl EncodeValue<WorkflowSnapshot> for NameCodec {
    fn encode_value(&self, value: &WorkflowSnapshot) -> Result<Vec<u8>, BoxError> {
        Ok(value.instance_id.clone().into_bytes())
    }
}

impl DecodeValue<WorkflowSnapshot> for NameCodec {
    fn decode_value(&self, bytes: &[u8]) -> Result<WorkflowSnapshot, BoxError> {
        Ok(WorkflowSnapshot::new(String::from_utf8(bytes.to_vec()).unwrap(), "h".into()))
    }
}

impl CodecIdentity for NameCodec {
    fn codec_id(&self) -> CodecId {
        CodecId::Json
    }
}

fn backend() -> SQLiteBackend<()> {
    SQLiteBackend { connection: () }
}

fn at(secs: i64) -> Timestamp {
    Timestamp::from_parts(secs, 0).unwrap()
}

fn text(v: &SqlValue) -> Option<&str> {
    match v {
        SqlValue::Text(s) => Some(s),
        _ => None,
    }
}

#[test]
fn blobs_are_framed_and_read_back() {
    let b = backend();
    let s = WorkflowSnapshot::new_at("inst-1".into(), "hash".into(), None, at(1));
    let blob = b.encode(&NameCodec, &s).ok().unwrap();
    assert!(blob.ends_with(b"inst-1"));
    assert!(blob.len() > 6);
    assert_eq!(b.decode(&NameCodec, &blob).ok().unwrap().instance_id, "inst-1");
    assert!(matches!(b.decode(&NameCodec, b"inst-1"), Err(BackendError::Serialization(_))));
    let row = Some((blob, Some("trace".to_string())));
    let loaded = b.load_snapshot(&NameCodec, "inst-1", row).ok().unwrap();
    assert_eq!(loaded.trace_parent.as_deref(), Some("trace"));
    assert!(matches!(
        b.load_snapshot(&NameCodec, "inst-1", None),
        Err(BackendError::NotFound(id)) if id == "inst-1",
    ));
}

#[test]
fn saved_rows_hold_the_columns() {
    let b = backend();
    let mut s = WorkflowSnapshot::new_at("inst-1".into(), "hash".into(), None, at(1));
    s.update_position_at(ExecutionPosition::AtTask { task_id: "task-1".into() }, at(2));
    let (upsert, history) = b.save_snapshot(&s, &vec![1, 2, 3]);
    assert_eq!(upsert.sql, upsert_sql(false));
    assert_eq!(upsert.args.len(), 11);
    assert_eq!(text(&upsert.args[0]), Some("inst-1"));
    assert_eq!(text(&upsert.args[1]), Some("InProgress"));
    assert_eq!(text(&upsert.args[2]), Some("hash"));
    assert_eq!(text(&upsert.args[3]), Some(TaskId::from("task-1").to_hex().as_str()));
    assert!(matches!(upsert.args[4], SqlValue::Integer(0)));
    assert!(matches!(&upsert.args[5], SqlValue::Blob(d) if d == &vec![1, 2, 3]));
    assert_eq!(text(&upsert.args[7]), Some("AtTask"));
    assert!(matches!(upsert.args[8], SqlValue::Null));
    assert_eq!(history.args.len(), 4);
    s.mark_failed_at("boom".into(), at(3));
    let (upsert, _) = b.save_snapshot(&s, &vec![]);
    assert_eq!(upsert.sql, upsert_sql(true));
    assert_eq!(text(&upsert.args[6]), Some("boom"));
    assert_ne!(upsert_sql(true), upsert_sql(false));
}

#[test]
fn times_are_column_texts() {
    assert_eq!(dt_to_sqlite(None), None);
    let t = Timestamp::from_parts(1_700_000_000, 123_456_789).unwrap();
    let expected = chrono::DateTime::from_timestamp(1_700_000_000, 123_456_789)
        .unwrap()
        .format("%Y-%m-%dT%H:%M:%S%.3fZ")
        .to_string();
    assert_eq!(dt_to_sqlite(Some(t)), Some(expected));
}

#[test]
fn deletions_have_to_hit_a_row() {
    assert!(backend().delete_snapshot("i", 1).is_ok());
    assert!(matches!(
        backend().delete_snapshot("i", 0),
        Err(BackendError::NotFound(id)) if id == "i",
    ));
}

#[test]
fn resumable_instances_are_asked_for() {
    let q = backend().find_resumable_instances(30, 10);
    assert!(q.sql.contains("position_kind IN ('AtTask', 'AtJoin', 'InLoop', 'NotStarted')"));
    assert_eq!(q.args.len(), 2);
    let s = WorkflowSnapshot::new_at("inst-1".into(), "hash".into(), None, at(1));
    let (upsert, _) = backend().save_snapshot(&s, &vec![1]);
    let status = text(&upsert.args[1]).unwrap();
    assert!(q.sql.contains(&format!("s.status = '{status}'\n")));
    assert!(q.sql.contains("s.delay_wake_at <= strftime('%Y-%m-%dT%H:%M:%fZ','now'))"));
    assert!(q.sql.contains(
        "s.updated_at <= strftime('%Y-%m-%dT%H:%M:%fZ','now','-' || ?1 || ' seconds'))",
    ));
    assert!(!q.sql.contains("datetime("));
    assert!(matches!(q.args[0], SqlValue::Integer(30)));
    assert!(matches!(q.args[1], SqlValue::Integer(10)));
}

#[test]
fn signal_rows_are_read() {
    let b = backend();
    let request = SignalRequest::new_at(Some("why".into()), None, at(1));
    let stored = b
        .store_signal("i", SignalKind::Cancel, &request, Some(Some("InProgress".into())))
        .ok()
        .unwrap();
    assert_eq!(text(&stored.args[1]), Some("Cancel"));
    assert_eq!(text(&stored.args[2]), Some("why"));
    assert!(matches!(stored.args[3], SqlValue::Null));
    assert!(b
        .store_signal("i", SignalKind::Cancel, &request, Some(Some("Completed".into())))
        .is_err());
    assert!(matches!(
        b.store_signal("i", SignalKind::Cancel, &request, None),
        Err(BackendError::NotFound(id)) if id == "i",
    ));
    let row = |created_at: Option<&str>| {
        Some(SignalRow {
            reason: Some("why".into()),
            requested_by: None,
            created_at: created_at.map(String::from),
        })
    };
    let back = b.get_signal(row(Some("2023-11-14T22:13:20.000Z")), at(5)).ok().unwrap().unwrap();
    assert_eq!(back.requested_at.unix(), 1_700_000_000);
    assert_eq!(back.reason.as_deref(), Some("why"));
    let back = b.get_signal(row(Some("yesterday")), at(5)).ok().unwrap().unwrap();
    assert_eq!(back.requested_at.unix(), 5);
    assert!(b.get_signal(row(None), at(5)).is_err());
    assert!(b.get_signal(None, at(5)).ok().unwrap().is_none());
}

#[test]
fn events_are_consumed_by_their_row() {
    let b = backend();
    let sent = b.send_event("i", "sig", vec![7]);
    assert_eq!(sent.args.len(), 3);
    let (payload, delete) = b.consume_event(Some((Some(12), Some(vec![7])))).ok().unwrap().unwrap();
    assert_eq!(payload, vec![7]);
    assert!(matches!(delete.args[0], SqlValue::Integer(12)));
    assert!(b.consume_event(None).ok().unwrap().is_none());
    assert!(b.consume_event(Some((None, Some(vec![])))).is_err());
    assert!(b.consume_event(Some((Some(1), None))).is_err());
}

#[test]
fn migrations_run_in_order_and_once() {
    let migrations = vec![
        Migration { version: 1, sql: "a".into() },
        Migration { version: 2, sql: "b".into() },
        Migration { version: 3, sql: "c".into() },
    ];
    assert_eq!(next_migration(&migrations, 0, 0), Some(0));
    assert_eq!(next_migration(&migrations, 1, 0), Some(1));
    assert_eq!(next_migration(&migrations, 1, 2), Some(2));
    assert_eq!(next_migration(&migrations, 3, 0), None);
    assert!(migration_done(2, Ok(())).is_ok());
    assert!(migration_done(2, Err("duplicate column name: x".into())).is_ok());
    assert!(migration_done(2, Err("syntax error".into())).is_err());
    match migration_error(MigrationStep::Bump(3), "x") {
        BackendError::Backend(m) => assert!(m.ends_with("x")),
        _ => panic!("expected a backend error"),
    }
}

fn reported(text: Option<&str>, message: Option<&str>) -> String {
    let e = D1Error {
        text: text.map(String::from),
        message: message.map(String::from),
        debug: "JsValue(..)".to_string(),
    };
    match BackendError::from(e) {
        BackendError::Backend(m) => m,
        other => panic!("unexpected error {other:?}"),
    }
}

#[test]
fn reported_errors_have_the_best_text() {
    assert_eq!(reported(Some("locked"), Some("other")), "locked");
    assert_eq!(reported(None, Some("no such table")), "no such table");
    assert_eq!(reported(None, None), "JsValue(..)");
}
