use sayiir::hash32::TaskId;
use sayiir::task_claim::TaskClaim;
use sayiir::time::{TimeDelta, Timestamp};

fn claim(worker: &str, expires_at: Option<u64>) -> TaskClaim {
    TaskClaim {
        instance_id: "inst-1".into(),
        task_id: TaskId::from("task-1"),
        worker_id: worker.into(),
        claimed_at: 1_000_000,
        expires_at,
    }
}

#[test]
fn no_ttl_never_expires() {
    assert!(!claim("w1", None).is_expired());
}

#[test]
fn future_expiry_is_not_expired() {
    let far_future = chrono::Utc::now().timestamp() as u64 + 3600;
    assert!(!claim("w1", Some(far_future)).is_expired());
}

#[test]
fn past_expiry_is_expired() {
    assert!(claim("w1", Some(0)).is_expired());
}

#[test]
fn boundary_expiry_is_expired() {
    let now = chrono::Utc::now().timestamp() as u64;
    assert!(claim("w1", Some(now)).is_expired());
}

#[test]
fn is_owned_by_matching_worker() {
    assert!(claim("worker-a", None).is_owned_by("worker-a"));
}

#[test]
fn is_not_owned_by_different_worker() {
    assert!(!claim("worker-a", None).is_owned_by("worker-b"));
}

#[test]
fn new_with_ttl_sets_expiry() {
    let c = TaskClaim::new("i", TaskId::from("t"), "w".into(), TimeDelta::try_seconds(60));
    assert!(c.expires_at.is_some());
    assert!(c.expires_at.unwrap() > c.claimed_at);
}

#[test]
fn new_without_ttl_has_no_expiry() {
    let c = TaskClaim::new("i", TaskId::from("t"), "w".into(), None);
    assert!(c.expires_at.is_none());
}

#[test]
fn claim_at_a_moment() {
    let now = Timestamp::from_parts(1_000, 7).unwrap();
    let c = TaskClaim::new_at(
        "i",
        TaskId::from("t"),
        "w".into(),
        TimeDelta::try_seconds(60),
        now,
    );
    assert_eq!(c.claimed_at, 1_000);
    assert_eq!(c.expires_at, Some(1_060));
    assert!(!c.is_expired_at(&Timestamp::from_parts(1_059, 999_999_999).unwrap()));
    assert!(c.is_expired_at(&Timestamp::from_parts(1_060, 0).unwrap()));
}
