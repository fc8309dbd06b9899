use sayiir::duration::Duration;
use sayiir::snapshot::{
    cap_delay, CancellationRequest, ExecutionPosition, PauseRequest, SignalRequest, TaskHint,
    TaskResult, WorkflowSnapshot, WorkflowSnapshotState,
};
use sayiir::string_map::StringMap;
use sayiir::task::RetryPolicy;
use sayiir::time::Timestamp;
use sayiir::workflow::WorkflowStatus;

#[test]
fn test_new_snapshot_in_progress() {
    let snapshot = WorkflowSnapshot::new("inst-1".into(), "hash-1".into());
    assert_eq!(snapshot.instance_id, "inst-1");
    assert_eq!(snapshot.definition_hash, "hash-1");
    assert!(snapshot.state.is_in_progress());
    assert!(!snapshot.state.is_terminal());
    assert!(snapshot.initial_input.is_none());
}

#[test]
fn execution_position_kind_strings_are_stable() {
    let cases: [(ExecutionPosition, &str); 7] = [
        (ExecutionPosition::NotStarted, "NotStarted"),
        (
            ExecutionPosition::AtTask {
                task_id: "t".into(),
            },
            "AtTask",
        ),
        (
            ExecutionPosition::AtFork {
                fork_id: "f".into(),
                completed_branches: StringMap::new(),
                wake_at: Timestamp::now(),
            },
            "AtFork",
        ),
        (
            ExecutionPosition::AtJoin {
                join_id: "j".into(),
                completed_branches: StringMap::new(),
            },
            "AtJoin",
        ),
        (
            ExecutionPosition::AtDelay {
                delay_id: "d".into(),
                entered_at: Timestamp::now(),
                wake_at: Timestamp::now(),
                next_task_id: None,
            },
            "AtDelay",
        ),
        (
            ExecutionPosition::AtSignal {
                signal_id: "s".into(),
                signal_name: "n".into(),
                wake_at: None,
                next_task_id: None,
            },
            "AtSignal",
        ),
        (
            ExecutionPosition::InLoop {
                loop_id: "l".into(),
                iteration: 0,
                next_task_id: None,
            },
            "InLoop",
        ),
    ];
    for (variant, expected) in &cases {
        assert_eq!(variant.as_ref(), *expected);
    }
}

#[test]
fn test_snapshot_with_initial_input() {
    let snapshot = WorkflowSnapshot::with_initial_input(
        "inst-1".into(),
        "hash-1".into(),
        "hello".as_bytes().to_vec(),
    );
    assert_eq!(snapshot.initial_input_bytes(), Some("hello".as_bytes().to_vec()));
    assert!(snapshot.state.is_in_progress());
}

#[test]
fn test_mark_task_completed_and_retrieve() {
    let mut snapshot = WorkflowSnapshot::new("inst-1".into(), "hash-1".into());
    snapshot.mark_task_completed("task-1".into(), "output1".as_bytes().to_vec());

    let result = snapshot.get_task_result("task-1");
    assert!(result.is_some());
    assert_eq!(result.unwrap().output, "output1".as_bytes().to_vec());
    assert_eq!(result.unwrap().task_id, "task-1");
}

#[test]
fn test_get_last_task_output() {
    let mut snapshot = WorkflowSnapshot::new("inst-1".into(), "hash-1".into());
    assert!(snapshot.get_last_task_output().is_none());

    snapshot.mark_task_completed("task-1".into(), "out1".as_bytes().to_vec());
    assert_eq!(snapshot.get_last_task_output(), Some("out1".as_bytes().to_vec()));

    snapshot.mark_task_completed("task-2".into(), "out2".as_bytes().to_vec());
    assert_eq!(snapshot.get_last_task_output(), Some("out2".as_bytes().to_vec()));
}

#[test]
fn test_get_task_result_bytes() {
    let mut snapshot = WorkflowSnapshot::new("inst-1".into(), "hash-1".into());
    snapshot.mark_task_completed("task-1".into(), "data".as_bytes().to_vec());
    assert_eq!(
        snapshot.get_task_result_bytes("task-1"),
        Some("data".as_bytes().to_vec())
    );
    assert!(snapshot.get_task_result_bytes("nonexistent").is_none());
}

#[test]
fn test_mark_completed() {
    let mut snapshot = WorkflowSnapshot::new("inst-1".into(), "hash-1".into());
    snapshot.mark_completed("final".as_bytes().to_vec());
    assert!(snapshot.state.is_completed());
    assert!(snapshot.state.is_terminal());
    assert!(!snapshot.state.is_in_progress());
    assert_eq!(snapshot.final_output_bytes(), Some("final".as_bytes().to_vec()));
}

#[test]
fn test_mark_failed() {
    let mut snapshot = WorkflowSnapshot::new("inst-1".into(), "hash-1".into());
    snapshot.mark_failed("something went wrong".into());
    assert!(snapshot.state.is_failed());
    assert!(snapshot.state.is_terminal());
    assert!(!snapshot.state.is_in_progress());
    assert!(snapshot.final_output_bytes().is_none());
}

#[test]
fn test_mark_cancelled_preserves_completed_tasks() {
    let mut snapshot = WorkflowSnapshot::new("inst-1".into(), "hash-1".into());
    snapshot.mark_task_completed("task-1".into(), "output1".as_bytes().to_vec());
    snapshot.mark_cancelled(
        Some("user request".into()),
        Some("admin".into()),
        Some("task-2".into()),
    );

    assert!(snapshot.state.is_cancelled());
    assert!(snapshot.state.is_terminal());
    // Completed tasks should be preserved in cancelled state
    assert!(snapshot.get_task_result("task-1").is_some());
}

#[test]
fn cancelling_a_paused_workflow_keeps_its_results() {
    let mut snapshot = WorkflowSnapshot::new("inst-1".into(), "hash-1".into());
    snapshot.mark_task_completed("task-1".into(), vec![1]);
    snapshot.mark_paused(&PauseRequest::new(None, None));
    snapshot.mark_cancelled(Some("why".into()), None, None);
    assert!(snapshot.state.is_cancelled());
    assert!(snapshot.state.is_terminal());
    assert_eq!(snapshot.get_task_result("task-1").unwrap().output, vec![1]);
    snapshot.mark_cancelled(None, Some("admin".into()), None);
    assert_eq!(snapshot.get_task_result("task-1").unwrap().output, vec![1]);
    assert_eq!(snapshot.state.cancellation_details().unwrap().1, Some("admin".into()));
    let mut done = WorkflowSnapshot::new("inst-2".into(), "hash-1".into());
    done.mark_task_completed("task-1".into(), vec![1]);
    done.mark_completed(vec![2]);
    done.mark_cancelled(None, None, None);
    assert!(done.get_task_result("task-1").is_none());
}

#[test]
fn test_cancellation_details() {
    let mut snapshot = WorkflowSnapshot::new("inst-1".into(), "hash-1".into());
    assert!(snapshot.state.cancellation_details().is_none());

    snapshot.mark_cancelled(Some("timeout".into()), Some("system".into()), None);
    let details = snapshot.state.cancellation_details();
    assert!(details.is_some());
    let (reason, by) = details.unwrap();
    assert_eq!(reason, Some("timeout".into()));
    assert_eq!(by, Some("system".into()));
}

#[test]
fn test_update_position() {
    let mut snapshot = WorkflowSnapshot::new("inst-1".into(), "hash-1".into());
    snapshot.update_position(ExecutionPosition::AtTask {
        task_id: "task-1".into(),
    });
    match &snapshot.state {
        WorkflowSnapshotState::InProgress { position, .. } => match position {
            ExecutionPosition::AtTask { task_id } => assert_eq!(task_id, "task-1"),
            _ => panic!("Expected AtTask"),
        },
        _ => panic!("Expected InProgress"),
    }
}

#[test]
fn test_update_position_noop_on_terminal() {
    let mut snapshot = WorkflowSnapshot::new("inst-1".into(), "hash-1".into());
    snapshot.mark_completed("done".as_bytes().to_vec());
    snapshot.update_position(ExecutionPosition::AtTask {
        task_id: "task-1".into(),
    });
    // Position update should be a no-op on completed state
    assert!(snapshot.state.is_completed());
}

#[test]
fn test_mark_task_completed_noop_on_terminal() {
    let mut snapshot = WorkflowSnapshot::new("inst-1".into(), "hash-1".into());
    snapshot.mark_completed("done".as_bytes().to_vec());
    snapshot.mark_task_completed("task-1".into(), "output".as_bytes().to_vec());
    // Should not crash, just be a no-op
    assert!(snapshot.state.is_completed());
}

#[test]
fn test_get_task_result_on_completed_state() {
    let mut snapshot = WorkflowSnapshot::new("inst-1".into(), "hash-1".into());
    snapshot.mark_completed("done".as_bytes().to_vec());
    assert!(snapshot.get_task_result("task-1").is_none());
}

#[test]
fn test_get_task_result_on_failed_state() {
    let mut snapshot = WorkflowSnapshot::new("inst-1".into(), "hash-1".into());
    snapshot.mark_failed("err".into());
    assert!(snapshot.get_task_result("task-1").is_none());
}

#[test]
fn test_get_all_task_results_in_progress() {
    let mut snapshot = WorkflowSnapshot::new("inst-1".into(), "hash-1".into());
    snapshot.mark_task_completed("task-1".into(), "out1".as_bytes().to_vec());
    snapshot.mark_task_completed("task-2".into(), "out2".as_bytes().to_vec());

    let results = snapshot.get_all_task_results();
    assert!(results.is_some());
    let results = results.unwrap();
    assert_eq!(results.len(), 2);
    assert_eq!(results.get("task-1").unwrap().output, "out1".as_bytes().to_vec());
    assert_eq!(results.get("task-2").unwrap().output, "out2".as_bytes().to_vec());
}

#[test]
fn test_get_all_task_results_cancelled() {
    let mut snapshot = WorkflowSnapshot::new("inst-1".into(), "hash-1".into());
    snapshot.mark_task_completed("task-1".into(), "out1".as_bytes().to_vec());
    snapshot.mark_cancelled(Some("reason".into()), None, Some("task-2".into()));

    let results = snapshot.get_all_task_results();
    assert!(results.is_some());
    assert_eq!(results.unwrap().len(), 1);
    assert_eq!(results.unwrap().get("task-1").unwrap().output, "out1".as_bytes().to_vec());
}

#[test]
fn test_get_all_task_results_paused() {
    let mut snapshot = WorkflowSnapshot::new("inst-1".into(), "hash-1".into());
    snapshot.mark_task_completed("task-1".into(), "out1".as_bytes().to_vec());
    let request = PauseRequest::new(Some("maintenance".into()), None);
    snapshot.mark_paused(&request);

    let results = snapshot.get_all_task_results();
    assert!(results.is_some());
    assert_eq!(results.unwrap().len(), 1);
}

#[test]
fn test_get_all_task_results_completed() {
    let mut snapshot = WorkflowSnapshot::new("inst-1".into(), "hash-1".into());
    snapshot.mark_task_completed("task-1".into(), "out1".as_bytes().to_vec());
    snapshot.mark_completed("final".as_bytes().to_vec());
    assert!(snapshot.get_all_task_results().is_none());
}

#[test]
fn test_get_all_task_results_failed() {
    let mut snapshot = WorkflowSnapshot::new("inst-1".into(), "hash-1".into());
    snapshot.mark_task_completed("task-1".into(), "out1".as_bytes().to_vec());
    snapshot.mark_failed("error".into());
    assert!(snapshot.get_all_task_results().is_none());
}

#[test]
fn test_state_transitions() {
    let state = WorkflowSnapshotState::InProgress {
        position: ExecutionPosition::NotStarted,
        completed_tasks: StringMap::new(),
        last_completed_task_id: None,
    };
    assert!(state.is_in_progress());
    assert!(!state.is_completed());
    assert!(!state.is_failed());
    assert!(!state.is_cancelled());
    assert!(!state.is_terminal());

    let state = WorkflowSnapshotState::Completed {
        final_output: Vec::new(),
    };
    assert!(!state.is_in_progress());
    assert!(state.is_completed());
    assert!(state.is_terminal());

    let state = WorkflowSnapshotState::Failed {
        error: "err".into(),
    };
    assert!(state.is_failed());
    assert!(state.is_terminal());

    let state = WorkflowSnapshotState::Cancelled {
        reason: None,
        cancelled_by: None,
        cancelled_at: Timestamp::now(),
        completed_tasks: StringMap::new(),
        interrupted_at_task: None,
    };
    assert!(state.is_cancelled());
    assert!(state.is_terminal());
}

#[test]
fn test_timestamps_are_set() {
    let snapshot = WorkflowSnapshot::new("inst-1".into(), "hash-1".into());
    assert!(snapshot.created_at > 0);
    assert!(snapshot.updated_at > 0);
    assert_eq!(snapshot.created_at, snapshot.updated_at);
}

// ========================================================================
// From conversion tests
// ========================================================================

#[test]
fn test_cancellation_request_to_signal_request() {
    let cr = CancellationRequest::new(Some("timeout".into()), Some("admin".into()));
    let ts = cr.requested_at;
    let sr: SignalRequest = cr.into();
    assert_eq!(sr.reason, Some("timeout".into()));
    assert_eq!(sr.requested_by, Some("admin".into()));
    assert_eq!(sr.requested_at, ts);
}

#[test]
fn test_pause_request_to_signal_request() {
    let pr = PauseRequest::new(Some("maintenance".into()), Some("ops".into()));
    let ts = pr.requested_at;
    let sr: SignalRequest = pr.into();
    assert_eq!(sr.reason, Some("maintenance".into()));
    assert_eq!(sr.requested_by, Some("ops".into()));
    assert_eq!(sr.requested_at, ts);
}

#[test]
fn test_signal_request_to_cancellation_request() {
    let sr = SignalRequest::new(Some("done".into()), Some("user".into()));
    let ts = sr.requested_at;
    let cr: CancellationRequest = sr.into();
    assert_eq!(cr.reason, Some("done".into()));
    assert_eq!(cr.requested_by, Some("user".into()));
    assert_eq!(cr.requested_at, ts);
}

#[test]
fn test_signal_request_to_pause_request() {
    let sr = SignalRequest::new(Some("scaling".into()), Some("system".into()));
    let ts = sr.requested_at;
    let pr: PauseRequest = sr.into();
    assert_eq!(pr.reason, Some("scaling".into()));
    assert_eq!(pr.requested_by, Some("system".into()));
    assert_eq!(pr.requested_at, ts);
}

#[test]
fn test_cancellation_request_roundtrip() {
    let original = CancellationRequest::new(Some("reason".into()), Some("who".into()));
    let ts = original.requested_at;
    let signal: SignalRequest = original.into();
    let back: CancellationRequest = signal.into();
    assert_eq!(back.reason, Some("reason".into()));
    assert_eq!(back.requested_by, Some("who".into()));
    assert_eq!(back.requested_at, ts);
}

#[test]
fn test_pause_request_roundtrip() {
    let original = PauseRequest::new(Some("reason".into()), Some("who".into()));
    let ts = original.requested_at;
    let signal: SignalRequest = original.into();
    let back: PauseRequest = signal.into();
    assert_eq!(back.reason, Some("reason".into()));
    assert_eq!(back.requested_by, Some("who".into()));
    assert_eq!(back.requested_at, ts);
}

#[test]
fn test_from_conversion_with_none_fields() {
    let sr = SignalRequest::new(None, None);
    let cr: CancellationRequest = sr.into();
    assert!(cr.reason.is_none());
    assert!(cr.requested_by.is_none());
}

fn results(n: u8) -> StringMap<TaskResult> {
    let mut map = StringMap::new();
    for i in 0..n {
        let task_id = format!("t{i}");
        map.insert(task_id.clone(), TaskResult { task_id, output: vec![i; i as usize] });
    }
    map
}

fn states() -> Vec<WorkflowSnapshotState> {
    let mut all = Vec::new();
    for n in 0..4u8 {
        all.push(WorkflowSnapshotState::InProgress {
            position: ExecutionPosition::NotStarted,
            completed_tasks: results(n),
            last_completed_task_id: None,
        });
        all.push(WorkflowSnapshotState::Completed { final_output: vec![n; 8 * n as usize] });
        all.push(WorkflowSnapshotState::Failed { error: "e".repeat(n as usize) });
        let text = if n % 2 == 0 { None } else { Some(format!("text {n}")) };
        all.push(WorkflowSnapshotState::Cancelled {
            reason: text.clone(),
            cancelled_by: text.clone(),
            cancelled_at: Timestamp::now(),
            completed_tasks: results(n),
            interrupted_at_task: text.clone(),
        });
        all.push(WorkflowSnapshotState::Paused {
            reason: text.clone(),
            paused_by: text.clone(),
            paused_at: Timestamp::now(),
            completed_tasks: results(n),
            position: ExecutionPosition::NotStarted,
            last_completed_task_id: text,
        });
    }
    all
}

#[test]
fn exactly_one_predicate_true() {
    for state in states() {
        let flags = [
            state.is_in_progress(),
            state.is_completed(),
            state.is_failed(),
            state.is_cancelled(),
            state.is_paused(),
        ];
        let count = flags.iter().filter(|&&f| f).count();
        assert!(count == 1, "Expected exactly 1 true predicate, got {}: {:?}", count, flags);
    }
}

#[test]
fn terminal_consistency() {
    for state in states() {
        assert_eq!(
            state.is_terminal(),
            state.is_completed() || state.is_failed() || state.is_cancelled(),
        );
    }
}

#[test]
fn as_terminal_status_consistency() {
    for state in states() {
        assert_eq!(state.as_terminal_status().is_some(), !state.is_in_progress());
    }
}

fn at(secs: i64) -> Timestamp {
    Timestamp::from_parts(secs, 0).unwrap()
}

#[test]
fn pausing_and_resuming_restores_the_position() {
    let mut snapshot = WorkflowSnapshot::new_at("inst-1".into(), "hash-1".into(), None, at(100));
    snapshot.update_position_at(ExecutionPosition::AtTask { task_id: "task-2".into() }, at(101));
    snapshot.mark_task_completed_at("task-1".into(), b"out".to_vec(), at(102));
    let request = PauseRequest::new_at(Some("maintenance".into()), Some("ops".into()), at(103));
    snapshot.mark_paused_at(&request, at(103));
    assert!(snapshot.state.is_paused());
    assert!(!snapshot.state.is_terminal());
    assert_eq!(
        snapshot.state.pause_details(),
        Some((Some("maintenance".into()), Some("ops".into()))),
    );
    assert_eq!(snapshot.get_task_result_bytes("task-1"), Some(b"out".to_vec()));
    snapshot.mark_unpaused_at(at(104));
    assert!(snapshot.state.is_in_progress());
    assert_eq!(snapshot.position_kind(), Some("AtTask"));
    assert_eq!(snapshot.get_last_task_output(), Some(b"out".to_vec()));
    assert_eq!(snapshot.created_at, 100);
    assert_eq!(snapshot.updated_at, 104);
}

#[test]
fn a_finished_workflow_is_not_paused() {
    let mut snapshot = WorkflowSnapshot::new_at("inst-1".into(), "hash-1".into(), None, at(1));
    snapshot.mark_failed_at("err".into(), at(2));
    snapshot.mark_paused_at(&PauseRequest::new_at(None, None, at(3)), at(3));
    assert!(snapshot.state.is_failed());
    assert_eq!(snapshot.error_message(), Some("err"));
    snapshot.mark_unpaused_at(at(4));
    assert!(snapshot.state.is_failed());
}

#[test]
fn removed_results_are_gone() {
    let mut snapshot = WorkflowSnapshot::new_at("inst-1".into(), "hash-1".into(), None, at(1));
    snapshot.mark_task_completed_at("task-1".into(), b"1".to_vec(), at(2));
    snapshot.mark_task_completed_at("task-2".into(), b"2".to_vec(), at(3));
    assert_eq!(snapshot.completed_task_count(), 2);
    snapshot.remove_task_result_at("task-2", at(4));
    assert!(snapshot.get_task_result("task-2").is_none());
    assert_eq!(snapshot.completed_task_count(), 1);
}

#[test]
fn statuses_of_waiting_workflows() {
    let mut snapshot = WorkflowSnapshot::new_at("inst-1".into(), "hash-1".into(), None, at(1));
    snapshot.update_position_at(
        ExecutionPosition::AtDelay {
            delay_id: "wait".into(),
            entered_at: at(1),
            wake_at: at(61),
            next_task_id: None,
        },
        at(1),
    );
    match snapshot.state.as_status() {
        WorkflowStatus::Waiting { wake_at, delay_id } => {
            assert_eq!(wake_at.unix(), 61);
            assert_eq!(delay_id, "wait");
        }
        other => panic!("unexpected status {other:?}"),
    }
    assert_eq!(snapshot.delay_wake_at().unwrap().unix(), 61);
    snapshot.update_position_at(
        ExecutionPosition::AtSignal {
            signal_id: "sig".into(),
            signal_name: "approval".into(),
            wake_at: None,
            next_task_id: None,
        },
        at(2),
    );
    assert_eq!(snapshot.state.as_status().as_ref(), "awaiting_signal");
    assert_eq!(snapshot.awaited_signal_name(), Some("approval"));
}

fn policy(max_delay: Option<Duration>) -> RetryPolicy {
    RetryPolicy {
        max_retries: 2,
        initial_delay: Duration::from_millis(100),
        backoff_multiplier: "2".to_string(),
        max_delay,
    }
}

#[test]
fn retries_are_recorded_and_exhausted() {
    let mut snapshot = WorkflowSnapshot::new_at("inst-1".into(), "hash-1".into(), None, at(1));
    assert!(snapshot.get_retry_state("t").is_none());
    assert!(!snapshot.retries_exhausted("t"));
    let next = snapshot.record_retry("t", &policy(None), "boom", Some("w-1"), 2500, at(10));
    assert_eq!((next.timestamp(), next.subsec_nanos()), (12, 500_000_000));
    let state = snapshot.get_retry_state("t").unwrap();
    assert_eq!(state.attempts, 1);
    assert_eq!(state.last_error, "boom");
    assert_eq!(snapshot.updated_at, 10);
    assert!(snapshot.has_failed_on_worker("t", "w-1"));
    assert!(!snapshot.has_failed_on_worker("t", "w-2"));
    assert!(!snapshot.retries_exhausted("t"));
    snapshot.record_retry("t", &policy(None), "again", None, 5000, at(20));
    let state = snapshot.get_retry_state("t").unwrap();
    assert_eq!(state.attempts, 2);
    assert_eq!(state.last_error, "again");
    assert!(state.last_failed_worker.is_none());
    assert!(snapshot.retries_exhausted("t"));
    snapshot.clear_retry_state("t");
    assert!(snapshot.get_retry_state("t").is_none());
}

#[test]
fn retry_delays_are_capped() {
    let most = Some(Duration::from_secs(10));
    assert_eq!(cap_delay(9_999, most), 9_999);
    assert_eq!(cap_delay(10_001, most), 10_000);
    assert_eq!(cap_delay(-5, most), -5);
    assert_eq!(cap_delay(i64::MAX, None), i64::MAX);
    let mut snapshot = WorkflowSnapshot::new_at("inst-1".into(), "hash-1".into(), None, at(1));
    let next = snapshot.record_retry("t", &policy(most), "boom", None, 60_000, at(100));
    assert_eq!(next.unix(), 110);
}

#[test]
fn deadlines_start_with_the_task() {
    let mut snapshot = WorkflowSnapshot::new_at("inst-1".into(), "hash-1".into(), None, at(1));
    assert!(snapshot.expired_task_deadline_at(&at(1)).is_none());
    snapshot.set_task_deadline("t".into(), Duration::from_secs(30), at(100));
    assert!(snapshot.expired_task_deadline_at(&at(129)).is_none());
    assert_eq!(
        snapshot.expired_task_deadline_at(&at(130)),
        Some(("t", Duration::from_secs(30)))
    );
    snapshot.refresh_task_deadline(at(200));
    assert!(snapshot.expired_task_deadline_at(&at(229)).is_none());
    assert_eq!(
        snapshot.expired_task_deadline_at(&at(230)),
        Some(("t", Duration::from_secs(30)))
    );
    snapshot.clear_task_deadline();
    assert!(snapshot.expired_task_deadline_at(&at(1000)).is_none());
}

#[test]
fn the_clock_decides_which_deadlines_have_passed() {
    let mut snapshot = WorkflowSnapshot::new("inst-1".into(), "hash-1".into());
    assert!(snapshot.expired_task_deadline().is_none());
    snapshot.set_task_deadline("t".into(), Duration::from_secs(30), at(-30));
    assert_eq!(snapshot.expired_task_deadline(), Some(("t", Duration::from_secs(30))));
    snapshot.set_task_deadline("t".into(), Duration::from_secs(3600), Timestamp::now());
    assert!(snapshot.expired_task_deadline().is_none());
}

#[test]
fn changes_are_stamped_by_the_clock() {
    let before = chrono::Utc::now().timestamp() as u64;
    let mut s = WorkflowSnapshot::new_at("inst-1".into(), "hash-1".into(), None, at(1));
    let mut stamps = vec![
        WorkflowSnapshot::new("i".into(), "h".into()).updated_at,
        WorkflowSnapshot::with_initial_input("i".into(), "h".into(), vec![1]).updated_at,
    ];
    s.update_position(ExecutionPosition::AtTask { task_id: "t".into() });
    stamps.push(std::mem::take(&mut s.updated_at));
    s.mark_task_completed("t".into(), vec![1]);
    stamps.push(std::mem::take(&mut s.updated_at));
    s.remove_task_result("t");
    stamps.push(std::mem::take(&mut s.updated_at));
    s.set_loop_iteration("loop_0", 1);
    stamps.push(std::mem::take(&mut s.updated_at));
    s.mark_paused(&PauseRequest::new(None, None));
    stamps.push(std::mem::take(&mut s.updated_at));
    s.mark_unpaused();
    stamps.push(std::mem::take(&mut s.updated_at));
    s.mark_completed(vec![1]);
    stamps.push(std::mem::take(&mut s.updated_at));
    s.mark_failed("e".into());
    stamps.push(std::mem::take(&mut s.updated_at));
    s.mark_cancelled(None, None, None);
    stamps.push(std::mem::take(&mut s.updated_at));
    stamps.push(CancellationRequest::new(None, None).requested_at.unix());
    stamps.push(PauseRequest::new(None, None).requested_at.unix());
    stamps.push(SignalRequest::new(None, None).requested_at.unix());
    let after = chrono::Utc::now().timestamp() as u64;
    assert!(stamps.iter().all(|x| before <= *x && *x <= after));
}

#[test]
fn loop_iterations_are_counted_by_loop() {
    let mut snapshot = WorkflowSnapshot::new_at("inst-1".into(), "hash-1".into(), None, at(1));
    assert_eq!(snapshot.loop_iteration("loop_0"), 0);
    snapshot.set_loop_iteration_at("loop_0", 3, at(5));
    snapshot.set_loop_iteration_at("loop_1", 1, at(6));
    assert_eq!(snapshot.loop_iteration("loop_0"), 3);
    assert_eq!(snapshot.updated_at, 6);
    snapshot.clear_loop_iteration("loop_0");
    assert_eq!(snapshot.loop_iteration("loop_0"), 0);
    assert_eq!(snapshot.loop_iteration("loop_1"), 1);
}

#[test]
fn task_hints_carry_priority_and_tags() {
    let mut snapshot = WorkflowSnapshot::new_at("inst-1".into(), "hash-1".into(), None, at(1));
    assert_eq!(snapshot.current_task_priority(), 3);
    assert!(snapshot.current_task_tags().is_empty());
    snapshot.set_task_hint(&TaskHint {
        id: "t".to_string(),
        priority: Some(1),
        tags: vec!["gpu".to_string()],
    });
    assert_eq!(snapshot.current_task_priority(), 1);
    assert_eq!(snapshot.current_task_tags(), &vec!["gpu".to_string()]);
}
