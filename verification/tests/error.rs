use sayiir::duration::Duration;
use sayiir::error::{BoxError, CodecError, WorkflowError};
use sayiir::hash32::Hash32;
use sayiir::time::Timestamp;

fn at(secs: i64, nanos: u32) -> Timestamp {
    Timestamp::from_parts(secs, nanos).unwrap()
}

#[test]
fn workflow_errors_tell_what_is_missing() {
    assert_eq!(
        WorkflowError::TaskNotFound("a".to_string()).to_string(),
        "Task 'a' not found in registry"
    );
    assert_eq!(
        WorkflowError::TaskNotImplemented("a".to_string()).to_string(),
        "Task 'a' has no implementation"
    );
    assert_eq!(
        WorkflowError::BranchNotFound("b".to_string()).to_string(),
        "Branch 'b' not found"
    );
    let unmatched =
        WorkflowError::BranchKeyNotFound { branch_id: "r".to_string(), key: "k".to_string() };
    assert_eq!(unmatched.to_string(), "Branch node 'r': no branch matches key 'k'");
    assert_eq!(WorkflowError::EmptyFork.to_string(), "Fork must have at least one branch");
}

#[test]
fn workflow_errors_tell_the_hashes() {
    let mismatch =
        WorkflowError::DefinitionMismatch { expected: "aa".to_string(), found: "bb".to_string() };
    assert_eq!(
        mismatch.to_string(),
        "Workflow definition mismatch: expected hash 'aa', found 'bb'"
    );
}

#[test]
fn workflow_errors_tell_the_reason_of_a_stop() {
    assert_eq!(WorkflowError::cancelled().to_string(), "Workflow cancelled");
    assert_eq!(WorkflowError::paused().to_string(), "Workflow paused");
    let cancelled = WorkflowError::Cancelled {
        reason: Some("budget".to_string()),
        cancelled_by: Some("ops".to_string()),
    };
    assert_eq!(cancelled.to_string(), "Workflow cancelled: budget");
    let paused = WorkflowError::Paused { reason: Some("audit".to_string()), paused_by: None };
    assert_eq!(paused.to_string(), "Workflow paused: audit");
    assert_eq!(
        WorkflowError::TaskPanicked("boom".to_string()).to_string(),
        "Task panicked: boom"
    );
    assert_eq!(
        WorkflowError::ResumeError("no snapshot".to_string()).to_string(),
        "Cannot resume workflow: no snapshot"
    );
}

#[test]
fn workflow_errors_tell_times() {
    let waiting = WorkflowError::Waiting { wake_at: at(1_700_000_000, 0) };
    assert_eq!(waiting.to_string(), "Workflow waiting until 2023-11-14 22:13:20 UTC");
    let late = WorkflowError::TaskTimedOut {
        task_id: "t".to_string(),
        timeout: Duration::from_millis(1500),
    };
    assert_eq!(late.to_string(), "Task 't' timed out after 1.5s");
    let signal = WorkflowError::AwaitingSignal {
        signal_id: "wait".to_string(),
        signal_name: "go".to_string(),
        wake_at: None,
    };
    assert_eq!(signal.to_string(), "Workflow awaiting signal 'go' at node 'wait'");
    let looped =
        WorkflowError::MaxIterationsExceeded { loop_id: "loop_0".to_string(), max_iterations: 7 };
    assert_eq!(looped.to_string(), "Loop 'loop_0' exceeded max iterations (7)");
}

#[test]
fn codec_errors_tell_the_task() {
    let decode = CodecError::DecodeFailed {
        task_id: "t".to_string(),
        expected_type: "u32".to_string(),
        source: BoxError { message: "bad byte".to_string() },
    };
    assert_eq!(
        decode.to_string(),
        "Failed to decode input for task 't' (expected u32): bad byte"
    );
    let encode = CodecError::EncodeFailed {
        task_id: "t".to_string(),
        source: BoxError { message: "too deep".to_string() },
    };
    assert_eq!(encode.to_string(), "Failed to encode output for task 't': too deep");
}

#[test]
fn hash_errors_tell_the_fault() {
    let short = Hash32::from_hex("abc").unwrap_err();
    assert_eq!(short.to_string(), "expected 64 hex characters, got 3");
    let bad = Hash32::from_hex(&"g".repeat(64)).unwrap_err();
    assert_eq!(bad.to_string(), "invalid hex character: 'g'");
    let control = Hash32::from_hex(&"\n".repeat(64)).unwrap_err();
    assert_eq!(control.to_string(), "invalid hex character: '\\n'");
}
