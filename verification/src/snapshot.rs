//! Workflow snapshot structures for checkpoint and restore.
//!
//! A snapshot captures the complete execution state of a workflow: where it is,
//! which tasks have completed, and their outputs. What the operations on a
//! snapshot do is stated over its contents, a [`Snap`].
use crate::duration;
use crate::duration::Duration;
use crate::string_map::{str_same, StringMap};
use crate::task::{Retry, RetryPolicy};
use crate::text;
use crate::text::{clone_bytes, clone_opt_text, clone_texts};
use crate::time;
use crate::time::{TimeDelta, Timestamp};
use crate::workflow;
use crate::workflow::{Status, WorkflowStatus};
use vstd::prelude::*;

verus! {

/// Pre-computed metadata about the next task to execute.
#[derive(Debug)]
pub struct TaskHint {
    /// The task identifier.
    pub id: String,
    /// Optional execution priority (lower = higher priority).
    pub priority: Option<u8>,
    /// Affinity tags for worker routing.
    pub tags: Vec<String>,
}

/// A persisted deadline for a running task.
#[derive(Debug)]
pub struct TaskDeadline {
    /// The task this deadline applies to.
    pub task_id: String,
    /// Absolute wall-clock deadline.
    pub deadline: Timestamp,
    /// Original configured timeout in milliseconds (for error reporting).
    pub timeout_ms: u64,
}

/// The contents of a [`TaskDeadline`].
pub struct Deadline {
    pub task_id: Seq<char>,
    pub deadline: Timestamp,
    pub timeout_ms: u64,
}

impl View for TaskDeadline {
    type V = Deadline;

    open spec fn view(&self) -> Deadline {
        Deadline {
            task_id: self.task_id@,
            deadline: self.deadline,
            timeout_ms: self.timeout_ms,
        }
    }
}

/// Durable retry state for a task that has failed and is pending retry.
#[derive(Debug)]
pub struct TaskRetryState {
    /// Number of retry attempts so far (starts at 1 after the first failure).
    pub attempts: u32,
    /// The retry policy governing the task.
    pub policy: RetryPolicy,
    /// Error message from the last failure.
    pub last_error: String,
    /// Worker ID that last failed the task (for soft worker-bias on retry).
    pub last_failed_worker: Option<String>,
    /// Absolute wall-clock time after which the next retry may begin.
    pub next_retry_at: Timestamp,
}

/// The contents of a [`TaskRetryState`].
pub struct RetryState {
    pub attempts: u32,
    pub policy: Retry,
    pub last_error: Seq<char>,
    pub last_failed_worker: Option<Seq<char>>,
    pub next_retry_at: Timestamp,
}

impl View for TaskRetryState {
    type V = RetryState;

    open spec fn view(&self) -> RetryState {
        RetryState {
            attempts: self.attempts,
            policy: self.policy@,
            last_error: self.last_error@,
            last_failed_worker: text::opt_text(self.last_failed_worker),
            next_retry_at: self.next_retry_at,
        }
    }
}

/// Result of a completed task execution.
#[derive(Debug)]
pub struct TaskResult {
    /// The task ID that produced this result.
    pub task_id: String,
    /// The serialized output of the task.
    pub output: Vec<u8>,
}

/// The contents of a [`TaskResult`].
pub struct Outcome {
    pub task_id: Seq<char>,
    pub output: Seq<u8>,
}

impl View for TaskResult {
    type V = Outcome;

    open spec fn view(&self) -> Outcome {
        Outcome { task_id: self.task_id@, output: self.output@ }
    }
}

/// The contents of a map of results.
pub open spec fn outcomes(m: Map<Seq<char>, TaskResult>) -> Map<Seq<char>, Outcome> {
    m.map_values(|r: TaskResult| r@)
}

/// The position in workflow execution.
#[allow(inconsistent_fields)]
pub enum ExecutionPosition {
    /// Workflow has not started yet.
    NotStarted,
    /// Execution is at the start of a task.
    AtTask {
        /// ID of the task to execute next.
        task_id: String,
    },
    /// Execution is parked at a fork because one or more branches hit a delay.
    AtFork {
        /// Fork node ID.
        fork_id: String,
        /// Branch results collected so far.
        completed_branches: StringMap<TaskResult>,
        /// Earliest time the fork can resume.
        wake_at: Timestamp,
    },
    /// Execution is at a join task, waiting for all branches.
    AtJoin {
        /// Join task ID.
        join_id: String,
        /// Branch results collected so far.
        completed_branches: StringMap<TaskResult>,
    },
    /// Execution is parked at a delay node, waiting for `wake_at`.
    AtDelay {
        /// Delay node ID.
        delay_id: String,
        /// When the delay was entered.
        entered_at: Timestamp,
        /// When the delay expires.
        wake_at: Timestamp,
        /// First task ID after the delay.
        next_task_id: Option<String>,
    },
    /// Execution is parked waiting for an external signal.
    AtSignal {
        /// Signal node ID.
        signal_id: String,
        /// Name of the signal being waited on.
        signal_name: String,
        /// Optional timeout deadline. `None` means wait indefinitely.
        wake_at: Option<Timestamp>,
        /// First task ID after the signal.
        next_task_id: Option<String>,
    },
    /// Execution is inside a loop at a given iteration.
    InLoop {
        /// Loop node ID.
        loop_id: String,
        /// Current iteration (0-based).
        iteration: u32,
        /// Next task to execute within the loop body.
        next_task_id: Option<String>,
    },
}

/// The contents of an [`ExecutionPosition`].
#[allow(inconsistent_fields)]
pub enum Position {
    NotStarted,
    AtTask { task_id: Seq<char> },
    AtFork {
        fork_id: Seq<char>,
        completed_branches: Map<Seq<char>, Outcome>,
        wake_at: Timestamp,
    },
    AtJoin { join_id: Seq<char>, completed_branches: Map<Seq<char>, Outcome> },
    AtDelay {
        delay_id: Seq<char>,
        entered_at: Timestamp,
        wake_at: Timestamp,
        next_task_id: Option<Seq<char>>,
    },
    AtSignal {
        signal_id: Seq<char>,
        signal_name: Seq<char>,
        wake_at: Option<Timestamp>,
        next_task_id: Option<Seq<char>>,
    },
    InLoop { loop_id: Seq<char>, iteration: u32, next_task_id: Option<Seq<char>> },
}

impl View for ExecutionPosition {
    type V = Position;

    open spec fn view(&self) -> Position {
        match *self {
            ExecutionPosition::NotStarted => Position::NotStarted,
            ExecutionPosition::AtTask { task_id } => Position::AtTask { task_id: task_id@ },
            ExecutionPosition::AtFork { fork_id, completed_branches, wake_at } =>
                Position::AtFork {
                fork_id: fork_id@,
                completed_branches: outcomes(completed_branches@),
                wake_at,
            },
            ExecutionPosition::AtJoin { join_id, completed_branches } => Position::AtJoin {
                join_id: join_id@,
                completed_branches: outcomes(completed_branches@),
            },
            ExecutionPosition::AtDelay { delay_id, entered_at, wake_at, next_task_id } =>
                Position::AtDelay {
                delay_id: delay_id@,
                entered_at,
                wake_at,
                next_task_id: text::opt_text(next_task_id),
            },
            ExecutionPosition::AtSignal { signal_id, signal_name, wake_at, next_task_id } =>
                Position::AtSignal {
                signal_id: signal_id@,
                signal_name: signal_name@,
                wake_at,
                next_task_id: text::opt_text(next_task_id),
            },
            ExecutionPosition::InLoop { loop_id, iteration, next_task_id } => Position::InLoop {
                loop_id: loop_id@,
                iteration,
                next_task_id: text::opt_text(next_task_id),
            },
        }
    }
}

/// The name of the kind of a position.
pub open spec fn position_name(p: Position) -> Seq<char> {
    match p {
        Position::NotStarted => "NotStarted"@,
        Position::AtTask { .. } => "AtTask"@,
        Position::AtFork { .. } => "AtFork"@,
        Position::AtJoin { .. } => "AtJoin"@,
        Position::AtDelay { .. } => "AtDelay"@,
        Position::AtSignal { .. } => "AtSignal"@,
        Position::InLoop { .. } => "InLoop"@,
    }
}

impl ExecutionPosition {
    /// The name of the kind of this position.
    pub fn as_ref(&self) -> (r: &'static str)
        ensures
            r@ == position_name(self@),
    {
        match self {
            ExecutionPosition::NotStarted => "NotStarted",
            ExecutionPosition::AtTask { .. } => "AtTask",
            ExecutionPosition::AtFork { .. } => "AtFork",
            ExecutionPosition::AtJoin { .. } => "AtJoin",
            ExecutionPosition::AtDelay { .. } => "AtDelay",
            ExecutionPosition::AtSignal { .. } => "AtSignal",
            ExecutionPosition::InLoop { .. } => "InLoop",
        }
    }
}

/// The contents of a request to cancel or to pause a workflow.
pub struct Request {
    pub reason: Option<Seq<char>>,
    pub requested_by: Option<Seq<char>>,
    pub requested_at: Timestamp,
}

/// A request to cancel a workflow.
#[derive(Debug)]
pub struct CancellationRequest {
    /// Optional reason for the cancellation.
    pub reason: Option<String>,
    /// Optional identifier of who requested the cancellation.
    pub requested_by: Option<String>,
    /// Timestamp when the cancellation was requested.
    pub requested_at: Timestamp,
}

/// A request to pause a workflow.
#[derive(Debug)]
pub struct PauseRequest {
    /// Optional reason for the pause.
    pub reason: Option<String>,
    /// Optional identifier of who requested the pause.
    pub requested_by: Option<String>,
    /// Timestamp when the pause was requested.
    pub requested_at: Timestamp,
}

/// A unified signal request that covers both cancel and pause.
#[derive(Debug)]
pub struct SignalRequest {
    /// Optional reason for the signal.
    pub reason: Option<String>,
    /// Optional identifier of who sent the signal.
    pub requested_by: Option<String>,
    /// Timestamp when the signal was sent.
    pub requested_at: Timestamp,
}

impl View for CancellationRequest {
    type V = Request;

    open spec fn view(&self) -> Request {
        Request {
            reason: text::opt_text(self.reason),
            requested_by: text::opt_text(self.requested_by),
            requested_at: self.requested_at,
        }
    }
}

impl View for PauseRequest {
    type V = Request;

    open spec fn view(&self) -> Request {
        Request {
            reason: text::opt_text(self.reason),
            requested_by: text::opt_text(self.requested_by),
            requested_at: self.requested_at,
        }
    }
}

impl View for SignalRequest {
    type V = Request;

    open spec fn view(&self) -> Request {
        Request {
            reason: text::opt_text(self.reason),
            requested_by: text::opt_text(self.requested_by),
            requested_at: self.requested_at,
        }
    }
}

impl CancellationRequest {
    /// A cancellation request made at `now`.
    pub fn new_at(reason: Option<String>, requested_by: Option<String>, now: Timestamp) -> (r: Self)
        ensures
            r.reason == reason,
            r.requested_by == requested_by,
            r.requested_at == now,
    {
        CancellationRequest { reason, requested_by, requested_at: now }
    }

    /// A cancellation request made now.
    pub fn new(reason: Option<String>, requested_by: Option<String>) -> (r: Self)
        ensures
            r.reason == reason,
            r.requested_by == requested_by,
            time::clock_gave(r.requested_at),
    {
        Self::new_at(reason, requested_by, Timestamp::now())
    }
}

impl PauseRequest {
    /// A pause request made at `now`.
    pub fn new_at(reason: Option<String>, requested_by: Option<String>, now: Timestamp) -> (r: Self)
        ensures
            r.reason == reason,
            r.requested_by == requested_by,
            r.requested_at == now,
    {
        PauseRequest { reason, requested_by, requested_at: now }
    }

    /// A pause request made now.
    pub fn new(reason: Option<String>, requested_by: Option<String>) -> (r: Self)
        ensures
            r.reason == reason,
            r.requested_by == requested_by,
            time::clock_gave(r.requested_at),
    {
        Self::new_at(reason, requested_by, Timestamp::now())
    }
}

impl SignalRequest {
    /// A signal request made at `now`.
    pub fn new_at(reason: Option<String>, requested_by: Option<String>, now: Timestamp) -> (r: Self)
        ensures
            r.reason == reason,
            r.requested_by == requested_by,
            r.requested_at == now,
    {
        SignalRequest { reason, requested_by, requested_at: now }
    }

    /// A signal request made now.
    pub fn new(reason: Option<String>, requested_by: Option<String>) -> (r: Self)
        ensures
            r.reason == reason,
            r.requested_by == requested_by,
            time::clock_gave(r.requested_at),
    {
        Self::new_at(reason, requested_by, Timestamp::now())
    }
}

impl vstd::std_specs::convert::FromSpecImpl<CancellationRequest> for SignalRequest {
    open spec fn obeys_from_spec() -> bool {
        true
    }

    open spec fn from_spec(r: CancellationRequest) -> Self {
        SignalRequest {
            reason: r.reason,
            requested_by: r.requested_by,
            requested_at: r.requested_at,
        }
    }
}

impl From<CancellationRequest> for SignalRequest {
    fn from(r: CancellationRequest) -> (s: Self)
        ensures
            s@ == r@,
    {
        SignalRequest {
            reason: r.reason,
            requested_by: r.requested_by,
            requested_at: r.requested_at,
        }
    }
}

impl vstd::std_specs::convert::FromSpecImpl<PauseRequest> for SignalRequest {
    open spec fn obeys_from_spec() -> bool {
        true
    }

    open spec fn from_spec(r: PauseRequest) -> Self {
        SignalRequest {
            reason: r.reason,
            requested_by: r.requested_by,
            requested_at: r.requested_at,
        }
    }
}

impl From<PauseRequest> for SignalRequest {
    fn from(r: PauseRequest) -> (s: Self)
        ensures
            s@ == r@,
    {
        SignalRequest {
            reason: r.reason,
            requested_by: r.requested_by,
            requested_at: r.requested_at,
        }
    }
}

impl vstd::std_specs::convert::FromSpecImpl<SignalRequest> for CancellationRequest {
    open spec fn obeys_from_spec() -> bool {
        true
    }

    open spec fn from_spec(r: SignalRequest) -> Self {
        CancellationRequest {
            reason: r.reason,
            requested_by: r.requested_by,
            requested_at: r.requested_at,
        }
    }
}

impl From<SignalRequest> for CancellationRequest {
    fn from(r: SignalRequest) -> (s: Self)
        ensures
            s@ == r@,
    {
        CancellationRequest {
            reason: r.reason,
            requested_by: r.requested_by,
            requested_at: r.requested_at,
        }
    }
}

impl vstd::std_specs::convert::FromSpecImpl<SignalRequest> for PauseRequest {
    open spec fn obeys_from_spec() -> bool {
        true
    }

    open spec fn from_spec(r: SignalRequest) -> Self {
        PauseRequest {
            reason: r.reason,
            requested_by: r.requested_by,
            requested_at: r.requested_at,
        }
    }
}

impl From<SignalRequest> for PauseRequest {
    fn from(r: SignalRequest) -> (s: Self)
        ensures
            s@ == r@,
    {
        PauseRequest {
            reason: r.reason,
            requested_by: r.requested_by,
            requested_at: r.requested_at,
        }
    }
}

/// A request survives the conversion to a signal request and back.
pub proof fn law_request_round_trip(c: CancellationRequest, p: PauseRequest)
    ensures
        <CancellationRequest as vstd::std_specs::convert::FromSpec<SignalRequest>>::from_spec(
            <SignalRequest as vstd::std_specs::convert::FromSpec<CancellationRequest>>::from_spec(c),
        ) == c,
        <PauseRequest as vstd::std_specs::convert::FromSpec<SignalRequest>>::from_spec(
            <SignalRequest as vstd::std_specs::convert::FromSpec<PauseRequest>>::from_spec(p),
        ) == p,
{
}

/// Kind of signal that can be sent to a running workflow.
#[derive(Debug, Clone, Copy, PartialEq, Eq, Hash, Structural)]
pub enum SignalKind {
    /// Request cancellation.
    Cancel,
    /// Request pause.
    Pause,
}

/// The name of a signal kind.
pub open spec fn signal_name(k: SignalKind) -> Seq<char> {
    match k {
        SignalKind::Cancel => "Cancel"@,
        SignalKind::Pause => "Pause"@,
    }
}

impl SignalKind {
    /// The name of the kind.
    pub fn as_ref(&self) -> (r: &'static str)
        ensures
            r@ == signal_name(*self),
    {
        match self {
            SignalKind::Cancel => "Cancel",
            SignalKind::Pause => "Pause",
        }
    }
}

/// Discriminant-only version of [`WorkflowSnapshotState`] for lightweight status checks.
#[derive(Debug, Clone, Copy, PartialEq, Eq, Structural)]
pub enum SnapshotStatus {
    /// Workflow is in progress.
    InProgress,
    /// Workflow completed successfully.
    Completed,
    /// Workflow failed with an error.
    Failed,
    /// Workflow was cancelled.
    Cancelled,
    /// Workflow was paused.
    Paused,
}

/// The name of a status.
pub open spec fn status_name(s: SnapshotStatus) -> Seq<char> {
    match s {
        SnapshotStatus::InProgress => "InProgress"@,
        SnapshotStatus::Completed => "Completed"@,
        SnapshotStatus::Failed => "Failed"@,
        SnapshotStatus::Cancelled => "Cancelled"@,
        SnapshotStatus::Paused => "Paused"@,
    }
}

/// Different statuses have different names.
pub proof fn law_status_names_differ(a: SnapshotStatus, b: SnapshotStatus)
    ensures
        status_name(a) == status_name(b) ==> a == b,
{
    reveal_strlit("InProgress");
    reveal_strlit("Completed");
    reveal_strlit("Failed");
    reveal_strlit("Cancelled");
    reveal_strlit("Paused");
    assert("InProgress"@[0] == 'I' && "Completed"@[0] == 'C' && "Failed"@[0] == 'F');
    assert("Cancelled"@[0] == 'C' && "Paused"@[0] == 'P');
    assert("Completed"@[1] == 'o' && "Cancelled"@[1] == 'a');
}

impl SnapshotStatus {
    /// The name of the status.
    pub fn as_ref(&self) -> (r: &'static str)
        ensures
            r@ == status_name(*self),
    {
        match self {
            SnapshotStatus::InProgress => "InProgress",
            SnapshotStatus::Completed => "Completed",
            SnapshotStatus::Failed => "Failed",
            SnapshotStatus::Cancelled => "Cancelled",
            SnapshotStatus::Paused => "Paused",
        }
    }

    /// The status with this name.
    pub fn from_str(s: &str) -> (r: Option<SnapshotStatus>)
        ensures
            match r {
                Some(k) => s@ == status_name(k),
                None => forall|k: SnapshotStatus| s@ != #[trigger] status_name(k),
            },
    {
        if str_same(s, "InProgress") {
            Some(SnapshotStatus::InProgress)
        } else if str_same(s, "Completed") {
            Some(SnapshotStatus::Completed)
        } else if str_same(s, "Failed") {
            Some(SnapshotStatus::Failed)
        } else if str_same(s, "Cancelled") {
            Some(SnapshotStatus::Cancelled)
        } else if str_same(s, "Paused") {
            Some(SnapshotStatus::Paused)
        } else {
            None
        }
    }
}

/// State of a workflow snapshot.
#[allow(inconsistent_fields)]
pub enum WorkflowSnapshotState {
    /// Workflow is in progress.
    InProgress {
        /// Current execution position.
        position: ExecutionPosition,
        /// Results from completed tasks (by task ID).
        completed_tasks: StringMap<TaskResult>,
        /// ID of the last completed task (for deterministic resume).
        last_completed_task_id: Option<String>,
    },
    /// Workflow completed successfully.
    Completed {
        /// Final output of the workflow.
        final_output: Vec<u8>,
    },
    /// Workflow failed with an error.
    Failed {
        /// Error message.
        error: String,
    },
    /// Workflow was cancelled.
    Cancelled {
        /// Optional reason for the cancellation.
        reason: Option<String>,
        /// Optional identifier of who cancelled the workflow.
        cancelled_by: Option<String>,
        /// Timestamp when the workflow was cancelled.
        cancelled_at: Timestamp,
        /// Results from tasks that completed before cancellation.
        completed_tasks: StringMap<TaskResult>,
        /// The task ID that was interrupted (if any).
        interrupted_at_task: Option<String>,
    },
    /// Workflow was paused. Position and last completed task are kept, so that it
    /// can resume from exactly where it stopped.
    Paused {
        /// Optional reason for the pause.
        reason: Option<String>,
        /// Optional identifier of who paused the workflow.
        paused_by: Option<String>,
        /// Timestamp when the workflow was paused.
        paused_at: Timestamp,
        /// Results from tasks that completed before pausing.
        completed_tasks: StringMap<TaskResult>,
        /// Execution position at the time of pause (for exact resume).
        position: ExecutionPosition,
        /// ID of the last completed task (for deterministic resume).
        last_completed_task_id: Option<String>,
    },
}

/// The contents of a [`WorkflowSnapshotState`].
pub enum State {
    InProgress {
        position: Position,
        completed: Map<Seq<char>, Outcome>,
        last: Option<Seq<char>>,
    },
    Completed { final_output: Seq<u8> },
    Failed { error: Seq<char> },
    Cancelled {
        reason: Option<Seq<char>>,
        cancelled_by: Option<Seq<char>>,
        cancelled_at: Timestamp,
        completed: Map<Seq<char>, Outcome>,
        interrupted_at_task: Option<Seq<char>>,
    },
    Paused {
        reason: Option<Seq<char>>,
        paused_by: Option<Seq<char>>,
        paused_at: Timestamp,
        completed: Map<Seq<char>, Outcome>,
        position: Position,
        last: Option<Seq<char>>,
    },
}

impl View for WorkflowSnapshotState {
    type V = State;

    open spec fn view(&self) -> State {
        match *self {
            WorkflowSnapshotState::InProgress {
                position,
                completed_tasks,
                last_completed_task_id,
            } => State::InProgress {
                position: position@,
                completed: outcomes(completed_tasks@),
                last: text::opt_text(last_completed_task_id),
            },
            WorkflowSnapshotState::Completed { final_output } => State::Completed {
                final_output: final_output@,
            },
            WorkflowSnapshotState::Failed { error } => State::Failed { error: error@ },
            WorkflowSnapshotState::Cancelled {
                reason,
                cancelled_by,
                cancelled_at,
                completed_tasks,
                interrupted_at_task,
            } => State::Cancelled {
                reason: text::opt_text(reason),
                cancelled_by: text::opt_text(cancelled_by),
                cancelled_at,
                completed: outcomes(completed_tasks@),
                interrupted_at_task: text::opt_text(interrupted_at_task),
            },
            WorkflowSnapshotState::Paused {
                reason,
                paused_by,
                paused_at,
                completed_tasks,
                position,
                last_completed_task_id,
            } => State::Paused {
                reason: text::opt_text(reason),
                paused_by: text::opt_text(paused_by),
                paused_at,
                completed: outcomes(completed_tasks@),
                position: position@,
                last: text::opt_text(last_completed_task_id),
            },
        }
    }
}

/// The status of a state.
pub open spec fn status_of(s: State) -> SnapshotStatus {
    match s {
        State::InProgress { .. } => SnapshotStatus::InProgress,
        State::Completed { .. } => SnapshotStatus::Completed,
        State::Failed { .. } => SnapshotStatus::Failed,
        State::Cancelled { .. } => SnapshotStatus::Cancelled,
        State::Paused { .. } => SnapshotStatus::Paused,
    }
}

/// A state that is never left: completed, failed or cancelled.
pub open spec fn terminal_state(s: State) -> bool {
    s is Completed || s is Failed || s is Cancelled
}

/// The status that is reported of a state that is not in progress.
pub open spec fn ended_status(s: State) -> Option<Status> {
    match s {
        State::Completed { .. } => Some(Status::Completed),
        State::Failed { error } => Some(Status::Failed(error)),
        State::Cancelled { reason, cancelled_by, .. } => Some(
            Status::Cancelled { reason, cancelled_by },
        ),
        State::Paused { reason, paused_by, .. } => Some(Status::Paused { reason, paused_by }),
        State::InProgress { .. } => None,
    }
}

/// The status that is reported of a state: parked positions are told apart.
pub open spec fn reported_status(s: State) -> Status {
    match ended_status(s) {
        Some(k) => k,
        None => match s {
            State::InProgress { position: Position::AtDelay { wake_at, delay_id, .. }, .. } =>
                Status::Waiting { wake_at, delay_id },
            State::InProgress { position: Position::AtFork { fork_id, wake_at, .. }, .. } =>
                Status::Waiting { wake_at, delay_id: fork_id },
            State::InProgress {
                position: Position::AtSignal { signal_id, signal_name, wake_at, .. },
                ..
            } => Status::AwaitingSignal { signal_id, signal_name, wake_at },
            _ => Status::InProgress,
        },
    }
}

impl WorkflowSnapshotState {
    /// Check if the workflow is completed.
    pub fn is_completed(&self) -> (r: bool)
        ensures
            r == (self@ is Completed),
    {
        match self {
            WorkflowSnapshotState::Completed { .. } => true,
            _ => false,
        }
    }

    /// Check if the workflow has failed.
    pub fn is_failed(&self) -> (r: bool)
        ensures
            r == (self@ is Failed),
    {
        match self {
            WorkflowSnapshotState::Failed { .. } => true,
            _ => false,
        }
    }

    /// Check if the workflow is still in progress.
    pub fn is_in_progress(&self) -> (r: bool)
        ensures
            r == (self@ is InProgress),
    {
        match self {
            WorkflowSnapshotState::InProgress { .. } => true,
            _ => false,
        }
    }

    /// Check if the workflow was cancelled.
    pub fn is_cancelled(&self) -> (r: bool)
        ensures
            r == (self@ is Cancelled),
    {
        match self {
            WorkflowSnapshotState::Cancelled { .. } => true,
            _ => false,
        }
    }

    /// Check if the workflow is paused.
    pub fn is_paused(&self) -> (r: bool)
        ensures
            r == (self@ is Paused),
    {
        match self {
            WorkflowSnapshotState::Paused { .. } => true,
            _ => false,
        }
    }

    /// Check if the workflow is in a terminal state (completed, failed, or cancelled).
    /// A paused workflow is not: it can be resumed.
    pub fn is_terminal(&self) -> (r: bool)
        ensures
            r == terminal_state(self@),
    {
        match self {
            WorkflowSnapshotState::Completed { .. } => true,
            WorkflowSnapshotState::Failed { .. } => true,
            WorkflowSnapshotState::Cancelled { .. } => true,
            _ => false,
        }
    }

    /// The status without what the state carries.
    pub fn status(&self) -> (r: SnapshotStatus)
        ensures
            r == status_of(self@),
    {
        match self {
            WorkflowSnapshotState::InProgress { .. } => SnapshotStatus::InProgress,
            WorkflowSnapshotState::Completed { .. } => SnapshotStatus::Completed,
            WorkflowSnapshotState::Failed { .. } => SnapshotStatus::Failed,
            WorkflowSnapshotState::Cancelled { .. } => SnapshotStatus::Cancelled,
            WorkflowSnapshotState::Paused { .. } => SnapshotStatus::Paused,
        }
    }

    /// The name of the status.
    pub fn as_ref(&self) -> (r: &'static str)
        ensures
            r@ == status_name(status_of(self@)),
    {
        self.status().as_ref()
    }

    /// The status of a state that is not in progress.
    pub fn as_terminal_status(&self) -> (r: Option<WorkflowStatus>)
        ensures
            workflow::opt_status(r) == ended_status(self@),
    {
        match self {
            WorkflowSnapshotState::Completed { .. } => Some(WorkflowStatus::Completed),
            WorkflowSnapshotState::Failed { error } => Some(WorkflowStatus::Failed(error.clone())),
            WorkflowSnapshotState::Cancelled { reason, cancelled_by, .. } => Some(
                WorkflowStatus::Cancelled {
                    reason: clone_opt_text(reason),
                    cancelled_by: clone_opt_text(cancelled_by),
                },
            ),
            WorkflowSnapshotState::Paused { reason, paused_by, .. } => Some(
                WorkflowStatus::Paused {
                    reason: clone_opt_text(reason),
                    paused_by: clone_opt_text(paused_by),
                },
            ),
            WorkflowSnapshotState::InProgress { .. } => None,
        }
    }

    /// The status of the state, in which parked positions (delay, signal, fork) are
    /// told apart from plain progress.
    pub fn as_status(&self) -> (r: WorkflowStatus)
        ensures
            r@ == reported_status(self@),
    {
        if let Some(ended) = self.as_terminal_status() {
            return ended;
        }
        match self {
            WorkflowSnapshotState::InProgress { position, .. } => match position {
                ExecutionPosition::AtDelay { wake_at, delay_id, .. } => WorkflowStatus::Waiting {
                    wake_at: *wake_at,
                    delay_id: delay_id.clone(),
                },
                ExecutionPosition::AtFork { fork_id, wake_at, .. } => WorkflowStatus::Waiting {
                    wake_at: *wake_at,
                    delay_id: fork_id.clone(),
                },
                ExecutionPosition::AtSignal { signal_id, signal_name, wake_at, .. } => {
                    WorkflowStatus::AwaitingSignal {
                        signal_id: signal_id.clone(),
                        signal_name: signal_name.clone(),
                        wake_at: *wake_at,
                    }
                },
                _ => WorkflowStatus::InProgress,
            },
            _ => WorkflowStatus::InProgress,
        }
    }

    /// The final output of a completed workflow.
    pub fn completed_output(&self) -> (r: Option<&Vec<u8>>)
        ensures
            match r {
                Some(b) => self@ == (State::Completed { final_output: b@ }),
                None => !(self@ is Completed),
            },
    {
        match self {
            WorkflowSnapshotState::Completed { final_output } => Some(final_output),
            _ => None,
        }
    }

    /// Reason and author of a cancellation.
    pub fn cancellation_details(&self) -> (r: Option<(Option<String>, Option<String>)>)
        ensures
            match r {
                Some(d) => self@ matches State::Cancelled { reason, cancelled_by, .. }
                    && text::opt_text(d.0) == reason && text::opt_text(d.1) == cancelled_by,
                None => !(self@ is Cancelled),
            },
    {
        match self {
            WorkflowSnapshotState::Cancelled { reason, cancelled_by, .. } => Some(
                (clone_opt_text(reason), clone_opt_text(cancelled_by)),
            ),
            _ => None,
        }
    }

    /// Reason and author of a pause.
    pub fn pause_details(&self) -> (r: Option<(Option<String>, Option<String>)>)
        ensures
            match r {
                Some(d) => self@ matches State::Paused { reason, paused_by, .. }
                    && text::opt_text(d.0) == reason && text::opt_text(d.1) == paused_by,
                None => !(self@ is Paused),
            },
    {
        match self {
            WorkflowSnapshotState::Paused { reason, paused_by, .. } => Some(
                (clone_opt_text(reason), clone_opt_text(paused_by)),
            ),
            _ => None,
        }
    }
}

/// A state is in exactly one of the five conditions, and terminal exactly if it is
/// completed, failed or cancelled. A status is reported of every state that is not
/// in progress.
pub proof fn law_state_conditions(s: State)
    ensures
        s is InProgress || s is Completed || s is Failed || s is Cancelled || s is Paused,
        s is InProgress ==> !(s is Completed || s is Failed || s is Cancelled || s is Paused),
        s is Completed ==> !(s is Failed || s is Cancelled || s is Paused),
        s is Failed ==> !(s is Cancelled || s is Paused),
        s is Cancelled ==> !(s is Paused),
        terminal_state(s) <==> s is Completed || s is Failed || s is Cancelled,
        ended_status(s) is Some <==> !(s is InProgress),
{
}

/// A complete snapshot of workflow execution state.
pub struct WorkflowSnapshot {
    /// Unique identifier for this workflow instance.
    pub instance_id: String,
    /// Hash of the workflow definition (for validation).
    pub definition_hash: String,
    /// Current state of execution.
    pub state: WorkflowSnapshotState,
    /// When this snapshot was created (Unix timestamp).
    pub created_at: u64,
    /// When this snapshot was last updated (Unix timestamp).
    pub updated_at: u64,
    /// Initial input to the workflow (for resuming from start).
    pub initial_input: Option<Vec<u8>>,
    /// Active task deadline (set when a task with a timeout starts executing).
    pub task_deadline: Option<TaskDeadline>,
    /// Retry state for tasks that have failed and are pending retry.
    pub task_retries: StringMap<TaskRetryState>,
    /// Current iteration counts for active loops (keyed by loop ID).
    pub loop_iterations: StringMap<u32>,
    /// Execution priority of the current task (1–5).
    pub task_priority: Option<u8>,
    /// Affinity tags of the current task.
    pub task_tags: Vec<String>,
    /// W3C `traceparent` header, carried in memory only.
    pub trace_parent: Option<String>,
}

/// The contents of a [`WorkflowSnapshot`].
pub struct Snap {
    pub instance_id: Seq<char>,
    pub definition_hash: Seq<char>,
    pub state: State,
    pub created_at: u64,
    pub updated_at: u64,
    pub initial_input: Option<Seq<u8>>,
    pub task_deadline: Option<Deadline>,
    pub task_retries: Map<Seq<char>, RetryState>,
    pub loop_iterations: Map<Seq<char>, u32>,
    pub task_priority: Option<u8>,
    pub task_tags: Seq<Seq<char>>,
    pub trace_parent: Option<Seq<char>>,
}

/// The contents of an optional byte string.
pub open spec fn opt_bytes(o: Option<Vec<u8>>) -> Option<Seq<u8>> {
    match o {
        Some(b) => Some(b@),
        None => None,
    }
}

/// The contents of a map of retry states.
pub open spec fn retry_states(m: Map<Seq<char>, TaskRetryState>) -> Map<Seq<char>, RetryState> {
    m.map_values(|r: TaskRetryState| r@)
}

impl View for WorkflowSnapshot {
    type V = Snap;

    open spec fn view(&self) -> Snap {
        Snap {
            instance_id: self.instance_id@,
            definition_hash: self.definition_hash@,
            state: self.state@,
            created_at: self.created_at,
            updated_at: self.updated_at,
            initial_input: opt_bytes(self.initial_input),
            task_deadline: match self.task_deadline {
                Some(d) => Some(d@),
                None => None,
            },
            task_retries: retry_states(self.task_retries@),
            loop_iterations: self.loop_iterations@,
            task_priority: self.task_priority,
            task_tags: text::texts(self.task_tags@),
            trace_parent: text::opt_text(self.trace_parent),
        }
    }
}

/// A snapshot of a workflow that has not started.
pub open spec fn fresh(
    instance_id: Seq<char>,
    definition_hash: Seq<char>,
    initial_input: Option<Seq<u8>>,
    at: u64,
) -> Snap {
    Snap {
        instance_id,
        definition_hash,
        state: State::InProgress { position: Position::NotStarted, completed: Map::empty(), last: None },
        created_at: at,
        updated_at: at,
        initial_input,
        task_deadline: None,
        task_retries: Map::empty(),
        loop_iterations: Map::empty(),
        task_priority: None,
        task_tags: seq![],
        trace_parent: None,
    }
}

/// The results that a state retains.
pub open spec fn retained(s: State) -> Option<Map<Seq<char>, Outcome>> {
    match s {
        State::InProgress { completed, .. } => Some(completed),
        State::Cancelled { completed, .. } => Some(completed),
        State::Paused { completed, .. } => Some(completed),
        State::Completed { .. } => None,
        State::Failed { .. } => None,
    }
}

/// The result of a task that a state retains.
pub open spec fn retained_result(s: State, task_id: Seq<char>) -> Option<Outcome> {
    match retained(s) {
        Some(m) => if m.dom().contains(task_id) {
            Some(m[task_id])
        } else {
            None
        },
        None => None,
    }
}

/// The output of the task that completed last.
pub open spec fn last_output(s: State) -> Option<Seq<u8>> {
    match s {
        State::InProgress { completed, last, .. } => match last {
            Some(id) => if completed.dom().contains(id) {
                Some(completed[id].output)
            } else {
                None
            },
            None => None,
        },
        _ => None,
    }
}

/// A snapshot in which a task has completed. Only a workflow in progress takes
/// results.
pub open spec fn with_result(s: Snap, task_id: Seq<char>, output: Seq<u8>, at: u64) -> Snap {
    match s.state {
        State::InProgress { position, completed, last } => Snap {
            state: State::InProgress {
                position,
                completed: completed.insert(task_id, Outcome { task_id, output }),
                last: Some(task_id),
            },
            updated_at: at,
            ..s
        },
        _ => s,
    }
}

/// A snapshot without the result of a task.
pub open spec fn without_result(s: Snap, task_id: Seq<char>, at: u64) -> Snap {
    match s.state {
        State::InProgress { position, completed, last } => Snap {
            state: State::InProgress { position, completed: completed.remove(task_id), last },
            updated_at: at,
            ..s
        },
        _ => s,
    }
}

/// A snapshot at another position. Only a workflow in progress moves.
pub open spec fn moved_to(s: Snap, position: Position, at: u64) -> Snap {
    match s.state {
        State::InProgress { position: _, completed, last } => Snap {
            state: State::InProgress { position, completed, last },
            updated_at: at,
            ..s
        },
        _ => s,
    }
}

/// A snapshot that has ended in a state: nothing is pending any more.
pub open spec fn ended(s: Snap, state: State, at: u64) -> Snap {
    Snap {
        state,
        task_deadline: None,
        task_retries: Map::empty(),
        loop_iterations: Map::empty(),
        updated_at: at,
        ..s
    }
}

/// A snapshot that was paused. Only a workflow in progress can be paused.
pub open spec fn paused(s: Snap, request: Request, at: Timestamp) -> Snap {
    match s.state {
        State::InProgress { position, completed, last } => Snap {
            state: State::Paused {
                reason: request.reason,
                paused_by: request.requested_by,
                paused_at: at,
                completed,
                position,
                last,
            },
            task_deadline: None,
            updated_at: time::unsigned_secs(at.parts().0),
            ..s
        },
        _ => s,
    }
}

/// A snapshot that goes on where it was paused.
pub open spec fn unpaused(s: Snap, at: u64) -> Snap {
    match s.state {
        State::Paused { completed, position, last, .. } => Snap {
            state: State::InProgress { position, completed, last },
            updated_at: at,
            ..s
        },
        _ => s,
    }
}

/// A snapshot that was cancelled. The results that its state holds are kept.
pub open spec fn cancelled(
    s: Snap,
    reason: Option<Seq<char>>,
    cancelled_by: Option<Seq<char>>,
    interrupted_at_task: Option<Seq<char>>,
    at: Timestamp,
) -> Snap {
    Snap {
        state: State::Cancelled {
            reason,
            cancelled_by,
            cancelled_at: at,
            completed: match s.state {
                State::InProgress { completed, .. } => completed,
                State::Paused { completed, .. } => completed,
                State::Cancelled { completed, .. } => completed,
                _ => Map::empty(),
            },
            interrupted_at_task,
        },
        task_deadline: None,
        updated_at: time::unsigned_secs(at.parts().0),
        ..s
    }
}

/// The task and the timeout of a deadline that has passed at an instant.
pub open spec fn expired_at(deadline: Option<Deadline>, now: (i64, u32)) -> Option<
    (Seq<char>, Duration),
> {
    match deadline {
        Some(d) => if time::not_before(now, d.deadline.parts()) {
            Some((d.task_id, duration::of_millis(d.timeout_ms)))
        } else {
            None
        },
        None => None,
    }
}

/// The contents of a task and a timeout.
pub open spec fn opt_expired(r: Option<(&str, Duration)>) -> Option<(Seq<char>, Duration)> {
    match r {
        Some(x) => Some((x.0@, x.1)),
        None => None,
    }
}

/// The number of failed attempts recorded for a task.
pub open spec fn attempts(s: Snap, task_id: Seq<char>) -> u32 {
    if s.task_retries.dom().contains(task_id) {
        s.task_retries[task_id].attempts
    } else {
        0
    }
}

/// A snapshot in which another failed attempt of a task is recorded.
pub open spec fn with_retry(
    s: Snap,
    task_id: Seq<char>,
    policy: Retry,
    error: Seq<char>,
    worker: Option<Seq<char>>,
    next_retry_at: Timestamp,
    at: u64,
) -> Snap {
    Snap {
        task_retries: s.task_retries.insert(
            task_id,
            RetryState {
                attempts: (attempts(s, task_id) + 1) as u32,
                policy,
                last_error: error,
                last_failed_worker: worker,
                next_retry_at,
            },
        ),
        updated_at: at,
        ..s
    }
}

impl WorkflowSnapshot {
    /// Apply a [`TaskHint`] to this snapshot, setting priority and tags.
    pub fn set_task_hint(&mut self, hint: &TaskHint)
        ensures
            final(self)@ == (Snap {
                task_priority: hint.priority,
                task_tags: text::texts(hint.tags@),
                ..old(self)@
            }),
    {
        self.task_priority = hint.priority;
        self.task_tags = clone_texts(&hint.tags);
    }

    /// A snapshot of a workflow that has not started, made at `now`.
    pub fn new_at(
        instance_id: String,
        definition_hash: String,
        initial_input: Option<Vec<u8>>,
        now: Timestamp,
    ) -> (r: Self)
        ensures
            r@ == fresh(
                instance_id@,
                definition_hash@,
                opt_bytes(initial_input),
                time::unsigned_secs(now.parts().0),
            ),
    {
        let at: u64 = now.unix();
        let r = WorkflowSnapshot {
            instance_id,
            definition_hash,
            state: WorkflowSnapshotState::InProgress {
                position: ExecutionPosition::NotStarted,
                completed_tasks: StringMap::new(),
                last_completed_task_id: None,
            },
            created_at: at,
            updated_at: at,
            initial_input,
            task_deadline: None,
            task_retries: StringMap::new(),
            loop_iterations: StringMap::new(),
            task_priority: None,
            task_tags: Vec::new(),
            trace_parent: None,
        };
        proof {
            assert(r@.task_retries =~= Map::<Seq<char>, RetryState>::empty());
            assert(r@.task_tags =~= seq![]);
            assert(r@.state->InProgress_completed =~= Map::<Seq<char>, Outcome>::empty());
        }
        r
    }

    /// A snapshot of a workflow that has not started.
    pub fn new(instance_id: String, definition_hash: String) -> (r: Self)
        ensures
            exists|now: Timestamp| #[trigger]
                time::clock_gave(now) && r@ == fresh(
                    instance_id@,
                    definition_hash@,
                    None,
                    time::unsigned_secs(now.parts().0),
                ),
    {
        Self::new_at(instance_id, definition_hash, None, Timestamp::now())
    }

    /// A snapshot of a workflow that has not started, with its initial input.
    pub fn with_initial_input(
        instance_id: String,
        definition_hash: String,
        initial_input: Vec<u8>,
    ) -> (r: Self)
        ensures
            exists|now: Timestamp| #[trigger]
                time::clock_gave(now) && r@ == fresh(
                    instance_id@,
                    definition_hash@,
                    Some(initial_input@),
                    time::unsigned_secs(now.parts().0),
                ),
    {
        Self::new_at(instance_id, definition_hash, Some(initial_input), Timestamp::now())
    }

    /// The initial input.
    pub fn initial_input_bytes(&self) -> (r: Option<Vec<u8>>)
        ensures
            opt_bytes(r) == self@.initial_input,
    {
        match &self.initial_input {
            Some(b) => Some(clone_bytes(b)),
            None => None,
        }
    }

    /// All results that the state retains.
    pub fn get_all_task_results(&self) -> (r: Option<&StringMap<TaskResult>>)
        ensures
            match r {
                Some(m) => retained(self@.state) == Some(outcomes(m@)),
                None => retained(self@.state) is None,
            },
    {
        match &self.state {
            WorkflowSnapshotState::InProgress { completed_tasks, .. } => Some(completed_tasks),
            WorkflowSnapshotState::Cancelled { completed_tasks, .. } => Some(completed_tasks),
            WorkflowSnapshotState::Paused { completed_tasks, .. } => Some(completed_tasks),
            WorkflowSnapshotState::Completed { .. } => None,
            WorkflowSnapshotState::Failed { .. } => None,
        }
    }

    /// The result of a completed task, if the state retains it.
    pub fn get_task_result(&self, task_id: &str) -> (r: Option<&TaskResult>)
        ensures
            (match r {
                Some(x) => Some(x@),
                None => None,
            }) == retained_result(self@.state, task_id@),
    {
        match self.get_all_task_results() {
            Some(m) => m.get(task_id),
            None => None,
        }
    }

    /// The output of a completed task, if the state retains it.
    pub fn get_task_result_bytes(&self, task_id: &str) -> (r: Option<Vec<u8>>)
        ensures
            opt_bytes(r) == (match retained_result(self@.state, task_id@) {
                Some(x) => Some(x.output),
                None => None,
            }),
    {
        match self.get_task_result(task_id) {
            Some(x) => Some(clone_bytes(&x.output)),
            None => None,
        }
    }

    /// Mark a task as completed at `now` and store its result.
    pub fn mark_task_completed_at(&mut self, task_id: String, output: Vec<u8>, now: Timestamp)
        ensures
            final(self)@ == with_result(
                old(self)@,
                task_id@,
                output@,
                time::unsigned_secs(now.parts().0),
            ),
    {
        let ghost before = self.state@;
        if let WorkflowSnapshotState::InProgress {
            completed_tasks,
            last_completed_task_id,
            ..
        } = &mut self.state {
            let ghost m = completed_tasks@;
            let result = TaskResult { task_id: task_id.clone(), output };
            let ghost o = result@;
            completed_tasks.insert(task_id.clone(), result);
            proof {
                assert(outcomes(completed_tasks@) =~= outcomes(m).insert(task_id@, o));
            }
            *last_completed_task_id = Some(task_id);
            self.updated_at = now.unix();
        }
    }

    /// Mark a task as completed and store its result.
    pub fn mark_task_completed(&mut self, task_id: String, output: Vec<u8>)
        ensures
            exists|now: Timestamp| #[trigger]
                time::clock_gave(now) && final(self)@ == with_result(
                    old(self)@,
                    task_id@,
                    output@,
                    time::unsigned_secs(now.parts().0),
                ),
    {
        self.mark_task_completed_at(task_id, output, Timestamp::now());
    }

    /// The output of the task that completed last.
    pub fn get_last_task_output(&self) -> (r: Option<Vec<u8>>)
        ensures
            opt_bytes(r) == last_output(self@.state),
    {
        match &self.state {
            WorkflowSnapshotState::InProgress {
                completed_tasks,
                last_completed_task_id,
                ..
            } => match last_completed_task_id {
                Some(id) => match completed_tasks.get(id.as_str()) {
                    Some(x) => Some(clone_bytes(&x.output)),
                    None => None,
                },
                None => None,
            },
            _ => None,
        }
    }

    /// The final output of a completed workflow.
    pub fn final_output_bytes(&self) -> (r: Option<Vec<u8>>)
        ensures
            opt_bytes(r) == (match self@.state {
                State::Completed { final_output } => Some(final_output),
                _ => None,
            }),
    {
        match &self.state {
            WorkflowSnapshotState::Completed { final_output } => Some(clone_bytes(final_output)),
            _ => None,
        }
    }

    /// Move to another position at `now`.
    pub fn update_position_at(&mut self, position: ExecutionPosition, now: Timestamp)
        ensures
            final(self)@ == moved_to(old(self)@, position@, time::unsigned_secs(now.parts().0)),
    {
        if let WorkflowSnapshotState::InProgress { position: pos, .. } = &mut self.state {
            *pos = position;
            self.updated_at = now.unix();
        }
    }

    /// Move to another position.
    pub fn update_position(&mut self, position: ExecutionPosition)
        ensures
            exists|now: Timestamp| #[trigger]
                time::clock_gave(now) && final(self)@ == moved_to(
                    old(self)@,
                    position@,
                    time::unsigned_secs(now.parts().0),
                ),
    {
        self.update_position_at(position, Timestamp::now());
    }

    /// Set the deadline of a task that starts at `now` with a timeout. The deadline
    /// has to lie within the calendar.
    pub fn set_task_deadline(&mut self, task_id: String, timeout: Duration, now: Timestamp)
        requires
            timeout.wf(),
            deadline_after(now, timeout) is Some,
        ensures
            final(self)@.task_deadline matches Some(d) && d.task_id == task_id@ && deadline_after(
                now,
                timeout,
            ) == Some(d.deadline.parts()) && d.timeout_ms == duration::millis64(timeout),
            final(self)@ == (Snap {
                task_deadline: final(self)@.task_deadline,
                ..old(self)@
            }),
    {
        let delta = TimeDelta::from_duration(timeout);
        if let Some(deadline) = now.checked_add_signed(delta) {
            self.task_deadline = Some(
                TaskDeadline { task_id, deadline, timeout_ms: timeout.as_millis64() },
            );
        }
    }

    /// Start the timeout of the active deadline anew at `now`. The deadline has to lie
    /// within the calendar.
    pub fn refresh_task_deadline(&mut self, now: Timestamp)
        requires
            old(self)@.task_deadline matches Some(d) ==> refreshed_deadline(
                now,
                d.timeout_ms,
            ) is Some,
        ensures
            match old(self)@.task_deadline {
                Some(d) => final(self)@.task_deadline matches Some(e) && e.task_id == d.task_id
                    && e.timeout_ms == d.timeout_ms && refreshed_deadline(now, d.timeout_ms)
                    == Some(e.deadline.parts()),
                None => final(self)@.task_deadline is None,
            },
            final(self)@ == (Snap {
                task_deadline: final(self)@.task_deadline,
                ..old(self)@
            }),
    {
        if let Some(d) = &mut self.task_deadline {
            let ms: i64 = signed_millis(d.timeout_ms);
            if let Some(delta) = TimeDelta::try_milliseconds(ms) {
                if let Some(deadline) = now.checked_add_signed(delta) {
                    d.deadline = deadline;
                }
            }
        }
    }

    /// Drop the active deadline.
    pub fn clear_task_deadline(&mut self)
        ensures
            final(self)@ == (Snap { task_deadline: None, ..old(self)@ }),
    {
        self.task_deadline = None;
    }

    /// The task whose deadline has passed at `now`, with its timeout.
    pub fn expired_task_deadline_at(&self, now: &Timestamp) -> (r: Option<(&str, Duration)>)
        ensures
            opt_expired(r) == expired_at(self@.task_deadline, now.parts()),
    {
        match &self.task_deadline {
            Some(d) => {
                if now.reached(&d.deadline) {
                    Some((d.task_id.as_str(), Duration::from_millis(d.timeout_ms)))
                } else {
                    None
                }
            },
            None => None,
        }
    }

    /// The task whose deadline has passed, with its timeout. The time is that of the
    /// clock, which is not before 1970.
    pub fn expired_task_deadline(&self) -> (r: Option<(&str, Duration)>)
        ensures
            exists|now: Timestamp| #[trigger]
                time::clock_gave(now) && opt_expired(r) == expired_at(
                    self@.task_deadline,
                    now.parts(),
                ),
            (self@.task_deadline matches Some(d) && time::not_before(
                (0i64, 0u32),
                d.deadline.parts(),
            )) ==> r is Some,
            self@.task_deadline is None ==> r is None,
    {
        let now = Timestamp::now();
        self.expired_task_deadline_at(&now)
    }

    /// Record a failed attempt of a task at `now`, to be retried after `delay_ms`
    /// milliseconds or the maximum delay of the policy, whichever is shorter. The time of
    /// the retry has to lie within the calendar, and the count of attempts within 32 bits.
    pub fn record_retry(
        &mut self,
        task_id: &str,
        policy: &RetryPolicy,
        error: &str,
        worker_id: Option<&str>,
        delay_ms: i64,
        now: Timestamp,
    ) -> (r: Timestamp)
        requires
            attempts(old(self)@, task_id@) < u32::MAX,
            retry_time(now, capped_delay(delay_ms, policy.max_delay)) is Some,
        ensures
            retry_time(now, capped_delay(delay_ms, policy.max_delay)) == Some(r.parts()),
            final(self)@ == with_retry(
                old(self)@,
                task_id@,
                policy@,
                error@,
                crate::continuation::opt_str(worker_id),
                r,
                time::unsigned_secs(now.parts().0),
            ),
    {
        let earlier: u32 = match self.task_retries.get(task_id) {
            Some(state) => state.attempts,
            None => 0,
        };
        let next_retry_at = match TimeDelta::try_milliseconds(
            cap_delay(delay_ms, policy.max_delay),
        ) {
            Some(delta) => match now.checked_add_signed(delta) {
                Some(t) => t,
                None => now,
            },
            None => now,
        };
        let ghost before = self.task_retries@;
        let state = TaskRetryState {
            attempts: earlier + 1,
            policy: policy.clone(),
            last_error: String::from_str(error),
            last_failed_worker: match worker_id {
                Some(w) => Some(String::from_str(w)),
                None => None,
            },
            next_retry_at,
        };
        let ghost put = state@;
        self.task_retries.insert(String::from_str(task_id), state);
        proof {
            assert(retry_states(self.task_retries@) =~= retry_states(before).insert(task_id@, put));
        }
        self.updated_at = now.unix();
        next_retry_at
    }

    /// The retry state of a task.
    pub fn get_retry_state(&self, task_id: &str) -> (r: Option<&TaskRetryState>)
        ensures
            match r {
                Some(x) => self@.task_retries.dom().contains(task_id@) && x@
                    == self@.task_retries[task_id@],
                None => !self@.task_retries.dom().contains(task_id@),
            },
    {
        self.task_retries.get(task_id)
    }

    /// Forget the retry state of a task.
    pub fn clear_retry_state(&mut self, task_id: &str)
        ensures
            final(self)@ == (Snap {
                task_retries: old(self)@.task_retries.remove(task_id@),
                ..old(self)@
            }),
    {
        let ghost before = self.task_retries@;
        let _ = self.task_retries.remove(task_id);
        proof {
            assert(retry_states(self.task_retries@) =~= retry_states(before).remove(task_id@));
        }
    }

    /// Whether a task has used up its retries.
    pub fn retries_exhausted(&self, task_id: &str) -> (r: bool)
        ensures
            r == (self@.task_retries.dom().contains(task_id@)
                && self@.task_retries[task_id@].attempts
                >= self@.task_retries[task_id@].policy.max_retries),
    {
        match self.task_retries.get(task_id) {
            Some(state) => state.attempts >= state.policy.max_retries,
            None => false,
        }
    }

    /// The current iteration of a loop; 0 where none was set.
    pub fn loop_iteration(&self, loop_id: &str) -> (r: u32)
        ensures
            r == (if self@.loop_iterations.dom().contains(loop_id@) {
                self@.loop_iterations[loop_id@]
            } else {
                0
            }),
    {
        match self.loop_iterations.get(loop_id) {
            Some(n) => *n,
            None => 0,
        }
    }

    /// Set the current iteration of a loop at `now`.
    pub fn set_loop_iteration_at(&mut self, loop_id: &str, iteration: u32, now: Timestamp)
        ensures
            final(self)@ == (Snap {
                loop_iterations: old(self)@.loop_iterations.insert(loop_id@, iteration),
                updated_at: time::unsigned_secs(now.parts().0),
                ..old(self)@
            }),
    {
        self.loop_iterations.insert(String::from_str(loop_id), iteration);
        self.updated_at = now.unix();
    }

    /// Set the current iteration of a loop.
    pub fn set_loop_iteration(&mut self, loop_id: &str, iteration: u32)
        ensures
            exists|now: Timestamp| #[trigger]
                time::clock_gave(now) && final(self)@ == (Snap {
                    loop_iterations: old(self)@.loop_iterations.insert(loop_id@, iteration),
                    updated_at: time::unsigned_secs(now.parts().0),
                    ..old(self)@
                }),
    {
        self.set_loop_iteration_at(loop_id, iteration, Timestamp::now());
    }

    /// Forget the current iteration of a loop.
    pub fn clear_loop_iteration(&mut self, loop_id: &str)
        ensures
            final(self)@ == (Snap {
                loop_iterations: old(self)@.loop_iterations.remove(loop_id@),
                ..old(self)@
            }),
    {
        let _ = self.loop_iterations.remove(loop_id);
    }

    /// Drop the result of a task at `now`.
    pub fn remove_task_result_at(&mut self, task_id: &str, now: Timestamp)
        ensures
            final(self)@ == without_result(
                old(self)@,
                task_id@,
                time::unsigned_secs(now.parts().0),
            ),
    {
        if let WorkflowSnapshotState::InProgress { completed_tasks, .. } = &mut self.state {
            let ghost m = completed_tasks@;
            let _ = completed_tasks.remove(task_id);
            proof {
                assert(outcomes(completed_tasks@) =~= outcomes(m).remove(task_id@));
            }
            self.updated_at = now.unix();
        }
    }

    /// Drop the result of a task.
    pub fn remove_task_result(&mut self, task_id: &str)
        ensures
            exists|now: Timestamp| #[trigger]
                time::clock_gave(now) && final(self)@ == without_result(
                    old(self)@,
                    task_id@,
                    time::unsigned_secs(now.parts().0),
                ),
    {
        self.remove_task_result_at(task_id, Timestamp::now());
    }

    /// End in a state at `now`.
    fn end_at(&mut self, state: WorkflowSnapshotState, now: Timestamp)
        ensures
            final(self)@ == ended(old(self)@, state@, time::unsigned_secs(now.parts().0)),
    {
        self.task_deadline = None;
        self.task_retries.clear();
        self.loop_iterations.clear();
        self.state = state;
        self.updated_at = now.unix();
        proof {
            assert(retry_states(self.task_retries@) =~= Map::<Seq<char>, RetryState>::empty());
        }
    }

    /// Mark the workflow as completed at `now`.
    pub fn mark_completed_at(&mut self, final_output: Vec<u8>, now: Timestamp)
        ensures
            final(self)@ == ended(
                old(self)@,
                State::Completed { final_output: final_output@ },
                time::unsigned_secs(now.parts().0),
            ),
    {
        self.end_at(WorkflowSnapshotState::Completed { final_output }, now);
    }

    /// Mark the workflow as completed.
    pub fn mark_completed(&mut self, final_output: Vec<u8>)
        ensures
            exists|now: Timestamp| #[trigger]
                time::clock_gave(now) && final(self)@ == ended(
                    old(self)@,
                    State::Completed { final_output: final_output@ },
                    time::unsigned_secs(now.parts().0),
                ),
    {
        self.mark_completed_at(final_output, Timestamp::now());
    }

    /// Mark the workflow as failed at `now`.
    pub fn mark_failed_at(&mut self, error: String, now: Timestamp)
        ensures
            final(self)@ == ended(
                old(self)@,
                State::Failed { error: error@ },
                time::unsigned_secs(now.parts().0),
            ),
    {
        self.end_at(WorkflowSnapshotState::Failed { error }, now);
    }

    /// Mark the workflow as failed.
    pub fn mark_failed(&mut self, error: String)
        ensures
            exists|now: Timestamp| #[trigger]
                time::clock_gave(now) && final(self)@ == ended(
                    old(self)@,
                    State::Failed { error: error@ },
                    time::unsigned_secs(now.parts().0),
                ),
    {
        self.mark_failed_at(error, Timestamp::now());
    }

    /// Take the state out, leaving a placeholder.
    fn take_state(&mut self) -> (r: WorkflowSnapshotState)
        ensures
            r == old(self).state,
            final(self)@ == (Snap { state: final(self)@.state, ..old(self)@ }),
    {
        let mut taken = WorkflowSnapshotState::Failed { error: String::new() };
        std::mem::swap(&mut taken, &mut self.state);
        taken
    }

    /// Mark the workflow as paused at `now`. Only a workflow in progress can be paused.
    pub fn mark_paused_at(&mut self, request: &PauseRequest, now: Timestamp)
        ensures
            final(self)@ == paused(old(self)@, request@, now),
    {
        match self.take_state() {
            WorkflowSnapshotState::InProgress {
                position,
                completed_tasks,
                last_completed_task_id,
            } => {
                self.task_deadline = None;
                self.state = WorkflowSnapshotState::Paused {
                    reason: clone_opt_text(&request.reason),
                    paused_by: clone_opt_text(&request.requested_by),
                    paused_at: now,
                    completed_tasks,
                    position,
                    last_completed_task_id,
                };
                self.updated_at = now.unix();
            },
            other => {
                self.state = other;
            },
        }
    }

    /// Mark the workflow as paused. Only a workflow in progress can be paused.
    pub fn mark_paused(&mut self, request: &PauseRequest)
        ensures
            exists|now: Timestamp| #[trigger]
                time::clock_gave(now) && final(self)@ == paused(old(self)@, request@, now),
    {
        self.mark_paused_at(request, Timestamp::now());
    }

    /// Let a paused workflow go on at `now`.
    pub fn mark_unpaused_at(&mut self, now: Timestamp)
        ensures
            final(self)@ == unpaused(old(self)@, time::unsigned_secs(now.parts().0)),
    {
        match self.take_state() {
            WorkflowSnapshotState::Paused {
                completed_tasks,
                position,
                last_completed_task_id,
                ..
            } => {
                self.state = WorkflowSnapshotState::InProgress {
                    position,
                    completed_tasks,
                    last_completed_task_id,
                };
                self.updated_at = now.unix();
            },
            other => {
                self.state = other;
            },
        }
    }

    /// Let a paused workflow go on.
    pub fn mark_unpaused(&mut self)
        ensures
            exists|now: Timestamp| #[trigger]
                time::clock_gave(now) && final(self)@ == unpaused(
                    old(self)@,
                    time::unsigned_secs(now.parts().0),
                ),
    {
        self.mark_unpaused_at(Timestamp::now());
    }

    /// Mark the workflow as cancelled at `now`. The completed tasks are kept.
    pub fn mark_cancelled_at(
        &mut self,
        reason: Option<String>,
        cancelled_by: Option<String>,
        interrupted_at_task: Option<String>,
        now: Timestamp,
    )
        ensures
            final(self)@ == cancelled(
                old(self)@,
                text::opt_text(reason),
                text::opt_text(cancelled_by),
                text::opt_text(interrupted_at_task),
                now,
            ),
    {
        let completed_tasks = match self.take_state() {
            WorkflowSnapshotState::InProgress { completed_tasks, .. } => completed_tasks,
            WorkflowSnapshotState::Paused { completed_tasks, .. } => completed_tasks,
            WorkflowSnapshotState::Cancelled { completed_tasks, .. } => completed_tasks,
            _ => {
                let none: StringMap<TaskResult> = StringMap::new();
                proof {
                    assert(outcomes(none@) =~= Map::<Seq<char>, Outcome>::empty());
                }
                none
            },
        };
        self.task_deadline = None;
        self.state = WorkflowSnapshotState::Cancelled {
            reason,
            cancelled_by,
            cancelled_at: now,
            completed_tasks,
            interrupted_at_task,
        };
        self.updated_at = now.unix();
    }

    /// Mark the workflow as cancelled. The completed tasks are kept.
    pub fn mark_cancelled(
        &mut self,
        reason: Option<String>,
        cancelled_by: Option<String>,
        interrupted_at_task: Option<String>,
    )
        ensures
            exists|now: Timestamp| #[trigger]
                time::clock_gave(now) && final(self)@ == cancelled(
                    old(self)@,
                    text::opt_text(reason),
                    text::opt_text(cancelled_by),
                    text::opt_text(interrupted_at_task),
                    now,
                ),
    {
        self.mark_cancelled_at(reason, cancelled_by, interrupted_at_task, Timestamp::now());
    }

    /// The priority of the current task; 3 where none is set.
    pub fn current_task_priority(&self) -> (r: u8)
        ensures
            r == (match self@.task_priority {
                Some(p) => p,
                None => 3,
            }),
    {
        match self.task_priority {
            Some(p) => p,
            None => 3,
        }
    }

    /// The tags of the current task.
    pub fn current_task_tags(&self) -> (r: &Vec<String>)
        ensures
            text::texts(r@) == self@.task_tags,
    {
        &self.task_tags
    }

    /// Whether the last failure of a task was on this worker.
    pub fn has_failed_on_worker(&self, task_id: &str, worker_id: &str) -> (r: bool)
        ensures
            r == (self@.task_retries.dom().contains(task_id@)
                && self@.task_retries[task_id@].last_failed_worker == Some(worker_id@)),
    {
        match self.task_retries.get(task_id) {
            Some(state) => match &state.last_failed_worker {
                Some(w) => str_same(w.as_str(), worker_id),
                None => false,
            },
            None => false,
        }
    }

    /// The task that the workflow is at.
    pub fn current_task_id(&self) -> (r: Option<&str>)
        ensures
            crate::continuation::opt_str(r) == task_at(self@.state),
    {
        match &self.state {
            WorkflowSnapshotState::InProgress { position, .. } => match position {
                ExecutionPosition::AtTask { task_id } => Some(task_id.as_str()),
                _ => None,
            },
            _ => None,
        }
    }

    /// The number of results that the state retains, cut to the largest `i32`.
    pub fn completed_task_count(&self) -> (r: i32)
        ensures
            r == result_count(self@.state),
    {
        match self.get_all_task_results() {
            Some(m) => {
                let n: usize = m.len();
                proof {
                    assert(outcomes(m@).dom() =~= m@.dom());
                }
                if n > 0x7fff_ffff {
                    0x7fff_ffff
                } else {
                    n as i32
                }
            },
            None => 0,
        }
    }

    /// The error of a failed workflow.
    pub fn error_message(&self) -> (r: Option<&str>)
        ensures
            crate::continuation::opt_str(r) == error_of(self@.state),
    {
        match &self.state {
            WorkflowSnapshotState::Failed { error } => Some(error.as_str()),
            _ => None,
        }
    }

    /// The name of the kind of the position, if the state has one.
    pub fn position_kind(&self) -> (r: Option<&'static str>)
        ensures
            crate::continuation::opt_str(r) == position_name_of(self@.state),
    {
        match &self.state {
            WorkflowSnapshotState::InProgress { position, .. } => Some(position.as_ref()),
            WorkflowSnapshotState::Paused { position, .. } => Some(position.as_ref()),
            _ => None,
        }
    }

    /// When a parked workflow in progress may go on.
    pub fn delay_wake_at(&self) -> (r: Option<Timestamp>)
        ensures
            r == wake_time(self@.state),
    {
        match &self.state {
            WorkflowSnapshotState::InProgress { position, .. } => match position {
                ExecutionPosition::AtDelay { wake_at, .. } => Some(*wake_at),
                ExecutionPosition::AtFork { wake_at, .. } => Some(*wake_at),
                ExecutionPosition::AtSignal { wake_at, .. } => *wake_at,
                _ => None,
            },
            _ => None,
        }
    }

    /// The signal that a parked workflow waits for.
    pub fn awaited_signal_name(&self) -> (r: Option<&str>)
        ensures
            crate::continuation::opt_str(r) == awaited_signal(self@.state),
    {
        match &self.state {
            WorkflowSnapshotState::InProgress { position, .. } => match position {
                ExecutionPosition::AtSignal { signal_name, .. } => Some(signal_name.as_str()),
                _ => None,
            },
            _ => None,
        }
    }
}

/// The task that a workflow in progress is at.
pub open spec fn task_at(s: State) -> Option<Seq<char>> {
    match s {
        State::InProgress { position: Position::AtTask { task_id }, .. } => Some(task_id),
        _ => None,
    }
}

/// The number of results that a state retains, cut to the largest `i32`.
pub open spec fn result_count(s: State) -> i32 {
    match retained(s) {
        Some(m) => if m.len() > 0x7fff_ffff {
            0x7fff_ffff
        } else {
            m.len() as i32
        },
        None => 0,
    }
}

/// The error of a failed workflow.
pub open spec fn error_of(s: State) -> Option<Seq<char>> {
    match s {
        State::Failed { error } => Some(error),
        _ => None,
    }
}

/// The name of the kind of the position that a state has.
pub open spec fn position_name_of(s: State) -> Option<Seq<char>> {
    match s {
        State::InProgress { position, .. } => Some(position_name(position)),
        State::Paused { position, .. } => Some(position_name(position)),
        _ => None,
    }
}

/// When a parked workflow in progress may go on.
pub open spec fn wake_time(s: State) -> Option<Timestamp> {
    match s {
        State::InProgress { position: Position::AtDelay { wake_at, .. }, .. } => Some(wake_at),
        State::InProgress { position: Position::AtFork { wake_at, .. }, .. } => Some(wake_at),
        State::InProgress { position: Position::AtSignal { wake_at, .. }, .. } => wake_at,
        _ => None,
    }
}

/// The signal that a parked workflow in progress waits for.
pub open spec fn awaited_signal(s: State) -> Option<Seq<char>> {
    match s {
        State::InProgress { position: Position::AtSignal { signal_name, .. }, .. } => Some(
            signal_name,
        ),
        _ => None,
    }
}

/// The deadline of a timeout that starts at `now`.
pub open spec fn deadline_after(now: Timestamp, timeout: Duration) -> Option<(i64, u32)> {
    let d = time::duration_span(timeout);
    time::shifted(now.parts().0, now.parts().1, d.0, d.1)
}

/// A count of milliseconds as a signed number; counts above the largest wrap.
pub open spec fn wrapped_millis(ms: u64) -> i64 {
    if ms <= 0x7fff_ffff_ffff_ffff {
        ms as i64
    } else {
        (ms - 0x1_0000_0000_0000_0000) as i64
    }
}

/// A delay in milliseconds, no longer than the maximum where there is one.
pub open spec fn capped_delay(delay_ms: i64, max: Option<Duration>) -> i64 {
    match max {
        Some(d) => if duration::millis_of(d) < delay_ms {
            duration::millis_of(d) as i64
        } else {
            delay_ms
        },
        None => delay_ms,
    }
}

/// The delay before a retry: `delay_ms` milliseconds, or the maximum where that is
/// shorter.
pub fn cap_delay(delay_ms: i64, max: Option<Duration>) -> (r: i64)
    ensures
        r == capped_delay(delay_ms, max),
{
    match max {
        Some(d) => {
            let longest: u128 = d.as_millis();
            if delay_ms > 0 && longest < delay_ms as u128 {
                longest as i64
            } else {
                delay_ms
            }
        },
        None => delay_ms,
    }
}

/// A retry never waits longer than the maximum delay of its policy, and a delay within
/// the maximum is kept.
pub proof fn law_retry_delay_is_capped(delay_ms: i64, max: Duration)
    ensures
        capped_delay(delay_ms, Some(max)) <= duration::millis_of(max),
        delay_ms <= duration::millis_of(max) ==> capped_delay(delay_ms, Some(max)) == delay_ms,
        capped_delay(delay_ms, None) == delay_ms,
{
}

/// The instant `ms` milliseconds from `now`, if span and instant are in range.
pub open spec fn retry_time(now: Timestamp, ms: i64) -> Option<(i64, u32)> {
    if ms == i64::MIN {
        None
    } else {
        let d = time::millis_span(ms);
        time::shifted(now.parts().0, now.parts().1, d.0, d.1)
    }
}

/// The deadline of a stored timeout that starts at `now`.
pub open spec fn refreshed_deadline(now: Timestamp, timeout_ms: u64) -> Option<(i64, u32)> {
    retry_time(now, wrapped_millis(timeout_ms))
}

/// A count of milliseconds as a signed number.
fn signed_millis(ms: u64) -> (r: i64)
    ensures
        r == wrapped_millis(ms),
{
    if ms <= 0x7fff_ffff_ffff_ffff {
        ms as i64
    } else {
        let below: u64 = 0xffff_ffff_ffff_ffff - ms;
        -(below as i64) - 1
    }
}

/// Pausing and resuming gives back the state of a workflow in progress.
pub proof fn law_pause_then_unpause(s: Snap, request: Request, at: Timestamp, later: u64)
    requires
        s.state is InProgress,
    ensures
        unpaused(paused(s, request, at), later).state == s.state,
        unpaused(paused(s, request, at), later) == (Snap {
            task_deadline: None,
            updated_at: later,
            ..s
        }),
{
}

/// Pausing, moving, and storing or dropping a result leave every workflow alone that
/// is not in progress; resuming leaves every workflow alone that is not paused.
pub proof fn law_transitions_respect_state(
    s: Snap,
    request: Request,
    position: Position,
    task_id: Seq<char>,
    output: Seq<u8>,
    now: Timestamp,
    at: u64,
)
    ensures
        !(s.state is InProgress) ==> paused(s, request, now) == s,
        !(s.state is InProgress) ==> moved_to(s, position, at) == s,
        !(s.state is InProgress) ==> with_result(s, task_id, output, at) == s,
        !(s.state is InProgress) ==> without_result(s, task_id, at) == s,
        !(s.state is Paused) ==> unpaused(s, at) == s,
{
}

/// A stored result is found again, and is the output that completed last.
pub proof fn law_result_is_read_back(s: Snap, task_id: Seq<char>, output: Seq<u8>, at: u64)
    requires
        s.state is InProgress,
    ensures
        retained_result(with_result(s, task_id, output, at).state, task_id) == Some(
            Outcome { task_id, output },
        ),
        last_output(with_result(s, task_id, output, at).state) == Some(output),
        forall|other: Seq<char>|
            other != task_id ==> #[trigger] retained_result(
                with_result(s, task_id, output, at).state,
                other,
            ) == retained_result(s.state, other),
{
}

/// Results survive a pause, and a cancellation of every workflow whose state holds them:
/// one in progress, paused or already cancelled.
pub proof fn law_results_survive(
    s: Snap,
    request: Request,
    reason: Option<Seq<char>>,
    by: Option<Seq<char>>,
    task: Option<Seq<char>>,
    now: Timestamp,
)
    ensures
        retained(paused(s, request, now).state) == retained(s.state),
        retained(s.state) is Some ==> retained(cancelled(s, reason, by, task, now).state)
            == retained(s.state),
        retained(s.state) is Some ==> forall|id: Seq<char>| #[trigger]
            retained_result(cancelled(s, reason, by, task, now).state, id) == retained_result(
                s.state,
                id,
            ),
        terminal_state(cancelled(s, reason, by, task, now).state),
{
}

} // verus!
