//! Workflow structures, continuation tree, and stored representations.
use crate::context::WorkflowContext;
use crate::continuation;
use crate::continuation::{NodeIter, WorkflowContinuation};
use crate::error::BuildError;
use crate::registry::TaskRegistry;
use crate::stored;
use crate::stored::SerializableContinuation;
use crate::string_map::str_same;
use crate::text;
use crate::text::{concat, decimal_text};
use crate::time;
use crate::time::Timestamp;
use crate::tree;
use std::sync::Arc;
use vstd::prelude::*;

verus! {

/// What to do when a loop reaches its maximum number of iterations.
#[derive(Debug, Clone, Copy, PartialEq, Eq, Structural)]
pub enum MaxIterationsPolicy {
    /// Fail the workflow.
    Fail,
    /// Leave the loop with the value of the last iteration.
    ExitWithLast,
}

impl MaxIterationsPolicy {
    /// The name of the policy.
    pub fn as_ref(&self) -> (r: &'static str)
        ensures
            r@ == tree::policy_text(*self),
    {
        match self {
            MaxIterationsPolicy::Fail => "fail",
            MaxIterationsPolicy::ExitWithLast => "exit_with_last",
        }
    }

    /// The policy with this name.
    pub fn from_str(s: &str) -> (r: Option<MaxIterationsPolicy>)
        ensures
            match r {
                Some(p) => s@ == tree::policy_text(p),
                None => forall|p: MaxIterationsPolicy| s@ != #[trigger] tree::policy_text(p),
            },
    {
        if str_same(s, "fail") {
            Some(MaxIterationsPolicy::Fail)
        } else if str_same(s, "exit_with_last") {
            Some(MaxIterationsPolicy::ExitWithLast)
        } else {
            None
        }
    }
}

/// Kind of a node in the continuation tree.
#[derive(Debug, Clone, Copy, PartialEq, Eq, Structural)]
pub enum NodeKind {
    /// A single task.
    Task,
    /// Parallel branches with an optional join.
    Fork,
    /// A durable delay.
    Delay,
    /// A wait for an external signal.
    AwaitSignal,
    /// A conditional branch.
    Branch,
    /// A loop.
    Loop,
    /// An inlined child workflow.
    ChildWorkflow,
}

impl NodeKind {
    /// The name of the kind.
    pub fn as_ref(&self) -> (r: &'static str)
        ensures
            r@ == kind_text(*self),
    {
        match self {
            NodeKind::Task => "task",
            NodeKind::Fork => "fork",
            NodeKind::Delay => "delay",
            NodeKind::AwaitSignal => "await_signal",
            NodeKind::Branch => "branch",
            NodeKind::Loop => "loop",
            NodeKind::ChildWorkflow => "child_workflow",
        }
    }

    /// The kind with this name.
    pub fn from_str(s: &str) -> (r: Option<NodeKind>)
        ensures
            match r {
                Some(k) => s@ == kind_text(k),
                None => forall|k: NodeKind| s@ != #[trigger] kind_text(k),
            },
    {
        if str_same(s, "task") {
            Some(NodeKind::Task)
        } else if str_same(s, "fork") {
            Some(NodeKind::Fork)
        } else if str_same(s, "delay") {
            Some(NodeKind::Delay)
        } else if str_same(s, "await_signal") {
            Some(NodeKind::AwaitSignal)
        } else if str_same(s, "branch") {
            Some(NodeKind::Branch)
        } else if str_same(s, "loop") {
            Some(NodeKind::Loop)
        } else if str_same(s, "child_workflow") {
            Some(NodeKind::ChildWorkflow)
        } else {
            None
        }
    }
}

/// The name of a node kind.
pub open spec fn kind_text(k: NodeKind) -> Seq<char> {
    match k {
        NodeKind::Task => "task"@,
        NodeKind::Fork => "fork"@,
        NodeKind::Delay => "delay"@,
        NodeKind::AwaitSignal => "await_signal"@,
        NodeKind::Branch => "branch"@,
        NodeKind::Loop => "loop"@,
        NodeKind::ChildWorkflow => "child_workflow"@,
    }
}

/// The id of the loop node with a number.
pub open spec fn loop_id_text(counter: nat) -> Seq<char> {
    "loop_"@ + text::decimal(counter)
}

/// The id of the loop node with a number.
pub fn loop_node_id(counter: usize) -> (r: String)
    ensures
        r@ == loop_id_text(counter as nat),
{
    concat("loop_", decimal_text(counter as u128).as_str())
}

/// What to do when an instance with the same id is already there.
#[derive(Debug, Clone, Copy, PartialEq, Eq, Structural)]
pub enum ConflictPolicy {
    /// Fail.
    Fail,
    /// Use the existing instance.
    UseExisting,
    /// Terminate the existing instance.
    TerminateExisting,
}

impl Default for ConflictPolicy {
    fn default() -> (r: Self)
        ensures
            r == ConflictPolicy::Fail,
    {
        ConflictPolicy::Fail
    }
}

/// A name of a policy, in either of two spellings.
pub open spec fn names_policy(s: Seq<char>, p: ConflictPolicy) -> bool {
    match p {
        ConflictPolicy::Fail => s == "fail"@,
        ConflictPolicy::UseExisting => s == "use_existing"@ || s == "useExisting"@,
        ConflictPolicy::TerminateExisting => s == "terminate_existing"@ || s
            == "terminateExisting"@,
    }
}

impl ConflictPolicy {
    /// The policy with this name.
    pub fn from_str(s: &str) -> (r: Option<ConflictPolicy>)
        ensures
            match r {
                Some(p) => names_policy(s@, p),
                None => forall|p: ConflictPolicy| !#[trigger] names_policy(s@, p),
            },
    {
        if str_same(s, "fail") {
            Some(ConflictPolicy::Fail)
        } else if str_same(s, "use_existing") || str_same(s, "useExisting") {
            Some(ConflictPolicy::UseExisting)
        } else if str_same(s, "terminate_existing") || str_same(s, "terminateExisting") {
            Some(ConflictPolicy::TerminateExisting)
        } else {
            None
        }
    }
}

/// Status of a workflow instance.
#[derive(Debug)]
#[allow(inconsistent_fields)]
pub enum WorkflowStatus {
    /// Still running.
    InProgress,
    /// Completed.
    Completed,
    /// Failed with an error.
    Failed(String),
    /// Cancelled.
    Cancelled {
        /// Optional reason.
        reason: Option<String>,
        /// Optional author.
        cancelled_by: Option<String>,
    },
    /// Paused.
    Paused {
        /// Optional reason.
        reason: Option<String>,
        /// Optional author.
        paused_by: Option<String>,
    },
    /// Waiting for a delay.
    Waiting {
        /// When the delay expires.
        wake_at: Timestamp,
        /// The delay.
        delay_id: String,
    },
    /// Waiting for a signal.
    AwaitingSignal {
        /// The signal node.
        signal_id: String,
        /// Name of the signal.
        signal_name: String,
        /// When waiting ends.
        wake_at: Option<Timestamp>,
    },
}

/// The contents of a [`WorkflowStatus`].
#[allow(inconsistent_fields)]
pub enum Status {
    InProgress,
    Completed,
    Failed(Seq<char>),
    Cancelled { reason: Option<Seq<char>>, cancelled_by: Option<Seq<char>> },
    Paused { reason: Option<Seq<char>>, paused_by: Option<Seq<char>> },
    Waiting { wake_at: Timestamp, delay_id: Seq<char> },
    AwaitingSignal {
        signal_id: Seq<char>,
        signal_name: Seq<char>,
        wake_at: Option<Timestamp>,
    },
}

impl View for WorkflowStatus {
    type V = Status;

    open spec fn view(&self) -> Status {
        match *self {
            WorkflowStatus::InProgress => Status::InProgress,
            WorkflowStatus::Completed => Status::Completed,
            WorkflowStatus::Failed(e) => Status::Failed(e@),
            WorkflowStatus::Cancelled { reason, cancelled_by } => Status::Cancelled {
                reason: text::opt_text(reason),
                cancelled_by: text::opt_text(cancelled_by),
            },
            WorkflowStatus::Paused { reason, paused_by } => Status::Paused {
                reason: text::opt_text(reason),
                paused_by: text::opt_text(paused_by),
            },
            WorkflowStatus::Waiting { wake_at, delay_id } => Status::Waiting {
                wake_at,
                delay_id: delay_id@,
            },
            WorkflowStatus::AwaitingSignal { signal_id, signal_name, wake_at } =>
                Status::AwaitingSignal {
                signal_id: signal_id@,
                signal_name: signal_name@,
                wake_at,
            },
        }
    }
}

/// The contents of an optional status.
pub open spec fn opt_status(o: Option<WorkflowStatus>) -> Option<Status> {
    match o {
        Some(s) => Some(s@),
        None => None,
    }
}

/// The name of a status.
pub open spec fn status_text(s: Status) -> Seq<char> {
    match s {
        Status::InProgress => "in_progress"@,
        Status::Completed => "completed"@,
        Status::Failed(_) => "failed"@,
        Status::Cancelled { .. } => "cancelled"@,
        Status::Paused { .. } => "paused"@,
        Status::Waiting { .. } => "waiting"@,
        Status::AwaitingSignal { .. } => "awaiting_signal"@,
    }
}

impl WorkflowStatus {
    /// The name of the status.
    pub fn as_ref(&self) -> (r: &'static str)
        ensures
            r@ == status_text(self@),
    {
        match self {
            WorkflowStatus::InProgress => "in_progress",
            WorkflowStatus::Completed => "completed",
            WorkflowStatus::Failed(_) => "failed",
            WorkflowStatus::Cancelled { .. } => "cancelled",
            WorkflowStatus::Paused { .. } => "paused",
            WorkflowStatus::Waiting { .. } => "waiting",
            WorkflowStatus::AwaitingSignal { .. } => "awaiting_signal",
        }
    }
}

/// A status with every field spelled out, for bindings without tagged unions.
#[derive(Debug)]
pub struct FlatWorkflowStatus {
    /// Name of the status.
    pub status: String,
    /// Error of a failed workflow.
    pub error: Option<String>,
    /// Reason of a cancelled or paused workflow.
    pub reason: Option<String>,
    /// Author of a cancellation.
    pub cancelled_by: Option<String>,
    /// Author of a pause.
    pub paused_by: Option<String>,
    /// When waiting ends, as RFC 3339 text.
    pub wake_at: Option<String>,
    /// The delay that is waited for.
    pub delay_id: Option<String>,
    /// The signal node that is waited at.
    pub signal_id: Option<String>,
    /// Name of the signal that is waited for.
    pub signal_name: Option<String>,
}

/// The contents of a [`FlatWorkflowStatus`].
pub struct Flat {
    pub status: Seq<char>,
    pub error: Option<Seq<char>>,
    pub reason: Option<Seq<char>>,
    pub cancelled_by: Option<Seq<char>>,
    pub paused_by: Option<Seq<char>>,
    pub wake_at: Option<Seq<char>>,
    pub delay_id: Option<Seq<char>>,
    pub signal_id: Option<Seq<char>>,
    pub signal_name: Option<Seq<char>>,
}

impl View for FlatWorkflowStatus {
    type V = Flat;

    open spec fn view(&self) -> Flat {
        Flat {
            status: self.status@,
            error: text::opt_text(self.error),
            reason: text::opt_text(self.reason),
            cancelled_by: text::opt_text(self.cancelled_by),
            paused_by: text::opt_text(self.paused_by),
            wake_at: text::opt_text(self.wake_at),
            delay_id: text::opt_text(self.delay_id),
            signal_id: text::opt_text(self.signal_id),
            signal_name: text::opt_text(self.signal_name),
        }
    }
}

/// The RFC 3339 text of an instant.
pub open spec fn instant_text(t: Timestamp) -> Seq<char> {
    time::rfc3339_text(t.parts().0, t.parts().1)
}

/// A flat status with a name and nothing else.
pub open spec fn bare_flat(name: Seq<char>) -> Flat {
    Flat {
        status: name,
        error: None,
        reason: None,
        cancelled_by: None,
        paused_by: None,
        wake_at: None,
        delay_id: None,
        signal_id: None,
        signal_name: None,
    }
}

/// A status with every field spelled out.
pub open spec fn flattened(s: Status) -> Flat {
    let bare = bare_flat(status_text(s));
    match s {
        Status::InProgress => bare,
        Status::Completed => bare,
        Status::Failed(e) => Flat { error: Some(e), ..bare },
        Status::Cancelled { reason, cancelled_by } => Flat { reason, cancelled_by, ..bare },
        Status::Paused { reason, paused_by } => Flat { reason, paused_by, ..bare },
        Status::Waiting { wake_at, delay_id } => Flat {
            wake_at: Some(instant_text(wake_at)),
            delay_id: Some(delay_id),
            ..bare
        },
        Status::AwaitingSignal { signal_id, signal_name, wake_at } => Flat {
            signal_id: Some(signal_id),
            signal_name: Some(signal_name),
            wake_at: match wake_at {
                Some(t) => Some(instant_text(t)),
                None => None,
            },
            ..bare
        },
    }
}

impl vstd::std_specs::convert::FromSpecImpl<WorkflowStatus> for FlatWorkflowStatus {
    open spec fn obeys_from_spec() -> bool {
        false
    }

    open spec fn from_spec(s: WorkflowStatus) -> Self {
        arbitrary()
    }
}

impl From<WorkflowStatus> for FlatWorkflowStatus {
    fn from(status: WorkflowStatus) -> (r: Self)
        ensures
            r@ == flattened(status@),
    {
        let mut flat = FlatWorkflowStatus {
            status: String::from_str(status.as_ref()),
            error: None,
            reason: None,
            cancelled_by: None,
            paused_by: None,
            wake_at: None,
            delay_id: None,
            signal_id: None,
            signal_name: None,
        };
        match status {
            WorkflowStatus::Completed => {},
            WorkflowStatus::InProgress => {},
            WorkflowStatus::Failed(e) => {
                flat.error = Some(e);
            },
            WorkflowStatus::Cancelled { reason, cancelled_by } => {
                flat.reason = reason;
                flat.cancelled_by = cancelled_by;
            },
            WorkflowStatus::Paused { reason, paused_by } => {
                flat.reason = reason;
                flat.paused_by = paused_by;
            },
            WorkflowStatus::Waiting { wake_at, delay_id } => {
                flat.wake_at = Some(wake_at.to_rfc3339());
                flat.delay_id = Some(delay_id);
            },
            WorkflowStatus::AwaitingSignal { signal_id, signal_name, wake_at } => {
                flat.signal_id = Some(signal_id);
                flat.signal_name = Some(signal_name);
                flat.wake_at = match wake_at {
                    Some(t) => Some(t.to_rfc3339()),
                    None => None,
                };
            },
        }
        flat
    }
}

/// A stored workflow: its definition and where it came from.
pub struct SerializedWorkflowState {
    /// The workflow identifier.
    pub workflow_id: String,
    /// The definition hash of the workflow that stored it.
    pub definition_hash: String,
    /// The stored tree.
    pub continuation: SerializableContinuation,
}

/// A built workflow.
pub struct Workflow<C, Input, M = ()> {
    /// SHA-256 of the workflow's canonical text.
    pub definition_hash: String,
    /// The context.
    pub context: WorkflowContext<C, M>,
    /// The tree.
    pub continuation: WorkflowContinuation,
    /// The input type.
    pub input: std::marker::PhantomData<Input>,
}

impl<C, Input, M> Workflow<C, Input, M> {
    /// The definition hash is that of the tree.
    pub open spec fn wf(self) -> bool {
        self.definition_hash@ == stored::definition_hash(self.continuation.node())
    }

    /// The workflow identifier.
    pub fn workflow_id(&self) -> (r: &str)
        ensures
            r@ == self.context.workflow_id@,
    {
        self.context.workflow_id()
    }

    /// The definition hash.
    pub fn definition_hash(&self) -> (r: &str)
        ensures
            r@ == self.definition_hash@,
    {
        self.definition_hash.as_str()
    }

    /// The context.
    pub fn context(&self) -> (r: &WorkflowContext<C, M>)
        ensures
            *r == self.context,
    {
        &self.context
    }

    /// The codec.
    pub fn codec(&self) -> (r: &Arc<C>)
        ensures
            *r == self.context.codec,
    {
        &self.context.codec
    }

    /// The tree.
    pub fn continuation(&self) -> (r: &WorkflowContinuation)
        ensures
            *r == self.continuation,
    {
        &self.continuation
    }

    /// The metadata.
    pub fn metadata(&self) -> (r: &Arc<M>)
        ensures
            *r == self.context.metadata,
    {
        &self.context.metadata
    }

    /// Walk over all nodes in preorder.
    pub fn iter_nodes(&self) -> (r: NodeIter<'_>)
        ensures
            continuation::pending(r.stack@) == tree::infos(self.continuation.node(), None),
    {
        self.continuation.iter_nodes()
    }

    /// The tree.
    pub fn into_continuation(self) -> (r: WorkflowContinuation)
        ensures
            r == self.continuation,
    {
        self.continuation
    }
}

/// A built workflow with the registry of its tasks, which can be stored and
/// rehydrated.
pub struct SerializableWorkflow<C, Input, M = ()> {
    /// The workflow.
    pub inner: Workflow<C, Input, M>,
    /// The registry.
    pub registry: TaskRegistry,
}

impl<C, Input, M> SerializableWorkflow<C, Input, M> {
    /// The workflow identifier.
    pub fn workflow_id(&self) -> (r: &str)
        ensures
            r@ == self.inner.context.workflow_id@,
    {
        self.inner.workflow_id()
    }

    /// The definition hash.
    pub fn definition_hash(&self) -> (r: &str)
        ensures
            r@ == self.inner.definition_hash@,
    {
        self.inner.definition_hash()
    }

    /// The workflow.
    pub fn workflow(&self) -> (r: &Workflow<C, Input, M>)
        ensures
            *r == self.inner,
    {
        &self.inner
    }

    /// The context.
    pub fn context(&self) -> (r: &WorkflowContext<C, M>)
        ensures
            *r == self.inner.context,
    {
        self.inner.context()
    }

    /// The codec.
    pub fn codec(&self) -> (r: &Arc<C>)
        ensures
            *r == self.inner.context.codec,
    {
        self.inner.codec()
    }

    /// The tree.
    pub fn continuation(&self) -> (r: &WorkflowContinuation)
        ensures
            *r == self.inner.continuation,
    {
        self.inner.continuation()
    }

    /// The metadata.
    pub fn metadata(&self) -> (r: &Arc<M>)
        ensures
            *r == self.inner.context.metadata,
    {
        self.inner.metadata()
    }

    /// The registry.
    pub fn registry(&self) -> (r: &TaskRegistry)
        ensures
            *r == self.registry,
    {
        &self.registry
    }

    /// The tree and the registry.
    pub fn into_parts(self) -> (r: (WorkflowContinuation, TaskRegistry))
        ensures
            r.0 == self.inner.continuation,
            r.1 == self.registry,
    {
        (self.inner.continuation, self.registry)
    }

    /// What is stored of the workflow.
    pub fn to_serializable(&self) -> (r: SerializedWorkflowState)
        ensures
            r.workflow_id@ == self.inner.context.workflow_id@,
            r.definition_hash@ == self.inner.definition_hash@,
            r.continuation.node() == tree::stored(self.inner.continuation.node()),
    {
        SerializedWorkflowState {
            workflow_id: String::from_str(self.inner.workflow_id()),
            definition_hash: self.inner.definition_hash.clone(),
            continuation: self.inner.continuation.to_serializable(),
        }
    }

    /// Rehydrate a stored workflow of the same definition. A state of another
    /// definition is refused, then a tree that uses an id twice, then one that needs
    /// a task which is not registered.
    pub fn to_runnable(&self, state: &SerializedWorkflowState) -> (r: Result<
        WorkflowContinuation,
        BuildError,
    >)
        ensures
            if state.definition_hash@ != self.inner.definition_hash@ {
                r matches Err(BuildError::DefinitionMismatch { expected, found }) && expected@
                    == self.inner.definition_hash@ && found@ == state.definition_hash@
            } else {
                match tree::duplicate_id(state.continuation.node()) {
                    Some(dup) => r matches Err(BuildError::DuplicateTaskId(id)) && id@ == dup,
                    None => stored::bind_outcome(
                        r,
                        tree::bound(state.continuation.node(), self.registry.handles()),
                    ),
                }
            },
    {
        if !str_same(state.definition_hash.as_str(), self.inner.definition_hash.as_str()) {
            return Err(
                BuildError::DefinitionMismatch {
                    expected: self.inner.definition_hash.clone(),
                    found: state.definition_hash.clone(),
                },
            );
        }
        state.continuation.to_runnable(&self.registry)
    }
}

impl<C, Input, M> std::ops::Deref for SerializableWorkflow<C, Input, M> {
    type Target = Workflow<C, Input, M>;

    /// The workflow without its registry.
    fn deref(&self) -> (r: &Workflow<C, Input, M>)
        ensures
            *r == self.inner,
    {
        &self.inner
    }
}

} // verus!
