//! Error types.
use crate::duration;
use crate::duration::Duration;
use crate::text;
use crate::text::{concat, concat3, decimal_text, join};
use crate::time;
use crate::time::Timestamp;
use vstd::prelude::*;

verus! {

/// An error of a codec or a task, as its message.
#[derive(Debug)]
pub struct BoxError {
    /// The message.
    pub message: String,
}

/// Errors produced when encoding or decoding task inputs/outputs.
#[derive(Debug)]
pub enum CodecError {
    /// Failed to decode a task's input (or a loop/branch envelope).
    DecodeFailed {
        /// The task whose input could not be decoded.
        task_id: String,
        /// The name of the type that was expected.
        expected_type: String,
        /// The underlying deserialization error.
        source: BoxError,
    },
    /// Failed to encode a task's output.
    EncodeFailed {
        /// The task whose output could not be encoded.
        task_id: String,
        /// The underlying serialization error.
        source: BoxError,
    },
}

impl CodecError {
    /// The message of the error.
    pub open spec fn text(self) -> Seq<char> {
        match self {
            CodecError::DecodeFailed { task_id, expected_type, source } =>
                "Failed to decode input for task '"@ + task_id@ + "' (expected "@ + expected_type@
                    + "): "@ + source.message@,
            CodecError::EncodeFailed { task_id, source } => "Failed to encode output for task '"@
                + task_id@ + "': "@ + source.message@,
        }
    }

    /// The message of the error.
    pub fn to_string(&self) -> (r: String)
        ensures
            r@ == self.text(),
    {
        match self {
            CodecError::DecodeFailed { task_id, expected_type, source } => {
                let mut s = concat("Failed to decode input for task '", task_id.as_str());
                s.append("' (expected ");
                s.append(expected_type.as_str());
                s.append("): ");
                s.append(source.message.as_str());
                s
            },
            CodecError::EncodeFailed { task_id, source } => {
                let mut s = concat("Failed to encode output for task '", task_id.as_str());
                s.append("': ");
                s.append(source.message.as_str());
                s
            },
        }
    }
}

/// Errors produced during workflow construction (builder / hydration).
#[derive(Debug)]
#[allow(inconsistent_fields)]
pub enum BuildError {
    /// A duplicate task ID was found during workflow building.
    DuplicateTaskId(String),
    /// A referenced task ID was not found in the registry.
    TaskNotFound(String),
    /// A branch was given no steps.
    EmptyBranch,
    /// A fork has no branches.
    EmptyFork,
    /// Declared branch keys have no branch, and there is no default branch.
    MissingBranches {
        /// The `route` node ID.
        branch_id: String,
        /// Declared keys with no matching branch.
        missing_keys: Vec<String>,
    },
    /// Branches use keys that are not declared.
    OrphanBranches {
        /// The `route` node ID.
        branch_id: String,
        /// Keys of branches that are not declared.
        orphan_keys: Vec<String>,
    },
    /// A loop's `max_iterations` was set to zero.
    InvalidMaxIterations(String),
    /// The workflow has no tasks.
    EmptyWorkflow,
    /// A duration value is not finite or is negative.
    InvalidDuration(String),
    /// The workflow definition hash doesn't match during hydration.
    DefinitionMismatch {
        /// The expected hash (from current workflow).
        expected: String,
        /// The hash found in the serialized state.
        found: String,
    },
    /// A task requires a dependency that is missing from the container.
    MissingDep {
        /// The task that requires the dependency.
        task_id: String,
        /// The type name of the missing dependency.
        dep_type: String,
    },
    /// A task would be registered although the registry already holds it.
    RegistryDepsConflict {
        /// The task whose registration source is ambiguous.
        task_id: String,
    },
}

/// The contents of a [`BuildError`].
#[allow(inconsistent_fields)]
pub enum Fault {
    DuplicateTaskId(Seq<char>),
    TaskNotFound(Seq<char>),
    EmptyBranch,
    EmptyFork,
    MissingBranches { branch_id: Seq<char>, missing_keys: Seq<Seq<char>> },
    OrphanBranches { branch_id: Seq<char>, orphan_keys: Seq<Seq<char>> },
    InvalidMaxIterations(Seq<char>),
    EmptyWorkflow,
    InvalidDuration(Seq<char>),
    DefinitionMismatch { expected: Seq<char>, found: Seq<char> },
    MissingDep { task_id: Seq<char>, dep_type: Seq<char> },
    RegistryDepsConflict { task_id: Seq<char> },
}

impl View for BuildError {
    type V = Fault;

    open spec fn view(&self) -> Fault {
        match *self {
            BuildError::DuplicateTaskId(id) => Fault::DuplicateTaskId(id@),
            BuildError::TaskNotFound(id) => Fault::TaskNotFound(id@),
            BuildError::EmptyBranch => Fault::EmptyBranch,
            BuildError::EmptyFork => Fault::EmptyFork,
            BuildError::MissingBranches { branch_id, missing_keys } => Fault::MissingBranches {
                branch_id: branch_id@,
                missing_keys: text::texts(missing_keys@),
            },
            BuildError::OrphanBranches { branch_id, orphan_keys } => Fault::OrphanBranches {
                branch_id: branch_id@,
                orphan_keys: text::texts(orphan_keys@),
            },
            BuildError::InvalidMaxIterations(id) => Fault::InvalidMaxIterations(id@),
            BuildError::EmptyWorkflow => Fault::EmptyWorkflow,
            BuildError::InvalidDuration(label) => Fault::InvalidDuration(label@),
            BuildError::DefinitionMismatch { expected, found } => Fault::DefinitionMismatch {
                expected: expected@,
                found: found@,
            },
            BuildError::MissingDep { task_id, dep_type } => Fault::MissingDep {
                task_id: task_id@,
                dep_type: dep_type@,
            },
            BuildError::RegistryDepsConflict { task_id } => Fault::RegistryDepsConflict {
                task_id: task_id@,
            },
        }
    }
}

/// The message of a build error.
pub open spec fn fault_text(f: Fault) -> Seq<char> {
    match f {
        Fault::DuplicateTaskId(id) => "Duplicate task id: '"@ + id + "'"@,
        Fault::TaskNotFound(id) => "Task '"@ + id + "' not found in registry"@,
        Fault::EmptyBranch => "Branch must have at least one step"@,
        Fault::EmptyFork => "Fork must have at least one branch"@,
        Fault::MissingBranches { branch_id, missing_keys } => "Branch node '"@ + branch_id
            + "': missing branches for keys: "@ + text::joined(missing_keys, ", "@),
        Fault::OrphanBranches { branch_id, orphan_keys } => "Branch node '"@ + branch_id
            + "': orphan branches for keys: "@ + text::joined(orphan_keys, ", "@),
        Fault::InvalidMaxIterations(id) => "Loop '"@ + id + "': max_iterations must be at least 1"@,
        Fault::EmptyWorkflow => "Workflow must have at least one task"@,
        Fault::InvalidDuration(label) => label + " must be a finite non-negative number"@,
        Fault::DefinitionMismatch { expected, found } =>
            "Workflow definition mismatch: expected hash '"@ + expected + "', found '"@ + found
                + "'"@,
        Fault::MissingDep { task_id, dep_type } => "Task '"@ + task_id
            + "': missing dependency `"@ + dep_type + "` in Deps container"@,
        Fault::RegistryDepsConflict { task_id } => "Task '"@ + task_id
            + "' is present in both the pre-built `registry:` and would be auto-registered via `deps:` — drop one to resolve the conflict"@,
    }
}

impl BuildError {
    /// The message of the error.
    pub fn to_string(&self) -> (r: String)
        ensures
            r@ == fault_text(self@),
    {
        match self {
            BuildError::DuplicateTaskId(id) => concat3("Duplicate task id: '", id.as_str(), "'"),
            BuildError::TaskNotFound(id) => concat3(
                "Task '",
                id.as_str(),
                "' not found in registry",
            ),
            BuildError::EmptyBranch => String::from_str("Branch must have at least one step"),
            BuildError::EmptyFork => String::from_str("Fork must have at least one branch"),
            BuildError::MissingBranches { branch_id, missing_keys } => {
                let mut s = concat3(
                    "Branch node '",
                    branch_id.as_str(),
                    "': missing branches for keys: ",
                );
                s.append(join(missing_keys, ", ").as_str());
                s
            },
            BuildError::OrphanBranches { branch_id, orphan_keys } => {
                let mut s = concat3(
                    "Branch node '",
                    branch_id.as_str(),
                    "': orphan branches for keys: ",
                );
                s.append(join(orphan_keys, ", ").as_str());
                s
            },
            BuildError::InvalidMaxIterations(id) => concat3(
                "Loop '",
                id.as_str(),
                "': max_iterations must be at least 1",
            ),
            BuildError::EmptyWorkflow => String::from_str("Workflow must have at least one task"),
            BuildError::InvalidDuration(label) => concat(
                label.as_str(),
                " must be a finite non-negative number",
            ),
            BuildError::DefinitionMismatch { expected, found } => {
                let mut s = concat3(
                    "Workflow definition mismatch: expected hash '",
                    expected.as_str(),
                    "', found '",
                );
                s.append(found.as_str());
                s.append("'");
                s
            },
            BuildError::MissingDep { task_id, dep_type } => {
                let mut s = concat3("Task '", task_id.as_str(), "': missing dependency `");
                s.append(dep_type.as_str());
                s.append("` in Deps container");
                s
            },
            BuildError::RegistryDepsConflict { task_id } => concat3(
                "Task '",
                task_id.as_str(),
                "' is present in both the pre-built `registry:` and would be auto-registered via `deps:` — drop one to resolve the conflict",
            ),
        }
    }
}

/// A collection of [`BuildError`]s accumulated during workflow construction.
#[derive(Debug)]
pub struct BuildErrors {
    /// The errors, in the order in which they were found.
    pub errors: Vec<BuildError>,
}

/// The contents of a list of errors.
pub open spec fn faults(v: Seq<BuildError>) -> Seq<Fault> {
    Seq::new(v.len(), |i: int| v[i]@)
}

impl View for BuildErrors {
    type V = Seq<Fault>;

    open spec fn view(&self) -> Seq<Fault> {
        faults(self.errors@)
    }
}

/// The lines of the first `k` errors of a list.
pub open spec fn fault_lines(s: Seq<Fault>, k: nat) -> Seq<char>
    decreases k,
{
    if k == 0 || k > s.len() {
        seq![]
    } else {
        fault_lines(s, (k - 1) as nat) + "  - "@ + fault_text(s[k - 1]) + "\n"@
    }
}

/// The message of a list of errors: that of a single error, or a count and a line
/// for each.
pub open spec fn faults_text(s: Seq<Fault>) -> Seq<char> {
    if s.len() == 1 {
        fault_text(s[0])
    } else {
        text::decimal(s.len()) + " build errors:\n"@ + fault_lines(s, s.len())
    }
}

impl BuildErrors {
    /// Create an empty error collection.
    pub fn new() -> (r: Self)
        ensures
            r@ == Seq::<Fault>::empty(),
    {
        let r = BuildErrors { errors: Vec::new() };
        proof {
            assert(r@ =~= Seq::<Fault>::empty());
        }
        r
    }

    /// Append a single error.
    pub fn push(&mut self, error: BuildError)
        ensures
            final(self)@ == old(self)@.push(error@),
    {
        self.errors.push(error);
        proof {
            assert(self@ =~= old(self)@.push(error@));
        }
    }

    /// Returns `true` if no errors have been collected.
    pub fn is_empty(&self) -> (r: bool)
        ensures
            r == (self@.len() == 0),
    {
        self.errors.len() == 0
    }

    /// Returns the number of collected errors.
    pub fn len(&self) -> (r: usize)
        ensures
            r == self@.len(),
    {
        self.errors.len()
    }

    /// Iterate over the individual errors.
    pub fn iter(&self) -> (r: std::slice::Iter<'_, BuildError>)
        ensures
            vstd::std_specs::iter::IteratorSpec::remaining(&r) == self.errors@.as_ref(),
    {
        let all = self.errors.as_slice();
        all.iter()
    }

    /// Consume the wrapper and return the inner vector.
    pub fn into_vec(self) -> (r: Vec<BuildError>)
        ensures
            faults(r@) == self@,
    {
        self.errors
    }

    /// Extend with errors from another collection.
    pub fn extend(&mut self, other: Self)
        ensures
            final(self)@ == old(self)@ + other@,
    {
        let mut other = other;
        let ghost more = other@;
        self.errors.append(&mut other.errors);
        proof {
            assert(self@ =~= old(self)@ + more);
        }
    }

    /// The message of the collection.
    pub fn to_string(&self) -> (r: String)
        ensures
            r@ == faults_text(self@),
    {
        if self.errors.len() == 1 {
            return self.errors[0].to_string();
        }
        let mut lines = String::new();
        let mut i: usize = 0;
        while i < self.errors.len()
            invariant
                i <= self.errors@.len(),
                lines@ == fault_lines(self@, i as nat),
            decreases self.errors@.len() - i,
        {
            lines.append("  - ");
            lines.append(self.errors[i].to_string().as_str());
            lines.append("\n");
            i = i + 1;
        }
        concat3(
            decimal_text(self.errors.len() as u128).as_str(),
            " build errors:\n",
            lines.as_str(),
        )
    }
}

impl Default for BuildErrors {
    fn default() -> (r: Self)
        ensures
            r@ == Seq::<Fault>::empty(),
    {
        BuildErrors::new()
    }
}

impl vstd::std_specs::convert::FromSpecImpl<BuildError> for BuildErrors {
    open spec fn obeys_from_spec() -> bool {
        false
    }

    open spec fn from_spec(e: BuildError) -> Self {
        arbitrary()
    }
}

impl From<BuildError> for BuildErrors {
    fn from(error: BuildError) -> (r: Self)
        ensures
            r@ == seq![error@],
    {
        let mut r = BuildErrors::new();
        r.push(error);
        proof {
            assert(r@ =~= seq![error@]);
        }
        r
    }
}

/// Errors produced during workflow execution (runtime).
#[derive(Debug)]
#[allow(inconsistent_fields)]
pub enum WorkflowError {
    /// A referenced task ID was not found at runtime.
    TaskNotFound(String),
    /// The task has no implementation (function body).
    TaskNotImplemented(String),
    /// The workflow definition hash doesn't match.
    DefinitionMismatch {
        /// The expected hash (from current workflow).
        expected: String,
        /// The hash found in the serialized state.
        found: String,
    },
    /// The workflow was cancelled.
    Cancelled {
        /// Optional reason for the cancellation.
        reason: Option<String>,
        /// Optional identifier of who cancelled the workflow.
        cancelled_by: Option<String>,
    },
    /// The workflow was paused.
    Paused {
        /// Optional reason for the pause.
        reason: Option<String>,
        /// Optional identifier of who paused the workflow.
        paused_by: Option<String>,
    },
    /// A fork has no branches.
    EmptyFork,
    /// A task panicked during execution.
    TaskPanicked(String),
    /// Cannot resume workflow from saved state.
    ResumeError(String),
    /// A named branch was not found in the outputs.
    BranchNotFound(String),
    /// A routing key did not match any branch in a `route` node.
    BranchKeyNotFound {
        /// The `route` node ID.
        branch_id: String,
        /// The routing key that was produced.
        key: String,
    },
    /// The workflow is waiting for a delay to expire.
    Waiting {
        /// When the delay expires.
        wake_at: Timestamp,
    },
    /// Task exceeded its configured timeout duration.
    TaskTimedOut {
        /// The task that timed out.
        task_id: String,
        /// The configured timeout duration.
        timeout: Duration,
    },
    /// The workflow is waiting for an external signal.
    AwaitingSignal {
        /// The signal node ID.
        signal_id: String,
        /// The named signal being waited on.
        signal_name: String,
        /// Optional timeout deadline.
        wake_at: Option<Timestamp>,
    },
    /// A loop exceeded its maximum iteration count.
    MaxIterationsExceeded {
        /// The loop node ID.
        loop_id: String,
        /// The configured maximum.
        max_iterations: u32,
    },
}

impl WorkflowError {
    /// Create a new `Cancelled` error with no reason or source.
    pub fn cancelled() -> (r: Self)
        ensures
            r == (WorkflowError::Cancelled { reason: None, cancelled_by: None }),
    {
        WorkflowError::Cancelled { reason: None, cancelled_by: None }
    }

    /// Create a new `Paused` error with no reason or source.
    pub fn paused() -> (r: Self)
        ensures
            r == (WorkflowError::Paused { reason: None, paused_by: None }),
    {
        WorkflowError::Paused { reason: None, paused_by: None }
    }

    /// The message of the error.
    pub open spec fn message(self) -> Seq<char> {
        match self {
            WorkflowError::TaskNotFound(id) => "Task '"@ + id@ + "' not found in registry"@,
            WorkflowError::TaskNotImplemented(id) => "Task '"@ + id@ + "' has no implementation"@,
            WorkflowError::DefinitionMismatch { expected, found } =>
                "Workflow definition mismatch: expected hash '"@ + expected@ + "', found '"@
                    + found@ + "'"@,
            WorkflowError::Cancelled { reason, .. } => "Workflow cancelled"@ + because(
                text::opt_text(reason),
            ),
            WorkflowError::Paused { reason, .. } => "Workflow paused"@ + because(
                text::opt_text(reason),
            ),
            WorkflowError::EmptyFork => "Fork must have at least one branch"@,
            WorkflowError::TaskPanicked(m) => "Task panicked: "@ + m@,
            WorkflowError::ResumeError(m) => "Cannot resume workflow: "@ + m@,
            WorkflowError::BranchNotFound(name) => "Branch '"@ + name@ + "' not found"@,
            WorkflowError::BranchKeyNotFound { branch_id, key } => "Branch node '"@ + branch_id@
                + "': no branch matches key '"@ + key@ + "'"@,
            WorkflowError::Waiting { wake_at } => "Workflow waiting until "@ + time::display_text(
                wake_at.parts().0,
                wake_at.parts().1,
            ),
            WorkflowError::TaskTimedOut { task_id, timeout } => "Task '"@ + task_id@
                + "' timed out after "@ + duration::debug_text(timeout.secs, timeout.nanos),
            WorkflowError::AwaitingSignal { signal_id, signal_name, .. } =>
                "Workflow awaiting signal '"@ + signal_name@ + "' at node '"@ + signal_id@ + "'"@,
            WorkflowError::MaxIterationsExceeded { loop_id, max_iterations } => "Loop '"@
                + loop_id@ + "' exceeded max iterations ("@ + text::decimal(max_iterations as nat)
                + ")"@,
        }
    }

    /// The message of the error.
    pub fn to_string(&self) -> (r: String)
        requires
            self matches WorkflowError::TaskTimedOut { timeout, .. } ==> timeout.wf(),
        ensures
            r@ == self.message(),
    {
        match self {
            WorkflowError::TaskNotFound(id) => concat3(
                "Task '",
                id.as_str(),
                "' not found in registry",
            ),
            WorkflowError::TaskNotImplemented(id) => concat3(
                "Task '",
                id.as_str(),
                "' has no implementation",
            ),
            WorkflowError::DefinitionMismatch { expected, found } => {
                let mut s = concat3(
                    "Workflow definition mismatch: expected hash '",
                    expected.as_str(),
                    "', found '",
                );
                s.append(found.as_str());
                s.append("'");
                s
            },
            WorkflowError::Cancelled { reason, .. } => with_reason("Workflow cancelled", reason),
            WorkflowError::Paused { reason, .. } => with_reason("Workflow paused", reason),
            WorkflowError::EmptyFork => String::from_str("Fork must have at least one branch"),
            WorkflowError::TaskPanicked(m) => concat("Task panicked: ", m.as_str()),
            WorkflowError::ResumeError(m) => concat("Cannot resume workflow: ", m.as_str()),
            WorkflowError::BranchNotFound(name) => concat3(
                "Branch '",
                name.as_str(),
                "' not found",
            ),
            WorkflowError::BranchKeyNotFound { branch_id, key } => {
                let mut s = concat3(
                    "Branch node '",
                    branch_id.as_str(),
                    "': no branch matches key '",
                );
                s.append(key.as_str());
                s.append("'");
                s
            },
            WorkflowError::Waiting { wake_at } => concat(
                "Workflow waiting until ",
                wake_at.to_string().as_str(),
            ),
            WorkflowError::TaskTimedOut { task_id, timeout } => {
                let mut s = concat3("Task '", task_id.as_str(), "' timed out after ");
                s.append(timeout.to_string().as_str());
                s
            },
            WorkflowError::AwaitingSignal { signal_id, signal_name, .. } => {
                let mut s = concat3(
                    "Workflow awaiting signal '",
                    signal_name.as_str(),
                    "' at node '",
                );
                s.append(signal_id.as_str());
                s.append("'");
                s
            },
            WorkflowError::MaxIterationsExceeded { loop_id, max_iterations } => {
                let mut s = concat3("Loop '", loop_id.as_str(), "' exceeded max iterations (");
                s.append(decimal_text(*max_iterations as u128).as_str());
                s.append(")");
                s
            },
        }
    }
}

/// What follows the name of a stop that has a reason.
pub open spec fn because(reason: Option<Seq<char>>) -> Seq<char> {
    match reason {
        Some(r) => ": "@ + r,
        None => seq![],
    }
}

/// A message with the reason behind it, if there is one.
fn with_reason(what: &str, reason: &Option<String>) -> (r: String)
    ensures
        r@ == what@ + because(text::opt_text(*reason)),
{
    match reason {
        Some(why) => {
            let r = concat3(what, ": ", why.as_str());
            assert(r@ =~= what@ + (": "@ + why@));
            r
        },
        None => {
            let r = String::from_str(what);
            assert(r@ =~= what@ + Seq::<char>::empty());
            r
        },
    }
}

} // verus!
