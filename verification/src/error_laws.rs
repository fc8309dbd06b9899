//! What the texts of errors tell.
use crate::error;
use crate::error::{BuildError, BuildErrors, CodecError, Fault, WorkflowError};
use crate::text;
use crate::workflow;
use crate::workflow::{FlatWorkflowStatus, Status, WorkflowStatus};
use vstd::prelude::*;

verus! {

/// A text has another one in it.
pub open spec fn tells(t: Seq<char>, part: Seq<char>) -> bool {
    exists|a: Seq<char>, z: Seq<char>| t == #[trigger] (a + part + z)
}

proof fn lemma_tells(a: Seq<char>, part: Seq<char>, z: Seq<char>, t: Seq<char>)
    requires
        t =~= a + part + z,
    ensures
        tells(t, part),
{
    assert(t == a + part + z);
}

/// The text of a build error names all that the error is about.
pub proof fn law_build_error_tells_its_subject(e: &BuildError, r: String)
    requires
        call_ensures(BuildError::to_string, (e,), r),
    ensures
        match e@ {
            Fault::DuplicateTaskId(id) => tells(r@, id),
            Fault::TaskNotFound(id) => tells(r@, id),
            Fault::MissingBranches { branch_id, missing_keys } => tells(r@, branch_id) && tells(
                r@,
                text::joined(missing_keys, ", "@),
            ),
            Fault::OrphanBranches { branch_id, orphan_keys } => tells(r@, branch_id) && tells(
                r@,
                text::joined(orphan_keys, ", "@),
            ),
            Fault::InvalidMaxIterations(id) => tells(r@, id),
            Fault::InvalidDuration(label) => tells(r@, label),
            Fault::DefinitionMismatch { expected, found } => tells(r@, expected) && tells(
                r@,
                found,
            ),
            Fault::MissingDep { task_id, dep_type } => tells(r@, task_id) && tells(r@, dep_type),
            Fault::RegistryDepsConflict { task_id } => tells(r@, task_id),
            _ => r@.len() > 0,
        },
{
    let t = r@;
    match e@ {
        Fault::DuplicateTaskId(id) => {
            lemma_tells("Duplicate task id: '"@, id, "'"@, t);
        },
        Fault::TaskNotFound(id) => {
            lemma_tells("Task '"@, id, "' not found in registry"@, t);
        },
        Fault::MissingBranches { branch_id, missing_keys } => {
            let k = text::joined(missing_keys, ", "@);
            lemma_tells("Branch node '"@, branch_id, "': missing branches for keys: "@ + k, t);
            lemma_tells(
                "Branch node '"@ + branch_id + "': missing branches for keys: "@,
                k,
                seq![],
                t,
            );
        },
        Fault::OrphanBranches { branch_id, orphan_keys } => {
            let k = text::joined(orphan_keys, ", "@);
            lemma_tells("Branch node '"@, branch_id, "': orphan branches for keys: "@ + k, t);
            lemma_tells(
                "Branch node '"@ + branch_id + "': orphan branches for keys: "@,
                k,
                seq![],
                t,
            );
        },
        Fault::InvalidMaxIterations(id) => {
            lemma_tells("Loop '"@, id, "': max_iterations must be at least 1"@, t);
        },
        Fault::InvalidDuration(label) => {
            lemma_tells(seq![], label, " must be a finite non-negative number"@, t);
        },
        Fault::DefinitionMismatch { expected, found } => {
            let a = "Workflow definition mismatch: expected hash '"@;
            lemma_tells(a, expected, "', found '"@ + found + "'"@, t);
            lemma_tells(a + expected + "', found '"@, found, "'"@, t);
        },
        Fault::MissingDep { task_id, dep_type } => {
            let z = "` in Deps container"@;
            lemma_tells("Task '"@, task_id, "': missing dependency `"@ + dep_type + z, t);
            lemma_tells("Task '"@ + task_id + "': missing dependency `"@, dep_type, z, t);
        },
        Fault::RegistryDepsConflict { task_id } => {
            lemma_tells(
                "Task '"@,
                task_id,
                "' is present in both the pre-built `registry:` and would be auto-registered via `deps:` — drop one to resolve the conflict"@,
                t,
            );
        },
        Fault::EmptyBranch => {
            reveal_strlit("Branch must have at least one step");
        },
        Fault::EmptyFork => {
            reveal_strlit("Fork must have at least one branch");
        },
        Fault::EmptyWorkflow => {
            reveal_strlit("Workflow must have at least one task");
        },
    }
}

/// The text of an error of a running workflow names all that the error is about.
pub proof fn law_workflow_error_tells_its_subject(e: &WorkflowError, r: String)
    requires
        call_ensures(WorkflowError::to_string, (e,), r),
    ensures
        match *e {
            WorkflowError::TaskNotFound(id) => tells(r@, id@),
            WorkflowError::TaskNotImplemented(id) => tells(r@, id@),
            WorkflowError::DefinitionMismatch { expected, found } => tells(r@, expected@) && tells(
                r@,
                found@,
            ),
            WorkflowError::Cancelled { reason, .. } => reason is Some ==> tells(r@, reason->0@),
            WorkflowError::Paused { reason, .. } => reason is Some ==> tells(r@, reason->0@),
            WorkflowError::TaskPanicked(m) => tells(r@, m@),
            WorkflowError::ResumeError(m) => tells(r@, m@),
            WorkflowError::BranchNotFound(name) => tells(r@, name@),
            WorkflowError::BranchKeyNotFound { branch_id, key } => tells(r@, branch_id@) && tells(
                r@,
                key@,
            ),
            WorkflowError::TaskTimedOut { task_id, .. } => tells(r@, task_id@),
            WorkflowError::AwaitingSignal { signal_id, signal_name, .. } => tells(r@, signal_id@)
                && tells(r@, signal_name@),
            WorkflowError::MaxIterationsExceeded { loop_id, max_iterations } => tells(
                r@,
                loop_id@,
            ) && tells(r@, text::decimal(max_iterations as nat)),
            _ => true,
        },
{
    let t = r@;
    match *e {
        WorkflowError::TaskNotFound(id) => {
            lemma_tells("Task '"@, id@, "' not found in registry"@, t);
        },
        WorkflowError::TaskNotImplemented(id) => {
            lemma_tells("Task '"@, id@, "' has no implementation"@, t);
        },
        WorkflowError::DefinitionMismatch { expected, found } => {
            let a = "Workflow definition mismatch: expected hash '"@;
            lemma_tells(a, expected@, "', found '"@ + found@ + "'"@, t);
            lemma_tells(a + expected@ + "', found '"@, found@, "'"@, t);
        },
        WorkflowError::Cancelled { reason, .. } => {
            if let Some(x) = reason {
                lemma_tells("Workflow cancelled"@ + ": "@, x@, seq![], t);
            }
        },
        WorkflowError::Paused { reason, .. } => {
            if let Some(x) = reason {
                lemma_tells("Workflow paused"@ + ": "@, x@, seq![], t);
            }
        },
        WorkflowError::TaskPanicked(m) => {
            lemma_tells("Task panicked: "@, m@, seq![], t);
        },
        WorkflowError::ResumeError(m) => {
            lemma_tells("Cannot resume workflow: "@, m@, seq![], t);
        },
        WorkflowError::BranchNotFound(name) => {
            lemma_tells("Branch '"@, name@, "' not found"@, t);
        },
        WorkflowError::BranchKeyNotFound { branch_id, key } => {
            let z = "': no branch matches key '"@;
            lemma_tells("Branch node '"@, branch_id@, z + key@ + "'"@, t);
            lemma_tells("Branch node '"@ + branch_id@ + z, key@, "'"@, t);
        },
        WorkflowError::TaskTimedOut { task_id, timeout } => {
            lemma_tells(
                "Task '"@,
                task_id@,
                "' timed out after "@ + crate::duration::debug_text(timeout.secs, timeout.nanos),
                t,
            );
        },
        WorkflowError::AwaitingSignal { signal_id, signal_name, .. } => {
            let a = "Workflow awaiting signal '"@;
            lemma_tells(a, signal_name@, "' at node '"@ + signal_id@ + "'"@, t);
            lemma_tells(a + signal_name@ + "' at node '"@, signal_id@, "'"@, t);
        },
        WorkflowError::MaxIterationsExceeded { loop_id, max_iterations } => {
            let z = "' exceeded max iterations ("@;
            let n = text::decimal(max_iterations as nat);
            lemma_tells("Loop '"@, loop_id@, z + n + ")"@, t);
            lemma_tells("Loop '"@ + loop_id@ + z, n, ")"@, t);
        },
        _ => {},
    }
}

/// The text of a codec error names the task, and the error that it comes from.
pub proof fn law_codec_error_tells_its_subject(e: &CodecError, r: String)
    requires
        call_ensures(CodecError::to_string, (e,), r),
    ensures
        match *e {
            CodecError::DecodeFailed { task_id, expected_type, source } => tells(r@, task_id@)
                && tells(r@, expected_type@) && tells(r@, source.message@),
            CodecError::EncodeFailed { task_id, source } => tells(r@, task_id@) && tells(
                r@,
                source.message@,
            ),
        },
{
    let t = r@;
    match *e {
        CodecError::DecodeFailed { task_id, expected_type, source } => {
            let a = "Failed to decode input for task '"@;
            let z = source.message@;
            lemma_tells(a, task_id@, "' (expected "@ + expected_type@ + "): "@ + z, t);
            lemma_tells(a + task_id@ + "' (expected "@, expected_type@, "): "@ + z, t);
            lemma_tells(a + task_id@ + "' (expected "@ + expected_type@ + "): "@, z, seq![], t);
        },
        CodecError::EncodeFailed { task_id, source } => {
            let a = "Failed to encode output for task '"@;
            lemma_tells(a, task_id@, "': "@ + source.message@, t);
            lemma_tells(a + task_id@ + "': "@, source.message@, seq![], t);
        },
    }
}

proof fn lemma_line(s: Seq<Fault>, k: nat, i: int)
    requires
        0 <= i < k <= s.len(),
    ensures
        tells(error::fault_lines(s, k), error::fault_text(s[i])),
    decreases k,
{
    let x = error::fault_text(s[i]);
    let p = error::fault_lines(s, (k - 1) as nat);
    if i == k - 1 {
        lemma_tells(p + "  - "@, x, "\n"@, error::fault_lines(s, k));
    } else {
        lemma_line(s, (k - 1) as nat, i);
        let (a, z) = choose|a: Seq<char>, z: Seq<char>| p == #[trigger] (a + x + z);
        let line = "  - "@ + error::fault_text(s[k - 1]) + "\n"@;
        lemma_tells(a, x, z + line, error::fault_lines(s, k));
    }
}

/// The text of build errors tells each of them.
pub proof fn law_all_errors_are_told(e: &BuildErrors, r: String, i: int)
    requires
        call_ensures(BuildErrors::to_string, (e,), r),
        0 <= i < e@.len(),
    ensures
        tells(r@, error::fault_text(e@[i])),
        e@.len() > 1 ==> tells(r@, text::decimal(e@.len())),
{
    let s = e@;
    let x = error::fault_text(s[i]);
    if s.len() == 1 {
        lemma_tells(seq![], x, seq![], r@);
    } else {
        lemma_line(s, s.len(), i);
        let l = error::fault_lines(s, s.len());
        let (a, z) = choose|a: Seq<char>, z: Seq<char>| l == #[trigger] (a + x + z);
        let n = text::decimal(s.len());
        lemma_tells(n + " build errors:\n"@ + a, x, z, r@);
        lemma_tells(seq![], n, " build errors:\n"@ + l, r@);
    }
}

/// A flat status has the name of the status, and everything that the status says.
pub proof fn law_flat_status_keeps_everything(s: WorkflowStatus, r: FlatWorkflowStatus)
    requires
        call_ensures(<FlatWorkflowStatus as From<WorkflowStatus>>::from, (s,), r),
    ensures
        r@.status == workflow::status_text(s@),
        match s@ {
            Status::Failed(e) => r@.error == Some(e),
            Status::Cancelled { reason, cancelled_by } => r@.reason == reason && r@.cancelled_by
                == cancelled_by,
            Status::Paused { reason, paused_by } => r@.reason == reason && r@.paused_by
                == paused_by,
            Status::Waiting { delay_id, .. } => r@.delay_id == Some(delay_id) && r@.wake_at is Some,
            Status::AwaitingSignal { signal_id, signal_name, wake_at } => r@.signal_id == Some(
                signal_id,
            ) && r@.signal_name == Some(signal_name) && (r@.wake_at is Some <==> wake_at is Some),
            _ => true,
        },
        !(s@ is Failed) ==> r@.error is None,
        !(s@ is Cancelled) ==> r@.cancelled_by is None,
        !(s@ is Paused) ==> r@.paused_by is None,
{
}

} // verus!
