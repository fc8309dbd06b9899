//! Copies of snapshots and their parts.
use crate::snapshot;
use crate::snapshot::{
    ExecutionPosition, TaskDeadline, TaskResult, TaskRetryState, WorkflowSnapshot,
    WorkflowSnapshotState,
};
use crate::string_map::StringMap;
use crate::text::{clone_bytes, clone_opt_text, clone_texts};
use vstd::prelude::*;

verus! {

impl Clone for TaskResult {
    fn clone(&self) -> (r: Self)
        ensures
            r@ == self@,
    {
        TaskResult { task_id: self.task_id.clone(), output: clone_bytes(&self.output) }
    }
}

impl Clone for TaskDeadline {
    fn clone(&self) -> (r: Self)
        ensures
            r@ == self@,
    {
        TaskDeadline {
            task_id: self.task_id.clone(),
            deadline: self.deadline,
            timeout_ms: self.timeout_ms,
        }
    }
}

impl Clone for TaskRetryState {
    fn clone(&self) -> (r: Self)
        ensures
            r@ == self@,
    {
        TaskRetryState {
            attempts: self.attempts,
            policy: self.policy.clone(),
            last_error: self.last_error.clone(),
            last_failed_worker: clone_opt_text(&self.last_failed_worker),
            next_retry_at: self.next_retry_at,
        }
    }
}

/// A copy of a map of results.
pub fn clone_results(m: &StringMap<TaskResult>) -> (r: StringMap<TaskResult>)
    ensures
        snapshot::outcomes(r@) == snapshot::outcomes(m@),
{
    let r = m.duplicate();
    proof {
        assert(snapshot::outcomes(r@) =~= snapshot::outcomes(m@));
    }
    r
}

impl Clone for ExecutionPosition {
    fn clone(&self) -> (r: Self)
        ensures
            r@ == self@,
    {
        match self {
            ExecutionPosition::NotStarted => ExecutionPosition::NotStarted,
            ExecutionPosition::AtTask { task_id } => ExecutionPosition::AtTask {
                task_id: task_id.clone(),
            },
            ExecutionPosition::AtFork { fork_id, completed_branches, wake_at } =>
                ExecutionPosition::AtFork {
                fork_id: fork_id.clone(),
                completed_branches: clone_results(completed_branches),
                wake_at: *wake_at,
            },
            ExecutionPosition::AtJoin { join_id, completed_branches } =>
                ExecutionPosition::AtJoin {
                join_id: join_id.clone(),
                completed_branches: clone_results(completed_branches),
            },
            ExecutionPosition::AtDelay { delay_id, entered_at, wake_at, next_task_id } =>
                ExecutionPosition::AtDelay {
                delay_id: delay_id.clone(),
                entered_at: *entered_at,
                wake_at: *wake_at,
                next_task_id: clone_opt_text(next_task_id),
            },
            ExecutionPosition::AtSignal { signal_id, signal_name, wake_at, next_task_id } =>
                ExecutionPosition::AtSignal {
                signal_id: signal_id.clone(),
                signal_name: signal_name.clone(),
                wake_at: *wake_at,
                next_task_id: clone_opt_text(next_task_id),
            },
            ExecutionPosition::InLoop { loop_id, iteration, next_task_id } =>
                ExecutionPosition::InLoop {
                loop_id: loop_id.clone(),
                iteration: *iteration,
                next_task_id: clone_opt_text(next_task_id),
            },
        }
    }
}

impl Clone for WorkflowSnapshotState {
    fn clone(&self) -> (r: Self)
        ensures
            r@ == self@,
    {
        match self {
            WorkflowSnapshotState::InProgress {
                position,
                completed_tasks,
                last_completed_task_id,
            } => WorkflowSnapshotState::InProgress {
                position: position.clone(),
                completed_tasks: clone_results(completed_tasks),
                last_completed_task_id: clone_opt_text(last_completed_task_id),
            },
            WorkflowSnapshotState::Completed { final_output } => WorkflowSnapshotState::Completed {
                final_output: clone_bytes(final_output),
            },
            WorkflowSnapshotState::Failed { error } => WorkflowSnapshotState::Failed {
                error: error.clone(),
            },
            WorkflowSnapshotState::Cancelled {
                reason,
                cancelled_by,
                cancelled_at,
                completed_tasks,
                interrupted_at_task,
            } => WorkflowSnapshotState::Cancelled {
                reason: clone_opt_text(reason),
                cancelled_by: clone_opt_text(cancelled_by),
                cancelled_at: *cancelled_at,
                completed_tasks: clone_results(completed_tasks),
                interrupted_at_task: clone_opt_text(interrupted_at_task),
            },
            WorkflowSnapshotState::Paused {
                reason,
                paused_by,
                paused_at,
                completed_tasks,
                position,
                last_completed_task_id,
            } => WorkflowSnapshotState::Paused {
                reason: clone_opt_text(reason),
                paused_by: clone_opt_text(paused_by),
                paused_at: *paused_at,
                completed_tasks: clone_results(completed_tasks),
                position: position.clone(),
                last_completed_task_id: clone_opt_text(last_completed_task_id),
            },
        }
    }
}

impl Clone for WorkflowSnapshot {
    fn clone(&self) -> (r: Self)
        ensures
            r@ == self@,
    {
        let task_retries = self.task_retries.duplicate();
        let loop_iterations = self.loop_iterations.duplicate();
        proof {
            assert(snapshot::retry_states(task_retries@) =~= snapshot::retry_states(
                self.task_retries@,
            ));
            assert(loop_iterations@ =~= self.loop_iterations@);
        }
        WorkflowSnapshot {
            instance_id: self.instance_id.clone(),
            definition_hash: self.definition_hash.clone(),
            state: self.state.clone(),
            created_at: self.created_at,
            updated_at: self.updated_at,
            initial_input: self.initial_input_bytes(),
            task_deadline: match &self.task_deadline {
                Some(d) => Some(d.clone()),
                None => None,
            },
            task_retries,
            loop_iterations,
            task_priority: self.task_priority,
            task_tags: clone_texts(&self.task_tags),
            trace_parent: clone_opt_text(&self.trace_parent),
        }
    }
}

} // verus!
