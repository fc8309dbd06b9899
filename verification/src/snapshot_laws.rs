//! What every change of a snapshot keeps, and what it changes.
use crate::duration::Duration;
use crate::snapshot;
use crate::snapshot::{
    ExecutionPosition, PauseRequest, Position, Snap, State, TaskHint, WorkflowSnapshot,
    WorkflowSnapshotState,
};
use crate::task::RetryPolicy;
use crate::text;
use crate::time;
use crate::time::Timestamp;
use crate::workflow::{Status, WorkflowStatus};
use vstd::prelude::*;

verus! {

/// What a workflow is does not change when it runs.
pub open spec fn same_workflow(a: Snap, b: Snap) -> bool {
    a.instance_id == b.instance_id && a.definition_hash == b.definition_hash && a.created_at
        == b.created_at && a.initial_input == b.initial_input && a.trace_parent == b.trace_parent
        && a.task_priority == b.task_priority && a.task_tags == b.task_tags
}

/// An instant, in seconds and nanoseconds, is another one or later.
pub open spec fn at_or_after(a: (i64, u32), b: (i64, u32)) -> bool {
    a.0 > b.0 || (a.0 == b.0 && a.1 >= b.1)
}

/// A new snapshot has not started, holds the input that it was given, and nothing else.
pub proof fn law_new_snapshot(
    instance_id: String,
    definition_hash: String,
    input: Option<Vec<u8>>,
    now: Timestamp,
    r: WorkflowSnapshot,
)
    requires
        now.parts().0 >= 0,
        call_ensures(WorkflowSnapshot::new_at, (instance_id, definition_hash, input, now), r),
    ensures
        r@.instance_id == instance_id@,
        r@.definition_hash == definition_hash@,
        r@.state is InProgress && r@.state->InProgress_position is NotStarted,
        r@.state->InProgress_completed.dom() == Set::<Seq<char>>::empty(),
        r@.state->InProgress_last is None,
        r@.created_at == now.parts().0 && r@.updated_at == now.parts().0,
        match input {
            Some(b) => r@.initial_input == Some(b@),
            None => r@.initial_input is None,
        },
        r@.task_deadline is None && r@.task_priority is None && r@.trace_parent is None,
        r@.task_retries.dom() == Set::<Seq<char>>::empty(),
        r@.loop_iterations.dom() == Set::<Seq<char>>::empty(),
        r@.task_tags.len() == 0,
{
}

/// A result that is stored is found under its task, is the output that completed last, and
/// leaves every other result and the position alone. A workflow that is not in progress takes
/// none.
pub proof fn law_completed_task_is_recorded(
    m: &mut WorkflowSnapshot,
    task_id: String,
    output: Vec<u8>,
    now: Timestamp,
)
    requires
        now.parts().0 >= 0,
        call_ensures(WorkflowSnapshot::mark_task_completed_at, (m, task_id, output, now), ()),
    ensures
        same_workflow(old(m)@, final(m)@),
        !(old(m)@.state is InProgress) ==> final(m)@ == old(m)@,
        old(m)@.state is InProgress ==> {
            let s = old(m)@.state;
            let t = final(m)@.state;
            &&& t is InProgress
            &&& t->InProgress_position == s->InProgress_position
            &&& t->InProgress_completed.dom().contains(task_id@)
            &&& t->InProgress_completed[task_id@].output == output@
            &&& t->InProgress_completed[task_id@].task_id == task_id@
            &&& forall|other: Seq<char>|
                other != task_id@ ==> (#[trigger] t->InProgress_completed.dom().contains(other)
                    == s->InProgress_completed.dom().contains(other)) && (
                s->InProgress_completed.dom().contains(other) ==> t->InProgress_completed[other]
                    == s->InProgress_completed[other])
            &&& t->InProgress_last == Some(task_id@)
            &&& final(m)@.updated_at == now.parts().0
            &&& final(m)@.task_deadline == old(m)@.task_deadline
            &&& final(m)@.task_retries == old(m)@.task_retries
            &&& final(m)@.loop_iterations == old(m)@.loop_iterations
        },
{
}

/// A result that is dropped is gone, and every other one stays.
pub proof fn law_dropped_result_is_gone(m: &mut WorkflowSnapshot, task_id: &str, now: Timestamp)
    requires
        call_ensures(WorkflowSnapshot::remove_task_result_at, (m, task_id, now), ()),
    ensures
        same_workflow(old(m)@, final(m)@),
        !(old(m)@.state is InProgress) ==> final(m)@ == old(m)@,
        old(m)@.state is InProgress ==> {
            let s = old(m)@.state;
            let t = final(m)@.state;
            &&& t is InProgress
            &&& t->InProgress_position == s->InProgress_position
            &&& t->InProgress_last == s->InProgress_last
            &&& !t->InProgress_completed.dom().contains(task_id@)
            &&& forall|other: Seq<char>|
                other != task_id@ ==> (#[trigger] t->InProgress_completed.dom().contains(other)
                    == s->InProgress_completed.dom().contains(other)) && (
                s->InProgress_completed.dom().contains(other) ==> t->InProgress_completed[other]
                    == s->InProgress_completed[other])
        },
{
}

/// Only the position of a workflow in progress changes when it moves.
pub proof fn law_position_is_updated(
    m: &mut WorkflowSnapshot,
    position: ExecutionPosition,
    now: Timestamp,
)
    requires
        now.parts().0 >= 0,
        call_ensures(WorkflowSnapshot::update_position_at, (m, position, now), ()),
    ensures
        same_workflow(old(m)@, final(m)@),
        !(old(m)@.state is InProgress) ==> final(m)@ == old(m)@,
        old(m)@.state is InProgress ==> final(m)@.state is InProgress
            && final(m)@.state->InProgress_position == position@
            && final(m)@.state->InProgress_completed == old(m)@.state->InProgress_completed
            && final(m)@.state->InProgress_last == old(m)@.state->InProgress_last
            && final(m)@.updated_at == now.parts().0,
{
}

/// A workflow that ends holds its output or its error, has ended, and nothing of it is
/// pending any more.
pub proof fn law_end_clears_what_is_pending(
    a: &mut WorkflowSnapshot,
    b: &mut WorkflowSnapshot,
    output: Vec<u8>,
    error: String,
    now: Timestamp,
)
    requires
        now.parts().0 >= 0,
        call_ensures(WorkflowSnapshot::mark_completed_at, (a, output, now), ()),
        call_ensures(WorkflowSnapshot::mark_failed_at, (b, error, now), ()),
    ensures
        same_workflow(old(a)@, final(a)@),
        same_workflow(old(b)@, final(b)@),
        final(a)@.state is Completed && final(a)@.state->final_output == output@,
        final(b)@.state is Failed && final(b)@.state->error == error@,
        final(a)@.updated_at == now.parts().0 && final(b)@.updated_at == now.parts().0,
        final(a)@.task_deadline is None && final(b)@.task_deadline is None,
        final(a)@.task_retries.dom() == Set::<Seq<char>>::empty(),
        final(b)@.task_retries.dom() == Set::<Seq<char>>::empty(),
        final(a)@.loop_iterations.dom() == Set::<Seq<char>>::empty(),
        final(b)@.loop_iterations.dom() == Set::<Seq<char>>::empty(),
{
}

/// A workflow in progress that is paused keeps its results and its position and says who
/// paused it and why; any other one is left alone.
pub proof fn law_pause_keeps_the_place(
    m: &mut WorkflowSnapshot,
    request: &PauseRequest,
    now: Timestamp,
)
    requires
        call_ensures(WorkflowSnapshot::mark_paused_at, (m, request, now), ()),
    ensures
        same_workflow(old(m)@, final(m)@),
        !(old(m)@.state is InProgress) ==> final(m)@ == old(m)@,
        old(m)@.state is InProgress ==> {
            let s = old(m)@.state;
            let t = final(m)@.state;
            &&& t is Paused
            &&& t->Paused_completed == s->InProgress_completed
            &&& t->Paused_position == s->InProgress_position
            &&& t->Paused_last == s->InProgress_last
            &&& t->Paused_reason == text::opt_text(request.reason)
            &&& t->paused_by == text::opt_text(request.requested_by)
            &&& t->paused_at == now
            &&& final(m)@.task_deadline is None
            &&& final(m)@.task_retries == old(m)@.task_retries
            &&& final(m)@.loop_iterations == old(m)@.loop_iterations
        },
{
}

/// A paused workflow goes on where it was paused; any other one is left alone.
pub proof fn law_unpause_goes_on(m: &mut WorkflowSnapshot, now: Timestamp)
    requires
        call_ensures(WorkflowSnapshot::mark_unpaused_at, (m, now), ()),
    ensures
        same_workflow(old(m)@, final(m)@),
        !(old(m)@.state is Paused) ==> final(m)@ == old(m)@,
        old(m)@.state is Paused ==> {
            let s = old(m)@.state;
            let t = final(m)@.state;
            &&& t is InProgress
            &&& t->InProgress_completed == s->Paused_completed
            &&& t->InProgress_position == s->Paused_position
            &&& t->InProgress_last == s->Paused_last
            &&& final(m)@.task_retries == old(m)@.task_retries
            &&& final(m)@.loop_iterations == old(m)@.loop_iterations
        },
{
}

/// A workflow that is cancelled says who cancelled it, why and where, keeps the results that
/// its state holds, and has no deadline any more.
pub proof fn law_cancellation_keeps_results(
    m: &mut WorkflowSnapshot,
    reason: Option<String>,
    by: Option<String>,
    task: Option<String>,
    now: Timestamp,
)
    requires
        call_ensures(WorkflowSnapshot::mark_cancelled_at, (m, reason, by, task, now), ()),
    ensures
        same_workflow(old(m)@, final(m)@),
        final(m)@.state is Cancelled,
        final(m)@.state->Cancelled_reason == text::opt_text(reason),
        final(m)@.state->cancelled_by == text::opt_text(by),
        final(m)@.state->interrupted_at_task == text::opt_text(task),
        final(m)@.state->cancelled_at == now,
        final(m)@.task_deadline is None,
        match old(m)@.state {
            State::InProgress { completed, .. } => final(m)@.state->Cancelled_completed
                == completed,
            State::Paused { completed, .. } => final(m)@.state->Cancelled_completed == completed,
            State::Cancelled { completed, .. } => final(m)@.state->Cancelled_completed
                == completed,
            _ => final(m)@.state->Cancelled_completed.dom() == Set::<Seq<char>>::empty(),
        },
{
}

/// A failed attempt counts one more, and is due again after the delay, or after the maximum
/// of the policy where that is shorter. The attempts of other tasks stay. After as many
/// attempts as the policy allows the retries are used up.
pub proof fn law_failed_attempt_is_counted(
    m: &mut WorkflowSnapshot,
    task_id: &str,
    policy: &RetryPolicy,
    error: &str,
    worker_id: Option<&str>,
    delay_ms: i64,
    now: Timestamp,
    r: Timestamp,
)
    requires
        now.parts().0 >= 0,
        now.parts().1 < 1_000_000_000,
        0 <= delay_ms,
        snapshot::attempts(old(m)@, task_id@) < u32::MAX,
        call_ensures(
            WorkflowSnapshot::record_retry,
            (m, task_id, policy, error, worker_id, delay_ms, now),
            r,
        ),
    ensures
        same_workflow(old(m)@, final(m)@),
        final(m)@.state == old(m)@.state,
        final(m)@.task_retries.dom().contains(task_id@),
        ({
            let s = final(m)@.task_retries[task_id@];
            &&& s.attempts == (if old(m)@.task_retries.dom().contains(task_id@) {
                old(m)@.task_retries[task_id@].attempts + 1
            } else {
                1
            })
            &&& s.policy == policy@
            &&& s.last_error == error@
            &&& s.last_failed_worker == crate::continuation::opt_str(worker_id)
            &&& s.next_retry_at == r
        }),
        ({
            // Nanoseconds between now and the next attempt.
            let waited = (r.parts().0 - now.parts().0) * 1_000_000_000 + (r.parts().1
                - now.parts().1);
            match policy.max_delay {
                Some(d) => if d.secs * 1000 + d.nanos / 1_000_000 < delay_ms {
                    waited == (d.secs * 1000 + d.nanos / 1_000_000) * 1_000_000
                } else {
                    waited == delay_ms * 1_000_000
                },
                None => waited == delay_ms * 1_000_000,
            }
        }),
        forall|other: Seq<char>|
            other != task_id@ ==> (#[trigger] final(m)@.task_retries.dom().contains(other)
                == old(m)@.task_retries.dom().contains(other)) && (
            old(m)@.task_retries.dom().contains(other) ==> final(m)@.task_retries[other]
                == old(m)@.task_retries[other]),
{
}

/// A task that runs out of its timeout is told exactly when: `timeout` after it was started
/// the deadline has passed, and not before.
pub proof fn law_deadline_is_the_timeout_later(
    m: &mut WorkflowSnapshot,
    task_id: String,
    timeout: Duration,
    now: Timestamp,
)
    requires
        now.parts().0 >= 0,
        now.parts().1 < 1_000_000_000,
        timeout.wf(),
        timeout.secs <= time::MAX_SECS,
        call_ensures(WorkflowSnapshot::set_task_deadline, (m, task_id, timeout, now), ()),
    ensures
        same_workflow(old(m)@, final(m)@),
        final(m)@.state == old(m)@.state,
        final(m)@.task_deadline is Some,
        ({
            let d = final(m)@.task_deadline->0;
            &&& d.task_id == task_id@
            &&& (d.deadline.parts().0 - now.parts().0) * 1_000_000_000 + (d.deadline.parts().1
                - now.parts().1) == timeout.secs * 1_000_000_000 + timeout.nanos
            &&& d.timeout_ms == timeout.secs * 1000 + timeout.nanos / 1_000_000
        }),
{
}

/// A deadline has expired from its own instant on, and then names its task and its timeout.
pub proof fn law_deadline_expires(s: &WorkflowSnapshot, now: &Timestamp, r: Option<
    (&str, Duration),
>)
    requires
        call_ensures(WorkflowSnapshot::expired_task_deadline_at, (s, now), r),
    ensures
        r is Some <==> s@.task_deadline is Some && at_or_after(
            now.parts(),
            s@.task_deadline->0.deadline.parts(),
        ),
        r matches Some(x) ==> x.0@ == s@.task_deadline->0.task_id && x.1.secs * 1000 + x.1.nanos
            / 1_000_000 == s@.task_deadline->0.timeout_ms,
{
}

/// What is reported of a workflow tells its state, and where it is parked.
pub proof fn law_status_tells_the_state(s: &WorkflowSnapshotState, r: WorkflowStatus)
    requires
        call_ensures(WorkflowSnapshotState::as_status, (s,), r),
    ensures
        s@ is Completed <==> r@ is Completed,
        s@ is Failed <==> r@ is Failed,
        s@ is Failed ==> r@->Failed_0 == s@->error,
        s@ is Cancelled <==> r@ is Cancelled,
        s@ is Cancelled ==> r@->Cancelled_reason == s@->Cancelled_reason && r@->cancelled_by
            == s@->cancelled_by,
        s@ is Paused <==> r@ is Paused,
        s@ is Paused ==> r@->Paused_reason == s@->Paused_reason && r@->paused_by == s@->paused_by,
        s@ is InProgress ==> (match s@->InProgress_position {
            Position::AtDelay { delay_id, wake_at, .. } => r@ == (Status::Waiting {
                wake_at,
                delay_id,
            }),
            Position::AtFork { fork_id, wake_at, .. } => r@ == (Status::Waiting {
                wake_at,
                delay_id: fork_id,
            }),
            Position::AtSignal { signal_id, signal_name, wake_at, .. } => r@ == (
            Status::AwaitingSignal { signal_id, signal_name, wake_at }),
            _ => r@ is InProgress,
        }),
{
}

/// Only what is reported as ended is reported as such, and as what it is.
pub proof fn law_ended_status_tells_the_state(
    s: &WorkflowSnapshotState,
    r: Option<WorkflowStatus>,
    ended: bool,
)
    requires
        call_ensures(WorkflowSnapshotState::as_terminal_status, (s,), r),
        call_ensures(WorkflowSnapshotState::is_terminal, (s,), ended),
    ensures
        r is None <==> s@ is InProgress,
        s@ is Completed ==> r->0@ is Completed,
        s@ is Failed ==> r->0@ is Failed && r->0@->Failed_0 == s@->error,
        s@ is Cancelled ==> r->0@ is Cancelled && r->0@->Cancelled_reason == s@->Cancelled_reason
            && r->0@->cancelled_by == s@->cancelled_by,
        s@ is Paused ==> r->0@ is Paused && r->0@->Paused_reason == s@->Paused_reason
            && r->0@->paused_by == s@->paused_by,
        ended <==> s@ is Completed || s@ is Failed || s@ is Cancelled,
{
}

/// The results of a workflow, which it holds in progress, paused and cancelled.
pub open spec fn results_of(s: State) -> Map<Seq<char>, snapshot::Outcome> {
    match s {
        State::InProgress { completed, .. } => completed,
        State::Paused { completed, .. } => completed,
        State::Cancelled { completed, .. } => completed,
        _ => Map::empty(),
    }
}

/// A result is read under its task, the last one of a workflow in progress is the output of
/// the task that completed last, and only a completed workflow has a final output.
pub proof fn law_results_are_read(
    s: &WorkflowSnapshot,
    task_id: &str,
    r: Option<Vec<u8>>,
    last: Option<Vec<u8>>,
    output: Option<Vec<u8>>,
    input: Option<Vec<u8>>,
)
    requires
        call_ensures(WorkflowSnapshot::get_task_result_bytes, (s, task_id), r),
        call_ensures(WorkflowSnapshot::get_last_task_output, (s,), last),
        call_ensures(WorkflowSnapshot::final_output_bytes, (s,), output),
        call_ensures(WorkflowSnapshot::initial_input_bytes, (s,), input),
    ensures
        r is Some <==> results_of(s@.state).dom().contains(task_id@),
        r is Some ==> r->0@ == results_of(s@.state)[task_id@].output,
        last is Some <==> s@.state is InProgress && s@.state->InProgress_last is Some
            && s@.state->InProgress_completed.dom().contains(s@.state->InProgress_last->0),
        last is Some ==> last->0@
            == s@.state->InProgress_completed[s@.state->InProgress_last->0].output,
        output is Some <==> s@.state is Completed,
        output is Some ==> output->0@ == s@.state->final_output,
        input is Some <==> s@.initial_input is Some,
        input is Some ==> input->0@ == s@.initial_input->0,
{
}

/// Where a workflow is parked, and until when, is told by its position; the rest of the
/// workflow does not matter.
pub proof fn law_place_is_told(
    s: &WorkflowSnapshot,
    task: Option<&str>,
    kind: Option<&'static str>,
    wake: Option<Timestamp>,
    signal: Option<&str>,
    error: Option<&str>,
)
    requires
        call_ensures(WorkflowSnapshot::current_task_id, (s,), task),
        call_ensures(WorkflowSnapshot::position_kind, (s,), kind),
        call_ensures(WorkflowSnapshot::delay_wake_at, (s,), wake),
        call_ensures(WorkflowSnapshot::awaited_signal_name, (s,), signal),
        call_ensures(WorkflowSnapshot::error_message, (s,), error),
    ensures
        task is Some <==> s@.state is InProgress && s@.state->InProgress_position is AtTask,
        task is Some ==> task->0@ == s@.state->InProgress_position->AtTask_task_id,
        kind is Some <==> s@.state is InProgress || s@.state is Paused,
        wake == (match s@.state {
            State::InProgress { position: Position::AtDelay { wake_at, .. }, .. } => Some(wake_at),
            State::InProgress { position: Position::AtFork { wake_at, .. }, .. } => Some(wake_at),
            State::InProgress { position: Position::AtSignal { wake_at, .. }, .. } => wake_at,
            _ => None,
        }),
        signal is Some <==> s@.state is InProgress && s@.state->InProgress_position is AtSignal,
        signal is Some ==> signal->0@ == s@.state->InProgress_position->signal_name,
        error is Some <==> s@.state is Failed,
        error is Some ==> error->0@ == s@.state->error,
{
}

/// The priority and the tags of a task that are set are read; the priority is 3 where none is
/// set.
pub proof fn law_hint_is_read(
    m: &mut WorkflowSnapshot,
    hint: &TaskHint,
    s: &WorkflowSnapshot,
    priority: u8,
    tags: &Vec<String>,
)
    requires
        call_ensures(WorkflowSnapshot::set_task_hint, (m, hint), ()),
        s@ == final(m)@,
        call_ensures(WorkflowSnapshot::current_task_priority, (s,), priority),
        call_ensures(WorkflowSnapshot::current_task_tags, (s,), tags),
    ensures
        priority == (if hint.priority is Some {
            hint.priority->0
        } else {
            3
        }),
        text::texts(tags@) == text::texts(hint.tags@),
        final(m)@.state == old(m)@.state,
        final(m)@.instance_id == old(m)@.instance_id,
        final(m)@.task_retries == old(m)@.task_retries,
{
}

/// Retries are used up as soon as a task failed as often as its policy allows, and a worker
/// that it failed on last is remembered. State that is cleared is gone, and that of other
/// tasks stays.
pub proof fn law_retries_are_used_up(
    s: &WorkflowSnapshot,
    task_id: &str,
    worker_id: &str,
    used: bool,
    failed: bool,
    m: &mut WorkflowSnapshot,
)
    requires
        call_ensures(WorkflowSnapshot::retries_exhausted, (s, task_id), used),
        call_ensures(WorkflowSnapshot::has_failed_on_worker, (s, task_id, worker_id), failed),
        call_ensures(WorkflowSnapshot::clear_retry_state, (m, task_id), ()),
    ensures
        used <==> s@.task_retries.dom().contains(task_id@) && s@.task_retries[task_id@].attempts
            >= s@.task_retries[task_id@].policy.max_retries,
        failed <==> s@.task_retries.dom().contains(task_id@)
            && s@.task_retries[task_id@].last_failed_worker == Some(worker_id@),
        !final(m)@.task_retries.dom().contains(task_id@),
        forall|other: Seq<char>|
            other != task_id@ ==> (#[trigger] final(m)@.task_retries.dom().contains(other)
                == old(m)@.task_retries.dom().contains(other)) && (
            old(m)@.task_retries.dom().contains(other) ==> final(m)@.task_retries[other]
                == old(m)@.task_retries[other]),
        final(m)@.state == old(m)@.state,
        final(m)@.loop_iterations == old(m)@.loop_iterations,
        same_workflow(old(m)@, final(m)@),
{
}

/// The iteration that is set of a loop is read, that of other loops stays, and one that is
/// cleared is 0 again.
pub proof fn law_iteration_is_read(
    m: &mut WorkflowSnapshot,
    k: &mut WorkflowSnapshot,
    loop_id: &str,
    other: &str,
    iteration: u32,
    now: Timestamp,
    before: &WorkflowSnapshot,
    after: &WorkflowSnapshot,
    cleared: &WorkflowSnapshot,
    r: u32,
    was: u32,
    is: u32,
    none: u32,
)
    requires
        call_ensures(WorkflowSnapshot::set_loop_iteration_at, (m, loop_id, iteration, now), ()),
        call_ensures(WorkflowSnapshot::clear_loop_iteration, (k, loop_id), ()),
        before@ == old(m)@,
        after@ == final(m)@,
        cleared@ == final(k)@,
        call_ensures(WorkflowSnapshot::loop_iteration, (after, loop_id), r),
        other@ != loop_id@,
        call_ensures(WorkflowSnapshot::loop_iteration, (before, other), was),
        call_ensures(WorkflowSnapshot::loop_iteration, (after, other), is),
        call_ensures(WorkflowSnapshot::loop_iteration, (cleared, loop_id), none),
    ensures
        r == iteration,
        was == is,
        none == 0,
        final(m)@.state == old(m)@.state && final(k)@.state == old(k)@.state,
        same_workflow(old(m)@, final(m)@) && same_workflow(old(k)@, final(k)@),
{
}

/// A deadline that is refreshed is that of the same task, its timeout after now, where a timeout
/// beyond the signed range counts as the negative number with its bits; one that is cleared is
/// gone.
pub proof fn law_deadline_is_refreshed(
    m: &mut WorkflowSnapshot,
    k: &mut WorkflowSnapshot,
    now: Timestamp,
)
    requires
        now.parts().0 >= 0,
        now.parts().1 < 1_000_000_000,
        old(m)@.task_deadline is Some,
        call_ensures(WorkflowSnapshot::refresh_task_deadline, (m, now), ()),
        call_ensures(WorkflowSnapshot::clear_task_deadline, (k,), ()),
    ensures
        final(m)@.task_deadline is Some,
        final(m)@.task_deadline->0.task_id == old(m)@.task_deadline->0.task_id,
        final(m)@.task_deadline->0.timeout_ms == old(m)@.task_deadline->0.timeout_ms,
        ({
            let d = final(m)@.task_deadline->0.deadline.parts();
            let ms = old(m)@.task_deadline->0.timeout_ms;
            let later = (d.0 - now.parts().0) * 1_000_000_000 + (d.1 - now.parts().1);
            &&& ms <= i64::MAX ==> later == ms * 1_000_000
            &&& ms > i64::MAX ==> later == (ms - 0x1_0000_0000_0000_0000) * 1_000_000
        }),
        final(m)@.state == old(m)@.state,
        final(k)@.task_deadline is None,
        final(k)@.state == old(k)@.state,
        final(k)@.task_retries == old(k)@.task_retries,
{
}

/// What is done at the time of the clock is what is done at a given time.
pub proof fn law_clock_changes_are_changes_at_a_time(
    a: &mut WorkflowSnapshot,
    b: &mut WorkflowSnapshot,
    c: &mut WorkflowSnapshot,
    d: &mut WorkflowSnapshot,
    e: &mut WorkflowSnapshot,
    f: &mut WorkflowSnapshot,
    g: &mut WorkflowSnapshot,
    task_id: String,
    output: Vec<u8>,
    error: String,
    position: ExecutionPosition,
    request: &PauseRequest,
    reason: Option<String>,
    by: Option<String>,
    task: Option<String>,
)
    requires
        call_ensures(WorkflowSnapshot::mark_task_completed, (a, task_id, output), ()),
        call_ensures(WorkflowSnapshot::update_position, (b, position), ()),
        call_ensures(WorkflowSnapshot::mark_completed, (c, output), ()),
        call_ensures(WorkflowSnapshot::mark_failed, (d, error), ()),
        call_ensures(WorkflowSnapshot::mark_paused, (e, request), ()),
        call_ensures(WorkflowSnapshot::mark_unpaused, (f,), ()),
        call_ensures(WorkflowSnapshot::mark_cancelled, (g, reason, by, task), ()),
    ensures
        same_workflow(old(a)@, final(a)@) && same_workflow(old(b)@, final(b)@) && same_workflow(
            old(c)@,
            final(c)@,
        ) && same_workflow(old(d)@, final(d)@) && same_workflow(old(e)@, final(e)@)
            && same_workflow(old(f)@, final(f)@) && same_workflow(old(g)@, final(g)@),
        old(a)@.state is InProgress ==> final(a)@.state is InProgress
            && final(a)@.state->InProgress_completed.dom().contains(task_id@)
            && final(a)@.state->InProgress_completed[task_id@].output == output@
            && final(a)@.state->InProgress_last == Some(task_id@)
            && final(a)@.state->InProgress_position == old(a)@.state->InProgress_position,
        !(old(a)@.state is InProgress) ==> final(a)@ == old(a)@,
        old(b)@.state is InProgress ==> final(b)@.state is InProgress
            && final(b)@.state->InProgress_position == position@
            && final(b)@.state->InProgress_completed == old(b)@.state->InProgress_completed
            && final(b)@.state->InProgress_last == old(b)@.state->InProgress_last,
        final(c)@.state is Completed && final(c)@.state->final_output == output@,
        final(d)@.state is Failed && final(d)@.state->error == error@,
        final(c)@.task_deadline is None && final(d)@.task_deadline is None,
        old(e)@.state is InProgress ==> final(e)@.state is Paused && final(e)@.state->Paused_completed
            == old(e)@.state->InProgress_completed && final(e)@.state->Paused_position
            == old(e)@.state->InProgress_position && final(e)@.state->Paused_reason
            == text::opt_text(request.reason) && final(e)@.state->paused_by == text::opt_text(
            request.requested_by,
        ),
        old(f)@.state is Paused ==> final(f)@.state is InProgress
            && final(f)@.state->InProgress_completed == old(f)@.state->Paused_completed
            && final(f)@.state->InProgress_position == old(f)@.state->Paused_position,
        final(g)@.state is Cancelled && final(g)@.state->Cancelled_reason == text::opt_text(reason)
            && final(g)@.state->cancelled_by == text::opt_text(by)
            && final(g)@.state->interrupted_at_task == text::opt_text(task),
        final(g)@.state->Cancelled_completed == results_of(old(g)@.state),
{
}

} // verus!
