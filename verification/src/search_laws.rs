//! What the search of a worker asks, whom it leaves alone and what it offers.
use crate::dynamodb_claims::{dispatch, Dispatch, DispatchSpec, Offer};
use crate::dynamodb_events;
use crate::dynamodb_item::{Item, Val};
use crate::snapshot::WorkflowSnapshot;
use crate::task_search;
use crate::task_search::{Search, SearchStep, StageSpec, StepSpec, TaskSearch};
use crate::time::Timestamp;
use vstd::prelude::*;

verus! {

/// The search goes on with the next instance, or is over where there is none.
pub open spec fn goes_on(before: Search, after: Search, step: StepSpec) -> bool {
    &&& after.limit == before.limit
    &&& after.instances == before.instances
    &&& if before.taken < before.instances.len() {
        after.taken == before.taken + 1 && after.stage is Signals && step
            == StepSpec::CheckSignals(before.instances[before.taken as int])
    } else {
        after.taken == before.taken && after.stage is Finished && step is Done
    }
}

/// The workflow at hand is left alone: nothing is found, and the search goes on.
pub open spec fn leaves_alone(before: Search, after: Search, step: StepSpec) -> bool {
    goes_on(before, after, step) && after.found == before.found
}

/// A task is found, and the search goes on unless as many were found as were asked for.
pub open spec fn takes(before: Search, task: Offer, after: Search, step: StepSpec) -> bool {
    &&& after.found.len() == before.found.len() + 1
    &&& after.found.last() == task
    &&& after.found.drop_last() == before.found
    &&& if after.found.len() >= before.limit {
        after.stage is Finished && step is Done
    } else {
        goes_on(before, after, step)
    }
}

/// An item of a query is the current snapshot of an instance.
pub open spec fn current_of(m: Map<Seq<char>, Val>, id: Seq<char>) -> bool {
    &&& m.dom().contains("PK"@) && m["PK"@] is S && "SNAP#"@.is_prefix_of(m["PK"@]->S_0)
    &&& m.dom().contains("SK"@) && m["SK"@] == Val::S("current"@)
    &&& m.dom().contains("instance_id"@) && m["instance_id"@] == Val::S(id)
}

proof fn lemma_candidates(items: Seq<Map<Seq<char>, Val>>, k: nat, id: Seq<char>)
    requires
        k <= items.len(),
    ensures
        task_search::candidates(items, k).contains(id) <==> exists|j: int|
            0 <= j < k && current_of(#[trigger] items[j], id),
    decreases k,
{
    if k > 0 {
        lemma_candidates(items, (k - 1) as nat, id);
        let p = task_search::candidates(items, (k - 1) as nat);
        let all = task_search::candidates(items, k);
        if p.contains(id) {
            let j = choose|j: int| 0 <= j < k - 1 && current_of(#[trigger] items[j], id);
            assert(current_of(items[j], id));
            assert(all[p.index_of(id)] == id);
        }
        if current_of(items[k - 1], id) {
            assert(all[all.len() - 1] == id);
        }
        if all.contains(id) && !p.contains(id) {
            let n = all.index_of(id);
            assert(n == p.len());
            assert(current_of(items[k - 1], id));
        }
    }
}

/// A search looks at the instances whose current snapshots are among the items, and at no
/// others, and has found nothing yet.
pub proof fn law_search_looks_at_current_snapshots(
    items: &Vec<Item>,
    limit: usize,
    r: (TaskSearch, SearchStep),
    id: Seq<char>,
)
    requires
        call_ensures(TaskSearch::start, (items, limit), r),
    ensures
        r.0@.found.len() == 0,
        r.0@.limit == limit,
        r.0@.instances.contains(id) <==> exists|j: int|
            0 <= j < items@.len() && current_of(#[trigger] items@[j]@, id),
        r.0@.instances.len() > 0 ==> r.1@ == StepSpec::CheckSignals(r.0@.instances[0])
            && r.0@.taken == 1 && r.0@.stage is Signals,
        r.0@.instances.len() == 0 ==> r.1@ is Done,
{
    let maps = dynamodb_events::item_maps(items@);
    lemma_candidates(maps, maps.len(), id);
    if r.0@.instances.contains(id) {
        let j = choose|j: int| 0 <= j < maps.len() && current_of(#[trigger] maps[j], id);
        assert(current_of(items@[j]@, id));
    }
    if exists|j: int| 0 <= j < items@.len() && current_of(#[trigger] items@[j]@, id) {
        let j = choose|j: int| 0 <= j < items@.len() && current_of(#[trigger] items@[j]@, id);
        assert(current_of(maps[j], id));
    }
}

/// A workflow with a pending signal is left alone; of another one the snapshot is asked for.
pub proof fn law_pending_signals_come_first(m: &mut TaskSearch, pending: bool, r: SearchStep)
    requires
        task_search::search_wf(old(m)@),
        old(m)@.stage is Signals,
        call_ensures(TaskSearch::on_signals, (m, pending), r),
    ensures
        pending ==> leaves_alone(old(m)@, final(m)@, r@),
        !pending ==> r@ == StepSpec::Load(old(m)@.instances[old(m)@.taken - 1])
            && final(m)@.stage is Loading && final(m)@.found == old(m)@.found && final(m)@.taken
            == old(m)@.taken && final(m)@.instances == old(m)@.instances && final(m)@.limit
            == old(m)@.limit,
{
}

/// A workflow that cannot be loaded is left alone. Of one in progress that is at a task it
/// is asked first whether that task is claimed.
pub proof fn law_claims_are_asked_for(
    m: &mut TaskSearch,
    loaded: Option<WorkflowSnapshot>,
    now: Timestamp,
    r: SearchStep,
)
    requires
        task_search::search_wf(old(m)@),
        old(m)@.stage is Loading,
        call_ensures(TaskSearch::on_loaded, (m, loaded, now), r),
    ensures
        loaded is None ==> leaves_alone(old(m)@, final(m)@, r@),
        loaded is Some && loaded->0@.state is InProgress
            && loaded->0@.state->InProgress_position is AtTask ==> r@ == StepSpec::CheckClaim(
            old(m)@.instances[old(m)@.taken - 1],
            loaded->0@.state->InProgress_position->AtTask_task_id,
        ) && final(m)@.stage == StageSpec::Claim(loaded->0@) && final(m)@.found == old(m)@.found
            && final(m)@.taken == old(m)@.taken && final(m)@.instances == old(m)@.instances
            && final(m)@.limit == old(m)@.limit,
{
}

/// The search does with a workflow what was decided about it.
pub open spec fn follows(
    before: Search,
    decision: DispatchSpec,
    after: Search,
    step: StepSpec,
) -> bool {
    match decision {
        DispatchSpec::Skip => leaves_alone(before, after, step),
        DispatchSpec::Ready(Some(task)) => takes(before, task, after, step),
        DispatchSpec::Ready(None) => after.found == before.found && (if before.found.len()
            >= before.limit {
            after.stage is Finished && step is Done
        } else {
            goes_on(before, after, step)
        }),
        DispatchSpec::Advance(there, task) => step == StepSpec::Save(there) && after == (Search {
            stage: StageSpec::Saving(task),
            ..before
        }),
        DispatchSpec::Finish(end) => step == StepSpec::Save(end) && after == (Search {
            stage: StageSpec::Saving(None),
            ..before
        }),
    }
}

/// A task that another worker has claimed is left alone; with one that is free the search
/// does what is decided about its workflow.
pub proof fn law_claimed_tasks_are_left_alone(
    m: &mut TaskSearch,
    claimed: bool,
    now: Timestamp,
    r: SearchStep,
    loaded: WorkflowSnapshot,
    decision: Dispatch,
)
    requires
        task_search::search_wf(old(m)@),
        old(m)@.stage == StageSpec::Claim(loaded@),
        call_ensures(TaskSearch::on_claim, (m, claimed, now), r),
        call_ensures(dispatch, (loaded, now), decision),
    ensures
        claimed ==> leaves_alone(old(m)@, final(m)@, r@),
        !claimed ==> follows(old(m)@, decision@, final(m)@, r@),
{
    if let DispatchSpec::Ready(Some(task)) = decision@ {
        assert(old(m)@.found.push(task).drop_last() =~= old(m)@.found);
    }
}

/// With a workflow that is at no task the search does what is decided about it.
pub proof fn law_parked_workflows_are_decided(
    m: &mut TaskSearch,
    loaded: WorkflowSnapshot,
    now: Timestamp,
    r: SearchStep,
    decision: Dispatch,
)
    requires
        task_search::search_wf(old(m)@),
        old(m)@.stage is Loading,
        !(loaded@.state is InProgress) || !(loaded@.state->InProgress_position is AtTask),
        call_ensures(TaskSearch::on_loaded, (m, Some(loaded), now), r),
        call_ensures(dispatch, (loaded, now), decision),
    ensures
        follows(old(m)@, decision@, final(m)@, r@),
{
}

/// Once a workflow that went past a delay is stored, the task after it is found.
pub proof fn law_task_after_delay_is_found(m: &mut TaskSearch, task: Offer, r: SearchStep)
    requires
        task_search::search_wf(old(m)@),
        old(m)@.stage == StageSpec::Saving(Some(task)),
        call_ensures(TaskSearch::on_saved, (m,), r),
    ensures
        takes(old(m)@, task, final(m)@, r@),
{
    assert(old(m)@.found.push(task).drop_last() =~= old(m)@.found);
}

} // verus!
