//! The check that comes before tasks are made from a container of dependencies.
use crate::deps::{Deps, MissingDep};
use crate::error::{BuildError, BuildErrors, Fault};
use crate::registry::TaskRegistry;
use crate::text;
use vstd::prelude::*;

verus! {

/// A task that is made from dependencies.
pub struct InjectedTask {
    /// Task id.
    pub task_id: String,
    /// The names of the types of its dependencies, in the order of its parameters.
    pub needs: Vec<String>,
}

/// The contents of an [`InjectedTask`].
pub struct Injected {
    pub task_id: Seq<char>,
    pub needs: Seq<Seq<char>>,
}

impl View for InjectedTask {
    type V = Injected;

    open spec fn view(&self) -> Injected {
        Injected { task_id: self.task_id@, needs: text::texts(self.needs@) }
    }
}

/// The contents of a list of tasks.
pub open spec fn injected(v: Seq<InjectedTask>) -> Seq<Injected> {
    Seq::new(v.len(), |i: int| v[i]@)
}

/// Those of the first `k` types that a container lacks, in order.
pub open spec fn missing(needs: Seq<Seq<char>>, held: Set<Seq<char>>, k: nat) -> Seq<Seq<char>>
    decreases k,
{
    if k == 0 || k > needs.len() {
        seq![]
    } else if held.contains(needs[k - 1]) {
        missing(needs, held, (k - 1) as nat)
    } else {
        missing(needs, held, (k - 1) as nat).push(needs[k - 1])
    }
}

/// An error for each of the first `k` types.
pub open spec fn missing_faults(task_id: Seq<char>, types: Seq<Seq<char>>, k: nat) -> Seq<Fault> {
    Seq::new(k, |i: int| Fault::MissingDep { task_id, dep_type: types[i] })
}

/// The errors of one task: one for each type that the container lacks, then one where the
/// registry already holds the task.
pub open spec fn task_faults(
    t: Injected,
    held: Set<Seq<char>>,
    registered: Set<Seq<char>>,
) -> Seq<Fault> {
    let types = missing(t.needs, held, t.needs.len());
    let lacking = missing_faults(t.task_id, types, types.len());
    if registered.contains(t.task_id) {
        lacking.push(Fault::RegistryDepsConflict { task_id: t.task_id })
    } else {
        lacking
    }
}

/// The errors of the first `k` tasks.
pub open spec fn all_faults(
    tasks: Seq<Injected>,
    held: Set<Seq<char>>,
    registered: Set<Seq<char>>,
    k: nat,
) -> Seq<Fault>
    decreases k,
{
    if k == 0 || k > tasks.len() {
        seq![]
    } else {
        all_faults(tasks, held, registered, (k - 1) as nat) + task_faults(
            tasks[k - 1],
            held,
            registered,
        )
    }
}

/// The contents of a list of missing dependencies.
pub open spec fn missing_types(v: Seq<MissingDep>) -> Seq<Seq<char>> {
    Seq::new(v.len(), |i: int| v[i].dep_type@)
}

impl InjectedTask {
    /// The dependencies of the task that the container lacks, in the order of its
    /// parameters.
    pub fn verify_deps<V>(&self, deps: &Deps<V>) -> (r: Vec<MissingDep>)
        ensures
            missing_types(r@) == missing(self@.needs, deps.map@.dom(), self@.needs.len()),
    {
        let mut out: Vec<MissingDep> = Vec::new();
        let mut i: usize = 0;
        proof {
            assert(missing_types(out@) =~= seq![]);
        }
        while i < self.needs.len()
            invariant
                i <= self.needs@.len(),
                missing_types(out@) == missing(self@.needs, deps.map@.dom(), i as nat),
            decreases self.needs@.len() - i,
        {
            if !deps.contains(self.needs[i].as_str()) {
                let ghost before = missing_types(out@);
                out.push(MissingDep::of(self.needs[i].as_str()));
                proof {
                    assert(missing_types(out@) =~= before.push(self@.needs[i as int]));
                }
            }
            i = i + 1;
        }
        out
    }
}

/// Check that tasks can be made from the dependencies in a container, and that a registry
/// does not hold them already.
pub fn check_deps<V>(deps: &Deps<V>, registry: &TaskRegistry, tasks: &Vec<InjectedTask>) -> (r:
    Result<(), BuildErrors>)
    ensures
        ({
            let found = all_faults(
                injected(tasks@),
                deps.map@.dom(),
                registry.handles().dom(),
                tasks@.len(),
            );
            if found.len() == 0 {
                r is Ok
            } else {
                r is Err && r->Err_0@ == found
            }
        }),
{
    let ghost all = injected(tasks@);
    let ghost held = deps.map@.dom();
    let ghost registered = registry.handles().dom();
    let mut errors = BuildErrors::new();
    let mut i: usize = 0;
    while i < tasks.len()
        invariant
            i <= tasks@.len(),
            all == injected(tasks@),
            held == deps.map@.dom(),
            registered == registry.handles().dom(),
            errors@ == all_faults(all, held, registered, i as nat),
        decreases tasks@.len() - i,
    {
        let task = &tasks[i];
        let ghost before = errors@;
        let lacking = task.verify_deps(deps);
        let ghost types = missing_types(lacking@);
        let mut j: usize = 0;
        proof {
            assert(before + missing_faults(task.task_id@, types, 0) =~= before);
        }
        while j < lacking.len()
            invariant
                j <= lacking@.len(),
                types == missing_types(lacking@),
                errors@ == before + missing_faults(task.task_id@, types, j as nat),
            decreases lacking@.len() - j,
        {
            errors.push(
                BuildError::MissingDep {
                    task_id: task.task_id.clone(),
                    dep_type: lacking[j].dep_type.clone(),
                },
            );
            proof {
                assert(before + missing_faults(task.task_id@, types, (j + 1) as nat) =~= (before
                    + missing_faults(task.task_id@, types, j as nat)).push(
                    Fault::MissingDep { task_id: task.task_id@, dep_type: types[j as int] },
                ));
            }
            j = j + 1;
        }
        if registry.contains(task.task_id.as_str()) {
            errors.push(BuildError::RegistryDepsConflict { task_id: task.task_id.clone() });
        }
        proof {
            assert(errors@ =~= before + task_faults(all[i as int], held, registered));
        }
        i = i + 1;
    }
    if errors.is_empty() {
        Ok(())
    } else {
        Err(errors)
    }
}

proof fn lemma_none_missing(needs: Seq<Seq<char>>, held: Set<Seq<char>>, k: nat)
    requires
        k <= needs.len(),
        missing(needs, held, k).len() == 0,
    ensures
        forall|i: int| 0 <= i < k ==> held.contains(#[trigger] needs[i]),
    decreases k,
{
    if k > 0 {
        lemma_none_missing(needs, held, (k - 1) as nat);
    }
}

/// When the check finds nothing, every dependency of every task is in the container, and
/// none of the tasks is in the registry.
pub proof fn law_checked_tasks_can_be_made(
    tasks: Seq<Injected>,
    held: Set<Seq<char>>,
    registered: Set<Seq<char>>,
    k: nat,
)
    requires
        k <= tasks.len(),
        all_faults(tasks, held, registered, k).len() == 0,
    ensures
        forall|i: int, j: int|
            #![trigger tasks[i].needs[j]]
            0 <= i < k && 0 <= j < tasks[i].needs.len() ==> held.contains(tasks[i].needs[j]),
        forall|i: int| 0 <= i < k ==> !registered.contains((#[trigger] tasks[i]).task_id),
    decreases k,
{
    if k > 0 {
        law_checked_tasks_can_be_made(tasks, held, registered, (k - 1) as nat);
        let t = tasks[k - 1];
        assert(task_faults(t, held, registered).len() == 0);
        lemma_none_missing(t.needs, held, t.needs.len());
    }
}

} // verus!
