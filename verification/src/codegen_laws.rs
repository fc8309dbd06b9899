//! What is generated for a workflow: when it can be, what is registered and what is checked.
use crate::macro_laws;
use crate::route_builder;
use crate::text;
use crate::workflow_codegen;
use crate::workflow_codegen::{
    collect_branch_task_ids, gen_step_chain, generate, infer_branch_output_type, Call, CallSpec,
    ChainFault, CheckSpec, GeneratedWorkflow,
};
use crate::workflow_macro;
use crate::workflow_macro::{ArmKey, BranchArmKey, PipeStep, WorkflowStep};
use vstd::prelude::*;

verus! {

/// An arm is a list of tasks, of one at least.
pub open spec fn plain_arm(steps: Seq<PipeStep>) -> bool {
    steps.len() > 0 && forall|j: int|
        #![trigger steps[j]]
        0 <= j < steps.len() ==> steps[j] is TaskRef
}

/// The `i`-th step of a pipeline can be built: a fork has branches, all of them tasks, and a
/// task after it that joins them, and a route has arms of tasks.
pub open spec fn fits(steps: Seq<PipeStep>, i: int) -> bool {
    match steps[i] {
        PipeStep::Parallel { branches, .. } => plain_arm(branches) && i + 1 < steps.len()
            && steps[i + 1] is TaskRef,
        PipeStep::Route { branches, default, .. } => branches.len() > 0 && (forall|j: int|
            #![trigger branches[j]]
            0 <= j < branches.len() ==> plain_arm(branches[j].1)) && (default is Some ==> plain_arm(
            default->0,
        )),
        _ => true,
    }
}

/// A step is at fault, for this reason and at this place.
pub open spec fn at_fault(steps: Seq<PipeStep>, i: int, f: ChainFault) -> bool {
    match f {
        ChainFault::NoBranches(s) => steps[i] is Parallel && steps[i]->Parallel_branches.len() == 0
            && workflow_macro::span_of(steps[i]) == s,
        ChainFault::NoJoin(s) => steps[i] is Parallel && i + 1 == steps.len()
            && workflow_macro::span_of(steps[i]) == s,
        ChainFault::InlineBranch(s) => steps[i] is Parallel && exists|j: int|
            0 <= j < steps[i]->Parallel_branches.len()
                && #[trigger] steps[i]->Parallel_branches[j] is InlineTask
                && workflow_macro::span_of(steps[i]->Parallel_branches[j]) == s,
        ChainFault::BadBranch(s) => steps[i] is Parallel && exists|j: int|
            0 <= j < steps[i]->Parallel_branches.len() && !(
            #[trigger] steps[i]->Parallel_branches[j] is TaskRef)
                && !(steps[i]->Parallel_branches[j] is InlineTask) && workflow_macro::span_of(
                steps[i]->Parallel_branches[j],
            ) == s,
        ChainFault::BadJoin(s) => steps[i] is Parallel && i + 1 < steps.len()
            && !(steps[i + 1] is TaskRef) && workflow_macro::span_of(steps[i + 1]) == s,
        ChainFault::BadArmStep(s) | ChainFault::EmptyArm(s) => steps[i] is Route && (exists|j: int|
            0 <= j < steps[i]->Route_branches.len() && !plain_arm(
                (#[trigger] steps[i]->Route_branches[j]).1,
            ) || steps[i]->Route_default is Some && !plain_arm(steps[i]->Route_default->0))
            && workflow_macro::span_of(steps[i]) == s,
        ChainFault::NoArms(s) => steps[i] is Route && steps[i]->Route_branches.len() == 0
            && workflow_macro::span_of(steps[i]) == s,
        ChainFault::EmptyFirstArm(s) => steps[i] is Route && steps[i]->Route_branches.len() > 0
            && steps[i]->Route_branches[0].1.len() == 0 && workflow_macro::span_of(steps[i]) == s,
        ChainFault::NoOutput(s) => steps[i] is Route && steps[i]->Route_branches.len() > 0
            && steps[i]->Route_branches[0].1.len() > 0 && !(
        steps[i]->Route_branches[0].1.last() is TaskRef) && workflow_macro::span_of(steps[i]) == s,
    }
}

proof fn lemma_plain_prefix(steps: Seq<PipeStep>, k: nat)
    requires
        k <= steps.len(),
    ensures
        workflow_codegen::arm_prefix(steps, k) is Some <==> forall|j: int|
            #![trigger steps[j]]
            0 <= j < k ==> steps[j] is TaskRef,
        workflow_codegen::arm_prefix(steps, k) is Some ==> workflow_codegen::arm_prefix(
            steps,
            k,
        )->0.len() == k,
    decreases k,
{
    if k > 0 {
        lemma_plain_prefix(steps, (k - 1) as nat);
        let _ = steps[k - 1];
    }
}

proof fn lemma_plain_arm(steps: Seq<PipeStep>, span: usize)
    ensures
        workflow_codegen::arm_tasks(steps, span) is Ok <==> plain_arm(steps),
        workflow_codegen::arm_tasks(steps, span) matches Err(f) ==> f == ChainFault::BadArmStep(
            span,
        ) || f == ChainFault::EmptyArm(span),
{
    lemma_plain_prefix(steps, steps.len());
}

proof fn lemma_fork_fits(steps: Seq<PipeStep>, i: int, k: nat)
    requires
        steps[i] is Parallel,
        k <= steps[i]->Parallel_branches.len(),
    ensures
        ({
            let b = steps[i]->Parallel_branches;
            let r = workflow_codegen::fork_calls(b, k);
            (r is Ok <==> forall|j: int| #![trigger b[j]] 0 <= j < k ==> b[j] is TaskRef) && (r
                is Err ==> at_fault(steps, i, r->Err_0))
        }),
    decreases k,
{
    if k > 0 {
        lemma_fork_fits(steps, i, (k - 1) as nat);
        let b = steps[i]->Parallel_branches;
        let _ = b[k - 1];
    }
}

proof fn lemma_arms_fit(steps: Seq<PipeStep>, i: int, head: Seq<CallSpec>, k: nat)
    requires
        steps[i] is Route,
        k <= steps[i]->Route_branches.len(),
    ensures
        ({
            let b = steps[i]->Route_branches;
            let r = workflow_codegen::arm_calls(
                head,
                b,
                steps[i]->key_type,
                workflow_macro::span_of(steps[i]),
                k,
            );
            (r is Ok <==> forall|j: int| #![trigger b[j]] 0 <= j < k ==> plain_arm(b[j].1)) && (r
                is Err ==> at_fault(steps, i, r->Err_0))
        }),
    decreases k,
{
    if k > 0 {
        lemma_arms_fit(steps, i, head, (k - 1) as nat);
        let b = steps[i]->Route_branches;
        lemma_plain_arm(b[k - 1].1, workflow_macro::span_of(steps[i]));
    }
}

proof fn lemma_step_fits(steps: Seq<PipeStep>, i: int)
    requires
        0 <= i < steps.len(),
    ensures
        workflow_codegen::step_calls(steps, i) is Ok <==> fits(steps, i),
        workflow_codegen::step_calls(steps, i) is Err ==> at_fault(
            steps,
            i,
            workflow_codegen::step_calls(steps, i)->Err_0,
        ),
{
    match steps[i] {
        PipeStep::Parallel { branches, .. } => {
            lemma_fork_fits(steps, i, branches.len());
        },
        PipeStep::Route { id, branches, default, span, .. } => {
            let t = workflow_codegen::output_task(branches, span);
            if branches.len() > 0 {
                let _ = branches[0];
                let a = branches[0].1;
                if a.len() > 0 {
                    let _ = a[a.len() - 1];
                }
            }
            if t is Ok {
                let head = seq![CallSpec::Route { id, output_of: t->Ok_0 }];
                lemma_arms_fit(steps, i, head, branches.len());
                if let Some(d) = default {
                    lemma_plain_arm(d, span);
                    let _ = branches[0];
                }
            }
        },
        _ => {},
    }
}

proof fn lemma_pipeline_fits(steps: Seq<PipeStep>, i: nat)
    ensures
        workflow_codegen::chain_calls(steps, i) is Ok <==> forall|k: int|
            i <= k < steps.len() ==> #[trigger] fits(steps, k),
        workflow_codegen::chain_calls(steps, i) is Err ==> exists|k: int|
            i <= k < steps.len() && #[trigger] at_fault(
                steps,
                k,
                workflow_codegen::chain_calls(steps, i)->Err_0,
            ),
    decreases steps.len() + 2 - i,
{
    if i < steps.len() {
        lemma_step_fits(steps, i as int);
        let next = if steps[i as int] is Parallel {
            i + 2
        } else {
            i + 1
        };
        lemma_pipeline_fits(steps, next);
        if workflow_codegen::step_calls(steps, i as int) is Ok {
            if workflow_codegen::chain_calls(steps, next) is Ok {
                assert forall|k: int| i <= k < steps.len() implies #[trigger] fits(steps, k) by {
                    if k == i + 1 && next == i + 2 {
                        assert(steps[k] is TaskRef);
                    }
                }
            } else {
                let f = workflow_codegen::chain_calls(steps, next)->Err_0;
                let k = choose|k: int|
                    next <= k < steps.len() && #[trigger] at_fault(steps, k, f);
                assert(i <= k < steps.len() && at_fault(steps, k, f));
            }
        } else {
            assert(!fits(steps, i as int));
        }
    }
}

/// A pipeline can be built exactly if each of its steps can: every fork has branches that are
/// tasks and a task after it that joins them, and every route has arms that are tasks. An
/// error names a step that is at fault, for the reason that it gives.
pub proof fn law_pipeline_is_built_iff_its_steps_fit(
    steps: &Vec<WorkflowStep>,
    r: Result<Vec<Call>, ChainFault>,
    g: Result<GeneratedWorkflow, ChainFault>,
)
    requires
        call_ensures(gen_step_chain, (steps,), r),
        call_ensures(generate, (steps,), g),
    ensures
        r is Ok <==> forall|k: int|
            0 <= k < steps@.len() ==> #[trigger] fits(workflow_macro::pipe(steps@), k),
        r is Err ==> exists|k: int|
            0 <= k < steps@.len() && #[trigger] at_fault(
                workflow_macro::pipe(steps@),
                k,
                r->Err_0,
            ),
        g is Ok <==> r is Ok,
        g is Err ==> g->Err_0 == r->Err_0,
        g is Ok ==> workflow_codegen::calls(g->Ok_0.calls@) == workflow_codegen::calls(
            r->Ok_0@,
        ),
{
    lemma_pipeline_fits(workflow_macro::pipe(steps@), 0);
}

/// A call names a task.
pub open spec fn names(c: CallSpec, task: Seq<char>) -> bool {
    match c {
        CallSpec::ForkBranch(t) => t == task,
        CallSpec::Join(t) => t == task,
        CallSpec::ThenRegistered(t) => t == task,
        CallSpec::Loop { body, .. } => body == task,
        CallSpec::Route { output_of, .. } => output_of == task,
        CallSpec::Arm { tasks, .. } => tasks.contains(task),
        CallSpec::DefaultArm(tasks) => tasks.contains(task),
        _ => false,
    }
}

proof fn lemma_contains<A>(a: Seq<A>, b: Seq<A>, x: A)
    ensures
        (a + b).contains(x) <==> a.contains(x) || b.contains(x),
{
    if a.contains(x) {
        assert((a + b)[a.index_of(x)] == x);
    }
    if b.contains(x) {
        assert((a + b)[a.len() + b.index_of(x)] == x);
    }
}

/// Some of the calls from the `i`-th step on names a task.
spec fn called(steps: Seq<PipeStep>, i: nat, task: Seq<char>) -> bool {
    let c = workflow_codegen::chain_calls(steps, i)->Ok_0;
    exists|k: int| 0 <= k < c.len() && names(#[trigger] c[k], task)
}

/// Some step from the `i`-th on uses a task, other than as a key function.
spec fn used(steps: Seq<PipeStep>, i: int, task: Seq<char>) -> bool {
    exists|j: int| i <= j < steps.len() && #[trigger] uses(steps[j], task)
}

/// A step uses a task, other than as a key function.
pub open spec fn uses(s: PipeStep, task: Seq<char>) -> bool {
    match s {
        PipeStep::TaskRef { struct_name, .. } => struct_name == task,
        PipeStep::Loop { body, .. } => body == task,
        PipeStep::Parallel { branches, .. } => lists(branches, task),
        PipeStep::Route { branches, default, .. } => (exists|j: int|
            0 <= j < branches.len() && lists((#[trigger] branches[j]).1, task)) || (default is Some
            && lists(default->0, task)),
        _ => false,
    }
}

/// A task is one of these.
pub open spec fn lists(steps: Seq<PipeStep>, task: Seq<char>) -> bool {
    exists|j: int|
        0 <= j < steps.len() && #[trigger] steps[j] is TaskRef && steps[j]->TaskRef_struct_name
            == task
}

proof fn lemma_lists(steps: Seq<PipeStep>, tasks: Seq<Seq<char>>, task: Seq<char>)
    requires
        macro_laws::names_tasks(steps, tasks),
    ensures
        lists(steps, task) <==> tasks.contains(task),
{
    if tasks.contains(task) {
        let j = tasks.index_of(task);
        assert(steps[j] is TaskRef && steps[j]->TaskRef_struct_name == task);
    }
    if lists(steps, task) {
        let j = choose|j: int|
            0 <= j < steps.len() && #[trigger] steps[j] is TaskRef
                && steps[j]->TaskRef_struct_name == task;
        assert(tasks[j] == task);
    }
}

/// How many calls the `i`-th step is.
spec fn head_len(s: PipeStep) -> int {
    match s {
        PipeStep::Parallel { branches, .. } => branches.len() as int + 2,
        PipeStep::Route { branches, default, .. } => branches.len() + 2 + (if default is Some {
            1int
        } else {
            0
        }),
        _ => 1,
    }
}

/// The first calls name the tasks that the first step uses, and the task that joins.
proof fn lemma_head_names(steps: Seq<PipeStep>, i: nat, task: Seq<char>)
    requires
        i < steps.len(),
        workflow_codegen::chain_calls(steps, i) is Ok,
    ensures
        ({
            let s = steps[i as int];
            let c = workflow_codegen::chain_calls(steps, i)->Ok_0;
            &&& head_len(s) <= c.len()
            &&& (exists|k: int| 0 <= k < head_len(s) && names(#[trigger] c[k], task)) <==> uses(
                s,
                task,
            ) || (s is Parallel && uses(steps[(i + 1) as int], task))
        }),
{
    let s = steps[i as int];
    let c = workflow_codegen::chain_calls(steps, i)->Ok_0;
    macro_laws::law_calls_keep_what_was_written(steps, i);
    match s {
        PipeStep::Parallel { branches, .. } => {
            let n = branches.len() as int;
            if exists|k: int| 0 <= k < head_len(s) && names(#[trigger] c[k], task) {
                let k = choose|k: int| 0 <= k < head_len(s) && names(#[trigger] c[k], task);
                if 0 < k <= n {
                    assert(branches[k - 1] is TaskRef);
                }
            }
            if lists(branches, task) {
                let j = choose|j: int|
                    0 <= j < branches.len() && #[trigger] branches[j] is TaskRef
                        && branches[j]->TaskRef_struct_name == task;
                assert(names(c[j + 1], task));
            }
            assert(names(c[n + 1], task) <==> uses(steps[(i + 1) as int], task));
        },
        PipeStep::Route { branches, default, .. } => {
            let n = branches.len() as int;
            let last = branches[0].1.last();
            let w = branches[0].1.len() - 1;
            assert(macro_laws::is_arm(c[1], branches[0].0, s->key_type, branches[0].1));
            assert(branches[0].1[w] == last);
            assert forall|j: int| 0 <= j < n implies (names(#[trigger] c[j + 1], task) <==> lists(
                branches[j].1,
                task,
            )) by {
                assert(macro_laws::is_arm(c[j + 1], branches[j].0, s->key_type, branches[j].1));
                lemma_lists(branches[j].1, c[j + 1]->Arm_tasks, task);
            }
            if default is Some {
                lemma_lists(default->0, c[n + 1]->DefaultArm_0, task);
                assert(names(c[n + 1], task) <==> lists(default->0, task));
            }
            if exists|k: int| 0 <= k < head_len(s) && names(#[trigger] c[k], task) {
                let k = choose|k: int| 0 <= k < head_len(s) && names(#[trigger] c[k], task);
                if k == 0 {
                    assert(lists(branches[0].1, task));
                } else if k <= n {
                    assert(names(c[(k - 1) + 1], task));
                    assert(lists(branches[k - 1].1, task));
                }
            }
            if exists|j: int| 0 <= j < branches.len() && lists((#[trigger] branches[j]).1, task) {
                let j = choose|j: int|
                    0 <= j < branches.len() && lists((#[trigger] branches[j]).1, task);
                assert(names(c[j + 1], task));
            }
        },
        _ => {
            assert(names(c[0], task) <==> uses(s, task));
        },
    }
}

proof fn lemma_called_iff_used(steps: Seq<PipeStep>, i: nat, task: Seq<char>)
    requires
        i <= steps.len(),
        workflow_codegen::chain_calls(steps, i) is Ok,
    ensures
        called(steps, i, task) <==> used(steps, i as int, task),
    decreases steps.len() - i,
{
    let c = workflow_codegen::chain_calls(steps, i)->Ok_0;
    if i < steps.len() {
        let s = steps[i as int];
        let h = head_len(s);
        macro_laws::law_calls_keep_what_was_written(steps, i);
        lemma_head_names(steps, i, task);
        let next = if s is Parallel {
            i + 2
        } else {
            i + 1
        };
        let rest = workflow_codegen::chain_calls(steps, next)->Ok_0;
        assert(rest == c.skip(h));
        lemma_called_iff_used(steps, next, task);
        if called(steps, i, task) {
            let k = choose|k: int| 0 <= k < c.len() && names(#[trigger] c[k], task);
            if k < h {
                if !uses(s, task) {
                    assert(uses(steps[(i + 1) as int], task));
                }
            } else {
                assert(names(rest[k - h], task));
                let j = choose|j: int| next <= j < steps.len() && #[trigger] uses(steps[j], task);
                assert(uses(steps[j], task));
            }
        }
        if used(steps, i as int, task) {
            let j = choose|j: int| i <= j < steps.len() && #[trigger] uses(steps[j], task);
            if j >= next {
                assert(called(steps, next, task));
                let k = choose|k: int| 0 <= k < rest.len() && names(#[trigger] rest[k], task);
                assert(names(c[h + k], task));
            } else {
                assert(j == i || (s is Parallel && j == i + 1));
                let k = choose|k: int| 0 <= k < h && names(#[trigger] c[k], task);
                assert(names(c[k], task));
            }
        }
    }
}

/// The calls name exactly the tasks that the steps use: those that stand by themselves, the
/// branches and joins of forks, the bodies of loops and the tasks of the arms of routes.
pub proof fn law_calls_name_the_tasks_used(
    steps: &Vec<WorkflowStep>,
    r: Result<Vec<Call>, ChainFault>,
    task: Seq<char>,
)
    requires
        call_ensures(gen_step_chain, (steps,), r),
        r is Ok,
    ensures
        (exists|k: int| 0 <= k < r->Ok_0@.len() && names((#[trigger] r->Ok_0@[k])@, task)) <==> (
        exists|j: int|
            0 <= j < steps@.len() && uses(#[trigger] workflow_macro::pipe(steps@)[j], task)),
{
    let p = workflow_macro::pipe(steps@);
    let c = workflow_codegen::calls(r->Ok_0@);
    lemma_called_iff_used(p, 0, task);
    if called(p, 0, task) {
        let k = choose|k: int| 0 <= k < c.len() && names(#[trigger] c[k], task);
        assert(names(r->Ok_0@[k]@, task));
        let j = choose|j: int| 0 <= j < p.len() && #[trigger] uses(p[j], task);
        assert(uses(p[j], task));
    }
    if exists|k: int| 0 <= k < r->Ok_0@.len() && names((#[trigger] r->Ok_0@[k])@, task) {
        let k = choose|k: int|
            0 <= k < r->Ok_0@.len() && names((#[trigger] r->Ok_0@[k])@, task);
        assert(names(c[k], task));
    }
    if exists|j: int| 0 <= j < p.len() && uses(#[trigger] p[j], task) {
        let j = choose|j: int| 0 <= j < p.len() && uses(#[trigger] p[j], task);
        assert(uses(p[j], task));
        assert(called(p, 0, task));
    }
}

/// What the steps before the `k`-th use is what each of them uses.
proof fn lemma_refs(steps: Seq<PipeStep>, k: nat, task: Seq<char>)
    requires
        k <= steps.len(),
    ensures
        workflow_macro::task_refs(steps, k).contains(task) <==> exists|j: int|
            0 <= j < k && #[trigger] workflow_macro::refs_of(steps[j]).contains(task),
    decreases k,
{
    if k > 0 {
        lemma_refs(steps, (k - 1) as nat, task);
        let a = workflow_macro::task_refs(steps, (k - 1) as nat);
        let b = workflow_macro::refs_of(steps[k - 1]);
        lemma_contains(a, b, task);
        if a.contains(task) {
            let j = choose|j: int|
                0 <= j < k - 1 && #[trigger] workflow_macro::refs_of(steps[j]).contains(task);
            assert(workflow_macro::refs_of(steps[j]).contains(task));
        }
    }
}

/// A list of tasks uses just those.
proof fn lemma_plain_refs(steps: Seq<PipeStep>, task: Seq<char>)
    requires
        forall|j: int| #![trigger steps[j]] 0 <= j < steps.len() ==> steps[j] is TaskRef,
    ensures
        workflow_macro::task_refs(steps, steps.len()).contains(task) <==> exists|j: int|
            0 <= j < steps.len() && (#[trigger] steps[j])->TaskRef_struct_name == task,
{
    lemma_refs(steps, steps.len(), task);
    assert forall|j: int| 0 <= j < steps.len() implies (#[trigger] workflow_macro::refs_of(
        steps[j],
    ).contains(task) <==> steps[j]->TaskRef_struct_name == task) by {
        assert(steps[j] is TaskRef);
        assert(workflow_macro::refs_of(steps[j]) == seq![steps[j]->TaskRef_struct_name]);
        assert(workflow_macro::refs_of(steps[j])[0] == steps[j]->TaskRef_struct_name);
    }
    if exists|j: int|
        0 <= j < steps.len() && (#[trigger] steps[j])->TaskRef_struct_name == task {
        let j = choose|j: int|
            0 <= j < steps.len() && (#[trigger] steps[j])->TaskRef_struct_name == task;
        assert(workflow_macro::refs_of(steps[j]).contains(task));
    }
}

/// The tasks of arms are those of each of them.
proof fn lemma_arm_refs(arms: Seq<(ArmKey, Seq<PipeStep>)>, k: nat, task: Seq<char>)
    requires
        k <= arms.len(),
    ensures
        workflow_macro::arm_refs(arms, k).contains(task) <==> exists|j: int|
            0 <= j < k && #[trigger] workflow_macro::task_refs(
                arms[j].1,
                arms[j].1.len(),
            ).contains(task),
    decreases k,
{
    if k > 0 {
        lemma_arm_refs(arms, (k - 1) as nat, task);
        let a = workflow_macro::arm_refs(arms, (k - 1) as nat);
        let b = workflow_macro::task_refs(arms[k - 1].1, arms[k - 1].1.len());
        lemma_contains(a, b, task);
        if a.contains(task) {
            let j = choose|j: int|
                0 <= j < k - 1 && #[trigger] workflow_macro::task_refs(
                    arms[j].1,
                    arms[j].1.len(),
                ).contains(task);
            assert(workflow_macro::task_refs(arms[j].1, arms[j].1.len()).contains(task));
        }
    }
}

/// A list of tasks uses the tasks that it lists.
proof fn lemma_lists_refs(steps: Seq<PipeStep>, task: Seq<char>)
    requires
        plain_arm(steps),
    ensures
        workflow_macro::task_refs(steps, steps.len()).contains(task) <==> lists(steps, task),
{
    lemma_plain_refs(steps, task);
    if lists(steps, task) {
        let j = choose|j: int|
            0 <= j < steps.len() && #[trigger] steps[j] is TaskRef
                && steps[j]->TaskRef_struct_name == task;
        assert(steps[j]->TaskRef_struct_name == task);
    }
    if workflow_macro::task_refs(steps, steps.len()).contains(task) {
        let j = choose|j: int|
            0 <= j < steps.len() && (#[trigger] steps[j])->TaskRef_struct_name == task;
        assert(steps[j] is TaskRef);
    }
}

/// A step needs a task: it uses it, or calls it to choose an arm.
pub open spec fn needs(s: PipeStep, task: Seq<char>) -> bool {
    uses(s, task) || (s is Route && s->key_fn == task)
}

proof fn lemma_step_refs(steps: Seq<PipeStep>, i: int, task: Seq<char>)
    requires
        0 <= i < steps.len(),
        fits(steps, i),
    ensures
        workflow_macro::refs_of(steps[i]).contains(task) <==> needs(steps[i], task),
{
    let s = steps[i];
    let refs = workflow_macro::refs_of(s);
    match s {
        PipeStep::TaskRef { struct_name, .. } => {
            assert(refs[0] == struct_name);
        },
        PipeStep::Loop { body, .. } => {
            assert(refs[0] == body);
        },
        PipeStep::Parallel { branches, .. } => {
            lemma_lists_refs(branches, task);
        },
        PipeStep::Route { key_fn, branches, default, .. } => {
            let a = seq![key_fn];
            let b = workflow_macro::arm_refs(branches, branches.len());
            let d = match default {
                Some(d) => workflow_macro::task_refs(d, d.len()),
                None => seq![],
            };
            assert(refs == a + b + d);
            lemma_contains(a + b, d, task);
            lemma_contains(a, b, task);
            assert(a[0] == key_fn);
            lemma_arm_refs(branches, branches.len(), task);
            assert forall|j: int| 0 <= j < branches.len() implies (lists(
                (#[trigger] branches[j]).1,
                task,
            ) <==> workflow_macro::task_refs(branches[j].1, branches[j].1.len()).contains(
                task,
            )) by {
                lemma_lists_refs(branches[j].1, task);
            }
            if let Some(x) = default {
                lemma_lists_refs(x, task);
            }
            if b.contains(task) {
                let j = choose|j: int|
                    0 <= j < branches.len() && #[trigger] workflow_macro::task_refs(
                        branches[j].1,
                        branches[j].1.len(),
                    ).contains(task);
                assert(lists(branches[j].1, task));
            }
            if exists|j: int| 0 <= j < branches.len() && lists((#[trigger] branches[j]).1, task) {
                let j = choose|j: int|
                    0 <= j < branches.len() && lists((#[trigger] branches[j]).1, task);
                assert(workflow_macro::task_refs(branches[j].1, branches[j].1.len()).contains(
                    task,
                ));
            }
        },
        _ => {},
    }
}

proof fn lemma_lacking(s: Seq<Seq<char>>, k: nat)
    requires
        k <= s.len(),
    ensures
        route_builder::lacking(s, seq![], k).no_duplicates(),
        forall|x: Seq<char>|
            #![trigger route_builder::lacking(s, seq![], k).contains(x)]
            route_builder::lacking(s, seq![], k).contains(x) <==> s.take(k as int).contains(x),
    decreases k,
{
    let l = route_builder::lacking(s, seq![], k);
    if k > 0 {
        lemma_lacking(s, (k - 1) as nat);
        let p = route_builder::lacking(s, seq![], (k - 1) as nat);
        assert(s.take(k as int) =~= s.take(k - 1) + seq![s[k - 1]]);
        assert forall|x: Seq<char>| #![trigger l.contains(x)] l.contains(x) <==> s.take(
            k as int,
        ).contains(x) by {
            lemma_contains(s.take(k - 1), seq![s[k - 1]], x);
            lemma_contains(p, seq![s[k - 1]], x);
            assert(p.push(s[k - 1]) =~= p + seq![s[k - 1]]);
            assert(p.contains(x) <==> s.take(k - 1).contains(x));
            assert(seq![s[k - 1]].contains(x) <==> x == s[k - 1]) by {
                assert(seq![s[k - 1]][0] == s[k - 1]);
            }
        }
    }
}

/// Exactly the tasks that a pipeline needs are registered, and the dependencies of each of
/// them are checked, once.
pub proof fn law_needed_tasks_are_registered_and_checked(
    steps: &Vec<WorkflowStep>,
    g: Result<GeneratedWorkflow, ChainFault>,
    task: Seq<char>,
)
    requires
        call_ensures(generate, (steps,), g),
        g is Ok,
    ensures
        text::texts(g->Ok_0.registered@).contains(task) <==> exists|j: int|
            0 <= j < steps@.len() && needs(#[trigger] workflow_macro::pipe(steps@)[j], task),
        text::texts(g->Ok_0.checked@).contains(task) <==> text::texts(
            g->Ok_0.registered@,
        ).contains(task),
        text::texts(g->Ok_0.checked@).no_duplicates(),
{
    let p = workflow_macro::pipe(steps@);
    lemma_pipeline_fits(p, 0);
    lemma_refs(p, p.len(), task);
    assert forall|j: int| 0 <= j < p.len() implies (needs(#[trigger] p[j], task)
        <==> workflow_macro::refs_of(p[j]).contains(task)) by {
        assert(fits(p, j));
        lemma_step_refs(p, j, task);
    }
    let refs = workflow_macro::task_refs(p, p.len());
    if refs.contains(task) {
        let j = choose|j: int|
            0 <= j < p.len() && #[trigger] workflow_macro::refs_of(p[j]).contains(task);
        assert(needs(p[j], task));
    }
    if exists|j: int| 0 <= j < p.len() && needs(#[trigger] p[j], task) {
        let j = choose|j: int| 0 <= j < p.len() && needs(#[trigger] p[j], task);
        assert(workflow_macro::refs_of(p[j]).contains(task));
    }
    let al = workflow_macro::route_aliases(p, p.len());
    let f = workflow_codegen::firsts(al);
    let all = refs + f;
    lemma_lacking(all, all.len());
    assert(all.take(all.len() as int) =~= all);
    lemma_contains(refs, f, task);
    if f.contains(task) {
        let i = f.index_of(task);
        assert(al[i].0 == task);
        lemma_alias_comes_from(p, p.len(), i);
        let j = choose|j: int|
            0 <= j < p.len() && #[trigger] p[j] is Route && al[i] == (
                p[j]->key_fn,
                p[j]->Route_id + "::key_fn"@,
            );
        assert(needs(p[j], task));
    }
}

/// The routes of lists of tasks are none.
proof fn lemma_plain_aliases(steps: Seq<PipeStep>, k: nat)
    requires
        plain_arm(steps),
        k <= steps.len(),
    ensures
        workflow_macro::route_aliases(steps, k).len() == 0,
    decreases k,
{
    if k > 0 {
        lemma_plain_aliases(steps, (k - 1) as nat);
        assert(steps[k - 1] is TaskRef);
        assert(workflow_macro::aliases_of(steps[k - 1]).len() == 0);
        assert(workflow_macro::route_aliases(steps, k) == workflow_macro::route_aliases(
            steps,
            (k - 1) as nat,
        ) + workflow_macro::aliases_of(steps[k - 1]));
    }
}

proof fn lemma_arm_aliases(arms: Seq<(ArmKey, Seq<PipeStep>)>, k: nat)
    requires
        forall|j: int| #![trigger arms[j]] 0 <= j < arms.len() ==> plain_arm(arms[j].1),
        k <= arms.len(),
    ensures
        workflow_macro::arm_aliases(arms, k).len() == 0,
    decreases k,
{
    if k > 0 {
        lemma_arm_aliases(arms, (k - 1) as nat);
        lemma_plain_aliases(arms[k - 1].1, arms[k - 1].1.len());
    }
}

/// A route that fits has one alias.
proof fn lemma_aliases_of(steps: Seq<PipeStep>, i: int)
    requires
        0 <= i < steps.len(),
        fits(steps, i),
    ensures
        steps[i] is Route ==> workflow_macro::aliases_of(steps[i]) == seq![
            (steps[i]->key_fn, steps[i]->Route_id + "::key_fn"@),
        ],
        !(steps[i] is Route) ==> workflow_macro::aliases_of(steps[i]).len() == 0,
{
    if let PipeStep::Route { branches, default, .. } = steps[i] {
        lemma_arm_aliases(branches, branches.len());
        if let Some(d) = default {
            lemma_plain_aliases(d, d.len());
        }
        assert(workflow_macro::aliases_of(steps[i]) =~= seq![
            (steps[i]->key_fn, steps[i]->Route_id + "::key_fn"@),
        ]);
    }
}

proof fn lemma_alias_comes_from(steps: Seq<PipeStep>, k: nat, n: int)
    requires
        k <= steps.len(),
        forall|j: int| 0 <= j < steps.len() ==> #[trigger] fits(steps, j),
        0 <= n < workflow_macro::route_aliases(steps, k).len(),
    ensures
        exists|j: int|
            0 <= j < k && #[trigger] steps[j] is Route && workflow_macro::route_aliases(
                steps,
                k,
            )[n] == (steps[j]->key_fn, steps[j]->Route_id + "::key_fn"@),
    decreases k,
{
    if k > 0 {
        let p = workflow_macro::route_aliases(steps, (k - 1) as nat);
        assert(fits(steps, k - 1));
        lemma_aliases_of(steps, k - 1);
        if n < p.len() {
            lemma_alias_comes_from(steps, (k - 1) as nat, n);
            let j = choose|j: int|
                0 <= j < k - 1 && #[trigger] steps[j] is Route && p[n] == (
                    steps[j]->key_fn,
                    steps[j]->Route_id + "::key_fn"@,
                );
            assert(steps[j] is Route);
        } else {
            assert(steps[k - 1] is Route);
        }
    }
}

proof fn lemma_route_has_alias(steps: Seq<PipeStep>, k: nat, j: int)
    requires
        0 <= j < k <= steps.len(),
        forall|i: int| 0 <= i < steps.len() ==> #[trigger] fits(steps, i),
        steps[j] is Route,
    ensures
        workflow_macro::route_aliases(steps, k).contains(
            (steps[j]->key_fn, steps[j]->Route_id + "::key_fn"@),
        ),
    decreases k,
{
    let a = workflow_macro::route_aliases(steps, (k - 1) as nat);
    let b = workflow_macro::aliases_of(steps[k - 1]);
    let x = (steps[j]->key_fn, steps[j]->Route_id + "::key_fn"@);
    assert(fits(steps, k - 1));
    lemma_aliases_of(steps, k - 1);
    lemma_contains(a, b, x);
    if j < k - 1 {
        lemma_route_has_alias(steps, (k - 1) as nat, j);
    } else {
        assert(b[0] == x);
    }
}

/// The key function of every route is registered under the id that the route looks it up by,
/// which is made of its own, and nothing else is registered so.
pub proof fn law_key_functions_are_registered(
    steps: &Vec<WorkflowStep>,
    g: Result<GeneratedWorkflow, ChainFault>,
    alias: (Seq<char>, Seq<char>),
)
    requires
        call_ensures(generate, (steps,), g),
        g is Ok,
    ensures
        workflow_macro::name_pairs(g->Ok_0.aliases@).contains(alias) <==> exists|j: int|
            0 <= j < steps@.len() && #[trigger] workflow_macro::pipe(steps@)[j] is Route && alias
                == (
                workflow_macro::pipe(steps@)[j]->key_fn,
                workflow_macro::pipe(steps@)[j]->Route_id + "::key_fn"@,
            ),
{
    let p = workflow_macro::pipe(steps@);
    lemma_pipeline_fits(p, 0);
    let al = workflow_macro::route_aliases(p, p.len());
    if al.contains(alias) {
        lemma_alias_comes_from(p, p.len(), al.index_of(alias));
    }
    if exists|j: int|
        0 <= j < p.len() && #[trigger] p[j] is Route && alias == (
            p[j]->key_fn,
            p[j]->Route_id + "::key_fn"@,
        ) {
        let j = choose|j: int|
            0 <= j < p.len() && #[trigger] p[j] is Route && alias == (
                p[j]->key_fn,
                p[j]->Route_id + "::key_fn"@,
            );
        lemma_route_has_alias(p, p.len(), j);
    }
}

proof fn lemma_variants(arms: Seq<(ArmKey, Seq<PipeStep>)>, k: nat, v: Seq<char>)
    requires
        k <= arms.len(),
    ensures
        workflow_codegen::arm_variants(arms, k).contains(v) <==> exists|j: int|
            0 <= j < k && (#[trigger] arms[j]).0 == ArmKey::Variant(v),
    decreases k,
{
    if k > 0 {
        lemma_variants(arms, (k - 1) as nat, v);
        let p = workflow_codegen::arm_variants(arms, (k - 1) as nat);
        if let ArmKey::Variant(x) = arms[k - 1].0 {
            assert(p.push(x) =~= p + seq![x]);
            lemma_contains(p, seq![x], v);
            assert(seq![x][0] == x);
        }
        if p.contains(v) {
            let j = choose|j: int| 0 <= j < k - 1 && (#[trigger] arms[j]).0 == ArmKey::Variant(v);
            assert(arms[j].0 == ArmKey::Variant(v));
        }
    }
}

proof fn lemma_check_is_kept(steps: Seq<PipeStep>, k: nat, j: int, c: CheckSpec)
    requires
        0 <= j < k <= steps.len(),
        workflow_codegen::checks_of(steps[j]).contains(c),
    ensures
        workflow_codegen::pipe_checks(steps, k).contains(c),
    decreases k,
{
    let a = workflow_codegen::pipe_checks(steps, (k - 1) as nat);
    let b = workflow_codegen::checks_of(steps[k - 1]);
    lemma_contains(a, b, c);
    if j < k - 1 {
        lemma_check_is_kept(steps, (k - 1) as nat, j, c);
    }
}

/// The compiler checks every route with a key type that has variants for keys: that the
/// variants of its arms are all there are, unless it has a default arm.
pub proof fn law_typed_routes_are_checked(
    steps: &Vec<WorkflowStep>,
    g: Result<GeneratedWorkflow, ChainFault>,
    j: int,
    arm: int,
)
    requires
        call_ensures(generate, (steps,), g),
        g is Ok,
        0 <= j < steps@.len(),
        workflow_macro::pipe(steps@)[j] is Route,
        workflow_macro::pipe(steps@)[j]->key_type is Some,
        0 <= arm < workflow_macro::pipe(steps@)[j]->Route_branches.len(),
        workflow_macro::pipe(steps@)[j]->Route_branches[arm].0 is Variant,
    ensures
        exists|n: int|
            0 <= n < g->Ok_0.checks@.len() && checks_route(
                (#[trigger] g->Ok_0.checks@[n])@,
                workflow_macro::pipe(steps@)[j],
            ),
{
    let p = workflow_macro::pipe(steps@);
    let s = p[j];
    let arms = s->Route_branches;
    let v = arms[arm].0->Variant_0;
    lemma_variants(arms, arms.len(), v);
    assert(arms[arm].0 == ArmKey::Variant(v));
    let c = CheckSpec {
        key_type: s->key_type->0,
        variants: workflow_codegen::arm_variants(arms, arms.len()),
        wildcard: s->Route_default is Some,
    };
    let checks = workflow_codegen::checks_of(s);
    assert(checks[0] == c);
    lemma_check_is_kept(p, p.len(), j, c);
    let all = workflow_codegen::check_list(g->Ok_0.checks@);
    let n = all.index_of(c);
    assert(g->Ok_0.checks@[n]@ == c);
    assert forall|x: Seq<char>| #[trigger] c.variants.contains(x) <==> exists|a: int|
        0 <= a < arms.len() && (#[trigger] arms[a]).0 == ArmKey::Variant(x) by {
        lemma_variants(arms, arms.len(), x);
    }
    assert(checks_route(c, s));
}

/// A check is the one of a route: of its key type, with the variants of its arms, and with
/// whether it has a default.
pub open spec fn checks_route(c: CheckSpec, s: PipeStep) -> bool {
    &&& s->key_type == Some(c.key_type)
    &&& c.wildcard == (s->Route_default is Some)
    &&& forall|x: Seq<char>| #[trigger]
        c.variants.contains(x) <==> exists|a: int|
            0 <= a < s->Route_branches.len() && (#[trigger] s->Route_branches[a]).0
                == ArmKey::Variant(x)
}

proof fn lemma_prefix_names(steps: Seq<PipeStep>, k: nat)
    requires
        k <= steps.len(),
    ensures
        workflow_codegen::arm_prefix(steps, k) matches Some(p) ==> p.len() == k && forall|j: int|
            #![trigger steps[j]]
            0 <= j < k ==> steps[j] is TaskRef && p[j] == steps[j]->TaskRef_struct_name,
    decreases k,
{
    if k > 0 {
        lemma_prefix_names(steps, (k - 1) as nat);
    }
}

/// The tasks of an arm are those that it lists, in their order, and its output is that of the
/// last task of the first arm.
pub proof fn law_arm_has_its_tasks(
    steps: &Vec<WorkflowStep>,
    span: usize,
    r: Result<Vec<String>, ChainFault>,
    arms: &Vec<(BranchArmKey, Vec<WorkflowStep>)>,
    o: Result<String, ChainFault>,
)
    requires
        call_ensures(collect_branch_task_ids, (steps, span), r),
        call_ensures(infer_branch_output_type, (arms, span), o),
    ensures
        r is Ok <==> plain_arm(workflow_macro::pipe(steps@)),
        r is Ok ==> r->Ok_0@.len() == steps@.len() && forall|i: int|
            #![trigger steps@[i]]
            0 <= i < steps@.len() ==> steps@[i] is TaskRef && r->Ok_0@[i]@
                == steps@[i]->TaskRef_struct_name@,
        o is Ok <==> arms@.len() > 0 && arms@[0].1@.len() > 0 && arms@[0].1@.last() is TaskRef,
        o is Ok ==> o->Ok_0@ == arms@[0].1@.last()->TaskRef_struct_name@,
{
    let p = workflow_macro::pipe(steps@);
    lemma_plain_arm(p, span);
    lemma_prefix_names(p, p.len());
    if r is Ok {
        let names = text::texts(r->Ok_0@);
        assert(names.len() == r->Ok_0@.len());
        assert forall|i: int| #![trigger steps@[i]] 0 <= i < steps@.len() implies steps@[i]
            is TaskRef && r->Ok_0@[i]@ == steps@[i]->TaskRef_struct_name@ by {
            assert(p[i] == steps@[i].step());
            assert(names[i] == r->Ok_0@[i]@);
        }
    }
    let a = workflow_macro::arm_pipes(arms@);
    if arms@.len() > 0 {
        assert(a[0].1 == workflow_macro::pipe(arms@[0].1@));
        if arms@[0].1@.len() > 0 {
            assert(a[0].1.last() == arms@[0].1@.last().step());
        }
    }
}

} // verus!
