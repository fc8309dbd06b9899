//! The calls on a builder that a pipeline stands for.
use crate::continuation_builder;
use crate::continuation_builder::numbered_id;
use crate::duration_lit::DurationLit;
use crate::route_builder;
use crate::text;
use crate::text::{clone_texts, contains_text};
use crate::tree;
use crate::workflow_macro;
use crate::workflow_macro::{
    collect_route_aliases, collect_task_refs, ArmKey, BranchArmKey, Fragment, PipeStep, WorkflowStep,
};
use vstd::prelude::*;

verus! {

/// A step with its routes numbered from `c` on, and the next number. A route comes before
/// those in its arms, and those in the default arm last.
pub open spec fn numbered_step(s: PipeStep, c: nat) -> (PipeStep, nat)
    decreases s, 0nat,
{
    match s {
        PipeStep::Route { key_fn, key_type, branches, default, span, .. } => {
            let a = numbered_arms(branches, branches.len(), c + 1);
            let d = match default {
                Some(d) => {
                    let n = numbered_steps(d, d.len(), a.1);
                    (Some(n.0), n.1)
                },
                None => (None, a.1),
            };
            (
                PipeStep::Route {
                    id: continuation_builder::numbered("branch_"@, c),
                    key_fn,
                    key_type,
                    branches: a.0,
                    default: d.0,
                    span,
                },
                d.1,
            )
        },
        _ => (s, c),
    }
}

/// The first `k` steps with their routes numbered from `c` on, and the next number.
pub open spec fn numbered_steps(steps: Seq<PipeStep>, k: nat, c: nat) -> (Seq<PipeStep>, nat)
    decreases steps, k,
{
    if k == 0 || k > steps.len() {
        (seq![], c)
    } else {
        let p = numbered_steps(steps, (k - 1) as nat, c);
        let n = numbered_step(steps[k - 1], p.1);
        (p.0.push(n.0), n.1)
    }
}

/// The first `k` arms with their routes numbered from `c` on, and the next number.
pub open spec fn numbered_arms(arms: Seq<(ArmKey, Seq<PipeStep>)>, k: nat, c: nat) -> (
    Seq<(ArmKey, Seq<PipeStep>)>,
    nat,
)
    decreases arms, k,
{
    if k == 0 || k > arms.len() {
        (seq![], c)
    } else {
        let p = numbered_arms(arms, (k - 1) as nat, c);
        let n = numbered_steps(arms[k - 1].1, arms[k - 1].1.len(), p.1);
        (p.0.push((arms[k - 1].0, n.0)), n.1)
    }
}

proof fn lemma_step_counts(s: PipeStep, c: nat)
    ensures
        numbered_step(s, c).1 >= c,
    decreases s, 0nat,
{
    if let PipeStep::Route { branches, default, .. } = s {
        let a = numbered_arms(branches, branches.len(), c + 1);
        lemma_arms_count(branches, 0, branches.len(), c + 1);
        if let Some(d) = default {
            lemma_steps_count(d, 0, d.len(), a.1);
        }
    }
}

pub proof fn lemma_steps_count(steps: Seq<PipeStep>, i: nat, k: nat, c: nat)
    requires
        i <= k <= steps.len(),
    ensures
        c <= numbered_steps(steps, i, c).1 <= numbered_steps(steps, k, c).1,
        numbered_steps(steps, k, c).0.len() == k,
    decreases steps, k,
{
    if k > 0 {
        if i < k {
            lemma_steps_count(steps, i, (k - 1) as nat, c);
        } else {
            lemma_steps_count(steps, (k - 1) as nat, (k - 1) as nat, c);
        }
        lemma_step_counts(steps[k - 1], numbered_steps(steps, (k - 1) as nat, c).1);
    }
}

proof fn lemma_arms_count(arms: Seq<(ArmKey, Seq<PipeStep>)>, i: nat, k: nat, c: nat)
    requires
        i <= k <= arms.len(),
    ensures
        c <= numbered_arms(arms, i, c).1 <= numbered_arms(arms, k, c).1,
        numbered_arms(arms, k, c).0.len() == k,
    decreases arms, k,
{
    if k > 0 {
        if i < k {
            lemma_arms_count(arms, i, (k - 1) as nat, c);
        } else {
            lemma_arms_count(arms, (k - 1) as nat, (k - 1) as nat, c);
        }
        let n = numbered_arms(arms, (k - 1) as nat, c).1;
        lemma_steps_count(arms[k - 1].1, 0, arms[k - 1].1.len(), n);
    }
}

/// Number the routes of a step.
fn renumber_step(step: &mut WorkflowStep, counter: usize) -> (r: usize)
    requires
        numbered_step(old(step).step(), counter as nat).1 <= usize::MAX,
    ensures
        (final(step).step(), r as nat) == numbered_step(old(step).step(), counter as nat),
    decreases *old(step), 0nat,
{
    let ghost before = *step;
    let ghost c = counter as nat;
    proof {
        reveal_with_fuel(numbered_step, 2);
        if before is Route {
            workflow_macro::lemma_route(before);
            let arms = before.step()->Route_branches;
            lemma_arms_count(arms, 0, arms.len(), c + 1);
            if let Some(d) = before.step()->Route_default {
                lemma_steps_count(d, 0, d.len(), numbered_arms(arms, arms.len(), c + 1).1);
            }
            assert(decreases_to!(before => before->Route_branches));
            assert(decreases_to!(before->Route_branches => before->Route_branches@));
        }
    }
    let mut count: usize = counter;
    if let WorkflowStep::Route { id, branches, default, .. } = step {
        *id = numbered_id("branch_", counter);
        count = renumber_arms(branches, counter + 1);
        if let Some(d) = default {
            proof {
                assert(decreases_to!(before => before->Route_default));
                assert(decreases_to!(before->Route_default => before->Route_default->0));
                assert(decreases_to!(before->Route_default->0 => before->Route_default->0@));
            }
            count = renumber_steps(d, count);
        }
    }
    proof {
        if *step is Route {
            workflow_macro::lemma_route(*step);
        }
    }
    count
}

/// Number the routes of steps.
fn renumber_steps(steps: &mut Vec<WorkflowStep>, counter: usize) -> (r: usize)
    requires
        numbered_steps(workflow_macro::pipe(old(steps)@), old(steps)@.len(), counter as nat).1
            <= usize::MAX,
    ensures
        (workflow_macro::pipe(final(steps)@), r as nat) == numbered_steps(
            workflow_macro::pipe(old(steps)@),
            old(steps)@.len(),
            counter as nat,
        ),
    decreases old(steps)@, 1nat,
{
    let ghost before = steps@;
    let ghost p = workflow_macro::pipe(before);
    let ghost c = counter as nat;
    let mut count: usize = counter;
    let mut i: usize = 0;
    while i < steps.len()
        invariant
            i <= steps@.len(),
            before == old(steps)@,
            steps@.len() == before.len(),
            p == workflow_macro::pipe(before),
            c == counter,
            numbered_steps(p, before.len(), c).1 <= usize::MAX,
            count == numbered_steps(p, i as nat, c).1,
            workflow_macro::pipe(steps@).take(i as int) == numbered_steps(p, i as nat, c).0,
            forall|j: int| i <= j < steps@.len() ==> #[trigger] steps@[j] == before[j],
        decreases steps@.len() - i,
    {
        proof {
            lemma_steps_count(p, (i + 1) as nat, before.len(), c);
            assert(numbered_steps(p, (i + 1) as nat, c).1 == numbered_step(
                p[i as int],
                count as nat,
            ).1);
            assert(decreases_to!(before => before[i as int]));
        }
        let ghost so_far = workflow_macro::pipe(steps@).take(i as int);
        let ghost was = steps@;
        count = renumber_step(&mut steps[i], count);
        proof {
            assert(workflow_macro::pipe(steps@).take(i + 1) =~= so_far.push(
                steps@[i as int].step(),
            ));
        }
        i = i + 1;
    }
    proof {
        assert(workflow_macro::pipe(steps@).take(i as int) =~= workflow_macro::pipe(steps@));
    }
    count
}

/// Number the routes of arms.
fn renumber_arms(arms: &mut Vec<(BranchArmKey, Vec<WorkflowStep>)>, counter: usize) -> (r: usize)
    requires
        numbered_arms(workflow_macro::arm_pipes(old(arms)@), old(arms)@.len(), counter as nat).1
            <= usize::MAX,
    ensures
        (workflow_macro::arm_pipes(final(arms)@), r as nat) == numbered_arms(
            workflow_macro::arm_pipes(old(arms)@),
            old(arms)@.len(),
            counter as nat,
        ),
    decreases old(arms)@, 1nat,
{
    let ghost before = arms@;
    let ghost p = workflow_macro::arm_pipes(before);
    let ghost c = counter as nat;
    let mut count: usize = counter;
    let mut i: usize = 0;
    while i < arms.len()
        invariant
            i <= arms@.len(),
            before == old(arms)@,
            arms@.len() == before.len(),
            p == workflow_macro::arm_pipes(before),
            c == counter,
            numbered_arms(p, before.len(), c).1 <= usize::MAX,
            count == numbered_arms(p, i as nat, c).1,
            workflow_macro::arm_pipes(arms@).take(i as int) == numbered_arms(p, i as nat, c).0,
            forall|j: int| i <= j < arms@.len() ==> #[trigger] arms@[j] == before[j],
        decreases arms@.len() - i,
    {
        proof {
            lemma_arms_count(p, (i + 1) as nat, before.len(), c);
            assert(numbered_arms(p, (i + 1) as nat, c).1 == numbered_steps(
                p[i as int].1,
                p[i as int].1.len(),
                count as nat,
            ).1);
            assert(decreases_to!(before => before[i as int]));
            assert(decreases_to!(before[i as int] => before[i as int].1));
            assert(decreases_to!(before[i as int].1 => before[i as int].1@));
        }
        let ghost so_far = workflow_macro::arm_pipes(arms@).take(i as int);
        count = renumber_steps(&mut arms[i].1, count);
        proof {
            assert(workflow_macro::arm_pipes(arms@).take(i + 1) =~= so_far.push(
                (arms@[i as int].0@, workflow_macro::pipe(arms@[i as int].1@)),
            ));
        }
        i = i + 1;
    }
    proof {
        assert(workflow_macro::arm_pipes(arms@).take(i as int) =~= workflow_macro::arm_pipes(
            arms@,
        ));
    }
    count
}

/// The number of routes of a step and `from` in all, where it fits.
fn count_step(step: &WorkflowStep, from: usize) -> (r: Option<usize>)
    ensures
        match r {
            Some(n) => n == numbered_step(step.step(), from as nat).1,
            None => numbered_step(step.step(), from as nat).1 > usize::MAX,
        },
    decreases *step, 0nat,
{
    let ghost c = from as nat;
    proof {
        reveal_with_fuel(numbered_step, 2);
    }
    if let WorkflowStep::Route { branches, default, .. } = step {
        proof {
            workflow_macro::lemma_route(*step);
            let arms = step.step()->Route_branches;
            lemma_arms_count(arms, 0, arms.len(), c + 1);
            if let Some(d) = step.step()->Route_default {
                lemma_steps_count(d, 0, d.len(), numbered_arms(arms, arms.len(), c + 1).1);
            }
            assert(decreases_to!(*step => step->Route_branches));
            assert(decreases_to!(step->Route_branches => step->Route_branches@));
        }
        if from == usize::MAX {
            return None;
        }
        let count = match count_arms(branches, from + 1) {
            Some(n) => n,
            None => {
                return None;
            },
        };
        match default {
            Some(d) => {
                proof {
                    assert(decreases_to!(*step => step->Route_default));
                    assert(decreases_to!(step->Route_default => step->Route_default->0));
                    assert(decreases_to!(step->Route_default->0 => step->Route_default->0@));
                }
                route_count(d, count)
            },
            None => Some(count),
        }
    } else {
        Some(from)
    }
}

/// The number of routes of a pipeline and `from` in all, where it fits.
pub fn route_count(steps: &Vec<WorkflowStep>, from: usize) -> (r: Option<usize>)
    ensures
        match r {
            Some(n) => n == numbered_steps(
                workflow_macro::pipe(steps@),
                steps@.len(),
                from as nat,
            ).1,
            None => numbered_steps(workflow_macro::pipe(steps@), steps@.len(), from as nat).1
                > usize::MAX,
        },
    decreases steps@, 1nat,
{
    let ghost p = workflow_macro::pipe(steps@);
    let ghost c = from as nat;
    let mut count: usize = from;
    let mut i: usize = 0;
    while i < steps.len()
        invariant
            i <= steps@.len(),
            p == workflow_macro::pipe(steps@),
            count == numbered_steps(p, i as nat, c).1,
            c == from,
        decreases steps@.len() - i,
    {
        proof {
            lemma_steps_count(p, (i + 1) as nat, p.len(), c);
            assert(decreases_to!(steps@ => steps@[i as int]));
        }
        match count_step(&steps[i], count) {
            Some(n) => {
                count = n;
            },
            None => {
                return None;
            },
        }
        i = i + 1;
    }
    Some(count)
}

/// The number of routes of arms and `from` in all, where it fits.
fn count_arms(arms: &Vec<(BranchArmKey, Vec<WorkflowStep>)>, from: usize) -> (r: Option<usize>)
    ensures
        match r {
            Some(n) => n == numbered_arms(
                workflow_macro::arm_pipes(arms@),
                arms@.len(),
                from as nat,
            ).1,
            None => numbered_arms(workflow_macro::arm_pipes(arms@), arms@.len(), from as nat).1
                > usize::MAX,
        },
    decreases arms@, 1nat,
{
    let ghost p = workflow_macro::arm_pipes(arms@);
    let ghost c = from as nat;
    let mut count: usize = from;
    let mut i: usize = 0;
    while i < arms.len()
        invariant
            i <= arms@.len(),
            p == workflow_macro::arm_pipes(arms@),
            count == numbered_arms(p, i as nat, c).1,
            c == from,
        decreases arms@.len() - i,
    {
        proof {
            lemma_arms_count(p, (i + 1) as nat, p.len(), c);
            assert(decreases_to!(arms@ => arms@[i as int]));
            assert(decreases_to!(arms@[i as int] => arms@[i as int].1));
            assert(decreases_to!(arms@[i as int].1 => arms@[i as int].1@));
        }
        match route_count(&arms[i].1, count) {
            Some(n) => {
                count = n;
            },
            None => {
                return None;
            },
        }
        i = i + 1;
    }
    Some(count)
}

/// Give the routes of a pipeline their ids: `branch_0`, `branch_1`, …
pub fn renumber_branches(steps: &mut Vec<WorkflowStep>)
    requires
        numbered_steps(workflow_macro::pipe(old(steps)@), old(steps)@.len(), 0).1 <= usize::MAX,
    ensures
        workflow_macro::pipe(final(steps)@) == numbered_steps(
            workflow_macro::pipe(old(steps)@),
            old(steps)@.len(),
            0,
        ).0,
{
    let _ = renumber_steps(steps, 0);
}

/// The ids under which key functions are registered are numbered from `c` on.
pub open spec fn numbered_from(a: Seq<(Seq<char>, Seq<char>)>, c: nat) -> bool {
    forall|j: int|
        0 <= j < a.len() ==> (#[trigger] a[j]).1 == tree::key_fn_text(
            continuation_builder::numbered("branch_"@, (c + j) as nat),
        )
}

proof fn lemma_numbered_concat(
    a: Seq<(Seq<char>, Seq<char>)>,
    b: Seq<(Seq<char>, Seq<char>)>,
    c: nat,
)
    requires
        numbered_from(a, c),
        numbered_from(b, c + a.len()),
    ensures
        numbered_from(a + b, c),
{
    assert forall|j: int| 0 <= j < (a + b).len() implies (#[trigger] (a + b)[j]).1
        == tree::key_fn_text(
        continuation_builder::numbered("branch_"@, (c + j) as nat),
    ) by {
        if j < a.len() {
            assert((a + b)[j] == a[j]);
        } else {
            assert((a + b)[j] == b[j - a.len()]);
            assert((c + a.len() + (j - a.len())) as nat == (c + j) as nat);
        }
    }
}

proof fn lemma_step_aliases(s: PipeStep, c: nat)
    ensures
        numbered_from(workflow_macro::aliases_of(numbered_step(s, c).0), c),
        workflow_macro::aliases_of(numbered_step(s, c).0).len() == numbered_step(s, c).1 - c,
    decreases s, 0nat,
{
    reveal_with_fuel(workflow_macro::aliases_of, 2);
    if let PipeStep::Route { key_fn, branches, default, .. } = s {
        let a = numbered_arms(branches, branches.len(), c + 1);
        lemma_arms_count(branches, 0, branches.len(), c + 1);
        lemma_arm_aliases(branches, branches.len(), c + 1);
        let id = continuation_builder::numbered("branch_"@, c);
        let head = seq![(key_fn, tree::key_fn_text(id))];
        assert(numbered_from(head, c)) by {
            assert((c + 0) as nat == c);
        }
        let arms = workflow_macro::arm_aliases(a.0, a.0.len());
        lemma_numbered_concat(head, arms, c);
        if let Some(d) = default {
            lemma_steps_count(d, 0, d.len(), a.1);
            lemma_pipeline_aliases(d, d.len(), a.1);
            let n = numbered_steps(d, d.len(), a.1);
            lemma_numbered_concat(head + arms, workflow_macro::route_aliases(n.0, n.0.len()), c);
        } else {
            assert(head + arms + Seq::<(Seq<char>, Seq<char>)>::empty() =~= head + arms);
        }
    }
}

/// What comes after the first `k` steps has no part in their aliases.
proof fn lemma_aliases_of_prefix(steps: Seq<PipeStep>, last: PipeStep, k: nat)
    requires
        k <= steps.len(),
    ensures
        workflow_macro::route_aliases(steps.push(last), k) == workflow_macro::route_aliases(
            steps,
            k,
        ),
    decreases k,
{
    reveal_with_fuel(workflow_macro::route_aliases, 2);
    if k > 0 {
        lemma_aliases_of_prefix(steps, last, (k - 1) as nat);
    }
}

/// What comes after the first `k` arms has no part in their aliases.
proof fn lemma_aliases_of_arms_prefix(
    arms: Seq<(ArmKey, Seq<PipeStep>)>,
    last: (ArmKey, Seq<PipeStep>),
    k: nat,
)
    requires
        k <= arms.len(),
    ensures
        workflow_macro::arm_aliases(arms.push(last), k) == workflow_macro::arm_aliases(arms, k),
    decreases k,
{
    reveal_with_fuel(workflow_macro::arm_aliases, 2);
    if k > 0 {
        lemma_aliases_of_arms_prefix(arms, last, (k - 1) as nat);
    }
}

proof fn lemma_pipeline_aliases(steps: Seq<PipeStep>, k: nat, c: nat)
    requires
        k <= steps.len(),
    ensures
        numbered_from(workflow_macro::route_aliases(numbered_steps(steps, k, c).0, k), c),
        workflow_macro::route_aliases(numbered_steps(steps, k, c).0, k).len() == numbered_steps(
            steps,
            k,
            c,
        ).1 - c,
    decreases steps, k,
{
    reveal_with_fuel(workflow_macro::route_aliases, 2);
    if k > 0 {
        let p = numbered_steps(steps, (k - 1) as nat, c);
        lemma_steps_count(steps, (k - 1) as nat, k, c);
        lemma_pipeline_aliases(steps, (k - 1) as nat, c);
        lemma_step_aliases(steps[k - 1], p.1);
        let n = numbered_step(steps[k - 1], p.1);
        lemma_aliases_of_prefix(p.0, n.0, (k - 1) as nat);
        lemma_numbered_concat(
            workflow_macro::route_aliases(p.0, (k - 1) as nat),
            workflow_macro::aliases_of(n.0),
            c,
        );
    }
}

proof fn lemma_arm_aliases(arms: Seq<(ArmKey, Seq<PipeStep>)>, k: nat, c: nat)
    requires
        k <= arms.len(),
    ensures
        numbered_from(workflow_macro::arm_aliases(numbered_arms(arms, k, c).0, k), c),
        workflow_macro::arm_aliases(numbered_arms(arms, k, c).0, k).len() == numbered_arms(
            arms,
            k,
            c,
        ).1 - c,
    decreases arms, k,
{
    reveal_with_fuel(workflow_macro::arm_aliases, 2);
    if k > 0 {
        let p = numbered_arms(arms, (k - 1) as nat, c);
        let inner = arms[k - 1].1;
        lemma_arms_count(arms, (k - 1) as nat, k, c);
        lemma_arm_aliases(arms, (k - 1) as nat, c);
        lemma_steps_count(inner, 0, inner.len(), p.1);
        lemma_pipeline_aliases(inner, inner.len(), p.1);
        let n = numbered_steps(inner, inner.len(), p.1);
        lemma_aliases_of_arms_prefix(p.0, (arms[k - 1].0, n.0), (k - 1) as nat);
        lemma_numbered_concat(
            workflow_macro::arm_aliases(p.0, (k - 1) as nat),
            workflow_macro::route_aliases(n.0, n.0.len()),
            c,
        );
    }
}

/// In a numbered pipeline the key function of the n-th route, in the order of the text,
/// is registered under `branch_n::key_fn`, so no two routes share one.
pub proof fn law_routes_are_numbered(steps: Seq<PipeStep>)
    ensures
        numbered_from(
            workflow_macro::route_aliases(numbered_steps(steps, steps.len(), 0).0, steps.len()),
            0,
        ),
        workflow_macro::route_aliases(
            numbered_steps(steps, steps.len(), 0).0,
            steps.len(),
        ).len() == numbered_steps(steps, steps.len(), 0).1,
{
    lemma_pipeline_aliases(steps, steps.len(), 0);
}

/// A call on a builder.
#[allow(inconsistent_fields)]
pub enum Call {
    /// `fork()`.
    Fork,
    /// `branch_registered` of a fork, with the id of a task.
    ForkBranch(String),
    /// `join_registered`, with the id and the output type of a task.
    Join(String),
    /// `then_registered`, with the id and the output type of a task.
    ThenRegistered(String),
    /// `then`, with a closure.
    Then {
        /// Task id.
        id: String,
        /// Name of the parameter of the closure.
        param_name: String,
        /// Type of the parameter.
        param_type: Fragment,
        /// The body.
        body: Fragment,
    },
    /// `delay`.
    Delay {
        /// Node id.
        id: String,
        /// How long to wait.
        duration: DurationLit,
    },
    /// `wait_for_signal`.
    WaitForSignal {
        /// Node id.
        id: String,
        /// Name of the signal.
        signal_name: String,
        /// How long to wait at most.
        timeout: Option<DurationLit>,
    },
    /// `loop_task_registered`, with the id and the inner output type of a task.
    Loop {
        /// The task.
        body: String,
        /// Maximum number of iterations, as it was written.
        max_iterations: String,
        /// Whether the loop exits with the last value at the maximum.
        exit_with_last: bool,
    },
    /// `then_serializable_flow`.
    Flow(Fragment),
    /// `route_registered`, with the output type of a task.
    Route {
        /// Node id.
        id: String,
        /// The task whose output type the arms have.
        output_of: String,
    },
    /// `branch_registered` of a route, with the ids of tasks.
    Arm {
        /// The key.
        key: BranchArmKey,
        /// The type of the key, where it is typed.
        key_type: Option<Fragment>,
        /// The tasks.
        tasks: Vec<String>,
    },
    /// `default_registered`, with the ids of tasks.
    DefaultArm(Vec<String>),
    /// `done()`.
    Done,
}

/// The contents of a [`Call`].
#[allow(inconsistent_fields)]
pub enum CallSpec {
    Fork,
    ForkBranch(Seq<char>),
    Join(Seq<char>),
    ThenRegistered(Seq<char>),
    Then { id: Seq<char>, param_name: Seq<char>, param_type: Fragment, body: Fragment },
    Delay { id: Seq<char>, duration: DurationLit },
    WaitForSignal { id: Seq<char>, signal_name: Seq<char>, timeout: Option<DurationLit> },
    Loop { body: Seq<char>, max_iterations: Seq<char>, exit_with_last: bool },
    Flow(Fragment),
    Route { id: Seq<char>, output_of: Seq<char> },
    Arm { key: ArmKey, key_type: Option<Fragment>, tasks: Seq<Seq<char>> },
    DefaultArm(Seq<Seq<char>>),
    Done,
}

impl View for Call {
    type V = CallSpec;

    open spec fn view(&self) -> CallSpec {
        match *self {
            Call::Fork => CallSpec::Fork,
            Call::ForkBranch(t) => CallSpec::ForkBranch(t@),
            Call::Join(t) => CallSpec::Join(t@),
            Call::ThenRegistered(t) => CallSpec::ThenRegistered(t@),
            Call::Then { id, param_name, param_type, body } => CallSpec::Then {
                id: id@,
                param_name: param_name@,
                param_type,
                body,
            },
            Call::Delay { id, duration } => CallSpec::Delay { id: id@, duration },
            Call::WaitForSignal { id, signal_name, timeout } => CallSpec::WaitForSignal {
                id: id@,
                signal_name: signal_name@,
                timeout,
            },
            Call::Loop { body, max_iterations, exit_with_last } => CallSpec::Loop {
                body: body@,
                max_iterations: max_iterations@,
                exit_with_last,
            },
            Call::Flow(f) => CallSpec::Flow(f),
            Call::Route { id, output_of } => CallSpec::Route {
                id: id@,
                output_of: output_of@,
            },
            Call::Arm { key, key_type, tasks } => CallSpec::Arm {
                key: key@,
                key_type,
                tasks: text::texts(tasks@),
            },
            Call::DefaultArm(tasks) => CallSpec::DefaultArm(text::texts(tasks@)),
            Call::Done => CallSpec::Done,
        }
    }
}

/// The contents of a list of calls.
pub open spec fn calls(v: Seq<Call>) -> Seq<CallSpec> {
    Seq::new(v.len(), |i: int| v[i]@)
}

/// Why a pipeline cannot be built, with the place of the step at fault.
#[derive(Debug, Clone, Copy, PartialEq, Eq, Structural)]
pub enum ChainFault {
    /// A fork without branches.
    NoBranches(usize),
    /// A fork at the end.
    NoJoin(usize),
    /// A branch of a fork with a body of its own.
    InlineBranch(usize),
    /// A branch of a fork that is no task.
    BadBranch(usize),
    /// A fork that is not followed by a task.
    BadJoin(usize),
    /// A step of an arm that is no task.
    BadArmStep(usize),
    /// An arm without tasks.
    EmptyArm(usize),
    /// A route without arms.
    NoArms(usize),
    /// A first arm without steps.
    EmptyFirstArm(usize),
    /// A first arm that does not end with a task.
    NoOutput(usize),
}

impl ChainFault {
    /// What the error says.
    pub fn message(&self) -> (r: &'static str)
        ensures
            r@ == fault_message(*self),
    {
        match self {
            ChainFault::NoBranches(_) => "parallel fork must have at least one branch",
            ChainFault::NoJoin(_) =>
                "parallel fork must be followed by a join step (e.g. `=> join_task`)",
            ChainFault::InlineBranch(_) =>
                "inline tasks in parallel branches are not yet supported; register them first with #[task]",
            ChainFault::BadBranch(_) =>
                "only task references are supported in parallel branches",
            ChainFault::BadJoin(_) => "join step after parallel fork must be a task reference",
            ChainFault::BadArmStep(_) =>
                "only task references are supported inside route arms; use #[task] to register complex steps",
            ChainFault::EmptyArm(_) => "each route arm must have at least one task",
            ChainFault::NoArms(_) => "empty branches",
            ChainFault::EmptyFirstArm(_) => "branch must have at least one task",
            ChainFault::NoOutput(_) =>
                "route arms must end with a task reference to infer the output type",
        }
    }
}

/// What an error says.
pub open spec fn fault_message(f: ChainFault) -> Seq<char> {
    match f {
        ChainFault::NoBranches(_) => "parallel fork must have at least one branch"@,
        ChainFault::NoJoin(_) =>
            "parallel fork must be followed by a join step (e.g. `=> join_task`)"@,
        ChainFault::InlineBranch(_) =>
            "inline tasks in parallel branches are not yet supported; register them first with #[task]"@,
        ChainFault::BadBranch(_) => "only task references are supported in parallel branches"@,
        ChainFault::BadJoin(_) => "join step after parallel fork must be a task reference"@,
        ChainFault::BadArmStep(_) =>
            "only task references are supported inside route arms; use #[task] to register complex steps"@,
        ChainFault::EmptyArm(_) => "each route arm must have at least one task"@,
        ChainFault::NoArms(_) => "empty branches"@,
        ChainFault::EmptyFirstArm(_) => "branch must have at least one task"@,
        ChainFault::NoOutput(_) =>
            "route arms must end with a task reference to infer the output type"@,
    }
}

/// The tasks of the first `k` steps of an arm, which must all be tasks.
pub open spec fn arm_prefix(steps: Seq<PipeStep>, k: nat) -> Option<Seq<Seq<char>>>
    decreases k,
{
    if k == 0 || k > steps.len() {
        Some(seq![])
    } else {
        match (arm_prefix(steps, (k - 1) as nat), steps[k - 1]) {
            (Some(p), PipeStep::TaskRef { struct_name, .. }) => Some(p.push(struct_name)),
            _ => None,
        }
    }
}

/// The tasks of an arm of the route at `span`.
pub open spec fn arm_tasks(steps: Seq<PipeStep>, span: usize) -> Result<
    Seq<Seq<char>>,
    ChainFault,
> {
    match arm_prefix(steps, steps.len()) {
        None => Err(ChainFault::BadArmStep(span)),
        Some(p) => if p.len() == 0 {
            Err(ChainFault::EmptyArm(span))
        } else {
            Ok(p)
        },
    }
}

/// The task whose output type the arms of the route at `span` have: the last one of the
/// first arm.
pub open spec fn output_task(arms: Seq<(ArmKey, Seq<PipeStep>)>, span: usize) -> Result<
    Seq<char>,
    ChainFault,
> {
    if arms.len() == 0 {
        Err(ChainFault::NoArms(span))
    } else if arms[0].1.len() == 0 {
        Err(ChainFault::EmptyFirstArm(span))
    } else {
        match arms[0].1.last() {
            PipeStep::TaskRef { struct_name, .. } => Ok(struct_name),
            _ => Err(ChainFault::NoOutput(span)),
        }
    }
}

/// The calls of the first `k` branches of a fork.
pub open spec fn fork_calls(branches: Seq<PipeStep>, k: nat) -> Result<Seq<CallSpec>, ChainFault>
    decreases k,
{
    if k == 0 || k > branches.len() {
        Ok(seq![CallSpec::Fork])
    } else {
        match fork_calls(branches, (k - 1) as nat) {
            Err(f) => Err(f),
            Ok(p) => match branches[k - 1] {
                PipeStep::TaskRef { struct_name, .. } => Ok(
                    p.push(CallSpec::ForkBranch(struct_name)),
                ),
                PipeStep::InlineTask { span, .. } => Err(ChainFault::InlineBranch(span)),
                _ => Err(ChainFault::BadBranch(workflow_macro::span_of(branches[k - 1]))),
            },
        }
    }
}

/// The calls of a fork and the step after it.
pub open spec fn joined_calls(
    branches: Seq<PipeStep>,
    span: usize,
    join: Option<PipeStep>,
) -> Result<Seq<CallSpec>, ChainFault> {
    if branches.len() == 0 {
        Err(ChainFault::NoBranches(span))
    } else {
        match join {
            None => Err(ChainFault::NoJoin(span)),
            Some(j) => match fork_calls(branches, branches.len()) {
                Err(f) => Err(f),
                Ok(p) => match j {
                    PipeStep::TaskRef { struct_name, .. } => Ok(
                        p.push(CallSpec::Join(struct_name)),
                    ),
                    _ => Err(ChainFault::BadJoin(workflow_macro::span_of(j))),
                },
            },
        }
    }
}

/// The calls of the first `k` arms of the route at `span`, after the calls `head`.
pub open spec fn arm_calls(
    head: Seq<CallSpec>,
    arms: Seq<(ArmKey, Seq<PipeStep>)>,
    key_type: Option<Fragment>,
    span: usize,
    k: nat,
) -> Result<Seq<CallSpec>, ChainFault>
    decreases k,
{
    if k == 0 || k > arms.len() {
        Ok(head)
    } else {
        match arm_calls(head, arms, key_type, span, (k - 1) as nat) {
            Err(f) => Err(f),
            Ok(p) => match arm_tasks(arms[k - 1].1, span) {
                Err(f) => Err(f),
                Ok(tasks) => Ok(p.push(CallSpec::Arm { key: arms[k - 1].0, key_type, tasks })),
            },
        }
    }
}

/// The calls of a route.
pub open spec fn route_calls(
    id: Seq<char>,
    key_type: Option<Fragment>,
    arms: Seq<(ArmKey, Seq<PipeStep>)>,
    default: Option<Seq<PipeStep>>,
    span: usize,
) -> Result<Seq<CallSpec>, ChainFault> {
    match output_task(arms, span) {
        Err(f) => Err(f),
        Ok(t) => match arm_calls(
            seq![CallSpec::Route { id, output_of: t }],
            arms,
            key_type,
            span,
            arms.len(),
        ) {
            Err(f) => Err(f),
            Ok(p) => match default {
                None => Ok(p.push(CallSpec::Done)),
                Some(d) => match arm_tasks(d, span) {
                    Err(f) => Err(f),
                    Ok(tasks) => Ok(p.push(CallSpec::DefaultArm(tasks)).push(CallSpec::Done)),
                },
            },
        },
    }
}

/// The calls of the `i`-th step, with the step after it where it is a fork.
pub open spec fn step_calls(steps: Seq<PipeStep>, i: int) -> Result<Seq<CallSpec>, ChainFault> {
    match steps[i] {
        PipeStep::Parallel { branches, span } => joined_calls(
            branches,
            span,
            if i + 1 < steps.len() {
                Some(steps[i + 1])
            } else {
                None
            },
        ),
        PipeStep::TaskRef { struct_name, .. } => Ok(seq![CallSpec::ThenRegistered(struct_name)]),
        PipeStep::InlineTask { name, param_name, param_type, body, .. } => Ok(
            seq![CallSpec::Then { id: name, param_name, param_type, body }],
        ),
        PipeStep::Delay { id, duration, .. } => Ok(seq![CallSpec::Delay { id, duration }]),
        PipeStep::AwaitSignal { id, signal_name, timeout, .. } => Ok(
            seq![CallSpec::WaitForSignal { id, signal_name, timeout }],
        ),
        PipeStep::Loop { body, max_iterations, exit_with_last, .. } => Ok(
            seq![CallSpec::Loop { body, max_iterations, exit_with_last }],
        ),
        PipeStep::Flow { expr, .. } => Ok(seq![CallSpec::Flow(expr)]),
        PipeStep::Route { id, key_type, branches, default, span, .. } => route_calls(
            id,
            key_type,
            branches,
            default,
            span,
        ),
    }
}

/// The calls of a pipeline from the `i`-th step on. A fork takes in the step after it.
pub open spec fn chain_calls(steps: Seq<PipeStep>, i: nat) -> Result<Seq<CallSpec>, ChainFault>
    decreases steps.len() - i,
{
    if i >= steps.len() {
        Ok(seq![])
    } else {
        match step_calls(steps, i as int) {
            Err(f) => Err(f),
            Ok(here) => match chain_calls(
                steps,
                if steps[i as int] is Parallel {
                    i + 2
                } else {
                    i + 1
                },
            ) {
                Err(f) => Err(f),
                Ok(rest) => Ok(here + rest),
            },
        }
    }
}

/// Calls before those of a rest.
pub open spec fn prefixed(p: Seq<CallSpec>, r: Result<Seq<CallSpec>, ChainFault>) -> Result<
    Seq<CallSpec>,
    ChainFault,
> {
    match r {
        Ok(s) => Ok(p + s),
        Err(f) => Err(f),
    }
}

/// A list of calls is what is owed.
pub open spec fn gives(
    r: Result<Vec<Call>, ChainFault>,
    owed: Result<Seq<CallSpec>, ChainFault>,
) -> bool {
    match owed {
        Ok(s) => r is Ok && calls(r->Ok_0@) == s,
        Err(f) => r is Err && r->Err_0 == f,
    }
}

/// Append a call.
fn push_call(out: &mut Vec<Call>, call: Call)
    ensures
        calls(final(out)@) == calls(old(out)@).push(call@),
{
    out.push(call);
    proof {
        assert(calls(out@) =~= calls(old(out)@).push(call@));
    }
}

/// A list of one call.
fn one_call(call: Call) -> (r: Vec<Call>)
    ensures
        calls(r@) == seq![call@],
{
    let mut out: Vec<Call> = Vec::new();
    out.push(call);
    proof {
        assert(calls(out@) =~= seq![call@]);
    }
    out
}

/// The tasks of an arm of the route at `span`.
pub fn collect_branch_task_ids(steps: &Vec<WorkflowStep>, span: usize) -> (r: Result<
    Vec<String>,
    ChainFault,
>)
    ensures
        match arm_tasks(workflow_macro::pipe(steps@), span) {
            Ok(s) => r is Ok && text::texts(r->Ok_0@) == s,
            Err(f) => r is Err && r->Err_0 == f,
        },
{
    let ghost p = workflow_macro::pipe(steps@);
    let mut out: Vec<String> = Vec::new();
    let mut i: usize = 0;
    proof {
        assert(text::texts(out@) =~= seq![]);
    }
    while i < steps.len()
        invariant
            i <= steps@.len(),
            p == workflow_macro::pipe(steps@),
            arm_prefix(p, i as nat) == Some(text::texts(out@)),
        decreases steps@.len() - i,
    {
        match &steps[i] {
            WorkflowStep::TaskRef { struct_name, .. } => {
                let t = struct_name.clone();
                proof {
                    text::lemma_texts_push(out@, t);
                }
                out.push(t);
            },
            _ => {
                proof {
                    assert(arm_prefix(p, (i + 1) as nat) is None);
                    lemma_arm_prefix_stays(p, (i + 1) as nat, p.len());
                }
                return Err(ChainFault::BadArmStep(span));
            },
        }
        i = i + 1;
    }
    if out.len() == 0 {
        return Err(ChainFault::EmptyArm(span));
    }
    Ok(out)
}

proof fn lemma_arm_prefix_stays(steps: Seq<PipeStep>, i: nat, k: nat)
    requires
        i <= k <= steps.len(),
        arm_prefix(steps, i) is None,
    ensures
        arm_prefix(steps, k) is None,
    decreases k,
{
    if i < k {
        lemma_arm_prefix_stays(steps, i, (k - 1) as nat);
    }
}

/// The task whose output type the arms of the route at `span` have.
pub fn infer_branch_output_type(
    branches: &Vec<(BranchArmKey, Vec<WorkflowStep>)>,
    span: usize,
) -> (r: Result<String, ChainFault>)
    ensures
        match output_task(workflow_macro::arm_pipes(branches@), span) {
            Ok(s) => r is Ok && r->Ok_0@ == s,
            Err(f) => r is Err && r->Err_0 == f,
        },
{
    if branches.len() == 0 {
        return Err(ChainFault::NoArms(span));
    }
    let n = branches[0].1.len();
    if n == 0 {
        return Err(ChainFault::EmptyFirstArm(span));
    }
    match &branches[0].1[n - 1] {
        WorkflowStep::TaskRef { struct_name, .. } => Ok(struct_name.clone()),
        _ => Err(ChainFault::NoOutput(span)),
    }
}

proof fn lemma_fork_error(branches: Seq<PipeStep>, i: nat, k: nat)
    requires
        i <= k <= branches.len(),
        fork_calls(branches, i) is Err,
    ensures
        fork_calls(branches, k) == fork_calls(branches, i),
    decreases k,
{
    if i < k {
        lemma_fork_error(branches, i, (k - 1) as nat);
    }
}

/// The calls of a fork and the step after it.
fn gen_fork(branches: &Vec<WorkflowStep>, span: usize, join: Option<&WorkflowStep>) -> (r: Result<
    Vec<Call>,
    ChainFault,
>)
    ensures
        gives(
            r,
            joined_calls(
                workflow_macro::pipe(branches@),
                span,
                match join {
                    Some(j) => Some(j.step()),
                    None => None,
                },
            ),
        ),
{
    if branches.len() == 0 {
        return Err(ChainFault::NoBranches(span));
    }
    let after = match join {
        Some(j) => j,
        None => {
            return Err(ChainFault::NoJoin(span));
        },
    };
    let ghost p = workflow_macro::pipe(branches@);
    let mut out = one_call(Call::Fork);
    let mut i: usize = 0;
    while i < branches.len()
        invariant
            i <= branches@.len(),
            p == workflow_macro::pipe(branches@),
            p.len() > 0,
            join is Some,
            fork_calls(p, i as nat) == Ok::<Seq<CallSpec>, ChainFault>(calls(out@)),
        decreases branches@.len() - i,
    {
        match &branches[i] {
            WorkflowStep::TaskRef { struct_name, .. } => {
                push_call(&mut out, Call::ForkBranch(struct_name.clone()));
            },
            WorkflowStep::InlineTask { span: place, .. } => {
                proof {
                    assert(fork_calls(p, (i + 1) as nat) is Err);
                    lemma_fork_error(p, (i + 1) as nat, p.len());
                }
                return Err(ChainFault::InlineBranch(*place));
            },
            other => {
                proof {
                    assert(fork_calls(p, (i + 1) as nat) is Err);
                    lemma_fork_error(p, (i + 1) as nat, p.len());
                }
                return Err(ChainFault::BadBranch(other.span()));
            },
        }
        i = i + 1;
    }
    match after {
        WorkflowStep::TaskRef { struct_name, .. } => {
            push_call(&mut out, Call::Join(struct_name.clone()));
            Ok(out)
        },
        other => Err(ChainFault::BadJoin(other.span())),
    }
}

proof fn lemma_arm_calls_error(
    head: Seq<CallSpec>,
    arms: Seq<(ArmKey, Seq<PipeStep>)>,
    key_type: Option<Fragment>,
    span: usize,
    i: nat,
    k: nat,
)
    requires
        i <= k <= arms.len(),
        arm_calls(head, arms, key_type, span, i) is Err,
    ensures
        arm_calls(head, arms, key_type, span, k) == arm_calls(head, arms, key_type, span, i),
    decreases k,
{
    if i < k {
        lemma_arm_calls_error(head, arms, key_type, span, i, (k - 1) as nat);
    }
}

/// A copy of the key of an arm.
fn clone_key(key: &BranchArmKey) -> (r: BranchArmKey)
    ensures
        r@ == key@,
{
    match key {
        BranchArmKey::Literal(s) => BranchArmKey::Literal(s.clone()),
        BranchArmKey::Variant(s) => BranchArmKey::Variant(s.clone()),
    }
}

/// The calls of a route.
fn gen_route(
    id: &String,
    key_type: Option<Fragment>,
    branches: &Vec<(BranchArmKey, Vec<WorkflowStep>)>,
    default: &Option<Vec<WorkflowStep>>,
    span: usize,
) -> (r: Result<Vec<Call>, ChainFault>)
    ensures
        gives(
            r,
            route_calls(
                id@,
                key_type,
                workflow_macro::arm_pipes(branches@),
                workflow_macro::opt_pipe(*default),
                span,
            ),
        ),
{
    let ghost arms = workflow_macro::arm_pipes(branches@);
    let output_of = match infer_branch_output_type(branches, span) {
        Ok(t) => t,
        Err(f) => {
            return Err(f);
        },
    };
    let ghost head = seq![CallSpec::Route { id: id@, output_of: output_of@ }];
    let mut out = one_call(Call::Route { id: id.clone(), output_of });
    let mut i: usize = 0;
    while i < branches.len()
        invariant
            i <= branches@.len(),
            arms == workflow_macro::arm_pipes(branches@),
            arm_calls(head, arms, key_type, span, i as nat) == Ok::<Seq<CallSpec>, ChainFault>(
                calls(out@),
            ),
            output_task(arms, span) is Ok,
            head == seq![CallSpec::Route { id: id@, output_of: output_task(arms, span)->Ok_0 }],
        decreases branches@.len() - i,
    {
        match collect_branch_task_ids(&branches[i].1, span) {
            Ok(tasks) => {
                push_call(
                    &mut out,
                    Call::Arm { key: clone_key(&branches[i].0), key_type, tasks },
                );
            },
            Err(f) => {
                proof {
                    assert(arm_calls(head, arms, key_type, span, (i + 1) as nat) is Err);
                    lemma_arm_calls_error(head, arms, key_type, span, (i + 1) as nat, arms.len());
                }
                return Err(f);
            },
        }
        i = i + 1;
    }
    if let Some(d) = default {
        match collect_branch_task_ids(d, span) {
            Ok(tasks) => {
                push_call(&mut out, Call::DefaultArm(tasks));
            },
            Err(f) => {
                return Err(f);
            },
        }
    }
    push_call(&mut out, Call::Done);
    Ok(out)
}

/// The calls on a builder that a pipeline stands for. The first step at fault counts.
pub fn gen_step_chain(steps: &Vec<WorkflowStep>) -> (r: Result<Vec<Call>, ChainFault>)
    ensures
        gives(r, chain_calls(workflow_macro::pipe(steps@), 0)),
{
    let ghost p = workflow_macro::pipe(steps@);
    let mut out: Vec<Call> = Vec::new();
    let mut i: usize = 0;
    proof {
        assert(calls(out@) =~= seq![]);
        if let Ok(s) = chain_calls(p, 0) {
            assert(calls(out@) + s =~= s);
        }
    }
    while i < steps.len()
        invariant
            p == workflow_macro::pipe(steps@),
            prefixed(calls(out@), chain_calls(p, i as nat)) == chain_calls(p, 0),
            i <= steps@.len() + 1,
        decreases steps@.len() - i,
    {
        let ghost here = steps@[i as int];
        let mut width: usize = 1;
        let made = match &steps[i] {
            WorkflowStep::Parallel { branches, span } => {
                width = 2;
                proof {
                    workflow_macro::lemma_parallel(here);
                }
                let join = if i + 1 < steps.len() {
                    Some(&steps[i + 1])
                } else {
                    None
                };
                gen_fork(branches, *span, join)
            },
            WorkflowStep::TaskRef { struct_name, .. } => Ok(
                one_call(Call::ThenRegistered(struct_name.clone())),
            ),
            WorkflowStep::InlineTask { name, param_name, param_type, body, .. } => Ok(
                one_call(
                    Call::Then {
                        id: name.clone(),
                        param_name: param_name.clone(),
                        param_type: *param_type,
                        body: *body,
                    },
                ),
            ),
            WorkflowStep::Delay { id, duration, .. } => Ok(
                one_call(Call::Delay { id: id.clone(), duration: *duration }),
            ),
            WorkflowStep::AwaitSignal { id, signal_name, timeout, .. } => Ok(
                one_call(
                    Call::WaitForSignal {
                        id: id.clone(),
                        signal_name: signal_name.clone(),
                        timeout: *timeout,
                    },
                ),
            ),
            WorkflowStep::Loop { body, max_iterations, exit_with_last, .. } => Ok(
                one_call(
                    Call::Loop {
                        body: body.clone(),
                        max_iterations: max_iterations.clone(),
                        exit_with_last: *exit_with_last,
                    },
                ),
            ),
            WorkflowStep::Flow { expr, .. } => Ok(one_call(Call::Flow(*expr))),
            WorkflowStep::Route { id, key_type, branches, default, span, .. } => {
                proof {
                    workflow_macro::lemma_route(here);
                }
                gen_route(id, *key_type, branches, default, *span)
            },
        };
        proof {
            assert(gives(made, step_calls(p, i as int)));
        }
        match made {
            Ok(more) => {
                let ghost before = calls(out@);
                let ghost added = calls(more@);
                let mut more = more;
                out.append(&mut more);
                proof {
                    assert(calls(out@) =~= before + added);
                    if let Ok(s) = chain_calls(p, (i + width) as nat) {
                        assert(before + (added + s) =~= before + added + s);
                    }
                }
            },
            Err(f) => {
                return Err(f);
            },
        }
        i = i + width;
    }
    proof {
        assert(calls(out@) + Seq::<CallSpec>::empty() =~= calls(out@));
    }
    Ok(out)
}

/// A compile-time check that the arms of a typed route cover the variants of the key
/// type.
pub struct ExhaustivenessCheck {
    /// The key type.
    pub key_type: Fragment,
    /// The variants that have an arm.
    pub variants: Vec<String>,
    /// Whether a default arm covers the others.
    pub wildcard: bool,
}

/// The contents of an [`ExhaustivenessCheck`].
pub struct CheckSpec {
    pub key_type: Fragment,
    pub variants: Seq<Seq<char>>,
    pub wildcard: bool,
}

impl View for ExhaustivenessCheck {
    type V = CheckSpec;

    open spec fn view(&self) -> CheckSpec {
        CheckSpec {
            key_type: self.key_type,
            variants: text::texts(self.variants@),
            wildcard: self.wildcard,
        }
    }
}

/// The variants among the keys of the first `k` arms.
pub open spec fn arm_variants(arms: Seq<(ArmKey, Seq<PipeStep>)>, k: nat) -> Seq<Seq<char>>
    decreases k,
{
    if k == 0 || k > arms.len() {
        seq![]
    } else {
        match arms[k - 1].0 {
            ArmKey::Variant(v) => arm_variants(arms, (k - 1) as nat).push(v),
            ArmKey::Literal(_) => arm_variants(arms, (k - 1) as nat),
        }
    }
}

/// The checks of the typed routes of a step. A route without a key type is not looked
/// into.
pub open spec fn checks_of(s: PipeStep) -> Seq<CheckSpec>
    decreases s, 0nat,
{
    match s {
        PipeStep::Route { key_type: Some(ty), branches, default, .. } => (if arm_variants(
            branches,
            branches.len(),
        ).len() > 0 {
            seq![
                CheckSpec {
                    key_type: ty,
                    variants: arm_variants(branches, branches.len()),
                    wildcard: default is Some,
                },
            ]
        } else {
            seq![]
        }) + arm_checks(branches, branches.len()) + (match default {
            Some(d) => pipe_checks(d, d.len()),
            None => seq![],
        }),
        _ => seq![],
    }
}

/// The checks of the first `k` steps.
pub open spec fn pipe_checks(steps: Seq<PipeStep>, k: nat) -> Seq<CheckSpec>
    decreases steps, k,
{
    if k == 0 || k > steps.len() {
        seq![]
    } else {
        pipe_checks(steps, (k - 1) as nat) + checks_of(steps[k - 1])
    }
}

/// The checks of the first `k` arms.
pub open spec fn arm_checks(arms: Seq<(ArmKey, Seq<PipeStep>)>, k: nat) -> Seq<CheckSpec>
    decreases arms, k,
{
    if k == 0 || k > arms.len() {
        seq![]
    } else {
        arm_checks(arms, (k - 1) as nat) + pipe_checks(arms[k - 1].1, arms[k - 1].1.len())
    }
}

/// The contents of a list of checks.
pub open spec fn check_list(v: Seq<ExhaustivenessCheck>) -> Seq<CheckSpec> {
    Seq::new(v.len(), |i: int| v[i]@)
}

/// The variants among the keys of arms.
fn variants_of(arms: &Vec<(BranchArmKey, Vec<WorkflowStep>)>) -> (r: Vec<String>)
    ensures
        text::texts(r@) == arm_variants(workflow_macro::arm_pipes(arms@), arms@.len()),
{
    let ghost p = workflow_macro::arm_pipes(arms@);
    let mut out: Vec<String> = Vec::new();
    let mut i: usize = 0;
    proof {
        assert(text::texts(out@) =~= seq![]);
    }
    while i < arms.len()
        invariant
            i <= arms@.len(),
            p == workflow_macro::arm_pipes(arms@),
            text::texts(out@) == arm_variants(p, i as nat),
        decreases arms@.len() - i,
    {
        if let BranchArmKey::Variant(v) = &arms[i].0 {
            let t = v.clone();
            proof {
                text::lemma_texts_push(out@, t);
            }
            out.push(t);
        }
        i = i + 1;
    }
    out
}

/// Append the checks of steps.
fn push_checks(steps: &Vec<WorkflowStep>, out: &mut Vec<ExhaustivenessCheck>)
    ensures
        check_list(final(out)@) == check_list(old(out)@) + pipe_checks(
            workflow_macro::pipe(steps@),
            steps@.len(),
        ),
    decreases steps@,
{
    let ghost start = check_list(out@);
    let ghost p = workflow_macro::pipe(steps@);
    let mut i: usize = 0;
    proof {
        assert(start + pipe_checks(p, 0) =~= start);
    }
    while i < steps.len()
        invariant
            i <= steps@.len(),
            p == workflow_macro::pipe(steps@),
            check_list(out@) == start + pipe_checks(p, i as nat),
        decreases steps@.len() - i,
    {
        let ghost before = check_list(out@);
        let ghost here = steps@[i as int];
        proof {
            reveal_with_fuel(checks_of, 2);
            reveal_with_fuel(pipe_checks, 2);
            assert(decreases_to!(steps@ => steps@[i as int]));
        }
        match &steps[i] {
            WorkflowStep::Route { key_type: Some(ty), branches, default, .. } => {
                proof {
                    workflow_macro::lemma_route(here);
                }
                let ghost arms = workflow_macro::arm_pipes(branches@);
                let variants = variants_of(branches);
                if variants.len() > 0 {
                    let check = ExhaustivenessCheck {
                        key_type: *ty,
                        variants,
                        wildcard: default.is_some(),
                    };
                    let ghost c = check@;
                    out.push(check);
                    proof {
                        assert(check_list(out@) =~= before.push(c));
                    }
                }
                let ghost keyed = check_list(out@);
                let mut j: usize = 0;
                proof {
                    assert(decreases_to!(here => here->Route_branches));
                    assert(decreases_to!(here->Route_branches => here->Route_branches@));
                    assert(keyed + arm_checks(arms, 0) =~= keyed);
                }
                while j < branches.len()
                    invariant
                        j <= branches@.len(),
                        arms == workflow_macro::arm_pipes(branches@),
                        check_list(out@) == keyed + arm_checks(arms, j as nat),
                        decreases_to!(steps@ => branches@),
                    decreases branches@.len() - j,
                {
                    proof {
                        assert(decreases_to!(branches@ => branches@[j as int]));
                        assert(decreases_to!(branches@[j as int] => branches@[j as int].1));
                        assert(decreases_to!(branches@[j as int].1 => branches@[j as int].1@));
                    }
                    push_checks(&branches[j].1, out);
                    proof {
                        reveal_with_fuel(arm_checks, 2);
                        assert(check_list(out@) =~= keyed + arm_checks(arms, (j + 1) as nat));
                    }
                    j = j + 1;
                }
                if let Some(d) = default {
                    proof {
                        assert(decreases_to!(here => here->Route_default));
                        assert(decreases_to!(here->Route_default => here->Route_default->0));
                        assert(decreases_to!(here->Route_default->0 => d@));
                    }
                    push_checks(d, out);
                }
                proof {
                    assert(check_list(out@) =~= before + checks_of(p[i as int]));
                }
            },
            _ => {
                proof {
                    assert(before =~= before + checks_of(p[i as int]));
                }
            },
        }
        proof {
            assert(check_list(out@) =~= start + pipe_checks(p, (i + 1) as nat));
        }
        i = i + 1;
    }
}

/// The compile-time checks of the typed routes of a pipeline.
pub fn collect_exhaustiveness_checks(steps: &Vec<WorkflowStep>) -> (r: Vec<ExhaustivenessCheck>)
    ensures
        check_list(r@) == pipe_checks(workflow_macro::pipe(steps@), steps@.len()),
{
    let mut out: Vec<ExhaustivenessCheck> = Vec::new();
    proof {
        assert(check_list(out@) =~= seq![]);
    }
    push_checks(steps, &mut out);
    proof {
        assert(Seq::<CheckSpec>::empty() + pipe_checks(
            workflow_macro::pipe(steps@),
            steps@.len(),
        ) =~= pipe_checks(workflow_macro::pipe(steps@), steps@.len()));
    }
    out
}

/// The first of every pair.
pub open spec fn firsts(a: Seq<(Seq<char>, Seq<char>)>) -> Seq<Seq<char>> {
    Seq::new(a.len(), |i: int| a[i].0)
}

/// The tasks whose dependencies are checked before anything is registered: those of the
/// pipeline, then the key functions, each once.
pub open spec fn checked_tasks(steps: Seq<PipeStep>) -> Seq<Seq<char>> {
    let all = workflow_macro::task_refs(steps, steps.len()) + firsts(
        workflow_macro::route_aliases(steps, steps.len()),
    );
    route_builder::lacking(all, seq![], all.len())
}

/// What is generated for a workflow.
pub struct GeneratedWorkflow {
    /// The tasks to register, in order.
    pub registered: Vec<String>,
    /// The key functions to register under ids of their own, in order.
    pub aliases: Vec<(String, String)>,
    /// The tasks whose dependencies are checked before.
    pub checked: Vec<String>,
    /// The compile-time checks.
    pub checks: Vec<ExhaustivenessCheck>,
    /// The calls on the builder.
    pub calls: Vec<Call>,
}

/// The contents of a [`GeneratedWorkflow`].
pub struct GeneratedSpec {
    pub registered: Seq<Seq<char>>,
    pub aliases: Seq<(Seq<char>, Seq<char>)>,
    pub checked: Seq<Seq<char>>,
    pub checks: Seq<CheckSpec>,
    pub calls: Seq<CallSpec>,
}

impl View for GeneratedWorkflow {
    type V = GeneratedSpec;

    open spec fn view(&self) -> GeneratedSpec {
        GeneratedSpec {
            registered: text::texts(self.registered@),
            aliases: workflow_macro::name_pairs(self.aliases@),
            checked: text::texts(self.checked@),
            checks: check_list(self.checks@),
            calls: calls(self.calls@),
        }
    }
}

/// What is generated for a workflow of these steps.
pub open spec fn generated(steps: Seq<PipeStep>) -> Result<GeneratedSpec, ChainFault> {
    match chain_calls(steps, 0) {
        Err(f) => Err(f),
        Ok(calls) => Ok(
            GeneratedSpec {
                registered: workflow_macro::task_refs(steps, steps.len()),
                aliases: workflow_macro::route_aliases(steps, steps.len()),
                checked: checked_tasks(steps),
                checks: pipe_checks(steps, steps.len()),
                calls,
            },
        ),
    }
}

/// The texts of a list, each once.
fn unique_texts(all: &Vec<String>) -> (r: Vec<String>)
    ensures
        text::texts(r@) == route_builder::lacking(text::texts(all@), seq![], all@.len()),
{
    let ghost s = text::texts(all@);
    let mut out: Vec<String> = Vec::new();
    let mut i: usize = 0;
    proof {
        assert(text::texts(out@) =~= seq![]);
    }
    while i < all.len()
        invariant
            i <= all@.len(),
            s == text::texts(all@),
            text::texts(out@) == route_builder::lacking(s, seq![], i as nat),
        decreases all@.len() - i,
    {
        proof {
            assert(!Seq::<Seq<char>>::empty().contains(s[i as int]));
        }
        if !contains_text(&out, all[i].as_str()) {
            let t = all[i].clone();
            proof {
                text::lemma_texts_push(out@, t);
            }
            out.push(t);
        }
        i = i + 1;
    }
    out
}

/// What is generated for a workflow of these steps.
pub fn generate(steps: &Vec<WorkflowStep>) -> (r: Result<GeneratedWorkflow, ChainFault>)
    ensures
        match generated(workflow_macro::pipe(steps@)) {
            Err(f) => r is Err && r->Err_0 == f,
            Ok(g) => r is Ok && r->Ok_0@ == g,
        },
{
    let made = match gen_step_chain(steps) {
        Ok(c) => c,
        Err(f) => {
            return Err(f);
        },
    };
    let registered = collect_task_refs(steps);
    let aliases = collect_route_aliases(steps);
    let mut all = clone_texts(&registered);
    let ghost names = firsts(workflow_macro::name_pairs(aliases@));
    let ghost refs = text::texts(registered@);
    let mut i: usize = 0;
    proof {
        assert(refs + names.take(0) =~= refs);
    }
    while i < aliases.len()
        invariant
            i <= aliases@.len(),
            names == firsts(workflow_macro::name_pairs(aliases@)),
            text::texts(all@) == refs + names.take(i as int),
        decreases aliases@.len() - i,
    {
        let t = aliases[i].0.clone();
        proof {
            text::lemma_texts_push(all@, t);
            assert(refs + names.take(i + 1) =~= (refs + names.take(i as int)).push(t@));
        }
        all.push(t);
        i = i + 1;
    }
    proof {
        assert(names.take(i as int) =~= names);
    }
    let checked = unique_texts(&all);
    let checks = collect_exhaustiveness_checks(steps);
    Ok(GeneratedWorkflow { registered, aliases, checked, checks, calls: made })
}

} // verus!
