//! What the `workflow!` macro makes of a pipeline: the calls on a builder, and the
//! tasks to register before.
//!
//! Fragments of Rust code (expressions, types and paths) stand for themselves as the
//! place of their first token and their number of tokens.
use crate::duration_lit::DurationLit;
use crate::stored::key_fn_id;
use crate::text;
use crate::tree;
use vstd::prelude::*;

verus! {

/// A piece of Rust code: the place of its first token, and its number of tokens.
#[derive(Debug, Clone, Copy, PartialEq, Eq, Structural)]
pub struct Fragment {
    /// Place of the first token.
    pub first: usize,
    /// Number of tokens.
    pub len: usize,
}

/// The key of an arm of a route.
pub enum BranchArmKey {
    /// A string literal.
    Literal(String),
    /// A variant of the key type.
    Variant(String),
}

/// A step of a pipeline. `span` is the place of the token that it starts with.
#[allow(inconsistent_fields)]
pub enum WorkflowStep {
    /// A task by the name of its struct.
    TaskRef {
        /// Name of the struct.
        struct_name: String,
        /// Place.
        span: usize,
    },
    /// A task with a body of its own.
    InlineTask {
        /// Task id.
        name: String,
        /// Name of the parameter.
        param_name: String,
        /// Type of the parameter.
        param_type: Fragment,
        /// The body.
        body: Fragment,
        /// Place.
        span: usize,
    },
    /// Steps that run in parallel.
    Parallel {
        /// The steps.
        branches: Vec<WorkflowStep>,
        /// Place.
        span: usize,
    },
    /// A durable delay.
    Delay {
        /// Node id.
        id: String,
        /// How long to wait.
        duration: DurationLit,
        /// Place.
        span: usize,
    },
    /// A wait for an external signal.
    AwaitSignal {
        /// Node id.
        id: String,
        /// Name of the signal.
        signal_name: String,
        /// How long to wait at most.
        timeout: Option<DurationLit>,
        /// Place.
        span: usize,
    },
    /// A loop over one task.
    Loop {
        /// Name of the struct of the body task.
        body: String,
        /// Maximum number of iterations, as it was written.
        max_iterations: String,
        /// Whether the loop exits with the last value at the maximum, or fails.
        exit_with_last: bool,
        /// Place.
        span: usize,
    },
    /// A child workflow.
    Flow {
        /// The expression that makes it.
        expr: Fragment,
        /// Place.
        span: usize,
    },
    /// A conditional branch on a routing key.
    Route {
        /// Node id (`branch_0`, `branch_1`, …).
        id: String,
        /// Name of the struct of the key function.
        key_fn: String,
        /// Type of the key, where it is typed.
        key_type: Option<Fragment>,
        /// The arms by key.
        branches: Vec<(BranchArmKey, Vec<WorkflowStep>)>,
        /// The arm for keys without one.
        default: Option<Vec<WorkflowStep>>,
        /// Place.
        span: usize,
    },
}

/// The contents of a [`BranchArmKey`].
pub enum ArmKey {
    Literal(Seq<char>),
    Variant(Seq<char>),
}

impl View for BranchArmKey {
    type V = ArmKey;

    open spec fn view(&self) -> ArmKey {
        match *self {
            BranchArmKey::Literal(s) => ArmKey::Literal(s@),
            BranchArmKey::Variant(s) => ArmKey::Variant(s@),
        }
    }
}

/// The contents of a [`WorkflowStep`].
#[allow(inconsistent_fields)]
pub enum PipeStep {
    TaskRef { struct_name: Seq<char>, span: usize },
    InlineTask {
        name: Seq<char>,
        param_name: Seq<char>,
        param_type: Fragment,
        body: Fragment,
        span: usize,
    },
    Parallel { branches: Seq<PipeStep>, span: usize },
    Delay { id: Seq<char>, duration: DurationLit, span: usize },
    AwaitSignal {
        id: Seq<char>,
        signal_name: Seq<char>,
        timeout: Option<DurationLit>,
        span: usize,
    },
    Loop { body: Seq<char>, max_iterations: Seq<char>, exit_with_last: bool, span: usize },
    Flow { expr: Fragment, span: usize },
    Route {
        id: Seq<char>,
        key_fn: Seq<char>,
        key_type: Option<Fragment>,
        branches: Seq<(ArmKey, Seq<PipeStep>)>,
        default: Option<Seq<PipeStep>>,
        span: usize,
    },
}

impl WorkflowStep {
    /// What the step says.
    pub open spec fn step(self) -> PipeStep
        decreases self,
    {
        match self {
            WorkflowStep::TaskRef { struct_name, span } => PipeStep::TaskRef {
                struct_name: struct_name@,
                span,
            },
            WorkflowStep::InlineTask { name, param_name, param_type, body, span } =>
                PipeStep::InlineTask {
                name: name@,
                param_name: param_name@,
                param_type,
                body,
                span,
            },
            WorkflowStep::Parallel { branches, span } => PipeStep::Parallel {
                branches: Seq::new(
                    branches@.len(),
                    |i: int|
                        if 0 <= i < branches@.len() {
                            branches@[i].step()
                        } else {
                            arbitrary()
                        },
                ),
                span,
            },
            WorkflowStep::Delay { id, duration, span } => PipeStep::Delay {
                id: id@,
                duration,
                span,
            },
            WorkflowStep::AwaitSignal { id, signal_name, timeout, span } => PipeStep::AwaitSignal {
                id: id@,
                signal_name: signal_name@,
                timeout,
                span,
            },
            WorkflowStep::Loop { body, max_iterations, exit_with_last, span } => PipeStep::Loop {
                body: body@,
                max_iterations: max_iterations@,
                exit_with_last,
                span,
            },
            WorkflowStep::Flow { expr, span } => PipeStep::Flow { expr, span },
            WorkflowStep::Route { id, key_fn, key_type, branches, default, span } =>
                PipeStep::Route {
                id: id@,
                key_fn: key_fn@,
                key_type,
                branches: Seq::new(
                    branches@.len(),
                    |i: int|
                        if 0 <= i < branches@.len() {
                            (
                                branches@[i].0@,
                                Seq::new(
                                    branches@[i].1@.len(),
                                    |j: int|
                                        if 0 <= j < branches@[i].1@.len() {
                                            branches@[i].1@[j].step()
                                        } else {
                                            arbitrary()
                                        },
                                ),
                            )
                        } else {
                            arbitrary()
                        },
                ),
                default: match default {
                    Some(d) => Some(
                        Seq::new(
                            d@.len(),
                            |j: int|
                                if 0 <= j < d@.len() {
                                    d@[j].step()
                                } else {
                                    arbitrary()
                                },
                        ),
                    ),
                    None => None,
                },
                span,
            },
        }
    }
}

/// The contents of a list of steps.
pub open spec fn pipe(v: Seq<WorkflowStep>) -> Seq<PipeStep> {
    Seq::new(v.len(), |i: int| v[i].step())
}

/// The contents of a list of arms.
pub open spec fn arm_pipes(v: Seq<(BranchArmKey, Vec<WorkflowStep>)>) -> Seq<
    (ArmKey, Seq<PipeStep>),
> {
    Seq::new(v.len(), |i: int| (v[i].0@, pipe(v[i].1@)))
}

/// The contents of an optional pipeline.
pub open spec fn opt_pipe(o: Option<Vec<WorkflowStep>>) -> Option<Seq<PipeStep>> {
    match o {
        Some(v) => Some(pipe(v@)),
        None => None,
    }
}

/// What a route says, in terms of its arms.
pub proof fn lemma_route(s: WorkflowStep)
    requires
        s is Route,
    ensures
        s.step()->Route_branches == arm_pipes(s->Route_branches@),
        s.step()->Route_default == opt_pipe(s->Route_default),
{
    let b = s->Route_branches@;
    assert forall|i: int| 0 <= i < b.len() implies #[trigger] s.step()->Route_branches[i] == (
        b[i].0@,
        pipe(b[i].1@),
    ) by {
        assert(s.step()->Route_branches[i].1 =~= pipe(b[i].1@));
    }
    assert(s.step()->Route_branches =~= arm_pipes(b));
    if let Some(d) = s->Route_default {
        assert(s.step()->Route_default->0 =~= pipe(d@));
    }
}

/// What a fork says, in terms of its steps.
pub proof fn lemma_parallel(s: WorkflowStep)
    requires
        s is Parallel,
    ensures
        s.step()->Parallel_branches == pipe(s->Parallel_branches@),
{
    assert(s.step()->Parallel_branches =~= pipe(s->Parallel_branches@));
}

impl WorkflowStep {
    /// The place of the token that the step starts with.
    pub fn span(&self) -> (r: usize)
        ensures
            r == span_of(self.step()),
    {
        match self {
            WorkflowStep::TaskRef { span, .. } => *span,
            WorkflowStep::InlineTask { span, .. } => *span,
            WorkflowStep::Parallel { span, .. } => *span,
            WorkflowStep::Delay { span, .. } => *span,
            WorkflowStep::AwaitSignal { span, .. } => *span,
            WorkflowStep::Loop { span, .. } => *span,
            WorkflowStep::Flow { span, .. } => *span,
            WorkflowStep::Route { span, .. } => *span,
        }
    }
}

/// The place of the token that a step starts with.
pub open spec fn span_of(s: PipeStep) -> usize {
    match s {
        PipeStep::TaskRef { span, .. } => span,
        PipeStep::InlineTask { span, .. } => span,
        PipeStep::Parallel { span, .. } => span,
        PipeStep::Delay { span, .. } => span,
        PipeStep::AwaitSignal { span, .. } => span,
        PipeStep::Loop { span, .. } => span,
        PipeStep::Flow { span, .. } => span,
        PipeStep::Route { span, .. } => span,
    }
}

/// The names of the structs of the tasks that a step uses. A route names its key function
/// before its arms, and the default arm last.
pub open spec fn refs_of(s: PipeStep) -> Seq<Seq<char>>
    decreases s, 0nat,
{
    match s {
        PipeStep::TaskRef { struct_name, .. } => seq![struct_name],
        PipeStep::Parallel { branches, .. } => task_refs(branches, branches.len()),
        PipeStep::Route { key_fn, branches, default, .. } => seq![key_fn] + arm_refs(
            branches,
            branches.len(),
        ) + (match default {
            Some(d) => task_refs(d, d.len()),
            None => seq![],
        }),
        PipeStep::Loop { body, .. } => seq![body],
        _ => seq![],
    }
}

/// The names of the structs of the tasks that the first `k` steps use.
pub open spec fn task_refs(steps: Seq<PipeStep>, k: nat) -> Seq<Seq<char>>
    decreases steps, k,
{
    if k == 0 || k > steps.len() {
        seq![]
    } else {
        task_refs(steps, (k - 1) as nat) + refs_of(steps[k - 1])
    }
}

/// The names of the structs of the tasks that the first `k` arms use.
pub open spec fn arm_refs(arms: Seq<(ArmKey, Seq<PipeStep>)>, k: nat) -> Seq<Seq<char>>
    decreases arms, k,
{
    if k == 0 || k > arms.len() {
        seq![]
    } else {
        arm_refs(arms, (k - 1) as nat) + task_refs(arms[k - 1].1, arms[k - 1].1.len())
    }
}

/// The key functions of the routes of a step, each with the id under which it is
/// registered too.
pub open spec fn aliases_of(s: PipeStep) -> Seq<(Seq<char>, Seq<char>)>
    decreases s, 0nat,
{
    match s {
        PipeStep::Route { id, key_fn, branches, default, .. } => seq![
            (key_fn, tree::key_fn_text(id)),
        ] + arm_aliases(branches, branches.len()) + (match default {
            Some(d) => route_aliases(d, d.len()),
            None => seq![],
        }),
        _ => seq![],
    }
}

/// The key functions of the routes of the first `k` steps. Routes are not looked for
/// inside of forks.
pub open spec fn route_aliases(steps: Seq<PipeStep>, k: nat) -> Seq<(Seq<char>, Seq<char>)>
    decreases steps, k,
{
    if k == 0 || k > steps.len() {
        seq![]
    } else {
        route_aliases(steps, (k - 1) as nat) + aliases_of(steps[k - 1])
    }
}

/// The key functions of the routes of the first `k` arms.
pub open spec fn arm_aliases(arms: Seq<(ArmKey, Seq<PipeStep>)>, k: nat) -> Seq<
    (Seq<char>, Seq<char>),
>
    decreases arms, k,
{
    if k == 0 || k > arms.len() {
        seq![]
    } else {
        arm_aliases(arms, (k - 1) as nat) + route_aliases(arms[k - 1].1, arms[k - 1].1.len())
    }
}

/// Append the names of the structs of the tasks that steps use.
fn push_task_refs(steps: &Vec<WorkflowStep>, out: &mut Vec<String>)
    ensures
        text::texts(final(out)@) == text::texts(old(out)@) + task_refs(
            pipe(steps@),
            steps@.len(),
        ),
    decreases steps@,
{
    let ghost start = text::texts(out@);
    let ghost p = pipe(steps@);
    let mut i: usize = 0;
    proof {
        assert(start + task_refs(p, 0) =~= start);
    }
    while i < steps.len()
        invariant
            i <= steps@.len(),
            p == pipe(steps@),
            text::texts(out@) == start + task_refs(p, i as nat),
        decreases steps@.len() - i,
    {
        let ghost before = text::texts(out@);
        let ghost here = steps@[i as int];
        proof {
            reveal_with_fuel(refs_of, 2);
            reveal_with_fuel(task_refs, 2);
            assert(decreases_to!(steps@ => steps@[i as int]));
        }
        match &steps[i] {
            WorkflowStep::TaskRef { struct_name, .. } => {
                let t = struct_name.clone();
                proof {
                    text::lemma_texts_push(out@, t);
                    assert(before.push(t@) =~= before + refs_of(p[i as int]));
                }
                out.push(t);
            },
            WorkflowStep::Loop { body, .. } => {
                let t = body.clone();
                proof {
                    text::lemma_texts_push(out@, t);
                    assert(before.push(t@) =~= before + refs_of(p[i as int]));
                }
                out.push(t);
            },
            WorkflowStep::Parallel { branches, .. } => {
                proof {
                    lemma_parallel(here);
                    assert(decreases_to!(here => here->Parallel_branches));
                    assert(decreases_to!(here->Parallel_branches => here->Parallel_branches@));
                }
                push_task_refs(branches, out);
            },
            WorkflowStep::Route { key_fn, branches, default, .. } => {
                let t = key_fn.clone();
                proof {
                    lemma_route(here);
                    text::lemma_texts_push(out@, t);
                }
                out.push(t);
                let ghost keyed = text::texts(out@);
                let ghost arms = arm_pipes(branches@);
                let mut j: usize = 0;
                proof {
                    assert(decreases_to!(here => here->Route_branches));
                    assert(decreases_to!(here->Route_branches => here->Route_branches@));
                    assert(keyed + arm_refs(arms, 0) =~= keyed);
                }
                while j < branches.len()
                    invariant
                        j <= branches@.len(),
                        arms == arm_pipes(branches@),
                        text::texts(out@) == keyed + arm_refs(arms, j as nat),
                        decreases_to!(steps@ => branches@),
                    decreases branches@.len() - j,
                {
                    let ghost so_far = text::texts(out@);
                    proof {
                        assert(decreases_to!(branches@ => branches@[j as int]));
                        assert(decreases_to!(branches@[j as int] => branches@[j as int].1));
                        assert(decreases_to!(branches@[j as int].1 => branches@[j as int].1@));
                    }
                    push_task_refs(&branches[j].1, out);
                    proof {
                        reveal_with_fuel(arm_refs, 2);
                        assert(text::texts(out@) =~= keyed + arm_refs(arms, (j + 1) as nat));
                    }
                    j = j + 1;
                }
                if let Some(d) = default {
                    proof {
                        assert(decreases_to!(here => here->Route_default));
                        assert(decreases_to!(here->Route_default => here->Route_default->0));
                        assert(decreases_to!(here->Route_default->0 => d@));
                    }
                    push_task_refs(d, out);
                }
                proof {
                    assert(text::texts(out@) =~= before + refs_of(p[i as int]));
                }
            },
            _ => {
                proof {
                    assert(before =~= before + refs_of(p[i as int]));
                }
            },
        }
        proof {
            assert(text::texts(out@) =~= start + task_refs(p, (i + 1) as nat));
        }
        i = i + 1;
    }
}

/// The names of the structs of the tasks that a pipeline uses, in order.
pub fn collect_task_refs(steps: &Vec<WorkflowStep>) -> (r: Vec<String>)
    ensures
        text::texts(r@) == task_refs(pipe(steps@), steps@.len()),
{
    let mut out: Vec<String> = Vec::new();
    proof {
        assert(text::texts(out@) =~= seq![]);
    }
    push_task_refs(steps, &mut out);
    proof {
        assert(Seq::<Seq<char>>::empty() + task_refs(pipe(steps@), steps@.len()) =~= task_refs(
            pipe(steps@),
            steps@.len(),
        ));
    }
    out
}

/// The contents of a list of pairs of names.
pub open spec fn name_pairs(v: Seq<(String, String)>) -> Seq<(Seq<char>, Seq<char>)> {
    Seq::new(v.len(), |i: int| (v[i].0@, v[i].1@))
}

/// Append the key functions of the routes of steps.
fn push_route_aliases(steps: &Vec<WorkflowStep>, out: &mut Vec<(String, String)>)
    ensures
        name_pairs(final(out)@) == name_pairs(old(out)@) + route_aliases(
            pipe(steps@),
            steps@.len(),
        ),
    decreases steps@,
{
    let ghost start = name_pairs(out@);
    let ghost p = pipe(steps@);
    let mut i: usize = 0;
    proof {
        assert(start + route_aliases(p, 0) =~= start);
    }
    while i < steps.len()
        invariant
            i <= steps@.len(),
            p == pipe(steps@),
            name_pairs(out@) == start + route_aliases(p, i as nat),
        decreases steps@.len() - i,
    {
        let ghost before = name_pairs(out@);
        let ghost here = steps@[i as int];
        proof {
            reveal_with_fuel(aliases_of, 2);
            reveal_with_fuel(route_aliases, 2);
            assert(decreases_to!(steps@ => steps@[i as int]));
        }
        match &steps[i] {
            WorkflowStep::Route { id, key_fn, branches, default, .. } => {
                let t = (key_fn.clone(), key_fn_id(id.as_str()));
                proof {
                    lemma_route(here);
                }
                out.push(t);
                let ghost keyed = name_pairs(out@);
                proof {
                    assert(keyed =~= before.push((t.0@, t.1@)));
                }
                let ghost arms = arm_pipes(branches@);
                let mut j: usize = 0;
                proof {
                    assert(decreases_to!(here => here->Route_branches));
                    assert(decreases_to!(here->Route_branches => here->Route_branches@));
                    assert(keyed + arm_aliases(arms, 0) =~= keyed);
                }
                while j < branches.len()
                    invariant
                        j <= branches@.len(),
                        arms == arm_pipes(branches@),
                        name_pairs(out@) == keyed + arm_aliases(arms, j as nat),
                        decreases_to!(steps@ => branches@),
                    decreases branches@.len() - j,
                {
                    proof {
                        assert(decreases_to!(branches@ => branches@[j as int]));
                        assert(decreases_to!(branches@[j as int] => branches@[j as int].1));
                        assert(decreases_to!(branches@[j as int].1 => branches@[j as int].1@));
                    }
                    push_route_aliases(&branches[j].1, out);
                    proof {
                        reveal_with_fuel(arm_aliases, 2);
                        assert(name_pairs(out@) =~= keyed + arm_aliases(arms, (j + 1) as nat));
                    }
                    j = j + 1;
                }
                if let Some(d) = default {
                    proof {
                        assert(decreases_to!(here => here->Route_default));
                        assert(decreases_to!(here->Route_default => here->Route_default->0));
                        assert(decreases_to!(here->Route_default->0 => d@));
                    }
                    push_route_aliases(d, out);
                }
                proof {
                    assert(name_pairs(out@) =~= before + aliases_of(p[i as int]));
                }
            },
            _ => {
                proof {
                    assert(before =~= before + aliases_of(p[i as int]));
                }
            },
        }
        proof {
            assert(name_pairs(out@) =~= start + route_aliases(p, (i + 1) as nat));
        }
        i = i + 1;
    }
}

/// The key functions of the routes of a pipeline, each with the id under which it is
/// registered too.
pub fn collect_route_aliases(steps: &Vec<WorkflowStep>) -> (r: Vec<(String, String)>)
    ensures
        name_pairs(r@) == route_aliases(pipe(steps@), steps@.len()),
{
    let mut out: Vec<(String, String)> = Vec::new();
    proof {
        assert(name_pairs(out@) =~= seq![]);
    }
    push_route_aliases(steps, &mut out);
    proof {
        assert(Seq::<(Seq<char>, Seq<char>)>::empty() + route_aliases(
            pipe(steps@),
            steps@.len(),
        ) =~= route_aliases(pipe(steps@), steps@.len()));
    }
    out
}

} // verus!
