//! Continuation builder for callers that describe a workflow step by step.
//!
//! A [`FlowBuilder`] collects [`BuilderTask`]s; [`build_continuation`] makes the
//! continuation tree of them.
use crate::continuation;
use crate::continuation::WorkflowContinuation;
use crate::duration::Duration;
use crate::error::{BuildError, Fault};
use crate::priority;
use crate::string_map;
use crate::string_map::StringMap;
use crate::task::{clone_opt_retry, Meta, TaskHandle, TaskMetadata};
use crate::text;
use crate::text::{clone_opt_text, clone_texts, concat, decimal_text};
use crate::tree::Node;
use crate::workflow::MaxIterationsPolicy;
use std::sync::Arc;
use vstd::prelude::*;

verus! {

/// A step of a workflow that is being built.
#[allow(inconsistent_fields)]
pub enum BuilderTask {
    /// A single task.
    Sequential {
        /// Task id.
        task_id: String,
        /// Metadata of the task.
        metadata: TaskMetadata,
    },
    /// Parallel chains of tasks and a join.
    Fork {
        /// The chains.
        branches: Vec<Vec<(String, TaskMetadata)>>,
        /// Id of the join task.
        join_id: String,
        /// Metadata of the join task.
        join_metadata: TaskMetadata,
    },
    /// A durable delay.
    Delay {
        /// Delay id.
        delay_id: String,
        /// How long to wait.
        duration: Duration,
    },
    /// A wait for an external signal.
    AwaitSignal {
        /// Node id.
        signal_id: String,
        /// Name of the signal.
        signal_name: String,
        /// How long to wait at most.
        timeout: Option<Duration>,
    },
    /// A conditional branch.
    Branch {
        /// Branch id.
        branch_id: String,
        /// The chains by key.
        branches: Vec<(String, Vec<(String, TaskMetadata)>)>,
        /// The chain for keys without one.
        default: Option<Vec<(String, TaskMetadata)>>,
    },
    /// A loop over one task.
    Loop {
        /// Loop id.
        loop_id: String,
        /// Id of the body task.
        body_task_id: String,
        /// Metadata of the body task.
        body_metadata: TaskMetadata,
        /// Maximum number of iterations.
        max_iterations: u32,
        /// What to do at the maximum.
        on_max: MaxIterationsPolicy,
    },
    /// An inlined child workflow.
    ChildWorkflow {
        /// Node id.
        child_id: String,
        /// The steps of the child.
        child_tasks: Vec<BuilderTask>,
    },
}

/// The contents of a [`BuilderTask`].
#[allow(inconsistent_fields)]
pub enum Step {
    Sequential { task_id: Seq<char>, metadata: Meta },
    Fork { branches: Seq<Seq<(Seq<char>, Meta)>>, join_id: Seq<char>, join_metadata: Meta },
    Delay { delay_id: Seq<char>, duration: Duration },
    AwaitSignal { signal_id: Seq<char>, signal_name: Seq<char>, timeout: Option<Duration> },
    Branch {
        branch_id: Seq<char>,
        branches: Seq<(Seq<char>, Seq<(Seq<char>, Meta)>)>,
        default: Option<Seq<(Seq<char>, Meta)>>,
    },
    Loop {
        loop_id: Seq<char>,
        body_task_id: Seq<char>,
        body_metadata: Meta,
        max_iterations: u32,
        on_max: MaxIterationsPolicy,
    },
    ChildWorkflow { child_id: Seq<char>, child_tasks: Seq<Step> },
}

/// The contents of a chain of tasks.
pub open spec fn chain_of(v: Seq<(String, TaskMetadata)>) -> Seq<(Seq<char>, Meta)> {
    Seq::new(v.len(), |i: int| (v[i].0@, v[i].1@))
}

/// The contents of a list of chains.
pub open spec fn chains_of(v: Seq<Vec<(String, TaskMetadata)>>) -> Seq<Seq<(Seq<char>, Meta)>> {
    Seq::new(v.len(), |i: int| chain_of(v[i]@))
}

/// The contents of a list of chains with keys.
pub open spec fn keyed_chains_of(v: Seq<(String, Vec<(String, TaskMetadata)>)>) -> Seq<
    (Seq<char>, Seq<(Seq<char>, Meta)>),
> {
    Seq::new(v.len(), |i: int| (v[i].0@, chain_of(v[i].1@)))
}

/// The contents of an optional chain.
pub open spec fn opt_chain_of(o: Option<Vec<(String, TaskMetadata)>>) -> Option<
    Seq<(Seq<char>, Meta)>,
> {
    match o {
        Some(v) => Some(chain_of(v@)),
        None => None,
    }
}

impl BuilderTask {
    /// What the step says.
    pub open spec fn step(self) -> Step
        decreases self,
    {
        match self {
            BuilderTask::Sequential { task_id, metadata } => Step::Sequential {
                task_id: task_id@,
                metadata: metadata@,
            },
            BuilderTask::Fork { branches, join_id, join_metadata } => Step::Fork {
                branches: chains_of(branches@),
                join_id: join_id@,
                join_metadata: join_metadata@,
            },
            BuilderTask::Delay { delay_id, duration } => Step::Delay {
                delay_id: delay_id@,
                duration,
            },
            BuilderTask::AwaitSignal { signal_id, signal_name, timeout } => Step::AwaitSignal {
                signal_id: signal_id@,
                signal_name: signal_name@,
                timeout,
            },
            BuilderTask::Branch { branch_id, branches, default } => Step::Branch {
                branch_id: branch_id@,
                branches: keyed_chains_of(branches@),
                default: opt_chain_of(default),
            },
            BuilderTask::Loop { loop_id, body_task_id, body_metadata, max_iterations, on_max } =>
                Step::Loop {
                loop_id: loop_id@,
                body_task_id: body_task_id@,
                body_metadata: body_metadata@,
                max_iterations,
                on_max,
            },
            BuilderTask::ChildWorkflow { child_id, child_tasks } => Step::ChildWorkflow {
                child_id: child_id@,
                child_tasks: Seq::new(
                    child_tasks@.len(),
                    |i: int|
                        if 0 <= i < child_tasks@.len() {
                            child_tasks@[i].step()
                        } else {
                            arbitrary()
                        },
                ),
            },
        }
    }
}

/// The contents of a list of steps.
pub open spec fn steps(v: Seq<BuilderTask>) -> Seq<Step> {
    Seq::new(v.len(), |i: int| v[i].step())
}

/// The node of a task with its implementation and metadata.
pub open spec fn task_node(
    id: Seq<char>,
    func: Option<TaskHandle>,
    m: Meta,
    next: Option<Box<Node>>,
) -> Node {
    Node::Task {
        id,
        func,
        timeout: m.timeout,
        retry: m.retries,
        version: m.version,
        priority: match m.priority {
            Some(p) => Some(priority::rank(p)),
            None => None,
        },
        tags: m.tags,
        next,
    }
}

/// The tree of a chain from its `i`-th task on.
pub open spec fn chain_node(chain: Seq<(Seq<char>, Meta)>, i: nat) -> Option<Box<Node>>
    decreases chain.len() - i,
{
    if i >= chain.len() {
        None
    } else {
        Some(
            Box::new(
                task_node(chain[i as int].0, None, chain[i as int].1, chain_node(chain, i + 1)),
            ),
        )
    }
}

/// The tree of a chain, which must not be empty.
pub open spec fn built_chain(chain: Seq<(Seq<char>, Meta)>) -> Result<Node, Fault> {
    match chain_node(chain, 0) {
        Some(n) => Ok(*n),
        None => Err(Fault::EmptyBranch),
    }
}

/// The trees of the first `k` chains of a list.
pub open spec fn built_chains(s: Seq<Seq<(Seq<char>, Meta)>>, k: nat) -> Result<Seq<Node>, Fault>
    decreases k,
{
    if k == 0 || k > s.len() {
        Ok(seq![])
    } else {
        match built_chains(s, (k - 1) as nat) {
            Err(e) => Err(e),
            Ok(p) => match built_chain(s[k - 1]) {
                Ok(n) => Ok(p.push(n)),
                Err(e) => Err(e),
            },
        }
    }
}

/// The arms of the first `k` chains with keys, in key order. The last of equal keys
/// wins.
pub open spec fn built_arms(s: Seq<(Seq<char>, Seq<(Seq<char>, Meta)>)>, k: nat) -> Result<
    Seq<(Seq<char>, Node)>,
    Fault,
>
    decreases k,
{
    if k == 0 || k > s.len() {
        Ok(seq![])
    } else {
        match built_arms(s, (k - 1) as nat) {
            Err(e) => Err(e),
            Ok(p) => match built_chain(s[k - 1].1) {
                Ok(n) => Ok(string_map::placed(p, s[k - 1].0, n)),
                Err(e) => Err(e),
            },
        }
    }
}

/// The ids of the first tasks of the first `k` chains of a list; empty chains have
/// none.
pub open spec fn head_ids(s: Seq<Seq<(Seq<char>, Meta)>>, k: nat) -> Seq<Seq<char>>
    decreases k,
{
    if k == 0 || k > s.len() {
        seq![]
    } else {
        let p = head_ids(s, (k - 1) as nat);
        if s[k - 1].len() > 0 {
            p.push(s[k - 1][0].0)
        } else {
            p
        }
    }
}

/// The node of a step that is followed by `next`.
pub open spec fn step_node(s: Step, next: Option<Box<Node>>) -> Result<Node, Fault>
    decreases s, 0nat, 0int,
{
    match s {
        Step::Sequential { task_id, metadata } => Ok(task_node(task_id, None, metadata, next)),
        Step::Delay { delay_id, duration } => Ok(Node::Delay { id: delay_id, duration, next }),
        Step::AwaitSignal { signal_id, signal_name, timeout } => Ok(
            Node::AwaitSignal { id: signal_id, signal_name, timeout, next },
        ),
        Step::Fork { branches, join_id, join_metadata } => match built_chains(
            branches,
            branches.len(),
        ) {
            Err(e) => Err(e),
            Ok(b) => Ok(
                Node::Fork {
                    id: text::joined(head_ids(branches, branches.len()), "||"@),
                    branches: b,
                    join: Some(Box::new(task_node(join_id, None, join_metadata, next))),
                },
            ),
        },
        Step::Branch { branch_id, branches, default } => match built_arms(
            branches,
            branches.len(),
        ) {
            Err(e) => Err(e),
            Ok(arms) => match default {
                None => Ok(
                    Node::Branch { id: branch_id, key_fn: None, arms, default: None, next },
                ),
                Some(chain) => match built_chain(chain) {
                    Err(e) => Err(e),
                    Ok(d) => Ok(
                        Node::Branch {
                            id: branch_id,
                            key_fn: None,
                            arms,
                            default: Some(Box::new(d)),
                            next,
                        },
                    ),
                },
            },
        },
        Step::Loop { loop_id, body_task_id, body_metadata, max_iterations, on_max } => if max_iterations
            == 0 {
            Err(Fault::InvalidMaxIterations(loop_id))
        } else {
            Ok(
                Node::Loop {
                    id: loop_id,
                    body: Box::new(task_node(body_task_id, None, body_metadata, None)),
                    max_iterations,
                    on_max,
                    next,
                },
            )
        },
        Step::ChildWorkflow { child_id, child_tasks } => match built(child_tasks) {
            Err(e) => Err(e),
            Ok(c) => Ok(Node::ChildWorkflow { id: child_id, child: Box::new(c), next }),
        },
    }
}

/// The tree of a list of steps from the `i`-th on. A later step is made before an
/// earlier one, so the error of the last faulty step counts.
pub open spec fn built_from(tasks: Seq<Step>, i: nat) -> Result<Option<Box<Node>>, Fault>
    decreases tasks, 1nat, tasks.len() - i,
{
    if i >= tasks.len() {
        Ok(None)
    } else {
        match built_from(tasks, i + 1) {
            Err(e) => Err(e),
            Ok(next) => match step_node(tasks[i as int], next) {
                Ok(n) => Ok(Some(Box::new(n))),
                Err(e) => Err(e),
            },
        }
    }
}

/// The tree of a list of steps, which must not be empty.
pub open spec fn built(tasks: Seq<Step>) -> Result<Node, Fault>
    decreases tasks, 2nat, 0int,
{
    match built_from(tasks, 0) {
        Err(e) => Err(e),
        Ok(Some(n)) => Ok(*n),
        Ok(None) => Err(Fault::EmptyWorkflow),
    }
}

/// A result agrees with the tree or error that is owed.
pub open spec fn agrees(
    r: Result<WorkflowContinuation, BuildError>,
    owed: Result<Node, Fault>,
) -> bool {
    match r {
        Ok(c) => owed is Ok && c.node() == owed->Ok_0,
        Err(e) => owed is Err && e@ == owed->Err_0,
    }
}

/// The node of a task with its implementation and metadata.
pub(crate) fn task_continuation(
    id: &str,
    func: Option<TaskHandle>,
    metadata: &TaskMetadata,
    next: Option<Box<WorkflowContinuation>>,
) -> (r: WorkflowContinuation)
    ensures
        r.node() == task_node(id@, func, metadata@, continuation::opt_node(next)),
{
    WorkflowContinuation::Task {
        id: String::from_str(id),
        func,
        timeout: metadata.timeout,
        retry_policy: clone_opt_retry(&metadata.retries),
        version: clone_opt_text(&metadata.version),
        priority: match metadata.priority {
            Some(p) => Some(p.as_u8()),
            None => None,
        },
        tags: clone_texts(&metadata.tags),
        next,
    }
}

/// Build the chain of a list of tasks. An empty list is an error.
pub fn build_chain(chain: &[(String, TaskMetadata)]) -> (r: Result<
    WorkflowContinuation,
    BuildError,
>)
    ensures
        agrees(r, built_chain(chain_of(chain@))),
{
    let ghost s = chain_of(chain@);
    let mut current: Option<Box<WorkflowContinuation>> = None;
    let mut i: usize = chain.len();
    while i > 0
        invariant
            i <= chain@.len(),
            s == chain_of(chain@),
            continuation::opt_node(current) == chain_node(s, i as nat),
        decreases i,
    {
        i = i - 1;
        let c = task_continuation(chain[i].0.as_str(), None, &chain[i].1, current);
        current = Some(Box::new(c));
    }
    match current {
        Some(c) => Ok(*c),
        None => Err(BuildError::EmptyBranch),
    }
}

/// Build the chains of a fork.
fn build_chains(branches: &Vec<Vec<(String, TaskMetadata)>>) -> (r: Result<
    Vec<Arc<WorkflowContinuation>>,
    BuildError,
>)
    ensures
        match r {
            Ok(v) => built_chains(chains_of(branches@), branches@.len()) == Ok::<
                Seq<Node>,
                Fault,
            >(Seq::new(v@.len(), |i: int| v@[i].node())),
            Err(e) => built_chains(chains_of(branches@), branches@.len()) == Err::<
                Seq<Node>,
                Fault,
            >(e@),
        },
{
    let ghost s = chains_of(branches@);
    let mut out: Vec<Arc<WorkflowContinuation>> = Vec::new();
    let mut i: usize = 0;
    proof {
        assert(Seq::new(out@.len(), |j: int| out@[j].node()) =~= seq![]);
    }
    while i < branches.len()
        invariant
            i <= branches@.len(),
            s == chains_of(branches@),
            built_chains(s, i as nat) == Ok::<Seq<Node>, Fault>(
                Seq::new(out@.len(), |j: int| out@[j].node()),
            ),
        decreases branches@.len() - i,
    {
        match build_chain(branches[i].as_slice()) {
            Ok(c) => {
                let ghost before = Seq::new(out@.len(), |j: int| out@[j].node());
                let ghost n = c.node();
                out.push(Arc::new(c));
                proof {
                    assert(Seq::new(out@.len(), |j: int| out@[j].node()) =~= before.push(n));
                }
            },
            Err(e) => {
                proof {
                    assert(built_chains(s, (i + 1) as nat) == Err::<Seq<Node>, Fault>(e@));
                    lemma_chains_error(s, (i + 1) as nat, s.len());
                }
                return Err(e);
            },
        }
        i = i + 1;
    }
    Ok(out)
}

/// An error among the first chains is the error of all.
proof fn lemma_chains_error(s: Seq<Seq<(Seq<char>, Meta)>>, i: nat, k: nat)
    requires
        i <= k <= s.len(),
        built_chains(s, i) is Err,
    ensures
        built_chains(s, k) == built_chains(s, i),
    decreases k,
{
    if i < k {
        lemma_chains_error(s, i, (k - 1) as nat);
    }
}

/// An error among the first arms is the error of all.
proof fn lemma_arms_error(s: Seq<(Seq<char>, Seq<(Seq<char>, Meta)>)>, i: nat, k: nat)
    requires
        i <= k <= s.len(),
        built_arms(s, i) is Err,
    ensures
        built_arms(s, k) == built_arms(s, i),
    decreases k,
{
    if i < k {
        lemma_arms_error(s, i, (k - 1) as nat);
    }
}

/// Putting a value under a key and taking the trees of the values commute.
proof fn lemma_placed_nodes(
    s: Seq<(Seq<char>, Box<WorkflowContinuation>)>,
    k: Seq<char>,
    v: Box<WorkflowContinuation>,
)
    ensures
        string_map::placed(s, k, v).map_values(
            |e: (Seq<char>, Box<WorkflowContinuation>)| (e.0, e.1.node()),
        ) == string_map::placed(
            s.map_values(|e: (Seq<char>, Box<WorkflowContinuation>)| (e.0, e.1.node())),
            k,
            v.node(),
        ),
    decreases s.len(),
{
    let f = |e: (Seq<char>, Box<WorkflowContinuation>)| (e.0, e.1.node());
    let t = s.map_values(f);
    let l = string_map::placed(s, k, v).map_values(f);
    let r = string_map::placed(t, k, v.node());
    if s.len() == 0 {
        assert(l =~= r);
    } else {
        assert(t.drop_first() =~= s.drop_first().map_values(f));
        if s[0].0 == k {
            assert(l =~= r);
        } else if string_map::key_less(k, s[0].0) {
            assert(l =~= r);
        } else {
            lemma_placed_nodes(s.drop_first(), k, v);
            assert(l =~= seq![t[0]] + string_map::placed(s.drop_first(), k, v).map_values(f));
            assert(l =~= r);
        }
    }
}

/// The arms of a map in which a tree was put under a key.
pub proof fn lemma_placed_arms(
    before: Seq<(String, Box<WorkflowContinuation>)>,
    after: Seq<(String, Box<WorkflowContinuation>)>,
    k: Seq<char>,
    v: Box<WorkflowContinuation>,
)
    requires
        string_map::keyed(after) == string_map::placed(string_map::keyed(before), k, v),
    ensures
        continuation::arm_nodes(after) == string_map::placed(
            continuation::arm_nodes(before),
            k,
            v.node(),
        ),
{
    let f = |e: (Seq<char>, Box<WorkflowContinuation>)| (e.0, e.1.node());
    assert(continuation::arm_nodes(before) =~= string_map::keyed(before).map_values(f));
    assert(continuation::arm_nodes(after) =~= string_map::keyed(after).map_values(f));
    lemma_placed_nodes(string_map::keyed(before), k, v);
}

/// Build the arms of a branch.
fn build_arms(branches: &Vec<(String, Vec<(String, TaskMetadata)>)>) -> (r: Result<
    StringMap<Box<WorkflowContinuation>>,
    BuildError,
>)
    ensures
        match r {
            Ok(m) => built_arms(keyed_chains_of(branches@), branches@.len()) == Ok::<
                Seq<(Seq<char>, Node)>,
                Fault,
            >(continuation::arm_nodes(m.entries())),
            Err(e) => built_arms(keyed_chains_of(branches@), branches@.len()) == Err::<
                Seq<(Seq<char>, Node)>,
                Fault,
            >(e@),
        },
{
    let ghost s = keyed_chains_of(branches@);
    let mut out: StringMap<Box<WorkflowContinuation>> = StringMap::new();
    let mut i: usize = 0;
    proof {
        assert(continuation::arm_nodes(out.entries()) =~= seq![]);
    }
    while i < branches.len()
        invariant
            i <= branches@.len(),
            s == keyed_chains_of(branches@),
            built_arms(s, i as nat) == Ok::<Seq<(Seq<char>, Node)>, Fault>(
                continuation::arm_nodes(out.entries()),
            ),
        decreases branches@.len() - i,
    {
        match build_chain(branches[i].1.as_slice()) {
            Ok(c) => {
                let ghost before = out.entries();
                let b = Box::new(c);
                let ghost k = branches@[i as int].0@;
                let ghost put = b;
                out.insert(branches[i].0.clone(), b);
                proof {
                    lemma_placed_arms(before, out.entries(), k, put);
                }
            },
            Err(e) => {
                proof {
                    assert(built_arms(s, (i + 1) as nat) == Err::<
                        Seq<(Seq<char>, Node)>,
                        Fault,
                    >(e@));
                    lemma_arms_error(s, (i + 1) as nat, s.len());
                }
                return Err(e);
            },
        }
        i = i + 1;
    }
    Ok(out)
}

/// The ids of the first tasks of the chains of a fork.
fn first_ids(branches: &Vec<Vec<(String, TaskMetadata)>>) -> (r: Vec<String>)
    ensures
        text::texts(r@) == head_ids(chains_of(branches@), branches@.len()),
{
    let ghost s = chains_of(branches@);
    let mut out: Vec<String> = Vec::new();
    let mut i: usize = 0;
    proof {
        assert(text::texts(out@) =~= seq![]);
    }
    while i < branches.len()
        invariant
            i <= branches@.len(),
            s == chains_of(branches@),
            text::texts(out@) == head_ids(s, i as nat),
        decreases branches@.len() - i,
    {
        if branches[i].len() > 0 {
            let id = branches[i][0].0.clone();
            proof {
                text::lemma_texts_push(out@, id);
            }
            out.push(id);
        }
        i = i + 1;
    }
    out
}

/// Build the node of a step that is followed by `next`.
fn build_step(task: &BuilderTask, next: Option<Box<WorkflowContinuation>>) -> (r: Result<
    WorkflowContinuation,
    BuildError,
>)
    ensures
        agrees(r, step_node(task.step(), continuation::opt_node(next))),
    decreases task, 0nat,
{
    match task {
        BuilderTask::Sequential { task_id, metadata } => Ok(
            task_continuation(task_id.as_str(), None, metadata, next),
        ),
        BuilderTask::Delay { delay_id, duration } => Ok(
            WorkflowContinuation::Delay { id: delay_id.clone(), duration: *duration, next },
        ),
        BuilderTask::AwaitSignal { signal_id, signal_name, timeout } => Ok(
            WorkflowContinuation::AwaitSignal {
                id: signal_id.clone(),
                signal_name: signal_name.clone(),
                timeout: *timeout,
                next,
            },
        ),
        BuilderTask::Fork { branches, join_id, join_metadata } => {
            let ids = first_ids(branches);
            let id = WorkflowContinuation::derive_fork_id(&ids);
            let built_branches = match build_chains(branches) {
                Ok(b) => b,
                Err(e) => {
                    return Err(e);
                },
            };
            let join = task_continuation(join_id.as_str(), None, join_metadata, next);
            let ghost nodes = Seq::new(
                built_branches@.len(),
                |i: int| built_branches@[i].node(),
            );
            let c = WorkflowContinuation::Fork {
                id,
                branches: built_branches,
                join: Some(Box::new(join)),
            };
            proof {
                assert(c.node()->branches =~= nodes);
            }
            Ok(c)
        },
        BuilderTask::Branch { branch_id, branches, default } => {
            let arms = match build_arms(branches) {
                Ok(a) => a,
                Err(e) => {
                    return Err(e);
                },
            };
            let default_arm = match default {
                Some(chain) => match build_chain(chain.as_slice()) {
                    Ok(c) => Some(Box::new(c)),
                    Err(e) => {
                        return Err(e);
                    },
                },
                None => None,
            };
            let c = WorkflowContinuation::Branch {
                id: branch_id.clone(),
                key_fn: None,
                branches: arms,
                default: default_arm,
                next,
            };
            proof {
                continuation::lemma_arms(c);
            }
            Ok(c)
        },
        BuilderTask::Loop { loop_id, body_task_id, body_metadata, max_iterations, on_max } => {
            if *max_iterations == 0 {
                return Err(BuildError::InvalidMaxIterations(loop_id.clone()));
            }
            let body = task_continuation(body_task_id.as_str(), None, body_metadata, None);
            Ok(
                WorkflowContinuation::Loop {
                    id: loop_id.clone(),
                    body: Box::new(body),
                    max_iterations: *max_iterations,
                    on_max: *on_max,
                    next,
                },
            )
        },
        BuilderTask::ChildWorkflow { child_id, child_tasks } => {
            proof {
                assert(steps(child_tasks@) =~= task.step()->child_tasks);
                assert(decreases_to!(task => child_tasks));
                assert(decreases_to!(child_tasks => child_tasks@));
            }
            match build_continuation(child_tasks.as_slice()) {
                Ok(c) => Ok(
                    WorkflowContinuation::ChildWorkflow {
                        id: child_id.clone(),
                        child: Arc::new(c),
                        next,
                    },
                ),
                Err(e) => Err(e),
            }
        },
    }
}

/// Build the continuation tree of a list of steps.
///
/// An empty list is an error, as is an empty chain of a fork or branch, a loop
/// without iterations, and a child workflow without steps.
pub fn build_continuation(tasks: &[BuilderTask]) -> (r: Result<WorkflowContinuation, BuildError>)
    ensures
        agrees(r, built(steps(tasks@))),
    decreases tasks@, 1nat,
{
    let ghost s = steps(tasks@);
    let mut current: Option<Box<WorkflowContinuation>> = None;
    let mut i: usize = tasks.len();
    while i > 0
        invariant
            i <= tasks@.len(),
            s == steps(tasks@),
            built_from(s, i as nat) == Ok::<Option<Box<Node>>, Fault>(
                continuation::opt_node(current),
            ),
        decreases i,
    {
        i = i - 1;
        let ghost after = continuation::opt_node(current);
        proof {
            assert(decreases_to!(tasks@ => tasks@[i as int]));
        }
        match build_step(&tasks[i], current) {
            Ok(c) => {
                current = Some(Box::new(c));
            },
            Err(e) => {
                proof {
                    assert(built_from(s, i as nat) == Err::<Option<Box<Node>>, Fault>(e@));
                    lemma_built_error(s, 0, i as nat);
                }
                return Err(e);
            },
        }
    }
    match current {
        Some(c) => Ok(*c),
        None => Err(BuildError::EmptyWorkflow),
    }
}

/// An error of later steps is the error of all.
proof fn lemma_built_error(tasks: Seq<Step>, k: nat, i: nat)
    requires
        k <= i <= tasks.len(),
        built_from(tasks, i) is Err,
    ensures
        built_from(tasks, k) == built_from(tasks, i),
    decreases i - k,
{
    if k < i {
        lemma_built_error(tasks, k + 1, i);
    }
}

/// A number of seconds that a caller gave.
pub enum Seconds {
    /// A finite number that is not negative, as a duration.
    Valid(Duration),
    /// A number that is negative or not finite.
    Invalid,
}

/// The duration of a number of seconds; `label` names it in the error.
pub fn validate_duration(secs: Seconds, label: &str) -> (r: Result<Duration, BuildError>)
    ensures
        match secs {
            Seconds::Valid(d) => r == Ok::<Duration, BuildError>(d),
            Seconds::Invalid => r is Err && r->Err_0@ == Fault::InvalidDuration(label@),
        },
{
    match secs {
        Seconds::Valid(d) => Ok(d),
        Seconds::Invalid => Err(BuildError::InvalidDuration(String::from_str(label))),
    }
}

/// Collects the steps of a workflow and numbers its lambdas, loops and branches.
pub struct FlowBuilder {
    /// The steps so far.
    pub tasks: Vec<BuilderTask>,
    /// Number of lambda ids given out.
    pub lambda_counter: usize,
    /// Number of loops added.
    pub loop_counter: usize,
    /// Number of branches added.
    pub branch_counter: usize,
}

/// What a [`FlowBuilder`] holds.
pub struct Flow {
    pub tasks: Seq<Step>,
    pub lambdas: nat,
    pub loops: nat,
    pub branches: nat,
}

impl View for FlowBuilder {
    type V = Flow;

    open spec fn view(&self) -> Flow {
        Flow {
            tasks: steps(self.tasks@),
            lambdas: self.lambda_counter as nat,
            loops: self.loop_counter as nat,
            branches: self.branch_counter as nat,
        }
    }
}

/// A builder with one more step.
pub open spec fn with_step(f: Flow, s: Step) -> Flow {
    Flow { tasks: f.tasks.push(s), ..f }
}

/// A list has an empty chain.
pub open spec fn has_empty(s: Seq<Seq<(Seq<char>, Meta)>>) -> bool {
    exists|i: int| 0 <= i < s.len() && (#[trigger] s[i]).len() == 0
}

/// A list of chains with keys has an empty chain.
pub open spec fn has_empty_arm(s: Seq<(Seq<char>, Seq<(Seq<char>, Meta)>)>) -> bool {
    exists|i: int| 0 <= i < s.len() && (#[trigger] s[i]).1.len() == 0
}

/// The id of the `n`-th item with a prefix.
pub open spec fn numbered(prefix: Seq<char>, n: nat) -> Seq<char> {
    prefix + text::decimal(n)
}

/// The id of the `n`-th item with a prefix.
pub fn numbered_id(prefix: &str, n: usize) -> (r: String)
    ensures
        r@ == numbered(prefix@, n as nat),
{
    concat(prefix, decimal_text(n as u128).as_str())
}

impl FlowBuilder {
    /// Create an empty builder.
    pub fn new() -> (r: Self)
        ensures
            r@ == (Flow { tasks: seq![], lambdas: 0, loops: 0, branches: 0 }),
    {
        let r = FlowBuilder {
            tasks: Vec::new(),
            lambda_counter: 0,
            loop_counter: 0,
            branch_counter: 0,
        };
        proof {
            assert(steps(r.tasks@) =~= seq![]);
        }
        r
    }

    /// Append a step.
    fn push(&mut self, task: BuilderTask)
        ensures
            final(self)@ == with_step(old(self)@, task.step()),
    {
        self.tasks.push(task);
        proof {
            assert(steps(self.tasks@) =~= steps(old(self).tasks@).push(task.step()));
        }
    }

    /// Give out the next lambda id (`lambda_0`, `lambda_1`, …).
    pub fn next_lambda_id(&mut self) -> (r: String)
        requires
            old(self)@.lambdas < usize::MAX,
        ensures
            r@ == numbered("lambda_"@, old(self)@.lambdas),
            final(self)@ == (Flow { lambdas: old(self)@.lambdas + 1, ..old(self)@ }),
    {
        let id = numbered_id("lambda_", self.lambda_counter);
        self.lambda_counter = self.lambda_counter + 1;
        id
    }

    /// Add a sequential task.
    pub fn add_sequential(&mut self, task_id: String, metadata: TaskMetadata)
        ensures
            final(self)@ == with_step(
                old(self)@,
                Step::Sequential { task_id: task_id@, metadata: metadata@ },
            ),
    {
        self.push(BuilderTask::Sequential { task_id, metadata });
    }

    /// Add a fork. It must have branches, and each must have a task.
    pub fn add_fork(
        &mut self,
        branches: Vec<Vec<(String, TaskMetadata)>>,
        join_id: String,
        join_metadata: TaskMetadata,
    ) -> (r: Result<(), BuildError>)
        ensures
            if branches@.len() == 0 {
                r is Err && r->Err_0@ == Fault::EmptyFork && *final(self) == *old(self)
            } else if has_empty(chains_of(branches@)) {
                r is Err && r->Err_0@ == Fault::EmptyBranch && *final(self) == *old(self)
            } else {
                r is Ok && final(self)@ == with_step(
                    old(self)@,
                    (Step::Fork {
                        branches: chains_of(branches@),
                        join_id: join_id@,
                        join_metadata: join_metadata@,
                    }),
                )
            },
    {
        if branches.len() == 0 {
            return Err(BuildError::EmptyFork);
        }
        let ghost s = chains_of(branches@);
        let mut i: usize = 0;
        while i < branches.len()
            invariant
                i <= branches@.len(),
                s == chains_of(branches@),
                branches@.len() > 0,
                forall|j: int| 0 <= j < i ==> (#[trigger] s[j]).len() > 0,
                *self == *old(self),
            decreases branches@.len() - i,
        {
            if branches[i].len() == 0 {
                proof {
                    assert(s[i as int].len() == 0);
                }
                return Err(BuildError::EmptyBranch);
            }
            i = i + 1;
        }
        self.push(BuilderTask::Fork { branches, join_id, join_metadata });
        Ok(())
    }

    /// Add a durable delay.
    pub fn add_delay(&mut self, delay_id: String, duration_secs: Seconds) -> (r: Result<
        (),
        BuildError,
    >)
        ensures
            match duration_secs {
                Seconds::Invalid => r is Err && r->Err_0@ == Fault::InvalidDuration(
                    "delay duration"@,
                ) && *final(self) == *old(self),
                Seconds::Valid(duration) => r is Ok && final(self)@ == with_step(
                    old(self)@,
                    Step::Delay { delay_id: delay_id@, duration },
                ),
            },
    {
        match validate_duration(duration_secs, "delay duration") {
            Ok(duration) => {
                self.push(BuilderTask::Delay { delay_id, duration });
                Ok(())
            },
            Err(e) => Err(e),
        }
    }

    /// Add a signal wait; without a timeout it waits indefinitely.
    pub fn add_signal(
        &mut self,
        signal_id: String,
        signal_name: String,
        timeout_secs: Option<Seconds>,
    ) -> (r: Result<(), BuildError>)
        ensures
            match timeout_secs {
                Some(Seconds::Invalid) => r is Err && r->Err_0@ == Fault::InvalidDuration(
                    "timeout"@,
                ) && *final(self) == *old(self),
                Some(Seconds::Valid(d)) => r is Ok && final(self)@ == with_step(
                    old(self)@,
                    (Step::AwaitSignal {
                        signal_id: signal_id@,
                        signal_name: signal_name@,
                        timeout: Some(d),
                    }),
                ),
                None => r is Ok && final(self)@ == with_step(
                    old(self)@,
                    (Step::AwaitSignal {
                        signal_id: signal_id@,
                        signal_name: signal_name@,
                        timeout: None,
                    }),
                ),
            },
    {
        let timeout = match timeout_secs {
            Some(t) => match validate_duration(t, "timeout") {
                Ok(d) => Some(d),
                Err(e) => {
                    return Err(e);
                },
            },
            None => None,
        };
        self.push(BuilderTask::AwaitSignal { signal_id, signal_name, timeout });
        Ok(())
    }

    /// Add a loop and return its id (`loop_0`, `loop_1`, …). It must have
    /// iterations.
    pub fn add_loop(
        &mut self,
        body_task_id: String,
        body_metadata: TaskMetadata,
        max_iterations: u32,
        on_max: MaxIterationsPolicy,
    ) -> (r: Result<String, BuildError>)
        requires
            old(self)@.loops < usize::MAX,
        ensures
            if max_iterations == 0 {
                r is Err && r->Err_0@ == Fault::InvalidMaxIterations(
                    numbered("loop_"@, old(self)@.loops),
                ) && *final(self) == *old(self)
            } else {
                &&& r is Ok
                &&& r->Ok_0@ == numbered("loop_"@, old(self)@.loops)
                &&& final(self)@ == (Flow {
                    loops: old(self)@.loops + 1,
                    ..with_step(
                        old(self)@,
                        Step::Loop {
                            loop_id: numbered("loop_"@, old(self)@.loops),
                            body_task_id: body_task_id@,
                            body_metadata: body_metadata@,
                            max_iterations,
                            on_max,
                        },
                    )
                })
            },
    {
        let loop_id = numbered_id("loop_", self.loop_counter);
        if max_iterations == 0 {
            return Err(BuildError::InvalidMaxIterations(loop_id));
        }
        let given = loop_id.clone();
        self.push(
            BuilderTask::Loop { loop_id, body_task_id, body_metadata, max_iterations, on_max },
        );
        self.loop_counter = self.loop_counter + 1;
        Ok(given)
    }

    /// Add a branch and return its id (`branch_0`, `branch_1`, …). It must have
    /// arms, and each must have a task.
    pub fn add_branch(
        &mut self,
        branches: Vec<(String, Vec<(String, TaskMetadata)>)>,
        default: Option<Vec<(String, TaskMetadata)>>,
    ) -> (r: Result<String, BuildError>)
        requires
            old(self)@.branches < usize::MAX,
        ensures
            if branches@.len() == 0 || has_empty_arm(keyed_chains_of(branches@)) {
                r is Err && r->Err_0@ == Fault::EmptyBranch && *final(self) == *old(self)
            } else {
                &&& r is Ok
                &&& r->Ok_0@ == numbered("branch_"@, old(self)@.branches)
                &&& final(self)@ == (Flow {
                    branches: old(self)@.branches + 1,
                    ..with_step(
                        old(self)@,
                        Step::Branch {
                            branch_id: numbered("branch_"@, old(self)@.branches),
                            branches: keyed_chains_of(branches@),
                            default: opt_chain_of(default),
                        },
                    )
                })
            },
    {
        if branches.len() == 0 {
            return Err(BuildError::EmptyBranch);
        }
        let ghost s = keyed_chains_of(branches@);
        let mut i: usize = 0;
        while i < branches.len()
            invariant
                i <= branches@.len(),
                s == keyed_chains_of(branches@),
                forall|j: int| 0 <= j < i ==> (#[trigger] s[j]).1.len() > 0,
                *self == *old(self),
            decreases branches@.len() - i,
        {
            if branches[i].1.len() == 0 {
                proof {
                    assert(s[i as int].1.len() == 0);
                }
                return Err(BuildError::EmptyBranch);
            }
            i = i + 1;
        }
        let branch_id = numbered_id("branch_", self.branch_counter);
        let given = branch_id.clone();
        self.push(BuilderTask::Branch { branch_id, branches, default });
        self.branch_counter = self.branch_counter + 1;
        Ok(given)
    }

    /// Add a child workflow. It must have steps.
    pub fn add_child_workflow(&mut self, child_id: String, child_tasks: Vec<BuilderTask>) -> (r:
        Result<(), BuildError>)
        ensures
            if child_tasks@.len() == 0 {
                r is Err && r->Err_0@ == Fault::EmptyWorkflow && *final(self) == *old(self)
            } else {
                r is Ok && final(self)@ == with_step(
                    old(self)@,
                    (Step::ChildWorkflow {
                        child_id: child_id@,
                        child_tasks: steps(child_tasks@),
                    }),
                )
            },
    {
        if child_tasks.len() == 0 {
            return Err(BuildError::EmptyWorkflow);
        }
        let ghost inner = steps(child_tasks@);
        let task = BuilderTask::ChildWorkflow { child_id, child_tasks };
        proof {
            assert(task.step()->child_tasks =~= inner);
        }
        self.push(task);
        Ok(())
    }

    /// The steps so far.
    pub fn tasks(&self) -> (r: &[BuilderTask])
        ensures
            r@ == self.tasks@,
    {
        self.tasks.as_slice()
    }

    /// Build the continuation tree. A task id may be used more than once.
    pub fn build(&self) -> (r: Result<WorkflowContinuation, BuildError>)
        ensures
            agrees(r, built(self@.tasks)),
    {
        build_continuation(self.tasks.as_slice())
    }
}

impl Default for FlowBuilder {
    fn default() -> (r: Self)
        ensures
            r@ == (Flow { tasks: seq![], lambdas: 0, loops: 0, branches: 0 }),
    {
        FlowBuilder::new()
    }
}

} // verus!
