//! Conditional branching on a routing key.
use crate::branch_key::BranchKey;
use crate::builder;
use crate::builder::{
    bare_task, registered_task, ContinuationState, NoRegistry, Plan, Records, RegistryBehavior,
    WorkflowBuilder,
};
use crate::context::WorkflowContext;
use crate::continuation;
use crate::continuation::WorkflowContinuation;
use crate::continuation_builder;
use crate::continuation_builder::numbered_id;
use crate::duration::Duration;
use crate::error::{BuildError, BuildErrors, Fault};
use crate::registry::TaskRegistry;
use crate::step_laws;
use crate::stored::key_fn_id;
use crate::string_map;
use crate::string_map::{str_same, StringMap};
use crate::task;
use crate::task::{BranchEnvelope, TaskHandle};
use crate::text;
use crate::tree;
use crate::tree::Node;
use std::marker::PhantomData;
use std::sync::Arc;
use vstd::prelude::*;

verus! {

/// A lightweight sub-builder for the chain of one arm.
///
/// Used inside `RouteBuilder::branch` closures.
pub struct SubBuilder<C, Input, Output, R = NoRegistry> {
    /// The codec of the workflow.
    pub codec: Arc<C>,
    /// The chain so far.
    pub continuation: Option<WorkflowContinuation>,
    /// Where tasks are registered.
    pub registry: R,
    /// The errors so far.
    pub errors: BuildErrors,
    /// The types of the data that flows in and out.
    pub flow: PhantomData<(Input, Output)>,
}

/// The tree of an optional chain.
pub open spec fn chain_tree(o: Option<WorkflowContinuation>) -> Option<Node> {
    match o {
        Some(c) => Some(c.node()),
        None => None,
    }
}

impl<C, Input, Output, R: RegistryBehavior> SubBuilder<C, Input, Output, R> {
    /// The sub-builder with a node more.
    fn next_step<NewOutput>(self, node: WorkflowContinuation) -> (r: SubBuilder<
        C,
        Input,
        NewOutput,
        R,
    >)
        ensures
            r.codec == self.codec,
            r.registry == self.registry,
            r.errors == self.errors,
            chain_tree(r.continuation) == Some(
                builder::extended(chain_tree(self.continuation), node.node()),
            ),
    {
        let continuation = match self.continuation {
            None => Some(node),
            Some(c) => {
                let mut c = c;
                c.append_to_chain(node);
                Some(c)
            },
        };
        SubBuilder {
            codec: self.codec,
            continuation,
            registry: self.registry,
            errors: self.errors,
            flow: PhantomData,
        }
    }

    /// Add a sequential task to this sub-flow, and register it where tasks are.
    pub fn then<NewOutput>(self, id: &str, func: TaskHandle) -> (r: SubBuilder<
        C,
        Input,
        NewOutput,
        R,
    >)
        ensures
            r.codec == self.codec,
            r.errors == self.errors,
            r.registry.records() == builder::recorded(
                R::tracking(),
                self.registry.records(),
                id@,
                func,
                task::no_meta(),
            ),
            chain_tree(r.continuation) == Some(
                builder::extended(chain_tree(self.continuation), builder::bare_node(id@, func)),
            ),
            step_laws::adds_bare_link(
                chain_tree(self.continuation),
                chain_tree(r.continuation),
                id@,
                func,
            ),
    {
        proof {
            step_laws::law_bare_link_is_added(chain_tree(self.continuation), id@, func);
        }
        let mut b = self;
        b.registry.maybe_register(id, func);
        b.next_step(bare_task(id, func))
    }

    /// Add a durable delay to this sub-flow.
    pub fn delay(self, id: &str, duration: Duration) -> (r: Self)
        ensures
            r.codec == self.codec,
            r.registry == self.registry,
            r.errors == self.errors,
            chain_tree(r.continuation) == Some(
                builder::extended(
                    chain_tree(self.continuation),
                    Node::Delay { id: id@, duration, next: None },
                ),
            ),
    {
        self.next_step(
            WorkflowContinuation::Delay { id: String::from_str(id), duration, next: None },
        )
    }

    /// Wait for a named external signal in this sub-flow.
    pub fn wait_for_signal(self, id: &str, signal_name: &str, timeout: Option<Duration>) -> (r:
        Self)
        ensures
            r.codec == self.codec,
            r.registry == self.registry,
            r.errors == self.errors,
            chain_tree(r.continuation) == Some(
                builder::extended(
                    chain_tree(self.continuation),
                    Node::AwaitSignal { id: id@, signal_name: signal_name@, timeout, next: None },
                ),
            ),
    {
        self.next_step(
            WorkflowContinuation::AwaitSignal {
                id: String::from_str(id),
                signal_name: String::from_str(signal_name),
                timeout,
                next: None,
            },
        )
    }

    /// The chain, the errors and the registry. A chain without steps is an error.
    fn build(self) -> (r: (Option<WorkflowContinuation>, BuildErrors, R))
        ensures
            r.0 == self.continuation,
            r.1@ == sub_faults(self.errors@, self.continuation),
            r.2 == self.registry,
    {
        let mut errors = self.errors;
        if self.continuation.is_none() {
            errors.push(BuildError::EmptyBranch);
        }
        (self.continuation, errors, self.registry)
    }
}

/// The errors of a finished sub-flow.
pub open spec fn sub_faults(faults: Seq<Fault>, o: Option<WorkflowContinuation>) -> Seq<Fault> {
    if o is None {
        faults.push(Fault::EmptyBranch)
    } else {
        faults
    }
}

/// What a route builder adds to a plan: the arms so far.
pub struct Arms {
    /// The arms by key.
    pub named: Seq<(Seq<char>, Node)>,
    /// The arm for keys without one.
    pub default: Option<Box<Node>>,
}

/// Builder for constructing conditional branches fluently.
///
/// Created by `route` on a [`WorkflowBuilder`]. Add branches with `branch`,
/// optionally set a default with `default_branch`, then close with `done`, which
/// compares the branches with the keys of `K`.
pub struct RouteBuilder<C, Input, Output, BranchOut, K, M, Cont, R = NoRegistry> {
    /// The context.
    pub context: WorkflowContext<C, M>,
    /// The tree before the branching node.
    pub parent_continuation: Cont,
    /// Where tasks are registered.
    pub registry: R,
    /// The id of the branching node.
    pub branch_id: String,
    /// The routing function.
    pub key_fn: TaskHandle,
    /// The arms by key.
    pub named_branches: StringMap<Box<WorkflowContinuation>>,
    /// The arm for keys without one.
    pub default_branch: Option<Box<WorkflowContinuation>>,
    /// Number of routes so far.
    pub branch_counter: usize,
    /// Number of loops so far.
    pub loop_counter: usize,
    /// Number of child workflows so far.
    pub child_counter: usize,
    /// The errors so far.
    pub errors: BuildErrors,
    /// The types of the data that flows in and out, and of the key.
    pub flow: PhantomData<(Input, Output, BranchOut, K)>,
}

impl<
    C,
    Input,
    Output,
    BranchOut,
    K,
    M,
    Cont: ContinuationState,
    R: RegistryBehavior,
> RouteBuilder<C, Input, Output, BranchOut, K, M, Cont, R> {
    /// The contents of the builder, but for the branching node.
    pub open spec fn plan(self) -> Plan<C, M> {
        Plan {
            context: self.context,
            tree: self.parent_continuation.tree(),
            records: self.registry.records(),
            last: None,
            branches: self.branch_counter as nat,
            loops: self.loop_counter as nat,
            children: self.child_counter as nat,
            faults: self.errors@,
        }
    }

    /// The arms so far.
    pub open spec fn arms(self) -> Arms {
        Arms {
            named: continuation::arm_nodes(self.named_branches.entries()),
            default: continuation::opt_node(self.default_branch),
        }
    }
}

impl<C, Input, Output, M, Cont: ContinuationState, R: RegistryBehavior> WorkflowBuilder<
    C,
    Input,
    Output,
    M,
    Cont,
    R,
> {
    /// Add a conditional branching node (`branch_1`, `branch_2`, …) on the key that
    /// `key_fn` returns. The routing function is registered where tasks are.
    pub fn route<BranchOut, K: BranchKey>(self, key_fn: TaskHandle) -> (r: RouteBuilder<
        C,
        Input,
        Output,
        BranchOut,
        K,
        M,
        Cont,
        R,
    >)
        requires
            self.plan().branches < usize::MAX,
        ensures
            r.branch_id@ == continuation_builder::numbered("branch_"@, self.plan().branches + 1),
            r.key_fn == key_fn,
            r.arms() == (Arms { named: seq![], default: None }),
            r.plan() == builder::with_record(
                Plan { last: None, branches: self.plan().branches + 1, ..self.plan() },
                R::tracking(),
                tree::key_fn_text(r.branch_id@),
                key_fn,
                task::no_meta(),
            ),
    {
        let mut b = self;
        b.branch_counter = b.branch_counter + 1;
        let branch_id = numbered_id("branch_", b.branch_counter);
        b.registry.maybe_register(key_fn_id(branch_id.as_str()).as_str(), key_fn);
        let r = RouteBuilder {
            context: b.context,
            parent_continuation: b.continuation,
            registry: b.registry,
            branch_id,
            key_fn,
            named_branches: StringMap::new(),
            default_branch: None,
            branch_counter: b.branch_counter,
            loop_counter: b.loop_counter,
            child_counter: b.child_counter,
            errors: b.errors,
            flow: PhantomData,
        };
        proof {
            assert(r.arms().named =~= seq![]);
        }
        r
    }
}

/// What a closure is handed for an arm: an empty chain on the registry so far.
pub open spec fn empty_sub<C, Input, Output, R>(
    s: SubBuilder<C, Input, Output, R>,
    codec: Arc<C>,
    registry: R,
) -> bool {
    s.codec == codec && s.registry == registry && s.continuation is None && s.errors@.len() == 0
}

impl<
    C,
    Input,
    Output,
    BranchOut,
    K: BranchKey,
    M,
    Cont: ContinuationState,
    R: RegistryBehavior,
> RouteBuilder<C, Input, Output, BranchOut, K, M, Cont, R> {
    /// Add the arm of a key. The closure must add at least one step, else an error is
    /// recorded. The last arm of a key counts.
    pub fn branch<F: FnOnce(SubBuilder<C, Output, Output, R>) -> SubBuilder<C, Output, BranchOut, R>>(
        self,
        key: K,
        build_fn: F,
    ) -> (r: Self)
        requires
            forall|s: SubBuilder<C, Output, Output, R>|
                empty_sub(s, self.context.codec, self.registry) ==> #[trigger] build_fn.requires(
                    (s,),
                ),
        ensures
            r.branch_id == self.branch_id,
            r.key_fn == self.key_fn,
            exists|
                s: SubBuilder<C, Output, Output, R>,
                built: SubBuilder<C, Output, BranchOut, R>,
                name: &'static str,
            |
                #![trigger build_fn.ensures((s,), built), call_ensures(K::as_key, (&key,), name)]
                build_fn.ensures((s,), built) && call_ensures(K::as_key, (&key,), name)
                    && empty_sub(s, self.context.codec, self.registry) && r.plan() == (Plan {
                    records: built.registry.records(),
                    faults: self.plan().faults + sub_faults(built.errors@, built.continuation),
                    ..self.plan()
                }) && r.arms() == (match chain_tree(built.continuation) {
                    Some(n) => Arms {
                        named: string_map::placed(self.arms().named, name@, n),
                        ..self.arms()
                    },
                    None => self.arms(),
                }),
    {
        let sub = SubBuilder {
            codec: self.context.codec.clone(),
            continuation: None,
            registry: self.registry,
            errors: BuildErrors::new(),
            flow: PhantomData,
        };
        let name = key.as_key();
        let built = build_fn(sub);
        let (chain, more, registry) = built.build();
        let mut errors = self.errors;
        errors.extend(more);
        let mut named_branches = self.named_branches;
        if let Some(c) = chain {
            let ghost before = named_branches.entries();
            let b = Box::new(c);
            let ghost put = b;
            named_branches.insert(String::from_str(name), b);
            proof {
                continuation_builder::lemma_placed_arms(
                    before,
                    named_branches.entries(),
                    name@,
                    put,
                );
            }
        }
        RouteBuilder {
            context: self.context,
            parent_continuation: self.parent_continuation,
            registry,
            branch_id: self.branch_id,
            key_fn: self.key_fn,
            named_branches,
            default_branch: self.default_branch,
            branch_counter: self.branch_counter,
            loop_counter: self.loop_counter,
            child_counter: self.child_counter,
            errors,
            flow: PhantomData,
        }
    }

    /// Set the default arm (used when no key matches). The closure must add at least
    /// one step, else an error is recorded.
    pub fn default_branch<F: FnOnce(SubBuilder<C, Output, Output, R>) -> SubBuilder<C, Output, BranchOut, R>>(
        self,
        build_fn: F,
    ) -> (r: Self)
        requires
            forall|s: SubBuilder<C, Output, Output, R>|
                empty_sub(s, self.context.codec, self.registry) ==> #[trigger] build_fn.requires(
                    (s,),
                ),
        ensures
            r.branch_id == self.branch_id,
            r.key_fn == self.key_fn,
            exists|
                s: SubBuilder<C, Output, Output, R>,
                built: SubBuilder<C, Output, BranchOut, R>,
            | #[trigger]
                build_fn.ensures((s,), built) && empty_sub(
                    s,
                    self.context.codec,
                    self.registry,
                ) && r.plan() == (Plan {
                    records: built.registry.records(),
                    faults: self.plan().faults + sub_faults(built.errors@, built.continuation),
                    ..self.plan()
                }) && r.arms() == (match chain_tree(built.continuation) {
                    Some(n) => Arms { default: Some(Box::new(n)), ..self.arms() },
                    None => self.arms(),
                }),
    {
        let sub = SubBuilder {
            codec: self.context.codec.clone(),
            continuation: None,
            registry: self.registry,
            errors: BuildErrors::new(),
            flow: PhantomData,
        };
        let built = build_fn(sub);
        let (chain, more, registry) = built.build();
        let mut errors = self.errors;
        errors.extend(more);
        let default_branch = match chain {
            Some(c) => Some(Box::new(c)),
            None => self.default_branch,
        };
        RouteBuilder {
            context: self.context,
            parent_continuation: self.parent_continuation,
            registry,
            branch_id: self.branch_id,
            key_fn: self.key_fn,
            named_branches: self.named_branches,
            default_branch,
            branch_counter: self.branch_counter,
            loop_counter: self.loop_counter,
            child_counter: self.child_counter,
            errors,
            flow: PhantomData,
        }
    }

    /// Close the branching node and return to the parent builder.
    ///
    /// Arms whose key `K` does not have are recorded as an error, in key order; then,
    /// unless there is a default arm, the keys of `K` without an arm.
    pub fn done(self) -> (r: WorkflowBuilder<
        C,
        Input,
        BranchEnvelope<BranchOut>,
        M,
        WorkflowContinuation,
        R,
    >)
        ensures
            exists|keys: &'static [&'static str]| #[trigger]
                call_ensures(K::all_keys, (), keys) && r.plan() == builder::with_node(
                    with_gaps(
                        self.plan(),
                        self.branch_id@,
                        self.arms(),
                        continuation::str_texts(keys@),
                    ),
                    branch_node(self.branch_id@, Some(self.key_fn), self.arms()),
                    self.branch_id@,
                ),
    {
        let keys = K::all_keys();
        let mut errors = self.errors;
        let ghost arms = self.arms();
        let orphans = orphan_keys(&self.named_branches, keys);
        if orphans.len() > 0 {
            errors.push(
                BuildError::OrphanBranches {
                    branch_id: self.branch_id.clone(),
                    orphan_keys: orphans,
                },
            );
        }
        if self.default_branch.is_none() {
            let missing = missing_keys(&self.named_branches, keys);
            if missing.len() > 0 {
                errors.push(
                    BuildError::MissingBranches {
                        branch_id: self.branch_id.clone(),
                        missing_keys: missing,
                    },
                );
            }
        }
        let node = WorkflowContinuation::Branch {
            id: self.branch_id.clone(),
            key_fn: Some(self.key_fn),
            branches: self.named_branches,
            default: self.default_branch,
            next: None,
        };
        proof {
            continuation::lemma_arms(node);
        }
        WorkflowBuilder {
            continuation: self.parent_continuation.append(node),
            context: self.context,
            registry: self.registry,
            last_task_id: Some(self.branch_id),
            branch_counter: self.branch_counter,
            loop_counter: self.loop_counter,
            child_counter: self.child_counter,
            errors,
            flow: PhantomData,
        }
    }
}

/// The node of a finished route.
pub open spec fn branch_node(id: Seq<char>, key_fn: Option<TaskHandle>, a: Arms) -> Node {
    Node::Branch { id, key_fn, arms: a.named, default: a.default, next: None }
}

/// The keys of a list of arms.
pub open spec fn arm_keys(named: Seq<(Seq<char>, Node)>) -> Seq<Seq<char>> {
    Seq::new(named.len(), |i: int| named[i].0)
}

/// The texts among the first `k` of `s` that `other` lacks, each once.
pub open spec fn lacking(s: Seq<Seq<char>>, other: Seq<Seq<char>>, k: nat) -> Seq<Seq<char>>
    decreases k,
{
    if k == 0 || k > s.len() {
        seq![]
    } else {
        let p = lacking(s, other, (k - 1) as nat);
        if other.contains(s[k - 1]) || p.contains(s[k - 1]) {
            p
        } else {
            p.push(s[k - 1])
        }
    }
}

/// A plan with the errors of a route: arms without a key, and keys without an arm.
pub open spec fn with_gaps<C, M>(
    p: Plan<C, M>,
    branch_id: Seq<char>,
    a: Arms,
    keys: Seq<Seq<char>>,
) -> Plan<C, M> {
    let declared = arm_keys(a.named);
    let orphans = lacking(declared, keys, declared.len());
    let missing = lacking(keys, declared, keys.len());
    builder::with_fault(
        builder::with_fault(
            p,
            orphans.len() > 0,
            Fault::OrphanBranches { branch_id, orphan_keys: orphans },
        ),
        a.default is None && missing.len() > 0,
        Fault::MissingBranches { branch_id, missing_keys: missing },
    )
}

/// The texts of `s` that `other` lacks, each once.
fn lacking_texts(s: &Vec<&str>, other: &Vec<&str>) -> (r: Vec<String>)
    ensures
        text::texts(r@) == lacking(
            continuation::str_texts(s@),
            continuation::str_texts(other@),
            s@.len(),
        ),
{
    let ghost a = continuation::str_texts(s@);
    let ghost b = continuation::str_texts(other@);
    let mut out: Vec<String> = Vec::new();
    let mut i: usize = 0;
    proof {
        assert(text::texts(out@) =~= seq![]);
    }
    while i < s.len()
        invariant
            i <= s@.len(),
            a == continuation::str_texts(s@),
            b == continuation::str_texts(other@),
            text::texts(out@) == lacking(a, b, i as nat),
        decreases s@.len() - i,
    {
        let mut known = text::contains_text(&out, s[i]);
        let mut j: usize = 0;
        let ghost listed = known;
        while j < other.len()
            invariant
                j <= other@.len(),
                i < s@.len(),
                a == continuation::str_texts(s@),
                b == continuation::str_texts(other@),
                known == (listed || exists|k: int| 0 <= k < j && #[trigger] b[k] == a[i as int]),
            decreases other@.len() - j,
        {
            if str_same(other[j], s[i]) {
                proof {
                    assert(b[j as int] == a[i as int]);
                }
                known = true;
            }
            j = j + 1;
        }
        proof {
            assert(known == (listed || b.contains(a[i as int])));
        }
        if !known {
            let t = String::from_str(s[i]);
            proof {
                text::lemma_texts_push(out@, t);
            }
            out.push(t);
        }
        i = i + 1;
    }
    out
}

/// The keys of the arms as a list.
fn declared_keys(named: &StringMap<Box<WorkflowContinuation>>) -> (r: Vec<&str>)
    ensures
        continuation::str_texts(r@) == arm_keys(continuation::arm_nodes(named.entries())),
{
    let mut out: Vec<&str> = Vec::new();
    let ghost all = arm_keys(continuation::arm_nodes(named.entries()));
    let mut i: usize = 0;
    while i < named.len()
        invariant
            i <= named.entries().len(),
            all == arm_keys(continuation::arm_nodes(named.entries())),
            continuation::str_texts(out@) == all.take(i as int),
        decreases named.entries().len() - i,
    {
        let k = named.key_at(i).as_str();
        let ghost before = out@;
        out.push(k);
        proof {
            assert(continuation::str_texts(out@) =~= continuation::str_texts(before).push(k@));
            assert(all.take(i + 1) =~= all.take(i as int).push(k@));
        }
        i = i + 1;
    }
    proof {
        assert(all.take(i as int) =~= all);
    }
    out
}

/// A slice of string slices as a list.
fn key_list(keys: &'static [&'static str]) -> (r: Vec<&'static str>)
    ensures
        r@ == keys@,
{
    let mut out: Vec<&'static str> = Vec::new();
    let mut i: usize = 0;
    while i < keys.len()
        invariant
            i <= keys@.len(),
            out@ == keys@.take(i as int),
        decreases keys@.len() - i,
    {
        out.push(keys[i]);
        proof {
            assert(keys@.take(i + 1) =~= keys@.take(i as int).push(keys@[i as int]));
        }
        i = i + 1;
    }
    proof {
        assert(keys@.take(i as int) =~= keys@);
    }
    out
}

/// The keys of arms that are not among `keys`.
fn orphan_keys(
    named: &StringMap<Box<WorkflowContinuation>>,
    keys: &'static [&'static str],
) -> (r: Vec<String>)
    ensures
        text::texts(r@) == lacking(
            arm_keys(continuation::arm_nodes(named.entries())),
            continuation::str_texts(keys@),
            named.entries().len(),
        ),
{
    let declared = declared_keys(named);
    let all = key_list(keys);
    lacking_texts(&declared, &all)
}

/// The keys among `keys` without an arm.
fn missing_keys(
    named: &StringMap<Box<WorkflowContinuation>>,
    keys: &'static [&'static str],
) -> (r: Vec<String>)
    ensures
        text::texts(r@) == lacking(
            continuation::str_texts(keys@),
            arm_keys(continuation::arm_nodes(named.entries())),
            keys@.len(),
        ),
{
    let declared = declared_keys(named);
    let all = key_list(keys);
    lacking_texts(&all, &declared)
}

/// Builder for constructing conditional branches of pre-registered tasks.
///
/// Created by `route_registered` on a [`WorkflowBuilder`]. Add branches with
/// `branch_registered`, optionally set a default with `default_registered`, then
/// close with `done`.
pub struct RouteRegisteredBuilder<C, Input, Output, BranchOut, M, Cont> {
    /// The context.
    pub context: WorkflowContext<C, M>,
    /// The tree before the branching node.
    pub parent_continuation: Cont,
    /// Where tasks are registered.
    pub registry: TaskRegistry,
    /// The id of the branching node.
    pub branch_id: String,
    /// The routing function, if it is registered.
    pub key_fn: Option<TaskHandle>,
    /// The arms by key.
    pub named_branches: StringMap<Box<WorkflowContinuation>>,
    /// The arm for keys without one.
    pub default_branch: Option<Box<WorkflowContinuation>>,
    /// Number of routes so far.
    pub branch_counter: usize,
    /// Number of loops so far.
    pub loop_counter: usize,
    /// Number of child workflows so far.
    pub child_counter: usize,
    /// The errors so far.
    pub errors: BuildErrors,
    /// The types of the data that flows in and out.
    pub flow: PhantomData<(Input, Output, BranchOut)>,
}

/// The chain of registered tasks from the `i`-th id on.
pub open spec fn registered_chain(r: Records, ids: Seq<Seq<char>>, i: nat) -> Option<Box<Node>>
    decreases ids.len() - i,
{
    if i >= ids.len() {
        None
    } else {
        Some(
            Box::new(
                builder::registered_node(r, ids[i as int], registered_chain(r, ids, i + 1)),
            ),
        )
    }
}

/// An error for each id from the `i`-th on that is not registered, the last one
/// first.
pub open spec fn chain_faults(r: Records, ids: Seq<Seq<char>>, i: nat) -> Seq<Fault>
    decreases ids.len() - i,
{
    if i >= ids.len() {
        seq![]
    } else {
        let p = chain_faults(r, ids, i + 1);
        if r.handles.dom().contains(ids[i as int]) {
            p
        } else {
            p.push(Fault::TaskNotFound(ids[i as int]))
        }
    }
}

/// The errors of a chain of registered tasks; an empty chain is one.
pub open spec fn registered_faults(r: Records, ids: Seq<Seq<char>>) -> Seq<Fault> {
    if ids.len() == 0 {
        seq![Fault::EmptyFork]
    } else {
        chain_faults(r, ids, 0)
    }
}

/// The chain of registered tasks, which is there only without errors.
pub open spec fn clean_chain(r: Records, ids: Seq<Seq<char>>) -> Option<Box<Node>> {
    if registered_faults(r, ids).len() == 0 {
        registered_chain(r, ids, 0)
    } else {
        None
    }
}

/// Build a chain of registered tasks. Errors are collected.
fn build_chain_from_registry(
    registry: &TaskRegistry,
    task_ids: &[&str],
    errors: &mut BuildErrors,
) -> (r: Option<Box<WorkflowContinuation>>)
    ensures
        final(errors)@ == old(errors)@ + registered_faults(
            registry.records(),
            continuation::str_texts(task_ids@),
        ),
        continuation::opt_node(r) == clean_chain(
            registry.records(),
            continuation::str_texts(task_ids@),
        ),
{
    let ghost ids = continuation::str_texts(task_ids@);
    let ghost rec = registry.records();
    let mut current: Option<Box<WorkflowContinuation>> = None;
    let mut ok = true;
    let mut i: usize = task_ids.len();
    while i > 0
        invariant
            i <= task_ids@.len(),
            ids == continuation::str_texts(task_ids@),
            rec == registry.records(),
            errors@ == old(errors)@ + chain_faults(rec, ids, i as nat),
            ok == (chain_faults(rec, ids, i as nat).len() == 0),
            continuation::opt_node(current) == registered_chain(rec, ids, i as nat),
        decreases i,
    {
        i = i - 1;
        if !registry.contains(task_ids[i]) {
            errors.push(BuildError::TaskNotFound(String::from_str(task_ids[i])));
            ok = false;
        }
        let c = registered_task(registry, task_ids[i], current);
        current = Some(Box::new(c));
    }
    if task_ids.len() == 0 {
        errors.push(BuildError::EmptyFork);
        return None;
    }
    if !ok {
        return None;
    }
    current
}

impl<C, Input, Output, M, Cont: ContinuationState> WorkflowBuilder<
    C,
    Input,
    Output,
    M,
    Cont,
    TaskRegistry,
> {
    /// Add a conditional branching node using pre-registered tasks.
    ///
    /// The routing function must be registered under `key_fn_id(id)`, else the error
    /// is recorded and reported by `build`.
    pub fn route_registered<BranchOut>(self, id: &str) -> (r: RouteRegisteredBuilder<
        C,
        Input,
        Output,
        BranchOut,
        M,
        Cont,
    >)
        ensures
            r.branch_id@ == id@,
            r.key_fn == builder::handle_on_record(
                self.plan().records.handles,
                tree::key_fn_text(id@),
            ),
            r.arms() == (Arms { named: seq![], default: None }),
            r.plan() == builder::with_fault(
                Plan { last: None, ..self.plan() },
                !self.plan().records.handles.dom().contains(tree::key_fn_text(id@)),
                Fault::TaskNotFound(tree::key_fn_text(id@)),
            ),
    {
        let mut b = self;
        let key_id = key_fn_id(id);
        let key_fn = b.registry.get(key_id.as_str());
        if key_fn.is_none() {
            b.errors.push(BuildError::TaskNotFound(key_id));
        }
        let r = RouteRegisteredBuilder {
            context: b.context,
            parent_continuation: b.continuation,
            registry: b.registry,
            branch_id: String::from_str(id),
            key_fn,
            named_branches: StringMap::new(),
            default_branch: None,
            branch_counter: b.branch_counter,
            loop_counter: b.loop_counter,
            child_counter: b.child_counter,
            errors: b.errors,
            flow: PhantomData,
        };
        proof {
            assert(r.arms().named =~= seq![]);
        }
        r
    }
}

impl<C, Input, Output, BranchOut, M, Cont: ContinuationState> RouteRegisteredBuilder<
    C,
    Input,
    Output,
    BranchOut,
    M,
    Cont,
> {
    /// The contents of the builder, but for the branching node.
    pub open spec fn plan(self) -> Plan<C, M> {
        Plan {
            context: self.context,
            tree: self.parent_continuation.tree(),
            records: self.registry.records(),
            last: None,
            branches: self.branch_counter as nat,
            loops: self.loop_counter as nat,
            children: self.child_counter as nat,
            faults: self.errors@,
        }
    }

    /// The arms so far.
    pub open spec fn arms(self) -> Arms {
        Arms {
            named: continuation::arm_nodes(self.named_branches.entries()),
            default: continuation::opt_node(self.default_branch),
        }
    }

    /// Add the arm of a key as a chain of pre-registered tasks. With errors there is
    /// no arm.
    pub fn branch_registered(self, key: &str, task_ids: &[&str]) -> (r: Self)
        ensures
            r.branch_id == self.branch_id,
            r.key_fn == self.key_fn,
            r.plan() == (Plan {
                faults: self.plan().faults + registered_faults(
                    self.plan().records,
                    continuation::str_texts(task_ids@),
                ),
                ..self.plan()
            }),
            r.arms() == (match clean_chain(
                self.plan().records,
                continuation::str_texts(task_ids@),
            ) {
                Some(n) => Arms {
                    named: string_map::placed(self.arms().named, key@, *n),
                    ..self.arms()
                },
                None => self.arms(),
            }),
    {
        let mut b = self;
        if let Some(chain) = build_chain_from_registry(&b.registry, task_ids, &mut b.errors) {
            let ghost before = b.named_branches.entries();
            let ghost put = chain;
            b.named_branches.insert(String::from_str(key), chain);
            proof {
                continuation_builder::lemma_placed_arms(
                    before,
                    b.named_branches.entries(),
                    key@,
                    put,
                );
            }
        }
        b
    }

    /// Set the default arm as a chain of pre-registered tasks. With errors it stays
    /// as it was.
    pub fn default_registered(self, task_ids: &[&str]) -> (r: Self)
        ensures
            r.branch_id == self.branch_id,
            r.key_fn == self.key_fn,
            r.plan() == (Plan {
                faults: self.plan().faults + registered_faults(
                    self.plan().records,
                    continuation::str_texts(task_ids@),
                ),
                ..self.plan()
            }),
            r.arms() == (match clean_chain(
                self.plan().records,
                continuation::str_texts(task_ids@),
            ) {
                Some(n) => Arms { default: Some(n), ..self.arms() },
                None => self.arms(),
            }),
    {
        let mut b = self;
        if let Some(chain) = build_chain_from_registry(&b.registry, task_ids, &mut b.errors) {
            b.default_branch = Some(chain);
        }
        b
    }

    /// Close the branching node and return to the parent builder.
    pub fn done(self) -> (r: WorkflowBuilder<
        C,
        Input,
        BranchEnvelope<BranchOut>,
        M,
        WorkflowContinuation,
        TaskRegistry,
    >)
        ensures
            r.plan() == builder::with_node(
                self.plan(),
                branch_node(self.branch_id@, self.key_fn, self.arms()),
                self.branch_id@,
            ),
    {
        let node = WorkflowContinuation::Branch {
            id: self.branch_id.clone(),
            key_fn: self.key_fn,
            branches: self.named_branches,
            default: self.default_branch,
            next: None,
        };
        proof {
            continuation::lemma_arms(node);
        }
        WorkflowBuilder {
            continuation: self.parent_continuation.append(node),
            context: self.context,
            registry: self.registry,
            last_task_id: Some(self.branch_id),
            branch_counter: self.branch_counter,
            loop_counter: self.loop_counter,
            child_counter: self.child_counter,
            errors: self.errors,
            flow: PhantomData,
        }
    }
}

} // verus!
