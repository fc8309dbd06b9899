//! Parallel branches and their join.
use crate::builder;
use crate::builder::{
    bare_task, registered_task, registry_metadata, ContinuationState, NoContinuation, NoRegistry, Plan, Records,
    RegistryBehavior, WorkflowBuilder,
};
use crate::context::WorkflowContext;
use crate::continuation::WorkflowContinuation;
use crate::continuation_builder;
use crate::continuation_builder::task_continuation;
use crate::error::{BuildError, BuildErrors, Fault};
use crate::registry::TaskRegistry;
use crate::task;
use crate::task::{branch, ErasedBranch, TaskDefinition, TaskHandle};
use crate::text;
use crate::tree::Node;
use std::marker::PhantomData;
use std::sync::Arc;
use vstd::prelude::*;

verus! {

/// The ids and implementations of a list of branches.
pub open spec fn branch_list(v: Seq<ErasedBranch>) -> Seq<(Seq<char>, TaskHandle)> {
    Seq::new(v.len(), |i: int| (v[i].id@, v[i].task))
}

/// The ids of a list of branches.
pub open spec fn branch_ids(s: Seq<(Seq<char>, TaskHandle)>) -> Seq<Seq<char>> {
    Seq::new(s.len(), |i: int| s[i].0)
}

/// A list of branches with one more.
fn push_branch(list: &mut Vec<ErasedBranch>, id: &str, handle: TaskHandle)
    ensures
        branch_list(final(list)@) == branch_list(old(list)@).push((id@, handle)),
{
    list.push(branch(id, handle));
    proof {
        assert(branch_list(list@) =~= branch_list(old(list)@).push((id@, handle)));
    }
}

/// Collector for adding branches in a closure.
///
/// Used by [`WorkflowBuilder::branches`] to collect multiple branches. They are not
/// registered.
pub struct BranchCollector<C, Input> {
    /// The codec of the workflow.
    pub codec: Arc<C>,
    /// The branches so far.
    pub branches: Vec<ErasedBranch>,
    /// The type of the data that flows in.
    pub input: PhantomData<Input>,
}

impl<C, Input> BranchCollector<C, Input> {
    /// Add a branch to the fork. Duplicate ids are reported by `build`.
    pub fn add(&mut self, id: &str, func: TaskHandle)
        ensures
            final(self).codec == old(self).codec,
            branch_list(final(self).branches@) == branch_list(old(self).branches@).push(
                (id@, func),
            ),
    {
        push_branch(&mut self.branches, id, func);
    }

    /// Add a task by its definition as a branch. Its metadata is not used.
    pub fn add_task_with(&mut self, task: TaskDefinition)
        ensures
            final(self).codec == old(self).codec,
            branch_list(final(self).branches@) == branch_list(old(self).branches@).push(
                (task.task_id@, task.handle),
            ),
    {
        push_branch(&mut self.branches, task.task_id.as_str(), task.handle);
    }
}

/// Builder for constructing fork branches fluently.
///
/// Created by `fork` on a [`WorkflowBuilder`]. Add branches with `branch`, then
/// complete with `join`.
pub struct ForkBuilder<C, Input, Output, M = (), Cont = NoContinuation, R = NoRegistry> {
    /// The context.
    pub context: WorkflowContext<C, M>,
    /// The tree before the fork.
    pub continuation: Cont,
    /// The branches so far.
    pub branches: Vec<ErasedBranch>,
    /// Where tasks are registered.
    pub registry: R,
    /// Number of routes so far.
    pub branch_counter: usize,
    /// Number of loops so far.
    pub loop_counter: usize,
    /// Number of child workflows so far.
    pub child_counter: usize,
    /// The errors so far.
    pub errors: BuildErrors,
    /// The types of the data that flows in and out.
    pub flow: PhantomData<(Input, Output)>,
}

impl<C, Input, Output, M, Cont: ContinuationState, R: RegistryBehavior> WorkflowBuilder<
    C,
    Input,
    Output,
    M,
    Cont,
    R,
> {
    /// Fork the workflow into parallel branches that a closure adds.
    ///
    /// Each branch receives the same input and may return a different type. Use
    /// `join` to combine the results.
    pub fn branches<F: FnOnce(BranchCollector<C, Output>) -> BranchCollector<C, Output>>(
        self,
        f: F,
    ) -> (r: ForkBuilder<C, Input, Output, M, Cont, R>)
        requires
            forall|b: BranchCollector<C, Output>|
                branch_list(b.branches@).len() == 0 ==> #[trigger] f.requires((b,)),
        ensures
            r.plan() == (Plan { last: None, ..self.plan() }),
            exists|before: BranchCollector<C, Output>, after: BranchCollector<C, Output>| #[trigger]
                f.ensures((before,), after) && before.codec == self.context.codec
                    && before.branches@.len() == 0 && branch_list(r.branches@) == branch_list(
                    after.branches@,
                ),
    {
        let collector = BranchCollector {
            codec: self.context.codec.clone(),
            branches: Vec::new(),
            input: PhantomData,
        };
        let collected = f(collector);
        let mut forked = self.fork();
        forked.branches = collected.branches;
        forked
    }

    /// Fork the workflow into parallel branches (low-level API).
    pub fn fork(self) -> (r: ForkBuilder<C, Input, Output, M, Cont, R>)
        ensures
            r.plan() == (Plan { last: None, ..self.plan() }),
            branch_list(r.branches@).len() == 0,
    {
        ForkBuilder {
            context: self.context,
            continuation: self.continuation,
            branches: Vec::new(),
            registry: self.registry,
            branch_counter: self.branch_counter,
            loop_counter: self.loop_counter,
            child_counter: self.child_counter,
            errors: self.errors,
            flow: PhantomData,
        }
    }
}

/// The trees of branches without metadata.
pub open spec fn bare_branches(s: Seq<(Seq<char>, TaskHandle)>) -> Seq<Node> {
    Seq::new(s.len(), |i: int| builder::bare_node(s[i].0, s[i].1))
}

/// The trees of branches with the metadata on record.
pub open spec fn recorded_branches(r: Records, s: Seq<(Seq<char>, TaskHandle)>) -> Seq<Node> {
    Seq::new(
        s.len(),
        |i: int|
            continuation_builder::task_node(
                s[i].0,
                Some(s[i].1),
                builder::meta_on_record(r.metas, s[i].0),
                None,
            ),
    )
}

/// The node of a fork. Its id is made of those of its branches.
pub open spec fn fork_node(ids: Seq<Seq<char>>, branches: Seq<Node>, join: Node) -> Node {
    Node::Fork { id: text::joined(ids, "||"@), branches, join: Some(Box::new(join)) }
}

impl<C, Input, Output, M, Cont: ContinuationState, R: RegistryBehavior> ForkBuilder<
    C,
    Input,
    Output,
    M,
    Cont,
    R,
> {
    /// The contents of the builder, but for the branches.
    pub open spec fn plan(self) -> Plan<C, M> {
        Plan {
            context: self.context,
            tree: self.continuation.tree(),
            records: self.registry.records(),
            last: None,
            branches: self.branch_counter as nat,
            loops: self.loop_counter as nat,
            children: self.child_counter as nat,
            faults: self.errors@,
        }
    }

    /// Add a branch to the fork, and register it where tasks are.
    pub fn branch(self, id: &str, func: TaskHandle) -> (r: Self)
        ensures
            r.plan() == builder::with_record(
                self.plan(),
                R::tracking(),
                id@,
                func,
                task::no_meta(),
            ),
            branch_list(r.branches@) == branch_list(self.branches@).push((id@, func)),
    {
        let mut b = self;
        b.registry.maybe_register(id, func);
        push_branch(&mut b.branches, id, func);
        b
    }

    /// Add a task by its definition as a branch, and register it where tasks are.
    pub fn branch_task_with(self, task: TaskDefinition) -> (r: Self)
        ensures
            r.plan() == builder::with_record(
                self.plan(),
                R::tracking(),
                task.task_id@,
                task.handle,
                task.metadata@,
            ),
            branch_list(r.branches@) == branch_list(self.branches@).push(
                (task.task_id@, task.handle),
            ),
    {
        let mut b = self;
        push_branch(&mut b.branches, task.task_id.as_str(), task.handle);
        b.registry.maybe_register_core_task(task.task_id.as_str(), task.handle, task.metadata);
        b
    }

    /// The workflow builder with the finished fork.
    fn close<JoinOutput>(
        self,
        branches: Vec<Arc<WorkflowContinuation>>,
        join: WorkflowContinuation,
        id: &str,
    ) -> (r: WorkflowBuilder<C, Input, JoinOutput, M, WorkflowContinuation, R>)
        ensures
            r.plan() == builder::with_node(
                self.plan(),
                fork_node(
                    branch_ids(branch_list(self.branches@)),
                    Seq::new(branches@.len(), |i: int| branches@[i].node()),
                    join.node(),
                ),
                id@,
            ),
    {
        let mut ids: Vec<String> = Vec::new();
        let ghost s = branch_list(self.branches@);
        let mut i: usize = 0;
        while i < self.branches.len()
            invariant
                i <= self.branches@.len(),
                s == branch_list(self.branches@),
                text::texts(ids@) == branch_ids(s).take(i as int),
            decreases self.branches@.len() - i,
        {
            let id = self.branches[i].id.clone();
            proof {
                text::lemma_texts_push(ids@, id);
                assert(branch_ids(s).take(i + 1) =~= branch_ids(s).take(i as int).push(id@));
            }
            ids.push(id);
            i = i + 1;
        }
        proof {
            assert(branch_ids(s).take(i as int) =~= branch_ids(s));
        }
        let ghost nodes = Seq::new(branches@.len(), |i: int| branches@[i].node());
        let node = WorkflowContinuation::Fork {
            id: WorkflowContinuation::derive_fork_id(&ids),
            branches,
            join: Some(Box::new(join)),
        };
        proof {
            assert(node.node()->branches =~= nodes);
        }
        WorkflowBuilder {
            continuation: self.continuation.append(node),
            context: self.context,
            registry: self.registry,
            last_task_id: Some(String::from_str(id)),
            branch_counter: self.branch_counter,
            loop_counter: self.loop_counter,
            child_counter: self.child_counter,
            errors: self.errors,
            flow: PhantomData,
        }
    }

    /// Join the results from all branches, and register the join where tasks are.
    pub fn join<JoinOutput>(self, id: &str, func: TaskHandle) -> (r: WorkflowBuilder<
        C,
        Input,
        JoinOutput,
        M,
        WorkflowContinuation,
        R,
    >)
        ensures
            r.plan() == builder::with_node(
                builder::with_record(self.plan(), R::tracking(), id@, func, task::no_meta()),
                fork_node(
                    branch_ids(branch_list(self.branches@)),
                    bare_branches(branch_list(self.branches@)),
                    builder::bare_node(id@, func),
                ),
                id@,
            ),
    {
        let mut b = self;
        b.registry.maybe_register(id, func);
        let ghost s = branch_list(b.branches@);
        let mut conts: Vec<Arc<WorkflowContinuation>> = Vec::new();
        let mut i: usize = 0;
        while i < b.branches.len()
            invariant
                i <= b.branches@.len(),
                s == branch_list(b.branches@),
                Seq::new(conts@.len(), |j: int| conts@[j].node()) == bare_branches(s).take(
                    i as int,
                ),
            decreases b.branches@.len() - i,
        {
            let ghost before = Seq::new(conts@.len(), |j: int| conts@[j].node());
            let c = bare_task(b.branches[i].id.as_str(), b.branches[i].task);
            let ghost n = c.node();
            conts.push(Arc::new(c));
            proof {
                assert(Seq::new(conts@.len(), |j: int| conts@[j].node()) =~= before.push(n));
                assert(bare_branches(s).take(i + 1) =~= bare_branches(s).take(i as int).push(n));
            }
            i = i + 1;
        }
        proof {
            assert(bare_branches(s).take(i as int) =~= bare_branches(s));
        }
        let join = bare_task(id, func);
        b.close(conts, join, id)
    }
}

impl<C, Input, Output, M, Cont: ContinuationState> ForkBuilder<
    C,
    Input,
    Output,
    M,
    Cont,
    TaskRegistry,
> {
    /// Add a pre-registered branch task by id.
    ///
    /// If the id is not found, the error is recorded and reported by `build`.
    pub fn branch_registered(self, id: &str) -> (r: Self)
        ensures
            match builder::handle_on_record(self.plan().records.handles, id@) {
                Some(h) => r.plan() == self.plan() && branch_list(r.branches@) == branch_list(
                    self.branches@,
                ).push((id@, h)),
                None => r.plan() == builder::with_fault(
                    self.plan(),
                    true,
                    Fault::TaskNotFound(id@),
                ) && r.branches@ == self.branches@,
            },
    {
        let mut b = self;
        match b.registry.get(id) {
            Some(h) => {
                push_branch(&mut b.branches, id, h);
            },
            None => {
                b.errors.push(BuildError::TaskNotFound(String::from_str(id)));
            },
        }
        b
    }

    /// Join using a pre-registered join task by id. Branches and join take their
    /// metadata from the registry.
    ///
    /// If the id is not found, the error is recorded and reported by `build`.
    pub fn join_registered<JoinOutput>(self, id: &str) -> (r: WorkflowBuilder<
        C,
        Input,
        JoinOutput,
        M,
        WorkflowContinuation,
        TaskRegistry,
    >)
        ensures
            r.plan() == builder::with_node(
                builder::with_fault(
                    self.plan(),
                    !self.plan().records.handles.dom().contains(id@),
                    Fault::TaskNotFound(id@),
                ),
                fork_node(
                    branch_ids(branch_list(self.branches@)),
                    recorded_branches(self.plan().records, branch_list(self.branches@)),
                    builder::registered_node(self.plan().records, id@, None),
                ),
                id@,
            ),
    {
        let mut b = self;
        if !b.registry.contains(id) {
            b.errors.push(BuildError::TaskNotFound(String::from_str(id)));
        }
        let ghost s = branch_list(b.branches@);
        let ghost r = b.registry.records();
        let mut conts: Vec<Arc<WorkflowContinuation>> = Vec::new();
        let mut i: usize = 0;
        while i < b.branches.len()
            invariant
                i <= b.branches@.len(),
                s == branch_list(b.branches@),
                r == b.registry.records(),
                Seq::new(conts@.len(), |j: int| conts@[j].node()) == recorded_branches(r, s).take(
                    i as int,
                ),
            decreases b.branches@.len() - i,
        {
            let ghost before = Seq::new(conts@.len(), |j: int| conts@[j].node());
            let metadata = registry_metadata(&b.registry, b.branches[i].id.as_str());
            let c = task_continuation(
                b.branches[i].id.as_str(),
                Some(b.branches[i].task),
                &metadata,
                None,
            );
            let ghost n = c.node();
            conts.push(Arc::new(c));
            proof {
                assert(Seq::new(conts@.len(), |j: int| conts@[j].node()) =~= before.push(n));
                assert(recorded_branches(r, s).take(i + 1) =~= recorded_branches(r, s).take(
                    i as int,
                ).push(n));
            }
            i = i + 1;
        }
        proof {
            assert(recorded_branches(r, s).take(i as int) =~= recorded_branches(r, s));
        }
        let join = registered_task(&b.registry, id, None);
        b.close(conts, join, id)
    }
}

} // verus!
