//! Fluent workflow builder API.
//!
//! [`WorkflowBuilder`] is the primary entry point for constructing workflows
//! programmatically. It supports sequential tasks (`then`), parallel fork/join
//! (`branches` and `join`), durable delays, signal waits, loops, child workflows
//! and conditional routing (`route`).
//!
//! What every step does is stated over a [`Plan`], the contents of a builder.
//! Errors are collected on the way and reported by `build`.
use crate::context::WorkflowContext;
use crate::continuation;
use crate::continuation::WorkflowContinuation;
use crate::continuation_builder;
use crate::continuation_builder::{numbered_id, task_continuation};
use crate::duration::Duration;
use crate::error::{BuildError, BuildErrors, Fault};
use crate::laws;
use crate::registry::TaskRegistry;
use crate::step_laws;
use crate::task;
use crate::task::{clone_opt_retry, Meta, TaskDefinition, TaskHandle, TaskMetadata};
use crate::text;
use crate::text::{clone_opt_text, concat};
use crate::tree;
use crate::tree::{Change, Node};
use crate::workflow;
use crate::workflow::{loop_node_id, MaxIterationsPolicy, SerializableWorkflow, Workflow};
use std::marker::PhantomData;
use std::sync::Arc;
use vstd::prelude::*;

verus! {

/// Marker type for an empty continuation (no tasks yet).
pub struct NoContinuation;

/// Marker type for no registry (non-serializable workflow).
pub struct NoRegistry;

/// A tree with a node hung on its end; the node alone where there is no tree yet.
pub open spec fn extended(t: Option<Node>, n: Node) -> Node {
    match t {
        Some(m) => tree::appended(m, n),
        None => n,
    }
}

/// What stands so far of a workflow: nothing yet, or a tree.
pub trait ContinuationState: Sized {
    /// The tree so far.
    spec fn tree(self) -> Option<Node>;

    /// Append a new node, returning the whole tree.
    fn append(self, new_task: WorkflowContinuation) -> (r: WorkflowContinuation)
        ensures
            r.node() == extended(self.tree(), new_task.node()),
    ;
}

impl ContinuationState for NoContinuation {
    open spec fn tree(self) -> Option<Node> {
        None
    }

    fn append(self, new_task: WorkflowContinuation) -> (r: WorkflowContinuation) {
        new_task
    }
}

impl ContinuationState for WorkflowContinuation {
    open spec fn tree(self) -> Option<Node> {
        Some(self.node())
    }

    fn append(self, new_task: WorkflowContinuation) -> (r: WorkflowContinuation) {
        let mut all = self;
        all.append_to_chain(new_task);
        all
    }
}

/// The implementations and metadata that are registered under each id.
pub struct Records {
    pub handles: Map<Seq<char>, TaskHandle>,
    pub metas: Map<Seq<char>, Meta>,
}

/// Records with one task more; the same ones where nothing is tracked.
pub open spec fn recorded(
    tracking: bool,
    r: Records,
    id: Seq<char>,
    handle: TaskHandle,
    m: Meta,
) -> Records {
    if tracking {
        Records { handles: r.handles.insert(id, handle), metas: r.metas.insert(id, m) }
    } else {
        r
    }
}

/// The metadata on record for an id; none where the id is not registered.
pub open spec fn meta_on_record(metas: Map<Seq<char>, Meta>, id: Seq<char>) -> Meta {
    if metas.dom().contains(id) {
        metas[id]
    } else {
        task::no_meta()
    }
}

/// The implementation on record for an id.
pub open spec fn handle_on_record(
    handles: Map<Seq<char>, TaskHandle>,
    id: Seq<char>,
) -> Option<TaskHandle> {
    if handles.dom().contains(id) {
        Some(handles[id])
    } else {
        None
    }
}

/// Where the tasks of a workflow are registered, if anywhere.
pub trait RegistryBehavior: Sized {
    /// Whether tasks are registered at all.
    spec fn tracking() -> bool;

    /// What is registered.
    spec fn records(self) -> Records;

    /// Register a task without metadata (no-op for `NoRegistry`).
    fn maybe_register(&mut self, id: &str, handle: TaskHandle)
        ensures
            final(self).records() == recorded(
                Self::tracking(),
                old(self).records(),
                id@,
                handle,
                task::no_meta(),
            ),
    ;

    /// Register a task with its metadata (no-op for `NoRegistry`).
    fn maybe_register_core_task(&mut self, id: &str, handle: TaskHandle, metadata: TaskMetadata)
        ensures
            final(self).records() == recorded(
                Self::tracking(),
                old(self).records(),
                id@,
                handle,
                metadata@,
            ),
    ;
}

impl RegistryBehavior for NoRegistry {
    open spec fn tracking() -> bool {
        false
    }

    open spec fn records(self) -> Records {
        Records { handles: Map::empty(), metas: Map::empty() }
    }

    fn maybe_register(&mut self, id: &str, handle: TaskHandle) {
    }

    fn maybe_register_core_task(&mut self, id: &str, handle: TaskHandle, metadata: TaskMetadata) {
    }
}

impl RegistryBehavior for TaskRegistry {
    open spec fn tracking() -> bool {
        true
    }

    open spec fn records(self) -> Records {
        Records { handles: self.handles(), metas: self.metas() }
    }

    fn maybe_register(&mut self, id: &str, handle: TaskHandle) {
        self.register(id, handle);
    }

    fn maybe_register_core_task(&mut self, id: &str, handle: TaskHandle, metadata: TaskMetadata) {
        self.register_with_metadata(id, handle, metadata);
    }
}

/// The metadata registered under an id, or metadata that configures nothing.
pub(crate) fn registry_metadata(registry: &TaskRegistry, id: &str) -> (r: TaskMetadata)
    ensures
        r@ == meta_on_record(registry.metas(), id@),
{
    match registry.get_metadata(id) {
        Some(m) => m.clone(),
        None => TaskMetadata::default(),
    }
}

/// The node of a registered task, without an implementation where there is none.
pub open spec fn registered_node(r: Records, id: Seq<char>, next: Option<Box<Node>>) -> Node {
    continuation_builder::task_node(
        id,
        handle_on_record(r.handles, id),
        meta_on_record(r.metas, id),
        next,
    )
}

/// The node of a registered task.
pub(crate) fn registered_task(
    registry: &TaskRegistry,
    id: &str,
    next: Option<Box<WorkflowContinuation>>,
) -> (r: WorkflowContinuation)
    ensures
        r.node() == registered_node(registry.records(), id@, continuation::opt_node(next)),
{
    let metadata = registry_metadata(registry, id);
    task_continuation(id, registry.get(id), &metadata, next)
}

/// The node of a task without metadata.
pub open spec fn bare_node(id: Seq<char>, handle: TaskHandle) -> Node {
    continuation_builder::task_node(id, Some(handle), task::no_meta(), None)
}

/// The node of a task without metadata.
pub(crate) fn bare_task(id: &str, handle: TaskHandle) -> (r: WorkflowContinuation)
    ensures
        r.node() == bare_node(id@, handle),
{
    task_continuation(id, Some(handle), &TaskMetadata::default(), None)
}

/// The contents of a builder.
pub struct Plan<C, M> {
    /// The context.
    pub context: WorkflowContext<C, M>,
    /// The tree so far.
    pub tree: Option<Node>,
    /// What is registered.
    pub records: Records,
    /// The id that `with_metadata` is about.
    pub last: Option<Seq<char>>,
    /// Number of routes so far.
    pub branches: nat,
    /// Number of loops so far.
    pub loops: nat,
    /// Number of child workflows so far.
    pub children: nat,
    /// The errors so far.
    pub faults: Seq<Fault>,
}

/// A plan with one node more, under whose id metadata can follow.
pub open spec fn with_node<C, M>(p: Plan<C, M>, n: Node, last: Seq<char>) -> Plan<C, M> {
    Plan { tree: Some(extended(p.tree, n)), last: Some(last), ..p }
}

/// A plan with a task registered, where tasks are.
pub open spec fn with_record<C, M>(
    p: Plan<C, M>,
    tracking: bool,
    id: Seq<char>,
    handle: TaskHandle,
    m: Meta,
) -> Plan<C, M> {
    Plan { records: recorded(tracking, p.records, id, handle, m), ..p }
}

/// A plan with an error more where it is due.
pub open spec fn with_fault<C, M>(p: Plan<C, M>, due: bool, f: Fault) -> Plan<C, M> {
    if due {
        Plan { faults: p.faults.push(f), ..p }
    } else {
        p
    }
}

/// Fluent builder for assembling workflow pipelines.
///
/// Start with [`WorkflowBuilder::new`], chain steps, and finish with `build`. Call
/// `with_registry` before adding steps to get a [`SerializableWorkflow`].
pub struct WorkflowBuilder<C, Input, Output, M = (), Cont = NoContinuation, R = NoRegistry> {
    /// The context.
    pub context: WorkflowContext<C, M>,
    /// The tree so far.
    pub continuation: Cont,
    /// Where tasks are registered.
    pub registry: R,
    /// The id that `with_metadata` is about.
    pub last_task_id: Option<String>,
    /// Number of routes so far.
    pub branch_counter: usize,
    /// Number of loops so far.
    pub loop_counter: usize,
    /// Number of child workflows so far.
    pub child_counter: usize,
    /// The errors so far.
    pub errors: BuildErrors,
    /// The types of the data that flows in and out.
    pub flow: PhantomData<(Input, Output)>,
}

impl<C, Input, Output, M, Cont: ContinuationState, R: RegistryBehavior> WorkflowBuilder<
    C,
    Input,
    Output,
    M,
    Cont,
    R,
> {
    /// The contents of the builder.
    pub open spec fn plan(self) -> Plan<C, M> {
        Plan {
            context: self.context,
            tree: self.continuation.tree(),
            records: self.registry.records(),
            last: text::opt_text(self.last_task_id),
            branches: self.branch_counter as nat,
            loops: self.loop_counter as nat,
            children: self.child_counter as nat,
            faults: self.errors@,
        }
    }

    /// The builder with a node more.
    fn next_step<NewOutput>(self, node: WorkflowContinuation, last: &str) -> (r: WorkflowBuilder<
        C,
        Input,
        NewOutput,
        M,
        WorkflowContinuation,
        R,
    >)
        ensures
            r.plan() == with_node(self.plan(), node.node(), last@),
    {
        WorkflowBuilder {
            continuation: self.continuation.append(node),
            context: self.context,
            registry: self.registry,
            last_task_id: Some(String::from_str(last)),
            branch_counter: self.branch_counter,
            loop_counter: self.loop_counter,
            child_counter: self.child_counter,
            errors: self.errors,
            flow: PhantomData,
        }
    }
}

/// The contents of a new builder.
pub open spec fn fresh<C, M>(context: WorkflowContext<C, M>, records: Records) -> Plan<C, M> {
    Plan {
        context,
        tree: None,
        records,
        last: None,
        branches: 0,
        loops: 0,
        children: 0,
        faults: seq![],
    }
}

impl<C, Input, M> WorkflowBuilder<C, Input, Input, M, NoContinuation, NoRegistry> {
    /// Create a new workflow builder with a context object.
    pub fn new(ctx: WorkflowContext<C, M>) -> (r: Self)
        ensures
            r.plan() == fresh(ctx, NoRegistry.records()),
    {
        WorkflowBuilder {
            context: ctx,
            continuation: NoContinuation,
            registry: NoRegistry,
            last_task_id: None,
            branch_counter: 0,
            loop_counter: 0,
            child_counter: 0,
            errors: BuildErrors::new(),
            flow: PhantomData,
        }
    }

    /// Enable registry tracking for serializable workflows with a new empty registry.
    pub fn with_registry(self) -> (r: WorkflowBuilder<
        C,
        Input,
        Input,
        M,
        NoContinuation,
        TaskRegistry,
    >)
        ensures
            r.plan() == fresh(
                self.context,
                Records { handles: Map::empty(), metas: Map::empty() },
            ),
    {
        self.with_existing_registry(TaskRegistry::new())
    }

    /// Enable registry tracking with an existing registry.
    ///
    /// Use this to reference pre-registered tasks via `then_registered` or to
    /// compose workflows from task libraries.
    pub fn with_existing_registry(self, registry: TaskRegistry) -> (r: WorkflowBuilder<
        C,
        Input,
        Input,
        M,
        NoContinuation,
        TaskRegistry,
    >)
        ensures
            r.plan() == fresh(self.context, registry.records()),
    {
        WorkflowBuilder {
            context: self.context,
            continuation: NoContinuation,
            registry,
            last_task_id: None,
            branch_counter: 0,
            loop_counter: 0,
            child_counter: 0,
            errors: BuildErrors::new(),
            flow: PhantomData,
        }
    }
}

/// The node of a loop around a body.
pub open spec fn loop_node(
    id: Seq<char>,
    body: Node,
    max_iterations: u32,
    on_max: MaxIterationsPolicy,
) -> Node {
    Node::Loop {
        id,
        body: Box::new(body),
        max_iterations,
        on_max,
        next: None,
    }
}

/// A plan with a loop around a body more, under an id.
pub open spec fn with_named_loop<C, M>(
    p: Plan<C, M>,
    id: Seq<char>,
    body: Node,
    max_iterations: u32,
    on_max: MaxIterationsPolicy,
) -> Plan<C, M> {
    Plan {
        loops: p.loops + 1,
        ..with_node(p, loop_node(id, body, max_iterations, on_max), id)
    }
}

/// A plan with a loop around a body more, numbered.
pub open spec fn with_loop<C, M>(
    p: Plan<C, M>,
    body: Node,
    max_iterations: u32,
    on_max: MaxIterationsPolicy,
) -> Plan<C, M> {
    with_named_loop(p, workflow::loop_id_text(p.loops), body, max_iterations, on_max)
}

impl<C, Input, Output, M, Cont: ContinuationState, R: RegistryBehavior> WorkflowBuilder<
    C,
    Input,
    Output,
    M,
    Cont,
    R,
> {
    /// Add a sequential task to the workflow, and register it where tasks are.
    pub fn then<NewOutput>(self, id: &str, func: TaskHandle) -> (r: WorkflowBuilder<
        C,
        Input,
        NewOutput,
        M,
        WorkflowContinuation,
        R,
    >)
        ensures
            r.plan() == with_node(
                with_record(self.plan(), R::tracking(), id@, func, task::no_meta()),
                bare_node(id@, func),
                id@,
            ),
            step_laws::adds_bare_task(self.plan(), r.plan(), R::tracking(), id@, func),
    {
        proof {
            step_laws::law_bare_task_is_added(self.plan(), R::tracking(), id@, func);
        }
        let mut b = self;
        b.registry.maybe_register(id, func);
        b.next_step(bare_task(id, func), id)
    }

    /// The builder with a loop around a body more, under an id.
    fn next_loop<NewOutput>(
        self,
        loop_id: String,
        body: WorkflowContinuation,
        max_iterations: u32,
        on_max: MaxIterationsPolicy,
    ) -> (r: WorkflowBuilder<C, Input, NewOutput, M, WorkflowContinuation, R>)
        requires
            self.plan().loops < usize::MAX,
        ensures
            r.plan() == with_named_loop(
                self.plan(),
                loop_id@,
                body.node(),
                max_iterations,
                on_max,
            ),
    {
        let mut b = self;
        b.loop_counter = b.loop_counter + 1;
        let node = WorkflowContinuation::Loop {
            id: loop_id.clone(),
            body: Box::new(body),
            max_iterations,
            on_max,
            next: None,
        };
        b.next_step(node, loop_id.as_str())
    }

    /// Add a loop task that fails at the maximum number of iterations.
    ///
    /// The body says of each result whether to run it again or to leave the loop. If
    /// `max_iterations` is 0, an error is recorded and reported by `build`.
    pub fn loop_task<NewOutput>(self, id: &str, func: TaskHandle, max_iterations: u32) -> (r:
        WorkflowBuilder<C, Input, NewOutput, M, WorkflowContinuation, R>)
        requires
            self.plan().loops < usize::MAX,
        ensures
            r.plan() == with_loop(
                with_record(
                    with_fault(
                        self.plan(),
                        max_iterations == 0,
                        Fault::InvalidMaxIterations(id@),
                    ),
                    R::tracking(),
                    id@,
                    func,
                    task::no_meta(),
                ),
                bare_node(id@, func),
                max_iterations,
                MaxIterationsPolicy::Fail,
            ),
    {
        self.loop_task_with_policy(id, func, max_iterations, MaxIterationsPolicy::Fail)
    }

    /// Add a loop task with a custom [`MaxIterationsPolicy`].
    pub fn loop_task_with_policy<NewOutput>(
        self,
        id: &str,
        func: TaskHandle,
        max_iterations: u32,
        on_max: MaxIterationsPolicy,
    ) -> (r: WorkflowBuilder<C, Input, NewOutput, M, WorkflowContinuation, R>)
        requires
            self.plan().loops < usize::MAX,
        ensures
            r.plan() == with_loop(
                with_record(
                    with_fault(
                        self.plan(),
                        max_iterations == 0,
                        Fault::InvalidMaxIterations(id@),
                    ),
                    R::tracking(),
                    id@,
                    func,
                    task::no_meta(),
                ),
                bare_node(id@, func),
                max_iterations,
                on_max,
            ),
    {
        let mut b = self;
        if max_iterations == 0 {
            b.errors.push(BuildError::InvalidMaxIterations(String::from_str(id)));
        }
        b.registry.maybe_register(id, func);
        let loop_id = loop_node_id(b.loop_counter);
        b.next_loop(loop_id, bare_task(id, func), max_iterations, on_max)
    }

    /// Add a task by its definition: its id, metadata and implementation.
    pub fn then_task_with<NewOutput>(self, task: TaskDefinition) -> (r: WorkflowBuilder<
        C,
        Input,
        NewOutput,
        M,
        WorkflowContinuation,
        R,
    >)
        ensures
            r.plan() == with_node(
                with_record(
                    self.plan(),
                    R::tracking(),
                    task.task_id@,
                    task.handle,
                    task.metadata@,
                ),
                continuation_builder::task_node(
                    task.task_id@,
                    Some(task.handle),
                    task.metadata@,
                    None,
                ),
                task.task_id@,
            ),
    {
        let mut b = self;
        let node = task_continuation(
            task.task_id.as_str(),
            Some(task.handle),
            &task.metadata,
            None,
        );
        b.registry.maybe_register_core_task(task.task_id.as_str(), task.handle, task.metadata);
        b.next_step(node, task.task_id.as_str())
    }

    /// Add a loop task by its definition; it fails at the maximum number of
    /// iterations.
    pub fn loop_task_struct_with<NewOutput>(self, task: TaskDefinition, max_iterations: u32) -> (r:
        WorkflowBuilder<C, Input, NewOutput, M, WorkflowContinuation, R>)
        requires
            self.plan().loops < usize::MAX,
        ensures
            r.plan() == with_loop(
                with_record(
                    with_fault(
                        self.plan(),
                        max_iterations == 0,
                        Fault::InvalidMaxIterations(task.task_id@),
                    ),
                    R::tracking(),
                    task.task_id@,
                    task.handle,
                    task.metadata@,
                ),
                continuation_builder::task_node(
                    task.task_id@,
                    Some(task.handle),
                    task.metadata@,
                    None,
                ),
                max_iterations,
                MaxIterationsPolicy::Fail,
            ),
    {
        self.loop_task_struct_with_policy(task, max_iterations, MaxIterationsPolicy::Fail)
    }

    /// Add a loop task by its definition, with a custom [`MaxIterationsPolicy`].
    pub fn loop_task_struct_with_policy<NewOutput>(
        self,
        task: TaskDefinition,
        max_iterations: u32,
        on_max: MaxIterationsPolicy,
    ) -> (r: WorkflowBuilder<C, Input, NewOutput, M, WorkflowContinuation, R>)
        requires
            self.plan().loops < usize::MAX,
        ensures
            r.plan() == with_loop(
                with_record(
                    with_fault(
                        self.plan(),
                        max_iterations == 0,
                        Fault::InvalidMaxIterations(task.task_id@),
                    ),
                    R::tracking(),
                    task.task_id@,
                    task.handle,
                    task.metadata@,
                ),
                continuation_builder::task_node(
                    task.task_id@,
                    Some(task.handle),
                    task.metadata@,
                    None,
                ),
                max_iterations,
                on_max,
            ),
    {
        let mut b = self;
        if max_iterations == 0 {
            b.errors.push(BuildError::InvalidMaxIterations(task.task_id.clone()));
        }
        let body = task_continuation(
            task.task_id.as_str(),
            Some(task.handle),
            &task.metadata,
            None,
        );
        b.registry.maybe_register_core_task(task.task_id.as_str(), task.handle, task.metadata);
        let loop_id = loop_node_id(b.loop_counter);
        b.next_loop(loop_id, body, max_iterations, on_max)
    }

    /// Add a durable delay. The data passes through unchanged.
    pub fn delay(self, id: &str, duration: Duration) -> (r: WorkflowBuilder<
        C,
        Input,
        Output,
        M,
        WorkflowContinuation,
        R,
    >)
        ensures
            r.plan() == with_node(
                self.plan(),
                Node::Delay { id: id@, duration, next: None },
                id@,
            ),
    {
        let node = WorkflowContinuation::Delay { id: String::from_str(id), duration, next: None };
        self.next_step(node, id)
    }

    /// Wait for a named external signal before continuing.
    ///
    /// The signal payload becomes the input to the next step.
    pub fn wait_for_signal(self, id: &str, signal_name: &str, timeout: Option<Duration>) -> (r:
        WorkflowBuilder<C, Input, Output, M, WorkflowContinuation, R>)
        ensures
            r.plan() == with_node(
                self.plan(),
                Node::AwaitSignal { id: id@, signal_name: signal_name@, timeout, next: None },
                id@,
            ),
    {
        let node = WorkflowContinuation::AwaitSignal {
            id: String::from_str(id),
            signal_name: String::from_str(signal_name),
            timeout,
            next: None,
        };
        self.next_step(node, id)
    }

    /// The builder with a child tree more.
    fn next_child<ChildOutput>(self, child: WorkflowContinuation) -> (r: WorkflowBuilder<
        C,
        Input,
        ChildOutput,
        M,
        WorkflowContinuation,
        R,
    >)
        requires
            self.plan().children < usize::MAX,
        ensures
            r.plan() == with_child(self.plan(), child.node()),
    {
        let mut b = self;
        let child_id = numbered_id("child_", b.child_counter);
        b.child_counter = b.child_counter + 1;
        let node = WorkflowContinuation::ChildWorkflow {
            id: child_id.clone(),
            child: Arc::new(child),
            next: None,
        };
        b.next_step(node, child_id.as_str())
    }

    /// Inline a child workflow into the pipeline. The child's output becomes the
    /// input to the next step.
    pub fn then_flow<ChildOutput>(self, child: Workflow<C, ChildOutput, M>) -> (r: WorkflowBuilder<
        C,
        Input,
        ChildOutput,
        M,
        WorkflowContinuation,
        R,
    >)
        requires
            self.plan().children < usize::MAX,
        ensures
            r.plan() == with_child(self.plan(), child.continuation.node()),
    {
        self.next_child(child.into_continuation())
    }
}

/// A plan with an inlined child tree more.
pub open spec fn with_child<C, M>(p: Plan<C, M>, child: Node) -> Plan<C, M> {
    let id = continuation_builder::numbered("child_"@, p.children);
    Plan {
        children: p.children + 1,
        ..with_node(p, Node::ChildWorkflow { id, child: Box::new(child), next: None }, id)
    }
}

impl<C, Input, Output, M, Cont: ContinuationState> WorkflowBuilder<
    C,
    Input,
    Output,
    M,
    Cont,
    TaskRegistry,
> {
    /// Inline a serializable child workflow. Its registered tasks are taken over, in
    /// place of tasks under the same ids.
    pub fn then_serializable_flow<ChildOutput>(
        self,
        child: SerializableWorkflow<C, ChildOutput, M>,
    ) -> (r: WorkflowBuilder<C, Input, ChildOutput, M, WorkflowContinuation, TaskRegistry>)
        requires
            self.plan().children < usize::MAX,
        ensures
            r.plan() == with_child(
                Plan {
                    records: Records {
                        handles: self.plan().records.handles.union_prefer_right(
                            child.registry.handles(),
                        ),
                        metas: self.plan().records.metas.union_prefer_right(
                            child.registry.metas(),
                        ),
                    },
                    ..self.plan()
                },
                child.inner.continuation.node(),
            ),
    {
        let mut b = self;
        let (child_cont, child_registry) = child.into_parts();
        b.registry.merge(child_registry);
        b.next_child(child_cont)
    }

    /// Reference a pre-registered task by id.
    ///
    /// If the id is not found in the registry, the error is recorded and reported by
    /// `build`.
    pub fn then_registered<NewOutput>(self, id: &str) -> (r: WorkflowBuilder<
        C,
        Input,
        NewOutput,
        M,
        WorkflowContinuation,
        TaskRegistry,
    >)
        ensures
            r.plan() == with_node(
                with_fault(
                    self.plan(),
                    !self.plan().records.handles.dom().contains(id@),
                    Fault::TaskNotFound(id@),
                ),
                registered_node(self.plan().records, id@, None),
                id@,
            ),
    {
        let mut b = self;
        if !b.registry.contains(id) {
            b.errors.push(BuildError::TaskNotFound(String::from_str(id)));
        }
        let node = registered_task(&b.registry, id, None);
        b.next_step(node, id)
    }

    /// Reference a pre-registered loop body task by id. The id of the loop node is
    /// `loop_{body_task_id}`.
    ///
    /// If the id is not found in the registry or `max_iterations` is 0, the error is
    /// recorded and reported by `build`.
    pub fn loop_task_registered<NewOutput>(
        self,
        body_task_id: &str,
        max_iterations: u32,
        on_max: MaxIterationsPolicy,
    ) -> (r: WorkflowBuilder<C, Input, NewOutput, M, WorkflowContinuation, TaskRegistry>)
        requires
            self.plan().loops < usize::MAX,
        ensures
            r.plan() == with_named_loop(
                with_fault(
                    with_fault(
                        self.plan(),
                        max_iterations == 0,
                        Fault::InvalidMaxIterations(body_task_id@),
                    ),
                    !self.plan().records.handles.dom().contains(body_task_id@),
                    Fault::TaskNotFound(body_task_id@),
                ),
                "loop_"@ + body_task_id@,
                registered_node(self.plan().records, body_task_id@, None),
                max_iterations,
                on_max,
            ),
    {
        let mut b = self;
        if max_iterations == 0 {
            b.errors.push(BuildError::InvalidMaxIterations(String::from_str(body_task_id)));
        }
        if !b.registry.contains(body_task_id) {
            b.errors.push(BuildError::TaskNotFound(String::from_str(body_task_id)));
        }
        let body = registered_task(&b.registry, body_task_id, None);
        b.next_loop(concat("loop_", body_task_id), body, max_iterations, on_max)
    }
}

/// A plan with metadata attached to the task added last: in the registry, where the
/// task is registered, and timeout, retry policy and version in the tree.
pub open spec fn with_meta<C, M>(p: Plan<C, M>, m: Meta) -> Plan<C, M> {
    match (p.last, p.tree) {
        (Some(id), Some(t)) => Plan {
            records: Records {
                handles: p.records.handles,
                metas: if p.records.metas.dom().contains(id) {
                    p.records.metas.insert(id, m)
                } else {
                    p.records.metas
                },
            },
            tree: Some(
                continuation::after_change(
                    continuation::after_change(
                        continuation::after_change(t, id, Change::Timeout(m.timeout)),
                        id,
                        Change::Retry(m.retries),
                    ),
                    id,
                    Change::Version(m.version),
                ),
            ),
            ..p
        },
        _ => p,
    }
}

/// The errors of a finished plan: those collected, and an id that is used twice.
pub open spec fn final_faults<C, M>(p: Plan<C, M>) -> Seq<Fault> {
    match p.tree {
        Some(t) => match tree::duplicate_id(t) {
            Some(id) => p.faults.push(Fault::DuplicateTaskId(id)),
            None => p.faults,
        },
        None => p.faults,
    }
}

impl<C, Input, Output, M> WorkflowBuilder<
    C,
    Input,
    Output,
    M,
    WorkflowContinuation,
    TaskRegistry,
> {
    /// Attach metadata to the most recently added task.
    pub fn with_metadata(self, metadata: TaskMetadata) -> (r: Self)
        ensures
            r.plan() == with_meta(self.plan(), metadata@),
    {
        let mut b = self;
        let id = match &b.last_task_id {
            Some(id) => id.clone(),
            None => {
                return b;
            },
        };
        let timeout = metadata.timeout;
        let retry_policy = clone_opt_retry(&metadata.retries);
        let version = clone_opt_text(&metadata.version);
        b.registry.set_metadata(id.as_str(), metadata);
        b.continuation.set_task_timeout(id.as_str(), timeout);
        b.continuation.set_task_retry_policy(id.as_str(), retry_policy);
        b.continuation.set_task_version(id.as_str(), version);
        b
    }

    /// Build the workflow into a serializable workflow. It fails where errors were
    /// collected or an id is used twice.
    pub fn build(self) -> (r: Result<SerializableWorkflow<C, Input, M>, BuildErrors>)
        ensures
            match r {
                Ok(w) => {
                    &&& final_faults(self.plan()).len() == 0
                    &&& w.inner.wf()
                    &&& w.inner.context == self.context
                    &&& w.inner.continuation == self.continuation
                    &&& w.registry == self.registry
                },
                Err(e) => e@.len() > 0 && e@ == final_faults(self.plan()),
            },
    {
        let registry = self.registry;
        let inner = match finish(self.context, self.continuation, self.errors) {
            Ok(w) => w,
            Err(e) => {
                return Err(e);
            },
        };
        Ok(SerializableWorkflow { inner, registry })
    }
}

/// The workflow of a tree, unless there are errors or an id is used twice.
fn finish<C, Input, M>(
    context: WorkflowContext<C, M>,
    continuation: WorkflowContinuation,
    errors: BuildErrors,
) -> (r: Result<Workflow<C, Input, M>, BuildErrors>)
    ensures
        ({
            let owed = match tree::duplicate_id(continuation.node()) {
                Some(id) => errors@.push(Fault::DuplicateTaskId(id)),
                None => errors@,
            };
            match r {
                Ok(w) => owed.len() == 0 && w.wf() && w.context == context && w.continuation
                    == continuation,
                Err(e) => e@.len() > 0 && e@ == owed,
            }
        }),
{
    let mut all = errors;
    if let Some(dup) = continuation.find_duplicate_id() {
        all.push(BuildError::DuplicateTaskId(dup));
    }
    if !all.is_empty() {
        return Err(all);
    }
    let definition_hash = continuation.to_serializable().compute_definition_hash();
    proof {
        laws::law_stored_keeps_hash(continuation.node());
    }
    Ok(Workflow { definition_hash, continuation, context, input: PhantomData })
}

impl<C, Input, Output, M> WorkflowBuilder<
    C,
    Input,
    Output,
    M,
    WorkflowContinuation,
    NoRegistry,
> {
    /// Build the workflow into an executable workflow. It fails where errors were
    /// collected or an id is used twice.
    pub fn build(self) -> (r: Result<Workflow<C, Input, M>, BuildErrors>)
        ensures
            match r {
                Ok(w) => {
                    &&& final_faults(self.plan()).len() == 0
                    &&& w.wf()
                    &&& w.context == self.context
                    &&& w.continuation == self.continuation
                },
                Err(e) => e@.len() > 0 && e@ == final_faults(self.plan()),
            },
    {
        finish(self.context, self.continuation, self.errors)
    }
}

} // verus!
