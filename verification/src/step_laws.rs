//! What each step of a builder adds to a workflow, and what it leaves as it was.
use crate::builder;
use crate::branch_key::BranchKey;
use crate::builder::{
    ContinuationState, NoContinuation, NoRegistry, Plan, Records, RegistryBehavior, WorkflowBuilder,
};
use crate::change_laws;
use crate::continuation;
use crate::continuation::WorkflowContinuation;
use crate::continuation_builder;
use crate::duration::Duration;
use crate::error::{BuildError, BuildErrors, Fault};
use crate::fork_builder;
use crate::fork_builder::ForkBuilder;
use crate::task::BranchEnvelope;
use crate::laws;
use crate::priority;
use crate::registry::TaskRegistry;
use crate::route_builder;
use crate::route_builder::{Arms, RouteBuilder, RouteRegisteredBuilder, SubBuilder};
use crate::string_map;
use crate::task::{Meta, TaskDefinition, TaskHandle, TaskMetadata};
use crate::text;
use crate::tree;
use crate::tree::{Change, Node};
use crate::workflow::{MaxIterationsPolicy, SerializableWorkflow, Workflow};
use vstd::prelude::*;

verus! {

/// The nodes of a chain, from the first to the last, each with what follows it.
pub open spec fn links(n: Node) -> Seq<Node>
    decreases n,
{
    seq![n] + (match tree::next_of(n) {
        Some(m) => links(*m),
        None => seq![],
    })
}

/// Two nodes are the same but for what follows them.
pub open spec fn same_but_next(a: Node, b: Node) -> bool {
    match (a, b) {
        (
            Node::Task { id, func, timeout, retry, version, priority, tags, .. },
            Node::Task { .. },
        ) => id == b->Task_id && func == b->func && timeout == b->Task_timeout && retry == b->retry
            && version == b->version && priority == b->priority && tags == b->tags,
        (Node::Fork { id, branches, .. }, Node::Fork { .. }) => id == b->Fork_id && branches
            == b->Fork_branches,
        (Node::Delay { id, duration, .. }, Node::Delay { .. }) => id == b->Delay_id && duration
            == b->duration,
        (Node::AwaitSignal { id, signal_name, timeout, .. }, Node::AwaitSignal { .. }) => id
            == b->AwaitSignal_id && signal_name == b->signal_name && timeout
            == b->AwaitSignal_timeout,
        (Node::Branch { id, key_fn, arms, default, .. }, Node::Branch { .. }) => id == b->Branch_id
            && key_fn == b->key_fn && arms == b->arms && default == b->default,
        (Node::Loop { id, body, max_iterations, on_max, .. }, Node::Loop { .. }) => id == b->Loop_id
            && body == b->body && max_iterations == b->max_iterations && on_max == b->on_max,
        (Node::ChildWorkflow { id, child, .. }, Node::ChildWorkflow { .. }) => id
            == b->ChildWorkflow_id && child == b->child,
        _ => false,
    }
}

/// A tree is another one with `last` hung on its end, where there was one; else it is `last`.
pub open spec fn grown(before: Option<Node>, after: Option<Node>, last: Node) -> bool {
    &&& after is Some
    &&& match before {
        Some(t) => {
            let a = links(t);
            let b = links(after->0);
            &&& b.len() == a.len() + 1
            &&& b.last() == last
            &&& forall|i: int|
                #![trigger b[i]]
                0 <= i < a.len() ==> same_but_next(a[i], b[i])
        },
        None => after->0 == last,
    }
}

proof fn lemma_appended_is_grown(n: Node, m: Node)
    requires
        tree::next_of(m) is None || m is Fork,
    ensures
        links(tree::appended(n, m)).len() == links(n).len() + links(m).len(),
        links(tree::appended(n, m)).take(links(n).len() as int).len() == links(n).len(),
        links(tree::appended(n, m)).skip(links(n).len() as int) == links(m),
        forall|i: int|
            #![trigger links(tree::appended(n, m))[i]]
            0 <= i < links(n).len() ==> same_but_next(
                links(n)[i],
                links(tree::appended(n, m))[i],
            ),
    decreases n,
{
    let r = tree::appended(n, m);
    let a = links(n);
    let b = links(r);
    match tree::next_of(n) {
        Some(k) => {
            lemma_appended_is_grown(*k, m);
            let c = links(*k);
            let d = links(tree::appended(*k, m));
            assert(tree::next_of(r) == Some(Box::new(tree::appended(*k, m))));
            assert(b == seq![r] + d);
            assert(a == seq![n] + c);
            assert(b.skip(a.len() as int) =~= d.skip(c.len() as int));
            assert forall|i: int| #![trigger b[i]] 0 <= i < a.len() implies same_but_next(
                a[i],
                b[i],
            ) by {
                if i > 0 {
                    assert(b[i] == d[i - 1]);
                    assert(a[i] == c[i - 1]);
                }
            }
        },
        None => {
            assert(tree::next_of(r) == Some(Box::new(m)));
            assert(b == seq![r] + links(m));
            assert(a =~= seq![n]);
            assert(b.skip(1) =~= links(m));
        },
    }
}

/// A node that is hung on the end of a tree is its last one.
proof fn lemma_grown(t: Option<Node>, m: Node)
    requires
        tree::next_of(m) is None,
    ensures
        grown(t, Some(builder::extended(t, m)), m),
{
    if let Some(n) = t {
        lemma_appended_is_grown(n, m);
        let b = links(tree::appended(n, m));
        assert(links(m) =~= seq![m]);
        assert(b.skip(links(n).len() as int)[0] == b.last());
    }
}

/// A node is a task, the last of its chain, with this implementation and metadata.
pub open spec fn is_task(n: Node, id: Seq<char>, func: Option<TaskHandle>, m: Meta) -> bool {
    says_task(n, id, func, m) && n->Task_next is None
}

/// A node is a task with this implementation and metadata.
pub open spec fn says_task(n: Node, id: Seq<char>, func: Option<TaskHandle>, m: Meta) -> bool {
    &&& n is Task
    &&& n->Task_id == id
    &&& n->func == func
    &&& n->Task_timeout == m.timeout
    &&& n->retry == m.retries
    &&& n->version == m.version
    &&& n->tags == m.tags
    &&& n->priority is Some <==> m.priority is Some
    &&& m.priority is Some ==> n->priority->0 == priority::rank(m.priority->0)
}

/// A node is a task, the last of its chain, with this implementation and without metadata.
pub open spec fn is_bare_task(n: Node, id: Seq<char>, func: TaskHandle) -> bool {
    exists|m: Meta| #[trigger] is_task(n, id, Some(func), m) && is_bare(m)
}

/// No metadata.
pub open spec fn is_bare(m: Meta) -> bool {
    m.timeout is None && m.retries is None && m.version is None && m.priority is None
        && m.tags.len() == 0 && m.display_name is None && m.description is None
}

/// Nothing but the tree, the records, the errors and what metadata goes to differs.
pub open spec fn same_counts<C, M>(p: Plan<C, M>, q: Plan<C, M>) -> bool {
    p.context == q.context && p.branches == q.branches && p.loops == q.loops && p.children
        == q.children
}

/// A task is on record with this implementation and metadata, and every other one as before.
pub open spec fn on_record<C, M>(
    p: Plan<C, M>,
    q: Plan<C, M>,
    id: Seq<char>,
    func: TaskHandle,
    m: Meta,
) -> bool {
    &&& q.records.handles.dom().contains(id) && q.records.handles[id] == func
    &&& q.records.metas.dom().contains(id) && q.records.metas[id] == m
    &&& forall|other: Seq<char>|
        other != id ==> (#[trigger] q.records.handles.dom().contains(other)
            == p.records.handles.dom().contains(other)) && (p.records.handles.dom().contains(other)
            ==> q.records.handles[other] == p.records.handles[other])
    &&& forall|other: Seq<char>|
        other != id ==> (#[trigger] q.records.metas.dom().contains(other)
            == p.records.metas.dom().contains(other)) && (p.records.metas.dom().contains(other)
            ==> q.records.metas[other] == p.records.metas[other])
}

/// A plan is another one with a task without metadata at the end, which is registered where
/// tasks are, and to which metadata can follow.
pub open spec fn adds_bare_task<C, M>(
    p: Plan<C, M>,
    q: Plan<C, M>,
    tracking: bool,
    id: Seq<char>,
    func: TaskHandle,
) -> bool {
    &&& exists|n: Node, m: Meta|
        #[trigger] is_task(n, id, Some(func), m) && is_bare(m) && grown(p.tree, q.tree, n) && (
        tracking ==> on_record(p, q, id, func, m))
    &&& !tracking ==> q.records == p.records
    &&& q.last == Some(id)
    &&& q.faults == p.faults
    &&& same_counts(p, q)
}

/// A step with a task without metadata adds that task at the end, registers it where tasks
/// are registered, and makes it the one that metadata goes to.
pub proof fn law_bare_task_is_added<C, M>(
    p: Plan<C, M>,
    tracking: bool,
    id: Seq<char>,
    func: TaskHandle,
)
    ensures
        adds_bare_task(
            p,
            builder::with_node(
                builder::with_record(p, tracking, id, func, crate::task::no_meta()),
                builder::bare_node(id, func),
                id,
            ),
            tracking,
            id,
            func,
        ),
{
    let n = builder::bare_node(id, func);
    lemma_grown(p.tree, n);
    assert(is_task(n, id, Some(func), crate::task::no_meta()));
}

/// A tree is another one with a task without metadata at the end.
pub open spec fn adds_bare_link(
    before: Option<Node>,
    after: Option<Node>,
    id: Seq<char>,
    func: TaskHandle,
) -> bool {
    exists|n: Node, m: Meta|
        #[trigger] is_task(n, id, Some(func), m) && is_bare(m) && grown(before, after, n)
}

/// A tree that is extended by a task without metadata has that task at the end.
pub proof fn law_bare_link_is_added(t: Option<Node>, id: Seq<char>, func: TaskHandle)
    ensures
        adds_bare_link(t, Some(builder::extended(t, builder::bare_node(id, func))), id, func),
{
    let n = builder::bare_node(id, func);
    lemma_grown(t, n);
    assert(is_task(n, id, Some(func), crate::task::no_meta()));
}

/// `then_task_with` adds a task with its implementation and metadata at the end.
pub proof fn law_task_is_added_with_its_metadata<
    C,
    Input,
    Output,
    M,
    Cont: ContinuationState,
    R: RegistryBehavior,
    NewOutput,
>(
    b: WorkflowBuilder<C, Input, Output, M, Cont, R>,
    task: TaskDefinition,
    r: WorkflowBuilder<C, Input, NewOutput, M, WorkflowContinuation, R>,
)
    requires
        call_ensures(
            WorkflowBuilder::<C, Input, Output, M, Cont, R>::then_task_with::<NewOutput>,
            (b, task),
            r,
        ),
    ensures
        exists|n: Node|
            #[trigger] is_task(n, task.task_id@, Some(task.handle), task.metadata@) && grown(
                b.plan().tree,
                r.plan().tree,
                n,
            ),
        R::tracking() ==> on_record(
            b.plan(),
            r.plan(),
            task.task_id@,
            task.handle,
            task.metadata@,
        ),
        !R::tracking() ==> r.plan().records == b.plan().records,
        r.plan().last == Some(task.task_id@),
        r.plan().faults == b.plan().faults,
        same_counts(b.plan(), r.plan()),
{
    let n = crate::continuation_builder::task_node(
        task.task_id@,
        Some(task.handle),
        task.metadata@,
        None,
    );
    lemma_grown(b.plan().tree, n);
    assert(is_task(n, task.task_id@, Some(task.handle), task.metadata@));
}

/// `then_registered` adds the task that is on record under the id, with the implementation
/// and metadata on record; where there is none that is an error.
pub proof fn law_registered_task_is_added<
    C,
    Input,
    Output,
    M,
    Cont: ContinuationState,
    NewOutput,
>(
    b: WorkflowBuilder<C, Input, Output, M, Cont, TaskRegistry>,
    id: &str,
    r: WorkflowBuilder<C, Input, NewOutput, M, WorkflowContinuation, TaskRegistry>,
)
    requires
        call_ensures(
            WorkflowBuilder::<C, Input, Output, M, Cont, TaskRegistry>::then_registered::<
                NewOutput,
            >,
            (b, id),
            r,
        ),
    ensures
        ({
            let known = b.plan().records.handles.dom().contains(id@);
            let metas = b.plan().records.metas;
            &&& exists|n: Node, func: Option<TaskHandle>, m: Meta|
                #[trigger] is_task(n, id@, func, m) && grown(b.plan().tree, r.plan().tree, n) && (
                if known {
                    func == Some(b.plan().records.handles[id@])
                } else {
                    func is None
                }) && (if metas.dom().contains(id@) {
                    m == metas[id@]
                } else {
                    is_bare(m)
                })
            &&& known ==> r.plan().faults == b.plan().faults
            &&& !known ==> r.plan().faults == b.plan().faults.push(Fault::TaskNotFound(id@))
        }),
        r.plan().records == b.plan().records,
        r.plan().last == Some(id@),
        same_counts(b.plan(), r.plan()),
{
    let n = builder::registered_node(b.plan().records, id@, None);
    lemma_grown(b.plan().tree, n);
    assert(is_task(
        n,
        id@,
        builder::handle_on_record(b.plan().records.handles, id@),
        builder::meta_on_record(b.plan().records.metas, id@),
    ));
}

/// A delay and a wait for a signal are added at the end as they are asked for.
pub proof fn law_delay_and_signal_are_added<
    C,
    Input,
    Output,
    M,
    Cont: ContinuationState,
    R: RegistryBehavior,
>(
    b: WorkflowBuilder<C, Input, Output, M, Cont, R>,
    id: &str,
    duration: Duration,
    signal_name: &str,
    timeout: Option<Duration>,
    r: WorkflowBuilder<C, Input, Output, M, WorkflowContinuation, R>,
    s: WorkflowBuilder<C, Input, Output, M, WorkflowContinuation, R>,
)
    requires
        call_ensures(
            WorkflowBuilder::<C, Input, Output, M, Cont, R>::delay,
            (b, id, duration),
            r,
        ),
        call_ensures(
            WorkflowBuilder::<C, Input, Output, M, Cont, R>::wait_for_signal,
            (b, id, signal_name, timeout),
            s,
        ),
    ensures
        grown(b.plan().tree, r.plan().tree, Node::Delay { id: id@, duration, next: None }),
        grown(
            b.plan().tree,
            s.plan().tree,
            Node::AwaitSignal { id: id@, signal_name: signal_name@, timeout, next: None },
        ),
        r.plan().faults == b.plan().faults && s.plan().faults == b.plan().faults,
        r.plan().records == b.plan().records && s.plan().records == b.plan().records,
        r.plan().last == Some(id@) && s.plan().last == Some(id@),
        same_counts(b.plan(), r.plan()) && same_counts(b.plan(), s.plan()),
{
    lemma_grown(b.plan().tree, Node::Delay { id: id@, duration, next: None });
    lemma_grown(
        b.plan().tree,
        Node::AwaitSignal { id: id@, signal_name: signal_name@, timeout, next: None },
    );
}

/// A loop is added at the end, around the task alone, with the limit and the policy that it
/// is given and a number of its own; a limit of zero is an error.
pub proof fn law_loop_is_added<
    C,
    Input,
    Output,
    M,
    Cont: ContinuationState,
    R: RegistryBehavior,
    NewOutput,
>(
    b: WorkflowBuilder<C, Input, Output, M, Cont, R>,
    id: &str,
    func: TaskHandle,
    max_iterations: u32,
    on_max: MaxIterationsPolicy,
    r: WorkflowBuilder<C, Input, NewOutput, M, WorkflowContinuation, R>,
    s: WorkflowBuilder<C, Input, NewOutput, M, WorkflowContinuation, R>,
)
    requires
        call_ensures(
            WorkflowBuilder::<C, Input, Output, M, Cont, R>::loop_task_with_policy::<NewOutput>,
            (b, id, func, max_iterations, on_max),
            r,
        ),
        call_ensures(
            WorkflowBuilder::<C, Input, Output, M, Cont, R>::loop_task::<NewOutput>,
            (b, id, func, max_iterations),
            s,
        ),
    ensures
        exists|n: Node, m: Meta, l: Node|
            #[trigger] is_task(n, id@, Some(func), m) && is_bare(m) && #[trigger] is_loop(
                l,
                n,
                max_iterations,
                on_max,
            ) && l->Loop_id == "loop_"@ + text::decimal(b.plan().loops) && grown(
                b.plan().tree,
                r.plan().tree,
                l,
            ) && (R::tracking() ==> on_record(b.plan(), r.plan(), id@, func, m)),
        max_iterations == 0 ==> r.plan().faults == b.plan().faults.push(
            Fault::InvalidMaxIterations(id@),
        ),
        max_iterations != 0 ==> r.plan().faults == b.plan().faults,
        r.plan().loops == b.plan().loops + 1,
        r.plan().branches == b.plan().branches && r.plan().children == b.plan().children,
        on_max == MaxIterationsPolicy::Fail ==> s.plan() == r.plan(),
{
    let n = builder::bare_node(id@, func);
    let l = Node::Loop {
        id: "loop_"@ + text::decimal(b.plan().loops),
        body: Box::new(n),
        max_iterations,
        on_max,
        next: None,
    };
    lemma_grown(b.plan().tree, l);
    assert(is_task(n, id@, Some(func), crate::task::no_meta()));
    assert(is_loop(l, n, max_iterations, on_max));
}

/// A node is a loop around a body, the last of its chain.
pub open spec fn is_loop(
    l: Node,
    body: Node,
    max_iterations: u32,
    on_max: MaxIterationsPolicy,
) -> bool {
    l is Loop && *l->body == body && l->max_iterations == max_iterations && l->on_max == on_max
        && l->Loop_next is None
}

/// A child workflow is added whole, under a number of its own.
pub proof fn law_child_is_added<
    C,
    Input,
    Output,
    M,
    Cont: ContinuationState,
    R: RegistryBehavior,
    ChildOutput,
>(
    b: WorkflowBuilder<C, Input, Output, M, Cont, R>,
    child: Workflow<C, ChildOutput, M>,
    r: WorkflowBuilder<C, Input, ChildOutput, M, WorkflowContinuation, R>,
)
    requires
        call_ensures(
            WorkflowBuilder::<C, Input, Output, M, Cont, R>::then_flow::<ChildOutput>,
            (b, child),
            r,
        ),
    ensures
        grown(
            b.plan().tree,
            r.plan().tree,
            Node::ChildWorkflow {
                id: "child_"@ + text::decimal(b.plan().children),
                child: Box::new(child.continuation.node()),
                next: None,
            },
        ),
        r.plan().children == b.plan().children + 1,
        r.plan().faults == b.plan().faults,
        r.plan().records == b.plan().records,
        r.plan().loops == b.plan().loops && r.plan().branches == b.plan().branches,
{
    lemma_grown(
        b.plan().tree,
        Node::ChildWorkflow {
            id: "child_"@ + text::decimal(b.plan().children),
            child: Box::new(child.continuation.node()),
            next: None,
        },
    );
}

/// The last node of the chain is a task with this id.
pub open spec fn ends_in_task(n: Node, id: Seq<char>) -> bool {
    links(n).last() is Task && links(n).last()->Task_id == id
}

proof fn lemma_last_link(n: Node)
    ensures
        links(n).len() > 0,
        match tree::next_of(n) {
            Some(m) => links(n).last() == links(*m).last(),
            None => links(n).last() == n,
        },
    decreases n,
{
    if let Some(m) = tree::next_of(n) {
        lemma_last_link(*m);
        assert(links(n).last() == links(*m).last());
    }
}

/// A change finds the last task of a chain, if not an earlier one, and leaves its id.
pub proof fn lemma_change_finds_last(n: Node, id: Seq<char>, c: Change)
    requires
        ends_in_task(n, id),
    ensures
        tree::changed(n, id, c) is Some,
        ends_in_task(tree::changed(n, id, c)->0, id),
    decreases n,
{
    lemma_last_link(n);
    if let Some(m) = tree::next_of(n) {
        lemma_last_link(*m);
        lemma_change_finds_last(*m, id, c);
        let k = tree::changed(*m, id, c)->0;
        let w = tree::with_next(n, Some(Box::new(k)));
        lemma_last_link(w);
        assert(tree::changed_next(n, id, c) == Some(w));
    }
    let r = tree::changed(n, id, c);
    assert(r is Some);
    lemma_last_link(r->0);
    assert(n is Task && n->Task_id == id ==> tree::next_of(r->0) == tree::next_of(n));
}

/// Metadata goes to the task added last: afterwards the task found under its id has the
/// timeout, the retry policy and the version of the metadata, and otherwise is what it was.
/// Where the task is on record, the metadata is too.
pub proof fn law_metadata_is_attached<C, Input, Output, M>(
    b: WorkflowBuilder<C, Input, Output, M, WorkflowContinuation, TaskRegistry>,
    metadata: TaskMetadata,
    id: Seq<char>,
    r: WorkflowBuilder<C, Input, Output, M, WorkflowContinuation, TaskRegistry>,
)
    requires
        call_ensures(
            WorkflowBuilder::<
                C,
                Input,
                Output,
                M,
                WorkflowContinuation,
                TaskRegistry,
            >::with_metadata,
            (b, metadata),
            r,
        ),
        b.plan().last == Some(id),
        b.plan().tree is Some,
        tree::ids(b.plan().tree->0).no_duplicates(),
        links(b.plan().tree->0).last() is Task,
        links(b.plan().tree->0).last()->Task_id == id,
    ensures
        ({
            let before = tree::find(b.plan().tree->0, id);
            let after = tree::find(r.plan().tree->0, id);
            &&& before is Some && after is Some && after->0 is Task
            &&& after->0->Task_timeout == metadata@.timeout
            &&& after->0->retry == metadata@.retries
            &&& after->0->version == metadata@.version
            &&& after->0->Task_id == id && after->0->func == before->0->func
            &&& after->0->priority == before->0->priority && after->0->tags == before->0->tags
        }),
        r.plan().tree is Some,
        tree::ids(r.plan().tree->0) == tree::ids(b.plan().tree->0),
        r.plan().records.handles == b.plan().records.handles,
        b.plan().records.metas.dom().contains(id) ==> r.plan().records.metas.dom().contains(id)
            && r.plan().records.metas[id] == metadata@,
        r.plan().faults == b.plan().faults,
        r.plan().last == b.plan().last,
        same_counts(b.plan(), r.plan()),
{
    let m = metadata@;
    let t = b.plan().tree->0;
    let x = Change::Timeout(m.timeout);
    let y = Change::Retry(m.retries);
    let z = Change::Version(m.version);
    lemma_change_finds_last(t, id, x);
    change_laws::law_set_is_read_back(t, id, x);
    change_laws::law_change_keeps_ids(t, id, x);
    let u = continuation::after_change(t, id, x);
    lemma_change_finds_last(u, id, y);
    change_laws::law_set_is_read_back(u, id, y);
    change_laws::law_change_keeps_ids(u, id, y);
    let v = continuation::after_change(u, id, y);
    lemma_change_finds_last(v, id, z);
    change_laws::law_set_is_read_back(v, id, z);
    change_laws::law_change_keeps_ids(v, id, z);
    crate::tree_laws::lemma_found_is_part(t, id);
}

/// A workflow is built exactly if no step was at fault and no id is used twice; else all
/// errors of the steps are reported, in their order, and then the id that is used twice.
pub proof fn law_build_reports_all_errors<C, Input, Output, M>(
    b: WorkflowBuilder<C, Input, Output, M, WorkflowContinuation, TaskRegistry>,
    r: Result<SerializableWorkflow<C, Input, M>, BuildErrors>,
)
    requires
        b.plan().tree is Some,
        call_ensures(
            WorkflowBuilder::<C, Input, Output, M, WorkflowContinuation, TaskRegistry>::build,
            (b,),
            r,
        ),
    ensures
        r is Ok <==> b.plan().faults.len() == 0 && tree::ids(
            b.plan().tree->0,
        ).no_duplicates(),
        r matches Ok(w) ==> w.inner.continuation == b.continuation && w.registry == b.registry
            && w.inner.context == b.context && w.inner.definition_hash@
            == crate::stored::definition_hash(b.plan().tree->0),
        r matches Err(e) ==> b.plan().faults.is_prefix_of(e@) && e@.len() <= b.plan().faults.len()
            + 1,
        r matches Err(e) ==> (e@.len() == b.plan().faults.len() + 1 <==> !tree::ids(
            b.plan().tree->0,
        ).no_duplicates()),
        r matches Err(e) ==> (e@.len() == b.plan().faults.len() + 1 ==> e@.last()
            is DuplicateTaskId && tree::ids(b.plan().tree->0).contains(
            e@.last()->DuplicateTaskId_0,
        )),
{
    laws::law_duplicate_iff_not_unique(b.plan().tree->0);
    let f = b.plan().faults;
    assert(f.is_prefix_of(f));
    assert forall|x: Fault| f.is_prefix_of(#[trigger] f.push(x)) by {
        assert(f.push(x).subrange(0, f.len() as int) =~= f);
    }
}

/// A fork is added at the end: its branches are the tasks that were added to it, in their
/// order, its id is made of theirs, and the task that joins them follows.
pub proof fn law_fork_is_added<
    C,
    Input,
    Output,
    M,
    Cont: ContinuationState,
    R: RegistryBehavior,
    JoinOutput,
>(
    b: ForkBuilder<C, Input, Output, M, Cont, R>,
    id: &str,
    func: TaskHandle,
    r: WorkflowBuilder<C, Input, JoinOutput, M, WorkflowContinuation, R>,
)
    requires
        call_ensures(
            ForkBuilder::<C, Input, Output, M, Cont, R>::join::<JoinOutput>,
            (b, id, func),
            r,
        ),
    ensures
        r.plan().tree is Some,
        ({
            let chain = links(r.plan().tree->0);
            let n = chain.len() as int;
            let list = fork_builder::branch_list(b.branches@);
            &&& n >= 2
            &&& is_bare_task(chain[n - 1], id@, func)
            &&& chain[n - 2] is Fork
            &&& chain[n - 2]->Fork_branches.len() == list.len()
            &&& chain[n - 2]->Fork_id == text::joined(fork_builder::branch_ids(list), "||"@)
            &&& forall|i: int|
                #![trigger list[i]]
                0 <= i < list.len() ==> is_bare_task(
                    chain[n - 2]->Fork_branches[i],
                    list[i].0,
                    list[i].1,
                )
            &&& b.plan().tree is None ==> n == 2
            &&& b.plan().tree is Some ==> n == links(b.plan().tree->0).len() + 2 && forall|i: int|
                #![trigger chain[i]]
                0 <= i < n - 2 ==> same_but_next(links(b.plan().tree->0)[i], chain[i])
        }),
        R::tracking() ==> r.plan().records.handles.dom().contains(id@)
            && r.plan().records.handles[id@] == func,
        r.plan().faults == b.plan().faults,
        r.plan().last == Some(id@),
{
    let list = fork_builder::branch_list(b.branches@);
    let bare = crate::task::no_meta();
    let join = builder::bare_node(id@, func);
    let fork = fork_builder::fork_node(
        fork_builder::branch_ids(list),
        fork_builder::bare_branches(list),
        join,
    );
    assert(links(join) =~= seq![join]);
    assert(links(fork) =~= seq![fork, join]);
    assert(is_task(join, id@, Some(func), bare) && is_bare(bare));
    let u = r.plan().tree->0;
    let chain = links(u);
    match b.plan().tree {
        Some(t) => {
            lemma_appended_is_grown(t, fork);
            let k = links(t).len() as int;
            assert(chain.skip(k)[0] == fork);
            assert(chain.skip(k)[1] == join);
            assert(chain[k] == fork && chain[k + 1] == join);
        },
        None => {
            assert(u == fork);
        },
    }
    let n = chain.len() as int;
    assert(links(fork).len() == 2);
    assert(n >= 2 && chain[n - 1] == join && chain[n - 2] == fork);
    assert(is_task(chain[n - 1], id@, Some(func), bare));
    if let Some(t) = b.plan().tree {
        assert forall|i: int| #![trigger chain[i]] 0 <= i < n - 2 implies same_but_next(
            links(t)[i],
            chain[i],
        ) by {
            assert(u == tree::appended(t, fork));
            let _ = links(tree::appended(t, fork))[i];
        }
    }
    assert forall|i: int| #![trigger list[i]] 0 <= i < list.len() implies is_bare_task(
        chain[n - 2]->Fork_branches[i],
        list[i].0,
        list[i].1,
    ) by {
        assert(is_task(fork->Fork_branches[i], list[i].0, Some(list[i].1), bare));
    }
}

/// A node is the task that is on record under an id.
pub open spec fn is_recorded_task(n: Node, r: Records, id: Seq<char>) -> bool {
    exists|m: Meta|
        r.handles.dom().contains(id) && #[trigger] says_task(n, id, Some(r.handles[id]), m) && (
        if r.metas.dom().contains(id) {
            m == r.metas[id]
        } else {
            is_bare(m)
        })
}

/// A fork of registered tasks is added at the end, with the implementations and metadata on
/// record, and with the task that joins them after it.
pub proof fn law_registered_fork_is_added<
    C,
    Input,
    Output,
    M,
    Cont: ContinuationState,
    JoinOutput,
>(
    b: ForkBuilder<C, Input, Output, M, Cont, TaskRegistry>,
    id: &str,
    r: WorkflowBuilder<C, Input, JoinOutput, M, WorkflowContinuation, TaskRegistry>,
)
    requires
        call_ensures(
            ForkBuilder::<C, Input, Output, M, Cont, TaskRegistry>::join_registered::<JoinOutput>,
            (b, id),
            r,
        ),
    ensures
        r.plan().tree is Some,
        ({
            let chain = links(r.plan().tree->0);
            let n = chain.len() as int;
            let list = fork_builder::branch_list(b.branches@);
            let records = b.plan().records;
            let known = records.handles.dom().contains(id@);
            &&& n >= 2
            &&& known ==> is_recorded_task(chain[n - 1], records, id@)
            &&& known ==> r.plan().faults == b.plan().faults
            &&& !known ==> r.plan().faults == b.plan().faults.push(Fault::TaskNotFound(id@))
            &&& chain[n - 2] is Fork
            &&& chain[n - 2]->Fork_branches.len() == list.len()
            &&& chain[n - 2]->Fork_id == text::joined(fork_builder::branch_ids(list), "||"@)
            &&& forall|i: int|
                #![trigger list[i]]
                0 <= i < list.len() && records.handles.dom().contains(list[i].0)
                    && records.handles[list[i].0] == list[i].1 ==> is_recorded_task(
                    chain[n - 2]->Fork_branches[i],
                    records,
                    list[i].0,
                )
            &&& b.plan().tree is None ==> n == 2
            &&& b.plan().tree is Some ==> n == links(b.plan().tree->0).len() + 2 && forall|i: int|
                #![trigger chain[i]]
                0 <= i < n - 2 ==> same_but_next(links(b.plan().tree->0)[i], chain[i])
        }),
        r.plan().records == b.plan().records,
        r.plan().last == Some(id@),
{
    let records = b.plan().records;
    let list = fork_builder::branch_list(b.branches@);
    let join = builder::registered_node(records, id@, None);
    let fork = fork_builder::fork_node(
        fork_builder::branch_ids(list),
        fork_builder::recorded_branches(records, list),
        join,
    );
    assert(links(join) =~= seq![join]);
    assert(links(fork) =~= seq![fork, join]);
    let u = r.plan().tree->0;
    let chain = links(u);
    match b.plan().tree {
        Some(t) => {
            lemma_appended_is_grown(t, fork);
            let k = links(t).len() as int;
            assert(chain.skip(k)[0] == fork);
            assert(chain.skip(k)[1] == join);
            assert(chain[k] == fork && chain[k + 1] == join);
        },
        None => {
            assert(u == fork);
        },
    }
    let n = chain.len() as int;
    assert(links(fork).len() == 2);
    assert(n >= 2 && chain[n - 1] == join && chain[n - 2] == fork);
    if records.handles.dom().contains(id@) {
        assert(says_task(
            chain[n - 1],
            id@,
            Some(records.handles[id@]),
            builder::meta_on_record(records.metas, id@),
        ));
    }
    if let Some(t) = b.plan().tree {
        assert forall|i: int| #![trigger chain[i]] 0 <= i < n - 2 implies same_but_next(
            links(t)[i],
            chain[i],
        ) by {
            assert(u == tree::appended(t, fork));
            let _ = links(tree::appended(t, fork))[i];
        }
    }
    assert forall|i: int|
        #![trigger list[i]]
        0 <= i < list.len() && records.handles.dom().contains(list[i].0)
            && records.handles[list[i].0] == list[i].1 implies is_recorded_task(
        chain[n - 2]->Fork_branches[i],
        records,
        list[i].0,
    ) by {
        assert(says_task(
            fork->Fork_branches[i],
            list[i].0,
            Some(records.handles[list[i].0]),
            builder::meta_on_record(records.metas, list[i].0),
        ));
    }
}

/// The id of a fork is made of the ids of its branches, in their order.
pub proof fn law_fork_id_is_made_of_branches(
    ids: &Vec<String>,
    more: &Vec<String>,
    x: Seq<char>,
    r: String,
    s: String,
)
    requires
        ids@.len() > 0,
        text::texts(more@) == text::texts(ids@).push(x),
        call_ensures(WorkflowContinuation::derive_fork_id, (ids,), r),
        call_ensures(WorkflowContinuation::derive_fork_id, (more,), s),
    ensures
        ids@.len() == 1 ==> r@ == ids@[0]@,
        s@ == r@ + "||"@ + x,
{
    let t = text::texts(ids@);
    assert(t.push(x).drop_last() =~= t);
    assert(t.push(x).last() == x);
    assert(t.len() == ids@.len());
    assert(t[0] == ids@[0]@);
}

pub proof fn lemma_placed<V>(s: Seq<(Seq<char>, V)>, k: Seq<char>, v: V)
    ensures
        string_map::placed(s, k, v).contains((k, v)),
        forall|e: (Seq<char>, V)|
            e.0 != k ==> (#[trigger] string_map::placed(s, k, v).contains(e) <==> s.contains(e)),
    decreases s.len(),
{
    let p = string_map::placed(s, k, v);
    if s.len() == 0 {
        assert(p[0] == (k, v));
    } else {
        let d = s.drop_first();
        assert(s =~= seq![s[0]] + d);
        if s[0].0 == k || string_map::key_less(k, s[0].0) {
            assert(p[0] == (k, v));
            assert forall|e: (Seq<char>, V)| e.0 != k implies (#[trigger] p.contains(e)
                <==> s.contains(e)) by {
                if p.contains(e) {
                    let i = p.index_of(e);
                    if s[0].0 == k {
                        assert(s[i] == e);
                    } else {
                        assert(s[i - 1] == e);
                    }
                }
                if s.contains(e) {
                    let i = s.index_of(e);
                    if s[0].0 == k {
                        assert(p[i] == e);
                    } else {
                        assert(p[i + 1] == e);
                    }
                }
            }
        } else {
            lemma_placed(d, k, v);
            let q = string_map::placed(d, k, v);
            assert(p == seq![s[0]] + q);
            assert(p[q.index_of((k, v)) + 1] == (k, v));
            assert forall|e: (Seq<char>, V)| e.0 != k implies (#[trigger] p.contains(e)
                <==> s.contains(e)) by {
                assert(q.contains(e) <==> d.contains(e));
                if p.contains(e) {
                    let i = p.index_of(e);
                    if i > 0 {
                        assert(q[i - 1] == e);
                        assert(s[d.index_of(e) + 1] == e);
                    } else {
                        assert(s[0] == e);
                    }
                }
                if s.contains(e) {
                    let i = s.index_of(e);
                    if i > 0 {
                        assert(d[i - 1] == e);
                        assert(p[q.index_of(e) + 1] == e);
                    } else {
                        assert(p[0] == e);
                    }
                }
            }
        }
    }
}

/// A tree is the chain of the tasks on record under these ids, in their order.
pub open spec fn is_recorded_chain(n: Node, r: Records, ids: Seq<Seq<char>>) -> bool {
    links(n).len() == ids.len() && forall|i: int|
        #![trigger links(n)[i]]
        0 <= i < ids.len() ==> is_recorded_task(links(n)[i], r, ids[i])
}

proof fn lemma_registered_chain(r: Records, ids: Seq<Seq<char>>, i: nat)
    requires
        i < ids.len(),
        forall|j: int| #![trigger ids[j]] 0 <= j < ids.len() ==> r.handles.dom().contains(ids[j]),
    ensures
        route_builder::registered_chain(r, ids, i) is Some,
        is_recorded_chain(*route_builder::registered_chain(r, ids, i)->0, r, ids.skip(i as int)),
    decreases ids.len() - i,
{
    let n = *route_builder::registered_chain(r, ids, i)->0;
    let id = ids[i as int];
    assert(says_task(
        n,
        id,
        Some(r.handles[id]),
        builder::meta_on_record(r.metas, id),
    ));
    assert(is_recorded_task(n, r, id));
    let tail = ids.skip(i as int);
    if i + 1 < ids.len() {
        lemma_registered_chain(r, ids, i + 1);
        let m = *route_builder::registered_chain(r, ids, i + 1)->0;
        assert(links(n) == seq![n] + links(m));
        assert forall|j: int| #![trigger links(n)[j]] 0 <= j < tail.len() implies is_recorded_task(
            links(n)[j],
            r,
            tail[j],
        ) by {
            if j > 0 {
                assert(links(n)[j] == links(m)[j - 1]);
                assert(tail[j] == ids.skip((i + 1) as int)[j - 1]);
            }
        }
    } else {
        assert(links(n) =~= seq![n]);
    }
}

proof fn lemma_chain_faults(r: Records, ids: Seq<Seq<char>>, i: nat)
    ensures
        route_builder::chain_faults(r, ids, i).len() == 0 <==> forall|j: int|
            #![trigger ids[j]]
            i <= j < ids.len() ==> r.handles.dom().contains(ids[j]),
        forall|f: Fault|
            #[trigger] route_builder::chain_faults(r, ids, i).contains(f) ==> exists|j: int|
                i <= j < ids.len() && !r.handles.dom().contains(#[trigger] ids[j]) && f
                    == Fault::TaskNotFound(ids[j]),
    decreases ids.len() - i,
{
    if i < ids.len() {
        lemma_chain_faults(r, ids, i + 1);
        let p = route_builder::chain_faults(r, ids, i + 1);
        let q = route_builder::chain_faults(r, ids, i);
        let _ = ids[i as int];
        assert forall|f: Fault| #[trigger] q.contains(f) implies exists|j: int|
            i <= j < ids.len() && !r.handles.dom().contains(#[trigger] ids[j]) && f
                == Fault::TaskNotFound(ids[j]) by {
            let k = q.index_of(f);
            if k < p.len() {
                assert(p[k] == f);
                assert(p.contains(f));
            } else {
                assert(!r.handles.dom().contains(ids[i as int]));
            }
        }
    }
}

/// An arm of registered tasks is the chain of those on record under its ids, under its key
/// or as the default; other arms stay. Without tasks, or with an id that is not on record,
/// there is an error and no arm.
pub proof fn law_registered_arm_is_added<C, Input, Output, BranchOut, M, Cont: ContinuationState>(
    b: RouteRegisteredBuilder<C, Input, Output, BranchOut, M, Cont>,
    key: &str,
    task_ids: &[&str],
    r: RouteRegisteredBuilder<C, Input, Output, BranchOut, M, Cont>,
    d: RouteRegisteredBuilder<C, Input, Output, BranchOut, M, Cont>,
)
    requires
        call_ensures(
            RouteRegisteredBuilder::<C, Input, Output, BranchOut, M, Cont>::branch_registered,
            (b, key, task_ids),
            r,
        ),
        call_ensures(
            RouteRegisteredBuilder::<C, Input, Output, BranchOut, M, Cont>::default_registered,
            (b, task_ids),
            d,
        ),
    ensures
        ({
            let ids = continuation::str_texts(task_ids@);
            let records = b.plan().records;
            let good = ids.len() > 0 && forall|j: int|
                #![trigger ids[j]]
                0 <= j < ids.len() ==> records.handles.dom().contains(ids[j]);
            &&& good ==> {
                &&& exists|n: Node|
                    #[trigger] r.arms().named.contains((key@, n)) && is_recorded_chain(
                        n,
                        records,
                        ids,
                    )
                &&& forall|e: (Seq<char>, Node)|
                    e.0 != key@ ==> (#[trigger] r.arms().named.contains(e)
                        <==> b.arms().named.contains(e))
                &&& d.arms().default is Some && is_recorded_chain(
                    *d.arms().default->0,
                    records,
                    ids,
                )
                &&& r.plan().faults == b.plan().faults
                &&& d.plan().faults == b.plan().faults
            }
            &&& !good ==> r.arms() == b.arms() && d.arms() == b.arms() && r.plan().faults.len()
                > b.plan().faults.len() && d.plan().faults.len() > b.plan().faults.len()
            &&& r.arms().default == b.arms().default
            &&& d.arms().named == b.arms().named
        }),
        r.branch_id == b.branch_id && d.branch_id == b.branch_id,
        r.key_fn == b.key_fn && d.key_fn == b.key_fn,
        r.plan().tree == b.plan().tree && d.plan().tree == b.plan().tree,
        r.plan().records == b.plan().records && d.plan().records == b.plan().records,
{
    let ids = continuation::str_texts(task_ids@);
    let records = b.plan().records;
    lemma_chain_faults(records, ids, 0);
    if ids.len() > 0 && route_builder::chain_faults(records, ids, 0).len() == 0 {
        lemma_registered_chain(records, ids, 0);
        let n = *route_builder::registered_chain(records, ids, 0)->0;
        assert(ids.skip(0) =~= ids);
        lemma_placed(b.arms().named, key@, n);
        assert(r.arms().named.contains((key@, n)));
        assert(b.plan().faults + route_builder::chain_faults(records, ids, 0)
            =~= b.plan().faults);
    }
}

/// A route is added at the end, with its id, its key function and its arms.
pub proof fn law_registered_route_is_added<
    C,
    Input,
    Output,
    BranchOut,
    M,
    Cont: ContinuationState,
>(
    b: WorkflowBuilder<C, Input, Output, M, Cont, TaskRegistry>,
    id: &str,
    s: RouteRegisteredBuilder<C, Input, Output, BranchOut, M, Cont>,
    e: RouteRegisteredBuilder<C, Input, Output, BranchOut, M, Cont>,
    r: WorkflowBuilder<
        C,
        Input,
        BranchEnvelope<BranchOut>,
        M,
        WorkflowContinuation,
        TaskRegistry,
    >,
)
    requires
        call_ensures(
            WorkflowBuilder::<C, Input, Output, M, Cont, TaskRegistry>::route_registered::<
                BranchOut,
            >,
            (b, id),
            s,
        ),
        call_ensures(
            RouteRegisteredBuilder::<C, Input, Output, BranchOut, M, Cont>::done,
            (e,),
            r,
        ),
    ensures
        s.branch_id@ == id@,
        s.arms().named.len() == 0 && s.arms().default is None,
        s.plan().tree == b.plan().tree && s.plan().records == b.plan().records,
        ({
            let known = b.plan().records.handles.dom().contains(id@ + "::key_fn"@);
            &&& known ==> s.key_fn == Some(b.plan().records.handles[id@ + "::key_fn"@])
                && s.plan().faults == b.plan().faults
            &&& !known ==> s.key_fn is None && s.plan().faults == b.plan().faults.push(
                Fault::TaskNotFound(id@ + "::key_fn"@),
            )
        }),
        grown(
            e.plan().tree,
            r.plan().tree,
            Node::Branch {
                id: e.branch_id@,
                key_fn: e.key_fn,
                arms: e.arms().named,
                default: e.arms().default,
                next: None,
            },
        ),
        r.plan().faults == e.plan().faults,
        r.plan().records == e.plan().records,
        r.plan().last == Some(e.branch_id@),
{
    lemma_grown(
        e.plan().tree,
        Node::Branch {
            id: e.branch_id@,
            key_fn: e.key_fn,
            arms: e.arms().named,
            default: e.arms().default,
            next: None,
        },
    );
}

/// The arms of a route fit its keys: every arm has one of the keys, and every key has an arm
/// unless there is a default.
pub open spec fn covers(a: Arms, keys: Seq<Seq<char>>) -> bool {
    &&& forall|i: int| #![trigger a.named[i]] 0 <= i < a.named.len() ==> keys.contains(a.named[i].0)
    &&& a.default is Some || forall|j: int|
        #![trigger keys[j]]
        0 <= j < keys.len() ==> exists|i: int|
            0 <= i < a.named.len() && (#[trigger] a.named[i]).0 == keys[j]
}

proof fn lemma_lacks_none(s: Seq<Seq<char>>, other: Seq<Seq<char>>, k: nat)
    requires
        k <= s.len(),
    ensures
        route_builder::lacking(s, other, k).len() == 0 <==> forall|i: int|
            #![trigger s[i]]
            0 <= i < k ==> other.contains(s[i]),
    decreases k,
{
    if k > 0 {
        lemma_lacks_none(s, other, (k - 1) as nat);
        let _ = s[k - 1];
    }
}

/// A typed route is added at the end, with its id, its key function and its arms; arms that
/// do not fit the keys of its type are errors, and there are no others.
pub proof fn law_route_is_added<
    C,
    Input,
    Output,
    BranchOut,
    K: BranchKey,
    M,
    Cont: ContinuationState,
    R: RegistryBehavior,
>(
    b: RouteBuilder<C, Input, Output, BranchOut, K, M, Cont, R>,
    r: WorkflowBuilder<
        C,
        Input,
        BranchEnvelope<BranchOut>,
        M,
        WorkflowContinuation,
        R,
    >,
)
    requires
        call_ensures(
            RouteBuilder::<C, Input, Output, BranchOut, K, M, Cont, R>::done,
            (b,),
            r,
        ),
    ensures
        grown(
            b.plan().tree,
            r.plan().tree,
            Node::Branch {
                id: b.branch_id@,
                key_fn: Some(b.key_fn),
                arms: b.arms().named,
                default: b.arms().default,
                next: None,
            },
        ),
        exists|keys: &'static [&'static str]|
            #[trigger] call_ensures(K::all_keys, (), keys) && (covers(
                b.arms(),
                continuation::str_texts(keys@),
            ) <==> r.plan().faults == b.plan().faults),
        r.plan().records == b.plan().records,
        r.plan().last == Some(b.branch_id@),
{
    lemma_grown(
        b.plan().tree,
        Node::Branch {
            id: b.branch_id@,
            key_fn: Some(b.key_fn),
            arms: b.arms().named,
            default: b.arms().default,
            next: None,
        },
    );
    let keys = choose|keys: &'static [&'static str]| #[trigger]
        call_ensures(K::all_keys, (), keys) && r.plan() == builder::with_node(
            route_builder::with_gaps(
                b.plan(),
                b.branch_id@,
                b.arms(),
                continuation::str_texts(keys@),
            ),
            route_builder::branch_node(b.branch_id@, Some(b.key_fn), b.arms()),
            b.branch_id@,
        );
    let k = continuation::str_texts(keys@);
    let named = b.arms().named;
    let declared = route_builder::arm_keys(named);
    lemma_lacks_none(declared, k, declared.len());
    lemma_lacks_none(k, declared, k.len());
    assert(route_builder::lacking(declared, k, declared.len()).len() == 0 <==> forall|i: int|
        #![trigger named[i]]
        0 <= i < named.len() ==> k.contains(named[i].0)) by {
        assert forall|i: int| #![trigger named[i]] 0 <= i < named.len() implies declared[i]
            == named[i].0 by {
        }
        if forall|i: int| #![trigger named[i]] 0 <= i < named.len() ==> k.contains(named[i].0) {
            assert forall|i: int| #![trigger declared[i]] 0 <= i < declared.len() implies k.contains(
                declared[i],
            ) by {
                assert(k.contains(named[i].0));
            }
        }
        if route_builder::lacking(declared, k, declared.len()).len() == 0 {
            assert forall|i: int| #![trigger named[i]] 0 <= i < named.len() implies k.contains(
                named[i].0,
            ) by {
                assert(k.contains(declared[i]));
            }
        }
    }
    assert forall|j: int| #![trigger k[j]] 0 <= j < k.len() implies (declared.contains(k[j])
        <==> exists|i: int| 0 <= i < named.len() && (#[trigger] named[i]).0 == k[j]) by {
        if declared.contains(k[j]) {
            let i = declared.index_of(k[j]);
            assert(named[i].0 == k[j]);
        }
        if exists|i: int| 0 <= i < named.len() && (#[trigger] named[i]).0 == k[j] {
            let i = choose|i: int| 0 <= i < named.len() && (#[trigger] named[i]).0 == k[j];
            assert(declared[i] == k[j]);
        }
    }
    assert(covers(b.arms(), k) <==> r.plan().faults == b.plan().faults) by {
        let f = b.plan().faults;
        assert(r.plan().faults == f ==> r.plan().faults.len() == f.len());
    }
}

/// A loop over a task with metadata has that task as its body, and says how often it runs and
/// what happens at the end; no run at all is an error. Where nothing is said of the end, the
/// loop fails there.
pub proof fn law_task_loop_is_added<
    C,
    Input,
    Output,
    M,
    Cont: ContinuationState,
    R: RegistryBehavior,
    NewOutput,
>(
    b: WorkflowBuilder<C, Input, Output, M, Cont, R>,
    task: TaskDefinition,
    max_iterations: u32,
    on_max: MaxIterationsPolicy,
    r: WorkflowBuilder<C, Input, NewOutput, M, WorkflowContinuation, R>,
    s: WorkflowBuilder<C, Input, NewOutput, M, WorkflowContinuation, R>,
)
    requires
        call_ensures(
            WorkflowBuilder::<C, Input, Output, M, Cont, R>::loop_task_struct_with_policy::<
                NewOutput,
            >,
            (b, task, max_iterations, on_max),
            r,
        ),
        call_ensures(
            WorkflowBuilder::<C, Input, Output, M, Cont, R>::loop_task_struct_with::<NewOutput>,
            (b, task, max_iterations),
            s,
        ),
    ensures
        exists|n: Node, l: Node|
            #[trigger] is_task(n, task.task_id@, Some(task.handle), task.metadata@)
                && #[trigger] is_loop(l, n, max_iterations, on_max) && l->Loop_id == "loop_"@
                + text::decimal(b.plan().loops) && r.plan().last == Some(l->Loop_id) && grown(
                b.plan().tree,
                r.plan().tree,
                l,
            ),
        R::tracking() ==> on_record(
            b.plan(),
            r.plan(),
            task.task_id@,
            task.handle,
            task.metadata@,
        ),
        !R::tracking() ==> r.plan().records == b.plan().records,
        max_iterations == 0 ==> r.plan().faults == b.plan().faults.push(
            Fault::InvalidMaxIterations(task.task_id@),
        ),
        max_iterations != 0 ==> r.plan().faults == b.plan().faults,
        r.plan().loops == b.plan().loops + 1,
        r.plan().branches == b.plan().branches && r.plan().children == b.plan().children,
        on_max == MaxIterationsPolicy::Fail ==> s.plan() == r.plan(),
{
    let n = crate::continuation_builder::task_node(
        task.task_id@,
        Some(task.handle),
        task.metadata@,
        None,
    );
    let l = Node::Loop {
        id: "loop_"@ + text::decimal(b.plan().loops),
        body: Box::new(n),
        max_iterations,
        on_max,
        next: None,
    };
    lemma_grown(b.plan().tree, l);
    assert(is_task(n, task.task_id@, Some(task.handle), task.metadata@));
    assert(is_loop(l, n, max_iterations, on_max));
}

/// A loop over a registered task has the registered one as its body, and is named after it. No
/// run at all, and a task that is not registered, are errors, in this order.
pub proof fn law_registered_loop_is_added<
    C,
    Input,
    Output,
    M,
    Cont: ContinuationState,
    NewOutput,
>(
    b: WorkflowBuilder<C, Input, Output, M, Cont, TaskRegistry>,
    id: &str,
    max_iterations: u32,
    on_max: MaxIterationsPolicy,
    r: WorkflowBuilder<C, Input, NewOutput, M, WorkflowContinuation, TaskRegistry>,
)
    requires
        call_ensures(
            WorkflowBuilder::<C, Input, Output, M, Cont, TaskRegistry>::loop_task_registered::<
                NewOutput,
            >,
            (b, id, max_iterations, on_max),
            r,
        ),
    ensures
        ({
            let known = b.plan().records.handles.dom().contains(id@);
            let metas = b.plan().records.metas;
            let faults = b.plan().faults;
            &&& exists|n: Node, func: Option<TaskHandle>, m: Meta, l: Node|
                #[trigger] is_task(n, id@, func, m) && #[trigger] is_loop(
                    l,
                    n,
                    max_iterations,
                    on_max,
                ) && l->Loop_id == "loop_"@ + id@ && grown(b.plan().tree, r.plan().tree, l) && (
                known ==> func == Some(b.plan().records.handles[id@])) && (metas.dom().contains(id@)
                    ==> m == metas[id@])
            &&& known && max_iterations > 0 ==> r.plan().faults == faults
            &&& known && max_iterations == 0 ==> r.plan().faults == faults.push(
                Fault::InvalidMaxIterations(id@),
            )
            &&& !known && max_iterations > 0 ==> r.plan().faults == faults.push(
                Fault::TaskNotFound(id@),
            )
            &&& !known && max_iterations == 0 ==> r.plan().faults == faults.push(
                Fault::InvalidMaxIterations(id@),
            ).push(Fault::TaskNotFound(id@))
        }),
        r.plan().records == b.plan().records,
        r.plan().last == Some("loop_"@ + id@),
        r.plan().loops == b.plan().loops + 1,
        r.plan().branches == b.plan().branches && r.plan().children == b.plan().children,
{
    let n = builder::registered_node(b.plan().records, id@, None);
    let l = Node::Loop {
        id: "loop_"@ + id@,
        body: Box::new(n),
        max_iterations,
        on_max,
        next: None,
    };
    lemma_grown(b.plan().tree, l);
    assert(is_task(
        n,
        id@,
        builder::handle_on_record(b.plan().records.handles, id@),
        builder::meta_on_record(b.plan().records.metas, id@),
    ));
    assert(is_loop(l, n, max_iterations, on_max));
}

/// A child workflow with a registry is hung on the end, and its tasks are registered with the
/// ones that are: those of the child are the ones that count, the others stay.
pub proof fn law_stored_child_is_added<C, Input, Output, M, Cont: ContinuationState, ChildOutput>(
    b: WorkflowBuilder<C, Input, Output, M, Cont, TaskRegistry>,
    child: SerializableWorkflow<C, ChildOutput, M>,
    r: WorkflowBuilder<C, Input, ChildOutput, M, WorkflowContinuation, TaskRegistry>,
    id: Seq<char>,
)
    requires
        call_ensures(
            WorkflowBuilder::<C, Input, Output, M, Cont, TaskRegistry>::then_serializable_flow::<
                ChildOutput,
            >,
            (b, child),
            r,
        ),
    ensures
        grown(
            b.plan().tree,
            r.plan().tree,
            Node::ChildWorkflow {
                id: "child_"@ + text::decimal(b.plan().children),
                child: Box::new(child.inner.continuation.node()),
                next: None,
            },
        ),
        r.plan().children == b.plan().children + 1,
        r.plan().faults == b.plan().faults,
        r.plan().loops == b.plan().loops && r.plan().branches == b.plan().branches,
        r.plan().records.handles.dom().contains(id) <==> b.plan().records.handles.dom().contains(id)
            || child.registry.handles().dom().contains(id),
        child.registry.handles().dom().contains(id) ==> r.plan().records.handles[id]
            == child.registry.handles()[id],
        b.plan().records.handles.dom().contains(id) && !child.registry.handles().dom().contains(id)
            ==> r.plan().records.handles[id] == b.plan().records.handles[id],
        child.registry.metas().dom().contains(id) ==> r.plan().records.metas.dom().contains(id)
            && r.plan().records.metas[id] == child.registry.metas()[id],
        b.plan().records.metas.dom().contains(id) && !child.registry.metas().dom().contains(id)
            ==> r.plan().records.metas.dom().contains(id) && r.plan().records.metas[id]
            == b.plan().records.metas[id],
{
    lemma_grown(
        b.plan().tree,
        Node::ChildWorkflow {
            id: "child_"@ + text::decimal(b.plan().children),
            child: Box::new(child.inner.continuation.node()),
            next: None,
        },
    );
}

/// A builder that is given a registry has all of it, and else nothing but its context.
pub proof fn law_builder_starts_empty<C, Input, M>(
    b: WorkflowBuilder<C, Input, Input, M, NoContinuation, NoRegistry>,
    registry: TaskRegistry,
    r: WorkflowBuilder<C, Input, Input, M, NoContinuation, TaskRegistry>,
    s: WorkflowBuilder<C, Input, Input, M, NoContinuation, TaskRegistry>,
    id: Seq<char>,
)
    requires
        call_ensures(
            WorkflowBuilder::<
                C,
                Input,
                Input,
                M,
                NoContinuation,
                NoRegistry,
            >::with_existing_registry,
            (b, registry),
            r,
        ),
        call_ensures(
            WorkflowBuilder::<C, Input, Input, M, NoContinuation, NoRegistry>::with_registry,
            (b,),
            s,
        ),
    ensures
        r.plan().context == b.context && s.plan().context == b.context,
        r.plan().tree is None && s.plan().tree is None,
        r.plan().faults.len() == 0 && s.plan().faults.len() == 0,
        r.plan().last is None && s.plan().last is None,
        r.plan().loops == 0 && r.plan().branches == 0 && r.plan().children == 0,
        s.plan().loops == 0 && s.plan().branches == 0 && s.plan().children == 0,
        r.plan().records.handles == registry.handles() && r.plan().records.metas
            == registry.metas(),
        !s.plan().records.handles.dom().contains(id) && !s.plan().records.metas.dom().contains(id),
{
}

/// A branch with metadata comes behind the branches of a fork that are there, and its task is
/// registered where tasks are.
pub proof fn law_fork_branch_is_added<
    C,
    Input,
    Output,
    M,
    Cont: ContinuationState,
    R: RegistryBehavior,
>(
    b: ForkBuilder<C, Input, Output, M, Cont, R>,
    task: TaskDefinition,
    r: ForkBuilder<C, Input, Output, M, Cont, R>,
)
    requires
        call_ensures(
            ForkBuilder::<C, Input, Output, M, Cont, R>::branch_task_with,
            (b, task),
            r,
        ),
    ensures
        ({
            let before = fork_builder::branch_list(b.branches@);
            let after = fork_builder::branch_list(r.branches@);
            &&& after.len() == before.len() + 1
            &&& after.last() == (task.task_id@, task.handle)
            &&& forall|i: int| #![trigger after[i]] 0 <= i < before.len() ==> after[i] == before[i]
        }),
        R::tracking() ==> on_record(
            b.plan(),
            r.plan(),
            task.task_id@,
            task.handle,
            task.metadata@,
        ),
        !R::tracking() ==> r.plan().records == b.plan().records,
        r.plan().tree == b.plan().tree && r.plan().faults == b.plan().faults,
        same_counts(b.plan(), r.plan()),
{
}

proof fn lemma_chain_links(chain: Seq<(Seq<char>, Meta)>, i: nat)
    requires
        i < chain.len(),
    ensures
        continuation_builder::chain_node(chain, i) is Some,
        links(*continuation_builder::chain_node(chain, i)->0).len() == chain.len() - i,
        forall|j: int|
            #![trigger links(*continuation_builder::chain_node(chain, i)->0)[j]]
            0 <= j < chain.len() - i ==> says_task(
                links(*continuation_builder::chain_node(chain, i)->0)[j],
                chain[i + j].0,
                None,
                chain[i + j].1,
            ),
    decreases chain.len() - i,
{
    let n = *continuation_builder::chain_node(chain, i)->0;
    let rest = continuation_builder::chain_node(chain, i + 1);
    assert(tree::next_of(n) == rest);
    assert(says_task(n, chain[i as int].0, None, chain[i as int].1));
    if i + 1 < chain.len() {
        lemma_chain_links(chain, i + 1);
        let more = links(*rest->0);
        assert(links(n) == seq![n] + more);
        assert forall|j: int| #![trigger links(n)[j]] 0 <= j < chain.len() - i implies says_task(
            links(n)[j],
            chain[i + j].0,
            None,
            chain[i + j].1,
        ) by {
            if j > 0 {
                assert(links(n)[j] == more[j - 1]);
            }
        }
    } else {
        assert(rest is None);
        assert(links(n) =~= seq![n]);
    }
}

/// A list of tasks becomes a chain of them, in order and each with its metadata; an empty list
/// is an error.
pub proof fn law_list_becomes_a_chain(
    chain: &[(String, TaskMetadata)],
    r: Result<WorkflowContinuation, BuildError>,
)
    requires
        call_ensures(continuation_builder::build_chain, (chain,), r),
    ensures
        r is Ok <==> chain@.len() > 0,
        r is Err ==> r->Err_0@ == Fault::EmptyBranch,
        r is Ok ==> links(r->Ok_0.node()).len() == chain@.len() && forall|i: int|
            #![trigger chain@[i]]
            0 <= i < chain@.len() ==> says_task(
                links(r->Ok_0.node())[i],
                chain@[i].0@,
                None,
                chain@[i].1@,
            ),
{
    let s = continuation_builder::chain_of(chain@);
    if chain@.len() > 0 {
        lemma_chain_links(s, 0);
        assert forall|i: int| #![trigger chain@[i]] 0 <= i < chain@.len() implies says_task(
            links(r->Ok_0.node())[i],
            chain@[i].0@,
            None,
            chain@[i].1@,
        ) by {
            let _ = links(*continuation_builder::chain_node(s, 0)->0)[i];
            assert(s[0 + i].0 == chain@[i].0@);
        }
    }
}

/// The default arm of a route is what the given function builds from nothing, with the errors
/// that came up; where it builds nothing, that is an error, and the route stays as it was.
pub proof fn law_default_arm_is_added<
    C,
    Input,
    Output,
    BranchOut,
    K: BranchKey,
    M,
    Cont: ContinuationState,
    R: RegistryBehavior,
    F: FnOnce(SubBuilder<C, Output, Output, R>) -> SubBuilder<C, Output, BranchOut, R>,
>(
    b: RouteBuilder<C, Input, Output, BranchOut, K, M, Cont, R>,
    f: F,
    r: RouteBuilder<C, Input, Output, BranchOut, K, M, Cont, R>,
)
    requires
        call_ensures(
            RouteBuilder::<C, Input, Output, BranchOut, K, M, Cont, R>::default_branch::<F>,
            (b, f),
            r,
        ),
    ensures
        exists|
            s: SubBuilder<C, Output, Output, R>,
            built: SubBuilder<C, Output, BranchOut, R>,
        | #[trigger]
            f.ensures((s,), built) && s.continuation is None && s.errors@.len() == 0 && s.registry
                == b.registry && r.plan().records == built.registry.records() && (
            built.continuation is Some ==> r.plan().faults == b.plan().faults + built.errors@
                && r.arms().default == Some(Box::new(built.continuation->0.node()))) && (
            built.continuation is None ==> r.plan().faults == (b.plan().faults
                + built.errors@).push(Fault::EmptyBranch) && r.arms().default
                == b.arms().default),
        r.arms().named == b.arms().named,
        r.plan().tree == b.plan().tree,
        same_counts(b.plan(), r.plan()),
{
    let (s, built) = choose|
        s: SubBuilder<C, Output, Output, R>,
        built: SubBuilder<C, Output, BranchOut, R>,
    | #[trigger]
        f.ensures((s,), built) && route_builder::empty_sub(s, b.context.codec, b.registry)
            && r.plan() == (Plan {
            records: built.registry.records(),
            faults: b.plan().faults + route_builder::sub_faults(built.errors@, built.continuation),
            ..b.plan()
        }) && r.arms() == (match route_builder::chain_tree(built.continuation) {
            Some(n) => Arms { default: Some(Box::new(n)), ..b.arms() },
            None => b.arms(),
        });
    assert((b.plan().faults + built.errors@).push(Fault::EmptyBranch) =~= b.plan().faults
        + built.errors@.push(Fault::EmptyBranch));
}

/// The arm of a route under a key is what the given function builds from nothing, with the
/// errors that came up; where it builds nothing, that is an error, and the route stays as it
/// was.
pub proof fn law_arm_is_added<
    C,
    Input,
    Output,
    BranchOut,
    K: BranchKey,
    M,
    Cont: ContinuationState,
    R: RegistryBehavior,
    F: FnOnce(SubBuilder<C, Output, Output, R>) -> SubBuilder<C, Output, BranchOut, R>,
>(
    b: RouteBuilder<C, Input, Output, BranchOut, K, M, Cont, R>,
    key: K,
    f: F,
    r: RouteBuilder<C, Input, Output, BranchOut, K, M, Cont, R>,
)
    requires
        call_ensures(
            RouteBuilder::<C, Input, Output, BranchOut, K, M, Cont, R>::branch::<F>,
            (b, key, f),
            r,
        ),
    ensures
        exists|
            s: SubBuilder<C, Output, Output, R>,
            built: SubBuilder<C, Output, BranchOut, R>,
            name: &'static str,
        |
            #![trigger f.ensures((s,), built), call_ensures(K::as_key, (&key,), name)]
            f.ensures((s,), built) && call_ensures(K::as_key, (&key,), name) && s.continuation
                is None && s.errors@.len() == 0 && s.registry == b.registry && r.plan().records
                == built.registry.records() && (built.continuation is Some ==> r.plan().faults
                == b.plan().faults + built.errors@ && r.arms().named.contains(
                (name@, built.continuation->0.node()),
            ) && (forall|x: (Seq<char>, Node)|
                x.0 != name@ ==> (#[trigger] r.arms().named.contains(x)
                    <==> b.arms().named.contains(x)))) && (built.continuation is None
                ==> r.plan().faults == (b.plan().faults + built.errors@).push(Fault::EmptyBranch)
                && r.arms().named == b.arms().named),
        r.arms().default == b.arms().default,
        r.plan().tree == b.plan().tree,
        same_counts(b.plan(), r.plan()),
{
    let (s, built, name) = choose|
        s: SubBuilder<C, Output, Output, R>,
        built: SubBuilder<C, Output, BranchOut, R>,
        name: &'static str,
    |
        #![trigger f.ensures((s,), built), call_ensures(K::as_key, (&key,), name)]
        f.ensures((s,), built) && call_ensures(K::as_key, (&key,), name)
            && route_builder::empty_sub(s, b.context.codec, b.registry) && r.plan() == (Plan {
            records: built.registry.records(),
            faults: b.plan().faults + route_builder::sub_faults(built.errors@, built.continuation),
            ..b.plan()
        }) && r.arms() == (match route_builder::chain_tree(built.continuation) {
            Some(n) => Arms {
                named: string_map::placed(b.arms().named, name@, n),
                ..b.arms()
            },
            None => b.arms(),
        });
    if let Some(c) = built.continuation {
        lemma_placed(b.arms().named, name@, c.node());
    }
    assert((b.plan().faults + built.errors@).push(Fault::EmptyBranch) =~= b.plan().faults
        + built.errors@.push(Fault::EmptyBranch));
}

} // verus!
