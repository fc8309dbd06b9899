//! What storing, rehydrating and searching a tree keeps and finds.
use crate::continuation;
use crate::continuation::WorkflowContinuation;
use crate::duration::Duration;
use crate::error::BuildError;
use crate::registry::TaskRegistry;
use crate::stored::SerializableContinuation;
use crate::task;
use crate::snapshot::TaskHint;
use crate::task::{RetryPolicy, TaskHandle, TaskMetadata};
use crate::text;
use crate::tree;
use crate::tree::{Change, Info, Node};
use crate::workflow::NodeKind;
use vstd::prelude::*;

verus! {

/// Of a span its whole milliseconds are kept, as far as 64 bits hold them.
pub open spec fn span_kept(d: Duration, e: Duration) -> bool {
    d.secs * 1000 + d.nanos / 1_000_000 <= u64::MAX ==> e.secs * 1000 + e.nanos / 1_000_000
        == d.secs * 1000 + d.nanos / 1_000_000
}

/// Of an optional span its whole milliseconds are kept.
pub open spec fn opt_span_kept(d: Option<Duration>, e: Option<Duration>) -> bool {
    (d is Some <==> e is Some) && (d is Some ==> span_kept(d->0, e->0))
}

/// Apart from what is below and after it, a stored node says all that the node says, but for
/// its implementation.
pub open spec fn head_kept(n: Node, s: Node) -> bool {
    match (n, s) {
        (Node::Task { id, timeout, retry, version, priority, tags, .. }, Node::Task { .. }) => id
            == s->Task_id && opt_span_kept(timeout, s->Task_timeout) && retry == s->retry
            && version == s->version && priority == s->priority && tags == s->tags && s->func
            is None,
        (Node::Fork { id, branches, .. }, Node::Fork { .. }) => id == s->Fork_id && branches.len()
            == s->Fork_branches.len(),
        (Node::Delay { id, duration, .. }, Node::Delay { .. }) => id == s->Delay_id && span_kept(
            duration,
            s->duration,
        ),
        (Node::AwaitSignal { id, signal_name, timeout, .. }, Node::AwaitSignal { .. }) => id
            == s->AwaitSignal_id && signal_name == s->signal_name && opt_span_kept(
            timeout,
            s->AwaitSignal_timeout,
        ),
        (Node::Branch { id, arms, default, .. }, Node::Branch { .. }) => id == s->Branch_id
            && arms.len() == s->arms.len() && (default is Some <==> s->default is Some)
            && s->key_fn is None,
        (Node::Loop { id, max_iterations, on_max, .. }, Node::Loop { .. }) => id == s->Loop_id
            && max_iterations == s->max_iterations && on_max == s->on_max,
        (Node::ChildWorkflow { id, .. }, Node::ChildWorkflow { .. }) => id
            == s->ChildWorkflow_id,
        _ => false,
    }
}

/// Node for node a stored tree says all that a tree says, but for the implementations.
pub open spec fn kept(n: Node, s: Node) -> bool
    decreases n,
{
    head_kept(n, s) && (match (tree::next_of(n), tree::next_of(s)) {
        (Some(m), Some(k)) => kept(*m, *k),
        (None, None) => true,
        _ => false,
    }) && match n {
        Node::Fork { branches, .. } => forall|i: int|
            #![trigger branches[i]]
            0 <= i < branches.len() ==> kept(branches[i], s->Fork_branches[i]),
        Node::Branch { arms, default, .. } => (forall|i: int|
            #![trigger arms[i]]
            0 <= i < arms.len() ==> arms[i].0 == s->arms[i].0 && kept(arms[i].1, s->arms[i].1))
            && (default is Some ==> kept(*default->0, *s->default->0)),
        Node::Loop { body, .. } => kept(*body, *s->body),
        Node::ChildWorkflow { child, .. } => kept(*child, *s->child),
        _ => true,
    }
}

proof fn lemma_span_kept(d: Duration)
    ensures
        span_kept(d, tree::stored_span(d)),
{
}

#[verifier::spinoff_prover]
proof fn lemma_head_kept(n: Node)
    ensures
        head_kept(n, tree::stored(n)),
{
    match n {
        Node::Task { timeout: Some(d), .. } => {
            lemma_span_kept(d);
        },
        Node::AwaitSignal { timeout: Some(d), .. } => {
            lemma_span_kept(d);
        },
        Node::Delay { duration, .. } => {
            lemma_span_kept(duration);
        },
        _ => {},
    }
}

#[verifier::spinoff_prover]
pub proof fn lemma_stored_keeps(n: Node)
    ensures
        kept(n, tree::stored(n)),
    decreases n,
{
    let s = tree::stored(n);
    lemma_head_kept(n);
    if let Some(m) = tree::next_of(n) {
        lemma_stored_keeps(*m);
    }
    match n {
        Node::Fork { branches, .. } => {
            assert forall|i: int| #![trigger branches[i]] 0 <= i < branches.len() implies kept(
                branches[i],
                s->Fork_branches[i],
            ) by {
                lemma_stored_keeps(branches[i]);
            }
        },
        Node::Branch { arms, default, .. } => {
            assert forall|i: int| #![trigger arms[i]] 0 <= i < arms.len() implies arms[i].0
                == s->arms[i].0 && kept(arms[i].1, s->arms[i].1) by {
                lemma_stored_keeps(arms[i].1);
            }
            if let Some(d) = default {
                lemma_stored_keeps(*d);
            }
        },
        Node::Loop { body, .. } => {
            lemma_stored_keeps(*body);
        },
        Node::ChildWorkflow { child, .. } => {
            lemma_stored_keeps(*child);
        },
        _ => {},
    }
}

/// What is stored of a workflow says node for node all that the workflow says: ids, timeouts
/// and delays in milliseconds, retry policies, versions, priorities, tags, signal names, loop
/// limits and how it branches. Only the implementations are left out.
pub proof fn law_storing_keeps_everything(c: &WorkflowContinuation, r: SerializableContinuation)
    requires
        call_ensures(WorkflowContinuation::to_serializable, (c,), r),
    ensures
        kept(c.node(), r.node()),
{
    lemma_stored_keeps(c.node());
}

/// Every task of a tree has the implementation that is registered under its id, and every
/// branch the one under the id of its key function.
pub open spec fn equipped(n: Node, reg: Map<Seq<char>, TaskHandle>) -> bool
    decreases n,
{
    (match tree::next_of(n) {
        Some(m) => equipped(*m, reg),
        None => true,
    }) && match n {
        Node::Task { id, func, .. } => reg.dom().contains(id) && func == Some(reg[id]),
        Node::Fork { branches, .. } => forall|i: int|
            #![trigger branches[i]]
            0 <= i < branches.len() ==> equipped(branches[i], reg),
        Node::Branch { id, key_fn, arms, default, .. } => reg.dom().contains(id + "::key_fn"@)
            && key_fn == Some(reg[id + "::key_fn"@]) && (forall|i: int|
            #![trigger arms[i]]
            0 <= i < arms.len() ==> equipped(arms[i].1, reg)) && (default is Some ==> equipped(
            *default->0,
            reg,
        )),
        Node::Loop { body, .. } => equipped(*body, reg),
        Node::ChildWorkflow { child, .. } => equipped(*child, reg),
        _ => true,
    }
}

proof fn lemma_bound_opt_is_equipped(o: Option<Box<Node>>, reg: Map<Seq<char>, TaskHandle>)
    ensures
        tree::bound_opt(o, reg) matches Ok(Some(b)) ==> equipped(*b, reg),
    decreases o, 0nat,
{
    if let Some(m) = o {
        lemma_bound_is_equipped(*m, reg);
    }
}

proof fn lemma_bound_is_equipped(n: Node, reg: Map<Seq<char>, TaskHandle>)
    ensures
        tree::bound(n, reg) matches Ok(b) ==> equipped(b, reg),
    decreases n, 0nat,
{
    if let Ok(b) = tree::bound(n, reg) {
        reveal_with_fuel(tree::bound, 2);
        reveal_with_fuel(equipped, 2);
        match n {
            Node::Task { next, .. } => {
                lemma_bound_opt_is_equipped(next, reg);
            },
            Node::Delay { next, .. } => {
                lemma_bound_opt_is_equipped(next, reg);
            },
            Node::AwaitSignal { next, .. } => {
                lemma_bound_opt_is_equipped(next, reg);
            },
            Node::Fork { branches, join, .. } => {
                lemma_bound_opt_is_equipped(join, reg);
                lemma_bound_all_equipped(branches, branches.len(), reg);
            },
            Node::Branch { arms, default, next, .. } => {
                lemma_bound_opt_is_equipped(default, reg);
                lemma_bound_opt_is_equipped(next, reg);
                lemma_bound_arms_equipped(arms, arms.len(), reg);
            },
            Node::Loop { body, next, .. } => {
                lemma_bound_is_equipped(*body, reg);
                lemma_bound_opt_is_equipped(next, reg);
            },
            Node::ChildWorkflow { child, next, .. } => {
                lemma_bound_is_equipped(*child, reg);
                lemma_bound_opt_is_equipped(next, reg);
            },
        }
    }
}

proof fn lemma_bound_all_equipped(s: Seq<Node>, k: nat, reg: Map<Seq<char>, TaskHandle>)
    requires
        k <= s.len(),
    ensures
        tree::bound_all(s, k, reg) matches Ok(b) ==> forall|i: int|
            #![trigger b[i]]
            0 <= i < b.len() ==> equipped(b[i], reg),
    decreases s, k,
{
    if k > 0 {
        lemma_bound_all_equipped(s, (k - 1) as nat, reg);
        lemma_bound_is_equipped(s[k - 1], reg);
    }
}

proof fn lemma_bound_arms_equipped(
    s: Seq<(Seq<char>, Node)>,
    k: nat,
    reg: Map<Seq<char>, TaskHandle>,
)
    requires
        k <= s.len(),
    ensures
        tree::bound_arms(s, k, reg) matches Ok(b) ==> forall|i: int|
            #![trigger b[i]]
            0 <= i < b.len() ==> equipped(b[i].1, reg),
    decreases s, k,
{
    if k > 0 {
        lemma_bound_arms_equipped(s, (k - 1) as nat, reg);
        lemma_bound_is_equipped(s[k - 1].1, reg);
    }
}

/// A workflow that is rehydrated has in every place the implementation that is registered
/// for it.
pub proof fn law_rehydrated_tasks_are_the_registered_ones(
    c: &SerializableContinuation,
    registry: &TaskRegistry,
    r: Result<WorkflowContinuation, BuildError>,
)
    requires
        call_ensures(SerializableContinuation::to_runnable, (c, registry), r),
        r is Ok,
    ensures
        equipped(r->Ok_0.node(), registry.handles()),
        tree::ids(c.node()).no_duplicates(),
{
    lemma_bound_is_equipped(c.node(), registry.handles());
    crate::laws::law_duplicate_iff_not_unique(c.node());
}

/// A tree is one of those right below or right after a node.
pub open spec fn child_of(n: Node, c: Node) -> bool {
    tree::next_of(n) == Some(Box::new(c)) || match n {
        Node::Fork { branches, .. } => branches.contains(c),
        Node::Branch { arms, default, .. } => (exists|i: int|
            0 <= i < arms.len() && (#[trigger] arms[i]).1 == c) || default == Some(Box::new(c)),
        Node::Loop { body, .. } => *body == c,
        Node::ChildWorkflow { child, .. } => *child == c,
        _ => false,
    }
}

/// A path leads from a node to one of the nodes of its tree, each step of it to a child.
pub open spec fn leads(path: Seq<Node>, n: Node, m: Node) -> bool {
    path.len() > 0 && path[0] == n && path.last() == m && forall|i: int|
        #![trigger path[i]]
        0 < i < path.len() ==> child_of(path[i - 1], path[i])
}

/// A tree is part of another one.
pub open spec fn part_of(n: Node, m: Node) -> bool {
    exists|path: Seq<Node>| leads(path, n, m)
}

/// The whole is part of itself.
proof fn lemma_whole(n: Node)
    ensures
        part_of(n, n),
{
    assert(leads(seq![n], n, n));
}

/// A part of a child is part of the node.
proof fn lemma_part_of_child(n: Node, c: Node, m: Node)
    requires
        child_of(n, c),
        part_of(c, m),
    ensures
        part_of(n, m),
{
    let p = choose|p: Seq<Node>| leads(p, c, m);
    let q = seq![n] + p;
    assert forall|i: int| #![trigger q[i]] 0 < i < q.len() implies child_of(q[i - 1], q[i]) by {
        assert(q[i] == p[i - 1]);
        if i > 1 {
            assert(q[i - 1] == p[i - 2]);
            let _ = p[i - 1];
        }
    }
    assert(q.last() == p.last());
    assert(leads(q, n, m));
}

/// A part of a node is the node or part of one of its children.
proof fn lemma_part_cases(n: Node, m: Node) -> (c: Node)
    requires
        part_of(n, m),
        n != m,
    ensures
        child_of(n, c),
        part_of(c, m),
{
    let p = choose|p: Seq<Node>| leads(p, n, m);
    assert(p.len() > 1);
    let q = p.skip(1);
    let _ = p[1];
    assert forall|i: int| #![trigger q[i]] 0 < i < q.len() implies child_of(q[i - 1], q[i]) by {
        assert(q[i] == p[i + 1]);
        assert(q[i - 1] == p[i]);
    }
    assert(q[0] == p[1]);
    assert(q.last() == p.last());
    assert(leads(q, p[1], m));
    p[1]
}

/// A child of a node is smaller.
proof fn lemma_child_is_smaller(n: Node, c: Node)
    requires
        child_of(n, c),
    ensures
        decreases_to!(n => c),
{
    match n {
        Node::Fork { branches, .. } => {
            if branches.contains(c) {
                let i = choose|i: int| 0 <= i < branches.len() && branches[i] == c;
                assert(decreases_to!(n => n->Fork_branches));
                assert(decreases_to!(n->Fork_branches => n->Fork_branches[i]));
            } else {
                assert(decreases_to!(n => n->join));
                assert(decreases_to!(n->join => n->join->0));
            }
        },
        Node::Branch { arms, default, next, .. } => {
            if exists|i: int| 0 <= i < arms.len() && (#[trigger] arms[i]).1 == c {
                let i = choose|i: int| 0 <= i < arms.len() && (#[trigger] arms[i]).1 == c;
                assert(decreases_to!(n => n->arms));
                assert(decreases_to!(n->arms => n->arms[i]));
                assert(decreases_to!(n->arms[i] => n->arms[i].1));
            } else if default == Some(Box::new(c)) {
                assert(decreases_to!(n => n->default));
                assert(decreases_to!(n->default => n->default->0));
            } else {
                assert(decreases_to!(n => n->Branch_next));
                assert(decreases_to!(n->Branch_next => n->Branch_next->0));
            }
        },
        Node::Loop { body, next, .. } => {
            if *body == c {
                assert(decreases_to!(n => n->body));
            } else {
                assert(decreases_to!(n => n->Loop_next));
                assert(decreases_to!(n->Loop_next => n->Loop_next->0));
            }
        },
        Node::ChildWorkflow { child, next, .. } => {
            if *child == c {
                assert(decreases_to!(n => n->child));
            } else {
                assert(decreases_to!(n => n->ChildWorkflow_next));
                assert(decreases_to!(n->ChildWorkflow_next => n->ChildWorkflow_next->0));
            }
        },
        Node::Task { .. } => {
            assert(decreases_to!(n => n->Task_next));
            assert(decreases_to!(n->Task_next => n->Task_next->0));
        },
        Node::Delay { .. } => {
            assert(decreases_to!(n => n->Delay_next));
            assert(decreases_to!(n->Delay_next => n->Delay_next->0));
        },
        Node::AwaitSignal { .. } => {
            assert(decreases_to!(n => n->AwaitSignal_next));
            assert(decreases_to!(n->AwaitSignal_next => n->AwaitSignal_next->0));
        },
    }
}

/// What is found is a task of the tree with that id.
pub proof fn lemma_found_is_part(n: Node, t: Seq<char>)
    ensures
        tree::find(n, t) matches Some(x) ==> part_of(n, x) && x is Task && x->Task_id == t,
    decreases n, 0nat,
{
    if let Some(x) = tree::find(n, t) {
        if n is Task && n->Task_id == t {
            lemma_whole(n);
        } else {
            match n {
                Node::Fork { branches, .. } => {
                    lemma_found_in_all(branches, branches.len(), t);
                    if let Some(y) = tree::find_all(branches, branches.len(), t) {
                        let i = choose|i: int|
                            0 <= i < branches.len() && part_of(#[trigger] branches[i], y);
                        lemma_part_of_child(n, branches[i], y);
                    }
                },
                Node::Branch { arms, default, .. } => {
                    lemma_found_in_arms(arms, arms.len(), t);
                    if let Some(y) = tree::find_arms(arms, arms.len(), t) {
                        let i = choose|i: int|
                            0 <= i < arms.len() && part_of((#[trigger] arms[i]).1, y);
                        lemma_part_of_child(n, arms[i].1, y);
                    } else if let Some(d) = default {
                        lemma_found_is_part(*d, t);
                        if let Some(y) = tree::find(*d, t) {
                            lemma_part_of_child(n, *d, y);
                        }
                    }
                },
                Node::Loop { body, .. } => {
                    lemma_found_is_part(*body, t);
                    if let Some(y) = tree::find(*body, t) {
                        lemma_part_of_child(n, *body, y);
                    }
                },
                Node::ChildWorkflow { child, .. } => {
                    lemma_found_is_part(*child, t);
                    if let Some(y) = tree::find(*child, t) {
                        lemma_part_of_child(n, *child, y);
                    }
                },
                _ => {},
            }
            if let Some(m) = tree::next_of(n) {
                lemma_child_is_smaller(n, *m);
                lemma_found_is_part(*m, t);
                if let Some(y) = tree::find(*m, t) {
                    lemma_part_of_child(n, *m, y);
                }
            }
        }
    }
}

proof fn lemma_found_in_all(s: Seq<Node>, k: nat, t: Seq<char>)
    requires
        k <= s.len(),
    ensures
        tree::find_all(s, k, t) matches Some(x) ==> x is Task && x->Task_id == t && exists|i: int|
            0 <= i < k && part_of(#[trigger] s[i], x),
    decreases s, k,
{
    if k > 0 {
        lemma_found_in_all(s, (k - 1) as nat, t);
        lemma_found_is_part(s[k - 1], t);
        if let Some(x) = tree::find_all(s, (k - 1) as nat, t) {
            let i = choose|i: int| 0 <= i < k - 1 && part_of(#[trigger] s[i], x);
            assert(part_of(s[i], x));
        } else if let Some(x) = tree::find(s[k - 1], t) {
            assert(part_of(s[k - 1], x));
        }
    }
}

proof fn lemma_found_in_arms(s: Seq<(Seq<char>, Node)>, k: nat, t: Seq<char>)
    requires
        k <= s.len(),
    ensures
        tree::find_arms(s, k, t) matches Some(x) ==> x is Task && x->Task_id == t && exists|i: int|
            0 <= i < k && part_of((#[trigger] s[i]).1, x),
    decreases s, k,
{
    if k > 0 {
        lemma_found_in_arms(s, (k - 1) as nat, t);
        lemma_found_is_part(s[k - 1].1, t);
        if let Some(x) = tree::find_arms(s, (k - 1) as nat, t) {
            let i = choose|i: int| 0 <= i < k - 1 && part_of((#[trigger] s[i]).1, x);
            assert(part_of(s[i].1, x));
        } else if let Some(x) = tree::find(s[k - 1].1, t) {
            assert(part_of(s[k - 1].1, x));
        }
    }
}

proof fn lemma_find_all_some(s: Seq<Node>, k: nat, t: Seq<char>, i: int)
    requires
        0 <= i < k <= s.len(),
        tree::find(s[i], t) is Some,
    ensures
        tree::find_all(s, k, t) is Some,
    decreases k,
{
    if i < k - 1 {
        lemma_find_all_some(s, (k - 1) as nat, t, i);
    }
}

proof fn lemma_find_arms_some(s: Seq<(Seq<char>, Node)>, k: nat, t: Seq<char>, i: int)
    requires
        0 <= i < k <= s.len(),
        tree::find(s[i].1, t) is Some,
    ensures
        tree::find_arms(s, k, t) is Some,
    decreases k,
{
    if i < k - 1 {
        lemma_find_arms_some(s, (k - 1) as nat, t, i);
    }
}

/// Some task is found under the id of every task of the tree.
proof fn lemma_part_is_found(n: Node, m: Node)
    requires
        part_of(n, m),
        m is Task,
    ensures
        tree::find(n, m->Task_id) is Some,
    decreases n,
{
    let t = m->Task_id;
    if n != m {
        let c = lemma_part_cases(n, m);
        lemma_child_is_smaller(n, c);
        lemma_part_is_found(c, m);
        match n {
            Node::Fork { branches, .. } => {
                if branches.contains(c) {
                    let i = choose|i: int| 0 <= i < branches.len() && branches[i] == c;
                    lemma_find_all_some(branches, branches.len(), t, i);
                }
            },
            Node::Branch { arms, .. } => {
                if exists|i: int| 0 <= i < arms.len() && (#[trigger] arms[i]).1 == c {
                    let i = choose|i: int| 0 <= i < arms.len() && (#[trigger] arms[i]).1 == c;
                    lemma_find_arms_some(arms, arms.len(), t, i);
                }
            },
            _ => {},
        }
    }
}

/// What is read of a task is what a task of the tree with that id says; nothing is read
/// only if no task of the tree, however deep, has that id.
pub proof fn law_task_is_found_anywhere(
    c: &WorkflowContinuation,
    task_id: &str,
    meta: TaskMetadata,
    timeout: Option<Duration>,
    priority: Option<u8>,
    tags: Vec<String>,
)
    requires
        call_ensures(WorkflowContinuation::build_task_metadata, (c, task_id), meta),
        call_ensures(WorkflowContinuation::get_task_timeout, (c, task_id), timeout),
        call_ensures(WorkflowContinuation::get_task_priority, (c, task_id), priority),
        call_ensures(WorkflowContinuation::get_task_tags, (c, task_id), tags),
    ensures
        (exists|m: Node|
            #[trigger] part_of(c.node(), m) && m is Task && m->Task_id == task_id@ && timeout
                == m->Task_timeout && priority == m->priority && text::texts(tags@) == m->tags
                && meta@.timeout == m->Task_timeout && meta@.retries == m->retry && (m->priority is Some
                && 1 <= m->priority->0 <= 5 ==> meta@.priority is Some && crate::priority::rank(
                meta@.priority->0,
            ) == m->priority->0) && (m->priority is None ==> meta@.priority is None)
                && meta@.version == m->version && meta@.tags == m->tags) || (forall|
            m: Node,
        |
            #![trigger part_of(c.node(), m)]
            part_of(c.node(), m) && m is Task ==> m->Task_id != task_id@) && timeout is None
            && priority is None && tags@.len() == 0 && meta@.timeout is None && meta@.retries
            is None && meta@.priority is None && meta@.version is None && meta@.tags.len() == 0,
{
    let n = c.node();
    let t = task_id@;
    lemma_found_is_part(n, t);
    match tree::find(n, t) {
        Some(m) => {
            assert(part_of(n, m));
        },
        None => {
            assert(text::texts(tags@).len() == tags@.len());
            assert forall|m: Node| #![trigger part_of(n, m)] part_of(n, m) && m
                is Task implies m->Task_id != t by {
                if m->Task_id == t {
                    lemma_part_is_found(n, m);
                }
            }
        },
    }
}

/// A report says what a node says.
pub open spec fn tells(i: Info, n: Node) -> bool {
    &&& i.id == tree::id_of(n)
    &&& i.kind == (match n {
        Node::Task { .. } => NodeKind::Task,
        Node::Fork { .. } => NodeKind::Fork,
        Node::Delay { .. } => NodeKind::Delay,
        Node::AwaitSignal { .. } => NodeKind::AwaitSignal,
        Node::Branch { .. } => NodeKind::Branch,
        Node::Loop { .. } => NodeKind::Loop,
        Node::ChildWorkflow { .. } => NodeKind::ChildWorkflow,
    })
    &&& i.timeout == (match n {
        Node::Task { timeout, .. } => timeout,
        Node::Delay { duration, .. } => Some(duration),
        Node::AwaitSignal { timeout, .. } => timeout,
        _ => None,
    })
    &&& n is Task ==> i.retry == n->retry && i.priority == n->priority && i.version == n->version
        && i.tags == n->tags
    &&& !(n is Task) ==> i.retry is None && i.priority is None && i.version is None && i.tags.len()
        == 0
}

/// A list of reports has one that says what a node says and who leads to it.
pub open spec fn reported(s: Seq<Info>, n: Node, predecessor: Option<Seq<char>>) -> bool {
    exists|i: int| 0 <= i < s.len() && tells(#[trigger] s[i], n) && s[i].predecessor == predecessor
}

proof fn lemma_reported(a: Seq<Info>, b: Seq<Info>, n: Node, p: Option<Seq<char>>)
    requires
        reported(a, n, p) || reported(b, n, p),
    ensures
        reported(a + b, n, p),
{
    if reported(a, n, p) {
        let i = choose|i: int| 0 <= i < a.len() && tells(#[trigger] a[i], n) && a[i].predecessor == p;
        assert((a + b)[i] == a[i]);
    } else {
        let i = choose|i: int| 0 <= i < b.len() && tells(#[trigger] b[i], n) && b[i].predecessor == p;
        assert((a + b)[a.len() + i] == b[i]);
    }
}

proof fn lemma_reported_all(
    s: Seq<Node>,
    k: nat,
    q: Option<Seq<char>>,
    i: int,
    n: Node,
    p: Option<Seq<char>>,
)
    requires
        0 <= i < k <= s.len(),
        reported(tree::infos(s[i], q), n, p),
    ensures
        reported(tree::infos_all(s, k, q), n, p),
    decreases k,
{
    if i < k - 1 {
        lemma_reported_all(s, (k - 1) as nat, q, i, n, p);
    }
    lemma_reported(
        tree::infos_all(s, (k - 1) as nat, q),
        tree::infos(s[k - 1], q),
        n,
        p,
    );
}

proof fn lemma_reported_arms(
    s: Seq<(Seq<char>, Node)>,
    k: nat,
    q: Option<Seq<char>>,
    i: int,
    n: Node,
    p: Option<Seq<char>>,
)
    requires
        0 <= i < k <= s.len(),
        reported(tree::infos(s[i].1, q), n, p),
    ensures
        reported(tree::infos_arms(s, k, q), n, p),
    decreases k,
{
    if i < k - 1 {
        lemma_reported_arms(s, (k - 1) as nat, q, i, n, p);
    }
    lemma_reported(
        tree::infos_arms(s, (k - 1) as nat, q),
        tree::infos(s[k - 1].1, q),
        n,
        p,
    );
}

/// What is reported of a child is reported of the node.
proof fn lemma_child_is_reported(
    n: Node,
    c: Node,
    m: Node,
    p: Option<Seq<char>>,
    q: Option<Seq<char>>,
)
    requires
        child_of(n, c),
        reported(tree::infos(c, Some(tree::id_of(n))), m, p),
    ensures
        reported(tree::infos(n, q), m, p),
{
    let id = Some(tree::id_of(n));
    let first = seq![tree::info(n, q)];
    let below = tree::children_infos(n);
    let after = tree::infos_opt(tree::next_of(n), id);
    if tree::next_of(n) == Some(Box::new(c)) {
        assert(after == tree::infos(c, id));
        match n {
            Node::Fork { branches, .. } => {
                lemma_reported(tree::infos_all(branches, branches.len(), id), after, m, p);
            },
            Node::Branch { arms, default, .. } => {
                lemma_reported(
                    tree::infos_arms(arms, arms.len(), id) + tree::infos_opt(default, id),
                    after,
                    m,
                    p,
                );
            },
            Node::Loop { body, .. } => {
                lemma_reported(tree::infos(*body, id), after, m, p);
            },
            Node::ChildWorkflow { child, .. } => {
                lemma_reported(tree::infos(*child, id), after, m, p);
            },
            _ => {},
        }
    } else {
        match n {
            Node::Fork { branches, .. } => {
                let i = choose|i: int| 0 <= i < branches.len() && branches[i] == c;
                lemma_reported_all(branches, branches.len(), id, i, m, p);
                lemma_reported(tree::infos_all(branches, branches.len(), id), after, m, p);
            },
            Node::Branch { arms, default, .. } => {
                let a = tree::infos_arms(arms, arms.len(), id);
                let d = tree::infos_opt(default, id);
                if exists|i: int| 0 <= i < arms.len() && (#[trigger] arms[i]).1 == c {
                    let i = choose|i: int| 0 <= i < arms.len() && (#[trigger] arms[i]).1 == c;
                    lemma_reported_arms(arms, arms.len(), id, i, m, p);
                } else {
                    assert(d == tree::infos(c, id));
                }
                lemma_reported(a, d, m, p);
                lemma_reported(a + d, after, m, p);
            },
            Node::Loop { body, .. } => {
                lemma_reported(tree::infos(*body, id), after, m, p);
            },
            Node::ChildWorkflow { child, .. } => {
                lemma_reported(tree::infos(*child, id), after, m, p);
            },
            _ => {},
        }
    }
    assert(reported(below, m, p));
    lemma_reported(first, below, m, p);
}

pub proof fn lemma_part_is_reported(n: Node, m: Node, q: Option<Seq<char>>)
    requires
        part_of(n, m),
    ensures
        n == m ==> reported(tree::infos(n, q), m, q),
        n != m ==> exists|a: Node|
            #[trigger] child_of(a, m) && part_of(n, a) && reported(
                tree::infos(n, q),
                m,
                Some(tree::id_of(a)),
            ),
    decreases n,
{
    if n == m {
        assert(tells(tree::infos(n, q)[0], n));
    } else {
        let c = lemma_part_cases(n, m);
        lemma_child_is_smaller(n, c);
        lemma_part_is_reported(c, m, Some(tree::id_of(n)));
        if c == m {
            lemma_whole(n);
            lemma_child_is_reported(n, c, m, Some(tree::id_of(n)), q);
            assert(child_of(n, m) && part_of(n, n));
        } else {
            let a = choose|a: Node|
                #[trigger] child_of(a, m) && part_of(c, a) && reported(
                    tree::infos(c, Some(tree::id_of(n))),
                    m,
                    Some(tree::id_of(a)),
                );
            lemma_part_of_child(n, c, a);
            lemma_child_is_reported(n, c, m, Some(tree::id_of(a)), q);
            assert(child_of(a, m) && part_of(n, a));
        }
    }
}

/// A walk over a workflow reports every node of it, however deep, with all that the node
/// says and with the id of the node that leads to it.
pub proof fn law_walk_reports_every_node(
    c: &WorkflowContinuation,
    it: continuation::NodeIter<'_>,
    m: Node,
)
    requires
        call_ensures(WorkflowContinuation::iter_nodes, (c,), it),
        part_of(c.node(), m),
    ensures
        m == c.node() ==> reported(continuation::pending(it.stack@), m, None),
        m != c.node() ==> exists|a: Node|
            #[trigger] child_of(a, m) && part_of(c.node(), a) && reported(
                continuation::pending(it.stack@),
                m,
                Some(tree::id_of(a)),
            ),
{
    lemma_part_is_reported(c.node(), m, None);
}

/// The ids of a workflow are those of all of its nodes, however deep.
pub proof fn law_every_id_is_listed(n: Node, m: Node)
    requires
        part_of(n, m),
    ensures
        tree::ids(n).contains(tree::id_of(m)),
{
    lemma_part_is_reported(n, m, None);
    let s = tree::infos(n, None);
    let i = if n == m {
        choose|i: int| 0 <= i < s.len() && tells(#[trigger] s[i], m) && s[i].predecessor == None::<
            Seq<char>,
        >
    } else {
        let a = choose|a: Node|
            #[trigger] child_of(a, m) && part_of(n, a) && reported(s, m, Some(tree::id_of(a)));
        choose|i: int|
            0 <= i < s.len() && tells(#[trigger] s[i], m) && s[i].predecessor == Some(
                tree::id_of(a),
            )
    };
    crate::laws::law_walk_reports_ids(n, None);
    assert(crate::laws::info_ids(s)[i] == tree::id_of(m));
}

/// The node that starts first: a fork starts with its first branch, a loop with its body and
/// a child workflow with its own first node.
pub open spec fn starts_with(n: Node, m: Node) -> bool
    decreases n,
{
    match n {
        Node::Fork { branches, .. } => branches.len() > 0 && starts_with(branches[0], m),
        Node::Loop { body, .. } => starts_with(*body, m),
        Node::ChildWorkflow { child, .. } => starts_with(*child, m),
        _ => n == m,
    }
}

proof fn lemma_first(n: Node, m: Node)
    requires
        starts_with(n, m),
    ensures
        part_of(n, m),
        tree::first_id(n) == tree::id_of(m),
        m is Task ==> tree::first_priority(n) == m->priority && tree::first_tags(n) == m->tags,
        !(m is Task) ==> tree::first_priority(n) is None && tree::first_tags(n).len() == 0,
    decreases n,
{
    match n {
        Node::Fork { branches, .. } => {
            lemma_first(branches[0], m);
            assert(branches.contains(branches[0]));
            lemma_part_of_child(n, branches[0], m);
        },
        Node::Loop { body, .. } => {
            lemma_first(*body, m);
            lemma_part_of_child(n, *body, m);
        },
        Node::ChildWorkflow { child, .. } => {
            lemma_first(*child, m);
            lemma_part_of_child(n, *child, m);
        },
        _ => {
            lemma_whole(n);
        },
    }
}

/// The hint for a workflow is about the node that starts first: its id, and the priority and
/// the tags of a task.
pub proof fn law_hint_is_of_the_first_node(
    c: &WorkflowContinuation,
    hint: TaskHint,
    id: &str,
    m: Node,
)
    requires
        starts_with(c.node(), m),
        call_ensures(WorkflowContinuation::first_task_hint, (c,), hint),
        call_ensures(WorkflowContinuation::first_task_id, (c,), id),
    ensures
        part_of(c.node(), m),
        hint.id@ == tree::id_of(m) && id@ == tree::id_of(m),
        m is Task ==> hint.priority == m->priority && text::texts(hint.tags@) == m->tags,
        !(m is Task) ==> hint.priority is None && hint.tags@.len() == 0,
{
    lemma_first(c.node(), m);
    assert(text::texts(hint.tags@).len() == hint.tags@.len());
}

proof fn lemma_terminal(n: Node)
    ensures
        part_of(n, tree::terminal(n)),
        tree::next_of(tree::terminal(n)) is None,
    decreases n,
{
    match tree::next_of(n) {
        Some(m) => {
            lemma_child_is_smaller(n, *m);
            lemma_terminal(*m);
            lemma_part_of_child(n, *m, tree::terminal(*m));
        },
        None => {
            lemma_whole(n);
        },
    }
}

/// The last task of a workflow is one of its nodes that nothing follows.
pub proof fn law_nothing_follows_the_last_node(c: &WorkflowContinuation, r: &str)
    requires
        call_ensures(WorkflowContinuation::terminal_task_id, (c,), r),
    ensures
        exists|m: Node|
            #[trigger] part_of(c.node(), m) && tree::next_of(m) is None && r@ == tree::id_of(m),
{
    lemma_terminal(c.node());
}

/// An id that is used twice is found, in a workflow as in a stored one, and none is found
/// where all are different; the ids of a stored workflow are those of all of its nodes.
pub proof fn law_repeated_ids_are_found(
    c: &WorkflowContinuation,
    s: &SerializableContinuation,
    r: Option<String>,
    t: Option<String>,
    ids: Vec<&str>,
    m: Node,
)
    requires
        call_ensures(WorkflowContinuation::find_duplicate_id, (c,), r),
        call_ensures(SerializableContinuation::find_duplicate_id, (s,), t),
        call_ensures(SerializableContinuation::task_ids, (s,), ids),
        part_of(s.node(), m),
    ensures
        r is None <==> tree::ids(c.node()).no_duplicates(),
        r is Some ==> tree::ids(c.node()).contains(r->0@),
        t is None <==> continuation::str_texts(ids@).no_duplicates(),
        t is Some ==> continuation::str_texts(ids@).contains(t->0@),
        continuation::str_texts(ids@).contains(tree::id_of(m)),
{
    crate::laws::law_duplicate_iff_not_unique(c.node());
    crate::laws::law_duplicate_iff_not_unique(s.node());
    law_every_id_is_listed(s.node(), m);
}

/// What is collected of a walk is all that it reports, and nothing is left.
pub proof fn law_walk_is_collected_whole(
    it: &mut continuation::NodeIter<'_>,
    v: Vec<continuation::NodeInfo<'_>>,
    m: Node,
    predecessor: Option<Seq<char>>,
)
    requires
        call_ensures(continuation::NodeIter::collect_all, (it,), v),
        reported(continuation::pending(old(it).stack@), m, predecessor),
    ensures
        reported(continuation::reports(v@), m, predecessor),
        v@.len() == continuation::pending(old(it).stack@).len(),
        final(it).stack@.len() == 0,
{
    assert(continuation::reports(v@).len() == v@.len());
}

/// What is set of a task is read back: its timeout, its retry policy, its version or its
/// tags, each as it was given, and its other fields stay.
pub proof fn law_set_fields_are_read_back(
    a: &mut WorkflowContinuation,
    b: &mut WorkflowContinuation,
    c: &mut WorkflowContinuation,
    d: &mut WorkflowContinuation,
    id: &str,
    timeout: Option<Duration>,
    policy: Option<RetryPolicy>,
    version: Option<String>,
    tags: Vec<String>,
    n: Node,
)
    requires
        call_ensures(WorkflowContinuation::set_task_timeout, (a, id, timeout), ()),
        call_ensures(WorkflowContinuation::set_task_retry_policy, (b, id, policy), ()),
        call_ensures(WorkflowContinuation::set_task_version, (c, id, version), ()),
        call_ensures(WorkflowContinuation::set_task_tags, (d, id, tags), ()),
        old(a).node() == n && old(b).node() == n && old(c).node() == n && old(d).node() == n,
        tree::ids(n).no_duplicates(),
        crate::step_laws::links(n).last() is Task,
        crate::step_laws::links(n).last()->Task_id == id@,
    ensures
        tree::find(n, id@) is Some && tree::find(n, id@)->0 is Task,
        ({
            let t = tree::find(n, id@)->0;
            let w = tree::find(final(a).node(), id@);
            let x = tree::find(final(b).node(), id@);
            let y = tree::find(final(c).node(), id@);
            let z = tree::find(final(d).node(), id@);
            &&& w is Some && w->0 is Task && w->0->Task_timeout == timeout && w->0->retry
                == t->retry && w->0->version == t->version && w->0->tags == t->tags
            &&& x is Some && x->0 is Task && x->0->retry == task::opt_retry(policy)
                && x->0->Task_timeout == t->Task_timeout && x->0->version == t->version
                && x->0->tags == t->tags
            &&& y is Some && y->0 is Task && y->0->version == text::opt_text(version)
                && y->0->Task_timeout == t->Task_timeout && y->0->retry == t->retry
                && y->0->tags == t->tags
            &&& z is Some && z->0 is Task && z->0->tags == text::texts(tags@)
                && z->0->Task_timeout == t->Task_timeout && z->0->retry == t->retry
                && z->0->version == t->version
            &&& w->0->func == t->func && x->0->func == t->func && y->0->func == t->func
                && z->0->func == t->func
        }),
        tree::ids(final(a).node()) == tree::ids(n) && tree::ids(final(b).node()) == tree::ids(n)
            && tree::ids(final(c).node()) == tree::ids(n) && tree::ids(final(d).node())
            == tree::ids(n),
{
    let t = id@;
    let p = Change::Timeout(timeout);
    let q = Change::Retry(task::opt_retry(policy));
    let r = Change::Version(text::opt_text(version));
    let s = Change::Tags(text::texts(tags@));
    crate::step_laws::lemma_change_finds_last(n, t, p);
    crate::step_laws::lemma_change_finds_last(n, t, q);
    crate::step_laws::lemma_change_finds_last(n, t, r);
    crate::step_laws::lemma_change_finds_last(n, t, s);
    crate::change_laws::law_set_is_read_back(n, t, p);
    crate::change_laws::law_set_is_read_back(n, t, q);
    crate::change_laws::law_set_is_read_back(n, t, r);
    crate::change_laws::law_set_is_read_back(n, t, s);
    crate::change_laws::law_change_keeps_ids(n, t, p);
    crate::change_laws::law_change_keeps_ids(n, t, q);
    crate::change_laws::law_change_keeps_ids(n, t, r);
    crate::change_laws::law_change_keeps_ids(n, t, s);
    lemma_found_is_part(n, t);
}

/// Two walks report the same, but for what they say of the tasks with an id.
pub open spec fn same_but(a: Seq<Info>, b: Seq<Info>, id: Seq<char>) -> bool {
    a.len() == b.len() && forall|i: int|
        #![trigger a[i]]
        #![trigger b[i]]
        0 <= i < a.len() ==> a[i] == b[i] || (a[i].id == id && b[i].id == id)
}

proof fn lemma_same_but(
    a: Seq<Info>,
    b: Seq<Info>,
    c: Seq<Info>,
    d: Seq<Info>,
    id: Seq<char>,
)
    requires
        same_but(a, b, id),
        same_but(c, d, id),
    ensures
        same_but(a + c, b + d, id),
{
    let x = a + c;
    let y = b + d;
    assert forall|i: int|
        #![trigger x[i]]
        #![trigger y[i]]
        0 <= i < x.len() implies x[i] == y[i] || (x[i].id == id && y[i].id == id) by {
        if i < a.len() {
            assert(x[i] == a[i] && y[i] == b[i]);
        } else {
            assert(x[i] == c[i - a.len()] && y[i] == d[i - a.len()]);
        }
    }
}

proof fn lemma_arms_same_but(
    s: Seq<(Seq<char>, Node)>,
    r: Seq<(Seq<char>, Node)>,
    i: int,
    k: nat,
    p: Option<Seq<char>>,
    id: Seq<char>,
)
    requires
        0 <= i < s.len(),
        k <= s.len(),
        r.len() == s.len(),
        forall|j: int| 0 <= j < s.len() && j != i ==> #[trigger] r[j] == s[j],
        same_but(tree::infos(s[i].1, p), tree::infos(r[i].1, p), id),
    ensures
        same_but(tree::infos_arms(s, k, p), tree::infos_arms(r, k, p), id),
    decreases k,
{
    if k > 0 {
        lemma_arms_same_but(s, r, i, (k - 1) as nat, p, id);
        lemma_same_but(
            tree::infos_arms(s, (k - 1) as nat, p),
            tree::infos_arms(r, (k - 1) as nat, p),
            tree::infos(s[k - 1].1, p),
            tree::infos(r[k - 1].1, p),
            id,
        );
    }
}

/// Of arms that are changed one is.
proof fn lemma_changed_arm(s: Seq<(Seq<char>, Node)>, k: nat, t: Seq<char>, c: Change) -> (i: int)
    requires
        k <= s.len(),
        tree::changed_arms(s, k, t, c) is Some,
    ensures
        0 <= i < k,
        tree::changed(s[i].1, t, c) is Some,
        tree::changed_arms(s, k, t, c)->0 == s.update(
            i,
            (s[i].0, tree::changed(s[i].1, t, c)->0),
        ),
    decreases k,
{
    if tree::changed_arms(s, (k - 1) as nat, t, c) is Some {
        lemma_changed_arm(s, (k - 1) as nat, t, c)
    } else {
        k - 1
    }
}

/// A change of what follows a node leaves what is before it.
proof fn lemma_next_same_but(n: Node, m: Node, t: Seq<char>, p: Option<Seq<char>>)
    requires
        crate::step_laws::same_but_next(n, m),
        same_but(
            tree::infos_opt(tree::next_of(n), Some(tree::id_of(n))),
            tree::infos_opt(tree::next_of(m), Some(tree::id_of(n))),
            t,
        ),
    ensures
        same_but(tree::infos(n, p), tree::infos(m, p), t),
{
    let id = Some(tree::id_of(n));
    let a = tree::infos_opt(tree::next_of(n), id);
    let b = tree::infos_opt(tree::next_of(m), id);
    let first = seq![tree::info(n, p)];
    assert(tree::info(n, p) == tree::info(m, p));
    assert(tree::id_of(m) == tree::id_of(n));
    match n {
        Node::Fork { branches, .. } => {
            let x = tree::infos_all(branches, branches.len(), id);
            lemma_same_but(x, x, a, b, t);
        },
        Node::Branch { arms, default, .. } => {
            let x = tree::infos_arms(arms, arms.len(), id) + tree::infos_opt(default, id);
            lemma_same_but(x, x, a, b, t);
        },
        Node::Loop { body, .. } => {
            let x = tree::infos(*body, id);
            lemma_same_but(x, x, a, b, t);
        },
        Node::ChildWorkflow { child, .. } => {
            let x = tree::infos(*child, id);
            lemma_same_but(x, x, a, b, t);
        },
        _ => {},
    }
    assert(same_but(tree::children_infos(n), tree::children_infos(m), t));
    lemma_same_but(first, first, tree::children_infos(n), tree::children_infos(m), t);
}

proof fn lemma_change_leaves_others(n: Node, t: Seq<char>, c: Change, p: Option<Seq<char>>)
    requires
        tree::changed(n, t, c) is Some,
    ensures
        same_but(tree::infos(n, p), tree::infos(tree::changed(n, t, c)->0, p), t),
    decreases n,
{
    let m = tree::changed(n, t, c)->0;
    let id = Some(tree::id_of(n));
    let first = seq![tree::info(n, p)];
    let other = seq![tree::info(m, p)];
    let whole = match n {
        Node::Task { id: x, .. } => x == t,
        Node::Branch { arms, default, .. } => tree::changed_arms(arms, arms.len(), t, c) is Some || (
        default is Some && tree::changed(*default->0, t, c) is Some),
        Node::Loop { body, .. } => tree::changed(*body, t, c) is Some,
        _ => false,
    };
    if whole {
        let after = tree::infos_opt(tree::next_of(n), id);
        assert(tree::next_of(m) == tree::next_of(n));
        assert(tree::id_of(m) == tree::id_of(n));
        match n {
            Node::Task { .. } => {
                assert(same_but(first, other, t));
                lemma_same_but(first, other, after, after, t);
            },
            Node::Branch { arms, default, .. } => {
                assert(first == other);
                let d = tree::infos_opt(default, id);
                let x = tree::infos_arms(arms, arms.len(), id);
                if tree::changed_arms(arms, arms.len(), t, c) is Some {
                    let i = lemma_changed_arm(arms, arms.len(), t, c);
                    let r = tree::changed_arms(arms, arms.len(), t, c)->0;
                    lemma_change_leaves_others(arms[i].1, t, c, id);
                    lemma_arms_same_but(arms, r, i, arms.len(), id, t);
                    let y = tree::infos_arms(r, r.len(), id);
                    lemma_same_but(x, y, d, d, t);
                    lemma_same_but(x + d, y + d, after, after, t);
                    lemma_same_but(first, other, x + d + after, y + d + after, t);
                } else {
                    lemma_change_leaves_others(*default->0, t, c, id);
                    let e = tree::infos_opt(m->default, id);
                    lemma_same_but(x, x, d, e, t);
                    lemma_same_but(x + d, x + e, after, after, t);
                    lemma_same_but(first, other, x + d + after, x + e + after, t);
                }
            },
            Node::Loop { body, .. } => {
                assert(first == other);
                lemma_change_leaves_others(*body, t, c, id);
                let x = tree::infos(*body, id);
                let y = tree::infos(*m->body, id);
                lemma_same_but(x, y, after, after, t);
                lemma_same_but(first, other, x + after, y + after, t);
            },
            _ => {},
        }
        assert(same_but(tree::infos(n, p), tree::infos(m, p), t));
    } else {
        assert(tree::changed_next(n, t, c) == Some(m));
        let k = tree::next_of(n)->0;
        lemma_child_is_smaller(n, *k);
        lemma_change_leaves_others(*k, t, c, id);
        assert(crate::step_laws::same_but_next(n, m));
        lemma_next_same_but(n, m, t, p);
    }
}

/// A change of a task leaves all other nodes as they are: a walk reports the same of them,
/// in the same order.
pub proof fn law_change_leaves_others(
    a: &mut WorkflowContinuation,
    b: &mut WorkflowContinuation,
    c: &mut WorkflowContinuation,
    d: &mut WorkflowContinuation,
    id: &str,
    timeout: Option<Duration>,
    policy: Option<RetryPolicy>,
    version: Option<String>,
    tags: Vec<String>,
)
    requires
        call_ensures(WorkflowContinuation::set_task_timeout, (a, id, timeout), ()),
        call_ensures(WorkflowContinuation::set_task_retry_policy, (b, id, policy), ()),
        call_ensures(WorkflowContinuation::set_task_version, (c, id, version), ()),
        call_ensures(WorkflowContinuation::set_task_tags, (d, id, tags), ()),
    ensures
        same_but(tree::infos(old(a).node(), None), tree::infos(final(a).node(), None), id@),
        same_but(tree::infos(old(b).node(), None), tree::infos(final(b).node(), None), id@),
        same_but(tree::infos(old(c).node(), None), tree::infos(final(c).node(), None), id@),
        same_but(tree::infos(old(d).node(), None), tree::infos(final(d).node(), None), id@),
{
    let p = Change::Timeout(timeout);
    let q = Change::Retry(task::opt_retry(policy));
    let r = Change::Version(text::opt_text(version));
    let s = Change::Tags(text::texts(tags@));
    if tree::changed(old(a).node(), id@, p) is Some {
        lemma_change_leaves_others(old(a).node(), id@, p, None);
    }
    if tree::changed(old(b).node(), id@, q) is Some {
        lemma_change_leaves_others(old(b).node(), id@, q, None);
    }
    if tree::changed(old(c).node(), id@, r) is Some {
        lemma_change_leaves_others(old(c).node(), id@, r, None);
    }
    if tree::changed(old(d).node(), id@, s) is Some {
        lemma_change_leaves_others(old(d).node(), id@, s, None);
    }
}

} // verus!
