//! Laws of workflow builders: a workflow that is built with a registry can be stored and
//! rehydrated.
use crate::builder;
use crate::builder::{Plan, Records};
use crate::change_laws;
use crate::continuation;
use crate::continuation_builder;
use crate::error::Fault;
use crate::fork_builder;
use crate::laws;
use crate::route_builder;
use crate::route_builder::Arms;
use crate::stored;
use crate::task;
use crate::task::{Meta, TaskHandle};
use crate::tree;
use crate::tree::{Change, Node};
use crate::workflow::MaxIterationsPolicy;
use vstd::prelude::*;

verus! {

/// Unless errors were found, everything that the tree looks up is registered.
pub open spec fn sound<C, M>(p: Plan<C, M>) -> bool {
    p.faults.len() == 0 ==> match p.tree {
        Some(t) => laws::registered(t, p.records.handles),
        None => true,
    }
}

/// A tree stays registered when more is registered.
pub proof fn lemma_registered_grows(
    n: Node,
    a: Map<Seq<char>, TaskHandle>,
    b: Map<Seq<char>, TaskHandle>,
)
    requires
        laws::registered(n, a),
        a.dom().subset_of(b.dom()),
    ensures
        laws::registered(n, b),
    decreases n,
{
    if let Some(m) = tree::next_of(n) {
        lemma_registered_grows(*m, a, b);
    }
    match n {
        Node::Fork { branches, .. } => {
            assert forall|i: int| 0 <= i < branches.len() implies laws::registered(
                #[trigger] branches[i],
                b,
            ) by {
                lemma_registered_grows(branches[i], a, b);
            }
        },
        Node::Branch { arms, default, .. } => {
            assert forall|i: int| 0 <= i < arms.len() implies laws::registered(
                (#[trigger] arms[i]).1,
                b,
            ) by {
                lemma_registered_grows(arms[i].1, a, b);
            }
            if let Some(d) = default {
                lemma_registered_grows(*d, a, b);
            }
        },
        Node::Loop { body, .. } => {
            lemma_registered_grows(*body, a, b);
        },
        Node::ChildWorkflow { child, .. } => {
            lemma_registered_grows(*child, a, b);
        },
        _ => {},
    }
}

/// A chain is registered when its two parts are.
pub proof fn lemma_registered_appended(n: Node, m: Node, reg: Map<Seq<char>, TaskHandle>)
    requires
        laws::registered(n, reg),
        laws::registered(m, reg),
    ensures
        laws::registered(tree::appended(n, m), reg),
    decreases n,
{
    if let Some(k) = tree::next_of(n) {
        lemma_registered_appended(*k, m, reg);
        let r = tree::with_next(n, Some(Box::new(tree::appended(*k, m))));
        assert(laws::registered(r, reg));
    } else {
        let r = tree::with_next(n, Some(Box::new(m)));
        assert(laws::registered(r, reg));
    }
}

/// A step with a registered tree keeps a plan sound, whatever more is registered.
pub proof fn law_step_keeps_sound<C, M>(
    p: Plan<C, M>,
    q: Plan<C, M>,
    n: Node,
    last: Seq<char>,
)
    requires
        sound(p),
        q.tree == p.tree,
        p.faults.len() <= q.faults.len(),
        p.records.handles.dom().subset_of(q.records.handles.dom()),
        q.faults.len() == 0 ==> laws::registered(n, q.records.handles),
    ensures
        sound(builder::with_node(q, n, last)),
{
    if q.faults.len() == 0 {
        if let Some(t) = p.tree {
            lemma_registered_grows(t, p.records.handles, q.records.handles);
            lemma_registered_appended(t, n, q.records.handles);
        }
    }
}

/// Adding a task, a loop, a delay or a wait for a signal keeps a plan sound: tasks are
/// registered as they are added.
pub proof fn law_tasks_are_registered<C, M>(
    p: Plan<C, M>,
    id: Seq<char>,
    handle: TaskHandle,
    m: Meta,
    max_iterations: u32,
    on_max: MaxIterationsPolicy,
    wait: Node,
)
    requires
        sound(p),
        wait is Delay || wait is AwaitSignal,
        tree::next_of(wait) is None,
    ensures
        sound(
            builder::with_node(
                builder::with_record(p, true, id, handle, m),
                continuation_builder::task_node(id, Some(handle), m, None),
                id,
            ),
        ),
        sound(
            builder::with_loop(
                builder::with_record(
                    builder::with_fault(
                        p,
                        max_iterations == 0,
                        Fault::InvalidMaxIterations(id),
                    ),
                    true,
                    id,
                    handle,
                    m,
                ),
                continuation_builder::task_node(id, Some(handle), m, None),
                max_iterations,
                on_max,
            ),
        ),
        sound(builder::with_node(p, wait, tree::id_of(wait))),
{
    let node = continuation_builder::task_node(id, Some(handle), m, None);
    let q = builder::with_record(p, true, id, handle, m);
    law_step_keeps_sound(p, q, node, id);
    let r = builder::with_record(
        builder::with_fault(p, max_iterations == 0, Fault::InvalidMaxIterations(id)),
        true,
        id,
        handle,
        m,
    );
    let loop_id = crate::workflow::loop_id_text(r.loops);
    let body = builder::loop_node(loop_id, node, max_iterations, on_max);
    assert(laws::registered(node, r.records.handles));
    assert(laws::registered(body, r.records.handles));
    law_step_keeps_sound(p, r, body, loop_id);
    law_step_keeps_sound(p, p, wait, tree::id_of(wait));
}

/// A reference to a registered task, in a row or as the body of a loop, keeps a plan
/// sound: an id that is not registered is an error.
pub proof fn law_references_are_checked<C, M>(
    p: Plan<C, M>,
    id: Seq<char>,
    max_iterations: u32,
    on_max: MaxIterationsPolicy,
)
    requires
        sound(p),
    ensures
        sound(
            builder::with_node(
                builder::with_fault(
                    p,
                    !p.records.handles.dom().contains(id),
                    Fault::TaskNotFound(id),
                ),
                builder::registered_node(p.records, id, None),
                id,
            ),
        ),
        sound(
            builder::with_named_loop(
                builder::with_fault(
                    builder::with_fault(
                        p,
                        max_iterations == 0,
                        Fault::InvalidMaxIterations(id),
                    ),
                    !p.records.handles.dom().contains(id),
                    Fault::TaskNotFound(id),
                ),
                "loop_"@ + id,
                builder::registered_node(p.records, id, None),
                max_iterations,
                on_max,
            ),
        ),
{
    let missing = !p.records.handles.dom().contains(id);
    let node = builder::registered_node(p.records, id, None);
    let q = builder::with_fault(p, missing, Fault::TaskNotFound(id));
    law_step_keeps_sound(p, q, node, id);
    let r = builder::with_fault(
        builder::with_fault(p, max_iterations == 0, Fault::InvalidMaxIterations(id)),
        missing,
        Fault::TaskNotFound(id),
    );
    let body = builder::loop_node("loop_"@ + id, node, max_iterations, on_max);
    if !missing {
        assert(laws::registered(node, r.records.handles));
        assert(laws::registered(body, r.records.handles));
    }
    law_step_keeps_sound(p, r, body, "loop_"@ + id);
}

/// Inlining a serializable child whose tree is registered keeps a plan sound: its
/// registered tasks are taken over.
pub proof fn law_child_is_registered<C, M>(p: Plan<C, M>, child: Node, records: Records)
    requires
        sound(p),
        laws::registered(child, records.handles),
    ensures
        sound(
            builder::with_child(
                Plan {
                    records: Records {
                        handles: p.records.handles.union_prefer_right(records.handles),
                        metas: p.records.metas.union_prefer_right(records.metas),
                    },
                    ..p
                },
                child,
            ),
        ),
{
    let q = Plan {
        records: Records {
            handles: p.records.handles.union_prefer_right(records.handles),
            metas: p.records.metas.union_prefer_right(records.metas),
        },
        ..p
    };
    lemma_registered_grows(child, records.handles, q.records.handles);
    let id = continuation_builder::numbered("child_"@, q.children);
    let node = Node::ChildWorkflow { id, child: Box::new(child), next: None };
    assert(laws::registered(node, q.records.handles));
    law_step_keeps_sound(p, q, node, id);
}

/// Closing a fork whose branches are registered keeps a plan sound: the join is registered
/// with it, or is an error where it should be and is not.
pub proof fn law_fork_is_registered<C, M>(
    p: Plan<C, M>,
    branches: Seq<(Seq<char>, TaskHandle)>,
    id: Seq<char>,
    func: TaskHandle,
)
    requires
        sound(p),
        p.faults.len() == 0 ==> forall|i: int|
            0 <= i < branches.len() ==> p.records.handles.dom().contains(
                (#[trigger] branches[i]).0,
            ),
    ensures
        sound(
            builder::with_node(
                builder::with_record(p, true, id, func, task::no_meta()),
                fork_builder::fork_node(
                    fork_builder::branch_ids(branches),
                    fork_builder::bare_branches(branches),
                    builder::bare_node(id, func),
                ),
                id,
            ),
        ),
        sound(
            builder::with_node(
                builder::with_fault(
                    p,
                    !p.records.handles.dom().contains(id),
                    Fault::TaskNotFound(id),
                ),
                fork_builder::fork_node(
                    fork_builder::branch_ids(branches),
                    fork_builder::recorded_branches(p.records, branches),
                    builder::registered_node(p.records, id, None),
                ),
                id,
            ),
        ),
{
    let q = builder::with_record(p, true, id, func, task::no_meta());
    let trees = fork_builder::bare_branches(branches);
    let join = builder::bare_node(id, func);
    let node = fork_builder::fork_node(fork_builder::branch_ids(branches), trees, join);
    if q.faults.len() == 0 {
        assert forall|i: int| 0 <= i < trees.len() implies laws::registered(
            #[trigger] trees[i],
            q.records.handles,
        ) by {
            assert(p.records.handles.dom().contains(branches[i].0));
        }
        assert(laws::registered(join, q.records.handles));
        assert(laws::registered(node, q.records.handles));
    }
    law_step_keeps_sound(p, q, node, id);
    let reg = p.records.handles;
    let missing = !reg.dom().contains(id);
    let found = fork_builder::recorded_branches(p.records, branches);
    let last = builder::registered_node(p.records, id, None);
    let fork = fork_builder::fork_node(fork_builder::branch_ids(branches), found, last);
    if p.faults.len() == 0 && !missing {
        assert forall|i: int| 0 <= i < found.len() implies laws::registered(
            #[trigger] found[i],
            reg,
        ) by {
            assert(reg.dom().contains(branches[i].0));
        }
        assert(laws::registered(last, reg));
        assert(laws::registered(fork, reg));
    }
    law_step_keeps_sound(
        p,
        builder::with_fault(p, missing, Fault::TaskNotFound(id)),
        fork,
        id,
    );
}

/// A chain of registered tasks without errors is registered.
pub proof fn lemma_chain_registered(r: Records, ids: Seq<Seq<char>>, i: nat)
    requires
        route_builder::chain_faults(r, ids, i).len() == 0,
    ensures
        match route_builder::registered_chain(r, ids, i) {
            Some(n) => laws::registered(*n, r.handles),
            None => i >= ids.len(),
        },
    decreases ids.len() - i,
{
    if i < ids.len() {
        lemma_chain_registered(r, ids, i + 1);
    }
}

/// The arms of a route are registered.
pub open spec fn arms_registered(a: Arms, reg: Map<Seq<char>, TaskHandle>) -> bool {
    &&& forall|i: int| 0 <= i < a.named.len() ==> laws::registered((#[trigger] a.named[i]).1, reg)
    &&& match a.default {
        Some(n) => laws::registered(*n, reg),
        None => true,
    }
}

proof fn lemma_placed_registered(
    s: Seq<(Seq<char>, Node)>,
    key: Seq<char>,
    n: Node,
    reg: Map<Seq<char>, TaskHandle>,
)
    requires
        forall|i: int| 0 <= i < s.len() ==> laws::registered((#[trigger] s[i]).1, reg),
        laws::registered(n, reg),
    ensures
        ({
            let r = crate::string_map::placed(s, key, n);
            forall|i: int| 0 <= i < r.len() ==> laws::registered((#[trigger] r[i]).1, reg)
        }),
    decreases s.len(),
{
    if s.len() > 0 {
        lemma_placed_registered(s.drop_first(), key, n, reg);
    }
    let r = crate::string_map::placed(s, key, n);
    assert forall|i: int| 0 <= i < r.len() implies laws::registered((#[trigger] r[i]).1, reg) by {
        if s.len() > 0 && i > 0 {
            if s[0].0 == key {
                assert(r[i] == s[i]);
            } else if crate::string_map::key_less(key, s[0].0) {
                assert(r[i] == s[i - 1]);
            } else {
                assert(r[i] == crate::string_map::placed(s.drop_first(), key, n)[i - 1]);
            }
        }
    }
}

/// An arm that is made of registered tasks keeps the arms of a route registered.
pub proof fn law_arm_is_registered(
    r: Records,
    a: Arms,
    key: Seq<char>,
    ids: Seq<Seq<char>>,
)
    requires
        arms_registered(a, r.handles),
    ensures
        match route_builder::clean_chain(r, ids) {
            Some(n) => {
                &&& arms_registered(
                    Arms { named: crate::string_map::placed(a.named, key, *n), ..a },
                    r.handles,
                )
                &&& arms_registered(Arms { default: Some(n), ..a }, r.handles)
            },
            None => route_builder::registered_faults(r, ids).len() > 0,
        },
{
    if route_builder::registered_faults(r, ids).len() == 0 {
        lemma_chain_registered(r, ids, 0);
        lemma_placed_registered(
            a.named,
            key,
            *(route_builder::registered_chain(r, ids, 0)->0),
            r.handles,
        );
    }
}

/// Closing a route whose routing function and arms are registered keeps a plan sound.
pub proof fn law_route_is_registered<C, M>(
    p: Plan<C, M>,
    id: Seq<char>,
    key_fn: Option<TaskHandle>,
    a: Arms,
    keys: Seq<Seq<char>>,
)
    requires
        sound(p),
        p.faults.len() == 0 ==> p.records.handles.dom().contains(tree::key_fn_text(id))
            && arms_registered(a, p.records.handles),
    ensures
        sound(builder::with_node(p, route_builder::branch_node(id, key_fn, a), id)),
        sound(
            builder::with_node(
                route_builder::with_gaps(p, id, a, keys),
                route_builder::branch_node(id, key_fn, a),
                id,
            ),
        ),
{
    let node = route_builder::branch_node(id, key_fn, a);
    law_step_keeps_sound(p, p, node, id);
    law_step_keeps_sound(p, route_builder::with_gaps(p, id, a, keys), node, id);
}

/// Attaching metadata keeps a plan sound.
pub proof fn law_metadata_keeps_sound<C, M>(p: Plan<C, M>, m: Meta)
    requires
        sound(p),
    ensures
        sound(builder::with_meta(p, m)),
{
    if p.faults.len() == 0 && p.last is Some && p.tree is Some {
        let id = p.last->0;
        let t = p.tree->0;
        let reg = p.records.handles;
        change_laws::lemma_change_registered(t, id, Change::Timeout(m.timeout), reg);
        let a = continuation::after_change(t, id, Change::Timeout(m.timeout));
        change_laws::lemma_change_registered(a, id, Change::Retry(m.retries), reg);
        let b = continuation::after_change(a, id, Change::Retry(m.retries));
        change_laws::lemma_change_registered(b, id, Change::Version(m.version), reg);
    }
}

/// A workflow that comes out of a sound plan can be stored and rehydrated with its
/// registry: what comes back has the ids, the stored form and the definition hash of the
/// workflow.
pub proof fn law_built_workflow_is_rehydrated<C, M>(p: Plan<C, M>)
    requires
        sound(p),
        p.tree is Some,
        builder::final_faults(p).len() == 0,
    ensures
        ({
            let t = p.tree->0;
            let back = tree::bound(tree::stored(t), p.records.handles);
            &&& back is Ok
            &&& tree::ids(back->Ok_0) == tree::ids(t)
            &&& tree::stored(back->Ok_0) == tree::stored(t)
            &&& stored::definition_hash(back->Ok_0) == stored::definition_hash(t)
        }),
{
    let t = p.tree->0;
    let reg = p.records.handles;
    let s = tree::stored(t);
    lemma_stored_registered(t, reg);
    laws::law_rehydrates_iff_registered(s, reg);
    laws::law_rehydrated_stores_back(s, reg);
    laws::law_stored_twice(t);
    let back = tree::bound(s, reg)->Ok_0;
    laws::law_stored_keeps_ids(back);
    laws::law_stored_keeps_ids(t);
    laws::law_stored_keeps_hash(back);
    laws::law_stored_keeps_hash(t);
}

/// What is stored of a tree looks up what the tree does.
proof fn lemma_stored_registered(n: Node, reg: Map<Seq<char>, TaskHandle>)
    requires
        laws::registered(n, reg),
    ensures
        laws::registered(tree::stored(n), reg),
    decreases n,
{
    let s = tree::stored(n);
    if let Some(m) = tree::next_of(n) {
        lemma_stored_registered(*m, reg);
    }
    match n {
        Node::Fork { branches, .. } => {
            assert forall|i: int| 0 <= i < s->branches.len() implies laws::registered(
                #[trigger] s->branches[i],
                reg,
            ) by {
                lemma_stored_registered(branches[i], reg);
            }
        },
        Node::Branch { arms, default, .. } => {
            assert forall|i: int| 0 <= i < s->arms.len() implies laws::registered(
                (#[trigger] s->arms[i]).1,
                reg,
            ) by {
                lemma_stored_registered(arms[i].1, reg);
            }
            if let Some(d) = default {
                lemma_stored_registered(*d, reg);
            }
        },
        Node::Loop { body, .. } => {
            lemma_stored_registered(*body, reg);
        },
        Node::ChildWorkflow { child, .. } => {
            lemma_stored_registered(*child, reg);
        },
        _ => {},
    }
}

} // verus!
