//! The runnable continuation tree and the walk over its nodes.
use crate::duration::Duration;
use crate::snapshot::TaskHint;
use crate::stored::SerializableContinuation;
use crate::string_map;
use crate::string_map::{str_same, StringMap};
use crate::task;
use crate::task::{clone_opt_retry, RetryPolicy, TaskHandle, TaskMetadata};
use crate::text;
use crate::text::{clone_opt_text, clone_texts, join};
use crate::tree;
use crate::tree::{Change, Info, Node};
use crate::workflow::{MaxIterationsPolicy, NodeKind};
use std::sync::Arc;
use vstd::prelude::*;

verus! {

/// The in-memory representation of a workflow's execution graph.
#[allow(inconsistent_fields)]
pub enum WorkflowContinuation {
    /// A single task.
    Task {
        /// Task id.
        id: String,
        /// The implementation; `None` where another language dispatches the task.
        func: Option<TaskHandle>,
        /// Maximum run time.
        timeout: Option<Duration>,
        /// Retry policy.
        retry_policy: Option<RetryPolicy>,
        /// Version of the task.
        version: Option<String>,
        /// Priority (1–5).
        priority: Option<u8>,
        /// Affinity tags.
        tags: Vec<String>,
        /// What follows.
        next: Option<Box<WorkflowContinuation>>,
    },
    /// Parallel branches with an optional join.
    Fork {
        /// Fork id.
        id: String,
        /// The branches.
        branches: Vec<Arc<WorkflowContinuation>>,
        /// The join.
        join: Option<Box<WorkflowContinuation>>,
    },
    /// A durable delay.
    Delay {
        /// Delay id.
        id: String,
        /// How long to wait.
        duration: Duration,
        /// What follows.
        next: Option<Box<WorkflowContinuation>>,
    },
    /// A wait for an external signal.
    AwaitSignal {
        /// Node id.
        id: String,
        /// Name of the signal.
        signal_name: String,
        /// How long to wait at most.
        timeout: Option<Duration>,
        /// What follows.
        next: Option<Box<WorkflowContinuation>>,
    },
    /// A conditional branch on a routing key.
    Branch {
        /// Branch id.
        id: String,
        /// The routing function.
        key_fn: Option<TaskHandle>,
        /// The arms by key.
        branches: StringMap<Box<WorkflowContinuation>>,
        /// The arm for keys without one.
        default: Option<Box<WorkflowContinuation>>,
        /// What follows.
        next: Option<Box<WorkflowContinuation>>,
    },
    /// A loop whose body repeats until it is done.
    Loop {
        /// Loop id.
        id: String,
        /// The body.
        body: Box<WorkflowContinuation>,
        /// Maximum number of iterations.
        max_iterations: u32,
        /// What to do at the maximum.
        on_max: MaxIterationsPolicy,
        /// What follows.
        next: Option<Box<WorkflowContinuation>>,
    },
    /// An inlined child workflow.
    ChildWorkflow {
        /// Node id.
        id: String,
        /// The child's tree.
        child: Arc<WorkflowContinuation>,
        /// What follows.
        next: Option<Box<WorkflowContinuation>>,
    },
}

/// The tree of the `i`-th entry of a map of continuations.
pub open spec fn arm_node(m: StringMap<Box<WorkflowContinuation>>, i: int) -> Node
    decreases m,
    when 0 <= i < m.entries().len()
{
    proof {
        string_map::lemma_entry_smaller(m, i);
    }
    m.entries()[i].1.node()
}

impl WorkflowContinuation {
    /// The tree that the continuation stands for.
    pub open spec fn node(self) -> Node
        decreases self,
    {
        match self {
            WorkflowContinuation::Task {
                id,
                func,
                timeout,
                retry_policy,
                version,
                priority,
                tags,
                next,
            } => Node::Task {
                id: id@,
                func,
                timeout,
                retry: task::opt_retry(retry_policy),
                version: text::opt_text(version),
                priority,
                tags: text::texts(tags@),
                next: match next {
                    Some(n) => Some(Box::new(n.node())),
                    None => None,
                },
            },
            WorkflowContinuation::Fork { id, branches, join } => Node::Fork {
                id: id@,
                branches: Seq::new(
                    branches@.len(),
                    |i: int|
                        if 0 <= i < branches@.len() {
                            branches@[i].node()
                        } else {
                            arbitrary()
                        },
                ),
                join: match join {
                    Some(n) => Some(Box::new(n.node())),
                    None => None,
                },
            },
            WorkflowContinuation::Delay { id, duration, next } => Node::Delay {
                id: id@,
                duration,
                next: match next {
                    Some(n) => Some(Box::new(n.node())),
                    None => None,
                },
            },
            WorkflowContinuation::AwaitSignal { id, signal_name, timeout, next } =>
                Node::AwaitSignal {
                id: id@,
                signal_name: signal_name@,
                timeout,
                next: match next {
                    Some(n) => Some(Box::new(n.node())),
                    None => None,
                },
            },
            WorkflowContinuation::Branch { id, key_fn, branches, default, next } => Node::Branch {
                id: id@,
                key_fn,
                arms: Seq::new(
                    branches.entries().len(),
                    |i: int|
                        if 0 <= i < branches.entries().len() {
                            (branches.entries()[i].0@, arm_node(branches, i))
                        } else {
                            arbitrary()
                        },
                ),
                default: match default {
                    Some(n) => Some(Box::new(n.node())),
                    None => None,
                },
                next: match next {
                    Some(n) => Some(Box::new(n.node())),
                    None => None,
                },
            },
            WorkflowContinuation::Loop { id, body, max_iterations, on_max, next } => Node::Loop {
                id: id@,
                body: Box::new(body.node()),
                max_iterations,
                on_max,
                next: match next {
                    Some(n) => Some(Box::new(n.node())),
                    None => None,
                },
            },
            WorkflowContinuation::ChildWorkflow { id, child, next } => Node::ChildWorkflow {
                id: id@,
                child: Box::new(child.node()),
                next: match next {
                    Some(n) => Some(Box::new(n.node())),
                    None => None,
                },
            },
        }
    }
}

/// The keys and trees of the entries of a map of continuations.
pub open spec fn arm_nodes(e: Seq<(String, Box<WorkflowContinuation>)>) -> Seq<
    (Seq<char>, Node),
> {
    Seq::new(e.len(), |i: int| (e[i].0@, e[i].1.node()))
}

/// The arms of a branch node are the trees of the entries of its map.
pub proof fn lemma_arms(c: WorkflowContinuation)
    requires
        c is Branch,
    ensures
        c.node()->arms == arm_nodes(c->Branch_branches.entries()),
        c.node()->arms.len() == c->Branch_branches.entries().len(),
        forall|j: int|
            0 <= j < c.node()->arms.len() ==> (#[trigger] c.node()->arms[j]) == (
                c->Branch_branches.entries()[j].0@,
                c->Branch_branches.entries()[j].1.node(),
            ),
{
    let m = c->Branch_branches;
    assert forall|j: int| 0 <= j < c.node()->arms.len() implies (#[trigger] c.node()->arms[j]) == (
        m.entries()[j].0@,
        m.entries()[j].1.node(),
    ) by {
        assert(arm_node(m, j) == m.entries()[j].1.node());
    }
    assert(c.node()->arms =~= arm_nodes(m.entries()));
}

/// The tree of an optional continuation.
pub open spec fn opt_node(o: Option<Box<WorkflowContinuation>>) -> Option<Box<Node>> {
    match o {
        Some(n) => Some(Box::new(n.node())),
        None => None,
    }
}

/// The contents of a list of string slices.
pub open spec fn str_texts(v: Seq<&str>) -> Seq<Seq<char>> {
    Seq::new(v.len(), |i: int| v[i]@)
}

/// The first id in a list that an earlier one equals.
pub fn first_repeated(list: &Vec<&str>) -> (r: Option<String>)
    ensures
        text::opt_text(r) == tree::first_repeat(str_texts(list@), list@.len()),
{
    let ghost t = str_texts(list@);
    let mut i: usize = 0;
    while i < list.len()
        invariant
            i <= list@.len(),
            t == str_texts(list@),
            tree::first_repeat(t, i as nat) is None,
        decreases list@.len() - i,
    {
        let mut j: usize = 0;
        while j < i
            invariant
                j <= i < list@.len(),
                t == str_texts(list@),
                tree::first_repeat(t, i as nat) is None,
                forall|k: int| 0 <= k < j ==> #[trigger] t[k] != t[i as int],
            decreases i - j,
        {
            if str_same(list[j], list[i]) {
                proof {
                    assert(t.take(i as int)[j as int] == t[i as int]);
                    assert(tree::first_repeat(t, (i + 1) as nat) == Some(t[i as int]));
                    lemma_first_repeat_stays(t, (i + 1) as nat, list@.len());
                }
                return Some(String::from_str(list[i]));
            }
            j = j + 1;
        }
        proof {
            assert(!t.take(i as int).contains(t[i as int]));
        }
        i = i + 1;
    }
    None
}

/// What a node of the tree reports during a walk.
pub struct NodeInfo<'a> {
    /// Node id.
    pub id: &'a str,
    /// Kind of the node.
    pub kind: NodeKind,
    /// Id of the node that leads here; `None` at the root.
    pub predecessor_id: Option<&'a str>,
    /// Timeout of a task or signal, or the span of a delay.
    pub timeout: Option<Duration>,
    /// Retry policy of a task.
    pub retry_policy: Option<&'a RetryPolicy>,
    /// Priority of a task.
    pub priority: Option<u8>,
    /// Version of a task.
    pub version: Option<&'a String>,
    /// Affinity tags of a task.
    pub tags: Option<&'a Vec<String>>,
}

/// The contents of an optional string slice.
pub open spec fn opt_str(o: Option<&str>) -> Option<Seq<char>> {
    match o {
        Some(s) => Some(s@),
        None => None,
    }
}

impl<'a> NodeInfo<'a> {
    /// What the report says.
    pub open spec fn info(self) -> Info {
        Info {
            id: self.id@,
            kind: self.kind,
            predecessor: opt_str(self.predecessor_id),
            timeout: self.timeout,
            retry: match self.retry_policy {
                Some(p) => Some(p@),
                None => None,
            },
            priority: self.priority,
            version: match self.version {
                Some(v) => Some(v@),
                None => None,
            },
            tags: match self.tags {
                Some(t) => text::texts(t@),
                None => seq![],
            },
        }
    }
}

/// What is still to be reported: the trees on the stack, the top one first.
pub open spec fn pending(
    stack: Seq<(&WorkflowContinuation, Option<&str>)>,
) -> Seq<Info>
    decreases stack.len(),
{
    if stack.len() == 0 {
        seq![]
    } else {
        tree::infos(stack.last().0.node(), opt_str(stack.last().1)) + pending(stack.drop_last())
    }
}

proof fn lemma_pending_push(
    stack: Seq<(&WorkflowContinuation, Option<&str>)>,
    top: (&WorkflowContinuation, Option<&str>),
)
    ensures
        pending(stack.push(top)) == tree::infos(top.0.node(), opt_str(top.1)) + pending(stack),
{
    assert(stack.push(top).drop_last() =~= stack);
}

/// A walk over the nodes of a tree in preorder.
pub struct NodeIter<'a> {
    /// The trees still to be walked, with the id of the node that leads to each.
    pub stack: Vec<(&'a WorkflowContinuation, Option<&'a str>)>,
}

impl<'a> NodeIter<'a> {
    /// Report the next node, if any is left.
    #[verifier::rlimit(40)]
    pub fn next(&mut self) -> (r: Option<NodeInfo<'a>>)
        ensures
            match r {
                Some(x) => pending(old(self).stack@).len() > 0 && x.info() == pending(
                    old(self).stack@,
                )[0] && pending(final(self).stack@) == pending(old(self).stack@).drop_first(),
                None => pending(old(self).stack@).len() == 0 && final(self).stack@ == old(
                    self,
                ).stack@,
            },
    {
        let top = self.stack.pop();
        let (cont, predecessor) = match top {
            Some(t) => t,
            None => {
                return None;
            },
        };
        let ghost n = cont.node();
        let ghost rest = self.stack@;
        let ghost p = Some(tree::id_of(n));
        let found = NodeInfo {
            id: cont.id(),
            kind: cont.kind(),
            predecessor_id: predecessor,
            timeout: match cont {
                WorkflowContinuation::Task { timeout, .. } => *timeout,
                WorkflowContinuation::Delay { duration, .. } => Some(*duration),
                WorkflowContinuation::AwaitSignal { timeout, .. } => *timeout,
                _ => None,
            },
            retry_policy: match cont {
                WorkflowContinuation::Task { retry_policy, .. } => match retry_policy {
                    Some(policy) => Some(policy),
                    None => None,
                },
                _ => None,
            },
            priority: match cont {
                WorkflowContinuation::Task { priority, .. } => *priority,
                _ => None,
            },
            version: match cont {
                WorkflowContinuation::Task { version, .. } => match version {
                    Some(v) => Some(v),
                    None => None,
                },
                _ => None,
            },
            tags: match cont {
                WorkflowContinuation::Task { tags, .. } => Some(tags),
                _ => None,
            },
        };
        proof {
            assert(found.info().tags =~= tree::info(n, opt_str(predecessor)).tags);
        }
        let id = Some(cont.id());
        // Children are pushed in reverse, so that the first child is popped first.
        let following = cont.get_next();
        if let Some(m) = following {
            proof {
                lemma_pending_push(rest, (m, id));
            }
            self.stack.push((m, id));
        }
        let ghost tail = tree::infos_opt(tree::next_of(n), p) + pending(rest);
        proof {
            assert(pending(self.stack@) =~= tail);
        }
        match cont {
            WorkflowContinuation::Fork { branches, .. } => {
                let mut i: usize = branches.len();
                let ghost b = n->Fork_branches;
                let ghost mut done: Seq<Info> = seq![];
                proof {
                    assert(done + tail =~= tail);
                    assert(tree::infos_all(b, b.len(), p) =~= tree::infos_all(b, b.len(), p) + done);
                }
                while i > 0
                    invariant
                        i <= branches@.len(),
                        b.len() == branches@.len(),
                        forall|j: int|
                            0 <= j < b.len() ==> #[trigger] b[j] == branches@[j].node(),
                        opt_str(id) == p,
                        pending(self.stack@) == done + tail,
                        tree::infos_all(b, b.len(), p) == tree::infos_all(b, i as nat, p) + done,
                    decreases i,
                {
                    i = i - 1;
                    let branch: &'a WorkflowContinuation = &*branches[i];
                    proof {
                        lemma_pending_push(self.stack@, (branch, id));
                        let piece = tree::infos(b[i as int], p);
                        assert(piece + (done + tail) =~= (piece + done) + tail);
                        assert((tree::infos_all(b, i as nat, p) + piece) + done =~= tree::infos_all(
                            b,
                            i as nat,
                            p,
                        ) + (piece + done));
                        done = piece + done;
                    }
                    self.stack.push((branch, id));
                }
                proof {
                    assert(tree::infos_all(b, 0, p) + done =~= done);
                    assert(done + (tree::infos_opt(tree::next_of(n), p) + pending(rest)) =~= (done
                        + tree::infos_opt(tree::next_of(n), p)) + pending(rest));
                }
            },
            WorkflowContinuation::Branch { branches, default, .. } => {
                let ghost d = n->default;
                if let Some(m) = default {
                    proof {
                        lemma_pending_push(self.stack@, (&**m, id));
                    }
                    self.stack.push((m, id));
                }
                let ghost tail2 = tree::infos_opt(d, p) + tail;
                proof {
                    assert(pending(self.stack@) =~= tail2);
                }
                let mut i: usize = branches.len();
                let ghost b = n->arms;
                proof {
                    lemma_arms(*cont);
                }
                let ghost mut done: Seq<Info> = seq![];
                proof {
                    assert(done + tail2 =~= tail2);
                    assert(tree::infos_arms(b, b.len(), p) =~= tree::infos_arms(b, b.len(), p) + done);
                }
                while i > 0
                    invariant
                        i <= branches.entries().len(),
                        b.len() == branches.entries().len(),
                        forall|j: int|
                            0 <= j < b.len() ==> (#[trigger] b[j]).1 == branches.entries()[j].1.node(),
                        opt_str(id) == p,
                        pending(self.stack@) == done + tail2,
                        tree::infos_arms(b, b.len(), p) == tree::infos_arms(b, i as nat, p) + done,
                    decreases i,
                {
                    i = i - 1;
                    let branch: &'a WorkflowContinuation = &**branches.value_at(i);
                    proof {
                        lemma_pending_push(self.stack@, (branch, id));
                        let piece = tree::infos(b[i as int].1, p);
                        assert(piece + (done + tail2) =~= (piece + done) + tail2);
                        assert((tree::infos_arms(b, i as nat, p) + piece) + done =~= tree::infos_arms(
                            b,
                            i as nat,
                            p,
                        ) + (piece + done));
                        done = piece + done;
                    }
                    self.stack.push((branch, id));
                }
                proof {
                    assert(tree::infos_arms(b, 0, p) + done =~= done);
                    assert(done + tail2 =~= (done + tree::infos_opt(d, p) + tree::infos_opt(tree::next_of(n), p))
                        + pending(rest));
                }
            },
            WorkflowContinuation::Loop { body, .. } => {
                proof {
                    lemma_pending_push(self.stack@, (&**body, id));
                    assert(tree::infos(body.node(), p) + tail =~= tree::children_infos(n) + pending(rest));
                }
                self.stack.push((body, id));
            },
            WorkflowContinuation::ChildWorkflow { child, .. } => {
                proof {
                    lemma_pending_push(self.stack@, (&**child, id));
                    assert(tree::infos(child.node(), p) + tail =~= tree::children_infos(n) + pending(rest));
                }
                self.stack.push((child, id));
            },
            _ => {},
        }
        proof {
            assert(pending(self.stack@) =~= tree::children_infos(n) + pending(rest));
            let whole = pending(old(self).stack@);
            assert(whole == tree::infos(n, opt_str(predecessor)) + pending(rest));
            assert(whole.drop_first() =~= tree::children_infos(n) + pending(rest));
            assert(whole[0] == tree::info(n, opt_str(predecessor)));
        }
        Some(found)
    }

    /// Report all nodes that are left.
    pub fn collect_all(&mut self) -> (r: Vec<NodeInfo<'a>>)
        ensures
            reports(r@) == pending(old(self).stack@),
            final(self).stack@.len() == 0,
    {
        let mut out: Vec<NodeInfo<'a>> = Vec::new();
        let ghost all = pending(self.stack@);
        proof {
            assert(all =~= reports(out@) + pending(self.stack@));
        }
        loop
            invariant
                all == reports(out@) + pending(self.stack@),
            ensures
                all == reports(out@),
                self.stack@.len() == 0,
            decreases pending(self.stack@).len(),
        {
            let ghost before = pending(self.stack@);
            let ghost sofar = out@;
            let step = self.next();
            match step {
                Some(x) => {
                    out.push(x);
                    proof {
                        assert(before =~= seq![before[0]] + before.drop_first());
                        assert(reports(out@) =~= reports(sofar).push(x.info()));
                        assert(all =~= reports(out@) + pending(self.stack@));
                    }
                },
                None => {
                    proof {
                        assert(all =~= reports(out@));
                        if self.stack@.len() > 0 {
                            assert(before.len() > 0);
                        }
                    }
                    break;
                },
            }
        }
        out
    }
}

/// What a list of reports says.
pub open spec fn reports(v: Seq<NodeInfo>) -> Seq<Info> {
    Seq::new(v.len(), |i: int| v[i].info())
}

/// A new value for one field of a task.
pub enum TaskChange {
    /// A new timeout.
    Timeout(Option<Duration>),
    /// A new retry policy.
    Retry(Option<RetryPolicy>),
    /// A new version.
    Version(Option<String>),
    /// New tags.
    Tags(Vec<String>),
}

impl TaskChange {
    /// What the change says.
    pub open spec fn change(self) -> Change {
        match self {
            TaskChange::Timeout(t) => Change::Timeout(t),
            TaskChange::Retry(r) => Change::Retry(task::opt_retry(r)),
            TaskChange::Version(v) => Change::Version(text::opt_text(v)),
            TaskChange::Tags(t) => Change::Tags(text::texts(t@)),
        }
    }
}

/// The tree after a change, which leaves it alone where it finds no task.
pub open spec fn after_change(n: Node, target: Seq<char>, c: Change) -> Node {
    match tree::changed(n, target, c) {
        Some(m) => m,
        None => n,
    }
}

impl WorkflowContinuation {
    /// Derive the id of a fork from the ids of its branches.
    pub fn derive_fork_id(branch_ids: &Vec<String>) -> (r: String)
        ensures
            r@ == text::joined(text::texts(branch_ids@), "||"@),
    {
        join(branch_ids, "||")
    }

    /// The id of this node.
    pub fn id(&self) -> (r: &str)
        ensures
            r@ == tree::id_of(self.node()),
    {
        match self {
            WorkflowContinuation::Task { id, .. } => id.as_str(),
            WorkflowContinuation::Fork { id, .. } => id.as_str(),
            WorkflowContinuation::Delay { id, .. } => id.as_str(),
            WorkflowContinuation::AwaitSignal { id, .. } => id.as_str(),
            WorkflowContinuation::Branch { id, .. } => id.as_str(),
            WorkflowContinuation::Loop { id, .. } => id.as_str(),
            WorkflowContinuation::ChildWorkflow { id, .. } => id.as_str(),
        }
    }

    /// The kind of this node.
    pub fn kind(&self) -> (r: NodeKind)
        ensures
            r == tree::kind_of(self.node()),
    {
        match self {
            WorkflowContinuation::Task { .. } => NodeKind::Task,
            WorkflowContinuation::Fork { .. } => NodeKind::Fork,
            WorkflowContinuation::Delay { .. } => NodeKind::Delay,
            WorkflowContinuation::AwaitSignal { .. } => NodeKind::AwaitSignal,
            WorkflowContinuation::Branch { .. } => NodeKind::Branch,
            WorkflowContinuation::Loop { .. } => NodeKind::Loop,
            WorkflowContinuation::ChildWorkflow { .. } => NodeKind::ChildWorkflow,
        }
    }

    /// The node that follows in the chain; a fork is followed by its join.
    pub fn get_next(&self) -> (r: Option<&WorkflowContinuation>)
        ensures
            match r {
                Some(m) => tree::next_of(self.node()) == Some(Box::new(m.node())) && decreases_to!(
                    *self => *m),
                None => tree::next_of(self.node()) is None,
            },
    {
        let next = match self {
            WorkflowContinuation::Task { next, .. } => next,
            WorkflowContinuation::Fork { join, .. } => join,
            WorkflowContinuation::Delay { next, .. } => next,
            WorkflowContinuation::AwaitSignal { next, .. } => next,
            WorkflowContinuation::Branch { next, .. } => next,
            WorkflowContinuation::Loop { next, .. } => next,
            WorkflowContinuation::ChildWorkflow { next, .. } => next,
        };
        match next {
            Some(n) => Some(n),
            None => None,
        }
    }

    /// The id of the first node to execute.
    pub fn first_task_id(&self) -> (r: &str)
        ensures
            r@ == tree::first_id(self.node()),
        decreases self,
    {
        match self {
            WorkflowContinuation::Fork { branches, .. } => {
                if branches.len() > 0 {
                    branches[0].first_task_id()
                } else {
                    "unknown"
                }
            },
            WorkflowContinuation::Loop { body, .. } => body.first_task_id(),
            WorkflowContinuation::ChildWorkflow { child, .. } => child.first_task_id(),
            _ => self.id(),
        }
    }

    /// The priority of the first node to execute.
    pub fn first_task_priority(&self) -> (r: Option<u8>)
        ensures
            r == tree::first_priority(self.node()),
        decreases self,
    {
        match self {
            WorkflowContinuation::Task { priority, .. } => *priority,
            WorkflowContinuation::Fork { branches, .. } => {
                if branches.len() > 0 {
                    branches[0].first_task_priority()
                } else {
                    None
                }
            },
            WorkflowContinuation::Loop { body, .. } => body.first_task_priority(),
            WorkflowContinuation::ChildWorkflow { child, .. } => child.first_task_priority(),
            _ => None,
        }
    }

    /// The tags of the first node to execute.
    pub fn first_task_tags(&self) -> (r: Vec<String>)
        ensures
            text::texts(r@) == tree::first_tags(self.node()),
        decreases self,
    {
        match self {
            WorkflowContinuation::Task { tags, .. } => clone_texts(tags),
            WorkflowContinuation::Fork { branches, .. } => {
                if branches.len() > 0 {
                    branches[0].first_task_tags()
                } else {
                    Vec::new()
                }
            },
            WorkflowContinuation::Loop { body, .. } => body.first_task_tags(),
            WorkflowContinuation::ChildWorkflow { child, .. } => child.first_task_tags(),
            _ => Vec::new(),
        }
    }

    /// Id, priority and tags of the first node to execute.
    pub fn first_task_hint(&self) -> (r: TaskHint)
        ensures
            r.id@ == tree::first_id(self.node()),
            r.priority == tree::first_priority(self.node()),
            text::texts(r.tags@) == tree::first_tags(self.node()),
    {
        TaskHint {
            id: String::from_str(self.first_task_id()),
            priority: self.first_task_priority(),
            tags: self.first_task_tags(),
        }
    }

    /// The id of the last node of the chain.
    pub fn terminal_task_id(&self) -> (r: &str)
        ensures
            r@ == tree::id_of(tree::terminal(self.node())),
    {
        let mut current: &WorkflowContinuation = self;
        let mut following = current.get_next();
        loop
            invariant
                tree::terminal(current.node()) == tree::terminal(self.node()),
                match following {
                    Some(m) => tree::next_of(current.node()) == Some(Box::new(m.node()))
                        && decreases_to!(*current => *m),
                    None => tree::next_of(current.node()) is None,
                },
            ensures
                tree::terminal(current.node()) == tree::terminal(self.node()),
                tree::next_of(current.node()) is None,
            decreases current,
        {
            match following {
                Some(m) => {
                    current = m;
                    following = current.get_next();
                },
                None => {
                    break;
                },
            }
        }
        current.id()
    }

    /// The first task node with an id.
    fn find_task(&self, target_id: &str) -> (r: Option<&Self>)
        ensures
            match r {
                Some(c) => tree::find(self.node(), target_id@) == Some(c.node())
                    && c is Task,
                None => tree::find(self.node(), target_id@) is None,
            },
        decreases self,
    {
        let ghost n = self.node();
        match self {
            WorkflowContinuation::Task { id, .. } => {
                if str_same(id.as_str(), target_id) {
                    return Some(self);
                }
            },
            WorkflowContinuation::Fork { branches, .. } => {
                let ghost b = n->Fork_branches;
                let mut i: usize = 0;
                while i < branches.len()
                    invariant
                        i <= branches@.len(),
                        n == self.node(),
                        n is Fork,
                        b == n->Fork_branches,
                        decreases_to!(self => branches@),
                        b.len() == branches@.len(),
                        forall|j: int|
                            0 <= j < b.len() ==> #[trigger] b[j] == branches@[j].node(),
                        tree::find_all(b, i as nat, target_id@) is None,
                    decreases branches@.len() - i,
                {
                    let found = branches[i].find_task(target_id);
                    if found.is_some() {
                        proof {
                            lemma_find_all_stays(b, (i + 1) as nat, b.len(), target_id@);
                        }
                        return found;
                    }
                    i = i + 1;
                }
            },
            WorkflowContinuation::Branch { branches, default, .. } => {
                let ghost b = n->arms;
                proof {
                    lemma_arms(*self);
                }
                let mut i: usize = 0;
                while i < branches.len()
                    invariant
                        i <= branches.entries().len(),
                        n == self.node(),
                        n is Branch,
                        b == n->arms,
                        decreases_to!(self => *branches),
                        b.len() == branches.entries().len(),
                        forall|j: int|
                            0 <= j < b.len() ==> (#[trigger] b[j]).1 == branches.entries()[j].1.node(),
                        tree::find_arms(b, i as nat, target_id@) is None,
                    decreases branches.entries().len() - i,
                {
                    proof {
                        string_map::lemma_entry_smaller(*branches, i as int);
                    }
                    let found = branches.value_at(i).find_task(target_id);
                    if found.is_some() {
                        proof {
                            lemma_find_arms_stays(b, (i + 1) as nat, b.len(), target_id@);
                        }
                        return found;
                    }
                    i = i + 1;
                }
                if let Some(d) = default {
                    let found = d.find_task(target_id);
                    if found.is_some() {
                        return found;
                    }
                }
            },
            WorkflowContinuation::Loop { body, .. } => {
                let found = body.find_task(target_id);
                if found.is_some() {
                    return found;
                }
            },
            WorkflowContinuation::ChildWorkflow { child, .. } => {
                let found = child.find_task(target_id);
                if found.is_some() {
                    return found;
                }
            },
            _ => {},
        }
        match self.get_next() {
            Some(m) => m.find_task(target_id),
            None => None,
        }
    }
}

/// Where a repeat is found, more ids change nothing.
pub proof fn lemma_first_repeat_stays(s: Seq<Seq<char>>, k: nat, m: nat)
    requires
        k <= m <= s.len(),
        tree::first_repeat(s, k) is Some,
    ensures
        tree::first_repeat(s, m) == tree::first_repeat(s, k),
    decreases m,
{
    if k < m {
        lemma_first_repeat_stays(s, k, (m - 1) as nat);
    }
}

proof fn lemma_changed_arms_stays(
    s: Seq<(Seq<char>, Node)>,
    k: nat,
    m: nat,
    target: Seq<char>,
    c: Change,
)
    requires
        k <= m <= s.len(),
        tree::changed_arms(s, k, target, c) is Some,
    ensures
        tree::changed_arms(s, m, target, c) == tree::changed_arms(s, k, target, c),
    decreases m,
{
    if k < m {
        lemma_changed_arms_stays(s, k, (m - 1) as nat, target, c);
    }
}

proof fn lemma_find_all_stays(s: Seq<Node>, k: nat, m: nat, target: Seq<char>)
    requires
        k <= m <= s.len(),
        tree::find_all(s, k, target) is Some,
    ensures
        tree::find_all(s, m, target) == tree::find_all(s, k, target),
    decreases m,
{
    if k < m {
        lemma_find_all_stays(s, k, (m - 1) as nat, target);
    }
}

proof fn lemma_find_arms_stays(s: Seq<(Seq<char>, Node)>, k: nat, m: nat, target: Seq<char>)
    requires
        k <= m <= s.len(),
        tree::find_arms(s, k, target) is Some,
    ensures
        tree::find_arms(s, m, target) == tree::find_arms(s, k, target),
    decreases m,
{
    if k < m {
        lemma_find_arms_stays(s, k, (m - 1) as nat, target);
    }
}

impl WorkflowContinuation {
    /// Change a field of the first task with an id that may be changed. The change
    /// is handed back where there is no such task.
    #[verifier::rlimit(40)]
    fn change_task(&mut self, target_id: &str, change: TaskChange) -> (r: Option<TaskChange>)
        ensures
            match r {
                None => tree::changed(old(self).node(), target_id@, change.change()) == Some(
                    final(self).node(),
                ),
                Some(c) => c == change && tree::changed(
                    old(self).node(),
                    target_id@,
                    change.change(),
                ) is None && final(self).node() == old(self).node(),
            },
        decreases *old(self), 1nat,
    {
        proof {
            reveal_with_fuel(tree::changed, 2);
            if *self is Branch {
                lemma_arms(*self);
            }
        }
        let r = match self {
            WorkflowContinuation::Task {
                id,
                timeout,
                retry_policy,
                version,
                tags,
                next,
                ..
            } => {
                if str_same(id.as_str(), target_id) {
                    match change {
                        TaskChange::Timeout(t) => {
                            *timeout = t;
                        },
                        TaskChange::Retry(p) => {
                            *retry_policy = p;
                        },
                        TaskChange::Version(v) => {
                            *version = v;
                        },
                        TaskChange::Tags(t) => {
                            *tags = t;
                        },
                    }
                    None
                } else {
                    match next {
                        Some(m) => m.change_task(target_id, change),
                        None => Some(change),
                    }
                }
            },
            WorkflowContinuation::Delay { next, .. } => match next {
                Some(m) => m.change_task(target_id, change),
                None => Some(change),
            },
            WorkflowContinuation::AwaitSignal { next, .. } => match next {
                Some(m) => m.change_task(target_id, change),
                None => Some(change),
            },
            WorkflowContinuation::Fork { join, .. } => match join {
                Some(m) => m.change_task(target_id, change),
                None => Some(change),
            },
            WorkflowContinuation::Loop { body, next, .. } => {
                match body.change_task(target_id, change) {
                    None => None,
                    Some(change) => match next {
                        Some(m) => m.change_task(target_id, change),
                        None => Some(change),
                    },
                }
            },
            WorkflowContinuation::ChildWorkflow { next, .. } => match next {
                Some(m) => m.change_task(target_id, change),
                None => Some(change),
            },
            WorkflowContinuation::Branch { branches, default, next, .. } => {
                match Self::change_arms(branches, target_id, change) {
                    None => None,
                    Some(change) => match (match default {
                        Some(d) => d.change_task(target_id, change),
                        None => Some(change),
                    }) {
                        None => None,
                        Some(change) => match next {
                            Some(m) => m.change_task(target_id, change),
                            None => Some(change),
                        },
                    },
                }
            },
        };
        proof {
            if *self is Branch {
                lemma_arms(*self);
            }
        }
        r
    }

    /// Change a field of the first task with an id in the arms of a branch node.
    fn change_arms(
        branches: &mut StringMap<Box<WorkflowContinuation>>,
        target_id: &str,
        change: TaskChange,
    ) -> (r: Option<TaskChange>)
        ensures
            match r {
                None => tree::changed_arms(
                    arm_nodes(old(branches).entries()),
                    arm_nodes(old(branches).entries()).len(),
                    target_id@,
                    change.change(),
                ) == Some(arm_nodes(final(branches).entries())),
                Some(c) => c == change && tree::changed_arms(
                    arm_nodes(old(branches).entries()),
                    arm_nodes(old(branches).entries()).len(),
                    target_id@,
                    change.change(),
                ) is None && arm_nodes(final(branches).entries()) == arm_nodes(
                    old(branches).entries(),
                ),
            },
        decreases *old(branches), 0nat,
    {
        let ghost first = branches.entries();
        let ghost all = arm_nodes(first);
        let ghost wanted = change.change();
        let mut waiting = change;
        let mut i: usize = 0;
        while i < branches.len()
            invariant
                first == old(branches).entries(),
                all == arm_nodes(first),
                wanted == change.change(),
                waiting == change,
                i <= branches.entries().len() == first.len(),
                arm_nodes(branches.entries()) == all,
                forall|j: int|
                    i <= j < first.len() ==> #[trigger] branches.entries()[j] == first[j],
                tree::changed_arms(all, i as nat, target_id@, wanted) is None,
            decreases first.len() - i,
        {
            proof {
                string_map::lemma_entry_smaller(*old(branches), i as int);
            }
            let ghost held = branches.entries();
            let empty = Box::new(
                WorkflowContinuation::Delay {
                    id: String::new(),
                    duration: Duration::from_secs(0),
                    next: None,
                },
            );
            let mut arm = branches.replace_at(i, empty);
            let ghost taken = arm.node();
            proof {
                assert(held[i as int] == first[i as int]);
                assert(all[i as int].1 == taken);
            }
            let left = arm.change_task(target_id, waiting);
            let ghost put = arm.node();
            let _ = branches.replace_at(i, arm);
            match left {
                None => {
                    proof {
                        assert(arm_nodes(branches.entries()) =~= all.update(
                            i as int,
                            (all[i as int].0, put),
                        ));
                        lemma_changed_arms_stays(
                            all,
                            (i + 1) as nat,
                            all.len(),
                            target_id@,
                            wanted,
                        );
                    }
                    return None;
                },
                Some(c) => {
                    waiting = c;
                    proof {
                        assert(arm_nodes(branches.entries()) =~= all);
                    }
                },
            }
            i = i + 1;
        }
        Some(waiting)
    }

    /// Set the timeout of a task.
    pub fn set_task_timeout(&mut self, target_id: &str, timeout: Option<Duration>)
        ensures
            final(self).node() == after_change(
                old(self).node(),
                target_id@,
                Change::Timeout(timeout),
            ),
    {
        let _ = self.change_task(target_id, TaskChange::Timeout(timeout));
    }

    /// Set the retry policy of a task.
    pub fn set_task_retry_policy(&mut self, target_id: &str, policy: Option<RetryPolicy>)
        ensures
            final(self).node() == after_change(
                old(self).node(),
                target_id@,
                Change::Retry(task::opt_retry(policy)),
            ),
    {
        let _ = self.change_task(target_id, TaskChange::Retry(policy));
    }

    /// Set the version of a task.
    pub fn set_task_version(&mut self, target_id: &str, ver: Option<String>)
        ensures
            final(self).node() == after_change(
                old(self).node(),
                target_id@,
                Change::Version(text::opt_text(ver)),
            ),
    {
        let _ = self.change_task(target_id, TaskChange::Version(ver));
    }

    /// Set the tags of a task.
    pub fn set_task_tags(&mut self, target_id: &str, new_tags: Vec<String>)
        ensures
            final(self).node() == after_change(
                old(self).node(),
                target_id@,
                Change::Tags(text::texts(new_tags@)),
            ),
    {
        let _ = self.change_task(target_id, TaskChange::Tags(new_tags));
    }

    /// Hang a node on the end of the chain.
    pub fn append_to_chain(&mut self, new_node: WorkflowContinuation)
        ensures
            final(self).node() == tree::appended(old(self).node(), new_node.node()),
        decreases *old(self),
    {
        let next = match self {
            WorkflowContinuation::Task { next, .. } => next,
            WorkflowContinuation::Delay { next, .. } => next,
            WorkflowContinuation::AwaitSignal { next, .. } => next,
            WorkflowContinuation::Branch { next, .. } => next,
            WorkflowContinuation::Loop { next, .. } => next,
            WorkflowContinuation::ChildWorkflow { next, .. } => next,
            WorkflowContinuation::Fork { join, .. } => join,
        };
        match next {
            Some(m) => m.append_to_chain(new_node),
            None => {
                *next = Some(Box::new(new_node));
            },
        }
    }

    /// The retry policy of a task.
    pub fn get_task_retry_policy(&self, task_id: &str) -> (r: Option<&RetryPolicy>)
        ensures
            (match r {
                Some(p) => Some(p@),
                None => None,
            }) == (match tree::find(self.node(), task_id@) {
                Some(Node::Task { retry, .. }) => retry,
                _ => None,
            }),
    {
        match self.find_task(task_id) {
            Some(WorkflowContinuation::Task { retry_policy, .. }) => match retry_policy {
                Some(p) => Some(p),
                None => None,
            },
            _ => None,
        }
    }

    /// The timeout of a task.
    pub fn get_task_timeout(&self, task_id: &str) -> (r: Option<Duration>)
        ensures
            r == (match tree::find(self.node(), task_id@) {
                Some(Node::Task { timeout, .. }) => timeout,
                _ => None,
            }),
    {
        match self.find_task(task_id) {
            Some(WorkflowContinuation::Task { timeout, .. }) => *timeout,
            _ => None,
        }
    }

    /// The priority of a task.
    pub fn get_task_priority(&self, task_id: &str) -> (r: Option<u8>)
        ensures
            r == (match tree::find(self.node(), task_id@) {
                Some(Node::Task { priority, .. }) => priority,
                _ => None,
            }),
    {
        match self.find_task(task_id) {
            Some(WorkflowContinuation::Task { priority, .. }) => *priority,
            _ => None,
        }
    }

    /// The tags of a task.
    pub fn get_task_tags(&self, task_id: &str) -> (r: Vec<String>)
        ensures
            text::texts(r@) == (match tree::find(self.node(), task_id@) {
                Some(Node::Task { tags, .. }) => tags,
                _ => seq![],
            }),
    {
        match self.find_task(task_id) {
            Some(WorkflowContinuation::Task { tags, .. }) => clone_texts(tags),
            _ => Vec::new(),
        }
    }

    /// The metadata that a task node describes.
    pub fn build_task_metadata(&self, task_id: &str) -> (r: TaskMetadata)
        ensures
            r@ == (match tree::find(self.node(), task_id@) {
                Some(Node::Task { timeout, retry, version, priority, tags, .. }) =>
                    task::node_meta(timeout, retry, version, priority, tags),
                _ => task::no_meta(),
            }),
    {
        match self.find_task(task_id) {
            Some(
                WorkflowContinuation::Task {
                    timeout,
                    retry_policy,
                    version,
                    priority,
                    tags,
                    ..
                },
            ) => TaskMetadata::from_node_fields(
                *timeout,
                clone_opt_retry(retry_policy),
                clone_opt_text(version),
                *priority,
                clone_texts(tags),
            ),
            _ => TaskMetadata::default(),
        }
    }

    /// Walk over all nodes in preorder.
    pub fn iter_nodes(&self) -> (r: NodeIter<'_>)
        ensures
            pending(r.stack@) == tree::infos(self.node(), None),
    {
        let mut stack: Vec<(&WorkflowContinuation, Option<&str>)> = Vec::new();
        proof {
            lemma_pending_push(stack@, (self, None));
            assert(pending(stack@) =~= seq![]);
            assert(tree::infos(self.node(), None) + pending(stack@) =~= tree::infos(
                self.node(),
                None,
            ));
        }
        stack.push((self, None));
        NodeIter { stack }
    }
}

impl WorkflowContinuation {
    /// Append the ids of all nodes in preorder.
    #[verifier::rlimit(60)]
    fn push_ids<'a>(&'a self, out: &mut Vec<&'a str>)
        ensures
            str_texts(final(out)@) == str_texts(old(out)@) + tree::ids(self.node()),
        decreases self,
    {
        let ghost n = self.node();
        let ghost start = str_texts(out@);
        let ghost head = start.push(tree::id_of(n));
        out.push(self.id());
        proof {
            assert(str_texts(out@) =~= head);
        }
        let ghost mut below: Seq<Seq<char>> = seq![];
        match self {
            WorkflowContinuation::Fork { branches, .. } => {
                let ghost b = n->Fork_branches;
                let mut i: usize = 0;
                proof {
                    assert(head + tree::ids_all(b, 0) =~= head);
                }
                while i < branches.len()
                    invariant
                        i <= branches@.len(),
                        decreases_to!(self => branches@),
                        b.len() == branches@.len(),
                        forall|j: int|
                            0 <= j < b.len() ==> #[trigger] b[j] == branches@[j].node(),
                        str_texts(out@) == head + tree::ids_all(b, i as nat),
                    decreases branches@.len() - i,
                {
                    branches[i].push_ids(out);
                    i = i + 1;
                    proof {
                        assert(str_texts(out@) =~= head + tree::ids_all(b, i as nat));
                    }
                }
                proof {
                    below = tree::ids_all(b, b.len());
                }
            },
            WorkflowContinuation::Branch { branches, default, .. } => {
                let ghost b = n->arms;
                proof {
                    lemma_arms(*self);
                }
                let mut i: usize = 0;
                proof {
                    assert(head + tree::ids_arms(b, 0) =~= head);
                }
                while i < branches.len()
                    invariant
                        i <= branches.entries().len(),
                        decreases_to!(self => *branches),
                        b.len() == branches.entries().len(),
                        forall|j: int|
                            0 <= j < b.len() ==> (#[trigger] b[j]).1 == branches.entries()[j].1.node(),
                        str_texts(out@) == head + tree::ids_arms(b, i as nat),
                    decreases branches.entries().len() - i,
                {
                    proof {
                        string_map::lemma_entry_smaller(*branches, i as int);
                    }
                    branches.value_at(i).push_ids(out);
                    i = i + 1;
                    proof {
                        assert(str_texts(out@) =~= head + tree::ids_arms(b, i as nat));
                    }
                }
                proof {
                    below = tree::ids_arms(b, b.len());
                }
                if let Some(d) = default {
                    d.push_ids(out);
                    proof {
                        below = below + tree::ids(d.node());
                        assert(str_texts(out@) =~= head + below);
                    }
                } else {
                    proof {
                        below = below + seq![];
                        assert(str_texts(out@) =~= head + below);
                    }
                }
            },
            WorkflowContinuation::Loop { body, .. } => {
                body.push_ids(out);
                proof {
                    below = tree::ids(*n->body);
                }
            },
            WorkflowContinuation::ChildWorkflow { child, .. } => {
                child.push_ids(out);
                proof {
                    below = tree::ids(*n->child);
                }
            },
            _ => {
                proof {
                    assert(str_texts(out@) =~= head + below);
                }
            },
        }
        let following = self.get_next();
        if let Some(m) = following {
            m.push_ids(out);
        }
        proof {
            let last = match tree::next_of(n) {
                Some(m) => tree::ids(*m),
                None => seq![],
            };
            assert(str_texts(out@) =~= head + below + last);
            assert(tree::ids(n) =~= seq![tree::id_of(n)] + below + last);
            assert(head + below + last =~= start + (seq![tree::id_of(n)] + below + last));
        }
    }

    /// The first id that occurs a second time in the tree.
    pub fn find_duplicate_id(&self) -> (r: Option<String>)
        ensures
            text::opt_text(r) == tree::duplicate_id(self.node()),
    {
        let mut all: Vec<&str> = Vec::new();
        self.push_ids(&mut all);
        proof {
            assert(str_texts(all@) =~= tree::ids(self.node()));
        }
        first_repeated(&all)
    }

    /// What is stored of the tree: everything but the task implementations.
    pub fn to_serializable(&self) -> (r: SerializableContinuation)
        ensures
            r.node() == tree::stored(self.node()),
        decreases self,
    {
        let ghost n = self.node();
        let ghost s = tree::stored(n);
        match self {
            WorkflowContinuation::Task {
                id,
                timeout,
                retry_policy,
                version,
                priority,
                tags,
                next,
                ..
            } => SerializableContinuation::Task {
                id: id.clone(),
                timeout_ms: opt_millis(timeout),
                retry_policy: clone_opt_retry(retry_policy),
                version: clone_opt_text(version),
                priority: *priority,
                tags: clone_texts(tags),
                next: match next {
                    Some(m) => Some(Box::new(m.to_serializable())),
                    None => None,
                },
            },
            WorkflowContinuation::Fork { id, branches, join } => {
                let ghost b = n->Fork_branches;
                let mut out: Vec<SerializableContinuation> = Vec::new();
                let mut i: usize = 0;
                while i < branches.len()
                    invariant
                        i <= branches@.len(),
                        decreases_to!(self => branches@),
                        b.len() == branches@.len(),
                        forall|j: int|
                            0 <= j < b.len() ==> #[trigger] b[j] == branches@[j].node(),
                        out@.len() == i,
                        forall|j: int|
                            0 <= j < i ==> (#[trigger] out@[j]).node() == tree::stored(b[j]),
                    decreases branches@.len() - i,
                {
                    out.push(branches[i].to_serializable());
                    i = i + 1;
                }
                let r = SerializableContinuation::Fork {
                    id: id.clone(),
                    branches: out,
                    join: match join {
                        Some(m) => Some(Box::new(m.to_serializable())),
                        None => None,
                    },
                };
                proof {
                    assert(r.node()->Fork_branches =~= s->Fork_branches);
                }
                r
            },
            WorkflowContinuation::Delay { id, duration, next } => SerializableContinuation::Delay {
                id: id.clone(),
                duration_ms: duration.as_millis64(),
                next: match next {
                    Some(m) => Some(Box::new(m.to_serializable())),
                    None => None,
                },
            },
            WorkflowContinuation::AwaitSignal { id, signal_name, timeout, next } => {
                SerializableContinuation::AwaitSignal {
                    id: id.clone(),
                    signal_name: signal_name.clone(),
                    timeout_ms: opt_millis(timeout),
                    next: match next {
                        Some(m) => Some(Box::new(m.to_serializable())),
                        None => None,
                    },
                }
            },
            WorkflowContinuation::Branch { id, branches, default, next, .. } => {
                let ghost b = n->arms;
                proof {
                    lemma_arms(*self);
                }
                branches.check_order();
                let mut out: StringMap<Box<SerializableContinuation>> = StringMap::new();
                let mut i: usize = 0;
                while i < branches.len()
                    invariant
                        i <= branches.entries().len(),
                        decreases_to!(self => *branches),
                        string_map::sorted_keys(branches.entries()),
                        b.len() == branches.entries().len(),
                        forall|j: int|
                            0 <= j < b.len() ==> (#[trigger] b[j]).1 == branches.entries()[j].1.node(),
                        out.entries().len() == i,
                        forall|j: int|
                            0 <= j < i ==> (#[trigger] out.entries()[j]).0
                                == branches.entries()[j].0,
                        forall|j: int|
                            0 <= j < i ==> (#[trigger] out.entries()[j]).1.node() == tree::stored(
                                b[j].1,
                            ),
                    decreases branches.entries().len() - i,
                {
                    proof {
                        string_map::lemma_entry_smaller(*branches, i as int);
                    }
                    let arm = Box::new(branches.value_at(i).to_serializable());
                    out.push_last(branches.key_at(i).clone(), arm);
                    i = i + 1;
                }
                let r = SerializableContinuation::Branch {
                    id: id.clone(),
                    branches: out,
                    default: match default {
                        Some(m) => Some(Box::new(m.to_serializable())),
                        None => None,
                    },
                    next: match next {
                        Some(m) => Some(Box::new(m.to_serializable())),
                        None => None,
                    },
                };
                proof {
                    crate::stored::lemma_arms(r);
                    assert(r.node()->arms =~= s->arms);
                }
                r
            },
            WorkflowContinuation::Loop { id, body, max_iterations, on_max, next } => {
                SerializableContinuation::Loop {
                    id: id.clone(),
                    body: Box::new(body.to_serializable()),
                    max_iterations: *max_iterations,
                    on_max: *on_max,
                    next: match next {
                        Some(m) => Some(Box::new(m.to_serializable())),
                        None => None,
                    },
                }
            },
            WorkflowContinuation::ChildWorkflow { id, child, next } => {
                SerializableContinuation::ChildWorkflow {
                    id: id.clone(),
                    child: Box::new(child.to_serializable()),
                    next: match next {
                        Some(m) => Some(Box::new(m.to_serializable())),
                        None => None,
                    },
                }
            },
        }
    }
}

/// The whole milliseconds of an optional span.
fn opt_millis(o: &Option<Duration>) -> (r: Option<u64>)
    ensures
        r == (match *o {
            Some(d) => Some(crate::duration::millis64(d)),
            None => None,
        }),
{
    match o {
        Some(d) => Some(d.as_millis64()),
        None => None,
    }
}

} // verus!
