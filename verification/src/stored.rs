//! The stored continuation tree: persisted without task implementations and
//! rehydrated through a task registry.
use crate::continuation::{first_repeated, WorkflowContinuation};
use crate::duration;
use crate::duration::Duration;
use crate::error::BuildError;
use crate::hash32;
use crate::hash32::Hash32;
use crate::registry::TaskRegistry;
use crate::string_map;
use crate::string_map::StringMap;
use crate::task;
use crate::task::{clone_opt_retry, RetryPolicy};
use crate::text;
use crate::text::{clone_opt_text, clone_texts, concat, decimal_text};
use crate::tree;
use crate::tree::Node;
use crate::workflow::MaxIterationsPolicy;
use std::sync::Arc;
use vstd::prelude::*;

verus! {

/// A continuation tree as it is stored.
#[allow(inconsistent_fields)]
pub enum SerializableContinuation {
    /// A single task.
    Task {
        /// Task id.
        id: String,
        /// Timeout in milliseconds.
        timeout_ms: Option<u64>,
        /// Retry policy.
        retry_policy: Option<RetryPolicy>,
        /// Version of the task.
        version: Option<String>,
        /// Priority (1–5).
        priority: Option<u8>,
        /// Affinity tags.
        tags: Vec<String>,
        /// What follows.
        next: Option<Box<SerializableContinuation>>,
    },
    /// Parallel branches with an optional join.
    Fork {
        /// Fork id.
        id: String,
        /// The branches.
        branches: Vec<SerializableContinuation>,
        /// The join.
        join: Option<Box<SerializableContinuation>>,
    },
    /// A durable delay.
    Delay {
        /// Delay id.
        id: String,
        /// How long to wait, in milliseconds.
        duration_ms: u64,
        /// What follows.
        next: Option<Box<SerializableContinuation>>,
    },
    /// A wait for an external signal.
    AwaitSignal {
        /// Node id.
        id: String,
        /// Name of the signal.
        signal_name: String,
        /// How long to wait at most, in milliseconds.
        timeout_ms: Option<u64>,
        /// What follows.
        next: Option<Box<SerializableContinuation>>,
    },
    /// A conditional branch on a routing key.
    Branch {
        /// Branch id.
        id: String,
        /// The arms by key.
        branches: StringMap<Box<SerializableContinuation>>,
        /// The arm for keys without one.
        default: Option<Box<SerializableContinuation>>,
        /// What follows.
        next: Option<Box<SerializableContinuation>>,
    },
    /// A loop whose body repeats until it is done.
    Loop {
        /// Loop id.
        id: String,
        /// The body.
        body: Box<SerializableContinuation>,
        /// Maximum number of iterations.
        max_iterations: u32,
        /// What to do at the maximum.
        on_max: MaxIterationsPolicy,
        /// What follows.
        next: Option<Box<SerializableContinuation>>,
    },
    /// An inlined child workflow.
    ChildWorkflow {
        /// Node id.
        id: String,
        /// The child's tree.
        child: Box<SerializableContinuation>,
        /// What follows.
        next: Option<Box<SerializableContinuation>>,
    },
}

/// The span of an optional number of milliseconds.
pub open spec fn opt_span(o: Option<u64>) -> Option<Duration> {
    match o {
        Some(ms) => Some(duration::of_millis(ms)),
        None => None,
    }
}

/// The tree of the `i`-th entry of a map of stored continuations.
pub open spec fn arm_node(m: StringMap<Box<SerializableContinuation>>, i: int) -> Node
    decreases m,
    when 0 <= i < m.entries().len()
{
    proof {
        string_map::lemma_entry_smaller(m, i);
    }
    m.entries()[i].1.node()
}

impl SerializableContinuation {
    /// The tree that the stored continuation stands for.
    pub open spec fn node(self) -> Node
        decreases self,
    {
        match self {
            SerializableContinuation::Task {
                id,
                timeout_ms,
                retry_policy,
                version,
                priority,
                tags,
                next,
            } => Node::Task {
                id: id@,
                func: None,
                timeout: opt_span(timeout_ms),
                retry: task::opt_retry(retry_policy),
                version: text::opt_text(version),
                priority,
                tags: text::texts(tags@),
                next: match next {
                    Some(n) => Some(Box::new(n.node())),
                    None => None,
                },
            },
            SerializableContinuation::Fork { id, branches, join } => Node::Fork {
                id: id@,
                branches: Seq::new(
                    branches@.len(),
                    |i: int|
                        if 0 <= i < branches@.len() {
                            branches@[i].node()
                        } else {
                            arbitrary()
                        },
                ),
                join: match join {
                    Some(n) => Some(Box::new(n.node())),
                    None => None,
                },
            },
            SerializableContinuation::Delay { id, duration_ms, next } => Node::Delay {
                id: id@,
                duration: duration::of_millis(duration_ms),
                next: match next {
                    Some(n) => Some(Box::new(n.node())),
                    None => None,
                },
            },
            SerializableContinuation::AwaitSignal { id, signal_name, timeout_ms, next } =>
                Node::AwaitSignal {
                id: id@,
                signal_name: signal_name@,
                timeout: opt_span(timeout_ms),
                next: match next {
                    Some(n) => Some(Box::new(n.node())),
                    None => None,
                },
            },
            SerializableContinuation::Branch { id, branches, default, next } => Node::Branch {
                id: id@,
                key_fn: None,
                arms: Seq::new(
                    branches.entries().len(),
                    |i: int|
                        if 0 <= i < branches.entries().len() {
                            (branches.entries()[i].0@, arm_node(branches, i))
                        } else {
                            arbitrary()
                        },
                ),
                default: match default {
                    Some(n) => Some(Box::new(n.node())),
                    None => None,
                },
                next: match next {
                    Some(n) => Some(Box::new(n.node())),
                    None => None,
                },
            },
            SerializableContinuation::Loop { id, body, max_iterations, on_max, next } =>
                Node::Loop {
                id: id@,
                body: Box::new(body.node()),
                max_iterations,
                on_max,
                next: match next {
                    Some(n) => Some(Box::new(n.node())),
                    None => None,
                },
            },
            SerializableContinuation::ChildWorkflow { id, child, next } => Node::ChildWorkflow {
                id: id@,
                child: Box::new(child.node()),
                next: match next {
                    Some(n) => Some(Box::new(n.node())),
                    None => None,
                },
            },
        }
    }
}

/// The arms of a branch node are the trees of the entries of its map.
pub proof fn lemma_arms(c: SerializableContinuation)
    requires
        c is Branch,
    ensures
        c.node()->arms.len() == c->Branch_branches.entries().len(),
        forall|j: int|
            0 <= j < c.node()->arms.len() ==> (#[trigger] c.node()->arms[j]) == (
                c->Branch_branches.entries()[j].0@,
                c->Branch_branches.entries()[j].1.node(),
            ),
{
    let m = c->Branch_branches;
    assert forall|j: int| 0 <= j < c.node()->arms.len() implies (#[trigger] c.node()->arms[j]) == (
        m.entries()[j].0@,
        m.entries()[j].1.node(),
    ) by {
        assert(arm_node(m, j) == m.entries()[j].1.node());
    }
}

/// The id under which the routing function of a branch node is registered.
pub fn key_fn_id(branch_id: &str) -> (r: String)
    ensures
        r@ == tree::key_fn_text(branch_id@),
{
    concat(branch_id, "::key_fn")
}

/// What binding a tree to a registry comes to.
pub open spec fn bind_outcome(
    r: Result<WorkflowContinuation, BuildError>,
    wanted: Result<Node, Seq<char>>,
) -> bool {
    match r {
        Ok(c) => wanted == Ok::<Node, Seq<char>>(c.node()),
        Err(e) => e matches BuildError::TaskNotFound(id) && wanted == Err::<Node, Seq<char>>(id@),
    }
}

/// What binding an optional tree to a registry comes to.
pub open spec fn bind_opt_outcome(
    r: Result<Option<Box<WorkflowContinuation>>, BuildError>,
    wanted: Result<Option<Box<Node>>, Seq<char>>,
) -> bool {
    match r {
        Ok(None) => wanted == Ok::<Option<Box<Node>>, Seq<char>>(None),
        Ok(Some(c)) => wanted == Ok::<Option<Box<Node>>, Seq<char>>(Some(Box::new(c.node()))),
        Err(e) => e matches BuildError::TaskNotFound(id) && wanted == Err::<
            Option<Box<Node>>,
            Seq<char>,
        >(id@),
    }
}

impl SerializableContinuation {
    /// The id of this node.
    pub fn id(&self) -> (r: &str)
        ensures
            r@ == tree::id_of(self.node()),
    {
        match self {
            SerializableContinuation::Task { id, .. } => id.as_str(),
            SerializableContinuation::Fork { id, .. } => id.as_str(),
            SerializableContinuation::Delay { id, .. } => id.as_str(),
            SerializableContinuation::AwaitSignal { id, .. } => id.as_str(),
            SerializableContinuation::Branch { id, .. } => id.as_str(),
            SerializableContinuation::Loop { id, .. } => id.as_str(),
            SerializableContinuation::ChildWorkflow { id, .. } => id.as_str(),
        }
    }

    /// The node that follows in the chain.
    fn get_next(&self) -> (r: Option<&SerializableContinuation>)
        ensures
            match r {
                Some(m) => tree::next_of(self.node()) == Some(Box::new(m.node()))
                    && decreases_to!(*self => *m),
                None => tree::next_of(self.node()) is None,
            },
    {
        let next = match self {
            SerializableContinuation::Task { next, .. } => next,
            SerializableContinuation::Fork { join, .. } => join,
            SerializableContinuation::Delay { next, .. } => next,
            SerializableContinuation::AwaitSignal { next, .. } => next,
            SerializableContinuation::Branch { next, .. } => next,
            SerializableContinuation::Loop { next, .. } => next,
            SerializableContinuation::ChildWorkflow { next, .. } => next,
        };
        match next {
            Some(n) => Some(n),
            None => None,
        }
    }

    /// Bind an optional tree.
    fn bind_opt(o: &Option<Box<SerializableContinuation>>, registry: &TaskRegistry) -> (r: Result<
        Option<Box<WorkflowContinuation>>,
        BuildError,
    >)
        ensures
            bind_opt_outcome(
                r,
                tree::bound_opt(
                    (match *o {
                        Some(n) => Some(Box::new(n.node())),
                        None => None,
                    }),
                    registry.handles(),
                ),
            ),
        decreases o,
    {
        match o {
            Some(n) => match n.to_runnable_unchecked(registry) {
                Ok(c) => Ok(Some(Box::new(c))),
                Err(e) => Err(e),
            },
            None => Ok(None),
        }
    }

    /// Look up the implementation of every task.
    #[verifier::rlimit(60)]
    fn to_runnable_unchecked(&self, registry: &TaskRegistry) -> (r: Result<
        WorkflowContinuation,
        BuildError,
    >)
        ensures
            bind_outcome(r, tree::bound(self.node(), registry.handles())),
        decreases self,
    {
        let ghost n = self.node();
        let ghost reg = registry.handles();
        match self {
            SerializableContinuation::Task {
                id,
                timeout_ms,
                retry_policy,
                version,
                priority,
                tags,
                next,
            } => {
                let func = match registry.get(id.as_str()) {
                    Some(h) => h,
                    None => {
                        return Err(BuildError::TaskNotFound(id.clone()));
                    },
                };
                let next = match Self::bind_opt(next, registry) {
                    Ok(m) => m,
                    Err(e) => {
                        return Err(e);
                    },
                };
                Ok(
                    WorkflowContinuation::Task {
                        id: id.clone(),
                        func: Some(func),
                        timeout: span(timeout_ms),
                        retry_policy: clone_opt_retry(retry_policy),
                        version: clone_opt_text(version),
                        priority: *priority,
                        tags: clone_texts(tags),
                        next,
                    },
                )
            },
            SerializableContinuation::Fork { id, branches, join } => {
                let join = match Self::bind_opt(join, registry) {
                    Ok(m) => m,
                    Err(e) => {
                        return Err(e);
                    },
                };
                let ghost b = n->Fork_branches;
                let mut out: Vec<Arc<WorkflowContinuation>> = Vec::new();
                let ghost mut made: Seq<Node> = seq![];
                let mut i: usize = 0;
                while i < branches.len()
                    invariant
                        i <= branches@.len(),
                        decreases_to!(self => branches@),
                        n == self.node(),
                        n is Fork,
                        reg == registry.handles(),
                        tree::bound_opt(n->join, reg) is Ok,
                        b == n->Fork_branches,
                        b.len() == branches@.len(),
                        forall|j: int|
                            0 <= j < b.len() ==> #[trigger] b[j] == branches@[j].node(),
                        out@.len() == i == made.len(),
                        forall|j: int| 0 <= j < i ==> (#[trigger] out@[j]).node() == made[j],
                        tree::bound_all(b, i as nat, reg) == Ok::<Seq<Node>, Seq<char>>(made),
                    decreases branches@.len() - i,
                {
                    match branches[i].to_runnable_unchecked(registry) {
                        Ok(c) => {
                            proof {
                                made = made.push(c.node());
                            }
                            out.push(Arc::new(c));
                        },
                        Err(e) => {
                            proof {
                                lemma_bound_all_stays(b, (i + 1) as nat, b.len(), reg);
                            }
                            return Err(e);
                        },
                    }
                    i = i + 1;
                }
                let c = WorkflowContinuation::Fork { id: id.clone(), branches: out, join };
                proof {
                    assert(c.node()->Fork_branches =~= made);
                }
                Ok(c)
            },
            SerializableContinuation::Delay { id, duration_ms, next } => {
                let next = match Self::bind_opt(next, registry) {
                    Ok(m) => m,
                    Err(e) => {
                        return Err(e);
                    },
                };
                Ok(
                    WorkflowContinuation::Delay {
                        id: id.clone(),
                        duration: Duration::from_millis(*duration_ms),
                        next,
                    },
                )
            },
            SerializableContinuation::AwaitSignal { id, signal_name, timeout_ms, next } => {
                let next = match Self::bind_opt(next, registry) {
                    Ok(m) => m,
                    Err(e) => {
                        return Err(e);
                    },
                };
                Ok(
                    WorkflowContinuation::AwaitSignal {
                        id: id.clone(),
                        signal_name: signal_name.clone(),
                        timeout: span(timeout_ms),
                        next,
                    },
                )
            },
            SerializableContinuation::Branch { id, branches, default, next } => {
                let kf_id = key_fn_id(id.as_str());
                let key_fn = match registry.get(kf_id.as_str()) {
                    Some(h) => h,
                    None => {
                        return Err(BuildError::TaskNotFound(kf_id));
                    },
                };
                let default = match Self::bind_opt(default, registry) {
                    Ok(m) => m,
                    Err(e) => {
                        return Err(e);
                    },
                };
                let next = match Self::bind_opt(next, registry) {
                    Ok(m) => m,
                    Err(e) => {
                        return Err(e);
                    },
                };
                let ghost b = n->arms;
                proof {
                    lemma_arms(*self);
                }
                branches.check_order();
                let mut out: StringMap<Box<WorkflowContinuation>> = StringMap::new();
                let ghost mut made: Seq<(Seq<char>, Node)> = seq![];
                let mut i: usize = 0;
                while i < branches.len()
                    invariant
                        i <= branches.entries().len(),
                        decreases_to!(self => *branches),
                        string_map::sorted_keys(branches.entries()),
                        n == self.node(),
                        n is Branch,
                        reg == registry.handles(),
                        reg.dom().contains(tree::key_fn_text(id@)),
                        n->Branch_id == id@,
                        tree::bound_opt(n->default, reg) is Ok,
                        tree::bound_opt(n->Branch_next, reg) is Ok,
                        b == n->arms,
                        b.len() == branches.entries().len(),
                        forall|j: int|
                            0 <= j < b.len() ==> (#[trigger] b[j]) == (
                                branches.entries()[j].0@,
                                branches.entries()[j].1.node(),
                            ),
                        out.entries().len() == i == made.len(),
                        forall|j: int|
                            0 <= j < i ==> (#[trigger] out.entries()[j]).0
                                == branches.entries()[j].0,
                        forall|j: int|
                            0 <= j < i ==> made[j] == (
                                (#[trigger] out.entries()[j]).0@,
                                out.entries()[j].1.node(),
                            ),
                        tree::bound_arms(b, i as nat, reg) == Ok::<
                            Seq<(Seq<char>, Node)>,
                            Seq<char>,
                        >(made),
                    decreases branches.entries().len() - i,
                {
                    proof {
                        string_map::lemma_entry_smaller(*branches, i as int);
                        assert(b[i as int].0 == branches.entries()[i as int].0@);
                    }
                    match branches.value_at(i).to_runnable_unchecked(registry) {
                        Ok(c) => {
                            proof {
                                made = made.push((b[i as int].0, c.node()));
                            }
                            out.push_last(branches.key_at(i).clone(), Box::new(c));
                        },
                        Err(e) => {
                            proof {
                                lemma_bound_arms_stays(b, (i + 1) as nat, b.len(), reg);
                            }
                            return Err(e);
                        },
                    }
                    i = i + 1;
                }
                let c = WorkflowContinuation::Branch {
                    id: id.clone(),
                    key_fn: Some(key_fn),
                    branches: out,
                    default,
                    next,
                };
                proof {
                    crate::continuation::lemma_arms(c);
                    assert(c.node()->arms =~= made);
                }
                Ok(c)
            },
            SerializableContinuation::Loop { id, body, max_iterations, on_max, next } => {
                let body = match body.to_runnable_unchecked(registry) {
                    Ok(m) => m,
                    Err(e) => {
                        return Err(e);
                    },
                };
                let next = match Self::bind_opt(next, registry) {
                    Ok(m) => m,
                    Err(e) => {
                        return Err(e);
                    },
                };
                Ok(
                    WorkflowContinuation::Loop {
                        id: id.clone(),
                        body: Box::new(body),
                        max_iterations: *max_iterations,
                        on_max: *on_max,
                        next,
                    },
                )
            },
            SerializableContinuation::ChildWorkflow { id, child, next } => {
                let child = match child.to_runnable_unchecked(registry) {
                    Ok(m) => m,
                    Err(e) => {
                        return Err(e);
                    },
                };
                let next = match Self::bind_opt(next, registry) {
                    Ok(m) => m,
                    Err(e) => {
                        return Err(e);
                    },
                };
                Ok(
                    WorkflowContinuation::ChildWorkflow {
                        id: id.clone(),
                        child: Arc::new(child),
                        next,
                    },
                )
            },
        }
    }

    /// Append the ids of all nodes in preorder.
    fn push_ids<'a>(&'a self, out: &mut Vec<&'a str>)
        ensures
            crate::continuation::str_texts(final(out)@) == crate::continuation::str_texts(old(out)@) + tree::ids(self.node()),
        decreases self,
    {
        let ghost n = self.node();
        let ghost start = crate::continuation::str_texts(out@);
        let ghost head = start.push(tree::id_of(n));
        out.push(self.id());
        proof {
            assert(crate::continuation::str_texts(out@) =~= head);
        }
        let ghost mut below: Seq<Seq<char>> = seq![];
        match self {
            SerializableContinuation::Fork { branches, .. } => {
                let ghost b = n->Fork_branches;
                let mut i: usize = 0;
                proof {
                    assert(head + tree::ids_all(b, 0) =~= head);
                }
                while i < branches.len()
                    invariant
                        i <= branches@.len(),
                        decreases_to!(self => branches@),
                        b.len() == branches@.len(),
                        forall|j: int|
                            0 <= j < b.len() ==> #[trigger] b[j] == branches@[j].node(),
                        crate::continuation::str_texts(out@) == head + tree::ids_all(b, i as nat),
                    decreases branches@.len() - i,
                {
                    branches[i].push_ids(out);
                    i = i + 1;
                    proof {
                        assert(crate::continuation::str_texts(out@) =~= head + tree::ids_all(b, i as nat));
                    }
                }
                proof {
                    below = tree::ids_all(b, b.len());
                }
            },
            SerializableContinuation::Branch { branches, default, .. } => {
                let ghost b = n->arms;
                proof {
                    lemma_arms(*self);
                }
                let mut i: usize = 0;
                proof {
                    assert(head + tree::ids_arms(b, 0) =~= head);
                }
                while i < branches.len()
                    invariant
                        i <= branches.entries().len(),
                        decreases_to!(self => *branches),
                        b.len() == branches.entries().len(),
                        forall|j: int|
                            0 <= j < b.len() ==> (#[trigger] b[j]).1 == branches.entries()[j].1.node(),
                        crate::continuation::str_texts(out@) == head + tree::ids_arms(b, i as nat),
                    decreases branches.entries().len() - i,
                {
                    proof {
                        string_map::lemma_entry_smaller(*branches, i as int);
                    }
                    branches.value_at(i).push_ids(out);
                    i = i + 1;
                    proof {
                        assert(crate::continuation::str_texts(out@) =~= head + tree::ids_arms(b, i as nat));
                    }
                }
                proof {
                    below = tree::ids_arms(b, b.len());
                }
                if let Some(d) = default {
                    d.push_ids(out);
                    proof {
                        below = below + tree::ids(d.node());
                        assert(crate::continuation::str_texts(out@) =~= head + below);
                    }
                } else {
                    proof {
                        below = below + seq![];
                        assert(crate::continuation::str_texts(out@) =~= head + below);
                    }
                }
            },
            SerializableContinuation::Loop { body, .. } => {
                body.push_ids(out);
                proof {
                    below = tree::ids(*n->body);
                }
            },
            SerializableContinuation::ChildWorkflow { child, .. } => {
                child.push_ids(out);
                proof {
                    below = tree::ids(*n->child);
                }
            },
            _ => {
                proof {
                    assert(crate::continuation::str_texts(out@) =~= head + below);
                }
            },
        }
        let following = self.get_next();
        if let Some(m) = following {
            m.push_ids(out);
        }
        proof {
            let last = match tree::next_of(n) {
                Some(m) => tree::ids(*m),
                None => seq![],
            };
            assert(crate::continuation::str_texts(out@) =~= head + below + last);
            assert(tree::ids(n) =~= seq![tree::id_of(n)] + below + last);
            assert(head + below + last =~= start + (seq![tree::id_of(n)] + below + last));
        }
    }

    /// The first id that occurs a second time in the tree.
    pub fn find_duplicate_id(&self) -> (r: Option<String>)
        ensures
            text::opt_text(r) == tree::duplicate_id(self.node()),
    {
        let mut all: Vec<&str> = Vec::new();
        self.push_ids(&mut all);
        proof {
            assert(crate::continuation::str_texts(all@) =~= tree::ids(self.node()));
        }
        first_repeated(&all)
    }

    /// The ids of all nodes in preorder.
    pub fn task_ids(&self) -> (r: Vec<&str>)
        ensures
            crate::continuation::str_texts(r@) == tree::ids(self.node()),
    {
        let mut all: Vec<&str> = Vec::new();
        self.push_ids(&mut all);
        proof {
            assert(crate::continuation::str_texts(all@) =~= tree::ids(self.node()));
        }
        all
    }

    /// Rehydrate the tree: check that no id is used twice, then look up the
    /// implementation of every task.
    pub fn to_runnable(&self, registry: &TaskRegistry) -> (r: Result<
        WorkflowContinuation,
        BuildError,
    >)
        ensures
            match tree::duplicate_id(self.node()) {
                Some(dup) => r matches Err(BuildError::DuplicateTaskId(id)) && id@ == dup,
                None => bind_outcome(r, tree::bound(self.node(), registry.handles())),
            },
    {
        match self.find_duplicate_id() {
            Some(dup) => Err(BuildError::DuplicateTaskId(dup)),
            None => self.to_runnable_unchecked(registry),
        }
    }
}

/// The span of an optional number of milliseconds.
fn span(o: &Option<u64>) -> (r: Option<Duration>)
    ensures
        r == opt_span(*o),
{
    match o {
        Some(ms) => Some(Duration::from_millis(*ms)),
        None => None,
    }
}

proof fn lemma_bound_all_stays(
    s: Seq<Node>,
    k: nat,
    m: nat,
    reg: Map<Seq<char>, crate::task::TaskHandle>,
)
    requires
        k <= m <= s.len(),
        tree::bound_all(s, k, reg) is Err,
    ensures
        tree::bound_all(s, m, reg) == tree::bound_all(s, k, reg),
    decreases m,
{
    if k < m {
        lemma_bound_all_stays(s, k, (m - 1) as nat, reg);
    }
}

proof fn lemma_bound_arms_stays(
    s: Seq<(Seq<char>, Node)>,
    k: nat,
    m: nat,
    reg: Map<Seq<char>, crate::task::TaskHandle>,
)
    requires
        k <= m <= s.len(),
        tree::bound_arms(s, k, reg) is Err,
    ensures
        tree::bound_arms(s, m, reg) == tree::bound_arms(s, k, reg),
    decreases m,
{
    if k < m {
        lemma_bound_arms_stays(s, k, (m - 1) as nat, reg);
    }
}

/// The canonical text of a timeout.
fn timeout_text(o: &Option<u64>) -> (r: String)
    ensures
        r@ == tree::timeout_part(opt_span(*o)),
{
    match o {
        Some(ms) => {
            proof {
                duration::law_millis_round_trip(*ms);
            }
            concat(":t:", decimal_text(*ms as u128).as_str())
        },
        None => String::new(),
    }
}

/// The canonical text of a retry policy.
fn retry_text(o: &Option<RetryPolicy>) -> (r: String)
    ensures
        r@ == tree::retry_part(task::opt_retry(*o)),
{
    match o {
        Some(p) => {
            let mut s = concat(":r:", decimal_text(p.max_retries as u128).as_str());
            s.append(":");
            s.append(decimal_text(p.initial_delay.as_millis()).as_str());
            s.append(":");
            s.append(p.backoff_multiplier.as_str());
            s
        },
        None => String::new(),
    }
}

/// The canonical text of a version.
fn version_text(o: &Option<String>) -> (r: String)
    ensures
        r@ == tree::version_part(text::opt_text(*o)),
{
    match o {
        Some(v) => concat(":v:", v.as_str()),
        None => String::new(),
    }
}

impl SerializableContinuation {
    /// The canonical text of what follows a node.
    fn following_text(o: &Option<Box<SerializableContinuation>>) -> (r: String)
        ensures
            r@ == (match *o {
                Some(n) => tree::canonical(n.node()),
                None => seq![],
            }),
        decreases o,
    {
        match o {
            Some(n) => n.canonical_text(),
            None => String::new(),
        }
    }

    /// The canonical text of the tree.
    #[verifier::rlimit(40)]
    pub fn canonical_text(&self) -> (r: String)
        ensures
            r@ == tree::canonical(self.node()),
        decreases self,
    {
        let ghost n = self.node();
        match self {
            SerializableContinuation::Task {
                id,
                timeout_ms,
                retry_policy,
                version,
                next,
                ..
            } => {
                let mut s = concat("T:", id.as_str());
                s.append(timeout_text(timeout_ms).as_str());
                s.append(retry_text(retry_policy).as_str());
                s.append(version_text(version).as_str());
                s.append(";");
                s.append(Self::following_text(next).as_str());
                s
            },
            SerializableContinuation::Fork { id, branches, join } => {
                let ghost b = n->Fork_branches;
                let mut list = String::new();
                let mut i: usize = 0;
                while i < branches.len()
                    invariant
                        i <= branches@.len(),
                        decreases_to!(self => branches@),
                        b.len() == branches@.len(),
                        forall|j: int|
                            0 <= j < b.len() ==> #[trigger] b[j] == branches@[j].node(),
                        list@ == tree::canonical_all(b, i as nat),
                    decreases branches@.len() - i,
                {
                    list.append(branches[i].canonical_text().as_str());
                    list.append(",");
                    i = i + 1;
                }
                let mut s = concat("F:", id.as_str());
                s.append("[");
                s.append(list.as_str());
                s.append("]");
                match join {
                    Some(j) => {
                        s.append(concat("J:", j.canonical_text().as_str()).as_str());
                    },
                    None => {
                        s.append(String::new().as_str());
                    },
                }
                s
            },
            SerializableContinuation::Delay { id, duration_ms, next } => {
                proof {
                    duration::law_millis_round_trip(*duration_ms);
                }
                let mut s = concat("D:", id.as_str());
                s.append(":");
                s.append(decimal_text(*duration_ms as u128).as_str());
                s.append(";");
                s.append(Self::following_text(next).as_str());
                s
            },
            SerializableContinuation::AwaitSignal { id, signal_name, timeout_ms, next } => {
                let mut s = concat("S:", id.as_str());
                s.append(":");
                s.append(signal_name.as_str());
                s.append(timeout_text(timeout_ms).as_str());
                s.append(";");
                s.append(Self::following_text(next).as_str());
                s
            },
            SerializableContinuation::Branch { id, branches, default, next } => {
                let ghost b = n->arms;
                proof {
                    lemma_arms(*self);
                }
                let mut list = String::new();
                let mut i: usize = 0;
                while i < branches.len()
                    invariant
                        i <= branches.entries().len(),
                        decreases_to!(self => *branches),
                        b.len() == branches.entries().len(),
                        forall|j: int|
                            0 <= j < b.len() ==> (#[trigger] b[j]) == (
                                branches.entries()[j].0@,
                                branches.entries()[j].1.node(),
                            ),
                        list@ == tree::canonical_arms(b, i as nat),
                    decreases branches.entries().len() - i,
                {
                    proof {
                        string_map::lemma_entry_smaller(*branches, i as int);
                        assert(b[i as int].0 == branches.entries()[i as int].0@);
                    }
                    list.append(branches.key_at(i).as_str());
                    list.append("=>");
                    list.append(branches.value_at(i).canonical_text().as_str());
                    list.append(",");
                    i = i + 1;
                }
                let mut s = concat("B:", id.as_str());
                s.append("{");
                s.append(list.as_str());
                s.append("}");
                match default {
                    Some(d) => {
                        s.append(concat("_=>", d.canonical_text().as_str()).as_str());
                    },
                    None => {
                        s.append(String::new().as_str());
                    },
                }
                s.append(";");
                s.append(Self::following_text(next).as_str());
                s
            },
            SerializableContinuation::Loop { id, body, max_iterations, on_max, next } => {
                let mut s = concat("L:", id.as_str());
                s.append(":");
                s.append(decimal_text(*max_iterations as u128).as_str());
                s.append(":");
                s.append(on_max.as_ref());
                s.append("{");
                s.append(body.canonical_text().as_str());
                s.append("}");
                s.append(";");
                s.append(Self::following_text(next).as_str());
                s
            },
            SerializableContinuation::ChildWorkflow { id, child, next } => {
                let mut s = concat("CW:", id.as_str());
                s.append("{");
                s.append(child.canonical_text().as_str());
                s.append("}");
                s.append(";");
                s.append(Self::following_text(next).as_str());
                s
            },
        }
    }

    /// The SHA-256 digest of the canonical text, in lowercase hexadecimal digits.
    pub fn compute_definition_hash(&self) -> (r: String)
        ensures
            r@ == definition_hash(self.node()),
    {
        Hash32::sha256(self.canonical_text().as_str().as_bytes()).to_hex()
    }
}

/// The definition hash of a tree.
pub open spec fn definition_hash(n: Node) -> Seq<char> {
    hash32::hex_text(hash32::sha256_digest(vstd::utf8::encode_utf8(tree::canonical(n))))
}

} // verus!
