//! The mathematical workflow tree.
//!
//! A [`Node`] is what a continuation *is*, whichever of the two executable
//! representations holds it: the runnable one, whose nodes carry handles of
//! task implementations, or the stored one, whose nodes carry none. Every
//! contract about continuations is stated over nodes.
use crate::duration;
use crate::duration::Duration;
use crate::task::{Retry, TaskHandle};
use crate::text;
use crate::workflow::{MaxIterationsPolicy, NodeKind};
use vstd::prelude::*;

verus! {

/// A workflow tree.
pub enum Node {
    Task {
        id: Seq<char>,
        func: Option<TaskHandle>,
        timeout: Option<Duration>,
        retry: Option<Retry>,
        version: Option<Seq<char>>,
        priority: Option<u8>,
        tags: Seq<Seq<char>>,
        next: Option<Box<Node>>,
    },
    Fork { id: Seq<char>, branches: Seq<Node>, join: Option<Box<Node>> },
    Delay { id: Seq<char>, duration: Duration, next: Option<Box<Node>> },
    AwaitSignal {
        id: Seq<char>,
        signal_name: Seq<char>,
        timeout: Option<Duration>,
        next: Option<Box<Node>>,
    },
    Branch {
        id: Seq<char>,
        key_fn: Option<TaskHandle>,
        arms: Seq<(Seq<char>, Node)>,
        default: Option<Box<Node>>,
        next: Option<Box<Node>>,
    },
    Loop {
        id: Seq<char>,
        body: Box<Node>,
        max_iterations: u32,
        on_max: MaxIterationsPolicy,
        next: Option<Box<Node>>,
    },
    ChildWorkflow { id: Seq<char>, child: Box<Node>, next: Option<Box<Node>> },
}

/// The id of a node.
pub open spec fn id_of(n: Node) -> Seq<char> {
    match n {
        Node::Task { id, .. } => id,
        Node::Fork { id, .. } => id,
        Node::Delay { id, .. } => id,
        Node::AwaitSignal { id, .. } => id,
        Node::Branch { id, .. } => id,
        Node::Loop { id, .. } => id,
        Node::ChildWorkflow { id, .. } => id,
    }
}

/// The kind of a node.
pub open spec fn kind_of(n: Node) -> NodeKind {
    match n {
        Node::Task { .. } => NodeKind::Task,
        Node::Fork { .. } => NodeKind::Fork,
        Node::Delay { .. } => NodeKind::Delay,
        Node::AwaitSignal { .. } => NodeKind::AwaitSignal,
        Node::Branch { .. } => NodeKind::Branch,
        Node::Loop { .. } => NodeKind::Loop,
        Node::ChildWorkflow { .. } => NodeKind::ChildWorkflow,
    }
}

/// The node that follows in the chain; a fork is followed by its join.
pub open spec fn next_of(n: Node) -> Option<Box<Node>> {
    match n {
        Node::Task { next, .. } => next,
        Node::Fork { join, .. } => join,
        Node::Delay { next, .. } => next,
        Node::AwaitSignal { next, .. } => next,
        Node::Branch { next, .. } => next,
        Node::Loop { next, .. } => next,
        Node::ChildWorkflow { next, .. } => next,
    }
}

/// The node with another successor in the chain.
pub open spec fn with_next(n: Node, o: Option<Box<Node>>) -> Node {
    match n {
        Node::Task { id, func, timeout, retry, version, priority, tags, next } => Node::Task {
            id,
            func,
            timeout,
            retry,
            version,
            priority,
            tags,
            next: o,
        },
        Node::Fork { id, branches, join } => Node::Fork { id, branches, join: o },
        Node::Delay { id, duration, next } => Node::Delay { id, duration, next: o },
        Node::AwaitSignal { id, signal_name, timeout, next } => Node::AwaitSignal {
            id,
            signal_name,
            timeout,
            next: o,
        },
        Node::Branch { id, key_fn, arms, default, next } => Node::Branch {
            id,
            key_fn,
            arms,
            default,
            next: o,
        },
        Node::Loop { id, body, max_iterations, on_max, next } => Node::Loop {
            id,
            body,
            max_iterations,
            on_max,
            next: o,
        },
        Node::ChildWorkflow { id, child, next } => Node::ChildWorkflow { id, child, next: o },
    }
}

/// The chain of `n` with `m` hung on its end.
pub open spec fn appended(n: Node, m: Node) -> Node
    decreases n,
{
    match next_of(n) {
        Some(k) => with_next(n, Some(Box::new(appended(*k, m)))),
        None => with_next(n, Some(Box::new(m))),
    }
}

/// The ids of all nodes in preorder: a node, then its branches (arms in key
/// order, the default arm last) or its body, then what follows it.
pub open spec fn ids(n: Node) -> Seq<Seq<char>>
    decreases n, 0nat,
{
    match n {
        Node::Task { id, next, .. } => seq![id] + (match next {
            Some(m) => ids(*m),
            None => seq![],
        }),
        Node::Fork { id, branches, join } => seq![id] + ids_all(branches, branches.len()) + (
        match join {
            Some(m) => ids(*m),
            None => seq![],
        }),
        Node::Delay { id, next, .. } => seq![id] + (match next {
            Some(m) => ids(*m),
            None => seq![],
        }),
        Node::AwaitSignal { id, next, .. } => seq![id] + (match next {
            Some(m) => ids(*m),
            None => seq![],
        }),
        Node::Branch { id, arms, default, next, .. } => seq![id] + ids_arms(arms, arms.len()) + (
        match default {
            Some(m) => ids(*m),
            None => seq![],
        }) + (match next {
            Some(m) => ids(*m),
            None => seq![],
        }),
        Node::Loop { id, body, next, .. } => seq![id] + ids(*body) + (match next {
            Some(m) => ids(*m),
            None => seq![],
        }),
        Node::ChildWorkflow { id, child, next } => seq![id] + ids(*child) + (match next {
            Some(m) => ids(*m),
            None => seq![],
        }),
    }
}

/// The ids of the first `k` trees of a list, one tree after the other.
pub open spec fn ids_all(s: Seq<Node>, k: nat) -> Seq<Seq<char>>
    decreases s, k,
{
    if k == 0 || k > s.len() {
        seq![]
    } else {
        ids_all(s, (k - 1) as nat) + ids(s[k - 1])
    }
}

/// The ids of the first `k` arms of a list, one arm after the other.
pub open spec fn ids_arms(s: Seq<(Seq<char>, Node)>, k: nat) -> Seq<Seq<char>>
    decreases s, k,
{
    if k == 0 || k > s.len() {
        seq![]
    } else {
        ids_arms(s, (k - 1) as nat) + ids(s[k - 1].1)
    }
}

/// Among the first `k` ids, the first that an earlier one equals.
pub open spec fn first_repeat(s: Seq<Seq<char>>, k: nat) -> Option<Seq<char>>
    decreases k,
{
    if k == 0 || k > s.len() {
        None
    } else {
        match first_repeat(s, (k - 1) as nat) {
            Some(x) => Some(x),
            None => if s.take(k - 1).contains(s[k - 1]) {
                Some(s[k - 1])
            } else {
                None
            },
        }
    }
}

/// The id that a tree uses a second time, if it uses any twice.
pub open spec fn duplicate_id(n: Node) -> Option<Seq<char>> {
    first_repeat(ids(n), ids(n).len())
}

/// The id of the first node to execute.
pub open spec fn first_id(n: Node) -> Seq<char>
    decreases n,
{
    match n {
        Node::Fork { branches, .. } => if branches.len() > 0 {
            first_id(branches[0])
        } else {
            "unknown"@
        },
        Node::Loop { body, .. } => first_id(*body),
        Node::ChildWorkflow { child, .. } => first_id(*child),
        _ => id_of(n),
    }
}

/// The priority of the first node to execute.
pub open spec fn first_priority(n: Node) -> Option<u8>
    decreases n,
{
    match n {
        Node::Task { priority, .. } => priority,
        Node::Fork { branches, .. } => if branches.len() > 0 {
            first_priority(branches[0])
        } else {
            None
        },
        Node::Loop { body, .. } => first_priority(*body),
        Node::ChildWorkflow { child, .. } => first_priority(*child),
        _ => None,
    }
}

/// The tags of the first node to execute.
pub open spec fn first_tags(n: Node) -> Seq<Seq<char>>
    decreases n,
{
    match n {
        Node::Task { tags, .. } => tags,
        Node::Fork { branches, .. } => if branches.len() > 0 {
            first_tags(branches[0])
        } else {
            seq![]
        },
        Node::Loop { body, .. } => first_tags(*body),
        Node::ChildWorkflow { child, .. } => first_tags(*child),
        _ => seq![],
    }
}

/// The last node of the chain.
pub open spec fn terminal(n: Node) -> Node
    decreases n,
{
    match next_of(n) {
        Some(m) => terminal(*m),
        None => n,
    }
}

/// The first task node with an id, in preorder.
pub open spec fn find(n: Node, target: Seq<char>) -> Option<Node>
    decreases n, 0nat,
{
    match n {
        Node::Task { id, next, .. } => if id == target {
            Some(n)
        } else {
            match next {
                Some(m) => find(*m, target),
                None => None,
            }
        },
        Node::Delay { next, .. } => match next {
            Some(m) => find(*m, target),
            None => None,
        },
        Node::AwaitSignal { next, .. } => match next {
            Some(m) => find(*m, target),
            None => None,
        },
        Node::Fork { branches, join, .. } => match find_all(branches, branches.len(), target) {
            Some(x) => Some(x),
            None => match join {
                Some(m) => find(*m, target),
                None => None,
            },
        },
        Node::Branch { arms, default, next, .. } => match find_arms(arms, arms.len(), target) {
            Some(x) => Some(x),
            None => match (match default {
                Some(m) => find(*m, target),
                None => None,
            }) {
                Some(x) => Some(x),
                None => match next {
                    Some(m) => find(*m, target),
                    None => None,
                },
            },
        },
        Node::Loop { body, next, .. } => match find(*body, target) {
            Some(x) => Some(x),
            None => match next {
                Some(m) => find(*m, target),
                None => None,
            },
        },
        Node::ChildWorkflow { child, next, .. } => match find(*child, target) {
            Some(x) => Some(x),
            None => match next {
                Some(m) => find(*m, target),
                None => None,
            },
        },
    }
}

/// The first task node with an id among the first `k` trees of a list.
pub open spec fn find_all(s: Seq<Node>, k: nat, target: Seq<char>) -> Option<Node>
    decreases s, k,
{
    if k == 0 || k > s.len() {
        None
    } else {
        match find_all(s, (k - 1) as nat, target) {
            Some(x) => Some(x),
            None => find(s[k - 1], target),
        }
    }
}

/// The first task node with an id among the first `k` arms of a list.
pub open spec fn find_arms(s: Seq<(Seq<char>, Node)>, k: nat, target: Seq<char>) -> Option<Node>
    decreases s, k,
{
    if k == 0 || k > s.len() {
        None
    } else {
        match find_arms(s, (k - 1) as nat, target) {
            Some(x) => Some(x),
            None => find(s[k - 1].1, target),
        }
    }
}

/// A new value for one field of a task node.
pub enum Change {
    Timeout(Option<Duration>),
    Retry(Option<Retry>),
    Version(Option<Seq<char>>),
    Tags(Seq<Seq<char>>),
}

/// A task node with one field changed.
pub open spec fn applied(n: Node, c: Change) -> Node {
    match n {
        Node::Task { id, func, timeout, retry, version, priority, tags, next } => match c {
            Change::Timeout(t) => Node::Task {
                id,
                func,
                timeout: t,
                retry,
                version,
                priority,
                tags,
                next,
            },
            Change::Retry(r) => Node::Task {
                id,
                func,
                timeout,
                retry: r,
                version,
                priority,
                tags,
                next,
            },
            Change::Version(v) => Node::Task {
                id,
                func,
                timeout,
                retry,
                version: v,
                priority,
                tags,
                next,
            },
            Change::Tags(t) => Node::Task {
                id,
                func,
                timeout,
                retry,
                version,
                priority,
                tags: t,
                next,
            },
        },
        _ => n,
    }
}

/// The chain whose successor is changed, if the change finds its task there.
pub open spec fn changed_next(n: Node, target: Seq<char>, c: Change) -> Option<Node>
    decreases n, 1nat,
{
    match next_of(n) {
        Some(m) => match changed(*m, target, c) {
            Some(r) => Some(with_next(n, Some(Box::new(r)))),
            None => None,
        },
        None => None,
    }
}

/// The tree in which the first task with an id that may be changed is changed.
/// The branches of a fork and a child workflow are shared and stay as they are.
pub open spec fn changed(n: Node, target: Seq<char>, c: Change) -> Option<Node>
    decreases n, 2nat,
{
    match n {
        Node::Task { id, .. } => if id == target {
            Some(applied(n, c))
        } else {
            changed_next(n, target, c)
        },
        Node::Branch { id, key_fn, arms, default, next } => match changed_arms(
            arms,
            arms.len(),
            target,
            c,
        ) {
            Some(a) => Some(Node::Branch { id, key_fn, arms: a, default, next }),
            None => match (match default {
                Some(d) => changed(*d, target, c),
                None => None,
            }) {
                Some(d) => Some(
                    Node::Branch { id, key_fn, arms, default: Some(Box::new(d)), next },
                ),
                None => changed_next(n, target, c),
            },
        },
        Node::Loop { id, body, max_iterations, on_max, next } => match changed(*body, target, c) {
            Some(b) => Some(Node::Loop { id, body: Box::new(b), max_iterations, on_max, next }),
            None => changed_next(n, target, c),
        },
        _ => changed_next(n, target, c),
    }
}

/// The arms in which the first of the first `k` that holds the task is changed.
pub open spec fn changed_arms(
    s: Seq<(Seq<char>, Node)>,
    k: nat,
    target: Seq<char>,
    c: Change,
) -> Option<Seq<(Seq<char>, Node)>>
    decreases s, k,
{
    if k == 0 || k > s.len() {
        None
    } else {
        match changed_arms(s, (k - 1) as nat, target, c) {
            Some(r) => Some(r),
            None => match changed(s[k - 1].1, target, c) {
                Some(m) => Some(s.update(k - 1, (s[k - 1].0, m))),
                None => None,
            },
        }
    }
}

/// The span that a stored tree keeps of a span: its whole milliseconds.
pub open spec fn stored_span(d: Duration) -> Duration {
    duration::of_millis(duration::millis64(d))
}

/// The span that a stored tree keeps of an optional span.
pub open spec fn stored_opt_span(o: Option<Duration>) -> Option<Duration> {
    match o {
        Some(d) => Some(stored_span(d)),
        None => None,
    }
}

/// What is stored of a tree: everything but the task implementations, with
/// spans in whole milliseconds.
pub open spec fn stored(n: Node) -> Node
    decreases n,
{
    match n {
        Node::Task { id, func, timeout, retry, version, priority, tags, next } => Node::Task {
            id,
            func: None,
            timeout: stored_opt_span(timeout),
            retry,
            version,
            priority,
            tags,
            next: match next {
                Some(m) => Some(Box::new(stored(*m))),
                None => None,
            },
        },
        Node::Fork { id, branches, join } => Node::Fork {
            id,
            branches: Seq::new(
                branches.len(),
                |i: int|
                    if 0 <= i < branches.len() {
                        stored(branches[i])
                    } else {
                        branches[i]
                    },
            ),
            join: match join {
                Some(m) => Some(Box::new(stored(*m))),
                None => None,
            },
        },
        Node::Delay { id, duration, next } => Node::Delay {
            id,
            duration: stored_span(duration),
            next: match next {
                Some(m) => Some(Box::new(stored(*m))),
                None => None,
            },
        },
        Node::AwaitSignal { id, signal_name, timeout, next } => Node::AwaitSignal {
            id,
            signal_name,
            timeout: stored_opt_span(timeout),
            next: match next {
                Some(m) => Some(Box::new(stored(*m))),
                None => None,
            },
        },
        Node::Branch { id, key_fn, arms, default, next } => Node::Branch {
            id,
            key_fn: None,
            arms: Seq::new(
                arms.len(),
                |i: int|
                    if 0 <= i < arms.len() {
                        (arms[i].0, stored(arms[i].1))
                    } else {
                        arms[i]
                    },
            ),
            default: match default {
                Some(m) => Some(Box::new(stored(*m))),
                None => None,
            },
            next: match next {
                Some(m) => Some(Box::new(stored(*m))),
                None => None,
            },
        },
        Node::Loop { id, body, max_iterations, on_max, next } => Node::Loop {
            id,
            body: Box::new(stored(*body)),
            max_iterations,
            on_max,
            next: match next {
                Some(m) => Some(Box::new(stored(*m))),
                None => None,
            },
        },
        Node::ChildWorkflow { id, child, next } => Node::ChildWorkflow {
            id,
            child: Box::new(stored(*child)),
            next: match next {
                Some(m) => Some(Box::new(stored(*m))),
                None => None,
            },
        },
    }
}

/// The id under which the routing function of a branch node is registered.
pub open spec fn key_fn_text(branch_id: Seq<char>) -> Seq<char> {
    branch_id + "::key_fn"@
}

/// The optional tree with its tasks looked up, or the id that is missing.
pub open spec fn bound_opt(
    o: Option<Box<Node>>,
    reg: Map<Seq<char>, TaskHandle>,
) -> Result<Option<Box<Node>>, Seq<char>>
    decreases o, 0nat,
{
    match o {
        None => Ok(None),
        Some(m) => match bound(*m, reg) {
            Ok(r) => Ok(Some(Box::new(r))),
            Err(e) => Err(e),
        },
    }
}

/// The tree with the implementation of every task looked up, or the id of a task
/// that is missing. A task is looked up before what follows it; a join, a
/// default arm and a successor before the branches of their node.
pub open spec fn bound(n: Node, reg: Map<Seq<char>, TaskHandle>) -> Result<Node, Seq<char>>
    decreases n, 0nat,
{
    match n {
        Node::Task { id, func, timeout, retry, version, priority, tags, next } => if reg.dom().contains(
            id,
        ) {
            match bound_opt(next, reg) {
                Ok(m) => Ok(
                    Node::Task {
                        id,
                        func: Some(reg[id]),
                        timeout,
                        retry,
                        version,
                        priority,
                        tags,
                        next: m,
                    },
                ),
                Err(e) => Err(e),
            }
        } else {
            Err(id)
        },
        Node::Fork { id, branches, join } => match bound_opt(join, reg) {
            Err(e) => Err(e),
            Ok(j) => match bound_all(branches, branches.len(), reg) {
                Err(e) => Err(e),
                Ok(b) => Ok(Node::Fork { id, branches: b, join: j }),
            },
        },
        Node::Delay { id, duration, next } => match bound_opt(next, reg) {
            Ok(m) => Ok(Node::Delay { id, duration, next: m }),
            Err(e) => Err(e),
        },
        Node::AwaitSignal { id, signal_name, timeout, next } => match bound_opt(next, reg) {
            Ok(m) => Ok(Node::AwaitSignal { id, signal_name, timeout, next: m }),
            Err(e) => Err(e),
        },
        Node::Branch { id, key_fn, arms, default, next } => if reg.dom().contains(
            key_fn_text(id),
        ) {
            match bound_opt(default, reg) {
                Err(e) => Err(e),
                Ok(d) => match bound_opt(next, reg) {
                    Err(e) => Err(e),
                    Ok(m) => match bound_arms(arms, arms.len(), reg) {
                        Err(e) => Err(e),
                        Ok(a) => Ok(
                            Node::Branch {
                                id,
                                key_fn: Some(reg[key_fn_text(id)]),
                                arms: a,
                                default: d,
                                next: m,
                            },
                        ),
                    },
                },
            }
        } else {
            Err(key_fn_text(id))
        },
        Node::Loop { id, body, max_iterations, on_max, next } => match bound(*body, reg) {
            Err(e) => Err(e),
            Ok(b) => match bound_opt(next, reg) {
                Ok(m) => Ok(
                    Node::Loop { id, body: Box::new(b), max_iterations, on_max, next: m },
                ),
                Err(e) => Err(e),
            },
        },
        Node::ChildWorkflow { id, child, next } => match bound(*child, reg) {
            Err(e) => Err(e),
            Ok(c) => match bound_opt(next, reg) {
                Ok(m) => Ok(Node::ChildWorkflow { id, child: Box::new(c), next: m }),
                Err(e) => Err(e),
            },
        },
    }
}

/// The first `k` trees of a list with their tasks looked up.
pub open spec fn bound_all(s: Seq<Node>, k: nat, reg: Map<Seq<char>, TaskHandle>) -> Result<
    Seq<Node>,
    Seq<char>,
>
    decreases s, k,
{
    if k == 0 || k > s.len() {
        Ok(seq![])
    } else {
        match bound_all(s, (k - 1) as nat, reg) {
            Err(e) => Err(e),
            Ok(p) => match bound(s[k - 1], reg) {
                Err(e) => Err(e),
                Ok(m) => Ok(p.push(m)),
            },
        }
    }
}

/// The first `k` arms of a list with their tasks looked up.
pub open spec fn bound_arms(
    s: Seq<(Seq<char>, Node)>,
    k: nat,
    reg: Map<Seq<char>, TaskHandle>,
) -> Result<Seq<(Seq<char>, Node)>, Seq<char>>
    decreases s, k,
{
    if k == 0 || k > s.len() {
        Ok(seq![])
    } else {
        match bound_arms(s, (k - 1) as nat, reg) {
            Err(e) => Err(e),
            Ok(p) => match bound(s[k - 1].1, reg) {
                Err(e) => Err(e),
                Ok(m) => Ok(p.push((s[k - 1].0, m))),
            },
        }
    }
}

/// The canonical text of a policy.
pub open spec fn policy_text(p: MaxIterationsPolicy) -> Seq<char> {
    match p {
        MaxIterationsPolicy::Fail => "fail"@,
        MaxIterationsPolicy::ExitWithLast => "exit_with_last"@,
    }
}

/// The canonical text of an optional timeout.
pub open spec fn timeout_part(o: Option<Duration>) -> Seq<char> {
    match o {
        Some(d) => ":t:"@ + text::decimal(duration::millis64(d) as nat),
        None => seq![],
    }
}

/// The canonical text of an optional retry policy.
pub open spec fn retry_part(o: Option<Retry>) -> Seq<char> {
    match o {
        Some(p) => ":r:"@ + text::decimal(p.max_retries as nat) + ":"@ + text::decimal(
            duration::millis_of(p.initial_delay),
        ) + ":"@ + p.backoff_multiplier,
        None => seq![],
    }
}

/// The canonical text of an optional version.
pub open spec fn version_part(o: Option<Seq<char>>) -> Seq<char> {
    match o {
        Some(v) => ":v:"@ + v,
        None => seq![],
    }
}

/// The canonical text of a tree, which its definition hash is taken of. Task
/// implementations, priorities and tags have no part in it.
pub open spec fn canonical(n: Node) -> Seq<char>
    decreases n, 0nat,
{
    match n {
        Node::Task { id, timeout, retry, version, next, .. } => "T:"@ + id + timeout_part(timeout)
            + retry_part(retry) + version_part(version) + ";"@ + (match next {
            Some(m) => canonical(*m),
            None => seq![],
        }),
        Node::Fork { id, branches, join } => "F:"@ + id + "["@ + canonical_all(
            branches,
            branches.len(),
        ) + "]"@ + (match join {
            Some(m) => "J:"@ + canonical(*m),
            None => seq![],
        }),
        Node::Delay { id, duration, next } => "D:"@ + id + ":"@ + text::decimal(
            duration::millis64(duration) as nat,
        ) + ";"@ + (match next {
            Some(m) => canonical(*m),
            None => seq![],
        }),
        Node::AwaitSignal { id, signal_name, timeout, next } => "S:"@ + id + ":"@ + signal_name
            + timeout_part(timeout) + ";"@ + (match next {
            Some(m) => canonical(*m),
            None => seq![],
        }),
        Node::Branch { id, arms, default, next, .. } => "B:"@ + id + "{"@ + canonical_arms(
            arms,
            arms.len(),
        ) + "}"@ + (match default {
            Some(m) => "_=>"@ + canonical(*m),
            None => seq![],
        }) + ";"@ + (match next {
            Some(m) => canonical(*m),
            None => seq![],
        }),
        Node::Loop { id, body, max_iterations, on_max, next } => "L:"@ + id + ":"@ + text::decimal(
            max_iterations as nat,
        ) + ":"@ + policy_text(on_max) + "{"@ + canonical(*body) + "}"@ + ";"@ + (match next {
            Some(m) => canonical(*m),
            None => seq![],
        }),
        Node::ChildWorkflow { id, child, next } => "CW:"@ + id + "{"@ + canonical(*child) + "}"@
            + ";"@ + (match next {
            Some(m) => canonical(*m),
            None => seq![],
        }),
    }
}

/// The canonical text of the first `k` branches of a fork.
pub open spec fn canonical_all(s: Seq<Node>, k: nat) -> Seq<char>
    decreases s, k,
{
    if k == 0 || k > s.len() {
        seq![]
    } else {
        canonical_all(s, (k - 1) as nat) + canonical(s[k - 1]) + ","@
    }
}

/// The canonical text of the first `k` arms of a branch node.
pub open spec fn canonical_arms(s: Seq<(Seq<char>, Node)>, k: nat) -> Seq<char>
    decreases s, k,
{
    if k == 0 || k > s.len() {
        seq![]
    } else {
        canonical_arms(s, (k - 1) as nat) + s[k - 1].0 + "=>"@ + canonical(s[k - 1].1) + ","@
    }
}

/// What a walk over a tree reports of one node.
pub struct Info {
    pub id: Seq<char>,
    pub kind: NodeKind,
    pub predecessor: Option<Seq<char>>,
    pub timeout: Option<Duration>,
    pub retry: Option<Retry>,
    pub priority: Option<u8>,
    pub version: Option<Seq<char>>,
    pub tags: Seq<Seq<char>>,
}

/// What a walk reports of a node that it reaches from `predecessor`. A delay
/// reports its span as its timeout.
pub open spec fn info(n: Node, predecessor: Option<Seq<char>>) -> Info {
    match n {
        Node::Task { id, timeout, retry, priority, version, tags, .. } => Info {
            id,
            kind: NodeKind::Task,
            predecessor,
            timeout,
            retry,
            priority,
            version,
            tags,
        },
        _ => Info {
            id: id_of(n),
            kind: kind_of(n),
            predecessor,
            timeout: match n {
                Node::Delay { duration, .. } => Some(duration),
                Node::AwaitSignal { timeout, .. } => timeout,
                _ => None,
            },
            retry: None,
            priority: None,
            version: None,
            tags: seq![],
        },
    }
}

/// What a walk over an optional tree reports.
pub open spec fn infos_opt(o: Option<Box<Node>>, predecessor: Option<Seq<char>>) -> Seq<Info>
    decreases o, 0nat,
{
    match o {
        Some(m) => infos(*m, predecessor),
        None => seq![],
    }
}

/// What a walk over a tree reports, in preorder.
pub open spec fn infos(n: Node, predecessor: Option<Seq<char>>) -> Seq<Info>
    decreases n, 1nat,
{
    seq![info(n, predecessor)] + children_infos(n)
}

/// What a walk reports below a node. The node is the predecessor of each of its
/// children.
pub open spec fn children_infos(n: Node) -> Seq<Info>
    decreases n, 0nat,
{
    let p = Some(id_of(n));
    match n {
        Node::Task { next, .. } => infos_opt(next, p),
        Node::Delay { next, .. } => infos_opt(next, p),
        Node::AwaitSignal { next, .. } => infos_opt(next, p),
        Node::Fork { branches, join, .. } => infos_all(branches, branches.len(), p) + infos_opt(
            join,
            p,
        ),
        Node::Branch { arms, default, next, .. } => infos_arms(arms, arms.len(), p) + infos_opt(
            default,
            p,
        ) + infos_opt(next, p),
        Node::Loop { body, next, .. } => infos(*body, p) + infos_opt(next, p),
        Node::ChildWorkflow { child, next, .. } => infos(*child, p) + infos_opt(next, p),
    }
}

/// What a walk over the first `k` trees of a list reports.
pub open spec fn infos_all(s: Seq<Node>, k: nat, predecessor: Option<Seq<char>>) -> Seq<Info>
    decreases s, k,
{
    if k == 0 || k > s.len() {
        seq![]
    } else {
        infos_all(s, (k - 1) as nat, predecessor) + infos(s[k - 1], predecessor)
    }
}

/// What a walk over the first `k` arms of a list reports.
pub open spec fn infos_arms(
    s: Seq<(Seq<char>, Node)>,
    k: nat,
    predecessor: Option<Seq<char>>,
) -> Seq<Info>
    decreases s, k,
{
    if k == 0 || k > s.len() {
        seq![]
    } else {
        infos_arms(s, (k - 1) as nat, predecessor) + infos(s[k - 1].1, predecessor)
    }
}

} // verus!
