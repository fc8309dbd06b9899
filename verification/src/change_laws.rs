//! Laws of changes to one task of a tree.
use crate::continuation;
use crate::task::TaskHandle;
use crate::laws;
use crate::tree;
use crate::tree::{Change, Node};
use vstd::prelude::*;

verus! {

/// The ids of an optional tree.
pub open spec fn opt_ids(o: Option<Box<Node>>) -> Seq<Seq<char>> {
    match o {
        Some(m) => tree::ids(*m),
        None => seq![],
    }
}

/// The ids of what is inside of a node: its branches, arms, body or child.
pub open spec fn inner_ids(n: Node) -> Seq<Seq<char>> {
    match n {
        Node::Fork { branches, .. } => tree::ids_all(branches, branches.len()),
        Node::Branch { arms, default, .. } => tree::ids_arms(arms, arms.len()) + opt_ids(default),
        Node::Loop { body, .. } => tree::ids(*body),
        Node::ChildWorkflow { child, .. } => tree::ids(*child),
        _ => seq![],
    }
}

/// The ids of a tree are that of its node, those inside of it, and those after it.
proof fn lemma_ids(n: Node)
    ensures
        tree::ids(n) == seq![tree::id_of(n)] + inner_ids(n) + opt_ids(tree::next_of(n)),
{
    let none = Seq::<Seq<char>>::empty();
    let id = seq![tree::id_of(n)];
    assert(id + none =~= id);
    if let Node::Branch { arms, default, .. } = n {
        assert(tree::ids(n) =~= id + (tree::ids_arms(arms, arms.len()) + opt_ids(default))
            + opt_ids(tree::next_of(n)));
    }
}

proof fn lemma_change_next_keeps_ids(n: Node, target: Seq<char>, c: Change)
    ensures
        tree::changed_next(n, target, c) matches Some(m) ==> tree::ids(m) == tree::ids(n),
    decreases n, 1nat,
{
    if let Some(k) = tree::next_of(n) {
        if let Some(r) = tree::changed(*k, target, c) {
            lemma_change_keeps_ids(*k, target, c);
            let m = tree::with_next(n, Some(Box::new(r)));
            lemma_ids(n);
            lemma_ids(m);
        }
    }
}

proof fn lemma_change_keeps_ids(n: Node, target: Seq<char>, c: Change)
    ensures
        tree::changed(n, target, c) matches Some(m) ==> tree::ids(m) == tree::ids(n),
    decreases n, 2nat,
{
    lemma_change_next_keeps_ids(n, target, c);
    match n {
        Node::Task { id, .. } => {
            if id == target {
                lemma_ids(n);
                lemma_ids(tree::applied(n, c));
            }
        },
        Node::Branch { arms, default, .. } => {
            lemma_change_arms_keeps_ids(arms, arms.len(), target, c);
            if let Some(d) = default {
                lemma_change_keeps_ids(*d, target, c);
            }
            if let Some(m) = tree::changed(n, target, c) {
                lemma_ids(n);
                lemma_ids(m);
            }
        },
        Node::Loop { body, .. } => {
            lemma_change_keeps_ids(*body, target, c);
            if let Some(m) = tree::changed(n, target, c) {
                lemma_ids(n);
                lemma_ids(m);
            }
        },
        _ => {},
    }
}

proof fn lemma_ids_arms_same(a: Seq<(Seq<char>, Node)>, b: Seq<(Seq<char>, Node)>, k: nat)
    requires
        k <= a.len(),
        a.len() == b.len(),
        forall|i: int| 0 <= i < k ==> tree::ids((#[trigger] a[i]).1) == tree::ids(b[i].1),
    ensures
        tree::ids_arms(a, k) == tree::ids_arms(b, k),
    decreases k,
{
    if k > 0 {
        lemma_ids_arms_same(a, b, (k - 1) as nat);
        assert(tree::ids(a[k - 1].1) == tree::ids(b[k - 1].1));
    }
}

proof fn lemma_change_arms_keeps_ids(
    s: Seq<(Seq<char>, Node)>,
    k: nat,
    target: Seq<char>,
    c: Change,
)
    requires
        k <= s.len(),
    ensures
        tree::changed_arms(s, k, target, c) matches Some(r) ==> r.len() == s.len()
            && tree::ids_arms(r, s.len()) == tree::ids_arms(s, s.len()),
    decreases s, k,
{
    if k > 0 {
        lemma_change_arms_keeps_ids(s, (k - 1) as nat, target, c);
        if tree::changed_arms(s, (k - 1) as nat, target, c) is None {
            lemma_change_keeps_ids(s[k - 1].1, target, c);
            if let Some(m) = tree::changed(s[k - 1].1, target, c) {
                let r = s.update(k - 1, (s[k - 1].0, m));
                lemma_ids_arms_same(r, s, s.len());
            }
        }
    }
}

/// Setting the timeout, the retry policy, the version or the tags of a task keeps the ids
/// of the tree.
pub proof fn law_change_keeps_ids(n: Node, target: Seq<char>, c: Change)
    ensures
        tree::ids(continuation::after_change(n, target, c)) == tree::ids(n),
{
    lemma_change_keeps_ids(n, target, c);
}

/// A text that a list holds once is in one of its two parts only.
proof fn lemma_parts(a: Seq<Seq<char>>, b: Seq<Seq<char>>)
    requires
        (a + b).no_duplicates(),
    ensures
        a.no_duplicates(),
        b.no_duplicates(),
        forall|t: Seq<char>| #[trigger] a.contains(t) ==> !b.contains(t),
{
    let s = a + b;
    assert forall|i: int, j: int| 0 <= i < a.len() && 0 <= j < a.len() && i != j implies a[i]
        != a[j] by {
        assert(s[i] != s[j]);
    }
    assert forall|i: int, j: int| 0 <= i < b.len() && 0 <= j < b.len() && i != j implies b[i]
        != b[j] by {
        assert(s[a.len() + i] != s[a.len() + j]);
    }
    assert forall|t: Seq<char>| #[trigger] a.contains(t) implies !b.contains(t) by {
        if b.contains(t) {
            let i = choose|i: int| 0 <= i < a.len() && a[i] == t;
            let j = choose|j: int| 0 <= j < b.len() && b[j] == t;
            assert(s[i] != s[a.len() + j]);
        }
    }
}

proof fn lemma_contains(a: Seq<Seq<char>>, b: Seq<Seq<char>>, t: Seq<char>)
    ensures
        (a + b).contains(t) <==> a.contains(t) || b.contains(t),
{
    let s = a + b;
    if a.contains(t) {
        let i = choose|i: int| 0 <= i < a.len() && a[i] == t;
        assert(s[i] == t);
    }
    if b.contains(t) {
        let j = choose|j: int| 0 <= j < b.len() && b[j] == t;
        assert(s[a.len() + j] == t);
    }
    if s.contains(t) {
        let i = choose|i: int| 0 <= i < s.len() && s[i] == t;
        if i < a.len() {
            assert(a[i] == t);
        } else {
            assert(b[i - a.len()] == t);
        }
    }
}

/// The parts of the ids of a tree are without repetition where the whole is.
proof fn lemma_unique(n: Node)
    requires
        tree::ids(n).no_duplicates(),
    ensures
        inner_ids(n).no_duplicates(),
        opt_ids(tree::next_of(n)).no_duplicates(),
        forall|t: Seq<char>|
            #[trigger] opt_ids(tree::next_of(n)).contains(t) ==> !inner_ids(n).contains(t) && t
                != tree::id_of(n),
        forall|t: Seq<char>| #[trigger] inner_ids(n).contains(t) ==> t != tree::id_of(n),
{
    lemma_ids(n);
    let id = seq![tree::id_of(n)];
    let next = opt_ids(tree::next_of(n));
    lemma_parts(id + inner_ids(n), next);
    lemma_parts(id, inner_ids(n));
    assert(id[0] == tree::id_of(n));
    assert(id.contains(tree::id_of(n)));
    assert forall|t: Seq<char>| #[trigger] next.contains(t) implies !inner_ids(n).contains(t) && t
        != tree::id_of(n) by {
        lemma_contains(id, inner_ids(n), t);
    }
}

/// The task that is found has one of the ids of the tree.
proof fn lemma_found_is_there(n: Node, t: Seq<char>)
    ensures
        tree::find(n, t) is Some ==> tree::ids(n).contains(t),
    decreases n, 0nat,
{
    lemma_ids(n);
    let id = seq![tree::id_of(n)];
    let next = opt_ids(tree::next_of(n));
    assert(id[0] == tree::id_of(n));
    lemma_contains(id + inner_ids(n), next, t);
    lemma_contains(id, inner_ids(n), t);
    if let Some(m) = tree::next_of(n) {
        lemma_found_is_there(*m, t);
    }
    match n {
        Node::Fork { branches, .. } => {
            lemma_found_in_all(branches, branches.len(), t);
        },
        Node::Branch { arms, default, .. } => {
            lemma_found_in_arms(arms, arms.len(), t);
            lemma_contains(tree::ids_arms(arms, arms.len()), opt_ids(default), t);
            if let Some(d) = default {
                lemma_found_is_there(*d, t);
            }
        },
        Node::Loop { body, .. } => {
            lemma_found_is_there(*body, t);
        },
        Node::ChildWorkflow { child, .. } => {
            lemma_found_is_there(*child, t);
        },
        _ => {},
    }
}

proof fn lemma_found_in_all(s: Seq<Node>, k: nat, t: Seq<char>)
    requires
        k <= s.len(),
    ensures
        tree::find_all(s, k, t) is Some ==> tree::ids_all(s, k).contains(t),
    decreases s, k,
{
    if k > 0 {
        lemma_found_in_all(s, (k - 1) as nat, t);
        lemma_found_is_there(s[k - 1], t);
        lemma_contains(tree::ids_all(s, (k - 1) as nat), tree::ids(s[k - 1]), t);
    }
}

proof fn lemma_found_in_arms(s: Seq<(Seq<char>, Node)>, k: nat, t: Seq<char>)
    requires
        k <= s.len(),
    ensures
        tree::find_arms(s, k, t) is Some ==> tree::ids_arms(s, k).contains(t),
    decreases s, k,
{
    if k > 0 {
        lemma_found_in_arms(s, (k - 1) as nat, t);
        lemma_found_is_there(s[k - 1].1, t);
        lemma_contains(tree::ids_arms(s, (k - 1) as nat), tree::ids(s[k - 1].1), t);
    }
}

/// What is found in a tree after a change is the task that was found before, with the
/// change.
spec fn found_changed(n: Node, m: Node, t: Seq<char>, c: Change) -> bool {
    &&& tree::find(n, t) is Some
    &&& tree::find(m, t) == Some(tree::applied(tree::find(n, t)->0, c))
}

/// What is found after the node, where nothing is found in it.
proof fn lemma_find_next(n: Node, t: Seq<char>)
    requires
        tree::id_of(n) != t,
        !inner_ids(n).contains(t),
    ensures
        tree::find(n, t) == (match tree::next_of(n) {
            Some(m) => tree::find(*m, t),
            None => None,
        }),
{
    match n {
        Node::Fork { branches, .. } => {
            lemma_found_in_all(branches, branches.len(), t);
        },
        Node::Branch { arms, default, .. } => {
            lemma_found_in_arms(arms, arms.len(), t);
            lemma_contains(tree::ids_arms(arms, arms.len()), opt_ids(default), t);
            if let Some(d) = default {
                lemma_found_is_there(*d, t);
            }
        },
        Node::Loop { body, .. } => {
            lemma_found_is_there(*body, t);
        },
        Node::ChildWorkflow { child, .. } => {
            lemma_found_is_there(*child, t);
        },
        _ => {},
    }
}

proof fn lemma_set_next_then_find(n: Node, t: Seq<char>, c: Change)
    requires
        tree::ids(n).no_duplicates(),
    ensures
        tree::changed_next(n, t, c) matches Some(m) ==> found_changed(n, m, t, c),
    decreases n, 1nat,
{
    lemma_unique(n);
    if let Some(k) = tree::next_of(n) {
        lemma_set_then_find(*k, t, c);
        if let Some(r) = tree::changed(*k, t, c) {
            let m = tree::with_next(n, Some(Box::new(r)));
            lemma_found_is_there(*k, t);
            assert(opt_ids(tree::next_of(n)).contains(t));
            lemma_find_next(n, t);
            assert(inner_ids(m) == inner_ids(n));
            assert(tree::id_of(m) == tree::id_of(n));
            lemma_find_next(m, t);
        }
    }
}

proof fn lemma_set_then_find(n: Node, t: Seq<char>, c: Change)
    requires
        tree::ids(n).no_duplicates(),
    ensures
        tree::changed(n, t, c) matches Some(m) ==> found_changed(n, m, t, c),
    decreases n, 2nat,
{
    lemma_unique(n);
    lemma_set_next_then_find(n, t, c);
    match n {
        Node::Branch { arms, default, .. } => {
            lemma_parts(tree::ids_arms(arms, arms.len()), opt_ids(default));
            lemma_set_arms_then_find(arms, arms.len(), t, c);
            lemma_found_in_arms(arms, arms.len(), t);
            if let Some(d) = default {
                lemma_set_then_find(*d, t, c);
                lemma_found_is_there(*d, t);
            }
        },
        Node::Loop { body, .. } => {
            lemma_set_then_find(*body, t, c);
        },
        _ => {},
    }
}

/// What is found among arms, where one after the first `k` is changed and the id is not
/// among them.
proof fn lemma_find_arms_before(
    s: Seq<(Seq<char>, Node)>,
    r: Seq<(Seq<char>, Node)>,
    k: nat,
    t: Seq<char>,
)
    requires
        k <= s.len(),
        r.len() == s.len(),
        forall|i: int| 0 <= i < k ==> #[trigger] r[i] == s[i],
    ensures
        tree::find_arms(r, k, t) == tree::find_arms(s, k, t),
    decreases k,
{
    if k > 0 {
        lemma_find_arms_before(s, r, (k - 1) as nat, t);
    }
}

/// What is found among the first arms is found among all.
proof fn lemma_find_arms_grows(s: Seq<(Seq<char>, Node)>, i: nat, k: nat, t: Seq<char>)
    requires
        i <= k <= s.len(),
        tree::find_arms(s, i, t) is Some,
    ensures
        tree::find_arms(s, k, t) == tree::find_arms(s, i, t),
    decreases k,
{
    if i < k {
        lemma_find_arms_grows(s, i, (k - 1) as nat, t);
    }
}

proof fn lemma_ids_arms_unique(s: Seq<(Seq<char>, Node)>, i: nat, k: nat)
    requires
        i <= k <= s.len(),
        tree::ids_arms(s, k).no_duplicates(),
    ensures
        tree::ids_arms(s, i).no_duplicates(),
    decreases k,
{
    if i < k {
        lemma_parts(tree::ids_arms(s, (k - 1) as nat), tree::ids(s[k - 1].1));
        lemma_ids_arms_unique(s, i, (k - 1) as nat);
    }
}

proof fn lemma_set_arms_then_find(s: Seq<(Seq<char>, Node)>, k: nat, t: Seq<char>, c: Change)
    requires
        k <= s.len(),
        tree::ids_arms(s, s.len()).no_duplicates(),
    ensures
        tree::changed_arms(s, k, t, c) matches Some(r) ==> {
            &&& tree::find_arms(s, s.len(), t) is Some
            &&& tree::find_arms(r, r.len(), t) == Some(
                tree::applied(tree::find_arms(s, s.len(), t)->0, c),
            )
        },
    decreases s, k,
{
    if k > 0 {
        lemma_set_arms_then_find(s, (k - 1) as nat, t, c);
        if tree::changed_arms(s, (k - 1) as nat, t, c) is None {
            lemma_ids_arms_unique(s, k, s.len());
            let before = tree::ids_arms(s, (k - 1) as nat);
            lemma_parts(before, tree::ids(s[k - 1].1));
            lemma_set_then_find(s[k - 1].1, t, c);
            if let Some(m) = tree::changed(s[k - 1].1, t, c) {
                let r = s.update(k - 1, (s[k - 1].0, m));
                lemma_found_is_there(s[k - 1].1, t);
                lemma_found_in_arms(s, (k - 1) as nat, t);
                lemma_find_arms_before(s, r, (k - 1) as nat, t);
                lemma_find_arms_grows(s, k, s.len(), t);
                lemma_find_arms_grows(r, k, s.len(), t);
            }
        }
    }
}

/// In a tree without repeated ids, what is set of a task is read back: the task that is
/// found afterwards is the one that was found before, with the new value. Tasks in the
/// branches of a fork and in a child workflow are shared, and are not changed.
pub proof fn law_set_is_read_back(n: Node, target: Seq<char>, c: Change)
    requires
        tree::ids(n).no_duplicates(),
        tree::changed(n, target, c) is Some,
    ensures
        tree::find(n, target) is Some,
        tree::find(continuation::after_change(n, target, c), target) == Some(
            tree::applied(tree::find(n, target)->0, c),
        ),
{
    lemma_set_then_find(n, target, c);
}

proof fn lemma_change_next_registered(
    n: Node,
    t: Seq<char>,
    c: Change,
    reg: Map<Seq<char>, TaskHandle>,
)
    requires
        laws::registered(n, reg),
    ensures
        tree::changed_next(n, t, c) matches Some(m) ==> laws::registered(m, reg),
    decreases n, 1nat,
{
    if let Some(k) = tree::next_of(n) {
        lemma_change_registered(*k, t, c, reg);
        if let Some(r) = tree::changed(*k, t, c) {
            assert(laws::registered(tree::with_next(n, Some(Box::new(r))), reg));
        }
    }
}

/// A change leaves a registered tree registered.
pub proof fn lemma_change_registered(
    n: Node,
    t: Seq<char>,
    c: Change,
    reg: Map<Seq<char>, TaskHandle>,
)
    requires
        laws::registered(n, reg),
    ensures
        tree::changed(n, t, c) matches Some(m) ==> laws::registered(m, reg),
    decreases n, 2nat,
{
    lemma_change_next_registered(n, t, c, reg);
    match n {
        Node::Task { id, .. } => {
            if id == t {
                assert(laws::registered(tree::applied(n, c), reg));
            }
        },
        Node::Branch { id, key_fn, arms, default, next } => {
            lemma_change_arms_registered(arms, arms.len(), t, c, reg);
            if let Some(a) = tree::changed_arms(arms, arms.len(), t, c) {
                assert(laws::registered(Node::Branch { id, key_fn, arms: a, default, next }, reg));
            }
            if let Some(d) = default {
                lemma_change_registered(*d, t, c, reg);
                if let Some(r) = tree::changed(*d, t, c) {
                    assert(laws::registered(
                        Node::Branch { id, key_fn, arms, default: Some(Box::new(r)), next },
                        reg,
                    ));
                }
            }
        },
        Node::Loop { id, body, max_iterations, on_max, next } => {
            lemma_change_registered(*body, t, c, reg);
            if let Some(r) = tree::changed(*body, t, c) {
                assert(laws::registered(
                    Node::Loop { id, body: Box::new(r), max_iterations, on_max, next },
                    reg,
                ));
            }
        },
        _ => {},
    }
}

proof fn lemma_change_arms_registered(
    s: Seq<(Seq<char>, Node)>,
    k: nat,
    t: Seq<char>,
    c: Change,
    reg: Map<Seq<char>, TaskHandle>,
)
    requires
        k <= s.len(),
        forall|i: int| 0 <= i < s.len() ==> laws::registered((#[trigger] s[i]).1, reg),
    ensures
        tree::changed_arms(s, k, t, c) matches Some(r) ==> r.len() == s.len() && forall|i: int|
            0 <= i < s.len() ==> laws::registered((#[trigger] r[i]).1, reg),
    decreases s, k,
{
    if k > 0 {
        lemma_change_arms_registered(s, (k - 1) as nat, t, c, reg);
        lemma_change_registered(s[k - 1].1, t, c, reg);
    }
}

} // verus!
