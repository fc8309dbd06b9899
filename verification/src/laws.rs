//! Laws of workflow trees.
use crate::stored;
use crate::task::TaskHandle;
use crate::tree;
use crate::tree::{Info, Node};
use vstd::prelude::*;

verus! {

/// A tree has no repeated id exactly if its ids, in preorder, are pairwise different.
pub proof fn law_duplicate_iff_not_unique(n: Node)
    ensures
        tree::duplicate_id(n) is None <==> tree::ids(n).no_duplicates(),
        tree::duplicate_id(n) matches Some(d) ==> tree::ids(n).contains(d),
{
    lemma_repeat(tree::ids(n), tree::ids(n).len());
    assert(tree::ids(n).take(tree::ids(n).len() as int) =~= tree::ids(n));
}

proof fn lemma_repeat(s: Seq<Seq<char>>, k: nat)
    requires
        k <= s.len(),
    ensures
        tree::first_repeat(s, k) is None <==> s.take(k as int).no_duplicates(),
        tree::first_repeat(s, k) matches Some(d) ==> s.contains(d),
    decreases k,
{
    if k > 0 {
        lemma_repeat(s, (k - 1) as nat);
        let t = s.take(k - 1);
        let u = s.take(k as int);
        assert(u =~= t.push(s[k - 1]));
        if t.no_duplicates() && !t.contains(s[k - 1]) {
            assert forall|i: int, j: int| 0 <= i < u.len() && 0 <= j < u.len() && i != j implies u[i]
                != u[j] by {
                if i < k - 1 && j < k - 1 {
                    assert(t[i] != t[j]);
                } else if i == k - 1 {
                    assert(t[j] != s[k - 1]);
                } else {
                    assert(t[i] != s[k - 1]);
                }
            }
        } else if t.contains(s[k - 1]) {
            let i = choose|i: int| 0 <= i < t.len() && t[i] == s[k - 1];
            assert(u[i] == u[k - 1]);
        } else {
            assert(!t.no_duplicates());
            let (i, j) = choose|i: int, j: int|
                0 <= i < t.len() && 0 <= j < t.len() && i != j && t[i] == t[j];
            assert(u[i] == u[j]);
        }
    }
}

/// What is stored of a tree has the ids of the tree.
pub proof fn law_stored_keeps_ids(n: Node)
    ensures
        tree::ids(tree::stored(n)) == tree::ids(n),
    decreases n, 0nat,
{
    let o = tree::next_of(n);
    if let Some(m) = o {
        law_stored_keeps_ids(*m);
    }
    match n {
        Node::Fork { branches, .. } => {
            lemma_stored_ids_all(branches, tree::stored(n)->Fork_branches, branches.len());
        },
        Node::Branch { arms, default, .. } => {
            lemma_stored_ids_arms(arms, tree::stored(n)->arms, arms.len());
            if let Some(d) = default {
                law_stored_keeps_ids(*d);
            }
        },
        Node::Loop { body, .. } => {
            law_stored_keeps_ids(*body);
        },
        Node::ChildWorkflow { child, .. } => {
            law_stored_keeps_ids(*child);
        },
        _ => {},
    }
}

proof fn lemma_stored_ids_all(s: Seq<Node>, t: Seq<Node>, k: nat)
    requires
        k <= s.len() == t.len(),
        forall|i: int| 0 <= i < s.len() ==> #[trigger] t[i] == tree::stored(s[i]),
    ensures
        tree::ids_all(t, k) == tree::ids_all(s, k),
    decreases s, k,
{
    if k > 0 {
        lemma_stored_ids_all(s, t, (k - 1) as nat);
        law_stored_keeps_ids(s[k - 1]);
        assert(t[k - 1] == tree::stored(s[k - 1]));
    }
}

proof fn lemma_stored_ids_arms(s: Seq<(Seq<char>, Node)>, t: Seq<(Seq<char>, Node)>, k: nat)
    requires
        k <= s.len() == t.len(),
        forall|i: int| 0 <= i < s.len() ==> #[trigger] t[i] == (s[i].0, tree::stored(s[i].1)),
    ensures
        tree::ids_arms(t, k) == tree::ids_arms(s, k),
    decreases s, k,
{
    if k > 0 {
        lemma_stored_ids_arms(s, t, (k - 1) as nat);
        law_stored_keeps_ids(s[k - 1].1);
        assert(t[k - 1] == (s[k - 1].0, tree::stored(s[k - 1].1)));
    }
}

/// What is stored of a tree has the definition hash of the tree: task
/// implementations and spans below a millisecond have no part in it.
pub proof fn law_stored_keeps_hash(n: Node)
    ensures
        tree::canonical(tree::stored(n)) == tree::canonical(n),
        stored::definition_hash(tree::stored(n)) == stored::definition_hash(n),
    decreases n, 0nat,
{
    let o = tree::next_of(n);
    if let Some(m) = o {
        law_stored_keeps_hash(*m);
    }
    match n {
        Node::Task { timeout, .. } => {
            if let Some(d) = timeout {
                crate::duration::law_millis_round_trip(crate::duration::millis64(d));
            }
        },
        Node::AwaitSignal { timeout, .. } => {
            if let Some(d) = timeout {
                crate::duration::law_millis_round_trip(crate::duration::millis64(d));
            }
        },
        Node::Delay { duration, .. } => {
            crate::duration::law_millis_round_trip(crate::duration::millis64(duration));
        },
        Node::Fork { branches, .. } => {
            lemma_stored_hash_all(branches, tree::stored(n)->Fork_branches, branches.len());
        },
        Node::Branch { arms, default, .. } => {
            lemma_stored_hash_arms(arms, tree::stored(n)->arms, arms.len());
            if let Some(d) = default {
                law_stored_keeps_hash(*d);
            }
        },
        Node::Loop { body, .. } => {
            law_stored_keeps_hash(*body);
        },
        Node::ChildWorkflow { child, .. } => {
            law_stored_keeps_hash(*child);
        },
    }
}

proof fn lemma_stored_hash_all(s: Seq<Node>, t: Seq<Node>, k: nat)
    requires
        k <= s.len() == t.len(),
        forall|i: int| 0 <= i < s.len() ==> #[trigger] t[i] == tree::stored(s[i]),
    ensures
        tree::canonical_all(t, k) == tree::canonical_all(s, k),
    decreases s, k,
{
    if k > 0 {
        lemma_stored_hash_all(s, t, (k - 1) as nat);
        law_stored_keeps_hash(s[k - 1]);
        assert(t[k - 1] == tree::stored(s[k - 1]));
    }
}

proof fn lemma_stored_hash_arms(s: Seq<(Seq<char>, Node)>, t: Seq<(Seq<char>, Node)>, k: nat)
    requires
        k <= s.len() == t.len(),
        forall|i: int| 0 <= i < s.len() ==> #[trigger] t[i] == (s[i].0, tree::stored(s[i].1)),
    ensures
        tree::canonical_arms(t, k) == tree::canonical_arms(s, k),
    decreases s, k,
{
    if k > 0 {
        lemma_stored_hash_arms(s, t, (k - 1) as nat);
        law_stored_keeps_hash(s[k - 1].1);
        assert(t[k - 1] == (s[k - 1].0, tree::stored(s[k - 1].1)));
    }
}

/// Storing is idempotent.
pub proof fn law_stored_twice(n: Node)
    ensures
        tree::stored(tree::stored(n)) == tree::stored(n),
    decreases n,
{
    let s = tree::stored(n);
    let o = tree::next_of(n);
    if let Some(m) = o {
        law_stored_twice(*m);
    }
    match n {
        Node::Task { timeout, .. } => {
            if let Some(d) = timeout {
                crate::duration::law_millis_round_trip(crate::duration::millis64(d));
            }
        },
        Node::AwaitSignal { timeout, .. } => {
            if let Some(d) = timeout {
                crate::duration::law_millis_round_trip(crate::duration::millis64(d));
            }
        },
        Node::Delay { duration, .. } => {
            crate::duration::law_millis_round_trip(crate::duration::millis64(duration));
        },
        Node::Fork { branches, .. } => {
            assert forall|i: int| 0 <= i < branches.len() implies tree::stored(
                #[trigger] s->Fork_branches[i],
            ) == s->Fork_branches[i] by {
                law_stored_twice(branches[i]);
            }
            assert(tree::stored(s)->Fork_branches =~= s->Fork_branches);
        },
        Node::Branch { arms, default, .. } => {
            assert forall|i: int| 0 <= i < arms.len() implies tree::stored(
                (#[trigger] s->arms[i]).1,
            ) == s->arms[i].1 by {
                law_stored_twice(arms[i].1);
            }
            assert(tree::stored(s)->arms =~= s->arms);
            if let Some(d) = default {
                law_stored_twice(*d);
            }
        },
        Node::Loop { body, .. } => {
            law_stored_twice(*body);
        },
        Node::ChildWorkflow { child, .. } => {
            law_stored_twice(*child);
        },
    }
}

/// Rehydrating changes nothing but the task implementations: what is stored of
/// the rehydrated tree is what is stored of the tree it was made of. In
/// particular its ids and its definition hash are the same.
pub proof fn law_rehydrated_stores_back(n: Node, reg: Map<Seq<char>, TaskHandle>)
    requires
        tree::bound(n, reg) is Ok,
    ensures
        tree::stored(tree::bound(n, reg)->Ok_0) == tree::stored(n),
        tree::ids(tree::bound(n, reg)->Ok_0) == tree::ids(n),
        stored::definition_hash(tree::bound(n, reg)->Ok_0) == stored::definition_hash(n),
    decreases n, 1nat,
{
    lemma_bound_stored(n, reg);
    let m = tree::bound(n, reg)->Ok_0;
    law_stored_keeps_ids(m);
    law_stored_keeps_ids(n);
    law_stored_keeps_hash(m);
    law_stored_keeps_hash(n);
}

proof fn lemma_bound_opt_stored(o: Option<Box<Node>>, reg: Map<Seq<char>, TaskHandle>)
    requires
        tree::bound_opt(o, reg) is Ok,
    ensures
        (match tree::bound_opt(o, reg)->Ok_0 {
            Some(m) => Some(tree::stored(*m)),
            None => None,
        }) == (match o {
            Some(m) => Some(tree::stored(*m)),
            None => None,
        }),
    decreases o, 0nat,
{
    if let Some(m) = o {
        lemma_bound_stored(*m, reg);
    }
}

proof fn lemma_bound_stored(n: Node, reg: Map<Seq<char>, TaskHandle>)
    requires
        tree::bound(n, reg) is Ok,
    ensures
        tree::stored(tree::bound(n, reg)->Ok_0) == tree::stored(n),
    decreases n, 0nat,
{
    let m = tree::bound(n, reg)->Ok_0;
    lemma_bound_opt_stored(tree::next_of(n), reg);
    match n {
        Node::Fork { branches, .. } => {
            lemma_bound_all_stored(branches, branches.len(), reg);
            assert(tree::stored(m)->Fork_branches =~= tree::stored(n)->Fork_branches);
        },
        Node::Branch { arms, default, .. } => {
            lemma_bound_opt_stored(default, reg);
            lemma_bound_arms_stored(arms, arms.len(), reg);
            assert(tree::stored(m)->arms =~= tree::stored(n)->arms);
        },
        Node::Loop { body, .. } => {
            lemma_bound_stored(*body, reg);
        },
        Node::ChildWorkflow { child, .. } => {
            lemma_bound_stored(*child, reg);
        },
        _ => {},
    }
}

proof fn lemma_bound_all_stored(s: Seq<Node>, k: nat, reg: Map<Seq<char>, TaskHandle>)
    requires
        k <= s.len(),
        tree::bound_all(s, k, reg) is Ok,
    ensures
        tree::bound_all(s, k, reg)->Ok_0.len() == k,
        forall|i: int|
            0 <= i < k ==> tree::stored(#[trigger] tree::bound_all(s, k, reg)->Ok_0[i])
                == tree::stored(s[i]),
    decreases s, k,
{
    if k > 0 {
        lemma_bound_all_stored(s, (k - 1) as nat, reg);
        lemma_bound_stored(s[k - 1], reg);
    }
}

proof fn lemma_bound_arms_stored(
    s: Seq<(Seq<char>, Node)>,
    k: nat,
    reg: Map<Seq<char>, TaskHandle>,
)
    requires
        k <= s.len(),
        tree::bound_arms(s, k, reg) is Ok,
    ensures
        tree::bound_arms(s, k, reg)->Ok_0.len() == k,
        forall|i: int|
            0 <= i < k ==> (#[trigger] tree::bound_arms(s, k, reg)->Ok_0[i]).0 == s[i].0
                && tree::stored(tree::bound_arms(s, k, reg)->Ok_0[i].1) == tree::stored(s[i].1),
    decreases s, k,
{
    if k > 0 {
        lemma_bound_arms_stored(s, (k - 1) as nat, reg);
        lemma_bound_stored(s[k - 1].1, reg);
    }
}

/// Everything that a tree looks up is registered.
pub open spec fn registered(n: Node, reg: Map<Seq<char>, TaskHandle>) -> bool
    decreases n,
{
    &&& match tree::next_of(n) {
        Some(m) => registered(*m, reg),
        None => true,
    }
    &&& match n {
        Node::Task { id, .. } => reg.dom().contains(id),
        Node::Fork { branches, .. } => forall|i: int|
            0 <= i < branches.len() ==> registered(#[trigger] branches[i], reg),
        Node::Branch { id, arms, default, .. } => {
            &&& reg.dom().contains(tree::key_fn_text(id))
            &&& forall|i: int| 0 <= i < arms.len() ==> registered((#[trigger] arms[i]).1, reg)
            &&& match default {
                Some(m) => registered(*m, reg),
                None => true,
            }
        },
        Node::Loop { body, .. } => registered(*body, reg),
        Node::ChildWorkflow { child, .. } => registered(*child, reg),
        _ => true,
    }
}

/// Rehydrating succeeds exactly if every task and every routing function of the
/// tree is registered; the id it fails with is not registered.
pub proof fn law_rehydrates_iff_registered(n: Node, reg: Map<Seq<char>, TaskHandle>)
    ensures
        tree::bound(n, reg) is Ok <==> registered(n, reg),
        tree::bound(n, reg) matches Err(e) ==> !reg.dom().contains(e),
    decreases n, 0nat,
{
    lemma_registered_opt(tree::next_of(n), reg);
    match n {
        Node::Fork { branches, .. } => {
            lemma_registered_all(branches, branches.len(), reg);
        },
        Node::Branch { arms, default, .. } => {
            lemma_registered_opt(default, reg);
            lemma_registered_arms(arms, arms.len(), reg);
        },
        Node::Loop { body, .. } => {
            law_rehydrates_iff_registered(*body, reg);
        },
        Node::ChildWorkflow { child, .. } => {
            law_rehydrates_iff_registered(*child, reg);
        },
        _ => {},
    }
}

proof fn lemma_registered_opt(o: Option<Box<Node>>, reg: Map<Seq<char>, TaskHandle>)
    ensures
        tree::bound_opt(o, reg) is Ok <==> (match o {
            Some(m) => registered(*m, reg),
            None => true,
        }),
        tree::bound_opt(o, reg) matches Err(e) ==> !reg.dom().contains(e),
    decreases o, 0nat,
{
    if let Some(m) = o {
        law_rehydrates_iff_registered(*m, reg);
    }
}

proof fn lemma_registered_all(s: Seq<Node>, k: nat, reg: Map<Seq<char>, TaskHandle>)
    requires
        k <= s.len(),
    ensures
        tree::bound_all(s, k, reg) is Ok <==> forall|i: int|
            0 <= i < k ==> registered(#[trigger] s[i], reg),
        tree::bound_all(s, k, reg) matches Err(e) ==> !reg.dom().contains(e),
    decreases s, k,
{
    if k > 0 {
        lemma_registered_all(s, (k - 1) as nat, reg);
        law_rehydrates_iff_registered(s[k - 1], reg);
        if tree::bound_all(s, k, reg) is Ok {
            assert forall|i: int| 0 <= i < k implies registered(#[trigger] s[i], reg) by {
                if i < k - 1 {
                }
            }
        }
    }
}

proof fn lemma_registered_arms(
    s: Seq<(Seq<char>, Node)>,
    k: nat,
    reg: Map<Seq<char>, TaskHandle>,
)
    requires
        k <= s.len(),
    ensures
        tree::bound_arms(s, k, reg) is Ok <==> forall|i: int|
            0 <= i < k ==> registered((#[trigger] s[i]).1, reg),
        tree::bound_arms(s, k, reg) matches Err(e) ==> !reg.dom().contains(e),
    decreases s, k,
{
    if k > 0 {
        lemma_registered_arms(s, (k - 1) as nat, reg);
        law_rehydrates_iff_registered(s[k - 1].1, reg);
        if tree::bound_arms(s, k, reg) is Ok {
            assert forall|i: int| 0 <= i < k implies registered((#[trigger] s[i]).1, reg) by {
                if i < k - 1 {
                }
            }
        }
    }
}

/// Hanging a tree on the end of a chain puts its ids after those of the chain.
pub proof fn law_append_concatenates_ids(n: Node, m: Node)
    ensures
        tree::ids(tree::appended(n, m)) == tree::ids(n) + tree::ids(m),
        tree::terminal(tree::appended(n, m)) == tree::terminal(m),
    decreases n,
{
    if let Some(k) = tree::next_of(n) {
        law_append_concatenates_ids(*k, m);
    }
    assert(tree::ids(tree::appended(n, m)) =~= tree::ids(n) + tree::ids(m));
}

/// A walk over a tree reports the ids of the tree, in preorder.
pub proof fn law_walk_reports_ids(n: Node, predecessor: Option<Seq<char>>)
    ensures
        info_ids(tree::infos(n, predecessor)) == tree::ids(n),
    decreases n, 1nat,
{
    let p = Some(tree::id_of(n));
    let first = seq![tree::info(n, predecessor)];
    lemma_walk_opt(tree::next_of(n), p);
    match n {
        Node::Fork { branches, .. } => {
            lemma_walk_all(branches, branches.len(), p);
        },
        Node::Branch { arms, default, .. } => {
            lemma_walk_opt(default, p);
            lemma_walk_arms(arms, arms.len(), p);
        },
        Node::Loop { body, .. } => {
            law_walk_reports_ids(*body, p);
        },
        Node::ChildWorkflow { child, .. } => {
            law_walk_reports_ids(*child, p);
        },
        _ => {},
    }
    assert(info_ids(tree::infos(n, predecessor)) =~= tree::ids(n));
}

/// The ids in a list of reports.
pub open spec fn info_ids(s: Seq<Info>) -> Seq<Seq<char>> {
    Seq::new(s.len(), |i: int| s[i].id)
}

proof fn lemma_walk_opt(o: Option<Box<Node>>, p: Option<Seq<char>>)
    ensures
        info_ids(tree::infos_opt(o, p)) == (match o {
            Some(m) => tree::ids(*m),
            None => seq![],
        }),
    decreases o, 0nat,
{
    if let Some(m) = o {
        law_walk_reports_ids(*m, p);
    }
    assert(o is None ==> info_ids(tree::infos_opt(o, p)) =~= seq![]);
}

proof fn lemma_walk_all(s: Seq<Node>, k: nat, p: Option<Seq<char>>)
    requires
        k <= s.len(),
    ensures
        info_ids(tree::infos_all(s, k, p)) == tree::ids_all(s, k),
    decreases s, k,
{
    if k > 0 {
        lemma_walk_all(s, (k - 1) as nat, p);
        law_walk_reports_ids(s[k - 1], p);
    }
    assert(info_ids(tree::infos_all(s, k, p)) =~= tree::ids_all(s, k));
}

proof fn lemma_walk_arms(s: Seq<(Seq<char>, Node)>, k: nat, p: Option<Seq<char>>)
    requires
        k <= s.len(),
    ensures
        info_ids(tree::infos_arms(s, k, p)) == tree::ids_arms(s, k),
    decreases s, k,
{
    if k > 0 {
        lemma_walk_arms(s, (k - 1) as nat, p);
        law_walk_reports_ids(s[k - 1].1, p);
    }
    assert(info_ids(tree::infos_arms(s, k, p)) =~= tree::ids_arms(s, k));
}

} // verus!
