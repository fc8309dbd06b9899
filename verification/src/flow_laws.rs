//! What a list of steps becomes as a workflow.
use crate::continuation::WorkflowContinuation;
use crate::continuation_builder;
use crate::continuation_builder::{
    build_continuation, BuilderTask, Flow, FlowBuilder, Seconds, Step,
};
use crate::error::{BuildError, Fault};
use crate::step_laws;
use crate::task::{Meta, TaskMetadata};
use crate::text;
use crate::tree::Node;
use crate::workflow::MaxIterationsPolicy;
use vstd::prelude::*;

verus! {

/// A tree is the chain of these tasks with their metadata, in their order.
pub open spec fn is_chain(n: Node, chain: Seq<(Seq<char>, Meta)>) -> bool {
    step_laws::links(n).len() == chain.len() && forall|j: int|
        #![trigger chain[j]]
        0 <= j < chain.len() ==> step_laws::says_task(
            step_laws::links(n)[j],
            chain[j].0,
            None,
            chain[j].1,
        )
}

/// The first task of every chain.
pub open spec fn first_tasks(s: Seq<Seq<(Seq<char>, Meta)>>) -> Seq<Seq<char>> {
    Seq::new(s.len(), |j: int| s[j][0].0)
}

/// The arms are the chains under their keys; of chains under one key the last.
pub open spec fn are_arms(
    arms: Seq<(Seq<char>, Node)>,
    s: Seq<(Seq<char>, Seq<(Seq<char>, Meta)>)>,
    k: int,
) -> bool {
    &&& forall|j: int|
        #![trigger s[j]]
        0 <= j < k && (forall|l: int| #![trigger s[l]] j < l < k ==> s[l].0 != s[j].0)
            ==> exists|a: int|
            0 <= a < arms.len() && (#[trigger] arms[a]).0 == s[j].0 && is_chain(arms[a].1, s[j].1)
    &&& forall|a: int|
        #![trigger arms[a]]
        0 <= a < arms.len() ==> exists|j: int|
            0 <= j < k && arms[a].0 == (#[trigger] s[j]).0
}

/// A tree is what the steps from the `i`-th on say, one after the other: each is there with
/// everything that it says, and followed by what the next ones say.
pub open spec fn says(tasks: Seq<Step>, i: nat, o: Option<Box<Node>>) -> bool
    decreases tasks, tasks.len() - i,
{
    if i >= tasks.len() {
        o is None
    } else {
        o is Some && match tasks[i as int] {
            Step::Sequential { task_id, metadata } => step_laws::says_task(
                *o->0,
                task_id,
                None,
                metadata,
            ) && says(tasks, i + 1, o->0->Task_next),
            Step::Delay { delay_id, duration } => *o->0 is Delay && o->0->Delay_id == delay_id
                && o->0->duration == duration && says(tasks, i + 1, o->0->Delay_next),
            Step::AwaitSignal { signal_id, signal_name, timeout } => *o->0 is AwaitSignal
                && o->0->AwaitSignal_id == signal_id && o->0->signal_name == signal_name
                && o->0->AwaitSignal_timeout == timeout && says(
                tasks,
                i + 1,
                o->0->AwaitSignal_next,
            ),
            Step::Fork { branches, join_id, join_metadata } => *o->0 is Fork && o->0->Fork_id
                == text::joined(first_tasks(branches), "||"@) && o->0->Fork_branches.len() == branches.len() && (forall|j: int|
                #![trigger branches[j]]
                0 <= j < branches.len() ==> is_chain(o->0->Fork_branches[j], branches[j]))
                && o->0->join is Some && step_laws::says_task(
                *o->0->join->0,
                join_id,
                None,
                join_metadata,
            ) && says(tasks, i + 1, o->0->join->0->Task_next),
            Step::Branch { branch_id, branches, default } => *o->0 is Branch && o->0->Branch_id
                == branch_id && are_arms(o->0->arms, branches, branches.len() as int) && (
            o->0->default is Some <==> default is Some) && (default is Some ==> is_chain(
                *o->0->default->0,
                default->0,
            )) && says(tasks, i + 1, o->0->Branch_next),
            Step::Loop { loop_id, body_task_id, body_metadata, max_iterations, on_max } => *o->0
                is Loop && o->0->Loop_id == loop_id && step_laws::is_task(
                *o->0->body,
                body_task_id,
                None,
                body_metadata,
            ) && o->0->max_iterations == max_iterations && o->0->on_max == on_max && says(
                tasks,
                i + 1,
                o->0->Loop_next,
            ),
            Step::ChildWorkflow { child_id, child_tasks } => *o->0 is ChildWorkflow
                && o->0->ChildWorkflow_id == child_id && says(
                child_tasks,
                0,
                Some(o->0->child),
            ) && says(tasks, i + 1, o->0->ChildWorkflow_next),
        }
    }
}

/// There are steps, and each can be built: no chain is empty and no loop has the limit zero.
pub open spec fn can_be_built(tasks: Seq<Step>) -> bool
    decreases tasks,
{
    tasks.len() > 0 && forall|i: int|
        #![trigger tasks[i]]
        0 <= i < tasks.len() ==> match tasks[i] {
            Step::Fork { branches, .. } => forall|j: int|
                #![trigger branches[j]]
                0 <= j < branches.len() ==> branches[j].len() > 0,
            Step::Branch { branches, default, .. } => (forall|j: int|
                #![trigger branches[j]]
                0 <= j < branches.len() ==> branches[j].1.len() > 0) && (default is Some
                ==> default->0.len() > 0),
            Step::Loop { max_iterations, .. } => max_iterations > 0,
            Step::ChildWorkflow { child_tasks, .. } => can_be_built(child_tasks),
            _ => true,
        }
}

proof fn lemma_chain_from(chain: Seq<(Seq<char>, Meta)>, i: nat)
    requires
        i < chain.len(),
    ensures
        continuation_builder::chain_node(chain, i) is Some,
        is_chain(*continuation_builder::chain_node(chain, i)->0, chain.skip(i as int)),
    decreases chain.len() - i,
{
    let n = *continuation_builder::chain_node(chain, i)->0;
    let tail = chain.skip(i as int);
    let l = step_laws::links(n);
    if i + 1 < chain.len() {
        lemma_chain_from(chain, i + 1);
        let m = *continuation_builder::chain_node(chain, i + 1)->0;
        let k = step_laws::links(m);
        assert(l == seq![n] + k);
        assert forall|j: int| #![trigger tail[j]] 0 <= j < tail.len() implies step_laws::says_task(
            l[j],
            tail[j].0,
            None,
            tail[j].1,
        ) by {
            if j > 0 {
                assert(l[j] == k[j - 1]);
                assert(tail[j] == chain.skip((i + 1) as int)[j - 1]);
            }
        }
    } else {
        assert(l =~= seq![n]);
    }
}

proof fn lemma_chain(chain: Seq<(Seq<char>, Meta)>)
    ensures
        continuation_builder::built_chain(chain) is Ok <==> chain.len() > 0,
        continuation_builder::built_chain(chain) matches Ok(n) ==> is_chain(n, chain),
{
    if chain.len() > 0 {
        lemma_chain_from(chain, 0);
        assert(chain.skip(0) =~= chain);
    }
}

proof fn lemma_chains(s: Seq<Seq<(Seq<char>, Meta)>>, k: nat)
    requires
        k <= s.len(),
    ensures
        continuation_builder::built_chains(s, k) is Ok <==> forall|j: int|
            #![trigger s[j]]
            0 <= j < k ==> s[j].len() > 0,
        continuation_builder::built_chains(s, k) matches Ok(p) ==> p.len() == k && forall|j: int|
            #![trigger s[j]]
            0 <= j < k ==> is_chain(p[j], s[j]),
    decreases k,
{
    if k > 0 {
        lemma_chains(s, (k - 1) as nat);
        lemma_chain(s[k - 1]);
    }
}

proof fn lemma_first_tasks(s: Seq<Seq<(Seq<char>, Meta)>>, k: nat)
    requires
        k <= s.len(),
        forall|j: int| #![trigger s[j]] 0 <= j < k ==> s[j].len() > 0,
    ensures
        continuation_builder::head_ids(s, k) == first_tasks(s).take(k as int),
    decreases k,
{
    if k > 0 {
        lemma_first_tasks(s, (k - 1) as nat);
        assert(s[k - 1].len() > 0);
        assert(first_tasks(s).take(k as int) =~= first_tasks(s).take(k - 1).push(s[k - 1][0].0));
    } else {
        assert(first_tasks(s).take(0) =~= seq![]);
    }
}

proof fn lemma_arms(s: Seq<(Seq<char>, Seq<(Seq<char>, Meta)>)>, k: nat)
    requires
        k <= s.len(),
    ensures
        continuation_builder::built_arms(s, k) is Ok <==> forall|j: int|
            #![trigger s[j]]
            0 <= j < k ==> s[j].1.len() > 0,
        continuation_builder::built_arms(s, k) matches Ok(p) ==> are_arms(p, s, k as int),
    decreases k,
{
    if k > 0 {
        lemma_arms(s, (k - 1) as nat);
        lemma_chain(s[k - 1].1);
        if let Ok(r) = continuation_builder::built_arms(s, k) {
            let p = continuation_builder::built_arms(s, (k - 1) as nat)->Ok_0;
            let n = continuation_builder::built_chain(s[k - 1].1)->Ok_0;
            let key = s[k - 1].0;
            step_laws::lemma_placed(p, key, n);
            assert forall|j: int|
                #![trigger s[j]]
                0 <= j < k && (forall|l: int| #![trigger s[l]] j < l < k ==> s[l].0
                    != s[j].0) implies exists|a: int|
                0 <= a < r.len() && (#[trigger] r[a]).0 == s[j].0 && is_chain(r[a].1, s[j].1) by {
                if j == k - 1 {
                    let a = r.index_of((key, n));
                    assert(r[a].0 == s[j].0);
                } else {
                    assert(s[k - 1].0 != s[j].0);
                    let b = choose|a: int|
                        0 <= a < p.len() && (#[trigger] p[a]).0 == s[j].0 && is_chain(
                            p[a].1,
                            s[j].1,
                        );
                    assert(p.contains(p[b]));
                    assert(r.contains(p[b]));
                    let a = r.index_of(p[b]);
                    assert(r[a].0 == s[j].0);
                }
            }
            assert forall|a: int| #![trigger r[a]] 0 <= a < r.len() implies exists|j: int|
                0 <= j < k && r[a].0 == (#[trigger] s[j]).0 by {
                if r[a].0 == key {
                    assert(s[k - 1].0 == r[a].0);
                } else {
                    assert(r.contains(r[a]));
                    assert(p.contains(r[a]));
                    let b = p.index_of(r[a]);
                    let j = choose|j: int| 0 <= j < k - 1 && p[b].0 == (#[trigger] s[j]).0;
                    assert(s[j].0 == r[a].0);
                }
            }
        }
    }
}

/// A step is there if it can be built.
spec fn step_can_be_built(s: Step) -> bool {
    match s {
        Step::Fork { branches, .. } => forall|j: int|
            #![trigger branches[j]]
            0 <= j < branches.len() ==> branches[j].len() > 0,
        Step::Branch { branches, default, .. } => (forall|j: int|
            #![trigger branches[j]]
            0 <= j < branches.len() ==> branches[j].1.len() > 0) && (default is Some
            ==> default->0.len() > 0),
        Step::Loop { max_iterations, .. } => max_iterations > 0,
        Step::ChildWorkflow { child_tasks, .. } => can_be_built(child_tasks),
        _ => true,
    }
}

#[verifier::spinoff_prover]
#[verifier::rlimit(40)]
proof fn lemma_built_from(tasks: Seq<Step>, i: nat)
    ensures
        continuation_builder::built_from(tasks, i) is Ok <==> forall|j: int|
            #![trigger tasks[j]]
            i <= j < tasks.len() ==> step_can_be_built(tasks[j]),
        continuation_builder::built_from(tasks, i) matches Ok(o) ==> says(tasks, i, o),
    decreases tasks, tasks.len() - i,
{
    if i < tasks.len() {
        lemma_built_from(tasks, i + 1);
        let s = tasks[i as int];
        if let Ok(next) = continuation_builder::built_from(tasks, i + 1) {
            reveal_with_fuel(continuation_builder::step_node, 2);
            reveal_with_fuel(continuation_builder::built_from, 2);
            reveal_with_fuel(continuation_builder::built, 2);
            let made = continuation_builder::step_node(s, next);
            match s {
                Step::Fork { branches, .. } => {
                    lemma_chains(branches, branches.len());
                    if made is Ok {
                        lemma_first_tasks(branches, branches.len());
                        assert(first_tasks(branches).take(branches.len() as int) =~= first_tasks(
                            branches,
                        ));
                    }
                },
                Step::Branch { branches, default, .. } => {
                    lemma_arms(branches, branches.len());
                    if let Some(d) = default {
                        lemma_chain(d);
                    }
                },
                Step::ChildWorkflow { child_tasks, .. } => {
                    lemma_built_from(child_tasks, 0);
                    lemma_can_be_built(child_tasks);
                    let b = continuation_builder::built_from(child_tasks, 0);
                    if b is Ok && child_tasks.len() > 0 {
                        assert(says(child_tasks, 0, b->Ok_0));
                        assert(b->Ok_0 is Some);
                    }
                },
                _ => {},
            }
            assert(made is Ok <==> step_can_be_built(s));
            if let Ok(n) = made {
                assert(says(tasks, i, Some(Box::new(n))));
            }
        }
    }
}

proof fn lemma_can_be_built(tasks: Seq<Step>)
    ensures
        can_be_built(tasks) <==> tasks.len() > 0 && forall|j: int|
            #![trigger tasks[j]]
            0 <= j < tasks.len() ==> step_can_be_built(tasks[j]),
{
}

/// A list of steps becomes a workflow exactly if each step can be built, and the workflow
/// says step for step what the list says: tasks with their metadata, forks with their
/// branches and joins, delays, signals with their timeouts, branches with their arms, loops
/// with their limits, and child workflows.
pub proof fn law_steps_become_nodes(
    tasks: &[BuilderTask],
    r: Result<WorkflowContinuation, BuildError>,
)
    requires
        call_ensures(build_continuation, (tasks,), r),
    ensures
        r is Ok <==> can_be_built(continuation_builder::steps(tasks@)),
        r matches Ok(c) ==> says(
            continuation_builder::steps(tasks@),
            0,
            Some(Box::new(c.node())),
        ),
        r is Err && tasks@.len() == 0 ==> r->Err_0@ == Fault::EmptyWorkflow,
{
    let t = continuation_builder::steps(tasks@);
    lemma_built_from(t, 0);
    lemma_can_be_built(t);
}

/// A builder has one step more than before, and gave out no id.
pub open spec fn one_more(before: Flow, after: Flow, s: Step) -> bool {
    &&& after.tasks.len() == before.tasks.len() + 1
    &&& after.tasks.last() == s
    &&& after.tasks.drop_last() == before.tasks
    &&& after.lambdas == before.lambdas
}

proof fn lemma_one_more(f: Flow, s: Step)
    ensures
        f.tasks.push(s).drop_last() == f.tasks,
{
    assert(f.tasks.push(s).drop_last() =~= f.tasks);
}

/// A task, a delay and a signal are added as they are given; a span that is none is refused,
/// and then nothing is added.
pub proof fn law_steps_are_added(
    a: &mut FlowBuilder,
    b: &mut FlowBuilder,
    c: &mut FlowBuilder,
    id: String,
    name: String,
    metadata: TaskMetadata,
    span: Seconds,
    timeout: Option<Seconds>,
    s: Result<(), BuildError>,
    t: Result<(), BuildError>,
)
    requires
        call_ensures(FlowBuilder::add_sequential, (a, id, metadata), ()),
        call_ensures(FlowBuilder::add_delay, (b, id, span), s),
        call_ensures(FlowBuilder::add_signal, (c, id, name, timeout), t),
    ensures
        one_more(
            old(a)@,
            final(a)@,
            Step::Sequential { task_id: id@, metadata: metadata@ },
        ),
        s is Ok <==> span is Valid,
        s is Ok ==> one_more(
            old(b)@,
            final(b)@,
            Step::Delay { delay_id: id@, duration: span->Valid_0 },
        ),
        s is Err ==> final(b)@ == old(b)@ && s->Err_0@ is InvalidDuration,
        t is Err <==> timeout is Some && timeout->0 is Invalid,
        t is Ok ==> one_more(
            old(c)@,
            final(c)@,
            Step::AwaitSignal {
                signal_id: id@,
                signal_name: name@,
                timeout: if timeout is Some {
                    Some(timeout->0->Valid_0)
                } else {
                    None
                },
            },
        ),
        t is Err ==> final(c)@ == old(c)@ && t->Err_0@ is InvalidDuration,
        final(a)@.loops == old(a)@.loops && final(a)@.branches == old(a)@.branches,
        final(b)@.loops == old(b)@.loops && final(b)@.branches == old(b)@.branches,
        final(c)@.loops == old(c)@.loops && final(c)@.branches == old(c)@.branches,
{
    lemma_one_more(old(a)@, final(a)@.tasks.last());
    lemma_one_more(old(b)@, final(b)@.tasks.last());
    lemma_one_more(old(c)@, final(c)@.tasks.last());
}

/// A fork, a branch, a loop and a child workflow are added as they are given; an empty one is
/// refused, and then nothing is added. Loops and branches are numbered.
pub proof fn law_nested_steps_are_added(
    a: &mut FlowBuilder,
    b: &mut FlowBuilder,
    c: &mut FlowBuilder,
    d: &mut FlowBuilder,
    id: String,
    metadata: TaskMetadata,
    chains: Vec<Vec<(String, TaskMetadata)>>,
    arms: Vec<(String, Vec<(String, TaskMetadata)>)>,
    default: Option<Vec<(String, TaskMetadata)>>,
    max_iterations: u32,
    on_max: MaxIterationsPolicy,
    child: Vec<BuilderTask>,
    w: Result<(), BuildError>,
    x: Result<String, BuildError>,
    y: Result<String, BuildError>,
    z: Result<(), BuildError>,
)
    requires
        call_ensures(FlowBuilder::add_fork, (a, chains, id, metadata), w),
        call_ensures(FlowBuilder::add_branch, (b, arms, default), x),
        call_ensures(FlowBuilder::add_loop, (c, id, metadata, max_iterations, on_max), y),
        call_ensures(FlowBuilder::add_child_workflow, (d, id, child), z),
    ensures
        w is Ok ==> chains@.len() > 0 && one_more(
            old(a)@,
            final(a)@,
            Step::Fork {
                branches: continuation_builder::chains_of(chains@),
                join_id: id@,
                join_metadata: metadata@,
            },
        ),
        w is Err ==> final(a)@ == old(a)@,
        chains@.len() == 0 ==> w is Err,
        (exists|i: int| 0 <= i < chains@.len() && (#[trigger] chains@[i])@.len() == 0) ==> w
            is Err,
        chains@.len() > 0 && (forall|i: int|
            0 <= i < chains@.len() ==> (#[trigger] chains@[i])@.len() > 0) ==> w is Ok,
        x is Ok ==> arms@.len() > 0 && one_more(
            old(b)@,
            final(b)@,
            Step::Branch {
                branch_id: x->Ok_0@,
                branches: continuation_builder::keyed_chains_of(arms@),
                default: continuation_builder::opt_chain_of(default),
            },
        ) && x->Ok_0@ == "branch_"@ + text::decimal(old(b)@.branches) && final(b)@.branches
            == old(b)@.branches + 1,
        x is Err ==> final(b)@ == old(b)@,
        arms@.len() == 0 ==> x is Err,
        y is Ok <==> max_iterations > 0,
        y is Ok ==> one_more(
            old(c)@,
            final(c)@,
            Step::Loop {
                loop_id: y->Ok_0@,
                body_task_id: id@,
                body_metadata: metadata@,
                max_iterations,
                on_max,
            },
        ) && y->Ok_0@ == "loop_"@ + text::decimal(old(c)@.loops) && final(c)@.loops
            == old(c)@.loops + 1,
        y is Err ==> final(c)@ == old(c)@,
        z is Ok <==> child@.len() > 0,
        z is Ok ==> one_more(
            old(d)@,
            final(d)@,
            Step::ChildWorkflow {
                child_id: id@,
                child_tasks: continuation_builder::steps(child@),
            },
        ),
        z is Err ==> final(d)@ == old(d)@,
{
    lemma_one_more(old(a)@, final(a)@.tasks.last());
    lemma_one_more(old(b)@, final(b)@.tasks.last());
    lemma_one_more(old(c)@, final(c)@.tasks.last());
    lemma_one_more(old(d)@, final(d)@.tasks.last());
    let s = continuation_builder::chains_of(chains@);
    assert forall|i: int| 0 <= i < chains@.len() implies (#[trigger] chains@[i])@.len()
        == s[i].len() by {
    }
    if continuation_builder::has_empty(s) {
        let i = choose|i: int| 0 <= i < s.len() && (#[trigger] s[i]).len() == 0;
        assert(chains@[i]@.len() == 0);
    }
    if exists|i: int| 0 <= i < chains@.len() && (#[trigger] chains@[i])@.len() == 0 {
        let i = choose|i: int| 0 <= i < chains@.len() && (#[trigger] chains@[i])@.len() == 0;
        assert(s[i].len() == 0);
    }
}

} // verus!
