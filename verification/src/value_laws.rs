//! What the smaller types keep: names that are read back, lookups, claims and checks.
use crate::backend_error::{BackendError, BackendFault};
use crate::branch_results;
use crate::branch_results::{BranchOutputs, NamedBranchResults};
use crate::codec::LoopDecision;
use crate::continuation::WorkflowContinuation;
use crate::deps::{Deps, MissingDep};
use crate::deps_check;
use crate::deps_check::{check_deps, InjectedTask};
use crate::duration::Duration;
use crate::dynamodb_store;
use crate::error::{BuildError, BuildErrors, WorkflowError};
use crate::hash32::{Hash32, Hash32ParseError, TaskId};
use crate::laws;
use crate::loop_result::LoopResult;
use crate::priority;
use crate::priority::Priority;
use crate::registry::TaskRegistry;
use crate::snapshot;
use crate::snapshot::{SignalKind, SnapshotStatus, WorkflowSnapshot};
use crate::snapshot_format;
use crate::snapshot_format::{
    frame_snapshot, unframe_snapshot, unframe_snapshot_checked, CodecId, FormatError, SnapshotFrame,
};
use crate::snapshot_laws;
use crate::step_laws;
use crate::stored::SerializableContinuation;
use crate::string_map;
use crate::string_map::StringMap;
use crate::task::{RetryPolicy, TaskHandle, TaskMetadata};
use crate::task_claim::TaskClaim;
use crate::task_index;
use crate::task_index::{TaskIndex, TaskNodeMetadata};
use crate::task_macro;
use crate::task_macro::{
    derive_branch_key, extract_return, BranchKeyFault, FnDecl, ParamDecl, ParsedTask, PathEnd,
    ReturnDecl, TaskAttrs, TaskFault, VariantDecl,
};
use crate::text;
use crate::time;
use crate::time::{TimeDelta, Timestamp};
use crate::tree;
use crate::tree::Node;
use crate::tree_laws;
use crate::validation::{validate_instance_id, InvalidInstanceId};
use crate::workflow::{
    MaxIterationsPolicy, NodeKind, SerializableWorkflow, SerializedWorkflowState, WorkflowStatus,
};
use vstd::prelude::*;

verus! {

proof fn lemma_kind_texts()
    ensures
        forall|a: NodeKind, b: NodeKind|
            #![trigger crate::workflow::kind_text(a), crate::workflow::kind_text(b)]
            crate::workflow::kind_text(a) == crate::workflow::kind_text(b) ==> a == b,
{
    reveal_strlit("task");
    reveal_strlit("fork");
    reveal_strlit("delay");
    reveal_strlit("await_signal");
    reveal_strlit("branch");
    reveal_strlit("loop");
    reveal_strlit("child_workflow");
    assert("task"@.len() == 4 && "fork"@.len() == 4 && "loop"@.len() == 4);
    assert("delay"@.len() == 5 && "await_signal"@.len() == 12 && "branch"@.len() == 6);
    assert("child_workflow"@.len() == 14);
    assert("task"@[0] == 't' && "fork"@[0] == 'f' && "loop"@[0] == 'l');
}

/// Different kinds of nodes, policies, statuses and signals have different names.
pub proof fn law_names_differ(
    a: &NodeKind,
    b: &NodeKind,
    at: &'static str,
    bt: &'static str,
    p: &MaxIterationsPolicy,
    q: &MaxIterationsPolicy,
    pt: &'static str,
    qt: &'static str,
    s: &SnapshotStatus,
    u: &SnapshotStatus,
    st: &'static str,
    ut: &'static str,
    x: &SignalKind,
    y: &SignalKind,
    xt: &'static str,
    yt: &'static str,
)
    requires
        call_ensures(NodeKind::as_ref, (a,), at),
        call_ensures(NodeKind::as_ref, (b,), bt),
        call_ensures(MaxIterationsPolicy::as_ref, (p,), pt),
        call_ensures(MaxIterationsPolicy::as_ref, (q,), qt),
        call_ensures(SnapshotStatus::as_ref, (s,), st),
        call_ensures(SnapshotStatus::as_ref, (u,), ut),
        call_ensures(SignalKind::as_ref, (x,), xt),
        call_ensures(SignalKind::as_ref, (y,), yt),
    ensures
        at@ == bt@ ==> *a == *b,
        pt@ == qt@ ==> *p == *q,
        st@ == ut@ ==> *s == *u,
        xt@ == yt@ ==> *x == *y,
{
    lemma_kind_texts();
    reveal_strlit("fail");
    reveal_strlit("exit_with_last");
    reveal_strlit("Cancel");
    reveal_strlit("Pause");
    assert("fail"@.len() == 4 && "exit_with_last"@.len() == 14);
    assert("Cancel"@.len() == 6 && "Pause"@.len() == 5);
    crate::snapshot::law_status_names_differ(*s, *u);
    assert(crate::workflow::kind_text(*a) == at@ && crate::workflow::kind_text(*b) == bt@);
}

/// The hexadecimal text of a digest is read back as the digest.
pub proof fn law_digest_text_is_read_back(
    h: &Hash32,
    t: String,
    s: &str,
    r: Result<Hash32, Hash32ParseError>,
)
    requires
        call_ensures(Hash32::to_hex, (h,), t),
        s@ == t@,
        call_ensures(Hash32::from_hex, (s,), r),
    ensures
        t@.len() == 64,
        r is Ok,
        r->Ok_0@ == h@,
{
    crate::hash32::law_hex_round_trip(h@);
}

/// A framed payload is read back, with the codec that wrote it, and refused for another one.
pub proof fn law_framed_payload_is_read_back(
    codec_id: CodecId,
    payload: &[u8],
    expected: CodecId,
    b: Vec<u8>,
    bytes: &[u8],
    r: Result<SnapshotFrame<'_>, FormatError>,
    c: Result<SnapshotFrame<'_>, FormatError>,
)
    requires
        call_ensures(frame_snapshot, (codec_id, payload), b),
        bytes@ == b@,
        call_ensures(unframe_snapshot, (bytes,), r),
        call_ensures(unframe_snapshot_checked, (bytes, expected), c),
    ensures
        r is Ok && r->Ok_0.codec_id == codec_id && r->Ok_0.payload@ == payload@,
        c is Ok <==> codec_id == expected,
        c is Ok ==> c->Ok_0.payload@ == payload@,
        c is Err ==> c->Err_0 == (FormatError::CodecMismatch { expected, found: codec_id }),
        b@.len() == payload@.len() + 6,
        b@.skip(6) == payload@,
{
    snapshot_format::law_frame_round_trip(codec_id, payload@);
    snapshot_format::law_codec_mismatch(codec_id, payload@, expected);
    assert(b@.skip(6) =~= payload@);
}

/// A claim is of its task and its worker and expires its time to live after it was made;
/// from then on it is expired, and one without a time to live never is.
pub proof fn law_claim_lives_as_long_as_asked(
    instance_id: &str,
    task_id: TaskId,
    worker_id: String,
    ttl: TimeDelta,
    now: Timestamp,
    c: TaskClaim,
    forever: TaskClaim,
    later: &Timestamp,
    over: bool,
    never: bool,
    other: &str,
    owned: bool,
)
    requires
        now.parts().0 >= 0,
        now.parts().1 < 1_000_000_000,
        ttl.parts().0 >= 0,
        ttl.parts().1 < 1_000_000_000,
        now.parts().0 + ttl.parts().0 + 1 <= time::MAX_SECS,
        later.parts().0 >= 0,
        call_ensures(TaskClaim::new_at, (instance_id, task_id, worker_id, Some(ttl), now), c),
        call_ensures(
            TaskClaim::new_at,
            (instance_id, task_id, worker_id, None::<TimeDelta>, now),
            forever,
        ),
        call_ensures(TaskClaim::is_expired_at, (&c, later), over),
        call_ensures(TaskClaim::is_expired_at, (&forever, later), never),
        call_ensures(TaskClaim::is_owned_by, (&c, other), owned),
    ensures
        c.instance_id@ == instance_id@ && c.task_id == task_id && c.worker_id@ == worker_id@,
        c.claimed_at == now.parts().0,
        c.expires_at is Some,
        c.expires_at->0 == now.parts().0 + ttl.parts().0 + (if now.parts().1 + ttl.parts().1
            >= 1_000_000_000 {
            1int
        } else {
            0
        }),
        over <==> later.parts().0 >= c.expires_at->0,
        forever.expires_at is None && !never,
        owned <==> other@ == worker_id@,
{
}

/// A task that is registered is found, with its metadata; those registered before stay. Of
/// two registries that are merged the other one goes first.
pub proof fn law_registered_task_is_found(
    m: &mut TaskRegistry,
    k: &mut TaskRegistry,
    other: TaskRegistry,
    id: &str,
    handle: TaskHandle,
    metadata: TaskMetadata,
    after: &TaskRegistry,
    h: Option<TaskHandle>,
    meta: Option<&TaskMetadata>,
    x: Seq<char>,
)
    requires
        call_ensures(TaskRegistry::register_with_metadata, (m, id, handle, metadata), ()),
        call_ensures(TaskRegistry::merge, (k, other), ()),
        after.handles() == final(m).handles(),
        after.metas() == final(m).metas(),
        call_ensures(TaskRegistry::get, (after, id), h),
        call_ensures(TaskRegistry::get_metadata, (after, id), meta),
    ensures
        h == Some(handle),
        meta is Some && meta->0@ == metadata@,
        x != id@ && old(m).handles().dom().contains(x) ==> final(m).handles().dom().contains(x)
            && final(m).handles()[x] == old(m).handles()[x],
        x != id@ && old(m).metas().dom().contains(x) ==> final(m).metas().dom().contains(x)
            && final(m).metas()[x] == old(m).metas()[x],
        final(k).handles().dom().contains(x) <==> old(k).handles().dom().contains(x)
            || other.handles().dom().contains(x),
        other.handles().dom().contains(x) ==> final(k).handles()[x] == other.handles()[x],
        !other.handles().dom().contains(x) && old(k).handles().dom().contains(x)
            ==> final(k).handles()[x] == old(k).handles()[x],
{
}

/// A dependency is found under its type, and a missing one is named.
pub proof fn law_dependency_is_found<V>(
    d: &Deps<V>,
    dep_type: &str,
    r: Option<&V>,
    e: Result<&V, MissingDep>,
)
    requires
        call_ensures(Deps::<V>::get, (d, dep_type), r),
        call_ensures(Deps::<V>::try_get, (d, dep_type), e),
    ensures
        r is Some <==> d.map@.dom().contains(dep_type@),
        r is Some ==> *r->0 == d.map@[dep_type@] && e is Ok && *e->Ok_0 == *r->0,
        r is None ==> e is Err && e->Err_0.dep_type@ == dep_type@,
{
}

proof fn lemma_none_missing(needs: Seq<Seq<char>>, held: Set<Seq<char>>, k: nat)
    requires
        k <= needs.len(),
    ensures
        deps_check::missing(needs, held, k).len() == 0 <==> forall|i: int|
            0 <= i < k ==> held.contains(#[trigger] needs[i]),
    decreases k,
{
    if k > 0 {
        lemma_none_missing(needs, held, (k - 1) as nat);
        let _ = needs[k - 1];
    }
}

proof fn lemma_no_faults(id: Seq<char>, types: Seq<Seq<char>>, k: nat)
    requires
        k <= types.len(),
    ensures
        deps_check::missing_faults(id, types, k).len() == k,
    decreases k,
{
    if k > 0 {
        lemma_no_faults(id, types, (k - 1) as nat);
    }
}

/// A task can be made: all that it needs is there, and none is registered under its id.
pub open spec fn can_be_made(
    t: InjectedTask,
    held: Set<Seq<char>>,
    registered: Set<Seq<char>>,
) -> bool {
    !registered.contains(t.task_id@) && forall|j: int|
        0 <= j < t.needs@.len() ==> held.contains((#[trigger] t.needs@[j])@)
}

proof fn lemma_all_can_be_made(
    tasks: Seq<InjectedTask>,
    held: Set<Seq<char>>,
    registered: Set<Seq<char>>,
    k: nat,
)
    requires
        k <= tasks.len(),
    ensures
        deps_check::all_faults(deps_check::injected(tasks), held, registered, k).len() == 0
            <==> forall|i: int|
            0 <= i < k ==> can_be_made(#[trigger] tasks[i], held, registered),
    decreases k,
{
    if k > 0 {
        lemma_all_can_be_made(tasks, held, registered, (k - 1) as nat);
        let t = tasks[k - 1];
        let v = deps_check::injected(tasks)[k - 1];
        let types = deps_check::missing(v.needs, held, v.needs.len());
        lemma_none_missing(v.needs, held, v.needs.len());
        lemma_no_faults(v.task_id, types, types.len());
        assert(types.len() == 0 <==> forall|j: int|
            0 <= j < t.needs@.len() ==> held.contains((#[trigger] t.needs@[j])@)) by {
            assert(v.needs.len() == t.needs@.len());
            assert forall|j: int| 0 <= j < t.needs@.len() implies v.needs[j] == (
            #[trigger] t.needs@[j])@ by {
            }
            if forall|j: int|
                0 <= j < t.needs@.len() ==> held.contains((#[trigger] t.needs@[j])@) {
                assert forall|j: int| 0 <= j < v.needs.len() implies held.contains(
                    #[trigger] v.needs[j],
                ) by {
                    assert(held.contains(t.needs@[j]@));
                }
            }
            if types.len() == 0 {
                assert forall|j: int| 0 <= j < t.needs@.len() implies held.contains(
                    (#[trigger] t.needs@[j])@,
                ) by {
                    assert(held.contains(v.needs[j]));
                }
            }
        }
    }
}

/// The check of dependencies finds nothing exactly if every task can be made.
pub proof fn law_dependencies_are_checked<V>(
    deps: &Deps<V>,
    registry: &TaskRegistry,
    tasks: &Vec<InjectedTask>,
    r: Result<(), BuildErrors>,
)
    requires
        call_ensures(check_deps::<V>, (deps, registry, tasks), r),
    ensures
        r is Ok <==> forall|i: int|
            0 <= i < tasks@.len() ==> can_be_made(
                #[trigger] tasks@[i],
                deps.map@.dom(),
                registry.handles().dom(),
            ),
{
    lemma_all_can_be_made(
        tasks@,
        deps.map@.dom(),
        registry.handles().dom(),
        tasks@.len(),
    );
}

/// An id of an instance is accepted exactly if it has a character and at most 256 bytes.
pub proof fn law_instance_ids_are_bounded(id: &str, r: Result<(), InvalidInstanceId>)
    requires
        call_ensures(validate_instance_id, (id,), r),
    ensures
        r is Ok <==> 0 < id@.len() && vstd::utf8::encode_utf8(id@).len() <= 256,
        r is Err && id@.len() == 0 ==> r->Err_0 is Empty,
        r is Err && id@.len() > 0 ==> r->Err_0 is TooLong,
{
}

proof fn lemma_lookup(s: Seq<(Seq<char>, Seq<u8>)>, k: nat, i: int)
    requires
        0 <= i < k <= s.len(),
        forall|j: int| i < j < k ==> (#[trigger] s[j]).0 != s[i].0,
    ensures
        branch_results::lookup(s, k).dom().contains(s[i].0),
        branch_results::lookup(s, k)[s[i].0] == s[i].1,
    decreases k,
{
    if i < k - 1 {
        assert(s[k - 1].0 != s[i].0);
        lemma_lookup(s, (k - 1) as nat, i);
    }
}

/// The results of branches are found under their names; of those under one name the last.
pub proof fn law_branch_result_is_found(
    r: NamedBranchResults,
    m: StringMap<Vec<u8>>,
    i: int,
)
    requires
        call_ensures(NamedBranchResults::into_map, (r,), m),
        0 <= i < r@.len(),
        forall|j: int| i < j < r@.len() ==> (#[trigger] r@[j]).0 != r@[i].0,
    ensures
        m@.dom().contains(r@[i].0),
        m@[r@[i].0]@ == r@[i].1,
{
    lemma_lookup(r@, r@.len(), i);
    let c = branch_results::contents(m@);
    assert(c.dom().contains(r@[i].0));
    assert(c[r@[i].0] == m@[r@[i].0]@);
}

proof fn lemma_roles_exist(params: Seq<ParamDecl>, k: nat, i: int)
    requires
        k <= params.len(),
        0 <= i < params.len(),
        !task_macro::injected(params[i]),
        forall|j: int| #![trigger params[j]] 0 <= j < params.len() ==> params[j].ident is Some,
        forall|j: int|
            #![trigger params[j]]
            0 <= j < params.len() && j != i ==> task_macro::injected(params[j]),
    ensures
        task_macro::roles(params, k) is Ok,
        task_macro::roles(params, k)->Ok_0.input is Some <==> i < k,
    decreases k,
{
    if k > 0 {
        lemma_roles_exist(params, (k - 1) as nat, i);
        let _ = params[k - 1];
    }
}

/// An async function without `self`, whose parameters have names and of which exactly one is
/// not injected, and that says what it returns, becomes a task.
pub proof fn law_good_function_becomes_a_task(
    attrs: TaskAttrs,
    item: &FnDecl,
    i: int,
    r: Result<ParsedTask, TaskFault>,
)
    requires
        call_ensures(ParsedTask::parse, (attrs, item), r),
        item.is_async && !item.has_self && !(item.output is Nothing),
        0 <= i < item.params@.len(),
        !task_macro::injected(item.params@[i]),
        forall|j: int|
            #![trigger item.params@[j]]
            0 <= j < item.params@.len() ==> item.params@[j].ident is Some,
        forall|j: int|
            #![trigger item.params@[j]]
            0 <= j < item.params@.len() && j != i ==> task_macro::injected(item.params@[j]),
    ensures
        r is Ok,
        r->Ok_0.attrs == attrs,
        r->Ok_0.fn_name@ == item.name@,
        attrs.id is Some ==> r->Ok_0.task_id@ == attrs.id->0@,
        attrs.id is None ==> r->Ok_0.task_id@ == item.name@,
        item.output matches ReturnDecl::Fallible(t) ==> r->Ok_0.output_type@ == t@
            && r->Ok_0.fallible,
        item.output matches ReturnDecl::Infallible(t) ==> r->Ok_0.output_type@ == t@
            && !r->Ok_0.fallible,
{
    lemma_roles_exist(item.params@, item.params@.len(), i);
}

proof fn lemma_keys_exist(variants: Seq<VariantDecl>, k: nat)
    requires
        k <= variants.len(),
        forall|i: int|
            #![trigger variants[i]]
            0 <= i < variants.len() ==> variants[i].fieldless && !(variants[i].key is Malformed),
    ensures
        task_macro::keys_of(variants, k) is Ok,
        task_macro::keys_of(variants, k)->Ok_0.len() == k,
    decreases k,
{
    if k > 0 {
        lemma_keys_exist(variants, (k - 1) as nat);
        let _ = variants[k - 1];
    }
}

/// An enum whose variants have no fields and no malformed key has keys.
pub proof fn law_good_enum_has_keys(
    variants: &Vec<VariantDecl>,
    r: Result<Vec<(String, String)>, BranchKeyFault>,
)
    requires
        call_ensures(derive_branch_key, (true, variants), r),
        variants@.len() > 0,
        forall|i: int|
            #![trigger variants@[i]]
            0 <= i < variants@.len() ==> variants@[i].fieldless && !(variants@[i].key
                is Malformed),
    ensures
        r is Ok,
{
    lemma_keys_exist(variants@, variants@.len());
}

/// A task is called with its input first and then with what is injected, in order.
pub proof fn law_input_comes_first(t: &ParsedTask, r: Vec<String>)
    requires
        call_ensures(ParsedTask::call_args, (t,), r),
    ensures
        r@.len() == t.inject_params@.len() + 1,
        r@[0]@ == t.input_param.ident@,
        forall|i: int|
            #![trigger t.inject_params@[i]]
            0 <= i < t.inject_params@.len() ==> r@[i + 1]@ == t.inject_params@[i].ident@,
{
    let s = text::texts(r@);
    assert(s.len() == r@.len());
    assert(s[0] == r@[0]@);
    assert forall|i: int|
        #![trigger t.inject_params@[i]]
        0 <= i < t.inject_params@.len() implies r@[i + 1]@ == t.inject_params@[i].ident@ by {
        assert(s[i + 1] == r@[i + 1]@);
    }
}

/// A stored workflow has the id, the hash and the definition of the workflow, and is made
/// runnable again only by the workflow whose hash it has.
pub proof fn law_stored_workflow_belongs_to_its_definition<C, Input, M>(
    w: &SerializableWorkflow<C, Input, M>,
    s: SerializedWorkflowState,
    state: &SerializedWorkflowState,
    r: Result<WorkflowContinuation, BuildError>,
    same: Result<WorkflowContinuation, BuildError>,
)
    requires
        call_ensures(SerializableWorkflow::<C, Input, M>::to_serializable, (w,), s),
        call_ensures(SerializableWorkflow::<C, Input, M>::to_runnable, (w, state), r),
        call_ensures(
            SerializableContinuation::to_runnable,
            (&state.continuation, &w.registry),
            same,
        ),
    ensures
        s.workflow_id@ == w.inner.context.workflow_id@,
        s.definition_hash@ == w.inner.definition_hash@,
        tree_laws::kept(w.inner.continuation.node(), s.continuation.node()),
        state.definition_hash@ != w.inner.definition_hash@ ==> r is Err && r->Err_0
            is DefinitionMismatch,
        state.definition_hash@ == w.inner.definition_hash@ ==> (r is Ok <==> same is Ok) && (r
            is Ok ==> r->Ok_0.node() == same->Ok_0.node()),
{
    tree_laws::lemma_stored_keeps(w.inner.continuation.node());
}

/// The index answers for every task, delay and signal of a workflow, however deep, with what
/// the node says, unless the digest of another id is the same.
pub proof fn law_index_answers_for_every_node(
    c: &WorkflowContinuation,
    index: TaskIndex,
    task_id: &TaskId,
    r: Option<&TaskNodeMetadata>,
    m: Node,
)
    requires
        call_ensures(TaskIndex::build, (c,), index),
        call_ensures(TaskIndex::get, (&index, task_id), r),
        tree::ids(c.node()).no_duplicates(),
        tree_laws::part_of(c.node(), m),
        m is Task || m is Delay || m is AwaitSignal,
        task_id@ == task_index::id_digest(tree::id_of(m)),
        forall|x: Seq<char>|
            #![trigger task_index::id_digest(x)]
            x != tree::id_of(m) && tree::ids(c.node()).contains(x) ==> task_index::digest_key(
                task_index::id_digest(x),
            ) != task_index::digest_key(task_id@),
    ensures
        r is Some,
        r->0@.name == tree::id_of(m),
        m is Task ==> r->0@.timeout == m->Task_timeout && r->0@.priority == m->priority
            && r->0@.tags == m->tags && r->0@.retry == m->retry && r->0@.version == m->version,
        !(m is Task) ==> r->0@.timeout is None && r->0@.priority is None && r->0@.retry is None,
{
    let n = c.node();
    let s = tree::infos(n, None);
    tree_laws::lemma_part_is_reported(n, m, None);
    let i = if n == m {
        choose|i: int|
            0 <= i < s.len() && tree_laws::tells(#[trigger] s[i], m) && s[i].predecessor == None::<
                Seq<char>,
            >
    } else {
        let a = choose|a: Node|
            #[trigger] tree_laws::child_of(a, m) && tree_laws::part_of(n, a)
                && tree_laws::reported(s, m, Some(tree::id_of(a)));
        choose|i: int|
            0 <= i < s.len() && tree_laws::tells(#[trigger] s[i], m) && s[i].predecessor == Some(
                tree::id_of(a),
            )
    };
    laws::law_walk_reports_ids(n, None);
    let ids = laws::info_ids(s);
    assert(ids[i] == tree::id_of(m));
    assert forall|j: int| i < j < s.len() && task_index::indexed(#[trigger] s[j]) implies
        task_index::digest_key(task_index::id_digest(s[j].id)) != task_index::digest_key(
        task_index::id_digest(s[i].id),
    ) by {
        assert(ids[j] == s[j].id);
        assert(ids[j] != ids[i]);
        assert(ids.contains(s[j].id));
    }
    task_index::law_index_knows_every_node(s, s.len(), i);
}

proof fn lemma_missing(needs: Seq<Seq<char>>, held: Set<Seq<char>>, k: nat, x: Seq<char>)
    requires
        k <= needs.len(),
    ensures
        deps_check::missing(needs, held, k).contains(x) <==> !held.contains(x) && exists|i: int|
            0 <= i < k && #[trigger] needs[i] == x,
    decreases k,
{
    if k > 0 {
        lemma_missing(needs, held, (k - 1) as nat, x);
        let p = deps_check::missing(needs, held, (k - 1) as nat);
        let y = needs[k - 1];
        let all = deps_check::missing(needs, held, k);
        if !held.contains(y) {
            assert(all == p.push(y));
            assert(all[all.len() - 1] == y);
            if p.contains(x) {
                assert(all[p.index_of(x)] == x);
            }
            if all.contains(x) && !p.contains(x) {
                assert(all.index_of(x) == p.len());
            }
        }
    }
}

/// The dependencies that a task is told to miss are those that it needs and that are not
/// there.
pub proof fn law_missing_dependencies_are_told<V>(
    t: &InjectedTask,
    deps: &Deps<V>,
    r: Vec<MissingDep>,
    x: Seq<char>,
)
    requires
        call_ensures(InjectedTask::verify_deps::<V>, (t, deps), r),
    ensures
        (exists|i: int| 0 <= i < r@.len() && (#[trigger] r@[i]).dep_type@ == x) <==> !deps.map@
            .dom().contains(x) && exists|i: int|
            0 <= i < t.needs@.len() && (#[trigger] t.needs@[i])@ == x,
{
    let needs = t@.needs;
    let held = deps.map@.dom();
    lemma_missing(needs, held, needs.len(), x);
    let m = deps_check::missing(needs, held, needs.len());
    let types = deps_check::missing_types(r@);
    assert(types == m);
    assert(types.len() == r@.len());
    if exists|i: int| 0 <= i < r@.len() && (#[trigger] r@[i]).dep_type@ == x {
        let i = choose|i: int| 0 <= i < r@.len() && (#[trigger] r@[i]).dep_type@ == x;
        assert(types[i] == x);
        assert(m.contains(x));
        let j = choose|j: int| 0 <= j < needs.len() && #[trigger] needs[j] == x;
        assert(t.needs@[j]@ == x);
    }
    if !held.contains(x) && exists|i: int|
        0 <= i < t.needs@.len() && (#[trigger] t.needs@[i])@ == x {
        let j = choose|j: int| 0 <= j < t.needs@.len() && (#[trigger] t.needs@[j])@ == x;
        assert(needs[j] == x);
        let i = m.index_of(x);
        assert(r@[i].dep_type@ == x);
    }
}

/// One instant has reached another if it is that one or later.
pub proof fn law_instants_are_ordered(a: &Timestamp, b: &Timestamp, r: bool, s: bool)
    requires
        call_ensures(Timestamp::reached, (a, b), r),
        call_ensures(Timestamp::reached, (b, a), s),
    ensures
        r <==> a.parts().0 > b.parts().0 || (a.parts().0 == b.parts().0 && a.parts().1
            >= b.parts().1),
        r || s,
        r && s <==> a.parts() == b.parts(),
{
}

/// A function that returns a `Result` can fail and its output is the first type of it; any
/// other return type is the output itself.
pub proof fn law_return_type_is_told(
    whole: String,
    name: String,
    first: Option<String>,
    r: ReturnDecl,
    none: ReturnDecl,
)
    requires
        call_ensures(
            extract_return,
            (Some(whole), Some(PathEnd { name, first_type: first })),
            r,
        ),
        call_ensures(extract_return, (None::<String>, None::<PathEnd>), none),
    ensures
        none is Nothing,
        name@ == "Result"@ && first is Some ==> r is Fallible && r->Fallible_0@ == first->0@,
        name@ != "Result"@ || first is None ==> r is Infallible && r->Infallible_0@ == whole@,
{
}

proof fn lemma_byte_order(a: Seq<u8>, b: Seq<u8>)
    ensures
        string_map::bytes_less(a, b) <==> exists|n: int| #[trigger] first_difference(a, b, n),
    decreases a.len(),
{
    if a.len() > 0 && b.len() > 0 && a[0] == b[0] {
        let c = a.drop_first();
        let d = b.drop_first();
        lemma_byte_order(c, d);
        if exists|n: int| #[trigger] first_difference(c, d, n) {
            let n = choose|n: int| #[trigger] first_difference(c, d, n);
            assert(first_difference(a, b, n + 1)) by {
                assert forall|i: int| 0 <= i < n + 1 implies #[trigger] a[i] == b[i] by {
                    if i > 0 {
                        assert(c[i - 1] == d[i - 1]);
                    }
                }
            }
        }
        if exists|n: int| #[trigger] first_difference(a, b, n) {
            let n = choose|n: int| #[trigger] first_difference(a, b, n);
            assert(n > 0);
            assert(first_difference(c, d, n - 1)) by {
                assert forall|i: int| 0 <= i < n - 1 implies #[trigger] c[i] == d[i] by {
                    assert(a[i + 1] == b[i + 1]);
                }
            }
        }
    } else if b.len() > 0 {
        if a.len() == 0 || a[0] < b[0] {
            assert(first_difference(a, b, 0));
        }
        if exists|n: int| #[trigger] first_difference(a, b, n) {
            let n = choose|n: int| #[trigger] first_difference(a, b, n);
            if n > 0 {
                assert(a[0] == b[0]);
            }
        }
    }
}

/// Two lists of bytes are alike up to the `n`-th, where the first one ends or has the smaller
/// byte.
pub open spec fn first_difference(a: Seq<u8>, b: Seq<u8>, n: int) -> bool {
    &&& 0 <= n < b.len()
    &&& n <= a.len()
    &&& forall|i: int| 0 <= i < n ==> #[trigger] a[i] == b[i]
    &&& n == a.len() || a[n] < b[n]
}

/// Keys are ordered by their bytes: the one that ends first, or has the smaller byte where
/// the two first differ, comes first.
pub proof fn law_keys_are_ordered_by_bytes(a: &str, b: &str, r: bool)
    requires
        call_ensures(string_map::str_less, (a, b), r),
    ensures
        r <==> exists|n: int|
            #[trigger] first_difference(
                vstd::utf8::encode_utf8(a@),
                vstd::utf8::encode_utf8(b@),
                n,
            ),
{
    lemma_byte_order(vstd::utf8::encode_utf8(a@), vstd::utf8::encode_utf8(b@));
}

/// What is put under a key is found there, and what is under other keys stays; what is
/// removed is handed back and gone.
pub proof fn law_map_keeps_what_is_put<V>(
    m: &mut StringMap<V>,
    k: &mut StringMap<V>,
    key: String,
    value: V,
    name: &str,
    r: Option<V>,
    x: Seq<char>,
)
    requires
        call_ensures(StringMap::<V>::insert, (m, key, value), ()),
        call_ensures(StringMap::<V>::remove, (k, name), r),
    ensures
        final(m)@.dom().contains(key@) && final(m)@[key@] == value,
        x != key@ ==> (final(m)@.dom().contains(x) <==> old(m)@.dom().contains(x)),
        x != key@ && old(m)@.dom().contains(x) ==> final(m)@[x] == old(m)@[x],
        !final(k)@.dom().contains(name@),
        x != name@ ==> (final(k)@.dom().contains(x) <==> old(k)@.dom().contains(x)),
        x != name@ && old(k)@.dom().contains(x) ==> final(k)@[x] == old(k)@[x],
        r is Some <==> old(k)@.dom().contains(name@),
        r is Some ==> r->0 == old(k)@[name@],
{
}

/// The output of a branch is read under its name, and a branch that is not there is named.
pub proof fn law_branch_output_is_read<C>(
    b: &BranchOutputs<C>,
    name: &str,
    r: Result<Vec<u8>, WorkflowError>,
    there: bool,
)
    requires
        call_ensures(BranchOutputs::<C>::get_bytes, (b, name), r),
        call_ensures(BranchOutputs::<C>::contains, (b, name), there),
    ensures
        there <==> b.outputs@.dom().contains(name@),
        r is Ok <==> there,
        r is Ok ==> r->Ok_0@ == b.outputs@[name@]@,
        r is Err ==> r->Err_0 is BranchNotFound && r->Err_0->BranchNotFound_0@ == name@,
{
}

/// A loop goes on or is done, and hands on what it was given.
pub proof fn law_loop_goes_on_or_is_done<T>(
    v: T,
    done: bool,
    again: bool,
    d: (LoopDecision, T),
    e: (LoopDecision, T),
)
    requires
        call_ensures(LoopResult::<T>::is_done, (&LoopResult::Done(v),), done),
        call_ensures(LoopResult::<T>::is_again, (&LoopResult::Again(v),), again),
        call_ensures(LoopResult::<T>::into_decision, (LoopResult::Done(v),), d),
        call_ensures(LoopResult::<T>::into_decision, (LoopResult::Again(v),), e),
    ensures
        done && again,
        d.0 is Done && d.1 == v,
        e.0 is Again && e.1 == v,
{
}

proof fn lemma_status_texts()
    ensures
        "in_progress"@.len() == 11 && "completed"@.len() == 9 && "failed"@.len() == 6,
        "cancelled"@.len() == 9 && "paused"@.len() == 6 && "waiting"@.len() == 7,
        "awaiting_signal"@.len() == 15,
        "completed"@ != "cancelled"@ && "failed"@ != "paused"@,
{
    reveal_strlit("in_progress");
    reveal_strlit("completed");
    reveal_strlit("failed");
    reveal_strlit("cancelled");
    reveal_strlit("paused");
    reveal_strlit("waiting");
    reveal_strlit("awaiting_signal");
    assert("completed"@[1] == 'o' && "cancelled"@[1] == 'a');
    assert("failed"@[0] == 'f' && "paused"@[0] == 'p');
}

/// The name of a status tells which one it is.
pub proof fn law_status_names_tell_the_status(
    a: &WorkflowStatus,
    b: &WorkflowStatus,
    s: &'static str,
    t: &'static str,
)
    requires
        call_ensures(WorkflowStatus::as_ref, (a,), s),
        call_ensures(WorkflowStatus::as_ref, (b,), t),
        s@ == t@,
    ensures
        a@ is InProgress <==> b@ is InProgress,
        a@ is Completed <==> b@ is Completed,
        a@ is Failed <==> b@ is Failed,
        a@ is Cancelled <==> b@ is Cancelled,
        a@ is Paused <==> b@ is Paused,
        a@ is Waiting <==> b@ is Waiting,
        a@ is AwaitingSignal <==> b@ is AwaitingSignal,
{
    lemma_status_texts();
}

/// A copy of a snapshot says what the snapshot says.
pub proof fn law_copy_says_the_same(s: &WorkflowSnapshot, r: WorkflowSnapshot)
    requires
        call_ensures(<WorkflowSnapshot as Clone>::clone, (s,), r),
    ensures
        r@.state == s@.state,
        snapshot_laws::same_workflow(s@, r@),
        r@.updated_at == s@.updated_at,
        r@.task_deadline == s@.task_deadline,
        r@.task_retries == s@.task_retries,
        r@.loop_iterations == s@.loop_iterations,
{
}

/// A request is refused where the workflow has ended, and a pause also where it was cancelled;
/// the error says which request it is about, and names the status.
pub proof fn law_request_is_refused_when_ended(
    status: &str,
    kind: SignalKind,
    r: Result<(), BackendError>,
)
    requires
        call_ensures(dynamodb_store::validate_signal_allowed, (status, kind), r),
    ensures
        kind == SignalKind::Cancel ==> (r is Err <==> status@ == "Completed"@ || status@
            == "Failed"@),
        kind == SignalKind::Pause ==> (r is Err <==> status@ == "Completed"@ || status@
            == "Failed"@ || status@ == "Cancelled"@),
        r is Err && kind == SignalKind::Cancel ==> r->Err_0@ == BackendFault::CannotCancel(status@),
        r is Err && kind == SignalKind::Pause ==> r->Err_0@ == BackendFault::CannotPause(status@),
{
    assert(snapshot::status_name(SnapshotStatus::Completed) == "Completed"@);
    assert(snapshot::status_name(SnapshotStatus::Failed) == "Failed"@);
    assert(snapshot::status_name(SnapshotStatus::Cancelled) == "Cancelled"@);
}

/// A retry waits as long as was computed, but no longer than the most that is allowed.
pub proof fn law_retry_waits_no_longer_than_allowed(
    delay_ms: i64,
    max: Duration,
    r: i64,
    s: i64,
)
    requires
        call_ensures(snapshot::cap_delay, (delay_ms, Some(max)), r),
        call_ensures(snapshot::cap_delay, (delay_ms, None), s),
    ensures
        s == delay_ms,
        r == delay_ms || r == max.secs * 1000 + max.nanos as int / 1_000_000,
        r <= delay_ms && r <= max.secs * 1000 + max.nanos as int / 1_000_000,
{
}

/// A priority is found again under its number, which is from 1, the most urgent, to 5; no
/// other number is one.
pub proof fn law_priority_is_found_by_number(p: Priority, n: u8, v: u8, r: Option<Priority>)
    requires
        call_ensures(Priority::as_u8, (p,), n),
        call_ensures(Priority::from_u8, (v,), r),
    ensures
        v == n ==> r == Some(p),
        r == Some(p) ==> v == n,
        r is Some <==> 1 <= v <= 5,
        p == Priority::Critical <==> n == 1,
        p == Priority::High <==> n == 2,
        p == Priority::Normal <==> n == 3,
        p == Priority::Low <==> n == 4,
        p == Priority::Minimal <==> n == 5,
{
}

/// The fields of a node make the metadata of its task: each is what it was, and the priority
/// is the one of its number.
pub proof fn law_node_fields_make_metadata(
    timeout: Option<Duration>,
    retries: Option<RetryPolicy>,
    version: Option<String>,
    priority: Option<u8>,
    tags: Vec<String>,
    r: TaskMetadata,
)
    requires
        call_ensures(
            TaskMetadata::from_node_fields,
            (timeout, retries, version, priority, tags),
            r,
        ),
    ensures
        r@.timeout == timeout,
        r@.retries is Some <==> retries is Some,
        retries is Some ==> r@.retries == Some(retries->0@),
        r@.version is Some <==> version is Some,
        version is Some ==> r@.version == Some(version->0@),
        r@.tags.len() == tags@.len(),
        forall|i: int| #![trigger tags@[i]] 0 <= i < tags@.len() ==> r@.tags[i] == tags@[i]@,
        r@.display_name is None && r@.description is None,
        priority is None ==> r@.priority is None,
        priority is Some ==> (r@.priority is Some <==> 1 <= priority->0 <= 5),
        priority is Some && r@.priority is Some ==> priority::rank(r@.priority->0) == priority->0,
{
}

/// A span has the length that it was made of, up to the longest that there is.
pub proof fn law_span_keeps_its_length(
    d: Duration,
    s: TimeDelta,
    ms: i64,
    r: Option<TimeDelta>,
)
    requires
        d.wf(),
        call_ensures(TimeDelta::from_duration, (d,), s),
        call_ensures(TimeDelta::try_milliseconds, (ms,), r),
    ensures
        d.secs < 9_223_372_036_854_775 ==> s.parts().0 * 1_000_000_000 + s.parts().1 == d.secs
            * 1_000_000_000 + d.nanos,
        d.secs > 9_223_372_036_854_775 ==> s.parts() == (9_223_372_036_854_775i64, 807_000_000u32),
        r is None <==> ms == i64::MIN,
        r is Some ==> r->0.parts().0 * 1_000_000_000 + r->0.parts().1 == ms * 1_000_000,
        r is Some ==> r->0.parts().1 < 1_000_000_000,
{
    let a = ms as int / 1000;
    let b = ms as int % 1000;
    assert(ms == a * 1000 + b && 0 <= b < 1000);
    assert(i64::MIN <= a <= i64::MAX);
}

/// The instant a span later is as much later, and there is one unless it lies beyond the
/// calendar.
pub proof fn law_instant_is_a_span_later(t: &Timestamp, d: TimeDelta, r: Option<Timestamp>)
    requires
        call_ensures(Timestamp::checked_add_signed, (t, d), r),
        t.parts().1 < 1_000_000_000,
        d.parts().1 < 1_000_000_000,
    ensures
        ({
            let sum = (t.parts().0 * 1_000_000_000 + t.parts().1) + (d.parts().0 * 1_000_000_000
                + d.parts().1);
            &&& r is Some ==> r->0.parts().0 * 1_000_000_000 + r->0.parts().1 == sum
                && r->0.parts().1 < 1_000_000_000
            &&& r is Some <==> time::MIN_SECS * 1_000_000_000 <= sum < (time::MAX_SECS + 1)
                * 1_000_000_000
        }),
{
}

/// A task that is registered is there with its handle, without metadata until some is set;
/// metadata is set for a task that is there, and for no other.
pub proof fn law_registered_task_has_its_metadata(
    g: &mut TaskRegistry,
    h: &mut TaskRegistry,
    id: &str,
    handle: TaskHandle,
    m: TaskMetadata,
    other: Seq<char>,
)
    requires
        call_ensures(TaskRegistry::register, (g, id, handle), ()),
        call_ensures(TaskRegistry::set_metadata, (h, id, m), ()),
    ensures
        final(g).handles().dom().contains(id@) && final(g).handles()[id@] == handle,
        final(g).metas().dom().contains(id@) && step_laws::is_bare(final(g).metas()[id@]),
        other != id@ ==> (final(g).handles().dom().contains(other)
            <==> old(g).handles().dom().contains(other)),
        other != id@ && old(g).handles().dom().contains(other) ==> final(g).handles()[other]
            == old(g).handles()[other],
        other != id@ && old(g).metas().dom().contains(other) ==> final(g).metas()[other]
            == old(g).metas()[other],
        final(h).handles() == old(h).handles(),
        old(h).metas().dom().contains(id@) ==> final(h).metas().dom().contains(id@)
            && final(h).metas()[id@] == m@,
        !old(h).metas().dom().contains(id@) ==> !final(h).metas().dom().contains(id@),
        other != id@ ==> (final(h).metas().dom().contains(other)
            <==> old(h).metas().dom().contains(other)),
        other != id@ && old(h).metas().dom().contains(other) ==> final(h).metas()[other]
            == old(h).metas()[other],
{
}

/// A number is read back from its decimal text, with or without a sign in front.
pub proof fn law_number_is_read_back(
    n: u64,
    s: String,
    plus: &str,
    minus: &str,
    a: Option<u64>,
    b: Option<u64>,
    c: Option<i64>,
    d: Option<i64>,
)
    requires
        call_ensures(text::decimal_text, (n as u128,), s),
        plus@ == seq!['+'] + s@,
        minus@ == seq!['-'] + s@,
        call_ensures(text::parse_unsigned, (plus,), a),
        call_ensures(text::parse_unsigned, (minus,), b),
        call_ensures(text::parse_signed, (plus,), c),
        call_ensures(text::parse_signed, (minus,), d),
    ensures
        a == Some(n),
        b is None,
        n <= i64::MAX ==> c is Some && c->0 == n,
        n > i64::MAX ==> c is None,
        n <= 0x8000_0000_0000_0000 ==> d is Some && d->0 == -n,
        n > 0x8000_0000_0000_0000 ==> d is None,
{
    text::lemma_decimal_digits(n as nat);
    assert(plus@.skip(1) =~= s@);
    assert(minus@.skip(1) =~= s@);
    assert(!text::is_digit('-'));
    assert(minus@[0] == '-');
}

} // verus!
