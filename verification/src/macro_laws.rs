//! What the macros make of what was written.
use crate::duration;
use crate::duration_lit;
use crate::duration_lit::{DurationError, DurationLit};
use crate::naming;
use crate::task::TaskMetadata;
use crate::task_macro;
use crate::task_macro::{
    derive_branch_key, BranchKeyFault, FnDecl, KeyAttr, ParamDecl, ParsedTask, Roles, TaskAttrs,
    TaskFault, VariantDecl,
};
use crate::text;
use crate::workflow_codegen;
use crate::workflow_codegen::{gen_step_chain, Call, CallSpec, ChainFault};
use crate::workflow_macro;
use crate::workflow_macro::{ArmKey, Fragment, PipeStep, WorkflowStep};
use vstd::prelude::*;

verus! {

/// A span lasts as many milliseconds as a literal says.
pub open spec fn lasts(d: duration::Duration, millis: u64) -> bool {
    d.secs * 1000 + d.nanos / 1_000_000 == millis && d.nanos % 1_000_000 == 0 && d.nanos
        < 1_000_000_000
}

/// The metadata of a task says every attribute that is written. With `retries` there is a
/// retry policy, whose first delay is the backoff (a second where none is written) and whose
/// multiplier is the one that is written (2 where none is); without it there is none.
pub proof fn law_metadata_says_what_is_written(t: &ParsedTask, r: TaskMetadata)
    requires
        call_ensures(ParsedTask::metadata, (t,), r),
    ensures
        r.retries is Some <==> t.attrs.retries is Some,
        t.attrs.retries matches Some(n) ==> r@.retries->0.max_retries == n,
        t.attrs.retries is Some ==> lasts(
            r@.retries->0.initial_delay,
            match t.attrs.backoff {
                Some(d) => d.millis,
                None => 1000,
            },
        ),
        t.attrs.retries is Some ==> r@.retries->0.backoff_multiplier == (
        match t.attrs.backoff_multiplier {
            Some(m) => m@,
            None => "2"@,
        }),
        t.attrs.retries is Some ==> r@.retries->0.max_delay is None,
        r.timeout is Some <==> t.attrs.timeout is Some,
        t.attrs.timeout matches Some(d) ==> lasts(r@.timeout->0, d.millis),
        r.display_name is Some <==> t.attrs.display_name is Some,
        t.attrs.display_name matches Some(n) ==> r@.display_name == Some(n@),
        r.description is Some <==> t.attrs.description is Some,
        t.attrs.description matches Some(n) ==> r@.description == Some(n@),
        r@.tags.len() == t.attrs.tags@.len(),
        forall|i: int|
            0 <= i < t.attrs.tags@.len() ==> #[trigger] r@.tags[i] == t.attrs.tags@[i]@,
        r.version is None,
        r.priority is None,
{
}

/// Attributes that differ in anything but a default that is written out give different
/// metadata.
pub proof fn law_metadata_tells_attributes_apart(
    a: &ParsedTask,
    b: &ParsedTask,
    r: TaskMetadata,
    s: TaskMetadata,
)
    requires
        call_ensures(ParsedTask::metadata, (a,), r),
        call_ensures(ParsedTask::metadata, (b,), s),
        r@ == s@,
    ensures
        a.attrs.retries == b.attrs.retries,
        a.attrs.retries is Some ==> (match a.attrs.backoff {
            Some(d) => d.millis,
            None => 1000,
        }) == (match b.attrs.backoff {
            Some(d) => d.millis,
            None => 1000,
        }),
        a.attrs.retries is Some && a.attrs.backoff_multiplier is Some
            && b.attrs.backoff_multiplier is Some ==> a.attrs.backoff_multiplier->0@
            == b.attrs.backoff_multiplier->0@,
        a.attrs.timeout == b.attrs.timeout,
        text::opt_text(a.attrs.display_name) == text::opt_text(b.attrs.display_name),
        text::opt_text(a.attrs.description) == text::opt_text(b.attrs.description),
        text::texts(a.attrs.tags@) == text::texts(b.attrs.tags@),
{
    law_metadata_says_what_is_written(a, r);
    law_metadata_says_what_is_written(b, s);
}

/// The roles of parameters of which all have names and at most one takes the input.
spec fn told_apart(params: Seq<ParamDecl>, k: nat, r: Roles) -> bool {
    match r.input {
        None => r.injected.len() == k && forall|j: int|
            #![trigger r.injected[j]]
            0 <= j < k ==> r.injected[j] == j && task_macro::injected(params[j]),
        Some(i) => i < k && !task_macro::injected(params[i as int]) && r.injected.len() == k - 1
            && (forall|j: int|
            #![trigger params[j]]
            0 <= j < k && j != i ==> task_macro::injected(params[j])) && forall|j: int|
            #![trigger r.injected[j]]
            0 <= j < k - 1 ==> r.injected[j] == (if j < i {
                j
            } else {
                j + 1
            }),
    }
}

proof fn lemma_roles(params: Seq<ParamDecl>, k: nat)
    requires
        k <= params.len(),
    ensures
        task_macro::roles(params, k) matches Ok(r) ==> told_apart(params, k, r) && forall|j: int|
            #![trigger params[j]]
            0 <= j < k ==> params[j].ident is Some,
    decreases k,
{
    if k > 0 {
        lemma_roles(params, (k - 1) as nat);
        if let Ok(p) = task_macro::roles(params, (k - 1) as nat) {
            if let Ok(r) = task_macro::roles(params, k) {
                if p.input is None {
                    assert forall|j: int|
                        #![trigger params[j]]
                        0 <= j < k - 1 implies task_macro::injected(params[j]) by {
                        assert(p.injected[j] == j);
                    }
                }
            }
        }
    }
}

/// A function becomes a task only if it is async, takes no `self`, names its parameters,
/// says what it returns, and has exactly one parameter that is not injected. That one takes
/// the input; the others are injected, in their order. The task has the id that is written,
/// or the name of the function.
pub proof fn law_one_parameter_takes_the_input(
    attrs: TaskAttrs,
    item: &FnDecl,
    r: Result<ParsedTask, TaskFault>,
    i: int,
)
    requires
        call_ensures(ParsedTask::parse, (attrs, item), r),
        r is Ok,
        0 <= i < item.params@.len(),
        !task_macro::injected(item.params@[i]),
    ensures
        item.is_async && !item.has_self && !(item.output is Nothing),
        forall|j: int|
            #![trigger item.params@[j]]
            0 <= j < item.params@.len() ==> item.params@[j].ident is Some,
        forall|j: int|
            #![trigger item.params@[j]]
            0 <= j < item.params@.len() && j != i ==> task_macro::injected(item.params@[j]),
        r->Ok_0.input_param.ident@ == item.params@[i].ident->0@,
        r->Ok_0.input_param.ty@ == item.params@[i].ty@,
        r->Ok_0.inject_params@.len() == item.params@.len() - 1,
        forall|j: int|
            #![trigger r->Ok_0.inject_params@[j]]
            0 <= j < item.params@.len() - 1 ==> {
                let k = if j < i {
                    j
                } else {
                    j + 1
                };
                r->Ok_0.inject_params@[j].ident@ == item.params@[k].ident->0@
                    && r->Ok_0.inject_params@[j].ty@ == item.params@[k].ty@
            },
        r->Ok_0.fn_name@ == item.name@,
        r->Ok_0.task_id@ == (match attrs.id {
            Some(id) => id@,
            None => item.name@,
        }),
        r->Ok_0.struct_name@ == naming::pascal_case(item.name@, true) + "Task"@,
        r->Ok_0.attrs == attrs,
        r->Ok_0.fallible == (item.output is Fallible),
{
    let n = item.params@.len();
    lemma_roles(item.params@, n);
    let roles = task_macro::roles(item.params@, n)->Ok_0;
    assert(roles.input == Some(i as nat)) by {
        if roles.input->0 != i {
            assert(task_macro::injected(item.params@[i]));
        }
    }
    let got = task_macro::params_of(r->Ok_0.inject_params@);
    let owed = task_macro::params_at(item.params@, roles.injected);
    assert(got.len() == r->Ok_0.inject_params@.len());
    assert(got == owed);
    assert forall|j: int|
        #![trigger r->Ok_0.inject_params@[j]]
        0 <= j < n - 1 implies ({
        let k = if j < i {
            j
        } else {
            j + 1
        };
        r->Ok_0.inject_params@[j].ident@ == item.params@[k].ident->0@
            && r->Ok_0.inject_params@[j].ty@ == item.params@[k].ty@
    }) by {
        assert(got[j] == owed[j]);
        assert(roles.injected[j] == (if j < i {
            j
        } else {
            j + 1
        }));
    }
}

/// These are the names of the first `k` variants and their keys.
spec fn keys_said(variants: Seq<VariantDecl>, k: nat, p: Seq<(Seq<char>, Seq<char>)>) -> bool {
    p.len() == k && forall|i: int|
        #![trigger variants[i]]
        0 <= i < k ==> variants[i].fieldless && p[i].0 == variants[i].ident@ && (
        match variants[i].key {
            KeyAttr::Literal(s) => p[i].1 == s@,
            KeyAttr::Absent => p[i].1 == naming::snake_case(
                variants[i].ident@,
                variants[i].ident@.len(),
            ),
            KeyAttr::Malformed => false,
        })
}

proof fn lemma_keys(variants: Seq<VariantDecl>, k: nat)
    requires
        k <= variants.len(),
    ensures
        task_macro::keys_of(variants, k) is Ok ==> keys_said(
            variants,
            k,
            task_macro::keys_of(variants, k)->Ok_0,
        ),
    decreases k,
{
    if k > 0 {
        lemma_keys(variants, (k - 1) as nat);
    }
}

/// Every variant of an enum has its key, in order: the one that is written, else its name in
/// `snake_case`. None is left out, and a variant with fields is refused.
pub proof fn law_every_variant_has_its_key(
    is_enum: bool,
    variants: &Vec<VariantDecl>,
    r: Result<Vec<(String, String)>, BranchKeyFault>,
)
    requires
        call_ensures(derive_branch_key, (is_enum, variants), r),
    ensures
        r is Ok ==> is_enum && variants@.len() > 0 && r->Ok_0@.len() == variants@.len(),
        r is Ok ==> forall|i: int|
            #![trigger variants@[i]]
            0 <= i < variants@.len() ==> variants@[i].fieldless && r->Ok_0@[i].0@
                == variants@[i].ident@ && (match variants@[i].key {
                KeyAttr::Literal(s) => r->Ok_0@[i].1@ == s@,
                KeyAttr::Absent => r->Ok_0@[i].1@ == naming::snake_case(
                    variants@[i].ident@,
                    variants@[i].ident@.len(),
                ),
                KeyAttr::Malformed => false,
            }),
{
    if r is Ok {
        let n = variants@.len();
        lemma_keys(variants@, n);
        let p = task_macro::keys_of(variants@, n)->Ok_0;
        assert(task_macro::key_pairs(r->Ok_0@) == p);
        assert(p.len() == r->Ok_0@.len());
        assert forall|i: int|
            #![trigger variants@[i]]
            0 <= i < n implies variants@[i].fieldless && r->Ok_0@[i].0@ == variants@[i].ident@ && (
        match variants@[i].key {
            KeyAttr::Literal(s) => r->Ok_0@[i].1@ == s@,
            KeyAttr::Absent => r->Ok_0@[i].1@ == naming::snake_case(
                variants@[i].ident@,
                variants@[i].ident@.len(),
            ),
            KeyAttr::Malformed => false,
        }) by {
            assert(p[i] == (r->Ok_0@[i].0@, r->Ok_0@[i].1@));
        }
    }
}

/// The number of milliseconds of a duration literal is that of its numeral, in the unit that
/// its suffix names; a count of milliseconds that 64 bits do not hold is refused.
pub proof fn law_duration_literals(n: nat, s: &str, r: Result<DurationLit, DurationError>)
    requires
        n <= u64::MAX,
        call_ensures(DurationLit::parse_trimmed, (s,), r),
    ensures
        s@ == text::decimal(n) + seq!['m', 's'] ==> r is Ok && r->Ok_0.millis == n,
        s@ == text::decimal(n) + seq!['s'] && n * 1000 <= u64::MAX ==> r is Ok && r->Ok_0.millis
            == n * 1000,
        s@ == text::decimal(n) + seq!['m'] && n * 60_000 <= u64::MAX ==> r is Ok
            && r->Ok_0.millis == n * 60_000,
        s@ == text::decimal(n) + seq!['h'] && n * 3_600_000 <= u64::MAX ==> r is Ok
            && r->Ok_0.millis == n * 3_600_000,
        s@ == text::decimal(n) + seq!['h'] && n * 3_600_000 > u64::MAX ==> r is Err,
{
    text::law_decimal_is_read_back(n);
    text::lemma_decimal_digits(n);
    let t = s@;
    let d = text::decimal(n);
    let m = t.len() as int;
    assert(text::is_digit(d[d.len() - 1]));
    assert((d + seq!['m', 's']).last() == 's' && (d + seq!['m', 's'])[d.len() as int] == 'm');
    assert((d + seq!['s']).last() == 's' && (d + seq!['s']).len() == d.len() + 1);
    assert((d + seq!['m']).last() == 'm' && (d + seq!['h']).last() == 'h');
    if t == d + seq!['m', 's'] {
        assert(t.subrange(m - 2, m) =~= seq!['m', 's']);
        assert(t.take(m - 2) =~= d);
        assert(duration_lit::ends_in(t, seq!['m', 's']));
        assert(duration_lit::unit_of(t) == Some((2nat, 1nat)));
        assert(n * 1 == n);
        assert(duration_lit::literal_millis(t) == Ok::<nat, duration_lit::DurationFault>(n));
    } else if t == d + seq!['s'] {
        assert(t[m - 2] == d[d.len() - 1]);
        if duration_lit::ends_in(t, seq!['m', 's']) {
            assert(t.subrange(m - 2, m)[0] == 'm');
        }
        assert(t.subrange(m - 1, m) =~= seq!['s']);
        assert(t.take(m - 1) =~= d);
        assert(duration_lit::ends_in(t, seq!['s']));
        assert(duration_lit::unit_of(t) == Some((1nat, 1_000nat)));
    } else if t == d + seq!['m'] {
        if duration_lit::ends_in(t, seq!['m', 's']) {
            assert(t.subrange(m - 2, m)[1] == 's');
        }
        if duration_lit::ends_in(t, seq!['s']) {
            assert(t.subrange(m - 1, m)[0] == 's');
        }
        assert(t.subrange(m - 1, m) =~= seq!['m']);
        assert(t.take(m - 1) =~= d);
        assert(duration_lit::ends_in(t, seq!['m']));
        assert(duration_lit::unit_of(t) == Some((1nat, 60_000nat)));
    } else if t == d + seq!['h'] {
        if duration_lit::ends_in(t, seq!['m', 's']) {
            assert(t.subrange(m - 2, m)[1] == 's');
        }
        if duration_lit::ends_in(t, seq!['s']) {
            assert(t.subrange(m - 1, m)[0] == 's');
        }
        if duration_lit::ends_in(t, seq!['m']) {
            assert(t.subrange(m - 1, m)[0] == 'm');
        }
        assert(t.subrange(m - 1, m) =~= seq!['h']);
        assert(t.take(m - 1) =~= d);
        assert(duration_lit::ends_in(t, seq!['h']));
        assert(duration_lit::unit_of(t) == Some((1nat, 3_600_000nat)));
    }
}

/// A list of steps is a list of tasks with these structs.
pub open spec fn names_tasks(steps: Seq<PipeStep>, names: Seq<Seq<char>>) -> bool {
    steps.len() == names.len() && forall|j: int|
        #![trigger steps[j]]
        0 <= j < steps.len() ==> steps[j] is TaskRef && steps[j]->TaskRef_struct_name == names[j]
}

proof fn lemma_arm_prefix(steps: Seq<PipeStep>, k: nat)
    requires
        k <= steps.len(),
    ensures
        workflow_codegen::arm_prefix(steps, k) matches Some(p) ==> names_tasks(
            steps.take(k as int),
            p,
        ),
    decreases k,
{
    if k > 0 {
        lemma_arm_prefix(steps, (k - 1) as nat);
        if let Some(p) = workflow_codegen::arm_prefix(steps, k) {
            let q = workflow_codegen::arm_prefix(steps, (k - 1) as nat)->0;
            let a = steps.take(k as int);
            assert forall|j: int|
                #![trigger a[j]]
                0 <= j < k implies a[j] is TaskRef && a[j]->TaskRef_struct_name == p[j] by {
                if j < k - 1 {
                    assert(steps.take(k - 1)[j] == a[j]);
                    assert(p[j] == q[j]);
                }
            }
        }
    }
}

proof fn lemma_arm_tasks(steps: Seq<PipeStep>, span: usize)
    ensures
        workflow_codegen::arm_tasks(steps, span) matches Ok(p) ==> p.len() > 0 && names_tasks(
            steps,
            p,
        ),
{
    lemma_arm_prefix(steps, steps.len());
    assert(steps.take(steps.len() as int) =~= steps);
}

proof fn lemma_fork_calls(branches: Seq<PipeStep>, k: nat)
    requires
        k <= branches.len(),
    ensures
        workflow_codegen::fork_calls(branches, k) matches Ok(p) ==> p.len() == k + 1 && p[0]
            == CallSpec::Fork && forall|j: int|
            #![trigger branches[j]]
            0 <= j < k ==> branches[j] is TaskRef && p[j + 1] == CallSpec::ForkBranch(
                branches[j]->TaskRef_struct_name,
            ),
    decreases k,
{
    if k > 0 {
        lemma_fork_calls(branches, (k - 1) as nat);
    }
}

proof fn lemma_arm_calls(
    head: Seq<CallSpec>,
    arms: Seq<(ArmKey, Seq<PipeStep>)>,
    key_type: Option<Fragment>,
    span: usize,
    k: nat,
)
    requires
        k <= arms.len(),
    ensures
        workflow_codegen::arm_calls(head, arms, key_type, span, k) matches Ok(p) ==> p.len()
            == head.len() + k && p.take(head.len() as int) == head && forall|j: int|
            #![trigger arms[j]]
            0 <= j < k ==> is_arm(p[head.len() + j], arms[j].0, key_type, arms[j].1),
    decreases k,
{
    if k == 0 {
        assert(head.take(head.len() as int) =~= head);
    } else {
        lemma_arm_calls(head, arms, key_type, span, (k - 1) as nat);
        lemma_arm_tasks(arms[k - 1].1, span);
        if let Ok(p) = workflow_codegen::arm_calls(head, arms, key_type, span, k) {
            let q = workflow_codegen::arm_calls(head, arms, key_type, span, (k - 1) as nat)->Ok_0;
            assert(p.take(head.len() as int) =~= q.take(head.len() as int));
        }
    }
}

/// A call adds an arm with this key and these tasks, of which there is one at least.
pub open spec fn is_arm(
    c: CallSpec,
    key: ArmKey,
    key_type: Option<Fragment>,
    steps: Seq<PipeStep>,
) -> bool {
    c is Arm && c->key == key && c->key_type == key_type && steps.len() > 0 && names_tasks(
        steps,
        c->Arm_tasks,
    )
}

/// The calls of a pipeline keep what was written, step for step and in the order of the
/// text: the first calls are those of the first step with everything that it says, and the
/// rest are those of the steps after it. A fork takes in the task after it, which joins.
pub proof fn law_calls_keep_what_was_written(steps: Seq<PipeStep>, i: nat)
    requires
        i < steps.len(),
        workflow_codegen::chain_calls(steps, i) is Ok,
    ensures
        ({
            let c = workflow_codegen::chain_calls(steps, i)->Ok_0;
            match steps[i as int] {
                PipeStep::TaskRef { struct_name, .. } => c.len() > 0 && c[0]
                    == CallSpec::ThenRegistered(struct_name) && workflow_codegen::chain_calls(
                    steps,
                    i + 1,
                ) == Ok::<Seq<CallSpec>, ChainFault>(c.skip(1)),
                PipeStep::InlineTask { name, param_name, param_type, body, .. } => c.len() > 0
                    && c[0] == (CallSpec::Then { id: name, param_name, param_type, body })
                    && workflow_codegen::chain_calls(steps, i + 1) == Ok::<
                    Seq<CallSpec>,
                    ChainFault,
                >(c.skip(1)),
                PipeStep::Delay { id, duration, .. } => c.len() > 0 && c[0] == (CallSpec::Delay {
                    id,
                    duration,
                }) && workflow_codegen::chain_calls(steps, i + 1) == Ok::<
                    Seq<CallSpec>,
                    ChainFault,
                >(c.skip(1)),
                PipeStep::AwaitSignal { id, signal_name, timeout, .. } => c.len() > 0 && c[0] == (
                CallSpec::WaitForSignal { id, signal_name, timeout })
                    && workflow_codegen::chain_calls(steps, i + 1) == Ok::<
                    Seq<CallSpec>,
                    ChainFault,
                >(c.skip(1)),
                PipeStep::Loop { body, max_iterations, exit_with_last, .. } => c.len() > 0 && c[0]
                    == (CallSpec::Loop { body, max_iterations, exit_with_last })
                    && workflow_codegen::chain_calls(steps, i + 1) == Ok::<
                    Seq<CallSpec>,
                    ChainFault,
                >(c.skip(1)),
                PipeStep::Flow { expr, .. } => c.len() > 0 && c[0] == CallSpec::Flow(expr)
                    && workflow_codegen::chain_calls(steps, i + 1) == Ok::<
                    Seq<CallSpec>,
                    ChainFault,
                >(c.skip(1)),
                PipeStep::Parallel { branches, .. } => {
                    let n = branches.len() as int;
                    &&& n > 0
                    &&& i + 1 < steps.len()
                    &&& c.len() >= n + 2
                    &&& c[0] == CallSpec::Fork
                    &&& forall|j: int|
                        #![trigger branches[j]]
                        0 <= j < n ==> branches[j] is TaskRef && c[j + 1] == CallSpec::ForkBranch(
                            branches[j]->TaskRef_struct_name,
                        )
                    &&& steps[(i + 1) as int] is TaskRef
                    &&& c[n + 1] == CallSpec::Join(steps[(i + 1) as int]->TaskRef_struct_name)
                    &&& workflow_codegen::chain_calls(steps, i + 2) == Ok::<
                        Seq<CallSpec>,
                        ChainFault,
                    >(c.skip(n + 2))
                },
                PipeStep::Route { id, key_type, branches, default, .. } => {
                    let n = branches.len() as int;
                    let m = n + (if default is Some {
                        1int
                    } else {
                        0
                    });
                    &&& n > 0
                    &&& branches[0].1.last() is TaskRef
                    &&& c.len() >= m + 2
                    &&& c[0] == (CallSpec::Route {
                        id,
                        output_of: branches[0].1.last()->TaskRef_struct_name,
                    })
                    &&& forall|j: int|
                        #![trigger branches[j]]
                        0 <= j < n ==> is_arm(c[j + 1], branches[j].0, key_type, branches[j].1)
                    &&& default matches Some(d) ==> c[n + 1] is DefaultArm && d.len() > 0
                        && names_tasks(d, c[n + 1]->DefaultArm_0)
                    &&& c[m + 1] == CallSpec::Done
                    &&& workflow_codegen::chain_calls(steps, i + 1) == Ok::<
                        Seq<CallSpec>,
                        ChainFault,
                    >(c.skip(m + 2))
                },
            }
        }),
{
    let s = steps[i as int];
    let c = workflow_codegen::chain_calls(steps, i)->Ok_0;
    let here = workflow_codegen::step_calls(steps, i as int)->Ok_0;
    let next = if s is Parallel {
        i + 2
    } else {
        i + 1
    };
    let rest = workflow_codegen::chain_calls(steps, next)->Ok_0;
    assert(c == here + rest);
    assert(c.skip(here.len() as int) =~= rest);
    match s {
        PipeStep::Parallel { branches, span } => {
            let n = branches.len();
            lemma_fork_calls(branches, n);
            let p = workflow_codegen::fork_calls(branches, n)->Ok_0;
            assert forall|j: int|
                #![trigger branches[j]]
                0 <= j < n implies branches[j] is TaskRef && c[j + 1] == CallSpec::ForkBranch(
                branches[j]->TaskRef_struct_name,
            ) by {
                assert(c[j + 1] == p[j + 1]);
            }
            assert(c[0] == p[0]);
        },
        PipeStep::Route { id, key_type, branches, default, span, .. } => {
            let n = branches.len();
            let t = workflow_codegen::output_task(branches, span)->Ok_0;
            let head = seq![CallSpec::Route { id, output_of: t }];
            lemma_arm_calls(head, branches, key_type, span, n);
            let p = workflow_codegen::arm_calls(head, branches, key_type, span, n)->Ok_0;
            assert(p[0] == p.take(1)[0]);
            assert forall|j: int|
                #![trigger branches[j]]
                0 <= j < n implies is_arm(c[j + 1], branches[j].0, key_type, branches[j].1) by {
                assert(c[j + 1] == p[head.len() + j]);
            }
            if let Some(d) = default {
                lemma_arm_tasks(d, span);
            }
        },
        _ => {},
    }
}

/// Two lists of steps are lists of the same tasks.
pub open spec fn same_tasks(a: Seq<PipeStep>, b: Seq<PipeStep>) -> bool {
    a.len() == b.len() && forall|j: int|
        #![trigger a[j]]
        #![trigger b[j]]
        0 <= j < a.len() ==> a[j] is TaskRef && b[j] is TaskRef && a[j]->TaskRef_struct_name
            == b[j]->TaskRef_struct_name
}

/// Two steps say the same, wherever they stand in the text. The key function of a route is
/// told apart where it is registered.
pub open spec fn says_same(a: PipeStep, b: PipeStep) -> bool {
    match (a, b) {
        (
            PipeStep::TaskRef { struct_name: x, .. },
            PipeStep::TaskRef { struct_name: y, .. },
        ) => x == y,
        (
            PipeStep::InlineTask { name, param_name, param_type, body, .. },
            PipeStep::InlineTask { .. },
        ) => name == b->name && param_name == b->param_name && param_type == b->param_type && body
            == b->InlineTask_body,
        (PipeStep::Parallel { branches: x, .. }, PipeStep::Parallel { branches: y, .. }) =>
            same_tasks(x, y),
        (PipeStep::Delay { id, duration, .. }, PipeStep::Delay { .. }) => id == b->Delay_id
            && duration == b->duration,
        (
            PipeStep::AwaitSignal { id, signal_name, timeout, .. },
            PipeStep::AwaitSignal { .. },
        ) => id == b->AwaitSignal_id && signal_name == b->signal_name && timeout == b->timeout,
        (PipeStep::Loop { body, max_iterations, exit_with_last, .. }, PipeStep::Loop { .. }) =>
            body == b->Loop_body && max_iterations == b->max_iterations && exit_with_last
                == b->exit_with_last,
        (PipeStep::Flow { expr, .. }, PipeStep::Flow { .. }) => expr == b->expr,
        (PipeStep::Route { id, key_type, branches, default, .. }, PipeStep::Route { .. }) => {
            &&& id == b->Route_id && key_type == b->key_type
            &&& branches.len() == b->Route_branches.len()
            &&& forall|j: int|
                #![trigger branches[j]]
                0 <= j < branches.len() ==> branches[j].0 == b->Route_branches[j].0 && same_tasks(
                    branches[j].1,
                    b->Route_branches[j].1,
                )
            &&& match (default, b->Route_default) {
                (Some(x), Some(y)) => same_tasks(x, y),
                (None, None) => true,
                _ => false,
            }
        },
        _ => false,
    }
}

proof fn lemma_same_names(a: Seq<PipeStep>, b: Seq<PipeStep>, names: Seq<Seq<char>>)
    requires
        names_tasks(a, names),
        names_tasks(b, names),
    ensures
        same_tasks(a, b),
{
    assert forall|j: int|
        #![trigger a[j]]
        #![trigger b[j]]
        0 <= j < a.len() implies a[j] is TaskRef && b[j] is TaskRef && a[j]->TaskRef_struct_name
        == b[j]->TaskRef_struct_name by {
        assert(a[j]->TaskRef_struct_name == names[j] && b[j]->TaskRef_struct_name == names[j]);
    }
}

/// The calls tell pipelines apart: two pipelines that can be built and have the same calls
/// have as many steps, and step for step they say the same.
pub proof fn law_calls_tell_pipelines_apart(p: Seq<PipeStep>, i: nat, q: Seq<PipeStep>, j: nat)
    requires
        i <= p.len(),
        j <= q.len(),
        workflow_codegen::chain_calls(p, i) is Ok,
        workflow_codegen::chain_calls(p, i) == workflow_codegen::chain_calls(q, j),
    ensures
        p.len() - i == q.len() - j,
        forall|k: int|
            #![trigger p[i + k]]
            0 <= k < p.len() - i ==> says_same(p[i + k], q[j + k]),
    decreases p.len() - i,
{
    let c = workflow_codegen::chain_calls(p, i)->Ok_0;
    if i < p.len() {
        law_calls_keep_what_was_written(p, i);
    }
    if j < q.len() {
        law_calls_keep_what_was_written(q, j);
    }
    if i < p.len() {
        let a = p[i as int];
        let b = q[j as int];
        assert(c.len() > 0);
        assert(j < q.len());
        match a {
            PipeStep::Parallel { branches, .. } => {
                let n = branches.len() as int;
                assert(b is Parallel);
                let other = b->Parallel_branches;
                let m = other.len() as int;
                if n < m {
                    assert(other[n] is TaskRef);
                    assert(c[n + 1] is ForkBranch);
                }
                if m < n {
                    assert(branches[m] is TaskRef);
                    assert(c[m + 1] is ForkBranch);
                }
                assert(same_tasks(branches, other)) by {
                    assert forall|k: int|
                        #![trigger branches[k]]
                        #![trigger other[k]]
                        0 <= k < n implies branches[k] is TaskRef && other[k] is TaskRef
                        && branches[k]->TaskRef_struct_name == other[k]->TaskRef_struct_name by {
                        assert(branches[k] is TaskRef);
                        assert(other[k] is TaskRef);
                        assert(c[k + 1] is ForkBranch);
                    }
                }
                law_calls_tell_pipelines_apart(p, i + 2, q, j + 2);
                assert(says_same(p[(i + 1) as int], q[(j + 1) as int]));
                assert forall|k: int|
                    #![trigger p[i + k]]
                    0 <= k < p.len() - i implies says_same(p[i + k], q[j + k]) by {
                    if k >= 2 {
                        assert(says_same(p[i + 2 + (k - 2)], q[j + 2 + (k - 2)]));
                    }
                }
            },
            PipeStep::Route { branches, default, .. } => {
                let n = branches.len() as int;
                assert(b is Route);
                let other = b->Route_branches;
                let m = other.len() as int;
                if n < m {
                    assert(is_arm(c[n + 1], other[n].0, b->key_type, other[n].1));
                }
                if m < n {
                    assert(is_arm(c[m + 1], branches[m].0, a->key_type, branches[m].1));
                }
                assert(is_arm(c[1], branches[0].0, a->key_type, branches[0].1));
                assert(is_arm(c[1], other[0].0, b->key_type, other[0].1));
                assert forall|k: int| #![trigger branches[k]] 0 <= k < n implies branches[k].0
                    == other[k].0 && same_tasks(branches[k].1, other[k].1) by {
                    assert(is_arm(c[k + 1], branches[k].0, a->key_type, branches[k].1));
                    assert(is_arm(c[k + 1], other[k].0, b->key_type, other[k].1));
                    lemma_same_names(branches[k].1, other[k].1, c[k + 1]->Arm_tasks);
                }
                if default is Some && b->Route_default is Some {
                    lemma_same_names(
                        default->0,
                        b->Route_default->0,
                        c[n + 1]->DefaultArm_0,
                    );
                }
                assert(says_same(a, b));
                law_calls_tell_pipelines_apart(p, i + 1, q, j + 1);
                assert forall|k: int|
                    #![trigger p[i + k]]
                    0 <= k < p.len() - i implies says_same(p[i + k], q[j + k]) by {
                    if k >= 1 {
                        assert(says_same(p[i + 1 + (k - 1)], q[j + 1 + (k - 1)]));
                    }
                }
            },
            _ => {
                assert(says_same(a, b));
                law_calls_tell_pipelines_apart(p, i + 1, q, j + 1);
                assert forall|k: int|
                    #![trigger p[i + k]]
                    0 <= k < p.len() - i implies says_same(p[i + k], q[j + k]) by {
                    if k >= 1 {
                        assert(says_same(p[i + 1 + (k - 1)], q[j + 1 + (k - 1)]));
                    }
                }
            },
        }
    } else {
        assert(c.len() == 0);
    }
}

/// The calls from a step on are the end of the calls from an earlier step on, unless the
/// step is the task that joins a fork.
proof fn lemma_calls_from(steps: Seq<PipeStep>, from: nat, i: nat)
    requires
        from <= i < steps.len(),
        !(steps[i as int] is TaskRef),
        workflow_codegen::chain_calls(steps, from) is Ok,
    ensures
        workflow_codegen::chain_calls(steps, i) is Ok,
        workflow_codegen::chain_calls(steps, i)->Ok_0.is_suffix_of(
            workflow_codegen::chain_calls(steps, from)->Ok_0,
        ),
    decreases i - from,
{
    let c = workflow_codegen::chain_calls(steps, from)->Ok_0;
    if from == i {
        assert(c.subrange(0, c.len() as int) =~= c);
    } else {
        law_calls_keep_what_was_written(steps, from);
        let next = if steps[from as int] is Parallel {
            from + 2
        } else {
            from + 1
        };
        assert(next <= i);
        lemma_calls_from(steps, next, i);
        let rest = workflow_codegen::chain_calls(steps, next)->Ok_0;
        let end = workflow_codegen::chain_calls(steps, i)->Ok_0;
        assert(rest =~= c.skip(c.len() - rest.len()));
        assert(end =~= c.subrange(c.len() - end.len(), c.len() as int));
    }
}

/// Every step of a pipeline that is built is called for: among the generated calls is the
/// one that waits for the signal of a signal step, under its id and at most as long as is
/// written, the one that delays as long as a delay step says, the one that loops over the
/// task of a loop step within its limit, the one with the body of an inline task, and the
/// one with the expression of a child workflow.
pub proof fn law_every_step_is_called(
    steps: &Vec<WorkflowStep>,
    r: Result<Vec<Call>, ChainFault>,
    i: int,
)
    requires
        call_ensures(gen_step_chain, (steps,), r),
        r is Ok,
        0 <= i < steps@.len(),
    ensures
        match steps@[i] {
            WorkflowStep::AwaitSignal { id, signal_name, timeout, .. } => exists|k: int|
                0 <= k < r->Ok_0@.len() && (#[trigger] r->Ok_0@[k])@ == (CallSpec::WaitForSignal {
                    id: id@,
                    signal_name: signal_name@,
                    timeout,
                }),
            WorkflowStep::Delay { id, duration, .. } => exists|k: int|
                0 <= k < r->Ok_0@.len() && (#[trigger] r->Ok_0@[k])@ == (CallSpec::Delay {
                    id: id@,
                    duration,
                }),
            WorkflowStep::Loop { body, max_iterations, exit_with_last, .. } => exists|k: int|
                0 <= k < r->Ok_0@.len() && (#[trigger] r->Ok_0@[k])@ == (CallSpec::Loop {
                    body: body@,
                    max_iterations: max_iterations@,
                    exit_with_last,
                }),
            WorkflowStep::InlineTask { name, param_name, param_type, body, .. } => exists|k: int|
                0 <= k < r->Ok_0@.len() && (#[trigger] r->Ok_0@[k])@ == (CallSpec::Then {
                    id: name@,
                    param_name: param_name@,
                    param_type,
                    body,
                }),
            WorkflowStep::Flow { expr, .. } => exists|k: int|
                0 <= k < r->Ok_0@.len() && (#[trigger] r->Ok_0@[k])@ == CallSpec::Flow(expr),
            _ => true,
        },
{
    let p = workflow_macro::pipe(steps@);
    let c = workflow_codegen::calls(r->Ok_0@);
    if !(steps@[i] is TaskRef) {
        assert(p[i] == steps@[i].step());
        lemma_calls_from(p, 0, i as nat);
        law_calls_keep_what_was_written(p, i as nat);
        let end = workflow_codegen::chain_calls(p, i as nat)->Ok_0;
        let k = c.len() - end.len();
        assert(end[0] == c[k]);
        assert(c[k] == r->Ok_0@[k]@);
    }
}

/// A text of spaces, tabs and ends of lines.
pub open spec fn is_blank(s: Seq<char>) -> bool {
    forall|i: int|
        #![trigger s[i]]
        0 <= i < s.len() ==> s[i] == ' ' || s[i] == '\t' || s[i] == '\n' || s[i] == '\r'
}

proof fn lemma_blank_start(b: Seq<char>, s: Seq<char>)
    requires
        is_blank(b),
    ensures
        duration_lit::trimmed_start(b + s) == duration_lit::trimmed_start(s),
    decreases b.len(),
{
    if b.len() == 0 {
        assert(b + s =~= s);
    } else {
        let c = b.drop_first();
        assert(b[0] == (b + s)[0]);
        assert((b + s).drop_first() =~= c + s);
        assert forall|i: int| #![trigger c[i]] 0 <= i < c.len() implies c[i] == ' ' || c[i] == '\t'
            || c[i] == '\n' || c[i] == '\r' by {
            assert(c[i] == b[i + 1]);
        }
        lemma_blank_start(c, s);
    }
}

proof fn lemma_blank_end(s: Seq<char>, b: Seq<char>)
    requires
        is_blank(b),
    ensures
        duration_lit::trimmed_end(s + b) == duration_lit::trimmed_end(s),
    decreases b.len(),
{
    if b.len() == 0 {
        assert(s + b =~= s);
    } else {
        let c = b.drop_last();
        assert(b.last() == b[b.len() - 1]);
        assert((s + b).last() == b.last());
        assert((s + b).drop_last() =~= s + c);
        assert forall|i: int| #![trigger c[i]] 0 <= i < c.len() implies c[i] == ' ' || c[i] == '\t'
            || c[i] == '\n' || c[i] == '\r' by {
            assert(c[i] == b[i]);
        }
        lemma_blank_end(s, c);
    }
}

proof fn lemma_start_of_pieces(s: Seq<char>, b: Seq<char>)
    ensures
        duration_lit::trimmed_start(s + b) == (if duration_lit::trimmed_start(s).len() == 0 {
            duration_lit::trimmed_start(b)
        } else {
            duration_lit::trimmed_start(s) + b
        }),
    decreases s.len(),
{
    if s.len() == 0 {
        assert(s + b =~= b);
    } else {
        assert((s + b)[0] == s[0]);
        assert((s + b).drop_first() =~= s.drop_first() + b);
        if duration_lit::white_space(s[0]) {
            lemma_start_of_pieces(s.drop_first(), b);
        }
    }
}

/// Blanks around a duration literal make no difference, and a literal without any is read as
/// it stands.
pub proof fn law_blanks_around_are_dropped(
    s: &str,
    t: &str,
    before: Seq<char>,
    after: Seq<char>,
    r: Result<DurationLit, DurationError>,
    q: Result<DurationLit, DurationError>,
    p: Result<DurationLit, DurationError>,
)
    requires
        is_blank(before) && is_blank(after),
        t@ == before + s@ + after,
        call_ensures(DurationLit::parse, (s,), r),
        call_ensures(DurationLit::parse, (t,), q),
        call_ensures(DurationLit::parse_trimmed, (s,), p),
    ensures
        r is Ok <==> q is Ok,
        r is Ok ==> q->Ok_0.millis == r->Ok_0.millis,
        r is Err ==> q->Err_0@ == r->Err_0@,
        s@.len() > 0 && '0' <= s@[0] <= 'z' && '0' <= s@.last() <= 'z' ==> (r is Ok <==> p is Ok)
            && (r is Ok ==> r->Ok_0.millis == p->Ok_0.millis) && (r is Err ==> r->Err_0@
            == p->Err_0@),
{
    let u = s@ + after;
    assert(t@ =~= before + u);
    lemma_blank_start(before, u);
    lemma_start_of_pieces(s@, after);
    let empty = Seq::<char>::empty();
    lemma_blank_start(after, empty);
    assert(after + empty =~= after);
    assert(duration_lit::trimmed_start(after) == empty);
    lemma_blank_end(duration_lit::trimmed_start(s@), after);
    if duration_lit::trimmed_start(s@).len() == 0 {
        assert(duration_lit::trimmed_start(s@) =~= empty);
    }
}

} // verus!
