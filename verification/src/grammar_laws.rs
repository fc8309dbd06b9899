//! Workflows are read as they are written: what each form of a step says is in the step.
use crate::duration_lit;
use crate::duration_lit::DurationLit;
use crate::naming;
use crate::rust_syntax;
use crate::rust_syntax::{Delim, Syntax, Tok, Token};
use crate::text;
use crate::workflow_codegen;
use crate::workflow_grammar;
use crate::workflow_grammar::{Failure, FieldsSpec, GrammarError, Left, WorkflowDef};
use crate::workflow_macro::{ArmKey, Fragment, PipeStep};
use vstd::prelude::*;

verus! {

/// A token is this word.
pub open spec fn word(t: Seq<Tok>, i: int, w: Seq<char>) -> bool {
    0 <= i < t.len() && t[i] is Ident && t[i]->Ident_text == w
}

/// A token is a string literal.
pub open spec fn string(t: Seq<Tok>, i: int) -> bool {
    0 <= i < t.len() && t[i] is Str
}

/// A token is this punctuation.
pub open spec fn mark(t: Seq<Tok>, i: int, p: Seq<char>) -> bool {
    0 <= i < t.len() && t[i] is Punct && t[i]->Punct_text == p
}

/// A token and the next one are these two characters in a row.
pub open spec fn marks(t: Seq<Tok>, i: int, p: Seq<char>, q: Seq<char>) -> bool {
    mark(t, i, p) && t[i]->joint && mark(t, i + 1, q)
}

/// A string literal says a duration.
pub open spec fn says_duration(s: Seq<char>, d: DurationLit) -> bool {
    duration_lit::literal_millis(duration_lit::trimmed(s)) is Ok && duration_lit::literal_millis(
        duration_lit::trimmed(s),
    )->Ok_0 == d.millis
}

/// The token names a task, by the name of its function.
pub open spec fn names_task(t: Seq<Tok>, i: int, s: PipeStep) -> bool {
    &&& 0 <= i < t.len() && t[i] is Ident
    &&& t[i]->Ident_text != "route"@ && t[i]->Ident_text != "flow"@
    &&& s == (PipeStep::TaskRef {
        struct_name: naming::pascal_case(t[i]->Ident_text, true) + "Task"@,
        span: rust_syntax::span_of(t[i]),
    })
}

/// Tokens name tasks, with commas between them.
pub open spec fn names_tasks(t: Seq<Tok>, tasks: Seq<PipeStep>) -> bool {
    &&& tasks.len() > 0
    &&& t.len() == 2 * tasks.len() - 1
    &&& forall|a: int| #![trigger tasks[a]] 0 <= a < tasks.len() ==> names_task(t, 2 * a, tasks[a])
    &&& forall|a: int|
        #![trigger tasks[a]]
        0 <= a < tasks.len() - 1 ==> mark(t, 2 * a + 1, ","@)
}

/// Five tokens are an arm of a route: the key, `=>`, the tasks in brackets, and a comma,
/// which may be left out at the end.
pub open spec fn says_arm(t: Seq<Tok>, i: int, tasks: Seq<PipeStep>) -> bool {
    &&& 0 <= i && i + 4 <= t.len()
    &&& marks(t, i + 1, "="@, ">"@)
    &&& t[i + 3] is Group && t[i + 3]->delim == Delim::Bracket
    &&& names_tasks(t[i + 3]->body, tasks)
    &&& i + 4 == t.len() || mark(t, i + 4, ","@)
}

/// Tokens are the arms of a route, and its default last where there is one.
pub open spec fn says_arms(
    t: Seq<Tok>,
    typed: bool,
    arms: Seq<(ArmKey, Seq<PipeStep>)>,
    default: Option<Seq<PipeStep>>,
) -> bool {
    let m = arms.len() as int;
    let n = m + (if default is Some {
        1int
    } else {
        0
    });
    &&& m > 0
    &&& t.len() == 5 * n || t.len() == 5 * n - 1
    &&& forall|a: int|
        #![trigger arms[a]]
        0 <= a < m ==> says_arm(t, 5 * a, arms[a].1) && (if t[5 * a] is Str {
            arms[a].0 == ArmKey::Literal(t[5 * a]->value)
        } else {
            typed && t[5 * a] is Ident && arms[a].0 == ArmKey::Variant(t[5 * a]->Ident_text)
        })
    &&& default is Some ==> says_arm(t, 5 * m, default->0) && t[5 * m] is Keyword
        && t[5 * m]->Keyword_text == "_"@
}

/// The tokens from the `i`-th on, `w` of them, are a form of a step.
pub open spec fn says_step(t: Seq<Tok>, i: int, w: int, s: PipeStep) -> bool {
    &&& 0 <= i < i + w <= t.len()
    &&& match s {
        PipeStep::TaskRef { .. } => w == 1 && names_task(t, i, s),
        PipeStep::Delay { id, duration, span } => word(t, i, "delay"@) && span
            == rust_syntax::span_of(t[i]) && string(t, i + 1) && (if w == 3 {
            string(t, i + 2) && id == t[i + 1]->value && says_duration(t[i + 2]->value, duration)
        } else {
            w == 2 && says_duration(t[i + 1]->value, duration) && id == "delay_"@ + text::decimal(
                duration.millis as nat,
            )
        }),
        PipeStep::AwaitSignal { id, signal_name, timeout, span } => {
            let v = if timeout is Some {
                w - 2
            } else {
                w
            };
            &&& word(t, i, "signal"@) && span == rust_syntax::span_of(t[i])
            &&& string(t, i + 1)
            &&& if v == 3 {
                string(t, i + 2) && id == t[i + 1]->value && signal_name == t[i + 2]->value
            } else {
                v == 2 && signal_name == t[i + 1]->value && id == "signal_"@ + t[i + 1]->value
            }
            &&& timeout is Some ==> word(t, i + v, "timeout"@) && string(t, i + v + 1)
                && says_duration(t[i + v + 1]->value, timeout->0)
        },
        PipeStep::Loop { body, max_iterations, exit_with_last, span } => t[i] is Keyword
            && t[i]->Keyword_text == "loop"@ && span == rust_syntax::span_of(t[i]) && w == (
        if exit_with_last {
            4int
        } else {
            3
        }) && t[i + 1] is Ident && body == naming::pascal_case(t[i + 1]->Ident_text, true)
            + "Task"@ && t[i + 2] is Int && max_iterations == t[i + 2]->Int_text && (exit_with_last
            ==> word(t, i + 3, "exit_with_last"@)),
        PipeStep::Parallel { branches, span } => {
            let m = branches.len() as int;
            &&& m > 1
            &&& w == 3 * m - 2
            &&& span == rust_syntax::span_of(t[i])
            &&& forall|a: int|
                #![trigger branches[a]]
                0 <= a < m ==> names_task(t, i + 3 * a, branches[a]) && (a < m - 1 ==> marks(
                    t,
                    i + 3 * a + 1,
                    "|"@,
                    "|"@,
                ))
        },
        PipeStep::Route { id, key_fn, key_type, branches, default, span } => {
            let v = match key_type {
                Some(f) => f.len as int + 2,
                None => 0,
            };
            &&& id.len() == 0
            &&& word(t, i, "route"@) && span == rust_syntax::span_of(t[i])
            &&& w == v + 3
            &&& t[i + 1] is Ident && key_fn == naming::pascal_case(t[i + 1]->Ident_text, true)
                + "Task"@
            &&& key_type is Some ==> marks(t, i + 2, "-"@, ">"@) && rust_syntax::piece(
                Syntax::Path,
                t,
                (i + 4) as nat,
            ) == Ok::<nat, rust_syntax::SyntaxFault>(key_type->0.len as nat) && key_type->0.first
                == rust_syntax::span_of(t[i + 4])
            &&& t[i + 2 + v] is Group && t[i + 2 + v]->delim == Delim::Brace
            &&& says_arms(t[i + 2 + v]->body, key_type is Some, branches, default)
        },
        PipeStep::InlineTask { name, param_name, param_type, body, span } => {
            &&& w == 3
            &&& word(t, i, name) && name != "route"@ && name != "flow"@
            &&& span == rust_syntax::span_of(t[i])
            &&& t[i + 1] is Group && t[i + 1]->delim == Delim::Paren
            &&& word(t[i + 1]->body, 0, param_name) && mark(t[i + 1]->body, 1, ":"@)
            &&& is_code(Syntax::Type, t[i + 1]->body, 2, param_type)
            &&& 2 + param_type.len == t[i + 1]->body.len()
            &&& t[i + 2] is Group && t[i + 2]->delim == Delim::Brace
            &&& is_code(Syntax::Expr, t[i + 2]->body, 0, body)
            &&& body.len == t[i + 2]->body.len()
        },
        PipeStep::Flow { expr, span } => word(t, i, "flow"@) && span == rust_syntax::span_of(t[i])
            && is_code(Syntax::Expr, t, i + 1, expr) && w == 1 + expr.len,
    }
}

/// A piece of Rust code stands at a token.
pub open spec fn is_code(kind: Syntax, t: Seq<Tok>, i: int, f: Fragment) -> bool {
    0 <= i < t.len() && rust_syntax::piece(kind, t, i as nat) == Ok::<
        nat,
        rust_syntax::SyntaxFault,
    >(f.len as nat) && f.first == rust_syntax::span_of(t[i])
}

/// After a step comes a comma or nothing.
pub open spec fn ends(t: Seq<Tok>, j: int) -> bool {
    j == t.len() || mark(t, j, ","@)
}

proof fn lemma_words()
    ensures
        "delay"@ != "route"@ && "delay"@ != "flow"@,
        "signal"@ != "route"@ && "signal"@ != "flow"@ && "signal"@ != "delay"@,
        "flow"@ != "route"@,
        ","@ != "|"@ && ","@ != "-"@ && ","@ != "="@,
{
    reveal_strlit("delay");
    reveal_strlit("route");
    reveal_strlit("flow");
    reveal_strlit("signal");
    reveal_strlit(",");
    reveal_strlit("|");
    reveal_strlit("-");
    reveal_strlit("=");
    assert("delay"@.len() == 5 && "route"@.len() == 5 && "flow"@.len() == 4 && "signal"@.len() == 6);
    assert("delay"@[0] == 'd' && "route"@[0] == 'r');
    assert(","@[0] == ',' && "|"@[0] == '|' && "-"@[0] == '-' && "="@[0] == '=');
}

/// The name of a task is read as that task.
proof fn lemma_task(t: Seq<Tok>, i: int, s: PipeStep, end: usize, u: Option<Left>)
    requires
        names_task(t, i, s),
        i + 1 == t.len() || t[i + 1] is Punct,
    ensures
        workflow_grammar::single_step(t, i as nat, end, u) == Ok::<
            (PipeStep, nat, Option<Left>),
            Failure,
        >((s, 1, u)),
{
}

proof fn lemma_tasks_from(
    t: Seq<Tok>,
    tasks: Seq<PipeStep>,
    a: int,
    end: usize,
    u: Option<Left>,
)
    requires
        names_tasks(t, tasks),
        0 <= a < tasks.len(),
    ensures
        workflow_grammar::more_steps(t, (2 * a + 1) as nat, end, u, tasks.take(a + 1)) == Ok::<
            (Seq<PipeStep>, nat, Option<Left>),
            Failure,
        >((tasks, t.len(), u)),
    decreases tasks.len() - a,
{
    lemma_words();
    if a + 1 < tasks.len() {
        let j = 2 * a + 2;
        assert(names_task(t, 2 * (a + 1), tasks[a + 1]));
        assert(mark(t, 2 * a + 1, ","@)) by {
            let _ = tasks[a];
        }
        if a + 2 < tasks.len() {
            assert(mark(t, 2 * (a + 1) + 1, ","@)) by {
                let _ = tasks[a + 1];
            }
        }
        lemma_task(t, j, tasks[a + 1], end, u);
        assert(workflow_grammar::any_step(t, j as nat, end, u) == Ok::<
            (PipeStep, nat, Option<Left>),
            Failure,
        >((tasks[a + 1], 1, u)));
        lemma_tasks_from(t, tasks, a + 1, end, u);
        assert(tasks.take(a + 1).push(tasks[a + 1]) =~= tasks.take(a + 2));
    } else {
        assert(tasks.take(a + 1) =~= tasks);
    }
}

/// Names of tasks are read as those tasks.
proof fn lemma_tasks(t: Seq<Tok>, tasks: Seq<PipeStep>, end: usize, u: Option<Left>)
    requires
        names_tasks(t, tasks),
    ensures
        workflow_grammar::pipeline(t, end, u) == Ok::<
            (Seq<PipeStep>, nat, Option<Left>),
            Failure,
        >((tasks, t.len(), u)),
{
    lemma_words();
    assert(names_task(t, 0, tasks[0]));
    if tasks.len() > 1 {
        assert(mark(t, 1, ","@));
    }
    lemma_task(t, 0, tasks[0], end, u);
    assert(workflow_grammar::any_step(t, 0, end, u) == Ok::<
        (PipeStep, nat, Option<Left>),
        Failure,
    >((tasks[0], 1, u)));
    lemma_tasks_from(t, tasks, 0, end, u);
    assert(tasks.take(1) =~= seq![tasks[0]]);
}

/// The arms of a route are read as they are written.
#[verifier::spinoff_prover]
#[verifier::rlimit(40)]
proof fn lemma_arms_from(
    t: Seq<Tok>,
    typed: bool,
    arms: Seq<(ArmKey, Seq<PipeStep>)>,
    default: Option<Seq<PipeStep>>,
    a: int,
    end: usize,
    u: Option<Left>,
    span: usize,
)
    requires
        says_arms(t, typed, arms, default),
        0 <= a <= arms.len(),
    ensures
        workflow_grammar::route_arms(
            t,
            (5 * a) as nat,
            end,
            u,
            typed,
            span,
            arms.take(a),
            None,
        ) == Ok::<
            (Seq<(ArmKey, Seq<PipeStep>)>, Option<Seq<PipeStep>>, Option<Left>),
            Failure,
        >((arms, default, u)),
    decreases arms.len() - a,
{
    lemma_words();
    let m = arms.len() as int;
    let i = 5 * a;
    reveal_with_fuel(workflow_grammar::route_arms, 2);
    if a < m {
        let x = arms[a];
        assert(says_arm(t, i, x.1));
        lemma_tasks(t[i + 3]->body, x.1, t[i + 3]->close, u);
        assert(workflow_grammar::bracketed(t, (i + 3) as nat, end, u) == Ok::<
            (Seq<PipeStep>, Option<Left>),
            Failure,
        >((x.1, u)));
        assert(workflow_grammar::arm_pipeline(t, (i + 1) as nat, end, u) == Ok::<
            (Seq<PipeStep>, Option<Left>),
            Failure,
        >((x.1, u)));
        assert(workflow_grammar::arm_key(t[i], typed) == Some(Some(x.0)));
        lemma_arms_from(t, typed, arms, default, a + 1, end, u, span);
        assert(arms.take(a).push(x) =~= arms.take(a + 1));
        if i + 4 == t.len() {
            assert(a + 1 == m && default is None);
            assert(arms.take(a + 1) =~= arms);
        }
    } else {
        assert(arms.take(a) =~= arms);
        if default is Some {
            let d = default->0;
            assert(says_arm(t, i, d));
            lemma_tasks(t[i + 3]->body, d, t[i + 3]->close, u);
            assert(workflow_grammar::bracketed(t, (i + 3) as nat, end, u) == Ok::<
                (Seq<PipeStep>, Option<Left>),
                Failure,
            >((d, u)));
            assert(workflow_grammar::arm_pipeline(t, (i + 1) as nat, end, u) == Ok::<
                (Seq<PipeStep>, Option<Left>),
                Failure,
            >((d, u)));
            assert(workflow_grammar::arm_key(t[i], typed) == Some(None::<ArmKey>));
        }
    }
}

/// A step that is no fork is read as it is written.
#[verifier::spinoff_prover]
proof fn lemma_single(t: Seq<Tok>, i: int, w: int, s: PipeStep, end: usize, u: Option<Left>)
    requires
        says_step(t, i, w, s),
        ends(t, i + w),
        !(s is Parallel),
    ensures
        workflow_grammar::single_step(t, i as nat, end, u) == Ok::<
            (PipeStep, nat, Option<Left>),
            Failure,
        >((s, w as nat, u)),
{
    lemma_words();
    match s {
        PipeStep::TaskRef { .. } => {
            lemma_task(t, i, s, end, u);
        },
        PipeStep::Route { key_type, branches, default, span, .. } => {
            let v = match key_type {
                Some(f) => f.len as int + 2,
                None => 0,
            };
            let j = i + 2 + v;
            lemma_arms_from(
                t[j]->body,
                key_type is Some,
                branches,
                default,
                0,
                t[j]->close,
                u,
                span,
            );
            assert(branches.take(0) =~= seq![]);
            assert(workflow_grammar::key_type_at(t, (i + 2) as nat, end) == Ok::<
                (Option<Fragment>, nat),
                Failure,
            >((key_type, v as nat)));
            let r = workflow_grammar::route_step(t, (i + 1) as nat, end, span, u);
            assert(r is Ok);
            assert((r->Ok_0).0->Route_id =~= s->Route_id);
            assert((r->Ok_0).0 == s);
        },
        _ => {},
    }
}

/// The branches of a fork are read as they are written.
proof fn lemma_branches_from(
    t: Seq<Tok>,
    i: int,
    w: int,
    s: PipeStep,
    a: int,
    end: usize,
    u: Option<Left>,
)
    requires
        says_step(t, i, w, s),
        ends(t, i + w),
        s is Parallel,
        0 <= a < s->Parallel_branches.len(),
    ensures
        workflow_grammar::more_branches(
            t,
            (i + 3 * a + 1) as nat,
            end,
            u,
            s->Parallel_branches.take(a + 1),
        ) == Ok::<(Seq<PipeStep>, nat, Option<Left>), Failure>(
            (s->Parallel_branches, (w - 3 * a - 1) as nat, u),
        ),
    decreases s->Parallel_branches.len() - a,
{
    lemma_words();
    let b = s->Parallel_branches;
    let m = b.len() as int;
    if a + 1 < m {
        let j = i + 3 * (a + 1);
        let _ = b[a];
        assert(names_task(t, i + 3 * (a + 1), b[a + 1]));
        if a + 2 < m {
            assert(marks(t, i + 3 * (a + 1) + 1, "|"@, "|"@));
        }
        lemma_task(t, j, b[a + 1], end, u);
        lemma_branches_from(t, i, w, s, a + 1, end, u);
        assert(b.take(a + 1).push(b[a + 1]) =~= b.take(a + 2));
        assert(workflow_grammar::is_pair(t, (i + 3 * a + 1) as nat, "|"@, "|"@));
    } else {
        assert(b.take(a + 1) =~= b);
        assert(!workflow_grammar::is_pair(t, (i + 3 * a + 1) as nat, "|"@, "|"@));
    }
}

/// A step is read as it is written.
proof fn lemma_step(t: Seq<Tok>, i: int, w: int, s: PipeStep, end: usize, u: Option<Left>)
    requires
        says_step(t, i, w, s),
        ends(t, i + w),
    ensures
        workflow_grammar::any_step(t, i as nat, end, u) == Ok::<
            (PipeStep, nat, Option<Left>),
            Failure,
        >((s, w as nat, u)),
{
    lemma_words();
    if let PipeStep::Parallel { branches, span } = s {
        let _ = branches[0];
        assert(names_task(t, i + 3 * 0, branches[0]));
        assert(marks(t, i + 3 * 0 + 1, "|"@, "|"@));
        lemma_task(t, i, branches[0], end, u);
        lemma_branches_from(t, i, w, s, 0, end, u);
        assert(branches.take(1) =~= seq![branches[0]]);
        assert(workflow_grammar::is_pair(t, (i + 1) as nat, "|"@, "|"@));
    } else {
        lemma_single(t, i, w, s, end, u);
        assert(!workflow_grammar::is_pair(t, (i + w) as nat, "|"@, "|"@));
    }
}

/// The tokens from the `j`-th on are the parts from the `n`-th on, each of so many tokens,
/// with commas between them and perhaps one at the end.
pub open spec fn says_steps(t: Seq<Tok>, j: int, parts: Seq<(int, PipeStep)>, n: int) -> bool
    decreases parts.len() - n,
{
    if n < 0 || n >= parts.len() {
        false
    } else {
        says_step(t, j, parts[n].0, parts[n].1) && (if n + 1 == parts.len() {
            j + parts[n].0 == t.len() || (mark(t, j + parts[n].0, ","@) && j + parts[n].0 + 1
                == t.len())
        } else {
            mark(t, j + parts[n].0, ","@) && j + parts[n].0 + 1 < t.len() && says_steps(
                t,
                j + parts[n].0 + 1,
                parts,
                n + 1,
            )
        })
    }
}

/// The steps of parts.
pub open spec fn steps_of(parts: Seq<(int, PipeStep)>) -> Seq<PipeStep> {
    Seq::new(parts.len(), |i: int| parts[i].1)
}

proof fn lemma_steps_from(
    t: Seq<Tok>,
    j: int,
    parts: Seq<(int, PipeStep)>,
    n: int,
    end: usize,
    u: Option<Left>,
)
    requires
        0 <= j,
        0 <= n < parts.len(),
        says_steps(t, j, parts, n),
    ensures
        workflow_grammar::any_step(t, j as nat, end, u) == Ok::<
            (PipeStep, nat, Option<Left>),
            Failure,
        >((parts[n].1, parts[n].0 as nat, u)),
        workflow_grammar::more_steps(
            t,
            (j + parts[n].0) as nat,
            end,
            u,
            steps_of(parts).take(n + 1),
        ) == Ok::<(Seq<PipeStep>, nat, Option<Left>), Failure>((steps_of(parts), t.len(), u)),
    decreases parts.len() - n,
{
    lemma_words();
    let w = parts[n].0;
    let all = steps_of(parts);
    assert(ends(t, j + w));
    lemma_step(t, j, w, parts[n].1, end, u);
    let k = (j + w) as nat;
    if n + 1 == parts.len() {
        assert(all.take(n + 1) =~= all);
        if k == t.len() {
            assert(!workflow_grammar::is_punct(t, k, ","@));
        } else {
            assert(workflow_grammar::is_punct(t, k, ","@));
        }
    } else {
        lemma_steps_from(t, j + w + 1, parts, n + 1, end, u);
        assert(all.take(n + 1).push(all[n + 1]) =~= all.take(n + 2));
        assert(workflow_grammar::is_punct(t, k, ","@));
        let v = parts[n + 1].0;
        reveal_with_fuel(says_steps, 2);
        assert(says_step(t, j + w + 1, v, parts[n + 1].1));
        assert(k + 1 + v as nat == (j + w + 1 + v) as nat);
        assert(workflow_grammar::more_steps(t, k, end, u, all.take(n + 1))
            == workflow_grammar::more_steps(
            t,
            k + 1 + v as nat,
            end,
            u,
            all.take(n + 1).push(all[n + 1]),
        ));
    }
}

/// Numbering leaves tasks as they are.
proof fn lemma_tasks_unnumbered(t: Seq<Tok>, tasks: Seq<PipeStep>, k: nat, c: nat)
    requires
        names_tasks(t, tasks),
        k <= tasks.len(),
    ensures
        workflow_codegen::numbered_steps(tasks, k, c) == (tasks.take(k as int), c),
    decreases k,
{
    if k > 0 {
        lemma_tasks_unnumbered(t, tasks, (k - 1) as nat, c);
        let s = tasks[k - 1];
        assert(names_task(t, 2 * (k - 1), s));
        assert(workflow_codegen::numbered_step(s, c) == (s, c));
        assert(tasks.take(k - 1).push(s) =~= tasks.take(k as int));
    } else {
        assert(tasks.take(0) =~= seq![]);
    }
}

proof fn lemma_arms_unnumbered(
    t: Seq<Tok>,
    typed: bool,
    arms: Seq<(ArmKey, Seq<PipeStep>)>,
    default: Option<Seq<PipeStep>>,
    k: nat,
    c: nat,
)
    requires
        says_arms(t, typed, arms, default),
        k <= arms.len(),
    ensures
        workflow_codegen::numbered_arms(arms, k, c) == (arms.take(k as int), c),
    decreases k,
{
    if k > 0 {
        lemma_arms_unnumbered(t, typed, arms, default, (k - 1) as nat, c);
        let x = arms[k - 1];
        assert(says_arm(t, 5 * (k - 1), x.1));
        lemma_tasks_unnumbered(t[5 * (k - 1) + 3]->body, x.1, x.1.len(), c);
        assert(x.1.take(x.1.len() as int) =~= x.1);
        assert(arms.take(k - 1).push(x) =~= arms.take(k as int));
    } else {
        assert(arms.take(0) =~= seq![]);
    }
}

/// A step is what was written, but for the number that a route gets.
pub open spec fn as_written(read: PipeStep, s: PipeStep) -> bool {
    match s {
        PipeStep::Route { key_fn, key_type, branches, default, span, .. } => read is Route
            && read->key_fn == key_fn && read->key_type == key_type && read->Route_branches
            == branches && read->Route_default == default && read->Route_span == span,
        _ => read == s,
    }
}

proof fn lemma_one_numbered(t: Seq<Tok>, i: int, w: int, s: PipeStep, c: nat)
    requires
        says_step(t, i, w, s),
    ensures
        as_written(workflow_codegen::numbered_step(s, c).0, s),
        workflow_codegen::numbered_step(s, c).1 <= c + 1,
{
    if let PipeStep::Route { key_type, branches, default, .. } = s {
        let v = match key_type {
            Some(f) => f.len as int + 2,
            None => 0,
        };
        let b = t[i + 2 + v]->body;
        lemma_arms_unnumbered(b, key_type is Some, branches, default, branches.len(), c + 1);
        assert(branches.take(branches.len() as int) =~= branches);
        if let Some(d) = default {
            let m = branches.len() as int;
            assert(says_arm(b, 5 * m, d));
            lemma_tasks_unnumbered(b[5 * m + 3]->body, d, d.len(), c + 1);
            assert(d.take(d.len() as int) =~= d);
        }
    }
}

/// Every part is spelled somewhere.
proof fn lemma_part(t: Seq<Tok>, j: int, parts: Seq<(int, PipeStep)>, n: int, k: int) -> (i: int)
    requires
        0 <= n <= k < parts.len(),
        says_steps(t, j, parts, n),
    ensures
        says_step(t, i, parts[k].0, parts[k].1),
    decreases k - n,
{
    if n == k {
        j
    } else {
        lemma_part(t, j + parts[n].0 + 1, parts, n + 1, k)
    }
}

proof fn lemma_all_numbered(t: Seq<Tok>, parts: Seq<(int, PipeStep)>, k: nat)
    requires
        says_steps(t, 0, parts, 0),
        k <= parts.len(),
    ensures
        ({
            let r = workflow_codegen::numbered_steps(steps_of(parts), k, 0);
            r.0.len() == k && r.1 <= k && forall|i: int|
                #![trigger r.0[i]]
                0 <= i < k ==> as_written(r.0[i], parts[i].1)
        }),
    decreases k,
{
    if k > 0 {
        lemma_all_numbered(t, parts, (k - 1) as nat);
        let i = lemma_part(t, 0, parts, 0, k - 1);
        let c = workflow_codegen::numbered_steps(steps_of(parts), (k - 1) as nat, 0).1;
        lemma_one_numbered(t, i, parts[k - 1].0, parts[k - 1].1, c);
    }
}

/// Tokens are the fields of a workflow: its name, and its steps in brackets.
pub open spec fn says_fields(t: Seq<Tok>, id: Seq<char>) -> bool {
    says_name(t, id) && says_last_field(t, 4)
}

/// Tokens start with the name of a workflow.
pub open spec fn says_name(t: Seq<Tok>, id: Seq<char>) -> bool {
    &&& word(t, 0, "name"@) && mark(t, 1, ":"@)
    &&& string(t, 2) && t[2]->value == id
    &&& mark(t, 3, ","@)
}

/// Tokens end with the steps of a workflow, from the `p`-th on.
pub open spec fn says_last_field(t: Seq<Tok>, p: int) -> bool {
    &&& 0 <= p && t.len() == p + 3
    &&& word(t, p, "steps"@) && mark(t, p + 1, ":"@)
    &&& t[p + 2] is Group && t[p + 2]->delim == Delim::Bracket
}

/// Tokens are a workflow: its name, and its steps in brackets.
pub open spec fn says_workflow(t: Seq<Tok>, id: Seq<char>, parts: Seq<(int, PipeStep)>) -> bool {
    says_fields(t, id) && says_steps(t[6]->body, 0, parts, 0)
}

/// The steps in brackets are read as they are written.
proof fn lemma_body(body: Seq<Tok>, parts: Seq<(int, PipeStep)>, close: usize)
    requires
        says_steps(body, 0, parts, 0),
    ensures
        workflow_grammar::pipeline(body, close, None) == Ok::<
            (Seq<PipeStep>, nat, Option<Left>),
            Failure,
        >((steps_of(parts), body.len(), None)),
        ({
            let r = workflow_codegen::numbered_steps(steps_of(parts), parts.len(), 0);
            r.0.len() == parts.len() && r.1 <= parts.len() && forall|i: int|
                #![trigger r.0[i]]
                0 <= i < parts.len() ==> as_written(r.0[i], parts[i].1)
        }),
{
    let all = steps_of(parts);
    assert(parts.len() > 0);
    lemma_steps_from(body, 0, parts, 0, close, None);
    assert(all.take(1) =~= seq![parts[0].1]);
    lemma_all_numbered(body, parts, parts.len());
}

proof fn lemma_field_names()
    ensures
        workflow_grammar::field_of("name"@) == Some(workflow_grammar::Field::Name),
        workflow_grammar::field_of("steps"@) == Some(workflow_grammar::Field::Steps),
        workflow_grammar::field_of("codec"@) == Some(workflow_grammar::Field::Codec),
        workflow_grammar::field_of("registry"@) == Some(workflow_grammar::Field::Registry),
        workflow_grammar::field_of("metadata"@) == Some(workflow_grammar::Field::Metadata),
        workflow_grammar::field_of("deps"@) == Some(workflow_grammar::Field::Deps),
        "codec"@ != "registry"@ && "codec"@ != "metadata"@ && "codec"@ != "deps"@,
        "registry"@ != "metadata"@ && "registry"@ != "deps"@ && "metadata"@ != "deps"@,
{
    reveal_strlit("name");
    reveal_strlit("steps");
    reveal_strlit("codec");
    reveal_strlit("registry");
    reveal_strlit("metadata");
    reveal_strlit("deps");
    assert("name"@.len() == 4 && "steps"@.len() == 5 && "codec"@.len() == 5 && "deps"@.len() == 4);
    assert("registry"@.len() == 8 && "metadata"@.len() == 8);
    assert("codec"@[0] == 'c' && "steps"@[0] == 's' && "name"@[0] == 'n' && "deps"@[0] == 'd');
    assert("registry"@[0] == 'r' && "metadata"@[0] == 'm');
}

proof fn lemma_name_field(k: Seq<Tok>, end: usize, id: Seq<char>)
    requires
        says_name(k, id),
    ensures
        workflow_grammar::one_field(k, 0, end, None, workflow_grammar::no_fields()) == Ok::<
            (FieldsSpec, nat, Option<Left>),
            Failure,
        >((FieldsSpec { name: Some(id), ..workflow_grammar::no_fields() }, 2, None)),
{
    lemma_field_names();
}

proof fn lemma_steps_field(
    k: Seq<Tok>,
    end: usize,
    p: int,
    all: Seq<PipeStep>,
    a: FieldsSpec,
)
    requires
        says_last_field(k, p),
        a.steps is None,
        workflow_grammar::pipeline(k[p + 2]->body, k[p + 2]->close, None) == Ok::<
            (Seq<PipeStep>, nat, Option<Left>),
            Failure,
        >((all, k[p + 2]->body.len(), None)),
        workflow_codegen::numbered_steps(all, all.len(), 0).1 <= usize::MAX,
    ensures
        workflow_grammar::all_fields(k, p as nat, end, None, a) == Ok::<
            (FieldsSpec, Option<Left>),
            Failure,
        >(
            (
                FieldsSpec {
                    steps: Some(workflow_codegen::numbered_steps(all, all.len(), 0).0),
                    ..a
                },
                None,
            ),
        ),
{
    lemma_field_names();
    let two = FieldsSpec {
        steps: Some(workflow_codegen::numbered_steps(all, all.len(), 0).0),
        ..a
    };
    let n = p as nat;
    let b = workflow_grammar::bracketed(k, n + 2, end, None);
    assert(workflow_grammar::is_group(k, n + 2, Delim::Bracket));
    assert(b == Ok::<(Seq<PipeStep>, Option<Left>), Failure>((all, None)));
    assert(workflow_grammar::ident_at(k, n, end) == Ok::<Seq<char>, Failure>("steps"@));
    assert(workflow_grammar::is_punct(k, n + 1, ":"@));
    assert(!workflow_grammar::is_punct(k, n + 3, ","@));
    assert(workflow_grammar::with_value(
        k,
        n + 2,
        end,
        None,
        workflow_grammar::Field::Steps,
        rust_syntax::span_of(k[p]),
        a,
    ) == Ok::<(FieldsSpec, nat, Option<Left>), Failure>((two, 1, None)));
    assert(workflow_grammar::one_field(k, n, end, None, a) == Ok::<
        (FieldsSpec, nat, Option<Left>),
        Failure,
    >((two, 1, None)));
    assert(workflow_grammar::all_fields(k, n + 3, end, None, two) == Ok::<
        (FieldsSpec, Option<Left>),
        Failure,
    >((two, None)));
}

/// The name and the steps are all fields.
proof fn lemma_fields(k: Seq<Tok>, end: usize, id: Seq<char>, all: Seq<PipeStep>)
    requires
        says_fields(k, id),
        workflow_grammar::pipeline(k[6]->body, k[6]->close, None) == Ok::<
            (Seq<PipeStep>, nat, Option<Left>),
            Failure,
        >((all, k[6]->body.len(), None)),
        workflow_codegen::numbered_steps(all, all.len(), 0).1 <= usize::MAX,
    ensures
        workflow_grammar::all_fields(k, 0, end, None, workflow_grammar::no_fields()) == Ok::<
            (FieldsSpec, Option<Left>),
            Failure,
        >(
            (
                FieldsSpec {
                    name: Some(id),
                    steps: Some(workflow_codegen::numbered_steps(all, all.len(), 0).0),
                    ..workflow_grammar::no_fields()
                },
                None,
            ),
        ),
{
    let one = FieldsSpec { name: Some(id), ..workflow_grammar::no_fields() };
    lemma_name_field(k, end, id);
    lemma_steps_field(k, end, 4, all, one);
}

/// Tokens are a workflow with one more field: its name, the field with its code, and its
/// steps in brackets.
pub open spec fn says_more(
    t: Seq<Tok>,
    id: Seq<char>,
    field: Seq<char>,
    kind: Syntax,
    code: Fragment,
    parts: Seq<(int, PipeStep)>,
) -> bool {
    &&& says_name(t, id)
    &&& word(t, 4, field) && mark(t, 5, ":"@)
    &&& is_code(kind, t, 6, code)
    &&& mark(t, 6 + code.len, ","@)
    &&& says_last_field(t, 7 + code.len)
    &&& says_steps(t[9 + code.len]->body, 0, parts, 0)
}

proof fn lemma_more_fields(
    k: Seq<Tok>,
    end: usize,
    id: Seq<char>,
    field: Seq<char>,
    kind: Syntax,
    code: Fragment,
    parts: Seq<(int, PipeStep)>,
    a: FieldsSpec,
)
    requires
        says_more(k, id, field, kind, code, parts),
        parts.len() <= usize::MAX,
        a.steps is None,
        workflow_grammar::field_of(field) is Some,
        workflow_grammar::with_value(
            k,
            6,
            end,
            None,
            workflow_grammar::field_of(field)->0,
            rust_syntax::span_of(k[4]),
            FieldsSpec { name: Some(id), ..workflow_grammar::no_fields() },
        ) == Ok::<(FieldsSpec, nat, Option<Left>), Failure>((a, code.len as nat, None)),
        !workflow_grammar::is_given(
            FieldsSpec { name: Some(id), ..workflow_grammar::no_fields() },
            workflow_grammar::field_of(field)->0,
        ),
    ensures
        workflow_grammar::all_fields(k, 0, end, None, workflow_grammar::no_fields()) == Ok::<
            (FieldsSpec, Option<Left>),
            Failure,
        >(
            (
                FieldsSpec {
                    steps: Some(
                        workflow_codegen::numbered_steps(steps_of(parts), parts.len(), 0).0,
                    ),
                    ..a
                },
                None,
            ),
        ),
{
    let one = FieldsSpec { name: Some(id), ..workflow_grammar::no_fields() };
    let p = 7 + code.len as int;
    let all = steps_of(parts);
    assert(all.len() == parts.len());
    lemma_body(k[p + 2]->body, parts, k[p + 2]->close);
    lemma_name_field(k, end, id);
    lemma_steps_field(k, end, p, all, a);
    assert(workflow_grammar::one_field(k, 4, end, None, one) == Ok::<
        (FieldsSpec, nat, Option<Left>),
        Failure,
    >((a, (code.len + 1) as nat, None)));
    assert(4 + 2 + (code.len + 1) as nat == p as nat);
    assert(workflow_grammar::all_fields(k, 4, end, None, one)
        == workflow_grammar::all_fields(k, p as nat, end, None, a));
}

/// The fields with a name and one field more.
spec fn with_field(id: Seq<char>, field: Seq<char>, code: Fragment) -> FieldsSpec {
    let one = FieldsSpec { name: Some(id), ..workflow_grammar::no_fields() };
    if field == "codec"@ {
        FieldsSpec { codec: Some(code), ..one }
    } else if field == "registry"@ {
        FieldsSpec { registry: Some(code), ..one }
    } else if field == "metadata"@ {
        FieldsSpec { metadata: Some(code), ..one }
    } else {
        FieldsSpec { deps: Some(code), ..one }
    }
}

/// The kind of code that a field has.
pub open spec fn code_kind(field: Seq<char>) -> Syntax {
    if field == "codec"@ {
        Syntax::Path
    } else {
        Syntax::Expr
    }
}

proof fn lemma_field_value(k: Seq<Tok>, end: usize, id: Seq<char>, field: Seq<char>, code: Fragment)
    requires
        field == "codec"@ || field == "registry"@ || field == "metadata"@ || field == "deps"@,
        is_code(code_kind(field), k, 6, code),
    ensures
        workflow_grammar::field_of(field) is Some,
        workflow_grammar::with_value(
            k,
            6,
            end,
            None,
            workflow_grammar::field_of(field)->0,
            rust_syntax::span_of(k[4]),
            FieldsSpec { name: Some(id), ..workflow_grammar::no_fields() },
        ) == Ok::<(FieldsSpec, nat, Option<Left>), Failure>(
            (with_field(id, field, code), code.len as nat, None),
        ),
        !workflow_grammar::is_given(
            FieldsSpec { name: Some(id), ..workflow_grammar::no_fields() },
            workflow_grammar::field_of(field)->0,
        ),
{
    lemma_field_names();
    assert(workflow_grammar::code_at(code_kind(field), k, 6, end) == Ok::<
        (Fragment, nat),
        Failure,
    >((code, code.len as nat)));
}

/// A codec, a registry, metadata and dependencies that are written are kept with a workflow,
/// each as what it is, and nothing else is.
#[verifier::spinoff_prover]
#[verifier::rlimit(50)]
pub proof fn law_written_field_is_kept(
    t: &Vec<Token>,
    end: usize,
    r: Result<WorkflowDef, GrammarError>,
    id: Seq<char>,
    field: Seq<char>,
    code: Fragment,
    parts: Seq<(int, PipeStep)>,
)
    requires
        field == "codec"@ || field == "registry"@ || field == "metadata"@ || field == "deps"@,
        says_more(
            rust_syntax::toks(t@),
            id,
            field,
            code_kind(field),
            code,
            parts,
        ),
        parts.len() <= usize::MAX,
        call_ensures(WorkflowDef::parse, (t, end), r),
    ensures
        r is Ok,
        r->Ok_0@.id == id,
        r->Ok_0@.steps.len() == parts.len(),
        r->Ok_0@.codec == (if field == "codec"@ {
            Some(code)
        } else {
            None
        }),
        r->Ok_0@.registry == (if field == "registry"@ {
            Some(code)
        } else {
            None
        }),
        r->Ok_0@.metadata == (if field == "metadata"@ {
            Some(code)
        } else {
            None
        }),
        r->Ok_0@.deps == (if field == "deps"@ {
            Some(code)
        } else {
            None
        }),
{
    lemma_field_names();
    let k = rust_syntax::toks(t@);
    assert(is_code(code_kind(field), k, 6, code));
    lemma_field_value(k, end, id, field, code);
    lemma_more_fields(
        k,
        end,
        id,
        field,
        code_kind(field),
        code,
        parts,
        with_field(id, field, code),
    );
    assert(says_steps(k[9 + code.len]->body, 0, parts, 0));
    lemma_body(k[9 + code.len]->body, parts, 0);
}

/// A workflow is read as it is written: under its name, with as many steps as are written,
/// and step for step with all that is written. A task is named by its function. A delay has
/// the id and the length that are written, a signal its id, its name and its timeout, a loop
/// its task, its limit and whether it exits with the last result, a fork its branches, a
/// route its key function, the type of its keys, its arms and its default, a task with a body
/// of its own its name, its parameter and its body, and a child workflow its expression.
pub proof fn law_workflow_is_read_as_written(
    t: &Vec<Token>,
    end: usize,
    r: Result<WorkflowDef, GrammarError>,
    id: Seq<char>,
    parts: Seq<(int, PipeStep)>,
)
    requires
        says_workflow(rust_syntax::toks(t@), id, parts),
        parts.len() <= usize::MAX,
        call_ensures(WorkflowDef::parse, (t, end), r),
    ensures
        r is Ok,
        r->Ok_0@.id == id,
        r->Ok_0@.codec is None && r->Ok_0@.registry is None && r->Ok_0@.metadata is None
            && r->Ok_0@.deps is None,
        r->Ok_0@.steps.len() == parts.len(),
        forall|i: int|
            #![trigger parts[i]]
            0 <= i < parts.len() ==> as_written(r->Ok_0@.steps[i], parts[i].1),
{
    let k = rust_syntax::toks(t@);
    lemma_body(k[6]->body, parts, k[6]->close);
    let all = steps_of(parts);
    assert(all.len() == parts.len());
    lemma_fields(k, end, id, all);
    let numbered = workflow_codegen::numbered_steps(all, all.len(), 0);
    assert forall|i: int| #![trigger parts[i]] 0 <= i < parts.len() implies as_written(
        r->Ok_0@.steps[i],
        parts[i].1,
    ) by {
        assert(as_written(numbered.0[i], parts[i].1));
    }
}

} // verus!
