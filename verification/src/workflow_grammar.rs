//! The grammar of the `workflow!` macro.
//!
//! A workflow is written as fields in any order:
//!
//! ```text
//! name: "workflow-id",
//! codec: CodecType,
//! registry: registry_expr,
//! metadata: metadata_expr,
//! deps: deps_expr,
//! steps: [step, step, step]
//! ```
use crate::continuation_builder;
use crate::duration_lit;
use crate::duration_lit::{DurationError, DurationFault, DurationLit};
use crate::naming;
use crate::naming::task_struct_name;
use crate::rust_syntax;
use crate::rust_syntax::{
    find_piece, read_tokens, Delim, Syntax, SyntaxError, SyntaxFault, Tok, Token,
};
use crate::string_map::str_same;
use crate::text;
use crate::text::{concat, concat3, decimal_text};
use crate::workflow_codegen;
use crate::workflow_codegen::{generate, renumber_branches, route_count, ChainFault, GeneratedWorkflow};
use crate::workflow_macro;
use crate::workflow_macro::{ArmKey, BranchArmKey, Fragment, PipeStep, WorkflowStep};
use vstd::prelude::*;

verus! {

/// A field of a workflow.
#[derive(Debug, Clone, Copy, PartialEq, Eq, Structural)]
pub enum Field {
    /// `name`.
    Name,
    /// `codec`.
    Codec,
    /// `registry`.
    Registry,
    /// `metadata`.
    Metadata,
    /// `deps`.
    Deps,
    /// `steps`.
    Steps,
}

/// What is wrong with the tokens of a workflow.
pub enum GrammarFault {
    /// No identifier.
    NoIdent,
    /// A keyword in place of an identifier.
    Keyword(String),
    /// No `:`.
    NoColon,
    /// No `=>`.
    NoArrow,
    /// No string literal.
    NoStr,
    /// No group with these delimiters.
    NoGroup(Delim),
    /// A piece of Rust code that cannot be read.
    Code(SyntaxError),
    /// A duration that cannot be read.
    Duration(DurationError),
    /// A pipeline without steps.
    NoSteps,
    /// No step.
    NoStep,
    /// An identifier before a string literal that starts no step.
    NotAStep(String),
    /// A loop without a task.
    LoopTask,
    /// A loop without a maximum.
    LoopMax,
    /// A loop with an unknown policy.
    LoopPolicy,
    /// A route without a key function.
    RouteKeyFn,
    /// A second default arm.
    SecondDefault,
    /// An arm without a key. Whether the route is typed.
    ArmKey(bool),
    /// A route without named arms.
    NoNamedArm,
    /// A second value of a field.
    SecondField(Field),
    /// A field of another name.
    UnknownField(String),
    /// No `name` or no `steps`.
    MissingField(Field),
    /// More routes than can be counted.
    TooManyRoutes,
    /// A token after the end of what stands between delimiters.
    Leftover(Delim),
}

/// The contents of a [`GrammarFault`].
pub enum Fault {
    NoIdent,
    Keyword(Seq<char>),
    NoColon,
    NoArrow,
    NoStr,
    NoGroup(Delim),
    Code(SyntaxFault),
    Duration(DurationFault),
    NoSteps,
    NoStep,
    NotAStep(Seq<char>),
    LoopTask,
    LoopMax,
    LoopPolicy,
    RouteKeyFn,
    SecondDefault,
    ArmKey(bool),
    NoNamedArm,
    SecondField(Field),
    UnknownField(Seq<char>),
    MissingField(Field),
    TooManyRoutes,
    Leftover(Delim),
}

impl View for GrammarFault {
    type V = Fault;

    open spec fn view(&self) -> Fault {
        match *self {
            GrammarFault::NoIdent => Fault::NoIdent,
            GrammarFault::Keyword(s) => Fault::Keyword(s@),
            GrammarFault::NoColon => Fault::NoColon,
            GrammarFault::NoArrow => Fault::NoArrow,
            GrammarFault::NoStr => Fault::NoStr,
            GrammarFault::NoGroup(d) => Fault::NoGroup(d),
            GrammarFault::Code(e) => Fault::Code(e@),
            GrammarFault::Duration(e) => Fault::Duration(e@),
            GrammarFault::NoSteps => Fault::NoSteps,
            GrammarFault::NoStep => Fault::NoStep,
            GrammarFault::NotAStep(s) => Fault::NotAStep(s@),
            GrammarFault::LoopTask => Fault::LoopTask,
            GrammarFault::LoopMax => Fault::LoopMax,
            GrammarFault::LoopPolicy => Fault::LoopPolicy,
            GrammarFault::RouteKeyFn => Fault::RouteKeyFn,
            GrammarFault::SecondDefault => Fault::SecondDefault,
            GrammarFault::ArmKey(b) => Fault::ArmKey(b),
            GrammarFault::NoNamedArm => Fault::NoNamedArm,
            GrammarFault::SecondField(f) => Fault::SecondField(f),
            GrammarFault::UnknownField(s) => Fault::UnknownField(s@),
            GrammarFault::MissingField(f) => Fault::MissingField(f),
            GrammarFault::TooManyRoutes => Fault::TooManyRoutes,
            GrammarFault::Leftover(d) => Fault::Leftover(d),
        }
    }
}

/// What is wrong with the tokens of a workflow, and where.
pub struct GrammarError {
    /// Place of the token at fault.
    pub place: usize,
    /// Whether the tokens ended there.
    pub end: bool,
    /// What is wrong.
    pub fault: GrammarFault,
}

/// The contents of a [`GrammarError`].
pub struct Failure {
    pub place: usize,
    pub end: bool,
    pub fault: Fault,
}

impl View for GrammarError {
    type V = Failure;

    open spec fn view(&self) -> Failure {
        Failure { place: self.place, end: self.end, fault: self.fault@ }
    }
}

/// The name of a field.
pub open spec fn field_text(f: Field) -> Seq<char> {
    match f {
        Field::Name => "name"@,
        Field::Codec => "codec"@,
        Field::Registry => "registry"@,
        Field::Metadata => "metadata"@,
        Field::Deps => "deps"@,
        Field::Steps => "steps"@,
    }
}

impl Field {
    /// The name of the field.
    pub fn name(&self) -> (r: &'static str)
        ensures
            r@ == field_text(*self),
    {
        match self {
            Field::Name => "name",
            Field::Codec => "codec",
            Field::Registry => "registry",
            Field::Metadata => "metadata",
            Field::Deps => "deps",
            Field::Steps => "steps",
        }
    }
}

/// What a fault says.
pub open spec fn fault_text(f: Fault) -> Seq<char> {
    match f {
        Fault::NoIdent => "expected identifier"@,
        Fault::Keyword(s) => "expected identifier, found keyword `"@ + s + "`"@,
        Fault::NoColon => "expected `:`"@,
        Fault::NoArrow => "expected `=>`"@,
        Fault::NoStr => "expected string literal"@,
        Fault::NoGroup(Delim::Paren) => "expected parentheses"@,
        Fault::NoGroup(Delim::Brace) => "expected curly braces"@,
        Fault::NoGroup(Delim::Bracket) => "expected square brackets"@,
        Fault::Code(SyntaxFault::Rust(m)) => m,
        Fault::Code(SyntaxFault::Unreadable) => "unreadable token"@,
        Fault::Duration(d) => duration_lit::duration_text(d),
        Fault::NoSteps => "expected at least one pipeline step"@,
        Fault::NoStep =>
            "expected a task name, inline task, `delay`, `signal`, `route`, `loop`, `flow`, or `(`"@,
        Fault::NotAStep(s) => "unexpected identifier `"@ + s
            + "` followed by string literal; did you mean `delay`, `signal`, or `route`?"@,
        Fault::LoopTask => "expected a task name after `loop`, e.g. loop refine_task 10"@,
        Fault::LoopMax =>
            "expected max_iterations integer after task name, e.g. loop refine_task 10"@,
        Fault::LoopPolicy =>
            "expected `exit_with_last` after max_iterations, or `,` / `]` to end the loop step"@,
        Fault::RouteKeyFn =>
            "expected a key function name after `route`, e.g. route classify { ... }"@,
        Fault::SecondDefault => "duplicate default branch `_`"@,
        Fault::ArmKey(true) =>
            "expected a variant name, string literal, or `_` for default branch"@,
        Fault::ArmKey(false) => "expected a string literal key or `_` for default branch"@,
        Fault::NoNamedArm => "route must have at least one named branch"@,
        Fault::SecondField(f) => "duplicate `"@ + field_text(f) + "` field"@,
        Fault::UnknownField(s) => "unknown field `"@ + s
            + "`; expected `name`, `steps`, `codec`, `registry`, or `metadata`"@,
        Fault::MissingField(f) => "missing required field `"@ + field_text(f) + "`"@,
        Fault::TooManyRoutes => "too many routes"@,
        Fault::Leftover(Delim::Paren) => "unexpected token, expected `)`"@,
        Fault::Leftover(Delim::Brace) => "unexpected token, expected `}`"@,
        Fault::Leftover(Delim::Bracket) => "unexpected token, expected `]`"@,
    }
}

impl GrammarFault {
    /// What the fault says.
    fn text(&self) -> (r: String)
        ensures
            r@ == fault_text(self@),
    {
        match self {
            GrammarFault::NoIdent => String::from_str("expected identifier"),
            GrammarFault::Keyword(s) => concat3(
                "expected identifier, found keyword `",
                s.as_str(),
                "`",
            ),
            GrammarFault::NoColon => String::from_str("expected `:`"),
            GrammarFault::NoArrow => String::from_str("expected `=>`"),
            GrammarFault::NoStr => String::from_str("expected string literal"),
            GrammarFault::NoGroup(Delim::Paren) => String::from_str("expected parentheses"),
            GrammarFault::NoGroup(Delim::Brace) => String::from_str("expected curly braces"),
            GrammarFault::NoGroup(Delim::Bracket) => String::from_str("expected square brackets"),
            GrammarFault::Code(SyntaxError::Rust(m)) => m.clone(),
            GrammarFault::Code(SyntaxError::Unreadable) => String::from_str("unreadable token"),
            GrammarFault::Duration(d) => d.to_string(),
            GrammarFault::NoSteps => String::from_str("expected at least one pipeline step"),
            GrammarFault::NoStep => String::from_str(
                "expected a task name, inline task, `delay`, `signal`, `route`, `loop`, `flow`, or `(`",
            ),
            GrammarFault::NotAStep(s) => concat3(
                "unexpected identifier `",
                s.as_str(),
                "` followed by string literal; did you mean `delay`, `signal`, or `route`?",
            ),
            GrammarFault::LoopTask => String::from_str(
                "expected a task name after `loop`, e.g. loop refine_task 10",
            ),
            GrammarFault::LoopMax => String::from_str(
                "expected max_iterations integer after task name, e.g. loop refine_task 10",
            ),
            GrammarFault::LoopPolicy => String::from_str(
                "expected `exit_with_last` after max_iterations, or `,` / `]` to end the loop step",
            ),
            GrammarFault::RouteKeyFn => String::from_str(
                "expected a key function name after `route`, e.g. route classify { ... }",
            ),
            GrammarFault::SecondDefault => String::from_str("duplicate default branch `_`"),
            GrammarFault::ArmKey(true) => String::from_str(
                "expected a variant name, string literal, or `_` for default branch",
            ),
            GrammarFault::ArmKey(false) => String::from_str(
                "expected a string literal key or `_` for default branch",
            ),
            GrammarFault::NoNamedArm => String::from_str(
                "route must have at least one named branch",
            ),
            GrammarFault::SecondField(f) => concat3("duplicate `", f.name(), "` field"),
            GrammarFault::UnknownField(s) => concat3(
                "unknown field `",
                s.as_str(),
                "`; expected `name`, `steps`, `codec`, `registry`, or `metadata`",
            ),
            GrammarFault::MissingField(f) => concat3("missing required field `", f.name(), "`"),
            GrammarFault::TooManyRoutes => String::from_str("too many routes"),
            GrammarFault::Leftover(Delim::Paren) => String::from_str(
                "unexpected token, expected `)`",
            ),
            GrammarFault::Leftover(Delim::Brace) => String::from_str(
                "unexpected token, expected `}`",
            ),
            GrammarFault::Leftover(Delim::Bracket) => String::from_str(
                "unexpected token, expected `]`",
            ),
        }
    }
}

/// What an error says.
pub open spec fn failure_text(f: Failure) -> Seq<char> {
    if f.end {
        "unexpected end of input, "@ + fault_text(f.fault)
    } else {
        fault_text(f.fault)
    }
}

impl GrammarError {
    /// What the error says.
    pub fn to_string(&self) -> (r: String)
        ensures
            r@ == failure_text(self@),
    {
        let t = self.fault.text();
        if self.end {
            concat("unexpected end of input, ", t.as_str())
        } else {
            t
        }
    }
}

/// The first token that was left over between delimiters.
#[derive(Debug, Clone, Copy, PartialEq, Eq, Structural)]
pub struct Left {
    /// Place of the token.
    pub place: usize,
    /// The delimiters.
    pub delim: Delim,
}

/// The number of tokens from the `i`-th on.
pub open spec fn room(t: Seq<Tok>, i: nat) -> nat {
    if i < t.len() {
        (t.len() - i) as nat
    } else {
        0
    }
}

/// The place of the `i`-th token, or of the end.
pub open spec fn place_at(t: Seq<Tok>, i: nat, end: usize) -> usize {
    if i < t.len() {
        rust_syntax::span_of(t[i as int])
    } else {
        end
    }
}

/// An error at the `i`-th token, or at the end.
pub open spec fn failed_at(t: Seq<Tok>, i: nat, end: usize, fault: Fault) -> Failure {
    Failure { place: place_at(t, i, end), end: i >= t.len(), fault }
}

/// An error at a place.
pub open spec fn failed(place: usize, fault: Fault) -> Failure {
    Failure { place, end: false, fault }
}

/// The `i`-th token is this punctuation.
pub open spec fn is_punct(t: Seq<Tok>, i: nat, p: Seq<char>) -> bool {
    i < t.len() && t[i as int] is Punct && t[i as int]->Punct_text == p
}

/// The `i`-th token and the next one are these two characters in a row.
pub open spec fn is_pair(t: Seq<Tok>, i: nat, a: Seq<char>, b: Seq<char>) -> bool {
    is_punct(t, i, a) && t[i as int]->joint && is_punct(t, i + 1, b)
}

/// The `i`-th token is a string literal.
pub open spec fn is_str(t: Seq<Tok>, i: nat) -> bool {
    i < t.len() && t[i as int] is Str
}

/// The `i`-th token is an identifier.
pub open spec fn is_ident(t: Seq<Tok>, i: nat) -> bool {
    i < t.len() && t[i as int] is Ident
}

/// The `i`-th token is a group with these delimiters.
pub open spec fn is_group(t: Seq<Tok>, i: nat, d: Delim) -> bool {
    i < t.len() && t[i as int] is Group && t[i as int]->delim == d
}

/// The identifier at the `i`-th token.
pub open spec fn ident_at(t: Seq<Tok>, i: nat, end: usize) -> Result<Seq<char>, Failure> {
    if is_ident(t, i) {
        Ok(t[i as int]->Ident_text)
    } else if i < t.len() && t[i as int] is Keyword {
        Err(failed_at(t, i, end, Fault::Keyword(t[i as int]->Keyword_text)))
    } else {
        Err(failed_at(t, i, end, Fault::NoIdent))
    }
}

/// The piece of Rust code at the `i`-th token, and its number of tokens.
pub open spec fn code_at(kind: Syntax, t: Seq<Tok>, i: nat, end: usize) -> Result<
    (Fragment, nat),
    Failure,
> {
    match rust_syntax::piece(kind, t, i) {
        Ok(n) => Ok((Fragment { first: place_at(t, i, end), len: n as usize }, n)),
        Err(f) => Err(failed(place_at(t, i, end), Fault::Code(f))),
    }
}

/// What a string literal at a place says as a duration.
pub open spec fn duration_at(s: Seq<char>, place: usize) -> Result<DurationLit, Failure> {
    match duration_lit::literal_millis(duration_lit::trimmed(s)) {
        Ok(ms) => Ok(DurationLit { millis: ms as u64 }),
        Err(f) => Err(failed(place, Fault::Duration(f))),
    }
}

/// The first token left over, once the first `j` tokens of a group are read.
pub open spec fn left_over(u: Option<Left>, body: Seq<Tok>, j: nat, delim: Delim) -> Option<
    Left,
> {
    if u is None && j < body.len() {
        Some(Left { place: rust_syntax::span_of(body[j as int]), delim })
    } else {
        u
    }
}

/// `delay "5s"` or `delay "my_id" "5s"` at the `i`-th token, and its number of tokens.
pub open spec fn delay_step(t: Seq<Tok>, i: nat, span: usize) -> Result<(PipeStep, nat), Failure> {
    let first = t[(i + 1) as int]->value;
    if is_str(t, i + 2) {
        match duration_at(t[(i + 2) as int]->value, rust_syntax::span_of(t[(i + 2) as int])) {
            Ok(duration) => Ok((PipeStep::Delay { id: first, duration, span }, 3)),
            Err(f) => Err(f),
        }
    } else {
        match duration_at(first, rust_syntax::span_of(t[(i + 1) as int])) {
            Ok(duration) => Ok(
                (
                    PipeStep::Delay {
                        id: continuation_builder::numbered("delay_"@, duration.millis as nat),
                        duration,
                        span,
                    },
                    2,
                ),
            ),
            Err(f) => Err(f),
        }
    }
}

/// `timeout "30s"` at the `i`-th token, where it stands there, and its number of tokens.
pub open spec fn timeout_at(t: Seq<Tok>, i: nat, end: usize) -> Result<
    (Option<DurationLit>, nat),
    Failure,
> {
    if is_ident(t, i) && t[i as int]->Ident_text == "timeout"@ {
        if is_str(t, i + 1) {
            match duration_at(t[(i + 1) as int]->value, rust_syntax::span_of(t[(i + 1) as int])) {
                Ok(d) => Ok((Some(d), 2)),
                Err(f) => Err(f),
            }
        } else {
            Err(failed_at(t, i + 1, end, Fault::NoStr))
        }
    } else {
        Ok((None, 0))
    }
}

/// `signal "name"` or `signal "my_id" "name"` at the `i`-th token, with the timeout after
/// it, and its number of tokens.
pub open spec fn signal_step(t: Seq<Tok>, i: nat, end: usize, span: usize) -> Result<
    (PipeStep, nat),
    Failure,
> {
    let first = t[(i + 1) as int]->value;
    let two = is_str(t, i + 2);
    let id = if two {
        first
    } else {
        "signal_"@ + first
    };
    let signal_name = if two {
        t[(i + 2) as int]->value
    } else {
        first
    };
    let n: nat = if two {
        3
    } else {
        2
    };
    match timeout_at(t, i + n, end) {
        Ok((timeout, m)) => Ok((PipeStep::AwaitSignal { id, signal_name, timeout, span }, n + m)),
        Err(f) => Err(f),
    }
}

/// The integer literal at the `i`-th token, with the sign before it, and its number of
/// tokens.
pub open spec fn int_at(t: Seq<Tok>, i: nat) -> Option<(Seq<char>, nat)> {
    if i < t.len() && t[i as int] is Int {
        Some((t[i as int]->Int_text, 1))
    } else if is_punct(t, i, "-"@) && i + 1 < t.len() && t[(i + 1) as int] is Int {
        Some(("-"@ + t[(i + 1) as int]->Int_text, 2))
    } else {
        None
    }
}

/// What follows `loop` at the `i`-th token, and its number of tokens.
pub open spec fn loop_step(t: Seq<Tok>, i: nat, span: usize) -> Result<(PipeStep, nat), Failure> {
    if !is_ident(t, i) {
        Err(failed(span, Fault::LoopTask))
    } else {
        match int_at(t, i + 1) {
            None => Err(failed(span, Fault::LoopMax)),
            Some((max_iterations, n)) => {
                let j = i + 1 + n;
                let body = naming::struct_name(t[i as int]->Ident_text);
                if !is_ident(t, j) {
                    Ok(
                        (
                            PipeStep::Loop { body, max_iterations, exit_with_last: false, span },
                            1 + n,
                        ),
                    )
                } else if t[j as int]->Ident_text == "exit_with_last"@ {
                    Ok(
                        (
                            PipeStep::Loop { body, max_iterations, exit_with_last: true, span },
                            2 + n,
                        ),
                    )
                } else {
                    Err(failed(rust_syntax::span_of(t[j as int]), Fault::LoopPolicy))
                }
            },
        }
    }
}

/// `name(param: Type) { body }` at the `i`-th token, which takes up three, and what is
/// left over in its groups.
pub open spec fn inline_step(t: Seq<Tok>, i: nat, end: usize, u: Option<Left>) -> Result<
    (PipeStep, Option<Left>),
    Failure,
> {
    let params = t[(i + 1) as int]->body;
    let close = t[(i + 1) as int]->close;
    match ident_at(params, 0, close) {
        Err(f) => Err(f),
        Ok(param_name) => if !is_punct(params, 1, ":"@) {
            Err(failed(place_at(params, 1, close), Fault::NoColon))
        } else {
            match code_at(Syntax::Type, params, 2, close) {
                Err(f) => Err(f),
                Ok((param_type, n)) => if !is_group(t, i + 2, Delim::Brace) {
                    Err(failed_at(t, i + 2, end, Fault::NoGroup(Delim::Brace)))
                } else {
                    let inner = t[(i + 2) as int]->body;
                    match code_at(Syntax::Expr, inner, 0, t[(i + 2) as int]->close) {
                        Err(f) => Err(f),
                        Ok((body, m)) => Ok(
                            (
                                PipeStep::InlineTask {
                                    name: t[i as int]->Ident_text,
                                    param_name,
                                    param_type,
                                    body,
                                    span: rust_syntax::span_of(t[i as int]),
                                },
                                left_over(
                                    left_over(u, inner, m, Delim::Brace),
                                    params,
                                    2 + n,
                                    Delim::Paren,
                                ),
                            ),
                        ),
                    }
                },
            }
        },
    }
}

/// The step at the `i`-th token that is not parallel: the step, its number of tokens, and
/// the first token left over in a group so far.
pub open spec fn single_step(t: Seq<Tok>, i: nat, end: usize, u: Option<Left>) -> Result<
    (PipeStep, nat, Option<Left>),
    Failure,
>
    decreases t, room(t, i), 1nat,
{
    if is_ident(t, i) {
        let text = t[i as int]->Ident_text;
        let span = rust_syntax::span_of(t[i as int]);
        if text == "route"@ {
            match route_step(t, i + 1, end, span, u) {
                Ok((s, n, v)) => Ok((s, n + 1, v)),
                Err(f) => Err(f),
            }
        } else if text == "flow"@ {
            match code_at(Syntax::Expr, t, i + 1, end) {
                Ok((expr, n)) => Ok((PipeStep::Flow { expr, span }, n + 1, u)),
                Err(f) => Err(f),
            }
        } else if is_str(t, i + 1) {
            if text == "delay"@ {
                match delay_step(t, i, span) {
                    Ok((s, n)) => Ok((s, n, u)),
                    Err(f) => Err(f),
                }
            } else if text == "signal"@ {
                match signal_step(t, i, end, span) {
                    Ok((s, n)) => Ok((s, n, u)),
                    Err(f) => Err(f),
                }
            } else {
                Err(failed(span, Fault::NotAStep(text)))
            }
        } else if is_group(t, i + 1, Delim::Paren) {
            match inline_step(t, i, end, u) {
                Ok((s, v)) => Ok((s, 3, v)),
                Err(f) => Err(f),
            }
        } else {
            Ok((PipeStep::TaskRef { struct_name: naming::struct_name(text), span }, 1, u))
        }
    } else if i < t.len() && t[i as int] is Keyword && t[i as int]->Keyword_text == "loop"@ {
        match loop_step(t, i + 1, rust_syntax::span_of(t[i as int])) {
            Ok((s, n)) => Ok((s, n + 1, u)),
            Err(f) => Err(f),
        }
    } else {
        Err(failed_at(t, i, end, Fault::NoStep))
    }
}

/// The step at the `i`-th token, which may be a group of steps in parallel.
pub open spec fn any_step(t: Seq<Tok>, i: nat, end: usize, u: Option<Left>) -> Result<
    (PipeStep, nat, Option<Left>),
    Failure,
>
    decreases t, room(t, i), 3nat,
{
    if is_group(t, i, Delim::Paren) {
        let body = t[i as int]->body;
        match any_step(body, 0, t[i as int]->close, u) {
            Ok((s, n, v)) => Ok((s, 1, left_over(v, body, n, Delim::Paren))),
            Err(f) => Err(f),
        }
    } else {
        match single_step(t, i, end, u) {
            Ok((s, n, v)) => if is_pair(t, i + n, "|"@, "|"@) {
                match more_branches(t, i + n, end, v, seq![s]) {
                    Ok((branches, m, w)) => Ok(
                        (
                            PipeStep::Parallel {
                                branches,
                                span: workflow_macro::span_of(s),
                            },
                            n + m,
                            w,
                        ),
                    ),
                    Err(f) => Err(f),
                }
            } else {
                Ok((s, n, v))
            },
            Err(f) => Err(f),
        }
    }
}

/// The steps after `||` from the `j`-th token on, behind the steps before it.
pub open spec fn more_branches(
    t: Seq<Tok>,
    j: nat,
    end: usize,
    u: Option<Left>,
    before: Seq<PipeStep>,
) -> Result<(Seq<PipeStep>, nat, Option<Left>), Failure>
    decreases t, room(t, j), 2nat,
{
    if is_pair(t, j, "|"@, "|"@) {
        match single_step(t, j + 2, end, u) {
            Ok((s, n, v)) => match more_branches(t, j + 2 + n, end, v, before.push(s)) {
                Ok((all, m, w)) => Ok((all, 2 + n + m, w)),
                Err(f) => Err(f),
            },
            Err(f) => Err(f),
        }
    } else {
        Ok((before, 0, u))
    }
}

/// The steps of a pipeline, the number of tokens that are read, and the first token left
/// over.
pub open spec fn pipeline(t: Seq<Tok>, end: usize, u: Option<Left>) -> Result<
    (Seq<PipeStep>, nat, Option<Left>),
    Failure,
>
    decreases t, room(t, 0), 4nat,
{
    if t.len() == 0 {
        Err(failed_at(t, 0, end, Fault::NoSteps))
    } else {
        match any_step(t, 0, end, u) {
            Ok((s, n, v)) => more_steps(t, n, end, v, seq![s]),
            Err(f) => Err(f),
        }
    }
}

/// The steps after a comma from the `j`-th token on, behind the steps before it. A comma
/// may stand at the end.
pub open spec fn more_steps(
    t: Seq<Tok>,
    j: nat,
    end: usize,
    u: Option<Left>,
    before: Seq<PipeStep>,
) -> Result<(Seq<PipeStep>, nat, Option<Left>), Failure>
    decreases t, room(t, j), 3nat,
{
    if is_punct(t, j, ","@) {
        if j + 1 >= t.len() {
            Ok((before, j + 1, u))
        } else {
            match any_step(t, j + 1, end, u) {
                Ok((s, n, v)) => more_steps(t, j + 1 + n, end, v, before.push(s)),
                Err(f) => Err(f),
            }
        }
    } else {
        Ok((before, j, u))
    }
}

/// The pipeline in brackets at the `i`-th token.
pub open spec fn bracketed(t: Seq<Tok>, i: nat, end: usize, u: Option<Left>) -> Result<
    (Seq<PipeStep>, Option<Left>),
    Failure,
>
    decreases t, room(t, i), 0nat,
{
    if is_group(t, i, Delim::Bracket) {
        let body = t[i as int]->body;
        match pipeline(body, t[i as int]->close, u) {
            Ok((steps, n, v)) => Ok((steps, left_over(v, body, n, Delim::Bracket))),
            Err(f) => Err(f),
        }
    } else {
        Err(failed_at(t, i, end, Fault::NoGroup(Delim::Bracket)))
    }
}

/// The pipeline of the arm whose key stands before the `i`-th token.
pub open spec fn arm_pipeline(t: Seq<Tok>, i: nat, end: usize, u: Option<Left>) -> Result<
    (Seq<PipeStep>, Option<Left>),
    Failure,
>
    decreases t, room(t, i), 1nat,
{
    if !is_pair(t, i, "="@, ">"@) {
        Err(failed(place_at(t, i, end), Fault::NoArrow))
    } else {
        bracketed(t, i + 2, end, u)
    }
}

/// The key that a token is, where it is one: none for the default arm, and a variant only
/// where the route is typed.
pub open spec fn arm_key(t: Tok, typed: bool) -> Option<Option<ArmKey>> {
    match t {
        Tok::Keyword { text, .. } => if text == "_"@ {
            Some(None)
        } else {
            None
        },
        Tok::Ident { text, .. } => if typed {
            Some(Some(ArmKey::Variant(text)))
        } else {
            None
        },
        Tok::Str { value, .. } => Some(Some(ArmKey::Literal(value))),
        _ => None,
    }
}

/// The number of tokens of an arm: the key, the arrow, the pipeline, and a comma where one
/// follows.
pub open spec fn arm_width(t: Seq<Tok>, k: nat) -> nat {
    if is_punct(t, k + 4, ","@) {
        5
    } else {
        4
    }
}

/// The arms of the route at `span` from the `k`-th token on, behind the ones before it.
pub open spec fn route_arms(
    t: Seq<Tok>,
    k: nat,
    end: usize,
    u: Option<Left>,
    typed: bool,
    span: usize,
    arms: Seq<(ArmKey, Seq<PipeStep>)>,
    default: Option<Seq<PipeStep>>,
) -> Result<(Seq<(ArmKey, Seq<PipeStep>)>, Option<Seq<PipeStep>>, Option<Left>), Failure>
    decreases t, room(t, k), 2nat,
{
    if k >= t.len() {
        Ok((arms, default, u))
    } else {
        match arm_key(t[k as int], typed) {
            None => Err(failed_at(t, k, end, Fault::ArmKey(typed))),
            Some(key) => match arm_pipeline(t, k + 1, end, u) {
                Err(f) => Err(f),
                Ok((steps, v)) => match key {
                    None => if default is Some {
                        Err(failed(span, Fault::SecondDefault))
                    } else {
                        route_arms(
                            t,
                            k + arm_width(t, k),
                            end,
                            v,
                            typed,
                            span,
                            arms,
                            Some(steps),
                        )
                    },
                    Some(key) => route_arms(
                        t,
                        k + arm_width(t, k),
                        end,
                        v,
                        typed,
                        span,
                        arms.push((key, steps)),
                        default,
                    ),
                },
            },
        }
    }
}

/// The type of the keys behind the name of the key function, where one stands at the
/// `i`-th token, and its number of tokens.
pub open spec fn key_type_at(t: Seq<Tok>, i: nat, end: usize) -> Result<
    (Option<Fragment>, nat),
    Failure,
> {
    if is_pair(t, i, "-"@, ">"@) {
        match code_at(Syntax::Path, t, i + 2, end) {
            Ok((f, n)) => Ok((Some(f), n + 2)),
            Err(f) => Err(f),
        }
    } else {
        Ok((None, 0))
    }
}

/// What follows `route` at the `i`-th token, and its number of tokens. The id is given
/// later.
pub open spec fn route_step(
    t: Seq<Tok>,
    i: nat,
    end: usize,
    span: usize,
    u: Option<Left>,
) -> Result<(PipeStep, nat, Option<Left>), Failure>
    decreases t, room(t, i), 0nat,
{
    if !is_ident(t, i) {
        Err(failed(span, Fault::RouteKeyFn))
    } else {
        match key_type_at(t, i + 1, end) {
            Err(f) => Err(f),
            Ok((key_type, n)) => {
                let j = i + 1 + n;
                if !is_group(t, j, Delim::Brace) {
                    Err(failed_at(t, j, end, Fault::NoGroup(Delim::Brace)))
                } else {
                    match route_arms(
                        t[j as int]->body,
                        0,
                        t[j as int]->close,
                        u,
                        key_type is Some,
                        span,
                        seq![],
                        None,
                    ) {
                        Err(f) => Err(f),
                        Ok((branches, default, v)) => if branches.len() == 0 {
                            Err(failed(span, Fault::NoNamedArm))
                        } else {
                            Ok(
                                (
                                    PipeStep::Route {
                                        id: seq![],
                                        key_fn: naming::struct_name(t[i as int]->Ident_text),
                                        key_type,
                                        branches,
                                        default,
                                        span,
                                    },
                                    n + 2,
                                    v,
                                ),
                            )
                        },
                    }
                }
            },
        }
    }
}

/// The place of the `i`-th token, or of the end.
fn place(t: &Vec<Token>, i: usize, end: usize) -> (r: usize)
    ensures
        r == place_at(rust_syntax::toks(t@), i as nat, end),
{
    if i < t.len() {
        t[i].span()
    } else {
        end
    }
}

/// An error at the `i`-th token, or at the end.
fn error_at(t: &Vec<Token>, i: usize, end: usize, fault: GrammarFault) -> (r: GrammarError)
    ensures
        r@ == failed_at(rust_syntax::toks(t@), i as nat, end, fault@),
{
    GrammarError { place: place(t, i, end), end: i >= t.len(), fault }
}

/// An error at a place.
fn error(place: usize, fault: GrammarFault) -> (r: GrammarError)
    ensures
        r@ == failed(place, fault@),
{
    GrammarError { place, end: false, fault }
}

/// Whether the `i`-th token is this punctuation.
fn at_punct(t: &Vec<Token>, i: usize, p: &str) -> (r: bool)
    ensures
        r == is_punct(rust_syntax::toks(t@), i as nat, p@),
{
    if i < t.len() {
        match &t[i] {
            Token::Punct { text, .. } => str_same(text.as_str(), p),
            _ => false,
        }
    } else {
        false
    }
}

/// Whether the `i`-th token and the next one are these two characters in a row.
fn at_pair(t: &Vec<Token>, i: usize, a: &str, b: &str) -> (r: bool)
    ensures
        r == is_pair(rust_syntax::toks(t@), i as nat, a@, b@),
        r ==> i + 1 < t@.len(),
{
    assert(t.len() == t@.len());
    if !at_punct(t, i, a) {
        return false;
    }
    match &t[i] {
        Token::Punct { joint, .. } => *joint && at_punct(t, i + 1, b),
        _ => false,
    }
}

/// Whether the `i`-th token is a string literal.
fn at_str(t: &Vec<Token>, i: usize) -> (r: bool)
    ensures
        r == is_str(rust_syntax::toks(t@), i as nat),
        r ==> i < t@.len(),
{
    if i < t.len() {
        match &t[i] {
            Token::Str { .. } => true,
            _ => false,
        }
    } else {
        false
    }
}

/// Whether the `i`-th token is a group with these delimiters.
fn at_group(t: &Vec<Token>, i: usize, d: Delim) -> (r: bool)
    ensures
        r == is_group(rust_syntax::toks(t@), i as nat, d),
        r ==> i < t@.len(),
{
    if i < t.len() {
        match &t[i] {
            Token::Group { delim, .. } => *delim == d,
            _ => false,
        }
    } else {
        false
    }
}

/// The string literal at the `i`-th token.
fn str_value(t: &Vec<Token>, i: usize) -> (r: String)
    requires
        is_str(rust_syntax::toks(t@), i as nat),
    ensures
        r@ == rust_syntax::toks(t@)[i as int]->value,
{
    match &t[i] {
        Token::Str { value, .. } => value.clone(),
        _ => String::new(),
    }
}

/// The identifier at the `i`-th token, where one stands there.
fn ident_text(t: &Vec<Token>, i: usize) -> (r: Option<String>)
    ensures
        r is Some == is_ident(rust_syntax::toks(t@), i as nat),
        r is Some ==> i < t@.len() && r->0@ == rust_syntax::toks(t@)[i as int]->Ident_text,
{
    if i < t.len() {
        match &t[i] {
            Token::Ident { text, .. } => Some(text.clone()),
            _ => None,
        }
    } else {
        None
    }
}

/// The identifier at the `i`-th token.
fn parse_ident(t: &Vec<Token>, i: usize, end: usize) -> (r: Result<String, GrammarError>)
    ensures
        match ident_at(rust_syntax::toks(t@), i as nat, end) {
            Ok(s) => r is Ok && r->Ok_0@ == s && i < t@.len(),
            Err(f) => r is Err && r->Err_0@ == f,
        },
{
    if i < t.len() {
        match &t[i] {
            Token::Ident { text, .. } => {
                return Ok(text.clone());
            },
            Token::Keyword { text, .. } => {
                return Err(error_at(t, i, end, GrammarFault::Keyword(text.clone())));
            },
            _ => {},
        }
    }
    Err(error_at(t, i, end, GrammarFault::NoIdent))
}

/// The piece of Rust code at the `i`-th token, and its number of tokens.
fn parse_code(kind: Syntax, t: &Vec<Token>, i: usize, end: usize) -> (r: Result<
    (Fragment, usize),
    GrammarError,
>)
    requires
        i <= t@.len(),
    ensures
        match code_at(kind, rust_syntax::toks(t@), i as nat, end) {
            Ok((c, n)) => r is Ok && r->Ok_0.0 == c && r->Ok_0.1 == n && i + n <= t@.len(),
            Err(f) => r is Err && r->Err_0@ == f,
        },
{
    match find_piece(kind, t, i) {
        Ok(n) => Ok((Fragment { first: place(t, i, end), len: n }, n)),
        Err(e) => Err(error(place(t, i, end), GrammarFault::Code(e))),
    }
}

/// What a string literal at a place says as a duration.
fn parse_duration(s: &str, place: usize) -> (r: Result<DurationLit, GrammarError>)
    ensures
        match duration_at(s@, place) {
            Ok(d) => r is Ok && r->Ok_0 == d,
            Err(f) => r is Err && r->Err_0@ == f,
        },
{
    match DurationLit::parse(s) {
        Ok(d) => Ok(d),
        Err(e) => Err(error(place, GrammarFault::Duration(e))),
    }
}

/// The first token left over, once the first `j` tokens of a group are read.
fn note_left(u: Option<Left>, body: &Vec<Token>, j: usize, delim: Delim) -> (r: Option<Left>)
    ensures
        r == left_over(u, rust_syntax::toks(body@), j as nat, delim),
{
    if u.is_none() && j < body.len() {
        Some(Left { place: body[j].span(), delim })
    } else {
        u
    }
}

/// A step and its number of tokens are what is owed.
pub open spec fn reads(
    r: Result<(WorkflowStep, usize), GrammarError>,
    owed: Result<(PipeStep, nat), Failure>,
    room: int,
) -> bool {
    match owed {
        Ok((s, n)) => r is Ok && r->Ok_0.0.step() == s && r->Ok_0.1 == n && n <= room,
        Err(f) => r is Err && r->Err_0@ == f,
    }
}

/// A step, its number of tokens and what is left over are what is owed.
pub open spec fn reads_step(
    r: Result<(WorkflowStep, usize, Option<Left>), GrammarError>,
    owed: Result<(PipeStep, nat, Option<Left>), Failure>,
    room: int,
) -> bool {
    match owed {
        Ok((s, n, u)) => r is Ok && r->Ok_0.0.step() == s && r->Ok_0.1 == n && r->Ok_0.2 == u && n
            <= room,
        Err(f) => r is Err && r->Err_0@ == f,
    }
}

/// Steps, the number of tokens and what is left over are what is owed.
pub open spec fn reads_steps(
    r: Result<(Vec<WorkflowStep>, usize, Option<Left>), GrammarError>,
    owed: Result<(Seq<PipeStep>, nat, Option<Left>), Failure>,
    room: int,
) -> bool {
    match owed {
        Ok((s, n, u)) => r is Ok && workflow_macro::pipe(r->Ok_0.0@) == s && r->Ok_0.1 == n
            && r->Ok_0.2 == u && n <= room,
        Err(f) => r is Err && r->Err_0@ == f,
    }
}

/// Steps and what is left over are what is owed.
pub open spec fn reads_group(
    r: Result<(Vec<WorkflowStep>, Option<Left>), GrammarError>,
    owed: Result<(Seq<PipeStep>, Option<Left>), Failure>,
) -> bool {
    match owed {
        Ok((s, u)) => r is Ok && workflow_macro::pipe(r->Ok_0.0@) == s && r->Ok_0.1 == u,
        Err(f) => r is Err && r->Err_0@ == f,
    }
}

/// `delay "5s"` or `delay "my_id" "5s"` at the `i`-th token.
fn parse_delay(t: &Vec<Token>, i: usize, span: usize) -> (r: Result<
    (WorkflowStep, usize),
    GrammarError,
>)
    requires
        is_str(rust_syntax::toks(t@), i as nat + 1),
    ensures
        reads(r, delay_step(rust_syntax::toks(t@), i as nat, span), t@.len() - i),
{
    assert(t.len() == t@.len());
    let first = str_value(t, i + 1);
    if i + 2 < t.len() && at_str(t, i + 2) {
        let second = str_value(t, i + 2);
        match parse_duration(second.as_str(), t[i + 2].span()) {
            Ok(duration) => Ok((WorkflowStep::Delay { id: first, duration, span }, 3)),
            Err(e) => Err(e),
        }
    } else {
        match parse_duration(first.as_str(), t[i + 1].span()) {
            Ok(duration) => {
                let id = concat("delay_", decimal_text(duration.millis as u128).as_str());
                Ok((WorkflowStep::Delay { id, duration, span }, 2))
            },
            Err(e) => Err(e),
        }
    }
}

/// `timeout "30s"` at the `i`-th token, where it stands there.
fn parse_optional_timeout(t: &Vec<Token>, i: usize, end: usize) -> (r: Result<
    (Option<DurationLit>, usize),
    GrammarError,
>)
    requires
        i <= t@.len(),
    ensures
        match timeout_at(rust_syntax::toks(t@), i as nat, end) {
            Ok((d, n)) => r is Ok && r->Ok_0.0 == d && r->Ok_0.1 == n && i + n <= t@.len(),
            Err(f) => r is Err && r->Err_0@ == f,
        },
{
    assert(t.len() == t@.len());
    match ident_text(t, i) {
        Some(word) => if str_same(word.as_str(), "timeout") {
            if at_str(t, i + 1) {
                let value = str_value(t, i + 1);
                match parse_duration(value.as_str(), t[i + 1].span()) {
                    Ok(d) => Ok((Some(d), 2)),
                    Err(e) => Err(e),
                }
            } else {
                Err(error_at(t, i + 1, end, GrammarFault::NoStr))
            }
        } else {
            Ok((None, 0))
        },
        None => Ok((None, 0)),
    }
}

/// `signal "name"` or `signal "my_id" "name"` at the `i`-th token, with the timeout after
/// it.
fn parse_signal(t: &Vec<Token>, i: usize, end: usize, span: usize) -> (r: Result<
    (WorkflowStep, usize),
    GrammarError,
>)
    requires
        is_str(rust_syntax::toks(t@), i as nat + 1),
    ensures
        reads(r, signal_step(rust_syntax::toks(t@), i as nat, end, span), t@.len() - i),
{
    assert(t.len() == t@.len());
    let first = str_value(t, i + 1);
    let two = i + 2 < t.len() && at_str(t, i + 2);
    let (id, signal_name) = if two {
        (first, str_value(t, i + 2))
    } else {
        (concat("signal_", first.as_str()), first)
    };
    let n: usize = if two {
        3
    } else {
        2
    };
    match parse_optional_timeout(t, i + n, end) {
        Ok((timeout, m)) => Ok(
            (WorkflowStep::AwaitSignal { id, signal_name, timeout, span }, n + m),
        ),
        Err(e) => Err(e),
    }
}

/// The integer literal at the `i`-th token, with the sign before it.
fn parse_int(t: &Vec<Token>, i: usize) -> (r: Option<(String, usize)>)
    ensures
        match int_at(rust_syntax::toks(t@), i as nat) {
            Some((s, n)) => r is Some && (r->0).0@ == s && (r->0).1 == n && i + n <= t@.len(),
            None => r is None,
        },
{
    if i >= t.len() {
        return None;
    }
    if let Token::Int { text, .. } = &t[i] {
        return Some((text.clone(), 1));
    }
    if at_punct(t, i, "-") && i + 1 < t.len() {
        if let Token::Int { text, .. } = &t[i + 1] {
            return Some((concat("-", text.as_str()), 2));
        }
    }
    None
}

/// What follows `loop` at the `i`-th token.
fn parse_loop(t: &Vec<Token>, i: usize, span: usize) -> (r: Result<
    (WorkflowStep, usize),
    GrammarError,
>)
    requires
        i <= t@.len(),
    ensures
        reads(r, loop_step(rust_syntax::toks(t@), i as nat, span), t@.len() - i),
{
    assert(t.len() == t@.len());
    let name = match ident_text(t, i) {
        Some(s) => s,
        None => {
            return Err(error(span, GrammarFault::LoopTask));
        },
    };
    let body = task_struct_name(name.as_str());
    let (max_iterations, n) = match parse_int(t, i + 1) {
        Some(x) => x,
        None => {
            return Err(error(span, GrammarFault::LoopMax));
        },
    };
    let j = i + 1 + n;
    match ident_text(t, j) {
        None => Ok(
            (WorkflowStep::Loop { body, max_iterations, exit_with_last: false, span }, 1 + n),
        ),
        Some(word) => if str_same(word.as_str(), "exit_with_last") {
            Ok((WorkflowStep::Loop { body, max_iterations, exit_with_last: true, span }, 2 + n))
        } else {
            Err(error(t[j].span(), GrammarFault::LoopPolicy))
        },
    }
}

/// `name(param: Type) { body }` at the `i`-th token.
fn parse_inline(t: &Vec<Token>, i: usize, end: usize, u: Option<Left>) -> (r: Result<
    (WorkflowStep, Option<Left>),
    GrammarError,
>)
    requires
        is_ident(rust_syntax::toks(t@), i as nat),
        is_group(rust_syntax::toks(t@), i as nat + 1, Delim::Paren),
    ensures
        match inline_step(rust_syntax::toks(t@), i as nat, end, u) {
            Ok((s, v)) => r is Ok && r->Ok_0.0.step() == s && r->Ok_0.1 == v && i + 3
                <= t@.len(),
            Err(f) => r is Err && r->Err_0@ == f,
        },
{
    let size = t.len();
    let name = match ident_text(t, i) {
        Some(s) => s,
        None => String::new(),
    };
    proof {
        rust_syntax::lemma_group(t@[i + 1]);
    }
    if let Token::Group { body: params, close, .. } = &t[i + 1] {
        let param_name = match parse_ident(params, 0, *close) {
            Ok(s) => s,
            Err(e) => {
                return Err(e);
            },
        };
        if !at_punct(params, 1, ":") {
            return Err(error(place(params, 1, *close), GrammarFault::NoColon));
        }
        let (param_type, n) = match parse_code(Syntax::Type, params, 2, *close) {
            Ok(x) => x,
            Err(e) => {
                return Err(e);
            },
        };
        if !(i + 2 < t.len() && at_group(t, i + 2, Delim::Brace)) {
            return Err(error_at(t, i + 2, end, GrammarFault::NoGroup(Delim::Brace)));
        }
        proof {
            rust_syntax::lemma_group(t@[i + 2]);
        }
        if let Token::Group { body: inner, close: inner_close, .. } = &t[i + 2] {
            let (body, m) = match parse_code(Syntax::Expr, inner, 0, *inner_close) {
                Ok(x) => x,
                Err(e) => {
                    return Err(e);
                },
            };
            let size = params.len();
            let v = note_left(
                note_left(u, inner, m, Delim::Brace),
                params,
                2 + n,
                Delim::Paren,
            );
            let span = t[i].span();
            return Ok((WorkflowStep::InlineTask { name, param_name, param_type, body, span }, v));
        }
    }
    Err(error_at(t, i, end, GrammarFault::NoStep))
}

/// The step at the `i`-th token that is not parallel.
fn parse_single_step(t: &Vec<Token>, i: usize, end: usize, u: Option<Left>) -> (r: Result<
    (WorkflowStep, usize, Option<Left>),
    GrammarError,
>)
    requires
        i <= t@.len(),
    ensures
        reads_step(r, single_step(rust_syntax::toks(t@), i as nat, end, u), t@.len() - i),
    decreases t@, t@.len() - i, 1nat,
{
    assert(t.len() == t@.len());
    if i < t.len() {
        if let Token::Ident { text, span, .. } = &t[i] {
            if str_same(text.as_str(), "route") {
                return match parse_route(t, i + 1, end, *span, u) {
                    Ok((s, n, v)) => Ok((s, n + 1, v)),
                    Err(e) => Err(e),
                };
            }
            if str_same(text.as_str(), "flow") {
                return match parse_code(Syntax::Expr, t, i + 1, end) {
                    Ok((expr, n)) => Ok((WorkflowStep::Flow { expr, span: *span }, n + 1, u)),
                    Err(e) => Err(e),
                };
            }
            if at_str(t, i + 1) {
                if str_same(text.as_str(), "delay") {
                    return match parse_delay(t, i, *span) {
                        Ok((s, n)) => Ok((s, n, u)),
                        Err(e) => Err(e),
                    };
                }
                if str_same(text.as_str(), "signal") {
                    return match parse_signal(t, i, end, *span) {
                        Ok((s, n)) => Ok((s, n, u)),
                        Err(e) => Err(e),
                    };
                }
                return Err(error(*span, GrammarFault::NotAStep(text.clone())));
            }
            if at_group(t, i + 1, Delim::Paren) {
                return match parse_inline(t, i, end, u) {
                    Ok((s, v)) => Ok((s, 3, v)),
                    Err(e) => Err(e),
                };
            }
            let struct_name = task_struct_name(text.as_str());
            return Ok((WorkflowStep::TaskRef { struct_name, span: *span }, 1, u));
        }
        if let Token::Keyword { text, span, .. } = &t[i] {
            if str_same(text.as_str(), "loop") {
                return match parse_loop(t, i + 1, *span) {
                    Ok((s, n)) => Ok((s, n + 1, u)),
                    Err(e) => Err(e),
                };
            }
        }
    }
    Err(error_at(t, i, end, GrammarFault::NoStep))
}

/// The step at the `i`-th token, which may be a group of steps in parallel.
fn parse_step_or_parallel(t: &Vec<Token>, i: usize, end: usize, u: Option<Left>) -> (r: Result<
    (WorkflowStep, usize, Option<Left>),
    GrammarError,
>)
    requires
        i <= t@.len(),
    ensures
        reads_step(r, any_step(rust_syntax::toks(t@), i as nat, end, u), t@.len() - i),
    decreases t@, t@.len() - i, 3nat,
{
    assert(t.len() == t@.len());
    let ghost p = rust_syntax::toks(t@);
    if at_group(t, i, Delim::Paren) {
        proof {
            rust_syntax::lemma_group(t@[i as int]);
            assert(decreases_to!(t@ => t@[i as int]));
            assert(decreases_to!(t@[i as int] => t@[i as int]->body));
            assert(decreases_to!(t@[i as int]->body => t@[i as int]->body@));
        }
        if let Token::Group { body, close, .. } = &t[i] {
            return match parse_step_or_parallel(body, 0, *close, u) {
                Ok((s, n, v)) => Ok((s, 1, note_left(v, body, n, Delim::Paren))),
                Err(e) => Err(e),
            };
        }
    }
    let (first, n, v) = match parse_single_step(t, i, end, u) {
        Ok(x) => x,
        Err(e) => {
            return Err(e);
        },
    };
    if !at_pair(t, i + n, "|", "|") {
        return Ok((first, n, v));
    }
    let span = first.span();
    let mut before: Vec<WorkflowStep> = Vec::new();
    let ghost start = seq![first.step()];
    before.push(first);
    proof {
        assert(workflow_macro::pipe(before@) =~= start);
    }
    match parse_more_branches(t, i + n, end, v, before) {
        Ok((branches, m, w)) => {
            let step = WorkflowStep::Parallel { branches, span };
            proof {
                workflow_macro::lemma_parallel(step);
            }
            Ok((step, n + m, w))
        },
        Err(e) => Err(e),
    }
}

/// The steps after `||` from the `j`-th token on, behind the steps before it.
fn parse_more_branches(
    t: &Vec<Token>,
    j: usize,
    end: usize,
    u: Option<Left>,
    before: Vec<WorkflowStep>,
) -> (r: Result<(Vec<WorkflowStep>, usize, Option<Left>), GrammarError>)
    requires
        j <= t@.len(),
    ensures
        reads_steps(
            r,
            more_branches(
                rust_syntax::toks(t@),
                j as nat,
                end,
                u,
                workflow_macro::pipe(before@),
            ),
            t@.len() - j,
        ),
    decreases t@, t@.len() - j, 2nat,
{
    assert(t.len() == t@.len());
    if !at_pair(t, j, "|", "|") {
        return Ok((before, 0, u));
    }
    match parse_single_step(t, j + 2, end, u) {
        Ok((s, n, v)) => {
            let mut all = before;
            let ghost was = workflow_macro::pipe(all@);
            let ghost added = s.step();
            all.push(s);
            proof {
                assert(workflow_macro::pipe(all@) =~= was.push(added));
            }
            match parse_more_branches(t, j + 2 + n, end, v, all) {
                Ok((branches, m, w)) => Ok((branches, 2 + n + m, w)),
                Err(e) => Err(e),
            }
        },
        Err(e) => Err(e),
    }
}

/// The steps of a pipeline: steps with commas between them, and maybe one at the end.
fn parse_comma_separated_steps(t: &Vec<Token>, end: usize, u: Option<Left>) -> (r: Result<
    (Vec<WorkflowStep>, usize, Option<Left>),
    GrammarError,
>)
    ensures
        reads_steps(r, pipeline(rust_syntax::toks(t@), end, u), t@.len() as int),
    decreases t@, t@.len(), 4nat,
{
    assert(t.len() == t@.len());
    let ghost p = rust_syntax::toks(t@);
    if t.len() == 0 {
        return Err(error_at(t, 0, end, GrammarFault::NoSteps));
    }
    let (first, n, v) = match parse_step_or_parallel(t, 0, end, u) {
        Ok(x) => x,
        Err(e) => {
            return Err(e);
        },
    };
    let mut before: Vec<WorkflowStep> = Vec::new();
    let ghost start = seq![first.step()];
    before.push(first);
    proof {
        assert(workflow_macro::pipe(before@) =~= start);
    }
    parse_more_steps(t, n, end, v, before)
}

/// The steps after a comma from the `j`-th token on, behind the steps before it.
fn parse_more_steps(
    t: &Vec<Token>,
    j: usize,
    end: usize,
    u: Option<Left>,
    before: Vec<WorkflowStep>,
) -> (r: Result<(Vec<WorkflowStep>, usize, Option<Left>), GrammarError>)
    requires
        j <= t@.len(),
    ensures
        reads_steps(
            r,
            more_steps(rust_syntax::toks(t@), j as nat, end, u, workflow_macro::pipe(before@)),
            t@.len() as int,
        ),
    decreases t@, t@.len() - j, 3nat,
{
    let size = t.len();
    if !at_punct(t, j, ",") {
        return Ok((before, j, u));
    }
    if j + 1 >= size {
        return Ok((before, j + 1, u));
    }
    match parse_step_or_parallel(t, j + 1, end, u) {
        Ok((s, n, v)) => {
            let mut all = before;
            let ghost was = workflow_macro::pipe(all@);
            let ghost added = s.step();
            all.push(s);
            proof {
                assert(workflow_macro::pipe(all@) =~= was.push(added));
            }
            parse_more_steps(t, j + 1 + n, end, v, all)
        },
        Err(e) => Err(e),
    }
}

/// The pipeline in brackets at the `i`-th token.
fn parse_bracketed_pipeline(t: &Vec<Token>, i: usize, end: usize, u: Option<Left>) -> (r: Result<
    (Vec<WorkflowStep>, Option<Left>),
    GrammarError,
>)
    ensures
        reads_group(r, bracketed(rust_syntax::toks(t@), i as nat, end, u)),
        r is Ok ==> i < t@.len(),
    decreases t@, room(rust_syntax::toks(t@), i as nat), 0nat,
{
    if at_group(t, i, Delim::Bracket) {
        proof {
            rust_syntax::lemma_group(t@[i as int]);
            assert(decreases_to!(t@ => t@[i as int]));
            assert(decreases_to!(t@[i as int] => t@[i as int]->body));
            assert(decreases_to!(t@[i as int]->body => t@[i as int]->body@));
        }
        if let Token::Group { body, close, .. } = &t[i] {
            return match parse_comma_separated_steps(body, *close, u) {
                Ok((steps, n, v)) => Ok((steps, note_left(v, body, n, Delim::Bracket))),
                Err(e) => Err(e),
            };
        }
    }
    Err(error_at(t, i, end, GrammarFault::NoGroup(Delim::Bracket)))
}

/// The pipeline of the arm whose key stands before the `i`-th token.
fn parse_arm_pipeline(t: &Vec<Token>, i: usize, end: usize, u: Option<Left>) -> (r: Result<
    (Vec<WorkflowStep>, Option<Left>),
    GrammarError,
>)
    ensures
        reads_group(r, arm_pipeline(rust_syntax::toks(t@), i as nat, end, u)),
        r is Ok ==> i + 2 < t@.len(),
    decreases t@, room(rust_syntax::toks(t@), i as nat), 1nat,
{
    let ghost p = rust_syntax::toks(t@);
    let ghost owed = arm_pipeline(p, i as nat, end, u);
    if at_pair(t, i, "=", ">") {
        assert(t.len() == t@.len());
        proof {
            assert(owed == bracketed(p, (i + 2) as nat, end, u));
        }
        parse_bracketed_pipeline(t, i + 2, end, u)
    } else {
        Err(error(place(t, i, end), GrammarFault::NoArrow))
    }
}

/// The arms of a route.
struct Arms {
    branches: Vec<(BranchArmKey, Vec<WorkflowStep>)>,
    default: Option<Vec<WorkflowStep>>,
    left: Option<Left>,
}

/// The key of the arm at the `k`-th token: none for the default arm.
fn parse_arm_key(t: &Vec<Token>, k: usize, end: usize, typed: bool) -> (r: Result<
    Option<BranchArmKey>,
    GrammarError,
>)
    requires
        k < t@.len(),
    ensures
        match arm_key(rust_syntax::toks(t@)[k as int], typed) {
            Some(None) => r is Ok && r->Ok_0 is None,
            Some(Some(key)) => r is Ok && r->Ok_0 is Some && r->Ok_0->0@ == key,
            None => r is Err && r->Err_0@ == failed_at(
                rust_syntax::toks(t@),
                k as nat,
                end,
                Fault::ArmKey(typed),
            ),
        },
{
    match &t[k] {
        Token::Keyword { text, .. } => if str_same(text.as_str(), "_") {
            return Ok(None);
        },
        Token::Ident { text, .. } => if typed {
            return Ok(Some(BranchArmKey::Variant(text.clone())));
        },
        Token::Str { value, .. } => {
            return Ok(Some(BranchArmKey::Literal(value.clone())));
        },
        _ => {},
    }
    Err(error_at(t, k, end, GrammarFault::ArmKey(typed)))
}

/// The arms of the route at `span` from the `k`-th token on, behind the ones before it.
#[verifier::spinoff_prover]
#[verifier::rlimit(60)]
fn parse_arms(
    t: &Vec<Token>,
    k: usize,
    end: usize,
    typed: bool,
    span: usize,
    before: Arms,
) -> (r: Result<Arms, GrammarError>)
    requires
        k <= t@.len(),
    ensures
        match route_arms(
            rust_syntax::toks(t@),
            k as nat,
            end,
            before.left,
            typed,
            span,
            workflow_macro::arm_pipes(before.branches@),
            workflow_macro::opt_pipe(before.default),
        ) {
            Ok((b, d, v)) => r is Ok && workflow_macro::arm_pipes(r->Ok_0.branches@) == b
                && workflow_macro::opt_pipe(r->Ok_0.default) == d && r->Ok_0.left == v,
            Err(f) => r is Err && r->Err_0@ == f,
        },
    decreases t@, t@.len() - k, 2nat,
{
    if k >= t.len() {
        return Ok(before);
    }
    let key = match parse_arm_key(t, k, end, typed) {
        Ok(key) => key,
        Err(e) => {
            return Err(e);
        },
    };
    let (steps, v) = match parse_arm_pipeline(t, k + 1, end, before.left) {
        Ok(x) => x,
        Err(e) => {
            return Err(e);
        },
    };
    let next = if at_punct(t, k + 4, ",") {
        k + 5
    } else {
        k + 4
    };
    let mut arms = before;
    arms.left = v;
    match key {
        None => {
            if arms.default.is_some() {
                return Err(error(span, GrammarFault::SecondDefault));
            }
            arms.default = Some(steps);
        },
        Some(key) => {
            let ghost added = (key@, workflow_macro::pipe(steps@));
            arms.branches.push((key, steps));
            proof {
                assert(workflow_macro::arm_pipes(arms.branches@) =~= workflow_macro::arm_pipes(
                    before.branches@,
                ).push(added));
            }
        },
    }
    parse_arms(t, next, end, typed, span, arms)
}

/// The type of the keys behind the name of the key function.
fn parse_key_type(t: &Vec<Token>, i: usize, end: usize) -> (r: Result<
    (Option<Fragment>, usize),
    GrammarError,
>)
    requires
        i <= t@.len(),
    ensures
        match key_type_at(rust_syntax::toks(t@), i as nat, end) {
            Ok((ty, n)) => r is Ok && r->Ok_0.0 == ty && r->Ok_0.1 == n && i + n <= t@.len(),
            Err(f) => r is Err && r->Err_0@ == f,
        },
{
    assert(t.len() == t@.len());
    if at_pair(t, i, "-", ">") {
        match parse_code(Syntax::Path, t, i + 2, end) {
            Ok((f, n)) => Ok((Some(f), n + 2)),
            Err(e) => Err(e),
        }
    } else {
        Ok((None, 0))
    }
}

/// What follows `route` at the `i`-th token.
fn parse_route(t: &Vec<Token>, i: usize, end: usize, span: usize, u: Option<Left>) -> (r: Result<
    (WorkflowStep, usize, Option<Left>),
    GrammarError,
>)
    requires
        i <= t@.len(),
    ensures
        reads_step(r, route_step(rust_syntax::toks(t@), i as nat, end, span, u), t@.len() - i),
    decreases t@, t@.len() - i, 0nat,
{
    assert(t.len() == t@.len());
    let name = match ident_text(t, i) {
        Some(s) => s,
        None => {
            return Err(error(span, GrammarFault::RouteKeyFn));
        },
    };
    let key_fn = task_struct_name(name.as_str());
    let (key_type, n) = match parse_key_type(t, i + 1, end) {
        Ok(x) => x,
        Err(e) => {
            return Err(e);
        },
    };
    let j = i + 1 + n;
    if at_group(t, j, Delim::Brace) {
        proof {
            rust_syntax::lemma_group(t@[j as int]);
            assert(decreases_to!(t@ => t@[j as int]));
            assert(decreases_to!(t@[j as int] => t@[j as int]->body));
            assert(decreases_to!(t@[j as int]->body => t@[j as int]->body@));
        }
        if let Token::Group { body, close, .. } = &t[j] {
            let none = Arms { branches: Vec::new(), default: None, left: u };
            proof {
                assert(workflow_macro::arm_pipes(none.branches@) =~= seq![]);
            }
            let arms = match parse_arms(body, 0, *close, key_type.is_some(), span, none) {
                Ok(a) => a,
                Err(e) => {
                    return Err(e);
                },
            };
            if arms.branches.len() == 0 {
                return Err(error(span, GrammarFault::NoNamedArm));
            }
            let left = arms.left;
            let step = WorkflowStep::Route {
                id: String::new(),
                key_fn,
                key_type,
                branches: arms.branches,
                default: arms.default,
                span,
            };
            proof {
                workflow_macro::lemma_route(step);
            }
            return Ok((step, n + 2, left));
        }
    }
    Err(error_at(t, j, end, GrammarFault::NoGroup(Delim::Brace)))
}

/// A workflow as it is written.
pub struct WorkflowDef {
    /// Workflow id.
    pub id: String,
    /// Path of the codec type, unless it is [`DEFAULT_CODEC`].
    pub codec: Option<Fragment>,
    /// The expression for the registry, unless it is a new one.
    pub registry: Option<Fragment>,
    /// The expression for the metadata, unless it is `()`.
    pub metadata: Option<Fragment>,
    /// The expression for the dependencies that tasks are made from, unless they have
    /// none.
    pub deps: Option<Fragment>,
    /// The pipeline.
    pub steps: Vec<WorkflowStep>,
}

/// Path of the codec type where none is given.
pub const DEFAULT_CODEC: &'static str = "::sayiir_runtime::serialization::JsonCodec";

/// The contents of a [`WorkflowDef`].
pub struct DefSpec {
    pub id: Seq<char>,
    pub codec: Option<Fragment>,
    pub registry: Option<Fragment>,
    pub metadata: Option<Fragment>,
    pub deps: Option<Fragment>,
    pub steps: Seq<PipeStep>,
}

impl View for WorkflowDef {
    type V = DefSpec;

    open spec fn view(&self) -> DefSpec {
        DefSpec {
            id: self.id@,
            codec: self.codec,
            registry: self.registry,
            metadata: self.metadata,
            deps: self.deps,
            steps: workflow_macro::pipe(self.steps@),
        }
    }
}

/// The fields that are read so far.
pub struct Fields {
    name: Option<String>,
    codec: Option<Fragment>,
    registry: Option<Fragment>,
    metadata: Option<Fragment>,
    deps: Option<Fragment>,
    steps: Option<Vec<WorkflowStep>>,
}

/// The contents of [`Fields`].
pub struct FieldsSpec {
    pub name: Option<Seq<char>>,
    pub codec: Option<Fragment>,
    pub registry: Option<Fragment>,
    pub metadata: Option<Fragment>,
    pub deps: Option<Fragment>,
    pub steps: Option<Seq<PipeStep>>,
}

impl View for Fields {
    type V = FieldsSpec;

    closed spec fn view(&self) -> FieldsSpec {
        FieldsSpec {
            name: text::opt_text(self.name),
            codec: self.codec,
            registry: self.registry,
            metadata: self.metadata,
            deps: self.deps,
            steps: workflow_macro::opt_pipe(self.steps),
        }
    }
}

/// The field of a name.
pub open spec fn field_of(s: Seq<char>) -> Option<Field> {
    if s == "name"@ {
        Some(Field::Name)
    } else if s == "codec"@ {
        Some(Field::Codec)
    } else if s == "registry"@ {
        Some(Field::Registry)
    } else if s == "metadata"@ {
        Some(Field::Metadata)
    } else if s == "deps"@ {
        Some(Field::Deps)
    } else if s == "steps"@ {
        Some(Field::Steps)
    } else {
        None
    }
}

/// A field has a value.
pub open spec fn is_given(a: FieldsSpec, f: Field) -> bool {
    match f {
        Field::Name => a.name is Some,
        Field::Codec => a.codec is Some,
        Field::Registry => a.registry is Some,
        Field::Metadata => a.metadata is Some,
        Field::Deps => a.deps is Some,
        Field::Steps => a.steps is Some,
    }
}

/// The fields with the value of one more at the `i`-th token, the number of tokens of the
/// value, and the first token left over.
pub open spec fn with_value(
    t: Seq<Tok>,
    i: nat,
    end: usize,
    u: Option<Left>,
    f: Field,
    span: usize,
    a: FieldsSpec,
) -> Result<(FieldsSpec, nat, Option<Left>), Failure> {
    match f {
        Field::Name => if is_str(t, i) {
            Ok((FieldsSpec { name: Some(t[i as int]->value), ..a }, 1, u))
        } else {
            Err(failed_at(t, i, end, Fault::NoStr))
        },
        Field::Codec => match code_at(Syntax::Path, t, i, end) {
            Ok((c, n)) => Ok((FieldsSpec { codec: Some(c), ..a }, n, u)),
            Err(e) => Err(e),
        },
        Field::Registry => match code_at(Syntax::Expr, t, i, end) {
            Ok((c, n)) => Ok((FieldsSpec { registry: Some(c), ..a }, n, u)),
            Err(e) => Err(e),
        },
        Field::Metadata => match code_at(Syntax::Expr, t, i, end) {
            Ok((c, n)) => Ok((FieldsSpec { metadata: Some(c), ..a }, n, u)),
            Err(e) => Err(e),
        },
        Field::Deps => match code_at(Syntax::Expr, t, i, end) {
            Ok((c, n)) => Ok((FieldsSpec { deps: Some(c), ..a }, n, u)),
            Err(e) => Err(e),
        },
        Field::Steps => match bracketed(t, i, end, u) {
            Ok((p, v)) => {
                let numbered = workflow_codegen::numbered_steps(p, p.len(), 0);
                if numbered.1 > usize::MAX {
                    Err(failed(span, Fault::TooManyRoutes))
                } else {
                    Ok((FieldsSpec { steps: Some(numbered.0), ..a }, 1, v))
                }
            },
            Err(e) => Err(e),
        },
    }
}

/// The fields with one more at the `k`-th token, the number of tokens after its `:`, with
/// a comma that may follow, and the first token left over.
pub open spec fn one_field(
    t: Seq<Tok>,
    k: nat,
    end: usize,
    u: Option<Left>,
    a: FieldsSpec,
) -> Result<(FieldsSpec, nat, Option<Left>), Failure> {
    match ident_at(t, k, end) {
        Err(e) => Err(e),
        Ok(name) => if !is_punct(t, k + 1, ":"@) {
            Err(failed(place_at(t, k + 1, end), Fault::NoColon))
        } else {
            let span = rust_syntax::span_of(t[k as int]);
            match field_of(name) {
                None => Err(failed(span, Fault::UnknownField(name))),
                Some(f) => if is_given(a, f) {
                    Err(failed(span, Fault::SecondField(f)))
                } else {
                    match with_value(t, k + 2, end, u, f, span, a) {
                        Err(e) => Err(e),
                        Ok((b, n, v)) => if is_punct(t, k + 2 + n, ","@) {
                            Ok((b, n + 1, v))
                        } else {
                            Ok((b, n, v))
                        },
                    }
                },
            }
        },
    }
}

/// The fields from the `k`-th token on, with those before it.
pub open spec fn all_fields(
    t: Seq<Tok>,
    k: nat,
    end: usize,
    u: Option<Left>,
    a: FieldsSpec,
) -> Result<(FieldsSpec, Option<Left>), Failure>
    decreases room(t, k),
{
    if k >= t.len() {
        Ok((a, u))
    } else {
        match one_field(t, k, end, u, a) {
            Err(e) => Err(e),
            Ok((b, n, v)) => all_fields(t, k + 2 + n, end, v, b),
        }
    }
}

/// No fields.
pub open spec fn no_fields() -> FieldsSpec {
    FieldsSpec { name: None, codec: None, registry: None, metadata: None, deps: None, steps: None }
}

/// What tokens that end at `end` say as a workflow.
pub open spec fn workflow_of(t: Seq<Tok>, end: usize) -> Result<DefSpec, Failure> {
    match all_fields(t, 0, end, None, no_fields()) {
        Err(e) => Err(e),
        Ok((a, u)) => match (a.name, a.steps) {
            (None, _) => Err(failed_at(t, t.len(), end, Fault::MissingField(Field::Name))),
            (_, None) => Err(failed_at(t, t.len(), end, Fault::MissingField(Field::Steps))),
            (Some(id), Some(steps)) => match u {
                Some(l) => Err(failed(l.place, Fault::Leftover(l.delim))),
                None => Ok(
                    DefSpec {
                        id,
                        codec: a.codec,
                        registry: a.registry,
                        metadata: a.metadata,
                        deps: a.deps,
                        steps,
                    },
                ),
            },
        },
    }
}

/// The field of a name.
fn parse_field_name(s: &str) -> (r: Option<Field>)
    ensures
        r == field_of(s@),
{
    if str_same(s, "name") {
        Some(Field::Name)
    } else if str_same(s, "codec") {
        Some(Field::Codec)
    } else if str_same(s, "registry") {
        Some(Field::Registry)
    } else if str_same(s, "metadata") {
        Some(Field::Metadata)
    } else if str_same(s, "deps") {
        Some(Field::Deps)
    } else if str_same(s, "steps") {
        Some(Field::Steps)
    } else {
        None
    }
}

impl Fields {
    /// Whether a field has a value.
    fn has(&self, f: Field) -> (r: bool)
        ensures
            r == is_given(self@, f),
    {
        match f {
            Field::Name => self.name.is_some(),
            Field::Codec => self.codec.is_some(),
            Field::Registry => self.registry.is_some(),
            Field::Metadata => self.metadata.is_some(),
            Field::Deps => self.deps.is_some(),
            Field::Steps => self.steps.is_some(),
        }
    }

    /// Read the value of one more field at the `i`-th token.
    #[verifier::spinoff_prover]
    #[verifier::rlimit(60)]
    fn parse_value(
        &mut self,
        t: &Vec<Token>,
        i: usize,
        end: usize,
        u: Option<Left>,
        f: Field,
        span: usize,
    ) -> (r: Result<(usize, Option<Left>), GrammarError>)
        requires
            i <= t@.len(),
        ensures
            match with_value(rust_syntax::toks(t@), i as nat, end, u, f, span, old(self)@) {
                Ok((b, n, v)) => r is Ok && final(self)@ == b && r->Ok_0.0 == n && r->Ok_0.1 == v
                    && i + n <= t@.len(),
                Err(e) => r is Err && r->Err_0@ == e,
            },
    {
        match f {
            Field::Name => {
                if !at_str(t, i) {
                    return Err(error_at(t, i, end, GrammarFault::NoStr));
                }
                self.name = Some(str_value(t, i));
                Ok((1, u))
            },
            Field::Codec => match parse_code(Syntax::Path, t, i, end) {
                Ok((c, n)) => {
                    self.codec = Some(c);
                    Ok((n, u))
                },
                Err(e) => Err(e),
            },
            Field::Registry => match parse_code(Syntax::Expr, t, i, end) {
                Ok((c, n)) => {
                    self.registry = Some(c);
                    Ok((n, u))
                },
                Err(e) => Err(e),
            },
            Field::Metadata => match parse_code(Syntax::Expr, t, i, end) {
                Ok((c, n)) => {
                    self.metadata = Some(c);
                    Ok((n, u))
                },
                Err(e) => Err(e),
            },
            Field::Deps => match parse_code(Syntax::Expr, t, i, end) {
                Ok((c, n)) => {
                    self.deps = Some(c);
                    Ok((n, u))
                },
                Err(e) => Err(e),
            },
            Field::Steps => match parse_bracketed_pipeline(t, i, end, u) {
                Ok((steps, v)) => {
                    let mut steps = steps;
                    if route_count(&steps, 0).is_none() {
                        return Err(error(span, GrammarFault::TooManyRoutes));
                    }
                    renumber_branches(&mut steps);
                    self.steps = Some(steps);
                    Ok((1, v))
                },
                Err(e) => Err(e),
            },
        }
    }

    /// Read one more field at the `k`-th token.
    fn parse_field(&mut self, t: &Vec<Token>, k: usize, end: usize, u: Option<Left>) -> (r: Result<
        (usize, Option<Left>),
        GrammarError,
    >)
        requires
            k < t@.len(),
        ensures
            match one_field(rust_syntax::toks(t@), k as nat, end, u, old(self)@) {
                Ok((b, n, v)) => r is Ok && final(self)@ == b && r->Ok_0.0 == n && r->Ok_0.1 == v
                    && k + 2 + n <= t@.len(),
                Err(e) => r is Err && r->Err_0@ == e,
            },
    {
        let name = match parse_ident(t, k, end) {
            Ok(s) => s,
            Err(e) => {
                return Err(e);
            },
        };
        assert(t.len() == t@.len());
        if !at_punct(t, k + 1, ":") {
            return Err(error(place(t, k + 1, end), GrammarFault::NoColon));
        }
        let span = t[k].span();
        let f = match parse_field_name(name.as_str()) {
            Some(f) => f,
            None => {
                return Err(error(span, GrammarFault::UnknownField(name)));
            },
        };
        if self.has(f) {
            return Err(error(span, GrammarFault::SecondField(f)));
        }
        match self.parse_value(t, k + 2, end, u, f, span) {
            Ok((n, v)) => if at_punct(t, k + 2 + n, ",") {
                Ok((n + 1, v))
            } else {
                Ok((n, v))
            },
            Err(e) => Err(e),
        }
    }
}

impl WorkflowDef {
    /// Read a workflow from tokens that end at `end`, with the Rust code that was read from
    /// each of them on.
    pub fn parse(t: &Vec<Token>, end: usize) -> (r: Result<WorkflowDef, GrammarError>)
        ensures
            match workflow_of(rust_syntax::toks(t@), end) {
                Ok(d) => r is Ok && r->Ok_0@ == d,
                Err(f) => r is Err && r->Err_0@ == f,
            },
    {
        let ghost p = rust_syntax::toks(t@);
        let mut fields = Fields {
            name: None,
            codec: None,
            registry: None,
            metadata: None,
            deps: None,
            steps: None,
        };
        let mut left: Option<Left> = None;
        let mut k: usize = 0;
        while k < t.len()
            invariant
                k <= t@.len(),
                p == rust_syntax::toks(t@),
                all_fields(p, k as nat, end, left, fields@) == all_fields(
                    p,
                    0,
                    end,
                    None,
                    no_fields(),
                ),
            decreases t@.len() - k,
        {
            match fields.parse_field(t, k, end, left) {
                Ok((n, v)) => {
                    k = k + 2 + n;
                    left = v;
                },
                Err(e) => {
                    return Err(e);
                },
            }
        }
        let id = match fields.name {
            Some(s) => s,
            None => {
                return Err(error_at(t, t.len(), end, GrammarFault::MissingField(Field::Name)));
            },
        };
        let steps = match fields.steps {
            Some(s) => s,
            None => {
                return Err(error_at(t, t.len(), end, GrammarFault::MissingField(Field::Steps)));
            },
        };
        if let Some(l) = left {
            return Err(error(l.place, GrammarFault::Leftover(l.delim)));
        }
        Ok(
            WorkflowDef {
                id,
                codec: fields.codec,
                registry: fields.registry,
                metadata: fields.metadata,
                deps: fields.deps,
                steps,
            },
        )
    }
}

/// Why a workflow cannot be expanded.
pub enum ExpandError {
    /// The tokens say no workflow.
    Grammar(GrammarError),
    /// The pipeline cannot be built.
    Chain(ChainFault),
}

impl ExpandError {
    /// What the error says.
    pub fn to_string(&self) -> (r: String)
        ensures
            r@ == match *self {
                ExpandError::Grammar(e) => failure_text(e@),
                ExpandError::Chain(f) => workflow_codegen::fault_message(f),
            },
    {
        match self {
            ExpandError::Grammar(e) => e.to_string(),
            ExpandError::Chain(f) => String::from_str(f.message()),
        }
    }
}

/// What expanding a workflow from tokens that end at `end` comes to.
pub open spec fn expanded(
    r: Result<(WorkflowDef, GeneratedWorkflow), ExpandError>,
    t: Seq<Tok>,
    end: usize,
) -> bool {
    match workflow_of(t, end) {
        Err(f) => r is Err && r->Err_0 is Grammar && r->Err_0->Grammar_0@ == f,
        Ok(d) => match workflow_codegen::generated(d.steps) {
            Err(f) => r is Err && r->Err_0 == ExpandError::Chain(f),
            Ok(g) => r is Ok && r->Ok_0.0@ == d && r->Ok_0.1@ == g,
        },
    }
}

/// Read a workflow from tokens that end at `end`, with the Rust code that was read from each
/// of them on, and generate what builds it.
pub fn expand_read(t: &Vec<Token>, end: usize) -> (r: Result<
    (WorkflowDef, GeneratedWorkflow),
    ExpandError,
>)
    ensures
        expanded(r, rust_syntax::toks(t@), end),
{
    match WorkflowDef::parse(t, end) {
        Err(e) => Err(ExpandError::Grammar(e)),
        Ok(def) => match generate(&def.steps) {
            Err(f) => Err(ExpandError::Chain(f)),
            Ok(g) => Ok((def, g)),
        },
    }
}

/// Read a workflow from tokens that end at `end`, and generate what builds it. Rust code is
/// read from each token on first.
pub fn expand(t: &Vec<Token>, end: usize) -> (r: Result<
    (WorkflowDef, GeneratedWorkflow),
    ExpandError,
>)
    ensures
        exists|u: Seq<Tok>| #[trigger]
            rust_syntax::tokens_read(rust_syntax::toks(t@), u) && expanded(r, u, end),
{
    let read = read_tokens(t);
    expand_read(&read, end)
}

/// The steps are numbered, where they are read.
spec fn steps_numbered(a: FieldsSpec) -> bool {
    a.steps matches Some(s) ==> workflow_codegen::numbered_from(
        workflow_macro::route_aliases(s, s.len()),
        0,
    )
}

proof fn lemma_fields_numbered(t: Seq<Tok>, k: nat, end: usize, u: Option<Left>, a: FieldsSpec)
    requires
        steps_numbered(a),
    ensures
        all_fields(t, k, end, u, a) matches Ok((b, _)) ==> steps_numbered(b),
    decreases room(t, k),
{
    if k < t.len() {
        if let Ok((b, n, v)) = one_field(t, k, end, u, a) {
            let f = field_of(t[k as int]->Ident_text)->0;
            if f is Steps {
                let p = (bracketed(t, k + 2, end, u)->Ok_0).0;
                workflow_codegen::law_routes_are_numbered(p);
                workflow_codegen::lemma_steps_count(p, 0, p.len(), 0);
            }
            lemma_fields_numbered(t, k + 2 + n, end, v, b);
        }
    }
}

/// The routes of a workflow that is read are numbered in the order of the text, wherever
/// its `steps` stand among the fields: the key function of the n-th one is registered as
/// `branch_n::key_fn`.
pub proof fn law_read_routes_are_numbered(t: Seq<Tok>, end: usize)
    requires
        workflow_of(t, end) is Ok,
    ensures
        ({
            let s = workflow_of(t, end)->Ok_0.steps;
            workflow_codegen::numbered_from(workflow_macro::route_aliases(s, s.len()), 0)
        }),
{
    lemma_fields_numbered(t, 0, end, None, no_fields());
}

} // verus!
