//! What the `#[task]` attribute and the `BranchKey` derive make of what they are
//! attached to.
//!
//! The signature of the annotated function and the variants of the annotated enum are
//! taken as plain values; types stand for themselves as their text.
use crate::continuation;
use crate::duration;
use crate::duration::Duration;
use crate::duration_lit::DurationLit;
use crate::naming;
use crate::naming::{pascal_to_snake, task_struct_name};
use crate::string_map::str_same;
use crate::task::{Meta, Retry, RetryPolicy, TaskMetadata};
use crate::text;
use crate::text::{clone_opt_text, clone_texts};
use vstd::prelude::*;

verus! {

/// The attributes of a task.
pub struct TaskAttrs {
    /// Custom task id (default: the function name).
    pub id: Option<String>,
    /// Human-readable name.
    pub display_name: Option<String>,
    /// Description of what the task does.
    pub description: Option<String>,
    /// Timeout.
    pub timeout: Option<DurationLit>,
    /// Maximum number of retries.
    pub retries: Option<u32>,
    /// Delay before the first retry.
    pub backoff: Option<DurationLit>,
    /// Multiplier of the delay, as its shortest decimal numeral.
    pub backoff_multiplier: Option<String>,
    /// Categorization tags.
    pub tags: Vec<String>,
}

/// A parameter of an annotated function.
pub struct ParamDecl {
    /// Its name; `None` where its pattern is no simple identifier.
    pub ident: Option<String>,
    /// The text of its type.
    pub ty: String,
    /// The text of the path of each of its attributes.
    pub attrs: Vec<String>,
}

/// A parameter is injected: one of its attributes is `#[inject]`.
pub open spec fn injected(p: ParamDecl) -> bool {
    exists|i: int| 0 <= i < p.attrs@.len() && (#[trigger] p.attrs@[i])@ == "inject"@
}

/// Whether an attribute with this path is `#[inject]`.
pub fn is_inject_attr(path: &str) -> (r: bool)
    ensures
        r == (path@ == "inject"@),
{
    str_same(path, "inject")
}

impl ParamDecl {
    /// Whether the parameter is injected.
    pub fn has_inject_attr(&self) -> (r: bool)
        ensures
            r == injected(*self),
    {
        let mut i: usize = 0;
        while i < self.attrs.len()
            invariant
                i <= self.attrs@.len(),
                forall|j: int| 0 <= j < i ==> (#[trigger] self.attrs@[j])@ != "inject"@,
            decreases self.attrs@.len() - i,
        {
            if is_inject_attr(self.attrs[i].as_str()) {
                return true;
            }
            i = i + 1;
        }
        false
    }
}

/// The return type of an annotated function.
pub enum ReturnDecl {
    /// None is written.
    Nothing,
    /// A `Result`, with the text of its first type argument.
    Fallible(String),
    /// Another type, with its text.
    Infallible(String),
}

/// What stands last in the path of a type.
pub struct PathEnd {
    /// The name of the last segment.
    pub name: String,
    /// The text of the first argument in angle brackets, where that is a type.
    pub first_type: Option<String>,
}

/// The return type that a function declares, from the text behind the arrow and, where
/// that is a path, from what stands last in it: a `Result` with a type argument is
/// fallible, under whatever path it is written.
pub fn extract_return(text: Option<String>, end: Option<PathEnd>) -> (r: ReturnDecl)
    ensures
        match text {
            None => r is Nothing,
            Some(whole) => match end {
                Some(PathEnd { name, first_type: Some(ok) }) if name@ == "Result"@ => r
                    == ReturnDecl::Fallible(ok),
                _ => r == ReturnDecl::Infallible(whole),
            },
        },
{
    let whole = match text {
        Some(t) => t,
        None => {
            return ReturnDecl::Nothing;
        },
    };
    if let Some(e) = end {
        if str_same(e.name.as_str(), "Result") {
            if let Some(ok) = e.first_type {
                return ReturnDecl::Fallible(ok);
            }
        }
    }
    ReturnDecl::Infallible(whole)
}

/// The signature of an annotated function.
pub struct FnDecl {
    /// Its name.
    pub name: String,
    /// Whether it is async.
    pub is_async: bool,
    /// Whether its first parameter is `self`.
    pub has_self: bool,
    /// Its other parameters.
    pub params: Vec<ParamDecl>,
    /// Its return type.
    pub output: ReturnDecl,
}

/// Why a function cannot be a task. Parameters are given by their index.
#[derive(Debug, Clone, Copy, PartialEq, Eq, Structural)]
pub enum TaskFault {
    /// It is not async.
    NotAsync,
    /// It takes `self`.
    HasSelf,
    /// A parameter is no simple identifier.
    NotIdent(usize),
    /// A second parameter that is not injected.
    SecondInput(usize),
    /// No parameter that is not injected.
    NoInput,
    /// No return type.
    NoReturn,
}

impl TaskFault {
    /// What the error says.
    pub fn message(&self) -> (r: &'static str)
        ensures
            r@ == (match *self {
                TaskFault::NotAsync => "#[task] function must be async"@,
                TaskFault::HasSelf => "#[task] function cannot have `self`"@,
                TaskFault::NotIdent(_) =>
                    "#[task] parameters must be simple identifiers (e.g. `order: Order`)"@,
                TaskFault::SecondInput(_) =>
                    "#[task] function must have exactly one non-#[inject] parameter (the task input)"@,
                TaskFault::NoInput =>
                    "#[task] function must have exactly one non-#[inject] parameter (the task input)"@,
                TaskFault::NoReturn => "#[task] function must return Result<T, _>"@,
            }),
    {
        match self {
            TaskFault::NotAsync => "#[task] function must be async",
            TaskFault::HasSelf => "#[task] function cannot have `self`",
            TaskFault::NotIdent(_) =>
                "#[task] parameters must be simple identifiers (e.g. `order: Order`)",
            TaskFault::SecondInput(_) =>
                "#[task] function must have exactly one non-#[inject] parameter (the task input)",
            TaskFault::NoInput =>
                "#[task] function must have exactly one non-#[inject] parameter (the task input)",
            TaskFault::NoReturn => "#[task] function must return Result<T, _>",
        }
    }
}

/// Which parameters of a function are what, by index.
pub struct Roles {
    pub input: Option<nat>,
    pub injected: Seq<nat>,
}

/// The roles of the first `k` parameters.
pub open spec fn roles(params: Seq<ParamDecl>, k: nat) -> Result<Roles, TaskFault>
    decreases k,
{
    if k == 0 || k > params.len() {
        Ok(Roles { input: None, injected: seq![] })
    } else {
        match roles(params, (k - 1) as nat) {
            Err(f) => Err(f),
            Ok(r) => if params[k - 1].ident is None {
                Err(TaskFault::NotIdent((k - 1) as usize))
            } else if injected(params[k - 1]) {
                Ok(Roles { injected: r.injected.push((k - 1) as nat), ..r })
            } else if r.input is Some {
                Err(TaskFault::SecondInput((k - 1) as usize))
            } else {
                Ok(Roles { input: Some((k - 1) as nat), ..r })
            },
        }
    }
}

/// Whether a function can be a task, and if so the roles of its parameters.
pub open spec fn checked(f: FnDecl) -> Result<Roles, TaskFault> {
    if !f.is_async {
        Err(TaskFault::NotAsync)
    } else if f.has_self {
        Err(TaskFault::HasSelf)
    } else {
        match roles(f.params@, f.params@.len()) {
            Err(e) => Err(e),
            Ok(r) => if r.input is None {
                Err(TaskFault::NoInput)
            } else if f.output is Nothing {
                Err(TaskFault::NoReturn)
            } else {
                Ok(r)
            },
        }
    }
}

/// A parameter with its name and the text of its type.
pub struct Param {
    /// Its name.
    pub ident: String,
    /// The text of its type.
    pub ty: String,
}

/// The contents of a parameter.
pub open spec fn param_of(d: ParamDecl) -> (Seq<char>, Seq<char>) {
    (
        match d.ident {
            Some(i) => i@,
            None => seq![],
        },
        d.ty@,
    )
}

/// The contents of a list of parameters.
pub open spec fn params_of(v: Seq<Param>) -> Seq<(Seq<char>, Seq<char>)> {
    Seq::new(v.len(), |i: int| (v[i].ident@, v[i].ty@))
}

/// The parameters at a list of indexes.
pub open spec fn params_at(decls: Seq<ParamDecl>, at: Seq<nat>) -> Seq<(Seq<char>, Seq<char>)> {
    Seq::new(at.len(), |i: int| param_of(decls[at[i] as int]))
}

/// What is generated for a task.
pub struct ParsedTask {
    /// The attributes.
    pub attrs: TaskAttrs,
    /// The name of the function.
    pub fn_name: String,
    /// The name of the struct.
    pub struct_name: String,
    /// The task id.
    pub task_id: String,
    /// The parameter that takes the input.
    pub input_param: Param,
    /// The injected parameters: fields of the struct, and parameters of `new`.
    pub inject_params: Vec<Param>,
    /// The text of the output type.
    pub output_type: String,
    /// Whether the function returns a `Result`; else its output is wrapped.
    pub fallible: bool,
}

/// The text of the output type.
pub open spec fn output_of(r: ReturnDecl) -> Seq<char> {
    match r {
        ReturnDecl::Nothing => seq![],
        ReturnDecl::Fallible(t) => t@,
        ReturnDecl::Infallible(t) => t@,
    }
}

impl ParsedTask {
    /// Check a function and take what is generated for it.
    pub fn parse(attrs: TaskAttrs, item: &FnDecl) -> (r: Result<Self, TaskFault>)
        ensures
            match checked(*item) {
                Err(f) => r is Err && r->Err_0 == f,
                Ok(roles) => {
                    &&& r is Ok
                    &&& r->Ok_0.attrs == attrs
                    &&& r->Ok_0.fn_name@ == item.name@
                    &&& r->Ok_0.struct_name@ == naming::struct_name(item.name@)
                    &&& r->Ok_0.task_id@ == (match attrs.id {
                        Some(id) => id@,
                        None => item.name@,
                    })
                    &&& (r->Ok_0.input_param.ident@, r->Ok_0.input_param.ty@) == param_of(
                        item.params@[roles.input->0 as int],
                    )
                    &&& params_of(r->Ok_0.inject_params@) == params_at(item.params@, roles.injected)
                    &&& r->Ok_0.output_type@ == output_of(item.output)
                    &&& r->Ok_0.fallible == (item.output is Fallible)
                },
            },
    {
        if !item.is_async {
            return Err(TaskFault::NotAsync);
        }
        if item.has_self {
            return Err(TaskFault::HasSelf);
        }
        let ghost decls = item.params@;
        let mut input_param: Option<Param> = None;
        let mut inject_params: Vec<Param> = Vec::new();
        let ghost mut so_far = Roles { input: None, injected: seq![] };
        let mut i: usize = 0;
        proof {
            assert(params_of(inject_params@) =~= params_at(decls, so_far.injected));
        }
        while i < item.params.len()
            invariant
                i <= item.params@.len(),
                decls == item.params@,
                item.is_async,
                !item.has_self,
                roles(decls, i as nat) == Ok::<Roles, TaskFault>(so_far),
                params_of(inject_params@) == params_at(decls, so_far.injected),
                match (input_param, so_far.input) {
                    (Some(p), Some(k)) => (p.ident@, p.ty@) == param_of(decls[k as int]),
                    (None, None) => true,
                    _ => false,
                },
            decreases item.params@.len() - i,
        {
            let decl = &item.params[i];
            let ident = match &decl.ident {
                Some(id) => id.clone(),
                None => {
                    proof {
                        assert(roles(decls, (i + 1) as nat) is Err);
                        lemma_roles_error(decls, (i + 1) as nat, decls.len());
                    }
                    return Err(TaskFault::NotIdent(i));
                },
            };
            let param = Param { ident, ty: decl.ty.clone() };
            if decl.has_inject_attr() {
                let ghost before = so_far;
                let ghost listed = params_of(inject_params@);
                inject_params.push(param);
                proof {
                    so_far = Roles { injected: before.injected.push(i as nat), ..before };
                    assert(params_of(inject_params@) =~= listed.push(param_of(decls[i as int])));
                    assert(params_at(decls, so_far.injected) =~= params_at(
                        decls,
                        before.injected,
                    ).push(param_of(decls[i as int])));
                }
            } else if input_param.is_some() {
                proof {
                    assert(roles(decls, (i + 1) as nat) is Err);
                    lemma_roles_error(decls, (i + 1) as nat, decls.len());
                }
                return Err(TaskFault::SecondInput(i));
            } else {
                input_param = Some(param);
                proof {
                    so_far = Roles { input: Some(i as nat), ..so_far };
                }
            }
            i = i + 1;
        }
        let input = match input_param {
            Some(p) => p,
            None => {
                return Err(TaskFault::NoInput);
            },
        };
        let (output_type, fallible) = match &item.output {
            ReturnDecl::Nothing => {
                return Err(TaskFault::NoReturn);
            },
            ReturnDecl::Fallible(t) => (t.clone(), true),
            ReturnDecl::Infallible(t) => (t.clone(), false),
        };
        let task_id = match &attrs.id {
            Some(id) => id.clone(),
            None => item.name.clone(),
        };
        Ok(
            ParsedTask {
                attrs,
                fn_name: item.name.clone(),
                struct_name: task_struct_name(item.name.as_str()),
                task_id,
                input_param: input,
                inject_params,
                output_type,
                fallible,
            },
        )
    }

    /// The metadata that the attributes describe. Without `retries` there is no retry
    /// policy; the first delay defaults to one second and the multiplier to 2.
    pub fn metadata(&self) -> (r: TaskMetadata)
        ensures
            r@ == attr_meta(self.attrs),
    {
        let retries = match self.attrs.retries {
            Some(max) => Some(
                RetryPolicy {
                    max_retries: max,
                    initial_delay: match &self.attrs.backoff {
                        Some(d) => d.duration(),
                        None => Duration::from_millis(1000),
                    },
                    backoff_multiplier: match &self.attrs.backoff_multiplier {
                        Some(m) => m.clone(),
                        None => String::from_str("2"),
                    },
                    max_delay: None,
                },
            ),
            None => None,
        };
        TaskMetadata {
            display_name: clone_opt_text(&self.attrs.display_name),
            description: clone_opt_text(&self.attrs.description),
            timeout: match &self.attrs.timeout {
                Some(d) => Some(d.duration()),
                None => None,
            },
            retries,
            version: None,
            priority: None,
            tags: clone_texts(&self.attrs.tags),
        }
    }

    /// The arguments of the function: the input, then the injected ones.
    pub fn call_args(&self) -> (r: Vec<String>)
        ensures
            text::texts(r@) == seq![self.input_param.ident@] + Seq::new(
                self.inject_params@.len(),
                |i: int| self.inject_params@[i].ident@,
            ),
    {
        let ghost rest = Seq::new(
            self.inject_params@.len(),
            |i: int| self.inject_params@[i].ident@,
        );
        let mut out: Vec<String> = Vec::new();
        out.push(self.input_param.ident.clone());
        let mut i: usize = 0;
        proof {
            assert(text::texts(out@) =~= seq![self.input_param.ident@] + rest.take(0));
        }
        while i < self.inject_params.len()
            invariant
                i <= self.inject_params@.len(),
                rest == Seq::new(
                    self.inject_params@.len(),
                    |j: int| self.inject_params@[j].ident@,
                ),
                text::texts(out@) == seq![self.input_param.ident@] + rest.take(i as int),
            decreases self.inject_params@.len() - i,
        {
            let id = self.inject_params[i].ident.clone();
            proof {
                text::lemma_texts_push(out@, id);
                assert(seq![self.input_param.ident@] + rest.take(i + 1) =~= (seq![
                    self.input_param.ident@,
                ] + rest.take(i as int)).push(id@));
            }
            out.push(id);
            i = i + 1;
        }
        proof {
            assert(rest.take(i as int) =~= rest);
        }
        out
    }
}

/// The metadata that attributes describe.
pub open spec fn attr_meta(a: TaskAttrs) -> Meta {
    Meta {
        display_name: text::opt_text(a.display_name),
        description: text::opt_text(a.description),
        timeout: match a.timeout {
            Some(d) => Some(duration::of_millis(d.millis)),
            None => None,
        },
        retries: match a.retries {
            Some(max) => Some(
                Retry {
                    max_retries: max,
                    initial_delay: match a.backoff {
                        Some(d) => duration::of_millis(d.millis),
                        None => duration::of_millis(1000),
                    },
                    backoff_multiplier: match a.backoff_multiplier {
                        Some(m) => m@,
                        None => "2"@,
                    },
                    max_delay: None,
                },
            ),
            None => None,
        },
        version: None,
        priority: None,
        tags: text::texts(a.tags@),
    }
}

/// An error among the first parameters is the error of all.
proof fn lemma_roles_error(params: Seq<ParamDecl>, i: nat, k: nat)
    requires
        i <= k <= params.len(),
        roles(params, i) is Err,
    ensures
        roles(params, k) == roles(params, i),
    decreases k,
{
    if i < k {
        lemma_roles_error(params, i, (k - 1) as nat);
    }
}

/// The `branch_key` attribute of a variant.
pub enum KeyAttr {
    /// There is none.
    Absent,
    /// A string literal.
    Literal(String),
    /// Something else.
    Malformed,
}

/// A variant of an annotated enum.
pub struct VariantDecl {
    /// Its name.
    pub ident: String,
    /// Whether it has no fields.
    pub fieldless: bool,
    /// Its `branch_key` attribute.
    pub key: KeyAttr,
}

/// Why a type cannot have `BranchKey`. Variants are given by their index.
#[derive(Debug, Clone, Copy, PartialEq, Eq, Structural)]
pub enum BranchKeyFault {
    /// It is no enum.
    NotEnum,
    /// A variant has fields.
    HasFields(usize),
    /// The attribute of a variant is not a string literal.
    BadAttribute(usize),
    /// It has no variants.
    NoVariants,
}

impl BranchKeyFault {
    /// What the error says; `None` where the attribute itself could not be parsed.
    pub fn message(&self) -> (r: Option<&'static str>)
        ensures
            continuation::opt_str(r) == (match *self {
                BranchKeyFault::NotEnum => Some("BranchKey can only be derived on enums"@),
                BranchKeyFault::HasFields(_) => Some(
                    "BranchKey variants must be fieldless (no data)"@,
                ),
                BranchKeyFault::BadAttribute(_) => None,
                BranchKeyFault::NoVariants => Some(
                    "BranchKey enum must have at least one variant"@,
                ),
            }),
    {
        match self {
            BranchKeyFault::NotEnum => Some("BranchKey can only be derived on enums"),
            BranchKeyFault::HasFields(_) => Some("BranchKey variants must be fieldless (no data)"),
            BranchKeyFault::BadAttribute(_) => None,
            BranchKeyFault::NoVariants => Some("BranchKey enum must have at least one variant"),
        }
    }
}

/// The key of a variant: that of its attribute, else its name in `snake_case`.
pub open spec fn variant_key(v: VariantDecl) -> Seq<char> {
    match v.key {
        KeyAttr::Literal(s) => s@,
        _ => naming::snake_case(v.ident@, v.ident@.len()),
    }
}

/// The keys of the first `k` variants.
pub open spec fn keys_of(variants: Seq<VariantDecl>, k: nat) -> Result<
    Seq<(Seq<char>, Seq<char>)>,
    BranchKeyFault,
>
    decreases k,
{
    if k == 0 || k > variants.len() {
        Ok(seq![])
    } else {
        match keys_of(variants, (k - 1) as nat) {
            Err(f) => Err(f),
            Ok(p) => if !variants[k - 1].fieldless {
                Err(BranchKeyFault::HasFields((k - 1) as usize))
            } else if variants[k - 1].key is Malformed {
                Err(BranchKeyFault::BadAttribute((k - 1) as usize))
            } else {
                Ok(p.push((variants[k - 1].ident@, variant_key(variants[k - 1]))))
            },
        }
    }
}

/// The variants of an enum with their keys, in order; the matching arms of `as_key` and
/// the entries of `all_keys` are made of them.
pub open spec fn branch_keys(is_enum: bool, variants: Seq<VariantDecl>) -> Result<
    Seq<(Seq<char>, Seq<char>)>,
    BranchKeyFault,
> {
    if !is_enum {
        Err(BranchKeyFault::NotEnum)
    } else {
        match keys_of(variants, variants.len()) {
            Err(f) => Err(f),
            Ok(p) => if p.len() == 0 {
                Err(BranchKeyFault::NoVariants)
            } else {
                Ok(p)
            },
        }
    }
}

/// The contents of a list of variants with keys.
pub open spec fn key_pairs(v: Seq<(String, String)>) -> Seq<(Seq<char>, Seq<char>)> {
    Seq::new(v.len(), |i: int| (v[i].0@, v[i].1@))
}

proof fn lemma_keys_error(variants: Seq<VariantDecl>, i: nat, k: nat)
    requires
        i <= k <= variants.len(),
        keys_of(variants, i) is Err,
    ensures
        keys_of(variants, k) == keys_of(variants, i),
    decreases k,
{
    if i < k {
        lemma_keys_error(variants, i, (k - 1) as nat);
    }
}

/// The variants of an enum with their keys, in order.
pub fn derive_branch_key(is_enum: bool, variants: &Vec<VariantDecl>) -> (r: Result<
    Vec<(String, String)>,
    BranchKeyFault,
>)
    ensures
        match branch_keys(is_enum, variants@) {
            Ok(p) => r is Ok && key_pairs(r->Ok_0@) == p,
            Err(f) => r is Err && r->Err_0 == f,
        },
{
    if !is_enum {
        return Err(BranchKeyFault::NotEnum);
    }
    let mut out: Vec<(String, String)> = Vec::new();
    let mut i: usize = 0;
    proof {
        assert(key_pairs(out@) =~= seq![]);
    }
    while i < variants.len()
        invariant
            i <= variants@.len(),
            is_enum,
            keys_of(variants@, i as nat) == Ok::<Seq<(Seq<char>, Seq<char>)>, BranchKeyFault>(
                key_pairs(out@),
            ),
        decreases variants@.len() - i,
    {
        let v = &variants[i];
        if !v.fieldless {
            proof {
                assert(keys_of(variants@, (i + 1) as nat) is Err);
                lemma_keys_error(variants@, (i + 1) as nat, variants@.len());
            }
            return Err(BranchKeyFault::HasFields(i));
        }
        let key = match &v.key {
            KeyAttr::Literal(s) => s.clone(),
            KeyAttr::Absent => pascal_to_snake(v.ident.as_str()),
            KeyAttr::Malformed => {
                proof {
                    assert(keys_of(variants@, (i + 1) as nat) is Err);
                    lemma_keys_error(variants@, (i + 1) as nat, variants@.len());
                }
                return Err(BranchKeyFault::BadAttribute(i));
            },
        };
        let ghost before = key_pairs(out@);
        let ghost added = (v.ident@, key@);
        out.push((v.ident.clone(), key));
        proof {
            assert(key_pairs(out@) =~= before.push(added));
        }
        i = i + 1;
    }
    if out.len() == 0 {
        return Err(BranchKeyFault::NoVariants);
    }
    Ok(out)
}

} // verus!
