use sayiir::duration::Duration;
use sayiir::duration_lit::{DurationError, DurationLit};
use sayiir::naming::{pascal_to_snake, snake_to_pascal, task_struct_name};
use sayiir::rust_syntax::{
    find_piece, read_tokens, source_from, Code, Delim, Syntax, SyntaxError, Token,
};
use sayiir::task_macro::{
    derive_branch_key, extract_return, is_inject_attr, BranchKeyFault, FnDecl, KeyAttr, ParamDecl, ParsedTask,
    PathEnd, ReturnDecl, TaskAttrs, TaskFault, VariantDecl,
};
use sayiir::workflow_codegen::{
    collect_exhaustiveness_checks, gen_step_chain, renumber_branches, route_count, Call,
    ChainFault,
};
use sayiir::workflow_grammar::{expand, ExpandError, GrammarError, WorkflowDef};
use sayiir::workflow_macro::{
    collect_route_aliases, collect_task_refs, BranchArmKey, WorkflowStep,
};

#[test]
fn test_pascal_to_snake() {
    assert_eq!(pascal_to_snake("Billing"), "billing");
    assert_eq!(pascal_to_snake("TechSupport"), "tech_support");
    assert_eq!(pascal_to_snake("A"), "a");
    assert_eq!(pascal_to_snake("ABC"), "a_b_c");
    assert_eq!(pascal_to_snake("already"), "already");
}

#[test]
fn test_snake_to_pascal() {
    assert_eq!(snake_to_pascal("charge"), "Charge");
    assert_eq!(snake_to_pascal("send_email"), "SendEmail");
    assert_eq!(snake_to_pascal("update_inventory"), "UpdateInventory");
    assert_eq!(snake_to_pascal("a_b_c"), "ABC");
    assert_eq!(snake_to_pascal("already"), "Already");
}

#[test]
fn case_conversions_undo_each_other() {
    for s in ["", "Charge", "SendEmail", "A", "ABC", "Step2Of3", "X9"] {
        assert_eq!(snake_to_pascal(&pascal_to_snake(s)), s);
    }
    for s in ["", "charge", "send_email", "a_b_c", "step2_of3"] {
        assert_eq!(pascal_to_snake(&snake_to_pascal(s)), s);
    }
}

#[test]
fn empty_parts_of_a_name_are_dropped() {
    assert_eq!(snake_to_pascal("_a__b_"), "AB");
    assert_eq!(snake_to_pascal("_a__b_"), snake_to_pascal("a_b"));
    assert_eq!(snake_to_pascal("___"), "");
}

#[test]
fn ascii_letters_have_one_case_form() {
    for c in '\0'..'\u{80}' {
        let upper = if c.is_ascii_lowercase() { ((c as u8) - 32) as char } else { c };
        let lower = if c.is_ascii_uppercase() { ((c as u8) + 32) as char } else { c };
        if c != '_' {
            assert_eq!(snake_to_pascal(&c.to_string()), upper.to_string());
        }
        assert_eq!(pascal_to_snake(&c.to_string()), lower.to_string());
    }
}

#[test]
fn no_underscore_is_left_of_any_character() {
    for c in '\0'..=char::MAX {
        assert!(!snake_to_pascal(&c.to_string()).contains('_'));
    }
}

#[test]
fn letters_without_a_single_case_form() {
    assert_eq!(snake_to_pascal("\u{df}x"), "SSx");
    assert_eq!(pascal_to_snake("\u{c4}B"), "\u{e4}_b");
    assert_eq!(task_struct_name("charge_card"), "ChargeCardTask");
}

fn parse(s: &str) -> u64 {
    DurationLit::parse(s).unwrap().millis
}

#[test]
fn test_milliseconds() {
    assert_eq!(parse("100ms"), 100);
    assert_eq!(parse("0ms"), 0);
}

#[test]
fn test_seconds() {
    assert_eq!(parse("30s"), 30_000);
    assert_eq!(parse("1s"), 1_000);
}

#[test]
fn test_minutes() {
    assert_eq!(parse("5m"), 300_000);
}

#[test]
fn test_hours() {
    assert_eq!(parse("1h"), 3_600_000);
}

#[test]
fn test_invalid_suffix() {
    assert!(DurationLit::parse("30x").is_err());
}

#[test]
fn test_invalid_number() {
    assert!(DurationLit::parse("abcs").is_err());
}

#[test]
fn test_empty() {
    assert!(DurationLit::parse("").is_err());
}

#[test]
fn duration_literals_are_trimmed() {
    assert_eq!(parse("  7s\t\n"), 7_000);
    assert!(matches!(DurationLit::parse("   "), Err(DurationError::Empty)));
    assert!(matches!(DurationLit::parse(" s"), Err(DurationError::Number(s)) if s == "s"));
    assert_eq!(
        DurationLit::parse("30x").unwrap_err().to_string(),
        "invalid duration suffix in \"30x\"; expected ms, s, m, or h",
    );
    assert_eq!(
        DurationLit::parse("abcs").unwrap_err().to_string(),
        "invalid number in duration \"abcs\"",
    );
    assert!(matches!(
        DurationLit::parse("18446744073709551615s"),
        Err(DurationError::TooLong(_)),
    ));
}

#[test]
fn every_white_space_is_trimmed() {
    let single = [0x20, 0x85, 0xa0, 0x1680, 0x2028, 0x2029, 0x202f, 0x205f, 0x3000];
    for c in '\0'..=char::MAX {
        let n = c as u32;
        let white = (0x9..=0xd).contains(&n)
            || (0x2000..=0x200a).contains(&n)
            || single.contains(&n);
        assert_eq!(DurationLit::parse(&format!("{c}5s{c}")).is_ok(), white);
    }
}

fn param(ident: Option<&str>, ty: &str, inject: bool) -> ParamDecl {
    let attrs = if inject { vec!["doc".into(), "inject".into()] } else { vec!["doc".into()] };
    ParamDecl { ident: ident.map(String::from), ty: ty.into(), attrs }
}

fn no_attrs() -> TaskAttrs {
    TaskAttrs {
        id: None,
        display_name: None,
        description: None,
        timeout: None,
        retries: None,
        backoff: None,
        backoff_multiplier: None,
        tags: vec![],
    }
}

fn charge() -> FnDecl {
    FnDecl {
        name: "charge".into(),
        is_async: true,
        has_self: false,
        params: vec![
            param(Some("stripe"), "Arc < Stripe >", true),
            param(Some("order"), "Order", false),
        ],
        output: ReturnDecl::Fallible("Receipt".into()),
    }
}

#[test]
fn a_task_function_is_parsed() {
    let attrs = TaskAttrs {
        id: Some("charge_card".into()),
        timeout: Some(DurationLit { millis: 30_000 }),
        retries: Some(3),
        ..no_attrs()
    };
    let task = ParsedTask::parse(attrs, &charge()).ok().unwrap();
    assert_eq!(task.struct_name, "ChargeTask");
    assert_eq!(task.task_id, "charge_card");
    assert_eq!(task.input_param.ident, "order");
    assert_eq!(task.inject_params.len(), 1);
    assert_eq!(task.output_type, "Receipt");
    assert!(task.fallible);
    assert_eq!(task.call_args(), vec!["order", "stripe"]);
    let meta = task.metadata();
    assert_eq!(meta.timeout, Some(Duration::from_secs(30)));
    let retries = meta.retries.unwrap();
    assert_eq!(retries.max_retries, 3);
    assert_eq!(retries.initial_delay, Duration::from_millis(1000));
    assert_eq!(retries.backoff_multiplier, "2");
    assert!(retries.max_delay.is_none());
}

#[test]
fn functions_that_are_no_tasks_are_refused() {
    let fault = |f: FnDecl| ParsedTask::parse(no_attrs(), &f).err().unwrap();
    assert_eq!(fault(FnDecl { is_async: false, ..charge() }), TaskFault::NotAsync);
    assert_eq!(fault(FnDecl { has_self: true, ..charge() }), TaskFault::HasSelf);
    assert_eq!(
        fault(FnDecl { params: vec![param(None, "(u8, u8)", false)], ..charge() }),
        TaskFault::NotIdent(0),
    );
    assert_eq!(
        fault(FnDecl {
            params: vec![param(Some("a"), "u8", false), param(Some("b"), "u8", false)],
            ..charge()
        }),
        TaskFault::SecondInput(1),
    );
    assert_eq!(fault(FnDecl { params: vec![], ..charge() }), TaskFault::NoInput);
    assert_eq!(fault(FnDecl { output: ReturnDecl::Nothing, ..charge() }), TaskFault::NoReturn);
    assert_eq!(TaskFault::NotAsync.message(), "#[task] function must be async");
}

fn variant(name: &str, fieldless: bool, key: KeyAttr) -> VariantDecl {
    VariantDecl { ident: name.into(), fieldless, key }
}

#[test]
fn branch_keys_are_derived() {
    let keys = derive_branch_key(
        true,
        &vec![
            variant("Billing", true, KeyAttr::Absent),
            variant("TechSupport", true, KeyAttr::Absent),
            variant("Fallback", true, KeyAttr::Literal("other".into())),
        ],
    );
    assert_eq!(
        keys.ok().unwrap(),
        vec![
            ("Billing".to_string(), "billing".to_string()),
            ("TechSupport".to_string(), "tech_support".to_string()),
            ("Fallback".to_string(), "other".to_string()),
        ],
    );
    assert!(matches!(derive_branch_key(false, &vec![]), Err(BranchKeyFault::NotEnum)));
    assert!(matches!(derive_branch_key(true, &vec![]), Err(BranchKeyFault::NoVariants)));
    assert!(matches!(
        derive_branch_key(true, &vec![variant("A", true, KeyAttr::Malformed)]),
        Err(BranchKeyFault::BadAttribute(0)),
    ));
    assert!(matches!(
        derive_branch_key(true, &vec![variant("A", true, KeyAttr::Absent), variant("B", false, KeyAttr::Absent)]),
        Err(BranchKeyFault::HasFields(1)),
    ));
}

fn lex(stream: proc_macro2::TokenStream, next: &mut usize) -> Vec<Token> {
    let mut out = Vec::new();
    for tree in stream {
        let span = *next;
        *next += 1;
        out.push(match tree {
            proc_macro2::TokenTree::Ident(i) => {
                let text = i.to_string();
                if syn::parse_str::<syn::Ident>(&text).is_ok() {
                    Token::Ident { text, span, code: None }
                } else {
                    Token::Keyword { text, span, code: None }
                }
            }
            proc_macro2::TokenTree::Punct(p) => Token::Punct {
                text: p.as_char().to_string(),
                joint: p.spacing() == proc_macro2::Spacing::Joint,
                span,
                code: None,
            },
            proc_macro2::TokenTree::Literal(l) => {
                let text = l.to_string();
                match syn::Lit::new(l) {
                    syn::Lit::Str(s) => Token::Str { value: s.value(), text, span, code: None },
                    syn::Lit::Int(_) => Token::Int { text, span, code: None },
                    _ => Token::Literal { text, span, code: None },
                }
            }
            proc_macro2::TokenTree::Group(g) => {
                let delim = match g.delimiter() {
                    proc_macro2::Delimiter::Parenthesis => Delim::Paren,
                    proc_macro2::Delimiter::Brace => Delim::Brace,
                    _ => Delim::Bracket,
                };
                let body = lex(g.stream(), next);
                let close = *next;
                *next += 1;
                Token::Group { delim, body, span, close, code: None }
            }
        });
    }
    out
}

fn unread(text: &str) -> (Vec<Token>, usize) {
    let mut next = 0;
    let list = lex(text.parse().unwrap(), &mut next);
    (list, next)
}

fn tokens(text: &str) -> (Vec<Token>, usize) {
    let (list, end) = unread(text);
    (read_tokens(&list), end)
}

fn def(text: &str) -> WorkflowDef {
    let (list, end) = tokens(text);
    WorkflowDef::parse(&list, end).unwrap_or_else(|e| panic!("{}", e.to_string()))
}

fn failure(text: &str) -> GrammarError {
    let (list, end) = tokens(text);
    WorkflowDef::parse(&list, end).err().unwrap()
}

fn steps(text: &str) -> Vec<WorkflowStep> {
    def(&format!("name: \"wf\", steps: [{text}]")).steps
}

fn message(text: &str) -> String {
    failure(&format!("name: \"wf\", steps: [{text}]")).to_string()
}

#[test]
fn pieces_of_code_are_found() {
    let (list, _) = tokens("a + b(c, [1, 2]), d");
    assert_eq!(source_from(&list, 0), "a + b (c , [1 , 2 ] ) , d ");
    assert_eq!(find_piece(Syntax::Expr, &list, 0).ok(), Some(4));
    assert_eq!(find_piece(Syntax::Expr, &list, 5).ok(), Some(1));
    let (list, _) = tokens("Vec<Option<u8>> { x }");
    assert_eq!(find_piece(Syntax::Type, &list, 0).ok(), Some(7));
    let (list, _) = tokens("my::Intent { x }");
    assert_eq!(find_piece(Syntax::Path, &list, 0).ok(), Some(4));
    let (list, _) = tokens(", x");
    assert!(matches!(find_piece(Syntax::Expr, &list, 0), Err(SyntaxError::Rust(_))));
}

#[test]
fn no_piece_of_code_stands_at_the_end() {
    let none: Vec<Token> = Vec::new();
    let said = |kind| match find_piece(kind, &none, 0) {
        Err(SyntaxError::Rust(m)) => m,
        _ => panic!("expected a message"),
    };
    assert_eq!(said(Syntax::Expr), "unexpected end of input, expected an expression");
    assert_eq!(said(Syntax::Path), "unexpected end of input, expected identifier");
    assert_eq!(
        said(Syntax::Type),
        "unexpected end of input, expected one of: `for`, parentheses, `fn`, `unsafe`, `extern`, identifier, `::`, `<`, `dyn`, square brackets, `*`, `&`, `!`, `impl`, `_`, lifetime",
    );
}

#[test]
fn what_was_read_decides_where_a_piece_ends() {
    let word = |code| Token::Ident { text: "a".to_string(), span: 0, code };
    let code = || Code { expr: Ok(1), ty: Ok(0), path: Err("no path".to_string()) };
    let list = vec![word(Some(code())), word(Some(code())), word(None)];
    assert_eq!(find_piece(Syntax::Expr, &list, 0).ok(), Some(2));
    assert_eq!(find_piece(Syntax::Type, &list, 0).ok(), Some(3));
    assert_eq!(find_piece(Syntax::Expr, &list, 1).ok(), Some(1));
    assert!(matches!(find_piece(Syntax::Path, &list, 0), Err(SyntaxError::Rust(m)) if m == "no path"));
    assert!(matches!(find_piece(Syntax::Expr, &list, 2), Err(SyntaxError::Unreadable)));
    let short = vec![word(Some(Code { expr: Ok(2), ty: Ok(2), path: Ok(2) }))];
    assert!(matches!(find_piece(Syntax::Path, &short, 0), Err(SyntaxError::Unreadable)));
    let (list, _) = unread("a");
    assert!(matches!(find_piece(Syntax::Expr, &list, 0), Err(SyntaxError::Unreadable)));
}

#[test]
fn tokens_keep_what_they_say_when_code_is_read() {
    let text = "steps: [a => b, \"c\" 1 'd' (x)], _";
    let (list, _) = unread(text);
    let read = read_tokens(&list);
    assert_eq!(source_from(&read, 0), source_from(&list, 0));
    assert_eq!(read.len(), list.len());
    for (a, b) in list.iter().zip(read.iter()) {
        assert_eq!(a.span(), b.span());
    }
    match (&list[2], &read[2]) {
        (Token::Group { body: a, close: x, .. }, Token::Group { body: b, close: y, .. }) => {
            assert_eq!(x, y);
            assert_eq!(a.len(), b.len());
            assert_eq!(find_piece(Syntax::Expr, b, 0).ok(), Some(1));
            assert_eq!(find_piece(Syntax::Expr, b, 5).ok(), Some(1));
            assert!(find_piece(Syntax::Path, b, 5).is_err());
        }
        _ => panic!("expected a group"),
    }
}

#[test]
fn all_fields_are_read_in_any_order() {
    let d = def(
        "steps: [a, b,], deps: &deps metadata: 1 + 2, codec: my::Codec registry: make(), name: \"wf\"",
    );
    assert_eq!(d.id, "wf");
    assert_eq!(d.steps.len(), 2);
    assert_eq!(d.codec.unwrap().len, 4);
    assert_eq!(d.registry.unwrap().len, 2);
    assert_eq!(d.metadata.unwrap().len, 3);
    assert_eq!(d.deps.unwrap().len, 2);
    assert!(def("name: \"wf\", steps: [a]").codec.is_none());
}

#[test]
fn every_kind_of_step_is_read() {
    let s = steps(
        "validate(order: Order) { check(order) }, (a || b), join, delay \"5s\", \
         delay \"pause\" \"2m\", signal \"ok\", signal \"my_id\" \"ok2\" timeout \"30s\", \
         loop refine_it 10, loop refine 3 exit_with_last, flow child()",
    );
    assert_eq!(s.len(), 10);
    match &s[0] {
        WorkflowStep::InlineTask { name, param_name, param_type, body, .. } => {
            assert_eq!(name, "validate");
            assert_eq!(param_name, "order");
            assert_eq!(param_type.len, 1);
            assert_eq!(body.len, 2);
        }
        _ => panic!("expected an inline task"),
    }
    match &s[1] {
        WorkflowStep::Parallel { branches, .. } => assert_eq!(branches.len(), 2),
        _ => panic!("expected a fork"),
    }
    match &s[2] {
        WorkflowStep::TaskRef { struct_name, .. } => assert_eq!(struct_name, "JoinTask"),
        _ => panic!("expected a task"),
    }
    match (&s[3], &s[4]) {
        (
            WorkflowStep::Delay { id: first, duration: short, .. },
            WorkflowStep::Delay { id: second, duration: long, .. },
        ) => {
            assert_eq!(first, "delay_5000");
            assert_eq!(short.millis, 5000);
            assert_eq!(second, "pause");
            assert_eq!(long.millis, 120_000);
        }
        _ => panic!("expected delays"),
    }
    match (&s[5], &s[6]) {
        (
            WorkflowStep::AwaitSignal { id: first, signal_name: a, timeout: none, .. },
            WorkflowStep::AwaitSignal { id: second, signal_name: b, timeout: some, .. },
        ) => {
            assert_eq!(first, "signal_ok");
            assert_eq!(a, "ok");
            assert!(none.is_none());
            assert_eq!(second, "my_id");
            assert_eq!(b, "ok2");
            assert_eq!(some.unwrap().millis, 30_000);
        }
        _ => panic!("expected signals"),
    }
    match (&s[7], &s[8]) {
        (
            WorkflowStep::Loop { body: a, max_iterations: m, exit_with_last: x, .. },
            WorkflowStep::Loop { body: b, max_iterations: n, exit_with_last: y, .. },
        ) => {
            assert_eq!(a, "RefineItTask");
            assert_eq!(m, "10");
            assert!(!x);
            assert_eq!(b, "RefineTask");
            assert_eq!(n, "3");
            assert!(y);
        }
        _ => panic!("expected loops"),
    }
    match &s[9] {
        WorkflowStep::Flow { expr, .. } => assert_eq!(expr.len, 2),
        _ => panic!("expected a child workflow"),
    }
}

#[test]
fn routes_are_read_and_numbered() {
    let s = steps(
        "route classify -> my::Intent { Billing => [bill, route deeper { \"x\" => [y] }], \
         _ => [other] }, route last { \"k\" => [z] }",
    );
    let aliases = collect_route_aliases(&s);
    assert_eq!(
        aliases,
        vec![
            ("ClassifyTask".to_string(), "branch_0::key_fn".to_string()),
            ("DeeperTask".to_string(), "branch_1::key_fn".to_string()),
            ("LastTask".to_string(), "branch_2::key_fn".to_string()),
        ],
    );
    assert_eq!(
        collect_task_refs(&s),
        vec![
            "ClassifyTask", "BillTask", "DeeperTask", "YTask", "OtherTask", "LastTask", "ZTask",
        ],
    );
    assert_eq!(route_count(&s, 0), Some(3));
    assert_eq!(route_count(&s, usize::MAX - 1), None);
    let checks = collect_exhaustiveness_checks(&s);
    assert_eq!(checks.len(), 1);
    assert_eq!(checks[0].variants, vec!["Billing"]);
    assert!(checks[0].wildcard);
    assert_eq!(checks[0].key_type.len, 4);
    let mut again = s;
    renumber_branches(&mut again);
    assert_eq!(collect_route_aliases(&again), aliases);
}

#[test]
fn messages_of_the_grammar() {
    assert_eq!(
        message("delay 5"),
        "unexpected token, expected `]`",
    );
    assert_eq!(message(""), "unexpected end of input, expected at least one pipeline step");
    assert_eq!(
        message("a, 5"),
        "expected a task name, inline task, `delay`, `signal`, `route`, `loop`, `flow`, or `(`",
    );
    assert_eq!(
        message("wait \"5s\""),
        "unexpected identifier `wait` followed by string literal; did you mean `delay`, `signal`, or `route`?",
    );
    assert_eq!(
        message("delay \"5x\""),
        "invalid duration suffix in \"5x\"; expected ms, s, m, or h",
    );
    assert_eq!(message("signal \"a\" timeout 5"), "expected string literal");
    assert_eq!(
        message("signal \"a\" timeout"),
        "unexpected end of input, expected string literal",
    );
    assert_eq!(message("loop 5"), "expected a task name after `loop`, e.g. loop refine_task 10");
    assert_eq!(
        message("loop a b"),
        "expected max_iterations integer after task name, e.g. loop refine_task 10",
    );
    assert_eq!(
        message("loop a 5 fail"),
        "expected `exit_with_last` after max_iterations, or `,` / `]` to end the loop step",
    );
    assert_eq!(
        message("route { }"),
        "expected a key function name after `route`, e.g. route classify { ... }",
    );
    assert_eq!(message("route a [ ]"), "expected curly braces");
    assert_eq!(message("route a { }"), "route must have at least one named branch");
    assert_eq!(message("route a { _ => [b] }"), "route must have at least one named branch");
    assert_eq!(
        message("route a { _ => [b], _ => [c] }"),
        "duplicate default branch `_`",
    );
    assert_eq!(
        message("route a { X => [b] }"),
        "expected a string literal key or `_` for default branch",
    );
    assert_eq!(
        message("route a -> K { 5 => [b] }"),
        "expected a variant name, string literal, or `_` for default branch",
    );
    assert_eq!(message("route a { \"x\" [b] }"), "expected `=>`");
    assert_eq!(message("route a { \"x\" => b }"), "expected square brackets");
    assert_eq!(message("(a b)"), "unexpected token, expected `)`");
    assert_eq!(message("a(5: u8) { 1 }"), "expected identifier");
    assert_eq!(message("a(x, u8) { 1 }"), "expected `:`");
    assert_eq!(message("a(x: u8, y) { 1 }"), "unexpected token, expected `)`");
    assert_eq!(message("a(x: u8, y) { 1; }"), "unexpected token, expected `}`");
    assert_eq!(
        message("a(x: u8)"),
        "unexpected end of input, expected curly braces",
    );
    assert_eq!(failure("5").to_string(), "expected identifier");
    assert_eq!(
        failure("loop: 5").to_string(),
        "expected identifier, found keyword `loop`",
    );
    assert_eq!(failure("name 5").to_string(), "expected `:`");
    assert_eq!(failure("name").to_string(), "expected `:`");
    assert_eq!(failure("name: 5").to_string(), "expected string literal");
    assert_eq!(
        failure("name: \"a\", name: \"b\"").to_string(),
        "duplicate `name` field",
    );
    assert_eq!(
        failure("title: \"a\"").to_string(),
        "unknown field `title`; expected `name`, `steps`, `codec`, `registry`, or `metadata`",
    );
    assert_eq!(
        failure("steps: [a]").to_string(),
        "unexpected end of input, missing required field `name`",
    );
    assert_eq!(
        failure("name: \"a\"").to_string(),
        "unexpected end of input, missing required field `steps`",
    );
    assert_eq!(failure("steps: (a)").to_string(), "expected square brackets");
}

#[test]
fn errors_have_their_places() {
    let e = failure("name: \"wf\", steps: [a, 5]");
    assert_eq!(e.place, 9);
    assert!(!e.end);
    let e = failure("name: \"wf\", steps: []");
    assert_eq!(e.place, 7);
    assert!(e.end);
}

fn ids(calls: &[Call]) -> Vec<String> {
    calls
        .iter()
        .map(|c| match c {
            Call::Fork => "fork".to_string(),
            Call::ForkBranch(t) => format!("branch {t}"),
            Call::Join(t) => format!("join {t}"),
            Call::ThenRegistered(t) => format!("then {t}"),
            Call::Then { id, param_name, .. } => format!("inline {id} {param_name}"),
            Call::Delay { id, duration } => format!("delay {id} {}", duration.millis),
            Call::WaitForSignal { id, signal_name, timeout } => {
                format!("signal {id} {signal_name} {:?}", timeout.map(|t| t.millis))
            }
            Call::Loop { body, max_iterations, exit_with_last } => {
                format!("loop {body} {max_iterations} {exit_with_last}")
            }
            Call::Flow(f) => format!("flow {}", f.len),
            Call::Route { id, output_of } => format!("route {id} {output_of}"),
            Call::Arm { key, key_type, tasks } => {
                let key = match key {
                    BranchArmKey::Literal(s) => format!("{s:?}"),
                    BranchArmKey::Variant(v) => v.clone(),
                };
                format!("arm {key} {} {tasks:?}", key_type.is_some())
            }
            Call::DefaultArm(tasks) => format!("default {tasks:?}"),
            Call::Done => "done".to_string(),
        })
        .collect()
}

#[test]
fn a_pipeline_becomes_calls() {
    let (list, end) = unread(
        "name: \"wf\", steps: [a, (b || c), d, delay \"1s\", signal \"s\", loop a 2, \
         flow sub, f(x: u8) { x }, route k { \"x\" => [a, e], _ => [b] }]",
    );
    let (d, g) = expand(&list, end).ok().unwrap();
    assert_eq!(d.id, "wf");
    assert_eq!(
        ids(&g.calls),
        vec![
            "then ATask",
            "fork",
            "branch BTask",
            "branch CTask",
            "join DTask",
            "delay delay_1000 1000",
            "signal signal_s s None",
            "loop ATask 2 false",
            "flow 1",
            "inline f x",
            "route branch_0 ETask",
            "arm \"x\" false [\"ATask\", \"ETask\"]",
            "default [\"BTask\"]",
            "done",
        ],
    );
    assert_eq!(
        g.registered,
        vec![
            "ATask", "BTask", "CTask", "DTask", "ATask", "KTask", "ATask", "ETask", "BTask",
        ],
    );
    assert_eq!(
        g.aliases,
        vec![("KTask".to_string(), "branch_0::key_fn".to_string())],
    );
    assert_eq!(
        g.checked,
        vec!["ATask", "BTask", "CTask", "DTask", "KTask", "ETask"],
    );
}

fn chain_fault(text: &str) -> ChainFault {
    gen_step_chain(&steps(text)).err().unwrap()
}

#[test]
fn pipelines_that_cannot_be_built() {
    assert!(matches!(chain_fault("a || b"), ChainFault::NoJoin(_)));
    assert!(matches!(
        chain_fault("a || f(x: u8) { x }, b"),
        ChainFault::InlineBranch(_),
    ));
    assert!(matches!(chain_fault("a || delay \"1s\", b"), ChainFault::BadBranch(_)));
    assert!(matches!(chain_fault("a || b, delay \"1s\""), ChainFault::BadJoin(_)));
    assert!(matches!(
        chain_fault("route k { \"x\" => [delay \"1s\", a] }"),
        ChainFault::BadArmStep(_),
    ));
    assert!(matches!(
        chain_fault("route k { \"x\" => [delay \"1s\"] }"),
        ChainFault::NoOutput(_),
    ));
    assert_eq!(
        gen_step_chain(&vec![WorkflowStep::Parallel { branches: vec![], span: 7 }]).err(),
        Some(ChainFault::NoBranches(7)),
    );
    let route = |branches| {
        gen_step_chain(&vec![WorkflowStep::Route {
            id: "branch_0".into(),
            key_fn: "KTask".into(),
            key_type: None,
            branches,
            default: None,
            span: 3,
        }])
        .err()
    };
    assert_eq!(route(vec![]), Some(ChainFault::NoArms(3)));
    assert_eq!(
        route(vec![(BranchArmKey::Literal("x".into()), vec![])]),
        Some(ChainFault::EmptyFirstArm(3)),
    );
    let task = |name: &str| WorkflowStep::TaskRef { struct_name: name.into(), span: 1 };
    assert_eq!(
        route(vec![
            (BranchArmKey::Literal("x".into()), vec![task("A")]),
            (BranchArmKey::Literal("y".into()), vec![]),
        ]),
        Some(ChainFault::EmptyArm(3)),
    );
    let (list, end) = unread("name: \"wf\", steps: [a || b]");
    match expand(&list, end).err().unwrap() {
        ExpandError::Chain(f) => assert_eq!(
            f.message(),
            "parallel fork must be followed by a join step (e.g. `=> join_task`)",
        ),
        ExpandError::Grammar(_) => panic!("expected a fault of the chain"),
    }
}

fn returned(text: &str, name: &str, first: Option<&str>) -> ReturnDecl {
    let end = PathEnd { name: name.to_string(), first_type: first.map(String::from) };
    extract_return(Some(text.to_string()), Some(end))
}

#[test]
fn one_attribute_marks_an_injected_parameter() {
    assert!(is_inject_attr("inject"));
    for path in ["", "Inject", ":: inject", "task :: inject", "r#inject", "injected"] {
        assert!(!is_inject_attr(path));
    }
    assert!(param(None, "u8", true).has_inject_attr());
    assert!(!param(None, "u8", false).has_inject_attr());
    assert!(!ParamDecl { ident: None, ty: "u8".into(), attrs: vec![] }.has_inject_attr());
}

#[test]
fn return_types_are_fallible_or_not() {
    assert!(matches!(extract_return(None, None), ReturnDecl::Nothing));
    assert!(matches!(
        returned("std :: result :: Result < Receipt , BoxError >", "Result", Some("Receipt")),
        ReturnDecl::Fallible(t) if t == "Receipt"
    ));
    assert!(matches!(
        returned("Option < Receipt >", "Option", Some("Receipt")),
        ReturnDecl::Infallible(t) if t == "Option < Receipt >"
    ));
    assert!(matches!(returned("Result", "Result", None), ReturnDecl::Infallible(_)));
    assert!(matches!(
        extract_return(Some("(u8 , u8)".to_string()), None),
        ReturnDecl::Infallible(t) if t == "(u8 , u8)"
    ));
}
