//! What a definition hash is taken of tells definitions apart.
use crate::duration;
use crate::duration::Duration;
use crate::hash32;
use crate::stored::SerializableContinuation;
use crate::task::Retry;
use crate::text;
use crate::tree;
use crate::tree::Node;
use crate::workflow::MaxIterationsPolicy;
use vstd::prelude::*;

verus! {

/// A character with a meaning of its own in a canonical text.
pub open spec fn separator(c: char) -> bool {
    c == ':' || c == ';' || c == '[' || c == ']' || c == '{' || c == '}' || c == ',' || c == '='
}

/// A text without such characters.
pub open spec fn plain(s: Seq<char>) -> bool {
    forall|i: int| 0 <= i < s.len() ==> !separator(#[trigger] s[i])
}

/// The texts of a node itself are plain.
pub open spec fn plain_head(n: Node) -> bool {
    plain(tree::id_of(n)) && match n {
        Node::Task { retry, version, .. } => (retry matches Some(p) ==> plain(
            p.backoff_multiplier,
        )) && (version matches Some(v) ==> plain(v)),
        Node::AwaitSignal { signal_name, .. } => plain(signal_name),
        _ => true,
    }
}

/// All texts of a tree are plain.
pub open spec fn plain_tree(n: Node) -> bool
    decreases n,
{
    plain_head(n) && (match tree::next_of(n) {
        Some(m) => plain_tree(*m),
        None => true,
    }) && match n {
        Node::Fork { branches, .. } => forall|i: int|
            #![trigger branches[i]]
            0 <= i < branches.len() ==> plain_tree(branches[i]),
        Node::Branch { arms, default, .. } => (forall|i: int|
            #![trigger arms[i]]
            0 <= i < arms.len() ==> plain(arms[i].0) && plain_tree(arms[i].1)) && match default {
            Some(d) => plain_tree(*d),
            None => true,
        },
        Node::Loop { body, .. } => plain_tree(*body),
        Node::ChildWorkflow { child, .. } => plain_tree(*child),
        _ => true,
    }
}

/// The milliseconds of an optional span.
pub open spec fn opt_millis(o: Option<Duration>) -> Option<u64> {
    match o {
        Some(d) => Some(duration::millis64(d)),
        None => None,
    }
}

/// Two retry policies retry alike, as far as a definition says.
pub open spec fn same_retry(a: Option<Retry>, b: Option<Retry>) -> bool {
    match (a, b) {
        (Some(p), Some(q)) => p.max_retries == q.max_retries && duration::millis_of(
            p.initial_delay,
        ) == duration::millis_of(q.initial_delay) && p.backoff_multiplier == q.backoff_multiplier,
        (None, None) => true,
        _ => false,
    }
}

/// Two nodes are of the same kind and say the same of themselves.
pub open spec fn same_head(a: Node, b: Node) -> bool {
    tree::id_of(a) == tree::id_of(b) && match (a, b) {
        (Node::Task { timeout, retry, version, .. }, Node::Task { .. }) => opt_millis(timeout)
            == opt_millis(b->Task_timeout) && same_retry(retry, b->retry) && version
            == b->version,
        (Node::Fork { .. }, Node::Fork { .. }) => true,
        (Node::Delay { duration, .. }, Node::Delay { .. }) => duration::millis64(duration)
            == duration::millis64(b->duration),
        (Node::AwaitSignal { signal_name, timeout, .. }, Node::AwaitSignal { .. }) => signal_name
            == b->signal_name && opt_millis(timeout) == opt_millis(b->AwaitSignal_timeout),
        (Node::Branch { .. }, Node::Branch { .. }) => true,
        (Node::Loop { max_iterations, on_max, .. }, Node::Loop { .. }) => max_iterations
            == b->max_iterations && on_max == b->on_max,
        (Node::ChildWorkflow { .. }, Node::ChildWorkflow { .. }) => true,
        _ => false,
    }
}

/// Two trees define the same workflow: node for node they are of the same kind and have the
/// same id, timeout, retry policy, version, duration, signal name and loop limit, and they
/// branch alike. Implementations, priorities and tags have no part in a definition.
pub open spec fn same_definition(a: Node, b: Node) -> bool
    decreases a,
{
    same_head(a, b) && (match (tree::next_of(a), tree::next_of(b)) {
        (Some(m), Some(k)) => same_definition(*m, *k),
        (None, None) => true,
        _ => false,
    }) && match a {
        Node::Fork { branches, .. } => branches.len() == b->Fork_branches.len() && forall|i: int|
            #![trigger branches[i]]
            0 <= i < branches.len() ==> same_definition(branches[i], b->Fork_branches[i]),
        Node::Branch { arms, default, .. } => arms.len() == b->arms.len() && (forall|i: int|
            #![trigger arms[i]]
            0 <= i < arms.len() ==> arms[i].0 == b->arms[i].0 && same_definition(
                arms[i].1,
                b->arms[i].1,
            )) && match (default, b->default) {
            (Some(c), Some(d)) => same_definition(*c, *d),
            (None, None) => true,
            _ => false,
        },
        Node::Loop { body, .. } => same_definition(*body, *b->body),
        Node::ChildWorkflow { child, .. } => same_definition(*child, *b->child),
        _ => true,
    }
}

/// The characters of the fixed pieces of a canonical text.
proof fn lemma_pieces()
    ensures
        "T:"@ == seq!['T', ':'],
        "F:"@ == seq!['F', ':'],
        "D:"@ == seq!['D', ':'],
        "S:"@ == seq!['S', ':'],
        "B:"@ == seq!['B', ':'],
        "L:"@ == seq!['L', ':'],
        "J:"@ == seq!['J', ':'],
        "CW:"@ == seq!['C', 'W', ':'],
        ":t:"@ == seq![':', 't', ':'],
        ":r:"@ == seq![':', 'r', ':'],
        ":v:"@ == seq![':', 'v', ':'],
        "_=>"@ == seq!['_', '=', '>'],
        "=>"@ == seq!['=', '>'],
        ":"@ == seq![':'],
        ";"@ == seq![';'],
        "["@ == seq!['['],
        "]"@ == seq![']'],
        "{"@ == seq!['{'],
        "}"@ == seq!['}'],
        ","@ == seq![','],
{
    reveal_strlit("T:");
    reveal_strlit("F:");
    reveal_strlit("D:");
    reveal_strlit("S:");
    reveal_strlit("B:");
    reveal_strlit("L:");
    reveal_strlit("J:");
    reveal_strlit("CW:");
    reveal_strlit(":t:");
    reveal_strlit(":r:");
    reveal_strlit(":v:");
    reveal_strlit("_=>");
    reveal_strlit("=>");
    reveal_strlit(":");
    reveal_strlit(";");
    reveal_strlit("[");
    reveal_strlit("]");
    reveal_strlit("{");
    reveal_strlit("}");
    reveal_strlit(",");
    assert("T:"@ =~= seq!['T', ':']);
    assert("F:"@ =~= seq!['F', ':']);
    assert("D:"@ =~= seq!['D', ':']);
    assert("S:"@ =~= seq!['S', ':']);
    assert("B:"@ =~= seq!['B', ':']);
    assert("L:"@ =~= seq!['L', ':']);
    assert("J:"@ =~= seq!['J', ':']);
    assert("CW:"@ =~= seq!['C', 'W', ':']);
    assert(":t:"@ =~= seq![':', 't', ':']);
    assert(":r:"@ =~= seq![':', 'r', ':']);
    assert(":v:"@ =~= seq![':', 'v', ':']);
    assert("_=>"@ =~= seq!['_', '=', '>']);
    assert("=>"@ =~= seq!['=', '>']);
    assert(":"@ =~= seq![':']);
    assert(";"@ =~= seq![';']);
    assert("["@ =~= seq!['[']);
    assert("]"@ =~= seq![']']);
    assert("{"@ =~= seq!['{']);
    assert("}"@ =~= seq!['}']);
    assert(","@ =~= seq![',']);
}

/// What follows a plain text starts with a separator.
spec fn cuts(x: Seq<char>) -> bool {
    x.len() > 0 && separator(x[0])
}

/// A plain text is told from what follows it.
proof fn lemma_cut(u: Seq<char>, x: Seq<char>, v: Seq<char>, y: Seq<char>)
    requires
        plain(u),
        plain(v),
        cuts(x),
        cuts(y),
        u + x == v + y,
    ensures
        u == v,
        x == y,
{
    if u.len() < v.len() {
        assert((u + x)[u.len() as int] == x[0]);
        assert((v + y)[u.len() as int] == v[u.len() as int]);
    } else if v.len() < u.len() {
        assert((v + y)[v.len() as int] == y[0]);
        assert((u + x)[v.len() as int] == u[v.len() as int]);
    }
    assert(u =~= (u + x).take(u.len() as int));
    assert(v =~= (v + y).take(v.len() as int));
    assert(x =~= (u + x).skip(u.len() as int));
    assert(y =~= (v + y).skip(v.len() as int));
}

/// The same text at the front leaves the same rest.
proof fn lemma_strip(p: Seq<char>, x: Seq<char>, y: Seq<char>)
    requires
        p + x == p + y,
    ensures
        x == y,
{
    assert(x =~= (p + x).skip(p.len() as int));
    assert(y =~= (p + y).skip(p.len() as int));
}

proof fn lemma_decimal_plain(n: nat)
    ensures
        plain(text::decimal(n)),
{
    text::lemma_decimal_digits(n);
    assert forall|i: int| 0 <= i < text::decimal(n).len() implies !separator(
        #[trigger] text::decimal(n)[i],
    ) by {
        assert(text::is_digit(text::decimal(n)[i]));
    }
}

/// A numeral is told from what follows it.
proof fn lemma_cut_number(m: nat, x: Seq<char>, n: nat, y: Seq<char>)
    requires
        cuts(x),
        cuts(y),
        text::decimal(m) + x == text::decimal(n) + y,
    ensures
        m == n,
        x == y,
{
    lemma_decimal_plain(m);
    lemma_decimal_plain(n);
    lemma_cut(text::decimal(m), x, text::decimal(n), y);
    text::law_numerals_differ(m, n, 0);
}

/// What follows a timeout: a retry policy, a version or the end of the node.
spec fn after_timeout(x: Seq<char>) -> bool {
    x.len() > 0 && (x[0] == ';' || (x[0] == ':' && x.len() > 1 && x[1] != 't'))
}

proof fn lemma_cut_timeout(a: Option<Duration>, x: Seq<char>, b: Option<Duration>, y: Seq<char>)
    requires
        after_timeout(x),
        after_timeout(y),
        tree::timeout_part(a) + x == tree::timeout_part(b) + y,
    ensures
        opt_millis(a) == opt_millis(b),
        x == y,
{
    lemma_pieces();
    let l = tree::timeout_part(a) + x;
    match (a, b) {
        (Some(c), Some(d)) => {
            let m = duration::millis64(c) as nat;
            let n = duration::millis64(d) as nat;
            assert(l =~= ":t:"@ + (text::decimal(m) + x));
            assert(l =~= ":t:"@ + (text::decimal(n) + y));
            lemma_strip(":t:"@, text::decimal(m) + x, text::decimal(n) + y);
            lemma_cut_number(m, x, n, y);
        },
        (Some(c), None) => {
            assert(l =~= y);
            assert(l[1] == 't' && l[0] == ':');
        },
        (None, Some(d)) => {
            assert(l =~= x);
            assert((tree::timeout_part(b) + y)[1] == 't' && (tree::timeout_part(b) + y)[0] == ':');
        },
        (None, None) => {
            assert(l =~= x);
            assert(l =~= y);
        },
    }
}

/// What follows a retry policy: a version or the end of the node.
spec fn after_retry(x: Seq<char>) -> bool {
    x.len() > 0 && (x[0] == ';' || (x[0] == ':' && x.len() > 1 && x[1] == 'v'))
}

proof fn lemma_cut_retry(a: Option<Retry>, x: Seq<char>, b: Option<Retry>, y: Seq<char>)
    requires
        after_retry(x),
        after_retry(y),
        a matches Some(p) ==> plain(p.backoff_multiplier),
        b matches Some(p) ==> plain(p.backoff_multiplier),
        tree::retry_part(a) + x == tree::retry_part(b) + y,
    ensures
        same_retry(a, b),
        x == y,
{
    lemma_pieces();
    let l = tree::retry_part(a) + x;
    match (a, b) {
        (Some(p), Some(q)) => {
            let m = p.max_retries as nat;
            let n = q.max_retries as nat;
            let c = duration::millis_of(p.initial_delay);
            let d = duration::millis_of(q.initial_delay);
            let u = ":"@ + (p.backoff_multiplier + x);
            let v = ":"@ + (q.backoff_multiplier + y);
            let s = ":"@ + (text::decimal(c) + u);
            let t = ":"@ + (text::decimal(d) + v);
            assert(l =~= ":r:"@ + (text::decimal(m) + s));
            assert(l =~= ":r:"@ + (text::decimal(n) + t));
            lemma_strip(":r:"@, text::decimal(m) + s, text::decimal(n) + t);
            lemma_cut_number(m, s, n, t);
            lemma_strip(":"@, text::decimal(c) + u, text::decimal(d) + v);
            lemma_cut_number(c, u, d, v);
            lemma_strip(":"@, p.backoff_multiplier + x, q.backoff_multiplier + y);
            lemma_cut(p.backoff_multiplier, x, q.backoff_multiplier, y);
        },
        (Some(p), None) => {
            assert(l =~= y);
            assert(l[1] == 'r' && l[0] == ':');
        },
        (None, Some(q)) => {
            assert(l =~= x);
            assert((tree::retry_part(b) + y)[1] == 'r' && (tree::retry_part(b) + y)[0] == ':');
        },
        (None, None) => {
            assert(l =~= x);
            assert(l =~= y);
        },
    }
}

proof fn lemma_cut_version(a: Option<Seq<char>>, x: Seq<char>, b: Option<Seq<char>>, y: Seq<char>)
    requires
        x.len() > 0 && x[0] == ';',
        y.len() > 0 && y[0] == ';',
        a matches Some(p) ==> plain(p),
        b matches Some(p) ==> plain(p),
        tree::version_part(a) + x == tree::version_part(b) + y,
    ensures
        a == b,
        x == y,
{
    lemma_pieces();
    let l = tree::version_part(a) + x;
    match (a, b) {
        (Some(p), Some(q)) => {
            assert(l =~= ":v:"@ + (p + x));
            assert(l =~= ":v:"@ + (q + y));
            lemma_strip(":v:"@, p + x, q + y);
            lemma_cut(p, x, q, y);
        },
        (Some(p), None) => {
            assert(l =~= y);
            assert(l[0] == ':');
        },
        (None, Some(q)) => {
            assert(l =~= x);
            assert((tree::version_part(b) + y)[0] == ':');
        },
        (None, None) => {
            assert(l =~= x);
            assert(l =~= y);
        },
    }
}

proof fn assoc(a: Seq<char>, b: Seq<char>, c: Seq<char>)
    ensures
        (a + b) + c == a + (b + c),
{
    assert((a + b) + c =~= a + (b + c));
}

/// What the text of a node starts with.
spec fn tag(n: Node) -> Seq<char> {
    match n {
        Node::Task { .. } => "T:"@,
        Node::Fork { .. } => "F:"@,
        Node::Delay { .. } => "D:"@,
        Node::AwaitSignal { .. } => "S:"@,
        Node::Branch { .. } => "B:"@,
        Node::Loop { .. } => "L:"@,
        Node::ChildWorkflow { .. } => "CW:"@,
    }
}

/// The canonical text of a tree.
#[verifier::opaque]
spec fn told(n: Node) -> Seq<char> {
    tree::canonical(n)
}

/// The canonical text of the branches of a fork.
#[verifier::opaque]
spec fn told_all(s: Seq<Node>) -> Seq<char> {
    tree::canonical_all(s, s.len())
}

/// The canonical text of the arms of a branch node.
#[verifier::opaque]
spec fn told_arms(s: Seq<(Seq<char>, Node)>) -> Seq<char> {
    tree::canonical_arms(s, s.len())
}

/// The text of a task between its id and what follows it in the chain.
spec fn task_inner(
    timeout: Option<Duration>,
    retry: Option<Retry>,
    version: Option<Seq<char>>,
) -> Seq<char> {
    tree::timeout_part(timeout) + (tree::retry_part(retry) + (tree::version_part(version) + ";"@))
}

/// The text of an optional default arm.
spec fn default_part(d: Option<Box<Node>>) -> Seq<char> {
    match d {
        Some(m) => "_=>"@ + told(*m),
        None => seq![],
    }
}

/// The text of a loop between its id and what follows it in the chain.
spec fn loop_inner(max: nat, policy: Seq<char>, body: Seq<char>) -> Seq<char> {
    ":"@ + (text::decimal(max) + (":"@ + (policy + ("{"@ + (body + ("}"@ + ";"@))))))
}

/// The text of a node between its id and what follows it in the chain.
#[verifier::opaque]
spec fn inner(n: Node) -> Seq<char> {
    match n {
        Node::Task { timeout, retry, version, .. } => task_inner(timeout, retry, version),
        Node::Fork { branches, .. } => "["@ + (told_all(branches) + "]"@),
        Node::Delay { duration, .. } => ":"@ + (text::decimal(duration::millis64(duration) as nat)
            + ";"@),
        Node::AwaitSignal { signal_name, timeout, .. } => ":"@ + (signal_name + (
        tree::timeout_part(timeout) + ";"@)),
        Node::Branch { arms, default, .. } => "{"@ + (told_arms(arms) + ("}"@ + (default_part(
            default,
        ) + ";"@))),
        Node::Loop { body, max_iterations, on_max, .. } => loop_inner(
            max_iterations as nat,
            tree::policy_text(on_max),
            told(*body),
        ),
        Node::ChildWorkflow { child, .. } => "{"@ + (told(*child) + ("}"@ + ";"@)),
    }
}

/// The text of what follows a node in the chain.
spec fn follows(n: Node) -> Seq<char> {
    match tree::next_of(n) {
        Some(m) => if n is Fork {
            "J:"@ + told(*m)
        } else {
            told(*m)
        },
        None => seq![],
    }
}

/// Pieces in a row, grouped from the left and from the right.
proof fn regroup4(a: Seq<char>, b: Seq<char>, c: Seq<char>, d: Seq<char>)
    ensures
        a + b + c + d == a + (b + (c + d)),
{
    assoc(a + b, c, d);
    assoc(a, b, c + d);
}

proof fn regroup5(a: Seq<char>, b: Seq<char>, c: Seq<char>, d: Seq<char>, e: Seq<char>)
    ensures
        a + b + c + d + e == a + (b + (c + (d + e))),
{
    assoc(a + b + c, d, e);
    regroup4(a, b, c, d + e);
}

proof fn regroup6(
    a: Seq<char>,
    b: Seq<char>,
    c: Seq<char>,
    d: Seq<char>,
    e: Seq<char>,
    f: Seq<char>,
)
    ensures
        a + b + c + d + e + f == a + (b + (c + (d + (e + f)))),
{
    assoc(a + b + c + d, e, f);
    regroup5(a, b, c, d, e + f);
}

proof fn regroup7(
    a: Seq<char>,
    b: Seq<char>,
    c: Seq<char>,
    d: Seq<char>,
    e: Seq<char>,
    f: Seq<char>,
    g: Seq<char>,
)
    ensures
        a + b + c + d + e + f + g == a + (b + (c + (d + (e + (f + g))))),
{
    assoc(a + b + c + d + e, f, g);
    regroup6(a, b, c, d, e, f + g);
}

/// A text after pieces that are grouped from the right.
proof fn extend2(a: Seq<char>, b: Seq<char>, x: Seq<char>)
    ensures
        (a + b) + x == a + (b + x),
{
    assoc(a, b, x);
}

proof fn extend3(a: Seq<char>, b: Seq<char>, c: Seq<char>, x: Seq<char>)
    ensures
        (a + (b + c)) + x == a + (b + (c + x)),
{
    assoc(a, b + c, x);
    assoc(b, c, x);
}

proof fn extend4(a: Seq<char>, b: Seq<char>, c: Seq<char>, d: Seq<char>, x: Seq<char>)
    ensures
        (a + (b + (c + d))) + x == a + (b + (c + (d + x))),
{
    assoc(a, b + (c + d), x);
    extend3(b, c, d, x);
}

proof fn extend5(
    a: Seq<char>,
    b: Seq<char>,
    c: Seq<char>,
    d: Seq<char>,
    e: Seq<char>,
    x: Seq<char>,
)
    ensures
        (a + (b + (c + (d + e)))) + x == a + (b + (c + (d + (e + x)))),
{
    assoc(a, b + (c + (d + e)), x);
    extend4(b, c, d, e, x);
}

proof fn extend8(
    a: Seq<char>,
    b: Seq<char>,
    c: Seq<char>,
    d: Seq<char>,
    e: Seq<char>,
    f: Seq<char>,
    g: Seq<char>,
    h: Seq<char>,
    x: Seq<char>,
)
    ensures
        (a + (b + (c + (d + (e + (f + (g + h))))))) + x == a + (b + (c + (d + (e + (f + (g + (h
            + x))))))),
{
    let p = e + (f + (g + h));
    extend4(e, f, g, h, x);
    assoc(a, b + (c + (d + p)), x);
    extend4(b, c, d, p, x);
}

#[verifier::spinoff_prover]
#[verifier::rlimit(60)]
proof fn lemma_shape(n: Node)
    ensures
        told(n) == tag(n) + (tree::id_of(n) + (inner(n) + follows(n))),
{
    reveal(told);
    reveal(told_all);
    reveal(told_arms);
    reveal(inner);
    let id = tree::id_of(n);
    let x = follows(n);
    match n {
        Node::Task { timeout, retry, version, .. } => {
            let t = tree::timeout_part(timeout);
            let r = tree::retry_part(retry);
            let v = tree::version_part(version);
            assert(tree::canonical(n) == "T:"@ + id + t + r + v + ";"@ + x);
            regroup7("T:"@, id, t, r, v, ";"@, x);
            extend4(t, r, v, ";"@, x);
        },
        Node::Fork { branches, .. } => {
            let b = tree::canonical_all(branches, branches.len());
            assert(tree::canonical(n) == "F:"@ + id + "["@ + b + "]"@ + x);
            regroup6("F:"@, id, "["@, b, "]"@, x);
            extend3("["@, b, "]"@, x);
        },
        Node::Delay { duration, .. } => {
            let d = text::decimal(duration::millis64(duration) as nat);
            assert(tree::canonical(n) == "D:"@ + id + ":"@ + d + ";"@ + x);
            regroup6("D:"@, id, ":"@, d, ";"@, x);
            extend3(":"@, d, ";"@, x);
        },
        Node::AwaitSignal { signal_name, timeout, .. } => {
            let t = tree::timeout_part(timeout);
            assert(tree::canonical(n) == "S:"@ + id + ":"@ + signal_name + t + ";"@ + x);
            regroup7("S:"@, id, ":"@, signal_name, t, ";"@, x);
            extend4(":"@, signal_name, t, ";"@, x);
        },
        Node::Branch { arms, default, .. } => {
            let b = tree::canonical_arms(arms, arms.len());
            let d = default_part(default);
            assert(tree::canonical(n) == "B:"@ + id + "{"@ + b + "}"@ + d + ";"@ + x);
            assoc("B:"@ + id + "{"@ + b + "}"@ + d, ";"@, x);
            regroup7("B:"@, id, "{"@, b, "}"@, d, ";"@ + x);
            extend5("{"@, b, "}"@, d, ";"@, x);
        },
        Node::Loop { body, max_iterations, on_max, .. } => {
            let m = text::decimal(max_iterations as nat);
            let q = tree::policy_text(on_max);
            let b = tree::canonical(*body);
            assert(tree::canonical(n) == "L:"@ + id + ":"@ + m + ":"@ + q + "{"@ + b + "}"@ + ";"@
                + x);
            let front = "L:"@ + id + ":"@ + m + ":"@ + q;
            regroup5(front + "{"@, b, "}"@, ";"@, x);
            assoc(front, "{"@, b + ("}"@ + (";"@ + x)));
            regroup7("L:"@, id, ":"@, m, ":"@, q, "{"@ + (b + ("}"@ + (";"@ + x))));
            extend8(":"@, m, ":"@, q, "{"@, b, "}"@, ";"@, x);
        },
        Node::ChildWorkflow { child, .. } => {
            let b = tree::canonical(*child);
            assert(tree::canonical(n) == "CW:"@ + id + "{"@ + b + "}"@ + ";"@ + x);
            regroup7("CW:"@, id, "{"@, b, "}"@, ";"@, x);
            extend4("{"@, b, "}"@, ";"@, x);
        },
    }
}

/// The text of what follows a node in the chain.
pub open spec fn tail(n: Node) -> Seq<char> {
    match tree::next_of(n) {
        Some(m) => if n is Fork {
            "J:"@ + tree::canonical(*m)
        } else {
            tree::canonical(*m)
        },
        None => seq![],
    }
}

proof fn lemma_inner_alone(n: Node)
    ensures
        inner(tree::with_next(n, None)) == inner(n),
        tag(tree::with_next(n, None)) == tag(n),
        tree::id_of(tree::with_next(n, None)) == tree::id_of(n),
        tree::next_of(tree::with_next(n, None)) is None,
{
    reveal(inner);
}

/// The text of a node is that of the node without a successor, and then that of the
/// successor, for every kind of node; the join of a fork stands behind `J:`. So what follows
/// in a chain ends the text.
pub proof fn law_successor_ends_the_text(n: Node)
    ensures
        tree::canonical(n) == tree::canonical(tree::with_next(n, None)) + tail(n),
        tree::next_of(n) matches Some(m) ==> tree::canonical(*m).is_suffix_of(tree::canonical(n)),
{
    let alone = tree::with_next(n, None);
    lemma_shape(n);
    lemma_shape(alone);
    lemma_inner_alone(n);
    let p = tag(n);
    let id = tree::id_of(n);
    let b = inner(n);
    assert(b + Seq::<char>::empty() =~= b);
    assert(told(n) == told(alone) + follows(n)) by {
        extend3(p, id, b, follows(n));
    }
    assert(follows(n) == tail(n) && told(n) == tree::canonical(n) && told(alone)
        == tree::canonical(alone)) by {
        reveal(told);
    }
    if let Some(m) = tree::next_of(n) {
        let c = told(n);
        assert(told(*m) == tree::canonical(*m)) by {
            reveal(told);
        }
        let e = told(*m);
        if n is Fork {
            assoc(told(alone), "J:"@, e);
            assert(c.subrange(c.len() - e.len(), c.len() as int) =~= e);
        } else {
            assert(c.subrange(c.len() - e.len(), c.len() as int) =~= e);
        }
    }
}

/// Nodes that are the same but for what follows them have the same text only if what follows
/// has: a change behind a node, behind a fork too, changes the text.
pub proof fn law_other_successor_other_text(n: Node, a: Option<Box<Node>>, b: Option<Box<Node>>)
    requires
        tree::canonical(tree::with_next(n, a)) == tree::canonical(tree::with_next(n, b)),
    ensures
        a is Some <==> b is Some,
        a is Some ==> tree::canonical(*a->0) == tree::canonical(*b->0),
{
    let x = tree::with_next(n, a);
    let y = tree::with_next(n, b);
    law_successor_ends_the_text(x);
    law_successor_ends_the_text(y);
    let p = tree::canonical(tree::with_next(n, None));
    assert(tree::with_next(x, None) == tree::with_next(n, None));
    assert(tree::with_next(y, None) == tree::with_next(n, None));
    lemma_strip(p, tail(x), tail(y));
    lemma_pieces();
    if let Some(m) = a {
        lemma_starts(*m);
    }
    if let Some(m) = b {
        lemma_starts(*m);
    }
    if a is Some && b is Some && n is Fork {
        lemma_strip("J:"@, tree::canonical(*a->0), tree::canonical(*b->0));
    }
}

/// The text of a tree starts with the tag of its first node.
proof fn lemma_starts(n: Node)
    ensures
        told(n).len() > 0,
        told(n)[0] == tag(n)[0],
        tree::canonical(n).len() > 0,
        told(n)[0] == 'T' || told(n)[0] == 'F' || told(n)[0] == 'D' || told(n)[0] == 'S'
            || told(n)[0] == 'B' || told(n)[0] == 'L' || told(n)[0] == 'C',
{
    lemma_pieces();
    lemma_shape(n);
    let rest = tree::id_of(n) + (inner(n) + follows(n));
    assert((tag(n) + rest)[0] == tag(n)[0]);
    assert(told(n) == tree::canonical(n)) by {
        reveal(told);
    }
}

/// The text of the branches of a fork from the `i`-th on.
spec fn all_from(s: Seq<Node>, i: nat) -> Seq<char>
    decreases s.len() - i,
{
    if i < s.len() {
        told(s[i as int]) + (","@ + all_from(s, i + 1))
    } else {
        seq![]
    }
}

proof fn lemma_all_from(s: Seq<Node>, i: nat)
    requires
        i <= s.len(),
    ensures
        tree::canonical_all(s, s.len()) == tree::canonical_all(s, i) + all_from(s, i),
    decreases s.len() - i,
{
    if i < s.len() {
        lemma_all_from(s, i + 1);
        let a = tree::canonical_all(s, i);
        let c = told(s[i as int]);
        let e = all_from(s, i + 1);
        assert(tree::canonical_all(s, i + 1) == a + c + ","@) by {
            reveal(told);
            reveal_with_fuel(tree::canonical_all, 2);
        }
        regroup4(a, c, ","@, e);
    } else {
        assert(tree::canonical_all(s, i) + all_from(s, i) =~= tree::canonical_all(s, i));
    }
}

proof fn lemma_told_all(s: Seq<Node>)
    ensures
        told_all(s) == all_from(s, 0),
{
    reveal(told_all);
    lemma_all_from(s, 0);
    assert(tree::canonical_all(s, 0) + all_from(s, 0) =~= all_from(s, 0));
}

/// The text of the arms of a branch node from the `i`-th on.
spec fn arms_from(s: Seq<(Seq<char>, Node)>, i: nat) -> Seq<char>
    decreases s.len() - i,
{
    if i < s.len() {
        s[i as int].0 + ("=>"@ + (told(s[i as int].1) + (","@ + arms_from(s, i + 1))))
    } else {
        seq![]
    }
}

proof fn lemma_arms_from(s: Seq<(Seq<char>, Node)>, i: nat)
    requires
        i <= s.len(),
    ensures
        tree::canonical_arms(s, s.len()) == tree::canonical_arms(s, i) + arms_from(s, i),
    decreases s.len() - i,
{
    if i < s.len() {
        lemma_arms_from(s, i + 1);
        let a = tree::canonical_arms(s, i);
        let key = s[i as int].0;
        let c = told(s[i as int].1);
        let e = arms_from(s, i + 1);
        assert(tree::canonical_arms(s, i + 1) == a + key + "=>"@ + c + ","@) by {
            reveal(told);
            reveal_with_fuel(tree::canonical_arms, 2);
        }
        regroup6(a, key, "=>"@, c, ","@, e);
    } else {
        assert(tree::canonical_arms(s, i) + arms_from(s, i) =~= tree::canonical_arms(s, i));
    }
}

proof fn lemma_told_arms(s: Seq<(Seq<char>, Node)>)
    ensures
        told_arms(s) == arms_from(s, 0),
{
    reveal(told_arms);
    lemma_arms_from(s, 0);
    assert(tree::canonical_arms(s, 0) + arms_from(s, 0) =~= arms_from(s, 0));
}

/// What follows a chain: nothing, or a separator that ends it.
spec fn closed_by(x: Seq<char>) -> bool {
    x.len() == 0 || x[0] == ',' || x[0] == '}' || x[0] == ';'
}

/// The branches of a fork are told from what follows them.
#[verifier::spinoff_prover]
proof fn lemma_cut_all(
    s: Seq<Node>,
    i: nat,
    x: Seq<char>,
    t: Seq<Node>,
    j: nat,
    y: Seq<char>,
)
    requires
        i <= s.len(),
        j <= t.len(),
        forall|k: int| #![trigger s[k]] 0 <= k < s.len() ==> plain_tree(s[k]),
        forall|k: int| #![trigger t[k]] 0 <= k < t.len() ==> plain_tree(t[k]),
        all_from(s, i) + ("]"@ + x) == all_from(t, j) + ("]"@ + y),
    ensures
        s.len() - i == t.len() - j,
        forall|k: int|
            #![trigger s[i + k]]
            0 <= k < s.len() - i ==> same_definition(s[i + k], t[j + k]),
        x == y,
    decreases s, (s.len() - i) as nat, 2nat,
{
    lemma_pieces();
    let l = all_from(s, i) + ("]"@ + x);
    let r = all_from(t, j) + ("]"@ + y);
    let u = all_from(s, i + 1) + ("]"@ + x);
    let v = all_from(t, j + 1) + ("]"@ + y);
    if i < s.len() {
        lemma_starts(s[i as int]);
        extend3(told(s[i as int]), ","@, all_from(s, i + 1), "]"@ + x);
        assert(l == told(s[i as int]) + (","@ + u));
        assert(l[0] == told(s[i as int])[0]);
    } else {
        assert(l =~= "]"@ + x);
    }
    if j < t.len() {
        lemma_starts(t[j as int]);
        extend3(told(t[j as int]), ","@, all_from(t, j + 1), "]"@ + y);
        assert(r == told(t[j as int]) + (","@ + v));
        assert(r[0] == told(t[j as int])[0]);
    } else {
        assert(r =~= "]"@ + y);
    }
    if i < s.len() && j < t.len() {
        assert(decreases_to!(s => s[i as int]));
        lemma_apart(s[i as int], ","@ + u, t[j as int], ","@ + v);
        lemma_strip(","@, u, v);
        lemma_cut_all(s, i + 1, x, t, j + 1, y);
        assert forall|k: int|
            #![trigger s[i + k]]
            0 <= k < s.len() - i implies same_definition(s[i + k], t[j + k]) by {
            if k > 0 {
                assert(same_definition(s[i + 1 + (k - 1)], t[j + 1 + (k - 1)]));
            }
        }
    } else {
        lemma_strip("]"@, x, y);
    }
}

/// The arms of a branch node are told from what follows them.
#[verifier::spinoff_prover]
proof fn lemma_cut_arms(
    s: Seq<(Seq<char>, Node)>,
    i: nat,
    x: Seq<char>,
    t: Seq<(Seq<char>, Node)>,
    j: nat,
    y: Seq<char>,
)
    requires
        i <= s.len(),
        j <= t.len(),
        forall|k: int|
            #![trigger s[k]]
            0 <= k < s.len() ==> plain(s[k].0) && plain_tree(s[k].1),
        forall|k: int|
            #![trigger t[k]]
            0 <= k < t.len() ==> plain(t[k].0) && plain_tree(t[k].1),
        arms_from(s, i) + ("}"@ + x) == arms_from(t, j) + ("}"@ + y),
    ensures
        s.len() - i == t.len() - j,
        forall|k: int|
            #![trigger s[i + k]]
            0 <= k < s.len() - i ==> s[i + k].0 == t[j + k].0 && same_definition(
                s[i + k].1,
                t[j + k].1,
            ),
        x == y,
    decreases s, (s.len() - i) as nat, 2nat,
{
    lemma_pieces();
    let l = arms_from(s, i) + ("}"@ + x);
    let r = arms_from(t, j) + ("}"@ + y);
    let u = arms_from(s, i + 1) + ("}"@ + x);
    let v = arms_from(t, j + 1) + ("}"@ + y);
    if i < s.len() {
        let a = s[i as int];
        extend5(a.0, "=>"@, told(a.1), ","@, arms_from(s, i + 1), "}"@ + x);
        assert(l == a.0 + ("=>"@ + (told(a.1) + (","@ + u))));
        lemma_first(a.0, "=>"@ + (told(a.1) + (","@ + u)));
    } else {
        assert(l =~= "}"@ + x);
    }
    if j < t.len() {
        let b = t[j as int];
        extend5(b.0, "=>"@, told(b.1), ","@, arms_from(t, j + 1), "}"@ + y);
        assert(r == b.0 + ("=>"@ + (told(b.1) + (","@ + v))));
        lemma_first(b.0, "=>"@ + (told(b.1) + (","@ + v)));
    } else {
        assert(r =~= "}"@ + y);
    }
    if i < s.len() && j < t.len() {
        let a = s[i as int];
        let b = t[j as int];
        let e = told(a.1) + (","@ + u);
        let f = told(b.1) + (","@ + v);
        lemma_cut(a.0, "=>"@ + e, b.0, "=>"@ + f);
        lemma_strip("=>"@, e, f);
        assert(decreases_to!(s => s[i as int]));
        assert(decreases_to!(s[i as int] => s[i as int].1));
        lemma_apart(a.1, ","@ + u, b.1, ","@ + v);
        lemma_strip(","@, u, v);
        lemma_cut_arms(s, i + 1, x, t, j + 1, y);
        assert forall|k: int| #![trigger s[i + k]] 0 <= k < s.len() - i implies s[i + k].0 == t[j
            + k].0 && same_definition(s[i + k].1, t[j + k].1) by {
            if k > 0 {
                assert(same_definition(s[i + 1 + (k - 1)].1, t[j + 1 + (k - 1)].1));
            }
        }
    } else {
        lemma_strip("}"@, x, y);
    }
}

/// A key and its arrow do not start with a closing bracket.
proof fn lemma_first(key: Seq<char>, x: Seq<char>)
    requires
        plain(key),
        x.len() > 0 && x[0] == '=',
    ensures
        (key + x).len() > 0,
        (key + x)[0] != '}',
{
    if key.len() > 0 {
        assert((key + x)[0] == key[0]);
    } else {
        assert((key + x)[0] == x[0]);
    }
}

/// A tree is told from what follows it.
#[verifier::spinoff_prover]
#[verifier::rlimit(60)]
proof fn lemma_apart(a: Node, x: Seq<char>, b: Node, y: Seq<char>)
    requires
        plain_tree(a),
        plain_tree(b),
        closed_by(x),
        closed_by(y),
        told(a) + x == told(b) + y,
    ensures
        same_definition(a, b),
        x == y,
    decreases a, 0nat, 1nat,
{
    lemma_pieces();
    lemma_shape(a);
    lemma_shape(b);
    let p = follows(a) + x;
    let q = follows(b) + y;
    extend4(tag(a), tree::id_of(a), inner(a), follows(a), x);
    extend4(tag(b), tree::id_of(b), inner(b), follows(b), y);
    let c = tree::id_of(a) + (inner(a) + p);
    let d = tree::id_of(b) + (inner(b) + q);
    assert(told(a) + x == tag(a) + c);
    assert(told(b) + y == tag(b) + d);
    assert((tag(a) + c)[0] == tag(a)[0] && (tag(b) + d)[0] == tag(b)[0]);
    assert(tag(a) == tag(b));
    lemma_strip(tag(a), c, d);
    lemma_inner_cuts(a, p);
    lemma_inner_cuts(b, q);
    assert(plain_head(a) && plain_head(b));
    lemma_cut(tree::id_of(a), inner(a) + p, tree::id_of(b), inner(b) + q);
    lemma_apart_inner(a, p, b, q);
    lemma_follows(a, x);
    lemma_follows(b, y);
    if tree::next_of(a) is Some && tree::next_of(b) is Some {
        let m = *tree::next_of(a)->0;
        let n = *tree::next_of(b)->0;
        if a is Fork {
            lemma_strip("J:"@, told(m) + x, told(n) + y);
        }
        lemma_apart(m, x, n, y);
    }
}

/// What follows a node: the text of a successor, or what ends the chain.
proof fn lemma_follows(n: Node, x: Seq<char>)
    requires
        closed_by(x),
    ensures
        match tree::next_of(n) {
            Some(m) => (follows(n) + x).len() > 0 && !closed_by(follows(n) + x) && (if n is Fork {
                follows(n) + x == "J:"@ + (told(*m) + x)
            } else {
                follows(n) + x == told(*m) + x
            }),
            None => follows(n) + x == x,
        },
{
    lemma_pieces();
    match tree::next_of(n) {
        Some(m) => {
            lemma_starts(*m);
            if n is Fork {
                assoc("J:"@, told(*m), x);
                assert(("J:"@ + (told(*m) + x))[0] == 'J');
            } else {
                assert((told(*m) + x)[0] == told(*m)[0]);
            }
        },
        None => {
            assert(follows(n) + x =~= x);
        },
    }
}

/// The text of a node after its id starts with a separator.
#[verifier::spinoff_prover]
#[verifier::rlimit(60)]
proof fn lemma_inner_cuts(n: Node, x: Seq<char>)
    ensures
        cuts(inner(n) + x),
{
    lemma_pieces();
    reveal(inner);
    assert(inner(n).len() > 0 && separator(inner(n)[0])) by {
        if let Node::Task { timeout, retry, version, .. } = n {
            let v = tree::version_part(version) + ";"@;
            assert(v.len() > 0 && separator(v[0]));
            let r = tree::retry_part(retry) + v;
            assert(r.len() > 0 && separator(r[0])) by {
                if retry is None {
                    assert(r =~= v);
                }
            }
            let t = tree::timeout_part(timeout) + r;
            if timeout is None {
                assert(t =~= r);
            }
        }
    }
    assert((inner(n) + x)[0] == inner(n)[0]);
}

/// What follows a timeout.
proof fn lemma_after_timeout(retry: Option<Retry>, version: Option<Seq<char>>, x: Seq<char>)
    ensures
        after_retry(tree::version_part(version) + (";"@ + x)),
        after_timeout(tree::retry_part(retry) + (tree::version_part(version) + (";"@ + x))),
{
    lemma_pieces();
    let v = tree::version_part(version) + (";"@ + x);
    if version is None {
        assert(v =~= ";"@ + x);
    }
    let r = tree::retry_part(retry) + v;
    if retry is None {
        assert(r =~= v);
    }
}

/// What a task says is told from what follows.
proof fn lemma_cut_task(
    t: Option<Duration>,
    r: Option<Retry>,
    v: Option<Seq<char>>,
    x: Seq<char>,
    tt: Option<Duration>,
    rr: Option<Retry>,
    vv: Option<Seq<char>>,
    y: Seq<char>,
)
    requires
        r matches Some(p) ==> plain(p.backoff_multiplier),
        rr matches Some(p) ==> plain(p.backoff_multiplier),
        v matches Some(p) ==> plain(p),
        vv matches Some(p) ==> plain(p),
        task_inner(t, r, v) + x == task_inner(tt, rr, vv) + y,
    ensures
        opt_millis(t) == opt_millis(tt),
        same_retry(r, rr),
        v == vv,
        x == y,
{
    lemma_pieces();
    let e = tree::version_part(v) + (";"@ + x);
    let f = tree::version_part(vv) + (";"@ + y);
    extend4(tree::timeout_part(t), tree::retry_part(r), tree::version_part(v), ";"@, x);
    extend4(tree::timeout_part(tt), tree::retry_part(rr), tree::version_part(vv), ";"@, y);
    lemma_after_timeout(r, v, x);
    lemma_after_timeout(rr, vv, y);
    lemma_cut_timeout(t, tree::retry_part(r) + e, tt, tree::retry_part(rr) + f);
    lemma_cut_retry(r, e, rr, f);
    lemma_cut_version(v, ";"@ + x, vv, ";"@ + y);
    lemma_strip(";"@, x, y);
}

/// What a loop says is told from its body and what follows.
proof fn lemma_cut_loop(
    m: nat,
    p: MaxIterationsPolicy,
    b: Seq<char>,
    x: Seq<char>,
    n: nat,
    q: MaxIterationsPolicy,
    c: Seq<char>,
    y: Seq<char>,
)
    requires
        loop_inner(m, tree::policy_text(p), b) + x == loop_inner(n, tree::policy_text(q), c) + y,
    ensures
        m == n,
        p == q,
        b + ("}"@ + (";"@ + x)) == c + ("}"@ + (";"@ + y)),
{
    lemma_pieces();
    let f = b + ("}"@ + (";"@ + x));
    let g = c + ("}"@ + (";"@ + y));
    let s = tree::policy_text(p);
    let t = tree::policy_text(q);
    extend8(":"@, text::decimal(m), ":"@, s, "{"@, b, "}"@, ";"@, x);
    extend8(":"@, text::decimal(n), ":"@, t, "{"@, c, "}"@, ";"@, y);
    lemma_strip(
        ":"@,
        text::decimal(m) + (":"@ + (s + ("{"@ + f))),
        text::decimal(n) + (":"@ + (t + ("{"@ + g))),
    );
    lemma_cut_number(m, ":"@ + (s + ("{"@ + f)), n, ":"@ + (t + ("{"@ + g)));
    lemma_strip(":"@, s + ("{"@ + f), t + ("{"@ + g));
    lemma_policies();
    lemma_cut(s, "{"@ + f, t, "{"@ + g);
    lemma_strip("{"@, f, g);
}

/// What a node says after its id, and what is below it, is told from what follows.
#[verifier::spinoff_prover]
#[verifier::rlimit(100)]
proof fn lemma_apart_inner(a: Node, x: Seq<char>, b: Node, y: Seq<char>)
    requires
        plain_tree(a),
        plain_tree(b),
        tag(a) == tag(b),
        tree::id_of(a) == tree::id_of(b),
        inner(a) + x == inner(b) + y,
    ensures
        same_head(a, b),
        x == y,
        match a {
            Node::Fork { branches, .. } => branches.len() == b->Fork_branches.len() && forall|
                i: int,
            |
                #![trigger branches[i]]
                0 <= i < branches.len() ==> same_definition(branches[i], b->Fork_branches[i]),
            Node::Branch { arms, default, .. } => arms.len() == b->arms.len() && (forall|i: int|
                #![trigger arms[i]]
                0 <= i < arms.len() ==> arms[i].0 == b->arms[i].0 && same_definition(
                    arms[i].1,
                    b->arms[i].1,
                )) && match (default, b->default) {
                (Some(c), Some(d)) => same_definition(*c, *d),
                (None, None) => true,
                _ => false,
            },
            Node::Loop { body, .. } => same_definition(*body, *b->body),
            Node::ChildWorkflow { child, .. } => same_definition(*child, *b->child),
            _ => true,
        },
    decreases a, 0nat, 0nat,
{
    lemma_pieces();
    reveal(inner);
    assert(tag(a)[0] == tag(b)[0]);
    match a {
        Node::Task { timeout, retry, version, .. } => {
            lemma_cut_task(
                timeout,
                retry,
                version,
                x,
                b->Task_timeout,
                b->retry,
                b->version,
                y,
            );
        },
        Node::Delay { duration, .. } => {
            let m = duration::millis64(duration) as nat;
            let n = duration::millis64(b->duration) as nat;
            extend3(":"@, text::decimal(m), ";"@, x);
            extend3(":"@, text::decimal(n), ";"@, y);
            lemma_strip(":"@, text::decimal(m) + (";"@ + x), text::decimal(n) + (";"@ + y));
            lemma_cut_number(m, ";"@ + x, n, ";"@ + y);
            lemma_strip(";"@, x, y);
        },
        Node::AwaitSignal { signal_name, timeout, .. } => {
            let t = tree::timeout_part(timeout);
            let u = tree::timeout_part(b->AwaitSignal_timeout);
            let p = t + (";"@ + x);
            let q = u + (";"@ + y);
            extend4(":"@, signal_name, t, ";"@, x);
            extend4(":"@, b->signal_name, u, ";"@, y);
            lemma_strip(":"@, signal_name + p, b->signal_name + q);
            if timeout is None {
                assert(p =~= ";"@ + x);
            }
            if b->AwaitSignal_timeout is None {
                assert(q =~= ";"@ + y);
            }
            lemma_cut(signal_name, p, b->signal_name, q);
            lemma_cut_timeout(timeout, ";"@ + x, b->AwaitSignal_timeout, ";"@ + y);
            lemma_strip(";"@, x, y);
        },
        Node::Fork { branches, .. } => {
            let other = b->Fork_branches;
            lemma_told_all(branches);
            lemma_told_all(other);
            extend3("["@, told_all(branches), "]"@, x);
            extend3("["@, told_all(other), "]"@, y);
            lemma_strip(
                "["@,
                all_from(branches, 0) + ("]"@ + x),
                all_from(other, 0) + ("]"@ + y),
            );
            assert(decreases_to!(a => a->Fork_branches));
            lemma_cut_all(branches, 0, x, other, 0, y);
            assert forall|i: int| #![trigger branches[i]] 0 <= i < branches.len() implies
                same_definition(branches[i], other[i]) by {
                assert(same_definition(branches[0 + i], other[0 + i]));
            }
        },
        Node::Branch { arms, default, .. } => {
            let other = b->arms;
            let p = default_part(default) + (";"@ + x);
            let q = default_part(b->default) + (";"@ + y);
            lemma_told_arms(arms);
            lemma_told_arms(other);
            extend5("{"@, told_arms(arms), "}"@, default_part(default), ";"@, x);
            extend5("{"@, told_arms(other), "}"@, default_part(b->default), ";"@, y);
            lemma_strip("{"@, arms_from(arms, 0) + ("}"@ + p), arms_from(other, 0) + ("}"@ + q));
            assert(decreases_to!(a => a->arms));
            lemma_cut_arms(arms, 0, p, other, 0, q);
            assert forall|i: int| #![trigger arms[i]] 0 <= i < arms.len() implies arms[i].0
                == other[i].0 && same_definition(arms[i].1, other[i].1) by {
                assert(same_definition(arms[0 + i].1, other[0 + i].1));
            }
            match (default, b->default) {
                (Some(m), Some(n)) => {
                    assoc("_=>"@, told(*m), ";"@ + x);
                    assoc("_=>"@, told(*n), ";"@ + y);
                    lemma_strip("_=>"@, told(*m) + (";"@ + x), told(*n) + (";"@ + y));
                    lemma_apart(*m, ";"@ + x, *n, ";"@ + y);
                    lemma_strip(";"@, x, y);
                },
                (Some(m), None) => {
                    assert(p[0] == '_');
                    assert(q[0] == ';');
                },
                (None, Some(n)) => {
                    assert(p[0] == ';');
                    assert(q[0] == '_');
                },
                (None, None) => {
                    assert(p =~= ";"@ + x);
                    assert(q =~= ";"@ + y);
                    lemma_strip(";"@, x, y);
                },
            }
        },
        Node::Loop { body, max_iterations, on_max, .. } => {
            lemma_cut_loop(
                max_iterations as nat,
                on_max,
                told(*body),
                x,
                b->max_iterations as nat,
                b->on_max,
                told(*b->body),
                y,
            );
            lemma_apart(*body, "}"@ + (";"@ + x), *b->body, "}"@ + (";"@ + y));
            lemma_strip("}"@, ";"@ + x, ";"@ + y);
            lemma_strip(";"@, x, y);
        },
        Node::ChildWorkflow { child, .. } => {
            extend4("{"@, told(*child), "}"@, ";"@, x);
            extend4("{"@, told(*b->child), "}"@, ";"@, y);
            lemma_strip(
                "{"@,
                told(*child) + ("}"@ + (";"@ + x)),
                told(*b->child) + ("}"@ + (";"@ + y)),
            );
            lemma_apart(*child, "}"@ + (";"@ + x), *b->child, "}"@ + (";"@ + y));
            lemma_strip("}"@, ";"@ + x, ";"@ + y);
            lemma_strip(";"@, x, y);
        },
    }
}

/// The names of the policies are plain and different.
proof fn lemma_policies()
    ensures
        forall|p: MaxIterationsPolicy| plain(#[trigger] tree::policy_text(p)),
        forall|p: MaxIterationsPolicy, q: MaxIterationsPolicy|
            tree::policy_text(p) == tree::policy_text(q) ==> p == q,
{
    reveal_strlit("fail");
    reveal_strlit("exit_with_last");
    assert("fail"@.len() == 4 && "exit_with_last"@.len() == 14);
    assert(plain("fail"@));
    assert(plain("exit_with_last"@));
}

/// The text that a definition hash is taken of tells definitions apart: trees whose texts are
/// plain and that have the same canonical text define the same workflow, node for node.
pub proof fn law_canonical_text_tells_definitions_apart(a: Node, b: Node)
    requires
        plain_tree(a),
        plain_tree(b),
        tree::canonical(a) == tree::canonical(b),
    ensures
        same_definition(a, b),
{
    assert(told(a) == tree::canonical(a) && told(b) == tree::canonical(b)) by {
        reveal(told);
    }
    assert(told(a) + Seq::<char>::empty() =~= told(a));
    assert(told(b) + Seq::<char>::empty() =~= told(b));
    lemma_apart(a, seq![], b, seq![]);
}

/// Trees that define the same workflow have the same ids, in the same order.
pub proof fn law_same_definition_same_ids(a: Node, b: Node)
    requires
        same_definition(a, b),
    ensures
        tree::ids(a) == tree::ids(b),
        tree::kind_of(a) == tree::kind_of(b),
    decreases a, 0nat,
{
    reveal_with_fuel(tree::ids, 2);
    if let Some(m) = tree::next_of(a) {
        law_same_definition_same_ids(*m, *tree::next_of(b)->0);
    }
    match a {
        Node::Fork { branches, .. } => {
            assert(decreases_to!(a => a->Fork_branches));
            lemma_same_ids_all(branches, b->Fork_branches, branches.len());
        },
        Node::Branch { arms, default, .. } => {
            assert(decreases_to!(a => a->arms));
            lemma_same_ids_arms(arms, b->arms, arms.len());
            if let Some(d) = default {
                law_same_definition_same_ids(*d, *b->default->0);
            }
        },
        Node::Loop { body, .. } => {
            law_same_definition_same_ids(*body, *b->body);
        },
        Node::ChildWorkflow { child, .. } => {
            law_same_definition_same_ids(*child, *b->child);
        },
        _ => {},
    }
}

proof fn lemma_same_ids_all(s: Seq<Node>, t: Seq<Node>, k: nat)
    requires
        k <= s.len() == t.len(),
        forall|i: int| #![trigger s[i]] 0 <= i < s.len() ==> same_definition(s[i], t[i]),
    ensures
        tree::ids_all(s, k) == tree::ids_all(t, k),
    decreases s, k,
{
    reveal_with_fuel(tree::ids_all, 2);
    if k > 0 {
        lemma_same_ids_all(s, t, (k - 1) as nat);
        assert(decreases_to!(s => s[k - 1]));
        law_same_definition_same_ids(s[k - 1], t[k - 1]);
    }
}

proof fn lemma_same_ids_arms(s: Seq<(Seq<char>, Node)>, t: Seq<(Seq<char>, Node)>, k: nat)
    requires
        k <= s.len() == t.len(),
        forall|i: int| #![trigger s[i]] 0 <= i < s.len() ==> same_definition(s[i].1, t[i].1),
    ensures
        tree::ids_arms(s, k) == tree::ids_arms(t, k),
    decreases s, k,
{
    reveal_with_fuel(tree::ids_arms, 2);
    if k > 0 {
        lemma_same_ids_arms(s, t, (k - 1) as nat);
        assert(decreases_to!(s => s[k - 1]));
        assert(decreases_to!(s[k - 1] => s[k - 1].1));
        law_same_definition_same_ids(s[k - 1].1, t[k - 1].1);
    }
}

/// Two stored workflows whose texts are plain have the same canonical text only if they
/// define the same workflow; their hashes are the digests of these texts, in hexadecimal
/// digits. So a changed definition changes what its hash is taken of.
pub proof fn law_hash_is_taken_of_the_whole_definition(
    a: &SerializableContinuation,
    b: &SerializableContinuation,
    x: String,
    y: String,
    h: String,
)
    requires
        call_ensures(SerializableContinuation::canonical_text, (a,), x),
        call_ensures(SerializableContinuation::canonical_text, (b,), y),
        call_ensures(SerializableContinuation::compute_definition_hash, (a,), h),
        plain_tree(a.node()),
        plain_tree(b.node()),
    ensures
        x@ == y@ ==> same_definition(a.node(), b.node()) && tree::ids(a.node()) == tree::ids(
            b.node(),
        ),
        h@ == hash32::hex_text(hash32::sha256_digest(vstd::utf8::encode_utf8(x@))),
{
    if x@ == y@ {
        law_canonical_text_tells_definitions_apart(a.node(), b.node());
        law_same_definition_same_ids(a.node(), b.node());
    }
}

} // verus!
