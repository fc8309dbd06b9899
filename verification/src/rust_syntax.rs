//! Tokens of Rust code, and where expressions, types and paths end among them.
//!
//! Where a piece of Rust code ends is for `syn` to say, whose lexer is that of the process
//! that it runs in. What it says from a token on is kept with the token.
use vstd::prelude::*;

verus! {

/// What stands around a group of tokens.
#[derive(Debug, Clone, Copy, PartialEq, Eq, Structural)]
pub enum Delim {
    /// `(` and `)`.
    Paren,
    /// `{` and `}`.
    Brace,
    /// `[` and `]`.
    Bracket,
}

/// What reading a piece of Rust code came to: the number of tokens after it, or the message
/// of the error.
pub open spec fn outcome(r: Result<usize, String>) -> Result<usize, Seq<char>> {
    match r {
        Ok(n) => Ok(n),
        Err(m) => Err(m@),
    }
}

/// What reading a piece of Rust code from one token on came to, for each kind of piece: the
/// number of tokens after it, or the message of the error.
pub struct Code {
    /// An expression.
    pub expr: Result<usize, String>,
    /// A type.
    pub ty: Result<usize, String>,
    /// A path.
    pub path: Result<usize, String>,
}

/// The contents of a [`Code`].
pub struct CodeSpec {
    pub expr: Result<usize, Seq<char>>,
    pub ty: Result<usize, Seq<char>>,
    pub path: Result<usize, Seq<char>>,
}

impl View for Code {
    type V = CodeSpec;

    open spec fn view(&self) -> CodeSpec {
        CodeSpec {
            expr: outcome(self.expr),
            ty: outcome(self.ty),
            path: outcome(self.path),
        }
    }
}

/// A token tree. `span` is the place where it starts, `code` the Rust code that starts with
/// it, once it has been read.
pub enum Token {
    /// A word that can be an identifier.
    Ident {
        /// The word.
        text: String,
        /// Place.
        span: usize,
        /// Rust code from here on.
        code: Option<Code>,
    },
    /// A word that cannot be an identifier, or `_`.
    Keyword {
        /// The word.
        text: String,
        /// Place.
        span: usize,
        /// Rust code from here on.
        code: Option<Code>,
    },
    /// A string literal.
    Str {
        /// The string.
        value: String,
        /// The literal as it was written.
        text: String,
        /// Place.
        span: usize,
        /// Rust code from here on.
        code: Option<Code>,
    },
    /// An integer literal.
    Int {
        /// The literal as it was written.
        text: String,
        /// Place.
        span: usize,
        /// Rust code from here on.
        code: Option<Code>,
    },
    /// Another literal.
    Literal {
        /// The literal as it was written.
        text: String,
        /// Place.
        span: usize,
        /// Rust code from here on.
        code: Option<Code>,
    },
    /// One punctuation character.
    Punct {
        /// The character.
        text: String,
        /// Whether the next token follows without a space, as in `=>`.
        joint: bool,
        /// Place.
        span: usize,
        /// Rust code from here on.
        code: Option<Code>,
    },
    /// Tokens between delimiters.
    Group {
        /// The delimiters.
        delim: Delim,
        /// The tokens between them.
        body: Vec<Token>,
        /// Place of the opening delimiter.
        span: usize,
        /// Place of the closing delimiter.
        close: usize,
        /// Rust code from here on.
        code: Option<Code>,
    },
}

/// The contents of a [`Token`].
pub enum Tok {
    Ident { text: Seq<char>, span: usize, code: Option<CodeSpec> },
    Keyword { text: Seq<char>, span: usize, code: Option<CodeSpec> },
    Str { value: Seq<char>, text: Seq<char>, span: usize, code: Option<CodeSpec> },
    Int { text: Seq<char>, span: usize, code: Option<CodeSpec> },
    Literal { text: Seq<char>, span: usize, code: Option<CodeSpec> },
    Punct { text: Seq<char>, joint: bool, span: usize, code: Option<CodeSpec> },
    Group {
        delim: Delim,
        body: Seq<Tok>,
        span: usize,
        close: usize,
        code: Option<CodeSpec>,
    },
}

/// The contents of what was read from a token on.
pub open spec fn opt_code(c: Option<Code>) -> Option<CodeSpec> {
    match c {
        Some(c) => Some(c@),
        None => None,
    }
}

impl Token {
    /// What the token says.
    pub open spec fn tok(self) -> Tok
        decreases self,
    {
        match self {
            Token::Ident { text, span, code } => Tok::Ident {
                text: text@,
                span,
                code: opt_code(code),
            },
            Token::Keyword { text, span, code } => Tok::Keyword {
                text: text@,
                span,
                code: opt_code(code),
            },
            Token::Str { value, text, span, code } => Tok::Str {
                value: value@,
                text: text@,
                span,
                code: opt_code(code),
            },
            Token::Int { text, span, code } => Tok::Int {
                text: text@,
                span,
                code: opt_code(code),
            },
            Token::Literal { text, span, code } => Tok::Literal {
                text: text@,
                span,
                code: opt_code(code),
            },
            Token::Punct { text, joint, span, code } => Tok::Punct {
                text: text@,
                joint,
                span,
                code: opt_code(code),
            },
            Token::Group { delim, body, span, close, code } => Tok::Group {
                delim,
                body: Seq::new(
                    body@.len(),
                    |i: int|
                        if 0 <= i < body@.len() {
                            body@[i].tok()
                        } else {
                            arbitrary()
                        },
                ),
                span,
                close,
                code: opt_code(code),
            },
        }
    }
}

/// The contents of a list of tokens.
pub open spec fn toks(v: Seq<Token>) -> Seq<Tok> {
    Seq::new(v.len(), |i: int| v[i].tok())
}

/// What a group says, in terms of its tokens.
pub proof fn lemma_group(t: Token)
    requires
        t is Group,
    ensures
        t.tok()->body == toks(t->body@),
{
    assert(t.tok()->body =~= toks(t->body@));
}

/// The Rust code that starts with a token.
pub open spec fn code_of(t: Tok) -> Option<CodeSpec> {
    match t {
        Tok::Ident { code, .. } => code,
        Tok::Keyword { code, .. } => code,
        Tok::Str { code, .. } => code,
        Tok::Int { code, .. } => code,
        Tok::Literal { code, .. } => code,
        Tok::Punct { code, .. } => code,
        Tok::Group { code, .. } => code,
    }
}

/// The place where a token starts.
pub open spec fn span_of(t: Tok) -> usize {
    match t {
        Tok::Ident { span, .. } => span,
        Tok::Keyword { span, .. } => span,
        Tok::Str { span, .. } => span,
        Tok::Int { span, .. } => span,
        Tok::Literal { span, .. } => span,
        Tok::Punct { span, .. } => span,
        Tok::Group { span, .. } => span,
    }
}

impl Token {
    /// The place where the token starts.
    pub fn span(&self) -> (r: usize)
        ensures
            r == span_of(self.tok()),
    {
        match self {
            Token::Ident { span, .. } => *span,
            Token::Keyword { span, .. } => *span,
            Token::Str { span, .. } => *span,
            Token::Int { span, .. } => *span,
            Token::Literal { span, .. } => *span,
            Token::Punct { span, .. } => *span,
            Token::Group { span, .. } => *span,
        }
    }

    /// The Rust code that starts with the token.
    fn code(&self) -> (r: &Option<Code>)
        ensures
            opt_code(*r) == code_of(self.tok()),
    {
        match self {
            Token::Ident { code, .. } => code,
            Token::Keyword { code, .. } => code,
            Token::Str { code, .. } => code,
            Token::Int { code, .. } => code,
            Token::Literal { code, .. } => code,
            Token::Punct { code, .. } => code,
            Token::Group { code, .. } => code,
        }
    }
}

/// The opening delimiter.
pub open spec fn opening(d: Delim) -> Seq<char> {
    match d {
        Delim::Paren => "("@,
        Delim::Brace => "{"@,
        Delim::Bracket => "["@,
    }
}

/// The closing delimiter.
pub open spec fn closing(d: Delim) -> Seq<char> {
    match d {
        Delim::Paren => ") "@,
        Delim::Brace => "} "@,
        Delim::Bracket => "] "@,
    }
}

/// A token as source code, with the space after it.
pub open spec fn source_of(t: Tok) -> Seq<char>
    decreases t, 0nat,
{
    match t {
        Tok::Ident { text, .. } => text + " "@,
        Tok::Keyword { text, .. } => text + " "@,
        Tok::Str { text, .. } => text + " "@,
        Tok::Int { text, .. } => text + " "@,
        Tok::Literal { text, .. } => text + " "@,
        Tok::Punct { text, joint, .. } => if joint {
            text
        } else {
            text + " "@
        },
        Tok::Group { delim, body, .. } => opening(delim) + source(body, body.len()) + closing(
            delim,
        ),
    }
}

/// The first `k` tokens as source code.
pub open spec fn source(t: Seq<Tok>, k: nat) -> Seq<char>
    decreases t, k,
{
    if k == 0 || k > t.len() {
        seq![]
    } else {
        source(t, (k - 1) as nat) + source_of(t[k - 1])
    }
}

/// The tokens from the `i`-th on.
pub open spec fn rest(t: Seq<Tok>, i: nat) -> Seq<Tok> {
    if i <= t.len() {
        t.skip(i as int)
    } else {
        seq![]
    }
}

/// Append a token as source code.
fn push_source(t: &Token, out: &mut String)
    ensures
        final(out)@ == old(out)@ + source_of(t.tok()),
    decreases *t, 0nat,
{
    let ghost start = out@;
    match t {
        Token::Ident { text, .. } => {
            push_word(text, out);
        },
        Token::Keyword { text, .. } => {
            push_word(text, out);
        },
        Token::Str { text, .. } => {
            push_word(text, out);
        },
        Token::Int { text, .. } => {
            push_word(text, out);
        },
        Token::Literal { text, .. } => {
            push_word(text, out);
        },
        Token::Punct { text, joint, .. } => {
            if *joint {
                out.append(text.as_str());
            } else {
                push_word(text, out);
            }
        },
        Token::Group { delim, body, .. } => {
            proof {
                lemma_group(*t);
                assert(decreases_to!(*t => t->body));
                assert(decreases_to!(t->body => t->body@));
            }
            match delim {
                Delim::Paren => out.append("("),
                Delim::Brace => out.append("{"),
                Delim::Bracket => out.append("["),
            }
            push_all(body, 0, out);
            match delim {
                Delim::Paren => out.append(") "),
                Delim::Brace => out.append("} "),
                Delim::Bracket => out.append("] "),
            }
            proof {
                let b = t.tok()->body;
                assert(rest(b, 0) =~= b);
                assert(out@ =~= start + (opening(*delim) + source(b, b.len()) + closing(*delim)));
            }
        },
    }
}

/// Append a word and a space.
fn push_word(word: &String, out: &mut String)
    ensures
        final(out)@ == old(out)@ + (word@ + " "@),
{
    out.append(word.as_str());
    out.append(" ");
    proof {
        assert(out@ =~= old(out)@ + (word@ + " "@));
    }
}

/// Append the tokens from the `i`-th on as source code.
fn push_all(t: &Vec<Token>, i: usize, out: &mut String)
    requires
        i <= t@.len(),
    ensures
        final(out)@ == old(out)@ + source(rest(toks(t@), i as nat), (t@.len() - i) as nat),
    decreases t@, 1nat,
{
    let ghost start = out@;
    let ghost all = rest(toks(t@), i as nat);
    let mut k: usize = i;
    proof {
        assert(start + source(all, 0) =~= start);
    }
    while k < t.len()
        invariant
            i <= k <= t@.len(),
            all == rest(toks(t@), i as nat),
            out@ == start + source(all, (k - i) as nat),
        decreases t@.len() - k,
    {
        proof {
            assert(decreases_to!(t@ => t@[k as int]));
            assert(all[k - i] == t@[k as int].tok());
        }
        push_source(&t[k], out);
        proof {
            reveal_with_fuel(source, 2);
            assert(out@ =~= start + source(all, (k + 1 - i) as nat));
        }
        k = k + 1;
    }
}

/// The tokens from the `i`-th on as source code.
pub fn source_from(t: &Vec<Token>, i: usize) -> (r: String)
    requires
        i <= t@.len(),
    ensures
        r@ == source(rest(toks(t@), i as nat), (t@.len() - i) as nat),
{
    let mut out = String::new();
    push_all(t, i, &mut out);
    proof {
        assert(seq![] + source(rest(toks(t@), i as nat), (t@.len() - i) as nat) =~= source(
            rest(toks(t@), i as nat),
            (t@.len() - i) as nat,
        ));
    }
    out
}

/// `syn::parse::Parser::parse_str`, with a parser that reads a `syn::Expr` and the tokens
/// after it: the number of token trees after the expression, or the message of the error.
///
/// Source code is cut into tokens by the compiler inside a macro and by `proc_macro2`
/// elsewhere, so nothing is said of what comes back, except on the empty source code, which
/// has no tokens anywhere.
#[verifier::external_body]
fn read_expr(source: &str) -> (r: Result<usize, String>)
    ensures
        source@.len() == 0 ==> r is Err && r->Err_0@
            == "unexpected end of input, expected an expression"@,
{
    let parser = |input: syn::parse::ParseStream| {
        let _: syn::Expr = input.parse()?;
        input.parse::<proc_macro2::TokenStream>()
    };
    match syn::parse::Parser::parse_str(parser, source) {
        Ok(rest) => Ok(rest.into_iter().count()),
        Err(e) => Err(e.to_string()),
    }
}

/// `syn::parse::Parser::parse_str`, with a parser that reads a `syn::Type` and the tokens
/// after it: the number of token trees after the type, or the message of the error.
///
/// Nothing is said of what comes back, except on the empty source code: how other source
/// code is cut into tokens depends on the process.
#[verifier::external_body]
fn read_type(source: &str) -> (r: Result<usize, String>)
    ensures
        source@.len() == 0 ==> r is Err && r->Err_0@
            == "unexpected end of input, expected one of: `for`, parentheses, `fn`, `unsafe`, `extern`, identifier, `::`, `<`, `dyn`, square brackets, `*`, `&`, `!`, `impl`, `_`, lifetime"@,
{
    let parser = |input: syn::parse::ParseStream| {
        let _: syn::Type = input.parse()?;
        input.parse::<proc_macro2::TokenStream>()
    };
    match syn::parse::Parser::parse_str(parser, source) {
        Ok(rest) => Ok(rest.into_iter().count()),
        Err(e) => Err(e.to_string()),
    }
}

/// `syn::parse::Parser::parse_str`, with a parser that reads a `syn::Path` and the tokens
/// after it: the number of token trees after the path, or the message of the error.
///
/// Nothing is said of what comes back, except on the empty source code: how other source
/// code is cut into tokens depends on the process.
#[verifier::external_body]
fn read_path(source: &str) -> (r: Result<usize, String>)
    ensures
        source@.len() == 0 ==> r is Err && r->Err_0@
            == "unexpected end of input, expected identifier"@,
{
    let parser = |input: syn::parse::ParseStream| {
        let _: syn::Path = input.parse()?;
        input.parse::<proc_macro2::TokenStream>()
    };
    match syn::parse::Parser::parse_str(parser, source) {
        Ok(rest) => Ok(rest.into_iter().count()),
        Err(e) => Err(e.to_string()),
    }
}

/// A piece of Rust code that is taken as it is.
#[derive(Debug, Clone, Copy, PartialEq, Eq, Structural)]
pub enum Syntax {
    /// An expression.
    Expr,
    /// A type.
    Type,
    /// A path.
    Path,
}

/// What is said where a piece of Rust code should start and no token is left.
pub open spec fn wanted(kind: Syntax) -> Seq<char> {
    match kind {
        Syntax::Expr => "unexpected end of input, expected an expression"@,
        Syntax::Type => {
            "unexpected end of input, expected one of: `for`, parentheses, `fn`, `unsafe`, `extern`, identifier, `::`, `<`, `dyn`, square brackets, `*`, `&`, `!`, `impl`, `_`, lifetime"@
        },
        Syntax::Path => "unexpected end of input, expected identifier"@,
    }
}

/// This came back when a piece of Rust code was read from the front of this source code.
pub closed spec fn came_back(kind: Syntax, source: Seq<char>, o: Result<usize, Seq<char>>) -> bool {
    match kind {
        Syntax::Expr => exists|s: &str, r: Result<usize, String>|
            s@ == source && outcome(r) == o && #[trigger] call_ensures(read_expr, (s,), r),
        Syntax::Type => exists|s: &str, r: Result<usize, String>|
            s@ == source && outcome(r) == o && #[trigger] call_ensures(read_type, (s,), r),
        Syntax::Path => exists|s: &str, r: Result<usize, String>|
            s@ == source && outcome(r) == o && #[trigger] call_ensures(read_path, (s,), r),
    }
}

/// Read a piece of Rust code from the front of source code.
pub fn read(kind: Syntax, source: &str) -> (r: Result<usize, String>)
    ensures
        came_back(kind, source@, outcome(r)),
        source@.len() == 0 ==> outcome(r) == Err::<usize, Seq<char>>(wanted(kind)),
{
    proof {
        if source@.len() == 0 {
            assert(source@ =~= seq![]);
        }
    }
    match kind {
        Syntax::Expr => {
            let r = read_expr(source);
            assert(call_ensures(read_expr, (source,), r));
            r
        },
        Syntax::Type => {
            let r = read_type(source);
            assert(call_ensures(read_type, (source,), r));
            r
        },
        Syntax::Path => {
            let r = read_path(source);
            assert(call_ensures(read_path, (source,), r));
            r
        },
    }
}

/// This was read from the front of this source code, for each kind of piece.
pub open spec fn code_read(code: Option<CodeSpec>, source: Seq<char>) -> bool {
    code matches Some(c) && came_back(Syntax::Expr, source, c.expr) && came_back(
        Syntax::Type,
        source,
        c.ty,
    ) && came_back(Syntax::Path, source, c.path)
}

/// Read each kind of piece of Rust code from the front of source code.
fn read_code(source: &str) -> (r: Code)
    ensures
        code_read(Some(r@), source@),
{
    Code {
        expr: read(Syntax::Expr, source),
        ty: read(Syntax::Type, source),
        path: read(Syntax::Path, source),
    }
}

/// A token became the other one when Rust code was read from this source code, which starts
/// with the token: they differ in what was read, nowhere else.
pub open spec fn token_read(a: Tok, b: Tok, text: Seq<char>) -> bool
    decreases a,
{
    code_read(code_of(b), text) && match a {
        Tok::Ident { text: w, span, .. } => b is Ident && b->Ident_text == w && span_of(b) == span,
        Tok::Keyword { text: w, span, .. } => b is Keyword && b->Keyword_text == w && span_of(b)
            == span,
        Tok::Str { value, text: w, span, .. } => b is Str && b->value == value && b->Str_text == w
            && span_of(b) == span,
        Tok::Int { text: w, span, .. } => b is Int && b->Int_text == w && span_of(b) == span,
        Tok::Literal { text: w, span, .. } => b is Literal && b->Literal_text == w && span_of(b)
            == span,
        Tok::Punct { text: w, joint, span, .. } => b is Punct && b->Punct_text == w && b->joint
            == joint && span_of(b) == span,
        Tok::Group { delim, body, span, close, .. } => b is Group && b->delim == delim && span_of(b)
            == span && b->close == close && body.len() == b->body.len() && forall|i: int|
            #![trigger body[i]]
            0 <= i < body.len() ==> token_read(
                body[i],
                b->body[i],
                source(rest(body, i as nat), (body.len() - i) as nat),
            ),
    }
}

/// Tokens became the others when Rust code was read from each of them on: they differ in
/// what was read, nowhere else.
pub open spec fn tokens_read(a: Seq<Tok>, b: Seq<Tok>) -> bool {
    a.len() == b.len() && forall|i: int|
        #![trigger a[i]]
        0 <= i < a.len() ==> token_read(
            a[i],
            b[i],
            source(rest(a, i as nat), (a.len() - i) as nat),
        )
}

/// A token with what was read from it on.
fn with_code(t: &Token, code: Code) -> (r: Token)
    ensures
        forall|s: Seq<char>|
            code_read(Some(code@), s) ==> #[trigger] token_read(t.tok(), r.tok(), s),
    decreases *t, 0nat,
{
    match t {
        Token::Ident { text, span, .. } => Token::Ident {
            text: text.clone(),
            span: *span,
            code: Some(code),
        },
        Token::Keyword { text, span, .. } => Token::Keyword {
            text: text.clone(),
            span: *span,
            code: Some(code),
        },
        Token::Str { value, text, span, .. } => Token::Str {
            value: value.clone(),
            text: text.clone(),
            span: *span,
            code: Some(code),
        },
        Token::Int { text, span, .. } => Token::Int {
            text: text.clone(),
            span: *span,
            code: Some(code),
        },
        Token::Literal { text, span, .. } => Token::Literal {
            text: text.clone(),
            span: *span,
            code: Some(code),
        },
        Token::Punct { text, joint, span, .. } => Token::Punct {
            text: text.clone(),
            joint: *joint,
            span: *span,
            code: Some(code),
        },
        Token::Group { delim, body, span, close, .. } => {
            proof {
                lemma_group(*t);
                assert(decreases_to!(*t => t->body));
                assert(decreases_to!(t->body => t->body@));
            }
            let r = Token::Group {
                delim: *delim,
                body: read_tokens(body),
                span: *span,
                close: *close,
                code: Some(code),
            };
            proof {
                lemma_group(r);
                reveal_with_fuel(token_read, 2);
            }
            r
        },
    }
}

/// Read Rust code from each token on, between delimiters too.
pub fn read_tokens(t: &Vec<Token>) -> (r: Vec<Token>)
    ensures
        tokens_read(toks(t@), toks(r@)),
    decreases t@, 1nat,
{
    let ghost a = toks(t@);
    let mut out: Vec<Token> = Vec::new();
    let mut i: usize = 0;
    while i < t.len()
        invariant
            i <= t@.len(),
            out@.len() == i,
            a == toks(t@),
            forall|j: int|
                #![trigger a[j]]
                0 <= j < i ==> token_read(
                    a[j],
                    toks(out@)[j],
                    source(rest(a, j as nat), (a.len() - j) as nat),
                ),
        decreases t@.len() - i,
    {
        let code_text = source_from(t, i);
        let code = read_code(code_text.as_str());
        proof {
            assert(decreases_to!(t@ => t@[i as int]));
        }
        let next = with_code(&t[i], code);
        let ghost before = out@;
        out.push(next);
        proof {
            assert(toks(out@)[i as int] == next.tok());
            assert forall|j: int| #![trigger a[j]] 0 <= j < i + 1 implies token_read(
                a[j],
                toks(out@)[j],
                source(rest(a, j as nat), (a.len() - j) as nat),
            ) by {
                if j < i {
                    assert(toks(out@)[j] == toks(before)[j]);
                }
            }
        }
        i = i + 1;
    }
    proof {
        assert(toks(out@).len() == a.len());
    }
    out
}

/// Why no piece of Rust code stands at a place.
pub enum SyntaxError {
    /// The message of the parser.
    Rust(String),
    /// What was read does not fit the tokens, or nothing was read.
    Unreadable,
}

/// The contents of a [`SyntaxError`].
pub enum SyntaxFault {
    Rust(Seq<char>),
    Unreadable,
}

impl View for SyntaxError {
    type V = SyntaxFault;

    open spec fn view(&self) -> SyntaxFault {
        match *self {
            SyntaxError::Rust(m) => SyntaxFault::Rust(m@),
            SyntaxError::Unreadable => SyntaxFault::Unreadable,
        }
    }
}

/// The number of tokens that a piece takes up at the front of `n` tokens, when `left` of
/// them come after it.
pub open spec fn taken(left: Result<usize, Seq<char>>, n: nat) -> Result<nat, SyntaxFault> {
    match left {
        Ok(r) => if r <= n {
            Ok((n - r) as nat)
        } else {
            Err(SyntaxFault::Unreadable)
        },
        Err(m) => Err(SyntaxFault::Rust(m)),
    }
}

/// The number of tokens that a piece takes up at the front of `n` tokens, when `left` of
/// them come after it.
fn take(left: &Result<usize, String>, n: usize) -> (r: Result<usize, SyntaxError>)
    ensures
        match taken(outcome(*left), n as nat) {
            Ok(k) => r is Ok && r->Ok_0 == k,
            Err(f) => r is Err && r->Err_0@ == f,
        },
{
    match left {
        Ok(r) => if *r <= n {
            Ok(n - *r)
        } else {
            Err(SyntaxError::Unreadable)
        },
        Err(m) => Err(SyntaxError::Rust(m.clone())),
    }
}

/// What was read of a kind of piece.
pub open spec fn reading(kind: Syntax, c: CodeSpec) -> Result<usize, Seq<char>> {
    match kind {
        Syntax::Expr => c.expr,
        Syntax::Type => c.ty,
        Syntax::Path => c.path,
    }
}

/// The number of tokens of the piece of Rust code that starts at the `i`-th one.
pub open spec fn piece(kind: Syntax, t: Seq<Tok>, i: nat) -> Result<nat, SyntaxFault> {
    if i < t.len() {
        match code_of(t[i as int]) {
            Some(c) => taken(reading(kind, c), (t.len() - i) as nat),
            None => Err(SyntaxFault::Unreadable),
        }
    } else {
        Err(SyntaxFault::Rust(wanted(kind)))
    }
}

/// Find the end of the piece of Rust code that starts at the `i`-th token.
pub fn find_piece(kind: Syntax, t: &Vec<Token>, i: usize) -> (r: Result<usize, SyntaxError>)
    requires
        i <= t@.len(),
    ensures
        match piece(kind, toks(t@), i as nat) {
            Ok(k) => r is Ok && r->Ok_0 == k && i + k <= t@.len(),
            Err(f) => r is Err && r->Err_0@ == f,
        },
{
    if i < t.len() {
        match t[i].code() {
            Some(c) => match kind {
                Syntax::Expr => take(&c.expr, t.len() - i),
                Syntax::Type => take(&c.ty, t.len() - i),
                Syntax::Path => take(&c.path, t.len() - i),
            },
            None => Err(SyntaxError::Unreadable),
        }
    } else {
        proof {
            reveal_strlit("");
        }
        take(&read(kind, ""), 0)
    }
}

} // verus!
