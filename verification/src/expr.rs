//! The event query language: fields, literals, the tokenizer and the
//! recursive-descent parser for `or` / `and` / `not` expressions.
use vstd::prelude::*;
use crate::model::{EventKind, SwatError, SwatResult};
use crate::text::{
    is_ws, is_whitespace, fold_digits, is_digit, IntParseError, owned, push_char, push_str,
    str_eq, parse_digits,
};

verus! {

/// A field of an event that an expression can test.
#[derive(Clone, Copy, Debug, PartialEq, Eq, Structural)]
pub enum QueryField {
    Kind,
    Summary,
    EventId,
    SequenceNo,
    CorrelationId,
    BoundaryId,
    SpanId,
    ValueKey,
    SourceFile,
    SourceFunction,
}

/// A value that a query reads from an event or compares against.
#[derive(Clone, Debug, PartialEq, Eq)]
pub enum QueriedValue {
    String(String),
    Number(String),
    Bool(bool),
    Json(String),
    Null,
}

/// A queried value as a mathematical value.
pub enum ValueModel {
    Str(Seq<char>),
    Number(Seq<char>),
    Bool(bool),
    Json(Seq<char>),
    Null,
}

impl View for QueriedValue {
    type V = ValueModel;

    open spec fn view(&self) -> ValueModel {
        match self {
            QueriedValue::String(s) => ValueModel::Str(s@),
            QueriedValue::Number(s) => ValueModel::Number(s@),
            QueriedValue::Bool(b) => ValueModel::Bool(*b),
            QueriedValue::Json(s) => ValueModel::Json(s@),
            QueriedValue::Null => ValueModel::Null,
        }
    }
}

/// The right-hand side of a field comparison.
#[derive(Clone, Debug, PartialEq, Eq)]
pub enum QueryValue {
    Kind(EventKind),
    Value(QueriedValue),
}

pub enum QueryValueModel {
    Kind(EventKind),
    Value(ValueModel),
}

impl View for QueryValue {
    type V = QueryValueModel;

    open spec fn view(&self) -> QueryValueModel {
        match self {
            QueryValue::Kind(k) => QueryValueModel::Kind(*k),
            QueryValue::Value(v) => QueryValueModel::Value(v@),
        }
    }
}

/// A parsed query expression.
#[derive(Debug, PartialEq, Eq)]
pub enum QueryExpr {
    FieldEquals { field: QueryField, expected: QueryValue },
    FieldContains { field: QueryField, needle: String },
    FieldExists(QueryField),
    ArtifactTextContains(String),
    ArtifactJsonPathExists(String),
    ArtifactJsonPathEquals { path: String, expected: QueriedValue },
    And(Vec<QueryExpr>),
    Or(Vec<QueryExpr>),
    Not(Box<QueryExpr>),
}

/// A query expression as a mathematical value.
pub enum ExprModel {
    FieldEquals { field: QueryField, expected: QueryValueModel },
    FieldContains { field: QueryField, needle: Seq<char> },
    FieldExists(QueryField),
    ArtifactTextContains(Seq<char>),
    ArtifactJsonPathExists(Seq<char>),
    ArtifactJsonPathEquals { path: Seq<char>, expected: ValueModel },
    And(Seq<ExprModel>),
    Or(Seq<ExprModel>),
    Not(Box<ExprModel>),
}

pub open spec fn expr_view(e: QueryExpr) -> ExprModel
    decreases e,
{
    match e {
        QueryExpr::FieldEquals { field, expected } => ExprModel::FieldEquals {
            field,
            expected: expected@,
        },
        QueryExpr::FieldContains { field, needle } => ExprModel::FieldContains {
            field,
            needle: needle@,
        },
        QueryExpr::FieldExists(f) => ExprModel::FieldExists(f),
        QueryExpr::ArtifactTextContains(s) => ExprModel::ArtifactTextContains(s@),
        QueryExpr::ArtifactJsonPathExists(s) => ExprModel::ArtifactJsonPathExists(s@),
        QueryExpr::ArtifactJsonPathEquals { path, expected } => ExprModel::ArtifactJsonPathEquals {
            path: path@,
            expected: expected@,
        },
        QueryExpr::And(v) => ExprModel::And(exprs_view(v@)),
        QueryExpr::Or(v) => ExprModel::Or(exprs_view(v@)),
        QueryExpr::Not(b) => ExprModel::Not(Box::new(expr_view(*b))),
    }
}

pub open spec fn exprs_view(s: Seq<QueryExpr>) -> Seq<ExprModel>
    decreases s,
{
    if s.len() == 0 {
        seq![]
    } else {
        seq![expr_view(s[0])] + exprs_view(s.drop_first())
    }
}

impl View for QueryExpr {
    type V = ExprModel;

    open spec fn view(&self) -> ExprModel {
        expr_view(*self)
    }
}

// ----- tokens -----

/// A token of the query language.
#[derive(Clone, Debug, PartialEq, Eq)]
enum Token {
    Ident(String),
    String(String),
    JsonPath(String),
    EqEq,
    Contains,
    Exists,
    And,
    Or,
    Not,
    LParen,
    RParen,
}

/// A token as a mathematical value.
pub enum Tok {
    Ident(Seq<char>),
    Str(Seq<char>),
    JsonPath(Seq<char>),
    EqEq,
    Contains,
    Exists,
    And,
    Or,
    Not,
    LParen,
    RParen,
}

impl View for Token {
    type V = Tok;

    closed spec fn view(&self) -> Tok {
        match self {
            Token::Ident(s) => Tok::Ident(s@),
            Token::String(s) => Tok::Str(s@),
            Token::JsonPath(s) => Tok::JsonPath(s@),
            Token::EqEq => Tok::EqEq,
            Token::Contains => Tok::Contains,
            Token::Exists => Tok::Exists,
            Token::And => Tok::And,
            Token::Or => Tok::Or,
            Token::Not => Tok::Not,
            Token::LParen => Tok::LParen,
            Token::RParen => Tok::RParen,
        }
    }
}

/// The token that a bare word stands for: a keyword or an identifier.
pub open spec fn word_token(w: Seq<char>) -> Tok {
    if w == "contains"@ {
        Tok::Contains
    } else if w == "exists"@ {
        Tok::Exists
    } else if w == "and"@ {
        Tok::And
    } else if w == "or"@ {
        Tok::Or
    } else if w == "not"@ {
        Tok::Not
    } else {
        Tok::Ident(w)
    }
}

/// Whether `==` starts at `i`.
pub open spec fn eqeq_at(s: Seq<char>, i: int) -> bool {
    0 <= i && i + 1 < s.len() && s[i] == '=' && s[i + 1] == '='
}

/// Where a bare word (`paren`) or a JSON path (`!paren`) that continues at
/// `j` ends: at whitespace, `)`, `==`, the end, and for a word also `(`.
pub open spec fn scan_end(s: Seq<char>, j: int, paren: bool) -> int
    decreases s.len() - j,
{
    if j >= s.len() || j < 0 {
        j
    } else if is_ws(s[j]) || s[j] == ')' || (paren && s[j] == '(') || eqeq_at(s, j) {
        j
    } else {
        scan_end(s, j + 1, paren)
    }
}

/// Where the string literal whose text starts at `j` closes, or the end.
pub open spec fn quote_end(s: Seq<char>, j: int) -> int
    decreases s.len() - j,
{
    if j >= s.len() || j < 0 {
        j
    } else if s[j] == '"' {
        j
    } else {
        quote_end(s, j + 1)
    }
}

proof fn lemma_scan_end(s: Seq<char>, j: int, paren: bool)
    requires
        0 <= j <= s.len(),
    ensures
        j <= scan_end(s, j, paren) <= s.len(),
    decreases s.len() - j,
{
    if j < s.len() && !(is_ws(s[j]) || s[j] == ')' || (paren && s[j] == '(') || eqeq_at(s, j)) {
        lemma_scan_end(s, j + 1, paren);
    }
}

proof fn lemma_quote_end(s: Seq<char>, j: int)
    requires
        0 <= j <= s.len(),
    ensures
        j <= quote_end(s, j) <= s.len(),
        quote_end(s, j) < s.len() ==> s[quote_end(s, j)] == '"',
    decreases s.len() - j,
{
    if j < s.len() && s[j] != '"' {
        lemma_quote_end(s, j + 1);
    }
}

/// The tokens of `s` from position `i`, or the tokenizer's error.
pub open spec fn tokens_from(s: Seq<char>, i: int) -> Result<Seq<Tok>, Seq<char>>
    decreases s.len() - i,
{
    if i >= s.len() || i < 0 {
        Ok(seq![])
    } else {
        let c = s[i];
        if is_ws(c) {
            tokens_from(s, i + 1)
        } else if c == '(' {
            prepend_tok(Tok::LParen, tokens_from(s, i + 1))
        } else if c == ')' {
            prepend_tok(Tok::RParen, tokens_from(s, i + 1))
        } else if eqeq_at(s, i) {
            prepend_tok(Tok::EqEq, tokens_from(s, i + 2))
        } else if c == '"' {
            let end = quote_end(s, i + 1);
            if end >= s.len() || end < i + 1 {
                Err("unterminated string literal"@)
            } else {
                prepend_tok(Tok::Str(s.subrange(i + 1, end)), tokens_from(s, end + 1))
            }
        } else if c == '$' {
            let end = scan_end(s, i + 1, false);
            if end <= i || end > s.len() {
                Ok(seq![])
            } else {
                prepend_tok(Tok::JsonPath(s.subrange(i, end)), tokens_from(s, end))
            }
        } else {
            let end = scan_end(s, i, true);
            if end <= i || end > s.len() {
                Ok(seq![])
            } else {
                prepend_tok(word_token(s.subrange(i, end)), tokens_from(s, end))
            }
        }
    }
}

pub open spec fn prepend_tok(t: Tok, rest: Result<Seq<Tok>, Seq<char>>) -> Result<Seq<Tok>, Seq<char>> {
    match rest {
        Ok(ts) => Ok(seq![t] + ts),
        Err(m) => Err(m),
    }
}

/// The tokens of `s`, or the tokenizer's error.
pub open spec fn tokenize_spec(s: Seq<char>) -> Result<Seq<Tok>, Seq<char>> {
    tokens_from(s, 0)
}

/// The characters `chars[from..to]` as a string.
fn collect_chars(chars: &Vec<char>, from: usize, to: usize) -> (r: String)
    requires
        from <= to <= chars@.len(),
    ensures
        r@ == chars@.subrange(from as int, to as int),
{
    let mut out = String::new();
    let mut k = from;
    while k < to
        invariant
            from <= k <= to <= chars@.len(),
            out@ == chars@.subrange(from as int, k as int),
        decreases to - k,
    {
        push_char(&mut out, chars[k]);
        assert(chars@.subrange(from as int, k + 1) =~= chars@.subrange(from as int, k as int).push(
            chars@[k as int],
        ));
        k += 1;
    }
    out
}

fn is_eqeq_at(chars: &Vec<char>, i: usize) -> (r: bool)
    ensures
        r == eqeq_at(chars@, i as int),
{
    i < chars.len() && chars[i] == '=' && i + 1 < chars.len() && chars[i + 1] == '='
}

fn word_or_keyword(w: String) -> (r: Token)
    ensures
        r@ == word_token(w@),
{
    if str_eq(w.as_str(), "contains") {
        Token::Contains
    } else if str_eq(w.as_str(), "exists") {
        Token::Exists
    } else if str_eq(w.as_str(), "and") {
        Token::And
    } else if str_eq(w.as_str(), "or") {
        Token::Or
    } else if str_eq(w.as_str(), "not") {
        Token::Not
    } else {
        Token::Ident(w)
    }
}

spec fn toks_view(v: Seq<Token>) -> Seq<Tok> {
    v.map_values(|t: Token| t@)
}

/// Splits `input` into tokens.
fn tokenize(input: &str) -> (r: SwatResult<Vec<Token>>)
    ensures
        match tokenize_spec(input@) {
            Ok(ts) => r matches Ok(v) && toks_view(v@) == ts,
            Err(m) => r matches Err(e) && e@ == m,
        },
{
    let n = input.unicode_len();
    let mut chars: Vec<char> = Vec::new();
    let mut k: usize = 0;
    while k < n
        invariant
            k <= n,
            n == input@.len(),
            chars@ == input@.subrange(0, k as int),
        decreases n - k,
    {
        chars.push(input.get_char(k));
        assert(input@.subrange(0, k + 1) =~= input@.subrange(0, k as int).push(input@[k as int]));
        k += 1;
    }
    assert(chars@ =~= input@);
    let ghost s = input@;
    let ghost target = tokens_from(s, 0);
    let ghost mut done: Seq<Tok> = seq![];
    let mut tokens: Vec<Token> = Vec::new();
    let mut index: usize = 0;
    assert(toks_view(tokens@) =~= seq![]);
    proof {
        if target is Ok {
            assert(seq![] + target->Ok_0 =~= target->Ok_0);
        }
    }
    while index < n
        invariant
            index <= n,
            n == s.len(),
            s == input@,
            chars@ == s,
            target == tokens_from(s, 0),
            toks_view(tokens@) == done,
            match target {
                Ok(all) => tokens_from(s, index as int) is Ok && all == done + tokens_from(
                    s,
                    index as int,
                )->Ok_0,
                Err(m) => tokens_from(s, index as int) == Err::<Seq<Tok>, Seq<char>>(m),
            },
        decreases n - index,
    {
        let ch = chars[index];
        let ghost i = index as int;
        if is_whitespace(ch) {
            index += 1;
        } else {
            let tok: Token;
            let next: usize;
            if ch == '(' {
                tok = Token::LParen;
                next = index + 1;
            } else if ch == ')' {
                tok = Token::RParen;
                next = index + 1;
            } else if is_eqeq_at(&chars, index) {
                tok = Token::EqEq;
                next = index + 2;
            } else if ch == '"' {
                let start = index + 1;
                let mut j = start;
                proof {
                    lemma_quote_end(s, start as int);
                }
                while j < n && chars[j] != '"'
                    invariant
                        start <= j <= n,
                        n == s.len(),
                        chars@ == s,
                        quote_end(s, start as int) == quote_end(s, j as int),
                    decreases n - j,
                {
                    j += 1;
                }
                if j >= n {
                    assert(tokens_from(s, i) == Err::<Seq<Tok>, Seq<char>>(
                        "unterminated string literal"@,
                    ));
                    return Err(SwatError::new(owned("unterminated string literal")));
                }
                tok = Token::String(collect_chars(&chars, start, j));
                next = j + 1;
            } else if ch == '$' {
                let mut j = index + 1;
                proof {
                    lemma_scan_end(s, j as int, false);
                }
                while j < n && !is_whitespace(chars[j]) && chars[j] != ')' && !is_eqeq_at(&chars, j)
                    invariant
                        index + 1 <= j <= n,
                        n == s.len(),
                        chars@ == s,
                        scan_end(s, index + 1, false) == scan_end(s, j as int, false),
                    decreases n - j,
                {
                    j += 1;
                }
                tok = Token::JsonPath(collect_chars(&chars, index, j));
                next = j;
            } else {
                let mut j = index;
                proof {
                    lemma_scan_end(s, j + 1, true);
                }
                while j < n && !is_whitespace(chars[j]) && chars[j] != '(' && chars[j] != ')'
                    && !is_eqeq_at(&chars, j)
                    invariant
                        index <= j <= n,
                        n == s.len(),
                        chars@ == s,
                        scan_end(s, index as int, true) == scan_end(s, j as int, true),
                    decreases n - j,
                {
                    j += 1;
                }
                tok = word_or_keyword(collect_chars(&chars, index, j));
                next = j;
            }
            proof {
                let rest = tokens_from(s, next as int);
                assert(tokens_from(s, i) == prepend_tok(tok@, rest));
                if rest is Ok {
                    assert(done + (seq![tok@] + rest->Ok_0) =~= done.push(tok@) + rest->Ok_0);
                }
                assert(toks_view(tokens@.push(tok)) =~= done.push(tok@));
                done = done.push(tok@);
            }
            tokens.push(tok);
            index = next;
        }
    }
    proof {
        assert(done + seq![] =~= done);
    }
    Ok(tokens)
}

// ----- names, literals and messages -----

/// The field that `name` names.
pub open spec fn query_field_of(name: Seq<char>) -> Option<QueryField> {
    if name == "kind"@ {
        Some(QueryField::Kind)
    } else if name == "summary"@ {
        Some(QueryField::Summary)
    } else if name == "event.id"@ {
        Some(QueryField::EventId)
    } else if name == "sequence"@ || name == "sequence_no"@ {
        Some(QueryField::SequenceNo)
    } else if name == "correlation"@ || name == "correlation.id"@ {
        Some(QueryField::CorrelationId)
    } else if name == "boundary"@ || name == "boundary.id"@ {
        Some(QueryField::BoundaryId)
    } else if name == "span"@ || name == "span.id"@ {
        Some(QueryField::SpanId)
    } else if name == "value.key"@ {
        Some(QueryField::ValueKey)
    } else if name == "source.file"@ {
        Some(QueryField::SourceFile)
    } else if name == "source.function"@ {
        Some(QueryField::SourceFunction)
    } else {
        None
    }
}

/// Fields that hold text and so take `contains`.
pub open spec fn supports_contains(f: QueryField) -> bool {
    match f {
        QueryField::Summary | QueryField::CorrelationId | QueryField::SpanId | QueryField::ValueKey
        | QueryField::SourceFile | QueryField::SourceFunction => true,
        _ => false,
    }
}

/// The event kind that `s` names.
pub open spec fn event_kind_of(s: Seq<char>) -> Option<EventKind> {
    if s == "Lifecycle"@ {
        Some(EventKind::Lifecycle)
    } else if s == "Control"@ {
        Some(EventKind::Control)
    } else if s == "Execution"@ {
        Some(EventKind::Execution)
    } else if s == "StateMutation"@ {
        Some(EventKind::StateMutation)
    } else if s == "ValueObserved"@ {
        Some(EventKind::ValueObserved)
    } else if s == "TriggerHit"@ {
        Some(EventKind::TriggerHit)
    } else if s == "Snapshot"@ {
        Some(EventKind::Snapshot)
    } else if s == "Replay"@ {
        Some(EventKind::Replay)
    } else if s == "ModelBoundary"@ {
        Some(EventKind::ModelBoundary)
    } else if s == "ToolBoundary"@ {
        Some(EventKind::ToolBoundary)
    } else if s == "SourceResolution"@ {
        Some(EventKind::SourceResolution)
    } else if s == "SchemaResolution"@ {
        Some(EventKind::SchemaResolution)
    } else if s == "PolicyDecision"@ {
        Some(EventKind::PolicyDecision)
    } else {
        None
    }
}

pub open spec fn unknown_kind_msg(s: Seq<char>) -> Seq<char> {
    "unknown event kind '"@ + s + "'"@
}

/// Whether `s` reads as a 64-bit signed integer (`i64::from_str`).
pub open spec fn i64_text(s: Seq<char>) -> bool {
    if s.len() == 0 {
        false
    } else if s.len() == 1 && (s[0] == '+' || s[0] == '-') {
        false
    } else if s[0] == '-' {
        fold_digits(s.drop_first(), 0, 9223372036854775808) is Ok
    } else if s[0] == '+' {
        fold_digits(s.drop_first(), 0, 9223372036854775807) is Ok
    } else {
        fold_digits(s, 0, 9223372036854775807) is Ok
    }
}

/// What `{:?}` prints for a string: the text quoted, with the characters
/// that `char::escape_debug` escapes escaped.
pub uninterp spec fn debug_text(s: Seq<char>) -> Seq<char>;

/// Renders `s` with `<str as Debug>::fmt`. The result is named, not spelled
/// out: it is the debug rendering of exactly these characters.
#[verifier::external_body]
pub(crate) fn debug_quoted(s: &str) -> (r: String)
    ensures
        r@ == debug_text(s@),
{
    format!("{:?}", s)
}

/// How a token prints with `{:?}`.
pub open spec fn tok_debug(t: Tok) -> Seq<char> {
    match t {
        Tok::Ident(v) => "Ident("@ + debug_text(v) + ")"@,
        Tok::Str(v) => "String("@ + debug_text(v) + ")"@,
        Tok::JsonPath(v) => "JsonPath("@ + debug_text(v) + ")"@,
        Tok::EqEq => "EqEq"@,
        Tok::Contains => "Contains"@,
        Tok::Exists => "Exists"@,
        Tok::And => "And"@,
        Tok::Or => "Or"@,
        Tok::Not => "Not"@,
        Tok::LParen => "LParen"@,
        Tok::RParen => "RParen"@,
    }
}

/// How an optional token prints with `{:?}`.
pub open spec fn opt_tok_debug(t: Option<Tok>) -> Seq<char> {
    match t {
        Some(x) => "Some("@ + tok_debug(x) + ")"@,
        None => "None"@,
    }
}

// ----- the grammar -----

pub open spec fn tok_at(t: Seq<Tok>, i: int) -> Option<Tok> {
    if 0 <= i < t.len() {
        Some(t[i])
    } else {
        None
    }
}

pub open spec fn expected_msg(exp: Tok, found: Option<Tok>) -> Seq<char> {
    "expected token "@ + tok_debug(exp) + ", found "@ + opt_tok_debug(found)
}

/// Consumes the token `exp` at `i`.
pub open spec fn expect_tok(t: Seq<Tok>, i: int, exp: Tok) -> Result<int, Seq<char>> {
    match tok_at(t, i) {
        Some(x) => if x == exp {
            Ok(i + 1)
        } else {
            Err(expected_msg(exp, Some(x)))
        },
        None => Err(expected_msg(exp, None)),
    }
}

/// Consumes a string literal at `i`.
pub open spec fn expect_str(t: Seq<Tok>, i: int) -> Result<(Seq<char>, int), Seq<char>> {
    match tok_at(t, i) {
        Some(Tok::Str(v)) => Ok((v, i + 1)),
        o => Err("expected string literal, found "@ + opt_tok_debug(o)),
    }
}

/// Consumes a JSON path at `i`.
pub open spec fn expect_path(t: Seq<Tok>, i: int) -> Result<(Seq<char>, int), Seq<char>> {
    match tok_at(t, i) {
        Some(Tok::JsonPath(v)) => Ok((v, i + 1)),
        o => Err("expected json path, found "@ + opt_tok_debug(o)),
    }
}

/// Consumes an event kind, bare or quoted, at `i`.
pub open spec fn expect_kind(t: Seq<Tok>, i: int) -> Result<(EventKind, int), Seq<char>> {
    match tok_at(t, i) {
        Some(Tok::Ident(v)) => match event_kind_of(v) {
            Some(k) => Ok((k, i + 1)),
            None => Err(unknown_kind_msg(v)),
        },
        Some(Tok::Str(v)) => match event_kind_of(v) {
            Some(k) => Ok((k, i + 1)),
            None => Err(unknown_kind_msg(v)),
        },
        o => Err("expected event kind literal, found "@ + opt_tok_debug(o)),
    }
}

/// Consumes a literal at `i`: a string, `true`, `false`, `null` or an
/// integer.
pub open spec fn expect_lit(t: Seq<Tok>, i: int) -> Result<(ValueModel, int), Seq<char>> {
    match tok_at(t, i) {
        Some(Tok::Str(v)) => Ok((ValueModel::Str(v), i + 1)),
        Some(Tok::Ident(v)) => if v == "true"@ {
            Ok((ValueModel::Bool(true), i + 1))
        } else if v == "false"@ {
            Ok((ValueModel::Bool(false), i + 1))
        } else if v == "null"@ {
            Ok((ValueModel::Null, i + 1))
        } else if i64_text(v) {
            Ok((ValueModel::Number(v), i + 1))
        } else {
            Err("expected literal value, found "@ + opt_tok_debug(Some(Tok::Ident(v))))
        },
        o => Err("expected literal value, found "@ + opt_tok_debug(o)),
    }
}

/// An atom that starts with the identifier `name` at `i`.
pub open spec fn atom_ident(t: Seq<Tok>, i: int, name: Seq<char>) -> Result<(ExprModel, int), Seq<char>> {
    if name == "artifact.text"@ {
        match expect_tok(t, i + 1, Tok::Contains) {
            Err(m) => Err(m),
            Ok(j) => match expect_str(t, j) {
                Ok((v, k)) => Ok((ExprModel::ArtifactTextContains(v), k)),
                Err(m) => Err(m),
            },
        }
    } else if name == "artifact.json"@ {
        match tok_at(t, i + 1) {
            Some(Tok::Exists) => match expect_path(t, i + 2) {
                Ok((p, k)) => Ok((ExprModel::ArtifactJsonPathExists(p), k)),
                Err(m) => Err(m),
            },
            Some(Tok::JsonPath(p)) => match expect_tok(t, i + 2, Tok::EqEq) {
                Err(m) => Err(m),
                Ok(j) => match expect_lit(t, j) {
                    Ok((v, k)) => Ok((ExprModel::ArtifactJsonPathEquals { path: p, expected: v }, k)),
                    Err(m) => Err(m),
                },
            },
            o => Err("unexpected token after artifact.json: "@ + opt_tok_debug(o)),
        }
    } else {
        match query_field_of(name) {
            None => Err("unknown query field '"@ + name + "'"@),
            Some(f) => match tok_at(t, i + 1) {
                Some(Tok::EqEq) => if f == QueryField::Kind {
                    match expect_kind(t, i + 2) {
                        Ok((k, j)) => Ok(
                            (ExprModel::FieldEquals { field: f, expected: QueryValueModel::Kind(k) }, j),
                        ),
                        Err(m) => Err(m),
                    }
                } else {
                    match expect_lit(t, i + 2) {
                        Ok((v, j)) => Ok(
                            (ExprModel::FieldEquals { field: f, expected: QueryValueModel::Value(v) }, j),
                        ),
                        Err(m) => Err(m),
                    }
                },
                Some(Tok::Contains) => if !supports_contains(f) {
                    Err("field '"@ + name + "' does not support contains"@)
                } else {
                    match expect_str(t, i + 2) {
                        Ok((v, j)) => Ok((ExprModel::FieldContains { field: f, needle: v }, j)),
                        Err(m) => Err(m),
                    }
                },
                Some(Tok::Exists) => Ok((ExprModel::FieldExists(f), i + 2)),
                o => Err("unexpected token after field '"@ + name + "': "@ + opt_tok_debug(o)),
            },
        }
    }
}

/// An atom at `i`.
pub open spec fn p_atom(t: Seq<Tok>, i: int) -> Result<(ExprModel, int), Seq<char>> {
    match tok_at(t, i) {
        None => Err("unexpected end of expression"@),
        Some(Tok::Ident(name)) => atom_ident(t, i, name),
        Some(other) => Err("could not parse expression atom from token "@ + tok_debug(other)),
    }
}

/// A parenthesized expression, a negation, or an atom at `i`.
pub open spec fn p_primary(t: Seq<Tok>, i: int) -> Result<(ExprModel, int), Seq<char>>
    decreases t.len() - i, 1int,
{
    match tok_at(t, i) {
        Some(Tok::LParen) => match p_or(t, i + 1) {
            Err(m) => Err(m),
            Ok((e, j)) => match expect_tok(t, j, Tok::RParen) {
                Ok(k) => Ok((e, k)),
                Err(m) => Err(m),
            },
        },
        Some(Tok::Not) => match p_primary(t, i + 1) {
            Ok((e, j)) => Ok((ExprModel::Not(Box::new(e)), j)),
            Err(m) => Err(m),
        },
        _ => p_atom(t, i),
    }
}

/// Primaries joined by `and`, from `i`.
pub open spec fn p_and(t: Seq<Tok>, i: int) -> Result<(ExprModel, int), Seq<char>>
    decreases t.len() - i, 2int,
{
    match p_primary(t, i) {
        Err(m) => Err(m),
        Ok((e, j)) => if j <= i || j > t.len() {
            Err(seq![])
        } else {
            p_and_tail(t, j, seq![e])
        },
    }
}

/// The rest of an `and` chain at `j`, after the operands `acc`.
pub open spec fn p_and_tail(t: Seq<Tok>, j: int, acc: Seq<ExprModel>) -> Result<
    (ExprModel, int),
    Seq<char>,
>
    decreases t.len() - j, 4int,
{
    if tok_at(t, j) == Some(Tok::And) {
        match p_primary(t, j + 1) {
            Err(m) => Err(m),
            Ok((e, k)) => if k <= j || k > t.len() {
                Err(seq![])
            } else {
                p_and_tail(t, k, acc.push(e))
            },
        }
    } else {
        Ok(
            (
                if acc.len() == 1 {
                    acc[0]
                } else {
                    ExprModel::And(acc)
                },
                j,
            ),
        )
    }
}

/// `and` chains joined by `or`, from `i`.
pub open spec fn p_or(t: Seq<Tok>, i: int) -> Result<(ExprModel, int), Seq<char>>
    decreases t.len() - i, 3int,
{
    match p_and(t, i) {
        Err(m) => Err(m),
        Ok((e, j)) => if j <= i || j > t.len() {
            Err(seq![])
        } else {
            p_or_tail(t, j, seq![e])
        },
    }
}

/// The rest of an `or` chain at `j`, after the operands `acc`.
pub open spec fn p_or_tail(t: Seq<Tok>, j: int, acc: Seq<ExprModel>) -> Result<
    (ExprModel, int),
    Seq<char>,
>
    decreases t.len() - j, 5int,
{
    if tok_at(t, j) == Some(Tok::Or) {
        match p_and(t, j + 1) {
            Err(m) => Err(m),
            Ok((e, k)) => if k <= j || k > t.len() {
                Err(seq![])
            } else {
                p_or_tail(t, k, acc.push(e))
            },
        }
    } else {
        Ok(
            (
                if acc.len() == 1 {
                    acc[0]
                } else {
                    ExprModel::Or(acc)
                },
                j,
            ),
        )
    }
}

/// What parsing `s` as a query expression gives.
pub open spec fn parse_expression_spec(s: Seq<char>) -> Result<ExprModel, Seq<char>> {
    match tokenize_spec(s) {
        Err(m) => Err(m),
        Ok(t) => match p_or(t, 0) {
            Err(m) => Err(m),
            Ok((e, j)) => if j < t.len() {
                Err("unexpected trailing tokens in expression"@)
            } else {
                Ok(e)
            },
        },
    }
}

// ----- executable pieces -----

/// The field that `name` names.
fn parse_query_field(name: &str) -> (r: SwatResult<QueryField>)
    ensures
        match query_field_of(name@) {
            Some(f) => r matches Ok(g) && g == f,
            None => r matches Err(e) && e@ == "unknown query field '"@ + name@ + "'"@,
        },
{
    if str_eq(name, "kind") {
        Ok(QueryField::Kind)
    } else if str_eq(name, "summary") {
        Ok(QueryField::Summary)
    } else if str_eq(name, "event.id") {
        Ok(QueryField::EventId)
    } else if str_eq(name, "sequence") || str_eq(name, "sequence_no") {
        Ok(QueryField::SequenceNo)
    } else if str_eq(name, "correlation") || str_eq(name, "correlation.id") {
        Ok(QueryField::CorrelationId)
    } else if str_eq(name, "boundary") || str_eq(name, "boundary.id") {
        Ok(QueryField::BoundaryId)
    } else if str_eq(name, "span") || str_eq(name, "span.id") {
        Ok(QueryField::SpanId)
    } else if str_eq(name, "value.key") {
        Ok(QueryField::ValueKey)
    } else if str_eq(name, "source.file") {
        Ok(QueryField::SourceFile)
    } else if str_eq(name, "source.function") {
        Ok(QueryField::SourceFunction)
    } else {
        let mut m = String::new();
        push_str(&mut m, "unknown query field '");
        push_str(&mut m, name);
        push_str(&mut m, "'");
        Err(SwatError::new(m))
    }
}

/// Whether `field` holds text, which `contains` searches.
fn field_supports_contains(field: &QueryField) -> (r: bool)
    ensures
        r == supports_contains(*field),
{
    match field {
        QueryField::Summary | QueryField::CorrelationId | QueryField::SpanId | QueryField::ValueKey
        | QueryField::SourceFile | QueryField::SourceFunction => true,
        _ => false,
    }
}

/// The event kind that `kind` names.
pub fn parse_event_kind(kind: &str) -> (r: SwatResult<EventKind>)
    ensures
        match event_kind_of(kind@) {
            Some(k) => r matches Ok(g) && g == k,
            None => r matches Err(e) && e@ == unknown_kind_msg(kind@),
        },
{
    if str_eq(kind, "Lifecycle") {
        Ok(EventKind::Lifecycle)
    } else if str_eq(kind, "Control") {
        Ok(EventKind::Control)
    } else if str_eq(kind, "Execution") {
        Ok(EventKind::Execution)
    } else if str_eq(kind, "StateMutation") {
        Ok(EventKind::StateMutation)
    } else if str_eq(kind, "ValueObserved") {
        Ok(EventKind::ValueObserved)
    } else if str_eq(kind, "TriggerHit") {
        Ok(EventKind::TriggerHit)
    } else if str_eq(kind, "Snapshot") {
        Ok(EventKind::Snapshot)
    } else if str_eq(kind, "Replay") {
        Ok(EventKind::Replay)
    } else if str_eq(kind, "ModelBoundary") {
        Ok(EventKind::ModelBoundary)
    } else if str_eq(kind, "ToolBoundary") {
        Ok(EventKind::ToolBoundary)
    } else if str_eq(kind, "SourceResolution") {
        Ok(EventKind::SourceResolution)
    } else if str_eq(kind, "SchemaResolution") {
        Ok(EventKind::SchemaResolution)
    } else if str_eq(kind, "PolicyDecision") {
        Ok(EventKind::PolicyDecision)
    } else {
        let mut m = String::new();
        push_str(&mut m, "unknown event kind '");
        push_str(&mut m, kind);
        push_str(&mut m, "'");
        Err(SwatError::new(m))
    }
}

/// Whether `s` reads as a 64-bit signed integer.
fn is_i64_text(s: &str) -> (r: bool)
    ensures
        r == i64_text(s@),
{
    let n = s.unicode_len();
    if n == 0 {
        return false;
    }
    let c0 = s.get_char(0);
    if n == 1 && (c0 == '+' || c0 == '-') {
        return false;
    }
    if c0 == '-' {
        assert(s@.drop_first() =~= s@.subrange(1, n as int));
        parse_digits(s, 1, 9223372036854775808).is_ok()
    } else if c0 == '+' {
        assert(s@.drop_first() =~= s@.subrange(1, n as int));
        parse_digits(s, 1, 9223372036854775807).is_ok()
    } else {
        assert(s@ =~= s@.subrange(0, n as int));
        parse_digits(s, 0, 9223372036854775807).is_ok()
    }
}

/// Appends how `t` prints with `{:?}`.
fn push_tok_debug(out: &mut String, t: &Token)
    ensures
        final(out)@ == old(out)@ + tok_debug(t@),
{
    match t {
        Token::Ident(v) => {
            push_str(out, "Ident(");
            let q = debug_quoted(v.as_str());
            push_str(out, q.as_str());
            push_str(out, ")");
        },
        Token::String(v) => {
            push_str(out, "String(");
            let q = debug_quoted(v.as_str());
            push_str(out, q.as_str());
            push_str(out, ")");
        },
        Token::JsonPath(v) => {
            push_str(out, "JsonPath(");
            let q = debug_quoted(v.as_str());
            push_str(out, q.as_str());
            push_str(out, ")");
        },
        Token::EqEq => push_str(out, "EqEq"),
        Token::Contains => push_str(out, "Contains"),
        Token::Exists => push_str(out, "Exists"),
        Token::And => push_str(out, "And"),
        Token::Or => push_str(out, "Or"),
        Token::Not => push_str(out, "Not"),
        Token::LParen => push_str(out, "LParen"),
        Token::RParen => push_str(out, "RParen"),
    }
    proof {
        assert(final(out)@ =~= old(out)@ + tok_debug(t@));
    }
}

spec fn opt_view(o: Option<&Token>) -> Option<Tok> {
    match o {
        Some(t) => Some(t@),
        None => None,
    }
}

/// `prefix` followed by how `t` prints with `{:?}`.
fn opt_tok_message(prefix: &str, t: Option<&Token>) -> (r: String)
    ensures
        r@ == prefix@ + opt_tok_debug(opt_view(t)),
{
    let mut m = String::new();
    push_str(&mut m, prefix);
    match t {
        Some(x) => {
            push_str(&mut m, "Some(");
            push_tok_debug(&mut m, x);
            push_str(&mut m, ")");
        },
        None => push_str(&mut m, "None"),
    }
    assert(m@ =~= prefix@ + opt_tok_debug(opt_view(t)));
    m
}

proof fn lemma_exprs_view_push(s: Seq<QueryExpr>, x: QueryExpr)
    ensures
        exprs_view(s.push(x)) == exprs_view(s).push(expr_view(x)),
    decreases s.len(),
{
    if s.len() == 0 {
        let e = s.push(x).drop_first();
        assert(e.len() == 0);
        assert(exprs_view(e) =~= Seq::<ExprModel>::empty());
        assert(exprs_view(s) =~= Seq::<ExprModel>::empty());
        assert(exprs_view(s.push(x)) =~= seq![expr_view(x)]);
    } else {
        assert(s.push(x).drop_first() =~= s.drop_first().push(x));
        lemma_exprs_view_push(s.drop_first(), x);
        assert(exprs_view(s.push(x)) =~= exprs_view(s).push(expr_view(x)));
    }
}

proof fn lemma_exprs_view_len(s: Seq<QueryExpr>)
    ensures
        exprs_view(s).len() == s.len(),
        s.len() > 0 ==> exprs_view(s)[0] == expr_view(s[0]),
    decreases s.len(),
{
    if s.len() > 0 {
        lemma_exprs_view_len(s.drop_first());
    }
}

/// Whether two tokens are the same.
fn same_token(a: &Token, b: &Token) -> (r: bool)
    ensures
        r == (a@ == b@),
{
    match (a, b) {
        (Token::Ident(x), Token::Ident(y)) => str_eq(x.as_str(), y.as_str()),
        (Token::String(x), Token::String(y)) => str_eq(x.as_str(), y.as_str()),
        (Token::JsonPath(x), Token::JsonPath(y)) => str_eq(x.as_str(), y.as_str()),
        (Token::EqEq, Token::EqEq) => true,
        (Token::Contains, Token::Contains) => true,
        (Token::Exists, Token::Exists) => true,
        (Token::And, Token::And) => true,
        (Token::Or, Token::Or) => true,
        (Token::Not, Token::Not) => true,
        (Token::LParen, Token::LParen) => true,
        (Token::RParen, Token::RParen) => true,
        _ => false,
    }
}

/// A cursor over the tokens of an expression.
struct Parser {
    tokens: Vec<Token>,
    index: usize,
}

impl Parser {
    spec fn ts(&self) -> Seq<Tok> {
        toks_view(self.tokens@)
    }

    fn peek(&self) -> (r: Option<&Token>)
        ensures
            opt_view(r) == tok_at(self.ts(), self.index as int),
            r is Some ==> self.index < self.tokens@.len(),
            self.tokens@.len() <= usize::MAX,
    {
        if self.index < self.tokens.len() {
            Some(&self.tokens[self.index])
        } else {
            None
        }
    }

    /// Whether the next token is `kind`.
    fn at_token(&self, kind: &Token) -> (r: bool)
        ensures
            r == (tok_at(self.ts(), self.index as int) == Some(kind@)),
            r ==> self.index < self.tokens@.len(),
            self.tokens@.len() <= usize::MAX,
    {
        match self.peek() {
            Some(t) => same_token(t, kind),
            None => false,
        }
    }

    fn expect_token(&mut self, expected: Token) -> (r: SwatResult<()>)
        requires
            old(self).index <= old(self).tokens@.len(),
        ensures
            final(self).tokens@ == old(self).tokens@,
            match expect_tok(old(self).ts(), old(self).index as int, expected@) {
                Ok(j) => r is Ok && final(self).index == j,
                Err(m) => r matches Err(e) && e@ == m,
            },
    {
        let found = self.peek();
        match found {
            Some(t) => {
                if same_token(t, &expected) {
                    self.index += 1;
                    return Ok(());
                }
            },
            None => {},
        }
        let mut m = String::new();
        push_str(&mut m, "expected token ");
        push_tok_debug(&mut m, &expected);
        let tail = opt_tok_message(", found ", found);
        push_str(&mut m, tail.as_str());
        assert(m@ =~= expected_msg(expected@, opt_view(found)));
        Err(SwatError::new(m))
    }

    fn expect_string(&mut self) -> (r: SwatResult<String>)
        requires
            old(self).index <= old(self).tokens@.len(),
        ensures
            final(self).tokens@ == old(self).tokens@,
            match expect_str(old(self).ts(), old(self).index as int) {
                Ok((v, j)) => r matches Ok(x) && x@ == v && final(self).index == j,
                Err(m) => r matches Err(e) && e@ == m,
            },
    {
        match self.peek() {
            Some(Token::String(v)) => {
                let out = v.clone();
                self.index += 1;
                Ok(out)
            },
            other => Err(SwatError::new(opt_tok_message("expected string literal, found ", other))),
        }
    }

    fn expect_json_path(&mut self) -> (r: SwatResult<String>)
        requires
            old(self).index <= old(self).tokens@.len(),
        ensures
            final(self).tokens@ == old(self).tokens@,
            match expect_path(old(self).ts(), old(self).index as int) {
                Ok((v, j)) => r matches Ok(x) && x@ == v && final(self).index == j,
                Err(m) => r matches Err(e) && e@ == m,
            },
    {
        match self.peek() {
            Some(Token::JsonPath(v)) => {
                let out = v.clone();
                self.index += 1;
                Ok(out)
            },
            other => Err(SwatError::new(opt_tok_message("expected json path, found ", other))),
        }
    }

    fn expect_event_kind(&mut self) -> (r: SwatResult<EventKind>)
        requires
            old(self).index <= old(self).tokens@.len(),
        ensures
            final(self).tokens@ == old(self).tokens@,
            match expect_kind(old(self).ts(), old(self).index as int) {
                Ok((k, j)) => r matches Ok(x) && x == k && final(self).index == j,
                Err(m) => r matches Err(e) && e@ == m,
            },
    {
        let parsed = match self.peek() {
            Some(Token::Ident(v)) => parse_event_kind(v.as_str()),
            Some(Token::String(v)) => parse_event_kind(v.as_str()),
            other => {
                return Err(
                    SwatError::new(opt_tok_message("expected event kind literal, found ", other)),
                );
            },
        };
        self.index += 1;
        parsed
    }

    fn expect_literal(&mut self) -> (r: SwatResult<QueriedValue>)
        requires
            old(self).index <= old(self).tokens@.len(),
        ensures
            final(self).tokens@ == old(self).tokens@,
            match expect_lit(old(self).ts(), old(self).index as int) {
                Ok((v, j)) => r matches Ok(x) && x@ == v && final(self).index == j,
                Err(m) => r matches Err(e) && e@ == m,
            },
    {
        let value = match self.peek() {
            Some(Token::String(v)) => QueriedValue::String(v.clone()),
            Some(Token::Ident(v)) => {
                if str_eq(v.as_str(), "true") {
                    QueriedValue::Bool(true)
                } else if str_eq(v.as_str(), "false") {
                    QueriedValue::Bool(false)
                } else if str_eq(v.as_str(), "null") {
                    QueriedValue::Null
                } else if is_i64_text(v.as_str()) {
                    QueriedValue::Number(v.clone())
                } else {
                    return Err(
                        SwatError::new(
                            opt_tok_message("expected literal value, found ", self.peek()),
                        ),
                    );
                }
            },
            other => {
                return Err(
                    SwatError::new(opt_tok_message("expected literal value, found ", other)),
                );
            },
        };
        self.index += 1;
        Ok(value)
    }

    fn parse_atom(&mut self) -> (r: SwatResult<QueryExpr>)
        requires
            old(self).index <= old(self).tokens@.len(),
        ensures
            final(self).tokens@ == old(self).tokens@,
            match p_atom(old(self).ts(), old(self).index as int) {
                Ok((e, j)) => r matches Ok(x) && x@ == e && final(self).index == j && old(self).index
                    < j <= old(self).tokens@.len(),
                Err(m) => r matches Err(err) && err@ == m,
            },
    {
        let name: String = match self.peek() {
            None => {
                return Err(SwatError::new(owned("unexpected end of expression")));
            },
            Some(Token::Ident(n)) => n.clone(),
            Some(other) => {
                let mut m = String::new();
                push_str(&mut m, "could not parse expression atom from token ");
                push_tok_debug(&mut m, other);
                return Err(SwatError::new(m));
            },
        };
        self.index += 1;
        if str_eq(name.as_str(), "artifact.text") {
            match self.expect_token(Token::Contains) {
                Ok(()) => {},
                Err(e) => {
                    return Err(e);
                },
            }
            return match self.expect_string() {
                Ok(v) => Ok(QueryExpr::ArtifactTextContains(v)),
                Err(e) => Err(e),
            };
        }
        if str_eq(name.as_str(), "artifact.json") {
            let path: String = match self.peek() {
                Some(Token::Exists) => {
                    self.index += 1;
                    return match self.expect_json_path() {
                        Ok(p) => Ok(QueryExpr::ArtifactJsonPathExists(p)),
                        Err(e) => Err(e),
                    };
                },
                Some(Token::JsonPath(p)) => p.clone(),
                other => {
                    return Err(
                        SwatError::new(
                            opt_tok_message("unexpected token after artifact.json: ", other),
                        ),
                    );
                },
            };
            self.index += 1;
            match self.expect_token(Token::EqEq) {
                Ok(()) => {},
                Err(e) => {
                    return Err(e);
                },
            }
            return match self.expect_literal() {
                Ok(v) => Ok(QueryExpr::ArtifactJsonPathEquals { path, expected: v }),
                Err(e) => Err(e),
            };
        }
        let field = match parse_query_field(name.as_str()) {
            Ok(f) => f,
            Err(e) => {
                return Err(e);
            },
        };
        match self.peek() {
            Some(Token::EqEq) => {
                self.index += 1;
                if field == QueryField::Kind {
                    match self.expect_event_kind() {
                        Ok(k) => Ok(QueryExpr::FieldEquals { field, expected: QueryValue::Kind(k) }),
                        Err(e) => Err(e),
                    }
                } else {
                    match self.expect_literal() {
                        Ok(v) => Ok(QueryExpr::FieldEquals { field, expected: QueryValue::Value(v) }),
                        Err(e) => Err(e),
                    }
                }
            },
            Some(Token::Contains) => {
                self.index += 1;
                if !field_supports_contains(&field) {
                    let mut m = String::new();
                    push_str(&mut m, "field '");
                    push_str(&mut m, name.as_str());
                    push_str(&mut m, "' does not support contains");
                    return Err(SwatError::new(m));
                }
                match self.expect_string() {
                    Ok(v) => Ok(QueryExpr::FieldContains { field, needle: v }),
                    Err(e) => Err(e),
                }
            },
            Some(Token::Exists) => {
                self.index += 1;
                Ok(QueryExpr::FieldExists(field))
            },
            other => {
                let mut prefix = String::new();
                push_str(&mut prefix, "unexpected token after field '");
                push_str(&mut prefix, name.as_str());
                push_str(&mut prefix, "': ");
                Err(SwatError::new(opt_tok_message(prefix.as_str(), other)))
            },
        }
    }
}

impl Parser {
    fn parse_primary(&mut self) -> (r: SwatResult<QueryExpr>)
        requires
            old(self).index <= old(self).tokens@.len(),
        ensures
            final(self).tokens@ == old(self).tokens@,
            match p_primary(old(self).ts(), old(self).index as int) {
                Ok((e, j)) => r matches Ok(x) && x@ == e && final(self).index == j && old(self).index
                    < j <= old(self).tokens@.len(),
                Err(m) => r matches Err(err) && err@ == m,
            },
        decreases old(self).tokens@.len() - old(self).index, 1int,
    {
        let is_lparen = match self.peek() {
            Some(Token::LParen) => true,
            _ => false,
        };
        if is_lparen {
            self.index += 1;
            let expr = match self.parse_or_expr() {
                Ok(e) => e,
                Err(e) => {
                    return Err(e);
                },
            };
            return match self.expect_token(Token::RParen) {
                Ok(()) => Ok(expr),
                Err(e) => Err(e),
            };
        }
        let is_not = match self.peek() {
            Some(Token::Not) => true,
            _ => false,
        };
        if is_not {
            self.index += 1;
            return match self.parse_primary() {
                Ok(e) => Ok(QueryExpr::Not(Box::new(e))),
                Err(e) => Err(e),
            };
        }
        self.parse_atom()
    }

    fn parse_and_expr(&mut self) -> (r: SwatResult<QueryExpr>)
        requires
            old(self).index <= old(self).tokens@.len(),
        ensures
            final(self).tokens@ == old(self).tokens@,
            match p_and(old(self).ts(), old(self).index as int) {
                Ok((e, j)) => r matches Ok(x) && x@ == e && final(self).index == j && old(self).index
                    < j <= old(self).tokens@.len(),
                Err(m) => r matches Err(err) && err@ == m,
            },
        decreases old(self).tokens@.len() - old(self).index, 2int,
    {
        let ghost t = self.ts();
        let ghost i0 = self.index as int;
        let first = match self.parse_primary() {
            Ok(e) => e,
            Err(e) => {
                return Err(e);
            },
        };
        let mut exprs: Vec<QueryExpr> = Vec::new();
        proof {
            lemma_exprs_view_push(exprs@, first);
            assert(exprs_view(exprs@) =~= Seq::<ExprModel>::empty());
        }
        exprs.push(first);
        while self.at_token(&Token::And)
            invariant
                self.tokens@ == old(self).tokens@,
                self.ts() == t,
                i0 == old(self).index,
                i0 < self.index <= self.tokens@.len(),
                exprs@.len() >= 1,
                p_and(t, i0) == p_and_tail(t, self.index as int, exprs_view(exprs@)),
            decreases self.tokens@.len() - self.index,
        {
            self.index += 1;
            let next = match self.parse_primary() {
                Ok(e) => e,
                Err(e) => {
                    return Err(e);
                },
            };
            proof {
                lemma_exprs_view_push(exprs@, next);
            }
            exprs.push(next);
        }
        proof {
            lemma_exprs_view_len(exprs@);
        }
        if exprs.len() == 1 {
            Ok(exprs.remove(0))
        } else {
            Ok(QueryExpr::And(exprs))
        }
    }

    fn parse_or_expr(&mut self) -> (r: SwatResult<QueryExpr>)
        requires
            old(self).index <= old(self).tokens@.len(),
        ensures
            final(self).tokens@ == old(self).tokens@,
            match p_or(old(self).ts(), old(self).index as int) {
                Ok((e, j)) => r matches Ok(x) && x@ == e && final(self).index == j && old(self).index
                    < j <= old(self).tokens@.len(),
                Err(m) => r matches Err(err) && err@ == m,
            },
        decreases old(self).tokens@.len() - old(self).index, 3int,
    {
        let ghost t = self.ts();
        let ghost i0 = self.index as int;
        let first = match self.parse_and_expr() {
            Ok(e) => e,
            Err(e) => {
                return Err(e);
            },
        };
        let mut exprs: Vec<QueryExpr> = Vec::new();
        proof {
            lemma_exprs_view_push(exprs@, first);
            assert(exprs_view(exprs@) =~= Seq::<ExprModel>::empty());
        }
        exprs.push(first);
        while self.at_token(&Token::Or)
            invariant
                self.tokens@ == old(self).tokens@,
                self.ts() == t,
                i0 == old(self).index,
                i0 < self.index <= self.tokens@.len(),
                exprs@.len() >= 1,
                p_or(t, i0) == p_or_tail(t, self.index as int, exprs_view(exprs@)),
            decreases self.tokens@.len() - self.index,
        {
            self.index += 1;
            let next = match self.parse_and_expr() {
                Ok(e) => e,
                Err(e) => {
                    return Err(e);
                },
            };
            proof {
                lemma_exprs_view_push(exprs@, next);
            }
            exprs.push(next);
        }
        proof {
            lemma_exprs_view_len(exprs@);
        }
        if exprs.len() == 1 {
            Ok(exprs.remove(0))
        } else {
            Ok(QueryExpr::Or(exprs))
        }
    }
}

/// Parses a query expression: `or` binds loosest, then `and`, then `not`
/// and parentheses; atoms compare a field or search artifact text or JSON.
pub fn parse_expression(input: &str) -> (r: SwatResult<QueryExpr>)
    ensures
        match parse_expression_spec(input@) {
            Ok(e) => r matches Ok(x) && x@ == e,
            Err(m) => r matches Err(err) && err@ == m,
        },
{
    let tokens = match tokenize(input) {
        Ok(t) => t,
        Err(e) => {
            return Err(e);
        },
    };
    let mut parser = Parser { tokens, index: 0 };
    let expr = match parser.parse_or_expr() {
        Ok(e) => e,
        Err(e) => {
            return Err(e);
        },
    };
    if parser.peek().is_some() {
        return Err(SwatError::new(owned("unexpected trailing tokens in expression")));
    }
    Ok(expr)
}

} // verus!
