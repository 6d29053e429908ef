//! The scanner (lexer) for the Oneway language.

use vstd::prelude::*;
use crate::error::{OnewayError, Phase, Result, Span, SpecError};
use crate::lexer::token::{display_kind, is_keyword, keyword_kind, tokens_view, SpecToken, SpecTokenKind, Token, TokenKind};
use crate::text::{chars_of, push_char, string_from, string_from_range};

verus! {

// ── the lexical grammar ─────────────────────────────────────────────────

/// An ASCII decimal digit.
pub open spec fn is_digit(c: char) -> bool {
    '0' <= c && c <= '9'
}

/// Spaces, tabs and carriage returns: skipped between tokens.
pub open spec fn is_blank(c: char) -> bool {
    c == ' ' || c == '\t' || c == '\r'
}

/// Whether `c` has the Unicode `Alphabetic` property (`char::is_alphabetic`).
pub uninterp spec fn unicode_alphabetic(c: char) -> bool;

/// Whether `c` is alphabetic or numeric in Unicode (`char::is_alphanumeric`).
pub uninterp spec fn unicode_alphanumeric(c: char) -> bool;

/// An ASCII letter.
pub open spec fn is_ascii_letter(c: char) -> bool {
    ('a' <= c && c <= 'z') || ('A' <= c && c <= 'Z')
}

/// Whether `c` is alphabetic, as `char::is_alphabetic` tells: among ASCII
/// characters the letters, beyond ASCII the Unicode `Alphabetic` property.
pub open spec fn alphabetic(c: char) -> bool {
    if c <= '\x7f' { is_ascii_letter(c) } else { unicode_alphabetic(c) }
}

/// Whether `c` is alphanumeric, as `char::is_alphanumeric` tells: among
/// ASCII characters the letters and digits, beyond ASCII the Unicode
/// `Alphabetic` or numeric properties.
pub open spec fn alphanumeric(c: char) -> bool {
    if c <= '\x7f' { is_ascii_letter(c) || is_digit(c) } else { unicode_alphanumeric(c) }
}

/// Whether `c` is alphabetic.
///
/// Trusted: calls `char::is_alphabetic`, documented as testing the Unicode
/// `Alphabetic` property; its result is named `unicode_alphabetic`. Among
/// ASCII characters that property holds of the letters alone.
#[verifier::external_body]
fn is_alphabetic(c: char) -> (r: bool)
    ensures
        r == unicode_alphabetic(c),
        c <= '\x7f' ==> (r <==> is_ascii_letter(c)),
{
    c.is_alphabetic()
}

/// Whether `c` is alphanumeric.
///
/// Trusted: calls `char::is_alphanumeric`, documented as `is_alphabetic() ||
/// is_numeric()` over Unicode tables; its result is named `unicode_alphanumeric`.
/// Among ASCII characters it holds of the letters and the digits alone.
#[verifier::external_body]
pub(crate) fn is_alphanumeric(c: char) -> (r: bool)
    ensures
        r == unicode_alphanumeric(c),
        c <= '\x7f' ==> (r <==> is_ascii_letter(c) || is_digit(c)),
{
    c.is_alphanumeric()
}

/// Whether `chars[p]` exists and is `c`.
pub open spec fn has(chars: Seq<char>, p: int, c: char) -> bool {
    0 <= p < chars.len() && chars[p] == c
}

/// The line (from 1) of position `p`: one more than the newlines before it.
pub open spec fn line_at(chars: Seq<char>, p: int) -> int
    decreases p,
{
    if p <= 0 {
        1
    } else {
        line_at(chars, p - 1) + if chars[p - 1] == '\n' { 1int } else { 0int }
    }
}

/// The column (from 1) of position `p`: one more than the characters
/// between the last newline before it and `p`.
pub open spec fn column_at(chars: Seq<char>, p: int) -> int
    decreases p,
{
    if p <= 0 {
        1
    } else if chars[p - 1] == '\n' {
        1
    } else {
        column_at(chars, p - 1) + 1
    }
}

/// The span of `chars[s..e]`, located at the line and column of `s`.
pub open spec fn span_of(chars: Seq<char>, s: int, e: int) -> Span {
    Span { start: s as usize, end: e as usize, line: line_at(chars, s) as u32, column: column_at(chars, s) as u32 }
}

/// The token of kind `kind` whose text is `chars[s..e]`.
pub open spec fn token_at(chars: Seq<char>, s: int, e: int, kind: SpecTokenKind) -> SpecToken {
    SpecToken { kind, span: span_of(chars, s, e), lexeme: chars.subrange(s, e) }
}

/// The end-of-input token at position `p`.
pub open spec fn eof_token(chars: Seq<char>, p: int) -> SpecToken {
    SpecToken { kind: SpecTokenKind::Eof, span: span_of(chars, p, p), lexeme: Seq::empty() }
}

/// The first position at or after `p` that does not hold a blank.
pub open spec fn skip_blanks(chars: Seq<char>, p: int) -> int
    decreases chars.len() - p,
{
    if 0 <= p < chars.len() && is_blank(chars[p]) {
        skip_blanks(chars, p + 1)
    } else {
        p
    }
}

/// The first position at or after `p` that does not hold a digit.
pub open spec fn digits_end(chars: Seq<char>, p: int) -> int
    decreases chars.len() - p,
{
    if 0 <= p < chars.len() && is_digit(chars[p]) {
        digits_end(chars, p + 1)
    } else {
        p
    }
}

/// The first position at or after `p` that cannot continue an identifier.
pub open spec fn ident_end(chars: Seq<char>, p: int) -> int
    decreases chars.len() - p,
{
    if 0 <= p < chars.len() && (alphanumeric(chars[p]) || chars[p] == '_') {
        ident_end(chars, p + 1)
    } else {
        p
    }
}

/// The value of a sequence of decimal digits.
pub open spec fn decimal_value(d: Seq<char>) -> int
    decreases d.len(),
{
    if d.len() == 0 {
        0
    } else {
        decimal_value(d.drop_last()) * 10 + (d.last() as int - '0' as int)
    }
}

/// The character that an escape `\e` in a string literal stands for.
pub open spec fn escape_value(e: char) -> Option<char> {
    if e == '\\' {
        Some('\\')
    } else if e == '"' {
        Some('"')
    } else if e == 'n' {
        Some('\n')
    } else if e == 't' {
        Some('\t')
    } else if e == '{' {
        Some('{')
    } else if e == '}' {
        Some('}')
    } else {
        None
    }
}

/// What scanning one token from a position gives: a token of `kind` whose
/// text ends at `end`, a lexical error whose span ends at `end`, or an
/// integer literal too large for `i64`.
pub enum Step {
    Emit { kind: SpecTokenKind, end: int },
    Fail { message: Seq<char>, end: int },
    Overflow,
}

/// A one- or two-character operator: `two` when `chars[s + 1]` is `second`.
pub open spec fn one_or_two(
    chars: Seq<char>,
    s: int,
    second: char,
    two: SpecTokenKind,
    one: SpecTokenKind,
) -> Step {
    if has(chars, s + 1, second) {
        Step::Emit { kind: two, end: s + 2 }
    } else {
        Step::Emit { kind: one, end: s + 1 }
    }
}

/// The rest of a string literal from `p`, with `value` read so far.
pub open spec fn scan_string_from(chars: Seq<char>, p: int, value: Seq<char>) -> Step
    decreases chars.len() - p,
{
    if p < 0 || p >= chars.len() {
        Step::Fail { message: "unterminated string literal"@, end: p }
    } else if chars[p] == '"' {
        Step::Emit { kind: SpecTokenKind::StringLiteral(value), end: p + 1 }
    } else if chars[p] == '\\' {
        if p + 1 >= chars.len() {
            Step::Fail { message: "unterminated escape sequence in string"@, end: p + 1 }
        } else {
            match escape_value(chars[p + 1]) {
                Some(x) => scan_string_from(chars, p + 2, value.push(x)),
                None => Step::Fail {
                    message: "unknown escape sequence '\\"@ + seq![chars[p + 1], '\''],
                    end: p + 2,
                },
            }
        }
    } else {
        scan_string_from(chars, p + 1, value.push(chars[p]))
    }
}

/// A number literal starting with the digit at `s`.
pub open spec fn scan_number(chars: Seq<char>, s: int) -> Step {
    let q = digits_end(chars, s + 1);
    if has(chars, q, '.') && q + 1 < chars.len() && is_digit(chars[q + 1]) {
        let e = digits_end(chars, q + 2);
        Step::Emit { kind: SpecTokenKind::FloatLiteral(chars.subrange(s, e)), end: e }
    } else {
        let v = decimal_value(chars.subrange(s, q));
        if v <= i64::MAX {
            Step::Emit { kind: SpecTokenKind::IntLiteral(v), end: q }
        } else {
            Step::Overflow
        }
    }
}

/// An identifier or keyword starting at `s`.
pub open spec fn scan_word(chars: Seq<char>, s: int) -> Step {
    let e = ident_end(chars, s + 1);
    let text = chars.subrange(s, e);
    match keyword_kind(text) {
        Some(k) => Step::Emit { kind: k, end: e },
        None => Step::Emit { kind: SpecTokenKind::Identifier(text), end: e },
    }
}

/// The message for `//`: comments are not part of the language.
pub open spec fn comment_message() -> Seq<char> {
    "comments are not allowed in Oneway — if the code needs explaining, refactor it"@
}

/// Scanning one token that starts at `s` (a position holding no blank).
pub open spec fn scan_one(chars: Seq<char>, s: int) -> Step {
    let c = chars[s];
    if c == '\n' {
        Step::Emit { kind: SpecTokenKind::Newline, end: s + 1 }
    } else if c == '+' {
        Step::Emit { kind: SpecTokenKind::Plus, end: s + 1 }
    } else if c == '*' {
        Step::Emit { kind: SpecTokenKind::Star, end: s + 1 }
    } else if c == '%' {
        Step::Emit { kind: SpecTokenKind::Percent, end: s + 1 }
    } else if c == '.' {
        Step::Emit { kind: SpecTokenKind::Dot, end: s + 1 }
    } else if c == '(' {
        Step::Emit { kind: SpecTokenKind::LeftParen, end: s + 1 }
    } else if c == ')' {
        Step::Emit { kind: SpecTokenKind::RightParen, end: s + 1 }
    } else if c == '{' {
        Step::Emit { kind: SpecTokenKind::LeftBrace, end: s + 1 }
    } else if c == '}' {
        Step::Emit { kind: SpecTokenKind::RightBrace, end: s + 1 }
    } else if c == '[' {
        Step::Emit { kind: SpecTokenKind::LeftBracket, end: s + 1 }
    } else if c == ']' {
        Step::Emit { kind: SpecTokenKind::RightBracket, end: s + 1 }
    } else if c == ':' {
        Step::Emit { kind: SpecTokenKind::Colon, end: s + 1 }
    } else if c == ',' {
        Step::Emit { kind: SpecTokenKind::Comma, end: s + 1 }
    } else if c == '?' {
        Step::Emit { kind: SpecTokenKind::QuestionMark, end: s + 1 }
    } else if c == '=' {
        if has(chars, s + 1, '=') {
            Step::Emit { kind: SpecTokenKind::EqualEqual, end: s + 2 }
        } else if has(chars, s + 1, '>') {
            Step::Emit { kind: SpecTokenKind::FatArrow, end: s + 2 }
        } else {
            Step::Emit { kind: SpecTokenKind::Equal, end: s + 1 }
        }
    } else if c == '!' {
        one_or_two(chars, s, '=', SpecTokenKind::BangEqual, SpecTokenKind::Bang)
    } else if c == '<' {
        one_or_two(chars, s, '=', SpecTokenKind::LessEqual, SpecTokenKind::Less)
    } else if c == '>' {
        one_or_two(chars, s, '=', SpecTokenKind::GreaterEqual, SpecTokenKind::Greater)
    } else if c == '-' {
        one_or_two(chars, s, '>', SpecTokenKind::Arrow, SpecTokenKind::Minus)
    } else if c == '&' {
        if has(chars, s + 1, '&') {
            Step::Emit { kind: SpecTokenKind::AndAnd, end: s + 2 }
        } else {
            Step::Fail { message: "unexpected character '&'; did you mean '&&'?"@, end: s + 1 }
        }
    } else if c == '|' {
        one_or_two(chars, s, '|', SpecTokenKind::OrOr, SpecTokenKind::Pipe)
    } else if c == '/' {
        if has(chars, s + 1, '/') {
            Step::Fail { message: comment_message(), end: s + 2 }
        } else {
            Step::Emit { kind: SpecTokenKind::Slash, end: s + 1 }
        }
    } else if c == '"' {
        scan_string_from(chars, s + 1, Seq::empty())
    } else if is_digit(c) {
        scan_number(chars, s)
    } else if alphabetic(c) || c == '_' {
        scan_word(chars, s)
    } else {
        Step::Fail { message: "unexpected character '"@ + seq![c, '\''], end: s + 1 }
    }
}

/// Adds a token to the stream, except a newline right after a newline.
/// Gives the new stream and whether it now ends in a newline.
pub open spec fn push_token(toks: Seq<SpecToken>, after_newline: bool, t: SpecToken) -> (
    Seq<SpecToken>,
    bool,
) {
    if t.kind is Newline && after_newline {
        (toks, true)
    } else {
        (toks.push(t), t.kind is Newline)
    }
}

/// The result of lexing: the token stream, a lexical error, or a panic on
/// an integer literal that does not fit in `i64`.
pub enum LexOutcome {
    Tokens(Seq<SpecToken>),
    Failed { message: Seq<char>, span: Span },
    Panics,
}

/// Lexing `chars` from position `p`, after the tokens `toks`;
/// `after_newline` tells whether the last token added was a newline.
pub open spec fn lex_from(chars: Seq<char>, p: int, after_newline: bool, toks: Seq<SpecToken>) -> LexOutcome
    decreases chars.len() - p,
{
    if p < 0 || p > chars.len() {
        LexOutcome::Tokens(toks)
    } else {
        let q = skip_blanks(chars, p);
        proof {
            lemma_skip_blanks(chars, p);
        }
        if q >= chars.len() {
            LexOutcome::Tokens(toks.push(eof_token(chars, q)))
        } else {
            proof {
                lemma_scan_one_end(chars, q);
            }
            match scan_one(chars, q) {
                Step::Emit { kind, end } => {
                    let next = push_token(toks, after_newline, token_at(chars, q, end, kind));
                    lex_from(chars, end, next.1, next.0)
                },
                Step::Fail { message, end } => LexOutcome::Failed { message, span: span_of(chars, q, end) },
                Step::Overflow => LexOutcome::Panics,
            }
        }
    }
}

/// Lexing a whole source text: newlines at its start are dropped.
pub open spec fn lex(chars: Seq<char>) -> LexOutcome {
    lex_from(chars, 0, true, Seq::empty())
}

// ── lemmas ──────────────────────────────────────────────────────────────

pub proof fn lemma_skip_blanks(chars: Seq<char>, p: int)
    requires
        0 <= p <= chars.len(),
    ensures
        p <= skip_blanks(chars, p) <= chars.len(),
        skip_blanks(chars, p) < chars.len() ==> !is_blank(chars[skip_blanks(chars, p)]),
        skip_blanks(chars, skip_blanks(chars, p)) == skip_blanks(chars, p),
    decreases chars.len() - p,
{
    if p < chars.len() && is_blank(chars[p]) {
        lemma_skip_blanks(chars, p + 1);
    }
}

pub proof fn lemma_digits_end(chars: Seq<char>, p: int)
    requires
        0 <= p <= chars.len(),
    ensures
        p <= digits_end(chars, p) <= chars.len(),
        forall|i: int| p <= i < digits_end(chars, p) ==> is_digit(chars[i]),
        digits_end(chars, p) < chars.len() ==> !is_digit(chars[digits_end(chars, p)]),
    decreases chars.len() - p,
{
    if p < chars.len() && is_digit(chars[p]) {
        lemma_digits_end(chars, p + 1);
    }
}

pub proof fn lemma_ident_end(chars: Seq<char>, p: int)
    requires
        0 <= p <= chars.len(),
    ensures
        p <= ident_end(chars, p) <= chars.len(),
    decreases chars.len() - p,
{
    if p < chars.len() && (alphanumeric(chars[p]) || chars[p] == '_') {
        lemma_ident_end(chars, p + 1);
    }
}

/// An identifier runs until a character that cannot continue it.
pub proof fn lemma_ident_end_stops(chars: Seq<char>, p: int)
    requires
        0 <= p <= chars.len(),
    ensures
        ident_end(chars, p) == chars.len() || !(alphanumeric(chars[ident_end(chars, p)])
            || chars[ident_end(chars, p)] == '_'),
    decreases chars.len() - p,
{
    if p < chars.len() && (alphanumeric(chars[p]) || chars[p] == '_') {
        lemma_ident_end_stops(chars, p + 1);
    }
}

pub proof fn lemma_string_end(chars: Seq<char>, p: int, value: Seq<char>)
    requires
        0 <= p,
    ensures
        match scan_string_from(chars, p, value) {
            Step::Emit { kind, end } => p < end <= chars.len() && kind is StringLiteral,
            Step::Fail { end, .. } => p <= end && (p <= chars.len() ==> end <= chars.len()),
            Step::Overflow => false,
        },
    decreases chars.len() - p,
{
    if p >= chars.len() {
    } else if chars[p] == '"' {
    } else if chars[p] == '\\' {
        if p + 1 < chars.len() {
            match escape_value(chars[p + 1]) {
                Some(x) => lemma_string_end(chars, p + 2, value.push(x)),
                None => {},
            }
        }
    } else {
        lemma_string_end(chars, p + 1, value.push(chars[p]));
    }
}

/// The bar tokens are what their text says: a token is the logical or
/// exactly when its text is `||`, and the pipe exactly when its text is a
/// lone `|`.
pub proof fn lemma_bar_tokens(chars: Seq<char>, s: int)
    requires
        0 <= s < chars.len(),
    ensures
        scan_one(chars, s) matches Step::Emit { kind, end } ==> {
            &&& (kind is OrOr <==> chars.subrange(s, end) == "||"@)
            &&& (kind is Pipe <==> chars.subrange(s, end) == "|"@)
        },
{
    reveal_strlit("||");
    reveal_strlit("|");
    lemma_scan_one_end(chars, s);
    if let Step::Emit { kind, end } = scan_one(chars, s) {
        let t = chars.subrange(s, end);
        assert(t[0] == chars[s]);
        if chars[s] == '|' {
            if has(chars, s + 1, '|') {
                assert(t =~= "||"@);
            } else {
                assert(t =~= "|"@);
                assert(t != "||"@);
            }
        } else {
            if chars[s] == '"' {
                lemma_string_end(chars, s + 1, Seq::empty());
            } else if alphabetic(chars[s]) || chars[s] == '_' {
                let e = ident_end(chars, s + 1);
                assert(keyword_kind(chars.subrange(s, e)) matches Some(k) ==> !(k is OrOr) && !(k is Pipe));
            }
            assert(!(kind is OrOr) && !(kind is Pipe));
            assert(t[0] != "||"@[0]);
            assert(t[0] != "|"@[0]);
        }
    }
}

/// The kinds whose text is fixed: operators and punctuation.
pub open spec fn is_operator(k: SpecTokenKind) -> bool {
    !(k is IntLiteral || k is FloatLiteral || k is StringLiteral || k is BoolLiteral || k is Identifier
        || k is Newline || k is Eof || k is Contract || k is Enum || k is Fn || k is Match || k is Mut
        || k is Pub || k is Struct || k is Use || k is TypeKeyword || k is SelfType || k is Delegates)
}

/// An operator, punctuation or keyword token is exactly its text: the
/// characters it was scanned from are the text it is displayed as (`|` for
/// the pipe, `||` for the logical or, `=>` for the fat arrow, `fn` for the
/// `fn` keyword, and so on).
pub proof fn lemma_operator_tokens(chars: Seq<char>, s: int)
    requires
        0 <= s < chars.len(),
    ensures
        scan_one(chars, s) matches Step::Emit { kind, end } ==> (is_operator(kind) ==> chars.subrange(s, end)
            == display_kind(kind)),
        scan_one(chars, s) matches Step::Emit { kind, end } ==> (is_keyword(kind) ==> chars.subrange(s, end)
            == display_kind(kind)),
        scan_one(chars, s) matches Step::Emit { kind: SpecTokenKind::Identifier(x), end } ==> {
            &&& x == chars.subrange(s, end)
            &&& keyword_kind(x) is None
            &&& (end == chars.len() || !(alphanumeric(chars[end]) || chars[end] == '_'))
        },
{
    reveal_strlit("+");
    reveal_strlit("-");
    reveal_strlit("*");
    reveal_strlit("/");
    reveal_strlit("%");
    reveal_strlit("==");
    reveal_strlit("!=");
    reveal_strlit("<");
    reveal_strlit(">");
    reveal_strlit("<=");
    reveal_strlit(">=");
    reveal_strlit("&&");
    reveal_strlit("||");
    reveal_strlit("|");
    reveal_strlit("!");
    reveal_strlit("=");
    reveal_strlit("->");
    reveal_strlit("=>");
    reveal_strlit(".");
    reveal_strlit("?");
    reveal_strlit("(");
    reveal_strlit(")");
    reveal_strlit("{");
    reveal_strlit("}");
    reveal_strlit("[");
    reveal_strlit("]");
    reveal_strlit(":");
    reveal_strlit(",");
    lemma_scan_one_end(chars, s);
    if let Step::Emit { kind, end } = scan_one(chars, s) {
        let c = chars[s];
        if c == '"' {
            lemma_string_end(chars, s + 1, Seq::empty());
        } else if is_operator(kind) {
            assert(chars.subrange(s, end) =~= display_kind(kind));
        } else if alphabetic(c) || c == '_' {
            crate::lexer::token::lemma_keyword_round_trip(kind, chars.subrange(s, end));
            lemma_ident_end_stops(chars, s + 1);
        }
    }
}

pub proof fn lemma_scan_one_end(chars: Seq<char>, s: int)
    requires
        0 <= s < chars.len(),
    ensures
        match scan_one(chars, s) {
            Step::Emit { kind, end } => s < end <= chars.len() && !(kind is Eof),
            Step::Fail { end, .. } => s < end <= chars.len(),
            Step::Overflow => true,
        },
{
    let c = chars[s];
    if c == '"' {
        lemma_string_end(chars, s + 1, Seq::empty());
    } else if is_digit(c) {
        lemma_digits_end(chars, s + 1);
        let q = digits_end(chars, s + 1);
        if has(chars, q, '.') && q + 1 < chars.len() && is_digit(chars[q + 1]) {
            lemma_digits_end(chars, q + 2);
        }
    } else if alphabetic(c) || c == '_' {
        lemma_ident_end(chars, s + 1);
    }
}

pub proof fn lemma_line_column_bounds(chars: Seq<char>, p: int)
    requires
        0 <= p,
    ensures
        1 <= line_at(chars, p) <= p + 1,
        1 <= column_at(chars, p) <= p + 1,
    decreases p,
{
    if p > 0 {
        lemma_line_column_bounds(chars, p - 1);
    }
}


pub proof fn lemma_decimal_value_prefix(d: Seq<char>, k: int)
    requires
        0 <= k <= d.len(),
        forall|i: int| 0 <= i < d.len() ==> is_digit(d[i]),
    ensures
        0 <= decimal_value(d.take(k)) <= decimal_value(d),
    decreases d.len(),
{
    if d.len() == 0 {
        assert(d.take(k) =~= d);
    } else if k == d.len() {
        assert(d.take(k) =~= d);
        lemma_decimal_value_prefix(d.drop_last(), d.len() - 1);
        assert(d.drop_last().take(d.len() - 1) =~= d.drop_last());
    } else {
        lemma_decimal_value_prefix(d.drop_last(), k);
        lemma_decimal_value_prefix(d.drop_last(), d.len() - 1);
        assert(d.drop_last().take(k) =~= d.take(k));
        assert(d.drop_last().take(d.len() - 1) =~= d.drop_last());
    }
}

/// The tokens of a stream carry their own source text and position:
/// each token's lexeme is the source between its span's ends, its line and
/// column are those of its start, and the tokens follow each other in the
/// source without overlapping.
pub open spec fn tokens_match_source(chars: Seq<char>, ts: Seq<SpecToken>) -> bool {
    &&& forall|i: int| 0 <= i < ts.len() ==> {
        &&& (#[trigger] ts[i]).lexeme == chars.subrange(ts[i].span.start as int, ts[i].span.end as int)
        &&& ts[i].span == span_of(chars, ts[i].span.start as int, ts[i].span.end as int)
        &&& ts[i].span.start <= ts[i].span.end <= chars.len()
    }
    &&& forall|i: int, j: int| 0 <= i < j < ts.len() ==> (#[trigger] ts[i]).span.end <= (#[trigger] ts[j]).span.start
}

/// No two newline tokens stand next to each other.
pub open spec fn no_adjacent_newlines(ts: Seq<SpecToken>) -> bool {
    forall|i: int| 0 <= i < ts.len() - 1 ==> !((#[trigger] ts[i]).kind is Newline && ts[i + 1].kind is Newline)
}

/// What holds of the tokens emitted before position `p`.
pub open spec fn emitted_inv(chars: Seq<char>, p: int, after_newline: bool, toks: Seq<SpecToken>) -> bool {
    &&& forall|i: int| 0 <= i < toks.len() ==> !((#[trigger] toks[i]).kind is Eof)
    &&& forall|i: int| 0 <= i < toks.len() ==> (#[trigger] toks[i]).span.end <= p
    &&& no_adjacent_newlines(toks)
    &&& toks.len() > 0 ==> !(toks[0].kind is Newline)
    &&& after_newline ==> (toks.len() == 0 || toks.last().kind is Newline)
    &&& !after_newline ==> (toks.len() > 0 && !(toks.last().kind is Newline))
    &&& tokens_match_source(chars, toks)
}

pub proof fn lemma_lex_from_stream(chars: Seq<char>, p: int, after_newline: bool, toks: Seq<SpecToken>)
    requires
        0 <= p <= chars.len(),
        chars.len() < u32::MAX,
        emitted_inv(chars, p, after_newline, toks),
    ensures
        lex_from(chars, p, after_newline, toks) matches LexOutcome::Tokens(ts) ==> {
            &&& ts.len() >= 1
            &&& ts.last().kind is Eof
            &&& forall|i: int| 0 <= i < ts.len() - 1 ==> !((#[trigger] ts[i]).kind is Eof)
            &&& !(ts[0].kind is Newline)
            &&& no_adjacent_newlines(ts)
            &&& tokens_match_source(chars, ts)
        },
    decreases chars.len() - p,
{
    lemma_skip_blanks(chars, p);
    let q = skip_blanks(chars, p);
    if q >= chars.len() {
        let ts = toks.push(eof_token(chars, q));
        assert(ts.last() == eof_token(chars, q));
        assert forall|i: int| 0 <= i < ts.len() - 1 implies !((#[trigger] ts[i]).kind is Eof) by {
            assert(ts[i] == toks[i]);
        }
        assert(no_adjacent_newlines(ts)) by {
            assert forall|i: int| 0 <= i < ts.len() - 1 implies !((#[trigger] ts[i]).kind is Newline
                && ts[i + 1].kind is Newline) by {
                if i + 1 < toks.len() {
                    assert(ts[i] == toks[i] && ts[i + 1] == toks[i + 1]);
                }
            }
        }
        assert(tokens_match_source(chars, ts)) by {
            assert forall|i: int, j: int| 0 <= i < j < ts.len() implies (#[trigger] ts[i]).span.end
                <= (#[trigger] ts[j]).span.start by {
                if j < toks.len() {
                    assert(ts[i] == toks[i] && ts[j] == toks[j]);
                } else {
                    assert(ts[i] == toks[i]);
                }
            }
            assert(eof_token(chars, q).lexeme =~= chars.subrange(q, q));
        }
    } else {
        lemma_scan_one_end(chars, q);
        match scan_one(chars, q) {
            Step::Emit { kind, end } => {
                let t = token_at(chars, q, end, kind);
                let next = push_token(toks, after_newline, t);
                if !(kind is Newline && after_newline) {
                    let ts = toks.push(t);
                    assert(next.0 == ts);
                    assert(emitted_inv(chars, end, next.1, ts)) by {
                        assert forall|i: int| 0 <= i < ts.len() implies !((#[trigger] ts[i]).kind is Eof)
                            && ts[i].span.end <= end by {
                            if i < toks.len() {
                                assert(ts[i] == toks[i]);
                            }
                        }
                        assert forall|i: int| 0 <= i < ts.len() - 1 implies !((#[trigger] ts[i]).kind
                            is Newline && ts[i + 1].kind is Newline) by {
                            if i + 1 < toks.len() {
                                assert(ts[i] == toks[i] && ts[i + 1] == toks[i + 1]);
                            } else {
                                assert(ts[i] == toks.last());
                            }
                        }
                        if toks.len() > 0 {
                            assert(ts[0] == toks[0]);
                        }
                        assert forall|i: int, j: int| 0 <= i < j < ts.len() implies (#[trigger] ts[i]).span.end
                            <= (#[trigger] ts[j]).span.start by {
                            if j < toks.len() {
                                assert(ts[i] == toks[i] && ts[j] == toks[j]);
                            } else {
                                assert(ts[i] == toks[i]);
                            }
                        }
                        assert forall|i: int| 0 <= i < ts.len() implies {
                            &&& (#[trigger] ts[i]).lexeme == chars.subrange(ts[i].span.start as int, ts[i].span.end as int)
                            &&& ts[i].span == span_of(chars, ts[i].span.start as int, ts[i].span.end as int)
                            &&& ts[i].span.start <= ts[i].span.end <= chars.len()
                        } by {
                            if i < toks.len() {
                                assert(ts[i] == toks[i]);
                            }
                        }
                    }
                    lemma_lex_from_stream(chars, end, next.1, ts);
                } else {
                    assert(next.0 == toks);
                    lemma_lex_from_stream(chars, end, next.1, toks);
                }
            },
            Step::Fail { .. } => {},
            Step::Overflow => {},
        }
    }
}

/// What a successful lex gives: a stream that ends with the one `Eof`
/// token, that neither starts with a newline nor holds two newlines in a
/// row, and whose tokens carry their own source text and position, in order.
pub proof fn lemma_lex_stream(chars: Seq<char>)
    requires
        chars.len() < u32::MAX,
    ensures
        lex(chars) matches LexOutcome::Tokens(ts) ==> {
            &&& ts.len() >= 1
            &&& ts.last().kind is Eof
            &&& forall|i: int| 0 <= i < ts.len() - 1 ==> !((#[trigger] ts[i]).kind is Eof)
            &&& !(ts[0].kind is Newline)
            &&& no_adjacent_newlines(ts)
            &&& tokens_match_source(chars, ts)
        },
{
    lemma_lex_from_stream(chars, 0, true, Seq::empty());
}

// ── the scanner ─────────────────────────────────────────────────────────

/// The scanner (lexer) for the Oneway language.
///
/// Converts a source string into a sequence of `Token`s, tracking line and
/// column information as it goes.
pub struct Scanner<'src> {
    source: &'src str,
    chars: Vec<char>,
    tokens: Vec<Token>,
    /// Index in `chars` where the current token started.
    start: usize,
    /// Current index into `chars`.
    current: usize,
    /// Line number (from 1) of `start`.
    start_line: u32,
    /// Column number (from 1) of `start`.
    start_column: u32,
    /// Line number (from 1) of `current`.
    line: u32,
    /// Column number (from 1) of `current`.
    column: u32,
    /// Whether the last token emitted was a `Newline` (used to coalesce
    /// consecutive newlines into a single token).
    last_was_newline: bool,
}

impl<'src> Scanner<'src> {
    /// The characters of the source.
    pub closed spec fn source_chars(&self) -> Seq<char> {
        self.chars@
    }

    /// The position up to which the source has been scanned.
    pub closed spec fn position(&self) -> int {
        self.current as int
    }

    /// Whether the last token emitted was a newline.
    pub closed spec fn after_newline(&self) -> bool {
        self.last_was_newline
    }

    /// The tokens emitted so far.
    pub closed spec fn emitted(&self) -> Seq<SpecToken> {
        tokens_view(self.tokens@)
    }

    /// The scanner's internal consistency: positions in range, and line and
    /// column numbers that match the positions.
    pub closed spec fn wf(&self) -> bool {
        &&& self.chars@ == self.source@
        &&& self.start <= self.current <= self.chars@.len()
        &&& self.line as int == line_at(self.chars@, self.current as int)
        &&& self.column as int == column_at(self.chars@, self.current as int)
        &&& self.start_line as int == line_at(self.chars@, self.start as int)
        &&& self.start_column as int == column_at(self.chars@, self.start as int)
    }

    /// Scanner state that the helpers may use: consistent, and with a
    /// source short enough for line and column numbers to fit in `u32`.
    closed spec fn ready(&self) -> bool {
        self.wf() && self.chars@.len() < u32::MAX
    }

    /// Create a new scanner for the given source text.
    pub fn new(source: &'src str) -> (s: Self)
        ensures
            s.wf(),
            s.source_chars() == source@,
            s.position() == 0,
            s.after_newline(),
            s.emitted() == Seq::<SpecToken>::empty(),
    {
        let s = Self {
            source,
            chars: chars_of(source),
            tokens: Vec::new(),
            start: 0,
            current: 0,
            start_line: 1,
            start_column: 1,
            line: 1,
            column: 1,
            last_was_newline: true, // suppress leading newlines
        };
        assert(s.emitted() =~= Seq::<SpecToken>::empty());
        s
    }

    // ── public API ──────────────────────────────────────────────────────

    /// Scans the entire source as `scan_tokens` does, with `None` where an
    /// integer literal does not fit in `i64`.
    pub fn scan_tokens_checked(&mut self) -> (r: Option<Result<Vec<Token>>>)
        requires
            old(self).wf(),
            old(self).source_chars().len() < u32::MAX,
        ensures
            final(self).wf(),
            match lex_from(old(self).source_chars(), old(self).position(), old(self).after_newline(),
                old(self).emitted()) {
                LexOutcome::Tokens(ts) => r matches Some(Ok(v)) && tokens_view(v@) == ts,
                LexOutcome::Failed { message, span } => r matches Some(Err(e)) && e@ == (SpecError {
                    phase: Phase::Lex,
                    message,
                    span,
                }),
                LexOutcome::Panics => r is None,
            },
    {
        let ghost target = lex_from(self.chars@, self.current as int, self.last_was_newline, tokens_view(self.tokens@));
        while !self.is_at_end()
            invariant
                self.ready(),
                lex_from(self.chars@, self.current as int, self.last_was_newline, tokens_view(self.tokens@)) == target,
                target == lex_from(old(self).chars@, old(self).current as int, old(self).last_was_newline,
                    tokens_view(old(self).tokens@)),
            ensures
                self.ready(),
                lex_from(self.chars@, self.current as int, self.last_was_newline, tokens_view(self.tokens@)) == target,
                self.current >= self.chars@.len(),
            decreases self.chars@.len() - self.current,
        {
            let ghost p = self.current as int;
            self.skip_whitespace();
            proof {
                lemma_skip_blanks(self.chars@, p);
                assert(lex_from(self.chars@, self.current as int, self.last_was_newline, tokens_view(self.tokens@))
                    == lex_from(self.chars@, p, self.last_was_newline, tokens_view(self.tokens@)));
            }
            if self.is_at_end() {
                break;
            }
            self.start = self.current;
            self.start_line = self.line;
            self.start_column = self.column;
            proof {
                lemma_scan_one_end(self.chars@, self.start as int);
            }
            match self.scan_token() {
                Ok(true) => {},
                Ok(false) => {
                    return None;
                },
                Err(e) => {
                    return Some(Err(e));
                },
            }
        }
        proof {
            lemma_skip_blanks(self.chars@, self.current as int);
        }
        let eof = Token {
            kind: TokenKind::Eof,
            span: Span::new(self.current, self.current, self.line, self.column),
            lexeme: String::new(),
        };
        let ghost before = self.tokens@;
        self.tokens.push(eof);
        proof {
            assert(tokens_view(self.tokens@) =~= tokens_view(before).push(eof_token(self.chars@, self.current as int)));
        }
        let out = self.tokens.clone();
        proof {
            assert(out@ =~= self.tokens@);
        }
        Some(Ok(out))
    }

    /// Scan the entire source and return the resulting token stream.
    /// The stream always ends with an `Eof` token.
    pub fn scan_tokens(&mut self) -> (r: Result<Vec<Token>>)
        requires
            old(self).wf(),
            old(self).source_chars().len() < u32::MAX,
            !(lex_from(old(self).source_chars(), old(self).position(), old(self).after_newline(),
                old(self).emitted()) is Panics),
        ensures
            final(self).wf(),
            match lex_from(old(self).source_chars(), old(self).position(), old(self).after_newline(),
                old(self).emitted()) {
                LexOutcome::Tokens(ts) => r matches Ok(v) && tokens_view(v@) == ts,
                LexOutcome::Failed { message, span } => r matches Err(e) && e@ == (SpecError {
                    phase: Phase::Lex,
                    message,
                    span,
                }),
                LexOutcome::Panics => false,
            },
    {
        match self.scan_tokens_checked() {
            Some(r) => r,
            None => Ok(Vec::new()),
        }
    }

    // ── helpers ─────────────────────────────────────────────────────────

    fn is_at_end(&self) -> (r: bool)
        requires
            self.wf(),
        ensures
            r == (self.current >= self.chars@.len()),
    {
        self.current >= self.chars.len()
    }

    /// Peek at the current character without consuming it.
    fn peek(&self) -> (c: char)
        requires
            self.wf(),
        ensures
            c == if self.current < self.chars@.len() { self.chars@[self.current as int] } else { '\0' },
    {
        if self.is_at_end() {
            '\0'
        } else {
            self.chars[self.current]
        }
    }

    /// Peek at the character one position ahead of `current`.
    fn peek_next(&self) -> (c: char)
        requires
            self.ready(),
        ensures
            c == if self.current + 1 < self.chars@.len() { self.chars@[self.current + 1] } else { '\0' },
    {
        if self.current + 1 >= self.chars.len() {
            '\0'
        } else {
            self.chars[self.current + 1]
        }
    }

    /// Consume the current character and advance.
    fn advance(&mut self) -> (c: char)
        requires
            old(self).ready(),
            old(self).current < old(self).chars@.len(),
        ensures
            final(self).ready(),
            c == old(self).chars@[old(self).current as int],
            final(self).current == old(self).current + 1,
            final(self).chars == old(self).chars,
            final(self).source == old(self).source,
            final(self).tokens == old(self).tokens,
            final(self).start == old(self).start,
            final(self).start_line == old(self).start_line,
            final(self).start_column == old(self).start_column,
            final(self).last_was_newline == old(self).last_was_newline,
    {
        proof {
            lemma_line_column_bounds(self.chars@, self.current as int);
        }
        let c = self.chars[self.current];
        self.current = self.current + 1;
        if c == '\n' {
            self.line = self.line + 1;
            self.column = 1;
        } else {
            self.column = self.column + 1;
        }
        c
    }

    /// Consume the current character only if it matches `expected`.
    fn match_char(&mut self, expected: char) -> (r: bool)
        requires
            old(self).ready(),
        ensures
            final(self).ready(),
            r == has(old(self).chars@, old(self).current as int, expected),
            final(self).current == old(self).current + if r { 1int } else { 0int },
            final(self).chars == old(self).chars,
            final(self).source == old(self).source,
            final(self).tokens == old(self).tokens,
            final(self).start == old(self).start,
            final(self).start_line == old(self).start_line,
            final(self).start_column == old(self).start_column,
            final(self).last_was_newline == old(self).last_was_newline,
    {
        if self.is_at_end() || self.chars[self.current] != expected {
            false
        } else {
            self.advance();
            true
        }
    }

    /// Return the lexeme for the current token (from `start` to `current`).
    fn current_lexeme(&self) -> (s: String)
        requires
            self.wf(),
        ensures
            s@ == self.chars@.subrange(self.start as int, self.current as int),
    {
        string_from_range(&self.chars, self.start, self.current)
    }

    /// Build a `Span` that covers the current token.
    fn current_span(&self) -> (s: Span)
        requires
            self.wf(),
        ensures
            s == span_of(self.chars@, self.start as int, self.current as int),
    {
        Span::new(self.start, self.current, self.start_line, self.start_column)
    }

    /// Push a token with the given kind, using the current span and lexeme.
    fn add_token(&mut self, kind: TokenKind)
        requires
            old(self).ready(),
        ensures
            final(self).ready(),
            (tokens_view(final(self).tokens@), final(self).last_was_newline) == push_token(
                tokens_view(old(self).tokens@),
                old(self).last_was_newline,
                token_at(old(self).chars@, old(self).start as int, old(self).current as int, kind@),
            ),
            final(self).current == old(self).current,
            final(self).chars == old(self).chars,
            final(self).source == old(self).source,
            final(self).start == old(self).start,
    {
        let is_newline = match kind {
            TokenKind::Newline => true,
            _ => false,
        };

        // Coalesce consecutive newlines.
        if is_newline && self.last_was_newline {
            return;
        }

        self.last_was_newline = is_newline;

        let t = Token { kind, span: self.current_span(), lexeme: self.current_lexeme() };
        let ghost before = self.tokens@;
        self.tokens.push(t);
        proof {
            assert(tokens_view(self.tokens@) =~= tokens_view(before).push(t@));
        }
    }

    /// Create a `LexError` at the current span.
    fn lex_error(&self, message: String) -> (e: OnewayError)
        requires
            self.wf(),
        ensures
            e@ == (SpecError {
                phase: Phase::Lex,
                message: message@,
                span: span_of(self.chars@, self.start as int, self.current as int),
            }),
    {
        OnewayError::LexError { message, span: self.current_span() }
    }

    /// Skip spaces and tabs (but NOT newlines — those are significant).
    fn skip_whitespace(&mut self)
        requires
            old(self).ready(),
        ensures
            final(self).ready(),
            final(self).current == skip_blanks(old(self).chars@, old(self).current as int),
            final(self).chars == old(self).chars,
            final(self).source == old(self).source,
            final(self).tokens == old(self).tokens,
            final(self).last_was_newline == old(self).last_was_newline,
    {
        let ghost p0 = self.current as int;
        while !self.is_at_end()
            invariant_except_break
                self.ready(),
                skip_blanks(self.chars@, self.current as int) == skip_blanks(self.chars@, p0),
                self.chars == old(self).chars,
                self.source == old(self).source,
                self.tokens == old(self).tokens,
                self.last_was_newline == old(self).last_was_newline,
            ensures
                self.ready(),
                self.current == skip_blanks(self.chars@, p0),
                self.chars == old(self).chars,
                self.source == old(self).source,
                self.tokens == old(self).tokens,
                self.last_was_newline == old(self).last_was_newline,
            decreases self.chars@.len() - self.current,
        {
            let c = self.peek();
            if c == ' ' || c == '\t' || c == '\r' {
                self.advance();
            } else {
                break;
            }
        }
    }

    // ── main dispatch ───────────────────────────────────────────────────

    /// Scans one token; `Ok(false)` where an integer literal does not fit
    /// in `i64`.
    fn scan_token(&mut self) -> (r: Result<bool>)
        requires
            old(self).ready(),
            old(self).start == old(self).current,
            old(self).current < old(self).chars@.len(),
        ensures
            final(self).ready(),
            final(self).chars == old(self).chars,
            final(self).source == old(self).source,
            final(self).start == old(self).start,
            match scan_one(old(self).chars@, old(self).start as int) {
                Step::Emit { kind, end } => r matches Ok(true) && final(self).current == end
                    && (tokens_view(final(self).tokens@), final(self).last_was_newline) == push_token(
                        tokens_view(old(self).tokens@),
                        old(self).last_was_newline,
                        token_at(old(self).chars@, old(self).start as int, end, kind),
                    ),
                Step::Fail { message, end } => r matches Err(e) && e@ == (SpecError {
                    phase: Phase::Lex,
                    message,
                    span: span_of(old(self).chars@, old(self).start as int, end),
                }) && final(self).tokens@ == old(self).tokens@
                    && final(self).last_was_newline == old(self).last_was_newline,
                Step::Overflow => r matches Ok(false) && final(self).tokens@ == old(self).tokens@
                    && final(self).last_was_newline == old(self).last_was_newline,
            },
    {
        let ghost chars = self.chars@;
        let ghost s = self.start as int;
        let c = self.advance();

        if c == '\n' {
            self.add_token(TokenKind::Newline);
        } else if c == '+' {
            self.add_token(TokenKind::Plus);
        } else if c == '*' {
            self.add_token(TokenKind::Star);
        } else if c == '%' {
            self.add_token(TokenKind::Percent);
        } else if c == '.' {
            self.add_token(TokenKind::Dot);
        } else if c == '(' {
            self.add_token(TokenKind::LeftParen);
        } else if c == ')' {
            self.add_token(TokenKind::RightParen);
        } else if c == '{' {
            self.add_token(TokenKind::LeftBrace);
        } else if c == '}' {
            self.add_token(TokenKind::RightBrace);
        } else if c == '[' {
            self.add_token(TokenKind::LeftBracket);
        } else if c == ']' {
            self.add_token(TokenKind::RightBracket);
        } else if c == ':' {
            self.add_token(TokenKind::Colon);
        } else if c == ',' {
            self.add_token(TokenKind::Comma);
        } else if c == '?' {
            self.add_token(TokenKind::QuestionMark);
        } else if c == '=' {
            if self.match_char('=') {
                self.add_token(TokenKind::EqualEqual);
            } else if self.match_char('>') {
                self.add_token(TokenKind::FatArrow);
            } else {
                self.add_token(TokenKind::Equal);
            }
        } else if c == '!' {
            if self.match_char('=') {
                self.add_token(TokenKind::BangEqual);
            } else {
                self.add_token(TokenKind::Bang);
            }
        } else if c == '<' {
            if self.match_char('=') {
                self.add_token(TokenKind::LessEqual);
            } else {
                self.add_token(TokenKind::Less);
            }
        } else if c == '>' {
            if self.match_char('=') {
                self.add_token(TokenKind::GreaterEqual);
            } else {
                self.add_token(TokenKind::Greater);
            }
        } else if c == '-' {
            if self.match_char('>') {
                self.add_token(TokenKind::Arrow);
            } else {
                self.add_token(TokenKind::Minus);
            }
        } else if c == '&' {
            if self.match_char('&') {
                self.add_token(TokenKind::AndAnd);
            } else {
                return Err(self.lex_error(string_from("unexpected character '&'; did you mean '&&'?")));
            }
        } else if c == '|' {
            if self.match_char('|') {
                self.add_token(TokenKind::OrOr);
            } else {
                self.add_token(TokenKind::Pipe);
            }
        } else if c == '/' {
            if self.match_char('/') {
                return Err(self.lex_error(string_from(
                    "comments are not allowed in Oneway — if the code needs explaining, refactor it",
                )));
            } else {
                self.add_token(TokenKind::Slash);
            }
        } else if c == '"' {
            self.scan_string()?;
        } else if '0' <= c && c <= '9' {
            if !self.scan_number() {
                return Ok(false);
            }
        } else if is_alphabetic(c) || c == '_' {
            self.scan_identifier();
        } else {
            let mut message = string_from("unexpected character '");
            push_char(&mut message, c);
            push_char(&mut message, '\'');
            proof {
                assert(message@ =~= "unexpected character '"@ + seq![c, '\'']);
            }
            return Err(self.lex_error(message));
        }

        Ok(true)
    }

    // ── string literals ─────────────────────────────────────────────────

    fn scan_string(&mut self) -> (r: Result<()>)
        requires
            old(self).ready(),
            old(self).current == old(self).start + 1,
            old(self).chars@[old(self).start as int] == '"',
        ensures
            final(self).ready(),
            final(self).chars == old(self).chars,
            final(self).source == old(self).source,
            final(self).start == old(self).start,
            match scan_string_from(old(self).chars@, old(self).start + 1, Seq::empty()) {
                Step::Emit { kind, end } => r is Ok && final(self).current == end
                    && (tokens_view(final(self).tokens@), final(self).last_was_newline) == push_token(
                        tokens_view(old(self).tokens@),
                        old(self).last_was_newline,
                        token_at(old(self).chars@, old(self).start as int, end, kind),
                    ),
                Step::Fail { message, end } => r matches Err(e) && e@ == (SpecError {
                    phase: Phase::Lex,
                    message,
                    span: span_of(old(self).chars@, old(self).start as int, end),
                }) && final(self).tokens@ == old(self).tokens@
                    && final(self).last_was_newline == old(self).last_was_newline,
                Step::Overflow => false,
            },
    {
        let ghost target = scan_string_from(self.chars@, self.start + 1, Seq::empty());
        let mut value = String::new();

        while !self.is_at_end() && self.peek() != '"'
            invariant
                self.ready(),
                self.chars == old(self).chars,
                self.source == old(self).source,
                self.start == old(self).start,
                self.tokens == old(self).tokens,
                self.last_was_newline == old(self).last_was_newline,
                self.current > self.start,
                scan_string_from(self.chars@, self.current as int, value@) == target,
                target == scan_string_from(old(self).chars@, old(self).start + 1, Seq::empty()),
            decreases self.chars@.len() - self.current,
        {
            let c = self.peek();
            let ghost p = self.current as int;
            assert(scan_string_from(self.chars@, p, value@) == target);

            if c == '\n' {
                // Allow multiline strings — just keep tracking lines.
                push_char(&mut value, '\n');
                self.advance();
                continue;
            }

            if c == '\\' {
                // Escape sequence
                self.advance(); // consume the backslash
                if self.is_at_end() {
                    assert(target == Step::Fail { message: "unterminated escape sequence in string"@, end: p + 1 });
                    return Err(self.lex_error(string_from("unterminated escape sequence in string")));
                }
                let escaped = self.advance();
                if escaped == '\\' {
                    push_char(&mut value, '\\');
                } else if escaped == '"' {
                    push_char(&mut value, '"');
                } else if escaped == 'n' {
                    push_char(&mut value, '\n');
                } else if escaped == 't' {
                    push_char(&mut value, '\t');
                } else if escaped == '{' {
                    push_char(&mut value, '{');
                } else if escaped == '}' {
                    push_char(&mut value, '}');
                } else {
                    let mut message = string_from("unknown escape sequence '\\");
                    push_char(&mut message, escaped);
                    push_char(&mut message, '\'');
                    proof {
                        assert(message@ =~= "unknown escape sequence '\\"@ + seq![escaped, '\'']);
                    }
                    return Err(self.lex_error(message));
                }
            } else {
                push_char(&mut value, c);
                self.advance();
            }
        }

        if self.is_at_end() {
            return Err(self.lex_error(string_from("unterminated string literal")));
        }

        // Consume the closing quote.
        self.advance();

        self.add_token(TokenKind::StringLiteral(value));
        Ok(())
    }

    // ── number literals ─────────────────────────────────────────────────

    /// Scans a number literal; `false` where an integer literal does not
    /// fit in `i64`.
    fn scan_number(&mut self) -> (fits: bool)
        requires
            old(self).ready(),
            old(self).current == old(self).start + 1,
            is_digit(old(self).chars@[old(self).start as int]),
        ensures
            final(self).ready(),
            final(self).chars == old(self).chars,
            final(self).source == old(self).source,
            final(self).start == old(self).start,
            match scan_number(old(self).chars@, old(self).start as int) {
                Step::Emit { kind, end } => fits && final(self).current == end
                    && (tokens_view(final(self).tokens@), final(self).last_was_newline) == push_token(
                        tokens_view(old(self).tokens@),
                        old(self).last_was_newline,
                        token_at(old(self).chars@, old(self).start as int, end, kind),
                    ),
                Step::Overflow => !fits && final(self).tokens@ == old(self).tokens@
                    && final(self).last_was_newline == old(self).last_was_newline,
                _ => false,
            },
    {
        let ghost chars = self.chars@;
        let ghost s = self.start as int;
        proof {
            lemma_digits_end(chars, s + 1);
        }
        // Consume the integer part (the first digit was already consumed by
        // `advance()` in `scan_token`).
        while !self.is_at_end() && '0' <= self.peek() && self.peek() <= '9'
            invariant
                self.ready(),
                self.chars == old(self).chars,
                self.source == old(self).source,
                self.start == old(self).start,
                self.tokens == old(self).tokens,
                self.last_was_newline == old(self).last_was_newline,
                chars == old(self).chars@,
                s + 1 <= self.current,
                digits_end(chars, self.current as int) == digits_end(chars, s + 1),
            decreases self.chars@.len() - self.current,
        {
            self.advance();
        }
        let ghost q = self.current as int;

        // Look for a fractional part.
        let p = self.peek();
        let pn = self.peek_next();
        let is_float = if p == '.' && '0' <= pn && pn <= '9' {
            self.advance(); // consume '.'
            proof {
                lemma_digits_end(chars, q + 2);
            }
            while !self.is_at_end() && '0' <= self.peek() && self.peek() <= '9'
                invariant
                    self.ready(),
                    self.chars == old(self).chars,
                    self.source == old(self).source,
                    self.start == old(self).start,
                    self.tokens == old(self).tokens,
                    self.last_was_newline == old(self).last_was_newline,
                    chars == old(self).chars@,
                    q + 1 <= self.current,
                    digits_end(chars, self.current as int) == digits_end(chars, q + 2),
                decreases self.chars@.len() - self.current,
            {
                self.advance();
            }
            true
        } else {
            false
        };

        if is_float {
            let lexeme = self.current_lexeme();
            self.add_token(TokenKind::FloatLiteral(lexeme));
        } else {
            let ghost d = chars.subrange(s, q);
            proof {
                assert forall|i: int| 0 <= i < d.len() implies is_digit(d[i]) by {
                    assert(d[i] == chars[s + i]);
                }
                lemma_decimal_value_prefix(d, d.len() as int);
                assert(d.take(d.len() as int) =~= d);
            }
            let mut value: i64 = 0;
            let mut i: usize = self.start;
            while i < self.current
                invariant
                    self.ready(),
                    self.chars@ == chars,
                    self.chars == old(self).chars,
                    self.source == old(self).source,
                    self.start == old(self).start,
                    self.tokens == old(self).tokens,
                    self.last_was_newline == old(self).last_was_newline,
                    self.start as int == s,
                    self.current as int == q,
                    s <= i <= q,
                    d == chars.subrange(s, q),
                    forall|j: int| 0 <= j < d.len() ==> is_digit(d[j]),
                    value as int == decimal_value(d.take(i - s)),
                    0 <= value,
                    decimal_value(d) > i64::MAX ==> scan_number(chars, s) is Overflow,
                decreases q - i,
            {
                let c = self.chars[i];
                proof {
                    lemma_decimal_value_prefix(d, i - s + 1);
                    assert(d.take(i - s + 1).drop_last() =~= d.take(i - s));
                    assert(d.take(i - s + 1).last() == c);
                    assert(is_digit(d[i - s]));
                }
                let digit = (c as u32 - '0' as u32) as i64;
                match value.checked_mul(10) {
                    Some(m) => match m.checked_add(digit) {
                        Some(n) => {
                            value = n;
                        },
                        None => {
                            proof {
                                assert(decimal_value(d.take(i - s + 1)) == decimal_value(d.take(i - s)) * 10 + (c as int - '0' as int));
                            }
                            return false;
                        },
                    },
                    None => {
                        proof {
                            assert(decimal_value(d.take(i - s + 1)) == decimal_value(d.take(i - s)) * 10 + (c as int - '0' as int));
                            assert(decimal_value(d.take(i - s + 1)) >= value * 10);
                        }
                        return false;
                    },
                }
                i = i + 1;
            }
            proof {
                assert(d.take(q - s) =~= d);
            }
            self.add_token(TokenKind::IntLiteral(value));
        }
        true
    }

    // ── identifiers / keywords ──────────────────────────────────────────

    fn scan_identifier(&mut self)
        requires
            old(self).ready(),
            old(self).current == old(self).start + 1,
        ensures
            final(self).ready(),
            final(self).chars == old(self).chars,
            final(self).source == old(self).source,
            final(self).start == old(self).start,
            match scan_word(old(self).chars@, old(self).start as int) {
                Step::Emit { kind, end } => final(self).current == end
                    && (tokens_view(final(self).tokens@), final(self).last_was_newline) == push_token(
                        tokens_view(old(self).tokens@),
                        old(self).last_was_newline,
                        token_at(old(self).chars@, old(self).start as int, end, kind),
                    ),
                _ => false,
            },
    {
        let ghost chars = self.chars@;
        let ghost s = self.start as int;
        while !self.is_at_end() && (is_alphanumeric(self.peek()) || self.peek() == '_')
            invariant
                self.ready(),
                self.chars == old(self).chars,
                self.source == old(self).source,
                self.start == old(self).start,
                self.tokens == old(self).tokens,
                self.last_was_newline == old(self).last_was_newline,
                chars == old(self).chars@,
                s + 1 <= self.current,
                ident_end(chars, self.current as int) == ident_end(chars, s + 1),
            decreases self.chars@.len() - self.current,
        {
            self.advance();
        }

        let text = self.current_lexeme();

        let kind = match TokenKind::keyword(text.as_str()) {
            Some(k) => k,
            None => TokenKind::Identifier(text),
        };

        self.add_token(kind);
    }
}

} // verus!
