//! Tokens of the Oneway language.

use vstd::prelude::*;
use crate::error::Span;
use crate::text::{push_signed_decimal, push_str, signed_decimal, string_from};

verus! {

/// The kind of a token, with the value of a literal or identifier.
#[derive(Debug, PartialEq)]
pub enum TokenKind {
    // Literals
    IntLiteral(i64),
    /// A float literal, held as its decimal text (`digits.digits`).
    FloatLiteral(String),
    StringLiteral(String),
    BoolLiteral(bool),

    // Identifier (covers both variable names and type names)
    Identifier(String),

    // Keywords
    Contract,
    Enum,
    Fn,
    Match,
    Mut,
    Pub,
    Struct,
    Use,
    TypeKeyword,
    SelfType,
    Delegates,
    Plus,
    Minus,
    Star,
    Slash,
    Percent,
    EqualEqual,
    BangEqual,
    Less,
    Greater,
    LessEqual,
    GreaterEqual,
    AndAnd,
    OrOr,
    Pipe,
    Bang,
    Equal,
    Arrow,
    FatArrow,
    Dot,
    QuestionMark,
    LeftParen,
    RightParen,
    LeftBrace,
    RightBrace,
    LeftBracket,
    RightBracket,
    Colon,
    Comma,
    Newline,
    Eof,
}

/// The abstract value of a token kind: strings are character sequences and
/// integer literals are mathematical integers.
pub enum SpecTokenKind {
    IntLiteral(int),
    FloatLiteral(Seq<char>),
    StringLiteral(Seq<char>),
    BoolLiteral(bool),
    Identifier(Seq<char>),
    Contract,
    Enum,
    Fn,
    Match,
    Mut,
    Pub,
    Struct,
    Use,
    TypeKeyword,
    SelfType,
    Delegates,
    Plus,
    Minus,
    Star,
    Slash,
    Percent,
    EqualEqual,
    BangEqual,
    Less,
    Greater,
    LessEqual,
    GreaterEqual,
    AndAnd,
    OrOr,
    Pipe,
    Bang,
    Equal,
    Arrow,
    FatArrow,
    Dot,
    QuestionMark,
    LeftParen,
    RightParen,
    LeftBrace,
    RightBrace,
    LeftBracket,
    RightBracket,
    Colon,
    Comma,
    Newline,
    Eof,
}

impl View for TokenKind {
    type V = SpecTokenKind;

    open spec fn view(&self) -> SpecTokenKind {
        match self {
            TokenKind::IntLiteral(v) => SpecTokenKind::IntLiteral(*v as int),
            TokenKind::FloatLiteral(s) => SpecTokenKind::FloatLiteral(s@),
            TokenKind::StringLiteral(s) => SpecTokenKind::StringLiteral(s@),
            TokenKind::BoolLiteral(b) => SpecTokenKind::BoolLiteral(*b),
            TokenKind::Identifier(s) => SpecTokenKind::Identifier(s@),
            TokenKind::Contract => SpecTokenKind::Contract,
            TokenKind::Enum => SpecTokenKind::Enum,
            TokenKind::Fn => SpecTokenKind::Fn,
            TokenKind::Match => SpecTokenKind::Match,
            TokenKind::Mut => SpecTokenKind::Mut,
            TokenKind::Pub => SpecTokenKind::Pub,
            TokenKind::Struct => SpecTokenKind::Struct,
            TokenKind::Use => SpecTokenKind::Use,
            TokenKind::TypeKeyword => SpecTokenKind::TypeKeyword,
            TokenKind::SelfType => SpecTokenKind::SelfType,
            TokenKind::Delegates => SpecTokenKind::Delegates,
            TokenKind::Plus => SpecTokenKind::Plus,
            TokenKind::Minus => SpecTokenKind::Minus,
            TokenKind::Star => SpecTokenKind::Star,
            TokenKind::Slash => SpecTokenKind::Slash,
            TokenKind::Percent => SpecTokenKind::Percent,
            TokenKind::EqualEqual => SpecTokenKind::EqualEqual,
            TokenKind::BangEqual => SpecTokenKind::BangEqual,
            TokenKind::Less => SpecTokenKind::Less,
            TokenKind::Greater => SpecTokenKind::Greater,
            TokenKind::LessEqual => SpecTokenKind::LessEqual,
            TokenKind::GreaterEqual => SpecTokenKind::GreaterEqual,
            TokenKind::AndAnd => SpecTokenKind::AndAnd,
            TokenKind::OrOr => SpecTokenKind::OrOr,
            TokenKind::Pipe => SpecTokenKind::Pipe,
            TokenKind::Bang => SpecTokenKind::Bang,
            TokenKind::Equal => SpecTokenKind::Equal,
            TokenKind::Arrow => SpecTokenKind::Arrow,
            TokenKind::FatArrow => SpecTokenKind::FatArrow,
            TokenKind::Dot => SpecTokenKind::Dot,
            TokenKind::QuestionMark => SpecTokenKind::QuestionMark,
            TokenKind::LeftParen => SpecTokenKind::LeftParen,
            TokenKind::RightParen => SpecTokenKind::RightParen,
            TokenKind::LeftBrace => SpecTokenKind::LeftBrace,
            TokenKind::RightBrace => SpecTokenKind::RightBrace,
            TokenKind::LeftBracket => SpecTokenKind::LeftBracket,
            TokenKind::RightBracket => SpecTokenKind::RightBracket,
            TokenKind::Colon => SpecTokenKind::Colon,
            TokenKind::Comma => SpecTokenKind::Comma,
            TokenKind::Newline => SpecTokenKind::Newline,
            TokenKind::Eof => SpecTokenKind::Eof,
        }
    }
}

impl Clone for TokenKind {
    fn clone(&self) -> (r: Self)
        ensures
            r == *self,
    {
        match self {
            TokenKind::IntLiteral(v) => TokenKind::IntLiteral(*v),
            TokenKind::FloatLiteral(s) => TokenKind::FloatLiteral(s.clone()),
            TokenKind::StringLiteral(s) => TokenKind::StringLiteral(s.clone()),
            TokenKind::BoolLiteral(b) => TokenKind::BoolLiteral(*b),
            TokenKind::Identifier(s) => TokenKind::Identifier(s.clone()),
            TokenKind::Contract => TokenKind::Contract,
            TokenKind::Enum => TokenKind::Enum,
            TokenKind::Fn => TokenKind::Fn,
            TokenKind::Match => TokenKind::Match,
            TokenKind::Mut => TokenKind::Mut,
            TokenKind::Pub => TokenKind::Pub,
            TokenKind::Struct => TokenKind::Struct,
            TokenKind::Use => TokenKind::Use,
            TokenKind::TypeKeyword => TokenKind::TypeKeyword,
            TokenKind::SelfType => TokenKind::SelfType,
            TokenKind::Delegates => TokenKind::Delegates,
            TokenKind::Plus => TokenKind::Plus,
            TokenKind::Minus => TokenKind::Minus,
            TokenKind::Star => TokenKind::Star,
            TokenKind::Slash => TokenKind::Slash,
            TokenKind::Percent => TokenKind::Percent,
            TokenKind::EqualEqual => TokenKind::EqualEqual,
            TokenKind::BangEqual => TokenKind::BangEqual,
            TokenKind::Less => TokenKind::Less,
            TokenKind::Greater => TokenKind::Greater,
            TokenKind::LessEqual => TokenKind::LessEqual,
            TokenKind::GreaterEqual => TokenKind::GreaterEqual,
            TokenKind::AndAnd => TokenKind::AndAnd,
            TokenKind::OrOr => TokenKind::OrOr,
            TokenKind::Pipe => TokenKind::Pipe,
            TokenKind::Bang => TokenKind::Bang,
            TokenKind::Equal => TokenKind::Equal,
            TokenKind::Arrow => TokenKind::Arrow,
            TokenKind::FatArrow => TokenKind::FatArrow,
            TokenKind::Dot => TokenKind::Dot,
            TokenKind::QuestionMark => TokenKind::QuestionMark,
            TokenKind::LeftParen => TokenKind::LeftParen,
            TokenKind::RightParen => TokenKind::RightParen,
            TokenKind::LeftBrace => TokenKind::LeftBrace,
            TokenKind::RightBrace => TokenKind::RightBrace,
            TokenKind::LeftBracket => TokenKind::LeftBracket,
            TokenKind::RightBracket => TokenKind::RightBracket,
            TokenKind::Colon => TokenKind::Colon,
            TokenKind::Comma => TokenKind::Comma,
            TokenKind::Newline => TokenKind::Newline,
            TokenKind::Eof => TokenKind::Eof,
        }
    }
}

/// A token: its kind, where it stands in the source, and its source text.
#[derive(Debug)]
pub struct Token {
    pub kind: TokenKind,
    pub span: Span,
    pub lexeme: String,
}

/// The abstract value of a token.
pub struct SpecToken {
    pub kind: SpecTokenKind,
    pub span: Span,
    pub lexeme: Seq<char>,
}

impl View for Token {
    type V = SpecToken;

    open spec fn view(&self) -> SpecToken {
        SpecToken { kind: self.kind@, span: self.span, lexeme: self.lexeme@ }
    }
}

impl Clone for Token {
    fn clone(&self) -> (r: Self)
        ensures
            r == *self,
    {
        Token { kind: self.kind.clone(), span: self.span, lexeme: self.lexeme.clone() }
    }
}

/// The abstract values of a sequence of tokens.
pub open spec fn tokens_view(ts: Seq<Token>) -> Seq<SpecToken> {
    ts.map_values(|t: Token| t@)
}

/// How a token kind is displayed in token listings and diagnostics.
pub open spec fn display_kind(k: SpecTokenKind) -> Seq<char> {
    match k {
        SpecTokenKind::IntLiteral(v) => "Int("@ + signed_decimal(v) + ")"@,
        SpecTokenKind::FloatLiteral(s) => "Float("@ + s + ")"@,
        SpecTokenKind::StringLiteral(s) => "String(\""@ + s + "\")"@,
        SpecTokenKind::BoolLiteral(b) => if b { "Bool(true)"@ } else { "Bool(false)"@ },
        SpecTokenKind::Identifier(s) => "Identifier("@ + s + ")"@,
        SpecTokenKind::Contract => "contract"@,
        SpecTokenKind::Enum => "enum"@,
        SpecTokenKind::Fn => "fn"@,
        SpecTokenKind::Match => "match"@,
        SpecTokenKind::Mut => "mut"@,
        SpecTokenKind::Pub => "pub"@,
        SpecTokenKind::Struct => "struct"@,
        SpecTokenKind::Use => "use"@,
        SpecTokenKind::TypeKeyword => "type"@,
        SpecTokenKind::SelfType => "Self"@,
        SpecTokenKind::Delegates => "delegates"@,
        SpecTokenKind::Plus => "+"@,
        SpecTokenKind::Minus => "-"@,
        SpecTokenKind::Star => "*"@,
        SpecTokenKind::Slash => "/"@,
        SpecTokenKind::Percent => "%"@,
        SpecTokenKind::EqualEqual => "=="@,
        SpecTokenKind::BangEqual => "!="@,
        SpecTokenKind::Less => "<"@,
        SpecTokenKind::Greater => ">"@,
        SpecTokenKind::LessEqual => "<="@,
        SpecTokenKind::GreaterEqual => ">="@,
        SpecTokenKind::AndAnd => "&&"@,
        SpecTokenKind::OrOr => "||"@,
        SpecTokenKind::Pipe => "|"@,
        SpecTokenKind::Bang => "!"@,
        SpecTokenKind::Equal => "="@,
        SpecTokenKind::Arrow => "->"@,
        SpecTokenKind::FatArrow => "=>"@,
        SpecTokenKind::Dot => "."@,
        SpecTokenKind::QuestionMark => "?"@,
        SpecTokenKind::LeftParen => "("@,
        SpecTokenKind::RightParen => ")"@,
        SpecTokenKind::LeftBrace => "{"@,
        SpecTokenKind::RightBrace => "}"@,
        SpecTokenKind::LeftBracket => "["@,
        SpecTokenKind::RightBracket => "]"@,
        SpecTokenKind::Colon => ":"@,
        SpecTokenKind::Comma => ","@,
        SpecTokenKind::Newline => "Newline"@,
        SpecTokenKind::Eof => "Eof"@,
    }
}

/// The keyword spelled by `s`, if any.
pub open spec fn keyword_kind(s: Seq<char>) -> Option<SpecTokenKind> {
    if s == "contract"@ { Some(SpecTokenKind::Contract) }
    else if s == "enum"@ { Some(SpecTokenKind::Enum) }
    else if s == "fn"@ { Some(SpecTokenKind::Fn) }
    else if s == "match"@ { Some(SpecTokenKind::Match) }
    else if s == "mut"@ { Some(SpecTokenKind::Mut) }
    else if s == "pub"@ { Some(SpecTokenKind::Pub) }
    else if s == "struct"@ { Some(SpecTokenKind::Struct) }
    else if s == "use"@ { Some(SpecTokenKind::Use) }
    else if s == "Self"@ { Some(SpecTokenKind::SelfType) }
    else if s == "delegates"@ { Some(SpecTokenKind::Delegates) }
    else if s == "type"@ { Some(SpecTokenKind::TypeKeyword) }
    else if s == "true"@ { Some(SpecTokenKind::BoolLiteral(true)) }
    else if s == "false"@ { Some(SpecTokenKind::BoolLiteral(false)) }
    else { None }
}

/// The keyword kinds: those that `keyword_kind` gives for a word and that
/// display as that word.
pub open spec fn is_keyword(k: SpecTokenKind) -> bool {
    ||| k is Contract
    ||| k is Enum
    ||| k is Fn
    ||| k is Match
    ||| k is Mut
    ||| k is Pub
    ||| k is Struct
    ||| k is Use
    ||| k is TypeKeyword
    ||| k is SelfType
    ||| k is Delegates
}

/// Keywords round-trip through their display: each keyword kind reads back
/// from the text it is displayed as, and each word that reads as a keyword
/// kind is that kind's display.
pub proof fn lemma_keyword_round_trip(k: SpecTokenKind, s: Seq<char>)
    ensures
        is_keyword(k) ==> keyword_kind(display_kind(k)) == Some(k),
        keyword_kind(s) matches Some(j) ==> (is_keyword(j) ==> display_kind(j) == s),
{
    reveal_strlit("contract");
    reveal_strlit("enum");
    reveal_strlit("fn");
    reveal_strlit("match");
    reveal_strlit("mut");
    reveal_strlit("pub");
    reveal_strlit("struct");
    reveal_strlit("use");
    reveal_strlit("Self");
    reveal_strlit("delegates");
    reveal_strlit("type");
    reveal_strlit("true");
    reveal_strlit("false");
    assert("enum"@.len() != "contract"@.len());
    assert("fn"@.len() != "contract"@.len());
    assert("fn"@.len() != "enum"@.len());
    assert("match"@.len() != "contract"@.len());
    assert("match"@.len() != "enum"@.len());
    assert("match"@.len() != "fn"@.len());
    assert("mut"@.len() != "contract"@.len());
    assert("mut"@.len() != "enum"@.len());
    assert("mut"@.len() != "fn"@.len());
    assert("mut"@.len() != "match"@.len());
    assert("pub"@.len() != "contract"@.len());
    assert("pub"@.len() != "enum"@.len());
    assert("pub"@.len() != "fn"@.len());
    assert("pub"@.len() != "match"@.len());
    assert("pub"@[0] != "mut"@[0]);
    assert("struct"@.len() != "contract"@.len());
    assert("struct"@.len() != "enum"@.len());
    assert("struct"@.len() != "fn"@.len());
    assert("struct"@.len() != "match"@.len());
    assert("struct"@.len() != "mut"@.len());
    assert("struct"@.len() != "pub"@.len());
    assert("use"@.len() != "contract"@.len());
    assert("use"@.len() != "enum"@.len());
    assert("use"@.len() != "fn"@.len());
    assert("use"@.len() != "match"@.len());
    assert("use"@[0] != "mut"@[0]);
    assert("use"@[0] != "pub"@[0]);
    assert("use"@.len() != "struct"@.len());
    assert("Self"@.len() != "contract"@.len());
    assert("Self"@[0] != "enum"@[0]);
    assert("Self"@.len() != "fn"@.len());
    assert("Self"@.len() != "match"@.len());
    assert("Self"@.len() != "mut"@.len());
    assert("Self"@.len() != "pub"@.len());
    assert("Self"@.len() != "struct"@.len());
    assert("Self"@.len() != "use"@.len());
    assert("delegates"@.len() != "contract"@.len());
    assert("delegates"@.len() != "enum"@.len());
    assert("delegates"@.len() != "fn"@.len());
    assert("delegates"@.len() != "match"@.len());
    assert("delegates"@.len() != "mut"@.len());
    assert("delegates"@.len() != "pub"@.len());
    assert("delegates"@.len() != "struct"@.len());
    assert("delegates"@.len() != "use"@.len());
    assert("delegates"@.len() != "Self"@.len());
    assert("type"@.len() != "contract"@.len());
    assert("type"@[0] != "enum"@[0]);
    assert("type"@.len() != "fn"@.len());
    assert("type"@.len() != "match"@.len());
    assert("type"@.len() != "mut"@.len());
    assert("type"@.len() != "pub"@.len());
    assert("type"@.len() != "struct"@.len());
    assert("type"@.len() != "use"@.len());
    assert("type"@[0] != "Self"@[0]);
    assert("type"@.len() != "delegates"@.len());
    assert("true"@.len() != "contract"@.len());
    assert("true"@[0] != "enum"@[0]);
    assert("true"@.len() != "fn"@.len());
    assert("true"@.len() != "match"@.len());
    assert("true"@.len() != "mut"@.len());
    assert("true"@.len() != "pub"@.len());
    assert("true"@.len() != "struct"@.len());
    assert("true"@.len() != "use"@.len());
    assert("true"@[0] != "Self"@[0]);
    assert("true"@.len() != "delegates"@.len());
    assert("true"@[1] != "type"@[1]);
    assert("false"@.len() != "contract"@.len());
    assert("false"@.len() != "enum"@.len());
    assert("false"@.len() != "fn"@.len());
    assert("false"@[0] != "match"@[0]);
    assert("false"@.len() != "mut"@.len());
    assert("false"@.len() != "pub"@.len());
    assert("false"@.len() != "struct"@.len());
    assert("false"@.len() != "use"@.len());
    assert("false"@.len() != "Self"@.len());
    assert("false"@.len() != "delegates"@.len());
    assert("false"@.len() != "type"@.len());
    assert("false"@.len() != "true"@.len());
}

/// Whether two strings hold the same characters.
pub fn str_eq(a: &str, b: &str) -> (r: bool)
    ensures
        r == (a@ == b@),
{
    let va = crate::text::chars_of(a);
    let vb = crate::text::chars_of(b);
    if va.len() != vb.len() {
        return false;
    }
    let mut i: usize = 0;
    while i < va.len()
        invariant
            va@ == a@,
            vb@ == b@,
            va@.len() == vb@.len(),
            i <= va@.len(),
            forall|j: int| 0 <= j < i ==> va@[j] == vb@[j],
        decreases va@.len() - i,
    {
        if va[i] != vb[i] {
            return false;
        }
        i = i + 1;
    }
    assert(va@ =~= vb@);
    true
}

impl TokenKind {
    /// Maps a keyword string to its corresponding `TokenKind`, or returns `None`
    /// if the string is not a recognized keyword.
    pub fn keyword(s: &str) -> (r: Option<TokenKind>)
        ensures
            match r {
                Some(k) => keyword_kind(s@) == Some(k@),
                None => keyword_kind(s@) is None,
            },
    {
        if str_eq(s, "contract") {
            Some(TokenKind::Contract)
        } else if str_eq(s, "enum") {
            Some(TokenKind::Enum)
        } else if str_eq(s, "fn") {
            Some(TokenKind::Fn)
        } else if str_eq(s, "match") {
            Some(TokenKind::Match)
        } else if str_eq(s, "mut") {
            Some(TokenKind::Mut)
        } else if str_eq(s, "pub") {
            Some(TokenKind::Pub)
        } else if str_eq(s, "struct") {
            Some(TokenKind::Struct)
        } else if str_eq(s, "use") {
            Some(TokenKind::Use)
        } else if str_eq(s, "Self") {
            Some(TokenKind::SelfType)
        } else if str_eq(s, "delegates") {
            Some(TokenKind::Delegates)
        } else if str_eq(s, "type") {
            Some(TokenKind::TypeKeyword)
        } else if str_eq(s, "true") {
            Some(TokenKind::BoolLiteral(true))
        } else if str_eq(s, "false") {
            Some(TokenKind::BoolLiteral(false))
        } else {
            None
        }
    }

    /// The text under which this kind is displayed.
    pub fn to_display_string(&self) -> (r: String)
        ensures
            r@ == display_kind(self@),
    {
        match self {
            TokenKind::IntLiteral(v) => {
                let mut out = string_from("Int(");
                push_signed_decimal(&mut out, *v);
                push_str(&mut out, ")");
                out
            },
            TokenKind::FloatLiteral(s) => {
                let mut out = string_from("Float(");
                push_str(&mut out, s.as_str());
                push_str(&mut out, ")");
                out
            },
            TokenKind::StringLiteral(s) => {
                let mut out = string_from("String(\"");
                push_str(&mut out, s.as_str());
                push_str(&mut out, "\")");
                out
            },
            TokenKind::BoolLiteral(b) => if *b { string_from("Bool(true)") } else { string_from("Bool(false)") },
            TokenKind::Identifier(s) => {
                let mut out = string_from("Identifier(");
                push_str(&mut out, s.as_str());
                push_str(&mut out, ")");
                out
            },
            TokenKind::Contract => string_from("contract"),
            TokenKind::Enum => string_from("enum"),
            TokenKind::Fn => string_from("fn"),
            TokenKind::Match => string_from("match"),
            TokenKind::Mut => string_from("mut"),
            TokenKind::Pub => string_from("pub"),
            TokenKind::Struct => string_from("struct"),
            TokenKind::Use => string_from("use"),
            TokenKind::TypeKeyword => string_from("type"),
            TokenKind::SelfType => string_from("Self"),
            TokenKind::Delegates => string_from("delegates"),
            TokenKind::Plus => string_from("+"),
            TokenKind::Minus => string_from("-"),
            TokenKind::Star => string_from("*"),
            TokenKind::Slash => string_from("/"),
            TokenKind::Percent => string_from("%"),
            TokenKind::EqualEqual => string_from("=="),
            TokenKind::BangEqual => string_from("!="),
            TokenKind::Less => string_from("<"),
            TokenKind::Greater => string_from(">"),
            TokenKind::LessEqual => string_from("<="),
            TokenKind::GreaterEqual => string_from(">="),
            TokenKind::AndAnd => string_from("&&"),
            TokenKind::OrOr => string_from("||"),
            TokenKind::Pipe => string_from("|"),
            TokenKind::Bang => string_from("!"),
            TokenKind::Equal => string_from("="),
            TokenKind::Arrow => string_from("->"),
            TokenKind::FatArrow => string_from("=>"),
            TokenKind::Dot => string_from("."),
            TokenKind::QuestionMark => string_from("?"),
            TokenKind::LeftParen => string_from("("),
            TokenKind::RightParen => string_from(")"),
            TokenKind::LeftBrace => string_from("{"),
            TokenKind::RightBrace => string_from("}"),
            TokenKind::LeftBracket => string_from("["),
            TokenKind::RightBracket => string_from("]"),
            TokenKind::Colon => string_from(":"),
            TokenKind::Comma => string_from(","),
            TokenKind::Newline => string_from("Newline"),
            TokenKind::Eof => string_from("Eof"),
        }
    }
}

} // verus!
