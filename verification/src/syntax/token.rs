//! Tokens of the current grammar: a kind without data, the text it was
//! read from, and its span.

use vstd::prelude::*;
use crate::error::Span;
use crate::text::string_from;

verus! {

/// The kind of a token.
#[derive(Debug, Clone, Copy, PartialEq, Eq, Structural)]
pub enum TokenKind {
    KwUse,
    KwExtern,
    KwMut,
    KwSelf,
    KwMatch,
    KwWhile,
    Ident,
    StringLit,
    IntLit,
    FloatLit,
    HexLit,
    Dot,
    Comma,
    Colon,
    ColonColon,
    Eq,
    Lt,
    Gt,
    LParen,
    RParen,
    LBrace,
    RBrace,
    LBracket,
    RBracket,
    Arrow,
    FatArrow,
    Pipe,
    Amp,
    Ellipsis,
    Question,
    Newline,
    Eof,
}

/// How a token kind is named in messages: keywords and punctuation by
/// their text, the other kinds by name.
pub open spec fn kind_text(k: TokenKind) -> Seq<char> {
    match k {
        TokenKind::KwUse => "use"@,
        TokenKind::KwExtern => "extern"@,
        TokenKind::KwMut => "mut"@,
        TokenKind::KwSelf => "Self"@,
        TokenKind::KwMatch => "match"@,
        TokenKind::KwWhile => "while"@,
        TokenKind::Ident => "Ident"@,
        TokenKind::StringLit => "StringLit"@,
        TokenKind::IntLit => "IntLit"@,
        TokenKind::FloatLit => "FloatLit"@,
        TokenKind::HexLit => "HexLit"@,
        TokenKind::Dot => "."@,
        TokenKind::Comma => ","@,
        TokenKind::Colon => ":"@,
        TokenKind::ColonColon => "::"@,
        TokenKind::Eq => "="@,
        TokenKind::Lt => "<"@,
        TokenKind::Gt => ">"@,
        TokenKind::LParen => "("@,
        TokenKind::RParen => ")"@,
        TokenKind::LBrace => "{"@,
        TokenKind::RBrace => "}"@,
        TokenKind::LBracket => "["@,
        TokenKind::RBracket => "]"@,
        TokenKind::Arrow => "->"@,
        TokenKind::FatArrow => "=>"@,
        TokenKind::Pipe => "|"@,
        TokenKind::Amp => "&"@,
        TokenKind::Ellipsis => "..."@,
        TokenKind::Question => "?"@,
        TokenKind::Newline => "Newline"@,
        TokenKind::Eof => "Eof"@,
    }
}

impl TokenKind {
    /// The name of the kind in messages.
    pub fn to_display_string(&self) -> (r: String)
        ensures
            r@ == kind_text(*self),
    {
        match self {
            TokenKind::KwUse => string_from("use"),
            TokenKind::KwExtern => string_from("extern"),
            TokenKind::KwMut => string_from("mut"),
            TokenKind::KwSelf => string_from("Self"),
            TokenKind::KwMatch => string_from("match"),
            TokenKind::KwWhile => string_from("while"),
            TokenKind::Ident => string_from("Ident"),
            TokenKind::StringLit => string_from("StringLit"),
            TokenKind::IntLit => string_from("IntLit"),
            TokenKind::FloatLit => string_from("FloatLit"),
            TokenKind::HexLit => string_from("HexLit"),
            TokenKind::Dot => string_from("."),
            TokenKind::Comma => string_from(","),
            TokenKind::Colon => string_from(":"),
            TokenKind::ColonColon => string_from("::"),
            TokenKind::Eq => string_from("="),
            TokenKind::Lt => string_from("<"),
            TokenKind::Gt => string_from(">"),
            TokenKind::LParen => string_from("("),
            TokenKind::RParen => string_from(")"),
            TokenKind::LBrace => string_from("{"),
            TokenKind::RBrace => string_from("}"),
            TokenKind::LBracket => string_from("["),
            TokenKind::RBracket => string_from("]"),
            TokenKind::Arrow => string_from("->"),
            TokenKind::FatArrow => string_from("=>"),
            TokenKind::Pipe => string_from("|"),
            TokenKind::Amp => string_from("&"),
            TokenKind::Ellipsis => string_from("..."),
            TokenKind::Question => string_from("?"),
            TokenKind::Newline => string_from("Newline"),
            TokenKind::Eof => string_from("Eof"),
        }
    }
}

/// A token: its kind, its span, and the source text it was read from.
#[derive(Debug)]
pub struct Token {
    pub kind: TokenKind,
    pub span: Span,
    pub lexeme: String,
}

/// The abstract value of a token.
pub struct SpecToken {
    pub kind: TokenKind,
    pub span: Span,
    pub lexeme: Seq<char>,
}

impl View for Token {
    type V = SpecToken;

    open spec fn view(&self) -> SpecToken {
        SpecToken { kind: self.kind, span: self.span, lexeme: self.lexeme@ }
    }
}

impl Clone for Token {
    fn clone(&self) -> (r: Self)
        ensures
            r@ == self@,
    {
        Token { kind: self.kind, span: self.span, lexeme: self.lexeme.clone() }
    }
}

/// The abstract values of a token list.
pub open spec fn tokens_view(ts: Seq<Token>) -> Seq<SpecToken> {
    ts.map_values(|t: Token| t@)
}

} // verus!
