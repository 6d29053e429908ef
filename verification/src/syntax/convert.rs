//! Between the forms: the scanner's tokens as the current grammar reads
//! them, and the parsed tree as the checker reads it.

use vstd::prelude::*;
use crate::ast;
use crate::error::{OnewayError, Phase, SpecError};
use crate::lexer::token::{display_kind, SpecToken as ScannedToken, SpecTokenKind, Token as Scanned, TokenKind as ScannedKind};
use crate::syntax::token::{tokens_view, SpecToken, Token, TokenKind};
use crate::syntax::tree::{Expr, Item, Module, TypeExpr};
use crate::text::{push_str, string_from};

verus! {

// ── tokens ──────────────────────────────────────────────────────────────

/// The grammar's kind for a scanned kind, where the grammar has one.
pub open spec fn grammar_kind(k: SpecTokenKind) -> Option<TokenKind> {
    match k {
        SpecTokenKind::IntLiteral(_) => Some(TokenKind::IntLit),
        SpecTokenKind::FloatLiteral(_) => Some(TokenKind::FloatLit),
        SpecTokenKind::StringLiteral(_) => Some(TokenKind::StringLit),
        SpecTokenKind::Identifier(_) => Some(TokenKind::Ident),
        SpecTokenKind::Match => Some(TokenKind::KwMatch),
        SpecTokenKind::Mut => Some(TokenKind::KwMut),
        SpecTokenKind::Use => Some(TokenKind::KwUse),
        SpecTokenKind::SelfType => Some(TokenKind::KwSelf),
        SpecTokenKind::Less => Some(TokenKind::Lt),
        SpecTokenKind::Greater => Some(TokenKind::Gt),
        SpecTokenKind::Pipe => Some(TokenKind::Pipe),
        SpecTokenKind::Equal => Some(TokenKind::Eq),
        SpecTokenKind::Arrow => Some(TokenKind::Arrow),
        SpecTokenKind::FatArrow => Some(TokenKind::FatArrow),
        SpecTokenKind::Dot => Some(TokenKind::Dot),
        SpecTokenKind::QuestionMark => Some(TokenKind::Question),
        SpecTokenKind::LeftParen => Some(TokenKind::LParen),
        SpecTokenKind::RightParen => Some(TokenKind::RParen),
        SpecTokenKind::LeftBrace => Some(TokenKind::LBrace),
        SpecTokenKind::RightBrace => Some(TokenKind::RBrace),
        SpecTokenKind::LeftBracket => Some(TokenKind::LBracket),
        SpecTokenKind::RightBracket => Some(TokenKind::RBracket),
        SpecTokenKind::Colon => Some(TokenKind::Colon),
        SpecTokenKind::Comma => Some(TokenKind::Comma),
        SpecTokenKind::Newline => Some(TokenKind::Newline),
        SpecTokenKind::Eof => Some(TokenKind::Eof),
        _ => None,
    }
}

/// The grammar's token for a scanned token: a string literal's text is its
/// value, any other token's its source text.
pub open spec fn grammar_token(t: ScannedToken, k: TokenKind) -> SpecToken {
    SpecToken {
        kind: k,
        span: t.span,
        lexeme: match t.kind {
            SpecTokenKind::StringLiteral(v) => v,
            _ => t.lexeme,
        },
    }
}

/// The error for a scanned token the grammar has no place for.
pub open spec fn stray_token(t: ScannedToken) -> SpecError {
    SpecError { phase: Phase::Parse, message: "unexpected token "@ + display_kind(t.kind), span: t.span }
}

fn kind_in_grammar(k: &ScannedKind) -> (r: Option<TokenKind>)
    ensures
        r == grammar_kind(k@),
{
    match k {
        ScannedKind::IntLiteral(_) => Some(TokenKind::IntLit),
        ScannedKind::FloatLiteral(_) => Some(TokenKind::FloatLit),
        ScannedKind::StringLiteral(_) => Some(TokenKind::StringLit),
        ScannedKind::Identifier(_) => Some(TokenKind::Ident),
        ScannedKind::Match => Some(TokenKind::KwMatch),
        ScannedKind::Mut => Some(TokenKind::KwMut),
        ScannedKind::Use => Some(TokenKind::KwUse),
        ScannedKind::SelfType => Some(TokenKind::KwSelf),
        ScannedKind::Less => Some(TokenKind::Lt),
        ScannedKind::Greater => Some(TokenKind::Gt),
        ScannedKind::Pipe => Some(TokenKind::Pipe),
        ScannedKind::Equal => Some(TokenKind::Eq),
        ScannedKind::Arrow => Some(TokenKind::Arrow),
        ScannedKind::FatArrow => Some(TokenKind::FatArrow),
        ScannedKind::Dot => Some(TokenKind::Dot),
        ScannedKind::QuestionMark => Some(TokenKind::Question),
        ScannedKind::LeftParen => Some(TokenKind::LParen),
        ScannedKind::RightParen => Some(TokenKind::RParen),
        ScannedKind::LeftBrace => Some(TokenKind::LBrace),
        ScannedKind::RightBrace => Some(TokenKind::RBrace),
        ScannedKind::LeftBracket => Some(TokenKind::LBracket),
        ScannedKind::RightBracket => Some(TokenKind::RBracket),
        ScannedKind::Colon => Some(TokenKind::Colon),
        ScannedKind::Comma => Some(TokenKind::Comma),
        ScannedKind::Newline => Some(TokenKind::Newline),
        ScannedKind::Eof => Some(TokenKind::Eof),
        _ => None,
    }
}

/// The scanned tokens as the grammar reads them; an error at the first
/// token the grammar has no kind for.
pub fn to_grammar_tokens(tokens: &Vec<Scanned>) -> (r: Result<Vec<Token>, OnewayError>)
    ensures
        match r {
            Ok(out) => out@.len() == tokens@.len() && forall|i: int| 0 <= i < tokens@.len() ==> {
                &&& grammar_kind((#[trigger] tokens@[i])@.kind) is Some
                &&& out@[i]@ == grammar_token(tokens@[i]@, grammar_kind(tokens@[i]@.kind)->0)
            },
            Err(e) => exists|i: int| 0 <= i < tokens@.len() && {
                &&& grammar_kind((#[trigger] tokens@[i])@.kind) is None
                &&& forall|j: int| 0 <= j < i ==> grammar_kind(tokens@[j]@.kind) is Some
                &&& e@ == stray_token(tokens@[i]@)
            },
        },
{
    let mut out: Vec<Token> = Vec::new();
    let mut i: usize = 0;
    while i < tokens.len()
        invariant
            i <= tokens@.len(),
            out@.len() == i,
            forall|j: int| 0 <= j < i ==> {
                &&& grammar_kind((#[trigger] tokens@[j])@.kind) is Some
                &&& out@[j]@ == grammar_token(tokens@[j]@, grammar_kind(tokens@[j]@.kind)->0)
            },
        decreases tokens@.len() - i,
    {
        let t = &tokens[i];
        match kind_in_grammar(&t.kind) {
            Some(kind) => {
                let lexeme = match &t.kind {
                    ScannedKind::StringLiteral(v) => v.clone(),
                    _ => t.lexeme.clone(),
                };
                out.push(Token { kind, span: t.span, lexeme });
            },
            None => {
                let mut message = string_from("unexpected token ");
                let k = t.kind.to_display_string();
                push_str(&mut message, k.as_str());
                return Err(OnewayError::ParseError { message, span: t.span });
            },
        }
        i = i + 1;
    }
    Ok(out)
}

// ── the checker's tree ──────────────────────────────────────────────────

/// A type the checker reads: a name without generic arguments.
pub open spec fn plain_type(t: TypeExpr) -> bool {
    match t {
        TypeExpr::Named { generics, .. } => generics@.len() == 0,
        _ => false,
    }
}

/// An expression the checker reads: names, string literals, and method
/// calls without type arguments on such expressions.
pub open spec fn checkable(e: Expr) -> bool
    decreases e,
{
    match e {
        Expr::Ident(_) => true,
        Expr::StringLit { .. } => true,
        Expr::MethodCall { receiver, type_args, args, .. } => type_args@.len() == 0 && checkable(*receiver)
            && all_checkable(args@),
        _ => false,
    }
}

pub open spec fn all_checkable(es: Seq<Expr>) -> bool
    decreases es,
{
    if es.len() == 0 {
        true
    } else {
        all_checkable(es.drop_last()) && checkable(es.last())
    }
}

/// Whether the checker's expression stands for the parsed one.
pub open spec fn same_expr(e: Expr, c: ast::Expr) -> bool
    decreases e,
{
    match (e, c) {
        (Expr::Ident(i), ast::Expr::Ident(j)) => i.name@ == j.name@ && i.span == j.span,
        (Expr::StringLit { value, span }, ast::Expr::StringLit { value: v2, span: s2 }) => value@ == v2@ && span == s2,
        (
            Expr::MethodCall { receiver, method, args, span, .. },
            ast::Expr::MethodCall { receiver: r2, method: m2, args: a2, span: s2 },
        ) => method.name@ == m2.name@ && method.span == m2.span && span == s2 && same_expr(*receiver, *r2) && same_exprs(
            args@,
            a2@,
        ),
        _ => false,
    }
}

pub open spec fn same_exprs(es: Seq<Expr>, cs: Seq<ast::Expr>) -> bool
    decreases es,
{
    es.len() == cs.len() && (es.len() == 0 || (same_exprs(es.drop_last(), cs.drop_last()) && same_expr(
        es.last(),
        cs.last(),
    )))
}

pub open spec fn same_type(t: TypeExpr, c: ast::TypeExpr) -> bool {
    match t {
        TypeExpr::Named { name, span, .. } => name@ == c.name@ && span == c.span,
        _ => false,
    }
}

/// A function the checker reads: plain types, checkable expressions.
pub open spec fn checkable_item(i: Item) -> bool {
    match i {
        Item::Function(f) => {
            &&& plain_type(f.return_ty)
            &&& forall|k: int| 0 <= k < f.params@.len() ==> plain_type(#[trigger] f.params@[k].ty)
            &&& all_checkable(f.body.exprs@)
        },
        _ => false,
    }
}

/// Whether the checker's function stands for the parsed item.
pub open spec fn same_item(i: Item, c: ast::Item) -> bool {
    match (i, c) {
        (Item::Function(f), ast::Item::Function(g)) => {
            &&& match (f.receiver, g.receiver) {
                (Some(a), Some(b)) => a.name@ == b.name@ && a.span == b.span,
                (None, None) => true,
                _ => false,
            }
            &&& f.name.name@ == g.name.name@ && f.name.span == g.name.span
            &&& f.params@.len() == g.params@.len()
            &&& forall|k: int| 0 <= k < f.params@.len() ==> {
                &&& same_type((#[trigger] f.params@[k]).ty, g.params@[k].ty)
                &&& f.params@[k].mutable == g.params@[k].mutable
                &&& f.params@[k].span == g.params@[k].span
            }
            &&& same_type(f.return_ty, g.return_ty)
            &&& same_exprs(f.body.exprs@, g.body.exprs@) && f.body.span == g.body.span
            &&& f.span == g.span
        },
        _ => false,
    }
}

proof fn lemma_all_checkable(es: Seq<Expr>, i: int)
    requires
        all_checkable(es),
        0 <= i < es.len(),
    ensures
        checkable(es[i]),
    decreases es.len(),
{
    if i < es.len() - 1 {
        lemma_all_checkable(es.drop_last(), i);
    }
}

fn ident_copy(i: &crate::syntax::tree::Ident) -> (r: ast::Ident)
    ensures
        r.name@ == i.name@,
        r.span == i.span,
{
    ast::Ident { name: i.name.clone(), span: i.span }
}

fn type_copy(t: &TypeExpr) -> (r: Option<ast::TypeExpr>)
    ensures
        match r {
            Some(c) => plain_type(*t) && same_type(*t, c),
            None => !plain_type(*t),
        },
{
    match t {
        TypeExpr::Named { name, generics, span } => {
            if generics.len() == 0 {
                Some(ast::TypeExpr { name: name.clone(), span: *span })
            } else {
                None
            }
        },
        _ => None,
    }
}

fn expr_copy(e: &Expr) -> (r: Option<ast::Expr>)
    ensures
        match r {
            Some(c) => checkable(*e) && same_expr(*e, c),
            None => !checkable(*e),
        },
    decreases e,
{
    match e {
        Expr::Ident(i) => Some(ast::Expr::Ident(ident_copy(i))),
        Expr::StringLit { value, span } => Some(ast::Expr::StringLit { value: value.clone(), span: *span }),
        Expr::MethodCall { receiver, method, type_args, args, span } => {
            if type_args.len() != 0 {
                return None;
            }
            let r = match expr_copy(receiver) {
                Some(r) => r,
                None => return None,
            };
            let mut cs: Vec<ast::Expr> = Vec::new();
            let mut k: usize = 0;
            while k < args.len()
                invariant
                    k <= args@.len(),
                    cs@.len() == k,
                    *e == (Expr::MethodCall { receiver: *receiver, method: *method, type_args: *type_args, args: *args, span: *span }),
                    all_checkable(args@.take(k as int)),
                    same_exprs(args@.take(k as int), cs@),
                decreases args@.len() - k,
            {
                proof {
                    assert(decreases_to!(*e => (*e)->MethodCall_args));
                    vstd::std_specs::vec::axiom_vec_index_decreases(*args, k as int);
                }
                let c = match expr_copy(&args[k]) {
                    Some(c) => c,
                    None => {
                        proof {
                            if all_checkable(args@) {
                                lemma_all_checkable(args@, k as int);
                            }
                        }
                        return None;
                    },
                };
                let ghost before = cs@;
                cs.push(c);
                proof {
                    assert(args@.take(k + 1).drop_last() =~= args@.take(k as int));
                    assert(cs@.drop_last() =~= before);
                }
                k = k + 1;
            }
            proof {
                assert(args@.take(k as int) =~= args@);
            }
            Some(ast::Expr::MethodCall { receiver: Box::new(r), method: ident_copy(method), args: cs, span: *span })
        },
        _ => None,
    }
}

/// The module as the checker reads it, where every item is a function
/// of plain types and checkable expressions.
pub fn to_checker_module(m: &Module) -> (r: Option<ast::Module>)
    ensures
        match r {
            Some(c) => c.span == m.span && c.items@.len() == m.items@.len() && forall|i: int| 0 <= i < m.items@.len() ==> {
                &&& checkable_item(#[trigger] m.items@[i])
                &&& same_item(m.items@[i], c.items@[i])
            },
            None => exists|i: int| 0 <= i < m.items@.len() && !checkable_item(#[trigger] m.items@[i]),
        },
{
    let mut items: Vec<ast::Item> = Vec::new();
    let mut i: usize = 0;
    while i < m.items.len()
        invariant
            i <= m.items@.len(),
            items@.len() == i,
            forall|j: int| 0 <= j < i ==> {
                &&& checkable_item(#[trigger] m.items@[j])
                &&& same_item(m.items@[j], items@[j])
            },
        decreases m.items@.len() - i,
    {
        let f = match &m.items[i] {
            Item::Function(f) => f,
            _ => {
                assert(!checkable_item(m.items@[i as int]));
                return None;
            },
        };
        let return_ty = match type_copy(&f.return_ty) {
            Some(t) => t,
            None => {
                assert(!checkable_item(m.items@[i as int]));
                return None;
            },
        };
        let mut params: Vec<ast::Param> = Vec::new();
        let mut k: usize = 0;
        while k < f.params.len()
            invariant
                k <= f.params@.len(),
                i < m.items@.len(),
                m.items@[i as int] == Item::Function(*f),
                params@.len() == k,
                forall|j: int| 0 <= j < k ==> {
                    &&& plain_type(#[trigger] f.params@[j].ty)
                    &&& same_type(f.params@[j].ty, params@[j].ty)
                    &&& f.params@[j].mutable == params@[j].mutable
                    &&& f.params@[j].span == params@[j].span
                },
            decreases f.params@.len() - k,
        {
            let p = &f.params[k];
            let ty = match type_copy(&p.ty) {
                Some(t) => t,
                None => {
                    assert(!checkable_item(m.items@[i as int]));
                    return None;
                },
            };
            params.push(ast::Param { ty, mutable: p.mutable, span: p.span });
            k = k + 1;
        }
        let mut exprs: Vec<ast::Expr> = Vec::new();
        let mut k: usize = 0;
        while k < f.body.exprs.len()
            invariant
                k <= f.body.exprs@.len(),
                i < m.items@.len(),
                m.items@[i as int] == Item::Function(*f),
                exprs@.len() == k,
                all_checkable(f.body.exprs@.take(k as int)),
                same_exprs(f.body.exprs@.take(k as int), exprs@),
            decreases f.body.exprs@.len() - k,
        {
            let c = match expr_copy(&f.body.exprs[k]) {
                Some(c) => c,
                None => {
                    proof {
                        if all_checkable(f.body.exprs@) {
                            lemma_all_checkable(f.body.exprs@, k as int);
                        }
                    }
                    assert(!checkable_item(m.items@[i as int]));
                    return None;
                },
            };
            let ghost before = exprs@;
            exprs.push(c);
            proof {
                assert(f.body.exprs@.take(k + 1).drop_last() =~= f.body.exprs@.take(k as int));
                assert(exprs@.drop_last() =~= before);
            }
            k = k + 1;
        }
        proof {
            assert(f.body.exprs@.take(k as int) =~= f.body.exprs@);
        }
        let receiver = match &f.receiver {
            Some(r) => Some(ident_copy(r)),
            None => None,
        };
        items.push(ast::Item::Function(ast::FunctionDef {
            receiver,
            name: ident_copy(&f.name),
            params,
            return_ty,
            body: ast::Block { exprs, span: f.body.span },
            span: f.span,
        }));
        i = i + 1;
    }
    Some(ast::Module { items, span: m.span })
}

} // verus!
