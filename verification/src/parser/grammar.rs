//! The grammar of the current Oneway syntax, as functions from a token
//! list and a position to what the parser builds there and the position
//! after it, or the error it reports.
//!
//! Every rule consumes at least one token when it succeeds; where a rule
//! goes on from a position that another rule returned, it first checks
//! that the position moved forward (`advanced`), which is what makes the
//! definitions terminate. The check never fails on what the rules return.

use vstd::prelude::*;
use crate::error::{Phase, SpecError, Span};
use crate::parser::literals::{float_text, i64_text, unsigned_text, without_hex_prefixes};
use crate::syntax::token::{kind_text, SpecToken, TokenKind};
use crate::syntax::tree::{
    SpecArm, SpecBlock, SpecExpr, SpecExtern, SpecFunction, SpecGenericParam, SpecIdent, SpecItem,
    SpecModule, SpecParam, SpecPattern, SpecType, SpecTypeDef, SpecUse,
};

verus! {

/// A rule's outcome: the value and the position after it, or an error.
pub type Parsed<A> = Result<(A, int), SpecError>;

/// Tokens the parser accepts: at least one, the last being `Eof`.
pub open spec fn tokens_wf(t: Seq<SpecToken>) -> bool {
    t.len() > 0 && t.last().kind == TokenKind::Eof
}

pub open spec fn parse_error(message: Seq<char>, span: Span) -> SpecError {
    SpecError { phase: Phase::Parse, message, span }
}

/// The error for a message about the token at `p`: the message, then the
/// kind found, at that token's span.
pub open spec fn got(t: Seq<SpecToken>, p: int, msg: Seq<char>) -> SpecError {
    parse_error(msg + " (got "@ + kind_text(t[p].kind) + ")"@, t[p].span)
}

/// The token at `p` if it has kind `k`.
pub open spec fn expect(t: Seq<SpecToken>, p: int, k: TokenKind, msg: Seq<char>) -> Parsed<SpecToken> {
    if t[p].kind == k {
        Ok((t[p], p + 1))
    } else {
        Err(got(t, p, msg))
    }
}

/// The first position at or after `p` that is not a newline.
pub open spec fn skip_newlines(t: Seq<SpecToken>, p: int) -> int
    decreases t.len() - p,
{
    if 0 <= p < t.len() && t[p].kind == TokenKind::Newline {
        skip_newlines(t, p + 1)
    } else {
        p
    }
}

pub proof fn lemma_skip_newlines(t: Seq<SpecToken>, p: int)
    ensures
        p <= skip_newlines(t, p),
        p <= t.len() ==> skip_newlines(t, p) <= t.len(),
        tokens_wf(t) && 0 <= p < t.len() ==> skip_newlines(t, p) < t.len(),
        0 <= p ==> (skip_newlines(t, p) < t.len() ==> t[skip_newlines(t, p)].kind != TokenKind::Newline),
    decreases t.len() - p,
{
    if 0 <= p < t.len() && t[p].kind == TokenKind::Newline {
        lemma_skip_newlines(t, p + 1);
    }
}

/// The span of the token before `p` (of the first token at the start).
pub open spec fn previous_span(t: Seq<SpecToken>, p: int) -> Span {
    if p == 0 {
        t[0].span
    } else {
        t[p - 1].span
    }
}

/// The span covering `a` and `b`, located where `a` is.
pub open spec fn span_join(a: Span, b: Span) -> Span {
    Span {
        start: if a.start <= b.start { a.start } else { b.start },
        end: if a.end >= b.end { a.end } else { b.end },
        line: a.line,
        column: a.column,
    }
}

pub open spec fn ident_of(tok: SpecToken) -> SpecIdent {
    SpecIdent { name: tok.lexeme, span: tok.span }
}

/// Whether `q` lies after `p` and within the tokens.
pub open spec fn advanced(t: Seq<SpecToken>, p: int, q: int) -> bool {
    p < q < t.len()
}

/// The outcome where a rule would go on without having moved.
pub open spec fn stalled(t: Seq<SpecToken>, p: int) -> SpecError {
    parse_error(Seq::empty(), t[p].span)
}

pub open spec fn type_span(ty: SpecType) -> Span {
    match ty {
        SpecType::Named { span, .. } => span,
        SpecType::Union { span, .. } => span,
        SpecType::Product { span, .. } => span,
        SpecType::Spread { span, .. } => span,
        SpecType::Repeat { span, .. } => span,
        SpecType::Function { span, .. } => span,
    }
}

pub open spec fn expr_span(e: SpecExpr) -> Span {
    match e {
        SpecExpr::Ident(i) => i.span,
        SpecExpr::StringLit { span, .. } => span,
        SpecExpr::IntLit { span, .. } => span,
        SpecExpr::FloatLit { span, .. } => span,
        SpecExpr::HexLit { span, .. } => span,
        SpecExpr::Constructor { span, .. } => span,
        SpecExpr::MethodCall { span, .. } => span,
        SpecExpr::Try { span, .. } => span,
        SpecExpr::Lambda { span, .. } => span,
        SpecExpr::While { span, .. } => span,
        SpecExpr::Match { span, .. } => span,
    }
}

pub open spec fn pattern_span(p: SpecPattern) -> Span {
    match p {
        SpecPattern::Wildcard { span } => span,
        SpecPattern::Variant { span, .. } => span,
    }
}

// ── types ───────────────────────────────────────────────────────────────

/// type ::= union
pub open spec fn p_type(t: Seq<SpecToken>, p: int) -> Parsed<SpecType>
    decreases t.len() - p, 6int,
    when 0 <= p < t.len()
{
    p_union(t, p)
}

/// union ::= product ('|' newline* product)*
pub open spec fn p_union(t: Seq<SpecToken>, p: int) -> Parsed<SpecType>
    decreases t.len() - p, 5int,
    when 0 <= p < t.len()
{
    match p_product(t, p) {
        Err(e) => Err(e),
        Ok((first, q)) => if t[q].kind != TokenKind::Pipe {
            Ok((first, q))
        } else if !advanced(t, p, q) {
            Err(stalled(t, p))
        } else {
            union_rest(t, q, seq![first], t[p].span)
        },
    }
}

/// The `| product` parts of a union after the first.
pub open spec fn union_rest(t: Seq<SpecToken>, p: int, acc: Seq<SpecType>, start: Span) -> Parsed<SpecType>
    decreases t.len() - p, 1int,
    when 0 <= p < t.len()
{
    if t[p].kind == TokenKind::Pipe {
        let p1 = skip_newlines(t, p + 1);
        proof {
            lemma_skip_newlines(t, p + 1);
        }
        match p_product(t, p1) {
            Err(e) => Err(e),
            Ok((x, q)) => if !advanced(t, p, q) {
                Err(stalled(t, p))
            } else {
                union_rest(t, q, acc.push(x), start)
            },
        }
    } else {
        Ok((SpecType::Union { variants: acc, span: span_join(start, previous_span(t, p)) }, p))
    }
}

/// product ::= spread ('&' newline* spread)*
pub open spec fn p_product(t: Seq<SpecToken>, p: int) -> Parsed<SpecType>
    decreases t.len() - p, 4int,
    when 0 <= p < t.len()
{
    match p_spread(t, p) {
        Err(e) => Err(e),
        Ok((first, q)) => if t[q].kind != TokenKind::Amp {
            Ok((first, q))
        } else if !advanced(t, p, q) {
            Err(stalled(t, p))
        } else {
            product_rest(t, q, seq![first], t[p].span)
        },
    }
}

/// The `& spread` parts of a product after the first.
pub open spec fn product_rest(t: Seq<SpecToken>, p: int, acc: Seq<SpecType>, start: Span) -> Parsed<SpecType>
    decreases t.len() - p, 1int,
    when 0 <= p < t.len()
{
    if t[p].kind == TokenKind::Amp {
        let p1 = skip_newlines(t, p + 1);
        proof {
            lemma_skip_newlines(t, p + 1);
        }
        match p_spread(t, p1) {
            Err(e) => Err(e),
            Ok((x, q)) => if !advanced(t, p, q) {
                Err(stalled(t, p))
            } else {
                product_rest(t, q, acc.push(x), start)
            },
        }
    } else {
        Ok((SpecType::Product { fields: acc, span: span_join(start, previous_span(t, p)) }, p))
    }
}

/// spread ::= '...' postfix | postfix
pub open spec fn p_spread(t: Seq<SpecToken>, p: int) -> Parsed<SpecType>
    decreases t.len() - p, 3int,
    when 0 <= p < t.len()
{
    if t[p].kind == TokenKind::Ellipsis {
        match p_postfix(t, p + 1) {
            Err(e) => Err(e),
            Ok((ty, q)) => Ok((SpecType::Spread { ty: Box::new(ty), span: span_join(t[p].span, previous_span(t, q)) }, q)),
        }
    } else {
        p_postfix(t, p)
    }
}

/// postfix ::= atom ('[' IntLit ']')?
pub open spec fn p_postfix(t: Seq<SpecToken>, p: int) -> Parsed<SpecType>
    decreases t.len() - p, 2int,
    when 0 <= p < t.len()
{
    match p_atom(t, p) {
        Err(e) => Err(e),
        Ok((atom, q)) => if t[q].kind != TokenKind::LBracket {
            Ok((atom, q))
        } else {
            match expect(t, q + 1, TokenKind::IntLit, "expected an integer count in `[N]`"@) {
                Err(e) => Err(e),
                Ok((ct, q2)) => match unsigned_text(ct.lexeme, false) {
                    None => Err(parse_error("invalid integer `"@ + ct.lexeme + "` in repetition count"@, ct.span)),
                    Some(count) => match expect(t, q2, TokenKind::RBracket, "expected `]` after repetition count"@) {
                        Err(e) => Err(e),
                        Ok((_, q3)) => Ok((
                            SpecType::Repeat { ty: Box::new(atom), count, span: span_join(t[p].span, previous_span(t, q3)) },
                            q3,
                        )),
                    },
                },
            }
        },
    }
}

/// atom ::= (Ident | 'Self') ('<' (type (',' type)*)? '>')?
pub open spec fn p_atom(t: Seq<SpecToken>, p: int) -> Parsed<SpecType>
    decreases t.len() - p, 1int,
    when 0 <= p < t.len()
{
    let head = if t[p].kind == TokenKind::KwSelf {
        Ok((t[p], p + 1))
    } else {
        expect(t, p, TokenKind::Ident, "expected a type name"@)
    };
    match head {
        Err(e) => Err(e),
        Ok((name_tok, p1)) => if t[p1].kind == TokenKind::Lt {
            let p2 = p1 + 1;
            let generics = if t[p2].kind != TokenKind::Gt {
                if !advanced(t, p, p2) {
                    Err(stalled(t, p))
                } else {
                    type_list(t, p2, Seq::empty())
                }
            } else {
                Ok((Seq::empty(), p2))
            };
            match generics {
                Err(e) => Err(e),
                Ok((gs, p3)) => match expect(t, p3, TokenKind::Gt, "expected `>` to close generic application"@) {
                    Err(e) => Err(e),
                    Ok((_, p4)) => Ok((
                        SpecType::Named { name: name_tok.lexeme, generics: gs, span: span_join(t[p].span, previous_span(t, p4)) },
                        p4,
                    )),
                },
            }
        } else {
            Ok((
                SpecType::Named { name: name_tok.lexeme, generics: Seq::empty(), span: span_join(t[p].span, previous_span(t, p1)) },
                p1,
            ))
        },
    }
}

/// type (',' type)*, after the types already read.
pub open spec fn type_list(t: Seq<SpecToken>, p: int, acc: Seq<SpecType>) -> Parsed<Seq<SpecType>>
    decreases t.len() - p, 7int,
    when 0 <= p < t.len()
{
    match p_type(t, p) {
        Err(e) => Err(e),
        Ok((x, q)) => if t[q].kind == TokenKind::Comma {
            if !advanced(t, p, q) {
                Err(stalled(t, p))
            } else {
                type_list(t, q + 1, acc.push(x))
            }
        } else {
            Ok((acc.push(x), q))
        },
    }
}

// ── parameters and generic parameters ───────────────────────────────────

/// param ::= 'mut'? type
#[verifier::opaque]
pub open spec fn p_param(t: Seq<SpecToken>, p: int) -> Parsed<SpecParam> {
    let (mutable, p1) = if t[p].kind == TokenKind::KwMut { (true, p + 1) } else { (false, p) };
    match p_type(t, p1) {
        Err(e) => Err(e),
        Ok((ty, q)) => Ok((SpecParam { ty, mutable, span: span_join(t[p].span, previous_span(t, q)) }, q)),
    }
}

/// param (',' param)*, after the parameters already read.
pub open spec fn param_list(t: Seq<SpecToken>, p: int, acc: Seq<SpecParam>) -> Parsed<Seq<SpecParam>>
    decreases t.len() - p,
    when 0 <= p < t.len()
{
    match p_param(t, p) {
        Err(e) => Err(e),
        Ok((x, q)) => if t[q].kind == TokenKind::Comma {
            if !advanced(t, p, q) {
                Err(stalled(t, p))
            } else {
                param_list(t, q + 1, acc.push(x))
            }
        } else {
            Ok((acc.push(x), q))
        },
    }
}

/// generic_param (',' generic_param)*, where
/// generic_param ::= Ident (':' type)?
pub open spec fn generic_list(t: Seq<SpecToken>, p: int, acc: Seq<SpecGenericParam>) -> Parsed<Seq<SpecGenericParam>>
    decreases t.len() - p,
    when 0 <= p < t.len()
{
    match expect(t, p, TokenKind::Ident, "expected generic parameter name"@) {
        Err(e) => Err(e),
        Ok((nt, p1)) => {
            let bound = if t[p1].kind == TokenKind::Colon {
                match p_type(t, p1 + 1) {
                    Err(e) => Err(e),
                    Ok((b, q)) => Ok((Some(b), q)),
                }
            } else {
                Ok((None, p1))
            };
            match bound {
                Err(e) => Err(e),
                Ok((b, p2)) => {
                    let gp = SpecGenericParam { name: ident_of(nt), bound: b, span: span_join(t[p].span, previous_span(t, p2)) };
                    if t[p2].kind == TokenKind::Comma {
                        if !advanced(t, p, p2) {
                            Err(stalled(t, p))
                        } else {
                            generic_list(t, p2 + 1, acc.push(gp))
                        }
                    } else {
                        Ok((acc.push(gp), p2))
                    }
                },
            }
        },
    }
}

/// generic_params ::= '<' (generic_param (',' generic_param)*)? '>'
#[verifier::opaque]
pub open spec fn p_generic_params(t: Seq<SpecToken>, p: int) -> Parsed<Seq<SpecGenericParam>> {
    match expect(t, p, TokenKind::Lt, "expected `<` to begin generic parameters"@) {
        Err(e) => Err(e),
        Ok((_, p1)) => {
            let list = if t[p1].kind != TokenKind::Gt {
                generic_list(t, p1, Seq::empty())
            } else {
                Ok((Seq::empty(), p1))
            };
            match list {
                Err(e) => Err(e),
                Ok((gs, p2)) => match expect(t, p2, TokenKind::Gt, "expected `>` to close generic parameters"@) {
                    Err(e) => Err(e),
                    Ok((_, p3)) => Ok((gs, p3)),
                },
            }
        },
    }
}

/// The generic parameters at `p` if `<` stands there, else none.
#[verifier::opaque]
pub open spec fn p_opt_generic_params(t: Seq<SpecToken>, p: int) -> Parsed<Seq<SpecGenericParam>> {
    if t[p].kind == TokenKind::Lt {
        p_generic_params(t, p)
    } else {
        Ok((Seq::empty(), p))
    }
}

/// '(' (param (',' param)*)? ')' '->' type, with the messages of a
/// function's signature.
#[verifier::opaque]
pub open spec fn p_signature(t: Seq<SpecToken>, p: int) -> Parsed<(Seq<SpecParam>, SpecType)> {
    match expect(t, p, TokenKind::LParen, "expected `(` to begin parameter list"@) {
        Err(e) => Err(e),
        Ok((_, p1)) => {
            let params = if t[p1].kind != TokenKind::RParen {
                param_list(t, p1, Seq::empty())
            } else {
                Ok((Seq::empty(), p1))
            };
            match params {
                Err(e) => Err(e),
                Ok((ps, p2)) => match expect(t, p2, TokenKind::RParen, "expected `)` to close parameter list"@) {
                    Err(e) => Err(e),
                    Ok((_, p3)) => match expect(t, p3, TokenKind::Arrow, "expected `->` before return type"@) {
                        Err(e) => Err(e),
                        Ok((_, p4)) => match p_type(t, p4) {
                            Err(e) => Err(e),
                            Ok((rt, p5)) => Ok(((ps, rt), p5)),
                        },
                    },
                },
            }
        },
    }
}

// ── patterns ────────────────────────────────────────────────────────────

/// pattern ::= '_' | Ident ('(' (pattern (',' pattern)*)? ')')?
pub open spec fn p_pattern(t: Seq<SpecToken>, p: int) -> Parsed<SpecPattern>
    decreases t.len() - p, 1int,
    when 0 <= p < t.len()
{
    match expect(t, p, TokenKind::Ident, "expected a pattern (variant name or `_`)"@) {
        Err(e) => Err(e),
        Ok((tok, p1)) => if tok.lexeme == "_"@ {
            Ok((SpecPattern::Wildcard { span: tok.span }, p1))
        } else if t[p1].kind == TokenKind::LParen {
            let p2 = p1 + 1;
            let args = if t[p2].kind != TokenKind::RParen {
                if !advanced(t, p, p2) {
                    Err(stalled(t, p))
                } else {
                    pattern_list(t, p2, Seq::empty())
                }
            } else {
                Ok((Seq::empty(), p2))
            };
            match args {
                Err(e) => Err(e),
                Ok((ps, p3)) => match expect(t, p3, TokenKind::RParen, "expected `)` to close pattern"@) {
                    Err(e) => Err(e),
                    Ok((rp, p4)) => Ok((SpecPattern::Variant { name: tok.lexeme, args: ps, span: span_join(tok.span, rp.span) }, p4)),
                },
            }
        } else {
            Ok((SpecPattern::Variant { name: tok.lexeme, args: Seq::empty(), span: span_join(tok.span, tok.span) }, p1))
        },
    }
}

/// pattern (',' pattern)*, after the patterns already read.
pub open spec fn pattern_list(t: Seq<SpecToken>, p: int, acc: Seq<SpecPattern>) -> Parsed<Seq<SpecPattern>>
    decreases t.len() - p, 2int,
    when 0 <= p < t.len()
{
    match p_pattern(t, p) {
        Err(e) => Err(e),
        Ok((x, q)) => if t[q].kind == TokenKind::Comma {
            if !advanced(t, p, q) {
                Err(stalled(t, p))
            } else {
                pattern_list(t, q + 1, acc.push(x))
            }
        } else {
            Ok((acc.push(x), q))
        },
    }
}

// ── expressions ─────────────────────────────────────────────────────────

/// expr ::= primary ('.' Ident ('::' '<' types? '>')? '(' exprs? ')' | '?')*,
/// where a newline may stand before each `.` or `?`.
pub open spec fn p_expr(t: Seq<SpecToken>, p: int) -> Parsed<SpecExpr>
    decreases t.len() - p, 3int,
    when 0 <= p < t.len()
{
    match p_primary(t, p) {
        Err(e) => Err(e),
        Ok((e, q)) => if !advanced(t, p, q) {
            Err(stalled(t, p))
        } else {
            postfix(t, q, e)
        },
    }
}

/// The method calls and `?` that follow an expression.
pub open spec fn postfix(t: Seq<SpecToken>, p: int, e: SpecExpr) -> Parsed<SpecExpr>
    decreases t.len() - p, 2int,
    when 0 <= p < t.len()
{
    let s = skip_newlines(t, p);
    proof {
        lemma_skip_newlines(t, p);
    }
    let p1 = if s < t.len() && (t[s].kind == TokenKind::Dot || t[s].kind == TokenKind::Question) { s } else { p };
    if t[p1].kind == TokenKind::Dot {
        match p_method_call(t, p1, e) {
            Err(err) => Err(err),
            Ok((call, q)) => if !advanced(t, p, q) {
                Err(stalled(t, p))
            } else {
                postfix(t, q, call)
            },
        }
    } else if t[p1].kind == TokenKind::Question {
        if !advanced(t, p, p1 + 1) {
            Err(stalled(t, p))
        } else {
            postfix(t, p1 + 1, SpecExpr::Try { inner: Box::new(e), span: span_join(expr_span(e), t[p1].span) })
        }
    } else {
        Ok((e, p))
    }
}

/// '::' '<' (type (',' type)*)? '>' after a method name, or nothing.
#[verifier::opaque]
pub open spec fn p_turbofish(t: Seq<SpecToken>, p: int) -> Parsed<Seq<SpecType>> {
    if t[p].kind == TokenKind::ColonColon {
        match expect(t, p + 1, TokenKind::Lt, "expected `<` after `::` in turbofish"@) {
            Err(err) => Err(err),
            Ok((_, p3)) => {
                let tys = if t[p3].kind != TokenKind::Gt {
                    type_list(t, p3, Seq::empty())
                } else {
                    Ok((Seq::empty(), p3))
                };
                match tys {
                    Err(err) => Err(err),
                    Ok((ts, p4)) => match expect(t, p4, TokenKind::Gt, "expected `>` to close turbofish type arguments"@) {
                        Err(err) => Err(err),
                        Ok((_, p5)) => Ok((ts, p5)),
                    },
                }
            },
        }
    } else {
        Ok((Seq::empty(), p))
    }
}

/// The method call on `e` whose `.` stands at `p`:
/// '.' Ident turbofish? '(' (expr (',' expr)*)? ')'
pub open spec fn p_method_call(t: Seq<SpecToken>, p: int, e: SpecExpr) -> Parsed<SpecExpr>
    decreases t.len() - p, 1int,
    when 0 <= p < t.len()
{
    match expect(t, p + 1, TokenKind::Ident, "expected method name after `.`"@) {
        Err(err) => Err(err),
        Ok((mt, p2)) => match p_turbofish(t, p2) {
            Err(err) => Err(err),
            Ok((ts, p6)) => match expect(t, p6, TokenKind::LParen, "expected `(` after method name"@) {
                Err(err) => Err(err),
                Ok((_, p7)) => if !advanced(t, p, p7) {
                    Err(stalled(t, p))
                } else {
                    let args = if t[p7].kind != TokenKind::RParen {
                        expr_list(t, p7, Seq::empty())
                    } else {
                        Ok((Seq::empty(), p7))
                    };
                    match args {
                        Err(err) => Err(err),
                        Ok((xs, p8)) => match expect(t, p8, TokenKind::RParen, "expected `)` to close method call"@) {
                            Err(err) => Err(err),
                            Ok((rp, p9)) => Ok((
                                SpecExpr::MethodCall {
                                    receiver: Box::new(e),
                                    method: ident_of(mt),
                                    type_args: ts,
                                    args: xs,
                                    span: span_join(expr_span(e), rp.span),
                                },
                                p9,
                            )),
                        },
                    }
                },
            },
        },
    }
}

/// expr (',' expr)*, after the expressions already read.
pub open spec fn expr_list(t: Seq<SpecToken>, p: int, acc: Seq<SpecExpr>) -> Parsed<Seq<SpecExpr>>
    decreases t.len() - p, 4int,
    when 0 <= p < t.len()
{
    match p_expr(t, p) {
        Err(e) => Err(e),
        Ok((x, q)) => if t[q].kind == TokenKind::Comma {
            if !advanced(t, p, q) {
                Err(stalled(t, p))
            } else {
                expr_list(t, q + 1, acc.push(x))
            }
        } else {
            Ok((acc.push(x), q))
        },
    }
}

/// The arguments of a constructor after its `(`, and the closing `)`.
pub open spec fn call_args(t: Seq<SpecToken>, p: int) -> Parsed<(Seq<SpecExpr>, SpecToken)>
    decreases t.len() - p, 5int,
    when 0 <= p < t.len()
{
    let args = if t[p].kind != TokenKind::RParen {
        expr_list(t, p, Seq::empty())
    } else {
        Ok((Seq::empty(), p))
    };
    match args {
        Err(e) => Err(e),
        Ok((xs, p3)) => match expect(t, p3, TokenKind::RParen, "expected `)` to close constructor"@) {
            Err(e) => Err(e),
            Ok((rp, p4)) => Ok(((xs, rp), p4)),
        },
    }
}

/// primary ::= match | while | lambda | (Ident | 'Self') ('(' exprs? ')')?
///           | StringLit | IntLit | FloatLit | HexLit
pub open spec fn p_primary(t: Seq<SpecToken>, p: int) -> Parsed<SpecExpr>
    decreases t.len() - p, 2int,
    when 0 <= p < t.len()
{
    let tok = t[p];
    match tok.kind {
        TokenKind::KwMatch => p_match(t, p),
        TokenKind::KwWhile => p_while(t, p),
        TokenKind::LParen => p_lambda(t, p),
        TokenKind::Ident | TokenKind::KwSelf => if p + 1 < t.len() && t[p + 1].kind == TokenKind::LParen {
            if !advanced(t, p, p + 2) {
                Err(stalled(t, p))
            } else {
                match call_args(t, p + 2) {
                    Err(e) => Err(e),
                    Ok(((xs, rp), p4)) => Ok((SpecExpr::Constructor { name: ident_of(tok), args: xs, span: span_join(tok.span, rp.span) }, p4)),
                }
            }
        } else {
            Ok((SpecExpr::Ident(ident_of(tok)), p + 1))
        },
        TokenKind::StringLit => Ok((SpecExpr::StringLit { value: tok.lexeme, span: tok.span }, p + 1)),
        TokenKind::IntLit => match i64_text(tok.lexeme) {
            Some(value) => Ok((SpecExpr::IntLit { value, span: tok.span }, p + 1)),
            None => Err(parse_error("invalid integer literal `"@ + tok.lexeme + "`"@, tok.span)),
        },
        TokenKind::FloatLit => if float_text(tok.lexeme) {
            Ok((SpecExpr::FloatLit { value: tok.lexeme, span: tok.span }, p + 1))
        } else {
            Err(parse_error("invalid float literal `"@ + tok.lexeme + "`"@, tok.span))
        },
        TokenKind::HexLit => match unsigned_text(without_hex_prefixes(tok.lexeme), true) {
            Some(value) => Ok((SpecExpr::HexLit { value, span: tok.span }, p + 1)),
            None => Err(parse_error("invalid hex literal `"@ + tok.lexeme + "`"@, tok.span)),
        },
        _ => Err(got(t, p, "expected an expression"@)),
    }
}

/// The parameters of a lambda after its `(`, through `)` and `->`.
#[verifier::opaque]
pub open spec fn lambda_params(t: Seq<SpecToken>, p: int) -> Parsed<Seq<SpecParam>> {
    let params = if t[p].kind != TokenKind::RParen {
        if !(0 <= p < t.len()) {
            Err(stalled(t, p))
        } else {
            param_list(t, p, Seq::empty())
        }
    } else {
        Ok((Seq::empty(), p))
    };
    match params {
        Err(e) => Err(e),
        Ok((ps, p2)) => match expect(t, p2, TokenKind::RParen, "expected `)` to close lambda parameter list"@) {
            Err(e) => Err(e),
            Ok((_, p3)) => match expect(t, p3, TokenKind::Arrow, "expected `->` after lambda parameter list"@) {
                Err(e) => Err(e),
                Ok((_, p4)) => Ok((ps, p4)),
            },
        },
    }
}

/// lambda ::= '(' (param (',' param)*)? ')' '->' type block
pub open spec fn p_lambda(t: Seq<SpecToken>, p: int) -> Parsed<SpecExpr>
    decreases t.len() - p, 1int,
    when 0 <= p < t.len()
{
    match expect(t, p, TokenKind::LParen, "expected `(` to begin lambda"@) {
        Err(e) => Err(e),
        Ok((lp, p1)) => match lambda_params(t, p1) {
            Err(e) => Err(e),
            Ok((ps, p4)) => if !advanced(t, p, p4) {
                Err(stalled(t, p))
            } else {
                match p_type(t, p4) {
                    Err(e) => Err(e),
                    Ok((rt, p5)) => if !advanced(t, p, p5) {
                        Err(stalled(t, p))
                    } else {
                        match p_block(t, p5) {
                            Err(e) => Err(e),
                            Ok((body, p6)) => Ok((
                                SpecExpr::Lambda { params: ps, return_ty: rt, body, span: span_join(lp.span, previous_span(t, p6)) },
                                p6,
                            )),
                        }
                    },
                }
            },
        },
    }
}

/// while ::= 'while' expr block
pub open spec fn p_while(t: Seq<SpecToken>, p: int) -> Parsed<SpecExpr>
    decreases t.len() - p, 1int,
    when 0 <= p < t.len()
{
    match expect(t, p, TokenKind::KwWhile, "expected `while`"@) {
        Err(e) => Err(e),
        Ok((kw, p1)) => if !advanced(t, p, p1) {
            Err(stalled(t, p))
        } else {
            match p_expr(t, p1) {
                Err(e) => Err(e),
                Ok((cond, p2)) => if !advanced(t, p, p2) {
                    Err(stalled(t, p))
                } else {
                    match p_block(t, p2) {
                        Err(e) => Err(e),
                        Ok((body, p3)) => Ok((
                            SpecExpr::While { cond: Box::new(cond), body, span: span_join(kw.span, previous_span(t, p3)) },
                            p3,
                        )),
                    }
                },
            }
        },
    }
}

/// match ::= 'match' expr '{' newline* (arm ','? newline*)* '}'
pub open spec fn p_match(t: Seq<SpecToken>, p: int) -> Parsed<SpecExpr>
    decreases t.len() - p, 1int,
    when 0 <= p < t.len()
{
    match expect(t, p, TokenKind::KwMatch, "expected `match`"@) {
        Err(e) => Err(e),
        Ok((kw, p1)) => if !advanced(t, p, p1) {
            Err(stalled(t, p))
        } else {
            match p_expr(t, p1) {
                Err(e) => Err(e),
                Ok((scrutinee, p2)) => match expect(t, p2, TokenKind::LBrace, "expected `{` to begin match arms"@) {
                    Err(e) => Err(e),
                    Ok((_, p3)) => {
                        let p4 = skip_newlines(t, p3);
                        if !advanced(t, p, p4) {
                            Err(stalled(t, p))
                        } else {
                            match arm_list(t, p4, Seq::empty()) {
                                Err(e) => Err(e),
                                Ok((arms, p5)) => match expect(t, p5, TokenKind::RBrace, "expected `}` to close match"@) {
                                    Err(e) => Err(e),
                                    Ok((rb, p6)) => Ok((
                                        SpecExpr::Match { scrutinee: Box::new(scrutinee), arms, span: span_join(kw.span, rb.span) },
                                        p6,
                                    )),
                                },
                            }
                        }
                    },
                },
            }
        },
    }
}

/// The arms of a match up to its `}` (or the end), after those read.
pub open spec fn arm_list(t: Seq<SpecToken>, p: int, acc: Seq<SpecArm>) -> Parsed<Seq<SpecArm>>
    decreases t.len() - p, 4int,
    when 0 <= p < t.len()
{
    if t[p].kind != TokenKind::RBrace && t[p].kind != TokenKind::Eof {
        match p_arm(t, p) {
            Err(e) => Err(e),
            Ok((a, q)) => {
                let q1 = if t[q].kind == TokenKind::Comma { q + 1 } else { q };
                let q2 = skip_newlines(t, q1);
                if !advanced(t, p, q2) {
                    Err(stalled(t, p))
                } else {
                    arm_list(t, q2, acc.push(a))
                }
            },
        }
    } else {
        Ok((acc, p))
    }
}

/// arm ::= pattern '=>' expr
pub open spec fn p_arm(t: Seq<SpecToken>, p: int) -> Parsed<SpecArm>
    decreases t.len() - p, 1int,
    when 0 <= p < t.len()
{
    match p_pattern(t, p) {
        Err(e) => Err(e),
        Ok((pat, q)) => match expect(t, q, TokenKind::FatArrow, "expected `=>` after match pattern"@) {
            Err(e) => Err(e),
            Ok((_, q1)) => if !advanced(t, p, q1) {
                Err(stalled(t, p))
            } else {
                match p_expr(t, q1) {
                    Err(e) => Err(e),
                    Ok((body, q2)) => Ok((SpecArm { pattern: pat, body, span: span_join(pattern_span(pat), expr_span(body)) }, q2)),
                }
            },
        },
    }
}

/// block ::= '{' newline* (expr newline*)* '}'
pub open spec fn p_block(t: Seq<SpecToken>, p: int) -> Parsed<SpecBlock>
    decreases t.len() - p, 1int,
    when 0 <= p < t.len()
{
    match expect(t, p, TokenKind::LBrace, "expected `{` to begin block"@) {
        Err(e) => Err(e),
        Ok((lb, p1)) => {
            let p2 = skip_newlines(t, p1);
            if !advanced(t, p, p2) {
                Err(stalled(t, p))
            } else {
                match block_exprs(t, p2, Seq::empty()) {
                    Err(e) => Err(e),
                    Ok((es, p3)) => match expect(t, p3, TokenKind::RBrace, "expected `}` to close block"@) {
                        Err(e) => Err(e),
                        Ok((rb, p4)) => Ok((SpecBlock { exprs: es, span: span_join(lb.span, rb.span) }, p4)),
                    },
                }
            }
        },
    }
}

/// The expressions of a block up to its `}` (or the end), after those read.
pub open spec fn block_exprs(t: Seq<SpecToken>, p: int, acc: Seq<SpecExpr>) -> Parsed<Seq<SpecExpr>>
    decreases t.len() - p, 4int,
    when 0 <= p < t.len()
{
    if t[p].kind != TokenKind::RBrace && t[p].kind != TokenKind::Eof {
        match p_expr(t, p) {
            Err(e) => Err(e),
            Ok((x, q)) => {
                let q1 = skip_newlines(t, q);
                if !advanced(t, p, q1) {
                    Err(stalled(t, p))
                } else {
                    block_exprs(t, q1, acc.push(x))
                }
            },
        }
    } else {
        Ok((acc, p))
    }
}

// ── items ───────────────────────────────────────────────────────────────

/// method_name ::= Ident | 'Self'
#[verifier::opaque]
pub open spec fn p_method_name(t: Seq<SpecToken>, p: int, msg: Seq<char>) -> Parsed<SpecIdent> {
    if t[p].kind == TokenKind::Ident || t[p].kind == TokenKind::KwSelf {
        Ok((ident_of(t[p]), p + 1))
    } else {
        Err(got(t, p, msg))
    }
}

/// The types of a parameter list.
pub open spec fn param_types(ps: Seq<SpecParam>) -> Seq<SpecType> {
    ps.map_values(|x: SpecParam| x.ty)
}

/// What follows `name =` (or `Receiver.name =`): generic parameters, a
/// signature, then a body for a function; a function type for a type
/// definition where no body follows (an error for a method).
#[verifier::opaque]
pub open spec fn p_function_after_eq(
    t: Seq<SpecToken>,
    p: int,
    receiver: Option<SpecIdent>,
    name: SpecIdent,
    start: Span,
) -> Parsed<SpecItem> {
    match p_opt_generic_params(t, p) {
        Err(e) => Err(e),
        Ok((gps, p1)) => match p_signature(t, p1) {
            Err(e) => Err(e),
            Ok(((params, return_ty), p2)) => if t[p2].kind == TokenKind::LBrace {
                match p_block(t, p2) {
                    Err(e) => Err(e),
                    Ok((body, p3)) => Ok((
                        SpecItem::Function(SpecFunction {
                            receiver,
                            name,
                            generic_params: gps,
                            params,
                            return_ty,
                            body,
                            extern_rust: None,
                            span: span_join(start, previous_span(t, p3)),
                        }),
                        p3,
                    )),
                }
            } else if receiver is Some {
                Err(parse_error("method definition requires a body `{ ... }`"@, t[p2].span))
            } else {
                let fspan = span_join(start, previous_span(t, p2));
                Ok((
                    SpecItem::TypeDef(SpecTypeDef {
                        name,
                        generic_params: Seq::empty(),
                        body: SpecType::Function {
                            generic_params: gps,
                            params: param_types(params),
                            return_ty: Box::new(return_ty),
                            span: fspan,
                        },
                        span: fspan,
                    }),
                    p2,
                ))
            },
        },
    }
}

/// What follows `extern Rust(...) Name`: a method declaration without a
/// body after `.`; else a type bound to the Rust path, given by a type
/// after `=` or standing for the path itself.
#[verifier::opaque]
pub open spec fn p_extern_item(t: Seq<SpecToken>, p: int, start: Span, first: SpecIdent, ext: SpecExtern) -> Parsed<SpecItem> {
    if t[p].kind == TokenKind::Dot {
        match p_method_name(t, p + 1, "expected method name after `.`"@) {
            Err(e) => Err(e),
            Ok((name, p1)) => match expect(t, p1, TokenKind::Eq, "expected `=` after extern method name"@) {
                Err(e) => Err(e),
                Ok((_, p2)) => match p_opt_generic_params(t, p2) {
                    Err(e) => Err(e),
                    Ok((gps, p3)) => match p_signature(t, p3) {
                        Err(e) => Err(e),
                        Ok(((params, return_ty), p4)) => {
                            let end = previous_span(t, p4);
                            Ok((
                                SpecItem::Function(SpecFunction {
                                    receiver: Some(first),
                                    name,
                                    generic_params: gps,
                                    params,
                                    return_ty,
                                    body: SpecBlock {
                                        exprs: Seq::empty(),
                                        span: Span { start: end.end, end: end.end, line: end.line, column: end.column },
                                    },
                                    extern_rust: Some(ext),
                                    span: span_join(start, end),
                                }),
                                p4,
                            ))
                        },
                    },
                },
            },
        }
    } else if ext.is_async {
        Err(parse_error("`extern Rust.async` is only valid on method declarations, not on types"@, first.span))
    } else if t[p].kind != TokenKind::Eq {
        Ok((
            SpecItem::TypeDef(SpecTypeDef {
                name: first,
                generic_params: Seq::empty(),
                body: SpecType::Named { name: "__extern__"@ + ext.path, generics: Seq::empty(), span: first.span },
                span: span_join(start, first.span),
            }),
            p,
        ))
    } else {
        match p_type(t, p + 1) {
            Err(e) => Err(e),
            Ok((body, q)) => Ok((
                SpecItem::TypeDef(SpecTypeDef {
                    name: first,
                    generic_params: Seq::empty(),
                    body,
                    span: span_join(start, previous_span(t, q)),
                }),
                q,
            )),
        }
    }
}

/// extern ::= 'extern' Ident('Rust') ('.' Ident('async'))? '(' StringLit ')' newline*
#[verifier::opaque]
pub open spec fn p_extern(t: Seq<SpecToken>, p: int) -> Parsed<SpecExtern> {
    match expect(t, p + 1, TokenKind::Ident, "expected language after `extern`"@) {
        Err(e) => Err(e),
        Ok((lang, p2)) => if lang.lexeme != "Rust"@ {
            Err(parse_error("only `extern Rust` is supported (got `extern "@ + lang.lexeme + "`)"@, lang.span))
        } else {
            let qual = if t[p2].kind == TokenKind::Dot {
                match expect(t, p2 + 1, TokenKind::Ident, "expected `async` after `extern Rust.`"@) {
                    Err(e) => Err(e),
                    Ok((q, p3)) => if q.lexeme != "async"@ {
                        Err(parse_error("only `extern Rust.async` is supported (got `extern Rust."@ + q.lexeme + "`)"@, q.span))
                    } else {
                        Ok((true, p3))
                    },
                }
            } else {
                Ok((false, p2))
            };
            match qual {
                Err(e) => Err(e),
                Ok((is_async, p3)) => match expect(t, p3, TokenKind::LParen, "expected `(` after `extern Rust`"@) {
                    Err(e) => Err(e),
                    Ok((_, p4)) => match expect(t, p4, TokenKind::StringLit, "expected a Rust path string after `extern Rust(`"@) {
                        Err(e) => Err(e),
                        Ok((path, p5)) => match expect(t, p5, TokenKind::RParen, "expected `)` after Rust path"@) {
                            Err(e) => Err(e),
                            Ok((_, p6)) => Ok((SpecExtern { path: path.lexeme, is_async }, skip_newlines(t, p6))),
                        },
                    },
                },
            }
        },
    }
}

/// item ::= 'use' Ident
///        | extern? Ident ( '.' method_name '=' function
///                        | generic_params? '=' (function | type) )
#[verifier::opaque]
pub open spec fn p_item(t: Seq<SpecToken>, p: int) -> Parsed<SpecItem> {
    let start = t[p].span;
    if t[p].kind == TokenKind::KwUse {
        match expect(t, p + 1, TokenKind::Ident, "expected module name after `use`"@) {
            Err(e) => Err(e),
            Ok((nt, p2)) => Ok((SpecItem::Use(SpecUse { name: ident_of(nt), span: span_join(start, nt.span) }), p2)),
        }
    } else {
        let ext = if t[p].kind == TokenKind::KwExtern {
            match p_extern(t, p) {
                Err(e) => Err(e),
                Ok((x, q)) => Ok((Some(x), q)),
            }
        } else {
            Ok((None, p))
        };
        match ext {
            Err(e) => Err(e),
            Ok((ext, pe)) => match expect(t, pe, TokenKind::Ident, "expected a top-level definition"@) {
                Err(e) => Err(e),
                Ok((first, pf)) => match ext {
                    Some(x) => p_extern_item(t, pf, start, ident_of(first), x),
                    None => if t[pf].kind == TokenKind::Dot {
                        match p_method_name(t, pf + 1, "expected function name after `.`"@) {
                            Err(e) => Err(e),
                            Ok((name, pg)) => match expect(t, pg, TokenKind::Eq, "expected `=` after function name"@) {
                                Err(e) => Err(e),
                                Ok((_, ph)) => p_function_after_eq(t, ph, Some(ident_of(first)), name, start),
                            },
                        }
                    } else {
                        match p_opt_generic_params(t, pf) {
                            Err(e) => Err(e),
                            Ok((pre, q1)) => match expect(t, q1, TokenKind::Eq, "expected `=` in top-level definition"@) {
                                Err(e) => Err(e),
                                Ok((_, q2)) => if t[q2].kind == TokenKind::LParen || t[q2].kind == TokenKind::Lt {
                                    if pre.len() != 0 {
                                        Err(parse_error(
                                            "generic parameters on function definitions go after `=`, not before"@,
                                            first.span,
                                        ))
                                    } else {
                                        p_function_after_eq(t, q2, None, ident_of(first), start)
                                    }
                                } else {
                                    match p_type(t, q2) {
                                        Err(e) => Err(e),
                                        Ok((body, q3)) => Ok((
                                            SpecItem::TypeDef(SpecTypeDef {
                                                name: ident_of(first),
                                                generic_params: pre,
                                                body,
                                                span: span_join(start, previous_span(t, q3)),
                                            }),
                                            q3,
                                        )),
                                    }
                                },
                            },
                        }
                    },
                },
            },
        }
    }
}

/// The items up to the end, after those read.
pub open spec fn item_list(t: Seq<SpecToken>, p: int, acc: Seq<SpecItem>) -> Parsed<Seq<SpecItem>>
    decreases t.len() - p,
    when 0 <= p < t.len()
{
    if t[p].kind != TokenKind::Eof {
        match p_item(t, p) {
            Err(e) => Err(e),
            Ok((it, q)) => {
                let q1 = skip_newlines(t, q);
                if !advanced(t, p, q1) {
                    Err(stalled(t, p))
                } else {
                    item_list(t, q1, acc.push(it))
                }
            },
        }
    } else {
        Ok((acc, p))
    }
}

/// module ::= newline* (item newline*)* Eof, read from `p`.
pub open spec fn p_module(t: Seq<SpecToken>, p: int) -> Result<SpecModule, SpecError> {
    let p0 = skip_newlines(t, p);
    match item_list(t, p0, Seq::empty()) {
        Err(e) => Err(e),
        Ok((items, q)) => Ok(SpecModule { items, span: span_join(t[p].span, previous_span(t, q)) }),
    }
}

/// The items of a module run to the end of the tokens: when reading them
/// succeeds, it stops at `Eof`.
pub proof fn lemma_items_end_at_eof(t: Seq<SpecToken>, p: int, acc: Seq<SpecItem>)
    requires
        0 <= p < t.len(),
    ensures
        match item_list(t, p, acc) {
            Ok((_, q)) => 0 <= q < t.len() && t[q].kind == TokenKind::Eof,
            Err(_) => true,
        },
    decreases t.len() - p,
{
    reveal_with_fuel(item_list, 1);
    if t[p].kind != TokenKind::Eof {
        match p_item(t, p) {
            Err(_) => {},
            Ok((it, q)) => {
                let q1 = skip_newlines(t, q);
                if advanced(t, p, q1) {
                    lemma_items_end_at_eof(t, q1, acc.push(it));
                }
            },
        }
    }
}

/// Parsing a module that succeeds reads every token: its items end where
/// the `Eof` token stands.
pub proof fn lemma_module_reads_to_eof(t: Seq<SpecToken>, p: int)
    requires
        0 <= p < t.len(),
        tokens_wf(t),
    ensures
        p_module(t, p) is Ok ==> match item_list(t, skip_newlines(t, p), Seq::empty()) {
            Ok((_, q)) => t[q].kind == TokenKind::Eof,
            Err(_) => false,
        },
{
    lemma_skip_newlines(t, p);
    let p0 = skip_newlines(t, p);
    if p0 < t.len() {
        lemma_items_end_at_eof(t, p0, Seq::empty());
    }
}

} // verus!
