//! The parser: a token list to a module of the current grammar, each rule
//! proved to build what the grammar in `grammar` gives.

use vstd::prelude::*;
use crate::error::{OnewayError, SpecError, Span};
use crate::parser::grammar;
use crate::parser::grammar::{
    advanced, expect, generic_list, item_list, lemma_skip_newlines, p_arm, p_atom, p_block,
    p_expr, p_extern, p_extern_item, p_function_after_eq, p_generic_params, p_item, p_lambda,
    p_match, p_method_name, p_module, p_opt_generic_params, p_param, p_pattern, p_postfix,
    p_primary, p_product, p_turbofish, p_method_call, p_signature, p_spread, p_type, p_union, p_while, param_list,
    param_types, pattern_list, postfix, previous_span, product_rest, skip_newlines, tokens_wf,
    type_list, union_rest, arm_list, block_exprs, expr_list, Parsed,
};
use crate::parser::literals::{is_float_text, parse_i64, parse_unsigned, strip_hex_prefixes};
use crate::syntax::token::{tokens_view, SpecToken, Token, TokenKind};
use crate::syntax::tree::{
    SpecModule, SpecExtern, SpecType, SpecExpr, SpecParam, SpecPattern, SpecGenericParam, SpecArm, SpecBlock, SpecItem, SpecIdent,
    arm_v, arms_v, block_v, expr_v, exprs_v, function_v, gparam_v, gparams_v, item_v, items_v,
    lemma_arms_v_push, lemma_exprs_v_push, lemma_gparams_v_push, lemma_items_v_push,
    lemma_params_v_push, lemma_patterns_v_push, lemma_types_v_push, module_v, param_v, params_v,
    pattern_v, patterns_v, type_v, types_v, Block, Expr, ExternRust, FunctionDef, GenericParam,
    Ident, Item, MatchArm, Module, Param, Pattern, TypeDef, TypeExpr, UseDecl,
};
use crate::text::{push_str, string_from};

verus! {

/// A recursive-descent parser over a token list.
pub struct Parser {
    tokens: Vec<Token>,
    pos: usize,
}

/// The span covering `a` and `b`, located where `a` is.
pub fn span_join(a: Span, b: Span) -> (s: Span)
    ensures
        s == grammar::span_join(a, b),
{
    Span::new(
        if a.start <= b.start { a.start } else { b.start },
        if a.end >= b.end { a.end } else { b.end },
        a.line,
        a.column,
    )
}

/// A rule's result agrees with the grammar's outcome `s` from `p0`, and
/// ends at `p1` after `p0` when it succeeds.
pub open spec fn type_outcome(s: Parsed<SpecType>, r: Result<TypeExpr, OnewayError>, p0: int, p1: int) -> bool {
    match r {
        Ok(x) => s == Parsed::<SpecType>::Ok((type_v(x), p1)) && p0 < p1,
        Err(e) => s == Parsed::<SpecType>::Err(e@),
    }
}

pub open spec fn param_outcome(s: Parsed<SpecParam>, r: Result<Param, OnewayError>, p0: int, p1: int) -> bool {
    match r {
        Ok(x) => s == Parsed::<SpecParam>::Ok((param_v(x), p1)) && p0 < p1,
        Err(e) => s == Parsed::<SpecParam>::Err(e@),
    }
}

pub open spec fn pattern_outcome(s: Parsed<SpecPattern>, r: Result<Pattern, OnewayError>, p0: int, p1: int) -> bool {
    match r {
        Ok(x) => s == Parsed::<SpecPattern>::Ok((pattern_v(x), p1)) && p0 < p1,
        Err(e) => s == Parsed::<SpecPattern>::Err(e@),
    }
}

pub open spec fn expr_outcome(s: Parsed<SpecExpr>, r: Result<Expr, OnewayError>, p0: int, p1: int) -> bool {
    match r {
        Ok(x) => s == Parsed::<SpecExpr>::Ok((expr_v(x), p1)) && p0 < p1,
        Err(e) => s == Parsed::<SpecExpr>::Err(e@),
    }
}

pub open spec fn block_outcome(s: Parsed<SpecBlock>, r: Result<Block, OnewayError>, p0: int, p1: int) -> bool {
    match r {
        Ok(x) => s == Parsed::<SpecBlock>::Ok((block_v(x), p1)) && p0 < p1,
        Err(e) => s == Parsed::<SpecBlock>::Err(e@),
    }
}

pub open spec fn arm_outcome(s: Parsed<SpecArm>, r: Result<MatchArm, OnewayError>, p0: int, p1: int) -> bool {
    match r {
        Ok(x) => s == Parsed::<SpecArm>::Ok((arm_v(x), p1)) && p0 < p1,
        Err(e) => s == Parsed::<SpecArm>::Err(e@),
    }
}

pub open spec fn item_outcome(s: Parsed<SpecItem>, r: Result<Item, OnewayError>, p0: int, p1: int) -> bool {
    match r {
        Ok(x) => s == Parsed::<SpecItem>::Ok((item_v(x), p1)) && p0 < p1,
        Err(e) => s == Parsed::<SpecItem>::Err(e@),
    }
}

pub open spec fn opt_ident_v(i: Option<Ident>) -> Option<SpecIdent> {
    match i {
        Some(x) => Some(x@),
        None => None,
    }
}

proof fn lemma_param_types(s: Seq<Param>, tys: Seq<TypeExpr>)
    requires
        tys.len() == s.len(),
        forall|i: int| 0 <= i < s.len() ==> tys[i] == (#[trigger] s[i]).ty,
    ensures
        types_v(tys) == param_types(params_v(s)),
    decreases s.len(),
{
    if s.len() > 0 {
        lemma_param_types(s.drop_last(), tys.drop_last());
        assert(param_types(params_v(s)) =~= param_types(params_v(s.drop_last())).push(type_v(s.last().ty)));
    } else {
        assert(param_types(params_v(s)) =~= Seq::<SpecType>::empty());
    }
}

/// The types of the parameters, in order.
fn types_of_params(params: Vec<Param>) -> (tys: Vec<TypeExpr>)
    ensures
        types_v(tys@) == param_types(params_v(params@)),
{
    let ghost orig = params@;
    let mut ps = params;
    let mut tys: Vec<TypeExpr> = Vec::new();
    while ps.len() > 0
        invariant
            tys@.len() + ps@.len() == orig.len(),
            ps@ == orig.skip(tys@.len() as int),
            forall|i: int| 0 <= i < tys@.len() ==> tys@[i] == (#[trigger] orig[i]).ty,
        decreases ps@.len(),
    {
        let ghost k = tys@.len() as int;
        let x = ps.remove(0);
        assert(x == orig[k]);
        tys.push(x.ty);
        assert(ps@ =~= orig.skip(k + 1));
    }
    proof {
        lemma_param_types(orig, tys@);
    }
    tys
}

impl Parser {
    /// The tokens being parsed.
    pub closed spec fn toks(&self) -> Seq<SpecToken> {
        tokens_view(self.tokens@)
    }

    /// The position of the next token.
    pub closed spec fn position(&self) -> int {
        self.pos as int
    }

    /// The tokens end with `Eof` and the position lies within them.
    pub closed spec fn wf(&self) -> bool {
        &&& tokens_wf(self.toks())
        &&& self.toks().len() == self.tokens@.len()
        &&& self.pos < self.tokens@.len()
    }

    pub fn new(tokens: Vec<Token>) -> (p: Self)
        ensures
            p.toks() == tokens_view(tokens@),
            p.position() == 0,
    {
        Self { tokens, pos: 0 }
    }

    fn kind(&self) -> (k: TokenKind)
        requires
            self.wf(),
        ensures
            k == self.toks()[self.pos as int].kind,
    {
        self.tokens[self.pos].kind
    }

    fn check(&self, kind: TokenKind) -> (r: bool)
        requires
            self.wf(),
        ensures
            r == (self.toks()[self.pos as int].kind == kind),
    {
        self.tokens[self.pos].kind == kind
    }

    fn is_at_end(&self) -> (r: bool)
        requires
            self.wf(),
        ensures
            r == (self.toks()[self.pos as int].kind == TokenKind::Eof),
    {
        self.check(TokenKind::Eof)
    }

    /// Moves past the current token, which is not `Eof`, and returns it.
    fn advance(&mut self) -> (tok: Token)
        requires
            old(self).wf(),
            old(self).toks()[old(self).pos as int].kind != TokenKind::Eof,
        ensures
            final(self).wf(),
            final(self).toks() == old(self).toks(),
            final(self).pos == old(self).pos + 1,
            tok@ == old(self).toks()[old(self).pos as int],
    {
        let n = self.tokens.len();
        if !self.is_at_end() {
            assert(self.pos + 1 < n);
            self.pos = self.pos + 1;
        }
        self.tokens[self.pos - 1].clone()
    }

    fn current_span(&self) -> (s: Span)
        requires
            self.wf(),
        ensures
            s == self.toks()[self.pos as int].span,
    {
        self.tokens[self.pos].span
    }

    fn previous_span(&self) -> (s: Span)
        requires
            self.wf(),
        ensures
            s == previous_span(self.toks(), self.pos as int),
    {
        if self.pos == 0 {
            self.tokens[0].span
        } else {
            self.tokens[self.pos - 1].span
        }
    }

    fn skip_newlines(&mut self)
        requires
            old(self).wf(),
        ensures
            final(self).wf(),
            final(self).toks() == old(self).toks(),
            final(self).pos == skip_newlines(old(self).toks(), old(self).pos as int),
            old(self).pos <= final(self).pos,
    {
        let ghost p0 = self.pos as int;
        proof {
            lemma_skip_newlines(self.toks(), p0);
        }
        while self.check(TokenKind::Newline)
            invariant
                self.wf(),
                self.toks() == old(self).toks(),
                skip_newlines(self.toks(), p0) == skip_newlines(self.toks(), self.pos as int),
            decreases self.tokens@.len() - self.pos,
        {
            self.advance();
        }
    }

    /// The kind of the first token at or after the position that is not a
    /// newline.
    fn peek_past_newlines(&self) -> (k: TokenKind)
        requires
            self.wf(),
        ensures
            k == self.toks()[skip_newlines(self.toks(), self.pos as int)].kind,
    {
        let mut i = self.pos;
        while i < self.tokens.len() && self.tokens[i].kind == TokenKind::Newline
            invariant
                self.wf(),
                self.pos <= i <= self.tokens@.len(),
                skip_newlines(self.toks(), self.pos as int) == skip_newlines(self.toks(), i as int),
            decreases self.tokens@.len() - i,
        {
            i += 1;
        }
        proof {
            lemma_skip_newlines(self.toks(), self.pos as int);
        }
        if i < self.tokens.len() {
            self.tokens[i].kind
        } else {
            TokenKind::Eof
        }
    }

    /// The error for `msg` at the current token.
    fn error_here(&self, msg: &str) -> (e: OnewayError)
        requires
            self.wf(),
        ensures
            e@ == grammar::got(self.toks(), self.pos as int, msg@),
    {
        let actual = &self.tokens[self.pos];
        let mut m = string_from(msg);
        push_str(&mut m, " (got ");
        let k = actual.kind.to_display_string();
        push_str(&mut m, k.as_str());
        push_str(&mut m, ")");
        OnewayError::ParseError { message: m, span: actual.span }
    }

    fn expect(&mut self, kind: TokenKind, msg: &str) -> (r: Result<Token, OnewayError>)
        requires
            old(self).wf(),
            kind != TokenKind::Eof,
        ensures
            final(self).wf(),
            final(self).toks() == old(self).toks(),
            match r {
                Ok(tok) => expect(old(self).toks(), old(self).pos as int, kind, msg@) == Ok::<(SpecToken, int), crate::error::SpecError>((tok@, final(self).pos as int)),
                Err(e) => expect(old(self).toks(), old(self).pos as int, kind, msg@) == Err::<(SpecToken, int), crate::error::SpecError>(e@),
            },
    {
        if self.check(kind) {
            Ok(self.advance())
        } else {
            Err(self.error_here(msg))
        }
    }

    // ── types ───────────────────────────────────────────────────────────

    fn parse_type_expr(&mut self) -> (r: Result<TypeExpr, OnewayError>)
        requires
            old(self).wf(),
        ensures
            final(self).wf(),
            final(self).toks() == old(self).toks(),
            type_outcome(p_type(old(self).toks(), old(self).pos as int), r, old(self).pos as int, final(self).pos as int),
        decreases old(self).tokens@.len() - old(self).pos, 6int,
    {
        self.parse_type_union()
    }

    fn parse_type_union(&mut self) -> (r: Result<TypeExpr, OnewayError>)
        requires
            old(self).wf(),
        ensures
            final(self).wf(),
            final(self).toks() == old(self).toks(),
            type_outcome(p_union(old(self).toks(), old(self).pos as int), r, old(self).pos as int, final(self).pos as int),
        decreases old(self).tokens@.len() - old(self).pos, 5int,
    {
        let ghost t = self.toks();
        let ghost p = self.pos as int;
        let start = self.current_span();
        let first = match self.parse_type_product() {
            Ok(x) => x,
            Err(e) => return Err(e),
        };
        if !self.check(TokenKind::Pipe) {
            return Ok(first);
        }
        let ghost q0 = self.pos as int;
        let ghost fv = type_v(first);
        let mut variants: Vec<TypeExpr> = Vec::new();
        proof {
            lemma_types_v_push(variants@, first);
            assert(types_v(Seq::<TypeExpr>::empty()).push(fv) =~= seq![fv]);
        }
        variants.push(first);
        while self.check(TokenKind::Pipe)
            invariant
                self.wf(),
                self.toks() == t,
                t == old(self).toks(),
                p == old(self).pos,
                self.tokens@.len() == old(self).tokens@.len(),
                p < self.pos,
                p_union(t, p) == union_rest(t, self.pos as int, types_v(variants@), start),
            decreases self.tokens@.len() - self.pos,
        {
            self.advance();
            self.skip_newlines();
            let x = match self.parse_type_product() {
                Ok(x) => x,
                Err(e) => return Err(e),
            };
            proof {
                lemma_types_v_push(variants@, x);
            }
            variants.push(x);
        }
        let end = self.previous_span();
        Ok(TypeExpr::Union { variants, span: span_join(start, end) })
    }

    fn parse_type_product(&mut self) -> (r: Result<TypeExpr, OnewayError>)
        requires
            old(self).wf(),
        ensures
            final(self).wf(),
            final(self).toks() == old(self).toks(),
            type_outcome(p_product(old(self).toks(), old(self).pos as int), r, old(self).pos as int, final(self).pos as int),
        decreases old(self).tokens@.len() - old(self).pos, 4int,
    {
        let ghost t = self.toks();
        let ghost p = self.pos as int;
        let start = self.current_span();
        let first = match self.parse_type_spread_or_postfix() {
            Ok(x) => x,
            Err(e) => return Err(e),
        };
        if !self.check(TokenKind::Amp) {
            return Ok(first);
        }
        let ghost q0 = self.pos as int;
        let ghost fv = type_v(first);
        let mut fields: Vec<TypeExpr> = Vec::new();
        proof {
            lemma_types_v_push(fields@, first);
            assert(types_v(Seq::<TypeExpr>::empty()).push(fv) =~= seq![fv]);
        }
        fields.push(first);
        while self.check(TokenKind::Amp)
            invariant
                self.wf(),
                self.toks() == t,
                t == old(self).toks(),
                p == old(self).pos,
                self.tokens@.len() == old(self).tokens@.len(),
                p < self.pos,
                p_product(t, p) == product_rest(t, self.pos as int, types_v(fields@), start),
            decreases self.tokens@.len() - self.pos,
        {
            self.advance();
            self.skip_newlines();
            let x = match self.parse_type_spread_or_postfix() {
                Ok(x) => x,
                Err(e) => return Err(e),
            };
            proof {
                lemma_types_v_push(fields@, x);
            }
            fields.push(x);
        }
        let end = self.previous_span();
        Ok(TypeExpr::Product { fields, span: span_join(start, end) })
    }

    fn parse_type_spread_or_postfix(&mut self) -> (r: Result<TypeExpr, OnewayError>)
        requires
            old(self).wf(),
        ensures
            final(self).wf(),
            final(self).toks() == old(self).toks(),
            type_outcome(p_spread(old(self).toks(), old(self).pos as int), r, old(self).pos as int, final(self).pos as int),
        decreases old(self).tokens@.len() - old(self).pos, 3int,
    {
        let ghost t = self.toks();
        let ghost p = self.pos as int;
        assert(0 <= p < t.len());
        let start = self.current_span();
        if self.check(TokenKind::Ellipsis) {
            self.advance();
            let ty = match self.parse_type_postfix_atom() {
                Ok(x) => x,
                Err(e) => return Err(e),
            };
            let end = self.previous_span();
            return Ok(TypeExpr::Spread { ty: Box::new(ty), span: span_join(start, end) });
        }
        self.parse_type_postfix_atom()
    }

    fn parse_type_postfix_atom(&mut self) -> (r: Result<TypeExpr, OnewayError>)
        requires
            old(self).wf(),
        ensures
            final(self).wf(),
            final(self).toks() == old(self).toks(),
            type_outcome(p_postfix(old(self).toks(), old(self).pos as int), r, old(self).pos as int, final(self).pos as int),
        decreases old(self).tokens@.len() - old(self).pos, 2int,
    {
        let start = self.current_span();
        let atom = match self.parse_type_atom() {
            Ok(x) => x,
            Err(e) => return Err(e),
        };
        if !self.check(TokenKind::LBracket) {
            return Ok(atom);
        }
        self.advance();
        let count_tok = match self.expect(TokenKind::IntLit, "expected an integer count in `[N]`") {
            Ok(tok) => tok,
            Err(e) => return Err(e),
        };
        let count = match parse_unsigned(count_tok.lexeme.as_str(), false) {
            Some(c) => c,
            None => {
                let mut m = string_from("invalid integer `");
                push_str(&mut m, count_tok.lexeme.as_str());
                push_str(&mut m, "` in repetition count");
                return Err(OnewayError::ParseError { message: m, span: count_tok.span });
            },
        };
        match self.expect(TokenKind::RBracket, "expected `]` after repetition count") {
            Ok(_) => {},
            Err(e) => return Err(e),
        }
        let end = self.previous_span();
        Ok(TypeExpr::Repeat { ty: Box::new(atom), count, span: span_join(start, end) })
    }

    fn parse_type_atom(&mut self) -> (r: Result<TypeExpr, OnewayError>)
        requires
            old(self).wf(),
        ensures
            final(self).wf(),
            final(self).toks() == old(self).toks(),
            type_outcome(p_atom(old(self).toks(), old(self).pos as int), r, old(self).pos as int, final(self).pos as int),
        decreases old(self).tokens@.len() - old(self).pos, 1int,
    {
        let ghost t = self.toks();
        let ghost p = self.pos as int;
        let start = self.current_span();
        let name_tok = if self.check(TokenKind::KwSelf) {
            self.advance()
        } else {
            match self.expect(TokenKind::Ident, "expected a type name") {
                Ok(tok) => tok,
                Err(e) => return Err(e),
            }
        };
        let name = name_tok.lexeme;
        let mut generics: Vec<TypeExpr> = Vec::new();
        if self.check(TokenKind::Lt) {
            self.advance();
            let ghost p2 = self.pos as int;
            if !self.check(TokenKind::Gt) {
                assert(advanced(t, p, p2));
                loop
                    invariant_except_break
                        type_list(t, p2, Seq::empty()) == type_list(t, self.pos as int, types_v(generics@)),
                    invariant
                        p < p2 < t.len(),
                        forall|e: SpecError| type_list(t, p2, Seq::empty()) == Parsed::<Seq<SpecType>>::Err(e)
                            ==> p_atom(t, p) == Parsed::<SpecType>::Err(e),
                        self.wf(),
                        self.toks() == t,
                        t == old(self).toks(),
                        p == old(self).pos,
                        self.tokens@.len() == old(self).tokens@.len(),
                        p < self.pos,
                    ensures
                        type_list(t, p2, Seq::empty()) == Parsed::<Seq<SpecType>>::Ok((types_v(generics@), self.pos as int)),
                    decreases self.tokens@.len() - self.pos,
                {
                    let ghost cur = self.pos as int;
                    let ty = match self.parse_type_expr() {
                        Ok(x) => x,
                        Err(e) => {
                            proof {
                                assert(type_list(t, cur, types_v(generics@)) == Parsed::<Seq<SpecType>>::Err(e@));
                            }
                            return Err(e);
                        },
                    };
                    proof {
                        lemma_types_v_push(generics@, ty);
                    }
                    generics.push(ty);
                    if self.check(TokenKind::Comma) {
                        self.advance();
                    } else {
                        break;
                    }
                }
            }
            match self.expect(TokenKind::Gt, "expected `>` to close generic application") {
                Ok(_) => {},
                Err(e) => return Err(e),
            }
        }
        let end = self.previous_span();
        Ok(TypeExpr::Named { name, generics, span: span_join(start, end) })
    }

    // ── parameters ──────────────────────────────────────────────────────

    fn parse_param(&mut self) -> (r: Result<Param, OnewayError>)
        requires
            old(self).wf(),
        ensures
            final(self).wf(),
            final(self).toks() == old(self).toks(),
            param_outcome(p_param(old(self).toks(), old(self).pos as int), r, old(self).pos as int, final(self).pos as int),
    {
        proof {
            reveal(p_param);
        }
        let start = self.current_span();
        let mutable = if self.check(TokenKind::KwMut) {
            self.advance();
            true
        } else {
            false
        };
        let ty = match self.parse_type_expr() {
            Ok(x) => x,
            Err(e) => return Err(e),
        };
        let end = self.previous_span();
        Ok(Param { ty, mutable, span: span_join(start, end) })
    }

    /// Parameters separated by commas.
    fn parse_param_list(&mut self) -> (r: Result<Vec<Param>, OnewayError>)
        requires
            old(self).wf(),
        ensures
            final(self).wf(),
            final(self).toks() == old(self).toks(),
            match r {
                Ok(ps) => param_list(old(self).toks(), old(self).pos as int, Seq::empty())
                    == Parsed::<Seq<SpecParam>>::Ok((params_v(ps@), final(self).pos as int))
                    && old(self).pos < final(self).pos,
                Err(e) => param_list(old(self).toks(), old(self).pos as int, Seq::empty()) == Parsed::<Seq<SpecParam>>::Err(e@),
            },
    {
        let ghost t = self.toks();
        let ghost p = self.pos as int;
        let mut params: Vec<Param> = Vec::new();
        loop
            invariant_except_break
                param_list(t, p, Seq::empty()) == param_list(t, self.pos as int, params_v(params@)),
            invariant
                self.wf(),
                self.toks() == t,
                t == old(self).toks(),
                p == old(self).pos,
                p <= self.pos,
                p < self.pos || params@.len() == 0,
            ensures
                param_list(t, p, Seq::empty()) == Parsed::<Seq<SpecParam>>::Ok((params_v(params@), self.pos as int)),
                p < self.pos,
            decreases self.tokens@.len() - self.pos,
        {
            let ghost cur = self.pos as int;
            let x = match self.parse_param() {
                Ok(x) => x,
                Err(e) => {
                    proof {
                        assert(param_list(t, cur, params_v(params@)) == Parsed::<Seq<SpecParam>>::Err(e@));
                    }
                    return Err(e);
                },
            };
            proof {
                lemma_params_v_push(params@, x);
            }
            params.push(x);
            if self.check(TokenKind::Comma) {
                self.advance();
            } else {
                break;
            }
        }
        Ok(params)
    }

    /// `(params) -> Return`.
    fn parse_signature(&mut self) -> (r: Result<(Vec<Param>, TypeExpr), OnewayError>)
        requires
            old(self).wf(),
        ensures
            final(self).wf(),
            final(self).toks() == old(self).toks(),
            match r {
                Ok((ps, rt)) => p_signature(old(self).toks(), old(self).pos as int)
                    == Parsed::<(Seq<SpecParam>, SpecType)>::Ok(((params_v(ps@), type_v(rt)), final(self).pos as int))
                    && old(self).pos < final(self).pos,
                Err(e) => p_signature(old(self).toks(), old(self).pos as int) == Parsed::<(Seq<SpecParam>, SpecType)>::Err(e@),
            },
    {
        proof {
            reveal(p_signature);
        }
        match self.expect(TokenKind::LParen, "expected `(` to begin parameter list") {
            Ok(_) => {},
            Err(e) => return Err(e),
        }
        let params = if !self.check(TokenKind::RParen) {
            match self.parse_param_list() {
                Ok(ps) => ps,
                Err(e) => return Err(e),
            }
        } else {
            Vec::new()
        };
        match self.expect(TokenKind::RParen, "expected `)` to close parameter list") {
            Ok(_) => {},
            Err(e) => return Err(e),
        }
        match self.expect(TokenKind::Arrow, "expected `->` before return type") {
            Ok(_) => {},
            Err(e) => return Err(e),
        }
        let return_ty = match self.parse_type_expr() {
            Ok(x) => x,
            Err(e) => return Err(e),
        };
        Ok((params, return_ty))
    }

    fn parse_generic_params(&mut self) -> (r: Result<Vec<GenericParam>, OnewayError>)
        requires
            old(self).wf(),
        ensures
            final(self).wf(),
            final(self).toks() == old(self).toks(),
            match r {
                Ok(gs) => p_generic_params(old(self).toks(), old(self).pos as int)
                    == Parsed::<Seq<SpecGenericParam>>::Ok((gparams_v(gs@), final(self).pos as int))
                    && old(self).pos < final(self).pos,
                Err(e) => p_generic_params(old(self).toks(), old(self).pos as int) == Parsed::<Seq<SpecGenericParam>>::Err(e@),
            },
    {
        proof {
            reveal(p_generic_params);
        }
        let ghost t = self.toks();
        let ghost p = self.pos as int;
        match self.expect(TokenKind::Lt, "expected `<` to begin generic parameters") {
            Ok(_) => {},
            Err(e) => return Err(e),
        }
        let ghost p1 = self.pos as int;
        let mut params: Vec<GenericParam> = Vec::new();
        if !self.check(TokenKind::Gt) {
            loop
                invariant_except_break
                    generic_list(t, p1, Seq::empty()) == generic_list(t, self.pos as int, gparams_v(params@)),
                invariant
                    self.wf(),
                    self.toks() == t,
                    t == old(self).toks(),
                    p == old(self).pos,
                    p < p1 <= self.pos,
                    forall|e: SpecError| generic_list(t, p1, Seq::empty()) == Parsed::<Seq<SpecGenericParam>>::Err(e)
                        ==> p_generic_params(t, p) == Parsed::<Seq<SpecGenericParam>>::Err(e),
                ensures
                    generic_list(t, p1, Seq::empty()) == Parsed::<Seq<SpecGenericParam>>::Ok((gparams_v(params@), self.pos as int)),
                decreases self.tokens@.len() - self.pos,
            {
                let ghost cur = self.pos as int;
                let start = self.current_span();
                let name_tok = match self.expect(TokenKind::Ident, "expected generic parameter name") {
                    Ok(tok) => tok,
                    Err(e) => return Err(e),
                };
                let name = Ident { name: name_tok.lexeme, span: name_tok.span };
                let bound = if self.check(TokenKind::Colon) {
                    self.advance();
                    match self.parse_type_expr() {
                        Ok(b) => Some(b),
                        Err(e) => return Err(e),
                    }
                } else {
                    None
                };
                let end = self.previous_span();
                let gp = GenericParam { name, bound, span: span_join(start, end) };
                proof {
                    lemma_gparams_v_push(params@, gp);
                }
                params.push(gp);
                if self.check(TokenKind::Comma) {
                    self.advance();
                } else {
                    break;
                }
            }
        }
        match self.expect(TokenKind::Gt, "expected `>` to close generic parameters") {
            Ok(_) => {},
            Err(e) => return Err(e),
        }
        Ok(params)
    }

    /// The generic parameters here if `<` stands here, else none.
    fn parse_opt_generic_params(&mut self) -> (r: Result<Vec<GenericParam>, OnewayError>)
        requires
            old(self).wf(),
        ensures
            final(self).wf(),
            final(self).toks() == old(self).toks(),
            match r {
                Ok(gs) => p_opt_generic_params(old(self).toks(), old(self).pos as int)
                    == Parsed::<Seq<SpecGenericParam>>::Ok((gparams_v(gs@), final(self).pos as int))
                    && old(self).pos <= final(self).pos,
                Err(e) => p_opt_generic_params(old(self).toks(), old(self).pos as int) == Parsed::<Seq<SpecGenericParam>>::Err(e@),
            },
    {
        proof {
            reveal(p_opt_generic_params);
        }
        if self.check(TokenKind::Lt) {
            self.parse_generic_params()
        } else {
            Ok(Vec::new())
        }
    }

    // ── patterns ────────────────────────────────────────────────────────

    fn parse_pattern(&mut self) -> (r: Result<Pattern, OnewayError>)
        requires
            old(self).wf(),
        ensures
            final(self).wf(),
            final(self).toks() == old(self).toks(),
            pattern_outcome(p_pattern(old(self).toks(), old(self).pos as int), r, old(self).pos as int, final(self).pos as int),
        decreases old(self).tokens@.len() - old(self).pos, 1int,
    {
        let ghost t = self.toks();
        let ghost p = self.pos as int;
        let tok = match self.expect(TokenKind::Ident, "expected a pattern (variant name or `_`)") {
            Ok(tok) => tok,
            Err(e) => return Err(e),
        };
        proof {
            reveal_strlit("_");
        }
        if crate::lexer::token::str_eq(tok.lexeme.as_str(), "_") {
            return Ok(Pattern::Wildcard { span: tok.span });
        }
        let mut args: Vec<Pattern> = Vec::new();
        let mut end_span = tok.span;
        if self.check(TokenKind::LParen) {
            self.advance();
            let ghost p2 = self.pos as int;
            if !self.check(TokenKind::RParen) {
                assert(advanced(t, p, p2));
                loop
                    invariant_except_break
                        pattern_list(t, p2, Seq::empty()) == pattern_list(t, self.pos as int, patterns_v(args@)),
                    invariant
                        self.wf(),
                        self.toks() == t,
                        t == old(self).toks(),
                        p == old(self).pos,
                        self.tokens@.len() == old(self).tokens@.len(),
                        p < p2 <= self.pos,
                        p < p2 < t.len(),
                        forall|e: SpecError| pattern_list(t, p2, Seq::empty()) == Parsed::<Seq<SpecPattern>>::Err(e)
                            ==> p_pattern(t, p) == Parsed::<SpecPattern>::Err(e),
                    ensures
                        pattern_list(t, p2, Seq::empty()) == Parsed::<Seq<SpecPattern>>::Ok((patterns_v(args@), self.pos as int)),
                    decreases self.tokens@.len() - self.pos,
                {
                    let ghost cur = self.pos as int;
                    let x = match self.parse_pattern() {
                        Ok(x) => x,
                        Err(e) => {
                            proof {
                                assert(pattern_list(t, cur, patterns_v(args@)) == Parsed::<Seq<SpecPattern>>::Err(e@));
                            }
                            return Err(e);
                        },
                    };
                    proof {
                        lemma_patterns_v_push(args@, x);
                    }
                    args.push(x);
                    if self.check(TokenKind::Comma) {
                        self.advance();
                    } else {
                        break;
                    }
                }
            }
            let rparen = match self.expect(TokenKind::RParen, "expected `)` to close pattern") {
                Ok(tok) => tok,
                Err(e) => return Err(e),
            };
            end_span = rparen.span;
        }
        Ok(Pattern::Variant { name: tok.lexeme, args, span: span_join(tok.span, end_span) })
    }

    fn parse_method_name(&mut self, msg: &str) -> (r: Result<Ident, OnewayError>)
        requires
            old(self).wf(),
        ensures
            final(self).wf(),
            final(self).toks() == old(self).toks(),
            match r {
                Ok(i) => p_method_name(old(self).toks(), old(self).pos as int, msg@) == Parsed::<SpecIdent>::Ok((i@, final(self).pos as int))
                    && old(self).pos < final(self).pos,
                Err(e) => p_method_name(old(self).toks(), old(self).pos as int, msg@) == Parsed::<SpecIdent>::Err(e@),
            },
    {
        proof {
            reveal(p_method_name);
        }
        if self.check(TokenKind::Ident) || self.check(TokenKind::KwSelf) {
            let tok = self.advance();
            Ok(Ident { name: tok.lexeme, span: tok.span })
        } else {
            Err(self.error_here(msg))
        }
    }

    // ── expressions ─────────────────────────────────────────────────────

    /// Types separated by commas.
    fn parse_type_list(&mut self) -> (r: Result<Vec<TypeExpr>, OnewayError>)
        requires
            old(self).wf(),
        ensures
            final(self).wf(),
            final(self).toks() == old(self).toks(),
            match r {
                Ok(ts) => type_list(old(self).toks(), old(self).pos as int, Seq::empty())
                    == Parsed::<Seq<SpecType>>::Ok((types_v(ts@), final(self).pos as int))
                    && old(self).pos < final(self).pos,
                Err(e) => type_list(old(self).toks(), old(self).pos as int, Seq::empty()) == Parsed::<Seq<SpecType>>::Err(e@),
            },
    {
        let ghost t = self.toks();
        let ghost p = self.pos as int;
        let mut types: Vec<TypeExpr> = Vec::new();
        loop
            invariant_except_break
                type_list(t, p, Seq::empty()) == type_list(t, self.pos as int, types_v(types@)),
            invariant
                self.wf(),
                self.toks() == t,
                t == old(self).toks(),
                p == old(self).pos,
                p <= self.pos,
            ensures
                type_list(t, p, Seq::empty()) == Parsed::<Seq<SpecType>>::Ok((types_v(types@), self.pos as int)),
                p < self.pos,
            decreases self.tokens@.len() - self.pos,
        {
            let ghost cur = self.pos as int;
            let x = match self.parse_type_expr() {
                Ok(x) => x,
                Err(e) => {
                    proof {
                        assert(type_list(t, cur, types_v(types@)) == Parsed::<Seq<SpecType>>::Err(e@));
                    }
                    return Err(e);
                },
            };
            proof {
                lemma_types_v_push(types@, x);
            }
            types.push(x);
            if self.check(TokenKind::Comma) {
                self.advance();
            } else {
                break;
            }
        }
        Ok(types)
    }

    /// Expressions separated by commas.
    fn parse_expr_list(&mut self) -> (r: Result<Vec<Expr>, OnewayError>)
        requires
            old(self).wf(),
        ensures
            final(self).wf(),
            final(self).toks() == old(self).toks(),
            match r {
                Ok(es) => expr_list(old(self).toks(), old(self).pos as int, Seq::empty())
                    == Parsed::<Seq<SpecExpr>>::Ok((exprs_v(es@), final(self).pos as int))
                    && old(self).pos < final(self).pos,
                Err(e) => expr_list(old(self).toks(), old(self).pos as int, Seq::empty()) == Parsed::<Seq<SpecExpr>>::Err(e@),
            },
        decreases old(self).tokens@.len() - old(self).pos, 4int,
    {
        let ghost t = self.toks();
        let ghost p = self.pos as int;
        let mut exprs: Vec<Expr> = Vec::new();
        loop
            invariant_except_break
                expr_list(t, p, Seq::empty()) == expr_list(t, self.pos as int, exprs_v(exprs@)),
            invariant
                self.wf(),
                self.toks() == t,
                t == old(self).toks(),
                p == old(self).pos,
                self.tokens@.len() == old(self).tokens@.len(),
                p <= self.pos,
                p < self.pos || exprs@.len() == 0,
            ensures
                expr_list(t, p, Seq::empty()) == Parsed::<Seq<SpecExpr>>::Ok((exprs_v(exprs@), self.pos as int)),
                p < self.pos,
            decreases self.tokens@.len() - self.pos,
        {
            let ghost cur = self.pos as int;
            let x = match self.parse_expr() {
                Ok(x) => x,
                Err(e) => {
                    proof {
                        assert(expr_list(t, cur, exprs_v(exprs@)) == Parsed::<Seq<SpecExpr>>::Err(e@));
                    }
                    return Err(e);
                },
            };
            proof {
                lemma_exprs_v_push(exprs@, x);
            }
            exprs.push(x);
            if self.check(TokenKind::Comma) {
                self.advance();
            } else {
                break;
            }
        }
        Ok(exprs)
    }

    fn parse_expr(&mut self) -> (r: Result<Expr, OnewayError>)
        requires
            old(self).wf(),
        ensures
            final(self).wf(),
            final(self).toks() == old(self).toks(),
            expr_outcome(p_expr(old(self).toks(), old(self).pos as int), r, old(self).pos as int, final(self).pos as int),
        decreases old(self).tokens@.len() - old(self).pos, 3int,
    {
        let ghost t = self.toks();
        let ghost p = self.pos as int;
        let mut expr = match self.parse_primary() {
            Ok(x) => x,
            Err(e) => return Err(e),
        };
        loop
            invariant
                self.wf(),
                self.toks() == t,
                t == old(self).toks(),
                p == old(self).pos,
                self.tokens@.len() == old(self).tokens@.len(),
                p < self.pos,
                p_expr(t, p) == postfix(t, self.pos as int, expr_v(expr)),
            ensures
                p_expr(t, p) == Parsed::<SpecExpr>::Ok((expr_v(expr), self.pos as int)),
            decreases self.tokens@.len() - self.pos,
        {
            let ghost cur = self.pos as int;
            let ghost ev = expr_v(expr);
            let next = self.peek_past_newlines();
            proof {
                lemma_skip_newlines(t, cur);
            }
            if next == TokenKind::Dot || next == TokenKind::Question {
                self.skip_newlines();
            }
            if self.check(TokenKind::Dot) {
                expr = match self.parse_method_call(expr) {
                    Ok(call) => call,
                    Err(e) => return Err(e),
                };
            } else if self.check(TokenKind::Question) {
                let q = self.advance();
                let start_span = expr.span();
                expr = Expr::Try { inner: Box::new(expr), span: span_join(start_span, q.span) };
            } else {
                break;
            }
        }
        Ok(expr)
    }

    fn parse_primary(&mut self) -> (r: Result<Expr, OnewayError>)
        requires
            old(self).wf(),
        ensures
            final(self).wf(),
            final(self).toks() == old(self).toks(),
            expr_outcome(p_primary(old(self).toks(), old(self).pos as int), r, old(self).pos as int, final(self).pos as int),
        decreases old(self).tokens@.len() - old(self).pos, 2int,
    {
        let ghost t = self.toks();
        let ghost p = self.pos as int;
        let tok = self.tokens[self.pos].clone();
        assert(tok@ == t[p]);
        match tok.kind {
            TokenKind::KwMatch => self.parse_match(),
            TokenKind::KwWhile => self.parse_while(),
            TokenKind::LParen => self.parse_lambda(),
            TokenKind::Ident | TokenKind::KwSelf => {
                self.advance();
                if self.check(TokenKind::LParen) {
                    self.advance();
                    assert(advanced(t, p, p + 2));
                    let (args, rparen) = match self.parse_call_args() {
                        Ok(x) => x,
                        Err(e) => return Err(e),
                    };
                    return Ok(Expr::Constructor {
                        name: Ident { name: tok.lexeme, span: tok.span },
                        args,
                        span: span_join(tok.span, rparen.span),
                    });
                }
                Ok(Expr::Ident(Ident { name: tok.lexeme, span: tok.span }))
            },
            TokenKind::StringLit => {
                self.advance();
                Ok(Expr::StringLit { value: tok.lexeme, span: tok.span })
            },
            TokenKind::IntLit => {
                self.advance();
                match parse_i64(tok.lexeme.as_str()) {
                    Some(value) => Ok(Expr::IntLit { value, span: tok.span }),
                    None => {
                        let mut m = string_from("invalid integer literal `");
                        push_str(&mut m, tok.lexeme.as_str());
                        push_str(&mut m, "`");
                        Err(OnewayError::ParseError { message: m, span: tok.span })
                    },
                }
            },
            TokenKind::FloatLit => {
                self.advance();
                if is_float_text(tok.lexeme.as_str()) {
                    Ok(Expr::FloatLit { value: tok.lexeme, span: tok.span })
                } else {
                    let mut m = string_from("invalid float literal `");
                    push_str(&mut m, tok.lexeme.as_str());
                    push_str(&mut m, "`");
                    Err(OnewayError::ParseError { message: m, span: tok.span })
                }
            },
            TokenKind::HexLit => {
                self.advance();
                let stripped = strip_hex_prefixes(tok.lexeme.as_str());
                match parse_unsigned(stripped.as_str(), true) {
                    Some(value) => Ok(Expr::HexLit { value, span: tok.span }),
                    None => {
                        let mut m = string_from("invalid hex literal `");
                        push_str(&mut m, tok.lexeme.as_str());
                        push_str(&mut m, "`");
                        Err(OnewayError::ParseError { message: m, span: tok.span })
                    },
                }
            },
            _ => Err(self.error_here("expected an expression")),
        }
    }

    #[verifier::spinoff_prover]
    #[verifier::rlimit(60)]
    fn parse_lambda(&mut self) -> (r: Result<Expr, OnewayError>)
        requires
            old(self).wf(),
        ensures
            final(self).wf(),
            final(self).toks() == old(self).toks(),
            expr_outcome(p_lambda(old(self).toks(), old(self).pos as int), r, old(self).pos as int, final(self).pos as int),
        decreases old(self).tokens@.len() - old(self).pos, 1int,
    {
        let lparen = match self.expect(TokenKind::LParen, "expected `(` to begin lambda") {
            Ok(tok) => tok,
            Err(e) => return Err(e),
        };
        let params = match self.parse_lambda_params() {
            Ok(ps) => ps,
            Err(e) => return Err(e),
        };
        let return_ty = match self.parse_type_expr() {
            Ok(x) => x,
            Err(e) => return Err(e),
        };
        let body = match self.parse_block() {
            Ok(b) => b,
            Err(e) => return Err(e),
        };
        let end = self.previous_span();
        Ok(Expr::Lambda { params, return_ty, body, span: span_join(lparen.span, end) })
    }

    #[verifier::spinoff_prover]
    #[verifier::rlimit(60)]
    fn parse_while(&mut self) -> (r: Result<Expr, OnewayError>)
        requires
            old(self).wf(),
        ensures
            final(self).wf(),
            final(self).toks() == old(self).toks(),
            expr_outcome(p_while(old(self).toks(), old(self).pos as int), r, old(self).pos as int, final(self).pos as int),
        decreases old(self).tokens@.len() - old(self).pos, 1int,
    {
        let kw = match self.expect(TokenKind::KwWhile, "expected `while`") {
            Ok(tok) => tok,
            Err(e) => return Err(e),
        };
        let cond = match self.parse_expr() {
            Ok(x) => x,
            Err(e) => return Err(e),
        };
        let body = match self.parse_block() {
            Ok(b) => b,
            Err(e) => return Err(e),
        };
        let end = self.previous_span();
        Ok(Expr::While { cond: Box::new(cond), body, span: span_join(kw.span, end) })
    }

    fn parse_match(&mut self) -> (r: Result<Expr, OnewayError>)
        requires
            old(self).wf(),
        ensures
            final(self).wf(),
            final(self).toks() == old(self).toks(),
            expr_outcome(p_match(old(self).toks(), old(self).pos as int), r, old(self).pos as int, final(self).pos as int),
        decreases old(self).tokens@.len() - old(self).pos, 1int,
    {
        let ghost t = self.toks();
        let ghost p = self.pos as int;
        let kw = match self.expect(TokenKind::KwMatch, "expected `match`") {
            Ok(tok) => tok,
            Err(e) => return Err(e),
        };
        let scrutinee = match self.parse_expr() {
            Ok(x) => x,
            Err(e) => return Err(e),
        };
        match self.expect(TokenKind::LBrace, "expected `{` to begin match arms") {
            Ok(_) => {},
            Err(e) => return Err(e),
        }
        self.skip_newlines();
        let ghost p4 = self.pos as int;
        let mut arms: Vec<MatchArm> = Vec::new();
        while !self.check(TokenKind::RBrace) && !self.is_at_end()
            invariant
                self.wf(),
                self.toks() == t,
                t == old(self).toks(),
                p == old(self).pos,
                self.tokens@.len() == old(self).tokens@.len(),
                p < p4 <= self.pos,
                p4 < t.len(),
                arm_list(t, p4, Seq::empty()) == arm_list(t, self.pos as int, arms_v(arms@)),
                forall|e: SpecError| arm_list(t, p4, Seq::empty()) == Parsed::<Seq<SpecArm>>::Err(e)
                    ==> p_match(t, p) == Parsed::<SpecExpr>::Err(e),
            decreases self.tokens@.len() - self.pos,
        {
            let ghost cur = self.pos as int;
            let arm = match self.parse_match_arm() {
                Ok(a) => a,
                Err(e) => {
                    proof {
                        assert(arm_list(t, cur, arms_v(arms@)) == Parsed::<Seq<SpecArm>>::Err(e@));
                    }
                    return Err(e);
                },
            };
            proof {
                lemma_arms_v_push(arms@, arm);
            }
            arms.push(arm);
            if self.check(TokenKind::Comma) {
                self.advance();
            }
            self.skip_newlines();
        }
        let rbrace = match self.expect(TokenKind::RBrace, "expected `}` to close match") {
            Ok(tok) => tok,
            Err(e) => return Err(e),
        };
        Ok(Expr::Match { scrutinee: Box::new(scrutinee), arms, span: span_join(kw.span, rbrace.span) })
    }

    fn parse_match_arm(&mut self) -> (r: Result<MatchArm, OnewayError>)
        requires
            old(self).wf(),
        ensures
            final(self).wf(),
            final(self).toks() == old(self).toks(),
            arm_outcome(p_arm(old(self).toks(), old(self).pos as int), r, old(self).pos as int, final(self).pos as int),
        decreases old(self).tokens@.len() - old(self).pos, 1int,
    {
        let pattern = match self.parse_pattern() {
            Ok(x) => x,
            Err(e) => return Err(e),
        };
        match self.expect(TokenKind::FatArrow, "expected `=>` after match pattern") {
            Ok(_) => {},
            Err(e) => return Err(e),
        }
        let body = match self.parse_expr() {
            Ok(x) => x,
            Err(e) => return Err(e),
        };
        let arm_span = span_join(pattern.span(), body.span());
        Ok(MatchArm { pattern, body, span: arm_span })
    }

    fn parse_block(&mut self) -> (r: Result<Block, OnewayError>)
        requires
            old(self).wf(),
        ensures
            final(self).wf(),
            final(self).toks() == old(self).toks(),
            block_outcome(p_block(old(self).toks(), old(self).pos as int), r, old(self).pos as int, final(self).pos as int),
        decreases old(self).tokens@.len() - old(self).pos, 1int,
    {
        let ghost t = self.toks();
        let ghost p = self.pos as int;
        let lbrace = match self.expect(TokenKind::LBrace, "expected `{` to begin block") {
            Ok(tok) => tok,
            Err(e) => return Err(e),
        };
        let start = lbrace.span;
        let mut exprs: Vec<Expr> = Vec::new();
        self.skip_newlines();
        let ghost p2 = self.pos as int;
        while !self.check(TokenKind::RBrace) && !self.is_at_end()
            invariant
                self.wf(),
                self.toks() == t,
                t == old(self).toks(),
                p == old(self).pos,
                self.tokens@.len() == old(self).tokens@.len(),
                p < p2 <= self.pos,
                p2 < t.len(),
                block_exprs(t, p2, Seq::empty()) == block_exprs(t, self.pos as int, exprs_v(exprs@)),
                forall|e: SpecError| block_exprs(t, p2, Seq::empty()) == Parsed::<Seq<SpecExpr>>::Err(e)
                    ==> p_block(t, p) == Parsed::<SpecBlock>::Err(e),
            decreases self.tokens@.len() - self.pos,
        {
            let ghost cur = self.pos as int;
            let x = match self.parse_expr() {
                Ok(x) => x,
                Err(e) => {
                    proof {
                        assert(block_exprs(t, cur, exprs_v(exprs@)) == Parsed::<Seq<SpecExpr>>::Err(e@));
                    }
                    return Err(e);
                },
            };
            proof {
                lemma_exprs_v_push(exprs@, x);
            }
            exprs.push(x);
            self.skip_newlines();
        }
        let rbrace = match self.expect(TokenKind::RBrace, "expected `}` to close block") {
            Ok(tok) => tok,
            Err(e) => return Err(e),
        };
        Ok(Block { exprs, span: span_join(start, rbrace.span) })
    }

    /// `::<types>` after a method name, if it stands there.
    fn parse_turbofish(&mut self) -> (r: Result<Vec<TypeExpr>, OnewayError>)
        requires
            old(self).wf(),
        ensures
            final(self).wf(),
            final(self).toks() == old(self).toks(),
            match r {
                Ok(ts) => p_turbofish(old(self).toks(), old(self).pos as int)
                    == Parsed::<Seq<SpecType>>::Ok((types_v(ts@), final(self).pos as int))
                    && old(self).pos <= final(self).pos,
                Err(e) => p_turbofish(old(self).toks(), old(self).pos as int) == Parsed::<Seq<SpecType>>::Err(e@),
            },
    {
        proof {
            reveal(p_turbofish);
        }
        let mut type_args: Vec<TypeExpr> = Vec::new();
        if self.check(TokenKind::ColonColon) {
            self.advance();
            match self.expect(TokenKind::Lt, "expected `<` after `::` in turbofish") {
                Ok(_) => {},
                Err(e) => return Err(e),
            }
            if !self.check(TokenKind::Gt) {
                type_args = match self.parse_type_list() {
                    Ok(ts) => ts,
                    Err(e) => return Err(e),
                };
            }
            match self.expect(TokenKind::Gt, "expected `>` to close turbofish type arguments") {
                Ok(_) => {},
                Err(e) => return Err(e),
            }
        }
        Ok(type_args)
    }

    /// The method call on `receiver` whose `.` is the current token.
    #[verifier::spinoff_prover]
    fn parse_method_call(&mut self, receiver: Expr) -> (r: Result<Expr, OnewayError>)
        requires
            old(self).wf(),
            old(self).toks()[old(self).pos as int].kind == TokenKind::Dot,
        ensures
            final(self).wf(),
            final(self).toks() == old(self).toks(),
            expr_outcome(p_method_call(old(self).toks(), old(self).pos as int, expr_v(receiver)), r, old(self).pos as int, final(self).pos as int),
        decreases old(self).tokens@.len() - old(self).pos, 1int,
    {
        let ghost t = self.toks();
        let ghost p = self.pos as int;
        let ghost ev = expr_v(receiver);
        self.advance();
        let method_tok = match self.expect(TokenKind::Ident, "expected method name after `.`") {
            Ok(tok) => tok,
            Err(e) => return Err(e),
        };
        let ghost p2 = self.pos as int;
        let ghost mt = method_tok@;
        let method = Ident { name: method_tok.lexeme, span: method_tok.span };
        let type_args = match self.parse_turbofish() {
            Ok(ts) => ts,
            Err(e) => return Err(e),
        };
        let ghost p6 = self.pos as int;
        match self.expect(TokenKind::LParen, "expected `(` after method name") {
            Ok(_) => {},
            Err(e) => return Err(e),
        }
        let ghost p7 = self.pos as int;
        assert(advanced(t, p, p7));
        let args = if !self.check(TokenKind::RParen) {
            match self.parse_expr_list() {
                Ok(xs) => xs,
                Err(e) => return Err(e),
            }
        } else {
            Vec::new()
        };
        let ghost p8 = self.pos as int;
        let ghost args_spec = if t[p7].kind != TokenKind::RParen {
            expr_list(t, p7, Seq::empty())
        } else {
            Parsed::<Seq<SpecExpr>>::Ok((Seq::empty(), p7))
        };
        assert(args_spec == Parsed::<Seq<SpecExpr>>::Ok((exprs_v(args@), p8)));
        let rparen = match self.expect(TokenKind::RParen, "expected `)` to close method call") {
            Ok(tok) => tok,
            Err(e) => return Err(e),
        };
        let start_span = receiver.span();
        let call = Expr::MethodCall { receiver: Box::new(receiver), method, type_args, args, span: span_join(start_span, rparen.span) };
        assert(expr_v(call) == SpecExpr::MethodCall {
            receiver: Box::new(ev),
            method: grammar::ident_of(mt),
            type_args: types_v(type_args@),
            args: exprs_v(args@),
            span: grammar::span_join(grammar::expr_span(ev), rparen@.span),
        });
        Ok(call)
    }

    /// A constructor's arguments after its `(`, and the closing `)`.
    fn parse_call_args(&mut self) -> (r: Result<(Vec<Expr>, Token), OnewayError>)
        requires
            old(self).wf(),
        ensures
            final(self).wf(),
            final(self).toks() == old(self).toks(),
            match r {
                Ok((xs, rp)) => grammar::call_args(old(self).toks(), old(self).pos as int)
                    == Parsed::<(Seq<SpecExpr>, SpecToken)>::Ok(((exprs_v(xs@), rp@), final(self).pos as int))
                    && old(self).pos < final(self).pos,
                Err(e) => grammar::call_args(old(self).toks(), old(self).pos as int) == Parsed::<(Seq<SpecExpr>, SpecToken)>::Err(e@),
            },
        decreases old(self).tokens@.len() - old(self).pos, 5int,
    {
        let args = if !self.check(TokenKind::RParen) {
            match self.parse_expr_list() {
                Ok(xs) => xs,
                Err(e) => return Err(e),
            }
        } else {
            Vec::new()
        };
        let rparen = match self.expect(TokenKind::RParen, "expected `)` to close constructor") {
            Ok(tok) => tok,
            Err(e) => return Err(e),
        };
        Ok((args, rparen))
    }

    /// A lambda's parameters after its `(`, through `)` and `->`.
    fn parse_lambda_params(&mut self) -> (r: Result<Vec<Param>, OnewayError>)
        requires
            old(self).wf(),
        ensures
            final(self).wf(),
            final(self).toks() == old(self).toks(),
            match r {
                Ok(ps) => grammar::lambda_params(old(self).toks(), old(self).pos as int)
                    == Parsed::<Seq<SpecParam>>::Ok((params_v(ps@), final(self).pos as int))
                    && old(self).pos < final(self).pos,
                Err(e) => grammar::lambda_params(old(self).toks(), old(self).pos as int) == Parsed::<Seq<SpecParam>>::Err(e@),
            },
    {
        proof {
            reveal(grammar::lambda_params);
        }
        let params = if !self.check(TokenKind::RParen) {
            match self.parse_param_list() {
                Ok(ps) => ps,
                Err(e) => return Err(e),
            }
        } else {
            Vec::new()
        };
        match self.expect(TokenKind::RParen, "expected `)` to close lambda parameter list") {
            Ok(_) => {},
            Err(e) => return Err(e),
        }
        match self.expect(TokenKind::Arrow, "expected `->` after lambda parameter list") {
            Ok(_) => {},
            Err(e) => return Err(e),
        }
        Ok(params)
    }

    // ── items ───────────────────────────────────────────────────────────

    fn parse_function_after_eq(&mut self, receiver: Option<Ident>, name: Ident, start_span: Span) -> (r: Result<Item, OnewayError>)
        requires
            old(self).wf(),
        ensures
            final(self).wf(),
            final(self).toks() == old(self).toks(),
            match r {
                Ok(x) => p_function_after_eq(old(self).toks(), old(self).pos as int, opt_ident_v(receiver), name@, start_span)
                    == Parsed::<SpecItem>::Ok((item_v(x), final(self).pos as int)) && old(self).pos < final(self).pos,
                Err(e) => p_function_after_eq(old(self).toks(), old(self).pos as int, opt_ident_v(receiver), name@, start_span)
                    == Parsed::<SpecItem>::Err(e@),
            },
    {
        proof {
            reveal(p_function_after_eq);
        }
        let generic_params = match self.parse_opt_generic_params() {
            Ok(gs) => gs,
            Err(e) => return Err(e),
        };
        let (params, return_ty) = match self.parse_signature() {
            Ok(x) => x,
            Err(e) => return Err(e),
        };
        if self.check(TokenKind::LBrace) {
            let body = match self.parse_block() {
                Ok(b) => b,
                Err(e) => return Err(e),
            };
            let end_span = self.previous_span();
            return Ok(Item::Function(FunctionDef {
                receiver,
                name,
                generic_params,
                params,
                return_ty,
                body,
                extern_rust: None,
                span: span_join(start_span, end_span),
            }));
        }
        if receiver.is_some() {
            let message = string_from("method definition requires a body `{ ... }`");
            return Err(OnewayError::ParseError { message, span: self.current_span() });
        }
        let end_span = self.previous_span();
        let func_ty_span = span_join(start_span, end_span);
        let function_ty = TypeExpr::Function {
            generic_params,
            params: types_of_params(params),
            return_ty: Box::new(return_ty),
            span: func_ty_span,
        };
        Ok(Item::TypeDef(TypeDef { name, generic_params: Vec::new(), body: function_ty, span: func_ty_span }))
    }

    fn parse_function_after_name(&mut self, receiver: Option<Ident>, name: Ident, start_span: Span) -> (r: Result<Item, OnewayError>)
        requires
            old(self).wf(),
        ensures
            final(self).wf(),
            final(self).toks() == old(self).toks(),
            match r {
                Ok(x) => old(self).pos < final(self).pos && match expect(old(self).toks(), old(self).pos as int, TokenKind::Eq, "expected `=` after function name"@) {
                    Ok((_, q)) => p_function_after_eq(old(self).toks(), q, opt_ident_v(receiver), name@, start_span)
                        == Parsed::<SpecItem>::Ok((item_v(x), final(self).pos as int)),
                    Err(_) => false,
                },
                Err(e) => match expect(old(self).toks(), old(self).pos as int, TokenKind::Eq, "expected `=` after function name"@) {
                    Ok((_, q)) => p_function_after_eq(old(self).toks(), q, opt_ident_v(receiver), name@, start_span)
                        == Parsed::<SpecItem>::Err(e@),
                    Err(e2) => e2 == e@,
                },
            },
    {
        match self.expect(TokenKind::Eq, "expected `=` after function name") {
            Ok(_) => {},
            Err(e) => return Err(e),
        }
        self.parse_function_after_eq(receiver, name, start_span)
    }

    /// `extern Rust("path")` or `extern Rust.async("path")`, and the
    /// newlines after it.
    fn parse_extern(&mut self) -> (r: Result<ExternRust, OnewayError>)
        requires
            old(self).wf(),
            old(self).toks()[old(self).pos as int].kind == TokenKind::KwExtern,
        ensures
            final(self).wf(),
            final(self).toks() == old(self).toks(),
            match r {
                Ok(x) => p_extern(old(self).toks(), old(self).pos as int) == Parsed::<SpecExtern>::Ok((x@, final(self).pos as int))
                    && old(self).pos < final(self).pos,
                Err(e) => p_extern(old(self).toks(), old(self).pos as int) == Parsed::<SpecExtern>::Err(e@),
            },
    {
        proof {
            reveal(p_extern);
        }
        self.advance();
        let lang_tok = match self.expect(TokenKind::Ident, "expected language after `extern`") {
            Ok(tok) => tok,
            Err(e) => return Err(e),
        };
        if !crate::lexer::token::str_eq(lang_tok.lexeme.as_str(), "Rust") {
            let mut m = string_from("only `extern Rust` is supported (got `extern ");
            push_str(&mut m, lang_tok.lexeme.as_str());
            push_str(&mut m, "`)");
            return Err(OnewayError::ParseError { message: m, span: lang_tok.span });
        }
        let mut is_async = false;
        if self.check(TokenKind::Dot) {
            self.advance();
            let qualifier_tok = match self.expect(TokenKind::Ident, "expected `async` after `extern Rust.`") {
                Ok(tok) => tok,
                Err(e) => return Err(e),
            };
            if !crate::lexer::token::str_eq(qualifier_tok.lexeme.as_str(), "async") {
                let mut m = string_from("only `extern Rust.async` is supported (got `extern Rust.");
                push_str(&mut m, qualifier_tok.lexeme.as_str());
                push_str(&mut m, "`)");
                return Err(OnewayError::ParseError { message: m, span: qualifier_tok.span });
            }
            is_async = true;
        }
        match self.expect(TokenKind::LParen, "expected `(` after `extern Rust`") {
            Ok(_) => {},
            Err(e) => return Err(e),
        }
        let path_tok = match self.expect(TokenKind::StringLit, "expected a Rust path string after `extern Rust(`") {
            Ok(tok) => tok,
            Err(e) => return Err(e),
        };
        match self.expect(TokenKind::RParen, "expected `)` after Rust path") {
            Ok(_) => {},
            Err(e) => return Err(e),
        }
        self.skip_newlines();
        Ok(ExternRust { path: path_tok.lexeme, is_async })
    }

    #[verifier::spinoff_prover]
    fn parse_extern_item(&mut self, start_span: Span, first_ident: Ident, extern_decl: ExternRust) -> (r: Result<Item, OnewayError>)
        requires
            old(self).wf(),
        ensures
            final(self).wf(),
            final(self).toks() == old(self).toks(),
            match r {
                Ok(x) => p_extern_item(old(self).toks(), old(self).pos as int, start_span, first_ident@, extern_decl@)
                    == Parsed::<SpecItem>::Ok((item_v(x), final(self).pos as int)) && old(self).pos <= final(self).pos,
                Err(e) => p_extern_item(old(self).toks(), old(self).pos as int, start_span, first_ident@, extern_decl@)
                    == Parsed::<SpecItem>::Err(e@),
            },
    {
        proof {
            reveal(p_extern_item);
        }
        if self.check(TokenKind::Dot) {
            self.advance();
            let name = match self.parse_method_name("expected method name after `.`") {
                Ok(n) => n,
                Err(e) => return Err(e),
            };
            match self.expect(TokenKind::Eq, "expected `=` after extern method name") {
                Ok(_) => {},
                Err(e) => return Err(e),
            }
            let generic_params = match self.parse_opt_generic_params() {
                Ok(gs) => gs,
                Err(e) => return Err(e),
            };
            let (params, return_ty) = match self.parse_signature() {
                Ok(x) => x,
                Err(e) => return Err(e),
            };
            let end_span = self.previous_span();
            let empty_body_span = Span::new(end_span.end, end_span.end, end_span.line, end_span.column);
            return Ok(Item::Function(FunctionDef {
                receiver: Some(first_ident),
                name,
                generic_params,
                params,
                return_ty,
                body: Block { exprs: Vec::new(), span: empty_body_span },
                extern_rust: Some(extern_decl),
                span: span_join(start_span, end_span),
            }));
        }
        if extern_decl.is_async {
            let message = string_from("`extern Rust.async` is only valid on method declarations, not on types");
            return Err(OnewayError::ParseError { message, span: first_ident.span });
        }
        if !self.check(TokenKind::Eq) {
            let end_span = first_ident.span;
            proof {
                assert(types_v(Seq::<TypeExpr>::empty()) =~= Seq::<SpecType>::empty());
                assert(gparams_v(Seq::<GenericParam>::empty()) =~= Seq::<SpecGenericParam>::empty());
            }
            let mut path_name = string_from("__extern__");
            push_str(&mut path_name, extern_decl.path.as_str());
            return Ok(Item::TypeDef(TypeDef {
                name: first_ident.clone(),
                generic_params: Vec::new(),
                body: TypeExpr::Named { name: path_name, generics: Vec::new(), span: end_span },
                span: span_join(start_span, end_span),
            }));
        }
        self.advance();
        let body = match self.parse_type_expr() {
            Ok(b) => b,
            Err(e) => return Err(e),
        };
        let end_span = self.previous_span();
        Ok(Item::TypeDef(TypeDef { name: first_ident, generic_params: Vec::new(), body, span: span_join(start_span, end_span) }))
    }

    #[verifier::spinoff_prover]
    fn parse_item(&mut self) -> (r: Result<Item, OnewayError>)
        requires
            old(self).wf(),
        ensures
            final(self).wf(),
            final(self).toks() == old(self).toks(),
            item_outcome(p_item(old(self).toks(), old(self).pos as int), r, old(self).pos as int, final(self).pos as int),
    {
        proof {
            reveal(p_item);
        }
        let ghost t = self.toks();
        let ghost p = self.pos as int;
        let start_span = self.current_span();
        if self.check(TokenKind::KwUse) {
            self.advance();
            let name_tok = match self.expect(TokenKind::Ident, "expected module name after `use`") {
                Ok(tok) => tok,
                Err(e) => return Err(e),
            };
            let span = span_join(start_span, name_tok.span);
            return Ok(Item::Use(UseDecl { name: Ident { name: name_tok.lexeme, span: name_tok.span }, span }));
        }
        let extern_decl = if self.check(TokenKind::KwExtern) {
            match self.parse_extern() {
                Ok(x) => Some(x),
                Err(e) => return Err(e),
            }
        } else {
            None
        };
        let first = match self.expect(TokenKind::Ident, "expected a top-level definition") {
            Ok(tok) => tok,
            Err(e) => return Err(e),
        };
        let first_ident = Ident { name: first.lexeme, span: first.span };
        if let Some(extern_decl) = extern_decl {
            return self.parse_extern_item(start_span, first_ident, extern_decl);
        }
        if self.check(TokenKind::Dot) {
            self.advance();
            let name = match self.parse_method_name("expected function name after `.`") {
                Ok(n) => n,
                Err(e) => return Err(e),
            };
            return self.parse_function_after_name(Some(first_ident), name, start_span);
        }
        let pre_eq_generics = match self.parse_opt_generic_params() {
            Ok(gs) => gs,
            Err(e) => return Err(e),
        };
        match self.expect(TokenKind::Eq, "expected `=` in top-level definition") {
            Ok(_) => {},
            Err(e) => return Err(e),
        }
        if self.check(TokenKind::LParen) || self.check(TokenKind::Lt) {
            if pre_eq_generics.len() != 0 {
                let message = string_from("generic parameters on function definitions go after `=`, not before");
                return Err(OnewayError::ParseError { message, span: first_ident.span });
            }
            return self.parse_function_after_eq(None, first_ident, start_span);
        }
        let body = match self.parse_type_expr() {
            Ok(b) => b,
            Err(e) => return Err(e),
        };
        let end_span = self.previous_span();
        Ok(Item::TypeDef(TypeDef { name: first_ident, generic_params: pre_eq_generics, body, span: span_join(start_span, end_span) }))
    }

    /// Parses a whole module, from the current token to `Eof`.
    pub fn parse(&mut self) -> (r: Result<Module, OnewayError>)
        requires
            tokens_wf(old(self).toks()),
            0 <= old(self).position() < old(self).toks().len(),
        ensures
            final(self).toks() == old(self).toks(),
            match r {
                Ok(m) => p_module(old(self).toks(), old(self).position()) == Ok::<SpecModule, SpecError>(module_v(m)),
                Err(e) => p_module(old(self).toks(), old(self).position()) == Err::<SpecModule, SpecError>(e@),
            },
    {
        let ghost t = self.toks();
        let ghost p = self.pos as int;
        assert(self.wf());
        let start = self.current_span();
        let mut items: Vec<Item> = Vec::new();
        self.skip_newlines();
        let ghost p0 = self.pos as int;
        while !self.is_at_end()
            invariant
                self.wf(),
                self.toks() == t,
                t == old(self).toks(),
                p == old(self).pos,
                p0 <= self.pos,
                p0 < t.len(),
                item_list(t, p0, Seq::empty()) == item_list(t, self.pos as int, items_v(items@)),
                forall|e: SpecError| item_list(t, p0, Seq::empty()) == Parsed::<Seq<SpecItem>>::Err(e)
                    ==> p_module(t, p) == Err::<SpecModule, SpecError>(e),
            decreases self.tokens@.len() - self.pos,
        {
            let ghost cur = self.pos as int;
            let item = match self.parse_item() {
                Ok(x) => x,
                Err(e) => {
                    proof {
                        assert(item_list(t, cur, items_v(items@)) == Parsed::<Seq<SpecItem>>::Err(e@));
                    }
                    return Err(e);
                },
            };
            proof {
                lemma_items_v_push(items@, item);
            }
            items.push(item);
            self.skip_newlines();
        }
        let end = self.previous_span();
        Ok(Module { items, span: span_join(start, end) })
    }
}

} // verus!
