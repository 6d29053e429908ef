//! The front end as every command runs it: source text to scanned tokens,
//! to the grammar's tokens, to a parsed module.

use vstd::prelude::*;
use crate::error::{OnewayError, Phase, SpecError};
use crate::lexer::scanner::{lemma_lex_stream, lex, LexOutcome, Scanner};
use crate::lexer::token::{tokens_view as scanned_view, SpecToken as ScannedToken, SpecTokenKind};
use crate::parser::grammar::p_module;
use crate::parser::parser::Parser;
use crate::syntax::convert::{grammar_kind, grammar_token, stray_token, to_grammar_tokens};
use crate::syntax::token::{tokens_view, SpecToken, TokenKind};
use crate::syntax::tree::{module_v, Module, SpecModule};

verus! {

/// `i` is the first scanned token the grammar has no kind for.
pub open spec fn first_stray(ts: Seq<ScannedToken>, i: int) -> bool {
    &&& 0 <= i < ts.len()
    &&& grammar_kind(ts[i].kind) is None
    &&& forall|j: int| 0 <= j < i ==> grammar_kind(#[trigger] ts[j].kind) is Some
}

/// The scanned tokens as the grammar reads them, or the error at the first
/// token it has no kind for.
pub open spec fn grammar_stream(ts: Seq<ScannedToken>) -> Result<Seq<SpecToken>, SpecError> {
    if forall|i: int| 0 <= i < ts.len() ==> grammar_kind(#[trigger] ts[i].kind) is Some {
        Ok(Seq::new(ts.len(), |i: int| grammar_token(ts[i], grammar_kind(ts[i].kind)->0)))
    } else {
        Err(stray_token(ts[choose|i: int| first_stray(ts, i)]))
    }
}

/// What reading a source text gives: nothing where an integer literal does
/// not fit in `i64`, the lexical error, the error at a token the grammar
/// does not read, or what parsing the token stream from its start gives.
pub open spec fn read_program(chars: Seq<char>) -> Option<Result<SpecModule, SpecError>> {
    match lex(chars) {
        LexOutcome::Panics => None,
        LexOutcome::Failed { message, span } => Some(Err(SpecError { phase: Phase::Lex, message, span })),
        LexOutcome::Tokens(ts) => match grammar_stream(ts) {
            Err(e) => Some(Err(e)),
            Ok(gs) => Some(p_module(gs, 0)),
        },
    }
}

/// Scans and parses a source text.
pub fn parse_program(source: &str) -> (r: Option<Result<Module, OnewayError>>)
    requires
        source@.len() < u32::MAX,
    ensures
        match read_program(source@) {
            None => r is None,
            Some(Ok(m)) => r matches Some(Ok(x)) && module_v(x) == m,
            Some(Err(e)) => r matches Some(Err(x)) && x@ == e,
        },
{
    let mut scanner = Scanner::new(source);
    let scanned = match scanner.scan_tokens_checked() {
        None => return None,
        Some(Err(e)) => return Some(Err(e)),
        Some(Ok(v)) => v,
    };
    let ghost ts = scanned_view(scanned@);
    assert(lex(source@) == LexOutcome::Tokens(ts));
    let tokens = match to_grammar_tokens(&scanned) {
        Err(e) => {
            proof {
                let i = choose|i: int| 0 <= i < scanned@.len() && {
                    &&& grammar_kind((#[trigger] scanned@[i])@.kind) is None
                    &&& forall|j: int| 0 <= j < i ==> grammar_kind(scanned@[j]@.kind) is Some
                    &&& e@ == stray_token(scanned@[i]@)
                };
                assert(ts[i] == scanned@[i]@);
                assert(first_stray(ts, i));
                let c = choose|k: int| first_stray(ts, k);
                assert(first_stray(ts, c));
                if c < i {
                    assert(grammar_kind(ts[c].kind) is Some);
                } else if i < c {
                    assert(grammar_kind(ts[i].kind) is Some);
                }
                assert(c == i);
                assert(!(forall|k: int| 0 <= k < ts.len() ==> grammar_kind(#[trigger] ts[k].kind) is Some));
            }
            return Some(Err(e));
        },
        Ok(out) => out,
    };
    let ghost gs = tokens_view(tokens@);
    proof {
        assert forall|i: int| 0 <= i < ts.len() implies grammar_kind(#[trigger] ts[i].kind) is Some by {
            assert(ts[i] == scanned@[i]@);
        }
        assert(gs =~= Seq::new(ts.len(), |i: int| grammar_token(ts[i], grammar_kind(ts[i].kind)->0)));
        lemma_lex_stream(source@);
        assert(ts.last().kind == SpecTokenKind::Eof);
        assert(gs.last().kind == TokenKind::Eof);
    }
    let mut parser = Parser::new(tokens);
    match parser.parse() {
        Ok(m) => Some(Ok(m)),
        Err(e) => Some(Err(e)),
    }
}

} // verus!
