//! Source spans and the errors of every compiler phase.

use vstd::prelude::*;
use crate::text::{decimal, push_decimal, push_str, string_from};

verus! {

/// A location span in source code: `start..end` index the source's
/// characters; `line` and `column` (both from 1) locate `start`.
#[derive(Debug, Clone, Copy, PartialEq, Eq, Structural)]
pub struct Span {
    pub start: usize,
    pub end: usize,
    pub line: u32,
    pub column: u32,
}

impl Span {
    pub fn new(start: usize, end: usize, line: u32, column: u32) -> (s: Self)
        ensures
            s == (Span { start, end, line, column }),
    {
        Self { start, end, line, column }
    }
}

impl Default for Span {
    fn default() -> (s: Self)
        ensures
            s == (Span { start: 0, end: 0, line: 0, column: 0 }),
    {
        Span { start: 0, end: 0, line: 0, column: 0 }
    }
}

/// The set of all error kinds produced by the Oneway compiler.
#[derive(Debug, Clone)]
pub enum OnewayError {
    /// An error produced during lexical analysis.
    LexError { message: String, span: Span },
    /// An error produced during parsing.
    ParseError { message: String, span: Span },
    /// An error produced during type/sort checking.
    CheckError { message: String, span: Span },
    /// An error produced during code generation.
    CodegenError { message: String, span: Span },
}

/// The phase of an error, as a plain value.
#[derive(Debug, Clone, Copy, PartialEq, Eq, Structural)]
pub enum Phase {
    Lex,
    Parse,
    Check,
    Codegen,
}

/// The abstract value of an error: its phase, message and span.
pub struct SpecError {
    pub phase: Phase,
    pub message: Seq<char>,
    pub span: Span,
}

impl View for OnewayError {
    type V = SpecError;

    open spec fn view(&self) -> SpecError {
        match self {
            OnewayError::LexError { message, span } =>
                SpecError { phase: Phase::Lex, message: message@, span: *span },
            OnewayError::ParseError { message, span } =>
                SpecError { phase: Phase::Parse, message: message@, span: *span },
            OnewayError::CheckError { message, span } =>
                SpecError { phase: Phase::Check, message: message@, span: *span },
            OnewayError::CodegenError { message, span } =>
                SpecError { phase: Phase::Codegen, message: message@, span: *span },
        }
    }
}

/// The name of a phase as it appears in rendered errors.
pub open spec fn phase_name(p: Phase) -> Seq<char> {
    match p {
        Phase::Lex => "lex error"@,
        Phase::Parse => "parse error"@,
        Phase::Check => "check error"@,
        Phase::Codegen => "codegen error"@,
    }
}

/// The rendering `"<phase> at <line>:<column>: <message>"` of an error.
pub open spec fn render_error(e: SpecError) -> Seq<char> {
    phase_name(e.phase) + " at "@ + decimal(e.span.line as nat) + ":"@
        + decimal(e.span.column as nat) + ": "@ + e.message
}

impl OnewayError {
    /// Returns a reference to the span associated with this error.
    pub fn span(&self) -> (s: &Span)
        ensures
            *s == self@.span,
    {
        match self {
            OnewayError::LexError { span, .. } => span,
            OnewayError::ParseError { span, .. } => span,
            OnewayError::CheckError { span, .. } => span,
            OnewayError::CodegenError { span, .. } => span,
        }
    }

    /// Returns a reference to the message associated with this error.
    pub fn message(&self) -> (m: &str)
        ensures
            m@ == self@.message,
    {
        match self {
            OnewayError::LexError { message, .. } => message.as_str(),
            OnewayError::ParseError { message, .. } => message.as_str(),
            OnewayError::CheckError { message, .. } => message.as_str(),
            OnewayError::CodegenError { message, .. } => message.as_str(),
        }
    }

    /// Returns the compiler phase that produced this error.
    pub fn phase(&self) -> (p: Phase)
        ensures
            p == self@.phase,
    {
        match self {
            OnewayError::LexError { .. } => Phase::Lex,
            OnewayError::ParseError { .. } => Phase::Parse,
            OnewayError::CheckError { .. } => Phase::Check,
            OnewayError::CodegenError { .. } => Phase::Codegen,
        }
    }

    /// Renders the error as `"<phase> at <line>:<column>: <message>"`.
    pub fn to_display_string(&self) -> (r: String)
        ensures
            r@ == render_error(self@),
    {
        let mut out = match self.phase() {
            Phase::Lex => string_from("lex error"),
            Phase::Parse => string_from("parse error"),
            Phase::Check => string_from("check error"),
            Phase::Codegen => string_from("codegen error"),
        };
        let span = self.span();
        push_str(&mut out, " at ");
        push_decimal(&mut out, span.line as u64);
        push_str(&mut out, ":");
        push_decimal(&mut out, span.column as u64);
        push_str(&mut out, ": ");
        push_str(&mut out, self.message());
        out
    }
}

/// A convenience `Result` type that uses `OnewayError` as the error variant.
pub type Result<T> = core::result::Result<T, OnewayError>;

} // verus!
