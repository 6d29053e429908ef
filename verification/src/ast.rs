//! The syntax tree that the checker reads: functions whose bodies are
//! names, string literals and method calls.

use vstd::prelude::*;
use crate::error::Span;

verus! {

#[derive(Debug)]
pub struct Module {
    pub items: Vec<Item>,
    pub span: Span,
}

#[derive(Debug)]
pub enum Item {
    Function(FunctionDef),
}

#[derive(Debug)]
pub struct FunctionDef {
    pub receiver: Option<Ident>,
    pub name: Ident,
    pub params: Vec<Param>,
    pub return_ty: TypeExpr,
    pub body: Block,
    pub span: Span,
}

#[derive(Debug, Clone)]
pub struct Param {
    pub ty: TypeExpr,
    pub mutable: bool,
    pub span: Span,
}

#[derive(Debug, Clone)]
pub struct TypeExpr {
    pub name: String,
    pub span: Span,
}

#[derive(Debug)]
pub struct Block {
    pub exprs: Vec<Expr>,
    pub span: Span,
}

#[derive(Debug)]
pub enum Expr {
    Ident(Ident),
    StringLit { value: String, span: Span },
    MethodCall { receiver: Box<Expr>, method: Ident, args: Vec<Expr>, span: Span },
}

/// The span of an expression.
pub open spec fn expr_span(e: Expr) -> Span {
    match e {
        Expr::Ident(ident) => ident.span,
        Expr::StringLit { span, .. } => span,
        Expr::MethodCall { span, .. } => span,
    }
}

impl Expr {
    pub fn span(&self) -> (s: Span)
        ensures
            s == expr_span(*self),
    {
        match self {
            Expr::Ident(ident) => ident.span,
            Expr::StringLit { span, .. } => *span,
            Expr::MethodCall { span, .. } => *span,
        }
    }
}

#[derive(Debug, Clone)]
pub struct Ident {
    pub name: String,
    pub span: Span,
}

} // verus!
