//! The syntax tree of the current grammar, and its abstract value.
//!
//! A module is a list of items: `use` declarations, functions and methods
//! (possibly bound to a Rust path with `extern Rust`), and type
//! definitions built from named types, unions `A | B`, products `A & B`,
//! spreads `...T`, repetitions `T[N]` and function types.

use vstd::prelude::*;
use crate::error::Span;

verus! {

#[derive(Debug)]
pub struct Ident {
    pub name: String,
    pub span: Span,
}

impl Clone for Ident {
    fn clone(&self) -> (r: Self)
        ensures
            r@ == self@,
    {
        Ident { name: self.name.clone(), span: self.span }
    }
}

#[derive(Debug)]
pub struct Module {
    pub items: Vec<Item>,
    pub span: Span,
}

#[derive(Debug)]
pub enum Item {
    Use(UseDecl),
    Function(FunctionDef),
    TypeDef(TypeDef),
}

/// `use Name`.
#[derive(Debug)]
pub struct UseDecl {
    pub name: Ident,
    pub span: Span,
}

/// `extern Rust("path")` or `extern Rust.async("path")` before an item.
#[derive(Debug)]
pub struct ExternRust {
    pub path: String,
    pub is_async: bool,
}

/// `<Name>` or `<Name: Bound>`.
#[derive(Debug)]
pub struct GenericParam {
    pub name: Ident,
    pub bound: Option<TypeExpr>,
    pub span: Span,
}

/// `Name = type` or `Name<Params> = type`.
#[derive(Debug)]
pub struct TypeDef {
    pub name: Ident,
    pub generic_params: Vec<GenericParam>,
    pub body: TypeExpr,
    pub span: Span,
}

/// `name = (params) -> Return { body }`, or `Receiver.name = ...` for a
/// method; an extern method has an empty body.
#[derive(Debug)]
pub struct FunctionDef {
    pub receiver: Option<Ident>,
    pub name: Ident,
    pub generic_params: Vec<GenericParam>,
    pub params: Vec<Param>,
    pub return_ty: TypeExpr,
    pub body: Block,
    pub extern_rust: Option<ExternRust>,
    pub span: Span,
}

/// A parameter: its type, after an optional `mut`.
#[derive(Debug)]
pub struct Param {
    pub ty: TypeExpr,
    pub mutable: bool,
    pub span: Span,
}

#[derive(Debug)]
pub enum TypeExpr {
    Named { name: String, generics: Vec<TypeExpr>, span: Span },
    Union { variants: Vec<TypeExpr>, span: Span },
    Product { fields: Vec<TypeExpr>, span: Span },
    Spread { ty: Box<TypeExpr>, span: Span },
    Repeat { ty: Box<TypeExpr>, count: u64, span: Span },
    Function { generic_params: Vec<GenericParam>, params: Vec<TypeExpr>, return_ty: Box<TypeExpr>, span: Span },
}

#[derive(Debug)]
pub struct Block {
    pub exprs: Vec<Expr>,
    pub span: Span,
}

/// An expression. A float literal keeps the text it was written with.
#[derive(Debug)]
pub enum Expr {
    Ident(Ident),
    StringLit { value: String, span: Span },
    IntLit { value: i64, span: Span },
    FloatLit { value: String, span: Span },
    HexLit { value: u64, span: Span },
    Constructor { name: Ident, args: Vec<Expr>, span: Span },
    MethodCall { receiver: Box<Expr>, method: Ident, type_args: Vec<TypeExpr>, args: Vec<Expr>, span: Span },
    Try { inner: Box<Expr>, span: Span },
    Lambda { params: Vec<Param>, return_ty: TypeExpr, body: Block, span: Span },
    While { cond: Box<Expr>, body: Block, span: Span },
    Match { scrutinee: Box<Expr>, arms: Vec<MatchArm>, span: Span },
}

#[derive(Debug)]
pub struct MatchArm {
    pub pattern: Pattern,
    pub body: Expr,
    pub span: Span,
}

#[derive(Debug)]
pub enum Pattern {
    Wildcard { span: Span },
    Variant { name: String, args: Vec<Pattern>, span: Span },
}

// ── abstract values ─────────────────────────────────────────────────────

pub struct SpecIdent {
    pub name: Seq<char>,
    pub span: Span,
}

impl View for Ident {
    type V = SpecIdent;

    open spec fn view(&self) -> SpecIdent {
        SpecIdent { name: self.name@, span: self.span }
    }
}

pub struct SpecExtern {
    pub path: Seq<char>,
    pub is_async: bool,
}

impl View for ExternRust {
    type V = SpecExtern;

    open spec fn view(&self) -> SpecExtern {
        SpecExtern { path: self.path@, is_async: self.is_async }
    }
}

pub struct SpecGenericParam {
    pub name: SpecIdent,
    pub bound: Option<SpecType>,
    pub span: Span,
}

pub enum SpecType {
    Named { name: Seq<char>, generics: Seq<SpecType>, span: Span },
    Union { variants: Seq<SpecType>, span: Span },
    Product { fields: Seq<SpecType>, span: Span },
    Spread { ty: Box<SpecType>, span: Span },
    Repeat { ty: Box<SpecType>, count: u64, span: Span },
    Function { generic_params: Seq<SpecGenericParam>, params: Seq<SpecType>, return_ty: Box<SpecType>, span: Span },
}

pub struct SpecParam {
    pub ty: SpecType,
    pub mutable: bool,
    pub span: Span,
}

pub struct SpecBlock {
    pub exprs: Seq<SpecExpr>,
    pub span: Span,
}

pub enum SpecExpr {
    Ident(SpecIdent),
    StringLit { value: Seq<char>, span: Span },
    IntLit { value: i64, span: Span },
    FloatLit { value: Seq<char>, span: Span },
    HexLit { value: u64, span: Span },
    Constructor { name: SpecIdent, args: Seq<SpecExpr>, span: Span },
    MethodCall { receiver: Box<SpecExpr>, method: SpecIdent, type_args: Seq<SpecType>, args: Seq<SpecExpr>, span: Span },
    Try { inner: Box<SpecExpr>, span: Span },
    Lambda { params: Seq<SpecParam>, return_ty: SpecType, body: SpecBlock, span: Span },
    While { cond: Box<SpecExpr>, body: SpecBlock, span: Span },
    Match { scrutinee: Box<SpecExpr>, arms: Seq<SpecArm>, span: Span },
}

pub struct SpecArm {
    pub pattern: SpecPattern,
    pub body: SpecExpr,
    pub span: Span,
}

pub enum SpecPattern {
    Wildcard { span: Span },
    Variant { name: Seq<char>, args: Seq<SpecPattern>, span: Span },
}

pub struct SpecUse {
    pub name: SpecIdent,
    pub span: Span,
}

pub struct SpecTypeDef {
    pub name: SpecIdent,
    pub generic_params: Seq<SpecGenericParam>,
    pub body: SpecType,
    pub span: Span,
}

pub struct SpecFunction {
    pub receiver: Option<SpecIdent>,
    pub name: SpecIdent,
    pub generic_params: Seq<SpecGenericParam>,
    pub params: Seq<SpecParam>,
    pub return_ty: SpecType,
    pub body: SpecBlock,
    pub extern_rust: Option<SpecExtern>,
    pub span: Span,
}

pub enum SpecItem {
    Use(SpecUse),
    Function(SpecFunction),
    TypeDef(SpecTypeDef),
}

pub struct SpecModule {
    pub items: Seq<SpecItem>,
    pub span: Span,
}

pub open spec fn type_v(t: TypeExpr) -> SpecType
    decreases t,
{
    match t {
        TypeExpr::Named { name, generics, span } => SpecType::Named { name: name@, generics: types_v(generics@), span },
        TypeExpr::Union { variants, span } => SpecType::Union { variants: types_v(variants@), span },
        TypeExpr::Product { fields, span } => SpecType::Product { fields: types_v(fields@), span },
        TypeExpr::Spread { ty, span } => SpecType::Spread { ty: Box::new(type_v(*ty)), span },
        TypeExpr::Repeat { ty, count, span } => SpecType::Repeat { ty: Box::new(type_v(*ty)), count, span },
        TypeExpr::Function { generic_params, params, return_ty, span } => SpecType::Function {
            generic_params: gparams_v(generic_params@),
            params: types_v(params@),
            return_ty: Box::new(type_v(*return_ty)),
            span,
        },
    }
}

pub open spec fn types_v(ts: Seq<TypeExpr>) -> Seq<SpecType>
    decreases ts,
{
    if ts.len() == 0 {
        Seq::empty()
    } else {
        types_v(ts.drop_last()).push(type_v(ts.last()))
    }
}

pub open spec fn gparam_v(g: GenericParam) -> SpecGenericParam
    decreases g,
{
    SpecGenericParam {
        name: g.name@,
        bound: match g.bound {
            Some(b) => Some(type_v(b)),
            None => None,
        },
        span: g.span,
    }
}

pub open spec fn gparams_v(gs: Seq<GenericParam>) -> Seq<SpecGenericParam>
    decreases gs,
{
    if gs.len() == 0 {
        Seq::empty()
    } else {
        gparams_v(gs.drop_last()).push(gparam_v(gs.last()))
    }
}

pub open spec fn param_v(p: Param) -> SpecParam {
    SpecParam { ty: type_v(p.ty), mutable: p.mutable, span: p.span }
}

pub open spec fn params_v(ps: Seq<Param>) -> Seq<SpecParam>
    decreases ps.len(),
{
    if ps.len() == 0 {
        Seq::empty()
    } else {
        params_v(ps.drop_last()).push(param_v(ps.last()))
    }
}

pub open spec fn pattern_v(p: Pattern) -> SpecPattern
    decreases p,
{
    match p {
        Pattern::Wildcard { span } => SpecPattern::Wildcard { span },
        Pattern::Variant { name, args, span } => SpecPattern::Variant { name: name@, args: patterns_v(args@), span },
    }
}

pub open spec fn patterns_v(ps: Seq<Pattern>) -> Seq<SpecPattern>
    decreases ps,
{
    if ps.len() == 0 {
        Seq::empty()
    } else {
        patterns_v(ps.drop_last()).push(pattern_v(ps.last()))
    }
}

pub open spec fn expr_v(e: Expr) -> SpecExpr
    decreases e,
{
    match e {
        Expr::Ident(i) => SpecExpr::Ident(i@),
        Expr::StringLit { value, span } => SpecExpr::StringLit { value: value@, span },
        Expr::IntLit { value, span } => SpecExpr::IntLit { value, span },
        Expr::FloatLit { value, span } => SpecExpr::FloatLit { value: value@, span },
        Expr::HexLit { value, span } => SpecExpr::HexLit { value, span },
        Expr::Constructor { name, args, span } => SpecExpr::Constructor { name: name@, args: exprs_v(args@), span },
        Expr::MethodCall { receiver, method, type_args, args, span } => SpecExpr::MethodCall {
            receiver: Box::new(expr_v(*receiver)),
            method: method@,
            type_args: types_v(type_args@),
            args: exprs_v(args@),
            span,
        },
        Expr::Try { inner, span } => SpecExpr::Try { inner: Box::new(expr_v(*inner)), span },
        Expr::Lambda { params, return_ty, body, span } => SpecExpr::Lambda {
            params: params_v(params@),
            return_ty: type_v(return_ty),
            body: block_v(body),
            span,
        },
        Expr::While { cond, body, span } => SpecExpr::While { cond: Box::new(expr_v(*cond)), body: block_v(body), span },
        Expr::Match { scrutinee, arms, span } => SpecExpr::Match {
            scrutinee: Box::new(expr_v(*scrutinee)),
            arms: arms_v(arms@),
            span,
        },
    }
}

pub open spec fn exprs_v(es: Seq<Expr>) -> Seq<SpecExpr>
    decreases es,
{
    if es.len() == 0 {
        Seq::empty()
    } else {
        exprs_v(es.drop_last()).push(expr_v(es.last()))
    }
}

pub open spec fn block_v(b: Block) -> SpecBlock
    decreases b,
{
    SpecBlock { exprs: exprs_v(b.exprs@), span: b.span }
}

pub open spec fn arm_v(a: MatchArm) -> SpecArm
    decreases a,
{
    SpecArm { pattern: pattern_v(a.pattern), body: expr_v(a.body), span: a.span }
}

pub open spec fn arms_v(arms: Seq<MatchArm>) -> Seq<SpecArm>
    decreases arms,
{
    if arms.len() == 0 {
        Seq::empty()
    } else {
        arms_v(arms.drop_last()).push(arm_v(arms.last()))
    }
}

pub open spec fn function_v(f: FunctionDef) -> SpecFunction {
    SpecFunction {
        receiver: match f.receiver {
            Some(r) => Some(r@),
            None => None,
        },
        name: f.name@,
        generic_params: gparams_v(f.generic_params@),
        params: params_v(f.params@),
        return_ty: type_v(f.return_ty),
        body: block_v(f.body),
        extern_rust: match f.extern_rust {
            Some(x) => Some(x@),
            None => None,
        },
        span: f.span,
    }
}

pub open spec fn item_v(i: Item) -> SpecItem {
    match i {
        Item::Use(u) => SpecItem::Use(SpecUse { name: u.name@, span: u.span }),
        Item::Function(f) => SpecItem::Function(function_v(f)),
        Item::TypeDef(td) => SpecItem::TypeDef(SpecTypeDef {
            name: td.name@,
            generic_params: gparams_v(td.generic_params@),
            body: type_v(td.body),
            span: td.span,
        }),
    }
}

pub open spec fn items_v(items: Seq<Item>) -> Seq<SpecItem>
    decreases items.len(),
{
    if items.len() == 0 {
        Seq::empty()
    } else {
        items_v(items.drop_last()).push(item_v(items.last()))
    }
}

pub open spec fn module_v(m: Module) -> SpecModule {
    SpecModule { items: items_v(m.items@), span: m.span }
}

// ── the views of lists grown by one ─────────────────────────────────────

pub proof fn lemma_types_v_push(s: Seq<TypeExpr>, x: TypeExpr)
    ensures
        types_v(s.push(x)) == types_v(s).push(type_v(x)),
{
    assert(s.push(x).drop_last() =~= s);
}

pub proof fn lemma_gparams_v_push(s: Seq<GenericParam>, x: GenericParam)
    ensures
        gparams_v(s.push(x)) == gparams_v(s).push(gparam_v(x)),
{
    assert(s.push(x).drop_last() =~= s);
}

pub proof fn lemma_params_v_push(s: Seq<Param>, x: Param)
    ensures
        params_v(s.push(x)) == params_v(s).push(param_v(x)),
{
    assert(s.push(x).drop_last() =~= s);
}

pub proof fn lemma_patterns_v_push(s: Seq<Pattern>, x: Pattern)
    ensures
        patterns_v(s.push(x)) == patterns_v(s).push(pattern_v(x)),
{
    assert(s.push(x).drop_last() =~= s);
}

pub proof fn lemma_exprs_v_push(s: Seq<Expr>, x: Expr)
    ensures
        exprs_v(s.push(x)) == exprs_v(s).push(expr_v(x)),
{
    assert(s.push(x).drop_last() =~= s);
}

pub proof fn lemma_arms_v_push(s: Seq<MatchArm>, x: MatchArm)
    ensures
        arms_v(s.push(x)) == arms_v(s).push(arm_v(x)),
{
    assert(s.push(x).drop_last() =~= s);
}

pub proof fn lemma_items_v_push(s: Seq<Item>, x: Item)
    ensures
        items_v(s.push(x)) == items_v(s).push(item_v(x)),
{
    assert(s.push(x).drop_last() =~= s);
}

impl Expr {
    /// The span of the expression.
    pub fn span(&self) -> (s: Span)
        ensures
            s == crate::parser::grammar::expr_span(expr_v(*self)),
    {
        match self {
            Expr::Ident(ident) => ident.span,
            Expr::StringLit { span, .. } => *span,
            Expr::IntLit { span, .. } => *span,
            Expr::FloatLit { span, .. } => *span,
            Expr::HexLit { span, .. } => *span,
            Expr::Constructor { span, .. } => *span,
            Expr::MethodCall { span, .. } => *span,
            Expr::Try { span, .. } => *span,
            Expr::Lambda { span, .. } => *span,
            Expr::While { span, .. } => *span,
            Expr::Match { span, .. } => *span,
        }
    }
}

impl Pattern {
    /// The span of the pattern.
    pub fn span(&self) -> (s: Span)
        ensures
            s == crate::parser::grammar::pattern_span(pattern_v(*self)),
    {
        match self {
            Pattern::Wildcard { span } => *span,
            Pattern::Variant { span, .. } => *span,
        }
    }
}

} // verus!
