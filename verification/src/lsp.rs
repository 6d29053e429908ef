//! The language server's logic: the symbol index of a document, the word
//! under the cursor, and diagnostics with editor positions.

use vstd::prelude::*;
use crate::error::{OnewayError, Phase, Span, SpecError};
use crate::lexer::scanner::{alphanumeric, ident_end, is_alphanumeric};
use crate::parser::ast::{Item, Module, Param, TypeExpr};
use crate::text::{decimal, push_chars, push_decimal, push_str, string_from, string_from_range};

verus! {

// ── editor-side values ──────────────────────────────────────────────────

/// The kind of an indexed symbol.
#[derive(Debug, Clone, Copy, PartialEq, Eq, Structural)]
pub enum SymbolKind {
    Struct,
    Enum,
    Function,
    TypeParameter,
    Interface,
    Module,
    EnumMember,
}

/// A zero-based line and character position in a document.
#[derive(Debug, Clone, Copy, PartialEq, Eq, Structural)]
pub struct Position {
    pub line: u32,
    pub character: u32,
}

/// A range of positions in a document.
#[derive(Debug, Clone, Copy, PartialEq, Eq, Structural)]
pub struct Range {
    pub start: Position,
    pub end: Position,
}

/// A symbol definition: its name, kind, a one-line description, where it
/// is defined and in which document.
#[derive(Debug)]
pub struct SymbolInfo {
    pub name: String,
    pub kind: SymbolKind,
    pub detail: String,
    pub span: Span,
    pub uri: String,
}

/// The abstract value of a symbol.
pub struct SpecSymbol {
    pub name: Seq<char>,
    pub kind: SymbolKind,
    pub detail: Seq<char>,
    pub span: Span,
    pub uri: Seq<char>,
}

impl View for SymbolInfo {
    type V = SpecSymbol;

    open spec fn view(&self) -> SpecSymbol {
        SpecSymbol { name: self.name@, kind: self.kind, detail: self.detail@, span: self.span, uri: self.uri@ }
    }
}

/// The abstract values of a list of symbols.
pub open spec fn symbols_view(v: Seq<SymbolInfo>) -> Seq<SpecSymbol> {
    v.map_values(|s: SymbolInfo| s@)
}

/// What the server knows of an open document: its text and its symbols
/// in the order they were indexed. `lookup` resolves a name to the last
/// symbol indexed under it, as a map keyed by name would after inserting
/// the symbols in order.
#[derive(Debug)]
pub struct DocumentState {
    pub source: String,
    pub symbol_list: Vec<SymbolInfo>,
}

/// The last symbol named `name` in `list`: the definition that a name
/// resolves to when later definitions replace earlier ones.
pub open spec fn last_named(list: Seq<SpecSymbol>, name: Seq<char>) -> Option<SpecSymbol>
    decreases list.len(),
{
    if list.len() == 0 {
        None
    } else if list.last().name == name {
        Some(list.last())
    } else {
        last_named(list.drop_last(), name)
    }
}

impl DocumentState {
    /// A document with the given text and no symbols.
    pub fn new(source: String) -> (d: Self)
        ensures
            d.source@ == source@,
            d.symbol_list@.len() == 0,
    {
        DocumentState { source, symbol_list: Vec::new() }
    }

    /// The definition that `name` resolves to: the last symbol indexed
    /// under that name.
    pub fn lookup(&self, name: &str) -> (r: Option<&SymbolInfo>)
        ensures
            match r {
                Some(s) => last_named(symbols_view(self.symbol_list@), name@) == Some(s@),
                None => last_named(symbols_view(self.symbol_list@), name@) is None,
            },
    {
        let ghost all = symbols_view(self.symbol_list@);
        let mut i: usize = self.symbol_list.len();
        assert(all.take(i as int) =~= all);
        while i > 0
            invariant
                i <= self.symbol_list@.len(),
                all == symbols_view(self.symbol_list@),
                last_named(all, name@) == last_named(all.take(i as int), name@),
            decreases i,
        {
            let ghost pre = all.take(i as int);
            assert(pre.drop_last() =~= all.take(i - 1));
            assert(pre.last() == self.symbol_list@[i - 1]@);
            if crate::lexer::token::str_eq(self.symbol_list[i - 1].name.as_str(), name) {
                return Some(&self.symbol_list[i - 1]);
            }
            i = i - 1;
        }
        None
    }
}

// ── formatting type expressions ─────────────────────────────────────────

/// How a type expression is written.
pub open spec fn format_type(te: TypeExpr) -> Seq<char>
    decreases te,
{
    match te {
        TypeExpr::Named(n) => n@,
        TypeExpr::Generic { name, params } => name@ + "<"@ + format_types(params@, ", "@) + ">"@,
        TypeExpr::Function { params, return_type } => "fn("@ + format_boxed_types(params@) + ") -> "@
            + format_type(*return_type),
        TypeExpr::Union(types) => format_types(types@, " | "@),
    }
}

/// Type expressions written one after the other, separated by `sep`.
pub open spec fn format_types(ts: Seq<TypeExpr>, sep: Seq<char>) -> Seq<char>
    decreases ts,
{
    if ts.len() == 0 {
        Seq::empty()
    } else if ts.len() == 1 {
        format_type(ts[0])
    } else {
        format_types(ts.drop_last(), sep) + sep + format_type(ts.last())
    }
}

/// Boxed type expressions written one after the other, separated by `, `.
pub open spec fn format_boxed_types(ts: Seq<Box<TypeExpr>>) -> Seq<char>
    decreases ts,
{
    if ts.len() == 0 {
        Seq::empty()
    } else if ts.len() == 1 {
        format_type(*ts[0])
    } else {
        format_boxed_types(ts.drop_last()) + ", "@ + format_type(*ts.last())
    }
}

/// Parameters' types written one after the other, separated by `, `.
pub open spec fn format_params(ps: Seq<Param>) -> Seq<char>
    decreases ps.len(),
{
    if ps.len() == 0 {
        Seq::empty()
    } else if ps.len() == 1 {
        format_type(ps[0].type_expr)
    } else {
        format_params(ps.drop_last()) + ", "@ + format_type(ps.last().type_expr)
    }
}

/// Strings joined with `sep` between them.
pub open spec fn join(parts: Seq<Seq<char>>, sep: Seq<char>) -> Seq<char>
    decreases parts.len(),
{
    if parts.len() == 0 {
        Seq::empty()
    } else if parts.len() == 1 {
        parts[0]
    } else {
        join(parts.drop_last(), sep) + sep + parts.last()
    }
}


/// Writes a type expression as the language spells it.
pub fn format_type_expr(te: &TypeExpr) -> (r: String)
    ensures
        r@ == format_type(*te),
    decreases te,
{
    match te {
        TypeExpr::Named(n) => n.clone(),
        TypeExpr::Generic { name, params } => {
            let mut out = name.clone();
            push_str(&mut out, "<");
            let ghost prefix = out@;
            let mut i: usize = 0;
            while i < params.len()
                invariant
                    i <= params@.len(),
                    out@ == prefix + format_types(params@.take(i as int), ", "@),
                    *te == (TypeExpr::Generic { name: *name, params: *params }),
                decreases params@.len() - i,
            {
                proof {
                    assert(decreases_to!(*te => (*te)->Generic_params));
                    vstd::std_specs::vec::axiom_vec_index_decreases(*params, i as int);
                    assert(params@.take(i + 1).drop_last() =~= params@.take(i as int));
                }
                if i > 0 {
                    push_str(&mut out, ", ");
                }
                let f = format_type_expr(&params[i]);
                push_str(&mut out, f.as_str());
                i = i + 1;
            }
            proof {
                assert(params@.take(i as int) =~= params@);
            }
            push_str(&mut out, ">");
            out
        },
        TypeExpr::Function { params, return_type } => {
            let mut out = string_from("fn(");
            let ghost prefix = out@;
            let mut i: usize = 0;
            while i < params.len()
                invariant
                    i <= params@.len(),
                    out@ == prefix + format_boxed_types(params@.take(i as int)),
                    *te == (TypeExpr::Function { params: *params, return_type: *return_type }),
                decreases params@.len() - i,
            {
                proof {
                    assert(decreases_to!(*te => (*te)->Function_params));
                    vstd::std_specs::vec::axiom_vec_index_decreases(*params, i as int);
                    assert(params@.take(i + 1).drop_last() =~= params@.take(i as int));
                }
                if i > 0 {
                    push_str(&mut out, ", ");
                }
                let f = format_type_expr(&params[i]);
                push_str(&mut out, f.as_str());
                i = i + 1;
            }
            proof {
                assert(params@.take(i as int) =~= params@);
            }
            push_str(&mut out, ") -> ");
            let r = format_type_expr(return_type);
            push_str(&mut out, r.as_str());
            out
        },
        TypeExpr::Union(types) => {
            let mut out = String::new();
            let mut i: usize = 0;
            while i < types.len()
                invariant
                    i <= types@.len(),
                    out@ == format_types(types@.take(i as int), " | "@),
                    *te == TypeExpr::Union(*types),
                decreases types@.len() - i,
            {
                proof {
                    assert(decreases_to!(*te => (*te)->Union_0));
                    vstd::std_specs::vec::axiom_vec_index_decreases(*types, i as int);
                    assert(types@.take(i + 1).drop_last() =~= types@.take(i as int));
                }
                if i > 0 {
                    push_str(&mut out, " | ");
                }
                let f = format_type_expr(&types[i]);
                push_str(&mut out, f.as_str());
                i = i + 1;
            }
            proof {
                assert(types@.take(i as int) =~= types@);
            }
            out
        },
    }
}


/// The abstract values of a list of strings.
pub open spec fn strings_view(v: Seq<String>) -> Seq<Seq<char>> {
    v.map_values(|s: String| s@)
}

/// Joins strings with `sep` between them.
pub fn join_strings(parts: &Vec<String>, sep: &str) -> (r: String)
    ensures
        r@ == join(strings_view(parts@), sep@),
{
    let mut out = String::new();
    let mut i: usize = 0;
    while i < parts.len()
        invariant
            i <= parts@.len(),
            out@ == join(strings_view(parts@.take(i as int)), sep@),
        decreases parts@.len() - i,
    {
        proof {
            assert(strings_view(parts@.take(i + 1)).drop_last() =~= strings_view(parts@.take(i as int)));
        }
        if i > 0 {
            push_str(&mut out, sep);
        }
        push_str(&mut out, parts[i].as_str());
        i = i + 1;
    }
    proof {
        assert(parts@.take(i as int) =~= parts@);
    }
    out
}

/// The parameters' types, written with `, ` between them.
pub fn format_param_list(params: &Vec<Param>) -> (r: String)
    ensures
        r@ == format_params(params@),
{
    let mut out = String::new();
    let mut i: usize = 0;
    while i < params.len()
        invariant
            i <= params@.len(),
            out@ == format_params(params@.take(i as int)),
        decreases params@.len() - i,
    {
        proof {
            assert(params@.take(i + 1).drop_last() =~= params@.take(i as int));
        }
        if i > 0 {
            push_str(&mut out, ", ");
        }
        let f = format_type_expr(&params[i].type_expr);
        push_str(&mut out, f.as_str());
        i = i + 1;
    }
    proof {
        assert(params@.take(i as int) =~= params@);
    }
    out
}

// ── the symbol index ────────────────────────────────────────────────────

/// How a function's return type is described: ` -> T`, or nothing.
pub open spec fn return_text(rt: Option<TypeExpr>) -> Seq<char> {
    match rt {
        Some(t) => " -> "@ + format_type(t),
        None => Seq::empty(),
    }
}

/// The symbols of an enum's variants, described as `Enum.Variant`.
pub open spec fn variant_symbols(enum_name: Seq<char>, vs: Seq<crate::parser::ast::Variant>, uri: Seq<char>) -> Seq<SpecSymbol> {
    vs.map_values(|v: crate::parser::ast::Variant| SpecSymbol {
        name: v.name@,
        kind: SymbolKind::EnumMember,
        detail: enum_name + "."@ + v.name@,
        span: v.span,
        uri,
    })
}

/// The symbols an item defines.
pub open spec fn item_symbols(item: Item, uri: Seq<char>) -> Seq<SpecSymbol> {
    match item {
        Item::Struct(s) => seq![SpecSymbol {
            name: s.name@,
            kind: SymbolKind::Struct,
            detail: "struct "@ + s.name@ + " ("@ + decimal(s.fields.len() as nat) + " fields)"@,
            span: s.span,
            uri,
        }],
        Item::Enum(e) => seq![SpecSymbol {
            name: e.name@,
            kind: SymbolKind::Enum,
            detail: "enum "@ + e.name@ + " ("@ + decimal(e.variants.len() as nat) + " variants)"@,
            span: e.span,
            uri,
        }] + variant_symbols(e.name@, e.variants@, uri),
        Item::Function(f) => seq![SpecSymbol {
            name: f.name@,
            kind: SymbolKind::Function,
            detail: "fn "@ + f.name@ + "("@ + format_params(f.params@) + ")"@ + return_text(f.return_type),
            span: f.span,
            uri,
        }],
        Item::Newtype(n) => seq![SpecSymbol {
            name: n.name@,
            kind: SymbolKind::TypeParameter,
            detail: "type "@ + n.name@ + " = "@ + format_type(n.inner_type),
            span: n.span,
            uri,
        }],
        Item::Contract(c) => seq![SpecSymbol {
            name: c.name@,
            kind: SymbolKind::Interface,
            detail: "contract "@ + c.name@ + " ("@ + decimal(c.functions.len() as nat) + " functions)"@,
            span: c.span,
            uri,
        }],
        Item::Use(u) => seq![SpecSymbol {
            name: join(strings_view(u.path@), "."@),
            kind: SymbolKind::Module,
            detail: "use "@ + join(strings_view(u.path@), "."@),
            span: u.span,
            uri,
        }],
    }
}

/// The symbols of a module's items, in order.
pub open spec fn module_symbols(items: Seq<Item>, uri: Seq<char>) -> Seq<SpecSymbol>
    decreases items.len(),
{
    if items.len() == 0 {
        Seq::empty()
    } else {
        module_symbols(items.drop_last(), uri) + item_symbols(items.last(), uri)
    }
}

/// A symbol with the given parts.
fn new_symbol(name: String, kind: SymbolKind, detail: String, span: Span, uri: &str) -> (s: SymbolInfo)
    ensures
        s@ == (SpecSymbol { name: name@, kind, detail: detail@, span, uri: uri@ }),
{
    SymbolInfo { name, kind, detail, span, uri: string_from(uri) }
}

/// A description `"<keyword> <name> (<n> <what>)"`.
fn count_detail(keyword: &str, name: &String, n: usize, what: &str) -> (r: String)
    ensures
        r@ == keyword@ + name@ + " ("@ + decimal(n as nat) + what@,
{
    let mut d = string_from(keyword);
    push_str(&mut d, name.as_str());
    push_str(&mut d, " (");
    push_decimal(&mut d, n as u64);
    push_str(&mut d, what);
    d
}

/// Appends a symbol to a list.
fn push_symbol(list: &mut Vec<SymbolInfo>, s: SymbolInfo)
    ensures
        symbols_view(final(list)@) == symbols_view(old(list)@).push(s@),
{
    let ghost before = list@;
    list.push(s);
    proof {
        assert(symbols_view(list@) =~= symbols_view(before).push(s@));
    }
}

/// Indexes the definitions of a module: one symbol per item, then one per
/// variant of each enum, described as they appear in hovers and outlines.
pub fn collect_symbols(module: &Module, uri: &str) -> (state: DocumentState)
    ensures
        state.source@ == Seq::<char>::empty(),
        symbols_view(state.symbol_list@) == module_symbols(module.items@, uri@),
{
    let mut state = DocumentState::new(String::new());
    proof {
        assert(symbols_view(state.symbol_list@) =~= Seq::<SpecSymbol>::empty());
    }
    let mut i: usize = 0;
    while i < module.items.len()
        invariant
            i <= module.items@.len(),
            state.source@ == Seq::<char>::empty(),
            symbols_view(state.symbol_list@) == module_symbols(module.items@.take(i as int), uri@),
        decreases module.items@.len() - i,
    {
        let ghost before = symbols_view(state.symbol_list@);
        let item = &module.items[i];
        match item {
            Item::Struct(s) => {
                let d = count_detail("struct ", &s.name, s.fields.len(), " fields)");
                push_symbol(&mut state.symbol_list, new_symbol(s.name.clone(), SymbolKind::Struct, d, s.span, uri));
                assert(symbols_view(state.symbol_list@) =~= before + item_symbols(*item, uri@));
            },
            Item::Enum(e) => {
                let d = count_detail("enum ", &e.name, e.variants.len(), " variants)");
                push_symbol(&mut state.symbol_list, new_symbol(e.name.clone(), SymbolKind::Enum, d, e.span, uri));
                let ghost with_enum = symbols_view(state.symbol_list@);
                let mut j: usize = 0;
                #[verifier::loop_isolation(false)]
                while j < e.variants.len()
                    invariant
                        j <= e.variants@.len(),
                        state.source@ == Seq::<char>::empty(),
                        symbols_view(state.symbol_list@) == with_enum + variant_symbols(
                            e.name@,
                            e.variants@.take(j as int),
                            uri@,
                        ),
                    decreases e.variants@.len() - j,
                {
                    let v = &e.variants[j];
                    let mut vd = e.name.clone();
                    push_str(&mut vd, ".");
                    push_str(&mut vd, v.name.as_str());
                    push_symbol(&mut state.symbol_list, new_symbol(v.name.clone(), SymbolKind::EnumMember, vd, v.span, uri));
                    proof {
                        assert(variant_symbols(e.name@, e.variants@.take(j + 1), uri@) =~= variant_symbols(
                            e.name@,
                            e.variants@.take(j as int),
                            uri@,
                        ).push(SpecSymbol {
                            name: v.name@,
                            kind: SymbolKind::EnumMember,
                            detail: e.name@ + "."@ + v.name@,
                            span: v.span,
                            uri: uri@,
                        }));
                    }
                    j = j + 1;
                }
                proof {
                    assert(e.variants@.take(j as int) =~= e.variants@);
                }
                assert(symbols_view(state.symbol_list@) =~= before + item_symbols(*item, uri@));
            },
            Item::Function(f) => {
                let mut d = string_from("fn ");
                push_str(&mut d, f.name.as_str());
                push_str(&mut d, "(");
                let ps = format_param_list(&f.params);
                push_str(&mut d, ps.as_str());
                push_str(&mut d, ")");
                let ghost head = d@;
                match &f.return_type {
                    Some(t) => {
                        push_str(&mut d, " -> ");
                        let ts = format_type_expr(t);
                        push_str(&mut d, ts.as_str());
                        assert(d@ =~= head + return_text(f.return_type));
                    },
                    None => {
                        assert(d@ =~= head + return_text(f.return_type));
                    },
                }
                push_symbol(&mut state.symbol_list, new_symbol(f.name.clone(), SymbolKind::Function, d, f.span, uri));
                assert(symbols_view(state.symbol_list@) =~= before + item_symbols(*item, uri@));
            },
            Item::Newtype(n) => {
                let mut d = string_from("type ");
                push_str(&mut d, n.name.as_str());
                push_str(&mut d, " = ");
                let ts = format_type_expr(&n.inner_type);
                push_str(&mut d, ts.as_str());
                push_symbol(&mut state.symbol_list, new_symbol(n.name.clone(), SymbolKind::TypeParameter, d, n.span, uri));
                assert(symbols_view(state.symbol_list@) =~= before + item_symbols(*item, uri@));
            },
            Item::Contract(c) => {
                let d = count_detail("contract ", &c.name, c.functions.len(), " functions)");
                push_symbol(&mut state.symbol_list, new_symbol(c.name.clone(), SymbolKind::Interface, d, c.span, uri));
                assert(symbols_view(state.symbol_list@) =~= before + item_symbols(*item, uri@));
            },
            Item::Use(u) => {
                let name = join_strings(&u.path, ".");
                let mut d = string_from("use ");
                push_str(&mut d, name.as_str());
                push_symbol(&mut state.symbol_list, new_symbol(name, SymbolKind::Module, d, u.span, uri));
                assert(symbols_view(state.symbol_list@) =~= before + item_symbols(*item, uri@));
            },
        }
        proof {
            assert(module.items@.take(i + 1).drop_last() =~= module.items@.take(i as int));
            assert(symbols_view(state.symbol_list@) =~= before + item_symbols(module.items@[i as int], uri@));
        }
        i = i + 1;
    }
    proof {
        assert(module.items@.take(i as int) =~= module.items@);
    }
    state
}


// ── editor positions ────────────────────────────────────────────────────

/// The editor range of a span: zero-based line and column of its start,
/// on one line, as wide as the span (at least one character). The width
/// is the span's length cut to 32 bits.
pub open spec fn range_of(span: Span) -> Range {
    let line: u32 = if span.line > 0 { (span.line - 1) as u32 } else { 0 };
    let col: u32 = if span.column > 0 { (span.column - 1) as u32 } else { 0 };
    let width: u32 = if span.end >= span.start { (span.end - span.start) as u32 } else { 0 };
    let w: u32 = if width >= 1 { width } else { 1 };
    Range {
        start: Position { line, character: col },
        end: Position { line, character: (col + w) as u32 },
    }
}

/// Whether the end column of a span's range fits in 32 bits.
pub open spec fn range_fits(span: Span) -> bool {
    let col: int = if span.column > 0 { span.column - 1 } else { 0 };
    let width: u32 = if span.end >= span.start { (span.end - span.start) as u32 } else { 0 };
    let w: int = if width >= 1 { width as int } else { 1 };
    col + w <= u32::MAX
}

/// Whether a span's range can be computed: its end column fits in 32 bits.
pub fn span_range_fits(span: &Span) -> (r: bool)
    ensures
        r == range_fits(*span),
{
    let col: u64 = if span.column > 0 { (span.column - 1) as u64 } else { 0 };
    let width = (if span.end >= span.start { span.end - span.start } else { 0 }) as u32;
    let w: u64 = if width >= 1 { width as u64 } else { 1 };
    col + w <= 4294967295u64
}

/// Converts a span to an editor range.
pub fn span_to_range(span: &Span) -> (r: Range)
    requires
        range_fits(*span),
    ensures
        r == range_of(*span),
{
    let line = if span.line > 0 { span.line - 1 } else { 0 };
    let col = if span.column > 0 { span.column - 1 } else { 0 };
    let width = (if span.end >= span.start { span.end - span.start } else { 0 }) as u32;
    let w = if width >= 1 { width } else { 1 };
    let end_col = col + w;
    Range { start: Position { line, character: col }, end: Position { line, character: end_col } }
}

/// How serious a diagnostic is.
#[derive(Debug, Clone, Copy, PartialEq, Eq, Structural)]
pub enum Severity {
    Error,
    Warning,
}

/// A message shown in the editor at a range of the document.
#[derive(Debug)]
pub struct Diagnostic {
    pub range: Range,
    pub severity: Severity,
    pub source: String,
    pub message: String,
}

/// The diagnostic for a compiler error: check errors are warnings, the
/// others errors; the source is `oneway`.
pub fn oneway_error_to_diagnostic(err: &OnewayError) -> (d: Diagnostic)
    requires
        range_fits(err@.span),
    ensures
        d.range == range_of(err@.span),
        d.severity == (if err@.phase == Phase::Check { Severity::Warning } else { Severity::Error }),
        d.source@ == "oneway"@,
        d.message@ == err@.message,
{
    let span = err.span();
    let severity = match err {
        OnewayError::CheckError { .. } => Severity::Warning,
        _ => Severity::Error,
    };
    Diagnostic {
        range: span_to_range(span),
        severity,
        source: string_from("oneway"),
        message: string_from(err.message()),
    }
}

// ── the word under the cursor ───────────────────────────────────────────

/// The first position at or after `i` that holds a newline; the length if
/// none does.
pub open spec fn first_newline(s: Seq<char>, i: int) -> int
    decreases s.len() - i,
{
    if i < 0 || i >= s.len() {
        s.len() as int
    } else if s[i] == '\n' {
        i
    } else {
        first_newline(s, i + 1)
    }
}

pub proof fn lemma_first_newline(s: Seq<char>, i: int)
    requires
        0 <= i <= s.len(),
    ensures
        i <= first_newline(s, i) <= s.len(),
        first_newline(s, i) < s.len() ==> s[first_newline(s, i)] == '\n',
        forall|j: int| i <= j < first_newline(s, i) ==> s[j] != '\n',
    decreases s.len() - i,
{
    if i < s.len() && s[i] != '\n' {
        lemma_first_newline(s, i + 1);
    }
}

/// A line without the carriage return that ends it, if any.
pub open spec fn strip_cr(l: Seq<char>) -> Seq<char> {
    if l.len() > 0 && l.last() == '\r' {
        l.drop_last()
    } else {
        l
    }
}

/// The lines of a text: split at each `\n`, a `\r` right before a `\n`
/// dropped, and no empty line after a final `\n`.
pub open spec fn lines_of(s: Seq<char>) -> Seq<Seq<char>>
    decreases s.len(),
{
    if s.len() == 0 {
        Seq::empty()
    } else {
        let i = first_newline(s, 0);
        proof {
            lemma_first_newline(s, 0);
        }
        if i >= s.len() {
            seq![s]
        } else {
            seq![strip_cr(s.take(i))] + lines_of(s.skip(i + 1))
        }
    }
}

pub proof fn lemma_first_newline_shift(s: Seq<char>, k: int, m: int)
    requires
        0 <= k <= m < s.len(),
        s[m] == '\n',
        forall|j: int| k <= j < m ==> s[j] != '\n',
    ensures
        first_newline(s.skip(k), 0) == m - k,
{
    let t = s.skip(k);
    assert forall|j: int| 0 <= j <= m - k implies first_newline(t, j) == m - k by {
        lemma_first_newline_from(t, j, m - k);
    }
}

pub proof fn lemma_first_newline_from(t: Seq<char>, j: int, n: int)
    requires
        0 <= j <= n < t.len(),
        t[n] == '\n',
        forall|x: int| j <= x < n ==> t[x] != '\n',
    ensures
        first_newline(t, j) == n,
    decreases n - j,
{
    if j < n {
        lemma_first_newline_from(t, j + 1, n);
    }
}

pub proof fn lemma_no_newline(t: Seq<char>, j: int)
    requires
        0 <= j <= t.len(),
        forall|x: int| j <= x < t.len() ==> t[x] != '\n',
    ensures
        first_newline(t, j) == t.len(),
    decreases t.len() - j,
{
    if j < t.len() {
        lemma_no_newline(t, j + 1);
    }
}

/// Splits a text into its lines.
pub fn split_lines(s: &Vec<char>) -> (lines: Vec<Vec<char>>)
    ensures
        lines@.map_values(|l: Vec<char>| l@) == lines_of(s@),
{
    let mut lines: Vec<Vec<char>> = Vec::new();
    let mut line_start: usize = 0;
    let mut i: usize = 0;
    proof {
        assert(s@.skip(0) =~= s@);
        assert(lines@.map_values(|l: Vec<char>| l@) =~= Seq::<Seq<char>>::empty());
        assert(Seq::<Seq<char>>::empty() + lines_of(s@) =~= lines_of(s@));
    }
    while i < s.len()
        invariant
            line_start <= i <= s@.len(),
            lines@.map_values(|l: Vec<char>| l@) + lines_of(s@.skip(line_start as int)) == lines_of(s@),
            forall|j: int| line_start <= j < i ==> s@[j] != '\n',
        decreases s@.len() - i,
    {
        if s[i] == '\n' {
            let mut end = i;
            if end > line_start && s[end - 1] == '\r' {
                end = end - 1;
            }
            let mut line: Vec<char> = Vec::new();
            let mut k = line_start;
            while k < end
                invariant
                    line_start <= k <= end <= i < s@.len(),
                    line@ == s@.subrange(line_start as int, k as int),
                decreases end - k,
            {
                line.push(s[k]);
                k = k + 1;
            }
            proof {
                let t = s@.skip(line_start as int);
                lemma_first_newline_shift(s@, line_start as int, i as int);
                assert(t.take(i - line_start) =~= s@.subrange(line_start as int, i as int));
                assert(line@ =~= strip_cr(t.take(i - line_start)));
                assert(t.skip(i - line_start + 1) =~= s@.skip(i + 1));
                let before = lines@.map_values(|l: Vec<char>| l@);
                let after = lines@.push(line).map_values(|l: Vec<char>| l@);
                assert(after =~= before.push(line@));
                assert(after + lines_of(s@.skip(i + 1)) =~= before + lines_of(t));
            }
            lines.push(line);
            line_start = i + 1;
        }
        i = i + 1;
    }
    if line_start < s.len() {
        let mut line: Vec<char> = Vec::new();
        let mut k = line_start;
        while k < s.len()
            invariant
                line_start <= k <= s@.len(),
                line@ == s@.subrange(line_start as int, k as int),
            decreases s@.len() - k,
        {
            line.push(s[k]);
            k = k + 1;
        }
        proof {
            let t = s@.skip(line_start as int);
            lemma_no_newline(t, 0);
            assert(line@ =~= t);
            let before = lines@.map_values(|l: Vec<char>| l@);
            let after = lines@.push(line).map_values(|l: Vec<char>| l@);
            assert(after =~= before.push(line@));
            assert(lines_of(t) =~= seq![t]);
        }
        lines.push(line);
    } else {
        proof {
            assert(s@.skip(line_start as int) =~= Seq::<char>::empty());
            assert(lines@.map_values(|l: Vec<char>| l@) + Seq::<Seq<char>>::empty() =~= lines@.map_values(
                |l: Vec<char>| l@,
            ));
        }
    }
    lines
}

/// The first position at or before `p` from which back to `p` every
/// character can be part of a word.
pub open spec fn word_start(chars: Seq<char>, p: int) -> int
    decreases p,
{
    if p > 0 && p - 1 < chars.len() && (alphanumeric(chars[p - 1]) || chars[p - 1] == '_') {
        word_start(chars, p - 1)
    } else {
        p
    }
}

/// The word under the cursor: the identifier characters around it on its
/// line; none when the line or column is past the text or there is no
/// such character.
pub open spec fn word_at(source: Seq<char>, position: Position) -> Option<Seq<char>> {
    let lines = lines_of(source);
    let col = position.character as int;
    if position.line >= lines.len() {
        None
    } else {
        let line = lines[position.line as int];
        if col > line.len() {
            None
        } else {
            let start = word_start(line, col);
            let end = ident_end(line, col);
            if start == end {
                None
            } else {
                Some(line.subrange(start, end))
            }
        }
    }
}

/// Find the word at a given position in the source text.
pub fn word_at_position(source: &str, position: &Position) -> (r: Option<String>)
    ensures
        match r {
            Some(w) => word_at(source@, *position) == Some(w@),
            None => word_at(source@, *position) is None,
        },
{
    let chars = crate::text::chars_of(source);
    let lines = split_lines(&chars);
    let line_idx = position.line as usize;
    if line_idx >= lines.len() {
        return None;
    }
    let line = &lines[line_idx];
    proof {
        assert(lines@.map_values(|l: Vec<char>| l@)[line_idx as int] == line@);
    }
    let col = position.character as usize;
    if col > line.len() {
        return None;
    }

    // Find word boundaries
    let mut start = col;
    while start > 0 && is_ident_char(line[start - 1])
        invariant
            start <= col <= line@.len(),
            word_start(line@, start as int) == word_start(line@, col as int),
        decreases start,
    {
        start = start - 1;
    }
    let mut end = col;
    while end < line.len() && is_ident_char(line[end])
        invariant
            col <= end <= line@.len(),
            ident_end(line@, end as int) == ident_end(line@, col as int),
        decreases line@.len() - end,
    {
        end = end + 1;
    }

    if start == end {
        return None;
    }

    Some(string_from_range(line, start, end))
}

/// A character that can be part of an identifier: alphanumeric or `_`.
pub open spec fn word_char(c: char) -> bool {
    alphanumeric(c) || c == '_'
}

proof fn lemma_word_start_run(chars: Seq<char>, p: int)
    requires
        0 <= p <= chars.len(),
    ensures
        0 <= word_start(chars, p) <= p,
        forall|k: int| word_start(chars, p) <= k < p ==> word_char(#[trigger] chars[k]),
        word_start(chars, p) == 0 || !word_char(chars[word_start(chars, p) - 1]),
    decreases p,
{
    if p > 0 && word_char(chars[p - 1]) {
        lemma_word_start_run(chars, p - 1);
    }
}

proof fn lemma_ident_end_run(chars: Seq<char>, p: int)
    requires
        0 <= p <= chars.len(),
    ensures
        p <= ident_end(chars, p) <= chars.len(),
        forall|k: int| p <= k < ident_end(chars, p) ==> word_char(#[trigger] chars[k]),
        ident_end(chars, p) == chars.len() || !word_char(chars[ident_end(chars, p)]),
    decreases chars.len() - p,
{
    if p < chars.len() && word_char(chars[p]) {
        lemma_ident_end_run(chars, p + 1);
    }
}

/// The word under the cursor is a whole identifier of its line: a
/// non-empty run of identifier characters (alphanumeric or `_`) that
/// reaches the cursor's column and cannot be extended on either side.
pub proof fn lemma_word_is_maximal_run(source: Seq<char>, position: Position)
    ensures
        word_at(source, position) matches Some(w) ==> {
            let line = lines_of(source)[position.line as int];
            let col = position.character as int;
            exists|a: int, b: int|
                #![trigger line.subrange(a, b)]
                {
                    &&& 0 <= a <= col <= b <= line.len()
                    &&& a < b
                    &&& w == line.subrange(a, b)
                    &&& forall|k: int| a <= k < b ==> word_char(#[trigger] line[k])
                    &&& (a == 0 || !word_char(line[a - 1]))
                    &&& (b == line.len() || !word_char(line[b]))
                }
        },
{
    let lines = lines_of(source);
    let col = position.character as int;
    if position.line < lines.len() {
        let line = lines[position.line as int];
        if col <= line.len() {
            lemma_word_start_run(line, col);
            lemma_ident_end_run(line, col);
            let a = word_start(line, col);
            let b = ident_end(line, col);
            assert(forall|k: int| a <= k < b ==> word_char(#[trigger] line[k]));
            assert(word_at(source, position) matches Some(w) ==> w == line.subrange(a, b));
        }
    }
}

/// Whether a character can be part of an identifier.
pub fn is_ident_char(c: char) -> (r: bool)
    ensures
        r == (alphanumeric(c) || c == '_'),
{
    is_alphanumeric(c) || c == '_'
}

} // verus!
