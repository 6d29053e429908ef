//! The Rust generator: each type definition becomes an enum, a struct or a
//! type alias, each function a Rust function whose body is its expressions
//! one per line.

use vstd::prelude::*;
use crate::syntax::tree::{Block, Expr, FunctionDef, Item, MatchArm, Module, Pattern, TypeDef, TypeExpr};
use crate::lexer::token::str_eq;
use crate::syntax::tree::Ident;
use crate::text::{
    chars_of, decimal, push_char, push_chars, push_decimal, push_signed_decimal, push_str, signed_decimal, string_from,
};

verus! {

// ── names ───────────────────────────────────────────────────────────────

/// Constructors that stand for their single argument.
pub open spec fn is_primitive_name(n: Seq<char>) -> bool {
    n == "Int"@ || n == "Float"@ || n == "Hex"@ || n == "String"@
}

/// Constructors and patterns that Rust's prelude already names.
pub open spec fn is_stdlib_name(n: Seq<char>) -> bool {
    n == "None"@ || n == "Some"@ || n == "Ok"@ || n == "Err"@
}

/// The Rust type a built-in type name stands for; other names stand for
/// themselves.
pub open spec fn base_type_text(n: Seq<char>) -> Seq<char> {
    if n == "Noop"@ {
        "()"@
    } else if n == "Int"@ {
        "i64"@
    } else if n == "Float"@ {
        "f64"@
    } else if n == "Hex"@ {
        "u64"@
    } else if n == "Bytes"@ {
        "Vec<u8>"@
    } else {
        n
    }
}

/// The lower-case form of a character (`char::to_lowercase`), which may be
/// several characters.
pub uninterp spec fn unicode_lowercase(c: char) -> Seq<char>;

/// What `{:?}` writes for a string: the string quoted, with the
/// characters that need it escaped.
pub uninterp spec fn debug_quoted(s: Seq<char>) -> Seq<char>;

/// The lower-case form of a character: for ASCII the one character with
/// `A`–`Z` made `a`–`z`, beyond ASCII what `char::to_lowercase` gives.
pub open spec fn lowercase_text(c: char) -> Seq<char> {
    if c <= '\x7f' {
        seq![crate::loader::ascii_lower(c)]
    } else {
        unicode_lowercase(c)
    }
}

/// A name with its first character in lower case.
pub open spec fn lower_first_text(s: Seq<char>) -> Seq<char> {
    if s.len() == 0 {
        s
    } else {
        lowercase_text(s[0]) + s.drop_first()
    }
}

/// The upper-case hexadecimal digit for a value below sixteen.
pub open spec fn hex_digit(d: nat) -> char {
    if d < 10 {
        crate::text::digit_char(d)
    } else if d == 10 {
        'A'
    } else if d == 11 {
        'B'
    } else if d == 12 {
        'C'
    } else if d == 13 {
        'D'
    } else if d == 14 {
        'E'
    } else {
        'F'
    }
}

/// The upper-case hexadecimal rendering of a natural number.
pub open spec fn upper_hex(n: nat) -> Seq<char>
    decreases n,
{
    if n < 16 {
        seq![hex_digit(n)]
    } else {
        upper_hex(n / 16).push(hex_digit(n % 16))
    }
}

// ── types ───────────────────────────────────────────────────────────────

/// Whether the generator can write the type: no function type stands
/// where a type is written out.
pub open spec fn renderable(te: TypeExpr) -> bool
    decreases te,
{
    match te {
        TypeExpr::Named { generics, .. } => all_renderable(generics@),
        TypeExpr::Repeat { ty, .. } => renderable(*ty),
        TypeExpr::Spread { ty, .. } => renderable(*ty),
        TypeExpr::Union { .. } => true,
        TypeExpr::Product { .. } => true,
        TypeExpr::Function { .. } => false,
    }
}

pub open spec fn all_renderable(ts: Seq<TypeExpr>) -> bool
    decreases ts,
{
    if ts.len() == 0 {
        true
    } else {
        all_renderable(ts.drop_last()) && renderable(ts.last())
    }
}

/// The Rust text of a type: built-in names mapped, generic arguments in
/// angle brackets, `T[N]` as an array, `...T` as a `Vec`, and unions and
/// products as `()`.
pub open spec fn type_text(te: TypeExpr) -> Seq<char>
    decreases te,
{
    match te {
        TypeExpr::Named { name, generics, .. } => if generics@.len() == 0 {
            base_type_text(name@)
        } else {
            base_type_text(name@) + "<"@ + types_text(generics@) + ">"@
        },
        TypeExpr::Repeat { ty, count, .. } => "["@ + type_text(*ty) + "; "@ + decimal(count as nat) + "]"@,
        TypeExpr::Spread { ty, .. } => "Vec<"@ + type_text(*ty) + ">"@,
        _ => "()"@,
    }
}

/// Types written one after the other, separated by `, `.
pub open spec fn types_text(ts: Seq<TypeExpr>) -> Seq<char>
    decreases ts,
{
    if ts.len() == 0 {
        Seq::empty()
    } else if ts.len() == 1 {
        type_text(ts[0])
    } else {
        types_text(ts.drop_last()) + ", "@ + type_text(ts.last())
    }
}

/// The Rust text of a named type with generic arguments.
pub open spec fn named_type_text(name: Seq<char>, generics: Seq<TypeExpr>) -> Seq<char> {
    if generics.len() == 0 {
        base_type_text(name)
    } else {
        base_type_text(name) + "<"@ + types_text(generics) + ">"@
    }
}

/// Whether every type is a name without generic arguments.
pub open spec fn all_simple(ts: Seq<TypeExpr>) -> bool {
    forall|i: int| 0 <= i < ts.len() ==> #[trigger] simple_named(ts[i])
}

pub open spec fn simple_named(t: TypeExpr) -> bool {
    match t {
        TypeExpr::Named { generics, .. } => generics@.len() == 0,
        _ => false,
    }
}

pub open spec fn named_name(t: TypeExpr) -> Seq<char> {
    match t {
        TypeExpr::Named { name, .. } => name@,
        _ => Seq::empty(),
    }
}

// ── the variant table ───────────────────────────────────────────────────

/// The (variant, enum) pairs of a type definition: those of a union of
/// plain names, in order.
pub open spec fn typedef_pairs(td: TypeDef) -> Seq<(Seq<char>, Seq<char>)> {
    match td.body {
        TypeExpr::Union { variants, .. } => if all_simple(variants@) {
            Seq::new(variants@.len(), |i: int| (named_name(variants@[i]), td.name.name@))
        } else {
            Seq::empty()
        },
        _ => Seq::empty(),
    }
}

/// The (variant, enum) pairs of a module's items, in order.
pub open spec fn variant_pairs(items: Seq<Item>) -> Seq<(Seq<char>, Seq<char>)>
    decreases items.len(),
{
    if items.len() == 0 {
        Seq::empty()
    } else {
        variant_pairs(items.drop_last()) + match items.last() {
            Item::TypeDef(td) => typedef_pairs(td),
            _ => Seq::empty(),
        }
    }
}

/// The enum a variant name belongs to: the last pair that names it.
pub open spec fn enum_of(pairs: Seq<(Seq<char>, Seq<char>)>, name: Seq<char>) -> Option<Seq<char>>
    decreases pairs.len(),
{
    if pairs.len() == 0 {
        None
    } else if pairs.last().0 == name {
        Some(pairs.last().1)
    } else {
        enum_of(pairs.drop_last(), name)
    }
}

/// How a value name is written: `Noop` as `()`, a variant as
/// `Enum::Variant`, any other name as itself.
pub open spec fn value_text(pairs: Seq<(Seq<char>, Seq<char>)>, name: Seq<char>) -> Seq<char> {
    if name == "Noop"@ {
        "()"@
    } else {
        match enum_of(pairs, name) {
            Some(parent) => parent + "::"@ + name,
            None => name,
        }
    }
}

// ── expressions and patterns ────────────────────────────────────────────

/// Whether the generator can write the expression: it holds no lambda
/// and no `while`.
pub open spec fn generatable(e: Expr) -> bool
    decreases e,
{
    match e {
        Expr::Constructor { args, .. } => all_generatable(args@),
        Expr::MethodCall { receiver, args, .. } => generatable(*receiver) && all_generatable(args@),
        Expr::Match { scrutinee, arms, .. } => generatable(*scrutinee) && arms_generatable(arms@),
        Expr::Try { inner, .. } => generatable(*inner),
        Expr::Lambda { .. } => false,
        Expr::While { .. } => false,
        _ => true,
    }
}

pub open spec fn all_generatable(es: Seq<Expr>) -> bool
    decreases es,
{
    if es.len() == 0 {
        true
    } else {
        all_generatable(es.drop_last()) && generatable(es.last())
    }
}

pub open spec fn arms_generatable(arms: Seq<MatchArm>) -> bool
    decreases arms,
{
    if arms.len() == 0 {
        true
    } else {
        arms_generatable(arms.drop_last()) && generatable(arms.last().body)
    }
}

/// The Rust text of an expression.
pub open spec fn expr_text(pairs: Seq<(Seq<char>, Seq<char>)>, e: Expr) -> Seq<char>
    decreases e,
{
    match e {
        Expr::Ident(i) => value_text(pairs, i.name@),
        Expr::StringLit { value, .. } => debug_quoted(value@),
        Expr::IntLit { value, .. } => signed_decimal(value as int) + "i64"@,
        Expr::FloatLit { value, .. } => value@ + "f64"@,
        Expr::HexLit { value, .. } => "0x"@ + upper_hex(value as nat) + "u64"@,
        Expr::Constructor { name, args, .. } => if is_primitive_name(name.name@) && args@.len() == 1 {
            expr_text(pairs, args@[0])
        } else if is_stdlib_name(name.name@) && args@.len() == 0 {
            name.name@
        } else {
            name.name@ + "("@ + exprs_text(pairs, args@) + ")"@
        },
        Expr::MethodCall { receiver, method, args, .. } => if method.name@ == "print"@ && args@.len() == 1 {
            "println!(\"{}\", "@ + expr_text(pairs, *receiver) + ")"@
        } else {
            expr_text(pairs, *receiver) + "."@ + method.name@ + "("@ + exprs_text(pairs, args@) + ")"@
        },
        Expr::Match { scrutinee, arms, .. } => "match "@ + expr_text(pairs, *scrutinee) + " {\n"@ + arms_text(pairs, arms@)
            + "    }"@,
        Expr::Try { inner, .. } => expr_text(pairs, *inner) + "?"@,
        _ => Seq::empty(),
    }
}

/// Expressions written one after the other, separated by `, `.
pub open spec fn exprs_text(pairs: Seq<(Seq<char>, Seq<char>)>, es: Seq<Expr>) -> Seq<char>
    decreases es,
{
    if es.len() == 0 {
        Seq::empty()
    } else if es.len() == 1 {
        expr_text(pairs, es[0])
    } else {
        exprs_text(pairs, es.drop_last()) + ", "@ + expr_text(pairs, es.last())
    }
}

/// A match arm on a line of its own.
pub open spec fn arm_text(pairs: Seq<(Seq<char>, Seq<char>)>, a: MatchArm) -> Seq<char>
    decreases a,
{
    "        "@ + pattern_text(pairs, a.pattern) + " => "@ + expr_text(pairs, a.body) + ",\n"@
}

pub open spec fn arms_text(pairs: Seq<(Seq<char>, Seq<char>)>, arms: Seq<MatchArm>) -> Seq<char>
    decreases arms,
{
    if arms.len() == 0 {
        Seq::empty()
    } else {
        arms_text(pairs, arms.drop_last()) + arm_text(pairs, arms.last())
    }
}

/// The Rust text of a pattern.
pub open spec fn pattern_text(pairs: Seq<(Seq<char>, Seq<char>)>, p: Pattern) -> Seq<char>
    decreases p,
{
    match p {
        Pattern::Wildcard { .. } => "_"@,
        Pattern::Variant { name, args, .. } => {
            let head = if is_stdlib_name(name@) { name@ } else { value_text(pairs, name@) };
            if args@.len() == 0 {
                head
            } else {
                head + "("@ + patterns_text(pairs, args@) + ")"@
            }
        },
    }
}

pub open spec fn patterns_text(pairs: Seq<(Seq<char>, Seq<char>)>, ps: Seq<Pattern>) -> Seq<char>
    decreases ps,
{
    if ps.len() == 0 {
        Seq::empty()
    } else if ps.len() == 1 {
        pattern_text(pairs, ps[0])
    } else {
        patterns_text(pairs, ps.drop_last()) + ", "@ + pattern_text(pairs, ps.last())
    }
}

// ── functions, type definitions, modules ────────────────────────────────

/// A body line: the expression, indented, with `;` after it unless it is
/// the last line of a body whose value is returned.
pub open spec fn line_text(pairs: Seq<(Seq<char>, Seq<char>)>, e: Expr, semicolon: bool) -> Seq<char> {
    "    "@ + expr_text(pairs, e) + (if semicolon { ";"@ } else { Seq::empty() }) + "\n"@
}

/// The first `n` lines of a body.
pub open spec fn body_text(pairs: Seq<(Seq<char>, Seq<char>)>, es: Seq<Expr>, is_main: bool, n: int) -> Seq<char>
    decreases n,
{
    if n <= 0 {
        Seq::empty()
    } else {
        body_text(pairs, es, is_main, n - 1) + line_text(pairs, es[n - 1], is_main || n - 1 != es.len() - 1)
    }
}

pub open spec fn block_text(pairs: Seq<(Seq<char>, Seq<char>)>, b: Block, is_main: bool) -> Seq<char> {
    body_text(pairs, b.exprs@, is_main, b.exprs@.len() as int)
}

/// Whether the generator can write the function.
pub open spec fn function_generatable(f: FunctionDef) -> bool {
    renderable(f.return_ty) && all_generatable(f.body.exprs@)
}

/// The Rust text of a function: `main` (with no receiver) returns nothing
/// when its return type is `()`; other functions return their type.
pub open spec fn function_text(pairs: Seq<(Seq<char>, Seq<char>)>, f: FunctionDef) -> Seq<char> {
    let ret = type_text(f.return_ty);
    if f.receiver is None && f.name.name@ == "main"@ {
        if ret == "()"@ {
            "fn main() {\n"@ + block_text(pairs, f.body, true) + "}\n"@
        } else {
            "fn main() -> "@ + ret + " {\n"@ + block_text(pairs, f.body, false) + "}\n"@
        }
    } else {
        "fn "@ + f.name.name@ + "() -> "@ + ret + " {\n"@ + block_text(pairs, f.body, false) + "}\n"@
    }
}

/// Whether the generator can write the type definition.
pub open spec fn typedef_generatable(td: TypeDef) -> bool {
    td.generic_params@.len() > 0 || match td.body {
        TypeExpr::Named { generics, .. } => all_renderable(generics@),
        TypeExpr::Repeat { ty, .. } => renderable(*ty),
        TypeExpr::Spread { ty, .. } => renderable(*ty),
        _ => true,
    }
}

/// The lines `    Variant,` of an enum.
pub open spec fn variant_lines(ts: Seq<TypeExpr>) -> Seq<char>
    decreases ts.len(),
{
    if ts.len() == 0 {
        Seq::empty()
    } else {
        variant_lines(ts.drop_last()) + "    "@ + named_name(ts.last()) + ",\n"@
    }
}

/// The lines `    pub field: Type,` of a struct, each field named after
/// its type.
pub open spec fn field_lines(ts: Seq<TypeExpr>) -> Seq<char>
    decreases ts.len(),
{
    if ts.len() == 0 {
        Seq::empty()
    } else {
        field_lines(ts.drop_last()) + "    pub "@ + lower_first_text(named_name(ts.last())) + ": "@ + named_name(ts.last())
            + ",\n"@
    }
}

/// The Rust text of a type definition: a union of plain names becomes an
/// enum, a product of plain names a struct, a named, repeated or spread
/// type an alias; generic and other definitions become a comment.
pub open spec fn typedef_text(td: TypeDef) -> Seq<char> {
    let n = td.name.name@;
    let skip = "// Skipping complex type `"@ + n + "` for now (TODO).\n"@;
    if td.generic_params@.len() > 0 {
        "// Skipping generic type `"@ + n + "` for now (TODO).\n"@
    } else {
        match td.body {
            TypeExpr::Union { variants, .. } => if all_simple(variants@) {
                "#[allow(non_camel_case_types, dead_code)]\n"@ + "pub enum "@ + n + " {\n"@ + variant_lines(variants@) + "}\n"@
            } else {
                skip
            },
            TypeExpr::Product { fields, .. } => if all_simple(fields@) {
                "#[allow(non_snake_case, dead_code)]\n"@ + "pub struct "@ + n + " {\n"@ + field_lines(fields@) + "}\n"@
            } else {
                skip
            },
            TypeExpr::Named { name, generics, .. } => "pub type "@ + n + " = "@ + named_type_text(name@, generics@) + ";\n"@,
            TypeExpr::Repeat { ty, count, .. } => "pub type "@ + n + " = ["@ + type_text(*ty) + "; "@ + decimal(count as nat)
                + "];\n"@,
            TypeExpr::Spread { ty, .. } => "pub type "@ + n + " = Vec<"@ + type_text(*ty) + ">;\n"@,
            _ => skip,
        }
    }
}

/// Whether the generator can write the module: its items are functions
/// and type definitions it can write (`use` declarations are resolved
/// before generation).
pub open spec fn module_generatable(items: Seq<Item>) -> bool {
    forall|i: int| 0 <= i < items.len() ==> match #[trigger] items[i] {
        Item::Function(f) => function_generatable(f),
        Item::TypeDef(td) => typedef_generatable(td),
        Item::Use(_) => false,
    }
}

/// The Rust text of the items, each followed by a blank line.
pub open spec fn items_text(pairs: Seq<(Seq<char>, Seq<char>)>, items: Seq<Item>) -> Seq<char>
    decreases items.len(),
{
    if items.len() == 0 {
        Seq::empty()
    } else {
        items_text(pairs, items.drop_last()) + match items.last() {
            Item::Function(f) => function_text(pairs, f) + "\n"@,
            Item::TypeDef(td) => typedef_text(td) + "\n"@,
            Item::Use(_) => Seq::empty(),
        }
    }
}

/// The Rust source generated for a module.
pub open spec fn module_text(m: Module) -> Seq<char> {
    items_text(variant_pairs(m.items@), m.items@)
}

// ── lemmas on the list predicates ───────────────────────────────────────

/// The texts of expressions, each on its own.
pub open spec fn texts_of(pairs: Seq<(Seq<char>, Seq<char>)>, es: Seq<Expr>) -> Seq<Seq<char>> {
    es.map_values(|e: Expr| expr_text(pairs, e))
}

/// A list of expressions is written as their texts joined by `, `.
pub proof fn lemma_exprs_text_joins(pairs: Seq<(Seq<char>, Seq<char>)>, es: Seq<Expr>)
    ensures
        exprs_text(pairs, es) == crate::lsp::join(texts_of(pairs, es), ", "@),
    decreases es.len(),
{
    if es.len() > 1 {
        lemma_exprs_text_joins(pairs, es.drop_last());
        assert(texts_of(pairs, es).drop_last() =~= texts_of(pairs, es.drop_last()));
    }
}

/// A method call other than a one-argument `print` is written as the
/// receiver's text, `.`, the method's name, and the texts of all its
/// arguments, in order and separated by `, `, between parentheses.
pub proof fn lemma_method_call_text(pairs: Seq<(Seq<char>, Seq<char>)>, e: Expr)
    requires
        e is MethodCall,
        !(e->MethodCall_method.name@ == "print"@ && e->MethodCall_args@.len() == 1),
    ensures
        expr_text(pairs, e) == expr_text(pairs, *e->MethodCall_receiver) + "."@ + e->MethodCall_method.name@ + "("@
            + crate::lsp::join(texts_of(pairs, e->MethodCall_args@), ", "@) + ")"@,
{
    lemma_exprs_text_joins(pairs, e->MethodCall_args@);
}

/// A constructor that is neither a one-argument primitive wrapper nor a
/// bare standard-library variant is written as its name and the texts of
/// all its arguments, in order and separated by `, `, between parentheses.
pub proof fn lemma_constructor_text(pairs: Seq<(Seq<char>, Seq<char>)>, e: Expr)
    requires
        e is Constructor,
        !(is_primitive_name(e->Constructor_name.name@) && e->Constructor_args@.len() == 1),
        !(is_stdlib_name(e->Constructor_name.name@) && e->Constructor_args@.len() == 0),
    ensures
        expr_text(pairs, e) == e->Constructor_name.name@ + "("@ + crate::lsp::join(
            texts_of(pairs, e->Constructor_args@),
            ", "@,
        ) + ")"@,
{
    lemma_exprs_text_joins(pairs, e->Constructor_args@);
}

proof fn lemma_all_renderable(ts: Seq<TypeExpr>, i: int)
    requires
        all_renderable(ts),
        0 <= i < ts.len(),
    ensures
        renderable(ts[i]),
    decreases ts.len(),
{
    if i < ts.len() - 1 {
        lemma_all_renderable(ts.drop_last(), i);
    }
}

proof fn lemma_all_generatable(es: Seq<Expr>, i: int)
    requires
        all_generatable(es),
        0 <= i < es.len(),
    ensures
        generatable(es[i]),
    decreases es.len(),
{
    if i < es.len() - 1 {
        lemma_all_generatable(es.drop_last(), i);
    }
}

proof fn lemma_arms_generatable(arms: Seq<MatchArm>, i: int)
    requires
        arms_generatable(arms),
        0 <= i < arms.len(),
    ensures
        generatable(arms[i].body),
    decreases arms.len(),
{
    if i < arms.len() - 1 {
        lemma_arms_generatable(arms.drop_last(), i);
    }
}

// ── what the generator calls in std ─────────────────────────────────────

/// The lower-case form of `c`.
///
/// Trusted: calls `char::to_lowercase` and collects the characters it
/// yields; the contract names the result, and for an ASCII character states
/// what std documents: the one character, with `A`–`Z` made `a`–`z`.
#[verifier::external_body]
fn lowercase(c: char) -> (s: String)
    ensures
        s@ == unicode_lowercase(c),
        c <= '\x7f' ==> s@ == seq![crate::loader::ascii_lower(c)],
{
    c.to_lowercase().collect::<String>()
}

/// `{:?}` of a string.
///
/// Trusted: calls `format!("{:?}", s)`, the `Debug` rendering of `str`;
/// the contract names the result and says nothing more of it.
#[verifier::external_body]
fn debug_string(s: &str) -> (r: String)
    ensures
        r@ == debug_quoted(s@),
{
    format!("{:?}", s)
}

fn hex_digit_char(d: u64) -> (c: char)
    requires
        d < 16,
    ensures
        c == hex_digit(d as nat),
{
    if d < 10 {
        crate::text::digit_to_char(d)
    } else if d == 10 {
        'A'
    } else if d == 11 {
        'B'
    } else if d == 12 {
        'C'
    } else if d == 13 {
        'D'
    } else if d == 14 {
        'E'
    } else {
        'F'
    }
}

/// Appends the upper-case hexadecimal rendering of `n`.
fn push_upper_hex(s: &mut String, n: u64)
    ensures
        final(s)@ == old(s)@ + upper_hex(n as nat),
    decreases n,
{
    if n < 16 {
        push_char(s, hex_digit_char(n));
        assert(upper_hex(n as nat) == seq![hex_digit(n as nat)]);
    } else {
        push_upper_hex(s, n / 16);
        push_char(s, hex_digit_char(n % 16));
        assert(upper_hex(n as nat) == upper_hex((n / 16) as nat).push(hex_digit((n % 16) as nat)));
    }
}

// ── names and types ─────────────────────────────────────────────────────

pub fn is_primitive_constructor(name: &str) -> (r: bool)
    ensures
        r == is_primitive_name(name@),
{
    str_eq(name, "Int") || str_eq(name, "Float") || str_eq(name, "Hex") || str_eq(name, "String")
}

pub fn is_stdlib_variant(name: &str) -> (r: bool)
    ensures
        r == is_stdlib_name(name@),
{
    str_eq(name, "None") || str_eq(name, "Some") || str_eq(name, "Ok") || str_eq(name, "Err")
}

/// The name with its first character in lower case.
pub fn lower_first(s: &str) -> (r: String)
    ensures
        r@ == lower_first_text(s@),
{
    let cs = chars_of(s);
    if cs.len() == 0 {
        return String::new();
    }
    let mut out = lowercase(cs[0]);
    let rest = crate::text::string_from_range(&cs, 1, cs.len());
    push_str(&mut out, rest.as_str());
    proof {
        assert(cs@.subrange(1, cs@.len() as int) =~= s@.drop_first());
    }
    out
}

/// Whether every type is a name without generic arguments.
pub fn all_simple_named(items: &Vec<TypeExpr>) -> (r: bool)
    ensures
        r == all_simple(items@),
{
    let mut i: usize = 0;
    while i < items.len()
        invariant
            i <= items@.len(),
            forall|j: int| 0 <= j < i ==> #[trigger] simple_named(items@[j]),
        decreases items@.len() - i,
    {
        match &items[i] {
            TypeExpr::Named { generics, .. } => {
                if generics.len() != 0 {
                    assert(!simple_named(items@[i as int]));
                    return false;
                }
            },
            _ => {
                assert(!simple_named(items@[i as int]));
                return false;
            },
        }
        i = i + 1;
    }
    true
}

/// The Rust text of a type.
pub fn render_type(ty: &TypeExpr) -> (r: String)
    requires
        renderable(*ty),
    ensures
        r@ == type_text(*ty),
    decreases ty,
{
    match ty {
        TypeExpr::Named { name, generics, .. } => {
            proof {
                assert(decreases_to!(*ty => (*ty)->Named_generics));
            }
            render_named_type(name.as_str(), generics)
        },
        TypeExpr::Repeat { ty: inner, count, .. } => {
            let mut out = string_from("[");
            let t = render_type(inner);
            push_str(&mut out, t.as_str());
            push_str(&mut out, "; ");
            push_decimal(&mut out, *count);
            push_str(&mut out, "]");
            out
        },
        TypeExpr::Spread { ty: inner, .. } => {
            let mut out = string_from("Vec<");
            let t = render_type(inner);
            push_str(&mut out, t.as_str());
            push_str(&mut out, ">");
            out
        },
        TypeExpr::Union { .. } => string_from("()"),
        TypeExpr::Product { .. } => string_from("()"),
        TypeExpr::Function { .. } => string_from("()"),
    }
}

/// The Rust text of a named type with generic arguments.
pub fn render_named_type(name: &str, generics: &Vec<TypeExpr>) -> (r: String)
    requires
        all_renderable(generics@),
    ensures
        r@ == named_type_text(name@, generics@),
    decreases generics,
{
    let mut base = if str_eq(name, "Noop") {
        string_from("()")
    } else if str_eq(name, "Int") {
        string_from("i64")
    } else if str_eq(name, "Float") {
        string_from("f64")
    } else if str_eq(name, "Hex") {
        string_from("u64")
    } else if str_eq(name, "Bytes") {
        string_from("Vec<u8>")
    } else {
        string_from(name)
    };
    if generics.len() == 0 {
        return base;
    }
    push_str(&mut base, "<");
    let ghost prefix = base@;
    let mut i: usize = 0;
    while i < generics.len()
        invariant
            i <= generics@.len(),
            all_renderable(generics@),
            base@ == prefix + types_text(generics@.take(i as int)),
        decreases generics@.len() - i,
    {
        proof {
            vstd::std_specs::vec::axiom_vec_index_decreases(*generics, i as int);
            lemma_all_renderable(generics@, i as int);
            assert(generics@.take(i + 1).drop_last() =~= generics@.take(i as int));
        }
        if i > 0 {
            push_str(&mut base, ", ");
        }
        let t = render_type(&generics[i]);
        push_str(&mut base, t.as_str());
        i = i + 1;
    }
    proof {
        assert(generics@.take(i as int) =~= generics@);
    }
    push_str(&mut base, ">");
    base
}

// ── the generator ───────────────────────────────────────────────────────

/// The generator's state: for each variant of a union of plain names, the
/// enum it belongs to, in the order the module defines them. Lookups take
/// the last pair for a name, as a map keyed by variant name would hold it
/// after inserting the pairs in order.
struct Codegen {
    variant_of: Vec<(String, String)>,
}

impl Codegen {
    spec fn pairs(&self) -> Seq<(Seq<char>, Seq<char>)> {
        self.variant_of@.map_values(|p: (String, String)| (p.0@, p.1@))
    }

    fn from_module(module: &Module) -> (cg: Self)
        ensures
            cg.pairs() == variant_pairs(module.items@),
    {
        let mut variant_of: Vec<(String, String)> = Vec::new();
        let mut i: usize = 0;
        while i < module.items.len()
            invariant
                i <= module.items@.len(),
                variant_of@.map_values(|p: (String, String)| (p.0@, p.1@)) == variant_pairs(module.items@.take(i as int)),
            decreases module.items@.len() - i,
        {
            let ghost before = variant_of@.map_values(|p: (String, String)| (p.0@, p.1@));
            proof {
                assert(module.items@.take(i + 1).drop_last() =~= module.items@.take(i as int));
            }
            match &module.items[i] {
                Item::TypeDef(td) => {
                    match &td.body {
                        TypeExpr::Union { variants, .. } => {
                            if all_simple_named(variants) {
                                let mut j: usize = 0;
                                while j < variants.len()
                                    invariant
                                        j <= variants@.len(),
                                        all_simple(variants@),
                                        variant_of@.map_values(|p: (String, String)| (p.0@, p.1@)) == before + Seq::new(
                                            j as nat,
                                            |k: int| (named_name(variants@[k]), td.name.name@),
                                        ),
                                    decreases variants@.len() - j,
                                {
                                    let ghost prev = variant_of@;
                                    match &variants[j] {
                                        TypeExpr::Named { name, .. } => {
                                            variant_of.push((name.clone(), td.name.name.clone()));
                                        },
                                        _ => {
                                            assert(simple_named(variants@[j as int]));
                                        },
                                    }
                                    proof {
                                        let x = variant_of@.last();
                                        assert(variant_of@ == prev.push(x));
                                        assert(x.0@ == named_name(variants@[j as int]));
                                        assert(x.1@ == td.name.name@);
                                        let f = |p: (String, String)| (p.0@, p.1@);
                                        assert(variant_of@.map_values(f) =~= prev.map_values(f).push((x.0@, x.1@)));
                                        assert(Seq::new((j + 1) as nat, |k: int| (named_name(variants@[k]), td.name.name@))
                                            =~= Seq::new(j as nat, |k: int| (named_name(variants@[k]), td.name.name@)).push(
                                            (x.0@, x.1@)));
                                    }
                                    j = j + 1;
                                }
                                proof {
                                    assert(Seq::new(j as nat, |k: int| (named_name(variants@[k]), td.name.name@))
                                        =~= typedef_pairs(*td));
                                }
                            } else {
                                assert(before + typedef_pairs(*td) =~= before);
                            }
                        },
                        _ => {
                            assert(before + typedef_pairs(*td) =~= before);
                        },
                    }
                },
                _ => {
                    assert(before + Seq::<(Seq<char>, Seq<char>)>::empty() =~= before);
                },
            }
            i = i + 1;
        }
        proof {
            assert(module.items@.take(i as int) =~= module.items@);
        }
        Codegen { variant_of }
    }

    /// How a value name is written.
    fn rust_value(&self, name: &str) -> (r: String)
        ensures
            r@ == value_text(self.pairs(), name@),
    {
        if str_eq(name, "Noop") {
            return string_from("()");
        }
        let ghost ps = self.pairs();
        let mut i = self.variant_of.len();
        proof {
            assert(ps.take(i as int) =~= ps);
        }
        while i > 0
            invariant
                i <= self.variant_of@.len(),
                ps == self.pairs(),
                name@ != "Noop"@,
                enum_of(ps, name@) == enum_of(ps.take(i as int), name@),
            decreases i,
        {
            proof {
                assert(ps.take(i as int).drop_last() =~= ps.take(i - 1));
            }
            i = i - 1;
            proof {
                assert(ps[i as int] == (self.variant_of@[i as int].0@, self.variant_of@[i as int].1@));
                assert(ps.take(i + 1).last() == ps[i as int]);
            }
            if str_eq(self.variant_of[i].0.as_str(), name) {
                assert(enum_of(ps.take(i + 1), name@) == Some(self.variant_of@[i as int].1@));
                let mut out = self.variant_of[i].1.clone();
                push_str(&mut out, "::");
                push_str(&mut out, name);
                return out;
            }
        }
        string_from(name)
    }

    fn emit_pattern(&self, out: &mut String, pattern: &Pattern)
        ensures
            final(out)@ == old(out)@ + pattern_text(self.pairs(), *pattern),
        decreases pattern,
    {
        match pattern {
            Pattern::Variant { name, args, .. } => {
                if is_stdlib_variant(name.as_str()) {
                    push_str(out, name.as_str());
                } else {
                    let v = self.rust_value(name.as_str());
                    push_str(out, v.as_str());
                }
                if args.len() != 0 {
                    let ghost prefix = old(out)@ + if is_stdlib_name(name@) { name@ } else { value_text(self.pairs(), name@) }
                        + "("@;
                    push_str(out, "(");
                    proof {
                        assert(patterns_text(self.pairs(), args@.take(0)) =~= Seq::<char>::empty());
                        assert(out@ =~= prefix + patterns_text(self.pairs(), args@.take(0)));
                    }
                    let mut i: usize = 0;
                    while i < args.len()
                        invariant
                            i <= args@.len(),
                            *pattern == (Pattern::Variant { name: *name, args: *args, span: pattern->Variant_span }),
                            out@ == prefix + patterns_text(self.pairs(), args@.take(i as int)),
                        decreases args@.len() - i,
                    {
                        proof {
                            assert(decreases_to!(*pattern => (*pattern)->Variant_args));
                            vstd::std_specs::vec::axiom_vec_index_decreases(*args, i as int);
                            assert(args@.take(i + 1).drop_last() =~= args@.take(i as int));
                        }
                        if i > 0 {
                            push_str(out, ", ");
                        }
                        self.emit_pattern(out, &args[i]);
                        i = i + 1;
                    }
                    proof {
                        assert(args@.take(i as int) =~= args@);
                    }
                    push_str(out, ")");
                }
            },
            Pattern::Wildcard { .. } => {
                push_str(out, "_");
            },
        }
    }

    /// Writes the arguments of a call, separated by `, `.
    fn emit_args(&self, out: &mut String, parent: &Expr, args: &Vec<Expr>)
        requires
            all_generatable(args@),
            decreases_to!(*parent => *args),
        ensures
            final(out)@ == old(out)@ + exprs_text(self.pairs(), args@),
        decreases parent, 0int,
    {
        let ghost prefix = old(out)@;
        let mut i: usize = 0;
        while i < args.len()
            invariant
                i <= args@.len(),
                all_generatable(args@),
                decreases_to!(*parent => *args),
                out@ == prefix + exprs_text(self.pairs(), args@.take(i as int)),
            decreases args@.len() - i,
        {
            proof {
                vstd::std_specs::vec::axiom_vec_index_decreases(*args, i as int);
                lemma_all_generatable(args@, i as int);
                assert(args@.take(i + 1).drop_last() =~= args@.take(i as int));
            }
            if i > 0 {
                push_str(out, ", ");
            }
            self.emit_expr(out, &args[i]);
            i = i + 1;
        }
        proof {
            assert(args@.take(i as int) =~= args@);
        }
    }

    fn try_emit_builtin_method(&self, receiver: &Expr, method: &Ident, args: &Vec<Expr>) -> (r: Option<String>)
        requires
            generatable(*receiver),
        ensures
            match r {
                Some(s) => method.name@ == "print"@ && args@.len() == 1 && s@ == "println!(\"{}\", "@ + expr_text(
                    self.pairs(),
                    *receiver,
                ) + ")"@,
                None => !(method.name@ == "print"@ && args@.len() == 1),
            },
        decreases receiver, 2int,
    {
        if str_eq(method.name.as_str(), "print") && args.len() == 1 {
            let mut s = string_from("println!(\"{}\", ");
            self.emit_expr(&mut s, receiver);
            push_str(&mut s, ")");
            return Some(s);
        }
        None
    }

    fn emit_expr(&self, out: &mut String, expr: &Expr)
        requires
            generatable(*expr),
        ensures
            final(out)@ == old(out)@ + expr_text(self.pairs(), *expr),
        decreases expr, 1int,
    {
        match expr {
            Expr::Ident(ident) => {
                let v = self.rust_value(ident.name.as_str());
                push_str(out, v.as_str());
            },
            Expr::StringLit { value, .. } => {
                let q = debug_string(value.as_str());
                push_str(out, q.as_str());
            },
            Expr::IntLit { value, .. } => {
                push_signed_decimal(out, *value);
                push_str(out, "i64");
            },
            Expr::FloatLit { value, .. } => {
                push_str(out, value.as_str());
                push_str(out, "f64");
            },
            Expr::HexLit { value, .. } => {
                push_str(out, "0x");
                push_upper_hex(out, *value);
                push_str(out, "u64");
            },
            Expr::Constructor { name, args, .. } => {
                proof {
                    assert(decreases_to!(*expr => (*expr)->Constructor_args));
                }
                if is_primitive_constructor(name.name.as_str()) && args.len() == 1 {
                    proof {
                        vstd::std_specs::vec::axiom_vec_index_decreases(*args, 0);
                        lemma_all_generatable(args@, 0);
                    }
                    self.emit_expr(out, &args[0]);
                } else if is_stdlib_variant(name.name.as_str()) && args.len() == 0 {
                    push_str(out, name.name.as_str());
                } else {
                    push_str(out, name.name.as_str());
                    push_str(out, "(");
                    self.emit_args(out, expr, args);
                    push_str(out, ")");
                }
            },
            Expr::MethodCall { receiver, method, args, .. } => {
                proof {
                    assert(decreases_to!(*expr => (*expr)->MethodCall_args));
                }
                match self.try_emit_builtin_method(receiver, method, args) {
                    Some(rust) => {
                        push_str(out, rust.as_str());
                    },
                    None => {
                        self.emit_expr(out, receiver);
                        push_str(out, ".");
                        push_str(out, method.name.as_str());
                        push_str(out, "(");
                        self.emit_args(out, expr, args);
                        push_str(out, ")");
                    },
                }
            },
            Expr::Match { scrutinee, arms, .. } => {
                push_str(out, "match ");
                self.emit_expr(out, scrutinee);
                push_str(out, " {\n");
                let ghost prefix = out@;
                let mut i: usize = 0;
                while i < arms.len()
                    invariant
                        i <= arms@.len(),
                        *expr == (Expr::Match { scrutinee: *scrutinee, arms: *arms, span: expr->Match_span }),
                        arms_generatable(arms@),
                        out@ == prefix + arms_text(self.pairs(), arms@.take(i as int)),
                    decreases arms@.len() - i,
                {
                    proof {
                        assert(decreases_to!(*expr => (*expr)->Match_arms));
                        vstd::std_specs::vec::axiom_vec_index_decreases(*arms, i as int);
                        lemma_arms_generatable(arms@, i as int);
                        assert(arms@.take(i + 1).drop_last() =~= arms@.take(i as int));
                    }
                    let arm = &arms[i];
                    assert(arms_text(self.pairs(), arms@.take(i + 1)) == arms_text(self.pairs(), arms@.take(i as int))
                        + arm_text(self.pairs(), arms@[i as int]));
                    push_str(out, "        ");
                    self.emit_pattern(out, &arm.pattern);
                    push_str(out, " => ");
                    self.emit_expr(out, &arm.body);
                    push_str(out, ",\n");
                    i = i + 1;
                }
                proof {
                    assert(arms@.take(i as int) =~= arms@);
                }
                push_str(out, "    }");
            },
            Expr::Try { inner, .. } => {
                self.emit_expr(out, inner);
                push_str(out, "?");
            },
            Expr::Lambda { .. } => {},
            Expr::While { .. } => {},
        }
    }

    fn emit_block_body(&self, out: &mut String, block: &Block, is_main: bool)
        requires
            all_generatable(block.exprs@),
        ensures
            final(out)@ == old(out)@ + block_text(self.pairs(), *block, is_main),
    {
        let n = block.exprs.len();
        let last_idx = if n == 0 { 0 } else { n - 1 };
        let ghost prefix = old(out)@;
        let mut i: usize = 0;
        while i < n
            invariant
                i <= n,
                n == block.exprs@.len(),
                last_idx == if n == 0 { 0 } else { n - 1 },
                all_generatable(block.exprs@),
                out@ == prefix + body_text(self.pairs(), block.exprs@, is_main, i as int),
            decreases n - i,
        {
            proof {
                lemma_all_generatable(block.exprs@, i as int);
            }
            push_str(out, "    ");
            self.emit_expr(out, &block.exprs[i]);
            if is_main || i != last_idx {
                push_str(out, ";");
            }
            push_str(out, "\n");
            i = i + 1;
        }
    }

    fn emit_function(&self, out: &mut String, func: &FunctionDef)
        requires
            function_generatable(*func),
        ensures
            final(out)@ == old(out)@ + function_text(self.pairs(), *func),
    {
        let is_entry = func.receiver.is_none() && str_eq(func.name.name.as_str(), "main");
        if is_entry {
            let ret = render_type(&func.return_ty);
            if str_eq(ret.as_str(), "()") {
                push_str(out, "fn main() {\n");
                self.emit_block_body(out, &func.body, true);
            } else {
                push_str(out, "fn main() -> ");
                push_str(out, ret.as_str());
                push_str(out, " {\n");
                self.emit_block_body(out, &func.body, false);
            }
            push_str(out, "}\n");
        } else {
            push_str(out, "fn ");
            push_str(out, func.name.name.as_str());
            push_str(out, "() -> ");
            let ret = render_type(&func.return_ty);
            push_str(out, ret.as_str());
            push_str(out, " {\n");
            self.emit_block_body(out, &func.body, false);
            push_str(out, "}\n");
        }
    }

    fn emit_type_def(&self, out: &mut String, td: &TypeDef)
        requires
            typedef_generatable(*td),
        ensures
            final(out)@ == old(out)@ + typedef_text(*td),
    {
        let name = td.name.name.as_str();
        if td.generic_params.len() != 0 {
            push_str(out, "// Skipping generic type `");
            push_str(out, name);
            push_str(out, "` for now (TODO).\n");
            return;
        }
        match &td.body {
            TypeExpr::Union { variants, .. } => {
                if all_simple_named(variants) {
                    push_str(out, "#[allow(non_camel_case_types, dead_code)]\n");
                    push_str(out, "pub enum ");
                    push_str(out, name);
                    push_str(out, " {\n");
                    let ghost prefix = out@;
                    let mut i: usize = 0;
                    while i < variants.len()
                        invariant
                            i <= variants@.len(),
                            out@ == prefix + variant_lines(variants@.take(i as int)),
                        decreases variants@.len() - i,
                    {
                        proof {
                            assert(variants@.take(i + 1).drop_last() =~= variants@.take(i as int));
                        }
                        push_str(out, "    ");
                        match &variants[i] {
                            TypeExpr::Named { name: v, .. } => {
                                push_str(out, v.as_str());
                            },
                            _ => {},
                        }
                        push_str(out, ",\n");
                        i = i + 1;
                    }
                    proof {
                        assert(variants@.take(i as int) =~= variants@);
                    }
                    push_str(out, "}\n");
                    return;
                }
            },
            TypeExpr::Product { fields, .. } => {
                if all_simple_named(fields) {
                    push_str(out, "#[allow(non_snake_case, dead_code)]\n");
                    push_str(out, "pub struct ");
                    push_str(out, name);
                    push_str(out, " {\n");
                    let ghost prefix = out@;
                    let mut i: usize = 0;
                    while i < fields.len()
                        invariant
                            i <= fields@.len(),
                            out@ == prefix + field_lines(fields@.take(i as int)),
                        decreases fields@.len() - i,
                    {
                        proof {
                            assert(fields@.take(i + 1).drop_last() =~= fields@.take(i as int));
                        }
                        match &fields[i] {
                            TypeExpr::Named { name: f, .. } => {
                                push_str(out, "    pub ");
                                let lowered = lower_first(f.as_str());
                                push_str(out, lowered.as_str());
                                push_str(out, ": ");
                                push_str(out, f.as_str());
                                push_str(out, ",\n");
                            },
                            _ => {
                                push_str(out, "    pub ");
                                push_str(out, ": ");
                                push_str(out, ",\n");
                            },
                        }
                        i = i + 1;
                    }
                    proof {
                        assert(fields@.take(i as int) =~= fields@);
                    }
                    push_str(out, "}\n");
                    return;
                }
            },
            TypeExpr::Named { name: target, generics, .. } => {
                let rendered = render_named_type(target.as_str(), generics);
                push_str(out, "pub type ");
                push_str(out, name);
                push_str(out, " = ");
                push_str(out, rendered.as_str());
                push_str(out, ";\n");
                return;
            },
            TypeExpr::Repeat { ty, count, .. } => {
                push_str(out, "pub type ");
                push_str(out, name);
                push_str(out, " = [");
                let t = render_type(ty);
                push_str(out, t.as_str());
                push_str(out, "; ");
                push_decimal(out, *count);
                push_str(out, "];\n");
                return;
            },
            TypeExpr::Spread { ty, .. } => {
                push_str(out, "pub type ");
                push_str(out, name);
                push_str(out, " = Vec<");
                let t = render_type(ty);
                push_str(out, t.as_str());
                push_str(out, ">;\n");
                return;
            },
            _ => {},
        }
        push_str(out, "// Skipping complex type `");
        push_str(out, name);
        push_str(out, "` for now (TODO).\n");
    }
}

/// Whether the generator can write the type.
pub fn is_renderable(te: &TypeExpr) -> (r: bool)
    ensures
        r == renderable(*te),
    decreases te,
{
    match te {
        TypeExpr::Named { generics, .. } => {
            let mut i: usize = 0;
            while i < generics.len()
                invariant
                    i <= generics@.len(),
                    *te == (TypeExpr::Named { name: te->Named_name, generics: *generics, span: te->Named_span }),
                    all_renderable(generics@.take(i as int)),
                decreases generics@.len() - i,
            {
                proof {
                    assert(decreases_to!(*te => (*te)->Named_generics));
                    vstd::std_specs::vec::axiom_vec_index_decreases(*generics, i as int);
                    assert(generics@.take(i + 1).drop_last() =~= generics@.take(i as int));
                }
                if !is_renderable(&generics[i]) {
                    proof {
                        if all_renderable(generics@) {
                            lemma_all_renderable(generics@, i as int);
                        }
                    }
                    return false;
                }
                i = i + 1;
            }
            proof {
                assert(generics@.take(i as int) =~= generics@);
            }
            true
        },
        TypeExpr::Repeat { ty, .. } => is_renderable(ty),
        TypeExpr::Spread { ty, .. } => is_renderable(ty),
        TypeExpr::Union { .. } => true,
        TypeExpr::Product { .. } => true,
        TypeExpr::Function { .. } => false,
    }
}

/// Whether the generator can write every expression of the list.
fn all_are_generatable(parent: &Expr, es: &Vec<Expr>) -> (r: bool)
    requires
        decreases_to!(*parent => *es),
    ensures
        r == all_generatable(es@),
    decreases parent, 0int,
{
    let mut i: usize = 0;
    while i < es.len()
        invariant
            i <= es@.len(),
            decreases_to!(*parent => *es),
            all_generatable(es@.take(i as int)),
        decreases es@.len() - i,
    {
        proof {
            vstd::std_specs::vec::axiom_vec_index_decreases(*es, i as int);
            assert(es@.take(i + 1).drop_last() =~= es@.take(i as int));
        }
        if !is_generatable(&es[i]) {
            proof {
                if all_generatable(es@) {
                    lemma_all_generatable(es@, i as int);
                }
            }
            return false;
        }
        i = i + 1;
    }
    proof {
        assert(es@.take(i as int) =~= es@);
    }
    true
}

/// Whether the generator can write the expression: it holds no lambda
/// and no `while`.
pub fn is_generatable(e: &Expr) -> (r: bool)
    ensures
        r == generatable(*e),
    decreases e, 1int,
{
    match e {
        Expr::Constructor { args, .. } => {
            proof {
                assert(decreases_to!(*e => (*e)->Constructor_args));
            }
            all_are_generatable(e, args)
        },
        Expr::MethodCall { receiver, args, .. } => {
            proof {
                assert(decreases_to!(*e => (*e)->MethodCall_args));
            }
            is_generatable(receiver) && all_are_generatable(e, args)
        },
        Expr::Match { scrutinee, arms, .. } => {
            if !is_generatable(scrutinee) {
                return false;
            }
            let mut i: usize = 0;
            while i < arms.len()
                invariant
                    i <= arms@.len(),
                    *e == (Expr::Match { scrutinee: *scrutinee, arms: *arms, span: e->Match_span }),
                    arms_generatable(arms@.take(i as int)),
                decreases arms@.len() - i,
            {
                proof {
                    assert(decreases_to!(*e => (*e)->Match_arms));
                    vstd::std_specs::vec::axiom_vec_index_decreases(*arms, i as int);
                    assert(arms@.take(i + 1).drop_last() =~= arms@.take(i as int));
                }
                if !is_generatable(&arms[i].body) {
                    proof {
                        if arms_generatable(arms@) {
                            lemma_arms_generatable(arms@, i as int);
                        }
                    }
                    return false;
                }
                i = i + 1;
            }
            proof {
                assert(arms@.take(i as int) =~= arms@);
            }
            true
        },
        Expr::Try { inner, .. } => is_generatable(inner),
        Expr::Lambda { .. } => false,
        Expr::While { .. } => false,
        _ => true,
    }
}

/// Whether the generator can write the module's items.
pub fn can_generate(module: &Module) -> (r: bool)
    ensures
        r == module_generatable(module.items@),
{
    let mut i: usize = 0;
    while i < module.items.len()
        invariant
            i <= module.items@.len(),
            forall|j: int| 0 <= j < i ==> match #[trigger] module.items@[j] {
                Item::Function(f) => function_generatable(f),
                Item::TypeDef(td) => typedef_generatable(td),
                Item::Use(_) => false,
            },
        decreases module.items@.len() - i,
    {
        let ok = match &module.items[i] {
            Item::Function(f) => {
                let mut all = is_renderable(&f.return_ty);
                let mut k: usize = 0;
                while k < f.body.exprs.len()
                    invariant
                        k <= f.body.exprs@.len(),
                        all == (renderable(f.return_ty) && all_generatable(f.body.exprs@.take(k as int))),
                    decreases f.body.exprs@.len() - k,
                {
                    proof {
                        assert(f.body.exprs@.take(k + 1).drop_last() =~= f.body.exprs@.take(k as int));
                    }
                    all = all && is_generatable(&f.body.exprs[k]);
                    k = k + 1;
                }
                proof {
                    assert(f.body.exprs@.take(k as int) =~= f.body.exprs@);
                }
                all
            },
            Item::TypeDef(td) => {
                if td.generic_params.len() > 0 {
                    true
                } else {
                    match &td.body {
                        TypeExpr::Named { generics, .. } => {
                            let mut all = true;
                            let mut k: usize = 0;
                            while k < generics.len()
                                invariant
                                    k <= generics@.len(),
                                    all == all_renderable(generics@.take(k as int)),
                                decreases generics@.len() - k,
                            {
                                proof {
                                    assert(generics@.take(k + 1).drop_last() =~= generics@.take(k as int));
                                }
                                all = all && is_renderable(&generics[k]);
                                k = k + 1;
                            }
                            proof {
                                assert(generics@.take(k as int) =~= generics@);
                            }
                            all
                        },
                        TypeExpr::Repeat { ty, .. } => is_renderable(ty),
                        TypeExpr::Spread { ty, .. } => is_renderable(ty),
                        _ => true,
                    }
                }
            },
            Item::Use(_) => false,
        };
        if !ok {
            return false;
        }
        i = i + 1;
    }
    true
}

/// The Rust source for a module whose items the generator can write.
pub fn generate(module: &Module) -> (r: String)
    requires
        module_generatable(module.items@),
    ensures
        r@ == module_text(*module),
{
    let cg = Codegen::from_module(module);
    let mut out = String::new();
    let mut i: usize = 0;
    while i < module.items.len()
        invariant
            i <= module.items@.len(),
            cg.pairs() == variant_pairs(module.items@),
            module_generatable(module.items@),
            out@ == items_text(cg.pairs(), module.items@.take(i as int)),
        decreases module.items@.len() - i,
    {
        proof {
            assert(module.items@.take(i + 1).drop_last() =~= module.items@.take(i as int));
        }
        match &module.items[i] {
            Item::Function(func) => {
                cg.emit_function(&mut out, func);
                push_str(&mut out, "\n");
            },
            Item::TypeDef(td) => {
                cg.emit_type_def(&mut out, td);
                push_str(&mut out, "\n");
            },
            Item::Use(_) => {},
        }
        i = i + 1;
    }
    proof {
        assert(module.items@.take(i as int) =~= module.items@);
    }
    out
}

} // verus!
