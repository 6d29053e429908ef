//! The checker: names, types and the entry point of a module.

use vstd::prelude::*;
use crate::ast::{expr_span, Block, Expr, FunctionDef, Ident, Item, Module, Param, TypeExpr};
use crate::error::{OnewayError, Phase, Span, SpecError};
use crate::lexer::token::str_eq;
use crate::text::{decimal, push_decimal, push_str, string_from};

verus! {

// ── what the checker reports ────────────────────────────────────────────

/// A check error with the given message and span.
pub open spec fn check_error(message: Seq<char>, span: Span) -> SpecError {
    SpecError { phase: Phase::Check, message, span }
}

/// The abstract values of a list of errors.
pub open spec fn errors_view(v: Seq<OnewayError>) -> Seq<SpecError> {
    v.map_values(|e: OnewayError| e@)
}

/// The types every program knows: `Noop`, `String` and `Stdout`.
pub open spec fn is_builtin_type(name: Seq<char>) -> bool {
    name == "Noop"@ || name == "String"@ || name == "Stdout"@
}

/// The one method the checker knows: `print` on a `String`, with one argument.
pub open spec fn is_known_method_spec(receiver_ty: Seq<char>, method: Seq<char>, arg_count: nat) -> bool {
    receiver_ty == "String"@ && method == "print"@ && arg_count == 1
}

/// The type a known method returns; `<unknown>` for any other.
pub open spec fn method_return_type_spec(receiver_ty: Seq<char>, method: Seq<char>) -> Seq<char> {
    if receiver_ty == "String"@ && method == "print"@ {
        "Noop"@
    } else {
        "<unknown>"@
    }
}

/// The name of the type of an expression.
pub open spec fn expr_type_name_spec(e: Expr) -> Seq<char>
    decreases e,
{
    match e {
        Expr::Ident(ident) => ident.name@,
        Expr::StringLit { .. } => "String"@,
        Expr::MethodCall { receiver, method, .. } => method_return_type_spec(
            expr_type_name_spec(*receiver),
            method.name@,
        ),
    }
}

pub open spec fn unknown_type_message(name: Seq<char>) -> Seq<char> {
    "unknown type `"@ + name + "`"@
}

pub open spec fn unknown_name_message(name: Seq<char>) -> Seq<char> {
    "unknown name `"@ + name + "`"@
}

pub open spec fn no_method_message(method: Seq<char>, receiver_ty: Seq<char>, n: nat) -> Seq<char> {
    "no method `"@ + method + "` on type `"@ + receiver_ty + "` with "@ + decimal(n) + " argument(s)"@
}

pub open spec fn return_mismatch_message(ret: Seq<char>, last: Seq<char>) -> Seq<char> {
    "function returns `"@ + ret + "` but last expression has type `"@ + last + "`"@
}

/// The errors for a type that is not built in.
pub open spec fn type_errors(ty: TypeExpr) -> Seq<SpecError> {
    if is_builtin_type(ty.name@) {
        Seq::empty()
    } else {
        seq![check_error(unknown_type_message(ty.name@), ty.span)]
    }
}

/// The errors for the types of parameters, in order.
pub open spec fn param_type_errors(params: Seq<Param>) -> Seq<SpecError>
    decreases params.len(),
{
    if params.len() == 0 {
        Seq::empty()
    } else {
        param_type_errors(params.drop_last()) + type_errors(params.last().ty)
    }
}

/// The errors in an expression, whose names must be built in or in `scope`.
pub open spec fn expr_errors(e: Expr, scope: Seq<Seq<char>>) -> Seq<SpecError>
    decreases e,
{
    match e {
        Expr::Ident(ident) => if is_builtin_type(ident.name@) || scope.contains(ident.name@) {
            Seq::empty()
        } else {
            seq![check_error(unknown_name_message(ident.name@), ident.span)]
        },
        Expr::StringLit { .. } => Seq::empty(),
        Expr::MethodCall { receiver, method, args, span } => {
            let recv_ty = expr_type_name_spec(*receiver);
            expr_errors(*receiver, scope) + exprs_errors(args@, scope) + if is_known_method_spec(
                recv_ty,
                method.name@,
                args.len() as nat,
            ) {
                Seq::<SpecError>::empty()
            } else {
                seq![check_error(no_method_message(method.name@, recv_ty, args.len() as nat), span)]
            }
        },
    }
}

/// The errors in a list of expressions, in order.
pub open spec fn exprs_errors(es: Seq<Expr>, scope: Seq<Seq<char>>) -> Seq<SpecError>
    decreases es,
{
    if es.len() == 0 {
        Seq::empty()
    } else {
        exprs_errors(es.drop_last(), scope) + expr_errors(es.last(), scope)
    }
}

/// The names a function body may use: its parameters' type names, then
/// its receiver.
pub open spec fn scope_of(func: FunctionDef) -> Seq<Seq<char>> {
    func.params@.map_values(|p: Param| p.ty.name@) + match func.receiver {
        Some(r) => seq![r.name@],
        None => Seq::empty(),
    }
}

/// The errors in a body: it must not be empty, its expressions must check,
/// and its last expression must have the return type.
pub open spec fn block_errors(block: Block, return_ty: TypeExpr, scope: Seq<Seq<char>>) -> Seq<SpecError> {
    if block.exprs.len() == 0 {
        seq![check_error("function body must contain at least one expression"@, block.span)]
    } else {
        let last = block.exprs@.last();
        let last_ty = expr_type_name_spec(last);
        exprs_errors(block.exprs@, scope) + if last_ty != return_ty.name@ {
            seq![check_error(return_mismatch_message(return_ty.name@, last_ty), expr_span(last))]
        } else {
            Seq::<SpecError>::empty()
        }
    }
}

/// The errors of a function and whether `main` has been seen after it,
/// given whether it had been seen before.
pub open spec fn function_errors(func: FunctionDef, main_found: bool) -> (Seq<SpecError>, bool) {
    let is_main = func.name.name@ == "main"@;
    let duplicate = if is_main && main_found {
        seq![check_error("duplicate `main` definition"@, func.span)]
    } else {
        Seq::empty()
    };
    let receiver = if is_main && func.receiver is Some {
        seq![check_error("`main` is the entry point and must not have a receiver"@, func.span)]
    } else {
        Seq::empty()
    };
    (
        duplicate + receiver + type_errors(func.return_ty) + param_type_errors(func.params@)
            + block_errors(func.body, func.return_ty, scope_of(func)),
        main_found || is_main,
    )
}

/// The errors of a list of items and whether `main` has been seen.
pub open spec fn items_errors(items: Seq<Item>) -> (Seq<SpecError>, bool)
    decreases items.len(),
{
    if items.len() == 0 {
        (Seq::empty(), false)
    } else {
        let before = items_errors(items.drop_last());
        match items.last() {
            Item::Function(func) => {
                let now = function_errors(func, before.1);
                (before.0 + now.0, now.1)
            },
        }
    }
}

/// All the errors of a module: those of its items, then a missing `main`.
pub open spec fn module_errors(module: Module) -> Seq<SpecError> {
    let r = items_errors(module.items@);
    r.0 + if r.1 {
        Seq::<SpecError>::empty()
    } else {
        seq![check_error("no `main` entry point defined"@, module.span)]
    }
}


// ── unknown names ───────────────────────────────────────────────────────

/// Every identifier that occurs in an expression: the expression itself, or
/// anywhere in a call's receiver and arguments.
pub open spec fn idents_in(e: Expr) -> Set<Ident>
    decreases e,
{
    match e {
        Expr::Ident(i) => set![i],
        Expr::StringLit { .. } => Set::empty(),
        Expr::MethodCall { receiver, args, .. } => idents_in(*receiver) + idents_in_all(args@),
    }
}

/// Every identifier that occurs in any of the expressions.
pub open spec fn idents_in_all(es: Seq<Expr>) -> Set<Ident>
    decreases es,
{
    if es.len() == 0 {
        Set::empty()
    } else {
        idents_in_all(es.drop_last()) + idents_in(es.last())
    }
}

/// The error for a name that is neither a built-in type nor in scope.
pub open spec fn unknown_name_error(i: Ident) -> SpecError {
    check_error(unknown_name_message(i.name@), i.span)
}

proof fn lemma_contains_concat(a: Seq<SpecError>, b: Seq<SpecError>, x: SpecError)
    ensures
        a.contains(x) ==> (a + b).contains(x),
        b.contains(x) ==> (a + b).contains(x),
{
    if a.contains(x) {
        let j = choose|j: int| 0 <= j < a.len() && a[j] == x;
        assert((a + b)[j] == x);
    }
    if b.contains(x) {
        let j = choose|j: int| 0 <= j < b.len() && b[j] == x;
        assert((a + b)[a.len() + j] == x);
    }
}

/// Every unknown name is reported: for each identifier occurring anywhere
/// in an expression, however deeply inside a call's receiver or
/// arguments, that is neither a built-in type nor in scope, the
/// expression's errors hold the unknown-name error at that identifier.
pub proof fn lemma_unknown_names_reported(e: Expr, scope: Seq<Seq<char>>, i: Ident)
    requires
        idents_in(e).contains(i),
        !is_builtin_type(i.name@),
        !scope.contains(i.name@),
    ensures
        expr_errors(e, scope).contains(unknown_name_error(i)),
    decreases e,
{
    match e {
        Expr::Ident(j) => {
            assert(expr_errors(e, scope)[0] == unknown_name_error(i));
        },
        Expr::StringLit { .. } => {},
        Expr::MethodCall { receiver, method, args, span } => {
            let x = unknown_name_error(i);
            let rest = if is_known_method_spec(expr_type_name_spec(*receiver), method.name@, args.len() as nat) {
                Seq::<SpecError>::empty()
            } else {
                seq![check_error(no_method_message(method.name@, expr_type_name_spec(*receiver), args.len() as nat), span)]
            };
            if idents_in(*receiver).contains(i) {
                lemma_unknown_names_reported(*receiver, scope, i);
                lemma_contains_concat(expr_errors(*receiver, scope), exprs_errors(args@, scope), x);
            } else {
                lemma_unknown_names_reported_all(args@, scope, i);
                lemma_contains_concat(expr_errors(*receiver, scope), exprs_errors(args@, scope), x);
            }
            lemma_contains_concat(expr_errors(*receiver, scope) + exprs_errors(args@, scope), rest, x);
        },
    }
}

/// Every unknown name occurring in a list of expressions is reported among
/// their errors.
pub proof fn lemma_unknown_names_reported_all(es: Seq<Expr>, scope: Seq<Seq<char>>, i: Ident)
    requires
        idents_in_all(es).contains(i),
        !is_builtin_type(i.name@),
        !scope.contains(i.name@),
    ensures
        exprs_errors(es, scope).contains(unknown_name_error(i)),
    decreases es,
{
    if es.len() > 0 {
        let x = unknown_name_error(i);
        if idents_in_all(es.drop_last()).contains(i) {
            lemma_unknown_names_reported_all(es.drop_last(), scope, i);
        } else {
            lemma_unknown_names_reported(es.last(), scope, i);
        }
        lemma_contains_concat(exprs_errors(es.drop_last(), scope), expr_errors(es.last(), scope), x);
    }
}

/// Every expression that occurs in an expression: itself, and those in a
/// call's receiver and arguments.
pub open spec fn subexprs(e: Expr) -> Set<Expr>
    decreases e,
{
    match e {
        Expr::MethodCall { receiver, args, .. } => set![e] + subexprs(*receiver) + subexprs_all(args@),
        _ => set![e],
    }
}

/// Every expression that occurs in any of the expressions.
pub open spec fn subexprs_all(es: Seq<Expr>) -> Set<Expr>
    decreases es,
{
    if es.len() == 0 {
        Set::empty()
    } else {
        subexprs_all(es.drop_last()) + subexprs(es.last())
    }
}

/// The error for a call of a method its receiver's type does not have with
/// that many arguments.
pub open spec fn unknown_method_error(call: Expr) -> SpecError {
    match call {
        Expr::MethodCall { receiver, method, args, span } => check_error(
            no_method_message(method.name@, expr_type_name_spec(*receiver), args.len() as nat),
            span,
        ),
        _ => check_error(Seq::empty(), Span { start: 0, end: 0, line: 0, column: 0 }),
    }
}

/// Whether a call names a method its receiver's type has with that many
/// arguments.
pub open spec fn call_known(call: Expr) -> bool {
    match call {
        Expr::MethodCall { receiver, method, args, .. } => is_known_method_spec(
            expr_type_name_spec(*receiver),
            method.name@,
            args.len() as nat,
        ),
        _ => true,
    }
}

/// Every unknown method call is reported: for each call occurring anywhere
/// in an expression, however deeply nested, whose method its receiver's type
/// does not have, the expression's errors hold the error at that call.
pub proof fn lemma_unknown_methods_reported(e: Expr, scope: Seq<Seq<char>>, call: Expr)
    requires
        subexprs(e).contains(call),
        !call_known(call),
    ensures
        expr_errors(e, scope).contains(unknown_method_error(call)),
    decreases e,
{
    if let Expr::MethodCall { receiver, method, args, span } = e {
        let x = unknown_method_error(call);
        let rest = if is_known_method_spec(expr_type_name_spec(*receiver), method.name@, args.len() as nat) {
            Seq::<SpecError>::empty()
        } else {
            seq![check_error(no_method_message(method.name@, expr_type_name_spec(*receiver), args.len() as nat), span)]
        };
        let front = expr_errors(*receiver, scope) + exprs_errors(args@, scope);
        if call == e {
            assert(rest[0] == x);
            lemma_contains_concat(front, rest, x);
        } else {
            if subexprs(*receiver).contains(call) {
                lemma_unknown_methods_reported(*receiver, scope, call);
            } else {
                lemma_unknown_methods_reported_all(args@, scope, call);
            }
            lemma_contains_concat(expr_errors(*receiver, scope), exprs_errors(args@, scope), x);
            lemma_contains_concat(front, rest, x);
        }
    }
}

/// Every unknown method call occurring in a list of expressions is reported
/// among their errors.
pub proof fn lemma_unknown_methods_reported_all(es: Seq<Expr>, scope: Seq<Seq<char>>, call: Expr)
    requires
        subexprs_all(es).contains(call),
        !call_known(call),
    ensures
        exprs_errors(es, scope).contains(unknown_method_error(call)),
    decreases es,
{
    if es.len() > 0 {
        if subexprs_all(es.drop_last()).contains(call) {
            lemma_unknown_methods_reported_all(es.drop_last(), scope, call);
        } else {
            lemma_unknown_methods_reported(es.last(), scope, call);
        }
        lemma_contains_concat(exprs_errors(es.drop_last(), scope), expr_errors(es.last(), scope), unknown_method_error(call));
    }
}

// ── the checker ─────────────────────────────────────────────────────────

/// A check error with the given message and span.
fn new_check_error(message: String, span: Span) -> (e: OnewayError)
    ensures
        e@ == check_error(message@, span),
{
    OnewayError::CheckError { message, span }
}

/// Whether `name` is one of the built-in types.
pub fn is_builtin_type_name(name: &str) -> (r: bool)
    ensures
        r == is_builtin_type(name@),
{
    str_eq(name, "Noop") || str_eq(name, "String") || str_eq(name, "Stdout")
}

/// Checks a module: every function's names, types and body, and that there
/// is exactly one `main` entry point.
pub fn check(module: &Module) -> (errors: Vec<OnewayError>)
    ensures
        errors_view(errors@) == module_errors(*module),
{
    let mut errors: Vec<OnewayError> = Vec::new();
    let mut main_found = false;

    let mut i: usize = 0;
    while i < module.items.len()
        invariant
            i <= module.items@.len(),
            (errors_view(errors@), main_found) == items_errors(module.items@.take(i as int)),
        decreases module.items@.len() - i,
    {
        let Item::Function(func) = &module.items[i];
        check_function(func, &mut errors, &mut main_found);
        proof {
            let items = module.items@.take(i + 1);
            assert(items.drop_last() =~= module.items@.take(i as int));
        }
        i = i + 1;
    }
    proof {
        assert(module.items@.take(i as int) =~= module.items@);
    }

    if !main_found {
        let ghost before = errors@;
        errors.push(new_check_error(string_from("no `main` entry point defined"), module.span));
        proof {
            assert(errors_view(errors@) =~= errors_view(before).push(
                check_error("no `main` entry point defined"@, module.span),
            ));
        }
    }
    proof {
        if main_found {
            assert(errors_view(errors@) =~= errors_view(errors@) + Seq::<SpecError>::empty());
        }
    }

    errors
}

/// Appends an error to a list.
fn push_error(errors: &mut Vec<OnewayError>, e: OnewayError)
    ensures
        errors_view(final(errors)@) == errors_view(old(errors)@).push(e@),
{
    let ghost before = errors@;
    errors.push(e);
    proof {
        assert(errors_view(errors@) =~= errors_view(before).push(e@));
    }
}

pub fn check_function(func: &FunctionDef, errors: &mut Vec<OnewayError>, main_found: &mut bool)
    ensures
        (errors_view(final(errors)@), *final(main_found)) == ({
            let r = function_errors(*func, *old(main_found));
            (errors_view(old(errors)@) + r.0, r.1)
        }),
{
    let ghost start = errors_view(errors@);
    let ghost found = *main_found;
    let is_main = str_eq(func.name.name.as_str(), "main");
    if is_main {
        if *main_found {
            push_error(errors, new_check_error(string_from("duplicate `main` definition"), func.span));
        }
        *main_found = true;

        if func.receiver.is_some() {
            push_error(errors, new_check_error(
                string_from("`main` is the entry point and must not have a receiver"),
                func.span,
            ));
        }
    }
    let ghost after_main = errors_view(errors@);

    check_type_known(&func.return_ty, errors);
    let ghost after_ret = errors_view(errors@);
    let mut i: usize = 0;
    while i < func.params.len()
        invariant
            i <= func.params@.len(),
            errors_view(errors@) == after_ret + param_type_errors(func.params@.take(i as int)),
        decreases func.params@.len() - i,
    {
        check_type_known(&func.params[i].ty, errors);
        proof {
            assert(func.params@.take(i + 1).drop_last() =~= func.params@.take(i as int));
        }
        i = i + 1;
    }
    proof {
        assert(func.params@.take(i as int) =~= func.params@);
    }
    let ghost after_params = errors_view(errors@);

    let scope = Scope::from_function(func);
    check_block(&func.body, &func.return_ty, &scope, errors);
    proof {
        let r = function_errors(*func, found);
        let is_m = func.name.name@ == "main"@;
        let duplicate = if is_m && found {
            seq![check_error("duplicate `main` definition"@, func.span)]
        } else {
            Seq::empty()
        };
        let receiver = if is_m && func.receiver is Some {
            seq![check_error("`main` is the entry point and must not have a receiver"@, func.span)]
        } else {
            Seq::empty()
        };
        assert(after_main =~= start + duplicate + receiver);
        assert(errors_view(errors@) =~= start + r.0);
    }
}

/// The names a function body may refer to.
pub struct Scope {
    pub names: Vec<String>,
}

impl Scope {
    /// The abstract value of the scope: its names.
    pub open spec fn names_view(&self) -> Seq<Seq<char>> {
        self.names@.map_values(|n: String| n@)
    }

    /// The parameters' type names, then the receiver's name.
    pub fn from_function(func: &FunctionDef) -> (s: Self)
        ensures
            s.names_view() == scope_of(*func),
    {
        let mut names: Vec<String> = Vec::new();
        let mut i: usize = 0;
        while i < func.params.len()
            invariant
                i <= func.params@.len(),
                names@.len() == i,
                forall|j: int| 0 <= j < i ==> (#[trigger] names@[j])@ == func.params@[j].ty.name@,
            decreases func.params@.len() - i,
        {
            names.push(func.params[i].ty.name.clone());
            i = i + 1;
        }
        proof {
            assert(names@.map_values(|n: String| n@) =~= func.params@.map_values(|p: Param| p.ty.name@));
        }
        let ghost params_names = names@.map_values(|n: String| n@);
        match &func.receiver {
            Some(recv) => {
                names.push(recv.name.clone());
                proof {
                    assert(names@.map_values(|n: String| n@) =~= params_names + seq![recv.name@]);
                }
            },
            None => {
                proof {
                    assert(names@.map_values(|n: String| n@) =~= params_names + Seq::<Seq<char>>::empty());
                }
            },
        }
        Self { names }
    }

    pub fn contains(&self, name: &str) -> (r: bool)
        ensures
            r == self.names_view().contains(name@),
    {
        let mut i: usize = 0;
        while i < self.names.len()
            invariant
                i <= self.names@.len(),
                forall|j: int| 0 <= j < i ==> self.names@[j]@ != name@,
            decreases self.names@.len() - i,
        {
            if str_eq(self.names[i].as_str(), name) {
                proof {
                    assert(self.names_view()[i as int] == name@);
                }
                return true;
            }
            i = i + 1;
        }
        proof {
            if self.names_view().contains(name@) {
                let j = choose|j: int| 0 <= j < self.names_view().len() && self.names_view()[j] == name@;
                assert(self.names@[j]@ == name@);
            }
        }
        false
    }
}

fn check_block(block: &Block, return_ty: &TypeExpr, scope: &Scope, errors: &mut Vec<OnewayError>)
    ensures
        errors_view(final(errors)@) == errors_view(old(errors)@) + block_errors(
            *block,
            *return_ty,
            scope.names_view(),
        ),
{
    if block.exprs.len() == 0 {
        push_error(errors, new_check_error(
            string_from("function body must contain at least one expression"),
            block.span,
        ));
        return;
    }

    let ghost start = errors_view(errors@);
    let mut i: usize = 0;
    while i < block.exprs.len()
        invariant
            i <= block.exprs@.len(),
            errors_view(errors@) == start + exprs_errors(block.exprs@.take(i as int), scope.names_view()),
        decreases block.exprs@.len() - i,
    {
        check_expr(&block.exprs[i], scope, errors);
        proof {
            assert(block.exprs@.take(i + 1).drop_last() =~= block.exprs@.take(i as int));
        }
        i = i + 1;
    }
    proof {
        assert(block.exprs@.take(i as int) =~= block.exprs@);
    }

    let last = &block.exprs[block.exprs.len() - 1];
    let last_ty = expr_type_name(last);
    if !str_eq(last_ty.as_str(), return_ty.name.as_str()) {
        let mut message = string_from("function returns `");
        push_str(&mut message, return_ty.name.as_str());
        push_str(&mut message, "` but last expression has type `");
        push_str(&mut message, last_ty.as_str());
        push_str(&mut message, "`");
        push_error(errors, new_check_error(message, last.span()));
    }
}

fn check_expr(expr: &Expr, scope: &Scope, errors: &mut Vec<OnewayError>)
    ensures
        errors_view(final(errors)@) == errors_view(old(errors)@) + expr_errors(*expr, scope.names_view()),
    decreases expr,
{
    match expr {
        Expr::Ident(ident) => {
            if !is_builtin_type_name(ident.name.as_str()) && !scope.contains(ident.name.as_str()) {
                let mut message = string_from("unknown name `");
                push_str(&mut message, ident.name.as_str());
                push_str(&mut message, "`");
                push_error(errors, new_check_error(message, ident.span));
            } else {
                proof {
                    assert(errors_view(errors@) =~= errors_view(errors@) + Seq::<SpecError>::empty());
                }
            }
        },
        Expr::StringLit { .. } => {
            proof {
                assert(errors_view(errors@) =~= errors_view(errors@) + Seq::<SpecError>::empty());
            }
        },
        Expr::MethodCall { receiver, method, args, span } => {
            let ghost start = errors_view(errors@);
            check_expr(receiver, scope, errors);
            let ghost after_recv = errors_view(errors@);
            let mut i: usize = 0;
            while i < args.len()
                invariant
                    i <= args@.len(),
                    errors_view(errors@) == after_recv + exprs_errors(args@.take(i as int), scope.names_view()),
                    *expr == (Expr::MethodCall { receiver: *receiver, method: *method, args: *args, span: *span }),
                decreases args@.len() - i,
            {
                proof {
                    assert(decreases_to!(*expr => (*expr)->MethodCall_args));
                    vstd::std_specs::vec::axiom_vec_index_decreases(*args, i as int);
                }
                check_expr(&args[i], scope, errors);
                proof {
                    assert(args@.take(i + 1).drop_last() =~= args@.take(i as int));
                }
                i = i + 1;
            }
            proof {
                assert(args@.take(i as int) =~= args@);
            }
            let recv_ty = expr_type_name(receiver);
            if !is_known_method(recv_ty.as_str(), method.name.as_str(), args.len()) {
                let mut message = string_from("no method `");
                push_str(&mut message, method.name.as_str());
                push_str(&mut message, "` on type `");
                push_str(&mut message, recv_ty.as_str());
                push_str(&mut message, "` with ");
                push_decimal(&mut message, args.len() as u64);
                push_str(&mut message, " argument(s)");
                push_error(errors, new_check_error(message, *span));
            } else {
                proof {
                    assert(errors_view(errors@) =~= errors_view(errors@) + Seq::<SpecError>::empty());
                }
            }
        },
    }
}

pub fn is_known_method(receiver_ty: &str, method: &str, arg_count: usize) -> (r: bool)
    ensures
        r == is_known_method_spec(receiver_ty@, method@, arg_count as nat),
{
    str_eq(receiver_ty, "String") && str_eq(method, "print") && arg_count == 1
}

pub fn check_type_known(ty: &TypeExpr, errors: &mut Vec<OnewayError>)
    ensures
        errors_view(final(errors)@) == errors_view(old(errors)@) + type_errors(*ty),
{
    if !is_builtin_type_name(ty.name.as_str()) {
        let mut message = string_from("unknown type `");
        push_str(&mut message, ty.name.as_str());
        push_str(&mut message, "`");
        push_error(errors, new_check_error(message, ty.span));
    } else {
        proof {
            assert(errors_view(errors@) =~= errors_view(errors@) + Seq::<SpecError>::empty());
        }
    }
}

pub fn expr_type_name(expr: &Expr) -> (r: String)
    ensures
        r@ == expr_type_name_spec(*expr),
    decreases expr,
{
    match expr {
        Expr::Ident(ident) => ident.name.clone(),
        Expr::StringLit { .. } => string_from("String"),
        Expr::MethodCall { receiver, method, .. } => {
            let recv_ty = expr_type_name(receiver);
            method_return_type(recv_ty.as_str(), method.name.as_str())
        },
    }
}

pub fn method_return_type(receiver_ty: &str, method: &str) -> (r: String)
    ensures
        r@ == method_return_type_spec(receiver_ty@, method@),
{
    if str_eq(receiver_ty, "String") && str_eq(method, "print") {
        string_from("Noop")
    } else {
        string_from("<unknown>")
    }
}

} // verus!
