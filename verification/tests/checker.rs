use oneway::ast::{Block, Expr, FunctionDef, Ident, Item, Module, Param, TypeExpr};
use oneway::checker::check;
use oneway::error::{OnewayError, Span};

fn sp(n: usize) -> Span {
    Span::new(n, n + 1, 1, n as u32 + 1)
}

fn ident(n: &str, at: usize) -> Ident {
    Ident { name: n.to_string(), span: sp(at) }
}

fn ty(n: &str) -> TypeExpr {
    TypeExpr { name: n.to_string(), span: sp(90) }
}

fn main_fn(ret: &str, exprs: Vec<Expr>) -> FunctionDef {
    FunctionDef {
        receiver: None,
        name: ident("main", 0),
        params: Vec::new(),
        return_ty: ty(ret),
        body: Block { exprs, span: sp(50) },
        span: sp(1),
    }
}

fn print(s: &str) -> Expr {
    Expr::MethodCall {
        receiver: Box::new(Expr::StringLit { value: s.to_string(), span: sp(10) }),
        method: ident("print", 11),
        args: vec![Expr::Ident(ident("Stdout", 12))],
        span: sp(13),
    }
}

fn messages(errors: &[OnewayError]) -> Vec<String> {
    errors.iter().map(|e| e.message().to_string()).collect()
}

#[test]
fn accepts_hello_world() {
    let m = Module { items: vec![Item::Function(main_fn("Noop", vec![print("hi")]))], span: sp(0) };
    assert!(check(&m).is_empty());
}

#[test]
fn requires_main() {
    let errors = check(&Module { items: Vec::new(), span: sp(7) });
    assert_eq!(messages(&errors), vec!["no `main` entry point defined"]);
    assert_eq!(*errors[0].span(), sp(7));
}

#[test]
fn reports_unknowns_and_mismatches() {
    let mut f = main_fn(
        "Noop",
        vec![Expr::MethodCall {
            receiver: Box::new(Expr::Ident(ident("who", 20))),
            method: ident("shout", 21),
            args: Vec::new(),
            span: sp(22),
        }],
    );
    f.params.push(Param { ty: ty("Int"), mutable: false, span: sp(30) });
    let errors = check(&Module { items: vec![Item::Function(f)], span: sp(0) });
    assert_eq!(
        messages(&errors),
        vec![
            "unknown type `Int`",
            "unknown name `who`",
            "no method `shout` on type `who` with 0 argument(s)",
            "function returns `Noop` but last expression has type `<unknown>`",
        ]
    );
}

#[test]
fn reports_empty_body_and_duplicate_main() {
    let a = main_fn("Noop", Vec::new());
    let mut b = main_fn("Noop", vec![print("x")]);
    b.receiver = Some(ident("Self", 5));
    let errors = check(&Module { items: vec![Item::Function(a), Item::Function(b)], span: sp(0) });
    assert_eq!(
        messages(&errors),
        vec![
            "function body must contain at least one expression",
            "duplicate `main` definition",
            "`main` is the entry point and must not have a receiver",
        ]
    );
}
