use oneway::error::{OnewayError, Span};
use oneway::parser::parser::Parser;
use oneway::syntax::token::{Token, TokenKind};
use oneway::syntax::tree::{Expr, Item, Pattern, TypeExpr};

/// Tokens from (kind, text) pairs; each token's span is its index.
fn toks(parts: &[(TokenKind, &str)]) -> Vec<Token> {
    let mut v: Vec<Token> = parts
        .iter()
        .enumerate()
        .map(|(i, (k, l))| Token { kind: *k, span: Span::new(i, i + 1, 1, i as u32 + 1), lexeme: l.to_string() })
        .collect();
    let n = v.len();
    v.push(Token { kind: TokenKind::Eof, span: Span::new(n, n, 1, n as u32 + 1), lexeme: String::new() });
    v
}

fn parse(parts: &[(TokenKind, &str)]) -> Result<oneway::syntax::tree::Module, OnewayError> {
    Parser::new(toks(parts)).parse()
}

use TokenKind::{
    Amp, Arrow, ColonColon, Comma, Dot, Ellipsis, FatArrow, FloatLit, Gt, HexLit, Ident, IntLit, KwExtern, KwMatch,
    KwMut, KwSelf, KwUse, KwWhile, LBrace, LBracket, LParen, Lt, Newline, Pipe, Question, RBrace, RBracket, RParen,
    StringLit,
};

#[test]
fn parses_empty_module() {
    let m = parse(&[(Newline, "\n")]).unwrap();
    assert!(m.items.is_empty());
}

#[test]
fn parses_use_declaration() {
    let m = parse(&[(KwUse, "use"), (Ident, "Clock")]).unwrap();
    assert_eq!(m.items.len(), 1);
    match &m.items[0] {
        Item::Use(u) => {
            assert_eq!(u.name.name, "Clock");
            assert_eq!(u.span, Span::new(0, 2, 1, 1));
        }
        other => panic!("unexpected item {:?}", other),
    }
}

#[test]
fn parses_main_function() {
    let m = parse(&[
        (Ident, "main"),
        (TokenKind::Eq, "="),
        (LParen, "("),
        (RParen, ")"),
        (Arrow, "->"),
        (Ident, "Noop"),
        (LBrace, "{"),
        (Newline, "\n"),
        (StringLit, "hi"),
        (Dot, "."),
        (Ident, "print"),
        (LParen, "("),
        (RParen, ")"),
        (Newline, "\n"),
        (RBrace, "}"),
    ])
    .unwrap();
    assert_eq!(m.items.len(), 1);
    match &m.items[0] {
        Item::Function(f) => {
            assert!(f.receiver.is_none());
            assert_eq!(f.name.name, "main");
            assert!(f.params.is_empty());
            assert_eq!(f.body.exprs.len(), 1);
            match &f.body.exprs[0] {
                Expr::MethodCall { receiver, method, args, .. } => {
                    assert_eq!(method.name, "print");
                    assert!(args.is_empty());
                    assert!(matches!(&**receiver, Expr::StringLit { value, .. } if value == "hi"));
                }
                other => panic!("unexpected expression {:?}", other),
            }
            assert_eq!(f.span, Span::new(0, 15, 1, 1));
        }
        other => panic!("unexpected item {:?}", other),
    }
}

#[test]
fn parses_union_type_definition() {
    let m = parse(&[(Ident, "Color"), (TokenKind::Eq, "="), (Ident, "Red"), (Pipe, "|"), (Newline, "\n"), (Ident, "Green")]).unwrap();
    match &m.items[0] {
        Item::TypeDef(td) => {
            assert_eq!(td.name.name, "Color");
            match &td.body {
                TypeExpr::Union { variants, span } => {
                    assert_eq!(variants.len(), 2);
                    assert!(matches!(&variants[1], TypeExpr::Named { name, .. } if name == "Green"));
                    assert_eq!(*span, Span::new(2, 6, 1, 3));
                }
                other => panic!("unexpected type {:?}", other),
            }
        }
        other => panic!("unexpected item {:?}", other),
    }
}

#[test]
fn parses_repeat_spread_and_generics() {
    let m = parse(&[
        (Ident, "Grid"),
        (TokenKind::Eq, "="),
        (Ident, "Int"),
        (LBracket, "["),
        (IntLit, "3"),
        (RBracket, "]"),
        (Amp, "&"),
        (Ellipsis, "..."),
        (Ident, "List"),
        (Lt, "<"),
        (Ident, "Int"),
        (Comma, ","),
        (KwSelf, "Self"),
        (Gt, ">"),
    ])
    .unwrap();
    match &m.items[0] {
        Item::TypeDef(td) => match &td.body {
            TypeExpr::Product { fields, .. } => {
                assert_eq!(fields.len(), 2);
                assert!(matches!(&fields[0], TypeExpr::Repeat { count: 3, .. }));
                match &fields[1] {
                    TypeExpr::Spread { ty, .. } => match &**ty {
                        TypeExpr::Named { name, generics, .. } => {
                            assert_eq!(name, "List");
                            assert_eq!(generics.len(), 2);
                        }
                        other => panic!("unexpected type {:?}", other),
                    },
                    other => panic!("unexpected type {:?}", other),
                }
            }
            other => panic!("unexpected type {:?}", other),
        },
        other => panic!("unexpected item {:?}", other),
    }
}

#[test]
fn parses_function_type_without_body() {
    let m = parse(&[
        (Ident, "Handler"),
        (TokenKind::Eq, "="),
        (LParen, "("),
        (KwMut, "mut"),
        (Ident, "Int"),
        (RParen, ")"),
        (Arrow, "->"),
        (Ident, "Noop"),
    ])
    .unwrap();
    match &m.items[0] {
        Item::TypeDef(td) => match &td.body {
            TypeExpr::Function { params, return_ty, .. } => {
                assert_eq!(params.len(), 1);
                assert!(matches!(&params[0], TypeExpr::Named { name, .. } if name == "Int"));
                assert!(matches!(&**return_ty, TypeExpr::Named { name, .. } if name == "Noop"));
            }
            other => panic!("unexpected type {:?}", other),
        },
        other => panic!("unexpected item {:?}", other),
    }
}

#[test]
fn parses_method_with_match_and_literals() {
    let m = parse(&[
        (Ident, "Color"),
        (Dot, "."),
        (Ident, "code"),
        (TokenKind::Eq, "="),
        (LParen, "("),
        (RParen, ")"),
        (Arrow, "->"),
        (Ident, "Int"),
        (LBrace, "{"),
        (KwMatch, "match"),
        (KwSelf, "Self"),
        (LBrace, "{"),
        (Newline, "\n"),
        (Ident, "Red"),
        (FatArrow, "=>"),
        (IntLit, "-7"),
        (Comma, ","),
        (Newline, "\n"),
        (Ident, "_"),
        (FatArrow, "=>"),
        (HexLit, "0xff"),
        (Newline, "\n"),
        (RBrace, "}"),
        (RBrace, "}"),
    ])
    .unwrap();
    match &m.items[0] {
        Item::Function(f) => {
            assert_eq!(f.receiver.as_ref().unwrap().name, "Color");
            assert_eq!(f.name.name, "code");
            match &f.body.exprs[0] {
                Expr::Match { arms, .. } => {
                    assert_eq!(arms.len(), 2);
                    assert!(matches!(&arms[0].pattern, Pattern::Variant { name, .. } if name == "Red"));
                    assert!(matches!(&arms[0].body, Expr::IntLit { value: -7, .. }));
                    assert!(matches!(&arms[1].pattern, Pattern::Wildcard { .. }));
                    assert!(matches!(&arms[1].body, Expr::HexLit { value: 255, .. }));
                }
                other => panic!("unexpected expression {:?}", other),
            }
        }
        other => panic!("unexpected item {:?}", other),
    }
}

#[test]
fn parses_extern_method_and_type() {
    let m = parse(&[
        (KwExtern, "extern"),
        (Ident, "Rust"),
        (Dot, "."),
        (Ident, "async"),
        (LParen, "("),
        (StringLit, "reqwest::get"),
        (RParen, ")"),
        (Newline, "\n"),
        (Ident, "Http"),
        (Dot, "."),
        (Ident, "get"),
        (TokenKind::Eq, "="),
        (LParen, "("),
        (Ident, "String"),
        (RParen, ")"),
        (Arrow, "->"),
        (Ident, "String"),
        (Newline, "\n"),
        (KwExtern, "extern"),
        (Ident, "Rust"),
        (LParen, "("),
        (StringLit, "url::Url"),
        (RParen, ")"),
        (Ident, "Url"),
    ])
    .unwrap();
    assert_eq!(m.items.len(), 2);
    match &m.items[0] {
        Item::Function(f) => {
            let x = f.extern_rust.as_ref().unwrap();
            assert_eq!(x.path, "reqwest::get");
            assert!(x.is_async);
            assert!(f.body.exprs.is_empty());
            assert_eq!(f.body.span, Span::new(17, 17, 1, 17));
        }
        other => panic!("unexpected item {:?}", other),
    }
    match &m.items[1] {
        Item::TypeDef(td) => {
            assert!(matches!(&td.body, TypeExpr::Named { name, .. } if name == "__extern__url::Url"));
        }
        other => panic!("unexpected item {:?}", other),
    }
}

#[test]
fn parses_constructor_try_and_turbofish() {
    let m = parse(&[
        (Ident, "run"),
        (TokenKind::Eq, "="),
        (LParen, "("),
        (RParen, ")"),
        (Arrow, "->"),
        (Ident, "Noop"),
        (LBrace, "{"),
        (Ident, "Some"),
        (LParen, "("),
        (FloatLit, "2.5"),
        (RParen, ")"),
        (Newline, "\n"),
        (Question, "?"),
        (Dot, "."),
        (Ident, "into"),
        (ColonColon, "::"),
        (Lt, "<"),
        (Ident, "Int"),
        (Gt, ">"),
        (LParen, "("),
        (RParen, ")"),
        (RBrace, "}"),
    ])
    .unwrap();
    match &m.items[0] {
        Item::Function(f) => match &f.body.exprs[0] {
            Expr::MethodCall { receiver, type_args, .. } => {
                assert_eq!(type_args.len(), 1);
                match &**receiver {
                    Expr::Try { inner, .. } => match &**inner {
                        Expr::Constructor { name, args, .. } => {
                            assert_eq!(name.name, "Some");
                            assert!(matches!(&args[0], Expr::FloatLit { value, .. } if value == "2.5"));
                        }
                        other => panic!("unexpected expression {:?}", other),
                    },
                    other => panic!("unexpected expression {:?}", other),
                }
            }
            other => panic!("unexpected expression {:?}", other),
        },
        other => panic!("unexpected item {:?}", other),
    }
}

#[test]
fn parses_lambda_and_while() {
    let m = parse(&[
        (Ident, "go"),
        (TokenKind::Eq, "="),
        (LParen, "("),
        (RParen, ")"),
        (Arrow, "->"),
        (Ident, "Noop"),
        (LBrace, "{"),
        (KwWhile, "while"),
        (Ident, "ready"),
        (LBrace, "{"),
        (LParen, "("),
        (Ident, "Int"),
        (RParen, ")"),
        (Arrow, "->"),
        (Ident, "Int"),
        (LBrace, "{"),
        (RBrace, "}"),
        (RBrace, "}"),
        (RBrace, "}"),
    ])
    .unwrap();
    match &m.items[0] {
        Item::Function(f) => match &f.body.exprs[0] {
            Expr::While { cond, body, .. } => {
                assert!(matches!(&**cond, Expr::Ident(i) if i.name == "ready"));
                assert!(matches!(&body.exprs[0], Expr::Lambda { params, .. } if params.len() == 1));
            }
            other => panic!("unexpected expression {:?}", other),
        },
        other => panic!("unexpected item {:?}", other),
    }
}

fn parse_error(parts: &[(TokenKind, &str)]) -> (String, Span) {
    match parse(parts) {
        Err(OnewayError::ParseError { message, span }) => (message, span),
        other => panic!("expected a parse error, got {:?}", other),
    }
}

#[test]
fn reports_missing_equals() {
    let (message, span) = parse_error(&[(Ident, "x")]);
    assert_eq!(message, "expected `=` in top-level definition (got Eof)");
    assert_eq!(span, Span::new(1, 1, 1, 2));
}

#[test]
fn reports_unexpected_expression() {
    let (message, span) = parse_error(&[
        (Ident, "f"),
        (TokenKind::Eq, "="),
        (LParen, "("),
        (RParen, ")"),
        (Arrow, "->"),
        (Ident, "Int"),
        (LBrace, "{"),
        (Comma, ","),
        (RBrace, "}"),
    ]);
    assert_eq!(message, "expected an expression (got ,)");
    assert_eq!(span, Span::new(7, 8, 1, 8));
}

#[test]
fn reports_invalid_integer_literal() {
    let (message, _) = parse_error(&[
        (Ident, "f"),
        (TokenKind::Eq, "="),
        (LParen, "("),
        (RParen, ")"),
        (Arrow, "->"),
        (Ident, "Int"),
        (LBrace, "{"),
        (IntLit, "99999999999999999999"),
        (RBrace, "}"),
    ]);
    assert_eq!(message, "invalid integer literal `99999999999999999999`");
}

#[test]
fn reports_method_without_body() {
    let (message, span) = parse_error(&[
        (Ident, "A"),
        (Dot, "."),
        (Ident, "f"),
        (TokenKind::Eq, "="),
        (LParen, "("),
        (RParen, ")"),
        (Arrow, "->"),
        (Ident, "Int"),
    ]);
    assert_eq!(message, "method definition requires a body `{ ... }`");
    assert_eq!(span, Span::new(8, 8, 1, 9));
}

#[test]
fn reports_generics_before_equals_on_function() {
    let (message, span) = parse_error(&[
        (Ident, "f"),
        (Lt, "<"),
        (Ident, "T"),
        (Gt, ">"),
        (TokenKind::Eq, "="),
        (LParen, "("),
        (RParen, ")"),
        (Arrow, "->"),
        (Ident, "T"),
    ]);
    assert_eq!(message, "generic parameters on function definitions go after `=`, not before");
    assert_eq!(span, Span::new(0, 1, 1, 1));
}

#[test]
fn reports_unsupported_extern_language() {
    let (message, _) = parse_error(&[(KwExtern, "extern"), (Ident, "C"), (LParen, "(")]);
    assert_eq!(message, "only `extern Rust` is supported (got `extern C`)");
}

#[test]
fn reports_async_extern_type() {
    let (message, _) = parse_error(&[
        (KwExtern, "extern"),
        (Ident, "Rust"),
        (Dot, "."),
        (Ident, "async"),
        (LParen, "("),
        (StringLit, "p"),
        (RParen, ")"),
        (Ident, "T"),
    ]);
    assert_eq!(message, "`extern Rust.async` is only valid on method declarations, not on types");
}

#[test]
fn reports_bad_repetition_count() {
    let (message, _) = parse_error(&[(Ident, "A"), (TokenKind::Eq, "="), (Ident, "Int"), (LBracket, "["), (IntLit, "-1"), (RBracket, "]")]);
    assert_eq!(message, "invalid integer `-1` in repetition count");
}
