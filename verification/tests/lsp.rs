use oneway::error::{OnewayError, Span};
use oneway::lsp::{
    collect_symbols, format_type_expr, oneway_error_to_diagnostic, span_to_range, word_at_position, Position, Severity,
    SymbolKind,
};
use oneway::parser::ast::{EnumDef, FunctionDef, Item, Module, Param, TypeExpr, UseItem, Variant};

fn sp(n: usize) -> Span {
    Span::new(n, n + 3, 2, 5)
}

#[test]
fn formats_type_expressions() {
    let t = TypeExpr::Function {
        params: vec![Box::new(TypeExpr::Named("Int".to_string()))],
        return_type: Box::new(TypeExpr::Generic {
            name: "List".to_string(),
            params: vec![TypeExpr::Union(vec![TypeExpr::Named("A".to_string()), TypeExpr::Named("B".to_string())])],
        }),
    };
    assert_eq!(format_type_expr(&t), "fn(Int) -> List<A | B>");
}

#[test]
fn indexes_symbols() {
    let module = Module {
        items: vec![
            Item::Use(UseItem { path: vec!["net".to_string(), "http".to_string()], span: sp(0) }),
            Item::Enum(EnumDef {
                public: true,
                name: "Color".to_string(),
                variants: vec![Variant { name: "Red".to_string(), data: None, span: sp(10) }],
                span: sp(8),
            }),
            Item::Function(FunctionDef {
                public: false,
                name: "area".to_string(),
                params: vec![Param { type_expr: TypeExpr::Named("Int".to_string()), span: sp(20) }],
                return_type: Some(TypeExpr::Named("Float".to_string())),
                body: oneway::parser::ast::Expr::Identifier("x".to_string()),
                span: sp(18),
            }),
        ],
    };
    let state = collect_symbols(&module, "file:///a.ow");
    assert_eq!(state.symbol_list.len(), 4);
    let used = state.lookup("net.http").unwrap();
    assert_eq!(used.detail, "use net.http");
    assert_eq!(used.kind, SymbolKind::Module);
    assert_eq!(state.lookup("Color").unwrap().detail, "enum Color (1 variants)");
    assert_eq!(state.lookup("Red").unwrap().detail, "Color.Red");
    let f = state.lookup("area").unwrap();
    assert_eq!(f.detail, "fn area(Int) -> Float");
    assert_eq!(f.uri, "file:///a.ow");
    assert!(state.lookup("missing").is_none());
}

#[test]
fn converts_spans_and_errors() {
    let r = span_to_range(&Span::new(4, 9, 3, 2));
    assert_eq!((r.start.line, r.start.character, r.end.character), (2, 1, 6));
    let r = span_to_range(&Span::new(4, 4, 0, 0));
    assert_eq!((r.start.line, r.start.character, r.end.character), (0, 0, 1));
    let d = oneway_error_to_diagnostic(&OnewayError::CheckError { message: "m".to_string(), span: Span::new(0, 1, 1, 1) });
    assert_eq!(d.severity, Severity::Warning);
    assert_eq!(d.source, "oneway");
    let d = oneway_error_to_diagnostic(&OnewayError::ParseError { message: "p".to_string(), span: Span::new(0, 1, 1, 1) });
    assert_eq!(d.severity, Severity::Error);
}

#[test]
fn finds_word_under_cursor() {
    let src = "first line\nlet total_sum = 1\r\n";
    assert_eq!(word_at_position(src, &Position { line: 1, character: 6 }), Some("total_sum".to_string()));
    assert_eq!(word_at_position(src, &Position { line: 1, character: 3 }), Some("let".to_string()));
    assert_eq!(word_at_position(src, &Position { line: 0, character: 5 }), Some("first".to_string()));
    assert_eq!(word_at_position(src, &Position { line: 1, character: 14 }), None);
    assert_eq!(word_at_position(src, &Position { line: 5, character: 0 }), None);
}

#[test]
fn finds_no_word_past_the_line() {
    assert_eq!(word_at_position("foo.bar", &Position { line: 0, character: 5 }), Some("bar".to_string()));
    assert_eq!(word_at_position("foo.bar", &Position { line: 0, character: 3 }), Some("foo".to_string()));
    assert_eq!(word_at_position("été", &Position { line: 0, character: 4 }), None);
    assert_eq!(word_at_position("été", &Position { line: 0, character: 3 }), Some("été".to_string()));
}
