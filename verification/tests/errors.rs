use oneway::error::{OnewayError, Phase, Span};

#[test]
fn renders_errors() {
    let e = OnewayError::LexError { message: "unexpected character `$`".to_string(), span: Span::new(3, 4, 2, 7) };
    assert_eq!(e.to_display_string(), "lex error at 2:7: unexpected character `$`");
    assert_eq!(e.phase(), Phase::Lex);
    assert_eq!(*e.span(), Span::new(3, 4, 2, 7));
    let e = OnewayError::CodegenError { message: "x".to_string(), span: Span::default() };
    assert_eq!(e.to_display_string(), "codegen error at 0:0: x");
}
