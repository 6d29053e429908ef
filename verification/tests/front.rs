use oneway::error::{OnewayError, Phase};
use oneway::front::parse_program;
use oneway::syntax::tree::Item;

#[test]
fn reads_a_program_from_source() {
    let source = "use Clock\nmain = () -> Noop {\n    \"hi\".print()\n}\n";
    let module = parse_program(source).unwrap().unwrap();
    assert_eq!(module.items.len(), 2);
    match &module.items[0] {
        Item::Use(u) => assert_eq!(u.name.name, "Clock"),
        other => panic!("unexpected item {:?}", other),
    }
    match &module.items[1] {
        Item::Function(f) => assert_eq!(f.name.name, "main"),
        other => panic!("unexpected item {:?}", other),
    }
}

#[test]
fn reports_a_lexical_error() {
    let err = parse_program("main = a & b").unwrap().unwrap_err();
    assert_eq!(err.phase(), Phase::Lex);
    assert_eq!(err.message(), "unexpected character '&'; did you mean '&&'?");
}

#[test]
fn reports_a_token_the_grammar_does_not_read() {
    let err = parse_program("fn main").unwrap().unwrap_err();
    match err {
        OnewayError::ParseError { message, span } => {
            assert_eq!(message, "unexpected token fn");
            assert_eq!(span.column, 1);
        }
        other => panic!("unexpected error {:?}", other),
    }
}

#[test]
fn gives_nothing_for_an_integer_past_i64() {
    assert!(parse_program("x = 99999999999999999999").is_none());
}
