use oneway::lexer::scanner::Scanner;
use oneway::lexer::token::TokenKind;

/// Helper: lex the source and return just the token kinds.
fn kinds(source: &str) -> Vec<TokenKind> {
    let mut s = Scanner::new(source);
    s.scan_tokens()
        .expect("unexpected lex error")
        .into_iter()
        .map(|t| t.kind)
        .collect()
}

#[test]
fn empty_source() {
    assert_eq!(kinds(""), vec![TokenKind::Eof]);
}

#[test]
fn single_char_tokens() {
    let k = kinds("+ - * / % . ( ) { } [ ] : , ?");
    // whitespace is skipped; no newlines in the input
    assert_eq!(
        k,
        vec![
            TokenKind::Plus,
            TokenKind::Minus,
            TokenKind::Star,
            TokenKind::Slash,
            TokenKind::Percent,
            TokenKind::Dot,
            TokenKind::LeftParen,
            TokenKind::RightParen,
            TokenKind::LeftBrace,
            TokenKind::RightBrace,
            TokenKind::LeftBracket,
            TokenKind::RightBracket,
            TokenKind::Colon,
            TokenKind::Comma,
            TokenKind::QuestionMark,
            TokenKind::Eof,
        ]
    );
}

#[test]
fn two_char_tokens() {
    let k = kinds("== != <= >= && || -> =>");
    assert_eq!(
        k,
        vec![
            TokenKind::EqualEqual,
            TokenKind::BangEqual,
            TokenKind::LessEqual,
            TokenKind::GreaterEqual,
            TokenKind::AndAnd,
            TokenKind::OrOr,
            TokenKind::Arrow,
            TokenKind::FatArrow,
            TokenKind::Eof,
        ]
    );
}

#[test]
fn single_vs_double_char() {
    let k = kinds("= ! < >");
    assert_eq!(
        k,
        vec![
            TokenKind::Equal,
            TokenKind::Bang,
            TokenKind::Less,
            TokenKind::Greater,
            TokenKind::Eof,
        ]
    );
}

#[test]
fn keywords() {
    let k = kinds("contract enum fn match mut pub struct use Self true false");
    assert_eq!(
        k,
        vec![
            TokenKind::Contract,
            TokenKind::Enum,
            TokenKind::Fn,
            TokenKind::Match,
            TokenKind::Mut,
            TokenKind::Pub,
            TokenKind::Struct,
            TokenKind::Use,
            TokenKind::SelfType,
            TokenKind::BoolLiteral(true),
            TokenKind::BoolLiteral(false),
            TokenKind::Eof,
        ]
    );
}

#[test]
fn identifiers() {
    let k = kinds("foo _bar baz123");
    assert_eq!(
        k,
        vec![
            TokenKind::Identifier("foo".to_string()),
            TokenKind::Identifier("_bar".to_string()),
            TokenKind::Identifier("baz123".to_string()),
            TokenKind::Eof,
        ]
    );
}

#[test]
fn integer_literals() {
    let k = kinds("0 42 1000");
    assert_eq!(
        k,
        vec![
            TokenKind::IntLiteral(0),
            TokenKind::IntLiteral(42),
            TokenKind::IntLiteral(1000),
            TokenKind::Eof,
        ]
    );
}

#[test]
fn float_literals() {
    let k = kinds("3.14 0.5");
    let values: Vec<f64> = k
        .iter()
        .filter_map(|t| match t {
            TokenKind::FloatLiteral(text) => Some(text.parse::<f64>().unwrap()),
            _ => None,
        })
        .collect();
    assert_eq!(values, vec![3.14, 0.5]);
    assert_eq!(
        k,
        vec![
            TokenKind::FloatLiteral("3.14".to_string()),
            TokenKind::FloatLiteral("0.5".to_string()),
            TokenKind::Eof,
        ]
    );
}

#[test]
fn string_literal_simple() {
    let k = kinds(r#""hello""#);
    assert_eq!(
        k,
        vec![
            TokenKind::StringLiteral("hello".to_string()),
            TokenKind::Eof,
        ]
    );
}

#[test]
fn string_literal_escapes() {
    let k = kinds(r#""hello\nworld\t\"end\\""#);
    assert_eq!(
        k,
        vec![
            TokenKind::StringLiteral("hello\nworld\t\"end\\".to_string()),
            TokenKind::Eof,
        ]
    );
}

#[test]
fn string_unterminated() {
    let mut s = Scanner::new(r#""oops"#);
    assert!(s.scan_tokens().is_err());
}

#[test]
fn comments_rejected() {
    let mut scanner = Scanner::new("// this is a comment");
    assert!(scanner.scan_tokens().is_err());
}

#[test]
fn consecutive_newlines_coalesced() {
    let k = kinds("foo\n\n\nbar");
    assert_eq!(
        k,
        vec![
            TokenKind::Identifier("foo".to_string()),
            TokenKind::Newline,
            TokenKind::Identifier("bar".to_string()),
            TokenKind::Eof,
        ]
    );
}

#[test]
fn leading_newlines_suppressed() {
    let k = kinds("\n\nfoo");
    assert_eq!(
        k,
        vec![TokenKind::Identifier("foo".to_string()), TokenKind::Eof,]
    );
}

#[test]
fn unexpected_character() {
    let mut s = Scanner::new("@");
    assert!(s.scan_tokens().is_err());
}

#[test]
fn span_tracking() {
    let mut s = Scanner::new("ab\ncd");
    let tokens = s.scan_tokens().unwrap();
    // "ab" should be at line 1, column 1
    assert_eq!(tokens[0].span.line, 1);
    assert_eq!(tokens[0].span.column, 1);
    // Newline at line 1, column 3
    assert_eq!(tokens[1].span.line, 1);
    assert_eq!(tokens[1].span.column, 3);
    // "cd" should be at line 2, column 1
    assert_eq!(tokens[2].span.line, 2);
    assert_eq!(tokens[2].span.column, 1);
}

#[test]
fn method_chain() {
    let k = kinds("foo.bar().baz");
    assert_eq!(
        k,
        vec![
            TokenKind::Identifier("foo".to_string()),
            TokenKind::Dot,
            TokenKind::Identifier("bar".to_string()),
            TokenKind::LeftParen,
            TokenKind::RightParen,
            TokenKind::Dot,
            TokenKind::Identifier("baz".to_string()),
            TokenKind::Eof,
        ]
    );
}

#[test]
fn arrow_vs_minus() {
    let k = kinds("a - b -> c");
    assert_eq!(
        k,
        vec![
            TokenKind::Identifier("a".to_string()),
            TokenKind::Minus,
            TokenKind::Identifier("b".to_string()),
            TokenKind::Arrow,
            TokenKind::Identifier("c".to_string()),
            TokenKind::Eof,
        ]
    );
}

#[test]
fn fat_arrow_vs_equal() {
    let k = kinds("a = b => c == d");
    assert_eq!(
        k,
        vec![
            TokenKind::Identifier("a".to_string()),
            TokenKind::Equal,
            TokenKind::Identifier("b".to_string()),
            TokenKind::FatArrow,
            TokenKind::Identifier("c".to_string()),
            TokenKind::EqualEqual,
            TokenKind::Identifier("d".to_string()),
            TokenKind::Eof,
        ]
    );
}

#[test]
fn type_keyword() {
    let k = kinds("type TaskId = Int");
    assert_eq!(
        k,
        vec![
            TokenKind::TypeKeyword,
            TokenKind::Identifier("TaskId".into()),
            TokenKind::Equal,
            TokenKind::Identifier("Int".into()),
            TokenKind::Eof,
        ]
    );
}

#[test]
fn keywords_read_back_from_their_display() {
    let all = [
        TokenKind::Contract,
        TokenKind::Enum,
        TokenKind::Fn,
        TokenKind::Match,
        TokenKind::Mut,
        TokenKind::Pub,
        TokenKind::Struct,
        TokenKind::Use,
        TokenKind::TypeKeyword,
        TokenKind::SelfType,
        TokenKind::Delegates,
    ];
    for k in all {
        assert_eq!(TokenKind::keyword(&k.to_display_string()), Some(k));
    }
    assert_eq!(TokenKind::keyword("true"), Some(TokenKind::BoolLiteral(true)));
    assert_eq!(TokenKind::keyword("self"), None);
}

#[test]
fn lexes_unicode_identifiers_and_whitespace() {
    assert_eq!(kinds("été"), vec![TokenKind::Identifier("été".to_string()), TokenKind::Eof]);
}
