use rlox::diagnostics::{error, report_error, Diagnostic, ErrorKind};
use rlox::text::{
    chars_of, decimal_text, is_ascii_digit, is_identifier_part, is_identifier_start, numeral_text,
    text_of, trimmed_text,
};
use rlox::token::{Token, TokenType, Value};

#[test]
fn token_new_keeps_its_fields() {
    let t = Token::new(TokenType::Number, "1.0".to_string(), Value::Number("1".to_string()), 7);
    assert_eq!(t.token_type, TokenType::Number);
    assert_eq!(t.lexeme, "1.0");
    assert!(matches!(&t.literal, Value::Number(n) if n == "1"));
    assert_eq!(t.line, 7);
}

#[test]
fn token_clone_is_equal() {
    let t = Token::new(TokenType::String, "\"a\"".to_string(), Value::String("a".to_string()), 2);
    let c = t.clone();
    assert_eq!(c.token_type, t.token_type);
    assert_eq!(c.lexeme, t.lexeme);
    assert_eq!(c.literal.to_string(), t.literal.to_string());
    assert_eq!(c.line, t.line);
}

#[test]
fn token_type_names() {
    assert_eq!(TokenType::LeftParen.to_string(), "LeftParen");
    assert_eq!(TokenType::BangEqual.to_string(), "BangEqual");
    assert_eq!(TokenType::Identifier.to_string(), "Identifier");
    assert_eq!(TokenType::String.to_string(), "String");
    assert_eq!(TokenType::While.to_string(), "While");
    assert_eq!(TokenType::EOF.to_string(), "EOF");
}

#[test]
fn value_texts() {
    assert_eq!(Value::String("hi".to_string()).to_string(), "hi");
    assert_eq!(Value::Number("2.5".to_string()).to_string(), "2.5");
    assert_eq!(Value::Boolean(true).to_string(), "true");
    assert_eq!(Value::Boolean(false).to_string(), "false");
    assert_eq!(Value::Nil.to_string(), "None");
}

#[test]
fn token_text() {
    let t = Token::new(TokenType::Number, "12".to_string(), Value::Number("12".to_string()), 30);
    assert_eq!(t.to_string(), "Token Type: Number\nLexeme: 12\nLiteral: 12\nLine: 30\n");
    let e = Token::new(TokenType::EOF, "".to_string(), Value::Nil, 1);
    assert_eq!(e.to_string(), "Token Type: EOF\nLexeme: \nLiteral: None\nLine: 1\n");
}

#[test]
fn decimal_numerals() {
    assert_eq!(decimal_text(0), "0");
    assert_eq!(decimal_text(7), "7");
    assert_eq!(decimal_text(10), "10");
    assert_eq!(decimal_text(1234567890), "1234567890");
    assert_eq!(decimal_text(usize::MAX), usize::MAX.to_string());
}

#[test]
fn characters_of_a_text() {
    assert_eq!(chars_of(""), Vec::<char>::new());
    assert_eq!(chars_of("añ→"), vec!['a', 'ñ', '→']);
}

#[test]
fn text_of_a_range_of_characters() {
    let v = vec!['a', 'b', 'c', 'd'];
    assert_eq!(text_of(&v, 1, 3), "bc");
    assert_eq!(text_of(&v, 0, 4), "abcd");
    assert_eq!(text_of(&v, 2, 2), "");
}

#[test]
fn trimmed_text_of_a_range() {
    let v: Vec<char> = "x  a b\u{a0}\n y".chars().collect();
    assert_eq!(trimmed_text(&v, 1, 9), "a b");
    assert_eq!(trimmed_text(&v, 1, 3), "");
    assert_eq!(v.len(), 10);
    assert_eq!(trimmed_text(&v, 0, 10), "x  a b\u{a0}\n y");
}

#[test]
fn numeral_of_digits() {
    let v: Vec<char> = "0012.3400".chars().collect();
    assert_eq!(numeral_text(&v, 0, 4, 9), "12.34");
    assert_eq!(numeral_text(&v, 0, 4, 4), "12");
    assert_eq!(numeral_text(&v, 0, 2, 2), "0");
    assert_eq!(numeral_text(&v, 7, 9, 9), "0");
}

#[test]
fn character_classes() {
    assert!(is_ascii_digit('0'));
    assert!(is_ascii_digit('9'));
    assert!(!is_ascii_digit('a'));
    assert!(!is_ascii_digit('٣'));
    assert!(is_identifier_start('a'));
    assert!(is_identifier_start('_'));
    assert!(is_identifier_start('λ'));
    assert!(!is_identifier_start('1'));
    assert!(!is_identifier_start(' '));
    assert!(is_identifier_part('1'));
    assert!(is_identifier_part('z'));
    assert!(is_identifier_part('_'));
    assert!(!is_identifier_part('-'));
}

#[test]
fn lexical_diagnostic_is_rendered() {
    let mut sink: Vec<Diagnostic> = Vec::new();
    report_error(&mut sink, 3, "", "Caracter desconocido");
    assert_eq!(sink.len(), 1);
    assert_eq!(sink[0].kind, ErrorKind::Lexical);
    assert_eq!(sink[0].render(), "[3] | Error : Caracter desconocido");
}

#[test]
fn syntax_diagnostic_at_end_is_rendered() {
    let mut sink: Vec<Diagnostic> = Vec::new();
    let eof = Token::new(TokenType::EOF, "".to_string(), Value::Nil, 12);
    error(&mut sink, &eof, "Expect expression.");
    assert_eq!(sink.len(), 1);
    assert_eq!(sink[0].kind, ErrorKind::Syntax);
    assert_eq!(sink[0].line, 12);
    assert_eq!(sink[0].place, "at end");
    assert_eq!(sink[0].render(), "[12] | Error at end: Expect expression.");
}

#[test]
fn syntax_diagnostic_at_a_lexeme_is_rendered() {
    let mut sink: Vec<Diagnostic> = Vec::new();
    let plus = Token::new(TokenType::Plus, "+".to_string(), Value::Nil, 1);
    error(&mut sink, &plus, "Expect expression.");
    assert_eq!(sink[0].place, "at '+'");
    assert_eq!(sink[0].render(), "[1] | Error at '+': Expect expression.");
    let again = sink[0].clone();
    assert_eq!(again.render(), sink[0].render());
}
