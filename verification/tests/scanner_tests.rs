use rlox::diagnostics::ErrorKind;
use rlox::scanner::{find_keyword, load_keywords, Scanner};
use rlox::token::{Token, TokenType, Value};

fn scan(source: &str) -> (Vec<Token>, Vec<rlox::diagnostics::Diagnostic>) {
    let mut scanner = Scanner::new(source.to_string());
    scanner.scan_tokens();
    scanner.finish()
}

fn kinds(tokens: &[Token]) -> Vec<TokenType> {
    tokens.iter().map(|t| t.token_type).collect()
}

fn number_of(token: &Token) -> f64 {
    match &token.literal {
        Value::Number(text) => text.parse::<f64>().unwrap(),
        other => panic!("not a number: {:?}", other),
    }
}

#[test]
fn single_punctuation_gives_one_token_and_eof() {
    let cases = [
        ("(", TokenType::LeftParen),
        (")", TokenType::RightParen),
        ("{", TokenType::LeftBrace),
        ("}", TokenType::RightBrace),
        (",", TokenType::Comma),
        (".", TokenType::Dot),
        ("-", TokenType::Minus),
        ("+", TokenType::Plus),
        (";", TokenType::Semicolon),
        ("/", TokenType::Slash),
        ("*", TokenType::Star),
    ];
    for (source, kind) in cases {
        let (tokens, errors) = scan(source);
        assert_eq!(kinds(&tokens), vec![kind, TokenType::EOF], "source {source:?}");
        assert_eq!(tokens[0].lexeme, source);
        assert!(matches!(tokens[0].literal, Value::Nil));
        assert_eq!(tokens[0].line, 1);
        assert_eq!(tokens[1].lexeme, "");
        assert_eq!(tokens[1].line, 1);
        assert!(errors.is_empty());
    }
}

#[test]
fn two_character_operators() {
    let cases = [
        ("!=", TokenType::BangEqual),
        ("==", TokenType::EqualEqual),
        ("<=", TokenType::LessEqual),
        (">=", TokenType::GreaterEqual),
    ];
    for (source, kind) in cases {
        let (tokens, errors) = scan(source);
        assert_eq!(kinds(&tokens), vec![kind, TokenType::EOF], "source {source:?}");
        assert_eq!(tokens[0].lexeme, source);
        assert!(errors.is_empty());
    }
}

#[test]
fn one_character_operators() {
    let cases = [
        ("!", TokenType::Bang),
        ("=", TokenType::Equal),
        ("<", TokenType::Less),
        (">", TokenType::Greater),
    ];
    for (source, kind) in cases {
        let (tokens, errors) = scan(source);
        assert_eq!(kinds(&tokens), vec![kind, TokenType::EOF], "source {source:?}");
        assert_eq!(tokens[0].lexeme, source);
        assert!(errors.is_empty());
    }
}

#[test]
fn operator_not_followed_by_equal_stays_short() {
    let (tokens, _) = scan("!1");
    assert_eq!(kinds(&tokens), vec![TokenType::Bang, TokenType::Number, TokenType::EOF]);
    let (tokens, _) = scan("< =");
    assert_eq!(kinds(&tokens), vec![TokenType::Less, TokenType::Equal, TokenType::EOF]);
    let (tokens, _) = scan("===");
    assert_eq!(kinds(&tokens), vec![TokenType::EqualEqual, TokenType::Equal, TokenType::EOF]);
}

#[test]
fn comment_gives_no_token_and_one_line() {
    let (tokens, errors) = scan("// comment\n123");
    assert_eq!(kinds(&tokens), vec![TokenType::Number, TokenType::EOF]);
    assert_eq!(number_of(&tokens[0]), 123.0);
    assert_eq!(tokens[0].lexeme, "123");
    assert_eq!(tokens[0].line, 2);
    assert_eq!(tokens[1].line, 2);
    assert!(errors.is_empty());
}

#[test]
fn comment_at_end_of_input() {
    let (tokens, errors) = scan("1 // the rest");
    assert_eq!(kinds(&tokens), vec![TokenType::Number, TokenType::EOF]);
    assert_eq!(tokens[1].line, 1);
    assert!(errors.is_empty());
}

#[test]
fn slash_alone_is_a_token() {
    let (tokens, _) = scan("1 / 2");
    assert_eq!(
        kinds(&tokens),
        vec![TokenType::Number, TokenType::Slash, TokenType::Number, TokenType::EOF]
    );
}

#[test]
fn unterminated_string_reports_one_error() {
    let (tokens, errors) = scan("\"abc");
    assert_eq!(kinds(&tokens), vec![TokenType::EOF]);
    assert_eq!(errors.len(), 1);
    assert_eq!(errors[0].kind, ErrorKind::Lexical);
    assert_eq!(errors[0].line, 1);
    assert_eq!(errors[0].place, "");
    assert_eq!(errors[0].message, "String sin cerrar");
}

#[test]
fn unterminated_string_counts_its_lines() {
    let (tokens, errors) = scan("\"a\nb\nc");
    assert_eq!(kinds(&tokens), vec![TokenType::EOF]);
    assert_eq!(tokens[0].line, 3);
    assert_eq!(errors.len(), 1);
    assert_eq!(errors[0].line, 3);
}

#[test]
fn string_literal_is_the_text_between_the_quotes() {
    let (tokens, errors) = scan("\"hello\"");
    assert_eq!(kinds(&tokens), vec![TokenType::String, TokenType::EOF]);
    assert_eq!(tokens[0].lexeme, "\"hello\"");
    match &tokens[0].literal {
        Value::String(s) => assert_eq!(s, "hello"),
        other => panic!("not a string: {:?}", other),
    }
    assert!(errors.is_empty());
}

#[test]
fn string_literal_is_trimmed() {
    let (tokens, _) = scan("\"  a b \t\"");
    assert_eq!(tokens[0].lexeme, "\"  a b \t\"");
    match &tokens[0].literal {
        Value::String(s) => assert_eq!(s, "a b"),
        other => panic!("not a string: {:?}", other),
    }
    let (tokens, _) = scan("\"   \"");
    match &tokens[0].literal {
        Value::String(s) => assert_eq!(s, ""),
        other => panic!("not a string: {:?}", other),
    }
    let (tokens, _) = scan("\"\"");
    match &tokens[0].literal {
        Value::String(s) => assert_eq!(s, ""),
        other => panic!("not a string: {:?}", other),
    }
}

#[test]
fn string_with_newline_is_on_its_last_line() {
    let (tokens, errors) = scan("\"a\nb\" 1");
    assert_eq!(kinds(&tokens), vec![TokenType::String, TokenType::Number, TokenType::EOF]);
    assert_eq!(tokens[0].line, 2);
    assert_eq!(tokens[1].line, 2);
    match &tokens[0].literal {
        Value::String(s) => assert_eq!(s, "a\nb"),
        other => panic!("not a string: {:?}", other),
    }
    assert!(errors.is_empty());
}

#[test]
fn whole_number() {
    let (tokens, _) = scan("42");
    assert_eq!(kinds(&tokens), vec![TokenType::Number, TokenType::EOF]);
    assert_eq!(tokens[0].lexeme, "42");
    assert_eq!(number_of(&tokens[0]), 42.0);
    assert_eq!(tokens[0].literal.to_string(), "42");
}

#[test]
fn number_with_fraction() {
    let (tokens, _) = scan("3.25");
    assert_eq!(kinds(&tokens), vec![TokenType::Number, TokenType::EOF]);
    assert_eq!(tokens[0].lexeme, "3.25");
    assert_eq!(number_of(&tokens[0]), 3.25);
    assert_eq!(tokens[0].literal.to_string(), "3.25");
}

#[test]
fn number_literal_is_canonical() {
    let cases = [
        ("1.50", "1.5"),
        ("123.0", "123"),
        ("007", "7"),
        ("0", "0"),
        ("000", "0"),
        ("0.0", "0"),
        ("00.100", "0.1"),
        ("10", "10"),
        ("10.01", "10.01"),
    ];
    for (source, numeral) in cases {
        let (tokens, _) = scan(source);
        assert_eq!(kinds(&tokens), vec![TokenType::Number, TokenType::EOF], "source {source:?}");
        assert_eq!(tokens[0].lexeme, source);
        assert_eq!(tokens[0].literal.to_string(), numeral, "source {source:?}");
        assert_eq!(number_of(&tokens[0]), source.parse::<f64>().unwrap());
        assert_eq!(number_of(&tokens[0]).to_string(), numeral);
    }
}

#[test]
fn trailing_dot_is_not_part_of_the_number() {
    let (tokens, _) = scan("12.");
    assert_eq!(kinds(&tokens), vec![TokenType::Number, TokenType::Dot, TokenType::EOF]);
    assert_eq!(tokens[0].lexeme, "12");
    let (tokens, _) = scan("12.a");
    assert_eq!(
        kinds(&tokens),
        vec![TokenType::Number, TokenType::Dot, TokenType::Identifier, TokenType::EOF]
    );
    let (tokens, _) = scan("1.2.3");
    assert_eq!(
        kinds(&tokens),
        vec![TokenType::Number, TokenType::Dot, TokenType::Number, TokenType::EOF]
    );
    assert_eq!(tokens[0].lexeme, "1.2");
    assert_eq!(tokens[2].lexeme, "3");
}

#[test]
fn leading_dot_is_a_token_of_its_own() {
    let (tokens, _) = scan(".5");
    assert_eq!(kinds(&tokens), vec![TokenType::Dot, TokenType::Number, TokenType::EOF]);
}

#[test]
fn every_keyword_has_its_kind() {
    let cases = [
        ("and", TokenType::And),
        ("class", TokenType::Class),
        ("else", TokenType::Else),
        ("false", TokenType::False),
        ("for", TokenType::For),
        ("fun", TokenType::Fun),
        ("if", TokenType::If),
        ("nil", TokenType::Nil),
        ("or", TokenType::Or),
        ("print", TokenType::Print),
        ("return", TokenType::Return),
        ("super", TokenType::Super),
        ("this", TokenType::This),
        ("true", TokenType::True),
        ("var", TokenType::Var),
        ("while", TokenType::While),
    ];
    for (source, kind) in cases {
        let (tokens, errors) = scan(source);
        assert_eq!(kinds(&tokens), vec![kind, TokenType::EOF], "source {source:?}");
        assert_eq!(tokens[0].lexeme, source);
        assert!(matches!(tokens[0].literal, Value::Nil));
        assert!(errors.is_empty());
    }
}

#[test]
fn keyword_table_has_sixteen_entries() {
    let table = load_keywords();
    assert_eq!(table.len(), 16);
    assert_eq!(find_keyword(&table, &"while".to_string()), Some(TokenType::While));
    assert_eq!(find_keyword(&table, &"While".to_string()), None);
    assert_eq!(find_keyword(&table, &"".to_string()), None);
}

#[test]
fn identifiers() {
    let cases = ["x", "_", "_x1", "andy", "classes", "nil_", "Fun", "a1b2", "été", "x_y_z"];
    for source in cases {
        let (tokens, errors) = scan(source);
        assert_eq!(
            kinds(&tokens),
            vec![TokenType::Identifier, TokenType::EOF],
            "source {source:?}"
        );
        assert_eq!(tokens[0].lexeme, source);
        assert!(errors.is_empty());
    }
}

#[test]
fn identifier_ends_at_a_character_that_cannot_continue_it() {
    let (tokens, _) = scan("ab+cd");
    assert_eq!(
        kinds(&tokens),
        vec![TokenType::Identifier, TokenType::Plus, TokenType::Identifier, TokenType::EOF]
    );
    assert_eq!(tokens[0].lexeme, "ab");
    assert_eq!(tokens[2].lexeme, "cd");
}

#[test]
fn digit_does_not_begin_an_identifier() {
    let (tokens, _) = scan("1a");
    assert_eq!(kinds(&tokens), vec![TokenType::Number, TokenType::Identifier, TokenType::EOF]);
    assert_eq!(tokens[0].lexeme, "1");
    assert_eq!(tokens[1].lexeme, "a");
}

#[test]
fn unknown_character_is_reported_and_scanning_goes_on() {
    let (tokens, errors) = scan("1 @ 2");
    assert_eq!(kinds(&tokens), vec![TokenType::Number, TokenType::Number, TokenType::EOF]);
    assert_eq!(errors.len(), 1);
    assert_eq!(errors[0].kind, ErrorKind::Lexical);
    assert_eq!(errors[0].line, 1);
    assert_eq!(errors[0].place, "");
    assert_eq!(errors[0].message, "Caracter desconocido");
}

#[test]
fn each_unknown_character_is_reported_on_its_line() {
    let (tokens, errors) = scan("#\n$\n\n%");
    assert_eq!(kinds(&tokens), vec![TokenType::EOF]);
    assert_eq!(errors.len(), 3);
    assert_eq!(errors[0].line, 1);
    assert_eq!(errors[1].line, 2);
    assert_eq!(errors[2].line, 4);
    assert_eq!(tokens[0].line, 4);
}

#[test]
fn empty_source_gives_only_eof() {
    let (tokens, errors) = scan("");
    assert_eq!(kinds(&tokens), vec![TokenType::EOF]);
    assert_eq!(tokens[0].line, 1);
    assert_eq!(tokens[0].lexeme, "");
    assert!(matches!(tokens[0].literal, Value::Nil));
    assert!(errors.is_empty());
}

#[test]
fn whitespace_is_skipped_and_newlines_counted() {
    let (tokens, errors) = scan(" \t\r\n\n 1\n");
    assert_eq!(kinds(&tokens), vec![TokenType::Number, TokenType::EOF]);
    assert_eq!(tokens[0].line, 3);
    assert_eq!(tokens[1].line, 4);
    assert!(errors.is_empty());
}

#[test]
fn exactly_one_eof_and_it_is_last() {
    for source in ["", "1 + 2", "\"open", "a b c // d", "@@@", "(((", "var x = \"s\";"] {
        let (tokens, _) = scan(source);
        let eofs = tokens.iter().filter(|t| t.token_type == TokenType::EOF).count();
        assert_eq!(eofs, 1, "source {source:?}");
        assert_eq!(tokens.last().unwrap().token_type, TokenType::EOF);
    }
}

#[test]
fn scanning_twice_emits_eof_once() {
    let mut scanner = Scanner::new("1 + 2".to_string());
    let first = scanner.scan_tokens().len();
    let second = scanner.scan_tokens().len();
    assert_eq!(first, 4);
    assert_eq!(second, 4);
    assert_eq!(scanner.tokens().len(), 4);
    assert!(!scanner.had_error());
    assert!(scanner.diagnostics().is_empty());
}

#[test]
fn scan_tokens_returns_what_it_emitted() {
    let mut scanner = Scanner::new("!= ;".to_string());
    let tokens = scanner.scan_tokens();
    assert_eq!(
        tokens.iter().map(|t| t.token_type).collect::<Vec<_>>(),
        vec![TokenType::BangEqual, TokenType::Semicolon, TokenType::EOF]
    );
}

#[test]
fn source_beyond_ascii_is_read_by_characters() {
    let (tokens, errors) = scan("ñ + \"λ→\" // ü\n€");
    assert_eq!(
        kinds(&tokens),
        vec![TokenType::Identifier, TokenType::Plus, TokenType::String, TokenType::EOF]
    );
    assert_eq!(tokens[0].lexeme, "ñ");
    assert_eq!(tokens[2].lexeme, "\"λ→\"");
    assert_eq!(errors.len(), 1);
    assert_eq!(errors[0].line, 2);
}

#[test]
fn a_full_line_of_tokens() {
    let (tokens, errors) = scan("var answer = (1 + 2.5) * -3 >= 4 != true;");
    assert_eq!(
        kinds(&tokens),
        vec![
            TokenType::Var,
            TokenType::Identifier,
            TokenType::Equal,
            TokenType::LeftParen,
            TokenType::Number,
            TokenType::Plus,
            TokenType::Number,
            TokenType::RightParen,
            TokenType::Star,
            TokenType::Minus,
            TokenType::Number,
            TokenType::GreaterEqual,
            TokenType::Number,
            TokenType::BangEqual,
            TokenType::True,
            TokenType::Semicolon,
            TokenType::EOF,
        ]
    );
    assert!(errors.is_empty());
}
