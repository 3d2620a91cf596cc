use rlox::ast_printer::AstPrinter;
use rlox::diagnostics::ErrorKind;
use rlox::expr::{Binary, Expr, Grouping, Literal, Unary, Visitor};
use rlox::parser::{Parser, ParserError};
use rlox::run;
use rlox::scanner::Scanner;
use rlox::token::{Token, TokenType, Value};

fn tokens_of(source: &str) -> Vec<Token> {
    let mut scanner = Scanner::new(source.to_string());
    scanner.scan_tokens();
    scanner.finish().0
}

fn printed(source: &str) -> String {
    let mut parser = Parser::new(tokens_of(source));
    assert!(parser.is_well_formed());
    let expr = parser.parse().expect("the source is an expression");
    assert!(parser.diagnostics().is_empty());
    AstPrinter::new().print(expr)
}

fn number(text: &str) -> Box<Expr> {
    Box::new(Expr::Literal(Literal::new(Value::Number(text.to_string()))))
}

fn token(kind: TokenType, lexeme: &str) -> Token {
    Token::new(kind, lexeme.to_string(), Value::Nil, 1)
}

#[test]
fn multiplication_binds_tighter_than_addition() {
    assert_eq!(printed("1 + 2 * 3"), "(+ 1 (* 2 3))");
    assert_eq!(printed("1 * 2 + 3"), "(+ (* 1 2) 3)");
}

#[test]
fn subtraction_is_left_associative() {
    assert_eq!(printed("1 - 2 - 3"), "(- (- 1 2) 3)");
    assert_ne!(printed("1 - 2 - 3"), "(- 1 (- 2 3))");
}

#[test]
fn every_binary_level_is_left_associative() {
    assert_eq!(printed("8 / 4 / 2"), "(/ (/ 8 4) 2)");
    assert_eq!(printed("8 / 4 * 2"), "(* (/ 8 4) 2)");
    assert_eq!(printed("1 + 2 - 3"), "(- (+ 1 2) 3)");
    assert_eq!(printed("1 < 2 <= 3"), "(<= (< 1 2) 3)");
    assert_eq!(printed("1 > 2 >= 3"), "(>= (> 1 2) 3)");
    assert_eq!(printed("1 == 2 != 3"), "(!= (== 1 2) 3)");
}

#[test]
fn parentheses_make_a_group() {
    assert_eq!(printed("(1 + 2)"), "(group (+ 1 2))");
    assert_eq!(printed("(1 + 2) * 3"), "(* (group (+ 1 2)) 3)");
    assert_eq!(printed("((1))"), "(group (group 1))");
}

#[test]
fn the_levels_nest_by_precedence() {
    assert_eq!(printed("1 + 2 < 3 * 4 == true"), "(== (< (+ 1 2) (* 3 4)) true)");
    assert_eq!(printed("1 == 2 < 3"), "(== 1 (< 2 3))");
    assert_eq!(printed("-1 * 2"), "(* (- 1) 2)");
}

#[test]
fn unary_operators_nest_to_the_right() {
    assert_eq!(printed("-1"), "(- 1)");
    assert_eq!(printed("!true"), "(! true)");
    assert_eq!(printed("!!false"), "(! (! false))");
    assert_eq!(printed("-!-1"), "(- (! (- 1)))");
    assert_eq!(printed("1 - -2"), "(- 1 (- 2))");
}

#[test]
fn literals() {
    assert_eq!(printed("1"), "1");
    assert_eq!(printed("1.50"), "1.5");
    assert_eq!(printed("\"a b\""), "a b");
    assert_eq!(printed("true"), "true");
    assert_eq!(printed("false"), "false");
    assert_eq!(printed("nil"), "nil");
}

#[test]
fn missing_closing_paren_is_one_syntax_error_at_end() {
    let mut parser = Parser::new(tokens_of("(1 + 2"));
    let result = parser.parse();
    assert!(result.is_err());
    let errors = parser.diagnostics();
    assert_eq!(errors.len(), 1);
    assert_eq!(errors[0].kind, ErrorKind::Syntax);
    assert_eq!(errors[0].place, "at end");
    assert_eq!(errors[0].message, "Expect ')' after expression.");
    assert_eq!(errors[0].line, 1);
    assert_eq!(errors[0].render(), "[1] | Error at end: Expect ')' after expression.");
}

#[test]
fn missing_closing_paren_before_another_token() {
    let mut parser = Parser::new(tokens_of("(1 + 2 ;"));
    assert!(parser.parse().is_err());
    let errors = parser.diagnostics();
    assert_eq!(errors.len(), 1);
    assert_eq!(errors[0].place, "at ';'");
    assert_eq!(errors[0].message, "Expect ')' after expression.");
}

#[test]
fn missing_operand_is_one_syntax_error() {
    let mut parser = Parser::new(tokens_of("1 +"));
    assert!(parser.parse().is_err());
    let errors = parser.diagnostics();
    assert_eq!(errors.len(), 1);
    assert_eq!(errors[0].kind, ErrorKind::Syntax);
    assert_eq!(errors[0].place, "at end");
    assert_eq!(errors[0].message, "Expect expression.");
}

#[test]
fn a_token_that_begins_no_expression_is_an_error_at_it() {
    let mut parser = Parser::new(tokens_of("\n\n* 2"));
    assert!(parser.parse().is_err());
    let errors = parser.diagnostics();
    assert_eq!(errors.len(), 1);
    assert_eq!(errors[0].place, "at '*'");
    assert_eq!(errors[0].line, 3);
    assert_eq!(errors[0].render(), "[3] | Error at '*': Expect expression.");
}

#[test]
fn empty_input_is_an_error_at_end() {
    let mut parser = Parser::new(tokens_of(""));
    assert!(parser.parse().is_err());
    assert_eq!(parser.diagnostics().len(), 1);
    assert_eq!(parser.diagnostics()[0].place, "at end");
    let errors = parser.finish();
    assert_eq!(errors.len(), 1);
}

#[test]
fn error_inside_parentheses_is_reported_once() {
    let mut parser = Parser::new(tokens_of("(1 + )"));
    assert!(parser.parse().is_err());
    let errors = parser.diagnostics();
    assert_eq!(errors.len(), 1);
    assert_eq!(errors[0].place, "at ')'");
    assert_eq!(errors[0].message, "Expect expression.");
}

#[test]
fn identifier_is_no_expression() {
    let mut parser = Parser::new(tokens_of("x + 1"));
    assert!(parser.parse().is_err());
    assert_eq!(parser.diagnostics()[0].place, "at 'x'");
}

#[test]
fn tokens_after_the_expression_are_left_alone() {
    let mut parser = Parser::new(tokens_of("1 2"));
    let expr = parser.parse().expect("an expression");
    assert_eq!(AstPrinter::new().print(expr), "1");
    assert!(parser.diagnostics().is_empty());
}

#[test]
fn default_parser_has_no_tokens() {
    let parser = Parser::default();
    assert!(!parser.is_well_formed());
    assert!(parser.diagnostics().is_empty());
}

#[test]
fn tokens_without_eof_are_not_well_formed() {
    let parser = Parser::new(vec![token(TokenType::Number, "1")]);
    assert!(!parser.is_well_formed());
    let parser = Parser::new(vec![token(TokenType::Number, "1"), token(TokenType::EOF, "")]);
    assert!(parser.is_well_formed());
}

#[test]
fn parser_error_can_be_made() {
    let e = ParserError::new();
    assert_eq!(format!("{:?}", e), "ParserError");
}

#[test]
fn synchronize_stops_behind_a_semicolon() {
    let mut parser = Parser::new(tokens_of("+ 1 ; 2 + 3"));
    assert!(parser.parse().is_err());
    parser.synchronize();
    let expr = parser.parse().expect("an expression behind the semicolon");
    assert_eq!(AstPrinter::new().print(expr), "(+ 2 3)");
}

#[test]
fn synchronize_stops_before_a_statement_keyword() {
    for keyword in ["class", "fun", "var", "for", "if", "while", "print", "return"] {
        let source = format!("+ 1 2 {keyword} 3");
        let mut parser = Parser::new(tokens_of(&source));
        assert!(parser.parse().is_err());
        parser.synchronize();
        assert!(parser.parse().is_err());
        let errors = parser.diagnostics();
        assert_eq!(errors.len(), 2);
        assert_eq!(errors[1].place, format!("at '{keyword}'"), "keyword {keyword}");
    }
}

#[test]
fn synchronize_stops_at_the_end() {
    let mut parser = Parser::new(tokens_of("+ 1 2 3"));
    assert!(parser.parse().is_err());
    parser.synchronize();
    assert!(parser.parse().is_err());
    assert_eq!(parser.diagnostics()[1].place, "at end");
    parser.synchronize();
    assert!(parser.parse().is_err());
    assert_eq!(parser.diagnostics()[2].place, "at end");
}

#[test]
fn printing_twice_gives_the_same_text() {
    let mut printer = AstPrinter::new();
    let make = || {
        Box::new(Expr::Binary(Binary::new(
            number("1"),
            token(TokenType::Star, "*"),
            Box::new(Expr::Unary(Unary::new(token(TokenType::Minus, "-"), number("2")))),
        )))
    };
    let first = printer.print(make());
    let second = printer.print(make());
    assert_eq!(first, "(* 1 (- 2))");
    assert_eq!(first, second);
    assert_eq!(AstPrinter::new().print(make()), first);
}

#[test]
fn printer_writes_a_tree_built_by_hand() {
    let tree = Box::new(Expr::Binary(Binary::new(
        Box::new(Expr::Unary(Unary::new(token(TokenType::Minus, "-"), number("123")))),
        token(TokenType::Star, "*"),
        Box::new(Expr::Grouping(Grouping::new(number("45.67")))),
    )));
    assert_eq!(AstPrinter::new().print(tree), "(* (- 123) (group 45.67))");
}

#[test]
fn printer_writes_each_literal() {
    let mut printer = AstPrinter::new();
    assert_eq!(printer.print(Box::new(Expr::Literal(Literal::new(Value::Nil)))), "nil");
    assert_eq!(printer.print(Box::new(Expr::Literal(Literal::new(Value::Boolean(true))))), "true");
    assert_eq!(
        printer.print(Box::new(Expr::Literal(Literal::new(Value::Boolean(false))))),
        "false"
    );
    assert_eq!(
        printer.print(Box::new(Expr::Literal(Literal::new(Value::String("s t".to_string()))))),
        "s t"
    );
    assert_eq!(printer.print(number("0.5")), "0.5");
}

#[test]
fn printer_visits_each_kind_of_node() {
    let mut printer = AstPrinter::new();
    let binary = Binary::new(number("1"), token(TokenType::Plus, "+"), number("2"));
    assert_eq!(printer.visit_binary_expr(&binary).to_string(), "(+ 1 2)");
    assert_eq!(binary.accept(&mut printer).to_string(), "(+ 1 2)");
    let unary = Unary::new(token(TokenType::Bang, "!"), number("1"));
    assert_eq!(printer.visit_unary_expr(&unary).to_string(), "(! 1)");
    assert_eq!(unary.accept(&mut printer).to_string(), "(! 1)");
    let grouping = Grouping::new(number("1"));
    assert_eq!(printer.visit_grouping_expr(&grouping).to_string(), "(group 1)");
    assert_eq!(grouping.accept(&mut printer).to_string(), "(group 1)");
    let literal = Literal::new(Value::Nil);
    assert_eq!(printer.visit_literal_expr(&literal).to_string(), "nil");
    assert_eq!(literal.accept(&mut printer).to_string(), "nil");
}

#[test]
fn children_come_from_left_to_right() {
    let binary = Binary::new(number("1"), token(TokenType::Plus, "+"), number("2"));
    let children = binary.children();
    assert_eq!(children.len(), 2);
    assert!(matches!(children[0], Expr::Literal(l) if l.value.to_string() == "1"));
    assert!(matches!(children[1], Expr::Literal(l) if l.value.to_string() == "2"));
    let grouping = Grouping::new(number("3"));
    assert_eq!(grouping.children().len(), 1);
    let unary = Unary::new(token(TokenType::Minus, "-"), number("4"));
    let children = unary.children();
    assert_eq!(children.len(), 1);
    assert!(matches!(children[0], Expr::Literal(l) if l.value.to_string() == "4"));
    assert!(Literal::new(Value::Nil).children().is_empty());
    let whole = Expr::Binary(binary);
    assert_eq!(whole.children().len(), 2);
    assert!(Expr::Literal(Literal::new(Value::Nil)).children().is_empty());
}

#[test]
fn parsed_tree_has_the_expected_shape() {
    let mut parser = Parser::new(tokens_of("1 + 2 * 3"));
    let expr = parser.parse().expect("an expression");
    match *expr {
        Expr::Binary(ref sum) => {
            assert_eq!(sum.operator.token_type, TokenType::Plus);
            assert_eq!(sum.operator.lexeme, "+");
            assert!(matches!(&*sum.left, Expr::Literal(l) if l.value.to_string() == "1"));
            match &*sum.right {
                Expr::Binary(product) => {
                    assert_eq!(product.operator.token_type, TokenType::Star);
                    assert!(
                        matches!(&*product.left, Expr::Literal(l) if l.value.to_string() == "2")
                    );
                    assert!(
                        matches!(&*product.right, Expr::Literal(l) if l.value.to_string() == "3")
                    );
                },
                _ => panic!("the right operand is a product"),
            }
        },
        _ => panic!("the root is a sum"),
    }
}

#[test]
fn run_prints_an_expression() {
    let report = run("1 + 2 * 3");
    assert_eq!(report.output.as_deref(), Some("(+ 1 (* 2 3))"));
    assert!(report.diagnostics.is_empty());
}

#[test]
fn run_reports_a_syntax_error_and_prints_nothing() {
    let report = run("(1 + 2");
    assert_eq!(report.output, None);
    assert_eq!(report.diagnostics.len(), 1);
    assert_eq!(report.diagnostics[0].kind, ErrorKind::Syntax);
    assert_eq!(report.diagnostics[0].place, "at end");
}

#[test]
fn run_does_not_parse_after_a_lexical_error() {
    let report = run("1 + @ \"open");
    assert_eq!(report.output, None);
    assert_eq!(report.diagnostics.len(), 2);
    assert_eq!(report.diagnostics[0].kind, ErrorKind::Lexical);
    assert_eq!(report.diagnostics[0].message, "Caracter desconocido");
    assert_eq!(report.diagnostics[1].kind, ErrorKind::Lexical);
    assert_eq!(report.diagnostics[1].message, "String sin cerrar");
}

#[test]
fn run_skips_comments_and_lines() {
    let report = run("// sum\n1 +\n2 // done");
    assert_eq!(report.output.as_deref(), Some("(+ 1 2)"));
    assert!(report.diagnostics.is_empty());
}
