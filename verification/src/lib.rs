use vstd::prelude::*;

pub mod ast_printer;
pub mod diagnostics;
pub mod expr;
pub mod parser;
pub mod scanner;
pub mod text;
pub mod token;

use crate::ast_printer::{rendered, AstPrinter};
use crate::diagnostics::{diagnostic_views, syntax_error, Diagnostic, DiagnosticView};
use crate::parser::{parse_expression, Outcome, Parser};
use crate::scanner::{lemma_scan_ends_once, scan, Scanner};

verus! {

/// What running a source text comes to: the expression in prefix form, or
/// the errors that stood in the way.
pub struct Report {
    pub output: Option<String>,
    pub diagnostics: Vec<Diagnostic>,
}

/// The text that running `src` gives: the prefix form of the expression
/// that the tokens of `src` begin with, where the scan reports no error and
/// the parse succeeds.
pub open spec fn output_of(src: Seq<char>) -> Option<Seq<char>> {
    if scan(src).errors.len() > 0 {
        None
    } else {
        match parse_expression(scan(src).tokens, 0) {
            Outcome::Parsed { expr, used } => Some(rendered(expr)),
            Outcome::Failed { at, message } => None,
        }
    }
}

/// The errors that running `src` reports: those of the scan, or, where it
/// reports none, the one of the parse, if it fails.
pub open spec fn errors_of(src: Seq<char>) -> Seq<DiagnosticView> {
    if scan(src).errors.len() > 0 {
        scan(src).errors
    } else {
        match parse_expression(scan(src).tokens, 0) {
            Outcome::Parsed { expr, used } => Seq::empty(),
            Outcome::Failed { at, message } => seq![syntax_error(scan(src).tokens[at], message)],
        }
    }
}

/// Scans `content`, parses the expression it holds and writes it in prefix
/// form. A scan with errors is not parsed.
pub fn run(content: &str) -> (r: Report)
    ensures
        match r.output {
            Some(text) => output_of(content@) == Some(text@),
            None => output_of(content@) is None,
        },
        diagnostic_views(r.diagnostics@) == errors_of(content@),
{
    let mut scanner = Scanner::new(content.to_owned());
    scanner.scan_tokens();
    let failed = scanner.had_error();
    let (tokens, lexical) = scanner.finish();
    proof {
        lemma_scan_ends_once(content@, 0, 1);
    }
    if failed {
        return Report { output: None, diagnostics: lexical };
    }
    let mut parser = Parser::new(tokens);
    match parser.parse() {
        Ok(expr) => {
            let text = AstPrinter::new().print(expr);
            let diagnostics = parser.finish();
            Report { output: Some(text), diagnostics }
        },
        Err(_) => {
            let diagnostics = parser.finish();
            Report { output: None, diagnostics }
        },
    }
}

} // verus!
