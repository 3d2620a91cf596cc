use crate::text::{decimal, push_decimal};
use crate::token::{Token, TokenType, TokenView};
use vstd::prelude::*;

verus! {

/// The two kinds of error that the front end reports.
#[derive(Debug, Clone, Copy, PartialEq, Eq, Structural)]
pub enum ErrorKind {
    /// An unknown character or an unterminated string.
    Lexical,
    /// An unexpected or missing token.
    Syntax,
}

/// One line-tagged error message.
#[derive(Debug)]
pub struct Diagnostic {
    pub kind: ErrorKind,
    pub line: usize,
    /// Where in the line the error lies: empty for a lexical error.
    pub place: String,
    pub message: String,
}

/// What a `Diagnostic` holds, as mathematical data.
pub struct DiagnosticView {
    pub kind: ErrorKind,
    pub line: usize,
    pub place: Seq<char>,
    pub message: Seq<char>,
}

impl View for Diagnostic {
    type V = DiagnosticView;

    open spec fn view(&self) -> DiagnosticView {
        DiagnosticView {
            kind: self.kind,
            line: self.line,
            place: self.place@,
            message: self.message@,
        }
    }
}

impl Clone for Diagnostic {
    fn clone(&self) -> (r: Self)
        ensures
            r@ == self@,
    {
        Diagnostic {
            kind: self.kind,
            line: self.line,
            place: self.place.clone(),
            message: self.message.clone(),
        }
    }
}

/// The views of a sequence of diagnostics.
pub open spec fn diagnostic_views(ds: Seq<Diagnostic>) -> Seq<DiagnosticView> {
    ds.map_values(|d: Diagnostic| d@)
}

/// The lexical error with the given message on the given line.
pub open spec fn lexical_error(line: usize, message: Seq<char>) -> DiagnosticView {
    DiagnosticView { kind: ErrorKind::Lexical, line, place: Seq::<char>::empty(), message }
}

/// How a syntax error names the token it lies at.
pub open spec fn place_of(token: TokenView) -> Seq<char> {
    if token.token_type == TokenType::EOF {
        "at end"@
    } else {
        "at '"@ + token.lexeme + "'"@
    }
}

/// The syntax error with the given message at the given token.
pub open spec fn syntax_error(token: TokenView, message: Seq<char>) -> DiagnosticView {
    DiagnosticView { kind: ErrorKind::Syntax, line: token.line, place: place_of(token), message }
}

/// The line of text that reports `d`.
pub open spec fn rendered(d: DiagnosticView) -> Seq<char> {
    "["@ + decimal(d.line as nat) + "] | Error "@ + d.place + ": "@ + d.message
}

impl Diagnostic {
    /// The line of text that reports this diagnostic:
    /// `[<line>] | Error <place>: <message>`.
    pub fn render(&self) -> (s: String)
        ensures
            s@ == rendered(self@),
    {
        let mut s = String::new();
        s.push('[');
        push_decimal(&mut s, self.line);
        s.append("] | Error ");
        s.append(self.place.as_str());
        s.append(": ");
        s.append(self.message.as_str());
        proof {
            reveal_strlit("[");
        }
        s
    }
}

/// Records a lexical error on `line`. `place` says where in the line it
/// lies; the scanner leaves it empty.
pub fn report_error(sink: &mut Vec<Diagnostic>, line: usize, place: &str, message: &str)
    ensures
        diagnostic_views(final(sink)@) == diagnostic_views(old(sink)@).push(
            DiagnosticView { kind: ErrorKind::Lexical, line, place: place@, message: message@ },
        ),
{
    let d = Diagnostic {
        kind: ErrorKind::Lexical,
        line,
        place: place.to_owned(),
        message: message.to_owned(),
    };
    sink.push(d);
}

/// Records a syntax error at `token`: "at end" where the token ends the
/// input, else at its lexeme.
pub fn error(sink: &mut Vec<Diagnostic>, token: &Token, message: &str)
    ensures
        diagnostic_views(final(sink)@) == diagnostic_views(old(sink)@).push(
            syntax_error(token@, message@),
        ),
{
    let place = if token.token_type == TokenType::EOF {
        "at end".to_owned()
    } else {
        let mut p = "at '".to_owned();
        p.append(token.lexeme.as_str());
        p.append("'");
        p
    };
    let d = Diagnostic {
        kind: ErrorKind::Syntax,
        line: token.line,
        place,
        message: message.to_owned(),
    };
    sink.push(d);
}

} // verus!
