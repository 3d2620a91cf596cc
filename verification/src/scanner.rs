use crate::diagnostics::{diagnostic_views, lexical_error, report_error, Diagnostic, DiagnosticView};
use crate::text::{
    canonical_numeral, chars_of, continues_identifier, is_ascii_digit, is_digit,
    is_identifier_part, is_identifier_start, lemma_run_covers, lemma_run_ends, lemma_run_goes_on,
    lemma_run_stops, lemma_run_within, numeral_text, remaining, run_len, starts_identifier, text_of, trimmed,
    trimmed_text,
};
use crate::token::{
    end_of_input, ends_input, token_views, Token, TokenType, TokenView, Value, ValueView,
};
use vstd::prelude::*;

verus! {

/// The test for a decimal digit, as a value.
pub open spec fn digit() -> spec_fn(char) -> bool {
    |c: char| is_digit(c)
}

/// The test for a character that continues an identifier, as a value.
pub open spec fn identifier_part() -> spec_fn(char) -> bool {
    |c: char| continues_identifier(c)
}

/// The test for a character that does not end a line, as a value.
pub open spec fn not_newline() -> spec_fn(char) -> bool {
    |c: char| c != '\n'
}

/// The test for a character that does not close a string, as a value.
pub open spec fn not_quote() -> spec_fn(char) -> bool {
    |c: char| c != '"'
}

/// The kind of the punctuation mark `c` that is a token by itself wherever
/// it stands.
pub open spec fn punctuation(c: char) -> Option<TokenType> {
    if c == '(' {
        Some(TokenType::LeftParen)
    } else if c == ')' {
        Some(TokenType::RightParen)
    } else if c == '{' {
        Some(TokenType::LeftBrace)
    } else if c == '}' {
        Some(TokenType::RightBrace)
    } else if c == ',' {
        Some(TokenType::Comma)
    } else if c == '.' {
        Some(TokenType::Dot)
    } else if c == '-' {
        Some(TokenType::Minus)
    } else if c == '+' {
        Some(TokenType::Plus)
    } else if c == ';' {
        Some(TokenType::Semicolon)
    } else if c == '*' {
        Some(TokenType::Star)
    } else {
        None
    }
}

/// The kind of the operator that begins with `c`, alone or followed by `=`.
pub open spec fn operator(c: char, with_equal: bool) -> Option<TokenType> {
    if c == '!' {
        Some(if with_equal { TokenType::BangEqual } else { TokenType::Bang })
    } else if c == '=' {
        Some(if with_equal { TokenType::EqualEqual } else { TokenType::Equal })
    } else if c == '<' {
        Some(if with_equal { TokenType::LessEqual } else { TokenType::Less })
    } else if c == '>' {
        Some(if with_equal { TokenType::GreaterEqual } else { TokenType::Greater })
    } else {
        None
    }
}

/// The reserved words, each with its kind.
pub open spec fn keyword_table() -> Seq<(Seq<char>, TokenType)> {
    seq![
        ("and"@, TokenType::And),
        ("class"@, TokenType::Class),
        ("else"@, TokenType::Else),
        ("false"@, TokenType::False),
        ("for"@, TokenType::For),
        ("fun"@, TokenType::Fun),
        ("if"@, TokenType::If),
        ("nil"@, TokenType::Nil),
        ("or"@, TokenType::Or),
        ("print"@, TokenType::Print),
        ("return"@, TokenType::Return),
        ("super"@, TokenType::Super),
        ("this"@, TokenType::This),
        ("true"@, TokenType::True),
        ("var"@, TokenType::Var),
        ("while"@, TokenType::While),
    ]
}

/// The kind that the first entry for `text` at or after index `from` of
/// `table` gives.
pub open spec fn lookup(table: Seq<(Seq<char>, TokenType)>, text: Seq<char>, from: int) -> Option<
    TokenType,
>
    decreases table.len() - from,
{
    if from < 0 || from >= table.len() {
        None
    } else if table[from].0 == text {
        Some(table[from].1)
    } else {
        lookup(table, text, from + 1)
    }
}

/// The kind of the reserved word `text`, if it is one.
pub open spec fn keyword(text: Seq<char>) -> Option<TokenType> {
    lookup(keyword_table(), text, 0)
}

/// A keyword table as mathematical data.
pub open spec fn table_view(table: Seq<(String, TokenType)>) -> Seq<(Seq<char>, TokenType)> {
    table.map_values(|e: (String, TokenType)| (e.0@, e.1))
}

/// The message for a character that begins no token.
pub open spec fn unknown_character() -> Seq<char> {
    "Caracter desconocido"@
}

/// The message for a string that no quote closes.
pub open spec fn unterminated_string() -> Seq<char> {
    "String sin cerrar"@
}

/// The line counter `line` after `by` more newlines. It stops at the largest
/// number that the machine holds.
pub open spec fn bump(line: usize, by: nat) -> usize {
    if line + by <= usize::MAX {
        (line + by) as usize
    } else {
        usize::MAX
    }
}

/// The number of newlines among `s[from..to]`.
pub open spec fn newlines(s: Seq<char>, from: int, to: int) -> nat
    decreases to - from,
{
    if from < to && 0 < to <= s.len() {
        newlines(s, from, to - 1) + if s[to - 1] == '\n' {
            1nat
        } else {
            0nat
        }
    } else {
        0
    }
}

/// What scanning one lexeme does: it consumes `1 + extra` characters, leaves
/// the line counter at `line`, and emits at most one token and at most one
/// error.
pub struct Step {
    pub extra: nat,
    pub line: usize,
    pub tokens: Seq<TokenView>,
    pub errors: Seq<DiagnosticView>,
}

/// The step that consumes `1 + extra` characters and emits nothing.
pub open spec fn skip(extra: nat, line: usize) -> Step {
    Step { extra, line, tokens: Seq::empty(), errors: Seq::empty() }
}

/// The step that consumes `src[start..start + 1 + extra]` and emits it as a
/// token of kind `kind` without a literal.
pub open spec fn emit(src: Seq<char>, start: int, extra: nat, kind: TokenType, line: usize) -> Step {
    Step {
        extra,
        line,
        tokens: seq![
            TokenView {
                token_type: kind,
                lexeme: src.subrange(start, start + 1 + extra),
                literal: ValueView::Nil,
                line,
            },
        ],
        errors: Seq::empty(),
    }
}

/// The step at a `"`: the string runs to the next `"`. Its literal is the
/// text between the quotes without leading and trailing whitespace, and its
/// line is the one that the closing quote stands on. Where no quote follows,
/// the rest of the input is consumed and an error reported.
pub open spec fn string_step(src: Seq<char>, start: int, line: usize) -> Step {
    let body = run_len(src, start + 1, not_quote());
    let close = start + 1 + body;
    let line_after = bump(line, newlines(src, start + 1, close));
    if close >= src.len() {
        Step {
            extra: body,
            line: line_after,
            tokens: Seq::empty(),
            errors: seq![lexical_error(line_after, unterminated_string())],
        }
    } else {
        Step {
            extra: body + 1,
            line: line_after,
            tokens: seq![
                TokenView {
                    token_type: TokenType::String,
                    lexeme: src.subrange(start, close + 1),
                    literal: ValueView::String(trimmed(src.subrange(start + 1, close))),
                    line: line_after,
                },
            ],
            errors: Seq::empty(),
        }
    }
}

/// The step at a digit: the longest run of digits, and then, where a point
/// and at least one digit follow, the point and the longest run of digits
/// after it.
pub open spec fn number_step(src: Seq<char>, start: int, line: usize) -> Step {
    let more = run_len(src, start + 1, digit());
    let point = start + 1 + more;
    if point + 1 < src.len() && src[point] == '.' && is_digit(src[point + 1]) {
        let fraction = run_len(src, point + 1, digit());
        let end = point + 1 + fraction;
        Step {
            extra: more + 1 + fraction,
            line,
            tokens: seq![
                TokenView {
                    token_type: TokenType::Number,
                    lexeme: src.subrange(start, end),
                    literal: ValueView::Number(
                        canonical_numeral(src.subrange(start, point), src.subrange(point + 1, end)),
                    ),
                    line,
                },
            ],
            errors: Seq::empty(),
        }
    } else {
        Step {
            extra: more,
            line,
            tokens: seq![
                TokenView {
                    token_type: TokenType::Number,
                    lexeme: src.subrange(start, point),
                    literal: ValueView::Number(
                        canonical_numeral(src.subrange(start, point), Seq::<char>::empty()),
                    ),
                    line,
                },
            ],
            errors: Seq::empty(),
        }
    }
}

/// The step at a letter or `_`: the longest run of letters, digits and `_`,
/// which is a keyword where the table holds it and an identifier otherwise.
pub open spec fn identifier_step(src: Seq<char>, start: int, line: usize) -> Step {
    let more = run_len(src, start + 1, identifier_part());
    let kind = match keyword(src.subrange(start, start + 1 + more)) {
        Some(k) => k,
        None => TokenType::Identifier,
    };
    emit(src, start, more, kind, line)
}

/// The step that the scanner takes at index `start` of `src`, with the line
/// counter at `line`.
pub open spec fn step(src: Seq<char>, start: int, line: usize) -> Step
    recommends
        0 <= start < src.len(),
{
    let c = src[start];
    let followed_by = |d: char| start + 1 < src.len() && src[start + 1] == d;
    if punctuation(c) is Some {
        emit(src, start, 0, punctuation(c).unwrap(), line)
    } else if operator(c, false) is Some {
        if followed_by('=') {
            emit(src, start, 1, operator(c, true).unwrap(), line)
        } else {
            emit(src, start, 0, operator(c, false).unwrap(), line)
        }
    } else if c == '/' {
        if followed_by('/') {
            skip(1 + run_len(src, start + 2, not_newline()), line)
        } else {
            emit(src, start, 0, TokenType::Slash, line)
        }
    } else if c == ' ' || c == '\r' || c == '\t' {
        skip(0, line)
    } else if c == '\n' {
        skip(0, bump(line, 1))
    } else if c == '"' {
        string_step(src, start, line)
    } else if is_digit(c) {
        number_step(src, start, line)
    } else if starts_identifier(c) {
        identifier_step(src, start, line)
    } else {
        Step {
            extra: 0,
            line,
            tokens: Seq::empty(),
            errors: seq![lexical_error(line, unknown_character())],
        }
    }
}

/// What a scan yields: the tokens, the errors, and the line counter at the
/// end.
pub struct Scanned {
    pub tokens: Seq<TokenView>,
    pub errors: Seq<DiagnosticView>,
    pub line: usize,
}

/// The scan of `src` from index `start` on, with the line counter at `line`:
/// one step after the other to the end of the input, and then the token that
/// ends it.
pub open spec fn scan_from(src: Seq<char>, start: int, line: usize) -> Scanned
    decreases remaining(src.len(), start),
{
    if 0 <= start < src.len() {
        let s = step(src, start, line);
        let rest = scan_from(src, start + 1 + s.extra, s.line);
        Scanned { tokens: s.tokens + rest.tokens, errors: s.errors + rest.errors, line: rest.line }
    } else {
        Scanned { tokens: seq![end_of_input(line)], errors: Seq::empty(), line }
    }
}

/// The scan of the whole of `src`.
pub open spec fn scan(src: Seq<char>) -> Scanned {
    scan_from(src, 0, 1)
}

/// The table of reserved words.
pub fn load_keywords() -> (table: Vec<(String, TokenType)>)
    ensures
        table_view(table@) == keyword_table(),
{
    let mut keywords: Vec<(String, TokenType)> = Vec::new();
    keywords.push(("and".to_owned(), TokenType::And));
    keywords.push(("class".to_owned(), TokenType::Class));
    keywords.push(("else".to_owned(), TokenType::Else));
    keywords.push(("false".to_owned(), TokenType::False));
    keywords.push(("for".to_owned(), TokenType::For));
    keywords.push(("fun".to_owned(), TokenType::Fun));
    keywords.push(("if".to_owned(), TokenType::If));
    keywords.push(("nil".to_owned(), TokenType::Nil));
    keywords.push(("or".to_owned(), TokenType::Or));
    keywords.push(("print".to_owned(), TokenType::Print));
    keywords.push(("return".to_owned(), TokenType::Return));
    keywords.push(("super".to_owned(), TokenType::Super));
    keywords.push(("this".to_owned(), TokenType::This));
    keywords.push(("true".to_owned(), TokenType::True));
    keywords.push(("var".to_owned(), TokenType::Var));
    keywords.push(("while".to_owned(), TokenType::While));
    keywords
}

/// Looks `text` up in `table`.
pub fn find_keyword(table: &Vec<(String, TokenType)>, text: &String) -> (r: Option<TokenType>)
    ensures
        r == lookup(table_view(table@), text@, 0),
{
    let mut i: usize = 0;
    while i < table.len()
        invariant
            i <= table.len(),
            lookup(table_view(table@), text@, 0) == lookup(table_view(table@), text@, i as int),
        decreases table.len() - i,
    {
        if table[i].0 == *text {
            return Some(table[i].1);
        }
        i += 1;
    }
    None
}

/// A scanner over one source text.
pub struct Scanner {
    source: Vec<char>,
    tokens: Vec<Token>,
    diagnostics: Vec<Diagnostic>,
    start: usize,
    current: usize,
    line: usize,
    keywords: Vec<(String, TokenType)>,
    finished: bool,
}

impl Scanner {
    /// The source text.
    pub closed spec fn text(&self) -> Seq<char> {
        self.source@
    }

    /// The tokens emitted so far.
    pub closed spec fn emitted(&self) -> Seq<TokenView> {
        token_views(self.tokens@)
    }

    /// The errors reported so far.
    pub closed spec fn reported(&self) -> Seq<DiagnosticView> {
        diagnostic_views(self.diagnostics@)
    }

    /// The index of the next character to read.
    pub closed spec fn position(&self) -> int {
        self.current as int
    }

    /// The line that the next character stands on.
    pub closed spec fn line_number(&self) -> usize {
        self.line
    }

    /// Whether the scan has come to its end and the last token is emitted.
    pub closed spec fn done(&self) -> bool {
        self.finished
    }

    /// The scanner's invariant: the cursor lies within the source, the
    /// keyword table is the language's, and a finished scanner has read
    /// everything.
    pub closed spec fn wf(&self) -> bool {
        &&& self.start <= self.current <= self.source.len()
        &&& table_view(self.keywords@) == keyword_table()
        &&& self.finished ==> self.current == self.source.len()
    }

    /// Whether `self` differs from `before` in the cursor and the line
    /// counter at most.
    spec fn moved_from(&self, before: &Scanner) -> bool {
        &&& self.source == before.source
        &&& self.tokens == before.tokens
        &&& self.diagnostics == before.diagnostics
        &&& self.start == before.start
        &&& self.keywords == before.keywords
        &&& self.finished == before.finished
    }

    /// Whether `self` is `before` after the step `s` from `before.start`.
    spec fn stepped_from(&self, before: &Scanner, s: Step) -> bool {
        &&& self.wf()
        &&& self.source == before.source
        &&& self.start == before.start
        &&& self.finished == before.finished
        &&& self.current == before.start + 1 + s.extra
        &&& self.line == s.line
        &&& token_views(self.tokens@) =~= token_views(before.tokens@) + s.tokens
        &&& diagnostic_views(self.diagnostics@) =~= diagnostic_views(before.diagnostics@)
            + s.errors
    }

    /// A scanner at the beginning of `source`, on line 1.
    pub fn new(source: String) -> (r: Self)
        ensures
            r.wf(),
            r.text() == source@,
            r.emitted() == Seq::<TokenView>::empty(),
            r.reported() == Seq::<DiagnosticView>::empty(),
            r.position() == 0,
            r.line_number() == 1,
            !r.done(),
    {
        let r = Scanner {
            source: chars_of(source.as_str()),
            tokens: Vec::new(),
            diagnostics: Vec::new(),
            start: 0,
            current: 0,
            line: 1,
            keywords: load_keywords(),
            finished: false,
        };
        r
    }

    /// The tokens emitted so far.
    pub fn tokens(&self) -> (r: &[Token])
        ensures
            token_views(r@) == self.emitted(),
    {
        self.tokens.as_slice()
    }

    /// The errors reported so far.
    pub fn diagnostics(&self) -> (r: &[Diagnostic])
        ensures
            diagnostic_views(r@) == self.reported(),
    {
        self.diagnostics.as_slice()
    }

    /// Gives up the scanner for what it has emitted and reported.
    pub fn finish(self) -> (r: (Vec<Token>, Vec<Diagnostic>))
        ensures
            token_views(r.0@) == self.emitted(),
            diagnostic_views(r.1@) == self.reported(),
    {
        (self.tokens, self.diagnostics)
    }

    /// Whether any error was reported so far.
    pub fn had_error(&self) -> (r: bool)
        ensures
            r == (self.reported().len() > 0),
    {
        self.diagnostics.len() > 0
    }

    /// Scans what is left of the source and emits the token that ends it.
    /// A finished scanner is left as it is, so that it emits that token
    /// once.
    pub fn scan_tokens(&mut self) -> (r: &[Token])
        requires
            old(self).wf(),
        ensures
            final(self).wf(),
            final(self).text() == old(self).text(),
            final(self).done(),
            final(self).position() == old(self).text().len(),
            token_views(r@) == final(self).emitted(),
            old(self).done() ==> {
                &&& final(self).emitted() == old(self).emitted()
                &&& final(self).reported() == old(self).reported()
                &&& final(self).line_number() == old(self).line_number()
            },
            !old(self).done() ==> {
                let scanned = scan_from(
                    old(self).text(),
                    old(self).position(),
                    old(self).line_number(),
                );
                &&& final(self).emitted() == old(self).emitted() + scanned.tokens
                &&& final(self).reported() == old(self).reported() + scanned.errors
                &&& final(self).line_number() == scanned.line
            },
    {
        if !self.finished {
            let ghost src = self.source@;
            let ghost goal = scan_from(src, self.current as int, self.line);
            let ghost tokens0 = token_views(self.tokens@);
            let ghost errors0 = diagnostic_views(self.diagnostics@);
            while self.source.len() > self.current
                invariant
                    self.wf(),
                    !self.finished,
                    self.source@ == src,
                    tokens0 + goal.tokens == token_views(self.tokens@) + scan_from(
                        src,
                        self.current as int,
                        self.line,
                    ).tokens,
                    errors0 + goal.errors == diagnostic_views(self.diagnostics@) + scan_from(
                        src,
                        self.current as int,
                        self.line,
                    ).errors,
                    goal.line == scan_from(src, self.current as int, self.line).line,
                decreases self.source.len() - self.current,
            {
                self.start = self.current;
                self.scan_token();
            }
            let eof = Token {
                token_type: TokenType::EOF,
                lexeme: String::new(),
                literal: Value::Nil,
                line: self.line,
            };
            self.tokens.push(eof);
            self.finished = true;
        }
        self.tokens.as_slice()
    }

    /// Scans one lexeme, from the cursor on.
    fn scan_token(&mut self)
        requires
            old(self).wf(),
            !old(self).finished,
            old(self).start == old(self).current,
            old(self).current < old(self).source.len(),
        ensures
            final(self).stepped_from(
                old(self),
                step(old(self).source@, old(self).start as int, old(self).line),
            ),
    {
        let c = self.source[self.current];
        self.current += 1;
        match c {
            '(' => self.add_token(TokenType::LeftParen),
            ')' => self.add_token(TokenType::RightParen),
            '{' => self.add_token(TokenType::LeftBrace),
            '}' => self.add_token(TokenType::RightBrace),
            ',' => self.add_token(TokenType::Comma),
            '.' => self.add_token(TokenType::Dot),
            '-' => self.add_token(TokenType::Minus),
            '+' => self.add_token(TokenType::Plus),
            ';' => self.add_token(TokenType::Semicolon),
            '*' => self.add_token(TokenType::Star),
            '!' => {
                let kind = if self.check('=') {
                    TokenType::BangEqual
                } else {
                    TokenType::Bang
                };
                self.add_token(kind);
            },
            '=' => {
                let kind = if self.check('=') {
                    TokenType::EqualEqual
                } else {
                    TokenType::Equal
                };
                self.add_token(kind);
            },
            '<' => {
                let kind = if self.check('=') {
                    TokenType::LessEqual
                } else {
                    TokenType::Less
                };
                self.add_token(kind);
            },
            '>' => {
                let kind = if self.check('=') {
                    TokenType::GreaterEqual
                } else {
                    TokenType::Greater
                };
                self.add_token(kind);
            },
            '/' => {
                if self.check('/') {
                    let ghost from = self.current;
                    while self.peek() != '\n' && self.source.len() > self.current
                        invariant
                            self.wf(),
                            self.moved_from(old(self)),
                            self.line == old(self).line,
                            from <= self.current <= self.source.len(),
                            self.current + run_len(
                                self.source@,
                                self.current as int,
                                not_newline(),
                            ) == from + run_len(self.source@, from as int, not_newline()),
                        decreases self.source.len() - self.current,
                    {
                        proof {
                            lemma_run_goes_on(self.source@, self.current as int, not_newline());
                        }
                        self.current += 1;
                    }
                    proof {
                        lemma_run_ends(self.source@, self.current as int, not_newline());
                    }
                } else {
                    self.add_token(TokenType::Slash);
                }
            },
            ' ' => {},
            '\r' => {},
            '\t' => {},
            '\n' => self.next_line(),
            '"' => self.handle_string(),
            '0'..='9' => self.handle_number(),
            _ => {
                if is_identifier_start(c) {
                    self.identifier()
                } else {
                    let line = self.line;
                    report_error(&mut self.diagnostics, line, "", "Caracter desconocido");
                    proof {
                        reveal_strlit("");
                        assert(""@ =~= Seq::<char>::empty());
                    }
                }
            },
        }
    }

    /// Counts one more line.
    fn next_line(&mut self)
        ensures
            final(self).moved_from(old(self)),
            final(self).current == old(self).current,
            final(self).line == bump(old(self).line, 1),
    {
        if self.line < usize::MAX {
            self.line += 1;
        }
    }

    /// Reads a number whose first digit is consumed.
    fn handle_number(&mut self)
        requires
            old(self).wf(),
            old(self).start < old(self).source.len(),
            old(self).current == old(self).start + 1,
            is_digit(old(self).source@[old(self).start as int]),
        ensures
            final(self).stepped_from(
                old(self),
                number_step(old(self).source@, old(self).start as int, old(self).line),
            ),
    {
        let ghost src = self.source@;
        let ghost start = self.start as int;
        while is_ascii_digit(self.peek())
            invariant
                self.wf(),
                self.moved_from(old(self)),
                src == self.source@,
                start == self.start,
                self.line == old(self).line,
                start + 1 <= self.current <= self.source.len(),
                self.current + run_len(src, self.current as int, digit()) == start + 1 + run_len(
                    src,
                    start + 1,
                    digit(),
                ),
            decreases self.source.len() - self.current,
        {
            proof {
                lemma_run_goes_on(src, self.current as int, digit());
            }
            self.current += 1;
        }
        proof {
            lemma_run_ends(src, self.current as int, digit());
        }
        let point: usize = self.current;
        if self.peek() == '.' && is_ascii_digit(self.peek_next()) {
            self.current += 1;
            while is_ascii_digit(self.peek())
                invariant
                    self.wf(),
                    self.moved_from(old(self)),
                    src == self.source@,
                    self.line == old(self).line,
                    point + 1 <= self.current <= self.source.len(),
                    self.current + run_len(src, self.current as int, digit()) == point + 1
                        + run_len(src, point + 1, digit()),
                decreases self.source.len() - self.current,
            {
                proof {
                    lemma_run_goes_on(src, self.current as int, digit());
                }
                self.current += 1;
            }
            proof {
                lemma_run_ends(src, self.current as int, digit());
            }
        }
        let number = numeral_text(&self.source, self.start, point, self.current);
        self.add_token_literal(TokenType::Number, Value::Number(number));
    }

    /// Reads a string whose opening quote is consumed.
    fn handle_string(&mut self)
        requires
            old(self).wf(),
            old(self).start < old(self).source.len(),
            old(self).current == old(self).start + 1,
        ensures
            final(self).stepped_from(
                old(self),
                string_step(old(self).source@, old(self).start as int, old(self).line),
            ),
    {
        let ghost src = self.source@;
        let ghost start = self.start as int;
        while self.peek() != '"' && self.source.len() > self.current
            invariant
                self.wf(),
                self.moved_from(old(self)),
                src == self.source@,
                start == self.start,
                start + 1 <= self.current <= self.source.len(),
                self.current + run_len(src, self.current as int, not_quote()) == start + 1
                    + run_len(src, start + 1, not_quote()),
                self.line == bump(old(self).line, newlines(src, start + 1, self.current as int)),
            decreases self.source.len() - self.current,
        {
            proof {
                lemma_run_goes_on(src, self.current as int, not_quote());
            }
            if self.peek() == '\n' {
                self.next_line();
            }
            self.current += 1;
        }
        proof {
            lemma_run_ends(src, self.current as int, not_quote());
        }
        if self.source.len() <= self.current {
            let line = self.line;
            report_error(&mut self.diagnostics, line, "", "String sin cerrar");
            proof {
                reveal_strlit("");
                assert(""@ =~= Seq::<char>::empty());
            }
            return ;
        }
        self.current += 1;
        let text = trimmed_text(&self.source, self.start + 1, self.current - 1);
        self.add_token_literal(TokenType::String, Value::String(text));
    }

    /// Emits the lexeme just read as a token of kind `token_type` without a
    /// literal.
    fn add_token(&mut self, token_type: TokenType)
        requires
            old(self).wf(),
            old(self).start < old(self).current,
        ensures
            final(self).stepped_from(
                old(self),
                emit(
                    old(self).source@,
                    old(self).start as int,
                    (old(self).current - old(self).start - 1) as nat,
                    token_type,
                    old(self).line,
                ),
            ),
    {
        self.add_token_literal(token_type, Value::Nil);
    }

    /// Emits the lexeme just read as a token of kind `token_type` with the
    /// literal `literal`.
    fn add_token_literal(&mut self, token_type: TokenType, literal: Value)
        requires
            old(self).wf(),
            old(self).start < old(self).current,
        ensures
            final(self).stepped_from(
                old(self),
                Step {
                    extra: (old(self).current - old(self).start - 1) as nat,
                    line: old(self).line,
                    tokens: seq![
                        TokenView {
                            token_type,
                            lexeme: old(self).source@.subrange(
                                old(self).start as int,
                                old(self).current as int,
                            ),
                            literal: literal@,
                            line: old(self).line,
                        },
                    ],
                    errors: Seq::empty(),
                },
            ),
    {
        let lexeme = text_of(&self.source, self.start, self.current);
        let token = Token { token_type, lexeme, literal, line: self.line };
        self.tokens.push(token);
    }

    /// Consumes the next character where it is `expected`.
    fn check(&mut self, expected: char) -> (r: bool)
        requires
            old(self).wf(),
        ensures
            final(self).wf(),
            final(self).moved_from(old(self)),
            final(self).line == old(self).line,
            r == (old(self).current < old(self).source.len() && old(self).source@[old(
                self,
            ).current as int] == expected),
            final(self).current == if r {
                old(self).current + 1
            } else {
                old(self).current as int
            },
    {
        if self.source.len() <= self.current {
            return false;
        }
        if self.source[self.current] != expected {
            return false;
        }
        self.current += 1;
        true
    }

    /// The next character, or NUL at the end of the source.
    fn peek(&self) -> (c: char)
        ensures
            c == if self.current < self.source.len() {
                self.source@[self.current as int]
            } else {
                '\0'
            },
    {
        if self.source.len() <= self.current {
            return '\0';
        }
        self.source[self.current]
    }

    /// The character after the next, or NUL where the source ends before it.
    fn peek_next(&self) -> (c: char)
        ensures
            c == if self.current + 1 < self.source.len() {
                self.source@[self.current + 1]
            } else {
                '\0'
            },
    {
        if self.source.len() < 2 || self.current >= self.source.len() - 1 {
            return '\0';
        }
        self.source[self.current + 1]
    }

    /// Reads an identifier or a keyword whose first character is consumed.
    fn identifier(&mut self)
        requires
            old(self).wf(),
            old(self).start < old(self).source.len(),
            old(self).current == old(self).start + 1,
        ensures
            final(self).stepped_from(
                old(self),
                identifier_step(old(self).source@, old(self).start as int, old(self).line),
            ),
    {
        let ghost src = self.source@;
        let ghost start = self.start as int;
        while self.current < self.source.len() && is_identifier_part(self.source[self.current])
            invariant
                self.wf(),
                self.moved_from(old(self)),
                src == self.source@,
                start == self.start,
                self.line == old(self).line,
                start + 1 <= self.current <= self.source.len(),
                self.current + run_len(src, self.current as int, identifier_part()) == start + 1
                    + run_len(src, start + 1, identifier_part()),
            decreases self.source.len() - self.current,
        {
            proof {
                lemma_run_goes_on(src, self.current as int, identifier_part());
            }
            self.current += 1;
        }
        proof {
            lemma_run_ends(src, self.current as int, identifier_part());
        }
        let text = text_of(&self.source, self.start, self.current);
        match find_keyword(&self.keywords, &text) {
            Some(kind) => self.add_token(kind),
            None => self.add_token(TokenType::Identifier),
        }
    }
}

/// The kind of a punctuation mark that is one token where nothing follows
/// it.
pub open spec fn single_mark(c: char) -> Option<TokenType> {
    if c == '/' {
        Some(TokenType::Slash)
    } else {
        punctuation(c)
    }
}

/// No reserved word is of the kind that ends the input.
pub proof fn lemma_keyword_is_no_end(text: Seq<char>, from: int)
    ensures
        lookup(keyword_table(), text, from) != Some(TokenType::EOF),
    decreases keyword_table().len() - from,
{
    if 0 <= from < keyword_table().len() {
        lemma_keyword_is_no_end(text, from + 1);
    }
}

/// A step emits at most one token and at most one error, never both, and
/// never the token that ends the input.
pub proof fn lemma_step_emits(src: Seq<char>, start: int, line: usize)
    requires
        0 <= start < src.len(),
    ensures
        step(src, start, line).tokens.len() + step(src, start, line).errors.len() <= 1,
        forall|i: int|
            0 <= i < step(src, start, line).tokens.len() ==> (#[trigger] step(
                src,
                start,
                line,
            ).tokens[i]).token_type != TokenType::EOF,
{
    let more = run_len(src, start + 1, identifier_part());
    lemma_keyword_is_no_end(src.subrange(start, start + 1 + more), 0);
}

/// Every scan ends with the token that ends the input, on the line that the
/// scan ends on, and holds no other token of that kind.
pub proof fn lemma_scan_ends_once(src: Seq<char>, start: int, line: usize)
    ensures
        ends_input(scan_from(src, start, line).tokens),
        scan_from(src, start, line).tokens.last() == end_of_input(scan_from(src, start, line).line),
        forall|i: int|
            0 <= i < scan_from(src, start, line).tokens.len() - 1 ==> (#[trigger] scan_from(
                src,
                start,
                line,
            ).tokens[i]).token_type != TokenType::EOF,
    decreases remaining(src.len(), start),
{
    if 0 <= start < src.len() {
        let s = step(src, start, line);
        lemma_step_emits(src, start, line);
        lemma_scan_ends_once(src, start + 1 + s.extra, s.line);
    }
}

/// A punctuation mark alone is scanned as one token of its kind, followed by
/// the token that ends the input, without an error.
pub proof fn lemma_single_mark_alone(c: char)
    requires
        single_mark(c) is Some,
    ensures
        scan(seq![c]).tokens == seq![
            TokenView {
                token_type: single_mark(c).unwrap(),
                lexeme: seq![c],
                literal: ValueView::Nil,
                line: 1,
            },
            end_of_input(1),
        ],
        scan(seq![c]).errors == Seq::<DiagnosticView>::empty(),
{
    let src = seq![c];
    reveal_with_fuel(scan_from, 3);
    assert(src.subrange(0, 1) =~= src);
}

/// `!`, `=`, `<` and `>` alone are scanned as the operator of one character.
pub proof fn lemma_operator_alone(c: char)
    requires
        operator(c, false) is Some,
    ensures
        scan(seq![c]).tokens == seq![
            TokenView {
                token_type: operator(c, false).unwrap(),
                lexeme: seq![c],
                literal: ValueView::Nil,
                line: 1,
            },
            end_of_input(1),
        ],
        scan(seq![c]).errors == Seq::<DiagnosticView>::empty(),
{
    let src = seq![c];
    reveal_with_fuel(scan_from, 3);
    assert(src.subrange(0, 1) =~= src);
}

/// `!=`, `==`, `<=` and `>=` are scanned as the operator of two characters.
pub proof fn lemma_operator_with_equal(c: char)
    requires
        operator(c, true) is Some,
    ensures
        scan(seq![c, '=']).tokens == seq![
            TokenView {
                token_type: operator(c, true).unwrap(),
                lexeme: seq![c, '='],
                literal: ValueView::Nil,
                line: 1,
            },
            end_of_input(1),
        ],
        scan(seq![c, '=']).errors == Seq::<DiagnosticView>::empty(),
{
    let src = seq![c, '='];
    reveal_with_fuel(scan_from, 3);
    assert(src.subrange(0, 2) =~= src);
}

/// Wherever one of `!`, `=`, `<` and `>` stands, the scanner takes the
/// longest operator: the one of two characters where `=` follows, and the
/// one of one character where it does not.
pub proof fn lemma_operator_is_longest(src: Seq<char>, start: int, line: usize)
    requires
        0 <= start < src.len(),
        operator(src[start], false) is Some,
    ensures
        step(src, start, line) == emit(
            src,
            start,
            if start + 1 < src.len() && src[start + 1] == '=' {
                1nat
            } else {
                0nat
            },
            operator(src[start], start + 1 < src.len() && src[start + 1] == '=').unwrap(),
            line,
        ),
{
}

/// A comment emits nothing and leaves the line counter as it is: it ends
/// before the newline, or at the end of the input.
pub proof fn lemma_comment_is_skipped(src: Seq<char>, start: int, line: usize)
    requires
        0 <= start,
        start + 1 < src.len(),
        src[start] == '/',
        src[start + 1] == '/',
    ensures
        step(src, start, line) == skip(1 + run_len(src, start + 2, not_newline()), line),
        ({
            let end = start + 2 + run_len(src, start + 2, not_newline());
            end == src.len() || (end < src.len() && src[end] == '\n')
        }),
{
    lemma_run_stops(src, start + 2, not_newline());
    lemma_run_within(src, start + 2, not_newline());
}

/// A string that no quote closes takes the rest of the input with it: the
/// scan reports one error and emits nothing but the token that ends the
/// input.
pub proof fn lemma_unterminated_string(src: Seq<char>, start: int, line: usize)
    requires
        0 <= start < src.len(),
        src[start] == '"',
        forall|i: int| start < i < src.len() ==> src[i] != '"',
    ensures
        scan_from(src, start, line).errors == seq![
            lexical_error(scan_from(src, start, line).line, unterminated_string()),
        ],
        scan_from(src, start, line).tokens == seq![end_of_input(scan_from(src, start, line).line)],
        scan_from(src, start, line).line == bump(line, newlines(src, start + 1, src.len() as int)),
{
    lemma_run_covers(src, start + 1, not_quote());
    reveal_with_fuel(scan_from, 2);
}

} // verus!
