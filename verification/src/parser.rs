use crate::diagnostics::{diagnostic_views, error, syntax_error, Diagnostic, DiagnosticView};
use crate::expr::{Binary, Expr, ExprView, Grouping, Literal, Unary};
use crate::text::remaining;
use crate::token::{ends_input, token_views, Token, TokenType, TokenView, Value, ValueView};
use vstd::prelude::*;

verus! {

/// The four levels of binary operators, from the loosest to the tightest.
pub enum Level {
    Equality,
    Comparison,
    Term,
    Factor,
}

/// How tightly the operators of `level` bind.
pub open spec fn rank(level: Level) -> nat {
    match level {
        Level::Equality => 0,
        Level::Comparison => 1,
        Level::Term => 2,
        Level::Factor => 3,
    }
}

/// Whether a token of kind `kind` is an operator of `level`.
pub open spec fn binds(level: Level, kind: TokenType) -> bool {
    match level {
        Level::Equality => kind == TokenType::BangEqual || kind == TokenType::EqualEqual,
        Level::Comparison => kind == TokenType::Greater || kind == TokenType::GreaterEqual || kind
            == TokenType::Less || kind == TokenType::LessEqual,
        Level::Term => kind == TokenType::Minus || kind == TokenType::Plus,
        Level::Factor => kind == TokenType::Slash || kind == TokenType::Star,
    }
}

/// Whether a token of kind `kind` is a prefix operator.
pub open spec fn prefixes(kind: TokenType) -> bool {
    kind == TokenType::Bang || kind == TokenType::Minus
}

/// Whether a statement may begin with a token of kind `kind`.
pub open spec fn starts_statement(kind: TokenType) -> bool {
    kind == TokenType::Class || kind == TokenType::Fun || kind == TokenType::Var || kind
        == TokenType::For || kind == TokenType::If || kind == TokenType::While || kind
        == TokenType::Print || kind == TokenType::Return
}

/// The kind of the token at index `pos` of `ts`. Beyond the last token the
/// input has ended.
pub open spec fn kind_at(ts: Seq<TokenView>, pos: int) -> TokenType {
    if 0 <= pos < ts.len() {
        ts[pos].token_type
    } else {
        TokenType::EOF
    }
}

/// The message where an expression must begin and none does.
pub open spec fn expect_expression() -> Seq<char> {
    "Expect expression."@
}

/// The message where a parenthesis is left open.
pub open spec fn expect_paren() -> Seq<char> {
    "Expect ')' after expression."@
}

/// What parsing from some index of the tokens comes to: an expression made
/// of the next `used` tokens, or an error at the token of index `at`.
pub enum Outcome {
    Parsed { expr: ExprView, used: nat },
    Failed { at: int, message: Seq<char> },
}

/// `outcome` as seen from `by` tokens earlier.
pub open spec fn after(by: nat, outcome: Outcome) -> Outcome {
    match outcome {
        Outcome::Parsed { expr, used } => Outcome::Parsed { expr, used: by + used },
        Outcome::Failed { at, message } => Outcome::Failed { at, message },
    }
}

/// `primary → NUMBER | STRING | "true" | "false" | "nil" | "(" expression ")"`
pub open spec fn parse_primary(ts: Seq<TokenView>, pos: int) -> Outcome
    decreases remaining(ts.len(), pos), 0nat,
{
    let kind = kind_at(ts, pos);
    if kind == TokenType::False {
        Outcome::Parsed { expr: ExprView::Literal { value: ValueView::Boolean(false) }, used: 1 }
    } else if kind == TokenType::True {
        Outcome::Parsed { expr: ExprView::Literal { value: ValueView::Boolean(true) }, used: 1 }
    } else if kind == TokenType::Nil {
        Outcome::Parsed { expr: ExprView::Literal { value: ValueView::Nil }, used: 1 }
    } else if kind == TokenType::Number || kind == TokenType::String {
        Outcome::Parsed { expr: ExprView::Literal { value: ts[pos].literal }, used: 1 }
    } else if kind == TokenType::LeftParen {
        match parse_binary(ts, Level::Equality, pos + 1) {
            Outcome::Parsed { expr, used } => {
                if kind_at(ts, pos + 1 + used) == TokenType::RightParen {
                    Outcome::Parsed {
                        expr: ExprView::Grouping { expression: Box::new(expr) },
                        used: used + 2,
                    }
                } else {
                    Outcome::Failed { at: pos + 1 + used, message: expect_paren() }
                }
            },
            Outcome::Failed { at, message } => Outcome::Failed { at, message },
        }
    } else {
        Outcome::Failed { at: pos, message: expect_expression() }
    }
}

/// `unary → ("!" | "-") unary | primary`
pub open spec fn parse_unary(ts: Seq<TokenView>, pos: int) -> Outcome
    decreases remaining(ts.len(), pos), 1nat,
{
    if prefixes(kind_at(ts, pos)) {
        match parse_unary(ts, pos + 1) {
            Outcome::Parsed { expr, used } => Outcome::Parsed {
                expr: ExprView::Unary { operator: ts[pos], right: Box::new(expr) },
                used: used + 1,
            },
            Outcome::Failed { at, message } => Outcome::Failed { at, message },
        }
    } else {
        parse_primary(ts, pos)
    }
}

/// An operand of the operators of `level`: an expression of the next tighter
/// level.
pub open spec fn parse_operand(ts: Seq<TokenView>, level: Level, pos: int) -> Outcome
    decreases remaining(ts.len(), pos), 2 * (4 - rank(level)),
{
    match level {
        Level::Equality => parse_binary(ts, Level::Comparison, pos),
        Level::Comparison => parse_binary(ts, Level::Term, pos),
        Level::Term => parse_binary(ts, Level::Factor, pos),
        Level::Factor => parse_unary(ts, pos),
    }
}

/// What follows the operand `left` of `level`, which ends before index
/// `pos`: any number of times an operator of the level and another operand,
/// each joined to what stands on its left.
pub open spec fn parse_rest(ts: Seq<TokenView>, level: Level, left: ExprView, pos: int) -> Outcome
    decreases remaining(ts.len(), pos), 2 * (4 - rank(level)),
{
    if binds(level, kind_at(ts, pos)) {
        match parse_operand(ts, level, pos + 1) {
            Outcome::Parsed { expr: right, used } => after(
                1 + used,
                parse_rest(
                    ts,
                    level,
                    ExprView::Binary {
                        left: Box::new(left),
                        operator: ts[pos],
                        right: Box::new(right),
                    },
                    pos + 1 + used,
                ),
            ),
            Outcome::Failed { at, message } => Outcome::Failed { at, message },
        }
    } else {
        Outcome::Parsed { expr: left, used: 0 }
    }
}

/// `level → operand (operator operand)*`, joined from the left.
pub open spec fn parse_binary(ts: Seq<TokenView>, level: Level, pos: int) -> Outcome
    decreases remaining(ts.len(), pos), 2 * (4 - rank(level)) + 1,
{
    match parse_operand(ts, level, pos) {
        Outcome::Parsed { expr, used } => after(used, parse_rest(ts, level, expr, pos + used)),
        Outcome::Failed { at, message } => Outcome::Failed { at, message },
    }
}

/// `expression → equality`
pub open spec fn parse_expression(ts: Seq<TokenView>, pos: int) -> Outcome {
    parse_binary(ts, Level::Equality, pos)
}

/// Where recovery from index `pos` stops: at the end of the input, behind a
/// semicolon, or before a token that may begin a statement.
pub open spec fn boundary(ts: Seq<TokenView>, pos: int) -> bool {
    ||| kind_at(ts, pos) == TokenType::EOF
    ||| kind_at(ts, pos - 1) == TokenType::Semicolon
    ||| starts_statement(kind_at(ts, pos))
}

/// The failure of a parse. What went wrong is in the parser's diagnostics.
#[derive(Debug)]
pub struct ParserError {}

impl ParserError {
    pub fn new() -> (r: Self)
        ensures
            r == (ParserError {  }),
    {
        Self {  }
    }
}

/// A recursive-descent parser over one token sequence.
pub struct Parser {
    tokens: Vec<Token>,
    current: usize,
    diagnostics: Vec<Diagnostic>,
}

impl Parser {
    /// The tokens that the parser reads.
    pub closed spec fn input(&self) -> Seq<TokenView> {
        token_views(self.tokens@)
    }

    /// The index of the next token to read.
    pub closed spec fn position(&self) -> int {
        self.current as int
    }

    /// The errors reported so far.
    pub closed spec fn reported(&self) -> Seq<DiagnosticView> {
        diagnostic_views(self.diagnostics@)
    }

    /// The parser's invariant: the last token ends the input, and the cursor
    /// is at a token.
    pub closed spec fn wf(&self) -> bool {
        &&& ends_input(token_views(self.tokens@))
        &&& self.current < self.tokens.len()
    }

    /// Whether `self` is `before` after a parse that came to `outcome` and
    /// gave `result`: a parsed expression is returned, with the cursor behind
    /// its tokens and nothing reported; a failure is reported once, at the
    /// token where the cursor is left.
    pub open spec fn follows(
        &self,
        before: &Parser,
        outcome: Outcome,
        result: Result<Box<Expr>, ParserError>,
    ) -> bool {
        &&& self.wf()
        &&& self.input() == before.input()
        &&& match outcome {
            Outcome::Parsed { expr, used } => {
                &&& result is Ok
                &&& result->Ok_0@ == expr
                &&& self.position() == before.position() + used
                &&& self.reported() == before.reported()
            },
            Outcome::Failed { at, message } => {
                &&& result is Err
                &&& self.position() == at
                &&& self.reported() == before.reported().push(
                    syntax_error(before.input()[at], message),
                )
            },
        }
    }

    /// Whether `self` differs from `before` in the cursor at most.
    pub open spec fn moved_from(&self, before: &Parser) -> bool {
        &&& self.wf()
        &&& self.input() == before.input()
        &&& self.reported() == before.reported()
    }

    /// A parser without tokens. It cannot parse: there is no token that ends
    /// its input.
    pub fn default() -> (r: Self)
        ensures
            r.input() == Seq::<TokenView>::empty(),
            r.position() == 0,
            r.reported() == Seq::<DiagnosticView>::empty(),
            !r.wf(),
    {
        let r = Self { tokens: Vec::new(), current: 0, diagnostics: Vec::new() };
        r
    }

    /// A parser at the first of `tokens`.
    pub fn new(tokens: Vec<Token>) -> (r: Self)
        ensures
            r.input() == token_views(tokens@),
            r.position() == 0,
            r.reported() == Seq::<DiagnosticView>::empty(),
            r.wf() == ends_input(token_views(tokens@)),
    {
        let r = Self { tokens, current: 0, diagnostics: Vec::new() };
        r
    }

    /// Whether the parser can parse: its last token ends the input and its
    /// cursor is at a token.
    pub fn is_well_formed(&self) -> (r: bool)
        ensures
            r == self.wf(),
    {
        let n = self.tokens.len();
        n > 0 && self.tokens[n - 1].token_type == TokenType::EOF && self.current < n
    }

    /// Gives up the parser for what it has reported.
    pub fn finish(self) -> (r: Vec<Diagnostic>)
        ensures
            diagnostic_views(r@) == self.reported(),
    {
        self.diagnostics
    }

    /// The errors reported so far.
    pub fn diagnostics(&self) -> (r: &[Diagnostic])
        ensures
            diagnostic_views(r@) == self.reported(),
    {
        self.diagnostics.as_slice()
    }

    /// Consumes the next token where its kind is among `tok_types`.
    fn equals(&mut self, tok_types: &[TokenType]) -> (r: bool)
        requires
            old(self).wf(),
        ensures
            final(self).moved_from(old(self)),
            r == (kind_at(old(self).input(), old(self).position()) != TokenType::EOF
                && tok_types@.contains(kind_at(old(self).input(), old(self).position()))),
            final(self).position() == if r {
                old(self).position() + 1
            } else {
                old(self).position()
            },
    {
        let mut i: usize = 0;
        while i < tok_types.len()
            invariant
                i <= tok_types.len(),
                self.wf(),
                *self == *old(self),
                forall|j: int|
                    0 <= j < i ==> !(kind_at(self.input(), self.position()) != TokenType::EOF
                        && tok_types@[j] == kind_at(self.input(), self.position())),
            decreases tok_types.len() - i,
        {
            if self.check(&tok_types[i]) {
                self.advance();
                return true;
            }
            i += 1;
        }
        false
    }

    /// Whether the next token is of kind `tok_type` and does not end the
    /// input.
    fn check(&self, tok_type: &TokenType) -> (r: bool)
        requires
            self.wf(),
        ensures
            r == (kind_at(self.input(), self.position()) != TokenType::EOF && kind_at(
                self.input(),
                self.position(),
            ) == *tok_type),
    {
        if self.is_at_end() {
            return false;
        }
        self.peek().token_type == *tok_type
    }

    /// Moves the cursor over the next token, unless it ends the input, and
    /// returns the token behind the cursor.
    fn advance(&mut self) -> (r: Token)
        requires
            old(self).wf(),
        ensures
            final(self).moved_from(old(self)),
            final(self).position() == if kind_at(old(self).input(), old(self).position())
                == TokenType::EOF {
                old(self).position()
            } else {
                old(self).position() + 1
            },
            r@ == final(self).input()[if final(self).position() > 0 {
                final(self).position() - 1
            } else {
                0
            }],
    {
        if !self.is_at_end() {
            self.current += 1
        }
        self.previous()
    }

    /// Whether the next token ends the input.
    fn is_at_end(&self) -> (r: bool)
        requires
            self.wf(),
        ensures
            r == (kind_at(self.input(), self.position()) == TokenType::EOF),
    {
        self.peek().token_type == TokenType::EOF
    }

    /// The next token.
    fn peek(&self) -> (r: Token)
        requires
            self.wf(),
        ensures
            r@ == self.input()[self.position()],
    {
        self.tokens[self.current].clone()
    }

    /// The token behind the cursor; the first token where the cursor has not
    /// moved.
    fn previous(&self) -> (r: Token)
        requires
            self.wf(),
        ensures
            r@ == self.input()[if self.position() > 0 {
                self.position() - 1
            } else {
                0
            }],
    {
        if self.current > 0 {
            self.tokens[self.current - 1].clone()
        } else {
            self.tokens[0].clone()
        }
    }

    /// Reports a syntax error at `token`.
    fn error(&mut self, token: Token, message: &str) -> (r: ParserError)
        requires
            old(self).wf(),
        ensures
            final(self).wf(),
            final(self).input() == old(self).input(),
            final(self).position() == old(self).position(),
            final(self).reported() == old(self).reported().push(syntax_error(token@, message@)),
    {
        error(&mut self.diagnostics, &token, message);
        ParserError::new()
    }

    /// Consumes the next token where it is of kind `tok_type`, and fails
    /// where it is not.
    fn consume(&mut self, tok_type: TokenType) -> (r: Result<Token, ()>)
        requires
            old(self).wf(),
        ensures
            final(self).moved_from(old(self)),
            r is Ok == (tok_type != TokenType::EOF && kind_at(
                old(self).input(),
                old(self).position(),
            ) == tok_type),
            r is Ok ==> final(self).position() == old(self).position() + 1 && r->Ok_0@
                == old(self).input()[old(self).position()],
            r is Err ==> final(self).position() == old(self).position(),
    {
        if self.check(&tok_type) {
            return Ok(self.advance());
        }
        Err(())
    }

    /// Recovers from an error: skips the next token and then all tokens up
    /// to the first boundary, which is the end of the input, the token behind
    /// a semicolon, or a token that may begin a statement.
    pub fn synchronize(&mut self)
        requires
            old(self).wf(),
        ensures
            final(self).moved_from(old(self)),
            kind_at(old(self).input(), old(self).position()) == TokenType::EOF
                ==> final(self).position() == old(self).position(),
            kind_at(old(self).input(), old(self).position()) != TokenType::EOF ==> {
                &&& old(self).position() < final(self).position()
                &&& boundary(final(self).input(), final(self).position())
                &&& forall|p: int|
                    old(self).position() < p < final(self).position() ==> !boundary(
                        final(self).input(),
                        p,
                    )
            },
    {
        let ghost first = self.current + 1;
        self.advance();
        while !self.is_at_end()
            invariant
                self.moved_from(old(self)),
                kind_at(old(self).input(), old(self).position()) == TokenType::EOF
                    ==> self.position() == old(self).position(),
                kind_at(old(self).input(), old(self).position()) != TokenType::EOF ==> {
                    &&& first == old(self).position() + 1
                    &&& first <= self.position()
                    &&& forall|p: int|
                        first <= p < self.position() ==> !boundary(self.input(), p)
                },
            decreases self.input().len() - self.position(),
        {
            if self.previous().token_type == TokenType::Semicolon {
                return ;
            }
            match self.peek().token_type {
                TokenType::Class => return ,
                TokenType::Fun => return ,
                TokenType::Var => return ,
                TokenType::For => return ,
                TokenType::If => return ,
                TokenType::While => return ,
                TokenType::Print => return ,
                TokenType::Return => return ,
                _ => (),
            }
            self.advance();
        }
    }

    /// `primary → NUMBER | STRING | "true" | "false" | "nil" | "(" expression ")"`
    fn primary(&mut self) -> (r: Result<Box<Expr>, ParserError>)
        requires
            old(self).wf(),
        ensures
            final(self).follows(
                old(self),
                parse_primary(old(self).input(), old(self).position()),
                r,
            ),
        decreases old(self).input().len() - old(self).position(), 0nat,
    {
        if self.equals(&[TokenType::False]) {
            return Ok(Box::new(Expr::Literal(Literal::new(Value::Boolean(false)))));
        }
        if self.equals(&[TokenType::True]) {
            return Ok(Box::new(Expr::Literal(Literal::new(Value::Boolean(true)))));
        }
        if self.equals(&[TokenType::Nil]) {
            return Ok(Box::new(Expr::Literal(Literal::new(Value::Nil))));
        }
        if self.equals(&[TokenType::Number, TokenType::String]) {
            return Ok(Box::new(Expr::Literal(Literal::new(self.previous().literal))));
        }
        if self.equals(&[TokenType::LeftParen]) {
            let expr = match self.expression() {
                Ok(e) => e,
                Err(e) => {
                    return Err(e);
                },
            };
            match self.consume(TokenType::RightParen) {
                Err(()) => {
                    let token = self.peek();
                    return Err(self.error(token, "Expect ')' after expression."));
                },
                Ok(_) => {},
            }
            return Ok(Box::new(Expr::Grouping(Grouping::new(expr))));
        }
        let token = self.peek();
        Err(self.error(token, "Expect expression."))
    }

    /// `unary → ("!" | "-") unary | primary`
    fn unary(&mut self) -> (r: Result<Box<Expr>, ParserError>)
        requires
            old(self).wf(),
        ensures
            final(self).follows(old(self), parse_unary(old(self).input(), old(self).position()), r),
        decreases old(self).input().len() - old(self).position(), 1nat,
    {
        if self.equals(&[TokenType::Bang, TokenType::Minus]) {
            let operator = self.previous();
            let right = match self.unary() {
                Ok(e) => e,
                Err(e) => {
                    return Err(e);
                },
            };
            return Ok(Box::new(Expr::Unary(Unary::new(operator, right))));
        }
        self.primary()
    }

    /// `factor → unary (("/" | "*") unary)*`
    fn factor(&mut self) -> (r: Result<Box<Expr>, ParserError>)
        requires
            old(self).wf(),
        ensures
            final(self).follows(
                old(self),
                parse_binary(old(self).input(), Level::Factor, old(self).position()),
                r,
            ),
        decreases old(self).input().len() - old(self).position(), 3nat,
    {
        let ghost ts = self.input();
        let ghost from = self.position();
        let mut expr = match self.unary() {
            Ok(e) => e,
            Err(e) => {
                return Err(e);
            },
        };
        while self.equals(&[TokenType::Slash, TokenType::Star])
            invariant
                self.moved_from(old(self)),
                ts == self.input(),
                from == old(self).position(),
                from <= self.position(),
                parse_binary(ts, Level::Factor, from) == after(
                    (self.position() - from) as nat,
                    parse_rest(ts, Level::Factor, expr@, self.position()),
                ),
            decreases self.input().len() - self.position(),
        {
            let ghost at = self.position() - 1;
            proof {
                assert(parse_operand(ts, Level::Factor, at + 1) == parse_unary(ts, at + 1));
            }
            let operator = self.previous();
            let right = match self.unary() {
                Ok(e) => e,
                Err(e) => {
                    return Err(e);
                },
            };
            expr = Box::new(Expr::Binary(Binary::new(expr, operator, right)));
        }
        Ok(expr)
    }

    /// `term → factor (("-" | "+") factor)*`
    fn term(&mut self) -> (r: Result<Box<Expr>, ParserError>)
        requires
            old(self).wf(),
        ensures
            final(self).follows(
                old(self),
                parse_binary(old(self).input(), Level::Term, old(self).position()),
                r,
            ),
        decreases old(self).input().len() - old(self).position(), 5nat,
    {
        let ghost ts = self.input();
        let ghost from = self.position();
        let mut expr = match self.factor() {
            Ok(e) => e,
            Err(e) => {
                return Err(e);
            },
        };
        while self.equals(&[TokenType::Minus, TokenType::Plus])
            invariant
                self.moved_from(old(self)),
                ts == self.input(),
                from == old(self).position(),
                from <= self.position(),
                parse_binary(ts, Level::Term, from) == after(
                    (self.position() - from) as nat,
                    parse_rest(ts, Level::Term, expr@, self.position()),
                ),
            decreases self.input().len() - self.position(),
        {
            let ghost at = self.position() - 1;
            proof {
                assert(parse_operand(ts, Level::Term, at + 1) == parse_binary(ts, Level::Factor, at + 1));
            }
            let operator = self.previous();
            let right = match self.factor() {
                Ok(e) => e,
                Err(e) => {
                    return Err(e);
                },
            };
            expr = Box::new(Expr::Binary(Binary::new(expr, operator, right)));
        }
        Ok(expr)
    }

    /// `comparison → term ((">" | ">=" | "<" | "<=") term)*`
    fn comparison(&mut self) -> (r: Result<Box<Expr>, ParserError>)
        requires
            old(self).wf(),
        ensures
            final(self).follows(
                old(self),
                parse_binary(old(self).input(), Level::Comparison, old(self).position()),
                r,
            ),
        decreases old(self).input().len() - old(self).position(), 7nat,
    {
        let ghost ts = self.input();
        let ghost from = self.position();
        let mut expr = match self.term() {
            Ok(e) => e,
            Err(e) => {
                return Err(e);
            },
        };
        while self.equals(
            &[
                TokenType::Greater,
                TokenType::GreaterEqual,
                TokenType::Less,
                TokenType::LessEqual,
            ],
        )
            invariant
                self.moved_from(old(self)),
                ts == self.input(),
                from == old(self).position(),
                from <= self.position(),
                parse_binary(ts, Level::Comparison, from) == after(
                    (self.position() - from) as nat,
                    parse_rest(ts, Level::Comparison, expr@, self.position()),
                ),
            decreases self.input().len() - self.position(),
        {
            let ghost at = self.position() - 1;
            proof {
                assert(parse_operand(ts, Level::Comparison, at + 1) == parse_binary(ts, Level::Term, at + 1));
            }
            let operator = self.previous();
            let right = match self.term() {
                Ok(e) => e,
                Err(e) => {
                    return Err(e);
                },
            };
            expr = Box::new(Expr::Binary(Binary::new(expr, operator, right)));
        }
        Ok(expr)
    }

    /// `expression → equality`
    fn expression(&mut self) -> (r: Result<Box<Expr>, ParserError>)
        requires
            old(self).wf(),
        ensures
            final(self).follows(
                old(self),
                parse_expression(old(self).input(), old(self).position()),
                r,
            ),
        decreases old(self).input().len() - old(self).position(), 10nat,
    {
        self.equality()
    }

    /// `equality → comparison (("!=" | "==") comparison)*`
    fn equality(&mut self) -> (r: Result<Box<Expr>, ParserError>)
        requires
            old(self).wf(),
        ensures
            final(self).follows(
                old(self),
                parse_binary(old(self).input(), Level::Equality, old(self).position()),
                r,
            ),
        decreases old(self).input().len() - old(self).position(), 9nat,
    {
        let ghost ts = self.input();
        let ghost from = self.position();
        let mut expr = match self.comparison() {
            Ok(e) => e,
            Err(e) => {
                return Err(e);
            },
        };
        while self.equals(&[TokenType::BangEqual, TokenType::EqualEqual])
            invariant
                self.moved_from(old(self)),
                ts == self.input(),
                from == old(self).position(),
                from <= self.position(),
                parse_binary(ts, Level::Equality, from) == after(
                    (self.position() - from) as nat,
                    parse_rest(ts, Level::Equality, expr@, self.position()),
                ),
            decreases self.input().len() - self.position(),
        {
            let ghost at = self.position() - 1;
            proof {
                assert(parse_operand(ts, Level::Equality, at + 1) == parse_binary(ts, Level::Comparison, at + 1));
            }
            let operator = self.previous();
            let right = match self.comparison() {
                Ok(e) => e,
                Err(e) => {
                    return Err(e);
                },
            };
            expr = Box::new(Expr::Binary(Binary::new(expr, operator, right)));
        }
        Ok(expr)
    }

    /// Parses one expression from the cursor on. Either the expression is
    /// returned, or the parse fails and the error is reported: no part of an
    /// expression is handed out after an error.
    pub fn parse(&mut self) -> (r: Result<Box<Expr>, ParserError>)
        requires
            old(self).wf(),
        ensures
            final(self).follows(
                old(self),
                parse_expression(old(self).input(), old(self).position()),
                r,
            ),
    {
        self.expression()
    }
}

/// Whether `outcome`, reached from index `pos` of `ts`, stays within the
/// tokens: a parsed expression takes at least `least` tokens and ends before
/// the last token, and an error lies at a token at or after `pos`.
pub open spec fn within(ts: Seq<TokenView>, pos: int, outcome: Outcome, least: nat) -> bool {
    match outcome {
        Outcome::Parsed { expr, used } => least <= used && pos + used < ts.len(),
        Outcome::Failed { at, message } => pos <= at < ts.len(),
    }
}

/// A primary expression takes at least one token and never the one that
/// ends the input.
pub proof fn lemma_primary_within(ts: Seq<TokenView>, pos: int)
    requires
        ends_input(ts),
        0 <= pos < ts.len(),
    ensures
        within(ts, pos, parse_primary(ts, pos), 1),
    decreases remaining(ts.len(), pos), 0nat,
{
    if kind_at(ts, pos) == TokenType::LeftParen {
        lemma_binary_within(ts, Level::Equality, pos + 1);
    }
}

/// A unary expression takes at least one token and never the one that ends
/// the input.
pub proof fn lemma_unary_within(ts: Seq<TokenView>, pos: int)
    requires
        ends_input(ts),
        0 <= pos < ts.len(),
    ensures
        within(ts, pos, parse_unary(ts, pos), 1),
    decreases remaining(ts.len(), pos), 1nat,
{
    if prefixes(kind_at(ts, pos)) {
        lemma_unary_within(ts, pos + 1);
    } else {
        lemma_primary_within(ts, pos);
    }
}

/// An operand takes at least one token and never the one that ends the
/// input.
pub proof fn lemma_operand_within(ts: Seq<TokenView>, level: Level, pos: int)
    requires
        ends_input(ts),
        0 <= pos < ts.len(),
    ensures
        within(ts, pos, parse_operand(ts, level, pos), 1),
    decreases remaining(ts.len(), pos), 2 * (4 - rank(level)),
{
    match level {
        Level::Equality => lemma_binary_within(ts, Level::Comparison, pos),
        Level::Comparison => lemma_binary_within(ts, Level::Term, pos),
        Level::Term => lemma_binary_within(ts, Level::Factor, pos),
        Level::Factor => lemma_unary_within(ts, pos),
    }
}

/// What follows an operand never takes the token that ends the input.
pub proof fn lemma_rest_within(ts: Seq<TokenView>, level: Level, left: ExprView, pos: int)
    requires
        ends_input(ts),
        0 <= pos < ts.len(),
    ensures
        within(ts, pos, parse_rest(ts, level, left, pos), 0),
    decreases remaining(ts.len(), pos), 2 * (4 - rank(level)),
{
    if binds(level, kind_at(ts, pos)) {
        lemma_operand_within(ts, level, pos + 1);
        match parse_operand(ts, level, pos + 1) {
            Outcome::Parsed { expr: right, used } => {
                lemma_rest_within(
                    ts,
                    level,
                    ExprView::Binary {
                        left: Box::new(left),
                        operator: ts[pos],
                        right: Box::new(right),
                    },
                    pos + 1 + used,
                );
            },
            Outcome::Failed { at, message } => {},
        }
    }
}

/// An expression of any level takes at least one token and never the one
/// that ends the input: the cursor stays at a token.
pub proof fn lemma_binary_within(ts: Seq<TokenView>, level: Level, pos: int)
    requires
        ends_input(ts),
        0 <= pos < ts.len(),
    ensures
        within(ts, pos, parse_binary(ts, level, pos), 1),
    decreases remaining(ts.len(), pos), 2 * (4 - rank(level)) + 1,
{
    lemma_operand_within(ts, level, pos);
    match parse_operand(ts, level, pos) {
        Outcome::Parsed { expr, used } => {
            lemma_rest_within(ts, level, expr, pos + used);
        },
        Outcome::Failed { at, message } => {},
    }
}

/// Whether a token of kind `kind` is an operator of a level that binds
/// tighter than `level`.
pub open spec fn binds_tighter(level: Level, kind: TokenType) -> bool {
    match level {
        Level::Equality => binds(Level::Comparison, kind) || binds(Level::Term, kind) || binds(
            Level::Factor,
            kind,
        ),
        Level::Comparison => binds(Level::Term, kind) || binds(Level::Factor, kind),
        Level::Term => binds(Level::Factor, kind),
        Level::Factor => false,
    }
}

/// Whether a token of kind `kind` is a binary operator of no level.
pub open spec fn binds_none(kind: TokenType) -> bool {
    !binds(Level::Equality, kind) && !binds_tighter(Level::Equality, kind)
}

/// Whether a token of kind `kind` is a number or a string.
pub open spec fn carries_literal(kind: TokenType) -> bool {
    kind == TokenType::Number || kind == TokenType::String
}

/// The expression that is the literal of `token`.
pub open spec fn literal_of(token: TokenView) -> ExprView {
    ExprView::Literal { value: token.literal }
}

/// The expression that joins `left` and `right` by `operator`.
pub open spec fn joined(left: ExprView, operator: TokenView, right: ExprView) -> ExprView {
    ExprView::Binary { left: Box::new(left), operator, right: Box::new(right) }
}

/// A number or a string is an operand by itself, unless an operator of a
/// tighter level follows it.
pub proof fn lemma_literal_is_operand(ts: Seq<TokenView>, level: Level, pos: int)
    requires
        carries_literal(kind_at(ts, pos)),
        !binds_tighter(level, kind_at(ts, pos + 1)),
    ensures
        parse_operand(ts, level, pos) == (Outcome::Parsed {
            expr: literal_of(ts[pos]),
            used: 1,
        }),
    decreases 4 - rank(level),
{
    assert(parse_unary(ts, pos) == parse_primary(ts, pos));
    match level {
        Level::Equality => {
            lemma_literal_is_operand(ts, Level::Comparison, pos);
            assert(parse_rest(ts, Level::Comparison, literal_of(ts[pos]), pos + 1) == (
            Outcome::Parsed { expr: literal_of(ts[pos]), used: 0 }));
        },
        Level::Comparison => {
            lemma_literal_is_operand(ts, Level::Term, pos);
            assert(parse_rest(ts, Level::Term, literal_of(ts[pos]), pos + 1) == (Outcome::Parsed {
                expr: literal_of(ts[pos]),
                used: 0,
            }));
        },
        Level::Term => {
            lemma_literal_is_operand(ts, Level::Factor, pos);
            assert(parse_rest(ts, Level::Factor, literal_of(ts[pos]), pos + 1) == (
            Outcome::Parsed { expr: literal_of(ts[pos]), used: 0 }));
        },
        Level::Factor => {},
    }
}

/// An expression of a level is an operand of every looser level, where no
/// binary operator follows it.
pub proof fn lemma_tighter_is_operand(
    ts: Seq<TokenView>,
    level: Level,
    tighter: Level,
    pos: int,
    expr: ExprView,
    used: nat,
)
    requires
        rank(tighter) > rank(level),
        parse_binary(ts, tighter, pos) == (Outcome::Parsed { expr, used }),
        binds_none(kind_at(ts, pos + used)),
    ensures
        parse_operand(ts, level, pos) == (Outcome::Parsed { expr, used }),
    decreases 4 - rank(level),
{
    let next = match level {
        Level::Equality => Level::Comparison,
        Level::Comparison => Level::Term,
        _ => Level::Factor,
    };
    if next != tighter {
        lemma_tighter_is_operand(ts, next, tighter, pos, expr, used);
        assert(parse_rest(ts, next, expr, pos + used) == (Outcome::Parsed { expr, used: 0 }));
    }
}

/// An expression of any level is the whole expression, where no binary
/// operator follows it.
pub proof fn lemma_level_is_expression(
    ts: Seq<TokenView>,
    level: Level,
    pos: int,
    expr: ExprView,
    used: nat,
)
    requires
        parse_binary(ts, level, pos) == (Outcome::Parsed { expr, used }),
        binds_none(kind_at(ts, pos + used)),
    ensures
        parse_expression(ts, pos) == (Outcome::Parsed { expr, used }),
{
    if level != Level::Equality {
        lemma_tighter_is_operand(ts, Level::Equality, level, pos, expr, used);
    }
}

/// Two literals with an operator between them are joined by it.
pub proof fn lemma_two_are_joined(ts: Seq<TokenView>, level: Level, pos: int)
    requires
        carries_literal(kind_at(ts, pos)),
        binds(level, kind_at(ts, pos + 1)),
        carries_literal(kind_at(ts, pos + 2)),
        !binds(level, kind_at(ts, pos + 3)),
        !binds_tighter(level, kind_at(ts, pos + 3)),
    ensures
        parse_binary(ts, level, pos) == (Outcome::Parsed {
            expr: joined(literal_of(ts[pos]), ts[pos + 1], literal_of(ts[pos + 2])),
            used: 3,
        }),
{
    let a = literal_of(ts[pos]);
    let ab = joined(a, ts[pos + 1], literal_of(ts[pos + 2]));
    lemma_literal_is_operand(ts, level, pos);
    lemma_literal_is_operand(ts, level, pos + 2);
    assert(parse_rest(ts, level, ab, pos + 3) == (Outcome::Parsed { expr: ab, used: 0 }));
}

/// Operators of one level are joined from the left: `a - b - c` is
/// `(a - b) - c`, never `a - (b - c)`.
pub proof fn lemma_joins_from_the_left(ts: Seq<TokenView>, level: Level, pos: int)
    requires
        carries_literal(kind_at(ts, pos)),
        binds(level, kind_at(ts, pos + 1)),
        carries_literal(kind_at(ts, pos + 2)),
        binds(level, kind_at(ts, pos + 3)),
        carries_literal(kind_at(ts, pos + 4)),
        binds_none(kind_at(ts, pos + 5)),
    ensures
        parse_expression(ts, pos) == (Outcome::Parsed {
            expr: joined(
                joined(literal_of(ts[pos]), ts[pos + 1], literal_of(ts[pos + 2])),
                ts[pos + 3],
                literal_of(ts[pos + 4]),
            ),
            used: 5,
        }),
{
    let a = literal_of(ts[pos]);
    let ab = joined(a, ts[pos + 1], literal_of(ts[pos + 2]));
    let abc = joined(ab, ts[pos + 3], literal_of(ts[pos + 4]));
    lemma_literal_is_operand(ts, level, pos);
    lemma_literal_is_operand(ts, level, pos + 2);
    lemma_literal_is_operand(ts, level, pos + 4);
    assert(parse_rest(ts, level, abc, pos + 5) == (Outcome::Parsed { expr: abc, used: 0 }));
    assert(parse_rest(ts, level, ab, pos + 3) == (Outcome::Parsed { expr: abc, used: 2 }));
    lemma_level_is_expression(ts, level, pos, abc, 5);
}

/// An operator of a tighter level takes its operands first: `a + b * c` is
/// `a + (b * c)`.
pub proof fn lemma_tighter_binds_first(ts: Seq<TokenView>, level: Level, tighter: Level, pos: int)
    requires
        rank(tighter) > rank(level),
        carries_literal(kind_at(ts, pos)),
        binds(level, kind_at(ts, pos + 1)),
        carries_literal(kind_at(ts, pos + 2)),
        binds(tighter, kind_at(ts, pos + 3)),
        carries_literal(kind_at(ts, pos + 4)),
        binds_none(kind_at(ts, pos + 5)),
    ensures
        parse_expression(ts, pos) == (Outcome::Parsed {
            expr: joined(
                literal_of(ts[pos]),
                ts[pos + 1],
                joined(literal_of(ts[pos + 2]), ts[pos + 3], literal_of(ts[pos + 4])),
            ),
            used: 5,
        }),
{
    let a = literal_of(ts[pos]);
    let bc = joined(literal_of(ts[pos + 2]), ts[pos + 3], literal_of(ts[pos + 4]));
    let abc = joined(a, ts[pos + 1], bc);
    lemma_literal_is_operand(ts, level, pos);
    lemma_two_are_joined(ts, tighter, pos + 2);
    lemma_tighter_is_operand(ts, level, tighter, pos + 2, bc, 3);
    assert(parse_rest(ts, level, abc, pos + 5) == (Outcome::Parsed { expr: abc, used: 0 }));
    lemma_level_is_expression(ts, level, pos, abc, 5);
}

/// And the other way round: `a * b + c` is `(a * b) + c`.
pub proof fn lemma_tighter_binds_first_on_the_left(
    ts: Seq<TokenView>,
    level: Level,
    tighter: Level,
    pos: int,
)
    requires
        rank(tighter) > rank(level),
        carries_literal(kind_at(ts, pos)),
        binds(tighter, kind_at(ts, pos + 1)),
        carries_literal(kind_at(ts, pos + 2)),
        binds(level, kind_at(ts, pos + 3)),
        carries_literal(kind_at(ts, pos + 4)),
        binds_none(kind_at(ts, pos + 5)),
    ensures
        parse_expression(ts, pos) == (Outcome::Parsed {
            expr: joined(
                joined(literal_of(ts[pos]), ts[pos + 1], literal_of(ts[pos + 2])),
                ts[pos + 3],
                literal_of(ts[pos + 4]),
            ),
            used: 5,
        }),
{
    let ab = joined(literal_of(ts[pos]), ts[pos + 1], literal_of(ts[pos + 2]));
    let abc = joined(ab, ts[pos + 3], literal_of(ts[pos + 4]));
    lemma_two_are_joined(ts, tighter, pos);
    lemma_operand_of_tighter_before(ts, level, tighter, pos, ab, 3);
    lemma_literal_is_operand(ts, level, pos + 4);
    assert(parse_rest(ts, level, abc, pos + 5) == (Outcome::Parsed { expr: abc, used: 0 }));
    lemma_level_is_expression(ts, level, pos, abc, 5);
}

/// An expression of a level is an operand of a looser level, where an
/// operator of that looser level follows it.
pub proof fn lemma_operand_of_tighter_before(
    ts: Seq<TokenView>,
    level: Level,
    tighter: Level,
    pos: int,
    expr: ExprView,
    used: nat,
)
    requires
        rank(tighter) > rank(level),
        parse_binary(ts, tighter, pos) == (Outcome::Parsed { expr, used }),
        binds(level, kind_at(ts, pos + used)),
    ensures
        parse_operand(ts, level, pos) == (Outcome::Parsed { expr, used }),
    decreases 4 - rank(level),
{
    let next = match level {
        Level::Equality => Level::Comparison,
        Level::Comparison => Level::Term,
        _ => Level::Factor,
    };
    if next != tighter {
        lemma_between_is_operand(ts, next, tighter, pos, expr, used, level);
        assert(parse_rest(ts, next, expr, pos + used) == (Outcome::Parsed { expr, used: 0 }));
    }
}

/// An expression of a level is an operand of a looser level, where an
/// operator of a still looser level follows it.
pub proof fn lemma_between_is_operand(
    ts: Seq<TokenView>,
    level: Level,
    tighter: Level,
    pos: int,
    expr: ExprView,
    used: nat,
    looser: Level,
)
    requires
        rank(tighter) > rank(level) > rank(looser),
        parse_binary(ts, tighter, pos) == (Outcome::Parsed { expr, used }),
        binds(looser, kind_at(ts, pos + used)),
    ensures
        parse_operand(ts, level, pos) == (Outcome::Parsed { expr, used }),
    decreases 4 - rank(level),
{
    let next = match level {
        Level::Equality => Level::Comparison,
        Level::Comparison => Level::Term,
        _ => Level::Factor,
    };
    if next != tighter {
        lemma_between_is_operand(ts, next, tighter, pos, expr, used, looser);
        assert(parse_rest(ts, next, expr, pos + used) == (Outcome::Parsed { expr, used: 0 }));
    }
}

/// A parenthesis around an expression makes a group of it.
pub proof fn lemma_parentheses_group(ts: Seq<TokenView>, pos: int, expr: ExprView, used: nat)
    requires
        kind_at(ts, pos) == TokenType::LeftParen,
        parse_expression(ts, pos + 1) == (Outcome::Parsed { expr, used }),
        kind_at(ts, pos + 1 + used) == TokenType::RightParen,
    ensures
        parse_primary(ts, pos) == (Outcome::Parsed {
            expr: ExprView::Grouping { expression: Box::new(expr) },
            used: used + 2,
        }),
{
}

/// A parenthesis that is not closed is an error at the token where the
/// closing one should stand, and no expression.
pub proof fn lemma_open_parenthesis_fails(ts: Seq<TokenView>, pos: int, expr: ExprView, used: nat)
    requires
        kind_at(ts, pos) == TokenType::LeftParen,
        parse_expression(ts, pos + 1) == (Outcome::Parsed { expr, used }),
        kind_at(ts, pos + 1 + used) != TokenType::RightParen,
    ensures
        parse_expression(ts, pos) == (Outcome::Failed {
            at: pos + 1 + used,
            message: expect_paren(),
        }),
{
    assert(parse_operand(ts, Level::Term, pos) == parse_binary(ts, Level::Factor, pos));
    assert(parse_binary(ts, Level::Comparison, pos) == parse_primary(ts, pos));
}

} // verus!
