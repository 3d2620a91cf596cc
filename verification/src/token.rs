use crate::text::{decimal, push_decimal};
use vstd::prelude::*;

verus! {

/// The lexical category of a token.
#[derive(Debug, Clone, Copy, PartialEq, Eq, Structural)]
pub enum TokenType {
    LeftParen,
    RightParen,
    LeftBrace,
    RightBrace,
    Comma,
    Dot,
    Minus,
    Plus,
    Semicolon,
    Slash,
    Star,
    Bang,
    BangEqual,
    Equal,
    EqualEqual,
    Greater,
    GreaterEqual,
    Less,
    LessEqual,
    Identifier,
    String,
    Number,
    And,
    Class,
    Else,
    False,
    Fun,
    For,
    If,
    Nil,
    Or,
    Print,
    Return,
    Super,
    This,
    True,
    Var,
    While,
    EOF,
}

/// The name of a token kind.
pub open spec fn name_of(kind: TokenType) -> Seq<char> {
    match kind {
        TokenType::LeftParen => "LeftParen"@,
        TokenType::RightParen => "RightParen"@,
        TokenType::LeftBrace => "LeftBrace"@,
        TokenType::RightBrace => "RightBrace"@,
        TokenType::Comma => "Comma"@,
        TokenType::Dot => "Dot"@,
        TokenType::Minus => "Minus"@,
        TokenType::Plus => "Plus"@,
        TokenType::Semicolon => "Semicolon"@,
        TokenType::Slash => "Slash"@,
        TokenType::Star => "Star"@,
        TokenType::Bang => "Bang"@,
        TokenType::BangEqual => "BangEqual"@,
        TokenType::Equal => "Equal"@,
        TokenType::EqualEqual => "EqualEqual"@,
        TokenType::Greater => "Greater"@,
        TokenType::GreaterEqual => "GreaterEqual"@,
        TokenType::Less => "Less"@,
        TokenType::LessEqual => "LessEqual"@,
        TokenType::Identifier => "Identifier"@,
        TokenType::String => "String"@,
        TokenType::Number => "Number"@,
        TokenType::And => "And"@,
        TokenType::Class => "Class"@,
        TokenType::Else => "Else"@,
        TokenType::False => "False"@,
        TokenType::Fun => "Fun"@,
        TokenType::For => "For"@,
        TokenType::If => "If"@,
        TokenType::Nil => "Nil"@,
        TokenType::Or => "Or"@,
        TokenType::Print => "Print"@,
        TokenType::Return => "Return"@,
        TokenType::Super => "Super"@,
        TokenType::This => "This"@,
        TokenType::True => "True"@,
        TokenType::Var => "Var"@,
        TokenType::While => "While"@,
        TokenType::EOF => "EOF"@,
    }
}

impl TokenType {
    /// The name of the kind, as it is written in the language's definition.
    pub fn to_string(&self) -> (r: String)
        ensures
            r@ == name_of(*self),
    {
        let token_str = match self {
            TokenType::LeftParen => "LeftParen",
            TokenType::RightParen => "RightParen",
            TokenType::LeftBrace => "LeftBrace",
            TokenType::RightBrace => "RightBrace",
            TokenType::Comma => "Comma",
            TokenType::Dot => "Dot",
            TokenType::Minus => "Minus",
            TokenType::Plus => "Plus",
            TokenType::Semicolon => "Semicolon",
            TokenType::Slash => "Slash",
            TokenType::Star => "Star",
            TokenType::Bang => "Bang",
            TokenType::BangEqual => "BangEqual",
            TokenType::Equal => "Equal",
            TokenType::EqualEqual => "EqualEqual",
            TokenType::Greater => "Greater",
            TokenType::GreaterEqual => "GreaterEqual",
            TokenType::Less => "Less",
            TokenType::LessEqual => "LessEqual",
            TokenType::Identifier => "Identifier",
            TokenType::String => "String",
            TokenType::Number => "Number",
            TokenType::And => "And",
            TokenType::Class => "Class",
            TokenType::Else => "Else",
            TokenType::False => "False",
            TokenType::Fun => "Fun",
            TokenType::For => "For",
            TokenType::If => "If",
            TokenType::Nil => "Nil",
            TokenType::Or => "Or",
            TokenType::Print => "Print",
            TokenType::Return => "Return",
            TokenType::Super => "Super",
            TokenType::This => "This",
            TokenType::True => "True",
            TokenType::Var => "Var",
            TokenType::While => "While",
            TokenType::EOF => "EOF",
        };
        token_str.to_owned()
    }
}

/// A literal value: the payload of a literal token and the result that a
/// visitor hands back.
///
/// A number is kept as its canonical decimal numeral (see
/// `crate::text::canonical_numeral`), so that two spellings of one number
/// give one value.
#[derive(Debug)]
pub enum Value {
    String(std::string::String),
    Number(std::string::String),
    Boolean(bool),
    Nil,
}

/// What a `Value` holds, as mathematical data.
pub enum ValueView {
    String(Seq<char>),
    Number(Seq<char>),
    Boolean(bool),
    Nil,
}

impl View for Value {
    type V = ValueView;

    open spec fn view(&self) -> ValueView {
        match self {
            Value::String(s) => ValueView::String(s@),
            Value::Number(n) => ValueView::Number(n@),
            Value::Boolean(b) => ValueView::Boolean(*b),
            Value::Nil => ValueView::Nil,
        }
    }
}

impl Clone for Value {
    fn clone(&self) -> (r: Self)
        ensures
            r@ == self@,
    {
        match self {
            Value::String(s) => Value::String(s.clone()),
            Value::Number(n) => Value::Number(n.clone()),
            Value::Boolean(b) => Value::Boolean(*b),
            Value::Nil => Value::Nil,
        }
    }
}

/// How a value is shown.
pub open spec fn value_text(v: ValueView) -> Seq<char> {
    match v {
        ValueView::String(s) => s,
        ValueView::Number(n) => n,
        ValueView::Boolean(b) => if b {
            "true"@
        } else {
            "false"@
        },
        ValueView::Nil => "None"@,
    }
}

impl Value {
    /// The value as text: a string as it is, a number as its numeral, a
    /// boolean as `true` or `false`, and `None` where there is no value.
    pub fn to_string(&self) -> (r: String)
        ensures
            r@ == value_text(self@),
    {
        match self {
            Value::String(s) => s.clone(),
            Value::Number(n) => n.clone(),
            Value::Boolean(b) => if *b {
                "true".to_owned()
            } else {
                "false".to_owned()
            },
            Value::Nil => "None".to_owned(),
        }
    }
}

/// A classified lexeme with its literal payload and the line it was read on.
#[derive(Debug)]
pub struct Token {
    pub token_type: TokenType,
    pub lexeme: std::string::String,
    pub literal: Value,
    pub line: usize,
}

/// What a `Token` holds, as mathematical data.
pub struct TokenView {
    pub token_type: TokenType,
    pub lexeme: Seq<char>,
    pub literal: ValueView,
    pub line: usize,
}

impl View for Token {
    type V = TokenView;

    open spec fn view(&self) -> TokenView {
        TokenView {
            token_type: self.token_type,
            lexeme: self.lexeme@,
            literal: self.literal@,
            line: self.line,
        }
    }
}

/// The views of a sequence of tokens.
pub open spec fn token_views(ts: Seq<Token>) -> Seq<TokenView> {
    ts.map_values(|t: Token| t@)
}

/// The token that ends every scan.
pub open spec fn end_of_input(line: usize) -> TokenView {
    TokenView {
        token_type: TokenType::EOF,
        lexeme: Seq::<char>::empty(),
        literal: ValueView::Nil,
        line,
    }
}

/// Whether `ts` is a token sequence that a parser can read: its last token
/// ends the input.
pub open spec fn ends_input(ts: Seq<TokenView>) -> bool {
    ts.len() > 0 && ts.last().token_type == TokenType::EOF
}

impl Clone for Token {
    fn clone(&self) -> (r: Self)
        ensures
            r@ == self@,
    {
        Token {
            token_type: self.token_type,
            lexeme: self.lexeme.clone(),
            literal: self.literal.clone(),
            line: self.line,
        }
    }
}

/// How a token is shown: its kind, lexeme, literal and line, each on a line
/// of its own.
pub open spec fn token_text(t: TokenView) -> Seq<char> {
    "Token Type: "@ + name_of(t.token_type) + "\nLexeme: "@ + t.lexeme + "\nLiteral: "@
        + value_text(t.literal) + "\nLine: "@ + decimal(t.line as nat) + "\n"@
}

impl Token {
    /// The token as text, for listings.
    pub fn to_string(&self) -> (r: String)
        ensures
            r@ == token_text(self@),
    {
        let mut s = "Token Type: ".to_owned();
        s.append(self.token_type.to_string().as_str());
        s.append("\nLexeme: ");
        s.append(self.lexeme.as_str());
        s.append("\nLiteral: ");
        s.append(self.literal.to_string().as_str());
        s.append("\nLine: ");
        push_decimal(&mut s, self.line);
        s.append("\n");
        s
    }

    pub fn new(token_type: TokenType, lexeme: std::string::String, literal: Value, line: usize) -> (r: Self)
        ensures
            r.token_type == token_type,
            r.lexeme == lexeme,
            r.literal == literal,
            r.line == line,
    {
        Token { token_type, lexeme, literal, line }
    }
}

} // verus!
