//! Tokens: the lexer's output. Each token carries the 1-based source line on
//! which it ends. `SpTokenKind` and `SpToken` are the mathematical images of
//! the executable types, with character sequences for the text payloads.
use vstd::prelude::*;

verus! {

#[derive(Clone, Copy, Debug)]
pub enum ScanError {
    UnexpectedChar(char),
    UnterminatedString,
}

pub open spec fn sp_scan_error_message(e: ScanError) -> Seq<char> {
    match e {
        ScanError::UnexpectedChar(_) => "Unexpected character."@,
        ScanError::UnterminatedString => "Unterminated string."@,
    }
}

impl ScanError {
    /// The diagnostic text of this scan fault.
    pub fn message(&self) -> (r: String)
        ensures
            r@ == sp_scan_error_message(*self),
    {
        match self {
            ScanError::UnexpectedChar(_) => "Unexpected character.".to_owned(),
            ScanError::UnterminatedString => "Unterminated string.".to_owned(),
        }
    }
}

#[derive(Clone, Debug)]
pub enum TokenKind {
    LeftParen,
    RightParen,
    LeftBrace,
    RightBrace,
    Comma,
    Dot,
    Minus,
    Plus,
    Semicolon,
    Slash,
    Star,
    Bang,
    BangEqual,
    Equal,
    EqualEqual,
    Greater,
    GreaterEqual,
    Less,
    LessEqual,
    Identifier(String),
    Str(String),
    Number(u64, String),
    And,
    Class,
    Else,
    False,
    Fun,
    For,
    If,
    Nil,
    Or,
    Print,
    Return,
    Super,
    This,
    True,
    Var,
    While,
    Whitespace,
    Comment,
    Error(ScanError),
    Eof,
}

pub enum SpTokenKind {
    LeftParen,
    RightParen,
    LeftBrace,
    RightBrace,
    Comma,
    Dot,
    Minus,
    Plus,
    Semicolon,
    Slash,
    Star,
    Bang,
    BangEqual,
    Equal,
    EqualEqual,
    Greater,
    GreaterEqual,
    Less,
    LessEqual,
    Identifier(Seq<char>),
    Str(Seq<char>),
    Number(u64, Seq<char>),
    And,
    Class,
    Else,
    False,
    Fun,
    For,
    If,
    Nil,
    Or,
    Print,
    Return,
    Super,
    This,
    True,
    Var,
    While,
    Whitespace,
    Comment,
    Error(ScanError),
    Eof,
}

impl View for TokenKind {
    type V = SpTokenKind;

    open spec fn view(&self) -> SpTokenKind {
        match self {
            TokenKind::LeftParen => SpTokenKind::LeftParen,
            TokenKind::RightParen => SpTokenKind::RightParen,
            TokenKind::LeftBrace => SpTokenKind::LeftBrace,
            TokenKind::RightBrace => SpTokenKind::RightBrace,
            TokenKind::Comma => SpTokenKind::Comma,
            TokenKind::Dot => SpTokenKind::Dot,
            TokenKind::Minus => SpTokenKind::Minus,
            TokenKind::Plus => SpTokenKind::Plus,
            TokenKind::Semicolon => SpTokenKind::Semicolon,
            TokenKind::Slash => SpTokenKind::Slash,
            TokenKind::Star => SpTokenKind::Star,
            TokenKind::Bang => SpTokenKind::Bang,
            TokenKind::BangEqual => SpTokenKind::BangEqual,
            TokenKind::Equal => SpTokenKind::Equal,
            TokenKind::EqualEqual => SpTokenKind::EqualEqual,
            TokenKind::Greater => SpTokenKind::Greater,
            TokenKind::GreaterEqual => SpTokenKind::GreaterEqual,
            TokenKind::Less => SpTokenKind::Less,
            TokenKind::LessEqual => SpTokenKind::LessEqual,
            TokenKind::Identifier(s) => SpTokenKind::Identifier(s@),
            TokenKind::Str(s) => SpTokenKind::Str(s@),
            TokenKind::Number(b, s) => SpTokenKind::Number(*b, s@),
            TokenKind::And => SpTokenKind::And,
            TokenKind::Class => SpTokenKind::Class,
            TokenKind::Else => SpTokenKind::Else,
            TokenKind::False => SpTokenKind::False,
            TokenKind::Fun => SpTokenKind::Fun,
            TokenKind::For => SpTokenKind::For,
            TokenKind::If => SpTokenKind::If,
            TokenKind::Nil => SpTokenKind::Nil,
            TokenKind::Or => SpTokenKind::Or,
            TokenKind::Print => SpTokenKind::Print,
            TokenKind::Return => SpTokenKind::Return,
            TokenKind::Super => SpTokenKind::Super,
            TokenKind::This => SpTokenKind::This,
            TokenKind::True => SpTokenKind::True,
            TokenKind::Var => SpTokenKind::Var,
            TokenKind::While => SpTokenKind::While,
            TokenKind::Whitespace => SpTokenKind::Whitespace,
            TokenKind::Comment => SpTokenKind::Comment,
            TokenKind::Error(e) => SpTokenKind::Error(*e),
            TokenKind::Eof => SpTokenKind::Eof,
        }
    }
}

#[derive(Clone, Debug)]
pub struct Token {
    pub kind: TokenKind,
    pub line: u64,
}

pub struct SpToken {
    pub kind: SpTokenKind,
    pub line: nat,
}

impl View for Token {
    type V = SpToken;

    open spec fn view(&self) -> SpToken {
        SpToken { kind: self.kind@, line: self.line as nat }
    }
}

impl DeepView for Token {
    type V = SpToken;

    open spec fn deep_view(&self) -> SpToken {
        self.view()
    }
}

impl TokenKind {
    /// A copy with the same mathematical image.
    pub fn duplicate(&self) -> (r: TokenKind)
        ensures
            r@ == self@,
    {
        match self {
            TokenKind::LeftParen => TokenKind::LeftParen,
            TokenKind::RightParen => TokenKind::RightParen,
            TokenKind::LeftBrace => TokenKind::LeftBrace,
            TokenKind::RightBrace => TokenKind::RightBrace,
            TokenKind::Comma => TokenKind::Comma,
            TokenKind::Dot => TokenKind::Dot,
            TokenKind::Minus => TokenKind::Minus,
            TokenKind::Plus => TokenKind::Plus,
            TokenKind::Semicolon => TokenKind::Semicolon,
            TokenKind::Slash => TokenKind::Slash,
            TokenKind::Star => TokenKind::Star,
            TokenKind::Bang => TokenKind::Bang,
            TokenKind::BangEqual => TokenKind::BangEqual,
            TokenKind::Equal => TokenKind::Equal,
            TokenKind::EqualEqual => TokenKind::EqualEqual,
            TokenKind::Greater => TokenKind::Greater,
            TokenKind::GreaterEqual => TokenKind::GreaterEqual,
            TokenKind::Less => TokenKind::Less,
            TokenKind::LessEqual => TokenKind::LessEqual,
            TokenKind::Identifier(s) => TokenKind::Identifier(s.clone()),
            TokenKind::Str(s) => TokenKind::Str(s.clone()),
            TokenKind::Number(b, s) => TokenKind::Number(*b, s.clone()),
            TokenKind::And => TokenKind::And,
            TokenKind::Class => TokenKind::Class,
            TokenKind::Else => TokenKind::Else,
            TokenKind::False => TokenKind::False,
            TokenKind::Fun => TokenKind::Fun,
            TokenKind::For => TokenKind::For,
            TokenKind::If => TokenKind::If,
            TokenKind::Nil => TokenKind::Nil,
            TokenKind::Or => TokenKind::Or,
            TokenKind::Print => TokenKind::Print,
            TokenKind::Return => TokenKind::Return,
            TokenKind::Super => TokenKind::Super,
            TokenKind::This => TokenKind::This,
            TokenKind::True => TokenKind::True,
            TokenKind::Var => TokenKind::Var,
            TokenKind::While => TokenKind::While,
            TokenKind::Whitespace => TokenKind::Whitespace,
            TokenKind::Comment => TokenKind::Comment,
            TokenKind::Error(e) => TokenKind::Error(*e),
            TokenKind::Eof => TokenKind::Eof,
        }
    }
}

impl Token {
    /// A copy with the same mathematical image.
    pub fn duplicate(&self) -> (r: Token)
        ensures
            r@ == self@,
    {
        Token { kind: self.kind.duplicate(), line: self.line }
    }

    pub fn new(kind: TokenKind, line: u64) -> (r: Token)
        ensures
            r@.kind == kind@,
            r@.line == line as nat,
    {
        Token { kind, line }
    }

    pub fn is_whitespace(&self) -> (r: bool)
        ensures
            r == sp_is_whitespace(self@.kind),
    {
        match self.kind {
            TokenKind::Whitespace | TokenKind::Comment => true,
            _ => false,
        }
    }
}

pub open spec fn sp_is_whitespace(k: SpTokenKind) -> bool {
    k is Whitespace || k is Comment
}

/// Do two token kinds agree on their variant, ignoring any payload? This is
/// how the parser tests for an expected token.
pub open spec fn sp_same_kind(a: SpTokenKind, b: SpTokenKind) -> bool {
    match (a, b) {
        (SpTokenKind::LeftParen, SpTokenKind::LeftParen) => true,
        (SpTokenKind::RightParen, SpTokenKind::RightParen) => true,
        (SpTokenKind::LeftBrace, SpTokenKind::LeftBrace) => true,
        (SpTokenKind::RightBrace, SpTokenKind::RightBrace) => true,
        (SpTokenKind::Comma, SpTokenKind::Comma) => true,
        (SpTokenKind::Dot, SpTokenKind::Dot) => true,
        (SpTokenKind::Minus, SpTokenKind::Minus) => true,
        (SpTokenKind::Plus, SpTokenKind::Plus) => true,
        (SpTokenKind::Semicolon, SpTokenKind::Semicolon) => true,
        (SpTokenKind::Slash, SpTokenKind::Slash) => true,
        (SpTokenKind::Star, SpTokenKind::Star) => true,
        (SpTokenKind::Bang, SpTokenKind::Bang) => true,
        (SpTokenKind::BangEqual, SpTokenKind::BangEqual) => true,
        (SpTokenKind::Equal, SpTokenKind::Equal) => true,
        (SpTokenKind::EqualEqual, SpTokenKind::EqualEqual) => true,
        (SpTokenKind::Greater, SpTokenKind::Greater) => true,
        (SpTokenKind::GreaterEqual, SpTokenKind::GreaterEqual) => true,
        (SpTokenKind::Less, SpTokenKind::Less) => true,
        (SpTokenKind::LessEqual, SpTokenKind::LessEqual) => true,
        (SpTokenKind::Identifier(_), SpTokenKind::Identifier(_)) => true,
        (SpTokenKind::Str(_), SpTokenKind::Str(_)) => true,
        (SpTokenKind::Number(..), SpTokenKind::Number(..)) => true,
        (SpTokenKind::And, SpTokenKind::And) => true,
        (SpTokenKind::Class, SpTokenKind::Class) => true,
        (SpTokenKind::Else, SpTokenKind::Else) => true,
        (SpTokenKind::False, SpTokenKind::False) => true,
        (SpTokenKind::Fun, SpTokenKind::Fun) => true,
        (SpTokenKind::For, SpTokenKind::For) => true,
        (SpTokenKind::If, SpTokenKind::If) => true,
        (SpTokenKind::Nil, SpTokenKind::Nil) => true,
        (SpTokenKind::Or, SpTokenKind::Or) => true,
        (SpTokenKind::Print, SpTokenKind::Print) => true,
        (SpTokenKind::Return, SpTokenKind::Return) => true,
        (SpTokenKind::Super, SpTokenKind::Super) => true,
        (SpTokenKind::This, SpTokenKind::This) => true,
        (SpTokenKind::True, SpTokenKind::True) => true,
        (SpTokenKind::Var, SpTokenKind::Var) => true,
        (SpTokenKind::While, SpTokenKind::While) => true,
        (SpTokenKind::Whitespace, SpTokenKind::Whitespace) => true,
        (SpTokenKind::Comment, SpTokenKind::Comment) => true,
        (SpTokenKind::Error(_), SpTokenKind::Error(_)) => true,
        (SpTokenKind::Eof, SpTokenKind::Eof) => true,
        _ => false,
    }
}

pub fn kinds_match(a: &TokenKind, b: &TokenKind) -> (r: bool)
    ensures
        r == sp_same_kind(a@, b@),
{
    match (a, b) {
        (TokenKind::LeftParen, TokenKind::LeftParen) => true,
        (TokenKind::RightParen, TokenKind::RightParen) => true,
        (TokenKind::LeftBrace, TokenKind::LeftBrace) => true,
        (TokenKind::RightBrace, TokenKind::RightBrace) => true,
        (TokenKind::Comma, TokenKind::Comma) => true,
        (TokenKind::Dot, TokenKind::Dot) => true,
        (TokenKind::Minus, TokenKind::Minus) => true,
        (TokenKind::Plus, TokenKind::Plus) => true,
        (TokenKind::Semicolon, TokenKind::Semicolon) => true,
        (TokenKind::Slash, TokenKind::Slash) => true,
        (TokenKind::Star, TokenKind::Star) => true,
        (TokenKind::Bang, TokenKind::Bang) => true,
        (TokenKind::BangEqual, TokenKind::BangEqual) => true,
        (TokenKind::Equal, TokenKind::Equal) => true,
        (TokenKind::EqualEqual, TokenKind::EqualEqual) => true,
        (TokenKind::Greater, TokenKind::Greater) => true,
        (TokenKind::GreaterEqual, TokenKind::GreaterEqual) => true,
        (TokenKind::Less, TokenKind::Less) => true,
        (TokenKind::LessEqual, TokenKind::LessEqual) => true,
        (TokenKind::Identifier(_), TokenKind::Identifier(_)) => true,
        (TokenKind::Str(_), TokenKind::Str(_)) => true,
        (TokenKind::Number(..), TokenKind::Number(..)) => true,
        (TokenKind::And, TokenKind::And) => true,
        (TokenKind::Class, TokenKind::Class) => true,
        (TokenKind::Else, TokenKind::Else) => true,
        (TokenKind::False, TokenKind::False) => true,
        (TokenKind::Fun, TokenKind::Fun) => true,
        (TokenKind::For, TokenKind::For) => true,
        (TokenKind::If, TokenKind::If) => true,
        (TokenKind::Nil, TokenKind::Nil) => true,
        (TokenKind::Or, TokenKind::Or) => true,
        (TokenKind::Print, TokenKind::Print) => true,
        (TokenKind::Return, TokenKind::Return) => true,
        (TokenKind::Super, TokenKind::Super) => true,
        (TokenKind::This, TokenKind::This) => true,
        (TokenKind::True, TokenKind::True) => true,
        (TokenKind::Var, TokenKind::Var) => true,
        (TokenKind::While, TokenKind::While) => true,
        (TokenKind::Whitespace, TokenKind::Whitespace) => true,
        (TokenKind::Comment, TokenKind::Comment) => true,
        (TokenKind::Error(_), TokenKind::Error(_)) => true,
        (TokenKind::Eof, TokenKind::Eof) => true,
        _ => false,
    }
}

/// How a token prints inside a parse diagnostic: literals print their
/// payload and every other kind prints its fixed lexeme.
pub open spec fn sp_token_text(k: SpTokenKind) -> Seq<char> {
    match k {
        SpTokenKind::LeftParen => "("@,
        SpTokenKind::RightParen => ")"@,
        SpTokenKind::LeftBrace => "{"@,
        SpTokenKind::RightBrace => "}"@,
        SpTokenKind::Comma => ","@,
        SpTokenKind::Dot => "."@,
        SpTokenKind::Minus => "-"@,
        SpTokenKind::Plus => "+"@,
        SpTokenKind::Semicolon => ";"@,
        SpTokenKind::Slash => "/"@,
        SpTokenKind::Star => "*"@,
        SpTokenKind::Bang => "!"@,
        SpTokenKind::BangEqual => "!="@,
        SpTokenKind::Equal => "="@,
        SpTokenKind::EqualEqual => "=="@,
        SpTokenKind::Greater => ">"@,
        SpTokenKind::GreaterEqual => ">="@,
        SpTokenKind::Less => "<"@,
        SpTokenKind::LessEqual => "<="@,
        SpTokenKind::Identifier(s) => s,
        SpTokenKind::Str(s) => s,
        SpTokenKind::Number(_, s) => s,
        SpTokenKind::And => "and"@,
        SpTokenKind::Class => "class"@,
        SpTokenKind::Else => "else"@,
        SpTokenKind::False => "false"@,
        SpTokenKind::Fun => "fun"@,
        SpTokenKind::For => "for"@,
        SpTokenKind::If => "if"@,
        SpTokenKind::Nil => "nil"@,
        SpTokenKind::Or => "or"@,
        SpTokenKind::Print => "print"@,
        SpTokenKind::Return => "return"@,
        SpTokenKind::Super => "super"@,
        SpTokenKind::This => "this"@,
        SpTokenKind::True => "true"@,
        SpTokenKind::Var => "var"@,
        SpTokenKind::While => "while"@,
        SpTokenKind::Whitespace => "%"@,
        SpTokenKind::Comment => "%"@,
        SpTokenKind::Error(_) => "err"@,
        SpTokenKind::Eof => "eof"@,
    }
}

impl Token {
    /// The text a parse diagnostic shows for this token.
    pub fn text(&self) -> (r: String)
        ensures
            r@ == sp_token_text(self@.kind),
    {
        match &self.kind {
            TokenKind::LeftParen => "(".to_owned(),
            TokenKind::RightParen => ")".to_owned(),
            TokenKind::LeftBrace => "{".to_owned(),
            TokenKind::RightBrace => "}".to_owned(),
            TokenKind::Comma => ",".to_owned(),
            TokenKind::Dot => ".".to_owned(),
            TokenKind::Minus => "-".to_owned(),
            TokenKind::Plus => "+".to_owned(),
            TokenKind::Semicolon => ";".to_owned(),
            TokenKind::Slash => "/".to_owned(),
            TokenKind::Star => "*".to_owned(),
            TokenKind::Bang => "!".to_owned(),
            TokenKind::BangEqual => "!=".to_owned(),
            TokenKind::Equal => "=".to_owned(),
            TokenKind::EqualEqual => "==".to_owned(),
            TokenKind::Greater => ">".to_owned(),
            TokenKind::GreaterEqual => ">=".to_owned(),
            TokenKind::Less => "<".to_owned(),
            TokenKind::LessEqual => "<=".to_owned(),
            TokenKind::Identifier(s) => s.clone(),
            TokenKind::Str(s) => s.clone(),
            TokenKind::Number(_, s) => s.clone(),
            TokenKind::And => "and".to_owned(),
            TokenKind::Class => "class".to_owned(),
            TokenKind::Else => "else".to_owned(),
            TokenKind::False => "false".to_owned(),
            TokenKind::Fun => "fun".to_owned(),
            TokenKind::For => "for".to_owned(),
            TokenKind::If => "if".to_owned(),
            TokenKind::Nil => "nil".to_owned(),
            TokenKind::Or => "or".to_owned(),
            TokenKind::Print => "print".to_owned(),
            TokenKind::Return => "return".to_owned(),
            TokenKind::Super => "super".to_owned(),
            TokenKind::This => "this".to_owned(),
            TokenKind::True => "true".to_owned(),
            TokenKind::Var => "var".to_owned(),
            TokenKind::While => "while".to_owned(),
            TokenKind::Whitespace => "%".to_owned(),
            TokenKind::Comment => "%".to_owned(),
            TokenKind::Error(_) => "err".to_owned(),
            TokenKind::Eof => "eof".to_owned(),
        }
    }
}

} // verus!
