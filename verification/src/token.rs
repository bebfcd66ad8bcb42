//! The token taxonomy and the lexical error type, together with their
//! mathematical models.

use vstd::prelude::*;

verus! {

/// One lexical unit of the source text.
///
/// Keyword and operator variants carry no payload; `Ident` carries the exact
/// source spelling, `Number` the exact source spelling of the numeric
/// literal, and `String` the decoded content of the string literal (escapes
/// resolved, surrounding quotes stripped).
#[derive(Debug, Clone, PartialEq)]
pub enum Token {
    Struct,
    Null,
    TVoid,
    TInt,
    TFloat,
    TString,
    TBoolean,
    Else,
    If,
    While,
    For,
    Return,
    Let,
    Mut,
    Fn,
    True,
    False,
    Dot,
    Semi,
    Comma,
    LBrace,
    RBrace,
    Plus,
    Dash,
    Star,
    Slash,
    Percent,
    Eq,
    EqEq,
    Bang,
    BangEq,
    LT,
    LTEQ,
    GT,
    GTEQ,
    AndAnd,
    OrOr,
    LParen,
    RParen,
    LBracket,
    RBracket,
    Arrow,
    Ident(String),
    Number(String),
    String(String),
}

/// The mathematical model of a [`Token`]: the same tags, with each owned
/// string abstracted to its sequence of characters.
pub enum TokenModel {
    Struct,
    Null,
    TVoid,
    TInt,
    TFloat,
    TString,
    TBoolean,
    Else,
    If,
    While,
    For,
    Return,
    Let,
    Mut,
    Fn,
    True,
    False,
    Dot,
    Semi,
    Comma,
    LBrace,
    RBrace,
    Plus,
    Dash,
    Star,
    Slash,
    Percent,
    Eq,
    EqEq,
    Bang,
    BangEq,
    LT,
    LTEQ,
    GT,
    GTEQ,
    AndAnd,
    OrOr,
    LParen,
    RParen,
    LBracket,
    RBracket,
    Arrow,
    Ident(Seq<char>),
    Number(Seq<char>),
    String(Seq<char>),
}

impl View for Token {
    type V = TokenModel;

    open spec fn view(&self) -> TokenModel {
        match self {
            Token::Struct => TokenModel::Struct,
            Token::Null => TokenModel::Null,
            Token::TVoid => TokenModel::TVoid,
            Token::TInt => TokenModel::TInt,
            Token::TFloat => TokenModel::TFloat,
            Token::TString => TokenModel::TString,
            Token::TBoolean => TokenModel::TBoolean,
            Token::Else => TokenModel::Else,
            Token::If => TokenModel::If,
            Token::While => TokenModel::While,
            Token::For => TokenModel::For,
            Token::Return => TokenModel::Return,
            Token::Let => TokenModel::Let,
            Token::Mut => TokenModel::Mut,
            Token::Fn => TokenModel::Fn,
            Token::True => TokenModel::True,
            Token::False => TokenModel::False,
            Token::Dot => TokenModel::Dot,
            Token::Semi => TokenModel::Semi,
            Token::Comma => TokenModel::Comma,
            Token::LBrace => TokenModel::LBrace,
            Token::RBrace => TokenModel::RBrace,
            Token::Plus => TokenModel::Plus,
            Token::Dash => TokenModel::Dash,
            Token::Star => TokenModel::Star,
            Token::Slash => TokenModel::Slash,
            Token::Percent => TokenModel::Percent,
            Token::Eq => TokenModel::Eq,
            Token::EqEq => TokenModel::EqEq,
            Token::Bang => TokenModel::Bang,
            Token::BangEq => TokenModel::BangEq,
            Token::LT => TokenModel::LT,
            Token::LTEQ => TokenModel::LTEQ,
            Token::GT => TokenModel::GT,
            Token::GTEQ => TokenModel::GTEQ,
            Token::AndAnd => TokenModel::AndAnd,
            Token::OrOr => TokenModel::OrOr,
            Token::LParen => TokenModel::LParen,
            Token::RParen => TokenModel::RParen,
            Token::LBracket => TokenModel::LBracket,
            Token::RBracket => TokenModel::RBracket,
            Token::Arrow => TokenModel::Arrow,
            Token::Ident(s) => TokenModel::Ident(s@),
            Token::Number(s) => TokenModel::Number(s@),
            Token::String(s) => TokenModel::String(s@),
        }
    }
}

/// A recoverable lexical failure, carrying the character span of the
/// offending input.
#[derive(Debug, Clone, PartialEq)]
pub enum LexError {
    /// The character at `start` begins no trivia and no token; the span
    /// covers exactly that one character, and scanning resumes after it.
    UnrecognizedCharacter { start: usize, end: usize },
}

} // verus!
