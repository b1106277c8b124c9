//! The tokens of the layout language, and the lexer that reads them.

pub mod lexer;

pub use lexer::Lexer;

use crate::number::rational::{Ratio, Rational};
use vstd::prelude::*;

verus! {

/// A token of the layout language.
#[derive(Debug)]
pub enum Token {
    /// Two numbers: the coordinates of a point.
    ValuePair(Rational, Rational),
    /// A name.
    Ident(String),
    /// `->`
    Arrow,
    /// `~>`
    TildeArrow,
    /// `=>`
    WideArrow,
    /// `:=`
    Assign,
    /// `[`
    LBracket,
    /// `[[`
    LWideBracket,
    /// `]`
    RBracket,
    /// `]]`
    RWideBracket,
    Comma,
    Plus,
    LParen,
    RParen,
    LCurly,
    RCurly,
    Pipe,
    Slash,
    QuestionMark,
    Semicolon,
    /// The section sign, which marks a radical.
    Section,
    Ampersand,
}

/// What a `Token` holds.
pub enum SpecToken {
    ValuePair(Ratio, Ratio),
    Ident(Seq<char>),
    Arrow,
    TildeArrow,
    WideArrow,
    Assign,
    LBracket,
    LWideBracket,
    RBracket,
    RWideBracket,
    Comma,
    Plus,
    LParen,
    RParen,
    LCurly,
    RCurly,
    Pipe,
    Slash,
    QuestionMark,
    Semicolon,
    Section,
    Ampersand,
}

impl View for Token {
    type V = SpecToken;

    open spec fn view(&self) -> SpecToken {
        match self {
            Token::ValuePair(x, y) => SpecToken::ValuePair(x@, y@),
            Token::Ident(name) => SpecToken::Ident(name@),
            Token::Arrow => SpecToken::Arrow,
            Token::TildeArrow => SpecToken::TildeArrow,
            Token::WideArrow => SpecToken::WideArrow,
            Token::Assign => SpecToken::Assign,
            Token::LBracket => SpecToken::LBracket,
            Token::LWideBracket => SpecToken::LWideBracket,
            Token::RBracket => SpecToken::RBracket,
            Token::RWideBracket => SpecToken::RWideBracket,
            Token::Comma => SpecToken::Comma,
            Token::Plus => SpecToken::Plus,
            Token::LParen => SpecToken::LParen,
            Token::RParen => SpecToken::RParen,
            Token::LCurly => SpecToken::LCurly,
            Token::RCurly => SpecToken::RCurly,
            Token::Pipe => SpecToken::Pipe,
            Token::Slash => SpecToken::Slash,
            Token::QuestionMark => SpecToken::QuestionMark,
            Token::Semicolon => SpecToken::Semicolon,
            Token::Section => SpecToken::Section,
            Token::Ampersand => SpecToken::Ampersand,
        }
    }
}

/// The kind of a token: the token without what it holds.
#[derive(Clone, Copy, Debug, PartialEq, Eq, Structural)]
pub enum TokenKind {
    ValuePair,
    Ident,
    Arrow,
    TildeArrow,
    WideArrow,
    Assign,
    LBracket,
    LWideBracket,
    RBracket,
    RWideBracket,
    Comma,
    Plus,
    LParen,
    RParen,
    LCurly,
    RCurly,
    Pipe,
    Slash,
    QuestionMark,
    Semicolon,
    Section,
    Ampersand,
}

impl SpecToken {
    /// The kind of this token.
    pub open spec fn kind(self) -> TokenKind {
        match self {
            SpecToken::ValuePair(_, _) => TokenKind::ValuePair,
            SpecToken::Ident(_) => TokenKind::Ident,
            SpecToken::Arrow => TokenKind::Arrow,
            SpecToken::TildeArrow => TokenKind::TildeArrow,
            SpecToken::WideArrow => TokenKind::WideArrow,
            SpecToken::Assign => TokenKind::Assign,
            SpecToken::LBracket => TokenKind::LBracket,
            SpecToken::LWideBracket => TokenKind::LWideBracket,
            SpecToken::RBracket => TokenKind::RBracket,
            SpecToken::RWideBracket => TokenKind::RWideBracket,
            SpecToken::Comma => TokenKind::Comma,
            SpecToken::Plus => TokenKind::Plus,
            SpecToken::LParen => TokenKind::LParen,
            SpecToken::RParen => TokenKind::RParen,
            SpecToken::LCurly => TokenKind::LCurly,
            SpecToken::RCurly => TokenKind::RCurly,
            SpecToken::Pipe => TokenKind::Pipe,
            SpecToken::Slash => TokenKind::Slash,
            SpecToken::QuestionMark => TokenKind::QuestionMark,
            SpecToken::Semicolon => TokenKind::Semicolon,
            SpecToken::Section => TokenKind::Section,
            SpecToken::Ampersand => TokenKind::Ampersand,
        }
    }
}

impl Token {
    /// The kind of this token.
    pub fn kind(&self) -> (k: TokenKind)
        ensures
            k == self@.kind(),
    {
        match self {
            Token::ValuePair(_, _) => TokenKind::ValuePair,
            Token::Ident(_) => TokenKind::Ident,
            Token::Arrow => TokenKind::Arrow,
            Token::TildeArrow => TokenKind::TildeArrow,
            Token::WideArrow => TokenKind::WideArrow,
            Token::Assign => TokenKind::Assign,
            Token::LBracket => TokenKind::LBracket,
            Token::LWideBracket => TokenKind::LWideBracket,
            Token::RBracket => TokenKind::RBracket,
            Token::RWideBracket => TokenKind::RWideBracket,
            Token::Comma => TokenKind::Comma,
            Token::Plus => TokenKind::Plus,
            Token::LParen => TokenKind::LParen,
            Token::RParen => TokenKind::RParen,
            Token::LCurly => TokenKind::LCurly,
            Token::RCurly => TokenKind::RCurly,
            Token::Pipe => TokenKind::Pipe,
            Token::Slash => TokenKind::Slash,
            Token::QuestionMark => TokenKind::QuestionMark,
            Token::Semicolon => TokenKind::Semicolon,
            Token::Section => TokenKind::Section,
            Token::Ampersand => TokenKind::Ampersand,
        }
    }
}

/// What a token that may be missing holds.
pub open spec fn token_view(token: Option<Token>) -> Option<SpecToken> {
    match token {
        Some(t) => Some(t@),
        None => None,
    }
}

/// The views of a sequence of tokens.
pub open spec fn tokens_view(tokens: Seq<Token>) -> Seq<SpecToken> {
    Seq::new(tokens.len(), |i: int| tokens[i]@)
}

impl Clone for Token {
    fn clone(&self) -> (r: Token)
        ensures
            r@ == self@,
    {
        match self {
            Token::ValuePair(x, y) => Token::ValuePair(x.clone(), y.clone()),
            Token::Ident(name) => Token::Ident(name.clone()),
            Token::Arrow => Token::Arrow,
            Token::TildeArrow => Token::TildeArrow,
            Token::WideArrow => Token::WideArrow,
            Token::Assign => Token::Assign,
            Token::LBracket => Token::LBracket,
            Token::LWideBracket => Token::LWideBracket,
            Token::RBracket => Token::RBracket,
            Token::RWideBracket => Token::RWideBracket,
            Token::Comma => Token::Comma,
            Token::Plus => Token::Plus,
            Token::LParen => Token::LParen,
            Token::RParen => Token::RParen,
            Token::LCurly => Token::LCurly,
            Token::RCurly => Token::RCurly,
            Token::Pipe => Token::Pipe,
            Token::Slash => Token::Slash,
            Token::QuestionMark => Token::QuestionMark,
            Token::Semicolon => Token::Semicolon,
            Token::Section => Token::Section,
            Token::Ampersand => Token::Ampersand,
        }
    }
}

} // verus!
