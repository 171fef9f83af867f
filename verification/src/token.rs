use vstd::prelude::*;

verus! {

/// Atomic lexical unit. Tokens carry no position; equality is structural.
#[derive(Debug, PartialEq, Clone)]
pub enum Token {
    // Keywords
    Int,
    Void,
    Return,
    // Identifiers (e.g., 'main')
    Identifier(String),
    // Literals
    IntegerLiteral(u64),
    CharacterLiteral(char),
    // Punctuation
    OpenParen,
    CloseParen,
    OpenBrace,
    CloseBrace,
    Semicolon,
    Colon,
    // Operators
    Plus,
    Minus,
    Asterix,
    Slash,
    Assignment,
    Equal,
    // Utils
    Error(String),
    EOF,
}

/// Mathematical model of a [`Token`]: text is a sequence of characters.
pub enum TokenView {
    Int,
    Void,
    Return,
    Identifier(Seq<char>),
    IntegerLiteral(u64),
    CharacterLiteral(char),
    OpenParen,
    CloseParen,
    OpenBrace,
    CloseBrace,
    Semicolon,
    Colon,
    Plus,
    Minus,
    Asterix,
    Slash,
    Assignment,
    Equal,
    Error(Seq<char>),
    EOF,
}

impl View for Token {
    type V = TokenView;

    open spec fn view(&self) -> TokenView {
        match self {
            Token::Int => TokenView::Int,
            Token::Void => TokenView::Void,
            Token::Return => TokenView::Return,
            Token::Identifier(name) => TokenView::Identifier(name@),
            Token::IntegerLiteral(value) => TokenView::IntegerLiteral(*value),
            Token::CharacterLiteral(c) => TokenView::CharacterLiteral(*c),
            Token::OpenParen => TokenView::OpenParen,
            Token::CloseParen => TokenView::CloseParen,
            Token::OpenBrace => TokenView::OpenBrace,
            Token::CloseBrace => TokenView::CloseBrace,
            Token::Semicolon => TokenView::Semicolon,
            Token::Colon => TokenView::Colon,
            Token::Plus => TokenView::Plus,
            Token::Minus => TokenView::Minus,
            Token::Asterix => TokenView::Asterix,
            Token::Slash => TokenView::Slash,
            Token::Assignment => TokenView::Assignment,
            Token::Equal => TokenView::Equal,
            Token::Error(message) => TokenView::Error(message@),
            Token::EOF => TokenView::EOF,
        }
    }
}

impl Token {
    /// A copy of this token with the same contents.
    pub fn duplicate(&self) -> (copy: Token)
        ensures
            copy == *self,
    {
        match self {
            Token::Int => Token::Int,
            Token::Void => Token::Void,
            Token::Return => Token::Return,
            Token::Identifier(name) => Token::Identifier(name.clone()),
            Token::IntegerLiteral(value) => Token::IntegerLiteral(*value),
            Token::CharacterLiteral(c) => Token::CharacterLiteral(*c),
            Token::OpenParen => Token::OpenParen,
            Token::CloseParen => Token::CloseParen,
            Token::OpenBrace => Token::OpenBrace,
            Token::CloseBrace => Token::CloseBrace,
            Token::Semicolon => Token::Semicolon,
            Token::Colon => Token::Colon,
            Token::Plus => Token::Plus,
            Token::Minus => Token::Minus,
            Token::Asterix => Token::Asterix,
            Token::Slash => Token::Slash,
            Token::Assignment => Token::Assignment,
            Token::Equal => Token::Equal,
            Token::Error(message) => Token::Error(message.clone()),
            Token::EOF => Token::EOF,
        }
    }

    /// Whether this token is the end-of-input sentinel.
    pub fn is_eof(&self) -> (b: bool)
        ensures
            b == (self@ == TokenView::EOF),
    {
        match self {
            Token::EOF => true,
            _ => false,
        }
    }
}

} // verus!
