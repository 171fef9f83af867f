//! Lexical and syntactic front end for a small C-like language.
//!
//! Source text is turned into tokens by [`lexer::Lexer`], and tokens into a
//! [`parser::ast::TranslationUnit`] by [`parser::parse`].
//!
//! Every function is specified against a mathematical model of the source
//! text, a sequence of characters, and proved to follow it:
//! [`lexer::next_token_at`] says which token stands where, and
//! [`parser::grammar`] says which tree the tokens make. [`theorems`],
//! [`comments`], [`parser::stream`] and [`parser::joined`] hold what follows
//! from these for every input.
pub mod chars;
pub mod comments;
pub mod lexer;
pub mod parser;
pub mod theorems;
pub mod token;

pub use parser::parse;
pub use token::Token;
