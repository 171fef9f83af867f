//! The errors that parsing can end in.
use vstd::prelude::*;
use crate::token::{Token, TokenView};

verus! {

/// A syntactic error. Parsing stops at the first one.
#[derive(Debug, PartialEq, Clone)]
pub enum ParserError {
    /// A token of one class was expected and another was found.
    Expected(&'static str, Token),
    /// A construct that the grammar does not support.
    Other(&'static str),
}

/// Model of a [`ParserError`].
pub enum ParserErrorView {
    Expected(Seq<char>, TokenView),
    Other(Seq<char>),
}

impl View for ParserError {
    type V = ParserErrorView;

    open spec fn view(&self) -> ParserErrorView {
        match self {
            ParserError::Expected(what, got) => ParserErrorView::Expected(what@, got@),
            ParserError::Other(message) => ParserErrorView::Other(message@),
        }
    }
}

} // verus!
