//! Binding power of operators.
use vstd::prelude::*;
use crate::token::{Token, TokenView};

verus! {

/// Binding power of an operator; a later variant binds tighter.
#[derive(Debug, Clone, Copy, PartialEq, Eq, PartialOrd, Ord)]
pub enum Precedence {
    Lowest,
    Assignment,
    Equality,
    Relational,
    Additive,
    Multiplicative,
    Unary,
    Postfix,
}

/// The binding power of a token in infix position; `Lowest` for a token that is no operator.
pub open spec fn precedence_of(token: TokenView) -> Precedence {
    match token {
        TokenView::Assignment => Precedence::Assignment,
        TokenView::Equal => Precedence::Equality,
        TokenView::Plus | TokenView::Minus => Precedence::Additive,
        TokenView::Asterix | TokenView::Slash => Precedence::Multiplicative,
        _ => Precedence::Lowest,
    }
}

impl Precedence {
    /// The rank of this precedence, from 0 for `Lowest` to 7 for `Postfix`.
    pub open spec fn rank(self) -> nat {
        match self {
            Precedence::Lowest => 0,
            Precedence::Assignment => 1,
            Precedence::Equality => 2,
            Precedence::Relational => 3,
            Precedence::Additive => 4,
            Precedence::Multiplicative => 5,
            Precedence::Unary => 6,
            Precedence::Postfix => 7,
        }
    }

    /// Computes [`Self::rank`].
    pub fn level(self) -> (n: u8)
        ensures
            n == self.rank(),
    {
        match self {
            Precedence::Lowest => 0,
            Precedence::Assignment => 1,
            Precedence::Equality => 2,
            Precedence::Relational => 3,
            Precedence::Additive => 4,
            Precedence::Multiplicative => 5,
            Precedence::Unary => 6,
            Precedence::Postfix => 7,
        }
    }

    /// The binding power of `token` in infix position.
    pub fn from_token(token: &Token) -> (p: Precedence)
        ensures
            p == precedence_of(token@),
    {
        match token {
            Token::Assignment => Precedence::Assignment,
            Token::Equal => Precedence::Equality,
            Token::Plus | Token::Minus => Precedence::Additive,
            Token::Asterix | Token::Slash => Precedence::Multiplicative,
            _ => Precedence::Lowest,
        }
    }

    /// Whether `token` is an operator that groups from the right: only assignment does.
    pub fn is_right_associative(token: &Token) -> (b: bool)
        ensures
            b == (token@ == TokenView::Assignment),
    {
        matches!(token, Token::Assignment)
    }
}

impl From<&Token> for Precedence {
    /// The binding power of `value` in infix position.
    fn from(value: &Token) -> (p: Precedence) {
        Precedence::from_token(value)
    }
}

impl vstd::std_specs::convert::FromSpecImpl<&Token> for Precedence {
    open spec fn obeys_from_spec() -> bool {
        true
    }

    open spec fn from_spec(value: &Token) -> Precedence {
        precedence_of(value@)
    }
}

} // verus!
