//! The parser sees a source text only through its tokens: two texts with the
//! same tokens have the same tree, whatever their whitespace and comments.
use vstd::prelude::*;
use crate::lexer::{lemma_next_token_advances, next_token_at, tokens_from};
use crate::parser::ast::{ctype_of, CType, DeclarationView, ExpressionView, StatementView};
use crate::parser::grammar::{
    chain_at, continues, declaration_at, declarations_at, expression_at,
    function_declaration_at, infix_at, is_binary_operator, lemma_declaration_consumes,
    lemma_infix_consumes, lemma_prefix_consumes, lemma_shift_decreases,
    lemma_statement_consumes, parameters_at, parse_source, past_semicolon,
    prefix_at, remaining, right_operand_floor, shift, start, statement_at, statements_at,
    variable_declaration_at, Cursor,
};
use crate::parser::precedence::Precedence;
use crate::token::TokenView;

verus! {

/// Two windows, each over its own text, that hold the same two tokens and
/// have the same tokens ahead of them.
pub open spec fn same_tokens(s1: Seq<char>, c1: Cursor, s2: Seq<char>, c2: Cursor) -> bool {
    &&& 0 <= c1.pos <= s1.len()
    &&& 0 <= c2.pos <= s2.len()
    &&& c1.token == c2.token
    &&& c1.peek == c2.peek
    &&& tokens_from(s1, c1.pos) == tokens_from(s2, c2.pos)
}

/// Moving two windows with the same tokens forward leaves them with the same tokens.
pub proof fn lemma_shift_same(s1: Seq<char>, c1: Cursor, s2: Seq<char>, c2: Cursor)
    requires
        same_tokens(s1, c1, s2, c2),
    ensures
        same_tokens(s1, shift(s1, c1), s2, shift(s2, c2)),
{
    lemma_next_token_advances(s1, c1.pos);
    lemma_next_token_advances(s2, c2.pos);
    let (t1, next1) = next_token_at(s1, c1.pos);
    let (t2, next2) = next_token_at(s2, c2.pos);
    let all1 = tokens_from(s1, c1.pos);
    let all2 = tokens_from(s2, c2.pos);
    assert(all1[0] == t1);
    assert(all2[0] == t2);
    if t1 == TokenView::EOF {
        assert(next1 == s1.len());
        assert(next2 == s2.len());
        assert(next_token_at(s1, next1).0 == TokenView::EOF);
        assert(next_token_at(s2, next2).0 == TokenView::EOF);
    } else {
        assert(tokens_from(s1, next1) =~= all1.skip(1));
        assert(tokens_from(s2, next2) =~= all2.skip(1));
    }
}

/// Passing over an optional `;` keeps the tokens the same.
pub proof fn lemma_past_semicolon_same(s1: Seq<char>, c1: Cursor, s2: Seq<char>, c2: Cursor)
    requires
        same_tokens(s1, c1, s2, c2),
    ensures
        same_tokens(s1, past_semicolon(s1, c1), s2, past_semicolon(s2, c2)),
{
    if c1.token == TokenView::Semicolon {
        lemma_shift_same(s1, c1, s2, c2);
    }
}

/// A leading term depends on the tokens alone.
pub proof fn lemma_prefix_same(s1: Seq<char>, c1: Cursor, s2: Seq<char>, c2: Cursor)
    requires
        same_tokens(s1, c1, s2, c2),
    ensures
        prefix_at(s1, c1).0 == prefix_at(s2, c2).0,
        same_tokens(s1, prefix_at(s1, c1).1, s2, prefix_at(s2, c2).1),
    decreases remaining(s1, c1), 0nat,
{
    match c1.token {
        TokenView::IntegerLiteral(_) | TokenView::Identifier(_) => {
            lemma_shift_same(s1, c1, s2, c2);
        },
        TokenView::Plus | TokenView::Minus => {
            lemma_shift_same(s1, c1, s2, c2);
            lemma_shift_decreases(s1, c1);
            lemma_expression_same(s1, shift(s1, c1), s2, shift(s2, c2), Precedence::Unary);
        },
        TokenView::OpenParen => {
            lemma_shift_same(s1, c1, s2, c2);
            lemma_shift_decreases(s1, c1);
            lemma_expression_same(s1, shift(s1, c1), s2, shift(s2, c2), Precedence::Lowest);
            let (inner, after1) = expression_at(s1, shift(s1, c1), Precedence::Lowest);
            let after2 = expression_at(s2, shift(s2, c2), Precedence::Lowest).1;
            if inner is Ok && after1.token == TokenView::CloseParen {
                lemma_shift_same(s1, after1, s2, after2);
            }
        },
        _ => {},
    }
}

/// An infix step depends on the tokens alone.
pub proof fn lemma_infix_same(
    s1: Seq<char>,
    c1: Cursor,
    s2: Seq<char>,
    c2: Cursor,
    left: ExpressionView,
)
    requires
        same_tokens(s1, c1, s2, c2),
    ensures
        infix_at(s1, c1, left).0 == infix_at(s2, c2, left).0,
        same_tokens(s1, infix_at(s1, c1, left).1, s2, infix_at(s2, c2, left).1),
    decreases remaining(s1, c1), 1nat,
{
    if is_binary_operator(c1.token) {
        lemma_shift_same(s1, c1, s2, c2);
        lemma_shift_decreases(s1, c1);
        lemma_expression_same(
            s1,
            shift(s1, c1),
            s2,
            shift(s2, c2),
            right_operand_floor(c1.token),
        );
    }
}

/// An operator chain depends on the tokens alone.
pub proof fn lemma_chain_same(
    s1: Seq<char>,
    c1: Cursor,
    s2: Seq<char>,
    c2: Cursor,
    left: ExpressionView,
    min: Precedence,
)
    requires
        same_tokens(s1, c1, s2, c2),
    ensures
        chain_at(s1, c1, left, min).0 == chain_at(s2, c2, left, min).0,
        same_tokens(s1, chain_at(s1, c1, left, min).1, s2, chain_at(s2, c2, left, min).1),
    decreases remaining(s1, c1), 2nat,
{
    if continues(c1.token, min) {
        lemma_infix_same(s1, c1, s2, c2, left);
        lemma_infix_consumes(s1, c1, left);
        lemma_infix_consumes(s2, c2, left);
        let (folded, after1) = infix_at(s1, c1, left);
        let after2 = infix_at(s2, c2, left).1;
        match folded {
            Ok(e) => {
                lemma_chain_same(s1, after1, s2, after2, e, min);
            },
            Err(_) => {},
        }
    }
}

/// An expression depends on the tokens alone.
pub proof fn lemma_expression_same(
    s1: Seq<char>,
    c1: Cursor,
    s2: Seq<char>,
    c2: Cursor,
    min: Precedence,
)
    requires
        same_tokens(s1, c1, s2, c2),
    ensures
        expression_at(s1, c1, min).0 == expression_at(s2, c2, min).0,
        same_tokens(s1, expression_at(s1, c1, min).1, s2, expression_at(s2, c2, min).1),
    decreases remaining(s1, c1), 3nat,
{
    lemma_prefix_same(s1, c1, s2, c2);
    lemma_prefix_consumes(s1, c1);
    lemma_prefix_consumes(s2, c2);
    let (term, after1) = prefix_at(s1, c1);
    let after2 = prefix_at(s2, c2).1;
    match term {
        Ok(left) => {
            lemma_chain_same(s1, after1, s2, after2, left, min);
        },
        Err(_) => {},
    }
}

/// A statement depends on the tokens alone.
pub proof fn lemma_statement_same(s1: Seq<char>, c1: Cursor, s2: Seq<char>, c2: Cursor)
    requires
        same_tokens(s1, c1, s2, c2),
    ensures
        statement_at(s1, c1).0 == statement_at(s2, c2).0,
        same_tokens(s1, statement_at(s1, c1).1, s2, statement_at(s2, c2).1),
{
    if c1.token == TokenView::Return {
        lemma_shift_same(s1, c1, s2, c2);
        lemma_expression_same(s1, shift(s1, c1), s2, shift(s2, c2), Precedence::Lowest);
        lemma_past_semicolon_same(
            s1,
            expression_at(s1, shift(s1, c1), Precedence::Lowest).1,
            s2,
            expression_at(s2, shift(s2, c2), Precedence::Lowest).1,
        );
    }
}

/// The statements of a body depend on the tokens alone.
pub proof fn lemma_statements_same(
    s1: Seq<char>,
    c1: Cursor,
    s2: Seq<char>,
    c2: Cursor,
    done: Seq<StatementView>,
)
    requires
        same_tokens(s1, c1, s2, c2),
    ensures
        statements_at(s1, c1, done).0 == statements_at(s2, c2, done).0,
        same_tokens(s1, statements_at(s1, c1, done).1, s2, statements_at(s2, c2, done).1),
    decreases remaining(s1, c1),
{
    if c1.token == TokenView::CloseBrace {
        lemma_shift_same(s1, c1, s2, c2);
    } else {
        lemma_statement_same(s1, c1, s2, c2);
        lemma_statement_consumes(s1, c1);
        lemma_statement_consumes(s2, c2);
        let (statement, after1) = statement_at(s1, c1);
        let after2 = statement_at(s2, c2).1;
        match statement {
            Ok(x) => {
                lemma_statements_same(s1, after1, s2, after2, done.push(x));
            },
            Err(_) => {},
        }
    }
}

/// A parameter list depends on the tokens alone.
pub proof fn lemma_parameters_same(s1: Seq<char>, c1: Cursor, s2: Seq<char>, c2: Cursor)
    requires
        same_tokens(s1, c1, s2, c2),
    ensures
        parameters_at(s1, c1).0 == parameters_at(s2, c2).0,
        same_tokens(s1, parameters_at(s1, c1).1, s2, parameters_at(s2, c2).1),
{
    lemma_shift_same(s1, c1, s2, c2);
    let first1 = shift(s1, c1);
    let first2 = shift(s2, c2);
    lemma_shift_same(s1, first1, s2, first2);
    let named1 = shift(s1, first1);
    let named2 = shift(s2, first2);
    lemma_shift_same(s1, named1, s2, named2);
    let end1 = shift(s1, named1);
    let end2 = shift(s2, named2);
    lemma_shift_same(s1, end1, s2, end2);
}

/// A function's rest depends on the tokens alone.
pub proof fn lemma_function_declaration_same(
    s1: Seq<char>,
    c1: Cursor,
    s2: Seq<char>,
    c2: Cursor,
    ctype: CType,
    name: Seq<char>,
)
    requires
        same_tokens(s1, c1, s2, c2),
    ensures
        function_declaration_at(s1, c1, ctype, name).0 == function_declaration_at(
            s2,
            c2,
            ctype,
            name,
        ).0,
        same_tokens(
            s1,
            function_declaration_at(s1, c1, ctype, name).1,
            s2,
            function_declaration_at(s2, c2, ctype, name).1,
        ),
{
    lemma_parameters_same(s1, c1, s2, c2);
    let (parameters, after1) = parameters_at(s1, c1);
    let after2 = parameters_at(s2, c2).1;
    if parameters is Ok && after1.token == TokenView::OpenBrace {
        lemma_shift_same(s1, after1, s2, after2);
        lemma_statements_same(s1, shift(s1, after1), s2, shift(s2, after2), Seq::empty());
    }
}

/// A variable's rest depends on the tokens alone.
pub proof fn lemma_variable_declaration_same(
    s1: Seq<char>,
    c1: Cursor,
    s2: Seq<char>,
    c2: Cursor,
    ctype: CType,
    name: Seq<char>,
)
    requires
        same_tokens(s1, c1, s2, c2),
    ensures
        variable_declaration_at(s1, c1, ctype, name).0 == variable_declaration_at(
            s2,
            c2,
            ctype,
            name,
        ).0,
        same_tokens(
            s1,
            variable_declaration_at(s1, c1, ctype, name).1,
            s2,
            variable_declaration_at(s2, c2, ctype, name).1,
        ),
{
    lemma_shift_same(s1, c1, s2, c2);
    if c1.token == TokenView::Assignment {
        lemma_expression_same(s1, shift(s1, c1), s2, shift(s2, c2), Precedence::Lowest);
        lemma_past_semicolon_same(
            s1,
            expression_at(s1, shift(s1, c1), Precedence::Lowest).1,
            s2,
            expression_at(s2, shift(s2, c2), Precedence::Lowest).1,
        );
    }
}

/// A declaration depends on the tokens alone.
pub proof fn lemma_declaration_same(s1: Seq<char>, c1: Cursor, s2: Seq<char>, c2: Cursor)
    requires
        same_tokens(s1, c1, s2, c2),
    ensures
        declaration_at(s1, c1).0 == declaration_at(s2, c2).0,
        same_tokens(s1, declaration_at(s1, c1).1, s2, declaration_at(s2, c2).1),
{
    lemma_shift_same(s1, c1, s2, c2);
    let named1 = shift(s1, c1);
    let named2 = shift(s2, c2);
    lemma_shift_same(s1, named1, s2, named2);
    let rest1 = shift(s1, named1);
    let rest2 = shift(s2, named2);
    match named1.token {
        TokenView::Identifier(name) => {
            match ctype_of(c1.token) {
                Some(ctype) => {
                    lemma_variable_declaration_same(s1, rest1, s2, rest2, ctype, name);
                    lemma_function_declaration_same(s1, rest1, s2, rest2, ctype, name);
                },
                None => {},
            }
        },
        _ => {},
    }
}

/// The declarations of a text depend on the tokens alone.
pub proof fn lemma_declarations_same(
    s1: Seq<char>,
    c1: Cursor,
    s2: Seq<char>,
    c2: Cursor,
    done: Seq<DeclarationView>,
)
    requires
        same_tokens(s1, c1, s2, c2),
    ensures
        declarations_at(s1, c1, done).0 == declarations_at(s2, c2, done).0,
        same_tokens(s1, declarations_at(s1, c1, done).1, s2, declarations_at(s2, c2, done).1),
    decreases remaining(s1, c1),
{
    if c1.token != TokenView::EOF {
        lemma_declaration_same(s1, c1, s2, c2);
        lemma_declaration_consumes(s1, c1);
        lemma_declaration_consumes(s2, c2);
        let (declaration, after1) = declaration_at(s1, c1);
        let after2 = declaration_at(s2, c2).1;
        match declaration {
            Ok(x) => {
                lemma_declarations_same(s1, after1, s2, after2, done.push(x));
            },
            Err(_) => {},
        }
    }
}

/// Two source texts with the same tokens parse to the same tree, or fail
/// with the same error: whitespace and comments never reach the parser.
pub proof fn theorem_parse_reads_tokens_only(s1: Seq<char>, s2: Seq<char>)
    requires
        tokens_from(s1, 0) == tokens_from(s2, 0),
    ensures
        parse_source(s1) == parse_source(s2),
{
    let before1 = Cursor { token: TokenView::EOF, peek: TokenView::EOF, pos: 0 };
    let before2 = Cursor { token: TokenView::EOF, peek: TokenView::EOF, pos: 0 };
    lemma_shift_same(s1, before1, s2, before2);
    lemma_shift_same(s1, shift(s1, before1), s2, shift(s2, before2));
    assert(start(s1) == shift(s1, shift(s1, before1)));
    assert(start(s2) == shift(s2, shift(s2, before2)));
    lemma_declarations_same(s1, start(s1), s2, start(s2), Seq::empty());
}

} // verus!
