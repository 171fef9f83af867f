//! Two texts put together: where the tokens of the whole are the tokens of
//! the first text followed by those of the second, and both texts parse,
//! the whole parses to the declarations of the first followed by those of
//! the second.
use vstd::prelude::*;
use crate::lexer::{lemma_next_token_advances, next_token_at, tokens_from};
use crate::parser::ast::{
    ctype_of, DeclarationView, ExpressionView, StatementView, TranslationUnitView,
};
use crate::parser::error::ParserErrorView;
use crate::parser::grammar::{
    chain_at, continues, declaration_at, declarations_at, expression_at, infix_at,
    lemma_declaration_consumes, lemma_infix_consumes, lemma_prefix_consumes,
    lemma_shift_decreases, lemma_statement_consumes, parameters_at, parse_source,
    past_semicolon, prefix_at, remaining, right_operand_floor, shift, start, statement_at,
    statements_at, Cursor,
};
use crate::parser::precedence::Precedence;
use crate::parser::stream::{lemma_declarations_same, same_tokens};
use crate::theorems::{theorem_declarations_join, theorem_tokens_end_in_eof};
use crate::token::TokenView;

verus! {

/// The token with index `k` among the tokens of `s`; `EOF` behind the last.
pub open spec fn token_at(s: Seq<char>, k: int) -> TokenView {
    let all = tokens_from(s, 0);
    if 0 <= k < all.len() {
        all[k]
    } else {
        TokenView::EOF
    }
}

/// The tokens of `s` from index `k` on; `[EOF]` behind the last.
pub open spec fn tokens_behind(s: Seq<char>, k: int) -> Seq<TokenView> {
    let all = tokens_from(s, 0);
    if 0 <= k < all.len() {
        all.skip(k)
    } else {
        seq![TokenView::EOF]
    }
}

/// The number of tokens of `s` in front of its `EOF`.
pub open spec fn token_count(s: Seq<char>) -> int {
    tokens_from(s, 0).len() - 1
}

/// Whether the window `c` over `s` holds the tokens with index `k` and `k + 1`.
pub open spec fn window_is_at(s: Seq<char>, c: Cursor, k: int) -> bool {
    &&& 0 <= k
    &&& 0 <= c.pos <= s.len()
    &&& c.token == token_at(s, k)
    &&& c.peek == token_at(s, k + 1)
    &&& tokens_from(s, c.pos) == tokens_behind(s, k + 2)
}

/// Reading a token where the tokens from index `k` on are ahead yields the
/// token with index `k` and leaves those from `k + 1` on ahead.
pub proof fn lemma_next_is_at(s: Seq<char>, pos: int, k: int)
    requires
        0 <= k,
        0 <= pos <= s.len(),
        tokens_from(s, pos) == tokens_behind(s, k),
    ensures
        next_token_at(s, pos).0 == token_at(s, k),
        0 <= next_token_at(s, pos).1 <= s.len(),
        tokens_from(s, next_token_at(s, pos).1) == tokens_behind(s, k + 1),
{
    theorem_tokens_end_in_eof(s, 0);
    lemma_next_token_advances(s, pos);
    let all = tokens_from(s, 0);
    let (t, next) = next_token_at(s, pos);
    let ahead = tokens_from(s, pos);
    assert(ahead[0] == t);
    if t == TokenView::EOF {
        assert(next == s.len());
        assert(next_token_at(s, next).0 == TokenView::EOF);
        if k < all.len() {
            assert(all[k] == TokenView::EOF);
        }
    } else {
        assert(k < all.len());
        assert(all[k] == t);
        assert(tokens_from(s, next) =~= ahead.skip(1));
        assert(ahead.skip(1) =~= all.skip(k + 1));
    }
}

/// The window at the start of a text holds its first two tokens.
pub proof fn lemma_start_is_at(s: Seq<char>)
    ensures
        window_is_at(s, start(s), 0),
{
    assert(tokens_from(s, 0).skip(0) =~= tokens_from(s, 0));
    theorem_tokens_end_in_eof(s, 0);
    lemma_next_is_at(s, 0, 0);
    lemma_next_is_at(s, next_token_at(s, 0).1, 1);
}

/// Moving the window forward moves it to the next index.
pub proof fn lemma_shift_is_at(s: Seq<char>, c: Cursor, k: int)
    requires
        window_is_at(s, c, k),
    ensures
        window_is_at(s, shift(s, c), k + 1),
{
    lemma_next_is_at(s, c.pos, k + 2);
}

/// Whether the tokens of `a + b` are the tokens of `a`, without its `EOF`,
/// followed by the tokens of `b`.
pub open spec fn joins(a: Seq<char>, b: Seq<char>) -> bool {
    tokens_from(a + b, 0) == tokens_from(a, 0).drop_last() + tokens_from(b, 0)
}

/// Whether `token` can stand where a declaration starts or the text ends.
pub open spec fn opens_or_ends(token: TokenView) -> bool {
    token == TokenView::Int || token == TokenView::Void || token == TokenView::EOF
}

/// Two windows at the same index, one over `a` and one over `a + b`, not
/// behind the end of `a`.
pub open spec fn paired(a: Seq<char>, ca: Cursor, b: Seq<char>, cab: Cursor, k: int) -> bool {
    &&& joins(a, b)
    &&& opens_or_ends(token_at(b, 0))
    &&& window_is_at(a, ca, k)
    &&& window_is_at(a + b, cab, k)
    &&& k <= token_count(a)
}

/// What two paired windows show: the same token up to the end of `a`, and
/// at the end of `a` the whole shows the first token of `b`.
pub proof fn lemma_paired_tokens(a: Seq<char>, ca: Cursor, b: Seq<char>, cab: Cursor, k: int)
    requires
        paired(a, ca, b, cab, k),
    ensures
        ca.token != TokenView::EOF ==> cab.token == ca.token && k < token_count(a),
        ca.token == TokenView::EOF ==> opens_or_ends(cab.token) && k == token_count(a),
        ca.token != TokenView::EOF && ca.peek != TokenView::EOF ==> cab.peek == ca.peek,
        ca.token != TokenView::EOF && ca.peek == TokenView::EOF ==> opens_or_ends(cab.peek),
{
    theorem_tokens_end_in_eof(a, 0);
    theorem_tokens_end_in_eof(b, 0);
    let ta = tokens_from(a, 0);
    let tb = tokens_from(b, 0);
    let tab = tokens_from(a + b, 0);
    let n = token_count(a);
    assert(tab.len() == n + tb.len());
    if k < n {
        assert(tab[k] == ta.drop_last()[k]);
        if k + 1 < n {
            assert(tab[k + 1] == ta.drop_last()[k + 1]);
        } else {
            assert(tab[k + 1] == tb[0]);
        }
    } else {
        assert(tab[k] == tb[0]);
    }
}

/// Moving two paired windows past a token of `a` leaves them paired.
pub proof fn lemma_shift_paired(a: Seq<char>, ca: Cursor, b: Seq<char>, cab: Cursor, k: int)
    requires
        paired(a, ca, b, cab, k),
        ca.token != TokenView::EOF,
    ensures
        paired(a, shift(a, ca), b, shift(a + b, cab), k + 1),
        cab.token == ca.token,
{
    lemma_paired_tokens(a, ca, b, cab, k);
    lemma_shift_is_at(a, ca, k);
    lemma_shift_is_at(a + b, cab, k);
}

/// At the end of `a`, the window over the whole is the window at the start of `b`.
pub proof fn lemma_end_is_start(a: Seq<char>, ca: Cursor, b: Seq<char>, cab: Cursor, k: int)
    requires
        paired(a, ca, b, cab, k),
        ca.token == TokenView::EOF,
    ensures
        same_tokens(a + b, cab, b, start(b)),
{
    lemma_paired_tokens(a, ca, b, cab, k);
    lemma_start_is_at(b);
    theorem_tokens_end_in_eof(a, 0);
    theorem_tokens_end_in_eof(b, 0);
    let ta = tokens_from(a, 0);
    let tb = tokens_from(b, 0);
    let tab = tokens_from(a + b, 0);
    let n = token_count(a);
    assert(tab.len() == n + tb.len());
    assert(tab[n] == tb[0]);
    if 1 < tb.len() {
        assert(tab[n + 1] == tb[1]);
    }
    if 2 < tb.len() {
        assert(tab.skip(n + 2) =~= tb.skip(2));
    }
}

/// A leading term that `a` holds is the leading term there in `a + b`.
pub proof fn lemma_prefix_joined(
    a: Seq<char>,
    ca: Cursor,
    b: Seq<char>,
    cab: Cursor,
    k: int,
) -> (k2: int)
    requires
        paired(a, ca, b, cab, k),
        prefix_at(a, ca).0 is Ok,
    ensures
        prefix_at(a + b, cab).0 == prefix_at(a, ca).0,
        paired(a, prefix_at(a, ca).1, b, prefix_at(a + b, cab).1, k2),
    decreases remaining(a, ca), 0nat,
{
    lemma_shift_paired(a, ca, b, cab, k);
    lemma_shift_decreases(a, ca);
    match ca.token {
        TokenView::Plus | TokenView::Minus => {
            lemma_expression_joined(a, shift(a, ca), b, shift(a + b, cab), k + 1, Precedence::Unary)
        },
        TokenView::OpenParen => {
            let k1 = lemma_expression_joined(
                a,
                shift(a, ca),
                b,
                shift(a + b, cab),
                k + 1,
                Precedence::Lowest,
            );
            let after = expression_at(a, shift(a, ca), Precedence::Lowest).1;
            let after2 = expression_at(a + b, shift(a + b, cab), Precedence::Lowest).1;
            lemma_shift_paired(a, after, b, after2, k1);
            k1 + 1
        },
        _ => k + 1,
    }
}

/// An infix step that `a` holds is the infix step there in `a + b`.
pub proof fn lemma_infix_joined(
    a: Seq<char>,
    ca: Cursor,
    b: Seq<char>,
    cab: Cursor,
    k: int,
    left: ExpressionView,
) -> (k2: int)
    requires
        paired(a, ca, b, cab, k),
        infix_at(a, ca, left).0 is Ok,
    ensures
        infix_at(a + b, cab, left).0 == infix_at(a, ca, left).0,
        paired(a, infix_at(a, ca, left).1, b, infix_at(a + b, cab, left).1, k2),
    decreases remaining(a, ca), 1nat,
{
    lemma_shift_paired(a, ca, b, cab, k);
    lemma_shift_decreases(a, ca);
    lemma_expression_joined(
        a,
        shift(a, ca),
        b,
        shift(a + b, cab),
        k + 1,
        right_operand_floor(ca.token),
    )
}

/// An operator chain that `a` holds is the operator chain there in `a + b`.
pub proof fn lemma_chain_joined(
    a: Seq<char>,
    ca: Cursor,
    b: Seq<char>,
    cab: Cursor,
    k: int,
    left: ExpressionView,
    min: Precedence,
) -> (k2: int)
    requires
        paired(a, ca, b, cab, k),
        chain_at(a, ca, left, min).0 is Ok,
    ensures
        chain_at(a + b, cab, left, min).0 == chain_at(a, ca, left, min).0,
        paired(a, chain_at(a, ca, left, min).1, b, chain_at(a + b, cab, left, min).1, k2),
    decreases remaining(a, ca), 2nat,
{
    lemma_paired_tokens(a, ca, b, cab, k);
    if continues(ca.token, min) {
        lemma_infix_consumes(a, ca, left);
        lemma_infix_consumes(a + b, cab, left);
        let k1 = lemma_infix_joined(a, ca, b, cab, k, left);
        let (folded, after) = infix_at(a, ca, left);
        let after2 = infix_at(a + b, cab, left).1;
        lemma_chain_joined(a, after, b, after2, k1, folded->Ok_0, min)
    } else {
        k
    }
}

/// An expression that `a` holds is the expression there in `a + b`.
pub proof fn lemma_expression_joined(
    a: Seq<char>,
    ca: Cursor,
    b: Seq<char>,
    cab: Cursor,
    k: int,
    min: Precedence,
) -> (k2: int)
    requires
        paired(a, ca, b, cab, k),
        expression_at(a, ca, min).0 is Ok,
    ensures
        expression_at(a + b, cab, min).0 == expression_at(a, ca, min).0,
        paired(a, expression_at(a, ca, min).1, b, expression_at(a + b, cab, min).1, k2),
    decreases remaining(a, ca), 3nat,
{
    lemma_prefix_consumes(a, ca);
    lemma_prefix_consumes(a + b, cab);
    let k1 = lemma_prefix_joined(a, ca, b, cab, k);
    let (term, after) = prefix_at(a, ca);
    let after2 = prefix_at(a + b, cab).1;
    lemma_chain_joined(a, after, b, after2, k1, term->Ok_0, min)
}

/// Passing over an optional `;` leaves two paired windows paired.
pub proof fn lemma_past_semicolon_joined(
    a: Seq<char>,
    ca: Cursor,
    b: Seq<char>,
    cab: Cursor,
    k: int,
) -> (k2: int)
    requires
        paired(a, ca, b, cab, k),
    ensures
        paired(a, past_semicolon(a, ca), b, past_semicolon(a + b, cab), k2),
{
    lemma_paired_tokens(a, ca, b, cab, k);
    if ca.token == TokenView::Semicolon {
        lemma_shift_paired(a, ca, b, cab, k);
        k + 1
    } else {
        k
    }
}

/// A statement that `a` holds is the statement there in `a + b`.
pub proof fn lemma_statement_joined(
    a: Seq<char>,
    ca: Cursor,
    b: Seq<char>,
    cab: Cursor,
    k: int,
) -> (k2: int)
    requires
        paired(a, ca, b, cab, k),
        statement_at(a, ca).0 is Ok,
    ensures
        statement_at(a + b, cab).0 == statement_at(a, ca).0,
        paired(a, statement_at(a, ca).1, b, statement_at(a + b, cab).1, k2),
{
    lemma_shift_paired(a, ca, b, cab, k);
    let k1 = lemma_expression_joined(
        a,
        shift(a, ca),
        b,
        shift(a + b, cab),
        k + 1,
        Precedence::Lowest,
    );
    lemma_past_semicolon_joined(
        a,
        expression_at(a, shift(a, ca), Precedence::Lowest).1,
        b,
        expression_at(a + b, shift(a + b, cab), Precedence::Lowest).1,
        k1,
    )
}

/// The statements of a body that `a` holds are the statements there in `a + b`.
pub proof fn lemma_statements_joined(
    a: Seq<char>,
    ca: Cursor,
    b: Seq<char>,
    cab: Cursor,
    k: int,
    done: Seq<StatementView>,
) -> (k2: int)
    requires
        paired(a, ca, b, cab, k),
        statements_at(a, ca, done).0 is Ok,
    ensures
        statements_at(a + b, cab, done).0 == statements_at(a, ca, done).0,
        paired(a, statements_at(a, ca, done).1, b, statements_at(a + b, cab, done).1, k2),
    decreases remaining(a, ca),
{
    lemma_paired_tokens(a, ca, b, cab, k);
    if ca.token == TokenView::CloseBrace {
        lemma_shift_paired(a, ca, b, cab, k);
        k + 1
    } else {
        lemma_statement_consumes(a, ca);
        lemma_statement_consumes(a + b, cab);
        let k1 = lemma_statement_joined(a, ca, b, cab, k);
        let (statement, after) = statement_at(a, ca);
        let after2 = statement_at(a + b, cab).1;
        lemma_statements_joined(a, after, b, after2, k1, done.push(statement->Ok_0))
    }
}

/// A parameter list that `a` holds is the parameter list there in `a + b`.
pub proof fn lemma_parameters_joined(
    a: Seq<char>,
    ca: Cursor,
    b: Seq<char>,
    cab: Cursor,
    k: int,
) -> (k2: int)
    requires
        paired(a, ca, b, cab, k),
        ca.token == TokenView::OpenParen,
        parameters_at(a, ca).0 is Ok,
    ensures
        parameters_at(a + b, cab).0 == parameters_at(a, ca).0,
        paired(a, parameters_at(a, ca).1, b, parameters_at(a + b, cab).1, k2),
{
    lemma_shift_paired(a, ca, b, cab, k);
    let first = shift(a, ca);
    let first2 = shift(a + b, cab);
    lemma_paired_tokens(a, first, b, first2, k + 1);
    lemma_shift_paired(a, first, b, first2, k + 1);
    let named = shift(a, first);
    let named2 = shift(a + b, first2);
    if first.token == TokenView::CloseParen {
        k + 2
    } else {
        lemma_paired_tokens(a, named, b, named2, k + 2);
        lemma_shift_paired(a, named, b, named2, k + 2);
        let end = shift(a, named);
        let end2 = shift(a + b, named2);
        if first.token == TokenView::Void && first.peek == TokenView::CloseParen {
            k + 3
        } else {
            lemma_paired_tokens(a, end, b, end2, k + 3);
            lemma_shift_paired(a, end, b, end2, k + 3);
            k + 4
        }
    }
}

/// A declaration that `a` holds is the declaration there in `a + b`.
pub proof fn lemma_declaration_joined(
    a: Seq<char>,
    ca: Cursor,
    b: Seq<char>,
    cab: Cursor,
    k: int,
) -> (k2: int)
    requires
        paired(a, ca, b, cab, k),
        declaration_at(a, ca).0 is Ok,
    ensures
        declaration_at(a + b, cab).0 == declaration_at(a, ca).0,
        paired(a, declaration_at(a, ca).1, b, declaration_at(a + b, cab).1, k2),
{
    lemma_shift_paired(a, ca, b, cab, k);
    let named = shift(a, ca);
    let named2 = shift(a + b, cab);
    lemma_shift_paired(a, named, b, named2, k + 1);
    let rest = shift(a, named);
    let rest2 = shift(a + b, named2);
    lemma_paired_tokens(a, rest, b, rest2, k + 2);
    if rest.token == TokenView::Semicolon {
        lemma_shift_paired(a, rest, b, rest2, k + 2);
        k + 3
    } else if rest.token == TokenView::Assignment {
        lemma_shift_paired(a, rest, b, rest2, k + 2);
        let k1 = lemma_expression_joined(
            a,
            shift(a, rest),
            b,
            shift(a + b, rest2),
            k + 3,
            Precedence::Lowest,
        );
        lemma_past_semicolon_joined(
            a,
            expression_at(a, shift(a, rest), Precedence::Lowest).1,
            b,
            expression_at(a + b, shift(a + b, rest2), Precedence::Lowest).1,
            k1,
        )
    } else {
        let k1 = lemma_parameters_joined(a, rest, b, rest2, k + 2);
        let after = parameters_at(a, rest).1;
        let after2 = parameters_at(a + b, rest2).1;
        lemma_shift_paired(a, after, b, after2, k1);
        lemma_statements_joined(
            a,
            shift(a, after),
            b,
            shift(a + b, after2),
            k1 + 1,
            Seq::empty(),
        )
    }
}

/// Where `a` is read to its end, `a + b` is read on into `b`: its
/// declarations are those of `b`, behind those read in `a`.
pub proof fn lemma_declarations_joined(
    a: Seq<char>,
    ca: Cursor,
    b: Seq<char>,
    cab: Cursor,
    k: int,
    done: Seq<DeclarationView>,
)
    requires
        paired(a, ca, b, cab, k),
        declarations_at(a, ca, done).0 is Ok,
    ensures
        declarations_at(a + b, cab, done).0 == declarations_at(
            b,
            start(b),
            declarations_at(a, ca, done).0->Ok_0,
        ).0,
    decreases remaining(a, ca),
{
    lemma_paired_tokens(a, ca, b, cab, k);
    if ca.token == TokenView::EOF {
        lemma_end_is_start(a, ca, b, cab, k);
        lemma_declarations_same(a + b, cab, b, start(b), done);
    } else {
        lemma_declaration_consumes(a, ca);
        lemma_declaration_consumes(a + b, cab);
        let k1 = lemma_declaration_joined(a, ca, b, cab, k);
        let (declaration, after) = declaration_at(a, ca);
        let after2 = declaration_at(a + b, cab).1;
        lemma_declarations_joined(a, after, b, after2, k1, done.push(declaration->Ok_0));
    }
}

/// Two texts that parse, put together so that the tokens of the whole are
/// the tokens of the first followed by those of the second, parse to the
/// declarations of the first followed by those of the second.
pub proof fn theorem_joined_texts_parse_to_joined_declarations(
    a: Seq<char>,
    b: Seq<char>,
    first: TranslationUnitView,
    second: TranslationUnitView,
)
    requires
        joins(a, b),
        parse_source(a) == Ok::<TranslationUnitView, ParserErrorView>(first),
        parse_source(b) == Ok::<TranslationUnitView, ParserErrorView>(second),
    ensures
        parse_source(a + b) == Ok::<TranslationUnitView, ParserErrorView>(
            TranslationUnitView { declarations: first.declarations + second.declarations },
        ),
{
    lemma_start_is_at(a);
    lemma_start_is_at(b);
    lemma_start_is_at(a + b);
    theorem_tokens_end_in_eof(a, 0);
    assert(opens_or_ends(token_at(b, 0))) by {
        if start(b).token != TokenView::EOF {
            lemma_declaration_consumes(b, start(b));
            assert(declaration_at(b, start(b)).0 is Ok);
            assert(ctype_of(start(b).token) is Some);
        }
    }
    lemma_declarations_joined(a, start(a), b, start(a + b), 0, Seq::empty());
    theorem_declarations_join(b, start(b), first.declarations);
}

} // verus!
