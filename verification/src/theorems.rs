//! What holds of the lexer and the parser on every input.
use vstd::prelude::*;
use crate::chars::{digit_value, is_digit, is_identifier_start, is_space};
use crate::lexer::{
    block_comment_end, decimal_value, digits_end, integer_token, invalid_integer_message,
    lemma_block_comment_bounds, lemma_next_token_advances, lemma_scan_bounds, line_end,
    next_token_at, tokens_from, unexpected_character_message, unterminated_comment_message,
    whitespace_end,
};
use crate::parser::ast::{DeclarationView, TranslationUnit};
use crate::parser::error::ParserError;
use crate::parser::grammar::{
    declaration_at, declarations_at, lemma_declaration_consumes, parse_source, remaining,
    translation_unit_at, Cursor, Step,
};
use crate::parser::result_view;
use crate::token::TokenView;

verus! {

/// Whether `s` holds, from position `i` on, nothing but whitespace, line
/// comments and closed block comments.
pub open spec fn is_blank_from(s: Seq<char>, i: int) -> bool
    decreases s.len() - i,
{
    if i < 0 || i >= s.len() {
        true
    } else if is_space(s[i]) {
        is_blank_from(s, i + 1)
    } else if s[i] == '/' && i + 1 < s.len() && s[i + 1] == '/' {
        proof {
            lemma_scan_bounds(s, i + 2);
        }
        is_blank_from(s, line_end(s, i + 2))
    } else if s[i] == '/' && i + 1 < s.len() && s[i + 1] == '*' {
        match block_comment_end(s, i + 2) {
            Some(k) => {
                proof {
                    lemma_block_comment_bounds(s, i + 2);
                }
                is_blank_from(s, k)
            },
            None => false,
        }
    } else {
        false
    }
}

/// The next token is `EOF` exactly where only whitespace and comments are left.
pub proof fn lemma_blank_rest_is_eof(s: Seq<char>, i: int)
    requires
        0 <= i <= s.len(),
    ensures
        is_blank_from(s, i) <==> next_token_at(s, i).0 == TokenView::EOF,
    decreases s.len() - i,
{
    if i < s.len() {
        if is_space(s[i]) {
            lemma_blank_rest_is_eof(s, i + 1);
        } else if s[i] == '/' && i + 1 < s.len() && s[i + 1] == '/' {
            lemma_scan_bounds(s, i + 2);
            lemma_blank_rest_is_eof(s, line_end(s, i + 2));
        } else if s[i] == '/' && i + 1 < s.len() && s[i + 1] == '*' {
            match block_comment_end(s, i + 2) {
                Some(k) => {
                    lemma_block_comment_bounds(s, i + 2);
                    lemma_blank_rest_is_eof(s, k);
                },
                None => {},
            }
        }
    }
}

/// A source text lexes to exactly `[EOF]` if it holds whitespace and
/// comments alone, and only then.
pub proof fn theorem_blank_source_lexes_to_eof(s: Seq<char>)
    ensures
        is_blank_from(s, 0) <==> tokens_from(s, 0) == seq![TokenView::EOF],
{
    lemma_blank_rest_is_eof(s, 0);
    let (token, next) = next_token_at(s, 0);
    if token != TokenView::EOF {
        assert(tokens_from(s, 0)[0] == token);
    }
}

/// `EOF` is final: behind an `EOF` the next token is `EOF` again, and the
/// cursor stays where it is.
pub proof fn theorem_eof_is_final(s: Seq<char>, i: int)
    requires
        0 <= i <= s.len(),
        next_token_at(s, i).0 == TokenView::EOF,
    ensures
        next_token_at(s, next_token_at(s, i).1) == next_token_at(s, i),
        next_token_at(s, i).1 == s.len(),
{
    lemma_next_token_advances(s, i);
}

/// Whitespace and comments are never tokens: the token at whitespace is the
/// token behind it, the token at a line comment is the token at the end of
/// its line, and the token at a closed block comment is the token behind it.
pub proof fn theorem_whitespace_and_comments_are_transparent(s: Seq<char>, i: int)
    requires
        0 <= i < s.len(),
    ensures
        is_space(s[i]) ==> next_token_at(s, i) == next_token_at(s, i + 1),
        s[i] == '/' && i + 1 < s.len() && s[i + 1] == '/' ==> next_token_at(s, i)
            == next_token_at(s, line_end(s, i + 2)),
        s[i] == '/' && i + 1 < s.len() && s[i + 1] == '*' ==> (block_comment_end(
            s,
            i + 2,
        ) matches Some(k) ==> next_token_at(s, i) == next_token_at(s, k)),
{
}

/// The tokens of a text end in `EOF`, and hold no `EOF` before that.
pub proof fn theorem_tokens_end_in_eof(s: Seq<char>, i: int)
    requires
        0 <= i <= s.len(),
    ensures
        tokens_from(s, i).len() >= 1,
        tokens_from(s, i).last() == TokenView::EOF,
        forall|k: int|
            0 <= k < tokens_from(s, i).len() - 1 ==> #[trigger] tokens_from(s, i)[k]
                != TokenView::EOF,
    decreases s.len() - i,
{
    lemma_next_token_advances(s, i);
    let (token, next) = next_token_at(s, i);
    if token != TokenView::EOF {
        theorem_tokens_end_in_eof(s, next);
        let rest = tokens_from(s, next);
        assert(tokens_from(s, i) == seq![token] + rest);
        assert forall|k: int| 0 <= k < tokens_from(s, i).len() - 1 implies #[trigger] tokens_from(
            s,
            i,
        )[k] != TokenView::EOF by {
            if k > 0 {
                assert(tokens_from(s, i)[k] == rest[k - 1]);
            }
        }
    }
}

/// A block comment that never closes yields an error token, and that is
/// the last token in front of `EOF`.
pub proof fn theorem_unterminated_comment_is_trailing_error(s: Seq<char>, i: int)
    requires
        0 <= i,
        i + 1 < s.len(),
        s[i] == '/',
        s[i + 1] == '*',
        block_comment_end(s, i + 2) is None,
    ensures
        tokens_from(s, i) == seq![
            TokenView::Error(unterminated_comment_message()),
            TokenView::EOF,
        ],
{
    assert(next_token_at(s, i) == (
        TokenView::Error(unterminated_comment_message()),
        s.len() as int,
    ));
    assert(next_token_at(s, s.len() as int).0 == TokenView::EOF);
    assert(tokens_from(s, s.len() as int) == seq![TokenView::EOF]);
    assert(seq![TokenView::Error(unterminated_comment_message())] + seq![TokenView::EOF] =~= seq![
        TokenView::Error(unterminated_comment_message()),
        TokenView::EOF,
    ]);
}

/// Whether `c` starts a token other than an error.
pub open spec fn starts_a_token(c: char) -> bool {
    c == '(' || c == ')' || c == '{' || c == '}' || c == ';' || c == '+' || c == '-' || c == '*'
        || c == '/' || c == '=' || is_identifier_start(c) || is_digit(c)
}

/// A character that starts no token yields an error token that names it,
/// and lexing goes on with the character behind it.
pub proof fn theorem_unexpected_character_is_skipped(s: Seq<char>, i: int)
    requires
        0 <= i < s.len(),
        !is_space(s[i]),
        !starts_a_token(s[i]),
    ensures
        next_token_at(s, i) == (TokenView::Error(unexpected_character_message(s[i])), i + 1),
        tokens_from(s, i) == seq![TokenView::Error(unexpected_character_message(s[i]))]
            + tokens_from(s, i + 1),
{
}

/// The character that writes the digit `d`.
pub open spec fn digit_char(d: nat) -> char {
    ((d + 48) as u8) as char
}

/// The decimal text of `n`: its digits, most significant first, without leading zeros.
pub open spec fn decimal_text(n: nat) -> Seq<char>
    decreases n,
{
    if n < 10 {
        seq![digit_char(n)]
    } else {
        decimal_text(n / 10).push(digit_char(n % 10))
    }
}

/// The decimal text of a number is made of digits, and writes that number.
pub proof fn lemma_decimal_text(n: nat)
    ensures
        decimal_text(n).len() >= 1,
        forall|i: int| 0 <= i < decimal_text(n).len() ==> is_digit(#[trigger] decimal_text(n)[i]),
        decimal_value(decimal_text(n)) == n,
    decreases n,
{
    if n < 10 {
        let t = decimal_text(n);
        assert(t.drop_last() =~= Seq::<char>::empty());
        assert(decimal_value(t.drop_last()) == 0);
        assert(digit_value(t.last()) == n);
    } else {
        lemma_decimal_text(n / 10);
        let head = decimal_text(n / 10);
        let t = decimal_text(n);
        assert(t.drop_last() =~= head);
        assert(digit_value(t.last()) == n % 10);
    }
}

/// A run of digits ends where the text ends, if only digits follow.
pub proof fn lemma_digits_to_the_end(s: Seq<char>, i: int)
    requires
        0 <= i <= s.len(),
        forall|k: int| i <= k < s.len() ==> is_digit(#[trigger] s[k]),
    ensures
        digits_end(s, i) == s.len(),
    decreases s.len() - i,
{
    if i < s.len() {
        lemma_digits_to_the_end(s, i + 1);
    }
}

/// The token for the decimal text of a 64-bit number is that number; the
/// token for digits that write a larger number is an error.
pub proof fn theorem_integer_token(digits: Seq<char>, n: u64)
    ensures
        integer_token(decimal_text(n as nat)) == TokenView::IntegerLiteral(n),
        decimal_value(digits) > u64::MAX ==> integer_token(digits) == TokenView::Error(
            invalid_integer_message(digits),
        ),
{
    lemma_decimal_text(n as nat);
}

/// A text of digits alone lexes to one integer token and `EOF`.
pub proof fn lemma_digits_lex(s: Seq<char>)
    requires
        s.len() >= 1,
        forall|k: int| 0 <= k < s.len() ==> is_digit(#[trigger] s[k]),
    ensures
        next_token_at(s, 0) == (integer_token(s), s.len() as int),
        tokens_from(s, 0) == seq![integer_token(s), TokenView::EOF],
{
    assert(is_digit(s[0]));
    lemma_digits_to_the_end(s, 1);
    assert(s.subrange(0, s.len() as int) =~= s);
    assert(whitespace_end(s, 0) == 0);
    assert(next_token_at(s, 0) == (integer_token(s), s.len() as int));
    assert(whitespace_end(s, s.len() as int) == s.len());
    assert(tokens_from(s, s.len() as int) == seq![TokenView::EOF]);
    assert(integer_token(s) != TokenView::EOF);
    assert(seq![integer_token(s)] + seq![TokenView::EOF] =~= seq![
        integer_token(s),
        TokenView::EOF,
    ]);
}

/// Lexing the decimal text of a 64-bit number yields an integer literal of
/// exactly that number.
pub proof fn theorem_literal_round_trip(n: u64)
    ensures
        tokens_from(decimal_text(n as nat), 0) == seq![
            TokenView::IntegerLiteral(n),
            TokenView::EOF,
        ],
{
    lemma_decimal_text(n as nat);
    lemma_digits_lex(decimal_text(n as nat));
}

/// Lexing digits that write a number beyond 64 bits yields an error token.
pub proof fn theorem_oversized_literal_is_error(s: Seq<char>)
    requires
        s.len() >= 1,
        forall|k: int| 0 <= k < s.len() ==> is_digit(#[trigger] s[k]),
        decimal_value(s) > u64::MAX,
    ensures
        tokens_from(s, 0) == seq![
            TokenView::Error(invalid_integer_message(s)),
            TokenView::EOF,
        ],
{
    lemma_digits_lex(s);
}

/// Parsing is a function of the source text: two results for one text have
/// the same model, node for node.
pub proof fn theorem_parse_is_deterministic(
    s: Seq<char>,
    first: Result<TranslationUnit, ParserError>,
    second: Result<TranslationUnit, ParserError>,
)
    requires
        result_view(first) == parse_source(s),
        result_view(second) == parse_source(s),
    ensures
        result_view(first) == result_view(second),
{
}

/// The declarations of a text are read to its end: where they succeed, the
/// window stands at `EOF`.
pub proof fn lemma_declarations_reach_eof(s: Seq<char>, c: Cursor, done: Seq<DeclarationView>)
    requires
        declarations_at(s, c, done).0 is Ok,
    ensures
        declarations_at(s, c, done).1.token == TokenView::EOF,
    decreases remaining(s, c),
{
    if c.token != TokenView::EOF {
        lemma_declaration_consumes(s, c);
        let (declaration, after) = declaration_at(s, c);
        match declaration {
            Ok(x) => {
                lemma_declarations_reach_eof(s, after, done.push(x));
            },
            Err(_) => {},
        }
    }
}

/// A parse that succeeds has read every token: no input is left behind a tree.
pub proof fn theorem_successful_parse_reaches_eof(s: Seq<char>, c: Cursor)
    requires
        translation_unit_at(s, c).0 is Ok,
    ensures
        translation_unit_at(s, c).1.token == TokenView::EOF,
{
    lemma_declarations_reach_eof(s, c, Seq::empty());
}

/// A list that was read, put behind the items in `done`.
pub open spec fn behind<T>(done: Seq<T>, step: Step<Seq<T>>) -> Step<Seq<T>> {
    match step.0 {
        Ok(rest) => (Ok(done + rest), step.1),
        Err(error) => (Err(error), step.1),
    }
}

/// Declarations are read in source order: what is read behind the
/// declarations in `done` is what is read there with nothing in front,
/// joined to `done`.
pub proof fn theorem_declarations_join(s: Seq<char>, c: Cursor, done: Seq<DeclarationView>)
    ensures
        declarations_at(s, c, done) == behind(done, declarations_at(s, c, Seq::empty())),
    decreases remaining(s, c),
{
    let none = Seq::<DeclarationView>::empty();
    if c.token == TokenView::EOF {
        assert(done + none =~= done);
    } else {
        lemma_declaration_consumes(s, c);
        let (declaration, after) = declaration_at(s, c);
        match declaration {
            Ok(x) => {
                theorem_declarations_join(s, after, done.push(x));
                theorem_declarations_join(s, after, none.push(x));
                match declarations_at(s, after, none).0 {
                    Ok(rest) => {
                        assert(done + (none.push(x) + rest) =~= done.push(x) + rest);
                    },
                    Err(_) => {},
                }
            },
            Err(_) => {},
        }
    }
}

/// The declarations of a text are its first declaration and, behind it,
/// the declarations of what follows.
pub proof fn theorem_first_declaration_then_the_rest(s: Seq<char>, c: Cursor)
    requires
        c.token != TokenView::EOF,
    ensures
        declarations_at(s, c, Seq::empty()) == match declaration_at(s, c).0 {
            Ok(x) => behind(seq![x], declarations_at(s, declaration_at(s, c).1, Seq::empty())),
            Err(error) => (Err(error), declaration_at(s, c).1),
        },
{
    let none = Seq::<DeclarationView>::empty();
    lemma_declaration_consumes(s, c);
    match declaration_at(s, c).0 {
        Ok(x) => {
            assert(none.push(x) =~= seq![x]);
            theorem_declarations_join(s, declaration_at(s, c).1, seq![x]);
        },
        Err(_) => {},
    }
}

} // verus!
