//! A comment put in front of a text changes none of its tokens.
//!
//! The tokens of a text depend on the characters from the cursor on and on
//! nothing in front of it; a comment in front is passed over, and lexing
//! goes on as it would in the text alone.
use vstd::prelude::*;
use crate::lexer::{
    block_comment_end, digits_end, identifier_end, lemma_block_comment_bounds,
    lemma_next_token_advances, lemma_scan_bounds, line_end, next_token_at, tokens_from,
    whitespace_end,
};
use crate::parser::grammar::parse_source;
use crate::parser::stream::theorem_parse_reads_tokens_only;
use crate::token::TokenView;

verus! {

/// A scan in a suffix of a text ends where it ends in the suffix alone.
pub proof fn lemma_scans_of_suffix(p: Seq<char>, s: Seq<char>, i: int)
    requires
        0 <= i <= s.len(),
    ensures
        whitespace_end(p + s, p.len() + i) == p.len() + whitespace_end(s, i),
        line_end(p + s, p.len() + i) == p.len() + line_end(s, i),
        identifier_end(p + s, p.len() + i) == p.len() + identifier_end(s, i),
        digits_end(p + s, p.len() + i) == p.len() + digits_end(s, i),
        block_comment_end(p + s, p.len() + i) == match block_comment_end(s, i) {
            Some(k) => Some(p.len() + k),
            None => None,
        },
    decreases s.len() - i,
{
    let t = p + s;
    let k = p.len() as int;
    if i < s.len() {
        assert(t[k + i] == s[i]);
        if i + 1 < s.len() {
            assert(t[k + i + 1] == s[i + 1]);
        }
        lemma_scans_of_suffix(p, s, i + 1);
    }
}

/// The token at a position of a suffix is the token there in the suffix alone.
pub proof fn lemma_token_of_suffix(p: Seq<char>, s: Seq<char>, i: int)
    requires
        0 <= i <= s.len(),
    ensures
        next_token_at(p + s, p.len() + i) == (
            next_token_at(s, i).0,
            p.len() + next_token_at(s, i).1,
        ),
    decreases s.len() - i,
{
    let t = p + s;
    let k = p.len() as int;
    let j = whitespace_end(s, i);
    lemma_scans_of_suffix(p, s, i);
    lemma_scan_bounds(s, i);
    if j < s.len() {
        assert(t[k + j] == s[j]);
        if j + 1 < s.len() {
            assert(t[k + j + 1] == s[j + 1]);
        }
        lemma_scans_of_suffix(p, s, j + 1);
        lemma_scan_bounds(s, j + 1);
        if s[j] == '/' && j + 1 < s.len() && s[j + 1] == '/' {
            lemma_scans_of_suffix(p, s, j + 2);
            lemma_scan_bounds(s, j + 2);
            lemma_token_of_suffix(p, s, line_end(s, j + 2));
        } else if s[j] == '/' && j + 1 < s.len() && s[j + 1] == '*' {
            lemma_scans_of_suffix(p, s, j + 2);
            lemma_block_comment_bounds(s, j + 2);
            match block_comment_end(s, j + 2) {
                Some(e) => {
                    lemma_token_of_suffix(p, s, e);
                },
                None => {},
            }
        } else {
            let e = identifier_end(s, j + 1);
            assert(t.subrange(k + j, k + e) =~= s.subrange(j, e));
            let d = digits_end(s, j + 1);
            assert(t.subrange(k + j, k + d) =~= s.subrange(j, d));
        }
    }
}

/// The tokens from a position of a suffix are the tokens from there in the
/// suffix alone.
pub proof fn lemma_tokens_of_suffix(p: Seq<char>, s: Seq<char>, i: int)
    requires
        0 <= i <= s.len(),
    ensures
        tokens_from(p + s, p.len() + i) == tokens_from(s, i),
    decreases s.len() - i,
{
    lemma_token_of_suffix(p, s, i);
    lemma_next_token_advances(s, i);
    let (token, next) = next_token_at(s, i);
    if token != TokenView::EOF {
        lemma_tokens_of_suffix(p, s, next);
    }
}

/// A line comment with the text `c`: `//`, the text, and the newline that ends it.
pub open spec fn line_comment(c: Seq<char>) -> Seq<char> {
    seq!['/', '/'] + c + seq!['\n']
}

/// A block comment with the text `d`: `/*`, the text, and `*/`.
pub open spec fn block_comment(d: Seq<char>) -> Seq<char> {
    seq!['/', '*'] + d + seq!['*', '/']
}

/// Whether `c` holds no newline.
pub open spec fn has_no_newline(c: Seq<char>) -> bool {
    forall|i: int| 0 <= i < c.len() ==> c[i] != '\n'
}

/// Whether `d` holds no `*/`.
pub open spec fn has_no_close(d: Seq<char>) -> bool {
    forall|i: int| 0 <= i < d.len() - 1 ==> !(#[trigger] d[i] == '*' && d[i + 1] == '/')
}

/// A line without a newline before `e` ends at `e`, where the newline stands.
pub proof fn lemma_line_ends_at_newline(t: Seq<char>, i: int, e: int)
    requires
        0 <= i <= e < t.len(),
        t[e] == '\n',
        forall|j: int| i <= j < e ==> t[j] != '\n',
    ensures
        line_end(t, i) == e,
    decreases e - i,
{
    if i < e {
        lemma_line_ends_at_newline(t, i + 1, e);
    }
}

/// A block comment without `*/` before `e` ends behind the `*/` at `e`.
pub proof fn lemma_block_ends_at_close(t: Seq<char>, i: int, e: int)
    requires
        0 <= i <= e,
        e + 1 < t.len(),
        t[e] == '*',
        t[e + 1] == '/',
        forall|j: int| i <= j < e ==> !(#[trigger] t[j] == '*' && t[j + 1] == '/'),
    ensures
        block_comment_end(t, i) == Some(e + 2),
    decreases e - i,
{
    if i < e {
        lemma_block_ends_at_close(t, i + 1, e);
    }
}

/// A line comment in front of a text leaves the tokens of the text as they are.
pub proof fn theorem_line_comment_in_front(c: Seq<char>, s: Seq<char>)
    requires
        has_no_newline(c),
    ensures
        tokens_from(line_comment(c) + s, 0) == tokens_from(s, 0),
{
    let p = line_comment(c);
    let t = p + s;
    let e = (c.len() + 2) as int;
    assert(p.len() == e + 1);
    assert(t[0] == '/' && t[1] == '/') by {
        assert(p[0] == '/' && p[1] == '/');
    }
    assert(t[e] == '\n') by {
        assert(p[e] == '\n');
    }
    assert forall|j: int| 2 <= j < e implies t[j] != '\n' by {
        assert(t[j] == p[j]);
        assert(p[j] == c[j - 2]);
    }
    lemma_line_ends_at_newline(t, 2, e);
    assert(whitespace_end(t, 0) == 0);
    assert(next_token_at(t, 0) == next_token_at(t, e));
    assert(next_token_at(t, e) == next_token_at(t, e + 1));
    lemma_front_is_passed_over(p, s);
}

/// A block comment in front of a text leaves the tokens of the text as they are.
pub proof fn theorem_block_comment_in_front(d: Seq<char>, s: Seq<char>)
    requires
        has_no_close(d),
    ensures
        tokens_from(block_comment(d) + s, 0) == tokens_from(s, 0),
{
    let p = block_comment(d);
    let t = p + s;
    let e = (d.len() + 2) as int;
    assert(p.len() == e + 2);
    assert(t[0] == '/' && t[1] == '*') by {
        assert(p[0] == '/' && p[1] == '*');
    }
    assert(t[e] == '*' && t[e + 1] == '/') by {
        assert(p[e] == '*' && p[e + 1] == '/');
    }
    assert forall|j: int| 2 <= j < e implies !(#[trigger] t[j] == '*' && t[j + 1] == '/') by {
        assert(t[j] == p[j] && p[j] == d[j - 2]);
        assert(t[j + 1] == p[j + 1]);
        if j + 1 < e {
            assert(p[j + 1] == d[j - 1]);
        }
    }
    lemma_block_ends_at_close(t, 2, e);
    assert(whitespace_end(t, 0) == 0);
    assert(next_token_at(t, 0) == next_token_at(t, e + 2));
    lemma_front_is_passed_over(p, s);
}

/// Where the first token of `p + s` is the token at the end of `p`, the
/// tokens of `p + s` are the tokens of `s`.
pub proof fn lemma_front_is_passed_over(p: Seq<char>, s: Seq<char>)
    requires
        next_token_at(p + s, 0) == next_token_at(p + s, p.len() as int),
    ensures
        tokens_from(p + s, 0) == tokens_from(s, 0),
{
    let t = p + s;
    lemma_token_of_suffix(p, s, 0);
    lemma_next_token_advances(s, 0);
    let (token, next) = next_token_at(s, 0);
    if token != TokenView::EOF {
        lemma_tokens_of_suffix(p, s, next);
    }
}

/// A comment in front of a text leaves its tree, or its first error, as it is.
pub proof fn theorem_comment_in_front_keeps_the_tree(c: Seq<char>, d: Seq<char>, s: Seq<char>)
    ensures
        has_no_newline(c) ==> parse_source(line_comment(c) + s) == parse_source(s),
        has_no_close(d) ==> parse_source(block_comment(d) + s) == parse_source(s),
{
    if has_no_newline(c) {
        theorem_line_comment_in_front(c, s);
        theorem_parse_reads_tokens_only(line_comment(c) + s, s);
    }
    if has_no_close(d) {
        theorem_block_comment_in_front(d, s);
        theorem_parse_reads_tokens_only(block_comment(d) + s, s);
    }
}

} // verus!
