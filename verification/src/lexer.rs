//! Tokenization of source text, one token at a time.
//!
//! The model of the source is a `Seq<char>`; [`next_token_at`] says which
//! token starts at or after a position and where the cursor stands afterwards.
use vstd::prelude::*;
use vstd::string::StringExecFns;
use crate::chars::{
    digit_value, is_alphabetic, is_alphanumeric, is_ascii_digit, is_digit, is_identifier_part,
    is_identifier_start, is_space, is_whitespace, push_char, to_chars,
};
use crate::token::{Token, TokenView};

verus! {

/// First position at or after `i` that holds no whitespace (the end of `s` if none).
pub open spec fn whitespace_end(s: Seq<char>, i: int) -> int
    decreases s.len() - i,
{
    if 0 <= i < s.len() && is_space(s[i]) {
        whitespace_end(s, i + 1)
    } else {
        i
    }
}

/// First position at or after `i` that holds a newline (the end of `s` if none).
pub open spec fn line_end(s: Seq<char>, i: int) -> int
    decreases s.len() - i,
{
    if 0 <= i < s.len() && s[i] != '\n' {
        line_end(s, i + 1)
    } else {
        i
    }
}

/// First position at or after `i` that cannot continue an identifier.
pub open spec fn identifier_end(s: Seq<char>, i: int) -> int
    decreases s.len() - i,
{
    if 0 <= i < s.len() && is_identifier_part(s[i]) {
        identifier_end(s, i + 1)
    } else {
        i
    }
}

/// First position at or after `i` that holds no ASCII digit.
pub open spec fn digits_end(s: Seq<char>, i: int) -> int
    decreases s.len() - i,
{
    if 0 <= i < s.len() && is_digit(s[i]) {
        digits_end(s, i + 1)
    } else {
        i
    }
}

/// Position just behind the first `*/` that starts at or after `i`, if there is one.
pub open spec fn block_comment_end(s: Seq<char>, i: int) -> Option<int>
    decreases s.len() - i,
{
    if i < 0 || i >= s.len() {
        None
    } else if s[i] == '*' && i + 1 < s.len() && s[i + 1] == '/' {
        Some(i + 2)
    } else {
        block_comment_end(s, i + 1)
    }
}

/// The number written by a sequence of ASCII digits, most significant first.
pub open spec fn decimal_value(digits: Seq<char>) -> nat
    decreases digits.len(),
{
    if digits.len() == 0 {
        0
    } else {
        decimal_value(digits.drop_last()) * 10 + digit_value(digits.last())
    }
}

/// Message of the error token for a block comment that never closes.
pub open spec fn unterminated_comment_message() -> Seq<char> {
    "Unterminated multi-line comment"@
}

/// Message of the error token for a character that starts no token.
pub open spec fn unexpected_character_message(c: char) -> Seq<char> {
    "Unexpected character: '"@.push(c).push('\'')
}

/// Message of the error token for digits whose number does not fit in 64 bits.
pub open spec fn invalid_integer_message(digits: Seq<char>) -> Seq<char> {
    "Invalid integer literal: '"@ + digits
        + "', with: number too large to fit in target type"@
}

/// The keyword that `text` spells, or else the identifier `text`.
pub open spec fn keyword_or_identifier(text: Seq<char>) -> TokenView {
    if text == "int"@ {
        TokenView::Int
    } else if text == "void"@ {
        TokenView::Void
    } else if text == "return"@ {
        TokenView::Return
    } else {
        TokenView::Identifier(text)
    }
}

/// The token for a run of digits: its number, or an error if it exceeds `u64::MAX`.
pub open spec fn integer_token(digits: Seq<char>) -> TokenView {
    if decimal_value(digits) <= u64::MAX {
        TokenView::IntegerLiteral(decimal_value(digits) as u64)
    } else {
        TokenView::Error(invalid_integer_message(digits))
    }
}

/// The token that starts at or after position `i` of `s`, whitespace and
/// comments skipped, together with the position just behind it.
pub open spec fn next_token_at(s: Seq<char>, i: int) -> (TokenView, int)
    decreases s.len() - i,
{
    let j = whitespace_end(s, i);
    if j < 0 || j >= s.len() {
        (TokenView::EOF, j)
    } else {
        let c = s[j];
        if c == '(' {
            (TokenView::OpenParen, j + 1)
        } else if c == ')' {
            (TokenView::CloseParen, j + 1)
        } else if c == '{' {
            (TokenView::OpenBrace, j + 1)
        } else if c == '}' {
            (TokenView::CloseBrace, j + 1)
        } else if c == ';' {
            (TokenView::Semicolon, j + 1)
        } else if c == '+' {
            (TokenView::Plus, j + 1)
        } else if c == '-' {
            (TokenView::Minus, j + 1)
        } else if c == '*' {
            (TokenView::Asterix, j + 1)
        } else if c == '=' {
            if j + 1 < s.len() && s[j + 1] == '=' {
                (TokenView::Equal, j + 2)
            } else {
                (TokenView::Assignment, j + 1)
            }
        } else if c == '/' {
            if j + 1 < s.len() && s[j + 1] == '/' {
                proof {
                    lemma_scan_bounds(s, i);
                    lemma_scan_bounds(s, j + 2);
                }
                next_token_at(s, line_end(s, j + 2))
            } else if j + 1 < s.len() && s[j + 1] == '*' {
                match block_comment_end(s, j + 2) {
                    Some(k) => {
                        proof {
                            lemma_scan_bounds(s, i);
                            lemma_block_comment_bounds(s, j + 2);
                        }
                        next_token_at(s, k)
                    },
                    None => (TokenView::Error(unterminated_comment_message()), s.len() as int),
                }
            } else {
                (TokenView::Slash, j + 1)
            }
        } else if is_identifier_start(c) {
            let k = identifier_end(s, j + 1);
            (keyword_or_identifier(s.subrange(j, k)), k)
        } else if is_digit(c) {
            let k = digits_end(s, j + 1);
            (integer_token(s.subrange(j, k)), k)
        } else {
            (TokenView::Error(unexpected_character_message(c)), j + 1)
        }
    }
}

/// All tokens from position `i` on, up to and including the first `EOF`.
pub open spec fn tokens_from(s: Seq<char>, i: int) -> Seq<TokenView>
    decreases s.len() - i,
    when 0 <= i <= s.len()
{
    let (token, next) = next_token_at(s, i);
    if token == TokenView::EOF {
        seq![token]
    } else {
        proof {
            lemma_next_token_advances(s, i);
        }
        seq![token] + tokens_from(s, next)
    }
}

/// The models of a list of tokens, in order.
pub open spec fn token_views(tokens: Seq<Token>) -> Seq<TokenView> {
    tokens.map_values(|t: Token| t@)
}

/// A scan never moves backwards and never leaves the text.
pub proof fn lemma_scan_bounds(s: Seq<char>, i: int)
    ensures
        i <= whitespace_end(s, i),
        i <= line_end(s, i),
        i <= identifier_end(s, i),
        i <= digits_end(s, i),
        i <= s.len() ==> whitespace_end(s, i) <= s.len(),
        i <= s.len() ==> line_end(s, i) <= s.len(),
        i <= s.len() ==> identifier_end(s, i) <= s.len(),
        i <= s.len() ==> digits_end(s, i) <= s.len(),
    decreases s.len() - i,
{
    if 0 <= i < s.len() {
        lemma_scan_bounds(s, i + 1);
    }
}

/// A closed block comment ends inside the text, behind its two closing characters.
pub proof fn lemma_block_comment_bounds(s: Seq<char>, i: int)
    ensures
        block_comment_end(s, i) matches Some(k) ==> i + 2 <= k <= s.len(),
    decreases s.len() - i,
{
    if 0 <= i < s.len() {
        lemma_block_comment_bounds(s, i + 1);
    }
}

/// Taking a token moves the cursor forward; it stays in place only at the end of input.
pub proof fn lemma_next_token_advances(s: Seq<char>, i: int)
    ensures
        i <= next_token_at(s, i).1,
        0 <= i <= s.len() ==> next_token_at(s, i).1 <= s.len(),
        i < next_token_at(s, i).1 || next_token_at(s, i).0 == TokenView::EOF,
        next_token_at(s, i).0 == TokenView::EOF ==> next_token_at(s, i).1 >= s.len() || next_token_at(s, i).1 < 0,
    decreases s.len() - i,
{
    let j = whitespace_end(s, i);
    lemma_scan_bounds(s, i);
    if 0 <= j < s.len() {
        lemma_scan_bounds(s, j + 1);
        lemma_scan_bounds(s, j + 2);
        lemma_block_comment_bounds(s, j + 2);
        if s[j] == '/' && j + 1 < s.len() && s[j + 1] == '/' {
            lemma_next_token_advances(s, line_end(s, j + 2));
        } else if s[j] == '/' && j + 1 < s.len() && s[j + 1] == '*' {
            match block_comment_end(s, j + 2) {
                Some(k) => {
                    lemma_next_token_advances(s, k);
                },
                None => {},
            }
        }
    }
}

/// Pull-based tokenizer over a source text, with a cursor into it.
pub struct Lexer {
    chars: Vec<char>,
    pos: usize,
}

impl Lexer {
    /// The source text that this lexer reads.
    pub closed spec fn source(&self) -> Seq<char> {
        self.chars@
    }

    /// The position of the cursor in [`Self::source`].
    pub closed spec fn position(&self) -> int {
        self.pos as int
    }

    /// The cursor stands inside the text or at its end.
    #[verifier::type_invariant]
    spec fn cursor_in_text(self) -> bool {
        self.pos <= self.chars.len()
    }

    /// The tokens that remain to be read, up to and including `EOF`.
    pub open spec fn remaining_tokens(&self) -> Seq<TokenView> {
        tokens_from(self.source(), self.position())
    }

    /// A lexer at the start of `s`.
    pub fn new(s: &str) -> (lexer: Lexer)
        ensures
            lexer.source() == s@,
            lexer.position() == 0,
    {
        Lexer { chars: to_chars(s), pos: 0 }
    }

    /// Reads every remaining token, the final `EOF` included.
    pub fn lex_all(self) -> (tokens: Vec<Token>)
        ensures
            token_views(tokens@) == self.remaining_tokens(),
    {
        let mut lexer = self;
        let mut tokens: Vec<Token> = Vec::new();
        let ghost s = lexer.source();
        let ghost start = lexer.position();
        loop
            invariant_except_break
                tokens_from(s, start) == token_views(tokens@) + tokens_from(
                    s,
                    lexer.position(),
                ),
            invariant
                lexer.source() == s,
                0 <= start <= lexer.position(),
            ensures
                tokens_from(s, start) == token_views(tokens@),
            decreases s.len() - lexer.position(),
        {
            let ghost before = lexer.position();
            let ghost seen = token_views(tokens@);
            proof {
                use_type_invariant(&lexer);
                lemma_next_token_advances(s, before);
            }
            let token = lexer.next_token();
            let done = token.is_eof();
            let ghost view = token@;
            tokens.push(token);
            proof {
                assert(token_views(tokens@) =~= seen + seq![view]);
                assert(seen + (seq![view] + tokens_from(s, lexer.position())) =~= (seen
                    + seq![view]) + tokens_from(s, lexer.position()));
            }
            if done {
                break ;
            }
        }
        tokens
    }

    /// Reads the next token. At the end of input this is `EOF`, again and again.
    pub fn next_token(&mut self) -> (token: Token)
        ensures
            final(self).source() == old(self).source(),
            (token@, final(self).position()) == next_token_at(
                old(self).source(),
                old(self).position(),
            ),
            0 <= old(self).position() <= final(self).position() <= final(self).source().len(),
        decreases old(self).source().len() - old(self).position(),
    {
        proof {
            use_type_invariant(&*self);
            lemma_next_token_advances(self.chars@, self.pos as int);
        }
        let ghost s = self.chars@;
        let ghost i = self.pos as int;
        self.consume_whitespace();
        let j = self.pos;
        if j >= self.chars.len() {
            return Token::EOF;
        }
        proof {
            lemma_scan_bounds(s, i);
        }
        let ch = self.chars[j];
        self.pos = j + 1;
        if ch == '(' {
            Token::OpenParen
        } else if ch == ')' {
            Token::CloseParen
        } else if ch == '{' {
            Token::OpenBrace
        } else if ch == '}' {
            Token::CloseBrace
        } else if ch == ';' {
            Token::Semicolon
        } else if ch == '+' {
            Token::Plus
        } else if ch == '-' {
            Token::Minus
        } else if ch == '*' {
            Token::Asterix
        } else if ch == '=' {
            if self.pos < self.chars.len() && self.chars[self.pos] == '=' {
                self.pos = self.pos + 1;
                Token::Equal
            } else {
                Token::Assignment
            }
        } else if ch == '/' {
            if self.pos < self.chars.len() && self.chars[self.pos] == '/' {
                self.pos = self.pos + 1;
                self.consume_comment();
                proof {
                    lemma_scan_bounds(s, j + 2);
                }
                self.next_token()
            } else if self.pos < self.chars.len() && self.chars[self.pos] == '*' {
                self.pos = self.pos + 1;
                if self.consume_multi_line_comment() {
                    proof {
                        lemma_block_comment_bounds(s, j + 2);
                    }
                    self.next_token()
                } else {
                    Token::Error(String::from_str("Unterminated multi-line comment"))
                }
            } else {
                Token::Slash
            }
        } else if is_alphabetic(ch) || ch == '_' {
            self.read_keyword_or_identifier(ch)
        } else if is_ascii_digit(ch) {
            self.read_integer_literal(ch)
        } else {
            let mut message = String::from_str("Unexpected character: '");
            push_char(&mut message, ch);
            push_char(&mut message, '\'');
            Token::Error(message)
        }
    }

    /// Reads the rest of a keyword or identifier whose first character, `first`,
    /// stands just before the cursor.
    fn read_keyword_or_identifier(&mut self, first: char) -> (token: Token)
        requires
            old(self).pos >= 1,
            old(self).chars@[old(self).pos - 1] == first,
        ensures
            final(self).chars@ == old(self).chars@,
            final(self).pos == identifier_end(old(self).chars@, old(self).pos as int),
            token@ == keyword_or_identifier(
                old(self).chars@.subrange(old(self).pos - 1, final(self).pos as int),
            ),
    {
        proof {
            use_type_invariant(&*self);
        }
        let ghost s = self.chars@;
        let ghost start = self.pos - 1;
        let mut literal = String::new();
        push_char(&mut literal, first);
        assert(literal@ =~= s.subrange(start, start + 1));
        while self.pos < self.chars.len() && (is_alphanumeric(self.chars[self.pos])
            || self.chars[self.pos] == '_')
            invariant
                self.chars@ == s,
                0 <= start < self.pos <= s.len(),
                identifier_end(s, self.pos as int) == identifier_end(s, start + 1),
                literal@ == s.subrange(start, self.pos as int),
            decreases s.len() - self.pos,
        {
            push_char(&mut literal, self.chars[self.pos]);
            self.pos = self.pos + 1;
            assert(literal@ =~= s.subrange(start, self.pos as int));
        }
        if literal.eq(&String::from_str("int")) {
            Token::Int
        } else if literal.eq(&String::from_str("void")) {
            Token::Void
        } else if literal.eq(&String::from_str("return")) {
            Token::Return
        } else {
            Token::Identifier(literal)
        }
    }

    /// Reads the rest of an integer literal whose first digit, `first`, stands
    /// just before the cursor.
    fn read_integer_literal(&mut self, first: char) -> (token: Token)
        requires
            old(self).pos >= 1,
            old(self).chars@[old(self).pos - 1] == first,
            is_digit(first),
        ensures
            final(self).chars@ == old(self).chars@,
            final(self).pos == digits_end(old(self).chars@, old(self).pos as int),
            token@ == integer_token(
                old(self).chars@.subrange(old(self).pos - 1, final(self).pos as int),
            ),
    {
        proof {
            use_type_invariant(&*self);
        }
        let ghost s = self.chars@;
        let ghost start = self.pos - 1;
        let mut literal = String::new();
        push_char(&mut literal, first);
        let mut value: u64 = (first as u32 - 48) as u64;
        let mut fits = true;
        proof {
            assert(literal@ =~= s.subrange(start, start + 1));
            assert(literal@.drop_last() =~= Seq::<char>::empty());
            reveal_with_fuel(decimal_value, 2);
        }
        while self.pos < self.chars.len() && is_ascii_digit(self.chars[self.pos])
            invariant
                self.chars@ == s,
                0 <= start < self.pos <= s.len(),
                digits_end(s, self.pos as int) == digits_end(s, start + 1),
                literal@ == s.subrange(start, self.pos as int),
                fits ==> value == decimal_value(literal@),
                !fits ==> decimal_value(literal@) > u64::MAX,
            decreases s.len() - self.pos,
        {
            let ch = self.chars[self.pos];
            let digit: u64 = (ch as u32 - 48) as u64;
            let ghost before = literal@;
            push_char(&mut literal, ch);
            self.pos = self.pos + 1;
            proof {
                assert(literal@ =~= s.subrange(start, self.pos as int));
                assert(literal@.drop_last() =~= before);
                assert(literal@.last() == ch);
            }
            if fits && value <= (u64::MAX - digit) / 10 {
                value = value * 10 + digit;
            } else {
                fits = false;
            }
        }
        if fits {
            Token::IntegerLiteral(value)
        } else {
            let mut message = String::from_str("Invalid integer literal: '");
            message.append(literal.as_str());
            message.append("', with: number too large to fit in target type");
            Token::Error(message)
        }
    }

    /// Moves the cursor past whitespace.
    fn consume_whitespace(&mut self)
        ensures
            final(self).chars@ == old(self).chars@,
            final(self).pos == whitespace_end(old(self).chars@, old(self).pos as int),
    {
        proof {
            use_type_invariant(&*self);
        }
        while self.pos < self.chars.len() && is_whitespace(self.chars[self.pos])
            invariant
                self.chars@ == old(self).chars@,
                self.pos <= self.chars.len(),
                whitespace_end(self.chars@, self.pos as int) == whitespace_end(
                    old(self).chars@,
                    old(self).pos as int,
                ),
            decreases self.chars.len() - self.pos,
        {
            self.pos = self.pos + 1;
        }
    }

    /// Moves the cursor to the end of the line, in front of its newline.
    fn consume_comment(&mut self)
        ensures
            final(self).chars@ == old(self).chars@,
            final(self).pos == line_end(old(self).chars@, old(self).pos as int),
    {
        proof {
            use_type_invariant(&*self);
        }
        while self.pos < self.chars.len() && self.chars[self.pos] != '\n'
            invariant
                self.chars@ == old(self).chars@,
                self.pos <= self.chars.len(),
                line_end(self.chars@, self.pos as int) == line_end(
                    old(self).chars@,
                    old(self).pos as int,
                ),
            decreases self.chars.len() - self.pos,
        {
            self.pos = self.pos + 1;
        }
    }

    /// Moves the cursor behind the `*/` that closes a block comment, and tells
    /// whether there was one; without one the cursor ends at the end of input.
    fn consume_multi_line_comment(&mut self) -> (closed: bool)
        ensures
            final(self).chars@ == old(self).chars@,
            closed == block_comment_end(old(self).chars@, old(self).pos as int).is_some(),
            closed ==> block_comment_end(old(self).chars@, old(self).pos as int) == Some(
                final(self).pos as int,
            ),
            !closed ==> final(self).pos == final(self).chars.len(),
    {
        proof {
            use_type_invariant(&*self);
        }
        while self.pos < self.chars.len()
            invariant
                self.chars@ == old(self).chars@,
                self.pos <= self.chars.len(),
                block_comment_end(self.chars@, self.pos as int) == block_comment_end(
                    old(self).chars@,
                    old(self).pos as int,
                ),
            decreases self.chars.len() - self.pos,
        {
            let ch = self.chars[self.pos];
            self.pos = self.pos + 1;
            if ch == '*' && self.pos < self.chars.len() && self.chars[self.pos] == '/' {
                self.pos = self.pos + 1;
                return true;
            }
        }
        false
    }
}

} // verus!
