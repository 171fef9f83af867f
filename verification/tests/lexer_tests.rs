use c_compiler::lexer::Lexer;
use c_compiler::Token;

fn lex(input: &str) -> Vec<Token> {
    Lexer::new(input).lex_all()
}

fn ident(name: &str) -> Token {
    Token::Identifier(name.to_string())
}

#[test]
fn test_lexer_simple_program_tokens() {
    let input = "int main(void) { return 2; }";
    let mut lexer = Lexer::new(input);

    assert_eq!(lexer.next_token(), Token::Int);
    assert_eq!(lexer.next_token(), Token::Identifier("main".to_string()));
    assert_eq!(lexer.next_token(), Token::OpenParen);
    assert_eq!(lexer.next_token(), Token::Void);
    assert_eq!(lexer.next_token(), Token::CloseParen);
    assert_eq!(lexer.next_token(), Token::OpenBrace);
    assert_eq!(lexer.next_token(), Token::Return);
    assert_eq!(lexer.next_token(), Token::IntegerLiteral(2));
    assert_eq!(lexer.next_token(), Token::Semicolon);
    assert_eq!(lexer.next_token(), Token::CloseBrace);
    assert_eq!(lexer.next_token(), Token::EOF);
}

#[test]
fn test_lexer_whitespace_and_newline() {
    let input = "int \n main ( void ) { \t return 2 ; }";
    let mut lexer = Lexer::new(input);

    assert_eq!(lexer.next_token(), Token::Int);
    assert_eq!(lexer.next_token(), Token::Identifier("main".to_string()));
    assert_eq!(lexer.next_token(), Token::OpenParen);
    assert_eq!(lexer.next_token(), Token::Void);
    assert_eq!(lexer.next_token(), Token::CloseParen);
    assert_eq!(lexer.next_token(), Token::OpenBrace);
    assert_eq!(lexer.next_token(), Token::Return);
    assert_eq!(lexer.next_token(), Token::IntegerLiteral(2));
    assert_eq!(lexer.next_token(), Token::Semicolon);
    assert_eq!(lexer.next_token(), Token::CloseBrace);
    assert_eq!(lexer.next_token(), Token::EOF);
}

#[test]
fn test_lexer_unexpected_character() {
    let input = "int $ main";
    let mut lexer = Lexer::new(input);

    assert_eq!(lexer.next_token(), Token::Int);
    assert_eq!(
        lexer.next_token(),
        Token::Error("Unexpected character: '$'".to_string())
    );
    assert_eq!(lexer.next_token(), Token::Identifier("main".to_string()));
    assert_eq!(lexer.next_token(), Token::EOF);
}

#[test]
fn test_lexer_empty_input() {
    let input = "";
    let mut lexer = Lexer::new(input);
    assert_eq!(lexer.next_token(), Token::EOF);
}

#[test]
fn test_lexer_comment() {
    let input = "// A comment \n int main ( void ) { \t return 2 ; }";
    let mut lexer = Lexer::new(input);

    assert_eq!(lexer.next_token(), Token::Int);
    assert_eq!(lexer.next_token(), Token::Identifier("main".to_string()));
    assert_eq!(lexer.next_token(), Token::OpenParen);
    assert_eq!(lexer.next_token(), Token::Void);
    assert_eq!(lexer.next_token(), Token::CloseParen);
    assert_eq!(lexer.next_token(), Token::OpenBrace);
    assert_eq!(lexer.next_token(), Token::Return);
    assert_eq!(lexer.next_token(), Token::IntegerLiteral(2));
    assert_eq!(lexer.next_token(), Token::Semicolon);
    assert_eq!(lexer.next_token(), Token::CloseBrace);
    assert_eq!(lexer.next_token(), Token::EOF);
}

#[test]
fn test_lexer_division() {
    let input = "int main(void) { return 2 / 5; }";
    let mut lexer = Lexer::new(input);

    assert_eq!(lexer.next_token(), Token::Int);
    assert_eq!(lexer.next_token(), Token::Identifier("main".to_string()));
    assert_eq!(lexer.next_token(), Token::OpenParen);
    assert_eq!(lexer.next_token(), Token::Void);
    assert_eq!(lexer.next_token(), Token::CloseParen);
    assert_eq!(lexer.next_token(), Token::OpenBrace);
    assert_eq!(lexer.next_token(), Token::Return);
    assert_eq!(lexer.next_token(), Token::IntegerLiteral(2));
    assert_eq!(lexer.next_token(), Token::Slash);
    assert_eq!(lexer.next_token(), Token::IntegerLiteral(5));
    assert_eq!(lexer.next_token(), Token::Semicolon);
    assert_eq!(lexer.next_token(), Token::CloseBrace);
    assert_eq!(lexer.next_token(), Token::EOF);
}

#[test]
fn test_lexer_multi_line_comment() {
    let input = "/* This a a comment. Bla Bla \n Bla fwaiooja koawf \n lkdalw */ int main(void) { return 2; }";
    let mut lexer = Lexer::new(input);

    assert_eq!(lexer.next_token(), Token::Int);
    assert_eq!(lexer.next_token(), Token::Identifier("main".to_string()));
    assert_eq!(lexer.next_token(), Token::OpenParen);
    assert_eq!(lexer.next_token(), Token::Void);
    assert_eq!(lexer.next_token(), Token::CloseParen);
    assert_eq!(lexer.next_token(), Token::OpenBrace);
    assert_eq!(lexer.next_token(), Token::Return);
    assert_eq!(lexer.next_token(), Token::IntegerLiteral(2));
    assert_eq!(lexer.next_token(), Token::Semicolon);
    assert_eq!(lexer.next_token(), Token::CloseBrace);
    assert_eq!(lexer.next_token(), Token::EOF);
}

#[test]
fn blank_input_lexes_to_eof_alone() {
    assert_eq!(lex(""), vec![Token::EOF]);
    assert_eq!(lex("   \t\r\n  "), vec![Token::EOF]);
    assert_eq!(lex("// only a comment"), vec![Token::EOF]);
    assert_eq!(lex("// first\n// second\n"), vec![Token::EOF]);
    assert_eq!(lex("/* block */"), vec![Token::EOF]);
    assert_eq!(lex("  /* a * b / c ** */ // tail\n\t/**/ \u{a0}\u{2003}"), vec![Token::EOF]);
}

#[test]
fn line_comment_is_transparent() {
    assert_eq!(lex("// comment\nint x;"), lex("int x;"));
    assert_eq!(
        lex("int x;"),
        vec![Token::Int, ident("x"), Token::Semicolon, Token::EOF]
    );
    assert_eq!(lex("int /* in between */ x // tail\n;"), lex("int x;"));
}

#[test]
fn line_comment_ends_in_front_of_the_newline() {
    let mut lexer = Lexer::new("//x\n+");
    assert_eq!(lexer.next_token(), Token::Plus);
    assert_eq!(lexer.next_token(), Token::EOF);
}

#[test]
fn unterminated_block_comment_is_a_trailing_error() {
    assert_eq!(
        lex("/* never closes"),
        vec![
            Token::Error("Unterminated multi-line comment".to_string()),
            Token::EOF
        ]
    );
    assert_eq!(
        lex("int /* never closes * /"),
        vec![
            Token::Int,
            Token::Error("Unterminated multi-line comment".to_string()),
            Token::EOF
        ]
    );
    assert_eq!(
        lex("/*/"),
        vec![
            Token::Error("Unterminated multi-line comment".to_string()),
            Token::EOF
        ]
    );
}

#[test]
fn block_comment_closes_at_the_first_star_slash() {
    assert_eq!(lex("/***/+"), vec![Token::Plus, Token::EOF]);
    assert_eq!(
        lex("/* a */ - /* b */"),
        vec![Token::Minus, Token::EOF]
    );
    assert_eq!(
        lex("/* a */ */"),
        vec![Token::Asterix, Token::Slash, Token::EOF]
    );
}

#[test]
fn unknown_character_is_an_error_and_lexing_resumes() {
    assert_eq!(
        lex("$"),
        vec![
            Token::Error("Unexpected character: '$'".to_string()),
            Token::EOF
        ]
    );
    assert_eq!(
        lex("$;"),
        vec![
            Token::Error("Unexpected character: '$'".to_string()),
            Token::Semicolon,
            Token::EOF
        ]
    );
    assert_eq!(
        lex("#@"),
        vec![
            Token::Error("Unexpected character: '#'".to_string()),
            Token::Error("Unexpected character: '@'".to_string()),
            Token::EOF
        ]
    );
    assert_eq!(
        lex(":"),
        vec![
            Token::Error("Unexpected character: ':'".to_string()),
            Token::EOF
        ]
    );
}

#[test]
fn integer_literals_round_trip() {
    for n in [0u64, 1, 9, 10, 42, 1234567890, u64::MAX - 1, u64::MAX] {
        assert_eq!(
            lex(&n.to_string()),
            vec![Token::IntegerLiteral(n), Token::EOF]
        );
    }
    assert_eq!(lex("007"), vec![Token::IntegerLiteral(7), Token::EOF]);
    assert_eq!(
        lex("18446744073709551615"),
        vec![Token::IntegerLiteral(18446744073709551615), Token::EOF]
    );
}

#[test]
fn oversized_integer_literal_is_an_error() {
    assert_eq!(
        lex("18446744073709551616"),
        vec![
            Token::Error(
                "Invalid integer literal: '18446744073709551616', with: number too large to fit in target type"
                    .to_string()
            ),
            Token::EOF
        ]
    );
    assert_eq!(
        lex("99999999999999999999999 +"),
        vec![
            Token::Error(
                "Invalid integer literal: '99999999999999999999999', with: number too large to fit in target type"
                    .to_string()
            ),
            Token::Plus,
            Token::EOF
        ]
    );
}

#[test]
fn oversized_literal_message_matches_the_standard_parse_error() {
    let text = "18446744073709551616";
    let error = text.parse::<u64>().unwrap_err();
    assert_eq!(
        lex(text)[0],
        Token::Error(format!("Invalid integer literal: '{}', with: {}", text, error))
    );
}

#[test]
fn digits_end_at_the_first_other_character() {
    assert_eq!(
        lex("12ab"),
        vec![Token::IntegerLiteral(12), ident("ab"), Token::EOF]
    );
    assert_eq!(
        lex("1+2"),
        vec![
            Token::IntegerLiteral(1),
            Token::Plus,
            Token::IntegerLiteral(2),
            Token::EOF
        ]
    );
}

#[test]
fn keywords_and_identifiers() {
    assert_eq!(
        lex("int void return"),
        vec![Token::Int, Token::Void, Token::Return, Token::EOF]
    );
    assert_eq!(
        lex("integer voided returns _x x_1 Int"),
        vec![
            ident("integer"),
            ident("voided"),
            ident("returns"),
            ident("_x"),
            ident("x_1"),
            ident("Int"),
            Token::EOF
        ]
    );
    assert_eq!(lex("_"), vec![ident("_"), Token::EOF]);
    assert_eq!(lex("été2"), vec![ident("été2"), Token::EOF]);
}

#[test]
fn punctuation_and_operators() {
    assert_eq!(
        lex("(){};+-*/"),
        vec![
            Token::OpenParen,
            Token::CloseParen,
            Token::OpenBrace,
            Token::CloseBrace,
            Token::Semicolon,
            Token::Plus,
            Token::Minus,
            Token::Asterix,
            Token::Slash,
            Token::EOF
        ]
    );
}

#[test]
fn assignment_and_equality() {
    assert_eq!(lex("="), vec![Token::Assignment, Token::EOF]);
    assert_eq!(lex("=="), vec![Token::Equal, Token::EOF]);
    assert_eq!(
        lex("==="),
        vec![Token::Equal, Token::Assignment, Token::EOF]
    );
    assert_eq!(
        lex("a = b == c"),
        vec![
            ident("a"),
            Token::Assignment,
            ident("b"),
            Token::Equal,
            ident("c"),
            Token::EOF
        ]
    );
}

#[test]
fn slash_at_the_end_is_division() {
    assert_eq!(lex("/"), vec![Token::Slash, Token::EOF]);
    assert_eq!(lex("/ /"), vec![Token::Slash, Token::Slash, Token::EOF]);
}

#[test]
fn eof_is_repeated() {
    let mut lexer = Lexer::new("x");
    assert_eq!(lexer.next_token(), ident("x"));
    assert_eq!(lexer.next_token(), Token::EOF);
    assert_eq!(lexer.next_token(), Token::EOF);
    assert_eq!(lexer.next_token(), Token::EOF);
}

#[test]
fn lex_all_ends_with_the_only_eof() {
    let tokens = lex("int main(void) { return 2; }");
    assert_eq!(tokens.len(), 11);
    assert_eq!(tokens.last(), Some(&Token::EOF));
    assert_eq!(tokens.iter().filter(|t| **t == Token::EOF).count(), 1);
}

#[test]
fn lex_all_continues_from_the_cursor() {
    let mut lexer = Lexer::new("a b c");
    assert_eq!(lexer.next_token(), ident("a"));
    assert_eq!(lexer.lex_all(), vec![ident("b"), ident("c"), Token::EOF]);
}

#[test]
fn token_duplicate_is_equal() {
    for token in lex("int x = 5 == $ ;") {
        assert_eq!(token.duplicate(), token);
    }
    assert!(Token::EOF.is_eof());
    assert!(!Token::Int.is_eof());
}

#[test]
fn comment_in_front_changes_no_token() {
    let texts = [
        "",
        "int x;",
        " int main(void) { return 2 / 5; }",
        "*/ x",
        "/ 3",
        "// tail",
        "/* open",
        "$ 18446744073709551616 _a",
        "\n\nreturn",
    ];
    let lines = ["", " a comment ", "//", "/* not a block", "*/", "int x;", "\t\r"];
    let blocks = ["", " a comment ", "*", "**", "/", "/*", "\n int y; \n", "* /", "//\n"];
    for s in texts {
        let plain = lex(s);
        for c in lines {
            assert_eq!(lex(&format!("//{}\n{}", c, s)), plain, "{:?} {:?}", c, s);
        }
        for d in blocks {
            assert_eq!(lex(&format!("/*{}*/{}", d, s)), plain, "{:?} {:?}", d, s);
        }
    }
}
