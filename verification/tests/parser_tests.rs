use c_compiler::lexer::Lexer;
use c_compiler::parse;
use c_compiler::parser::ast::{
    BinaryOp, CType, Declaration, Expression, FnParameter, FunctionDeclaration, Statement,
    TranslationUnit, Unary, VariableDeclaration,
};
use c_compiler::parser::error::ParserError;
use c_compiler::parser::precedence::Precedence;
use c_compiler::parser::Parser;
use c_compiler::Token;

fn lit(value: u64) -> Expression {
    Expression::IntegerLiteral(value)
}

fn name(text: &str) -> Expression {
    Expression::Identifier(text.to_string())
}

fn binary(op: BinaryOp) -> Expression {
    Expression::BinaryOp(Box::new(op))
}

fn initializer_of(src: &str) -> Expression {
    let mut unit = parse(src).unwrap();
    assert_eq!(unit.declarations.len(), 1);
    match unit.declarations.remove(0) {
        Declaration::Variable(variable) => variable.initializer.unwrap(),
        Declaration::Function(_) => panic!("a variable was expected"),
    }
}

#[test]
fn test_parser_parse_simple_main_function() {
    let src = "int main(void) { return 0; }";
    let ast = parse(src).unwrap();

    let expected = TranslationUnit {
        declarations: vec![Declaration::Function(FunctionDeclaration::new(
            CType::Int,
            "main".to_string(),
            vec![FnParameter::new(CType::Void, "".to_string())],
            Some(vec![Statement::Return(Expression::IntegerLiteral(0))]),
        ))],
    };

    assert_eq!(expected, ast);
}

#[test]
fn test_parser_parse_global_variable() {
    let src = "int a = 5;\nvoid main(void) {return 0;}";
    let ast = parse(src).unwrap();

    let expected = TranslationUnit {
        declarations: vec![
            Declaration::Variable(VariableDeclaration::new(
                CType::Int,
                "a".to_string(),
                Some(Expression::IntegerLiteral(5)),
            )),
            Declaration::Function(FunctionDeclaration::new(
                CType::Void,
                "main".to_string(),
                vec![FnParameter::new(CType::Void, "".to_string())],
                Some(vec![Statement::Return(Expression::IntegerLiteral(0))]),
            )),
        ],
    };

    assert_eq!(expected, ast);
}

#[test]
fn test_parser_parse_prefix_expression() {
    let src = "int a = +5; int b = -6;";
    let ast = parse(src).unwrap();

    let expected = TranslationUnit {
        declarations: vec![
            Declaration::Variable(VariableDeclaration::new(
                CType::Int,
                "a".to_string(),
                Some(Expression::Unary(Box::new(Unary::Positive(
                    Expression::IntegerLiteral(5),
                )))),
            )),
            Declaration::Variable(VariableDeclaration::new(
                CType::Int,
                "b".to_string(),
                Some(Expression::Unary(Box::new(Unary::Negative(
                    Expression::IntegerLiteral(6),
                )))),
            )),
        ],
    };

    assert_eq!(expected, ast);
}

#[test]
fn test_parser_parse_binary_expression() {
    let src = "int a = 2 + 3 * 4;";
    let ast = parse(src).unwrap();

    let expected = TranslationUnit {
        declarations: vec![Declaration::Variable(VariableDeclaration::new(
            CType::Int,
            "a".to_string(),
            Some(Expression::BinaryOp(Box::new(BinaryOp::Add(
                Expression::IntegerLiteral(2),
                Expression::BinaryOp(Box::new(BinaryOp::Multiply(
                    Expression::IntegerLiteral(3),
                    Expression::IntegerLiteral(4),
                ))),
            )))),
        ))],
    };

    assert_eq!(expected, ast);
}

#[test]
fn test_parser_parse_parenthesized_expression() {
    let src = "int a = (2 + 3) * 4;";
    let ast = parse(src).unwrap();

    let expected = TranslationUnit {
        declarations: vec![Declaration::Variable(VariableDeclaration::new(
            CType::Int,
            "a".to_string(),
            Some(Expression::BinaryOp(Box::new(BinaryOp::Multiply(
                Expression::BinaryOp(Box::new(BinaryOp::Add(
                    Expression::IntegerLiteral(2),
                    Expression::IntegerLiteral(3),
                ))),
                Expression::IntegerLiteral(4),
            )))),
        ))],
    };

    assert_eq!(expected, ast);
}

#[test]
fn test_parser_complex_expression() {
    let src = "int result = -5 + 3 * 2 - 1;";
    let ast = parse(src).unwrap();

    let expected = TranslationUnit {
        declarations: vec![Declaration::Variable(VariableDeclaration::new(
            CType::Int,
            "result".to_string(),
            Some(Expression::BinaryOp(Box::new(BinaryOp::Subtract(
                Expression::BinaryOp(Box::new(BinaryOp::Add(
                    Expression::Unary(Box::new(Unary::Negative(Expression::IntegerLiteral(5)))),
                    Expression::BinaryOp(Box::new(BinaryOp::Multiply(
                        Expression::IntegerLiteral(3),
                        Expression::IntegerLiteral(2),
                    ))),
                ))),
                Expression::IntegerLiteral(1),
            )))),
        ))],
    };

    assert_eq!(expected, ast);
}

#[test]
fn main_function_has_name_type_and_one_return() {
    let mut unit = parse("int main(void) { return 0; }").unwrap();
    assert_eq!(unit.declarations.len(), 1);
    match unit.declarations.remove(0) {
        Declaration::Function(function) => {
            assert_eq!(function.name, "main");
            assert_eq!(function.return_type, CType::Int);
            assert_eq!(
                function.body,
                Some(vec![Statement::Return(Expression::IntegerLiteral(0))])
            );
        }
        Declaration::Variable(_) => panic!("a function was expected"),
    }
}

#[test]
fn missing_identifier_is_refused() {
    assert_eq!(
        parse("int ; "),
        Err(ParserError::Expected("identifier", Token::Semicolon))
    );
    assert_eq!(
        parse("int 5"),
        Err(ParserError::Expected("identifier", Token::IntegerLiteral(5)))
    );
    assert_eq!(
        parse("void"),
        Err(ParserError::Expected("identifier", Token::EOF))
    );
}

#[test]
fn parsing_is_deterministic() {
    for src in [
        "int main(void) { return 0; }",
        "int a = 2 + 3 * 4;",
        "int ; ",
        "",
        "int a = (1;",
    ] {
        assert_eq!(parse(src), parse(src));
    }
}

#[test]
fn empty_source_has_no_declarations() {
    assert_eq!(parse(""), Ok(TranslationUnit { declarations: vec![] }));
    assert_eq!(
        parse(" // nothing here\n /* at all */ "),
        Ok(TranslationUnit { declarations: vec![] })
    );
}

#[test]
fn declarations_keep_source_order() {
    let unit = parse("int a = 1; int b = 2; int c = 3;").unwrap();
    let expected: Vec<Declaration> = [("a", 1u64), ("b", 2), ("c", 3)]
        .into_iter()
        .map(|(n, v)| {
            Declaration::Variable(VariableDeclaration::new(
                CType::Int,
                n.to_string(),
                Some(lit(v)),
            ))
        })
        .collect();
    assert_eq!(unit.declarations, expected);
}

#[test]
fn type_keyword_is_required() {
    assert_eq!(
        parse("x = 5;"),
        Err(ParserError::Expected(
            "type token",
            Token::Identifier("x".to_string())
        ))
    );
    assert_eq!(
        parse("return 0;"),
        Err(ParserError::Expected("type token", Token::Return))
    );
}

#[test]
fn declaration_needs_assignment_semicolon_or_parenthesis() {
    assert_eq!(
        parse("int a + 5;"),
        Err(ParserError::Expected("declaration", Token::Plus))
    );
    assert_eq!(
        parse("int a"),
        Err(ParserError::Expected("declaration", Token::EOF))
    );
}

#[test]
fn lexical_error_surfaces_as_the_unexpected_token() {
    assert_eq!(
        parse("int a $"),
        Err(ParserError::Expected(
            "declaration",
            Token::Error("Unexpected character: '$'".to_string())
        ))
    );
}

#[test]
fn semicolon_ends_a_declaration_without_initializer() {
    assert_eq!(
        parse("int x;"),
        Ok(TranslationUnit {
            declarations: vec![Declaration::Variable(VariableDeclaration::new(
                CType::Int,
                "x".to_string(),
                None,
            ))],
        })
    );
    assert_eq!(
        parse("int a; int b;"),
        Ok(TranslationUnit {
            declarations: vec![
                Declaration::Variable(VariableDeclaration::new(
                    CType::Int,
                    "a".into(),
                    None
                )),
                Declaration::Variable(VariableDeclaration::new(
                    CType::Int,
                    "b".into(),
                    None
                )),
            ],
        })
    );
    assert_eq!(
        parse("void v; int a = 1; int main(void) { return a; }")
            .unwrap()
            .declarations
            .len(),
        3
    );
    assert_eq!(
        parse("int x;;"),
        Err(ParserError::Expected("type token", Token::Semicolon))
    );
}

#[test]
fn initializer_may_end_without_semicolon() {
    assert_eq!(
        parse("int a = 5").unwrap().declarations,
        vec![Declaration::Variable(VariableDeclaration::new(
            CType::Int,
            "a".to_string(),
            Some(lit(5)),
        ))]
    );
    assert_eq!(parse("int a = 5 int b = 6;").unwrap().declarations.len(), 2);
}

#[test]
fn only_the_outermost_expression_takes_the_semicolon() {
    assert_eq!(
        parse("int a = (2; )"),
        Err(ParserError::Expected("closing parenthesis", Token::Semicolon))
    );
    assert_eq!(
        parse("int a = 2 + 3; + 4;"),
        Err(ParserError::Expected("type token", Token::Plus))
    );
}

#[test]
fn expression_is_required() {
    assert_eq!(
        parse("int a = ;"),
        Err(ParserError::Expected("expression", Token::Semicolon))
    );
    assert_eq!(
        parse("int a = 1 + ;"),
        Err(ParserError::Expected("expression", Token::Semicolon))
    );
    assert_eq!(
        parse("int a = *"),
        Err(ParserError::Expected("expression", Token::Asterix))
    );
    assert_eq!(
        parse("int f(void) { return }"),
        Err(ParserError::Expected("expression", Token::CloseBrace))
    );
}

#[test]
fn parenthesis_must_be_closed() {
    assert_eq!(
        parse("int a = (2 + 3;"),
        Err(ParserError::Expected("closing parenthesis", Token::Semicolon))
    );
    assert_eq!(
        parse("int a = (2"),
        Err(ParserError::Expected("closing parenthesis", Token::EOF))
    );
    assert_eq!(initializer_of("int a = ((7));"), lit(7));
}

#[test]
fn additive_operators_group_from_the_left() {
    assert_eq!(
        initializer_of("int a = 1 - 2 - 3;"),
        binary(BinaryOp::Subtract(
            binary(BinaryOp::Subtract(lit(1), lit(2))),
            lit(3)
        ))
    );
    assert_eq!(
        initializer_of("int a = 8 / 4 / 2;"),
        binary(BinaryOp::Divide(
            binary(BinaryOp::Divide(lit(8), lit(4))),
            lit(2)
        ))
    );
}

#[test]
fn assignment_groups_from_the_right() {
    assert_eq!(
        initializer_of("int a = x = y = 3;"),
        binary(BinaryOp::Assign(
            name("x"),
            binary(BinaryOp::Assign(name("y"), lit(3)))
        ))
    );
    assert_eq!(
        initializer_of("int a = x = 1 + 2;"),
        binary(BinaryOp::Assign(
            name("x"),
            binary(BinaryOp::Add(lit(1), lit(2)))
        ))
    );
}

#[test]
fn equality_binds_looser_than_arithmetic() {
    assert_eq!(
        initializer_of("int a = 1 + 2 == 3 * 1;"),
        binary(BinaryOp::Equals(
            binary(BinaryOp::Add(lit(1), lit(2))),
            binary(BinaryOp::Multiply(lit(3), lit(1)))
        ))
    );
    assert_eq!(
        initializer_of("int a = x = 1 == 2;"),
        binary(BinaryOp::Assign(
            name("x"),
            binary(BinaryOp::Equals(lit(1), lit(2)))
        ))
    );
}

#[test]
fn unary_binds_tighter_than_binary() {
    assert_eq!(
        initializer_of("int a = -x * 3;"),
        binary(BinaryOp::Multiply(
            Expression::Unary(Box::new(Unary::Negative(name("x")))),
            lit(3)
        ))
    );
    assert_eq!(
        initializer_of("int a = - + 4;"),
        Expression::Unary(Box::new(Unary::Negative(Expression::Unary(Box::new(
            Unary::Positive(lit(4))
        )))))
    );
    assert_eq!(
        initializer_of("int a = -(1 + 2);"),
        Expression::Unary(Box::new(Unary::Negative(binary(BinaryOp::Add(
            lit(1),
            lit(2)
        )))))
    );
}

fn parameters_of(src: &str) -> Vec<FnParameter> {
    let mut unit = parse(src).unwrap();
    assert_eq!(unit.declarations.len(), 1);
    match unit.declarations.remove(0) {
        Declaration::Function(function) => function.parameters,
        Declaration::Variable(_) => panic!("a function was expected"),
    }
}

#[test]
fn empty_parameter_list_is_the_placeholder() {
    let expected = TranslationUnit {
        declarations: vec![Declaration::Function(FunctionDeclaration::new(
            CType::Void,
            "f".to_string(),
            vec![FnParameter::new(CType::Void, String::new())],
            Some(vec![]),
        ))],
    };
    assert_eq!(parse("void f() {}"), Ok(expected));
    assert_eq!(parse("void f(void) {}"), parse("void f() {}"));
    assert_eq!(
        parameters_of("int main ( void ) { return 0; }"),
        vec![FnParameter::new(CType::Void, String::new())]
    );
}

#[test]
fn single_parameter_has_its_type_and_name() {
    assert_eq!(
        parameters_of("int twice(int n) { return n + n; }"),
        vec![FnParameter::new(CType::Int, "n".to_string())]
    );
    assert_eq!(
        parameters_of("int f(void x) {}"),
        vec![FnParameter::new(CType::Void, "x".to_string())]
    );
}

#[test]
fn several_parameters_are_refused() {
    assert_eq!(
        parse("int f(int a, int b) {}"),
        Err(ParserError::Expected(
            "closing parenthesis",
            Token::Error("Unexpected character: ','".to_string())
        ))
    );
    assert_eq!(
        parse("int f(int a int b) {}"),
        Err(ParserError::Expected("closing parenthesis", Token::Int))
    );
}

#[test]
fn parameter_needs_type_and_name() {
    assert_eq!(
        parse("int f(5) {}"),
        Err(ParserError::Expected("type token", Token::IntegerLiteral(5)))
    );
    assert_eq!(
        parse("int f(a) {}"),
        Err(ParserError::Expected(
            "type token",
            Token::Identifier("a".to_string())
        ))
    );
    assert_eq!(
        parse("int f(int) {}"),
        Err(ParserError::Expected("identifier", Token::CloseParen))
    );
    assert_eq!(
        parse("int f(void void) {}"),
        Err(ParserError::Expected("identifier", Token::Void))
    );
}

#[test]
fn parameter_list_must_be_closed() {
    assert_eq!(
        parse("int f("),
        Err(ParserError::Expected("type token", Token::EOF))
    );
    assert_eq!(
        parse("int f(void"),
        Err(ParserError::Expected("identifier", Token::EOF))
    );
    assert_eq!(
        parse("int f(int a { return 0; }"),
        Err(ParserError::Expected("closing parenthesis", Token::OpenBrace))
    );
    assert_eq!(
        parse("int f(int a"),
        Err(ParserError::Expected("closing parenthesis", Token::EOF))
    );
}

#[test]
fn body_must_open_with_a_brace() {
    assert_eq!(
        parse("int f(void) return 0;"),
        Err(ParserError::Expected("opening brace", Token::Return))
    );
    assert_eq!(
        parse("int f(void)"),
        Err(ParserError::Expected("opening brace", Token::EOF))
    );
}

#[test]
fn body_may_hold_several_returns() {
    let mut unit = parse("int f(void) { return 1; return 2 return x; }").unwrap();
    match unit.declarations.remove(0) {
        Declaration::Function(function) => assert_eq!(
            function.body,
            Some(vec![
                Statement::Return(lit(1)),
                Statement::Return(lit(2)),
                Statement::Return(name("x")),
            ])
        ),
        Declaration::Variable(_) => panic!("a function was expected"),
    }
}

#[test]
fn local_declaration_is_refused() {
    assert_eq!(
        parse("int f(void) { int a = 1; }"),
        Err(ParserError::Other(
            "local variable declarations are not supported"
        ))
    );
    assert_eq!(
        parse("int f(void) { void }"),
        Err(ParserError::Other(
            "local variable declarations are not supported"
        ))
    );
}

#[test]
fn other_statements_are_refused() {
    assert_eq!(
        parse("int f(void) { 5 + 6; }"),
        Err(ParserError::Other("unsupported statement"))
    );
    assert_eq!(
        parse("int f(void) { return 0;"),
        Err(ParserError::Other("unsupported statement"))
    );
}

#[test]
fn parser_over_a_lexer_reads_what_is_left() {
    let mut lexer = Lexer::new("int a = 1; int b = 2;");
    for _ in 0..5 {
        lexer.next_token();
    }
    let mut parser = Parser::new(lexer);
    let unit = parser.parse().unwrap();
    assert_eq!(
        unit.declarations,
        vec![Declaration::Variable(VariableDeclaration::new(
            CType::Int,
            "b".to_string(),
            Some(lit(2)),
        ))]
    );
    assert_eq!(parser.parse(), Ok(TranslationUnit { declarations: vec![] }));
}

#[test]
fn ctype_from_token() {
    assert_eq!(CType::from_token(&Token::Int), Ok(CType::Int));
    assert_eq!(CType::from_token(&Token::Void), Ok(CType::Void));
    assert_eq!(
        CType::from_token(&Token::Return),
        Err(ParserError::Expected("type token", Token::Return))
    );
    assert_eq!(
        CType::from_token(&Token::Identifier("long".to_string())),
        Err(ParserError::Expected(
            "type token",
            Token::Identifier("long".to_string())
        ))
    );
}

#[test]
fn precedence_table() {
    assert_eq!(Precedence::from_token(&Token::Assignment), Precedence::Assignment);
    assert_eq!(Precedence::from_token(&Token::Equal), Precedence::Equality);
    assert_eq!(Precedence::from_token(&Token::Plus), Precedence::Additive);
    assert_eq!(Precedence::from_token(&Token::Minus), Precedence::Additive);
    assert_eq!(Precedence::from_token(&Token::Asterix), Precedence::Multiplicative);
    assert_eq!(Precedence::from_token(&Token::Slash), Precedence::Multiplicative);
    assert_eq!(Precedence::from_token(&Token::Semicolon), Precedence::Lowest);
    assert_eq!(Precedence::from_token(&Token::EOF), Precedence::Lowest);
    let ordered = [
        Precedence::Lowest,
        Precedence::Assignment,
        Precedence::Equality,
        Precedence::Relational,
        Precedence::Additive,
        Precedence::Multiplicative,
        Precedence::Unary,
        Precedence::Postfix,
    ];
    for (rank, precedence) in ordered.iter().enumerate() {
        assert_eq!(precedence.level() as usize, rank);
    }
    for pair in ordered.windows(2) {
        assert!(pair[0] < pair[1]);
    }
}

#[test]
fn only_assignment_is_right_associative() {
    assert!(Precedence::is_right_associative(&Token::Assignment));
    assert!(!Precedence::is_right_associative(&Token::Equal));
    assert!(!Precedence::is_right_associative(&Token::Plus));
    assert!(!Precedence::is_right_associative(&Token::Asterix));
    assert!(!Precedence::is_right_associative(&Token::EOF));
}

#[test]
fn conversions_from_a_token() {
    assert_eq!(Precedence::from(&Token::Slash), Precedence::Multiplicative);
    assert_eq!(Precedence::from(&Token::Equal), Precedence::Equality);
    assert_eq!(Precedence::from(&Token::Int), Precedence::Lowest);
    assert_eq!(CType::try_from(&Token::Void), Ok(CType::Void));
    assert_eq!(
        CType::try_from(&Token::Plus),
        Err(ParserError::Expected("type token", Token::Plus))
    );
}

#[test]
fn whitespace_and_comments_do_not_change_the_tree() {
    let plain = "int a=2+3*4;int main(void){return a;}";
    let spaced = "// header\nint a = 2 +\t3 * /* factor */ 4 ;\n\nint main ( void )\n{\n    return a ; // done\n}\n";
    assert_eq!(Lexer::new(plain).lex_all(), Lexer::new(spaced).lex_all());
    assert_eq!(parse(plain), parse(spaced));
    assert!(parse(plain).is_ok());
    assert_eq!(parse("int /* x */ ;"), parse("int ; "));
}

#[test]
fn error_is_the_first_one_in_source_order() {
    assert_eq!(
        parse("int a = ; int ;"),
        Err(ParserError::Expected("expression", Token::Semicolon))
    );
    assert_eq!(
        parse("int a = 1; int ; int b = ;"),
        Err(ParserError::Expected("identifier", Token::Semicolon))
    );
}

#[test]
fn comment_in_front_keeps_the_tree() {
    for src in [
        "int a; int b;",
        "int main(void) { return 0; }",
        "int a = (2 + 3) * 4;",
        "int ; ",
        "",
    ] {
        assert_eq!(parse(&format!("// note\n{}", src)), parse(src));
        assert_eq!(parse(&format!("/* note **/{}", src)), parse(src));
    }
}

#[test]
fn joined_texts_parse_to_joined_declarations() {
    let texts = [
        "int a;",
        "int a = 5;\n",
        "void v; int w = -1 ",
        "int main(void) { return 0; }",
        "int twice(int n) { return n + n; } // end\n",
        "",
        " /* nothing */ ",
    ];
    for a in texts {
        for b in texts {
            let whole = format!("{}{}", a, b);
            let mut tokens = Lexer::new(a).lex_all();
            tokens.pop();
            tokens.extend(Lexer::new(b).lex_all());
            assert_eq!(Lexer::new(&whole).lex_all(), tokens, "{:?} {:?}", a, b);
            let mut declarations = parse(a).unwrap().declarations;
            declarations.extend(parse(b).unwrap().declarations);
            assert_eq!(parse(&whole), Ok(TranslationUnit { declarations }), "{:?} {:?}", a, b);
        }
    }
}
