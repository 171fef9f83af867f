//! Recursive-descent parser with precedence climbing for expressions.
//!
//! The parser pulls tokens from a [`Lexer`] through a window of two tokens.
//! Each parsing function is proved to yield what the grammar in
//! [`grammar`] assigns to the source text and the state of the window.
pub mod ast;
pub mod error;
pub mod grammar;
pub mod joined;
pub mod precedence;
pub mod stream;

use vstd::prelude::*;
use crate::lexer::Lexer;
use crate::parser::ast::{
    declaration_views, parameter_views, statement_views, BinaryOp, CType, Declaration, Expression, FnParameter,
    FunctionDeclaration, Statement, TranslationUnit, Unary, VariableDeclaration,
};
use crate::parser::error::{ParserError, ParserErrorView};
use crate::parser::grammar::{
    body_at, chain_at, declaration_at, declarations_at, expression_at, function_declaration_at,
    infix_at, is_terminator, lemma_declaration_consumes, lemma_infix_consumes,
    lemma_prefix_consumes, lemma_shift_decreases, lemma_statement_consumes, parameters_at,
    parse_source, past_semicolon, prefix_at, remaining, return_statement_at,
    shift, statement_at, statements_at, translation_unit_at, variable_declaration_at, window_at,
    Cursor,
};
use crate::parser::precedence::Precedence;
use crate::token::{Token, TokenView};

verus! {

/// The model of a parsing result: the view of the value, or of the error.
pub open spec fn result_view<T: View>(r: Result<T, ParserError>) -> Result<
    T::V,
    ParserErrorView,
> {
    match r {
        Ok(value) => Ok(value@),
        Err(error) => Err(error@),
    }
}

/// The model of a parsed list of statements, or of the error.
pub open spec fn statements_result_view(r: Result<Vec<Statement>, ParserError>) -> Result<
    Seq<ast::StatementView>,
    ParserErrorView,
> {
    match r {
        Ok(statements) => Ok(statement_views(statements@)),
        Err(error) => Err(error@),
    }
}

/// The model of a parsed parameter list, or of the error.
pub open spec fn parameters_result_view(r: Result<Vec<FnParameter>, ParserError>) -> Result<
    Seq<ast::FnParameterView>,
    ParserErrorView,
> {
    match r {
        Ok(parameters) => Ok(parameter_views(parameters@)),
        Err(error) => Err(error@),
    }
}

/// Parses source text into its tree, or fails with the first syntactic error.
pub fn parse(src: &str) -> (result: Result<TranslationUnit, ParserError>)
    ensures
        result_view(result) == parse_source(src@),
{
    let lexer = Lexer::new(src);
    let mut parser = Parser::new(lexer);
    parser.parse()
}

/// Parser state: the lexer and the window of two tokens read from it.
pub struct Parser {
    lexer: Lexer,
    token: Token,
    peek_token: Token,
}

impl Parser {
    /// The source text that is parsed.
    pub closed spec fn source(&self) -> Seq<char> {
        self.lexer.source()
    }

    /// The state of the token window.
    pub closed spec fn cursor(&self) -> Cursor {
        Cursor {
            token: self.token@,
            peek: self.peek_token@,
            pos: self.lexer.position(),
        }
    }

    /// What is left to read, as a bound on the tokens ahead.
    pub open spec fn fuel(&self) -> nat {
        remaining(self.source(), self.cursor())
    }

    /// A parser over what `lexer` has not read yet, with the window filled.
    pub fn new(lexer: Lexer) -> (parser: Parser)
        ensures
            parser.source() == lexer.source(),
            parser.cursor() == window_at(lexer.source(), lexer.position()),
    {
        let mut lexer = lexer;
        let token = lexer.next_token();
        let peek_token = lexer.next_token();
        Parser { lexer, token, peek_token }
    }

    /// Moves the window forward by one token.
    fn next_token(&mut self)
        ensures
            final(self).source() == old(self).source(),
            final(self).cursor() == shift(old(self).source(), old(self).cursor()),
    {
        self.token = self.peek_token.duplicate();
        self.peek_token = self.lexer.next_token();
    }

    /// Parses declarations up to the end of input.
    pub fn parse(&mut self) -> (result: Result<TranslationUnit, ParserError>)
        ensures
            final(self).source() == old(self).source(),
            (result_view(result), final(self).cursor()) == translation_unit_at(
                old(self).source(),
                old(self).cursor(),
            ),
    {
        let ghost s = self.source();
        let ghost c0 = self.cursor();
        let mut declarations: Vec<Declaration> = Vec::new();
        assert(declaration_views(declarations@) =~= Seq::empty());
        while !self.token.is_eof()
            invariant
                self.source() == s,
                s == old(self).source(),
                c0 == old(self).cursor(),
                declarations_at(s, self.cursor(), declaration_views(declarations@))
                    == declarations_at(s, c0, Seq::empty()),
            decreases remaining(s, self.cursor()),
        {
            let ghost before = declaration_views(declarations@);
            proof {
                lemma_declaration_consumes(s, self.cursor());
            }
            match self.parse_declaration() {
                Ok(declaration) => {
                    declarations.push(declaration);
                    assert(declaration_views(declarations@) =~= before.push(declaration@));
                },
                Err(error) => {
                    return Err(error);
                },
            }
        }
        Ok(TranslationUnit { declarations })
    }

    /// Parses one declaration: a type keyword, a name, and a variable's or a function's rest.
    fn parse_declaration(&mut self) -> (result: Result<Declaration, ParserError>)
        ensures
            final(self).source() == old(self).source(),
            (result_view(result), final(self).cursor()) == declaration_at(
                old(self).source(),
                old(self).cursor(),
            ),
    {
        let ctype = match CType::try_from(&self.token) {
            Ok(ctype) => ctype,
            Err(error) => {
                return Err(error);
            },
        };
        self.next_token();
        let identifier = match &self.token {
            Token::Identifier(id) => id.clone(),
            _ => {
                return Err(ParserError::Expected("identifier", self.token.duplicate()));
            },
        };
        self.next_token();
        match self.token {
            Token::Assignment | Token::Semicolon => self.parse_variable_declaration(
                ctype,
                identifier,
            ),
            Token::OpenParen => self.parse_function_declaration(ctype, identifier),
            _ => Err(ParserError::Expected("declaration", self.token.duplicate())),
        }
    }

    /// Parses the rest of a function declaration: the parameter list and the body.
    fn parse_function_declaration(&mut self, ctype: CType, name: String) -> (result: Result<
        Declaration,
        ParserError,
    >)
        ensures
            final(self).source() == old(self).source(),
            (result_view(result), final(self).cursor()) == function_declaration_at(
                old(self).source(),
                old(self).cursor(),
                ctype,
                name@,
            ),
    {
        let parameters = match self.parse_function_args() {
            Ok(parameters) => parameters,
            Err(error) => {
                return Err(error);
            },
        };
        let body = match self.parse_body() {
            Ok(body) => body,
            Err(error) => {
                return Err(error);
            },
        };
        Ok(Declaration::Function(FunctionDeclaration::new(ctype, name, parameters, Some(body))))
    }

    /// Parses a parameter list, from `(` to `)`: nothing or `void` for no
    /// parameter, which yields the placeholder entry alone, or one type and
    /// one name.
    fn parse_function_args(&mut self) -> (result: Result<Vec<FnParameter>, ParserError>)
        ensures
            final(self).source() == old(self).source(),
            (parameters_result_view(result), final(self).cursor()) == parameters_at(
                old(self).source(),
                old(self).cursor(),
            ),
    {
        self.next_token();
        let mut parameters: Vec<FnParameter> = Vec::new();
        let explicit_void = match self.token {
            Token::Void => match self.peek_token {
                Token::CloseParen => true,
                _ => false,
            },
            _ => false,
        };
        match self.token {
            Token::CloseParen => {
                self.next_token();
                parameters.push(FnParameter::new(CType::Void, String::new()));
            },
            _ => {
                if explicit_void {
                    self.next_token();
                    self.next_token();
                    parameters.push(FnParameter::new(CType::Void, String::new()));
                } else {
                    let ctype = match CType::try_from(&self.token) {
                        Ok(ctype) => ctype,
                        Err(error) => {
                            return Err(error);
                        },
                    };
                    self.next_token();
                    let name = match &self.token {
                        Token::Identifier(id) => id.clone(),
                        _ => {
                            return Err(
                                ParserError::Expected("identifier", self.token.duplicate()),
                            );
                        },
                    };
                    self.next_token();
                    match self.token {
                        Token::CloseParen => {},
                        _ => {
                            return Err(
                                ParserError::Expected(
                                    "closing parenthesis",
                                    self.token.duplicate(),
                                ),
                            );
                        },
                    }
                    self.next_token();
                    parameters.push(FnParameter::new(ctype, name));
                }
            },
        }
        assert(parameter_views(parameters@) =~= seq![parameters@[0]@]);
        Ok(parameters)
    }

    /// Parses a function body: `{`, statements, `}`.
    fn parse_body(&mut self) -> (result: Result<Vec<Statement>, ParserError>)
        ensures
            final(self).source() == old(self).source(),
            (statements_result_view(result), final(self).cursor()) == body_at(
                old(self).source(),
                old(self).cursor(),
            ),
    {
        let ghost s = self.source();
        match self.token {
            Token::OpenBrace => {},
            _ => {
                return Err(ParserError::Expected("opening brace", self.token.duplicate()));
            },
        }
        self.next_token();
        let ghost c1 = self.cursor();
        let mut statements: Vec<Statement> = Vec::new();
        assert(statement_views(statements@) =~= Seq::empty());
        loop
            invariant
                self.source() == s,
                s == old(self).source(),
                old(self).cursor().token == TokenView::OpenBrace,
                c1 == shift(s, old(self).cursor()),
                statements_at(s, self.cursor(), statement_views(statements@)) == statements_at(
                    s,
                    c1,
                    Seq::empty(),
                ),
            ensures
                self.source() == s,
                self.cursor().token == TokenView::CloseBrace,
                statements_at(s, self.cursor(), statement_views(statements@)) == statements_at(
                    s,
                    c1,
                    Seq::empty(),
                ),
            decreases remaining(s, self.cursor()),
        {
            match self.token {
                Token::CloseBrace => {
                    break ;
                },
                _ => {},
            }
            let ghost before = statement_views(statements@);
            proof {
                lemma_statement_consumes(s, self.cursor());
            }
            match self.parse_statement() {
                Ok(statement) => {
                    statements.push(statement);
                    assert(statement_views(statements@) =~= before.push(statement@));
                },
                Err(error) => {
                    return Err(error);
                },
            }
        }
        self.next_token();
        Ok(statements)
    }

    /// Parses the rest of a variable declaration: nothing at `;`, an
    /// initializer behind `=`.
    fn parse_variable_declaration(&mut self, ctype: CType, name: String) -> (result: Result<
        Declaration,
        ParserError,
    >)
        ensures
            final(self).source() == old(self).source(),
            (result_view(result), final(self).cursor()) == variable_declaration_at(
                old(self).source(),
                old(self).cursor(),
                ctype,
                name@,
            ),
    {
        match self.token {
            Token::Semicolon => {
                self.next_token();
                Ok(Declaration::Variable(VariableDeclaration::new(ctype, name, None)))
            },
            Token::Assignment => {
                self.next_token();
                match self.parse_expression(Precedence::Lowest) {
                    Ok(value) => {
                        self.skip_semicolon();
                        Ok(Declaration::Variable(VariableDeclaration::new(ctype, name, Some(value))))
                    },
                    Err(error) => Err(error),
                }
            },
            _ => Err(ParserError::Expected("assignment | semicolon", self.token.duplicate())),
        }
    }

    /// Moves the window past a `;`, if it stands at one.
    fn skip_semicolon(&mut self)
        ensures
            final(self).source() == old(self).source(),
            final(self).cursor() == past_semicolon(old(self).source(), old(self).cursor()),
    {
        match self.token {
            Token::Semicolon => {
                self.next_token();
            },
            _ => {},
        }
    }

    /// Whether the current token ends an expression.
    fn at_terminator(&self) -> (b: bool)
        ensures
            b == is_terminator(self.cursor().token),
    {
        match self.token {
            Token::Semicolon | Token::CloseParen | Token::CloseBrace => true,
            _ => false,
        }
    }

    /// Parses an expression whose operators all bind tighter than `precedence`.
    fn parse_expression(&mut self, precedence: Precedence) -> (result: Result<
        Expression,
        ParserError,
    >)
        ensures
            final(self).source() == old(self).source(),
            (result_view(result), final(self).cursor()) == expression_at(
                old(self).source(),
                old(self).cursor(),
                precedence,
            ),
        decreases old(self).fuel(), 3nat,
    {
        let ghost s = self.source();
        let ghost c0 = self.cursor();
        proof {
            lemma_prefix_consumes(s, c0);
        }
        let mut left = match self.parse_prefix_expression() {
            Ok(left) => left,
            Err(error) => {
                return Err(error);
            },
        };
        let ghost c1 = self.cursor();
        let ghost first = left@;
        while !self.at_terminator() && precedence.level() < Precedence::from(&self.token).level()
            invariant
                self.source() == s,
                s == old(self).source(),
                c0 == old(self).cursor(),
                prefix_at(s, c0) == (Ok::<ast::ExpressionView, ParserErrorView>(first), c1),
                remaining(s, c1) <= remaining(s, c0),
                remaining(s, self.cursor()) <= remaining(s, c0),
                chain_at(s, self.cursor(), left@, precedence) == chain_at(
                    s,
                    c1,
                    first,
                    precedence,
                ),
            decreases remaining(s, self.cursor()),
        {
            proof {
                lemma_infix_consumes(s, self.cursor(), left@);
            }
            match self.parse_infix_expression(left) {
                Ok(folded) => {
                    left = folded;
                },
                Err(error) => {
                    return Err(error);
                },
            }
        }
        Ok(left)
    }

    /// Parses a leading term: a literal, a name, a prefix operator with its
    /// operand, or an expression in parentheses.
    fn parse_prefix_expression(&mut self) -> (result: Result<Expression, ParserError>)
        ensures
            final(self).source() == old(self).source(),
            (result_view(result), final(self).cursor()) == prefix_at(
                old(self).source(),
                old(self).cursor(),
            ),
        decreases old(self).fuel(), 0nat,
    {
        let ghost s = self.source();
        let ghost c0 = self.cursor();
        match &self.token {
            Token::IntegerLiteral(value) => {
                let value = *value;
                self.next_token();
                Ok(Expression::IntegerLiteral(value))
            },
            Token::Identifier(name) => {
                let name = name.clone();
                self.next_token();
                Ok(Expression::Identifier(name))
            },
            Token::Plus => {
                proof {
                    lemma_shift_decreases(s, c0);
                }
                self.next_token();
                match self.parse_expression(Precedence::Unary) {
                    Ok(operand) => Ok(Expression::Unary(Box::new(Unary::Positive(operand)))),
                    Err(error) => Err(error),
                }
            },
            Token::Minus => {
                proof {
                    lemma_shift_decreases(s, c0);
                }
                self.next_token();
                match self.parse_expression(Precedence::Unary) {
                    Ok(operand) => Ok(Expression::Unary(Box::new(Unary::Negative(operand)))),
                    Err(error) => Err(error),
                }
            },
            Token::OpenParen => {
                proof {
                    lemma_shift_decreases(s, c0);
                }
                self.next_token();
                match self.parse_expression(Precedence::Lowest) {
                    Ok(inner) => {
                        match self.token {
                            Token::CloseParen => {
                                self.next_token();
                                Ok(inner)
                            },
                            _ => Err(
                                ParserError::Expected(
                                    "closing parenthesis",
                                    self.token.duplicate(),
                                ),
                            ),
                        }
                    },
                    Err(error) => Err(error),
                }
            },
            _ => Err(ParserError::Expected("expression", self.token.duplicate())),
        }
    }

    /// Parses an infix operator and its right operand, and folds them with `left`.
    fn parse_infix_expression(&mut self, left: Expression) -> (result: Result<
        Expression,
        ParserError,
    >)
        ensures
            final(self).source() == old(self).source(),
            (result_view(result), final(self).cursor()) == infix_at(
                old(self).source(),
                old(self).cursor(),
                left@,
            ),
        decreases old(self).fuel(), 1nat,
    {
        let ghost s = self.source();
        let ghost c0 = self.cursor();
        let operator = self.token.duplicate();
        match operator {
            Token::Plus
            | Token::Minus
            | Token::Asterix
            | Token::Slash
            | Token::Equal
            | Token::Assignment => {},
            _ => {
                return Err(ParserError::Expected("binary operator", operator));
            },
        }
        let floor = if Precedence::is_right_associative(&operator) {
            Precedence::Lowest
        } else {
            Precedence::from(&operator)
        };
        proof {
            lemma_shift_decreases(s, c0);
        }
        self.next_token();
        let right = match self.parse_expression(floor) {
            Ok(right) => right,
            Err(error) => {
                return Err(error);
            },
        };
        let node = match operator {
            Token::Plus => BinaryOp::Add(left, right),
            Token::Minus => BinaryOp::Subtract(left, right),
            Token::Asterix => BinaryOp::Multiply(left, right),
            Token::Slash => BinaryOp::Divide(left, right),
            Token::Equal => BinaryOp::Equals(left, right),
            _ => BinaryOp::Assign(left, right),
        };
        Ok(Expression::BinaryOp(Box::new(node)))
    }

    /// Parses one statement. Only `return` is supported.
    fn parse_statement(&mut self) -> (result: Result<Statement, ParserError>)
        ensures
            final(self).source() == old(self).source(),
            (result_view(result), final(self).cursor()) == statement_at(
                old(self).source(),
                old(self).cursor(),
            ),
    {
        match self.token {
            Token::Return => self.parse_return_statement(),
            Token::Int | Token::Void => Err(
                ParserError::Other("local variable declarations are not supported"),
            ),
            _ => Err(ParserError::Other("unsupported statement")),
        }
    }

    /// Parses a `return` statement: the keyword, an expression, an optional `;`.
    fn parse_return_statement(&mut self) -> (result: Result<Statement, ParserError>)
        ensures
            final(self).source() == old(self).source(),
            (result_view(result), final(self).cursor()) == return_statement_at(
                old(self).source(),
                old(self).cursor(),
            ),
    {
        self.next_token();
        match self.parse_expression(Precedence::Lowest) {
            Ok(expression) => {
                self.skip_semicolon();
                Ok(Statement::Return(expression))
            },
            Err(error) => Err(error),
        }
    }
}

} // verus!
