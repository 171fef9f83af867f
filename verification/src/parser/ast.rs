//! The abstract syntax tree, and its mathematical model.
//!
//! Every node has a view in which names are sequences of characters; the
//! contracts of the parser are stated over these views.
use vstd::prelude::*;
use crate::parser::error::ParserError;
use crate::token::{Token, TokenView};

verus! {

/// The top node of every tree: the declarations of one source text, in source order.
#[derive(Debug, PartialEq)]
pub struct TranslationUnit {
    pub declarations: Vec<Declaration>,
}

/// The data types of the language.
#[derive(Debug, PartialEq, Eq, Clone, Copy)]
pub enum CType {
    Int,
    Void,
}

/// The type that a token names, if it is a type keyword.
pub open spec fn ctype_of(token: TokenView) -> Option<CType> {
    match token {
        TokenView::Int => Some(CType::Int),
        TokenView::Void => Some(CType::Void),
        _ => None,
    }
}

impl CType {
    /// Converts a type keyword to its type; any other token is refused.
    pub fn from_token(token: &Token) -> (result: Result<CType, ParserError>)
        ensures
            match ctype_of(token@) {
                Some(ctype) => result == Ok::<CType, ParserError>(ctype),
                None => result == Err::<CType, ParserError>(
                    ParserError::Expected("type token", *token),
                ),
            },
    {
        match token {
            Token::Int => Ok(CType::Int),
            Token::Void => Ok(CType::Void),
            _ => Err(ParserError::Expected("type token", token.duplicate())),
        }
    }
}

impl TryFrom<&Token> for CType {
    type Error = ParserError;

    /// Converts a type keyword to its type; any other token is refused.
    fn try_from(value: &Token) -> (result: Result<CType, ParserError>) {
        CType::from_token(value)
    }
}

impl vstd::std_specs::convert::TryFromSpecImpl<&Token> for CType {
    open spec fn obeys_try_from_spec() -> bool {
        true
    }

    open spec fn try_from_spec(value: &Token) -> Result<CType, ParserError> {
        match ctype_of(value@) {
            Some(ctype) => Ok(ctype),
            None => Err(ParserError::Expected("type token", *value)),
        }
    }
}

/// An expression.
#[derive(Debug, PartialEq)]
pub enum Expression {
    IntegerLiteral(u64),
    Identifier(String),
    BinaryOp(Box<BinaryOp>),
    Unary(Box<Unary>),
}

/// A prefix operator applied to its operand.
#[derive(Debug, PartialEq)]
pub enum Unary {
    Positive(Expression),
    Negative(Expression),
}

/// An infix operator applied to its left and right operands.
#[derive(Debug, PartialEq)]
pub enum BinaryOp {
    Add(Expression, Expression),
    Subtract(Expression, Expression),
    Multiply(Expression, Expression),
    Divide(Expression, Expression),
    Equals(Expression, Expression),
    NotEquals(Expression, Expression),
    Assign(Expression, Expression),
}

/// A statement of a function body.
#[derive(Debug, PartialEq)]
pub enum Statement {
    Declaration(VariableDeclaration),
    ExpressionStatement(Expression),
    Return(Expression),
}

/// A top-level declaration.
#[derive(Debug, PartialEq)]
pub enum Declaration {
    Variable(VariableDeclaration),
    Function(FunctionDeclaration),
}

/// A variable with its type and, optionally, the expression that initializes it.
#[derive(Debug, PartialEq)]
pub struct VariableDeclaration {
    pub ctype: CType,
    pub name: String,
    pub initializer: Option<Expression>,
}

/// A function with its return type, parameters and, optionally, its body.
#[derive(Debug, PartialEq)]
pub struct FunctionDeclaration {
    pub return_type: CType,
    pub name: String,
    pub parameters: Vec<FnParameter>,
    pub body: Option<Vec<Statement>>,
}

/// A function parameter. A function that takes no parameters has one entry
/// of type `Void` with an empty name.
#[derive(Debug, PartialEq)]
pub struct FnParameter {
    pub ctype: CType,
    pub name: String,
}

/// Model of an [`Expression`].
pub enum ExpressionView {
    IntegerLiteral(u64),
    Identifier(Seq<char>),
    BinaryOp(Box<BinaryOpView>),
    Unary(Box<UnaryView>),
}

/// Model of a [`Unary`].
pub enum UnaryView {
    Positive(ExpressionView),
    Negative(ExpressionView),
}

/// Model of a [`BinaryOp`].
pub enum BinaryOpView {
    Add(ExpressionView, ExpressionView),
    Subtract(ExpressionView, ExpressionView),
    Multiply(ExpressionView, ExpressionView),
    Divide(ExpressionView, ExpressionView),
    Equals(ExpressionView, ExpressionView),
    NotEquals(ExpressionView, ExpressionView),
    Assign(ExpressionView, ExpressionView),
}

/// Model of a [`VariableDeclaration`].
pub struct VariableDeclarationView {
    pub ctype: CType,
    pub name: Seq<char>,
    pub initializer: Option<ExpressionView>,
}

/// Model of a [`Statement`].
pub enum StatementView {
    Declaration(VariableDeclarationView),
    ExpressionStatement(ExpressionView),
    Return(ExpressionView),
}

/// Model of a [`FnParameter`].
pub struct FnParameterView {
    pub ctype: CType,
    pub name: Seq<char>,
}

/// Model of a [`FunctionDeclaration`].
pub struct FunctionDeclarationView {
    pub return_type: CType,
    pub name: Seq<char>,
    pub parameters: Seq<FnParameterView>,
    pub body: Option<Seq<StatementView>>,
}

/// Model of a [`Declaration`].
pub enum DeclarationView {
    Variable(VariableDeclarationView),
    Function(FunctionDeclarationView),
}

/// Model of a [`TranslationUnit`].
pub struct TranslationUnitView {
    pub declarations: Seq<DeclarationView>,
}

/// The model of an expression, node by node.
pub open spec fn expression_view(e: Expression) -> ExpressionView
    decreases e,
{
    match e {
        Expression::IntegerLiteral(value) => ExpressionView::IntegerLiteral(value),
        Expression::Identifier(name) => ExpressionView::Identifier(name@),
        Expression::BinaryOp(op) => ExpressionView::BinaryOp(Box::new(binary_op_view(*op))),
        Expression::Unary(op) => ExpressionView::Unary(Box::new(unary_view(*op))),
    }
}

/// The model of a prefix operation.
pub open spec fn unary_view(u: Unary) -> UnaryView
    decreases u,
{
    match u {
        Unary::Positive(e) => UnaryView::Positive(expression_view(e)),
        Unary::Negative(e) => UnaryView::Negative(expression_view(e)),
    }
}

/// The model of an infix operation.
pub open spec fn binary_op_view(b: BinaryOp) -> BinaryOpView
    decreases b,
{
    match b {
        BinaryOp::Add(l, r) => BinaryOpView::Add(expression_view(l), expression_view(r)),
        BinaryOp::Subtract(l, r) => BinaryOpView::Subtract(expression_view(l), expression_view(r)),
        BinaryOp::Multiply(l, r) => BinaryOpView::Multiply(expression_view(l), expression_view(r)),
        BinaryOp::Divide(l, r) => BinaryOpView::Divide(expression_view(l), expression_view(r)),
        BinaryOp::Equals(l, r) => BinaryOpView::Equals(expression_view(l), expression_view(r)),
        BinaryOp::NotEquals(l, r) => BinaryOpView::NotEquals(
            expression_view(l),
            expression_view(r),
        ),
        BinaryOp::Assign(l, r) => BinaryOpView::Assign(expression_view(l), expression_view(r)),
    }
}

impl View for Expression {
    type V = ExpressionView;

    open spec fn view(&self) -> ExpressionView {
        expression_view(*self)
    }
}

impl View for Unary {
    type V = UnaryView;

    open spec fn view(&self) -> UnaryView {
        unary_view(*self)
    }
}

impl View for BinaryOp {
    type V = BinaryOpView;

    open spec fn view(&self) -> BinaryOpView {
        binary_op_view(*self)
    }
}

impl View for VariableDeclaration {
    type V = VariableDeclarationView;

    open spec fn view(&self) -> VariableDeclarationView {
        VariableDeclarationView {
            ctype: self.ctype,
            name: self.name@,
            initializer: match self.initializer {
                Some(e) => Some(e@),
                None => None,
            },
        }
    }
}

impl View for Statement {
    type V = StatementView;

    open spec fn view(&self) -> StatementView {
        match self {
            Statement::Declaration(d) => StatementView::Declaration(d@),
            Statement::ExpressionStatement(e) => StatementView::ExpressionStatement(e@),
            Statement::Return(e) => StatementView::Return(e@),
        }
    }
}

impl View for FnParameter {
    type V = FnParameterView;

    open spec fn view(&self) -> FnParameterView {
        FnParameterView { ctype: self.ctype, name: self.name@ }
    }
}

/// The models of a list of statements, in order.
pub open spec fn statement_views(statements: Seq<Statement>) -> Seq<StatementView> {
    statements.map_values(|s: Statement| s@)
}

/// The models of a list of parameters, in order.
pub open spec fn parameter_views(parameters: Seq<FnParameter>) -> Seq<FnParameterView> {
    parameters.map_values(|p: FnParameter| p@)
}

/// The models of a list of declarations, in order.
pub open spec fn declaration_views(declarations: Seq<Declaration>) -> Seq<DeclarationView> {
    declarations.map_values(|d: Declaration| d@)
}

impl View for FunctionDeclaration {
    type V = FunctionDeclarationView;

    open spec fn view(&self) -> FunctionDeclarationView {
        FunctionDeclarationView {
            return_type: self.return_type,
            name: self.name@,
            parameters: parameter_views(self.parameters@),
            body: match self.body {
                Some(statements) => Some(statement_views(statements@)),
                None => None,
            },
        }
    }
}

impl View for Declaration {
    type V = DeclarationView;

    open spec fn view(&self) -> DeclarationView {
        match self {
            Declaration::Variable(v) => DeclarationView::Variable(v@),
            Declaration::Function(f) => DeclarationView::Function(f@),
        }
    }
}

impl View for TranslationUnit {
    type V = TranslationUnitView;

    open spec fn view(&self) -> TranslationUnitView {
        TranslationUnitView { declarations: declaration_views(self.declarations@) }
    }
}

impl VariableDeclaration {
    /// A variable declaration with the given parts.
    pub fn new(ctype: CType, name: String, initializer: Option<Expression>) -> (d: Self)
        ensures
            d.ctype == ctype,
            d.name == name,
            d.initializer == initializer,
    {
        Self { ctype, name, initializer }
    }
}

impl FunctionDeclaration {
    /// A function declaration with the given parts.
    pub fn new(
        return_type: CType,
        name: String,
        parameters: Vec<FnParameter>,
        body: Option<Vec<Statement>>,
    ) -> (d: Self)
        ensures
            d.return_type == return_type,
            d.name == name,
            d.parameters == parameters,
            d.body == body,
    {
        Self { return_type, name, parameters, body }
    }
}

impl FnParameter {
    /// A parameter with the given type and name.
    pub fn new(ctype: CType, name: String) -> (p: Self)
        ensures
            p.ctype == ctype,
            p.name == name,
    {
        Self { ctype, name }
    }
}

} // verus!
