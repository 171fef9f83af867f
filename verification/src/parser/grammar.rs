//! The grammar as mathematics: what each parsing step yields, as a function
//! of the source text and of the state of the token window.
use vstd::prelude::*;
use crate::lexer::{lemma_next_token_advances, next_token_at};
use crate::parser::ast::{
    ctype_of, BinaryOpView, CType, DeclarationView, ExpressionView, FnParameterView,
    FunctionDeclarationView, StatementView, TranslationUnitView, UnaryView,
    VariableDeclarationView,
};
use crate::parser::error::ParserErrorView;
use crate::parser::precedence::{precedence_of, Precedence};
use crate::token::TokenView;

verus! {

/// State of the two-token window over a source text: the current token, the
/// one behind it, and the position in the text from which the token after
/// those will be read.
pub struct Cursor {
    pub token: TokenView,
    pub peek: TokenView,
    pub pos: int,
}

/// The window over the first two tokens at or after position `i` of `s`.
pub open spec fn window_at(s: Seq<char>, i: int) -> Cursor {
    let first = next_token_at(s, i);
    let second = next_token_at(s, first.1);
    Cursor { token: first.0, peek: second.0, pos: second.1 }
}

/// The window at the start of `s`.
pub open spec fn start(s: Seq<char>) -> Cursor {
    window_at(s, 0)
}

/// The window moved forward by one token.
pub open spec fn shift(s: Seq<char>, c: Cursor) -> Cursor {
    let next = next_token_at(s, c.pos);
    Cursor { token: c.peek, peek: next.0, pos: next.1 }
}

/// An upper bound on the tokens still ahead: the unread characters, plus one
/// for each token of the window that is not `EOF`.
pub open spec fn remaining(s: Seq<char>, c: Cursor) -> nat {
    let unread: nat = if 0 <= c.pos < s.len() {
        (s.len() - c.pos) as nat
    } else {
        0
    };
    let current: nat = if c.token == TokenView::EOF {
        0
    } else {
        1
    };
    let ahead: nat = if c.peek == TokenView::EOF {
        0
    } else {
        1
    };
    unread + current + ahead
}

/// Moving the window past a token other than `EOF` brings the end nearer.
pub proof fn lemma_shift_decreases(s: Seq<char>, c: Cursor)
    requires
        c.token != TokenView::EOF,
    ensures
        remaining(s, shift(s, c)) < remaining(s, c),
{
    lemma_next_token_advances(s, c.pos);
}

/// A step of the parser: what was parsed, or the error, and the window afterwards.
pub type Step<T> = (Result<T, ParserErrorView>, Cursor);

/// Whether `token` ends an expression: `;`, `)` or `}`.
pub open spec fn is_terminator(token: TokenView) -> bool {
    token == TokenView::Semicolon || token == TokenView::CloseParen || token
        == TokenView::CloseBrace
}

/// Whether `token` is an infix operator.
pub open spec fn is_binary_operator(token: TokenView) -> bool {
    token == TokenView::Plus || token == TokenView::Minus || token == TokenView::Asterix || token
        == TokenView::Slash || token == TokenView::Equal || token == TokenView::Assignment
}

/// The node that the infix operator `operator` builds from its operands.
pub open spec fn binary_node(
    operator: TokenView,
    left: ExpressionView,
    right: ExpressionView,
) -> ExpressionView {
    ExpressionView::BinaryOp(
        Box::new(
            match operator {
                TokenView::Plus => BinaryOpView::Add(left, right),
                TokenView::Minus => BinaryOpView::Subtract(left, right),
                TokenView::Asterix => BinaryOpView::Multiply(left, right),
                TokenView::Slash => BinaryOpView::Divide(left, right),
                TokenView::Equal => BinaryOpView::Equals(left, right),
                _ => BinaryOpView::Assign(left, right),
            },
        ),
    )
}

/// The precedence above which the right operand of `operator` is parsed.
/// Assignment groups from the right, so its right operand may itself be an
/// assignment; every other operator groups from the left.
pub open spec fn right_operand_floor(operator: TokenView) -> Precedence {
    if operator == TokenView::Assignment {
        Precedence::Lowest
    } else {
        precedence_of(operator)
    }
}

/// The window behind an optional `;`.
pub open spec fn past_semicolon(s: Seq<char>, c: Cursor) -> Cursor {
    if c.token == TokenView::Semicolon {
        shift(s, c)
    } else {
        c
    }
}

/// A leading term: a literal, a name, a prefix `+` or `-` with its operand,
/// or an expression in parentheses.
pub open spec fn prefix_at(s: Seq<char>, c: Cursor) -> Step<ExpressionView>
    decreases remaining(s, c), 0nat,
{
    match c.token {
        TokenView::IntegerLiteral(value) => (Ok(ExpressionView::IntegerLiteral(value)), shift(s, c)),
        TokenView::Identifier(name) => (Ok(ExpressionView::Identifier(name)), shift(s, c)),
        TokenView::Plus => {
            proof {
                lemma_shift_decreases(s, c);
            }
            let (operand, after) = expression_at(s, shift(s, c), Precedence::Unary);
            match operand {
                Ok(e) => (Ok(ExpressionView::Unary(Box::new(UnaryView::Positive(e)))), after),
                Err(error) => (Err(error), after),
            }
        },
        TokenView::Minus => {
            proof {
                lemma_shift_decreases(s, c);
            }
            let (operand, after) = expression_at(s, shift(s, c), Precedence::Unary);
            match operand {
                Ok(e) => (Ok(ExpressionView::Unary(Box::new(UnaryView::Negative(e)))), after),
                Err(error) => (Err(error), after),
            }
        },
        TokenView::OpenParen => {
            proof {
                lemma_shift_decreases(s, c);
            }
            let (inner, after) = expression_at(s, shift(s, c), Precedence::Lowest);
            match inner {
                Ok(e) => if after.token == TokenView::CloseParen {
                    (Ok(e), shift(s, after))
                } else {
                    (
                        Err(ParserErrorView::Expected("closing parenthesis"@, after.token)),
                        after,
                    )
                },
                Err(error) => (Err(error), after),
            }
        },
        _ => (Err(ParserErrorView::Expected("expression"@, c.token)), c),
    }
}

/// An infix operator at the window, with `left` already parsed: the right
/// operand is everything that binds tighter than the operator.
pub open spec fn infix_at(s: Seq<char>, c: Cursor, left: ExpressionView) -> Step<ExpressionView>
    decreases remaining(s, c), 1nat,
{
    if is_binary_operator(c.token) {
        proof {
            lemma_shift_decreases(s, c);
        }
        let (right, after) = expression_at(s, shift(s, c), right_operand_floor(c.token));
        match right {
            Ok(r) => (Ok(binary_node(c.token, left, r)), after),
            Err(error) => (Err(error), after),
        }
    } else {
        (Err(ParserErrorView::Expected("binary operator"@, c.token)), c)
    }
}

/// Whether an operator chain above `min` goes on at `token`.
pub open spec fn continues(token: TokenView, min: Precedence) -> bool {
    !is_terminator(token) && min.rank() < precedence_of(token).rank()
}

/// The operator chain behind `left`: as long as the current token is an
/// operator that binds tighter than `min`, it is folded into the left operand.
/// Each fold consumes its operator ([`lemma_infix_consumes`]), so the test
/// on what remains always holds.
pub open spec fn chain_at(
    s: Seq<char>,
    c: Cursor,
    left: ExpressionView,
    min: Precedence,
) -> Step<ExpressionView>
    decreases remaining(s, c), 2nat,
{
    if continues(c.token, min) {
        let (folded, after) = infix_at(s, c, left);
        match folded {
            Ok(e) => if remaining(s, after) < remaining(s, c) {
                chain_at(s, after, e, min)
            } else {
                (Ok(e), after)
            },
            Err(error) => (Err(error), after),
        }
    } else {
        (Ok(left), c)
    }
}

/// An expression whose operators all bind tighter than `min`: a leading
/// term and the operator chain behind it. A terminating `;` is left in place.
pub open spec fn expression_at(s: Seq<char>, c: Cursor, min: Precedence) -> Step<ExpressionView>
    decreases remaining(s, c), 3nat,
{
    let (term, after) = prefix_at(s, c);
    match term {
        Ok(left) => if remaining(s, after) <= remaining(s, c) {
            chain_at(s, after, left, min)
        } else {
            (Ok(left), after)
        },
        Err(error) => (Err(error), after),
    }
}

/// No step of the expression grammar moves the window backwards, and a
/// successful one moves it forwards.
pub proof fn lemma_prefix_consumes(s: Seq<char>, c: Cursor)
    ensures
        remaining(s, prefix_at(s, c).1) <= remaining(s, c),
        prefix_at(s, c).0 is Ok ==> remaining(s, prefix_at(s, c).1) < remaining(s, c),
    decreases remaining(s, c), 0nat,
{
    match c.token {
        TokenView::IntegerLiteral(_) | TokenView::Identifier(_) => {
            lemma_shift_decreases(s, c);
        },
        TokenView::Plus | TokenView::Minus => {
            lemma_shift_decreases(s, c);
            lemma_expression_consumes(s, shift(s, c), Precedence::Unary);
        },
        TokenView::OpenParen => {
            lemma_shift_decreases(s, c);
            lemma_expression_consumes(s, shift(s, c), Precedence::Lowest);
            let (inner, after) = expression_at(s, shift(s, c), Precedence::Lowest);
            if inner is Ok && after.token == TokenView::CloseParen {
                lemma_shift_decreases(s, after);
            }
        },
        _ => {},
    }
}

/// An infix step never moves the window backwards, and consumes its operator.
pub proof fn lemma_infix_consumes(s: Seq<char>, c: Cursor, left: ExpressionView)
    ensures
        remaining(s, infix_at(s, c, left).1) <= remaining(s, c),
        infix_at(s, c, left).0 is Ok ==> remaining(s, infix_at(s, c, left).1) < remaining(s, c),
    decreases remaining(s, c), 1nat,
{
    if is_binary_operator(c.token) {
        lemma_shift_decreases(s, c);
        lemma_expression_consumes(s, shift(s, c), right_operand_floor(c.token));
    }
}

/// An operator chain never moves the window backwards.
pub proof fn lemma_chain_consumes(s: Seq<char>, c: Cursor, left: ExpressionView, min: Precedence)
    ensures
        remaining(s, chain_at(s, c, left, min).1) <= remaining(s, c),
    decreases remaining(s, c), 2nat,
{
    if continues(c.token, min) {
        lemma_infix_consumes(s, c, left);
        let (folded, after) = infix_at(s, c, left);
        match folded {
            Ok(e) => {
                lemma_chain_consumes(s, after, e, min);
            },
            Err(_) => {},
        }
    }
}

/// An expression never moves the window backwards, and a successful one
/// moves it forwards.
pub proof fn lemma_expression_consumes(s: Seq<char>, c: Cursor, min: Precedence)
    ensures
        remaining(s, expression_at(s, c, min).1) <= remaining(s, c),
        expression_at(s, c, min).0 is Ok ==> remaining(s, expression_at(s, c, min).1) < remaining(
            s,
            c,
        ),
    decreases remaining(s, c), 3nat,
{
    lemma_prefix_consumes(s, c);
    let (term, after) = prefix_at(s, c);
    match term {
        Ok(left) => {
            lemma_chain_consumes(s, after, left, min);
        },
        Err(_) => {},
    }
}

/// The messages of the errors for constructs that the grammar does not support.
pub open spec fn local_declaration_message() -> Seq<char> {
    "local variable declarations are not supported"@
}

pub open spec fn unsupported_statement_message() -> Seq<char> {
    "unsupported statement"@
}

/// A `return` statement at the window: the keyword, an expression, and an optional `;`.
pub open spec fn return_statement_at(s: Seq<char>, c: Cursor) -> Step<StatementView> {
    let (value, after) = expression_at(s, shift(s, c), Precedence::Lowest);
    match value {
        Ok(e) => (Ok(StatementView::Return(e)), past_semicolon(s, after)),
        Err(error) => (Err(error), after),
    }
}

/// A statement at the window. Only `return` is a statement of the grammar;
/// a local declaration, and anything else, is refused.
pub open spec fn statement_at(s: Seq<char>, c: Cursor) -> Step<StatementView> {
    match c.token {
        TokenView::Return => return_statement_at(s, c),
        TokenView::Int | TokenView::Void => (
            Err(ParserErrorView::Other(local_declaration_message())),
            c,
        ),
        _ => (Err(ParserErrorView::Other(unsupported_statement_message())), c),
    }
}

/// The statements of a body up to its closing `}`, behind those in `done`.
/// A statement always consumes a token ([`lemma_statement_consumes`]), so
/// the test on what remains always holds.
pub open spec fn statements_at(s: Seq<char>, c: Cursor, done: Seq<StatementView>) -> Step<
    Seq<StatementView>,
>
    decreases remaining(s, c),
{
    if c.token == TokenView::CloseBrace {
        (Ok(done), shift(s, c))
    } else {
        let (statement, after) = statement_at(s, c);
        match statement {
            Ok(x) => if remaining(s, after) < remaining(s, c) {
                statements_at(s, after, done.push(x))
            } else {
                (Ok(done.push(x)), after)
            },
            Err(error) => (Err(error), after),
        }
    }
}

/// A function body at the window: `{`, statements, `}`.
pub open spec fn body_at(s: Seq<char>, c: Cursor) -> Step<Seq<StatementView>> {
    if c.token == TokenView::OpenBrace {
        statements_at(s, shift(s, c), Seq::empty())
    } else {
        (Err(ParserErrorView::Expected("opening brace"@, c.token)), c)
    }
}

/// The entry that stands for an empty parameter list: type `Void`, no name.
pub open spec fn placeholder_parameter() -> FnParameterView {
    FnParameterView { ctype: CType::Void, name: Seq::empty() }
}

/// A parameter list at the window, which stands at `(`. The lists `()`
/// and `(void)` declare no parameter and yield the placeholder alone; a
/// list of one type and one name yields that parameter. Anything else is
/// refused, a list of several parameters too.
pub open spec fn parameters_at(s: Seq<char>, c: Cursor) -> Step<Seq<FnParameterView>> {
    let first = shift(s, c);
    if first.token == TokenView::CloseParen {
        (Ok(seq![placeholder_parameter()]), shift(s, first))
    } else if first.token == TokenView::Void && first.peek == TokenView::CloseParen {
        (Ok(seq![placeholder_parameter()]), shift(s, shift(s, first)))
    } else {
        match ctype_of(first.token) {
            Some(ctype) => {
                let named = shift(s, first);
                match named.token {
                    TokenView::Identifier(name) => {
                        let end = shift(s, named);
                        if end.token == TokenView::CloseParen {
                            (
                                Ok(seq![FnParameterView { ctype: ctype, name: name }]),
                                shift(s, end),
                            )
                        } else {
                            (
                                Err(ParserErrorView::Expected("closing parenthesis"@, end.token)),
                                end,
                            )
                        }
                    },
                    _ => (Err(ParserErrorView::Expected("identifier"@, named.token)), named),
                }
            },
            None => (Err(ParserErrorView::Expected("type token"@, first.token)), first),
        }
    }
}

/// The rest of a function declaration, from its `(` on.
pub open spec fn function_declaration_at(
    s: Seq<char>,
    c: Cursor,
    ctype: CType,
    name: Seq<char>,
) -> Step<DeclarationView> {
    let (parameters, after) = parameters_at(s, c);
    match parameters {
        Ok(list) => {
            let (body, end) = body_at(s, after);
            match body {
                Ok(statements) => (
                    Ok(
                        DeclarationView::Function(
                            FunctionDeclarationView {
                                return_type: ctype,
                                name: name,
                                parameters: list,
                                body: Some(statements),
                            },
                        ),
                    ),
                    end,
                ),
                Err(error) => (Err(error), end),
            }
        },
        Err(error) => (Err(error), after),
    }
}

/// The rest of a variable declaration, from the token behind its name on.
/// At `;` there is no initializer, and the `;` ends the declaration; at
/// `=` the initializer follows, and an optional `;` behind it is consumed.
pub open spec fn variable_declaration_at(
    s: Seq<char>,
    c: Cursor,
    ctype: CType,
    name: Seq<char>,
) -> Step<DeclarationView> {
    match c.token {
        TokenView::Semicolon => (
            Ok(
                DeclarationView::Variable(
                    VariableDeclarationView { ctype: ctype, name: name, initializer: None },
                ),
            ),
            shift(s, c),
        ),
        TokenView::Assignment => {
            let (value, after) = expression_at(s, shift(s, c), Precedence::Lowest);
            match value {
                Ok(e) => (
                    Ok(
                        DeclarationView::Variable(
                            VariableDeclarationView {
                                ctype: ctype,
                                name: name,
                                initializer: Some(e),
                            },
                        ),
                    ),
                    past_semicolon(s, after),
                ),
                Err(error) => (Err(error), after),
            }
        },
        _ => (Err(ParserErrorView::Expected("assignment | semicolon"@, c.token)), c),
    }
}

/// A declaration at the window: a type keyword, a name, and then either a
/// variable's or a function's rest.
pub open spec fn declaration_at(s: Seq<char>, c: Cursor) -> Step<DeclarationView> {
    match ctype_of(c.token) {
        Some(ctype) => {
            let named = shift(s, c);
            match named.token {
                TokenView::Identifier(name) => {
                    let rest = shift(s, named);
                    match rest.token {
                        TokenView::Assignment | TokenView::Semicolon => variable_declaration_at(
                            s,
                            rest,
                            ctype,
                            name,
                        ),
                        TokenView::OpenParen => function_declaration_at(s, rest, ctype, name),
                        _ => (Err(ParserErrorView::Expected("declaration"@, rest.token)), rest),
                    }
                },
                _ => (Err(ParserErrorView::Expected("identifier"@, named.token)), named),
            }
        },
        None => (Err(ParserErrorView::Expected("type token"@, c.token)), c),
    }
}

/// The declarations up to the end of input, behind those in `done`. A
/// declaration always consumes a token ([`lemma_declaration_consumes`]), so
/// the test on what remains always holds.
pub open spec fn declarations_at(s: Seq<char>, c: Cursor, done: Seq<DeclarationView>) -> Step<
    Seq<DeclarationView>,
>
    decreases remaining(s, c),
{
    if c.token == TokenView::EOF {
        (Ok(done), c)
    } else {
        let (declaration, after) = declaration_at(s, c);
        match declaration {
            Ok(x) => if remaining(s, after) < remaining(s, c) {
                declarations_at(s, after, done.push(x))
            } else {
                (Ok(done.push(x)), after)
            },
            Err(error) => (Err(error), after),
        }
    }
}

/// The tree of everything from the window to the end of input, or the
/// first syntactic error there.
pub open spec fn translation_unit_at(s: Seq<char>, c: Cursor) -> Step<TranslationUnitView> {
    let (all, after) = declarations_at(s, c, Seq::empty());
    match all {
        Ok(declarations) => (Ok(TranslationUnitView { declarations: declarations }), after),
        Err(error) => (Err(error), after),
    }
}

/// The tree of the source text `s`, or the first syntactic error in it.
pub open spec fn parse_source(s: Seq<char>) -> Result<TranslationUnitView, ParserErrorView> {
    translation_unit_at(s, start(s)).0
}

/// Passing over an optional `;` never moves the window backwards.
pub proof fn lemma_past_semicolon(s: Seq<char>, c: Cursor)
    ensures
        remaining(s, past_semicolon(s, c)) <= remaining(s, c),
{
    if c.token == TokenView::Semicolon {
        lemma_shift_decreases(s, c);
    }
}

/// A statement never moves the window backwards, and a successful one moves it forwards.
pub proof fn lemma_statement_consumes(s: Seq<char>, c: Cursor)
    ensures
        remaining(s, statement_at(s, c).1) <= remaining(s, c),
        statement_at(s, c).0 is Ok ==> remaining(s, statement_at(s, c).1) < remaining(s, c),
{
    if c.token == TokenView::Return {
        lemma_shift_decreases(s, c);
        lemma_expression_consumes(s, shift(s, c), Precedence::Lowest);
        lemma_past_semicolon(s, expression_at(s, shift(s, c), Precedence::Lowest).1);
    }
}

/// Reading the statements of a body never moves the window backwards.
pub proof fn lemma_statements_consume(s: Seq<char>, c: Cursor, done: Seq<StatementView>)
    ensures
        remaining(s, statements_at(s, c, done).1) <= remaining(s, c),
    decreases remaining(s, c),
{
    if c.token == TokenView::CloseBrace {
        lemma_shift_decreases(s, c);
    } else {
        lemma_statement_consumes(s, c);
        let (statement, after) = statement_at(s, c);
        match statement {
            Ok(x) => {
                lemma_statements_consume(s, after, done.push(x));
            },
            Err(_) => {},
        }
    }
}

/// A parameter list never moves the window backwards.
pub proof fn lemma_parameters_consume(s: Seq<char>, c: Cursor)
    requires
        c.token == TokenView::OpenParen,
    ensures
        remaining(s, parameters_at(s, c).1) <= remaining(s, c),
{
    lemma_shift_decreases(s, c);
    let first = shift(s, c);
    if first.token != TokenView::EOF {
        lemma_shift_decreases(s, first);
        let named = shift(s, first);
        if named.token != TokenView::EOF {
            lemma_shift_decreases(s, named);
            let end = shift(s, named);
            if end.token != TokenView::EOF {
                lemma_shift_decreases(s, end);
            }
        }
    }
}

/// A declaration never moves the window backwards, and a successful one
/// moves it forwards.
pub proof fn lemma_declaration_consumes(s: Seq<char>, c: Cursor)
    ensures
        remaining(s, declaration_at(s, c).1) <= remaining(s, c),
        declaration_at(s, c).0 is Ok ==> remaining(s, declaration_at(s, c).1) < remaining(s, c),
{
    if ctype_of(c.token) is Some {
        lemma_shift_decreases(s, c);
        let named = shift(s, c);
        if named.token is Identifier {
            lemma_shift_decreases(s, named);
            let rest = shift(s, named);
            if rest.token == TokenView::Semicolon {
                lemma_shift_decreases(s, rest);
            } else if rest.token == TokenView::Assignment {
                lemma_shift_decreases(s, rest);
                lemma_expression_consumes(s, shift(s, rest), Precedence::Lowest);
                lemma_past_semicolon(s, expression_at(s, shift(s, rest), Precedence::Lowest).1);
            } else if rest.token == TokenView::OpenParen {
                lemma_shift_decreases(s, rest);
                lemma_parameters_consume(s, rest);
                let (parameters, after) = parameters_at(s, rest);
                if parameters is Ok && after.token == TokenView::OpenBrace {
                    lemma_shift_decreases(s, after);
                    lemma_statements_consume(s, shift(s, after), Seq::empty());
                }
            }
        }
    }
}

/// How an operator chain goes on: the tests on what remains, which the
/// definitions carry for their termination, never fail.
pub proof fn theorem_chain_unfolds(s: Seq<char>, c: Cursor, left: ExpressionView, min: Precedence)
    ensures
        chain_at(s, c, left, min) == if continues(c.token, min) {
            match infix_at(s, c, left).0 {
                Ok(e) => chain_at(s, infix_at(s, c, left).1, e, min),
                Err(error) => (Err(error), infix_at(s, c, left).1),
            }
        } else {
            (Ok(left), c)
        },
{
    lemma_infix_consumes(s, c, left);
}

/// An expression is its leading term and the operator chain behind it.
pub proof fn theorem_expression_unfolds(s: Seq<char>, c: Cursor, min: Precedence)
    ensures
        expression_at(s, c, min) == match prefix_at(s, c).0 {
            Ok(left) => chain_at(s, prefix_at(s, c).1, left, min),
            Err(error) => (Err(error), prefix_at(s, c).1),
        },
{
    lemma_prefix_consumes(s, c);
}

/// The statements of a body are read one behind the other up to the `}`.
pub proof fn theorem_statements_unfold(s: Seq<char>, c: Cursor, done: Seq<StatementView>)
    ensures
        statements_at(s, c, done) == if c.token == TokenView::CloseBrace {
            (Ok(done), shift(s, c))
        } else {
            match statement_at(s, c).0 {
                Ok(x) => statements_at(s, statement_at(s, c).1, done.push(x)),
                Err(error) => (Err(error), statement_at(s, c).1),
            }
        },
{
    lemma_statement_consumes(s, c);
}

/// The declarations of a text are read one behind the other up to `EOF`.
pub proof fn theorem_declarations_unfold(s: Seq<char>, c: Cursor, done: Seq<DeclarationView>)
    ensures
        declarations_at(s, c, done) == if c.token == TokenView::EOF {
            (Ok(done), c)
        } else {
            match declaration_at(s, c).0 {
                Ok(x) => declarations_at(s, declaration_at(s, c).1, done.push(x)),
                Err(error) => (Err(error), declaration_at(s, c).1),
            }
        },
{
    lemma_declaration_consumes(s, c);
}

} // verus!
