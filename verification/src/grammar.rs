//! The grammar, as functions from a token sequence and a position to the
//! tree that starts there and the number of tokens it takes.
//!
//! Expressions, from the loosest binding to the tightest: assignment (to the
//! right), `or`, `and`, equality, comparison, sum, product, prefix operator,
//! primary. Every binary level folds to the left. The first rule that fails
//! ends the parse: there is no recovery.

use crate::expr::{SpecExpr, SpecStmt};
use crate::token::{SpecLiteral, SpecToken, TokenType};
use vstd::prelude::*;

verus! {

/// The construct that the parser asked for where it stopped.
#[derive(Copy, Clone, PartialEq, Eq, Debug, Structural)]
pub enum Expected {
    /// A literal, a variable or a parenthesis, where an expression starts.
    Expression,
    /// `)` after the expression in parentheses.
    RightParenAfterExpression,
    /// A variable on the left of `=`.
    AssignmentTarget,
    /// `;` after the expression of a statement.
    SemiColonAfterValue,
    /// The name in a `var` declaration.
    VariableName,
    /// `=` and an initializer in a `var` declaration.
    Initializer,
    /// `;` after a `var` declaration.
    SemiColonAfterDeclaration,
    /// `}` after the statements of a block.
    RightBraceAfterBlock,
    /// `(` after `if`.
    LeftParenAfterIf,
    /// `)` after the condition of an `if`.
    RightParenAfterIfCondition,
    /// `(` after `while`.
    LeftParenAfterWhile,
    /// `)` after the condition of a `while`.
    RightParenAfterWhileCondition,
    /// `(` after `for`.
    LeftParenAfterFor,
    /// `;` after the condition of a `for`.
    SemiColonAfterForCondition,
    /// `)` after the clauses of a `for`.
    RightParenAfterForClauses,
}

/// A syntax error: what was asked for, and the token found in its place.
pub struct SpecSyntaxError {
    pub expected: Expected,
    pub found: SpecToken,
}

/// A failed parse: the error, and the index of the token at which the
/// parser stands when it gives up.
pub struct Failure {
    pub error: SpecSyntaxError,
    pub at: int,
}

/// Whether the token sequence ends with the end-of-input token.
pub open spec fn ends_with_eof(toks: Seq<SpecToken>) -> bool {
    toks.len() > 0 && toks.last().tok_type == TokenType::Eof
}

/// Whether no statement starts at `pos`: the token there is the
/// end-of-input token.
pub open spec fn at_end(toks: Seq<SpecToken>, pos: int) -> bool {
    !(0 <= pos < toks.len()) || toks[pos].tok_type == TokenType::Eof
}

/// Whether the token at `pos` is of category `ty`. The end-of-input token
/// matches no category.
pub open spec fn check(toks: Seq<SpecToken>, pos: int, ty: TokenType) -> bool {
    !at_end(toks, pos) && toks[pos].tok_type == ty
}

/// Whether the token at `pos` is of one of the categories `types`.
pub open spec fn check_any(toks: Seq<SpecToken>, pos: int, types: Seq<TokenType>) -> bool {
    !at_end(toks, pos) && types.contains(toks[pos].tok_type)
}

/// The number of tokens from `pos` to the end of the sequence.
pub open spec fn remaining(toks: Seq<SpecToken>, pos: int) -> nat {
    if pos < toks.len() {
        (toks.len() - pos) as nat
    } else {
        0
    }
}

/// The error of a token found where `expected` was asked for.
pub open spec fn unexpected<T>(toks: Seq<SpecToken>, pos: int, expected: Expected) -> Result<
    T,
    Failure,
> {
    Err(Failure { error: SpecSyntaxError { expected, found: toks[pos] }, at: pos })
}

/// The binary levels of the expression grammar, from the tightest binding.
pub enum Level {
    Factor,
    Term,
    Comparison,
    Equality,
    And,
    Or,
}

/// The operators of a level.
pub open spec fn operators(level: Level) -> Seq<TokenType> {
    match level {
        Level::Factor => seq![TokenType::Slash, TokenType::Star, TokenType::Modulo],
        Level::Term => seq![TokenType::Minus, TokenType::Plus],
        Level::Comparison => seq![
            TokenType::Greater,
            TokenType::GreaterEqual,
            TokenType::Less,
            TokenType::LessEqual,
        ],
        Level::Equality => seq![TokenType::EqualEqual, TokenType::BangEqual],
        Level::And => seq![TokenType::And],
        Level::Or => seq![TokenType::Or],
    }
}

/// The rank of a level: 1 for the tightest.
pub open spec fn rank(level: Level) -> nat {
    match level {
        Level::Factor => 1,
        Level::Term => 2,
        Level::Comparison => 3,
        Level::Equality => 4,
        Level::And => 5,
        Level::Or => 6,
    }
}

/// The node of an operator of the level between two operands: a logical
/// expression for `and` and `or`, a binary one for the others.
pub open spec fn join(level: Level, left: SpecExpr, op: SpecToken, right: SpecExpr) -> SpecExpr {
    match level {
        Level::And | Level::Or => SpecExpr::Logical(Box::new(left), op, Box::new(right)),
        _ => SpecExpr::Binary(Box::new(left), op, Box::new(right)),
    }
}

/// A parse with `count` more tokens taken before it.
pub open spec fn after<T>(count: nat, parsed: Result<(T, nat), Failure>) -> Result<
    (T, nat),
    Failure,
> {
    match parsed {
        Ok((node, taken)) => Ok((node, count + taken)),
        Err(error) => Err(error),
    }
}

/// A primary expression at `pos`: a literal, a variable, or an expression
/// in parentheses.
pub open spec fn parse_primary(toks: Seq<SpecToken>, pos: int) -> Result<
    (SpecExpr, nat),
    Failure,
>
    decreases remaining(toks, pos), 0nat,
{
    if check(toks, pos, TokenType::False) {
        Ok((SpecExpr::Literal(SpecLiteral::False), 1))
    } else if check(toks, pos, TokenType::True) {
        Ok((SpecExpr::Literal(SpecLiteral::True), 1))
    } else if check(toks, pos, TokenType::Nil) {
        Ok((SpecExpr::Literal(SpecLiteral::Nil), 1))
    } else if check_any(toks, pos, seq![TokenType::Number, TokenType::String]) {
        Ok((SpecExpr::Literal(toks[pos].literal), 1))
    } else if check(toks, pos, TokenType::Identifier) {
        Ok((SpecExpr::Identifier(toks[pos]), 1))
    } else if check(toks, pos, TokenType::LeftParen) {
        match parse_expression(toks, pos + 1) {
            Ok((inner, taken)) => if check(toks, pos + 1 + taken, TokenType::RightParen) {
                Ok((SpecExpr::Grouping(Box::new(inner)), taken + 2))
            } else {
                unexpected(toks, pos + 1 + taken, Expected::RightParenAfterExpression)
            },
            Err(error) => Err(error),
        }
    } else {
        unexpected(toks, pos, Expected::Expression)
    }
}

/// A prefix expression at `pos`: any number of `-` and `!`, then a primary.
pub open spec fn parse_unary(toks: Seq<SpecToken>, pos: int) -> Result<
    (SpecExpr, nat),
    Failure,
>
    decreases remaining(toks, pos), 1nat,
{
    if check_any(toks, pos, seq![TokenType::Minus, TokenType::Bang]) {
        match parse_unary(toks, pos + 1) {
            Ok((operand, taken)) => Ok((SpecExpr::Unary(toks[pos], Box::new(operand)), taken + 1)),
            Err(error) => Err(error),
        }
    } else {
        parse_primary(toks, pos)
    }
}

/// An operand of a level at `pos`: an expression of the next tighter level.
pub open spec fn parse_operand(toks: Seq<SpecToken>, pos: int, level: Level) -> Result<
    (SpecExpr, nat),
    Failure,
>
    decreases remaining(toks, pos), 3 * rank(level),
{
    match level {
        Level::Factor => parse_unary(toks, pos),
        Level::Term => parse_level(toks, pos, Level::Factor),
        Level::Comparison => parse_level(toks, pos, Level::Term),
        Level::Equality => parse_level(toks, pos, Level::Comparison),
        Level::And => parse_level(toks, pos, Level::Equality),
        Level::Or => parse_level(toks, pos, Level::And),
    }
}

/// What follows an operand of a level at `pos`: any number of pairs of an
/// operator of the level and an operand, folded onto `left` from the left.
pub open spec fn parse_more(toks: Seq<SpecToken>, pos: int, level: Level, left: SpecExpr) -> Result<
    (SpecExpr, nat),
    Failure,
>
    decreases remaining(toks, pos), 3 * rank(level) + 1,
{
    if check_any(toks, pos, operators(level)) {
        match parse_operand(toks, pos + 1, level) {
            Ok((right, taken)) => after(
                1 + taken,
                parse_more(toks, pos + 1 + taken, level, join(level, left, toks[pos], right)),
            ),
            Err(error) => Err(error),
        }
    } else {
        Ok((left, 0))
    }
}

/// An expression of a binary level at `pos`: an operand, and what follows.
pub open spec fn parse_level(toks: Seq<SpecToken>, pos: int, level: Level) -> Result<
    (SpecExpr, nat),
    Failure,
>
    decreases remaining(toks, pos), 3 * rank(level) + 2,
{
    match parse_operand(toks, pos, level) {
        Ok((left, taken)) => after(taken, parse_more(toks, pos + taken, level, left)),
        Err(error) => Err(error),
    }
}

/// An assignment at `pos`: an `or` expression; where `=` follows, the
/// expression must be a variable, and the value assigned is an assignment in
/// turn. The value is parsed before the target is looked at, so the error
/// of a bad target carries the `=` and leaves the parser after the value.
pub open spec fn parse_assignment(toks: Seq<SpecToken>, pos: int) -> Result<
    (SpecExpr, nat),
    Failure,
>
    decreases remaining(toks, pos), 30nat,
{
    match parse_level(toks, pos, Level::Or) {
        Ok((target, taken)) => if check(toks, pos + taken, TokenType::Equal) {
            match parse_assignment(toks, pos + taken + 1) {
                Ok((value, more)) => match target {
                    SpecExpr::Identifier(name) => Ok(
                        (SpecExpr::Assign(name, Box::new(value)), taken + 1 + more),
                    ),
                    _ => Err(
                        Failure {
                            error: SpecSyntaxError {
                                expected: Expected::AssignmentTarget,
                                found: toks[pos + taken],
                            },
                            at: pos + taken + 1 + more,
                        },
                    ),
                },
                Err(error) => Err(error),
            }
        } else {
            Ok((target, taken))
        },
        Err(error) => Err(error),
    }
}

/// An expression at `pos`.
pub open spec fn parse_expression(toks: Seq<SpecToken>, pos: int) -> Result<
    (SpecExpr, nat),
    Failure,
>
    decreases remaining(toks, pos), 31nat,
{
    parse_assignment(toks, pos)
}

/// An expression at `pos` and the token of category `ty` after it; the
/// count is that of the expression and the token.
#[verifier::opaque]
pub open spec fn parse_closed_expression(
    toks: Seq<SpecToken>,
    pos: int,
    ty: TokenType,
    expected: Expected,
) -> Result<(SpecExpr, nat), Failure> {
    match parse_expression(toks, pos) {
        Ok((value, taken)) => if check(toks, pos + taken, ty) {
            Ok((value, taken + 1))
        } else {
            unexpected(toks, pos + taken, expected)
        },
        Err(error) => Err(error),
    }
}

/// The rest of a `print` statement at `pos`, after the keyword.
#[verifier::opaque]
pub open spec fn parse_print(toks: Seq<SpecToken>, pos: int) -> Result<
    (SpecStmt, nat),
    Failure,
> {
    match parse_closed_expression(toks, pos, TokenType::SemiColon, Expected::SemiColonAfterValue) {
        Ok((value, taken)) => Ok((SpecStmt::Print(value), taken)),
        Err(error) => Err(error),
    }
}

/// An expression statement at `pos`.
#[verifier::opaque]
pub open spec fn parse_expression_statement(toks: Seq<SpecToken>, pos: int) -> Result<
    (SpecStmt, nat),
    Failure,
> {
    match parse_closed_expression(toks, pos, TokenType::SemiColon, Expected::SemiColonAfterValue) {
        Ok((value, taken)) => Ok((SpecStmt::Expr(value), taken)),
        Err(error) => Err(error),
    }
}

/// The rest of a `var` declaration at `pos`, after the keyword: a name, `=`,
/// an initializer and `;`. The initializer is not optional.
#[verifier::opaque]
pub open spec fn parse_var(toks: Seq<SpecToken>, pos: int) -> Result<
    (SpecStmt, nat),
    Failure,
> {
    if !check(toks, pos, TokenType::Identifier) {
        unexpected(toks, pos, Expected::VariableName)
    } else if !check(toks, pos + 1, TokenType::Equal) {
        unexpected(toks, pos + 1, Expected::Initializer)
    } else {
        match parse_closed_expression(
            toks,
            pos + 2,
            TokenType::SemiColon,
            Expected::SemiColonAfterDeclaration,
        ) {
            Ok((initializer, taken)) => Ok(
                (SpecStmt::Var(toks[pos].lexme, initializer), taken + 2),
            ),
            Err(error) => Err(error),
        }
    }
}

/// The tree that a `for` statement stands for: a block of the initializer,
/// if there is one, and a `while` loop. The loop runs on the condition, or
/// on `true` where there is none; its body is a block of the body of the
/// `for` and, if there is one, the increment as an expression statement.
pub open spec fn for_loop(
    initializer: Option<SpecStmt>,
    condition: Option<SpecExpr>,
    increment: Option<SpecExpr>,
    body: SpecStmt,
) -> SpecStmt {
    let inner = match increment {
        Some(step) => seq![body, SpecStmt::Expr(step)],
        None => seq![body],
    };
    let test = match condition {
        Some(test) => test,
        None => SpecExpr::Literal(SpecLiteral::True),
    };
    let repeat = SpecStmt::While(test, Box::new(SpecStmt::Block(inner)));
    match initializer {
        Some(first) => SpecStmt::Block(seq![first, repeat]),
        None => SpecStmt::Block(seq![repeat]),
    }
}

/// A `for` with all its clauses is the block that one would write by hand:
/// the initializer, then a `while` on the condition around a block of the
/// body and the increment.
pub proof fn lemma_for_is_its_expansion(
    initializer: SpecStmt,
    condition: SpecExpr,
    increment: SpecExpr,
    body: SpecStmt,
)
    ensures
        for_loop(Some(initializer), Some(condition), Some(increment), body) == SpecStmt::Block(
            seq![
                initializer,
                SpecStmt::While(
                    condition,
                    Box::new(SpecStmt::Block(seq![body, SpecStmt::Expr(increment)])),
                ),
            ],
        ),
{
}

/// The first clause of a `for` at `pos`: `;` alone, a `var` declaration, or
/// an expression statement.
#[verifier::opaque]
pub open spec fn parse_for_initializer(toks: Seq<SpecToken>, pos: int) -> Result<
    (Option<SpecStmt>, nat),
    Failure,
> {
    if check(toks, pos, TokenType::SemiColon) {
        Ok((None, 1))
    } else if check(toks, pos, TokenType::Var) {
        match parse_var(toks, pos + 1) {
            Ok((declaration, taken)) => Ok((Some(declaration), taken + 1)),
            Err(error) => Err(error),
        }
    } else {
        match parse_expression_statement(toks, pos) {
            Ok((statement, taken)) => Ok((Some(statement), taken)),
            Err(error) => Err(error),
        }
    }
}

/// A clause of a `for` at `pos` that ends with a token of category `ty`: the
/// token alone, or an expression and the token.
#[verifier::opaque]
pub open spec fn parse_for_clause(
    toks: Seq<SpecToken>,
    pos: int,
    ty: TokenType,
    expected: Expected,
) -> Result<(Option<SpecExpr>, nat), Failure> {
    if check(toks, pos, ty) {
        Ok((None, 1))
    } else {
        match parse_closed_expression(toks, pos, ty, expected) {
            Ok((clause, taken)) => Ok((Some(clause), taken)),
            Err(error) => Err(error),
        }
    }
}

/// A statement at `pos`, and the number of tokens that it takes after its
/// first.
pub open spec fn parse_statement(toks: Seq<SpecToken>, pos: int) -> Result<
    (SpecStmt, nat),
    Failure,
>
    decreases remaining(toks, pos), 1nat,
{
    if check(toks, pos, TokenType::Print) {
        parse_print(toks, pos + 1)
    } else if check(toks, pos, TokenType::Var) {
        parse_var(toks, pos + 1)
    } else if check(toks, pos, TokenType::LeftBrace) {
        match parse_block(toks, pos + 1) {
            Ok((statements, taken)) => Ok((SpecStmt::Block(statements), taken)),
            Err(error) => Err(error),
        }
    } else if check(toks, pos, TokenType::If) {
        parse_if(toks, pos + 1)
    } else if check(toks, pos, TokenType::While) {
        parse_while(toks, pos + 1)
    } else if check(toks, pos, TokenType::For) {
        parse_for(toks, pos + 1)
    } else {
        match parse_expression(toks, pos) {
            Ok((value, taken)) => if check(toks, pos + taken, TokenType::SemiColon) {
                Ok((SpecStmt::Expr(value), taken))
            } else {
                unexpected(toks, pos + taken, Expected::SemiColonAfterValue)
            },
            Err(error) => Err(error),
        }
    }
}

/// The rest of a block at `pos`, after the opening brace: statements up to
/// the closing brace, which is counted in.
pub open spec fn parse_block(toks: Seq<SpecToken>, pos: int) -> Result<
    (Seq<SpecStmt>, nat),
    Failure,
>
    decreases remaining(toks, pos), 2nat,
{
    if check(toks, pos, TokenType::RightBrace) {
        Ok((Seq::empty(), 1))
    } else if at_end(toks, pos) {
        unexpected(toks, pos, Expected::RightBraceAfterBlock)
    } else {
        match parse_statement(toks, pos) {
            Ok((first, more)) => match parse_block(toks, pos + 1 + more) {
                Ok((rest, taken)) => Ok((seq![first] + rest, 1 + more + taken)),
                Err(error) => Err(error),
            },
            Err(error) => Err(error),
        }
    }
}

/// The rest of an `if` statement at `pos`, after the keyword: a condition
/// in parentheses, a statement, and after `else` a second one.
pub open spec fn parse_if(toks: Seq<SpecToken>, pos: int) -> Result<
    (SpecStmt, nat),
    Failure,
>
    decreases remaining(toks, pos), 0nat,
{
    if !check(toks, pos, TokenType::LeftParen) {
        unexpected(toks, pos, Expected::LeftParenAfterIf)
    } else {
        match parse_closed_expression(
            toks,
            pos + 1,
            TokenType::RightParen,
            Expected::RightParenAfterIfCondition,
        ) {
            Ok((condition, taken)) => match parse_statement(toks, pos + 1 + taken) {
                Ok((then_branch, more)) => {
                    let next = pos + 1 + taken + 1 + more;
                    if check(toks, next, TokenType::Else) {
                        match parse_statement(toks, next + 1) {
                            Ok((else_branch, last)) => Ok(
                                (
                                    SpecStmt::If(
                                        condition,
                                        Box::new(then_branch),
                                        Some(Box::new(else_branch)),
                                    ),
                                    1 + taken + 1 + more + 1 + 1 + last,
                                ),
                            ),
                            Err(error) => Err(error),
                        }
                    } else {
                        Ok(
                            (
                                SpecStmt::If(condition, Box::new(then_branch), None),
                                1 + taken + 1 + more,
                            ),
                        )
                    }
                },
                Err(error) => Err(error),
            },
            Err(error) => Err(error),
        }
    }
}

/// The rest of a `while` statement at `pos`, after the keyword: a condition
/// in parentheses and a statement.
pub open spec fn parse_while(toks: Seq<SpecToken>, pos: int) -> Result<
    (SpecStmt, nat),
    Failure,
>
    decreases remaining(toks, pos), 0nat,
{
    if !check(toks, pos, TokenType::LeftParen) {
        unexpected(toks, pos, Expected::LeftParenAfterWhile)
    } else {
        match parse_closed_expression(
            toks,
            pos + 1,
            TokenType::RightParen,
            Expected::RightParenAfterWhileCondition,
        ) {
            Ok((condition, taken)) => match parse_statement(toks, pos + 1 + taken) {
                Ok((body, more)) => Ok(
                    (SpecStmt::While(condition, Box::new(body)), 1 + taken + 1 + more),
                ),
                Err(error) => Err(error),
            },
            Err(error) => Err(error),
        }
    }
}

/// The rest of a `for` statement at `pos`, after the keyword: three clauses
/// in parentheses and a statement, as the tree that `for_loop` gives.
pub open spec fn parse_for(toks: Seq<SpecToken>, pos: int) -> Result<
    (SpecStmt, nat),
    Failure,
>
    decreases remaining(toks, pos), 0nat,
{
    if !check(toks, pos, TokenType::LeftParen) {
        unexpected(toks, pos, Expected::LeftParenAfterFor)
    } else {
        match parse_for_initializer(toks, pos + 1) {
            Ok((initializer, first)) => match parse_for_clause(
                toks,
                pos + 1 + first,
                TokenType::SemiColon,
                Expected::SemiColonAfterForCondition,
            ) {
                Ok((condition, second)) => match parse_for_clause(
                    toks,
                    pos + 1 + first + second,
                    TokenType::RightParen,
                    Expected::RightParenAfterForClauses,
                ) {
                    Ok((increment, third)) => match parse_statement(
                        toks,
                        pos + 1 + first + second + third,
                    ) {
                        Ok((body, more)) => Ok(
                            (
                                for_loop(initializer, condition, increment, body),
                                1 + first + second + third + 1 + more,
                            ),
                        ),
                        Err(error) => Err(error),
                    },
                    Err(error) => Err(error),
                },
                Err(error) => Err(error),
            },
            Err(error) => Err(error),
        }
    }
}

/// The statements from `pos` up to the end-of-input token.
pub open spec fn parse_program(toks: Seq<SpecToken>, pos: int) -> Result<
    Seq<SpecStmt>,
    Failure,
>
    decreases remaining(toks, pos),
{
    if at_end(toks, pos) {
        Ok(Seq::empty())
    } else {
        match parse_statement(toks, pos) {
            Ok((first, more)) => match parse_program(toks, pos + 1 + more) {
                Ok(rest) => Ok(seq![first] + rest),
                Err(error) => Err(error),
            },
            Err(error) => Err(error),
        }
    }
}

/// A prefix expression that the end of the input follows is an expression
/// of every binary level, with no operator applied.
pub proof fn lemma_lone_operand(
    toks: Seq<SpecToken>,
    pos: int,
    level: Level,
    node: SpecExpr,
    taken: nat,
)
    requires
        parse_unary(toks, pos) == Ok::<(SpecExpr, nat), Failure>((node, taken)),
        at_end(toks, pos + taken),
    ensures
        parse_level(toks, pos, level) == Ok::<(SpecExpr, nat), Failure>((node, taken)),
    decreases rank(level),
{
    match level {
        Level::Factor => {},
        Level::Term => lemma_lone_operand(toks, pos, Level::Factor, node, taken),
        Level::Comparison => lemma_lone_operand(toks, pos, Level::Term, node, taken),
        Level::Equality => lemma_lone_operand(toks, pos, Level::Comparison, node, taken),
        Level::And => lemma_lone_operand(toks, pos, Level::Equality, node, taken),
        Level::Or => lemma_lone_operand(toks, pos, Level::And, node, taken),
    }
    assert(parse_more(toks, pos + taken, level, node) == Ok::<(SpecExpr, nat), Failure>(
        (node, 0),
    ));
}

/// A literal token that the end of the input follows parses, as an
/// expression, to the literal of its payload.
pub proof fn lemma_parse_literal(toks: Seq<SpecToken>)
    requires
        toks.len() == 2,
        toks[0].tok_type == TokenType::Number || toks[0].tok_type == TokenType::String,
        toks[1].tok_type == TokenType::Eof,
    ensures
        parse_expression(toks, 0) == Ok::<(SpecExpr, nat), Failure>(
            (SpecExpr::Literal(toks[0].literal), 1),
        ),
{
    let kinds = seq![TokenType::Number, TokenType::String];
    assert(kinds[0] == TokenType::Number && kinds[1] == TokenType::String);
    assert(check_any(toks, 0, kinds));
    let unary = seq![TokenType::Minus, TokenType::Bang];
    assert(!check_any(toks, 0, unary));
    assert(parse_primary(toks, 0) == Ok::<(SpecExpr, nat), Failure>(
        (SpecExpr::Literal(toks[0].literal), 1),
    ));
    lemma_lone_operand(toks, 0, Level::Or, SpecExpr::Literal(toks[0].literal), 1);
}

} // verus!
