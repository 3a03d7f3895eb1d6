//! Diagnostics: an error as a line and a message, and how the errors of
//! each phase read.

use crate::grammar::{Expected, SpecSyntaxError};
use crate::parser::SyntaxError;
use crate::scanner::{LexError, SpecLexError};
use crate::token::category_name;
use crate::value::{RuntimeError, SpecRuntimeError};
use vstd::prelude::*;
use vstd::string::StringExecFns;

verus! {

/// A diagnostic: the source line and what went wrong there. Line 0 stands
/// for an error that belongs to no line.
#[derive(Debug)]
pub struct Error {
    pub line: usize,
    pub msg: String,
}

/// The mathematical value of an [`Error`].
pub struct SpecError {
    pub line: nat,
    pub msg: Seq<char>,
}

impl View for Error {
    type V = SpecError;

    open spec fn view(&self) -> SpecError {
        SpecError { line: self.line as nat, msg: self.msg@ }
    }
}

/// A sink for diagnostics.
pub trait Report {
    fn report(&self, err: &Error);
}

/// How a lexical error reads.
pub open spec fn lex_diagnostic(error: SpecLexError) -> SpecError {
    match error {
        SpecLexError::UnterminatedString { line } => SpecError {
            line,
            msg: "Unterminated string."@,
        },
        SpecLexError::UnexpectedCharacter { found, line } => SpecError {
            line,
            msg: "Unexpected character: "@.push(found),
        },
    }
}

/// What a syntax error says was asked for.
pub open spec fn expectation(expected: Expected) -> Seq<char> {
    match expected {
        Expected::Expression => "Expect expression, found "@,
        Expected::RightParenAfterExpression => "Expect ')' after expression, found "@,
        Expected::AssignmentTarget => "Invalid assignment target before "@,
        Expected::SemiColonAfterValue => "Expect ';' after value, found "@,
        Expected::VariableName => "Expect variable name, found "@,
        Expected::Initializer => "Expect '=' and an initializer, found "@,
        Expected::SemiColonAfterDeclaration => "Expect ';' after variable declaration, found "@,
        Expected::RightBraceAfterBlock => "Expect '}' after block, found "@,
        Expected::LeftParenAfterIf => "Expect '(' after 'if', found "@,
        Expected::RightParenAfterIfCondition => "Expect ')' after if condition, found "@,
        Expected::LeftParenAfterWhile => "Expect '(' after 'while', found "@,
        Expected::RightParenAfterWhileCondition => "Expect ')' after while condition, found "@,
        Expected::LeftParenAfterFor => "Expect '(' after 'for', found "@,
        Expected::SemiColonAfterForCondition => "Expect ';' after loop condition, found "@,
        Expected::RightParenAfterForClauses => "Expect ')' after for clauses, found "@,
    }
}

/// How a syntax error reads: what was asked for and the category of the
/// token found, on the line of that token.
pub open spec fn syntax_diagnostic(error: SpecSyntaxError) -> SpecError {
    SpecError {
        line: error.found.line,
        msg: expectation(error.expected) + category_name(error.found.tok_type),
    }
}

/// How a runtime error reads. An error that carries a token is on the line
/// of the token; the others are on line 0.
pub open spec fn runtime_diagnostic(error: SpecRuntimeError) -> SpecError {
    match error {
        SpecRuntimeError::NumberExpected(op) => SpecError {
            line: op.line,
            msg: "Operand must be a number for "@ + category_name(op.tok_type),
        },
        SpecRuntimeError::StringExpected(op) => SpecError {
            line: op.line,
            msg: "Operand must be a string for "@ + category_name(op.tok_type),
        },
        SpecRuntimeError::UnknownOperator(op) => SpecError {
            line: op.line,
            msg: "Unsupported operator "@ + category_name(op.tok_type),
        },
        SpecRuntimeError::UndefinedVariable(name) => SpecError {
            line: name.line,
            msg: "Undefined variable "@ + name.lexme,
        },
        SpecRuntimeError::UndefinedTarget(name) => SpecError {
            line: name.line,
            msg: "Cannot assign to undefined variable "@ + name.lexme,
        },
        SpecRuntimeError::PrintNil => SpecError { line: 0, msg: "Cannot print nil."@ },
        SpecRuntimeError::UnsupportedStatement => SpecError {
            line: 0,
            msg: "Only an assignment can stand as a statement."@,
        },
        SpecRuntimeError::BudgetExhausted => SpecError {
            line: 0,
            msg: "Loop budget exhausted."@,
        },
    }
}

/// The text `head` followed by the text `tail`.
fn joined(head: &str, tail: &str) -> (text: String)
    ensures
        text@ == head@ + tail@,
{
    String::from_str(head).concat(tail)
}

impl LexError {
    /// The diagnostic of this error.
    pub fn to_error(&self) -> (error: Error)
        ensures
            error@ == lex_diagnostic(self@),
    {
        match self {
            LexError::UnterminatedString { line } => Error {
                line: *line,
                msg: String::from_str("Unterminated string."),
            },
            LexError::UnexpectedCharacter { found, line } => {
                let mut msg = String::from_str("Unexpected character: ");
                msg.push(*found);
                Error { line: *line, msg }
            },
        }
    }
}

impl SyntaxError {
    /// The diagnostic of this error.
    pub fn to_error(&self) -> (error: Error)
        ensures
            error@ == syntax_diagnostic(self@),
    {
        let head = match self.expected {
            Expected::Expression => "Expect expression, found ",
            Expected::RightParenAfterExpression => "Expect ')' after expression, found ",
            Expected::AssignmentTarget => "Invalid assignment target before ",
            Expected::SemiColonAfterValue => "Expect ';' after value, found ",
            Expected::VariableName => "Expect variable name, found ",
            Expected::Initializer => "Expect '=' and an initializer, found ",
            Expected::SemiColonAfterDeclaration => "Expect ';' after variable declaration, found ",
            Expected::RightBraceAfterBlock => "Expect '}' after block, found ",
            Expected::LeftParenAfterIf => "Expect '(' after 'if', found ",
            Expected::RightParenAfterIfCondition => "Expect ')' after if condition, found ",
            Expected::LeftParenAfterWhile => "Expect '(' after 'while', found ",
            Expected::RightParenAfterWhileCondition => "Expect ')' after while condition, found ",
            Expected::LeftParenAfterFor => "Expect '(' after 'for', found ",
            Expected::SemiColonAfterForCondition => "Expect ';' after loop condition, found ",
            Expected::RightParenAfterForClauses => "Expect ')' after for clauses, found ",
        };
        Error { line: self.found.line, msg: joined(head, self.found.tok_type.name()) }
    }
}

impl RuntimeError {
    /// The diagnostic of this error.
    pub fn to_error(&self) -> (error: Error)
        ensures
            error@ == runtime_diagnostic(self@),
    {
        match self {
            RuntimeError::NumberExpected(op) => Error {
                line: op.line,
                msg: joined("Operand must be a number for ", op.tok_type.name()),
            },
            RuntimeError::StringExpected(op) => Error {
                line: op.line,
                msg: joined("Operand must be a string for ", op.tok_type.name()),
            },
            RuntimeError::UnknownOperator(op) => Error {
                line: op.line,
                msg: joined("Unsupported operator ", op.tok_type.name()),
            },
            RuntimeError::UndefinedVariable(name) => Error {
                line: name.line,
                msg: joined("Undefined variable ", name.lexme.as_str()),
            },
            RuntimeError::UndefinedTarget(name) => Error {
                line: name.line,
                msg: joined("Cannot assign to undefined variable ", name.lexme.as_str()),
            },
            RuntimeError::PrintNil => Error { line: 0, msg: String::from_str("Cannot print nil.") },
            RuntimeError::UnsupportedStatement => Error {
                line: 0,
                msg: String::from_str("Only an assignment can stand as a statement."),
            },
            RuntimeError::BudgetExhausted => Error {
                line: 0,
                msg: String::from_str("Loop budget exhausted."),
            },
        }
    }
}

} // verus!
