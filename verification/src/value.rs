//! Runtime values, the errors of evaluation, and the operators on values.

use crate::number::{
    add_doubles, divide_doubles, double_difference, double_product, double_quotient,
    double_remainder, double_sum, is_less, is_less_or_same, is_same, less, multiply_doubles,
    negate, negated, remainder_doubles, same, subtract_doubles,
};
use crate::token::{Literal, SpecLiteral, SpecToken, Token, TokenType};
use vstd::prelude::*;
use vstd::string::StringExecFns;

verus! {

/// A runtime value. Every binding owns its value; none is shared.
#[derive(Debug)]
pub enum Value {
    /// A number, as its binary64 pattern.
    Number(u64),
    String(String),
    Bool(bool),
    Nil,
}

/// The mathematical value of a [`Value`].
pub enum SpecValue {
    Number(u64),
    String(Seq<char>),
    Bool(bool),
    Nil,
}

impl View for Value {
    type V = SpecValue;

    open spec fn view(&self) -> SpecValue {
        match self {
            Value::Number(bits) => SpecValue::Number(*bits),
            Value::String(text) => SpecValue::String(text@),
            Value::Bool(truth) => SpecValue::Bool(*truth),
            Value::Nil => SpecValue::Nil,
        }
    }
}

impl Clone for Value {
    fn clone(&self) -> (r: Self)
        ensures
            r == *self,
    {
        match self {
            Value::Number(bits) => Value::Number(*bits),
            Value::String(text) => Value::String(text.clone()),
            Value::Bool(truth) => Value::Bool(*truth),
            Value::Nil => Value::Nil,
        }
    }
}

/// Why evaluation stopped. Where a token is at fault, the error carries it.
#[derive(Debug)]
pub enum RuntimeError {
    /// The operator was given an operand that is no number.
    NumberExpected(Token),
    /// `+` after a string was given an operand that is no string.
    StringExpected(Token),
    /// The token is no operator of the expression it stands in.
    UnknownOperator(Token),
    /// A variable was read that no scope of the chain defines.
    UndefinedVariable(Token),
    /// A variable was assigned that no scope of the chain defines.
    UndefinedTarget(Token),
    /// `print` was given `nil`.
    PrintNil,
    /// An expression other than an assignment stood as a statement.
    UnsupportedStatement,
    /// The loops of the program took more iterations than the budget allows.
    BudgetExhausted,
}

/// The mathematical value of a [`RuntimeError`].
pub enum SpecRuntimeError {
    NumberExpected(SpecToken),
    StringExpected(SpecToken),
    UnknownOperator(SpecToken),
    UndefinedVariable(SpecToken),
    UndefinedTarget(SpecToken),
    PrintNil,
    UnsupportedStatement,
    BudgetExhausted,
}

impl View for RuntimeError {
    type V = SpecRuntimeError;

    open spec fn view(&self) -> SpecRuntimeError {
        match self {
            RuntimeError::NumberExpected(op) => SpecRuntimeError::NumberExpected(op@),
            RuntimeError::StringExpected(op) => SpecRuntimeError::StringExpected(op@),
            RuntimeError::UnknownOperator(op) => SpecRuntimeError::UnknownOperator(op@),
            RuntimeError::UndefinedVariable(name) => SpecRuntimeError::UndefinedVariable(name@),
            RuntimeError::UndefinedTarget(name) => SpecRuntimeError::UndefinedTarget(name@),
            RuntimeError::PrintNil => SpecRuntimeError::PrintNil,
            RuntimeError::UnsupportedStatement => SpecRuntimeError::UnsupportedStatement,
            RuntimeError::BudgetExhausted => SpecRuntimeError::BudgetExhausted,
        }
    }
}

/// The view of the outcome of an evaluation.
pub open spec fn value_outcome(r: Result<Value, RuntimeError>) -> Result<
    SpecValue,
    SpecRuntimeError,
> {
    match r {
        Ok(value) => Ok(value@),
        Err(error) => Err(error@),
    }
}

/// The view of the outcome of a statement.
pub open spec fn unit_outcome(r: Result<(), RuntimeError>) -> Result<(), SpecRuntimeError> {
    match r {
        Ok(()) => Ok(()),
        Err(error) => Err(error@),
    }
}

/// Truthiness: a boolean is its own truth, `nil` is false, every number and
/// every string is true.
pub open spec fn truthy(value: SpecValue) -> bool {
    match value {
        SpecValue::Bool(truth) => truth,
        SpecValue::Nil => false,
        _ => true,
    }
}

/// The value of a literal.
pub open spec fn literal_value(literal: SpecLiteral) -> SpecValue {
    match literal {
        SpecLiteral::Number(bits) => SpecValue::Number(bits),
        SpecLiteral::String(text) => SpecValue::String(text),
        SpecLiteral::True => SpecValue::Bool(true),
        SpecLiteral::False => SpecValue::Bool(false),
        SpecLiteral::Nil => SpecValue::Nil,
    }
}

/// What a binary operator gives on two numbers. Division and remainder by
/// zero are no errors: they give an infinity or a NaN, as binary64 does.
pub open spec fn arithmetic(op: SpecToken, a: u64, b: u64) -> Result<SpecValue, SpecRuntimeError> {
    match op.tok_type {
        TokenType::Plus => Ok(SpecValue::Number(double_sum(a, b))),
        TokenType::Minus => Ok(SpecValue::Number(double_difference(a, b))),
        TokenType::Slash => Ok(SpecValue::Number(double_quotient(a, b))),
        TokenType::Star => Ok(SpecValue::Number(double_product(a, b))),
        TokenType::Modulo => Ok(SpecValue::Number(double_remainder(a, b))),
        TokenType::Greater => Ok(SpecValue::Bool(less(b, a))),
        TokenType::GreaterEqual => Ok(SpecValue::Bool(less(b, a) || same(b, a))),
        TokenType::Less => Ok(SpecValue::Bool(less(a, b))),
        TokenType::LessEqual => Ok(SpecValue::Bool(less(a, b) || same(a, b))),
        TokenType::BangEqual => Ok(SpecValue::Bool(!same(a, b))),
        TokenType::EqualEqual => Ok(SpecValue::Bool(same(a, b))),
        _ => Err(SpecRuntimeError::UnknownOperator(op)),
    }
}

/// What a binary operator gives when its left operand is a string: `+` joins
/// two strings and asks for a string; every other operator asks for numbers.
pub open spec fn string_operation(op: SpecToken, left: Seq<char>, right: SpecValue) -> Result<
    SpecValue,
    SpecRuntimeError,
> {
    if op.tok_type == TokenType::Plus {
        match right {
            SpecValue::String(text) => Ok(SpecValue::String(left + text)),
            _ => Err(SpecRuntimeError::StringExpected(op)),
        }
    } else {
        Err(SpecRuntimeError::NumberExpected(op))
    }
}

/// What a binary operator gives on two values.
pub open spec fn binary_operation(op: SpecToken, left: SpecValue, right: SpecValue) -> Result<
    SpecValue,
    SpecRuntimeError,
> {
    match left {
        SpecValue::Number(a) => match right {
            SpecValue::Number(b) => arithmetic(op, a, b),
            _ => Err(SpecRuntimeError::NumberExpected(op)),
        },
        SpecValue::String(text) => string_operation(op, text, right),
        _ => Err(SpecRuntimeError::NumberExpected(op)),
    }
}

/// What a prefix operator gives on a value. `!` gives `false` whatever the
/// operand is; `-` and `+` ask for a number.
pub open spec fn unary_operation(op: SpecToken, operand: SpecValue) -> Result<
    SpecValue,
    SpecRuntimeError,
> {
    if op.tok_type == TokenType::Bang {
        Ok(SpecValue::Bool(false))
    } else {
        match operand {
            SpecValue::Number(bits) => match op.tok_type {
                TokenType::Minus => Ok(SpecValue::Number(negated(bits))),
                TokenType::Plus => Ok(SpecValue::Number(bits)),
                _ => Err(SpecRuntimeError::UnknownOperator(op)),
            },
            _ => Err(SpecRuntimeError::NumberExpected(op)),
        }
    }
}

impl Value {
    /// The value of a literal.
    pub fn of_literal(literal: &Literal) -> (value: Value)
        ensures
            value@ == literal_value(literal@),
    {
        match literal {
            Literal::Number(bits) => Value::Number(*bits),
            Literal::String(text) => Value::String(text.clone()),
            Literal::True => Value::Bool(true),
            Literal::False => Value::Bool(false),
            Literal::Nil => Value::Nil,
        }
    }

    /// Whether the value counts as true in a condition.
    pub fn is_truthy(&self) -> (r: bool)
        ensures
            r == truthy(self@),
    {
        match self {
            Value::Bool(truth) => *truth,
            Value::Nil => false,
            _ => true,
        }
    }
}

/// Applies a binary operator to two numbers.
pub fn apply_arithmetic(op: &Token, a: u64, b: u64) -> (r: Result<Value, RuntimeError>)
    ensures
        value_outcome(r) == arithmetic(op@, a, b),
{
    match op.tok_type {
        TokenType::Plus => Ok(Value::Number(add_doubles(a, b))),
        TokenType::Minus => Ok(Value::Number(subtract_doubles(a, b))),
        TokenType::Slash => Ok(Value::Number(divide_doubles(a, b))),
        TokenType::Star => Ok(Value::Number(multiply_doubles(a, b))),
        TokenType::Modulo => Ok(Value::Number(remainder_doubles(a, b))),
        TokenType::Greater => Ok(Value::Bool(is_less(b, a))),
        TokenType::GreaterEqual => Ok(Value::Bool(is_less_or_same(b, a))),
        TokenType::Less => Ok(Value::Bool(is_less(a, b))),
        TokenType::LessEqual => Ok(Value::Bool(is_less_or_same(a, b))),
        TokenType::BangEqual => Ok(Value::Bool(!is_same(a, b))),
        TokenType::EqualEqual => Ok(Value::Bool(is_same(a, b))),
        _ => Err(RuntimeError::UnknownOperator(op.clone())),
    }
}

/// Applies a binary operator to a string on the left and a value on the
/// right.
pub fn apply_string_operation(op: &Token, left: String, right: Value) -> (r: Result<
    Value,
    RuntimeError,
>)
    ensures
        value_outcome(r) == string_operation(op@, left@, right@),
{
    if op.tok_type == TokenType::Plus {
        match right {
            Value::String(text) => Ok(Value::String(left.concat(text.as_str()))),
            _ => Err(RuntimeError::StringExpected(op.clone())),
        }
    } else {
        Err(RuntimeError::NumberExpected(op.clone()))
    }
}

/// Applies a prefix operator to a value.
pub fn apply_unary(op: &Token, operand: Value) -> (r: Result<Value, RuntimeError>)
    ensures
        value_outcome(r) == unary_operation(op@, operand@),
{
    if op.tok_type == TokenType::Bang {
        Ok(Value::Bool(false))
    } else {
        match operand {
            Value::Number(bits) => match op.tok_type {
                TokenType::Minus => Ok(Value::Number(negate(bits))),
                TokenType::Plus => Ok(Value::Number(bits)),
                _ => Err(RuntimeError::UnknownOperator(op.clone())),
            },
            _ => Err(RuntimeError::NumberExpected(op.clone())),
        }
    }
}

} // verus!
