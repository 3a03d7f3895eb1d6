use rlox::expr::{Expr, Stmt};
use rlox::interpreter::Interpreter;
use rlox::token::{Literal, Token, TokenType};
use rlox::value::{RuntimeError, Value};

fn token(tok_type: TokenType, lexeme: &str) -> Token {
    Token::new(tok_type, String::from(lexeme), Literal::Nil, 1)
}

fn num(value: f64) -> Expr {
    Expr::Literal(Literal::Number(value.to_bits()))
}

fn text(value: &str) -> Expr {
    Expr::Literal(Literal::String(String::from(value)))
}

fn var(name: &str) -> Expr {
    Expr::Identifier(token(TokenType::Identifier, name))
}

fn binary(left: Expr, tok_type: TokenType, lexeme: &str, right: Expr) -> Expr {
    Expr::Binary(Box::new(left), token(tok_type, lexeme), Box::new(right))
}

fn assign(name: &str, value: Expr) -> Expr {
    Expr::Assign(token(TokenType::Identifier, name), Box::new(value))
}

fn as_number(result: Result<Value, RuntimeError>) -> f64 {
    match result {
        Ok(Value::Number(bits)) => f64::from_bits(bits),
        other => panic!("{:?}", other),
    }
}

#[test]
fn new_interpreter_is_empty() {
    let interpreter = Interpreter::new();
    assert!(interpreter.env.values.is_empty());
    assert!(interpreter.env.enclosing.is_none());
    assert!(interpreter.output.is_empty());
    assert_eq!(interpreter.budget, u64::MAX);
}

#[test]
fn literal_evaluates_to_itself() {
    let mut interpreter = Interpreter::new();
    assert_eq!(as_number(interpreter.evaluate(&num(1.5))), 1.5);
    assert!(matches!(interpreter.evaluate(&Expr::Literal(Literal::Nil)), Ok(Value::Nil)));
    assert!(matches!(interpreter.visit_literal_expr(&Literal::True), Value::Bool(true)));
}

#[test]
fn grouping_evaluates_its_inside() {
    let mut interpreter = Interpreter::new();
    let plain = binary(num(2.0), TokenType::Plus, "+", num(3.0));
    let grouped = Expr::Grouping(Box::new(binary(num(2.0), TokenType::Plus, "+", num(3.0))));
    assert_eq!(as_number(interpreter.evaluate(&plain)), 5.0);
    assert_eq!(as_number(interpreter.evaluate(&grouped)), 5.0);
}

#[test]
fn unary_plus_passes_a_number_through() {
    let mut interpreter = Interpreter::new();
    assert_eq!(
        as_number(interpreter.visit_unary_expr(&token(TokenType::Plus, "+"), &num(4.0))),
        4.0
    );
    assert_eq!(
        as_number(interpreter.visit_unary_expr(&token(TokenType::Minus, "-"), &num(4.0))),
        -4.0
    );
    assert!(matches!(
        interpreter.visit_unary_expr(&token(TokenType::Plus, "+"), &text("a")),
        Err(RuntimeError::NumberExpected(_))
    ));
    assert!(matches!(
        interpreter.visit_unary_expr(&token(TokenType::Star, "*"), &num(4.0)),
        Err(RuntimeError::UnknownOperator(_))
    ));
}

#[test]
fn identifier_reads_the_environment() {
    let mut interpreter = Interpreter::new();
    interpreter.env.define(String::from("x"), Value::Number(2.0f64.to_bits()));
    assert_eq!(
        as_number(interpreter.visit_identifier_expr(&token(TokenType::Identifier, "x"))),
        2.0
    );
    assert!(matches!(
        interpreter.visit_identifier_expr(&token(TokenType::Identifier, "y")),
        Err(RuntimeError::UndefinedVariable(_))
    ));
}

#[test]
fn left_operand_effects_stay_when_the_right_one_fails() {
    let mut interpreter = Interpreter::new();
    interpreter.env.define(String::from("x"), Value::Number(0));
    let expr = binary(assign("x", num(5.0)), TokenType::Plus, "+", var("missing"));
    assert!(matches!(interpreter.evaluate(&expr), Err(RuntimeError::UndefinedVariable(_))));
    assert_eq!(as_number(interpreter.evaluate(&var("x"))), 5.0);
}

#[test]
fn right_operand_is_skipped_after_a_boolean() {
    let mut interpreter = Interpreter::new();
    interpreter.env.define(String::from("x"), Value::Number(0));
    let expr = binary(
        Expr::Literal(Literal::True),
        TokenType::Plus,
        "+",
        assign("x", num(5.0)),
    );
    assert!(matches!(interpreter.evaluate(&expr), Err(RuntimeError::NumberExpected(_))));
    assert_eq!(as_number(interpreter.evaluate(&var("x"))), 0.0);
}

#[test]
fn short_circuit_skips_effects() {
    let mut interpreter = Interpreter::new();
    interpreter.env.define(String::from("x"), Value::Number(0));
    let expr = Expr::Logical(
        Box::new(Expr::Literal(Literal::False)),
        token(TokenType::And, "and"),
        Box::new(assign("x", num(5.0))),
    );
    assert!(matches!(interpreter.evaluate(&expr), Ok(Value::Bool(false))));
    assert_eq!(as_number(interpreter.evaluate(&var("x"))), 0.0);
    let expr = Expr::Logical(
        Box::new(Expr::Literal(Literal::False)),
        token(TokenType::Or, "or"),
        Box::new(assign("x", num(5.0))),
    );
    assert_eq!(as_number(interpreter.evaluate(&expr)), 5.0);
    assert_eq!(as_number(interpreter.evaluate(&var("x"))), 5.0);
}

#[test]
fn unknown_binary_operator_is_refused() {
    let mut interpreter = Interpreter::new();
    let expr = binary(num(1.0), TokenType::Comma, ",", num(2.0));
    assert!(matches!(interpreter.evaluate(&expr), Err(RuntimeError::UnknownOperator(_))));
}

#[test]
fn evaluate_leaves_output_and_budget_alone() {
    let mut interpreter = Interpreter::new();
    interpreter.budget = 7;
    interpreter.output.push(Value::Nil);
    let _ = interpreter.evaluate(&binary(num(1.0), TokenType::Plus, "+", num(2.0)));
    let _ = interpreter.evaluate(&var("missing"));
    assert_eq!(interpreter.budget, 7);
    assert_eq!(interpreter.output.len(), 1);
}

#[test]
fn execute_print_appends_to_the_output() {
    let mut interpreter = Interpreter::new();
    assert!(interpreter.execute(&Stmt::Print(num(1.0))).is_ok());
    assert!(interpreter.execute(&Stmt::Print(text("two"))).is_ok());
    assert_eq!(interpreter.output.len(), 2);
    assert!(matches!(interpreter.output[0], Value::Number(_)));
    match &interpreter.output[1] {
        Value::String(value) => assert_eq!(value, "two"),
        other => panic!("{:?}", other),
    }
}

#[test]
fn execute_var_defines_in_the_current_scope() {
    let mut interpreter = Interpreter::new();
    assert!(interpreter.execute(&Stmt::Var(String::from("x"), num(3.0))).is_ok());
    assert_eq!(interpreter.env.values.len(), 1);
    assert_eq!(as_number(interpreter.evaluate(&var("x"))), 3.0);
    assert!(matches!(
        interpreter.execute(&Stmt::Var(String::from("y"), var("missing"))),
        Err(RuntimeError::UndefinedVariable(_))
    ));
    assert_eq!(interpreter.env.values.len(), 1);
}

#[test]
fn if_statement_through_its_own_entry() {
    let mut interpreter = Interpreter::new();
    let then_branch = Stmt::Print(num(1.0));
    let else_branch = Some(Box::new(Stmt::Print(num(2.0))));
    assert!(interpreter
        .visit_if_stmt(&Expr::Literal(Literal::Nil), &then_branch, &else_branch)
        .is_ok());
    assert!(interpreter.visit_if_stmt(&num(0.0), &then_branch, &else_branch).is_ok());
    assert!(interpreter.visit_if_stmt(&Expr::Literal(Literal::False), &then_branch, &None).is_ok());
    let printed: Vec<f64> = interpreter
        .output
        .iter()
        .map(|value| match value {
            Value::Number(bits) => f64::from_bits(*bits),
            other => panic!("{:?}", other),
        })
        .collect();
    assert_eq!(printed, vec![2.0, 1.0]);
    assert!(matches!(
        interpreter.visit_if_stmt(&var("missing"), &then_branch, &None),
        Err(RuntimeError::UndefinedVariable(_))
    ));
}

#[test]
fn block_opens_and_closes_a_scope() {
    let mut interpreter = Interpreter::new();
    let block = Stmt::Block(vec![
        Stmt::Var(String::from("x"), num(1.0)),
        Stmt::Print(var("x")),
    ]);
    assert!(interpreter.execute(&block).is_ok());
    assert!(interpreter.env.enclosing.is_none());
    assert!(interpreter.env.values.is_empty());
    assert_eq!(interpreter.output.len(), 1);
}

#[test]
fn while_takes_budget_per_iteration() {
    let mut interpreter = Interpreter::new();
    interpreter.budget = 10;
    interpreter.env.define(String::from("i"), Value::Number(0));
    let body = Stmt::Expr(assign("i", binary(var("i"), TokenType::Plus, "+", num(1.0))));
    let condition = binary(var("i"), TokenType::Less, "<", num(4.0));
    assert!(interpreter.execute(&Stmt::While(condition, Box::new(body))).is_ok());
    assert_eq!(interpreter.budget, 6);
    assert_eq!(as_number(interpreter.evaluate(&var("i"))), 4.0);
}

#[test]
fn while_on_an_empty_budget_fails_only_if_it_would_iterate() {
    let mut interpreter = Interpreter::new();
    interpreter.budget = 0;
    let idle = Stmt::While(Expr::Literal(Literal::False), Box::new(Stmt::Print(num(1.0))));
    assert!(interpreter.execute(&idle).is_ok());
    let busy = Stmt::While(Expr::Literal(Literal::True), Box::new(Stmt::Print(num(1.0))));
    assert!(matches!(interpreter.execute(&busy), Err(RuntimeError::BudgetExhausted)));
    assert!(interpreter.output.is_empty());
}

#[test]
fn interpret_stops_at_the_first_failure() {
    let mut interpreter = Interpreter::new();
    let statements = vec![
        Stmt::Print(num(1.0)),
        Stmt::Print(Expr::Literal(Literal::Nil)),
        Stmt::Print(num(3.0)),
    ];
    assert!(matches!(interpreter.interpret(&statements), Err(RuntimeError::PrintNil)));
    assert_eq!(interpreter.output.len(), 1);
    assert!(interpreter.interpret(&Vec::new()).is_ok());
}
