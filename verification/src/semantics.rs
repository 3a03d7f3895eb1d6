//! What programs mean: evaluation of expressions and execution of
//! statements as mathematical functions on the state of the interpreter.

use crate::environment::{assign_in, define_in, lookup, Scope};
use crate::expr::{SpecExpr, SpecStmt};
use crate::token::{SpecToken, TokenType};
use crate::value::{
    binary_operation, literal_value, truthy, unary_operation, SpecRuntimeError, SpecValue,
};
use vstd::prelude::*;

verus! {

/// The state of an interpreter: the scope chain, innermost scope first, the
/// values printed so far, and the number of loop iterations that the run may
/// still take.
pub struct SpecState {
    pub scopes: Seq<Scope>,
    pub output: Seq<SpecValue>,
    pub budget: nat,
}

/// Whether a logical operator is done after its left operand: `or` on a true
/// value, `and` on a false one.
pub open spec fn short_circuits(op: SpecToken, left: SpecValue) -> bool {
    if op.tok_type == TokenType::Or {
        truthy(left)
    } else {
        !truthy(left)
    }
}

/// The value of an expression in a scope chain, and the chain afterwards.
/// Operands are evaluated left to right; the right operand of a binary
/// operator is evaluated only after a number or a string, that of a logical
/// operator only where the left one does not decide.
pub open spec fn eval(expr: SpecExpr, scopes: Seq<Scope>) -> (
    Result<SpecValue, SpecRuntimeError>,
    Seq<Scope>,
)
    decreases expr,
{
    match expr {
        SpecExpr::Literal(literal) => (Ok(literal_value(literal)), scopes),
        SpecExpr::Grouping(inner) => eval(*inner, scopes),
        SpecExpr::Unary(op, operand) => {
            let (value, after) = eval(*operand, scopes);
            match value {
                Ok(value) => (unary_operation(op, value), after),
                Err(error) => (Err(error), after),
            }
        },
        SpecExpr::Binary(left, op, right) => {
            let (first, middle) = eval(*left, scopes);
            match first {
                Ok(first) => if first is Number || first is String {
                    let (second, after) = eval(*right, middle);
                    match second {
                        Ok(second) => (binary_operation(op, first, second), after),
                        Err(error) => (Err(error), after),
                    }
                } else {
                    (Err(SpecRuntimeError::NumberExpected(op)), middle)
                },
                Err(error) => (Err(error), middle),
            }
        },
        SpecExpr::Logical(left, op, right) => {
            let (first, middle) = eval(*left, scopes);
            match first {
                Ok(first) => if short_circuits(op, first) {
                    (Ok(first), middle)
                } else {
                    eval(*right, middle)
                },
                Err(error) => (Err(error), middle),
            }
        },
        SpecExpr::Identifier(name) => match lookup(scopes, name.lexme) {
            Some(value) => (Ok(value), scopes),
            None => (Err(SpecRuntimeError::UndefinedVariable(name)), scopes),
        },
        SpecExpr::Assign(name, value) => {
            let (value, middle) = eval(*value, scopes);
            match value {
                Ok(value) => match assign_in(middle, name.lexme, value) {
                    Some(after) => (Ok(value), after),
                    None => (Err(SpecRuntimeError::UndefinedTarget(name)), middle),
                },
                Err(error) => (Err(error), middle),
            }
        },
    }
}

/// The state with its budget held to at most `budget`.
pub open spec fn capped(state: SpecState, budget: nat) -> SpecState {
    SpecState {
        budget: if state.budget <= budget {
            state.budget
        } else {
            budget
        },
        ..state
    }
}

/// The outcome of a statement in a state, and the state afterwards.
///
/// Every iteration of a `while` loop takes one unit of the budget; a loop
/// that would iterate on an empty budget stops the run. The budget of the
/// state after a statement is capped at the budget before it, so that the
/// definition is seen to terminate; `lemma_exec_frame` shows that the cap
/// never binds.
pub open spec fn exec(stmt: SpecStmt, state: SpecState) -> (Result<(), SpecRuntimeError>, SpecState)
    decreases state.budget, stmt,
{
    match stmt {
        SpecStmt::Print(value) => {
            let (value, scopes) = eval(value, state.scopes);
            match value {
                Ok(SpecValue::Nil) => (
                    Err(SpecRuntimeError::PrintNil),
                    SpecState { scopes, ..state },
                ),
                Ok(value) => (Ok(()), SpecState { scopes, output: state.output.push(value), ..state }),
                Err(error) => (Err(error), SpecState { scopes, ..state }),
            }
        },
        SpecStmt::Expr(value) => match value {
            SpecExpr::Assign(_, _) => {
                let (value, scopes) = eval(value, state.scopes);
                match value {
                    Ok(_) => (Ok(()), SpecState { scopes, ..state }),
                    Err(error) => (Err(error), SpecState { scopes, ..state }),
                }
            },
            _ => (Err(SpecRuntimeError::UnsupportedStatement), state),
        },
        SpecStmt::Var(name, initializer) => {
            let (value, scopes) = eval(initializer, state.scopes);
            match value {
                Ok(value) => (Ok(()), SpecState { scopes: define_in(scopes, name, value), ..state }),
                Err(error) => (Err(error), SpecState { scopes, ..state }),
            }
        },
        SpecStmt::Block(statements) => {
            let inner = SpecState { scopes: seq![Map::empty()] + state.scopes, ..state };
            let (outcome, after) = exec_from(statements, 0, inner);
            (outcome, SpecState { scopes: after.scopes.drop_first(), ..after })
        },
        SpecStmt::If(condition, then_branch, else_branch) => {
            let (value, scopes) = eval(condition, state.scopes);
            let decided = SpecState { scopes, ..state };
            match value {
                Ok(value) => if truthy(value) {
                    exec(*then_branch, decided)
                } else {
                    match else_branch {
                        Some(branch) => exec(*branch, decided),
                        None => (Ok(()), decided),
                    }
                },
                Err(error) => (Err(error), decided),
            }
        },
        SpecStmt::While(condition, body) => {
            let (value, scopes) = eval(condition, state.scopes);
            let decided = SpecState { scopes, ..state };
            match value {
                Ok(value) => if !truthy(value) {
                    (Ok(()), decided)
                } else if state.budget == 0 {
                    (Err(SpecRuntimeError::BudgetExhausted), decided)
                } else {
                    let spent = SpecState { budget: (state.budget - 1) as nat, ..decided };
                    let (outcome, after) = exec(*body, spent);
                    match outcome {
                        Ok(()) => exec(stmt, capped(after, spent.budget)),
                        Err(error) => (Err(error), after),
                    }
                },
                Err(error) => (Err(error), decided),
            }
        },
    }
}

/// The outcome of the statements from index `from` on, in order, up to the
/// first that fails, and the state afterwards.
pub open spec fn exec_from(statements: Seq<SpecStmt>, from: int, state: SpecState) -> (
    Result<(), SpecRuntimeError>,
    SpecState,
)
    decreases state.budget, statements, statements.len() - from,
{
    if 0 <= from < statements.len() {
        let (outcome, after) = exec(statements[from], state);
        match outcome {
            Ok(()) => exec_from(statements, from + 1, capped(after, state.budget)),
            Err(error) => (Err(error), after),
        }
    } else {
        (Ok(()), state)
    }
}

/// The outcome of a program: its statements in order, up to the first that
/// fails.
pub open spec fn exec_all(statements: Seq<SpecStmt>, state: SpecState) -> (
    Result<(), SpecRuntimeError>,
    SpecState,
) {
    exec_from(statements, 0, state)
}

/// Assignment changes no scope count.
pub proof fn lemma_assign_keeps_depth(scopes: Seq<Scope>, name: Seq<char>, value: SpecValue)
    ensures
        assign_in(scopes, name, value) matches Some(after) ==> after.len() == scopes.len(),
    decreases scopes.len(),
{
    if scopes.len() > 0 && !scopes[0].contains_key(name) {
        lemma_assign_keeps_depth(scopes.drop_first(), name, value);
    }
}

/// Evaluation changes no scope count: an expression opens and closes no
/// scope.
pub proof fn lemma_eval_keeps_depth(expr: SpecExpr, scopes: Seq<Scope>)
    ensures
        eval(expr, scopes).1.len() == scopes.len(),
    decreases expr,
{
    match expr {
        SpecExpr::Literal(_) => {},
        SpecExpr::Grouping(inner) => {
            lemma_eval_keeps_depth(*inner, scopes);
        },
        SpecExpr::Unary(_, operand) => {
            lemma_eval_keeps_depth(*operand, scopes);
        },
        SpecExpr::Binary(left, _, right) => {
            lemma_eval_keeps_depth(*left, scopes);
            lemma_eval_keeps_depth(*right, eval(*left, scopes).1);
        },
        SpecExpr::Logical(left, _, right) => {
            lemma_eval_keeps_depth(*left, scopes);
            lemma_eval_keeps_depth(*right, eval(*left, scopes).1);
        },
        SpecExpr::Identifier(_) => {},
        SpecExpr::Assign(name, value) => {
            lemma_eval_keeps_depth(*value, scopes);
            let (result, middle) = eval(*value, scopes);
            if let Ok(assigned) = result {
                lemma_assign_keeps_depth(middle, name.lexme, assigned);
            }
        },
    }
}

/// What every statement leaves as it found it: the number of scopes, so
/// that no scope outlives its block, whether the block ends well or fails;
/// the output printed before, which is only ever extended; and the budget,
/// which never grows.
pub proof fn lemma_exec_frame(stmt: SpecStmt, state: SpecState)
    requires
        state.scopes.len() > 0,
    ensures
        exec(stmt, state).1.scopes.len() == state.scopes.len(),
        exec(stmt, state).1.budget <= state.budget,
        state.output.is_prefix_of(exec(stmt, state).1.output),
    decreases state.budget, stmt,
{
    match stmt {
        SpecStmt::Print(value) => {
            lemma_eval_keeps_depth(value, state.scopes);
        },
        SpecStmt::Expr(value) => {
            lemma_eval_keeps_depth(value, state.scopes);
        },
        SpecStmt::Var(_, initializer) => {
            lemma_eval_keeps_depth(initializer, state.scopes);
        },
        SpecStmt::Block(statements) => {
            let inner = SpecState { scopes: seq![Map::empty()] + state.scopes, ..state };
            lemma_exec_from_frame(statements, 0, inner);
        },
        SpecStmt::If(condition, then_branch, else_branch) => {
            lemma_eval_keeps_depth(condition, state.scopes);
            let (value, scopes) = eval(condition, state.scopes);
            let decided = SpecState { scopes, ..state };
            if let Ok(value) = value {
                if truthy(value) {
                    lemma_exec_frame(*then_branch, decided);
                } else if let Some(branch) = else_branch {
                    lemma_exec_frame(*branch, decided);
                }
            }
        },
        SpecStmt::While(condition, body) => {
            lemma_eval_keeps_depth(condition, state.scopes);
            let (value, scopes) = eval(condition, state.scopes);
            let decided = SpecState { scopes, ..state };
            if let Ok(value) = value {
                if truthy(value) && state.budget > 0 {
                    let spent = SpecState { budget: (state.budget - 1) as nat, ..decided };
                    lemma_exec_frame(*body, spent);
                    let (outcome, after) = exec(*body, spent);
                    if outcome is Ok {
                        lemma_exec_frame(stmt, capped(after, spent.budget));
                    }
                }
            }
        },
    }
}

/// The same of a run of statements.
pub proof fn lemma_exec_from_frame(statements: Seq<SpecStmt>, from: int, state: SpecState)
    requires
        state.scopes.len() > 0,
    ensures
        exec_from(statements, from, state).1.scopes.len() == state.scopes.len(),
        exec_from(statements, from, state).1.budget <= state.budget,
        state.output.is_prefix_of(exec_from(statements, from, state).1.output),
    decreases state.budget, statements, statements.len() - from,
{
    if 0 <= from < statements.len() {
        lemma_exec_frame(statements[from], state);
        let (outcome, after) = exec(statements[from], state);
        if outcome is Ok {
            lemma_exec_from_frame(statements, from + 1, capped(after, state.budget));
        }
    }
}

/// Parentheses change nothing: an expression in parentheses has the value
/// and the effect of the expression alone.
pub proof fn lemma_grouping_is_transparent(inner: SpecExpr, scopes: Seq<Scope>)
    ensures
        eval(SpecExpr::Grouping(Box::new(inner)), scopes) == eval(inner, scopes),
{
}

/// A name is assigned in a chain exactly where it can be read there.
pub proof fn lemma_assign_needs_binding(scopes: Seq<Scope>, name: Seq<char>, value: SpecValue)
    ensures
        assign_in(scopes, name, value) is None <==> lookup(scopes, name) is None,
    decreases scopes.len(),
{
    if scopes.len() > 0 && !scopes[0].contains_key(name) {
        lemma_assign_needs_binding(scopes.drop_first(), name, value);
    }
}

/// Reading a variable that no scope binds fails, changes no scope, and a
/// `print` of it prints nothing.
pub proof fn lemma_undefined_read(name: SpecToken, state: SpecState)
    requires
        lookup(state.scopes, name.lexme) is None,
    ensures
        eval(SpecExpr::Identifier(name), state.scopes) == (
            Err::<SpecValue, SpecRuntimeError>(SpecRuntimeError::UndefinedVariable(name)),
            state.scopes,
        ),
        exec(SpecStmt::Print(SpecExpr::Identifier(name)), state) == (
            Err::<(), SpecRuntimeError>(SpecRuntimeError::UndefinedVariable(name)),
            state,
        ),
{
}

/// Assigning to a variable that no scope binds fails once the value is
/// there: no scope gets the name, and as a statement it prints nothing.
pub proof fn lemma_undefined_assignment(name: SpecToken, value: SpecExpr, state: SpecState)
    requires
        eval(value, state.scopes).0 is Ok,
        lookup(eval(value, state.scopes).1, name.lexme) is None,
    ensures
        eval(SpecExpr::Assign(name, Box::new(value)), state.scopes) == (
            Err::<SpecValue, SpecRuntimeError>(SpecRuntimeError::UndefinedTarget(name)),
            eval(value, state.scopes).1,
        ),
        exec(SpecStmt::Expr(SpecExpr::Assign(name, Box::new(value))), state) == (
            Err::<(), SpecRuntimeError>(SpecRuntimeError::UndefinedTarget(name)),
            SpecState { scopes: eval(value, state.scopes).1, ..state },
        ),
{
    let (result, middle) = eval(value, state.scopes);
    lemma_assign_needs_binding(middle, name.lexme, result->Ok_0);
}

/// A logical operator that its left operand decides, `and` after a false
/// value and `or` after a true one, is its left operand: the right operand
/// is not evaluated, whatever it is, so that neither its errors nor its
/// effects are seen.
pub proof fn lemma_short_circuit(left: SpecExpr, op: SpecToken, right: SpecExpr, scopes: Seq<Scope>)
    requires
        eval(left, scopes).0 matches Ok(value) && short_circuits(op, value),
    ensures
        eval(SpecExpr::Logical(Box::new(left), op, Box::new(right)), scopes) == eval(left, scopes),
{
}

/// `+` does not convert: after a string it fails on everything but a
/// string, and after a number on everything but a number.
pub proof fn lemma_plus_is_strict(left: SpecExpr, op: SpecToken, right: SpecExpr, scopes: Seq<Scope>)
    requires
        op.tok_type == TokenType::Plus,
        eval(left, scopes).0 is Ok,
        eval(right, eval(left, scopes).1).0 is Ok,
    ensures
        ({
            let (first, middle) = eval(left, scopes);
            let (second, after) = eval(right, middle);
            let whole = eval(SpecExpr::Binary(Box::new(left), op, Box::new(right)), scopes);
            &&& first->Ok_0 is String && !(second->Ok_0 is String) ==> whole == (
                Err::<SpecValue, SpecRuntimeError>(SpecRuntimeError::StringExpected(op)),
                after,
            )
            &&& first->Ok_0 is Number && !(second->Ok_0 is Number) ==> whole == (
                Err::<SpecValue, SpecRuntimeError>(SpecRuntimeError::NumberExpected(op)),
                after,
            )
            &&& whole.0 is Ok <==> (first->Ok_0 is String && second->Ok_0 is String) || (
            first->Ok_0 is Number && second->Ok_0 is Number)
        }),
{
}

} // verus!
