//! The evaluator: walks statements and expressions against the scope chain.

use crate::environment::Environment;
use crate::expr::{
    expr_weight, lemma_block_view, lemma_weight_from, stmt_views, stmt_weight, weight_from, Expr,
    SpecExpr, SpecStmt, Stmt,
};
use crate::semantics::{
    eval, exec, exec_all, exec_from, lemma_eval_keeps_depth, lemma_exec_frame,
    lemma_exec_from_frame, SpecState,
};
use crate::token::{Literal, Token, TokenType};
use crate::value::{
    apply_arithmetic, apply_string_operation, apply_unary, literal_value, truthy, unit_outcome,
    value_outcome, RuntimeError, SpecValue, Value,
};
use vstd::prelude::*;

verus! {

/// An interpreter: the scope chain it runs against, what it has printed, and
/// the loop iterations it may still take.
#[derive(Debug)]
pub struct Interpreter {
    /// The current innermost scope and the chain around it.
    pub env: Environment,
    /// The values printed so far, oldest first. The caller renders them and
    /// may drain them at any time.
    pub output: Vec<Value>,
    /// The loop iterations that the interpreter may still take. Every
    /// iteration of a `while` loop takes one.
    pub budget: u64,
}

/// The views of a sequence of values, in order.
pub open spec fn value_views(values: Seq<Value>) -> Seq<SpecValue> {
    Seq::new(values.len(), |i: int| values[i]@)
}

impl View for Interpreter {
    type V = SpecState;

    open spec fn view(&self) -> SpecState {
        SpecState {
            scopes: self.env@,
            output: value_views(self.output@),
            budget: self.budget as nat,
        }
    }
}

impl Interpreter {
    /// An interpreter with one empty scope, nothing printed and the largest
    /// budget.
    pub fn new() -> (interpreter: Interpreter)
        ensures
            interpreter@ == (SpecState {
                scopes: seq![Map::empty()],
                output: Seq::empty(),
                budget: u64::MAX as nat,
            }),
            interpreter.env.distinct(),
    {
        let interpreter = Interpreter {
            env: Environment::new(None),
            output: Vec::new(),
            budget: u64::MAX,
        };
        proof {
            assert(interpreter.env@ =~= seq![Map::empty()]);
            assert(value_views(interpreter.output@) =~= Seq::empty());
        }
        interpreter
    }

    /// Evaluates an expression against the scope chain.
    pub fn evaluate(&mut self, expr: &Expr) -> (r: Result<Value, RuntimeError>)
        ensures
            (value_outcome(r), final(self).env@) == eval(expr@, old(self).env@),
            final(self).output == old(self).output,
            final(self).budget == old(self).budget,
            old(self).env.distinct() ==> final(self).env.distinct(),
        decreases expr_weight(expr@), 1nat,
    {
        match expr {
            Expr::Literal(lit) => Ok(self.visit_literal_expr(lit)),
            Expr::Grouping(e) => self.evaluate(e),
            Expr::Unary(op, e) => self.visit_unary_expr(op, e),
            Expr::Binary(left, op, right) => self.visit_binary_expr(left, op, right),
            Expr::Identifier(tok) => self.visit_identifier_expr(tok),
            Expr::Assign(tok, e) => self.visit_assign_expr(tok, e),
            Expr::Logical(left, op, right) => self.visit_logical_expr(left, op, right),
        }
    }

    /// Evaluates a binary expression: the left operand first; the right one
    /// after a number or a string only.
    fn visit_binary_expr(&mut self, left: &Expr, op: &Token, right: &Expr) -> (r: Result<
        Value,
        RuntimeError,
    >)
        ensures
            (value_outcome(r), final(self).env@) == eval(
                SpecExpr::Binary(Box::new(left@), op@, Box::new(right@)),
                old(self).env@,
            ),
            final(self).output == old(self).output,
            final(self).budget == old(self).budget,
            old(self).env.distinct() ==> final(self).env.distinct(),
        decreases expr_weight(left@) + expr_weight(right@) + 1, 0nat,
    {
        match self.evaluate(left) {
            Ok(val) => match val {
                Value::Number(left_val) => match self.evaluate(right) {
                    Ok(val) => match val {
                        Value::Number(right_val) => apply_arithmetic(op, left_val, right_val),
                        _ => Err(RuntimeError::NumberExpected(op.clone())),
                    },
                    Err(error) => Err(error),
                },
                Value::String(left_val) => match self.evaluate(right) {
                    Ok(val) => apply_string_operation(op, left_val, val),
                    Err(error) => Err(error),
                },
                _ => Err(RuntimeError::NumberExpected(op.clone())),
            },
            Err(error) => Err(error),
        }
    }

    /// Reads a variable.
    pub fn visit_identifier_expr(&self, op: &Token) -> (r: Result<Value, RuntimeError>)
        ensures
            (value_outcome(r), self.env@) == eval(SpecExpr::Identifier(op@), self.env@),
    {
        self.env.get(op.clone())
    }

    /// Whether a value counts as true in a condition.
    fn is_truthy(&self, val: &Value) -> (r: bool)
        ensures
            r == truthy(val@),
    {
        val.is_truthy()
    }

    /// Runs the branch of an `if` statement that its condition selects.
    pub fn visit_if_stmt(
        &mut self,
        condition: &Expr,
        then_branch: &Stmt,
        else_branch: &Option<Box<Stmt>>,
    ) -> (r: Result<(), RuntimeError>)
        ensures
            (unit_outcome(r), final(self)@) == exec(
                SpecStmt::If(
                    condition@,
                    Box::new(then_branch@),
                    match else_branch {
                        Some(branch) => Some(Box::new(branch@)),
                        None => None,
                    },
                ),
                old(self)@,
            ),
            old(self).env.distinct() ==> final(self).env.distinct(),
        decreases
                old(self).budget,
                1 + stmt_weight(then_branch@) + match else_branch {
                    Some(branch) => stmt_weight(branch@),
                    None => 0,
                },
                0nat,
    {
        let cond_val = match self.evaluate(condition) {
            Ok(val) => val,
            Err(error) => return Err(error),
        };
        if self.is_truthy(&cond_val) {
            self.execute(then_branch)
        } else {
            match else_branch {
                Some(else_stmt) => self.execute(else_stmt),
                None => Ok(()),
            }
        }
    }

    /// Evaluates a prefix expression.
    pub fn visit_unary_expr(&mut self, op: &Token, e: &Expr) -> (r: Result<Value, RuntimeError>)
        ensures
            (value_outcome(r), final(self).env@) == eval(
                SpecExpr::Unary(op@, Box::new(e@)),
                old(self).env@,
            ),
            final(self).output == old(self).output,
            final(self).budget == old(self).budget,
            old(self).env.distinct() ==> final(self).env.distinct(),
        decreases expr_weight(e@) + 1, 0nat,
    {
        match self.evaluate(e) {
            Ok(val) => apply_unary(op, val),
            Err(error) => Err(error),
        }
    }

    /// The value of a literal.
    pub fn visit_literal_expr(&self, lit: &Literal) -> (value: Value)
        ensures
            value@ == literal_value(lit@),
    {
        Value::of_literal(lit)
    }

    /// Evaluates the expression and appends its value to the output; `nil`
    /// cannot be printed.
    fn visit_print_stmt(&mut self, expr: &Expr) -> (r: Result<(), RuntimeError>)
        ensures
            (unit_outcome(r), final(self)@) == exec(SpecStmt::Print(expr@), old(self)@),
            old(self).env.distinct() ==> final(self).env.distinct(),
    {
        match self.evaluate(expr) {
            Ok(val) => match val {
                Value::Nil => Err(RuntimeError::PrintNil),
                _ => {
                    self.output.push(val);
                    proof {
                        assert(value_views(self.output@) =~= value_views(old(self).output@).push(
                            val@,
                        ));
                    }
                    Ok(())
                },
            },
            Err(error) => Err(error),
        }
    }

    /// Evaluates the initializer and defines the name in the innermost scope.
    fn visit_var_stmt(&mut self, name: &String, expr: &Expr) -> (r: Result<(), RuntimeError>)
        ensures
            (unit_outcome(r), final(self)@) == exec(SpecStmt::Var(name@, expr@), old(self)@),
            old(self).env.distinct() ==> final(self).env.distinct(),
    {
        let value = match self.evaluate(expr) {
            Ok(val) => val,
            Err(error) => return Err(error),
        };
        self.env.define(name.clone(), value);
        Ok(())
    }

    /// Evaluates the right-hand side and rebinds the variable; the value of
    /// the assignment is the value assigned.
    fn visit_assign_expr(&mut self, tok: &Token, e: &Expr) -> (r: Result<Value, RuntimeError>)
        ensures
            (value_outcome(r), final(self).env@) == eval(
                SpecExpr::Assign(tok@, Box::new(e@)),
                old(self).env@,
            ),
            final(self).output == old(self).output,
            final(self).budget == old(self).budget,
            old(self).env.distinct() ==> final(self).env.distinct(),
        decreases expr_weight(e@) + 1, 0nat,
    {
        let value = match self.evaluate(e) {
            Ok(val) => val,
            Err(error) => return Err(error),
        };
        match self.env.assign(tok.clone(), value.clone()) {
            Ok(()) => Ok(value),
            Err(error) => Err(error),
        }
    }

    /// Evaluates a logical expression: the right operand only where the left
    /// one does not decide.
    fn visit_logical_expr(&mut self, left: &Expr, op: &Token, right: &Expr) -> (r: Result<
        Value,
        RuntimeError,
    >)
        ensures
            (value_outcome(r), final(self).env@) == eval(
                SpecExpr::Logical(Box::new(left@), op@, Box::new(right@)),
                old(self).env@,
            ),
            final(self).output == old(self).output,
            final(self).budget == old(self).budget,
            old(self).env.distinct() ==> final(self).env.distinct(),
        decreases expr_weight(left@) + expr_weight(right@) + 1, 0nat,
    {
        let left = match self.evaluate(left) {
            Ok(val) => val,
            Err(error) => return Err(error),
        };
        if op.tok_type == TokenType::Or {
            if self.is_truthy(&left) {
                return Ok(left);
            }
        } else {
            if !self.is_truthy(&left) {
                return Ok(left);
            }
        }
        self.evaluate(right)
    }

    /// Opens an empty scope inside the current one.
    fn enter_scope(&mut self)
        ensures
            final(self)@ == (SpecState {
                scopes: seq![Map::empty()] + old(self).env@,
                ..old(self)@
            }),
            old(self).env.distinct() ==> final(self).env.distinct(),
    {
        let mut outer = Environment::new(None);
        core::mem::swap(&mut self.env, &mut outer);
        self.env = Environment::new(Some(Box::new(outer)));
        proof {
            self.env.lemma_scopes();
            assert(self.env@ =~= seq![Map::empty()] + old(self).env@);
        }
    }

    /// Closes the innermost scope and makes the one around it current.
    fn leave_scope(&mut self)
        requires
            old(self).env@.len() >= 2,
        ensures
            final(self)@ == (SpecState { scopes: old(self).env@.drop_first(), ..old(self)@ }),
            old(self).env.distinct() ==> final(self).env.distinct(),
    {
        proof {
            self.env.lemma_scopes();
        }
        let mut inner = Environment::new(None);
        core::mem::swap(&mut self.env, &mut inner);
        match inner.enclosing {
            Some(outer) => {
                self.env = *outer;
            },
            None => {},
        }
    }

    /// Runs the statements of a block in a scope of their own. The scope is
    /// closed again on every way out, the first failure included.
    fn visit_block_stmt(&mut self, statements: &Vec<Stmt>) -> (r: Result<(), RuntimeError>)
        ensures
            (unit_outcome(r), final(self)@) == exec(
                SpecStmt::Block(stmt_views(statements@)),
                old(self)@,
            ),
            old(self).env.distinct() ==> final(self).env.distinct(),
        decreases old(self).budget, 1 + weight_from(stmt_views(statements@), 0), 0nat,
    {
        let ghost block = stmt_views(statements@);
        proof {
            self.env.lemma_scopes();
        }
        self.enter_scope();
        let ghost inner = self@;
        let mut outcome: Result<(), RuntimeError> = Ok(());
        let mut i: usize = 0;
        while i < statements.len()
            invariant_except_break
                outcome is Ok,
                exec_from(block, 0, inner) == exec_from(block, i as int, self@),
            invariant
                i <= statements.len(),
                block == stmt_views(statements@),
                self.budget <= old(self).budget,
                self.env@.len() == inner.scopes.len(),
                inner.scopes.len() >= 2,
                old(self).env.distinct() ==> self.env.distinct(),
            ensures
                (unit_outcome(outcome), self@) == exec_from(block, 0, inner),
            decreases statements.len() - i,
        {
            let ghost before = self@;
            proof {
                lemma_weight_from(block, 0, i as int);
                lemma_exec_frame(block[i as int], before);
            }
            match self.execute(&statements[i]) {
                Err(error) => {
                    outcome = Err(error);
                    break;
                },
                Ok(()) => {},
            }
            i += 1;
        }
        proof {
            lemma_exec_from_frame(block, 0, inner);
        }
        self.leave_scope();
        outcome
    }

    /// Runs the body for as long as the condition is true. The condition is
    /// evaluated anew before every iteration, and every iteration takes one
    /// unit of the budget.
    fn visit_while(&mut self, condition: &Expr, body: &Stmt) -> (r: Result<(), RuntimeError>)
        ensures
            (unit_outcome(r), final(self)@) == exec(
                SpecStmt::While(condition@, Box::new(body@)),
                old(self)@,
            ),
            old(self).env.distinct() ==> final(self).env.distinct(),
        decreases old(self).budget, 1 + stmt_weight(body@), 0nat,
    {
        let ghost whole = SpecStmt::While(condition@, Box::new(body@));
        proof {
            self.env.lemma_scopes();
        }
        loop
            invariant
                whole == SpecStmt::While(condition@, Box::new(body@)),
                exec(whole, old(self)@) == exec(whole, self@),
                self.budget <= old(self).budget,
                self.env@.len() > 0,
                old(self).env.distinct() ==> self.env.distinct(),
            decreases self.budget,
        {
            proof {
                lemma_eval_keeps_depth(condition@, self.env@);
            }
            let cond = match self.evaluate(condition) {
                Ok(val) => val,
                Err(error) => return Err(error),
            };
            if !self.is_truthy(&cond) {
                return Ok(());
            }
            if self.budget == 0 {
                return Err(RuntimeError::BudgetExhausted);
            }
            self.budget = self.budget - 1;
            proof {
                lemma_exec_frame(body@, self@);
            }
            match self.execute(body) {
                Err(error) => return Err(error),
                Ok(()) => {},
            }
        }
    }

    /// Runs the statements of a program in order, up to the first that
    /// fails.
    pub fn interpret(&mut self, statements: &Vec<Stmt>) -> (r: Result<(), RuntimeError>)
        ensures
            (unit_outcome(r), final(self)@) == exec_all(stmt_views(statements@), old(self)@),
            old(self).env.distinct() ==> final(self).env.distinct(),
    {
        let ghost program = stmt_views(statements@);
        proof {
            self.env.lemma_scopes();
        }
        let mut i: usize = 0;
        while i < statements.len()
            invariant
                i <= statements.len(),
                program == stmt_views(statements@),
                self.env@.len() > 0,
                old(self).env.distinct() ==> self.env.distinct(),
                exec_from(program, 0, old(self)@) == exec_from(program, i as int, self@),
            decreases statements.len() - i,
        {
            proof {
                lemma_exec_frame(program[i as int], self@);
            }
            match self.execute(&statements[i]) {
                Err(error) => {
                    return Err(error);
                },
                Ok(()) => {},
            }
            i += 1;
        }
        Ok(())
    }

    /// Runs one statement.
    pub fn execute(&mut self, stmt: &Stmt) -> (r: Result<(), RuntimeError>)
        ensures
            (unit_outcome(r), final(self)@) == exec(stmt@, old(self)@),
            old(self).env.distinct() ==> final(self).env.distinct(),
        decreases old(self).budget, stmt_weight(stmt@), 1nat,
    {
        match stmt {
            Stmt::Print(expr) => self.visit_print_stmt(expr),
            Stmt::Var(name, expr) => self.visit_var_stmt(name, expr),
            Stmt::Block(exprs) => {
                proof {
                    lemma_block_view(*exprs);
                }
                self.visit_block_stmt(exprs)
            },
            Stmt::If(condition, then_branch, else_branch) => {
                self.visit_if_stmt(condition, then_branch, else_branch)
            },
            Stmt::While(condition, body) => self.visit_while(condition, body),
            Stmt::Expr(expr) => match expr {
                Expr::Assign(tok, e) => {
                    match self.visit_assign_expr(tok, e) {
                        Err(error) => return Err(error),
                        _ => (),
                    }
                    Ok(())
                },
                _ => Err(RuntimeError::UnsupportedStatement),
            },
        }
    }
}

} // verus!
