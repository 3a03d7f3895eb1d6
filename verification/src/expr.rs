//! The syntax tree: expressions and statements, each with the mathematical
//! tree that it stands for.

use crate::token::{Literal, SpecLiteral, SpecToken, Token};
use vstd::prelude::*;

verus! {

/// An expression. Every node owns its children.
#[derive(Debug)]
pub enum Expr {
    Literal(Literal),
    Unary(Token, Box<Expr>),
    Binary(Box<Expr>, Token, Box<Expr>),
    Logical(Box<Expr>, Token, Box<Expr>),
    Grouping(Box<Expr>),
    Identifier(Token),
    Assign(Token, Box<Expr>),
}

/// The mathematical value of an [`Expr`].
pub enum SpecExpr {
    Literal(SpecLiteral),
    Unary(SpecToken, Box<SpecExpr>),
    Binary(Box<SpecExpr>, SpecToken, Box<SpecExpr>),
    Logical(Box<SpecExpr>, SpecToken, Box<SpecExpr>),
    Grouping(Box<SpecExpr>),
    Identifier(SpecToken),
    Assign(SpecToken, Box<SpecExpr>),
}

impl Expr {
    /// The tree that this expression stands for.
    pub open spec fn model(&self) -> SpecExpr
        decreases self,
    {
        match self {
            Expr::Literal(literal) => SpecExpr::Literal(literal@),
            Expr::Unary(op, operand) => SpecExpr::Unary(op@, Box::new(operand.model())),
            Expr::Binary(left, op, right) => SpecExpr::Binary(
                Box::new(left.model()),
                op@,
                Box::new(right.model()),
            ),
            Expr::Logical(left, op, right) => SpecExpr::Logical(
                Box::new(left.model()),
                op@,
                Box::new(right.model()),
            ),
            Expr::Grouping(inner) => SpecExpr::Grouping(Box::new(inner.model())),
            Expr::Identifier(name) => SpecExpr::Identifier(name@),
            Expr::Assign(name, value) => SpecExpr::Assign(name@, Box::new(value.model())),
        }
    }
}

impl View for Expr {
    type V = SpecExpr;

    open spec fn view(&self) -> SpecExpr {
        self.model()
    }
}

/// A statement.
#[derive(Debug)]
pub enum Stmt {
    Print(Expr),
    Expr(Expr),
    Var(String, Expr),
    Block(Vec<Stmt>),
    If(Expr, Box<Stmt>, Option<Box<Stmt>>),
    While(Expr, Box<Stmt>),
}

/// The mathematical value of a [`Stmt`].
pub enum SpecStmt {
    Print(SpecExpr),
    Expr(SpecExpr),
    Var(Seq<char>, SpecExpr),
    Block(Seq<SpecStmt>),
    If(SpecExpr, Box<SpecStmt>, Option<Box<SpecStmt>>),
    While(SpecExpr, Box<SpecStmt>),
}

impl Stmt {
    /// The tree that this statement stands for.
    pub open spec fn model(&self) -> SpecStmt
        decreases self,
    {
        match self {
            Stmt::Print(value) => SpecStmt::Print(value@),
            Stmt::Expr(value) => SpecStmt::Expr(value@),
            Stmt::Var(name, initializer) => SpecStmt::Var(name@, initializer@),
            Stmt::Block(statements) => SpecStmt::Block(
                Seq::new(
                    statements@.len(),
                    |i: int|
                        if 0 <= i < statements@.len() {
                            statements@[i].model()
                        } else {
                            SpecStmt::Block(Seq::empty())
                        },
                ),
            ),
            Stmt::If(condition, then_branch, else_branch) => SpecStmt::If(
                condition@,
                Box::new(then_branch.model()),
                match else_branch {
                    Some(branch) => Some(Box::new(branch.model())),
                    None => None,
                },
            ),
            Stmt::While(condition, body) => SpecStmt::While(condition@, Box::new(body.model())),
        }
    }
}

impl View for Stmt {
    type V = SpecStmt;

    open spec fn view(&self) -> SpecStmt {
        self.model()
    }
}

/// The views of a sequence of statements, in order.
pub open spec fn stmt_views(statements: Seq<Stmt>) -> Seq<SpecStmt> {
    Seq::new(statements.len(), |i: int| statements[i]@)
}

/// A block stands for the block of the views of its statements.
pub proof fn lemma_block_view(statements: Vec<Stmt>)
    ensures
        Stmt::Block(statements)@ == SpecStmt::Block(stmt_views(statements@)),
{
    assert(Stmt::Block(statements)@->Block_0 =~= stmt_views(statements@));
}

/// The number of nodes of an expression.
pub open spec fn expr_weight(expr: SpecExpr) -> nat
    decreases expr,
{
    match expr {
        SpecExpr::Literal(_) => 1,
        SpecExpr::Unary(_, operand) => 1 + expr_weight(*operand),
        SpecExpr::Binary(left, _, right) => 1 + expr_weight(*left) + expr_weight(*right),
        SpecExpr::Logical(left, _, right) => 1 + expr_weight(*left) + expr_weight(*right),
        SpecExpr::Grouping(inner) => 1 + expr_weight(*inner),
        SpecExpr::Identifier(_) => 1,
        SpecExpr::Assign(_, value) => 1 + expr_weight(*value),
    }
}

/// The number of nodes of a statement, the statements inside it counted in.
pub open spec fn stmt_weight(stmt: SpecStmt) -> nat
    decreases stmt,
{
    match stmt {
        SpecStmt::Print(_) => 1,
        SpecStmt::Expr(_) => 1,
        SpecStmt::Var(_, _) => 1,
        SpecStmt::Block(statements) => 1 + weight_from(statements, 0),
        SpecStmt::If(_, then_branch, else_branch) => 1 + stmt_weight(*then_branch) + match else_branch {
            Some(branch) => stmt_weight(*branch),
            None => 0,
        },
        SpecStmt::While(_, body) => 1 + stmt_weight(*body),
    }
}

/// The number of nodes of the statements from index `from` on.
pub open spec fn weight_from(statements: Seq<SpecStmt>, from: int) -> nat
    decreases statements, statements.len() - from,
{
    if 0 <= from < statements.len() {
        stmt_weight(statements[from]) + weight_from(statements, from + 1)
    } else {
        0
    }
}

/// A statement of a list weighs no more than the list from any index up to
/// its own.
pub proof fn lemma_weight_from(statements: Seq<SpecStmt>, from: int, i: int)
    requires
        0 <= from <= i < statements.len(),
    ensures
        stmt_weight(statements[i]) <= weight_from(statements, from),
    decreases i - from,
{
    if from < i {
        lemma_weight_from(statements, from + 1, i);
    }
}

} // verus!
