//! The parser: one token of lookahead, no backtracking, no recovery. Every
//! rule is proved to return what the grammar says of the tokens at the
//! cursor.

use crate::expr::{lemma_block_view, stmt_views, Expr, SpecExpr, SpecStmt, Stmt};
use crate::grammar::{
    after, at_end, check, check_any, ends_with_eof, for_loop, join, parse_assignment,
    parse_block, parse_closed_expression, parse_expression, parse_expression_statement,
    parse_for, parse_for_clause, parse_for_initializer, parse_if, parse_level, parse_more,
    parse_operand, parse_primary, parse_print, parse_program, parse_statement, parse_unary,
    parse_var, parse_while, remaining, Expected, Failure, Level, SpecSyntaxError,
};
use crate::token::{token_views, Literal, SpecToken, Token, TokenType};
use vstd::prelude::*;

verus! {

/// A syntax error: what the parser asked for, and the token it found in its
/// place.
#[derive(Debug)]
pub struct SyntaxError {
    pub expected: Expected,
    pub found: Token,
}

impl View for SyntaxError {
    type V = SpecSyntaxError;

    open spec fn view(&self) -> SpecSyntaxError {
        SpecSyntaxError { expected: self.expected, found: self.found@ }
    }
}

/// A parser: the tokens and a cursor into them.
#[derive(Debug)]
pub struct Parser {
    /// The index of the next token to read.
    pub current: usize,
    /// The tokens to parse. The last one is the end-of-input token.
    pub tokens: Vec<Token>,
}

/// The statements parsed so far, put before the outcome of parsing the rest
/// of a block.
spec fn block_after(
    done: Seq<SpecStmt>,
    count: nat,
    rest: Result<(Seq<SpecStmt>, nat), Failure>,
) -> Result<(Seq<SpecStmt>, nat), Failure> {
    match rest {
        Ok((statements, taken)) => Ok((done + statements, count + taken)),
        Err(error) => Err(error),
    }
}

/// The statements parsed so far, put before the outcome of parsing the rest
/// of a program.
spec fn program_after(
    done: Seq<SpecStmt>,
    rest: Result<Seq<SpecStmt>, Failure>,
) -> Result<Seq<SpecStmt>, Failure> {
    match rest {
        Ok(statements) => Ok(done + statements),
        Err(error) => Err(error),
    }
}

/// The views of a statement list grow with the list.
proof fn lemma_stmt_views_push(statements: Seq<Stmt>, statement: Stmt)
    ensures
        stmt_views(statements.push(statement)) == stmt_views(statements) + seq![statement@],
{
    assert(stmt_views(statements.push(statement)) =~= stmt_views(statements) + seq![statement@]);
}

impl Parser {
    /// The tokens as the grammar sees them.
    pub open spec fn toks(&self) -> Seq<SpecToken> {
        token_views(self.tokens@)
    }

    /// What holds of a parser between calls: the tokens end with the
    /// end-of-input token, and the cursor is on a token.
    pub open spec fn well_formed(&self) -> bool {
        &&& ends_with_eof(self.toks())
        &&& self.current < self.tokens@.len()
    }

    /// Whether the parser and the result of an expression rule agree with
    /// what the grammar says: the tree is returned and the cursor stands
    /// after its tokens, or the error is returned.
    pub open spec fn yields_expr(
        &self,
        before: Parser,
        goal: Result<(SpecExpr, nat), Failure>,
        r: Result<Expr, SyntaxError>,
    ) -> bool {
        &&& self.tokens == before.tokens
        &&& self.well_formed()
        &&& match goal {
            Ok((node, taken)) => r matches Ok(found) && found@ == node && self.current
                == before.current + taken,
            Err(failure) => r matches Err(found) && found@ == failure.error && self.current
                == failure.at,
        }
    }

    /// The same of a statement rule that was entered `skipped` tokens
    /// before the position that the grammar counts from.
    pub open spec fn yields_stmt(
        &self,
        before: Parser,
        skipped: nat,
        goal: Result<(SpecStmt, nat), Failure>,
        r: Result<Stmt, SyntaxError>,
    ) -> bool {
        &&& self.tokens == before.tokens
        &&& self.well_formed()
        &&& match goal {
            Ok((node, taken)) => r matches Ok(found) && found@ == node && self.current
                == before.current + skipped + taken,
            Err(failure) => r matches Err(found) && found@ == failure.error && self.current
                == failure.at,
        }
    }

    /// A parser at the first of `tokens`.
    pub fn new(tokens: Vec<Token>) -> (parser: Parser)
        requires
            ends_with_eof(token_views(tokens@)),
        ensures
            parser.well_formed(),
            parser.tokens == tokens,
            parser.current == 0,
    {
        Parser { current: 0, tokens }
    }

    /// The token at the cursor.
    fn peek(&self) -> (token: &Token)
        requires
            self.well_formed(),
        ensures
            *token == self.tokens@[self.current as int],
    {
        &self.tokens[self.current]
    }

    /// Whether the token at the cursor is the end-of-input token.
    pub fn is_at_end(&self) -> (r: bool)
        requires
            self.well_formed(),
        ensures
            r == at_end(self.toks(), self.current as int),
    {
        self.peek().tok_type == TokenType::Eof
    }

    /// Whether the token at the cursor is of category `_ty`.
    fn check(&self, _ty: TokenType) -> (r: bool)
        requires
            self.well_formed(),
        ensures
            r == check(self.toks(), self.current as int, _ty),
    {
        if self.is_at_end() {
            return false;
        }
        self.peek().tok_type == _ty
    }

    /// The token before the cursor.
    fn previous(&self) -> (token: Token)
        requires
            0 < self.current <= self.tokens@.len(),
        ensures
            token == self.tokens@[self.current - 1],
    {
        self.tokens[self.current - 1].clone()
    }

    /// Moves the cursor past the token under it, unless that is the
    /// end-of-input token, and returns the token before the cursor.
    fn advance(&mut self) -> (token: Token)
        requires
            old(self).well_formed(),
            old(self).current > 0 || !at_end(old(self).toks(), old(self).current as int),
        ensures
            final(self).well_formed(),
            final(self).tokens == old(self).tokens,
            final(self).current == if at_end(old(self).toks(), old(self).current as int) {
                old(self).current as int
            } else {
                old(self).current + 1
            },
            token == old(self).tokens@[final(self).current - 1],
    {
        if !self.is_at_end() {
            proof {
                assert(self.tokens.len() <= usize::MAX);
            }
            self.current += 1
        }
        self.previous()
    }

    /// Takes the token at the cursor if it is of category `ty`.
    fn matches(&mut self, ty: TokenType) -> (r: bool)
        requires
            old(self).well_formed(),
        ensures
            final(self).well_formed(),
            final(self).tokens == old(self).tokens,
            r == check(old(self).toks(), old(self).current as int, ty),
            final(self).current == old(self).current + if r {
                1int
            } else {
                0int
            },
    {
        if self.check(ty) {
            self.advance();
            return true;
        }
        false
    }

    /// Takes the token at the cursor if it is of one of the categories
    /// `types`.
    fn match_one_of(&mut self, types: Vec<TokenType>) -> (r: bool)
        requires
            old(self).well_formed(),
        ensures
            final(self).well_formed(),
            final(self).tokens == old(self).tokens,
            r == check_any(old(self).toks(), old(self).current as int, types@),
            final(self).current == old(self).current + if r {
                1int
            } else {
                0int
            },
    {
        let mut i: usize = 0;
        while i < types.len()
            invariant
                i <= types.len(),
                *self == *old(self),
                self.well_formed(),
                forall|j: int|
                    0 <= j < i ==> !check(self.toks(), self.current as int, #[trigger] types@[j]),
            decreases types.len() - i,
        {
            if self.matches(types[i]) {
                proof {
                    assert(types@[i as int] == old(self).toks()[old(self).current as int].tok_type);
                }
                return true;
            }
            i += 1;
        }
        false
    }

    /// Takes the token at the cursor if it is of category `ty`; fails with
    /// the token found where it is not.
    fn consume(&mut self, ty: TokenType, expected: Expected) -> (r: Result<Token, SyntaxError>)
        requires
            old(self).well_formed(),
        ensures
            final(self).well_formed(),
            final(self).tokens == old(self).tokens,
            if check(old(self).toks(), old(self).current as int, ty) {
                &&& r matches Ok(token)
                &&& token == old(self).tokens@[old(self).current as int]
                &&& final(self).current == old(self).current + 1
            } else {
                &&& r matches Err(error)
                &&& error@ == (SpecSyntaxError {
                    expected,
                    found: old(self).toks()[old(self).current as int],
                })
                &&& final(self).current == old(self).current
            },
    {
        if self.check(ty) {
            return Ok(self.advance());
        } else {
            return Err(SyntaxError { expected, found: self.peek().clone() });
        }
    }

    /// A primary expression.
    fn primary(&mut self) -> (r: Result<Expr, SyntaxError>)
        requires
            old(self).well_formed(),
        ensures
            final(self).yields_expr(
                *old(self),
                parse_primary(old(self).toks(), old(self).current as int),
                r,
            ),
        decreases remaining(old(self).toks(), old(self).current as int), 0nat,
    {
        if self.matches(TokenType::False) {
            return Ok(Expr::Literal(Literal::False));
        }
        if self.matches(TokenType::True) {
            return Ok(Expr::Literal(Literal::True));
        }
        if self.matches(TokenType::Nil) {
            return Ok(Expr::Literal(Literal::Nil));
        }
        if self.match_one_of(vec![TokenType::Number, TokenType::String]) {
            return Ok(Expr::Literal(self.previous().literal.clone()));
        }
        if self.matches(TokenType::Identifier) {
            return Ok(Expr::Identifier(self.previous()));
        }
        if self.matches(TokenType::LeftParen) {
            let expr = match self.expression() {
                Ok(expr) => Box::new(expr),
                Err(error) => return Err(error),
            };
            match self.consume(TokenType::RightParen, Expected::RightParenAfterExpression) {
                Ok(_) => {},
                Err(error) => return Err(error),
            }
            return Ok(Expr::Grouping(expr));
        } else {
            return Err(SyntaxError { expected: Expected::Expression, found: self.peek().clone() });
        }
    }

    /// A prefix expression.
    fn unary(&mut self) -> (r: Result<Expr, SyntaxError>)
        requires
            old(self).well_formed(),
        ensures
            final(self).yields_expr(
                *old(self),
                parse_unary(old(self).toks(), old(self).current as int),
                r,
            ),
        decreases remaining(old(self).toks(), old(self).current as int), 1nat,
    {
        if self.match_one_of(vec![TokenType::Minus, TokenType::Bang]) {
            let op = self.previous();
            let right = match self.unary() {
                Ok(expr) => Box::new(expr),
                Err(error) => return Err(error),
            };
            return Ok(Expr::Unary(op, right));
        }
        self.primary()
    }

    /// A product: prefix expressions joined by `/`, `*` and `%`.
    fn factor(&mut self) -> (r: Result<Expr, SyntaxError>)
        requires
            old(self).well_formed(),
        ensures
            final(self).yields_expr(
                *old(self),
                parse_level(old(self).toks(), old(self).current as int, Level::Factor),
                r,
            ),
        decreases remaining(old(self).toks(), old(self).current as int), 5nat,
    {
        let ghost toks = self.toks();
        let ghost goal = parse_level(toks, self.current as int, Level::Factor);
        let mut expr = match self.unary() {
            Ok(expr) => expr,
            Err(error) => return Err(error),
        };
        loop
            invariant
                self.well_formed(),
                self.tokens == old(self).tokens,
                toks == self.toks(),
                old(self).current <= self.current,
                goal == parse_level(old(self).toks(), old(self).current as int, Level::Factor),
                after(
                    (self.current - old(self).current) as nat,
                    parse_more(toks, self.current as int, Level::Factor, expr@),
                ) == goal,
            decreases remaining(toks, self.current as int),
        {
            let ghost at = self.current as int;
            let ghost left = expr@;
            if !self.match_one_of(vec![TokenType::Slash, TokenType::Star, TokenType::Modulo]) {
                return Ok(expr);
            }
            let op = self.previous();
            proof {
                assert(op@ == toks[at]);
                assert(parse_operand(toks, at + 1, Level::Factor) == parse_unary(toks, at + 1));
            }
            let right = match self.unary() {
                Ok(expr) => Box::new(expr),
                Err(error) => {
                    proof {
                        assert(parse_more(toks, at, Level::Factor, left) is Err);
                    }
                    return Err(error);
                },
            };
            let boxed = Box::new(expr);
            expr = Expr::Binary(boxed, op, right);
            proof {
                let taken = (self.current - at - 1) as nat;
                assert(expr@ == join(Level::Factor, left, toks[at], right@));
                assert(parse_more(toks, at, Level::Factor, left) == after(
                    1 + taken,
                    parse_more(toks, at + 1 + taken, Level::Factor, expr@),
                ));
            }
        }
    }

    /// A sum: products joined by `-` and `+`.
    fn term(&mut self) -> (r: Result<Expr, SyntaxError>)
        requires
            old(self).well_formed(),
        ensures
            final(self).yields_expr(
                *old(self),
                parse_level(old(self).toks(), old(self).current as int, Level::Term),
                r,
            ),
        decreases remaining(old(self).toks(), old(self).current as int), 8nat,
    {
        let ghost toks = self.toks();
        let ghost goal = parse_level(toks, self.current as int, Level::Term);
        let mut expr = match self.factor() {
            Ok(expr) => expr,
            Err(error) => return Err(error),
        };
        loop
            invariant
                self.well_formed(),
                self.tokens == old(self).tokens,
                toks == self.toks(),
                old(self).current <= self.current,
                goal == parse_level(old(self).toks(), old(self).current as int, Level::Term),
                after(
                    (self.current - old(self).current) as nat,
                    parse_more(toks, self.current as int, Level::Term, expr@),
                ) == goal,
            decreases remaining(toks, self.current as int),
        {
            let ghost at = self.current as int;
            let ghost left = expr@;
            if !self.match_one_of(vec![TokenType::Minus, TokenType::Plus]) {
                return Ok(expr);
            }
            let op = self.previous();
            proof {
                assert(op@ == toks[at]);
                assert(parse_operand(toks, at + 1, Level::Term) == parse_level(
                    toks,
                    at + 1,
                    Level::Factor,
                ));
            }
            let right = match self.factor() {
                Ok(expr) => Box::new(expr),
                Err(error) => {
                    proof {
                        assert(parse_more(toks, at, Level::Term, left) is Err);
                    }
                    return Err(error);
                },
            };
            let boxed = Box::new(expr);
            expr = Expr::Binary(boxed, op, right);
            proof {
                let taken = (self.current - at - 1) as nat;
                assert(expr@ == join(Level::Term, left, toks[at], right@));
                assert(parse_more(toks, at, Level::Term, left) == after(
                    1 + taken,
                    parse_more(toks, at + 1 + taken, Level::Term, expr@),
                ));
            }
        }
    }

    /// A comparison: sums joined by `>`, `>=`, `<` and `<=`.
    fn comparison(&mut self) -> (r: Result<Expr, SyntaxError>)
        requires
            old(self).well_formed(),
        ensures
            final(self).yields_expr(
                *old(self),
                parse_level(old(self).toks(), old(self).current as int, Level::Comparison),
                r,
            ),
        decreases remaining(old(self).toks(), old(self).current as int), 11nat,
    {
        let ghost toks = self.toks();
        let ghost goal = parse_level(toks, self.current as int, Level::Comparison);
        let mut expr = match self.term() {
            Ok(expr) => expr,
            Err(error) => return Err(error),
        };
        loop
            invariant
                self.well_formed(),
                self.tokens == old(self).tokens,
                toks == self.toks(),
                old(self).current <= self.current,
                goal == parse_level(old(self).toks(), old(self).current as int, Level::Comparison),
                after(
                    (self.current - old(self).current) as nat,
                    parse_more(toks, self.current as int, Level::Comparison, expr@),
                ) == goal,
            decreases remaining(toks, self.current as int),
        {
            let ghost at = self.current as int;
            let ghost left = expr@;
            if !self.match_one_of(vec![TokenType::Greater,
                TokenType::GreaterEqual,
                TokenType::Less,
                TokenType::LessEqual,
            ]) {
                return Ok(expr);
            }
            let op = self.previous();
            proof {
                assert(op@ == toks[at]);
                assert(parse_operand(toks, at + 1, Level::Comparison) == parse_level(
                    toks,
                    at + 1,
                    Level::Term,
                ));
            }
            let right = match self.term() {
                Ok(expr) => Box::new(expr),
                Err(error) => {
                    proof {
                        assert(parse_more(toks, at, Level::Comparison, left) is Err);
                    }
                    return Err(error);
                },
            };
            let boxed = Box::new(expr);
            expr = Expr::Binary(boxed, op, right);
            proof {
                let taken = (self.current - at - 1) as nat;
                assert(expr@ == join(Level::Comparison, left, toks[at], right@));
                assert(parse_more(toks, at, Level::Comparison, left) == after(
                    1 + taken,
                    parse_more(toks, at + 1 + taken, Level::Comparison, expr@),
                ));
            }
        }
    }

    /// An equality: comparisons joined by `==` and `!=`.
    fn equality(&mut self) -> (r: Result<Expr, SyntaxError>)
        requires
            old(self).well_formed(),
        ensures
            final(self).yields_expr(
                *old(self),
                parse_level(old(self).toks(), old(self).current as int, Level::Equality),
                r,
            ),
        decreases remaining(old(self).toks(), old(self).current as int), 14nat,
    {
        let ghost toks = self.toks();
        let ghost goal = parse_level(toks, self.current as int, Level::Equality);
        let mut expr = match self.comparison() {
            Ok(expr) => expr,
            Err(error) => return Err(error),
        };
        loop
            invariant
                self.well_formed(),
                self.tokens == old(self).tokens,
                toks == self.toks(),
                old(self).current <= self.current,
                goal == parse_level(old(self).toks(), old(self).current as int, Level::Equality),
                after(
                    (self.current - old(self).current) as nat,
                    parse_more(toks, self.current as int, Level::Equality, expr@),
                ) == goal,
            decreases remaining(toks, self.current as int),
        {
            let ghost at = self.current as int;
            let ghost left = expr@;
            if !self.match_one_of(vec![TokenType::EqualEqual, TokenType::BangEqual]) {
                return Ok(expr);
            }
            let op = self.previous();
            proof {
                assert(op@ == toks[at]);
                assert(parse_operand(toks, at + 1, Level::Equality) == parse_level(
                    toks,
                    at + 1,
                    Level::Comparison,
                ));
            }
            let right = match self.comparison() {
                Ok(expr) => Box::new(expr),
                Err(error) => {
                    proof {
                        assert(parse_more(toks, at, Level::Equality, left) is Err);
                    }
                    return Err(error);
                },
            };
            let boxed = Box::new(expr);
            expr = Expr::Binary(boxed, op, right);
            proof {
                let taken = (self.current - at - 1) as nat;
                assert(expr@ == join(Level::Equality, left, toks[at], right@));
                assert(parse_more(toks, at, Level::Equality, left) == after(
                    1 + taken,
                    parse_more(toks, at + 1 + taken, Level::Equality, expr@),
                ));
            }
        }
    }

    /// A conjunction: equalities joined by `and`.
    fn logic_and(&mut self) -> (r: Result<Expr, SyntaxError>)
        requires
            old(self).well_formed(),
        ensures
            final(self).yields_expr(
                *old(self),
                parse_level(old(self).toks(), old(self).current as int, Level::And),
                r,
            ),
        decreases remaining(old(self).toks(), old(self).current as int), 17nat,
    {
        let ghost toks = self.toks();
        let ghost goal = parse_level(toks, self.current as int, Level::And);
        let mut expr = match self.equality() {
            Ok(expr) => expr,
            Err(error) => return Err(error),
        };
        loop
            invariant
                self.well_formed(),
                self.tokens == old(self).tokens,
                toks == self.toks(),
                old(self).current <= self.current,
                goal == parse_level(old(self).toks(), old(self).current as int, Level::And),
                after(
                    (self.current - old(self).current) as nat,
                    parse_more(toks, self.current as int, Level::And, expr@),
                ) == goal,
            decreases remaining(toks, self.current as int),
        {
            let ghost at = self.current as int;
            let ghost left = expr@;
            if !self.match_one_of(vec![TokenType::And]) {
                return Ok(expr);
            }
            let op = self.previous();
            proof {
                assert(op@ == toks[at]);
                assert(parse_operand(toks, at + 1, Level::And) == parse_level(
                    toks,
                    at + 1,
                    Level::Equality,
                ));
            }
            let right = match self.equality() {
                Ok(expr) => Box::new(expr),
                Err(error) => {
                    proof {
                        assert(parse_more(toks, at, Level::And, left) is Err);
                    }
                    return Err(error);
                },
            };
            let boxed = Box::new(expr);
            expr = Expr::Logical(boxed, op, right);
            proof {
                let taken = (self.current - at - 1) as nat;
                assert(expr@ == join(Level::And, left, toks[at], right@));
                assert(parse_more(toks, at, Level::And, left) == after(
                    1 + taken,
                    parse_more(toks, at + 1 + taken, Level::And, expr@),
                ));
            }
        }
    }

    /// A disjunction: conjunctions joined by `or`.
    fn logic_or(&mut self) -> (r: Result<Expr, SyntaxError>)
        requires
            old(self).well_formed(),
        ensures
            final(self).yields_expr(
                *old(self),
                parse_level(old(self).toks(), old(self).current as int, Level::Or),
                r,
            ),
        decreases remaining(old(self).toks(), old(self).current as int), 20nat,
    {
        let ghost toks = self.toks();
        let ghost goal = parse_level(toks, self.current as int, Level::Or);
        let mut expr = match self.logic_and() {
            Ok(expr) => expr,
            Err(error) => return Err(error),
        };
        loop
            invariant
                self.well_formed(),
                self.tokens == old(self).tokens,
                toks == self.toks(),
                old(self).current <= self.current,
                goal == parse_level(old(self).toks(), old(self).current as int, Level::Or),
                after(
                    (self.current - old(self).current) as nat,
                    parse_more(toks, self.current as int, Level::Or, expr@),
                ) == goal,
            decreases remaining(toks, self.current as int),
        {
            let ghost at = self.current as int;
            let ghost left = expr@;
            if !self.match_one_of(vec![TokenType::Or]) {
                return Ok(expr);
            }
            let op = self.previous();
            proof {
                assert(op@ == toks[at]);
                assert(parse_operand(toks, at + 1, Level::Or) == parse_level(
                    toks,
                    at + 1,
                    Level::And,
                ));
            }
            let right = match self.logic_and() {
                Ok(expr) => Box::new(expr),
                Err(error) => {
                    proof {
                        assert(parse_more(toks, at, Level::Or, left) is Err);
                    }
                    return Err(error);
                },
            };
            let boxed = Box::new(expr);
            expr = Expr::Logical(boxed, op, right);
            proof {
                let taken = (self.current - at - 1) as nat;
                assert(expr@ == join(Level::Or, left, toks[at], right@));
                assert(parse_more(toks, at, Level::Or, left) == after(
                    1 + taken,
                    parse_more(toks, at + 1 + taken, Level::Or, expr@),
                ));
            }
        }
    }

    /// An assignment, or the disjunction that stands alone. The left side of
    /// `=` must be a variable; the value is parsed before the target is
    /// looked at.
    fn assignment(&mut self) -> (r: Result<Expr, SyntaxError>)
        requires
            old(self).well_formed(),
        ensures
            final(self).yields_expr(
                *old(self),
                parse_assignment(old(self).toks(), old(self).current as int),
                r,
            ),
        decreases remaining(old(self).toks(), old(self).current as int), 30nat,
    {
        let expr = match self.logic_or() {
            Ok(expr) => expr,
            Err(error) => return Err(error),
        };
        if self.matches(TokenType::Equal) {
            let equals = self.previous();
            let value = match self.assignment() {
                Ok(expr) => Box::new(expr),
                Err(error) => return Err(error),
            };
            return match expr {
                Expr::Identifier(name) => Ok(Expr::Assign(name, value)),
                _ => Err(SyntaxError { expected: Expected::AssignmentTarget, found: equals }),
            };
        }
        Ok(expr)
    }

    /// An expression.
    fn expression(&mut self) -> (r: Result<Expr, SyntaxError>)
        requires
            old(self).well_formed(),
        ensures
            final(self).yields_expr(
                *old(self),
                parse_expression(old(self).toks(), old(self).current as int),
                r,
            ),
        decreases remaining(old(self).toks(), old(self).current as int), 31nat,
    {
        self.assignment()
    }

    /// An expression and the token of category `ty` that closes it.
    fn closed_expression(&mut self, ty: TokenType, expected: Expected) -> (r: Result<
        Expr,
        SyntaxError,
    >)
        requires
            old(self).well_formed(),
        ensures
            final(self).yields_expr(
                *old(self),
                parse_closed_expression(old(self).toks(), old(self).current as int, ty, expected),
                r,
            ),
    {
        proof {
            reveal(parse_closed_expression);
        }
        let expr = match self.expression() {
            Ok(expr) => expr,
            Err(error) => return Err(error),
        };
        match self.consume(ty, expected) {
            Ok(_) => Ok(expr),
            Err(error) => Err(error),
        }
    }

    /// An expression statement: an expression and `;`.
    fn expression_statement(&mut self) -> (r: Result<Stmt, SyntaxError>)
        requires
            old(self).well_formed(),
        ensures
            final(self).yields_stmt(
                *old(self),
                0,
                parse_expression_statement(old(self).toks(), old(self).current as int),
                r,
            ),
    {
        proof {
            reveal(parse_expression_statement);
        }
        match self.closed_expression(TokenType::SemiColon, Expected::SemiColonAfterValue) {
            Ok(expr) => Ok(Stmt::Expr(expr)),
            Err(error) => Err(error),
        }
    }

    /// The rest of a `print` statement, after the keyword.
    fn print_statement(&mut self) -> (r: Result<Stmt, SyntaxError>)
        requires
            old(self).well_formed(),
        ensures
            final(self).yields_stmt(
                *old(self),
                0,
                parse_print(old(self).toks(), old(self).current as int),
                r,
            ),
    {
        proof {
            reveal(parse_print);
        }
        match self.closed_expression(TokenType::SemiColon, Expected::SemiColonAfterValue) {
            Ok(expr) => Ok(Stmt::Print(expr)),
            Err(error) => Err(error),
        }
    }

    /// A statement.
    fn statement(&mut self) -> (r: Result<Stmt, SyntaxError>)
        requires
            old(self).well_formed(),
        ensures
            final(self).yields_stmt(
                *old(self),
                1,
                parse_statement(old(self).toks(), old(self).current as int),
                r,
            ),
        decreases remaining(old(self).toks(), old(self).current as int), 1nat,
    {
        proof {
            reveal(parse_expression_statement);
            reveal(parse_closed_expression);
        }
        if self.matches(TokenType::Print) {
            return self.print_statement();
        } else if self.matches(TokenType::Var) {
            return self.var_declaration();
        } else if self.matches(TokenType::LeftBrace) {
            return match self.block() {
                Ok(statements) => {
                    proof {
                        lemma_block_view(statements);
                    }
                    Ok(Stmt::Block(statements))
                },
                Err(error) => Err(error),
            };
        } else if self.matches(TokenType::If) {
            return self.if_statement();
        } else if self.matches(TokenType::While) {
            return self.while_statement();
        } else if self.matches(TokenType::For) {
            return self.for_statement();
        }
        self.expression_statement()
    }

    /// The rest of a `var` declaration, after the keyword.
    fn var_declaration(&mut self) -> (r: Result<Stmt, SyntaxError>)
        requires
            old(self).well_formed(),
        ensures
            final(self).yields_stmt(
                *old(self),
                0,
                parse_var(old(self).toks(), old(self).current as int),
                r,
            ),
    {
        proof {
            reveal(parse_var);
        }
        let name = match self.consume(TokenType::Identifier, Expected::VariableName) {
            Ok(token) => token,
            Err(error) => return Err(error),
        };
        let initializer = match self.matches(TokenType::Equal) {
            true => match self.closed_expression(
                TokenType::SemiColon,
                Expected::SemiColonAfterDeclaration,
            ) {
                Ok(expr) => expr,
                Err(error) => return Err(error),
            },
            false => {
                return Err(
                    SyntaxError { expected: Expected::Initializer, found: self.peek().clone() },
                )
            },
        };
        Ok(Stmt::Var(name.lexme, initializer))
    }

    /// The rest of a block, after the opening brace.
    fn block(&mut self) -> (r: Result<Vec<Stmt>, SyntaxError>)
        requires
            old(self).well_formed(),
        ensures
            final(self).tokens == old(self).tokens,
            final(self).well_formed(),
            match parse_block(old(self).toks(), old(self).current as int) {
                Ok((statements, taken)) => r matches Ok(found) && stmt_views(found@) == statements
                    && final(self).current == old(self).current + taken,
                Err(failure) => r matches Err(found) && found@ == failure.error
                    && final(self).current == failure.at,
            },
        decreases remaining(old(self).toks(), old(self).current as int), 2nat,
    {
        let ghost toks = self.toks();
        let ghost goal = parse_block(toks, self.current as int);
        let mut statements: Vec<Stmt> = Vec::new();
        proof {
            assert(stmt_views(statements@) + parse_block(toks, self.current as int)->Ok_0.0
                =~= parse_block(toks, self.current as int)->Ok_0.0);
        }
        while !self.check(TokenType::RightBrace) && !self.is_at_end()
            invariant
                self.well_formed(),
                self.tokens == old(self).tokens,
                toks == self.toks(),
                old(self).current <= self.current,
                goal == parse_block(old(self).toks(), old(self).current as int),
                block_after(
                    stmt_views(statements@),
                    (self.current - old(self).current) as nat,
                    parse_block(toks, self.current as int),
                ) == goal,
            decreases remaining(toks, self.current as int),
        {
            let ghost before = self.current;
            let ghost done = stmt_views(statements@);
            let statement = match self.statement() {
                Ok(statement) => statement,
                Err(error) => return Err(error),
            };
            proof {
                lemma_stmt_views_push(statements@, statement);
                let rest = parse_block(toks, self.current as int);
                if let Ok((more, taken)) = rest {
                    assert((done + seq![statement@]) + more =~= done + (seq![statement@] + more));
                }
            }
            statements.push(statement);
        }
        proof {
            assert(stmt_views(statements@) + Seq::<SpecStmt>::empty() =~= stmt_views(statements@));
        }
        match self.consume(TokenType::RightBrace, Expected::RightBraceAfterBlock) {
            Ok(_) => Ok(statements),
            Err(error) => Err(error),
        }
    }

    /// The rest of an `if` statement, after the keyword.
    #[verifier::rlimit(30)]
    fn if_statement(&mut self) -> (r: Result<Stmt, SyntaxError>)
        requires
            old(self).well_formed(),
        ensures
            final(self).yields_stmt(
                *old(self),
                0,
                parse_if(old(self).toks(), old(self).current as int),
                r,
            ),
        decreases remaining(old(self).toks(), old(self).current as int), 0nat,
    {
        match self.consume(TokenType::LeftParen, Expected::LeftParenAfterIf) {
            Ok(_) => {},
            Err(error) => return Err(error),
        }
        let condition = match self.closed_expression(
            TokenType::RightParen,
            Expected::RightParenAfterIfCondition,
        ) {
            Ok(expr) => expr,
            Err(error) => return Err(error),
        };
        let then_branch = match self.statement() {
            Ok(statement) => Box::new(statement),
            Err(error) => return Err(error),
        };
        let else_branch = if self.matches(TokenType::Else) {
            match self.statement() {
                Ok(statement) => Some(Box::new(statement)),
                Err(error) => return Err(error),
            }
        } else {
            None
        };
        Ok(Stmt::If(condition, then_branch, else_branch))
    }

    /// The rest of a `while` statement, after the keyword.
    fn while_statement(&mut self) -> (r: Result<Stmt, SyntaxError>)
        requires
            old(self).well_formed(),
        ensures
            final(self).yields_stmt(
                *old(self),
                0,
                parse_while(old(self).toks(), old(self).current as int),
                r,
            ),
        decreases remaining(old(self).toks(), old(self).current as int), 0nat,
    {
        match self.consume(TokenType::LeftParen, Expected::LeftParenAfterWhile) {
            Ok(_) => {},
            Err(error) => return Err(error),
        }
        let condition = match self.closed_expression(
            TokenType::RightParen,
            Expected::RightParenAfterWhileCondition,
        ) {
            Ok(expr) => expr,
            Err(error) => return Err(error),
        };
        let body = match self.statement() {
            Ok(statement) => Box::new(statement),
            Err(error) => return Err(error),
        };
        Ok(Stmt::While(condition, body))
    }

    /// The first clause of a `for`: `;` alone, a declaration, or an
    /// expression statement.
    fn for_initializer(&mut self) -> (r: Result<Option<Stmt>, SyntaxError>)
        requires
            old(self).well_formed(),
        ensures
            final(self).tokens == old(self).tokens,
            final(self).well_formed(),
            match parse_for_initializer(old(self).toks(), old(self).current as int) {
                Ok((clause, taken)) => r matches Ok(found) && final(self).current == old(
                    self,
                ).current + taken && match clause {
                    Some(statement) => found matches Some(s) && s@ == statement,
                    None => found is None,
                },
                Err(failure) => r matches Err(found) && found@ == failure.error
                    && final(self).current == failure.at,
            },
    {
        proof {
            reveal(parse_for_initializer);
        }
        if self.matches(TokenType::SemiColon) {
            Ok(None)
        } else if self.matches(TokenType::Var) {
            match self.var_declaration() {
                Ok(statement) => Ok(Some(statement)),
                Err(error) => Err(error),
            }
        } else {
            match self.expression_statement() {
                Ok(statement) => Ok(Some(statement)),
                Err(error) => Err(error),
            }
        }
    }

    /// A clause of a `for` that ends with a token of category `ty`.
    fn for_clause(&mut self, ty: TokenType, expected: Expected) -> (r: Result<
        Option<Expr>,
        SyntaxError,
    >)
        requires
            old(self).well_formed(),
        ensures
            final(self).tokens == old(self).tokens,
            final(self).well_formed(),
            match parse_for_clause(old(self).toks(), old(self).current as int, ty, expected) {
                Ok((clause, taken)) => r matches Ok(found) && final(self).current == old(
                    self,
                ).current + taken && match clause {
                    Some(expr) => found matches Some(e) && e@ == expr,
                    None => found is None,
                },
                Err(failure) => r matches Err(found) && found@ == failure.error
                    && final(self).current == failure.at,
            },
    {
        proof {
            reveal(parse_for_clause);
        }
        if self.matches(ty) {
            Ok(None)
        } else {
            match self.closed_expression(ty, expected) {
                Ok(expr) => Ok(Some(expr)),
                Err(error) => Err(error),
            }
        }
    }

    /// The rest of a `for` statement, after the keyword, as the block and
    /// the `while` loop that it stands for.
    #[verifier::rlimit(30)]
    fn for_statement(&mut self) -> (r: Result<Stmt, SyntaxError>)
        requires
            old(self).well_formed(),
        ensures
            final(self).yields_stmt(
                *old(self),
                0,
                parse_for(old(self).toks(), old(self).current as int),
                r,
            ),
        decreases remaining(old(self).toks(), old(self).current as int), 0nat,
    {
        match self.consume(TokenType::LeftParen, Expected::LeftParenAfterFor) {
            Ok(_) => {},
            Err(error) => return Err(error),
        }
        let initializer = match self.for_initializer() {
            Ok(clause) => clause,
            Err(error) => return Err(error),
        };
        let condition = match self.for_clause(
            TokenType::SemiColon,
            Expected::SemiColonAfterForCondition,
        ) {
            Ok(clause) => clause,
            Err(error) => return Err(error),
        };
        let increment = match self.for_clause(
            TokenType::RightParen,
            Expected::RightParenAfterForClauses,
        ) {
            Ok(clause) => clause,
            Err(error) => return Err(error),
        };
        let body = match self.statement() {
            Ok(statement) => statement,
            Err(error) => return Err(error),
        };
        Ok(desugar_for(initializer, condition, increment, body))
    }

    /// Parses the tokens from the cursor to the end-of-input token: the
    /// statements in order, or the first syntax error.
    pub fn parse(&mut self) -> (r: Result<Vec<Stmt>, SyntaxError>)
        requires
            old(self).well_formed(),
        ensures
            final(self).tokens == old(self).tokens,
            final(self).well_formed(),
            match parse_program(old(self).toks(), old(self).current as int) {
                Ok(statements) => r matches Ok(found) && stmt_views(found@) == statements,
                Err(failure) => r matches Err(found) && found@ == failure.error
                    && final(self).current == failure.at,
            },
    {
        let ghost toks = self.toks();
        let ghost goal = parse_program(toks, self.current as int);
        let mut stmts = Vec::<Stmt>::new();
        proof {
            assert(stmt_views(stmts@) + parse_program(toks, self.current as int)->Ok_0
                =~= parse_program(toks, self.current as int)->Ok_0);
        }
        while !self.is_at_end()
            invariant
                self.well_formed(),
                self.tokens == old(self).tokens,
                toks == self.toks(),
                goal == parse_program(old(self).toks(), old(self).current as int),
                program_after(stmt_views(stmts@), parse_program(toks, self.current as int))
                    == goal,
            decreases remaining(toks, self.current as int),
        {
            let ghost done = stmt_views(stmts@);
            let statement = match self.statement() {
                Ok(statement) => statement,
                Err(error) => return Err(error),
            };
            proof {
                lemma_stmt_views_push(stmts@, statement);
                let rest = parse_program(toks, self.current as int);
                if let Ok(more) = rest {
                    assert((done + seq![statement@]) + more =~= done + (seq![statement@] + more));
                }
            }
            stmts.push(statement);
        }
        proof {
            assert(stmt_views(stmts@) + Seq::<SpecStmt>::empty() =~= stmt_views(stmts@));
        }
        Ok(stmts)
    }
}

/// The tree that a `for` statement stands for: a block of the initializer,
/// if there is one, and a `while` loop on the condition, or on `true`, whose
/// body is a block of the body and, if there is one, the increment.
pub fn desugar_for(
    initializer: Option<Stmt>,
    condition: Option<Expr>,
    increment: Option<Expr>,
    body: Stmt,
) -> (stmt: Stmt)
    ensures
        stmt@ == for_loop(
            match initializer {
                Some(first) => Some(first@),
                None => None,
            },
            match condition {
                Some(test) => Some(test@),
                None => None,
            },
            match increment {
                Some(step) => Some(step@),
                None => None,
            },
            body@,
        ),
{
    let mut inner: Vec<Stmt> = Vec::new();
    inner.push(body);
    match increment {
        Some(step) => {
            inner.push(Stmt::Expr(step));
        },
        None => {},
    }
    let test = match condition {
        Some(test) => test,
        None => Expr::Literal(Literal::True),
    };
    proof {
        lemma_block_view(inner);
        assert(stmt_views(inner@) =~= match increment {
            Some(step) => seq![body@, SpecStmt::Expr(step@)],
            None => seq![body@],
        });
    }
    let repeat = Stmt::While(test, Box::new(Stmt::Block(inner)));
    let mut outer: Vec<Stmt> = Vec::new();
    match initializer {
        Some(first) => {
            outer.push(first);
        },
        None => {},
    }
    outer.push(repeat);
    proof {
        lemma_block_view(outer);
        assert(stmt_views(outer@) =~= match initializer {
            Some(first) => seq![first@, repeat@],
            None => seq![repeat@],
        });
    }
    Stmt::Block(outer)
}

/// Parses a token sequence that ends with the end-of-input token: the
/// statements in order, or the first syntax error.
pub fn parse(tokens: Vec<Token>) -> (r: Result<Vec<Stmt>, SyntaxError>)
    requires
        ends_with_eof(token_views(tokens@)),
    ensures
        match parse_program(token_views(tokens@), 0) {
            Ok(statements) => r matches Ok(found) && stmt_views(found@) == statements,
            Err(failure) => r matches Err(found) && found@ == failure.error,
        },
{
    let mut parser = Parser::new(tokens);
    parser.parse()
}

} // verus!

