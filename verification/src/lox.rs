//! The front door: one interpreter, fed one text at a time.

use crate::environment::Scope;
use crate::expr::SpecExpr;
use crate::grammar::{
    lemma_parse_literal, parse_expression, parse_program, Failure, SpecSyntaxError,
};
use crate::interpreter::Interpreter;
use crate::logger::{
    lex_diagnostic, runtime_diagnostic, syntax_diagnostic, Error, SpecError,
};
use crate::parser::{Parser, SyntaxError};
use crate::number::{double_from_decimal, is_decimal_literal};
use crate::scanner::{
    lemma_scan_ends_with_eof, lemma_scan_number, scan_text, LexError, Scanner, SpecLexError,
};
use crate::semantics::{eval, exec_all, SpecState};
use crate::token::{token_views, SpecLiteral};
use crate::value::{RuntimeError, SpecRuntimeError, SpecValue};
use vstd::prelude::*;

verus! {

/// Why a text did not run to its end: the phase that failed, and its error.
#[derive(Debug)]
pub enum LoxError {
    Lexical(LexError),
    Syntax(SyntaxError),
    Runtime(RuntimeError),
}

/// The mathematical value of a [`LoxError`].
pub enum SpecLoxError {
    Lexical(SpecLexError),
    Syntax(SpecSyntaxError),
    Runtime(SpecRuntimeError),
}

impl View for LoxError {
    type V = SpecLoxError;

    open spec fn view(&self) -> SpecLoxError {
        match self {
            LoxError::Lexical(error) => SpecLoxError::Lexical(error@),
            LoxError::Syntax(error) => SpecLoxError::Syntax(error@),
            LoxError::Runtime(error) => SpecLoxError::Runtime(error@),
        }
    }
}

/// How an error of any phase reads.
pub open spec fn diagnostic(error: SpecLoxError) -> SpecError {
    match error {
        SpecLoxError::Lexical(error) => lex_diagnostic(error),
        SpecLoxError::Syntax(error) => syntax_diagnostic(error),
        SpecLoxError::Runtime(error) => runtime_diagnostic(error),
    }
}

impl LoxError {
    /// The diagnostic of this error.
    pub fn to_error(&self) -> (error: Error)
        ensures
            error@ == diagnostic(self@),
    {
        match self {
            LoxError::Lexical(error) => error.to_error(),
            LoxError::Syntax(error) => error.to_error(),
            LoxError::Runtime(error) => error.to_error(),
        }
    }
}

/// What running a text does to a state: the text is scanned, then parsed,
/// then its statements are executed in order. An error of the scanner or of
/// the parser leaves the state as it was; an error of a statement leaves
/// what was done before it.
pub open spec fn run_text(src: Seq<char>, state: SpecState) -> (Result<(), SpecLoxError>, SpecState) {
    let scanned = scan_text(src);
    match scanned.error {
        Some(error) => (Err(SpecLoxError::Lexical(error)), state),
        None => match parse_program(scanned.tokens, 0) {
            Err(failure) => (Err(SpecLoxError::Syntax(failure.error)), state),
            Ok(statements) => {
                let (outcome, after) = exec_all(statements, state);
                match outcome {
                    Ok(()) => (Ok(()), after),
                    Err(error) => (Err(SpecLoxError::Runtime(error)), after),
                }
            },
        },
    }
}

/// The interpreter of the language, as its driver holds it. The global
/// scope lives as long as this value: what one text defines, the next one
/// sees.
#[derive(Debug)]
pub struct Lox {
    pub interpreter: Interpreter,
}

impl Lox {
    /// A fresh interpreter: one empty scope, nothing printed.
    pub fn new() -> (lox: Lox)
        ensures
            lox.interpreter@ == (SpecState {
                scopes: seq![Map::empty()],
                output: Seq::empty(),
                budget: u64::MAX as nat,
            }),
            lox.interpreter.env.distinct(),
    {
        Lox { interpreter: Interpreter::new() }
    }

    /// Runs one text: scans it, parses it and executes its statements in
    /// order. What the text prints is appended to the output of the
    /// interpreter. The first error of any phase ends the run and is
    /// returned.
    pub fn run(&mut self, source: String) -> (r: Result<(), LoxError>)
        requires
            source@.len() < usize::MAX,
        ensures
            final(self).interpreter@ == run_text(source@, old(self).interpreter@).1,
            match run_text(source@, old(self).interpreter@).0 {
                Ok(()) => r is Ok,
                Err(error) => r matches Err(found) && found@ == error,
            },
            old(self).interpreter.env.distinct() ==> final(self).interpreter.env.distinct(),
    {
        let ghost src = source@;
        let mut scanner = Scanner::new(source);
        proof {
            assert(token_views(scanner.tokens@) + scan_text(src).tokens =~= scan_text(src).tokens);
            lemma_scan_ends_with_eof(src, 0, 1);
        }
        match scanner.scan_tokens() {
            Err(error) => {
                return Err(LoxError::Lexical(error));
            },
            _ => (),
        }
        let mut parser = Parser::new(scanner.tokens);
        let stmts = match parser.parse() {
            Ok(stmts) => stmts,
            Err(error) => {
                return Err(LoxError::Syntax(error));
            },
        };
        match self.interpreter.interpret(&stmts) {
            Ok(()) => Ok(()),
            Err(error) => Err(LoxError::Runtime(error)),
        }
    }
}

/// A decimal literal keeps its value from text to result: scanned, parsed
/// as an expression and evaluated, in any scope chain, it gives the binary64
/// value of the whole literal, and changes nothing.
pub proof fn lemma_number_literal(text: Seq<char>, scopes: Seq<Scope>)
    requires
        is_decimal_literal(text),
    ensures
        ({
            let bits = double_from_decimal(text);
            let scanned = scan_text(text);
            let literal = SpecExpr::Literal(SpecLiteral::Number(bits));
            &&& scanned.error is None
            &&& parse_expression(scanned.tokens, 0) == Ok::<(SpecExpr, nat), Failure>(
                (literal, 1),
            )
            &&& eval(literal, scopes) == (
                Ok::<SpecValue, SpecRuntimeError>(SpecValue::Number(bits)),
                scopes,
            )
        }),
{
    lemma_scan_number(text);
    lemma_parse_literal(scan_text(text).tokens);
}

} // verus!
