//! A tree-walking interpreter for a small dynamically typed scripting
//! language: a scanner, a recursive-descent parser, a chain of lexical
//! scopes and an evaluator, each stated against a mathematical model and
//! proved against it.

pub mod number;
pub mod text;
pub mod token;
pub mod scanner;
pub mod grammar;
pub mod parser;
pub mod expr;
pub mod value;
pub mod environment;
pub mod semantics;
pub mod interpreter;
pub mod logger;
pub mod lox;
