//! Front end of a small expression language: a scanner that turns source text
//! into tokens, a recursive-descent parser that turns tokens into statements
//! and expression trees, and an evaluator that reduces expression trees to
//! typed values against a table of variable bindings.
//!
//! Nothing here fails by panicking: literal construction, parsing and
//! evaluation return an error that says what went wrong.
//!
//! Integers are computed here, in 32-bit two's-complement arithmetic.
//! Floating-point numbers are carried as bit patterns and computed by two
//! functions that the caller hands in: a reader for literals with a decimal
//! point, and a unit for arithmetic. The contracts say which text the reader is
//! asked to read and which operation the unit is asked to perform, and that
//! the answer is what the caller gets.

pub mod bindings;
pub mod chars;
pub mod datatypes;
pub mod error;
pub mod expression;
pub mod identifier;
pub mod lexer;
pub mod operators;
pub mod parser;
pub mod statement;
pub mod token;
