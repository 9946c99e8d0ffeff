//! The ways in which literal construction, parsing and evaluation fail.

use vstd::prelude::*;
use vstd::string::*;
use crate::operators::BinaryOperator;

verus! {

/// A token is no literal, or its text is no number.
#[derive(Debug, Clone, Copy, PartialEq, Eq, Structural)]
pub struct InvalidLiteral;

/// Why a token sequence is no program.
#[derive(Debug, Clone, Copy, PartialEq, Eq, Structural)]
pub enum ParseError {
    /// `let` is not followed by an identifier.
    IdentifierExpected,
    /// The identifier of a let-statement is not followed by `=`.
    AssignExpected,
    /// An expression starts with a token that is no number, identifier or `(`.
    InvalidToken,
    /// A term of an expression is followed by a token that neither ends the
    /// expression nor continues it.
    UnhandledToken,
    /// A numeric literal in an expression is malformed.
    InvalidLiteral,
}

/// Why an expression has no value.
#[derive(Debug, Clone, Copy, PartialEq, Eq, Structural)]
pub enum EvalError {
    /// The operator was applied to a boolean operand.
    NotDefinedForBoolean(BinaryOperator),
    /// An integer was divided by the integer zero.
    DivisionByZero,
    /// An identifier is not in the binding table.
    UsedWithoutDeclaration,
    /// An empty expression was evaluated.
    EmptyExpression,
    /// The construct is part of the data model but has no evaluation yet.
    NotSupported,
}

/// The name of the operation that an operator stands for.
pub open spec fn operation_name(operator: BinaryOperator) -> Seq<char> {
    match operator {
        BinaryOperator::Add => "addition"@,
        BinaryOperator::Subtract => "subtraction"@,
        BinaryOperator::Multiply => "multiplication"@,
        BinaryOperator::Divide => "division"@,
        BinaryOperator::Or => "disjunction"@,
        BinaryOperator::And => "conjunction"@,
    }
}

impl InvalidLiteral {
    /// What [`InvalidLiteral::message`] says.
    pub open spec fn message_text(self) -> Seq<char> {
        "Invalid literal"@
    }

    /// The error in words.
    pub fn message(&self) -> (text: String)
        ensures
            text@ == self.message_text(),
    {
        String::from_str("Invalid literal")
    }
}

impl ParseError {
    /// What [`ParseError::message`] says.
    pub open spec fn message_text(self) -> Seq<char> {
        match self {
            ParseError::IdentifierExpected => "Identifier expected"@,
            ParseError::AssignExpected => "Expected '='"@,
            ParseError::InvalidToken => "Invalid token"@,
            ParseError::UnhandledToken => "Unhandled token"@,
            ParseError::InvalidLiteral => "Invalid literal"@,
        }
    }

    /// The error in words.
    pub fn message(&self) -> (text: String)
        ensures
            text@ == self.message_text(),
    {
        match self {
            ParseError::IdentifierExpected => String::from_str("Identifier expected"),
            ParseError::AssignExpected => String::from_str("Expected '='"),
            ParseError::InvalidToken => String::from_str("Invalid token"),
            ParseError::UnhandledToken => String::from_str("Unhandled token"),
            ParseError::InvalidLiteral => String::from_str("Invalid literal"),
        }
    }
}

impl EvalError {
    /// What [`EvalError::message`] says. The error of an operator on a boolean
    /// names the operation and the type.
    pub open spec fn message_text(self) -> Seq<char> {
        match self {
            EvalError::NotDefinedForBoolean(operator) => "The operation "@ + operation_name(
                operator,
            ) + " is not defined for booleans"@,
            EvalError::DivisionByZero => "Division by zero"@,
            EvalError::UsedWithoutDeclaration => "Variable used without declaration"@,
            EvalError::EmptyExpression => "Empty expression called for execution"@,
            EvalError::NotSupported => "Not supported yet"@,
        }
    }

    /// The error in words.
    pub fn message(&self) -> (text: String)
        ensures
            text@ == self.message_text(),
    {
        match self {
            EvalError::NotDefinedForBoolean(operator) => {
                let name = match operator {
                    BinaryOperator::Add => "addition",
                    BinaryOperator::Subtract => "subtraction",
                    BinaryOperator::Multiply => "multiplication",
                    BinaryOperator::Divide => "division",
                    BinaryOperator::Or => "disjunction",
                    BinaryOperator::And => "conjunction",
                };
                String::from_str("The operation ").concat(name).concat(
                    " is not defined for booleans",
                )
            },
            EvalError::DivisionByZero => String::from_str("Division by zero"),
            EvalError::UsedWithoutDeclaration => String::from_str(
                "Variable used without declaration",
            ),
            EvalError::EmptyExpression => String::from_str("Empty expression called for execution"),
            EvalError::NotSupported => String::from_str("Not supported yet"),
        }
    }
}

} // verus!
