//! Operator tags.

use vstd::prelude::*;
use crate::datatypes::NumberType;
use crate::error::EvalError;
use crate::token::{Token, TokenView};

verus! {

/// A binary operator of the expression tree.
#[derive(Debug, Clone, Copy, PartialEq, Eq, Structural)]
pub enum BinaryOperator {
    Add,
    Subtract,
    Multiply,
    Divide,
    Or,
    And,
}

/// A unary operator of the expression tree.
#[derive(Debug, Clone, Copy, PartialEq, Eq, Structural)]
pub enum UnaryOperator {
    Not,
}

/// The binary operator that a token stands for, if it stands for one.
pub open spec fn operator_of(token: TokenView) -> Option<BinaryOperator> {
    match token {
        TokenView::Add => Some(BinaryOperator::Add),
        TokenView::Subtract => Some(BinaryOperator::Subtract),
        TokenView::Multiplication => Some(BinaryOperator::Multiply),
        TokenView::Division => Some(BinaryOperator::Divide),
        _ => None,
    }
}

impl BinaryOperator {
    /// Whether the operator is one of the four arithmetic ones.
    pub open spec fn is_arithmetic(self) -> bool {
        self is Add || self is Subtract || self is Multiply || self is Divide
    }

    /// The operator for `+`, `-`, `*` or `/`; no operator for any other token.
    pub fn from_token(t: &Token) -> (operator: Option<BinaryOperator>)
        ensures
            operator == operator_of(t@),
    {
        match t {
            Token::ADD => Some(BinaryOperator::Add),
            Token::SUBTRACT => Some(BinaryOperator::Subtract),
            Token::MULTIPLICATION => Some(BinaryOperator::Multiply),
            Token::DIVISION => Some(BinaryOperator::Divide),
            _ => None,
        }
    }
}

/// The unit accepts every arithmetic operation on two numbers that are not
/// both integers.
pub open spec fn unit_ready<U: Fn(BinaryOperator, NumberType, NumberType) -> u32>(
    float_unit: &U,
) -> bool {
    forall|operator: BinaryOperator, left: NumberType, right: NumberType|
        operator.is_arithmetic() && !(left is Integer && right is Integer) ==> call_requires(
            *float_unit,
            (operator, left, right),
        )
}

/// The unit has one answer for each operation: whatever it may return for an
/// operator and two numbers is the same.
pub open spec fn unit_answers_once<U: Fn(BinaryOperator, NumberType, NumberType) -> u32>(
    float_unit: &U,
) -> bool {
    forall|operator: BinaryOperator, left: NumberType, right: NumberType, one: u32, other: u32|
        #![trigger
            call_ensures(*float_unit, (operator, left, right), one),
            call_ensures(*float_unit, (operator, left, right), other)
        ]
        call_ensures(*float_unit, (operator, left, right), one) && call_ensures(
            *float_unit,
            (operator, left, right),
            other,
        ) ==> one == other
}

/// Addition of two values of a type.
pub trait AddOperatorTrait: Sized {
    fn add<U: Fn(BinaryOperator, NumberType, NumberType) -> u32>(
        &self,
        other: Self,
        float_unit: &U,
    ) -> (outcome: Result<Self, EvalError>)
        requires
            unit_ready(float_unit),
    ;
}

/// Subtraction of a value of a type from another.
pub trait SubtractOperatorTrait: Sized {
    fn subtract<U: Fn(BinaryOperator, NumberType, NumberType) -> u32>(
        &self,
        other: Self,
        float_unit: &U,
    ) -> (outcome: Result<Self, EvalError>)
        requires
            unit_ready(float_unit),
    ;
}

/// Multiplication of two values of a type.
pub trait MultiplyOperatorTrait: Sized {
    fn multiply<U: Fn(BinaryOperator, NumberType, NumberType) -> u32>(
        &self,
        other: Self,
        float_unit: &U,
    ) -> (outcome: Result<Self, EvalError>)
        requires
            unit_ready(float_unit),
    ;
}

/// Division of a value of a type by another.
pub trait DivideOperatorTrait: Sized {
    fn divide<U: Fn(BinaryOperator, NumberType, NumberType) -> u32>(
        &self,
        other: Self,
        float_unit: &U,
    ) -> (outcome: Result<Self, EvalError>)
        requires
            unit_ready(float_unit),
    ;
}

} // verus!
