//! Expression trees and their evaluation.
//!
//! Every node of a tree has one capability: to give its value against a
//! binding table. What a node evaluates to is fixed by [`evaluates_to`].
//! Evaluation descends once for each level of the tree, so the depth of the
//! call stack is the depth of the tree.

use vstd::prelude::*;
use crate::bindings::BindingTable;
use crate::datatypes::{is_result, results_are_determined, DataType, NumberType};
use crate::error::EvalError;
use crate::identifier::Identifier;
use crate::operators::{
    unit_answers_once,
    unit_ready,
    AddOperatorTrait,
    BinaryOperator,
    DivideOperatorTrait,
    MultiplyOperatorTrait,
    SubtractOperatorTrait,
    UnaryOperator,
};

verus! {

/// The capability of every node of an expression tree: to give its value
/// against a binding table.
///
/// `float_unit` is asked for every arithmetic result that is a floating-point
/// number.
pub trait ExpressionLiteral {
    fn value<U: Fn(BinaryOperator, NumberType, NumberType) -> u32>(
        &self,
        mem_table: &BindingTable,
        float_unit: &U,
    ) -> (outcome: Result<DataType, EvalError>)
        requires
            mem_table.well_formed(),
            unit_ready(float_unit),
    ;
}

/// The leaf of an expression tree: a literal value, or a reference to a
/// variable.
#[derive(Debug, PartialEq, Eq, Clone)]
pub enum SingleValue {
    Literal(DataType),
    Reference(Identifier),
}

/// Two operands and the operator between them.
#[derive(Debug, PartialEq, Eq)]
pub struct BinaryOperatorExpression {
    pub l: Box<Expression>,
    pub r: Box<Expression>,
    pub op: BinaryOperator,
}

/// An operand and the operator before it.
#[derive(Debug, PartialEq, Eq)]
pub struct UnaryOperatorExpression {
    pub inp: Box<Expression>,
    pub op: UnaryOperator,
}

/// An expression tree.
#[derive(Debug, PartialEq, Eq)]
pub enum Expression {
    Empty,
    SingleValueExpression(SingleValue),
    BinaryOperatorExpression(BinaryOperatorExpression),
    UnaryOperatorExpression(UnaryOperatorExpression),
}

/// The mathematical value of an expression tree: the same tree, with names
/// as sequences of characters.
pub enum ExpressionView {
    Empty,
    Literal(DataType),
    Reference(Seq<char>),
    Binary { left: Box<ExpressionView>, right: Box<ExpressionView>, operator: BinaryOperator },
    Unary { operand: Box<ExpressionView>, operator: UnaryOperator },
}

impl View for SingleValue {
    type V = ExpressionView;

    open spec fn view(&self) -> ExpressionView {
        match self {
            SingleValue::Literal(value) => ExpressionView::Literal(*value),
            SingleValue::Reference(identifier) => ExpressionView::Reference(identifier@),
        }
    }
}

/// The view of an expression tree.
pub open spec fn view_of(expression: Expression) -> ExpressionView
    decreases expression,
{
    match expression {
        Expression::Empty => ExpressionView::Empty,
        Expression::SingleValueExpression(single) => single@,
        Expression::BinaryOperatorExpression(binary) => ExpressionView::Binary {
            left: Box::new(view_of(*binary.l)),
            right: Box::new(view_of(*binary.r)),
            operator: binary.op,
        },
        Expression::UnaryOperatorExpression(unary) => ExpressionView::Unary {
            operand: Box::new(view_of(*unary.inp)),
            operator: unary.op,
        },
    }
}

impl View for Expression {
    type V = ExpressionView;

    open spec fn view(&self) -> ExpressionView {
        view_of(*self)
    }
}

impl View for BinaryOperatorExpression {
    type V = ExpressionView;

    open spec fn view(&self) -> ExpressionView {
        ExpressionView::Binary {
            left: Box::new(self.l@),
            right: Box::new(self.r@),
            operator: self.op,
        }
    }
}

impl View for UnaryOperatorExpression {
    type V = ExpressionView;

    open spec fn view(&self) -> ExpressionView {
        ExpressionView::Unary { operand: Box::new(self.inp@), operator: self.op }
    }
}

/// The value of a variable: what the table binds its name to.
pub open spec fn variable_value(table: Map<Seq<char>, DataType>, name: Seq<char>) -> Result<
    DataType,
    EvalError,
> {
    if table.contains_key(name) {
        Ok(table[name])
    } else {
        Err(EvalError::UsedWithoutDeclaration)
    }
}

/// `outcome` is what an arithmetic operator makes of the outcomes of its two
/// operands: the failure of the left one, else the failure of the right one,
/// else the result of the operator on the two values.
pub open spec fn combines<U: Fn(BinaryOperator, NumberType, NumberType) -> u32>(
    operator: BinaryOperator,
    one: Result<DataType, EvalError>,
    other: Result<DataType, EvalError>,
    float_unit: &U,
    outcome: Result<DataType, EvalError>,
) -> bool {
    match one {
        Err(error) => outcome == Err::<DataType, EvalError>(error),
        Ok(a) => match other {
            Err(error) => outcome == Err::<DataType, EvalError>(error),
            Ok(b) => is_result(operator, a, b, float_unit, outcome),
        },
    }
}

/// `outcome` is what the evaluation of `expression` against `table` may
/// return.
///
/// A literal is its own value and a reference is the value that the table
/// binds its name to. One of the four arithmetic operators evaluates its left
/// operand and then, unless that failed, its right operand, and gives what
/// [`combines`] makes of the two outcomes. The empty expression has no value,
/// and the operators `Or`, `And` and `Not` have no evaluation yet.
pub open spec fn evaluates_to<U: Fn(BinaryOperator, NumberType, NumberType) -> u32>(
    expression: ExpressionView,
    table: Map<Seq<char>, DataType>,
    float_unit: &U,
    outcome: Result<DataType, EvalError>,
) -> bool
    decreases expression,
{
    match expression {
        ExpressionView::Empty => outcome == Err::<DataType, EvalError>(EvalError::EmptyExpression),
        ExpressionView::Literal(value) => outcome == Ok::<DataType, EvalError>(value),
        ExpressionView::Reference(name) => outcome == variable_value(table, name),
        ExpressionView::Unary { .. } => outcome == Err::<DataType, EvalError>(
            EvalError::NotSupported,
        ),
        ExpressionView::Binary { left, right, operator } => if operator.is_arithmetic() {
            exists|one: Result<DataType, EvalError>, other: Result<DataType, EvalError>|
                #![trigger combines(operator, one, other, float_unit, outcome)]
                {
                    &&& evaluates_to(*left, table, float_unit, one)
                    &&& one is Ok ==> evaluates_to(*right, table, float_unit, other)
                    &&& combines(operator, one, other, float_unit, outcome)
                }
        } else {
            outcome == Err::<DataType, EvalError>(EvalError::NotSupported)
        },
    }
}

/// The tree is made of numbers, references and arithmetic operators alone.
pub open spec fn is_arithmetic_tree(expression: ExpressionView) -> bool
    decreases expression,
{
    match expression {
        ExpressionView::Literal(value) => value is Number,
        ExpressionView::Reference(_) => true,
        ExpressionView::Binary { left, right, operator } => {
            &&& operator.is_arithmetic()
            &&& is_arithmetic_tree(*left)
            &&& is_arithmetic_tree(*right)
        },
        _ => false,
    }
}

/// The evaluation of a tree of numbers, references and arithmetic operators
/// never fails for want of an expression or of support: if it fails, then on
/// an undeclared variable, on a boolean that a variable is bound to, or on a
/// division by zero.
pub proof fn arithmetic_trees_are_supported<U: Fn(BinaryOperator, NumberType, NumberType) -> u32>(
    expression: ExpressionView,
    table: Map<Seq<char>, DataType>,
    float_unit: &U,
    error: EvalError,
)
    requires
        is_arithmetic_tree(expression),
        evaluates_to(expression, table, float_unit, Err(error)),
    ensures
        error is UsedWithoutDeclaration || error is NotDefinedForBoolean || error is DivisionByZero,
    decreases expression,
{
    match expression {
        ExpressionView::Binary { left, right, operator } => {
            let outcome = Err::<DataType, EvalError>(error);
            let (one, other) = choose|
                one: Result<DataType, EvalError>,
                other: Result<DataType, EvalError>,
            |
                #![trigger combines(operator, one, other, float_unit, outcome)]
                {
                    &&& evaluates_to(*left, table, float_unit, one)
                    &&& one is Ok ==> evaluates_to(*right, table, float_unit, other)
                    &&& combines(operator, one, other, float_unit, outcome)
                };
            match one {
                Err(first) => {
                    arithmetic_trees_are_supported(*left, table, float_unit, first);
                },
                Ok(a) => match other {
                    Err(second) => {
                        arithmetic_trees_are_supported(*right, table, float_unit, second);
                    },
                    Ok(b) => {},
                },
            }
        },
        _ => {},
    }
}

/// With a unit that has one answer for each operation, an expression has one
/// value against a table, or fails in one way.
pub proof fn evaluation_is_determined<U: Fn(BinaryOperator, NumberType, NumberType) -> u32>(
    expression: ExpressionView,
    table: Map<Seq<char>, DataType>,
    float_unit: &U,
    first: Result<DataType, EvalError>,
    second: Result<DataType, EvalError>,
)
    requires
        unit_answers_once(float_unit),
        evaluates_to(expression, table, float_unit, first),
        evaluates_to(expression, table, float_unit, second),
    ensures
        first == second,
    decreases expression,
{
    match expression {
        ExpressionView::Binary { left, right, operator } => {
            if operator.is_arithmetic() {
                let (one, other) = choose|
                    one: Result<DataType, EvalError>,
                    other: Result<DataType, EvalError>,
                |
                    #![trigger combines(operator, one, other, float_unit, first)]
                    {
                        &&& evaluates_to(*left, table, float_unit, one)
                        &&& one is Ok ==> evaluates_to(*right, table, float_unit, other)
                        &&& combines(operator, one, other, float_unit, first)
                    };
                let (one_again, other_again) = choose|
                    one: Result<DataType, EvalError>,
                    other: Result<DataType, EvalError>,
                |
                    #![trigger combines(operator, one, other, float_unit, second)]
                    {
                        &&& evaluates_to(*left, table, float_unit, one)
                        &&& one is Ok ==> evaluates_to(*right, table, float_unit, other)
                        &&& combines(operator, one, other, float_unit, second)
                    };
                evaluation_is_determined(*left, table, float_unit, one, one_again);
                match (one, other) {
                    (Ok(a), Ok(b)) => {
                        evaluation_is_determined(*right, table, float_unit, other, other_again);
                        results_are_determined(operator, a, b, float_unit, first, second);
                    },
                    (Ok(a), Err(_)) => {
                        evaluation_is_determined(*right, table, float_unit, other, other_again);
                    },
                    _ => {},
                }
            }
        },
        _ => {},
    }
}

impl ExpressionLiteral for DataType {
    /// A value is its own value.
    fn value<U: Fn(BinaryOperator, NumberType, NumberType) -> u32>(
        &self,
        mem_table: &BindingTable,
        float_unit: &U,
    ) -> (outcome: Result<DataType, EvalError>)
        ensures
            outcome == Ok::<DataType, EvalError>(*self),
    {
        Ok(*self)
    }
}

impl ExpressionLiteral for Identifier {
    /// The value that the table binds the identifier to.
    fn value<U: Fn(BinaryOperator, NumberType, NumberType) -> u32>(
        &self,
        mem_table: &BindingTable,
        float_unit: &U,
    ) -> (outcome: Result<DataType, EvalError>)
        ensures
            outcome == variable_value(mem_table@, self@),
    {
        match mem_table.lookup(self) {
            Some(data) => Ok(data),
            None => Err(EvalError::UsedWithoutDeclaration),
        }
    }
}

impl ExpressionLiteral for SingleValue {
    /// The value of a leaf.
    fn value<U: Fn(BinaryOperator, NumberType, NumberType) -> u32>(
        &self,
        mem_table: &BindingTable,
        float_unit: &U,
    ) -> (outcome: Result<DataType, EvalError>)
        ensures
            evaluates_to(self@, mem_table@, float_unit, outcome),
    {
        match self {
            SingleValue::Literal(value) => value.value(mem_table, float_unit),
            SingleValue::Reference(identifier) => identifier.value(mem_table, float_unit),
        }
    }
}

impl ExpressionLiteral for BinaryOperatorExpression {
    /// The value of an operator applied to its two operands.
    fn value<U: Fn(BinaryOperator, NumberType, NumberType) -> u32>(
        &self,
        mem_table: &BindingTable,
        float_unit: &U,
    ) -> (outcome: Result<DataType, EvalError>)
        ensures
            evaluates_to(self@, mem_table@, float_unit, outcome),
        decreases self,
    {
        match self.op {
            BinaryOperator::Or | BinaryOperator::And => Err(EvalError::NotSupported),
            _ => {
                let first = self.l.value(mem_table, float_unit);
                let one = match first {
                    Ok(one) => one,
                    Err(error) => {
                        assert(combines(self.op, first, first, float_unit, Err(error)));
                        return Err(error);
                    },
                };
                let second = self.r.value(mem_table, float_unit);
                let other = match second {
                    Ok(other) => other,
                    Err(error) => {
                        assert(combines(self.op, first, second, float_unit, Err(error)));
                        return Err(error);
                    },
                };
                let outcome = match self.op {
                    BinaryOperator::Add => one.add(other, float_unit),
                    BinaryOperator::Subtract => one.subtract(other, float_unit),
                    BinaryOperator::Multiply => one.multiply(other, float_unit),
                    _ => one.divide(other, float_unit),
                };
                assert(combines(self.op, first, second, float_unit, outcome));
                outcome
            },
        }
    }
}

impl ExpressionLiteral for UnaryOperatorExpression {
    /// Unary operators have no evaluation yet.
    fn value<U: Fn(BinaryOperator, NumberType, NumberType) -> u32>(
        &self,
        mem_table: &BindingTable,
        float_unit: &U,
    ) -> (outcome: Result<DataType, EvalError>)
        ensures
            evaluates_to(self@, mem_table@, float_unit, outcome),
    {
        Err(EvalError::NotSupported)
    }
}

impl ExpressionLiteral for Expression {
    /// The value of an expression tree.
    fn value<U: Fn(BinaryOperator, NumberType, NumberType) -> u32>(
        &self,
        mem_table: &BindingTable,
        float_unit: &U,
    ) -> (outcome: Result<DataType, EvalError>)
        ensures
            evaluates_to(self@, mem_table@, float_unit, outcome),
        decreases self,
    {
        match self {
            Expression::Empty => Err(EvalError::EmptyExpression),
            Expression::SingleValueExpression(v) => v.value(mem_table, float_unit),
            Expression::BinaryOperatorExpression(v) => v.value(mem_table, float_unit),
            Expression::UnaryOperatorExpression(v) => v.value(mem_table, float_unit),
        }
    }
}

} // verus!
