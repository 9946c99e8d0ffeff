//! Statements: what a program is made of.

use vstd::prelude::*;
use crate::error::EvalError;
use crate::expression::{Expression, ExpressionView};
use crate::identifier::Identifier;

verus! {

/// The capability of every statement: to run.
pub trait Statement {
    fn run(&self) -> (outcome: Result<(), EvalError>);
}

/// The sentinel that ends a program.
#[derive(Debug, PartialEq, Eq)]
pub struct EndStatement;

/// The binding of an identifier to the value of an expression.
#[derive(Debug, PartialEq, Eq)]
pub struct LetStatement {
    pub identifier: Identifier,
    pub value: Expression,
}

/// Any statement of a program.
#[derive(Debug, PartialEq, Eq)]
pub enum ProgramStatement {
    Let(LetStatement),
    End(EndStatement),
}

/// The mathematical value of a statement.
pub enum StatementView {
    Let { identifier: Seq<char>, value: ExpressionView },
    End,
}

impl View for EndStatement {
    type V = StatementView;

    open spec fn view(&self) -> StatementView {
        StatementView::End
    }
}

impl View for LetStatement {
    type V = StatementView;

    open spec fn view(&self) -> StatementView {
        StatementView::Let { identifier: self.identifier@, value: self.value@ }
    }
}

impl View for ProgramStatement {
    type V = StatementView;

    open spec fn view(&self) -> StatementView {
        match self {
            ProgramStatement::Let(statement) => statement@,
            ProgramStatement::End(statement) => statement@,
        }
    }
}

/// The views of the statements, in their order.
pub open spec fn statement_views(statements: Seq<ProgramStatement>) -> Seq<StatementView> {
    Seq::new(statements.len(), |i: int| statements[i]@)
}

impl Statement for EndStatement {
    /// The sentinel does nothing.
    fn run(&self) -> (outcome: Result<(), EvalError>)
        ensures
            outcome is Ok,
    {
        Ok(())
    }
}

impl Statement for LetStatement {
    /// Let-statements have no execution yet.
    fn run(&self) -> (outcome: Result<(), EvalError>)
        ensures
            outcome == Err::<(), EvalError>(EvalError::NotSupported),
    {
        Err(EvalError::NotSupported)
    }
}

impl Statement for ProgramStatement {
    /// Runs the statement that this is.
    fn run(&self) -> (outcome: Result<(), EvalError>)
        ensures
            outcome is Ok <==> self is End,
            outcome is Err ==> outcome == Err::<(), EvalError>(EvalError::NotSupported),
    {
        match self {
            ProgramStatement::Let(statement) => statement.run(),
            ProgramStatement::End(statement) => statement.run(),
        }
    }
}

} // verus!
