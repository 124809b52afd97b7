//! What can go wrong while a program runs, and how a run can end early.

use crate::ast::{Location, NumericType, Operator};
use vstd::prelude::*;

verus! {

/// The kind of a runtime value: the tag that decides which operators apply.
#[derive(Clone, Copy, Debug, PartialEq, Eq, Structural)]
pub enum ValueKind {
    I8,
    I16,
    I32,
    I64,
    ISize,
    U8,
    U16,
    U32,
    U64,
    USize,
    Boolean,
    String,
    Void,
}

/// A failure of the running program.
#[derive(Debug)]
pub enum RuntimeError {
    /// No scope holds the variable.
    UndefinedVariable { name: String },
    /// The function table does not hold the function.
    UndefinedFunction { name: String },
    /// The function table already holds a function of that name.
    FunctionRedefined { name: String },
    /// An interpreted function was called with the wrong number of arguments.
    ArityMismatch { name: String, expected: usize, found: usize },
    /// A binary operator was applied to kinds it is not defined on.
    UnsupportedBinary { operator: Operator, left: ValueKind, right: ValueKind },
    /// A unary operator was applied to a kind it is not defined on.
    UnsupportedUnary { operator: Operator, operand: ValueKind },
    /// An operator that has no binary meaning stood between two operands.
    UnknownBinaryOperator { operator: Operator },
    /// An operator that has no unary meaning stood before an operand.
    UnknownUnaryOperator { operator: Operator },
    /// The left side of an assignment is not a bare variable.
    InvalidAssignmentTarget,
    /// The right operand of a division or remainder is zero.
    DivisionByZero,
    /// The text of a numeric literal is not a number of its declared kind.
    InvalidLiteral { text: String, ty: NumericType },
    /// A variable was bound while no scope was open.
    NoScope,
    /// The chain of nested calls and loop iterations outgrew the budget.
    FuelExhausted,
}

/// The mathematical value of a [`RuntimeError`].
pub enum RuntimeErrorView {
    UndefinedVariable { name: Seq<char> },
    UndefinedFunction { name: Seq<char> },
    FunctionRedefined { name: Seq<char> },
    ArityMismatch { name: Seq<char>, expected: usize, found: usize },
    UnsupportedBinary { operator: Operator, left: ValueKind, right: ValueKind },
    UnsupportedUnary { operator: Operator, operand: ValueKind },
    UnknownBinaryOperator { operator: Operator },
    UnknownUnaryOperator { operator: Operator },
    InvalidAssignmentTarget,
    DivisionByZero,
    InvalidLiteral { text: Seq<char>, ty: NumericType },
    NoScope,
    FuelExhausted,
}

impl View for RuntimeError {
    type V = RuntimeErrorView;

    open spec fn view(&self) -> RuntimeErrorView {
        match self {
            RuntimeError::UndefinedVariable { name } => RuntimeErrorView::UndefinedVariable {
                name: name@,
            },
            RuntimeError::UndefinedFunction { name } => RuntimeErrorView::UndefinedFunction {
                name: name@,
            },
            RuntimeError::FunctionRedefined { name } => RuntimeErrorView::FunctionRedefined {
                name: name@,
            },
            RuntimeError::ArityMismatch { name, expected, found } => {
                RuntimeErrorView::ArityMismatch { name: name@, expected: *expected, found: *found }
            },
            RuntimeError::UnsupportedBinary { operator, left, right } => {
                RuntimeErrorView::UnsupportedBinary {
                    operator: *operator,
                    left: *left,
                    right: *right,
                }
            },
            RuntimeError::UnsupportedUnary { operator, operand } => {
                RuntimeErrorView::UnsupportedUnary { operator: *operator, operand: *operand }
            },
            RuntimeError::UnknownBinaryOperator { operator } => {
                RuntimeErrorView::UnknownBinaryOperator { operator: *operator }
            },
            RuntimeError::UnknownUnaryOperator { operator } => {
                RuntimeErrorView::UnknownUnaryOperator { operator: *operator }
            },
            RuntimeError::InvalidAssignmentTarget => RuntimeErrorView::InvalidAssignmentTarget,
            RuntimeError::DivisionByZero => RuntimeErrorView::DivisionByZero,
            RuntimeError::InvalidLiteral { text, ty } => RuntimeErrorView::InvalidLiteral {
                text: text@,
                ty: *ty,
            },
            RuntimeError::NoScope => RuntimeErrorView::NoScope,
            RuntimeError::FuelExhausted => RuntimeErrorView::FuelExhausted,
        }
    }
}

/// Why evaluation stopped before it produced a value.
#[derive(Debug)]
pub enum Abort {
    /// The program failed.
    Failure(RuntimeError),
    /// The program asked to leave with this exit code.
    Exit(i32),
}

/// The mathematical value of an [`Abort`].
pub enum AbortView {
    Failure(RuntimeErrorView),
    Exit(i32),
}

impl View for Abort {
    type V = AbortView;

    open spec fn view(&self) -> AbortView {
        match self {
            Abort::Failure(e) => AbortView::Failure(e@),
            Abort::Exit(code) => AbortView::Exit(*code),
        }
    }
}

/// A runtime failure together with the place of the top-level statement
/// during which it happened.
#[derive(Debug)]
pub struct LocatedError {
    pub error: RuntimeError,
    pub location: Location,
}

} // verus!
