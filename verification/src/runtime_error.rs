use vstd::prelude::*;
use crate::expr::{Expr, Term};
use crate::parser::parser_error::{ParserError, ParserErrorView};

verus! {

/// Why an evaluation ended without a value.
#[derive(Debug, PartialEq)]
pub enum RuntimeError {
    /// A step was asked of a tree that is already a value.
    SteppingOnValue(Expr),
    /// A tree of another shape was needed: what was expected, and what was found.
    UnexpectedExpr(String, Expr),
    /// No frame binds the name.
    VariableNotFound(String),
    /// The value could not be assigned: the name is bound immutably.
    InvalidConstAssignment(Expr, String),
    /// A value of the named kind was needed, and this tree was found.
    InvalidTypeConversion(String, Expr),
    /// The frame stack is not as the operation needs it.
    InvalidMemoryState(String),
    /// The text is not a program.
    ParserError(ParserError),
    /// The evaluation took more steps than allowed; the count reached.
    TooManyIterations(usize),
}

/// The mathematical value of a failure.
pub enum RuntimeErrorView {
    SteppingOnValue(Term),
    UnexpectedExpr(Seq<char>, Term),
    VariableNotFound(Seq<char>),
    InvalidConstAssignment(Term, Seq<char>),
    InvalidTypeConversion(Seq<char>, Term),
    InvalidMemoryState(Seq<char>),
    ParserError(ParserErrorView),
    TooManyIterations(nat),
}

impl View for RuntimeError {
    type V = RuntimeErrorView;

    open spec fn view(&self) -> RuntimeErrorView {
        match self {
            RuntimeError::SteppingOnValue(e) => RuntimeErrorView::SteppingOnValue(e@),
            RuntimeError::UnexpectedExpr(s, e) => RuntimeErrorView::UnexpectedExpr(s@, e@),
            RuntimeError::VariableNotFound(s) => RuntimeErrorView::VariableNotFound(s@),
            RuntimeError::InvalidConstAssignment(e, s) => RuntimeErrorView::InvalidConstAssignment(
                e@,
                s@,
            ),
            RuntimeError::InvalidTypeConversion(s, e) => RuntimeErrorView::InvalidTypeConversion(
                s@,
                e@,
            ),
            RuntimeError::InvalidMemoryState(s) => RuntimeErrorView::InvalidMemoryState(s@),
            RuntimeError::ParserError(e) => RuntimeErrorView::ParserError(e@),
            RuntimeError::TooManyIterations(n) => RuntimeErrorView::TooManyIterations(*n as nat),
        }
    }
}

impl From<ParserError> for RuntimeError {
    fn from(err: ParserError) -> (r: RuntimeError) {
        RuntimeError::ParserError(err)
    }
}

impl vstd::std_specs::convert::FromSpecImpl<ParserError> for RuntimeError {
    open spec fn obeys_from_spec() -> bool {
        true
    }

    open spec fn from_spec(err: ParserError) -> RuntimeError {
        RuntimeError::ParserError(err)
    }
}

} // verus!
