use crate::ast::Span;
use crate::value::{Value, ValueV};
use vstd::prelude::*;

verus! {

/// Failures of the environment itself: a lookup or assignment of a name
/// that no enclosing frame defines, or a write to a `const` binding.
#[derive(Clone, Copy, PartialEq, Eq, Structural, Debug)]
pub enum BindingError {
    Undefined,
    ConstReassignment,
}

/// Everything the statement core can report.  `OutOfFuel` is the analogue
/// of exhausting the host call stack: execution is metered by a step
/// budget, and running out of it is a resource failure, not a logic error.
#[derive(Clone, Copy, PartialEq, Eq, Structural, Debug)]
pub enum Error {
    Binding(BindingError),
    TypeMismatch,
    NotCallable,
    Arity,
    Unimplemented,
    ReturnOutsideFunction,
    OutOfFuel,
}

/// An error together with the span of the statement or expression that
/// raised it.
#[derive(Clone, Copy, PartialEq, Eq, Structural, Debug)]
pub struct ErrorInfo {
    pub error: Error,
    pub span: Span,
}

/// How the execution of one statement ended.  `Return` is the control
/// signal: not a failure, but propagated on the same channel, and consumed
/// only at a function-call boundary.
#[derive(Debug)]
pub enum Outcome {
    Completed,
    Return(Value, Span),
    Failed(ErrorInfo),
}

/// Mathematical model of an execution outcome.
pub enum OutcomeV {
    Completed,
    Return(ValueV, Span),
    Failed(ErrorInfo),
}

impl View for Outcome {
    type V = OutcomeV;

    open spec fn view(&self) -> OutcomeV {
        match self {
            Outcome::Completed => OutcomeV::Completed,
            Outcome::Return(v, sp) => OutcomeV::Return(v@, *sp),
            Outcome::Failed(e) => OutcomeV::Failed(*e),
        }
    }
}

/// The error reported when the step budget runs out.
pub open spec fn fuel_error() -> ErrorInfo {
    ErrorInfo { error: Error::OutOfFuel, span: Span { lo: 0, hi: 0 } }
}

/// A value carried by a `Return` signal must be well formed with respect
/// to the frame arena it escapes into.
pub open spec fn outcome_wf(o: OutcomeV, n: int) -> bool {
    match o {
        OutcomeV::Return(v, _) => crate::value::value_wf(v, n),
        _ => true,
    }
}

} // verus!
