//! Why no code comes out of a function.
use crate::expression::ExpressionErrorKind;
use crate::function::ParseErrorKind;
use crate::ir::{
    ExecutionError, IrErrorKind,
};
use crate::token::Span;
use vstd::prelude::*;

verus! {

#[derive(Clone, Copy, Debug, PartialEq, Eq, Structural)]
pub enum CodegenErrorKind {
    StableExportRequired,
    ParametersUnsupported,
    TooManyAbiParameters,
    UnsupportedParameterType,
    UnsupportedRuntimeType,
    UnsupportedRuntimeOperator,
    UnknownRuntimeName,
    RuntimeTypeMismatch,
    InvalidRangeType,
    InvalidRangeBounds,
    RangeEndpointOutOfRange,
    RuntimeExpressionUnsupported,
    MissingReturnType,
    UnsupportedReturnType,
    Expression(ExpressionErrorKind),
    Body(ParseErrorKind),
    Lowering(IrErrorKind),
    Execution(ExecutionError),
    ValueOutOfRange,
    OutputTooSmall,
    TooManyRuntimeLocals,
    DuplicateLocal,
    ImmutableAssignment,
}

#[derive(Clone, Copy, Debug, PartialEq, Eq, Structural)]
pub struct CodegenError {
    pub kind: CodegenErrorKind,
    pub span: Span,
}

} // verus!
