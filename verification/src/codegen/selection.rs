//! Choices between the ways to make a value.
use crate::codegen::error::CodegenErrorKind;
use crate::codegen::frame::{
    constant_at, evaluate_constant, form_at, kind_at,
};
use crate::codegen::runtime::{
    RuntimeArrayElementType, RuntimeExpressionType, RuntimeReferenceTarget, RuntimeWidth,
    char_width, checked_product, element_bytes, integer_width, product_of,
    runtime_array_element_bytes, width_of_char, width_of_integer,
};
use crate::expression::{
    ConstantResolver, ExprId, ExprKind, ExpressionTree, Form, Tree,
};
use crate::integer::{
    BinaryOperator, ConstEvalError, UnaryOperator,
};
use crate::ir::ExecutionError;
use crate::codegen::emission::{
    number_place, place,
};
use crate::codegen::emitter::read_index;
use vstd::prelude::*;

verus! {

/// How the numbers of an operation are held; one that is not on numbers leaves that as it is.
pub open spec fn width_of_operation(
    ty: RuntimeExpressionType,
    width: RuntimeWidth,
) -> Option<RuntimeWidth> {
    match ty {
        RuntimeExpressionType::Integer(Some(ty)) => width_of_integer(ty),
        RuntimeExpressionType::Char => Some(width_of_char()),
        _ => Some(width),
    }
}

pub fn operation_width(
    ty: RuntimeExpressionType,
    width: RuntimeWidth,
) -> (result: Option<RuntimeWidth>)
    ensures
        result == width_of_operation(ty, width),
{
    match ty {
        RuntimeExpressionType::Integer(Some(ty)) => integer_width(ty),
        RuntimeExpressionType::Char => Some(char_width()),
        _ => Some(width),
    }
}

pub open spec fn register_of_truth(value: bool) -> u64 {
    if value {
        1
    } else {
        0
    }
}

pub fn truth_register(value: bool) -> (result: u64)
    ensures
        result == register_of_truth(value),
{
    if value {
        1
    } else {
        0
    }
}

/// What an address of a type leads to.
pub open spec fn pointee_under(
    ty: RuntimeExpressionType,
) -> Result<RuntimeArrayElementType, CodegenErrorKind> {
    match ty {
        RuntimeExpressionType::Reference { target, .. } => match target {
            RuntimeReferenceTarget::Scalar(pointee) => Ok(pointee),
            _ => Err(CodegenErrorKind::RuntimeExpressionUnsupported),
        },
        RuntimeExpressionType::RawPointer { pointee, .. } => Ok(pointee),
        _ => Err(CodegenErrorKind::RuntimeTypeMismatch),
    }
}

pub fn pointee_of(
    ty: RuntimeExpressionType,
) -> (result: Result<RuntimeArrayElementType, CodegenErrorKind>)
    ensures
        result == pointee_under(ty),
{
    match ty {
        RuntimeExpressionType::Reference { target, .. } => match target {
            RuntimeReferenceTarget::Scalar(pointee) => Ok(pointee),
            _ => Err(CodegenErrorKind::RuntimeExpressionUnsupported),
        },
        RuntimeExpressionType::RawPointer { pointee, .. } => Ok(pointee),
        _ => Err(CodegenErrorKind::RuntimeTypeMismatch),
    }
}

/// What an index or a range goes into.
#[derive(Clone, Copy, Debug, PartialEq, Eq, Structural)]
pub enum IndexSource {
    /// An array behind a reference.
    Referenced { element: RuntimeArrayElementType, count: usize },
    Slice { element: RuntimeArrayElementType },
    Text,
    Array { element: RuntimeArrayElementType, count: usize },
    Other,
}

/// A range that is taken by reference.
#[derive(Clone, Copy, Debug, PartialEq, Eq, Structural)]
pub struct RangeParts {
    pub base: ExprId,
    pub start: Option<ExprId>,
    pub end: Option<ExprId>,
    pub inclusive: bool,
}

/// The range that an expression takes by reference.
pub open spec fn range_parts(tree: Tree, id: ExprId) -> Option<RangeParts> {
    match form_at(tree, id) {
        Some(Form::Unary { operator, operand }) => if operator == UnaryOperator::AddressOf
            || operator == UnaryOperator::AddressOfMut {
            match form_at(tree, operand) {
                Some(Form::RangeIndex { base, start, end, inclusive }) => Some(
                    RangeParts { base, start, end, inclusive },
                ),
                _ => None,
            }
        } else {
            None
        },
        _ => None,
    }
}

pub fn read_range_parts<const N: usize>(tree: &ExpressionTree<'_, N>, id: ExprId) -> (result: Option<
    RangeParts,
>)
    ensures
        result == range_parts(tree@, id),
{
    match kind_at(tree, id) {
        Some(ExprKind::Unary { operator, operand }) => {
            if operator == UnaryOperator::AddressOf || operator == UnaryOperator::AddressOfMut {
                match kind_at(tree, operand) {
                    Some(ExprKind::RangeIndex { base, start, end, inclusive }) => Some(
                        RangeParts { base, start, end, inclusive },
                    ),
                    _ => None,
                }
            } else {
                None
            }
        },
        _ => None,
    }
}

/// An element of an array expression.
pub open spec fn element_at(elements: Seq<Option<ExprId>>, index: usize, count: usize) -> Option<ExprId> {
    if index < count && index < elements.len() {
        elements[index as int]
    } else {
        None
    }
}

pub fn read_element_at(elements: &[Option<ExprId>], index: usize, count: usize) -> (result: Option<
    ExprId,
>)
    ensures
        result == element_at(elements@, index, count),
{
    if index < count && index < elements.len() {
        elements[index]
    } else {
        None
    }
}

pub open spec fn source_of_index(ty: RuntimeExpressionType) -> IndexSource {
    match ty {
        RuntimeExpressionType::Reference { target, .. } => match target {
            RuntimeReferenceTarget::Array { element, count } => IndexSource::Referenced {
                element,
                count,
            },
            RuntimeReferenceTarget::Slice(element) => IndexSource::Slice { element },
            RuntimeReferenceTarget::Str => IndexSource::Text,
            RuntimeReferenceTarget::Scalar(_) => IndexSource::Other,
        },
        RuntimeExpressionType::Array { element, count } => IndexSource::Array { element, count },
        _ => IndexSource::Other,
    }
}

pub fn index_source(ty: RuntimeExpressionType) -> (result: IndexSource)
    ensures
        result == source_of_index(ty),
{
    match ty {
        RuntimeExpressionType::Reference { target, .. } => match target {
            RuntimeReferenceTarget::Array { element, count } => IndexSource::Referenced {
                element,
                count,
            },
            RuntimeReferenceTarget::Slice(element) => IndexSource::Slice { element },
            RuntimeReferenceTarget::Str => IndexSource::Text,
            RuntimeReferenceTarget::Scalar(_) => IndexSource::Other,
        },
        RuntimeExpressionType::Array { element, count } => IndexSource::Array { element, count },
        _ => IndexSource::Other,
    }
}

/// The branch that leaves out the second operand.
pub open spec fn opcode_of_logical(operator: BinaryOperator) -> u8 {
    if operator == BinaryOperator::LogicalAnd {
        0x84
    } else {
        0x85
    }
}

pub fn logical_opcode(operator: BinaryOperator) -> (result: u8)
    ensures
        result == opcode_of_logical(operator),
{
    if operator == BinaryOperator::LogicalAnd {
        0x84
    } else {
        0x85
    }
}

/// Where a range begins in memory.
pub open spec fn offset_of_range(
    start: usize,
    element: RuntimeArrayElementType,
) -> Result<usize, CodegenErrorKind> {
    match element_bytes(element) {
        None => Err(CodegenErrorKind::RuntimeExpressionUnsupported),
        Some(bytes) => match product_of(start, bytes) {
            None => Err(CodegenErrorKind::ValueOutOfRange),
            Some(offset) => if offset <= 0xffff_ffff {
                Ok(offset)
            } else {
                Err(CodegenErrorKind::ValueOutOfRange)
            },
        },
    }
}

pub fn scaled_offset(
    start: usize,
    element: RuntimeArrayElementType,
) -> (result: Result<usize, CodegenErrorKind>)
    ensures
        result == offset_of_range(start, element),
{
    match runtime_array_element_bytes(element) {
        None => Err(CodegenErrorKind::RuntimeExpressionUnsupported),
        Some(bytes) => match checked_product(start, bytes) {
            None => Err(CodegenErrorKind::ValueOutOfRange),
            Some(offset) => if offset <= 0xffff_ffff {
                Ok(offset)
            } else {
                Err(CodegenErrorKind::ValueOutOfRange)
            },
        },
    }
}

/// An index that is known and inside; `None` where it is not known before the program runs.
#[verifier::opaque]
pub open spec fn known_index<R: ConstantResolver>(
    tree: Tree,
    id: ExprId,
    count: usize,
    resolver: &R,
) -> Result<
    Option<usize>,
    CodegenErrorKind,
> {
    match constant_at(tree, id, resolver) {
        Err(ConstEvalError::UnknownIdentifier) => Ok(None),
        Err(error) => Err(CodegenErrorKind::Execution(ExecutionError::Arithmetic(error))),
        Ok(value) => match number_place(value) {
            None => Err(CodegenErrorKind::ValueOutOfRange),
            Some(place) => if place >= count {
                Err(
                    CodegenErrorKind::Execution(
                        ExecutionError::Arithmetic(ConstEvalError::ArrayIndexOutOfBounds),
                    ),
                )
            } else {
                Ok(Some(place))
            },
        },
    }
}

pub fn evaluate_index<R: ConstantResolver, const N: usize>(
    tree: &ExpressionTree<'_, N>,
    id: ExprId,
    count: usize,
    resolver: &R,
) -> (result: Result<Option<usize>, CodegenErrorKind>)
    ensures
        result == known_index(tree@, id, count, resolver),
{
    proof {
        reveal(known_index);
    }
    match evaluate_constant(tree, id, resolver) {
        Err(ConstEvalError::UnknownIdentifier) => Ok(None),
        Err(error) => Err(CodegenErrorKind::Execution(ExecutionError::Arithmetic(error))),
        Ok(value) => match read_index(value) {
            None => Err(CodegenErrorKind::ValueOutOfRange),
            Some(place) => {
                if place >= count {
                    Err(
                        CodegenErrorKind::Execution(
                            ExecutionError::Arithmetic(ConstEvalError::ArrayIndexOutOfBounds),
                        ),
                    )
                } else {
                    Ok(Some(place))
                }
            },
        },
    }
}

} // verus!
