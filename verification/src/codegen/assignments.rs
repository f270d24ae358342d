//! Choices between the forms of statements.
use crate::codegen::error::CodegenErrorKind;
use crate::codegen::runtime::{
    RuntimeArrayElementType, RuntimeExpressionType, RuntimeReferenceTarget, RuntimeWidth,
    checked_sum, runtime_expression_width, sum_of, width_of_type,
};
use crate::function::AssignmentOperator;
use crate::codegen::encoding::{
    allows_operator, difference, excess, has_operator, sum_of_three, three_sum,
};
use vstd::prelude::*;

verus! {

/// What is wrong with an assignment to an element, by the type of the element.
pub open spec fn problem_of_operator(
    ty: RuntimeExpressionType,
    operator: AssignmentOperator,
) -> Option<CodegenErrorKind> {
    if ty == RuntimeExpressionType::Bool && !allows_operator(operator) {
        Some(CodegenErrorKind::RuntimeTypeMismatch)
    } else if (ty == RuntimeExpressionType::Unit || ty == RuntimeExpressionType::Char) && operator
        != AssignmentOperator::Assign {
        Some(CodegenErrorKind::UnsupportedRuntimeOperator)
    } else {
        None
    }
}

pub fn operator_problem(
    ty: RuntimeExpressionType,
    operator: AssignmentOperator,
) -> (result: Option<CodegenErrorKind>)
    ensures
        result == problem_of_operator(ty, operator),
{
    if ty == RuntimeExpressionType::Bool && !has_operator(operator) {
        Some(CodegenErrorKind::RuntimeTypeMismatch)
    } else if (ty == RuntimeExpressionType::Unit || ty == RuntimeExpressionType::Char) && operator
        != AssignmentOperator::Assign {
        Some(CodegenErrorKind::UnsupportedRuntimeOperator)
    } else {
        None
    }
}

/// What is wrong with an assignment through an address, by the type of what that leads to.
pub open spec fn problem_of_dereference(
    ty: RuntimeExpressionType,
    operator: AssignmentOperator,
) -> Option<CodegenErrorKind> {
    if ty == RuntimeExpressionType::Bool && !allows_operator(operator) {
        Some(CodegenErrorKind::RuntimeTypeMismatch)
    } else if ty == RuntimeExpressionType::Char && operator != AssignmentOperator::Assign {
        Some(CodegenErrorKind::UnsupportedRuntimeOperator)
    } else {
        None
    }
}

pub fn dereference_problem(
    ty: RuntimeExpressionType,
    operator: AssignmentOperator,
) -> (result: Option<CodegenErrorKind>)
    ensures
        result == problem_of_dereference(ty, operator),
{
    if ty == RuntimeExpressionType::Bool && !has_operator(operator) {
        Some(CodegenErrorKind::RuntimeTypeMismatch)
    } else if ty == RuntimeExpressionType::Char && operator != AssignmentOperator::Assign {
        Some(CodegenErrorKind::UnsupportedRuntimeOperator)
    } else {
        None
    }
}

/// How the numbers of a value of a type are held; what is no number leaves that as it is.
pub open spec fn width_of_change(ty: RuntimeExpressionType, width: RuntimeWidth) -> RuntimeWidth {
    match width_of_type(ty) {
        Some(width) => width,
        None => width,
    }
}

pub fn changed_width(ty: RuntimeExpressionType, width: RuntimeWidth) -> (result: RuntimeWidth)
    ensures
        result == width_of_change(ty, width),
{
    match runtime_expression_width(ty) {
        Some(width) => width,
        None => width,
    }
}

/// What an address of a type leads to, and whether it can be changed.
pub open spec fn target_of_address(
    ty: RuntimeExpressionType,
) -> Option<(RuntimeArrayElementType, bool)> {
    match ty {
        RuntimeExpressionType::Reference { target, mutable } => match target {
            RuntimeReferenceTarget::Scalar(pointee) => Some((pointee, mutable)),
            _ => None,
        },
        RuntimeExpressionType::RawPointer { pointee, mutable } => Some((pointee, mutable)),
        _ => None,
    }
}

pub fn address_target(
    ty: RuntimeExpressionType,
) -> (result: Option<(RuntimeArrayElementType, bool)>)
    ensures
        result == target_of_address(ty),
{
    match ty {
        RuntimeExpressionType::Reference { target, mutable } => match target {
            RuntimeReferenceTarget::Scalar(pointee) => Some((pointee, mutable)),
            _ => None,
        },
        RuntimeExpressionType::RawPointer { pointee, mutable } => Some((pointee, mutable)),
        _ => None,
    }
}

/// What an assignment to an element goes into.
#[derive(Clone, Copy, Debug, PartialEq, Eq, Structural)]
pub enum ElementTarget {
    Referenced { element: RuntimeArrayElementType, count: Option<usize>, mutable: bool },
    Other,
}

pub open spec fn target_of_assignment(ty: Option<RuntimeExpressionType>) -> ElementTarget {
    match ty {
        Some(RuntimeExpressionType::Reference { target, mutable }) => match target {
            RuntimeReferenceTarget::Array { element, count } => ElementTarget::Referenced {
                element,
                count: Some(count),
                mutable,
            },
            RuntimeReferenceTarget::Slice(element) => ElementTarget::Referenced {
                element,
                count: None,
                mutable,
            },
            _ => ElementTarget::Other,
        },
        _ => ElementTarget::Other,
    }
}

pub fn assignment_target(ty: Option<RuntimeExpressionType>) -> (result: ElementTarget)
    ensures
        result == target_of_assignment(ty),
{
    match ty {
        Some(RuntimeExpressionType::Reference { target, mutable }) => match target {
            RuntimeReferenceTarget::Array { element, count } => ElementTarget::Referenced {
                element,
                count: Some(count),
                mutable,
            },
            RuntimeReferenceTarget::Slice(element) => ElementTarget::Referenced {
                element,
                count: None,
                mutable,
            },
            _ => ElementTarget::Other,
        },
        _ => ElementTarget::Other,
    }
}

/// The slot with the address that the caller wants the result at.
pub open spec fn slot_of_result(
    stacked: bool,
    temporaries: usize,
    locals: Option<usize>,
    parameters: usize,
) -> Option<usize> {
    match locals {
        None => None,
        Some(locals) => match sum_of_three(
            if stacked {
                2
            } else {
                0
            },
            temporaries,
            locals,
        ) {
            None => None,
            Some(slots) => sum_of(slots, excess(parameters, 1)),
        },
    }
}

pub fn result_slot(
    stacked: bool,
    temporaries: usize,
    locals: Option<usize>,
    parameters: usize,
) -> (result: Option<usize>)
    ensures
        result == slot_of_result(stacked, temporaries, locals, parameters),
{
    match locals {
        None => None,
        Some(locals) => match three_sum(
            if stacked {
                2
            } else {
                0
            },
            temporaries,
            locals,
        ) {
            None => None,
            Some(slots) => checked_sum(slots, difference(parameters, 1)),
        },
    }
}

} // verus!
