//! How the types of parts make the type of a whole.
use crate::codegen::error::CodegenErrorKind;
use crate::codegen::runtime::{
    RuntimeArrayElementType, RuntimeExpressionType, RuntimeReferenceTarget, RuntimeWidth,
    char_width, element_integers_agree, element_type, fat_reference, index_type,
    integer_width, is_fat_reference, is_index_type, runtime_array_element_type,
    runtime_reference_target_from_type, runtime_reference_target_type,
    runtime_type_from_array_element, runtime_types_compatible, type_as_element,
    type_as_target, type_behind, types_agree, unified_integers, unify_integer_types,
    unresolved_integers_agree, width_of_char, width_of_integer,
};
use crate::integer::{
    BinaryOperator, IntegerType, ScalarType,
};
use vstd::prelude::*;

verus! {

/// A type, or why there is none.
pub type Typing = Result<RuntimeExpressionType, CodegenErrorKind>;

/// The type of the elements of a value that can be indexed.
pub open spec fn element_under_index(
    base: RuntimeExpressionType,
) -> Option<RuntimeArrayElementType> {
    match base {
        RuntimeExpressionType::Array { element, .. } => Some(element),
        RuntimeExpressionType::Reference { target, .. } => match target {
            RuntimeReferenceTarget::Array { element, .. } => Some(element),
            RuntimeReferenceTarget::Slice(element) => Some(element),
            _ => None,
        },
        _ => None,
    }
}

pub fn indexed_element(base: RuntimeExpressionType) -> (result: Option<RuntimeArrayElementType>)
    ensures
        result == element_under_index(base),
{
    match base {
        RuntimeExpressionType::Array { element, .. } => Some(element),
        RuntimeExpressionType::Reference { target, .. } => match target {
            RuntimeReferenceTarget::Array { element, .. } => Some(element),
            RuntimeReferenceTarget::Slice(element) => Some(element),
            _ => None,
        },
        _ => None,
    }
}

/// The type of an element.
pub open spec fn typed_index(index: Typing, base: Typing) -> Typing {
    match index {
        Err(kind) => Err(kind),
        Ok(index) => if !index_type(index) {
            Err(CodegenErrorKind::RuntimeTypeMismatch)
        } else {
            match base {
                Err(kind) => Err(kind),
                Ok(base) => match element_under_index(base) {
                    Some(element) => Ok(element_type(element)),
                    None => Err(CodegenErrorKind::RuntimeTypeMismatch),
                },
            }
        },
    }
}

pub fn index_expression_type(index: Typing, base: Typing) -> (result: Typing)
    ensures
        result == typed_index(index, base),
{
    match index {
        Err(kind) => Err(kind),
        Ok(index) => if !is_index_type(index) {
            Err(CodegenErrorKind::RuntimeTypeMismatch)
        } else {
            match base {
                Err(kind) => Err(kind),
                Ok(base) => match indexed_element(base) {
                    Some(element) => Ok(runtime_type_from_array_element(element)),
                    None => Err(CodegenErrorKind::RuntimeTypeMismatch),
                },
            }
        },
    }
}

/// The type of what is asked of a slice or a string.
pub open spec fn typed_slice_query(base: Typing, answer: RuntimeExpressionType) -> Typing {
    match base {
        Err(kind) => Err(kind),
        Ok(base) => if fat_reference(base) {
            Ok(answer)
        } else {
            Err(CodegenErrorKind::RuntimeTypeMismatch)
        },
    }
}

pub fn slice_query_type(base: Typing, answer: RuntimeExpressionType) -> (result: Typing)
    ensures
        result == typed_slice_query(base, answer),
{
    match base {
        Err(kind) => Err(kind),
        Ok(base) => if is_fat_reference(base) {
            Ok(answer)
        } else {
            Err(CodegenErrorKind::RuntimeTypeMismatch)
        },
    }
}

pub open spec fn string_reference(ty: RuntimeExpressionType) -> bool {
    match ty {
        RuntimeExpressionType::Reference { target, .. } => target == RuntimeReferenceTarget::Str,
        _ => false,
    }
}

pub fn is_string_reference(ty: RuntimeExpressionType) -> (result: bool)
    ensures
        result == string_reference(ty),
{
    match ty {
        RuntimeExpressionType::Reference { target, .. } => target == RuntimeReferenceTarget::Str,
        _ => false,
    }
}

/// The type of the bytes of a string.
pub open spec fn typed_string_bytes(base: Typing) -> Typing {
    match base {
        Err(kind) => Err(kind),
        Ok(base) => if string_reference(base) {
            Ok(
                RuntimeExpressionType::Reference {
                    target: RuntimeReferenceTarget::Slice(
                        RuntimeArrayElementType::Integer(Some(IntegerType::U8)),
                    ),
                    mutable: false,
                },
            )
        } else {
            Err(CodegenErrorKind::RuntimeTypeMismatch)
        },
    }
}

pub fn string_bytes_type(base: Typing) -> (result: Typing)
    ensures
        result == typed_string_bytes(base),
{
    match base {
        Err(kind) => Err(kind),
        Ok(base) => if is_string_reference(base) {
            Ok(
                RuntimeExpressionType::Reference {
                    target: RuntimeReferenceTarget::Slice(
                        RuntimeArrayElementType::Integer(Some(IntegerType::U8)),
                    ),
                    mutable: false,
                },
            )
        } else {
            Err(CodegenErrorKind::RuntimeTypeMismatch)
        },
    }
}

/// The type of the question whether an index is between two characters.
pub open spec fn typed_char_boundary(base: Typing, index: Typing) -> Typing {
    match base {
        Err(kind) => Err(kind),
        Ok(base) => if !string_reference(base) {
            Err(CodegenErrorKind::RuntimeTypeMismatch)
        } else {
            match index {
                Err(kind) => Err(kind),
                Ok(index) => if index_type(index) {
                    Ok(RuntimeExpressionType::Bool)
                } else {
                    Err(CodegenErrorKind::RuntimeTypeMismatch)
                },
            }
        },
    }
}

pub fn char_boundary_type(base: Typing, index: Typing) -> (result: Typing)
    ensures
        result == typed_char_boundary(base, index),
{
    match base {
        Err(kind) => Err(kind),
        Ok(base) => if !is_string_reference(base) {
            Err(CodegenErrorKind::RuntimeTypeMismatch)
        } else {
            match index {
                Err(kind) => Err(kind),
                Ok(index) => if is_index_type(index) {
                    Ok(RuntimeExpressionType::Bool)
                } else {
                    Err(CodegenErrorKind::RuntimeTypeMismatch)
                },
            }
        },
    }
}

/// What a pointer taken from a reference leads to.
pub open spec fn pointed_element(
    target: RuntimeReferenceTarget,
) -> Option<RuntimeArrayElementType> {
    match target {
        RuntimeReferenceTarget::Slice(element) => Some(element),
        RuntimeReferenceTarget::Array { element, .. } => Some(element),
        RuntimeReferenceTarget::Str => Some(
            RuntimeArrayElementType::Integer(Some(IntegerType::U8)),
        ),
        RuntimeReferenceTarget::Scalar(_) => None,
    }
}

pub fn pointer_source(target: RuntimeReferenceTarget) -> (result: Option<RuntimeArrayElementType>)
    ensures
        result == pointed_element(target),
{
    match target {
        RuntimeReferenceTarget::Slice(element) => Some(element),
        RuntimeReferenceTarget::Array { element, .. } => Some(element),
        RuntimeReferenceTarget::Str => Some(
            RuntimeArrayElementType::Integer(Some(IntegerType::U8)),
        ),
        RuntimeReferenceTarget::Scalar(_) => None,
    }
}

/// The type of a pointer taken from a reference.
pub open spec fn typed_pointer(base: Typing, mutable: bool) -> Typing {
    match base {
        Err(kind) => Err(kind),
        Ok(RuntimeExpressionType::Reference { target, mutable: base_mutable }) => match pointed_element(
            target,
        ) {
            Some(pointee) => if mutable && !base_mutable {
                Err(CodegenErrorKind::ImmutableAssignment)
            } else {
                Ok(RuntimeExpressionType::RawPointer { pointee, mutable })
            },
            None => Err(CodegenErrorKind::RuntimeTypeMismatch),
        },
        Ok(_) => Err(CodegenErrorKind::RuntimeTypeMismatch),
    }
}

pub fn reference_pointer_type(base: Typing, mutable: bool) -> (result: Typing)
    ensures
        result == typed_pointer(base, mutable),
{
    match base {
        Err(kind) => Err(kind),
        Ok(RuntimeExpressionType::Reference { target, mutable: base_mutable }) => match pointer_source(
            target,
        ) {
            Some(pointee) => if mutable && !base_mutable {
                Err(CodegenErrorKind::ImmutableAssignment)
            } else {
                Ok(RuntimeExpressionType::RawPointer { pointee, mutable })
            },
            None => Err(CodegenErrorKind::RuntimeTypeMismatch),
        },
        Ok(_) => Err(CodegenErrorKind::RuntimeTypeMismatch),
    }
}

/// The type of a conversion.
pub open spec fn typed_cast(operand: Typing, target: IntegerType) -> Typing {
    match operand {
        Err(kind) => Err(kind),
        Ok(RuntimeExpressionType::Integer(_)) => match width_of_integer(target) {
            Some(_) => Ok(RuntimeExpressionType::Integer(Some(target))),
            None => Err(CodegenErrorKind::UnsupportedRuntimeType),
        },
        Ok(_) => Err(CodegenErrorKind::RuntimeTypeMismatch),
    }
}

pub fn cast_type(operand: Typing, target: IntegerType) -> (result: Typing)
    ensures
        result == typed_cast(operand, target),
{
    match operand {
        Err(kind) => Err(kind),
        Ok(RuntimeExpressionType::Integer(_)) => match integer_width(target) {
            Some(_) => Ok(RuntimeExpressionType::Integer(Some(target))),
            None => Err(CodegenErrorKind::UnsupportedRuntimeType),
        },
        Ok(_) => Err(CodegenErrorKind::RuntimeTypeMismatch),
    }
}

/// The type of a value that is said to be of a type.
pub open spec fn typed_ascription(operand: Typing, target: ScalarType) -> Typing {
    match operand {
        Err(kind) => Err(kind),
        Ok(operand) => match (target, operand) {
            (ScalarType::Bool, RuntimeExpressionType::Bool) => Ok(RuntimeExpressionType::Bool),
            (ScalarType::Integer(target), RuntimeExpressionType::Integer(_)) => Ok(
                RuntimeExpressionType::Integer(Some(target)),
            ),
            _ => Err(CodegenErrorKind::RuntimeTypeMismatch),
        },
    }
}

pub fn ascription_type(operand: Typing, target: ScalarType) -> (result: Typing)
    ensures
        result == typed_ascription(operand, target),
{
    match operand {
        Err(kind) => Err(kind),
        Ok(operand) => match (target, operand) {
            (ScalarType::Bool, RuntimeExpressionType::Bool) => Ok(RuntimeExpressionType::Bool),
            (ScalarType::Integer(target), RuntimeExpressionType::Integer(_)) => Ok(
                RuntimeExpressionType::Integer(Some(target)),
            ),
            _ => Err(CodegenErrorKind::RuntimeTypeMismatch),
        },
    }
}

/// The type of a value that is one of two.
pub open spec fn joined_types(
    then_type: RuntimeExpressionType,
    else_type: RuntimeExpressionType,
) -> RuntimeExpressionType {
    match (then_type, else_type) {
        (RuntimeExpressionType::Default, resolved) => resolved,
        (resolved, RuntimeExpressionType::Default) => resolved,
        (RuntimeExpressionType::Integer(None), resolved) => resolved,
        (resolved, _) => resolved,
    }
}

pub fn joined_type(
    then_type: RuntimeExpressionType,
    else_type: RuntimeExpressionType,
) -> (result: RuntimeExpressionType)
    ensures
        result == joined_types(then_type, else_type),
{
    match (then_type, else_type) {
        (RuntimeExpressionType::Default, resolved) => resolved,
        (resolved, RuntimeExpressionType::Default) => resolved,
        (RuntimeExpressionType::Integer(None), resolved) => resolved,
        (resolved, _) => resolved,
    }
}

/// The type of a choice between two values.
pub open spec fn typed_choice(condition: Typing, then_type: Typing, else_type: Typing) -> Typing {
    match condition {
        Err(kind) => Err(kind),
        Ok(condition) => if condition != RuntimeExpressionType::Bool {
            Err(CodegenErrorKind::RuntimeTypeMismatch)
        } else {
            match then_type {
                Err(kind) => Err(kind),
                Ok(then_type) => match else_type {
                    Err(kind) => Err(kind),
                    Ok(else_type) => if types_agree(then_type, else_type) {
                        Ok(joined_types(then_type, else_type))
                    } else {
                        Err(CodegenErrorKind::RuntimeTypeMismatch)
                    },
                },
            }
        },
    }
}

pub fn choice_type(condition: Typing, then_type: Typing, else_type: Typing) -> (result: Typing)
    ensures
        result == typed_choice(condition, then_type, else_type),
{
    match condition {
        Err(kind) => Err(kind),
        Ok(condition) => if condition != RuntimeExpressionType::Bool {
            Err(CodegenErrorKind::RuntimeTypeMismatch)
        } else {
            match then_type {
                Err(kind) => Err(kind),
                Ok(then_type) => match else_type {
                    Err(kind) => Err(kind),
                    Ok(else_type) => if runtime_types_compatible(then_type, else_type) {
                        Ok(joined_type(then_type, else_type))
                    } else {
                        Err(CodegenErrorKind::RuntimeTypeMismatch)
                    },
                },
            }
        },
    }
}

/// The type of a value behind another that is not used.
pub open spec fn typed_sequence(first: Typing, then: Typing) -> Typing {
    match first {
        Err(kind) => Err(kind),
        Ok(_) => then,
    }
}

pub fn sequence_type(first: Typing, then: Typing) -> (result: Typing)
    ensures
        result == typed_sequence(first, then),
{
    match first {
        Err(kind) => Err(kind),
        Ok(_) => then,
    }
}

pub open spec fn typed_negation(operand: Typing) -> Typing {
    match operand {
        Err(kind) => Err(kind),
        Ok(RuntimeExpressionType::Integer(ty)) => Ok(RuntimeExpressionType::Integer(ty)),
        Ok(_) => Err(CodegenErrorKind::RuntimeTypeMismatch),
    }
}

pub fn negation_type(operand: Typing) -> (result: Typing)
    ensures
        result == typed_negation(operand),
{
    match operand {
        Err(kind) => Err(kind),
        Ok(RuntimeExpressionType::Integer(ty)) => Ok(RuntimeExpressionType::Integer(ty)),
        Ok(_) => Err(CodegenErrorKind::RuntimeTypeMismatch),
    }
}

/// The type of what a value leads to.
pub open spec fn typed_dereference(operand: Typing) -> Typing {
    match operand {
        Err(kind) => Err(kind),
        Ok(RuntimeExpressionType::Reference { target, .. }) => type_behind(target),
        Ok(RuntimeExpressionType::RawPointer { pointee, .. }) => Ok(
            element_type(pointee),
        ),
        Ok(_) => Err(CodegenErrorKind::RuntimeTypeMismatch),
    }
}

pub fn dereference_type(operand: Typing) -> (result: Typing)
    ensures
        result == typed_dereference(operand),
{
    match operand {
        Err(kind) => Err(kind),
        Ok(RuntimeExpressionType::Reference { target, .. }) => runtime_reference_target_type(target),
        Ok(RuntimeExpressionType::RawPointer { pointee, .. }) => Ok(
            runtime_type_from_array_element(pointee),
        ),
        Ok(_) => Err(CodegenErrorKind::RuntimeTypeMismatch),
    }
}

pub open spec fn comparison(operator: BinaryOperator) -> bool {
    match operator {
        BinaryOperator::Equal | BinaryOperator::NotEqual | BinaryOperator::Less
        | BinaryOperator::LessEqual | BinaryOperator::Greater | BinaryOperator::GreaterEqual => true,
        _ => false,
    }
}

pub fn is_comparison(operator: BinaryOperator) -> (result: bool)
    ensures
        result == comparison(operator),
{
    match operator {
        BinaryOperator::Equal | BinaryOperator::NotEqual | BinaryOperator::Less
        | BinaryOperator::LessEqual | BinaryOperator::Greater | BinaryOperator::GreaterEqual => true,
        _ => false,
    }
}

pub open spec fn logical(operator: BinaryOperator) -> bool {
    operator == BinaryOperator::LogicalAnd || operator == BinaryOperator::LogicalOr
}

pub fn is_logical(operator: BinaryOperator) -> (result: bool)
    ensures
        result == logical(operator),
{
    operator == BinaryOperator::LogicalAnd || operator == BinaryOperator::LogicalOr
}

pub open spec fn bitwise(operator: BinaryOperator) -> bool {
    operator == BinaryOperator::BitAnd || operator == BinaryOperator::BitOr || operator
        == BinaryOperator::BitXor
}

pub fn is_bitwise(operator: BinaryOperator) -> (result: bool)
    ensures
        result == bitwise(operator),
{
    operator == BinaryOperator::BitAnd || operator == BinaryOperator::BitOr || operator
        == BinaryOperator::BitXor
}

pub open spec fn shift(operator: BinaryOperator) -> bool {
    operator == BinaryOperator::ShiftLeft || operator == BinaryOperator::ShiftRight
}

pub fn is_shift(operator: BinaryOperator) -> (result: bool)
    ensures
        result == shift(operator),
{
    operator == BinaryOperator::ShiftLeft || operator == BinaryOperator::ShiftRight
}

pub open spec fn typed_logical(left: Typing, right: Typing) -> Typing {
    match left {
        Err(kind) => Err(kind),
        Ok(RuntimeExpressionType::Bool) => match right {
            Err(kind) => Err(kind),
            Ok(RuntimeExpressionType::Bool) => Ok(RuntimeExpressionType::Bool),
            Ok(_) => Err(CodegenErrorKind::RuntimeTypeMismatch),
        },
        Ok(_) => Err(CodegenErrorKind::RuntimeTypeMismatch),
    }
}

pub fn logical_type(left: Typing, right: Typing) -> (result: Typing)
    ensures
        result == typed_logical(left, right),
{
    match left {
        Err(kind) => Err(kind),
        Ok(RuntimeExpressionType::Bool) => match right {
            Err(kind) => Err(kind),
            Ok(RuntimeExpressionType::Bool) => Ok(RuntimeExpressionType::Bool),
            Ok(_) => Err(CodegenErrorKind::RuntimeTypeMismatch),
        },
        Ok(_) => Err(CodegenErrorKind::RuntimeTypeMismatch),
    }
}

/// The type of an operation on two values.
pub open spec fn typed_operands(
    operator: BinaryOperator,
    left: RuntimeExpressionType,
    right: RuntimeExpressionType,
) -> Typing {
    if comparison(operator) && left == right && (left == RuntimeExpressionType::Bool || left
        == RuntimeExpressionType::Unit || left == RuntimeExpressionType::Char) {
        Ok(RuntimeExpressionType::Bool)
    } else if bitwise(operator) && left == RuntimeExpressionType::Bool && right
        == RuntimeExpressionType::Bool {
        Ok(RuntimeExpressionType::Bool)
    } else if shift(operator) {
        match (left, right) {
            (RuntimeExpressionType::Integer(ty), RuntimeExpressionType::Integer(_)) => Ok(
                RuntimeExpressionType::Integer(ty),
            ),
            _ => Err(CodegenErrorKind::RuntimeTypeMismatch),
        }
    } else {
        match unified_integers(left, right) {
            Err(kind) => Err(kind),
            Ok(ty) => if comparison(operator) {
                Ok(RuntimeExpressionType::Bool)
            } else {
                Ok(RuntimeExpressionType::Integer(ty))
            },
        }
    }
}

pub fn operands_type(
    operator: BinaryOperator,
    left: RuntimeExpressionType,
    right: RuntimeExpressionType,
) -> (result: Typing)
    ensures
        result == typed_operands(operator, left, right),
{
    if is_comparison(operator) && left == right && (left == RuntimeExpressionType::Bool || left
        == RuntimeExpressionType::Unit || left == RuntimeExpressionType::Char) {
        Ok(RuntimeExpressionType::Bool)
    } else if is_bitwise(operator) && left == RuntimeExpressionType::Bool && right
        == RuntimeExpressionType::Bool {
        Ok(RuntimeExpressionType::Bool)
    } else if is_shift(operator) {
        match (left, right) {
            (RuntimeExpressionType::Integer(ty), RuntimeExpressionType::Integer(_)) => Ok(
                RuntimeExpressionType::Integer(ty),
            ),
            _ => Err(CodegenErrorKind::RuntimeTypeMismatch),
        }
    } else {
        match unify_integer_types(left, right) {
            Err(kind) => Err(kind),
            Ok(ty) => if is_comparison(operator) {
                Ok(RuntimeExpressionType::Bool)
            } else {
                Ok(RuntimeExpressionType::Integer(ty))
            },
        }
    }
}

pub open spec fn typed_binary(operator: BinaryOperator, left: Typing, right: Typing) -> Typing {
    if logical(operator) {
        typed_logical(left, right)
    } else {
        match left {
            Err(kind) => Err(kind),
            Ok(left) => match right {
                Err(kind) => Err(kind),
                Ok(right) => typed_operands(operator, left, right),
            },
        }
    }
}

pub fn binary_type(operator: BinaryOperator, left: Typing, right: Typing) -> (result: Typing)
    ensures
        result == typed_binary(operator, left, right),
{
    if is_logical(operator) {
        logical_type(left, right)
    } else {
        match left {
            Err(kind) => Err(kind),
            Ok(left) => match right {
                Err(kind) => Err(kind),
                Ok(right) => operands_type(operator, left, right),
            },
        }
    }
}

pub open spec fn typed_repeat(element: Typing, count: usize) -> Typing {
    match element {
        Err(kind) => Err(kind),
        Ok(element) => match type_as_element(element) {
            Err(kind) => Err(kind),
            Ok(element) => Ok(RuntimeExpressionType::Array { element, count }),
        },
    }
}

pub fn repeat_type(element: Typing, count: usize) -> (result: Typing)
    ensures
        result == typed_repeat(element, count),
{
    match element {
        Err(kind) => Err(kind),
        Ok(element) => match runtime_array_element_type(element) {
            Err(kind) => Err(kind),
            Ok(element) => Ok(RuntimeExpressionType::Array { element, count }),
        },
    }
}

/// The type of the elements of an array with one more of them.
pub open spec fn joined_elements(
    found: RuntimeArrayElementType,
    current: RuntimeArrayElementType,
) -> Result<RuntimeArrayElementType, CodegenErrorKind> {
    if found == RuntimeArrayElementType::Default {
        Ok(current)
    } else if current == RuntimeArrayElementType::Default || current == found {
        Ok(found)
    } else if !element_integers_agree(found, current) {
        Err(CodegenErrorKind::RuntimeTypeMismatch)
    } else if found == RuntimeArrayElementType::Integer(None) {
        Ok(current)
    } else {
        Ok(found)
    }
}

pub fn joined_element(
    found: RuntimeArrayElementType,
    current: RuntimeArrayElementType,
) -> (result: Result<RuntimeArrayElementType, CodegenErrorKind>)
    ensures
        result == joined_elements(found, current),
{
    if found == RuntimeArrayElementType::Default {
        Ok(current)
    } else if current == RuntimeArrayElementType::Default || current == found {
        Ok(found)
    } else if !unresolved_integers_agree(found, current) {
        Err(CodegenErrorKind::RuntimeTypeMismatch)
    } else if found == RuntimeArrayElementType::Integer(None) {
        Ok(current)
    } else {
        Ok(found)
    }
}

pub open spec fn typed_next_element(
    found: RuntimeArrayElementType,
    element: Typing,
) -> Result<RuntimeArrayElementType, CodegenErrorKind> {
    match element {
        Err(kind) => Err(kind),
        Ok(element) => match type_as_element(element) {
            Err(kind) => Err(kind),
            Ok(current) => joined_elements(found, current),
        },
    }
}

pub fn next_element(
    found: RuntimeArrayElementType,
    element: Typing,
) -> (result: Result<RuntimeArrayElementType, CodegenErrorKind>)
    ensures
        result == typed_next_element(found, element),
{
    match element {
        Err(kind) => Err(kind),
        Ok(element) => match runtime_array_element_type(element) {
            Err(kind) => Err(kind),
            Ok(current) => joined_element(found, current),
        },
    }
}

/// The type of a reference to a target.
pub open spec fn typed_reference(
    target: Result<RuntimeReferenceTarget, CodegenErrorKind>,
    mutable: bool,
) -> Typing {
    match target {
        Err(kind) => Err(kind),
        Ok(target) => Ok(RuntimeExpressionType::Reference { target, mutable }),
    }
}

pub fn reference_to(
    target: Result<RuntimeReferenceTarget, CodegenErrorKind>,
    mutable: bool,
) -> (result: Typing)
    ensures
        result == typed_reference(target, mutable),
{
    match target {
        Err(kind) => Err(kind),
        Ok(target) => Ok(RuntimeExpressionType::Reference { target, mutable }),
    }
}

pub open spec fn typed_target(
    operand: Typing,
) -> Result<RuntimeReferenceTarget, CodegenErrorKind> {
    match operand {
        Err(kind) => Err(kind),
        Ok(ty) => type_as_target(ty),
    }
}

pub fn target_of_type(
    operand: Typing,
) -> (result: Result<RuntimeReferenceTarget, CodegenErrorKind>)
    ensures
        result == typed_target(operand),
{
    match operand {
        Err(kind) => Err(kind),
        Ok(ty) => runtime_reference_target_from_type(ty),
    }
}

/// What a reference made anew from another leads to.
pub open spec fn typed_reborrow(
    reference: Typing,
    mutable: bool,
) -> Result<RuntimeReferenceTarget, CodegenErrorKind> {
    match reference {
        Err(kind) => Err(kind),
        Ok(RuntimeExpressionType::Reference { target, mutable: source_mutable }) => if mutable
            && !source_mutable {
            Err(CodegenErrorKind::ImmutableAssignment)
        } else {
            Ok(target)
        },
        Ok(_) => Err(CodegenErrorKind::RuntimeTypeMismatch),
    }
}

pub fn reborrowed_target(
    reference: Typing,
    mutable: bool,
) -> (result: Result<RuntimeReferenceTarget, CodegenErrorKind>)
    ensures
        result == typed_reborrow(reference, mutable),
{
    match reference {
        Err(kind) => Err(kind),
        Ok(RuntimeExpressionType::Reference { target, mutable: source_mutable }) => if mutable
            && !source_mutable {
            Err(CodegenErrorKind::ImmutableAssignment)
        } else {
            Ok(target)
        },
        Ok(_) => Err(CodegenErrorKind::RuntimeTypeMismatch),
    }
}

/// What a range of a value leads to.
#[derive(Clone, Copy, Debug, PartialEq, Eq, Structural)]
pub struct RangeSource {
    pub target: RuntimeReferenceTarget,
    pub count: Option<usize>,
    pub mutable: bool,
}

/// What a range of a value of the type leads to; `local` is whether the value is a local, and if so
/// whether it can be changed.
pub open spec fn ranged_source(
    base: RuntimeExpressionType,
    local: Option<bool>,
) -> Option<RangeSource> {
    match base {
        RuntimeExpressionType::Reference { target, mutable } => match target {
            RuntimeReferenceTarget::Array { element, count } => Some(
                RangeSource {
                    target: RuntimeReferenceTarget::Slice(element),
                    count: Some(count),
                    mutable,
                },
            ),
            RuntimeReferenceTarget::Slice(element) => Some(
                RangeSource {
                    target: RuntimeReferenceTarget::Slice(element),
                    count: None,
                    mutable,
                },
            ),
            RuntimeReferenceTarget::Str => Some(
                RangeSource { target: RuntimeReferenceTarget::Str, count: None, mutable },
            ),
            RuntimeReferenceTarget::Scalar(_) => None,
        },
        RuntimeExpressionType::Array { element, count } => match local {
            Some(mutable) => Some(
                RangeSource {
                    target: RuntimeReferenceTarget::Slice(element),
                    count: Some(count),
                    mutable,
                },
            ),
            None => None,
        },
        _ => None,
    }
}

pub fn range_source(
    base: RuntimeExpressionType,
    local: Option<bool>,
) -> (result: Option<RangeSource>)
    ensures
        result == ranged_source(base, local),
{
    match base {
        RuntimeExpressionType::Reference { target, mutable } => match target {
            RuntimeReferenceTarget::Array { element, count } => Some(
                RangeSource {
                    target: RuntimeReferenceTarget::Slice(element),
                    count: Some(count),
                    mutable,
                },
            ),
            RuntimeReferenceTarget::Slice(element) => Some(
                RangeSource {
                    target: RuntimeReferenceTarget::Slice(element),
                    count: None,
                    mutable,
                },
            ),
            RuntimeReferenceTarget::Str => Some(
                RangeSource { target: RuntimeReferenceTarget::Str, count: None, mutable },
            ),
            RuntimeReferenceTarget::Scalar(_) => None,
        },
        RuntimeExpressionType::Array { element, count } => match local {
            Some(mutable) => Some(
                RangeSource {
                    target: RuntimeReferenceTarget::Slice(element),
                    count: Some(count),
                    mutable,
                },
            ),
            None => None,
        },
        _ => None,
    }
}

/// What is wrong with the type of an end of a range.
pub open spec fn typed_endpoint(endpoint: Typing) -> Option<CodegenErrorKind> {
    match endpoint {
        Err(kind) => Some(kind),
        Ok(ty) => if index_type(ty) {
            None
        } else {
            Some(CodegenErrorKind::RuntimeTypeMismatch)
        },
    }
}

pub fn endpoint_problem(endpoint: Typing) -> (result: Option<CodegenErrorKind>)
    ensures
        result == typed_endpoint(endpoint),
{
    match endpoint {
        Err(kind) => Some(kind),
        Ok(ty) => if is_index_type(ty) {
            None
        } else {
            Some(CodegenErrorKind::RuntimeTypeMismatch)
        },
    }
}

pub open spec fn first_of(
    first: Option<CodegenErrorKind>,
    second: Option<CodegenErrorKind>,
) -> Option<CodegenErrorKind> {
    match first {
        Some(kind) => Some(kind),
        None => second,
    }
}

pub fn first_problem(
    first: Option<CodegenErrorKind>,
    second: Option<CodegenErrorKind>,
) -> (result: Option<CodegenErrorKind>)
    ensures
        result == first_of(first, second),
{
    match first {
        Some(kind) => Some(kind),
        None => second,
    }
}

/// What a reference to a range leads to.
pub open spec fn typed_range(
    base: Typing,
    local: Option<bool>,
    mutable: bool,
    open_inclusive: bool,
    ends: Option<CodegenErrorKind>,
    bounds: Option<CodegenErrorKind>,
) -> Result<RuntimeReferenceTarget, CodegenErrorKind> {
    match base {
        Err(kind) => Err(kind),
        Ok(base) => match ranged_source(base, local) {
            None => Err(CodegenErrorKind::RuntimeTypeMismatch),
            Some(source) => if mutable && !source.mutable {
                Err(CodegenErrorKind::ImmutableAssignment)
            } else if open_inclusive {
                Err(CodegenErrorKind::RuntimeExpressionUnsupported)
            } else {
                match ends {
                    Some(kind) => Err(kind),
                    None => match bounds {
                        Some(kind) => Err(kind),
                        None => Ok(source.target),
                    },
                }
            },
        },
    }
}

pub fn ranged_target(
    base: Typing,
    local: Option<bool>,
    mutable: bool,
    open_inclusive: bool,
    ends: Option<CodegenErrorKind>,
    bounds: Option<CodegenErrorKind>,
) -> (result: Result<RuntimeReferenceTarget, CodegenErrorKind>)
    ensures
        result == typed_range(base, local, mutable, open_inclusive, ends, bounds),
{
    match base {
        Err(kind) => Err(kind),
        Ok(base) => match range_source(base, local) {
            None => Err(CodegenErrorKind::RuntimeTypeMismatch),
            Some(source) => if mutable && !source.mutable {
                Err(CodegenErrorKind::ImmutableAssignment)
            } else if open_inclusive {
                Err(CodegenErrorKind::RuntimeExpressionUnsupported)
            } else {
                match ends {
                    Some(kind) => Err(kind),
                    None => match bounds {
                        Some(kind) => Err(kind),
                        None => Ok(source.target),
                    },
                }
            },
        },
    }
}

/// How many elements a range can be held against before the program runs.
pub open spec fn counted(base: Typing, local: Option<bool>) -> Option<usize> {
    match base {
        Err(_) => None,
        Ok(base) => match ranged_source(base, local) {
            Some(source) => source.count,
            None => None,
        },
    }
}

pub fn counted_elements(base: Typing, local: Option<bool>) -> (result: Option<usize>)
    ensures
        result == counted(base, local),
{
    match base {
        Err(_) => None,
        Ok(base) => match range_source(base, local) {
            Some(source) => source.count,
            None => None,
        },
    }
}

/// What a reference to an element leads to; `identifier` is whether the array is named, `local`
/// whether it can be changed.
pub open spec fn typed_element(
    index: Typing,
    base: Typing,
    identifier: bool,
    local: bool,
    mutable: bool,
) -> Result<RuntimeReferenceTarget, CodegenErrorKind> {
    match index {
        Err(kind) => Err(kind),
        Ok(index) => if !index_type(index) {
            Err(CodegenErrorKind::RuntimeTypeMismatch)
        } else {
            match base {
                Err(kind) => Err(kind),
                Ok(base) => match accessed_element(base, identifier, local) {
                    None => Err(CodegenErrorKind::RuntimeTypeMismatch),
                    Some((element, changeable)) => if mutable && !changeable {
                        Err(CodegenErrorKind::ImmutableAssignment)
                    } else {
                        type_as_target(element_type(element))
                    },
                },
            }
        },
    }
}

pub fn element_target(
    index: Typing,
    base: Typing,
    identifier: bool,
    local: bool,
    mutable: bool,
) -> (result: Result<RuntimeReferenceTarget, CodegenErrorKind>)
    ensures
        result == typed_element(index, base, identifier, local, mutable),
{
    match index {
        Err(kind) => Err(kind),
        Ok(index) => if !is_index_type(index) {
            Err(CodegenErrorKind::RuntimeTypeMismatch)
        } else {
            match base {
                Err(kind) => Err(kind),
                Ok(base) => match element_and_access(base, identifier, local) {
                    None => Err(CodegenErrorKind::RuntimeTypeMismatch),
                    Some((element, changeable)) => if mutable && !changeable {
                        Err(CodegenErrorKind::ImmutableAssignment)
                    } else {
                        runtime_reference_target_from_type(runtime_type_from_array_element(element))
                    },
                },
            }
        },
    }
}

/// The type of the elements and whether they can be changed.
pub open spec fn accessed_element(
    base: RuntimeExpressionType,
    identifier: bool,
    local: bool,
) -> Option<(RuntimeArrayElementType, bool)> {
    match base {
        RuntimeExpressionType::Reference { target, mutable } => match target {
            RuntimeReferenceTarget::Array { element, .. } => Some((element, mutable)),
            RuntimeReferenceTarget::Slice(element) => Some((element, mutable)),
            _ => None,
        },
        RuntimeExpressionType::Array { element, .. } => if identifier {
            Some((element, local))
        } else {
            None
        },
        _ => None,
    }
}

pub fn element_and_access(
    base: RuntimeExpressionType,
    identifier: bool,
    local: bool,
) -> (result: Option<(RuntimeArrayElementType, bool)>)
    ensures
        result == accessed_element(base, identifier, local),
{
    match base {
        RuntimeExpressionType::Reference { target, mutable } => match target {
            RuntimeReferenceTarget::Array { element, .. } => Some((element, mutable)),
            RuntimeReferenceTarget::Slice(element) => Some((element, mutable)),
            _ => None,
        },
        RuntimeExpressionType::Array { element, .. } => if identifier {
            Some((element, local))
        } else {
            None
        },
        _ => None,
    }
}

/// The width of what range patterns are held against, if it is known.
pub open spec fn ranged_width(
    scrutinee: Typing,
) -> Result<Option<RuntimeWidth>, CodegenErrorKind> {
    match scrutinee {
        Err(kind) => Err(kind),
        Ok(RuntimeExpressionType::Integer(Some(ty))) => match width_of_integer(ty) {
            Some(width) => Ok(Some(width)),
            None => Err(CodegenErrorKind::UnsupportedRuntimeType),
        },
        Ok(RuntimeExpressionType::Char) => Ok(Some(width_of_char())),
        Ok(RuntimeExpressionType::Integer(None)) => Ok(None),
        Ok(RuntimeExpressionType::Bool) => Err(CodegenErrorKind::InvalidRangeType),
        Ok(_) => Err(CodegenErrorKind::RuntimeTypeMismatch),
    }
}

pub fn scrutinee_width(
    scrutinee: Typing,
) -> (result: Result<Option<RuntimeWidth>, CodegenErrorKind>)
    ensures
        result == ranged_width(scrutinee),
{
    match scrutinee {
        Err(kind) => Err(kind),
        Ok(RuntimeExpressionType::Integer(Some(ty))) => match integer_width(ty) {
            Some(width) => Ok(Some(width)),
            None => Err(CodegenErrorKind::UnsupportedRuntimeType),
        },
        Ok(RuntimeExpressionType::Char) => Ok(Some(char_width())),
        Ok(RuntimeExpressionType::Integer(None)) => Ok(None),
        Ok(RuntimeExpressionType::Bool) => Err(CodegenErrorKind::InvalidRangeType),
        Ok(_) => Err(CodegenErrorKind::RuntimeTypeMismatch),
    }
}

/// Whether the negative of a number is in a width.
pub open spec fn negative_in_width(value: u128, width: RuntimeWidth) -> bool {
    width.signed && value <= width.maximum as u128 + 1
}

pub fn negative_fits(value: u128, width: RuntimeWidth) -> (result: bool)
    ensures
        result == negative_in_width(value, width),
{
    width.signed && value <= width.maximum as u128 + 1
}

pub open spec fn fit_of_endpoint(fits: bool) -> Option<CodegenErrorKind> {
    if fits {
        None
    } else {
        Some(CodegenErrorKind::RangeEndpointOutOfRange)
    }
}

pub fn endpoint_fit(fits: bool) -> (result: Option<CodegenErrorKind>)
    ensures
        result == fit_of_endpoint(fits),
{
    if fits {
        None
    } else {
        Some(CodegenErrorKind::RangeEndpointOutOfRange)
    }
}

/// What is wrong with an end that is a constant of a type.
pub open spec fn problem_of_named_endpoint(
    ty: Option<IntegerType>,
    width: RuntimeWidth,
) -> Option<CodegenErrorKind> {
    match ty {
        None => None,
        Some(ty) => match width_of_integer(ty) {
            None => Some(CodegenErrorKind::UnsupportedRuntimeType),
            Some(other) => fit_of_endpoint(other == width),
        },
    }
}

pub fn named_endpoint_problem(
    ty: Option<IntegerType>,
    width: RuntimeWidth,
) -> (result: Option<CodegenErrorKind>)
    ensures
        result == problem_of_named_endpoint(ty, width),
{
    match ty {
        None => None,
        Some(ty) => match integer_width(ty) {
            None => Some(CodegenErrorKind::UnsupportedRuntimeType),
            Some(other) => endpoint_fit(other == width),
        },
    }
}

} // verus!
