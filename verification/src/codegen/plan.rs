//! What the signature of a function decides.
use crate::codegen::error::CodegenErrorKind;
use crate::codegen::frame::X86_64Abi;
use crate::codegen::runtime::{
    RuntimeArrayElementType, RuntimeExpressionType, RuntimeReferenceTarget, array_layout,
    element_bytes, fat_reference, integer_named, integer_width, is_fat_reference,
    runtime_array_abi_layout, runtime_array_element_bytes, width_of_integer,
};
use crate::codegen::types::{
    compound_type, runtime_compound_type,
};
use crate::integer::{
    IntegerType, integer_type_named,
};
use crate::text::same_text;
use crate::codegen::trees::Operand;
use vstd::prelude::*;

verus! {

/// How many parameters a function may have.
pub const MAX_X86_64_ABI_PARAMETERS: usize = 16;

/// What a function gives back.
#[derive(Clone, Copy, Debug, PartialEq, Eq, Structural)]
pub struct Outcome {
    pub ty: RuntimeExpressionType,
    /// The type of numbers that say no type of their own.
    pub operand: Operand,
    /// Whether the parameters rather than the result say what such numbers are.
    pub free: bool,
}

/// What a function gives back whose result is no array, reference or pointer.
pub open spec fn outcome_of_scalar(text: Seq<char>) -> Option<Outcome> {
    if text == "()"@ {
        Some(
            Outcome {
                ty: RuntimeExpressionType::Unit,
                operand: Operand::Integer(IntegerType::U64),
                free: true,
            },
        )
    } else if text == "bool"@ {
        Some(
            Outcome {
                ty: RuntimeExpressionType::Bool,
                operand: Operand::Integer(IntegerType::U64),
                free: true,
            },
        )
    } else if text == "char"@ {
        Some(Outcome { ty: RuntimeExpressionType::Char, operand: Operand::Char, free: false })
    } else {
        match integer_type_named(text) {
            None => None,
            Some(ty) => match width_of_integer(ty) {
                None => None,
                Some(_) => Some(
                    Outcome {
                        ty: RuntimeExpressionType::Integer(Some(ty)),
                        operand: Operand::Integer(ty),
                        free: false,
                    },
                ),
            },
        }
    }
}

pub fn scalar_outcome(text: &str) -> (result: Option<Outcome>)
    ensures
        result == outcome_of_scalar(text@),
{
    if same_text(text, "()") {
        Some(
            Outcome {
                ty: RuntimeExpressionType::Unit,
                operand: Operand::Integer(IntegerType::U64),
                free: true,
            },
        )
    } else if same_text(text, "bool") {
        Some(
            Outcome {
                ty: RuntimeExpressionType::Bool,
                operand: Operand::Integer(IntegerType::U64),
                free: true,
            },
        )
    } else if same_text(text, "char") {
        Some(Outcome { ty: RuntimeExpressionType::Char, operand: Operand::Char, free: false })
    } else {
        match integer_named(text) {
            None => None,
            Some(ty) => match integer_width(ty) {
                None => None,
                Some(_) => Some(
                    Outcome {
                        ty: RuntimeExpressionType::Integer(Some(ty)),
                        operand: Operand::Integer(ty),
                        free: false,
                    },
                ),
            },
        }
    }
}

/// Whether an element is a truth value, a character or a number.
pub open spec fn plain_element(element: RuntimeArrayElementType) -> bool {
    match element {
        RuntimeArrayElementType::Bool | RuntimeArrayElementType::Char => true,
        RuntimeArrayElementType::Integer(Some(_)) => true,
        _ => false,
    }
}

pub fn is_plain_element(element: RuntimeArrayElementType) -> (result: bool)
    ensures
        result == plain_element(element),
{
    match element {
        RuntimeArrayElementType::Bool | RuntimeArrayElementType::Char => true,
        RuntimeArrayElementType::Integer(Some(_)) => true,
        _ => false,
    }
}

pub open spec fn operand_of_array(element: RuntimeArrayElementType) -> Operand {
    match element {
        RuntimeArrayElementType::Integer(Some(ty)) => Operand::Integer(ty),
        RuntimeArrayElementType::Char => Operand::Char,
        _ => Operand::Integer(IntegerType::U64),
    }
}

pub fn array_operand(element: RuntimeArrayElementType) -> (result: Operand)
    ensures
        result == operand_of_array(element),
{
    match element {
        RuntimeArrayElementType::Integer(Some(ty)) => Operand::Integer(ty),
        RuntimeArrayElementType::Char => Operand::Char,
        _ => Operand::Integer(IntegerType::U64),
    }
}

/// Whether an array takes no room.
pub open spec fn empty_array(ty: RuntimeExpressionType) -> bool {
    match array_layout(ty) {
        Some(layout) => layout.bytes == 0,
        None => false,
    }
}

pub fn is_empty_array(ty: RuntimeExpressionType) -> (result: bool)
    ensures
        result == empty_array(ty),
{
    match runtime_array_abi_layout(ty) {
        Some(layout) => layout.bytes == 0,
        None => false,
    }
}

/// What a function gives back whose result is an array, a reference or a pointer.
pub open spec fn outcome_of_compound(ty: RuntimeExpressionType) -> Option<Outcome> {
    match ty {
        RuntimeExpressionType::Array { element, .. } => Some(
            Outcome {
                ty,
                operand: operand_of_array(element),
                free: element == RuntimeArrayElementType::Bool || empty_array(ty),
            },
        ),
        RuntimeExpressionType::Reference { target, .. } => if plain_target(target) {
            Some(Outcome { ty, operand: Operand::Integer(IntegerType::U64), free: false })
        } else {
            None
        },
        _ => Some(Outcome { ty, operand: Operand::Integer(IntegerType::U64), free: false }),
    }
}

pub fn compound_outcome(ty: RuntimeExpressionType) -> (result: Option<Outcome>)
    ensures
        result == outcome_of_compound(ty),
{
    match ty {
        RuntimeExpressionType::Array { element, .. } => Some(
            Outcome {
                ty,
                operand: array_operand(element),
                free: element == RuntimeArrayElementType::Bool || is_empty_array(ty),
            },
        ),
        RuntimeExpressionType::Reference { target, .. } => if is_plain_target(target) {
            Some(Outcome { ty, operand: Operand::Integer(IntegerType::U64), free: false })
        } else {
            None
        },
        _ => Some(Outcome { ty, operand: Operand::Integer(IntegerType::U64), free: false }),
    }
}

pub open spec fn plain_target(target: RuntimeReferenceTarget) -> bool {
    match target {
        RuntimeReferenceTarget::Scalar(element) => plain_element(element),
        RuntimeReferenceTarget::Slice(element) => plain_element(element),
        RuntimeReferenceTarget::Array { element, .. } => plain_element(element),
        RuntimeReferenceTarget::Str => true,
    }
}

pub fn is_plain_target(target: RuntimeReferenceTarget) -> (result: bool)
    ensures
        result == plain_target(target),
{
    match target {
        RuntimeReferenceTarget::Scalar(element) => is_plain_element(element),
        RuntimeReferenceTarget::Slice(element) => is_plain_element(element),
        RuntimeReferenceTarget::Array { element, .. } => is_plain_element(element),
        RuntimeReferenceTarget::Str => true,
    }
}

/// What a function gives back, by the text of its result type.
pub open spec fn outcome_named(text: Seq<char>) -> Option<Outcome> {
    match compound_type(text) {
        Some(ty) => outcome_of_compound(ty),
        None => outcome_of_scalar(text),
    }
}

pub fn read_outcome(text: &str) -> (result: Option<Outcome>)
    ensures
        result == outcome_named(text@),
{
    match runtime_compound_type(text) {
        Some(ty) => compound_outcome(ty),
        None => scalar_outcome(text),
    }
}

/// The numbers that an element says: none, those of a type, or that it cannot be passed.
pub open spec fn operand_of_element(
    element: RuntimeArrayElementType,
) -> Result<Option<Operand>, CodegenErrorKind> {
    match element {
        RuntimeArrayElementType::Bool | RuntimeArrayElementType::Char => Ok(None),
        RuntimeArrayElementType::Integer(Some(ty)) => Ok(Some(Operand::Integer(ty))),
        _ => Err(CodegenErrorKind::UnsupportedParameterType),
    }
}

pub fn element_operand(
    element: RuntimeArrayElementType,
) -> (result: Result<Option<Operand>, CodegenErrorKind>)
    ensures
        result == operand_of_element(element),
{
    match element {
        RuntimeArrayElementType::Bool | RuntimeArrayElementType::Char => Ok(None),
        RuntimeArrayElementType::Integer(Some(ty)) => Ok(Some(Operand::Integer(ty))),
        _ => Err(CodegenErrorKind::UnsupportedParameterType),
    }
}

pub open spec fn operand_of_target(
    target: RuntimeReferenceTarget,
) -> Result<Option<Operand>, CodegenErrorKind> {
    match target {
        RuntimeReferenceTarget::Scalar(element) => operand_of_element(element),
        RuntimeReferenceTarget::Slice(element) => operand_of_element(element),
        RuntimeReferenceTarget::Array { element, .. } => operand_of_element(element),
        RuntimeReferenceTarget::Str => Ok(None),
    }
}

pub fn target_operand(
    target: RuntimeReferenceTarget,
) -> (result: Result<Option<Operand>, CodegenErrorKind>)
    ensures
        result == operand_of_target(target),
{
    match target {
        RuntimeReferenceTarget::Scalar(element) => element_operand(element),
        RuntimeReferenceTarget::Slice(element) => element_operand(element),
        RuntimeReferenceTarget::Array { element, .. } => element_operand(element),
        RuntimeReferenceTarget::Str => Ok(None),
    }
}

pub open spec fn operand_of_compound(
    ty: RuntimeExpressionType,
) -> Result<Option<Operand>, CodegenErrorKind> {
    match ty {
        RuntimeExpressionType::Reference { target, .. } => operand_of_target(target),
        RuntimeExpressionType::Array { element, count } => if count == 0
            || element_bytes(element) == Some(0usize) {
            Ok(None)
        } else {
            operand_of_element(element)
        },
        _ => Ok(None),
    }
}

pub fn compound_operand(
    ty: RuntimeExpressionType,
) -> (result: Result<Option<Operand>, CodegenErrorKind>)
    ensures
        result == operand_of_compound(ty),
{
    match ty {
        RuntimeExpressionType::Reference { target, .. } => target_operand(target),
        RuntimeExpressionType::Array { element, count } => if count == 0
            || runtime_array_element_bytes(element) == Some(0usize) {
            Ok(None)
        } else {
            element_operand(element)
        },
        _ => Ok(None),
    }
}

/// The numbers that a parameter says, by the text of its type.
pub open spec fn operand_of_parameter(
    text: Seq<char>,
) -> Result<Option<Operand>, CodegenErrorKind> {
    match compound_type(text) {
        Some(ty) => operand_of_compound(ty),
        None => if text == "bool"@ {
            Ok(None)
        } else if text == "char"@ {
            Ok(Some(Operand::Char))
        } else {
            match integer_type_named(text) {
                None => Err(CodegenErrorKind::UnsupportedParameterType),
                Some(ty) => match width_of_integer(ty) {
                    None => Err(CodegenErrorKind::UnsupportedParameterType),
                    Some(_) => Ok(Some(Operand::Integer(ty))),
                },
            }
        },
    }
}

pub fn parameter_operand(text: &str) -> (result: Result<Option<Operand>, CodegenErrorKind>)
    ensures
        result == operand_of_parameter(text@),
{
    match runtime_compound_type(text) {
        Some(ty) => compound_operand(ty),
        None => if same_text(text, "bool") {
            Ok(None)
        } else if same_text(text, "char") {
            Ok(Some(Operand::Char))
        } else {
            match integer_named(text) {
                None => Err(CodegenErrorKind::UnsupportedParameterType),
                Some(ty) => match integer_width(ty) {
                    None => Err(CodegenErrorKind::UnsupportedParameterType),
                    Some(_) => Ok(Some(Operand::Integer(ty))),
                },
            }
        },
    }
}

pub open spec fn first_of_operands(
    first: Option<Operand>,
    second: Option<Operand>,
) -> Option<Operand> {
    match first {
        Some(operand) => Some(operand),
        None => second,
    }
}

pub fn first_operand(first: Option<Operand>, second: Option<Operand>) -> (result: Option<Operand>)
    ensures
        result == first_of_operands(first, second),
{
    match first {
        Some(operand) => Some(operand),
        None => second,
    }
}

/// The type of numbers that say no type of their own, in a whole function.
pub open spec fn operand_of_function(outcome: Outcome, parameters: Option<Operand>) -> Operand {
    match parameters {
        Some(operand) => if outcome.free {
            operand
        } else {
            outcome.operand
        },
        None => outcome.operand,
    }
}

pub fn final_operand(outcome: Outcome, parameters: Option<Operand>) -> (result: Operand)
    ensures
        result == operand_of_function(outcome, parameters),
{
    match parameters {
        Some(operand) => if outcome.free {
            operand
        } else {
            outcome.operand
        },
        None => outcome.operand,
    }
}

/// Whether the caller hands over the address of the result.
pub open spec fn passes_result_address(abi: X86_64Abi, ty: RuntimeExpressionType) -> bool {
    match array_layout(ty) {
        Some(layout) => match abi {
            X86_64Abi::Windows => layout.bytes != 0 && layout.bytes != 1 && layout.bytes != 2
                && layout.bytes != 4 && layout.bytes != 8,
            X86_64Abi::SystemV => layout.words > 2,
        },
        None => abi == X86_64Abi::Windows && fat_reference(ty),
    }
}

pub fn hidden_result(abi: X86_64Abi, ty: RuntimeExpressionType) -> (result: bool)
    ensures
        result == passes_result_address(abi, ty),
{
    match runtime_array_abi_layout(ty) {
        Some(layout) => match abi {
            X86_64Abi::Windows => layout.bytes != 0 && layout.bytes != 1 && layout.bytes != 2
                && layout.bytes != 4 && layout.bytes != 8,
            X86_64Abi::SystemV => layout.words > 2,
        },
        None => abi == X86_64Abi::Windows && is_fat_reference(ty),
    }
}

} // verus!
