//! The types of values at run time, and how they are held.
use crate::codegen::error::CodegenErrorKind;
use crate::integer::{
    IntegerType, integer_type_named,
};
use crate::text::same_text;
use vstd::prelude::*;

verus! {

/// A sum that a machine word can hold.
pub open spec fn sum_of(left: usize, right: usize) -> Option<usize> {
    if left + right <= usize::MAX {
        Some((left + right) as usize)
    } else {
        None
    }
}

pub fn checked_sum(left: usize, right: usize) -> (result: Option<usize>)
    ensures
        result == sum_of(left, right),
{
    left.checked_add(right)
}

/// A product that a machine word can hold.
pub open spec fn product_of(left: usize, right: usize) -> Option<usize> {
    if left * right <= usize::MAX {
        Some((left * right) as usize)
    } else {
        None
    }
}

pub fn checked_product(left: usize, right: usize) -> (result: Option<usize>)
    ensures
        result == product_of(left, right),
{
    left.checked_mul(right)
}

pub fn integer_named(name: &str) -> (result: Option<IntegerType>)
    ensures
        result == integer_type_named(name@),
{
    IntegerType::from_name(name)
}

#[derive(Clone, Copy, Debug, PartialEq, Eq, Structural)]
pub enum RuntimeArrayElementType {
    Unit,
    Default,
    Integer(Option<IntegerType>),
    Bool,
    Char,
}

#[derive(Clone, Copy, Debug, PartialEq, Eq, Structural)]
pub enum RuntimeReferenceTarget {
    Scalar(RuntimeArrayElementType),
    Slice(RuntimeArrayElementType),
    Str,
    Array { element: RuntimeArrayElementType, count: usize },
}

/// The type of a value at run time.
#[derive(Clone, Copy, Debug, PartialEq, Eq, Structural)]
#[allow(inconsistent_fields)]
pub enum RuntimeExpressionType {
    Unit,
    Default,
    Integer(Option<IntegerType>),
    Bool,
    Char,
    Reference { target: RuntimeReferenceTarget, mutable: bool },
    RawPointer { pointee: RuntimeArrayElementType, mutable: bool },
    Array { element: RuntimeArrayElementType, count: usize },
}

/// How the integers of a type are held in a register; `minimum` is the register that holds the
/// smallest of them.
#[derive(Clone, Copy, Debug, PartialEq, Eq, Structural)]
pub struct RuntimeWidth {
    pub bits: u8,
    pub signed: bool,
    pub minimum: u64,
    pub maximum: u64,
}

/// The width of an integer type that fits a register.
pub open spec fn width_of_integer(ty: IntegerType) -> Option<RuntimeWidth> {
    match ty {
        IntegerType::U8 => Some(
            RuntimeWidth { bits: 8, signed: false, minimum: 0, maximum: 0xff },
        ),
        IntegerType::U16 => Some(
            RuntimeWidth { bits: 16, signed: false, minimum: 0, maximum: 0xffff },
        ),
        IntegerType::U32 => Some(
            RuntimeWidth { bits: 32, signed: false, minimum: 0, maximum: 0xffff_ffff },
        ),
        IntegerType::U64 | IntegerType::Usize => Some(
            RuntimeWidth { bits: 64, signed: false, minimum: 0, maximum: 0xffff_ffff_ffff_ffff },
        ),
        IntegerType::I8 => Some(
            RuntimeWidth {
                bits: 8,
                signed: true,
                minimum: 0xffff_ffff_ffff_ff80,
                maximum: 0x7f,
            },
        ),
        IntegerType::I16 => Some(
            RuntimeWidth {
                bits: 16,
                signed: true,
                minimum: 0xffff_ffff_ffff_8000,
                maximum: 0x7fff,
            },
        ),
        IntegerType::I32 => Some(
            RuntimeWidth {
                bits: 32,
                signed: true,
                minimum: 0xffff_ffff_8000_0000,
                maximum: 0x7fff_ffff,
            },
        ),
        IntegerType::I64 | IntegerType::Isize => Some(
            RuntimeWidth {
                bits: 64,
                signed: true,
                minimum: 0x8000_0000_0000_0000,
                maximum: 0x7fff_ffff_ffff_ffff,
            },
        ),
        IntegerType::U128 | IntegerType::I128 => None,
    }
}

pub fn integer_width(ty: IntegerType) -> (result: Option<RuntimeWidth>)
    ensures
        result == width_of_integer(ty),
{
    match ty {
        IntegerType::U8 => Some(
            RuntimeWidth { bits: 8, signed: false, minimum: 0, maximum: 0xff },
        ),
        IntegerType::U16 => Some(
            RuntimeWidth { bits: 16, signed: false, minimum: 0, maximum: 0xffff },
        ),
        IntegerType::U32 => Some(
            RuntimeWidth { bits: 32, signed: false, minimum: 0, maximum: 0xffff_ffff },
        ),
        IntegerType::U64 | IntegerType::Usize => Some(
            RuntimeWidth { bits: 64, signed: false, minimum: 0, maximum: 0xffff_ffff_ffff_ffff },
        ),
        IntegerType::I8 => Some(
            RuntimeWidth {
                bits: 8,
                signed: true,
                minimum: 0xffff_ffff_ffff_ff80,
                maximum: 0x7f,
            },
        ),
        IntegerType::I16 => Some(
            RuntimeWidth {
                bits: 16,
                signed: true,
                minimum: 0xffff_ffff_ffff_8000,
                maximum: 0x7fff,
            },
        ),
        IntegerType::I32 => Some(
            RuntimeWidth {
                bits: 32,
                signed: true,
                minimum: 0xffff_ffff_8000_0000,
                maximum: 0x7fff_ffff,
            },
        ),
        IntegerType::I64 | IntegerType::Isize => Some(
            RuntimeWidth {
                bits: 64,
                signed: true,
                minimum: 0x8000_0000_0000_0000,
                maximum: 0x7fff_ffff_ffff_ffff,
            },
        ),
        IntegerType::U128 | IntegerType::I128 => None,
    }
}

/// The width of a character.
pub open spec fn width_of_char() -> RuntimeWidth {
    RuntimeWidth { bits: 32, signed: false, minimum: 0, maximum: 0xffff_ffff }
}

pub fn char_width() -> (result: RuntimeWidth)
    ensures
        result == width_of_char(),
{
    RuntimeWidth { bits: 32, signed: false, minimum: 0, maximum: 0xffff_ffff }
}

/// The width of a type that is held in a register as a number.
pub open spec fn width_named(ty: Seq<char>) -> Option<RuntimeWidth> {
    if ty == "char"@ {
        Some(width_of_char())
    } else {
        match integer_type_named(ty) {
            Some(ty) => width_of_integer(ty),
            None => None,
        }
    }
}

pub fn runtime_width(ty: &str) -> (result: Option<RuntimeWidth>)
    ensures
        result == width_named(ty@),
{
    if same_text(ty, "char") {
        Some(char_width())
    } else {
        match integer_named(ty) {
            Some(ty) => integer_width(ty),
            None => None,
        }
    }
}

/// The type of the elements as a type of its own.
pub open spec fn element_type(element: RuntimeArrayElementType) -> RuntimeExpressionType {
    match element {
        RuntimeArrayElementType::Unit => RuntimeExpressionType::Unit,
        RuntimeArrayElementType::Default => RuntimeExpressionType::Default,
        RuntimeArrayElementType::Integer(ty) => RuntimeExpressionType::Integer(ty),
        RuntimeArrayElementType::Bool => RuntimeExpressionType::Bool,
        RuntimeArrayElementType::Char => RuntimeExpressionType::Char,
    }
}

pub fn runtime_type_from_array_element(
    element: RuntimeArrayElementType,
) -> (result: RuntimeExpressionType)
    ensures
        result == element_type(element),
{
    match element {
        RuntimeArrayElementType::Unit => RuntimeExpressionType::Unit,
        RuntimeArrayElementType::Default => RuntimeExpressionType::Default,
        RuntimeArrayElementType::Integer(ty) => RuntimeExpressionType::Integer(ty),
        RuntimeArrayElementType::Bool => RuntimeExpressionType::Bool,
        RuntimeArrayElementType::Char => RuntimeExpressionType::Char,
    }
}

/// A type as that of the elements of an array.
pub open spec fn type_as_element(
    ty: RuntimeExpressionType,
) -> Result<RuntimeArrayElementType, CodegenErrorKind> {
    match ty {
        RuntimeExpressionType::Unit => Ok(RuntimeArrayElementType::Unit),
        RuntimeExpressionType::Default => Ok(RuntimeArrayElementType::Default),
        RuntimeExpressionType::Integer(ty) => Ok(RuntimeArrayElementType::Integer(ty)),
        RuntimeExpressionType::Bool => Ok(RuntimeArrayElementType::Bool),
        RuntimeExpressionType::Char => Ok(RuntimeArrayElementType::Char),
        _ => Err(CodegenErrorKind::RuntimeTypeMismatch),
    }
}

pub fn runtime_array_element_type(
    ty: RuntimeExpressionType,
) -> (result: Result<RuntimeArrayElementType, CodegenErrorKind>)
    ensures
        result == type_as_element(ty),
{
    match ty {
        RuntimeExpressionType::Unit => Ok(RuntimeArrayElementType::Unit),
        RuntimeExpressionType::Default => Ok(RuntimeArrayElementType::Default),
        RuntimeExpressionType::Integer(ty) => Ok(RuntimeArrayElementType::Integer(ty)),
        RuntimeExpressionType::Bool => Ok(RuntimeArrayElementType::Bool),
        RuntimeExpressionType::Char => Ok(RuntimeArrayElementType::Char),
        _ => Err(CodegenErrorKind::RuntimeTypeMismatch),
    }
}

/// The type of what a reference leads to.
pub open spec fn type_behind(
    target: RuntimeReferenceTarget,
) -> Result<RuntimeExpressionType, CodegenErrorKind> {
    match target {
        RuntimeReferenceTarget::Scalar(element) => Ok(element_type(element)),
        RuntimeReferenceTarget::Slice(_) | RuntimeReferenceTarget::Str => Err(
            CodegenErrorKind::RuntimeExpressionUnsupported,
        ),
        RuntimeReferenceTarget::Array { element, count } => Ok(
            RuntimeExpressionType::Array { element, count },
        ),
    }
}

pub fn runtime_reference_target_type(
    target: RuntimeReferenceTarget,
) -> (result: Result<RuntimeExpressionType, CodegenErrorKind>)
    ensures
        result == type_behind(target),
{
    match target {
        RuntimeReferenceTarget::Scalar(element) => Ok(runtime_type_from_array_element(element)),
        RuntimeReferenceTarget::Slice(_) | RuntimeReferenceTarget::Str => Err(
            CodegenErrorKind::RuntimeExpressionUnsupported,
        ),
        RuntimeReferenceTarget::Array { element, count } => Ok(
            RuntimeExpressionType::Array { element, count },
        ),
    }
}

/// A type as that of what a reference leads to.
pub open spec fn type_as_target(
    ty: RuntimeExpressionType,
) -> Result<RuntimeReferenceTarget, CodegenErrorKind> {
    match ty {
        RuntimeExpressionType::Array { element, count } => Ok(
            RuntimeReferenceTarget::Array { element, count },
        ),
        RuntimeExpressionType::Reference { .. } | RuntimeExpressionType::RawPointer { .. } => Err(
            CodegenErrorKind::RuntimeExpressionUnsupported,
        ),
        scalar => match type_as_element(scalar) {
            Ok(element) => Ok(RuntimeReferenceTarget::Scalar(element)),
            Err(kind) => Err(kind),
        },
    }
}

pub fn runtime_reference_target_from_type(
    ty: RuntimeExpressionType,
) -> (result: Result<RuntimeReferenceTarget, CodegenErrorKind>)
    ensures
        result == type_as_target(ty),
{
    match ty {
        RuntimeExpressionType::Array { element, count } => Ok(
            RuntimeReferenceTarget::Array { element, count },
        ),
        RuntimeExpressionType::Reference { .. } | RuntimeExpressionType::RawPointer { .. } => Err(
            CodegenErrorKind::RuntimeExpressionUnsupported,
        ),
        scalar => match runtime_array_element_type(scalar) {
            Ok(element) => Ok(RuntimeReferenceTarget::Scalar(element)),
            Err(kind) => Err(kind),
        },
    }
}

/// Whether a value of the type is a pointer with a length.
pub open spec fn fat_reference(ty: RuntimeExpressionType) -> bool {
    match ty {
        RuntimeExpressionType::Reference { target, .. } => match target {
            RuntimeReferenceTarget::Slice(_) | RuntimeReferenceTarget::Str => true,
            _ => false,
        },
        _ => false,
    }
}

pub fn is_fat_reference(ty: RuntimeExpressionType) -> (result: bool)
    ensures
        result == fat_reference(ty),
{
    match ty {
        RuntimeExpressionType::Reference { target, .. } => match target {
            RuntimeReferenceTarget::Slice(_) | RuntimeReferenceTarget::Str => true,
            _ => false,
        },
        _ => false,
    }
}

/// Whether a value of the type can be an index.
pub open spec fn index_type(ty: RuntimeExpressionType) -> bool {
    match ty {
        RuntimeExpressionType::Integer(None) => true,
        RuntimeExpressionType::Integer(Some(ty)) => ty == IntegerType::Usize,
        _ => false,
    }
}

pub fn is_index_type(ty: RuntimeExpressionType) -> (result: bool)
    ensures
        result == index_type(ty),
{
    match ty {
        RuntimeExpressionType::Integer(None) => true,
        RuntimeExpressionType::Integer(Some(ty)) => ty == IntegerType::Usize,
        _ => false,
    }
}

/// How many bytes an element takes in memory.
pub open spec fn element_bytes(element: RuntimeArrayElementType) -> Option<usize> {
    match element {
        RuntimeArrayElementType::Unit | RuntimeArrayElementType::Default => Some(0),
        RuntimeArrayElementType::Bool => Some(1),
        RuntimeArrayElementType::Char => Some(4),
        RuntimeArrayElementType::Integer(None) => None,
        RuntimeArrayElementType::Integer(Some(ty)) => match ty {
            IntegerType::U8 | IntegerType::I8 => Some(1),
            IntegerType::U16 | IntegerType::I16 => Some(2),
            IntegerType::U32 | IntegerType::I32 => Some(4),
            IntegerType::U64 | IntegerType::I64 | IntegerType::Usize | IntegerType::Isize => Some(8),
            IntegerType::U128 | IntegerType::I128 => Some(16),
        },
    }
}

pub fn runtime_array_element_bytes(element: RuntimeArrayElementType) -> (result: Option<usize>)
    ensures
        result == element_bytes(element),
{
    match element {
        RuntimeArrayElementType::Unit | RuntimeArrayElementType::Default => Some(0),
        RuntimeArrayElementType::Bool => Some(1),
        RuntimeArrayElementType::Char => Some(4),
        RuntimeArrayElementType::Integer(None) => None,
        RuntimeArrayElementType::Integer(Some(ty)) => match ty {
            IntegerType::U8 | IntegerType::I8 => Some(1),
            IntegerType::U16 | IntegerType::I16 => Some(2),
            IntegerType::U32 | IntegerType::I32 => Some(4),
            IntegerType::U64 | IntegerType::I64 | IntegerType::Usize | IntegerType::Isize => Some(8),
            IntegerType::U128 | IntegerType::I128 => Some(16),
        },
    }
}

/// How many stack slots a parameter of the type takes.
pub open spec fn stack_slots(ty: RuntimeExpressionType) -> usize {
    match ty {
        RuntimeExpressionType::Array { count, .. } => count,
        other => if fat_reference(other) {
            2
        } else {
            1
        },
    }
}

pub fn runtime_type_stack_slots(ty: RuntimeExpressionType) -> (result: usize)
    ensures
        result == stack_slots(ty),
{
    match ty {
        RuntimeExpressionType::Array { count, .. } => count,
        other => if is_fat_reference(other) {
            2
        } else {
            1
        },
    }
}

/// How many bytes an element takes where elements are packed.
pub open spec fn packed_bytes(element: RuntimeArrayElementType) -> Option<usize> {
    match element_bytes(element) {
        Some(bytes) => if bytes == 1 || bytes == 2 || bytes == 4 {
            Some(bytes)
        } else {
            None
        },
        None => None,
    }
}

pub fn packed_element_bytes(element: RuntimeArrayElementType) -> (result: Option<usize>)
    ensures
        result == packed_bytes(element),
{
    match runtime_array_element_bytes(element) {
        Some(bytes) => if bytes == 1 || bytes == 2 || bytes == 4 {
            Some(bytes)
        } else {
            None
        },
        None => None,
    }
}

/// How many words of eight bytes hold some elements.
pub open spec fn words_of(bytes: usize, count: usize) -> Option<usize> {
    match product_of(bytes, count) {
        Some(total) => match sum_of(total, 7) {
            Some(total) => Some(total / 8),
            None => None,
        },
        None => None,
    }
}

pub fn words_for(bytes: usize, count: usize) -> (result: Option<usize>)
    ensures
        result == words_of(bytes, count),
{
    match checked_product(bytes, count) {
        Some(total) => match checked_sum(total, 7) {
            Some(total) => Some(total / 8),
            None => None,
        },
        None => None,
    }
}

/// How many stack slots a local of the type takes.
pub open spec fn local_slots(ty: RuntimeExpressionType) -> usize {
    match ty {
        RuntimeExpressionType::Array { element, count } => match packed_bytes(element) {
            Some(bytes) => match words_of(bytes, count) {
                Some(words) => words,
                None => count,
            },
            None => count,
        },
        other => stack_slots(other),
    }
}

/// A packed array takes no more slots than it has elements.
pub proof fn packing_saves_slots(element: RuntimeArrayElementType, count: usize)
    ensures
        local_slots(RuntimeExpressionType::Array { element, count }) <= count,
{
}

pub fn runtime_local_stack_slots(ty: RuntimeExpressionType) -> (result: usize)
    ensures
        result == local_slots(ty),
{
    match ty {
        RuntimeExpressionType::Array { element, count } => match packed_element_bytes(element) {
            Some(bytes) => match words_for(bytes, count) {
                Some(words) => words,
                None => count,
            },
            None => count,
        },
        other => runtime_type_stack_slots(other),
    }
}

/// The width of an element that is a number or a character.
pub open spec fn width_of_element(element: RuntimeArrayElementType) -> Option<RuntimeWidth> {
    match element {
        RuntimeArrayElementType::Integer(Some(ty)) => width_of_integer(ty),
        RuntimeArrayElementType::Char => Some(width_of_char()),
        _ => None,
    }
}

pub fn element_width(element: RuntimeArrayElementType) -> (result: Option<RuntimeWidth>)
    ensures
        result == width_of_element(element),
{
    match element {
        RuntimeArrayElementType::Integer(Some(ty)) => integer_width(ty),
        RuntimeArrayElementType::Char => Some(char_width()),
        _ => None,
    }
}

/// The width of a value of the type, or of its elements.
pub open spec fn width_of_type(ty: RuntimeExpressionType) -> Option<RuntimeWidth> {
    match ty {
        RuntimeExpressionType::Integer(Some(ty)) => width_of_integer(ty),
        RuntimeExpressionType::Char => Some(width_of_char()),
        RuntimeExpressionType::Array { element, .. } => width_of_element(element),
        _ => None,
    }
}

pub fn runtime_expression_width(ty: RuntimeExpressionType) -> (result: Option<RuntimeWidth>)
    ensures
        result == width_of_type(ty),
{
    match ty {
        RuntimeExpressionType::Integer(Some(ty)) => integer_width(ty),
        RuntimeExpressionType::Char => Some(char_width()),
        RuntimeExpressionType::Array { element, .. } => element_width(element),
        _ => None,
    }
}

/// How an array is passed: the bytes of an element, all bytes and all words.
#[derive(Clone, Copy, Debug, PartialEq, Eq, Structural)]
pub struct ArrayLayout {
    pub element_bytes: usize,
    pub bytes: usize,
    pub words: usize,
}

pub open spec fn array_layout(ty: RuntimeExpressionType) -> Option<ArrayLayout> {
    match ty {
        RuntimeExpressionType::Array { element, count } => match element_bytes(
            element,
        ) {
            Some(element_bytes) => match product_of(element_bytes, count) {
                Some(bytes) => match words_of(element_bytes, count) {
                    Some(words) => Some(ArrayLayout { element_bytes, bytes, words }),
                    None => None,
                },
                None => None,
            },
            None => None,
        },
        _ => None,
    }
}

pub fn runtime_array_abi_layout(ty: RuntimeExpressionType) -> (result: Option<ArrayLayout>)
    ensures
        result == array_layout(ty),
{
    match ty {
        RuntimeExpressionType::Array { element, count } => match runtime_array_element_bytes(
            element,
        ) {
            Some(element_bytes) => match checked_product(element_bytes, count) {
                Some(bytes) => match words_for(element_bytes, count) {
                    Some(words) => Some(ArrayLayout { element_bytes, bytes, words }),
                    None => None,
                },
                None => None,
            },
            None => None,
        },
        _ => None,
    }
}

/// Whether one of two integer elements has no type of its own yet.
pub open spec fn element_integers_agree(
    left: RuntimeArrayElementType,
    right: RuntimeArrayElementType,
) -> bool {
    match (left, right) {
        (RuntimeArrayElementType::Integer(None), RuntimeArrayElementType::Integer(Some(_))) => true,
        (RuntimeArrayElementType::Integer(Some(_)), RuntimeArrayElementType::Integer(None)) => true,
        _ => false,
    }
}

pub fn unresolved_integers_agree(
    left: RuntimeArrayElementType,
    right: RuntimeArrayElementType,
) -> (result: bool)
    ensures
        result == element_integers_agree(left, right),
{
    match (left, right) {
        (RuntimeArrayElementType::Integer(None), RuntimeArrayElementType::Integer(Some(_))) => true,
        (RuntimeArrayElementType::Integer(Some(_)), RuntimeArrayElementType::Integer(None)) => true,
        _ => false,
    }
}

/// Whether a value of the one type can stand where the other is expected.
pub open spec fn types_agree(left: RuntimeExpressionType, right: RuntimeExpressionType) -> bool {
    match (left, right) {
        (RuntimeExpressionType::Default, _) => true,
        (_, RuntimeExpressionType::Default) => true,
        (RuntimeExpressionType::Unit, RuntimeExpressionType::Unit) => true,
        (RuntimeExpressionType::Bool, RuntimeExpressionType::Bool) => true,
        (RuntimeExpressionType::Char, RuntimeExpressionType::Char) => true,
        (
            RuntimeExpressionType::Reference { target, mutable },
            RuntimeExpressionType::Reference { target: other, mutable: other_mutable },
        ) => target == other && (mutable || !other_mutable),
        (
            RuntimeExpressionType::RawPointer { pointee, mutable },
            RuntimeExpressionType::RawPointer { pointee: other, mutable: other_mutable },
        ) => pointee == other && (mutable || !other_mutable),
        (RuntimeExpressionType::Integer(left), RuntimeExpressionType::Integer(right)) => match (
            left,
            right,
        ) {
            (Some(left), Some(right)) => left == right,
            _ => true,
        },
        (
            RuntimeExpressionType::Array { element, count },
            RuntimeExpressionType::Array { element: other, count: other_count },
        ) => count == other_count && (element == RuntimeArrayElementType::Default || other
            == RuntimeArrayElementType::Default || element == other || element_integers_agree(
            element,
            other,
        )),
        _ => false,
    }
}

pub fn runtime_types_compatible(
    left: RuntimeExpressionType,
    right: RuntimeExpressionType,
) -> (result: bool)
    ensures
        result == types_agree(left, right),
{
    match (left, right) {
        (RuntimeExpressionType::Default, _) => true,
        (_, RuntimeExpressionType::Default) => true,
        (RuntimeExpressionType::Unit, RuntimeExpressionType::Unit) => true,
        (RuntimeExpressionType::Bool, RuntimeExpressionType::Bool) => true,
        (RuntimeExpressionType::Char, RuntimeExpressionType::Char) => true,
        (
            RuntimeExpressionType::Reference { target, mutable },
            RuntimeExpressionType::Reference { target: other, mutable: other_mutable },
        ) => target == other && (mutable || !other_mutable),
        (
            RuntimeExpressionType::RawPointer { pointee, mutable },
            RuntimeExpressionType::RawPointer { pointee: other, mutable: other_mutable },
        ) => pointee == other && (mutable || !other_mutable),
        (RuntimeExpressionType::Integer(left), RuntimeExpressionType::Integer(right)) => match (
            left,
            right,
        ) {
            (Some(left), Some(right)) => left == right,
            _ => true,
        },
        (
            RuntimeExpressionType::Array { element, count },
            RuntimeExpressionType::Array { element: other, count: other_count },
        ) => count == other_count && (element == RuntimeArrayElementType::Default || other
            == RuntimeArrayElementType::Default || element == other || unresolved_integers_agree(
            element,
            other,
        )),
        _ => false,
    }
}

/// The type of two integers that are used together.
pub open spec fn unified_integers(
    left: RuntimeExpressionType,
    right: RuntimeExpressionType,
) -> Result<Option<IntegerType>, CodegenErrorKind> {
    match (left, right) {
        (RuntimeExpressionType::Integer(left), RuntimeExpressionType::Integer(right)) => match (
            left,
            right,
        ) {
            (Some(left), Some(right)) => if left == right {
                Ok(Some(left))
            } else {
                Err(CodegenErrorKind::RuntimeTypeMismatch)
            },
            (None, right) => Ok(right),
            (left, None) => Ok(left),
        },
        _ => Err(CodegenErrorKind::RuntimeTypeMismatch),
    }
}

pub fn unify_integer_types(
    left: RuntimeExpressionType,
    right: RuntimeExpressionType,
) -> (result: Result<Option<IntegerType>, CodegenErrorKind>)
    ensures
        result == unified_integers(left, right),
{
    match (left, right) {
        (RuntimeExpressionType::Integer(left), RuntimeExpressionType::Integer(right)) => match (
            left,
            right,
        ) {
            (Some(left), Some(right)) => if left == right {
                Ok(Some(left))
            } else {
                Err(CodegenErrorKind::RuntimeTypeMismatch)
            },
            (None, right) => Ok(right),
            (left, None) => Ok(left),
        },
        _ => Err(CodegenErrorKind::RuntimeTypeMismatch),
    }
}

} // verus!
