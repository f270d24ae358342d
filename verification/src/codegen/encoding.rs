//! Choices between the forms of instructions.
use crate::codegen::frame::{
    LocalModel, RuntimeLocal, X86_64Abi, local_models, place_from, translate_place,
};
use crate::codegen::runtime::{
    RuntimeArrayElementType, RuntimeExpressionType, checked_product, checked_sum,
    fat_reference, is_fat_reference, local_slots, packed_bytes, packed_element_bytes,
    product_of, runtime_local_stack_slots, sum_of,
};
use crate::codegen::types::{
    array_type, pointer_type, reference_type, runtime_array_type, runtime_raw_pointer_type,
    runtime_reference_type,
};
use crate::function::{
    AssignmentOperator, Parameter,
};
use crate::grammar::Word;
use crate::integer::BinaryOperator;
use crate::text::same_text;
use vstd::prelude::*;

verus! {

/// How a parameter is passed.
#[derive(Clone, Copy, Debug, PartialEq, Eq, Structural)]
pub enum ParameterPassing {
    Fat,
    Array { array: RuntimeExpressionType, count: usize },
    Word,
}

pub open spec fn passing_of(text: Seq<char>) -> ParameterPassing {
    match reference_type(text) {
        Some(ty) => if fat_reference(ty) {
            ParameterPassing::Fat
        } else {
            ParameterPassing::Word
        },
        None => match array_type(text) {
            Some(RuntimeExpressionType::Array { element, count }) => ParameterPassing::Array {
                array: RuntimeExpressionType::Array { element, count },
                count,
            },
            _ => ParameterPassing::Word,
        },
    }
}

pub fn parameter_passing(text: &str) -> (result: ParameterPassing)
    ensures
        result == passing_of(text@),
{
    match runtime_reference_type(text) {
        Some(ty) => if is_fat_reference(ty) {
            ParameterPassing::Fat
        } else {
            ParameterPassing::Word
        },
        None => match runtime_array_type(text) {
            Some(RuntimeExpressionType::Array { element, count }) => ParameterPassing::Array {
                array: RuntimeExpressionType::Array { element, count },
                count,
            },
            _ => ParameterPassing::Word,
        },
    }
}

/// The bytes around the opcode that moves the register of a parameter.
pub open spec fn load_of_register(abi: X86_64Abi, index: usize) -> Option<(u8, u8)> {
    match abi {
        X86_64Abi::Windows => if index == 0 {
            Some((0x48, 0xc8))
        } else if index == 1 {
            Some((0x48, 0xd0))
        } else if index == 2 {
            Some((0x4c, 0xc0))
        } else if index == 3 {
            Some((0x4c, 0xc8))
        } else {
            None
        },
        X86_64Abi::SystemV => if index == 0 {
            Some((0x48, 0xf8))
        } else if index == 1 {
            Some((0x48, 0xf0))
        } else if index == 2 {
            Some((0x48, 0xd0))
        } else if index == 3 {
            Some((0x48, 0xc8))
        } else if index == 4 {
            Some((0x4c, 0xc0))
        } else if index == 5 {
            Some((0x4c, 0xc8))
        } else {
            None
        },
    }
}

pub fn register_load(abi: X86_64Abi, index: usize) -> (result: Option<(u8, u8)>)
    ensures
        result == load_of_register(abi, index),
{
    match abi {
        X86_64Abi::Windows => if index == 0 {
            Some((0x48, 0xc8))
        } else if index == 1 {
            Some((0x48, 0xd0))
        } else if index == 2 {
            Some((0x4c, 0xc0))
        } else if index == 3 {
            Some((0x4c, 0xc8))
        } else {
            None
        },
        X86_64Abi::SystemV => if index == 0 {
            Some((0x48, 0xf8))
        } else if index == 1 {
            Some((0x48, 0xf0))
        } else if index == 2 {
            Some((0x48, 0xd0))
        } else if index == 3 {
            Some((0x48, 0xc8))
        } else if index == 4 {
            Some((0x4c, 0xc0))
        } else if index == 5 {
            Some((0x4c, 0xc8))
        } else {
            None
        },
    }
}

/// The opcode that saves the register of a parameter, and whether a prefix stands before it.
pub open spec fn push_of_register(abi: X86_64Abi, index: usize) -> Option<(bool, u8)> {
    match abi {
        X86_64Abi::Windows => if index == 0 {
            Some((false, 0x51))
        } else if index == 1 {
            Some((false, 0x52))
        } else if index == 2 {
            Some((true, 0x50))
        } else if index == 3 {
            Some((true, 0x51))
        } else {
            None
        },
        X86_64Abi::SystemV => if index == 0 {
            Some((false, 0x57))
        } else if index == 1 {
            Some((false, 0x56))
        } else if index == 2 {
            Some((false, 0x52))
        } else if index == 3 {
            Some((false, 0x51))
        } else if index == 4 {
            Some((true, 0x50))
        } else if index == 5 {
            Some((true, 0x51))
        } else {
            None
        },
    }
}

pub fn parameter_push_encoding(abi: X86_64Abi, index: usize) -> (result: Option<(bool, u8)>)
    ensures
        result == push_of_register(abi, index),
{
    match abi {
        X86_64Abi::Windows => if index == 0 {
            Some((false, 0x51))
        } else if index == 1 {
            Some((false, 0x52))
        } else if index == 2 {
            Some((true, 0x50))
        } else if index == 3 {
            Some((true, 0x51))
        } else {
            None
        },
        X86_64Abi::SystemV => if index == 0 {
            Some((false, 0x57))
        } else if index == 1 {
            Some((false, 0x56))
        } else if index == 2 {
            Some((false, 0x52))
        } else if index == 3 {
            Some((false, 0x51))
        } else if index == 4 {
            Some((true, 0x50))
        } else if index == 5 {
            Some((true, 0x51))
        } else {
            None
        },
    }
}

/// The place behind some words.
pub open spec fn place_behind_words(offset: usize, words: usize) -> Option<usize> {
    match product_of(words, 8) {
        None => None,
        Some(bytes) => sum_of(offset, bytes),
    }
}

pub fn words_behind(offset: usize, words: usize) -> (result: Option<usize>)
    ensures
        result == place_behind_words(offset, words),
{
    match checked_product(words, 8) {
        None => None,
        Some(bytes) => checked_sum(offset, bytes),
    }
}

/// Where the caller of the Windows convention puts a parameter that has no register.
pub open spec fn place_of_parameter(index: usize) -> Option<usize> {
    place_behind_words(40, excess(index, 4))
}

pub fn stack_parameter(index: usize) -> (result: Option<usize>)
    ensures
        result == place_of_parameter(index),
{
    words_behind(40, difference(index, 4))
}

pub open spec fn sum_of_three(first: usize, second: usize, third: usize) -> Option<usize> {
    match sum_of(first, second) {
        None => None,
        Some(sum) => sum_of(sum, third),
    }
}

pub fn three_sum(first: usize, second: usize, third: usize) -> (result: Option<usize>)
    ensures
        result == sum_of_three(first, second, third),
{
    match checked_sum(first, second) {
        None => None,
        Some(sum) => checked_sum(sum, third),
    }
}

/// Where the elements of a local begin.
pub open spec fn place_of_elements(later: Option<usize>, temporaries: usize) -> Option<usize> {
    match later {
        None => None,
        Some(later) => sum_of(temporaries, later),
    }
}

pub fn element_place(later: Option<usize>, temporaries: usize) -> (result: Option<usize>)
    ensures
        result == place_of_elements(later, temporaries),
{
    match later {
        None => None,
        Some(later) => checked_sum(temporaries, later),
    }
}

/// How many slots stand above the address of a reference.
pub open spec fn slots_of_length(ty: RuntimeExpressionType) -> usize {
    if fat_reference(ty) {
        1
    } else {
        0
    }
}

pub fn fat_extra(ty: RuntimeExpressionType) -> (result: usize)
    ensures
        result == slots_of_length(ty),
{
    if is_fat_reference(ty) {
        1
    } else {
        0
    }
}

pub open spec fn pointer_text(text: Seq<char>) -> bool {
    match pointer_type(text) {
        Some(_) => true,
        None => false,
    }
}

pub fn is_pointer_text(text: &str) -> (result: bool)
    ensures
        result == pointer_text(text@),
{
    match runtime_raw_pointer_type(text) {
        Some(_) => true,
        None => false,
    }
}

/// The condition that a comparison sets.
pub open spec fn code_of_condition(operator: BinaryOperator, signed: bool) -> u8 {
    match operator {
        BinaryOperator::Equal => 0x94,
        BinaryOperator::NotEqual => 0x95,
        BinaryOperator::Less => if signed {
            0x9c
        } else {
            0x92
        },
        BinaryOperator::LessEqual => if signed {
            0x9e
        } else {
            0x96
        },
        BinaryOperator::Greater => if signed {
            0x9f
        } else {
            0x97
        },
        _ => if signed {
            0x9d
        } else {
            0x93
        },
    }
}

pub fn condition_code(operator: BinaryOperator, signed: bool) -> (result: u8)
    ensures
        result == code_of_condition(operator, signed),
{
    match operator {
        BinaryOperator::Equal => 0x94,
        BinaryOperator::NotEqual => 0x95,
        BinaryOperator::Less => if signed {
            0x9c
        } else {
            0x92
        },
        BinaryOperator::LessEqual => if signed {
            0x9e
        } else {
            0x96
        },
        BinaryOperator::Greater => if signed {
            0x9f
        } else {
            0x97
        },
        _ => if signed {
            0x9d
        } else {
            0x93
        },
    }
}

/// How an array is packed in a local: the bytes of an element and the slots, if packing saves any.
pub open spec fn packed_form(
    element: RuntimeArrayElementType,
    count: usize,
) -> Option<(usize, usize)> {
    match packed_bytes(element) {
        None => None,
        Some(bytes) => {
            let slots: usize = local_slots(
                RuntimeExpressionType::Array { element, count },
            );
            if slots == count {
                None
            } else {
                Some((bytes, slots))
            }
        },
    }
}

pub fn packing(element: RuntimeArrayElementType, count: usize) -> (result: Option<(usize, usize)>)
    ensures
        result == packed_form(element, count),
{
    match packed_element_bytes(element) {
        None => None,
        Some(bytes) => {
            let slots: usize = runtime_local_stack_slots(
                RuntimeExpressionType::Array { element, count },
            );
            if slots == count {
                None
            } else {
                Some((bytes, slots))
            }
        },
    }
}

/// Where a packed word goes.
pub open spec fn place_of_packed(count: usize, local_slots: usize, word: usize) -> Option<usize> {
    if local_slots > count {
        None
    } else {
        sum_of(excess(count, local_slots), word)
    }
}

pub fn packed_destination(
    count: usize,
    local_slots: usize,
    word: usize,
) -> (result: Option<usize>)
    ensures
        result == place_of_packed(count, local_slots, word),
{
    if local_slots > count {
        None
    } else {
        checked_sum(difference(count, local_slots), word)
    }
}

/// The place of an element, counted from the other end.
pub open spec fn mirrored(count: usize, index: usize) -> usize {
    excess(count, place_from(index, 1))
}

pub fn mirror(count: usize, index: usize) -> (result: usize)
    ensures
        result == mirrored(count, index),
{
    difference(count, translate_place(index, 1))
}

/// Whether an assignment with an operator changes a value of a type that is not a number.
pub open spec fn allows_operator(operator: AssignmentOperator) -> bool {
    operator == AssignmentOperator::Assign || operator == AssignmentOperator::BitAnd || operator
        == AssignmentOperator::BitOr || operator == AssignmentOperator::BitXor
}

pub fn has_operator(operator: AssignmentOperator) -> (result: bool)
    ensures
        result == allows_operator(operator),
{
    operator == AssignmentOperator::Assign || operator == AssignmentOperator::BitAnd || operator
        == AssignmentOperator::BitOr || operator == AssignmentOperator::BitXor
}

/// The operation of an assignment.
pub open spec fn operation_of_assignment(operator: AssignmentOperator) -> Option<BinaryOperator> {
    match operator {
        AssignmentOperator::Assign => None,
        AssignmentOperator::Add => Some(BinaryOperator::Add),
        AssignmentOperator::Subtract => Some(BinaryOperator::Subtract),
        AssignmentOperator::Multiply => Some(BinaryOperator::Multiply),
        AssignmentOperator::Divide => Some(BinaryOperator::Divide),
        AssignmentOperator::Remainder => Some(BinaryOperator::Remainder),
        AssignmentOperator::BitAnd => Some(BinaryOperator::BitAnd),
        AssignmentOperator::BitOr => Some(BinaryOperator::BitOr),
        AssignmentOperator::BitXor => Some(BinaryOperator::BitXor),
        AssignmentOperator::ShiftLeft => Some(BinaryOperator::ShiftLeft),
        AssignmentOperator::ShiftRight => Some(BinaryOperator::ShiftRight),
    }
}

pub fn assignment_binary_operator(
    operator: AssignmentOperator,
) -> (result: Option<BinaryOperator>)
    ensures
        result == operation_of_assignment(operator),
{
    match operator {
        AssignmentOperator::Assign => None,
        AssignmentOperator::Add => Some(BinaryOperator::Add),
        AssignmentOperator::Subtract => Some(BinaryOperator::Subtract),
        AssignmentOperator::Multiply => Some(BinaryOperator::Multiply),
        AssignmentOperator::Divide => Some(BinaryOperator::Divide),
        AssignmentOperator::Remainder => Some(BinaryOperator::Remainder),
        AssignmentOperator::BitAnd => Some(BinaryOperator::BitAnd),
        AssignmentOperator::BitOr => Some(BinaryOperator::BitOr),
        AssignmentOperator::BitXor => Some(BinaryOperator::BitXor),
        AssignmentOperator::ShiftLeft => Some(BinaryOperator::ShiftLeft),
        AssignmentOperator::ShiftRight => Some(BinaryOperator::ShiftRight),
    }
}

/// A difference, or nothing where it would be negative.
pub open spec fn excess(left: usize, right: usize) -> usize {
    if right <= left {
        (left - right) as usize
    } else {
        0
    }
}

pub fn difference(left: usize, right: usize) -> (result: usize)
    ensures
        result == excess(left, right),
{
    if right <= left {
        left - right
    } else {
        0
    }
}

/// The bits of a shift that count.
pub open spec fn mask_of_shift(bits: u8) -> u8 {
    if bits > 0 {
        (bits - 1) as u8
    } else {
        0
    }
}

pub fn shift_mask(bits: u8) -> (result: u8)
    ensures
        result == mask_of_shift(bits),
{
    if bits > 0 {
        bits - 1
    } else {
        0
    }
}

/// The last local of a name, among the first `count`, that is a slice or a string.
pub open spec fn fat_local_below(locals: Seq<LocalModel>, name: Seq<char>, count: int) -> Option<usize>
    decreases count,
{
    if count <= 0 {
        None
    } else if locals[count - 1].name == name && fat_reference(locals[count - 1].ty) {
        Some((count - 1) as usize)
    } else {
        fat_local_below(locals, name, count - 1)
    }
}

/// The slice or string among the locals that a name stands for.
#[verifier::opaque]
pub open spec fn fat_local_named(locals: Seq<LocalModel>, name: Seq<char>) -> Option<usize> {
    fat_local_below(locals, name, locals.len() as int)
}

pub fn find_fat_local(locals: &Vec<RuntimeLocal>, name: &str) -> (result: Option<usize>)
    ensures
        result == fat_local_named(local_models(locals@), name@),
{
    proof {
        reveal(fat_local_named);
    }
    let mut count: usize = locals.len();
    while count > 0
        invariant
            count <= locals@.len(),
            fat_local_named(local_models(locals@), name@) == fat_local_below(
                local_models(locals@),
                name@,
                count as int,
            ),
        decreases count,
    {
        if same_text(locals[count - 1].name, name) && is_fat_reference(locals[count - 1].ty) {
            return Some(count - 1);
        }
        count = count - 1;
    }
    None
}

/// Whether a parameter is a slice or a string.
pub open spec fn fat_parameter(parameter: Parameter) -> bool {
    match reference_type(parameter.ty.text@) {
        Some(ty) => fat_reference(ty),
        None => false,
    }
}

pub fn is_fat_parameter(parameter: &Parameter) -> (result: bool)
    ensures
        result == fat_parameter(*parameter),
{
    match runtime_reference_type(parameter.ty.text) {
        Some(ty) => is_fat_reference(ty),
        None => false,
    }
}

/// The first parameter of a name, from a place on, that is a slice or a string.
pub open spec fn fat_parameter_from(parameters: Seq<Parameter>, name: Seq<char>, from: int) -> Option<
    usize,
>
    decreases parameters.len() - from,
{
    if from < 0 || from >= parameters.len() {
        None
    } else if parameters[from].name@ == name && fat_parameter(parameters[from]) {
        Some(from as usize)
    } else {
        fat_parameter_from(parameters, name, from + 1)
    }
}

/// The slice or string among the parameters that a name stands for.
#[verifier::opaque]
pub open spec fn fat_parameter_named(parameters: Seq<Parameter>, name: Seq<char>) -> Option<usize> {
    fat_parameter_from(parameters, name, 0)
}

pub fn find_fat_parameter(parameters: &Vec<Parameter>, name: &str) -> (result: Option<usize>)
    ensures
        result == fat_parameter_named(parameters@, name@),
{
    proof {
        reveal(fat_parameter_named);
    }
    let mut index: usize = 0;
    while index < parameters.len()
        invariant
            index <= parameters@.len(),
            fat_parameter_named(parameters@, name@) == fat_parameter_from(
                parameters@,
                name@,
                index as int,
            ),
        decreases parameters@.len() - index,
    {
        if same_text(parameters[index].name, name) && is_fat_parameter(&parameters[index]) {
            return Some(index);
        }
        index = index + 1;
    }
    None
}

/// How many locals there are.
pub open spec fn number_of_locals(locals: Seq<LocalModel>) -> usize {
    locals.len() as usize
}

pub fn local_count(locals: &Vec<RuntimeLocal>) -> (result: usize)
    ensures
        result == number_of_locals(local_models(locals@)),
        result == local_models(locals@).len(),
{
    locals.len()
}

} // verus!
