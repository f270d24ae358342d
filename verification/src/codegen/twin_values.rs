//! Two runs beside each other: the code of expressions.
use crate::codegen::error::CodegenErrorKind;
use crate::codegen::frame::{
    Frame, constant_at, form_at, local_named, parameter_named, place_from,
};
use crate::codegen::runtime::{
    RuntimeArrayElementType, RuntimeExpressionType, element_bytes, fat_reference,
    product_of, width_of_integer,
};
use crate::codegen::types::array_type;
use crate::codegen::typing_rules::logical;
use crate::codegen::typing::{
    call_constant, range_bounds, reference_source, typed, typed_operation,
};
use crate::codegen::emission::{
    Emission, branch_place, call_register, constant_register, failed, landed, place, put,
    raised, released, slots_from, trapped, word_bytes,
};
use crate::codegen::encoding::mirrored;
use crate::codegen::instructions::{
    emitted_chosen_slots, emitted_cleanup_bytes, emitted_constant, emitted_element_address,
    emitted_identifier_address, emitted_parameter_slot, emitted_slice_length,
    emitted_slot_of, emitted_stack_slot,
};
use crate::codegen::selection::{
    IndexSource, element_at, known_index, offset_of_range, opcode_of_logical, pointee_under,
    register_of_truth, source_of_index, width_of_operation,
};
use crate::codegen::values::{
    emitted_address, emitted_array, emitted_array_constant_index, emitted_array_element,
    emitted_array_elements, emitted_array_index, emitted_boundary_answer, emitted_call,
    emitted_char_boundary, emitted_choice, emitted_conversion,
    emitted_counted_element_address, emitted_element_choice, emitted_expression,
    emitted_index, emitted_index_address, emitted_inline_const, emitted_literal,
    emitted_named_element, emitted_negation, emitted_operation,
    emitted_packed_local_element, emitted_range_address, emitted_referenced_constant_index,
    emitted_referenced_index, emitted_slice_element_address, emitted_slice_index,
    emitted_slice_query, emitted_unary, emitted_with_width,
};
use crate::codegen::value_rules::{
    emitted_address_rule, emitted_array_constant_index_rule, emitted_array_element_rule,
    emitted_array_elements_rule, emitted_array_index_rule, emitted_array_rule,
    emitted_char_boundary_rule, emitted_choice_rule, emitted_counted_element_address_rule,
    emitted_element_choice_rule, emitted_expression_rule, emitted_index_address_rule,
    emitted_index_rule, emitted_negation_rule, emitted_operation_rule,
    emitted_range_address_rule, emitted_referenced_constant_index_rule,
    emitted_referenced_index_rule, emitted_slice_element_address_rule,
    emitted_slice_index_rule, emitted_unary_rule, emitted_with_width_rule,
};
use crate::expression::{
    ConstantResolver, ExprId, Form, MAX_ARRAY_ELEMENTS, MAX_EXPRESSION_DEPTH, Tree,
};
use crate::integer::{
    BinaryOperator, IntegerType, ScalarType, UnaryOperator,
};
use crate::codegen::twins::{
    follow, landed_twins, put_twins, raised_twins, released_twins, trapped_twins, twins,
};
use crate::codegen::twin_instructions::{
    emitted_binary_twins, emitted_chosen_slots_twins, emitted_cleanup_bytes_twins,
    emitted_constant_twins, emitted_copies_twins, emitted_element_address_twins,
    emitted_identifier_address_twins, emitted_identifier_twins, emitted_negated_twins,
    emitted_normal_element_twins, emitted_normal_twins, emitted_normal_width_twins,
    emitted_parameter_slot_twins, emitted_reference_load_twins, emitted_slice_length_twins,
    emitted_slot_of_twins, emitted_slots_cleanup_twins, emitted_stack_slot_twins,
    emitted_swapped_twins,
};
use vstd::prelude::*;

verus! {

pub(crate) proof fn emitted_conversion_twins<R: ConstantResolver, const P: usize, const N: usize>(
    f: Frame<R, P, N>,
    s1: Emission,
    s2: Emission,
    target: IntegerType,
)
    requires
        twins(s1, s2),
    ensures
        follow(
            s1,
            s2,
            emitted_conversion(f, s1, target),
            emitted_conversion(f, s2, target),
        ),
{
    reveal(emitted_conversion);
    match width_of_integer(target) {
        None => {},
        Some(width) => {
            emitted_normal_width_twins(f, s1, s2, width);
        },
    }
}

pub(crate) proof fn emitted_boundary_answer_twins<R: ConstantResolver, const P: usize, const N: usize>(
    f: Frame<R, P, N>,
    s1: Emission,
    s2: Emission,
)
    requires
        twins(s1, s2),
    ensures
        follow(
            s1,
            s2,
            emitted_boundary_answer(f, s1),
            emitted_boundary_answer(f, s2),
        ),
{
    reveal(branch_place);
    reveal(emitted_boundary_answer);
    put_twins(f, s1, s2, [0x48u8, 0x3b, 0x04, 0x24]@);
    let s1 = put(f, s1, [0x48u8, 0x3b, 0x04, 0x24]@);
    let s2 = put(f, s2, [0x48u8, 0x3b, 0x04, 0x24]@);
    let out_of_bounds1 = branch_place(s1, 2);
    let out_of_bounds2 = branch_place(s2, 2);
    put_twins(f, s1, s2, [0x0fu8, 0x87, 0, 0, 0, 0]@);
    let s1 = put(f, s1, [0x0fu8, 0x87, 0, 0, 0, 0]@);
    let s2 = put(f, s2, [0x0fu8, 0x87, 0, 0, 0, 0]@);
    let at_end1 = branch_place(s1, 2);
    let at_end2 = branch_place(s2, 2);
    put_twins(f, s1, s2, [0x0fu8, 0x84, 0, 0, 0, 0]@);
    let s1 = put(f, s1, [0x0fu8, 0x84, 0, 0, 0, 0]@);
    let s2 = put(f, s2, [0x0fu8, 0x84, 0, 0, 0, 0]@);
    put_twins(f, s1, s2, [0x48u8, 0x85, 0xc0]@);
    let s1 = put(f, s1, [0x48u8, 0x85, 0xc0]@);
    let s2 = put(f, s2, [0x48u8, 0x85, 0xc0]@);
    let at_start1 = branch_place(s1, 2);
    let at_start2 = branch_place(s2, 2);
    put_twins(f, s1, s2, [0x0fu8, 0x84, 0, 0, 0, 0]@);
    let s1 = put(f, s1, [0x0fu8, 0x84, 0, 0, 0, 0]@);
    let s2 = put(f, s2, [0x0fu8, 0x84, 0, 0, 0, 0]@);
    put_twins(f, s1, s2, [0x48u8, 0x89, 0xc1, 0x48, 0x8b, 0x44, 0x24, 0x08]@);
    let s1 = put(f, s1, [0x48u8, 0x89, 0xc1, 0x48, 0x8b, 0x44, 0x24, 0x08]@);
    let s2 = put(f, s2, [0x48u8, 0x89, 0xc1, 0x48, 0x8b, 0x44, 0x24, 0x08]@);
    put_twins(f, s1, s2, [0x0fu8, 0xb6, 0x04, 0x08, 0x25, 0xc0, 0x00, 0x00, 0x00]@);
    let s1 = put(f, s1, [0x0fu8, 0xb6, 0x04, 0x08, 0x25, 0xc0, 0x00, 0x00, 0x00]@);
    let s2 = put(f, s2, [0x0fu8, 0xb6, 0x04, 0x08, 0x25, 0xc0, 0x00, 0x00, 0x00]@);
    put_twins(f, s1, s2, [0x3du8, 0x80, 0x00, 0x00, 0x00, 0x0f, 0x95, 0xc0, 0x0f, 0xb6, 0xc0]@);
    let s1 = put(f, s1, [0x3du8, 0x80, 0x00, 0x00, 0x00, 0x0f, 0x95, 0xc0, 0x0f, 0xb6, 0xc0]@);
    let s2 = put(f, s2, [0x3du8, 0x80, 0x00, 0x00, 0x00, 0x0f, 0x95, 0xc0, 0x0f, 0xb6, 0xc0]@);
    let value_end1 = branch_place(s1, 1);
    let value_end2 = branch_place(s2, 1);
    put_twins(f, s1, s2, [0xe9u8, 0, 0, 0, 0]@);
    let s1 = put(f, s1, [0xe9u8, 0, 0, 0, 0]@);
    let s2 = put(f, s2, [0xe9u8, 0, 0, 0, 0]@);
    landed_twins(f, s1, s2, at_end1, at_end2);
    let s1 = landed(f, s1, at_end1);
    let s2 = landed(f, s2, at_end2);
    landed_twins(f, s1, s2, at_start1, at_start2);
    let s1 = landed(f, s1, at_start1);
    let s2 = landed(f, s2, at_start2);
    put_twins(f, s1, s2, [0xb8u8, 0x01, 0x00, 0x00, 0x00]@);
    let s1 = put(f, s1, [0xb8u8, 0x01, 0x00, 0x00, 0x00]@);
    let s2 = put(f, s2, [0xb8u8, 0x01, 0x00, 0x00, 0x00]@);
    let true_end1 = branch_place(s1, 1);
    let true_end2 = branch_place(s2, 1);
    put_twins(f, s1, s2, [0xe9u8, 0, 0, 0, 0]@);
    let s1 = put(f, s1, [0xe9u8, 0, 0, 0, 0]@);
    let s2 = put(f, s2, [0xe9u8, 0, 0, 0, 0]@);
    landed_twins(f, s1, s2, out_of_bounds1, out_of_bounds2);
    let s1 = landed(f, s1, out_of_bounds1);
    let s2 = landed(f, s2, out_of_bounds2);
    put_twins(f, s1, s2, [0x31u8, 0xc0]@);
    let s1 = put(f, s1, [0x31u8, 0xc0]@);
    let s2 = put(f, s2, [0x31u8, 0xc0]@);
    landed_twins(f, s1, s2, value_end1, value_end2);
    let s1 = landed(f, s1, value_end1);
    let s2 = landed(f, s2, value_end2);
    landed_twins(f, s1, s2, true_end1, true_end2);
    let s1 = landed(f, s1, true_end1);
    let s2 = landed(f, s2, true_end2);
    emitted_cleanup_bytes_twins(f, s1, s2, 16);
    let s1 = emitted_cleanup_bytes(f, s1, 16);
    let s2 = emitted_cleanup_bytes(f, s2, 16);
    released_twins(f, s1, s2, 2);
}

pub(crate) proof fn emitted_literal_twins<R: ConstantResolver, const P: usize, const N: usize>(
    f: Frame<R, P, N>,
    s1: Emission,
    s2: Emission,
    value: u128,
)
    requires
        twins(s1, s2),
    ensures
        follow(
            s1,
            s2,
            emitted_literal(f, s1, value),
            emitted_literal(f, s2, value),
        ),
{
    reveal(emitted_literal);
    let width1 = s1.width;
    let width2 = s2.width;
    if value > width1.maximum as u128 {
    } else {
        emitted_constant_twins(f, s1, s2, value as u64);
    }
}

pub(crate) proof fn emitted_call_twins<R: ConstantResolver, const P: usize, const N: usize>(
    f: Frame<R, P, N>,
    s1: Emission,
    s2: Emission,
    tree: Tree,
    callee: Seq<char>,
    arguments: Seq<Option<ExprId>>,
    argument_count: usize,
)
    requires
        twins(s1, s2),
    ensures
        follow(
            s1,
            s2,
            emitted_call(f, s1, tree, callee, arguments, argument_count),
            emitted_call(f, s2, tree, callee, arguments, argument_count),
        ),
{
    reveal(emitted_call);
    let width1 = s1.width;
    let width2 = s2.width;
    match call_constant(tree, callee, arguments, argument_count, f.resolver) {
        Err(kind) => {},
        Ok(value) => {
            match call_register(value, f.resolver.call_type(callee, argument_count), width1) {
                Err(kind) => {},
                Ok(value) => {
                    emitted_constant_twins(f, s1, s2, value);
                },
            }
        },
    }
}

pub(crate) proof fn emitted_inline_const_twins<R: ConstantResolver, const P: usize, const N: usize>(
    f: Frame<R, P, N>,
    s1: Emission,
    s2: Emission,
    tree: Tree,
    operand: ExprId,
    depth: int,
)
    requires
        twins(s1, s2),
    ensures
        follow(
            s1,
            s2,
            emitted_inline_const(f, s1, tree, operand, depth),
            emitted_inline_const(f, s2, tree, operand, depth),
        ),
{
    reveal(emitted_inline_const);
    let width1 = s1.width;
    let width2 = s2.width;
    match typed(f, s1.locals, tree, operand, depth + 1) {
        Err(kind) => {},
        Ok(ty) => {
            match constant_at(tree, operand, f.resolver) {
                Err(error) => {},
                Ok(value) => {
                    if ty == RuntimeExpressionType::Unit || ty == RuntimeExpressionType::Default {
                        put_twins(f, s1, s2, [0x31u8, 0xc0]@);
                    } else {
                        match constant_register(Ok(value), ty, width1) {
                            Err(kind) => {},
                            Ok(value) => {
                                emitted_constant_twins(f, s1, s2, value);
                            },
                        }
                    }
                },
            }
        },
    }
}

pub(crate) proof fn emitted_slice_query_twins<R: ConstantResolver, const P: usize, const N: usize>(
    f: Frame<R, P, N>,
    s1: Emission,
    s2: Emission,
    tree: Tree,
    base: ExprId,
    depth: int,
)
    requires
        twins(s1, s2),
    ensures
        follow(
            s1,
            s2,
            emitted_slice_query(f, s1, tree, base, depth),
            emitted_slice_query(f, s2, tree, base, depth),
        ),
{
    reveal(emitted_slice_query);
    match typed(f, s1.locals, tree, base, depth + 1) {
        Err(kind) => {},
        Ok(ty) => {
            if fat_reference(ty) {
                match reference_source(tree, base) {
                    None => {},
                    Some(source) => {
                        emitted_slice_length_twins(f, s1, s2, source);
                    },
                }
            }
        },
    }
}

pub(crate) proof fn emitted_packed_local_element_twins<R: ConstantResolver, const P: usize, const N: usize>(
    f: Frame<R, P, N>,
    s1: Emission,
    s2: Emission,
    later: Option<usize>,
    element: RuntimeArrayElementType,
    bytes: usize,
    index: usize,
)
    requires
        twins(s1, s2),
    ensures
        follow(
            s1,
            s2,
            emitted_packed_local_element(f, s1, later, element, bytes, index),
            emitted_packed_local_element(f, s2, later, element, bytes, index),
        ),
{
    reveal(emitted_packed_local_element);
    emitted_slot_of_twins(f, s1, s2, 0x8d, later, 0, CodegenErrorKind::OutputTooSmall);
    let s1 = emitted_slot_of(f, s1, 0x8d, later, 0, CodegenErrorKind::OutputTooSmall);
    let s2 = emitted_slot_of(f, s2, 0x8d, later, 0, CodegenErrorKind::OutputTooSmall);
    match product_of(index, bytes) {
        None => {},
        Some(offset) => {
            if offset != 0 {
                put_twins(f, s1, s2, [0x48u8, 0x83, 0xc0, offset as u8]@);
            }
            let s1 = if offset != 0 {
                put(f, s1, [0x48u8, 0x83, 0xc0, offset as u8]@)
            } else {
                s1
            };
            let s2 = if offset != 0 {
                put(f, s2, [0x48u8, 0x83, 0xc0, offset as u8]@)
            } else {
                s2
            };
            emitted_reference_load_twins(f, s1, s2, element);
        },
    }
}

pub(crate) proof fn emitted_named_element_twins<R: ConstantResolver, const P: usize, const N: usize>(
    f: Frame<R, P, N>,
    s1: Emission,
    s2: Emission,
    name: Seq<char>,
    index: usize,
)
    requires
        twins(s1, s2),
    ensures
        follow(
            s1,
            s2,
            emitted_named_element(f, s1, name, index),
            emitted_named_element(f, s2, name, index),
        ),
{
    reveal(emitted_named_element);
    match local_named(s1.locals, name) {
        Some(local) => {
            match s1.locals[local as int].ty {
                RuntimeExpressionType::Array { element, count } => {
                    if index >= count {
                    } else {
                        match element_bytes(element) {
                            None => {},
                            Some(bytes) => {
                                if bytes == 1 || bytes == 2 || bytes == 4 {
                                    emitted_packed_local_element_twins(
                                        f,
                                        s1,
                                        s2,
                                        slots_from(s1.locals, place_from(local, 1)),
                                        element,
                                        bytes,
                                        index,
                                    );
                                } else {
                                    emitted_slot_of_twins(
                                        f,
                                        s1,
                                        s2,
                                        0x8b,
                                        slots_from(s1.locals, place_from(local, 1)),
                                        index,
                                        CodegenErrorKind::OutputTooSmall,
                                    );
                                    let s1 = emitted_slot_of(
                                        f,
                                        s1,
                                        0x8b,
                                        slots_from(s1.locals, place_from(local, 1)),
                                        index,
                                        CodegenErrorKind::OutputTooSmall,
                                    );
                                    let s2 = emitted_slot_of(
                                        f,
                                        s2,
                                        0x8b,
                                        slots_from(s2.locals, place_from(local, 1)),
                                        index,
                                        CodegenErrorKind::OutputTooSmall,
                                    );
                                    emitted_normal_element_twins(f, s1, s2, element);
                                }
                            },
                        }
                    }
                },
                _ => {},
            }
        },
        None => {
            match parameter_named(f.function.parameters@, name) {
                None => {},
                Some(parameter) => {
                    match array_type(f.function.parameters@[parameter as int].ty.text@) {
                        Some(RuntimeExpressionType::Array { element, count }) => {
                            if index >= count {
                            } else {
                                emitted_parameter_slot_twins(
                                    f,
                                    s1,
                                    s2,
                                    0x8b,
                                    place_from(parameter, 1),
                                    mirrored(count, index),
                                    CodegenErrorKind::OutputTooSmall,
                                );
                                let s1 = emitted_parameter_slot(
                                    f,
                                    s1,
                                    0x8b,
                                    place_from(parameter, 1),
                                    mirrored(count, index),
                                    CodegenErrorKind::OutputTooSmall,
                                );
                                let s2 = emitted_parameter_slot(
                                    f,
                                    s2,
                                    0x8b,
                                    place_from(parameter, 1),
                                    mirrored(count, index),
                                    CodegenErrorKind::OutputTooSmall,
                                );
                                emitted_normal_element_twins(f, s1, s2, element);
                            }
                        },
                        _ => {},
                    }
                },
            }
        },
    }
}

pub(crate) proof fn emitted_expression_twins<R: ConstantResolver, const P: usize, const N: usize>(
    f: Frame<R, P, N>,
    s1: Emission,
    s2: Emission,
    tree: Tree,
    id: ExprId,
    depth: int,
    fuel: int,
)
    requires
        twins(s1, s2),
    ensures
        follow(
            s1,
            s2,
            emitted_expression(f, s1, tree, id, depth, fuel),
            emitted_expression(f, s2, tree, id, depth, fuel),
        ),
    decreases fuel, 30int, 0int,
{
    emitted_expression_rule(f, s1, tree, id, depth, fuel);
    emitted_expression_rule(f, s2, tree, id, depth, fuel);
    if fuel <= 0 {
    } else {
        if depth >= MAX_EXPRESSION_DEPTH {
        } else {
            match typed(f, s1.locals, tree, id, depth) {
                Err(kind) => {},
                Ok(ty) => {
                    match typed_operation(f, s1.locals, tree, id, ty, depth) {
                        Err(kind) => {},
                        Ok(operation) => {
                            let previous1 = s1.width;
                            let previous2 = s2.width;
                            match width_of_operation(operation, previous1) {
                                None => {},
                                Some(width) => {
                                    let s1 = Emission { width: width, ..s1 };
                                    let s2 = Emission { width: width, ..s2 };
                                    emitted_with_width_twins(f, s1, s2, tree, id, depth, fuel);
                                    let s1 = emitted_with_width(f, s1, tree, id, depth, fuel);
                                    let s2 = emitted_with_width(f, s2, tree, id, depth, fuel);
                                },
                            }
                        },
                    }
                },
            }
        }
    }
}

pub(crate) proof fn emitted_with_width_twins<R: ConstantResolver, const P: usize, const N: usize>(
    f: Frame<R, P, N>,
    s1: Emission,
    s2: Emission,
    tree: Tree,
    id: ExprId,
    depth: int,
    fuel: int,
)
    requires
        twins(s1, s2),
    ensures
        follow(
            s1,
            s2,
            emitted_with_width(f, s1, tree, id, depth, fuel),
            emitted_with_width(f, s2, tree, id, depth, fuel),
        ),
    decreases fuel, 20int, 0int,
{
    emitted_with_width_rule(f, s1, tree, id, depth, fuel);
    emitted_with_width_rule(f, s2, tree, id, depth, fuel);
    if fuel <= 0 {
    } else {
        if depth >= MAX_EXPRESSION_DEPTH {
        } else {
            match form_at(tree, id) {
                None => {},
                Some(kind) => {
                    match kind {
                        Form::Unit | Form::DefaultValue => {
                            put_twins(f, s1, s2, [0x31u8, 0xc0]@);
                        },
                        Form::Array { .. } | Form::ArrayRepeat { .. } | Form::RangeIndex { .. } => {},
                        Form::Index { base, index } => {
                            emitted_index_twins(f, s1, s2, tree, base, index, depth, fuel);
                        },
                        Form::SliceLen { base } => {
                            emitted_slice_query_twins(f, s1, s2, tree, base, depth);
                        },
                        Form::SliceIsEmpty { base } => {
                            emitted_slice_query_twins(f, s1, s2, tree, base, depth);
                            let s1 = emitted_slice_query(f, s1, tree, base, depth);
                            let s2 = emitted_slice_query(f, s2, tree, base, depth);
                            put_twins(
                                f,
                                s1,
                                s2,
                                [0x48u8, 0x85, 0xc0, 0x0f, 0x94, 0xc0, 0x0f, 0xb6, 0xc0]@,
                            );
                        },
                        Form::StrAsBytes { base } => {
                            emitted_expression_twins(f, s1, s2, tree, base, depth + 1, fuel - 1);
                        },
                        Form::StrIsCharBoundary { base, index } => {
                            emitted_char_boundary_twins(
                                f,
                                s1,
                                s2,
                                tree,
                                base,
                                index,
                                depth + 1,
                                fuel,
                            );
                        },
                        Form::ReferenceAsPointer { base, .. } => {
                            emitted_expression_twins(f, s1, s2, tree, base, depth + 1, fuel - 1);
                        },
                        Form::Integer { value, suffix } => {
                            emitted_literal_twins(f, s1, s2, value);
                        },
                        Form::Bool(value) => {
                            emitted_constant_twins(f, s1, s2, register_of_truth(value));
                        },
                        Form::Char(value) => {
                            emitted_constant_twins(f, s1, s2, value as u64);
                        },
                        Form::Identifier(name) => {
                            emitted_identifier_twins(f, s1, s2, name);
                        },
                        Form::Call { callee, arguments, argument_count } => {
                            emitted_call_twins(f, s1, s2, tree, callee, arguments, argument_count);
                        },
                        Form::Cast { operand, target } => {
                            emitted_expression_twins(
                                f,
                                s1,
                                s2,
                                tree,
                                operand,
                                depth + 1,
                                fuel - 1,
                            );
                            let s1 = emitted_expression(f, s1, tree, operand, depth + 1, fuel - 1);
                            let s2 = emitted_expression(f, s2, tree, operand, depth + 1, fuel - 1);
                            emitted_conversion_twins(f, s1, s2, target);
                        },
                        Form::Ascribe { operand, target } => {
                            emitted_expression_twins(
                                f,
                                s1,
                                s2,
                                tree,
                                operand,
                                depth + 1,
                                fuel - 1,
                            );
                            let s1 = emitted_expression(f, s1, tree, operand, depth + 1, fuel - 1);
                            let s2 = emitted_expression(f, s2, tree, operand, depth + 1, fuel - 1);
                            match target {
                                ScalarType::Integer(target) => {
                                    emitted_conversion_twins(f, s1, s2, target);
                                },
                                ScalarType::Bool => {
                                    put_twins(
                                        f,
                                        s1,
                                        s2,
                                        [0x48u8, 0x85, 0xc0, 0x0f, 0x95, 0xc0, 0x0f, 0xb6, 0xc0]@,
                                    );
                                },
                            }
                        },
                        Form::Unary { operator, operand } => {
                            emitted_unary_twins(f, s1, s2, tree, operator, operand, depth, fuel);
                        },
                        Form::Binary { operator, left, right } => {
                            emitted_operation_twins(
                                f,
                                s1,
                                s2,
                                tree,
                                operator,
                                left,
                                right,
                                depth,
                                fuel,
                            );
                        },
                        Form::If { condition, then_branch, else_branch } => {
                            emitted_choice_twins(
                                f,
                                s1,
                                s2,
                                tree,
                                condition,
                                then_branch,
                                else_branch,
                                depth,
                                fuel,
                            );
                        },
                        Form::LoopBreakIf { condition, then_branch, else_branch } => {
                            emitted_choice_twins(
                                f,
                                s1,
                                s2,
                                tree,
                                condition,
                                then_branch,
                                else_branch,
                                depth,
                                fuel,
                            );
                        },
                        Form::Return { operand } => {
                            emitted_expression_twins(
                                f,
                                s1,
                                s2,
                                tree,
                                operand,
                                depth + 1,
                                fuel - 1,
                            );
                        },
                        Form::LoopBreak { operand } => {
                            emitted_expression_twins(
                                f,
                                s1,
                                s2,
                                tree,
                                operand,
                                depth + 1,
                                fuel - 1,
                            );
                        },
                        Form::Sequence { first, then } => {
                            emitted_expression_twins(f, s1, s2, tree, first, depth + 1, fuel - 1);
                            let s1 = emitted_expression(f, s1, tree, first, depth + 1, fuel - 1);
                            let s2 = emitted_expression(f, s2, tree, first, depth + 1, fuel - 1);
                            emitted_expression_twins(f, s1, s2, tree, then, depth + 1, fuel - 1);
                        },
                        Form::InlineConst { operand } => {
                            emitted_inline_const_twins(f, s1, s2, tree, operand, depth);
                        },
                    }
                },
            }
        }
    }
}

pub(crate) proof fn emitted_unary_twins<R: ConstantResolver, const P: usize, const N: usize>(
    f: Frame<R, P, N>,
    s1: Emission,
    s2: Emission,
    tree: Tree,
    operator: UnaryOperator,
    operand: ExprId,
    depth: int,
    fuel: int,
)
    requires
        twins(s1, s2),
    ensures
        follow(
            s1,
            s2,
            emitted_unary(f, s1, tree, operator, operand, depth, fuel),
            emitted_unary(f, s2, tree, operator, operand, depth, fuel),
        ),
    decreases fuel, 15int, 0int,
{
    emitted_unary_rule(f, s1, tree, operator, operand, depth, fuel);
    emitted_unary_rule(f, s2, tree, operator, operand, depth, fuel);
    if fuel <= 0 {
    } else {
        match operator {
            UnaryOperator::Not => {
                match typed(f, s1.locals, tree, operand, 0) {
                    Err(kind) => {},
                    Ok(ty) => {
                        emitted_expression_twins(f, s1, s2, tree, operand, depth + 1, fuel - 1);
                        let s1 = emitted_expression(f, s1, tree, operand, depth + 1, fuel - 1);
                        let s2 = emitted_expression(f, s2, tree, operand, depth + 1, fuel - 1);
                        if ty == RuntimeExpressionType::Bool {
                            put_twins(
                                f,
                                s1,
                                s2,
                                [0x48u8, 0x85, 0xc0, 0x0f, 0x94, 0xc0, 0x0f, 0xb6, 0xc0]@,
                            );
                        } else {
                            put_twins(f, s1, s2, [0x48u8, 0xf7, 0xd0]@);
                            let s1 = put(f, s1, [0x48u8, 0xf7, 0xd0]@);
                            let s2 = put(f, s2, [0x48u8, 0xf7, 0xd0]@);
                            emitted_normal_twins(f, s1, s2);
                        }
                    },
                }
            },
            UnaryOperator::Negate => {
                emitted_negation_twins(f, s1, s2, tree, operand, depth, fuel);
            },
            UnaryOperator::Dereference => {
                match typed(f, s1.locals, tree, operand, 0) {
                    Err(kind) => {},
                    Ok(ty) => {
                        match pointee_under(ty) {
                            Err(kind) => {},
                            Ok(pointee) => {
                                emitted_expression_twins(
                                    f,
                                    s1,
                                    s2,
                                    tree,
                                    operand,
                                    depth + 1,
                                    fuel - 1,
                                );
                                let s1 = emitted_expression(f, s1, tree, operand, depth + 1, fuel - 1);
                                let s2 = emitted_expression(f, s2, tree, operand, depth + 1, fuel - 1);
                                emitted_reference_load_twins(f, s1, s2, pointee);
                            },
                        }
                    },
                }
            },
            UnaryOperator::AddressOf | UnaryOperator::AddressOfMut => {
                emitted_address_twins(f, s1, s2, tree, operand, depth, fuel);
            },
        }
    }
}

pub(crate) proof fn emitted_negation_twins<R: ConstantResolver, const P: usize, const N: usize>(
    f: Frame<R, P, N>,
    s1: Emission,
    s2: Emission,
    tree: Tree,
    operand: ExprId,
    depth: int,
    fuel: int,
)
    requires
        twins(s1, s2),
    ensures
        follow(
            s1,
            s2,
            emitted_negation(f, s1, tree, operand, depth, fuel),
            emitted_negation(f, s2, tree, operand, depth, fuel),
        ),
    decreases fuel, 14int, 0int,
{
    emitted_negation_rule(f, s1, tree, operand, depth, fuel);
    emitted_negation_rule(f, s2, tree, operand, depth, fuel);
    if fuel <= 0 {
    } else {
        let width1 = s1.width;
        let width2 = s2.width;
        if !width1.signed {
        } else {
            match form_at(tree, operand) {
                Some(Form::Integer { value, suffix }) => {
                    if value > width1.maximum as u128 + 1 {
                    } else {
                        emitted_constant_twins(f, s1, s2, value as u64);
                    }
                },
                _ => {
                    emitted_expression_twins(f, s1, s2, tree, operand, depth + 1, fuel - 1);
                },
            }
            let s1 = match form_at(tree, operand) {
                Some(Form::Integer { value, suffix }) => {
                    if value > width1.maximum as u128 + 1 {
                        failed(f, s1, CodegenErrorKind::ValueOutOfRange)
                    } else {
                        emitted_constant(f, s1, value as u64)
                    }
                },
                _ => {
                    emitted_expression(f, s1, tree, operand, depth + 1, fuel - 1)
                },
            };
            let s2 = match form_at(tree, operand) {
                Some(Form::Integer { value, suffix }) => {
                    if value > width2.maximum as u128 + 1 {
                        failed(f, s2, CodegenErrorKind::ValueOutOfRange)
                    } else {
                        emitted_constant(f, s2, value as u64)
                    }
                },
                _ => {
                    emitted_expression(f, s2, tree, operand, depth + 1, fuel - 1)
                },
            };
            emitted_negated_twins(f, s1, s2, width1);
        }
    }
}

pub(crate) proof fn emitted_address_twins<R: ConstantResolver, const P: usize, const N: usize>(
    f: Frame<R, P, N>,
    s1: Emission,
    s2: Emission,
    tree: Tree,
    operand: ExprId,
    depth: int,
    fuel: int,
)
    requires
        twins(s1, s2),
    ensures
        follow(
            s1,
            s2,
            emitted_address(f, s1, tree, operand, depth, fuel),
            emitted_address(f, s2, tree, operand, depth, fuel),
        ),
    decreases fuel, 14int, 0int,
{
    emitted_address_rule(f, s1, tree, operand, depth, fuel);
    emitted_address_rule(f, s2, tree, operand, depth, fuel);
    if fuel <= 0 {
    } else {
        match form_at(tree, operand) {
            Some(Form::Identifier(name)) => {
                emitted_identifier_address_twins(f, s1, s2, name);
            },
            Some(Form::Unary { operator: UnaryOperator::Dereference, operand: reference }) => {
                emitted_expression_twins(f, s1, s2, tree, reference, depth + 1, fuel - 1);
            },
            Some(Form::RangeIndex { base, start, end, inclusive }) => {
                emitted_range_address_twins(
                    f,
                    s1,
                    s2,
                    tree,
                    base,
                    start,
                    end,
                    inclusive,
                    depth,
                    fuel,
                );
            },
            Some(Form::Index { base, index }) => {
                emitted_index_address_twins(f, s1, s2, tree, base, index, depth + 1, fuel);
            },
            _ => {},
        }
    }
}

pub(crate) proof fn emitted_range_address_twins<R: ConstantResolver, const P: usize, const N: usize>(
    f: Frame<R, P, N>,
    s1: Emission,
    s2: Emission,
    tree: Tree,
    base: ExprId,
    start: Option<ExprId>,
    end: Option<ExprId>,
    inclusive: bool,
    depth: int,
    fuel: int,
)
    requires
        twins(s1, s2),
    ensures
        follow(
            s1,
            s2,
            emitted_range_address(f, s1, tree, base, start, end, inclusive, depth, fuel),
            emitted_range_address(f, s2, tree, base, start, end, inclusive, depth, fuel),
        ),
    decreases fuel, 13int, 0int,
{
    emitted_range_address_rule(f, s1, tree, base, start, end, inclusive, depth, fuel);
    emitted_range_address_rule(f, s2, tree, base, start, end, inclusive, depth, fuel);
    if fuel <= 0 {
    } else {
        match typed(f, s1.locals, tree, base, depth + 1) {
            Err(kind) => {},
            Ok(ty) => {
                match source_of_index(ty) {
                    IndexSource::Referenced { element, count } => {
                        match range_bounds(tree, start, end, inclusive, count, f.resolver) {
                            Err(kind) => {},
                            Ok((first, _)) => {
                                emitted_expression_twins(
                                    f,
                                    s1,
                                    s2,
                                    tree,
                                    base,
                                    depth + 1,
                                    fuel - 1,
                                );
                                let s1 = emitted_expression(f, s1, tree, base, depth + 1, fuel - 1);
                                let s2 = emitted_expression(f, s2, tree, base, depth + 1, fuel - 1);
                                match offset_of_range(first, element) {
                                    Err(kind) => {},
                                    Ok(offset) => {
                                        if offset != 0 {
                                            put_twins(f, s1, s2, [0x48u8, 0x05]@);
                                            let s1 = put(f, s1, [0x48u8, 0x05]@);
                                            let s2 = put(f, s2, [0x48u8, 0x05]@);
                                            put_twins(f, s1, s2, word_bytes(offset as int));
                                        }
                                    },
                                }
                            },
                        }
                    },
                    _ => {},
                }
            },
        }
    }
}

pub(crate) proof fn emitted_operation_twins<R: ConstantResolver, const P: usize, const N: usize>(
    f: Frame<R, P, N>,
    s1: Emission,
    s2: Emission,
    tree: Tree,
    operator: BinaryOperator,
    left: ExprId,
    right: ExprId,
    depth: int,
    fuel: int,
)
    requires
        twins(s1, s2),
    ensures
        follow(
            s1,
            s2,
            emitted_operation(f, s1, tree, operator, left, right, depth, fuel),
            emitted_operation(f, s2, tree, operator, left, right, depth, fuel),
        ),
    decreases fuel, 15int, 0int,
{
    reveal(branch_place);
    emitted_operation_rule(f, s1, tree, operator, left, right, depth, fuel);
    emitted_operation_rule(f, s2, tree, operator, left, right, depth, fuel);
    if fuel <= 0 {
    } else {
        emitted_expression_twins(f, s1, s2, tree, left, depth + 1, fuel - 1);
        let s1 = emitted_expression(f, s1, tree, left, depth + 1, fuel - 1);
        let s2 = emitted_expression(f, s2, tree, left, depth + 1, fuel - 1);
        if logical(operator) {
            put_twins(f, s1, s2, [0x48u8, 0x85, 0xc0]@);
            let s1 = put(f, s1, [0x48u8, 0x85, 0xc0]@);
            let s2 = put(f, s2, [0x48u8, 0x85, 0xc0]@);
            let end1 = branch_place(s1, 2);
            let end2 = branch_place(s2, 2);
            put_twins(f, s1, s2, [0x0fu8, opcode_of_logical(operator), 0, 0, 0, 0]@);
            let s1 = put(f, s1, [0x0fu8, opcode_of_logical(operator), 0, 0, 0, 0]@);
            let s2 = put(f, s2, [0x0fu8, opcode_of_logical(operator), 0, 0, 0, 0]@);
            emitted_expression_twins(f, s1, s2, tree, right, depth + 1, fuel - 1);
            let s1 = emitted_expression(f, s1, tree, right, depth + 1, fuel - 1);
            let s2 = emitted_expression(f, s2, tree, right, depth + 1, fuel - 1);
            landed_twins(f, s1, s2, end1, end2);
        } else {
            put_twins(f, s1, s2, [0x50u8]@);
            let s1 = put(f, s1, [0x50u8]@);
            let s2 = put(f, s2, [0x50u8]@);
            raised_twins(f, s1, s2, 1);
            let s1 = raised(f, s1, 1);
            let s2 = raised(f, s2, 1);
            emitted_expression_twins(f, s1, s2, tree, right, depth + 1, fuel - 1);
            let s1 = emitted_expression(f, s1, tree, right, depth + 1, fuel - 1);
            let s2 = emitted_expression(f, s2, tree, right, depth + 1, fuel - 1);
            released_twins(f, s1, s2, 1);
            let s1 = released(f, s1, 1);
            let s2 = released(f, s2, 1);
            put_twins(f, s1, s2, [0x59u8]@);
            let s1 = put(f, s1, [0x59u8]@);
            let s2 = put(f, s2, [0x59u8]@);
            emitted_binary_twins(f, s1, s2, operator);
        }
    }
}

pub(crate) proof fn emitted_choice_twins<R: ConstantResolver, const P: usize, const N: usize>(
    f: Frame<R, P, N>,
    s1: Emission,
    s2: Emission,
    tree: Tree,
    condition: ExprId,
    then_branch: ExprId,
    else_branch: ExprId,
    depth: int,
    fuel: int,
)
    requires
        twins(s1, s2),
    ensures
        follow(
            s1,
            s2,
            emitted_choice(f, s1, tree, condition, then_branch, else_branch, depth, fuel),
            emitted_choice(f, s2, tree, condition, then_branch, else_branch, depth, fuel),
        ),
    decreases fuel, 15int, 0int,
{
    reveal(branch_place);
    emitted_choice_rule(f, s1, tree, condition, then_branch, else_branch, depth, fuel);
    emitted_choice_rule(f, s2, tree, condition, then_branch, else_branch, depth, fuel);
    if fuel <= 0 {
    } else {
        emitted_expression_twins(f, s1, s2, tree, condition, depth + 1, fuel - 1);
        let s1 = emitted_expression(f, s1, tree, condition, depth + 1, fuel - 1);
        let s2 = emitted_expression(f, s2, tree, condition, depth + 1, fuel - 1);
        put_twins(f, s1, s2, [0x48u8, 0x85, 0xc0]@);
        let s1 = put(f, s1, [0x48u8, 0x85, 0xc0]@);
        let s2 = put(f, s2, [0x48u8, 0x85, 0xc0]@);
        let otherwise1 = branch_place(s1, 2);
        let otherwise2 = branch_place(s2, 2);
        put_twins(f, s1, s2, [0x0fu8, 0x84, 0, 0, 0, 0]@);
        let s1 = put(f, s1, [0x0fu8, 0x84, 0, 0, 0, 0]@);
        let s2 = put(f, s2, [0x0fu8, 0x84, 0, 0, 0, 0]@);
        emitted_expression_twins(f, s1, s2, tree, then_branch, depth + 1, fuel - 1);
        let s1 = emitted_expression(f, s1, tree, then_branch, depth + 1, fuel - 1);
        let s2 = emitted_expression(f, s2, tree, then_branch, depth + 1, fuel - 1);
        let end1 = branch_place(s1, 1);
        let end2 = branch_place(s2, 1);
        put_twins(f, s1, s2, [0xe9u8, 0, 0, 0, 0]@);
        let s1 = put(f, s1, [0xe9u8, 0, 0, 0, 0]@);
        let s2 = put(f, s2, [0xe9u8, 0, 0, 0, 0]@);
        landed_twins(f, s1, s2, otherwise1, otherwise2);
        let s1 = landed(f, s1, otherwise1);
        let s2 = landed(f, s2, otherwise2);
        emitted_expression_twins(f, s1, s2, tree, else_branch, depth + 1, fuel - 1);
        let s1 = emitted_expression(f, s1, tree, else_branch, depth + 1, fuel - 1);
        let s2 = emitted_expression(f, s2, tree, else_branch, depth + 1, fuel - 1);
        landed_twins(f, s1, s2, end1, end2);
    }
}

pub(crate) proof fn emitted_index_twins<R: ConstantResolver, const P: usize, const N: usize>(
    f: Frame<R, P, N>,
    s1: Emission,
    s2: Emission,
    tree: Tree,
    base: ExprId,
    index: ExprId,
    depth: int,
    fuel: int,
)
    requires
        twins(s1, s2),
    ensures
        follow(
            s1,
            s2,
            emitted_index(f, s1, tree, base, index, depth, fuel),
            emitted_index(f, s2, tree, base, index, depth, fuel),
        ),
    decreases fuel, 15int, 0int,
{
    emitted_index_rule(f, s1, tree, base, index, depth, fuel);
    emitted_index_rule(f, s2, tree, base, index, depth, fuel);
    if fuel <= 0 {
    } else {
        match typed(f, s1.locals, tree, base, depth + 1) {
            Err(kind) => {},
            Ok(ty) => {
                match source_of_index(ty) {
                    IndexSource::Slice { element } => {
                        match reference_source(tree, base) {
                            None => {},
                            Some(source) => {
                                emitted_slice_index_twins(
                                    f,
                                    s1,
                                    s2,
                                    tree,
                                    base,
                                    index,
                                    element,
                                    source,
                                    depth + 1,
                                    fuel,
                                );
                            },
                        }
                    },
                    IndexSource::Referenced { element, count } => {
                        match known_index(tree, index, count, f.resolver) {
                            Err(kind) => {},
                            Ok(Some(place)) => {
                                emitted_referenced_constant_index_twins(
                                    f,
                                    s1,
                                    s2,
                                    tree,
                                    base,
                                    element,
                                    place,
                                    depth + 1,
                                    fuel,
                                );
                            },
                            Ok(None) => {
                                emitted_referenced_index_twins(
                                    f,
                                    s1,
                                    s2,
                                    tree,
                                    base,
                                    index,
                                    element,
                                    count,
                                    depth + 1,
                                    fuel,
                                );
                            },
                        }
                    },
                    IndexSource::Array { count, .. } => {
                        match known_index(tree, index, count, f.resolver) {
                            Err(kind) => {},
                            Ok(Some(place)) => {
                                emitted_array_constant_index_twins(
                                    f,
                                    s1,
                                    s2,
                                    tree,
                                    base,
                                    place,
                                    count,
                                    fuel,
                                );
                            },
                            Ok(None) => {
                                emitted_array_index_twins(
                                    f,
                                    s1,
                                    s2,
                                    tree,
                                    base,
                                    index,
                                    count,
                                    depth + 1,
                                    fuel,
                                );
                            },
                        }
                    },
                    _ => {},
                }
            },
        }
    }
}

pub(crate) proof fn emitted_slice_index_twins<R: ConstantResolver, const P: usize, const N: usize>(
    f: Frame<R, P, N>,
    s1: Emission,
    s2: Emission,
    tree: Tree,
    base: ExprId,
    index: ExprId,
    element: RuntimeArrayElementType,
    source: Seq<char>,
    depth: int,
    fuel: int,
)
    requires
        twins(s1, s2),
    ensures
        follow(
            s1,
            s2,
            emitted_slice_index(f, s1, tree, base, index, element, source, depth, fuel),
            emitted_slice_index(f, s2, tree, base, index, element, source, depth, fuel),
        ),
    decreases fuel, 10int, 0int,
{
    reveal(branch_place);
    emitted_slice_index_rule(f, s1, tree, base, index, element, source, depth, fuel);
    emitted_slice_index_rule(f, s2, tree, base, index, element, source, depth, fuel);
    if fuel <= 0 {
    } else {
        emitted_expression_twins(f, s1, s2, tree, base, depth + 1, fuel - 1);
        let s1 = emitted_expression(f, s1, tree, base, depth + 1, fuel - 1);
        let s2 = emitted_expression(f, s2, tree, base, depth + 1, fuel - 1);
        put_twins(f, s1, s2, [0x50u8]@);
        let s1 = put(f, s1, [0x50u8]@);
        let s2 = put(f, s2, [0x50u8]@);
        raised_twins(f, s1, s2, 1);
        let s1 = raised(f, s1, 1);
        let s2 = raised(f, s2, 1);
        emitted_slice_length_twins(f, s1, s2, source);
        let s1 = emitted_slice_length(f, s1, source);
        let s2 = emitted_slice_length(f, s2, source);
        put_twins(f, s1, s2, [0x50u8]@);
        let s1 = put(f, s1, [0x50u8]@);
        let s2 = put(f, s2, [0x50u8]@);
        raised_twins(f, s1, s2, 1);
        let s1 = raised(f, s1, 1);
        let s2 = raised(f, s2, 1);
        emitted_expression_twins(f, s1, s2, tree, index, depth + 1, fuel - 1);
        let s1 = emitted_expression(f, s1, tree, index, depth + 1, fuel - 1);
        let s2 = emitted_expression(f, s2, tree, index, depth + 1, fuel - 1);
        put_twins(f, s1, s2, [0x48u8, 0x3b, 0x04, 0x24]@);
        let s1 = put(f, s1, [0x48u8, 0x3b, 0x04, 0x24]@);
        let s2 = put(f, s2, [0x48u8, 0x3b, 0x04, 0x24]@);
        let in_bounds1 = branch_place(s1, 2);
        let in_bounds2 = branch_place(s2, 2);
        put_twins(f, s1, s2, [0x0fu8, 0x82, 0, 0, 0, 0]@);
        let s1 = put(f, s1, [0x0fu8, 0x82, 0, 0, 0, 0]@);
        let s2 = put(f, s2, [0x0fu8, 0x82, 0, 0, 0, 0]@);
        put_twins(f, s1, s2, [0x0fu8, 0x0b]@);
        let s1 = put(f, s1, [0x0fu8, 0x0b]@);
        let s2 = put(f, s2, [0x0fu8, 0x0b]@);
        landed_twins(f, s1, s2, in_bounds1, in_bounds2);
        let s1 = landed(f, s1, in_bounds1);
        let s2 = landed(f, s2, in_bounds2);
        match element_bytes(element) {
            None => {},
            Some(bytes) => {
                if bytes == 0 {
                    put_twins(f, s1, s2, [0x48u8, 0x83, 0xc4, 16, 0x31, 0xc0]@);
                    let s1 = put(f, s1, [0x48u8, 0x83, 0xc4, 16, 0x31, 0xc0]@);
                    let s2 = put(f, s2, [0x48u8, 0x83, 0xc4, 16, 0x31, 0xc0]@);
                    released_twins(f, s1, s2, 2);
                } else {
                    put_twins(f, s1, s2, [0x48u8, 0x89, 0xc1, 0x48, 0x8b, 0x44, 0x24, 0x08]@);
                    let s1 = put(f, s1, [0x48u8, 0x89, 0xc1, 0x48, 0x8b, 0x44, 0x24, 0x08]@);
                    let s2 = put(f, s2, [0x48u8, 0x89, 0xc1, 0x48, 0x8b, 0x44, 0x24, 0x08]@);
                    put_twins(f, s1, s2, [0x48u8, 0x83, 0xc4, 16]@);
                    let s1 = put(f, s1, [0x48u8, 0x83, 0xc4, 16]@);
                    let s2 = put(f, s2, [0x48u8, 0x83, 0xc4, 16]@);
                    released_twins(f, s1, s2, 2);
                    let s1 = released(f, s1, 2);
                    let s2 = released(f, s2, 2);
                    emitted_element_address_twins(f, s1, s2, bytes);
                    let s1 = emitted_element_address(f, s1, bytes);
                    let s2 = emitted_element_address(f, s2, bytes);
                    emitted_reference_load_twins(f, s1, s2, element);
                }
            },
        }
    }
}

pub(crate) proof fn emitted_referenced_index_twins<R: ConstantResolver, const P: usize, const N: usize>(
    f: Frame<R, P, N>,
    s1: Emission,
    s2: Emission,
    tree: Tree,
    base: ExprId,
    index: ExprId,
    element: RuntimeArrayElementType,
    count: usize,
    depth: int,
    fuel: int,
)
    requires
        twins(s1, s2),
    ensures
        follow(
            s1,
            s2,
            emitted_referenced_index(f, s1, tree, base, index, element, count, depth, fuel),
            emitted_referenced_index(f, s2, tree, base, index, element, count, depth, fuel),
        ),
    decreases fuel, 10int, 0int,
{
    reveal(branch_place);
    emitted_referenced_index_rule(f, s1, tree, base, index, element, count, depth, fuel);
    emitted_referenced_index_rule(f, s2, tree, base, index, element, count, depth, fuel);
    if fuel <= 0 {
    } else {
        emitted_expression_twins(f, s1, s2, tree, base, depth + 1, fuel - 1);
        let s1 = emitted_expression(f, s1, tree, base, depth + 1, fuel - 1);
        let s2 = emitted_expression(f, s2, tree, base, depth + 1, fuel - 1);
        put_twins(f, s1, s2, [0x50u8]@);
        let s1 = put(f, s1, [0x50u8]@);
        let s2 = put(f, s2, [0x50u8]@);
        raised_twins(f, s1, s2, 1);
        let s1 = raised(f, s1, 1);
        let s2 = raised(f, s2, 1);
        emitted_expression_twins(f, s1, s2, tree, index, depth + 1, fuel - 1);
        let s1 = emitted_expression(f, s1, tree, index, depth + 1, fuel - 1);
        let s2 = emitted_expression(f, s2, tree, index, depth + 1, fuel - 1);
        put_twins(f, s1, s2, [0x48u8, 0x83, 0xf8, count as u8]@);
        let s1 = put(f, s1, [0x48u8, 0x83, 0xf8, count as u8]@);
        let s2 = put(f, s2, [0x48u8, 0x83, 0xf8, count as u8]@);
        let in_bounds1 = branch_place(s1, 2);
        let in_bounds2 = branch_place(s2, 2);
        put_twins(f, s1, s2, [0x0fu8, 0x82, 0, 0, 0, 0]@);
        let s1 = put(f, s1, [0x0fu8, 0x82, 0, 0, 0, 0]@);
        let s2 = put(f, s2, [0x0fu8, 0x82, 0, 0, 0, 0]@);
        put_twins(f, s1, s2, [0x0fu8, 0x0b]@);
        let s1 = put(f, s1, [0x0fu8, 0x0b]@);
        let s2 = put(f, s2, [0x0fu8, 0x0b]@);
        landed_twins(f, s1, s2, in_bounds1, in_bounds2);
        let s1 = landed(f, s1, in_bounds1);
        let s2 = landed(f, s2, in_bounds2);
        match element_bytes(element) {
            None => {},
            Some(bytes) => {
                if bytes == 0 {
                    put_twins(f, s1, s2, [0x48u8, 0x83, 0xc4, 0x08, 0x31, 0xc0]@);
                    let s1 = put(f, s1, [0x48u8, 0x83, 0xc4, 0x08, 0x31, 0xc0]@);
                    let s2 = put(f, s2, [0x48u8, 0x83, 0xc4, 0x08, 0x31, 0xc0]@);
                    released_twins(f, s1, s2, 1);
                } else {
                    put_twins(f, s1, s2, [0x48u8, 0x89, 0xc1, 0x58]@);
                    let s1 = put(f, s1, [0x48u8, 0x89, 0xc1, 0x58]@);
                    let s2 = put(f, s2, [0x48u8, 0x89, 0xc1, 0x58]@);
                    released_twins(f, s1, s2, 1);
                    let s1 = released(f, s1, 1);
                    let s2 = released(f, s2, 1);
                    emitted_element_address_twins(f, s1, s2, bytes);
                    let s1 = emitted_element_address(f, s1, bytes);
                    let s2 = emitted_element_address(f, s2, bytes);
                    emitted_reference_load_twins(f, s1, s2, element);
                }
            },
        }
    }
}

pub(crate) proof fn emitted_referenced_constant_index_twins<R: ConstantResolver, const P: usize, const N: usize>(
    f: Frame<R, P, N>,
    s1: Emission,
    s2: Emission,
    tree: Tree,
    base: ExprId,
    element: RuntimeArrayElementType,
    index: usize,
    depth: int,
    fuel: int,
)
    requires
        twins(s1, s2),
    ensures
        follow(
            s1,
            s2,
            emitted_referenced_constant_index(f, s1, tree, base, element, index, depth, fuel),
            emitted_referenced_constant_index(f, s2, tree, base, element, index, depth, fuel),
        ),
    decreases fuel, 10int, 0int,
{
    emitted_referenced_constant_index_rule(f, s1, tree, base, element, index, depth, fuel);
    emitted_referenced_constant_index_rule(f, s2, tree, base, element, index, depth, fuel);
    if fuel <= 0 {
    } else {
        emitted_expression_twins(f, s1, s2, tree, base, depth + 1, fuel - 1);
        let s1 = emitted_expression(f, s1, tree, base, depth + 1, fuel - 1);
        let s2 = emitted_expression(f, s2, tree, base, depth + 1, fuel - 1);
        match element_bytes(element) {
            None => {},
            Some(bytes) => {
                match product_of(bytes, index) {
                    None => {},
                    Some(displacement) => {
                        if displacement == 0 {
                        } else {
                            if displacement <= 127 {
                                put_twins(f, s1, s2, [0x48u8, 0x83, 0xc0, displacement as u8]@);
                            } else {
                                if displacement <= 0xffff_ffff {
                                    put_twins(f, s1, s2, [0x48u8, 0x05]@);
                                    let s1 = put(f, s1, [0x48u8, 0x05]@);
                                    let s2 = put(f, s2, [0x48u8, 0x05]@);
                                    put_twins(f, s1, s2, word_bytes(displacement as int));
                                }
                            }
                        }
                        let s1 = if displacement == 0 {
                            s1
                        } else if displacement <= 127 {
                            put(f, s1, [0x48u8, 0x83, 0xc0, displacement as u8]@)
                        } else if displacement <= 0xffff_ffff {
                            let s1 = put(f, s1, [0x48u8, 0x05]@);
                            put(f, s1, word_bytes(displacement as int))
                        } else {
                            failed(f, s1, CodegenErrorKind::OutputTooSmall)
                        };
                        let s2 = if displacement == 0 {
                            s2
                        } else if displacement <= 127 {
                            put(f, s2, [0x48u8, 0x83, 0xc0, displacement as u8]@)
                        } else if displacement <= 0xffff_ffff {
                            let s2 = put(f, s2, [0x48u8, 0x05]@);
                            put(f, s2, word_bytes(displacement as int))
                        } else {
                            failed(f, s2, CodegenErrorKind::OutputTooSmall)
                        };
                        if bytes == 0 {
                            put_twins(f, s1, s2, [0x31u8, 0xc0]@);
                        } else {
                            emitted_reference_load_twins(f, s1, s2, element);
                        }
                    },
                }
            },
        }
    }
}

pub(crate) proof fn emitted_array_constant_index_twins<R: ConstantResolver, const P: usize, const N: usize>(
    f: Frame<R, P, N>,
    s1: Emission,
    s2: Emission,
    tree: Tree,
    base: ExprId,
    index: usize,
    count: usize,
    fuel: int,
)
    requires
        twins(s1, s2),
    ensures
        follow(
            s1,
            s2,
            emitted_array_constant_index(f, s1, tree, base, index, count, fuel),
            emitted_array_constant_index(f, s2, tree, base, index, count, fuel),
        ),
    decreases fuel, 10int, 0int,
{
    emitted_array_constant_index_rule(f, s1, tree, base, index, count, fuel);
    emitted_array_constant_index_rule(f, s2, tree, base, index, count, fuel);
    if fuel <= 0 {
    } else {
        if count > MAX_ARRAY_ELEMENTS || index >= count {
        } else {
            emitted_array_twins(f, s1, s2, tree, base, count, fuel - 1);
            let s1 = emitted_array(f, s1, tree, base, count, fuel - 1);
            let s2 = emitted_array(f, s2, tree, base, count, fuel - 1);
            emitted_stack_slot_twins(f, s1, s2, index);
            let s1 = emitted_stack_slot(f, s1, index);
            let s2 = emitted_stack_slot(f, s2, index);
            released_twins(f, s1, s2, count);
            let s1 = released(f, s1, count);
            let s2 = released(f, s2, count);
            emitted_slots_cleanup_twins(f, s1, s2, count);
        }
    }
}

pub(crate) proof fn emitted_array_index_twins<R: ConstantResolver, const P: usize, const N: usize>(
    f: Frame<R, P, N>,
    s1: Emission,
    s2: Emission,
    tree: Tree,
    base: ExprId,
    index: ExprId,
    count: usize,
    depth: int,
    fuel: int,
)
    requires
        twins(s1, s2),
    ensures
        follow(
            s1,
            s2,
            emitted_array_index(f, s1, tree, base, index, count, depth, fuel),
            emitted_array_index(f, s2, tree, base, index, count, depth, fuel),
        ),
    decreases fuel, 10int, 0int,
{
    emitted_array_index_rule(f, s1, tree, base, index, count, depth, fuel);
    emitted_array_index_rule(f, s2, tree, base, index, count, depth, fuel);
    if fuel <= 0 {
    } else {
        if count > MAX_ARRAY_ELEMENTS {
        } else {
            emitted_array_twins(f, s1, s2, tree, base, count, fuel - 1);
            let s1 = emitted_array(f, s1, tree, base, count, fuel - 1);
            let s2 = emitted_array(f, s2, tree, base, count, fuel - 1);
            emitted_expression_twins(f, s1, s2, tree, index, depth + 1, fuel - 1);
            let s1 = emitted_expression(f, s1, tree, index, depth + 1, fuel - 1);
            let s2 = emitted_expression(f, s2, tree, index, depth + 1, fuel - 1);
            put_twins(f, s1, s2, [0x50u8]@);
            let s1 = put(f, s1, [0x50u8]@);
            let s2 = put(f, s2, [0x50u8]@);
            raised_twins(f, s1, s2, 1);
            let s1 = raised(f, s1, 1);
            let s2 = raised(f, s2, 1);
            emitted_chosen_slots_twins(f, s1, s2, 0, 1, count, 0);
            let s1 = emitted_chosen_slots(f, s1, 0, 1, count, 0);
            let s2 = emitted_chosen_slots(f, s2, 0, 1, count, 0);
            released_twins(f, s1, s2, place_from(count, 1));
            let s1 = released(f, s1, place_from(count, 1));
            let s2 = released(f, s2, place_from(count, 1));
            emitted_slots_cleanup_twins(f, s1, s2, place_from(count, 1));
        }
    }
}

pub(crate) proof fn emitted_index_address_twins<R: ConstantResolver, const P: usize, const N: usize>(
    f: Frame<R, P, N>,
    s1: Emission,
    s2: Emission,
    tree: Tree,
    base: ExprId,
    index: ExprId,
    depth: int,
    fuel: int,
)
    requires
        twins(s1, s2),
    ensures
        follow(
            s1,
            s2,
            emitted_index_address(f, s1, tree, base, index, depth, fuel),
            emitted_index_address(f, s2, tree, base, index, depth, fuel),
        ),
    decreases fuel, 13int, 0int,
{
    emitted_index_address_rule(f, s1, tree, base, index, depth, fuel);
    emitted_index_address_rule(f, s2, tree, base, index, depth, fuel);
    if fuel <= 0 {
    } else {
        match typed(f, s1.locals, tree, base, depth + 1) {
            Err(kind) => {},
            Ok(ty) => {
                match source_of_index(ty) {
                    IndexSource::Referenced { element, count } => {
                        emitted_expression_twins(f, s1, s2, tree, base, depth + 1, fuel - 1);
                        let s1 = emitted_expression(f, s1, tree, base, depth + 1, fuel - 1);
                        let s2 = emitted_expression(f, s2, tree, base, depth + 1, fuel - 1);
                        emitted_counted_element_address_twins(
                            f,
                            s1,
                            s2,
                            tree,
                            index,
                            element,
                            count,
                            depth,
                            fuel,
                        );
                    },
                    IndexSource::Slice { element } => {
                        match reference_source(tree, base) {
                            None => {},
                            Some(source) => {
                                emitted_expression_twins(
                                    f,
                                    s1,
                                    s2,
                                    tree,
                                    base,
                                    depth + 1,
                                    fuel - 1,
                                );
                                let s1 = emitted_expression(f, s1, tree, base, depth + 1, fuel - 1);
                                let s2 = emitted_expression(f, s2, tree, base, depth + 1, fuel - 1);
                                emitted_slice_element_address_twins(
                                    f,
                                    s1,
                                    s2,
                                    tree,
                                    index,
                                    element,
                                    source,
                                    depth,
                                    fuel,
                                );
                            },
                        }
                    },
                    IndexSource::Array { element, count } => {
                        match form_at(tree, base) {
                            Some(Form::Identifier(name)) => {
                                emitted_identifier_address_twins(f, s1, s2, name);
                                let s1 = emitted_identifier_address(f, s1, name);
                                let s2 = emitted_identifier_address(f, s2, name);
                                emitted_counted_element_address_twins(
                                    f,
                                    s1,
                                    s2,
                                    tree,
                                    index,
                                    element,
                                    count,
                                    depth,
                                    fuel,
                                );
                            },
                            _ => {},
                        }
                    },
                    _ => {},
                }
            },
        }
    }
}

pub(crate) proof fn emitted_counted_element_address_twins<R: ConstantResolver, const P: usize, const N: usize>(
    f: Frame<R, P, N>,
    s1: Emission,
    s2: Emission,
    tree: Tree,
    index: ExprId,
    element: RuntimeArrayElementType,
    count: usize,
    depth: int,
    fuel: int,
)
    requires
        twins(s1, s2),
    ensures
        follow(
            s1,
            s2,
            emitted_counted_element_address(f, s1, tree, index, element, count, depth, fuel),
            emitted_counted_element_address(f, s2, tree, index, element, count, depth, fuel),
        ),
    decreases fuel, 10int, 0int,
{
    emitted_counted_element_address_rule(f, s1, tree, index, element, count, depth, fuel);
    emitted_counted_element_address_rule(f, s2, tree, index, element, count, depth, fuel);
    if fuel <= 0 {
    } else {
        put_twins(f, s1, s2, [0x50u8]@);
        let s1 = put(f, s1, [0x50u8]@);
        let s2 = put(f, s2, [0x50u8]@);
        raised_twins(f, s1, s2, 1);
        let s1 = raised(f, s1, 1);
        let s2 = raised(f, s2, 1);
        emitted_expression_twins(f, s1, s2, tree, index, depth + 1, fuel - 1);
        let s1 = emitted_expression(f, s1, tree, index, depth + 1, fuel - 1);
        let s2 = emitted_expression(f, s2, tree, index, depth + 1, fuel - 1);
        put_twins(f, s1, s2, [0x48u8, 0x83, 0xf8]@);
        let s1 = put(f, s1, [0x48u8, 0x83, 0xf8]@);
        let s2 = put(f, s2, [0x48u8, 0x83, 0xf8]@);
        if count <= 255 {
            put_twins(f, s1, s2, [count as u8]@);
        }
        let s1 = if count <= 255 {
            put(f, s1, [count as u8]@)
        } else {
            failed(f, s1, CodegenErrorKind::ValueOutOfRange)
        };
        let s2 = if count <= 255 {
            put(f, s2, [count as u8]@)
        } else {
            failed(f, s2, CodegenErrorKind::ValueOutOfRange)
        };
        trapped_twins(f, s1, s2, 0x83);
        let s1 = trapped(f, s1, 0x83);
        let s2 = trapped(f, s2, 0x83);
        put_twins(f, s1, s2, [0x48u8, 0x89, 0xc1, 0x58]@);
        let s1 = put(f, s1, [0x48u8, 0x89, 0xc1, 0x58]@);
        let s2 = put(f, s2, [0x48u8, 0x89, 0xc1, 0x58]@);
        released_twins(f, s1, s2, 1);
        let s1 = released(f, s1, 1);
        let s2 = released(f, s2, 1);
        match element_bytes(element) {
            None => {},
            Some(bytes) => {
                emitted_element_address_twins(f, s1, s2, bytes);
            },
        }
    }
}

pub(crate) proof fn emitted_slice_element_address_twins<R: ConstantResolver, const P: usize, const N: usize>(
    f: Frame<R, P, N>,
    s1: Emission,
    s2: Emission,
    tree: Tree,
    index: ExprId,
    element: RuntimeArrayElementType,
    source: Seq<char>,
    depth: int,
    fuel: int,
)
    requires
        twins(s1, s2),
    ensures
        follow(
            s1,
            s2,
            emitted_slice_element_address(f, s1, tree, index, element, source, depth, fuel),
            emitted_slice_element_address(f, s2, tree, index, element, source, depth, fuel),
        ),
    decreases fuel, 10int, 0int,
{
    emitted_slice_element_address_rule(f, s1, tree, index, element, source, depth, fuel);
    emitted_slice_element_address_rule(f, s2, tree, index, element, source, depth, fuel);
    if fuel <= 0 {
    } else {
        put_twins(f, s1, s2, [0x50u8]@);
        let s1 = put(f, s1, [0x50u8]@);
        let s2 = put(f, s2, [0x50u8]@);
        raised_twins(f, s1, s2, 1);
        let s1 = raised(f, s1, 1);
        let s2 = raised(f, s2, 1);
        emitted_slice_length_twins(f, s1, s2, source);
        let s1 = emitted_slice_length(f, s1, source);
        let s2 = emitted_slice_length(f, s2, source);
        put_twins(f, s1, s2, [0x50u8]@);
        let s1 = put(f, s1, [0x50u8]@);
        let s2 = put(f, s2, [0x50u8]@);
        raised_twins(f, s1, s2, 1);
        let s1 = raised(f, s1, 1);
        let s2 = raised(f, s2, 1);
        emitted_expression_twins(f, s1, s2, tree, index, depth + 1, fuel - 1);
        let s1 = emitted_expression(f, s1, tree, index, depth + 1, fuel - 1);
        let s2 = emitted_expression(f, s2, tree, index, depth + 1, fuel - 1);
        put_twins(f, s1, s2, [0x48u8, 0x3b, 0x04, 0x24]@);
        let s1 = put(f, s1, [0x48u8, 0x3b, 0x04, 0x24]@);
        let s2 = put(f, s2, [0x48u8, 0x3b, 0x04, 0x24]@);
        trapped_twins(f, s1, s2, 0x83);
        let s1 = trapped(f, s1, 0x83);
        let s2 = trapped(f, s2, 0x83);
        put_twins(f, s1, s2, [0x48u8, 0x89, 0xc1, 0x48, 0x8b, 0x44, 0x24, 0x08]@);
        let s1 = put(f, s1, [0x48u8, 0x89, 0xc1, 0x48, 0x8b, 0x44, 0x24, 0x08]@);
        let s2 = put(f, s2, [0x48u8, 0x89, 0xc1, 0x48, 0x8b, 0x44, 0x24, 0x08]@);
        emitted_cleanup_bytes_twins(f, s1, s2, 16);
        let s1 = emitted_cleanup_bytes(f, s1, 16);
        let s2 = emitted_cleanup_bytes(f, s2, 16);
        released_twins(f, s1, s2, 2);
        let s1 = released(f, s1, 2);
        let s2 = released(f, s2, 2);
        match element_bytes(element) {
            None => {},
            Some(bytes) => {
                emitted_element_address_twins(f, s1, s2, bytes);
            },
        }
    }
}

pub(crate) proof fn emitted_char_boundary_twins<R: ConstantResolver, const P: usize, const N: usize>(
    f: Frame<R, P, N>,
    s1: Emission,
    s2: Emission,
    tree: Tree,
    base: ExprId,
    index: ExprId,
    depth: int,
    fuel: int,
)
    requires
        twins(s1, s2),
    ensures
        follow(
            s1,
            s2,
            emitted_char_boundary(f, s1, tree, base, index, depth, fuel),
            emitted_char_boundary(f, s2, tree, base, index, depth, fuel),
        ),
    decreases fuel, 15int, 0int,
{
    emitted_char_boundary_rule(f, s1, tree, base, index, depth, fuel);
    emitted_char_boundary_rule(f, s2, tree, base, index, depth, fuel);
    if fuel <= 0 {
    } else {
        match reference_source(tree, base) {
            None => {},
            Some(source) => {
                emitted_expression_twins(f, s1, s2, tree, base, depth + 1, fuel - 1);
                let s1 = emitted_expression(f, s1, tree, base, depth + 1, fuel - 1);
                let s2 = emitted_expression(f, s2, tree, base, depth + 1, fuel - 1);
                put_twins(f, s1, s2, [0x50u8]@);
                let s1 = put(f, s1, [0x50u8]@);
                let s2 = put(f, s2, [0x50u8]@);
                raised_twins(f, s1, s2, 1);
                let s1 = raised(f, s1, 1);
                let s2 = raised(f, s2, 1);
                emitted_slice_length_twins(f, s1, s2, source);
                let s1 = emitted_slice_length(f, s1, source);
                let s2 = emitted_slice_length(f, s2, source);
                put_twins(f, s1, s2, [0x50u8]@);
                let s1 = put(f, s1, [0x50u8]@);
                let s2 = put(f, s2, [0x50u8]@);
                raised_twins(f, s1, s2, 1);
                let s1 = raised(f, s1, 1);
                let s2 = raised(f, s2, 1);
                emitted_expression_twins(f, s1, s2, tree, index, depth + 1, fuel - 1);
                let s1 = emitted_expression(f, s1, tree, index, depth + 1, fuel - 1);
                let s2 = emitted_expression(f, s2, tree, index, depth + 1, fuel - 1);
                emitted_boundary_answer_twins(f, s1, s2);
            },
        }
    }
}

pub(crate) proof fn emitted_array_element_twins<R: ConstantResolver, const P: usize, const N: usize>(
    f: Frame<R, P, N>,
    s1: Emission,
    s2: Emission,
    tree: Tree,
    id: ExprId,
    index: usize,
    depth: int,
    fuel: int,
)
    requires
        twins(s1, s2),
    ensures
        follow(
            s1,
            s2,
            emitted_array_element(f, s1, tree, id, index, depth, fuel),
            emitted_array_element(f, s2, tree, id, index, depth, fuel),
        ),
    decreases fuel, 12int, 0int,
{
    emitted_array_element_rule(f, s1, tree, id, index, depth, fuel);
    emitted_array_element_rule(f, s2, tree, id, index, depth, fuel);
    if fuel <= 0 {
    } else {
        if depth >= MAX_EXPRESSION_DEPTH {
        } else {
            match form_at(tree, id) {
                Some(Form::DefaultValue) => {
                    put_twins(f, s1, s2, [0x31u8, 0xc0]@);
                },
                Some(Form::Array { elements, element_count }) => {
                    match element_at(elements, index, element_count) {
                        None => {},
                        Some(element) => {
                            emitted_expression_twins(
                                f,
                                s1,
                                s2,
                                tree,
                                element,
                                depth + 1,
                                fuel - 1,
                            );
                        },
                    }
                },
                Some(Form::ArrayRepeat { element, count }) => {
                    if index >= count {
                    } else {
                        emitted_expression_twins(f, s1, s2, tree, element, depth + 1, fuel - 1);
                    }
                },
                Some(Form::Identifier(name)) => {
                    emitted_named_element_twins(f, s1, s2, name, index);
                },
                Some(Form::If { condition, then_branch, else_branch }) => {
                    emitted_element_choice_twins(
                        f,
                        s1,
                        s2,
                        tree,
                        condition,
                        then_branch,
                        else_branch,
                        index,
                        depth,
                        fuel,
                    );
                },
                Some(Form::LoopBreakIf { condition, then_branch, else_branch }) => {
                    emitted_element_choice_twins(
                        f,
                        s1,
                        s2,
                        tree,
                        condition,
                        then_branch,
                        else_branch,
                        index,
                        depth,
                        fuel,
                    );
                },
                Some(Form::InlineConst { operand }) => {
                    emitted_array_element_twins(
                        f,
                        s1,
                        s2,
                        tree,
                        operand,
                        index,
                        depth + 1,
                        fuel - 1,
                    );
                },
                Some(Form::LoopBreak { operand }) => {
                    emitted_array_element_twins(
                        f,
                        s1,
                        s2,
                        tree,
                        operand,
                        index,
                        depth + 1,
                        fuel - 1,
                    );
                },
                Some(Form::Return { operand }) => {
                    emitted_array_element_twins(
                        f,
                        s1,
                        s2,
                        tree,
                        operand,
                        index,
                        depth + 1,
                        fuel - 1,
                    );
                },
                Some(Form::Sequence { first, then }) => {
                    emitted_expression_twins(f, s1, s2, tree, first, depth + 1, fuel - 1);
                    let s1 = emitted_expression(f, s1, tree, first, depth + 1, fuel - 1);
                    let s2 = emitted_expression(f, s2, tree, first, depth + 1, fuel - 1);
                    emitted_array_element_twins(f, s1, s2, tree, then, index, depth + 1, fuel - 1);
                },
                _ => {},
            }
        }
    }
}

pub(crate) proof fn emitted_element_choice_twins<R: ConstantResolver, const P: usize, const N: usize>(
    f: Frame<R, P, N>,
    s1: Emission,
    s2: Emission,
    tree: Tree,
    condition: ExprId,
    then_branch: ExprId,
    else_branch: ExprId,
    index: usize,
    depth: int,
    fuel: int,
)
    requires
        twins(s1, s2),
    ensures
        follow(
            s1,
            s2,
            emitted_element_choice(f, s1, tree, condition, then_branch, else_branch, index, depth, fuel),
            emitted_element_choice(f, s2, tree, condition, then_branch, else_branch, index, depth, fuel),
        ),
    decreases fuel, 11int, 0int,
{
    reveal(branch_place);
    emitted_element_choice_rule(
        f,
        s1,
        tree,
        condition,
        then_branch,
        else_branch,
        index,
        depth,
        fuel,
    );
    emitted_element_choice_rule(
        f,
        s2,
        tree,
        condition,
        then_branch,
        else_branch,
        index,
        depth,
        fuel,
    );
    if fuel <= 0 {
    } else {
        emitted_expression_twins(f, s1, s2, tree, condition, depth + 1, fuel - 1);
        let s1 = emitted_expression(f, s1, tree, condition, depth + 1, fuel - 1);
        let s2 = emitted_expression(f, s2, tree, condition, depth + 1, fuel - 1);
        put_twins(f, s1, s2, [0x48u8, 0x85, 0xc0]@);
        let s1 = put(f, s1, [0x48u8, 0x85, 0xc0]@);
        let s2 = put(f, s2, [0x48u8, 0x85, 0xc0]@);
        let otherwise1 = branch_place(s1, 2);
        let otherwise2 = branch_place(s2, 2);
        put_twins(f, s1, s2, [0x0fu8, 0x84, 0, 0, 0, 0]@);
        let s1 = put(f, s1, [0x0fu8, 0x84, 0, 0, 0, 0]@);
        let s2 = put(f, s2, [0x0fu8, 0x84, 0, 0, 0, 0]@);
        emitted_array_element_twins(f, s1, s2, tree, then_branch, index, depth + 1, fuel - 1);
        let s1 = emitted_array_element(f, s1, tree, then_branch, index, depth + 1, fuel - 1);
        let s2 = emitted_array_element(f, s2, tree, then_branch, index, depth + 1, fuel - 1);
        let end1 = branch_place(s1, 1);
        let end2 = branch_place(s2, 1);
        put_twins(f, s1, s2, [0xe9u8, 0, 0, 0, 0]@);
        let s1 = put(f, s1, [0xe9u8, 0, 0, 0, 0]@);
        let s2 = put(f, s2, [0xe9u8, 0, 0, 0, 0]@);
        landed_twins(f, s1, s2, otherwise1, otherwise2);
        let s1 = landed(f, s1, otherwise1);
        let s2 = landed(f, s2, otherwise2);
        emitted_array_element_twins(f, s1, s2, tree, else_branch, index, depth + 1, fuel - 1);
        let s1 = emitted_array_element(f, s1, tree, else_branch, index, depth + 1, fuel - 1);
        let s2 = emitted_array_element(f, s2, tree, else_branch, index, depth + 1, fuel - 1);
        landed_twins(f, s1, s2, end1, end2);
    }
}

pub(crate) proof fn emitted_array_elements_twins<R: ConstantResolver, const P: usize, const N: usize>(
    f: Frame<R, P, N>,
    s1: Emission,
    s2: Emission,
    tree: Tree,
    root: ExprId,
    count: usize,
    index: usize,
    fuel: int,
)
    requires
        twins(s1, s2),
    ensures
        follow(
            s1,
            s2,
            emitted_array_elements(f, s1, tree, root, count, index, fuel),
            emitted_array_elements(f, s2, tree, root, count, index, fuel),
        ),
    decreases fuel, 13int, count - index,
{
    emitted_array_elements_rule(f, s1, tree, root, count, index, fuel);
    emitted_array_elements_rule(f, s2, tree, root, count, index, fuel);
    if fuel <= 0 {
    } else {
        if index < count {
            emitted_array_element_twins(f, s1, s2, tree, root, index, 0, fuel);
            let s1 = emitted_array_element(f, s1, tree, root, index, 0, fuel);
            let s2 = emitted_array_element(f, s2, tree, root, index, 0, fuel);
            put_twins(f, s1, s2, [0x50u8]@);
            let s1 = put(f, s1, [0x50u8]@);
            let s2 = put(f, s2, [0x50u8]@);
            raised_twins(f, s1, s2, 1);
            let s1 = raised(f, s1, 1);
            let s2 = raised(f, s2, 1);
            emitted_array_elements_twins(f, s1, s2, tree, root, count, (index + 1) as usize, fuel);
        }
    }
}

pub(crate) proof fn emitted_array_twins<R: ConstantResolver, const P: usize, const N: usize>(
    f: Frame<R, P, N>,
    s1: Emission,
    s2: Emission,
    tree: Tree,
    root: ExprId,
    count: usize,
    fuel: int,
)
    requires
        twins(s1, s2),
    ensures
        follow(
            s1,
            s2,
            emitted_array(f, s1, tree, root, count, fuel),
            emitted_array(f, s2, tree, root, count, fuel),
        ),
    decreases fuel, 14int, 0int,
{
    emitted_array_rule(f, s1, tree, root, count, fuel);
    emitted_array_rule(f, s2, tree, root, count, fuel);
    if fuel <= 0 {
    } else {
        match form_at(tree, root) {
            None => {},
            Some(Form::ArrayRepeat { element, count: repeat }) => {
                if repeat != count {
                } else {
                    emitted_expression_twins(f, s1, s2, tree, element, 0, fuel - 1);
                    let s1 = emitted_expression(f, s1, tree, element, 0, fuel - 1);
                    let s2 = emitted_expression(f, s2, tree, element, 0, fuel - 1);
                    if count != 0 {
                        put_twins(f, s1, s2, [0x50u8]@);
                        let s1 = put(f, s1, [0x50u8]@);
                        let s2 = put(f, s2, [0x50u8]@);
                        raised_twins(f, s1, s2, 1);
                        let s1 = raised(f, s1, 1);
                        let s2 = raised(f, s2, 1);
                        emitted_copies_twins(f, s1, s2, count, 1);
                    }
                }
            },
            Some(_) => {
                emitted_array_elements_twins(f, s1, s2, tree, root, count, 0, fuel);
                let s1 = emitted_array_elements(f, s1, tree, root, count, 0, fuel);
                let s2 = emitted_array_elements(f, s2, tree, root, count, 0, fuel);
                emitted_swapped_twins(f, s1, s2, count, count / 2, 0);
            },
        }
    }
}

} // verus!
