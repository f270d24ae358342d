//! How code grows by the code of expressions.
use crate::expression::{
    ConstantResolver, ExprId, Form, MAX_ARRAY_ELEMENTS, MAX_EXPRESSION_DEPTH, Tree,
};
use crate::integer::{
    BinaryOperator, IntegerType, ScalarType, UnaryOperator,
};
use crate::codegen::growth::{
    goes_on, landed_adds, put_adds, raised_adds, released_adds, same_code_is_added,
    trapped_adds,
};
use crate::codegen::instruction_growth::{
    emitted_binary_adds, emitted_chosen_slots_adds, emitted_cleanup_bytes_adds,
    emitted_constant_adds, emitted_copies_adds, emitted_element_address_adds,
    emitted_identifier_address_adds, emitted_identifier_adds, emitted_negated_adds,
    emitted_normal_adds, emitted_normal_element_adds, emitted_normal_width_adds,
    emitted_parameter_slot_adds, emitted_reference_load_adds, emitted_slice_length_adds,
    emitted_slot_of_adds, emitted_slots_cleanup_adds, emitted_stack_slot_adds,
    emitted_swapped_adds,
};
use crate::codegen::value_rules::{
    emitted_address_rule, emitted_array_constant_index_rule, emitted_array_element_rule,
    emitted_array_elements_rule, emitted_array_index_rule, emitted_array_rule,
    emitted_char_boundary_rule, emitted_choice_rule, emitted_counted_element_address_rule,
    emitted_element_choice_rule, emitted_expression_rule, emitted_index_address_rule,
    emitted_index_rule, emitted_negation_rule, emitted_operation_rule,
    emitted_range_address_rule, emitted_referenced_constant_index_rule,
    emitted_referenced_index_rule, emitted_slice_element_address_rule,
    emitted_slice_index_rule, emitted_unary_rule, emitted_with_width_rule,
};
use crate::codegen::typing_rules::logical;
use crate::codegen::emission::{
    Emission, branch_place, call_register, constant_register, failed, landed, place, put,
    raised, released, slots_from, trapped, word_bytes,
};
use crate::codegen::instructions::{
    emitted_chosen_slots, emitted_cleanup_bytes, emitted_constant, emitted_element_address,
    emitted_identifier_address, emitted_parameter_slot, emitted_slice_length,
    emitted_slot_of, emitted_stack_slot,
};
use crate::codegen::encoding::mirrored;
use crate::codegen::frame::{
    Frame, constant_at, form_at, local_named, parameter_named, place_from,
};
use crate::codegen::runtime::{
    RuntimeArrayElementType, RuntimeExpressionType, element_bytes, fat_reference,
    product_of, width_of_integer,
};
use crate::codegen::selection::{
    IndexSource, element_at, known_index, offset_of_range, opcode_of_logical, pointee_under,
    register_of_truth, source_of_index, width_of_operation,
};
use crate::codegen::values::{
    emitted_address, emitted_array, emitted_array_constant_index, emitted_array_element,
    emitted_array_elements, emitted_array_index, emitted_boundary_answer, emitted_call,
    emitted_char_boundary, emitted_choice, emitted_conversion,
    emitted_counted_element_address, emitted_element_choice, emitted_expression,
    emitted_index, emitted_index_address, emitted_inline_const, emitted_literal,
    emitted_named_element, emitted_negation, emitted_operation,
    emitted_packed_local_element, emitted_range_address, emitted_referenced_constant_index,
    emitted_referenced_index, emitted_slice_element_address, emitted_slice_index,
    emitted_slice_query, emitted_unary, emitted_with_width,
};
use crate::codegen::error::CodegenErrorKind;
use crate::codegen::types::array_type;
use crate::codegen::typing::{
    call_constant, range_bounds, reference_source, typed, typed_operation,
};
use vstd::prelude::*;

verus! {

pub(crate) proof fn emitted_conversion_adds<R: ConstantResolver, const P: usize, const N: usize>(
    ground: Emission,
    f: Frame<R, P, N>,
    s: Emission,
    target: IntegerType,
)
    ensures
        goes_on(ground, s, emitted_conversion(f, s, target), -1),
{
    reveal(emitted_conversion);
    match width_of_integer(target) {
        None => {},
        Some(width) => {
            emitted_normal_width_adds(ground, f, s, width);
        },
    }
}

pub(crate) proof fn emitted_boundary_answer_adds<R: ConstantResolver, const P: usize, const N: usize>(
    ground: Emission,
    f: Frame<R, P, N>,
    s: Emission,
)
    ensures
        goes_on(ground, s, emitted_boundary_answer(f, s), -1),
{
    reveal(branch_place);
    reveal(place);
    reveal(emitted_boundary_answer);
    put_adds(ground, f, s, [0x48u8, 0x3b, 0x04, 0x24]@);
    let s = put(f, s, [0x48u8, 0x3b, 0x04, 0x24]@);
    let out_of_bounds = branch_place(s, 2);
    put_adds(ground, f, s, [0x0fu8, 0x87, 0, 0, 0, 0]@);
    let s = put(f, s, [0x0fu8, 0x87, 0, 0, 0, 0]@);
    let at_end = branch_place(s, 2);
    put_adds(ground, f, s, [0x0fu8, 0x84, 0, 0, 0, 0]@);
    let s = put(f, s, [0x0fu8, 0x84, 0, 0, 0, 0]@);
    put_adds(ground, f, s, [0x48u8, 0x85, 0xc0]@);
    let s = put(f, s, [0x48u8, 0x85, 0xc0]@);
    let at_start = branch_place(s, 2);
    put_adds(ground, f, s, [0x0fu8, 0x84, 0, 0, 0, 0]@);
    let s = put(f, s, [0x0fu8, 0x84, 0, 0, 0, 0]@);
    put_adds(ground, f, s, [0x48u8, 0x89, 0xc1, 0x48, 0x8b, 0x44, 0x24, 0x08]@);
    let s = put(f, s, [0x48u8, 0x89, 0xc1, 0x48, 0x8b, 0x44, 0x24, 0x08]@);
    put_adds(ground, f, s, [0x0fu8, 0xb6, 0x04, 0x08, 0x25, 0xc0, 0x00, 0x00, 0x00]@);
    let s = put(f, s, [0x0fu8, 0xb6, 0x04, 0x08, 0x25, 0xc0, 0x00, 0x00, 0x00]@);
    put_adds(ground, f, s, [0x3du8, 0x80, 0x00, 0x00, 0x00, 0x0f, 0x95, 0xc0, 0x0f, 0xb6, 0xc0]@);
    let s = put(f, s, [0x3du8, 0x80, 0x00, 0x00, 0x00, 0x0f, 0x95, 0xc0, 0x0f, 0xb6, 0xc0]@);
    let value_end = branch_place(s, 1);
    put_adds(ground, f, s, [0xe9u8, 0, 0, 0, 0]@);
    let s = put(f, s, [0xe9u8, 0, 0, 0, 0]@);
    landed_adds(ground, f, s, at_end);
    let s = landed(f, s, at_end);
    landed_adds(ground, f, s, at_start);
    let s = landed(f, s, at_start);
    put_adds(ground, f, s, [0xb8u8, 0x01, 0x00, 0x00, 0x00]@);
    let s = put(f, s, [0xb8u8, 0x01, 0x00, 0x00, 0x00]@);
    let true_end = branch_place(s, 1);
    put_adds(ground, f, s, [0xe9u8, 0, 0, 0, 0]@);
    let s = put(f, s, [0xe9u8, 0, 0, 0, 0]@);
    landed_adds(ground, f, s, out_of_bounds);
    let s = landed(f, s, out_of_bounds);
    put_adds(ground, f, s, [0x31u8, 0xc0]@);
    let s = put(f, s, [0x31u8, 0xc0]@);
    landed_adds(ground, f, s, value_end);
    let s = landed(f, s, value_end);
    landed_adds(ground, f, s, true_end);
    let s = landed(f, s, true_end);
    emitted_cleanup_bytes_adds(ground, f, s, 16);
    let s = emitted_cleanup_bytes(f, s, 16);
    released_adds(ground, f, s, 2);
}

pub(crate) proof fn emitted_literal_adds<R: ConstantResolver, const P: usize, const N: usize>(
    ground: Emission,
    f: Frame<R, P, N>,
    s: Emission,
    value: u128,
)
    ensures
        goes_on(ground, s, emitted_literal(f, s, value), -1),
{
    reveal(emitted_literal);
    let width = s.width;
    if value > width.maximum as u128 {
    } else {
        emitted_constant_adds(ground, f, s, value as u64);
    }
}

pub(crate) proof fn emitted_call_adds<R: ConstantResolver, const P: usize, const N: usize>(
    ground: Emission,
    f: Frame<R, P, N>,
    s: Emission,
    tree: Tree,
    callee: Seq<char>,
    arguments: Seq<Option<ExprId>>,
    argument_count: usize,
)
    ensures
        goes_on(ground, s, emitted_call(f, s, tree, callee, arguments, argument_count), -1),
{
    reveal(emitted_call);
    let width = s.width;
    match call_constant(tree, callee, arguments, argument_count, f.resolver) {
        Err(kind) => {},
        Ok(value) => {
            match call_register(value, f.resolver.call_type(callee, argument_count), width) {
                Err(kind) => {},
                Ok(value) => {
                    emitted_constant_adds(ground, f, s, value);
                },
            }
        },
    }
}

pub(crate) proof fn emitted_inline_const_adds<R: ConstantResolver, const P: usize, const N: usize>(
    ground: Emission,
    f: Frame<R, P, N>,
    s: Emission,
    tree: Tree,
    operand: ExprId,
    depth: int,
)
    ensures
        goes_on(ground, s, emitted_inline_const(f, s, tree, operand, depth), -1),
{
    reveal(emitted_inline_const);
    let width = s.width;
    match typed(f, s.locals, tree, operand, depth + 1) {
        Err(kind) => {},
        Ok(ty) => {
            match constant_at(tree, operand, f.resolver) {
                Err(error) => {},
                Ok(value) => {
                    if ty == RuntimeExpressionType::Unit || ty == RuntimeExpressionType::Default {
                        put_adds(ground, f, s, [0x31u8, 0xc0]@);
                    } else {
                        match constant_register(Ok(value), ty, width) {
                            Err(kind) => {},
                            Ok(value) => {
                                emitted_constant_adds(ground, f, s, value);
                            },
                        }
                    }
                },
            }
        },
    }
}

pub(crate) proof fn emitted_slice_query_adds<R: ConstantResolver, const P: usize, const N: usize>(
    ground: Emission,
    f: Frame<R, P, N>,
    s: Emission,
    tree: Tree,
    base: ExprId,
    depth: int,
)
    ensures
        goes_on(ground, s, emitted_slice_query(f, s, tree, base, depth), -1),
{
    reveal(emitted_slice_query);
    match typed(f, s.locals, tree, base, depth + 1) {
        Err(kind) => {},
        Ok(ty) => {
            if fat_reference(ty) {
                match reference_source(tree, base) {
                    None => {},
                    Some(source) => {
                        emitted_slice_length_adds(ground, f, s, source);
                    },
                }
            }
        },
    }
}

pub(crate) proof fn emitted_packed_local_element_adds<R: ConstantResolver, const P: usize, const N: usize>(
    ground: Emission,
    f: Frame<R, P, N>,
    s: Emission,
    later: Option<usize>,
    element: RuntimeArrayElementType,
    bytes: usize,
    index: usize,
)
    ensures
        goes_on(ground, s, emitted_packed_local_element(f, s, later, element, bytes, index), -1),
{
    reveal(emitted_packed_local_element);
    emitted_slot_of_adds(ground, f, s, 0x8d, later, 0, CodegenErrorKind::OutputTooSmall);
    let s = emitted_slot_of(f, s, 0x8d, later, 0, CodegenErrorKind::OutputTooSmall);
    match product_of(index, bytes) {
        None => {},
        Some(offset) => {
            if offset != 0 {
                put_adds(ground, f, s, [0x48u8, 0x83, 0xc0, offset as u8]@);
            }
            let s = if offset != 0 {
                put(f, s, [0x48u8, 0x83, 0xc0, offset as u8]@)
            } else {
                s
            };
            emitted_reference_load_adds(ground, f, s, element);
        },
    }
}

pub(crate) proof fn emitted_named_element_adds<R: ConstantResolver, const P: usize, const N: usize>(
    ground: Emission,
    f: Frame<R, P, N>,
    s: Emission,
    name: Seq<char>,
    index: usize,
)
    ensures
        goes_on(ground, s, emitted_named_element(f, s, name, index), -1),
{
    reveal(emitted_named_element);
    match local_named(s.locals, name) {
        Some(local) => {
            match s.locals[local as int].ty {
                RuntimeExpressionType::Array { element, count } => {
                    if index >= count {
                    } else {
                        match element_bytes(element) {
                            None => {},
                            Some(bytes) => {
                                if bytes == 1 || bytes == 2 || bytes == 4 {
                                    emitted_packed_local_element_adds(
                                        ground,
                                        f,
                                        s,
                                        slots_from(s.locals, place_from(local, 1)),
                                        element,
                                        bytes,
                                        index,
                                    );
                                } else {
                                    emitted_slot_of_adds(
                                        ground,
                                        f,
                                        s,
                                        0x8b,
                                        slots_from(s.locals, place_from(local, 1)),
                                        index,
                                        CodegenErrorKind::OutputTooSmall,
                                    );
                                    let s = emitted_slot_of(
                                        f,
                                        s,
                                        0x8b,
                                        slots_from(s.locals, place_from(local, 1)),
                                        index,
                                        CodegenErrorKind::OutputTooSmall,
                                    );
                                    emitted_normal_element_adds(ground, f, s, element);
                                }
                            },
                        }
                    }
                },
                _ => {},
            }
        },
        None => {
            match parameter_named(f.function.parameters@, name) {
                None => {},
                Some(parameter) => {
                    match array_type(f.function.parameters@[parameter as int].ty.text@) {
                        Some(RuntimeExpressionType::Array { element, count }) => {
                            if index >= count {
                            } else {
                                emitted_parameter_slot_adds(
                                    ground,
                                    f,
                                    s,
                                    0x8b,
                                    place_from(parameter, 1),
                                    mirrored(count, index),
                                    CodegenErrorKind::OutputTooSmall,
                                );
                                let s = emitted_parameter_slot(
                                    f,
                                    s,
                                    0x8b,
                                    place_from(parameter, 1),
                                    mirrored(count, index),
                                    CodegenErrorKind::OutputTooSmall,
                                );
                                emitted_normal_element_adds(ground, f, s, element);
                            }
                        },
                        _ => {},
                    }
                },
            }
        },
    }
}

pub(crate) proof fn emitted_expression_adds<R: ConstantResolver, const P: usize, const N: usize>(
    ground: Emission,
    f: Frame<R, P, N>,
    s: Emission,
    tree: Tree,
    id: ExprId,
    depth: int,
    fuel: int,
)
    ensures
        goes_on(ground, s, emitted_expression(f, s, tree, id, depth, fuel), -1),
    decreases fuel, 30int, 0int,
{
    emitted_expression_rule(f, s, tree, id, depth, fuel);
    if fuel <= 0 {
    } else {
        if depth >= MAX_EXPRESSION_DEPTH {
        } else {
            match typed(f, s.locals, tree, id, depth) {
                Err(kind) => {},
                Ok(ty) => {
                    match typed_operation(f, s.locals, tree, id, ty, depth) {
                        Err(kind) => {},
                        Ok(operation) => {
                            let previous = s.width;
                            match width_of_operation(operation, previous) {
                                None => {},
                                Some(width) => {
                                    same_code_is_added(ground, s, Emission { width: width, ..s });
                                    let s = Emission { width: width, ..s };
                                    emitted_with_width_adds(ground, f, s, tree, id, depth, fuel);
                                    let s = emitted_with_width(f, s, tree, id, depth, fuel);
                                    same_code_is_added(
                                        ground,
                                        s,
                                        Emission { width: previous, ..s },
                                    );
                                },
                            }
                        },
                    }
                },
            }
        }
    }
}

pub(crate) proof fn emitted_with_width_adds<R: ConstantResolver, const P: usize, const N: usize>(
    ground: Emission,
    f: Frame<R, P, N>,
    s: Emission,
    tree: Tree,
    id: ExprId,
    depth: int,
    fuel: int,
)
    ensures
        goes_on(ground, s, emitted_with_width(f, s, tree, id, depth, fuel), -1),
    decreases fuel, 20int, 0int,
{
    emitted_with_width_rule(f, s, tree, id, depth, fuel);
    if fuel <= 0 {
    } else {
        if depth >= MAX_EXPRESSION_DEPTH {
        } else {
            match form_at(tree, id) {
                None => {},
                Some(kind) => {
                    match kind {
                        Form::Unit | Form::DefaultValue => {
                            put_adds(ground, f, s, [0x31u8, 0xc0]@);
                        },
                        Form::Array { .. } | Form::ArrayRepeat { .. } | Form::RangeIndex { .. } => {},
                        Form::Index { base, index } => {
                            emitted_index_adds(ground, f, s, tree, base, index, depth, fuel);
                        },
                        Form::SliceLen { base } => {
                            emitted_slice_query_adds(ground, f, s, tree, base, depth);
                        },
                        Form::SliceIsEmpty { base } => {
                            emitted_slice_query_adds(ground, f, s, tree, base, depth);
                            let s = emitted_slice_query(f, s, tree, base, depth);
                            put_adds(
                                ground,
                                f,
                                s,
                                [0x48u8, 0x85, 0xc0, 0x0f, 0x94, 0xc0, 0x0f, 0xb6, 0xc0]@,
                            );
                        },
                        Form::StrAsBytes { base } => {
                            emitted_expression_adds(ground, f, s, tree, base, depth + 1, fuel - 1);
                        },
                        Form::StrIsCharBoundary { base, index } => {
                            emitted_char_boundary_adds(
                                ground,
                                f,
                                s,
                                tree,
                                base,
                                index,
                                depth + 1,
                                fuel,
                            );
                        },
                        Form::ReferenceAsPointer { base, .. } => {
                            emitted_expression_adds(ground, f, s, tree, base, depth + 1, fuel - 1);
                        },
                        Form::Integer { value, suffix } => {
                            emitted_literal_adds(ground, f, s, value);
                        },
                        Form::Bool(value) => {
                            emitted_constant_adds(ground, f, s, register_of_truth(value));
                        },
                        Form::Char(value) => {
                            emitted_constant_adds(ground, f, s, value as u64);
                        },
                        Form::Identifier(name) => {
                            emitted_identifier_adds(ground, f, s, name);
                        },
                        Form::Call { callee, arguments, argument_count } => {
                            emitted_call_adds(
                                ground,
                                f,
                                s,
                                tree,
                                callee,
                                arguments,
                                argument_count,
                            );
                        },
                        Form::Cast { operand, target } => {
                            emitted_expression_adds(
                                ground,
                                f,
                                s,
                                tree,
                                operand,
                                depth + 1,
                                fuel - 1,
                            );
                            let s = emitted_expression(f, s, tree, operand, depth + 1, fuel - 1);
                            emitted_conversion_adds(ground, f, s, target);
                        },
                        Form::Ascribe { operand, target } => {
                            emitted_expression_adds(
                                ground,
                                f,
                                s,
                                tree,
                                operand,
                                depth + 1,
                                fuel - 1,
                            );
                            let s = emitted_expression(f, s, tree, operand, depth + 1, fuel - 1);
                            match target {
                                ScalarType::Integer(target) => {
                                    emitted_conversion_adds(ground, f, s, target);
                                },
                                ScalarType::Bool => {
                                    put_adds(
                                        ground,
                                        f,
                                        s,
                                        [0x48u8, 0x85, 0xc0, 0x0f, 0x95, 0xc0, 0x0f, 0xb6, 0xc0]@,
                                    );
                                },
                            }
                        },
                        Form::Unary { operator, operand } => {
                            emitted_unary_adds(ground, f, s, tree, operator, operand, depth, fuel);
                        },
                        Form::Binary { operator, left, right } => {
                            emitted_operation_adds(
                                ground,
                                f,
                                s,
                                tree,
                                operator,
                                left,
                                right,
                                depth,
                                fuel,
                            );
                        },
                        Form::If { condition, then_branch, else_branch } => {
                            emitted_choice_adds(
                                ground,
                                f,
                                s,
                                tree,
                                condition,
                                then_branch,
                                else_branch,
                                depth,
                                fuel,
                            );
                        },
                        Form::LoopBreakIf { condition, then_branch, else_branch } => {
                            emitted_choice_adds(
                                ground,
                                f,
                                s,
                                tree,
                                condition,
                                then_branch,
                                else_branch,
                                depth,
                                fuel,
                            );
                        },
                        Form::Return { operand } => {
                            emitted_expression_adds(
                                ground,
                                f,
                                s,
                                tree,
                                operand,
                                depth + 1,
                                fuel - 1,
                            );
                        },
                        Form::LoopBreak { operand } => {
                            emitted_expression_adds(
                                ground,
                                f,
                                s,
                                tree,
                                operand,
                                depth + 1,
                                fuel - 1,
                            );
                        },
                        Form::Sequence { first, then } => {
                            emitted_expression_adds(
                                ground,
                                f,
                                s,
                                tree,
                                first,
                                depth + 1,
                                fuel - 1,
                            );
                            let s = emitted_expression(f, s, tree, first, depth + 1, fuel - 1);
                            emitted_expression_adds(ground, f, s, tree, then, depth + 1, fuel - 1);
                        },
                        Form::InlineConst { operand } => {
                            emitted_inline_const_adds(ground, f, s, tree, operand, depth);
                        },
                    }
                },
            }
        }
    }
}

pub(crate) proof fn emitted_unary_adds<R: ConstantResolver, const P: usize, const N: usize>(
    ground: Emission,
    f: Frame<R, P, N>,
    s: Emission,
    tree: Tree,
    operator: UnaryOperator,
    operand: ExprId,
    depth: int,
    fuel: int,
)
    ensures
        goes_on(ground, s, emitted_unary(f, s, tree, operator, operand, depth, fuel), -1),
    decreases fuel, 15int, 0int,
{
    emitted_unary_rule(f, s, tree, operator, operand, depth, fuel);
    if fuel <= 0 {
    } else {
        match operator {
            UnaryOperator::Not => {
                match typed(f, s.locals, tree, operand, 0) {
                    Err(kind) => {},
                    Ok(ty) => {
                        emitted_expression_adds(ground, f, s, tree, operand, depth + 1, fuel - 1);
                        let s = emitted_expression(f, s, tree, operand, depth + 1, fuel - 1);
                        if ty == RuntimeExpressionType::Bool {
                            put_adds(
                                ground,
                                f,
                                s,
                                [0x48u8, 0x85, 0xc0, 0x0f, 0x94, 0xc0, 0x0f, 0xb6, 0xc0]@,
                            );
                        } else {
                            put_adds(ground, f, s, [0x48u8, 0xf7, 0xd0]@);
                            let s = put(f, s, [0x48u8, 0xf7, 0xd0]@);
                            emitted_normal_adds(ground, f, s);
                        }
                    },
                }
            },
            UnaryOperator::Negate => {
                emitted_negation_adds(ground, f, s, tree, operand, depth, fuel);
            },
            UnaryOperator::Dereference => {
                match typed(f, s.locals, tree, operand, 0) {
                    Err(kind) => {},
                    Ok(ty) => {
                        match pointee_under(ty) {
                            Err(kind) => {},
                            Ok(pointee) => {
                                emitted_expression_adds(
                                    ground,
                                    f,
                                    s,
                                    tree,
                                    operand,
                                    depth + 1,
                                    fuel - 1,
                                );
                                let s = emitted_expression(f, s, tree, operand, depth + 1, fuel - 1);
                                emitted_reference_load_adds(ground, f, s, pointee);
                            },
                        }
                    },
                }
            },
            UnaryOperator::AddressOf | UnaryOperator::AddressOfMut => {
                emitted_address_adds(ground, f, s, tree, operand, depth, fuel);
            },
        }
    }
}

pub(crate) proof fn emitted_negation_adds<R: ConstantResolver, const P: usize, const N: usize>(
    ground: Emission,
    f: Frame<R, P, N>,
    s: Emission,
    tree: Tree,
    operand: ExprId,
    depth: int,
    fuel: int,
)
    ensures
        goes_on(ground, s, emitted_negation(f, s, tree, operand, depth, fuel), -1),
    decreases fuel, 14int, 0int,
{
    emitted_negation_rule(f, s, tree, operand, depth, fuel);
    if fuel <= 0 {
    } else {
        let width = s.width;
        if !width.signed {
        } else {
            match form_at(tree, operand) {
                Some(Form::Integer { value, suffix }) => {
                    if value > width.maximum as u128 + 1 {
                    } else {
                        emitted_constant_adds(ground, f, s, value as u64);
                    }
                },
                _ => {
                    emitted_expression_adds(ground, f, s, tree, operand, depth + 1, fuel - 1);
                },
            }
            let s = match form_at(tree, operand) {
                Some(Form::Integer { value, suffix }) => {
                    if value > width.maximum as u128 + 1 {
                        failed(f, s, CodegenErrorKind::ValueOutOfRange)
                    } else {
                        emitted_constant(f, s, value as u64)
                    }
                },
                _ => {
                    emitted_expression(f, s, tree, operand, depth + 1, fuel - 1)
                },
            };
            emitted_negated_adds(ground, f, s, width);
        }
    }
}

pub(crate) proof fn emitted_address_adds<R: ConstantResolver, const P: usize, const N: usize>(
    ground: Emission,
    f: Frame<R, P, N>,
    s: Emission,
    tree: Tree,
    operand: ExprId,
    depth: int,
    fuel: int,
)
    ensures
        goes_on(ground, s, emitted_address(f, s, tree, operand, depth, fuel), -1),
    decreases fuel, 14int, 0int,
{
    emitted_address_rule(f, s, tree, operand, depth, fuel);
    if fuel <= 0 {
    } else {
        match form_at(tree, operand) {
            Some(Form::Identifier(name)) => {
                emitted_identifier_address_adds(ground, f, s, name);
            },
            Some(Form::Unary { operator: UnaryOperator::Dereference, operand: reference }) => {
                emitted_expression_adds(ground, f, s, tree, reference, depth + 1, fuel - 1);
            },
            Some(Form::RangeIndex { base, start, end, inclusive }) => {
                emitted_range_address_adds(
                    ground,
                    f,
                    s,
                    tree,
                    base,
                    start,
                    end,
                    inclusive,
                    depth,
                    fuel,
                );
            },
            Some(Form::Index { base, index }) => {
                emitted_index_address_adds(ground, f, s, tree, base, index, depth + 1, fuel);
            },
            _ => {},
        }
    }
}

pub(crate) proof fn emitted_range_address_adds<R: ConstantResolver, const P: usize, const N: usize>(
    ground: Emission,
    f: Frame<R, P, N>,
    s: Emission,
    tree: Tree,
    base: ExprId,
    start: Option<ExprId>,
    end: Option<ExprId>,
    inclusive: bool,
    depth: int,
    fuel: int,
)
    ensures
        goes_on(ground, s, emitted_range_address(f, s, tree, base, start, end, inclusive, depth, fuel), -1),
    decreases fuel, 13int, 0int,
{
    emitted_range_address_rule(f, s, tree, base, start, end, inclusive, depth, fuel);
    if fuel <= 0 {
    } else {
        match typed(f, s.locals, tree, base, depth + 1) {
            Err(kind) => {},
            Ok(ty) => {
                match source_of_index(ty) {
                    IndexSource::Referenced { element, count } => {
                        match range_bounds(tree, start, end, inclusive, count, f.resolver) {
                            Err(kind) => {},
                            Ok((first, _)) => {
                                emitted_expression_adds(
                                    ground,
                                    f,
                                    s,
                                    tree,
                                    base,
                                    depth + 1,
                                    fuel - 1,
                                );
                                let s = emitted_expression(f, s, tree, base, depth + 1, fuel - 1);
                                match offset_of_range(first, element) {
                                    Err(kind) => {},
                                    Ok(offset) => {
                                        if offset != 0 {
                                            put_adds(ground, f, s, [0x48u8, 0x05]@);
                                            let s = put(f, s, [0x48u8, 0x05]@);
                                            put_adds(ground, f, s, word_bytes(offset as int));
                                        }
                                    },
                                }
                            },
                        }
                    },
                    _ => {},
                }
            },
        }
    }
}

pub(crate) proof fn emitted_operation_adds<R: ConstantResolver, const P: usize, const N: usize>(
    ground: Emission,
    f: Frame<R, P, N>,
    s: Emission,
    tree: Tree,
    operator: BinaryOperator,
    left: ExprId,
    right: ExprId,
    depth: int,
    fuel: int,
)
    ensures
        goes_on(ground, s, emitted_operation(f, s, tree, operator, left, right, depth, fuel), -1),
    decreases fuel, 15int, 0int,
{
    reveal(branch_place);
    reveal(place);
    emitted_operation_rule(f, s, tree, operator, left, right, depth, fuel);
    if fuel <= 0 {
    } else {
        emitted_expression_adds(ground, f, s, tree, left, depth + 1, fuel - 1);
        let s = emitted_expression(f, s, tree, left, depth + 1, fuel - 1);
        if logical(operator) {
            put_adds(ground, f, s, [0x48u8, 0x85, 0xc0]@);
            let s = put(f, s, [0x48u8, 0x85, 0xc0]@);
            let end = branch_place(s, 2);
            put_adds(ground, f, s, [0x0fu8, opcode_of_logical(operator), 0, 0, 0, 0]@);
            let s = put(f, s, [0x0fu8, opcode_of_logical(operator), 0, 0, 0, 0]@);
            emitted_expression_adds(ground, f, s, tree, right, depth + 1, fuel - 1);
            let s = emitted_expression(f, s, tree, right, depth + 1, fuel - 1);
            landed_adds(ground, f, s, end);
        } else {
            put_adds(ground, f, s, [0x50u8]@);
            let s = put(f, s, [0x50u8]@);
            raised_adds(ground, f, s, 1);
            let s = raised(f, s, 1);
            emitted_expression_adds(ground, f, s, tree, right, depth + 1, fuel - 1);
            let s = emitted_expression(f, s, tree, right, depth + 1, fuel - 1);
            released_adds(ground, f, s, 1);
            let s = released(f, s, 1);
            put_adds(ground, f, s, [0x59u8]@);
            let s = put(f, s, [0x59u8]@);
            emitted_binary_adds(ground, f, s, operator);
        }
    }
}

pub(crate) proof fn emitted_choice_adds<R: ConstantResolver, const P: usize, const N: usize>(
    ground: Emission,
    f: Frame<R, P, N>,
    s: Emission,
    tree: Tree,
    condition: ExprId,
    then_branch: ExprId,
    else_branch: ExprId,
    depth: int,
    fuel: int,
)
    ensures
        goes_on(ground, s, emitted_choice(f, s, tree, condition, then_branch, else_branch, depth, fuel), -1),
    decreases fuel, 15int, 0int,
{
    reveal(branch_place);
    reveal(place);
    emitted_choice_rule(f, s, tree, condition, then_branch, else_branch, depth, fuel);
    if fuel <= 0 {
    } else {
        emitted_expression_adds(ground, f, s, tree, condition, depth + 1, fuel - 1);
        let s = emitted_expression(f, s, tree, condition, depth + 1, fuel - 1);
        put_adds(ground, f, s, [0x48u8, 0x85, 0xc0]@);
        let s = put(f, s, [0x48u8, 0x85, 0xc0]@);
        let otherwise = branch_place(s, 2);
        put_adds(ground, f, s, [0x0fu8, 0x84, 0, 0, 0, 0]@);
        let s = put(f, s, [0x0fu8, 0x84, 0, 0, 0, 0]@);
        emitted_expression_adds(ground, f, s, tree, then_branch, depth + 1, fuel - 1);
        let s = emitted_expression(f, s, tree, then_branch, depth + 1, fuel - 1);
        let end = branch_place(s, 1);
        put_adds(ground, f, s, [0xe9u8, 0, 0, 0, 0]@);
        let s = put(f, s, [0xe9u8, 0, 0, 0, 0]@);
        landed_adds(ground, f, s, otherwise);
        let s = landed(f, s, otherwise);
        emitted_expression_adds(ground, f, s, tree, else_branch, depth + 1, fuel - 1);
        let s = emitted_expression(f, s, tree, else_branch, depth + 1, fuel - 1);
        landed_adds(ground, f, s, end);
    }
}

pub(crate) proof fn emitted_index_adds<R: ConstantResolver, const P: usize, const N: usize>(
    ground: Emission,
    f: Frame<R, P, N>,
    s: Emission,
    tree: Tree,
    base: ExprId,
    index: ExprId,
    depth: int,
    fuel: int,
)
    ensures
        goes_on(ground, s, emitted_index(f, s, tree, base, index, depth, fuel), -1),
    decreases fuel, 15int, 0int,
{
    emitted_index_rule(f, s, tree, base, index, depth, fuel);
    if fuel <= 0 {
    } else {
        match typed(f, s.locals, tree, base, depth + 1) {
            Err(kind) => {},
            Ok(ty) => {
                match source_of_index(ty) {
                    IndexSource::Slice { element } => {
                        match reference_source(tree, base) {
                            None => {},
                            Some(source) => {
                                emitted_slice_index_adds(
                                    ground,
                                    f,
                                    s,
                                    tree,
                                    base,
                                    index,
                                    element,
                                    source,
                                    depth + 1,
                                    fuel,
                                );
                            },
                        }
                    },
                    IndexSource::Referenced { element, count } => {
                        match known_index(tree, index, count, f.resolver) {
                            Err(kind) => {},
                            Ok(Some(place)) => {
                                emitted_referenced_constant_index_adds(
                                    ground,
                                    f,
                                    s,
                                    tree,
                                    base,
                                    element,
                                    place,
                                    depth + 1,
                                    fuel,
                                );
                            },
                            Ok(None) => {
                                emitted_referenced_index_adds(
                                    ground,
                                    f,
                                    s,
                                    tree,
                                    base,
                                    index,
                                    element,
                                    count,
                                    depth + 1,
                                    fuel,
                                );
                            },
                        }
                    },
                    IndexSource::Array { count, .. } => {
                        match known_index(tree, index, count, f.resolver) {
                            Err(kind) => {},
                            Ok(Some(place)) => {
                                emitted_array_constant_index_adds(
                                    ground,
                                    f,
                                    s,
                                    tree,
                                    base,
                                    place,
                                    count,
                                    fuel,
                                );
                            },
                            Ok(None) => {
                                emitted_array_index_adds(
                                    ground,
                                    f,
                                    s,
                                    tree,
                                    base,
                                    index,
                                    count,
                                    depth + 1,
                                    fuel,
                                );
                            },
                        }
                    },
                    _ => {},
                }
            },
        }
    }
}

pub(crate) proof fn emitted_slice_index_adds<R: ConstantResolver, const P: usize, const N: usize>(
    ground: Emission,
    f: Frame<R, P, N>,
    s: Emission,
    tree: Tree,
    base: ExprId,
    index: ExprId,
    element: RuntimeArrayElementType,
    source: Seq<char>,
    depth: int,
    fuel: int,
)
    ensures
        goes_on(ground, s, emitted_slice_index(f, s, tree, base, index, element, source, depth, fuel), -1),
    decreases fuel, 10int, 0int,
{
    reveal(branch_place);
    reveal(place);
    emitted_slice_index_rule(f, s, tree, base, index, element, source, depth, fuel);
    if fuel <= 0 {
    } else {
        emitted_expression_adds(ground, f, s, tree, base, depth + 1, fuel - 1);
        let s = emitted_expression(f, s, tree, base, depth + 1, fuel - 1);
        put_adds(ground, f, s, [0x50u8]@);
        let s = put(f, s, [0x50u8]@);
        raised_adds(ground, f, s, 1);
        let s = raised(f, s, 1);
        emitted_slice_length_adds(ground, f, s, source);
        let s = emitted_slice_length(f, s, source);
        put_adds(ground, f, s, [0x50u8]@);
        let s = put(f, s, [0x50u8]@);
        raised_adds(ground, f, s, 1);
        let s = raised(f, s, 1);
        emitted_expression_adds(ground, f, s, tree, index, depth + 1, fuel - 1);
        let s = emitted_expression(f, s, tree, index, depth + 1, fuel - 1);
        put_adds(ground, f, s, [0x48u8, 0x3b, 0x04, 0x24]@);
        let s = put(f, s, [0x48u8, 0x3b, 0x04, 0x24]@);
        let in_bounds = branch_place(s, 2);
        put_adds(ground, f, s, [0x0fu8, 0x82, 0, 0, 0, 0]@);
        let s = put(f, s, [0x0fu8, 0x82, 0, 0, 0, 0]@);
        put_adds(ground, f, s, [0x0fu8, 0x0b]@);
        let s = put(f, s, [0x0fu8, 0x0b]@);
        landed_adds(ground, f, s, in_bounds);
        let s = landed(f, s, in_bounds);
        match element_bytes(element) {
            None => {},
            Some(bytes) => {
                if bytes == 0 {
                    put_adds(ground, f, s, [0x48u8, 0x83, 0xc4, 16, 0x31, 0xc0]@);
                    let s = put(f, s, [0x48u8, 0x83, 0xc4, 16, 0x31, 0xc0]@);
                    released_adds(ground, f, s, 2);
                } else {
                    put_adds(ground, f, s, [0x48u8, 0x89, 0xc1, 0x48, 0x8b, 0x44, 0x24, 0x08]@);
                    let s = put(f, s, [0x48u8, 0x89, 0xc1, 0x48, 0x8b, 0x44, 0x24, 0x08]@);
                    put_adds(ground, f, s, [0x48u8, 0x83, 0xc4, 16]@);
                    let s = put(f, s, [0x48u8, 0x83, 0xc4, 16]@);
                    released_adds(ground, f, s, 2);
                    let s = released(f, s, 2);
                    emitted_element_address_adds(ground, f, s, bytes);
                    let s = emitted_element_address(f, s, bytes);
                    emitted_reference_load_adds(ground, f, s, element);
                }
            },
        }
    }
}

pub(crate) proof fn emitted_referenced_index_adds<R: ConstantResolver, const P: usize, const N: usize>(
    ground: Emission,
    f: Frame<R, P, N>,
    s: Emission,
    tree: Tree,
    base: ExprId,
    index: ExprId,
    element: RuntimeArrayElementType,
    count: usize,
    depth: int,
    fuel: int,
)
    ensures
        goes_on(ground, s, emitted_referenced_index(f, s, tree, base, index, element, count, depth, fuel), -1),
    decreases fuel, 10int, 0int,
{
    reveal(branch_place);
    reveal(place);
    emitted_referenced_index_rule(f, s, tree, base, index, element, count, depth, fuel);
    if fuel <= 0 {
    } else {
        emitted_expression_adds(ground, f, s, tree, base, depth + 1, fuel - 1);
        let s = emitted_expression(f, s, tree, base, depth + 1, fuel - 1);
        put_adds(ground, f, s, [0x50u8]@);
        let s = put(f, s, [0x50u8]@);
        raised_adds(ground, f, s, 1);
        let s = raised(f, s, 1);
        emitted_expression_adds(ground, f, s, tree, index, depth + 1, fuel - 1);
        let s = emitted_expression(f, s, tree, index, depth + 1, fuel - 1);
        put_adds(ground, f, s, [0x48u8, 0x83, 0xf8, count as u8]@);
        let s = put(f, s, [0x48u8, 0x83, 0xf8, count as u8]@);
        let in_bounds = branch_place(s, 2);
        put_adds(ground, f, s, [0x0fu8, 0x82, 0, 0, 0, 0]@);
        let s = put(f, s, [0x0fu8, 0x82, 0, 0, 0, 0]@);
        put_adds(ground, f, s, [0x0fu8, 0x0b]@);
        let s = put(f, s, [0x0fu8, 0x0b]@);
        landed_adds(ground, f, s, in_bounds);
        let s = landed(f, s, in_bounds);
        match element_bytes(element) {
            None => {},
            Some(bytes) => {
                if bytes == 0 {
                    put_adds(ground, f, s, [0x48u8, 0x83, 0xc4, 0x08, 0x31, 0xc0]@);
                    let s = put(f, s, [0x48u8, 0x83, 0xc4, 0x08, 0x31, 0xc0]@);
                    released_adds(ground, f, s, 1);
                } else {
                    put_adds(ground, f, s, [0x48u8, 0x89, 0xc1, 0x58]@);
                    let s = put(f, s, [0x48u8, 0x89, 0xc1, 0x58]@);
                    released_adds(ground, f, s, 1);
                    let s = released(f, s, 1);
                    emitted_element_address_adds(ground, f, s, bytes);
                    let s = emitted_element_address(f, s, bytes);
                    emitted_reference_load_adds(ground, f, s, element);
                }
            },
        }
    }
}

pub(crate) proof fn emitted_referenced_constant_index_adds<R: ConstantResolver, const P: usize, const N: usize>(
    ground: Emission,
    f: Frame<R, P, N>,
    s: Emission,
    tree: Tree,
    base: ExprId,
    element: RuntimeArrayElementType,
    index: usize,
    depth: int,
    fuel: int,
)
    ensures
        goes_on(ground, s, emitted_referenced_constant_index(f, s, tree, base, element, index, depth, fuel), -1),
    decreases fuel, 10int, 0int,
{
    emitted_referenced_constant_index_rule(f, s, tree, base, element, index, depth, fuel);
    if fuel <= 0 {
    } else {
        emitted_expression_adds(ground, f, s, tree, base, depth + 1, fuel - 1);
        let s = emitted_expression(f, s, tree, base, depth + 1, fuel - 1);
        match element_bytes(element) {
            None => {},
            Some(bytes) => {
                match product_of(bytes, index) {
                    None => {},
                    Some(displacement) => {
                        if displacement == 0 {
                        } else {
                            if displacement <= 127 {
                                put_adds(ground, f, s, [0x48u8, 0x83, 0xc0, displacement as u8]@);
                            } else {
                                if displacement <= 0xffff_ffff {
                                    put_adds(ground, f, s, [0x48u8, 0x05]@);
                                    let s = put(f, s, [0x48u8, 0x05]@);
                                    put_adds(ground, f, s, word_bytes(displacement as int));
                                }
                            }
                        }
                        let s = if displacement == 0 {
                            s
                        } else if displacement <= 127 {
                            put(f, s, [0x48u8, 0x83, 0xc0, displacement as u8]@)
                        } else if displacement <= 0xffff_ffff {
                            let s = put(f, s, [0x48u8, 0x05]@);
                            put(f, s, word_bytes(displacement as int))
                        } else {
                            failed(f, s, CodegenErrorKind::OutputTooSmall)
                        };
                        if bytes == 0 {
                            put_adds(ground, f, s, [0x31u8, 0xc0]@);
                        } else {
                            emitted_reference_load_adds(ground, f, s, element);
                        }
                    },
                }
            },
        }
    }
}

pub(crate) proof fn emitted_array_constant_index_adds<R: ConstantResolver, const P: usize, const N: usize>(
    ground: Emission,
    f: Frame<R, P, N>,
    s: Emission,
    tree: Tree,
    base: ExprId,
    index: usize,
    count: usize,
    fuel: int,
)
    ensures
        goes_on(ground, s, emitted_array_constant_index(f, s, tree, base, index, count, fuel), -1),
    decreases fuel, 10int, 0int,
{
    emitted_array_constant_index_rule(f, s, tree, base, index, count, fuel);
    if fuel <= 0 {
    } else {
        if count > MAX_ARRAY_ELEMENTS || index >= count {
        } else {
            emitted_array_adds(ground, f, s, tree, base, count, fuel - 1);
            let s = emitted_array(f, s, tree, base, count, fuel - 1);
            emitted_stack_slot_adds(ground, f, s, index);
            let s = emitted_stack_slot(f, s, index);
            released_adds(ground, f, s, count);
            let s = released(f, s, count);
            emitted_slots_cleanup_adds(ground, f, s, count);
        }
    }
}

pub(crate) proof fn emitted_array_index_adds<R: ConstantResolver, const P: usize, const N: usize>(
    ground: Emission,
    f: Frame<R, P, N>,
    s: Emission,
    tree: Tree,
    base: ExprId,
    index: ExprId,
    count: usize,
    depth: int,
    fuel: int,
)
    ensures
        goes_on(ground, s, emitted_array_index(f, s, tree, base, index, count, depth, fuel), -1),
    decreases fuel, 10int, 0int,
{
    emitted_array_index_rule(f, s, tree, base, index, count, depth, fuel);
    if fuel <= 0 {
    } else {
        if count > MAX_ARRAY_ELEMENTS {
        } else {
            emitted_array_adds(ground, f, s, tree, base, count, fuel - 1);
            let s = emitted_array(f, s, tree, base, count, fuel - 1);
            emitted_expression_adds(ground, f, s, tree, index, depth + 1, fuel - 1);
            let s = emitted_expression(f, s, tree, index, depth + 1, fuel - 1);
            put_adds(ground, f, s, [0x50u8]@);
            let s = put(f, s, [0x50u8]@);
            raised_adds(ground, f, s, 1);
            let s = raised(f, s, 1);
            emitted_chosen_slots_adds(ground, f, s, 0, 1, count, 0);
            let s = emitted_chosen_slots(f, s, 0, 1, count, 0);
            released_adds(ground, f, s, place_from(count, 1));
            let s = released(f, s, place_from(count, 1));
            emitted_slots_cleanup_adds(ground, f, s, place_from(count, 1));
        }
    }
}

pub(crate) proof fn emitted_index_address_adds<R: ConstantResolver, const P: usize, const N: usize>(
    ground: Emission,
    f: Frame<R, P, N>,
    s: Emission,
    tree: Tree,
    base: ExprId,
    index: ExprId,
    depth: int,
    fuel: int,
)
    ensures
        goes_on(ground, s, emitted_index_address(f, s, tree, base, index, depth, fuel), -1),
    decreases fuel, 13int, 0int,
{
    emitted_index_address_rule(f, s, tree, base, index, depth, fuel);
    if fuel <= 0 {
    } else {
        match typed(f, s.locals, tree, base, depth + 1) {
            Err(kind) => {},
            Ok(ty) => {
                match source_of_index(ty) {
                    IndexSource::Referenced { element, count } => {
                        emitted_expression_adds(ground, f, s, tree, base, depth + 1, fuel - 1);
                        let s = emitted_expression(f, s, tree, base, depth + 1, fuel - 1);
                        emitted_counted_element_address_adds(
                            ground,
                            f,
                            s,
                            tree,
                            index,
                            element,
                            count,
                            depth,
                            fuel,
                        );
                    },
                    IndexSource::Slice { element } => {
                        match reference_source(tree, base) {
                            None => {},
                            Some(source) => {
                                emitted_expression_adds(
                                    ground,
                                    f,
                                    s,
                                    tree,
                                    base,
                                    depth + 1,
                                    fuel - 1,
                                );
                                let s = emitted_expression(f, s, tree, base, depth + 1, fuel - 1);
                                emitted_slice_element_address_adds(
                                    ground,
                                    f,
                                    s,
                                    tree,
                                    index,
                                    element,
                                    source,
                                    depth,
                                    fuel,
                                );
                            },
                        }
                    },
                    IndexSource::Array { element, count } => {
                        match form_at(tree, base) {
                            Some(Form::Identifier(name)) => {
                                emitted_identifier_address_adds(ground, f, s, name);
                                let s = emitted_identifier_address(f, s, name);
                                emitted_counted_element_address_adds(
                                    ground,
                                    f,
                                    s,
                                    tree,
                                    index,
                                    element,
                                    count,
                                    depth,
                                    fuel,
                                );
                            },
                            _ => {},
                        }
                    },
                    _ => {},
                }
            },
        }
    }
}

pub(crate) proof fn emitted_counted_element_address_adds<R: ConstantResolver, const P: usize, const N: usize>(
    ground: Emission,
    f: Frame<R, P, N>,
    s: Emission,
    tree: Tree,
    index: ExprId,
    element: RuntimeArrayElementType,
    count: usize,
    depth: int,
    fuel: int,
)
    ensures
        goes_on(ground, s, emitted_counted_element_address(f, s, tree, index, element, count, depth, fuel), -1),
    decreases fuel, 10int, 0int,
{
    emitted_counted_element_address_rule(f, s, tree, index, element, count, depth, fuel);
    if fuel <= 0 {
    } else {
        put_adds(ground, f, s, [0x50u8]@);
        let s = put(f, s, [0x50u8]@);
        raised_adds(ground, f, s, 1);
        let s = raised(f, s, 1);
        emitted_expression_adds(ground, f, s, tree, index, depth + 1, fuel - 1);
        let s = emitted_expression(f, s, tree, index, depth + 1, fuel - 1);
        put_adds(ground, f, s, [0x48u8, 0x83, 0xf8]@);
        let s = put(f, s, [0x48u8, 0x83, 0xf8]@);
        if count <= 255 {
            put_adds(ground, f, s, [count as u8]@);
        }
        let s = if count <= 255 {
            put(f, s, [count as u8]@)
        } else {
            failed(f, s, CodegenErrorKind::ValueOutOfRange)
        };
        trapped_adds(ground, f, s, 0x83);
        let s = trapped(f, s, 0x83);
        put_adds(ground, f, s, [0x48u8, 0x89, 0xc1, 0x58]@);
        let s = put(f, s, [0x48u8, 0x89, 0xc1, 0x58]@);
        released_adds(ground, f, s, 1);
        let s = released(f, s, 1);
        match element_bytes(element) {
            None => {},
            Some(bytes) => {
                emitted_element_address_adds(ground, f, s, bytes);
            },
        }
    }
}

pub(crate) proof fn emitted_slice_element_address_adds<R: ConstantResolver, const P: usize, const N: usize>(
    ground: Emission,
    f: Frame<R, P, N>,
    s: Emission,
    tree: Tree,
    index: ExprId,
    element: RuntimeArrayElementType,
    source: Seq<char>,
    depth: int,
    fuel: int,
)
    ensures
        goes_on(ground, s, emitted_slice_element_address(f, s, tree, index, element, source, depth, fuel), -1),
    decreases fuel, 10int, 0int,
{
    emitted_slice_element_address_rule(f, s, tree, index, element, source, depth, fuel);
    if fuel <= 0 {
    } else {
        put_adds(ground, f, s, [0x50u8]@);
        let s = put(f, s, [0x50u8]@);
        raised_adds(ground, f, s, 1);
        let s = raised(f, s, 1);
        emitted_slice_length_adds(ground, f, s, source);
        let s = emitted_slice_length(f, s, source);
        put_adds(ground, f, s, [0x50u8]@);
        let s = put(f, s, [0x50u8]@);
        raised_adds(ground, f, s, 1);
        let s = raised(f, s, 1);
        emitted_expression_adds(ground, f, s, tree, index, depth + 1, fuel - 1);
        let s = emitted_expression(f, s, tree, index, depth + 1, fuel - 1);
        put_adds(ground, f, s, [0x48u8, 0x3b, 0x04, 0x24]@);
        let s = put(f, s, [0x48u8, 0x3b, 0x04, 0x24]@);
        trapped_adds(ground, f, s, 0x83);
        let s = trapped(f, s, 0x83);
        put_adds(ground, f, s, [0x48u8, 0x89, 0xc1, 0x48, 0x8b, 0x44, 0x24, 0x08]@);
        let s = put(f, s, [0x48u8, 0x89, 0xc1, 0x48, 0x8b, 0x44, 0x24, 0x08]@);
        emitted_cleanup_bytes_adds(ground, f, s, 16);
        let s = emitted_cleanup_bytes(f, s, 16);
        released_adds(ground, f, s, 2);
        let s = released(f, s, 2);
        match element_bytes(element) {
            None => {},
            Some(bytes) => {
                emitted_element_address_adds(ground, f, s, bytes);
            },
        }
    }
}

pub(crate) proof fn emitted_char_boundary_adds<R: ConstantResolver, const P: usize, const N: usize>(
    ground: Emission,
    f: Frame<R, P, N>,
    s: Emission,
    tree: Tree,
    base: ExprId,
    index: ExprId,
    depth: int,
    fuel: int,
)
    ensures
        goes_on(ground, s, emitted_char_boundary(f, s, tree, base, index, depth, fuel), -1),
    decreases fuel, 15int, 0int,
{
    emitted_char_boundary_rule(f, s, tree, base, index, depth, fuel);
    if fuel <= 0 {
    } else {
        match reference_source(tree, base) {
            None => {},
            Some(source) => {
                emitted_expression_adds(ground, f, s, tree, base, depth + 1, fuel - 1);
                let s = emitted_expression(f, s, tree, base, depth + 1, fuel - 1);
                put_adds(ground, f, s, [0x50u8]@);
                let s = put(f, s, [0x50u8]@);
                raised_adds(ground, f, s, 1);
                let s = raised(f, s, 1);
                emitted_slice_length_adds(ground, f, s, source);
                let s = emitted_slice_length(f, s, source);
                put_adds(ground, f, s, [0x50u8]@);
                let s = put(f, s, [0x50u8]@);
                raised_adds(ground, f, s, 1);
                let s = raised(f, s, 1);
                emitted_expression_adds(ground, f, s, tree, index, depth + 1, fuel - 1);
                let s = emitted_expression(f, s, tree, index, depth + 1, fuel - 1);
                emitted_boundary_answer_adds(ground, f, s);
            },
        }
    }
}

pub(crate) proof fn emitted_array_element_adds<R: ConstantResolver, const P: usize, const N: usize>(
    ground: Emission,
    f: Frame<R, P, N>,
    s: Emission,
    tree: Tree,
    id: ExprId,
    index: usize,
    depth: int,
    fuel: int,
)
    ensures
        goes_on(ground, s, emitted_array_element(f, s, tree, id, index, depth, fuel), -1),
    decreases fuel, 12int, 0int,
{
    emitted_array_element_rule(f, s, tree, id, index, depth, fuel);
    if fuel <= 0 {
    } else {
        if depth >= MAX_EXPRESSION_DEPTH {
        } else {
            match form_at(tree, id) {
                Some(Form::DefaultValue) => {
                    put_adds(ground, f, s, [0x31u8, 0xc0]@);
                },
                Some(Form::Array { elements, element_count }) => {
                    match element_at(elements, index, element_count) {
                        None => {},
                        Some(element) => {
                            emitted_expression_adds(
                                ground,
                                f,
                                s,
                                tree,
                                element,
                                depth + 1,
                                fuel - 1,
                            );
                        },
                    }
                },
                Some(Form::ArrayRepeat { element, count }) => {
                    if index >= count {
                    } else {
                        emitted_expression_adds(ground, f, s, tree, element, depth + 1, fuel - 1);
                    }
                },
                Some(Form::Identifier(name)) => {
                    emitted_named_element_adds(ground, f, s, name, index);
                },
                Some(Form::If { condition, then_branch, else_branch }) => {
                    emitted_element_choice_adds(
                        ground,
                        f,
                        s,
                        tree,
                        condition,
                        then_branch,
                        else_branch,
                        index,
                        depth,
                        fuel,
                    );
                },
                Some(Form::LoopBreakIf { condition, then_branch, else_branch }) => {
                    emitted_element_choice_adds(
                        ground,
                        f,
                        s,
                        tree,
                        condition,
                        then_branch,
                        else_branch,
                        index,
                        depth,
                        fuel,
                    );
                },
                Some(Form::InlineConst { operand }) => {
                    emitted_array_element_adds(
                        ground,
                        f,
                        s,
                        tree,
                        operand,
                        index,
                        depth + 1,
                        fuel - 1,
                    );
                },
                Some(Form::LoopBreak { operand }) => {
                    emitted_array_element_adds(
                        ground,
                        f,
                        s,
                        tree,
                        operand,
                        index,
                        depth + 1,
                        fuel - 1,
                    );
                },
                Some(Form::Return { operand }) => {
                    emitted_array_element_adds(
                        ground,
                        f,
                        s,
                        tree,
                        operand,
                        index,
                        depth + 1,
                        fuel - 1,
                    );
                },
                Some(Form::Sequence { first, then }) => {
                    emitted_expression_adds(ground, f, s, tree, first, depth + 1, fuel - 1);
                    let s = emitted_expression(f, s, tree, first, depth + 1, fuel - 1);
                    emitted_array_element_adds(
                        ground,
                        f,
                        s,
                        tree,
                        then,
                        index,
                        depth + 1,
                        fuel - 1,
                    );
                },
                _ => {},
            }
        }
    }
}

pub(crate) proof fn emitted_element_choice_adds<R: ConstantResolver, const P: usize, const N: usize>(
    ground: Emission,
    f: Frame<R, P, N>,
    s: Emission,
    tree: Tree,
    condition: ExprId,
    then_branch: ExprId,
    else_branch: ExprId,
    index: usize,
    depth: int,
    fuel: int,
)
    ensures
        goes_on(ground, s, emitted_element_choice(f, s, tree, condition, then_branch, else_branch, index, depth, fuel), -1),
    decreases fuel, 11int, 0int,
{
    reveal(branch_place);
    reveal(place);
    emitted_element_choice_rule(
        f,
        s,
        tree,
        condition,
        then_branch,
        else_branch,
        index,
        depth,
        fuel,
    );
    if fuel <= 0 {
    } else {
        emitted_expression_adds(ground, f, s, tree, condition, depth + 1, fuel - 1);
        let s = emitted_expression(f, s, tree, condition, depth + 1, fuel - 1);
        put_adds(ground, f, s, [0x48u8, 0x85, 0xc0]@);
        let s = put(f, s, [0x48u8, 0x85, 0xc0]@);
        let otherwise = branch_place(s, 2);
        put_adds(ground, f, s, [0x0fu8, 0x84, 0, 0, 0, 0]@);
        let s = put(f, s, [0x0fu8, 0x84, 0, 0, 0, 0]@);
        emitted_array_element_adds(ground, f, s, tree, then_branch, index, depth + 1, fuel - 1);
        let s = emitted_array_element(f, s, tree, then_branch, index, depth + 1, fuel - 1);
        let end = branch_place(s, 1);
        put_adds(ground, f, s, [0xe9u8, 0, 0, 0, 0]@);
        let s = put(f, s, [0xe9u8, 0, 0, 0, 0]@);
        landed_adds(ground, f, s, otherwise);
        let s = landed(f, s, otherwise);
        emitted_array_element_adds(ground, f, s, tree, else_branch, index, depth + 1, fuel - 1);
        let s = emitted_array_element(f, s, tree, else_branch, index, depth + 1, fuel - 1);
        landed_adds(ground, f, s, end);
    }
}

pub(crate) proof fn emitted_array_elements_adds<R: ConstantResolver, const P: usize, const N: usize>(
    ground: Emission,
    f: Frame<R, P, N>,
    s: Emission,
    tree: Tree,
    root: ExprId,
    count: usize,
    index: usize,
    fuel: int,
)
    ensures
        goes_on(ground, s, emitted_array_elements(f, s, tree, root, count, index, fuel), -1),
    decreases fuel, 13int, count - index,
{
    emitted_array_elements_rule(f, s, tree, root, count, index, fuel);
    if fuel <= 0 {
    } else {
        if index < count {
            emitted_array_element_adds(ground, f, s, tree, root, index, 0, fuel);
            let s = emitted_array_element(f, s, tree, root, index, 0, fuel);
            put_adds(ground, f, s, [0x50u8]@);
            let s = put(f, s, [0x50u8]@);
            raised_adds(ground, f, s, 1);
            let s = raised(f, s, 1);
            emitted_array_elements_adds(
                ground,
                f,
                s,
                tree,
                root,
                count,
                (index + 1) as usize,
                fuel,
            );
        }
    }
}

pub(crate) proof fn emitted_array_adds<R: ConstantResolver, const P: usize, const N: usize>(
    ground: Emission,
    f: Frame<R, P, N>,
    s: Emission,
    tree: Tree,
    root: ExprId,
    count: usize,
    fuel: int,
)
    ensures
        goes_on(ground, s, emitted_array(f, s, tree, root, count, fuel), -1),
    decreases fuel, 14int, 0int,
{
    emitted_array_rule(f, s, tree, root, count, fuel);
    if fuel <= 0 {
    } else {
        match form_at(tree, root) {
            None => {},
            Some(Form::ArrayRepeat { element, count: repeat }) => {
                if repeat != count {
                } else {
                    emitted_expression_adds(ground, f, s, tree, element, 0, fuel - 1);
                    let s = emitted_expression(f, s, tree, element, 0, fuel - 1);
                    if count != 0 {
                        put_adds(ground, f, s, [0x50u8]@);
                        let s = put(f, s, [0x50u8]@);
                        raised_adds(ground, f, s, 1);
                        let s = raised(f, s, 1);
                        emitted_copies_adds(ground, f, s, count, 1);
                    }
                }
            },
            Some(_) => {
                emitted_array_elements_adds(ground, f, s, tree, root, count, 0, fuel);
                let s = emitted_array_elements(f, s, tree, root, count, 0, fuel);
                emitted_swapped_adds(ground, f, s, count, count / 2, 0);
            },
        }
    }
}

} // verus!
