//! How code grows by the code of statements.
use crate::expression::{
    ConstantResolver, ExprId, Form, MAX_ARRAY_ELEMENTS, MAX_EXPRESSION_DEPTH, Tree,
};
use crate::function::{
    Assignment, AssignmentIndex, AssignmentOperator, BodyStatement, ConditionalAssignment,
    ConditionalAssignmentAction, ConditionalLoopAction, ConditionalLoopBlock,
    ConditionalLoopControl, ConditionalLoopElseArm, ConditionalLoopTerminal,
    ConditionalReturn, ConditionalReturnElse, ExpressionStatement, FunctionBody,
    LocalBinding, LoopOperation, LoopReturn, NestedLoopBlock, NestedLoopControlTarget,
    NestedLoopPlace, NestedLoopUnconditionalControl, PlacedConditionalControl,
    PlacedConditionalReturn, PlacedUnconditionalControl, WhileLoop,
};
use crate::integer::IntegerType;
use crate::codegen::standing::put_grows;
use crate::codegen::growth::{
    added, ended_inner_loop_adds, ended_loop_adds, goes_on, inner_loop_is_added, kept,
    landed_adds, left_inner_loop_adds, left_loop_adds, left_loop_on_zero_adds,
    loop_is_added, nothing_is_added, put_adds, raised_adds, released_adds, returned_to_adds,
    same_code_is_added, trapped_adds, truncated_adds, with_local_adds,
};
use crate::codegen::instruction_growth::{
    emitted_binary_adds, emitted_cleanup_bytes_adds, emitted_cleanup_to_adds,
    emitted_constant_adds, emitted_epilogue_adds, emitted_identifier_address_adds,
    emitted_identifier_adds, emitted_indexed_address_adds,
    emitted_indexed_store_address_adds, emitted_local_element_adds,
    emitted_local_element_store_adds, emitted_moved_slots_adds, emitted_packed_array_adds,
    emitted_packed_word_adds, emitted_reference_load_adds, emitted_reference_store_adds,
    emitted_result_elements_adds, emitted_scoped_cleanup_adds, emitted_slice_length_adds,
    emitted_slots_cleanup_adds, emitted_stack_slot_adds, emitted_store_stack_slot_adds,
    emitted_string_range_boundaries_adds,
};
use crate::codegen::value_growth::{
    emitted_array_adds, emitted_expression_adds,
};
use crate::codegen::trees::{
    LoopPlaces, Operand, condition_of, empty_text, ends_loop, number_of_controls,
    tree_and_type, type_of_local, type_of_target, value_of_type,
};
use crate::codegen::assignments::{
    ElementTarget, problem_of_dereference, problem_of_operator, slot_of_result,
    target_of_address, target_of_assignment, width_of_change,
};
use crate::codegen::emission::{
    Emission, branch_place, entered_inner_loop, entered_loop, failed, landed, left_loop,
    left_loop_on_zero, place, put, quad_bytes, raised, released, returned_to, slots_from,
    trapped, tree_size, truncated,
};
use crate::codegen::instructions::{
    emitted_cleanup_bytes, emitted_cleanup_to, emitted_constant, emitted_identifier,
    emitted_identifier_address, emitted_indexed_address, emitted_indexed_store_address,
    emitted_local_element, emitted_local_element_store, emitted_moved_slots,
    emitted_packed_array, emitted_packed_word, emitted_reference_load,
    emitted_reference_store, emitted_result_elements, emitted_slice_length,
    emitted_slots_cleanup, emitted_stack_slot, emitted_store_stack_slot,
    emitted_string_range_boundaries,
};
use crate::codegen::encoding::{
    allows_operator, excess, number_of_locals, operation_of_assignment,
};
use crate::codegen::frame::{
    Frame, X86_64Abi, form_at, local_named, place_from,
};
use crate::codegen::runtime::{
    ArrayLayout, RuntimeArrayElementType, RuntimeExpressionType, array_layout,
    element_bytes, element_type, fat_reference, index_type, local_slots, sum_of,
    types_agree,
};
use crate::codegen::selection::{
    IndexSource, RangeParts, known_index, range_parts, source_of_index,
};
use crate::codegen::values::{
    emitted_array, emitted_expression,
};
use crate::codegen::statements::{
    emitted_action_block, emitted_actions, emitted_array_assignment, emitted_assignment,
    emitted_assignment_branches, emitted_assignment_index, emitted_assignment_operation,
    emitted_assignment_value, emitted_conditional_assignment, emitted_conditional_block,
    emitted_conditional_control, emitted_conditional_controls, emitted_conditional_return,
    emitted_conditional_return_else, emitted_counted_range, emitted_dereference_assignment,
    emitted_dereference_store, emitted_element_index, emitted_else_arms,
    emitted_expression_statement, emitted_indexed_assignment, emitted_indexed_store,
    emitted_later_statements, emitted_local, emitted_local_assignment, emitted_local_value,
    emitted_loop_action, emitted_loop_actions, emitted_loop_block, emitted_loop_body,
    emitted_loop_control, emitted_loop_operation, emitted_loop_operations,
    emitted_nested_actions, emitted_nested_block, emitted_nested_body,
    emitted_nested_controls, emitted_new_local, emitted_operated_value,
    emitted_placed_returns, emitted_range_length, emitted_range_order, emitted_range_result,
    emitted_range_slice, emitted_range_start, emitted_referenced_assignment,
    emitted_referenced_store, emitted_referenced_value, emitted_result_transport,
    emitted_return, emitted_return_branches, emitted_scalar_assignment,
    emitted_slice_assignment_index, emitted_slice_replacement, emitted_slice_result,
    emitted_slice_return, emitted_slice_value, emitted_sliced_range, emitted_statement,
    emitted_statements, emitted_tail, emitted_terminal, emitted_test, emitted_typed_return,
    emitted_unconditional_controls, emitted_way_out, emitted_while_loop,
    emitted_while_loops, emitted_whole_assignment, emitted_whole_store,
};
use crate::codegen::error::CodegenErrorKind;
use crate::codegen::typing::{
    known_name, reference_source, typed,
};
use vstd::prelude::*;

verus! {

pub(crate) proof fn emitted_range_start_adds<R: ConstantResolver, const P: usize, const N: usize>(
    ground: Emission,
    f: Frame<R, P, N>,
    s: Emission,
    tree: Tree,
    start: Option<ExprId>,
    depth: int,
    fuel: int,
)
    ensures
        goes_on(ground, s, emitted_range_start(f, s, tree, start, depth, fuel), 0),
{
    reveal(emitted_range_start);
    match start {
        Some(start) => {
            emitted_expression_adds(ground, f, s, tree, start, depth + 1, fuel);
        },
        None => {
            put_adds(ground, f, s, [0x31u8, 0xc0]@);
        },
    }
    let s = match start {
        Some(start) => {
            emitted_expression(f, s, tree, start, depth + 1, fuel)
        },
        None => {
            put(f, s, [0x31u8, 0xc0]@)
        },
    };
    put_adds(ground, f, s, [0x50u8]@);
    let s = put(f, s, [0x50u8]@);
    raised_adds(ground, f, s, 1);
}

pub(crate) proof fn emitted_range_order_adds<R: ConstantResolver, const P: usize, const N: usize>(
    ground: Emission,
    f: Frame<R, P, N>,
    s: Emission,
    inclusive: bool,
)
    ensures
        goes_on(ground, s, emitted_range_order(f, s, inclusive), 0),
{
    reveal(emitted_range_order);
    if inclusive {
        put_adds(ground, f, s, [0x48u8, 0x83, 0xc0, 0x01]@);
        let s = put(f, s, [0x48u8, 0x83, 0xc0, 0x01]@);
        trapped_adds(ground, f, s, 0x82);
    }
    let s = if inclusive {
        let s = put(f, s, [0x48u8, 0x83, 0xc0, 0x01]@);
        trapped(f, s, 0x82)
    } else {
        s
    };
    put_adds(ground, f, s, [0x48u8, 0x8b, 0x0c, 0x24, 0x48, 0x39, 0xc1]@);
    let s = put(f, s, [0x48u8, 0x8b, 0x0c, 0x24, 0x48, 0x39, 0xc1]@);
    trapped_adds(ground, f, s, 0x87);
}

pub(crate) proof fn emitted_range_length_adds<R: ConstantResolver, const P: usize, const N: usize>(
    ground: Emission,
    f: Frame<R, P, N>,
    s: Emission,
)
    ensures
        goes_on(ground, s, emitted_range_length(f, s), 0),
{
    reveal(emitted_range_length);
    put_adds(ground, f, s, [0x48u8, 0x39, 0xd0]@);
    let s = put(f, s, [0x48u8, 0x39, 0xd0]@);
    trapped_adds(ground, f, s, 0x87);
    let s = trapped(f, s, 0x87);
    put_adds(ground, f, s, [0x48u8, 0x29, 0xc8, 0x50]@);
    let s = put(f, s, [0x48u8, 0x29, 0xc8, 0x50]@);
    raised_adds(ground, f, s, 1);
}

pub(crate) proof fn emitted_counted_range_adds<R: ConstantResolver, const P: usize, const N: usize>(
    ground: Emission,
    f: Frame<R, P, N>,
    s: Emission,
    tree: Tree,
    parts: RangeParts,
    count: usize,
    depth: int,
    fuel: int,
)
    ensures
        goes_on(ground, s, emitted_counted_range(f, s, tree, parts, count, depth, fuel), 0),
{
    reveal(emitted_counted_range);
    emitted_range_start_adds(ground, f, s, tree, parts.start, depth, fuel);
    let s = emitted_range_start(f, s, tree, parts.start, depth, fuel);
    match parts.end {
        Some(end) => {
            emitted_expression_adds(ground, f, s, tree, end, depth + 1, fuel);
        },
        None => {
            emitted_constant_adds(ground, f, s, count as u64);
        },
    }
    let s = match parts.end {
        Some(end) => {
            emitted_expression(f, s, tree, end, depth + 1, fuel)
        },
        None => {
            emitted_constant(f, s, count as u64)
        },
    };
    emitted_range_order_adds(ground, f, s, parts.inclusive);
    let s = emitted_range_order(f, s, parts.inclusive);
    put_adds(ground, f, s, [0x48u8, 0xba]@);
    let s = put(f, s, [0x48u8, 0xba]@);
    put_adds(ground, f, s, quad_bytes(count as u64 as int));
    let s = put(f, s, quad_bytes(count as u64 as int));
    emitted_range_length_adds(ground, f, s);
}

pub(crate) proof fn emitted_sliced_range_adds<R: ConstantResolver, const P: usize, const N: usize>(
    ground: Emission,
    f: Frame<R, P, N>,
    s: Emission,
    tree: Tree,
    parts: RangeParts,
    source: Seq<char>,
    depth: int,
    fuel: int,
)
    ensures
        goes_on(ground, s, emitted_sliced_range(f, s, tree, parts, source, depth, fuel), 0),
{
    reveal(emitted_sliced_range);
    emitted_range_start_adds(ground, f, s, tree, parts.start, depth, fuel);
    let s = emitted_range_start(f, s, tree, parts.start, depth, fuel);
    match parts.end {
        Some(end) => {
            emitted_expression_adds(ground, f, s, tree, end, depth + 1, fuel);
        },
        None => {
            emitted_slice_length_adds(ground, f, s, source);
        },
    }
    let s = match parts.end {
        Some(end) => {
            emitted_expression(f, s, tree, end, depth + 1, fuel)
        },
        None => {
            emitted_slice_length(f, s, source)
        },
    };
    emitted_range_order_adds(ground, f, s, parts.inclusive);
    let s = emitted_range_order(f, s, parts.inclusive);
    put_adds(ground, f, s, [0x50u8]@);
    let s = put(f, s, [0x50u8]@);
    raised_adds(ground, f, s, 1);
    let s = raised(f, s, 1);
    emitted_slice_length_adds(ground, f, s, source);
    let s = emitted_slice_length(f, s, source);
    put_adds(ground, f, s, [0x48u8, 0x89, 0xc2, 0x58]@);
    let s = put(f, s, [0x48u8, 0x89, 0xc2, 0x58]@);
    released_adds(ground, f, s, 1);
    let s = released(f, s, 1);
    emitted_range_length_adds(ground, f, s);
}

pub(crate) proof fn emitted_range_result_adds<R: ConstantResolver, const P: usize, const N: usize>(
    ground: Emission,
    f: Frame<R, P, N>,
    s: Emission,
    element: RuntimeArrayElementType,
)
    ensures
        goes_on(ground, s, emitted_range_result(f, s, element), 0),
{
    reveal(emitted_range_result);
    put_adds(ground, f, s, [0x48u8, 0x8b, 0x4c, 0x24, 0x08]@);
    let s = put(f, s, [0x48u8, 0x8b, 0x4c, 0x24, 0x08]@);
    match element_bytes(element) {
        None => {},
        Some(bytes) => {
            if bytes == 2 {
                put_adds(ground, f, s, [0x48u8, 0xc1, 0xe1, 0x01]@);
            } else {
                if bytes == 4 {
                    put_adds(ground, f, s, [0x48u8, 0xc1, 0xe1, 0x02]@);
                } else {
                    if bytes == 8 {
                        put_adds(ground, f, s, [0x48u8, 0xc1, 0xe1, 0x03]@);
                    }
                }
            }
            let s = if bytes == 2 {
                put(f, s, [0x48u8, 0xc1, 0xe1, 0x01]@)
            } else if bytes == 4 {
                put(f, s, [0x48u8, 0xc1, 0xe1, 0x02]@)
            } else if bytes == 8 {
                put(f, s, [0x48u8, 0xc1, 0xe1, 0x03]@)
            } else if bytes != 0 && bytes != 1 {
                failed(f, s, CodegenErrorKind::UnsupportedRuntimeType)
            } else {
                s
            };
            put_adds(
                ground,
                f,
                s,
                [0x48u8, 0x01, 0xc8, 0x48, 0x89, 0xc2, 0x59, 0x48, 0x83, 0xc4, 0x08, 0x52, 0x51]@,
            );
            let s = put(
                f,
                s,
                [0x48u8, 0x01, 0xc8, 0x48, 0x89, 0xc2, 0x59, 0x48, 0x83, 0xc4, 0x08, 0x52, 0x51]@,
            );
            released_adds(ground, f, s, 2);
        },
    }
}

pub(crate) proof fn emitted_range_slice_adds<R: ConstantResolver, const P: usize, const N: usize>(
    ground: Emission,
    f: Frame<R, P, N>,
    s: Emission,
    tree: Tree,
    parts: RangeParts,
    depth: int,
    fuel: int,
)
    ensures
        goes_on(ground, s, emitted_range_slice(f, s, tree, parts, depth, fuel), 0),
{
    reveal(emitted_range_slice);
    match typed(f, s.locals, tree, parts.base, depth + 1) {
        Err(kind) => {},
        Ok(ty) => {
            match source_of_index(ty) {
                IndexSource::Referenced { element, count } => {
                    emitted_counted_range_adds(ground, f, s, tree, parts, count, depth, fuel);
                    let s = emitted_counted_range(f, s, tree, parts, count, depth, fuel);
                    emitted_expression_adds(ground, f, s, tree, parts.base, depth + 1, fuel);
                    let s = emitted_expression(f, s, tree, parts.base, depth + 1, fuel);
                    emitted_range_result_adds(ground, f, s, element);
                },
                IndexSource::Slice { element } => {
                    match reference_source(tree, parts.base) {
                        None => {},
                        Some(source) => {
                            emitted_sliced_range_adds(
                                ground,
                                f,
                                s,
                                tree,
                                parts,
                                source,
                                depth,
                                fuel,
                            );
                            let s = emitted_sliced_range(f, s, tree, parts, source, depth, fuel);
                            emitted_expression_adds(
                                ground,
                                f,
                                s,
                                tree,
                                parts.base,
                                depth + 1,
                                fuel,
                            );
                            let s = emitted_expression(f, s, tree, parts.base, depth + 1, fuel);
                            emitted_range_result_adds(ground, f, s, element);
                        },
                    }
                },
                IndexSource::Text => {
                    match reference_source(tree, parts.base) {
                        None => {},
                        Some(source) => {
                            emitted_sliced_range_adds(
                                ground,
                                f,
                                s,
                                tree,
                                parts,
                                source,
                                depth,
                                fuel,
                            );
                            let s = emitted_sliced_range(f, s, tree, parts, source, depth, fuel);
                            emitted_expression_adds(
                                ground,
                                f,
                                s,
                                tree,
                                parts.base,
                                depth + 1,
                                fuel,
                            );
                            let s = emitted_expression(f, s, tree, parts.base, depth + 1, fuel);
                            emitted_string_range_boundaries_adds(ground, f, s, source);
                            let s = emitted_string_range_boundaries(f, s, source);
                            emitted_range_result_adds(
                                ground,
                                f,
                                s,
                                RuntimeArrayElementType::Integer(Some(IntegerType::U8)),
                            );
                        },
                    }
                },
                IndexSource::Array { element, count } => {
                    match form_at(tree, parts.base) {
                        Some(Form::Identifier(name)) => {
                            emitted_counted_range_adds(
                                ground,
                                f,
                                s,
                                tree,
                                parts,
                                count,
                                depth,
                                fuel,
                            );
                            let s = emitted_counted_range(f, s, tree, parts, count, depth, fuel);
                            emitted_identifier_address_adds(ground, f, s, name);
                            let s = emitted_identifier_address(f, s, name);
                            emitted_range_result_adds(ground, f, s, element);
                        },
                        _ => {},
                    }
                },
                IndexSource::Other => {},
            }
        },
    }
}

pub(crate) proof fn emitted_slice_value_adds<R: ConstantResolver, const P: usize, const N: usize>(
    ground: Emission,
    f: Frame<R, P, N>,
    s: Emission,
    tree: Tree,
    id: ExprId,
    depth: int,
    fuel: int,
)
    ensures
        goes_on(ground, s, emitted_slice_value(f, s, tree, id, depth, fuel), 0),
    decreases fuel,
{
    reveal(branch_place);
    reveal(place);
    reveal(emitted_slice_value);
    if fuel <= 0 || depth >= MAX_EXPRESSION_DEPTH {
    } else {
        match form_at(tree, id) {
            Some(Form::If { condition, then_branch, else_branch }) => {
                emitted_expression_adds(ground, f, s, tree, condition, depth + 1, fuel - 1);
                let s = emitted_expression(f, s, tree, condition, depth + 1, fuel - 1);
                put_adds(ground, f, s, [0x48u8, 0x85, 0xc0]@);
                let s = put(f, s, [0x48u8, 0x85, 0xc0]@);
                let otherwise = branch_place(s, 2);
                put_adds(ground, f, s, [0x0fu8, 0x84, 0, 0, 0, 0]@);
                let s = put(f, s, [0x0fu8, 0x84, 0, 0, 0, 0]@);
                emitted_slice_value_adds(ground, f, s, tree, then_branch, depth + 1, fuel - 1);
                let s = emitted_slice_value(f, s, tree, then_branch, depth + 1, fuel - 1);
                let end = branch_place(s, 1);
                put_adds(ground, f, s, [0xe9u8, 0, 0, 0, 0]@);
                let s = put(f, s, [0xe9u8, 0, 0, 0, 0]@);
                landed_adds(ground, f, s, otherwise);
                let s = landed(f, s, otherwise);
                emitted_slice_value_adds(ground, f, s, tree, else_branch, depth + 1, fuel - 1);
                let s = emitted_slice_value(f, s, tree, else_branch, depth + 1, fuel - 1);
                landed_adds(ground, f, s, end);
            },
            _ => {
                match range_parts(tree, id) {
                    Some(parts) => {
                        emitted_range_slice_adds(ground, f, s, tree, parts, depth, fuel);
                    },
                    None => {
                        match reference_source(tree, id) {
                            None => {},
                            Some(source) => {
                                emitted_expression_adds(ground, f, s, tree, id, depth + 1, fuel);
                                let s = emitted_expression(f, s, tree, id, depth + 1, fuel);
                                put_adds(ground, f, s, [0x50u8]@);
                                let s = put(f, s, [0x50u8]@);
                                raised_adds(ground, f, s, 1);
                                let s = raised(f, s, 1);
                                emitted_slice_length_adds(ground, f, s, source);
                                let s = emitted_slice_length(f, s, source);
                                released_adds(ground, f, s, 1);
                                let s = released(f, s, 1);
                                put_adds(ground, f, s, [0x50u8]@);
                            },
                        }
                    },
                }
            },
        }
    }
}

pub(crate) proof fn emitted_slice_result_adds<R: ConstantResolver, const P: usize, const N: usize>(
    ground: Emission,
    f: Frame<R, P, N>,
    s: Emission,
    stacked: bool,
)
    ensures
        goes_on(ground, s, emitted_slice_result(f, s, stacked), 0),
{
    reveal(emitted_slice_result);
    if f.abi == X86_64Abi::SystemV {
        put_adds(ground, f, s, [0x48u8, 0x89, 0xc2, 0x48, 0x89, 0xc8]@);
    } else {
        put_adds(ground, f, s, [0x49u8, 0x89, 0xc0]@);
        let s = put(f, s, [0x49u8, 0x89, 0xc0]@);
        match slot_of_result(stacked, s.temporaries, slots_from(s.locals, 0), f.saved_parameter_slots) {
            None => {},
            Some(slot) => {
                emitted_stack_slot_adds(ground, f, s, slot);
                let s = emitted_stack_slot(f, s, slot);
                put_adds(ground, f, s, [0x48u8, 0x89, 0x08, 0x4c, 0x89, 0x40, 0x08]@);
            },
        }
    }
    let s = if f.abi == X86_64Abi::SystemV {
        put(f, s, [0x48u8, 0x89, 0xc2, 0x48, 0x89, 0xc8]@)
    } else {
        let s = put(f, s, [0x49u8, 0x89, 0xc0]@);
        match slot_of_result(stacked, s.temporaries, slots_from(s.locals, 0), f.saved_parameter_slots) {
            None => {
                failed(f, s, CodegenErrorKind::OutputTooSmall)
            },
            Some(slot) => {
                let s = emitted_stack_slot(f, s, slot);
                put(f, s, [0x48u8, 0x89, 0x08, 0x4c, 0x89, 0x40, 0x08]@)
            },
        }
    };
    if stacked {
        emitted_cleanup_bytes_adds(ground, f, s, 16);
    }
    let s = if stacked {
        emitted_cleanup_bytes(f, s, 16)
    } else {
        s
    };
    emitted_epilogue_adds(ground, f, s);
}

pub(crate) proof fn emitted_slice_return_adds<R: ConstantResolver, const P: usize, const N: usize>(
    ground: Emission,
    f: Frame<R, P, N>,
    s: Emission,
    tree: Tree,
    root: ExprId,
    fuel: int,
)
    ensures
        goes_on(ground, s, emitted_slice_return(f, s, tree, root, fuel), 0),
    decreases fuel,
{
    reveal(branch_place);
    reveal(place);
    reveal(emitted_slice_return);
    if fuel <= 0 {
    } else {
        match form_at(tree, root) {
            Some(Form::If { condition, then_branch, else_branch }) => {
                emitted_expression_adds(ground, f, s, tree, condition, 0, fuel - 1);
                let s = emitted_expression(f, s, tree, condition, 0, fuel - 1);
                put_adds(ground, f, s, [0x48u8, 0x85, 0xc0]@);
                let s = put(f, s, [0x48u8, 0x85, 0xc0]@);
                let otherwise = branch_place(s, 2);
                put_adds(ground, f, s, [0x0fu8, 0x84, 0, 0, 0, 0]@);
                let s = put(f, s, [0x0fu8, 0x84, 0, 0, 0, 0]@);
                emitted_slice_return_adds(ground, f, s, tree, then_branch, fuel - 1);
                let s = emitted_slice_return(f, s, tree, then_branch, fuel - 1);
                landed_adds(ground, f, s, otherwise);
                let s = landed(f, s, otherwise);
                emitted_slice_return_adds(ground, f, s, tree, else_branch, fuel - 1);
            },
            _ => {
                match range_parts(tree, root) {
                    Some(parts) => {
                        emitted_range_slice_adds(ground, f, s, tree, parts, 0, fuel);
                        let s = emitted_range_slice(f, s, tree, parts, 0, fuel);
                        emitted_stack_slot_adds(ground, f, s, 1);
                        let s = emitted_stack_slot(f, s, 1);
                        put_adds(ground, f, s, [0x48u8, 0x89, 0xc1]@);
                        let s = put(f, s, [0x48u8, 0x89, 0xc1]@);
                        emitted_stack_slot_adds(ground, f, s, 0);
                        let s = emitted_stack_slot(f, s, 0);
                        emitted_slice_result_adds(ground, f, s, true);
                    },
                    None => {
                        match reference_source(tree, root) {
                            None => {},
                            Some(source) => {
                                emitted_expression_adds(ground, f, s, tree, root, 0, fuel);
                                let s = emitted_expression(f, s, tree, root, 0, fuel);
                                put_adds(ground, f, s, [0x48u8, 0x89, 0xc1]@);
                                let s = put(f, s, [0x48u8, 0x89, 0xc1]@);
                                emitted_slice_length_adds(ground, f, s, source);
                                let s = emitted_slice_length(f, s, source);
                                emitted_slice_result_adds(ground, f, s, false);
                            },
                        }
                    },
                }
            },
        }
    }
}

pub(crate) proof fn emitted_result_transport_adds<R: ConstantResolver, const P: usize, const N: usize>(
    ground: Emission,
    f: Frame<R, P, N>,
    s: Emission,
    layout: ArrayLayout,
    count: usize,
)
    ensures
        goes_on(ground, s, emitted_result_transport(f, s, layout, count), 0),
{
    reveal(emitted_result_transport);
    if layout.words == 0 {
    } else {
        if f.uses_sret {
            match slot_of_result(false, s.temporaries, slots_from(s.locals, 0), f.saved_parameter_slots) {
                None => {},
                Some(slot) => {
                    emitted_stack_slot_adds(ground, f, s, slot);
                    let s = emitted_stack_slot(f, s, slot);
                    put_adds(ground, f, s, [0x48u8, 0x89, 0xc2]@);
                    let s = put(f, s, [0x48u8, 0x89, 0xc2]@);
                    emitted_result_elements_adds(ground, f, s, count, layout.element_bytes, 0);
                    let s = emitted_result_elements(f, s, count, layout.element_bytes, 0);
                    put_adds(ground, f, s, [0x48u8, 0x89, 0xd0]@);
                },
            }
        } else {
            if layout.words == 1 {
                emitted_packed_word_adds(ground, f, s, count, layout.element_bytes, 0);
            } else {
                if f.abi == X86_64Abi::SystemV && layout.words == 2 {
                    emitted_packed_word_adds(ground, f, s, count, layout.element_bytes, 1);
                    let s = emitted_packed_word(f, s, count, layout.element_bytes, 1);
                    put_adds(ground, f, s, [0x48u8, 0x89, 0xc1]@);
                    let s = put(f, s, [0x48u8, 0x89, 0xc1]@);
                    emitted_packed_word_adds(ground, f, s, count, layout.element_bytes, 0);
                    let s = emitted_packed_word(f, s, count, layout.element_bytes, 0);
                    put_adds(ground, f, s, [0x48u8, 0x89, 0xca]@);
                }
            }
        }
    }
}

pub(crate) proof fn emitted_typed_return_adds<R: ConstantResolver, const P: usize, const N: usize>(
    ground: Emission,
    f: Frame<R, P, N>,
    s: Emission,
    tree: Tree,
    expected: RuntimeExpressionType,
)
    ensures
        goes_on(ground, s, emitted_typed_return(f, s, tree, expected), 0),
{
    reveal(emitted_typed_return);
    if fat_reference(expected) {
        emitted_slice_return_adds(ground, f, s, tree, tree.root, tree_size(tree));
    } else {
        match expected {
            RuntimeExpressionType::Array { count, .. } => {
                match array_layout(expected) {
                    None => {},
                    Some(layout) => {
                        emitted_array_adds(ground, f, s, tree, tree.root, count, tree_size(tree));
                        let s = emitted_array(f, s, tree, tree.root, count, tree_size(tree));
                        emitted_result_transport_adds(ground, f, s, layout, count);
                        let s = emitted_result_transport(f, s, layout, count);
                        released_adds(ground, f, s, count);
                        let s = released(f, s, count);
                        emitted_slots_cleanup_adds(ground, f, s, count);
                        let s = emitted_slots_cleanup(f, s, count);
                        emitted_epilogue_adds(ground, f, s);
                    },
                }
            },
            _ => {
                emitted_expression_adds(ground, f, s, tree, tree.root, 0, tree_size(tree));
                let s = emitted_expression(f, s, tree, tree.root, 0, tree_size(tree));
                emitted_epilogue_adds(ground, f, s);
            },
        }
    }
}

pub(crate) proof fn emitted_return_adds<R: ConstantResolver, const P: usize, const N: usize>(
    ground: Emission,
    f: Frame<R, P, N>,
    s: Emission,
    statement: LoopReturn,
    expected: RuntimeExpressionType,
)
    ensures
        goes_on(ground, s, emitted_return(f, s, statement, expected), 0),
{
    reveal(emitted_return);
    match value_of_type(f, s.locals, statement.value@, statement.value_span, expected) {
        Err(error) => {},
        Ok(tree) => {
            emitted_typed_return_adds(ground, f, s, tree, expected);
        },
    }
}

pub(crate) proof fn emitted_test_adds<R: ConstantResolver, const P: usize, const N: usize>(
    ground: Emission,
    f: Frame<R, P, N>,
    s: Emission,
    tree: Tree,
)
    ensures
        goes_on(ground, s, emitted_test(f, s, tree), -1),
{
    reveal(emitted_test);
    emitted_expression_adds(ground, f, s, tree, tree.root, 0, tree_size(tree));
    let s = emitted_expression(f, s, tree, tree.root, 0, tree_size(tree));
    put_adds(ground, f, s, [0x48u8, 0x85, 0xc0]@);
}

pub(crate) proof fn emitted_conditional_return_adds<R: ConstantResolver, const P: usize, const N: usize>(
    ground: Emission,
    f: Frame<R, P, N>,
    s: Emission,
    conditional: ConditionalReturn,
    expected: RuntimeExpressionType,
)
    ensures
        goes_on(ground, s, emitted_conditional_return(f, s, conditional, expected), 0),
{
    reveal(branch_place);
    reveal(place);
    reveal(emitted_conditional_return);
    match condition_of(f, s.locals, conditional.condition@, conditional.condition_span) {
        Err(error) => {},
        Ok(condition) => {
            match value_of_type(f, s.locals, conditional.value@, conditional.value_span, expected) {
                Err(error) => {},
                Ok(tree) => {
                    emitted_test_adds(ground, f, s, condition);
                    let s = emitted_test(f, s, condition);
                    let skip = branch_place(s, 2);
                    put_adds(ground, f, s, [0x0fu8, 0x84, 0, 0, 0, 0]@);
                    let s = put(f, s, [0x0fu8, 0x84, 0, 0, 0, 0]@);
                    emitted_typed_return_adds(ground, f, s, tree, expected);
                    let s = emitted_typed_return(f, s, tree, expected);
                    landed_adds(ground, f, s, skip);
                },
            }
        },
    }
}

pub(crate) proof fn emitted_return_branches_adds<R: ConstantResolver, const P: usize, const N: usize>(
    ground: Emission,
    f: Frame<R, P, N>,
    s: Emission,
    branches: Seq<ConditionalReturn>,
    expected: RuntimeExpressionType,
    index: int,
)
    ensures
        goes_on(ground, s, emitted_return_branches(f, s, branches, expected, index), 0),
    decreases branches.len() - index,
{
    reveal(emitted_return_branches);
    if index < branches.len() {
        emitted_conditional_return_adds(ground, f, s, branches[index], expected);
        let s = emitted_conditional_return(f, s, branches[index], expected);
        emitted_return_branches_adds(ground, f, s, branches, expected, index + 1);
    }
}

pub(crate) proof fn emitted_conditional_return_else_adds<R: ConstantResolver, const P: usize, const N: usize>(
    ground: Emission,
    f: Frame<R, P, N>,
    s: Emission,
    conditional: ConditionalReturnElse,
    expected: RuntimeExpressionType,
)
    ensures
        goes_on(ground, s, emitted_conditional_return_else(f, s, conditional, expected), 0),
{
    reveal(emitted_conditional_return_else);
    emitted_return_branches_adds(ground, f, s, conditional.branches@, expected, 0);
    let s = emitted_return_branches(f, s, conditional.branches@, expected, 0);
    match conditional.else_value {
        None => {},
        Some(value) => {
            emitted_return_adds(ground, f, s, value, expected);
        },
    }
}

pub(crate) proof fn emitted_local_value_adds<R: ConstantResolver, const P: usize, const N: usize>(
    ground: Emission,
    f: Frame<R, P, N>,
    s: Emission,
    tree: Tree,
    ty: RuntimeExpressionType,
)
    ensures
        goes_on(ground, s, emitted_local_value(f, s, tree, ty), 0),
{
    reveal(emitted_local_value);
    if fat_reference(ty) {
        emitted_slice_value_adds(ground, f, s, tree, tree.root, 0, tree_size(tree));
    } else {
        match ty {
            RuntimeExpressionType::Array { element, count } => {
                emitted_array_adds(ground, f, s, tree, tree.root, count, tree_size(tree));
                let s = emitted_array(f, s, tree, tree.root, count, tree_size(tree));
                emitted_packed_array_adds(ground, f, s, element, count);
                let s = emitted_packed_array(f, s, element, count);
                released_adds(ground, f, s, local_slots(ty));
            },
            _ => {
                emitted_expression_adds(ground, f, s, tree, tree.root, 0, tree_size(tree));
                let s = emitted_expression(f, s, tree, tree.root, 0, tree_size(tree));
                put_adds(ground, f, s, [0x50u8]@);
            },
        }
    }
}

pub(crate) proof fn emitted_new_local_adds<R: ConstantResolver, const P: usize, const N: usize>(
    ground: Emission,
    f: Frame<R, P, N>,
    s: Emission,
    local: LocalBinding,
    operand: Operand,
)
    ensures
        goes_on(ground, s, emitted_new_local(f, s, local, operand), 0),
{
    reveal(emitted_new_local);
    match tree_and_type(f, s.locals, local.initializer@, local.initializer_span) {
        Err(error) => {},
        Ok((tree, initializer)) => {
            match type_of_local(f, local, initializer, operand) {
                Err(error) => {},
                Ok(ty) => {
                    if types_agree(initializer, ty) {
                        let previous = s.width;
                        same_code_is_added(
                            ground,
                            s,
                            Emission { width: width_of_change(ty, previous), ..s },
                        );
                        let s = Emission { width: width_of_change(ty, previous), ..s };
                        emitted_local_value_adds(ground, f, s, tree, ty);
                        let s = emitted_local_value(f, s, tree, ty);
                        same_code_is_added(ground, s, Emission { width: previous, ..s });
                        let s = Emission { width: previous, ..s };
                        with_local_adds(ground, f, s, local, ty);
                    }
                },
            }
        },
    }
}

pub(crate) proof fn emitted_local_adds<R: ConstantResolver, const P: usize, const N: usize>(
    ground: Emission,
    f: Frame<R, P, N>,
    s: Emission,
    local: LocalBinding,
    operand: Operand,
    allow_shadowing: bool,
)
    ensures
        goes_on(ground, s, emitted_local(f, s, local, operand, allow_shadowing), 0),
{
    reveal(emitted_local);
    if number_of_locals(s.locals) >= P {
    } else {
        if !allow_shadowing && known_name(f, s.locals, local.name@) {
        } else {
            emitted_new_local_adds(ground, f, s, local, operand);
        }
    }
}

pub(crate) proof fn emitted_expression_statement_adds<R: ConstantResolver, const P: usize, const N: usize>(
    ground: Emission,
    f: Frame<R, P, N>,
    s: Emission,
    statement: ExpressionStatement,
)
    ensures
        goes_on(ground, s, emitted_expression_statement(f, s, statement), 0),
{
    reveal(emitted_expression_statement);
    if !empty_text(statement.expression@) {
        match tree_and_type(f, s.locals, statement.expression@, statement.span) {
            Err(error) => {},
            Ok((tree, _)) => {
                emitted_expression_adds(ground, f, s, tree, tree.root, 0, tree_size(tree));
            },
        }
    }
}

pub(crate) proof fn emitted_assignment_operation_adds<R: ConstantResolver, const P: usize, const N: usize>(
    ground: Emission,
    f: Frame<R, P, N>,
    s: Emission,
    assignment: Assignment,
)
    ensures
        goes_on(ground, s, emitted_assignment_operation(f, s, assignment), 0),
{
    reveal(emitted_assignment_operation);
    match operation_of_assignment(assignment.operator) {
        None => {},
        Some(operator) => {
            emitted_binary_adds(ground, f, s, operator);
        },
    }
}

pub(crate) proof fn emitted_assignment_index_adds<R: ConstantResolver, const P: usize, const N: usize>(
    ground: Emission,
    f: Frame<R, P, N>,
    s: Emission,
    index: AssignmentIndex,
    count: usize,
)
    ensures
        goes_on(ground, s, emitted_assignment_index(f, s, index, count), 0),
{
    reveal(emitted_assignment_index);
    match tree_and_type(f, s.locals, index.index@, index.span) {
        Err(error) => {},
        Ok((tree, ty)) => {
            if !index_type(ty) {
            } else {
                match known_index(tree, tree.root, count, f.resolver) {
                    Err(kind) => {},
                    Ok(_) => {
                        emitted_expression_adds(ground, f, s, tree, tree.root, 0, tree_size(tree));
                    },
                }
            }
        },
    }
}

pub(crate) proof fn emitted_slice_assignment_index_adds<R: ConstantResolver, const P: usize, const N: usize>(
    ground: Emission,
    f: Frame<R, P, N>,
    s: Emission,
    index: AssignmentIndex,
    name: Seq<char>,
)
    ensures
        goes_on(ground, s, emitted_slice_assignment_index(f, s, index, name), 0),
{
    reveal(branch_place);
    reveal(place);
    reveal(emitted_slice_assignment_index);
    match tree_and_type(f, s.locals, index.index@, index.span) {
        Err(error) => {},
        Ok((tree, ty)) => {
            if !index_type(ty) {
            } else {
                emitted_expression_adds(ground, f, s, tree, tree.root, 0, tree_size(tree));
                let s = emitted_expression(f, s, tree, tree.root, 0, tree_size(tree));
                put_adds(ground, f, s, [0x50u8]@);
                let s = put(f, s, [0x50u8]@);
                raised_adds(ground, f, s, 1);
                let s = raised(f, s, 1);
                emitted_slice_length_adds(ground, f, s, name);
                let s = emitted_slice_length(f, s, name);
                put_adds(ground, f, s, [0x48u8, 0x8b, 0x0c, 0x24, 0x48, 0x39, 0xc1]@);
                let s = put(f, s, [0x48u8, 0x8b, 0x0c, 0x24, 0x48, 0x39, 0xc1]@);
                let in_bounds = branch_place(s, 2);
                put_adds(ground, f, s, [0x0fu8, 0x82, 0, 0, 0, 0]@);
                let s = put(f, s, [0x0fu8, 0x82, 0, 0, 0, 0]@);
                put_adds(ground, f, s, [0x0fu8, 0x0b]@);
                let s = put(f, s, [0x0fu8, 0x0b]@);
                landed_adds(ground, f, s, in_bounds);
                let s = landed(f, s, in_bounds);
                put_adds(ground, f, s, [0x58u8]@);
                let s = put(f, s, [0x58u8]@);
                released_adds(ground, f, s, 1);
            }
        },
    }
}

pub(crate) proof fn emitted_element_index_adds<R: ConstantResolver, const P: usize, const N: usize>(
    ground: Emission,
    f: Frame<R, P, N>,
    s: Emission,
    assignment: Assignment,
    count: Option<usize>,
)
    ensures
        goes_on(ground, s, emitted_element_index(f, s, assignment, count), 0),
{
    reveal(emitted_element_index);
    match assignment.index {
        None => {},
        Some(index) => {
            match count {
                Some(count) => {
                    emitted_assignment_index_adds(ground, f, s, index, count);
                },
                None => {
                    emitted_slice_assignment_index_adds(ground, f, s, index, assignment.name@);
                },
            }
        },
    }
}

pub(crate) proof fn emitted_assignment_value_adds<R: ConstantResolver, const P: usize, const N: usize>(
    ground: Emission,
    f: Frame<R, P, N>,
    s: Emission,
    assignment: Assignment,
    expected: RuntimeExpressionType,
)
    ensures
        goes_on(ground, s, emitted_assignment_value(f, s, assignment, expected), 0),
{
    reveal(emitted_assignment_value);
    match value_of_type(f, s.locals, assignment.value@, assignment.value_span, expected) {
        Err(error) => {},
        Ok(tree) => {
            emitted_expression_adds(ground, f, s, tree, tree.root, 0, tree_size(tree));
        },
    }
}

pub(crate) proof fn emitted_referenced_value_adds<R: ConstantResolver, const P: usize, const N: usize>(
    ground: Emission,
    f: Frame<R, P, N>,
    s: Emission,
    element: RuntimeArrayElementType,
    bytes: usize,
)
    ensures
        goes_on(ground, s, emitted_referenced_value(f, s, element, bytes), 0),
{
    reveal(emitted_referenced_value);
    emitted_indexed_address_adds(ground, f, s, bytes);
    let s = emitted_indexed_address(f, s, bytes);
    if bytes == 0 {
        put_adds(ground, f, s, [0x31u8, 0xc0]@);
    } else {
        emitted_reference_load_adds(ground, f, s, element);
    }
    let s = if bytes == 0 {
        put(f, s, [0x31u8, 0xc0]@)
    } else {
        emitted_reference_load(f, s, element)
    };
    put_adds(ground, f, s, [0x50u8]@);
    let s = put(f, s, [0x50u8]@);
    raised_adds(ground, f, s, 1);
}

pub(crate) proof fn emitted_operated_value_adds<R: ConstantResolver, const P: usize, const N: usize>(
    ground: Emission,
    f: Frame<R, P, N>,
    s: Emission,
    assignment: Assignment,
    expected: RuntimeExpressionType,
)
    ensures
        goes_on(ground, s, emitted_operated_value(f, s, assignment, expected), 0),
{
    reveal(emitted_operated_value);
    emitted_assignment_value_adds(ground, f, s, assignment, expected);
    let s = emitted_assignment_value(f, s, assignment, expected);
    if assignment.operator != AssignmentOperator::Assign {
        released_adds(ground, f, s, 1);
        let s = released(f, s, 1);
        put_adds(ground, f, s, [0x59u8]@);
        let s = put(f, s, [0x59u8]@);
        emitted_assignment_operation_adds(ground, f, s, assignment);
    }
}

pub(crate) proof fn emitted_referenced_store_adds<R: ConstantResolver, const P: usize, const N: usize>(
    ground: Emission,
    f: Frame<R, P, N>,
    s: Emission,
    assignment: Assignment,
    element: RuntimeArrayElementType,
    count: Option<usize>,
)
    ensures
        goes_on(ground, s, emitted_referenced_store(f, s, assignment, element, count), 0),
{
    reveal(emitted_referenced_store);
    emitted_element_index_adds(ground, f, s, assignment, count);
    let s = emitted_element_index(f, s, assignment, count);
    put_adds(ground, f, s, [0x50u8]@);
    let s = put(f, s, [0x50u8]@);
    raised_adds(ground, f, s, 1);
    let s = raised(f, s, 1);
    emitted_identifier_adds(ground, f, s, assignment.name@);
    let s = emitted_identifier(f, s, assignment.name@);
    put_adds(ground, f, s, [0x50u8]@);
    let s = put(f, s, [0x50u8]@);
    raised_adds(ground, f, s, 1);
    let s = raised(f, s, 1);
    match element_bytes(element) {
        None => {},
        Some(bytes) => {
            if assignment.operator != AssignmentOperator::Assign {
                emitted_referenced_value_adds(ground, f, s, element, bytes);
            }
            let s = if assignment.operator != AssignmentOperator::Assign {
                emitted_referenced_value(f, s, element, bytes)
            } else {
                s
            };
            emitted_operated_value_adds(ground, f, s, assignment, element_type(element));
            let s = emitted_operated_value(f, s, assignment, element_type(element));
            if bytes != 0 {
                put_adds(ground, f, s, [0x48u8, 0x8b, 0x14, 0x24]@);
                let s = put(f, s, [0x48u8, 0x8b, 0x14, 0x24]@);
                emitted_indexed_store_address_adds(ground, f, s, bytes);
                let s = emitted_indexed_store_address(f, s, bytes);
                emitted_reference_store_adds(ground, f, s, element);
            }
            let s = if bytes != 0 {
                let s = put(f, s, [0x48u8, 0x8b, 0x14, 0x24]@);
                let s = emitted_indexed_store_address(f, s, bytes);
                emitted_reference_store(f, s, element)
            } else {
                s
            };
            put_adds(ground, f, s, [0x48u8, 0x83, 0xc4, 16]@);
            let s = put(f, s, [0x48u8, 0x83, 0xc4, 16]@);
            released_adds(ground, f, s, 2);
        },
    }
}

pub(crate) proof fn emitted_referenced_assignment_adds<R: ConstantResolver, const P: usize, const N: usize>(
    ground: Emission,
    f: Frame<R, P, N>,
    s: Emission,
    assignment: Assignment,
    element: RuntimeArrayElementType,
    count: Option<usize>,
    mutable: bool,
)
    ensures
        goes_on(ground, s, emitted_referenced_assignment(f, s, assignment, element, count, mutable), 0),
{
    reveal(emitted_referenced_assignment);
    if !mutable {
    } else {
        match problem_of_operator(element_type(element), assignment.operator) {
            Some(kind) => {},
            None => {
                let previous = s.width;
                same_code_is_added(
                    ground,
                    s,
                    Emission { width: width_of_change(element_type(element), previous), ..s },
                );
                let s = Emission { width: width_of_change(element_type(element), previous), ..s };
                emitted_referenced_store_adds(ground, f, s, assignment, element, count);
                let s = emitted_referenced_store(f, s, assignment, element, count);
                same_code_is_added(ground, s, Emission { width: previous, ..s });
            },
        }
    }
}

pub(crate) proof fn emitted_dereference_store_adds<R: ConstantResolver, const P: usize, const N: usize>(
    ground: Emission,
    f: Frame<R, P, N>,
    s: Emission,
    assignment: Assignment,
    pointee: RuntimeArrayElementType,
)
    ensures
        goes_on(ground, s, emitted_dereference_store(f, s, assignment, pointee), 0),
{
    reveal(emitted_dereference_store);
    emitted_identifier_adds(ground, f, s, assignment.name@);
    let s = emitted_identifier(f, s, assignment.name@);
    put_adds(ground, f, s, [0x50u8]@);
    let s = put(f, s, [0x50u8]@);
    raised_adds(ground, f, s, 1);
    let s = raised(f, s, 1);
    if assignment.operator != AssignmentOperator::Assign {
        emitted_reference_load_adds(ground, f, s, pointee);
        let s = emitted_reference_load(f, s, pointee);
        put_adds(ground, f, s, [0x50u8]@);
        let s = put(f, s, [0x50u8]@);
        raised_adds(ground, f, s, 1);
    }
    let s = if assignment.operator != AssignmentOperator::Assign {
        let s = emitted_reference_load(f, s, pointee);
        let s = put(f, s, [0x50u8]@);
        raised(f, s, 1)
    } else {
        s
    };
    emitted_operated_value_adds(ground, f, s, assignment, element_type(pointee));
    let s = emitted_operated_value(f, s, assignment, element_type(pointee));
    put_adds(ground, f, s, [0x48u8, 0x8b, 0x14, 0x24]@);
    let s = put(f, s, [0x48u8, 0x8b, 0x14, 0x24]@);
    emitted_reference_store_adds(ground, f, s, pointee);
    let s = emitted_reference_store(f, s, pointee);
    put_adds(ground, f, s, [0x48u8, 0x83, 0xc4, 0x08]@);
    let s = put(f, s, [0x48u8, 0x83, 0xc4, 0x08]@);
    released_adds(ground, f, s, 1);
}

pub(crate) proof fn emitted_dereference_assignment_adds<R: ConstantResolver, const P: usize, const N: usize>(
    ground: Emission,
    f: Frame<R, P, N>,
    s: Emission,
    assignment: Assignment,
)
    ensures
        goes_on(ground, s, emitted_dereference_assignment(f, s, assignment), 0),
{
    reveal(emitted_dereference_assignment);
    match assignment.index {
        Some(_) => {},
        None => {
            match type_of_target(f, s.locals, assignment.name@) {
                None => {},
                Some(ty) => {
                    match target_of_address(ty) {
                        None => {},
                        Some((pointee, mutable)) => {
                            if !mutable {
                            } else {
                                match problem_of_dereference(element_type(pointee), assignment.operator) {
                                    Some(kind) => {},
                                    None => {
                                        let previous = s.width;
                                        same_code_is_added(
                                            ground,
                                            s,
                                            Emission { width: width_of_change(element_type(pointee), previous), ..s },
                                        );
                                        let s = Emission { width: width_of_change(element_type(pointee), previous), ..s };
                                        emitted_dereference_store_adds(
                                            ground,
                                            f,
                                            s,
                                            assignment,
                                            pointee,
                                        );
                                        let s = emitted_dereference_store(f, s, assignment, pointee);
                                        same_code_is_added(
                                            ground,
                                            s,
                                            Emission { width: previous, ..s },
                                        );
                                    },
                                }
                            }
                        },
                    }
                },
            }
        },
    }
}

pub(crate) proof fn emitted_indexed_store_adds<R: ConstantResolver, const P: usize, const N: usize>(
    ground: Emission,
    f: Frame<R, P, N>,
    s: Emission,
    assignment: Assignment,
    index: AssignmentIndex,
    local: usize,
    element: RuntimeArrayElementType,
    count: usize,
)
    ensures
        goes_on(ground, s, emitted_indexed_store(f, s, assignment, index, local, element, count), 0),
{
    reveal(emitted_indexed_store);
    emitted_assignment_index_adds(ground, f, s, index, count);
    let s = emitted_assignment_index(f, s, index, count);
    put_adds(ground, f, s, [0x50u8]@);
    let s = put(f, s, [0x50u8]@);
    raised_adds(ground, f, s, 1);
    let s = raised(f, s, 1);
    if assignment.operator != AssignmentOperator::Assign {
        emitted_local_element_adds(ground, f, s, local, element, count, 0);
        let s = emitted_local_element(f, s, local, element, count, 0);
        put_adds(ground, f, s, [0x50u8]@);
        let s = put(f, s, [0x50u8]@);
        raised_adds(ground, f, s, 1);
    }
    let s = if assignment.operator != AssignmentOperator::Assign {
        let s = emitted_local_element(f, s, local, element, count, 0);
        let s = put(f, s, [0x50u8]@);
        raised(f, s, 1)
    } else {
        s
    };
    emitted_operated_value_adds(ground, f, s, assignment, element_type(element));
    let s = emitted_operated_value(f, s, assignment, element_type(element));
    put_adds(ground, f, s, [0x50u8]@);
    let s = put(f, s, [0x50u8]@);
    raised_adds(ground, f, s, 1);
    let s = raised(f, s, 1);
    emitted_local_element_store_adds(ground, f, s, local, element, count, 1);
    let s = emitted_local_element_store(f, s, local, element, count, 1);
    released_adds(ground, f, s, 2);
    let s = released(f, s, 2);
    put_adds(ground, f, s, [0x48u8, 0x83, 0xc4, 16]@);
}

pub(crate) proof fn emitted_indexed_assignment_adds<R: ConstantResolver, const P: usize, const N: usize>(
    ground: Emission,
    f: Frame<R, P, N>,
    s: Emission,
    assignment: Assignment,
    index: AssignmentIndex,
    local: usize,
    ty: RuntimeExpressionType,
)
    ensures
        goes_on(ground, s, emitted_indexed_assignment(f, s, assignment, index, local, ty), 0),
{
    reveal(emitted_indexed_assignment);
    match ty {
        RuntimeExpressionType::Array { element, count } => {
            match problem_of_operator(element_type(element), assignment.operator) {
                Some(kind) => {},
                None => {
                    let previous = s.width;
                    same_code_is_added(
                        ground,
                        s,
                        Emission { width: width_of_change(element_type(element), previous), ..s },
                    );
                    let s = Emission { width: width_of_change(element_type(element), previous), ..s };
                    emitted_indexed_store_adds(
                        ground,
                        f,
                        s,
                        assignment,
                        index,
                        local,
                        element,
                        count,
                    );
                    let s = emitted_indexed_store(f, s, assignment, index, local, element, count);
                    same_code_is_added(ground, s, Emission { width: previous, ..s });
                },
            }
        },
        _ => {},
    }
}

pub(crate) proof fn emitted_slice_replacement_adds<R: ConstantResolver, const P: usize, const N: usize>(
    ground: Emission,
    f: Frame<R, P, N>,
    s: Emission,
    tree: Tree,
    local: usize,
)
    ensures
        goes_on(ground, s, emitted_slice_replacement(f, s, tree, local), 0),
{
    reveal(emitted_slice_replacement);
    emitted_slice_value_adds(ground, f, s, tree, tree.root, 0, tree_size(tree));
    let s = emitted_slice_value(f, s, tree, tree.root, 0, tree_size(tree));
    match slots_from(s.locals, place_from(local, 1)) {
        None => {},
        Some(later) => {
            match sum_of(later, 3) {
                None => {},
                Some(address) => {
                    emitted_stack_slot_adds(ground, f, s, 0);
                    let s = emitted_stack_slot(f, s, 0);
                    emitted_store_stack_slot_adds(ground, f, s, excess(address, 1));
                    let s = emitted_store_stack_slot(f, s, excess(address, 1));
                    emitted_stack_slot_adds(ground, f, s, 1);
                    let s = emitted_stack_slot(f, s, 1);
                    emitted_store_stack_slot_adds(ground, f, s, address);
                    let s = emitted_store_stack_slot(f, s, address);
                    emitted_cleanup_bytes_adds(ground, f, s, 16);
                },
            }
        },
    }
}

pub(crate) proof fn emitted_array_assignment_adds<R: ConstantResolver, const P: usize, const N: usize>(
    ground: Emission,
    f: Frame<R, P, N>,
    s: Emission,
    tree: Tree,
    local: usize,
    element: RuntimeArrayElementType,
    count: usize,
)
    ensures
        goes_on(ground, s, emitted_array_assignment(f, s, tree, local, element, count), 0),
{
    reveal(emitted_array_assignment);
    if count > MAX_ARRAY_ELEMENTS {
    } else {
        emitted_array_adds(ground, f, s, tree, tree.root, count, tree_size(tree));
        let s = emitted_array(f, s, tree, tree.root, count, tree_size(tree));
        emitted_packed_array_adds(ground, f, s, element, count);
        let s = emitted_packed_array(f, s, element, count);
        match slots_from(s.locals, place_from(local, 1)) {
            None => {},
            Some(later) => {
                let slots = local_slots(RuntimeExpressionType::Array { element, count });
                emitted_moved_slots_adds(ground, f, s, slots, later, 0);
                let s = emitted_moved_slots(f, s, slots, later, 0);
                released_adds(ground, f, s, slots);
                let s = released(f, s, slots);
                emitted_slots_cleanup_adds(ground, f, s, slots);
            },
        }
    }
}

pub(crate) proof fn emitted_scalar_assignment_adds<R: ConstantResolver, const P: usize, const N: usize>(
    ground: Emission,
    f: Frame<R, P, N>,
    s: Emission,
    tree: Tree,
    assignment: Assignment,
    local: usize,
)
    ensures
        goes_on(ground, s, emitted_scalar_assignment(f, s, tree, assignment, local), 0),
{
    reveal(emitted_scalar_assignment);
    if assignment.operator == AssignmentOperator::Assign {
        emitted_expression_adds(ground, f, s, tree, tree.root, 0, tree_size(tree));
    } else {
        emitted_identifier_adds(ground, f, s, assignment.name@);
        let s = emitted_identifier(f, s, assignment.name@);
        put_adds(ground, f, s, [0x50u8]@);
        let s = put(f, s, [0x50u8]@);
        raised_adds(ground, f, s, 1);
        let s = raised(f, s, 1);
        emitted_expression_adds(ground, f, s, tree, tree.root, 0, tree_size(tree));
        let s = emitted_expression(f, s, tree, tree.root, 0, tree_size(tree));
        released_adds(ground, f, s, 1);
        let s = released(f, s, 1);
        put_adds(ground, f, s, [0x59u8]@);
        let s = put(f, s, [0x59u8]@);
        emitted_assignment_operation_adds(ground, f, s, assignment);
    }
    let s = if assignment.operator == AssignmentOperator::Assign {
        emitted_expression(f, s, tree, tree.root, 0, tree_size(tree))
    } else {
        let s = emitted_identifier(f, s, assignment.name@);
        let s = put(f, s, [0x50u8]@);
        let s = raised(f, s, 1);
        let s = emitted_expression(f, s, tree, tree.root, 0, tree_size(tree));
        let s = released(f, s, 1);
        let s = put(f, s, [0x59u8]@);
        emitted_assignment_operation(f, s, assignment)
    };
    match slots_from(s.locals, place_from(local, 1)) {
        None => {},
        Some(slots) => {
            emitted_store_stack_slot_adds(ground, f, s, slots);
        },
    }
}

pub(crate) proof fn emitted_whole_store_adds<R: ConstantResolver, const P: usize, const N: usize>(
    ground: Emission,
    f: Frame<R, P, N>,
    s: Emission,
    tree: Tree,
    assignment: Assignment,
    local: usize,
    ty: RuntimeExpressionType,
)
    ensures
        goes_on(ground, s, emitted_whole_store(f, s, tree, assignment, local, ty), 0),
{
    reveal(emitted_whole_store);
    match ty {
        RuntimeExpressionType::Array { element, count } => {
            if assignment.operator != AssignmentOperator::Assign {
            } else {
                emitted_array_assignment_adds(ground, f, s, tree, local, element, count);
            }
        },
        other => {
            if fat_reference(other) && assignment.operator != AssignmentOperator::Assign {
            } else {
                if fat_reference(other) {
                    emitted_slice_replacement_adds(ground, f, s, tree, local);
                } else {
                    emitted_scalar_assignment_adds(ground, f, s, tree, assignment, local);
                }
            }
        },
    }
}

pub(crate) proof fn emitted_whole_assignment_adds<R: ConstantResolver, const P: usize, const N: usize>(
    ground: Emission,
    f: Frame<R, P, N>,
    s: Emission,
    assignment: Assignment,
    local: usize,
    ty: RuntimeExpressionType,
)
    ensures
        goes_on(ground, s, emitted_whole_assignment(f, s, assignment, local, ty), 0),
{
    reveal(emitted_whole_assignment);
    if ty == RuntimeExpressionType::Bool && !allows_operator(assignment.operator) {
    } else {
        match value_of_type(f, s.locals, assignment.value@, assignment.value_span, ty) {
            Err(error) => {},
            Ok(tree) => {
                let previous = s.width;
                same_code_is_added(
                    ground,
                    s,
                    Emission { width: width_of_change(ty, previous), ..s },
                );
                let s = Emission { width: width_of_change(ty, previous), ..s };
                emitted_whole_store_adds(ground, f, s, tree, assignment, local, ty);
                let s = emitted_whole_store(f, s, tree, assignment, local, ty);
                same_code_is_added(ground, s, Emission { width: previous, ..s });
            },
        }
    }
}

pub(crate) proof fn emitted_local_assignment_adds<R: ConstantResolver, const P: usize, const N: usize>(
    ground: Emission,
    f: Frame<R, P, N>,
    s: Emission,
    assignment: Assignment,
)
    ensures
        goes_on(ground, s, emitted_local_assignment(f, s, assignment), 0),
{
    reveal(emitted_local_assignment);
    match local_named(s.locals, assignment.name@) {
        None => {},
        Some(local) => {
            if !s.locals[local as int].mutable {
            } else {
                match assignment.index {
                    Some(index) => {
                        emitted_indexed_assignment_adds(
                            ground,
                            f,
                            s,
                            assignment,
                            index,
                            local,
                            s.locals[local as int].ty,
                        );
                    },
                    None => {
                        emitted_whole_assignment_adds(
                            ground,
                            f,
                            s,
                            assignment,
                            local,
                            s.locals[local as int].ty,
                        );
                    },
                }
            }
        },
    }
}

pub(crate) proof fn emitted_assignment_adds<R: ConstantResolver, const P: usize, const N: usize>(
    ground: Emission,
    f: Frame<R, P, N>,
    s: Emission,
    assignment: Assignment,
)
    ensures
        goes_on(ground, s, emitted_assignment(f, s, assignment), 0),
{
    reveal(emitted_assignment);
    if assignment.dereference {
        emitted_dereference_assignment_adds(ground, f, s, assignment);
    } else {
        match assignment.index {
            None => {
                emitted_local_assignment_adds(ground, f, s, assignment);
            },
            Some(_) => {
                match target_of_assignment(type_of_target(f, s.locals, assignment.name@)) {
                    ElementTarget::Referenced { element, count, mutable } => {
                        emitted_referenced_assignment_adds(
                            ground,
                            f,
                            s,
                            assignment,
                            element,
                            count,
                            mutable,
                        );
                    },
                    ElementTarget::Other => {
                        emitted_local_assignment_adds(ground, f, s, assignment);
                    },
                }
            },
        }
    }
}

pub(crate) proof fn emitted_actions_adds<R: ConstantResolver, const P: usize, const N: usize>(
    ground: Emission,
    f: Frame<R, P, N>,
    s: Emission,
    actions: Seq<ConditionalAssignmentAction>,
    expected: RuntimeExpressionType,
    operand: Operand,
    index: int,
)
    ensures
        goes_on(ground, s, emitted_actions(f, s, actions, expected, operand, index), 0),
    decreases actions.len() - index,
{
    reveal(emitted_actions);
    if index < actions.len() {
        match actions[index] {
            ConditionalAssignmentAction::Local(local) => {
                emitted_local_adds(ground, f, s, local, operand, true);
            },
            ConditionalAssignmentAction::Assignment(assignment) => {
                emitted_assignment_adds(ground, f, s, assignment);
            },
            ConditionalAssignmentAction::Expression(statement) => {
                emitted_expression_statement_adds(ground, f, s, statement);
            },
            ConditionalAssignmentAction::Return(statement) => {
                emitted_return_adds(ground, f, s, statement, expected);
            },
        }
        let s = match actions[index] {
            ConditionalAssignmentAction::Local(local) => {
                emitted_local(f, s, local, operand, true)
            },
            ConditionalAssignmentAction::Assignment(assignment) => {
                emitted_assignment(f, s, assignment)
            },
            ConditionalAssignmentAction::Expression(statement) => {
                emitted_expression_statement(f, s, statement)
            },
            ConditionalAssignmentAction::Return(statement) => {
                emitted_return(f, s, statement, expected)
            },
        };
        emitted_actions_adds(ground, f, s, actions, expected, operand, index + 1);
    }
}

pub(crate) proof fn emitted_action_block_adds<R: ConstantResolver, const P: usize, const N: usize>(
    ground: Emission,
    f: Frame<R, P, N>,
    s: Emission,
    actions: Seq<ConditionalAssignmentAction>,
    expected: RuntimeExpressionType,
    operand: Operand,
)
    ensures
        goes_on(ground, s, emitted_action_block(f, s, actions, expected, operand), 0),
{
    reveal(emitted_action_block);
    let checkpoint = number_of_locals(s.locals);
    emitted_actions_adds(ground, f, s, actions, expected, operand, 0);
    let s = emitted_actions(f, s, actions, expected, operand, 0);
    emitted_scoped_cleanup_adds(ground, f, s, checkpoint);
}

pub(crate) proof fn emitted_assignment_branches_adds<R: ConstantResolver, const P: usize, const N: usize>(
    ground: Emission,
    f: Frame<R, P, N>,
    s: Emission,
    conditional: ConditionalAssignment,
    expected: RuntimeExpressionType,
    operand: Operand,
    index: int,
)
    ensures
        goes_on(ground, s, emitted_assignment_branches(f, s, conditional, expected, operand, index), 0),
    decreases conditional.branches@.len() - index,
{
    reveal(branch_place);
    reveal(place);
    reveal(emitted_assignment_branches);
    if index < conditional.branches.len() {
        match condition_of(
            f,
            s.locals,
            conditional.branches@[index].condition@,
            conditional.branches@[index].condition_span,
        ) {
            Err(error) => {},
            Ok(condition) => {
                emitted_test_adds(ground, f, s, condition);
                let s = emitted_test(f, s, condition);
                let otherwise = branch_place(s, 2);
                put_adds(ground, f, s, [0x0fu8, 0x84, 0, 0, 0, 0]@);
                let s = put(f, s, [0x0fu8, 0x84, 0, 0, 0, 0]@);
                emitted_action_block_adds(
                    ground,
                    f,
                    s,
                    conditional.branches@[index].actions@,
                    expected,
                    operand,
                );
                let s = emitted_action_block(f, s, conditional.branches@[index].actions@, expected, operand);
                let end = branch_place(s, 1);
                put_adds(ground, f, s, [0xe9u8, 0, 0, 0, 0]@);
                let s = put(f, s, [0xe9u8, 0, 0, 0, 0]@);
                landed_adds(ground, f, s, otherwise);
                let s = landed(f, s, otherwise);
                emitted_assignment_branches_adds(
                    ground,
                    f,
                    s,
                    conditional,
                    expected,
                    operand,
                    index + 1,
                );
                let s = emitted_assignment_branches(f, s, conditional, expected, operand, index + 1);
                landed_adds(ground, f, s, end);
            },
        }
    } else {
        emitted_action_block_adds(ground, f, s, conditional.else_actions@, expected, operand);
    }
}

pub(crate) proof fn emitted_conditional_assignment_adds<R: ConstantResolver, const P: usize, const N: usize>(
    ground: Emission,
    f: Frame<R, P, N>,
    s: Emission,
    conditional: ConditionalAssignment,
    expected: RuntimeExpressionType,
    operand: Operand,
)
    ensures
        goes_on(ground, s, emitted_conditional_assignment(f, s, conditional, expected, operand), 0),
{
    reveal(emitted_conditional_assignment);
    emitted_assignment_branches_adds(ground, f, s, conditional, expected, operand, 0);
}

pub(crate) proof fn emitted_loop_action_adds<R: ConstantResolver, const P: usize, const N: usize>(
    ground: Emission,
    f: Frame<R, P, N>,
    s: Emission,
    action: ConditionalLoopAction,
    operand: Operand,
)
    ensures
        goes_on(ground, s, emitted_loop_action(f, s, action, operand), 0),
{
    reveal(emitted_loop_action);
    match action {
        ConditionalLoopAction::Local(local) => {
            emitted_local_adds(ground, f, s, local, operand, true);
        },
        ConditionalLoopAction::Assignment(assignment) => {
            emitted_assignment_adds(ground, f, s, assignment);
        },
        ConditionalLoopAction::Expression(statement) => {
            emitted_expression_statement_adds(ground, f, s, statement);
        },
    }
}

pub(crate) proof fn emitted_loop_actions_adds<R: ConstantResolver, const P: usize, const N: usize>(
    ground: Emission,
    f: Frame<R, P, N>,
    s: Emission,
    actions: Seq<ConditionalLoopAction>,
    operand: Operand,
    index: int,
)
    ensures
        goes_on(ground, s, emitted_loop_actions(f, s, actions, operand, index), 0),
    decreases actions.len() - index,
{
    reveal(emitted_loop_actions);
    if index < actions.len() {
        emitted_loop_action_adds(ground, f, s, actions[index], operand);
        let s = emitted_loop_action(f, s, actions[index], operand);
        emitted_loop_actions_adds(ground, f, s, actions, operand, index + 1);
    }
}

pub(crate) proof fn emitted_terminal_adds<R: ConstantResolver, const P: usize, const N: usize>(
    ground: Emission,
    f: Frame<R, P, N>,
    s: Emission,
    terminal: Option<ConditionalLoopTerminal>,
    expected: RuntimeExpressionType,
    places: LoopPlaces,
    checkpoint: usize,
)
    ensures
        goes_on(ground, s, emitted_terminal(f, s, terminal, expected, places, checkpoint), 0),
{
    reveal(emitted_terminal);
    match terminal {
        Some(ConditionalLoopTerminal::Break) => {
            emitted_cleanup_to_adds(ground, f, s, places.checkpoint);
            let s = emitted_cleanup_to(f, s, places.checkpoint);
            left_loop_adds(ground, f, s);
        },
        Some(ConditionalLoopTerminal::Continue) => {
            emitted_cleanup_to_adds(ground, f, s, places.checkpoint);
            let s = emitted_cleanup_to(f, s, places.checkpoint);
            returned_to_adds(ground, f, s, places.start);
        },
        Some(ConditionalLoopTerminal::Return(statement)) => {
            emitted_return_adds(ground, f, s, statement, expected);
        },
        None => {
            emitted_cleanup_to_adds(ground, f, s, checkpoint);
        },
    }
    let s = match terminal {
        Some(ConditionalLoopTerminal::Break) => {
            let s = emitted_cleanup_to(f, s, places.checkpoint);
            left_loop(f, s)
        },
        Some(ConditionalLoopTerminal::Continue) => {
            let s = emitted_cleanup_to(f, s, places.checkpoint);
            returned_to(f, s, places.start)
        },
        Some(ConditionalLoopTerminal::Return(statement)) => {
            emitted_return(f, s, statement, expected)
        },
        None => {
            emitted_cleanup_to(f, s, checkpoint)
        },
    };
    truncated_adds(ground, f, s, checkpoint);
}

pub(crate) proof fn emitted_loop_block_adds<R: ConstantResolver, const P: usize, const N: usize>(
    ground: Emission,
    f: Frame<R, P, N>,
    s: Emission,
    actions: Seq<ConditionalLoopAction>,
    terminal: Option<ConditionalLoopTerminal>,
    expected: RuntimeExpressionType,
    operand: Operand,
    places: LoopPlaces,
)
    ensures
        goes_on(ground, s, emitted_loop_block(f, s, actions, terminal, expected, operand, places), 0),
{
    reveal(emitted_loop_block);
    let checkpoint = number_of_locals(s.locals);
    emitted_loop_actions_adds(ground, f, s, actions, operand, 0);
    let s = emitted_loop_actions(f, s, actions, operand, 0);
    emitted_terminal_adds(ground, f, s, terminal, expected, places, checkpoint);
}

pub(crate) proof fn emitted_else_arms_adds<R: ConstantResolver, const P: usize, const N: usize>(
    ground: Emission,
    f: Frame<R, P, N>,
    s: Emission,
    arms: Seq<ConditionalLoopElseArm>,
    expected: RuntimeExpressionType,
    operand: Operand,
    places: LoopPlaces,
    index: int,
)
    ensures
        goes_on(ground, s, emitted_else_arms(f, s, arms, expected, operand, places, index), 0),
    decreases arms.len() - index,
{
    reveal(branch_place);
    reveal(place);
    reveal(emitted_else_arms);
    if index < arms.len() {
        match arms[index].condition {
            Some(control) => {
                match condition_of(f, s.locals, control.condition@, control.condition_span) {
                    Err(error) => {},
                    Ok(condition) => {
                        emitted_test_adds(ground, f, s, condition);
                        let s = emitted_test(f, s, condition);
                        let otherwise = branch_place(s, 2);
                        put_adds(ground, f, s, [0x0fu8, 0x84, 0, 0, 0, 0]@);
                        let s = put(f, s, [0x0fu8, 0x84, 0, 0, 0, 0]@);
                        emitted_loop_block_adds(
                            ground,
                            f,
                            s,
                            arms[index].actions@,
                            arms[index].terminal,
                            expected,
                            operand,
                            places,
                        );
                        let s = emitted_loop_block(
                            f,
                            s,
                            arms[index].actions@,
                            arms[index].terminal,
                            expected,
                            operand,
                            places,
                        );
                        let end = branch_place(s, 1);
                        put_adds(ground, f, s, [0xe9u8, 0, 0, 0, 0]@);
                        let s = put(f, s, [0xe9u8, 0, 0, 0, 0]@);
                        landed_adds(ground, f, s, otherwise);
                        let s = landed(f, s, otherwise);
                        emitted_else_arms_adds(
                            ground,
                            f,
                            s,
                            arms,
                            expected,
                            operand,
                            places,
                            index + 1,
                        );
                        let s = emitted_else_arms(f, s, arms, expected, operand, places, index + 1);
                        landed_adds(ground, f, s, end);
                    },
                }
            },
            None => {
                emitted_loop_block_adds(
                    ground,
                    f,
                    s,
                    arms[index].actions@,
                    arms[index].terminal,
                    expected,
                    operand,
                    places,
                );
                let s = emitted_loop_block(
                    f,
                    s,
                    arms[index].actions@,
                    arms[index].terminal,
                    expected,
                    operand,
                    places,
                );
                let end = branch_place(s, 1);
                put_adds(ground, f, s, [0xe9u8, 0, 0, 0, 0]@);
                let s = put(f, s, [0xe9u8, 0, 0, 0, 0]@);
                landed_adds(ground, f, s, end);
            },
        }
    }
}

pub(crate) proof fn emitted_conditional_block_adds<R: ConstantResolver, const P: usize, const N: usize>(
    ground: Emission,
    f: Frame<R, P, N>,
    s: Emission,
    block: ConditionalLoopBlock,
    expected: RuntimeExpressionType,
    operand: Operand,
    places: LoopPlaces,
)
    ensures
        goes_on(ground, s, emitted_conditional_block(f, s, block, expected, operand, places), 0),
{
    reveal(branch_place);
    reveal(place);
    reveal(emitted_conditional_block);
    match condition_of(f, s.locals, block.condition@, block.condition_span) {
        Err(error) => {},
        Ok(condition) => {
            emitted_test_adds(ground, f, s, condition);
            let s = emitted_test(f, s, condition);
            let otherwise = branch_place(s, 2);
            put_adds(ground, f, s, [0x0fu8, 0x84, 0, 0, 0, 0]@);
            let s = put(f, s, [0x0fu8, 0x84, 0, 0, 0, 0]@);
            emitted_loop_block_adds(
                ground,
                f,
                s,
                block.actions@,
                block.terminal,
                expected,
                operand,
                places,
            );
            let s = emitted_loop_block(f, s, block.actions@, block.terminal, expected, operand, places);
            if block.else_arms.len() == 0 {
                landed_adds(ground, f, s, otherwise);
            } else {
                let end = branch_place(s, 1);
                put_adds(ground, f, s, [0xe9u8, 0, 0, 0, 0]@);
                let s = put(f, s, [0xe9u8, 0, 0, 0, 0]@);
                landed_adds(ground, f, s, otherwise);
                let s = landed(f, s, otherwise);
                emitted_else_arms_adds(
                    ground,
                    f,
                    s,
                    block.else_arms@,
                    expected,
                    operand,
                    places,
                    0,
                );
                let s = emitted_else_arms(f, s, block.else_arms@, expected, operand, places, 0);
                landed_adds(ground, f, s, end);
            }
        },
    }
}

pub(crate) proof fn emitted_way_out_adds<R: ConstantResolver, const P: usize, const N: usize>(
    ground: Emission,
    f: Frame<R, P, N>,
    s: Emission,
    leaves: bool,
    target: NestedLoopControlTarget,
    places: LoopPlaces,
)
    ensures
        goes_on(ground, s, emitted_way_out(f, s, leaves, target, places), 0),
{
    reveal(emitted_way_out);
    if target == NestedLoopControlTarget::Outer {
        emitted_cleanup_to_adds(ground, f, s, places.checkpoint);
        let s = emitted_cleanup_to(f, s, places.checkpoint);
        if leaves {
            left_loop_adds(ground, f, s);
        } else {
            returned_to_adds(ground, f, s, places.start);
        }
    } else {
        emitted_cleanup_to_adds(ground, f, s, places.inner_checkpoint);
        let s = emitted_cleanup_to(f, s, places.inner_checkpoint);
        if leaves {
            left_inner_loop_adds(ground, f, s);
        } else {
            returned_to_adds(ground, f, s, places.inner_start);
        }
    }
}

pub(crate) proof fn emitted_unconditional_controls_adds<R: ConstantResolver, const P: usize, const N: usize>(
    ground: Emission,
    f: Frame<R, P, N>,
    s: Emission,
    controls: Seq<PlacedUnconditionalControl>,
    place: NestedLoopPlace,
    expected: RuntimeExpressionType,
    places: LoopPlaces,
    index: int,
)
    ensures
        goes_on(ground, s, emitted_unconditional_controls(f, s, controls, place, expected, places, index), 0),
    decreases controls.len() - index,
{
    reveal(emitted_unconditional_controls);
    if index < controls.len() {
        if controls[index].place == place {
            match controls[index].control {
                NestedLoopUnconditionalControl::Break(target) => {
                    emitted_way_out_adds(ground, f, s, true, target, places);
                },
                NestedLoopUnconditionalControl::Continue(target) => {
                    emitted_way_out_adds(ground, f, s, false, target, places);
                },
                NestedLoopUnconditionalControl::Return(statement) => {
                    emitted_return_adds(ground, f, s, statement, expected);
                },
            }
        }
        let s = if controls[index].place == place {
            match controls[index].control {
                NestedLoopUnconditionalControl::Break(target) => {
                    emitted_way_out(f, s, true, target, places)
                },
                NestedLoopUnconditionalControl::Continue(target) => {
                    emitted_way_out(f, s, false, target, places)
                },
                NestedLoopUnconditionalControl::Return(statement) => {
                    emitted_return(f, s, statement, expected)
                },
            }
        } else {
            s
        };
        emitted_unconditional_controls_adds(
            ground,
            f,
            s,
            controls,
            place,
            expected,
            places,
            index + 1,
        );
    }
}

pub(crate) proof fn emitted_conditional_control_adds<R: ConstantResolver, const P: usize, const N: usize>(
    ground: Emission,
    f: Frame<R, P, N>,
    s: Emission,
    control: ConditionalLoopControl,
    leaves: bool,
    target: NestedLoopControlTarget,
    places: LoopPlaces,
)
    ensures
        goes_on(ground, s, emitted_conditional_control(f, s, control, leaves, target, places), 0),
{
    reveal(branch_place);
    reveal(place);
    reveal(emitted_conditional_control);
    match condition_of(f, s.locals, control.condition@, control.condition_span) {
        Err(error) => {},
        Ok(condition) => {
            emitted_test_adds(ground, f, s, condition);
            let s = emitted_test(f, s, condition);
            let skip = branch_place(s, 2);
            put_adds(ground, f, s, [0x0fu8, 0x84, 0, 0, 0, 0]@);
            let s = put(f, s, [0x0fu8, 0x84, 0, 0, 0, 0]@);
            emitted_way_out_adds(ground, f, s, leaves, target, places);
            let s = emitted_way_out(f, s, leaves, target, places);
            landed_adds(ground, f, s, skip);
        },
    }
}

pub(crate) proof fn emitted_conditional_controls_adds<R: ConstantResolver, const P: usize, const N: usize>(
    ground: Emission,
    f: Frame<R, P, N>,
    s: Emission,
    controls: Seq<PlacedConditionalControl>,
    place: NestedLoopPlace,
    leaves: bool,
    places: LoopPlaces,
    index: int,
)
    ensures
        goes_on(ground, s, emitted_conditional_controls(f, s, controls, place, leaves, places, index), 0),
    decreases controls.len() - index,
{
    reveal(emitted_conditional_controls);
    if index < controls.len() {
        if controls[index].place == place {
            emitted_conditional_control_adds(
                ground,
                f,
                s,
                controls[index].control,
                leaves,
                controls[index].target,
                places,
            );
        }
        let s = if controls[index].place == place {
            emitted_conditional_control(f, s, controls[index].control, leaves, controls[index].target, places)
        } else {
            s
        };
        emitted_conditional_controls_adds(
            ground,
            f,
            s,
            controls,
            place,
            leaves,
            places,
            index + 1,
        );
    }
}

pub(crate) proof fn emitted_placed_returns_adds<R: ConstantResolver, const P: usize, const N: usize>(
    ground: Emission,
    f: Frame<R, P, N>,
    s: Emission,
    placed: Seq<PlacedConditionalReturn>,
    place: NestedLoopPlace,
    expected: RuntimeExpressionType,
    index: int,
)
    ensures
        goes_on(ground, s, emitted_placed_returns(f, s, placed, place, expected, index), 0),
    decreases placed.len() - index,
{
    reveal(emitted_placed_returns);
    if index < placed.len() {
        if placed[index].place == place {
            emitted_conditional_return_adds(ground, f, s, placed[index].conditional, expected);
        }
        let s = if placed[index].place == place {
            emitted_conditional_return(f, s, placed[index].conditional, expected)
        } else {
            s
        };
        emitted_placed_returns_adds(ground, f, s, placed, place, expected, index + 1);
    }
}

pub(crate) proof fn emitted_nested_controls_adds<R: ConstantResolver, const P: usize, const N: usize>(
    ground: Emission,
    f: Frame<R, P, N>,
    s: Emission,
    block: NestedLoopBlock,
    action_index: usize,
    count: usize,
    order: usize,
    expected: RuntimeExpressionType,
    places: LoopPlaces,
)
    ensures
        goes_on(ground, s, emitted_nested_controls(f, s, block, action_index, count, order, expected, places), 0),
    decreases count - order,
{
    reveal(emitted_nested_controls);
    if order < count {
        let place = NestedLoopPlace { action_index, control_order: order };
        emitted_unconditional_controls_adds(
            ground,
            f,
            s,
            block.unconditional_controls@,
            place,
            expected,
            places,
            0,
        );
        let s = emitted_unconditional_controls(
            f,
            s,
            block.unconditional_controls@,
            place,
            expected,
            places,
            0,
        );
        emitted_conditional_controls_adds(
            ground,
            f,
            s,
            block.conditional_breaks@,
            place,
            true,
            places,
            0,
        );
        let s = emitted_conditional_controls(f, s, block.conditional_breaks@, place, true, places, 0);
        emitted_placed_returns_adds(ground, f, s, block.conditional_returns@, place, expected, 0);
        let s = emitted_placed_returns(f, s, block.conditional_returns@, place, expected, 0);
        emitted_conditional_controls_adds(
            ground,
            f,
            s,
            block.conditional_continues@,
            place,
            false,
            places,
            0,
        );
        let s = emitted_conditional_controls(f, s, block.conditional_continues@, place, false, places, 0);
        emitted_nested_controls_adds(
            ground,
            f,
            s,
            block,
            action_index,
            count,
            (order + 1) as usize,
            expected,
            places,
        );
    }
}

pub(crate) proof fn emitted_nested_actions_adds<R: ConstantResolver, const P: usize, const N: usize>(
    ground: Emission,
    f: Frame<R, P, N>,
    s: Emission,
    block: NestedLoopBlock,
    count: usize,
    index: int,
    expected: RuntimeExpressionType,
    operand: Operand,
    places: LoopPlaces,
)
    ensures
        goes_on(ground, s, emitted_nested_actions(f, s, block, count, index, expected, operand, places), 0),
    decreases block.actions@.len() - index,
{
    reveal(emitted_nested_actions);
    emitted_nested_controls_adds(ground, f, s, block, index as usize, count, 0, expected, places);
    let s = emitted_nested_controls(f, s, block, index as usize, count, 0, expected, places);
    if index < block.actions.len() {
        emitted_loop_action_adds(ground, f, s, block.actions@[index], operand);
        let s = emitted_loop_action(f, s, block.actions@[index], operand);
        emitted_nested_actions_adds(
            ground,
            f,
            s,
            block,
            count,
            index + 1,
            expected,
            operand,
            places,
        );
    }
}

pub(crate) proof fn emitted_nested_body_adds<R: ConstantResolver, const P: usize, const N: usize>(
    ground: Emission,
    f: Frame<R, P, N>,
    s: Emission,
    block: NestedLoopBlock,
    expected: RuntimeExpressionType,
    operand: Operand,
    places: LoopPlaces,
)
    requires
        ground.inner_exits.len() == 0,
    ensures
        goes_on(ground, s, emitted_nested_body(f, s, block, expected, operand, places), 1),
{
    reveal(emitted_nested_body);
    match number_of_controls(block) {
        None => {},
        Some(count) => {
            emitted_nested_actions_adds(ground, f, s, block, count, 0, expected, operand, places);
            let s = emitted_nested_actions(f, s, block, count, 0, expected, operand, places);
            emitted_cleanup_to_adds(ground, f, s, places.inner_checkpoint);
            let s = emitted_cleanup_to(f, s, places.inner_checkpoint);
            truncated_adds(ground, f, s, places.inner_checkpoint);
            let s = truncated(f, s, places.inner_checkpoint);
            if block.unconditional_controls.len() == 0 {
                returned_to_adds(ground, f, s, places.inner_start);
            }
            let s = if block.unconditional_controls.len() == 0 {
                returned_to(f, s, places.inner_start)
            } else {
                s
            };
            ended_inner_loop_adds(ground, f, s);
        },
    }
}

/// A loop in a loop.
pub(crate) proof fn emitted_nested_block_adds<R: ConstantResolver, const P: usize, const N: usize>(
    ground: Emission,
    f: Frame<R, P, N>,
    s: Emission,
    block: NestedLoopBlock,
    expected: RuntimeExpressionType,
    operand: Operand,
    outer: LoopPlaces,
)
    ensures
        goes_on(ground, s, emitted_nested_block(f, s, block, expected, operand, outer), 1),
{
    reveal(branch_place);
    reveal(place);
    reveal(emitted_nested_block);
    let after = emitted_nested_block(f, s, block, expected, operand, outer);
    let inner_start = place(s);
    let places = LoopPlaces {
        start: outer.start,
        checkpoint: outer.checkpoint,
        inner_start,
        inner_checkpoint: number_of_locals(s.locals),
    };
    let entered = entered_inner_loop(f, s);
    if s.failure is None {
        nothing_is_added(entered);
    }
    match block.entry_condition {
        Some(control) => {
            match condition_of(f, s.locals, control.condition@, control.condition_span) {
                Err(error) => {},
                Ok(condition) => {
                    emitted_test_adds(entered, f, entered, condition);
                    let tested = emitted_test(f, entered, condition);
                    let end = branch_place(tested, 2);
                    put_adds(entered, f, tested, [0x0fu8, 0x84, 0, 0, 0, 0]@);
                    put_grows(f, tested, [0x0fu8, 0x84, 0, 0, 0, 0]@);
                    let left = put(f, tested, [0x0fu8, 0x84, 0, 0, 0, 0]@);
                    emitted_nested_body_adds(entered, f, left, block, expected, operand, places);
                    let done = emitted_nested_body(f, left, block, expected, operand, places);
                    landed_adds(entered, f, done, end);
                },
            }
        },
        None => {
            emitted_nested_body_adds(entered, f, entered, block, expected, operand, places);
        },
    }
    if after.failure is None {
        assert(s.failure is None && added(entered, after) && kept(s.exits, after.exits));
        if added(ground, s) {
            inner_loop_is_added(ground, s, after);
        }
        if kept(ground.exits, s.exits) {
            reveal(kept);
        }
    }
}


pub(crate) proof fn emitted_loop_control_adds<R: ConstantResolver, const P: usize, const N: usize>(
    ground: Emission,
    f: Frame<R, P, N>,
    s: Emission,
    control: ConditionalLoopControl,
    leaves: bool,
    places: LoopPlaces,
)
    ensures
        goes_on(ground, s, emitted_loop_control(f, s, control, leaves, places), 0),
{
    reveal(emitted_loop_control);
    emitted_conditional_control_adds(
        ground,
        f,
        s,
        control,
        leaves,
        NestedLoopControlTarget::Outer,
        places,
    );
}

pub(crate) proof fn emitted_loop_operation_adds<R: ConstantResolver, const P: usize, const N: usize>(
    ground: Emission,
    f: Frame<R, P, N>,
    s: Emission,
    operation: LoopOperation,
    expected: RuntimeExpressionType,
    operand: Operand,
    places: LoopPlaces,
)
    ensures
        goes_on(ground, s, emitted_loop_operation(f, s, operation, expected, operand, places), 1),
{
    reveal(emitted_loop_operation);
    match operation {
        LoopOperation::Local(local) => {
            emitted_local_adds(ground, f, s, local, operand, true);
        },
        LoopOperation::Assignment(assignment) => {
            emitted_assignment_adds(ground, f, s, assignment);
        },
        LoopOperation::Expression(statement) => {
            emitted_expression_statement_adds(ground, f, s, statement);
        },
        LoopOperation::NestedUnitLoop => {},
        LoopOperation::NestedBlock(block) => {
            emitted_nested_block_adds(ground, f, s, block, expected, operand, places);
        },
        LoopOperation::ConditionalBlock(block) => {
            emitted_conditional_block_adds(ground, f, s, block, expected, operand, places);
        },
        LoopOperation::ConditionalBreak(control) => {
            emitted_loop_control_adds(ground, f, s, control, true, places);
        },
        LoopOperation::ConditionalContinue(control) => {
            emitted_loop_control_adds(ground, f, s, control, false, places);
        },
        LoopOperation::ConditionalReturn(conditional) => {
            emitted_conditional_return_adds(ground, f, s, conditional, expected);
        },
        LoopOperation::Break => {
            emitted_way_out_adds(ground, f, s, true, NestedLoopControlTarget::Outer, places);
        },
        LoopOperation::Continue => {
            emitted_way_out_adds(ground, f, s, false, NestedLoopControlTarget::Outer, places);
        },
        LoopOperation::Return(statement) => {
            emitted_return_adds(ground, f, s, statement, expected);
        },
    }
}

pub(crate) proof fn emitted_loop_operations_adds<R: ConstantResolver, const P: usize, const N: usize>(
    ground: Emission,
    f: Frame<R, P, N>,
    s: Emission,
    operations: Seq<LoopOperation>,
    expected: RuntimeExpressionType,
    operand: Operand,
    places: LoopPlaces,
    index: int,
)
    ensures
        goes_on(ground, s, emitted_loop_operations(f, s, operations, expected, operand, places, index), 1),
    decreases operations.len() - index,
{
    reveal(emitted_loop_operations);
    if index < operations.len() {
        emitted_loop_operation_adds(ground, f, s, operations[index], expected, operand, places);
        let s = emitted_loop_operation(f, s, operations[index], expected, operand, places);
        match operations[index] {
            LoopOperation::Return(_) => {},
            _ => {
                emitted_loop_operations_adds(
                    ground,
                    f,
                    s,
                    operations,
                    expected,
                    operand,
                    places,
                    index + 1,
                );
            },
        }
    }
}

pub(crate) proof fn emitted_loop_body_adds<R: ConstantResolver, const P: usize, const N: usize>(
    ground: Emission,
    f: Frame<R, P, N>,
    s: Emission,
    operations: Seq<LoopOperation>,
    expected: RuntimeExpressionType,
    operand: Operand,
    start: usize,
)
    requires
        ground.exits.len() == 0,
    ensures
        goes_on(ground, s, emitted_loop_body(f, s, operations, expected, operand, start), 1),
{
    reveal(emitted_loop_body);
    let places = LoopPlaces { start, checkpoint: number_of_locals(s.locals), inner_start: start, inner_checkpoint: number_of_locals(s.locals) };
    emitted_loop_operations_adds(ground, f, s, operations, expected, operand, places, 0);
    let s = emitted_loop_operations(f, s, operations, expected, operand, places, 0);
    if !ends_loop(operations, 0) {
        emitted_cleanup_to_adds(ground, f, s, places.checkpoint);
        let s = emitted_cleanup_to(f, s, places.checkpoint);
        returned_to_adds(ground, f, s, start);
    }
    let s = if !ends_loop(operations, 0) {
        let s = emitted_cleanup_to(f, s, places.checkpoint);
        returned_to(f, s, start)
    } else {
        s
    };
    truncated_adds(ground, f, s, places.checkpoint);
    let s = truncated(f, s, places.checkpoint);
    ended_loop_adds(ground, f, s);
}

/// A loop.
pub(crate) proof fn emitted_while_loop_adds<R: ConstantResolver, const P: usize, const N: usize>(
    ground: Emission,
    f: Frame<R, P, N>,
    s: Emission,
    statement: WhileLoop,
    expected: RuntimeExpressionType,
    operand: Operand,
)
    ensures
        goes_on(ground, s, emitted_while_loop(f, s, statement, expected, operand), 2),
{
    reveal(place);
    reveal(emitted_while_loop);
    let after = emitted_while_loop(f, s, statement, expected, operand);
    let start = place(s);
    let entered = entered_loop(f, s);
    if s.failure is None {
        nothing_is_added(entered);
    }
    match statement.condition {
        Some(control) => {
            match condition_of(f, s.locals, control.condition@, control.condition_span) {
                Err(error) => {},
                Ok(condition) => {
                    emitted_test_adds(entered, f, entered, condition);
                    let tested = emitted_test(f, entered, condition);
                    left_loop_on_zero_adds(entered, f, tested);
                    let left = left_loop_on_zero(f, tested);
                    emitted_loop_body_adds(
                        entered,
                        f,
                        left,
                        statement.operations@,
                        expected,
                        operand,
                        start,
                    );
                },
            }
        },
        None => {
            emitted_loop_body_adds(
                entered,
                f,
                entered,
                statement.operations@,
                expected,
                operand,
                start,
            );
        },
    }
    if after.failure is None {
        assert(s.failure is None && added(entered, after));
        if added(ground, s) {
            loop_is_added(ground, s, after);
        }
    }
}


pub(crate) proof fn emitted_while_loops_adds<R: ConstantResolver, const P: usize, const N: usize>(
    ground: Emission,
    f: Frame<R, P, N>,
    s: Emission,
    loops: Seq<WhileLoop>,
    expected: RuntimeExpressionType,
    operand: Operand,
    index: int,
)
    ensures
        goes_on(ground, s, emitted_while_loops(f, s, loops, expected, operand, index), 2),
    decreases loops.len() - index,
{
    reveal(emitted_while_loops);
    if index < loops.len() {
        emitted_while_loop_adds(ground, f, s, loops[index], expected, operand);
        let s = emitted_while_loop(f, s, loops[index], expected, operand);
        emitted_while_loops_adds(ground, f, s, loops, expected, operand, index + 1);
    }
}

pub(crate) proof fn emitted_statement_adds<R: ConstantResolver, const P: usize, const N: usize>(
    ground: Emission,
    f: Frame<R, P, N>,
    s: Emission,
    statement: BodyStatement,
    expected: RuntimeExpressionType,
    operand: Operand,
)
    ensures
        goes_on(ground, s, emitted_statement(f, s, statement, expected, operand), 2),
{
    reveal(emitted_statement);
    match statement {
        BodyStatement::Loop => {},
        BodyStatement::Local(local) => {
            emitted_local_adds(ground, f, s, local, operand, false);
        },
        BodyStatement::Assignment(assignment) => {
            emitted_assignment_adds(ground, f, s, assignment);
        },
        BodyStatement::ConditionalReturn(conditional) => {
            emitted_conditional_return_adds(ground, f, s, conditional, expected);
        },
        BodyStatement::ConditionalReturnElse(conditional) => {
            emitted_conditional_return_else_adds(ground, f, s, conditional, expected);
        },
        BodyStatement::ConditionalAssignment(conditional) => {
            emitted_conditional_assignment_adds(ground, f, s, conditional, expected, operand);
        },
        BodyStatement::Expression(statement) => {
            emitted_expression_statement_adds(ground, f, s, statement);
        },
        BodyStatement::Return(statement) => {
            emitted_return_adds(ground, f, s, statement, expected);
        },
    }
}

pub(crate) proof fn emitted_later_statements_adds<R: ConstantResolver, const P: usize, const N: usize>(
    ground: Emission,
    f: Frame<R, P, N>,
    s: Emission,
    statements: Seq<BodyStatement>,
    expected: RuntimeExpressionType,
    operand: Operand,
    index: int,
)
    ensures
        goes_on(ground, s, emitted_later_statements(f, s, statements, expected, operand, index), 2),
    decreases statements.len() - index,
{
    reveal(emitted_later_statements);
    if index < statements.len() {
        emitted_statement_adds(ground, f, s, statements[index], expected, operand);
        let s = emitted_statement(f, s, statements[index], expected, operand);
        emitted_later_statements_adds(ground, f, s, statements, expected, operand, index + 1);
    }
}

pub(crate) proof fn emitted_statements_adds<R: ConstantResolver, const P: usize, const N: usize>(
    ground: Emission,
    f: Frame<R, P, N>,
    s: Emission,
    body: FunctionBody,
    expected: RuntimeExpressionType,
    operand: Operand,
    index: int,
)
    ensures
        goes_on(ground, s, emitted_statements(f, s, body, expected, operand, index), 2),
    decreases body.statements@.len() - index,
{
    reveal(emitted_statements);
    if index < body.statements.len() {
        match body.statements@[index] {
            BodyStatement::Loop => {
                emitted_while_loops_adds(ground, f, s, body.while_loops@, expected, operand, 0);
                let s = emitted_while_loops(f, s, body.while_loops@, expected, operand, 0);
                emitted_later_statements_adds(
                    ground,
                    f,
                    s,
                    body.statements@,
                    expected,
                    operand,
                    index,
                );
            },
            statement => {
                emitted_statement_adds(ground, f, s, statement, expected, operand);
                let s = emitted_statement(f, s, statement, expected, operand);
                emitted_statements_adds(ground, f, s, body, expected, operand, index + 1);
            },
        }
    } else {
        emitted_while_loops_adds(ground, f, s, body.while_loops@, expected, operand, 0);
    }
}

pub(crate) proof fn emitted_tail_adds<R: ConstantResolver, const P: usize, const N: usize>(
    ground: Emission,
    f: Frame<R, P, N>,
    s: Emission,
    body: FunctionBody,
    expected: RuntimeExpressionType,
)
    ensures
        goes_on(ground, s, emitted_tail(f, s, body, expected), 0),
{
    reveal(emitted_tail);
    if !body.tail_diverges {
        match value_of_type(f, s.locals, body.tail@, body.tail_span, expected) {
            Err(error) => {},
            Ok(tree) => {
                emitted_typed_return_adds(ground, f, s, tree, expected);
            },
        }
    }
}

} // verus!
