//! Two runs beside each other: the code of statements.
use crate::codegen::error::CodegenErrorKind;
use crate::codegen::frame::{
    Frame, X86_64Abi, form_at, local_named, place_from,
};
use crate::codegen::runtime::{
    ArrayLayout, RuntimeArrayElementType, RuntimeExpressionType, array_layout,
    element_bytes, element_type, fat_reference, index_type, local_slots, sum_of,
    types_agree,
};
use crate::codegen::typing::{
    known_name, reference_source, typed,
};
use crate::codegen::emission::{
    Emission, branch_place, entered_inner_loop, entered_loop, failed, landed, left_loop,
    left_loop_on_zero, place, put, quad_bytes, raised, released, returned_to, slots_from,
    trapped, tree_size, truncated,
};
use crate::codegen::encoding::{
    allows_operator, excess, number_of_locals, operation_of_assignment,
};
use crate::codegen::instructions::{
    emitted_cleanup_bytes, emitted_cleanup_to, emitted_constant, emitted_identifier,
    emitted_identifier_address, emitted_indexed_address, emitted_indexed_store_address,
    emitted_local_element, emitted_local_element_store, emitted_moved_slots,
    emitted_packed_array, emitted_packed_word, emitted_prologue, emitted_reference_load,
    emitted_reference_store, emitted_result_elements, emitted_slice_length,
    emitted_slots_cleanup, emitted_stack_slot, emitted_store_stack_slot,
    emitted_string_range_boundaries,
};
use crate::codegen::selection::{
    IndexSource, RangeParts, known_index, range_parts, source_of_index,
};
use crate::codegen::values::{
    emitted_array, emitted_expression,
};
use crate::codegen::trees::{
    LoopPlaces, Operand, condition_of, empty_text, ends_loop, number_of_controls,
    tree_and_type, type_of_local, type_of_target, value_of_type,
};
use crate::codegen::assignments::{
    ElementTarget, problem_of_dereference, problem_of_operator, slot_of_result,
    target_of_address, target_of_assignment, width_of_change,
};
use crate::codegen::statements::{
    emitted_action_block, emitted_actions, emitted_array_assignment, emitted_assignment,
    emitted_assignment_branches, emitted_assignment_index, emitted_assignment_operation,
    emitted_assignment_value, emitted_body, emitted_conditional_assignment,
    emitted_conditional_block, emitted_conditional_control, emitted_conditional_controls,
    emitted_conditional_return, emitted_conditional_return_else, emitted_counted_range,
    emitted_dereference_assignment, emitted_dereference_store, emitted_element_index,
    emitted_else_arms, emitted_expression_statement, emitted_indexed_assignment,
    emitted_indexed_store, emitted_later_statements, emitted_local,
    emitted_local_assignment, emitted_local_value, emitted_loop_action,
    emitted_loop_actions, emitted_loop_block, emitted_loop_body, emitted_loop_control,
    emitted_loop_operation, emitted_loop_operations, emitted_nested_actions,
    emitted_nested_block, emitted_nested_body, emitted_nested_controls, emitted_new_local,
    emitted_operated_value, emitted_placed_returns, emitted_range_length,
    emitted_range_order, emitted_range_result, emitted_range_slice, emitted_range_start,
    emitted_referenced_assignment, emitted_referenced_store, emitted_referenced_value,
    emitted_result_transport, emitted_return, emitted_return_branches,
    emitted_scalar_assignment, emitted_slice_assignment_index, emitted_slice_replacement,
    emitted_slice_result, emitted_slice_return, emitted_slice_value, emitted_sliced_range,
    emitted_statement, emitted_statements, emitted_tail, emitted_terminal, emitted_test,
    emitted_typed_return, emitted_unconditional_controls, emitted_way_out,
    emitted_while_loop, emitted_while_loops, emitted_whole_assignment, emitted_whole_store,
};
use crate::expression::{
    ConstantResolver, ExprId, Form, MAX_ARRAY_ELEMENTS, MAX_EXPRESSION_DEPTH, Tree,
};
use crate::function::{
    Assignment, AssignmentIndex, AssignmentOperator, BodyStatement, ConditionalAssignment,
    ConditionalAssignmentAction, ConditionalLoopAction, ConditionalLoopBlock,
    ConditionalLoopControl, ConditionalLoopElseArm, ConditionalLoopTerminal,
    ConditionalReturn, ConditionalReturnElse, ExpressionStatement, FunctionBody,
    LocalBinding, LoopOperation, LoopReturn, NestedLoopBlock, NestedLoopControlTarget,
    NestedLoopPlace, NestedLoopUnconditionalControl, PlacedConditionalControl,
    PlacedConditionalReturn, PlacedUnconditionalControl, WhileLoop,
};
use crate::integer::IntegerType;
use crate::codegen::twins::{
    ended_inner_loop_twins, ended_loop_twins, finished_twins, follow, landed_twins,
    left_inner_loop_twins, left_loop_on_zero_twins, left_loop_twins, loops_alike, put_twins,
    raised_twins, released_twins, returned_to_twins, same_code, trapped_twins,
    truncated_twins, twins, with_local_twins,
};
use crate::codegen::twin_instructions::{
    emitted_binary_twins, emitted_cleanup_bytes_twins, emitted_cleanup_to_twins,
    emitted_constant_twins, emitted_epilogue_twins, emitted_identifier_address_twins,
    emitted_identifier_twins, emitted_indexed_address_twins,
    emitted_indexed_store_address_twins, emitted_local_element_store_twins,
    emitted_local_element_twins, emitted_moved_slots_twins, emitted_packed_array_twins,
    emitted_packed_word_twins, emitted_prologue_twins, emitted_reference_load_twins,
    emitted_reference_store_twins, emitted_result_elements_twins,
    emitted_scoped_cleanup_twins, emitted_slice_length_twins, emitted_slots_cleanup_twins,
    emitted_stack_slot_twins, emitted_store_stack_slot_twins,
    emitted_string_range_boundaries_twins,
};
use crate::codegen::twin_values::{
    emitted_array_twins, emitted_expression_twins,
};
use vstd::prelude::*;

verus! {

pub(crate) proof fn emitted_range_start_twins<R: ConstantResolver, const P: usize, const N: usize>(
    f: Frame<R, P, N>,
    s1: Emission,
    s2: Emission,
    tree: Tree,
    start: Option<ExprId>,
    depth: int,
    fuel: int,
)
    requires
        twins(s1, s2),
    ensures
        follow(
            s1,
            s2,
            emitted_range_start(f, s1, tree, start, depth, fuel),
            emitted_range_start(f, s2, tree, start, depth, fuel),
        ),
{
    reveal(emitted_range_start);
    match start {
        Some(start) => {
            emitted_expression_twins(f, s1, s2, tree, start, depth + 1, fuel);
        },
        None => {
            put_twins(f, s1, s2, [0x31u8, 0xc0]@);
        },
    }
    let s1 = match start {
        Some(start) => {
            emitted_expression(f, s1, tree, start, depth + 1, fuel)
        },
        None => {
            put(f, s1, [0x31u8, 0xc0]@)
        },
    };
    let s2 = match start {
        Some(start) => {
            emitted_expression(f, s2, tree, start, depth + 1, fuel)
        },
        None => {
            put(f, s2, [0x31u8, 0xc0]@)
        },
    };
    put_twins(f, s1, s2, [0x50u8]@);
    let s1 = put(f, s1, [0x50u8]@);
    let s2 = put(f, s2, [0x50u8]@);
    raised_twins(f, s1, s2, 1);
}

pub(crate) proof fn emitted_range_order_twins<R: ConstantResolver, const P: usize, const N: usize>(
    f: Frame<R, P, N>,
    s1: Emission,
    s2: Emission,
    inclusive: bool,
)
    requires
        twins(s1, s2),
    ensures
        follow(
            s1,
            s2,
            emitted_range_order(f, s1, inclusive),
            emitted_range_order(f, s2, inclusive),
        ),
{
    reveal(emitted_range_order);
    if inclusive {
        put_twins(f, s1, s2, [0x48u8, 0x83, 0xc0, 0x01]@);
        let s1 = put(f, s1, [0x48u8, 0x83, 0xc0, 0x01]@);
        let s2 = put(f, s2, [0x48u8, 0x83, 0xc0, 0x01]@);
        trapped_twins(f, s1, s2, 0x82);
    }
    let s1 = if inclusive {
        let s1 = put(f, s1, [0x48u8, 0x83, 0xc0, 0x01]@);
        trapped(f, s1, 0x82)
    } else {
        s1
    };
    let s2 = if inclusive {
        let s2 = put(f, s2, [0x48u8, 0x83, 0xc0, 0x01]@);
        trapped(f, s2, 0x82)
    } else {
        s2
    };
    put_twins(f, s1, s2, [0x48u8, 0x8b, 0x0c, 0x24, 0x48, 0x39, 0xc1]@);
    let s1 = put(f, s1, [0x48u8, 0x8b, 0x0c, 0x24, 0x48, 0x39, 0xc1]@);
    let s2 = put(f, s2, [0x48u8, 0x8b, 0x0c, 0x24, 0x48, 0x39, 0xc1]@);
    trapped_twins(f, s1, s2, 0x87);
}

pub(crate) proof fn emitted_range_length_twins<R: ConstantResolver, const P: usize, const N: usize>(
    f: Frame<R, P, N>,
    s1: Emission,
    s2: Emission,
)
    requires
        twins(s1, s2),
    ensures
        follow(
            s1,
            s2,
            emitted_range_length(f, s1),
            emitted_range_length(f, s2),
        ),
{
    reveal(emitted_range_length);
    put_twins(f, s1, s2, [0x48u8, 0x39, 0xd0]@);
    let s1 = put(f, s1, [0x48u8, 0x39, 0xd0]@);
    let s2 = put(f, s2, [0x48u8, 0x39, 0xd0]@);
    trapped_twins(f, s1, s2, 0x87);
    let s1 = trapped(f, s1, 0x87);
    let s2 = trapped(f, s2, 0x87);
    put_twins(f, s1, s2, [0x48u8, 0x29, 0xc8, 0x50]@);
    let s1 = put(f, s1, [0x48u8, 0x29, 0xc8, 0x50]@);
    let s2 = put(f, s2, [0x48u8, 0x29, 0xc8, 0x50]@);
    raised_twins(f, s1, s2, 1);
}

pub(crate) proof fn emitted_counted_range_twins<R: ConstantResolver, const P: usize, const N: usize>(
    f: Frame<R, P, N>,
    s1: Emission,
    s2: Emission,
    tree: Tree,
    parts: RangeParts,
    count: usize,
    depth: int,
    fuel: int,
)
    requires
        twins(s1, s2),
    ensures
        follow(
            s1,
            s2,
            emitted_counted_range(f, s1, tree, parts, count, depth, fuel),
            emitted_counted_range(f, s2, tree, parts, count, depth, fuel),
        ),
{
    reveal(emitted_counted_range);
    emitted_range_start_twins(f, s1, s2, tree, parts.start, depth, fuel);
    let s1 = emitted_range_start(f, s1, tree, parts.start, depth, fuel);
    let s2 = emitted_range_start(f, s2, tree, parts.start, depth, fuel);
    match parts.end {
        Some(end) => {
            emitted_expression_twins(f, s1, s2, tree, end, depth + 1, fuel);
        },
        None => {
            emitted_constant_twins(f, s1, s2, count as u64);
        },
    }
    let s1 = match parts.end {
        Some(end) => {
            emitted_expression(f, s1, tree, end, depth + 1, fuel)
        },
        None => {
            emitted_constant(f, s1, count as u64)
        },
    };
    let s2 = match parts.end {
        Some(end) => {
            emitted_expression(f, s2, tree, end, depth + 1, fuel)
        },
        None => {
            emitted_constant(f, s2, count as u64)
        },
    };
    emitted_range_order_twins(f, s1, s2, parts.inclusive);
    let s1 = emitted_range_order(f, s1, parts.inclusive);
    let s2 = emitted_range_order(f, s2, parts.inclusive);
    put_twins(f, s1, s2, [0x48u8, 0xba]@);
    let s1 = put(f, s1, [0x48u8, 0xba]@);
    let s2 = put(f, s2, [0x48u8, 0xba]@);
    put_twins(f, s1, s2, quad_bytes(count as u64 as int));
    let s1 = put(f, s1, quad_bytes(count as u64 as int));
    let s2 = put(f, s2, quad_bytes(count as u64 as int));
    emitted_range_length_twins(f, s1, s2);
}

pub(crate) proof fn emitted_sliced_range_twins<R: ConstantResolver, const P: usize, const N: usize>(
    f: Frame<R, P, N>,
    s1: Emission,
    s2: Emission,
    tree: Tree,
    parts: RangeParts,
    source: Seq<char>,
    depth: int,
    fuel: int,
)
    requires
        twins(s1, s2),
    ensures
        follow(
            s1,
            s2,
            emitted_sliced_range(f, s1, tree, parts, source, depth, fuel),
            emitted_sliced_range(f, s2, tree, parts, source, depth, fuel),
        ),
{
    reveal(emitted_sliced_range);
    emitted_range_start_twins(f, s1, s2, tree, parts.start, depth, fuel);
    let s1 = emitted_range_start(f, s1, tree, parts.start, depth, fuel);
    let s2 = emitted_range_start(f, s2, tree, parts.start, depth, fuel);
    match parts.end {
        Some(end) => {
            emitted_expression_twins(f, s1, s2, tree, end, depth + 1, fuel);
        },
        None => {
            emitted_slice_length_twins(f, s1, s2, source);
        },
    }
    let s1 = match parts.end {
        Some(end) => {
            emitted_expression(f, s1, tree, end, depth + 1, fuel)
        },
        None => {
            emitted_slice_length(f, s1, source)
        },
    };
    let s2 = match parts.end {
        Some(end) => {
            emitted_expression(f, s2, tree, end, depth + 1, fuel)
        },
        None => {
            emitted_slice_length(f, s2, source)
        },
    };
    emitted_range_order_twins(f, s1, s2, parts.inclusive);
    let s1 = emitted_range_order(f, s1, parts.inclusive);
    let s2 = emitted_range_order(f, s2, parts.inclusive);
    put_twins(f, s1, s2, [0x50u8]@);
    let s1 = put(f, s1, [0x50u8]@);
    let s2 = put(f, s2, [0x50u8]@);
    raised_twins(f, s1, s2, 1);
    let s1 = raised(f, s1, 1);
    let s2 = raised(f, s2, 1);
    emitted_slice_length_twins(f, s1, s2, source);
    let s1 = emitted_slice_length(f, s1, source);
    let s2 = emitted_slice_length(f, s2, source);
    put_twins(f, s1, s2, [0x48u8, 0x89, 0xc2, 0x58]@);
    let s1 = put(f, s1, [0x48u8, 0x89, 0xc2, 0x58]@);
    let s2 = put(f, s2, [0x48u8, 0x89, 0xc2, 0x58]@);
    released_twins(f, s1, s2, 1);
    let s1 = released(f, s1, 1);
    let s2 = released(f, s2, 1);
    emitted_range_length_twins(f, s1, s2);
}

pub(crate) proof fn emitted_range_result_twins<R: ConstantResolver, const P: usize, const N: usize>(
    f: Frame<R, P, N>,
    s1: Emission,
    s2: Emission,
    element: RuntimeArrayElementType,
)
    requires
        twins(s1, s2),
    ensures
        follow(
            s1,
            s2,
            emitted_range_result(f, s1, element),
            emitted_range_result(f, s2, element),
        ),
{
    reveal(emitted_range_result);
    put_twins(f, s1, s2, [0x48u8, 0x8b, 0x4c, 0x24, 0x08]@);
    let s1 = put(f, s1, [0x48u8, 0x8b, 0x4c, 0x24, 0x08]@);
    let s2 = put(f, s2, [0x48u8, 0x8b, 0x4c, 0x24, 0x08]@);
    match element_bytes(element) {
        None => {},
        Some(bytes) => {
            if bytes == 2 {
                put_twins(f, s1, s2, [0x48u8, 0xc1, 0xe1, 0x01]@);
            } else {
                if bytes == 4 {
                    put_twins(f, s1, s2, [0x48u8, 0xc1, 0xe1, 0x02]@);
                } else {
                    if bytes == 8 {
                        put_twins(f, s1, s2, [0x48u8, 0xc1, 0xe1, 0x03]@);
                    }
                }
            }
            let s1 = if bytes == 2 {
                put(f, s1, [0x48u8, 0xc1, 0xe1, 0x01]@)
            } else if bytes == 4 {
                put(f, s1, [0x48u8, 0xc1, 0xe1, 0x02]@)
            } else if bytes == 8 {
                put(f, s1, [0x48u8, 0xc1, 0xe1, 0x03]@)
            } else if bytes != 0 && bytes != 1 {
                failed(f, s1, CodegenErrorKind::UnsupportedRuntimeType)
            } else {
                s1
            };
            let s2 = if bytes == 2 {
                put(f, s2, [0x48u8, 0xc1, 0xe1, 0x01]@)
            } else if bytes == 4 {
                put(f, s2, [0x48u8, 0xc1, 0xe1, 0x02]@)
            } else if bytes == 8 {
                put(f, s2, [0x48u8, 0xc1, 0xe1, 0x03]@)
            } else if bytes != 0 && bytes != 1 {
                failed(f, s2, CodegenErrorKind::UnsupportedRuntimeType)
            } else {
                s2
            };
            put_twins(
                f,
                s1,
                s2,
                [0x48u8, 0x01, 0xc8, 0x48, 0x89, 0xc2, 0x59, 0x48, 0x83, 0xc4, 0x08, 0x52, 0x51]@,
            );
            let s1 = put(
                f,
                s1,
                [0x48u8, 0x01, 0xc8, 0x48, 0x89, 0xc2, 0x59, 0x48, 0x83, 0xc4, 0x08, 0x52, 0x51]@,
            );
            let s2 = put(
                f,
                s2,
                [0x48u8, 0x01, 0xc8, 0x48, 0x89, 0xc2, 0x59, 0x48, 0x83, 0xc4, 0x08, 0x52, 0x51]@,
            );
            released_twins(f, s1, s2, 2);
        },
    }
}

pub(crate) proof fn emitted_range_slice_twins<R: ConstantResolver, const P: usize, const N: usize>(
    f: Frame<R, P, N>,
    s1: Emission,
    s2: Emission,
    tree: Tree,
    parts: RangeParts,
    depth: int,
    fuel: int,
)
    requires
        twins(s1, s2),
    ensures
        follow(
            s1,
            s2,
            emitted_range_slice(f, s1, tree, parts, depth, fuel),
            emitted_range_slice(f, s2, tree, parts, depth, fuel),
        ),
{
    reveal(emitted_range_slice);
    match typed(f, s1.locals, tree, parts.base, depth + 1) {
        Err(kind) => {},
        Ok(ty) => {
            match source_of_index(ty) {
                IndexSource::Referenced { element, count } => {
                    emitted_counted_range_twins(f, s1, s2, tree, parts, count, depth, fuel);
                    let s1 = emitted_counted_range(f, s1, tree, parts, count, depth, fuel);
                    let s2 = emitted_counted_range(f, s2, tree, parts, count, depth, fuel);
                    emitted_expression_twins(f, s1, s2, tree, parts.base, depth + 1, fuel);
                    let s1 = emitted_expression(f, s1, tree, parts.base, depth + 1, fuel);
                    let s2 = emitted_expression(f, s2, tree, parts.base, depth + 1, fuel);
                    emitted_range_result_twins(f, s1, s2, element);
                },
                IndexSource::Slice { element } => {
                    match reference_source(tree, parts.base) {
                        None => {},
                        Some(source) => {
                            emitted_sliced_range_twins(
                                f,
                                s1,
                                s2,
                                tree,
                                parts,
                                source,
                                depth,
                                fuel,
                            );
                            let s1 = emitted_sliced_range(f, s1, tree, parts, source, depth, fuel);
                            let s2 = emitted_sliced_range(f, s2, tree, parts, source, depth, fuel);
                            emitted_expression_twins(f, s1, s2, tree, parts.base, depth + 1, fuel);
                            let s1 = emitted_expression(f, s1, tree, parts.base, depth + 1, fuel);
                            let s2 = emitted_expression(f, s2, tree, parts.base, depth + 1, fuel);
                            emitted_range_result_twins(f, s1, s2, element);
                        },
                    }
                },
                IndexSource::Text => {
                    match reference_source(tree, parts.base) {
                        None => {},
                        Some(source) => {
                            emitted_sliced_range_twins(
                                f,
                                s1,
                                s2,
                                tree,
                                parts,
                                source,
                                depth,
                                fuel,
                            );
                            let s1 = emitted_sliced_range(f, s1, tree, parts, source, depth, fuel);
                            let s2 = emitted_sliced_range(f, s2, tree, parts, source, depth, fuel);
                            emitted_expression_twins(f, s1, s2, tree, parts.base, depth + 1, fuel);
                            let s1 = emitted_expression(f, s1, tree, parts.base, depth + 1, fuel);
                            let s2 = emitted_expression(f, s2, tree, parts.base, depth + 1, fuel);
                            emitted_string_range_boundaries_twins(f, s1, s2, source);
                            let s1 = emitted_string_range_boundaries(f, s1, source);
                            let s2 = emitted_string_range_boundaries(f, s2, source);
                            emitted_range_result_twins(
                                f,
                                s1,
                                s2,
                                RuntimeArrayElementType::Integer(Some(IntegerType::U8)),
                            );
                        },
                    }
                },
                IndexSource::Array { element, count } => {
                    match form_at(tree, parts.base) {
                        Some(Form::Identifier(name)) => {
                            emitted_counted_range_twins(
                                f,
                                s1,
                                s2,
                                tree,
                                parts,
                                count,
                                depth,
                                fuel,
                            );
                            let s1 = emitted_counted_range(f, s1, tree, parts, count, depth, fuel);
                            let s2 = emitted_counted_range(f, s2, tree, parts, count, depth, fuel);
                            emitted_identifier_address_twins(f, s1, s2, name);
                            let s1 = emitted_identifier_address(f, s1, name);
                            let s2 = emitted_identifier_address(f, s2, name);
                            emitted_range_result_twins(f, s1, s2, element);
                        },
                        _ => {},
                    }
                },
                IndexSource::Other => {},
            }
        },
    }
}

pub(crate) proof fn emitted_slice_value_twins<R: ConstantResolver, const P: usize, const N: usize>(
    f: Frame<R, P, N>,
    s1: Emission,
    s2: Emission,
    tree: Tree,
    id: ExprId,
    depth: int,
    fuel: int,
)
    requires
        twins(s1, s2),
    ensures
        follow(
            s1,
            s2,
            emitted_slice_value(f, s1, tree, id, depth, fuel),
            emitted_slice_value(f, s2, tree, id, depth, fuel),
        ),
    decreases fuel,
{
    reveal(branch_place);
    reveal(place);
    reveal(emitted_slice_value);
    if fuel <= 0 || depth >= MAX_EXPRESSION_DEPTH {
    } else {
        match form_at(tree, id) {
            Some(Form::If { condition, then_branch, else_branch }) => {
                emitted_expression_twins(f, s1, s2, tree, condition, depth + 1, fuel - 1);
                let s1 = emitted_expression(f, s1, tree, condition, depth + 1, fuel - 1);
                let s2 = emitted_expression(f, s2, tree, condition, depth + 1, fuel - 1);
                put_twins(f, s1, s2, [0x48u8, 0x85, 0xc0]@);
                let s1 = put(f, s1, [0x48u8, 0x85, 0xc0]@);
                let s2 = put(f, s2, [0x48u8, 0x85, 0xc0]@);
                let otherwise1 = branch_place(s1, 2);
                let otherwise2 = branch_place(s2, 2);
                put_twins(f, s1, s2, [0x0fu8, 0x84, 0, 0, 0, 0]@);
                let s1 = put(f, s1, [0x0fu8, 0x84, 0, 0, 0, 0]@);
                let s2 = put(f, s2, [0x0fu8, 0x84, 0, 0, 0, 0]@);
                emitted_slice_value_twins(f, s1, s2, tree, then_branch, depth + 1, fuel - 1);
                let s1 = emitted_slice_value(f, s1, tree, then_branch, depth + 1, fuel - 1);
                let s2 = emitted_slice_value(f, s2, tree, then_branch, depth + 1, fuel - 1);
                let end1 = branch_place(s1, 1);
                let end2 = branch_place(s2, 1);
                put_twins(f, s1, s2, [0xe9u8, 0, 0, 0, 0]@);
                let s1 = put(f, s1, [0xe9u8, 0, 0, 0, 0]@);
                let s2 = put(f, s2, [0xe9u8, 0, 0, 0, 0]@);
                landed_twins(f, s1, s2, otherwise1, otherwise2);
                let s1 = landed(f, s1, otherwise1);
                let s2 = landed(f, s2, otherwise2);
                emitted_slice_value_twins(f, s1, s2, tree, else_branch, depth + 1, fuel - 1);
                let s1 = emitted_slice_value(f, s1, tree, else_branch, depth + 1, fuel - 1);
                let s2 = emitted_slice_value(f, s2, tree, else_branch, depth + 1, fuel - 1);
                landed_twins(f, s1, s2, end1, end2);
            },
            _ => {
                match range_parts(tree, id) {
                    Some(parts) => {
                        emitted_range_slice_twins(f, s1, s2, tree, parts, depth, fuel);
                    },
                    None => {
                        match reference_source(tree, id) {
                            None => {},
                            Some(source) => {
                                emitted_expression_twins(f, s1, s2, tree, id, depth + 1, fuel);
                                let s1 = emitted_expression(f, s1, tree, id, depth + 1, fuel);
                                let s2 = emitted_expression(f, s2, tree, id, depth + 1, fuel);
                                put_twins(f, s1, s2, [0x50u8]@);
                                let s1 = put(f, s1, [0x50u8]@);
                                let s2 = put(f, s2, [0x50u8]@);
                                raised_twins(f, s1, s2, 1);
                                let s1 = raised(f, s1, 1);
                                let s2 = raised(f, s2, 1);
                                emitted_slice_length_twins(f, s1, s2, source);
                                let s1 = emitted_slice_length(f, s1, source);
                                let s2 = emitted_slice_length(f, s2, source);
                                released_twins(f, s1, s2, 1);
                                let s1 = released(f, s1, 1);
                                let s2 = released(f, s2, 1);
                                put_twins(f, s1, s2, [0x50u8]@);
                            },
                        }
                    },
                }
            },
        }
    }
}

pub(crate) proof fn emitted_slice_result_twins<R: ConstantResolver, const P: usize, const N: usize>(
    f: Frame<R, P, N>,
    s1: Emission,
    s2: Emission,
    stacked: bool,
)
    requires
        twins(s1, s2),
    ensures
        follow(
            s1,
            s2,
            emitted_slice_result(f, s1, stacked),
            emitted_slice_result(f, s2, stacked),
        ),
{
    reveal(emitted_slice_result);
    if f.abi == X86_64Abi::SystemV {
        put_twins(f, s1, s2, [0x48u8, 0x89, 0xc2, 0x48, 0x89, 0xc8]@);
    } else {
        put_twins(f, s1, s2, [0x49u8, 0x89, 0xc0]@);
        let s1 = put(f, s1, [0x49u8, 0x89, 0xc0]@);
        let s2 = put(f, s2, [0x49u8, 0x89, 0xc0]@);
        match slot_of_result(stacked, s1.temporaries, slots_from(s1.locals, 0), f.saved_parameter_slots) {
            None => {},
            Some(slot) => {
                emitted_stack_slot_twins(f, s1, s2, slot);
                let s1 = emitted_stack_slot(f, s1, slot);
                let s2 = emitted_stack_slot(f, s2, slot);
                put_twins(f, s1, s2, [0x48u8, 0x89, 0x08, 0x4c, 0x89, 0x40, 0x08]@);
            },
        }
    }
    let s1 = if f.abi == X86_64Abi::SystemV {
        put(f, s1, [0x48u8, 0x89, 0xc2, 0x48, 0x89, 0xc8]@)
    } else {
        let s1 = put(f, s1, [0x49u8, 0x89, 0xc0]@);
        match slot_of_result(stacked, s1.temporaries, slots_from(s1.locals, 0), f.saved_parameter_slots) {
            None => {
                failed(f, s1, CodegenErrorKind::OutputTooSmall)
            },
            Some(slot) => {
                let s1 = emitted_stack_slot(f, s1, slot);
                put(f, s1, [0x48u8, 0x89, 0x08, 0x4c, 0x89, 0x40, 0x08]@)
            },
        }
    };
    let s2 = if f.abi == X86_64Abi::SystemV {
        put(f, s2, [0x48u8, 0x89, 0xc2, 0x48, 0x89, 0xc8]@)
    } else {
        let s2 = put(f, s2, [0x49u8, 0x89, 0xc0]@);
        match slot_of_result(stacked, s2.temporaries, slots_from(s2.locals, 0), f.saved_parameter_slots) {
            None => {
                failed(f, s2, CodegenErrorKind::OutputTooSmall)
            },
            Some(slot) => {
                let s2 = emitted_stack_slot(f, s2, slot);
                put(f, s2, [0x48u8, 0x89, 0x08, 0x4c, 0x89, 0x40, 0x08]@)
            },
        }
    };
    if stacked {
        emitted_cleanup_bytes_twins(f, s1, s2, 16);
    }
    let s1 = if stacked {
        emitted_cleanup_bytes(f, s1, 16)
    } else {
        s1
    };
    let s2 = if stacked {
        emitted_cleanup_bytes(f, s2, 16)
    } else {
        s2
    };
    emitted_epilogue_twins(f, s1, s2);
}

pub(crate) proof fn emitted_slice_return_twins<R: ConstantResolver, const P: usize, const N: usize>(
    f: Frame<R, P, N>,
    s1: Emission,
    s2: Emission,
    tree: Tree,
    root: ExprId,
    fuel: int,
)
    requires
        twins(s1, s2),
    ensures
        follow(
            s1,
            s2,
            emitted_slice_return(f, s1, tree, root, fuel),
            emitted_slice_return(f, s2, tree, root, fuel),
        ),
    decreases fuel,
{
    reveal(branch_place);
    reveal(place);
    reveal(emitted_slice_return);
    if fuel <= 0 {
    } else {
        match form_at(tree, root) {
            Some(Form::If { condition, then_branch, else_branch }) => {
                emitted_expression_twins(f, s1, s2, tree, condition, 0, fuel - 1);
                let s1 = emitted_expression(f, s1, tree, condition, 0, fuel - 1);
                let s2 = emitted_expression(f, s2, tree, condition, 0, fuel - 1);
                put_twins(f, s1, s2, [0x48u8, 0x85, 0xc0]@);
                let s1 = put(f, s1, [0x48u8, 0x85, 0xc0]@);
                let s2 = put(f, s2, [0x48u8, 0x85, 0xc0]@);
                let otherwise1 = branch_place(s1, 2);
                let otherwise2 = branch_place(s2, 2);
                put_twins(f, s1, s2, [0x0fu8, 0x84, 0, 0, 0, 0]@);
                let s1 = put(f, s1, [0x0fu8, 0x84, 0, 0, 0, 0]@);
                let s2 = put(f, s2, [0x0fu8, 0x84, 0, 0, 0, 0]@);
                emitted_slice_return_twins(f, s1, s2, tree, then_branch, fuel - 1);
                let s1 = emitted_slice_return(f, s1, tree, then_branch, fuel - 1);
                let s2 = emitted_slice_return(f, s2, tree, then_branch, fuel - 1);
                landed_twins(f, s1, s2, otherwise1, otherwise2);
                let s1 = landed(f, s1, otherwise1);
                let s2 = landed(f, s2, otherwise2);
                emitted_slice_return_twins(f, s1, s2, tree, else_branch, fuel - 1);
            },
            _ => {
                match range_parts(tree, root) {
                    Some(parts) => {
                        emitted_range_slice_twins(f, s1, s2, tree, parts, 0, fuel);
                        let s1 = emitted_range_slice(f, s1, tree, parts, 0, fuel);
                        let s2 = emitted_range_slice(f, s2, tree, parts, 0, fuel);
                        emitted_stack_slot_twins(f, s1, s2, 1);
                        let s1 = emitted_stack_slot(f, s1, 1);
                        let s2 = emitted_stack_slot(f, s2, 1);
                        put_twins(f, s1, s2, [0x48u8, 0x89, 0xc1]@);
                        let s1 = put(f, s1, [0x48u8, 0x89, 0xc1]@);
                        let s2 = put(f, s2, [0x48u8, 0x89, 0xc1]@);
                        emitted_stack_slot_twins(f, s1, s2, 0);
                        let s1 = emitted_stack_slot(f, s1, 0);
                        let s2 = emitted_stack_slot(f, s2, 0);
                        emitted_slice_result_twins(f, s1, s2, true);
                    },
                    None => {
                        match reference_source(tree, root) {
                            None => {},
                            Some(source) => {
                                emitted_expression_twins(f, s1, s2, tree, root, 0, fuel);
                                let s1 = emitted_expression(f, s1, tree, root, 0, fuel);
                                let s2 = emitted_expression(f, s2, tree, root, 0, fuel);
                                put_twins(f, s1, s2, [0x48u8, 0x89, 0xc1]@);
                                let s1 = put(f, s1, [0x48u8, 0x89, 0xc1]@);
                                let s2 = put(f, s2, [0x48u8, 0x89, 0xc1]@);
                                emitted_slice_length_twins(f, s1, s2, source);
                                let s1 = emitted_slice_length(f, s1, source);
                                let s2 = emitted_slice_length(f, s2, source);
                                emitted_slice_result_twins(f, s1, s2, false);
                            },
                        }
                    },
                }
            },
        }
    }
}

pub(crate) proof fn emitted_result_transport_twins<R: ConstantResolver, const P: usize, const N: usize>(
    f: Frame<R, P, N>,
    s1: Emission,
    s2: Emission,
    layout: ArrayLayout,
    count: usize,
)
    requires
        twins(s1, s2),
    ensures
        follow(
            s1,
            s2,
            emitted_result_transport(f, s1, layout, count),
            emitted_result_transport(f, s2, layout, count),
        ),
{
    reveal(emitted_result_transport);
    if layout.words == 0 {
    } else {
        if f.uses_sret {
            match slot_of_result(false, s1.temporaries, slots_from(s1.locals, 0), f.saved_parameter_slots) {
                None => {},
                Some(slot) => {
                    emitted_stack_slot_twins(f, s1, s2, slot);
                    let s1 = emitted_stack_slot(f, s1, slot);
                    let s2 = emitted_stack_slot(f, s2, slot);
                    put_twins(f, s1, s2, [0x48u8, 0x89, 0xc2]@);
                    let s1 = put(f, s1, [0x48u8, 0x89, 0xc2]@);
                    let s2 = put(f, s2, [0x48u8, 0x89, 0xc2]@);
                    emitted_result_elements_twins(f, s1, s2, count, layout.element_bytes, 0);
                    let s1 = emitted_result_elements(f, s1, count, layout.element_bytes, 0);
                    let s2 = emitted_result_elements(f, s2, count, layout.element_bytes, 0);
                    put_twins(f, s1, s2, [0x48u8, 0x89, 0xd0]@);
                },
            }
        } else {
            if layout.words == 1 {
                emitted_packed_word_twins(f, s1, s2, count, layout.element_bytes, 0);
            } else {
                if f.abi == X86_64Abi::SystemV && layout.words == 2 {
                    emitted_packed_word_twins(f, s1, s2, count, layout.element_bytes, 1);
                    let s1 = emitted_packed_word(f, s1, count, layout.element_bytes, 1);
                    let s2 = emitted_packed_word(f, s2, count, layout.element_bytes, 1);
                    put_twins(f, s1, s2, [0x48u8, 0x89, 0xc1]@);
                    let s1 = put(f, s1, [0x48u8, 0x89, 0xc1]@);
                    let s2 = put(f, s2, [0x48u8, 0x89, 0xc1]@);
                    emitted_packed_word_twins(f, s1, s2, count, layout.element_bytes, 0);
                    let s1 = emitted_packed_word(f, s1, count, layout.element_bytes, 0);
                    let s2 = emitted_packed_word(f, s2, count, layout.element_bytes, 0);
                    put_twins(f, s1, s2, [0x48u8, 0x89, 0xca]@);
                }
            }
        }
    }
}

pub(crate) proof fn emitted_typed_return_twins<R: ConstantResolver, const P: usize, const N: usize>(
    f: Frame<R, P, N>,
    s1: Emission,
    s2: Emission,
    tree: Tree,
    expected: RuntimeExpressionType,
)
    requires
        twins(s1, s2),
    ensures
        follow(
            s1,
            s2,
            emitted_typed_return(f, s1, tree, expected),
            emitted_typed_return(f, s2, tree, expected),
        ),
{
    reveal(emitted_typed_return);
    if fat_reference(expected) {
        emitted_slice_return_twins(f, s1, s2, tree, tree.root, tree_size(tree));
    } else {
        match expected {
            RuntimeExpressionType::Array { count, .. } => {
                match array_layout(expected) {
                    None => {},
                    Some(layout) => {
                        emitted_array_twins(f, s1, s2, tree, tree.root, count, tree_size(tree));
                        let s1 = emitted_array(f, s1, tree, tree.root, count, tree_size(tree));
                        let s2 = emitted_array(f, s2, tree, tree.root, count, tree_size(tree));
                        emitted_result_transport_twins(f, s1, s2, layout, count);
                        let s1 = emitted_result_transport(f, s1, layout, count);
                        let s2 = emitted_result_transport(f, s2, layout, count);
                        released_twins(f, s1, s2, count);
                        let s1 = released(f, s1, count);
                        let s2 = released(f, s2, count);
                        emitted_slots_cleanup_twins(f, s1, s2, count);
                        let s1 = emitted_slots_cleanup(f, s1, count);
                        let s2 = emitted_slots_cleanup(f, s2, count);
                        emitted_epilogue_twins(f, s1, s2);
                    },
                }
            },
            _ => {
                emitted_expression_twins(f, s1, s2, tree, tree.root, 0, tree_size(tree));
                let s1 = emitted_expression(f, s1, tree, tree.root, 0, tree_size(tree));
                let s2 = emitted_expression(f, s2, tree, tree.root, 0, tree_size(tree));
                emitted_epilogue_twins(f, s1, s2);
            },
        }
    }
}

pub(crate) proof fn emitted_return_twins<R: ConstantResolver, const P: usize, const N: usize>(
    f: Frame<R, P, N>,
    s1: Emission,
    s2: Emission,
    statement: LoopReturn,
    expected: RuntimeExpressionType,
)
    requires
        twins(s1, s2),
    ensures
        follow(
            s1,
            s2,
            emitted_return(f, s1, statement, expected),
            emitted_return(f, s2, statement, expected),
        ),
{
    reveal(emitted_return);
    match value_of_type(f, s1.locals, statement.value@, statement.value_span, expected) {
        Err(error) => {},
        Ok(tree) => {
            emitted_typed_return_twins(f, s1, s2, tree, expected);
        },
    }
}

pub(crate) proof fn emitted_test_twins<R: ConstantResolver, const P: usize, const N: usize>(
    f: Frame<R, P, N>,
    s1: Emission,
    s2: Emission,
    tree: Tree,
)
    requires
        twins(s1, s2),
    ensures
        follow(
            s1,
            s2,
            emitted_test(f, s1, tree),
            emitted_test(f, s2, tree),
        ),
{
    reveal(emitted_test);
    emitted_expression_twins(f, s1, s2, tree, tree.root, 0, tree_size(tree));
    let s1 = emitted_expression(f, s1, tree, tree.root, 0, tree_size(tree));
    let s2 = emitted_expression(f, s2, tree, tree.root, 0, tree_size(tree));
    put_twins(f, s1, s2, [0x48u8, 0x85, 0xc0]@);
}

pub(crate) proof fn emitted_conditional_return_twins<R: ConstantResolver, const P: usize, const N: usize>(
    f: Frame<R, P, N>,
    s1: Emission,
    s2: Emission,
    conditional: ConditionalReturn,
    expected: RuntimeExpressionType,
)
    requires
        twins(s1, s2),
    ensures
        follow(
            s1,
            s2,
            emitted_conditional_return(f, s1, conditional, expected),
            emitted_conditional_return(f, s2, conditional, expected),
        ),
{
    reveal(branch_place);
    reveal(place);
    reveal(emitted_conditional_return);
    match condition_of(f, s1.locals, conditional.condition@, conditional.condition_span) {
        Err(error) => {},
        Ok(condition) => {
            match value_of_type(f, s1.locals, conditional.value@, conditional.value_span, expected) {
                Err(error) => {},
                Ok(tree) => {
                    emitted_test_twins(f, s1, s2, condition);
                    let s1 = emitted_test(f, s1, condition);
                    let s2 = emitted_test(f, s2, condition);
                    let skip1 = branch_place(s1, 2);
                    let skip2 = branch_place(s2, 2);
                    put_twins(f, s1, s2, [0x0fu8, 0x84, 0, 0, 0, 0]@);
                    let s1 = put(f, s1, [0x0fu8, 0x84, 0, 0, 0, 0]@);
                    let s2 = put(f, s2, [0x0fu8, 0x84, 0, 0, 0, 0]@);
                    emitted_typed_return_twins(f, s1, s2, tree, expected);
                    let s1 = emitted_typed_return(f, s1, tree, expected);
                    let s2 = emitted_typed_return(f, s2, tree, expected);
                    landed_twins(f, s1, s2, skip1, skip2);
                },
            }
        },
    }
}

pub(crate) proof fn emitted_return_branches_twins<R: ConstantResolver, const P: usize, const N: usize>(
    f: Frame<R, P, N>,
    s1: Emission,
    s2: Emission,
    branches: Seq<ConditionalReturn>,
    expected: RuntimeExpressionType,
    index: int,
)
    requires
        twins(s1, s2),
    ensures
        follow(
            s1,
            s2,
            emitted_return_branches(f, s1, branches, expected, index),
            emitted_return_branches(f, s2, branches, expected, index),
        ),
    decreases branches.len() - index,
{
    reveal(emitted_return_branches);
    if index < branches.len() {
        emitted_conditional_return_twins(f, s1, s2, branches[index], expected);
        let s1 = emitted_conditional_return(f, s1, branches[index], expected);
        let s2 = emitted_conditional_return(f, s2, branches[index], expected);
        emitted_return_branches_twins(f, s1, s2, branches, expected, index + 1);
    }
}

pub(crate) proof fn emitted_conditional_return_else_twins<R: ConstantResolver, const P: usize, const N: usize>(
    f: Frame<R, P, N>,
    s1: Emission,
    s2: Emission,
    conditional: ConditionalReturnElse,
    expected: RuntimeExpressionType,
)
    requires
        twins(s1, s2),
    ensures
        follow(
            s1,
            s2,
            emitted_conditional_return_else(f, s1, conditional, expected),
            emitted_conditional_return_else(f, s2, conditional, expected),
        ),
{
    reveal(emitted_conditional_return_else);
    emitted_return_branches_twins(f, s1, s2, conditional.branches@, expected, 0);
    let s1 = emitted_return_branches(f, s1, conditional.branches@, expected, 0);
    let s2 = emitted_return_branches(f, s2, conditional.branches@, expected, 0);
    match conditional.else_value {
        None => {},
        Some(value) => {
            emitted_return_twins(f, s1, s2, value, expected);
        },
    }
}

pub(crate) proof fn emitted_local_value_twins<R: ConstantResolver, const P: usize, const N: usize>(
    f: Frame<R, P, N>,
    s1: Emission,
    s2: Emission,
    tree: Tree,
    ty: RuntimeExpressionType,
)
    requires
        twins(s1, s2),
    ensures
        follow(
            s1,
            s2,
            emitted_local_value(f, s1, tree, ty),
            emitted_local_value(f, s2, tree, ty),
        ),
{
    reveal(emitted_local_value);
    if fat_reference(ty) {
        emitted_slice_value_twins(f, s1, s2, tree, tree.root, 0, tree_size(tree));
    } else {
        match ty {
            RuntimeExpressionType::Array { element, count } => {
                emitted_array_twins(f, s1, s2, tree, tree.root, count, tree_size(tree));
                let s1 = emitted_array(f, s1, tree, tree.root, count, tree_size(tree));
                let s2 = emitted_array(f, s2, tree, tree.root, count, tree_size(tree));
                emitted_packed_array_twins(f, s1, s2, element, count);
                let s1 = emitted_packed_array(f, s1, element, count);
                let s2 = emitted_packed_array(f, s2, element, count);
                released_twins(f, s1, s2, local_slots(ty));
            },
            _ => {
                emitted_expression_twins(f, s1, s2, tree, tree.root, 0, tree_size(tree));
                let s1 = emitted_expression(f, s1, tree, tree.root, 0, tree_size(tree));
                let s2 = emitted_expression(f, s2, tree, tree.root, 0, tree_size(tree));
                put_twins(f, s1, s2, [0x50u8]@);
            },
        }
    }
}

pub(crate) proof fn emitted_new_local_twins<R: ConstantResolver, const P: usize, const N: usize>(
    f: Frame<R, P, N>,
    s1: Emission,
    s2: Emission,
    local: LocalBinding,
    operand: Operand,
)
    requires
        twins(s1, s2),
    ensures
        follow(
            s1,
            s2,
            emitted_new_local(f, s1, local, operand),
            emitted_new_local(f, s2, local, operand),
        ),
{
    reveal(emitted_new_local);
    match tree_and_type(f, s1.locals, local.initializer@, local.initializer_span) {
        Err(error) => {},
        Ok((tree, initializer)) => {
            match type_of_local(f, local, initializer, operand) {
                Err(error) => {},
                Ok(ty) => {
                    if types_agree(initializer, ty) {
                        let previous1 = s1.width;
                        let previous2 = s2.width;
                        let s1 = Emission { width: width_of_change(ty, previous1), ..s1 };
                        let s2 = Emission { width: width_of_change(ty, previous2), ..s2 };
                        emitted_local_value_twins(f, s1, s2, tree, ty);
                        let s1 = emitted_local_value(f, s1, tree, ty);
                        let s2 = emitted_local_value(f, s2, tree, ty);
                        let s1 = Emission { width: previous1, ..s1 };
                        let s2 = Emission { width: previous2, ..s2 };
                        with_local_twins(f, s1, s2, local, ty);
                    }
                },
            }
        },
    }
}

pub(crate) proof fn emitted_local_twins<R: ConstantResolver, const P: usize, const N: usize>(
    f: Frame<R, P, N>,
    s1: Emission,
    s2: Emission,
    local: LocalBinding,
    operand: Operand,
    allow_shadowing: bool,
)
    requires
        twins(s1, s2),
    ensures
        follow(
            s1,
            s2,
            emitted_local(f, s1, local, operand, allow_shadowing),
            emitted_local(f, s2, local, operand, allow_shadowing),
        ),
{
    reveal(emitted_local);
    if number_of_locals(s1.locals) >= P {
    } else {
        if !allow_shadowing && known_name(f, s1.locals, local.name@) {
        } else {
            emitted_new_local_twins(f, s1, s2, local, operand);
        }
    }
}

pub(crate) proof fn emitted_expression_statement_twins<R: ConstantResolver, const P: usize, const N: usize>(
    f: Frame<R, P, N>,
    s1: Emission,
    s2: Emission,
    statement: ExpressionStatement,
)
    requires
        twins(s1, s2),
    ensures
        follow(
            s1,
            s2,
            emitted_expression_statement(f, s1, statement),
            emitted_expression_statement(f, s2, statement),
        ),
{
    reveal(emitted_expression_statement);
    if !empty_text(statement.expression@) {
        match tree_and_type(f, s1.locals, statement.expression@, statement.span) {
            Err(error) => {},
            Ok((tree, _)) => {
                emitted_expression_twins(f, s1, s2, tree, tree.root, 0, tree_size(tree));
            },
        }
    }
}

pub(crate) proof fn emitted_assignment_operation_twins<R: ConstantResolver, const P: usize, const N: usize>(
    f: Frame<R, P, N>,
    s1: Emission,
    s2: Emission,
    assignment: Assignment,
)
    requires
        twins(s1, s2),
    ensures
        follow(
            s1,
            s2,
            emitted_assignment_operation(f, s1, assignment),
            emitted_assignment_operation(f, s2, assignment),
        ),
{
    reveal(emitted_assignment_operation);
    match operation_of_assignment(assignment.operator) {
        None => {},
        Some(operator) => {
            emitted_binary_twins(f, s1, s2, operator);
        },
    }
}

pub(crate) proof fn emitted_assignment_index_twins<R: ConstantResolver, const P: usize, const N: usize>(
    f: Frame<R, P, N>,
    s1: Emission,
    s2: Emission,
    index: AssignmentIndex,
    count: usize,
)
    requires
        twins(s1, s2),
    ensures
        follow(
            s1,
            s2,
            emitted_assignment_index(f, s1, index, count),
            emitted_assignment_index(f, s2, index, count),
        ),
{
    reveal(emitted_assignment_index);
    match tree_and_type(f, s1.locals, index.index@, index.span) {
        Err(error) => {},
        Ok((tree, ty)) => {
            if !index_type(ty) {
            } else {
                match known_index(tree, tree.root, count, f.resolver) {
                    Err(kind) => {},
                    Ok(_) => {
                        emitted_expression_twins(f, s1, s2, tree, tree.root, 0, tree_size(tree));
                    },
                }
            }
        },
    }
}

pub(crate) proof fn emitted_slice_assignment_index_twins<R: ConstantResolver, const P: usize, const N: usize>(
    f: Frame<R, P, N>,
    s1: Emission,
    s2: Emission,
    index: AssignmentIndex,
    name: Seq<char>,
)
    requires
        twins(s1, s2),
    ensures
        follow(
            s1,
            s2,
            emitted_slice_assignment_index(f, s1, index, name),
            emitted_slice_assignment_index(f, s2, index, name),
        ),
{
    reveal(branch_place);
    reveal(place);
    reveal(emitted_slice_assignment_index);
    match tree_and_type(f, s1.locals, index.index@, index.span) {
        Err(error) => {},
        Ok((tree, ty)) => {
            if !index_type(ty) {
            } else {
                emitted_expression_twins(f, s1, s2, tree, tree.root, 0, tree_size(tree));
                let s1 = emitted_expression(f, s1, tree, tree.root, 0, tree_size(tree));
                let s2 = emitted_expression(f, s2, tree, tree.root, 0, tree_size(tree));
                put_twins(f, s1, s2, [0x50u8]@);
                let s1 = put(f, s1, [0x50u8]@);
                let s2 = put(f, s2, [0x50u8]@);
                raised_twins(f, s1, s2, 1);
                let s1 = raised(f, s1, 1);
                let s2 = raised(f, s2, 1);
                emitted_slice_length_twins(f, s1, s2, name);
                let s1 = emitted_slice_length(f, s1, name);
                let s2 = emitted_slice_length(f, s2, name);
                put_twins(f, s1, s2, [0x48u8, 0x8b, 0x0c, 0x24, 0x48, 0x39, 0xc1]@);
                let s1 = put(f, s1, [0x48u8, 0x8b, 0x0c, 0x24, 0x48, 0x39, 0xc1]@);
                let s2 = put(f, s2, [0x48u8, 0x8b, 0x0c, 0x24, 0x48, 0x39, 0xc1]@);
                let in_bounds1 = branch_place(s1, 2);
                let in_bounds2 = branch_place(s2, 2);
                put_twins(f, s1, s2, [0x0fu8, 0x82, 0, 0, 0, 0]@);
                let s1 = put(f, s1, [0x0fu8, 0x82, 0, 0, 0, 0]@);
                let s2 = put(f, s2, [0x0fu8, 0x82, 0, 0, 0, 0]@);
                put_twins(f, s1, s2, [0x0fu8, 0x0b]@);
                let s1 = put(f, s1, [0x0fu8, 0x0b]@);
                let s2 = put(f, s2, [0x0fu8, 0x0b]@);
                landed_twins(f, s1, s2, in_bounds1, in_bounds2);
                let s1 = landed(f, s1, in_bounds1);
                let s2 = landed(f, s2, in_bounds2);
                put_twins(f, s1, s2, [0x58u8]@);
                let s1 = put(f, s1, [0x58u8]@);
                let s2 = put(f, s2, [0x58u8]@);
                released_twins(f, s1, s2, 1);
            }
        },
    }
}

pub(crate) proof fn emitted_element_index_twins<R: ConstantResolver, const P: usize, const N: usize>(
    f: Frame<R, P, N>,
    s1: Emission,
    s2: Emission,
    assignment: Assignment,
    count: Option<usize>,
)
    requires
        twins(s1, s2),
    ensures
        follow(
            s1,
            s2,
            emitted_element_index(f, s1, assignment, count),
            emitted_element_index(f, s2, assignment, count),
        ),
{
    reveal(emitted_element_index);
    match assignment.index {
        None => {},
        Some(index) => {
            match count {
                Some(count) => {
                    emitted_assignment_index_twins(f, s1, s2, index, count);
                },
                None => {
                    emitted_slice_assignment_index_twins(f, s1, s2, index, assignment.name@);
                },
            }
        },
    }
}

pub(crate) proof fn emitted_assignment_value_twins<R: ConstantResolver, const P: usize, const N: usize>(
    f: Frame<R, P, N>,
    s1: Emission,
    s2: Emission,
    assignment: Assignment,
    expected: RuntimeExpressionType,
)
    requires
        twins(s1, s2),
    ensures
        follow(
            s1,
            s2,
            emitted_assignment_value(f, s1, assignment, expected),
            emitted_assignment_value(f, s2, assignment, expected),
        ),
{
    reveal(emitted_assignment_value);
    match value_of_type(f, s1.locals, assignment.value@, assignment.value_span, expected) {
        Err(error) => {},
        Ok(tree) => {
            emitted_expression_twins(f, s1, s2, tree, tree.root, 0, tree_size(tree));
        },
    }
}

pub(crate) proof fn emitted_referenced_value_twins<R: ConstantResolver, const P: usize, const N: usize>(
    f: Frame<R, P, N>,
    s1: Emission,
    s2: Emission,
    element: RuntimeArrayElementType,
    bytes: usize,
)
    requires
        twins(s1, s2),
    ensures
        follow(
            s1,
            s2,
            emitted_referenced_value(f, s1, element, bytes),
            emitted_referenced_value(f, s2, element, bytes),
        ),
{
    reveal(emitted_referenced_value);
    emitted_indexed_address_twins(f, s1, s2, bytes);
    let s1 = emitted_indexed_address(f, s1, bytes);
    let s2 = emitted_indexed_address(f, s2, bytes);
    if bytes == 0 {
        put_twins(f, s1, s2, [0x31u8, 0xc0]@);
    } else {
        emitted_reference_load_twins(f, s1, s2, element);
    }
    let s1 = if bytes == 0 {
        put(f, s1, [0x31u8, 0xc0]@)
    } else {
        emitted_reference_load(f, s1, element)
    };
    let s2 = if bytes == 0 {
        put(f, s2, [0x31u8, 0xc0]@)
    } else {
        emitted_reference_load(f, s2, element)
    };
    put_twins(f, s1, s2, [0x50u8]@);
    let s1 = put(f, s1, [0x50u8]@);
    let s2 = put(f, s2, [0x50u8]@);
    raised_twins(f, s1, s2, 1);
}

pub(crate) proof fn emitted_operated_value_twins<R: ConstantResolver, const P: usize, const N: usize>(
    f: Frame<R, P, N>,
    s1: Emission,
    s2: Emission,
    assignment: Assignment,
    expected: RuntimeExpressionType,
)
    requires
        twins(s1, s2),
    ensures
        follow(
            s1,
            s2,
            emitted_operated_value(f, s1, assignment, expected),
            emitted_operated_value(f, s2, assignment, expected),
        ),
{
    reveal(emitted_operated_value);
    emitted_assignment_value_twins(f, s1, s2, assignment, expected);
    let s1 = emitted_assignment_value(f, s1, assignment, expected);
    let s2 = emitted_assignment_value(f, s2, assignment, expected);
    if assignment.operator != AssignmentOperator::Assign {
        released_twins(f, s1, s2, 1);
        let s1 = released(f, s1, 1);
        let s2 = released(f, s2, 1);
        put_twins(f, s1, s2, [0x59u8]@);
        let s1 = put(f, s1, [0x59u8]@);
        let s2 = put(f, s2, [0x59u8]@);
        emitted_assignment_operation_twins(f, s1, s2, assignment);
    }
}

pub(crate) proof fn emitted_referenced_store_twins<R: ConstantResolver, const P: usize, const N: usize>(
    f: Frame<R, P, N>,
    s1: Emission,
    s2: Emission,
    assignment: Assignment,
    element: RuntimeArrayElementType,
    count: Option<usize>,
)
    requires
        twins(s1, s2),
    ensures
        follow(
            s1,
            s2,
            emitted_referenced_store(f, s1, assignment, element, count),
            emitted_referenced_store(f, s2, assignment, element, count),
        ),
{
    reveal(emitted_referenced_store);
    emitted_element_index_twins(f, s1, s2, assignment, count);
    let s1 = emitted_element_index(f, s1, assignment, count);
    let s2 = emitted_element_index(f, s2, assignment, count);
    put_twins(f, s1, s2, [0x50u8]@);
    let s1 = put(f, s1, [0x50u8]@);
    let s2 = put(f, s2, [0x50u8]@);
    raised_twins(f, s1, s2, 1);
    let s1 = raised(f, s1, 1);
    let s2 = raised(f, s2, 1);
    emitted_identifier_twins(f, s1, s2, assignment.name@);
    let s1 = emitted_identifier(f, s1, assignment.name@);
    let s2 = emitted_identifier(f, s2, assignment.name@);
    put_twins(f, s1, s2, [0x50u8]@);
    let s1 = put(f, s1, [0x50u8]@);
    let s2 = put(f, s2, [0x50u8]@);
    raised_twins(f, s1, s2, 1);
    let s1 = raised(f, s1, 1);
    let s2 = raised(f, s2, 1);
    match element_bytes(element) {
        None => {},
        Some(bytes) => {
            if assignment.operator != AssignmentOperator::Assign {
                emitted_referenced_value_twins(f, s1, s2, element, bytes);
            }
            let s1 = if assignment.operator != AssignmentOperator::Assign {
                emitted_referenced_value(f, s1, element, bytes)
            } else {
                s1
            };
            let s2 = if assignment.operator != AssignmentOperator::Assign {
                emitted_referenced_value(f, s2, element, bytes)
            } else {
                s2
            };
            emitted_operated_value_twins(f, s1, s2, assignment, element_type(element));
            let s1 = emitted_operated_value(f, s1, assignment, element_type(element));
            let s2 = emitted_operated_value(f, s2, assignment, element_type(element));
            if bytes != 0 {
                put_twins(f, s1, s2, [0x48u8, 0x8b, 0x14, 0x24]@);
                let s1 = put(f, s1, [0x48u8, 0x8b, 0x14, 0x24]@);
                let s2 = put(f, s2, [0x48u8, 0x8b, 0x14, 0x24]@);
                emitted_indexed_store_address_twins(f, s1, s2, bytes);
                let s1 = emitted_indexed_store_address(f, s1, bytes);
                let s2 = emitted_indexed_store_address(f, s2, bytes);
                emitted_reference_store_twins(f, s1, s2, element);
            }
            let s1 = if bytes != 0 {
                let s1 = put(f, s1, [0x48u8, 0x8b, 0x14, 0x24]@);
                let s1 = emitted_indexed_store_address(f, s1, bytes);
                emitted_reference_store(f, s1, element)
            } else {
                s1
            };
            let s2 = if bytes != 0 {
                let s2 = put(f, s2, [0x48u8, 0x8b, 0x14, 0x24]@);
                let s2 = emitted_indexed_store_address(f, s2, bytes);
                emitted_reference_store(f, s2, element)
            } else {
                s2
            };
            put_twins(f, s1, s2, [0x48u8, 0x83, 0xc4, 16]@);
            let s1 = put(f, s1, [0x48u8, 0x83, 0xc4, 16]@);
            let s2 = put(f, s2, [0x48u8, 0x83, 0xc4, 16]@);
            released_twins(f, s1, s2, 2);
        },
    }
}

pub(crate) proof fn emitted_referenced_assignment_twins<R: ConstantResolver, const P: usize, const N: usize>(
    f: Frame<R, P, N>,
    s1: Emission,
    s2: Emission,
    assignment: Assignment,
    element: RuntimeArrayElementType,
    count: Option<usize>,
    mutable: bool,
)
    requires
        twins(s1, s2),
    ensures
        follow(
            s1,
            s2,
            emitted_referenced_assignment(f, s1, assignment, element, count, mutable),
            emitted_referenced_assignment(f, s2, assignment, element, count, mutable),
        ),
{
    reveal(emitted_referenced_assignment);
    if !mutable {
    } else {
        match problem_of_operator(element_type(element), assignment.operator) {
            Some(kind) => {},
            None => {
                let previous1 = s1.width;
                let previous2 = s2.width;
                let s1 = Emission { width: width_of_change(element_type(element), previous1), ..s1 };
                let s2 = Emission { width: width_of_change(element_type(element), previous2), ..s2 };
                emitted_referenced_store_twins(f, s1, s2, assignment, element, count);
                let s1 = emitted_referenced_store(f, s1, assignment, element, count);
                let s2 = emitted_referenced_store(f, s2, assignment, element, count);
            },
        }
    }
}

pub(crate) proof fn emitted_dereference_store_twins<R: ConstantResolver, const P: usize, const N: usize>(
    f: Frame<R, P, N>,
    s1: Emission,
    s2: Emission,
    assignment: Assignment,
    pointee: RuntimeArrayElementType,
)
    requires
        twins(s1, s2),
    ensures
        follow(
            s1,
            s2,
            emitted_dereference_store(f, s1, assignment, pointee),
            emitted_dereference_store(f, s2, assignment, pointee),
        ),
{
    reveal(emitted_dereference_store);
    emitted_identifier_twins(f, s1, s2, assignment.name@);
    let s1 = emitted_identifier(f, s1, assignment.name@);
    let s2 = emitted_identifier(f, s2, assignment.name@);
    put_twins(f, s1, s2, [0x50u8]@);
    let s1 = put(f, s1, [0x50u8]@);
    let s2 = put(f, s2, [0x50u8]@);
    raised_twins(f, s1, s2, 1);
    let s1 = raised(f, s1, 1);
    let s2 = raised(f, s2, 1);
    if assignment.operator != AssignmentOperator::Assign {
        emitted_reference_load_twins(f, s1, s2, pointee);
        let s1 = emitted_reference_load(f, s1, pointee);
        let s2 = emitted_reference_load(f, s2, pointee);
        put_twins(f, s1, s2, [0x50u8]@);
        let s1 = put(f, s1, [0x50u8]@);
        let s2 = put(f, s2, [0x50u8]@);
        raised_twins(f, s1, s2, 1);
    }
    let s1 = if assignment.operator != AssignmentOperator::Assign {
        let s1 = emitted_reference_load(f, s1, pointee);
        let s1 = put(f, s1, [0x50u8]@);
        raised(f, s1, 1)
    } else {
        s1
    };
    let s2 = if assignment.operator != AssignmentOperator::Assign {
        let s2 = emitted_reference_load(f, s2, pointee);
        let s2 = put(f, s2, [0x50u8]@);
        raised(f, s2, 1)
    } else {
        s2
    };
    emitted_operated_value_twins(f, s1, s2, assignment, element_type(pointee));
    let s1 = emitted_operated_value(f, s1, assignment, element_type(pointee));
    let s2 = emitted_operated_value(f, s2, assignment, element_type(pointee));
    put_twins(f, s1, s2, [0x48u8, 0x8b, 0x14, 0x24]@);
    let s1 = put(f, s1, [0x48u8, 0x8b, 0x14, 0x24]@);
    let s2 = put(f, s2, [0x48u8, 0x8b, 0x14, 0x24]@);
    emitted_reference_store_twins(f, s1, s2, pointee);
    let s1 = emitted_reference_store(f, s1, pointee);
    let s2 = emitted_reference_store(f, s2, pointee);
    put_twins(f, s1, s2, [0x48u8, 0x83, 0xc4, 0x08]@);
    let s1 = put(f, s1, [0x48u8, 0x83, 0xc4, 0x08]@);
    let s2 = put(f, s2, [0x48u8, 0x83, 0xc4, 0x08]@);
    released_twins(f, s1, s2, 1);
}

pub(crate) proof fn emitted_dereference_assignment_twins<R: ConstantResolver, const P: usize, const N: usize>(
    f: Frame<R, P, N>,
    s1: Emission,
    s2: Emission,
    assignment: Assignment,
)
    requires
        twins(s1, s2),
    ensures
        follow(
            s1,
            s2,
            emitted_dereference_assignment(f, s1, assignment),
            emitted_dereference_assignment(f, s2, assignment),
        ),
{
    reveal(emitted_dereference_assignment);
    match assignment.index {
        Some(_) => {},
        None => {
            match type_of_target(f, s1.locals, assignment.name@) {
                None => {},
                Some(ty) => {
                    match target_of_address(ty) {
                        None => {},
                        Some((pointee, mutable)) => {
                            if !mutable {
                            } else {
                                match problem_of_dereference(element_type(pointee), assignment.operator) {
                                    Some(kind) => {},
                                    None => {
                                        let previous1 = s1.width;
                                        let previous2 = s2.width;
                                        let s1 = Emission { width: width_of_change(element_type(pointee), previous1), ..s1 };
                                        let s2 = Emission { width: width_of_change(element_type(pointee), previous2), ..s2 };
                                        emitted_dereference_store_twins(
                                            f,
                                            s1,
                                            s2,
                                            assignment,
                                            pointee,
                                        );
                                        let s1 = emitted_dereference_store(f, s1, assignment, pointee);
                                        let s2 = emitted_dereference_store(f, s2, assignment, pointee);
                                    },
                                }
                            }
                        },
                    }
                },
            }
        },
    }
}

pub(crate) proof fn emitted_indexed_store_twins<R: ConstantResolver, const P: usize, const N: usize>(
    f: Frame<R, P, N>,
    s1: Emission,
    s2: Emission,
    assignment: Assignment,
    index: AssignmentIndex,
    local: usize,
    element: RuntimeArrayElementType,
    count: usize,
)
    requires
        twins(s1, s2),
    ensures
        follow(
            s1,
            s2,
            emitted_indexed_store(f, s1, assignment, index, local, element, count),
            emitted_indexed_store(f, s2, assignment, index, local, element, count),
        ),
{
    reveal(emitted_indexed_store);
    emitted_assignment_index_twins(f, s1, s2, index, count);
    let s1 = emitted_assignment_index(f, s1, index, count);
    let s2 = emitted_assignment_index(f, s2, index, count);
    put_twins(f, s1, s2, [0x50u8]@);
    let s1 = put(f, s1, [0x50u8]@);
    let s2 = put(f, s2, [0x50u8]@);
    raised_twins(f, s1, s2, 1);
    let s1 = raised(f, s1, 1);
    let s2 = raised(f, s2, 1);
    if assignment.operator != AssignmentOperator::Assign {
        emitted_local_element_twins(f, s1, s2, local, element, count, 0);
        let s1 = emitted_local_element(f, s1, local, element, count, 0);
        let s2 = emitted_local_element(f, s2, local, element, count, 0);
        put_twins(f, s1, s2, [0x50u8]@);
        let s1 = put(f, s1, [0x50u8]@);
        let s2 = put(f, s2, [0x50u8]@);
        raised_twins(f, s1, s2, 1);
    }
    let s1 = if assignment.operator != AssignmentOperator::Assign {
        let s1 = emitted_local_element(f, s1, local, element, count, 0);
        let s1 = put(f, s1, [0x50u8]@);
        raised(f, s1, 1)
    } else {
        s1
    };
    let s2 = if assignment.operator != AssignmentOperator::Assign {
        let s2 = emitted_local_element(f, s2, local, element, count, 0);
        let s2 = put(f, s2, [0x50u8]@);
        raised(f, s2, 1)
    } else {
        s2
    };
    emitted_operated_value_twins(f, s1, s2, assignment, element_type(element));
    let s1 = emitted_operated_value(f, s1, assignment, element_type(element));
    let s2 = emitted_operated_value(f, s2, assignment, element_type(element));
    put_twins(f, s1, s2, [0x50u8]@);
    let s1 = put(f, s1, [0x50u8]@);
    let s2 = put(f, s2, [0x50u8]@);
    raised_twins(f, s1, s2, 1);
    let s1 = raised(f, s1, 1);
    let s2 = raised(f, s2, 1);
    emitted_local_element_store_twins(f, s1, s2, local, element, count, 1);
    let s1 = emitted_local_element_store(f, s1, local, element, count, 1);
    let s2 = emitted_local_element_store(f, s2, local, element, count, 1);
    released_twins(f, s1, s2, 2);
    let s1 = released(f, s1, 2);
    let s2 = released(f, s2, 2);
    put_twins(f, s1, s2, [0x48u8, 0x83, 0xc4, 16]@);
}

pub(crate) proof fn emitted_indexed_assignment_twins<R: ConstantResolver, const P: usize, const N: usize>(
    f: Frame<R, P, N>,
    s1: Emission,
    s2: Emission,
    assignment: Assignment,
    index: AssignmentIndex,
    local: usize,
    ty: RuntimeExpressionType,
)
    requires
        twins(s1, s2),
    ensures
        follow(
            s1,
            s2,
            emitted_indexed_assignment(f, s1, assignment, index, local, ty),
            emitted_indexed_assignment(f, s2, assignment, index, local, ty),
        ),
{
    reveal(emitted_indexed_assignment);
    match ty {
        RuntimeExpressionType::Array { element, count } => {
            match problem_of_operator(element_type(element), assignment.operator) {
                Some(kind) => {},
                None => {
                    let previous1 = s1.width;
                    let previous2 = s2.width;
                    let s1 = Emission { width: width_of_change(element_type(element), previous1), ..s1 };
                    let s2 = Emission { width: width_of_change(element_type(element), previous2), ..s2 };
                    emitted_indexed_store_twins(
                        f,
                        s1,
                        s2,
                        assignment,
                        index,
                        local,
                        element,
                        count,
                    );
                    let s1 = emitted_indexed_store(f, s1, assignment, index, local, element, count);
                    let s2 = emitted_indexed_store(f, s2, assignment, index, local, element, count);
                },
            }
        },
        _ => {},
    }
}

pub(crate) proof fn emitted_slice_replacement_twins<R: ConstantResolver, const P: usize, const N: usize>(
    f: Frame<R, P, N>,
    s1: Emission,
    s2: Emission,
    tree: Tree,
    local: usize,
)
    requires
        twins(s1, s2),
    ensures
        follow(
            s1,
            s2,
            emitted_slice_replacement(f, s1, tree, local),
            emitted_slice_replacement(f, s2, tree, local),
        ),
{
    reveal(emitted_slice_replacement);
    emitted_slice_value_twins(f, s1, s2, tree, tree.root, 0, tree_size(tree));
    let s1 = emitted_slice_value(f, s1, tree, tree.root, 0, tree_size(tree));
    let s2 = emitted_slice_value(f, s2, tree, tree.root, 0, tree_size(tree));
    match slots_from(s1.locals, place_from(local, 1)) {
        None => {},
        Some(later) => {
            match sum_of(later, 3) {
                None => {},
                Some(address) => {
                    emitted_stack_slot_twins(f, s1, s2, 0);
                    let s1 = emitted_stack_slot(f, s1, 0);
                    let s2 = emitted_stack_slot(f, s2, 0);
                    emitted_store_stack_slot_twins(f, s1, s2, excess(address, 1));
                    let s1 = emitted_store_stack_slot(f, s1, excess(address, 1));
                    let s2 = emitted_store_stack_slot(f, s2, excess(address, 1));
                    emitted_stack_slot_twins(f, s1, s2, 1);
                    let s1 = emitted_stack_slot(f, s1, 1);
                    let s2 = emitted_stack_slot(f, s2, 1);
                    emitted_store_stack_slot_twins(f, s1, s2, address);
                    let s1 = emitted_store_stack_slot(f, s1, address);
                    let s2 = emitted_store_stack_slot(f, s2, address);
                    emitted_cleanup_bytes_twins(f, s1, s2, 16);
                },
            }
        },
    }
}

pub(crate) proof fn emitted_array_assignment_twins<R: ConstantResolver, const P: usize, const N: usize>(
    f: Frame<R, P, N>,
    s1: Emission,
    s2: Emission,
    tree: Tree,
    local: usize,
    element: RuntimeArrayElementType,
    count: usize,
)
    requires
        twins(s1, s2),
    ensures
        follow(
            s1,
            s2,
            emitted_array_assignment(f, s1, tree, local, element, count),
            emitted_array_assignment(f, s2, tree, local, element, count),
        ),
{
    reveal(emitted_array_assignment);
    if count > MAX_ARRAY_ELEMENTS {
    } else {
        emitted_array_twins(f, s1, s2, tree, tree.root, count, tree_size(tree));
        let s1 = emitted_array(f, s1, tree, tree.root, count, tree_size(tree));
        let s2 = emitted_array(f, s2, tree, tree.root, count, tree_size(tree));
        emitted_packed_array_twins(f, s1, s2, element, count);
        let s1 = emitted_packed_array(f, s1, element, count);
        let s2 = emitted_packed_array(f, s2, element, count);
        match slots_from(s1.locals, place_from(local, 1)) {
            None => {},
            Some(later) => {
                let slots1 = local_slots(RuntimeExpressionType::Array { element, count });
                let slots2 = local_slots(RuntimeExpressionType::Array { element, count });
                emitted_moved_slots_twins(f, s1, s2, slots1, later, 0);
                let s1 = emitted_moved_slots(f, s1, slots1, later, 0);
                let s2 = emitted_moved_slots(f, s2, slots2, later, 0);
                released_twins(f, s1, s2, slots1);
                let s1 = released(f, s1, slots1);
                let s2 = released(f, s2, slots2);
                emitted_slots_cleanup_twins(f, s1, s2, slots1);
            },
        }
    }
}

pub(crate) proof fn emitted_scalar_assignment_twins<R: ConstantResolver, const P: usize, const N: usize>(
    f: Frame<R, P, N>,
    s1: Emission,
    s2: Emission,
    tree: Tree,
    assignment: Assignment,
    local: usize,
)
    requires
        twins(s1, s2),
    ensures
        follow(
            s1,
            s2,
            emitted_scalar_assignment(f, s1, tree, assignment, local),
            emitted_scalar_assignment(f, s2, tree, assignment, local),
        ),
{
    reveal(emitted_scalar_assignment);
    if assignment.operator == AssignmentOperator::Assign {
        emitted_expression_twins(f, s1, s2, tree, tree.root, 0, tree_size(tree));
    } else {
        emitted_identifier_twins(f, s1, s2, assignment.name@);
        let s1 = emitted_identifier(f, s1, assignment.name@);
        let s2 = emitted_identifier(f, s2, assignment.name@);
        put_twins(f, s1, s2, [0x50u8]@);
        let s1 = put(f, s1, [0x50u8]@);
        let s2 = put(f, s2, [0x50u8]@);
        raised_twins(f, s1, s2, 1);
        let s1 = raised(f, s1, 1);
        let s2 = raised(f, s2, 1);
        emitted_expression_twins(f, s1, s2, tree, tree.root, 0, tree_size(tree));
        let s1 = emitted_expression(f, s1, tree, tree.root, 0, tree_size(tree));
        let s2 = emitted_expression(f, s2, tree, tree.root, 0, tree_size(tree));
        released_twins(f, s1, s2, 1);
        let s1 = released(f, s1, 1);
        let s2 = released(f, s2, 1);
        put_twins(f, s1, s2, [0x59u8]@);
        let s1 = put(f, s1, [0x59u8]@);
        let s2 = put(f, s2, [0x59u8]@);
        emitted_assignment_operation_twins(f, s1, s2, assignment);
    }
    let s1 = if assignment.operator == AssignmentOperator::Assign {
        emitted_expression(f, s1, tree, tree.root, 0, tree_size(tree))
    } else {
        let s1 = emitted_identifier(f, s1, assignment.name@);
        let s1 = put(f, s1, [0x50u8]@);
        let s1 = raised(f, s1, 1);
        let s1 = emitted_expression(f, s1, tree, tree.root, 0, tree_size(tree));
        let s1 = released(f, s1, 1);
        let s1 = put(f, s1, [0x59u8]@);
        emitted_assignment_operation(f, s1, assignment)
    };
    let s2 = if assignment.operator == AssignmentOperator::Assign {
        emitted_expression(f, s2, tree, tree.root, 0, tree_size(tree))
    } else {
        let s2 = emitted_identifier(f, s2, assignment.name@);
        let s2 = put(f, s2, [0x50u8]@);
        let s2 = raised(f, s2, 1);
        let s2 = emitted_expression(f, s2, tree, tree.root, 0, tree_size(tree));
        let s2 = released(f, s2, 1);
        let s2 = put(f, s2, [0x59u8]@);
        emitted_assignment_operation(f, s2, assignment)
    };
    match slots_from(s1.locals, place_from(local, 1)) {
        None => {},
        Some(slots) => {
            emitted_store_stack_slot_twins(f, s1, s2, slots);
        },
    }
}

pub(crate) proof fn emitted_whole_store_twins<R: ConstantResolver, const P: usize, const N: usize>(
    f: Frame<R, P, N>,
    s1: Emission,
    s2: Emission,
    tree: Tree,
    assignment: Assignment,
    local: usize,
    ty: RuntimeExpressionType,
)
    requires
        twins(s1, s2),
    ensures
        follow(
            s1,
            s2,
            emitted_whole_store(f, s1, tree, assignment, local, ty),
            emitted_whole_store(f, s2, tree, assignment, local, ty),
        ),
{
    reveal(emitted_whole_store);
    match ty {
        RuntimeExpressionType::Array { element, count } => {
            if assignment.operator != AssignmentOperator::Assign {
            } else {
                emitted_array_assignment_twins(f, s1, s2, tree, local, element, count);
            }
        },
        other => {
            if fat_reference(other) && assignment.operator != AssignmentOperator::Assign {
            } else {
                if fat_reference(other) {
                    emitted_slice_replacement_twins(f, s1, s2, tree, local);
                } else {
                    emitted_scalar_assignment_twins(f, s1, s2, tree, assignment, local);
                }
            }
        },
    }
}

pub(crate) proof fn emitted_whole_assignment_twins<R: ConstantResolver, const P: usize, const N: usize>(
    f: Frame<R, P, N>,
    s1: Emission,
    s2: Emission,
    assignment: Assignment,
    local: usize,
    ty: RuntimeExpressionType,
)
    requires
        twins(s1, s2),
    ensures
        follow(
            s1,
            s2,
            emitted_whole_assignment(f, s1, assignment, local, ty),
            emitted_whole_assignment(f, s2, assignment, local, ty),
        ),
{
    reveal(emitted_whole_assignment);
    if ty == RuntimeExpressionType::Bool && !allows_operator(assignment.operator) {
    } else {
        match value_of_type(f, s1.locals, assignment.value@, assignment.value_span, ty) {
            Err(error) => {},
            Ok(tree) => {
                let previous1 = s1.width;
                let previous2 = s2.width;
                let s1 = Emission { width: width_of_change(ty, previous1), ..s1 };
                let s2 = Emission { width: width_of_change(ty, previous2), ..s2 };
                emitted_whole_store_twins(f, s1, s2, tree, assignment, local, ty);
                let s1 = emitted_whole_store(f, s1, tree, assignment, local, ty);
                let s2 = emitted_whole_store(f, s2, tree, assignment, local, ty);
            },
        }
    }
}

pub(crate) proof fn emitted_local_assignment_twins<R: ConstantResolver, const P: usize, const N: usize>(
    f: Frame<R, P, N>,
    s1: Emission,
    s2: Emission,
    assignment: Assignment,
)
    requires
        twins(s1, s2),
    ensures
        follow(
            s1,
            s2,
            emitted_local_assignment(f, s1, assignment),
            emitted_local_assignment(f, s2, assignment),
        ),
{
    reveal(emitted_local_assignment);
    match local_named(s1.locals, assignment.name@) {
        None => {},
        Some(local) => {
            if !s1.locals[local as int].mutable {
            } else {
                match assignment.index {
                    Some(index) => {
                        emitted_indexed_assignment_twins(
                            f,
                            s1,
                            s2,
                            assignment,
                            index,
                            local,
                            s1.locals[local as int].ty,
                        );
                    },
                    None => {
                        emitted_whole_assignment_twins(
                            f,
                            s1,
                            s2,
                            assignment,
                            local,
                            s1.locals[local as int].ty,
                        );
                    },
                }
            }
        },
    }
}

pub(crate) proof fn emitted_assignment_twins<R: ConstantResolver, const P: usize, const N: usize>(
    f: Frame<R, P, N>,
    s1: Emission,
    s2: Emission,
    assignment: Assignment,
)
    requires
        twins(s1, s2),
    ensures
        follow(
            s1,
            s2,
            emitted_assignment(f, s1, assignment),
            emitted_assignment(f, s2, assignment),
        ),
{
    reveal(emitted_assignment);
    if assignment.dereference {
        emitted_dereference_assignment_twins(f, s1, s2, assignment);
    } else {
        match assignment.index {
            None => {
                emitted_local_assignment_twins(f, s1, s2, assignment);
            },
            Some(_) => {
                match target_of_assignment(type_of_target(f, s1.locals, assignment.name@)) {
                    ElementTarget::Referenced { element, count, mutable } => {
                        emitted_referenced_assignment_twins(
                            f,
                            s1,
                            s2,
                            assignment,
                            element,
                            count,
                            mutable,
                        );
                    },
                    ElementTarget::Other => {
                        emitted_local_assignment_twins(f, s1, s2, assignment);
                    },
                }
            },
        }
    }
}

pub(crate) proof fn emitted_actions_twins<R: ConstantResolver, const P: usize, const N: usize>(
    f: Frame<R, P, N>,
    s1: Emission,
    s2: Emission,
    actions: Seq<ConditionalAssignmentAction>,
    expected: RuntimeExpressionType,
    operand: Operand,
    index: int,
)
    requires
        twins(s1, s2),
    ensures
        follow(
            s1,
            s2,
            emitted_actions(f, s1, actions, expected, operand, index),
            emitted_actions(f, s2, actions, expected, operand, index),
        ),
    decreases actions.len() - index,
{
    reveal(emitted_actions);
    if index < actions.len() {
        match actions[index] {
            ConditionalAssignmentAction::Local(local) => {
                emitted_local_twins(f, s1, s2, local, operand, true);
            },
            ConditionalAssignmentAction::Assignment(assignment) => {
                emitted_assignment_twins(f, s1, s2, assignment);
            },
            ConditionalAssignmentAction::Expression(statement) => {
                emitted_expression_statement_twins(f, s1, s2, statement);
            },
            ConditionalAssignmentAction::Return(statement) => {
                emitted_return_twins(f, s1, s2, statement, expected);
            },
        }
        let s1 = match actions[index] {
            ConditionalAssignmentAction::Local(local) => {
                emitted_local(f, s1, local, operand, true)
            },
            ConditionalAssignmentAction::Assignment(assignment) => {
                emitted_assignment(f, s1, assignment)
            },
            ConditionalAssignmentAction::Expression(statement) => {
                emitted_expression_statement(f, s1, statement)
            },
            ConditionalAssignmentAction::Return(statement) => {
                emitted_return(f, s1, statement, expected)
            },
        };
        let s2 = match actions[index] {
            ConditionalAssignmentAction::Local(local) => {
                emitted_local(f, s2, local, operand, true)
            },
            ConditionalAssignmentAction::Assignment(assignment) => {
                emitted_assignment(f, s2, assignment)
            },
            ConditionalAssignmentAction::Expression(statement) => {
                emitted_expression_statement(f, s2, statement)
            },
            ConditionalAssignmentAction::Return(statement) => {
                emitted_return(f, s2, statement, expected)
            },
        };
        emitted_actions_twins(f, s1, s2, actions, expected, operand, index + 1);
    }
}

pub(crate) proof fn emitted_action_block_twins<R: ConstantResolver, const P: usize, const N: usize>(
    f: Frame<R, P, N>,
    s1: Emission,
    s2: Emission,
    actions: Seq<ConditionalAssignmentAction>,
    expected: RuntimeExpressionType,
    operand: Operand,
)
    requires
        twins(s1, s2),
    ensures
        follow(
            s1,
            s2,
            emitted_action_block(f, s1, actions, expected, operand),
            emitted_action_block(f, s2, actions, expected, operand),
        ),
{
    reveal(emitted_action_block);
    let checkpoint1 = number_of_locals(s1.locals);
    let checkpoint2 = number_of_locals(s2.locals);
    emitted_actions_twins(f, s1, s2, actions, expected, operand, 0);
    let s1 = emitted_actions(f, s1, actions, expected, operand, 0);
    let s2 = emitted_actions(f, s2, actions, expected, operand, 0);
    emitted_scoped_cleanup_twins(f, s1, s2, checkpoint1);
}

pub(crate) proof fn emitted_assignment_branches_twins<R: ConstantResolver, const P: usize, const N: usize>(
    f: Frame<R, P, N>,
    s1: Emission,
    s2: Emission,
    conditional: ConditionalAssignment,
    expected: RuntimeExpressionType,
    operand: Operand,
    index: int,
)
    requires
        twins(s1, s2),
    ensures
        follow(
            s1,
            s2,
            emitted_assignment_branches(f, s1, conditional, expected, operand, index),
            emitted_assignment_branches(f, s2, conditional, expected, operand, index),
        ),
    decreases conditional.branches@.len() - index,
{
    reveal(branch_place);
    reveal(place);
    reveal(emitted_assignment_branches);
    if index < conditional.branches.len() {
        match condition_of(
            f,
            s1.locals,
            conditional.branches@[index].condition@,
            conditional.branches@[index].condition_span,
        ) {
            Err(error) => {},
            Ok(condition) => {
                emitted_test_twins(f, s1, s2, condition);
                let s1 = emitted_test(f, s1, condition);
                let s2 = emitted_test(f, s2, condition);
                let otherwise1 = branch_place(s1, 2);
                let otherwise2 = branch_place(s2, 2);
                put_twins(f, s1, s2, [0x0fu8, 0x84, 0, 0, 0, 0]@);
                let s1 = put(f, s1, [0x0fu8, 0x84, 0, 0, 0, 0]@);
                let s2 = put(f, s2, [0x0fu8, 0x84, 0, 0, 0, 0]@);
                emitted_action_block_twins(
                    f,
                    s1,
                    s2,
                    conditional.branches@[index].actions@,
                    expected,
                    operand,
                );
                let s1 = emitted_action_block(f, s1, conditional.branches@[index].actions@, expected, operand);
                let s2 = emitted_action_block(f, s2, conditional.branches@[index].actions@, expected, operand);
                let end1 = branch_place(s1, 1);
                let end2 = branch_place(s2, 1);
                put_twins(f, s1, s2, [0xe9u8, 0, 0, 0, 0]@);
                let s1 = put(f, s1, [0xe9u8, 0, 0, 0, 0]@);
                let s2 = put(f, s2, [0xe9u8, 0, 0, 0, 0]@);
                landed_twins(f, s1, s2, otherwise1, otherwise2);
                let s1 = landed(f, s1, otherwise1);
                let s2 = landed(f, s2, otherwise2);
                emitted_assignment_branches_twins(
                    f,
                    s1,
                    s2,
                    conditional,
                    expected,
                    operand,
                    index + 1,
                );
                let s1 = emitted_assignment_branches(f, s1, conditional, expected, operand, index + 1);
                let s2 = emitted_assignment_branches(f, s2, conditional, expected, operand, index + 1);
                landed_twins(f, s1, s2, end1, end2);
            },
        }
    } else {
        emitted_action_block_twins(f, s1, s2, conditional.else_actions@, expected, operand);
    }
}

pub(crate) proof fn emitted_conditional_assignment_twins<R: ConstantResolver, const P: usize, const N: usize>(
    f: Frame<R, P, N>,
    s1: Emission,
    s2: Emission,
    conditional: ConditionalAssignment,
    expected: RuntimeExpressionType,
    operand: Operand,
)
    requires
        twins(s1, s2),
    ensures
        follow(
            s1,
            s2,
            emitted_conditional_assignment(f, s1, conditional, expected, operand),
            emitted_conditional_assignment(f, s2, conditional, expected, operand),
        ),
{
    reveal(emitted_conditional_assignment);
    emitted_assignment_branches_twins(f, s1, s2, conditional, expected, operand, 0);
}

pub(crate) proof fn emitted_loop_action_twins<R: ConstantResolver, const P: usize, const N: usize>(
    f: Frame<R, P, N>,
    s1: Emission,
    s2: Emission,
    action: ConditionalLoopAction,
    operand: Operand,
)
    requires
        twins(s1, s2),
    ensures
        follow(
            s1,
            s2,
            emitted_loop_action(f, s1, action, operand),
            emitted_loop_action(f, s2, action, operand),
        ),
{
    reveal(emitted_loop_action);
    match action {
        ConditionalLoopAction::Local(local) => {
            emitted_local_twins(f, s1, s2, local, operand, true);
        },
        ConditionalLoopAction::Assignment(assignment) => {
            emitted_assignment_twins(f, s1, s2, assignment);
        },
        ConditionalLoopAction::Expression(statement) => {
            emitted_expression_statement_twins(f, s1, s2, statement);
        },
    }
}

pub(crate) proof fn emitted_loop_actions_twins<R: ConstantResolver, const P: usize, const N: usize>(
    f: Frame<R, P, N>,
    s1: Emission,
    s2: Emission,
    actions: Seq<ConditionalLoopAction>,
    operand: Operand,
    index: int,
)
    requires
        twins(s1, s2),
    ensures
        follow(
            s1,
            s2,
            emitted_loop_actions(f, s1, actions, operand, index),
            emitted_loop_actions(f, s2, actions, operand, index),
        ),
    decreases actions.len() - index,
{
    reveal(emitted_loop_actions);
    if index < actions.len() {
        emitted_loop_action_twins(f, s1, s2, actions[index], operand);
        let s1 = emitted_loop_action(f, s1, actions[index], operand);
        let s2 = emitted_loop_action(f, s2, actions[index], operand);
        emitted_loop_actions_twins(f, s1, s2, actions, operand, index + 1);
    }
}

pub(crate) proof fn emitted_terminal_twins<R: ConstantResolver, const P: usize, const N: usize>(
    f: Frame<R, P, N>,
    s1: Emission,
    s2: Emission,
    terminal: Option<ConditionalLoopTerminal>,
    expected: RuntimeExpressionType,
    places1: LoopPlaces,
    places2: LoopPlaces,
    checkpoint: usize,
)
    requires
        twins(s1, s2),
        loops_alike(s1, s2, places1, places2),
    ensures
        follow(
            s1,
            s2,
            emitted_terminal(f, s1, terminal, expected, places1, checkpoint),
            emitted_terminal(f, s2, terminal, expected, places2, checkpoint),
        ),
{
    reveal(emitted_terminal);
    match terminal {
        Some(ConditionalLoopTerminal::Break) => {
            emitted_cleanup_to_twins(f, s1, s2, places1.checkpoint);
            let s1 = emitted_cleanup_to(f, s1, places1.checkpoint);
            let s2 = emitted_cleanup_to(f, s2, places2.checkpoint);
            left_loop_twins(f, s1, s2);
        },
        Some(ConditionalLoopTerminal::Continue) => {
            emitted_cleanup_to_twins(f, s1, s2, places1.checkpoint);
            let s1 = emitted_cleanup_to(f, s1, places1.checkpoint);
            let s2 = emitted_cleanup_to(f, s2, places2.checkpoint);
            returned_to_twins(f, s1, s2, places1.start, places2.start);
        },
        Some(ConditionalLoopTerminal::Return(statement)) => {
            emitted_return_twins(f, s1, s2, statement, expected);
        },
        None => {
            emitted_cleanup_to_twins(f, s1, s2, checkpoint);
        },
    }
    let s1 = match terminal {
        Some(ConditionalLoopTerminal::Break) => {
            let s1 = emitted_cleanup_to(f, s1, places1.checkpoint);
            left_loop(f, s1)
        },
        Some(ConditionalLoopTerminal::Continue) => {
            let s1 = emitted_cleanup_to(f, s1, places1.checkpoint);
            returned_to(f, s1, places1.start)
        },
        Some(ConditionalLoopTerminal::Return(statement)) => {
            emitted_return(f, s1, statement, expected)
        },
        None => {
            emitted_cleanup_to(f, s1, checkpoint)
        },
    };
    let s2 = match terminal {
        Some(ConditionalLoopTerminal::Break) => {
            let s2 = emitted_cleanup_to(f, s2, places2.checkpoint);
            left_loop(f, s2)
        },
        Some(ConditionalLoopTerminal::Continue) => {
            let s2 = emitted_cleanup_to(f, s2, places2.checkpoint);
            returned_to(f, s2, places2.start)
        },
        Some(ConditionalLoopTerminal::Return(statement)) => {
            emitted_return(f, s2, statement, expected)
        },
        None => {
            emitted_cleanup_to(f, s2, checkpoint)
        },
    };
    truncated_twins(f, s1, s2, checkpoint);
}

pub(crate) proof fn emitted_loop_block_twins<R: ConstantResolver, const P: usize, const N: usize>(
    f: Frame<R, P, N>,
    s1: Emission,
    s2: Emission,
    actions: Seq<ConditionalLoopAction>,
    terminal: Option<ConditionalLoopTerminal>,
    expected: RuntimeExpressionType,
    operand: Operand,
    places1: LoopPlaces,
    places2: LoopPlaces,
)
    requires
        twins(s1, s2),
        loops_alike(s1, s2, places1, places2),
    ensures
        follow(
            s1,
            s2,
            emitted_loop_block(f, s1, actions, terminal, expected, operand, places1),
            emitted_loop_block(f, s2, actions, terminal, expected, operand, places2),
        ),
{
    reveal(emitted_loop_block);
    let checkpoint1 = number_of_locals(s1.locals);
    let checkpoint2 = number_of_locals(s2.locals);
    emitted_loop_actions_twins(f, s1, s2, actions, operand, 0);
    let s1 = emitted_loop_actions(f, s1, actions, operand, 0);
    let s2 = emitted_loop_actions(f, s2, actions, operand, 0);
    emitted_terminal_twins(f, s1, s2, terminal, expected, places1, places2, checkpoint1);
}

pub(crate) proof fn emitted_else_arms_twins<R: ConstantResolver, const P: usize, const N: usize>(
    f: Frame<R, P, N>,
    s1: Emission,
    s2: Emission,
    arms: Seq<ConditionalLoopElseArm>,
    expected: RuntimeExpressionType,
    operand: Operand,
    places1: LoopPlaces,
    places2: LoopPlaces,
    index: int,
)
    requires
        twins(s1, s2),
        loops_alike(s1, s2, places1, places2),
    ensures
        follow(
            s1,
            s2,
            emitted_else_arms(f, s1, arms, expected, operand, places1, index),
            emitted_else_arms(f, s2, arms, expected, operand, places2, index),
        ),
    decreases arms.len() - index,
{
    reveal(branch_place);
    reveal(place);
    reveal(emitted_else_arms);
    if index < arms.len() {
        match arms[index].condition {
            Some(control) => {
                match condition_of(f, s1.locals, control.condition@, control.condition_span) {
                    Err(error) => {},
                    Ok(condition) => {
                        emitted_test_twins(f, s1, s2, condition);
                        let s1 = emitted_test(f, s1, condition);
                        let s2 = emitted_test(f, s2, condition);
                        let otherwise1 = branch_place(s1, 2);
                        let otherwise2 = branch_place(s2, 2);
                        put_twins(f, s1, s2, [0x0fu8, 0x84, 0, 0, 0, 0]@);
                        let s1 = put(f, s1, [0x0fu8, 0x84, 0, 0, 0, 0]@);
                        let s2 = put(f, s2, [0x0fu8, 0x84, 0, 0, 0, 0]@);
                        emitted_loop_block_twins(
                            f,
                            s1,
                            s2,
                            arms[index].actions@,
                            arms[index].terminal,
                            expected,
                            operand,
                            places1,
                            places2,
                        );
                        let s1 = emitted_loop_block(
                            f,
                            s1,
                            arms[index].actions@,
                            arms[index].terminal,
                            expected,
                            operand,
                            places1,
                        );
                        let s2 = emitted_loop_block(
                            f,
                            s2,
                            arms[index].actions@,
                            arms[index].terminal,
                            expected,
                            operand,
                            places2,
                        );
                        let end1 = branch_place(s1, 1);
                        let end2 = branch_place(s2, 1);
                        put_twins(f, s1, s2, [0xe9u8, 0, 0, 0, 0]@);
                        let s1 = put(f, s1, [0xe9u8, 0, 0, 0, 0]@);
                        let s2 = put(f, s2, [0xe9u8, 0, 0, 0, 0]@);
                        landed_twins(f, s1, s2, otherwise1, otherwise2);
                        let s1 = landed(f, s1, otherwise1);
                        let s2 = landed(f, s2, otherwise2);
                        emitted_else_arms_twins(
                            f,
                            s1,
                            s2,
                            arms,
                            expected,
                            operand,
                            places1,
                            places2,
                            index + 1,
                        );
                        let s1 = emitted_else_arms(f, s1, arms, expected, operand, places1, index + 1);
                        let s2 = emitted_else_arms(f, s2, arms, expected, operand, places2, index + 1);
                        landed_twins(f, s1, s2, end1, end2);
                    },
                }
            },
            None => {
                emitted_loop_block_twins(
                    f,
                    s1,
                    s2,
                    arms[index].actions@,
                    arms[index].terminal,
                    expected,
                    operand,
                    places1,
                    places2,
                );
                let s1 = emitted_loop_block(
                    f,
                    s1,
                    arms[index].actions@,
                    arms[index].terminal,
                    expected,
                    operand,
                    places1,
                );
                let s2 = emitted_loop_block(
                    f,
                    s2,
                    arms[index].actions@,
                    arms[index].terminal,
                    expected,
                    operand,
                    places2,
                );
                let end1 = branch_place(s1, 1);
                let end2 = branch_place(s2, 1);
                put_twins(f, s1, s2, [0xe9u8, 0, 0, 0, 0]@);
                let s1 = put(f, s1, [0xe9u8, 0, 0, 0, 0]@);
                let s2 = put(f, s2, [0xe9u8, 0, 0, 0, 0]@);
                landed_twins(f, s1, s2, end1, end2);
            },
        }
    }
}

pub(crate) proof fn emitted_conditional_block_twins<R: ConstantResolver, const P: usize, const N: usize>(
    f: Frame<R, P, N>,
    s1: Emission,
    s2: Emission,
    block: ConditionalLoopBlock,
    expected: RuntimeExpressionType,
    operand: Operand,
    places1: LoopPlaces,
    places2: LoopPlaces,
)
    requires
        twins(s1, s2),
        loops_alike(s1, s2, places1, places2),
    ensures
        follow(
            s1,
            s2,
            emitted_conditional_block(f, s1, block, expected, operand, places1),
            emitted_conditional_block(f, s2, block, expected, operand, places2),
        ),
{
    reveal(branch_place);
    reveal(place);
    reveal(emitted_conditional_block);
    match condition_of(f, s1.locals, block.condition@, block.condition_span) {
        Err(error) => {},
        Ok(condition) => {
            emitted_test_twins(f, s1, s2, condition);
            let s1 = emitted_test(f, s1, condition);
            let s2 = emitted_test(f, s2, condition);
            let otherwise1 = branch_place(s1, 2);
            let otherwise2 = branch_place(s2, 2);
            put_twins(f, s1, s2, [0x0fu8, 0x84, 0, 0, 0, 0]@);
            let s1 = put(f, s1, [0x0fu8, 0x84, 0, 0, 0, 0]@);
            let s2 = put(f, s2, [0x0fu8, 0x84, 0, 0, 0, 0]@);
            emitted_loop_block_twins(
                f,
                s1,
                s2,
                block.actions@,
                block.terminal,
                expected,
                operand,
                places1,
                places2,
            );
            let s1 = emitted_loop_block(f, s1, block.actions@, block.terminal, expected, operand, places1);
            let s2 = emitted_loop_block(f, s2, block.actions@, block.terminal, expected, operand, places2);
            if block.else_arms.len() == 0 {
                landed_twins(f, s1, s2, otherwise1, otherwise2);
            } else {
                let end1 = branch_place(s1, 1);
                let end2 = branch_place(s2, 1);
                put_twins(f, s1, s2, [0xe9u8, 0, 0, 0, 0]@);
                let s1 = put(f, s1, [0xe9u8, 0, 0, 0, 0]@);
                let s2 = put(f, s2, [0xe9u8, 0, 0, 0, 0]@);
                landed_twins(f, s1, s2, otherwise1, otherwise2);
                let s1 = landed(f, s1, otherwise1);
                let s2 = landed(f, s2, otherwise2);
                emitted_else_arms_twins(
                    f,
                    s1,
                    s2,
                    block.else_arms@,
                    expected,
                    operand,
                    places1,
                    places2,
                    0,
                );
                let s1 = emitted_else_arms(f, s1, block.else_arms@, expected, operand, places1, 0);
                let s2 = emitted_else_arms(f, s2, block.else_arms@, expected, operand, places2, 0);
                landed_twins(f, s1, s2, end1, end2);
            }
        },
    }
}

pub(crate) proof fn emitted_way_out_twins<R: ConstantResolver, const P: usize, const N: usize>(
    f: Frame<R, P, N>,
    s1: Emission,
    s2: Emission,
    leaves: bool,
    target: NestedLoopControlTarget,
    places1: LoopPlaces,
    places2: LoopPlaces,
)
    requires
        twins(s1, s2),
        loops_alike(s1, s2, places1, places2),
    ensures
        follow(
            s1,
            s2,
            emitted_way_out(f, s1, leaves, target, places1),
            emitted_way_out(f, s2, leaves, target, places2),
        ),
{
    reveal(emitted_way_out);
    if target == NestedLoopControlTarget::Outer {
        emitted_cleanup_to_twins(f, s1, s2, places1.checkpoint);
        let s1 = emitted_cleanup_to(f, s1, places1.checkpoint);
        let s2 = emitted_cleanup_to(f, s2, places2.checkpoint);
        if leaves {
            left_loop_twins(f, s1, s2);
        } else {
            returned_to_twins(f, s1, s2, places1.start, places2.start);
        }
    } else {
        emitted_cleanup_to_twins(f, s1, s2, places1.inner_checkpoint);
        let s1 = emitted_cleanup_to(f, s1, places1.inner_checkpoint);
        let s2 = emitted_cleanup_to(f, s2, places2.inner_checkpoint);
        if leaves {
            left_inner_loop_twins(f, s1, s2);
        } else {
            returned_to_twins(f, s1, s2, places1.inner_start, places2.inner_start);
        }
    }
}

pub(crate) proof fn emitted_unconditional_controls_twins<R: ConstantResolver, const P: usize, const N: usize>(
    f: Frame<R, P, N>,
    s1: Emission,
    s2: Emission,
    controls: Seq<PlacedUnconditionalControl>,
    place: NestedLoopPlace,
    expected: RuntimeExpressionType,
    places1: LoopPlaces,
    places2: LoopPlaces,
    index: int,
)
    requires
        twins(s1, s2),
        loops_alike(s1, s2, places1, places2),
    ensures
        follow(
            s1,
            s2,
            emitted_unconditional_controls(f, s1, controls, place, expected, places1, index),
            emitted_unconditional_controls(f, s2, controls, place, expected, places2, index),
        ),
    decreases controls.len() - index,
{
    reveal(emitted_unconditional_controls);
    if index < controls.len() {
        if controls[index].place == place {
            match controls[index].control {
                NestedLoopUnconditionalControl::Break(target) => {
                    emitted_way_out_twins(f, s1, s2, true, target, places1, places2);
                },
                NestedLoopUnconditionalControl::Continue(target) => {
                    emitted_way_out_twins(f, s1, s2, false, target, places1, places2);
                },
                NestedLoopUnconditionalControl::Return(statement) => {
                    emitted_return_twins(f, s1, s2, statement, expected);
                },
            }
        }
        let s1 = if controls[index].place == place {
            match controls[index].control {
                NestedLoopUnconditionalControl::Break(target) => {
                    emitted_way_out(f, s1, true, target, places1)
                },
                NestedLoopUnconditionalControl::Continue(target) => {
                    emitted_way_out(f, s1, false, target, places1)
                },
                NestedLoopUnconditionalControl::Return(statement) => {
                    emitted_return(f, s1, statement, expected)
                },
            }
        } else {
            s1
        };
        let s2 = if controls[index].place == place {
            match controls[index].control {
                NestedLoopUnconditionalControl::Break(target) => {
                    emitted_way_out(f, s2, true, target, places2)
                },
                NestedLoopUnconditionalControl::Continue(target) => {
                    emitted_way_out(f, s2, false, target, places2)
                },
                NestedLoopUnconditionalControl::Return(statement) => {
                    emitted_return(f, s2, statement, expected)
                },
            }
        } else {
            s2
        };
        emitted_unconditional_controls_twins(
            f,
            s1,
            s2,
            controls,
            place,
            expected,
            places1,
            places2,
            index + 1,
        );
    }
}

pub(crate) proof fn emitted_conditional_control_twins<R: ConstantResolver, const P: usize, const N: usize>(
    f: Frame<R, P, N>,
    s1: Emission,
    s2: Emission,
    control: ConditionalLoopControl,
    leaves: bool,
    target: NestedLoopControlTarget,
    places1: LoopPlaces,
    places2: LoopPlaces,
)
    requires
        twins(s1, s2),
        loops_alike(s1, s2, places1, places2),
    ensures
        follow(
            s1,
            s2,
            emitted_conditional_control(f, s1, control, leaves, target, places1),
            emitted_conditional_control(f, s2, control, leaves, target, places2),
        ),
{
    reveal(branch_place);
    reveal(place);
    reveal(emitted_conditional_control);
    match condition_of(f, s1.locals, control.condition@, control.condition_span) {
        Err(error) => {},
        Ok(condition) => {
            emitted_test_twins(f, s1, s2, condition);
            let s1 = emitted_test(f, s1, condition);
            let s2 = emitted_test(f, s2, condition);
            let skip1 = branch_place(s1, 2);
            let skip2 = branch_place(s2, 2);
            put_twins(f, s1, s2, [0x0fu8, 0x84, 0, 0, 0, 0]@);
            let s1 = put(f, s1, [0x0fu8, 0x84, 0, 0, 0, 0]@);
            let s2 = put(f, s2, [0x0fu8, 0x84, 0, 0, 0, 0]@);
            emitted_way_out_twins(f, s1, s2, leaves, target, places1, places2);
            let s1 = emitted_way_out(f, s1, leaves, target, places1);
            let s2 = emitted_way_out(f, s2, leaves, target, places2);
            landed_twins(f, s1, s2, skip1, skip2);
        },
    }
}

pub(crate) proof fn emitted_conditional_controls_twins<R: ConstantResolver, const P: usize, const N: usize>(
    f: Frame<R, P, N>,
    s1: Emission,
    s2: Emission,
    controls: Seq<PlacedConditionalControl>,
    place: NestedLoopPlace,
    leaves: bool,
    places1: LoopPlaces,
    places2: LoopPlaces,
    index: int,
)
    requires
        twins(s1, s2),
        loops_alike(s1, s2, places1, places2),
    ensures
        follow(
            s1,
            s2,
            emitted_conditional_controls(f, s1, controls, place, leaves, places1, index),
            emitted_conditional_controls(f, s2, controls, place, leaves, places2, index),
        ),
    decreases controls.len() - index,
{
    reveal(emitted_conditional_controls);
    if index < controls.len() {
        if controls[index].place == place {
            emitted_conditional_control_twins(
                f,
                s1,
                s2,
                controls[index].control,
                leaves,
                controls[index].target,
                places1,
                places2,
            );
        }
        let s1 = if controls[index].place == place {
            emitted_conditional_control(f, s1, controls[index].control, leaves, controls[index].target, places1)
        } else {
            s1
        };
        let s2 = if controls[index].place == place {
            emitted_conditional_control(f, s2, controls[index].control, leaves, controls[index].target, places2)
        } else {
            s2
        };
        emitted_conditional_controls_twins(
            f,
            s1,
            s2,
            controls,
            place,
            leaves,
            places1,
            places2,
            index + 1,
        );
    }
}

pub(crate) proof fn emitted_placed_returns_twins<R: ConstantResolver, const P: usize, const N: usize>(
    f: Frame<R, P, N>,
    s1: Emission,
    s2: Emission,
    placed: Seq<PlacedConditionalReturn>,
    place: NestedLoopPlace,
    expected: RuntimeExpressionType,
    index: int,
)
    requires
        twins(s1, s2),
    ensures
        follow(
            s1,
            s2,
            emitted_placed_returns(f, s1, placed, place, expected, index),
            emitted_placed_returns(f, s2, placed, place, expected, index),
        ),
    decreases placed.len() - index,
{
    reveal(emitted_placed_returns);
    if index < placed.len() {
        if placed[index].place == place {
            emitted_conditional_return_twins(f, s1, s2, placed[index].conditional, expected);
        }
        let s1 = if placed[index].place == place {
            emitted_conditional_return(f, s1, placed[index].conditional, expected)
        } else {
            s1
        };
        let s2 = if placed[index].place == place {
            emitted_conditional_return(f, s2, placed[index].conditional, expected)
        } else {
            s2
        };
        emitted_placed_returns_twins(f, s1, s2, placed, place, expected, index + 1);
    }
}

pub(crate) proof fn emitted_nested_controls_twins<R: ConstantResolver, const P: usize, const N: usize>(
    f: Frame<R, P, N>,
    s1: Emission,
    s2: Emission,
    block: NestedLoopBlock,
    action_index: usize,
    count: usize,
    order: usize,
    expected: RuntimeExpressionType,
    places1: LoopPlaces,
    places2: LoopPlaces,
)
    requires
        twins(s1, s2),
        loops_alike(s1, s2, places1, places2),
    ensures
        follow(
            s1,
            s2,
            emitted_nested_controls(f, s1, block, action_index, count, order, expected, places1),
            emitted_nested_controls(f, s2, block, action_index, count, order, expected, places2),
        ),
    decreases count - order,
{
    reveal(emitted_nested_controls);
    if order < count {
        let place1 = NestedLoopPlace { action_index, control_order: order };
        let place2 = NestedLoopPlace { action_index, control_order: order };
        emitted_unconditional_controls_twins(
            f,
            s1,
            s2,
            block.unconditional_controls@,
            place1,
            expected,
            places1,
            places2,
            0,
        );
        let s1 = emitted_unconditional_controls(
            f,
            s1,
            block.unconditional_controls@,
            place1,
            expected,
            places1,
            0,
        );
        let s2 = emitted_unconditional_controls(
            f,
            s2,
            block.unconditional_controls@,
            place2,
            expected,
            places2,
            0,
        );
        emitted_conditional_controls_twins(
            f,
            s1,
            s2,
            block.conditional_breaks@,
            place1,
            true,
            places1,
            places2,
            0,
        );
        let s1 = emitted_conditional_controls(f, s1, block.conditional_breaks@, place1, true, places1, 0);
        let s2 = emitted_conditional_controls(f, s2, block.conditional_breaks@, place2, true, places2, 0);
        emitted_placed_returns_twins(f, s1, s2, block.conditional_returns@, place1, expected, 0);
        let s1 = emitted_placed_returns(f, s1, block.conditional_returns@, place1, expected, 0);
        let s2 = emitted_placed_returns(f, s2, block.conditional_returns@, place2, expected, 0);
        emitted_conditional_controls_twins(
            f,
            s1,
            s2,
            block.conditional_continues@,
            place1,
            false,
            places1,
            places2,
            0,
        );
        let s1 = emitted_conditional_controls(f, s1, block.conditional_continues@, place1, false, places1, 0);
        let s2 = emitted_conditional_controls(f, s2, block.conditional_continues@, place2, false, places2, 0);
        emitted_nested_controls_twins(
            f,
            s1,
            s2,
            block,
            action_index,
            count,
            (order + 1) as usize,
            expected,
            places1,
            places2,
        );
    }
}

pub(crate) proof fn emitted_nested_actions_twins<R: ConstantResolver, const P: usize, const N: usize>(
    f: Frame<R, P, N>,
    s1: Emission,
    s2: Emission,
    block: NestedLoopBlock,
    count: usize,
    index: int,
    expected: RuntimeExpressionType,
    operand: Operand,
    places1: LoopPlaces,
    places2: LoopPlaces,
)
    requires
        twins(s1, s2),
        loops_alike(s1, s2, places1, places2),
    ensures
        follow(
            s1,
            s2,
            emitted_nested_actions(f, s1, block, count, index, expected, operand, places1),
            emitted_nested_actions(f, s2, block, count, index, expected, operand, places2),
        ),
    decreases block.actions@.len() - index,
{
    reveal(emitted_nested_actions);
    emitted_nested_controls_twins(
        f,
        s1,
        s2,
        block,
        index as usize,
        count,
        0,
        expected,
        places1,
        places2,
    );
    let s1 = emitted_nested_controls(f, s1, block, index as usize, count, 0, expected, places1);
    let s2 = emitted_nested_controls(f, s2, block, index as usize, count, 0, expected, places2);
    if index < block.actions.len() {
        emitted_loop_action_twins(f, s1, s2, block.actions@[index], operand);
        let s1 = emitted_loop_action(f, s1, block.actions@[index], operand);
        let s2 = emitted_loop_action(f, s2, block.actions@[index], operand);
        emitted_nested_actions_twins(
            f,
            s1,
            s2,
            block,
            count,
            index + 1,
            expected,
            operand,
            places1,
            places2,
        );
    }
}

pub(crate) proof fn emitted_nested_body_twins<R: ConstantResolver, const P: usize, const N: usize>(
    f: Frame<R, P, N>,
    s1: Emission,
    s2: Emission,
    block: NestedLoopBlock,
    expected: RuntimeExpressionType,
    operand: Operand,
    places1: LoopPlaces,
    places2: LoopPlaces,
)
    requires
        twins(s1, s2),
        loops_alike(s1, s2, places1, places2),
    ensures
        follow(
            s1,
            s2,
            emitted_nested_body(f, s1, block, expected, operand, places1),
            emitted_nested_body(f, s2, block, expected, operand, places2),
        ),
{
    reveal(emitted_nested_body);
    match number_of_controls(block) {
        None => {},
        Some(count) => {
            emitted_nested_actions_twins(
                f,
                s1,
                s2,
                block,
                count,
                0,
                expected,
                operand,
                places1,
                places2,
            );
            let s1 = emitted_nested_actions(f, s1, block, count, 0, expected, operand, places1);
            let s2 = emitted_nested_actions(f, s2, block, count, 0, expected, operand, places2);
            emitted_cleanup_to_twins(f, s1, s2, places1.inner_checkpoint);
            let s1 = emitted_cleanup_to(f, s1, places1.inner_checkpoint);
            let s2 = emitted_cleanup_to(f, s2, places2.inner_checkpoint);
            truncated_twins(f, s1, s2, places1.inner_checkpoint);
            let s1 = truncated(f, s1, places1.inner_checkpoint);
            let s2 = truncated(f, s2, places2.inner_checkpoint);
            if block.unconditional_controls.len() == 0 {
                returned_to_twins(f, s1, s2, places1.inner_start, places2.inner_start);
            }
            let s1 = if block.unconditional_controls.len() == 0 {
                returned_to(f, s1, places1.inner_start)
            } else {
                s1
            };
            let s2 = if block.unconditional_controls.len() == 0 {
                returned_to(f, s2, places2.inner_start)
            } else {
                s2
            };
            ended_inner_loop_twins(f, s1, s2);
        },
    }
}

pub(crate) proof fn emitted_nested_block_twins<R: ConstantResolver, const P: usize, const N: usize>(
    f: Frame<R, P, N>,
    s1: Emission,
    s2: Emission,
    block: NestedLoopBlock,
    expected: RuntimeExpressionType,
    operand: Operand,
    outer1: LoopPlaces,
    outer2: LoopPlaces,
)
    requires
        twins(s1, s2),
        loops_alike(s1, s2, outer1, outer2),
    ensures
        follow(
            s1,
            s2,
            emitted_nested_block(f, s1, block, expected, operand, outer1),
            emitted_nested_block(f, s2, block, expected, operand, outer2),
        ),
{
    reveal(branch_place);
    reveal(place);
    reveal(emitted_nested_block);
    let inner_start1 = place(s1);
    let inner_start2 = place(s2);
    let places1 = LoopPlaces { start: outer1.start, checkpoint: outer1.checkpoint, inner_start: inner_start1, inner_checkpoint: number_of_locals(s1.locals) };
    let places2 = LoopPlaces { start: outer2.start, checkpoint: outer2.checkpoint, inner_start: inner_start2, inner_checkpoint: number_of_locals(s2.locals) };
    let s1 = entered_inner_loop(f, s1);
    let s2 = entered_inner_loop(f, s2);
    match block.entry_condition {
        Some(control) => {
            match condition_of(f, s1.locals, control.condition@, control.condition_span) {
                Err(error) => {},
                Ok(condition) => {
                    emitted_test_twins(f, s1, s2, condition);
                    let s1 = emitted_test(f, s1, condition);
                    let s2 = emitted_test(f, s2, condition);
                    let end1 = branch_place(s1, 2);
                    let end2 = branch_place(s2, 2);
                    put_twins(f, s1, s2, [0x0fu8, 0x84, 0, 0, 0, 0]@);
                    let s1 = put(f, s1, [0x0fu8, 0x84, 0, 0, 0, 0]@);
                    let s2 = put(f, s2, [0x0fu8, 0x84, 0, 0, 0, 0]@);
                    emitted_nested_body_twins(
                        f,
                        s1,
                        s2,
                        block,
                        expected,
                        operand,
                        places1,
                        places2,
                    );
                    let s1 = emitted_nested_body(f, s1, block, expected, operand, places1);
                    let s2 = emitted_nested_body(f, s2, block, expected, operand, places2);
                    landed_twins(f, s1, s2, end1, end2);
                },
            }
        },
        None => {
            emitted_nested_body_twins(f, s1, s2, block, expected, operand, places1, places2);
        },
    }
}

pub(crate) proof fn emitted_loop_control_twins<R: ConstantResolver, const P: usize, const N: usize>(
    f: Frame<R, P, N>,
    s1: Emission,
    s2: Emission,
    control: ConditionalLoopControl,
    leaves: bool,
    places1: LoopPlaces,
    places2: LoopPlaces,
)
    requires
        twins(s1, s2),
        loops_alike(s1, s2, places1, places2),
    ensures
        follow(
            s1,
            s2,
            emitted_loop_control(f, s1, control, leaves, places1),
            emitted_loop_control(f, s2, control, leaves, places2),
        ),
{
    reveal(emitted_loop_control);
    emitted_conditional_control_twins(
        f,
        s1,
        s2,
        control,
        leaves,
        NestedLoopControlTarget::Outer,
        places1,
        places2,
    );
}

pub(crate) proof fn emitted_loop_operation_twins<R: ConstantResolver, const P: usize, const N: usize>(
    f: Frame<R, P, N>,
    s1: Emission,
    s2: Emission,
    operation: LoopOperation,
    expected: RuntimeExpressionType,
    operand: Operand,
    places1: LoopPlaces,
    places2: LoopPlaces,
)
    requires
        twins(s1, s2),
        loops_alike(s1, s2, places1, places2),
    ensures
        follow(
            s1,
            s2,
            emitted_loop_operation(f, s1, operation, expected, operand, places1),
            emitted_loop_operation(f, s2, operation, expected, operand, places2),
        ),
{
    reveal(emitted_loop_operation);
    match operation {
        LoopOperation::Local(local) => {
            emitted_local_twins(f, s1, s2, local, operand, true);
        },
        LoopOperation::Assignment(assignment) => {
            emitted_assignment_twins(f, s1, s2, assignment);
        },
        LoopOperation::Expression(statement) => {
            emitted_expression_statement_twins(f, s1, s2, statement);
        },
        LoopOperation::NestedUnitLoop => {},
        LoopOperation::NestedBlock(block) => {
            emitted_nested_block_twins(f, s1, s2, block, expected, operand, places1, places2);
        },
        LoopOperation::ConditionalBlock(block) => {
            emitted_conditional_block_twins(f, s1, s2, block, expected, operand, places1, places2);
        },
        LoopOperation::ConditionalBreak(control) => {
            emitted_loop_control_twins(f, s1, s2, control, true, places1, places2);
        },
        LoopOperation::ConditionalContinue(control) => {
            emitted_loop_control_twins(f, s1, s2, control, false, places1, places2);
        },
        LoopOperation::ConditionalReturn(conditional) => {
            emitted_conditional_return_twins(f, s1, s2, conditional, expected);
        },
        LoopOperation::Break => {
            emitted_way_out_twins(
                f,
                s1,
                s2,
                true,
                NestedLoopControlTarget::Outer,
                places1,
                places2,
            );
        },
        LoopOperation::Continue => {
            emitted_way_out_twins(
                f,
                s1,
                s2,
                false,
                NestedLoopControlTarget::Outer,
                places1,
                places2,
            );
        },
        LoopOperation::Return(statement) => {
            emitted_return_twins(f, s1, s2, statement, expected);
        },
    }
}

pub(crate) proof fn emitted_loop_operations_twins<R: ConstantResolver, const P: usize, const N: usize>(
    f: Frame<R, P, N>,
    s1: Emission,
    s2: Emission,
    operations: Seq<LoopOperation>,
    expected: RuntimeExpressionType,
    operand: Operand,
    places1: LoopPlaces,
    places2: LoopPlaces,
    index: int,
)
    requires
        twins(s1, s2),
        loops_alike(s1, s2, places1, places2),
    ensures
        follow(
            s1,
            s2,
            emitted_loop_operations(f, s1, operations, expected, operand, places1, index),
            emitted_loop_operations(f, s2, operations, expected, operand, places2, index),
        ),
    decreases operations.len() - index,
{
    reveal(emitted_loop_operations);
    if index < operations.len() {
        emitted_loop_operation_twins(
            f,
            s1,
            s2,
            operations[index],
            expected,
            operand,
            places1,
            places2,
        );
        let s1 = emitted_loop_operation(f, s1, operations[index], expected, operand, places1);
        let s2 = emitted_loop_operation(f, s2, operations[index], expected, operand, places2);
        match operations[index] {
            LoopOperation::Return(_) => {},
            _ => {
                emitted_loop_operations_twins(
                    f,
                    s1,
                    s2,
                    operations,
                    expected,
                    operand,
                    places1,
                    places2,
                    index + 1,
                );
            },
        }
    }
}

pub(crate) proof fn emitted_loop_body_twins<R: ConstantResolver, const P: usize, const N: usize>(
    f: Frame<R, P, N>,
    s1: Emission,
    s2: Emission,
    operations: Seq<LoopOperation>,
    expected: RuntimeExpressionType,
    operand: Operand,
    start1: usize,
    start2: usize,
)
    requires
        twins(s1, s2),
        same_code(s1, s2) ==> start1 == start2,
    ensures
        follow(
            s1,
            s2,
            emitted_loop_body(f, s1, operations, expected, operand, start1),
            emitted_loop_body(f, s2, operations, expected, operand, start2),
        ),
{
    reveal(emitted_loop_body);
    let places1 = LoopPlaces { start: start1, checkpoint: number_of_locals(s1.locals), inner_start: start1, inner_checkpoint: number_of_locals(s1.locals) };
    let places2 = LoopPlaces { start: start2, checkpoint: number_of_locals(s2.locals), inner_start: start2, inner_checkpoint: number_of_locals(s2.locals) };
    emitted_loop_operations_twins(f, s1, s2, operations, expected, operand, places1, places2, 0);
    let s1 = emitted_loop_operations(f, s1, operations, expected, operand, places1, 0);
    let s2 = emitted_loop_operations(f, s2, operations, expected, operand, places2, 0);
    if !ends_loop(operations, 0) {
        emitted_cleanup_to_twins(f, s1, s2, places1.checkpoint);
        let s1 = emitted_cleanup_to(f, s1, places1.checkpoint);
        let s2 = emitted_cleanup_to(f, s2, places2.checkpoint);
        returned_to_twins(f, s1, s2, start1, start2);
    }
    let s1 = if !ends_loop(operations, 0) {
        let s1 = emitted_cleanup_to(f, s1, places1.checkpoint);
        returned_to(f, s1, start1)
    } else {
        s1
    };
    let s2 = if !ends_loop(operations, 0) {
        let s2 = emitted_cleanup_to(f, s2, places2.checkpoint);
        returned_to(f, s2, start2)
    } else {
        s2
    };
    truncated_twins(f, s1, s2, places1.checkpoint);
    let s1 = truncated(f, s1, places1.checkpoint);
    let s2 = truncated(f, s2, places2.checkpoint);
    ended_loop_twins(f, s1, s2);
}

pub(crate) proof fn emitted_while_loop_twins<R: ConstantResolver, const P: usize, const N: usize>(
    f: Frame<R, P, N>,
    s1: Emission,
    s2: Emission,
    statement: WhileLoop,
    expected: RuntimeExpressionType,
    operand: Operand,
)
    requires
        twins(s1, s2),
    ensures
        follow(
            s1,
            s2,
            emitted_while_loop(f, s1, statement, expected, operand),
            emitted_while_loop(f, s2, statement, expected, operand),
        ),
{
    reveal(branch_place);
    reveal(place);
    reveal(emitted_while_loop);
    match statement.condition {
        Some(control) => {
            match condition_of(f, s1.locals, control.condition@, control.condition_span) {
                Err(error) => {},
                Ok(condition) => {
                    let start1 = place(s1);
                    let start2 = place(s2);
                    let s1 = entered_loop(f, s1);
                    let s2 = entered_loop(f, s2);
                    emitted_test_twins(f, s1, s2, condition);
                    let s1 = emitted_test(f, s1, condition);
                    let s2 = emitted_test(f, s2, condition);
                    left_loop_on_zero_twins(f, s1, s2);
                    let s1 = left_loop_on_zero(f, s1);
                    let s2 = left_loop_on_zero(f, s2);
                    emitted_loop_body_twins(
                        f,
                        s1,
                        s2,
                        statement.operations@,
                        expected,
                        operand,
                        start1,
                        start2,
                    );
                },
            }
        },
        None => {
            let start1 = place(s1);
            let start2 = place(s2);
            let s1 = entered_loop(f, s1);
            let s2 = entered_loop(f, s2);
            emitted_loop_body_twins(
                f,
                s1,
                s2,
                statement.operations@,
                expected,
                operand,
                start1,
                start2,
            );
        },
    }
}

pub(crate) proof fn emitted_while_loops_twins<R: ConstantResolver, const P: usize, const N: usize>(
    f: Frame<R, P, N>,
    s1: Emission,
    s2: Emission,
    loops: Seq<WhileLoop>,
    expected: RuntimeExpressionType,
    operand: Operand,
    index: int,
)
    requires
        twins(s1, s2),
    ensures
        follow(
            s1,
            s2,
            emitted_while_loops(f, s1, loops, expected, operand, index),
            emitted_while_loops(f, s2, loops, expected, operand, index),
        ),
    decreases loops.len() - index,
{
    reveal(emitted_while_loops);
    if index < loops.len() {
        emitted_while_loop_twins(f, s1, s2, loops[index], expected, operand);
        let s1 = emitted_while_loop(f, s1, loops[index], expected, operand);
        let s2 = emitted_while_loop(f, s2, loops[index], expected, operand);
        emitted_while_loops_twins(f, s1, s2, loops, expected, operand, index + 1);
    }
}

pub(crate) proof fn emitted_statement_twins<R: ConstantResolver, const P: usize, const N: usize>(
    f: Frame<R, P, N>,
    s1: Emission,
    s2: Emission,
    statement: BodyStatement,
    expected: RuntimeExpressionType,
    operand: Operand,
)
    requires
        twins(s1, s2),
    ensures
        follow(
            s1,
            s2,
            emitted_statement(f, s1, statement, expected, operand),
            emitted_statement(f, s2, statement, expected, operand),
        ),
{
    reveal(emitted_statement);
    match statement {
        BodyStatement::Loop => {},
        BodyStatement::Local(local) => {
            emitted_local_twins(f, s1, s2, local, operand, false);
        },
        BodyStatement::Assignment(assignment) => {
            emitted_assignment_twins(f, s1, s2, assignment);
        },
        BodyStatement::ConditionalReturn(conditional) => {
            emitted_conditional_return_twins(f, s1, s2, conditional, expected);
        },
        BodyStatement::ConditionalReturnElse(conditional) => {
            emitted_conditional_return_else_twins(f, s1, s2, conditional, expected);
        },
        BodyStatement::ConditionalAssignment(conditional) => {
            emitted_conditional_assignment_twins(f, s1, s2, conditional, expected, operand);
        },
        BodyStatement::Expression(statement) => {
            emitted_expression_statement_twins(f, s1, s2, statement);
        },
        BodyStatement::Return(statement) => {
            emitted_return_twins(f, s1, s2, statement, expected);
        },
    }
}

pub(crate) proof fn emitted_later_statements_twins<R: ConstantResolver, const P: usize, const N: usize>(
    f: Frame<R, P, N>,
    s1: Emission,
    s2: Emission,
    statements: Seq<BodyStatement>,
    expected: RuntimeExpressionType,
    operand: Operand,
    index: int,
)
    requires
        twins(s1, s2),
    ensures
        follow(
            s1,
            s2,
            emitted_later_statements(f, s1, statements, expected, operand, index),
            emitted_later_statements(f, s2, statements, expected, operand, index),
        ),
    decreases statements.len() - index,
{
    reveal(emitted_later_statements);
    if index < statements.len() {
        emitted_statement_twins(f, s1, s2, statements[index], expected, operand);
        let s1 = emitted_statement(f, s1, statements[index], expected, operand);
        let s2 = emitted_statement(f, s2, statements[index], expected, operand);
        emitted_later_statements_twins(f, s1, s2, statements, expected, operand, index + 1);
    }
}

pub(crate) proof fn emitted_statements_twins<R: ConstantResolver, const P: usize, const N: usize>(
    f: Frame<R, P, N>,
    s1: Emission,
    s2: Emission,
    body: FunctionBody,
    expected: RuntimeExpressionType,
    operand: Operand,
    index: int,
)
    requires
        twins(s1, s2),
    ensures
        follow(
            s1,
            s2,
            emitted_statements(f, s1, body, expected, operand, index),
            emitted_statements(f, s2, body, expected, operand, index),
        ),
    decreases body.statements@.len() - index,
{
    reveal(emitted_statements);
    if index < body.statements.len() {
        match body.statements@[index] {
            BodyStatement::Loop => {
                emitted_while_loops_twins(f, s1, s2, body.while_loops@, expected, operand, 0);
                let s1 = emitted_while_loops(f, s1, body.while_loops@, expected, operand, 0);
                let s2 = emitted_while_loops(f, s2, body.while_loops@, expected, operand, 0);
                emitted_later_statements_twins(
                    f,
                    s1,
                    s2,
                    body.statements@,
                    expected,
                    operand,
                    index,
                );
            },
            statement => {
                emitted_statement_twins(f, s1, s2, statement, expected, operand);
                let s1 = emitted_statement(f, s1, statement, expected, operand);
                let s2 = emitted_statement(f, s2, statement, expected, operand);
                emitted_statements_twins(f, s1, s2, body, expected, operand, index + 1);
            },
        }
    } else {
        emitted_while_loops_twins(f, s1, s2, body.while_loops@, expected, operand, 0);
    }
}

pub(crate) proof fn emitted_tail_twins<R: ConstantResolver, const P: usize, const N: usize>(
    f: Frame<R, P, N>,
    s1: Emission,
    s2: Emission,
    body: FunctionBody,
    expected: RuntimeExpressionType,
)
    requires
        twins(s1, s2),
    ensures
        follow(
            s1,
            s2,
            emitted_tail(f, s1, body, expected),
            emitted_tail(f, s2, body, expected),
        ),
{
    reveal(emitted_tail);
    if !body.tail_diverges {
        match value_of_type(f, s1.locals, body.tail@, body.tail_span, expected) {
            Err(error) => {},
            Ok(tree) => {
                emitted_typed_return_twins(f, s1, s2, tree, expected);
            },
        }
    }
}

pub(crate) proof fn emitted_body_twins<R: ConstantResolver, const P: usize, const N: usize>(
    f: Frame<R, P, N>,
    s1: Emission,
    s2: Emission,
    body: FunctionBody,
    expected: RuntimeExpressionType,
    operand: Operand,
)
    requires
        twins(s1, s2),
    ensures
        follow(
            s1,
            s2,
            emitted_body(f, s1, body, expected, operand),
            emitted_body(f, s2, body, expected, operand),
        ),
{
    reveal(emitted_body);
    emitted_prologue_twins(f, s1, s2);
    let s1 = emitted_prologue(f, s1);
    let s2 = emitted_prologue(f, s2);
    emitted_statements_twins(f, s1, s2, body, expected, operand, 0);
    let s1 = emitted_statements(f, s1, body, expected, operand, 0);
    let s2 = emitted_statements(f, s2, body, expected, operand, 0);
    emitted_tail_twins(f, s1, s2, body, expected);
    let s1 = emitted_tail(f, s1, body, expected);
    let s2 = emitted_tail(f, s2, body, expected);
    finished_twins(f, s1, s2);
}

} // verus!
