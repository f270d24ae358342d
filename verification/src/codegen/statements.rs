//! The code of statements.
use crate::codegen::error::CodegenErrorKind;
use crate::codegen::frame::{
    Frame, X86_64Abi, form_at, local_named, place_from,
};
use crate::codegen::runtime::{
    ArrayLayout, RuntimeArrayElementType, RuntimeExpressionType, array_layout,
    element_bytes, element_type, fat_reference, index_type, local_slots, sum_of,
    types_agree,
};
use crate::expression::{
    ConstantResolver, ExprId, Form, MAX_ARRAY_ELEMENTS, MAX_EXPRESSION_DEPTH, Tree,
};
use crate::function::{
    Assignment, AssignmentIndex, AssignmentOperator, BodyStatement, ConditionalAssignment,
    ConditionalAssignmentAction, ConditionalLoopAction, ConditionalLoopBlock,
    ConditionalLoopControl, ConditionalLoopElseArm, ConditionalLoopTerminal,
    ConditionalReturn, ConditionalReturnElse, ExpressionStatement, FunctionBody,
    LocalBinding, LoopOperation, LoopReturn, NestedLoopBlock, NestedLoopControlTarget,
    NestedLoopPlace, NestedLoopUnconditionalControl, PlacedConditionalControl,
    PlacedConditionalReturn, PlacedUnconditionalControl, WhileLoop,
};
use crate::integer::IntegerType;
use crate::ir::IrErrorKind;
use crate::codegen::emission::{
    Emission, branch_place, ended_inner_loop, ended_loop, entered_inner_loop, entered_loop,
    failed, failed_with, finished, landed, left_inner_loop, left_loop, left_loop_on_zero,
    place, put, quad_bytes, raised, released, returned_to, slots_from, trapped, tree_size,
    truncated, with_local,
};
use crate::codegen::encoding::{
    allows_operator, excess, number_of_locals, operation_of_assignment,
};
use crate::codegen::instructions::{
    emitted_binary, emitted_cleanup_bytes, emitted_cleanup_to, emitted_constant,
    emitted_epilogue, emitted_identifier, emitted_identifier_address,
    emitted_indexed_address, emitted_indexed_store_address, emitted_local_element,
    emitted_local_element_store, emitted_moved_slots, emitted_packed_array,
    emitted_packed_word, emitted_prologue, emitted_reference_load, emitted_reference_store,
    emitted_result_elements, emitted_scoped_cleanup, emitted_slice_length,
    emitted_slots_cleanup, emitted_stack_slot, emitted_store_stack_slot,
    emitted_string_range_boundaries,
};
use crate::codegen::typing::{
    known_name, reference_source, typed,
};
use crate::codegen::selection::{
    IndexSource, RangeParts, known_index, range_parts, source_of_index,
};
use crate::codegen::values::{
    emitted_array, emitted_expression,
};
use crate::codegen::trees::{
    LoopPlaces, Operand, condition_of, empty_text, ends_loop, error_in_body,
    number_of_controls, tree_and_type, type_of_local, type_of_target, value_of_type,
};
use crate::codegen::assignments::{
    ElementTarget, problem_of_dereference, problem_of_operator, slot_of_result,
    target_of_address, target_of_assignment, width_of_change,
};
use vstd::prelude::*;

verus! {

/// Puts the start of a range on the stack.
#[verifier::opaque]
pub open spec fn emitted_range_start<R: ConstantResolver, const P: usize, const N: usize>(
    f: Frame<R, P, N>,
    s: Emission,
    tree: Tree,
    start: Option<ExprId>,
    depth: int,
    fuel: int,
) -> Emission {
    let s = match start {
        Some(start) => {
            emitted_expression(f, s, tree, start, depth + 1, fuel)
        },
        None => {
            put(f, s, [0x31u8, 0xc0]@)
        },
    };
    let s = put(f, s, [0x50u8]@);
    raised(f, s, 1)
}

/// Stops the program where a range ends before it starts.
#[verifier::opaque]
pub open spec fn emitted_range_order<R: ConstantResolver, const P: usize, const N: usize>(
    f: Frame<R, P, N>,
    s: Emission,
    inclusive: bool,
) -> Emission {
    let s = if inclusive {
        let s = put(f, s, [0x48u8, 0x83, 0xc0, 0x01]@);
        trapped(f, s, 0x82)
    } else {
        s
    };
    let s = put(f, s, [0x48u8, 0x8b, 0x0c, 0x24, 0x48, 0x39, 0xc1]@);
    trapped(f, s, 0x87)
}

/// Stops the program where a range ends outside, and puts its length on the stack.
#[verifier::opaque]
pub open spec fn emitted_range_length<R: ConstantResolver, const P: usize, const N: usize>(
    f: Frame<R, P, N>,
    s: Emission,
) -> Emission {
    let s = put(f, s, [0x48u8, 0x39, 0xd0]@);
    let s = trapped(f, s, 0x87);
    let s = put(f, s, [0x48u8, 0x29, 0xc8, 0x50]@);
    raised(f, s, 1)
}

/// Puts the start and the length of a range of a known number of elements on the stack.
#[verifier::opaque]
pub open spec fn emitted_counted_range<R: ConstantResolver, const P: usize, const N: usize>(
    f: Frame<R, P, N>,
    s: Emission,
    tree: Tree,
    parts: RangeParts,
    count: usize,
    depth: int,
    fuel: int,
) -> Emission {
    let s = emitted_range_start(f, s, tree, parts.start, depth, fuel);
    let s = match parts.end {
        Some(end) => {
            emitted_expression(f, s, tree, end, depth + 1, fuel)
        },
        None => {
            emitted_constant(f, s, count as u64)
        },
    };
    let s = emitted_range_order(f, s, parts.inclusive);
    let s = put(f, s, [0x48u8, 0xba]@);
    let s = put(f, s, quad_bytes(count as u64 as int));
    emitted_range_length(f, s)
}

/// Puts the start and the length of a range of a slice on the stack.
#[verifier::opaque]
pub open spec fn emitted_sliced_range<R: ConstantResolver, const P: usize, const N: usize>(
    f: Frame<R, P, N>,
    s: Emission,
    tree: Tree,
    parts: RangeParts,
    source: Seq<char>,
    depth: int,
    fuel: int,
) -> Emission {
    let s = emitted_range_start(f, s, tree, parts.start, depth, fuel);
    let s = match parts.end {
        Some(end) => {
            emitted_expression(f, s, tree, end, depth + 1, fuel)
        },
        None => {
            emitted_slice_length(f, s, source)
        },
    };
    let s = emitted_range_order(f, s, parts.inclusive);
    let s = put(f, s, [0x50u8]@);
    let s = raised(f, s, 1);
    let s = emitted_slice_length(f, s, source);
    let s = put(f, s, [0x48u8, 0x89, 0xc2, 0x58]@);
    let s = released(f, s, 1);
    emitted_range_length(f, s)
}

/// Turns an address, a start and a length into the address and the length of the range.
#[verifier::opaque]
pub open spec fn emitted_range_result<R: ConstantResolver, const P: usize, const N: usize>(
    f: Frame<R, P, N>,
    s: Emission,
    element: RuntimeArrayElementType,
) -> Emission {
    let s = put(f, s, [0x48u8, 0x8b, 0x4c, 0x24, 0x08]@);
    match element_bytes(element) {
        None => {
            failed(f, s, CodegenErrorKind::UnsupportedRuntimeType)
        },
        Some(bytes) => {
            let s = if bytes == 2 {
                put(f, s, [0x48u8, 0xc1, 0xe1, 0x01]@)
            } else if bytes == 4 {
                put(f, s, [0x48u8, 0xc1, 0xe1, 0x02]@)
            } else if bytes == 8 {
                put(f, s, [0x48u8, 0xc1, 0xe1, 0x03]@)
            } else if bytes != 0 && bytes != 1 {
                failed(f, s, CodegenErrorKind::UnsupportedRuntimeType)
            } else {
                s
            };
            let s = put(
                f,
                s,
                [0x48u8, 0x01, 0xc8, 0x48, 0x89, 0xc2, 0x59, 0x48, 0x83, 0xc4, 0x08, 0x52, 0x51]@,
            );
            released(f, s, 2)
        },
    }
}

/// Puts the address and the length of a range on the stack.
#[verifier::opaque]
pub open spec fn emitted_range_slice<R: ConstantResolver, const P: usize, const N: usize>(
    f: Frame<R, P, N>,
    s: Emission,
    tree: Tree,
    parts: RangeParts,
    depth: int,
    fuel: int,
) -> Emission {
    match typed(f, s.locals, tree, parts.base, depth + 1) {
        Err(kind) => {
            failed(f, s, kind)
        },
        Ok(ty) => {
            match source_of_index(ty) {
                IndexSource::Referenced { element, count } => {
                    let s = emitted_counted_range(f, s, tree, parts, count, depth, fuel);
                    let s = emitted_expression(f, s, tree, parts.base, depth + 1, fuel);
                    emitted_range_result(f, s, element)
                },
                IndexSource::Slice { element } => {
                    match reference_source(tree, parts.base) {
                        None => {
                            failed(f, s, CodegenErrorKind::RuntimeExpressionUnsupported)
                        },
                        Some(source) => {
                            let s = emitted_sliced_range(f, s, tree, parts, source, depth, fuel);
                            let s = emitted_expression(f, s, tree, parts.base, depth + 1, fuel);
                            emitted_range_result(f, s, element)
                        },
                    }
                },
                IndexSource::Text => {
                    match reference_source(tree, parts.base) {
                        None => {
                            failed(f, s, CodegenErrorKind::RuntimeExpressionUnsupported)
                        },
                        Some(source) => {
                            let s = emitted_sliced_range(f, s, tree, parts, source, depth, fuel);
                            let s = emitted_expression(f, s, tree, parts.base, depth + 1, fuel);
                            let s = emitted_string_range_boundaries(f, s, source);
                            emitted_range_result(
                                f,
                                s,
                                RuntimeArrayElementType::Integer(Some(IntegerType::U8)),
                            )
                        },
                    }
                },
                IndexSource::Array { element, count } => {
                    match form_at(tree, parts.base) {
                        Some(Form::Identifier(name)) => {
                            let s = emitted_counted_range(f, s, tree, parts, count, depth, fuel);
                            let s = emitted_identifier_address(f, s, name);
                            emitted_range_result(f, s, element)
                        },
                        _ => {
                            failed(f, s, CodegenErrorKind::RuntimeTypeMismatch)
                        },
                    }
                },
                IndexSource::Other => {
                    failed(f, s, CodegenErrorKind::RuntimeTypeMismatch)
                },
            }
        },
    }
}

/// Puts the address and the length of a slice on the stack.
#[verifier::opaque]
pub open spec fn emitted_slice_value<R: ConstantResolver, const P: usize, const N: usize>(
    f: Frame<R, P, N>,
    s: Emission,
    tree: Tree,
    id: ExprId,
    depth: int,
    fuel: int,
) -> Emission
    decreases fuel,
{
    if fuel <= 0 || depth >= MAX_EXPRESSION_DEPTH {
        failed(f, s, CodegenErrorKind::Lowering(IrErrorKind::NestingLimitExceeded))
    } else {
        match form_at(tree, id) {
            Some(Form::If { condition, then_branch, else_branch }) => {
                let s = emitted_expression(f, s, tree, condition, depth + 1, fuel - 1);
                let s = put(f, s, [0x48u8, 0x85, 0xc0]@);
                let otherwise = branch_place(s, 2);
                let s = put(f, s, [0x0fu8, 0x84, 0, 0, 0, 0]@);
                let s = emitted_slice_value(f, s, tree, then_branch, depth + 1, fuel - 1);
                let end = branch_place(s, 1);
                let s = put(f, s, [0xe9u8, 0, 0, 0, 0]@);
                let s = landed(f, s, otherwise);
                let s = emitted_slice_value(f, s, tree, else_branch, depth + 1, fuel - 1);
                landed(f, s, end)
            },
            _ => {
                match range_parts(tree, id) {
                    Some(parts) => {
                        emitted_range_slice(f, s, tree, parts, depth, fuel)
                    },
                    None => {
                        match reference_source(tree, id) {
                            None => {
                                failed(f, s, CodegenErrorKind::RuntimeExpressionUnsupported)
                            },
                            Some(source) => {
                                let s = emitted_expression(f, s, tree, id, depth + 1, fuel);
                                let s = put(f, s, [0x50u8]@);
                                let s = raised(f, s, 1);
                                let s = emitted_slice_length(f, s, source);
                                let s = released(f, s, 1);
                                put(f, s, [0x50u8]@)
                            },
                        }
                    },
                }
            },
        }
    }
}

/// Returns a slice, whose address and length may still be on the stack.
#[verifier::opaque]
pub open spec fn emitted_slice_result<R: ConstantResolver, const P: usize, const N: usize>(
    f: Frame<R, P, N>,
    s: Emission,
    stacked: bool,
) -> Emission {
    let s = if f.abi == X86_64Abi::SystemV {
        put(f, s, [0x48u8, 0x89, 0xc2, 0x48, 0x89, 0xc8]@)
    } else {
        let s = put(f, s, [0x49u8, 0x89, 0xc0]@);
        match slot_of_result(stacked, s.temporaries, slots_from(s.locals, 0), f.saved_parameter_slots) {
            None => {
                failed(f, s, CodegenErrorKind::OutputTooSmall)
            },
            Some(slot) => {
                let s = emitted_stack_slot(f, s, slot);
                put(f, s, [0x48u8, 0x89, 0x08, 0x4c, 0x89, 0x40, 0x08]@)
            },
        }
    };
    let s = if stacked {
        emitted_cleanup_bytes(f, s, 16)
    } else {
        s
    };
    emitted_epilogue(f, s)
}

/// Returns a slice.
#[verifier::opaque]
pub open spec fn emitted_slice_return<R: ConstantResolver, const P: usize, const N: usize>(
    f: Frame<R, P, N>,
    s: Emission,
    tree: Tree,
    root: ExprId,
    fuel: int,
) -> Emission
    decreases fuel,
{
    if fuel <= 0 {
        failed(f, s, CodegenErrorKind::Lowering(IrErrorKind::NestingLimitExceeded))
    } else {
        match form_at(tree, root) {
            Some(Form::If { condition, then_branch, else_branch }) => {
                let s = emitted_expression(f, s, tree, condition, 0, fuel - 1);
                let s = put(f, s, [0x48u8, 0x85, 0xc0]@);
                let otherwise = branch_place(s, 2);
                let s = put(f, s, [0x0fu8, 0x84, 0, 0, 0, 0]@);
                let s = emitted_slice_return(f, s, tree, then_branch, fuel - 1);
                let s = landed(f, s, otherwise);
                emitted_slice_return(f, s, tree, else_branch, fuel - 1)
            },
            _ => {
                match range_parts(tree, root) {
                    Some(parts) => {
                        let s = emitted_range_slice(f, s, tree, parts, 0, fuel);
                        let s = emitted_stack_slot(f, s, 1);
                        let s = put(f, s, [0x48u8, 0x89, 0xc1]@);
                        let s = emitted_stack_slot(f, s, 0);
                        emitted_slice_result(f, s, true)
                    },
                    None => {
                        match reference_source(tree, root) {
                            None => {
                                failed(f, s, CodegenErrorKind::RuntimeExpressionUnsupported)
                            },
                            Some(source) => {
                                let s = emitted_expression(f, s, tree, root, 0, fuel);
                                let s = put(f, s, [0x48u8, 0x89, 0xc1]@);
                                let s = emitted_slice_length(f, s, source);
                                emitted_slice_result(f, s, false)
                            },
                        }
                    },
                }
            },
        }
    }
}

/// Puts an array on the stack where its caller wants it.
#[verifier::opaque]
pub open spec fn emitted_result_transport<R: ConstantResolver, const P: usize, const N: usize>(
    f: Frame<R, P, N>,
    s: Emission,
    layout: ArrayLayout,
    count: usize,
) -> Emission {
    if layout.words == 0 {
        s
    } else if f.uses_sret {
        match slot_of_result(false, s.temporaries, slots_from(s.locals, 0), f.saved_parameter_slots) {
            None => {
                failed(f, s, CodegenErrorKind::OutputTooSmall)
            },
            Some(slot) => {
                let s = emitted_stack_slot(f, s, slot);
                let s = put(f, s, [0x48u8, 0x89, 0xc2]@);
                let s = emitted_result_elements(f, s, count, layout.element_bytes, 0);
                put(f, s, [0x48u8, 0x89, 0xd0]@)
            },
        }
    } else if layout.words == 1 {
        emitted_packed_word(f, s, count, layout.element_bytes, 0)
    } else if f.abi == X86_64Abi::SystemV && layout.words == 2 {
        let s = emitted_packed_word(f, s, count, layout.element_bytes, 1);
        let s = put(f, s, [0x48u8, 0x89, 0xc1]@);
        let s = emitted_packed_word(f, s, count, layout.element_bytes, 0);
        put(f, s, [0x48u8, 0x89, 0xca]@)
    } else {
        failed(f, s, CodegenErrorKind::UnsupportedReturnType)
    }
}

/// Returns a value.
#[verifier::opaque]
pub open spec fn emitted_typed_return<R: ConstantResolver, const P: usize, const N: usize>(
    f: Frame<R, P, N>,
    s: Emission,
    tree: Tree,
    expected: RuntimeExpressionType,
) -> Emission {
    if fat_reference(expected) {
        emitted_slice_return(f, s, tree, tree.root, tree_size(tree))
    } else {
        match expected {
            RuntimeExpressionType::Array { count, .. } => {
                match array_layout(expected) {
                    None => {
                        failed(f, s, CodegenErrorKind::UnsupportedReturnType)
                    },
                    Some(layout) => {
                        let s = emitted_array(f, s, tree, tree.root, count, tree_size(tree));
                        let s = emitted_result_transport(f, s, layout, count);
                        let s = released(f, s, count);
                        let s = emitted_slots_cleanup(f, s, count);
                        emitted_epilogue(f, s)
                    },
                }
            },
            _ => {
                let s = emitted_expression(f, s, tree, tree.root, 0, tree_size(tree));
                emitted_epilogue(f, s)
            },
        }
    }
}

/// A `return`.
#[verifier::opaque]
pub open spec fn emitted_return<R: ConstantResolver, const P: usize, const N: usize>(
    f: Frame<R, P, N>,
    s: Emission,
    statement: LoopReturn,
    expected: RuntimeExpressionType,
) -> Emission {
    match value_of_type(f, s.locals, statement.value@, statement.value_span, expected) {
        Err(error) => {
            failed_with(s, error)
        },
        Ok(tree) => {
            emitted_typed_return(f, s, tree, expected)
        },
    }
}

/// Tests a condition.
#[verifier::opaque]
pub open spec fn emitted_test<R: ConstantResolver, const P: usize, const N: usize>(
    f: Frame<R, P, N>,
    s: Emission,
    tree: Tree,
) -> Emission {
    let s = emitted_expression(f, s, tree, tree.root, 0, tree_size(tree));
    put(f, s, [0x48u8, 0x85, 0xc0]@)
}

/// A `return` that a condition guards.
#[verifier::opaque]
pub open spec fn emitted_conditional_return<R: ConstantResolver, const P: usize, const N: usize>(
    f: Frame<R, P, N>,
    s: Emission,
    conditional: ConditionalReturn,
    expected: RuntimeExpressionType,
) -> Emission {
    match condition_of(f, s.locals, conditional.condition@, conditional.condition_span) {
        Err(error) => {
            failed_with(s, error)
        },
        Ok(condition) => {
            match value_of_type(f, s.locals, conditional.value@, conditional.value_span, expected) {
                Err(error) => {
                    failed_with(s, error)
                },
                Ok(tree) => {
                    let s = emitted_test(f, s, condition);
                    let skip = branch_place(s, 2);
                    let s = put(f, s, [0x0fu8, 0x84, 0, 0, 0, 0]@);
                    let s = emitted_typed_return(f, s, tree, expected);
                    landed(f, s, skip)
                },
            }
        },
    }
}

/// Conditions that each return, from one of them on.
#[verifier::opaque]
pub open spec fn emitted_return_branches<R: ConstantResolver, const P: usize, const N: usize>(
    f: Frame<R, P, N>,
    s: Emission,
    branches: Seq<ConditionalReturn>,
    expected: RuntimeExpressionType,
    index: int,
) -> Emission
    decreases branches.len() - index,
{
    if index < branches.len() {
        let s = emitted_conditional_return(f, s, branches[index], expected);
        emitted_return_branches(f, s, branches, expected, index + 1)
    } else {
        s
    }
}

/// A chain of conditions that each return.
#[verifier::opaque]
pub open spec fn emitted_conditional_return_else<R: ConstantResolver, const P: usize, const N: usize>(
    f: Frame<R, P, N>,
    s: Emission,
    conditional: ConditionalReturnElse,
    expected: RuntimeExpressionType,
) -> Emission {
    let s = emitted_return_branches(f, s, conditional.branches@, expected, 0);
    match conditional.else_value {
        None => {
            s
        },
        Some(value) => {
            emitted_return(f, s, value, expected)
        },
    }
}

/// Puts the first value of a local on the stack.
#[verifier::opaque]
pub open spec fn emitted_local_value<R: ConstantResolver, const P: usize, const N: usize>(
    f: Frame<R, P, N>,
    s: Emission,
    tree: Tree,
    ty: RuntimeExpressionType,
) -> Emission {
    if fat_reference(ty) {
        emitted_slice_value(f, s, tree, tree.root, 0, tree_size(tree))
    } else {
        match ty {
            RuntimeExpressionType::Array { element, count } => {
                let s = emitted_array(f, s, tree, tree.root, count, tree_size(tree));
                let s = emitted_packed_array(f, s, element, count);
                released(f, s, local_slots(ty))
            },
            _ => {
                let s = emitted_expression(f, s, tree, tree.root, 0, tree_size(tree));
                put(f, s, [0x50u8]@)
            },
        }
    }
}

/// A local whose name is free.
#[verifier::opaque]
pub open spec fn emitted_new_local<R: ConstantResolver, const P: usize, const N: usize>(
    f: Frame<R, P, N>,
    s: Emission,
    local: LocalBinding,
    operand: Operand,
) -> Emission {
    match tree_and_type(f, s.locals, local.initializer@, local.initializer_span) {
        Err(error) => {
            failed_with(s, error)
        },
        Ok((tree, initializer)) => {
            match type_of_local(f, local, initializer, operand) {
                Err(error) => {
                    failed_with(s, error)
                },
                Ok(ty) => {
                    if types_agree(initializer, ty) {
                        let previous = s.width;
                        let s = (Emission { width: width_of_change(ty, previous), ..s });
                        let s = emitted_local_value(f, s, tree, ty);
                        let s = (Emission { width: previous, ..s });
                        with_local(f, s, local, ty)
                    } else {
                        failed_with(
                            s,
                            error_in_body(f, CodegenErrorKind::RuntimeTypeMismatch, local.initializer_span),
                        )
                    }
                },
            }
        },
    }
}

/// A `let` statement.
#[verifier::opaque]
pub open spec fn emitted_local<R: ConstantResolver, const P: usize, const N: usize>(
    f: Frame<R, P, N>,
    s: Emission,
    local: LocalBinding,
    operand: Operand,
    allow_shadowing: bool,
) -> Emission {
    if number_of_locals(s.locals) >= P {
        failed_with(s, error_in_body(f, CodegenErrorKind::TooManyRuntimeLocals, local.name_span))
    } else if !allow_shadowing && known_name(f, s.locals, local.name@) {
        failed_with(s, error_in_body(f, CodegenErrorKind::DuplicateLocal, local.name_span))
    } else {
        emitted_new_local(f, s, local, operand)
    }
}

/// An expression whose value is not used.
#[verifier::opaque]
pub open spec fn emitted_expression_statement<R: ConstantResolver, const P: usize, const N: usize>(
    f: Frame<R, P, N>,
    s: Emission,
    statement: ExpressionStatement,
) -> Emission {
    if !empty_text(statement.expression@) {
        match tree_and_type(f, s.locals, statement.expression@, statement.span) {
            Err(error) => {
                failed_with(s, error)
            },
            Ok((tree, _)) => {
                emitted_expression(f, s, tree, tree.root, 0, tree_size(tree))
            },
        }
    } else {
        s
    }
}

/// The operation of an assignment.
#[verifier::opaque]
pub open spec fn emitted_assignment_operation<R: ConstantResolver, const P: usize, const N: usize>(
    f: Frame<R, P, N>,
    s: Emission,
    assignment: Assignment,
) -> Emission {
    match operation_of_assignment(assignment.operator) {
        None => {
            failed_with(
                s,
                error_in_body(f, CodegenErrorKind::UnsupportedRuntimeOperator, assignment.name_span),
            )
        },
        Some(operator) => {
            emitted_binary(f, s, operator)
        },
    }
}

/// The index of an assignment to one of a known number of elements.
#[verifier::opaque]
pub open spec fn emitted_assignment_index<R: ConstantResolver, const P: usize, const N: usize>(
    f: Frame<R, P, N>,
    s: Emission,
    index: AssignmentIndex,
    count: usize,
) -> Emission {
    match tree_and_type(f, s.locals, index.index@, index.span) {
        Err(error) => {
            failed_with(s, error)
        },
        Ok((tree, ty)) => {
            if !index_type(ty) {
                failed_with(s, error_in_body(f, CodegenErrorKind::RuntimeTypeMismatch, index.span))
            } else {
                match known_index(tree, tree.root, count, f.resolver) {
                    Err(kind) => {
                        failed_with(s, error_in_body(f, kind, index.span))
                    },
                    Ok(_) => {
                        emitted_expression(f, s, tree, tree.root, 0, tree_size(tree))
                    },
                }
            }
        },
    }
}

/// The index of an assignment to an element of a slice.
#[verifier::opaque]
pub open spec fn emitted_slice_assignment_index<R: ConstantResolver, const P: usize, const N: usize>(
    f: Frame<R, P, N>,
    s: Emission,
    index: AssignmentIndex,
    name: Seq<char>,
) -> Emission {
    match tree_and_type(f, s.locals, index.index@, index.span) {
        Err(error) => {
            failed_with(s, error)
        },
        Ok((tree, ty)) => {
            if !index_type(ty) {
                failed_with(s, error_in_body(f, CodegenErrorKind::RuntimeTypeMismatch, index.span))
            } else {
                let s = emitted_expression(f, s, tree, tree.root, 0, tree_size(tree));
                let s = put(f, s, [0x50u8]@);
                let s = raised(f, s, 1);
                let s = emitted_slice_length(f, s, name);
                let s = put(f, s, [0x48u8, 0x8b, 0x0c, 0x24, 0x48, 0x39, 0xc1]@);
                let in_bounds = branch_place(s, 2);
                let s = put(f, s, [0x0fu8, 0x82, 0, 0, 0, 0]@);
                let s = put(f, s, [0x0fu8, 0x0b]@);
                let s = landed(f, s, in_bounds);
                let s = put(f, s, [0x58u8]@);
                released(f, s, 1)
            }
        },
    }
}

/// The index of an assignment to an element behind a reference.
#[verifier::opaque]
pub open spec fn emitted_element_index<R: ConstantResolver, const P: usize, const N: usize>(
    f: Frame<R, P, N>,
    s: Emission,
    assignment: Assignment,
    count: Option<usize>,
) -> Emission {
    match assignment.index {
        None => {
            failed_with(
                s,
                error_in_body(f, CodegenErrorKind::RuntimeExpressionUnsupported, assignment.name_span),
            )
        },
        Some(index) => {
            match count {
                Some(count) => {
                    emitted_assignment_index(f, s, index, count)
                },
                None => {
                    emitted_slice_assignment_index(f, s, index, assignment.name@)
                },
            }
        },
    }
}

/// The value of an assignment.
#[verifier::opaque]
pub open spec fn emitted_assignment_value<R: ConstantResolver, const P: usize, const N: usize>(
    f: Frame<R, P, N>,
    s: Emission,
    assignment: Assignment,
    expected: RuntimeExpressionType,
) -> Emission {
    match value_of_type(f, s.locals, assignment.value@, assignment.value_span, expected) {
        Err(error) => {
            failed_with(s, error)
        },
        Ok(tree) => {
            emitted_expression(f, s, tree, tree.root, 0, tree_size(tree))
        },
    }
}

/// Puts the value of an element behind a reference on the stack.
#[verifier::opaque]
pub open spec fn emitted_referenced_value<R: ConstantResolver, const P: usize, const N: usize>(
    f: Frame<R, P, N>,
    s: Emission,
    element: RuntimeArrayElementType,
    bytes: usize,
) -> Emission {
    let s = emitted_indexed_address(f, s, bytes);
    let s = if bytes == 0 {
        put(f, s, [0x31u8, 0xc0]@)
    } else {
        emitted_reference_load(f, s, element)
    };
    let s = put(f, s, [0x50u8]@);
    raised(f, s, 1)
}

/// The value of an assignment, behind its operation if it has one.
#[verifier::opaque]
pub open spec fn emitted_operated_value<R: ConstantResolver, const P: usize, const N: usize>(
    f: Frame<R, P, N>,
    s: Emission,
    assignment: Assignment,
    expected: RuntimeExpressionType,
) -> Emission {
    let s = emitted_assignment_value(f, s, assignment, expected);
    if assignment.operator != AssignmentOperator::Assign {
        let s = released(f, s, 1);
        let s = put(f, s, [0x59u8]@);
        emitted_assignment_operation(f, s, assignment)
    } else {
        s
    }
}

/// The steps of an assignment to an element behind a reference.
#[verifier::opaque]
pub open spec fn emitted_referenced_store<R: ConstantResolver, const P: usize, const N: usize>(
    f: Frame<R, P, N>,
    s: Emission,
    assignment: Assignment,
    element: RuntimeArrayElementType,
    count: Option<usize>,
) -> Emission {
    let s = emitted_element_index(f, s, assignment, count);
    let s = put(f, s, [0x50u8]@);
    let s = raised(f, s, 1);
    let s = emitted_identifier(f, s, assignment.name@);
    let s = put(f, s, [0x50u8]@);
    let s = raised(f, s, 1);
    match element_bytes(element) {
        None => {
            failed(f, s, CodegenErrorKind::UnsupportedRuntimeType)
        },
        Some(bytes) => {
            let s = if assignment.operator != AssignmentOperator::Assign {
                emitted_referenced_value(f, s, element, bytes)
            } else {
                s
            };
            let s = emitted_operated_value(f, s, assignment, element_type(element));
            let s = if bytes != 0 {
                let s = put(f, s, [0x48u8, 0x8b, 0x14, 0x24]@);
                let s = emitted_indexed_store_address(f, s, bytes);
                emitted_reference_store(f, s, element)
            } else {
                s
            };
            let s = put(f, s, [0x48u8, 0x83, 0xc4, 16]@);
            released(f, s, 2)
        },
    }
}

/// An assignment to an element behind a reference.
#[verifier::opaque]
pub open spec fn emitted_referenced_assignment<R: ConstantResolver, const P: usize, const N: usize>(
    f: Frame<R, P, N>,
    s: Emission,
    assignment: Assignment,
    element: RuntimeArrayElementType,
    count: Option<usize>,
    mutable: bool,
) -> Emission {
    if !mutable {
        failed_with(s, error_in_body(f, CodegenErrorKind::ImmutableAssignment, assignment.name_span))
    } else {
        match problem_of_operator(element_type(element), assignment.operator) {
            Some(kind) => {
                failed_with(s, error_in_body(f, kind, assignment.name_span))
            },
            None => {
                let previous = s.width;
                let s = (Emission { width: width_of_change(element_type(element), previous), ..s });
                let s = emitted_referenced_store(f, s, assignment, element, count);
                (Emission { width: previous, ..s })
            },
        }
    }
}

/// The steps of an assignment through an address.
#[verifier::opaque]
pub open spec fn emitted_dereference_store<R: ConstantResolver, const P: usize, const N: usize>(
    f: Frame<R, P, N>,
    s: Emission,
    assignment: Assignment,
    pointee: RuntimeArrayElementType,
) -> Emission {
    let s = emitted_identifier(f, s, assignment.name@);
    let s = put(f, s, [0x50u8]@);
    let s = raised(f, s, 1);
    let s = if assignment.operator != AssignmentOperator::Assign {
        let s = emitted_reference_load(f, s, pointee);
        let s = put(f, s, [0x50u8]@);
        raised(f, s, 1)
    } else {
        s
    };
    let s = emitted_operated_value(f, s, assignment, element_type(pointee));
    let s = put(f, s, [0x48u8, 0x8b, 0x14, 0x24]@);
    let s = emitted_reference_store(f, s, pointee);
    let s = put(f, s, [0x48u8, 0x83, 0xc4, 0x08]@);
    released(f, s, 1)
}

/// An assignment through an address.
#[verifier::opaque]
pub open spec fn emitted_dereference_assignment<R: ConstantResolver, const P: usize, const N: usize>(
    f: Frame<R, P, N>,
    s: Emission,
    assignment: Assignment,
) -> Emission {
    match assignment.index {
        Some(_) => {
            failed_with(
                s,
                error_in_body(f, CodegenErrorKind::RuntimeExpressionUnsupported, assignment.name_span),
            )
        },
        None => {
            match type_of_target(f, s.locals, assignment.name@) {
                None => {
                    failed_with(
                        s,
                        error_in_body(f, CodegenErrorKind::UnknownRuntimeName, assignment.name_span),
                    )
                },
                Some(ty) => {
                    match target_of_address(ty) {
                        None => {
                            failed_with(
                                s,
                                error_in_body(f, CodegenErrorKind::RuntimeTypeMismatch, assignment.name_span),
                            )
                        },
                        Some((pointee, mutable)) => {
                            if !mutable {
                                failed_with(
                                    s,
                                    error_in_body(
                                        f,
                                        CodegenErrorKind::ImmutableAssignment,
                                        assignment.name_span,
                                    ),
                                )
                            } else {
                                match problem_of_dereference(element_type(pointee), assignment.operator) {
                                    Some(kind) => {
                                        failed_with(s, error_in_body(f, kind, assignment.name_span))
                                    },
                                    None => {
                                        let previous = s.width;
                                        let s = (Emission { width: width_of_change(element_type(pointee), previous), ..s });
                                        let s = emitted_dereference_store(f, s, assignment, pointee);
                                        (Emission { width: previous, ..s })
                                    },
                                }
                            }
                        },
                    }
                },
            }
        },
    }
}

/// The steps of an assignment to an element of a local.
#[verifier::opaque]
pub open spec fn emitted_indexed_store<R: ConstantResolver, const P: usize, const N: usize>(
    f: Frame<R, P, N>,
    s: Emission,
    assignment: Assignment,
    index: AssignmentIndex,
    local: usize,
    element: RuntimeArrayElementType,
    count: usize,
) -> Emission {
    let s = emitted_assignment_index(f, s, index, count);
    let s = put(f, s, [0x50u8]@);
    let s = raised(f, s, 1);
    let s = if assignment.operator != AssignmentOperator::Assign {
        let s = emitted_local_element(f, s, local, element, count, 0);
        let s = put(f, s, [0x50u8]@);
        raised(f, s, 1)
    } else {
        s
    };
    let s = emitted_operated_value(f, s, assignment, element_type(element));
    let s = put(f, s, [0x50u8]@);
    let s = raised(f, s, 1);
    let s = emitted_local_element_store(f, s, local, element, count, 1);
    let s = released(f, s, 2);
    put(f, s, [0x48u8, 0x83, 0xc4, 16]@)
}

/// An assignment to an element of a local.
#[verifier::opaque]
pub open spec fn emitted_indexed_assignment<R: ConstantResolver, const P: usize, const N: usize>(
    f: Frame<R, P, N>,
    s: Emission,
    assignment: Assignment,
    index: AssignmentIndex,
    local: usize,
    ty: RuntimeExpressionType,
) -> Emission {
    match ty {
        RuntimeExpressionType::Array { element, count } => {
            match problem_of_operator(element_type(element), assignment.operator) {
                Some(kind) => {
                    failed_with(s, error_in_body(f, kind, assignment.name_span))
                },
                None => {
                    let previous = s.width;
                    let s = (Emission { width: width_of_change(element_type(element), previous), ..s });
                    let s = emitted_indexed_store(f, s, assignment, index, local, element, count);
                    (Emission { width: previous, ..s })
                },
            }
        },
        _ => {
            failed_with(s, error_in_body(f, CodegenErrorKind::RuntimeTypeMismatch, assignment.name_span))
        },
    }
}

/// Stores a slice into a local.
#[verifier::opaque]
pub open spec fn emitted_slice_replacement<R: ConstantResolver, const P: usize, const N: usize>(
    f: Frame<R, P, N>,
    s: Emission,
    tree: Tree,
    local: usize,
) -> Emission {
    let s = emitted_slice_value(f, s, tree, tree.root, 0, tree_size(tree));
    match slots_from(s.locals, place_from(local, 1)) {
        None => {
            failed(f, s, CodegenErrorKind::OutputTooSmall)
        },
        Some(later) => {
            match sum_of(later, 3) {
                None => {
                    failed(f, s, CodegenErrorKind::OutputTooSmall)
                },
                Some(address) => {
                    let s = emitted_stack_slot(f, s, 0);
                    let s = emitted_store_stack_slot(f, s, excess(address, 1));
                    let s = emitted_stack_slot(f, s, 1);
                    let s = emitted_store_stack_slot(f, s, address);
                    emitted_cleanup_bytes(f, s, 16)
                },
            }
        },
    }
}

/// Stores an array into a local.
#[verifier::opaque]
pub open spec fn emitted_array_assignment<R: ConstantResolver, const P: usize, const N: usize>(
    f: Frame<R, P, N>,
    s: Emission,
    tree: Tree,
    local: usize,
    element: RuntimeArrayElementType,
    count: usize,
) -> Emission {
    if count > MAX_ARRAY_ELEMENTS {
        failed(f, s, CodegenErrorKind::RuntimeExpressionUnsupported)
    } else {
        let s = emitted_array(f, s, tree, tree.root, count, tree_size(tree));
        let s = emitted_packed_array(f, s, element, count);
        match slots_from(s.locals, place_from(local, 1)) {
            None => {
                failed(f, s, CodegenErrorKind::OutputTooSmall)
            },
            Some(later) => {
                let slots: usize = local_slots(RuntimeExpressionType::Array { element, count });
                let s = emitted_moved_slots(f, s, slots, later, 0);
                let s = released(f, s, slots);
                emitted_slots_cleanup(f, s, slots)
            },
        }
    }
}

/// Stores a value that takes one slot into a local.
#[verifier::opaque]
pub open spec fn emitted_scalar_assignment<R: ConstantResolver, const P: usize, const N: usize>(
    f: Frame<R, P, N>,
    s: Emission,
    tree: Tree,
    assignment: Assignment,
    local: usize,
) -> Emission {
    let s = if assignment.operator == AssignmentOperator::Assign {
        emitted_expression(f, s, tree, tree.root, 0, tree_size(tree))
    } else {
        let s = emitted_identifier(f, s, assignment.name@);
        let s = put(f, s, [0x50u8]@);
        let s = raised(f, s, 1);
        let s = emitted_expression(f, s, tree, tree.root, 0, tree_size(tree));
        let s = released(f, s, 1);
        let s = put(f, s, [0x59u8]@);
        emitted_assignment_operation(f, s, assignment)
    };
    match slots_from(s.locals, place_from(local, 1)) {
        None => {
            failed(f, s, CodegenErrorKind::OutputTooSmall)
        },
        Some(slots) => {
            emitted_store_stack_slot(f, s, slots)
        },
    }
}

/// Stores a value into a local.
#[verifier::opaque]
pub open spec fn emitted_whole_store<R: ConstantResolver, const P: usize, const N: usize>(
    f: Frame<R, P, N>,
    s: Emission,
    tree: Tree,
    assignment: Assignment,
    local: usize,
    ty: RuntimeExpressionType,
) -> Emission {
    match ty {
        RuntimeExpressionType::Array { element, count } => {
            if assignment.operator != AssignmentOperator::Assign {
                failed_with(
                    s,
                    error_in_body(f, CodegenErrorKind::UnsupportedRuntimeOperator, assignment.name_span),
                )
            } else {
                emitted_array_assignment(f, s, tree, local, element, count)
            }
        },
        other => {
            if fat_reference(other) && assignment.operator != AssignmentOperator::Assign {
                failed_with(
                    s,
                    error_in_body(f, CodegenErrorKind::UnsupportedRuntimeOperator, assignment.name_span),
                )
            } else if fat_reference(other) {
                emitted_slice_replacement(f, s, tree, local)
            } else {
                emitted_scalar_assignment(f, s, tree, assignment, local)
            }
        },
    }
}

/// An assignment to a whole local.
#[verifier::opaque]
pub open spec fn emitted_whole_assignment<R: ConstantResolver, const P: usize, const N: usize>(
    f: Frame<R, P, N>,
    s: Emission,
    assignment: Assignment,
    local: usize,
    ty: RuntimeExpressionType,
) -> Emission {
    if ty == RuntimeExpressionType::Bool && !allows_operator(assignment.operator) {
        failed_with(s, error_in_body(f, CodegenErrorKind::RuntimeTypeMismatch, assignment.name_span))
    } else {
        match value_of_type(f, s.locals, assignment.value@, assignment.value_span, ty) {
            Err(error) => {
                failed_with(s, error)
            },
            Ok(tree) => {
                let previous = s.width;
                let s = (Emission { width: width_of_change(ty, previous), ..s });
                let s = emitted_whole_store(f, s, tree, assignment, local, ty);
                (Emission { width: previous, ..s })
            },
        }
    }
}

/// An assignment to a local or to an element of it.
#[verifier::opaque]
pub open spec fn emitted_local_assignment<R: ConstantResolver, const P: usize, const N: usize>(
    f: Frame<R, P, N>,
    s: Emission,
    assignment: Assignment,
) -> Emission {
    match local_named(s.locals, assignment.name@) {
        None => {
            failed_with(s, error_in_body(f, CodegenErrorKind::UnknownRuntimeName, assignment.name_span))
        },
        Some(local) => {
            if !s.locals[local as int].mutable {
                failed_with(s, error_in_body(f, CodegenErrorKind::ImmutableAssignment, assignment.name_span))
            } else {
                match assignment.index {
                    Some(index) => {
                        emitted_indexed_assignment(f, s, assignment, index, local, s.locals[local as int].ty)
                    },
                    None => {
                        emitted_whole_assignment(f, s, assignment, local, s.locals[local as int].ty)
                    },
                }
            }
        },
    }
}

/// An assignment.
#[verifier::opaque]
pub open spec fn emitted_assignment<R: ConstantResolver, const P: usize, const N: usize>(
    f: Frame<R, P, N>,
    s: Emission,
    assignment: Assignment,
) -> Emission {
    if assignment.dereference {
        emitted_dereference_assignment(f, s, assignment)
    } else {
        match assignment.index {
            None => {
                emitted_local_assignment(f, s, assignment)
            },
            Some(_) => {
                match target_of_assignment(type_of_target(f, s.locals, assignment.name@)) {
                    ElementTarget::Referenced { element, count, mutable } => {
                        emitted_referenced_assignment(f, s, assignment, element, count, mutable)
                    },
                    ElementTarget::Other => {
                        emitted_local_assignment(f, s, assignment)
                    },
                }
            },
        }
    }
}

/// Statements under a condition, from one of them on.
#[verifier::opaque]
pub open spec fn emitted_actions<R: ConstantResolver, const P: usize, const N: usize>(
    f: Frame<R, P, N>,
    s: Emission,
    actions: Seq<ConditionalAssignmentAction>,
    expected: RuntimeExpressionType,
    operand: Operand,
    index: int,
) -> Emission
    decreases actions.len() - index,
{
    if index < actions.len() {
        let s = match actions[index] {
            ConditionalAssignmentAction::Local(local) => {
                emitted_local(f, s, local, operand, true)
            },
            ConditionalAssignmentAction::Assignment(assignment) => {
                emitted_assignment(f, s, assignment)
            },
            ConditionalAssignmentAction::Expression(statement) => {
                emitted_expression_statement(f, s, statement)
            },
            ConditionalAssignmentAction::Return(statement) => {
                emitted_return(f, s, statement, expected)
            },
        };
        emitted_actions(f, s, actions, expected, operand, index + 1)
    } else {
        s
    }
}

/// Statements under a condition, with locals of their own.
#[verifier::opaque]
pub open spec fn emitted_action_block<R: ConstantResolver, const P: usize, const N: usize>(
    f: Frame<R, P, N>,
    s: Emission,
    actions: Seq<ConditionalAssignmentAction>,
    expected: RuntimeExpressionType,
    operand: Operand,
) -> Emission {
    let checkpoint: usize = number_of_locals(s.locals);
    let s = emitted_actions(f, s, actions, expected, operand, 0);
    emitted_scoped_cleanup(f, s, checkpoint)
}

/// Conditions with statements, from one of them on, and the statements behind them.
#[verifier::opaque]
pub open spec fn emitted_assignment_branches<R: ConstantResolver, const P: usize, const N: usize>(
    f: Frame<R, P, N>,
    s: Emission,
    conditional: ConditionalAssignment,
    expected: RuntimeExpressionType,
    operand: Operand,
    index: int,
) -> Emission
    decreases conditional.branches@.len() - index,
{
    if index < conditional.branches.len() {
        match condition_of(
            f,
            s.locals,
            conditional.branches@[index].condition@,
            conditional.branches@[index].condition_span,
        ) {
            Err(error) => {
                failed_with(s, error)
            },
            Ok(condition) => {
                let s = emitted_test(f, s, condition);
                let otherwise = branch_place(s, 2);
                let s = put(f, s, [0x0fu8, 0x84, 0, 0, 0, 0]@);
                let s = emitted_action_block(f, s, conditional.branches@[index].actions@, expected, operand);
                let end = branch_place(s, 1);
                let s = put(f, s, [0xe9u8, 0, 0, 0, 0]@);
                let s = landed(f, s, otherwise);
                let s = emitted_assignment_branches(f, s, conditional, expected, operand, index + 1);
                landed(f, s, end)
            },
        }
    } else {
        emitted_action_block(f, s, conditional.else_actions@, expected, operand)
    }
}

/// A chain of conditions with statements.
#[verifier::opaque]
pub open spec fn emitted_conditional_assignment<R: ConstantResolver, const P: usize, const N: usize>(
    f: Frame<R, P, N>,
    s: Emission,
    conditional: ConditionalAssignment,
    expected: RuntimeExpressionType,
    operand: Operand,
) -> Emission {
    emitted_assignment_branches(f, s, conditional, expected, operand, 0)
}

/// A statement of a block in a loop.
#[verifier::opaque]
pub open spec fn emitted_loop_action<R: ConstantResolver, const P: usize, const N: usize>(
    f: Frame<R, P, N>,
    s: Emission,
    action: ConditionalLoopAction,
    operand: Operand,
) -> Emission {
    match action {
        ConditionalLoopAction::Local(local) => {
            emitted_local(f, s, local, operand, true)
        },
        ConditionalLoopAction::Assignment(assignment) => {
            emitted_assignment(f, s, assignment)
        },
        ConditionalLoopAction::Expression(statement) => {
            emitted_expression_statement(f, s, statement)
        },
    }
}

/// Statements of a block in a loop, from one of them on.
#[verifier::opaque]
pub open spec fn emitted_loop_actions<R: ConstantResolver, const P: usize, const N: usize>(
    f: Frame<R, P, N>,
    s: Emission,
    actions: Seq<ConditionalLoopAction>,
    operand: Operand,
    index: int,
) -> Emission
    decreases actions.len() - index,
{
    if index < actions.len() {
        let s = emitted_loop_action(f, s, actions[index], operand);
        emitted_loop_actions(f, s, actions, operand, index + 1)
    } else {
        s
    }
}

/// How a block in a loop ends.
#[verifier::opaque]
pub open spec fn emitted_terminal<R: ConstantResolver, const P: usize, const N: usize>(
    f: Frame<R, P, N>,
    s: Emission,
    terminal: Option<ConditionalLoopTerminal>,
    expected: RuntimeExpressionType,
    places: LoopPlaces,
    checkpoint: usize,
) -> Emission {
    let s = match terminal {
        Some(ConditionalLoopTerminal::Break) => {
            let s = emitted_cleanup_to(f, s, places.checkpoint);
            left_loop(f, s)
        },
        Some(ConditionalLoopTerminal::Continue) => {
            let s = emitted_cleanup_to(f, s, places.checkpoint);
            returned_to(f, s, places.start)
        },
        Some(ConditionalLoopTerminal::Return(statement)) => {
            emitted_return(f, s, statement, expected)
        },
        None => {
            emitted_cleanup_to(f, s, checkpoint)
        },
    };
    truncated(f, s, checkpoint)
}

/// A block in a loop.
#[verifier::opaque]
pub open spec fn emitted_loop_block<R: ConstantResolver, const P: usize, const N: usize>(
    f: Frame<R, P, N>,
    s: Emission,
    actions: Seq<ConditionalLoopAction>,
    terminal: Option<ConditionalLoopTerminal>,
    expected: RuntimeExpressionType,
    operand: Operand,
    places: LoopPlaces,
) -> Emission {
    let checkpoint: usize = number_of_locals(s.locals);
    let s = emitted_loop_actions(f, s, actions, operand, 0);
    emitted_terminal(f, s, terminal, expected, places, checkpoint)
}

/// The `else` parts of a block in a loop, from one of them on.
#[verifier::opaque]
pub open spec fn emitted_else_arms<R: ConstantResolver, const P: usize, const N: usize>(
    f: Frame<R, P, N>,
    s: Emission,
    arms: Seq<ConditionalLoopElseArm>,
    expected: RuntimeExpressionType,
    operand: Operand,
    places: LoopPlaces,
    index: int,
) -> Emission
    decreases arms.len() - index,
{
    if index < arms.len() {
        match arms[index].condition {
            Some(control) => {
                match condition_of(f, s.locals, control.condition@, control.condition_span) {
                    Err(error) => {
                        failed_with(s, error)
                    },
                    Ok(condition) => {
                        let s = emitted_test(f, s, condition);
                        let otherwise = branch_place(s, 2);
                        let s = put(f, s, [0x0fu8, 0x84, 0, 0, 0, 0]@);
                        let s = emitted_loop_block(
                            f,
                            s,
                            arms[index].actions@,
                            arms[index].terminal,
                            expected,
                            operand,
                            places,
                        );
                        let end = branch_place(s, 1);
                        let s = put(f, s, [0xe9u8, 0, 0, 0, 0]@);
                        let s = landed(f, s, otherwise);
                        let s = emitted_else_arms(f, s, arms, expected, operand, places, index + 1);
                        landed(f, s, end)
                    },
                }
            },
            None => {
                let s = emitted_loop_block(
                    f,
                    s,
                    arms[index].actions@,
                    arms[index].terminal,
                    expected,
                    operand,
                    places,
                );
                let end = branch_place(s, 1);
                let s = put(f, s, [0xe9u8, 0, 0, 0, 0]@);
                landed(f, s, end)
            },
        }
    } else {
        s
    }
}

/// A block under a condition in a loop.
#[verifier::opaque]
pub open spec fn emitted_conditional_block<R: ConstantResolver, const P: usize, const N: usize>(
    f: Frame<R, P, N>,
    s: Emission,
    block: ConditionalLoopBlock,
    expected: RuntimeExpressionType,
    operand: Operand,
    places: LoopPlaces,
) -> Emission {
    match condition_of(f, s.locals, block.condition@, block.condition_span) {
        Err(error) => {
            failed_with(s, error)
        },
        Ok(condition) => {
            let s = emitted_test(f, s, condition);
            let otherwise = branch_place(s, 2);
            let s = put(f, s, [0x0fu8, 0x84, 0, 0, 0, 0]@);
            let s = emitted_loop_block(f, s, block.actions@, block.terminal, expected, operand, places);
            if block.else_arms.len() == 0 {
                landed(f, s, otherwise)
            } else {
                let end = branch_place(s, 1);
                let s = put(f, s, [0xe9u8, 0, 0, 0, 0]@);
                let s = landed(f, s, otherwise);
                let s = emitted_else_arms(f, s, block.else_arms@, expected, operand, places, 0);
                landed(f, s, end)
            }
        },
    }
}

/// Leaves a loop or goes back to its start.
#[verifier::opaque]
pub open spec fn emitted_way_out<R: ConstantResolver, const P: usize, const N: usize>(
    f: Frame<R, P, N>,
    s: Emission,
    leaves: bool,
    target: NestedLoopControlTarget,
    places: LoopPlaces,
) -> Emission {
    if target == NestedLoopControlTarget::Outer {
        let s = emitted_cleanup_to(f, s, places.checkpoint);
        if leaves {
            left_loop(f, s)
        } else {
            returned_to(f, s, places.start)
        }
    } else {
        let s = emitted_cleanup_to(f, s, places.inner_checkpoint);
        if leaves {
            left_inner_loop(f, s)
        } else {
            returned_to(f, s, places.inner_start)
        }
    }
}

/// The ways out of a nested loop without a condition that stand at a place, from one of them on.
#[verifier::opaque]
pub open spec fn emitted_unconditional_controls<R: ConstantResolver, const P: usize, const N: usize>(
    f: Frame<R, P, N>,
    s: Emission,
    controls: Seq<PlacedUnconditionalControl>,
    place: NestedLoopPlace,
    expected: RuntimeExpressionType,
    places: LoopPlaces,
    index: int,
) -> Emission
    decreases controls.len() - index,
{
    if index < controls.len() {
        let s = if controls[index].place == place {
            match controls[index].control {
                NestedLoopUnconditionalControl::Break(target) => {
                    emitted_way_out(f, s, true, target, places)
                },
                NestedLoopUnconditionalControl::Continue(target) => {
                    emitted_way_out(f, s, false, target, places)
                },
                NestedLoopUnconditionalControl::Return(statement) => {
                    emitted_return(f, s, statement, expected)
                },
            }
        } else {
            s
        };
        emitted_unconditional_controls(f, s, controls, place, expected, places, index + 1)
    } else {
        s
    }
}

/// A way out of a nested loop that a condition guards.
#[verifier::opaque]
pub open spec fn emitted_conditional_control<R: ConstantResolver, const P: usize, const N: usize>(
    f: Frame<R, P, N>,
    s: Emission,
    control: ConditionalLoopControl,
    leaves: bool,
    target: NestedLoopControlTarget,
    places: LoopPlaces,
) -> Emission {
    match condition_of(f, s.locals, control.condition@, control.condition_span) {
        Err(error) => {
            failed_with(s, error)
        },
        Ok(condition) => {
            let s = emitted_test(f, s, condition);
            let skip = branch_place(s, 2);
            let s = put(f, s, [0x0fu8, 0x84, 0, 0, 0, 0]@);
            let s = emitted_way_out(f, s, leaves, target, places);
            landed(f, s, skip)
        },
    }
}

/// The ways out of a nested loop with a condition that stand at a place, from one of them on.
#[verifier::opaque]
pub open spec fn emitted_conditional_controls<R: ConstantResolver, const P: usize, const N: usize>(
    f: Frame<R, P, N>,
    s: Emission,
    controls: Seq<PlacedConditionalControl>,
    place: NestedLoopPlace,
    leaves: bool,
    places: LoopPlaces,
    index: int,
) -> Emission
    decreases controls.len() - index,
{
    if index < controls.len() {
        let s = if controls[index].place == place {
            emitted_conditional_control(f, s, controls[index].control, leaves, controls[index].target, places)
        } else {
            s
        };
        emitted_conditional_controls(f, s, controls, place, leaves, places, index + 1)
    } else {
        s
    }
}

/// The `return` statements of a nested loop that stand at a place, from one of them on.
#[verifier::opaque]
pub open spec fn emitted_placed_returns<R: ConstantResolver, const P: usize, const N: usize>(
    f: Frame<R, P, N>,
    s: Emission,
    placed: Seq<PlacedConditionalReturn>,
    place: NestedLoopPlace,
    expected: RuntimeExpressionType,
    index: int,
) -> Emission
    decreases placed.len() - index,
{
    if index < placed.len() {
        let s = if placed[index].place == place {
            emitted_conditional_return(f, s, placed[index].conditional, expected)
        } else {
            s
        };
        emitted_placed_returns(f, s, placed, place, expected, index + 1)
    } else {
        s
    }
}

/// The ways out of a nested loop before a statement, from one of them on.
#[verifier::opaque]
pub open spec fn emitted_nested_controls<R: ConstantResolver, const P: usize, const N: usize>(
    f: Frame<R, P, N>,
    s: Emission,
    block: NestedLoopBlock,
    action_index: usize,
    count: usize,
    order: usize,
    expected: RuntimeExpressionType,
    places: LoopPlaces,
) -> Emission
    decreases count - order,
{
    if order < count {
        let place = NestedLoopPlace { action_index, control_order: order };
        let s = emitted_unconditional_controls(
            f,
            s,
            block.unconditional_controls@,
            place,
            expected,
            places,
            0,
        );
        let s = emitted_conditional_controls(f, s, block.conditional_breaks@, place, true, places, 0);
        let s = emitted_placed_returns(f, s, block.conditional_returns@, place, expected, 0);
        let s = emitted_conditional_controls(f, s, block.conditional_continues@, place, false, places, 0);
        emitted_nested_controls(f, s, block, action_index, count, (order + 1) as usize, expected, places)
    } else {
        s
    }
}

/// The statements of a nested loop, from one of them on, with the ways out between them.
#[verifier::opaque]
pub open spec fn emitted_nested_actions<R: ConstantResolver, const P: usize, const N: usize>(
    f: Frame<R, P, N>,
    s: Emission,
    block: NestedLoopBlock,
    count: usize,
    index: int,
    expected: RuntimeExpressionType,
    operand: Operand,
    places: LoopPlaces,
) -> Emission
    decreases block.actions@.len() - index,
{
    let s = emitted_nested_controls(f, s, block, index as usize, count, 0, expected, places);
    if index < block.actions.len() {
        let s = emitted_loop_action(f, s, block.actions@[index], operand);
        emitted_nested_actions(f, s, block, count, index + 1, expected, operand, places)
    } else {
        s
    }
}

/// A nested loop behind its condition.
#[verifier::opaque]
pub open spec fn emitted_nested_body<R: ConstantResolver, const P: usize, const N: usize>(
    f: Frame<R, P, N>,
    s: Emission,
    block: NestedLoopBlock,
    expected: RuntimeExpressionType,
    operand: Operand,
    places: LoopPlaces,
) -> Emission {
    match number_of_controls(block) {
        None => {
            failed(f, s, CodegenErrorKind::OutputTooSmall)
        },
        Some(count) => {
            let s = emitted_nested_actions(f, s, block, count, 0, expected, operand, places);
            let s = emitted_cleanup_to(f, s, places.inner_checkpoint);
            let s = truncated(f, s, places.inner_checkpoint);
            let s = if block.unconditional_controls.len() == 0 {
                returned_to(f, s, places.inner_start)
            } else {
                s
            };
            ended_inner_loop(f, s)
        },
    }
}

/// A loop in a loop.
#[verifier::opaque]
pub open spec fn emitted_nested_block<R: ConstantResolver, const P: usize, const N: usize>(
    f: Frame<R, P, N>,
    s: Emission,
    block: NestedLoopBlock,
    expected: RuntimeExpressionType,
    operand: Operand,
    outer: LoopPlaces,
) -> Emission {
    let inner_start = place(s);
    let places = LoopPlaces { start: outer.start, checkpoint: outer.checkpoint, inner_start, inner_checkpoint: number_of_locals(s.locals) };
    let s = entered_inner_loop(f, s);
    match block.entry_condition {
        Some(control) => {
            match condition_of(f, s.locals, control.condition@, control.condition_span) {
                Err(error) => {
                    failed_with(s, error)
                },
                Ok(condition) => {
                    let s = emitted_test(f, s, condition);
                    let end = branch_place(s, 2);
                    let s = put(f, s, [0x0fu8, 0x84, 0, 0, 0, 0]@);
                    let s = emitted_nested_body(f, s, block, expected, operand, places);
                    landed(f, s, end)
                },
            }
        },
        None => {
            emitted_nested_body(f, s, block, expected, operand, places)
        },
    }
}

/// A way out of a loop that a condition guards.
#[verifier::opaque]
pub open spec fn emitted_loop_control<R: ConstantResolver, const P: usize, const N: usize>(
    f: Frame<R, P, N>,
    s: Emission,
    control: ConditionalLoopControl,
    leaves: bool,
    places: LoopPlaces,
) -> Emission {
    emitted_conditional_control(f, s, control, leaves, NestedLoopControlTarget::Outer, places)
}

/// A statement of a loop.
#[verifier::opaque]
pub open spec fn emitted_loop_operation<R: ConstantResolver, const P: usize, const N: usize>(
    f: Frame<R, P, N>,
    s: Emission,
    operation: LoopOperation,
    expected: RuntimeExpressionType,
    operand: Operand,
    places: LoopPlaces,
) -> Emission {
    match operation {
        LoopOperation::Local(local) => {
            emitted_local(f, s, local, operand, true)
        },
        LoopOperation::Assignment(assignment) => {
            emitted_assignment(f, s, assignment)
        },
        LoopOperation::Expression(statement) => {
            emitted_expression_statement(f, s, statement)
        },
        LoopOperation::NestedUnitLoop => {
            s
        },
        LoopOperation::NestedBlock(block) => {
            emitted_nested_block(f, s, block, expected, operand, places)
        },
        LoopOperation::ConditionalBlock(block) => {
            emitted_conditional_block(f, s, block, expected, operand, places)
        },
        LoopOperation::ConditionalBreak(control) => {
            emitted_loop_control(f, s, control, true, places)
        },
        LoopOperation::ConditionalContinue(control) => {
            emitted_loop_control(f, s, control, false, places)
        },
        LoopOperation::ConditionalReturn(conditional) => {
            emitted_conditional_return(f, s, conditional, expected)
        },
        LoopOperation::Break => {
            emitted_way_out(f, s, true, NestedLoopControlTarget::Outer, places)
        },
        LoopOperation::Continue => {
            emitted_way_out(f, s, false, NestedLoopControlTarget::Outer, places)
        },
        LoopOperation::Return(statement) => {
            emitted_return(f, s, statement, expected)
        },
    }
}

/// The statements of a loop, from one of them on, up to the first `return`.
#[verifier::opaque]
pub open spec fn emitted_loop_operations<R: ConstantResolver, const P: usize, const N: usize>(
    f: Frame<R, P, N>,
    s: Emission,
    operations: Seq<LoopOperation>,
    expected: RuntimeExpressionType,
    operand: Operand,
    places: LoopPlaces,
    index: int,
) -> Emission
    decreases operations.len() - index,
{
    if index < operations.len() {
        let s = emitted_loop_operation(f, s, operations[index], expected, operand, places);
        match operations[index] {
            LoopOperation::Return(_) => {
                s
            },
            _ => {
                emitted_loop_operations(f, s, operations, expected, operand, places, index + 1)
            },
        }
    } else {
        s
    }
}

/// A loop behind its condition.
#[verifier::opaque]
pub open spec fn emitted_loop_body<R: ConstantResolver, const P: usize, const N: usize>(
    f: Frame<R, P, N>,
    s: Emission,
    operations: Seq<LoopOperation>,
    expected: RuntimeExpressionType,
    operand: Operand,
    start: usize,
) -> Emission {
    let places = LoopPlaces { start, checkpoint: number_of_locals(s.locals), inner_start: start, inner_checkpoint: number_of_locals(s.locals) };
    let s = emitted_loop_operations(f, s, operations, expected, operand, places, 0);
    let s = if !ends_loop(operations, 0) {
        let s = emitted_cleanup_to(f, s, places.checkpoint);
        returned_to(f, s, start)
    } else {
        s
    };
    let s = truncated(f, s, places.checkpoint);
    ended_loop(f, s)
}

/// A loop.
#[verifier::opaque]
pub open spec fn emitted_while_loop<R: ConstantResolver, const P: usize, const N: usize>(
    f: Frame<R, P, N>,
    s: Emission,
    statement: WhileLoop,
    expected: RuntimeExpressionType,
    operand: Operand,
) -> Emission {
    match statement.condition {
        Some(control) => {
            match condition_of(f, s.locals, control.condition@, control.condition_span) {
                Err(error) => {
                    failed_with(s, error)
                },
                Ok(condition) => {
                    let start = place(s);
                    let s = entered_loop(f, s);
                    let s = emitted_test(f, s, condition);
                    let s = left_loop_on_zero(f, s);
                    emitted_loop_body(f, s, statement.operations@, expected, operand, start)
                },
            }
        },
        None => {
            let start = place(s);
            let s = entered_loop(f, s);
            emitted_loop_body(f, s, statement.operations@, expected, operand, start)
        },
    }
}

/// The loops of a body, from one of them on.
#[verifier::opaque]
pub open spec fn emitted_while_loops<R: ConstantResolver, const P: usize, const N: usize>(
    f: Frame<R, P, N>,
    s: Emission,
    loops: Seq<WhileLoop>,
    expected: RuntimeExpressionType,
    operand: Operand,
    index: int,
) -> Emission
    decreases loops.len() - index,
{
    if index < loops.len() {
        let s = emitted_while_loop(f, s, loops[index], expected, operand);
        emitted_while_loops(f, s, loops, expected, operand, index + 1)
    } else {
        s
    }
}

/// A statement of a body.
#[verifier::opaque]
pub open spec fn emitted_statement<R: ConstantResolver, const P: usize, const N: usize>(
    f: Frame<R, P, N>,
    s: Emission,
    statement: BodyStatement,
    expected: RuntimeExpressionType,
    operand: Operand,
) -> Emission {
    match statement {
        BodyStatement::Loop => {
            s
        },
        BodyStatement::Local(local) => {
            emitted_local(f, s, local, operand, false)
        },
        BodyStatement::Assignment(assignment) => {
            emitted_assignment(f, s, assignment)
        },
        BodyStatement::ConditionalReturn(conditional) => {
            emitted_conditional_return(f, s, conditional, expected)
        },
        BodyStatement::ConditionalReturnElse(conditional) => {
            emitted_conditional_return_else(f, s, conditional, expected)
        },
        BodyStatement::ConditionalAssignment(conditional) => {
            emitted_conditional_assignment(f, s, conditional, expected, operand)
        },
        BodyStatement::Expression(statement) => {
            emitted_expression_statement(f, s, statement)
        },
        BodyStatement::Return(statement) => {
            emitted_return(f, s, statement, expected)
        },
    }
}

/// The statements of a body, from one of them on; the loops are left out.
#[verifier::opaque]
pub open spec fn emitted_later_statements<R: ConstantResolver, const P: usize, const N: usize>(
    f: Frame<R, P, N>,
    s: Emission,
    statements: Seq<BodyStatement>,
    expected: RuntimeExpressionType,
    operand: Operand,
    index: int,
) -> Emission
    decreases statements.len() - index,
{
    if index < statements.len() {
        let s = emitted_statement(f, s, statements[index], expected, operand);
        emitted_later_statements(f, s, statements, expected, operand, index + 1)
    } else {
        s
    }
}

/// The statements of a body, from one of them on. All loops stand where the first one does.
#[verifier::opaque]
pub open spec fn emitted_statements<R: ConstantResolver, const P: usize, const N: usize>(
    f: Frame<R, P, N>,
    s: Emission,
    body: FunctionBody,
    expected: RuntimeExpressionType,
    operand: Operand,
    index: int,
) -> Emission
    decreases body.statements@.len() - index,
{
    if index < body.statements.len() {
        match body.statements@[index] {
            BodyStatement::Loop => {
                let s = emitted_while_loops(f, s, body.while_loops@, expected, operand, 0);
                emitted_later_statements(f, s, body.statements@, expected, operand, index)
            },
            statement => {
                let s = emitted_statement(f, s, statement, expected, operand);
                emitted_statements(f, s, body, expected, operand, index + 1)
            },
        }
    } else {
        emitted_while_loops(f, s, body.while_loops@, expected, operand, 0)
    }
}

/// The value of a body.
#[verifier::opaque]
pub open spec fn emitted_tail<R: ConstantResolver, const P: usize, const N: usize>(
    f: Frame<R, P, N>,
    s: Emission,
    body: FunctionBody,
    expected: RuntimeExpressionType,
) -> Emission {
    if !body.tail_diverges {
        match value_of_type(f, s.locals, body.tail@, body.tail_span, expected) {
            Err(error) => {
                failed_with(s, error)
            },
            Ok(tree) => {
                emitted_typed_return(f, s, tree, expected)
            },
        }
    } else {
        s
    }
}

/// A whole function.
#[verifier::opaque]
pub open spec fn emitted_body<R: ConstantResolver, const P: usize, const N: usize>(
    f: Frame<R, P, N>,
    s: Emission,
    body: FunctionBody,
    expected: RuntimeExpressionType,
    operand: Operand,
) -> Emission {
    let s = emitted_prologue(f, s);
    let s = emitted_statements(f, s, body, expected, operand, 0);
    let s = emitted_tail(f, s, body, expected);
    finished(f, s)
}

/// Whether a statement of a loop leaves the loop or begins it anew.
pub open spec fn controls_loop(operation: LoopOperation) -> bool {
    operation is Break || operation is Continue || operation is Return
}

/// Whether there is always code for a statement.
pub open spec fn always_adds_code(statement: BodyStatement) -> bool {
    match statement {
        BodyStatement::Return(_) | BodyStatement::ConditionalReturn(_) => true,
        BodyStatement::ConditionalReturnElse(conditional) => conditional.else_value is Some,
        _ => false,
    }
}

/// Whether there is always code for a body: it has a value, a loop or a `return`.
pub open spec fn body_adds_code(body: FunctionBody) -> bool {
    ||| !body.tail_diverges
    ||| body.while_loops@.len() > 0
    ||| exists|i: int|
        0 <= i < body.statements@.len() && always_adds_code(#[trigger] body.statements@[i])
}

/// A loop whose statements end it holds one that leaves it or begins it anew.
pub proof fn ended_loops_have_a_control(operations: Seq<LoopOperation>, from: int)
    requires
        0 <= from,
        ends_loop(operations, from),
    ensures
        exists|i: int| from <= i < operations.len() && controls_loop(#[trigger] operations[i]),
    decreases operations.len() - from,
{
    if !controls_loop(operations[from]) {
        ended_loops_have_a_control(operations, from + 1);
    }
}

} // verus!
