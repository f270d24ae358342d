//! The code of expressions.
use crate::codegen::error::CodegenErrorKind;
use crate::codegen::frame::{
    Frame, constant_at, form_at, local_named, parameter_named, place_from,
};
use crate::codegen::runtime::{
    RuntimeArrayElementType, RuntimeExpressionType, element_bytes, fat_reference,
    product_of, width_of_integer,
};
use crate::codegen::types::array_type;
use crate::expression::{
    ConstantResolver, ExprId, Form, MAX_ARRAY_ELEMENTS, MAX_EXPRESSION_DEPTH, Tree,
};
use crate::integer::{
    BinaryOperator, IntegerType, ScalarType, UnaryOperator,
};
use crate::ir::{
    ExecutionError, IrErrorKind,
};
use crate::codegen::emission::{
    Emission, branch_place, call_register, constant_register, failed, landed, place, put,
    raised, released, slots_from, trapped, word_bytes,
};
use crate::codegen::encoding::mirrored;
use crate::codegen::instructions::{
    emitted_binary, emitted_chosen_slots, emitted_cleanup_bytes, emitted_constant,
    emitted_copies, emitted_element_address, emitted_identifier, emitted_identifier_address, emitted_negated,
    emitted_normal, emitted_normal_element, emitted_normal_width, emitted_parameter_slot,
    emitted_reference_load, emitted_slice_length, emitted_slot_of,
    emitted_slots_cleanup, emitted_stack_slot, emitted_swapped,
};
use crate::codegen::typing::{
    call_constant, range_bounds, reference_source, typed, typed_operation,
};
use crate::codegen::typing_rules::logical;
use crate::codegen::typer::call_type;
use crate::codegen::selection::{
    IndexSource, element_at, known_index, offset_of_range, opcode_of_logical, pointee_under,
    register_of_truth, source_of_index, width_of_operation,
};
use vstd::prelude::*;

verus! {

/// Makes a register hold a number of a type.
#[verifier::opaque]
pub open spec fn emitted_conversion<R: ConstantResolver, const P: usize, const N: usize>(
    f: Frame<R, P, N>,
    s: Emission,
    target: IntegerType,
) -> Emission {
    match width_of_integer(target) {
        None => {
            failed(f, s, CodegenErrorKind::UnsupportedRuntimeType)
        },
        Some(width) => {
            emitted_normal_width(f, s, width)
        },
    }
}

/// Whether an index is between two characters of the string on the stack.
#[verifier::opaque]
pub open spec fn emitted_boundary_answer<R: ConstantResolver, const P: usize, const N: usize>(
    f: Frame<R, P, N>,
    s: Emission,
) -> Emission {
    let s = put(f, s, [0x48u8, 0x3b, 0x04, 0x24]@);
    let out_of_bounds = branch_place(s, 2);
    let s = put(f, s, [0x0fu8, 0x87, 0, 0, 0, 0]@);
    let at_end = branch_place(s, 2);
    let s = put(f, s, [0x0fu8, 0x84, 0, 0, 0, 0]@);
    let s = put(f, s, [0x48u8, 0x85, 0xc0]@);
    let at_start = branch_place(s, 2);
    let s = put(f, s, [0x0fu8, 0x84, 0, 0, 0, 0]@);
    let s = put(f, s, [0x48u8, 0x89, 0xc1, 0x48, 0x8b, 0x44, 0x24, 0x08]@);
    let s = put(f, s, [0x0fu8, 0xb6, 0x04, 0x08, 0x25, 0xc0, 0x00, 0x00, 0x00]@);
    let s = put(f, s, [0x3du8, 0x80, 0x00, 0x00, 0x00, 0x0f, 0x95, 0xc0, 0x0f, 0xb6, 0xc0]@);
    let value_end = branch_place(s, 1);
    let s = put(f, s, [0xe9u8, 0, 0, 0, 0]@);
    let s = landed(f, s, at_end);
    let s = landed(f, s, at_start);
    let s = put(f, s, [0xb8u8, 0x01, 0x00, 0x00, 0x00]@);
    let true_end = branch_place(s, 1);
    let s = put(f, s, [0xe9u8, 0, 0, 0, 0]@);
    let s = landed(f, s, out_of_bounds);
    let s = put(f, s, [0x31u8, 0xc0]@);
    let s = landed(f, s, value_end);
    let s = landed(f, s, true_end);
    let s = emitted_cleanup_bytes(f, s, 16);
    released(f, s, 2)
}

/// Loads a number of the width at hand.
#[verifier::opaque]
pub open spec fn emitted_literal<R: ConstantResolver, const P: usize, const N: usize>(
    f: Frame<R, P, N>,
    s: Emission,
    value: u128,
) -> Emission {
    let width = s.width;
    if value > width.maximum as u128 {
        failed(f, s, CodegenErrorKind::ValueOutOfRange)
    } else {
        emitted_constant(f, s, value as u64)
    }
}

/// Loads what a call gives.
#[verifier::opaque]
pub open spec fn emitted_call<R: ConstantResolver, const P: usize, const N: usize>(
    f: Frame<R, P, N>,
    s: Emission,
    tree: Tree,
    callee: Seq<char>,
    arguments: Seq<Option<ExprId>>,
    argument_count: usize,
) -> Emission {
    let width = s.width;
    match call_constant(tree, callee, arguments, argument_count, f.resolver) {
        Err(kind) => {
            failed(f, s, kind)
        },
        Ok(value) => {
            match call_register(value, f.resolver.call_type(callee, argument_count), width) {
                Err(kind) => {
                    failed(f, s, kind)
                },
                Ok(value) => {
                    emitted_constant(f, s, value)
                },
            }
        },
    }
}

/// Loads what a constant block stands for.
#[verifier::opaque]
pub open spec fn emitted_inline_const<R: ConstantResolver, const P: usize, const N: usize>(
    f: Frame<R, P, N>,
    s: Emission,
    tree: Tree,
    operand: ExprId,
    depth: int,
) -> Emission {
    let width = s.width;
    match typed(f, s.locals, tree, operand, depth + 1) {
        Err(kind) => {
            failed(f, s, kind)
        },
        Ok(ty) => {
            match constant_at(tree, operand, f.resolver) {
                Err(error) => {
                    failed(f, s, CodegenErrorKind::Execution(ExecutionError::Arithmetic(error)))
                },
                Ok(value) => {
                    if ty == RuntimeExpressionType::Unit || ty == RuntimeExpressionType::Default {
                        put(f, s, [0x31u8, 0xc0]@)
                    } else {
                        match constant_register(Ok(value), ty, width) {
                            Err(kind) => {
                                failed(f, s, kind)
                            },
                            Ok(value) => {
                                emitted_constant(f, s, value)
                            },
                        }
                    }
                },
            }
        },
    }
}

/// Loads the length of a slice or a string.
#[verifier::opaque]
pub open spec fn emitted_slice_query<R: ConstantResolver, const P: usize, const N: usize>(
    f: Frame<R, P, N>,
    s: Emission,
    tree: Tree,
    base: ExprId,
    depth: int,
) -> Emission {
    match typed(f, s.locals, tree, base, depth + 1) {
        Err(kind) => {
            failed(f, s, kind)
        },
        Ok(ty) => {
            if fat_reference(ty) {
                match reference_source(tree, base) {
                    None => {
                        failed(f, s, CodegenErrorKind::RuntimeExpressionUnsupported)
                    },
                    Some(source) => {
                        emitted_slice_length(f, s, source)
                    },
                }
            } else {
                failed(f, s, CodegenErrorKind::RuntimeTypeMismatch)
            }
        },
    }
}

/// Loads an element of a local that packs its elements.
#[verifier::opaque]
pub open spec fn emitted_packed_local_element<R: ConstantResolver, const P: usize, const N: usize>(
    f: Frame<R, P, N>,
    s: Emission,
    later: Option<usize>,
    element: RuntimeArrayElementType,
    bytes: usize,
    index: usize,
) -> Emission {
    let s = emitted_slot_of(f, s, 0x8d, later, 0, CodegenErrorKind::OutputTooSmall);
    match product_of(index, bytes) {
        None => {
            failed(f, s, CodegenErrorKind::OutputTooSmall)
        },
        Some(offset) => {
            let s = if offset != 0 {
                put(f, s, [0x48u8, 0x83, 0xc0, offset as u8]@)
            } else {
                s
            };
            emitted_reference_load(f, s, element)
        },
    }
}

/// Loads an element of the array that a name stands for.
#[verifier::opaque]
pub open spec fn emitted_named_element<R: ConstantResolver, const P: usize, const N: usize>(
    f: Frame<R, P, N>,
    s: Emission,
    name: Seq<char>,
    index: usize,
) -> Emission {
    match local_named(s.locals, name) {
        Some(local) => {
            match s.locals[local as int].ty {
                RuntimeExpressionType::Array { element, count } => {
                    if index >= count {
                        failed(f, s, CodegenErrorKind::ValueOutOfRange)
                    } else {
                        match element_bytes(element) {
                            None => {
                                failed(f, s, CodegenErrorKind::UnsupportedRuntimeType)
                            },
                            Some(bytes) => {
                                if bytes == 1 || bytes == 2 || bytes == 4 {
                                    emitted_packed_local_element(
                                        f,
                                        s,
                                        slots_from(s.locals, place_from(local, 1)),
                                        element,
                                        bytes,
                                        index,
                                    )
                                } else {
                                    let s = emitted_slot_of(
                                        f,
                                        s,
                                        0x8b,
                                        slots_from(s.locals, place_from(local, 1)),
                                        index,
                                        CodegenErrorKind::OutputTooSmall,
                                    );
                                    emitted_normal_element(f, s, element)
                                }
                            },
                        }
                    }
                },
                _ => {
                    failed(f, s, CodegenErrorKind::RuntimeTypeMismatch)
                },
            }
        },
        None => {
            match parameter_named(f.function.parameters@, name) {
                None => {
                    failed(f, s, CodegenErrorKind::UnknownRuntimeName)
                },
                Some(parameter) => {
                    match array_type(f.function.parameters@[parameter as int].ty.text@) {
                        Some(RuntimeExpressionType::Array { element, count }) => {
                            if index >= count {
                                failed(f, s, CodegenErrorKind::ValueOutOfRange)
                            } else {
                                let s = emitted_parameter_slot(
                                    f,
                                    s,
                                    0x8b,
                                    place_from(parameter, 1),
                                    mirrored(count, index),
                                    CodegenErrorKind::OutputTooSmall,
                                );
                                emitted_normal_element(f, s, element)
                            }
                        },
                        _ => {
                            failed(f, s, CodegenErrorKind::RuntimeTypeMismatch)
                        },
                    }
                },
            }
        },
    }
}

/// The code of an expression.
#[verifier::opaque]
pub open spec fn emitted_expression<R: ConstantResolver, const P: usize, const N: usize>(
    f: Frame<R, P, N>,
    s: Emission,
    tree: Tree,
    id: ExprId,
    depth: int,
    fuel: int,
) -> Emission
    decreases fuel, 30int, 0int,
{
    if fuel <= 0 {
        failed(f, s, CodegenErrorKind::Lowering(IrErrorKind::NestingLimitExceeded))
    } else {
        if depth >= MAX_EXPRESSION_DEPTH {
            failed(f, s, CodegenErrorKind::Lowering(IrErrorKind::NestingLimitExceeded))
        } else {
            match typed(f, s.locals, tree, id, depth) {
                Err(kind) => {
                    failed(f, s, kind)
                },
                Ok(ty) => {
                    match typed_operation(f, s.locals, tree, id, ty, depth) {
                        Err(kind) => {
                            failed(f, s, kind)
                        },
                        Ok(operation) => {
                            let previous = s.width;
                            match width_of_operation(operation, previous) {
                                None => {
                                    failed(f, s, CodegenErrorKind::UnsupportedRuntimeType)
                                },
                                Some(width) => {
                                    let s = (Emission { width: width, ..s });
                                    let s = emitted_with_width(f, s, tree, id, depth, fuel);
                                    (Emission { width: previous, ..s })
                                },
                            }
                        },
                    }
                },
            }
        }
    }
}

/// The code of an expression, in the width at hand.
#[verifier::opaque]
pub open spec fn emitted_with_width<R: ConstantResolver, const P: usize, const N: usize>(
    f: Frame<R, P, N>,
    s: Emission,
    tree: Tree,
    id: ExprId,
    depth: int,
    fuel: int,
) -> Emission
    decreases fuel, 20int, 0int,
{
    if fuel <= 0 {
        failed(f, s, CodegenErrorKind::Lowering(IrErrorKind::NestingLimitExceeded))
    } else {
        if depth >= MAX_EXPRESSION_DEPTH {
            failed(f, s, CodegenErrorKind::Lowering(IrErrorKind::NestingLimitExceeded))
        } else {
            match form_at(tree, id) {
                None => {
                    failed(f, s, CodegenErrorKind::RuntimeExpressionUnsupported)
                },
                Some(kind) => {
                    match kind {
                        Form::Unit | Form::DefaultValue => {
                            put(f, s, [0x31u8, 0xc0]@)
                        },
                        Form::Array { .. } | Form::ArrayRepeat { .. } | Form::RangeIndex { .. } => {
                            failed(f, s, CodegenErrorKind::RuntimeExpressionUnsupported)
                        },
                        Form::Index { base, index } => {
                            emitted_index(f, s, tree, base, index, depth, fuel)
                        },
                        Form::SliceLen { base } => {
                            emitted_slice_query(f, s, tree, base, depth)
                        },
                        Form::SliceIsEmpty { base } => {
                            let s = emitted_slice_query(f, s, tree, base, depth);
                            put(f, s, [0x48u8, 0x85, 0xc0, 0x0f, 0x94, 0xc0, 0x0f, 0xb6, 0xc0]@)
                        },
                        Form::StrAsBytes { base } => {
                            emitted_expression(f, s, tree, base, depth + 1, fuel - 1)
                        },
                        Form::StrIsCharBoundary { base, index } => {
                            emitted_char_boundary(f, s, tree, base, index, depth + 1, fuel)
                        },
                        Form::ReferenceAsPointer { base, .. } => {
                            emitted_expression(f, s, tree, base, depth + 1, fuel - 1)
                        },
                        Form::Integer { value, suffix } => {
                            emitted_literal(f, s, value)
                        },
                        Form::Bool(value) => {
                            emitted_constant(f, s, register_of_truth(value))
                        },
                        Form::Char(value) => {
                            emitted_constant(f, s, value as u64)
                        },
                        Form::Identifier(name) => {
                            emitted_identifier(f, s, name)
                        },
                        Form::Call { callee, arguments, argument_count } => {
                            emitted_call(f, s, tree, callee, arguments, argument_count)
                        },
                        Form::Cast { operand, target } => {
                            let s = emitted_expression(f, s, tree, operand, depth + 1, fuel - 1);
                            emitted_conversion(f, s, target)
                        },
                        Form::Ascribe { operand, target } => {
                            let s = emitted_expression(f, s, tree, operand, depth + 1, fuel - 1);
                            match target {
                                ScalarType::Integer(target) => {
                                    emitted_conversion(f, s, target)
                                },
                                ScalarType::Bool => {
                                    put(f, s, [0x48u8, 0x85, 0xc0, 0x0f, 0x95, 0xc0, 0x0f, 0xb6, 0xc0]@)
                                },
                            }
                        },
                        Form::Unary { operator, operand } => {
                            emitted_unary(f, s, tree, operator, operand, depth, fuel)
                        },
                        Form::Binary { operator, left, right } => {
                            emitted_operation(f, s, tree, operator, left, right, depth, fuel)
                        },
                        Form::If { condition, then_branch, else_branch } => {
                            emitted_choice(f, s, tree, condition, then_branch, else_branch, depth, fuel)
                        },
                        Form::LoopBreakIf { condition, then_branch, else_branch } => {
                            emitted_choice(f, s, tree, condition, then_branch, else_branch, depth, fuel)
                        },
                        Form::Return { operand } => {
                            emitted_expression(f, s, tree, operand, depth + 1, fuel - 1)
                        },
                        Form::LoopBreak { operand } => {
                            emitted_expression(f, s, tree, operand, depth + 1, fuel - 1)
                        },
                        Form::Sequence { first, then } => {
                            let s = emitted_expression(f, s, tree, first, depth + 1, fuel - 1);
                            emitted_expression(f, s, tree, then, depth + 1, fuel - 1)
                        },
                        Form::InlineConst { operand } => {
                            emitted_inline_const(f, s, tree, operand, depth)
                        },
                    }
                },
            }
        }
    }
}

/// The code of an operation on one value.
#[verifier::opaque]
pub open spec fn emitted_unary<R: ConstantResolver, const P: usize, const N: usize>(
    f: Frame<R, P, N>,
    s: Emission,
    tree: Tree,
    operator: UnaryOperator,
    operand: ExprId,
    depth: int,
    fuel: int,
) -> Emission
    decreases fuel, 15int, 0int,
{
    if fuel <= 0 {
        failed(f, s, CodegenErrorKind::Lowering(IrErrorKind::NestingLimitExceeded))
    } else {
        match operator {
            UnaryOperator::Not => {
                match typed(f, s.locals, tree, operand, 0) {
                    Err(kind) => {
                        failed(f, s, kind)
                    },
                    Ok(ty) => {
                        let s = emitted_expression(f, s, tree, operand, depth + 1, fuel - 1);
                        if ty == RuntimeExpressionType::Bool {
                            put(f, s, [0x48u8, 0x85, 0xc0, 0x0f, 0x94, 0xc0, 0x0f, 0xb6, 0xc0]@)
                        } else {
                            let s = put(f, s, [0x48u8, 0xf7, 0xd0]@);
                            emitted_normal(f, s)
                        }
                    },
                }
            },
            UnaryOperator::Negate => {
                emitted_negation(f, s, tree, operand, depth, fuel)
            },
            UnaryOperator::Dereference => {
                match typed(f, s.locals, tree, operand, 0) {
                    Err(kind) => {
                        failed(f, s, kind)
                    },
                    Ok(ty) => {
                        match pointee_under(ty) {
                            Err(kind) => {
                                failed(f, s, kind)
                            },
                            Ok(pointee) => {
                                let s = emitted_expression(f, s, tree, operand, depth + 1, fuel - 1);
                                emitted_reference_load(f, s, pointee)
                            },
                        }
                    },
                }
            },
            UnaryOperator::AddressOf | UnaryOperator::AddressOfMut => {
                emitted_address(f, s, tree, operand, depth, fuel)
            },
        }
    }
}

/// The code of a negation.
#[verifier::opaque]
pub open spec fn emitted_negation<R: ConstantResolver, const P: usize, const N: usize>(
    f: Frame<R, P, N>,
    s: Emission,
    tree: Tree,
    operand: ExprId,
    depth: int,
    fuel: int,
) -> Emission
    decreases fuel, 14int, 0int,
{
    if fuel <= 0 {
        failed(f, s, CodegenErrorKind::Lowering(IrErrorKind::NestingLimitExceeded))
    } else {
        let width = s.width;
        if !width.signed {
            failed(f, s, CodegenErrorKind::RuntimeTypeMismatch)
        } else {
            let s = match form_at(tree, operand) {
                Some(Form::Integer { value, suffix }) => {
                    if value > width.maximum as u128 + 1 {
                        failed(f, s, CodegenErrorKind::ValueOutOfRange)
                    } else {
                        emitted_constant(f, s, value as u64)
                    }
                },
                _ => {
                    emitted_expression(f, s, tree, operand, depth + 1, fuel - 1)
                },
            };
            emitted_negated(f, s, width)
        }
    }
}

/// The code of a reference to an expression.
#[verifier::opaque]
pub open spec fn emitted_address<R: ConstantResolver, const P: usize, const N: usize>(
    f: Frame<R, P, N>,
    s: Emission,
    tree: Tree,
    operand: ExprId,
    depth: int,
    fuel: int,
) -> Emission
    decreases fuel, 14int, 0int,
{
    if fuel <= 0 {
        failed(f, s, CodegenErrorKind::Lowering(IrErrorKind::NestingLimitExceeded))
    } else {
        match form_at(tree, operand) {
            Some(Form::Identifier(name)) => {
                emitted_identifier_address(f, s, name)
            },
            Some(Form::Unary { operator: UnaryOperator::Dereference, operand: reference }) => {
                emitted_expression(f, s, tree, reference, depth + 1, fuel - 1)
            },
            Some(Form::RangeIndex { base, start, end, inclusive }) => {
                emitted_range_address(f, s, tree, base, start, end, inclusive, depth, fuel)
            },
            Some(Form::Index { base, index }) => {
                emitted_index_address(f, s, tree, base, index, depth + 1, fuel)
            },
            _ => {
                failed(f, s, CodegenErrorKind::RuntimeExpressionUnsupported)
            },
        }
    }
}

/// The address of the first element of a range.
#[verifier::opaque]
pub open spec fn emitted_range_address<R: ConstantResolver, const P: usize, const N: usize>(
    f: Frame<R, P, N>,
    s: Emission,
    tree: Tree,
    base: ExprId,
    start: Option<ExprId>,
    end: Option<ExprId>,
    inclusive: bool,
    depth: int,
    fuel: int,
) -> Emission
    decreases fuel, 13int, 0int,
{
    if fuel <= 0 {
        failed(f, s, CodegenErrorKind::Lowering(IrErrorKind::NestingLimitExceeded))
    } else {
        match typed(f, s.locals, tree, base, depth + 1) {
            Err(kind) => {
                failed(f, s, kind)
            },
            Ok(ty) => {
                match source_of_index(ty) {
                    IndexSource::Referenced { element, count } => {
                        match range_bounds(tree, start, end, inclusive, count, f.resolver) {
                            Err(kind) => {
                                failed(f, s, kind)
                            },
                            Ok((first, _)) => {
                                let s = emitted_expression(f, s, tree, base, depth + 1, fuel - 1);
                                match offset_of_range(first, element) {
                                    Err(kind) => {
                                        failed(f, s, kind)
                                    },
                                    Ok(offset) => {
                                        if offset != 0 {
                                            let s = put(f, s, [0x48u8, 0x05]@);
                                            put(f, s, word_bytes(offset as int))
                                        } else {
                                            s
                                        }
                                    },
                                }
                            },
                        }
                    },
                    _ => {
                        failed(f, s, CodegenErrorKind::RuntimeTypeMismatch)
                    },
                }
            },
        }
    }
}

/// The code of an operation on two values.
#[verifier::opaque]
pub open spec fn emitted_operation<R: ConstantResolver, const P: usize, const N: usize>(
    f: Frame<R, P, N>,
    s: Emission,
    tree: Tree,
    operator: BinaryOperator,
    left: ExprId,
    right: ExprId,
    depth: int,
    fuel: int,
) -> Emission
    decreases fuel, 15int, 0int,
{
    if fuel <= 0 {
        failed(f, s, CodegenErrorKind::Lowering(IrErrorKind::NestingLimitExceeded))
    } else {
        let s = emitted_expression(f, s, tree, left, depth + 1, fuel - 1);
        if logical(operator) {
            let s = put(f, s, [0x48u8, 0x85, 0xc0]@);
            let end = branch_place(s, 2);
            let s = put(f, s, [0x0fu8, opcode_of_logical(operator), 0, 0, 0, 0]@);
            let s = emitted_expression(f, s, tree, right, depth + 1, fuel - 1);
            landed(f, s, end)
        } else {
            let s = put(f, s, [0x50u8]@);
            let s = raised(f, s, 1);
            let s = emitted_expression(f, s, tree, right, depth + 1, fuel - 1);
            let s = released(f, s, 1);
            let s = put(f, s, [0x59u8]@);
            emitted_binary(f, s, operator)
        }
    }
}

/// The code of a choice between two values.
#[verifier::opaque]
pub open spec fn emitted_choice<R: ConstantResolver, const P: usize, const N: usize>(
    f: Frame<R, P, N>,
    s: Emission,
    tree: Tree,
    condition: ExprId,
    then_branch: ExprId,
    else_branch: ExprId,
    depth: int,
    fuel: int,
) -> Emission
    decreases fuel, 15int, 0int,
{
    if fuel <= 0 {
        failed(f, s, CodegenErrorKind::Lowering(IrErrorKind::NestingLimitExceeded))
    } else {
        let s = emitted_expression(f, s, tree, condition, depth + 1, fuel - 1);
        let s = put(f, s, [0x48u8, 0x85, 0xc0]@);
        let otherwise = branch_place(s, 2);
        let s = put(f, s, [0x0fu8, 0x84, 0, 0, 0, 0]@);
        let s = emitted_expression(f, s, tree, then_branch, depth + 1, fuel - 1);
        let end = branch_place(s, 1);
        let s = put(f, s, [0xe9u8, 0, 0, 0, 0]@);
        let s = landed(f, s, otherwise);
        let s = emitted_expression(f, s, tree, else_branch, depth + 1, fuel - 1);
        landed(f, s, end)
    }
}

/// The code of an element.
#[verifier::opaque]
pub open spec fn emitted_index<R: ConstantResolver, const P: usize, const N: usize>(
    f: Frame<R, P, N>,
    s: Emission,
    tree: Tree,
    base: ExprId,
    index: ExprId,
    depth: int,
    fuel: int,
) -> Emission
    decreases fuel, 15int, 0int,
{
    if fuel <= 0 {
        failed(f, s, CodegenErrorKind::Lowering(IrErrorKind::NestingLimitExceeded))
    } else {
        match typed(f, s.locals, tree, base, depth + 1) {
            Err(kind) => {
                failed(f, s, kind)
            },
            Ok(ty) => {
                match source_of_index(ty) {
                    IndexSource::Slice { element } => {
                        match reference_source(tree, base) {
                            None => {
                                failed(f, s, CodegenErrorKind::RuntimeExpressionUnsupported)
                            },
                            Some(source) => {
                                emitted_slice_index(f, s, tree, base, index, element, source, depth + 1, fuel)
                            },
                        }
                    },
                    IndexSource::Referenced { element, count } => {
                        match known_index(tree, index, count, f.resolver) {
                            Err(kind) => {
                                failed(f, s, kind)
                            },
                            Ok(Some(place)) => {
                                emitted_referenced_constant_index(
                                    f,
                                    s,
                                    tree,
                                    base,
                                    element,
                                    place,
                                    depth + 1,
                                    fuel,
                                )
                            },
                            Ok(None) => {
                                emitted_referenced_index(
                                    f,
                                    s,
                                    tree,
                                    base,
                                    index,
                                    element,
                                    count,
                                    depth + 1,
                                    fuel,
                                )
                            },
                        }
                    },
                    IndexSource::Array { count, .. } => {
                        match known_index(tree, index, count, f.resolver) {
                            Err(kind) => {
                                failed(f, s, kind)
                            },
                            Ok(Some(place)) => {
                                emitted_array_constant_index(f, s, tree, base, place, count, fuel)
                            },
                            Ok(None) => {
                                emitted_array_index(f, s, tree, base, index, count, depth + 1, fuel)
                            },
                        }
                    },
                    _ => {
                        failed(f, s, CodegenErrorKind::RuntimeTypeMismatch)
                    },
                }
            },
        }
    }
}

/// The code of an element of a slice.
#[verifier::opaque]
pub open spec fn emitted_slice_index<R: ConstantResolver, const P: usize, const N: usize>(
    f: Frame<R, P, N>,
    s: Emission,
    tree: Tree,
    base: ExprId,
    index: ExprId,
    element: RuntimeArrayElementType,
    source: Seq<char>,
    depth: int,
    fuel: int,
) -> Emission
    decreases fuel, 10int, 0int,
{
    if fuel <= 0 {
        failed(f, s, CodegenErrorKind::Lowering(IrErrorKind::NestingLimitExceeded))
    } else {
        let s = emitted_expression(f, s, tree, base, depth + 1, fuel - 1);
        let s = put(f, s, [0x50u8]@);
        let s = raised(f, s, 1);
        let s = emitted_slice_length(f, s, source);
        let s = put(f, s, [0x50u8]@);
        let s = raised(f, s, 1);
        let s = emitted_expression(f, s, tree, index, depth + 1, fuel - 1);
        let s = put(f, s, [0x48u8, 0x3b, 0x04, 0x24]@);
        let in_bounds = branch_place(s, 2);
        let s = put(f, s, [0x0fu8, 0x82, 0, 0, 0, 0]@);
        let s = put(f, s, [0x0fu8, 0x0b]@);
        let s = landed(f, s, in_bounds);
        match element_bytes(element) {
            None => {
                failed(f, s, CodegenErrorKind::UnsupportedRuntimeType)
            },
            Some(bytes) => {
                if bytes == 0 {
                    let s = put(f, s, [0x48u8, 0x83, 0xc4, 16, 0x31, 0xc0]@);
                    released(f, s, 2)
                } else {
                    let s = put(f, s, [0x48u8, 0x89, 0xc1, 0x48, 0x8b, 0x44, 0x24, 0x08]@);
                    let s = put(f, s, [0x48u8, 0x83, 0xc4, 16]@);
                    let s = released(f, s, 2);
                    let s = emitted_element_address(f, s, bytes);
                    emitted_reference_load(f, s, element)
                }
            },
        }
    }
}

/// The code of an element of an array behind a reference, by an index that is not known before.
#[verifier::opaque]
pub open spec fn emitted_referenced_index<R: ConstantResolver, const P: usize, const N: usize>(
    f: Frame<R, P, N>,
    s: Emission,
    tree: Tree,
    base: ExprId,
    index: ExprId,
    element: RuntimeArrayElementType,
    count: usize,
    depth: int,
    fuel: int,
) -> Emission
    decreases fuel, 10int, 0int,
{
    if fuel <= 0 {
        failed(f, s, CodegenErrorKind::Lowering(IrErrorKind::NestingLimitExceeded))
    } else {
        let s = emitted_expression(f, s, tree, base, depth + 1, fuel - 1);
        let s = put(f, s, [0x50u8]@);
        let s = raised(f, s, 1);
        let s = emitted_expression(f, s, tree, index, depth + 1, fuel - 1);
        let s = put(f, s, [0x48u8, 0x83, 0xf8, count as u8]@);
        let in_bounds = branch_place(s, 2);
        let s = put(f, s, [0x0fu8, 0x82, 0, 0, 0, 0]@);
        let s = put(f, s, [0x0fu8, 0x0b]@);
        let s = landed(f, s, in_bounds);
        match element_bytes(element) {
            None => {
                failed(f, s, CodegenErrorKind::UnsupportedRuntimeType)
            },
            Some(bytes) => {
                if bytes == 0 {
                    let s = put(f, s, [0x48u8, 0x83, 0xc4, 0x08, 0x31, 0xc0]@);
                    released(f, s, 1)
                } else {
                    let s = put(f, s, [0x48u8, 0x89, 0xc1, 0x58]@);
                    let s = released(f, s, 1);
                    let s = emitted_element_address(f, s, bytes);
                    emitted_reference_load(f, s, element)
                }
            },
        }
    }
}

/// The code of an element of an array behind a reference, by an index that is known.
#[verifier::opaque]
pub open spec fn emitted_referenced_constant_index<R: ConstantResolver, const P: usize, const N: usize>(
    f: Frame<R, P, N>,
    s: Emission,
    tree: Tree,
    base: ExprId,
    element: RuntimeArrayElementType,
    index: usize,
    depth: int,
    fuel: int,
) -> Emission
    decreases fuel, 10int, 0int,
{
    if fuel <= 0 {
        failed(f, s, CodegenErrorKind::Lowering(IrErrorKind::NestingLimitExceeded))
    } else {
        let s = emitted_expression(f, s, tree, base, depth + 1, fuel - 1);
        match element_bytes(element) {
            None => {
                failed(f, s, CodegenErrorKind::UnsupportedRuntimeType)
            },
            Some(bytes) => {
                match product_of(bytes, index) {
                    None => {
                        failed(f, s, CodegenErrorKind::OutputTooSmall)
                    },
                    Some(displacement) => {
                        let s = if displacement == 0 {
                            s
                        } else if displacement <= 127 {
                            put(f, s, [0x48u8, 0x83, 0xc0, displacement as u8]@)
                        } else if displacement <= 0xffff_ffff {
                            let s = put(f, s, [0x48u8, 0x05]@);
                            put(f, s, word_bytes(displacement as int))
                        } else {
                            failed(f, s, CodegenErrorKind::OutputTooSmall)
                        };
                        if bytes == 0 {
                            put(f, s, [0x31u8, 0xc0]@)
                        } else {
                            emitted_reference_load(f, s, element)
                        }
                    },
                }
            },
        }
    }
}

/// The code of an element of an array, by an index that is known.
#[verifier::opaque]
pub open spec fn emitted_array_constant_index<R: ConstantResolver, const P: usize, const N: usize>(
    f: Frame<R, P, N>,
    s: Emission,
    tree: Tree,
    base: ExprId,
    index: usize,
    count: usize,
    fuel: int,
) -> Emission
    decreases fuel, 10int, 0int,
{
    if fuel <= 0 {
        failed(f, s, CodegenErrorKind::Lowering(IrErrorKind::NestingLimitExceeded))
    } else {
        if count > MAX_ARRAY_ELEMENTS || index >= count {
            failed(f, s, CodegenErrorKind::RuntimeExpressionUnsupported)
        } else {
            let s = emitted_array(f, s, tree, base, count, fuel - 1);
            let s = emitted_stack_slot(f, s, index);
            let s = released(f, s, count);
            emitted_slots_cleanup(f, s, count)
        }
    }
}

/// The code of an element of an array, by an index that is not known before.
#[verifier::opaque]
pub open spec fn emitted_array_index<R: ConstantResolver, const P: usize, const N: usize>(
    f: Frame<R, P, N>,
    s: Emission,
    tree: Tree,
    base: ExprId,
    index: ExprId,
    count: usize,
    depth: int,
    fuel: int,
) -> Emission
    decreases fuel, 10int, 0int,
{
    if fuel <= 0 {
        failed(f, s, CodegenErrorKind::Lowering(IrErrorKind::NestingLimitExceeded))
    } else {
        if count > MAX_ARRAY_ELEMENTS {
            failed(f, s, CodegenErrorKind::RuntimeExpressionUnsupported)
        } else {
            let s = emitted_array(f, s, tree, base, count, fuel - 1);
            let s = emitted_expression(f, s, tree, index, depth + 1, fuel - 1);
            let s = put(f, s, [0x50u8]@);
            let s = raised(f, s, 1);
            let s = emitted_chosen_slots(f, s, 0, 1, count, 0);
            let s = released(f, s, place_from(count, 1));
            emitted_slots_cleanup(f, s, place_from(count, 1))
        }
    }
}

/// The address of an element.
#[verifier::opaque]
pub open spec fn emitted_index_address<R: ConstantResolver, const P: usize, const N: usize>(
    f: Frame<R, P, N>,
    s: Emission,
    tree: Tree,
    base: ExprId,
    index: ExprId,
    depth: int,
    fuel: int,
) -> Emission
    decreases fuel, 13int, 0int,
{
    if fuel <= 0 {
        failed(f, s, CodegenErrorKind::Lowering(IrErrorKind::NestingLimitExceeded))
    } else {
        match typed(f, s.locals, tree, base, depth + 1) {
            Err(kind) => {
                failed(f, s, kind)
            },
            Ok(ty) => {
                match source_of_index(ty) {
                    IndexSource::Referenced { element, count } => {
                        let s = emitted_expression(f, s, tree, base, depth + 1, fuel - 1);
                        emitted_counted_element_address(f, s, tree, index, element, count, depth, fuel)
                    },
                    IndexSource::Slice { element } => {
                        match reference_source(tree, base) {
                            None => {
                                failed(f, s, CodegenErrorKind::RuntimeExpressionUnsupported)
                            },
                            Some(source) => {
                                let s = emitted_expression(f, s, tree, base, depth + 1, fuel - 1);
                                emitted_slice_element_address(f, s, tree, index, element, source, depth, fuel)
                            },
                        }
                    },
                    IndexSource::Array { element, count } => {
                        match form_at(tree, base) {
                            Some(Form::Identifier(name)) => {
                                let s = emitted_identifier_address(f, s, name);
                                emitted_counted_element_address(
                                    f,
                                    s,
                                    tree,
                                    index,
                                    element,
                                    count,
                                    depth,
                                    fuel,
                                )
                            },
                            _ => {
                                failed(f, s, CodegenErrorKind::RuntimeTypeMismatch)
                            },
                        }
                    },
                    _ => {
                        failed(f, s, CodegenErrorKind::RuntimeTypeMismatch)
                    },
                }
            },
        }
    }
}

/// The address of an element, by the address of the first of a known number.
#[verifier::opaque]
pub open spec fn emitted_counted_element_address<R: ConstantResolver, const P: usize, const N: usize>(
    f: Frame<R, P, N>,
    s: Emission,
    tree: Tree,
    index: ExprId,
    element: RuntimeArrayElementType,
    count: usize,
    depth: int,
    fuel: int,
) -> Emission
    decreases fuel, 10int, 0int,
{
    if fuel <= 0 {
        failed(f, s, CodegenErrorKind::Lowering(IrErrorKind::NestingLimitExceeded))
    } else {
        let s = put(f, s, [0x50u8]@);
        let s = raised(f, s, 1);
        let s = emitted_expression(f, s, tree, index, depth + 1, fuel - 1);
        let s = put(f, s, [0x48u8, 0x83, 0xf8]@);
        let s = if count <= 255 {
            put(f, s, [count as u8]@)
        } else {
            failed(f, s, CodegenErrorKind::ValueOutOfRange)
        };
        let s = trapped(f, s, 0x83);
        let s = put(f, s, [0x48u8, 0x89, 0xc1, 0x58]@);
        let s = released(f, s, 1);
        match element_bytes(element) {
            None => {
                failed(f, s, CodegenErrorKind::UnsupportedRuntimeType)
            },
            Some(bytes) => {
                emitted_element_address(f, s, bytes)
            },
        }
    }
}

/// The address of an element, by the address of the first of a slice.
#[verifier::opaque]
pub open spec fn emitted_slice_element_address<R: ConstantResolver, const P: usize, const N: usize>(
    f: Frame<R, P, N>,
    s: Emission,
    tree: Tree,
    index: ExprId,
    element: RuntimeArrayElementType,
    source: Seq<char>,
    depth: int,
    fuel: int,
) -> Emission
    decreases fuel, 10int, 0int,
{
    if fuel <= 0 {
        failed(f, s, CodegenErrorKind::Lowering(IrErrorKind::NestingLimitExceeded))
    } else {
        let s = put(f, s, [0x50u8]@);
        let s = raised(f, s, 1);
        let s = emitted_slice_length(f, s, source);
        let s = put(f, s, [0x50u8]@);
        let s = raised(f, s, 1);
        let s = emitted_expression(f, s, tree, index, depth + 1, fuel - 1);
        let s = put(f, s, [0x48u8, 0x3b, 0x04, 0x24]@);
        let s = trapped(f, s, 0x83);
        let s = put(f, s, [0x48u8, 0x89, 0xc1, 0x48, 0x8b, 0x44, 0x24, 0x08]@);
        let s = emitted_cleanup_bytes(f, s, 16);
        let s = released(f, s, 2);
        match element_bytes(element) {
            None => {
                failed(f, s, CodegenErrorKind::UnsupportedRuntimeType)
            },
            Some(bytes) => {
                emitted_element_address(f, s, bytes)
            },
        }
    }
}

/// Whether an index of a string is between two characters.
#[verifier::opaque]
pub open spec fn emitted_char_boundary<R: ConstantResolver, const P: usize, const N: usize>(
    f: Frame<R, P, N>,
    s: Emission,
    tree: Tree,
    base: ExprId,
    index: ExprId,
    depth: int,
    fuel: int,
) -> Emission
    decreases fuel, 15int, 0int,
{
    if fuel <= 0 {
        failed(f, s, CodegenErrorKind::Lowering(IrErrorKind::NestingLimitExceeded))
    } else {
        match reference_source(tree, base) {
            None => {
                failed(f, s, CodegenErrorKind::RuntimeExpressionUnsupported)
            },
            Some(source) => {
                let s = emitted_expression(f, s, tree, base, depth + 1, fuel - 1);
                let s = put(f, s, [0x50u8]@);
                let s = raised(f, s, 1);
                let s = emitted_slice_length(f, s, source);
                let s = put(f, s, [0x50u8]@);
                let s = raised(f, s, 1);
                let s = emitted_expression(f, s, tree, index, depth + 1, fuel - 1);
                emitted_boundary_answer(f, s)
            },
        }
    }
}

/// The code of an element of an array expression.
#[verifier::opaque]
pub open spec fn emitted_array_element<R: ConstantResolver, const P: usize, const N: usize>(
    f: Frame<R, P, N>,
    s: Emission,
    tree: Tree,
    id: ExprId,
    index: usize,
    depth: int,
    fuel: int,
) -> Emission
    decreases fuel, 12int, 0int,
{
    if fuel <= 0 {
        failed(f, s, CodegenErrorKind::Lowering(IrErrorKind::NestingLimitExceeded))
    } else {
        if depth >= MAX_EXPRESSION_DEPTH {
            failed(f, s, CodegenErrorKind::Lowering(IrErrorKind::NestingLimitExceeded))
        } else {
            match form_at(tree, id) {
                Some(Form::DefaultValue) => {
                    put(f, s, [0x31u8, 0xc0]@)
                },
                Some(Form::Array { elements, element_count }) => {
                    match element_at(elements, index, element_count) {
                        None => {
                            failed(f, s, CodegenErrorKind::RuntimeExpressionUnsupported)
                        },
                        Some(element) => {
                            emitted_expression(f, s, tree, element, depth + 1, fuel - 1)
                        },
                    }
                },
                Some(Form::ArrayRepeat { element, count }) => {
                    if index >= count {
                        failed(f, s, CodegenErrorKind::ValueOutOfRange)
                    } else {
                        emitted_expression(f, s, tree, element, depth + 1, fuel - 1)
                    }
                },
                Some(Form::Identifier(name)) => {
                    emitted_named_element(f, s, name, index)
                },
                Some(Form::If { condition, then_branch, else_branch }) => {
                    emitted_element_choice(
                        f,
                        s,
                        tree,
                        condition,
                        then_branch,
                        else_branch,
                        index,
                        depth,
                        fuel,
                    )
                },
                Some(Form::LoopBreakIf { condition, then_branch, else_branch }) => {
                    emitted_element_choice(
                        f,
                        s,
                        tree,
                        condition,
                        then_branch,
                        else_branch,
                        index,
                        depth,
                        fuel,
                    )
                },
                Some(Form::InlineConst { operand }) => {
                    emitted_array_element(f, s, tree, operand, index, depth + 1, fuel - 1)
                },
                Some(Form::LoopBreak { operand }) => {
                    emitted_array_element(f, s, tree, operand, index, depth + 1, fuel - 1)
                },
                Some(Form::Return { operand }) => {
                    emitted_array_element(f, s, tree, operand, index, depth + 1, fuel - 1)
                },
                Some(Form::Sequence { first, then }) => {
                    let s = emitted_expression(f, s, tree, first, depth + 1, fuel - 1);
                    emitted_array_element(f, s, tree, then, index, depth + 1, fuel - 1)
                },
                _ => {
                    failed(f, s, CodegenErrorKind::RuntimeExpressionUnsupported)
                },
            }
        }
    }
}

/// The code of an element of one of two arrays.
#[verifier::opaque]
pub open spec fn emitted_element_choice<R: ConstantResolver, const P: usize, const N: usize>(
    f: Frame<R, P, N>,
    s: Emission,
    tree: Tree,
    condition: ExprId,
    then_branch: ExprId,
    else_branch: ExprId,
    index: usize,
    depth: int,
    fuel: int,
) -> Emission
    decreases fuel, 11int, 0int,
{
    if fuel <= 0 {
        failed(f, s, CodegenErrorKind::Lowering(IrErrorKind::NestingLimitExceeded))
    } else {
        let s = emitted_expression(f, s, tree, condition, depth + 1, fuel - 1);
        let s = put(f, s, [0x48u8, 0x85, 0xc0]@);
        let otherwise = branch_place(s, 2);
        let s = put(f, s, [0x0fu8, 0x84, 0, 0, 0, 0]@);
        let s = emitted_array_element(f, s, tree, then_branch, index, depth + 1, fuel - 1);
        let end = branch_place(s, 1);
        let s = put(f, s, [0xe9u8, 0, 0, 0, 0]@);
        let s = landed(f, s, otherwise);
        let s = emitted_array_element(f, s, tree, else_branch, index, depth + 1, fuel - 1);
        landed(f, s, end)
    }
}

/// Puts the elements of an array expression on the stack, from one of them on.
#[verifier::opaque]
pub open spec fn emitted_array_elements<R: ConstantResolver, const P: usize, const N: usize>(
    f: Frame<R, P, N>,
    s: Emission,
    tree: Tree,
    root: ExprId,
    count: usize,
    index: usize,
    fuel: int,
) -> Emission
    decreases fuel, 13int, count - index,
{
    if fuel <= 0 {
        failed(f, s, CodegenErrorKind::Lowering(IrErrorKind::NestingLimitExceeded))
    } else {
        if index < count {
            let s = emitted_array_element(f, s, tree, root, index, 0, fuel);
            let s = put(f, s, [0x50u8]@);
            let s = raised(f, s, 1);
            emitted_array_elements(f, s, tree, root, count, (index + 1) as usize, fuel)
        } else {
            s
        }
    }
}

/// Puts an array on the stack, its first element on top.
#[verifier::opaque]
pub open spec fn emitted_array<R: ConstantResolver, const P: usize, const N: usize>(
    f: Frame<R, P, N>,
    s: Emission,
    tree: Tree,
    root: ExprId,
    count: usize,
    fuel: int,
) -> Emission
    decreases fuel, 14int, 0int,
{
    if fuel <= 0 {
        failed(f, s, CodegenErrorKind::Lowering(IrErrorKind::NestingLimitExceeded))
    } else {
        match form_at(tree, root) {
            None => {
                failed(f, s, CodegenErrorKind::RuntimeExpressionUnsupported)
            },
            Some(Form::ArrayRepeat { element, count: repeat }) => {
                if repeat != count {
                    failed(f, s, CodegenErrorKind::RuntimeTypeMismatch)
                } else {
                    let s = emitted_expression(f, s, tree, element, 0, fuel - 1);
                    if count != 0 {
                        let s = put(f, s, [0x50u8]@);
                        let s = raised(f, s, 1);
                        emitted_copies(f, s, count, 1)
                    } else {
                        s
                    }
                }
            },
            Some(_) => {
                let s = emitted_array_elements(f, s, tree, root, count, 0, fuel);
                emitted_swapped(f, s, count, count / 2, 0)
            },
        }
    }
}

} // verus!
