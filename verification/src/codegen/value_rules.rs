//! The rules for the code of expressions, one at a time.
//!
//! The rules refer to each other, so the definition of one brings all of them with it. Each lemma
//! here gives what one rule says and leaves the rules that it refers to as they are.
use crate::codegen::error::CodegenErrorKind;
use crate::codegen::frame::{
    Frame, form_at, place_from,
};
use crate::codegen::runtime::{
    RuntimeArrayElementType, RuntimeExpressionType, element_bytes, product_of,
};
use crate::expression::{
    ConstantResolver, ExprId, Form, MAX_ARRAY_ELEMENTS, MAX_EXPRESSION_DEPTH, Tree,
};
use crate::integer::{
    BinaryOperator, ScalarType, UnaryOperator,
};
use crate::ir::IrErrorKind;
use crate::codegen::emission::{
    Emission, branch_place, failed, landed, place, put, raised, released, trapped,
    word_bytes,
};
use crate::codegen::instructions::{
    emitted_binary, emitted_chosen_slots, emitted_cleanup_bytes, emitted_constant,
    emitted_copies, emitted_element_address, emitted_identifier, emitted_identifier_address, emitted_negated,
    emitted_normal, emitted_reference_load, emitted_slice_length,
    emitted_slots_cleanup, emitted_stack_slot, emitted_swapped,
};
use crate::codegen::typing::{
    range_bounds, reference_source, typed, typed_operation,
};
use crate::codegen::typing_rules::logical;
use crate::codegen::selection::{
    IndexSource, element_at, known_index, offset_of_range, opcode_of_logical, pointee_under,
    register_of_truth, source_of_index, width_of_operation,
};
use crate::codegen::values::{
    emitted_address, emitted_array, emitted_array_constant_index, emitted_array_element,
    emitted_array_elements, emitted_array_index, emitted_boundary_answer, emitted_call,
    emitted_char_boundary, emitted_choice, emitted_conversion,
    emitted_counted_element_address, emitted_element_choice, emitted_expression,
    emitted_index, emitted_index_address, emitted_inline_const, emitted_literal,
    emitted_named_element, emitted_negation, emitted_operation, emitted_range_address,
    emitted_referenced_constant_index, emitted_referenced_index,
    emitted_slice_element_address, emitted_slice_index, emitted_slice_query, emitted_unary,
    emitted_with_width,
};
use vstd::prelude::*;

verus! {

pub proof fn emitted_expression_rule<R: ConstantResolver, const P: usize, const N: usize>(
    f: Frame<R, P, N>,
    s: Emission,
    tree: Tree,
    id: ExprId,
    depth: int,
    fuel: int,
)
    ensures
        emitted_expression(f, s, tree, id, depth, fuel) == ({
            if fuel <= 0 {
                failed(f, s, CodegenErrorKind::Lowering(IrErrorKind::NestingLimitExceeded))
            } else {
                if depth >= MAX_EXPRESSION_DEPTH {
                    failed(f, s, CodegenErrorKind::Lowering(IrErrorKind::NestingLimitExceeded))
                } else {
                    match typed(f, s.locals, tree, id, depth) {
                        Err(kind) => {
                            failed(f, s, kind)
                        },
                        Ok(ty) => {
                            match typed_operation(f, s.locals, tree, id, ty, depth) {
                                Err(kind) => {
                                    failed(f, s, kind)
                                },
                                Ok(operation) => {
                                    let previous = s.width;
                                    match width_of_operation(operation, previous) {
                                        None => {
                                            failed(f, s, CodegenErrorKind::UnsupportedRuntimeType)
                                        },
                                        Some(width) => {
                                            let s = (Emission { width: width, ..s });
                                            let s = emitted_with_width(f, s, tree, id, depth, fuel);
                                            (Emission { width: previous, ..s })
                                        },
                                    }
                                },
                            }
                        },
                    }
                }
            }
        }),
{
    reveal(emitted_expression);
    reveal(emitted_with_width);
}

pub proof fn emitted_with_width_rule<R: ConstantResolver, const P: usize, const N: usize>(
    f: Frame<R, P, N>,
    s: Emission,
    tree: Tree,
    id: ExprId,
    depth: int,
    fuel: int,
)
    ensures
        emitted_with_width(f, s, tree, id, depth, fuel) == ({
            if fuel <= 0 {
                failed(f, s, CodegenErrorKind::Lowering(IrErrorKind::NestingLimitExceeded))
            } else {
                if depth >= MAX_EXPRESSION_DEPTH {
                    failed(f, s, CodegenErrorKind::Lowering(IrErrorKind::NestingLimitExceeded))
                } else {
                    match form_at(tree, id) {
                        None => {
                            failed(f, s, CodegenErrorKind::RuntimeExpressionUnsupported)
                        },
                        Some(kind) => {
                            match kind {
                                Form::Unit | Form::DefaultValue => {
                                    put(f, s, [0x31u8, 0xc0]@)
                                },
                                Form::Array { .. } | Form::ArrayRepeat { .. } | Form::RangeIndex { .. } => {
                                    failed(f, s, CodegenErrorKind::RuntimeExpressionUnsupported)
                                },
                                Form::Index { base, index } => {
                                    emitted_index(f, s, tree, base, index, depth, fuel)
                                },
                                Form::SliceLen { base } => {
                                    emitted_slice_query(f, s, tree, base, depth)
                                },
                                Form::SliceIsEmpty { base } => {
                                    let s = emitted_slice_query(f, s, tree, base, depth);
                                    put(f, s, [0x48u8, 0x85, 0xc0, 0x0f, 0x94, 0xc0, 0x0f, 0xb6, 0xc0]@)
                                },
                                Form::StrAsBytes { base } => {
                                    emitted_expression(f, s, tree, base, depth + 1, fuel - 1)
                                },
                                Form::StrIsCharBoundary { base, index } => {
                                    emitted_char_boundary(f, s, tree, base, index, depth + 1, fuel)
                                },
                                Form::ReferenceAsPointer { base, .. } => {
                                    emitted_expression(f, s, tree, base, depth + 1, fuel - 1)
                                },
                                Form::Integer { value, suffix } => {
                                    emitted_literal(f, s, value)
                                },
                                Form::Bool(value) => {
                                    emitted_constant(f, s, register_of_truth(value))
                                },
                                Form::Char(value) => {
                                    emitted_constant(f, s, value as u64)
                                },
                                Form::Identifier(name) => {
                                    emitted_identifier(f, s, name)
                                },
                                Form::Call { callee, arguments, argument_count } => {
                                    emitted_call(f, s, tree, callee, arguments, argument_count)
                                },
                                Form::Cast { operand, target } => {
                                    let s = emitted_expression(f, s, tree, operand, depth + 1, fuel - 1);
                                    emitted_conversion(f, s, target)
                                },
                                Form::Ascribe { operand, target } => {
                                    let s = emitted_expression(f, s, tree, operand, depth + 1, fuel - 1);
                                    match target {
                                        ScalarType::Integer(target) => {
                                            emitted_conversion(f, s, target)
                                        },
                                        ScalarType::Bool => {
                                            put(
                                                f,
                                                s,
                                                [0x48u8, 0x85, 0xc0, 0x0f, 0x95, 0xc0, 0x0f, 0xb6, 0xc0]@,
                                            )
                                        },
                                    }
                                },
                                Form::Unary { operator, operand } => {
                                    emitted_unary(f, s, tree, operator, operand, depth, fuel)
                                },
                                Form::Binary { operator, left, right } => {
                                    emitted_operation(f, s, tree, operator, left, right, depth, fuel)
                                },
                                Form::If { condition, then_branch, else_branch } => {
                                    emitted_choice(
                                        f,
                                        s,
                                        tree,
                                        condition,
                                        then_branch,
                                        else_branch,
                                        depth,
                                        fuel,
                                    )
                                },
                                Form::LoopBreakIf { condition, then_branch, else_branch } => {
                                    emitted_choice(
                                        f,
                                        s,
                                        tree,
                                        condition,
                                        then_branch,
                                        else_branch,
                                        depth,
                                        fuel,
                                    )
                                },
                                Form::Return { operand } => {
                                    emitted_expression(f, s, tree, operand, depth + 1, fuel - 1)
                                },
                                Form::LoopBreak { operand } => {
                                    emitted_expression(f, s, tree, operand, depth + 1, fuel - 1)
                                },
                                Form::Sequence { first, then } => {
                                    let s = emitted_expression(f, s, tree, first, depth + 1, fuel - 1);
                                    emitted_expression(f, s, tree, then, depth + 1, fuel - 1)
                                },
                                Form::InlineConst { operand } => {
                                    emitted_inline_const(f, s, tree, operand, depth)
                                },
                            }
                        },
                    }
                }
            }
        }),
{
    reveal(emitted_with_width);
    reveal(emitted_expression);
    reveal(emitted_unary);
    reveal(emitted_operation);
    reveal(emitted_choice);
    reveal(emitted_index);
    reveal(emitted_char_boundary);
}

pub proof fn emitted_unary_rule<R: ConstantResolver, const P: usize, const N: usize>(
    f: Frame<R, P, N>,
    s: Emission,
    tree: Tree,
    operator: UnaryOperator,
    operand: ExprId,
    depth: int,
    fuel: int,
)
    ensures
        emitted_unary(f, s, tree, operator, operand, depth, fuel) == ({
            if fuel <= 0 {
                failed(f, s, CodegenErrorKind::Lowering(IrErrorKind::NestingLimitExceeded))
            } else {
                match operator {
                    UnaryOperator::Not => {
                        match typed(f, s.locals, tree, operand, 0) {
                            Err(kind) => {
                                failed(f, s, kind)
                            },
                            Ok(ty) => {
                                let s = emitted_expression(f, s, tree, operand, depth + 1, fuel - 1);
                                if ty == RuntimeExpressionType::Bool {
                                    put(f, s, [0x48u8, 0x85, 0xc0, 0x0f, 0x94, 0xc0, 0x0f, 0xb6, 0xc0]@)
                                } else {
                                    let s = put(f, s, [0x48u8, 0xf7, 0xd0]@);
                                    emitted_normal(f, s)
                                }
                            },
                        }
                    },
                    UnaryOperator::Negate => {
                        emitted_negation(f, s, tree, operand, depth, fuel)
                    },
                    UnaryOperator::Dereference => {
                        match typed(f, s.locals, tree, operand, 0) {
                            Err(kind) => {
                                failed(f, s, kind)
                            },
                            Ok(ty) => {
                                match pointee_under(ty) {
                                    Err(kind) => {
                                        failed(f, s, kind)
                                    },
                                    Ok(pointee) => {
                                        let s = emitted_expression(f, s, tree, operand, depth + 1, fuel - 1);
                                        emitted_reference_load(f, s, pointee)
                                    },
                                }
                            },
                        }
                    },
                    UnaryOperator::AddressOf | UnaryOperator::AddressOfMut => {
                        emitted_address(f, s, tree, operand, depth, fuel)
                    },
                }
            }
        }),
{
    reveal(emitted_unary);
    reveal(emitted_expression);
    reveal(emitted_negation);
    reveal(emitted_address);
}

pub proof fn emitted_negation_rule<R: ConstantResolver, const P: usize, const N: usize>(
    f: Frame<R, P, N>,
    s: Emission,
    tree: Tree,
    operand: ExprId,
    depth: int,
    fuel: int,
)
    ensures
        emitted_negation(f, s, tree, operand, depth, fuel) == ({
            if fuel <= 0 {
                failed(f, s, CodegenErrorKind::Lowering(IrErrorKind::NestingLimitExceeded))
            } else {
                let width = s.width;
                if !width.signed {
                    failed(f, s, CodegenErrorKind::RuntimeTypeMismatch)
                } else {
                    let s = match form_at(tree, operand) {
                        Some(Form::Integer { value, suffix }) => {
                            if value > width.maximum as u128 + 1 {
                                failed(f, s, CodegenErrorKind::ValueOutOfRange)
                            } else {
                                emitted_constant(f, s, value as u64)
                            }
                        },
                        _ => {
                            emitted_expression(f, s, tree, operand, depth + 1, fuel - 1)
                        },
                    };
                    emitted_negated(f, s, width)
                }
            }
        }),
{
    reveal(emitted_negation);
    reveal(emitted_expression);
}

pub proof fn emitted_address_rule<R: ConstantResolver, const P: usize, const N: usize>(
    f: Frame<R, P, N>,
    s: Emission,
    tree: Tree,
    operand: ExprId,
    depth: int,
    fuel: int,
)
    ensures
        emitted_address(f, s, tree, operand, depth, fuel) == ({
            if fuel <= 0 {
                failed(f, s, CodegenErrorKind::Lowering(IrErrorKind::NestingLimitExceeded))
            } else {
                match form_at(tree, operand) {
                    Some(Form::Identifier(name)) => {
                        emitted_identifier_address(f, s, name)
                    },
                    Some(Form::Unary { operator: UnaryOperator::Dereference, operand: reference }) => {
                        emitted_expression(f, s, tree, reference, depth + 1, fuel - 1)
                    },
                    Some(Form::RangeIndex { base, start, end, inclusive }) => {
                        emitted_range_address(f, s, tree, base, start, end, inclusive, depth, fuel)
                    },
                    Some(Form::Index { base, index }) => {
                        emitted_index_address(f, s, tree, base, index, depth + 1, fuel)
                    },
                    _ => {
                        failed(f, s, CodegenErrorKind::RuntimeExpressionUnsupported)
                    },
                }
            }
        }),
{
    reveal(emitted_address);
    reveal(emitted_expression);
    reveal(emitted_range_address);
    reveal(emitted_index_address);
}

pub proof fn emitted_range_address_rule<R: ConstantResolver, const P: usize, const N: usize>(
    f: Frame<R, P, N>,
    s: Emission,
    tree: Tree,
    base: ExprId,
    start: Option<ExprId>,
    end: Option<ExprId>,
    inclusive: bool,
    depth: int,
    fuel: int,
)
    ensures
        emitted_range_address(f, s, tree, base, start, end, inclusive, depth, fuel) == ({
            if fuel <= 0 {
                failed(f, s, CodegenErrorKind::Lowering(IrErrorKind::NestingLimitExceeded))
            } else {
                match typed(f, s.locals, tree, base, depth + 1) {
                    Err(kind) => {
                        failed(f, s, kind)
                    },
                    Ok(ty) => {
                        match source_of_index(ty) {
                            IndexSource::Referenced { element, count } => {
                                match range_bounds(tree, start, end, inclusive, count, f.resolver) {
                                    Err(kind) => {
                                        failed(f, s, kind)
                                    },
                                    Ok((first, _)) => {
                                        let s = emitted_expression(f, s, tree, base, depth + 1, fuel - 1);
                                        match offset_of_range(first, element) {
                                            Err(kind) => {
                                                failed(f, s, kind)
                                            },
                                            Ok(offset) => {
                                                if offset != 0 {
                                                    let s = put(f, s, [0x48u8, 0x05]@);
                                                    put(f, s, word_bytes(offset as int))
                                                } else {
                                                    s
                                                }
                                            },
                                        }
                                    },
                                }
                            },
                            _ => {
                                failed(f, s, CodegenErrorKind::RuntimeTypeMismatch)
                            },
                        }
                    },
                }
            }
        }),
{
    reveal(emitted_range_address);
    reveal(emitted_expression);
}

pub proof fn emitted_operation_rule<R: ConstantResolver, const P: usize, const N: usize>(
    f: Frame<R, P, N>,
    s: Emission,
    tree: Tree,
    operator: BinaryOperator,
    left: ExprId,
    right: ExprId,
    depth: int,
    fuel: int,
)
    ensures
        emitted_operation(f, s, tree, operator, left, right, depth, fuel) == ({
            if fuel <= 0 {
                failed(f, s, CodegenErrorKind::Lowering(IrErrorKind::NestingLimitExceeded))
            } else {
                let s = emitted_expression(f, s, tree, left, depth + 1, fuel - 1);
                if logical(operator) {
                    let s = put(f, s, [0x48u8, 0x85, 0xc0]@);
                    let end = branch_place(s, 2);
                    let s = put(f, s, [0x0fu8, opcode_of_logical(operator), 0, 0, 0, 0]@);
                    let s = emitted_expression(f, s, tree, right, depth + 1, fuel - 1);
                    landed(f, s, end)
                } else {
                    let s = put(f, s, [0x50u8]@);
                    let s = raised(f, s, 1);
                    let s = emitted_expression(f, s, tree, right, depth + 1, fuel - 1);
                    let s = released(f, s, 1);
                    let s = put(f, s, [0x59u8]@);
                    emitted_binary(f, s, operator)
                }
            }
        }),
{
    reveal(emitted_operation);
    reveal(emitted_expression);
}

pub proof fn emitted_choice_rule<R: ConstantResolver, const P: usize, const N: usize>(
    f: Frame<R, P, N>,
    s: Emission,
    tree: Tree,
    condition: ExprId,
    then_branch: ExprId,
    else_branch: ExprId,
    depth: int,
    fuel: int,
)
    ensures
        emitted_choice(f, s, tree, condition, then_branch, else_branch, depth, fuel) == ({
            if fuel <= 0 {
                failed(f, s, CodegenErrorKind::Lowering(IrErrorKind::NestingLimitExceeded))
            } else {
                let s = emitted_expression(f, s, tree, condition, depth + 1, fuel - 1);
                let s = put(f, s, [0x48u8, 0x85, 0xc0]@);
                let otherwise = branch_place(s, 2);
                let s = put(f, s, [0x0fu8, 0x84, 0, 0, 0, 0]@);
                let s = emitted_expression(f, s, tree, then_branch, depth + 1, fuel - 1);
                let end = branch_place(s, 1);
                let s = put(f, s, [0xe9u8, 0, 0, 0, 0]@);
                let s = landed(f, s, otherwise);
                let s = emitted_expression(f, s, tree, else_branch, depth + 1, fuel - 1);
                landed(f, s, end)
            }
        }),
{
    reveal(emitted_choice);
    reveal(emitted_expression);
}

pub proof fn emitted_index_rule<R: ConstantResolver, const P: usize, const N: usize>(
    f: Frame<R, P, N>,
    s: Emission,
    tree: Tree,
    base: ExprId,
    index: ExprId,
    depth: int,
    fuel: int,
)
    ensures
        emitted_index(f, s, tree, base, index, depth, fuel) == ({
            if fuel <= 0 {
                failed(f, s, CodegenErrorKind::Lowering(IrErrorKind::NestingLimitExceeded))
            } else {
                match typed(f, s.locals, tree, base, depth + 1) {
                    Err(kind) => {
                        failed(f, s, kind)
                    },
                    Ok(ty) => {
                        match source_of_index(ty) {
                            IndexSource::Slice { element } => {
                                match reference_source(tree, base) {
                                    None => {
                                        failed(f, s, CodegenErrorKind::RuntimeExpressionUnsupported)
                                    },
                                    Some(source) => {
                                        emitted_slice_index(
                                            f,
                                            s,
                                            tree,
                                            base,
                                            index,
                                            element,
                                            source,
                                            depth + 1,
                                            fuel,
                                        )
                                    },
                                }
                            },
                            IndexSource::Referenced { element, count } => {
                                match known_index(tree, index, count, f.resolver) {
                                    Err(kind) => {
                                        failed(f, s, kind)
                                    },
                                    Ok(Some(place)) => {
                                        emitted_referenced_constant_index(
                                            f,
                                            s,
                                            tree,
                                            base,
                                            element,
                                            place,
                                            depth + 1,
                                            fuel,
                                        )
                                    },
                                    Ok(None) => {
                                        emitted_referenced_index(
                                            f,
                                            s,
                                            tree,
                                            base,
                                            index,
                                            element,
                                            count,
                                            depth + 1,
                                            fuel,
                                        )
                                    },
                                }
                            },
                            IndexSource::Array { count, .. } => {
                                match known_index(tree, index, count, f.resolver) {
                                    Err(kind) => {
                                        failed(f, s, kind)
                                    },
                                    Ok(Some(place)) => {
                                        emitted_array_constant_index(f, s, tree, base, place, count, fuel)
                                    },
                                    Ok(None) => {
                                        emitted_array_index(f, s, tree, base, index, count, depth + 1, fuel)
                                    },
                                }
                            },
                            _ => {
                                failed(f, s, CodegenErrorKind::RuntimeTypeMismatch)
                            },
                        }
                    },
                }
            }
        }),
{
    reveal(emitted_index);
    reveal(emitted_slice_index);
    reveal(emitted_referenced_index);
    reveal(emitted_referenced_constant_index);
    reveal(emitted_array_constant_index);
    reveal(emitted_array_index);
}

pub proof fn emitted_slice_index_rule<R: ConstantResolver, const P: usize, const N: usize>(
    f: Frame<R, P, N>,
    s: Emission,
    tree: Tree,
    base: ExprId,
    index: ExprId,
    element: RuntimeArrayElementType,
    source: Seq<char>,
    depth: int,
    fuel: int,
)
    ensures
        emitted_slice_index(f, s, tree, base, index, element, source, depth, fuel) == ({
            if fuel <= 0 {
                failed(f, s, CodegenErrorKind::Lowering(IrErrorKind::NestingLimitExceeded))
            } else {
                let s = emitted_expression(f, s, tree, base, depth + 1, fuel - 1);
                let s = put(f, s, [0x50u8]@);
                let s = raised(f, s, 1);
                let s = emitted_slice_length(f, s, source);
                let s = put(f, s, [0x50u8]@);
                let s = raised(f, s, 1);
                let s = emitted_expression(f, s, tree, index, depth + 1, fuel - 1);
                let s = put(f, s, [0x48u8, 0x3b, 0x04, 0x24]@);
                let in_bounds = branch_place(s, 2);
                let s = put(f, s, [0x0fu8, 0x82, 0, 0, 0, 0]@);
                let s = put(f, s, [0x0fu8, 0x0b]@);
                let s = landed(f, s, in_bounds);
                match element_bytes(element) {
                    None => {
                        failed(f, s, CodegenErrorKind::UnsupportedRuntimeType)
                    },
                    Some(bytes) => {
                        if bytes == 0 {
                            let s = put(f, s, [0x48u8, 0x83, 0xc4, 16, 0x31, 0xc0]@);
                            released(f, s, 2)
                        } else {
                            let s = put(f, s, [0x48u8, 0x89, 0xc1, 0x48, 0x8b, 0x44, 0x24, 0x08]@);
                            let s = put(f, s, [0x48u8, 0x83, 0xc4, 16]@);
                            let s = released(f, s, 2);
                            let s = emitted_element_address(f, s, bytes);
                            emitted_reference_load(f, s, element)
                        }
                    },
                }
            }
        }),
{
    reveal(emitted_slice_index);
    reveal(emitted_expression);
}

pub proof fn emitted_referenced_index_rule<R: ConstantResolver, const P: usize, const N: usize>(
    f: Frame<R, P, N>,
    s: Emission,
    tree: Tree,
    base: ExprId,
    index: ExprId,
    element: RuntimeArrayElementType,
    count: usize,
    depth: int,
    fuel: int,
)
    ensures
        emitted_referenced_index(f, s, tree, base, index, element, count, depth, fuel) == ({
            if fuel <= 0 {
                failed(f, s, CodegenErrorKind::Lowering(IrErrorKind::NestingLimitExceeded))
            } else {
                let s = emitted_expression(f, s, tree, base, depth + 1, fuel - 1);
                let s = put(f, s, [0x50u8]@);
                let s = raised(f, s, 1);
                let s = emitted_expression(f, s, tree, index, depth + 1, fuel - 1);
                let s = put(f, s, [0x48u8, 0x83, 0xf8, count as u8]@);
                let in_bounds = branch_place(s, 2);
                let s = put(f, s, [0x0fu8, 0x82, 0, 0, 0, 0]@);
                let s = put(f, s, [0x0fu8, 0x0b]@);
                let s = landed(f, s, in_bounds);
                match element_bytes(element) {
                    None => {
                        failed(f, s, CodegenErrorKind::UnsupportedRuntimeType)
                    },
                    Some(bytes) => {
                        if bytes == 0 {
                            let s = put(f, s, [0x48u8, 0x83, 0xc4, 0x08, 0x31, 0xc0]@);
                            released(f, s, 1)
                        } else {
                            let s = put(f, s, [0x48u8, 0x89, 0xc1, 0x58]@);
                            let s = released(f, s, 1);
                            let s = emitted_element_address(f, s, bytes);
                            emitted_reference_load(f, s, element)
                        }
                    },
                }
            }
        }),
{
    reveal(emitted_referenced_index);
    reveal(emitted_expression);
}

pub proof fn emitted_referenced_constant_index_rule<R: ConstantResolver, const P: usize, const N: usize>(
    f: Frame<R, P, N>,
    s: Emission,
    tree: Tree,
    base: ExprId,
    element: RuntimeArrayElementType,
    index: usize,
    depth: int,
    fuel: int,
)
    ensures
        emitted_referenced_constant_index(f, s, tree, base, element, index, depth, fuel) == ({
            if fuel <= 0 {
                failed(f, s, CodegenErrorKind::Lowering(IrErrorKind::NestingLimitExceeded))
            } else {
                let s = emitted_expression(f, s, tree, base, depth + 1, fuel - 1);
                match element_bytes(element) {
                    None => {
                        failed(f, s, CodegenErrorKind::UnsupportedRuntimeType)
                    },
                    Some(bytes) => {
                        match product_of(bytes, index) {
                            None => {
                                failed(f, s, CodegenErrorKind::OutputTooSmall)
                            },
                            Some(displacement) => {
                                let s = if displacement == 0 {
                                    s
                                } else if displacement <= 127 {
                                    put(f, s, [0x48u8, 0x83, 0xc0, displacement as u8]@)
                                } else if displacement <= 0xffff_ffff {
                                    let s = put(f, s, [0x48u8, 0x05]@);
                                    put(f, s, word_bytes(displacement as int))
                                } else {
                                    failed(f, s, CodegenErrorKind::OutputTooSmall)
                                };
                                if bytes == 0 {
                                    put(f, s, [0x31u8, 0xc0]@)
                                } else {
                                    emitted_reference_load(f, s, element)
                                }
                            },
                        }
                    },
                }
            }
        }),
{
    reveal(emitted_referenced_constant_index);
    reveal(emitted_expression);
}

pub proof fn emitted_array_constant_index_rule<R: ConstantResolver, const P: usize, const N: usize>(
    f: Frame<R, P, N>,
    s: Emission,
    tree: Tree,
    base: ExprId,
    index: usize,
    count: usize,
    fuel: int,
)
    ensures
        emitted_array_constant_index(f, s, tree, base, index, count, fuel) == ({
            if fuel <= 0 {
                failed(f, s, CodegenErrorKind::Lowering(IrErrorKind::NestingLimitExceeded))
            } else {
                if count > MAX_ARRAY_ELEMENTS || index >= count {
                    failed(f, s, CodegenErrorKind::RuntimeExpressionUnsupported)
                } else {
                    let s = emitted_array(f, s, tree, base, count, fuel - 1);
                    let s = emitted_stack_slot(f, s, index);
                    let s = released(f, s, count);
                    emitted_slots_cleanup(f, s, count)
                }
            }
        }),
{
    reveal(emitted_array_constant_index);
    reveal(emitted_array);
}

pub proof fn emitted_array_index_rule<R: ConstantResolver, const P: usize, const N: usize>(
    f: Frame<R, P, N>,
    s: Emission,
    tree: Tree,
    base: ExprId,
    index: ExprId,
    count: usize,
    depth: int,
    fuel: int,
)
    ensures
        emitted_array_index(f, s, tree, base, index, count, depth, fuel) == ({
            if fuel <= 0 {
                failed(f, s, CodegenErrorKind::Lowering(IrErrorKind::NestingLimitExceeded))
            } else {
                if count > MAX_ARRAY_ELEMENTS {
                    failed(f, s, CodegenErrorKind::RuntimeExpressionUnsupported)
                } else {
                    let s = emitted_array(f, s, tree, base, count, fuel - 1);
                    let s = emitted_expression(f, s, tree, index, depth + 1, fuel - 1);
                    let s = put(f, s, [0x50u8]@);
                    let s = raised(f, s, 1);
                    let s = emitted_chosen_slots(f, s, 0, 1, count, 0);
                    let s = released(f, s, place_from(count, 1));
                    emitted_slots_cleanup(f, s, place_from(count, 1))
                }
            }
        }),
{
    reveal(emitted_array_index);
    reveal(emitted_expression);
    reveal(emitted_array);
}

pub proof fn emitted_index_address_rule<R: ConstantResolver, const P: usize, const N: usize>(
    f: Frame<R, P, N>,
    s: Emission,
    tree: Tree,
    base: ExprId,
    index: ExprId,
    depth: int,
    fuel: int,
)
    ensures
        emitted_index_address(f, s, tree, base, index, depth, fuel) == ({
            if fuel <= 0 {
                failed(f, s, CodegenErrorKind::Lowering(IrErrorKind::NestingLimitExceeded))
            } else {
                match typed(f, s.locals, tree, base, depth + 1) {
                    Err(kind) => {
                        failed(f, s, kind)
                    },
                    Ok(ty) => {
                        match source_of_index(ty) {
                            IndexSource::Referenced { element, count } => {
                                let s = emitted_expression(f, s, tree, base, depth + 1, fuel - 1);
                                emitted_counted_element_address(
                                    f,
                                    s,
                                    tree,
                                    index,
                                    element,
                                    count,
                                    depth,
                                    fuel,
                                )
                            },
                            IndexSource::Slice { element } => {
                                match reference_source(tree, base) {
                                    None => {
                                        failed(f, s, CodegenErrorKind::RuntimeExpressionUnsupported)
                                    },
                                    Some(source) => {
                                        let s = emitted_expression(f, s, tree, base, depth + 1, fuel - 1);
                                        emitted_slice_element_address(
                                            f,
                                            s,
                                            tree,
                                            index,
                                            element,
                                            source,
                                            depth,
                                            fuel,
                                        )
                                    },
                                }
                            },
                            IndexSource::Array { element, count } => {
                                match form_at(tree, base) {
                                    Some(Form::Identifier(name)) => {
                                        let s = emitted_identifier_address(f, s, name);
                                        emitted_counted_element_address(
                                            f,
                                            s,
                                            tree,
                                            index,
                                            element,
                                            count,
                                            depth,
                                            fuel,
                                        )
                                    },
                                    _ => {
                                        failed(f, s, CodegenErrorKind::RuntimeTypeMismatch)
                                    },
                                }
                            },
                            _ => {
                                failed(f, s, CodegenErrorKind::RuntimeTypeMismatch)
                            },
                        }
                    },
                }
            }
        }),
{
    reveal(emitted_index_address);
    reveal(emitted_expression);
    reveal(emitted_counted_element_address);
    reveal(emitted_slice_element_address);
}

pub proof fn emitted_counted_element_address_rule<R: ConstantResolver, const P: usize, const N: usize>(
    f: Frame<R, P, N>,
    s: Emission,
    tree: Tree,
    index: ExprId,
    element: RuntimeArrayElementType,
    count: usize,
    depth: int,
    fuel: int,
)
    ensures
        emitted_counted_element_address(f, s, tree, index, element, count, depth, fuel) == ({
            if fuel <= 0 {
                failed(f, s, CodegenErrorKind::Lowering(IrErrorKind::NestingLimitExceeded))
            } else {
                let s = put(f, s, [0x50u8]@);
                let s = raised(f, s, 1);
                let s = emitted_expression(f, s, tree, index, depth + 1, fuel - 1);
                let s = put(f, s, [0x48u8, 0x83, 0xf8]@);
                let s = if count <= 255 {
                    put(f, s, [count as u8]@)
                } else {
                    failed(f, s, CodegenErrorKind::ValueOutOfRange)
                };
                let s = trapped(f, s, 0x83);
                let s = put(f, s, [0x48u8, 0x89, 0xc1, 0x58]@);
                let s = released(f, s, 1);
                match element_bytes(element) {
                    None => {
                        failed(f, s, CodegenErrorKind::UnsupportedRuntimeType)
                    },
                    Some(bytes) => {
                        emitted_element_address(f, s, bytes)
                    },
                }
            }
        }),
{
    reveal(emitted_counted_element_address);
    reveal(emitted_expression);
}

pub proof fn emitted_slice_element_address_rule<R: ConstantResolver, const P: usize, const N: usize>(
    f: Frame<R, P, N>,
    s: Emission,
    tree: Tree,
    index: ExprId,
    element: RuntimeArrayElementType,
    source: Seq<char>,
    depth: int,
    fuel: int,
)
    ensures
        emitted_slice_element_address(f, s, tree, index, element, source, depth, fuel) == ({
            if fuel <= 0 {
                failed(f, s, CodegenErrorKind::Lowering(IrErrorKind::NestingLimitExceeded))
            } else {
                let s = put(f, s, [0x50u8]@);
                let s = raised(f, s, 1);
                let s = emitted_slice_length(f, s, source);
                let s = put(f, s, [0x50u8]@);
                let s = raised(f, s, 1);
                let s = emitted_expression(f, s, tree, index, depth + 1, fuel - 1);
                let s = put(f, s, [0x48u8, 0x3b, 0x04, 0x24]@);
                let s = trapped(f, s, 0x83);
                let s = put(f, s, [0x48u8, 0x89, 0xc1, 0x48, 0x8b, 0x44, 0x24, 0x08]@);
                let s = emitted_cleanup_bytes(f, s, 16);
                let s = released(f, s, 2);
                match element_bytes(element) {
                    None => {
                        failed(f, s, CodegenErrorKind::UnsupportedRuntimeType)
                    },
                    Some(bytes) => {
                        emitted_element_address(f, s, bytes)
                    },
                }
            }
        }),
{
    reveal(emitted_slice_element_address);
    reveal(emitted_expression);
}

pub proof fn emitted_char_boundary_rule<R: ConstantResolver, const P: usize, const N: usize>(
    f: Frame<R, P, N>,
    s: Emission,
    tree: Tree,
    base: ExprId,
    index: ExprId,
    depth: int,
    fuel: int,
)
    ensures
        emitted_char_boundary(f, s, tree, base, index, depth, fuel) == ({
            if fuel <= 0 {
                failed(f, s, CodegenErrorKind::Lowering(IrErrorKind::NestingLimitExceeded))
            } else {
                match reference_source(tree, base) {
                    None => {
                        failed(f, s, CodegenErrorKind::RuntimeExpressionUnsupported)
                    },
                    Some(source) => {
                        let s = emitted_expression(f, s, tree, base, depth + 1, fuel - 1);
                        let s = put(f, s, [0x50u8]@);
                        let s = raised(f, s, 1);
                        let s = emitted_slice_length(f, s, source);
                        let s = put(f, s, [0x50u8]@);
                        let s = raised(f, s, 1);
                        let s = emitted_expression(f, s, tree, index, depth + 1, fuel - 1);
                        emitted_boundary_answer(f, s)
                    },
                }
            }
        }),
{
    reveal(emitted_char_boundary);
    reveal(emitted_expression);
}

pub proof fn emitted_array_element_rule<R: ConstantResolver, const P: usize, const N: usize>(
    f: Frame<R, P, N>,
    s: Emission,
    tree: Tree,
    id: ExprId,
    index: usize,
    depth: int,
    fuel: int,
)
    ensures
        emitted_array_element(f, s, tree, id, index, depth, fuel) == ({
            if fuel <= 0 {
                failed(f, s, CodegenErrorKind::Lowering(IrErrorKind::NestingLimitExceeded))
            } else {
                if depth >= MAX_EXPRESSION_DEPTH {
                    failed(f, s, CodegenErrorKind::Lowering(IrErrorKind::NestingLimitExceeded))
                } else {
                    match form_at(tree, id) {
                        Some(Form::DefaultValue) => {
                            put(f, s, [0x31u8, 0xc0]@)
                        },
                        Some(Form::Array { elements, element_count }) => {
                            match element_at(elements, index, element_count) {
                                None => {
                                    failed(f, s, CodegenErrorKind::RuntimeExpressionUnsupported)
                                },
                                Some(element) => {
                                    emitted_expression(f, s, tree, element, depth + 1, fuel - 1)
                                },
                            }
                        },
                        Some(Form::ArrayRepeat { element, count }) => {
                            if index >= count {
                                failed(f, s, CodegenErrorKind::ValueOutOfRange)
                            } else {
                                emitted_expression(f, s, tree, element, depth + 1, fuel - 1)
                            }
                        },
                        Some(Form::Identifier(name)) => {
                            emitted_named_element(f, s, name, index)
                        },
                        Some(Form::If { condition, then_branch, else_branch }) => {
                            emitted_element_choice(
                                f,
                                s,
                                tree,
                                condition,
                                then_branch,
                                else_branch,
                                index,
                                depth,
                                fuel,
                            )
                        },
                        Some(Form::LoopBreakIf { condition, then_branch, else_branch }) => {
                            emitted_element_choice(
                                f,
                                s,
                                tree,
                                condition,
                                then_branch,
                                else_branch,
                                index,
                                depth,
                                fuel,
                            )
                        },
                        Some(Form::InlineConst { operand }) => {
                            emitted_array_element(f, s, tree, operand, index, depth + 1, fuel - 1)
                        },
                        Some(Form::LoopBreak { operand }) => {
                            emitted_array_element(f, s, tree, operand, index, depth + 1, fuel - 1)
                        },
                        Some(Form::Return { operand }) => {
                            emitted_array_element(f, s, tree, operand, index, depth + 1, fuel - 1)
                        },
                        Some(Form::Sequence { first, then }) => {
                            let s = emitted_expression(f, s, tree, first, depth + 1, fuel - 1);
                            emitted_array_element(f, s, tree, then, index, depth + 1, fuel - 1)
                        },
                        _ => {
                            failed(f, s, CodegenErrorKind::RuntimeExpressionUnsupported)
                        },
                    }
                }
            }
        }),
{
    reveal(emitted_array_element);
    reveal(emitted_expression);
    reveal(emitted_element_choice);
}

pub proof fn emitted_element_choice_rule<R: ConstantResolver, const P: usize, const N: usize>(
    f: Frame<R, P, N>,
    s: Emission,
    tree: Tree,
    condition: ExprId,
    then_branch: ExprId,
    else_branch: ExprId,
    index: usize,
    depth: int,
    fuel: int,
)
    ensures
        emitted_element_choice(f, s, tree, condition, then_branch, else_branch, index, depth, fuel) == ({
            if fuel <= 0 {
                failed(f, s, CodegenErrorKind::Lowering(IrErrorKind::NestingLimitExceeded))
            } else {
                let s = emitted_expression(f, s, tree, condition, depth + 1, fuel - 1);
                let s = put(f, s, [0x48u8, 0x85, 0xc0]@);
                let otherwise = branch_place(s, 2);
                let s = put(f, s, [0x0fu8, 0x84, 0, 0, 0, 0]@);
                let s = emitted_array_element(f, s, tree, then_branch, index, depth + 1, fuel - 1);
                let end = branch_place(s, 1);
                let s = put(f, s, [0xe9u8, 0, 0, 0, 0]@);
                let s = landed(f, s, otherwise);
                let s = emitted_array_element(f, s, tree, else_branch, index, depth + 1, fuel - 1);
                landed(f, s, end)
            }
        }),
{
    reveal(emitted_element_choice);
    reveal(emitted_expression);
    reveal(emitted_array_element);
}

pub proof fn emitted_array_elements_rule<R: ConstantResolver, const P: usize, const N: usize>(
    f: Frame<R, P, N>,
    s: Emission,
    tree: Tree,
    root: ExprId,
    count: usize,
    index: usize,
    fuel: int,
)
    ensures
        emitted_array_elements(f, s, tree, root, count, index, fuel) == ({
            if fuel <= 0 {
                failed(f, s, CodegenErrorKind::Lowering(IrErrorKind::NestingLimitExceeded))
            } else {
                if index < count {
                    let s = emitted_array_element(f, s, tree, root, index, 0, fuel);
                    let s = put(f, s, [0x50u8]@);
                    let s = raised(f, s, 1);
                    emitted_array_elements(f, s, tree, root, count, (index + 1) as usize, fuel)
                } else {
                    s
                }
            }
        }),
{
    reveal(emitted_array_elements);
    reveal(emitted_array_element);
}

pub proof fn emitted_array_rule<R: ConstantResolver, const P: usize, const N: usize>(
    f: Frame<R, P, N>,
    s: Emission,
    tree: Tree,
    root: ExprId,
    count: usize,
    fuel: int,
)
    ensures
        emitted_array(f, s, tree, root, count, fuel) == ({
            if fuel <= 0 {
                failed(f, s, CodegenErrorKind::Lowering(IrErrorKind::NestingLimitExceeded))
            } else {
                match form_at(tree, root) {
                    None => {
                        failed(f, s, CodegenErrorKind::RuntimeExpressionUnsupported)
                    },
                    Some(Form::ArrayRepeat { element, count: repeat }) => {
                        if repeat != count {
                            failed(f, s, CodegenErrorKind::RuntimeTypeMismatch)
                        } else {
                            let s = emitted_expression(f, s, tree, element, 0, fuel - 1);
                            if count != 0 {
                                let s = put(f, s, [0x50u8]@);
                                let s = raised(f, s, 1);
                                emitted_copies(f, s, count, 1)
                            } else {
                                s
                            }
                        }
                    },
                    Some(_) => {
                        let s = emitted_array_elements(f, s, tree, root, count, 0, fuel);
                        emitted_swapped(f, s, count, count / 2, 0)
                    },
                }
            }
        }),
{
    reveal(emitted_array);
    reveal(emitted_expression);
    reveal(emitted_array_elements);
}

} // verus!
