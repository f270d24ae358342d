//! Making the code of expressions.
use crate::codegen::error::CodegenErrorKind;
use crate::codegen::frame::{
    evaluate_constant, find_local, find_parameter, kind_at, translate_place,
};
use crate::codegen::runtime::{
    RuntimeArrayElementType, RuntimeExpressionType, checked_product, integer_width,
    is_fat_reference, runtime_array_element_bytes,
};
use crate::codegen::types::runtime_array_type;
use crate::expression::{
    ConstantResolver, ExprId, ExprKind, ExpressionTree, MAX_ARRAY_ELEMENTS,
    MAX_EXPRESSION_DEPTH,
};
use crate::integer::{
    BinaryOperator, IntegerType, ScalarType, UnaryOperator,
};
use crate::ir::{
    ExecutionError, IrErrorKind,
};
use crate::codegen::emission::place;
use crate::codegen::emitter::{
    RuntimeEmitter, local_stack_slots_from, register_for_call, register_for_constant,
};
use crate::codegen::encoding::mirror;
use crate::codegen::typing::{
    constant_range_bounds, evaluate_call, reference_source_name,
};
use crate::codegen::typing_rules::is_logical;
use crate::codegen::typer::{
    operation_type, runtime_expression_type_with_locals,
};
use crate::codegen::selection::{
    IndexSource, evaluate_index, index_source, logical_opcode, operation_width, pointee_of,
    read_element_at, scaled_offset, truth_register,
};
use crate::codegen::values::{
    emitted_address, emitted_array, emitted_array_constant_index, emitted_array_element,
    emitted_array_elements, emitted_array_index, emitted_boundary_answer, emitted_call,
    emitted_char_boundary, emitted_choice, emitted_conversion,
    emitted_counted_element_address, emitted_element_choice, emitted_expression,
    emitted_index, emitted_index_address, emitted_inline_const, emitted_literal,
    emitted_named_element, emitted_negation, emitted_operation,
    emitted_packed_local_element, emitted_range_address, emitted_referenced_constant_index,
    emitted_referenced_index, emitted_slice_element_address, emitted_slice_index,
    emitted_slice_query, emitted_unary, emitted_with_width,
};
use crate::codegen::value_rules::{
    emitted_address_rule, emitted_array_constant_index_rule, emitted_array_element_rule,
    emitted_array_elements_rule, emitted_array_index_rule, emitted_array_rule,
    emitted_char_boundary_rule, emitted_choice_rule, emitted_counted_element_address_rule,
    emitted_element_choice_rule, emitted_expression_rule, emitted_index_address_rule,
    emitted_index_rule, emitted_negation_rule, emitted_operation_rule,
    emitted_range_address_rule, emitted_referenced_constant_index_rule,
    emitted_referenced_index_rule, emitted_slice_element_address_rule,
    emitted_slice_index_rule, emitted_unary_rule, emitted_with_width_rule,
};
use vstd::prelude::*;

verus! {

impl<'a, 'source, R: ConstantResolver, const P: usize, const N: usize> RuntimeEmitter<
    'a,
    'source,
    R,
    P,
    N,
> {
    pub(crate) fn emit_conversion(&mut self, target: IntegerType)
        ensures
            final(self)@ == emitted_conversion(old(self).frame, old(self)@, target),
            final(self).continues(*old(self)),
            final(self).balances(*old(self)),
    {
        proof {
            reveal(emitted_conversion);
        }
        match integer_width(target) {
            None => {
                self.fail(CodegenErrorKind::UnsupportedRuntimeType);
            },
            Some(width) => {
                self.emit_normalize_width(width);
            },
        }
    }

    pub(crate) fn emit_char_boundary_answer(&mut self)
        ensures
            final(self)@ == emitted_boundary_answer(old(self).frame, old(self)@),
            final(self).continues(*old(self)),
            final(self).moves_stack(*old(self), -2),
    {
        proof {
            reveal(emitted_boundary_answer);
        }
        self.emit([0x48u8, 0x3b, 0x04, 0x24]);
        let out_of_bounds: usize = self.emit_forward_branch(0x87);
        let at_end: usize = self.emit_forward_branch(0x84);
        self.emit([0x48u8, 0x85, 0xc0]);
        let at_start: usize = self.emit_forward_branch(0x84);
        self.emit([0x48u8, 0x89, 0xc1, 0x48, 0x8b, 0x44, 0x24, 0x08]);
        self.emit([0x0fu8, 0xb6, 0x04, 0x08, 0x25, 0xc0, 0x00, 0x00, 0x00]);
        self.emit([0x3du8, 0x80, 0x00, 0x00, 0x00, 0x0f, 0x95, 0xc0, 0x0f, 0xb6, 0xc0]);
        let value_end: usize = self.emit_unconditional_forward_branch();
        self.patch_forward_branch(at_end);
        self.patch_forward_branch(at_start);
        self.emit([0xb8u8, 0x01, 0x00, 0x00, 0x00]);
        let true_end: usize = self.emit_unconditional_forward_branch();
        self.patch_forward_branch(out_of_bounds);
        self.emit([0x31u8, 0xc0]);
        self.patch_forward_branch(value_end);
        self.patch_forward_branch(true_end);
        self.emit_stack_cleanup_bytes(16);
        self.lower(2);
    }

    pub(crate) fn emit_literal(&mut self, value: u128)
        ensures
            final(self)@ == emitted_literal(old(self).frame, old(self)@, value),
            final(self).continues(*old(self)),
            final(self).balances(*old(self)),
    {
        proof {
            reveal(emitted_literal);
        }
        let width = self.width;
        if value > width.maximum as u128 {
            self.fail(CodegenErrorKind::ValueOutOfRange);
        } else {
            self.emit_constant(value as u64);
        }
    }

    pub(crate) fn emit_call(
        &mut self,
        tree: &ExpressionTree<'_, N>,
        callee: &str,
        arguments: &[Option<ExprId>],
        argument_count: usize,
    )
        ensures
            final(self)@ == emitted_call(
                old(self).frame,
                old(self)@,
                tree@,
                callee@,
                arguments@,
                argument_count,
            ),
            final(self).continues(*old(self)),
            final(self).balances(*old(self)),
    {
        proof {
            reveal(emitted_call);
        }
        let width = self.width;
        match evaluate_call(tree, callee, arguments, argument_count, self.frame.resolver) {
            Err(kind) => {
                self.fail(kind);
            },
            Ok(value) => {
                match register_for_call(
                    value,
                    self.frame.resolver.resolve_call_type(callee, argument_count),
                    width,
                ) {
                    Err(kind) => {
                        self.fail(kind);
                    },
                    Ok(value) => {
                        self.emit_constant(value);
                    },
                }
            },
        }
    }

    pub(crate) fn emit_inline_const(
        &mut self,
        tree: &ExpressionTree<'_, N>,
        operand: ExprId,
        depth: usize,
    )
        requires
            depth <= MAX_EXPRESSION_DEPTH,
        ensures
            final(self)@ == emitted_inline_const(old(self).frame, old(self)@, tree@, operand, depth as int),
            final(self).continues(*old(self)),
            final(self).balances(*old(self)),
    {
        proof {
            reveal(emitted_inline_const);
        }
        let width = self.width;
        match runtime_expression_type_with_locals(&self.frame, &self.locals, tree, operand, depth + 1) {
            Err(kind) => {
                self.fail(kind);
            },
            Ok(ty) => {
                match evaluate_constant(tree, operand, self.frame.resolver) {
                    Err(error) => {
                        self.fail(CodegenErrorKind::Execution(ExecutionError::Arithmetic(error)));
                    },
                    Ok(value) => {
                        if ty == RuntimeExpressionType::Unit || ty == RuntimeExpressionType::Default {
                            self.emit([0x31u8, 0xc0]);
                        } else {
                            match register_for_constant(Ok(value), ty, width) {
                                Err(kind) => {
                                    self.fail(kind);
                                },
                                Ok(value) => {
                                    self.emit_constant(value);
                                },
                            }
                        }
                    },
                }
            },
        }
    }

    pub(crate) fn emit_slice_query(
        &mut self,
        tree: &ExpressionTree<'_, N>,
        base: ExprId,
        depth: usize,
    )
        requires
            depth <= MAX_EXPRESSION_DEPTH,
        ensures
            final(self)@ == emitted_slice_query(old(self).frame, old(self)@, tree@, base, depth as int),
            final(self).continues(*old(self)),
            final(self).balances(*old(self)),
    {
        proof {
            reveal(emitted_slice_query);
        }
        match runtime_expression_type_with_locals(&self.frame, &self.locals, tree, base, depth + 1) {
            Err(kind) => {
                self.fail(kind);
            },
            Ok(ty) => {
                if is_fat_reference(ty) {
                    match reference_source_name(tree, base) {
                        None => {
                            self.fail(CodegenErrorKind::RuntimeExpressionUnsupported);
                        },
                        Some(source) => {
                            self.emit_slice_length(source);
                        },
                    }
                } else {
                    self.fail(CodegenErrorKind::RuntimeTypeMismatch);
                }
            },
        }
    }

    pub(crate) fn emit_packed_local_element(
        &mut self,
        later: Option<usize>,
        element: RuntimeArrayElementType,
        bytes: usize,
        index: usize,
    )
        ensures
            final(self)@ == emitted_packed_local_element(
                old(self).frame,
                old(self)@,
                later,
                element,
                bytes,
                index,
            ),
            final(self).continues(*old(self)),
            final(self).balances(*old(self)),
    {
        proof {
            reveal(emitted_packed_local_element);
        }
        self.emit_slot_of(0x8d, later, 0, CodegenErrorKind::OutputTooSmall);
        match checked_product(index, bytes) {
            None => {
                self.fail(CodegenErrorKind::OutputTooSmall);
            },
            Some(offset) => {
                if offset != 0 {
                    self.emit([0x48u8, 0x83, 0xc0, offset as u8]);
                }
                self.emit_reference_load(element);
            },
        }
    }

    pub(crate) fn emit_named_element(&mut self, name: &str, index: usize)
        ensures
            final(self)@ == emitted_named_element(old(self).frame, old(self)@, name@, index),
            final(self).continues(*old(self)),
            final(self).balances(*old(self)),
    {
        proof {
            reveal(emitted_named_element);
        }
        match find_local(&self.locals, name) {
            Some(local) => {
                match self.locals[local].ty {
                    RuntimeExpressionType::Array { element, count } => {
                        if index >= count {
                            self.fail(CodegenErrorKind::ValueOutOfRange);
                        } else {
                            match runtime_array_element_bytes(element) {
                                None => {
                                    self.fail(CodegenErrorKind::UnsupportedRuntimeType);
                                },
                                Some(bytes) => {
                                    if bytes == 1 || bytes == 2 || bytes == 4 {
                                        self.emit_packed_local_element(
                                            local_stack_slots_from(&self.locals, translate_place(local, 1)),
                                            element,
                                            bytes,
                                            index,
                                        );
                                    } else {
                                        self.emit_slot_of(
                                            0x8b,
                                            local_stack_slots_from(&self.locals, translate_place(local, 1)),
                                            index,
                                            CodegenErrorKind::OutputTooSmall,
                                        );
                                        self.emit_normalize_array_element(element);
                                    }
                                },
                            }
                        }
                    },
                    _ => {
                        self.fail(CodegenErrorKind::RuntimeTypeMismatch);
                    },
                }
            },
            None => {
                match find_parameter(&self.frame.function.parameters, name) {
                    None => {
                        self.fail(CodegenErrorKind::UnknownRuntimeName);
                    },
                    Some(parameter) => {
                        match runtime_array_type(self.frame.function.parameters[parameter].ty.text) {
                            Some(RuntimeExpressionType::Array { element, count }) => {
                                if index >= count {
                                    self.fail(CodegenErrorKind::ValueOutOfRange);
                                } else {
                                    self.emit_parameter_slot(
                                        0x8b,
                                        translate_place(parameter, 1),
                                        mirror(count, index),
                                        CodegenErrorKind::OutputTooSmall,
                                    );
                                    self.emit_normalize_array_element(element);
                                }
                            },
                            _ => {
                                self.fail(CodegenErrorKind::RuntimeTypeMismatch);
                            },
                        }
                    },
                }
            },
        }
    }

    pub(crate) fn emit_expression(
        &mut self,
        tree: &ExpressionTree<'_, N>,
        id: ExprId,
        depth: usize,
        fuel: usize,
    )
        ensures
            final(self)@ == emitted_expression(
                old(self).frame,
                old(self)@,
                tree@,
                id,
                depth as int,
                fuel as int,
            ),
            final(self).continues(*old(self)),
            final(self).balances(*old(self)),
        decreases fuel, 30int, 0int,
    {
        proof {
            emitted_expression_rule(self.frame, self@, tree@, id, depth as int, fuel as int);
        }
        if fuel == 0 {
            self.fail(CodegenErrorKind::Lowering(IrErrorKind::NestingLimitExceeded));
            return;
        }
        if depth >= MAX_EXPRESSION_DEPTH {
            self.fail(CodegenErrorKind::Lowering(IrErrorKind::NestingLimitExceeded));
        } else {
            match runtime_expression_type_with_locals(&self.frame, &self.locals, tree, id, depth) {
                Err(kind) => {
                    self.fail(kind);
                },
                Ok(ty) => {
                    match operation_type(&self.frame, &self.locals, tree, id, ty, depth) {
                        Err(kind) => {
                            self.fail(kind);
                        },
                        Ok(operation) => {
                            let previous = self.width;
                            match operation_width(operation, previous) {
                                None => {
                                    self.fail(CodegenErrorKind::UnsupportedRuntimeType);
                                },
                                Some(width) => {
                                    self.set_width(width);
                                    self.emit_expression_with_width(tree, id, depth, fuel);
                                    self.set_width(previous);
                                },
                            }
                        },
                    }
                },
            }
        }
    }

    pub(crate) fn emit_expression_with_width(
        &mut self,
        tree: &ExpressionTree<'_, N>,
        id: ExprId,
        depth: usize,
        fuel: usize,
    )
        ensures
            final(self)@ == emitted_with_width(
                old(self).frame,
                old(self)@,
                tree@,
                id,
                depth as int,
                fuel as int,
            ),
            final(self).continues(*old(self)),
            final(self).balances(*old(self)),
        decreases fuel, 20int, 0int,
    {
        proof {
            emitted_with_width_rule(self.frame, self@, tree@, id, depth as int, fuel as int);
        }
        if fuel == 0 {
            self.fail(CodegenErrorKind::Lowering(IrErrorKind::NestingLimitExceeded));
            return;
        }
        if depth >= MAX_EXPRESSION_DEPTH {
            self.fail(CodegenErrorKind::Lowering(IrErrorKind::NestingLimitExceeded));
        } else {
            match kind_at(tree, id) {
                None => {
                    self.fail(CodegenErrorKind::RuntimeExpressionUnsupported);
                },
                Some(kind) => {
                    match kind {
                        ExprKind::Unit | ExprKind::DefaultValue => {
                            self.emit([0x31u8, 0xc0]);
                        },
                        ExprKind::Array { .. } | ExprKind::ArrayRepeat { .. } | ExprKind::RangeIndex { .. } => {
                            self.fail(CodegenErrorKind::RuntimeExpressionUnsupported);
                        },
                        ExprKind::Index { base, index } => {
                            self.emit_index(tree, base, index, depth, fuel);
                        },
                        ExprKind::SliceLen { base } => {
                            self.emit_slice_query(tree, base, depth);
                        },
                        ExprKind::SliceIsEmpty { base } => {
                            self.emit_slice_query(tree, base, depth);
                            self.emit([0x48u8, 0x85, 0xc0, 0x0f, 0x94, 0xc0, 0x0f, 0xb6, 0xc0]);
                        },
                        ExprKind::StrAsBytes { base } => {
                            self.emit_expression(tree, base, depth + 1, fuel - 1);
                        },
                        ExprKind::StrIsCharBoundary { base, index } => {
                            self.emit_string_is_char_boundary(tree, base, index, depth + 1, fuel);
                        },
                        ExprKind::ReferenceAsPointer { base, .. } => {
                            self.emit_expression(tree, base, depth + 1, fuel - 1);
                        },
                        ExprKind::Integer(literal) => {
                            self.emit_literal(literal.value);
                        },
                        ExprKind::Bool(value) => {
                            self.emit_constant(truth_register(value));
                        },
                        ExprKind::Char(value) => {
                            self.emit_constant(value as u64);
                        },
                        ExprKind::Identifier(name) => {
                            self.emit_identifier(name);
                        },
                        ExprKind::Call { callee, arguments, argument_count } => {
                            self.emit_call(tree, callee, arguments.as_slice(), argument_count);
                        },
                        ExprKind::Cast { operand, target } => {
                            self.emit_expression(tree, operand, depth + 1, fuel - 1);
                            self.emit_conversion(target);
                        },
                        ExprKind::Ascribe { operand, target } => {
                            self.emit_expression(tree, operand, depth + 1, fuel - 1);
                            match target {
                                ScalarType::Integer(target) => {
                                    self.emit_conversion(target);
                                },
                                ScalarType::Bool => {
                                    self.emit([0x48u8, 0x85, 0xc0, 0x0f, 0x95, 0xc0, 0x0f, 0xb6, 0xc0]);
                                },
                            }
                        },
                        ExprKind::Unary { operator, operand } => {
                            self.emit_unary(tree, operator, operand, depth, fuel);
                        },
                        ExprKind::Binary { operator, left, right } => {
                            self.emit_operation(tree, operator, left, right, depth, fuel);
                        },
                        ExprKind::If { condition, then_branch, else_branch } => {
                            self.emit_choice(tree, condition, then_branch, else_branch, depth, fuel);
                        },
                        ExprKind::LoopBreakIf { condition, then_branch, else_branch } => {
                            self.emit_choice(tree, condition, then_branch, else_branch, depth, fuel);
                        },
                        ExprKind::Return { operand } => {
                            self.emit_expression(tree, operand, depth + 1, fuel - 1);
                        },
                        ExprKind::LoopBreak { operand } => {
                            self.emit_expression(tree, operand, depth + 1, fuel - 1);
                        },
                        ExprKind::Sequence { first, then } => {
                            self.emit_expression(tree, first, depth + 1, fuel - 1);
                            self.emit_expression(tree, then, depth + 1, fuel - 1);
                        },
                        ExprKind::InlineConst { operand } => {
                            self.emit_inline_const(tree, operand, depth);
                        },
                    }
                },
            }
        }
    }

    pub(crate) fn emit_unary(
        &mut self,
        tree: &ExpressionTree<'_, N>,
        operator: UnaryOperator,
        operand: ExprId,
        depth: usize,
        fuel: usize,
    )
        requires
            depth <= MAX_EXPRESSION_DEPTH,
        ensures
            final(self)@ == emitted_unary(
                old(self).frame,
                old(self)@,
                tree@,
                operator,
                operand,
                depth as int,
                fuel as int,
            ),
            final(self).continues(*old(self)),
            final(self).balances(*old(self)),
        decreases fuel, 15int, 0int,
    {
        proof {
            emitted_unary_rule(self.frame, self@, tree@, operator, operand, depth as int, fuel as int);
        }
        if fuel == 0 {
            self.fail(CodegenErrorKind::Lowering(IrErrorKind::NestingLimitExceeded));
            return;
        }
        match operator {
            UnaryOperator::Not => {
                match runtime_expression_type_with_locals(&self.frame, &self.locals, tree, operand, 0) {
                    Err(kind) => {
                        self.fail(kind);
                    },
                    Ok(ty) => {
                        self.emit_expression(tree, operand, depth + 1, fuel - 1);
                        if ty == RuntimeExpressionType::Bool {
                            self.emit([0x48u8, 0x85, 0xc0, 0x0f, 0x94, 0xc0, 0x0f, 0xb6, 0xc0]);
                        } else {
                            self.emit([0x48u8, 0xf7, 0xd0]);
                            self.emit_normalize();
                        }
                    },
                }
            },
            UnaryOperator::Negate => {
                self.emit_negation(tree, operand, depth, fuel);
            },
            UnaryOperator::Dereference => {
                match runtime_expression_type_with_locals(&self.frame, &self.locals, tree, operand, 0) {
                    Err(kind) => {
                        self.fail(kind);
                    },
                    Ok(ty) => {
                        match pointee_of(ty) {
                            Err(kind) => {
                                self.fail(kind);
                            },
                            Ok(pointee) => {
                                self.emit_expression(tree, operand, depth + 1, fuel - 1);
                                self.emit_reference_load(pointee);
                            },
                        }
                    },
                }
            },
            UnaryOperator::AddressOf | UnaryOperator::AddressOfMut => {
                self.emit_address(tree, operand, depth, fuel);
            },
        }
    }

    pub(crate) fn emit_negation(
        &mut self,
        tree: &ExpressionTree<'_, N>,
        operand: ExprId,
        depth: usize,
        fuel: usize,
    )
        requires
            depth <= MAX_EXPRESSION_DEPTH,
        ensures
            final(self)@ == emitted_negation(
                old(self).frame,
                old(self)@,
                tree@,
                operand,
                depth as int,
                fuel as int,
            ),
            final(self).continues(*old(self)),
            final(self).balances(*old(self)),
        decreases fuel, 14int, 0int,
    {
        proof {
            emitted_negation_rule(self.frame, self@, tree@, operand, depth as int, fuel as int);
        }
        if fuel == 0 {
            self.fail(CodegenErrorKind::Lowering(IrErrorKind::NestingLimitExceeded));
            return;
        }
        let width = self.width;
        if !width.signed {
            self.fail(CodegenErrorKind::RuntimeTypeMismatch);
        } else {
            match kind_at(tree, operand) {
                Some(ExprKind::Integer(literal)) => {
                    if literal.value > width.maximum as u128 + 1 {
                        self.fail(CodegenErrorKind::ValueOutOfRange);
                    } else {
                        self.emit_constant(literal.value as u64);
                    }
                },
                _ => {
                    self.emit_expression(tree, operand, depth + 1, fuel - 1);
                },
            }
            self.emit_negated(width);
        }
    }

    pub(crate) fn emit_address(
        &mut self,
        tree: &ExpressionTree<'_, N>,
        operand: ExprId,
        depth: usize,
        fuel: usize,
    )
        requires
            depth <= MAX_EXPRESSION_DEPTH,
        ensures
            final(self)@ == emitted_address(
                old(self).frame,
                old(self)@,
                tree@,
                operand,
                depth as int,
                fuel as int,
            ),
            final(self).continues(*old(self)),
            final(self).balances(*old(self)),
        decreases fuel, 14int, 0int,
    {
        proof {
            emitted_address_rule(self.frame, self@, tree@, operand, depth as int, fuel as int);
        }
        if fuel == 0 {
            self.fail(CodegenErrorKind::Lowering(IrErrorKind::NestingLimitExceeded));
            return;
        }
        match kind_at(tree, operand) {
            Some(ExprKind::Identifier(name)) => {
                self.emit_identifier_address(name);
            },
            Some(ExprKind::Unary { operator: UnaryOperator::Dereference, operand: reference }) => {
                self.emit_expression(tree, reference, depth + 1, fuel - 1);
            },
            Some(ExprKind::RangeIndex { base, start, end, inclusive }) => {
                self.emit_range_address(tree, base, start, end, inclusive, depth, fuel);
            },
            Some(ExprKind::Index { base, index }) => {
                self.emit_index_address(tree, base, index, depth + 1, fuel);
            },
            _ => {
                self.fail(CodegenErrorKind::RuntimeExpressionUnsupported);
            },
        }
    }

    pub(crate) fn emit_range_address(
        &mut self,
        tree: &ExpressionTree<'_, N>,
        base: ExprId,
        start: Option<ExprId>,
        end: Option<ExprId>,
        inclusive: bool,
        depth: usize,
        fuel: usize,
    )
        requires
            depth <= MAX_EXPRESSION_DEPTH,
        ensures
            final(self)@ == emitted_range_address(
                old(self).frame,
                old(self)@,
                tree@,
                base,
                start,
                end,
                inclusive,
                depth as int,
                fuel as int,
            ),
            final(self).continues(*old(self)),
            final(self).balances(*old(self)),
        decreases fuel, 13int, 0int,
    {
        proof {
            emitted_range_address_rule(
                self.frame,
                self@,
                tree@,
                base,
                start,
                end,
                inclusive,
                depth as int,
                fuel as int,
            );
        }
        if fuel == 0 {
            self.fail(CodegenErrorKind::Lowering(IrErrorKind::NestingLimitExceeded));
            return;
        }
        match runtime_expression_type_with_locals(&self.frame, &self.locals, tree, base, depth + 1) {
            Err(kind) => {
                self.fail(kind);
            },
            Ok(ty) => {
                match index_source(ty) {
                    IndexSource::Referenced { element, count } => {
                        match constant_range_bounds(tree, start, end, inclusive, count, self.frame.resolver) {
                            Err(kind) => {
                                self.fail(kind);
                            },
                            Ok((first, _)) => {
                                self.emit_expression(tree, base, depth + 1, fuel - 1);
                                match scaled_offset(first, element) {
                                    Err(kind) => {
                                        self.fail(kind);
                                    },
                                    Ok(offset) => {
                                        if offset != 0 {
                                            self.emit([0x48u8, 0x05]);
                                            self.emit_word(offset);
                                        }
                                    },
                                }
                            },
                        }
                    },
                    _ => {
                        self.fail(CodegenErrorKind::RuntimeTypeMismatch);
                    },
                }
            },
        }
    }

    pub(crate) fn emit_operation(
        &mut self,
        tree: &ExpressionTree<'_, N>,
        operator: BinaryOperator,
        left: ExprId,
        right: ExprId,
        depth: usize,
        fuel: usize,
    )
        requires
            depth <= MAX_EXPRESSION_DEPTH,
        ensures
            final(self)@ == emitted_operation(
                old(self).frame,
                old(self)@,
                tree@,
                operator,
                left,
                right,
                depth as int,
                fuel as int,
            ),
            final(self).continues(*old(self)),
            final(self).balances(*old(self)),
        decreases fuel, 15int, 0int,
    {
        proof {
            emitted_operation_rule(
                self.frame,
                self@,
                tree@,
                operator,
                left,
                right,
                depth as int,
                fuel as int,
            );
        }
        if fuel == 0 {
            self.fail(CodegenErrorKind::Lowering(IrErrorKind::NestingLimitExceeded));
            return;
        }
        self.emit_expression(tree, left, depth + 1, fuel - 1);
        if is_logical(operator) {
            self.emit([0x48u8, 0x85, 0xc0]);
            let end: usize = self.emit_forward_branch(logical_opcode(operator));
            self.emit_expression(tree, right, depth + 1, fuel - 1);
            self.patch_forward_branch(end);
        } else {
            self.emit([0x50u8]);
            self.raise(1);
            self.emit_expression(tree, right, depth + 1, fuel - 1);
            self.lower(1);
            self.emit([0x59u8]);
            self.emit_binary(operator);
        }
    }

    pub(crate) fn emit_choice(
        &mut self,
        tree: &ExpressionTree<'_, N>,
        condition: ExprId,
        then_branch: ExprId,
        else_branch: ExprId,
        depth: usize,
        fuel: usize,
    )
        requires
            depth <= MAX_EXPRESSION_DEPTH,
        ensures
            final(self)@ == emitted_choice(
                old(self).frame,
                old(self)@,
                tree@,
                condition,
                then_branch,
                else_branch,
                depth as int,
                fuel as int,
            ),
            final(self).continues(*old(self)),
            final(self).balances(*old(self)),
        decreases fuel, 15int, 0int,
    {
        proof {
            emitted_choice_rule(
                self.frame,
                self@,
                tree@,
                condition,
                then_branch,
                else_branch,
                depth as int,
                fuel as int,
            );
        }
        if fuel == 0 {
            self.fail(CodegenErrorKind::Lowering(IrErrorKind::NestingLimitExceeded));
            return;
        }
        self.emit_expression(tree, condition, depth + 1, fuel - 1);
        self.emit([0x48u8, 0x85, 0xc0]);
        let otherwise: usize = self.emit_forward_branch(0x84);
        self.emit_expression(tree, then_branch, depth + 1, fuel - 1);
        let end: usize = self.emit_unconditional_forward_branch();
        self.patch_forward_branch(otherwise);
        self.emit_expression(tree, else_branch, depth + 1, fuel - 1);
        self.patch_forward_branch(end);
    }

    pub(crate) fn emit_index(
        &mut self,
        tree: &ExpressionTree<'_, N>,
        base: ExprId,
        index: ExprId,
        depth: usize,
        fuel: usize,
    )
        requires
            depth <= MAX_EXPRESSION_DEPTH,
        ensures
            final(self)@ == emitted_index(
                old(self).frame,
                old(self)@,
                tree@,
                base,
                index,
                depth as int,
                fuel as int,
            ),
            final(self).continues(*old(self)),
            final(self).balances(*old(self)),
        decreases fuel, 15int, 0int,
    {
        proof {
            emitted_index_rule(self.frame, self@, tree@, base, index, depth as int, fuel as int);
        }
        if fuel == 0 {
            self.fail(CodegenErrorKind::Lowering(IrErrorKind::NestingLimitExceeded));
            return;
        }
        match runtime_expression_type_with_locals(&self.frame, &self.locals, tree, base, depth + 1) {
            Err(kind) => {
                self.fail(kind);
            },
            Ok(ty) => {
                match index_source(ty) {
                    IndexSource::Slice { element } => {
                        match reference_source_name(tree, base) {
                            None => {
                                self.fail(CodegenErrorKind::RuntimeExpressionUnsupported);
                            },
                            Some(source) => {
                                self.emit_slice_runtime_index(
                                    tree,
                                    base,
                                    index,
                                    element,
                                    source,
                                    depth + 1,
                                    fuel,
                                );
                            },
                        }
                    },
                    IndexSource::Referenced { element, count } => {
                        match evaluate_index(tree, index, count, self.frame.resolver) {
                            Err(kind) => {
                                self.fail(kind);
                            },
                            Ok(Some(place)) => {
                                self.emit_reference_array_constant_index(
                                    tree,
                                    base,
                                    element,
                                    place,
                                    depth + 1,
                                    fuel,
                                );
                            },
                            Ok(None) => {
                                self.emit_reference_array_runtime_index(
                                    tree,
                                    base,
                                    index,
                                    element,
                                    count,
                                    depth + 1,
                                    fuel,
                                );
                            },
                        }
                    },
                    IndexSource::Array { count, .. } => {
                        match evaluate_index(tree, index, count, self.frame.resolver) {
                            Err(kind) => {
                                self.fail(kind);
                            },
                            Ok(Some(place)) => {
                                self.emit_constant_array_index(tree, base, place, count, fuel);
                            },
                            Ok(None) => {
                                self.emit_runtime_array_index(tree, base, index, count, depth + 1, fuel);
                            },
                        }
                    },
                    _ => {
                        self.fail(CodegenErrorKind::RuntimeTypeMismatch);
                    },
                }
            },
        }
    }

    pub(crate) fn emit_slice_runtime_index(
        &mut self,
        tree: &ExpressionTree<'_, N>,
        base: ExprId,
        index: ExprId,
        element: RuntimeArrayElementType,
        source: &str,
        depth: usize,
        fuel: usize,
    )
        requires
            depth <= MAX_EXPRESSION_DEPTH + 1,
        ensures
            final(self)@ == emitted_slice_index(
                old(self).frame,
                old(self)@,
                tree@,
                base,
                index,
                element,
                source@,
                depth as int,
                fuel as int,
            ),
            final(self).continues(*old(self)),
            final(self).balances(*old(self)),
        decreases fuel, 10int, 0int,
    {
        proof {
            emitted_slice_index_rule(
                self.frame,
                self@,
                tree@,
                base,
                index,
                element,
                source@,
                depth as int,
                fuel as int,
            );
        }
        if fuel == 0 {
            self.fail(CodegenErrorKind::Lowering(IrErrorKind::NestingLimitExceeded));
            return;
        }
        self.emit_expression(tree, base, depth + 1, fuel - 1);
        self.emit([0x50u8]);
        self.raise(1);
        self.emit_slice_length(source);
        self.emit([0x50u8]);
        self.raise(1);
        self.emit_expression(tree, index, depth + 1, fuel - 1);
        self.emit([0x48u8, 0x3b, 0x04, 0x24]);
        let in_bounds: usize = self.emit_forward_branch(0x82);
        self.emit([0x0fu8, 0x0b]);
        self.patch_forward_branch(in_bounds);
        match runtime_array_element_bytes(element) {
            None => {
                self.fail(CodegenErrorKind::UnsupportedRuntimeType);
            },
            Some(bytes) => {
                if bytes == 0 {
                    self.emit([0x48u8, 0x83, 0xc4, 16, 0x31, 0xc0]);
                    self.lower(2);
                } else {
                    self.emit([0x48u8, 0x89, 0xc1, 0x48, 0x8b, 0x44, 0x24, 0x08]);
                    self.emit([0x48u8, 0x83, 0xc4, 16]);
                    self.lower(2);
                    self.emit_element_address(bytes);
                    self.emit_reference_load(element);
                }
            },
        }
    }

    pub(crate) fn emit_reference_array_runtime_index(
        &mut self,
        tree: &ExpressionTree<'_, N>,
        base: ExprId,
        index: ExprId,
        element: RuntimeArrayElementType,
        count: usize,
        depth: usize,
        fuel: usize,
    )
        requires
            depth <= MAX_EXPRESSION_DEPTH + 1,
        ensures
            final(self)@ == emitted_referenced_index(
                old(self).frame,
                old(self)@,
                tree@,
                base,
                index,
                element,
                count,
                depth as int,
                fuel as int,
            ),
            final(self).continues(*old(self)),
            final(self).balances(*old(self)),
        decreases fuel, 10int, 0int,
    {
        proof {
            emitted_referenced_index_rule(
                self.frame,
                self@,
                tree@,
                base,
                index,
                element,
                count,
                depth as int,
                fuel as int,
            );
        }
        if fuel == 0 {
            self.fail(CodegenErrorKind::Lowering(IrErrorKind::NestingLimitExceeded));
            return;
        }
        self.emit_expression(tree, base, depth + 1, fuel - 1);
        self.emit([0x50u8]);
        self.raise(1);
        self.emit_expression(tree, index, depth + 1, fuel - 1);
        self.emit([0x48u8, 0x83, 0xf8, count as u8]);
        let in_bounds: usize = self.emit_forward_branch(0x82);
        self.emit([0x0fu8, 0x0b]);
        self.patch_forward_branch(in_bounds);
        match runtime_array_element_bytes(element) {
            None => {
                self.fail(CodegenErrorKind::UnsupportedRuntimeType);
            },
            Some(bytes) => {
                if bytes == 0 {
                    self.emit([0x48u8, 0x83, 0xc4, 0x08, 0x31, 0xc0]);
                    self.lower(1);
                } else {
                    self.emit([0x48u8, 0x89, 0xc1, 0x58]);
                    self.lower(1);
                    self.emit_element_address(bytes);
                    self.emit_reference_load(element);
                }
            },
        }
    }

    pub(crate) fn emit_reference_array_constant_index(
        &mut self,
        tree: &ExpressionTree<'_, N>,
        base: ExprId,
        element: RuntimeArrayElementType,
        index: usize,
        depth: usize,
        fuel: usize,
    )
        requires
            depth <= MAX_EXPRESSION_DEPTH + 1,
        ensures
            final(self)@ == emitted_referenced_constant_index(
                old(self).frame,
                old(self)@,
                tree@,
                base,
                element,
                index,
                depth as int,
                fuel as int,
            ),
            final(self).continues(*old(self)),
            final(self).balances(*old(self)),
        decreases fuel, 10int, 0int,
    {
        proof {
            emitted_referenced_constant_index_rule(
                self.frame,
                self@,
                tree@,
                base,
                element,
                index,
                depth as int,
                fuel as int,
            );
        }
        if fuel == 0 {
            self.fail(CodegenErrorKind::Lowering(IrErrorKind::NestingLimitExceeded));
            return;
        }
        self.emit_expression(tree, base, depth + 1, fuel - 1);
        match runtime_array_element_bytes(element) {
            None => {
                self.fail(CodegenErrorKind::UnsupportedRuntimeType);
            },
            Some(bytes) => {
                match checked_product(bytes, index) {
                    None => {
                        self.fail(CodegenErrorKind::OutputTooSmall);
                    },
                    Some(displacement) => {
                        if displacement == 0 {
                        } else if displacement <= 127 {
                            self.emit([0x48u8, 0x83, 0xc0, displacement as u8]);
                        } else if displacement <= 0xffff_ffff {
                            self.emit([0x48u8, 0x05]);
                            self.emit_word(displacement);
                        } else {
                            self.fail(CodegenErrorKind::OutputTooSmall);
                        }
                        if bytes == 0 {
                            self.emit([0x31u8, 0xc0]);
                        } else {
                            self.emit_reference_load(element);
                        }
                    },
                }
            },
        }
    }

    pub(crate) fn emit_constant_array_index(
        &mut self,
        tree: &ExpressionTree<'_, N>,
        base: ExprId,
        index: usize,
        count: usize,
        fuel: usize,
    )
        ensures
            final(self)@ == emitted_array_constant_index(
                old(self).frame,
                old(self)@,
                tree@,
                base,
                index,
                count,
                fuel as int,
            ),
            final(self).continues(*old(self)),
            final(self).balances(*old(self)),
        decreases fuel, 10int, 0int,
    {
        proof {
            emitted_array_constant_index_rule(self.frame, self@, tree@, base, index, count, fuel as int);
        }
        if fuel == 0 {
            self.fail(CodegenErrorKind::Lowering(IrErrorKind::NestingLimitExceeded));
            return;
        }
        if count > MAX_ARRAY_ELEMENTS || index >= count {
            self.fail(CodegenErrorKind::RuntimeExpressionUnsupported);
        } else {
            self.emit_array_to_stack(tree, base, count, fuel - 1);
            self.emit_stack_slot(index);
            self.lower(count);
            self.emit_slots_cleanup(count);
        }
    }

    pub(crate) fn emit_runtime_array_index(
        &mut self,
        tree: &ExpressionTree<'_, N>,
        base: ExprId,
        index: ExprId,
        count: usize,
        depth: usize,
        fuel: usize,
    )
        requires
            depth <= MAX_EXPRESSION_DEPTH + 1,
        ensures
            final(self)@ == emitted_array_index(
                old(self).frame,
                old(self)@,
                tree@,
                base,
                index,
                count,
                depth as int,
                fuel as int,
            ),
            final(self).continues(*old(self)),
            final(self).balances(*old(self)),
        decreases fuel, 10int, 0int,
    {
        proof {
            emitted_array_index_rule(self.frame, self@, tree@, base, index, count, depth as int, fuel as int);
        }
        if fuel == 0 {
            self.fail(CodegenErrorKind::Lowering(IrErrorKind::NestingLimitExceeded));
            return;
        }
        if count > MAX_ARRAY_ELEMENTS {
            self.fail(CodegenErrorKind::RuntimeExpressionUnsupported);
        } else {
            self.emit_array_to_stack(tree, base, count, fuel - 1);
            self.emit_expression(tree, index, depth + 1, fuel - 1);
            self.emit([0x50u8]);
            self.raise(1);
            self.emit_chosen_slots(0, 1, count, 0);
            self.lower(translate_place(count, 1));
            self.emit_slots_cleanup(translate_place(count, 1));
        }
    }

    pub(crate) fn emit_index_address(
        &mut self,
        tree: &ExpressionTree<'_, N>,
        base: ExprId,
        index: ExprId,
        depth: usize,
        fuel: usize,
    )
        requires
            depth <= MAX_EXPRESSION_DEPTH + 1,
        ensures
            final(self)@ == emitted_index_address(
                old(self).frame,
                old(self)@,
                tree@,
                base,
                index,
                depth as int,
                fuel as int,
            ),
            final(self).continues(*old(self)),
            final(self).balances(*old(self)),
        decreases fuel, 13int, 0int,
    {
        proof {
            emitted_index_address_rule(self.frame, self@, tree@, base, index, depth as int, fuel as int);
        }
        if fuel == 0 {
            self.fail(CodegenErrorKind::Lowering(IrErrorKind::NestingLimitExceeded));
            return;
        }
        match runtime_expression_type_with_locals(&self.frame, &self.locals, tree, base, depth + 1) {
            Err(kind) => {
                self.fail(kind);
            },
            Ok(ty) => {
                match index_source(ty) {
                    IndexSource::Referenced { element, count } => {
                        self.emit_expression(tree, base, depth + 1, fuel - 1);
                        self.emit_counted_element_address(tree, index, element, count, depth, fuel);
                    },
                    IndexSource::Slice { element } => {
                        match reference_source_name(tree, base) {
                            None => {
                                self.fail(CodegenErrorKind::RuntimeExpressionUnsupported);
                            },
                            Some(source) => {
                                self.emit_expression(tree, base, depth + 1, fuel - 1);
                                self.emit_slice_element_address(tree, index, element, source, depth, fuel);
                            },
                        }
                    },
                    IndexSource::Array { element, count } => {
                        match kind_at(tree, base) {
                            Some(ExprKind::Identifier(name)) => {
                                self.emit_identifier_address(name);
                                self.emit_counted_element_address(tree, index, element, count, depth, fuel);
                            },
                            _ => {
                                self.fail(CodegenErrorKind::RuntimeTypeMismatch);
                            },
                        }
                    },
                    _ => {
                        self.fail(CodegenErrorKind::RuntimeTypeMismatch);
                    },
                }
            },
        }
    }

    pub(crate) fn emit_counted_element_address(
        &mut self,
        tree: &ExpressionTree<'_, N>,
        index: ExprId,
        element: RuntimeArrayElementType,
        count: usize,
        depth: usize,
        fuel: usize,
    )
        requires
            depth <= MAX_EXPRESSION_DEPTH + 1,
        ensures
            final(self)@ == emitted_counted_element_address(
                old(self).frame,
                old(self)@,
                tree@,
                index,
                element,
                count,
                depth as int,
                fuel as int,
            ),
            final(self).continues(*old(self)),
            final(self).balances(*old(self)),
        decreases fuel, 10int, 0int,
    {
        proof {
            emitted_counted_element_address_rule(
                self.frame,
                self@,
                tree@,
                index,
                element,
                count,
                depth as int,
                fuel as int,
            );
        }
        if fuel == 0 {
            self.fail(CodegenErrorKind::Lowering(IrErrorKind::NestingLimitExceeded));
            return;
        }
        self.emit([0x50u8]);
        self.raise(1);
        self.emit_expression(tree, index, depth + 1, fuel - 1);
        self.emit([0x48u8, 0x83, 0xf8]);
        if count <= 255 {
            self.emit([count as u8]);
        } else {
            self.fail(CodegenErrorKind::ValueOutOfRange);
        }
        self.emit_trap_branch(0x83);
        self.emit([0x48u8, 0x89, 0xc1, 0x58]);
        self.lower(1);
        match runtime_array_element_bytes(element) {
            None => {
                self.fail(CodegenErrorKind::UnsupportedRuntimeType);
            },
            Some(bytes) => {
                self.emit_element_address(bytes);
            },
        }
    }

    pub(crate) fn emit_slice_element_address(
        &mut self,
        tree: &ExpressionTree<'_, N>,
        index: ExprId,
        element: RuntimeArrayElementType,
        source: &str,
        depth: usize,
        fuel: usize,
    )
        requires
            depth <= MAX_EXPRESSION_DEPTH + 1,
        ensures
            final(self)@ == emitted_slice_element_address(
                old(self).frame,
                old(self)@,
                tree@,
                index,
                element,
                source@,
                depth as int,
                fuel as int,
            ),
            final(self).continues(*old(self)),
            final(self).balances(*old(self)),
        decreases fuel, 10int, 0int,
    {
        proof {
            emitted_slice_element_address_rule(
                self.frame,
                self@,
                tree@,
                index,
                element,
                source@,
                depth as int,
                fuel as int,
            );
        }
        if fuel == 0 {
            self.fail(CodegenErrorKind::Lowering(IrErrorKind::NestingLimitExceeded));
            return;
        }
        self.emit([0x50u8]);
        self.raise(1);
        self.emit_slice_length(source);
        self.emit([0x50u8]);
        self.raise(1);
        self.emit_expression(tree, index, depth + 1, fuel - 1);
        self.emit([0x48u8, 0x3b, 0x04, 0x24]);
        self.emit_trap_branch(0x83);
        self.emit([0x48u8, 0x89, 0xc1, 0x48, 0x8b, 0x44, 0x24, 0x08]);
        self.emit_stack_cleanup_bytes(16);
        self.lower(2);
        match runtime_array_element_bytes(element) {
            None => {
                self.fail(CodegenErrorKind::UnsupportedRuntimeType);
            },
            Some(bytes) => {
                self.emit_element_address(bytes);
            },
        }
    }

    pub(crate) fn emit_string_is_char_boundary(
        &mut self,
        tree: &ExpressionTree<'_, N>,
        base: ExprId,
        index: ExprId,
        depth: usize,
        fuel: usize,
    )
        requires
            depth <= MAX_EXPRESSION_DEPTH,
        ensures
            final(self)@ == emitted_char_boundary(
                old(self).frame,
                old(self)@,
                tree@,
                base,
                index,
                depth as int,
                fuel as int,
            ),
            final(self).continues(*old(self)),
            final(self).balances(*old(self)),
        decreases fuel, 15int, 0int,
    {
        proof {
            emitted_char_boundary_rule(self.frame, self@, tree@, base, index, depth as int, fuel as int);
        }
        if fuel == 0 {
            self.fail(CodegenErrorKind::Lowering(IrErrorKind::NestingLimitExceeded));
            return;
        }
        match reference_source_name(tree, base) {
            None => {
                self.fail(CodegenErrorKind::RuntimeExpressionUnsupported);
            },
            Some(source) => {
                self.emit_expression(tree, base, depth + 1, fuel - 1);
                self.emit([0x50u8]);
                self.raise(1);
                self.emit_slice_length(source);
                self.emit([0x50u8]);
                self.raise(1);
                self.emit_expression(tree, index, depth + 1, fuel - 1);
                self.emit_char_boundary_answer();
            },
        }
    }

    pub(crate) fn emit_array_element(
        &mut self,
        tree: &ExpressionTree<'_, N>,
        id: ExprId,
        index: usize,
        depth: usize,
        fuel: usize,
    )
        ensures
            final(self)@ == emitted_array_element(
                old(self).frame,
                old(self)@,
                tree@,
                id,
                index,
                depth as int,
                fuel as int,
            ),
            final(self).continues(*old(self)),
            final(self).balances(*old(self)),
        decreases fuel, 12int, 0int,
    {
        proof {
            emitted_array_element_rule(self.frame, self@, tree@, id, index, depth as int, fuel as int);
        }
        if fuel == 0 {
            self.fail(CodegenErrorKind::Lowering(IrErrorKind::NestingLimitExceeded));
            return;
        }
        if depth >= MAX_EXPRESSION_DEPTH {
            self.fail(CodegenErrorKind::Lowering(IrErrorKind::NestingLimitExceeded));
        } else {
            match kind_at(tree, id) {
                Some(ExprKind::DefaultValue) => {
                    self.emit([0x31u8, 0xc0]);
                },
                Some(ExprKind::Array { elements, element_count }) => {
                    match read_element_at(elements.as_slice(), index, element_count) {
                        None => {
                            self.fail(CodegenErrorKind::RuntimeExpressionUnsupported);
                        },
                        Some(element) => {
                            self.emit_expression(tree, element, depth + 1, fuel - 1);
                        },
                    }
                },
                Some(ExprKind::ArrayRepeat { element, count }) => {
                    if index >= count {
                        self.fail(CodegenErrorKind::ValueOutOfRange);
                    } else {
                        self.emit_expression(tree, element, depth + 1, fuel - 1);
                    }
                },
                Some(ExprKind::Identifier(name)) => {
                    self.emit_named_element(name, index);
                },
                Some(ExprKind::If { condition, then_branch, else_branch }) => {
                    self.emit_element_choice(tree, condition, then_branch, else_branch, index, depth, fuel);
                },
                Some(ExprKind::LoopBreakIf { condition, then_branch, else_branch }) => {
                    self.emit_element_choice(tree, condition, then_branch, else_branch, index, depth, fuel);
                },
                Some(ExprKind::InlineConst { operand }) => {
                    self.emit_array_element(tree, operand, index, depth + 1, fuel - 1);
                },
                Some(ExprKind::LoopBreak { operand }) => {
                    self.emit_array_element(tree, operand, index, depth + 1, fuel - 1);
                },
                Some(ExprKind::Return { operand }) => {
                    self.emit_array_element(tree, operand, index, depth + 1, fuel - 1);
                },
                Some(ExprKind::Sequence { first, then }) => {
                    self.emit_expression(tree, first, depth + 1, fuel - 1);
                    self.emit_array_element(tree, then, index, depth + 1, fuel - 1);
                },
                _ => {
                    self.fail(CodegenErrorKind::RuntimeExpressionUnsupported);
                },
            }
        }
    }

    pub(crate) fn emit_element_choice(
        &mut self,
        tree: &ExpressionTree<'_, N>,
        condition: ExprId,
        then_branch: ExprId,
        else_branch: ExprId,
        index: usize,
        depth: usize,
        fuel: usize,
    )
        requires
            depth <= MAX_EXPRESSION_DEPTH,
        ensures
            final(self)@ == emitted_element_choice(
                old(self).frame,
                old(self)@,
                tree@,
                condition,
                then_branch,
                else_branch,
                index,
                depth as int,
                fuel as int,
            ),
            final(self).continues(*old(self)),
            final(self).balances(*old(self)),
        decreases fuel, 11int, 0int,
    {
        proof {
            emitted_element_choice_rule(
                self.frame,
                self@,
                tree@,
                condition,
                then_branch,
                else_branch,
                index,
                depth as int,
                fuel as int,
            );
        }
        if fuel == 0 {
            self.fail(CodegenErrorKind::Lowering(IrErrorKind::NestingLimitExceeded));
            return;
        }
        self.emit_expression(tree, condition, depth + 1, fuel - 1);
        self.emit([0x48u8, 0x85, 0xc0]);
        let otherwise: usize = self.emit_forward_branch(0x84);
        self.emit_array_element(tree, then_branch, index, depth + 1, fuel - 1);
        let end: usize = self.emit_unconditional_forward_branch();
        self.patch_forward_branch(otherwise);
        self.emit_array_element(tree, else_branch, index, depth + 1, fuel - 1);
        self.patch_forward_branch(end);
    }

    pub(crate) fn emit_array_elements(
        &mut self,
        tree: &ExpressionTree<'_, N>,
        root: ExprId,
        count: usize,
        index: usize,
        fuel: usize,
    )
        ensures
            final(self)@ == emitted_array_elements(
                old(self).frame,
                old(self)@,
                tree@,
                root,
                count,
                index,
                fuel as int,
            ),
            final(self).continues(*old(self)),
            final(self).moves_stack(
                *old(self),
                if index < count {
                    count - index
                } else {
                    0
                },
            ),
        decreases fuel, 13int, count - index,
    {
        proof {
            emitted_array_elements_rule(self.frame, self@, tree@, root, count, index, fuel as int);
        }
        if fuel == 0 {
            self.fail(CodegenErrorKind::Lowering(IrErrorKind::NestingLimitExceeded));
            return;
        }
        if index < count {
            self.emit_array_element(tree, root, index, 0, fuel);
            self.emit([0x50u8]);
            self.raise(1);
            self.emit_array_elements(tree, root, count, index + 1, fuel);
        }
    }

    pub(crate) fn emit_array_to_stack(
        &mut self,
        tree: &ExpressionTree<'_, N>,
        root: ExprId,
        count: usize,
        fuel: usize,
    )
        ensures
            final(self)@ == emitted_array(old(self).frame, old(self)@, tree@, root, count, fuel as int),
            final(self).continues(*old(self)),
            final(self).moves_stack(*old(self), count as int),
        decreases fuel, 14int, 0int,
    {
        proof {
            emitted_array_rule(self.frame, self@, tree@, root, count, fuel as int);
        }
        if fuel == 0 {
            self.fail(CodegenErrorKind::Lowering(IrErrorKind::NestingLimitExceeded));
            return;
        }
        match kind_at(tree, root) {
            None => {
                self.fail(CodegenErrorKind::RuntimeExpressionUnsupported);
            },
            Some(ExprKind::ArrayRepeat { element, count: repeat }) => {
                if repeat != count {
                    self.fail(CodegenErrorKind::RuntimeTypeMismatch);
                } else {
                    self.emit_expression(tree, element, 0, fuel - 1);
                    if count != 0 {
                        self.emit([0x50u8]);
                        self.raise(1);
                        self.emit_copies(count, 1);
                    }
                }
            },
            Some(_) => {
                self.emit_array_elements(tree, root, count, 0, fuel);
                self.emit_swapped(count, count / 2, 0);
            },
        }
    }
}

} // verus!
