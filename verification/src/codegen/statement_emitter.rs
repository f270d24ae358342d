//! Making the code of statements.
use crate::codegen::error::CodegenErrorKind;
use crate::codegen::frame::{
    X86_64Abi, find_local, kind_at, translate_place,
};
use crate::codegen::runtime::{
    ArrayLayout, RuntimeArrayElementType, RuntimeExpressionType, checked_sum, element_bytes,
    is_fat_reference, is_index_type, runtime_array_abi_layout, runtime_array_element_bytes,
    runtime_local_stack_slots, runtime_type_from_array_element, runtime_types_compatible,
};
use crate::expression::{
    ConstantResolver, ExprId, ExprKind, ExpressionTree, MAX_ARRAY_ELEMENTS,
    MAX_EXPRESSION_DEPTH,
};
use crate::function::{
    Assignment, AssignmentIndex, AssignmentOperator, BodyStatement, ConditionalAssignment,
    ConditionalAssignmentAction, ConditionalLoopAction, ConditionalLoopBlock,
    ConditionalLoopControl, ConditionalLoopElseArm, ConditionalLoopTerminal,
    ConditionalReturn, ConditionalReturnElse, ExpressionStatement, FunctionBody,
    LocalBinding, LoopOperation, LoopReturn, NestedLoopBlock, NestedLoopControlTarget,
    NestedLoopPlace, NestedLoopUnconditionalControl, PlacedConditionalControl,
    PlacedConditionalReturn, PlacedUnconditionalControl, WhileLoop,
};
use crate::integer::IntegerType;
use crate::ir::IrErrorKind;
use crate::codegen::emission::place;
use crate::codegen::emitter::{
    RuntimeEmitter, local_stack_slots_from, size_of_tree,
};
use crate::codegen::encoding::{
    assignment_binary_operator, difference, has_operator, local_count,
};
use crate::codegen::typing::reference_source_name;
use crate::codegen::typer::{
    is_known_name, runtime_expression_type_with_locals,
};
use crate::codegen::selection::{
    IndexSource, RangeParts, evaluate_index, index_source, read_range_parts,
};
use crate::codegen::trees::{
    ends_loop,
    LoopPlaces, Operand, body_error, condition_tree, control_count, ends_with_control,
    is_empty_text, local_type, target_type, typed_tree, value_tree,
};
use crate::codegen::assignments::{
    ElementTarget, address_target, assignment_target, changed_width, dereference_problem,
    operator_problem, result_slot,
};
use crate::codegen::statements::{
    always_adds_code, body_adds_code, controls_loop, ended_loops_have_a_control,
    emitted_action_block, emitted_actions, emitted_array_assignment, emitted_assignment,
    emitted_assignment_branches, emitted_assignment_index, emitted_assignment_operation,
    emitted_assignment_value, emitted_body, emitted_conditional_assignment,
    emitted_conditional_block, emitted_conditional_control, emitted_conditional_controls,
    emitted_conditional_return, emitted_conditional_return_else, emitted_counted_range,
    emitted_dereference_assignment, emitted_dereference_store, emitted_element_index,
    emitted_else_arms, emitted_expression_statement, emitted_indexed_assignment,
    emitted_indexed_store, emitted_later_statements, emitted_local,
    emitted_local_assignment, emitted_local_value, emitted_loop_action,
    emitted_loop_actions, emitted_loop_block, emitted_loop_body, emitted_loop_control,
    emitted_loop_operation, emitted_loop_operations, emitted_nested_actions,
    emitted_nested_block, emitted_nested_body, emitted_nested_controls, emitted_new_local,
    emitted_operated_value, emitted_placed_returns, emitted_range_length,
    emitted_range_order, emitted_range_result, emitted_range_slice, emitted_range_start,
    emitted_referenced_assignment, emitted_referenced_store, emitted_referenced_value,
    emitted_result_transport, emitted_return, emitted_return_branches,
    emitted_scalar_assignment, emitted_slice_assignment_index, emitted_slice_replacement,
    emitted_slice_result, emitted_slice_return, emitted_slice_value, emitted_sliced_range,
    emitted_statement, emitted_statements, emitted_tail, emitted_terminal, emitted_test,
    emitted_typed_return, emitted_unconditional_controls, emitted_way_out,
    emitted_while_loop, emitted_while_loops, emitted_whole_assignment, emitted_whole_store,
};
use vstd::prelude::*;

verus! {

impl<'a, 'source, R: ConstantResolver, const P: usize, const N: usize> RuntimeEmitter<
    'a,
    'source,
    R,
    P,
    N,
> {
    pub(crate) fn emit_range_start(
        &mut self,
        tree: &ExpressionTree<'_, N>,
        start: Option<ExprId>,
        depth: usize,
        fuel: usize,
    )
        requires
            depth <= MAX_EXPRESSION_DEPTH,
        ensures
            final(self)@ == emitted_range_start(
                old(self).frame,
                old(self)@,
                tree@,
                start,
                depth as int,
                fuel as int,
            ),
            final(self).continues(*old(self)),
            final(self).moves_stack(*old(self), 1),
    {
        proof {
            reveal(emitted_range_start);
        }
        match start {
            Some(start) => {
                self.emit_expression(tree, start, depth + 1, fuel);
            },
            None => {
                self.emit([0x31u8, 0xc0]);
            },
        }
        self.emit([0x50u8]);
        self.raise(1);
    }

    pub(crate) fn emit_range_order(&mut self, inclusive: bool)
        ensures
            final(self)@ == emitted_range_order(old(self).frame, old(self)@, inclusive),
            final(self).continues(*old(self)),
            final(self).balances(*old(self)),
    {
        proof {
            reveal(emitted_range_order);
        }
        if inclusive {
            self.emit([0x48u8, 0x83, 0xc0, 0x01]);
            self.emit_trap_branch(0x82);
        }
        self.emit([0x48u8, 0x8b, 0x0c, 0x24, 0x48, 0x39, 0xc1]);
        self.emit_trap_branch(0x87);
    }

    pub(crate) fn emit_range_length(&mut self)
        ensures
            final(self)@ == emitted_range_length(old(self).frame, old(self)@),
            final(self).continues(*old(self)),
            final(self).moves_stack(*old(self), 1),
    {
        proof {
            reveal(emitted_range_length);
        }
        self.emit([0x48u8, 0x39, 0xd0]);
        self.emit_trap_branch(0x87);
        self.emit([0x48u8, 0x29, 0xc8, 0x50]);
        self.raise(1);
    }

    pub(crate) fn emit_counted_range(
        &mut self,
        tree: &ExpressionTree<'_, N>,
        parts: RangeParts,
        count: usize,
        depth: usize,
        fuel: usize,
    )
        requires
            depth <= MAX_EXPRESSION_DEPTH,
        ensures
            final(self)@ == emitted_counted_range(
                old(self).frame,
                old(self)@,
                tree@,
                parts,
                count,
                depth as int,
                fuel as int,
            ),
            final(self).continues(*old(self)),
            final(self).moves_stack(*old(self), 2),
    {
        proof {
            reveal(emitted_counted_range);
        }
        self.emit_range_start(tree, parts.start, depth, fuel);
        match parts.end {
            Some(end) => {
                self.emit_expression(tree, end, depth + 1, fuel);
            },
            None => {
                self.emit_constant(count as u64);
            },
        }
        self.emit_range_order(parts.inclusive);
        self.emit([0x48u8, 0xba]);
        self.emit_quad(count as u64);
        self.emit_range_length();
    }

    pub(crate) fn emit_sliced_range(
        &mut self,
        tree: &ExpressionTree<'_, N>,
        parts: RangeParts,
        source: &str,
        depth: usize,
        fuel: usize,
    )
        requires
            depth <= MAX_EXPRESSION_DEPTH,
        ensures
            final(self)@ == emitted_sliced_range(
                old(self).frame,
                old(self)@,
                tree@,
                parts,
                source@,
                depth as int,
                fuel as int,
            ),
            final(self).continues(*old(self)),
            final(self).moves_stack(*old(self), 2),
    {
        proof {
            reveal(emitted_sliced_range);
        }
        self.emit_range_start(tree, parts.start, depth, fuel);
        match parts.end {
            Some(end) => {
                self.emit_expression(tree, end, depth + 1, fuel);
            },
            None => {
                self.emit_slice_length(source);
            },
        }
        self.emit_range_order(parts.inclusive);
        self.emit([0x50u8]);
        self.raise(1);
        self.emit_slice_length(source);
        self.emit([0x48u8, 0x89, 0xc2, 0x58]);
        self.lower(1);
        self.emit_range_length();
    }

    pub(crate) fn emit_range_result(&mut self, element: RuntimeArrayElementType)
        ensures
            final(self)@ == emitted_range_result(old(self).frame, old(self)@, element),
            final(self).continues(*old(self)),
            final(self).moves_stack(*old(self), -2),
    {
        proof {
            reveal(emitted_range_result);
        }
        self.emit([0x48u8, 0x8b, 0x4c, 0x24, 0x08]);
        match runtime_array_element_bytes(element) {
            None => {
                self.fail(CodegenErrorKind::UnsupportedRuntimeType);
            },
            Some(bytes) => {
                if bytes == 2 {
                    self.emit([0x48u8, 0xc1, 0xe1, 0x01]);
                } else if bytes == 4 {
                    self.emit([0x48u8, 0xc1, 0xe1, 0x02]);
                } else if bytes == 8 {
                    self.emit([0x48u8, 0xc1, 0xe1, 0x03]);
                } else if bytes != 0 && bytes != 1 {
                    self.fail(CodegenErrorKind::UnsupportedRuntimeType);
                }
                self.emit([0x48u8, 0x01, 0xc8, 0x48, 0x89, 0xc2, 0x59, 0x48, 0x83, 0xc4, 0x08, 0x52, 0x51]);
                self.lower(2);
            },
        }
    }

    pub(crate) fn emit_range_slice_to_stack(
        &mut self,
        tree: &ExpressionTree<'_, N>,
        parts: RangeParts,
        depth: usize,
        fuel: usize,
    )
        requires
            depth <= MAX_EXPRESSION_DEPTH,
        ensures
            final(self)@ == emitted_range_slice(
                old(self).frame,
                old(self)@,
                tree@,
                parts,
                depth as int,
                fuel as int,
            ),
            final(self).continues(*old(self)),
            final(self).balances(*old(self)),
    {
        proof {
            reveal(emitted_range_slice);
        }
        match runtime_expression_type_with_locals(&self.frame, &self.locals, tree, parts.base, depth + 1) {
            Err(kind) => {
                self.fail(kind);
            },
            Ok(ty) => {
                match index_source(ty) {
                    IndexSource::Referenced { element, count } => {
                        self.emit_counted_range(tree, parts, count, depth, fuel);
                        self.emit_expression(tree, parts.base, depth + 1, fuel);
                        self.emit_range_result(element);
                    },
                    IndexSource::Slice { element } => {
                        match reference_source_name(tree, parts.base) {
                            None => {
                                self.fail(CodegenErrorKind::RuntimeExpressionUnsupported);
                            },
                            Some(source) => {
                                self.emit_sliced_range(tree, parts, source, depth, fuel);
                                self.emit_expression(tree, parts.base, depth + 1, fuel);
                                self.emit_range_result(element);
                            },
                        }
                    },
                    IndexSource::Text => {
                        match reference_source_name(tree, parts.base) {
                            None => {
                                self.fail(CodegenErrorKind::RuntimeExpressionUnsupported);
                            },
                            Some(source) => {
                                self.emit_sliced_range(tree, parts, source, depth, fuel);
                                self.emit_expression(tree, parts.base, depth + 1, fuel);
                                self.emit_string_range_boundary_checks(source);
                                self.emit_range_result(
                                    RuntimeArrayElementType::Integer(Some(IntegerType::U8)),
                                );
                            },
                        }
                    },
                    IndexSource::Array { element, count } => {
                        match kind_at(tree, parts.base) {
                            Some(ExprKind::Identifier(name)) => {
                                self.emit_counted_range(tree, parts, count, depth, fuel);
                                self.emit_identifier_address(name);
                                self.emit_range_result(element);
                            },
                            _ => {
                                self.fail(CodegenErrorKind::RuntimeTypeMismatch);
                            },
                        }
                    },
                    IndexSource::Other => {
                        self.fail(CodegenErrorKind::RuntimeTypeMismatch);
                    },
                }
            },
        }
    }

    pub(crate) fn emit_slice_value_to_stack(
        &mut self,
        tree: &ExpressionTree<'_, N>,
        id: ExprId,
        depth: usize,
        fuel: usize,
    )
        ensures
            final(self)@ == emitted_slice_value(
                old(self).frame,
                old(self)@,
                tree@,
                id,
                depth as int,
                fuel as int,
            ),
            final(self).continues(*old(self)),
            final(self).balances(*old(self)),
        decreases fuel,
    {
        proof {
            reveal(emitted_slice_value);
        }
        if fuel <= 0 || depth >= MAX_EXPRESSION_DEPTH {
            self.fail(CodegenErrorKind::Lowering(IrErrorKind::NestingLimitExceeded));
        } else {
            match kind_at(tree, id) {
                Some(ExprKind::If { condition, then_branch, else_branch }) => {
                    self.emit_expression(tree, condition, depth + 1, fuel - 1);
                    self.emit([0x48u8, 0x85, 0xc0]);
                    let otherwise: usize = self.emit_forward_branch(0x84);
                    self.emit_slice_value_to_stack(tree, then_branch, depth + 1, fuel - 1);
                    let end: usize = self.emit_unconditional_forward_branch();
                    self.patch_forward_branch(otherwise);
                    self.emit_slice_value_to_stack(tree, else_branch, depth + 1, fuel - 1);
                    self.patch_forward_branch(end);
                },
                _ => {
                    match read_range_parts(tree, id) {
                        Some(parts) => {
                            self.emit_range_slice_to_stack(tree, parts, depth, fuel);
                        },
                        None => {
                            match reference_source_name(tree, id) {
                                None => {
                                    self.fail(CodegenErrorKind::RuntimeExpressionUnsupported);
                                },
                                Some(source) => {
                                    self.emit_expression(tree, id, depth + 1, fuel);
                                    self.emit([0x50u8]);
                                    self.raise(1);
                                    self.emit_slice_length(source);
                                    self.lower(1);
                                    self.emit([0x50u8]);
                                },
                            }
                        },
                    }
                },
            }
        }
    }

    pub(crate) fn emit_slice_result(&mut self, stacked: bool)
        ensures
            final(self)@ == emitted_slice_result(old(self).frame, old(self)@, stacked),
            final(self).continues(*old(self)),
            final(self).balances(*old(self)),
    {
        proof {
            reveal(emitted_slice_result);
        }
        if self.frame.abi == X86_64Abi::SystemV {
            self.emit([0x48u8, 0x89, 0xc2, 0x48, 0x89, 0xc8]);
        } else {
            self.emit([0x49u8, 0x89, 0xc0]);
            match result_slot(
                stacked,
                self.temporaries,
                local_stack_slots_from(&self.locals, 0),
                self.frame.saved_parameter_slots,
            ) {
                None => {
                    self.fail(CodegenErrorKind::OutputTooSmall);
                },
                Some(slot) => {
                    self.emit_stack_slot(slot);
                    self.emit([0x48u8, 0x89, 0x08, 0x4c, 0x89, 0x40, 0x08]);
                },
            }
        }
        if stacked {
            self.emit_stack_cleanup_bytes(16);
        }
        self.emit_epilogue();
    }

    pub(crate) fn emit_slice_return(
        &mut self,
        tree: &ExpressionTree<'_, N>,
        root: ExprId,
        fuel: usize,
    )
        ensures
            final(self)@ == emitted_slice_return(old(self).frame, old(self)@, tree@, root, fuel as int),
            final(self).continues(*old(self)),
            final(self).lengthens(*old(self)),
            final(self).balances(*old(self)),
        decreases fuel,
    {
        proof {
            reveal(emitted_slice_return);
        }
        if fuel <= 0 {
            self.fail(CodegenErrorKind::Lowering(IrErrorKind::NestingLimitExceeded));
        } else {
            match kind_at(tree, root) {
                Some(ExprKind::If { condition, then_branch, else_branch }) => {
                    self.emit_expression(tree, condition, 0, fuel - 1);
                    self.emit([0x48u8, 0x85, 0xc0]);
                    let otherwise: usize = self.emit_forward_branch(0x84);
                    self.emit_slice_return(tree, then_branch, fuel - 1);
                    self.patch_forward_branch(otherwise);
                    self.emit_slice_return(tree, else_branch, fuel - 1);
                },
                _ => {
                    match read_range_parts(tree, root) {
                        Some(parts) => {
                            self.emit_range_slice_to_stack(tree, parts, 0, fuel);
                            self.emit_stack_slot(1);
                            self.emit([0x48u8, 0x89, 0xc1]);
                            self.emit_stack_slot(0);
                            self.emit_slice_result(true);
                        },
                        None => {
                            match reference_source_name(tree, root) {
                                None => {
                                    self.fail(CodegenErrorKind::RuntimeExpressionUnsupported);
                                },
                                Some(source) => {
                                    self.emit_expression(tree, root, 0, fuel);
                                    self.emit([0x48u8, 0x89, 0xc1]);
                                    self.emit_slice_length(source);
                                    self.emit_slice_result(false);
                                },
                            }
                        },
                    }
                },
            }
        }
    }

    pub(crate) fn emit_result_transport(&mut self, layout: ArrayLayout, count: usize)
        ensures
            final(self)@ == emitted_result_transport(old(self).frame, old(self)@, layout, count),
            final(self).continues(*old(self)),
            final(self).balances(*old(self)),
    {
        proof {
            reveal(emitted_result_transport);
        }
        if layout.words == 0 {
        } else if self.frame.uses_sret {
            match result_slot(
                false,
                self.temporaries,
                local_stack_slots_from(&self.locals, 0),
                self.frame.saved_parameter_slots,
            ) {
                None => {
                    self.fail(CodegenErrorKind::OutputTooSmall);
                },
                Some(slot) => {
                    self.emit_stack_slot(slot);
                    self.emit([0x48u8, 0x89, 0xc2]);
                    self.emit_result_elements(count, layout.element_bytes, 0);
                    self.emit([0x48u8, 0x89, 0xd0]);
                },
            }
        } else if layout.words == 1 {
            self.emit_pack_array_word(count, layout.element_bytes, 0);
        } else if self.frame.abi == X86_64Abi::SystemV && layout.words == 2 {
            self.emit_pack_array_word(count, layout.element_bytes, 1);
            self.emit([0x48u8, 0x89, 0xc1]);
            self.emit_pack_array_word(count, layout.element_bytes, 0);
            self.emit([0x48u8, 0x89, 0xca]);
        } else {
            self.fail(CodegenErrorKind::UnsupportedReturnType);
        }
    }

    pub(crate) fn emit_typed_return(
        &mut self,
        tree: &ExpressionTree<'_, N>,
        expected: RuntimeExpressionType,
    )
        ensures
            final(self)@ == emitted_typed_return(old(self).frame, old(self)@, tree@, expected),
            final(self).continues(*old(self)),
            final(self).lengthens(*old(self)),
            final(self).balances(*old(self)),
    {
        proof {
            reveal(emitted_typed_return);
        }
        if is_fat_reference(expected) {
            self.emit_slice_return(tree, tree.root(), size_of_tree(tree));
        } else {
            match expected {
                RuntimeExpressionType::Array { count, .. } => {
                    match runtime_array_abi_layout(expected) {
                        None => {
                            self.fail(CodegenErrorKind::UnsupportedReturnType);
                        },
                        Some(layout) => {
                            self.emit_array_to_stack(tree, tree.root(), count, size_of_tree(tree));
                            self.emit_result_transport(layout, count);
                            self.lower(count);
                            self.emit_slots_cleanup(count);
                            self.emit_epilogue();
                        },
                    }
                },
                _ => {
                    self.emit_expression(tree, tree.root(), 0, size_of_tree(tree));
                    self.emit_epilogue();
                },
            }
        }
    }

    pub(crate) fn emit_return(
        &mut self,
        statement: &LoopReturn<'source>,
        expected: RuntimeExpressionType,
    )
        ensures
            final(self)@ == emitted_return(old(self).frame, old(self)@, *statement, expected),
            final(self).continues(*old(self)),
            final(self).lengthens(*old(self)),
            final(self).balances(*old(self)),
    {
        proof {
            reveal(emitted_return);
        }
        match value_tree(&self.frame, &self.locals, statement.value, statement.value_span, expected) {
            Err(error) => {
                self.fail_with(error);
            },
            Ok(tree) => {
                self.emit_typed_return(&tree, expected);
            },
        }
    }

    pub(crate) fn emit_test(&mut self, tree: &ExpressionTree<'_, N>)
        ensures
            final(self)@ == emitted_test(old(self).frame, old(self)@, tree@),
            final(self).continues(*old(self)),
            final(self).lengthens(*old(self)),
            final(self).balances(*old(self)),
    {
        proof {
            reveal(emitted_test);
        }
        self.emit_expression(tree, tree.root(), 0, size_of_tree(tree));
        self.emit([0x48u8, 0x85, 0xc0]);
    }

    pub(crate) fn emit_conditional_return(
        &mut self,
        conditional: &ConditionalReturn<'source>,
        expected: RuntimeExpressionType,
    )
        ensures
            final(self)@ == emitted_conditional_return(old(self).frame, old(self)@, *conditional, expected),
            final(self).continues(*old(self)),
            final(self).lengthens(*old(self)),
            final(self).balances(*old(self)),
    {
        proof {
            reveal(emitted_conditional_return);
        }
        match condition_tree(&self.frame, &self.locals, conditional.condition, conditional.condition_span) {
            Err(error) => {
                self.fail_with(error);
            },
            Ok(condition) => {
                match value_tree(
                    &self.frame,
                    &self.locals,
                    conditional.value,
                    conditional.value_span,
                    expected,
                ) {
                    Err(error) => {
                        self.fail_with(error);
                    },
                    Ok(tree) => {
                        self.emit_test(&condition);
                        let skip: usize = self.emit_forward_branch(0x84);
                        self.emit_typed_return(&tree, expected);
                        self.patch_forward_branch(skip);
                    },
                }
            },
        }
    }

    pub(crate) fn emit_return_branches(
        &mut self,
        branches: &Vec<ConditionalReturn<'source>>,
        expected: RuntimeExpressionType,
        index: usize,
    )
        ensures
            final(self)@ == emitted_return_branches(
                old(self).frame,
                old(self)@,
                branches@,
                expected,
                index as int,
            ),
            final(self).continues(*old(self)),
            final(self).balances(*old(self)),
        decreases branches@.len() - index,
    {
        proof {
            reveal(emitted_return_branches);
        }
        if index < branches.len() {
            self.emit_conditional_return(&branches[index], expected);
            self.emit_return_branches(branches, expected, index + 1);
        }
    }

    pub(crate) fn emit_conditional_return_else(
        &mut self,
        conditional: &ConditionalReturnElse<'source>,
        expected: RuntimeExpressionType,
    )
        ensures
            final(self)@ == emitted_conditional_return_else(
                old(self).frame,
                old(self)@,
                *conditional,
                expected,
            ),
            final(self).continues(*old(self)),
            conditional.else_value is Some ==> final(self).lengthens(*old(self)),
            final(self).balances(*old(self)),
    {
        proof {
            reveal(emitted_conditional_return_else);
        }
        self.emit_return_branches(&conditional.branches, expected, 0);
        match conditional.else_value {
            None => {},
            Some(value) => {
                self.emit_return(&value, expected);
            },
        }
    }

    pub(crate) fn emit_local_value(
        &mut self,
        tree: &ExpressionTree<'_, N>,
        ty: RuntimeExpressionType,
    )
        ensures
            final(self)@ == emitted_local_value(old(self).frame, old(self)@, tree@, ty),
            final(self).continues(*old(self)),
            final(self).balances(*old(self)),
    {
        proof {
            reveal(emitted_local_value);
        }
        if is_fat_reference(ty) {
            self.emit_slice_value_to_stack(tree, tree.root(), 0, size_of_tree(tree));
        } else {
            match ty {
                RuntimeExpressionType::Array { element, count } => {
                    self.emit_array_to_stack(tree, tree.root(), count, size_of_tree(tree));
                    self.pack_temporary_array_for_local(element, count);
                    self.lower(runtime_local_stack_slots(ty));
                },
                _ => {
                    self.emit_expression(tree, tree.root(), 0, size_of_tree(tree));
                    self.emit([0x50u8]);
                },
            }
        }
    }

    pub(crate) fn emit_new_local(&mut self, local: &LocalBinding<'source>, operand: Operand)
        ensures
            final(self)@ == emitted_new_local(old(self).frame, old(self)@, *local, operand),
            final(self).continues(*old(self)),
            final(self).grows(*old(self)),
    {
        proof {
            reveal(emitted_new_local);
        }
        match typed_tree(&self.frame, &self.locals, local.initializer, local.initializer_span) {
            Err(error) => {
                self.fail_with(error);
            },
            Ok((tree, initializer)) => {
                match local_type(&self.frame, local, initializer, operand) {
                    Err(error) => {
                        self.fail_with(error);
                    },
                    Ok(ty) => {
                        if runtime_types_compatible(initializer, ty) {
                            let previous = self.width;
                            self.set_width(changed_width(ty, previous));
                            self.emit_local_value(&tree, ty);
                            self.set_width(previous);
                            self.add_local(local, ty);
                        } else {
                            self.fail_with(
                                body_error(
                                    &self.frame,
                                    CodegenErrorKind::RuntimeTypeMismatch,
                                    local.initializer_span,
                                ),
                            );
                        }
                    },
                }
            },
        }
    }

    pub(crate) fn emit_local(
        &mut self,
        local: &LocalBinding<'source>,
        operand: Operand,
        allow_shadowing: bool,
    )
        ensures
            final(self)@ == emitted_local(old(self).frame, old(self)@, *local, operand, allow_shadowing),
            final(self).continues(*old(self)),
            final(self).grows(*old(self)),
    {
        proof {
            reveal(emitted_local);
        }
        if local_count(&self.locals) >= P {
            self.fail_with(body_error(&self.frame, CodegenErrorKind::TooManyRuntimeLocals, local.name_span));
        } else if !allow_shadowing && is_known_name(&self.frame, &self.locals, local.name) {
            self.fail_with(body_error(&self.frame, CodegenErrorKind::DuplicateLocal, local.name_span));
        } else {
            self.emit_new_local(local, operand);
        }
    }

    pub(crate) fn emit_expression_statement(&mut self, statement: &ExpressionStatement<'source>)
        ensures
            final(self)@ == emitted_expression_statement(old(self).frame, old(self)@, *statement),
            final(self).continues(*old(self)),
            final(self).balances(*old(self)),
    {
        proof {
            reveal(emitted_expression_statement);
        }
        if !is_empty_text(statement.expression) {
            match typed_tree(&self.frame, &self.locals, statement.expression, statement.span) {
                Err(error) => {
                    self.fail_with(error);
                },
                Ok((tree, _)) => {
                    self.emit_expression(&tree, tree.root(), 0, size_of_tree(&tree));
                },
            }
        }
    }

    pub(crate) fn emit_assignment_operation(&mut self, assignment: &Assignment<'source>)
        ensures
            final(self)@ == emitted_assignment_operation(old(self).frame, old(self)@, *assignment),
            final(self).continues(*old(self)),
            final(self).balances(*old(self)),
    {
        proof {
            reveal(emitted_assignment_operation);
        }
        match assignment_binary_operator(assignment.operator) {
            None => {
                self.fail_with(
                    body_error(
                        &self.frame,
                        CodegenErrorKind::UnsupportedRuntimeOperator,
                        assignment.name_span,
                    ),
                );
            },
            Some(operator) => {
                self.emit_binary(operator);
            },
        }
    }

    pub(crate) fn emit_indexed_assignment_index(
        &mut self,
        index: AssignmentIndex<'source>,
        count: usize,
    )
        ensures
            final(self)@ == emitted_assignment_index(old(self).frame, old(self)@, index, count),
            final(self).continues(*old(self)),
            final(self).balances(*old(self)),
    {
        proof {
            reveal(emitted_assignment_index);
        }
        match typed_tree(&self.frame, &self.locals, index.index, index.span) {
            Err(error) => {
                self.fail_with(error);
            },
            Ok((tree, ty)) => {
                if !is_index_type(ty) {
                    self.fail_with(
                        body_error(&self.frame, CodegenErrorKind::RuntimeTypeMismatch, index.span),
                    );
                } else {
                    match evaluate_index(&tree, tree.root(), count, self.frame.resolver) {
                        Err(kind) => {
                            self.fail_with(body_error(&self.frame, kind, index.span));
                        },
                        Ok(_) => {
                            self.emit_expression(&tree, tree.root(), 0, size_of_tree(&tree));
                        },
                    }
                }
            },
        }
    }

    pub(crate) fn emit_slice_assignment_index(
        &mut self,
        index: AssignmentIndex<'source>,
        name: &str,
    )
        ensures
            final(self)@ == emitted_slice_assignment_index(old(self).frame, old(self)@, index, name@),
            final(self).continues(*old(self)),
            final(self).balances(*old(self)),
    {
        proof {
            reveal(emitted_slice_assignment_index);
        }
        match typed_tree(&self.frame, &self.locals, index.index, index.span) {
            Err(error) => {
                self.fail_with(error);
            },
            Ok((tree, ty)) => {
                if !is_index_type(ty) {
                    self.fail_with(
                        body_error(&self.frame, CodegenErrorKind::RuntimeTypeMismatch, index.span),
                    );
                } else {
                    self.emit_expression(&tree, tree.root(), 0, size_of_tree(&tree));
                    self.emit([0x50u8]);
                    self.raise(1);
                    self.emit_slice_length(name);
                    self.emit([0x48u8, 0x8b, 0x0c, 0x24, 0x48, 0x39, 0xc1]);
                    let in_bounds: usize = self.emit_forward_branch(0x82);
                    self.emit([0x0fu8, 0x0b]);
                    self.patch_forward_branch(in_bounds);
                    self.emit([0x58u8]);
                    self.lower(1);
                }
            },
        }
    }

    pub(crate) fn emit_element_index(
        &mut self,
        assignment: &Assignment<'source>,
        count: Option<usize>,
    )
        ensures
            final(self)@ == emitted_element_index(old(self).frame, old(self)@, *assignment, count),
            final(self).continues(*old(self)),
            final(self).balances(*old(self)),
    {
        proof {
            reveal(emitted_element_index);
        }
        match assignment.index {
            None => {
                self.fail_with(
                    body_error(
                        &self.frame,
                        CodegenErrorKind::RuntimeExpressionUnsupported,
                        assignment.name_span,
                    ),
                );
            },
            Some(index) => {
                match count {
                    Some(count) => {
                        self.emit_indexed_assignment_index(index, count);
                    },
                    None => {
                        self.emit_slice_assignment_index(index, assignment.name);
                    },
                }
            },
        }
    }

    pub(crate) fn emit_indexed_assignment_value(
        &mut self,
        assignment: &Assignment<'source>,
        expected: RuntimeExpressionType,
    )
        ensures
            final(self)@ == emitted_assignment_value(old(self).frame, old(self)@, *assignment, expected),
            final(self).continues(*old(self)),
            final(self).balances(*old(self)),
    {
        proof {
            reveal(emitted_assignment_value);
        }
        match value_tree(&self.frame, &self.locals, assignment.value, assignment.value_span, expected) {
            Err(error) => {
                self.fail_with(error);
            },
            Ok(tree) => {
                self.emit_expression(&tree, tree.root(), 0, size_of_tree(&tree));
            },
        }
    }

    pub(crate) fn emit_referenced_value(&mut self, element: RuntimeArrayElementType, bytes: usize)
        ensures
            final(self)@ == emitted_referenced_value(old(self).frame, old(self)@, element, bytes),
            final(self).continues(*old(self)),
            final(self).moves_stack(*old(self), 1),
    {
        proof {
            reveal(emitted_referenced_value);
        }
        self.emit_reference_array_address_from_stack_index(bytes);
        if bytes == 0 {
            self.emit([0x31u8, 0xc0]);
        } else {
            self.emit_reference_load(element);
        }
        self.emit([0x50u8]);
        self.raise(1);
    }

    pub(crate) fn emit_operated_value(
        &mut self,
        assignment: &Assignment<'source>,
        expected: RuntimeExpressionType,
    )
        ensures
            final(self)@ == emitted_operated_value(old(self).frame, old(self)@, *assignment, expected),
            final(self).continues(*old(self)),
            final(self).moves_stack(
                *old(self),
                if assignment.operator == AssignmentOperator::Assign {
                    0int
                } else {
                    -1
                },
            ),
    {
        proof {
            reveal(emitted_operated_value);
        }
        self.emit_indexed_assignment_value(assignment, expected);
        if assignment.operator != AssignmentOperator::Assign {
            self.lower(1);
            self.emit([0x59u8]);
            self.emit_assignment_operation(assignment);
        }
    }

    pub(crate) fn emit_referenced_store(
        &mut self,
        assignment: &Assignment<'source>,
        element: RuntimeArrayElementType,
        count: Option<usize>,
    )
        ensures
            final(self)@ == emitted_referenced_store(
                old(self).frame,
                old(self)@,
                *assignment,
                element,
                count,
            ),
            final(self).continues(*old(self)),
            final(self).balances(*old(self)),
    {
        proof {
            reveal(emitted_referenced_store);
        }
        self.emit_element_index(assignment, count);
        self.emit([0x50u8]);
        self.raise(1);
        self.emit_identifier(assignment.name);
        self.emit([0x50u8]);
        self.raise(1);
        match runtime_array_element_bytes(element) {
            None => {
                self.fail(CodegenErrorKind::UnsupportedRuntimeType);
            },
            Some(bytes) => {
                if assignment.operator != AssignmentOperator::Assign {
                    self.emit_referenced_value(element, bytes);
                }
                self.emit_operated_value(assignment, runtime_type_from_array_element(element));
                if bytes != 0 {
                    self.emit([0x48u8, 0x8b, 0x14, 0x24]);
                    self.emit_reference_array_store_address_from_stack_index(bytes);
                    self.emit_reference_store(element);
                }
                self.emit([0x48u8, 0x83, 0xc4, 16]);
                self.lower(2);
            },
        }
    }

    pub(crate) fn emit_reference_array_assignment(
        &mut self,
        assignment: &Assignment<'source>,
        element: RuntimeArrayElementType,
        count: Option<usize>,
        mutable: bool,
    )
        ensures
            final(self)@ == emitted_referenced_assignment(
                old(self).frame,
                old(self)@,
                *assignment,
                element,
                count,
                mutable,
            ),
            final(self).continues(*old(self)),
            final(self).balances(*old(self)),
    {
        proof {
            reveal(emitted_referenced_assignment);
        }
        if !mutable {
            self.fail_with(
                body_error(&self.frame, CodegenErrorKind::ImmutableAssignment, assignment.name_span),
            );
        } else {
            match operator_problem(runtime_type_from_array_element(element), assignment.operator) {
                Some(kind) => {
                    self.fail_with(body_error(&self.frame, kind, assignment.name_span));
                },
                None => {
                    let previous = self.width;
                    self.set_width(changed_width(runtime_type_from_array_element(element), previous));
                    self.emit_referenced_store(assignment, element, count);
                    self.set_width(previous);
                },
            }
        }
    }

    pub(crate) fn emit_dereference_store(
        &mut self,
        assignment: &Assignment<'source>,
        pointee: RuntimeArrayElementType,
    )
        ensures
            final(self)@ == emitted_dereference_store(old(self).frame, old(self)@, *assignment, pointee),
            final(self).continues(*old(self)),
            final(self).balances(*old(self)),
    {
        proof {
            reveal(emitted_dereference_store);
        }
        self.emit_identifier(assignment.name);
        self.emit([0x50u8]);
        self.raise(1);
        if assignment.operator != AssignmentOperator::Assign {
            self.emit_reference_load(pointee);
            self.emit([0x50u8]);
            self.raise(1);
        }
        self.emit_operated_value(assignment, runtime_type_from_array_element(pointee));
        self.emit([0x48u8, 0x8b, 0x14, 0x24]);
        self.emit_reference_store(pointee);
        self.emit([0x48u8, 0x83, 0xc4, 0x08]);
        self.lower(1);
    }

    pub(crate) fn emit_dereference_assignment(&mut self, assignment: &Assignment<'source>)
        ensures
            final(self)@ == emitted_dereference_assignment(old(self).frame, old(self)@, *assignment),
            final(self).continues(*old(self)),
            final(self).balances(*old(self)),
    {
        proof {
            reveal(emitted_dereference_assignment);
        }
        match assignment.index {
            Some(_) => {
                self.fail_with(
                    body_error(
                        &self.frame,
                        CodegenErrorKind::RuntimeExpressionUnsupported,
                        assignment.name_span,
                    ),
                );
            },
            None => {
                match target_type(&self.frame, &self.locals, assignment.name) {
                    None => {
                        self.fail_with(
                            body_error(
                                &self.frame,
                                CodegenErrorKind::UnknownRuntimeName,
                                assignment.name_span,
                            ),
                        );
                    },
                    Some(ty) => {
                        match address_target(ty) {
                            None => {
                                self.fail_with(
                                    body_error(
                                        &self.frame,
                                        CodegenErrorKind::RuntimeTypeMismatch,
                                        assignment.name_span,
                                    ),
                                );
                            },
                            Some((pointee, mutable)) => {
                                if !mutable {
                                    self.fail_with(
                                        body_error(
                                            &self.frame,
                                            CodegenErrorKind::ImmutableAssignment,
                                            assignment.name_span,
                                        ),
                                    );
                                } else {
                                    match dereference_problem(
                                        runtime_type_from_array_element(pointee),
                                        assignment.operator,
                                    ) {
                                        Some(kind) => {
                                            self.fail_with(
                                                body_error(&self.frame, kind, assignment.name_span),
                                            );
                                        },
                                        None => {
                                            let previous = self.width;
                                            self.set_width(
                                                changed_width(
                                                    runtime_type_from_array_element(pointee),
                                                    previous,
                                                ),
                                            );
                                            self.emit_dereference_store(assignment, pointee);
                                            self.set_width(previous);
                                        },
                                    }
                                }
                            },
                        }
                    },
                }
            },
        }
    }

    pub(crate) fn emit_indexed_store(
        &mut self,
        assignment: &Assignment<'source>,
        index: AssignmentIndex<'source>,
        local: usize,
        element: RuntimeArrayElementType,
        count: usize,
    )
        ensures
            final(self)@ == emitted_indexed_store(
                old(self).frame,
                old(self)@,
                *assignment,
                index,
                local,
                element,
                count,
            ),
            final(self).continues(*old(self)),
            final(self).balances(*old(self)),
    {
        proof {
            reveal(emitted_indexed_store);
        }
        self.emit_indexed_assignment_index(index, count);
        self.emit([0x50u8]);
        self.raise(1);
        if assignment.operator != AssignmentOperator::Assign {
            self.emit_array_local_element(local, element, count, 0);
            self.emit([0x50u8]);
            self.raise(1);
        }
        self.emit_operated_value(assignment, runtime_type_from_array_element(element));
        self.emit([0x50u8]);
        self.raise(1);
        self.emit_array_local_element_store(local, element, count, 1);
        self.lower(2);
        self.emit([0x48u8, 0x83, 0xc4, 16]);
    }

    pub(crate) fn emit_indexed_assignment(
        &mut self,
        assignment: &Assignment<'source>,
        index: AssignmentIndex<'source>,
        local: usize,
        ty: RuntimeExpressionType,
    )
        ensures
            final(self)@ == emitted_indexed_assignment(
                old(self).frame,
                old(self)@,
                *assignment,
                index,
                local,
                ty,
            ),
            final(self).continues(*old(self)),
            final(self).balances(*old(self)),
    {
        proof {
            reveal(emitted_indexed_assignment);
        }
        match ty {
            RuntimeExpressionType::Array { element, count } => {
                match operator_problem(runtime_type_from_array_element(element), assignment.operator) {
                    Some(kind) => {
                        self.fail_with(body_error(&self.frame, kind, assignment.name_span));
                    },
                    None => {
                        let previous = self.width;
                        self.set_width(changed_width(runtime_type_from_array_element(element), previous));
                        self.emit_indexed_store(assignment, index, local, element, count);
                        self.set_width(previous);
                    },
                }
            },
            _ => {
                self.fail_with(
                    body_error(&self.frame, CodegenErrorKind::RuntimeTypeMismatch, assignment.name_span),
                );
            },
        }
    }

    pub(crate) fn emit_slice_replacement(&mut self, tree: &ExpressionTree<'_, N>, local: usize)
        ensures
            final(self)@ == emitted_slice_replacement(old(self).frame, old(self)@, tree@, local),
            final(self).continues(*old(self)),
            final(self).balances(*old(self)),
    {
        proof {
            reveal(emitted_slice_replacement);
        }
        self.emit_slice_value_to_stack(tree, tree.root(), 0, size_of_tree(tree));
        match local_stack_slots_from(&self.locals, translate_place(local, 1)) {
            None => {
                self.fail(CodegenErrorKind::OutputTooSmall);
            },
            Some(later) => {
                match checked_sum(later, 3) {
                    None => {
                        self.fail(CodegenErrorKind::OutputTooSmall);
                    },
                    Some(address) => {
                        self.emit_stack_slot(0);
                        self.emit_store_stack_slot(difference(address, 1));
                        self.emit_stack_slot(1);
                        self.emit_store_stack_slot(address);
                        self.emit_stack_cleanup_bytes(16);
                    },
                }
            },
        }
    }

    pub(crate) fn emit_array_assignment(
        &mut self,
        tree: &ExpressionTree<'_, N>,
        local: usize,
        element: RuntimeArrayElementType,
        count: usize,
    )
        ensures
            final(self)@ == emitted_array_assignment(
                old(self).frame,
                old(self)@,
                tree@,
                local,
                element,
                count,
            ),
            final(self).continues(*old(self)),
            final(self).balances(*old(self)),
    {
        proof {
            reveal(emitted_array_assignment);
        }
        if count > MAX_ARRAY_ELEMENTS {
            self.fail(CodegenErrorKind::RuntimeExpressionUnsupported);
        } else {
            self.emit_array_to_stack(tree, tree.root(), count, size_of_tree(tree));
            self.pack_temporary_array_for_local(element, count);
            match local_stack_slots_from(&self.locals, translate_place(local, 1)) {
                None => {
                    self.fail(CodegenErrorKind::OutputTooSmall);
                },
                Some(later) => {
                    let slots: usize = runtime_local_stack_slots(
                        RuntimeExpressionType::Array { element, count },
                    );
                    self.emit_moved_slots(slots, later, 0);
                    self.lower(slots);
                    self.emit_slots_cleanup(slots);
                },
            }
        }
    }

    pub(crate) fn emit_scalar_assignment(
        &mut self,
        tree: &ExpressionTree<'_, N>,
        assignment: &Assignment<'source>,
        local: usize,
    )
        ensures
            final(self)@ == emitted_scalar_assignment(old(self).frame, old(self)@, tree@, *assignment, local),
            final(self).continues(*old(self)),
            final(self).balances(*old(self)),
    {
        proof {
            reveal(emitted_scalar_assignment);
        }
        if assignment.operator == AssignmentOperator::Assign {
            self.emit_expression(tree, tree.root(), 0, size_of_tree(tree));
        } else {
            self.emit_identifier(assignment.name);
            self.emit([0x50u8]);
            self.raise(1);
            self.emit_expression(tree, tree.root(), 0, size_of_tree(tree));
            self.lower(1);
            self.emit([0x59u8]);
            self.emit_assignment_operation(assignment);
        }
        match local_stack_slots_from(&self.locals, translate_place(local, 1)) {
            None => {
                self.fail(CodegenErrorKind::OutputTooSmall);
            },
            Some(slots) => {
                self.emit_store_stack_slot(slots);
            },
        }
    }

    pub(crate) fn emit_whole_store(
        &mut self,
        tree: &ExpressionTree<'_, N>,
        assignment: &Assignment<'source>,
        local: usize,
        ty: RuntimeExpressionType,
    )
        ensures
            final(self)@ == emitted_whole_store(old(self).frame, old(self)@, tree@, *assignment, local, ty),
            final(self).continues(*old(self)),
            final(self).balances(*old(self)),
    {
        proof {
            reveal(emitted_whole_store);
        }
        match ty {
            RuntimeExpressionType::Array { element, count } => {
                if assignment.operator != AssignmentOperator::Assign {
                    self.fail_with(
                        body_error(
                            &self.frame,
                            CodegenErrorKind::UnsupportedRuntimeOperator,
                            assignment.name_span,
                        ),
                    );
                } else {
                    self.emit_array_assignment(tree, local, element, count);
                }
            },
            other => {
                if is_fat_reference(other) && assignment.operator != AssignmentOperator::Assign {
                    self.fail_with(
                        body_error(
                            &self.frame,
                            CodegenErrorKind::UnsupportedRuntimeOperator,
                            assignment.name_span,
                        ),
                    );
                } else if is_fat_reference(other) {
                    self.emit_slice_replacement(tree, local);
                } else {
                    self.emit_scalar_assignment(tree, assignment, local);
                }
            },
        }
    }

    pub(crate) fn emit_whole_assignment(
        &mut self,
        assignment: &Assignment<'source>,
        local: usize,
        ty: RuntimeExpressionType,
    )
        ensures
            final(self)@ == emitted_whole_assignment(old(self).frame, old(self)@, *assignment, local, ty),
            final(self).continues(*old(self)),
            final(self).balances(*old(self)),
    {
        proof {
            reveal(emitted_whole_assignment);
        }
        if ty == RuntimeExpressionType::Bool && !has_operator(assignment.operator) {
            self.fail_with(
                body_error(&self.frame, CodegenErrorKind::RuntimeTypeMismatch, assignment.name_span),
            );
        } else {
            match value_tree(&self.frame, &self.locals, assignment.value, assignment.value_span, ty) {
                Err(error) => {
                    self.fail_with(error);
                },
                Ok(tree) => {
                    let previous = self.width;
                    self.set_width(changed_width(ty, previous));
                    self.emit_whole_store(&tree, assignment, local, ty);
                    self.set_width(previous);
                },
            }
        }
    }

    pub(crate) fn emit_local_assignment(&mut self, assignment: &Assignment<'source>)
        ensures
            final(self)@ == emitted_local_assignment(old(self).frame, old(self)@, *assignment),
            final(self).continues(*old(self)),
            final(self).balances(*old(self)),
    {
        proof {
            reveal(emitted_local_assignment);
        }
        match find_local(&self.locals, assignment.name) {
            None => {
                self.fail_with(
                    body_error(&self.frame, CodegenErrorKind::UnknownRuntimeName, assignment.name_span),
                );
            },
            Some(local) => {
                if !self.locals[local].mutable {
                    self.fail_with(
                        body_error(&self.frame, CodegenErrorKind::ImmutableAssignment, assignment.name_span),
                    );
                } else {
                    match assignment.index {
                        Some(index) => {
                            self.emit_indexed_assignment(assignment, index, local, self.locals[local].ty);
                        },
                        None => {
                            self.emit_whole_assignment(assignment, local, self.locals[local].ty);
                        },
                    }
                }
            },
        }
    }

    pub(crate) fn emit_assignment(&mut self, assignment: &Assignment<'source>)
        ensures
            final(self)@ == emitted_assignment(old(self).frame, old(self)@, *assignment),
            final(self).continues(*old(self)),
            final(self).balances(*old(self)),
    {
        proof {
            reveal(emitted_assignment);
        }
        if assignment.dereference {
            self.emit_dereference_assignment(assignment);
        } else {
            match assignment.index {
                None => {
                    self.emit_local_assignment(assignment);
                },
                Some(_) => {
                    match assignment_target(target_type(&self.frame, &self.locals, assignment.name)) {
                        ElementTarget::Referenced { element, count, mutable } => {
                            self.emit_reference_array_assignment(assignment, element, count, mutable);
                        },
                        ElementTarget::Other => {
                            self.emit_local_assignment(assignment);
                        },
                    }
                },
            }
        }
    }

    pub(crate) fn emit_actions(
        &mut self,
        actions: &Vec<ConditionalAssignmentAction<'source>>,
        expected: RuntimeExpressionType,
        operand: Operand,
        index: usize,
    )
        ensures
            final(self)@ == emitted_actions(
                old(self).frame,
                old(self)@,
                actions@,
                expected,
                operand,
                index as int,
            ),
            final(self).continues(*old(self)),
            final(self).grows(*old(self)),
        decreases actions@.len() - index,
    {
        proof {
            reveal(emitted_actions);
        }
        if index < actions.len() {
            match &actions[index] {
                ConditionalAssignmentAction::Local(local) => {
                    self.emit_local(local, operand, true);
                },
                ConditionalAssignmentAction::Assignment(assignment) => {
                    self.emit_assignment(assignment);
                },
                ConditionalAssignmentAction::Expression(statement) => {
                    self.emit_expression_statement(statement);
                },
                ConditionalAssignmentAction::Return(statement) => {
                    self.emit_return(statement, expected);
                },
            }
            self.emit_actions(actions, expected, operand, index + 1);
        }
    }

    pub(crate) fn emit_action_block(
        &mut self,
        actions: &Vec<ConditionalAssignmentAction<'source>>,
        expected: RuntimeExpressionType,
        operand: Operand,
    )
        ensures
            final(self)@ == emitted_action_block(old(self).frame, old(self)@, actions@, expected, operand),
            final(self).continues(*old(self)),
            final(self).balances(*old(self)),
    {
        proof {
            reveal(emitted_action_block);
        }
        let checkpoint: usize = local_count(&self.locals);
        self.emit_actions(actions, expected, operand, 0);
        self.emit_scoped_local_cleanup(checkpoint);
        proof {
            if self@.failure is None {
                assert(self@.locals =~= old(self)@.locals);
            }
        }
    }

    pub(crate) fn emit_assignment_branches(
        &mut self,
        conditional: &ConditionalAssignment<'source>,
        expected: RuntimeExpressionType,
        operand: Operand,
        index: usize,
    )
        ensures
            final(self)@ == emitted_assignment_branches(
                old(self).frame,
                old(self)@,
                *conditional,
                expected,
                operand,
                index as int,
            ),
            final(self).continues(*old(self)),
            final(self).balances(*old(self)),
        decreases conditional.branches@.len() - index,
    {
        proof {
            reveal(emitted_assignment_branches);
        }
        if index < conditional.branches.len() {
            match condition_tree(
                &self.frame,
                &self.locals,
                conditional.branches[index].condition,
                conditional.branches[index].condition_span,
            ) {
                Err(error) => {
                    self.fail_with(error);
                },
                Ok(condition) => {
                    self.emit_test(&condition);
                    let otherwise: usize = self.emit_forward_branch(0x84);
                    self.emit_action_block(&conditional.branches[index].actions, expected, operand);
                    let end: usize = self.emit_unconditional_forward_branch();
                    self.patch_forward_branch(otherwise);
                    self.emit_assignment_branches(conditional, expected, operand, index + 1);
                    self.patch_forward_branch(end);
                },
            }
        } else {
            self.emit_action_block(&conditional.else_actions, expected, operand);
        }
    }

    pub(crate) fn emit_conditional_assignment(
        &mut self,
        conditional: &ConditionalAssignment<'source>,
        expected: RuntimeExpressionType,
        operand: Operand,
    )
        ensures
            final(self)@ == emitted_conditional_assignment(
                old(self).frame,
                old(self)@,
                *conditional,
                expected,
                operand,
            ),
            final(self).continues(*old(self)),
            final(self).balances(*old(self)),
    {
        proof {
            reveal(emitted_conditional_assignment);
        }
        self.emit_assignment_branches(conditional, expected, operand, 0);
    }

    pub(crate) fn emit_loop_action(
        &mut self,
        action: &ConditionalLoopAction<'source>,
        operand: Operand,
    )
        ensures
            final(self)@ == emitted_loop_action(old(self).frame, old(self)@, *action, operand),
            final(self).continues(*old(self)),
            final(self).grows(*old(self)),
    {
        proof {
            reveal(emitted_loop_action);
        }
        match action {
            ConditionalLoopAction::Local(local) => {
                self.emit_local(local, operand, true);
            },
            ConditionalLoopAction::Assignment(assignment) => {
                self.emit_assignment(assignment);
            },
            ConditionalLoopAction::Expression(statement) => {
                self.emit_expression_statement(statement);
            },
        }
    }

    pub(crate) fn emit_loop_actions(
        &mut self,
        actions: &Vec<ConditionalLoopAction<'source>>,
        operand: Operand,
        index: usize,
    )
        ensures
            final(self)@ == emitted_loop_actions(
                old(self).frame,
                old(self)@,
                actions@,
                operand,
                index as int,
            ),
            final(self).continues(*old(self)),
            final(self).grows(*old(self)),
        decreases actions@.len() - index,
    {
        proof {
            reveal(emitted_loop_actions);
        }
        if index < actions.len() {
            self.emit_loop_action(&actions[index], operand);
            self.emit_loop_actions(actions, operand, index + 1);
        }
    }

    pub(crate) fn emit_terminal(
        &mut self,
        terminal: Option<ConditionalLoopTerminal<'source>>,
        expected: RuntimeExpressionType,
        places: LoopPlaces,
        checkpoint: usize,
    )
        ensures
            final(self)@ == emitted_terminal(
                old(self).frame,
                old(self)@,
                terminal,
                expected,
                places,
                checkpoint,
            ),
            final(self).continues(*old(self)),
            final(self).drops_locals(*old(self), checkpoint as int),
    {
        proof {
            reveal(emitted_terminal);
        }
        match terminal {
            Some(ConditionalLoopTerminal::Break) => {
                self.emit_stack_cleanup_to(places.checkpoint);
                self.leave_loop();
            },
            Some(ConditionalLoopTerminal::Continue) => {
                self.emit_stack_cleanup_to(places.checkpoint);
                self.emit_backward_branch(places.start);
            },
            Some(ConditionalLoopTerminal::Return(statement)) => {
                self.emit_return(&statement, expected);
            },
            None => {
                self.emit_stack_cleanup_to(checkpoint);
            },
        }
        self.truncate_scoped_locals(checkpoint);
    }

    pub(crate) fn emit_loop_block(
        &mut self,
        actions: &Vec<ConditionalLoopAction<'source>>,
        terminal: Option<ConditionalLoopTerminal<'source>>,
        expected: RuntimeExpressionType,
        operand: Operand,
        places: LoopPlaces,
    )
        ensures
            final(self)@ == emitted_loop_block(
                old(self).frame,
                old(self)@,
                actions@,
                terminal,
                expected,
                operand,
                places,
            ),
            final(self).continues(*old(self)),
            final(self).balances(*old(self)),
    {
        proof {
            reveal(emitted_loop_block);
        }
        let checkpoint: usize = local_count(&self.locals);
        self.emit_loop_actions(actions, operand, 0);
        self.emit_terminal(terminal, expected, places, checkpoint);
        proof {
            if self@.failure is None {
                assert(self@.locals =~= old(self)@.locals);
            }
        }
    }

    pub(crate) fn emit_else_arms(
        &mut self,
        arms: &Vec<ConditionalLoopElseArm<'source>>,
        expected: RuntimeExpressionType,
        operand: Operand,
        places: LoopPlaces,
        index: usize,
    )
        ensures
            final(self)@ == emitted_else_arms(
                old(self).frame,
                old(self)@,
                arms@,
                expected,
                operand,
                places,
                index as int,
            ),
            final(self).continues(*old(self)),
            final(self).balances(*old(self)),
        decreases arms@.len() - index,
    {
        proof {
            reveal(emitted_else_arms);
        }
        if index < arms.len() {
            match arms[index].condition {
                Some(control) => {
                    match condition_tree(
                        &self.frame,
                        &self.locals,
                        control.condition,
                        control.condition_span,
                    ) {
                        Err(error) => {
                            self.fail_with(error);
                        },
                        Ok(condition) => {
                            self.emit_test(&condition);
                            let otherwise: usize = self.emit_forward_branch(0x84);
                            self.emit_loop_block(
                                &arms[index].actions,
                                arms[index].terminal,
                                expected,
                                operand,
                                places,
                            );
                            let end: usize = self.emit_unconditional_forward_branch();
                            self.patch_forward_branch(otherwise);
                            self.emit_else_arms(arms, expected, operand, places, index + 1);
                            self.patch_forward_branch(end);
                        },
                    }
                },
                None => {
                    self.emit_loop_block(
                        &arms[index].actions,
                        arms[index].terminal,
                        expected,
                        operand,
                        places,
                    );
                    let end: usize = self.emit_unconditional_forward_branch();
                    self.patch_forward_branch(end);
                },
            }
        }
    }

    pub(crate) fn emit_conditional_block(
        &mut self,
        block: &ConditionalLoopBlock<'source>,
        expected: RuntimeExpressionType,
        operand: Operand,
        places: LoopPlaces,
    )
        ensures
            final(self)@ == emitted_conditional_block(
                old(self).frame,
                old(self)@,
                *block,
                expected,
                operand,
                places,
            ),
            final(self).continues(*old(self)),
            final(self).balances(*old(self)),
    {
        proof {
            reveal(emitted_conditional_block);
        }
        match condition_tree(&self.frame, &self.locals, block.condition, block.condition_span) {
            Err(error) => {
                self.fail_with(error);
            },
            Ok(condition) => {
                self.emit_test(&condition);
                let otherwise: usize = self.emit_forward_branch(0x84);
                self.emit_loop_block(&block.actions, block.terminal, expected, operand, places);
                if block.else_arms.len() == 0 {
                    self.patch_forward_branch(otherwise);
                } else {
                    let end: usize = self.emit_unconditional_forward_branch();
                    self.patch_forward_branch(otherwise);
                    self.emit_else_arms(&block.else_arms, expected, operand, places, 0);
                    self.patch_forward_branch(end);
                }
            },
        }
    }

    pub(crate) fn emit_way_out(
        &mut self,
        leaves: bool,
        target: NestedLoopControlTarget,
        places: LoopPlaces,
    )
        ensures
            final(self)@ == emitted_way_out(old(self).frame, old(self)@, leaves, target, places),
            final(self).continues(*old(self)),
            final(self).lengthens(*old(self)),
            final(self).balances(*old(self)),
    {
        proof {
            reveal(emitted_way_out);
        }
        if target == NestedLoopControlTarget::Outer {
            self.emit_stack_cleanup_to(places.checkpoint);
            if leaves {
                self.leave_loop();
            } else {
                self.emit_backward_branch(places.start);
            }
        } else {
            self.emit_stack_cleanup_to(places.inner_checkpoint);
            if leaves {
                self.leave_inner_loop();
            } else {
                self.emit_backward_branch(places.inner_start);
            }
        }
    }

    pub(crate) fn emit_unconditional_controls(
        &mut self,
        controls: &Vec<PlacedUnconditionalControl<'source>>,
        place: NestedLoopPlace,
        expected: RuntimeExpressionType,
        places: LoopPlaces,
        index: usize,
    )
        ensures
            final(self)@ == emitted_unconditional_controls(
                old(self).frame,
                old(self)@,
                controls@,
                place,
                expected,
                places,
                index as int,
            ),
            final(self).continues(*old(self)),
            final(self).balances(*old(self)),
        decreases controls@.len() - index,
    {
        proof {
            reveal(emitted_unconditional_controls);
        }
        if index < controls.len() {
            if controls[index].place == place {
                match &controls[index].control {
                    NestedLoopUnconditionalControl::Break(target) => {
                        self.emit_way_out(true, *target, places);
                    },
                    NestedLoopUnconditionalControl::Continue(target) => {
                        self.emit_way_out(false, *target, places);
                    },
                    NestedLoopUnconditionalControl::Return(statement) => {
                        self.emit_return(statement, expected);
                    },
                }
            }
            self.emit_unconditional_controls(controls, place, expected, places, index + 1);
        }
    }

    pub(crate) fn emit_conditional_control(
        &mut self,
        control: ConditionalLoopControl<'source>,
        leaves: bool,
        target: NestedLoopControlTarget,
        places: LoopPlaces,
    )
        ensures
            final(self)@ == emitted_conditional_control(
                old(self).frame,
                old(self)@,
                control,
                leaves,
                target,
                places,
            ),
            final(self).continues(*old(self)),
            final(self).balances(*old(self)),
    {
        proof {
            reveal(emitted_conditional_control);
        }
        match condition_tree(&self.frame, &self.locals, control.condition, control.condition_span) {
            Err(error) => {
                self.fail_with(error);
            },
            Ok(condition) => {
                self.emit_test(&condition);
                let skip: usize = self.emit_forward_branch(0x84);
                self.emit_way_out(leaves, target, places);
                self.patch_forward_branch(skip);
            },
        }
    }

    pub(crate) fn emit_conditional_controls(
        &mut self,
        controls: &Vec<PlacedConditionalControl<'source>>,
        place: NestedLoopPlace,
        leaves: bool,
        places: LoopPlaces,
        index: usize,
    )
        ensures
            final(self)@ == emitted_conditional_controls(
                old(self).frame,
                old(self)@,
                controls@,
                place,
                leaves,
                places,
                index as int,
            ),
            final(self).continues(*old(self)),
            final(self).balances(*old(self)),
        decreases controls@.len() - index,
    {
        proof {
            reveal(emitted_conditional_controls);
        }
        if index < controls.len() {
            if controls[index].place == place {
                self.emit_conditional_control(
                    controls[index].control,
                    leaves,
                    controls[index].target,
                    places,
                );
            }
            self.emit_conditional_controls(controls, place, leaves, places, index + 1);
        }
    }

    pub(crate) fn emit_placed_returns(
        &mut self,
        placed: &Vec<PlacedConditionalReturn<'source>>,
        place: NestedLoopPlace,
        expected: RuntimeExpressionType,
        index: usize,
    )
        ensures
            final(self)@ == emitted_placed_returns(
                old(self).frame,
                old(self)@,
                placed@,
                place,
                expected,
                index as int,
            ),
            final(self).continues(*old(self)),
            final(self).balances(*old(self)),
        decreases placed@.len() - index,
    {
        proof {
            reveal(emitted_placed_returns);
        }
        if index < placed.len() {
            if placed[index].place == place {
                self.emit_conditional_return(&placed[index].conditional, expected);
            }
            self.emit_placed_returns(placed, place, expected, index + 1);
        }
    }

    pub(crate) fn emit_nested_controls(
        &mut self,
        block: &NestedLoopBlock<'source>,
        action_index: usize,
        count: usize,
        order: usize,
        expected: RuntimeExpressionType,
        places: LoopPlaces,
    )
        ensures
            final(self)@ == emitted_nested_controls(
                old(self).frame,
                old(self)@,
                *block,
                action_index,
                count,
                order,
                expected,
                places,
            ),
            final(self).continues(*old(self)),
            final(self).balances(*old(self)),
        decreases count - order,
    {
        proof {
            reveal(emitted_nested_controls);
        }
        if order < count {
            let place = NestedLoopPlace { action_index, control_order: order };
            self.emit_unconditional_controls(&block.unconditional_controls, place, expected, places, 0);
            self.emit_conditional_controls(&block.conditional_breaks, place, true, places, 0);
            self.emit_placed_returns(&block.conditional_returns, place, expected, 0);
            self.emit_conditional_controls(&block.conditional_continues, place, false, places, 0);
            self.emit_nested_controls(block, action_index, count, order + 1, expected, places);
        }
    }

    pub(crate) fn emit_nested_actions(
        &mut self,
        block: &NestedLoopBlock<'source>,
        count: usize,
        index: usize,
        expected: RuntimeExpressionType,
        operand: Operand,
        places: LoopPlaces,
    )
        ensures
            final(self)@ == emitted_nested_actions(
                old(self).frame,
                old(self)@,
                *block,
                count,
                index as int,
                expected,
                operand,
                places,
            ),
            final(self).continues(*old(self)),
            final(self).grows(*old(self)),
        decreases block.actions@.len() - index,
    {
        proof {
            reveal(emitted_nested_actions);
        }
        self.emit_nested_controls(block, index, count, 0, expected, places);
        if index < block.actions.len() {
            self.emit_loop_action(&block.actions[index], operand);
            self.emit_nested_actions(block, count, index + 1, expected, operand, places);
        }
    }

    pub(crate) fn emit_nested_body(
        &mut self,
        block: &NestedLoopBlock<'source>,
        expected: RuntimeExpressionType,
        operand: Operand,
        places: LoopPlaces,
    )
        ensures
            final(self)@ == emitted_nested_body(
                old(self).frame,
                old(self)@,
                *block,
                expected,
                operand,
                places,
            ),
            final(self).continues(*old(self)),
            places.inner_checkpoint == old(self)@.locals.len() ==> final(self).balances(*old(self)),
    {
        proof {
            reveal(emitted_nested_body);
        }
        match control_count(block) {
            None => {
                self.fail(CodegenErrorKind::OutputTooSmall);
            },
            Some(count) => {
                self.emit_nested_actions(block, count, 0, expected, operand, places);
                self.emit_stack_cleanup_to(places.inner_checkpoint);
                self.truncate_scoped_locals(places.inner_checkpoint);
                if block.unconditional_controls.len() == 0 {
                    self.emit_backward_branch(places.inner_start);
                }
                self.end_inner_loop();
                proof {
                    if self@.failure is None && places.inner_checkpoint == old(self)@.locals.len() {
                        assert(self@.locals =~= old(self)@.locals);
                    }
                }
            },
        }
    }

    pub(crate) fn emit_nested_block(
        &mut self,
        block: &NestedLoopBlock<'source>,
        expected: RuntimeExpressionType,
        operand: Operand,
        outer: LoopPlaces,
    )
        ensures
            final(self)@ == emitted_nested_block(
                old(self).frame,
                old(self)@,
                *block,
                expected,
                operand,
                outer,
            ),
            final(self).continues(*old(self)),
            final(self).balances(*old(self)),
    {
        proof {
            reveal(emitted_nested_block);
        }
        let inner_start: usize = self.place();
        let places = LoopPlaces { start: outer.start, checkpoint: outer.checkpoint, inner_start, inner_checkpoint: local_count(&self.locals) };
        self.enter_inner_loop();
        match block.entry_condition {
            Some(control) => {
                match condition_tree(&self.frame, &self.locals, control.condition, control.condition_span) {
                    Err(error) => {
                        self.fail_with(error);
                    },
                    Ok(condition) => {
                        self.emit_test(&condition);
                        let end: usize = self.emit_forward_branch(0x84);
                        self.emit_nested_body(block, expected, operand, places);
                        self.patch_forward_branch(end);
                    },
                }
            },
            None => {
                self.emit_nested_body(block, expected, operand, places);
            },
        }
    }

    pub(crate) fn emit_loop_control(
        &mut self,
        control: &ConditionalLoopControl<'source>,
        leaves: bool,
        places: LoopPlaces,
    )
        ensures
            final(self)@ == emitted_loop_control(old(self).frame, old(self)@, *control, leaves, places),
            final(self).continues(*old(self)),
            final(self).balances(*old(self)),
    {
        proof {
            reveal(emitted_loop_control);
        }
        self.emit_conditional_control(*control, leaves, NestedLoopControlTarget::Outer, places);
    }

    pub(crate) fn emit_loop_operation(
        &mut self,
        operation: &LoopOperation<'source>,
        expected: RuntimeExpressionType,
        operand: Operand,
        places: LoopPlaces,
    )
        ensures
            final(self)@ == emitted_loop_operation(
                old(self).frame,
                old(self)@,
                *operation,
                expected,
                operand,
                places,
            ),
            final(self).continues(*old(self)),
            controls_loop(*operation) ==> final(self).lengthens(*old(self)),
            final(self).grows(*old(self)),
    {
        proof {
            reveal(emitted_loop_operation);
        }
        match operation {
            LoopOperation::Local(local) => {
                self.emit_local(local, operand, true);
            },
            LoopOperation::Assignment(assignment) => {
                self.emit_assignment(assignment);
            },
            LoopOperation::Expression(statement) => {
                self.emit_expression_statement(statement);
            },
            LoopOperation::NestedUnitLoop => {},
            LoopOperation::NestedBlock(block) => {
                self.emit_nested_block(block, expected, operand, places);
            },
            LoopOperation::ConditionalBlock(block) => {
                self.emit_conditional_block(block, expected, operand, places);
            },
            LoopOperation::ConditionalBreak(control) => {
                self.emit_loop_control(control, true, places);
            },
            LoopOperation::ConditionalContinue(control) => {
                self.emit_loop_control(control, false, places);
            },
            LoopOperation::ConditionalReturn(conditional) => {
                self.emit_conditional_return(conditional, expected);
            },
            LoopOperation::Break => {
                self.emit_way_out(true, NestedLoopControlTarget::Outer, places);
            },
            LoopOperation::Continue => {
                self.emit_way_out(false, NestedLoopControlTarget::Outer, places);
            },
            LoopOperation::Return(statement) => {
                self.emit_return(statement, expected);
            },
        }
    }

    pub(crate) fn emit_loop_operations(
        &mut self,
        operations: &Vec<LoopOperation<'source>>,
        expected: RuntimeExpressionType,
        operand: Operand,
        places: LoopPlaces,
        index: usize,
    )
        ensures
            final(self)@ == emitted_loop_operations(
                old(self).frame,
                old(self)@,
                operations@,
                expected,
                operand,
                places,
                index as int,
            ),
            final(self).continues(*old(self)),
            (exists|i: int|
                index <= i < operations@.len() && controls_loop(#[trigger] operations@[i]))
                ==> final(self).lengthens(*old(self)),
            final(self).grows(*old(self)),
        decreases operations@.len() - index,
    {
        proof {
            reveal(emitted_loop_operations);
        }
        if index < operations.len() {
            self.emit_loop_operation(&operations[index], expected, operand, places);
            match &operations[index] {
                LoopOperation::Return(_) => {},
                _ => {
                    self.emit_loop_operations(operations, expected, operand, places, index + 1);
                },
            }
        }
    }

    pub(crate) fn emit_loop_body(
        &mut self,
        operations: &Vec<LoopOperation<'source>>,
        expected: RuntimeExpressionType,
        operand: Operand,
        start: usize,
    )
        ensures
            final(self)@ == emitted_loop_body(
                old(self).frame,
                old(self)@,
                operations@,
                expected,
                operand,
                start,
            ),
            final(self).continues(*old(self)),
            final(self).lengthens(*old(self)),
            final(self).balances(*old(self)),
    {
        proof {
            reveal(emitted_loop_body);
            if ends_loop(operations@, 0) {
                ended_loops_have_a_control(operations@, 0);
            }
        }
        let places = LoopPlaces { start, checkpoint: local_count(&self.locals), inner_start: start, inner_checkpoint: local_count(&self.locals) };
        self.emit_loop_operations(operations, expected, operand, places, 0);
        if !ends_with_control(operations, 0) {
            self.emit_stack_cleanup_to(places.checkpoint);
            self.emit_backward_branch(start);
        }
        self.truncate_scoped_locals(places.checkpoint);
        self.end_loop();
        proof {
            if self@.failure is None {
                assert(self@.locals =~= old(self)@.locals);
            }
        }
    }

    pub(crate) fn emit_while_loop(
        &mut self,
        statement: &WhileLoop<'source>,
        expected: RuntimeExpressionType,
        operand: Operand,
    )
        ensures
            final(self)@ == emitted_while_loop(old(self).frame, old(self)@, *statement, expected, operand),
            final(self).continues(*old(self)),
            final(self).lengthens(*old(self)),
            final(self).balances(*old(self)),
    {
        proof {
            reveal(emitted_while_loop);
        }
        match statement.condition {
            Some(control) => {
                match condition_tree(&self.frame, &self.locals, control.condition, control.condition_span) {
                    Err(error) => {
                        self.fail_with(error);
                    },
                    Ok(condition) => {
                        let start: usize = self.place();
                        self.enter_loop();
                        self.emit_test(&condition);
                        self.leave_loop_on_zero();
                        self.emit_loop_body(&statement.operations, expected, operand, start);
                    },
                }
            },
            None => {
                let start: usize = self.place();
                self.enter_loop();
                self.emit_loop_body(&statement.operations, expected, operand, start);
            },
        }
    }

    pub(crate) fn emit_while_loops(
        &mut self,
        loops: &Vec<WhileLoop<'source>>,
        expected: RuntimeExpressionType,
        operand: Operand,
        index: usize,
    )
        ensures
            final(self)@ == emitted_while_loops(
                old(self).frame,
                old(self)@,
                loops@,
                expected,
                operand,
                index as int,
            ),
            final(self).continues(*old(self)),
            index < loops@.len() ==> final(self).lengthens(*old(self)),
            final(self).balances(*old(self)),
        decreases loops@.len() - index,
    {
        proof {
            reveal(emitted_while_loops);
        }
        if index < loops.len() {
            self.emit_while_loop(&loops[index], expected, operand);
            self.emit_while_loops(loops, expected, operand, index + 1);
        }
    }

    pub(crate) fn emit_statement(
        &mut self,
        statement: &BodyStatement<'source>,
        expected: RuntimeExpressionType,
        operand: Operand,
    )
        ensures
            final(self)@ == emitted_statement(old(self).frame, old(self)@, *statement, expected, operand),
            final(self).continues(*old(self)),
            always_adds_code(*statement) ==> final(self).lengthens(*old(self)),
            final(self).grows(*old(self)),
    {
        proof {
            reveal(emitted_statement);
        }
        match statement {
            BodyStatement::Loop => {},
            BodyStatement::Local(local) => {
                self.emit_local(local, operand, false);
            },
            BodyStatement::Assignment(assignment) => {
                self.emit_assignment(assignment);
            },
            BodyStatement::ConditionalReturn(conditional) => {
                self.emit_conditional_return(conditional, expected);
            },
            BodyStatement::ConditionalReturnElse(conditional) => {
                self.emit_conditional_return_else(conditional, expected);
            },
            BodyStatement::ConditionalAssignment(conditional) => {
                self.emit_conditional_assignment(conditional, expected, operand);
            },
            BodyStatement::Expression(statement) => {
                self.emit_expression_statement(statement);
            },
            BodyStatement::Return(statement) => {
                self.emit_return(statement, expected);
            },
        }
    }

    pub(crate) fn emit_later_statements(
        &mut self,
        statements: &Vec<BodyStatement<'source>>,
        expected: RuntimeExpressionType,
        operand: Operand,
        index: usize,
    )
        ensures
            final(self)@ == emitted_later_statements(
                old(self).frame,
                old(self)@,
                statements@,
                expected,
                operand,
                index as int,
            ),
            final(self).continues(*old(self)),
            (exists|i: int|
                index <= i < statements@.len() && always_adds_code(#[trigger] statements@[i]))
                ==> final(self).lengthens(*old(self)),
            final(self).grows(*old(self)),
        decreases statements@.len() - index,
    {
        proof {
            reveal(emitted_later_statements);
        }
        if index < statements.len() {
            self.emit_statement(&statements[index], expected, operand);
            self.emit_later_statements(statements, expected, operand, index + 1);
        }
    }

    pub(crate) fn emit_statements(
        &mut self,
        body: &FunctionBody<'source>,
        expected: RuntimeExpressionType,
        operand: Operand,
        index: usize,
    )
        ensures
            final(self)@ == emitted_statements(
                old(self).frame,
                old(self)@,
                *body,
                expected,
                operand,
                index as int,
            ),
            final(self).continues(*old(self)),
            body.while_loops@.len() > 0 || (exists|i: int|
                index <= i < body.statements@.len() && always_adds_code(
                    #[trigger] body.statements@[i],
                )) ==> final(self).lengthens(*old(self)),
            final(self).grows(*old(self)),
        decreases body.statements@.len() - index,
    {
        proof {
            reveal(emitted_statements);
        }
        if index < body.statements.len() {
            match &body.statements[index] {
                BodyStatement::Loop => {
                    self.emit_while_loops(&body.while_loops, expected, operand, 0);
                    self.emit_later_statements(&body.statements, expected, operand, index);
                },
                statement => {
                    self.emit_statement(statement, expected, operand);
                    self.emit_statements(body, expected, operand, index + 1);
                },
            }
        } else {
            self.emit_while_loops(&body.while_loops, expected, operand, 0);
        }
    }

    pub(crate) fn emit_tail(
        &mut self,
        body: &FunctionBody<'source>,
        expected: RuntimeExpressionType,
    )
        ensures
            final(self)@ == emitted_tail(old(self).frame, old(self)@, *body, expected),
            final(self).continues(*old(self)),
            !body.tail_diverges ==> final(self).lengthens(*old(self)),
            final(self).balances(*old(self)),
    {
        proof {
            reveal(emitted_tail);
        }
        if !body.tail_diverges {
            match value_tree(&self.frame, &self.locals, body.tail, body.tail_span, expected) {
                Err(error) => {
                    self.fail_with(error);
                },
                Ok(tree) => {
                    self.emit_typed_return(&tree, expected);
                },
            }
        }
    }

    pub(crate) fn emit_body(
        &mut self,
        body: &FunctionBody<'source>,
        expected: RuntimeExpressionType,
        operand: Operand,
    )
        ensures
            final(self)@ == emitted_body(old(self).frame, old(self)@, *body, expected, operand),
            final(self).continues(*old(self)),
            body_adds_code(*body) ==> final(self).lengthens(*old(self)),
            final(self).grows(*old(self)),
    {
        proof {
            reveal(emitted_body);
        }
        self.emit_prologue();
        self.emit_statements(body, expected, operand, 0);
        self.emit_tail(body, expected);
        self.finish();
    }
}

} // verus!
