//! Finding the types of expressions at run time.
use crate::codegen::error::CodegenErrorKind;
use crate::codegen::frame::{
    Frame, RuntimeLocal, find_local, find_parameter, find_range_problem, kind_at,
    local_models,
};
use crate::codegen::runtime::{
    RuntimeArrayElementType, RuntimeExpressionType, RuntimeWidth,
};
use crate::expression::{
    ConstantResolver, ExprId, ExprKind, ExpressionTree, MAX_EXPRESSION_DEPTH, room,
};
use crate::integer::{
    IntegerType, UnaryOperator,
};
use crate::ir::IrErrorKind;
use crate::codegen::typing_rules::{
    Typing, ascription_type, binary_type, cast_type, char_boundary_type, choice_type,
    counted_elements, dereference_type, element_target, endpoint_fit, endpoint_problem,
    first_problem, index_expression_type, named_endpoint_problem, negation_type,
    negative_fits, next_element, ranged_target, reborrowed_target, reference_pointer_type,
    reference_to, repeat_type, scrutinee_width, sequence_type, slice_query_type,
    string_bytes_type, target_of_type,
};
use crate::codegen::typing::{
    access_of_local, evaluate_call, find_bounds_problem, known_name, named_expression,
    problem_of_address, problem_of_bound, problem_of_call, problem_of_const,
    problem_of_const_rule, problem_of_elements, problem_of_elements_rule, problem_of_end,
    problem_of_end_rule, problem_of_name, problem_of_optional, problem_of_optional_rule,
    problem_of_pattern, problem_of_ranges, problem_of_ranges_rule, read_written_type,
    suffix_type, typed, typed_address, typed_address_rule, typed_call, typed_elements,
    typed_elements_rule, typed_name, typed_node, typed_node_rule, typed_operation,
    typed_rule,
};
use vstd::prelude::*;

verus! {

pub fn identifier_type<R: ConstantResolver, const P: usize, const N: usize>(
    frame: &Frame<R, P, N>,
    locals: &Vec<RuntimeLocal>,
    name: &str,
) -> (result: RuntimeExpressionType)
    ensures
        result == typed_name(*frame, local_models(locals@), name@),
{
    proof {
        reveal(typed_name);
    }
    match find_local(locals, name) {
        Some(index) => locals[index].ty,
        None => match find_parameter(&frame.function.parameters, name) {
            Some(index) => read_written_type(frame.function.parameters[index].ty.text),
            None => if frame.resolver.resolves_bool(name) {
                RuntimeExpressionType::Bool
            } else {
                RuntimeExpressionType::Integer(frame.resolver.resolve_type(name))
            },
        },
    }
}

pub fn call_type<R: ConstantResolver, const P: usize, const N: usize>(
    frame: &Frame<R, P, N>,
    callee: &str,
    argument_count: usize,
) -> (result: Typing)
    ensures
        result == typed_call(*frame, callee@, argument_count),
{
    proof {
        reveal(typed_call);
    }
    if frame.resolver.call_resolves_bool(callee, argument_count) {
        Ok(RuntimeExpressionType::Bool)
    } else {
        match frame.resolver.resolve_call_type(callee, argument_count) {
            Some(ty) => Ok(RuntimeExpressionType::Integer(Some(ty))),
            None => Err(CodegenErrorKind::RuntimeExpressionUnsupported),
        }
    }
}

pub fn name_problem<R: ConstantResolver, const P: usize, const N: usize>(
    frame: &Frame<R, P, N>,
    locals: &Vec<RuntimeLocal>,
    name: &str,
) -> (result: Option<CodegenErrorKind>)
    ensures
        result == problem_of_name(*frame, local_models(locals@), name@),
{
    proof {
        reveal(problem_of_name);
    }
    match find_local(locals, name) {
        Some(_) => Some(CodegenErrorKind::RuntimeExpressionUnsupported),
        None => match find_parameter(&frame.function.parameters, name) {
            Some(_) => Some(CodegenErrorKind::RuntimeExpressionUnsupported),
            None => if frame.resolver.resolves_bool(name) {
                None
            } else {
                match frame.resolver.resolve_type(name) {
                    Some(_) => None,
                    None => Some(CodegenErrorKind::RuntimeExpressionUnsupported),
                }
            },
        },
    }
}

pub fn call_problem<R: ConstantResolver, const P: usize, const N: usize>(
    frame: &Frame<R, P, N>,
    tree: &ExpressionTree<'_, N>,
    callee: &str,
    arguments: &[Option<ExprId>],
    argument_count: usize,
) -> (result: Option<CodegenErrorKind>)
    ensures
        result == problem_of_call(*frame, tree@, callee@, arguments@, argument_count),
{
    proof {
        reveal(problem_of_call);
    }
    match evaluate_call(tree, callee, arguments, argument_count, frame.resolver) {
        Err(_) => Some(CodegenErrorKind::RuntimeExpressionUnsupported),
        Ok(_) => match call_type(frame, callee, argument_count) {
            Ok(_) => None,
            Err(_) => Some(CodegenErrorKind::RuntimeExpressionUnsupported),
        },
    }
}

pub fn optional_const_problem<R: ConstantResolver, const P: usize, const N: usize>(
    frame: &Frame<R, P, N>,
    locals: &Vec<RuntimeLocal>,
    tree: &ExpressionTree<'_, N>,
    id: Option<ExprId>,
    depth: usize,
) -> (result: Option<CodegenErrorKind>)
    ensures
        result == problem_of_optional(*frame, local_models(locals@), tree@, id, depth as int),
    decreases room(depth as int), 3int, 0int,
{
    proof {
        problem_of_optional_rule(*frame, local_models(locals@), tree@, id, depth as int);
    }
    match id {
        Some(id) => inline_const_problem(frame, locals, tree, id, depth),
        None => None,
    }
}

pub fn element_const_problem<R: ConstantResolver, const P: usize, const N: usize>(
    frame: &Frame<R, P, N>,
    locals: &Vec<RuntimeLocal>,
    tree: &ExpressionTree<'_, N>,
    elements: &[Option<ExprId>],
    index: usize,
    count: usize,
    depth: usize,
) -> (result: Option<CodegenErrorKind>)
    ensures
        result == problem_of_elements(
            *frame,
            local_models(locals@),
            tree@,
            elements@,
            index,
            count,
            depth as int,
        ),
    decreases room(depth as int), 3int, elements@.len() - index,
{
    proof {
        problem_of_elements_rule(*frame, local_models(locals@), tree@, elements@, index, count, depth as int);
    }
    if index >= count || index >= elements.len() {
        None
    } else {
        first_problem(
            optional_const_problem(frame, locals, tree, elements[index], depth),
            element_const_problem(frame, locals, tree, elements, index + 1, count, depth),
        )
    }
}

pub fn inline_const_problem<R: ConstantResolver, const P: usize, const N: usize>(
    frame: &Frame<R, P, N>,
    locals: &Vec<RuntimeLocal>,
    tree: &ExpressionTree<'_, N>,
    id: ExprId,
    depth: usize,
) -> (result: Option<CodegenErrorKind>)
    ensures
        result == problem_of_const(*frame, local_models(locals@), tree@, id, depth as int),
    decreases room(depth as int), 2int, 0int,
{
    proof {
        problem_of_const_rule(*frame, local_models(locals@), tree@, id, depth as int);
    }
    if depth >= MAX_EXPRESSION_DEPTH {
        Some(CodegenErrorKind::Lowering(IrErrorKind::NestingLimitExceeded))
    } else {
        match kind_at(tree, id) {
            None => Some(CodegenErrorKind::RuntimeExpressionUnsupported),
            Some(kind) => match kind {
                ExprKind::Identifier(name) => name_problem(frame, locals, name),
                ExprKind::Call { callee, arguments, argument_count } => call_problem(
                    frame,
                    tree,
                    callee,
                    arguments.as_slice(),
                    argument_count,
                ),
                ExprKind::Array { elements, element_count } => element_const_problem(
                    frame,
                    locals,
                    tree,
                    elements.as_slice(),
                    0,
                    element_count,
                    depth + 1,
                ),
                ExprKind::ArrayRepeat { element, .. } => inline_const_problem(
                    frame,
                    locals,
                    tree,
                    element,
                    depth + 1,
                ),
                ExprKind::Index { base, index } => first_problem(
                    inline_const_problem(frame, locals, tree, base, depth + 1),
                    inline_const_problem(frame, locals, tree, index, depth + 1),
                ),
                ExprKind::RangeIndex { base, start, end, .. } => first_problem(
                    inline_const_problem(frame, locals, tree, base, depth + 1),
                    first_problem(
                        optional_const_problem(frame, locals, tree, start, depth + 1),
                        optional_const_problem(frame, locals, tree, end, depth + 1),
                    ),
                ),
                ExprKind::SliceLen { base } => inline_const_problem(
                    frame,
                    locals,
                    tree,
                    base,
                    depth + 1,
                ),
                ExprKind::SliceIsEmpty { base } => inline_const_problem(
                    frame,
                    locals,
                    tree,
                    base,
                    depth + 1,
                ),
                ExprKind::StrAsBytes { base } => inline_const_problem(
                    frame,
                    locals,
                    tree,
                    base,
                    depth + 1,
                ),
                ExprKind::StrIsCharBoundary { base, index } => first_problem(
                    inline_const_problem(frame, locals, tree, base, depth + 1),
                    inline_const_problem(frame, locals, tree, index, depth + 1),
                ),
                ExprKind::ReferenceAsPointer { base, .. } => inline_const_problem(
                    frame,
                    locals,
                    tree,
                    base,
                    depth + 1,
                ),
                ExprKind::Cast { operand, .. } => inline_const_problem(
                    frame,
                    locals,
                    tree,
                    operand,
                    depth + 1,
                ),
                ExprKind::Ascribe { operand, .. } => inline_const_problem(
                    frame,
                    locals,
                    tree,
                    operand,
                    depth + 1,
                ),
                ExprKind::Unary { operand, .. } => inline_const_problem(
                    frame,
                    locals,
                    tree,
                    operand,
                    depth + 1,
                ),
                ExprKind::Return { operand } => inline_const_problem(
                    frame,
                    locals,
                    tree,
                    operand,
                    depth + 1,
                ),
                ExprKind::LoopBreak { operand } => inline_const_problem(
                    frame,
                    locals,
                    tree,
                    operand,
                    depth + 1,
                ),
                ExprKind::InlineConst { operand } => inline_const_problem(
                    frame,
                    locals,
                    tree,
                    operand,
                    depth + 1,
                ),
                ExprKind::Binary { left, right, .. } => first_problem(
                    inline_const_problem(frame, locals, tree, left, depth + 1),
                    inline_const_problem(frame, locals, tree, right, depth + 1),
                ),
                ExprKind::Sequence { first, then } => first_problem(
                    inline_const_problem(frame, locals, tree, first, depth + 1),
                    inline_const_problem(frame, locals, tree, then, depth + 1),
                ),
                ExprKind::If { condition, then_branch, else_branch } => first_problem(
                    inline_const_problem(frame, locals, tree, condition, depth + 1),
                    first_problem(
                        inline_const_problem(frame, locals, tree, then_branch, depth + 1),
                        inline_const_problem(frame, locals, tree, else_branch, depth + 1),
                    ),
                ),
                ExprKind::LoopBreakIf { condition, then_branch, else_branch } => first_problem(
                    inline_const_problem(frame, locals, tree, condition, depth + 1),
                    first_problem(
                        inline_const_problem(frame, locals, tree, then_branch, depth + 1),
                        inline_const_problem(frame, locals, tree, else_branch, depth + 1),
                    ),
                ),
                ExprKind::Unit | ExprKind::DefaultValue | ExprKind::Integer(_) | ExprKind::Bool(_)
                | ExprKind::Char(_) => None,
            },
        }
    }
}

pub fn bound_problem<R: ConstantResolver, const P: usize, const N: usize>(
    frame: &Frame<R, P, N>,
    tree: &ExpressionTree<'_, N>,
    id: Option<ExprId>,
    width: RuntimeWidth,
) -> (result: Option<CodegenErrorKind>)
    ensures
        result == problem_of_bound(*frame, tree@, id, width),
{
    proof {
        reveal(problem_of_bound);
    }
    match id {
        None => None,
        Some(id) => match kind_at(tree, id) {
            None => Some(CodegenErrorKind::RuntimeExpressionUnsupported),
            Some(ExprKind::Integer(literal)) => endpoint_fit(
                literal.value <= width.maximum as u128,
            ),
            Some(ExprKind::Unary { operator: UnaryOperator::Negate, operand }) => match kind_at(
                tree,
                operand,
            ) {
                Some(ExprKind::Integer(literal)) => endpoint_fit(
                    negative_fits(literal.value, width),
                ),
                _ => None,
            },
            Some(ExprKind::Identifier(name)) => named_endpoint_problem(
                frame.resolver.resolve_type(name),
                width,
            ),
            Some(ExprKind::Char(value)) => endpoint_fit(value as u64 <= width.maximum),
            Some(ExprKind::Bool(_)) => Some(CodegenErrorKind::InvalidRangeType),
            Some(_) => None,
        },
    }
}

pub fn pattern_problem<R: ConstantResolver, const P: usize, const N: usize>(
    frame: &Frame<R, P, N>,
    tree: &ExpressionTree<'_, N>,
    scrutinee: Typing,
    start: Option<ExprId>,
    end: Option<ExprId>,
) -> (result: Option<CodegenErrorKind>)
    ensures
        result == problem_of_pattern(*frame, tree@, scrutinee, start, end),
{
    proof {
        reveal(problem_of_pattern);
    }
    match scrutinee_width(scrutinee) {
        Err(kind) => Some(kind),
        Ok(None) => None,
        Ok(Some(width)) => first_problem(
            bound_problem(frame, tree, start, width),
            bound_problem(frame, tree, end, width),
        ),
    }
}

pub fn local_access<R: ConstantResolver, const P: usize, const N: usize>(
    frame: &Frame<R, P, N>,
    locals: &Vec<RuntimeLocal>,
    tree: &ExpressionTree<'_, N>,
    id: ExprId,
) -> (result: Option<bool>)
    ensures
        result == access_of_local(*frame, local_models(locals@), tree@, id),
{
    proof {
        reveal(access_of_local);
    }
    match kind_at(tree, id) {
        Some(ExprKind::Identifier(name)) => match find_local(locals, name) {
            Some(index) => Some(locals[index].mutable),
            None => None,
        },
        _ => None,
    }
}

pub fn address_problem<R: ConstantResolver, const P: usize, const N: usize>(
    frame: &Frame<R, P, N>,
    locals: &Vec<RuntimeLocal>,
    name: &str,
    mutable: bool,
) -> (result: Option<CodegenErrorKind>)
    ensures
        result == problem_of_address(*frame, local_models(locals@), name@, mutable),
{
    proof {
        reveal(problem_of_address);
    }
    match find_local(locals, name) {
        Some(index) => if mutable && !locals[index].mutable {
            Some(CodegenErrorKind::ImmutableAssignment)
        } else {
            None
        },
        None => match find_parameter(&frame.function.parameters, name) {
            None => Some(CodegenErrorKind::UnknownRuntimeName),
            Some(_) => if mutable {
                Some(CodegenErrorKind::ImmutableAssignment)
            } else {
                None
            },
        },
    }
}

pub fn is_identifier<R: ConstantResolver, const P: usize, const N: usize>(
    frame: &Frame<R, P, N>,
    tree: &ExpressionTree<'_, N>,
    id: ExprId,
) -> (result: bool)
    ensures
        result == named_expression(*frame, tree@, id),
{
    proof {
        reveal(named_expression);
    }
    match kind_at(tree, id) {
        Some(ExprKind::Identifier(_)) => true,
        _ => false,
    }
}

pub fn runtime_expression_type_with_locals<R: ConstantResolver, const P: usize, const N: usize>(
    frame: &Frame<R, P, N>,
    locals: &Vec<RuntimeLocal>,
    tree: &ExpressionTree<'_, N>,
    id: ExprId,
    depth: usize,
) -> (result: Typing)
    ensures
        result == typed(*frame, local_models(locals@), tree@, id, depth as int),
    decreases room(depth as int), 9int, 0int,
{
    proof {
        typed_rule(*frame, local_models(locals@), tree@, id, depth as int);
    }
    if depth == 0 {
        match find_range_problem(tree, frame.resolver) {
            Some(kind) => Err(kind),
            None => match range_endpoint_problem(frame, locals, tree, 0, 1) {
                Some(kind) => Err(kind),
                None => runtime_node_type(frame, locals, tree, id, depth),
            },
        }
    } else {
        runtime_node_type(frame, locals, tree, id, depth)
    }
}

pub fn range_endpoint_problem<R: ConstantResolver, const P: usize, const N: usize>(
    frame: &Frame<R, P, N>,
    locals: &Vec<RuntimeLocal>,
    tree: &ExpressionTree<'_, N>,
    index: usize,
    depth: usize,
) -> (result: Option<CodegenErrorKind>)
    ensures
        result == problem_of_ranges(*frame, local_models(locals@), tree@, index as int, depth as int),
    decreases room(depth as int), 10int, tree@.ranges.len() - index,
{
    proof {
        problem_of_ranges_rule(*frame, local_models(locals@), tree@, index as int, depth as int);
    }
    if index >= tree.range_validations().len() {
        None
    } else {
        first_problem(
            pattern_problem(
                frame,
                tree,
                runtime_node_type(frame, locals, tree, tree.range_validations()[index].scrutinee, depth),
                tree.range_validations()[index].start,
                tree.range_validations()[index].end,
            ),
            range_endpoint_problem(frame, locals, tree, index + 1, depth),
        )
    }
}

pub fn elements_type<R: ConstantResolver, const P: usize, const N: usize>(
    frame: &Frame<R, P, N>,
    locals: &Vec<RuntimeLocal>,
    tree: &ExpressionTree<'_, N>,
    elements: &[Option<ExprId>],
    index: usize,
    count: usize,
    found: RuntimeArrayElementType,
    depth: usize,
) -> (result: Result<RuntimeArrayElementType, CodegenErrorKind>)
    ensures
        result == typed_elements(
            *frame,
            local_models(locals@),
            tree@,
            elements@,
            index,
            count,
            found,
            depth as int,
        ),
    decreases room(depth as int), 8int, elements@.len() - index,
{
    proof {
        typed_elements_rule(
            *frame,
            local_models(locals@),
            tree@,
            elements@,
            index,
            count,
            found,
            depth as int,
        );
    }
    if index >= count || index >= elements.len() {
        Ok(found)
    } else {
        match elements[index] {
            None => elements_type(frame, locals, tree, elements, index + 1, count, found, depth),
            Some(id) => match next_element(
                found,
                runtime_node_type(frame, locals, tree, id, depth),
            ) {
                Err(kind) => Err(kind),
                Ok(found) => elements_type(
                    frame,
                    locals,
                    tree,
                    elements,
                    index + 1,
                    count,
                    found,
                    depth,
                ),
            },
        }
    }
}

pub fn optional_endpoint_problem<R: ConstantResolver, const P: usize, const N: usize>(
    frame: &Frame<R, P, N>,
    locals: &Vec<RuntimeLocal>,
    tree: &ExpressionTree<'_, N>,
    id: Option<ExprId>,
    depth: usize,
) -> (result: Option<CodegenErrorKind>)
    ensures
        result == problem_of_end(*frame, local_models(locals@), tree@, id, depth as int),
    decreases room(depth as int), 8int, 0int,
{
    proof {
        problem_of_end_rule(*frame, local_models(locals@), tree@, id, depth as int);
    }
    match id {
        None => None,
        Some(id) => endpoint_problem(runtime_node_type(frame, locals, tree, id, depth)),
    }
}

pub fn address_type<R: ConstantResolver, const P: usize, const N: usize>(
    frame: &Frame<R, P, N>,
    locals: &Vec<RuntimeLocal>,
    tree: &ExpressionTree<'_, N>,
    operand: ExprId,
    mutable: bool,
    depth: usize,
) -> (result: Typing)
    ensures
        result == typed_address(*frame, local_models(locals@), tree@, operand, mutable, depth as int),
    decreases room(depth as int), 9int, 0int,
{
    proof {
        typed_address_rule(*frame, local_models(locals@), tree@, operand, mutable, depth as int);
    }
    match kind_at(tree, operand) {
        None => Err(CodegenErrorKind::RuntimeExpressionUnsupported),
        Some(ExprKind::Identifier(name)) => match address_problem(frame, locals, name, mutable) {
            Some(kind) => Err(kind),
            None => reference_to(
                target_of_type(runtime_node_type(frame, locals, tree, operand, depth)),
                mutable,
            ),
        },
        Some(ExprKind::Unary { operator: UnaryOperator::Dereference, operand: reference }) => {
            reference_to(
                reborrowed_target(
                    runtime_node_type(frame, locals, tree, reference, depth),
                    mutable,
                ),
                mutable,
            )
        },
        Some(ExprKind::RangeIndex { base, start, end, inclusive }) => reference_to(
            ranged_target(
                runtime_node_type(frame, locals, tree, base, depth),
                local_access(frame, locals, tree, base),
                mutable,
                inclusive && end.is_none(),
                first_problem(
                    optional_endpoint_problem(frame, locals, tree, start, depth),
                    optional_endpoint_problem(frame, locals, tree, end, depth),
                ),
                find_bounds_problem(
                    tree,
                    start,
                    end,
                    inclusive,
                    counted_elements(
                        runtime_node_type(frame, locals, tree, base, depth),
                        local_access(frame, locals, tree, base),
                    ),
                    frame.resolver,
                ),
            ),
            mutable,
        ),
        Some(ExprKind::Index { base, index }) => reference_to(
            element_target(
                runtime_node_type(frame, locals, tree, index, depth),
                runtime_node_type(frame, locals, tree, base, depth),
                is_identifier(frame, tree, base),
                local_access(frame, locals, tree, base) == Some(true),
                mutable,
            ),
            mutable,
        ),
        Some(_) => Err(CodegenErrorKind::RuntimeExpressionUnsupported),
    }
}

pub fn runtime_node_type<R: ConstantResolver, const P: usize, const N: usize>(
    frame: &Frame<R, P, N>,
    locals: &Vec<RuntimeLocal>,
    tree: &ExpressionTree<'_, N>,
    id: ExprId,
    depth: usize,
) -> (result: Typing)
    ensures
        result == typed_node(*frame, local_models(locals@), tree@, id, depth as int),
    decreases room(depth as int), 7int, 0int,
{
    proof {
        typed_node_rule(*frame, local_models(locals@), tree@, id, depth as int);
    }
    if depth >= MAX_EXPRESSION_DEPTH {
        Err(CodegenErrorKind::Lowering(IrErrorKind::NestingLimitExceeded))
    } else {
        match kind_at(tree, id) {
            None => Err(CodegenErrorKind::RuntimeExpressionUnsupported),
            Some(kind) => match kind {
                ExprKind::Unit => Ok(RuntimeExpressionType::Unit),
                ExprKind::DefaultValue => Ok(RuntimeExpressionType::Default),
                ExprKind::Array { elements, element_count } => match elements_type(
                    frame,
                    locals,
                    tree,
                    elements.as_slice(),
                    0,
                    element_count,
                    RuntimeArrayElementType::Default,
                    depth + 1,
                ) {
                    Err(kind) => Err(kind),
                    Ok(element) => Ok(
                        RuntimeExpressionType::Array { element, count: element_count },
                    ),
                },
                ExprKind::ArrayRepeat { element, count } => repeat_type(
                    runtime_node_type(frame, locals, tree, element, depth + 1),
                    count,
                ),
                ExprKind::Index { base, index } => index_expression_type(
                    runtime_node_type(frame, locals, tree, index, depth + 1),
                    runtime_node_type(frame, locals, tree, base, depth + 1),
                ),
                ExprKind::RangeIndex { .. } => Err(CodegenErrorKind::RuntimeExpressionUnsupported),
                ExprKind::SliceLen { base } => slice_query_type(
                    runtime_node_type(frame, locals, tree, base, depth + 1),
                    RuntimeExpressionType::Integer(Some(IntegerType::Usize)),
                ),
                ExprKind::SliceIsEmpty { base } => slice_query_type(
                    runtime_node_type(frame, locals, tree, base, depth + 1),
                    RuntimeExpressionType::Bool,
                ),
                ExprKind::StrAsBytes { base } => string_bytes_type(
                    runtime_node_type(frame, locals, tree, base, depth + 1),
                ),
                ExprKind::StrIsCharBoundary { base, index } => char_boundary_type(
                    runtime_node_type(frame, locals, tree, base, depth + 1),
                    runtime_node_type(frame, locals, tree, index, depth + 1),
                ),
                ExprKind::ReferenceAsPointer { base, mutable } => reference_pointer_type(
                    runtime_node_type(frame, locals, tree, base, depth + 1),
                    mutable,
                ),
                ExprKind::Integer(literal) => Ok(
                    RuntimeExpressionType::Integer(suffix_type(literal.suffix)),
                ),
                ExprKind::Bool(_) => Ok(RuntimeExpressionType::Bool),
                ExprKind::Char(_) => Ok(RuntimeExpressionType::Char),
                ExprKind::Identifier(name) => Ok(identifier_type(frame, locals, name)),
                ExprKind::Call { callee, argument_count, .. } => call_type(
                    frame,
                    callee,
                    argument_count,
                ),
                ExprKind::InlineConst { operand } => match inline_const_problem(
                    frame,
                    locals,
                    tree,
                    operand,
                    depth + 1,
                ) {
                    Some(kind) => Err(kind),
                    None => runtime_node_type(frame, locals, tree, operand, depth + 1),
                },
                ExprKind::Cast { operand, target } => cast_type(
                    runtime_node_type(frame, locals, tree, operand, depth + 1),
                    target,
                ),
                ExprKind::Ascribe { operand, target } => ascription_type(
                    runtime_node_type(frame, locals, tree, operand, depth + 1),
                    target,
                ),
                ExprKind::If { condition, then_branch, else_branch } => choice_type(
                    runtime_node_type(frame, locals, tree, condition, depth + 1),
                    runtime_node_type(frame, locals, tree, then_branch, depth + 1),
                    runtime_node_type(frame, locals, tree, else_branch, depth + 1),
                ),
                ExprKind::LoopBreakIf { condition, then_branch, else_branch } => choice_type(
                    runtime_node_type(frame, locals, tree, condition, depth + 1),
                    runtime_node_type(frame, locals, tree, then_branch, depth + 1),
                    runtime_node_type(frame, locals, tree, else_branch, depth + 1),
                ),
                ExprKind::Return { operand } => runtime_node_type(
                    frame,
                    locals,
                    tree,
                    operand,
                    depth + 1,
                ),
                ExprKind::LoopBreak { operand } => runtime_node_type(
                    frame,
                    locals,
                    tree,
                    operand,
                    depth + 1,
                ),
                ExprKind::Sequence { first, then } => sequence_type(
                    runtime_node_type(frame, locals, tree, first, depth + 1),
                    runtime_node_type(frame, locals, tree, then, depth + 1),
                ),
                ExprKind::Unary { operator, operand } => match operator {
                    UnaryOperator::Not => runtime_node_type(
                        frame,
                        locals,
                        tree,
                        operand,
                        depth + 1,
                    ),
                    UnaryOperator::Negate => negation_type(
                        runtime_node_type(frame, locals, tree, operand, depth + 1),
                    ),
                    UnaryOperator::Dereference => dereference_type(
                        runtime_node_type(frame, locals, tree, operand, depth + 1),
                    ),
                    UnaryOperator::AddressOf => address_type(
                        frame,
                        locals,
                        tree,
                        operand,
                        false,
                        depth + 1,
                    ),
                    UnaryOperator::AddressOfMut => address_type(
                        frame,
                        locals,
                        tree,
                        operand,
                        true,
                        depth + 1,
                    ),
                },
                ExprKind::Binary { operator, left, right } => binary_type(
                    operator,
                    runtime_node_type(frame, locals, tree, left, depth + 1),
                    runtime_node_type(frame, locals, tree, right, depth + 1),
                ),
            },
        }
    }
}

pub fn operation_type<R: ConstantResolver, const P: usize, const N: usize>(
    frame: &Frame<R, P, N>,
    locals: &Vec<RuntimeLocal>,
    tree: &ExpressionTree<'_, N>,
    id: ExprId,
    ty: RuntimeExpressionType,
    depth: usize,
) -> (result: Typing)
    requires
        depth < MAX_EXPRESSION_DEPTH,
    ensures
        result == typed_operation(*frame, local_models(locals@), tree@, id, ty, depth as int),
{
    proof {
        reveal(typed_operation);
    }
    if ty == RuntimeExpressionType::Bool {
        match kind_at(tree, id) {
            Some(ExprKind::Binary { left, .. }) => runtime_expression_type_with_locals(
                frame,
                locals,
                tree,
                left,
                depth + 1,
            ),
            _ => Ok(ty),
        }
    } else {
        Ok(ty)
    }
}

pub fn is_known_name<R: ConstantResolver, const P: usize, const N: usize>(
    frame: &Frame<R, P, N>,
    locals: &Vec<RuntimeLocal>,
    name: &str,
) -> (result: bool)
    ensures
        result == known_name(*frame, local_models(locals@), name@),
{
    proof {
        reveal(known_name);
    }
    match find_parameter(&frame.function.parameters, name) {
        Some(_) => true,
        None => match find_local(locals, name) {
            Some(_) => true,
            None => false,
        },
    }
}

} // verus!
