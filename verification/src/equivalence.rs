//! The program of an expression computes the value of the expression.
use crate::expression::{
    element_evaluation, evaluation, evaluations, node_at, tree_evaluation, ConstantResolver, ExprId,
    Form, Node, Tree, MAX_EXPRESSION_DEPTH,
};
use crate::integer::{BinaryOperator, ConstEvalError, ScalarType};
use crate::ir::{
    in_turn, logical_branch, lower_jumps, lower_one, lowered, lowered_arguments, lowered_element,
    lowered_elements, lowered_tree, piece_ops, run, ExecutionError, IrError, Op, Piece,
};
use crate::token::Span;
use vstd::prelude::*;

verus! {

/// How an evaluation error shows when the program is executed.
pub open spec fn execution_error(error: ConstEvalError) -> ExecutionError {
    match error {
        ConstEvalError::UnknownIdentifier | ConstEvalError::UnsupportedCall => {
            ExecutionError::UnknownConstant
        },
        _ => ExecutionError::Arithmetic(error),
    }
}

/// Whether an evaluation is refused because a value that is no truth value by its form is
/// ascribed `bool`.
pub open spec fn refused_cast<T>(value: Result<T, ConstEvalError>) -> bool {
    value matches Err(ConstEvalError::InvalidCast)
}

pub open spec fn larger(left: int, right: int) -> int {
    if left >= right {
        left
    } else {
        right
    }
}

/// How many stack places the program of the expression `id` may use.
pub open spec fn stack_need(nodes: Seq<Option<Node>>, id: ExprId, depth: int) -> int
    decreases MAX_EXPRESSION_DEPTH - depth, 0int,
{
    if depth >= MAX_EXPRESSION_DEPTH {
        1
    } else {
        match node_at(nodes, id) {
            None => 1,
            Some(node) => match node.form {
                Form::Call { arguments, argument_count, .. } => larger(
                    1,
                    stack_needs(nodes, arguments, argument_count as int, depth + 1),
                ),
                Form::Array { elements, element_count } => larger(
                    1,
                    stack_needs(nodes, elements, element_count as int, depth + 1),
                ),
                Form::InlineConst { operand } => stack_need(nodes, operand, depth + 1),
                Form::Return { operand } => stack_need(nodes, operand, depth + 1),
                Form::LoopBreak { operand } => stack_need(nodes, operand, depth + 1),
                Form::Cast { operand, .. } => stack_need(nodes, operand, depth + 1),
                Form::Unary { operand, .. } => stack_need(nodes, operand, depth + 1),
                Form::Ascribe { operand, .. } => stack_need(nodes, operand, depth + 1),
                Form::Sequence { first, then } => larger(
                    stack_need(nodes, first, depth + 1),
                    stack_need(nodes, then, depth + 1),
                ),
                Form::Binary { left, right, .. } => larger(
                    stack_need(nodes, left, depth + 1),
                    1 + stack_need(nodes, right, depth + 1),
                ),
                Form::If { condition, then_branch, else_branch } => larger(
                    stack_need(nodes, condition, depth + 1),
                    larger(
                        stack_need(nodes, then_branch, depth + 1),
                        stack_need(nodes, else_branch, depth + 1),
                    ),
                ),
                Form::LoopBreakIf { condition, then_branch, else_branch } => larger(
                    stack_need(nodes, condition, depth + 1),
                    larger(
                        stack_need(nodes, then_branch, depth + 1),
                        stack_need(nodes, else_branch, depth + 1),
                    ),
                ),
                Form::ArrayRepeat { element, .. } => stack_need(nodes, element, depth + 1),
                Form::Index { base, .. } => stack_need(nodes, base, depth + 1),
                _ => 1,
            },
        }
    }
}

/// How many stack places the programs of the first `count` of the expressions
/// `ids` may use where the values of the earlier ones stay on the stack.
pub open spec fn stack_needs(
    nodes: Seq<Option<Node>>,
    ids: Seq<Option<ExprId>>,
    count: int,
    depth: int,
) -> int
    decreases MAX_EXPRESSION_DEPTH - depth, count,
{
    if count <= 0 {
        0
    } else {
        larger(
            stack_needs(nodes, ids, count - 1, depth),
            match ids[count - 1] {
                Some(id) => count - 1 + stack_need(nodes, id, depth),
                None => 0,
            },
        )
    }
}

/// Whether the instructions `pieces` stand in the program from `base` on.
pub open spec fn stands(code: Seq<Option<Op>>, base: int, pieces: Seq<Piece>) -> bool {
    &&& 0 <= base
    &&& base + pieces.len() <= code.len()
    &&& forall|k: int|
        0 <= k < pieces.len() ==> code[base + k] == Some((#[trigger] pieces[k]).op)
}

/// Execution from `pc` on with one more value on the stack, or the error.
pub open spec fn resumed<R: ConstantResolver>(
    code: Seq<Option<Op>>,
    resolver: &R,
    pc: int,
    stack: Seq<u128>,
    value: Result<u128, ConstEvalError>,
    limit: int,
) -> Result<u128, ExecutionError> {
    match value {
        Ok(value) => run(code, resolver, pc, stack.push(value), limit),
        Err(error) => Err(execution_error(error)),
    }
}

/// What a choice evaluates to.
spec fn chosen_value<R: ConstantResolver>(
    nodes: Seq<Option<Node>>,
    resolver: &R,
    condition: ExprId,
    then_branch: ExprId,
    else_branch: ExprId,
    depth: int,
) -> Result<u128, ConstEvalError> {
    match evaluation(nodes, resolver, condition, depth) {
        Err(error) => Err(error),
        Ok(value) => if value != 0 {
            evaluation(nodes, resolver, then_branch, depth)
        } else {
            evaluation(nodes, resolver, else_branch, depth)
        },
    }
}

/// What an element of a choice evaluates to.
spec fn chosen_element<R: ConstantResolver>(
    nodes: Seq<Option<Node>>,
    resolver: &R,
    condition: ExprId,
    then_branch: ExprId,
    else_branch: ExprId,
    index: u128,
    depth: int,
) -> Result<u128, ConstEvalError> {
    match evaluation(nodes, resolver, condition, depth) {
        Err(error) => Err(error),
        Ok(value) => if value != 0 {
            element_evaluation(nodes, resolver, then_branch, index, depth)
        } else {
            element_evaluation(nodes, resolver, else_branch, index, depth)
        },
    }
}

/// Two pieces of code that stand one behind the other stand each for itself.
pub proof fn stands_in_turn(
    code: Seq<Option<Op>>,
    base: int,
    first: crate::ir::Lowering,
    second: crate::ir::Lowering,
)
    requires
        in_turn(first, second).error is None,
        stands(code, base, in_turn(first, second).pieces),
    ensures
        first.error is None,
        second.error is None,
        stands(code, base, first.pieces),
        stands(code, base + first.pieces.len(), second.pieces),
        in_turn(first, second).pieces.len() == first.pieces.len() + second.pieces.len(),
{
    let both = in_turn(first, second).pieces;
    assert(both =~= first.pieces + second.pieces);
    assert forall|k: int| 0 <= k < first.pieces.len() implies code[base + k] == Some(
        (#[trigger] first.pieces[k]).op,
    ) by {
        assert(both[k] == first.pieces[k]);
    }
    assert forall|k: int| 0 <= k < second.pieces.len() implies code[base + first.pieces.len() + k]
        == Some((#[trigger] second.pieces[k]).op) by {
        assert(both[first.pieces.len() + k] == second.pieces[k]);
    }
}

proof fn stack_need_is_positive(nodes: Seq<Option<Node>>, id: ExprId, depth: int)
    ensures
        stack_need(nodes, id, depth) >= 1,
    decreases MAX_EXPRESSION_DEPTH - depth,
{
    if depth < MAX_EXPRESSION_DEPTH {
        match node_at(nodes, id) {
            None => {},
            Some(node) => match node.form {
                Form::InlineConst { operand } => stack_need_is_positive(nodes, operand, depth + 1),
                Form::Return { operand } => stack_need_is_positive(nodes, operand, depth + 1),
                Form::LoopBreak { operand } => stack_need_is_positive(nodes, operand, depth + 1),
                Form::Cast { operand, .. } => stack_need_is_positive(nodes, operand, depth + 1),
                Form::Unary { operand, .. } => stack_need_is_positive(nodes, operand, depth + 1),
                Form::Ascribe { operand, .. } => stack_need_is_positive(nodes, operand, depth + 1),
                Form::Sequence { first, .. } => stack_need_is_positive(nodes, first, depth + 1),
                Form::Binary { left, .. } => stack_need_is_positive(nodes, left, depth + 1),
                Form::If { condition, .. } => stack_need_is_positive(nodes, condition, depth + 1),
                Form::LoopBreakIf { condition, .. } => stack_need_is_positive(
                    nodes,
                    condition,
                    depth + 1,
                ),
                Form::ArrayRepeat { element, .. } => stack_need_is_positive(
                    nodes,
                    element,
                    depth + 1,
                ),
                Form::Index { base, .. } => stack_need_is_positive(nodes, base, depth + 1),
                _ => {},
            },
        }
    }
}

/// Where the program of an expression stands in a program and the stack has
/// room for it, execution from its start goes on behind its end with the value
/// of the expression on the stack, or fails as the evaluation fails.
pub proof fn lowered_code_computes_the_value<R: ConstantResolver>(
    nodes: Seq<Option<Node>>,
    resolver: &R,
    id: ExprId,
    depth: int,
    base: int,
    code: Seq<Option<Op>>,
    stack: Seq<u128>,
    limit: int,
)
    requires
        lowered(nodes, 64, id, depth, base).error is None,
        stands(code, base, lowered(nodes, 64, id, depth, base).pieces),
        stack.len() + stack_need(nodes, id, depth) <= limit,
    ensures
        !refused_cast(evaluation(nodes, resolver, id, depth)) ==> run(code, resolver, base, stack, limit) == resumed(
            code,
            resolver,
            base + lowered(nodes, 64, id, depth, base).pieces.len(),
            stack,
            evaluation(nodes, resolver, id, depth),
            limit,
        ),
    decreases MAX_EXPRESSION_DEPTH - depth, 0int,
{
    let lowering = lowered(nodes, 64, id, depth, base);
    let node = node_at(nodes, id)->0;
    stack_need_is_positive(nodes, id, depth);
    match node.form {
        Form::Call { .. } => {
            call_code_computes_the_value(nodes, resolver, id, depth, base, code, stack, limit);
        },
        Form::Index { .. } => {
            index_code_computes_the_value(nodes, resolver, id, depth, base, code, stack, limit);
        },
        Form::Cast { .. } => {
            cast_code_computes_the_value(nodes, resolver, id, depth, base, code, stack, limit);
        },
        Form::Ascribe { .. } => {
            ascription_code_computes_the_value(nodes, resolver, id, depth, base, code, stack, limit);
        },
        Form::Unary { .. } => {
            unary_code_computes_the_value(nodes, resolver, id, depth, base, code, stack, limit);
        },
        Form::Binary { .. } => {
            binary_code_computes_the_value(nodes, resolver, id, depth, base, code, stack, limit);
        },
        Form::If { .. } => {
            if_code_computes_the_value(nodes, resolver, id, depth, base, code, stack, limit);
        },
        Form::LoopBreakIf { .. } => {
            loop_code_computes_the_value(nodes, resolver, id, depth, base, code, stack, limit);
        },
        Form::Sequence { .. } => {
            sequence_code_computes_the_value(nodes, resolver, id, depth, base, code, stack, limit);
        },
        Form::Return { operand } => {
            lowered_code_computes_the_value(
                nodes,
                resolver,
                operand,
                depth + 1,
                base,
                code,
                stack,
                limit,
            );
        },
        Form::LoopBreak { operand } => {
            lowered_code_computes_the_value(
                nodes,
                resolver,
                operand,
                depth + 1,
                base,
                code,
                stack,
                limit,
            );
        },
        Form::InlineConst { operand } => {
            lowered_code_computes_the_value(
                nodes,
                resolver,
                operand,
                depth + 1,
                base,
                code,
                stack,
                limit,
            );
        },
        _ => {
            assert(lowering.pieces.len() == 1);
            assert(code[base + 0] == Some(lowering.pieces[0].op));
        },
    }
}

proof fn call_code_computes_the_value<R: ConstantResolver>(
    nodes: Seq<Option<Node>>,
    resolver: &R,
    id: ExprId,
    depth: int,
    base: int,
    code: Seq<Option<Op>>,
    stack: Seq<u128>,
    limit: int,
)
    requires
        lowered(nodes, 64, id, depth, base).error is None,
        stands(code, base, lowered(nodes, 64, id, depth, base).pieces),
        stack.len() + stack_need(nodes, id, depth) <= limit,
        node_at(nodes, id) matches Some(Node { form: Form::Call { .. }, .. }),
        depth < MAX_EXPRESSION_DEPTH,
    ensures
        !refused_cast(evaluation(nodes, resolver, id, depth)) ==> run(code, resolver, base, stack, limit) == resumed(
            code,
            resolver,
            base + lowered(nodes, 64, id, depth, base).pieces.len(),
            stack,
            evaluation(nodes, resolver, id, depth),
            limit,
        ),
    decreases MAX_EXPRESSION_DEPTH - (depth + 1), 9int,
{
    let node = node_at(nodes, id)->0;
    let callee = node.form->callee;
    let arguments = node.form->arguments;
    let argument_count = node.form->argument_count;
    let before = lowered_arguments(
        nodes,
        64,
        arguments,
        argument_count as int,
        node.span,
        depth + 1,
        base,
    );
    let last = lower_one(Op::CallConstant(callee, argument_count), node.span);
    stands_in_turn(code, base, before, last);
    lowered_arguments_compute_the_values(
        nodes,
        resolver,
        arguments,
        argument_count as int,
        node.span,
        depth + 1,
        base,
        code,
        stack,
        limit,
    );
    assert(code[base + before.pieces.len() + 0] == Some(last.pieces[0].op));
    match evaluations(nodes, resolver, arguments, argument_count as int, depth + 1) {
        Ok(values) => {
            assert((stack + values).skip((stack + values).len() - argument_count) =~= values);
            assert((stack + values).take((stack + values).len() - argument_count) =~= stack);
        },
        Err(_) => {},
    }
}

proof fn index_code_computes_the_value<R: ConstantResolver>(
    nodes: Seq<Option<Node>>,
    resolver: &R,
    id: ExprId,
    depth: int,
    base: int,
    code: Seq<Option<Op>>,
    stack: Seq<u128>,
    limit: int,
)
    requires
        lowered(nodes, 64, id, depth, base).error is None,
        stands(code, base, lowered(nodes, 64, id, depth, base).pieces),
        stack.len() + stack_need(nodes, id, depth) <= limit,
        node_at(nodes, id) matches Some(Node { form: Form::Index { .. }, .. }),
        depth < MAX_EXPRESSION_DEPTH,
    ensures
        !refused_cast(evaluation(nodes, resolver, id, depth)) ==> run(code, resolver, base, stack, limit) == resumed(
            code,
            resolver,
            base + lowered(nodes, 64, id, depth, base).pieces.len(),
            stack,
            evaluation(nodes, resolver, id, depth),
            limit,
        ),
    decreases MAX_EXPRESSION_DEPTH - (depth + 1), 9int,
{
    let node = node_at(nodes, id)->0;
    let array = node.form->Index_base;
    let place = node.form->Index_index;
    let number = node_at(nodes, place)->0.form->Integer_value;
    lowered_element_computes_the_value(
        nodes,
        resolver,
        array,
        number,
        depth + 1,
        base,
        code,
        stack,
        limit,
    );
    assert(evaluation(nodes, resolver, place, depth + 1) == Ok::<u128, ConstEvalError>(number));
}

proof fn cast_code_computes_the_value<R: ConstantResolver>(
    nodes: Seq<Option<Node>>,
    resolver: &R,
    id: ExprId,
    depth: int,
    base: int,
    code: Seq<Option<Op>>,
    stack: Seq<u128>,
    limit: int,
)
    requires
        lowered(nodes, 64, id, depth, base).error is None,
        stands(code, base, lowered(nodes, 64, id, depth, base).pieces),
        stack.len() + stack_need(nodes, id, depth) <= limit,
        node_at(nodes, id) matches Some(Node { form: Form::Cast { .. }, .. }),
        depth < MAX_EXPRESSION_DEPTH,
    ensures
        !refused_cast(evaluation(nodes, resolver, id, depth)) ==> run(code, resolver, base, stack, limit) == resumed(
            code,
            resolver,
            base + lowered(nodes, 64, id, depth, base).pieces.len(),
            stack,
            evaluation(nodes, resolver, id, depth),
            limit,
        ),
    decreases MAX_EXPRESSION_DEPTH - (depth + 1), 9int,
{
    let node = node_at(nodes, id)->0;
    let operand = node.form->Cast_operand;
    let first = lowered(nodes, 64, operand, depth + 1, base);
    let last = lower_one(Op::Cast(node.form->Cast_target, 64), node.span);
    stands_in_turn(code, base, first, last);
    lowered_code_computes_the_value(
        nodes,
        resolver,
        operand,
        depth + 1,
        base,
        code,
        stack,
        limit,
    );
    stack_need_is_positive(nodes, operand, depth + 1);
    assert(code[base + first.pieces.len() + 0] == Some(last.pieces[0].op));
    match evaluation(nodes, resolver, operand, depth + 1) {
        Ok(value) => {
            assert(stack.push(value).take(stack.push(value).len() - 1) =~= stack);
            assert(stack.push(value).last() == value);
        },
        Err(_) => {},
    }
}

proof fn ascription_code_computes_the_value<R: ConstantResolver>(
    nodes: Seq<Option<Node>>,
    resolver: &R,
    id: ExprId,
    depth: int,
    base: int,
    code: Seq<Option<Op>>,
    stack: Seq<u128>,
    limit: int,
)
    requires
        lowered(nodes, 64, id, depth, base).error is None,
        stands(code, base, lowered(nodes, 64, id, depth, base).pieces),
        stack.len() + stack_need(nodes, id, depth) <= limit,
        node_at(nodes, id) matches Some(Node { form: Form::Ascribe { .. }, .. }),
        depth < MAX_EXPRESSION_DEPTH,
    ensures
        !refused_cast(evaluation(nodes, resolver, id, depth)) ==> run(code, resolver, base, stack, limit) == resumed(
            code,
            resolver,
            base + lowered(nodes, 64, id, depth, base).pieces.len(),
            stack,
            evaluation(nodes, resolver, id, depth),
            limit,
        ),
    decreases MAX_EXPRESSION_DEPTH - (depth + 1), 9int,
{
    let node = node_at(nodes, id)->0;
    let operand = node.form->Ascribe_operand;
    let first = lowered(nodes, 64, operand, depth + 1, base);
    let last = match node.form->Ascribe_target {
        ScalarType::Integer(target) => lower_one(Op::AscribeInteger(target, 64), node.span),
        ScalarType::Bool => lower_one(Op::NormalizeBool, node.span),
    };
    stands_in_turn(code, base, first, last);
    lowered_code_computes_the_value(
        nodes,
        resolver,
        operand,
        depth + 1,
        base,
        code,
        stack,
        limit,
    );
    stack_need_is_positive(nodes, operand, depth + 1);
    assert(code[base + first.pieces.len() + 0] == Some(last.pieces[0].op));
    match evaluation(nodes, resolver, operand, depth + 1) {
        Ok(value) => {
            assert(stack.push(value).take(stack.push(value).len() - 1) =~= stack);
            assert(stack.push(value).last() == value);
        },
        Err(_) => {},
    }
}

proof fn unary_code_computes_the_value<R: ConstantResolver>(
    nodes: Seq<Option<Node>>,
    resolver: &R,
    id: ExprId,
    depth: int,
    base: int,
    code: Seq<Option<Op>>,
    stack: Seq<u128>,
    limit: int,
)
    requires
        lowered(nodes, 64, id, depth, base).error is None,
        stands(code, base, lowered(nodes, 64, id, depth, base).pieces),
        stack.len() + stack_need(nodes, id, depth) <= limit,
        node_at(nodes, id) matches Some(Node { form: Form::Unary { .. }, .. }),
        depth < MAX_EXPRESSION_DEPTH,
    ensures
        !refused_cast(evaluation(nodes, resolver, id, depth)) ==> run(code, resolver, base, stack, limit) == resumed(
            code,
            resolver,
            base + lowered(nodes, 64, id, depth, base).pieces.len(),
            stack,
            evaluation(nodes, resolver, id, depth),
            limit,
        ),
    decreases MAX_EXPRESSION_DEPTH - (depth + 1), 9int,
{
    let node = node_at(nodes, id)->0;
    let operand = node.form->Unary_operand;
    let first = lowered(nodes, 64, operand, depth + 1, base);
    let last = lower_one(
        crate::ir::unary_op(nodes, 64, node.form->Unary_operator, operand, depth + 1),
        node.span,
    );
    stands_in_turn(code, base, first, last);
    lowered_code_computes_the_value(
        nodes,
        resolver,
        operand,
        depth + 1,
        base,
        code,
        stack,
        limit,
    );
    stack_need_is_positive(nodes, operand, depth + 1);
    assert(code[base + first.pieces.len() + 0] == Some(last.pieces[0].op));
    match evaluation(nodes, resolver, operand, depth + 1) {
        Ok(value) => {
            assert(stack.push(value).take(stack.push(value).len() - 1) =~= stack);
            assert(stack.push(value).last() == value);
        },
        Err(_) => {},
    }
}

proof fn if_code_computes_the_value<R: ConstantResolver>(
    nodes: Seq<Option<Node>>,
    resolver: &R,
    id: ExprId,
    depth: int,
    base: int,
    code: Seq<Option<Op>>,
    stack: Seq<u128>,
    limit: int,
)
    requires
        lowered(nodes, 64, id, depth, base).error is None,
        stands(code, base, lowered(nodes, 64, id, depth, base).pieces),
        stack.len() + stack_need(nodes, id, depth) <= limit,
        node_at(nodes, id) matches Some(Node { form: Form::If { .. }, .. }),
        depth < MAX_EXPRESSION_DEPTH,
    ensures
        !refused_cast(evaluation(nodes, resolver, id, depth)) ==> run(code, resolver, base, stack, limit) == resumed(
            code,
            resolver,
            base + lowered(nodes, 64, id, depth, base).pieces.len(),
            stack,
            evaluation(nodes, resolver, id, depth),
            limit,
        ),
    decreases MAX_EXPRESSION_DEPTH - (depth + 1), 9int,
{
    let node = node_at(nodes, id)->0;
    choice_code_computes_the_value(
        nodes,
        resolver,
        node.form->If_condition,
        node.form->If_then_branch,
        node.form->If_else_branch,
        node.span,
        depth + 1,
        base,
        code,
        stack,
        limit,
    );
}

proof fn loop_code_computes_the_value<R: ConstantResolver>(
    nodes: Seq<Option<Node>>,
    resolver: &R,
    id: ExprId,
    depth: int,
    base: int,
    code: Seq<Option<Op>>,
    stack: Seq<u128>,
    limit: int,
)
    requires
        lowered(nodes, 64, id, depth, base).error is None,
        stands(code, base, lowered(nodes, 64, id, depth, base).pieces),
        stack.len() + stack_need(nodes, id, depth) <= limit,
        node_at(nodes, id) matches Some(Node { form: Form::LoopBreakIf { .. }, .. }),
        depth < MAX_EXPRESSION_DEPTH,
    ensures
        !refused_cast(evaluation(nodes, resolver, id, depth)) ==> run(code, resolver, base, stack, limit) == resumed(
            code,
            resolver,
            base + lowered(nodes, 64, id, depth, base).pieces.len(),
            stack,
            evaluation(nodes, resolver, id, depth),
            limit,
        ),
    decreases MAX_EXPRESSION_DEPTH - (depth + 1), 9int,
{
    let node = node_at(nodes, id)->0;
    choice_code_computes_the_value(
        nodes,
        resolver,
        node.form->LoopBreakIf_condition,
        node.form->LoopBreakIf_then_branch,
        node.form->LoopBreakIf_else_branch,
        node.span,
        depth + 1,
        base,
        code,
        stack,
        limit,
    );
}

proof fn sequence_code_computes_the_value<R: ConstantResolver>(
    nodes: Seq<Option<Node>>,
    resolver: &R,
    id: ExprId,
    depth: int,
    base: int,
    code: Seq<Option<Op>>,
    stack: Seq<u128>,
    limit: int,
)
    requires
        lowered(nodes, 64, id, depth, base).error is None,
        stands(code, base, lowered(nodes, 64, id, depth, base).pieces),
        stack.len() + stack_need(nodes, id, depth) <= limit,
        node_at(nodes, id) matches Some(Node { form: Form::Sequence { .. }, .. }),
        depth < MAX_EXPRESSION_DEPTH,
    ensures
        !refused_cast(evaluation(nodes, resolver, id, depth)) ==> run(code, resolver, base, stack, limit) == resumed(
            code,
            resolver,
            base + lowered(nodes, 64, id, depth, base).pieces.len(),
            stack,
            evaluation(nodes, resolver, id, depth),
            limit,
        ),
    decreases MAX_EXPRESSION_DEPTH - (depth + 1), 9int,
{
    let node = node_at(nodes, id)->0;
    let first = node.form->first;
    let then = node.form->then;
    let discarded = lowered(nodes, 64, first, depth + 1, base);
    let rest_start = base + discarded.pieces.len() + 1;
    let rest = lowered(nodes, 64, then, depth + 1, rest_start);
    let pop = lower_one(Op::Pop, node.span);
    stands_in_turn(code, base, discarded, in_turn(pop, rest));
    stands_in_turn(code, base + discarded.pieces.len(), pop, rest);
    lowered_code_computes_the_value(
        nodes,
        resolver,
        first,
        depth + 1,
        base,
        code,
        stack,
        limit,
    );
    lowered_code_computes_the_value(
        nodes,
        resolver,
        then,
        depth + 1,
        rest_start,
        code,
        stack,
        limit,
    );
    assert(code[base + discarded.pieces.len() + 0] == Some(pop.pieces[0].op));
    assert(forall|value: u128| #[trigger] stack.push(value).drop_last() =~= stack);
}

/// An instruction that takes one value and gives one, on the value above
/// `stack`.
proof fn replaces_the_top<R: ConstantResolver>(
    code: Seq<Option<Op>>,
    resolver: &R,
    pc: int,
    op: Op,
    stack: Seq<u128>,
)
    ensures
        forall|value: u128| #[trigger]
            stack.push(value).take(stack.push(value).len() - 1) == stack && stack.push(value).last()
                == value,
{
    assert forall|value: u128| #[trigger]
        stack.push(value).take(stack.push(value).len() - 1) == stack && stack.push(value).last()
            == value by {
        assert(stack.push(value).take(stack.push(value).len() - 1) =~= stack);
    }
}

#[verifier::rlimit(60)]
proof fn binary_code_computes_the_value<R: ConstantResolver>(
    nodes: Seq<Option<Node>>,
    resolver: &R,
    id: ExprId,
    depth: int,
    base: int,
    code: Seq<Option<Op>>,
    stack: Seq<u128>,
    limit: int,
)
    requires
        lowered(nodes, 64, id, depth, base).error is None,
        stands(code, base, lowered(nodes, 64, id, depth, base).pieces),
        stack.len() + stack_need(nodes, id, depth) <= limit,
        node_at(nodes, id) matches Some(Node { form: Form::Binary { .. }, .. }),
        depth < MAX_EXPRESSION_DEPTH,
    ensures
        !refused_cast(evaluation(nodes, resolver, id, depth)) ==> run(code, resolver, base, stack, limit) == resumed(
            code,
            resolver,
            base + lowered(nodes, 64, id, depth, base).pieces.len(),
            stack,
            evaluation(nodes, resolver, id, depth),
            limit,
        ),
    decreases MAX_EXPRESSION_DEPTH - (depth + 1), 2int,
{
    let node = node_at(nodes, id)->0;
    let operator = node.form->Binary_operator;
    let left = node.form->left;
    let right = node.form->right;
    let span = node.span;
    let first = lowered(nodes, 64, left, depth + 1, base);
    stack_need_is_positive(nodes, right, depth + 1);
    if operator == BinaryOperator::LogicalAnd || operator == BinaryOperator::LogicalOr {
        let second_start = base + first.pieces.len() + 1;
        let second = lowered(nodes, 64, right, depth + 1, second_start);
        let end = second_start + second.pieces.len() + 1;
        let branch = lower_one(logical_branch(operator, end), span);
        let normalize = lower_one(Op::NormalizeBool, span);
        let tail = in_turn(second, normalize);
        stands_in_turn(code, base, first, in_turn(branch, tail));
        stands_in_turn(code, base + first.pieces.len(), branch, tail);
        stands_in_turn(code, second_start, second, normalize);
        lowered_code_computes_the_value(
            nodes,
            resolver,
            left,
            depth + 1,
            base,
            code,
            stack,
            limit,
        );
        lowered_code_computes_the_value(
            nodes,
            resolver,
            right,
            depth + 1,
            second_start,
            code,
            stack,
            limit,
        );
        assert(code[base + first.pieces.len() + 0] == Some(branch.pieces[0].op));
        assert(code[second_start + second.pieces.len() + 0] == Some(normalize.pieces[0].op));
        assert(forall|value: u128| #[trigger] stack.push(value).drop_last() =~= stack);
        replaces_the_top(code, resolver, base, normalize.pieces[0].op, stack);
    } else {
        let second_start = base + first.pieces.len();
        let second = lowered(nodes, 64, right, depth + 1, second_start);
        let last = lower_one(Op::Binary(operator), span);
        stands_in_turn(code, base, first, in_turn(second, last));
        stands_in_turn(code, second_start, second, last);
        lowered_code_computes_the_value(
            nodes,
            resolver,
            left,
            depth + 1,
            base,
            code,
            stack,
            limit,
        );
        match evaluation(nodes, resolver, left, depth + 1) {
            Ok(value) => {
                lowered_code_computes_the_value(
                    nodes,
                    resolver,
                    right,
                    depth + 1,
                    second_start,
                    code,
                    stack.push(value),
                    limit,
                );
                assert(code[second_start + second.pieces.len() + 0] == Some(last.pieces[0].op));
                assert forall|other: u128| #[trigger]
                    stack.push(value).push(other).take(
                        stack.push(value).push(other).len() - 2,
                    ) == stack by {
                    assert(stack.push(value).push(other).take(
                        stack.push(value).push(other).len() - 2,
                    ) =~= stack);
                }
            },
            Err(_) => {},
        }
    }
}

#[verifier::rlimit(60)]
proof fn choice_code_computes_the_value<R: ConstantResolver>(
    nodes: Seq<Option<Node>>,
    resolver: &R,
    condition: ExprId,
    then_branch: ExprId,
    else_branch: ExprId,
    span: Span,
    depth: int,
    base: int,
    code: Seq<Option<Op>>,
    stack: Seq<u128>,
    limit: int,
)
    requires
        ({
            let test = lowered(nodes, 64, condition, depth, base);
            let chosen_start = base + test.pieces.len() + 1;
            let chosen = lowered(nodes, 64, then_branch, depth, chosen_start);
            let other_start = chosen_start + chosen.pieces.len() + 1;
            let other = lowered(nodes, 64, else_branch, depth, other_start);
            let whole = lower_jumps(
                test,
                chosen,
                other,
                span,
                other_start,
                other_start + other.pieces.len(),
            );
            whole.error is None && stands(code, base, whole.pieces)
        }),
        stack.len() + stack_need(nodes, condition, depth) <= limit,
        stack.len() + stack_need(nodes, then_branch, depth) <= limit,
        stack.len() + stack_need(nodes, else_branch, depth) <= limit,
    ensures
        ({
            let test = lowered(nodes, 64, condition, depth, base);
            let chosen_start = base + test.pieces.len() + 1;
            let chosen = lowered(nodes, 64, then_branch, depth, chosen_start);
            let other_start = chosen_start + chosen.pieces.len() + 1;
            let other = lowered(nodes, 64, else_branch, depth, other_start);
            let end = other_start + other.pieces.len();
            let whole = lower_jumps(test, chosen, other, span, other_start, end);
            &&& base + whole.pieces.len() == end
            &&& !refused_cast(chosen_value(nodes, resolver, condition, then_branch, else_branch, depth)) ==> run(code, resolver, base, stack, limit) == match evaluation(
                nodes,
                resolver,
                condition,
                depth,
            ) {
                Err(error) => Err::<u128, ExecutionError>(execution_error(error)),
                Ok(value) => resumed(
                    code,
                    resolver,
                    end,
                    stack,
                    if value != 0 {
                        evaluation(nodes, resolver, then_branch, depth)
                    } else {
                        evaluation(nodes, resolver, else_branch, depth)
                    },
                    limit,
                ),
            }
        }),
    decreases MAX_EXPRESSION_DEPTH - depth, 2int,
{
    let test = lowered(nodes, 64, condition, depth, base);
    let chosen_start = base + test.pieces.len() + 1;
    let chosen = lowered(nodes, 64, then_branch, depth, chosen_start);
    let other_start = chosen_start + chosen.pieces.len() + 1;
    let other = lowered(nodes, 64, else_branch, depth, other_start);
    let end = other_start + other.pieces.len();
    let false_jump = lower_one(Op::JumpIfFalse(other_start), span);
    let end_jump = lower_one(Op::Jump(end), span);
    let end_tail = in_turn(end_jump, other);
    let chosen_tail = in_turn(chosen, end_tail);
    stands_in_turn(code, base, test, in_turn(false_jump, chosen_tail));
    stands_in_turn(code, base + test.pieces.len(), false_jump, chosen_tail);
    stands_in_turn(code, chosen_start, chosen, end_tail);
    stands_in_turn(code, chosen_start + chosen.pieces.len(), end_jump, other);
    lowered_code_computes_the_value(
        nodes,
        resolver,
        condition,
        depth,
        base,
        code,
        stack,
        limit,
    );
    lowered_code_computes_the_value(
        nodes,
        resolver,
        then_branch,
        depth,
        chosen_start,
        code,
        stack,
        limit,
    );
    lowered_code_computes_the_value(
        nodes,
        resolver,
        else_branch,
        depth,
        other_start,
        code,
        stack,
        limit,
    );
    assert(code[base + test.pieces.len() + 0] == Some(false_jump.pieces[0].op));
    assert(code[chosen_start + chosen.pieces.len() + 0] == Some(end_jump.pieces[0].op));
    assert(forall|value: u128| #[trigger] stack.push(value).drop_last() =~= stack);
}

proof fn lowered_arguments_compute_the_values<R: ConstantResolver>(
    nodes: Seq<Option<Node>>,
    resolver: &R,
    ids: Seq<Option<ExprId>>,
    count: int,
    span: Span,
    depth: int,
    base: int,
    code: Seq<Option<Op>>,
    stack: Seq<u128>,
    limit: int,
)
    requires
        lowered_arguments(nodes, 64, ids, count, span, depth, base).error is None,
        stands(code, base, lowered_arguments(nodes, 64, ids, count, span, depth, base).pieces),
        stack.len() + stack_needs(nodes, ids, count, depth) <= limit,
    ensures
        !refused_cast(evaluations(nodes, resolver, ids, count, depth)) ==> run(
            code,
            resolver,
            base,
            stack,
            limit,
        ) == match evaluations(nodes, resolver, ids, count, depth) {
            Ok(values) => run(
                code,
                resolver,
                base + lowered_arguments(nodes, 64, ids, count, span, depth, base).pieces.len(),
                stack + values,
                limit,
            ),
            Err(error) => Err(execution_error(error)),
        },
        evaluations(nodes, resolver, ids, count, depth) matches Ok(values) ==> values.len() == (
        if count <= 0 {
            0
        } else {
            count
        }),
    decreases MAX_EXPRESSION_DEPTH - depth, 1 + larger(0, count),
{
    if count <= 0 {
        assert(stack + Seq::<u128>::empty() =~= stack);
    } else {
        let before = lowered_arguments(nodes, 64, ids, count - 1, span, depth, base);
        let id = ids[count - 1]->0;
        let last = lowered(nodes, 64, id, depth, base + before.pieces.len());
        stands_in_turn(code, base, before, last);
        lowered_arguments_compute_the_values(
            nodes,
            resolver,
            ids,
            count - 1,
            span,
            depth,
            base,
            code,
            stack,
            limit,
        );
        match evaluations(nodes, resolver, ids, count - 1, depth) {
            Ok(values) => {
                lowered_code_computes_the_value(
                    nodes,
                    resolver,
                    id,
                    depth,
                    base + before.pieces.len(),
                    code,
                    stack + values,
                    limit,
                );
                assert(forall|value: u128| #[trigger]
                    (stack + values).push(value) =~= stack + values.push(value));
            },
            Err(_) => {},
        }
    }
}

proof fn lowered_elements_compute_the_value<R: ConstantResolver>(
    nodes: Seq<Option<Node>>,
    resolver: &R,
    ids: Seq<Option<ExprId>>,
    count: int,
    index: int,
    span: Span,
    depth: int,
    base: int,
    code: Seq<Option<Op>>,
    stack: Seq<u128>,
    limit: int,
)
    requires
        lowered_elements(nodes, 64, ids, count, index, span, depth, base).error is None,
        stands(
            code,
            base,
            lowered_elements(nodes, 64, ids, count, index, span, depth, base).pieces,
        ),
        stack.len() + stack_needs(nodes, ids, count, depth) <= limit,
        0 <= index,
    ensures
        !refused_cast(evaluations(nodes, resolver, ids, count, depth)) ==> run(
            code,
            resolver,
            base,
            stack,
            limit,
        ) == match evaluations(nodes, resolver, ids, count, depth) {
            Ok(values) => run(
                code,
                resolver,
                base + lowered_elements(
                    nodes,
                    64,
                    ids,
                    count,
                    index,
                    span,
                    depth,
                    base,
                ).pieces.len(),
                if index < count {
                    stack.push(values[index])
                } else {
                    stack
                },
                limit,
            ),
            Err(error) => Err(execution_error(error)),
        },
        evaluations(nodes, resolver, ids, count, depth) matches Ok(values) ==> values.len() == (
        if count <= 0 {
            0
        } else {
            count
        }),
    decreases MAX_EXPRESSION_DEPTH - depth, 1 + larger(0, count),
{
    if count > 0 {
        let before = lowered_elements(nodes, 64, ids, count - 1, index, span, depth, base);
        let id = ids[count - 1]->0;
        let element = lowered(nodes, 64, id, depth, base + before.pieces.len());
        let pop = if count - 1 != index {
            lower_one(Op::Pop, span)
        } else {
            crate::ir::lower_nothing()
        };
        stands_in_turn(code, base, before, in_turn(element, pop));
        stands_in_turn(code, base + before.pieces.len(), element, pop);
        lowered_elements_compute_the_value(
            nodes,
            resolver,
            ids,
            count - 1,
            index,
            span,
            depth,
            base,
            code,
            stack,
            limit,
        );
        match evaluations(nodes, resolver, ids, count - 1, depth) {
            Ok(values) => {
                let below = if index < count - 1 {
                    stack.push(values[index])
                } else {
                    stack
                };
                lowered_code_computes_the_value(
                    nodes,
                    resolver,
                    id,
                    depth,
                    base + before.pieces.len(),
                    code,
                    below,
                    limit,
                );
                if count - 1 != index {
                    assert(code[base + before.pieces.len() + element.pieces.len() + 0] == Some(
                        pop.pieces[0].op,
                    ));
                }
                assert(forall|value: u128| #[trigger] below.push(value).drop_last() =~= below);
            },
            Err(_) => {},
        }
    }
}

/// The same for one element of an array expression.
#[verifier::rlimit(60)]
pub proof fn lowered_element_computes_the_value<R: ConstantResolver>(
    nodes: Seq<Option<Node>>,
    resolver: &R,
    id: ExprId,
    index: u128,
    depth: int,
    base: int,
    code: Seq<Option<Op>>,
    stack: Seq<u128>,
    limit: int,
)
    requires
        lowered_element(nodes, 64, id, index as int, depth, base).error is None,
        stands(code, base, lowered_element(nodes, 64, id, index as int, depth, base).pieces),
        stack.len() + stack_need(nodes, id, depth) <= limit,
    ensures
        depth < MAX_EXPRESSION_DEPTH,
        !refused_cast(element_evaluation(nodes, resolver, id, index, depth)) ==> run(code, resolver, base, stack, limit) == resumed(
            code,
            resolver,
            base + lowered_element(nodes, 64, id, index as int, depth, base).pieces.len(),
            stack,
            element_evaluation(nodes, resolver, id, index, depth),
            limit,
        ),
    decreases MAX_EXPRESSION_DEPTH - depth, 0int,
{
    let lowering = lowered_element(nodes, 64, id, index as int, depth, base);
    let node = node_at(nodes, id)->0;
    let span = node.span;
    stack_need_is_positive(nodes, id, depth);
    match node.form {
        Form::DefaultValue => {
            assert(lowering.pieces.len() == 1);
            assert(code[base + 0] == Some(lowering.pieces[0].op));
        },
        Form::Array { elements, element_count } => {
            lowered_elements_compute_the_value(
                nodes,
                resolver,
                elements,
                element_count as int,
                index as int,
                span,
                depth + 1,
                base,
                code,
                stack,
                limit,
            );
        },
        Form::ArrayRepeat { element, .. } => {
            lowered_code_computes_the_value(
                nodes,
                resolver,
                element,
                depth + 1,
                base,
                code,
                stack,
                limit,
            );
        },
        Form::If { condition, then_branch, else_branch } => {
            element_choice_computes_the_value(
                nodes,
                resolver,
                condition,
                then_branch,
                else_branch,
                index,
                span,
                depth + 1,
                base,
                code,
                stack,
                limit,
            );
        },
        Form::LoopBreakIf { condition, then_branch, else_branch } => {
            element_choice_computes_the_value(
                nodes,
                resolver,
                condition,
                then_branch,
                else_branch,
                index,
                span,
                depth + 1,
                base,
                code,
                stack,
                limit,
            );
        },
        Form::InlineConst { operand } => {
            lowered_element_computes_the_value(
                nodes,
                resolver,
                operand,
                index,
                depth + 1,
                base,
                code,
                stack,
                limit,
            );
        },
        Form::LoopBreak { operand } => {
            lowered_element_computes_the_value(
                nodes,
                resolver,
                operand,
                index,
                depth + 1,
                base,
                code,
                stack,
                limit,
            );
        },
        Form::Return { operand } => {
            lowered_element_computes_the_value(
                nodes,
                resolver,
                operand,
                index,
                depth + 1,
                base,
                code,
                stack,
                limit,
            );
        },
        Form::Sequence { first, then } => {
            let discarded = lowered(nodes, 64, first, depth + 1, base);
            let rest = lowered_element(
                nodes,
                64,
                then,
                index as int,
                depth + 1,
                base + discarded.pieces.len() + 1,
            );
            let pop = lower_one(Op::Pop, span);
            stands_in_turn(code, base, discarded, in_turn(pop, rest));
            stands_in_turn(code, base + discarded.pieces.len(), pop, rest);
            lowered_code_computes_the_value(
                nodes,
                resolver,
                first,
                depth + 1,
                base,
                code,
                stack,
                limit,
            );
            lowered_element_computes_the_value(
                nodes,
                resolver,
                then,
                index,
                depth + 1,
                base + discarded.pieces.len() + 1,
                code,
                stack,
                limit,
            );
            assert(code[base + discarded.pieces.len() + 0] == Some(pop.pieces[0].op));
            assert(forall|value: u128| #[trigger] stack.push(value).drop_last() =~= stack);
        },
        _ => {},
    }
}

#[verifier::rlimit(60)]
proof fn element_choice_computes_the_value<R: ConstantResolver>(
    nodes: Seq<Option<Node>>,
    resolver: &R,
    condition: ExprId,
    then_branch: ExprId,
    else_branch: ExprId,
    index: u128,
    span: Span,
    depth: int,
    base: int,
    code: Seq<Option<Op>>,
    stack: Seq<u128>,
    limit: int,
)
    requires
        ({
            let test = lowered(nodes, 64, condition, depth, base);
            let chosen_start = base + test.pieces.len() + 1;
            let chosen = lowered_element(
                nodes,
                64,
                then_branch,
                index as int,
                depth,
                chosen_start,
            );
            let other_start = chosen_start + chosen.pieces.len() + 1;
            let other = lowered_element(nodes, 64, else_branch, index as int, depth, other_start);
            let whole = lower_jumps(
                test,
                chosen,
                other,
                span,
                other_start,
                other_start + other.pieces.len(),
            );
            whole.error is None && stands(code, base, whole.pieces)
        }),
        stack.len() + stack_need(nodes, condition, depth) <= limit,
        stack.len() + stack_need(nodes, then_branch, depth) <= limit,
        stack.len() + stack_need(nodes, else_branch, depth) <= limit,
    ensures
        ({
            let test = lowered(nodes, 64, condition, depth, base);
            let chosen_start = base + test.pieces.len() + 1;
            let chosen = lowered_element(
                nodes,
                64,
                then_branch,
                index as int,
                depth,
                chosen_start,
            );
            let other_start = chosen_start + chosen.pieces.len() + 1;
            let other = lowered_element(nodes, 64, else_branch, index as int, depth, other_start);
            let end = other_start + other.pieces.len();
            let whole = lower_jumps(test, chosen, other, span, other_start, end);
            &&& base + whole.pieces.len() == end
            &&& !refused_cast(chosen_element(nodes, resolver, condition, then_branch, else_branch, index, depth)) ==> run(code, resolver, base, stack, limit) == match evaluation(
                nodes,
                resolver,
                condition,
                depth,
            ) {
                Err(error) => Err::<u128, ExecutionError>(execution_error(error)),
                Ok(value) => resumed(
                    code,
                    resolver,
                    end,
                    stack,
                    if value != 0 {
                        element_evaluation(nodes, resolver, then_branch, index, depth)
                    } else {
                        element_evaluation(nodes, resolver, else_branch, index, depth)
                    },
                    limit,
                ),
            }
        }),
    decreases MAX_EXPRESSION_DEPTH - depth, 2int,
{
    let test = lowered(nodes, 64, condition, depth, base);
    let chosen_start = base + test.pieces.len() + 1;
    let chosen = lowered_element(nodes, 64, then_branch, index as int, depth, chosen_start);
    let other_start = chosen_start + chosen.pieces.len() + 1;
    let other = lowered_element(nodes, 64, else_branch, index as int, depth, other_start);
    let end = other_start + other.pieces.len();
    let false_jump = lower_one(Op::JumpIfFalse(other_start), span);
    let end_jump = lower_one(Op::Jump(end), span);
    let end_tail = in_turn(end_jump, other);
    let chosen_tail = in_turn(chosen, end_tail);
    stands_in_turn(code, base, test, in_turn(false_jump, chosen_tail));
    stands_in_turn(code, base + test.pieces.len(), false_jump, chosen_tail);
    stands_in_turn(code, chosen_start, chosen, end_tail);
    stands_in_turn(code, chosen_start + chosen.pieces.len(), end_jump, other);
    lowered_code_computes_the_value(
        nodes,
        resolver,
        condition,
        depth,
        base,
        code,
        stack,
        limit,
    );
    lowered_element_computes_the_value(
        nodes,
        resolver,
        then_branch,
        index,
        depth,
        chosen_start,
        code,
        stack,
        limit,
    );
    lowered_element_computes_the_value(
        nodes,
        resolver,
        else_branch,
        index,
        depth,
        other_start,
        code,
        stack,
        limit,
    );
    assert(code[base + test.pieces.len() + 0] == Some(false_jump.pieces[0].op));
    assert(code[chosen_start + chosen.pieces.len() + 0] == Some(end_jump.pieces[0].op));
    assert(forall|value: u128| #[trigger] stack.push(value).drop_last() =~= stack);
}

/// Executing the program that a tree is lowered to, on a stack with enough
/// room, gives what evaluating the tree's root gives. The one difference is an
/// ascription of `bool` to an expression that is no truth value by its form:
/// where evaluation comes to one it refuses it, and the program normalizes it.
pub proof fn execution_agrees_with_evaluation<R: ConstantResolver>(
    tree: Tree,
    resolver: &R,
    instruction_limit: int,
    stack_limit: int,
)
    requires
        stack_need(tree.nodes, tree.root, 0) <= stack_limit,
    ensures
        lowered_tree(tree, 64, instruction_limit) matches Ok(code) ==> evaluation(
            tree.nodes,
            resolver,
            tree.root,
            0,
        ) != Err::<u128, ConstEvalError>(ConstEvalError::InvalidCast) ==> run(
            code,
            resolver,
            0,
            seq![],
            stack_limit,
        ) == match evaluation(tree.nodes, resolver, tree.root, 0) {
            Ok(value) => Ok::<u128, ExecutionError>(value),
            Err(error) => Err(execution_error(error)),
        },
{
    let lowering = lowered(tree.nodes, 64, tree.root, 0, 0);
    if lowered_tree(tree, 64, instruction_limit) is Ok {
        let code = piece_ops(lowering.pieces);
        lowered_code_computes_the_value(
            tree.nodes,
            resolver,
            tree.root,
            0,
            0,
            code,
            seq![],
            stack_limit,
        );
    }
}

/// A stack as long as the program of a tree has room for it.
pub proof fn a_stack_as_long_as_the_program_is_enough(tree: Tree, pointer_bits: u8, limit: int)
    ensures
        lowered_tree(tree, pointer_bits, limit) matches Ok(code) ==> stack_need(
            tree.nodes,
            tree.root,
            0,
        ) <= code.len(),
{
    if lowered_tree(tree, pointer_bits, limit) is Ok {
        need_is_no_more_than_the_code(tree.nodes, pointer_bits, tree.root, 0, 0);
    }
}

proof fn need_is_no_more_than_the_code(
    nodes: Seq<Option<Node>>,
    pointer_bits: u8,
    id: ExprId,
    depth: int,
    base: int,
)
    requires
        lowered(nodes, pointer_bits, id, depth, base).error is None,
    ensures
        stack_need(nodes, id, depth) <= lowered(nodes, pointer_bits, id, depth, base).pieces.len(),
    decreases MAX_EXPRESSION_DEPTH - depth, 0int,
{
    let node = node_at(nodes, id)->0;
    match node.form {
        Form::Call { arguments, argument_count, .. } => {
            needs_are_no_more_than_the_code(
                nodes,
                pointer_bits,
                arguments,
                argument_count as int,
                node.span,
                depth + 1,
                base,
            );
        },
        Form::Index { base: array, index } => {
            let number = node_at(nodes, index)->0.form->Integer_value;
            element_need_is_no_more_than_the_code(
                nodes,
                pointer_bits,
                array,
                number as int,
                depth + 1,
                base,
            );
        },
        Form::Cast { operand, .. }
        | Form::Ascribe { operand, .. }
        | Form::Unary { operand, .. }
        | Form::Return { operand }
        | Form::LoopBreak { operand }
        | Form::InlineConst { operand } => {
            need_is_no_more_than_the_code(nodes, pointer_bits, operand, depth + 1, base);
        },
        Form::Binary { operator, left, right } => {
            let first = lowered(nodes, pointer_bits, left, depth + 1, base);
            need_is_no_more_than_the_code(nodes, pointer_bits, left, depth + 1, base);
            stack_need_is_positive(nodes, left, depth + 1);
            if operator == BinaryOperator::LogicalAnd || operator == BinaryOperator::LogicalOr {
                need_is_no_more_than_the_code(
                    nodes,
                    pointer_bits,
                    right,
                    depth + 1,
                    base + first.pieces.len() + 1,
                );
            } else {
                need_is_no_more_than_the_code(
                    nodes,
                    pointer_bits,
                    right,
                    depth + 1,
                    base + first.pieces.len(),
                );
            }
        },
        Form::If { condition, then_branch, else_branch }
        | Form::LoopBreakIf { condition, then_branch, else_branch } => {
            let test = lowered(nodes, pointer_bits, condition, depth + 1, base);
            let chosen_start = base + test.pieces.len() + 1;
            let chosen = lowered(nodes, pointer_bits, then_branch, depth + 1, chosen_start);
            let other_start = chosen_start + chosen.pieces.len() + 1;
            need_is_no_more_than_the_code(nodes, pointer_bits, condition, depth + 1, base);
            need_is_no_more_than_the_code(
                nodes,
                pointer_bits,
                then_branch,
                depth + 1,
                chosen_start,
            );
            need_is_no_more_than_the_code(nodes, pointer_bits, else_branch, depth + 1, other_start);
        },
        Form::Sequence { first, then } => {
            let discarded = lowered(nodes, pointer_bits, first, depth + 1, base);
            need_is_no_more_than_the_code(nodes, pointer_bits, first, depth + 1, base);
            need_is_no_more_than_the_code(
                nodes,
                pointer_bits,
                then,
                depth + 1,
                base + discarded.pieces.len() + 1,
            );
        },
        _ => {},
    }
}

proof fn needs_are_no_more_than_the_code(
    nodes: Seq<Option<Node>>,
    pointer_bits: u8,
    ids: Seq<Option<ExprId>>,
    count: int,
    span: Span,
    depth: int,
    base: int,
)
    requires
        lowered_arguments(nodes, pointer_bits, ids, count, span, depth, base).error is None,
    ensures
        ({
            let code = lowered_arguments(nodes, pointer_bits, ids, count, span, depth, base).pieces;
            stack_needs(nodes, ids, count, depth) <= code.len() && count <= code.len()
        }),
    decreases MAX_EXPRESSION_DEPTH - depth, 1 + larger(0, count),
{
    if count > 0 {
        let before = lowered_arguments(nodes, pointer_bits, ids, count - 1, span, depth, base);
        needs_are_no_more_than_the_code(nodes, pointer_bits, ids, count - 1, span, depth, base);
        let id = ids[count - 1]->0;
        stack_need_is_positive(nodes, id, depth);
        need_is_no_more_than_the_code(
            nodes,
            pointer_bits,
            id,
            depth,
            base + before.pieces.len(),
        );
    }
}

proof fn element_needs_are_no_more_than_the_code(
    nodes: Seq<Option<Node>>,
    pointer_bits: u8,
    ids: Seq<Option<ExprId>>,
    count: int,
    index: int,
    span: Span,
    depth: int,
    base: int,
)
    requires
        lowered_elements(nodes, pointer_bits, ids, count, index, span, depth, base).error is None,
    ensures
        ({
            let code = lowered_elements(
                nodes,
                pointer_bits,
                ids,
                count,
                index,
                span,
                depth,
                base,
            ).pieces;
            stack_needs(nodes, ids, count, depth) <= code.len() && count <= code.len()
        }),
    decreases MAX_EXPRESSION_DEPTH - depth, 1 + larger(0, count),
{
    if count > 0 {
        let before = lowered_elements(
            nodes,
            pointer_bits,
            ids,
            count - 1,
            index,
            span,
            depth,
            base,
        );
        element_needs_are_no_more_than_the_code(
            nodes,
            pointer_bits,
            ids,
            count - 1,
            index,
            span,
            depth,
            base,
        );
        let id = ids[count - 1]->0;
        stack_need_is_positive(nodes, id, depth);
        need_is_no_more_than_the_code(
            nodes,
            pointer_bits,
            id,
            depth,
            base + before.pieces.len(),
        );
    }
}

proof fn element_need_is_no_more_than_the_code(
    nodes: Seq<Option<Node>>,
    pointer_bits: u8,
    id: ExprId,
    index: int,
    depth: int,
    base: int,
)
    requires
        lowered_element(nodes, pointer_bits, id, index, depth, base).error is None,
        0 <= index,
    ensures
        stack_need(nodes, id, depth) <= lowered_element(
            nodes,
            pointer_bits,
            id,
            index,
            depth,
            base,
        ).pieces.len(),
    decreases MAX_EXPRESSION_DEPTH - depth, 0int,
{
    let node = node_at(nodes, id)->0;
    match node.form {
        Form::Array { elements, element_count } => {
            element_needs_are_no_more_than_the_code(
                nodes,
                pointer_bits,
                elements,
                element_count as int,
                index,
                node.span,
                depth + 1,
                base,
            );
        },
        Form::ArrayRepeat { element, .. } => {
            need_is_no_more_than_the_code(nodes, pointer_bits, element, depth + 1, base);
        },
        Form::If { condition, then_branch, else_branch }
        | Form::LoopBreakIf { condition, then_branch, else_branch } => {
            let test = lowered(nodes, pointer_bits, condition, depth + 1, base);
            let chosen_start = base + test.pieces.len() + 1;
            let chosen = lowered_element(
                nodes,
                pointer_bits,
                then_branch,
                index,
                depth + 1,
                chosen_start,
            );
            let other_start = chosen_start + chosen.pieces.len() + 1;
            need_is_no_more_than_the_code(nodes, pointer_bits, condition, depth + 1, base);
            element_need_is_no_more_than_the_code(
                nodes,
                pointer_bits,
                then_branch,
                index,
                depth + 1,
                chosen_start,
            );
            element_need_is_no_more_than_the_code(
                nodes,
                pointer_bits,
                else_branch,
                index,
                depth + 1,
                other_start,
            );
        },
        Form::InlineConst { operand }
        | Form::LoopBreak { operand }
        | Form::Return { operand } => {
            element_need_is_no_more_than_the_code(
                nodes,
                pointer_bits,
                operand,
                index,
                depth + 1,
                base,
            );
        },
        Form::Sequence { first, then } => {
            let discarded = lowered(nodes, pointer_bits, first, depth + 1, base);
            need_is_no_more_than_the_code(nodes, pointer_bits, first, depth + 1, base);
            element_need_is_no_more_than_the_code(
                nodes,
                pointer_bits,
                then,
                index,
                depth + 1,
                base + discarded.pieces.len() + 1,
            );
        },
        _ => {},
    }
}

/// On a stack as long as the program, a program computes what evaluating its tree gives, and
/// where the tree holds no range patterns it fails as the evaluation fails.
pub proof fn programs_compute_what_trees_evaluate_to<R: ConstantResolver>(
    tree: Tree,
    resolver: &R,
    instruction_limit: int,
    stack_limit: int,
    code: Seq<Option<Op>>,
)
    requires
        lowered_tree(tree, 64, instruction_limit) == Ok::<Seq<Option<Op>>, IrError>(code),
        code.len() <= stack_limit,
    ensures
        tree_evaluation(tree, resolver) matches Ok(value) ==> run(
            code,
            resolver,
            0,
            seq![],
            stack_limit,
        ) == Ok::<u128, ExecutionError>(value),
        tree.ranges.len() == 0 ==> match tree_evaluation(tree, resolver) {
            Ok(_) | Err(ConstEvalError::InvalidCast) => true,
            Err(error) => run(code, resolver, 0, seq![], stack_limit) == Err::<
                u128,
                ExecutionError,
            >(execution_error(error)),
        },
{
    a_stack_as_long_as_the_program_is_enough(tree, 64, instruction_limit);
    execution_agrees_with_evaluation(tree, resolver, instruction_limit, stack_limit);
}

} // verus!
