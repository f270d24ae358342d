//! How programs run: on which stacks, and how they can end.
use crate::equivalence::{stands, stands_in_turn};
use crate::expression::{node_at, ConstantResolver, ExprId, Form, Node, Tree};
use crate::integer::{BinaryOperator, ScalarType};
use crate::ir::{
    in_turn, logical_branch, lower_jumps, lower_nothing, lower_one, lowered, lowered_arguments,
    lowered_element, lowered_elements, lowered_tree, piece_ops, popped, pushed, run, step, unary_op,
    ExecutionError, IrError, Op, MAX_LOWERING_DEPTH,
};
use crate::token::Span;
use vstd::prelude::*;

verus! {

/// A value is pushed exactly where the stack has room, and the pop after it gives the value back and
/// leaves the stack as it was. An empty stack gives nothing.
pub proof fn a_pop_gives_back_what_was_pushed(stack: Seq<u128>, value: u128, limit: int)
    ensures
        match pushed(stack, value, limit) {
            Ok(after) => {
                &&& stack.len() < limit
                &&& after.take(stack.len() as int) == stack
                &&& popped(after) == Ok::<(u128, Seq<u128>), ExecutionError>((value, stack))
            },
            Err(error) => stack.len() >= limit && error == ExecutionError::StackOverflow,
        },
        popped(Seq::<u128>::empty()) == Err::<(u128, Seq<u128>), ExecutionError>(
            ExecutionError::StackUnderflow,
        ),
{
    let after = stack.push(value);
    assert(after.take(stack.len() as int) =~= stack);
    assert(after.drop_last() =~= stack);
}

/// A program that does not run out of one stack gives the same on a larger one.
pub proof fn a_larger_stack_keeps_the_result<R: ConstantResolver>(
    code: Seq<Option<Op>>,
    resolver: &R,
    pc: int,
    stack: Seq<u128>,
    limit: int,
    larger: int,
)
    requires
        limit <= larger,
        run(code, resolver, pc, stack, limit) != Err::<u128, ExecutionError>(
            ExecutionError::StackOverflow,
        ),
    ensures
        run(code, resolver, pc, stack, larger) == run(code, resolver, pc, stack, limit),
    decreases code.len() - pc,
{
    if 0 <= pc < code.len() {
        if let Some(op) = code[pc] {
            let length = code.len() as int;
            assert(step(op, resolver, pc, length, stack, limit) == step(
                op,
                resolver,
                pc,
                length,
                stack,
                larger,
            ));
            if let Ok((next, after)) = step(op, resolver, pc, length, stack, limit) {
                if next > pc {
                    a_larger_stack_keeps_the_result(code, resolver, next, after, limit, larger);
                }
            }
        }
    }
}

/// A stack as long as the program never overflows: each instruction adds at most one value, and
/// none is executed twice.
pub proof fn a_stack_as_long_as_the_program_does_not_overflow<R: ConstantResolver>(
    code: Seq<Option<Op>>,
    resolver: &R,
    pc: int,
    stack: Seq<u128>,
    limit: int,
)
    requires
        code.len() <= limit,
        stack.len() <= pc,
    ensures
        run(code, resolver, pc, stack, limit) != Err::<u128, ExecutionError>(
            ExecutionError::StackOverflow,
        ),
    decreases code.len() - pc,
{
    if 0 <= pc < code.len() {
        if let Some(op) = code[pc] {
            if let Ok((next, after)) = step(op, resolver, pc, code.len() as int, stack, limit) {
                assert(after.len() <= stack.len() + 1);
                if next > pc {
                    a_stack_as_long_as_the_program_does_not_overflow(
                        code,
                        resolver,
                        next,
                        after,
                        limit,
                    );
                }
            }
        }
    }
}

/// Each instruction that does not fail goes on behind itself and no further than to the end of
/// the program. So a program executes each of its instructions at most once.
pub proof fn execution_goes_forward<R: ConstantResolver>(
    op: Op,
    resolver: &R,
    pc: int,
    length: int,
    stack: Seq<u128>,
    limit: int,
)
    requires
        0 <= pc < length,
    ensures
        step(op, resolver, pc, length, stack, limit) matches Ok((next, _)) ==> pc < next <= length,
{
}

/// Whether execution failed for a reason that lies in the values or the stack's room.
pub open spec fn harmless(result: Result<u128, ExecutionError>) -> bool {
    match result {
        Err(ExecutionError::StackOverflow)
        | Err(ExecutionError::UnknownConstant)
        | Err(ExecutionError::Arithmetic(_)) => true,
        _ => false,
    }
}

/// The program of a tree never takes a value off an empty stack, never branches to a wrong place
/// and ends with one value on the stack, for every width of pointers and every stack.
pub proof fn lowered_programs_run_well<R: ConstantResolver>(
    tree: Tree,
    pointer_bits: u8,
    instruction_limit: int,
    code: Seq<Option<Op>>,
    resolver: &R,
    stack_limit: int,
)
    requires
        lowered_tree(tree, pointer_bits, instruction_limit) == Ok::<Seq<Option<Op>>, IrError>(code),
    ensures
        run(code, resolver, 0, seq![], stack_limit) is Ok || harmless(
            run(code, resolver, 0, seq![], stack_limit),
        ),
{
    let lowering = lowered(tree.nodes, pointer_bits, tree.root, 0, 0);
    assert(code == piece_ops(lowering.pieces));
    let value = code_leaves_one_value(
        tree.nodes,
        pointer_bits,
        tree.root,
        0,
        0,
        code,
        resolver,
        seq![],
        stack_limit,
    );
}

/// An instruction that takes one value and gives one.
proof fn one_value_is_replaced<R: ConstantResolver>(
    op: Op,
    at: int,
    top: u128,
    code: Seq<Option<Op>>,
    resolver: &R,
    stack: Seq<u128>,
    limit: int,
) -> (value: u128)
    requires
        0 <= at < code.len(),
        code[at] == Some(op),
        op is Unary || op is BooleanNot || op is SignedLiteralNegate || op is Cast
            || op is AscribeInteger || op is NormalizeBool,
    ensures
        ({
            let before = run(code, resolver, at, stack.push(top), limit);
            harmless(before) || before == run(code, resolver, at + 1, stack.push(value), limit)
        }),
{
    assert(stack.push(top).take(stack.push(top).len() - 1) =~= stack);
    match step(op, resolver, at, code.len() as int, stack.push(top), limit) {
        Ok((_, after)) => {
            let value = after.last();
            assert(after =~= stack.push(value));
            value
        },
        Err(_) => 0,
    }
}

proof fn leaf_leaves_one_value<R: ConstantResolver>(
    op: Op,
    base: int,
    code: Seq<Option<Op>>,
    resolver: &R,
    stack: Seq<u128>,
    limit: int,
) -> (value: u128)
    requires
        0 <= base < code.len(),
        code[base] == Some(op),
        op is PushInteger || op is LoadConstant,
    ensures
        harmless(run(code, resolver, base, stack, limit)) || run(code, resolver, base, stack, limit)
            == run(code, resolver, base + 1, stack.push(value), limit),
{
    match step(op, resolver, base, code.len() as int, stack, limit) {
        Ok((_, after)) => {
            assert(after =~= stack.push(after.last()));
            after.last()
        },
        Err(_) => 0,
    }
}

/// A value that is dropped.
proof fn one_value_is_dropped<R: ConstantResolver>(
    at: int,
    top: u128,
    code: Seq<Option<Op>>,
    resolver: &R,
    stack: Seq<u128>,
    limit: int,
)
    requires
        0 <= at < code.len(),
        code[at] == Some(Op::Pop),
    ensures
        run(code, resolver, at, stack.push(top), limit) == run(code, resolver, at + 1, stack, limit),
{
    assert(stack.push(top).drop_last() =~= stack);
}

#[verifier::rlimit(60)]
proof fn code_leaves_one_value<R: ConstantResolver>(
    nodes: Seq<Option<Node>>,
    pointer_bits: u8,
    id: ExprId,
    depth: int,
    base: int,
    code: Seq<Option<Op>>,
    resolver: &R,
    stack: Seq<u128>,
    limit: int,
) -> (value: u128)
    requires
        lowered(nodes, pointer_bits, id, depth, base).error is None,
        stands(code, base, lowered(nodes, pointer_bits, id, depth, base).pieces),
    ensures
        harmless(run(code, resolver, base, stack, limit)) || run(code, resolver, base, stack, limit)
            == run(code, resolver, base + lowered(nodes, pointer_bits, id, depth, base).pieces.len(), stack.push(value), limit),
    decreases MAX_LOWERING_DEPTH - depth, 0int,
{
    let lowering = lowered(nodes, pointer_bits, id, depth, base);
    let node = node_at(nodes, id)->0;
    match node.form {
        Form::Call { .. } => call_leaves_one_value(
            nodes, pointer_bits, id, depth, base, code, resolver, stack, limit,
        ),
        Form::Index { base: array, index } => element_leaves_one_value(
            nodes,
            pointer_bits,
            array,
            node_at(nodes, index)->0.form->Integer_value as int,
            depth + 1,
            base,
            code,
            resolver,
            stack,
            limit,
        ),
        Form::Cast { operand, target } => operator_leaves_one_value(
            nodes,
            pointer_bits,
            operand,
            Op::Cast(target, pointer_bits),
            node.span,
            depth + 1,
            base,
            code,
            resolver,
            stack,
            limit,
        ),
        Form::Ascribe { operand, target } => operator_leaves_one_value(
            nodes,
            pointer_bits,
            operand,
            match target {
                ScalarType::Integer(target) => Op::AscribeInteger(target, pointer_bits),
                ScalarType::Bool => Op::NormalizeBool,
            },
            node.span,
            depth + 1,
            base,
            code,
            resolver,
            stack,
            limit,
        ),
        Form::Unary { operator, operand } => operator_leaves_one_value(
            nodes,
            pointer_bits,
            operand,
            unary_op(nodes, pointer_bits, operator, operand, depth + 1),
            node.span,
            depth + 1,
            base,
            code,
            resolver,
            stack,
            limit,
        ),
        Form::Binary { .. } => binary_leaves_one_value(
            nodes, pointer_bits, id, depth, base, code, resolver, stack, limit,
        ),
        Form::If { condition, then_branch, else_branch } => choice_leaves_one_value(
            nodes,
            pointer_bits,
            condition,
            then_branch,
            else_branch,
            node.span,
            depth + 1,
            base,
            code,
            resolver,
            stack,
            limit,
        ),
        Form::LoopBreakIf { condition, then_branch, else_branch } => choice_leaves_one_value(
            nodes,
            pointer_bits,
            condition,
            then_branch,
            else_branch,
            node.span,
            depth + 1,
            base,
            code,
            resolver,
            stack,
            limit,
        ),
        Form::Return { operand } => code_leaves_one_value(
            nodes, pointer_bits, operand, depth + 1, base, code, resolver, stack, limit,
        ),
        Form::LoopBreak { operand } => code_leaves_one_value(
            nodes, pointer_bits, operand, depth + 1, base, code, resolver, stack, limit,
        ),
        Form::InlineConst { operand } => code_leaves_one_value(
            nodes, pointer_bits, operand, depth + 1, base, code, resolver, stack, limit,
        ),
        Form::Sequence { first, then } => {
            let discarded = lowered(nodes, pointer_bits, first, depth + 1, base);
            let rest_start = base + discarded.pieces.len() + 1;
            let rest = lowered(nodes, pointer_bits, then, depth + 1, rest_start);
            let pop = lower_one(Op::Pop, node.span);
            stands_in_turn(code, base, discarded, in_turn(pop, rest));
            stands_in_turn(code, base + discarded.pieces.len(), pop, rest);
            let dropped = code_leaves_one_value(
                nodes, pointer_bits, first, depth + 1, base, code, resolver, stack, limit,
            );
            assert(code[base + discarded.pieces.len() + 0] == Some(pop.pieces[0].op));
            one_value_is_dropped(
                base + discarded.pieces.len(), dropped, code, resolver, stack, limit,
            );
            code_leaves_one_value(
                nodes, pointer_bits, then, depth + 1, rest_start, code, resolver, stack, limit,
            )
        },
        _ => {
            assert(lowering.pieces.len() == 1);
            assert(code[base + 0] == Some(lowering.pieces[0].op));
            leaf_leaves_one_value(lowering.pieces[0].op, base, code, resolver, stack, limit)
        },
    }
}

proof fn operator_leaves_one_value<R: ConstantResolver>(
    nodes: Seq<Option<Node>>,
    pointer_bits: u8,
    operand: ExprId,
    op: Op,
    span: Span,
    depth: int,
    base: int,
    code: Seq<Option<Op>>,
    resolver: &R,
    stack: Seq<u128>,
    limit: int,
) -> (value: u128)
    requires
        ({
            let whole = in_turn(
                lowered(nodes, pointer_bits, operand, depth, base),
                lower_one(op, span),
            );
            whole.error is None && stands(code, base, whole.pieces)
        }),
        op is Unary || op is BooleanNot || op is SignedLiteralNegate || op is Cast
            || op is AscribeInteger || op is NormalizeBool,
    ensures
        harmless(run(code, resolver, base, stack, limit)) || run(code, resolver, base, stack, limit)
            == run(code, resolver, base + lowered(nodes, pointer_bits, operand, depth, base).pieces.len() + 1, stack.push(value), limit),
    decreases MAX_LOWERING_DEPTH - depth, 2int,
{
    let first = lowered(nodes, pointer_bits, operand, depth, base);
    let last = lower_one(op, span);
    stands_in_turn(code, base, first, last);
    let top = code_leaves_one_value(
        nodes, pointer_bits, operand, depth, base, code, resolver, stack, limit,
    );
    assert(code[base + first.pieces.len() + 0] == Some(last.pieces[0].op));
    one_value_is_replaced(op, base + first.pieces.len(), top, code, resolver, stack, limit)
}

proof fn call_leaves_one_value<R: ConstantResolver>(
    nodes: Seq<Option<Node>>,
    pointer_bits: u8,
    id: ExprId,
    depth: int,
    base: int,
    code: Seq<Option<Op>>,
    resolver: &R,
    stack: Seq<u128>,
    limit: int,
) -> (value: u128)
    requires
        lowered(nodes, pointer_bits, id, depth, base).error is None,
        stands(code, base, lowered(nodes, pointer_bits, id, depth, base).pieces),
        node_at(nodes, id) matches Some(Node { form: Form::Call { .. }, .. }),
        depth < MAX_LOWERING_DEPTH,
    ensures
        harmless(run(code, resolver, base, stack, limit)) || run(code, resolver, base, stack, limit)
            == run(code, resolver, base + lowered(nodes, pointer_bits, id, depth, base).pieces.len(), stack.push(value), limit),
    decreases MAX_LOWERING_DEPTH - (depth + 1), 100int,
{
    let node = node_at(nodes, id)->0;
    let callee = node.form->callee;
    let arguments = node.form->arguments;
    let count = node.form->argument_count;
    let before = lowered_arguments(
        nodes, pointer_bits, arguments, count as int, node.span, depth + 1, base,
    );
    let last = lower_one(Op::CallConstant(callee, count), node.span);
    stands_in_turn(code, base, before, last);
    let values = arguments_leave_their_values(
        nodes, pointer_bits, arguments, count as int, node.span, depth + 1, base, code, resolver,
        stack, limit,
    );
    let full = stack + values;
    let at = base + before.pieces.len();
    assert(code[at + 0] == Some(last.pieces[0].op));
    assert(full.take(full.len() - count) =~= stack);
    match step(last.pieces[0].op, resolver, at, code.len() as int, full, limit) {
        Ok((_, after)) => {
            assert(after =~= stack.push(after.last()));
            after.last()
        },
        Err(_) => 0,
    }
}

proof fn arguments_leave_their_values<R: ConstantResolver>(
    nodes: Seq<Option<Node>>,
    pointer_bits: u8,
    ids: Seq<Option<ExprId>>,
    count: int,
    span: Span,
    depth: int,
    base: int,
    code: Seq<Option<Op>>,
    resolver: &R,
    stack: Seq<u128>,
    limit: int,
) -> (values: Seq<u128>)
    requires
        lowered_arguments(nodes, pointer_bits, ids, count, span, depth, base).error is None,
        stands(
            code,
            base,
            lowered_arguments(nodes, pointer_bits, ids, count, span, depth, base).pieces,
        ),
        0 <= count,
    ensures
        values.len() == count,
        harmless(run(code, resolver, base, stack, limit)) || run(code, resolver, base, stack, limit)
            == run(code, resolver, base + lowered_arguments(nodes, pointer_bits, ids, count, span, depth, base).pieces.len(), stack + values, limit),
    decreases MAX_LOWERING_DEPTH - depth, 3 + count,
{
    if count <= 0 {
        assert(stack + Seq::<u128>::empty() =~= stack);
        Seq::empty()
    } else {
        let before = lowered_arguments(nodes, pointer_bits, ids, count - 1, span, depth, base);
        let id = ids[count - 1]->0;
        let at = base + before.pieces.len();
        let last = lowered(nodes, pointer_bits, id, depth, at);
        stands_in_turn(code, base, before, last);
        let values = arguments_leave_their_values(
            nodes, pointer_bits, ids, count - 1, span, depth, base, code, resolver, stack, limit,
        );
        let value = code_leaves_one_value(
            nodes, pointer_bits, id, depth, at, code, resolver, stack + values, limit,
        );
        assert((stack + values).push(value) =~= stack + values.push(value));
        values.push(value)
    }
}

proof fn binary_leaves_one_value<R: ConstantResolver>(
    nodes: Seq<Option<Node>>,
    pointer_bits: u8,
    id: ExprId,
    depth: int,
    base: int,
    code: Seq<Option<Op>>,
    resolver: &R,
    stack: Seq<u128>,
    limit: int,
) -> (value: u128)
    requires
        lowered(nodes, pointer_bits, id, depth, base).error is None,
        stands(code, base, lowered(nodes, pointer_bits, id, depth, base).pieces),
        node_at(nodes, id) matches Some(Node { form: Form::Binary { .. }, .. }),
        depth < MAX_LOWERING_DEPTH,
    ensures
        harmless(run(code, resolver, base, stack, limit)) || run(code, resolver, base, stack, limit)
            == run(code, resolver, base + lowered(nodes, pointer_bits, id, depth, base).pieces.len(), stack.push(value), limit),
    decreases MAX_LOWERING_DEPTH - (depth + 1), 2int,
{
    let node = node_at(nodes, id)->0;
    let operator = node.form->Binary_operator;
    let left = node.form->left;
    let right = node.form->right;
    let span = node.span;
    let first = lowered(nodes, pointer_bits, left, depth + 1, base);
    if operator == BinaryOperator::LogicalAnd || operator == BinaryOperator::LogicalOr {
        let second_start = base + first.pieces.len() + 1;
        let second = lowered(nodes, pointer_bits, right, depth + 1, second_start);
        let end = second_start + second.pieces.len() + 1;
        let branch = lower_one(logical_branch(operator, end), span);
        let normalize = lower_one(Op::NormalizeBool, span);
        let tail = in_turn(second, normalize);
        stands_in_turn(code, base, first, in_turn(branch, tail));
        stands_in_turn(code, base + first.pieces.len(), branch, tail);
        stands_in_turn(code, second_start, second, normalize);
        let top = code_leaves_one_value(
            nodes, pointer_bits, left, depth + 1, base, code, resolver, stack, limit,
        );
        assert(code[base + first.pieces.len() + 0] == Some(branch.pieces[0].op));
        assert(code[second_start + second.pieces.len() + 0] == Some(normalize.pieces[0].op));
        assert(stack.push(top).drop_last() =~= stack);
        let decides = if operator == BinaryOperator::LogicalAnd {
            top == 0
        } else {
            top != 0
        };
        if decides {
            if operator == BinaryOperator::LogicalAnd {
                0
            } else {
                1
            }
        } else {
            let other = code_leaves_one_value(
                nodes, pointer_bits, right, depth + 1, second_start, code, resolver, stack, limit,
            );
            one_value_is_replaced(
                Op::NormalizeBool,
                second_start + second.pieces.len(),
                other,
                code,
                resolver,
                stack,
                limit,
            )
        }
    } else {
        let second_start = base + first.pieces.len();
        let second = lowered(nodes, pointer_bits, right, depth + 1, second_start);
        let last = lower_one(Op::Binary(operator), span);
        stands_in_turn(code, base, first, in_turn(second, last));
        stands_in_turn(code, second_start, second, last);
        let top = code_leaves_one_value(
            nodes, pointer_bits, left, depth + 1, base, code, resolver, stack, limit,
        );
        let other = code_leaves_one_value(
            nodes, pointer_bits, right, depth + 1, second_start, code, resolver, stack.push(top),
            limit,
        );
        let full = stack.push(top).push(other);
        let at = second_start + second.pieces.len();
        assert(code[at + 0] == Some(last.pieces[0].op));
        assert(full.take(full.len() - 2) =~= stack);
        match step(last.pieces[0].op, resolver, at, code.len() as int, full, limit) {
            Ok((_, after)) => {
                assert(after =~= stack.push(after.last()));
                after.last()
            },
            Err(_) => 0,
        }
    }
}

proof fn choice_leaves_one_value<R: ConstantResolver>(
    nodes: Seq<Option<Node>>,
    pointer_bits: u8,
    condition: ExprId,
    then_branch: ExprId,
    else_branch: ExprId,
    span: Span,
    depth: int,
    base: int,
    code: Seq<Option<Op>>,
    resolver: &R,
    stack: Seq<u128>,
    limit: int,
) -> (value: u128)
    requires
        ({
            let test = lowered(nodes, pointer_bits, condition, depth, base);
            let chosen_start = base + test.pieces.len() + 1;
            let chosen = lowered(nodes, pointer_bits, then_branch, depth, chosen_start);
            let other_start = chosen_start + chosen.pieces.len() + 1;
            let other = lowered(nodes, pointer_bits, else_branch, depth, other_start);
            let end = other_start + other.pieces.len();
            let whole = lower_jumps(test, chosen, other, span, other_start, end);
            whole.error is None && stands(code, base, whole.pieces)
        }),
    ensures
        ({
            let test = lowered(nodes, pointer_bits, condition, depth, base);
            let chosen_start = base + test.pieces.len() + 1;
            let chosen = lowered(nodes, pointer_bits, then_branch, depth, chosen_start);
            let other_start = chosen_start + chosen.pieces.len() + 1;
            let other = lowered(nodes, pointer_bits, else_branch, depth, other_start);
            let end = other_start + other.pieces.len();
            let whole = lower_jumps(test, chosen, other, span, other_start, end);
            &&& base + whole.pieces.len() == end
            &&& harmless(run(code, resolver, base, stack, limit)) || run(
                code,
                resolver,
                base,
                stack,
                limit,
            ) == run(code, resolver, end, stack.push(value), limit)
        }),
    decreases MAX_LOWERING_DEPTH - depth, 2int,
{
    let test = lowered(nodes, pointer_bits, condition, depth, base);
    let chosen_start = base + test.pieces.len() + 1;
    let chosen = lowered(nodes, pointer_bits, then_branch, depth, chosen_start);
    let other_start = chosen_start + chosen.pieces.len() + 1;
    let other = lowered(nodes, pointer_bits, else_branch, depth, other_start);
    let end = other_start + other.pieces.len();
    let false_jump = lower_one(Op::JumpIfFalse(other_start), span);
    let end_jump = lower_one(Op::Jump(end), span);
    let end_tail = in_turn(end_jump, other);
    let chosen_tail = in_turn(chosen, end_tail);
    stands_in_turn(code, base, test, in_turn(false_jump, chosen_tail));
    stands_in_turn(code, base + test.pieces.len(), false_jump, chosen_tail);
    stands_in_turn(code, chosen_start, chosen, end_tail);
    stands_in_turn(code, chosen_start + chosen.pieces.len(), end_jump, other);
    let top = code_leaves_one_value(
        nodes, pointer_bits, condition, depth, base, code, resolver, stack, limit,
    );
    assert(code[base + test.pieces.len() + 0] == Some(false_jump.pieces[0].op));
    assert(code[chosen_start + chosen.pieces.len() + 0] == Some(end_jump.pieces[0].op));
    assert(stack.push(top).drop_last() =~= stack);
    if top != 0 {
        code_leaves_one_value(
            nodes, pointer_bits, then_branch, depth, chosen_start, code, resolver, stack, limit,
        )
    } else {
        code_leaves_one_value(
            nodes, pointer_bits, else_branch, depth, other_start, code, resolver, stack, limit,
        )
    }
}

proof fn element_choice_leaves_one_value<R: ConstantResolver>(
    nodes: Seq<Option<Node>>,
    pointer_bits: u8,
    condition: ExprId,
    then_branch: ExprId,
    else_branch: ExprId,
    index: int,
    span: Span,
    depth: int,
    base: int,
    code: Seq<Option<Op>>,
    resolver: &R,
    stack: Seq<u128>,
    limit: int,
) -> (value: u128)
    requires
        ({
            let test = lowered(nodes, pointer_bits, condition, depth, base);
            let chosen_start = base + test.pieces.len() + 1;
            let chosen = lowered_element(nodes, pointer_bits, then_branch, index, depth, chosen_start);
            let other_start = chosen_start + chosen.pieces.len() + 1;
            let other = lowered_element(nodes, pointer_bits, else_branch, index, depth, other_start);
            let end = other_start + other.pieces.len();
            let whole = lower_jumps(test, chosen, other, span, other_start, end);
            whole.error is None && stands(code, base, whole.pieces)
        }),
        0 <= index,
    ensures
        ({
            let test = lowered(nodes, pointer_bits, condition, depth, base);
            let chosen_start = base + test.pieces.len() + 1;
            let chosen = lowered_element(nodes, pointer_bits, then_branch, index, depth, chosen_start);
            let other_start = chosen_start + chosen.pieces.len() + 1;
            let other = lowered_element(nodes, pointer_bits, else_branch, index, depth, other_start);
            let end = other_start + other.pieces.len();
            let whole = lower_jumps(test, chosen, other, span, other_start, end);
            &&& base + whole.pieces.len() == end
            &&& harmless(run(code, resolver, base, stack, limit)) || run(
                code,
                resolver,
                base,
                stack,
                limit,
            ) == run(code, resolver, end, stack.push(value), limit)
        }),
    decreases MAX_LOWERING_DEPTH - depth, 2int,
{
    let test = lowered(nodes, pointer_bits, condition, depth, base);
    let chosen_start = base + test.pieces.len() + 1;
    let chosen = lowered_element(nodes, pointer_bits, then_branch, index, depth, chosen_start);
    let other_start = chosen_start + chosen.pieces.len() + 1;
    let other = lowered_element(nodes, pointer_bits, else_branch, index, depth, other_start);
    let end = other_start + other.pieces.len();
    let false_jump = lower_one(Op::JumpIfFalse(other_start), span);
    let end_jump = lower_one(Op::Jump(end), span);
    let end_tail = in_turn(end_jump, other);
    let chosen_tail = in_turn(chosen, end_tail);
    stands_in_turn(code, base, test, in_turn(false_jump, chosen_tail));
    stands_in_turn(code, base + test.pieces.len(), false_jump, chosen_tail);
    stands_in_turn(code, chosen_start, chosen, end_tail);
    stands_in_turn(code, chosen_start + chosen.pieces.len(), end_jump, other);
    let top = code_leaves_one_value(
        nodes, pointer_bits, condition, depth, base, code, resolver, stack, limit,
    );
    assert(code[base + test.pieces.len() + 0] == Some(false_jump.pieces[0].op));
    assert(code[chosen_start + chosen.pieces.len() + 0] == Some(end_jump.pieces[0].op));
    assert(stack.push(top).drop_last() =~= stack);
    if top != 0 {
        element_leaves_one_value(
            nodes, pointer_bits, then_branch, index, depth, chosen_start, code, resolver, stack, limit,
        )
    } else {
        element_leaves_one_value(
            nodes, pointer_bits, else_branch, index, depth, other_start, code, resolver, stack, limit,
        )
    }
}

proof fn elements_leave_one_value<R: ConstantResolver>(
    nodes: Seq<Option<Node>>,
    pointer_bits: u8,
    ids: Seq<Option<ExprId>>,
    count: int,
    index: int,
    span: Span,
    depth: int,
    base: int,
    code: Seq<Option<Op>>,
    resolver: &R,
    stack: Seq<u128>,
    limit: int,
) -> (value: u128)
    requires
        lowered_elements(nodes, pointer_bits, ids, count, index, span, depth, base).error is None,
        stands(
            code,
            base,
            lowered_elements(nodes, pointer_bits, ids, count, index, span, depth, base).pieces,
        ),
        0 <= index,
        0 <= count,
    ensures
        ({
            let pieces = lowered_elements(
                nodes, pointer_bits, ids, count, index, span, depth, base,
            ).pieces;
            harmless(run(code, resolver, base, stack, limit)) || run(
                code,
                resolver,
                base,
                stack,
                limit,
            ) == run(
                code,
                resolver,
                base + pieces.len(),
                if index < count {
                    stack.push(value)
                } else {
                    stack
                },
                limit,
            )
        }),
    decreases MAX_LOWERING_DEPTH - depth, 3 + count,
{
    if count <= 0 {
        0
    } else {
        let before = lowered_elements(
            nodes, pointer_bits, ids, count - 1, index, span, depth, base,
        );
        let id = ids[count - 1]->0;
        let at = base + before.pieces.len();
        let element = lowered(nodes, pointer_bits, id, depth, at);
        let pop = if count - 1 != index {
            lower_one(Op::Pop, span)
        } else {
            lower_nothing()
        };
        stands_in_turn(code, base, before, in_turn(element, pop));
        stands_in_turn(code, at, element, pop);
        let kept = elements_leave_one_value(
            nodes, pointer_bits, ids, count - 1, index, span, depth, base, code, resolver, stack,
            limit,
        );
        let below = if index < count - 1 {
            stack.push(kept)
        } else {
            stack
        };
        let value = code_leaves_one_value(
            nodes, pointer_bits, id, depth, at, code, resolver, below, limit,
        );
        if count - 1 != index {
            assert(code[at + element.pieces.len() + 0] == Some(pop.pieces[0].op));
        }
        assert(below.push(value).drop_last() =~= below);
        if count - 1 == index {
            value
        } else {
            kept
        }
    }
}

#[verifier::rlimit(60)]
proof fn element_leaves_one_value<R: ConstantResolver>(
    nodes: Seq<Option<Node>>,
    pointer_bits: u8,
    id: ExprId,
    index: int,
    depth: int,
    base: int,
    code: Seq<Option<Op>>,
    resolver: &R,
    stack: Seq<u128>,
    limit: int,
) -> (value: u128)
    requires
        lowered_element(nodes, pointer_bits, id, index, depth, base).error is None,
        stands(code, base, lowered_element(nodes, pointer_bits, id, index, depth, base).pieces),
        0 <= index,
    ensures
        harmless(run(code, resolver, base, stack, limit)) || run(code, resolver, base, stack, limit)
            == run(code, resolver, base + lowered_element(nodes, pointer_bits, id, index, depth, base).pieces.len(), stack.push(value), limit),
    decreases MAX_LOWERING_DEPTH - depth, 0int,
{
    let lowering = lowered_element(nodes, pointer_bits, id, index, depth, base);
    let node = node_at(nodes, id)->0;
    match node.form {
        Form::DefaultValue => {
            assert(lowering.pieces.len() == 1);
            assert(code[base + 0] == Some(lowering.pieces[0].op));
            leaf_leaves_one_value(lowering.pieces[0].op, base, code, resolver, stack, limit)
        },
        Form::Array { elements, element_count } => elements_leave_one_value(
            nodes,
            pointer_bits,
            elements,
            element_count as int,
            index,
            node.span,
            depth + 1,
            base,
            code,
            resolver,
            stack,
            limit,
        ),
        Form::ArrayRepeat { element, .. } => code_leaves_one_value(
            nodes, pointer_bits, element, depth + 1, base, code, resolver, stack, limit,
        ),
        Form::If { condition, then_branch, else_branch } => element_choice_leaves_one_value(
            nodes,
            pointer_bits,
            condition,
            then_branch,
            else_branch,
            index,
            node.span,
            depth + 1,
            base,
            code,
            resolver,
            stack,
            limit,
        ),
        Form::LoopBreakIf { condition, then_branch, else_branch } => element_choice_leaves_one_value(
            nodes,
            pointer_bits,
            condition,
            then_branch,
            else_branch,
            index,
            node.span,
            depth + 1,
            base,
            code,
            resolver,
            stack,
            limit,
        ),
        Form::InlineConst { operand } => element_leaves_one_value(
            nodes, pointer_bits, operand, index, depth + 1, base, code, resolver, stack, limit,
        ),
        Form::LoopBreak { operand } => element_leaves_one_value(
            nodes, pointer_bits, operand, index, depth + 1, base, code, resolver, stack, limit,
        ),
        Form::Return { operand } => element_leaves_one_value(
            nodes, pointer_bits, operand, index, depth + 1, base, code, resolver, stack, limit,
        ),
        Form::Sequence { first, then } => {
            let discarded = lowered(nodes, pointer_bits, first, depth + 1, base);
            let rest_start = base + discarded.pieces.len() + 1;
            let rest = lowered_element(nodes, pointer_bits, then, index, depth + 1, rest_start);
            let pop = lower_one(Op::Pop, node.span);
            stands_in_turn(code, base, discarded, in_turn(pop, rest));
            stands_in_turn(code, base + discarded.pieces.len(), pop, rest);
            let dropped = code_leaves_one_value(
                nodes, pointer_bits, first, depth + 1, base, code, resolver, stack, limit,
            );
            assert(code[base + discarded.pieces.len() + 0] == Some(pop.pieces[0].op));
            one_value_is_dropped(
                base + discarded.pieces.len(), dropped, code, resolver, stack, limit,
            );
            element_leaves_one_value(
                nodes, pointer_bits, then, index, depth + 1, rest_start, code, resolver, stack,
                limit,
            )
        },
        _ => 0,
    }
}

} // verus!
