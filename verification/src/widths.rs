//! What the width of pointers changes in a program.
use crate::expression::{node_at, ExprId, Form, Node, Tree};
use crate::integer::{BinaryOperator, ScalarType};
use crate::ir::{
    in_turn, logical_branch, lower_choice, lower_failure, lower_logical, lower_nothing, lower_one, lowered,
    lowered_arguments, lowered_element, lowered_elements, lowered_tree, piece_ops, unary_op,
    IrError, IrErrorKind, Lowering, Op, Piece, MAX_LOWERING_DEPTH,
};
use crate::token::Span;
use vstd::prelude::*;

verus! {

/// An instruction for pointers of another width.
pub open spec fn with_pointer_bits(op: Op, bits: u8) -> Op {
    match op {
        Op::Cast(target, _) => Op::Cast(target, bits),
        Op::AscribeInteger(target, _) => Op::AscribeInteger(target, bits),
        Op::SignedLiteralNegate(target, _) => Op::SignedLiteralNegate(target, bits),
        other => other,
    }
}

/// A program for pointers of another width.
pub open spec fn code_with_pointer_bits(code: Seq<Option<Op>>, bits: u8) -> Seq<Option<Op>> {
    code.map_values(
        |op: Option<Op>|
            match op {
                Some(op) => Some(with_pointer_bits(op, bits)),
                None => None,
            },
    )
}

spec fn widened(lowering: Lowering, bits: u8) -> Lowering {
    Lowering {
        pieces: lowering.pieces.map_values(
            |piece: Piece| Piece { op: with_pointer_bits(piece.op, bits), ..piece },
        ),
        error: lowering.error,
    }
}

/// The width of pointers changes nothing but the width in conversions, ascriptions and negated
/// literals: programs for two widths come from the same trees and agree in everything else.
pub proof fn pointer_width_changes_widths_only(
    tree: Tree,
    first: u8,
    second: u8,
    limit: int,
)
    requires
        0 <= limit,
    ensures
        match lowered_tree(tree, first, limit) {
            Ok(code) => lowered_tree(tree, second, limit) == Ok::<Seq<Option<Op>>, IrError>(
                code_with_pointer_bits(code, second),
            ),
            Err(error) => lowered_tree(tree, second, limit) == Err::<Seq<Option<Op>>, IrError>(
                error,
            ),
        },
{
    code_is_widened(tree.nodes, first, second, tree.root, 0, 0);
    let lowering = lowered(tree.nodes, first, tree.root, 0, 0);
    assert(piece_ops(widened(lowering, second).pieces) =~= code_with_pointer_bits(
        piece_ops(lowering.pieces),
        second,
    ));
    if lowering.pieces.len() > limit && 0 <= limit {
        assert(widened(lowering, second).pieces[limit].span == lowering.pieces[limit].span);
    }
}

proof fn widened_in_turn(first: Lowering, second: Lowering, bits: u8)
    ensures
        widened(in_turn(first, second), bits) == in_turn(
            widened(first, bits),
            widened(second, bits),
        ),
{
    assert(widened(in_turn(first, second), bits).pieces =~= in_turn(
        widened(first, bits),
        widened(second, bits),
    ).pieces);
}

proof fn widened_one(op: Op, span: Span, bits: u8)
    ensures
        widened(lower_one(op, span), bits) == lower_one(with_pointer_bits(op, bits), span),
        widened(lower_nothing(), bits) == lower_nothing(),
{
    assert(widened(lower_one(op, span), bits).pieces =~= lower_one(
        with_pointer_bits(op, bits),
        span,
    ).pieces);
    assert(widened(lower_nothing(), bits).pieces =~= lower_nothing().pieces);
}

proof fn widened_choice(
    test: Lowering,
    chosen: Lowering,
    other: Lowering,
    span: Span,
    base: int,
    bits: u8,
)
    ensures
        widened(lower_choice(test, chosen, other, span, base), bits) == lower_choice(
            widened(test, bits),
            widened(chosen, bits),
            widened(other, bits),
            span,
            base,
        ),
{
    let other_start = base + test.pieces.len() + 1 + chosen.pieces.len() + 1;
    let end = other_start + other.pieces.len();
    let false_jump = lower_one(Op::JumpIfFalse(other_start), span);
    let end_jump = lower_one(Op::Jump(end), span);
    let end_tail = in_turn(end_jump, other);
    let chosen_tail = in_turn(chosen, end_tail);
    widened_one(Op::JumpIfFalse(other_start), span, bits);
    widened_one(Op::Jump(end), span, bits);
    widened_in_turn(end_jump, other, bits);
    widened_in_turn(chosen, end_tail, bits);
    widened_in_turn(false_jump, chosen_tail, bits);
    widened_in_turn(test, in_turn(false_jump, chosen_tail), bits);
}

proof fn widened_logical(
    operator: BinaryOperator,
    left: Lowering,
    right: Lowering,
    span: Span,
    base: int,
    bits: u8,
)
    ensures
        widened(lower_logical(operator, left, right, span, base), bits) == lower_logical(
            operator,
            widened(left, bits),
            widened(right, bits),
            span,
            base,
        ),
{
    let end = base + left.pieces.len() + 1 + right.pieces.len() + 1;
    let branch = lower_one(logical_branch(operator, end), span);
    let normalize = lower_one(Op::NormalizeBool, span);
    widened_one(logical_branch(operator, end), span, bits);
    widened_one(Op::NormalizeBool, span, bits);
    widened_in_turn(right, normalize, bits);
    widened_in_turn(branch, in_turn(right, normalize), bits);
    widened_in_turn(left, in_turn(branch, in_turn(right, normalize)), bits);
}

proof fn code_is_widened(
    nodes: Seq<Option<Node>>,
    bits: u8,
    other_bits: u8,
    id: ExprId,
    depth: int,
    base: int,
)
    ensures
        lowered(nodes, other_bits, id, depth, base) == widened(
            lowered(nodes, bits, id, depth, base),
            other_bits,
        ),
    decreases MAX_LOWERING_DEPTH - depth, 0int,
{
    let lowering = lowered(nodes, bits, id, depth, base);
    let other_lowering = lowered(nodes, other_bits, id, depth, base);
    if node_at(nodes, id) is Some && depth < MAX_LOWERING_DEPTH {
        let node = node_at(nodes, id)->0;
        match node.form {
            Form::Call { callee, arguments, argument_count } => {
                arguments_are_widened(
                    nodes, bits, other_bits, arguments, argument_count as int, node.span, depth + 1,
                    base,
                );
                let op = Op::CallConstant(callee, argument_count);
                widened_one(op, node.span, other_bits);
                widened_in_turn(
                    lowered_arguments(
                        nodes, bits, arguments, argument_count as int, node.span, depth + 1, base,
                    ),
                    lower_one(op, node.span),
                    other_bits,
                );
            },
            Form::Index { base: array, index } => {
                if let Some(Node { form: Form::Integer { value, .. }, .. }) = node_at(nodes, index) {
                    element_is_widened(
                        nodes, bits, other_bits, array, value as int, depth + 1, base,
                    );
                }
            },
            Form::Cast { operand, target } => {
                operator_is_widened(
                    nodes, bits, other_bits, operand, Op::Cast(target, bits), node.span, depth + 1,
                    base,
                );
            },
            Form::Ascribe { operand, target } => {
                let op = match target {
                    ScalarType::Integer(target) => Op::AscribeInteger(target, bits),
                    ScalarType::Bool => Op::NormalizeBool,
                };
                operator_is_widened(
                    nodes, bits, other_bits, operand, op, node.span, depth + 1, base,
                );
            },
            Form::Unary { operator, operand } => {
                operator_is_widened(
                    nodes,
                    bits,
                    other_bits,
                    operand,
                    unary_op(nodes, bits, operator, operand, depth + 1),
                    node.span,
                    depth + 1,
                    base,
                );
            },
            Form::Binary { operator, left, right } => {
                let first = lowered(nodes, bits, left, depth + 1, base);
                code_is_widened(nodes, bits, other_bits, left, depth + 1, base);
                if operator == BinaryOperator::LogicalAnd || operator == BinaryOperator::LogicalOr {
                    let at = base + first.pieces.len() + 1;
                    let second = lowered(nodes, bits, right, depth + 1, at);
                    code_is_widened(nodes, bits, other_bits, right, depth + 1, at);
                    widened_logical(operator, first, second, node.span, base, other_bits);
                } else {
                    let at = base + first.pieces.len();
                    let second = lowered(nodes, bits, right, depth + 1, at);
                    let last = lower_one(Op::Binary(operator), node.span);
                    code_is_widened(nodes, bits, other_bits, right, depth + 1, at);
                    widened_one(Op::Binary(operator), node.span, other_bits);
                    widened_in_turn(second, last, other_bits);
                    widened_in_turn(first, in_turn(second, last), other_bits);
                }
            },
            Form::If { condition, then_branch, else_branch }
            | Form::LoopBreakIf { condition, then_branch, else_branch } => {
                let test = lowered(nodes, bits, condition, depth + 1, base);
                let chosen_start = base + test.pieces.len() + 1;
                let chosen = lowered(nodes, bits, then_branch, depth + 1, chosen_start);
                let other_start = chosen_start + chosen.pieces.len() + 1;
                let other = lowered(nodes, bits, else_branch, depth + 1, other_start);
                code_is_widened(nodes, bits, other_bits, condition, depth + 1, base);
                code_is_widened(nodes, bits, other_bits, then_branch, depth + 1, chosen_start);
                code_is_widened(nodes, bits, other_bits, else_branch, depth + 1, other_start);
                widened_choice(test, chosen, other, node.span, base, other_bits);
            },
            Form::Return { operand }
            | Form::LoopBreak { operand }
            | Form::InlineConst { operand } => {
                code_is_widened(nodes, bits, other_bits, operand, depth + 1, base);
            },
            Form::Sequence { first, then } => {
                let discarded = lowered(nodes, bits, first, depth + 1, base);
                let at = base + discarded.pieces.len() + 1;
                let pop = lower_one(Op::Pop, node.span);
                let rest = lowered(nodes, bits, then, depth + 1, at);
                code_is_widened(nodes, bits, other_bits, first, depth + 1, base);
                code_is_widened(nodes, bits, other_bits, then, depth + 1, at);
                widened_one(Op::Pop, node.span, other_bits);
                widened_in_turn(pop, rest, other_bits);
                widened_in_turn(discarded, in_turn(pop, rest), other_bits);
            },
            _ => {},
        }
    }
    match node_at(nodes, id) {
        Some(Node { form: Form::Unit, .. })
        | Some(Node { form: Form::DefaultValue, .. })
        | Some(Node { form: Form::Integer { .. }, .. })
        | Some(Node { form: Form::Bool(_), .. })
        | Some(Node { form: Form::Char(_), .. })
        | Some(Node { form: Form::Identifier(_), .. }) => {
            assert(other_lowering.pieces =~= widened(lowering, other_bits).pieces);
        },
        _ => {
            if lowering.pieces.len() == 0 && other_lowering.pieces.len() == 0 {
                assert(other_lowering.pieces =~= widened(lowering, other_bits).pieces);
            }
        },
    }
}

proof fn operator_is_widened(
    nodes: Seq<Option<Node>>,
    bits: u8,
    other_bits: u8,
    operand: ExprId,
    op: Op,
    span: Span,
    depth: int,
    base: int,
)
    ensures
        in_turn(
            lowered(nodes, other_bits, operand, depth, base),
            lower_one(with_pointer_bits(op, other_bits), span),
        ) == widened(
            in_turn(lowered(nodes, bits, operand, depth, base), lower_one(op, span)),
            other_bits,
        ),
    decreases MAX_LOWERING_DEPTH - depth, 1int,
{
    code_is_widened(nodes, bits, other_bits, operand, depth, base);
    widened_one(op, span, other_bits);
    widened_in_turn(lowered(nodes, bits, operand, depth, base), lower_one(op, span), other_bits);
}

proof fn arguments_are_widened(
    nodes: Seq<Option<Node>>,
    bits: u8,
    other_bits: u8,
    ids: Seq<Option<ExprId>>,
    count: int,
    span: Span,
    depth: int,
    base: int,
)
    ensures
        lowered_arguments(nodes, other_bits, ids, count, span, depth, base) == widened(
            lowered_arguments(nodes, bits, ids, count, span, depth, base),
            other_bits,
        ),
    decreases MAX_LOWERING_DEPTH - depth, 1 + if count > 0 { count } else { 0 },
{
    widened_one(Op::Pop, span, other_bits);
    if count > 0 {
        let before = lowered_arguments(nodes, bits, ids, count - 1, span, depth, base);
        let at = base + before.pieces.len();
        arguments_are_widened(nodes, bits, other_bits, ids, count - 1, span, depth, base);
        match ids[count - 1] {
            Some(id) => {
                code_is_widened(nodes, bits, other_bits, id, depth, at);
                widened_in_turn(before, lowered(nodes, bits, id, depth, at), other_bits);
            },
            None => {
                let lost = lower_failure(IrErrorKind::MissingExpression, span);
                assert(widened(lost, other_bits).pieces =~= lost.pieces);
                widened_in_turn(before, lost, other_bits);
            },
        }
    }
}

proof fn elements_are_widened(
    nodes: Seq<Option<Node>>,
    bits: u8,
    other_bits: u8,
    ids: Seq<Option<ExprId>>,
    count: int,
    index: int,
    span: Span,
    depth: int,
    base: int,
)
    ensures
        lowered_elements(nodes, other_bits, ids, count, index, span, depth, base) == widened(
            lowered_elements(nodes, bits, ids, count, index, span, depth, base),
            other_bits,
        ),
    decreases MAX_LOWERING_DEPTH - depth, 1 + if count > 0 { count } else { 0 },
{
    widened_one(Op::Pop, span, other_bits);
    if count > 0 {
        let before = lowered_elements(nodes, bits, ids, count - 1, index, span, depth, base);
        let at = base + before.pieces.len();
        elements_are_widened(nodes, bits, other_bits, ids, count - 1, index, span, depth, base);
        match ids[count - 1] {
            Some(id) => {
                let element = lowered(nodes, bits, id, depth, at);
                let last = if count - 1 != index {
                    lower_one(Op::Pop, span)
                } else {
                    lower_nothing()
                };
                code_is_widened(nodes, bits, other_bits, id, depth, at);
                widened_in_turn(element, last, other_bits);
                widened_in_turn(before, in_turn(element, last), other_bits);
            },
            None => {
                let lost = lower_failure(
                    IrErrorKind::InvalidExpressionTree,
                    span,
                );
                assert(widened(lost, other_bits).pieces =~= lost.pieces);
                widened_in_turn(before, lost, other_bits);
            },
        }
    }
}

proof fn element_is_widened(
    nodes: Seq<Option<Node>>,
    bits: u8,
    other_bits: u8,
    id: ExprId,
    index: int,
    depth: int,
    base: int,
)
    ensures
        lowered_element(nodes, other_bits, id, index, depth, base) == widened(
            lowered_element(nodes, bits, id, index, depth, base),
            other_bits,
        ),
    decreases MAX_LOWERING_DEPTH - depth, 0int,
{
    let lowering = lowered_element(nodes, bits, id, index, depth, base);
    let other_lowering = lowered_element(nodes, other_bits, id, index, depth, base);
    if node_at(nodes, id) is Some && depth < MAX_LOWERING_DEPTH {
        let node = node_at(nodes, id)->0;
        widened_one(Op::PushInteger(0), node.span, other_bits);
        match node.form {
            Form::Array { elements, element_count } => {
                elements_are_widened(
                    nodes, bits, other_bits, elements, element_count as int, index, node.span,
                    depth + 1, base,
                );
            },
            Form::ArrayRepeat { element, .. } => {
                code_is_widened(nodes, bits, other_bits, element, depth + 1, base);
            },
            Form::If { condition, then_branch, else_branch }
            | Form::LoopBreakIf { condition, then_branch, else_branch } => {
                let test = lowered(nodes, bits, condition, depth + 1, base);
                let chosen_start = base + test.pieces.len() + 1;
                let chosen = lowered_element(
                    nodes, bits, then_branch, index, depth + 1, chosen_start,
                );
                let other_start = chosen_start + chosen.pieces.len() + 1;
                let other = lowered_element(nodes, bits, else_branch, index, depth + 1, other_start);
                code_is_widened(nodes, bits, other_bits, condition, depth + 1, base);
                element_is_widened(
                    nodes, bits, other_bits, then_branch, index, depth + 1, chosen_start,
                );
                element_is_widened(
                    nodes, bits, other_bits, else_branch, index, depth + 1, other_start,
                );
                widened_choice(test, chosen, other, node.span, base, other_bits);
            },
            Form::InlineConst { operand }
            | Form::LoopBreak { operand }
            | Form::Return { operand } => {
                element_is_widened(nodes, bits, other_bits, operand, index, depth + 1, base);
            },
            Form::Sequence { first, then } => {
                let discarded = lowered(nodes, bits, first, depth + 1, base);
                let at = base + discarded.pieces.len() + 1;
                let pop = lower_one(Op::Pop, node.span);
                let rest = lowered_element(nodes, bits, then, index, depth + 1, at);
                code_is_widened(nodes, bits, other_bits, first, depth + 1, base);
                element_is_widened(nodes, bits, other_bits, then, index, depth + 1, at);
                widened_one(Op::Pop, node.span, other_bits);
                widened_in_turn(pop, rest, other_bits);
                widened_in_turn(discarded, in_turn(pop, rest), other_bits);
            },
            _ => {},
        }
    }
    if lowering.pieces.len() == 0 && other_lowering.pieces.len() == 0 {
        assert(other_lowering.pieces =~= widened(lowering, other_bits).pieces);
    }
}

} // verus!
