//! What holds of trees and programs as a whole.
use crate::expression::{
    boolean_form, element_evaluation, evaluation, evaluations, id_known, node_at, nodes_closed,
    slots_known, ConstantResolver, ExprId, ExpressionError, Form, Node, Tree, MAX_EXPRESSION_DEPTH,
};
use crate::grammar::{next_is, parsed_atom_from, parsed_expression, take, Parsing, Word};
use crate::integer::{BinaryOperator, ConstEvalError};
use crate::ir::{
    lowered, lowered_arguments, lowered_element, lowered_elements, lowered_tree, IrError,
    IrErrorKind, Lowering, Op, MAX_LOWERING_DEPTH,
};
use crate::rules::{parsed_atom_from_rule, parsed_parentheses_rule, parsed_plain_atom_rule};
use crate::token::{Span, TokenKind};
use vstd::prelude::*;

verus! {

/// Whether lowering looked for no node that is not there.
pub open spec fn misses_nothing(lowering: Lowering) -> bool {
    lowering.error matches Some(error) ==> error.kind != IrErrorKind::MissingExpression
}

/// A program is made from the nodes that are there: where each id is that of a node, lowering
/// never lacks one.
pub proof fn lowering_finds_each_node(tree: Tree, limit: int, pointer_bits: u8, capacity: int)
    requires
        tree.sound(limit),
    ensures
        lowered_tree(tree, pointer_bits, capacity) matches Err(error) ==> error.kind
            != IrErrorKind::MissingExpression,
{
    lowering_misses_nothing(tree.nodes, pointer_bits, tree.root, 0, 0);
}

proof fn lowering_misses_nothing(
    nodes: Seq<Option<Node>>,
    pointer_bits: u8,
    id: ExprId,
    depth: int,
    base: int,
)
    requires
        nodes_closed(nodes),
        id_known(id, nodes.len() as int),
    ensures
        misses_nothing(lowered(nodes, pointer_bits, id, depth, base)),
    decreases MAX_LOWERING_DEPTH - depth, 0int,
{
    reveal(nodes_closed);
    let node = nodes[id.0 as int]->0;
    assert(node_at(nodes, id) == Some(node));
    if depth < MAX_LOWERING_DEPTH {
        match node.form {
            Form::Call { arguments, argument_count, .. } => {
                arguments_miss_nothing(
                    nodes,
                    pointer_bits,
                    arguments,
                    argument_count,
                    argument_count as int,
                    node.span,
                    depth + 1,
                    base,
                );
            },
            Form::Index { base: array, index } => {
                let place = nodes[index.0 as int]->0;
                assert(node_at(nodes, index) == Some(place));
                if let Form::Integer { value, .. } = place.form {
                    element_misses_nothing(
                        nodes,
                        pointer_bits,
                        array,
                        value as int,
                        depth + 1,
                        base,
                    );
                }
            },
            Form::Cast { operand, .. }
            | Form::Ascribe { operand, .. }
            | Form::Unary { operand, .. }
            | Form::Return { operand }
            | Form::LoopBreak { operand }
            | Form::InlineConst { operand } => {
                lowering_misses_nothing(nodes, pointer_bits, operand, depth + 1, base);
            },
            Form::Binary { operator, left, right } => {
                let first = lowered(nodes, pointer_bits, left, depth + 1, base);
                lowering_misses_nothing(nodes, pointer_bits, left, depth + 1, base);
                lowering_misses_nothing(
                    nodes,
                    pointer_bits,
                    right,
                    depth + 1,
                    base + first.pieces.len() + 1,
                );
                lowering_misses_nothing(
                    nodes,
                    pointer_bits,
                    right,
                    depth + 1,
                    base + first.pieces.len(),
                );
            },
            Form::If { condition, then_branch, else_branch }
            | Form::LoopBreakIf { condition, then_branch, else_branch } => {
                let test = lowered(nodes, pointer_bits, condition, depth + 1, base);
                let chosen_start = base + test.pieces.len() + 1;
                let chosen = lowered(nodes, pointer_bits, then_branch, depth + 1, chosen_start);
                let other_start = chosen_start + chosen.pieces.len() + 1;
                lowering_misses_nothing(nodes, pointer_bits, condition, depth + 1, base);
                lowering_misses_nothing(nodes, pointer_bits, then_branch, depth + 1, chosen_start);
                lowering_misses_nothing(nodes, pointer_bits, else_branch, depth + 1, other_start);
            },
            Form::Sequence { first, then } => {
                let discarded = lowered(nodes, pointer_bits, first, depth + 1, base);
                lowering_misses_nothing(nodes, pointer_bits, first, depth + 1, base);
                lowering_misses_nothing(
                    nodes,
                    pointer_bits,
                    then,
                    depth + 1,
                    base + discarded.pieces.len() + 1,
                );
            },
            _ => {},
        }
    }
}

proof fn arguments_miss_nothing(
    nodes: Seq<Option<Node>>,
    pointer_bits: u8,
    ids: Seq<Option<ExprId>>,
    filled: usize,
    count: int,
    span: Span,
    depth: int,
    base: int,
)
    requires
        nodes_closed(nodes),
        slots_known(ids, filled, nodes.len() as int),
        count <= filled,
    ensures
        misses_nothing(lowered_arguments(nodes, pointer_bits, ids, count, span, depth, base)),
    decreases MAX_LOWERING_DEPTH - depth, count,
{
    if count > 0 {
        let before = lowered_arguments(nodes, pointer_bits, ids, count - 1, span, depth, base);
        arguments_miss_nothing(nodes, pointer_bits, ids, filled, count - 1, span, depth, base);
        lowering_misses_nothing(
            nodes,
            pointer_bits,
            ids[count - 1]->0,
            depth,
            base + before.pieces.len(),
        );
    }
}

proof fn elements_miss_nothing(
    nodes: Seq<Option<Node>>,
    pointer_bits: u8,
    ids: Seq<Option<ExprId>>,
    filled: usize,
    count: int,
    index: int,
    span: Span,
    depth: int,
    base: int,
)
    requires
        nodes_closed(nodes),
        slots_known(ids, filled, nodes.len() as int),
        count <= filled,
    ensures
        misses_nothing(lowered_elements(nodes, pointer_bits, ids, count, index, span, depth, base)),
    decreases MAX_LOWERING_DEPTH - depth, count,
{
    if count > 0 {
        let before = lowered_elements(
            nodes,
            pointer_bits,
            ids,
            count - 1,
            index,
            span,
            depth,
            base,
        );
        elements_miss_nothing(
            nodes,
            pointer_bits,
            ids,
            filled,
            count - 1,
            index,
            span,
            depth,
            base,
        );
        lowering_misses_nothing(
            nodes,
            pointer_bits,
            ids[count - 1]->0,
            depth,
            base + before.pieces.len(),
        );
    }
}

proof fn element_misses_nothing(
    nodes: Seq<Option<Node>>,
    pointer_bits: u8,
    id: ExprId,
    index: int,
    depth: int,
    base: int,
)
    requires
        nodes_closed(nodes),
        id_known(id, nodes.len() as int),
    ensures
        misses_nothing(lowered_element(nodes, pointer_bits, id, index, depth, base)),
    decreases MAX_LOWERING_DEPTH - depth, 0int,
{
    reveal(nodes_closed);
    let node = nodes[id.0 as int]->0;
    assert(node_at(nodes, id) == Some(node));
    if depth < MAX_LOWERING_DEPTH {
        match node.form {
            Form::Array { elements, element_count } => {
                elements_miss_nothing(
                    nodes,
                    pointer_bits,
                    elements,
                    element_count,
                    element_count as int,
                    index,
                    node.span,
                    depth + 1,
                    base,
                );
            },
            Form::ArrayRepeat { element, .. } => {
                lowering_misses_nothing(nodes, pointer_bits, element, depth + 1, base);
            },
            Form::If { condition, then_branch, else_branch }
            | Form::LoopBreakIf { condition, then_branch, else_branch } => {
                let test = lowered(nodes, pointer_bits, condition, depth + 1, base);
                let chosen_start = base + test.pieces.len() + 1;
                let chosen = lowered_element(
                    nodes,
                    pointer_bits,
                    then_branch,
                    index,
                    depth + 1,
                    chosen_start,
                );
                let other_start = chosen_start + chosen.pieces.len() + 1;
                lowering_misses_nothing(nodes, pointer_bits, condition, depth + 1, base);
                element_misses_nothing(
                    nodes,
                    pointer_bits,
                    then_branch,
                    index,
                    depth + 1,
                    chosen_start,
                );
                element_misses_nothing(
                    nodes,
                    pointer_bits,
                    else_branch,
                    index,
                    depth + 1,
                    other_start,
                );
            },
            Form::InlineConst { operand }
            | Form::LoopBreak { operand }
            | Form::Return { operand } => {
                element_misses_nothing(nodes, pointer_bits, operand, index, depth + 1, base);
            },
            Form::Sequence { first, then } => {
                let discarded = lowered(nodes, pointer_bits, first, depth + 1, base);
                lowering_misses_nothing(nodes, pointer_bits, first, depth + 1, base);
                element_misses_nothing(
                    nodes,
                    pointer_bits,
                    then,
                    index,
                    depth + 1,
                    base + discarded.pieces.len() + 1,
                );
            },
            _ => {},
        }
    }
}

/// A program has no more instructions than it may have, and no gaps.
pub proof fn programs_keep_their_limit(
    tree: Tree,
    pointer_bits: u8,
    limit: int,
    code: Seq<Option<Op>>,
)
    requires
        lowered_tree(tree, pointer_bits, limit) == Ok::<
            Seq<Option<Op>>,
            IrError,
        >(code),
    ensures
        code.len() <= limit,
        forall|i: int| 0 <= i < code.len() ==> #[trigger] code[i] is Some,
{
}

/// The value of an expression that is a truth value by its form is zero or one.
pub proof fn truth_values_are_zero_or_one<R: ConstantResolver>(
    nodes: Seq<Option<Node>>,
    resolver: &R,
    id: ExprId,
    depth: int,
)
    requires
        boolean_form(nodes, id, depth),
    ensures
        evaluation(nodes, resolver, id, depth) matches Ok(value) ==> value <= 1,
    decreases MAX_EXPRESSION_DEPTH - depth,
{
    if depth < MAX_EXPRESSION_DEPTH {
        match node_at(nodes, id) {
            None => {},
            Some(node) => match node.form {
                Form::Sequence { then, .. } => {
                    truth_values_are_zero_or_one(nodes, resolver, then, depth + 1);
                },
                Form::If { then_branch, else_branch, .. }
                | Form::LoopBreakIf { then_branch, else_branch, .. } => {
                    truth_values_are_zero_or_one(nodes, resolver, then_branch, depth + 1);
                    truth_values_are_zero_or_one(nodes, resolver, else_branch, depth + 1);
                },
                Form::Return { operand }
                | Form::LoopBreak { operand }
                | Form::InlineConst { operand } => {
                    truth_values_are_zero_or_one(nodes, resolver, operand, depth + 1);
                },
                _ => {},
            },
        }
    }
}

/// A logical operator does not look at its right operand where the left one decides.
pub proof fn logical_operators_stop_early<R: ConstantResolver>(
    nodes: Seq<Option<Node>>,
    resolver: &R,
    id: ExprId,
    depth: int,
    node: Node,
    operator: BinaryOperator,
    left: ExprId,
    right: ExprId,
    first: u128,
)
    requires
        0 <= depth < MAX_EXPRESSION_DEPTH,
        node_at(nodes, id) == Some(node),
        node.form == (Form::Binary { operator, left, right }),
        evaluation(nodes, resolver, left, depth + 1) == Ok::<u128, ConstEvalError>(first),
    ensures
        operator == BinaryOperator::LogicalAnd && first == 0 ==> evaluation(
            nodes,
            resolver,
            id,
            depth,
        ) == Ok::<u128, ConstEvalError>(0),
        operator == BinaryOperator::LogicalOr && first != 0 ==> evaluation(
            nodes,
            resolver,
            id,
            depth,
        ) == Ok::<u128, ConstEvalError>(1),
{
}

/// A choice evaluates the branch that its condition chooses and no other.
pub proof fn choices_evaluate_one_branch<R: ConstantResolver>(
    nodes: Seq<Option<Node>>,
    resolver: &R,
    id: ExprId,
    depth: int,
    node: Node,
    condition: ExprId,
    then_branch: ExprId,
    else_branch: ExprId,
    value: u128,
)
    requires
        0 <= depth < MAX_EXPRESSION_DEPTH,
        node_at(nodes, id) == Some(node),
        node.form == (Form::If { condition, then_branch, else_branch }) || node.form == (
        Form::LoopBreakIf { condition, then_branch, else_branch }),
        evaluation(nodes, resolver, condition, depth + 1) == Ok::<u128, ConstEvalError>(value),
    ensures
        evaluation(nodes, resolver, id, depth) == evaluation(
            nodes,
            resolver,
            if value != 0 {
                then_branch
            } else {
                else_branch
            },
            depth + 1,
        ),
{
}

/// Whether two resolvers know the same values.
pub open spec fn answer_alike<R: ConstantResolver, S: ConstantResolver>(first: &R, second: &S) -> bool {
    &&& forall|name: Seq<char>| #[trigger] first.value_of(name) == second.value_of(name)
    &&& forall|name: Seq<char>, arguments: Seq<u128>| #[trigger]
        first.call_value(name, arguments) == second.call_value(name, arguments)
}

/// What an expression stands for depends on nothing of a resolver but the values that it knows.
pub proof fn evaluation_asks_for_values_only<R: ConstantResolver, S: ConstantResolver>(
    nodes: Seq<Option<Node>>,
    first: &R,
    second: &S,
    id: ExprId,
    depth: int,
)
    requires
        answer_alike(first, second),
    ensures
        evaluation(nodes, first, id, depth) == evaluation(nodes, second, id, depth),
    decreases MAX_EXPRESSION_DEPTH - depth, 0int,
{
    if depth < MAX_EXPRESSION_DEPTH {
        match node_at(nodes, id) {
            None => {},
            Some(node) => match node.form {
                Form::Call { callee, arguments, argument_count } => {
                    evaluations_ask_for_values_only(
                        nodes,
                        first,
                        second,
                        arguments,
                        argument_count as int,
                        depth + 1,
                    );
                    if let Ok(values) = evaluations(
                        nodes,
                        first,
                        arguments,
                        argument_count as int,
                        depth + 1,
                    ) {
                        assert(first.call_value(callee, values) == second.call_value(
                            callee,
                            values,
                        ));
                    }
                },
                Form::Identifier(name) => {
                    assert(first.value_of(name) == second.value_of(name));
                },
                Form::Cast { operand, .. }
                | Form::Ascribe { operand, .. }
                | Form::Unary { operand, .. }
                | Form::Return { operand }
                | Form::LoopBreak { operand }
                | Form::InlineConst { operand } => {
                    evaluation_asks_for_values_only(nodes, first, second, operand, depth + 1);
                },
                Form::Binary { left, right, .. } => {
                    evaluation_asks_for_values_only(nodes, first, second, left, depth + 1);
                    evaluation_asks_for_values_only(nodes, first, second, right, depth + 1);
                },
                Form::If { condition, then_branch, else_branch }
                | Form::LoopBreakIf { condition, then_branch, else_branch } => {
                    evaluation_asks_for_values_only(nodes, first, second, condition, depth + 1);
                    evaluation_asks_for_values_only(nodes, first, second, then_branch, depth + 1);
                    evaluation_asks_for_values_only(nodes, first, second, else_branch, depth + 1);
                },
                Form::Sequence { first: before, then } => {
                    evaluation_asks_for_values_only(nodes, first, second, before, depth + 1);
                    evaluation_asks_for_values_only(nodes, first, second, then, depth + 1);
                },
                Form::Index { base, index } => {
                    evaluation_asks_for_values_only(nodes, first, second, index, depth + 1);
                    if let Ok(value) = evaluation(nodes, first, index, depth + 1) {
                        element_asks_for_values_only(nodes, first, second, base, value, depth + 1);
                    }
                },
                _ => {},
            },
        }
    }
}

proof fn evaluations_ask_for_values_only<R: ConstantResolver, S: ConstantResolver>(
    nodes: Seq<Option<Node>>,
    first: &R,
    second: &S,
    ids: Seq<Option<ExprId>>,
    count: int,
    depth: int,
)
    requires
        answer_alike(first, second),
    ensures
        evaluations(nodes, first, ids, count, depth) == evaluations(
            nodes,
            second,
            ids,
            count,
            depth,
        ),
    decreases MAX_EXPRESSION_DEPTH - depth, count,
{
    if count > 0 {
        evaluations_ask_for_values_only(nodes, first, second, ids, count - 1, depth);
        if let Some(id) = ids[count - 1] {
            evaluation_asks_for_values_only(nodes, first, second, id, depth);
        }
    }
}

proof fn element_asks_for_values_only<R: ConstantResolver, S: ConstantResolver>(
    nodes: Seq<Option<Node>>,
    first: &R,
    second: &S,
    id: ExprId,
    index: u128,
    depth: int,
)
    requires
        answer_alike(first, second),
    ensures
        element_evaluation(nodes, first, id, index, depth) == element_evaluation(
            nodes,
            second,
            id,
            index,
            depth,
        ),
    decreases MAX_EXPRESSION_DEPTH - depth, 0int,
{
    if depth < MAX_EXPRESSION_DEPTH {
        match node_at(nodes, id) {
            None => {},
            Some(node) => match node.form {
                Form::Array { elements, element_count } => {
                    evaluations_ask_for_values_only(
                        nodes,
                        first,
                        second,
                        elements,
                        element_count as int,
                        depth + 1,
                    );
                },
                Form::ArrayRepeat { element, .. } => {
                    evaluation_asks_for_values_only(nodes, first, second, element, depth + 1);
                },
                Form::If { condition, then_branch, else_branch }
                | Form::LoopBreakIf { condition, then_branch, else_branch } => {
                    evaluation_asks_for_values_only(nodes, first, second, condition, depth + 1);
                    element_asks_for_values_only(
                        nodes,
                        first,
                        second,
                        then_branch,
                        index,
                        depth + 1,
                    );
                    element_asks_for_values_only(
                        nodes,
                        first,
                        second,
                        else_branch,
                        index,
                        depth + 1,
                    );
                },
                Form::InlineConst { operand }
                | Form::LoopBreak { operand }
                | Form::Return { operand } => {
                    element_asks_for_values_only(nodes, first, second, operand, index, depth + 1);
                },
                Form::Sequence { first: before, then } => {
                    evaluation_asks_for_values_only(nodes, first, second, before, depth + 1);
                    element_asks_for_values_only(nodes, first, second, then, index, depth + 1);
                },
                _ => {},
            },
        }
    }
}

/// Parentheses add no node and change no meaning: what stands between them is read as it is read
/// alone, and stands for the whole.
pub proof fn parentheses_add_nothing(
    p: Parsing,
    open: Word,
    depth: int,
    q: Parsing,
    id: ExprId,
    after: Parsing,
    close: Word,
)
    requires
        depth < MAX_EXPRESSION_DEPTH,
        open.kind == TokenKind::OpenParen,
        open.text == "("@,
        next_is(p, TokenKind::CloseParen) matches Ok((peeked, false)) && parsed_expression(
            peeked,
            0,
            depth + 1,
        ) == Ok::<(Parsing, ExprId), ExpressionError>((q, id)),
        take(q) == Ok::<(Parsing, Option<Word>), ExpressionError>((after, Some(close))),
        close.kind == TokenKind::CloseParen,
    ensures
        parsed_atom_from(p, open, depth) == Ok::<(Parsing, ExprId), ExpressionError>((after, id)),
        after.nodes == q.nodes,
        after.ranges == q.ranges,
{
    reveal_strlit("(");
    reveal_strlit("break");
    reveal_strlit("if");
    reveal_strlit("match");
    reveal_strlit("loop");
    reveal_strlit("const");
    parsed_atom_from_rule(p, open, depth);
    parsed_plain_atom_rule(p, open, depth);
    parsed_parentheses_rule(p, open, depth);
    let first = "("@;
    assert(first.len() == 1);
    assert("break"@.len() == 5 && "if"@.len() == 2 && "match"@.len() == 5 && "loop"@.len() == 4
        && "const"@.len() == 5);
}

} // verus!
