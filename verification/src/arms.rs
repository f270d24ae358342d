//! What a `match` stands for.
use crate::expression::{
    evaluation, node_at, ConstantResolver, ExprId, ExpressionError, ExpressionErrorKind, Form, Node,
    MAX_EXPRESSION_DEPTH,
};
use crate::grammar::{
    alternatives_condition, body_condition, deciding_body, decision, expect_kind,
    guarded_condition, parsed_arms, parsed_expression, parsed_match, push_node, upper_operator, Arm, Arms,
    Parsing, Pattern, PatternBody, Word,
};

use crate::integer::{binary_value, BinaryOperator, ConstEvalError};
use crate::limits::{expect_kind_limited, parsed_arms_limited, parsed_expression_limited};
use crate::rules::parsed_match_rule;
use crate::token::{Span, TokenKind};
use vstd::prelude::*;

verus! {

/// Whether two values compare as an operator asks for.
pub open spec fn compares<R: ConstantResolver>(
    nodes: Seq<Option<Node>>,
    resolver: &R,
    operator: BinaryOperator,
    left: ExprId,
    right: ExprId,
    depth: int,
) -> Result<bool, ConstEvalError> {
    if depth >= MAX_EXPRESSION_DEPTH {
        Err(ConstEvalError::NestingLimitExceeded)
    } else {
        match evaluation(nodes, resolver, left, depth + 1) {
            Err(error) => Err(error),
            Ok(first) => match evaluation(nodes, resolver, right, depth + 1) {
                Err(error) => Err(error),
                Ok(second) => match binary_value(operator, first, second) {
                    Err(error) => Err(error),
                    Ok(value) => Ok(value != 0),
                },
            },
        }
    }
}

/// Whether the scrutinee has the value of a pattern, or one of its range.
pub open spec fn body_matches<R: ConstantResolver>(
    nodes: Seq<Option<Node>>,
    resolver: &R,
    scrutinee: ExprId,
    body: PatternBody,
    depth: int,
) -> Result<bool, ConstEvalError> {
    match body {
        PatternBody::Wildcard => if depth >= MAX_EXPRESSION_DEPTH {
            Err(ConstEvalError::NestingLimitExceeded)
        } else {
            Ok(true)
        },
        PatternBody::Value(value) => compares(
            nodes,
            resolver,
            BinaryOperator::Equal,
            scrutinee,
            value,
            depth,
        ),
        PatternBody::Range { start, end, inclusive } => match (start, end) {
            (Some(start), Some(end)) => if depth >= MAX_EXPRESSION_DEPTH {
                Err(ConstEvalError::NestingLimitExceeded)
            } else {
                match compares(
                    nodes,
                    resolver,
                    BinaryOperator::GreaterEqual,
                    scrutinee,
                    start,
                    depth + 1,
                ) {
                    Err(error) => Err(error),
                    Ok(false) => Ok(false),
                    Ok(true) => compares(
                        nodes,
                        resolver,
                        upper_operator(inclusive),
                        scrutinee,
                        end,
                        depth + 1,
                    ),
                }
            },
            (Some(start), None) => compares(
                nodes,
                resolver,
                BinaryOperator::GreaterEqual,
                scrutinee,
                start,
                depth,
            ),
            (None, Some(end)) => compares(
                nodes,
                resolver,
                upper_operator(inclusive),
                scrutinee,
                end,
                depth,
            ),
            (None, None) => Ok(true),
        },
    }
}

/// Whether one of the first `count` alternatives matches.
pub open spec fn alternatives_match<R: ConstantResolver>(
    nodes: Seq<Option<Node>>,
    resolver: &R,
    scrutinee: ExprId,
    alternatives: Seq<Pattern>,
    count: int,
    depth: int,
) -> Result<bool, ConstEvalError>
    decreases count,
{
    if count <= 1 {
        body_matches(nodes, resolver, scrutinee, deciding_body(alternatives[0]), depth)
    } else if depth >= MAX_EXPRESSION_DEPTH {
        Err(ConstEvalError::NestingLimitExceeded)
    } else {
        match alternatives_match(
            nodes,
            resolver,
            scrutinee,
            alternatives,
            count - 1,
            depth + 1,
        ) {
            Err(error) => Err(error),
            Ok(true) => Ok(true),
            Ok(false) => body_matches(
                nodes,
                resolver,
                scrutinee,
                deciding_body(alternatives[count - 1]),
                depth + 1,
            ),
        }
    }
}

/// Whether an arm is to be taken: one of its alternatives matches and its guard holds.
pub open spec fn arm_matches<R: ConstantResolver>(
    nodes: Seq<Option<Node>>,
    resolver: &R,
    scrutinee: ExprId,
    arm: Arm,
    depth: int,
) -> Result<bool, ConstEvalError> {
    let count = arm.alternatives.len() as int;
    match arm.guard {
        None => alternatives_match(nodes, resolver, scrutinee, arm.alternatives, count, depth),
        Some(guard) => if depth >= MAX_EXPRESSION_DEPTH {
            Err(ConstEvalError::NestingLimitExceeded)
        } else {
            match alternatives_match(
                nodes,
                resolver,
                scrutinee,
                arm.alternatives,
                count,
                depth + 1,
            ) {
                Err(error) => Err(error),
                Ok(false) => Ok(false),
                Ok(true) => match evaluation(nodes, resolver, guard, depth + 1) {
                    Err(error) => Err(error),
                    Ok(value) => Ok(value != 0),
                },
            }
        },
    }
}

/// The value of the first arm from `from` on that is to be taken, or of what stands for all other
/// values.
pub open spec fn first_match<R: ConstantResolver>(
    nodes: Seq<Option<Node>>,
    resolver: &R,
    scrutinee: ExprId,
    arms: Seq<Arm>,
    from: int,
    otherwise: ExprId,
    depth: int,
) -> Result<u128, ConstEvalError>
    decreases arms.len() - from,
{
    if from < 0 || from >= arms.len() {
        evaluation(nodes, resolver, otherwise, depth)
    } else if depth >= MAX_EXPRESSION_DEPTH {
        Err(ConstEvalError::NestingLimitExceeded)
    } else {
        match arm_matches(nodes, resolver, scrutinee, arms[from], depth + 1) {
            Err(error) => Err(error),
            Ok(true) => evaluation(nodes, resolver, arms[from].branch, depth + 1),
            Ok(false) => first_match(
                nodes,
                resolver,
                scrutinee,
                arms,
                from + 1,
                otherwise,
                depth + 1,
            ),
        }
    }
}

/// The scrutinee and the arms of a `match`.
pub open spec fn match_parts(p: Parsing, word: Word, depth: int) -> Option<(ExprId, Arms)> {
    match parsed_expression(p, 0, depth + 1) {
        Err(_) => None,
        Ok((p, scrutinee)) => match expect_kind(
            p,
            TokenKind::OpenBrace,
            ExpressionErrorKind::ExpectedOpenBrace,
        ) {
            Err(_) => None,
            Ok((p, _)) => match parsed_arms(p, seq![], scrutinee, word, depth) {
                Err(_) => None,
                Ok((_, arms)) => Some((scrutinee, arms)),
            },
        },
    }
}

/// Evaluating a `match` that was read gives the first arm whose pattern matches and whose guard
/// holds, or what stands for all other values.
pub proof fn a_match_gives_its_first_matching_arm<R: ConstantResolver>(
    p: Parsing,
    word: Word,
    depth: int,
    q: Parsing,
    id: ExprId,
    resolver: &R,
    evaluation_depth: int,
)
    requires
        p.nodes.len() <= p.limit <= usize::MAX,
        parsed_match(p, word, depth) == Ok::<
            (Parsing, ExprId),
            ExpressionError,
        >((q, id)),
    ensures
        match_parts(p, word, depth) matches Some((scrutinee, all)) && evaluation(
            q.nodes,
            resolver,
            id,
            evaluation_depth,
        ) == first_match(
            q.nodes,
            resolver,
            scrutinee,
            all.arms,
            0,
            all.otherwise,
            evaluation_depth,
        ),
{
    parsed_match_rule(p, word, depth);
    parsed_expression_limited(p, 0, 0, depth + 1);
    if let Ok((p1, scrutinee)) = parsed_expression(p, 0, depth + 1) {
        let kind = ExpressionErrorKind::ExpectedOpenBrace;
        expect_kind_limited(p1, 0, TokenKind::OpenBrace, kind);
        if let Ok((p2, _)) = expect_kind(p1, TokenKind::OpenBrace, kind) {
            parsed_arms_limited(p2, 0, seq![], scrutinee, word, depth);
            if let Ok((p3, all)) = parsed_arms(p2, seq![], scrutinee, word, depth) {
                let span = Span { start: word.span.start, end: all.close.span.end };
                let count = all.arms.len() as int;
                decision_extends(
                    p3,
                    scrutinee,
                    all.arms,
                    count,
                    all.otherwise,
                    span,
                    word.span,
                );
                decision_gives_the_first_match(
                    p3,
                    scrutinee,
                    all.arms,
                    count,
                    all.otherwise,
                    span,
                    word.span,
                    q,
                    id,
                    q.nodes,
                    resolver,
                    evaluation_depth,
                );
            }
        }
    }
}

/// Whether nodes go on from others.
pub open spec fn extends(before: Seq<Option<Node>>, after: Seq<Option<Node>>) -> bool {
    &&& before.len() <= after.len()
    &&& forall|i: int| #![trigger after[i]] 0 <= i < before.len() ==> after[i] == before[i]
}

/// A truth value or an error as a number or that error.
spec fn number(value: Result<bool, ConstEvalError>) -> Result<u128, ConstEvalError> {
    match value {
        Err(error) => Err(error),
        Ok(true) => Ok(1),
        Ok(false) => Ok(0),
    }
}

proof fn comparison_compares<R: ConstantResolver>(
    nodes: Seq<Option<Node>>,
    resolver: &R,
    operator: BinaryOperator,
    left: ExprId,
    right: ExprId,
    id: ExprId,
    depth: int,
)
    requires
        node_at(nodes, id) matches Some(node) && node.form == (Form::Binary {
            operator,
            left,
            right,
        }),
        operator == BinaryOperator::Equal || operator == BinaryOperator::GreaterEqual || operator
            == BinaryOperator::Less || operator == BinaryOperator::LessEqual,
    ensures
        evaluation(nodes, resolver, id, depth) == number(
            compares(nodes, resolver, operator, left, right, depth),
        ),
{
}

proof fn condition_tests_the_body<R: ConstantResolver>(
    p: Parsing,
    scrutinee: ExprId,
    body: PatternBody,
    q: Parsing,
    id: ExprId,
    nodes: Seq<Option<Node>>,
    resolver: &R,
    depth: int,
)
    requires
        p.nodes.len() <= p.limit <= usize::MAX,
        body_condition(p, scrutinee, body) == Ok::<
            (Parsing, ExprId),
            ExpressionError,
        >((q, id)),
        extends(q.nodes, nodes),
    ensures
        extends(p.nodes, q.nodes),
        q.limit == p.limit,
        q.nodes.len() <= q.limit,
        evaluation(nodes, resolver, id, depth) == number(
            body_matches(nodes, resolver, scrutinee, body, depth),
        ),
{
    reveal(body_condition);
    let count = q.nodes.len() as int;
    assert(nodes[count - 1] == q.nodes[count - 1]);
    match body {
        PatternBody::Wildcard => {},
        PatternBody::Value(value) => {
            comparison_compares(
                nodes,
                resolver,
                BinaryOperator::Equal,
                scrutinee,
                value,
                id,
                depth,
            );
        },
        PatternBody::Range { start, end, inclusive } => match (start, end) {
            (Some(start), Some(end)) => {
                let lower = ExprId((count - 3) as usize);
                let upper = ExprId((count - 2) as usize);
                assert(nodes[count - 2] == q.nodes[count - 2]);
                assert(nodes[count - 3] == q.nodes[count - 3]);
                comparison_compares(
                    nodes,
                    resolver,
                    BinaryOperator::GreaterEqual,
                    scrutinee,
                    start,
                    lower,
                    depth + 1,
                );
                comparison_compares(
                    nodes,
                    resolver,
                    upper_operator(inclusive),
                    scrutinee,
                    end,
                    upper,
                    depth + 1,
                );
            },
            (Some(start), None) => {
                comparison_compares(
                    nodes,
                    resolver,
                    BinaryOperator::GreaterEqual,
                    scrutinee,
                    start,
                    id,
                    depth,
                );
            },
            (None, Some(end)) => {
                comparison_compares(
                    nodes,
                    resolver,
                    upper_operator(inclusive),
                    scrutinee,
                    end,
                    id,
                    depth,
                );
            },
            (None, None) => {},
        },
    }
}

proof fn body_condition_extends(p: Parsing, scrutinee: ExprId, body: PatternBody)
    requires
        p.nodes.len() <= p.limit,
    ensures
        body_condition(p, scrutinee, body) matches Ok((q, _)) ==> extends(p.nodes, q.nodes)
            && q.limit == p.limit && q.nodes.len() <= q.limit,
{
    reveal(body_condition);
}

proof fn alternatives_condition_extends(
    p: Parsing,
    scrutinee: ExprId,
    alternatives: Seq<Pattern>,
    count: int,
)
    requires
        p.nodes.len() <= p.limit,
    ensures
        alternatives_condition(p, scrutinee, alternatives, count) matches Ok((q, found))
            ==> extends(p.nodes, q.nodes) && q.limit == p.limit && q.nodes.len() <= q.limit && (
        found is Some <==> count > 0),
    decreases count,
{
    reveal(alternatives_condition);
    if count > 0 {
        alternatives_condition_extends(p, scrutinee, alternatives, count - 1);
        if let Ok((q, _)) = alternatives_condition(p, scrutinee, alternatives, count - 1) {
            body_condition_extends(q, scrutinee, deciding_body(alternatives[count - 1]));
        }
    }
}

proof fn condition_tests_the_alternatives<R: ConstantResolver>(
    p: Parsing,
    scrutinee: ExprId,
    alternatives: Seq<Pattern>,
    count: int,
    q: Parsing,
    id: ExprId,
    nodes: Seq<Option<Node>>,
    resolver: &R,
    depth: int,
)
    requires
        0 < count <= alternatives.len(),
        p.nodes.len() <= p.limit <= usize::MAX,
        alternatives_condition(p, scrutinee, alternatives, count) == Ok::<
            (Parsing, Option<ExprId>),
            ExpressionError,
        >((q, Some(id))),
        extends(q.nodes, nodes),
    ensures
        evaluation(nodes, resolver, id, depth) == number(
            alternatives_match(nodes, resolver, scrutinee, alternatives, count, depth),
        ),
    decreases count,
{
    reveal(alternatives_condition);
    alternatives_condition_extends(p, scrutinee, alternatives, count - 1);
    if let Ok((p1, before)) = alternatives_condition(p, scrutinee, alternatives, count - 1) {
        let body = deciding_body(alternatives[count - 1]);
        body_condition_extends(p1, scrutinee, body);
        if let Ok((p2, last)) = body_condition(p1, scrutinee, body) {
            assert(extends(p2.nodes, nodes));
            assert(extends(p1.nodes, nodes));
            match before {
                None => {
                    condition_tests_the_body(
                        p1,
                        scrutinee,
                        body,
                        p2,
                        last,
                        nodes,
                        resolver,
                        depth,
                    );
                },
                Some(previous) => {
                    condition_tests_the_body(
                        p1,
                        scrutinee,
                        body,
                        p2,
                        last,
                        nodes,
                        resolver,
                        depth + 1,
                    );
                    condition_tests_the_alternatives(
                        p,
                        scrutinee,
                        alternatives,
                        count - 1,
                        p1,
                        previous,
                        nodes,
                        resolver,
                        depth + 1,
                    );
                    assert(nodes[q.nodes.len() - 1] == q.nodes[q.nodes.len() - 1]);
                },
            }
        }
    }
}

proof fn decision_extends(
    p: Parsing,
    scrutinee: ExprId,
    arms: Seq<Arm>,
    count: int,
    otherwise: ExprId,
    span: Span,
    match_span: Span,
)
    requires
        p.nodes.len() <= p.limit,
    ensures
        decision(p, scrutinee, arms, count, otherwise, span, match_span) matches Ok((q, _))
            ==> extends(p.nodes, q.nodes) && q.limit == p.limit && q.nodes.len() <= q.limit,
    decreases count,
{
    reveal(decision);
    if count > 0 {
        let arm = arms[count - 1];
        let alternatives = arm.alternatives;
        let all = alternatives.len() as int;
        alternatives_condition_extends(p, scrutinee, alternatives, all);
        if let Ok((p1, Some(condition))) = alternatives_condition(
            p,
            scrutinee,
            alternatives,
            all,
        ) {
            if let Ok((p2, condition)) = guarded_condition(p1, condition, arm.guard) {
                let form = Form::If { condition, then_branch: arm.branch, else_branch: otherwise };
                if let Ok((p3, next)) = push_node(p2, form, span) {
                    decision_extends(p3, scrutinee, arms, count - 1, next, span, match_span);
                }
            }
        }
    }
}

proof fn condition_tests_the_arm<R: ConstantResolver>(
    p: Parsing,
    scrutinee: ExprId,
    arm: Arm,
    p1: Parsing,
    tested: ExprId,
    p2: Parsing,
    condition: ExprId,
    nodes: Seq<Option<Node>>,
    resolver: &R,
    depth: int,
)
    requires
        p.nodes.len() <= p.limit <= usize::MAX,
        alternatives_condition(p, scrutinee, arm.alternatives, arm.alternatives.len() as int)
            == Ok::<(Parsing, Option<ExprId>), ExpressionError>((p1, Some(tested))),
        guarded_condition(p1, tested, arm.guard) == Ok::<(Parsing, ExprId), ExpressionError>(
            (p2, condition),
        ),
        extends(p2.nodes, nodes),
    ensures
        evaluation(nodes, resolver, condition, depth) == number(
            arm_matches(nodes, resolver, scrutinee, arm, depth),
        ),
{
    let all = arm.alternatives.len() as int;
    alternatives_condition_extends(p, scrutinee, arm.alternatives, all);
    let inner = if arm.guard is Some {
        depth + 1
    } else {
        depth
    };
    assert(extends(p1.nodes, p2.nodes));
    assert(extends(p1.nodes, nodes));
    if arm.guard is Some {
        assert(nodes[p2.nodes.len() - 1] == p2.nodes[p2.nodes.len() - 1]);
    }
    condition_tests_the_alternatives(
        p,
        scrutinee,
        arm.alternatives,
        all,
        p1,
        tested,
        nodes,
        resolver,
        inner,
    );
}

proof fn last_arm_is_decided<R: ConstantResolver>(
    nodes: Seq<Option<Node>>,
    resolver: &R,
    scrutinee: ExprId,
    arms: Seq<Arm>,
    otherwise: ExprId,
    condition: ExprId,
    next: ExprId,
    depth: int,
)
    requires
        arms.len() > 0,
        node_at(nodes, next) matches Some(node) && node.form == (Form::If {
            condition,
            then_branch: arms.last().branch,
            else_branch: otherwise,
        }),
        evaluation(nodes, resolver, condition, depth + 1) == number(
            arm_matches(nodes, resolver, scrutinee, arms.last(), depth + 1),
        ),
    ensures
        evaluation(nodes, resolver, next, depth) == first_match(
            nodes,
            resolver,
            scrutinee,
            arms,
            arms.len() - 1,
            otherwise,
            depth,
        ),
{
    assert(first_match(
        nodes,
        resolver,
        scrutinee,
        arms,
        arms.len() as int,
        otherwise,
        depth + 1,
    ) == evaluation(nodes, resolver, otherwise, depth + 1));
}

/// The value from `from` on where the decision is made already for the arms from `count` on.
proof fn decision_gives_the_first_match<R: ConstantResolver>(
    p: Parsing,
    scrutinee: ExprId,
    arms: Seq<Arm>,
    count: int,
    otherwise: ExprId,
    span: Span,
    match_span: Span,
    q: Parsing,
    id: ExprId,
    nodes: Seq<Option<Node>>,
    resolver: &R,
    depth: int,
)
    requires
        0 <= count <= arms.len(),
        p.nodes.len() <= p.limit <= usize::MAX,
        decision(p, scrutinee, arms, count, otherwise, span, match_span) == Ok::<
            (Parsing, ExprId),
            ExpressionError,
        >((q, id)),
        extends(q.nodes, nodes),
    ensures
        evaluation(nodes, resolver, id, depth) == first_match(
            nodes,
            resolver,
            scrutinee,
            arms.take(count),
            0,
            otherwise,
            depth,
        ),
        count == arms.len() ==> arms.take(count) == arms,
    decreases count,
{
    reveal(decision);
    assert(arms.take(arms.len() as int) =~= arms);
    if count > 0 {
        let arm = arms[count - 1];
        let alternatives = arm.alternatives;
        let all = alternatives.len() as int;
        alternatives_condition_extends(p, scrutinee, alternatives, all);
        if let Ok((p1, Some(tested))) = alternatives_condition(p, scrutinee, alternatives, all) {
            if let Ok((p2, condition)) = guarded_condition(p1, tested, arm.guard) {
                let form = Form::If { condition, then_branch: arm.branch, else_branch: otherwise };
                if let Ok((p3, next)) = push_node(p2, form, span) {
                    decision_extends(p3, scrutinee, arms, count - 1, next, span, match_span);
                    decision_gives_the_first_match(
                        p3,
                        scrutinee,
                        arms,
                        count - 1,
                        next,
                        span,
                        match_span,
                        q,
                        id,
                        nodes,
                        resolver,
                        depth,
                    );
                    assert(extends(p3.nodes, nodes));
                    assert(extends(p1.nodes, nodes));
                    let deeper = depth + count - 1;
                    assert(nodes[p3.nodes.len() - 1] == p3.nodes[p3.nodes.len() - 1]);
                    assert(extends(p2.nodes, nodes));
                    condition_tests_the_arm(
                        p,
                        scrutinee,
                        arm,
                        p1,
                        tested,
                        p2,
                        condition,
                        nodes,
                        resolver,
                        deeper + 1,
                    );
                    last_arm_is_decided(
                        nodes,
                        resolver,
                        scrutinee,
                        arms.take(count),
                        otherwise,
                        condition,
                        next,
                        deeper,
                    );
                    one_more_arm(
                        nodes,
                        resolver,
                        scrutinee,
                        arms,
                        count,
                        0,
                        otherwise,
                        next,
                        depth,
                    );
                }
            }
        }
    }
}

/// What comes behind the first arms may decide on one more arm.
proof fn one_more_arm<R: ConstantResolver>(
    nodes: Seq<Option<Node>>,
    resolver: &R,
    scrutinee: ExprId,
    arms: Seq<Arm>,
    count: int,
    from: int,
    otherwise: ExprId,
    next: ExprId,
    depth: int,
)
    requires
        0 <= from < count <= arms.len(),
        evaluation(nodes, resolver, next, depth + count - 1 - from) == first_match(
            nodes,
            resolver,
            scrutinee,
            arms.take(count),
            count - 1,
            otherwise,
            depth + count - 1 - from,
        ),
    ensures
        first_match(nodes, resolver, scrutinee, arms.take(count - 1), from, next, depth)
            == first_match(nodes, resolver, scrutinee, arms.take(count), from, otherwise, depth),
    decreases count - from,
{
    if from < count - 1 {
        assert(arms.take(count - 1)[from] == arms.take(count)[from]);
        one_more_arm(
            nodes,
            resolver,
            scrutinee,
            arms,
            count,
            from + 1,
            otherwise,
            next,
            depth + 1,
        );
    }
}

} // verus!
