//! What a `match` decides, and sequences of statements.
use crate::expression::{
    ExprId, ExprKind, ExpressionError, ExpressionErrorKind, Form, Node, RangeValidation,
    id_known, level_refused, option_known, text_view,
};
use crate::grammar::{
    Arm, Arms, MAX_MATCH_PATTERNS, Parsing, Pattern, PatternBody, alternatives_condition,
    arm_binding, arm_bound, arms_cover, arms_test, body_condition, bound_name, broken_tree,
    deciding_body, decision, guarded_condition, lookahead, loop_exits, matches_all, next_is,
    next_reads, parsed_arm_end, parsed_arm_start, peek, push_across, push_comparison,
    push_node, sequenced, take, tested_truth, upper_operator,
};
use crate::integer::{
    BinaryOperator, truth,
};
use crate::text::same_text;
use crate::token::{
    Span, Token, TokenKind,
};
use crate::parser::state::{
    Reader, arms_known, ids_known, keeps, kind_of, moves, parses, patterns_known, reaches,
    stands_inside, text_of,
};
use crate::parser::patterns::{
    MatchPattern, pattern_models,
};
use vstd::prelude::*;

verus! {

pub struct MatchArm<'source> {
    pub alternatives: Vec<MatchPattern<'source>>,
    pub guard: Option<ExprId>,
    pub branch: ExprId,
}

impl<'source> MatchArm<'source> {
    pub open spec fn model(&self) -> Arm {
        Arm {
            alternatives: pattern_models(self.alternatives@),
            guard: self.guard,
            branch: self.branch,
        }
    }
}

pub open spec fn arm_models(arms: Seq<MatchArm>) -> Seq<Arm> {
    arms.map_values(|arm: MatchArm| arm.model())
}

/// One more arm tests for what it tests for.
pub proof fn arms_test_of_one_more(nodes: Seq<Option<Node>>, arms: Seq<Arm>, arm: Arm, value: bool)
    ensures
        arms_test(nodes, arms.push(arm), value) == (arms_test(nodes, arms, value) || (
        arm.guard is None && exists|k: int|
            0 <= k < arm.alternatives.len() && tested_truth(
                nodes,
                #[trigger] arm.alternatives[k],
            ) == Some(value))),
{
    let more = arms.push(arm);
    if arms_test(nodes, more, value) {
        let (a, k) = choose|a: int, k: int|
            0 <= a < more.len() && more[a].guard is None && 0 <= k < more[a].alternatives.len()
                && tested_truth(nodes, #[trigger] more[a].alternatives[k]) == Some(value);
        if a < arms.len() {
            assert(tested_truth(nodes, arms[a].alternatives[k]) == Some(value));
        } else {
            assert(tested_truth(nodes, arm.alternatives[k]) == Some(value));
        }
    }
    if arms_test(nodes, arms, value) {
        let (a, k) = choose|a: int, k: int|
            0 <= a < arms.len() && arms[a].guard is None && 0 <= k < arms[a].alternatives.len()
                && tested_truth(nodes, #[trigger] arms[a].alternatives[k]) == Some(value);
        assert(tested_truth(nodes, more[a].alternatives[k]) == Some(value));
    }
    if arm.guard is None && exists|k: int|
        0 <= k < arm.alternatives.len() && tested_truth(nodes, #[trigger] arm.alternatives[k])
            == Some(value) {
        let k = choose|k: int|
            0 <= k < arm.alternatives.len() && tested_truth(nodes, #[trigger] arm.alternatives[k])
                == Some(value);
        assert(tested_truth(nodes, more[arms.len() as int].alternatives[k]) == Some(value));
    }
}

/// A decision looks at no arm behind those that it tries.
pub proof fn decision_of_fewer_arms(
    p: Parsing,
    scrutinee: ExprId,
    arms: Seq<Arm>,
    fewer: Seq<Arm>,
    count: int,
    otherwise: ExprId,
    span: Span,
    match_span: Span,
)
    requires
        count <= fewer.len() <= arms.len(),
        forall|k: int| 0 <= k < fewer.len() ==> fewer[k] == arms[k],
    ensures
        decision(p, scrutinee, arms, count, otherwise, span, match_span) == decision(
            p,
            scrutinee,
            fewer,
            count,
            otherwise,
            span,
            match_span,
        ),
    decreases count,
{
    reveal(decision);
    if count > 0 {
        let arm = arms[count - 1];
        assert(fewer[count - 1] == arm);
        match alternatives_condition(
            p,
            scrutinee,
            arm.alternatives,
            arm.alternatives.len() as int,
        ) {
            Ok((p, Some(condition))) => match guarded_condition(p, condition, arm.guard) {
                Ok((p, condition)) => match push_node(
                    p,
                    Form::If { condition, then_branch: arm.branch, else_branch: otherwise },
                    span,
                ) {
                    Ok((p, next)) => {
                        decision_of_fewer_arms(
                            p,
                            scrutinee,
                            arms,
                            fewer,
                            count - 1,
                            next,
                            span,
                            match_span,
                        );
                    },
                    _ => {},
                },
                _ => {},
            },
            _ => {},
        }
    }
}

impl<'source, const MAX_NODES: usize> Reader<'source, MAX_NODES> {
    pub(crate) fn push_comparison(
        &mut self,
        operator: BinaryOperator,
        scrutinee: ExprId,
        bound: ExprId,
    ) -> (result: Result<ExprId, ExpressionError>)
        requires
            stands_inside(old(self)@),
            id_known(scrutinee, old(self)@.nodes.len() as int),
            id_known(bound, old(self)@.nodes.len() as int),
        ensures
            parses(final(self)@, result, push_comparison(old(self)@, operator, scrutinee, bound)),
            result is Ok ==> keeps(old(self)@, final(self)@),
            result matches Ok(id) ==> id_known(id, final(self)@.nodes.len() as int),
    {
        self.push_across(
            ExprKind::Binary { operator, left: scrutinee, right: bound },
            scrutinee,
            bound,
        )
    }

    pub(crate) fn match_pattern_condition(&mut self, scrutinee: ExprId, body: PatternBody) -> (result: Result<
        ExprId,
        ExpressionError,
    >)
        requires
            stands_inside(old(self)@),
            id_known(scrutinee, old(self)@.nodes.len() as int),
            match body {
                PatternBody::Wildcard => true,
                PatternBody::Value(value) => id_known(value, old(self)@.nodes.len() as int),
                PatternBody::Range { start, end, .. } => option_known(start, old(self)@.nodes.len() as int)
                    && option_known(end, old(self)@.nodes.len() as int),
            },
        ensures
            parses(final(self)@, result, body_condition(old(self)@, scrutinee, body)),
            result is Ok ==> keeps(old(self)@, final(self)@),
            result matches Ok(id) ==> id_known(id, final(self)@.nodes.len() as int),
    {
        proof {
            reveal(body_condition);
        }
        match body {
            PatternBody::Wildcard => {
                let span: Span = self.node_span(scrutinee)?;
                self.push(ExprKind::Bool(true), span)
            },
            PatternBody::Value(value) => {
                self.push_comparison(BinaryOperator::Equal, scrutinee, value)
            },
            PatternBody::Range { start, end, inclusive } => {
                self.record_range_validation(
                    RangeValidation { scrutinee, start, end, inclusive },
                )?;
                let upper_operator = if inclusive {
                    BinaryOperator::LessEqual
                } else {
                    BinaryOperator::Less
                };
                match (start, end) {
                    (Some(start), Some(end)) => {
                        let lower = self.push_comparison(
                            BinaryOperator::GreaterEqual,
                            scrutinee,
                            start,
                        )?;
                        let upper = self.push_comparison(upper_operator, scrutinee, end)?;
                        self.push_across(
                            ExprKind::Binary {
                                operator: BinaryOperator::LogicalAnd,
                                left: lower,
                                right: upper,
                            },
                            lower,
                            upper,
                        )
                    },
                    (Some(start), None) => {
                        self.push_comparison(BinaryOperator::GreaterEqual, scrutinee, start)
                    },
                    (None, Some(end)) => self.push_comparison(upper_operator, scrutinee, end),
                    (None, None) => {
                        let span: Span = self.node_span(scrutinee)?;
                        Err(
                            ExpressionError {
                                kind: ExpressionErrorKind::ExpectedMatchPattern,
                                span,
                            },
                        )
                    },
                }
            },
        }
    }

    pub(crate) fn alternatives_condition(
        &mut self,
        scrutinee: ExprId,
        alternatives: &Vec<MatchPattern<'source>>,
        count: usize,
    ) -> (result: Result<Option<ExprId>, ExpressionError>)
        requires
            stands_inside(old(self)@),
            count <= alternatives@.len(),
            id_known(scrutinee, old(self)@.nodes.len() as int),
            patterns_known(pattern_models(alternatives@), old(self)@.nodes.len() as int),
        ensures
            parses(
                final(self)@,
                result,
                alternatives_condition(
                    old(self)@,
                    scrutinee,
                    pattern_models(alternatives@),
                    count as int,
                ),
            ),
            result is Ok ==> keeps(old(self)@, final(self)@),
            result matches Ok(id) ==> option_known(id, final(self)@.nodes.len() as int),
        decreases count,
    {
        proof {
            reveal(alternatives_condition);
        }
        if count == 0 {
            return Ok(None);
        }
        let before = self.alternatives_condition(scrutinee, alternatives, count - 1)?;
        assert(pattern_models(alternatives@)[count - 1] == alternatives@[count - 1].model());
        let last = self.match_pattern_condition(
            scrutinee,
            alternatives[count - 1].deciding_body(),
        )?;
        match before {
            None => Ok(Some(last)),
            Some(previous) => {
                let both = self.push_across(
                    ExprKind::Binary {
                        operator: BinaryOperator::LogicalOr,
                        left: previous,
                        right: last,
                    },
                    previous,
                    last,
                )?;
                Ok(Some(both))
            },
        }
    }

    pub(crate) fn guarded_condition(&mut self, condition: ExprId, guard: Option<ExprId>) -> (result: Result<
        ExprId,
        ExpressionError,
    >)
        requires
            stands_inside(old(self)@),
            id_known(condition, old(self)@.nodes.len() as int),
            option_known(guard, old(self)@.nodes.len() as int),
        ensures
            parses(final(self)@, result, guarded_condition(old(self)@, condition, guard)),
            result is Ok ==> keeps(old(self)@, final(self)@),
            result matches Ok(id) ==> id_known(id, final(self)@.nodes.len() as int),
    {
        match guard {
            None => Ok(condition),
            Some(guard) => self.push_across(
                ExprKind::Binary {
                    operator: BinaryOperator::LogicalAnd,
                    left: condition,
                    right: guard,
                },
                condition,
                guard,
            ),
        }
    }

    pub(crate) fn decide(
        &mut self,
        scrutinee: ExprId,
        arms: &Vec<MatchArm<'source>>,
        count: usize,
        otherwise: ExprId,
        span: Span,
        match_span: Span,
    ) -> (result: Result<ExprId, ExpressionError>)
        requires
            stands_inside(old(self)@),
            count <= arms@.len(),
            id_known(scrutinee, old(self)@.nodes.len() as int),
            id_known(otherwise, old(self)@.nodes.len() as int),
            arms_known(arm_models(arms@), old(self)@.nodes.len() as int),
        ensures
            parses(
                final(self)@,
                result,
                decision(
                    old(self)@,
                    scrutinee,
                    arm_models(arms@),
                    count as int,
                    otherwise,
                    span,
                    match_span,
                ),
            ),
            result is Ok ==> keeps(old(self)@, final(self)@),
            result matches Ok(id) ==> id_known(id, final(self)@.nodes.len() as int),
        decreases count,
    {
        proof {
            reveal(decision);
        }
        if count == 0 {
            return Ok(otherwise);
        }
        let arm = &arms[count - 1];
        assert(arm_models(arms@)[count - 1] == arm.model());
        let condition = match self.alternatives_condition(
            scrutinee,
            &arm.alternatives,
            arm.alternatives.len(),
        )? {
            Some(condition) => condition,
            None => return Err(
                ExpressionError {
                    kind: ExpressionErrorKind::InvalidExpressionTree,
                    span: match_span,
                },
            ),
        };
        let condition = self.guarded_condition(condition, arm.guard)?;
        let next = self.push(
            ExprKind::If { condition, then_branch: arm.branch, else_branch: otherwise },
            span,
        )?;
        self.decide(scrutinee, arms, count - 1, next, span, match_span)
    }

    /// The name that the alternatives of an arm bind.
    pub(crate) fn arm_binding(&self, alternatives: &Vec<MatchPattern<'source>>) -> (result: Result<
        Option<&'source str>,
        ExpressionError,
    >)
        ensures
            match result {
                Ok(name) => arm_binding(self@, pattern_models(alternatives@)) == Ok::<
                    Option<Seq<char>>,
                    ExpressionError,
                >(text_view(name)),
                Err(error) => arm_binding(self@, pattern_models(alternatives@)) == Err::<
                    Option<Seq<char>>,
                    ExpressionError,
                >(error),
            },
    {
        proof {
            reveal(arm_binding);
        }
        let ghost models = pattern_models(alternatives@);
        if alternatives.len() == 0 {
            return Ok(None);
        }
        let first = alternatives[0].bound_name();
        proof {
            assert(models[0] == alternatives@[0].model());
        }
        let mut index: usize = 1;
        while index < alternatives.len()
            invariant
                1 <= index <= alternatives@.len(),
                models == pattern_models(alternatives@),
                text_view(first) == bound_name(models[0]),
                forall|k: int|
                    0 <= k < index ==> bound_name(#[trigger] models[k]) == text_view(first),
            decreases alternatives@.len() - index,
        {
            proof {
                reveal(arm_binding);
            }
            let name = alternatives[index].bound_name();
            proof {
                assert(models[index as int] == alternatives@[index as int].model());
            }
            let same = match (first, name) {
                (Some(left), Some(right)) => same_text(left, right),
                (None, None) => true,
                _ => false,
            };
            if !same {
                proof {
                    assert(bound_name(models[index as int]) != bound_name(models[0]));
                }
                return Err(
                    self.error(ExpressionErrorKind::InconsistentMatchBindings, self.lookahead()),
                );
            }
            index += 1;
        }
        Ok(first)
    }

    /// Whether the arms without a guard match every value.
    pub(crate) fn match_patterns_cover_supported_domain(
        &self,
        arms: &Vec<MatchArm<'source>>,
    ) -> (result: bool)
        ensures
            result == arms_cover(self@.nodes, arm_models(arms@)),
    {
        proof {
            reveal(arms_cover);
        }
        let ghost models = arm_models(arms@);
        let mut covers_false: bool = false;
        let mut covers_true: bool = false;
        let mut place: usize = 0;
        while place < arms.len()
            invariant
                place <= arms@.len(),
                models == arm_models(arms@),
                forall|a: int, k: int|
                    0 <= a < place && models[a].guard is None && 0 <= k
                        < models[a].alternatives.len() ==> !matches_all(
                        #[trigger] models[a].alternatives[k],
                    ),
                covers_true == arms_test(self@.nodes, models.take(place as int), true),
                covers_false == arms_test(self@.nodes, models.take(place as int), false),
            decreases arms@.len() - place,
        {
            proof {
                reveal(arms_cover);
            }
            let arm = &arms[place];
            let ghost before = models.take(place as int);
            let ghost after = models.take(place + 1);
            proof {
                assert(models[place as int] == arm.model());
                assert(after =~= before.push(models[place as int]));
            }
            let ghost true_before = covers_true;
            let ghost false_before = covers_false;
            if arm.guard.is_none() {
                let mut index: usize = 0;
                while index < arm.alternatives.len()
                    invariant
                        index <= arm.alternatives@.len(),
                        place < arms@.len(),
                        *arm == arms@[place as int],
                        models == arm_models(arms@),
                        models[place as int] == arm.model(),
                        arm.guard is None,
                        forall|k: int|
                            0 <= k < index ==> !matches_all(
                                #[trigger] models[place as int].alternatives[k],
                            ),
                        covers_true == (true_before || exists|k: int|
                            0 <= k < index && tested_truth(
                                self@.nodes,
                                #[trigger] models[place as int].alternatives[k],
                            ) == Some(true)),
                        covers_false == (false_before || exists|k: int|
                            0 <= k < index && tested_truth(
                                self@.nodes,
                                #[trigger] models[place as int].alternatives[k],
                            ) == Some(false)),
                    decreases arm.alternatives@.len() - index,
                {
                    proof {
                        reveal(arms_cover);
                    }
                    let body = arm.alternatives[index].deciding_body();
                    proof {
                        assert(models[place as int].alternatives[index as int]
                            == arm.alternatives@[index as int].model());
                    }
                    match body {
                        PatternBody::Wildcard => {
                            assert(matches_all(models[place as int].alternatives[index as int]));
                            return true;
                        },
                        PatternBody::Value(value) => {
                            if let Some(expression) = self.expression_at(value) {
                                if let ExprKind::Bool(truth) = expression.kind {
                                    if truth {
                                        covers_true = true;
                                    } else {
                                        covers_false = true;
                                    }
                                }
                            }
                        },
                        _ => {},
                    }
                    index += 1;
                }
            }
            proof {
                arms_test_of_one_more(self@.nodes, before, models[place as int], true);
                arms_test_of_one_more(self@.nodes, before, models[place as int], false);
            }
            place += 1;
        }
        proof {
            assert(models.take(models.len() as int) =~= models);
        }
        covers_false && covers_true
    }

    pub(crate) fn optional_comma(&mut self) -> (result: Result<bool, ExpressionError>)
        requires
            stands_inside(old(self)@),
        ensures
            match result {
                Ok(comma) => {
                    &&& next_is(old(self)@, TokenKind::Comma) matches Ok((looked, found))
                    &&& found == comma
                    &&& (if found {
                        take(looked)
                    } else {
                        Ok((looked, None))
                    }) matches Ok((after, _))
                    &&& after == final(self)@
                    &&& keeps(old(self)@, final(self)@)
                },
                Err(error) => next_is(old(self)@, TokenKind::Comma) == Err::<
                    (Parsing, bool),
                    ExpressionError,
                >(error),
            },
    {
        if self.next_is(TokenKind::Comma)? {
            self.take()?;
            Ok(true)
        } else {
            Ok(false)
        }
    }

    /// Whether the arms end here: the closing brace, consumed.
    pub(crate) fn arm_end(&mut self, arms: &Vec<MatchArm<'source>>, block: bool) -> (result: Result<
        Option<Token<'source>>,
        ExpressionError,
    >)
        requires
            stands_inside(old(self)@),
            arms@.len() > 0,
        ensures
            match result {
                Ok(found) => parsed_arm_end(old(self)@, arm_models(arms@), block) == Ok::<
                    (Parsing, Option<Arms>),
                    ExpressionError,
                >(
                    (
                        final(self)@,
                        match found {
                            Some(close) => Some(
                                Arms {
                                    arms: arm_models(arms@).drop_last(),
                                    otherwise: arm_models(arms@).last().branch,
                                    close: close@,
                                },
                            ),
                            None => None,
                        },
                    ),
                ) && keeps(old(self)@, final(self)@),
                Err(error) => parsed_arm_end(old(self)@, arm_models(arms@), block) == Err::<
                    (Parsing, Option<Arms>),
                    ExpressionError,
                >(error),
            },
    {
        proof {
            reveal(parsed_arm_end);
        }
        let comma: bool = self.optional_comma()?;
        if self.next_is(TokenKind::CloseBrace)? {
            if !self.match_patterns_cover_supported_domain(arms) {
                return Err(self.error(ExpressionErrorKind::NonExhaustiveMatch, self.lookahead()));
            }
            let close = self.take()?;
            return match close {
                Some(close) => Ok(Some(close)),
                None => Err(self.broken_tree()),
            };
        }
        if !comma && !block {
            return Err(self.error(ExpressionErrorKind::ExpectedComma, self.lookahead()));
        }
        Ok(None)
    }

    /// The alternatives of the next arm, or none behind a bare wildcard.
    pub(crate) fn arm_start(&mut self, arm_count: usize, depth: usize) -> (result: Result<
        Option<Vec<MatchPattern<'source>>>,
        ExpressionError,
    >)
        requires
            stands_inside(old(self)@),
            !level_refused(depth as int),
        ensures
            match result {
                Ok(found) => parsed_arm_start(
                    old(self)@,
                    arm_count as int,
                    depth as int,
                ) == Ok::<(Parsing, Option<Seq<Pattern>>), ExpressionError>(
                    (
                        final(self)@,
                        match found {
                            Some(alternatives) => Some(pattern_models(alternatives@)),
                            None => None,
                        },
                    ),
                ) && moves(old(self)@, final(self)@),
                Err(error) => parsed_arm_start(
                    old(self)@,
                    arm_count as int,
                    depth as int,
                ) == Err::<(Parsing, Option<Seq<Pattern>>), ExpressionError>(error),
            },
            result matches Ok(Some(alternatives)) ==> patterns_known(
                pattern_models(alternatives@),
                final(self)@.nodes.len() as int,
            ),
    {
        proof {
            reveal(parsed_arm_start);
        }
        let token = self.peek()?;
        if kind_of(&token, TokenKind::Identifier) && text_of(&token, "_") {
            self.take()?;
            if !self.next_reads("if")? {
                return Ok(None);
            }
            if arm_count >= MAX_MATCH_PATTERNS {
                return Err(
                    self.error(ExpressionErrorKind::TooManyMatchPatterns, self.lookahead()),
                );
            }
            let mut alternatives: Vec<MatchPattern<'source>> = Vec::new();
            alternatives.push(MatchPattern::Wildcard);
            proof {
                assert(pattern_models(alternatives@) =~= seq![Pattern::Wildcard]);
            }
            return Ok(Some(alternatives));
        }
        if arm_count >= MAX_MATCH_PATTERNS {
            return Err(self.error(ExpressionErrorKind::TooManyMatchPatterns, self.lookahead()));
        }
        let alternatives = self.alternatives_list(depth)?;
        Ok(Some(alternatives))
    }

    /// Replaces the name that an arm binds in its guard and its branch.
    pub(crate) fn bind_arm(
        &mut self,
        name: Option<&'source str>,
        guard: Option<ExprId>,
        branch: ExprId,
        scrutinee: ExprId,
        match_token: Token<'source>,
        depth: usize,
    ) -> (result: Result<(), ExpressionError>)
        requires
            stands_inside(old(self)@),
            !level_refused(depth as int),
        ensures
            reaches(
                final(self)@,
                result,
                arm_bound(
                    old(self)@,
                    text_view(name),
                    guard,
                    branch,
                    scrutinee,
                    match_token@,
                    depth as int,
                ),
            ),
            result is Ok ==> keeps(old(self)@, final(self)@),
    {
        proof {
            reveal(arm_bound);
        }
        match name {
            None => Ok(()),
            Some(name) => {
                let kind = self.kind_of_node(scrutinee, match_token.span)?;
                let ids = [guard, Some(branch)];
                proof {
                    assert(ids@ =~= seq![guard, Some(branch)]);
                }
                self.substitute_all(ids.as_slice(), 2, name, kind, depth + 1)
            },
        }
    }

    pub(crate) fn sequence(
        &mut self,
        statements: &Vec<ExprId>,
        count: usize,
        tail: ExprId,
    ) -> (result: Result<
        ExprId,
        ExpressionError,
    >)
        requires
            stands_inside(old(self)@),
            count <= statements@.len(),
            id_known(tail, old(self)@.nodes.len() as int),
            ids_known(statements@, old(self)@.nodes.len() as int),
        ensures
            parses(final(self)@, result, sequenced(old(self)@, statements@, count as int, tail)),
            result is Ok ==> keeps(old(self)@, final(self)@),
            result matches Ok(id) ==> id_known(id, final(self)@.nodes.len() as int),
        decreases count,
    {
        proof {
            reveal(sequenced);
        }
        if count == 0 {
            return Ok(tail);
        }
        let first = statements[count - 1];
        let next = self.push_across(ExprKind::Sequence { first, then: tail }, first, tail)?;
        self.sequence(statements, count - 1, next)
    }

    pub(crate) fn push_loop_exits(
        &mut self,
        conditions: &Vec<ExprId>,
        branches: &Vec<ExprId>,
        count: usize,
        otherwise: ExprId,
        span: Span,
    ) -> (result: Result<ExprId, ExpressionError>)
        requires
            stands_inside(old(self)@),
            count <= conditions@.len(),
            count <= branches@.len(),
            id_known(otherwise, old(self)@.nodes.len() as int),
            ids_known(conditions@, old(self)@.nodes.len() as int),
            ids_known(branches@, old(self)@.nodes.len() as int),
        ensures
            parses(
                final(self)@,
                result,
                loop_exits(
                    old(self)@,
                    conditions@,
                    branches@,
                    count as int,
                    otherwise,
                    span,
                ),
            ),
            result is Ok ==> keeps(old(self)@, final(self)@),
            result matches Ok(id) ==> id_known(id, final(self)@.nodes.len() as int),
        decreases count,
    {
        proof {
            reveal(loop_exits);
        }
        if count == 0 {
            return Ok(otherwise);
        }
        let next = self.push(
            ExprKind::LoopBreakIf {
                condition: conditions[count - 1],
                then_branch: branches[count - 1],
                else_branch: otherwise,
            },
            span,
        )?;
        self.push_loop_exits(conditions, branches, count - 1, next, span)
    }
}

} // verus!
