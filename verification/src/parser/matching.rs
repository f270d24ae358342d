//! `match`.
use crate::expression::{
    ExprId, ExpressionError, ExpressionErrorKind, LAST_LEVEL, id_known, level_refused,
    option_known, refuses_level, room,
};
use crate::grammar::{
    Arm, Arms, Parsing, advances, arm_binding, decision, expect_kind, next_is, next_reads,
    parsed_arm, parsed_arms, parsed_fallback, parsed_guard, parsed_match, remaining, take,
};
use crate::rules::{
    parsed_arm_rule, parsed_arms_rule, parsed_fallback_rule, parsed_guard_rule,
    parsed_match_rule,
};
use crate::token::{
    Span, Token, TokenKind,
};
use crate::parser::state::{
    Reader, arm_known, arms_known, keeps, moves, parses, patterns_known, stands_inside,
};
use crate::parser::patterns::{
    MatchPattern, pattern_models,
};
use crate::parser::decisions::{
    MatchArm, arm_models, decision_of_fewer_arms,
};
use vstd::prelude::*;

verus! {

impl<'source, const MAX_NODES: usize> Reader<'source, MAX_NODES> {
    pub(crate) fn guard(&mut self, depth: usize) -> (result: Result<
        Option<ExprId>,
        ExpressionError,
    >)
        requires
            stands_inside(old(self)@),
            depth <= LAST_LEVEL + 1,
        ensures
            parses(final(self)@, result, parsed_guard(old(self)@, depth as int)),
            result is Ok ==> keeps(old(self)@, final(self)@),
            result matches Ok(id) ==> option_known(id, final(self)@.nodes.len() as int),
        decreases room(depth as int), 84int,
    {
        proof {
            parsed_guard_rule(self@, depth as int);
        }
        if !self.next_reads("if")? {
            return Ok(None);
        }
        self.take()?;
        let guard = self.expression(0, depth + 1)?;
        Ok(Some(guard))
    }

    /// An arm behind its alternatives, and whether its branch is a block.
    pub(crate) fn match_arm(
        &mut self,
        alternatives: Vec<MatchPattern<'source>>,
        scrutinee: ExprId,
        match_token: Token<'source>,
        depth: usize,
    ) -> (result: Result<(MatchArm<'source>, bool), ExpressionError>)
        requires
            stands_inside(old(self)@),
            !level_refused(depth as int),
            id_known(scrutinee, old(self)@.nodes.len() as int),
            patterns_known(pattern_models(alternatives@), old(self)@.nodes.len() as int),
        ensures
            match result {
                Ok((arm, block)) => parsed_arm(
                    old(self)@,
                    pattern_models(alternatives@),
                    scrutinee,
                    match_token@,
                    depth as int,
                ) == Ok::<(Parsing, (Arm, bool)), ExpressionError>(
                    (final(self)@, (arm.model(), block)),
                ) && moves(old(self)@, final(self)@),
                Err(error) => parsed_arm(
                    old(self)@,
                    pattern_models(alternatives@),
                    scrutinee,
                    match_token@,
                    depth as int,
                ) == Err::<(Parsing, (Arm, bool)), ExpressionError>(error),
            },
            result matches Ok((arm, _)) ==> arm_known(arm.model(), final(self)@.nodes.len() as int),
        decreases room(depth as int), 86int,
    {
        proof {
            parsed_arm_rule(self@, pattern_models(alternatives@), scrutinee, match_token@, depth as int);
        }
        let name = self.arm_binding(&alternatives)?;
        let guard = self.guard(depth)?;
        self.expect_kind(TokenKind::FatArrow, ExpressionErrorKind::ExpectedFatArrow)?;
        let block: bool = self.next_is(TokenKind::OpenBrace)?;
        let branch = self.expression(0, depth + 1)?;
        self.bind_arm(name, guard, branch, scrutinee, match_token, depth)?;
        Ok((MatchArm { alternatives, guard, branch }, block))
    }

    /// The branch for every other value and the closing brace.
    pub(crate) fn fallback(&mut self, Ghost(arms): Ghost<Seq<Arm>>, depth: usize) -> (result: Result<
        (ExprId, Token<'source>),
        ExpressionError,
    >)
        requires
            stands_inside(old(self)@),
            !level_refused(depth as int),
        ensures
            match result {
                Ok((otherwise, close)) => parsed_fallback(old(self)@, arms, depth as int) == Ok::<
                    (Parsing, Arms),
                    ExpressionError,
                >((final(self)@, (Arms { arms, otherwise, close: close@ }))) && moves(
                    old(self)@,
                    final(self)@,
                ),
                Err(error) => parsed_fallback(old(self)@, arms, depth as int) == Err::<
                    (Parsing, Arms),
                    ExpressionError,
                >(error),
            },
            result matches Ok((otherwise, _)) ==> id_known(otherwise, final(self)@.nodes.len() as int),
        decreases room(depth as int), 85int,
    {
        proof {
            parsed_fallback_rule(self@, arms, depth as int);
        }
        self.expect_kind(TokenKind::FatArrow, ExpressionErrorKind::ExpectedFatArrow)?;
        let otherwise = self.expression(0, depth + 1)?;
        self.optional_comma()?;
        let close = self.expect_kind(
            TokenKind::CloseBrace,
            ExpressionErrorKind::ExpectedCloseBrace,
        )?;
        Ok((otherwise, close))
    }

    pub(crate) fn match_expression(&mut self, match_token: Token<'source>, depth: usize) -> (result: Result<
        ExprId,
        ExpressionError,
    >)
        requires
            stands_inside(old(self)@),
        ensures
            parses(final(self)@, result, parsed_match(old(self)@, match_token@, depth as int)),
            result is Ok ==> moves(old(self)@, final(self)@),
            result matches Ok(id) ==> id_known(id, final(self)@.nodes.len() as int),
        decreases room(depth as int), 100int,
    {
        proof {
            parsed_match_rule(self@, match_token@, depth as int);
        }
        if refuses_level(depth) {
            return Err(self.error(ExpressionErrorKind::NestingLimitExceeded, Some(match_token)));
        }
        let scrutinee = self.expression(0, depth + 1)?;
        self.expect_kind(TokenKind::OpenBrace, ExpressionErrorKind::ExpectedOpenBrace)?;
        let mut arms: Vec<MatchArm<'source>> = Vec::new();
        let ghost first = self@;
        let ghost expected = parsed_arms(first, seq![], scrutinee, match_token@, depth as int);
        let ghost whole = parsed_match(old(self)@, match_token@, depth as int);
        proof {
            assert(arm_models(arms@) =~= seq![]);
        }
        loop
            invariant
                moves(old(self)@, first),
                keeps(first, self@),
                id_known(scrutinee, self@.nodes.len() as int),
                arms_known(arm_models(arms@), self@.nodes.len() as int),
                stands_inside(self@),
                !level_refused(depth as int),
                whole == parsed_match(old(self)@, match_token@, depth as int),
                whole == match expected {
                    Err(error) => Err(error),
                    Ok((p, all)) => decision(
                        p,
                        scrutinee,
                        all.arms,
                        all.arms.len() as int,
                        all.otherwise,
                        Span { start: match_token.span.start, end: all.close.span.end },
                        match_token.span,
                    ),
                },
                expected == parsed_arms(
                    self@,
                    arm_models(arms@),
                    scrutinee,
                    match_token@,
                    depth as int,
                ),
            decreases remaining(self@),
        {
            proof {
                parsed_arms_rule(self@, arm_models(arms@), scrutinee, match_token@, depth as int);
            }
            let ghost before = self@;
            let alternatives = match self.arm_start(arms.len(), depth)? {
                Some(alternatives) => alternatives,
                None => {
                    let (otherwise, close) = self.fallback(Ghost(arm_models(arms@)), depth)?;
                    let span = Span { start: match_token.span.start, end: close.span.end };
                    return self.decide(
                        scrutinee,
                        &arms,
                        arms.len(),
                        otherwise,
                        span,
                        match_token.span,
                    );
                },
            };
            let (arm, block) = self.match_arm(alternatives, scrutinee, match_token, depth)?;
            let ghost models = arm_models(arms@);
            let branch = arm.branch;
            arms.push(arm);
            proof {
                assert(arm_models(arms@) =~= models.push(arm.model()));
            }
            if let Some(close) = self.arm_end(&arms, block)? {
                let span = Span { start: match_token.span.start, end: close.span.end };
                let count: usize = arms.len() - 1;
                proof {
                    decision_of_fewer_arms(
                        self@,
                        scrutinee,
                        arm_models(arms@),
                        arm_models(arms@).drop_last(),
                        count as int,
                        branch,
                        span,
                        match_token.span,
                    );
                }
                return self.decide(scrutinee, &arms, count, branch, span, match_token.span);
            }
            assert(advances(before, self@));
        }
    }
}

} // verus!
