//! Loops that end by `break` with a value.
use crate::expression::{
    ExprId, ExprKind, ExpressionError, ExpressionErrorKind, LAST_LEVEL,
    MAX_EXPRESSION_DEPTH, id_known, level_refused, refuses_level, room,
};
use crate::grammar::{
    Exits, InnerExits, MAX_LOOP_BREAK_BRANCHES, Parsing, ValueLoopControlTarget, Word,
    advances, broken_tree, expect_break_target, expect_kind, expect_text, lookahead,
    loop_start, next_is, next_reads, parsed_braced_break, parsed_branch_operand,
    parsed_break_operand, parsed_break_target, parsed_condition_operand, parsed_exit,
    parsed_inner_branches, parsed_last_exit, parsed_loop, parsed_loop_branches,
    parsed_nested_loop, parsed_while, peek, push_unit_at, remaining, skipped_body, take,
};
use crate::rules::{
    parsed_braced_break_rule, parsed_branch_operand_rule, parsed_break_operand_rule,
    parsed_condition_operand_rule, parsed_exit_rule, parsed_inner_branches_rule,
    parsed_last_exit_rule, parsed_loop_branches_rule, parsed_loop_rule,
    parsed_nested_loop_rule, parsed_outer_exit_rule, parsed_while_rule,
};
use crate::text::same_text;
use crate::token::{
    Span, Token, TokenKind,
};
use crate::parser::state::{
    Reader, ids_known, keeps, kind_of, moves, parses, reaches, reads, stands_inside,
    text_of, word_view,
};
use vstd::prelude::*;

verus! {

pub fn start_of_loop(loop_token: Token, label: Option<Token>) -> (result: usize)
    ensures
        result == loop_start(loop_token@, word_view(label)),
{
    match label {
        Some(label) => label.span.start,
        None => loop_token.span.start,
    }
}

/// The exits of a loop, in the order in which they are tried.
pub struct LoopExits<'source> {
    pub conditions: Vec<ExprId>,
    pub branches: Vec<ExprId>,
    pub otherwise: ExprId,
    pub close: Token<'source>,
}

impl<'source> LoopExits<'source> {
    pub open spec fn model(&self) -> Exits {
        Exits {
            conditions: self.conditions@,
            branches: self.branches@,
            otherwise: self.otherwise,
            close: self.close@,
        }
    }
}

impl<'source, const MAX_NODES: usize> Reader<'source, MAX_NODES> {
    pub(crate) fn value_loop_break_target(
        &mut self,
        current: Option<Token<'source>>,
        enclosing: Option<Token<'source>>,
    ) -> (result: Result<ValueLoopControlTarget, ExpressionError>)
        requires
            stands_inside(old(self)@),
        ensures
            parses(
                final(self)@,
                result,
                parsed_break_target(old(self)@, word_view(current), word_view(enclosing)),
            ),
            result is Ok ==> keeps(old(self)@, final(self)@),
    {
        proof {
            reveal(parsed_break_target);
        }
        if !self.next_is(TokenKind::Lifetime)? {
            return Ok(ValueLoopControlTarget::Current);
        }
        let actual = self.take()?;
        if let Some(label) = current {
            if text_of(&actual, label.text) {
                return Ok(ValueLoopControlTarget::Current);
            }
        }
        if let Some(label) = enclosing {
            if text_of(&actual, label.text) {
                return Ok(ValueLoopControlTarget::Enclosing);
            }
        }
        Err(self.error(ExpressionErrorKind::UnknownLoopLabel, actual))
    }

    pub(crate) fn loop_break_label(
        &mut self,
        current: Option<Token<'source>>,
        enclosing: Option<Token<'source>>,
        target: ValueLoopControlTarget,
        token: Option<Token<'source>>,
    ) -> (result: Result<(), ExpressionError>)
        requires
            stands_inside(old(self)@),
        ensures
            reaches(
                final(self)@,
                result,
                expect_break_target(
                    old(self)@,
                    word_view(current),
                    word_view(enclosing),
                    target,
                    word_view(token),
                ),
            ),
            result is Ok ==> keeps(old(self)@, final(self)@),
    {
        proof {
            reveal(expect_break_target);
        }
        let actual = self.value_loop_break_target(current, enclosing)?;
        if actual == target {
            Ok(())
        } else {
            Err(self.error(ExpressionErrorKind::InvalidLoopBreakTarget, token))
        }
    }

    pub(crate) fn skip_unreachable_brace_body(&mut self) -> (result: Result<(), ExpressionError>)
        requires
            stands_inside(old(self)@),
        ensures
            reaches(final(self)@, result, skipped_body(old(self)@, 1)),
            result is Ok ==> keeps(old(self)@, final(self)@),
    {
        proof {
            reveal(skipped_body);
        }
        let mut depth: usize = 1;
        let ghost first = self@;
        while depth != 0
            invariant
                stands_inside(self@),
                keeps(first, self@),
                first == old(self)@,
                depth <= MAX_EXPRESSION_DEPTH,
                skipped_body(first, 1) == skipped_body(self@, depth as int),
            decreases remaining(self@),
        {
            proof {
                reveal(skipped_body);
            }
            let token = match self.take()? {
                Some(token) => token,
                None => return Err(self.error(ExpressionErrorKind::ExpectedCloseBrace, None)),
            };
            if token.kind == TokenKind::OpenBrace {
                if depth == MAX_EXPRESSION_DEPTH {
                    return Err(
                        self.error(ExpressionErrorKind::NestingLimitExceeded, Some(token)),
                    );
                }
                depth += 1;
            } else if token.kind == TokenKind::CloseBrace {
                depth -= 1;
            }
        }
        Ok(())
    }

    pub(crate) fn loop_break_operand(&mut self, depth: usize) -> (result: Result<
        ExprId,
        ExpressionError,
    >)
        requires
            stands_inside(old(self)@),
            depth <= LAST_LEVEL + 2,
        ensures
            parses(final(self)@, result, parsed_break_operand(old(self)@, depth as int)),
            result is Ok ==> moves(old(self)@, final(self)@),
            result matches Ok(id) ==> id_known(id, final(self)@.nodes.len() as int),
        decreases room(depth as int), 30int,
    {
        proof {
            parsed_break_operand_rule(self@, depth as int);
        }
        if self.next_is(TokenKind::Semicolon)? {
            let token = self.take()?;
            return match token {
                Some(semicolon) => self.push_unit_at(semicolon),
                None => Err(self.broken_tree()),
            };
        }
        let operand = self.expression(0, depth + 1)?;
        self.expect_kind(TokenKind::Semicolon, ExpressionErrorKind::TrailingToken)?;
        Ok(operand)
    }

    pub(crate) fn branch_operand(&mut self, depth: usize) -> (result: Result<
        ExprId,
        ExpressionError,
    >)
        requires
            stands_inside(old(self)@),
            depth <= LAST_LEVEL + 2,
        ensures
            parses(final(self)@, result, parsed_branch_operand(old(self)@, depth as int)),
            result is Ok ==> moves(old(self)@, final(self)@),
            result matches Ok(id) ==> id_known(id, final(self)@.nodes.len() as int),
        decreases room(depth as int), 30int,
    {
        proof {
            parsed_branch_operand_rule(self@, depth as int);
        }
        if self.next_is(TokenKind::Semicolon)? {
            let token = self.take()?;
            return match token {
                Some(semicolon) => self.push_unit_at(semicolon),
                None => Err(self.broken_tree()),
            };
        }
        let operand = self.expression(0, depth + 1)?;
        if self.next_is(TokenKind::CloseBrace)? {
            return Ok(operand);
        }
        self.expect_kind(TokenKind::Semicolon, ExpressionErrorKind::TrailingToken)?;
        Ok(operand)
    }

    pub(crate) fn loop_break_condition_operand(&mut self, depth: usize) -> (result: Result<
        ExprId,
        ExpressionError,
    >)
        requires
            stands_inside(old(self)@),
            depth <= LAST_LEVEL + 2,
        ensures
            parses(final(self)@, result, parsed_condition_operand(old(self)@, depth as int)),
            result is Ok ==> keeps(old(self)@, final(self)@),
            result matches Ok(id) ==> id_known(id, final(self)@.nodes.len() as int),
        decreases room(depth as int), 30int,
    {
        proof {
            parsed_condition_operand_rule(self@, depth as int);
        }
        let token = self.peek()?;
        if let Some(open) = token {
            if open.kind == TokenKind::OpenBrace {
                return self.push_unit_at(open);
            }
        }
        self.expression(0, depth + 1)
    }

    pub(crate) fn braced_break(
        &mut self,
        current: Option<Token<'source>>,
        enclosing: Option<Token<'source>>,
        target: Option<ValueLoopControlTarget>,
        depth: usize,
    ) -> (result: Result<
        ExprId,
        ExpressionError,
    >)
        requires
            stands_inside(old(self)@),
            depth <= LAST_LEVEL + 1,
        ensures
            parses(
                final(self)@,
                result,
                parsed_braced_break(
                    old(self)@,
                    word_view(current),
                    word_view(enclosing),
                    target,
                    depth as int,
                ),
            ),
            result is Ok ==> moves(old(self)@, final(self)@),
            result matches Ok(id) ==> id_known(id, final(self)@.nodes.len() as int),
        decreases room(depth as int), 65int,
    {
        proof {
            parsed_braced_break_rule(self@, word_view(current), word_view(enclosing), target, depth as int);
        }
        let token = self.expect_text("break", ExpressionErrorKind::ExpectedExpression)?;
        let actual = self.value_loop_break_target(current, enclosing)?;
        if let Some(target) = target {
            if actual != target {
                return Err(
                    self.error(ExpressionErrorKind::InvalidLoopBreakTarget, Some(token)),
                );
            }
        }
        let operand = self.branch_operand(depth + 1)?;
        self.expect_kind(TokenKind::CloseBrace, ExpressionErrorKind::ExpectedCloseBrace)?;
        Ok(operand)
    }

    pub(crate) fn conditional_exit(
        &mut self,
        current: Option<Token<'source>>,
        enclosing: Option<Token<'source>>,
        target: Option<ValueLoopControlTarget>,
        depth: usize,
    ) -> (result: Result<
        (ExprId, ExprId),
        ExpressionError,
    >)
        requires
            stands_inside(old(self)@),
            depth <= LAST_LEVEL + 1,
        ensures
            parses(
                final(self)@,
                result,
                parsed_exit(old(self)@, word_view(current), word_view(enclosing), target, depth as int),
            ),
            result is Ok ==> moves(old(self)@, final(self)@),
            result matches Ok((condition, branch)) ==> id_known(
                condition,
                final(self)@.nodes.len() as int,
            ) && id_known(branch, final(self)@.nodes.len() as int),
        decreases room(depth as int), 70int,
    {
        proof {
            parsed_exit_rule(self@, word_view(current), word_view(enclosing), target, depth as int);
        }
        let condition = self.expression(0, depth + 1)?;
        self.expect_kind(TokenKind::OpenBrace, ExpressionErrorKind::ExpectedOpenBrace)?;
        let branch = self.braced_break(current, enclosing, target, depth)?;
        Ok((condition, branch))
    }

    pub(crate) fn close_loop(&mut self) -> (result: Result<Token<'source>, ExpressionError>)
        requires
            stands_inside(old(self)@),
        ensures
            reads(
                final(self)@,
                result,
                expect_kind(
                    old(self)@,
                    TokenKind::CloseBrace,
                    ExpressionErrorKind::ExpectedCloseBrace,
                ),
            ),
            result is Ok ==> moves(old(self)@, final(self)@),
    {
        self.expect_kind(TokenKind::CloseBrace, ExpressionErrorKind::ExpectedCloseBrace)
    }

    /// The exits of a loop from the token `first_control` on.
    pub(crate) fn loop_branches(
        &mut self,
        first_control: Option<Token<'source>>,
        loop_token: Token<'source>,
        label: Option<Token<'source>>,
        depth: usize,
    ) -> (result: Result<LoopExits<'source>, ExpressionError>)
        requires
            stands_inside(old(self)@),
            !level_refused(depth as int),
        ensures
            match result {
                Ok(exits) => parsed_loop_branches(
                    old(self)@,
                    word_view(first_control),
                    seq![],
                    seq![],
                    loop_token@,
                    word_view(label),
                    depth as int,
                ) == Ok::<(Parsing, Exits), ExpressionError>((final(self)@, exits.model()))
                    && moves(old(self)@, final(self)@) && exits.conditions@.len()
                    == exits.branches@.len(),
                Err(error) => parsed_loop_branches(
                    old(self)@,
                    word_view(first_control),
                    seq![],
                    seq![],
                    loop_token@,
                    word_view(label),
                    depth as int,
                ) == Err::<(Parsing, Exits), ExpressionError>(error),
            },
            result matches Ok(exits) ==> ids_known(exits.conditions@, final(self)@.nodes.len() as int)
                && ids_known(exits.branches@, final(self)@.nodes.len() as int)
                && id_known(exits.otherwise, final(self)@.nodes.len() as int),
        decreases room(depth as int), 90int,
    {
        proof {
            parsed_loop_branches_rule(
                self@,
                word_view(first_control),
                seq![],
                seq![],
                loop_token@,
                word_view(label),
                depth as int,
            );
        }
        let mut conditions: Vec<ExprId> = Vec::new();
        let mut branches: Vec<ExprId> = Vec::new();
        let mut control = first_control;
        let ghost first = old(self)@;
        let ghost expected = parsed_loop_branches(
            first,
            word_view(first_control),
            seq![],
            seq![],
            loop_token@,
            word_view(label),
            depth as int,
        );
        proof {
            assert(conditions@ =~= seq![]);
            assert(branches@ =~= seq![]);
        }
        loop
            invariant
                first == old(self)@,
                keeps(first, self@),
                ids_known(conditions@, self@.nodes.len() as int),
                ids_known(branches@, self@.nodes.len() as int),
                stands_inside(self@),
                !level_refused(depth as int),
                conditions@.len() == branches@.len(),
                expected == parsed_loop_branches(
                    first,
                    word_view(first_control),
                    seq![],
                    seq![],
                    loop_token@,
                    word_view(label),
                    depth as int,
                ),
                expected == parsed_loop_branches(
                    self@,
                    word_view(control),
                    conditions@,
                    branches@,
                    loop_token@,
                    word_view(label),
                    depth as int,
                ),
            decreases remaining(self@),
        {
            proof {
                parsed_loop_branches_rule(
                    self@,
                    word_view(control),
                    conditions@,
                    branches@,
                    loop_token@,
                    word_view(label),
                    depth as int,
                );
            }
            let ghost before = self@;
            if text_of(&control, "if") {
                if conditions.len() >= MAX_LOOP_BREAK_BRANCHES {
                    return Err(
                        self.error(ExpressionErrorKind::TooManyLoopBreakBranches, control),
                    );
                }
                let (condition, branch) = self.conditional_exit(label, None, None, depth)?;
                conditions.push(condition);
                branches.push(branch);
                let next = self.take()?;
                if !text_of(&next, "else") {
                    assert(advances(before, self@));
                    control = next;
                    continue;
                }
                let alternative = self.take()?;
                if text_of(&alternative, "if") {
                    assert(advances(before, self@));
                    control = alternative;
                    continue;
                }
                if !kind_of(&alternative, TokenKind::OpenBrace) {
                    return Err(self.error(ExpressionErrorKind::ExpectedOpenBrace, alternative));
                }
                let otherwise = self.braced_break(label, None, None, depth)?;
                let close = self.close_loop()?;
                return Ok(LoopExits { conditions, branches, otherwise, close });
            }
            let break_token = match control {
                Some(token) => token,
                None => return Err(self.error(ExpressionErrorKind::ExpectedExpression, None)),
            };
            if !same_text(break_token.text, "break") {
                return Err(self.error(ExpressionErrorKind::ExpectedExpression, control));
            }
            self.value_loop_break_target(label, None)?;
            let operand = self.loop_break_operand(depth + 1)?;
            if !self.next_reads("break")? {
                let close = self.close_loop()?;
                return Ok(LoopExits { conditions, branches, otherwise: operand, close });
            }
            if conditions.len() >= MAX_LOOP_BREAK_BRANCHES {
                return Err(self.error(ExpressionErrorKind::TooManyLoopBreakBranches, control));
            }
            let condition = self.push(ExprKind::Bool(true), break_token.span)?;
            conditions.push(condition);
            branches.push(operand);
            control = self.take()?;
            assert(advances(before, self@));
        }
    }

    pub(crate) fn loop_break_expression(
        &mut self,
        loop_token: Token<'source>,
        label: Option<Token<'source>>,
        depth: usize,
    ) -> (result: Result<
        ExprId,
        ExpressionError,
    >)
        requires
            stands_inside(old(self)@),
        ensures
            parses(
                final(self)@,
                result,
                parsed_loop(old(self)@, loop_token@, word_view(label), depth as int),
            ),
            result is Ok ==> moves(old(self)@, final(self)@),
            result matches Ok(id) ==> id_known(id, final(self)@.nodes.len() as int),
        decreases room(depth as int), 100int,
    {
        proof {
            parsed_loop_rule(self@, loop_token@, word_view(label), depth as int);
        }
        if refuses_level(depth) {
            return Err(self.error(ExpressionErrorKind::NestingLimitExceeded, Some(loop_token)));
        }
        self.expect_kind(TokenKind::OpenBrace, ExpressionErrorKind::ExpectedOpenBrace)?;
        let token = self.peek()?;
        if kind_of(&token, TokenKind::Lifetime) {
            return self.cross_nested_loop_break_expression(loop_token, label, depth + 1);
        }
        if text_of(&token, "while") {
            self.take()?;
            return self.while_break_condition_expression(loop_token, label, None, depth + 1);
        }
        let control = self.take()?;
        let exits = self.loop_branches(control, loop_token, label, depth)?;
        let span = Span { start: start_of_loop(loop_token, label), end: exits.close.span.end };
        if exits.conditions.len() == 0 {
            return self.push(ExprKind::LoopBreak { operand: exits.otherwise }, span);
        }
        self.push_loop_exits(
            &exits.conditions,
            &exits.branches,
            exits.conditions.len(),
            exits.otherwise,
            span,
        )
    }

    /// The exits of an inner loop from the token `first_control` on.
    pub(crate) fn inner_branches(
        &mut self,
        first_control: Option<Token<'source>>,
        inner: Token<'source>,
        label: Option<Token<'source>>,
        depth: usize,
    ) -> (result: Result<(Vec<ExprId>, Vec<ExprId>, ExprId), ExpressionError>)
        requires
            stands_inside(old(self)@),
            !level_refused(depth as int),
        ensures
            match result {
                Ok((conditions, branches, operand)) => parsed_inner_branches(
                    old(self)@,
                    word_view(first_control),
                    seq![],
                    seq![],
                    inner@,
                    word_view(label),
                    depth as int,
                ) == Ok::<(Parsing, InnerExits), ExpressionError>(
                    (
                        final(self)@,
                        InnerExits { conditions: conditions@, branches: branches@, operand },
                    ),
                ) && moves(old(self)@, final(self)@) && conditions@.len() == branches@.len(),
                Err(error) => parsed_inner_branches(
                    old(self)@,
                    word_view(first_control),
                    seq![],
                    seq![],
                    inner@,
                    word_view(label),
                    depth as int,
                ) == Err::<(Parsing, InnerExits), ExpressionError>(error),
            },
            result matches Ok((conditions, branches, operand)) ==> ids_known(
                conditions@,
                final(self)@.nodes.len() as int,
            )
                && ids_known(branches@, final(self)@.nodes.len() as int)
                && id_known(operand, final(self)@.nodes.len() as int),
        decreases room(depth as int), 90int,
    {
        proof {
            parsed_inner_branches_rule(
                self@,
                word_view(first_control),
                seq![],
                seq![],
                inner@,
                word_view(label),
                depth as int,
            );
        }
        let mut conditions: Vec<ExprId> = Vec::new();
        let mut branches: Vec<ExprId> = Vec::new();
        let mut control = first_control;
        let ghost first = old(self)@;
        let ghost expected = parsed_inner_branches(
            first,
            word_view(first_control),
            seq![],
            seq![],
            inner@,
            word_view(label),
            depth as int,
        );
        proof {
            assert(conditions@ =~= seq![]);
            assert(branches@ =~= seq![]);
        }
        loop
            invariant
                first == old(self)@,
                keeps(first, self@),
                ids_known(conditions@, self@.nodes.len() as int),
                ids_known(branches@, self@.nodes.len() as int),
                stands_inside(self@),
                !level_refused(depth as int),
                conditions@.len() == branches@.len(),
                expected == parsed_inner_branches(
                    first,
                    word_view(first_control),
                    seq![],
                    seq![],
                    inner@,
                    word_view(label),
                    depth as int,
                ),
                expected == parsed_inner_branches(
                    self@,
                    word_view(control),
                    conditions@,
                    branches@,
                    inner@,
                    word_view(label),
                    depth as int,
                ),
            decreases remaining(self@),
        {
            proof {
                parsed_inner_branches_rule(
                    self@,
                    word_view(control),
                    conditions@,
                    branches@,
                    inner@,
                    word_view(label),
                    depth as int,
                );
            }
            let ghost before = self@;
            if text_of(&control, "if") {
                if conditions.len() >= MAX_LOOP_BREAK_BRANCHES {
                    return Err(
                        self.error(ExpressionErrorKind::TooManyLoopBreakBranches, control),
                    );
                }
                let (condition, branch) = self.conditional_exit(
                    Some(inner),
                    label,
                    Some(ValueLoopControlTarget::Enclosing),
                    depth,
                )?;
                conditions.push(condition);
                branches.push(branch);
                let next = self.take()?;
                if !text_of(&next, "else") {
                    assert(advances(before, self@));
                    control = next;
                    continue;
                }
                let alternative = self.take()?;
                if text_of(&alternative, "if") {
                    assert(advances(before, self@));
                    control = alternative;
                    continue;
                }
                if !kind_of(&alternative, TokenKind::OpenBrace) {
                    return Err(self.error(ExpressionErrorKind::ExpectedOpenBrace, alternative));
                }
                let operand = self.braced_break(
                    Some(inner),
                    label,
                    Some(ValueLoopControlTarget::Current),
                    depth,
                )?;
                self.close_loop()?;
                return Ok((conditions, branches, operand));
            }
            if !text_of(&control, "break") {
                return Err(self.error(ExpressionErrorKind::ExpectedExpression, control));
            }
            self.loop_break_label(
                Some(inner),
                label,
                ValueLoopControlTarget::Current,
                control,
            )?;
            let operand = self.loop_break_operand(depth + 1)?;
            self.close_loop()?;
            return Ok((conditions, branches, operand));
        }
    }

    /// The last exit of an outer loop: its operand and the closing brace.
    pub(crate) fn last_exit(&mut self, label: Option<Token<'source>>, depth: usize) -> (result: Result<
        (ExprId, Token<'source>),
        ExpressionError,
    >)
        requires
            stands_inside(old(self)@),
            !level_refused(depth as int),
        ensures
            match result {
                Ok((operand, close)) => parsed_last_exit(
                    old(self)@,
                    word_view(label),
                    depth as int,
                ) == Ok::<(Parsing, (ExprId, Word)), ExpressionError>(
                    (final(self)@, (operand, close@)),
                ) && moves(old(self)@, final(self)@),
                Err(error) => parsed_last_exit(
                    old(self)@,
                    word_view(label),
                    depth as int,
                ) == Err::<(Parsing, (ExprId, Word)), ExpressionError>(error),
            },
            result matches Ok((operand, _)) ==> id_known(operand, final(self)@.nodes.len() as int),
        decreases room(depth as int), 70int,
    {
        proof {
            parsed_last_exit_rule(self@, word_view(label), depth as int);
        }
        let outer_break = self.expect_text("break", ExpressionErrorKind::ExpectedExpression)?;
        self.loop_break_label(
            label,
            None,
            ValueLoopControlTarget::Current,
            Some(outer_break),
        )?;
        let operand = self.loop_break_operand(depth + 1)?;
        let close = self.close_loop()?;
        Ok((operand, close))
    }

    pub(crate) fn cross_nested_loop_break_expression(
        &mut self,
        outer_loop: Token<'source>,
        outer_label: Option<Token<'source>>,
        depth: usize,
    ) -> (result: Result<
        ExprId,
        ExpressionError,
    >)
        requires
            stands_inside(old(self)@),
        ensures
            parses(
                final(self)@,
                result,
                parsed_nested_loop(old(self)@, outer_loop@, word_view(outer_label), depth as int),
            ),
            result is Ok ==> moves(old(self)@, final(self)@),
            result matches Ok(id) ==> id_known(id, final(self)@.nodes.len() as int),
        decreases room(depth as int), 100int,
    {
        proof {
            parsed_nested_loop_rule(self@, outer_loop@, word_view(outer_label), depth as int);
        }
        if refuses_level(depth) {
            return Err(self.error(ExpressionErrorKind::NestingLimitExceeded, Some(outer_loop)));
        }
        let inner_label = match self.take()? {
            Some(token) => token,
            None => return Err(
                self.error(ExpressionErrorKind::ExpectedExpression, self.lookahead()),
            ),
        };
        self.expect_kind(TokenKind::Colon, ExpressionErrorKind::ExpectedColon)?;
        let inner_loop = self.take()?;
        if text_of(&inner_loop, "while") {
            return self.while_break_condition_expression(
                outer_loop,
                outer_label,
                Some(inner_label),
                depth + 1,
            );
        }
        if !text_of(&inner_loop, "loop") {
            return Err(self.error(ExpressionErrorKind::ExpectedExpression, inner_loop));
        }
        self.expect_kind(TokenKind::OpenBrace, ExpressionErrorKind::ExpectedOpenBrace)?;
        let control = self.take()?;
        let (conditions, branches, inner_operand) = self.inner_branches(
            control,
            inner_label,
            outer_label,
            depth,
        )?;
        proof {
            let exits = InnerExits {
                conditions: conditions@,
                branches: branches@,
                operand: inner_operand,
            };
            parsed_outer_exit_rule(self@, exits, outer_loop@, word_view(outer_label), depth as int);
        }
        self.expect_kind(TokenKind::Semicolon, ExpressionErrorKind::TrailingToken)?;
        let (fallback, close) = self.last_exit(outer_label, depth)?;
        let span = Span { start: start_of_loop(outer_loop, outer_label), end: close.span.end };
        let otherwise = self.push(
            ExprKind::Sequence { first: inner_operand, then: fallback },
            span,
        )?;
        self.push_loop_exits(&conditions, &branches, conditions.len(), otherwise, span)
    }

    pub(crate) fn while_break_condition_expression(
        &mut self,
        outer_loop: Token<'source>,
        outer_label: Option<Token<'source>>,
        inner_label: Option<Token<'source>>,
        depth: usize,
    ) -> (result: Result<
        ExprId,
        ExpressionError,
    >)
        requires
            stands_inside(old(self)@),
        ensures
            parses(
                final(self)@,
                result,
                parsed_while(
                    old(self)@,
                    outer_loop@,
                    word_view(outer_label),
                    word_view(inner_label),
                    depth as int,
                ),
            ),
            result is Ok ==> moves(old(self)@, final(self)@),
            result matches Ok(id) ==> id_known(id, final(self)@.nodes.len() as int),
        decreases room(depth as int), 100int,
    {
        proof {
            parsed_while_rule(
                self@,
                outer_loop@,
                word_view(outer_label),
                word_view(inner_label),
                depth as int,
            );
        }
        if refuses_level(depth) {
            return Err(self.error(ExpressionErrorKind::NestingLimitExceeded, Some(outer_loop)));
        }
        let break_token = self.expect_text("break", ExpressionErrorKind::ExpectedExpression)?;
        let target = self.value_loop_break_target(inner_label, outer_label)?;
        let operand = self.loop_break_condition_operand(depth + 1)?;
        if target == ValueLoopControlTarget::Current && !self.node_is_unit(operand, depth + 1) {
            return Err(
                self.error(ExpressionErrorKind::InvalidLoopBreakTarget, Some(break_token)),
            );
        }
        self.expect_kind(TokenKind::OpenBrace, ExpressionErrorKind::ExpectedOpenBrace)?;
        self.skip_unreachable_brace_body()?;
        let start: usize = start_of_loop(outer_loop, outer_label);
        if target == ValueLoopControlTarget::Enclosing {
            let close = self.close_loop()?;
            return self.push(
                ExprKind::LoopBreak { operand },
                Span { start, end: close.span.end },
            );
        }
        let (fallback, close) = self.last_exit(outer_label, depth)?;
        self.push(
            ExprKind::Sequence { first: operand, then: fallback },
            Span { start, end: close.span.end },
        )
    }
}

} // verus!
