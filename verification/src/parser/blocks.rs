//! Blocks and `if`.
use crate::expression::{
    ExprId, ExprKind, ExpressionError, ExpressionErrorKind, LAST_LEVEL, id_known,
    level_refused, refuses_level, room,
};
use crate::grammar::{
    Binding, MAX_INLINE_CONST_ASSIGNMENTS, MAX_INLINE_CONST_BINDINGS,
    MAX_INLINE_CONST_EXPRESSION_STATEMENTS, Parsing, advances, broken_tree, expect_kind,
    expect_operator, next_is, next_reads, parsed_assignment, parsed_binding, parsed_block,
    parsed_bound_expression, parsed_bound_statement, parsed_else, parsed_if,
    parsed_statements, peek, push_unit_at, remaining, take,
};
use crate::rules::{
    parsed_assignment_rule, parsed_binding_rule, parsed_block_rule,
    parsed_bound_expression_rule, parsed_bound_statement_rule, parsed_else_rule,
    parsed_if_rule, parsed_statements_rule,
};
use crate::text::same_text;
use crate::token::{
    Span, Token, TokenKind,
};
use crate::parser::state::{
    Reader, ids_known, keeps, moves, parses, stands_inside,
};
use crate::parser::substitution::{
    InlineConstBinding, binding_models, bindings_known, compound_operator,
};
use vstd::prelude::*;

verus! {

impl<'source, const MAX_NODES: usize> Reader<'source, MAX_NODES> {
    pub(crate) fn scalar_branch_block(&mut self, depth: usize) -> (result: Result<
        (ExprId, usize),
        ExpressionError,
    >)
        requires
            stands_inside(old(self)@),
            depth <= LAST_LEVEL + 2,
        ensures
            parses(final(self)@, result, parsed_block(old(self)@, depth as int)),
            result is Ok ==> moves(old(self)@, final(self)@),
            result matches Ok((value, _)) ==> id_known(value, final(self)@.nodes.len() as int),
        decreases room(depth as int), 50int,
    {
        proof {
            parsed_block_rule(self@, depth as int);
        }
        let (statements, tail) = self.block_statements(depth)?;
        let close = self.expect_kind(
            TokenKind::CloseBrace,
            ExpressionErrorKind::ExpectedCloseBrace,
        )?;
        let value = self.sequence(&statements, statements.len(), tail)?;
        Ok((value, close.span.end))
    }

    pub(crate) fn block_statements(&mut self, depth: usize) -> (result: Result<
        (Vec<ExprId>, ExprId),
        ExpressionError,
    >)
        requires
            stands_inside(old(self)@),
            depth <= LAST_LEVEL + 2,
        ensures
            match result {
                Ok((statements, tail)) => parsed_statements(
                    old(self)@,
                    seq![],
                    0,
                    seq![],
                    depth as int,
                ) == Ok::<(Parsing, (Seq<ExprId>, ExprId)), ExpressionError>(
                    (final(self)@, (statements@, tail)),
                ) && keeps(old(self)@, final(self)@),
                Err(error) => parsed_statements(
                    old(self)@,
                    seq![],
                    0,
                    seq![],
                    depth as int,
                ) == Err::<(Parsing, (Seq<ExprId>, ExprId)), ExpressionError>(error),
            },
            result matches Ok((statements, tail)) ==> ids_known(
                statements@,
                final(self)@.nodes.len() as int,
            ) && id_known(tail, final(self)@.nodes.len() as int),
        decreases room(depth as int), 40int,
    {
        proof {
            parsed_statements_rule(self@, seq![], 0, seq![], depth as int);
        }
        let mut bindings: Vec<InlineConstBinding<'source>> = Vec::new();
        let mut assignments: usize = 0;
        let mut statements: Vec<ExprId> = Vec::new();
        let ghost first = old(self)@;
        let ghost expected = parsed_statements(first, seq![], 0, seq![], depth as int);
        proof {
            assert(binding_models(bindings@) =~= seq![]);
            assert(statements@ =~= seq![]);
        }
        loop
            invariant
                first == old(self)@,
                keeps(first, self@),
                ids_known(statements@, self@.nodes.len() as int),
                bindings_known(binding_models(bindings@), self@.nodes.len() as int),
                stands_inside(self@),
                depth <= LAST_LEVEL + 2,
                assignments <= MAX_INLINE_CONST_ASSIGNMENTS,
                expected == parsed_statements(first, seq![], 0, seq![], depth as int),
                expected == parsed_statements(
                    self@,
                    binding_models(bindings@),
                    assignments as int,
                    statements@,
                    depth as int,
                ),
            decreases remaining(self@),
        {
            proof {
                parsed_statements_rule(
                    self@,
                    binding_models(bindings@),
                    assignments as int,
                    statements@,
                    depth as int,
                );
            }
            let ghost before = self@;
            let token = self.peek()?;
            if let Some(close) = token {
                if close.kind == TokenKind::CloseBrace {
                    let unit = self.push_unit_at(close)?;
                    return Ok((statements, unit));
                }
                if same_text(close.text, "let") {
                    self.inline_const_binding(&mut bindings, depth + 1)?;
                    assert(advances(before, self@));
                    continue;
                }
            }
            if self.inline_const_assignment(&mut bindings, assignments, depth + 1)? {
                assert(advances(before, self@));
                assignments += 1;
                continue;
            }
            let expression = self.bound_expression(&bindings, depth + 1)?;
            if !self.next_is(TokenKind::Semicolon)? {
                return Ok((statements, expression));
            }
            let semicolon = self.take()?;
            if statements.len() >= MAX_INLINE_CONST_EXPRESSION_STATEMENTS {
                return Err(
                    self.error(
                        ExpressionErrorKind::TooManyInlineConstExpressionStatements,
                        semicolon,
                    ),
                );
            }
            statements.push(expression);
            assert(advances(before, self@));
        }
    }

    /// An expression in which the bound names are replaced.
    pub(crate) fn bound_expression(
        &mut self,
        bindings: &Vec<InlineConstBinding<'source>>,
        depth: usize,
    ) -> (result: Result<ExprId, ExpressionError>)
        requires
            stands_inside(old(self)@),
            bindings_known(binding_models(bindings@), old(self)@.nodes.len() as int),
        ensures
            parses(
                final(self)@,
                result,
                parsed_bound_expression(old(self)@, binding_models(bindings@), depth as int),
            ),
            result is Ok ==> moves(old(self)@, final(self)@),
            result matches Ok(id) ==> id_known(id, final(self)@.nodes.len() as int),
        decreases room(depth as int), 25int,
    {
        proof {
            parsed_bound_expression_rule(self@, binding_models(bindings@), depth as int);
        }
        let expression = self.expression(0, depth)?;
        self.apply_bindings(expression, bindings, bindings.len(), depth)?;
        Ok(expression)
    }

    /// The same with a semicolon behind the expression.
    pub(crate) fn bound_statement(
        &mut self,
        bindings: &Vec<InlineConstBinding<'source>>,
        depth: usize,
    ) -> (result: Result<ExprId, ExpressionError>)
        requires
            stands_inside(old(self)@),
            bindings_known(binding_models(bindings@), old(self)@.nodes.len() as int),
        ensures
            parses(
                final(self)@,
                result,
                parsed_bound_statement(old(self)@, binding_models(bindings@), depth as int),
            ),
            result is Ok ==> moves(old(self)@, final(self)@),
            result matches Ok(id) ==> id_known(id, final(self)@.nodes.len() as int),
        decreases room(depth as int), 25int,
    {
        proof {
            parsed_bound_statement_rule(self@, binding_models(bindings@), depth as int);
        }
        let expression = self.expression(0, depth)?;
        self.expect_kind(TokenKind::Semicolon, ExpressionErrorKind::ExpectedSemicolon)?;
        self.apply_bindings(expression, bindings, bindings.len(), depth)?;
        Ok(expression)
    }

    pub(crate) fn inline_const_binding(
        &mut self,
        bindings: &mut Vec<InlineConstBinding<'source>>,
        depth: usize,
    ) -> (result: Result<(), ExpressionError>)
        requires
            stands_inside(old(self)@),
            depth <= LAST_LEVEL + 3,
            bindings_known(binding_models(old(bindings)@), old(self)@.nodes.len() as int),
        ensures
            match result {
                Ok(()) => parsed_binding(
                    old(self)@,
                    binding_models(old(bindings)@),
                    depth as int,
                ) == Ok::<(Parsing, Seq<Binding>), ExpressionError>(
                    (final(self)@, binding_models(final(bindings)@)),
                ) && moves(old(self)@, final(self)@),
                Err(error) => parsed_binding(
                    old(self)@,
                    binding_models(old(bindings)@),
                    depth as int,
                ) == Err::<(Parsing, Seq<Binding>), ExpressionError>(error),
            },
            result is Ok ==> bindings_known(
                binding_models(final(bindings)@),
                final(self)@.nodes.len() as int,
            ),
        decreases room(depth as int), 30int,
    {
        proof {
            parsed_binding_rule(self@, binding_models(old(bindings)@), depth as int);
        }
        let let_token = self.take()?;
        if bindings.len() >= MAX_INLINE_CONST_BINDINGS {
            return Err(self.error(ExpressionErrorKind::TooManyInlineConstBindings, let_token));
        }
        let mutable: bool = self.mut_keyword()?;
        let name = self.expect_kind(
            TokenKind::Identifier,
            ExpressionErrorKind::ExpectedIdentifier,
        )?;
        let annotation = self.annotation()?;
        self.expect_operator("=", ExpressionErrorKind::ExpectedEquals)?;
        let value = self.bound_statement(bindings, depth + 1)?;
        let kind = self.kind_of_node(value, name.span)?;
        let kind = self.annotate(kind, annotation, name, value)?;
        let binding = InlineConstBinding { name: name.text, kind, mutable, annotation };
        bindings.push(binding);
        proof {
            assert(binding_models(bindings@) =~= binding_models(old(bindings)@).push(
                binding.model(),
            ));
        }
        Ok(())
    }

    pub(crate) fn inline_const_assignment(
        &mut self,
        bindings: &mut Vec<InlineConstBinding<'source>>,
        assignments: usize,
        depth: usize,
    ) -> (result: Result<bool, ExpressionError>)
        requires
            stands_inside(old(self)@),
            depth <= LAST_LEVEL + 3,
            bindings_known(binding_models(old(bindings)@), old(self)@.nodes.len() as int),
        ensures
            match result {
                Ok(assigned) => {
                    &&& parsed_assignment(
                        old(self)@,
                        binding_models(old(bindings)@),
                        assignments as int,
                        depth as int,
                    ) == Ok::<(Parsing, Option<Seq<Binding>>), ExpressionError>(
                        (
                            final(self)@,
                            if assigned {
                                Some(binding_models(final(bindings)@))
                            } else {
                                None
                            },
                        ),
                    )
                    &&& assigned ==> moves(old(self)@, final(self)@) && assignments
                        < MAX_INLINE_CONST_ASSIGNMENTS
                    &&& !assigned ==> final(self)@ == old(self)@ && final(bindings)@ == old(
                        bindings,
                    )@
                },
                Err(error) => parsed_assignment(
                    old(self)@,
                    binding_models(old(bindings)@),
                    assignments as int,
                    depth as int,
                ) == Err::<(Parsing, Option<Seq<Binding>>), ExpressionError>(error),
            },
            result is Ok ==> bindings_known(
                binding_models(final(bindings)@),
                final(self)@.nodes.len() as int,
            ),
        decreases room(depth as int), 30int,
    {
        proof {
            parsed_assignment_rule(self@, binding_models(old(bindings)@), assignments as int, depth as int);
        }
        let (position, looked) = self.checkpoint();
        let first = self.take()?;
        let name = match first {
            Some(name) => name,
            None => {
                self.restore(position, looked);
                return Ok(false);
            },
        };
        if name.kind != TokenKind::Identifier {
            self.restore(position, looked);
            return Ok(false);
        }
        let place: usize = match Self::binding_index(bindings, name.text, bindings.len()) {
            Some(place) => place,
            None => {
                self.restore(position, looked);
                return Ok(false);
            },
        };
        let second = self.take()?;
        let operator = match second {
            Some(operator) => operator,
            None => {
                self.restore(position, looked);
                return Ok(false);
            },
        };
        if operator.kind != TokenKind::Operator || !(same_text(operator.text, "=")
            || compound_operator(operator.text).is_some()) {
            self.restore(position, looked);
            return Ok(false);
        }
        if assignments >= MAX_INLINE_CONST_ASSIGNMENTS {
            return Err(
                ExpressionError {
                    kind: ExpressionErrorKind::TooManyInlineConstAssignments,
                    span: operator.span,
                },
            );
        }
        let binding = bindings[place];
        assert(binding_models(bindings@)[place as int] == binding.model());
        if !binding.mutable {
            return Err(
                ExpressionError {
                    kind: ExpressionErrorKind::ImmutableInlineConstAssignment,
                    span: name.span,
                },
            );
        }
        let value = self.bound_statement(bindings, depth + 1)?;
        let kind = self.assigned_kind(binding, operator, name, value)?;
        let updated = InlineConstBinding {
            name: binding.name,
            kind,
            mutable: binding.mutable,
            annotation: binding.annotation,
        };
        bindings.set(place, updated);
        proof {
            assert(binding_models(bindings@) =~= binding_models(old(bindings)@).update(
                place as int,
                updated.model(),
            ));
        }
        Ok(true)
    }

    pub(crate) fn if_expression(&mut self, if_token: Token<'source>, depth: usize) -> (result: Result<
        ExprId,
        ExpressionError,
    >)
        requires
            stands_inside(old(self)@),
        ensures
            parses(final(self)@, result, parsed_if(old(self)@, if_token@, depth as int)),
            result is Ok ==> moves(old(self)@, final(self)@),
            result matches Ok(id) ==> id_known(id, final(self)@.nodes.len() as int),
        decreases room(depth as int), 20int,
    {
        proof {
            parsed_if_rule(self@, if_token@, depth as int);
        }
        if refuses_level(depth) {
            return Err(self.error(ExpressionErrorKind::NestingLimitExceeded, Some(if_token)));
        }
        let condition = self.expression(0, depth + 1)?;
        self.expect_kind(TokenKind::OpenBrace, ExpressionErrorKind::ExpectedOpenBrace)?;
        let (then_branch, then_end) = self.scalar_branch_block(depth + 1)?;
        let (else_branch, end) = self.else_branch(then_branch, then_end, depth)?;
        self.push(
            ExprKind::If { condition, then_branch, else_branch },
            Span { start: if_token.span.start, end },
        )
    }

    pub(crate) fn else_branch(
        &mut self,
        then_branch: ExprId,
        then_end: usize,
        depth: usize,
    ) -> (result: Result<
        (ExprId, usize),
        ExpressionError,
    >)
        requires
            stands_inside(old(self)@),
            !level_refused(depth as int),
        ensures
            parses(final(self)@, result, parsed_else(old(self)@, then_branch, then_end, depth as int)),
            result is Ok ==> keeps(old(self)@, final(self)@),
            result matches Ok((value, _)) ==> id_known(value, final(self)@.nodes.len() as int),
        decreases room(depth as int), 10int,
    {
        proof {
            parsed_else_rule(self@, then_branch, then_end, depth as int);
        }
        if !self.next_reads("else")? {
            if !self.node_is_unit(then_branch, depth + 1) {
                let token = self.peek()?;
                return Err(self.error(ExpressionErrorKind::ExpectedElse, token));
            }
            let unit = self.push(ExprKind::Unit, Span { start: then_end, end: then_end })?;
            return Ok((unit, then_end));
        }
        self.take()?;
        if self.next_reads("if")? {
            let nested = self.take()?;
            return match nested {
                Some(token) => {
                    let branch = self.if_expression(token, depth + 1)?;
                    let end: usize = self.node_span(branch)?.end;
                    Ok((branch, end))
                },
                None => Err(self.broken_tree()),
            };
        }
        self.expect_kind(TokenKind::OpenBrace, ExpressionErrorKind::ExpectedOpenBrace)?;
        self.scalar_branch_block(depth + 1)
    }
}

} // verus!
