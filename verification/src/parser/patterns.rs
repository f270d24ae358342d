//! Patterns of `match` arms.
use crate::expression::{
    ExprId, ExprKind, ExpressionError, ExpressionErrorKind, LAST_LEVEL, id_known,
    level_refused, option_known, order_leaves_nothing, refuses_level, room, text_view,
};
use crate::grammar::{
    Binding, MAX_MATCH_ALTERNATIVES, Parsing, Pattern, PatternBody, bound_name, bound_span,
    bounds_span, deciding_body, expect_kind, front, grouped_binding, is_boolean_bound,
    is_operator, lookahead, name_form, nesting_error, next_is, next_operator,
    parsed_alternatives, parsed_alternatives_list, parsed_group, parsed_pattern,
    parsed_pattern_bound, parsed_range_pattern, parsed_simple_alternatives, pattern_body,
    peek, push_character, push_integer, range_pattern, remaining, take,
};
use crate::integer::UnaryOperator;
use crate::text::{
    characters, same_text,
};
use crate::token::{
    Span, TokenKind,
};
use crate::parser::state::{
    Reader, keeps, kind_of, moves, operator_of, parses, pattern_known, patterns_known,
    stands_inside, text_of,
};
use vstd::prelude::*;

verus! {

#[derive(Clone, Copy)]
pub enum MatchPattern<'source> {
    Wildcard,
    Binding(&'source str),
    Value(ExprId),
    Range { start: Option<ExprId>, end: Option<ExprId>, inclusive: bool },
    BindingAt { name: &'source str, body: PatternBody },
}

impl<'source> MatchPattern<'source> {
    pub open spec fn model(&self) -> Pattern {
        match *self {
            MatchPattern::Wildcard => Pattern::Wildcard,
            MatchPattern::Binding(name) => Pattern::Binding(name@),
            MatchPattern::Value(value) => Pattern::Value(value),
            MatchPattern::Range { start, end, inclusive } => Pattern::Range {
                start,
                end,
                inclusive,
            },
            MatchPattern::BindingAt { name, body } => Pattern::BindingAt { name: name@, body },
        }
    }

    pub fn body(self) -> (result: Option<PatternBody>)
        ensures
            result == pattern_body(self.model()),
    {
        match self {
            MatchPattern::Wildcard => Some(PatternBody::Wildcard),
            MatchPattern::Value(value) => Some(PatternBody::Value(value)),
            MatchPattern::Range { start, end, inclusive } => Some(
                PatternBody::Range { start, end, inclusive },
            ),
            _ => None,
        }
    }

    pub fn bound_name(self) -> (result: Option<&'source str>)
        ensures
            text_view(result) == bound_name(self.model()),
    {
        match self {
            MatchPattern::Binding(name) => Some(name),
            MatchPattern::BindingAt { name, .. } => Some(name),
            _ => None,
        }
    }

    pub fn deciding_body(self) -> (result: PatternBody)
        ensures
            result == deciding_body(self.model()),
    {
        match self {
            MatchPattern::BindingAt { body, .. } => body,
            MatchPattern::Binding(_) | MatchPattern::Wildcard => PatternBody::Wildcard,
            MatchPattern::Value(value) => PatternBody::Value(value),
            MatchPattern::Range { start, end, inclusive } => PatternBody::Range {
                start,
                end,
                inclusive,
            },
        }
    }
}

pub open spec fn pattern_models(patterns: Seq<MatchPattern>) -> Seq<Pattern> {
    patterns.map_values(|pattern: MatchPattern| pattern.model())
}

impl<'source, const MAX_NODES: usize> Reader<'source, MAX_NODES> {
    pub(crate) fn match_pattern_bound(&mut self, depth: usize) -> (result: Result<ExprId, ExpressionError>)
        requires
            stands_inside(old(self)@),
        ensures
            parses(final(self)@, result, parsed_pattern_bound(old(self)@, depth as int)),
            result is Ok ==> moves(old(self)@, final(self)@),
            result matches Ok(id) ==> id_known(id, final(self)@.nodes.len() as int),
    {
        if refuses_level(depth) {
            return Err(self.nesting_error());
        }
        let token = match self.take()? {
            Some(token) => token,
            None => return Err(self.error(ExpressionErrorKind::ExpectedMatchPattern, None)),
        };
        if token.kind == TokenKind::Integer {
            self.push_integer(token)
        } else if token.kind == TokenKind::Character {
            self.push_character(token)
        } else if same_text(token.text, "true") || same_text(token.text, "false") {
            let value: bool = same_text(token.text, "true");
            self.push(ExprKind::Bool(value), token.span)
        } else if token.kind == TokenKind::Identifier && !same_text(token.text, "_") && !same_text(
            token.text,
            "mut",
        ) {
            self.push(ExprKind::Identifier(token.text), token.span)
        } else if token.kind == TokenKind::Operator && same_text(token.text, "-") {
            let literal = self.expect_kind(
                TokenKind::Integer,
                ExpressionErrorKind::ExpectedMatchPattern,
            )?;
            let operand = self.push_integer(literal)?;
            self.push(
                ExprKind::Unary { operator: UnaryOperator::Negate, operand },
                Span { start: token.span.start, end: literal.span.end },
            )
        } else {
            Err(self.error(ExpressionErrorKind::ExpectedMatchPattern, Some(token)))
        }
    }

    pub(crate) fn boolean_bound(&self, bound: Option<ExprId>) -> (result: bool)
        ensures
            result == is_boolean_bound(self@, bound),
    {
        match bound {
            Some(id) => match self.expression_at(id) {
                Some(expression) => match expression.kind {
                    ExprKind::Bool(_) => true,
                    _ => false,
                },
                None => false,
            },
            None => false,
        }
    }

    pub(crate) fn bounds_span(&self, start: Option<ExprId>, end: Option<ExprId>) -> (result: Span)
        ensures
            result == bounds_span(self@, start, end),
    {
        proof {
            reveal(Reader::state);
        }
        let first = match self.bound_span(start) {
            Some(span) => Some(span),
            None => self.bound_span(end),
        };
        let last = match self.bound_span(end) {
            Some(span) => Some(span),
            None => first,
        };
        let from: usize = match first {
            Some(span) => span.start,
            None => 0,
        };
        let to: usize = match last {
            Some(span) => span.end,
            None => self.source_len,
        };
        Span { start: from, end: to }
    }

    pub(crate) fn check_range(&self, start: Option<ExprId>, end: Option<ExprId>, inclusive: bool) -> (result:
        Result<MatchPattern<'source>, ExpressionError>)
        ensures
            match result {
                Ok(pattern) => range_pattern(self@, start, end, inclusive) == Ok::<
                    (Parsing, Pattern),
                    ExpressionError,
                >((self@, pattern.model())),
                Err(error) => range_pattern(self@, start, end, inclusive) == Err::<
                    (Parsing, Pattern),
                    ExpressionError,
                >(error),
            },
            result matches Ok(pattern) ==> option_known(start, self@.nodes.len() as int) && option_known(
                end,
                self@.nodes.len() as int,
            ) ==> pattern_known(pattern.model(), self@.nodes.len() as int),
    {
        let pattern = MatchPattern::Range { start, end, inclusive };
        if self.boolean_bound(start) || self.boolean_bound(end) {
            return Err(
                ExpressionError {
                    kind: ExpressionErrorKind::InvalidRangeType,
                    span: self.bounds_span(start, end),
                },
            );
        }
        if let (Some(first), Some(last)) = (start, end) {
            if let (Some(low), Some(high)) = (
                self.pattern_order_value(first),
                self.pattern_order_value(last),
            ) {
                if let Some(order) = low.compare(high) {
                    if order_leaves_nothing(order, inclusive) {
                        let from: usize = self.node_span(first)?.start;
                        let to: usize = self.node_span(last)?.end;
                        return Err(
                            ExpressionError {
                                kind: ExpressionErrorKind::InvalidRangeBounds,
                                span: Span { start: from, end: to },
                            },
                        );
                    }
                }
            }
        }
        Ok(pattern)
    }

    pub(crate) fn range_pattern(&mut self, start: Option<ExprId>, depth: usize) -> (result: Result<
        MatchPattern<'source>,
        ExpressionError,
    >)
        requires
            stands_inside(old(self)@),
            depth <= LAST_LEVEL + 2,
            option_known(start, old(self)@.nodes.len() as int),
        ensures
            match result {
                Ok(pattern) => parsed_range_pattern(old(self)@, start, depth as int) == Ok::<
                    (Parsing, Pattern),
                    ExpressionError,
                >((final(self)@, pattern.model())) && moves(old(self)@, final(self)@),
                Err(error) => parsed_range_pattern(old(self)@, start, depth as int) == Err::<
                    (Parsing, Pattern),
                    ExpressionError,
                >(error),
            },
            result matches Ok(pattern) ==> pattern_known(pattern.model(), final(self)@.nodes.len() as int),
    {
        self.take()?;
        self.expect_kind(TokenKind::Dot, ExpressionErrorKind::ExpectedMatchPattern)?;
        if self.next_operator("=")? {
            self.take()?;
            let end = self.match_pattern_bound(depth + 1)?;
            return self.check_range(start, Some(end), true);
        }
        let token = self.peek()?;
        if kind_of(&token, TokenKind::FatArrow) || operator_of(&token, "|") {
            self.check_range(start, None, false)
        } else {
            let end = self.match_pattern_bound(depth + 1)?;
            self.check_range(start, Some(end), false)
        }
    }

    pub(crate) fn name_of_node(&self, id: ExprId) -> (result: Option<&'source str>)
        ensures
            text_view(result) == name_form(self@.nodes, id),
    {
        match self.expression_at(id) {
            Some(expression) => match expression.kind {
                ExprKind::Identifier(name) => Some(name),
                _ => None,
            },
            None => None,
        }
    }

    pub(crate) fn match_pattern(&mut self, depth: usize) -> (result: Result<
        MatchPattern<'source>,
        ExpressionError,
    >)
        requires
            stands_inside(old(self)@),
            depth <= LAST_LEVEL + 1,
        ensures
            match result {
                Ok(pattern) => parsed_pattern(old(self)@, depth as int) == Ok::<
                    (Parsing, Pattern),
                    ExpressionError,
                >((final(self)@, pattern.model())) && moves(old(self)@, final(self)@),
                Err(error) => parsed_pattern(old(self)@, depth as int) == Err::<
                    (Parsing, Pattern),
                    ExpressionError,
                >(error),
            },
            result matches Ok(pattern) ==> pattern_known(pattern.model(), final(self)@.nodes.len() as int),
        decreases room(depth as int),
    {
        let token = self.peek()?;
        if kind_of(&token, TokenKind::Identifier) && text_of(&token, "_") {
            self.take()?;
            return Ok(MatchPattern::Wildcard);
        }
        if kind_of(&token, TokenKind::Dot) {
            return self.range_pattern(None, depth);
        }
        let start = self.match_pattern_bound(depth + 1)?;
        if self.next_operator("@")? {
            let name: &'source str = match self.name_of_node(start) {
                Some(name) => name,
                None => return Err(
                    self.error(ExpressionErrorKind::ExpectedIdentifier, self.lookahead()),
                ),
            };
            self.take()?;
            let pattern = self.match_pattern(depth + 1)?;
            return match pattern.body() {
                Some(body) => Ok(MatchPattern::BindingAt { name, body }),
                None => Err(
                    self.error(ExpressionErrorKind::ExpectedMatchPattern, self.lookahead()),
                ),
            };
        }
        let next = self.peek()?;
        if kind_of(&next, TokenKind::Dot) {
            return self.range_pattern(Some(start), depth);
        }
        match self.name_of_node(start) {
            Some(name) => {
                let c: Vec<char> = characters(name);
                if c.len() > 0 && 'a' <= c[0] && c[0] <= 'z' {
                    Ok(MatchPattern::Binding(name))
                } else {
                    Ok(MatchPattern::Value(start))
                }
            },
            None => Ok(MatchPattern::Value(start)),
        }
    }

    /// The name of a grouped binding `name @ (` that comes next.
    pub(crate) fn grouped_binding(&mut self) -> (result: Result<Option<&'source str>, ExpressionError>)
        requires
            stands_inside(old(self)@),
        ensures
            match result {
                Ok(name) => grouped_binding(old(self)@) == Ok::<
                    (Parsing, Option<Seq<char>>),
                    ExpressionError,
                >((final(self)@, text_view(name))) && keeps(old(self)@, final(self)@),
                Err(error) => grouped_binding(old(self)@) == Err::<
                    (Parsing, Option<Seq<char>>),
                    ExpressionError,
                >(error),
            },
    {
        let (position, looked) = self.checkpoint();
        let candidate = self.take()?;
        let at = self.take()?;
        if let Some(token) = candidate {
            if token.kind == TokenKind::Identifier && !same_text(token.text, "_") && operator_of(
                &at,
                "@",
            ) {
                if let Ok(open) = self.peek() {
                    if kind_of(&open, TokenKind::OpenParen) {
                        return Ok(Some(token.text));
                    }
                }
            }
        }
        self.restore(position, looked);
        Ok(None)
    }

    pub(crate) fn append_match_pattern_alternatives(
        &mut self,
        alternatives: &mut Vec<MatchPattern<'source>>,
        depth: usize,
    ) -> (result: Result<(), ExpressionError>)
        requires
            stands_inside(old(self)@),
            depth <= LAST_LEVEL,
            patterns_known(pattern_models(old(alternatives)@), old(self)@.nodes.len() as int),
        ensures
            match result {
                Ok(()) => parsed_alternatives(
                    old(self)@,
                    pattern_models(old(alternatives)@),
                    None,
                    depth as int,
                ) == Ok::<(Parsing, Seq<Pattern>), ExpressionError>(
                    (final(self)@, pattern_models(final(alternatives)@)),
                ) && moves(old(self)@, final(self)@),
                Err(error) => parsed_alternatives(
                    old(self)@,
                    pattern_models(old(alternatives)@),
                    None,
                    depth as int,
                ) == Err::<(Parsing, Seq<Pattern>), ExpressionError>(error),
            },
            result is Ok ==> patterns_known(
                pattern_models(final(alternatives)@),
                final(self)@.nodes.len() as int,
            ),
    {
        self.append_match_pattern_alternatives_with_binding(alternatives, None, depth)
    }

    pub(crate) fn append_match_pattern_alternatives_with_binding(
        &mut self,
        alternatives: &mut Vec<MatchPattern<'source>>,
        binding: Option<&'source str>,
        depth: usize,
    ) -> (result: Result<(), ExpressionError>)
        requires
            stands_inside(old(self)@),
            depth <= LAST_LEVEL,
            patterns_known(pattern_models(old(alternatives)@), old(self)@.nodes.len() as int),
        ensures
            match result {
                Ok(()) => parsed_alternatives(
                    old(self)@,
                    pattern_models(old(alternatives)@),
                    text_view(binding),
                    depth as int,
                ) == Ok::<(Parsing, Seq<Pattern>), ExpressionError>(
                    (final(self)@, pattern_models(final(alternatives)@)),
                ) && moves(old(self)@, final(self)@),
                Err(error) => parsed_alternatives(
                    old(self)@,
                    pattern_models(old(alternatives)@),
                    text_view(binding),
                    depth as int,
                ) == Err::<(Parsing, Seq<Pattern>), ExpressionError>(error),
            },
            result is Ok ==> patterns_known(
                pattern_models(final(alternatives)@),
                final(self)@.nodes.len() as int,
            ),
        decreases room(depth as int), 2int,
    {
        if refuses_level(depth) {
            return Err(self.nesting_error());
        }
        if binding.is_none() {
            if let Some(name) = self.grouped_binding()? {
                return self.append_match_pattern_alternatives_with_binding(
                    alternatives,
                    Some(name),
                    depth + 1,
                );
            }
        }
        self.append_simple_alternatives(alternatives, binding, depth)
    }

    pub(crate) fn append_simple_alternatives(
        &mut self,
        alternatives: &mut Vec<MatchPattern<'source>>,
        binding: Option<&'source str>,
        depth: usize,
    ) -> (result: Result<(), ExpressionError>)
        requires
            stands_inside(old(self)@),
            !level_refused(depth as int),
            patterns_known(pattern_models(old(alternatives)@), old(self)@.nodes.len() as int),
        ensures
            match result {
                Ok(()) => parsed_simple_alternatives(
                    old(self)@,
                    pattern_models(old(alternatives)@),
                    text_view(binding),
                    depth as int,
                ) == Ok::<(Parsing, Seq<Pattern>), ExpressionError>(
                    (final(self)@, pattern_models(final(alternatives)@)),
                ) && moves(old(self)@, final(self)@),
                Err(error) => parsed_simple_alternatives(
                    old(self)@,
                    pattern_models(old(alternatives)@),
                    text_view(binding),
                    depth as int,
                ) == Err::<(Parsing, Seq<Pattern>), ExpressionError>(error),
            },
            result is Ok ==> patterns_known(
                pattern_models(final(alternatives)@),
                final(self)@.nodes.len() as int,
            ),
        decreases room(depth as int), 1int,
    {
        if self.next_is(TokenKind::OpenParen)? {
            self.take()?;
            if self.next_operator("|")? {
                self.take()?;
            }
            return self.append_group(alternatives, binding, depth);
        }
        if alternatives.len() >= MAX_MATCH_ALTERNATIVES {
            return Err(
                self.error(ExpressionErrorKind::TooManyMatchAlternatives, self.lookahead()),
            );
        }
        let pattern = self.match_pattern(depth + 1)?;
        let found = match binding {
            None => pattern,
            Some(name) => match pattern.body() {
                Some(body) => MatchPattern::BindingAt { name, body },
                None => return Err(
                    self.error(ExpressionErrorKind::ExpectedMatchPattern, self.lookahead()),
                ),
            },
        };
        alternatives.push(found);
        proof {
            assert(pattern_models(alternatives@) =~= pattern_models(old(alternatives)@).push(
                found.model(),
            ));
        }
        Ok(())
    }

    pub(crate) fn append_group(
        &mut self,
        alternatives: &mut Vec<MatchPattern<'source>>,
        binding: Option<&'source str>,
        depth: usize,
    ) -> (result: Result<(), ExpressionError>)
        requires
            stands_inside(old(self)@),
            !level_refused(depth as int),
            patterns_known(pattern_models(old(alternatives)@), old(self)@.nodes.len() as int),
        ensures
            match result {
                Ok(()) => parsed_group(
                    old(self)@,
                    pattern_models(old(alternatives)@),
                    text_view(binding),
                    depth as int,
                ) == Ok::<(Parsing, Seq<Pattern>), ExpressionError>(
                    (final(self)@, pattern_models(final(alternatives)@)),
                ) && moves(old(self)@, final(self)@),
                Err(error) => parsed_group(
                    old(self)@,
                    pattern_models(old(alternatives)@),
                    text_view(binding),
                    depth as int,
                ) == Err::<(Parsing, Seq<Pattern>), ExpressionError>(error),
            },
            result is Ok ==> patterns_known(
                pattern_models(final(alternatives)@),
                final(self)@.nodes.len() as int,
            ),
        decreases room(depth as int), 0int,
    {
        let ghost first = self@;
        let ghost expected = parsed_group(
            self@,
            pattern_models(alternatives@),
            text_view(binding),
            depth as int,
        );
        loop
            invariant_except_break
                expected == parsed_group(
                    self@,
                    pattern_models(alternatives@),
                    text_view(binding),
                    depth as int,
                ),
            invariant
                stands_inside(self@),
                keeps(first, self@),
                patterns_known(pattern_models(alternatives@), self@.nodes.len() as int),
                !level_refused(depth as int),
                first == old(self)@,
                expected == parsed_group(
                    first,
                    pattern_models(old(alternatives)@),
                    text_view(binding),
                    depth as int,
                ),
            ensures
                moves(first, self@),
                front(self@) is Some ==> !is_operator(front(self@), "|"@),
                expected == match expect_kind(
                    self@,
                    TokenKind::CloseParen,
                    ExpressionErrorKind::ExpectedCloseParen,
                ) {
                    Err(error) => Err::<(Parsing, Seq<Pattern>), ExpressionError>(error),
                    Ok((q, _)) => Ok((q, pattern_models(alternatives@))),
                },
            decreases remaining(self@),
        {
            if self.next_is(TokenKind::CloseParen)? {
                return Err(
                    self.error(ExpressionErrorKind::ExpectedMatchPattern, self.lookahead()),
                );
            }
            self.append_match_pattern_alternatives_with_binding(alternatives, binding, depth + 1)?;
            if !self.next_operator("|")? {
                break;
            }
            self.take()?;
        }
        self.expect_kind(TokenKind::CloseParen, ExpressionErrorKind::ExpectedCloseParen)?;
        Ok(())
    }

    pub(crate) fn alternatives_list(&mut self, depth: usize) -> (result: Result<
        Vec<MatchPattern<'source>>,
        ExpressionError,
    >)
        requires
            stands_inside(old(self)@),
            !level_refused(depth as int),
        ensures
            match result {
                Ok(alternatives) => parsed_alternatives_list(
                    old(self)@,
                    seq![],
                    depth as int,
                ) == Ok::<(Parsing, Seq<Pattern>), ExpressionError>(
                    (final(self)@, pattern_models(alternatives@)),
                ) && moves(old(self)@, final(self)@),
                Err(error) => parsed_alternatives_list(old(self)@, seq![], depth as int) == Err::<
                    (Parsing, Seq<Pattern>),
                    ExpressionError,
                >(error),
            },
            result matches Ok(alternatives) ==> patterns_known(
                pattern_models(alternatives@),
                final(self)@.nodes.len() as int,
            ),
    {
        proof {
            reveal(parsed_alternatives_list);
        }
        let mut alternatives: Vec<MatchPattern<'source>> = Vec::new();
        let ghost first = old(self)@;
        let ghost expected = parsed_alternatives_list(first, seq![], depth as int);
        proof {
            assert(pattern_models(alternatives@) =~= seq![]);
        }
        loop
            invariant_except_break
                expected == parsed_alternatives_list(
                    self@,
                    pattern_models(alternatives@),
                    depth as int,
                ),
            invariant
                first == old(self)@,
                expected == parsed_alternatives_list(first, seq![], depth as int),
                keeps(first, self@),
                patterns_known(pattern_models(alternatives@), self@.nodes.len() as int),
                stands_inside(self@),
                !level_refused(depth as int),
            ensures
                expected == Ok::<(Parsing, Seq<Pattern>), ExpressionError>(
                    (self@, pattern_models(alternatives@)),
                ),
                moves(first, self@),
            decreases remaining(self@),
        {
            proof {
                reveal(parsed_alternatives_list);
            }
            self.append_match_pattern_alternatives(&mut alternatives, depth + 1)?;
            if !self.next_operator("|")? {
                break;
            }
            self.take()?;
        }
        Ok(alternatives)
    }
}

} // verus!
