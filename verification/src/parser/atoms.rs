//! Operands without operators.
use crate::expression::{
    ExprId, ExprKind, ExpressionError, ExpressionErrorKind, LAST_LEVEL, MAX_ARRAY_ELEMENTS,
    MAX_CALL_ARGUMENTS, id_known, level_refused, refuses_level, room,
};
use crate::grammar::{
    Parsing, closed_array, closed_call, expect_kind, expect_text, nesting_error, next_is,
    padded, parsed_arguments, parsed_array, parsed_atom, parsed_atom_from, parsed_block,
    parsed_break, parsed_default, parsed_elements, parsed_labelled, parsed_loop,
    parsed_name, parsed_nested_break_operand, parsed_parentheses, parsed_plain_atom,
    parsed_plain_name, parsed_repeat, peek, push_character, push_from, push_integer,
    push_unit_at, remaining, take,
};
use crate::rules::{
    parsed_arguments_rule, parsed_array_rule, parsed_atom_from_rule, parsed_atom_rule,
    parsed_block_rule, parsed_break_rule, parsed_elements_rule, parsed_labelled_rule,
    parsed_name_rule, parsed_nested_break_operand_rule, parsed_parentheses_rule,
    parsed_plain_atom_rule, parsed_plain_name_rule,
};
use crate::literal::decode_integer;
use crate::text::same_text;
use crate::token::{
    Span, Token, TokenKind,
};
use crate::parser::state::{
    Reader, ids_known, keeps, moves, parses, stands_inside,
};
use vstd::prelude::*;

verus! {

/// The id at a place of a list, if the list is that long.
pub fn id_at(ids: &Vec<ExprId>, place: usize) -> (result: Option<ExprId>)
    ensures
        result == (if place < ids@.len() {
            Some(ids@[place as int])
        } else {
            None
        }),
{
    if place < ids.len() {
        Some(ids[place])
    } else {
        None
    }
}

pub fn argument_array(ids: &Vec<ExprId>) -> (result: [Option<ExprId>; MAX_CALL_ARGUMENTS])
    ensures
        result@ == padded(ids@, MAX_CALL_ARGUMENTS as nat),
{
    let result = [id_at(ids, 0), id_at(ids, 1), id_at(ids, 2), id_at(ids, 3)];
    proof {
        assert(result@ =~= padded(ids@, MAX_CALL_ARGUMENTS as nat));
    }
    result
}

pub fn element_array(ids: &Vec<ExprId>) -> (result: [Option<ExprId>; MAX_ARRAY_ELEMENTS])
    ensures
        result@ == padded(ids@, MAX_ARRAY_ELEMENTS as nat),
{
    let result = [
        id_at(ids, 0),
        id_at(ids, 1),
        id_at(ids, 2),
        id_at(ids, 3),
        id_at(ids, 4),
        id_at(ids, 5),
        id_at(ids, 6),
        id_at(ids, 7),
        id_at(ids, 8),
        id_at(ids, 9),
        id_at(ids, 10),
        id_at(ids, 11),
        id_at(ids, 12),
        id_at(ids, 13),
        id_at(ids, 14),
        id_at(ids, 15),
    ];
    proof {
        assert(result@ =~= padded(ids@, MAX_ARRAY_ELEMENTS as nat));
    }
    result
}

impl<'source, const MAX_NODES: usize> Reader<'source, MAX_NODES> {
    pub(crate) fn atom(&mut self, depth: usize) -> (result: Result<
        ExprId,
        ExpressionError,
    >)
        requires
            stands_inside(old(self)@),
        ensures
            parses(final(self)@, result, parsed_atom(old(self)@, depth as int)),
            result is Ok ==> moves(old(self)@, final(self)@),
            result matches Ok(id) ==> id_known(id, final(self)@.nodes.len() as int),
        decreases room(depth as int), 100int,
    {
        proof {
            parsed_atom_rule(self@, depth as int);
        }
        if refuses_level(depth) {
            return Err(self.nesting_error());
        }
        let token = match self.take()? {
            Some(token) => token,
            None => return Err(self.error(ExpressionErrorKind::ExpectedExpression, None)),
        };
        let ghost behind = self@;
        assert(parsed_atom(old(self)@, depth as int) == parsed_atom_from(behind, token@, depth as int));
        self.atom_from(token, depth)
    }

    pub(crate) fn atom_from(&mut self, token: Token<'source>, depth: usize) -> (result: Result<
        ExprId,
        ExpressionError,
    >)
        requires
            stands_inside(old(self)@),
            !level_refused(depth as int),
        ensures
            parses(final(self)@, result, parsed_atom_from(old(self)@, token@, depth as int)),
            result is Ok ==> keeps(old(self)@, final(self)@),
            result matches Ok(id) ==> id_known(id, final(self)@.nodes.len() as int),
        decreases room(depth as int), 98int,
    {
        proof {
            parsed_atom_from_rule(self@, token@, depth as int);
        }
        if same_text(token.text, "break") {
            self.break_value(token, depth)
        } else if token.kind == TokenKind::Integer {
            self.push_integer(token)
        } else if token.kind == TokenKind::Character {
            self.push_character(token)
        } else if same_text(token.text, "if") {
            self.if_expression(token, depth + 1)
        } else if same_text(token.text, "match") {
            self.match_expression(token, depth + 1)
        } else if same_text(token.text, "loop") {
            self.loop_break_expression(token, None, depth + 1)
        } else if token.kind == TokenKind::Lifetime {
            self.labelled_expression(token, depth)
        } else if same_text(token.text, "const") {
            self.const_block_expression(token, depth + 1)
        } else {
            self.plain_atom(token, depth)
        }
    }

    pub(crate) fn labelled_expression(&mut self, label: Token<'source>, depth: usize) -> (result: Result<
        ExprId,
        ExpressionError,
    >)
        requires
            stands_inside(old(self)@),
            !level_refused(depth as int),
        ensures
            parses(final(self)@, result, parsed_labelled(old(self)@, label@, depth as int)),
            result is Ok ==> keeps(old(self)@, final(self)@),
            result matches Ok(id) ==> id_known(id, final(self)@.nodes.len() as int),
        decreases room(depth as int), 94int,
    {
        proof {
            parsed_labelled_rule(self@, label@, depth as int);
        }
        self.expect_kind(TokenKind::Colon, ExpressionErrorKind::ExpectedColon)?;
        let loop_token = self.expect_text("loop", ExpressionErrorKind::ExpectedExpression)?;
        let ghost behind = self@;
        assert(parsed_labelled(old(self)@, label@, depth as int) == parsed_loop(
            behind,
            loop_token@,
            Some(label@),
            depth + 1,
        ));
        self.loop_break_expression(loop_token, Some(label), depth + 1)
    }

    pub(crate) fn plain_atom(&mut self, token: Token<'source>, depth: usize) -> (result: Result<
        ExprId,
        ExpressionError,
    >)
        requires
            stands_inside(old(self)@),
            !level_refused(depth as int),
        ensures
            parses(final(self)@, result, parsed_plain_atom(old(self)@, token@, depth as int)),
            result is Ok ==> keeps(old(self)@, final(self)@),
            result matches Ok(id) ==> id_known(id, final(self)@.nodes.len() as int),
        decreases room(depth as int), 94int,
    {
        proof {
            parsed_plain_atom_rule(self@, token@, depth as int);
        }
        if token.kind == TokenKind::Identifier {
            self.name_expression(token, depth)
        } else if token.kind == TokenKind::OpenParen {
            self.parenthesized(token, depth)
        } else if token.kind == TokenKind::OpenBracket {
            self.array(token, depth)
        } else if token.kind == TokenKind::OpenBrace {
            self.block_expression(depth + 1)
        } else {
            Err(self.error(ExpressionErrorKind::ExpectedExpression, Some(token)))
        }
    }

    pub(crate) fn block_expression(&mut self, depth: usize) -> (result: Result<ExprId, ExpressionError>)
        requires
            stands_inside(old(self)@),
            depth <= LAST_LEVEL,
        ensures
            match result {
                Ok(inner) => parsed_block(old(self)@, depth + 1) matches Ok((after, (value, _)))
                    && after == final(self)@ && value == inner,
                Err(error) => parsed_block(old(self)@, depth + 1) == Err::<
                    (Parsing, (ExprId, usize)),
                    ExpressionError,
                >(error),
            },
            result is Ok ==> moves(old(self)@, final(self)@),
            result matches Ok(id) ==> id_known(id, final(self)@.nodes.len() as int),
        decreases room(depth as int), 60int,
    {
        proof {
            parsed_block_rule(self@, depth + 1);
        }
        let (inner, _) = self.scalar_branch_block(depth + 1)?;
        Ok(inner)
    }

    pub(crate) fn break_value(&mut self, token: Token<'source>, depth: usize) -> (result: Result<
        ExprId,
        ExpressionError,
    >)
        requires
            stands_inside(old(self)@),
            depth <= LAST_LEVEL + 1,
        ensures
            parses(final(self)@, result, parsed_break(old(self)@, token@, depth as int)),
            result is Ok ==> keeps(old(self)@, final(self)@),
            result matches Ok(id) ==> id_known(id, final(self)@.nodes.len() as int),
        decreases room(depth as int), 90int,
    {
        proof {
            parsed_break_rule(self@, token@, depth as int);
        }
        if self.next_is(TokenKind::CloseBrace)? {
            return self.push(ExprKind::Identifier(token.text), token.span);
        }
        let operand = self.nested_loop_break_operand(depth + 1)?;
        self.push_from(ExprKind::LoopBreak { operand }, token.span.start, operand)
    }

    pub(crate) fn nested_loop_break_operand(&mut self, depth: usize) -> (result: Result<
        ExprId,
        ExpressionError,
    >)
        requires
            stands_inside(old(self)@),
            depth <= LAST_LEVEL + 2,
        ensures
            parses(final(self)@, result, parsed_nested_break_operand(old(self)@, depth as int)),
            result is Ok ==> keeps(old(self)@, final(self)@),
            result matches Ok(id) ==> id_known(id, final(self)@.nodes.len() as int),
        decreases room(depth as int), 30int,
    {
        proof {
            parsed_nested_break_operand_rule(self@, depth as int);
        }
        let token = self.peek()?;
        if let Some(semicolon) = token {
            if semicolon.kind == TokenKind::Semicolon {
                return self.push_unit_at(semicolon);
            }
        }
        self.expression(0, depth + 1)
    }

    pub(crate) fn name_expression(&mut self, token: Token<'source>, depth: usize) -> (result: Result<
        ExprId,
        ExpressionError,
    >)
        requires
            stands_inside(old(self)@),
            depth <= LAST_LEVEL + 1,
        ensures
            parses(final(self)@, result, parsed_name(old(self)@, token@, depth as int)),
            result is Ok ==> keeps(old(self)@, final(self)@),
            result matches Ok(id) ==> id_known(id, final(self)@.nodes.len() as int),
        decreases room(depth as int), 90int,
    {
        proof {
            parsed_name_rule(self@, token@, depth as int);
        }
        if same_text(token.text, "Default") {
            if self.next_is(TokenKind::PathSeparator)? {
                return self.default_value(token);
            }
        }
        self.plain_name(token, depth)
    }

    pub(crate) fn default_value(&mut self, token: Token<'source>) -> (result: Result<ExprId, ExpressionError>)
        requires
            stands_inside(old(self)@),
        ensures
            parses(final(self)@, result, parsed_default(old(self)@, token@)),
            result is Ok ==> keeps(old(self)@, final(self)@),
            result matches Ok(id) ==> id_known(id, final(self)@.nodes.len() as int),
    {
        self.take()?;
        self.expect_text("default", ExpressionErrorKind::ExpectedExpression)?;
        self.expect_kind(TokenKind::OpenParen, ExpressionErrorKind::ExpectedExpression)?;
        let close = self.expect_kind(
            TokenKind::CloseParen,
            ExpressionErrorKind::ExpectedCloseParen,
        )?;
        self.push(
            ExprKind::DefaultValue,
            Span { start: token.span.start, end: close.span.end },
        )
    }

    pub(crate) fn plain_name(&mut self, token: Token<'source>, depth: usize) -> (result: Result<
        ExprId,
        ExpressionError,
    >)
        requires
            stands_inside(old(self)@),
            depth <= LAST_LEVEL + 1,
        ensures
            parses(final(self)@, result, parsed_plain_name(old(self)@, token@, depth as int)),
            result is Ok ==> keeps(old(self)@, final(self)@),
            result matches Ok(id) ==> id_known(id, final(self)@.nodes.len() as int),
        decreases room(depth as int), 88int,
    {
        proof {
            parsed_plain_name_rule(self@, token@, depth as int);
        }
        if same_text(token.text, "true") || same_text(token.text, "false") {
            let value: bool = same_text(token.text, "true");
            return self.push(ExprKind::Bool(value), token.span);
        }
        if !self.next_is(TokenKind::OpenParen)? {
            return self.push(ExprKind::Identifier(token.text), token.span);
        }
        self.take()?;
        if self.next_is(TokenKind::CloseParen)? {
            let arguments: Vec<ExprId> = Vec::new();
            return self.close_call(token, &arguments);
        }
        let arguments = self.call_arguments(depth)?;
        self.close_call(token, &arguments)
    }

    pub(crate) fn close_call(&mut self, token: Token<'source>, arguments: &Vec<ExprId>) -> (result: Result<
        ExprId,
        ExpressionError,
    >)
        requires
            stands_inside(old(self)@),
            ids_known(arguments@, old(self)@.nodes.len() as int),
            arguments@.len() <= MAX_CALL_ARGUMENTS,
        ensures
            parses(final(self)@, result, closed_call(old(self)@, token@, arguments@)),
            result is Ok ==> moves(old(self)@, final(self)@),
            result matches Ok(id) ==> id_known(id, final(self)@.nodes.len() as int),
    {
        let close = self.expect_kind(
            TokenKind::CloseParen,
            ExpressionErrorKind::ExpectedCloseParen,
        )?;
        self.push(
            ExprKind::Call {
                callee: token.text,
                arguments: argument_array(arguments),
                argument_count: arguments.len(),
            },
            Span { start: token.span.start, end: close.span.end },
        )
    }

    pub(crate) fn call_arguments(&mut self, depth: usize) -> (result: Result<Vec<ExprId>, ExpressionError>)
        requires
            stands_inside(old(self)@),
            depth <= LAST_LEVEL + 1,
        ensures
            match result {
                Ok(arguments) => parsed_arguments(old(self)@, seq![], depth as int) == Ok::<
                    (Parsing, Seq<ExprId>),
                    ExpressionError,
                >((final(self)@, arguments@)) && moves(old(self)@, final(self)@),
                Err(error) => parsed_arguments(old(self)@, seq![], depth as int) == Err::<
                    (Parsing, Seq<ExprId>),
                    ExpressionError,
                >(error),
            },
            result matches Ok(arguments) ==> ids_known(arguments@, final(self)@.nodes.len() as int),
            result matches Ok(arguments) ==> arguments@.len() <= MAX_CALL_ARGUMENTS,
        decreases room(depth as int), 80int,
    {
        proof {
            parsed_arguments_rule(self@, seq![], depth as int);
        }
        let mut arguments: Vec<ExprId> = Vec::new();
        let ghost first = old(self)@;
        proof {
            assert(arguments@ =~= seq![]);
        }
        loop
            invariant_except_break
                parsed_arguments(first, seq![], depth as int) == parsed_arguments(
                    self@,
                    arguments@,
                    depth as int,
                ),
            invariant
                first == old(self)@,
                keeps(first, self@),
                arguments@.len() <= MAX_CALL_ARGUMENTS,
                ids_known(arguments@, self@.nodes.len() as int),
                stands_inside(self@),
                depth <= LAST_LEVEL + 1,
            ensures
                parsed_arguments(first, seq![], depth as int) == Ok::<
                    (Parsing, Seq<ExprId>),
                    ExpressionError,
                >((self@, arguments@)),
                moves(first, self@),
            decreases remaining(self@),
        {
            proof {
                parsed_arguments_rule(self@, arguments@, depth as int);
            }
            if arguments.len() >= MAX_CALL_ARGUMENTS {
                let token = self.peek()?;
                return Err(self.error(ExpressionErrorKind::TooManyCallArguments, token));
            }
            let argument = self.expression(0, depth + 1)?;
            arguments.push(argument);
            if !self.next_is(TokenKind::Comma)? {
                break;
            }
            self.take()?;
        }
        Ok(arguments)
    }

    pub(crate) fn parenthesized(&mut self, open: Token<'source>, depth: usize) -> (result: Result<
        ExprId,
        ExpressionError,
    >)
        requires
            stands_inside(old(self)@),
            depth <= LAST_LEVEL + 1,
        ensures
            parses(final(self)@, result, parsed_parentheses(old(self)@, open@, depth as int)),
            result is Ok ==> keeps(old(self)@, final(self)@),
            result matches Ok(id) ==> id_known(id, final(self)@.nodes.len() as int),
        decreases room(depth as int), 90int,
    {
        proof {
            parsed_parentheses_rule(self@, open@, depth as int);
        }
        if self.next_is(TokenKind::CloseParen)? {
            let close = self.expect_kind(
                TokenKind::CloseParen,
                ExpressionErrorKind::ExpectedCloseParen,
            )?;
            return self.push(
                ExprKind::Unit,
                Span { start: open.span.start, end: close.span.end },
            );
        }
        let inner = self.expression(0, depth + 1)?;
        self.expect_kind(TokenKind::CloseParen, ExpressionErrorKind::ExpectedCloseParen)?;
        Ok(inner)
    }

    pub(crate) fn array(&mut self, open: Token<'source>, depth: usize) -> (result: Result<
        ExprId,
        ExpressionError,
    >)
        requires
            stands_inside(old(self)@),
            depth <= LAST_LEVEL + 1,
        ensures
            parses(final(self)@, result, parsed_array(old(self)@, open@, depth as int)),
            result is Ok ==> keeps(old(self)@, final(self)@),
            result matches Ok(id) ==> id_known(id, final(self)@.nodes.len() as int),
        decreases room(depth as int), 90int,
    {
        proof {
            parsed_array_rule(self@, open@, depth as int);
        }
        if self.next_is(TokenKind::CloseBracket)? {
            let elements: Vec<ExprId> = Vec::new();
            return self.close_array(open, &elements);
        }
        let first = self.expression(0, depth + 1)?;
        if self.next_is(TokenKind::Semicolon)? {
            return self.array_repeat(open, first);
        }
        let elements = self.array_elements(first, depth)?;
        self.close_array(open, &elements)
    }

    pub(crate) fn close_array(&mut self, open: Token<'source>, elements: &Vec<ExprId>) -> (result: Result<
        ExprId,
        ExpressionError,
    >)
        requires
            stands_inside(old(self)@),
            ids_known(elements@, old(self)@.nodes.len() as int),
            elements@.len() <= MAX_ARRAY_ELEMENTS,
        ensures
            parses(final(self)@, result, closed_array(old(self)@, open@, elements@)),
            result is Ok ==> moves(old(self)@, final(self)@),
            result matches Ok(id) ==> id_known(id, final(self)@.nodes.len() as int),
    {
        let close = self.expect_kind(
            TokenKind::CloseBracket,
            ExpressionErrorKind::ExpectedCloseBracket,
        )?;
        self.push(
            ExprKind::Array {
                elements: element_array(elements),
                element_count: elements.len(),
            },
            Span { start: open.span.start, end: close.span.end },
        )
    }

    pub(crate) fn array_repeat(&mut self, open: Token<'source>, element: ExprId) -> (result: Result<
        ExprId,
        ExpressionError,
    >)
        requires
            stands_inside(old(self)@),
            id_known(element, old(self)@.nodes.len() as int),
        ensures
            parses(final(self)@, result, parsed_repeat(old(self)@, open@, element)),
            result is Ok ==> moves(old(self)@, final(self)@),
            result matches Ok(id) ==> id_known(id, final(self)@.nodes.len() as int),
    {
        self.take()?;
        let token = self.expect_kind(
            TokenKind::Integer,
            ExpressionErrorKind::InvalidArrayLength,
        )?;
        let value: u128 = match decode_integer(token.text) {
            Ok(literal) => literal.value,
            Err(kind) => return Err(ExpressionError { kind, span: token.span }),
        };
        if value > MAX_ARRAY_ELEMENTS as u128 {
            return Err(self.error(ExpressionErrorKind::TooManyArrayElements, Some(token)));
        }
        let close = self.expect_kind(
            TokenKind::CloseBracket,
            ExpressionErrorKind::ExpectedCloseBracket,
        )?;
        self.push(
            ExprKind::ArrayRepeat { element, count: value as usize },
            Span { start: open.span.start, end: close.span.end },
        )
    }

    pub(crate) fn array_elements(&mut self, element: ExprId, depth: usize) -> (result: Result<
        Vec<ExprId>,
        ExpressionError,
    >)
        requires
            stands_inside(old(self)@),
            depth <= LAST_LEVEL + 1,
            id_known(element, old(self)@.nodes.len() as int),
        ensures
            match result {
                Ok(elements) => parsed_elements(old(self)@, seq![element], depth as int) == Ok::<
                    (Parsing, Seq<ExprId>),
                    ExpressionError,
                >((final(self)@, elements@)) && keeps(old(self)@, final(self)@),
                Err(error) => parsed_elements(old(self)@, seq![element], depth as int) == Err::<
                    (Parsing, Seq<ExprId>),
                    ExpressionError,
                >(error),
            },
            result matches Ok(elements) ==> ids_known(elements@, final(self)@.nodes.len() as int),
            result matches Ok(elements) ==> elements@.len() <= MAX_ARRAY_ELEMENTS,
        decreases room(depth as int), 80int,
    {
        proof {
            parsed_elements_rule(self@, seq![element], depth as int);
        }
        let mut elements: Vec<ExprId> = Vec::new();
        elements.push(element);
        let ghost first = old(self)@;
        proof {
            assert(elements@ =~= seq![element]);
        }
        loop
            invariant_except_break
                parsed_elements(first, seq![element], depth as int) == parsed_elements(
                    self@,
                    elements@,
                    depth as int,
                ),
            invariant
                first == old(self)@,
                keeps(first, self@),
                elements@.len() <= MAX_ARRAY_ELEMENTS,
                ids_known(elements@, self@.nodes.len() as int),
                stands_inside(self@),
                depth <= LAST_LEVEL + 1,
            ensures
                parsed_elements(first, seq![element], depth as int) == Ok::<
                    (Parsing, Seq<ExprId>),
                    ExpressionError,
                >((self@, elements@)),
            decreases remaining(self@),
        {
            proof {
                parsed_elements_rule(self@, elements@, depth as int);
            }
            if !self.next_is(TokenKind::Comma)? {
                break;
            }
            self.take()?;
            if self.next_is(TokenKind::CloseBracket)? {
                break;
            }
            if elements.len() >= MAX_ARRAY_ELEMENTS {
                let token = self.peek()?;
                return Err(self.error(ExpressionErrorKind::TooManyArrayElements, token));
            }
            let next = self.expression(0, depth + 1)?;
            elements.push(next);
        }
        Ok(elements)
    }
}

} // verus!
