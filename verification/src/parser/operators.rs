//! Operators, casts, indexes and method calls.
use crate::expression::{
    ExprId, ExprKind, ExpressionError, ExpressionErrorKind, LAST_LEVEL, id_known,
    level_refused, option_known, refuses_level, room,
};
use crate::grammar::{
    Parsing, closed_index_range, expect_kind, method_form, nesting_error, next_is,
    next_operator, next_reads, operator_named, parsed_cast, parsed_casts, parsed_expression,
    parsed_index, parsed_index_range, parsed_method, parsed_mutability, parsed_operators,
    parsed_postfix, parsed_suffixes, parsed_unary, peek, prefix_operator, push_across,
    push_from, push_to, remaining, take,
};
use crate::rules::{
    parsed_cast_rule, parsed_expression_rule, parsed_index_range_rule, parsed_index_rule,
    parsed_method_rule, parsed_operators_rule, parsed_postfix_rule, parsed_suffixes_rule,
    parsed_unary_rule,
};
use crate::integer::{
    BinaryOperator, IntegerType, UnaryOperator,
};
use crate::text::same_text;
use crate::token::TokenKind;
use crate::parser::state::{
    Reader, keeps, kind_of, moves, parses, stands_inside,
};
use vstd::prelude::*;

verus! {

/// The binary operator that a text names, and how tightly it binds.
pub fn binary_operator(text: &str) -> (result: Option<(BinaryOperator, u8)>)
    ensures
        result == operator_named(text@),
        result matches Some((_, precedence)) ==> precedence <= 10,
{
    if same_text(text, "||") {
        Some((BinaryOperator::LogicalOr, 1))
    } else if same_text(text, "&&") {
        Some((BinaryOperator::LogicalAnd, 2))
    } else if same_text(text, "|") {
        Some((BinaryOperator::BitOr, 3))
    } else if same_text(text, "^") {
        Some((BinaryOperator::BitXor, 4))
    } else if same_text(text, "&") {
        Some((BinaryOperator::BitAnd, 5))
    } else if same_text(text, "==") {
        Some((BinaryOperator::Equal, 6))
    } else if same_text(text, "!=") {
        Some((BinaryOperator::NotEqual, 6))
    } else if same_text(text, "<") {
        Some((BinaryOperator::Less, 7))
    } else if same_text(text, "<=") {
        Some((BinaryOperator::LessEqual, 7))
    } else if same_text(text, ">") {
        Some((BinaryOperator::Greater, 7))
    } else if same_text(text, ">=") {
        Some((BinaryOperator::GreaterEqual, 7))
    } else if same_text(text, "<<") {
        Some((BinaryOperator::ShiftLeft, 8))
    } else if same_text(text, ">>") {
        Some((BinaryOperator::ShiftRight, 8))
    } else if same_text(text, "+") {
        Some((BinaryOperator::Add, 9))
    } else if same_text(text, "-") {
        Some((BinaryOperator::Subtract, 9))
    } else if same_text(text, "*") {
        Some((BinaryOperator::Multiply, 10))
    } else if same_text(text, "/") {
        Some((BinaryOperator::Divide, 10))
    } else if same_text(text, "%") {
        Some((BinaryOperator::Remainder, 10))
    } else {
        None
    }
}

pub fn unary_prefix(text: &str) -> (result: Option<UnaryOperator>)
    ensures
        result == prefix_operator(text@),
{
    if same_text(text, "-") {
        Some(UnaryOperator::Negate)
    } else if same_text(text, "!") {
        Some(UnaryOperator::Not)
    } else if same_text(text, "*") {
        Some(UnaryOperator::Dereference)
    } else if same_text(text, "&") {
        Some(UnaryOperator::AddressOf)
    } else {
        None
    }
}

impl<'source, const MAX_NODES: usize> Reader<'source, MAX_NODES> {
    pub(crate) fn expression(&mut self, minimum_precedence: u8, depth: usize) -> (result: Result<
        ExprId,
        ExpressionError,
    >)
        requires
            stands_inside(old(self)@),
        ensures
            parses(
                final(self)@,
                result,
                parsed_expression(old(self)@, minimum_precedence as int, depth as int),
            ),
            result is Ok ==> moves(old(self)@, final(self)@),
            result matches Ok(id) ==> id_known(id, final(self)@.nodes.len() as int),
        decreases room(depth as int), 20int,
    {
        proof {
            parsed_expression_rule(self@, minimum_precedence as int, depth as int);
        }
        if refuses_level(depth) {
            return Err(self.nesting_error());
        }
        let mut left = self.cast(depth + 1)?;
        let ghost first = old(self)@;
        loop
            invariant_except_break
                parsed_expression(first, minimum_precedence as int, depth as int)
                    == parsed_operators(self@, left, minimum_precedence as int, depth as int),
            invariant
                first == old(self)@,
                moves(first, self@),
                stands_inside(self@),
                id_known(left, self@.nodes.len() as int),
                !level_refused(depth as int),
            ensures
                parsed_expression(first, minimum_precedence as int, depth as int) == Ok::<
                    (Parsing, ExprId),
                    ExpressionError,
                >((self@, left)),
            decreases remaining(self@),
        {
            proof {
                parsed_operators_rule(self@, left, minimum_precedence as int, depth as int);
            }
            let token = match self.peek()? {
                Some(token) => token,
                None => {
                    break;
                },
            };
            let (operator, precedence) = match binary_operator(token.text) {
                Some(found) => found,
                None => {
                    break;
                },
            };
            if precedence < minimum_precedence {
                break;
            }
            self.take()?;
            let right = self.expression(precedence + 1, depth + 1)?;
            left = self.push_across(ExprKind::Binary { operator, left, right }, left, right)?;
        }
        Ok(left)
    }

    pub(crate) fn cast(&mut self, depth: usize) -> (result: Result<
        ExprId,
        ExpressionError,
    >)
        requires
            stands_inside(old(self)@),
        ensures
            parses(final(self)@, result, parsed_cast(old(self)@, depth as int)),
            result is Ok ==> moves(old(self)@, final(self)@),
            result matches Ok(id) ==> id_known(id, final(self)@.nodes.len() as int),
        decreases room(depth as int), 20int,
    {
        proof {
            parsed_cast_rule(self@, depth as int);
        }
        if refuses_level(depth) {
            return Err(self.nesting_error());
        }
        let mut operand = self.unary(depth + 1)?;
        let ghost first = old(self)@;
        while self.next_reads("as")?
            invariant
                parsed_cast(first, depth as int) == parsed_casts(self@, operand),
                first == old(self)@,
                moves(first, self@),
                stands_inside(self@),
                id_known(operand, self@.nodes.len() as int),
            decreases remaining(self@),
        {
            self.take()?;
            let target = self.expect_kind(
                TokenKind::Identifier,
                ExpressionErrorKind::ExpectedCastType,
            )?;
            let integer_type = match IntegerType::from_name(target.text) {
                Some(integer_type) => integer_type,
                None => return Err(
                    self.error(ExpressionErrorKind::UnsupportedCastType, Some(target)),
                ),
            };
            operand = self.push_to(
                ExprKind::Cast { operand, target: integer_type },
                operand,
                target,
            )?;
        }
        Ok(operand)
    }

    pub(crate) fn unary(&mut self, depth: usize) -> (result: Result<
        ExprId,
        ExpressionError,
    >)
        requires
            stands_inside(old(self)@),
        ensures
            parses(final(self)@, result, parsed_unary(old(self)@, depth as int)),
            result is Ok ==> moves(old(self)@, final(self)@),
            result matches Ok(id) ==> id_known(id, final(self)@.nodes.len() as int),
        decreases room(depth as int), 20int,
    {
        proof {
            parsed_unary_rule(self@, depth as int);
        }
        if refuses_level(depth) {
            return Err(self.nesting_error());
        }
        let token = match self.peek()? {
            Some(token) => token,
            None => return self.postfix(depth + 1),
        };
        let operator = match unary_prefix(token.text) {
            Some(operator) => operator,
            None => return self.postfix(depth + 1),
        };
        self.take()?;
        let operator = self.mutability(operator)?;
        let operand = self.unary(depth + 1)?;
        self.push_from(ExprKind::Unary { operator, operand }, token.span.start, operand)
    }

    /// Reads an optional `mut` behind an ampersand.
    pub(crate) fn mutability(&mut self, operator: UnaryOperator) -> (result: Result<
        UnaryOperator,
        ExpressionError,
    >)
        requires
            stands_inside(old(self)@),
        ensures
            parses(final(self)@, result, parsed_mutability(old(self)@, operator)),
            result is Ok ==> keeps(old(self)@, final(self)@),
    {
        if operator != UnaryOperator::AddressOf {
            return Ok(operator);
        }
        if self.next_reads("mut")? {
            self.take()?;
            Ok(UnaryOperator::AddressOfMut)
        } else {
            Ok(UnaryOperator::AddressOf)
        }
    }

    pub(crate) fn postfix(&mut self, depth: usize) -> (result: Result<
        ExprId,
        ExpressionError,
    >)
        requires
            stands_inside(old(self)@),
            depth <= LAST_LEVEL + 1,
        ensures
            parses(final(self)@, result, parsed_postfix(old(self)@, depth as int)),
            result is Ok ==> moves(old(self)@, final(self)@),
            result matches Ok(id) ==> id_known(id, final(self)@.nodes.len() as int),
        decreases room(depth as int), 110int,
    {
        proof {
            parsed_postfix_rule(self@, depth as int);
        }
        let mut base = self.atom(depth)?;
        let ghost first = old(self)@;
        loop
            invariant_except_break
                parsed_postfix(first, depth as int) == parsed_suffixes(self@, base, depth as int),
            invariant
                first == old(self)@,
                moves(first, self@),
                stands_inside(self@),
                id_known(base, self@.nodes.len() as int),
                depth <= LAST_LEVEL + 1,
            ensures
                parsed_postfix(first, depth as int) == Ok::<(Parsing, ExprId), ExpressionError>(
                    (self@, base),
                ),
            decreases remaining(self@),
        {
            proof {
                parsed_suffixes_rule(self@, base, depth as int);
            }
            let token = self.peek()?;
            if kind_of(&token, TokenKind::OpenBracket) {
                self.take()?;
                base = self.index(base, depth)?;
            } else if kind_of(&token, TokenKind::Dot) {
                let (position, looked) = self.checkpoint();
                self.take()?;
                if self.next_is(TokenKind::Identifier)? {
                    base = self.method(base, depth)?;
                } else {
                    self.restore(position, looked);
                    break;
                }
            } else {
                break;
            }
        }
        Ok(base)
    }

    pub(crate) fn index(&mut self, base: ExprId, depth: usize) -> (result: Result<
        ExprId,
        ExpressionError,
    >)
        requires
            stands_inside(old(self)@),
            depth <= LAST_LEVEL + 1,
            id_known(base, old(self)@.nodes.len() as int),
        ensures
            parses(final(self)@, result, parsed_index(old(self)@, base, depth as int)),
            result is Ok ==> moves(old(self)@, final(self)@),
            result matches Ok(id) ==> id_known(id, final(self)@.nodes.len() as int),
        decreases room(depth as int), 108int,
    {
        proof {
            parsed_index_rule(self@, base, depth as int);
        }
        if self.next_is(TokenKind::Dot)? {
            return self.index_range(base, None, depth);
        }
        let index = self.expression(0, depth + 1)?;
        if self.next_is(TokenKind::Dot)? {
            return self.index_range(base, Some(index), depth);
        }
        let close = self.expect_kind(
            TokenKind::CloseBracket,
            ExpressionErrorKind::ExpectedCloseBracket,
        )?;
        self.push_to(ExprKind::Index { base, index }, base, close)
    }

    pub(crate) fn index_range(
        &mut self,
        base: ExprId,
        start: Option<ExprId>,
        depth: usize,
    ) -> (result: Result<
        ExprId,
        ExpressionError,
    >)
        requires
            stands_inside(old(self)@),
            depth <= LAST_LEVEL + 1,
            id_known(base, old(self)@.nodes.len() as int),
            option_known(start, old(self)@.nodes.len() as int),
        ensures
            parses(final(self)@, result, parsed_index_range(old(self)@, base, start, depth as int)),
            result is Ok ==> moves(old(self)@, final(self)@),
            result matches Ok(id) ==> id_known(id, final(self)@.nodes.len() as int),
        decreases room(depth as int), 107int,
    {
        proof {
            parsed_index_range_rule(self@, base, start, depth as int);
        }
        self.take()?;
        self.expect_kind(TokenKind::Dot, ExpressionErrorKind::ExpectedExpression)?;
        if self.next_operator("=")? {
            self.take()?;
            let end = self.expression(0, depth + 1)?;
            return self.close_index_range(base, start, Some(end), true);
        }
        let token = self.peek()?;
        if kind_of(&token, TokenKind::CloseBracket) {
            self.close_index_range(base, start, None, false)
        } else {
            let end = self.expression(0, depth + 1)?;
            self.close_index_range(base, start, Some(end), false)
        }
    }

    pub(crate) fn close_index_range(
        &mut self,
        base: ExprId,
        start: Option<ExprId>,
        end: Option<ExprId>,
        inclusive: bool,
    ) -> (result: Result<ExprId, ExpressionError>)
        requires
            stands_inside(old(self)@),
            id_known(base, old(self)@.nodes.len() as int),
            option_known(start, old(self)@.nodes.len() as int),
            option_known(end, old(self)@.nodes.len() as int),
        ensures
            parses(
                final(self)@,
                result,
                closed_index_range(old(self)@, base, start, end, inclusive),
            ),
            result is Ok ==> moves(old(self)@, final(self)@),
            result matches Ok(id) ==> id_known(id, final(self)@.nodes.len() as int),
    {
        let close = self.expect_kind(
            TokenKind::CloseBracket,
            ExpressionErrorKind::ExpectedCloseBracket,
        )?;
        self.push_to(ExprKind::RangeIndex { base, start, end, inclusive }, base, close)
    }

    /// The node for a method without an argument.
    pub(crate) fn method_kind(name: &str, base: ExprId) -> (result: Option<ExprKind<'source>>)
        ensures
            match result {
                Some(kind) => method_form(name@, base) == Some(kind@),
                None => method_form(name@, base) is None,
            },
    {
        if same_text(name, "len") {
            Some(ExprKind::SliceLen { base })
        } else if same_text(name, "is_empty") {
            Some(ExprKind::SliceIsEmpty { base })
        } else if same_text(name, "as_bytes") {
            Some(ExprKind::StrAsBytes { base })
        } else if same_text(name, "as_ptr") {
            Some(ExprKind::ReferenceAsPointer { base, mutable: false })
        } else if same_text(name, "as_mut_ptr") {
            Some(ExprKind::ReferenceAsPointer { base, mutable: true })
        } else {
            None
        }
    }

    pub(crate) fn method(&mut self, base: ExprId, depth: usize) -> (result: Result<
        ExprId,
        ExpressionError,
    >)
        requires
            stands_inside(old(self)@),
            depth <= LAST_LEVEL + 1,
            id_known(base, old(self)@.nodes.len() as int),
        ensures
            parses(final(self)@, result, parsed_method(old(self)@, base, depth as int)),
            result is Ok ==> moves(old(self)@, final(self)@),
            result matches Ok(id) ==> id_known(id, final(self)@.nodes.len() as int),
        decreases room(depth as int), 108int,
    {
        proof {
            parsed_method_rule(self@, base, depth as int);
        }
        let name = self.expect_kind(
            TokenKind::Identifier,
            ExpressionErrorKind::ExpectedIdentifier,
        )?;
        if same_text(name.text, "is_char_boundary") {
            self.expect_kind(TokenKind::OpenParen, ExpressionErrorKind::ExpectedExpression)?;
            let index = self.expression(0, depth + 1)?;
            let close = self.expect_kind(
                TokenKind::CloseParen,
                ExpressionErrorKind::ExpectedCloseParen,
            )?;
            return self.push_to(ExprKind::StrIsCharBoundary { base, index }, base, close);
        }
        let kind = match Self::method_kind(name.text, base) {
            Some(kind) => kind,
            None => return Err(self.error(ExpressionErrorKind::UnsupportedMethod, Some(name))),
        };
        self.expect_kind(TokenKind::OpenParen, ExpressionErrorKind::ExpectedExpression)?;
        let close = self.expect_kind(
            TokenKind::CloseParen,
            ExpressionErrorKind::ExpectedCloseParen,
        )?;
        self.push_to(kind, base, close)
    }
}

} // verus!
