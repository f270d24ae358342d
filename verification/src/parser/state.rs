//! The state of the parser and the steps that it takes.
use crate::expression::{
    Expr, ExprId, ExprKind, ExpressionError, ExpressionErrorKind, Node, PatternOrderValue,
    RangeValidation, arena_view, form_known, id_known, negate_bound, node_at, nodes_closed,
    option_known, order_literal, ranges_known, refuses_level, room,
};
use crate::grammar::{
    Arm, MAX_RANGE_VALIDATIONS, Parsed, Parsing, Pattern, PatternBody, Word, bound_span,
    broken_tree, deciding_body, error_at, expect_kind, expect_operator, expect_text,
    first_state, front, is_kind, is_operator, is_text, lookahead, nesting_error, next_is,
    next_operator, next_reads, noted_range, pattern_bound_value, peek, push_across,
    push_character, push_from, push_integer, push_node, push_to, push_unit_at, span_of,
    take, unit_form,
};
use crate::integer::{
    IntegerType, UnaryOperator,
};
use crate::literal::{
    decode_character, decode_integer,
};
use crate::text::same_text;
use crate::token::{
    LexError, Span, Token, TokenKind, byte_length, lexing, token_shows, tokenize,
};
use vstd::prelude::*;

verus! {

impl<'source> View for Token<'source> {
    type V = Word;

    open spec fn view(&self) -> Word {
        Word { kind: self.kind, text: self.text@, span: self.span }
    }
}

pub open spec fn word_view(token: Option<Token>) -> Option<Word> {
    match token {
        Some(token) => Some(token@),
        None => None,
    }
}

/// What a parser has read of the tokens of a text.
pub struct Reader<'source, const MAX_NODES: usize> {
    pub tokens: Vec<Token<'source>>,
    pub failure: Option<LexError>,
    pub position: usize,
    pub looked: bool,
    pub nodes: Vec<Option<Expr<'source>>>,
    pub range_validations: Vec<RangeValidation>,
    pub source_len: usize,
}

impl<'source, const MAX_NODES: usize> View for Reader<'source, MAX_NODES> {
    type V = Parsing;

    open spec fn view(&self) -> Parsing {
        self.state()
    }
}

/// Whether there are no more nodes than there may be, and each id is that of one of them.
pub open spec fn sound(p: Parsing) -> bool {
    p.nodes.len() <= p.limit && nodes_closed(p.nodes) && ranges_known(
        p.ranges,
        p.nodes.len() as int,
    )
}

/// Whether ids are those of the first `count` nodes.
pub open spec fn ids_known(ids: Seq<ExprId>, count: int) -> bool {
    forall|i: int| #![trigger ids[i]] 0 <= i < ids.len() ==> id_known(ids[i], count)
}

/// Whether a pattern speaks of the first `count` nodes only.
pub open spec fn pattern_known(pattern: Pattern, count: int) -> bool {
    match deciding_body(pattern) {
        PatternBody::Wildcard => true,
        PatternBody::Value(value) => id_known(value, count),
        PatternBody::Range { start, end, .. } => option_known(start, count) && option_known(
            end,
            count,
        ),
    }
}

pub open spec fn patterns_known(patterns: Seq<Pattern>, count: int) -> bool {
    forall|i: int| #![trigger patterns[i]]
        0 <= i < patterns.len() ==> pattern_known(patterns[i], count)
}

/// Whether an arm speaks of the first `count` nodes only.
pub open spec fn arm_known(arm: Arm, count: int) -> bool {
    patterns_known(arm.alternatives, count) && option_known(arm.guard, count) && id_known(
        arm.branch,
        count,
    )
}

pub open spec fn arms_known(arms: Seq<Arm>, count: int) -> bool {
    forall|i: int| #![trigger arms[i]] 0 <= i < arms.len() ==> arm_known(arms[i], count)
}

/// Whether the parser stands inside its text and its nodes are sound.
pub open spec fn stands_inside(p: Parsing) -> bool {
    0 <= p.position <= p.words.len() && sound(p)
}

/// Whether `q` is a later state on the same text. Nodes may have been added.
pub open spec fn keeps(p: Parsing, q: Parsing) -> bool {
    &&& q.words == p.words
    &&& q.failure == p.failure
    &&& q.limit == p.limit
    &&& q.length == p.length
    &&& p.position <= q.position <= q.words.len()
    &&& p.nodes.len() <= q.nodes.len()
    &&& sound(q)
}

/// Whether `q` is a later state on the same text, with a token consumed.
pub open spec fn moves(p: Parsing, q: Parsing) -> bool {
    keeps(p, q) && p.position < q.position
}

/// Whether a result and the state it was reached in are as expected.
pub open spec fn parses<T>(
    after: Parsing,
    result: Result<T, ExpressionError>,
    expected: Parsed<T>,
) -> bool {
    match result {
        Ok(value) => expected == Ok::<(Parsing, T), ExpressionError>((after, value)),
        Err(error) => expected == Err::<(Parsing, T), ExpressionError>(error),
    }
}

/// The same where nothing but the state is reached.
pub open spec fn reaches(
    after: Parsing,
    result: Result<(), ExpressionError>,
    expected: Result<Parsing, ExpressionError>,
) -> bool {
    match result {
        Ok(()) => expected == Ok::<Parsing, ExpressionError>(after),
        Err(error) => expected == Err::<Parsing, ExpressionError>(error),
    }
}

/// The same for a token.
pub open spec fn reads(
    after: Parsing,
    result: Result<Token, ExpressionError>,
    expected: Parsed<Word>,
) -> bool {
    match result {
        Ok(token) => expected == Ok::<(Parsing, Word), ExpressionError>((after, token@)),
        Err(error) => expected == Err::<(Parsing, Word), ExpressionError>(error),
    }
}

pub fn text_of(token: &Option<Token>, text: &str) -> (result: bool)
    ensures
        result == is_text(word_view(*token), text@),
{
    match token {
        Some(token) => same_text(token.text, text),
        None => false,
    }
}

pub fn kind_of(token: &Option<Token>, kind: TokenKind) -> (result: bool)
    ensures
        result == is_kind(word_view(*token), kind),
{
    match token {
        Some(token) => token.kind == kind,
        None => false,
    }
}

pub fn operator_of(token: &Option<Token>, text: &str) -> (result: bool)
    ensures
        result == is_operator(word_view(*token), text@),
{
    match token {
        Some(token) => token.kind == TokenKind::Operator && same_text(token.text, text),
        None => false,
    }
}

impl<'source, const MAX_NODES: usize> Reader<'source, MAX_NODES> {
    /// The state of the parser.
    #[verifier::opaque]
    pub open spec fn state(&self) -> Parsing {
        Parsing {
            words: self.tokens@.map_values(|token: Token| token@),
            failure: self.failure,
            position: self.position as int,
            looked: self.looked,
            nodes: arena_view(self.nodes@),
            ranges: self.range_validations@,
            limit: MAX_NODES as int,
            length: self.source_len,
        }
    }

    /// Goes back to an earlier place.
    pub(crate) fn restore(&mut self, position: usize, looked: bool)
        ensures
            final(self)@ == (Parsing { position: position as int, looked, ..old(self)@ }),
    {
        proof {
            reveal(Reader::state);
        }
        self.position = position;
        self.looked = looked;
    }

    /// The place of the next token, and whether it has been looked at.
    pub(crate) fn checkpoint(&self) -> (result: (usize, bool))
        ensures
            result.0 == self@.position,
            result.1 == self@.looked,
    {
        proof {
            reveal(Reader::state);
        }
        (self.position, self.looked)
    }

    pub(crate) fn new(source: &'source str) -> (result: Self)
        ensures
            result@ == first_state(source@, MAX_NODES as int),
            stands_inside(result@),
    {
        proof {
            reveal(Reader::state);
            reveal(nodes_closed);
        }
        let (tokens, failure) = tokenize(source);
        let source_len: usize = byte_length(source);
        let parser = Reader {
            tokens,
            failure,
            position: 0,
            looked: false,
            nodes: Vec::new(),
            range_validations: Vec::new(),
            source_len,
        };
        proof {
            let lexemes = lexing(source@).lexemes;
            let words = first_state(source@, MAX_NODES as int).words;
            assert forall|k: int| 0 <= k < lexemes.len() implies parser@.words[k] == words[k] by {
                assert(token_shows(tokens@[k], lexemes[k], source@));
            }
            assert(parser@.words =~= words);
            assert(parser@.nodes =~= seq![]);
            assert(parser@.ranges =~= seq![]);
        }
        parser
    }

    pub(crate) fn peek(&mut self) -> (result: Result<Option<Token<'source>>, ExpressionError>)
        requires
            stands_inside(old(self)@),
        ensures
            match result {
                Ok(token) => peek(old(self)@) == Ok::<Parsing, ExpressionError>(final(self)@)
                    && word_view(token) == front(final(self)@) && keeps(old(self)@, final(self)@),
                Err(error) => peek(old(self)@) == Err::<Parsing, ExpressionError>(error)
                    && final(self)@ == old(self)@,
            },
    {
        proof {
            reveal(Reader::state);
        }
        if self.position < self.tokens.len() {
            self.looked = true;
            Ok(Some(self.tokens[self.position]))
        } else if self.looked {
            Ok(None)
        } else {
            match self.failure {
                Some(error) => Err(
                    ExpressionError {
                        kind: ExpressionErrorKind::Lexical(error),
                        span: error.span,
                    },
                ),
                None => Ok(None),
            }
        }
    }

    pub(crate) fn take(&mut self) -> (result: Result<Option<Token<'source>>, ExpressionError>)
        requires
            stands_inside(old(self)@),
        ensures
            match result {
                Ok(token) => {
                    &&& take(old(self)@) == Ok::<(Parsing, Option<Word>), ExpressionError>(
                        (final(self)@, word_view(token)),
                    )
                    &&& keeps(old(self)@, final(self)@)
                    &&& token is Some ==> moves(old(self)@, final(self)@)
                    &&& word_view(token) == front(old(self)@)
                },
                Err(error) => take(old(self)@) == Err::<
                    (Parsing, Option<Word>),
                    ExpressionError,
                >(error),
            },
    {
        proof {
            reveal(Reader::state);
        }
        if self.position < self.tokens.len() {
            let token = self.tokens[self.position];
            self.position = self.position + 1;
            self.looked = false;
            Ok(Some(token))
        } else {
            match self.failure {
                Some(error) => Err(
                    ExpressionError {
                        kind: ExpressionErrorKind::Lexical(error),
                        span: error.span,
                    },
                ),
                None => Ok(None),
            }
        }
    }

    pub(crate) fn lookahead(&self) -> (result: Option<Token<'source>>)
        ensures
            word_view(result) == lookahead(self@),
    {
        proof {
            reveal(Reader::state);
        }
        if self.looked && self.position < self.tokens.len() {
            Some(self.tokens[self.position])
        } else {
            None
        }
    }

    pub(crate) fn error(&self, kind: ExpressionErrorKind, token: Option<Token<'source>>) -> (result:
        ExpressionError)
        ensures
            result == error_at(self@, kind, word_view(token)),
    {
        proof {
            reveal(Reader::state);
        }
        match token {
            Some(token) => ExpressionError { kind, span: token.span },
            None => ExpressionError {
                kind,
                span: Span { start: self.source_len, end: self.source_len },
            },
        }
    }

    pub(crate) fn nesting_error(&self) -> (result: ExpressionError)
        ensures
            result == nesting_error(self@),
    {
        self.error(ExpressionErrorKind::NestingLimitExceeded, self.lookahead())
    }

    pub(crate) fn next_is(&mut self, kind: TokenKind) -> (result: Result<bool, ExpressionError>)
        requires
            stands_inside(old(self)@),
        ensures
            parses(final(self)@, result, next_is(old(self)@, kind)),
            result is Ok ==> keeps(old(self)@, final(self)@),
            result == Ok::<bool, ExpressionError>(true) ==> front(final(self)@) is Some,
    {
        let token = self.peek()?;
        Ok(kind_of(&token, kind))
    }

    pub(crate) fn next_reads(&mut self, text: &str) -> (result: Result<bool, ExpressionError>)
        requires
            stands_inside(old(self)@),
        ensures
            parses(final(self)@, result, next_reads(old(self)@, text@)),
            result is Ok ==> keeps(old(self)@, final(self)@),
            result == Ok::<bool, ExpressionError>(true) ==> front(final(self)@) is Some,
    {
        let token = self.peek()?;
        Ok(text_of(&token, text))
    }

    pub(crate) fn next_operator(&mut self, text: &str) -> (result: Result<bool, ExpressionError>)
        requires
            stands_inside(old(self)@),
        ensures
            parses(final(self)@, result, next_operator(old(self)@, text@)),
            result is Ok ==> keeps(old(self)@, final(self)@),
            result == Ok::<bool, ExpressionError>(true) ==> front(final(self)@) is Some,
    {
        let token = self.peek()?;
        Ok(operator_of(&token, text))
    }

    pub(crate) fn expect_kind(&mut self, kind: TokenKind, error: ExpressionErrorKind) -> (result: Result<
        Token<'source>,
        ExpressionError,
    >)
        requires
            stands_inside(old(self)@),
        ensures
            reads(final(self)@, result, expect_kind(old(self)@, kind, error)),
            result is Ok ==> moves(old(self)@, final(self)@),
    {
        let token = self.take()?;
        match token {
            Some(found) => {
                if found.kind == kind {
                    Ok(found)
                } else {
                    Err(self.error(error, token))
                }
            },
            None => Err(self.error(error, None)),
        }
    }

    pub(crate) fn expect_text(&mut self, text: &str, error: ExpressionErrorKind) -> (result: Result<
        Token<'source>,
        ExpressionError,
    >)
        requires
            stands_inside(old(self)@),
        ensures
            reads(final(self)@, result, expect_text(old(self)@, text@, error)),
            result is Ok ==> moves(old(self)@, final(self)@),
    {
        let token = self.take()?;
        match token {
            Some(found) => {
                if same_text(found.text, text) {
                    Ok(found)
                } else {
                    Err(self.error(error, token))
                }
            },
            None => Err(self.error(error, None)),
        }
    }

    pub(crate) fn expect_operator(&mut self, text: &str, error: ExpressionErrorKind) -> (result: Result<
        Token<'source>,
        ExpressionError,
    >)
        requires
            stands_inside(old(self)@),
        ensures
            reads(final(self)@, result, expect_operator(old(self)@, text@, error)),
            result is Ok ==> moves(old(self)@, final(self)@),
    {
        let token = self.take()?;
        match token {
            Some(found) => {
                if found.kind == TokenKind::Operator && same_text(found.text, text) {
                    Ok(found)
                } else {
                    Err(self.error(error, token))
                }
            },
            None => Err(self.error(error, None)),
        }
    }

    pub(crate) fn push(&mut self, kind: ExprKind<'source>, span: Span) -> (result: Result<
        ExprId,
        ExpressionError,
    >)
        requires
            stands_inside(old(self)@),
            form_known(kind@, old(self)@.nodes.len() as int),
        ensures
            parses(final(self)@, result, push_node(old(self)@, kind@, span)),
            result is Ok ==> keeps(old(self)@, final(self)@),
            result matches Ok(id) ==> id_known(id, final(self)@.nodes.len() as int),
    {
        proof {
            reveal(Reader::state);
        }
        if self.nodes.len() >= MAX_NODES {
            return Err(ExpressionError { kind: ExpressionErrorKind::TooManyNodes, span });
        }
        let id = ExprId(self.nodes.len());
        self.nodes.push(Some(Expr { kind, span }));
        proof {
            assert(self@.nodes =~= old(self)@.nodes.push(Some(Node { form: kind@, span })));
            reveal(nodes_closed);
        }
        Ok(id)
    }

    pub(crate) fn expression_at(&self, id: ExprId) -> (result: Option<Expr<'source>>)
        ensures
            match result {
                Some(expression) => node_at(self@.nodes, id) == Some(expression@) && id.0
                    < self.nodes@.len(),
                None => node_at(self@.nodes, id) is None,
            },
    {
        proof {
            reveal(Reader::state);
        }
        if id.0 < self.nodes.len() {
            self.nodes[id.0]
        } else {
            None
        }
    }

    pub(crate) fn node_span(&self, id: ExprId) -> (result: Result<Span, ExpressionError>)
        ensures
            result == span_of(self@, id),
    {
        match self.expression_at(id) {
            Some(expression) => Ok(expression.span),
            None => Err(self.broken_tree()),
        }
    }

    pub(crate) fn broken_tree(&self) -> (result: ExpressionError)
        ensures
            result == broken_tree(self@),
    {
        proof {
            reveal(Reader::state);
        }
        ExpressionError {
            kind: ExpressionErrorKind::InvalidExpressionTree,
            span: Span { start: self.source_len, end: self.source_len },
        }
    }

    pub(crate) fn push_across(&mut self, kind: ExprKind<'source>, first: ExprId, last: ExprId) -> (result:
        Result<ExprId, ExpressionError>)
        requires
            stands_inside(old(self)@),
            form_known(kind@, old(self)@.nodes.len() as int),
        ensures
            parses(final(self)@, result, push_across(old(self)@, kind@, first, last)),
            result is Ok ==> keeps(old(self)@, final(self)@),
            result matches Ok(id) ==> id_known(id, final(self)@.nodes.len() as int),
    {
        let start: usize = self.node_span(first)?.start;
        let end: usize = self.node_span(last)?.end;
        self.push(kind, Span { start, end })
    }

    pub(crate) fn push_from(
        &mut self,
        kind: ExprKind<'source>,
        start: usize,
        last: ExprId,
    ) -> (result: Result<
        ExprId,
        ExpressionError,
    >)
        requires
            stands_inside(old(self)@),
            form_known(kind@, old(self)@.nodes.len() as int),
        ensures
            parses(final(self)@, result, push_from(old(self)@, kind@, start, last)),
            result is Ok ==> keeps(old(self)@, final(self)@),
            result matches Ok(id) ==> id_known(id, final(self)@.nodes.len() as int),
    {
        let end: usize = self.node_span(last)?.end;
        self.push(kind, Span { start, end })
    }

    pub(crate) fn push_to(&mut self, kind: ExprKind<'source>, first: ExprId, last: Token<'source>) -> (result:
        Result<ExprId, ExpressionError>)
        requires
            stands_inside(old(self)@),
            form_known(kind@, old(self)@.nodes.len() as int),
        ensures
            parses(final(self)@, result, push_to(old(self)@, kind@, first, last@)),
            result is Ok ==> keeps(old(self)@, final(self)@),
            result matches Ok(id) ==> id_known(id, final(self)@.nodes.len() as int),
    {
        let start: usize = self.node_span(first)?.start;
        self.push(kind, Span { start, end: last.span.end })
    }

    pub(crate) fn push_unit_at(&mut self, token: Token<'source>) -> (result: Result<ExprId, ExpressionError>)
        requires
            stands_inside(old(self)@),
        ensures
            parses(final(self)@, result, push_unit_at(old(self)@, token@)),
            result is Ok ==> keeps(old(self)@, final(self)@),
            result matches Ok(id) ==> id_known(id, final(self)@.nodes.len() as int),
    {
        self.push(ExprKind::Unit, Span { start: token.span.start, end: token.span.start })
    }

    pub(crate) fn push_integer(&mut self, token: Token<'source>) -> (result: Result<ExprId, ExpressionError>)
        requires
            stands_inside(old(self)@),
        ensures
            parses(final(self)@, result, push_integer(old(self)@, token@)),
            result is Ok ==> keeps(old(self)@, final(self)@),
            result matches Ok(id) ==> id_known(id, final(self)@.nodes.len() as int),
    {
        match decode_integer(token.text) {
            Ok(literal) => self.push(ExprKind::Integer(literal), token.span),
            Err(kind) => Err(ExpressionError { kind, span: token.span }),
        }
    }

    pub(crate) fn push_character(
        &mut self,
        token: Token<'source>,
    ) -> (result: Result<ExprId, ExpressionError>)
        requires
            stands_inside(old(self)@),
        ensures
            parses(final(self)@, result, push_character(old(self)@, token@)),
            result is Ok ==> keeps(old(self)@, final(self)@),
            result matches Ok(id) ==> id_known(id, final(self)@.nodes.len() as int),
    {
        match decode_character(token.text) {
            Some(value) => self.push(ExprKind::Char(value), token.span),
            None => Err(
                ExpressionError { kind: ExpressionErrorKind::InvalidCharacter, span: token.span },
            ),
        }
    }

    pub(crate) fn node_is_unit(&self, id: ExprId, depth: usize) -> (result: bool)
        ensures
            result == unit_form(self@.nodes, id, depth as int),
        decreases room(depth as int),
    {
        proof {
            reveal(unit_form);
        }
        if refuses_level(depth) {
            return false;
        }
        let expression = match self.expression_at(id) {
            Some(expression) => expression,
            None => return false,
        };
        match expression.kind {
            ExprKind::Unit => true,
            ExprKind::InlineConst { operand }
            | ExprKind::Return { operand }
            | ExprKind::LoopBreak { operand } => self.node_is_unit(operand, depth + 1),
            ExprKind::Sequence { then, .. } => self.node_is_unit(then, depth + 1),
            ExprKind::If { then_branch, else_branch, .. }
            | ExprKind::LoopBreakIf { then_branch, else_branch, .. } => {
                self.node_is_unit(then_branch, depth + 1) && self.node_is_unit(
                    else_branch,
                    depth + 1,
                )
            },
            _ => false,
        }
    }

    pub(crate) fn pattern_order_value(&self, id: ExprId) -> (result: Option<PatternOrderValue>)
        ensures
            result == pattern_bound_value(self@.nodes, id),
    {
        let expression = match self.expression_at(id) {
            Some(expression) => expression,
            None => return None,
        };
        match expression.kind {
            ExprKind::Integer(literal) => order_literal(literal),
            ExprKind::Unary { operator: UnaryOperator::Negate, operand } => {
                let operand = match self.expression_at(operand) {
                    Some(operand) => operand,
                    None => return None,
                };
                match operand.kind {
                    ExprKind::Integer(literal) => {
                        let unsigned = match literal.suffix {
                            Some(suffix) => match IntegerType::from_name(suffix) {
                                Some(ty) => !ty.is_signed(),
                                None => false,
                            },
                            None => false,
                        };
                        if unsigned {
                            return None;
                        }
                        match negate_bound(literal.value) {
                            Some(number) => Some(PatternOrderValue::Signed(number)),
                            None => None,
                        }
                    },
                    _ => None,
                }
            },
            ExprKind::Char(value) => Some(PatternOrderValue::Character(value)),
            _ => None,
        }
    }

    pub(crate) fn record_range_validation(&mut self, range: RangeValidation) -> (result: Result<
        (),
        ExpressionError,
    >)
        requires
            stands_inside(old(self)@),
            id_known(range.scrutinee, old(self)@.nodes.len() as int),
            option_known(range.start, old(self)@.nodes.len() as int),
            option_known(range.end, old(self)@.nodes.len() as int),
        ensures
            reaches(final(self)@, result, noted_range(old(self)@, range)),
            result is Ok ==> keeps(old(self)@, final(self)@),
    {
        proof {
            reveal(Reader::state);
        }
        if self.range_validations.len() >= MAX_RANGE_VALIDATIONS {
            let first = match range.start {
                Some(start) => Some(start),
                None => range.end,
            };
            let last = match range.end {
                Some(end) => Some(end),
                None => range.start,
            };
            let start: usize = match self.bound_span(first) {
                Some(span) => span.start,
                None => 0,
            };
            let end: usize = match self.bound_span(last) {
                Some(span) => span.end,
                None => self.source_len,
            };
            return Err(
                ExpressionError {
                    kind: ExpressionErrorKind::TooManyRangeValidations,
                    span: Span { start, end },
                },
            );
        }
        self.range_validations.push(range);
        proof {
            assert(self@.ranges =~= old(self)@.ranges.push(range));
        }
        Ok(())
    }

    pub(crate) fn bound_span(&self, bound: Option<ExprId>) -> (result: Option<Span>)
        ensures
            result == bound_span(self@, bound),
    {
        match bound {
            Some(id) => match self.expression_at(id) {
                Some(expression) => Some(expression.span),
                None => None,
            },
            None => None,
        }
    }
}

} // verus!
