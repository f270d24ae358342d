//! The language of expressions: what tree a text stands for.
//!
//! Each function here says, for a state of the parser, which tree nodes come
//! next and where the parser stands after them, or which error is reported.
use crate::expression::{
    ExprId, ExpressionError, ExpressionErrorKind, Form, MAX_ARRAY_ELEMENTS,
    MAX_CALL_ARGUMENTS, MAX_EXPRESSION_DEPTH, Node, PatternOrderValue, RangeValidation,
    Tree, bound_order, level_refused, literal_bound, negative_bound, node_at,
    order_is_empty, room,
};
use crate::integer::{
    BinaryOperator, ScalarType, UnaryOperator, integer_signed, integer_type_named,
    scalar_type_named,
};
use crate::literal::{
    character_literal, integer_literal,
};
use crate::token::{
    LexError, Lexeme, Span, TokenKind, bytes_before, failure_in_bytes, lexing,
};
use vstd::prelude::*;

verus! {

pub const MAX_INLINE_CONST_BINDINGS: usize = 4;

pub const MAX_INLINE_CONST_ASSIGNMENTS: usize = 8;

pub const MAX_INLINE_CONST_EXPRESSION_STATEMENTS: usize = 8;

pub const MAX_MATCH_PATTERNS: usize = 8;

pub const MAX_MATCH_ALTERNATIVES: usize = 4;

pub const MAX_RANGE_VALIDATIONS: usize = 32;

pub const MAX_LOOP_BREAK_BRANCHES: usize = 4;

/// A token with its text as a sequence of characters.
pub ghost struct Word {
    pub kind: TokenKind,
    pub text: Seq<char>,
    pub span: Span,
}

/// A state of the parser.
pub ghost struct Parsing {
    /// The tokens of the text, up to the first that cannot be read.
    pub words: Seq<Word>,
    /// Why no token can be read behind them, if not for the end of the text.
    pub failure: Option<LexError>,
    /// How many tokens are consumed.
    pub position: int,
    /// Whether the next token has been looked at.
    pub looked: bool,
    /// The nodes made so far.
    pub nodes: Seq<Option<Node>>,
    /// The range patterns met so far.
    pub ranges: Seq<RangeValidation>,
    /// How many nodes there may be.
    pub limit: int,
    /// How long the text is.
    pub length: usize,
}

pub type Parsed<T> = Result<(Parsing, T), ExpressionError>;

/// How many tokens are left.
pub open spec fn remaining(p: Parsing) -> int {
    p.words.len() - p.position
}

/// Whether some tokens have been consumed between two states.
pub open spec fn advances(p: Parsing, q: Parsing) -> bool {
    p.position < q.position <= q.words.len() && q.words.len() == p.words.len()
}

pub open spec fn front(p: Parsing) -> Option<Word> {
    if 0 <= p.position < p.words.len() {
        Some(p.words[p.position])
    } else {
        None
    }
}

/// The token that has been looked at.
pub open spec fn lookahead(p: Parsing) -> Option<Word> {
    if p.looked {
        front(p)
    } else {
        None
    }
}

pub open spec fn lexical_error(error: LexError) -> ExpressionError {
    ExpressionError { kind: ExpressionErrorKind::Lexical(error), span: error.span }
}

pub open spec fn end_span(p: Parsing) -> Span {
    Span { start: p.length, end: p.length }
}

/// An error at a token, or at the end of the text where there is none.
pub open spec fn error_at(
    p: Parsing,
    kind: ExpressionErrorKind,
    word: Option<Word>,
) -> ExpressionError {
    match word {
        Some(word) => ExpressionError { kind, span: word.span },
        None => ExpressionError { kind, span: end_span(p) },
    }
}

pub open spec fn nesting_error(p: Parsing) -> ExpressionError {
    error_at(p, ExpressionErrorKind::NestingLimitExceeded, lookahead(p))
}

/// Looking at the next token.
pub open spec fn peek(p: Parsing) -> Result<Parsing, ExpressionError> {
    if p.looked {
        Ok(p)
    } else if p.position < p.words.len() {
        Ok(Parsing { looked: true, ..p })
    } else {
        match p.failure {
            Some(error) => Err(lexical_error(error)),
            None => Ok(p),
        }
    }
}

/// Consuming the next token.
pub open spec fn take(p: Parsing) -> Parsed<Option<Word>> {
    if p.position < p.words.len() {
        Ok((Parsing { looked: false, position: p.position + 1, ..p }, front(p)))
    } else {
        match p.failure {
            Some(error) => Err(lexical_error(error)),
            None => Ok((p, None)),
        }
    }
}

pub open spec fn is_kind(word: Option<Word>, kind: TokenKind) -> bool {
    word matches Some(word) && word.kind == kind
}

pub open spec fn is_text(word: Option<Word>, text: Seq<char>) -> bool {
    word matches Some(word) && word.text == text
}

pub open spec fn is_operator(word: Option<Word>, text: Seq<char>) -> bool {
    word matches Some(word) && word.kind == TokenKind::Operator && word.text == text
}

/// Whether the next token is of a kind.
pub open spec fn next_is(p: Parsing, kind: TokenKind) -> Parsed<bool> {
    match peek(p) {
        Err(error) => Err(error),
        Ok(q) => Ok((q, is_kind(front(q), kind))),
    }
}

/// Whether the next token reads as given.
pub open spec fn next_reads(p: Parsing, text: Seq<char>) -> Parsed<bool> {
    match peek(p) {
        Err(error) => Err(error),
        Ok(q) => Ok((q, is_text(front(q), text))),
    }
}

/// Whether the next token is the given operator.
pub open spec fn next_operator(p: Parsing, text: Seq<char>) -> Parsed<bool> {
    match peek(p) {
        Err(error) => Err(error),
        Ok(q) => Ok((q, is_operator(front(q), text))),
    }
}

/// Consuming a token of a kind.
pub open spec fn expect_kind(p: Parsing, kind: TokenKind, error: ExpressionErrorKind) -> Parsed<
    Word,
> {
    match take(p) {
        Err(error) => Err(error),
        Ok((q, word)) => if is_kind(word, kind) {
            Ok((q, word->0))
        } else {
            Err(error_at(q, error, word))
        },
    }
}

/// Consuming a token that reads as given.
pub open spec fn expect_text(p: Parsing, text: Seq<char>, error: ExpressionErrorKind) -> Parsed<
    Word,
> {
    match take(p) {
        Err(error) => Err(error),
        Ok((q, word)) => if is_text(word, text) {
            Ok((q, word->0))
        } else {
            Err(error_at(q, error, word))
        },
    }
}

/// Consuming the given operator.
pub open spec fn expect_operator(p: Parsing, text: Seq<char>, error: ExpressionErrorKind) -> Parsed<
    Word,
> {
    match take(p) {
        Err(error) => Err(error),
        Ok((q, word)) => if is_operator(word, text) {
            Ok((q, word->0))
        } else {
            Err(error_at(q, error, word))
        },
    }
}

/// Making a node.
pub open spec fn push_node(p: Parsing, form: Form, span: Span) -> Parsed<ExprId> {
    if p.nodes.len() >= p.limit {
        Err(ExpressionError { kind: ExpressionErrorKind::TooManyNodes, span })
    } else {
        Ok(
            (
                Parsing { nodes: p.nodes.push(Some(Node { form, span })), ..p },
                ExprId(p.nodes.len() as usize),
            ),
        )
    }
}

/// An error for a tree that is not whole, at the end of a text.
pub open spec fn broken_at(length: usize) -> ExpressionError {
    ExpressionError {
        kind: ExpressionErrorKind::InvalidExpressionTree,
        span: Span { start: length, end: length },
    }
}

pub open spec fn broken_tree(p: Parsing) -> ExpressionError {
    broken_at(p.length)
}

/// The text that a node covers.
pub open spec fn span_of(p: Parsing, id: ExprId) -> Result<Span, ExpressionError> {
    match node_at(p.nodes, id) {
        Some(node) => Ok(node.span),
        None => Err(broken_tree(p)),
    }
}

/// Making a node that covers the text from one node to another.
pub open spec fn push_across(p: Parsing, form: Form, first: ExprId, last: ExprId) -> Parsed<
    ExprId,
> {
    match span_of(p, first) {
        Err(error) => Err(error),
        Ok(start) => match span_of(p, last) {
            Err(error) => Err(error),
            Ok(end) => push_node(p, form, Span { start: start.start, end: end.end }),
        },
    }
}

/// Making a node that covers the text from a place to the end of a node.
pub open spec fn push_from(p: Parsing, form: Form, start: usize, last: ExprId) -> Parsed<ExprId> {
    match span_of(p, last) {
        Err(error) => Err(error),
        Ok(end) => push_node(p, form, Span { start, end: end.end }),
    }
}

/// A binary operator and how tightly it binds.
pub open spec fn operator_named(text: Seq<char>) -> Option<(BinaryOperator, u8)> {
    if text == "||"@ {
        Some((BinaryOperator::LogicalOr, 1))
    } else if text == "&&"@ {
        Some((BinaryOperator::LogicalAnd, 2))
    } else if text == "|"@ {
        Some((BinaryOperator::BitOr, 3))
    } else if text == "^"@ {
        Some((BinaryOperator::BitXor, 4))
    } else if text == "&"@ {
        Some((BinaryOperator::BitAnd, 5))
    } else if text == "=="@ {
        Some((BinaryOperator::Equal, 6))
    } else if text == "!="@ {
        Some((BinaryOperator::NotEqual, 6))
    } else if text == "<"@ {
        Some((BinaryOperator::Less, 7))
    } else if text == "<="@ {
        Some((BinaryOperator::LessEqual, 7))
    } else if text == ">"@ {
        Some((BinaryOperator::Greater, 7))
    } else if text == ">="@ {
        Some((BinaryOperator::GreaterEqual, 7))
    } else if text == "<<"@ {
        Some((BinaryOperator::ShiftLeft, 8))
    } else if text == ">>"@ {
        Some((BinaryOperator::ShiftRight, 8))
    } else if text == "+"@ {
        Some((BinaryOperator::Add, 9))
    } else if text == "-"@ {
        Some((BinaryOperator::Subtract, 9))
    } else if text == "*"@ {
        Some((BinaryOperator::Multiply, 10))
    } else if text == "/"@ {
        Some((BinaryOperator::Divide, 10))
    } else if text == "%"@ {
        Some((BinaryOperator::Remainder, 10))
    } else {
        None
    }
}

/// The operator of a compound assignment; none for the plain one.
pub open spec fn assignment_operator(text: Seq<char>) -> Option<BinaryOperator> {
    if text == "+="@ {
        Some(BinaryOperator::Add)
    } else if text == "-="@ {
        Some(BinaryOperator::Subtract)
    } else if text == "*="@ {
        Some(BinaryOperator::Multiply)
    } else if text == "/="@ {
        Some(BinaryOperator::Divide)
    } else if text == "%="@ {
        Some(BinaryOperator::Remainder)
    } else if text == "&="@ {
        Some(BinaryOperator::BitAnd)
    } else if text == "|="@ {
        Some(BinaryOperator::BitOr)
    } else if text == "^="@ {
        Some(BinaryOperator::BitXor)
    } else if text == "<<="@ {
        Some(BinaryOperator::ShiftLeft)
    } else if text == ">>="@ {
        Some(BinaryOperator::ShiftRight)
    } else {
        None
    }
}

/// The ids of a list, filled up with nothing to `size` places.
pub open spec fn padded(ids: Seq<ExprId>, size: nat) -> Seq<Option<ExprId>> {
    Seq::new(
        size,
        |k: int|
            if k < ids.len() {
                Some(ids[k])
            } else {
                None
            },
    )
}

/// Whether an expression is the unit value by its form.
#[verifier::opaque]
pub open spec fn unit_form(nodes: Seq<Option<Node>>, id: ExprId, depth: int) -> bool
    decreases room(depth),
{
    if level_refused(depth) {
        false
    } else {
        match node_at(nodes, id) {
            None => false,
            Some(node) => match node.form {
                Form::Unit => true,
                Form::InlineConst { operand } => unit_form(nodes, operand, depth + 1),
                Form::Return { operand } => unit_form(nodes, operand, depth + 1),
                Form::LoopBreak { operand } => unit_form(nodes, operand, depth + 1),
                Form::Sequence { then, .. } => unit_form(nodes, then, depth + 1),
                Form::If { then_branch, else_branch, .. } => unit_form(
                    nodes,
                    then_branch,
                    depth + 1,
                ) && unit_form(nodes, else_branch, depth + 1),
                Form::LoopBreakIf { then_branch, else_branch, .. } => unit_form(
                    nodes,
                    then_branch,
                    depth + 1,
                ) && unit_form(nodes, else_branch, depth + 1),
                _ => false,
            },
        }
    }
}

/// The place in an order of a bound that is a literal.
pub open spec fn pattern_bound_value(nodes: Seq<Option<Node>>, id: ExprId) -> Option<
    PatternOrderValue,
> {
    match node_at(nodes, id) {
        None => None,
        Some(node) => match node.form {
            Form::Integer { value, suffix } => literal_bound(value, suffix),
            Form::Unary { operator: UnaryOperator::Negate, operand } => match node_at(
                nodes,
                operand,
            ) {
                Some(Node { form: Form::Integer { value, suffix }, .. }) => {
                    let unsigned = match suffix {
                        Some(suffix) => match integer_type_named(suffix) {
                            Some(ty) => !integer_signed(ty),
                            None => false,
                        },
                        None => false,
                    };
                    if unsigned {
                        None
                    } else {
                        match negative_bound(value) {
                            Some(number) => Some(PatternOrderValue::Signed(number)),
                            None => None,
                        }
                    }
                },
                _ => None,
            },
            Form::Char(value) => Some(PatternOrderValue::Character(value)),
            _ => None,
        },
    }
}

/// The nodes with every use of the name `name` below `id` replaced by `form`.
/// Inline constants are closed: nothing inside them is replaced.
pub open spec fn substituted(
    length: usize,
    nodes: Seq<Option<Node>>,
    id: ExprId,
    name: Seq<char>,
    form: Form,
    depth: int,
) -> Result<Seq<Option<Node>>, ExpressionError>
    decreases room(depth), 0int,
{
    match node_at(nodes, id) {
        None => Err(broken_at(length)),
        Some(node) => if level_refused(depth) {
            Err(
                ExpressionError {
                    kind: ExpressionErrorKind::NestingLimitExceeded,
                    span: node.span,
                },
            )
        } else {
            match node.form {
                Form::Identifier(identifier) => if identifier == name {
                    Ok(nodes.update(id.0 as int, Some(Node { form, span: node.span })))
                } else {
                    Ok(nodes)
                },
                Form::Call { arguments, argument_count, .. } => if argument_count
                    > MAX_CALL_ARGUMENTS {
                    Err(broken_at(length))
                } else {
                    substituted_all(
                        length,
                        nodes,
                        arguments,
                        argument_count as int,
                        name,
                        form,
                        depth + 1,
                    )
                },
                Form::Array { elements, element_count } => if element_count > MAX_ARRAY_ELEMENTS {
                    Err(broken_at(length))
                } else {
                    substituted_all(
                        length,
                        nodes,
                        elements,
                        element_count as int,
                        name,
                        form,
                        depth + 1,
                    )
                },
                Form::Cast { operand, .. } => substituted(length, nodes, operand, name, form, depth + 1),
                Form::Ascribe { operand, .. } => substituted(
                    length,
                    nodes,
                    operand,
                    name,
                    form,
                    depth + 1,
                ),
                Form::Unary { operand, .. } => substituted(length, nodes, operand, name, form, depth + 1),
                Form::Return { operand } => substituted(length, nodes, operand, name, form, depth + 1),
                Form::LoopBreak { operand } => substituted(length, nodes, operand, name, form, depth + 1),
                Form::ArrayRepeat { element, .. } => substituted(
                    length,
                    nodes,
                    element,
                    name,
                    form,
                    depth + 1,
                ),
                Form::SliceLen { base } => substituted(length, nodes, base, name, form, depth + 1),
                Form::SliceIsEmpty { base } => substituted(length, nodes, base, name, form, depth + 1),
                Form::StrAsBytes { base } => substituted(length, nodes, base, name, form, depth + 1),
                Form::ReferenceAsPointer { base, .. } => substituted(
                    length,
                    nodes,
                    base,
                    name,
                    form,
                    depth + 1,
                ),
                Form::Binary { left, right, .. } => substituted_all(
                    length,
                    nodes,
                    seq![Some(left), Some(right)],
                    2,
                    name,
                    form,
                    depth + 1,
                ),
                Form::Sequence { first, then } => substituted_all(
                    length,
                    nodes,
                    seq![Some(first), Some(then)],
                    2,
                    name,
                    form,
                    depth + 1,
                ),
                Form::Index { base, index } => substituted_all(
                    length,
                    nodes,
                    seq![Some(base), Some(index)],
                    2,
                    name,
                    form,
                    depth + 1,
                ),
                Form::StrIsCharBoundary { base, index } => substituted_all(
                    length,
                    nodes,
                    seq![Some(base), Some(index)],
                    2,
                    name,
                    form,
                    depth + 1,
                ),
                Form::RangeIndex { base, start, end, .. } => substituted_all(
                    length,
                    nodes,
                    seq![Some(base), start, end],
                    3,
                    name,
                    form,
                    depth + 1,
                ),
                Form::If { condition, then_branch, else_branch } => substituted_all(
                    length,
                    nodes,
                    seq![Some(condition), Some(then_branch), Some(else_branch)],
                    3,
                    name,
                    form,
                    depth + 1,
                ),
                Form::LoopBreakIf { condition, then_branch, else_branch } => substituted_all(
                    length,
                    nodes,
                    seq![Some(condition), Some(then_branch), Some(else_branch)],
                    3,
                    name,
                    form,
                    depth + 1,
                ),
                _ => Ok(nodes),
            }
        },
    }
}

/// The same below the first `count` of the expressions `ids`, in order.
pub open spec fn substituted_all(
    length: usize,
    nodes: Seq<Option<Node>>,
    ids: Seq<Option<ExprId>>,
    count: int,
    name: Seq<char>,
    form: Form,
    depth: int,
) -> Result<Seq<Option<Node>>, ExpressionError>
    decreases room(depth), count,
{
    if count <= 0 {
        Ok(nodes)
    } else {
        match substituted_all(length, nodes, ids, count - 1, name, form, depth) {
            Err(error) => Err(error),
            Ok(nodes) => match ids[count - 1] {
                None => Ok(nodes),
                Some(id) => substituted(length, nodes, id, name, form, depth),
            },
        }
    }
}

/// A name bound inside a block, with what stands for it.
pub ghost struct Binding {
    pub name: Seq<char>,
    pub form: Form,
    pub mutable: bool,
    pub annotation: Option<ScalarType>,
}

/// Replacing the names that the first `count` bindings bind, the last first.
#[verifier::opaque]
pub open spec fn with_bindings(
    p: Parsing,
    id: ExprId,
    bindings: Seq<Binding>,
    count: int,
    depth: int,
) -> Result<Parsing, ExpressionError>
    decreases count,
{
    if count <= 0 {
        Ok(p)
    } else {
        let binding = bindings[count - 1];
        match substituted(p.length, p.nodes, id, binding.name, binding.form, depth) {
            Err(error) => Err(error),
            Ok(nodes) => with_bindings(Parsing { nodes, ..p }, id, bindings, count - 1, depth),
        }
    }
}

/// The last of the first `count` bindings with a name.
pub open spec fn binding_place(bindings: Seq<Binding>, name: Seq<char>, count: int) -> Option<int>
    decreases count,
{
    if count <= 0 {
        None
    } else if bindings[count - 1].name == name {
        Some(count - 1)
    } else {
        binding_place(bindings, name, count - 1)
    }
}

/// The form of a node, or an error at `span` where there is none.
pub open spec fn form_of(p: Parsing, id: ExprId, span: Span) -> Result<Form, ExpressionError> {
    match node_at(p.nodes, id) {
        Some(node) => Ok(node.form),
        None => Err(
            ExpressionError { kind: ExpressionErrorKind::InvalidExpressionTree, span },
        ),
    }
}

/// What stands for a name that is bound to `form`, whose text ends with that of
/// `value`: with an annotation, an ascription of its type.
#[verifier::opaque]
pub open spec fn annotated(
    p: Parsing,
    form: Form,
    annotation: Option<ScalarType>,
    name: Word,
    value: ExprId,
) -> Parsed<Form> {
    match annotation {
        None => Ok((p, form)),
        Some(target) => match span_of(p, value) {
            Err(error) => Err(error),
            Ok(span) => match push_node(p, form, span) {
                Err(error) => Err(error),
                Ok((q, operand)) => {
                    let ascription = Form::Ascribe { operand, target };
                    match push_from(q, ascription, name.span.start, value) {
                        Err(error) => Err(error),
                        Ok((q, _)) => Ok((q, ascription)),
                    }
                },
            },
        },
    }
}

/// An optional type annotation.
#[verifier::opaque]
pub open spec fn parsed_annotation(p: Parsing) -> Parsed<Option<ScalarType>> {
    match next_is(p, TokenKind::Colon) {
        Err(error) => Err(error),
        Ok((p, false)) => Ok((p, None)),
        Ok((p, true)) => match take(p) {
            Err(error) => Err(error),
            Ok((p, _)) => match expect_kind(
                p,
                TokenKind::Identifier,
                ExpressionErrorKind::ExpectedInlineConstType,
            ) {
                Err(error) => Err(error),
                Ok((p, ty)) => match scalar_type_named(ty.text) {
                    Some(scalar) => Ok((p, Some(scalar))),
                    None => Err(
                        ExpressionError {
                            kind: ExpressionErrorKind::UnsupportedInlineConstType,
                            span: ty.span,
                        },
                    ),
                },
            },
        },
    }
}

/// A pattern of a `match` arm.
pub ghost enum Pattern {
    Wildcard,
    Binding(Seq<char>),
    Value(ExprId),
    Range { start: Option<ExprId>, end: Option<ExprId>, inclusive: bool },
    BindingAt { name: Seq<char>, body: PatternBody },
}

/// A pattern that binds no name.
#[derive(Clone, Copy, Debug, PartialEq, Eq, Structural)]
pub enum PatternBody {
    Wildcard,
    Value(ExprId),
    Range { start: Option<ExprId>, end: Option<ExprId>, inclusive: bool },
}

/// The pattern as one that binds no name.
pub open spec fn pattern_body(pattern: Pattern) -> Option<PatternBody> {
    match pattern {
        Pattern::Wildcard => Some(PatternBody::Wildcard),
        Pattern::Value(value) => Some(PatternBody::Value(value)),
        Pattern::Range { start, end, inclusive } => Some(
            PatternBody::Range { start, end, inclusive },
        ),
        _ => None,
    }
}

/// The name that a pattern binds.
pub open spec fn bound_name(pattern: Pattern) -> Option<Seq<char>> {
    match pattern {
        Pattern::Binding(name) => Some(name),
        Pattern::BindingAt { name, .. } => Some(name),
        _ => None,
    }
}

/// An integer literal as a node.
pub open spec fn push_integer(p: Parsing, word: Word) -> Parsed<ExprId> {
    match integer_literal(word.text) {
        Err(kind) => Err(ExpressionError { kind, span: word.span }),
        Ok((value, suffix)) => push_node(p, Form::Integer { value, suffix }, word.span),
    }
}

/// A character literal as a node.
pub open spec fn push_character(p: Parsing, word: Word) -> Parsed<ExprId> {
    match character_literal(word.text) {
        None => Err(
            ExpressionError { kind: ExpressionErrorKind::InvalidCharacter, span: word.span },
        ),
        Some(value) => push_node(p, Form::Char(value), word.span),
    }
}

/// A literal or a name in a pattern.
pub open spec fn parsed_pattern_bound(p: Parsing, depth: int) -> Parsed<ExprId> {
    if level_refused(depth) {
        Err(nesting_error(p))
    } else {
        match take(p) {
            Err(error) => Err(error),
            Ok((q, None)) => Err(error_at(q, ExpressionErrorKind::ExpectedMatchPattern, None)),
            Ok((q, Some(word))) => if word.kind == TokenKind::Integer {
                push_integer(q, word)
            } else if word.kind == TokenKind::Character {
                push_character(q, word)
            } else if word.text == "true"@ || word.text == "false"@ {
                push_node(q, Form::Bool(word.text == "true"@), word.span)
            } else if word.kind == TokenKind::Identifier && word.text != "_"@ && word.text
                != "mut"@ {
                push_node(q, Form::Identifier(word.text), word.span)
            } else if word.kind == TokenKind::Operator && word.text == "-"@ {
                match expect_kind(
                    q,
                    TokenKind::Integer,
                    ExpressionErrorKind::ExpectedMatchPattern,
                ) {
                    Err(error) => Err(error),
                    Ok((q, literal)) => match push_integer(q, literal) {
                        Err(error) => Err(error),
                        Ok((q, operand)) => push_node(
                            q,
                            Form::Unary { operator: UnaryOperator::Negate, operand },
                            Span { start: word.span.start, end: literal.span.end },
                        ),
                    },
                }
            } else {
                Err(error_at(q, ExpressionErrorKind::ExpectedMatchPattern, Some(word)))
            },
        }
    }
}

pub open spec fn is_boolean_bound(p: Parsing, bound: Option<ExprId>) -> bool {
    bound matches Some(id) && node_at(p.nodes, id) matches Some(node) && node.form is Bool
}

pub open spec fn bound_span(p: Parsing, bound: Option<ExprId>) -> Option<Span> {
    match bound {
        Some(id) => match node_at(p.nodes, id) {
            Some(node) => Some(node.span),
            None => None,
        },
        None => None,
    }
}

/// The text from the first of two optional bounds to the last.
pub open spec fn bounds_span(p: Parsing, start: Option<ExprId>, end: Option<ExprId>) -> Span {
    let first = match bound_span(p, start) {
        Some(span) => Some(span),
        None => bound_span(p, end),
    };
    let last = match bound_span(p, end) {
        Some(span) => Some(span),
        None => first,
    };
    Span {
        start: match first {
            Some(span) => span.start,
            None => 0,
        },
        end: match last {
            Some(span) => span.end,
            None => p.length,
        },
    }
}

/// A range pattern whose bounds have been read.
pub open spec fn range_pattern(
    p: Parsing,
    start: Option<ExprId>,
    end: Option<ExprId>,
    inclusive: bool,
) -> Parsed<Pattern> {
    let pattern = Pattern::Range { start, end, inclusive };
    if is_boolean_bound(p, start) || is_boolean_bound(p, end) {
        Err(
            ExpressionError {
                kind: ExpressionErrorKind::InvalidRangeType,
                span: bounds_span(p, start, end),
            },
        )
    } else {
        match (start, end) {
            (Some(first), Some(last)) => match (
                pattern_bound_value(p.nodes, first),
                pattern_bound_value(p.nodes, last),
            ) {
                (Some(low), Some(high)) => match bound_order(low, high) {
                    Some(order) => if order_is_empty(order, inclusive) {
                        match (span_of(p, first), span_of(p, last)) {
                            (Ok(from), Ok(to)) => Err(
                                ExpressionError {
                                    kind: ExpressionErrorKind::InvalidRangeBounds,
                                    span: Span { start: from.start, end: to.end },
                                },
                            ),
                            _ => Err(broken_tree(p)),
                        }
                    } else {
                        Ok((p, pattern))
                    },
                    None => Ok((p, pattern)),
                },
                _ => Ok((p, pattern)),
            },
            _ => Ok((p, pattern)),
        }
    }
}

/// The part of a range pattern from its dots on.
pub open spec fn parsed_range_pattern(p: Parsing, start: Option<ExprId>, depth: int) -> Parsed<
    Pattern,
> {
    match take(p) {
        Err(error) => Err(error),
        Ok((p, _)) => match expect_kind(
            p,
            TokenKind::Dot,
            ExpressionErrorKind::ExpectedMatchPattern,
        ) {
            Err(error) => Err(error),
            Ok((p, _)) => match next_operator(p, "="@) {
                Err(error) => Err(error),
                Ok((p, true)) => match take(p) {
                    Err(error) => Err(error),
                    Ok((p, _)) => match parsed_pattern_bound(p, depth + 1) {
                        Err(error) => Err(error),
                        Ok((p, end)) => range_pattern(p, start, Some(end), true),
                    },
                },
                Ok((p, false)) => match peek(p) {
                    Err(error) => Err(error),
                    Ok(p) => if is_kind(front(p), TokenKind::FatArrow) || is_operator(
                        front(p),
                        "|"@,
                    ) {
                        range_pattern(p, start, None, false)
                    } else {
                        match parsed_pattern_bound(p, depth + 1) {
                            Err(error) => Err(error),
                            Ok((p, end)) => range_pattern(p, start, Some(end), false),
                        }
                    },
                },
            },
        },
    }
}

pub open spec fn name_form(nodes: Seq<Option<Node>>, id: ExprId) -> Option<Seq<char>> {
    match node_at(nodes, id) {
        Some(Node { form: Form::Identifier(name), .. }) => Some(name),
        _ => None,
    }
}

/// Whether a name starts with a small letter, as a binding does.
pub open spec fn starts_small(name: Seq<char>) -> bool {
    name.len() > 0 && 'a' <= name[0] && name[0] <= 'z'
}

/// A single pattern.
pub open spec fn parsed_pattern(p: Parsing, depth: int) -> Parsed<Pattern>
    decreases room(depth),
{
    match peek(p) {
        Err(error) => Err(error),
        Ok(p) => if is_kind(front(p), TokenKind::Identifier) && is_text(front(p), "_"@) {
            match take(p) {
                Err(error) => Err(error),
                Ok((p, _)) => Ok((p, Pattern::Wildcard)),
            }
        } else if is_kind(front(p), TokenKind::Dot) {
            parsed_range_pattern(p, None, depth)
        } else {
            match parsed_pattern_bound(p, depth + 1) {
                Err(error) => Err(error),
                Ok((p, start)) => match next_operator(p, "@"@) {
                    Err(error) => Err(error),
                    Ok((p, true)) => match name_form(p.nodes, start) {
                        None => Err(
                            error_at(p, ExpressionErrorKind::ExpectedIdentifier, lookahead(p)),
                        ),
                        Some(name) => match take(p) {
                            Err(error) => Err(error),
                            Ok((p, _)) => match parsed_pattern(p, depth + 1) {
                                Err(error) => Err(error),
                                Ok((p, pattern)) => match pattern_body(pattern) {
                                    Some(body) => Ok((p, Pattern::BindingAt { name, body })),
                                    None => Err(
                                        error_at(
                                            p,
                                            ExpressionErrorKind::ExpectedMatchPattern,
                                            lookahead(p),
                                        ),
                                    ),
                                },
                            },
                        },
                    },
                    Ok((p, false)) => if is_kind(front(p), TokenKind::Dot) {
                        parsed_range_pattern(p, Some(start), depth)
                    } else {
                        match name_form(p.nodes, start) {
                            Some(name) => if starts_small(name) {
                                Ok((p, Pattern::Binding(name)))
                            } else {
                                Ok((p, Pattern::Value(start)))
                            },
                            None => Ok((p, Pattern::Value(start))),
                        }
                    },
                },
            }
        },
    }
}

/// Whether a grouped binding `name @ (` comes next: the name and the state
/// before the parenthesis.
pub open spec fn grouped_binding(p: Parsing) -> Parsed<Option<Seq<char>>> {
    match take(p) {
        Err(error) => Err(error),
        Ok((q, candidate)) => match take(q) {
            Err(error) => Err(error),
            Ok((q, at)) => if is_kind(candidate, TokenKind::Identifier) && !is_text(
                candidate,
                "_"@,
            ) && is_operator(at, "@"@) {
                match peek(q) {
                    Ok(r) => if is_kind(front(r), TokenKind::OpenParen) {
                        Ok((r, Some(candidate->0.text)))
                    } else {
                        Ok((p, None))
                    },
                    Err(_) => Ok((p, None)),
                }
            } else {
                Ok((p, None))
            },
        },
    }
}

/// The alternatives of a pattern, put behind those in `found`.
pub open spec fn parsed_alternatives(
    p: Parsing,
    found: Seq<Pattern>,
    binding: Option<Seq<char>>,
    depth: int,
) -> Parsed<Seq<Pattern>>
    decreases room(depth), 2int, 0int,
{
    if level_refused(depth) {
        Err(nesting_error(p))
    } else if binding is None {
        match grouped_binding(p) {
            Err(error) => Err(error),
            Ok((q, Some(name))) => parsed_alternatives(q, found, Some(name), depth + 1),
            Ok((q, None)) => parsed_simple_alternatives(q, found, binding, depth),
        }
    } else {
        parsed_simple_alternatives(p, found, binding, depth)
    }
}

/// The same where no grouped binding comes next.
pub open spec fn parsed_simple_alternatives(
    p: Parsing,
    found: Seq<Pattern>,
    binding: Option<Seq<char>>,
    depth: int,
) -> Parsed<Seq<Pattern>>
    decreases room(depth), 1int, 0int,
{
    match next_is(p, TokenKind::OpenParen) {
        Err(error) => Err(error),
        Ok((p, true)) => match take(p) {
            Err(error) => Err(error),
            Ok((p, _)) => match next_operator(p, "|"@) {
                Err(error) => Err(error),
                Ok((p, true)) => match take(p) {
                    Err(error) => Err(error),
                    Ok((p, _)) => parsed_group(p, found, binding, depth),
                },
                Ok((p, false)) => parsed_group(p, found, binding, depth),
            },
        },
        Ok((p, false)) => if found.len() >= MAX_MATCH_ALTERNATIVES {
            Err(error_at(p, ExpressionErrorKind::TooManyMatchAlternatives, lookahead(p)))
        } else {
            match parsed_pattern(p, depth + 1) {
                Err(error) => Err(error),
                Ok((p, pattern)) => match binding {
                    None => Ok((p, found.push(pattern))),
                    Some(name) => match pattern_body(pattern) {
                        Some(body) => Ok((p, found.push(Pattern::BindingAt { name, body }))),
                        None => Err(
                            error_at(p, ExpressionErrorKind::ExpectedMatchPattern, lookahead(p)),
                        ),
                    },
                },
            }
        },
    }
}

/// The alternatives inside parentheses, up to the closing one.
pub open spec fn parsed_group(
    p: Parsing,
    found: Seq<Pattern>,
    binding: Option<Seq<char>>,
    depth: int,
) -> Parsed<Seq<Pattern>>
    decreases room(depth), 0int, remaining(p),
{
    if level_refused(depth) {
        Err(nesting_error(p))
    } else {
        match next_is(p, TokenKind::CloseParen) {
            Err(error) => Err(error),
            Ok((q, true)) => Err(
                error_at(q, ExpressionErrorKind::ExpectedMatchPattern, lookahead(q)),
            ),
            Ok((q, false)) => match parsed_alternatives(q, found, binding, depth + 1) {
                Err(error) => Err(error),
                Ok((q, found)) => match next_operator(q, "|"@) {
                    Err(error) => Err(error),
                    Ok((q, true)) => match take(q) {
                        Err(error) => Err(error),
                        Ok((q, _)) => if advances(p, q) {
                            parsed_group(q, found, binding, depth)
                        } else {
                            Err(broken_tree(q))
                        },
                    },
                    Ok((q, false)) => match expect_kind(
                        q,
                        TokenKind::CloseParen,
                        ExpressionErrorKind::ExpectedCloseParen,
                    ) {
                        Err(error) => Err(error),
                        Ok((q, _)) => Ok((q, found)),
                    },
                },
            },
        }
    }
}

/// Making a node for an operator on the scrutinee and a bound.
pub open spec fn push_comparison(
    p: Parsing,
    operator: BinaryOperator,
    scrutinee: ExprId,
    bound: ExprId,
) -> Parsed<ExprId> {
    push_across(p, Form::Binary { operator, left: scrutinee, right: bound }, scrutinee, bound)
}

/// The operator that tests the upper bound of a range.
pub open spec fn upper_operator(inclusive: bool) -> BinaryOperator {
    if inclusive {
        BinaryOperator::LessEqual
    } else {
        BinaryOperator::Less
    }
}

/// Noting a range pattern for later validation.
pub open spec fn noted_range(p: Parsing, range: RangeValidation) -> Result<
    Parsing,
    ExpressionError,
> {
    if p.ranges.len() >= MAX_RANGE_VALIDATIONS {
        let first = match range.start {
            Some(start) => Some(start),
            None => range.end,
        };
        let last = match range.end {
            Some(end) => Some(end),
            None => range.start,
        };
        Err(
            ExpressionError {
                kind: ExpressionErrorKind::TooManyRangeValidations,
                span: Span {
                    start: match bound_span(p, first) {
                        Some(span) => span.start,
                        None => 0,
                    },
                    end: match bound_span(p, last) {
                        Some(span) => span.end,
                        None => p.length,
                    },
                },
            },
        )
    } else {
        Ok(Parsing { ranges: p.ranges.push(range), ..p })
    }
}

/// The condition under which a pattern matches the scrutinee.
#[verifier::opaque]
pub open spec fn body_condition(p: Parsing, scrutinee: ExprId, body: PatternBody) -> Parsed<
    ExprId,
> {
    match body {
        PatternBody::Wildcard => match span_of(p, scrutinee) {
            Err(error) => Err(error),
            Ok(span) => push_node(p, Form::Bool(true), span),
        },
        PatternBody::Value(value) => push_comparison(p, BinaryOperator::Equal, scrutinee, value),
        PatternBody::Range { start, end, inclusive } => match noted_range(
            p,
            RangeValidation { scrutinee, start, end, inclusive },
        ) {
            Err(error) => Err(error),
            Ok(p) => match (start, end) {
                (Some(start), Some(end)) => match push_comparison(
                    p,
                    BinaryOperator::GreaterEqual,
                    scrutinee,
                    start,
                ) {
                    Err(error) => Err(error),
                    Ok((p, lower)) => match push_comparison(
                        p,
                        upper_operator(inclusive),
                        scrutinee,
                        end,
                    ) {
                        Err(error) => Err(error),
                        Ok((p, upper)) => push_across(
                            p,
                            Form::Binary {
                                operator: BinaryOperator::LogicalAnd,
                                left: lower,
                                right: upper,
                            },
                            lower,
                            upper,
                        ),
                    },
                },
                (Some(start), None) => push_comparison(
                    p,
                    BinaryOperator::GreaterEqual,
                    scrutinee,
                    start,
                ),
                (None, Some(end)) => push_comparison(
                    p,
                    upper_operator(inclusive),
                    scrutinee,
                    end,
                ),
                (None, None) => match span_of(p, scrutinee) {
                    Err(error) => Err(error),
                    Ok(span) => Err(
                        ExpressionError {
                            kind: ExpressionErrorKind::ExpectedMatchPattern,
                            span,
                        },
                    ),
                },
            },
        },
    }
}

/// The body that decides whether a pattern matches.
pub open spec fn deciding_body(pattern: Pattern) -> PatternBody {
    match pattern {
        Pattern::BindingAt { body, .. } => body,
        Pattern::Binding(_) => PatternBody::Wildcard,
        Pattern::Wildcard => PatternBody::Wildcard,
        Pattern::Value(value) => PatternBody::Value(value),
        Pattern::Range { start, end, inclusive } => PatternBody::Range { start, end, inclusive },
    }
}

/// The condition under which one of the first `count` alternatives matches.
#[verifier::opaque]
pub open spec fn alternatives_condition(
    p: Parsing,
    scrutinee: ExprId,
    alternatives: Seq<Pattern>,
    count: int,
) -> Parsed<Option<ExprId>>
    decreases count,
{
    if count <= 0 {
        Ok((p, None))
    } else {
        match alternatives_condition(p, scrutinee, alternatives, count - 1) {
            Err(error) => Err(error),
            Ok((p, before)) => match body_condition(
                p,
                scrutinee,
                deciding_body(alternatives[count - 1]),
            ) {
                Err(error) => Err(error),
                Ok((p, last)) => match before {
                    None => Ok((p, Some(last))),
                    Some(previous) => match push_across(
                        p,
                        Form::Binary {
                            operator: BinaryOperator::LogicalOr,
                            left: previous,
                            right: last,
                        },
                        previous,
                        last,
                    ) {
                        Err(error) => Err(error),
                        Ok((p, both)) => Ok((p, Some(both))),
                    },
                },
            },
        }
    }
}

/// An arm of a `match`.
pub ghost struct Arm {
    pub alternatives: Seq<Pattern>,
    pub guard: Option<ExprId>,
    pub branch: ExprId,
}

/// The truth value that a pattern tests for by a literal.
pub open spec fn tested_truth(nodes: Seq<Option<Node>>, pattern: Pattern) -> Option<bool> {
    match deciding_body(pattern) {
        PatternBody::Value(value) => match node_at(nodes, value) {
            Some(Node { form: Form::Bool(value), .. }) => Some(value),
            _ => None,
        },
        _ => None,
    }
}

/// Whether a pattern matches every value.
pub open spec fn matches_all(pattern: Pattern) -> bool {
    deciding_body(pattern) == PatternBody::Wildcard
}

/// Whether the arms without a guard match every value: one matches all, or
/// both truth values are tested for.
#[verifier::opaque]
pub open spec fn arms_cover(nodes: Seq<Option<Node>>, arms: Seq<Arm>) -> bool {
    ||| exists|a: int, k: int|
        0 <= a < arms.len() && arms[a].guard is None && 0 <= k < arms[a].alternatives.len()
            && matches_all(#[trigger] arms[a].alternatives[k])
    ||| {
        &&& arms_test(nodes, arms, true)
        &&& arms_test(nodes, arms, false)
    }
}

/// Whether an arm without a guard tests for a truth value.
pub open spec fn arms_test(nodes: Seq<Option<Node>>, arms: Seq<Arm>, value: bool) -> bool {
    exists|a: int, k: int|
        0 <= a < arms.len() && arms[a].guard is None && 0 <= k < arms[a].alternatives.len()
            && tested_truth(nodes, #[trigger] arms[a].alternatives[k]) == Some(value)
}

/// The name that the alternatives of an arm bind: each of them the same, or
/// none of them any.
#[verifier::opaque]
pub open spec fn arm_binding(p: Parsing, alternatives: Seq<Pattern>) -> Result<
    Option<Seq<char>>,
    ExpressionError,
> {
    if forall|k: int| 0 <= k < alternatives.len() ==> bound_name(#[trigger] alternatives[k]) is None {
        Ok(None)
    } else if forall|k: int|
        0 <= k < alternatives.len() ==> bound_name(#[trigger] alternatives[k]) == bound_name(
            alternatives[0],
        ) {
        Ok(bound_name(alternatives[0]))
    } else {
        Err(error_at(p, ExpressionErrorKind::InconsistentMatchBindings, lookahead(p)))
    }
}

/// The decision of a `match`: the first `count` arms are tried in turn before
/// `otherwise`.
#[verifier::opaque]
pub open spec fn decision(
    p: Parsing,
    scrutinee: ExprId,
    arms: Seq<Arm>,
    count: int,
    otherwise: ExprId,
    span: Span,
    match_span: Span,
) -> Parsed<ExprId>
    decreases count,
{
    if count <= 0 {
        Ok((p, otherwise))
    } else {
        let arm = arms[count - 1];
        match alternatives_condition(
            p,
            scrutinee,
            arm.alternatives,
            arm.alternatives.len() as int,
        ) {
            Err(error) => Err(error),
            Ok((p, None)) => Err(
                ExpressionError {
                    kind: ExpressionErrorKind::InvalidExpressionTree,
                    span: match_span,
                },
            ),
            Ok((p, Some(condition))) => match guarded_condition(p, condition, arm.guard) {
                Err(error) => Err(error),
                Ok((p, condition)) => match push_node(
                    p,
                    Form::If { condition, then_branch: arm.branch, else_branch: otherwise },
                    span,
                ) {
                    Err(error) => Err(error),
                    Ok((p, next)) => decision(
                        p,
                        scrutinee,
                        arms,
                        count - 1,
                        next,
                        span,
                        match_span,
                    ),
                },
            },
        }
    }
}

/// A condition together with a guard.
pub open spec fn guarded_condition(p: Parsing, condition: ExprId, guard: Option<ExprId>) -> Parsed<
    ExprId,
> {
    match guard {
        None => Ok((p, condition)),
        Some(guard) => push_across(
            p,
            Form::Binary { operator: BinaryOperator::LogicalAnd, left: condition, right: guard },
            condition,
            guard,
        ),
    }
}

/// Statements put before the expression `tail`, the first `count` of them.
#[verifier::opaque]
pub open spec fn sequenced(p: Parsing, statements: Seq<ExprId>, count: int, tail: ExprId) -> Parsed<
    ExprId,
>
    decreases count,
{
    if count <= 0 {
        Ok((p, tail))
    } else {
        let first = statements[count - 1];
        match push_across(p, Form::Sequence { first, then: tail }, first, tail) {
            Err(error) => Err(error),
            Ok((p, next)) => sequenced(p, statements, count - 1, next),
        }
    }
}

/// Loop exits tried in turn before `otherwise`, the first `count` of them.
#[verifier::opaque]
pub open spec fn loop_exits(
    p: Parsing,
    conditions: Seq<ExprId>,
    branches: Seq<ExprId>,
    count: int,
    otherwise: ExprId,
    span: Span,
) -> Parsed<ExprId>
    decreases count,
{
    if count <= 0 {
        Ok((p, otherwise))
    } else {
        match push_node(
            p,
            Form::LoopBreakIf {
                condition: conditions[count - 1],
                then_branch: branches[count - 1],
                else_branch: otherwise,
            },
            span,
        ) {
            Err(error) => Err(error),
            Ok((p, next)) => loop_exits(p, conditions, branches, count - 1, next, span),
        }
    }
}

/// Which of two loops a `break` leaves.
#[derive(Clone, Copy, Debug, PartialEq, Eq, Structural)]
pub enum ValueLoopControlTarget {
    Current,
    Enclosing,
}

/// The loop that an optional label names.
#[verifier::opaque]
pub open spec fn parsed_break_target(
    p: Parsing,
    current: Option<Word>,
    enclosing: Option<Word>,
) -> Parsed<ValueLoopControlTarget> {
    match next_is(p, TokenKind::Lifetime) {
        Err(error) => Err(error),
        Ok((p, false)) => Ok((p, ValueLoopControlTarget::Current)),
        Ok((p, true)) => match take(p) {
            Err(error) => Err(error),
            Ok((p, actual)) => if current matches Some(word) && is_text(actual, word.text) {
                Ok((p, ValueLoopControlTarget::Current))
            } else if enclosing matches Some(word) && is_text(actual, word.text) {
                Ok((p, ValueLoopControlTarget::Enclosing))
            } else {
                Err(error_at(p, ExpressionErrorKind::UnknownLoopLabel, actual))
            },
        },
    }
}

/// A `break` that leaves one of two loops; another target is refused.
#[verifier::opaque]
pub open spec fn expect_break_target(
    p: Parsing,
    current: Option<Word>,
    enclosing: Option<Word>,
    target: ValueLoopControlTarget,
    word: Option<Word>,
) -> Result<Parsing, ExpressionError> {
    match parsed_break_target(p, current, enclosing) {
        Err(error) => Err(error),
        Ok((p, actual)) => if actual == target {
            Ok(p)
        } else {
            Err(error_at(p, ExpressionErrorKind::InvalidLoopBreakTarget, word))
        },
    }
}

/// The state behind a body in braces that is `depth` levels open.
#[verifier::opaque]
pub open spec fn skipped_body(p: Parsing, depth: int) -> Result<Parsing, ExpressionError>
    decreases remaining(p),
{
    if depth <= 0 {
        Ok(p)
    } else {
        match take(p) {
            Err(error) => Err(error),
            Ok((q, None)) => Err(error_at(q, ExpressionErrorKind::ExpectedCloseBrace, None)),
            Ok((q, Some(word))) => if !advances(p, q) {
                Err(broken_tree(q))
            } else if word.kind == TokenKind::OpenBrace {
                if depth == MAX_EXPRESSION_DEPTH {
                    Err(error_at(q, ExpressionErrorKind::NestingLimitExceeded, Some(word)))
                } else {
                    skipped_body(q, depth + 1)
                }
            } else if word.kind == TokenKind::CloseBrace {
                skipped_body(q, depth - 1)
            } else {
                skipped_body(q, depth)
            },
        }
    }
}

/// The start of a labelled or plain loop.
pub open spec fn loop_start(loop_word: Word, label: Option<Word>) -> usize {
    match label {
        Some(label) => label.span.start,
        None => loop_word.span.start,
    }
}

/// An expression whose operators bind at least as tightly as `minimum`.
#[verifier::opaque]
pub open spec fn parsed_expression(p: Parsing, minimum: int, depth: int) -> Parsed<ExprId>
    decreases room(depth), 20int, 0int,
{
    if level_refused(depth) {
        Err(nesting_error(p))
    } else {
        match parsed_cast(p, depth + 1) {
            Err(error) => Err(error),
            Ok((p, left)) => parsed_operators(p, left, minimum, depth),
        }
    }
}

/// The operators behind the operand `left`.
#[verifier::opaque]
pub open spec fn parsed_operators(p: Parsing, left: ExprId, minimum: int, depth: int) -> Parsed<
    ExprId,
>
    decreases room(depth), 10int, remaining(p),
{
    if level_refused(depth) {
        Err(nesting_error(p))
    } else {
        match peek(p) {
            Err(error) => Err(error),
            Ok(q) => match front(q) {
                None => Ok((q, left)),
                Some(word) => match operator_named(word.text) {
                    None => Ok((q, left)),
                    Some((operator, precedence)) => if precedence < minimum {
                        Ok((q, left))
                    } else {
                        match take(q) {
                            Err(error) => Err(error),
                            Ok((q, _)) => match parsed_expression(q, precedence + 1, depth + 1) {
                                Err(error) => Err(error),
                                Ok((q, right)) => match push_across(
                                    q,
                                    Form::Binary { operator, left, right },
                                    left,
                                    right,
                                ) {
                                    Err(error) => Err(error),
                                    Ok((q, both)) => if advances(p, q) {
                                        parsed_operators(q, both, minimum, depth)
                                    } else {
                                        Err(broken_tree(q))
                                    },
                                },
                            },
                        }
                    },
                },
            },
        }
    }
}

/// An operand with the casts behind it.
#[verifier::opaque]
pub open spec fn parsed_cast(p: Parsing, depth: int) -> Parsed<ExprId>
    decreases room(depth), 20int, 0int,
{
    if level_refused(depth) {
        Err(nesting_error(p))
    } else {
        match parsed_unary(p, depth + 1) {
            Err(error) => Err(error),
            Ok((p, operand)) => parsed_casts(p, operand),
        }
    }
}

/// The casts behind an operand.
pub open spec fn parsed_casts(p: Parsing, operand: ExprId) -> Parsed<ExprId>
    decreases remaining(p),
{
    match next_reads(p, "as"@) {
        Err(error) => Err(error),
        Ok((q, false)) => Ok((q, operand)),
        Ok((q, true)) => match take(q) {
            Err(error) => Err(error),
            Ok((q, _)) => match expect_kind(
                q,
                TokenKind::Identifier,
                ExpressionErrorKind::ExpectedCastType,
            ) {
                Err(error) => Err(error),
                Ok((q, word)) => match integer_type_named(word.text) {
                    None => Err(
                        error_at(q, ExpressionErrorKind::UnsupportedCastType, Some(word)),
                    ),
                    Some(target) => match span_of(q, operand) {
                        Err(error) => Err(error),
                        Ok(span) => match push_node(
                            q,
                            Form::Cast { operand, target },
                            Span { start: span.start, end: word.span.end },
                        ) {
                            Err(error) => Err(error),
                            Ok((q, cast)) => if advances(p, q) {
                                parsed_casts(q, cast)
                            } else {
                                Err(broken_tree(q))
                            },
                        },
                    },
                },
            },
        },
    }
}

/// The operator that a prefix names; `mut` behind an ampersand is read apart.
pub open spec fn prefix_operator(text: Seq<char>) -> Option<UnaryOperator> {
    if text == "-"@ {
        Some(UnaryOperator::Negate)
    } else if text == "!"@ {
        Some(UnaryOperator::Not)
    } else if text == "*"@ {
        Some(UnaryOperator::Dereference)
    } else if text == "&"@ {
        Some(UnaryOperator::AddressOf)
    } else {
        None
    }
}

/// An operand with the prefix operators before it.
#[verifier::opaque]
pub open spec fn parsed_unary(p: Parsing, depth: int) -> Parsed<ExprId>
    decreases room(depth), 20int, 0int,
{
    if level_refused(depth) {
        Err(nesting_error(p))
    } else {
        match peek(p) {
            Err(error) => Err(error),
            Ok(p) => match front(p) {
                None => parsed_postfix(p, depth + 1),
                Some(word) => match prefix_operator(word.text) {
                    None => parsed_postfix(p, depth + 1),
                    Some(operator) => match take(p) {
                        Err(error) => Err(error),
                        Ok((p, _)) => match parsed_mutability(p, operator) {
                            Err(error) => Err(error),
                            Ok((p, operator)) => match parsed_unary(p, depth + 1) {
                                Err(error) => Err(error),
                                Ok((p, operand)) => push_from(
                                    p,
                                    Form::Unary { operator, operand },
                                    word.span.start,
                                    operand,
                                ),
                            },
                        },
                    },
                },
            },
        }
    }
}

/// An optional `mut` behind an ampersand.
pub open spec fn parsed_mutability(p: Parsing, operator: UnaryOperator) -> Parsed<UnaryOperator> {
    if operator != UnaryOperator::AddressOf {
        Ok((p, operator))
    } else {
        match next_reads(p, "mut"@) {
            Err(error) => Err(error),
            Ok((p, false)) => Ok((p, UnaryOperator::AddressOf)),
            Ok((p, true)) => match take(p) {
                Err(error) => Err(error),
                Ok((p, _)) => Ok((p, UnaryOperator::AddressOfMut)),
            },
        }
    }
}

/// An operand with the indexes and method calls behind it.
#[verifier::opaque]
pub open spec fn parsed_postfix(p: Parsing, depth: int) -> Parsed<ExprId>
    decreases room(depth), 110int, 0int,
{
    match parsed_atom(p, depth) {
        Err(error) => Err(error),
        Ok((p, base)) => parsed_suffixes(p, base, depth),
    }
}

/// The indexes and method calls behind `base`.
#[verifier::opaque]
pub open spec fn parsed_suffixes(p: Parsing, base: ExprId, depth: int) -> Parsed<ExprId>
    decreases room(depth), 109int, remaining(p),
{
    match peek(p) {
        Err(error) => Err(error),
        Ok(q) => if is_kind(front(q), TokenKind::OpenBracket) {
            match take(q) {
                Err(error) => Err(error),
                Ok((q, _)) => match parsed_index(q, base, depth) {
                    Err(error) => Err(error),
                    Ok((q, indexed)) => if advances(p, q) {
                        parsed_suffixes(q, indexed, depth)
                    } else {
                        Err(broken_tree(q))
                    },
                },
            }
        } else if is_kind(front(q), TokenKind::Dot) {
            match take(q) {
                Err(error) => Err(error),
                Ok((r, _)) => match next_is(r, TokenKind::Identifier) {
                    Err(error) => Err(error),
                    Ok((_, false)) => Ok((q, base)),
                    Ok((r, true)) => match parsed_method(r, base, depth) {
                        Err(error) => Err(error),
                        Ok((r, called)) => if advances(p, r) {
                            parsed_suffixes(r, called, depth)
                        } else {
                            Err(broken_tree(r))
                        },
                    },
                },
            }
        } else {
            Ok((q, base))
        },
    }
}

/// What stands in brackets behind `base`, up to the closing one: an index or a
/// range.
#[verifier::opaque]
pub open spec fn parsed_index(p: Parsing, base: ExprId, depth: int) -> Parsed<ExprId>
    decreases room(depth), 108int, 0int,
{
    match next_is(p, TokenKind::Dot) {
        Err(error) => Err(error),
        Ok((p, true)) => parsed_index_range(p, base, None, depth),
        Ok((p, false)) => match parsed_expression(p, 0, depth + 1) {
            Err(error) => Err(error),
            Ok((p, index)) => match next_is(p, TokenKind::Dot) {
                Err(error) => Err(error),
                Ok((p, true)) => parsed_index_range(p, base, Some(index), depth),
                Ok((p, false)) => match expect_kind(
                    p,
                    TokenKind::CloseBracket,
                    ExpressionErrorKind::ExpectedCloseBracket,
                ) {
                    Err(error) => Err(error),
                    Ok((p, close)) => push_to(p, Form::Index { base, index }, base, close),
                },
            },
        },
    }
}

/// Making a node that covers the text from a node to a token.
pub open spec fn push_to(p: Parsing, form: Form, first: ExprId, last: Word) -> Parsed<ExprId> {
    match span_of(p, first) {
        Err(error) => Err(error),
        Ok(span) => push_node(p, form, Span { start: span.start, end: last.span.end }),
    }
}

/// A range in brackets from its dots on.
#[verifier::opaque]
pub open spec fn parsed_index_range(
    p: Parsing,
    base: ExprId,
    start: Option<ExprId>,
    depth: int,
) -> Parsed<ExprId>
    decreases room(depth), 107int, 0int,
{
    match take(p) {
        Err(error) => Err(error),
        Ok((p, _)) => match expect_kind(p, TokenKind::Dot, ExpressionErrorKind::ExpectedExpression) {
            Err(error) => Err(error),
            Ok((p, _)) => match next_operator(p, "="@) {
                Err(error) => Err(error),
                Ok((p, true)) => match take(p) {
                    Err(error) => Err(error),
                    Ok((p, _)) => match parsed_expression(p, 0, depth + 1) {
                        Err(error) => Err(error),
                        Ok((p, end)) => closed_index_range(p, base, start, Some(end), true),
                    },
                },
                Ok((p, false)) => if is_kind(front(p), TokenKind::CloseBracket) {
                    closed_index_range(p, base, start, None, false)
                } else {
                    match parsed_expression(p, 0, depth + 1) {
                        Err(error) => Err(error),
                        Ok((p, end)) => closed_index_range(p, base, start, Some(end), false),
                    }
                },
            },
        },
    }
}

/// The closing bracket of a range and its node.
pub open spec fn closed_index_range(
    p: Parsing,
    base: ExprId,
    start: Option<ExprId>,
    end: Option<ExprId>,
    inclusive: bool,
) -> Parsed<ExprId> {
    match expect_kind(
        p,
        TokenKind::CloseBracket,
        ExpressionErrorKind::ExpectedCloseBracket,
    ) {
        Err(error) => Err(error),
        Ok((p, close)) => push_to(
            p,
            Form::RangeIndex { base, start, end, inclusive },
            base,
            close,
        ),
    }
}

/// The node for a method without an argument.
pub open spec fn method_form(name: Seq<char>, base: ExprId) -> Option<Form> {
    if name == "len"@ {
        Some(Form::SliceLen { base })
    } else if name == "is_empty"@ {
        Some(Form::SliceIsEmpty { base })
    } else if name == "as_bytes"@ {
        Some(Form::StrAsBytes { base })
    } else if name == "as_ptr"@ {
        Some(Form::ReferenceAsPointer { base, mutable: false })
    } else if name == "as_mut_ptr"@ {
        Some(Form::ReferenceAsPointer { base, mutable: true })
    } else {
        None
    }
}

/// A method call on `base` from the method's name on.
#[verifier::opaque]
pub open spec fn parsed_method(p: Parsing, base: ExprId, depth: int) -> Parsed<ExprId>
    decreases room(depth), 108int, 0int,
{
    match expect_kind(p, TokenKind::Identifier, ExpressionErrorKind::ExpectedIdentifier) {
        Err(error) => Err(error),
        Ok((p, name)) => if name.text == "is_char_boundary"@ {
            match expect_kind(p, TokenKind::OpenParen, ExpressionErrorKind::ExpectedExpression) {
                Err(error) => Err(error),
                Ok((p, _)) => match parsed_expression(p, 0, depth + 1) {
                    Err(error) => Err(error),
                    Ok((p, index)) => match expect_kind(
                        p,
                        TokenKind::CloseParen,
                        ExpressionErrorKind::ExpectedCloseParen,
                    ) {
                        Err(error) => Err(error),
                        Ok((p, close)) => push_to(
                            p,
                            Form::StrIsCharBoundary { base, index },
                            base,
                            close,
                        ),
                    },
                },
            }
        } else {
            match method_form(name.text, base) {
                None => Err(error_at(p, ExpressionErrorKind::UnsupportedMethod, Some(name))),
                Some(form) => match expect_kind(
                    p,
                    TokenKind::OpenParen,
                    ExpressionErrorKind::ExpectedExpression,
                ) {
                    Err(error) => Err(error),
                    Ok((p, _)) => match expect_kind(
                        p,
                        TokenKind::CloseParen,
                        ExpressionErrorKind::ExpectedCloseParen,
                    ) {
                        Err(error) => Err(error),
                        Ok((p, close)) => push_to(p, form, base, close),
                    },
                },
            }
        },
    }
}

/// An operand without operators.
#[verifier::opaque]
pub open spec fn parsed_atom(p: Parsing, depth: int) -> Parsed<ExprId>
    decreases room(depth), 104int, 0int,
{
    if level_refused(depth) {
        Err(nesting_error(p))
    } else {
        match take(p) {
            Err(error) => Err(error),
            Ok((p, None)) => Err(error_at(p, ExpressionErrorKind::ExpectedExpression, None)),
            Ok((p, Some(word))) => parsed_atom_from(p, word, depth),
        }
    }
}

/// An operand, behind its first token.
#[verifier::opaque]
pub open spec fn parsed_atom_from(p: Parsing, word: Word, depth: int) -> Parsed<ExprId>
    decreases room(depth), 103int, 0int,
{
    if word.text == "break"@ {
        parsed_break(p, word, depth)
    } else if word.kind == TokenKind::Integer {
        push_integer(p, word)
    } else if word.kind == TokenKind::Character {
        push_character(p, word)
    } else if word.text == "if"@ {
        parsed_if(p, word, depth + 1)
    } else if word.text == "match"@ {
        parsed_match(p, word, depth + 1)
    } else if word.text == "loop"@ {
        parsed_loop(p, word, None, depth + 1)
    } else if word.kind == TokenKind::Lifetime {
        parsed_labelled(p, word, depth)
    } else if word.text == "const"@ {
        parsed_const(p, word, depth + 1)
    } else {
        parsed_plain_atom(p, word, depth)
    }
}

/// A loop with a label, behind the label.
#[verifier::opaque]
pub open spec fn parsed_labelled(p: Parsing, label: Word, depth: int) -> Parsed<ExprId>
    decreases room(depth), 102int, 0int,
{
    match expect_kind(p, TokenKind::Colon, ExpressionErrorKind::ExpectedColon) {
        Err(error) => Err(error),
        Ok((p, _)) => match expect_text(p, "loop"@, ExpressionErrorKind::ExpectedExpression) {
            Err(error) => Err(error),
            Ok((p, word)) => parsed_loop(p, word, Some(label), depth + 1),
        },
    }
}

/// A name, parentheses, an array or a block, behind its first token.
#[verifier::opaque]
pub open spec fn parsed_plain_atom(p: Parsing, word: Word, depth: int) -> Parsed<ExprId>
    decreases room(depth), 101int, 0int,
{
    if word.kind == TokenKind::Identifier {
        parsed_name(p, word, depth)
    } else if word.kind == TokenKind::OpenParen {
        parsed_parentheses(p, word, depth)
    } else if word.kind == TokenKind::OpenBracket {
        parsed_array(p, word, depth)
    } else if word.kind == TokenKind::OpenBrace {
        match parsed_block(p, depth + 2) {
            Err(error) => Err(error),
            Ok((p, (inner, _))) => Ok((p, inner)),
        }
    } else {
        Err(error_at(p, ExpressionErrorKind::ExpectedExpression, Some(word)))
    }
}

/// A `break` used as a value, behind its keyword.
#[verifier::opaque]
pub open spec fn parsed_break(p: Parsing, word: Word, depth: int) -> Parsed<ExprId>
    decreases room(depth), 90int, 0int,
{
    match next_is(p, TokenKind::CloseBrace) {
        Err(error) => Err(error),
        Ok((p, true)) => push_node(p, Form::Identifier(word.text), word.span),
        Ok((p, false)) => match parsed_nested_break_operand(p, depth + 1) {
            Err(error) => Err(error),
            Ok((p, operand)) => push_from(
                p,
                Form::LoopBreak { operand },
                word.span.start,
                operand,
            ),
        },
    }
}

/// The unit value at the start of a token.
pub open spec fn push_unit_at(p: Parsing, word: Word) -> Parsed<ExprId> {
    push_node(p, Form::Unit, Span { start: word.span.start, end: word.span.start })
}

/// The operand of a `break` used as a value: nothing before a semicolon.
#[verifier::opaque]
pub open spec fn parsed_nested_break_operand(p: Parsing, depth: int) -> Parsed<ExprId>
    decreases room(depth), 30int, 0int,
{
    match next_is(p, TokenKind::Semicolon) {
        Err(error) => Err(error),
        Ok((p, true)) => push_unit_at(p, front(p)->0),
        Ok((p, false)) => parsed_expression(p, 0, depth + 1),
    }
}

/// A name, a truth value, a default value or a call, behind the first word.
#[verifier::opaque]
pub open spec fn parsed_name(p: Parsing, word: Word, depth: int) -> Parsed<ExprId>
    decreases room(depth), 90int, 0int,
{
    if word.text == "Default"@ {
        match next_is(p, TokenKind::PathSeparator) {
            Err(error) => Err(error),
            Ok((p, true)) => parsed_default(p, word),
            Ok((p, false)) => parsed_plain_name(p, word, depth),
        }
    } else {
        parsed_plain_name(p, word, depth)
    }
}

/// `Default::default()` from the path separator on.
pub open spec fn parsed_default(p: Parsing, word: Word) -> Parsed<ExprId> {
    match take(p) {
        Err(error) => Err(error),
        Ok((p, _)) => match expect_text(p, "default"@, ExpressionErrorKind::ExpectedExpression) {
            Err(error) => Err(error),
            Ok((p, _)) => match expect_kind(
                p,
                TokenKind::OpenParen,
                ExpressionErrorKind::ExpectedExpression,
            ) {
                Err(error) => Err(error),
                Ok((p, _)) => match expect_kind(
                    p,
                    TokenKind::CloseParen,
                    ExpressionErrorKind::ExpectedCloseParen,
                ) {
                    Err(error) => Err(error),
                    Ok((p, close)) => push_node(
                        p,
                        Form::DefaultValue,
                        Span { start: word.span.start, end: close.span.end },
                    ),
                },
            },
        },
    }
}

/// A name, a truth value or a call, behind the first word.
#[verifier::opaque]
pub open spec fn parsed_plain_name(p: Parsing, word: Word, depth: int) -> Parsed<ExprId>
    decreases room(depth), 88int, 0int,
{
    if word.text == "true"@ || word.text == "false"@ {
        push_node(p, Form::Bool(word.text == "true"@), word.span)
    } else {
        match next_is(p, TokenKind::OpenParen) {
            Err(error) => Err(error),
            Ok((p, false)) => push_node(p, Form::Identifier(word.text), word.span),
            Ok((p, true)) => match take(p) {
                Err(error) => Err(error),
                Ok((p, _)) => match next_is(p, TokenKind::CloseParen) {
                    Err(error) => Err(error),
                    Ok((p, true)) => closed_call(p, word, seq![]),
                    Ok((p, false)) => match parsed_arguments(p, seq![], depth) {
                        Err(error) => Err(error),
                        Ok((p, arguments)) => closed_call(p, word, arguments),
                    },
                },
            },
        }
    }
}

/// The closing parenthesis of a call and its node.
pub open spec fn closed_call(p: Parsing, word: Word, arguments: Seq<ExprId>) -> Parsed<ExprId> {
    match expect_kind(p, TokenKind::CloseParen, ExpressionErrorKind::ExpectedCloseParen) {
        Err(error) => Err(error),
        Ok((p, close)) => push_node(
            p,
            Form::Call {
                callee: word.text,
                arguments: padded(arguments, MAX_CALL_ARGUMENTS as nat),
                argument_count: arguments.len() as usize,
            },
            Span { start: word.span.start, end: close.span.end },
        ),
    }
}

/// The arguments of a call behind those in `found`.
#[verifier::opaque]
pub open spec fn parsed_arguments(p: Parsing, found: Seq<ExprId>, depth: int) -> Parsed<Seq<ExprId>>
    decreases room(depth), 80int, remaining(p),
{
    if found.len() >= MAX_CALL_ARGUMENTS {
        match peek(p) {
            Err(error) => Err(error),
            Ok(q) => Err(error_at(q, ExpressionErrorKind::TooManyCallArguments, front(q))),
        }
    } else {
        match parsed_expression(p, 0, depth + 1) {
            Err(error) => Err(error),
            Ok((q, argument)) => match next_is(q, TokenKind::Comma) {
                Err(error) => Err(error),
                Ok((q, false)) => Ok((q, found.push(argument))),
                Ok((q, true)) => match take(q) {
                    Err(error) => Err(error),
                    Ok((q, _)) => if advances(p, q) {
                        parsed_arguments(q, found.push(argument), depth)
                    } else {
                        Err(broken_tree(q))
                    },
                },
            },
        }
    }
}

/// The unit value or an expression in parentheses, behind the opening one.
#[verifier::opaque]
pub open spec fn parsed_parentheses(p: Parsing, open: Word, depth: int) -> Parsed<ExprId>
    decreases room(depth), 90int, 0int,
{
    match next_is(p, TokenKind::CloseParen) {
        Err(error) => Err(error),
        Ok((p, true)) => match expect_kind(
            p,
            TokenKind::CloseParen,
            ExpressionErrorKind::ExpectedCloseParen,
        ) {
            Err(error) => Err(error),
            Ok((p, close)) => push_node(
                p,
                Form::Unit,
                Span { start: open.span.start, end: close.span.end },
            ),
        },
        Ok((p, false)) => match parsed_expression(p, 0, depth + 1) {
            Err(error) => Err(error),
            Ok((p, inner)) => match expect_kind(
                p,
                TokenKind::CloseParen,
                ExpressionErrorKind::ExpectedCloseParen,
            ) {
                Err(error) => Err(error),
                Ok((p, _)) => Ok((p, inner)),
            },
        },
    }
}

/// An array behind its opening bracket.
#[verifier::opaque]
pub open spec fn parsed_array(p: Parsing, open: Word, depth: int) -> Parsed<ExprId>
    decreases room(depth), 90int, 0int,
{
    match next_is(p, TokenKind::CloseBracket) {
        Err(error) => Err(error),
        Ok((p, true)) => closed_array(p, open, seq![]),
        Ok((p, false)) => match parsed_expression(p, 0, depth + 1) {
            Err(error) => Err(error),
            Ok((p, first)) => match next_is(p, TokenKind::Semicolon) {
                Err(error) => Err(error),
                Ok((p, true)) => parsed_repeat(p, open, first),
                Ok((p, false)) => match parsed_elements(p, seq![first], depth) {
                    Err(error) => Err(error),
                    Ok((p, elements)) => closed_array(p, open, elements),
                },
            },
        },
    }
}

/// The closing bracket of an array and its node.
pub open spec fn closed_array(p: Parsing, open: Word, elements: Seq<ExprId>) -> Parsed<ExprId> {
    match expect_kind(
        p,
        TokenKind::CloseBracket,
        ExpressionErrorKind::ExpectedCloseBracket,
    ) {
        Err(error) => Err(error),
        Ok((p, close)) => push_node(
            p,
            Form::Array {
                elements: padded(elements, MAX_ARRAY_ELEMENTS as nat),
                element_count: elements.len() as usize,
            },
            Span { start: open.span.start, end: close.span.end },
        ),
    }
}

/// A repeated element from its semicolon on.
pub open spec fn parsed_repeat(p: Parsing, open: Word, element: ExprId) -> Parsed<ExprId> {
    match take(p) {
        Err(error) => Err(error),
        Ok((p, _)) => match expect_kind(
            p,
            TokenKind::Integer,
            ExpressionErrorKind::InvalidArrayLength,
        ) {
            Err(error) => Err(error),
            Ok((p, word)) => match integer_literal(word.text) {
                Err(kind) => Err(ExpressionError { kind, span: word.span }),
                Ok((value, _)) => if value > MAX_ARRAY_ELEMENTS {
                    Err(error_at(p, ExpressionErrorKind::TooManyArrayElements, Some(word)))
                } else {
                    match expect_kind(
                        p,
                        TokenKind::CloseBracket,
                        ExpressionErrorKind::ExpectedCloseBracket,
                    ) {
                        Err(error) => Err(error),
                        Ok((p, close)) => push_node(
                            p,
                            Form::ArrayRepeat { element, count: value as usize },
                            Span { start: open.span.start, end: close.span.end },
                        ),
                    }
                },
            },
        },
    }
}

/// The elements of an array behind those in `found`, up to the closing
/// bracket.
#[verifier::opaque]
pub open spec fn parsed_elements(p: Parsing, found: Seq<ExprId>, depth: int) -> Parsed<Seq<ExprId>>
    decreases room(depth), 80int, remaining(p),
{
    match next_is(p, TokenKind::Comma) {
        Err(error) => Err(error),
        Ok((q, false)) => Ok((q, found)),
        Ok((q, true)) => match take(q) {
            Err(error) => Err(error),
            Ok((q, _)) => match next_is(q, TokenKind::CloseBracket) {
                Err(error) => Err(error),
                Ok((q, true)) => Ok((q, found)),
                Ok((q, false)) => if found.len() >= MAX_ARRAY_ELEMENTS {
                    Err(error_at(q, ExpressionErrorKind::TooManyArrayElements, front(q)))
                } else {
                    match parsed_expression(q, 0, depth + 1) {
                        Err(error) => Err(error),
                        Ok((q, element)) => if advances(p, q) {
                            parsed_elements(q, found.push(element), depth)
                        } else {
                            Err(broken_tree(q))
                        },
                    }
                },
            },
        },
    }
}

/// A block that must be constant, behind the keyword.
#[verifier::opaque]
pub open spec fn parsed_const(p: Parsing, word: Word, depth: int) -> Parsed<ExprId>
    decreases room(depth), 60int, 0int,
{
    match expect_kind(p, TokenKind::OpenBrace, ExpressionErrorKind::ExpectedOpenBrace) {
        Err(error) => Err(error),
        Ok((p, _)) => match parsed_block(p, depth) {
            Err(error) => Err(error),
            Ok((p, (operand, _))) => push_from(
                p,
                Form::InlineConst { operand },
                word.span.start,
                operand,
            ),
        },
    }
}

/// A block behind its opening brace: its value and where it ends.
#[verifier::opaque]
pub open spec fn parsed_block(p: Parsing, depth: int) -> Parsed<(ExprId, usize)>
    decreases room(depth), 50int, 0int,
{
    match parsed_statements(p, seq![], 0, seq![], depth) {
        Err(error) => Err(error),
        Ok((p, (statements, tail))) => match expect_kind(
            p,
            TokenKind::CloseBrace,
            ExpressionErrorKind::ExpectedCloseBrace,
        ) {
            Err(error) => Err(error),
            Ok((p, close)) => match sequenced(p, statements, statements.len() as int, tail) {
                Err(error) => Err(error),
                Ok((p, value)) => Ok((p, (value, close.span.end))),
            },
        },
    }
}

/// The statements of a block behind those in `statements`, and its tail.
#[verifier::opaque]
pub open spec fn parsed_statements(
    p: Parsing,
    bindings: Seq<Binding>,
    assignments: int,
    statements: Seq<ExprId>,
    depth: int,
) -> Parsed<(Seq<ExprId>, ExprId)>
    decreases room(depth), 40int, remaining(p),
{
    match peek(p) {
        Err(error) => Err(error),
        Ok(q) => if is_kind(front(q), TokenKind::CloseBrace) {
            match push_unit_at(q, front(q)->0) {
                Err(error) => Err(error),
                Ok((q, unit)) => Ok((q, (statements, unit))),
            }
        } else if is_text(front(q), "let"@) {
            match parsed_binding(q, bindings, depth + 1) {
                Err(error) => Err(error),
                Ok((q, bindings)) => if advances(p, q) {
                    parsed_statements(q, bindings, assignments, statements, depth)
                } else {
                    Err(broken_tree(q))
                },
            }
        } else {
            match parsed_assignment(q, bindings, assignments, depth + 1) {
                Err(error) => Err(error),
                Ok((q, Some(bindings))) => if advances(p, q) {
                    parsed_statements(q, bindings, assignments + 1, statements, depth)
                } else {
                    Err(broken_tree(q))
                },
                Ok((q, None)) => match parsed_bound_expression(q, bindings, depth + 1) {
                    Err(error) => Err(error),
                    Ok((q, expression)) => match next_is(q, TokenKind::Semicolon) {
                        Err(error) => Err(error),
                        Ok((q, false)) => Ok((q, (statements, expression))),
                        Ok((q, true)) => match take(q) {
                            Err(error) => Err(error),
                            Ok((q, semicolon)) => if statements.len()
                                >= MAX_INLINE_CONST_EXPRESSION_STATEMENTS {
                                Err(
                                    error_at(
                                        q,
                                        ExpressionErrorKind::TooManyInlineConstExpressionStatements,
                                        semicolon,
                                    ),
                                )
                            } else if advances(p, q) {
                                parsed_statements(
                                    q,
                                    bindings,
                                    assignments,
                                    statements.push(expression),
                                    depth,
                                )
                            } else {
                                Err(broken_tree(q))
                            },
                        },
                    },
                },
            }
        },
    }
}

/// An expression in which the bound names are replaced.
#[verifier::opaque]
pub open spec fn parsed_bound_expression(p: Parsing, bindings: Seq<Binding>, depth: int) -> Parsed<
    ExprId,
>
    decreases room(depth), 25int, 0int,
{
    match parsed_expression(p, 0, depth) {
        Err(error) => Err(error),
        Ok((p, expression)) => match with_bindings(
            p,
            expression,
            bindings,
            bindings.len() as int,
            depth,
        ) {
            Err(error) => Err(error),
            Ok(p) => Ok((p, expression)),
        },
    }
}

/// An expression, a semicolon, and the bound names replaced.
#[verifier::opaque]
pub open spec fn parsed_bound_statement(p: Parsing, bindings: Seq<Binding>, depth: int) -> Parsed<
    ExprId,
>
    decreases room(depth), 25int, 0int,
{
    match parsed_expression(p, 0, depth) {
        Err(error) => Err(error),
        Ok((p, expression)) => match expect_kind(
            p,
            TokenKind::Semicolon,
            ExpressionErrorKind::ExpectedSemicolon,
        ) {
            Err(error) => Err(error),
            Ok((p, _)) => match with_bindings(
                p,
                expression,
                bindings,
                bindings.len() as int,
                depth,
            ) {
                Err(error) => Err(error),
                Ok(p) => Ok((p, expression)),
            },
        },
    }
}

/// An optional `mut`.
pub open spec fn parsed_mut(p: Parsing) -> Parsed<bool> {
    match next_reads(p, "mut"@) {
        Err(error) => Err(error),
        Ok((p, false)) => Ok((p, false)),
        Ok((p, true)) => match take(p) {
            Err(error) => Err(error),
            Ok((p, _)) => Ok((p, true)),
        },
    }
}

/// A `let` statement: the bindings with one more.
#[verifier::opaque]
pub open spec fn parsed_binding(p: Parsing, bindings: Seq<Binding>, depth: int) -> Parsed<
    Seq<Binding>,
>
    decreases room(depth), 30int, 0int,
{
    match take(p) {
        Err(error) => Err(error),
        Ok((p, let_word)) => if bindings.len() >= MAX_INLINE_CONST_BINDINGS {
            Err(error_at(p, ExpressionErrorKind::TooManyInlineConstBindings, let_word))
        } else {
            match parsed_mut(p) {
                Err(error) => Err(error),
                Ok((p, mutable)) => match expect_kind(
                    p,
                    TokenKind::Identifier,
                    ExpressionErrorKind::ExpectedIdentifier,
                ) {
                    Err(error) => Err(error),
                    Ok((p, name)) => match parsed_annotation(p) {
                        Err(error) => Err(error),
                        Ok((p, annotation)) => match expect_operator(
                            p,
                            "="@,
                            ExpressionErrorKind::ExpectedEquals,
                        ) {
                            Err(error) => Err(error),
                            Ok((p, _)) => match parsed_bound_statement(p, bindings, depth + 1) {
                                Err(error) => Err(error),
                                Ok((p, value)) => match form_of(p, value, name.span) {
                                    Err(error) => Err(error),
                                    Ok(form) => match annotated(p, form, annotation, name, value) {
                                        Err(error) => Err(error),
                                        Ok((p, form)) => Ok(
                                            (
                                                p,
                                                bindings.push(
                                                    Binding {
                                                        name: name.text,
                                                        form,
                                                        mutable,
                                                        annotation,
                                                    },
                                                ),
                                            ),
                                        ),
                                    },
                                },
                            },
                        },
                    },
                },
            }
        },
    }
}

/// What a name stands for after an assignment of `value` to it.
#[verifier::opaque]
pub open spec fn assigned_form(
    p: Parsing,
    binding: Binding,
    operator: Word,
    name: Word,
    value: ExprId,
) -> Parsed<Form> {
    match form_of(p, value, name.span) {
        Err(error) => Err(error),
        Ok(form) => match assignment_operator(operator.text) {
            None => annotated(p, form, binding.annotation, name, value),
            Some(binary) => match push_node(p, binding.form, name.span) {
                Err(error) => Err(error),
                Ok((p, previous)) => {
                    let updated = Form::Binary { operator: binary, left: previous, right: value };
                    match push_from(p, updated, name.span.start, value) {
                        Err(error) => Err(error),
                        Ok((p, _)) => annotated(p, updated, binding.annotation, name, value),
                    }
                },
            },
        },
    }
}

/// An assignment to a bound name: the bindings after it. Where no assignment
/// comes next the state is unchanged.
#[verifier::opaque]
pub open spec fn parsed_assignment(
    p: Parsing,
    bindings: Seq<Binding>,
    assignments: int,
    depth: int,
) -> Parsed<Option<Seq<Binding>>>
    decreases room(depth), 30int, 0int,
{
    match take(p) {
        Err(error) => Err(error),
        Ok((q, first)) => if !is_kind(first, TokenKind::Identifier) {
            Ok((p, None))
        } else {
            let name = first->0;
            match binding_place(bindings, name.text, bindings.len() as int) {
                None => Ok((p, None)),
                Some(place) => match take(q) {
                    Err(error) => Err(error),
                    Ok((q, second)) => if !is_kind(second, TokenKind::Operator) || !(is_text(
                        second,
                        "="@,
                    ) || assignment_operator(second->0.text) is Some) {
                        Ok((p, None))
                    } else if assignments >= MAX_INLINE_CONST_ASSIGNMENTS {
                        Err(
                            ExpressionError {
                                kind: ExpressionErrorKind::TooManyInlineConstAssignments,
                                span: second->0.span,
                            },
                        )
                    } else if !bindings[place].mutable {
                        Err(
                            ExpressionError {
                                kind: ExpressionErrorKind::ImmutableInlineConstAssignment,
                                span: name.span,
                            },
                        )
                    } else {
                        match parsed_bound_statement(q, bindings, depth + 1) {
                            Err(error) => Err(error),
                            Ok((q, value)) => match assigned_form(
                                q,
                                bindings[place],
                                second->0,
                                name,
                                value,
                            ) {
                                Err(error) => Err(error),
                                Ok((q, form)) => Ok(
                                    (
                                        q,
                                        Some(
                                            bindings.update(
                                                place,
                                                Binding { form, ..bindings[place] },
                                            ),
                                        ),
                                    ),
                                ),
                            },
                        }
                    },
                },
            }
        },
    }
}

/// An `if`, behind the keyword.
#[verifier::opaque]
pub open spec fn parsed_if(p: Parsing, word: Word, depth: int) -> Parsed<ExprId>
    decreases room(depth), 20int, 0int,
{
    if level_refused(depth) {
        Err(error_at(p, ExpressionErrorKind::NestingLimitExceeded, Some(word)))
    } else {
        match parsed_expression(p, 0, depth + 1) {
            Err(error) => Err(error),
            Ok((p, condition)) => match expect_kind(
                p,
                TokenKind::OpenBrace,
                ExpressionErrorKind::ExpectedOpenBrace,
            ) {
                Err(error) => Err(error),
                Ok((p, _)) => match parsed_block(p, depth + 1) {
                    Err(error) => Err(error),
                    Ok((p, (then_branch, then_end))) => match parsed_else(
                        p,
                        then_branch,
                        then_end,
                        depth,
                    ) {
                        Err(error) => Err(error),
                        Ok((p, (else_branch, end))) => push_node(
                            p,
                            Form::If { condition, then_branch, else_branch },
                            Span { start: word.span.start, end },
                        ),
                    },
                },
            },
        }
    }
}

/// The other branch of an `if`, and where it ends. It may be left out where
/// the first one is the unit value.
#[verifier::opaque]
pub open spec fn parsed_else(
    p: Parsing,
    then_branch: ExprId,
    then_end: usize,
    depth: int,
) -> Parsed<(ExprId, usize)>
    decreases room(depth), 10int, 0int,
{
    if level_refused(depth) {
        Err(nesting_error(p))
    } else {
        match next_reads(p, "else"@) {
            Err(error) => Err(error),
            Ok((p, false)) => if !unit_form(p.nodes, then_branch, depth + 1) {
                Err(error_at(p, ExpressionErrorKind::ExpectedElse, front(p)))
            } else {
                match push_node(p, Form::Unit, Span { start: then_end, end: then_end }) {
                    Err(error) => Err(error),
                    Ok((p, unit)) => Ok((p, (unit, then_end))),
                }
            },
            Ok((p, true)) => match take(p) {
                Err(error) => Err(error),
                Ok((p, _)) => match next_reads(p, "if"@) {
                    Err(error) => Err(error),
                    Ok((p, true)) => match take(p) {
                        Err(error) => Err(error),
                        Ok((p, nested)) => match parsed_if(p, nested->0, depth + 1) {
                            Err(error) => Err(error),
                            Ok((p, branch)) => match span_of(p, branch) {
                                Err(error) => Err(error),
                                Ok(span) => Ok((p, (branch, span.end))),
                            },
                        },
                    },
                    Ok((p, false)) => match expect_kind(
                        p,
                        TokenKind::OpenBrace,
                        ExpressionErrorKind::ExpectedOpenBrace,
                    ) {
                        Err(error) => Err(error),
                        Ok((p, _)) => parsed_block(p, depth + 1),
                    },
                },
            },
        }
    }
}

/// The arms of a `match` and the branch for every other value, up to and with
/// the closing brace.
pub ghost struct Arms {
    pub arms: Seq<Arm>,
    pub otherwise: ExprId,
    pub close: Word,
}

/// A `match`, behind the keyword.
#[verifier::opaque]
pub open spec fn parsed_match(p: Parsing, word: Word, depth: int) -> Parsed<ExprId>
    decreases room(depth), 100int, 0int,
{
    if level_refused(depth) {
        Err(error_at(p, ExpressionErrorKind::NestingLimitExceeded, Some(word)))
    } else {
        match parsed_expression(p, 0, depth + 1) {
            Err(error) => Err(error),
            Ok((p, scrutinee)) => match expect_kind(
                p,
                TokenKind::OpenBrace,
                ExpressionErrorKind::ExpectedOpenBrace,
            ) {
                Err(error) => Err(error),
                Ok((p, _)) => match parsed_arms(p, seq![], scrutinee, word, depth) {
                    Err(error) => Err(error),
                    Ok((p, arms)) => decision(
                        p,
                        scrutinee,
                        arms.arms,
                        arms.arms.len() as int,
                        arms.otherwise,
                        Span { start: word.span.start, end: arms.close.span.end },
                        word.span,
                    ),
                },
            },
        }
    }
}

/// The alternatives of the next arm; none where a bare wildcard without a
/// guard, which ends the arms, has been read.
#[verifier::opaque]
pub open spec fn parsed_arm_start(p: Parsing, arm_count: int, depth: int) -> Parsed<
    Option<Seq<Pattern>>,
> {
    match peek(p) {
        Err(error) => Err(error),
        Ok(q) => if is_kind(front(q), TokenKind::Identifier) && is_text(front(q), "_"@) {
            match take(q) {
                Err(error) => Err(error),
                Ok((q, _)) => match next_reads(q, "if"@) {
                    Err(error) => Err(error),
                    Ok((q, false)) => Ok((q, None)),
                    Ok((q, true)) => if arm_count >= MAX_MATCH_PATTERNS {
                        Err(error_at(q, ExpressionErrorKind::TooManyMatchPatterns, lookahead(q)))
                    } else {
                        Ok((q, Some(seq![Pattern::Wildcard])))
                    },
                },
            }
        } else if arm_count >= MAX_MATCH_PATTERNS {
            Err(error_at(q, ExpressionErrorKind::TooManyMatchPatterns, lookahead(q)))
        } else {
            match parsed_alternatives_list(q, seq![], depth) {
                Err(error) => Err(error),
                Ok((q, alternatives)) => Ok((q, Some(alternatives))),
            }
        },
    }
}

/// What follows an arm: the closing brace, which ends the arms, or, behind a
/// comma or a block, another arm.
#[verifier::opaque]
pub open spec fn parsed_arm_end(p: Parsing, arms: Seq<Arm>, block: bool) -> Parsed<Option<Arms>> {
    match next_is(p, TokenKind::Comma) {
        Err(error) => Err(error),
        Ok((p, comma)) => match (if comma {
            take(p)
        } else {
            Ok((p, None))
        }) {
            Err(error) => Err(error),
            Ok((p, _)) => match next_is(p, TokenKind::CloseBrace) {
                Err(error) => Err(error),
                Ok((p, true)) => if !arms_cover(p.nodes, arms) {
                    Err(error_at(p, ExpressionErrorKind::NonExhaustiveMatch, lookahead(p)))
                } else {
                    match take(p) {
                        Err(error) => Err(error),
                        Ok((p, close)) => Ok(
                            (
                                p,
                                Some(
                                    Arms {
                                        arms: arms.drop_last(),
                                        otherwise: arms.last().branch,
                                        close: close->0,
                                    },
                                ),
                            ),
                        ),
                    }
                },
                Ok((p, false)) => if !comma && !block {
                    Err(error_at(p, ExpressionErrorKind::ExpectedComma, lookahead(p)))
                } else {
                    Ok((p, None))
                },
            },
        },
    }
}

/// The arms of a `match` behind those in `arms`.
#[verifier::opaque]
pub open spec fn parsed_arms(
    p: Parsing,
    arms: Seq<Arm>,
    scrutinee: ExprId,
    word: Word,
    depth: int,
) -> Parsed<Arms>
    decreases room(depth), 90int, remaining(p),
{
    match parsed_arm_start(p, arms.len() as int, depth) {
        Err(error) => Err(error),
        Ok((q, None)) => parsed_fallback(q, arms, depth),
        Ok((q, Some(alternatives))) => match parsed_arm(q, alternatives, scrutinee, word, depth) {
            Err(error) => Err(error),
            Ok((q, (arm, block))) => match parsed_arm_end(q, arms.push(arm), block) {
                Err(error) => Err(error),
                Ok((q, Some(all))) => Ok((q, all)),
                Ok((q, None)) => if advances(p, q) {
                    parsed_arms(q, arms.push(arm), scrutinee, word, depth)
                } else {
                    Err(broken_tree(q))
                },
            },
        },
    }
}

/// The branch for every other value, from its arrow on.
#[verifier::opaque]
pub open spec fn parsed_fallback(p: Parsing, arms: Seq<Arm>, depth: int) -> Parsed<Arms>
    decreases room(depth), 85int, 0int,
{
    match expect_kind(p, TokenKind::FatArrow, ExpressionErrorKind::ExpectedFatArrow) {
        Err(error) => Err(error),
        Ok((p, _)) => match parsed_expression(p, 0, depth + 1) {
            Err(error) => Err(error),
            Ok((p, otherwise)) => match next_is(p, TokenKind::Comma) {
                Err(error) => Err(error),
                Ok((p, comma)) => match (if comma {
                    take(p)
                } else {
                    Ok((p, None))
                }) {
                    Err(error) => Err(error),
                    Ok((p, _)) => match expect_kind(
                        p,
                        TokenKind::CloseBrace,
                        ExpressionErrorKind::ExpectedCloseBrace,
                    ) {
                        Err(error) => Err(error),
                        Ok((p, close)) => Ok((p, Arms { arms, otherwise, close })),
                    },
                },
            },
        },
    }
}

/// The alternatives of an arm behind those in `found`, divided by bars.
#[verifier::opaque]
pub open spec fn parsed_alternatives_list(p: Parsing, found: Seq<Pattern>, depth: int) -> Parsed<
    Seq<Pattern>,
>
    decreases remaining(p),
{
    match parsed_alternatives(p, found, None, depth + 1) {
        Err(error) => Err(error),
        Ok((q, found)) => match next_operator(q, "|"@) {
            Err(error) => Err(error),
            Ok((q, false)) => Ok((q, found)),
            Ok((q, true)) => match take(q) {
                Err(error) => Err(error),
                Ok((q, _)) => if advances(p, q) {
                    parsed_alternatives_list(q, found, depth)
                } else {
                    Err(broken_tree(q))
                },
            },
        },
    }
}

/// An optional guard.
#[verifier::opaque]
pub open spec fn parsed_guard(p: Parsing, depth: int) -> Parsed<Option<ExprId>>
    decreases room(depth), 84int, 0int,
{
    match next_reads(p, "if"@) {
        Err(error) => Err(error),
        Ok((p, false)) => Ok((p, None)),
        Ok((p, true)) => match take(p) {
            Err(error) => Err(error),
            Ok((p, _)) => match parsed_expression(p, 0, depth + 1) {
                Err(error) => Err(error),
                Ok((p, guard)) => Ok((p, Some(guard))),
            },
        },
    }
}

/// The name that an arm binds, replaced by the scrutinee in its guard and its
/// branch.
#[verifier::opaque]
pub open spec fn arm_bound(
    p: Parsing,
    name: Option<Seq<char>>,
    guard: Option<ExprId>,
    branch: ExprId,
    scrutinee: ExprId,
    word: Word,
    depth: int,
) -> Result<Parsing, ExpressionError> {
    match name {
        None => Ok(p),
        Some(name) => match form_of(p, scrutinee, word.span) {
            Err(error) => Err(error),
            Ok(form) => match substituted_all(
                p.length,
                p.nodes,
                seq![guard, Some(branch)],
                2,
                name,
                form,
                depth + 1,
            ) {
                Err(error) => Err(error),
                Ok(nodes) => Ok(Parsing { nodes, ..p }),
            },
        },
    }
}

/// An arm behind its alternatives, and whether its branch is a block.
#[verifier::opaque]
pub open spec fn parsed_arm(
    p: Parsing,
    alternatives: Seq<Pattern>,
    scrutinee: ExprId,
    word: Word,
    depth: int,
) -> Parsed<(Arm, bool)>
    decreases room(depth), 86int, 0int,
{
    match arm_binding(p, alternatives) {
        Err(error) => Err(error),
        Ok(name) => match parsed_guard(p, depth) {
            Err(error) => Err(error),
            Ok((p, guard)) => match expect_kind(
                p,
                TokenKind::FatArrow,
                ExpressionErrorKind::ExpectedFatArrow,
            ) {
                Err(error) => Err(error),
                Ok((p, _)) => match next_is(p, TokenKind::OpenBrace) {
                    Err(error) => Err(error),
                    Ok((p, block)) => match parsed_expression(p, 0, depth + 1) {
                        Err(error) => Err(error),
                        Ok((p, branch)) => match arm_bound(
                            p,
                            name,
                            guard,
                            branch,
                            scrutinee,
                            word,
                            depth,
                        ) {
                            Err(error) => Err(error),
                            Ok(p) => Ok((p, (Arm { alternatives, guard, branch }, block))),
                        },
                    },
                },
            },
        },
    }
}

/// The operand of a `break` statement, with its semicolon.
#[verifier::opaque]
pub open spec fn parsed_break_operand(p: Parsing, depth: int) -> Parsed<ExprId>
    decreases room(depth), 30int, 0int,
{
    match next_is(p, TokenKind::Semicolon) {
        Err(error) => Err(error),
        Ok((p, true)) => match take(p) {
            Err(error) => Err(error),
            Ok((p, semicolon)) => push_unit_at(p, semicolon->0),
        },
        Ok((p, false)) => match parsed_expression(p, 0, depth + 1) {
            Err(error) => Err(error),
            Ok((p, operand)) => match expect_kind(
                p,
                TokenKind::Semicolon,
                ExpressionErrorKind::TrailingToken,
            ) {
                Err(error) => Err(error),
                Ok((p, _)) => Ok((p, operand)),
            },
        },
    }
}

/// The operand of a `break` statement in a block under a condition. The semicolon
/// may be left out before the closing brace.
#[verifier::opaque]
pub open spec fn parsed_branch_operand(p: Parsing, depth: int) -> Parsed<ExprId>
    decreases room(depth), 30int, 0int,
{
    match next_is(p, TokenKind::Semicolon) {
        Err(error) => Err(error),
        Ok((p, true)) => match take(p) {
            Err(error) => Err(error),
            Ok((p, semicolon)) => push_unit_at(p, semicolon->0),
        },
        Ok((p, false)) => match parsed_expression(p, 0, depth + 1) {
            Err(error) => Err(error),
            Ok((p, operand)) => match next_is(p, TokenKind::CloseBrace) {
                Err(error) => Err(error),
                Ok((p, true)) => Ok((p, operand)),
                Ok((p, false)) => match expect_kind(
                    p,
                    TokenKind::Semicolon,
                    ExpressionErrorKind::TrailingToken,
                ) {
                    Err(error) => Err(error),
                    Ok((p, _)) => Ok((p, operand)),
                },
            },
        },
    }
}

/// The operand of a `break` used as the condition of a loop.
#[verifier::opaque]
pub open spec fn parsed_condition_operand(p: Parsing, depth: int) -> Parsed<ExprId>
    decreases room(depth), 30int, 0int,
{
    match next_is(p, TokenKind::OpenBrace) {
        Err(error) => Err(error),
        Ok((p, true)) => push_unit_at(p, front(p)->0),
        Ok((p, false)) => parsed_expression(p, 0, depth + 1),
    }
}

/// A loop that ends by `break` with a value, behind the keyword.
#[verifier::opaque]
pub open spec fn parsed_loop(p: Parsing, word: Word, label: Option<Word>, depth: int) -> Parsed<
    ExprId,
>
    decreases room(depth), 100int, 0int,
{
    if level_refused(depth) {
        Err(error_at(p, ExpressionErrorKind::NestingLimitExceeded, Some(word)))
    } else {
        match expect_kind(p, TokenKind::OpenBrace, ExpressionErrorKind::ExpectedOpenBrace) {
            Err(error) => Err(error),
            Ok((p, _)) => match peek(p) {
                Err(error) => Err(error),
                Ok(p) => if is_kind(front(p), TokenKind::Lifetime) {
                    parsed_nested_loop(p, word, label, depth + 1)
                } else if is_text(front(p), "while"@) {
                    match take(p) {
                        Err(error) => Err(error),
                        Ok((p, _)) => parsed_while(p, word, label, None, depth + 1),
                    }
                } else {
                    match take(p) {
                        Err(error) => Err(error),
                        Ok((p, control)) => match parsed_loop_branches(
                            p,
                            control,
                            seq![],
                            seq![],
                            word,
                            label,
                            depth,
                        ) {
                            Err(error) => Err(error),
                            Ok((p, exits)) => {
                                let span = Span {
                                    start: loop_start(word, label),
                                    end: exits.close.span.end,
                                };
                                if exits.conditions.len() == 0 {
                                    push_node(p, Form::LoopBreak { operand: exits.otherwise }, span)
                                } else {
                                    loop_exits(
                                        p,
                                        exits.conditions,
                                        exits.branches,
                                        exits.conditions.len() as int,
                                        exits.otherwise,
                                        span,
                                    )
                                }
                            },
                        },
                    }
                },
            },
        }
    }
}

/// The exits of a loop, in the order in which they are tried.
pub ghost struct Exits {
    pub conditions: Seq<ExprId>,
    pub branches: Seq<ExprId>,
    pub otherwise: ExprId,
    pub close: Word,
}

/// A condition with a `break` in braces behind it: the condition and the
/// operand, and the state behind the braces.
#[verifier::opaque]
pub open spec fn parsed_exit(
    p: Parsing,
    current: Option<Word>,
    enclosing: Option<Word>,
    target: Option<ValueLoopControlTarget>,
    depth: int,
) -> Parsed<(ExprId, ExprId)>
    decreases room(depth), 70int, 0int,
{
    match parsed_expression(p, 0, depth + 1) {
        Err(error) => Err(error),
        Ok((p, condition)) => match expect_kind(
            p,
            TokenKind::OpenBrace,
            ExpressionErrorKind::ExpectedOpenBrace,
        ) {
            Err(error) => Err(error),
            Ok((p, _)) => match parsed_braced_break(p, current, enclosing, target, depth) {
                Err(error) => Err(error),
                Ok((p, branch)) => Ok((p, (condition, branch))),
            },
        },
    }
}

/// A `break` statement up to and with a closing brace. Where `target` is given
/// the label must name that loop.
#[verifier::opaque]
pub open spec fn parsed_braced_break(
    p: Parsing,
    current: Option<Word>,
    enclosing: Option<Word>,
    target: Option<ValueLoopControlTarget>,
    depth: int,
) -> Parsed<ExprId>
    decreases room(depth), 65int, 0int,
{
    match expect_text(p, "break"@, ExpressionErrorKind::ExpectedExpression) {
        Err(error) => Err(error),
        Ok((p, word)) => match parsed_break_target(p, current, enclosing) {
            Err(error) => Err(error),
            Ok((p, actual)) => if target is Some && target != Some(actual) {
                Err(error_at(p, ExpressionErrorKind::InvalidLoopBreakTarget, Some(word)))
            } else {
                match parsed_branch_operand(p, depth + 1) {
                    Err(error) => Err(error),
                    Ok((p, operand)) => match expect_kind(
                        p,
                        TokenKind::CloseBrace,
                        ExpressionErrorKind::ExpectedCloseBrace,
                    ) {
                        Err(error) => Err(error),
                        Ok((p, _)) => Ok((p, operand)),
                    },
                }
            },
        },
    }
}

/// The exits of a loop behind those given, from the token `control` on, which
/// has been consumed.
#[verifier::opaque]
pub open spec fn parsed_loop_branches(
    p: Parsing,
    control: Option<Word>,
    conditions: Seq<ExprId>,
    branches: Seq<ExprId>,
    word: Word,
    label: Option<Word>,
    depth: int,
) -> Parsed<Exits>
    decreases room(depth), 90int, remaining(p),
{
    if is_text(control, "if"@) {
        if conditions.len() >= MAX_LOOP_BREAK_BRANCHES {
            Err(error_at(p, ExpressionErrorKind::TooManyLoopBreakBranches, control))
        } else {
            match parsed_exit(p, label, None, None, depth) {
                Err(error) => Err(error),
                Ok((q, (condition, branch))) => match take(q) {
                    Err(error) => Err(error),
                    Ok((q, next)) => {
                        let conditions = conditions.push(condition);
                        let branches = branches.push(branch);
                        if !is_text(next, "else"@) {
                            if advances(p, q) {
                                parsed_loop_branches(
                                    q,
                                    next,
                                    conditions,
                                    branches,
                                    word,
                                    label,
                                    depth,
                                )
                            } else {
                                Err(broken_tree(q))
                            }
                        } else {
                            match take(q) {
                                Err(error) => Err(error),
                                Ok((q, alternative)) => if is_text(alternative, "if"@) {
                                    if advances(p, q) {
                                        parsed_loop_branches(
                                            q,
                                            alternative,
                                            conditions,
                                            branches,
                                            word,
                                            label,
                                            depth,
                                        )
                                    } else {
                                        Err(broken_tree(q))
                                    }
                                } else if !is_kind(alternative, TokenKind::OpenBrace) {
                                    Err(
                                        error_at(
                                            q,
                                            ExpressionErrorKind::ExpectedOpenBrace,
                                            alternative,
                                        ),
                                    )
                                } else {
                                    match parsed_braced_break(q, label, None, None, depth) {
                                        Err(error) => Err(error),
                                        Ok((q, otherwise)) => closed_loop(
                                            q,
                                            conditions,
                                            branches,
                                            otherwise,
                                        ),
                                    }
                                },
                            }
                        }
                    },
                },
            }
        }
    } else if !is_text(control, "break"@) {
        Err(error_at(p, ExpressionErrorKind::ExpectedExpression, control))
    } else {
        match parsed_break_target(p, label, None) {
            Err(error) => Err(error),
            Ok((q, _)) => match parsed_break_operand(q, depth + 1) {
                Err(error) => Err(error),
                Ok((q, operand)) => match next_reads(q, "break"@) {
                    Err(error) => Err(error),
                    Ok((q, false)) => closed_loop(q, conditions, branches, operand),
                    Ok((q, true)) => if conditions.len() >= MAX_LOOP_BREAK_BRANCHES {
                        Err(error_at(q, ExpressionErrorKind::TooManyLoopBreakBranches, control))
                    } else {
                        match push_node(q, Form::Bool(true), control->0.span) {
                            Err(error) => Err(error),
                            Ok((q, condition)) => match take(q) {
                                Err(error) => Err(error),
                                Ok((q, next)) => if advances(p, q) {
                                    parsed_loop_branches(
                                        q,
                                        next,
                                        conditions.push(condition),
                                        branches.push(operand),
                                        word,
                                        label,
                                        depth,
                                    )
                                } else {
                                    Err(broken_tree(q))
                                },
                            },
                        }
                    },
                },
            },
        }
    }
}

/// The closing brace of a loop.
pub open spec fn closed_loop(
    p: Parsing,
    conditions: Seq<ExprId>,
    branches: Seq<ExprId>,
    otherwise: ExprId,
) -> Parsed<Exits> {
    match expect_kind(p, TokenKind::CloseBrace, ExpressionErrorKind::ExpectedCloseBrace) {
        Err(error) => Err(error),
        Ok((p, close)) => Ok((p, Exits { conditions, branches, otherwise, close })),
    }
}

/// A loop whose body starts with a labelled loop, from that label on.
#[verifier::opaque]
pub open spec fn parsed_nested_loop(
    p: Parsing,
    word: Word,
    label: Option<Word>,
    depth: int,
) -> Parsed<ExprId>
    decreases room(depth), 100int, 0int,
{
    if level_refused(depth) {
        Err(error_at(p, ExpressionErrorKind::NestingLimitExceeded, Some(word)))
    } else {
        match take(p) {
            Err(error) => Err(error),
            Ok((p, None)) => Err(error_at(p, ExpressionErrorKind::ExpectedExpression, lookahead(p))),
            Ok((p, Some(inner))) => match expect_kind(
                p,
                TokenKind::Colon,
                ExpressionErrorKind::ExpectedColon,
            ) {
                Err(error) => Err(error),
                Ok((p, _)) => match take(p) {
                    Err(error) => Err(error),
                    Ok((p, keyword)) => if is_text(keyword, "while"@) {
                        parsed_while(p, word, label, Some(inner), depth + 1)
                    } else if !is_text(keyword, "loop"@) {
                        Err(error_at(p, ExpressionErrorKind::ExpectedExpression, keyword))
                    } else {
                        match expect_kind(
                            p,
                            TokenKind::OpenBrace,
                            ExpressionErrorKind::ExpectedOpenBrace,
                        ) {
                            Err(error) => Err(error),
                            Ok((p, _)) => match take(p) {
                                Err(error) => Err(error),
                                Ok((p, control)) => match parsed_inner_branches(
                                    p,
                                    control,
                                    seq![],
                                    seq![],
                                    inner,
                                    label,
                                    depth,
                                ) {
                                    Err(error) => Err(error),
                                    Ok((p, exits)) => parsed_outer_exit(
                                        p,
                                        exits,
                                        word,
                                        label,
                                        depth,
                                    ),
                                },
                            },
                        }
                    },
                },
            },
        }
    }
}

/// The exits of an inner loop: those with a condition leave the outer loop, and
/// the last one the inner loop.
pub ghost struct InnerExits {
    pub conditions: Seq<ExprId>,
    pub branches: Seq<ExprId>,
    pub operand: ExprId,
}

/// The exits of an inner loop behind those given, from the token `control` on.
#[verifier::opaque]
pub open spec fn parsed_inner_branches(
    p: Parsing,
    control: Option<Word>,
    conditions: Seq<ExprId>,
    branches: Seq<ExprId>,
    inner: Word,
    label: Option<Word>,
    depth: int,
) -> Parsed<InnerExits>
    decreases room(depth), 90int, remaining(p),
{
    if is_text(control, "if"@) {
        if conditions.len() >= MAX_LOOP_BREAK_BRANCHES {
            Err(error_at(p, ExpressionErrorKind::TooManyLoopBreakBranches, control))
        } else {
            match parsed_exit(
                p,
                Some(inner),
                label,
                Some(ValueLoopControlTarget::Enclosing),
                depth,
            ) {
                Err(error) => Err(error),
                Ok((q, (condition, branch))) => match take(q) {
                    Err(error) => Err(error),
                    Ok((q, next)) => {
                        let conditions = conditions.push(condition);
                        let branches = branches.push(branch);
                        if !is_text(next, "else"@) {
                            if advances(p, q) {
                                parsed_inner_branches(
                                    q,
                                    next,
                                    conditions,
                                    branches,
                                    inner,
                                    label,
                                    depth,
                                )
                            } else {
                                Err(broken_tree(q))
                            }
                        } else {
                            match take(q) {
                                Err(error) => Err(error),
                                Ok((q, alternative)) => if is_text(alternative, "if"@) {
                                    if advances(p, q) {
                                        parsed_inner_branches(
                                            q,
                                            alternative,
                                            conditions,
                                            branches,
                                            inner,
                                            label,
                                            depth,
                                        )
                                    } else {
                                        Err(broken_tree(q))
                                    }
                                } else if !is_kind(alternative, TokenKind::OpenBrace) {
                                    Err(
                                        error_at(
                                            q,
                                            ExpressionErrorKind::ExpectedOpenBrace,
                                            alternative,
                                        ),
                                    )
                                } else {
                                    match parsed_braced_break(
                                        q,
                                        Some(inner),
                                        label,
                                        Some(ValueLoopControlTarget::Current),
                                        depth,
                                    ) {
                                        Err(error) => Err(error),
                                        Ok((q, operand)) => match expect_kind(
                                            q,
                                            TokenKind::CloseBrace,
                                            ExpressionErrorKind::ExpectedCloseBrace,
                                        ) {
                                            Err(error) => Err(error),
                                            Ok((q, _)) => Ok(
                                                (q, InnerExits { conditions, branches, operand }),
                                            ),
                                        },
                                    }
                                },
                            }
                        }
                    },
                },
            }
        }
    } else if !is_text(control, "break"@) {
        Err(error_at(p, ExpressionErrorKind::ExpectedExpression, control))
    } else {
        match expect_break_target(
            p,
            Some(inner),
            label,
            ValueLoopControlTarget::Current,
            control,
        ) {
            Err(error) => Err(error),
            Ok(q) => match parsed_break_operand(q, depth + 1) {
                Err(error) => Err(error),
                Ok((q, operand)) => match expect_kind(
                    q,
                    TokenKind::CloseBrace,
                    ExpressionErrorKind::ExpectedCloseBrace,
                ) {
                    Err(error) => Err(error),
                    Ok((q, _)) => Ok((q, InnerExits { conditions, branches, operand })),
                },
            },
        }
    }
}

/// The last exit of an outer loop: its operand and the closing brace.
#[verifier::opaque]
pub open spec fn parsed_last_exit(p: Parsing, label: Option<Word>, depth: int) -> Parsed<
    (ExprId, Word),
>
    decreases room(depth), 70int, 0int,
{
    match expect_text(p, "break"@, ExpressionErrorKind::ExpectedExpression) {
        Err(error) => Err(error),
        Ok((p, outer_break)) => match expect_break_target(
            p,
            label,
            None,
            ValueLoopControlTarget::Current,
            Some(outer_break),
        ) {
            Err(error) => Err(error),
            Ok(p) => match parsed_break_operand(p, depth + 1) {
                Err(error) => Err(error),
                Ok((p, operand)) => match expect_kind(
                    p,
                    TokenKind::CloseBrace,
                    ExpressionErrorKind::ExpectedCloseBrace,
                ) {
                    Err(error) => Err(error),
                    Ok((p, close)) => Ok((p, (operand, close))),
                },
            },
        },
    }
}

/// What follows an inner loop: the last exit of the outer one.
#[verifier::opaque]
pub open spec fn parsed_outer_exit(
    p: Parsing,
    exits: InnerExits,
    word: Word,
    label: Option<Word>,
    depth: int,
) -> Parsed<ExprId>
    decreases room(depth), 80int, 0int,
{
    match expect_kind(p, TokenKind::Semicolon, ExpressionErrorKind::TrailingToken) {
        Err(error) => Err(error),
        Ok((p, _)) => match parsed_last_exit(p, label, depth) {
            Err(error) => Err(error),
            Ok((p, (fallback, close))) => {
                let span = Span { start: loop_start(word, label), end: close.span.end };
                match push_node(
                    p,
                    Form::Sequence { first: exits.operand, then: fallback },
                    span,
                ) {
                    Err(error) => Err(error),
                    Ok((p, otherwise)) => loop_exits(
                        p,
                        exits.conditions,
                        exits.branches,
                        exits.conditions.len() as int,
                        otherwise,
                        span,
                    ),
                }
            },
        },
    }
}

/// A loop whose body starts with a `while` that breaks in its condition, behind
/// that keyword. The body of the `while` is never reached.
#[verifier::opaque]
pub open spec fn parsed_while(
    p: Parsing,
    word: Word,
    label: Option<Word>,
    inner: Option<Word>,
    depth: int,
) -> Parsed<ExprId>
    decreases room(depth), 100int, 0int,
{
    if level_refused(depth) {
        Err(error_at(p, ExpressionErrorKind::NestingLimitExceeded, Some(word)))
    } else {
        match expect_text(p, "break"@, ExpressionErrorKind::ExpectedExpression) {
            Err(error) => Err(error),
            Ok((p, break_word)) => match parsed_break_target(p, inner, label) {
                Err(error) => Err(error),
                Ok((p, target)) => match parsed_condition_operand(p, depth + 1) {
                    Err(error) => Err(error),
                    Ok((p, operand)) => if target == ValueLoopControlTarget::Current && !unit_form(
                        p.nodes,
                        operand,
                        depth + 1,
                    ) {
                        Err(
                            error_at(
                                p,
                                ExpressionErrorKind::InvalidLoopBreakTarget,
                                Some(break_word),
                            ),
                        )
                    } else {
                        match expect_kind(
                            p,
                            TokenKind::OpenBrace,
                            ExpressionErrorKind::ExpectedOpenBrace,
                        ) {
                            Err(error) => Err(error),
                            Ok((p, _)) => match skipped_body(p, 1) {
                                Err(error) => Err(error),
                                Ok(p) => if target == ValueLoopControlTarget::Enclosing {
                                    match expect_kind(
                                        p,
                                        TokenKind::CloseBrace,
                                        ExpressionErrorKind::ExpectedCloseBrace,
                                    ) {
                                        Err(error) => Err(error),
                                        Ok((p, close)) => push_node(
                                            p,
                                            Form::LoopBreak { operand },
                                            Span {
                                                start: loop_start(word, label),
                                                end: close.span.end,
                                            },
                                        ),
                                    }
                                } else {
                                    match parsed_last_exit(p, label, depth) {
                                        Err(error) => Err(error),
                                        Ok((p, (fallback, close))) => push_node(
                                            p,
                                            Form::Sequence { first: operand, then: fallback },
                                            Span {
                                                start: loop_start(word, label),
                                                end: close.span.end,
                                            },
                                        ),
                                    }
                                },
                            },
                        }
                    },
                },
            },
        }
    }
}

/// The root of a text: an expression, or `return` with one.
pub open spec fn parsed_root(p: Parsing, depth: int) -> Parsed<ExprId> {
    match next_reads(p, "return"@) {
        Err(error) => Err(error),
        Ok((p, false)) => parsed_expression(p, 0, depth),
        Ok((p, true)) => match take(p) {
            Err(error) => Err(error),
            Ok((p, keyword)) => match parsed_expression(p, 0, depth + 1) {
                Err(error) => Err(error),
                Ok((p, operand)) => match span_of(p, operand) {
                    Err(error) => Err(error),
                    Ok(span) => match next_is(p, TokenKind::Semicolon) {
                        Err(error) => Err(error),
                        Ok((p, semicolon)) => match (if semicolon {
                            take(p)
                        } else {
                            Ok((p, None))
                        }) {
                            Err(error) => Err(error),
                            Ok((p, _)) => push_node(
                                p,
                                Form::Return { operand },
                                Span { start: keyword->0.span.start, end: span.end },
                            ),
                        },
                    },
                },
            },
        },
    }
}

/// The tree of a text from the parser's first state, where the text stands on a level of nesting.
pub open spec fn parsed_tree(p: Parsing, depth: int) -> Result<Tree, ExpressionError> {
    match parsed_root(p, depth) {
        Err(error) => Err(error),
        Ok((p, root)) => match take(p) {
            Err(error) => Err(error),
            Ok((p, None)) => Ok(Tree { nodes: p.nodes, ranges: p.ranges, root }),
            Ok((p, Some(word))) => Err(
                error_at(p, ExpressionErrorKind::TrailingToken, Some(word)),
            ),
        },
    }
}

/// A lexeme as a word of a text.
pub open spec fn word_of(lexeme: Lexeme, text: Seq<char>) -> Word {
    Word {
        kind: lexeme.kind,
        text: text.subrange(lexeme.start, lexeme.end),
        span: Span {
            start: bytes_before(text, lexeme.start) as usize,
            end: bytes_before(text, lexeme.end) as usize,
        },
    }
}

/// The parser's first state on a text.
pub open spec fn first_state(text: Seq<char>, limit: int) -> Parsing {
    Parsing {
        words: lexing(text).lexemes.map_values(|lexeme: Lexeme| word_of(lexeme, text)),
        failure: failure_in_bytes(text, lexing(text).failure),
        position: 0,
        looked: false,
        nodes: seq![],
        ranges: seq![],
        limit,
        length: bytes_before(text, text.len() as int) as usize,
    }
}

/// The tree that a text stands for, of at most `limit` nodes.
pub open spec fn expression_tree(text: Seq<char>, limit: int) -> Result<Tree, ExpressionError> {
    parsed_tree(first_state(text, limit), 0)
}

} // verus!
