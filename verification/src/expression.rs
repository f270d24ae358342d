//! Expression trees and their constant evaluation.
use crate::integer::{
    ascribe_integer, ascribed_value, binary_value, cast_integer, cast_value, evaluate_binary,
    integer_bits, integer_signed, integer_type_named, negate_signed_magnitude, negated_magnitude,
    read_signed, signed_number, truth,
};
use crate::integer::{BinaryOperator, ConstEvalError, IntegerType, ScalarType, UnaryOperator};
use crate::token::{LexError, Span};
use vstd::prelude::*;

verus! {

/// The level of nesting at which nothing may begin. Each rule that reads a part of an expression
/// goes one level deeper, and some go several at once: what begins on this level is refused, and
/// what goes past it without beginning on it is read.
pub const MAX_EXPRESSION_DEPTH: usize = 64;

/// The level of nesting where counting ends. No text has words enough to come so deep.
pub const LAST_LEVEL: usize = usize::MAX - 16;

/// Whether a level of nesting is one on which nothing may begin.
pub open spec fn level_refused(depth: int) -> bool {
    depth == MAX_EXPRESSION_DEPTH || depth >= LAST_LEVEL
}

/// How many levels of nesting are left to count.
pub open spec fn room(depth: int) -> int {
    if depth < LAST_LEVEL {
        LAST_LEVEL - depth
    } else {
        0
    }
}

/// Whether nothing may begin on a level of nesting.
pub(crate) fn refuses_level(depth: usize) -> (result: bool)
    ensures
        result == level_refused(depth as int),
{
    depth == MAX_EXPRESSION_DEPTH || depth >= LAST_LEVEL
}

pub const MAX_CALL_ARGUMENTS: usize = 4;

pub const MAX_ARRAY_ELEMENTS: usize = 16;

/// The place of a node in its tree.
#[derive(Clone, Copy, Debug, PartialEq, Eq, Structural)]
pub struct ExprId(pub usize);

impl ExprId {
    pub fn index(self) -> (result: usize)
        ensures
            result == self.0,
    {
        self.0
    }
}

#[derive(Clone, Copy, Debug, PartialEq, Eq)]
pub struct IntegerLiteral<'source> {
    pub value: u128,
    pub suffix: Option<&'source str>,
}

#[derive(Clone, Copy, Debug, PartialEq, Eq)]
#[allow(inconsistent_fields)]
pub enum ExprKind<'source> {
    Unit,
    DefaultValue,
    Integer(IntegerLiteral<'source>),
    Bool(bool),
    Char(u32),
    Identifier(&'source str),
    Call {
        callee: &'source str,
        arguments: [Option<ExprId>; MAX_CALL_ARGUMENTS],
        argument_count: usize,
    },
    InlineConst { operand: ExprId },
    Ascribe { operand: ExprId, target: ScalarType },
    Sequence { first: ExprId, then: ExprId },
    Cast { operand: ExprId, target: IntegerType },
    Unary { operator: UnaryOperator, operand: ExprId },
    Binary { operator: BinaryOperator, left: ExprId, right: ExprId },
    If { condition: ExprId, then_branch: ExprId, else_branch: ExprId },
    Return { operand: ExprId },
    LoopBreak { operand: ExprId },
    LoopBreakIf { condition: ExprId, then_branch: ExprId, else_branch: ExprId },
    Array { elements: [Option<ExprId>; MAX_ARRAY_ELEMENTS], element_count: usize },
    ArrayRepeat { element: ExprId, count: usize },
    Index { base: ExprId, index: ExprId },
    RangeIndex { base: ExprId, start: Option<ExprId>, end: Option<ExprId>, inclusive: bool },
    SliceLen { base: ExprId },
    SliceIsEmpty { base: ExprId },
    StrAsBytes { base: ExprId },
    StrIsCharBoundary { base: ExprId, index: ExprId },
    ReferenceAsPointer { base: ExprId, mutable: bool },
}

#[derive(Clone, Copy, Debug, PartialEq, Eq)]
pub struct Expr<'source> {
    pub kind: ExprKind<'source>,
    pub span: Span,
}

#[derive(Clone, Copy, Debug, PartialEq, Eq, Structural)]
pub enum ExpressionErrorKind {
    Lexical(LexError),
    ExpectedExpression,
    ExpectedColon,
    ExpectedCloseParen,
    ExpectedCloseBracket,
    ExpectedOpenBrace,
    ExpectedCloseBrace,
    ExpectedIdentifier,
    ExpectedEquals,
    ExpectedSemicolon,
    ExpectedInlineConstType,
    UnsupportedInlineConstType,
    ExpectedElse,
    ExpectedMatchPattern,
    ExpectedFatArrow,
    ExpectedComma,
    ExpectedWildcardPattern,
    NonExhaustiveMatch,
    TooManyMatchPatterns,
    TooManyMatchAlternatives,
    TooManyRangeValidations,
    InconsistentMatchBindings,
    TrailingToken,
    InvalidInteger,
    InvalidIntegerSuffix,
    InvalidCharacter,
    InvalidRangeType,
    InvalidRangeBounds,
    InvalidArrayLength,
    ExpectedCastType,
    UnsupportedCastType,
    UnsupportedMethod,
    IntegerOverflow,
    TooManyNodes,
    TooManyCallArguments,
    TooManyArrayElements,
    TooManyInlineConstBindings,
    TooManyInlineConstAssignments,
    TooManyInlineConstExpressionStatements,
    TooManyLoopBreakBranches,
    ImmutableInlineConstAssignment,
    UnsupportedInlineConstAssignment,
    NestingLimitExceeded,
    InvalidExpressionTree,
    InvalidLoopBreakTarget,
    UnknownLoopLabel,
}

#[derive(Clone, Copy, Debug, PartialEq, Eq, Structural)]
pub struct ExpressionError {
    pub kind: ExpressionErrorKind,
    pub span: Span,
}

/// A range pattern of a `match`, to be checked once its bounds are known.
#[derive(Clone, Copy, Debug, PartialEq, Eq, Structural)]
pub struct RangeValidation {
    pub scrutinee: ExprId,
    pub start: Option<ExprId>,
    pub end: Option<ExprId>,
    pub inclusive: bool,
}

/// An arena of nodes, the range patterns among them and the root.
#[derive(Clone, Debug, PartialEq, Eq)]
pub struct ExpressionTree<'source, const MAX_NODES: usize> {
    pub nodes: Vec<Option<Expr<'source>>>,
    pub range_validations: Vec<RangeValidation>,
    pub root: ExprId,
}

/// What a node is: an `ExprKind` with its names as sequences of characters.
#[allow(inconsistent_fields)]
pub ghost enum Form {
    Unit,
    DefaultValue,
    Integer { value: u128, suffix: Option<Seq<char>> },
    Bool(bool),
    Char(u32),
    Identifier(Seq<char>),
    Call { callee: Seq<char>, arguments: Seq<Option<ExprId>>, argument_count: usize },
    InlineConst { operand: ExprId },
    Ascribe { operand: ExprId, target: ScalarType },
    Sequence { first: ExprId, then: ExprId },
    Cast { operand: ExprId, target: IntegerType },
    Unary { operator: UnaryOperator, operand: ExprId },
    Binary { operator: BinaryOperator, left: ExprId, right: ExprId },
    If { condition: ExprId, then_branch: ExprId, else_branch: ExprId },
    Return { operand: ExprId },
    LoopBreak { operand: ExprId },
    LoopBreakIf { condition: ExprId, then_branch: ExprId, else_branch: ExprId },
    Array { elements: Seq<Option<ExprId>>, element_count: usize },
    ArrayRepeat { element: ExprId, count: usize },
    Index { base: ExprId, index: ExprId },
    RangeIndex { base: ExprId, start: Option<ExprId>, end: Option<ExprId>, inclusive: bool },
    SliceLen { base: ExprId },
    SliceIsEmpty { base: ExprId },
    StrAsBytes { base: ExprId },
    StrIsCharBoundary { base: ExprId, index: ExprId },
    ReferenceAsPointer { base: ExprId, mutable: bool },
}

/// A node: its form and the text it covers.
pub ghost struct Node {
    pub form: Form,
    pub span: Span,
}

/// Whether an id is that of one of the first `count` nodes.
pub open spec fn id_known(id: ExprId, count: int) -> bool {
    id.0 < count
}

/// The same where there may be no id.
pub open spec fn option_known(id: Option<ExprId>, count: int) -> bool {
    id matches Some(id) ==> id_known(id, count)
}

/// Whether the first `filled` of some places hold ids, and the places hold ids of the first
/// `count` nodes only.
pub open spec fn slots_known(slots: Seq<Option<ExprId>>, filled: usize, count: int) -> bool {
    &&& filled <= slots.len()
    &&& forall|i: int| #![trigger slots[i]]
        0 <= i < slots.len() ==> option_known(slots[i], count) && (i < filled ==> slots[i] is Some)
}

/// Whether a form speaks of the first `count` nodes only.
pub open spec fn form_known(form: Form, count: int) -> bool {
    match form {
        Form::Unit
        | Form::DefaultValue
        | Form::Integer { .. }
        | Form::Bool(_)
        | Form::Char(_)
        | Form::Identifier(_) => true,
        Form::Call { arguments, argument_count, .. } => slots_known(
            arguments,
            argument_count,
            count,
        ),
        Form::Array { elements, element_count } => slots_known(elements, element_count, count),
        Form::InlineConst { operand }
        | Form::Ascribe { operand, .. }
        | Form::Cast { operand, .. }
        | Form::Unary { operand, .. }
        | Form::Return { operand }
        | Form::LoopBreak { operand } => id_known(operand, count),
        Form::ArrayRepeat { element, .. } => id_known(element, count),
        Form::Sequence { first, then } => id_known(first, count) && id_known(then, count),
        Form::Binary { left, right, .. } => id_known(left, count) && id_known(right, count),
        Form::If { condition, then_branch, else_branch }
        | Form::LoopBreakIf { condition, then_branch, else_branch } => id_known(condition, count)
            && id_known(then_branch, count) && id_known(else_branch, count),
        Form::Index { base, index } | Form::StrIsCharBoundary { base, index } => id_known(
            base,
            count,
        ) && id_known(index, count),
        Form::RangeIndex { base, start, end, .. } => id_known(base, count) && option_known(
            start,
            count,
        ) && option_known(end, count),
        Form::SliceLen { base }
        | Form::SliceIsEmpty { base }
        | Form::StrAsBytes { base }
        | Form::ReferenceAsPointer { base, .. } => id_known(base, count),
    }
}

/// Whether the nodes are all there and speak of each other only.
#[verifier::opaque]
pub open spec fn nodes_closed(nodes: Seq<Option<Node>>) -> bool {
    forall|i: int| #![trigger nodes[i]]
        0 <= i < nodes.len() ==> (nodes[i] matches Some(node) && form_known(
            node.form,
            nodes.len() as int,
        ))
}

pub open spec fn text_view(text: Option<&str>) -> Option<Seq<char>> {
    match text {
        Some(text) => Some(text@),
        None => None,
    }
}

impl<'source> View for ExprKind<'source> {
    type V = Form;

    open spec fn view(&self) -> Form {
        match *self {
            ExprKind::Unit => Form::Unit,
            ExprKind::DefaultValue => Form::DefaultValue,
            ExprKind::Integer(literal) => Form::Integer {
                value: literal.value,
                suffix: text_view(literal.suffix),
            },
            ExprKind::Bool(value) => Form::Bool(value),
            ExprKind::Char(value) => Form::Char(value),
            ExprKind::Identifier(name) => Form::Identifier(name@),
            ExprKind::Call { callee, arguments, argument_count } => Form::Call {
                callee: callee@,
                arguments: arguments@,
                argument_count,
            },
            ExprKind::InlineConst { operand } => Form::InlineConst { operand },
            ExprKind::Ascribe { operand, target } => Form::Ascribe { operand, target },
            ExprKind::Sequence { first, then } => Form::Sequence { first, then },
            ExprKind::Cast { operand, target } => Form::Cast { operand, target },
            ExprKind::Unary { operator, operand } => Form::Unary { operator, operand },
            ExprKind::Binary { operator, left, right } => Form::Binary { operator, left, right },
            ExprKind::If { condition, then_branch, else_branch } => Form::If {
                condition,
                then_branch,
                else_branch,
            },
            ExprKind::Return { operand } => Form::Return { operand },
            ExprKind::LoopBreak { operand } => Form::LoopBreak { operand },
            ExprKind::LoopBreakIf { condition, then_branch, else_branch } => Form::LoopBreakIf {
                condition,
                then_branch,
                else_branch,
            },
            ExprKind::Array { elements, element_count } => Form::Array {
                elements: elements@,
                element_count,
            },
            ExprKind::ArrayRepeat { element, count } => Form::ArrayRepeat { element, count },
            ExprKind::Index { base, index } => Form::Index { base, index },
            ExprKind::RangeIndex { base, start, end, inclusive } => Form::RangeIndex {
                base,
                start,
                end,
                inclusive,
            },
            ExprKind::SliceLen { base } => Form::SliceLen { base },
            ExprKind::SliceIsEmpty { base } => Form::SliceIsEmpty { base },
            ExprKind::StrAsBytes { base } => Form::StrAsBytes { base },
            ExprKind::StrIsCharBoundary { base, index } => Form::StrIsCharBoundary { base, index },
            ExprKind::ReferenceAsPointer { base, mutable } => Form::ReferenceAsPointer {
                base,
                mutable,
            },
        }
    }
}

impl<'source> View for Expr<'source> {
    type V = Node;

    open spec fn view(&self) -> Node {
        Node { form: self.kind@, span: self.span }
    }
}

pub open spec fn node_view(entry: Option<Expr>) -> Option<Node> {
    match entry {
        Some(expression) => Some(expression@),
        None => None,
    }
}

/// The nodes of an arena.
pub open spec fn arena_view(entries: Seq<Option<Expr>>) -> Seq<Option<Node>> {
    entries.map_values(|entry: Option<Expr>| node_view(entry))
}

/// The node with the id `id`.
pub open spec fn node_at(nodes: Seq<Option<Node>>, id: ExprId) -> Option<Node> {
    if id.0 < nodes.len() {
        nodes[id.0 as int]
    } else {
        None
    }
}

/// Whether range patterns speak of the first `count` nodes only.
pub open spec fn ranges_known(ranges: Seq<RangeValidation>, count: int) -> bool {
    forall|i: int| #![trigger ranges[i]]
        0 <= i < ranges.len() ==> id_known(ranges[i].scrutinee, count) && option_known(
            ranges[i].start,
            count,
        ) && option_known(ranges[i].end, count)
}

/// A tree: its nodes, its range patterns and its root.
pub ghost struct Tree {
    pub nodes: Seq<Option<Node>>,
    pub ranges: Seq<RangeValidation>,
    pub root: ExprId,
}

impl Tree {
    /// Whether there are at most `limit` nodes, and each id in the tree is that of one of them.
    pub open spec fn sound(self, limit: int) -> bool {
        &&& self.nodes.len() <= limit
        &&& nodes_closed(self.nodes)
        &&& ranges_known(self.ranges, self.nodes.len() as int)
        &&& id_known(self.root, self.nodes.len() as int)
    }
}

impl<'source, const MAX_NODES: usize> View for ExpressionTree<'source, MAX_NODES> {
    type V = Tree;

    open spec fn view(&self) -> Tree {
        Tree {
            nodes: arena_view(self.nodes@),
            ranges: self.range_validations@,
            root: self.root,
        }
    }
}

/// What the names in an expression stand for.
///
/// The ghost functions say what each method answers; an answer depends on
/// nothing but the resolver and the arguments. Unless a resolver says
/// otherwise, they say that nothing is known.
pub trait ConstantResolver {
    open spec fn value_of(&self, name: Seq<char>) -> Option<u128> {
        None
    }

    open spec fn type_of(&self, name: Seq<char>) -> Option<IntegerType> {
        None
    }

    open spec fn bool_named(&self, name: Seq<char>) -> bool {
        false
    }

    open spec fn call_value(&self, name: Seq<char>, arguments: Seq<u128>) -> Option<u128> {
        None
    }

    open spec fn call_type(&self, name: Seq<char>, argument_count: usize) -> Option<IntegerType> {
        None
    }

    open spec fn call_bool(&self, name: Seq<char>, argument_count: usize) -> bool {
        false
    }

    fn resolve(&self, name: &str) -> (value: Option<u128>)
        ensures
            value == self.value_of(name@),
    ;

    fn resolve_type(&self, name: &str) -> (ty: Option<IntegerType>)
        ensures
            ty == self.type_of(name@),
    ;

    fn resolves_bool(&self, name: &str) -> (result: bool)
        ensures
            result == self.bool_named(name@),
    ;

    fn resolve_call(&self, name: &str, arguments: &[u128]) -> (value: Option<u128>)
        ensures
            value == self.call_value(name@, arguments@),
    ;

    fn resolve_call_type(&self, name: &str, argument_count: usize) -> (ty: Option<IntegerType>)
        ensures
            ty == self.call_type(name@, argument_count),
    ;

    fn call_resolves_bool(&self, name: &str, argument_count: usize) -> (result: bool)
        ensures
            result == self.call_bool(name@, argument_count),
    ;
}

/// The resolver that knows no name.
pub struct NoConstants;

impl ConstantResolver for NoConstants {
    open spec fn value_of(&self, name: Seq<char>) -> Option<u128> {
        None
    }

    open spec fn type_of(&self, name: Seq<char>) -> Option<IntegerType> {
        None
    }

    open spec fn bool_named(&self, name: Seq<char>) -> bool {
        false
    }

    open spec fn call_value(&self, name: Seq<char>, arguments: Seq<u128>) -> Option<u128> {
        None
    }

    open spec fn call_type(&self, name: Seq<char>, argument_count: usize) -> Option<IntegerType> {
        None
    }

    open spec fn call_bool(&self, name: Seq<char>, argument_count: usize) -> bool {
        false
    }

    fn resolve(&self, name: &str) -> (value: Option<u128>) {
        None
    }

    fn resolve_type(&self, name: &str) -> (ty: Option<IntegerType>) {
        None
    }

    fn resolves_bool(&self, name: &str) -> (result: bool) {
        false
    }

    fn resolve_call(&self, name: &str, arguments: &[u128]) -> (value: Option<u128>) {
        None
    }

    fn resolve_call_type(&self, name: &str, argument_count: usize) -> (ty: Option<IntegerType>) {
        None
    }

    fn call_resolves_bool(&self, name: &str, argument_count: usize) -> (result: bool) {
        false
    }
}

/// Whether an operator's result is a truth value.
pub open spec fn operator_is_boolean(operator: BinaryOperator) -> bool {
    match operator {
        BinaryOperator::LogicalOr
        | BinaryOperator::LogicalAnd
        | BinaryOperator::Equal
        | BinaryOperator::NotEqual
        | BinaryOperator::Less
        | BinaryOperator::LessEqual
        | BinaryOperator::Greater
        | BinaryOperator::GreaterEqual => true,
        _ => false,
    }
}

/// Whether the expression `id` is a truth value by its form. Nothing is one on the level of the
/// nesting limit.
pub open spec fn boolean_form(nodes: Seq<Option<Node>>, id: ExprId, depth: int) -> bool
    decreases room(depth),
{
    if level_refused(depth) {
        false
    } else {
        match node_at(nodes, id) {
            None => false,
            Some(node) => match node.form {
                Form::Bool(_) | Form::SliceIsEmpty { .. } | Form::StrIsCharBoundary { .. } => true,
                Form::Ascribe { operand, target: ScalarType::Bool } => boolean_form(
                    nodes,
                    operand,
                    depth + 1,
                ),
                Form::Sequence { then, .. } => boolean_form(nodes, then, depth + 1),
                Form::If { then_branch, else_branch, .. } => boolean_form(
                    nodes,
                    then_branch,
                    depth + 1,
                ) && boolean_form(nodes, else_branch, depth + 1),
                Form::LoopBreakIf { then_branch, else_branch, .. } => boolean_form(
                    nodes,
                    then_branch,
                    depth + 1,
                ) && boolean_form(nodes, else_branch, depth + 1),
                Form::Return { operand } => boolean_form(nodes, operand, depth + 1),
                Form::LoopBreak { operand } => boolean_form(nodes, operand, depth + 1),
                Form::InlineConst { operand } => boolean_form(nodes, operand, depth + 1),
                Form::Unary { operator: UnaryOperator::Not, operand } => boolean_form(
                    nodes,
                    operand,
                    depth + 1,
                ),
                Form::Binary { operator, .. } => operator_is_boolean(operator),
                _ => false,
            },
        }
    }
}

/// The signed type that a suffix gives to the integer literal `id`.
pub open spec fn signed_suffix(nodes: Seq<Option<Node>>, id: ExprId) -> Option<IntegerType> {
    match node_at(nodes, id) {
        Some(Node { form: Form::Integer { suffix: Some(suffix), .. }, .. }) => {
            match integer_type_named(suffix) {
                Some(ty) => if integer_signed(ty) {
                    Some(ty)
                } else {
                    None
                },
                None => None,
            }
        },
        _ => None,
    }
}

/// What an expression stands for, or why it has no value.
pub open spec fn evaluation<R: ConstantResolver>(
    nodes: Seq<Option<Node>>,
    resolver: &R,
    id: ExprId,
    depth: int,
) -> Result<u128, ConstEvalError>
    decreases MAX_EXPRESSION_DEPTH - depth, 0int,
{
    if depth >= MAX_EXPRESSION_DEPTH {
        Err(ConstEvalError::NestingLimitExceeded)
    } else {
        match node_at(nodes, id) {
            None => Err(ConstEvalError::InvalidExpressionTree),
            Some(node) => match node.form {
                Form::Unit | Form::DefaultValue => Ok(0),
                Form::Integer { value, .. } => Ok(value),
                Form::Bool(value) => Ok(truth(value)),
                Form::Char(value) => Ok(value as u128),
                Form::Identifier(name) => match resolver.value_of(name) {
                    Some(value) => Ok(value),
                    None => Err(ConstEvalError::UnknownIdentifier),
                },
                Form::Call { callee, arguments, argument_count } => if argument_count
                    > MAX_CALL_ARGUMENTS {
                    Err(ConstEvalError::InvalidExpressionTree)
                } else {
                    match evaluations(
                        nodes,
                        resolver,
                        arguments,
                        argument_count as int,
                        depth + 1,
                    ) {
                        Err(error) => Err(error),
                        Ok(values) => match resolver.call_value(callee, values) {
                            Some(value) => Ok(value),
                            None => Err(ConstEvalError::UnsupportedCall),
                        },
                    }
                },
                Form::Cast { operand, target } => match evaluation(
                    nodes,
                    resolver,
                    operand,
                    depth + 1,
                ) {
                    Err(error) => Err(error),
                    Ok(value) => cast_value(value, target, 64),
                },
                Form::Ascribe { operand, target } => match evaluation(
                    nodes,
                    resolver,
                    operand,
                    depth + 1,
                ) {
                    Err(error) => Err(error),
                    Ok(value) => match target {
                        ScalarType::Integer(target) => ascribed_value(value, target, 64),
                        ScalarType::Bool => if boolean_form(nodes, operand, depth + 1) {
                            Ok(truth(value != 0))
                        } else {
                            Err(ConstEvalError::InvalidCast)
                        },
                    },
                },
                Form::Unary { operator, operand } => match evaluation(
                    nodes,
                    resolver,
                    operand,
                    depth + 1,
                ) {
                    Err(error) => Err(error),
                    Ok(value) => match operator {
                        UnaryOperator::Negate => match signed_suffix(nodes, operand) {
                            Some(target) => negated_magnitude(value, target, 64),
                            None => if value == 0 {
                                Ok(0)
                            } else {
                                Err(ConstEvalError::Overflow)
                            },
                        },
                        UnaryOperator::Not => if boolean_form(nodes, operand, depth + 1) {
                            Ok(truth(value == 0))
                        } else {
                            Ok(!value)
                        },
                        _ => Err(ConstEvalError::InvalidExpressionTree),
                    },
                },
                Form::Binary { operator, left, right } => match evaluation(
                    nodes,
                    resolver,
                    left,
                    depth + 1,
                ) {
                    Err(error) => Err(error),
                    Ok(first) => if operator == BinaryOperator::LogicalAnd && first == 0 {
                        Ok(0)
                    } else if operator == BinaryOperator::LogicalOr && first != 0 {
                        Ok(1)
                    } else {
                        match evaluation(nodes, resolver, right, depth + 1) {
                            Err(error) => Err(error),
                            Ok(second) => binary_value(operator, first, second),
                        }
                    },
                },
                Form::If { condition, then_branch, else_branch } => match evaluation(
                    nodes,
                    resolver,
                    condition,
                    depth + 1,
                ) {
                    Err(error) => Err(error),
                    Ok(value) => if value != 0 {
                        evaluation(nodes, resolver, then_branch, depth + 1)
                    } else {
                        evaluation(nodes, resolver, else_branch, depth + 1)
                    },
                },
                Form::LoopBreakIf { condition, then_branch, else_branch } => match evaluation(
                    nodes,
                    resolver,
                    condition,
                    depth + 1,
                ) {
                    Err(error) => Err(error),
                    Ok(value) => if value != 0 {
                        evaluation(nodes, resolver, then_branch, depth + 1)
                    } else {
                        evaluation(nodes, resolver, else_branch, depth + 1)
                    },
                },
                Form::Return { operand } => evaluation(nodes, resolver, operand, depth + 1),
                Form::LoopBreak { operand } => evaluation(nodes, resolver, operand, depth + 1),
                Form::InlineConst { operand } => evaluation(nodes, resolver, operand, depth + 1),
                Form::Sequence { first, then } => match evaluation(
                    nodes,
                    resolver,
                    first,
                    depth + 1,
                ) {
                    Err(error) => Err(error),
                    Ok(_) => evaluation(nodes, resolver, then, depth + 1),
                },
                Form::Index { base, index } => match evaluation(
                    nodes,
                    resolver,
                    index,
                    depth + 1,
                ) {
                    Err(error) => Err(error),
                    Ok(value) => element_evaluation(nodes, resolver, base, value, depth + 1),
                },
                _ => Err(ConstEvalError::InvalidExpressionTree),
            },
        }
    }
}

/// The values of the first `count` of the expressions `ids`, in order.
pub open spec fn evaluations<R: ConstantResolver>(
    nodes: Seq<Option<Node>>,
    resolver: &R,
    ids: Seq<Option<ExprId>>,
    count: int,
    depth: int,
) -> Result<Seq<u128>, ConstEvalError>
    decreases MAX_EXPRESSION_DEPTH - depth, count,
{
    if count <= 0 {
        Ok(seq![])
    } else {
        match evaluations(nodes, resolver, ids, count - 1, depth) {
            Err(error) => Err(error),
            Ok(values) => match ids[count - 1] {
                None => Err(ConstEvalError::InvalidExpressionTree),
                Some(id) => match evaluation(nodes, resolver, id, depth) {
                    Err(error) => Err(error),
                    Ok(value) => Ok(values.push(value)),
                },
            },
        }
    }
}

/// The element with the number `index` of the array expression `id`. All
/// elements of the array that is chosen are evaluated.
pub open spec fn element_evaluation<R: ConstantResolver>(
    nodes: Seq<Option<Node>>,
    resolver: &R,
    id: ExprId,
    index: u128,
    depth: int,
) -> Result<u128, ConstEvalError>
    decreases MAX_EXPRESSION_DEPTH - depth, 0int,
{
    if depth >= MAX_EXPRESSION_DEPTH {
        Err(ConstEvalError::NestingLimitExceeded)
    } else {
        match node_at(nodes, id) {
            None => Err(ConstEvalError::InvalidExpressionTree),
            Some(node) => match node.form {
                Form::DefaultValue => Ok(0),
                Form::Array { elements, element_count } => if element_count > MAX_ARRAY_ELEMENTS {
                    Err(ConstEvalError::InvalidExpressionTree)
                } else if index >= element_count {
                    Err(ConstEvalError::ArrayIndexOutOfBounds)
                } else {
                    match evaluations(nodes, resolver, elements, element_count as int, depth + 1) {
                        Err(error) => Err(error),
                        Ok(values) => Ok(values[index as int]),
                    }
                },
                Form::ArrayRepeat { element, count } => if index >= count {
                    Err(ConstEvalError::ArrayIndexOutOfBounds)
                } else {
                    evaluation(nodes, resolver, element, depth + 1)
                },
                Form::If { condition, then_branch, else_branch } => match evaluation(
                    nodes,
                    resolver,
                    condition,
                    depth + 1,
                ) {
                    Err(error) => Err(error),
                    Ok(value) => if value != 0 {
                        element_evaluation(nodes, resolver, then_branch, index, depth + 1)
                    } else {
                        element_evaluation(nodes, resolver, else_branch, index, depth + 1)
                    },
                },
                Form::LoopBreakIf { condition, then_branch, else_branch } => match evaluation(
                    nodes,
                    resolver,
                    condition,
                    depth + 1,
                ) {
                    Err(error) => Err(error),
                    Ok(value) => if value != 0 {
                        element_evaluation(nodes, resolver, then_branch, index, depth + 1)
                    } else {
                        element_evaluation(nodes, resolver, else_branch, index, depth + 1)
                    },
                },
                Form::InlineConst { operand } => element_evaluation(
                    nodes,
                    resolver,
                    operand,
                    index,
                    depth + 1,
                ),
                Form::LoopBreak { operand } => element_evaluation(
                    nodes,
                    resolver,
                    operand,
                    index,
                    depth + 1,
                ),
                Form::Return { operand } => element_evaluation(
                    nodes,
                    resolver,
                    operand,
                    index,
                    depth + 1,
                ),
                Form::Sequence { first, then } => match evaluation(
                    nodes,
                    resolver,
                    first,
                    depth + 1,
                ) {
                    Err(error) => Err(error),
                    Ok(_) => element_evaluation(nodes, resolver, then, index, depth + 1),
                },
                _ => Err(ConstEvalError::InvalidExpressionTree),
            },
        }
    }
}

/// A bound of a range pattern as far as its place in an order is known.
#[derive(Clone, Copy, Debug, PartialEq, Eq, Structural)]
pub enum PatternOrderValue {
    Unsigned(u128),
    Signed(i128),
    Character(u32),
}

#[derive(Clone, Copy, Debug, PartialEq, Eq, Structural)]
pub enum PatternOrder {
    Less,
    Equal,
    Greater,
}

/// The number that a bound stands for, and whether it is a character.
pub open spec fn bound_number(value: PatternOrderValue) -> (bool, int) {
    match value {
        PatternOrderValue::Unsigned(number) => (false, number as int),
        PatternOrderValue::Signed(number) => (false, number as int),
        PatternOrderValue::Character(number) => (true, number as int),
    }
}

/// The order of two bounds; a character and a number have none.
pub open spec fn bound_order(left: PatternOrderValue, right: PatternOrderValue) -> Option<
    PatternOrder,
> {
    let (left_character, left_number) = bound_number(left);
    let (right_character, right_number) = bound_number(right);
    if left_character != right_character {
        None
    } else if left_number < right_number {
        Some(PatternOrder::Less)
    } else if left_number == right_number {
        Some(PatternOrder::Equal)
    } else {
        Some(PatternOrder::Greater)
    }
}

/// Whether bounds in this order leave a range without a value.
pub open spec fn order_is_empty(order: PatternOrder, inclusive: bool) -> bool {
    if inclusive {
        order == PatternOrder::Greater
    } else {
        order != PatternOrder::Less
    }
}

impl PatternOrderValue {
    pub fn compare(self, other: Self) -> (result: Option<PatternOrder>)
        ensures
            result == bound_order(self, other),
    {
        match (self, other) {
            (PatternOrderValue::Unsigned(left), PatternOrderValue::Unsigned(right)) => {
                Some(order_unsigned(left, right))
            },
            (PatternOrderValue::Signed(left), PatternOrderValue::Signed(right)) => {
                if left < right {
                    Some(PatternOrder::Less)
                } else if left == right {
                    Some(PatternOrder::Equal)
                } else {
                    Some(PatternOrder::Greater)
                }
            },
            (PatternOrderValue::Signed(left), PatternOrderValue::Unsigned(right)) => {
                if left < 0 {
                    Some(PatternOrder::Less)
                } else {
                    Some(order_unsigned(left as u128, right))
                }
            },
            (PatternOrderValue::Unsigned(left), PatternOrderValue::Signed(right)) => {
                if right < 0 {
                    Some(PatternOrder::Greater)
                } else {
                    Some(order_unsigned(left, right as u128))
                }
            },
            (PatternOrderValue::Character(left), PatternOrderValue::Character(right)) => {
                Some(order_unsigned(left as u128, right as u128))
            },
            _ => None,
        }
    }
}

fn order_unsigned(left: u128, right: u128) -> (order: PatternOrder)
    ensures
        order == (if left < right {
            PatternOrder::Less
        } else if left == right {
            PatternOrder::Equal
        } else {
            PatternOrder::Greater
        }),
{
    if left < right {
        PatternOrder::Less
    } else if left == right {
        PatternOrder::Equal
    } else {
        PatternOrder::Greater
    }
}

pub fn order_leaves_nothing(order: PatternOrder, inclusive: bool) -> (result: bool)
    ensures
        result == order_is_empty(order, inclusive),
{
    if inclusive {
        order == PatternOrder::Greater
    } else {
        order != PatternOrder::Less
    }
}

/// The number that a literal with a minus sign before it stands for.
pub open spec fn negative_bound(value: u128) -> Option<i128> {
    if value <= 0x8000_0000_0000_0000_0000_0000_0000_0000u128 {
        Some((-(value as int)) as i128)
    } else {
        None
    }
}

pub fn negate_bound(value: u128) -> (result: Option<i128>)
    ensures
        result == negative_bound(value),
{
    if value > 0x8000_0000_0000_0000_0000_0000_0000_0000u128 {
        None
    } else if value == 0 {
        Some(0)
    } else {
        Some(-((value - 1) as i128) - 1)
    }
}

/// The place of a literal with a suffix, where its value fits the suffix's
/// signedness.
pub open spec fn literal_bound(value: u128, suffix: Option<Seq<char>>) -> Option<
    PatternOrderValue,
> {
    let signed = match suffix {
        Some(suffix) => match integer_type_named(suffix) {
            Some(ty) => integer_signed(ty),
            None => false,
        },
        None => false,
    };
    if !signed {
        Some(PatternOrderValue::Unsigned(value))
    } else if value <= i128::MAX {
        Some(PatternOrderValue::Signed(value as i128))
    } else {
        None
    }
}

pub fn order_literal(literal: IntegerLiteral) -> (result: Option<PatternOrderValue>)
    ensures
        result == literal_bound(literal.value, text_view(literal.suffix)),
{
    let signed = match literal.suffix {
        Some(suffix) => match IntegerType::from_name(suffix) {
            Some(ty) => ty.is_signed(),
            None => false,
        },
        None => false,
    };
    if !signed {
        Some(PatternOrderValue::Unsigned(literal.value))
    } else if literal.value <= 0x7fff_ffff_ffff_ffff_ffff_ffff_ffff_ffff {
        Some(PatternOrderValue::Signed(literal.value as i128))
    } else {
        None
    }
}

/// What is known of a range bound once names are resolved.
pub open spec fn resolved_bound<R: ConstantResolver>(
    nodes: Seq<Option<Node>>,
    resolver: &R,
    id: ExprId,
    pointer_bits: u8,
) -> Result<Option<PatternOrderValue>, ConstEvalError> {
    match node_at(nodes, id) {
        None => Err(ConstEvalError::InvalidExpressionTree),
        Some(node) => match node.form {
            Form::Integer { value, suffix } => Ok(literal_bound(value, suffix)),
            Form::Unary { operator: UnaryOperator::Negate, operand } => match node_at(
                nodes,
                operand,
            ) {
                Some(Node { form: Form::Integer { value, .. }, .. }) => match negative_bound(
                    value,
                ) {
                    Some(number) => Ok(Some(PatternOrderValue::Signed(number))),
                    None => Err(ConstEvalError::Overflow),
                },
                _ => Ok(None),
            },
            Form::Char(value) => Ok(Some(PatternOrderValue::Character(value))),
            Form::Bool(_) => Err(ConstEvalError::InvalidRangeType),
            Form::Identifier(name) => if resolver.bool_named(name) {
                Err(ConstEvalError::InvalidRangeType)
            } else {
                match (resolver.type_of(name), resolver.value_of(name)) {
                    (Some(ty), Some(value)) => if integer_signed(ty) {
                        match integer_bits(ty, pointer_bits) {
                            Some(bits) => Ok(
                                Some(PatternOrderValue::Signed(signed_number(value, bits) as i128)),
                            ),
                            None => Err(ConstEvalError::InvalidCast),
                        }
                    } else {
                        Ok(Some(PatternOrderValue::Unsigned(value)))
                    },
                    _ => Ok(None),
                }
            },
            _ => Ok(None),
        },
    }
}

/// Why a single range pattern cannot stand, if it cannot.
pub open spec fn range_failure<R: ConstantResolver>(
    nodes: Seq<Option<Node>>,
    resolver: &R,
    range: RangeValidation,
    pointer_bits: u8,
) -> Option<ConstEvalError> {
    match (range.start, range.end) {
        (Some(start), Some(end)) => match resolved_bound(nodes, resolver, start, pointer_bits) {
            Err(error) => Some(error),
            Ok(first) => match resolved_bound(nodes, resolver, end, pointer_bits) {
                Err(error) => Some(error),
                Ok(second) => match (first, second) {
                    (Some(first), Some(second)) => match bound_order(first, second) {
                        None => Some(ConstEvalError::InvalidRangeType),
                        Some(order) => if order_is_empty(order, range.inclusive) {
                            Some(ConstEvalError::InvalidRangeBounds)
                        } else {
                            None
                        },
                    },
                    _ => None,
                },
            },
        },
        _ => None,
    }
}

/// The failure of the first range pattern from `from` on that cannot stand.
pub open spec fn ranges_failure<R: ConstantResolver>(
    tree: Tree,
    resolver: &R,
    pointer_bits: u8,
    from: int,
) -> Option<ConstEvalError>
    decreases tree.ranges.len() - from,
{
    if from < 0 || from >= tree.ranges.len() {
        None
    } else {
        match range_failure(tree.nodes, resolver, tree.ranges[from], pointer_bits) {
            Some(error) => Some(error),
            None => ranges_failure(tree, resolver, pointer_bits, from + 1),
        }
    }
}

/// What a whole tree stands for: its range patterns are checked first.
pub open spec fn tree_evaluation<R: ConstantResolver>(tree: Tree, resolver: &R) -> Result<
    u128,
    ConstEvalError,
> {
    match ranges_failure(tree, resolver, 64, 0) {
        Some(error) => Err(error),
        None => evaluation(tree.nodes, resolver, tree.root, 0),
    }
}

impl<'source, const MAX_NODES: usize> ExpressionTree<'source, MAX_NODES> {
    pub fn nodes(&self) -> (result: &[Option<Expr<'source>>])
        ensures
            result@ == self.nodes@,
    {
        self.nodes.as_slice()
    }

    pub fn root(&self) -> (result: ExprId)
        ensures
            result == self.root,
    {
        self.root
    }

    pub fn range_validations(&self) -> (result: &[RangeValidation])
        ensures
            result@ == self.range_validations@,
    {
        self.range_validations.as_slice()
    }

    pub fn expression(&self, id: ExprId) -> (result: Option<&Expr<'source>>)
        ensures
            match result {
                Some(expression) => node_at(self@.nodes, id) == Some(expression@) && id.0
                    < self.nodes.len() && self.nodes[id.0 as int] == Some(*expression),
                None => node_at(self@.nodes, id) is None,
            },
    {
        if id.0 < self.nodes.len() {
            match &self.nodes[id.0] {
                Some(expression) => Some(expression),
                None => None,
            }
        } else {
            None
        }
    }

    pub fn is_boolean_expression(&self, id: ExprId, depth: usize) -> (result: bool)
        ensures
            result == boolean_form(self@.nodes, id, depth as int),
        decreases room(depth as int),
    {
        if refuses_level(depth) {
            return false;
        }
        let expression: &Expr<'source> = match self.expression(id) {
            Some(expression) => expression,
            None => return false,
        };
        match expression.kind {
            ExprKind::Bool(_) | ExprKind::SliceIsEmpty { .. } | ExprKind::StrIsCharBoundary {
                ..
            } => true,
            ExprKind::Ascribe { operand, target: ScalarType::Bool } => {
                self.is_boolean_expression(operand, depth + 1)
            },
            ExprKind::Sequence { then, .. } => self.is_boolean_expression(then, depth + 1),
            ExprKind::If { then_branch, else_branch, .. }
            | ExprKind::LoopBreakIf { then_branch, else_branch, .. } => {
                self.is_boolean_expression(then_branch, depth + 1) && self.is_boolean_expression(
                    else_branch,
                    depth + 1,
                )
            },
            ExprKind::Return { operand }
            | ExprKind::LoopBreak { operand }
            | ExprKind::InlineConst { operand } => self.is_boolean_expression(operand, depth + 1),
            ExprKind::Unary { operator: UnaryOperator::Not, operand } => {
                self.is_boolean_expression(operand, depth + 1)
            },
            ExprKind::Binary { operator, .. } => {
                match operator {
                    BinaryOperator::LogicalOr
                    | BinaryOperator::LogicalAnd
                    | BinaryOperator::Equal
                    | BinaryOperator::NotEqual
                    | BinaryOperator::Less
                    | BinaryOperator::LessEqual
                    | BinaryOperator::Greater
                    | BinaryOperator::GreaterEqual => true,
                    _ => false,
                }
            },
            _ => false,
        }
    }

    /// The signed type that the suffix of the literal `id` names.
    pub fn signed_literal_type(&self, id: ExprId) -> (result: Option<IntegerType>)
        ensures
            result == signed_suffix(self@.nodes, id),
    {
        let expression: &Expr<'source> = match self.expression(id) {
            Some(expression) => expression,
            None => return None,
        };
        match expression.kind {
            ExprKind::Integer(IntegerLiteral { suffix: Some(suffix), .. }) => {
                match IntegerType::from_name(suffix) {
                    Some(ty) => {
                        if ty.is_signed() {
                            Some(ty)
                        } else {
                            None
                        }
                    },
                    None => None,
                }
            },
            _ => None,
        }
    }

    pub fn evaluate<R: ConstantResolver>(&self, resolver: &R) -> (result: Result<
        u128,
        ConstEvalError,
    >)
        ensures
            result == tree_evaluation(self@, resolver),
    {
        self.validate_ranges(resolver, 64)?;
        self.evaluate_node(self.root, resolver, 0)
    }

    pub fn evaluate_at<R: ConstantResolver>(&self, id: ExprId, resolver: &R) -> (result: Result<
        u128,
        ConstEvalError,
    >)
        ensures
            result == evaluation(self@.nodes, resolver, id, 0),
    {
        self.evaluate_node(id, resolver, 0)
    }

    pub fn validate_ranges<R: ConstantResolver>(&self, resolver: &R, pointer_bits: u8) -> (result:
        Result<(), ConstEvalError>)
        ensures
            match result {
                Ok(()) => ranges_failure(self@, resolver, pointer_bits, 0) is None,
                Err(error) => ranges_failure(self@, resolver, pointer_bits, 0) == Some(error),
            },
    {
        let mut index: usize = 0;
        while index < self.range_validations.len()
            invariant
                index <= self.range_validations.len(),
                ranges_failure(self@, resolver, pointer_bits, 0) == ranges_failure(
                    self@,
                    resolver,
                    pointer_bits,
                    index as int,
                ),
            decreases self.range_validations.len() - index,
        {
            let validation: RangeValidation = self.range_validations[index];
            if let (Some(start), Some(end)) = (validation.start, validation.end) {
                let first = self.resolved_pattern_order_value(start, resolver, pointer_bits)?;
                let second = self.resolved_pattern_order_value(end, resolver, pointer_bits)?;
                if let (Some(first), Some(second)) = (first, second) {
                    match first.compare(second) {
                        None => return Err(ConstEvalError::InvalidRangeType),
                        Some(order) => {
                            if order_leaves_nothing(order, validation.inclusive) {
                                return Err(ConstEvalError::InvalidRangeBounds);
                            }
                        },
                    }
                }
            }
            index += 1;
        }
        Ok(())
    }

    fn resolved_pattern_order_value<R: ConstantResolver>(
        &self,
        id: ExprId,
        resolver: &R,
        pointer_bits: u8,
    ) -> (result: Result<Option<PatternOrderValue>, ConstEvalError>)
        ensures
            result == resolved_bound(self@.nodes, resolver, id, pointer_bits),
    {
        let expression: &Expr<'source> = match self.expression(id) {
            Some(expression) => expression,
            None => return Err(ConstEvalError::InvalidExpressionTree),
        };
        match expression.kind {
            ExprKind::Integer(literal) => Ok(order_literal(literal)),
            ExprKind::Unary { operator: UnaryOperator::Negate, operand } => {
                let operand: &Expr<'source> = match self.expression(operand) {
                    Some(operand) => operand,
                    None => return Ok(None),
                };
                match operand.kind {
                    ExprKind::Integer(literal) => match negate_bound(literal.value) {
                        Some(number) => Ok(Some(PatternOrderValue::Signed(number))),
                        None => Err(ConstEvalError::Overflow),
                    },
                    _ => Ok(None),
                }
            },
            ExprKind::Char(value) => Ok(Some(PatternOrderValue::Character(value))),
            ExprKind::Bool(_) => Err(ConstEvalError::InvalidRangeType),
            ExprKind::Identifier(name) => {
                if resolver.resolves_bool(name) {
                    return Err(ConstEvalError::InvalidRangeType);
                }
                match (resolver.resolve_type(name), resolver.resolve(name)) {
                    (Some(ty), Some(value)) => {
                        if ty.is_signed() {
                            match ty.bits(pointer_bits) {
                                Some(bits) => Ok(
                                    Some(PatternOrderValue::Signed(read_signed(value, bits))),
                                ),
                                None => Err(ConstEvalError::InvalidCast),
                            }
                        } else {
                            Ok(Some(PatternOrderValue::Unsigned(value)))
                        }
                    },
                    _ => Ok(None),
                }
            },
            _ => Ok(None),
        }
    }

    fn evaluate_node<R: ConstantResolver>(&self, id: ExprId, resolver: &R, depth: usize) -> (result:
        Result<u128, ConstEvalError>)
        ensures
            result == evaluation(self@.nodes, resolver, id, depth as int),
        decreases MAX_EXPRESSION_DEPTH - depth, 0int,
    {
        if depth >= MAX_EXPRESSION_DEPTH {
            return Err(ConstEvalError::NestingLimitExceeded);
        }
        let expression: &Expr<'source> = match self.expression(id) {
            Some(expression) => expression,
            None => return Err(ConstEvalError::InvalidExpressionTree),
        };
        match expression.kind {
            ExprKind::Unit | ExprKind::DefaultValue => Ok(0),
            ExprKind::Integer(literal) => Ok(literal.value),
            ExprKind::Bool(value) => if value {
                Ok(1)
            } else {
                Ok(0)
            },
            ExprKind::Char(value) => Ok(value as u128),
            ExprKind::Identifier(name) => match resolver.resolve(name) {
                Some(value) => Ok(value),
                None => Err(ConstEvalError::UnknownIdentifier),
            },
            ExprKind::Call { callee, arguments, argument_count } => {
                if argument_count > MAX_CALL_ARGUMENTS {
                    return Err(ConstEvalError::InvalidExpressionTree);
                }
                let values: Vec<u128> = self.evaluate_all(
                    arguments.as_slice(),
                    argument_count,
                    resolver,
                    depth + 1,
                )?;
                match resolver.resolve_call(callee, values.as_slice()) {
                    Some(value) => Ok(value),
                    None => Err(ConstEvalError::UnsupportedCall),
                }
            },
            ExprKind::Cast { operand, target } => {
                let value: u128 = self.evaluate_node(operand, resolver, depth + 1)?;
                cast_integer(value, target, 64)
            },
            ExprKind::Ascribe { operand, target } => {
                let value: u128 = self.evaluate_node(operand, resolver, depth + 1)?;
                match target {
                    ScalarType::Integer(target) => ascribe_integer(value, target, 64),
                    ScalarType::Bool => {
                        if self.is_boolean_expression(operand, depth + 1) {
                            if value != 0 {
                                Ok(1)
                            } else {
                                Ok(0)
                            }
                        } else {
                            Err(ConstEvalError::InvalidCast)
                        }
                    },
                }
            },
            ExprKind::Unary { operator, operand } => {
                let value: u128 = self.evaluate_node(operand, resolver, depth + 1)?;
                match operator {
                    UnaryOperator::Negate => match self.signed_literal_type(operand) {
                        Some(target) => negate_signed_magnitude(value, target, 64),
                        None => {
                            if value == 0 {
                                Ok(0)
                            } else {
                                Err(ConstEvalError::Overflow)
                            }
                        },
                    },
                    UnaryOperator::Not => {
                        if self.is_boolean_expression(operand, depth + 1) {
                            if value == 0 {
                                Ok(1)
                            } else {
                                Ok(0)
                            }
                        } else {
                            Ok(!value)
                        }
                    },
                    _ => Err(ConstEvalError::InvalidExpressionTree),
                }
            },
            ExprKind::Binary { operator, left, right } => {
                let first: u128 = self.evaluate_node(left, resolver, depth + 1)?;
                if operator == BinaryOperator::LogicalAnd && first == 0 {
                    return Ok(0);
                }
                if operator == BinaryOperator::LogicalOr && first != 0 {
                    return Ok(1);
                }
                let second: u128 = self.evaluate_node(right, resolver, depth + 1)?;
                evaluate_binary(operator, first, second)
            },
            ExprKind::If { condition, then_branch, else_branch }
            | ExprKind::LoopBreakIf { condition, then_branch, else_branch } => {
                let value: u128 = self.evaluate_node(condition, resolver, depth + 1)?;
                if value != 0 {
                    self.evaluate_node(then_branch, resolver, depth + 1)
                } else {
                    self.evaluate_node(else_branch, resolver, depth + 1)
                }
            },
            ExprKind::Return { operand }
            | ExprKind::LoopBreak { operand }
            | ExprKind::InlineConst { operand } => self.evaluate_node(operand, resolver, depth + 1),
            ExprKind::Sequence { first, then } => {
                self.evaluate_node(first, resolver, depth + 1)?;
                self.evaluate_node(then, resolver, depth + 1)
            },
            ExprKind::Index { base, index } => {
                let value: u128 = self.evaluate_node(index, resolver, depth + 1)?;
                self.evaluate_element(base, value, resolver, depth + 1)
            },
            _ => Err(ConstEvalError::InvalidExpressionTree),
        }
    }

    /// Evaluates the first `count` of the expressions `ids`, in order.
    fn evaluate_all<R: ConstantResolver>(
        &self,
        ids: &[Option<ExprId>],
        count: usize,
        resolver: &R,
        depth: usize,
    ) -> (result: Result<Vec<u128>, ConstEvalError>)
        requires
            count <= ids@.len(),
            depth <= MAX_EXPRESSION_DEPTH,
        ensures
            match result {
                Ok(values) => evaluations(self@.nodes, resolver, ids@, count as int, depth as int)
                    == Ok::<Seq<u128>, ConstEvalError>(values@) && values@.len() == count,
                Err(error) => evaluations(self@.nodes, resolver, ids@, count as int, depth as int)
                    == Err::<Seq<u128>, ConstEvalError>(error),
            },
        decreases MAX_EXPRESSION_DEPTH - depth, 1 + count,
    {
        if count == 0 {
            return Ok(Vec::new());
        }
        let mut values: Vec<u128> = self.evaluate_all(ids, count - 1, resolver, depth)?;
        match ids[count - 1] {
            None => Err(ConstEvalError::InvalidExpressionTree),
            Some(id) => {
                let value: u128 = self.evaluate_node(id, resolver, depth)?;
                values.push(value);
                Ok(values)
            },
        }
    }

    /// Evaluates the element with the number `index` of the array `id`.
    fn evaluate_element<R: ConstantResolver>(
        &self,
        id: ExprId,
        index: u128,
        resolver: &R,
        depth: usize,
    ) -> (result: Result<u128, ConstEvalError>)
        ensures
            result == element_evaluation(self@.nodes, resolver, id, index, depth as int),
        decreases MAX_EXPRESSION_DEPTH - depth, 0int,
    {
        if depth >= MAX_EXPRESSION_DEPTH {
            return Err(ConstEvalError::NestingLimitExceeded);
        }
        let expression: &Expr<'source> = match self.expression(id) {
            Some(expression) => expression,
            None => return Err(ConstEvalError::InvalidExpressionTree),
        };
        match expression.kind {
            ExprKind::DefaultValue => Ok(0),
            ExprKind::Array { elements, element_count } => {
                if element_count > MAX_ARRAY_ELEMENTS {
                    return Err(ConstEvalError::InvalidExpressionTree);
                }
                if index >= element_count as u128 {
                    return Err(ConstEvalError::ArrayIndexOutOfBounds);
                }
                let values: Vec<u128> = self.evaluate_all(
                    elements.as_slice(),
                    element_count,
                    resolver,
                    depth + 1,
                )?;
                Ok(values[index as usize])
            },
            ExprKind::ArrayRepeat { element, count } => {
                if index >= count as u128 {
                    return Err(ConstEvalError::ArrayIndexOutOfBounds);
                }
                self.evaluate_node(element, resolver, depth + 1)
            },
            ExprKind::If { condition, then_branch, else_branch }
            | ExprKind::LoopBreakIf { condition, then_branch, else_branch } => {
                let value: u128 = self.evaluate_node(condition, resolver, depth + 1)?;
                if value != 0 {
                    self.evaluate_element(then_branch, index, resolver, depth + 1)
                } else {
                    self.evaluate_element(else_branch, index, resolver, depth + 1)
                }
            },
            ExprKind::Return { operand }
            | ExprKind::LoopBreak { operand }
            | ExprKind::InlineConst { operand } => {
                self.evaluate_element(operand, index, resolver, depth + 1)
            },
            ExprKind::Sequence { first, then } => {
                self.evaluate_node(first, resolver, depth + 1)?;
                self.evaluate_element(then, index, resolver, depth + 1)
            },
            _ => Err(ConstEvalError::InvalidExpressionTree),
        }
    }
}

} // verus!
