//! Functions as they come from a module: signatures, statements and the texts of expressions.
use crate::token::Span;
use vstd::prelude::*;

verus! {

#[derive(Clone, Copy, Debug, PartialEq, Eq, Structural)]
pub enum FunctionAbi {
    Rust,
    C,
}

/// Why the body of a function cannot be read.
#[derive(Clone, Copy, Debug, PartialEq, Eq, Structural)]
pub enum ParseErrorKind {
    ExpectedBody,
    ExpectedIdentifier,
    ExpectedEquals,
    ExpectedSemicolon,
    ExpectedExpression,
    ExpectedCondition,
    UnsupportedStatement,
    TooManyStatements,
}

#[derive(Clone, Copy, Debug, PartialEq, Eq, Structural)]
pub struct ParseError {
    pub kind: ParseErrorKind,
    pub span: Span,
}

/// A type as it is written.
#[derive(Clone, Copy, Debug, PartialEq, Eq)]
pub struct TypeRef<'source> {
    pub text: &'source str,
    pub span: Span,
}

#[derive(Clone, Copy, Debug, PartialEq, Eq)]
pub struct Parameter<'source> {
    pub name: &'source str,
    pub ty: TypeRef<'source>,
}

#[derive(Clone, Copy, Debug, PartialEq, Eq, Structural)]
pub enum AssignmentOperator {
    Assign,
    Add,
    Subtract,
    Multiply,
    Divide,
    Remainder,
    BitAnd,
    BitOr,
    BitXor,
    ShiftLeft,
    ShiftRight,
}

/// A `let` statement.
#[derive(Clone, Copy, Debug, PartialEq, Eq)]
pub struct LocalBinding<'source> {
    pub name: &'source str,
    pub name_span: Span,
    pub ty: Option<TypeRef<'source>>,
    pub mutable: bool,
    pub initializer: &'source str,
    pub initializer_span: Span,
}

/// The index of an assignment to an element.
#[derive(Clone, Copy, Debug, PartialEq, Eq)]
pub struct AssignmentIndex<'source> {
    pub index: &'source str,
    pub span: Span,
}

/// An assignment to a name, to an element of it or to what it leads to.
#[derive(Clone, Copy, Debug, PartialEq, Eq)]
pub struct Assignment<'source> {
    pub name: &'source str,
    pub name_span: Span,
    pub operator: AssignmentOperator,
    pub value: &'source str,
    pub value_span: Span,
    pub index: Option<AssignmentIndex<'source>>,
    pub dereference: bool,
}

/// An expression whose value is not used.
#[derive(Clone, Copy, Debug, PartialEq, Eq)]
pub struct ExpressionStatement<'source> {
    pub expression: &'source str,
    pub span: Span,
}

/// A `return` with its value.
#[derive(Clone, Copy, Debug, PartialEq, Eq)]
pub struct LoopReturn<'source> {
    pub value: &'source str,
    pub value_span: Span,
}

/// A `return` that a condition guards.
#[derive(Clone, Copy, Debug, PartialEq, Eq)]
pub struct ConditionalReturn<'source> {
    pub condition: &'source str,
    pub condition_span: Span,
    pub value: &'source str,
    pub value_span: Span,
}

/// A chain of conditions, each of which returns.
#[derive(Debug, PartialEq, Eq)]
pub struct ConditionalReturnElse<'source> {
    pub branches: Vec<ConditionalReturn<'source>>,
    pub else_value: Option<LoopReturn<'source>>,
}

/// A statement under a condition.
#[derive(Clone, Copy, Debug, PartialEq, Eq)]
pub enum ConditionalAssignmentAction<'source> {
    Local(LocalBinding<'source>),
    Assignment(Assignment<'source>),
    Expression(ExpressionStatement<'source>),
    Return(LoopReturn<'source>),
}

#[derive(Debug, PartialEq, Eq)]
pub struct ConditionalAssignmentBranch<'source> {
    pub condition: &'source str,
    pub condition_span: Span,
    pub actions: Vec<ConditionalAssignmentAction<'source>>,
}

/// A chain of conditions with statements.
#[derive(Debug, PartialEq, Eq)]
pub struct ConditionalAssignment<'source> {
    pub branches: Vec<ConditionalAssignmentBranch<'source>>,
    pub else_actions: Vec<ConditionalAssignmentAction<'source>>,
}

/// A condition that guards a way out of a loop.
#[derive(Clone, Copy, Debug, PartialEq, Eq)]
pub struct ConditionalLoopControl<'source> {
    pub condition: &'source str,
    pub condition_span: Span,
}

/// How a block under a condition in a loop ends.
#[derive(Clone, Copy, Debug, PartialEq, Eq)]
pub enum ConditionalLoopTerminal<'source> {
    Break,
    Continue,
    Return(LoopReturn<'source>),
}

/// A statement of a block in a loop.
#[derive(Clone, Copy, Debug, PartialEq, Eq)]
pub enum ConditionalLoopAction<'source> {
    Local(LocalBinding<'source>),
    Assignment(Assignment<'source>),
    Expression(ExpressionStatement<'source>),
}

/// An `else` of a block in a loop; the last one may have no condition.
#[derive(Debug, PartialEq, Eq)]
pub struct ConditionalLoopElseArm<'source> {
    pub condition: Option<ConditionalLoopControl<'source>>,
    pub actions: Vec<ConditionalLoopAction<'source>>,
    pub terminal: Option<ConditionalLoopTerminal<'source>>,
}

/// A block under a condition in a loop.
#[derive(Debug, PartialEq, Eq)]
pub struct ConditionalLoopBlock<'source> {
    pub condition: &'source str,
    pub condition_span: Span,
    pub actions: Vec<ConditionalLoopAction<'source>>,
    pub terminal: Option<ConditionalLoopTerminal<'source>>,
    pub else_arms: Vec<ConditionalLoopElseArm<'source>>,
}

/// The loop that a way out of a nested loop belongs to.
#[derive(Clone, Copy, Debug, PartialEq, Eq, Structural)]
pub enum NestedLoopControlTarget {
    Inner,
    Outer,
}

#[derive(Clone, Copy, Debug, PartialEq, Eq)]
pub enum NestedLoopUnconditionalControl<'source> {
    Break(NestedLoopControlTarget),
    Continue(NestedLoopControlTarget),
    Return(LoopReturn<'source>),
}

/// Where a way out of a nested loop stands: before which statement, and as which of those there.
#[derive(Clone, Copy, Debug, PartialEq, Eq, Structural)]
pub struct NestedLoopPlace {
    pub action_index: usize,
    pub control_order: usize,
}

#[derive(Clone, Copy, Debug, PartialEq, Eq)]
pub struct PlacedUnconditionalControl<'source> {
    pub control: NestedLoopUnconditionalControl<'source>,
    pub place: NestedLoopPlace,
}

#[derive(Clone, Copy, Debug, PartialEq, Eq)]
pub struct PlacedConditionalControl<'source> {
    pub control: ConditionalLoopControl<'source>,
    pub target: NestedLoopControlTarget,
    pub place: NestedLoopPlace,
}

#[derive(Clone, Copy, Debug, PartialEq, Eq)]
pub struct PlacedConditionalReturn<'source> {
    pub conditional: ConditionalReturn<'source>,
    pub place: NestedLoopPlace,
}

/// A loop in a loop.
#[derive(Debug, PartialEq, Eq)]
pub struct NestedLoopBlock<'source> {
    pub entry_condition: Option<ConditionalLoopControl<'source>>,
    pub actions: Vec<ConditionalLoopAction<'source>>,
    pub unconditional_controls: Vec<PlacedUnconditionalControl<'source>>,
    pub conditional_breaks: Vec<PlacedConditionalControl<'source>>,
    pub conditional_returns: Vec<PlacedConditionalReturn<'source>>,
    pub conditional_continues: Vec<PlacedConditionalControl<'source>>,
}

/// A statement of a loop.
#[derive(Debug, PartialEq, Eq)]
pub enum LoopOperation<'source> {
    Local(LocalBinding<'source>),
    Assignment(Assignment<'source>),
    Expression(ExpressionStatement<'source>),
    NestedUnitLoop,
    NestedBlock(NestedLoopBlock<'source>),
    ConditionalBlock(ConditionalLoopBlock<'source>),
    ConditionalBreak(ConditionalLoopControl<'source>),
    ConditionalContinue(ConditionalLoopControl<'source>),
    ConditionalReturn(ConditionalReturn<'source>),
    Break,
    Continue,
    Return(LoopReturn<'source>),
}

/// A loop; without a condition it goes on until something leaves it.
#[derive(Debug, PartialEq, Eq)]
pub struct WhileLoop<'source> {
    pub condition: Option<ConditionalLoopControl<'source>>,
    pub operations: Vec<LoopOperation<'source>>,
}

/// A statement of a body; the loops stand in a list of their own.
#[derive(Debug, PartialEq, Eq)]
pub enum BodyStatement<'source> {
    Loop,
    Local(LocalBinding<'source>),
    Assignment(Assignment<'source>),
    ConditionalReturn(ConditionalReturn<'source>),
    ConditionalReturnElse(ConditionalReturnElse<'source>),
    ConditionalAssignment(ConditionalAssignment<'source>),
    Expression(ExpressionStatement<'source>),
    Return(LoopReturn<'source>),
}

/// The body of a function. Its spans count from where the body begins.
#[derive(Debug, PartialEq, Eq)]
pub struct FunctionBody<'source> {
    pub statements: Vec<BodyStatement<'source>>,
    pub while_loops: Vec<WhileLoop<'source>>,
    pub tail: &'source str,
    pub tail_span: Span,
    pub tail_diverges: bool,
}

/// A function; `MAX_PARAMETERS` is how many locals may be alive in it.
#[derive(Debug, PartialEq, Eq)]
pub struct Function<'source, const MAX_PARAMETERS: usize> {
    pub public: bool,
    pub abi: FunctionAbi,
    pub no_mangle: bool,
    pub name_span: Span,
    pub parameters: Vec<Parameter<'source>>,
    pub return_type: Option<TypeRef<'source>>,
    pub body_expression_span: Span,
    pub body: Result<FunctionBody<'source>, ParseError>,
}

} // verus!
