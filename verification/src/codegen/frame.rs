//! What stays the same while the code of a function is made.
use crate::codegen::error::CodegenErrorKind;
use crate::codegen::runtime::{
    RuntimeExpressionType, stack_slots,
};
use crate::expression::{
    ConstantResolver, ExprId, ExprKind, ExpressionError, ExpressionTree, Form, Tree,
    evaluation, node_at, ranges_failure,
};
use crate::function::{
    Function, Parameter,
};
use crate::grammar::expression_tree;
use crate::integer::ConstEvalError;
use crate::ir::ExecutionError;
use crate::token::Span;
use crate::text::same_text;
use crate::parser::root::ExpressionParser;
use vstd::prelude::*;

verus! {

/// How parameters and results are passed.
#[derive(Clone, Copy, Debug, PartialEq, Eq, Structural)]
pub enum X86_64Abi {
    SystemV,
    Windows,
}

/// What the code does beside its work.
#[derive(Clone, Copy, Debug, PartialEq, Eq, Structural)]
pub struct CodegenOptions {
    /// Whether arithmetic that leaves its type stops the program.
    pub overflow_checks: bool,
}

impl CodegenOptions {
    /// Arithmetic that leaves its type stops the program.
    pub fn checked() -> (result: CodegenOptions)
        ensures
            result.overflow_checks,
    {
        CodegenOptions { overflow_checks: true }
    }

    /// Arithmetic that leaves its type wraps around.
    pub fn wrapping() -> (result: CodegenOptions)
        ensures
            !result.overflow_checks,
    {
        CodegenOptions { overflow_checks: false }
    }
}

/// The function and the rules that its code follows.
///
/// `MAX_PARAMETERS` is how many locals may be alive, `MAX_NODES` how many nodes a tree may have.
pub struct Frame<'a, 'source, R: ConstantResolver, const MAX_PARAMETERS: usize, const MAX_NODES: usize> {
    pub function: &'a Function<'source, MAX_PARAMETERS>,
    pub resolver: &'a R,
    pub abi: X86_64Abi,
    /// Whether the caller hands over the address of the result.
    pub uses_sret: bool,
    /// How many stack slots the parameters take.
    pub saved_parameter_slots: usize,
}

/// A local that lives on the stack.
#[derive(Clone, Copy, Debug, PartialEq, Eq)]
pub struct RuntimeLocal<'source> {
    pub name: &'source str,
    pub ty: RuntimeExpressionType,
    pub mutable: bool,
    pub stack_slots: usize,
}

/// A local as the contracts speak of it.
pub ghost struct LocalModel {
    pub name: Seq<char>,
    pub ty: RuntimeExpressionType,
    pub mutable: bool,
    pub stack_slots: usize,
}

impl<'source> View for RuntimeLocal<'source> {
    type V = LocalModel;

    open spec fn view(&self) -> LocalModel {
        LocalModel {
            name: self.name@,
            ty: self.ty,
            mutable: self.mutable,
            stack_slots: self.stack_slots,
        }
    }
}

pub open spec fn local_models(locals: Seq<RuntimeLocal>) -> Seq<LocalModel> {
    locals.map_values(|local: RuntimeLocal| local@)
}

/// The last local of a name among the first `count`.
pub open spec fn local_below(locals: Seq<LocalModel>, name: Seq<char>, count: int) -> Option<usize>
    decreases count,
{
    if count <= 0 {
        None
    } else if locals[count - 1].name == name {
        Some((count - 1) as usize)
    } else {
        local_below(locals, name, count - 1)
    }
}

/// The local that a name stands for.
#[verifier::opaque]
pub open spec fn local_named(locals: Seq<LocalModel>, name: Seq<char>) -> Option<usize> {
    local_below(locals, name, locals.len() as int)
}

pub fn find_local(locals: &Vec<RuntimeLocal>, name: &str) -> (result: Option<usize>)
    ensures
        result == local_named(local_models(locals@), name@),
        result matches Some(index) ==> index < locals@.len(),
{
    proof {
        reveal(local_named);
    }
    let mut count: usize = locals.len();
    while count > 0
        invariant
            count <= locals@.len(),
            local_named(local_models(locals@), name@) == local_below(
                local_models(locals@),
                name@,
                count as int,
            ),
        decreases count,
    {
        if same_text(locals[count - 1].name, name) {
            return Some(count - 1);
        }
        count = count - 1;
    }
    None
}

/// The first parameter of a name, from a place on.
pub open spec fn parameter_from(parameters: Seq<Parameter>, name: Seq<char>, from: int) -> Option<
    usize,
>
    decreases parameters.len() - from,
{
    if from < 0 || from >= parameters.len() {
        None
    } else if parameters[from].name@ == name {
        Some(from as usize)
    } else {
        parameter_from(parameters, name, from + 1)
    }
}

/// The parameter that a name stands for.
#[verifier::opaque]
pub open spec fn parameter_named(parameters: Seq<Parameter>, name: Seq<char>) -> Option<usize> {
    parameter_from(parameters, name, 0)
}

pub fn find_parameter(parameters: &Vec<Parameter>, name: &str) -> (result: Option<usize>)
    ensures
        result == parameter_named(parameters@, name@),
        result matches Some(index) ==> index < parameters@.len(),
{
    proof {
        reveal(parameter_named);
    }
    let mut index: usize = 0;
    while index < parameters.len()
        invariant
            index <= parameters@.len(),
            parameter_named(parameters@, name@) == parameter_from(
                parameters@,
                name@,
                index as int,
            ),
        decreases parameters@.len() - index,
    {
        if same_text(parameters[index].name, name) {
            return Some(index);
        }
        index = index + 1;
    }
    None
}

/// The form of a node.
pub open spec fn form_at(tree: Tree, id: ExprId) -> Option<Form> {
    match node_at(tree.nodes, id) {
        Some(node) => Some(node.form),
        None => None,
    }
}

pub open spec fn kind_view(kind: Option<ExprKind>) -> Option<Form> {
    match kind {
        Some(kind) => Some(kind@),
        None => None,
    }
}

pub fn kind_at<'source, const N: usize>(tree: &ExpressionTree<'source, N>, id: ExprId) -> (result: Option<
    ExprKind<'source>,
>)
    ensures
        kind_view(result) == form_at(tree@, id),
{
    match tree.expression(id) {
        Some(expression) => Some(expression.kind),
        None => None,
    }
}

/// What an expression of a tree stands for.
#[verifier::opaque]
pub open spec fn constant_at<R: ConstantResolver>(tree: Tree, id: ExprId, resolver: &R) -> Result<
    u128,
    ConstEvalError,
> {
    evaluation(tree.nodes, resolver, id, 0)
}

pub fn evaluate_constant<R: ConstantResolver, const N: usize>(
    tree: &ExpressionTree<'_, N>,
    id: ExprId,
    resolver: &R,
) -> (result: Result<u128, ConstEvalError>)
    ensures
        result == constant_at(tree@, id, resolver),
{
    proof {
        reveal(constant_at);
    }
    tree.evaluate_at(id, resolver)
}

/// What is wrong with the range patterns of a tree.
#[verifier::opaque]
pub open spec fn range_problem<R: ConstantResolver>(tree: Tree, resolver: &R) -> Option<
    CodegenErrorKind,
> {
    match ranges_failure(tree, resolver, 64, 0) {
        None => None,
        Some(ConstEvalError::InvalidRangeType) => Some(CodegenErrorKind::InvalidRangeType),
        Some(ConstEvalError::InvalidRangeBounds) => Some(CodegenErrorKind::InvalidRangeBounds),
        Some(error) => Some(CodegenErrorKind::Execution(ExecutionError::Arithmetic(error))),
    }
}

pub fn find_range_problem<R: ConstantResolver, const N: usize>(
    tree: &ExpressionTree<'_, N>,
    resolver: &R,
) -> (result: Option<CodegenErrorKind>)
    ensures
        result == range_problem(tree@, resolver),
{
    proof {
        reveal(range_problem);
    }
    match tree.validate_ranges(resolver, 64) {
        Ok(()) => None,
        Err(ConstEvalError::InvalidRangeType) => Some(CodegenErrorKind::InvalidRangeType),
        Err(ConstEvalError::InvalidRangeBounds) => Some(CodegenErrorKind::InvalidRangeBounds),
        Err(error) => Some(CodegenErrorKind::Execution(ExecutionError::Arithmetic(error))),
    }
}

/// The tree of an expression.
#[verifier::opaque]
pub open spec fn tree_of(text: Seq<char>, limit: usize) -> Result<Tree, ExpressionError> {
    expression_tree(text, limit as int)
}

pub fn parse_tree<'source, const N: usize>(text: &'source str) -> (result: Result<
    ExpressionTree<'source, N>,
    ExpressionError,
>)
    ensures
        match result {
            Ok(tree) => tree_of(text@, N) == Ok::<Tree, ExpressionError>(tree@),
            Err(error) => tree_of(text@, N) == Err::<Tree, ExpressionError>(error),
        },
{
    proof {
        reveal(tree_of);
    }
    ExpressionParser::<N>::new(text).parse()
}

/// A span inside a text, counted from where an enclosing text begins.
pub open spec fn span_from(base: usize, relative: Span) -> Span {
    Span { start: place_from(base, relative.start), end: place_from(base, relative.end) }
}

/// A place counted from another; places behind the last that can be counted are the last.
pub open spec fn place_from(base: usize, relative: usize) -> usize {
    if base + relative <= usize::MAX {
        (base + relative) as usize
    } else {
        usize::MAX
    }
}

pub fn translate_place(base: usize, relative: usize) -> (result: usize)
    ensures
        result == place_from(base, relative),
{
    match base.checked_add(relative) {
        Some(place) => place,
        None => usize::MAX,
    }
}

pub fn translate_span(base: usize, relative: Span) -> (result: Span)
    ensures
        result == span_from(base, relative),
{
    Span {
        start: translate_place(base, relative.start),
        end: translate_place(base, relative.end),
    }
}

} // verus!
