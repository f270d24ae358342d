//! The expressions in a body.
use vstd::string::StrSliceExecFns;
use crate::codegen::error::{
    CodegenError, CodegenErrorKind,
};
use crate::codegen::frame::{
    Frame, LocalModel, RuntimeLocal, find_local, find_parameter, local_models, local_named,
    parameter_named, parse_tree, place_from, span_from, translate_place, translate_span,
    tree_of,
};
use crate::codegen::runtime::{
    RuntimeExpressionType, RuntimeWidth, char_width, integer_width,
    runtime_types_compatible, types_agree, width_of_char, width_of_integer,
};
use crate::codegen::types::{
    compound_type, pointer_type, reference_type, runtime_compound_type,
    runtime_raw_pointer_type, runtime_reference_type,
};
use crate::expression::{
    ConstantResolver, ExpressionTree, Tree,
};
use crate::function::{
    LocalBinding, LoopOperation, NestedLoopBlock,
};
use crate::integer::{
    IntegerType, integer_type_named,
};
use crate::text::same_text;
use crate::token::Span;
use crate::codegen::typing::typed;
use crate::codegen::typer::runtime_expression_type_with_locals;
use vstd::prelude::*;

verus! {

/// The type of numbers that say no type of their own.
#[derive(Clone, Copy, Debug, PartialEq, Eq, Structural)]
pub enum Operand {
    Char,
    Integer(IntegerType),
}

/// The width of such numbers.
pub open spec fn width_of_operand(operand: Operand) -> Option<RuntimeWidth> {
    match operand {
        Operand::Char => Some(width_of_char()),
        Operand::Integer(ty) => width_of_integer(ty),
    }
}

pub fn operand_width(operand: Operand) -> (result: Option<RuntimeWidth>)
    ensures
        result == width_of_operand(operand),
{
    match operand {
        Operand::Char => Some(char_width()),
        Operand::Integer(ty) => integer_width(ty),
    }
}

/// An error at a place of the body.
pub open spec fn error_in_body<R: ConstantResolver, const P: usize, const N: usize>(
    f: Frame<R, P, N>,
    kind: CodegenErrorKind,
    span: Span,
) -> CodegenError {
    CodegenError { kind, span: span_from(f.function.body_expression_span.start, span) }
}

pub fn body_error<R: ConstantResolver, const P: usize, const N: usize>(
    frame: &Frame<R, P, N>,
    kind: CodegenErrorKind,
    span: Span,
) -> (result: CodegenError)
    ensures
        result == error_in_body(*frame, kind, span),
{
    CodegenError { kind, span: translate_span(frame.function.body_expression_span.start, span) }
}

/// The tree of a text of the body, or why there is none.
#[verifier::opaque]
pub open spec fn body_tree<R: ConstantResolver, const P: usize, const N: usize>(
    f: Frame<R, P, N>,
    text: Seq<char>,
    span: Span,
) -> Result<Tree, CodegenError> {
    match tree_of(text, N) {
        Err(error) => Err(
            CodegenError {
                kind: CodegenErrorKind::Expression(error.kind),
                span: span_from(
                    place_from(f.function.body_expression_span.start, span.start),
                    error.span,
                ),
            },
        ),
        Ok(tree) => Ok(tree),
    }
}

pub fn parse_body_tree<'source, R: ConstantResolver, const P: usize, const N: usize>(
    frame: &Frame<R, P, N>,
    text: &'source str,
    span: Span,
) -> (result: Result<ExpressionTree<'source, N>, CodegenError>)
    ensures
        match result {
            Ok(tree) => body_tree(*frame, text@, span) == Ok::<Tree, CodegenError>(tree@),
            Err(error) => body_tree(*frame, text@, span) == Err::<Tree, CodegenError>(error),
        },
{
    proof {
        reveal(body_tree);
    }
    match parse_tree::<N>(text) {
        Err(error) => Err(
            CodegenError {
                kind: CodegenErrorKind::Expression(error.kind),
                span: translate_span(
                    translate_place(frame.function.body_expression_span.start, span.start),
                    error.span,
                ),
            },
        ),
        Ok(tree) => Ok(tree),
    }
}

/// The tree of a text of the body and its type.
#[verifier::opaque]
pub open spec fn tree_and_type<R: ConstantResolver, const P: usize, const N: usize>(
    f: Frame<R, P, N>,
    locals: Seq<LocalModel>,
    text: Seq<char>,
    span: Span,
) -> Result<(Tree, RuntimeExpressionType), CodegenError> {
    match body_tree(f, text, span) {
        Err(error) => Err(error),
        Ok(tree) => match typed(f, locals, tree, tree.root, 0) {
            Err(kind) => Err(error_in_body(f, kind, span)),
            Ok(ty) => Ok((tree, ty)),
        },
    }
}

pub fn typed_tree<'source, R: ConstantResolver, const P: usize, const N: usize>(
    frame: &Frame<R, P, N>,
    locals: &Vec<RuntimeLocal>,
    text: &'source str,
    span: Span,
) -> (result: Result<(ExpressionTree<'source, N>, RuntimeExpressionType), CodegenError>)
    ensures
        match result {
            Ok((tree, ty)) => tree_and_type(*frame, local_models(locals@), text@, span) == Ok::<
                (Tree, RuntimeExpressionType),
                CodegenError,
            >((tree@, ty)),
            Err(error) => tree_and_type(*frame, local_models(locals@), text@, span) == Err::<
                (Tree, RuntimeExpressionType),
                CodegenError,
            >(error),
        },
{
    proof {
        reveal(tree_and_type);
    }
    match parse_body_tree(frame, text, span) {
        Err(error) => Err(error),
        Ok(tree) => {
            let ty = runtime_expression_type_with_locals(frame, locals, &tree, tree.root(), 0);
            match ty {
                Err(kind) => Err(body_error(frame, kind, span)),
                Ok(ty) => Ok((tree, ty)),
            }
        },
    }
}

/// The tree of a text of the body that can stand where a type is expected.
#[verifier::opaque]
pub open spec fn value_of_type<R: ConstantResolver, const P: usize, const N: usize>(
    f: Frame<R, P, N>,
    locals: Seq<LocalModel>,
    text: Seq<char>,
    span: Span,
    expected: RuntimeExpressionType,
) -> Result<Tree, CodegenError> {
    match tree_and_type(f, locals, text, span) {
        Err(error) => Err(error),
        Ok((tree, ty)) => if types_agree(ty, expected) {
            Ok(tree)
        } else {
            Err(error_in_body(f, CodegenErrorKind::RuntimeTypeMismatch, span))
        },
    }
}

pub fn value_tree<'source, R: ConstantResolver, const P: usize, const N: usize>(
    frame: &Frame<R, P, N>,
    locals: &Vec<RuntimeLocal>,
    text: &'source str,
    span: Span,
    expected: RuntimeExpressionType,
) -> (result: Result<ExpressionTree<'source, N>, CodegenError>)
    ensures
        match result {
            Ok(tree) => value_of_type(*frame, local_models(locals@), text@, span, expected) == Ok::<
                Tree,
                CodegenError,
            >(tree@),
            Err(error) => value_of_type(*frame, local_models(locals@), text@, span, expected)
                == Err::<Tree, CodegenError>(error),
        },
{
    proof {
        reveal(value_of_type);
    }
    match typed_tree(frame, locals, text, span) {
        Err(error) => Err(error),
        Ok((tree, ty)) => {
            if runtime_types_compatible(ty, expected) {
                Ok(tree)
            } else {
                Err(body_error(frame, CodegenErrorKind::RuntimeTypeMismatch, span))
            }
        },
    }
}

/// The tree of a condition of the body.
#[verifier::opaque]
pub open spec fn condition_of<R: ConstantResolver, const P: usize, const N: usize>(
    f: Frame<R, P, N>,
    locals: Seq<LocalModel>,
    text: Seq<char>,
    span: Span,
) -> Result<Tree, CodegenError> {
    match tree_and_type(f, locals, text, span) {
        Err(error) => Err(error),
        Ok((tree, ty)) => if ty == RuntimeExpressionType::Bool {
            Ok(tree)
        } else {
            Err(error_in_body(f, CodegenErrorKind::RuntimeTypeMismatch, span))
        },
    }
}

pub fn condition_tree<'source, R: ConstantResolver, const P: usize, const N: usize>(
    frame: &Frame<R, P, N>,
    locals: &Vec<RuntimeLocal>,
    text: &'source str,
    span: Span,
) -> (result: Result<ExpressionTree<'source, N>, CodegenError>)
    ensures
        match result {
            Ok(tree) => condition_of(*frame, local_models(locals@), text@, span) == Ok::<
                Tree,
                CodegenError,
            >(tree@),
            Err(error) => condition_of(*frame, local_models(locals@), text@, span) == Err::<
                Tree,
                CodegenError,
            >(error),
        },
{
    proof {
        reveal(condition_of);
    }
    match typed_tree(frame, locals, text, span) {
        Err(error) => Err(error),
        Ok((tree, ty)) => {
            if ty == RuntimeExpressionType::Bool {
                Ok(tree)
            } else {
                Err(body_error(frame, CodegenErrorKind::RuntimeTypeMismatch, span))
            }
        },
    }
}

/// The type that a text writes, if it writes one.
pub open spec fn declared_type(text: Seq<char>) -> Option<RuntimeExpressionType> {
    match compound_type(text) {
        Some(ty) => Some(ty),
        None => if text == "()"@ {
            Some(RuntimeExpressionType::Unit)
        } else if text == "bool"@ {
            Some(RuntimeExpressionType::Bool)
        } else if text == "char"@ {
            Some(RuntimeExpressionType::Char)
        } else {
            match integer_type_named(text) {
                Some(ty) => Some(RuntimeExpressionType::Integer(Some(ty))),
                None => None,
            }
        },
    }
}

pub fn read_declared_type(text: &str) -> (result: Option<RuntimeExpressionType>)
    ensures
        result == declared_type(text@),
{
    match runtime_compound_type(text) {
        Some(ty) => Some(ty),
        None => {
            if same_text(text, "()") {
                Some(RuntimeExpressionType::Unit)
            } else if same_text(text, "bool") {
                Some(RuntimeExpressionType::Bool)
            } else if same_text(text, "char") {
                Some(RuntimeExpressionType::Char)
            } else {
                match IntegerType::from_name(text) {
                    Some(ty) => Some(RuntimeExpressionType::Integer(Some(ty))),
                    None => None,
                }
            }
        },
    }
}

/// The type of a local: the one that it is declared with, or else that of its first value.
#[verifier::opaque]
pub open spec fn type_of_local<R: ConstantResolver, const P: usize, const N: usize>(
    f: Frame<R, P, N>,
    local: LocalBinding,
    initializer: RuntimeExpressionType,
    operand: Operand,
) -> Result<RuntimeExpressionType, CodegenError> {
    match local.ty {
        Some(ty) => match declared_type(ty.text@) {
            Some(ty) => Ok(ty),
            None => Err(error_in_body(f, CodegenErrorKind::UnsupportedRuntimeType, ty.span)),
        },
        None => match initializer {
            RuntimeExpressionType::Default => Err(
                error_in_body(f, CodegenErrorKind::RuntimeTypeMismatch, local.initializer_span),
            ),
            RuntimeExpressionType::Integer(None) => match operand {
                Operand::Integer(ty) => Ok(RuntimeExpressionType::Integer(Some(ty))),
                Operand::Char => Ok(RuntimeExpressionType::Integer(None)),
            },
            other => Ok(other),
        },
    }
}

pub fn local_type<R: ConstantResolver, const P: usize, const N: usize>(
    frame: &Frame<R, P, N>,
    local: &LocalBinding,
    initializer: RuntimeExpressionType,
    operand: Operand,
) -> (result: Result<RuntimeExpressionType, CodegenError>)
    ensures
        result == type_of_local(*frame, *local, initializer, operand),
{
    proof {
        reveal(type_of_local);
    }
    match local.ty {
        Some(ty) => match read_declared_type(ty.text) {
            Some(ty) => Ok(ty),
            None => Err(body_error(frame, CodegenErrorKind::UnsupportedRuntimeType, ty.span)),
        },
        None => match initializer {
            RuntimeExpressionType::Default => Err(
                body_error(frame, CodegenErrorKind::RuntimeTypeMismatch, local.initializer_span),
            ),
            RuntimeExpressionType::Integer(None) => match operand {
                Operand::Integer(ty) => Ok(RuntimeExpressionType::Integer(Some(ty))),
                Operand::Char => Ok(RuntimeExpressionType::Integer(None)),
            },
            other => Ok(other),
        },
    }
}

/// Whether a text is empty.
pub open spec fn empty_text(text: Seq<char>) -> bool {
    text.len() == 0
}

pub fn is_empty_text(text: &str) -> (result: bool)
    ensures
        result == empty_text(text@),
{
    text.unicode_len() == 0
}

/// The type of what an assignment with an index or a dereference goes through.
#[verifier::opaque]
pub open spec fn type_of_target<R: ConstantResolver, const P: usize, const N: usize>(
    f: Frame<R, P, N>,
    locals: Seq<LocalModel>,
    name: Seq<char>,
) -> Option<RuntimeExpressionType> {
    match local_named(locals, name) {
        Some(index) => Some(locals[index as int].ty),
        None => match parameter_named(f.function.parameters@, name) {
            Some(index) => {
                let text = f.function.parameters@[index as int].ty.text@;
                match reference_type(text) {
                    Some(ty) => Some(ty),
                    None => pointer_type(text),
                }
            },
            None => None,
        },
    }
}

pub fn target_type<R: ConstantResolver, const P: usize, const N: usize>(
    frame: &Frame<R, P, N>,
    locals: &Vec<RuntimeLocal>,
    name: &str,
) -> (result: Option<RuntimeExpressionType>)
    ensures
        result == type_of_target(*frame, local_models(locals@), name@),
{
    proof {
        reveal(type_of_target);
    }
    match find_local(locals, name) {
        Some(index) => Some(locals[index].ty),
        None => match find_parameter(&frame.function.parameters, name) {
            Some(index) => {
                let text = frame.function.parameters[index].ty.text;
                match runtime_reference_type(text) {
                    Some(ty) => Some(ty),
                    None => runtime_raw_pointer_type(text),
                }
            },
            None => None,
        },
    }
}

/// How many ways out of a nested loop there are, if they can be counted.
pub open spec fn number_of_controls(block: NestedLoopBlock) -> Option<usize> {
    let count = block.conditional_returns@.len() + block.conditional_continues@.len()
        + block.conditional_breaks@.len() + block.unconditional_controls@.len();
    if count <= usize::MAX {
        Some(count as usize)
    } else {
        None
    }
}

pub fn control_count(block: &NestedLoopBlock) -> (result: Option<usize>)
    ensures
        result == number_of_controls(*block),
{
    let count: u128 = block.conditional_returns.len() as u128
        + block.conditional_continues.len() as u128 + block.conditional_breaks.len() as u128
        + block.unconditional_controls.len() as u128;
    if count <= usize::MAX as u128 {
        Some(count as usize)
    } else {
        None
    }
}

/// Whether what follows some statements of a loop is out of reach. Behind a `return` nothing counts.
pub open spec fn ends_loop(operations: Seq<LoopOperation>, from: int) -> bool
    decreases operations.len() - from,
{
    if from < 0 || from >= operations.len() {
        false
    } else {
        match operations[from] {
            LoopOperation::Return(_) => true,
            LoopOperation::Break | LoopOperation::Continue => from + 1 == operations.len()
                || ends_loop(operations, from + 1),
            _ => ends_loop(operations, from + 1),
        }
    }
}

pub fn ends_with_control(operations: &Vec<LoopOperation>, from: usize) -> (result: bool)
    ensures
        result == ends_loop(operations@, from as int),
    decreases operations@.len() - from,
{
    if from >= operations.len() {
        false
    } else {
        match &operations[from] {
            LoopOperation::Return(_) => true,
            LoopOperation::Break | LoopOperation::Continue => {
                from + 1 == operations.len() || ends_with_control(operations, from + 1)
            },
            _ => ends_with_control(operations, from + 1),
        }
    }
}

/// Where the loops begin and which locals live outside of them.
#[derive(Clone, Copy, Debug, PartialEq, Eq, Structural)]
pub struct LoopPlaces {
    pub start: usize,
    pub checkpoint: usize,
    pub inner_start: usize,
    pub inner_checkpoint: usize,
}

} // verus!
