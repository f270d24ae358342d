//! The types of expressions at run time.
use crate::codegen::error::CodegenErrorKind;
use crate::codegen::frame::{
    Frame, LocalModel, constant_at, evaluate_constant, form_at, kind_at, local_named,
    parameter_named, range_problem,
};
use crate::codegen::runtime::{
    RuntimeArrayElementType, RuntimeExpressionType, RuntimeWidth,
};
use crate::codegen::types::{
    compound_type, runtime_compound_type,
};
use crate::expression::{
    ConstantResolver, ExprId, ExprKind, ExpressionTree, Form, MAX_EXPRESSION_DEPTH, Tree,
    room, text_view,
};
use crate::integer::{
    ConstEvalError, IntegerType, UnaryOperator, integer_type_named,
};
use crate::ir::{
    ExecutionError, IrErrorKind,
};
use crate::text::same_text;
use crate::codegen::typing_rules::{
    Typing, counted, first_of, fit_of_endpoint, negative_in_width,
    problem_of_named_endpoint, ranged_width, typed_ascription, typed_binary, typed_cast,
    typed_char_boundary, typed_choice, typed_dereference, typed_element, typed_endpoint,
    typed_index, typed_negation, typed_next_element, typed_pointer, typed_range,
    typed_reborrow, typed_reference, typed_repeat, typed_sequence, typed_slice_query,
    typed_string_bytes, typed_target,
};
use vstd::prelude::*;

verus! {

/// The integer type of a suffix.
pub open spec fn suffix_integer(suffix: Option<Seq<char>>) -> Option<IntegerType> {
    match suffix {
        Some(suffix) => integer_type_named(suffix),
        None => None,
    }
}

pub fn suffix_type(suffix: Option<&str>) -> (result: Option<IntegerType>)
    ensures
        result == suffix_integer(text_view(suffix)),
{
    match suffix {
        Some(suffix) => IntegerType::from_name(suffix),
        None => None,
    }
}

/// The type that a text writes, where no other is an integer type.
pub open spec fn written_type(text: Seq<char>) -> RuntimeExpressionType {
    match compound_type(text) {
        Some(ty) => ty,
        None => if text == "bool"@ {
            RuntimeExpressionType::Bool
        } else if text == "char"@ {
            RuntimeExpressionType::Char
        } else {
            RuntimeExpressionType::Integer(integer_type_named(text))
        },
    }
}

pub fn read_written_type(text: &str) -> (result: RuntimeExpressionType)
    ensures
        result == written_type(text@),
{
    match runtime_compound_type(text) {
        Some(ty) => ty,
        None => if same_text(text, "bool") {
            RuntimeExpressionType::Bool
        } else if same_text(text, "char") {
            RuntimeExpressionType::Char
        } else {
            RuntimeExpressionType::Integer(IntegerType::from_name(text))
        },
    }
}

/// The name that a reference is known by.
pub open spec fn source_name(tree: Tree, id: ExprId, left: int) -> Option<Seq<char>>
    decreases left,
{
    if left <= 0 {
        None
    } else {
        match form_at(tree, id) {
            Some(Form::Identifier(name)) => Some(name),
            Some(Form::StrAsBytes { base }) => source_name(tree, base, left - 1),
            Some(Form::Unary { operator, operand }) => if operator == UnaryOperator::AddressOf
                || operator == UnaryOperator::AddressOfMut {
                match form_at(tree, operand) {
                    Some(Form::Unary { operator: UnaryOperator::Dereference, operand }) => {
                        source_name(tree, operand, left - 1)
                    },
                    _ => None,
                }
            } else {
                None
            },
            _ => None,
        }
    }
}

/// The name that a reference is known by, in a tree of which no part holds itself.
#[verifier::opaque]
pub open spec fn reference_source(tree: Tree, id: ExprId) -> Option<Seq<char>> {
    source_name(tree, id, tree.nodes.len() as int)
}

fn source_name_within<'source, const N: usize>(
    tree: &ExpressionTree<'source, N>,
    id: ExprId,
    left: usize,
) -> (result: Option<&'source str>)
    ensures
        text_view(result) == source_name(tree@, id, left as int),
    decreases left,
{
    if left == 0 {
        return None;
    }
    match kind_at(tree, id) {
        Some(ExprKind::Identifier(name)) => Some(name),
        Some(ExprKind::StrAsBytes { base }) => source_name_within(tree, base, left - 1),
        Some(ExprKind::Unary { operator, operand }) => {
            if operator == UnaryOperator::AddressOf || operator == UnaryOperator::AddressOfMut {
                match kind_at(tree, operand) {
                    Some(ExprKind::Unary { operator: UnaryOperator::Dereference, operand }) => {
                        source_name_within(tree, operand, left - 1)
                    },
                    _ => None,
                }
            } else {
                None
            }
        },
        _ => None,
    }
}

pub fn reference_source_name<'source, const N: usize>(
    tree: &ExpressionTree<'source, N>,
    id: ExprId,
) -> (result: Option<&'source str>)
    ensures
        text_view(result) == reference_source(tree@, id),
{
    proof {
        reveal(reference_source);
    }
    source_name_within(tree, id, tree.nodes.len())
}

/// A number as the place of an element.
pub open spec fn place_number(value: Result<u128, ConstEvalError>) -> Result<usize, CodegenErrorKind> {
    match value {
        Err(ConstEvalError::UnknownIdentifier) => Err(
            CodegenErrorKind::RuntimeExpressionUnsupported,
        ),
        Err(error) => Err(CodegenErrorKind::Execution(ExecutionError::Arithmetic(error))),
        Ok(value) => if value <= usize::MAX {
            Ok(value as usize)
        } else {
            Err(CodegenErrorKind::ValueOutOfRange)
        },
    }
}

pub fn read_place(value: Result<u128, ConstEvalError>) -> (result: Result<usize, CodegenErrorKind>)
    ensures
        result == place_number(value),
{
    match value {
        Err(ConstEvalError::UnknownIdentifier) => Err(
            CodegenErrorKind::RuntimeExpressionUnsupported,
        ),
        Err(error) => Err(CodegenErrorKind::Execution(ExecutionError::Arithmetic(error))),
        Ok(value) => if value <= usize::MAX as u128 {
            Ok(value as usize)
        } else {
            Err(CodegenErrorKind::ValueOutOfRange)
        },
    }
}

/// The first element of a range and the one behind its last, among `count` elements.
#[verifier::opaque]
pub open spec fn range_bounds<R: ConstantResolver>(
    tree: Tree,
    start: Option<ExprId>,
    end: Option<ExprId>,
    inclusive: bool,
    count: usize,
    resolver: &R,
) -> Result<(usize, usize), CodegenErrorKind> {
    let start = match start {
        None => Ok(0),
        Some(id) => place_number(constant_at(tree, id, resolver)),
    };
    let end = match end {
        None => if inclusive {
            Err(CodegenErrorKind::RuntimeExpressionUnsupported)
        } else {
            Ok(count)
        },
        Some(id) => place_number(constant_at(tree, id, resolver)),
    };
    match start {
        Err(kind) => Err(kind),
        Ok(start) => match end {
            Err(kind) => Err(kind),
            Ok(end) => {
                let end = if inclusive {
                    end + 1
                } else {
                    end as int
                };
                if start > end || end > count {
                    Err(CodegenErrorKind::ValueOutOfRange)
                } else {
                    Ok((start, end as usize))
                }
            },
        },
    }
}

pub fn constant_range_bounds<R: ConstantResolver, const N: usize>(
    tree: &ExpressionTree<'_, N>,
    start: Option<ExprId>,
    end: Option<ExprId>,
    inclusive: bool,
    count: usize,
    resolver: &R,
) -> (result: Result<(usize, usize), CodegenErrorKind>)
    ensures
        result == range_bounds(tree@, start, end, inclusive, count, resolver),
{
    proof {
        reveal(range_bounds);
    }
    let start: usize = match start {
        None => 0,
        Some(id) => read_place(evaluate_constant(tree, id, resolver))?,
    };
    let mut end: usize = match end {
        None => {
            if inclusive {
                return Err(CodegenErrorKind::RuntimeExpressionUnsupported);
            }
            count
        },
        Some(id) => read_place(evaluate_constant(tree, id, resolver))?,
    };
    if inclusive {
        end = match end.checked_add(1) {
            Some(end) => end,
            None => return Err(CodegenErrorKind::ValueOutOfRange),
        };
    }
    if start > end || end > count {
        return Err(CodegenErrorKind::ValueOutOfRange);
    }
    Ok((start, end))
}

/// What is known to be wrong with a range before the program runs.
pub open spec fn bounds_problem<R: ConstantResolver>(
    tree: Tree,
    start: Option<ExprId>,
    end: Option<ExprId>,
    inclusive: bool,
    count: Option<usize>,
    resolver: &R,
) -> Option<CodegenErrorKind> {
    match count {
        None => None,
        Some(count) => match range_bounds(tree, start, end, inclusive, count, resolver) {
            Ok(_) => None,
            Err(CodegenErrorKind::RuntimeExpressionUnsupported) => None,
            Err(kind) => Some(kind),
        },
    }
}

pub fn find_bounds_problem<R: ConstantResolver, const N: usize>(
    tree: &ExpressionTree<'_, N>,
    start: Option<ExprId>,
    end: Option<ExprId>,
    inclusive: bool,
    count: Option<usize>,
    resolver: &R,
) -> (result: Option<CodegenErrorKind>)
    ensures
        result == bounds_problem(tree@, start, end, inclusive, count, resolver),
{
    match count {
        None => None,
        Some(count) => match constant_range_bounds(tree, start, end, inclusive, count, resolver) {
            Ok(_) => None,
            Err(CodegenErrorKind::RuntimeExpressionUnsupported) => None,
            Err(kind) => Some(kind),
        },
    }
}

/// The values of the first `count` arguments of a call.
pub open spec fn argument_values<R: ConstantResolver>(
    tree: Tree,
    arguments: Seq<Option<ExprId>>,
    count: int,
    resolver: &R,
) -> Result<Seq<u128>, CodegenErrorKind>
    decreases count,
{
    if count <= 0 {
        Ok(seq![])
    } else {
        match argument_values(tree, arguments, count - 1, resolver) {
            Err(kind) => Err(kind),
            Ok(values) => if count > arguments.len() {
                Err(CodegenErrorKind::RuntimeExpressionUnsupported)
            } else {
                match arguments[count - 1] {
                    None => Err(CodegenErrorKind::RuntimeExpressionUnsupported),
                    Some(id) => match constant_at(tree, id, resolver) {
                        Err(error) => Err(
                            CodegenErrorKind::Execution(ExecutionError::Arithmetic(error)),
                        ),
                        Ok(value) => Ok(values.push(value)),
                    },
                }
            },
        }
    }
}

proof fn failed_arguments_stay<R: ConstantResolver>(
    tree: Tree,
    arguments: Seq<Option<ExprId>>,
    count: int,
    more: int,
    resolver: &R,
)
    requires
        argument_values(tree, arguments, count, resolver) is Err,
        count <= more,
    ensures
        argument_values(tree, arguments, more, resolver) == argument_values(
            tree,
            arguments,
            count,
            resolver,
        ),
    decreases more - count,
{
    if count < more {
        failed_arguments_stay(tree, arguments, count, more - 1, resolver);
    }
}

pub fn evaluate_runtime_call_arguments<R: ConstantResolver, const N: usize>(
    tree: &ExpressionTree<'_, N>,
    arguments: &[Option<ExprId>],
    argument_count: usize,
    resolver: &R,
) -> (result: Result<Vec<u128>, CodegenErrorKind>)
    ensures
        match result {
            Ok(values) => argument_values(tree@, arguments@, argument_count as int, resolver)
                == Ok::<Seq<u128>, CodegenErrorKind>(values@),
            Err(kind) => argument_values(tree@, arguments@, argument_count as int, resolver)
                == Err::<Seq<u128>, CodegenErrorKind>(kind),
        },
{
    let mut values: Vec<u128> = Vec::new();
    let mut index: usize = 0;
    while index < argument_count
        invariant
            index <= argument_count,
            argument_values(tree@, arguments@, index as int, resolver) == Ok::<
                Seq<u128>,
                CodegenErrorKind,
            >(values@),
        decreases argument_count - index,
    {
        let ghost before = argument_values(tree@, arguments@, index + 1, resolver);
        proof {
            if before is Err {
                failed_arguments_stay(
                    tree@,
                    arguments@,
                    index + 1,
                    argument_count as int,
                    resolver,
                );
            }
        }
        if index >= arguments.len() {
            return Err(CodegenErrorKind::RuntimeExpressionUnsupported);
        }
        match arguments[index] {
            None => return Err(CodegenErrorKind::RuntimeExpressionUnsupported),
            Some(id) => match evaluate_constant(tree, id, resolver) {
                Err(error) => return Err(
                    CodegenErrorKind::Execution(ExecutionError::Arithmetic(error)),
                ),
                Ok(value) => values.push(value),
            },
        }
        index = index + 1;
    }
    Ok(values)
}

/// What a call gives when the program is made.
#[verifier::opaque]
pub open spec fn call_constant<R: ConstantResolver>(
    tree: Tree,
    callee: Seq<char>,
    arguments: Seq<Option<ExprId>>,
    argument_count: usize,
    resolver: &R,
) -> Result<u128, CodegenErrorKind> {
    match argument_values(tree, arguments, argument_count as int, resolver) {
        Err(kind) => Err(kind),
        Ok(values) => match resolver.call_value(callee, values) {
            Some(value) => Ok(value),
            None => Err(CodegenErrorKind::RuntimeExpressionUnsupported),
        },
    }
}

pub fn evaluate_call<R: ConstantResolver, const N: usize>(
    tree: &ExpressionTree<'_, N>,
    callee: &str,
    arguments: &[Option<ExprId>],
    argument_count: usize,
    resolver: &R,
) -> (result: Result<u128, CodegenErrorKind>)
    ensures
        result == call_constant(tree@, callee@, arguments@, argument_count, resolver),
{
    proof {
        reveal(call_constant);
    }
    match evaluate_runtime_call_arguments(tree, arguments, argument_count, resolver) {
        Err(kind) => Err(kind),
        Ok(values) => match resolver.resolve_call(callee, values.as_slice()) {
            Some(value) => Ok(value),
            None => Err(CodegenErrorKind::RuntimeExpressionUnsupported),
        },
    }
}

/// The type of what a name stands for: a local, a parameter or a constant.
#[verifier::opaque]
pub open spec fn typed_name<R: ConstantResolver, const P: usize, const N: usize>(
    f: Frame<R, P, N>,
    locals: Seq<LocalModel>,
    name: Seq<char>,
) -> RuntimeExpressionType {
    match local_named(locals, name) {
        Some(index) => locals[index as int].ty,
        None => match parameter_named(f.function.parameters@, name) {
            Some(index) => written_type(f.function.parameters@[index as int].ty.text@),
            None => if f.resolver.bool_named(name) {
                RuntimeExpressionType::Bool
            } else {
                RuntimeExpressionType::Integer(f.resolver.type_of(name))
            },
        },
    }
}

/// The type of a call.
#[verifier::opaque]
pub open spec fn typed_call<R: ConstantResolver, const P: usize, const N: usize>(
    f: Frame<R, P, N>,
    callee: Seq<char>,
    argument_count: usize,
) -> Typing {
    if f.resolver.call_bool(callee, argument_count) {
        Ok(RuntimeExpressionType::Bool)
    } else {
        match f.resolver.call_type(callee, argument_count) {
            Some(ty) => Ok(RuntimeExpressionType::Integer(Some(ty))),
            None => Err(CodegenErrorKind::RuntimeExpressionUnsupported),
        }
    }
}

/// What is wrong with a name in a constant block.
#[verifier::opaque]
pub open spec fn problem_of_name<R: ConstantResolver, const P: usize, const N: usize>(
    f: Frame<R, P, N>,
    locals: Seq<LocalModel>,
    name: Seq<char>,
) -> Option<CodegenErrorKind> {
    match local_named(locals, name) {
        Some(_) => Some(CodegenErrorKind::RuntimeExpressionUnsupported),
        None => match parameter_named(f.function.parameters@, name) {
            Some(_) => Some(CodegenErrorKind::RuntimeExpressionUnsupported),
            None => if f.resolver.bool_named(name) {
                None
            } else {
                match f.resolver.type_of(name) {
                    Some(_) => None,
                    None => Some(CodegenErrorKind::RuntimeExpressionUnsupported),
                }
            },
        },
    }
}

/// What is wrong with a call in a constant block.
#[verifier::opaque]
pub open spec fn problem_of_call<R: ConstantResolver, const P: usize, const N: usize>(
    f: Frame<R, P, N>,
    tree: Tree,
    callee: Seq<char>,
    arguments: Seq<Option<ExprId>>,
    argument_count: usize,
) -> Option<CodegenErrorKind> {
    match call_constant(tree, callee, arguments, argument_count, f.resolver) {
        Err(_) => Some(CodegenErrorKind::RuntimeExpressionUnsupported),
        Ok(_) => match typed_call(f, callee, argument_count) {
            Ok(_) => None,
            Err(_) => Some(CodegenErrorKind::RuntimeExpressionUnsupported),
        },
    }
}

#[verifier::opaque]
pub open spec fn problem_of_optional<R: ConstantResolver, const P: usize, const N: usize>(
    f: Frame<R, P, N>,
    locals: Seq<LocalModel>,
    tree: Tree,
    id: Option<ExprId>,
    depth: int,
) -> Option<CodegenErrorKind>
    decreases room(depth), 3int, 0int,
{
    match id {
        Some(id) => problem_of_const(f, locals, tree, id, depth),
        None => None,
    }
}

#[verifier::opaque]
pub open spec fn problem_of_elements<R: ConstantResolver, const P: usize, const N: usize>(
    f: Frame<R, P, N>,
    locals: Seq<LocalModel>,
    tree: Tree,
    elements: Seq<Option<ExprId>>,
    index: usize,
    count: usize,
    depth: int,
) -> Option<CodegenErrorKind>
    decreases room(depth), 3int, elements.len() - index,
{
    if index >= count || index >= elements.len() {
        None
    } else {
        first_of(
            problem_of_optional(f, locals, tree, elements[index as int], depth),
            problem_of_elements(f, locals, tree, elements, (index + 1) as usize, count, depth),
        )
    }
}

/// Why an expression cannot stand in a constant block.
#[verifier::opaque]
pub open spec fn problem_of_const<R: ConstantResolver, const P: usize, const N: usize>(
    f: Frame<R, P, N>,
    locals: Seq<LocalModel>,
    tree: Tree,
    id: ExprId,
    depth: int,
) -> Option<CodegenErrorKind>
    decreases room(depth), 2int, 0int,
{
    if depth >= MAX_EXPRESSION_DEPTH {
        Some(CodegenErrorKind::Lowering(IrErrorKind::NestingLimitExceeded))
    } else {
        match form_at(tree, id) {
            None => Some(CodegenErrorKind::RuntimeExpressionUnsupported),
            Some(kind) => match kind {
                Form::Identifier(name) => problem_of_name(f, locals, name),
                Form::Call { callee, arguments, argument_count } => problem_of_call(
                    f,
                    tree,
                    callee,
                    arguments,
                    argument_count,
                ),
                Form::Array { elements, element_count } => problem_of_elements(
                    f,
                    locals,
                    tree,
                    elements,
                    0,
                    element_count,
                    depth + 1,
                ),
                Form::ArrayRepeat { element, .. } => problem_of_const(
                    f,
                    locals,
                    tree,
                    element,
                    depth + 1,
                ),
                Form::Index { base, index } => first_of(
                    problem_of_const(f, locals, tree, base, depth + 1),
                    problem_of_const(f, locals, tree, index, depth + 1),
                ),
                Form::RangeIndex { base, start, end, .. } => first_of(
                    problem_of_const(f, locals, tree, base, depth + 1),
                    first_of(
                        problem_of_optional(f, locals, tree, start, depth + 1),
                        problem_of_optional(f, locals, tree, end, depth + 1),
                    ),
                ),
                Form::SliceLen { base } => problem_of_const(
                    f,
                    locals,
                    tree,
                    base,
                    depth + 1,
                ),
                Form::SliceIsEmpty { base } => problem_of_const(
                    f,
                    locals,
                    tree,
                    base,
                    depth + 1,
                ),
                Form::StrAsBytes { base } => problem_of_const(
                    f,
                    locals,
                    tree,
                    base,
                    depth + 1,
                ),
                Form::StrIsCharBoundary { base, index } => first_of(
                    problem_of_const(f, locals, tree, base, depth + 1),
                    problem_of_const(f, locals, tree, index, depth + 1),
                ),
                Form::ReferenceAsPointer { base, .. } => problem_of_const(
                    f,
                    locals,
                    tree,
                    base,
                    depth + 1,
                ),
                Form::Cast { operand, .. } => problem_of_const(
                    f,
                    locals,
                    tree,
                    operand,
                    depth + 1,
                ),
                Form::Ascribe { operand, .. } => problem_of_const(
                    f,
                    locals,
                    tree,
                    operand,
                    depth + 1,
                ),
                Form::Unary { operand, .. } => problem_of_const(
                    f,
                    locals,
                    tree,
                    operand,
                    depth + 1,
                ),
                Form::Return { operand } => problem_of_const(
                    f,
                    locals,
                    tree,
                    operand,
                    depth + 1,
                ),
                Form::LoopBreak { operand } => problem_of_const(
                    f,
                    locals,
                    tree,
                    operand,
                    depth + 1,
                ),
                Form::InlineConst { operand } => problem_of_const(
                    f,
                    locals,
                    tree,
                    operand,
                    depth + 1,
                ),
                Form::Binary { left, right, .. } => first_of(
                    problem_of_const(f, locals, tree, left, depth + 1),
                    problem_of_const(f, locals, tree, right, depth + 1),
                ),
                Form::Sequence { first, then } => first_of(
                    problem_of_const(f, locals, tree, first, depth + 1),
                    problem_of_const(f, locals, tree, then, depth + 1),
                ),
                Form::If { condition, then_branch, else_branch } => first_of(
                    problem_of_const(f, locals, tree, condition, depth + 1),
                    first_of(
                        problem_of_const(f, locals, tree, then_branch, depth + 1),
                        problem_of_const(f, locals, tree, else_branch, depth + 1),
                    ),
                ),
                Form::LoopBreakIf { condition, then_branch, else_branch } => first_of(
                    problem_of_const(f, locals, tree, condition, depth + 1),
                    first_of(
                        problem_of_const(f, locals, tree, then_branch, depth + 1),
                        problem_of_const(f, locals, tree, else_branch, depth + 1),
                    ),
                ),
                Form::Unit | Form::DefaultValue | Form::Integer { .. } | Form::Bool(_)
                | Form::Char(_) => None,
            },
        }
    }
}

/// What is wrong with an end of a range pattern, held against a width.
#[verifier::opaque]
pub open spec fn problem_of_bound<R: ConstantResolver, const P: usize, const N: usize>(
    f: Frame<R, P, N>,
    tree: Tree,
    id: Option<ExprId>,
    width: RuntimeWidth,
) -> Option<CodegenErrorKind> {
    match id {
        None => None,
        Some(id) => match form_at(tree, id) {
            None => Some(CodegenErrorKind::RuntimeExpressionUnsupported),
            Some(Form::Integer { value, suffix }) => fit_of_endpoint(
                value <= width.maximum as u128,
            ),
            Some(Form::Unary { operator: UnaryOperator::Negate, operand }) => match form_at(
                tree,
                operand,
            ) {
                Some(Form::Integer { value, suffix }) => fit_of_endpoint(
                    negative_in_width(value, width),
                ),
                _ => None,
            },
            Some(Form::Identifier(name)) => problem_of_named_endpoint(
                f.resolver.type_of(name),
                width,
            ),
            Some(Form::Char(value)) => fit_of_endpoint(value as u64 <= width.maximum),
            Some(Form::Bool(_)) => Some(CodegenErrorKind::InvalidRangeType),
            Some(_) => None,
        },
    }
}

/// What is wrong with a range pattern, by the type of what it is held against.
#[verifier::opaque]
pub open spec fn problem_of_pattern<R: ConstantResolver, const P: usize, const N: usize>(
    f: Frame<R, P, N>,
    tree: Tree,
    scrutinee: Typing,
    start: Option<ExprId>,
    end: Option<ExprId>,
) -> Option<CodegenErrorKind> {
    match ranged_width(scrutinee) {
        Err(kind) => Some(kind),
        Ok(None) => None,
        Ok(Some(width)) => first_of(
            problem_of_bound(f, tree, start, width),
            problem_of_bound(f, tree, end, width),
        ),
    }
}

/// Whether an expression is a local, and if so whether that can be changed.
#[verifier::opaque]
pub open spec fn access_of_local<R: ConstantResolver, const P: usize, const N: usize>(
    f: Frame<R, P, N>,
    locals: Seq<LocalModel>,
    tree: Tree,
    id: ExprId,
) -> Option<bool> {
    match form_at(tree, id) {
        Some(Form::Identifier(name)) => match local_named(locals, name) {
            Some(index) => Some(locals[index as int].mutable),
            None => None,
        },
        _ => None,
    }
}

/// Why a reference to a name cannot be taken.
#[verifier::opaque]
pub open spec fn problem_of_address<R: ConstantResolver, const P: usize, const N: usize>(
    f: Frame<R, P, N>,
    locals: Seq<LocalModel>,
    name: Seq<char>,
    mutable: bool,
) -> Option<CodegenErrorKind> {
    match local_named(locals, name) {
        Some(index) => if mutable && !locals[index as int].mutable {
            Some(CodegenErrorKind::ImmutableAssignment)
        } else {
            None
        },
        None => match parameter_named(f.function.parameters@, name) {
            None => Some(CodegenErrorKind::UnknownRuntimeName),
            Some(_) => if mutable {
                Some(CodegenErrorKind::ImmutableAssignment)
            } else {
                None
            },
        },
    }
}

#[verifier::opaque]
pub open spec fn named_expression<R: ConstantResolver, const P: usize, const N: usize>(
    f: Frame<R, P, N>,
    tree: Tree,
    id: ExprId,
) -> bool {
    match form_at(tree, id) {
        Some(Form::Identifier(_)) => true,
        _ => false,
    }
}

/// The type of an expression. At the top of a tree its range patterns are checked first.
#[verifier::opaque]
pub open spec fn typed<R: ConstantResolver, const P: usize, const N: usize>(
    f: Frame<R, P, N>,
    locals: Seq<LocalModel>,
    tree: Tree,
    id: ExprId,
    depth: int,
) -> Typing
    decreases room(depth), 9int, 0int,
{
    if depth == 0 {
        match range_problem(tree, f.resolver) {
            Some(kind) => Err(kind),
            None => match problem_of_ranges(f, locals, tree, 0, 1) {
                Some(kind) => Err(kind),
                None => typed_node(f, locals, tree, id, depth),
            },
        }
    } else {
        typed_node(f, locals, tree, id, depth)
    }
}

/// What is wrong with the range patterns of a tree, from a place on.
#[verifier::opaque]
pub open spec fn problem_of_ranges<R: ConstantResolver, const P: usize, const N: usize>(
    f: Frame<R, P, N>,
    locals: Seq<LocalModel>,
    tree: Tree,
    index: int,
    depth: int,
) -> Option<CodegenErrorKind>
    decreases room(depth), 10int, tree.ranges.len() - index,
{
    if index >= tree.ranges.len() {
        None
    } else {
        first_of(
            problem_of_pattern(
                f,
                tree,
                typed_node(f, locals, tree, tree.ranges[index as int].scrutinee, depth),
                tree.ranges[index as int].start,
                tree.ranges[index as int].end,
            ),
            problem_of_ranges(f, locals, tree, index + 1, depth),
        )
    }
}

/// The type of the elements of an array, from a place on, behind those found.
#[verifier::opaque]
pub open spec fn typed_elements<R: ConstantResolver, const P: usize, const N: usize>(
    f: Frame<R, P, N>,
    locals: Seq<LocalModel>,
    tree: Tree,
    elements: Seq<Option<ExprId>>,
    index: usize,
    count: usize,
    found: RuntimeArrayElementType,
    depth: int,
) -> Result<RuntimeArrayElementType, CodegenErrorKind>
    decreases room(depth), 8int, elements.len() - index,
{
    if index >= count || index >= elements.len() {
        Ok(found)
    } else {
        match elements[index as int] {
            None => typed_elements(f, locals, tree, elements, (index + 1) as usize, count, found, depth),
            Some(id) => match typed_next_element(
                found,
                typed_node(f, locals, tree, id, depth),
            ) {
                Err(kind) => Err(kind),
                Ok(found) => typed_elements(
                    f,
                    locals,
                    tree,
                    elements,
                    (index + 1) as usize,
                    count,
                    found,
                    depth,
                ),
            },
        }
    }
}

#[verifier::opaque]
pub open spec fn problem_of_end<R: ConstantResolver, const P: usize, const N: usize>(
    f: Frame<R, P, N>,
    locals: Seq<LocalModel>,
    tree: Tree,
    id: Option<ExprId>,
    depth: int,
) -> Option<CodegenErrorKind>
    decreases room(depth), 8int, 0int,
{
    match id {
        None => None,
        Some(id) => typed_endpoint(typed_node(f, locals, tree, id, depth)),
    }
}

/// The type of a reference to an expression.
#[verifier::opaque]
pub open spec fn typed_address<R: ConstantResolver, const P: usize, const N: usize>(
    f: Frame<R, P, N>,
    locals: Seq<LocalModel>,
    tree: Tree,
    operand: ExprId,
    mutable: bool,
    depth: int,
) -> Typing
    decreases room(depth), 9int, 0int,
{
    match form_at(tree, operand) {
        None => Err(CodegenErrorKind::RuntimeExpressionUnsupported),
        Some(Form::Identifier(name)) => match problem_of_address(f, locals, name, mutable) {
            Some(kind) => Err(kind),
            None => typed_reference(
                typed_target(typed_node(f, locals, tree, operand, depth)),
                mutable,
            ),
        },
        Some(Form::Unary { operator: UnaryOperator::Dereference, operand: reference }) => {
            typed_reference(
                typed_reborrow(
                    typed_node(f, locals, tree, reference, depth),
                    mutable,
                ),
                mutable,
            )
        },
        Some(Form::RangeIndex { base, start, end, inclusive }) => typed_reference(
            typed_range(
                typed_node(f, locals, tree, base, depth),
                access_of_local(f, locals, tree, base),
                mutable,
                inclusive && end is None,
                first_of(
                    problem_of_end(f, locals, tree, start, depth),
                    problem_of_end(f, locals, tree, end, depth),
                ),
                bounds_problem(
                    tree,
                    start,
                    end,
                    inclusive,
                    counted(
                        typed_node(f, locals, tree, base, depth),
                        access_of_local(f, locals, tree, base),
                    ),
                    f.resolver,
                ),
            ),
            mutable,
        ),
        Some(Form::Index { base, index }) => typed_reference(
            typed_element(
                typed_node(f, locals, tree, index, depth),
                typed_node(f, locals, tree, base, depth),
                named_expression(f, tree, base),
                access_of_local(f, locals, tree, base) == Some(true),
                mutable,
            ),
            mutable,
        ),
        Some(_) => Err(CodegenErrorKind::RuntimeExpressionUnsupported),
    }
}

/// The type of an expression, by its form.
#[verifier::opaque]
pub open spec fn typed_node<R: ConstantResolver, const P: usize, const N: usize>(
    f: Frame<R, P, N>,
    locals: Seq<LocalModel>,
    tree: Tree,
    id: ExprId,
    depth: int,
) -> Typing
    decreases room(depth), 7int, 0int,
{
    if depth >= MAX_EXPRESSION_DEPTH {
        Err(CodegenErrorKind::Lowering(IrErrorKind::NestingLimitExceeded))
    } else {
        match form_at(tree, id) {
            None => Err(CodegenErrorKind::RuntimeExpressionUnsupported),
            Some(kind) => match kind {
                Form::Unit => Ok(RuntimeExpressionType::Unit),
                Form::DefaultValue => Ok(RuntimeExpressionType::Default),
                Form::Array { elements, element_count } => match typed_elements(
                    f,
                    locals,
                    tree,
                    elements,
                    0,
                    element_count,
                    RuntimeArrayElementType::Default,
                    depth + 1,
                ) {
                    Err(kind) => Err(kind),
                    Ok(element) => Ok(
                        RuntimeExpressionType::Array { element, count: element_count },
                    ),
                },
                Form::ArrayRepeat { element, count } => typed_repeat(
                    typed_node(f, locals, tree, element, depth + 1),
                    count,
                ),
                Form::Index { base, index } => typed_index(
                    typed_node(f, locals, tree, index, depth + 1),
                    typed_node(f, locals, tree, base, depth + 1),
                ),
                Form::RangeIndex { .. } => Err(CodegenErrorKind::RuntimeExpressionUnsupported),
                Form::SliceLen { base } => typed_slice_query(
                    typed_node(f, locals, tree, base, depth + 1),
                    RuntimeExpressionType::Integer(Some(IntegerType::Usize)),
                ),
                Form::SliceIsEmpty { base } => typed_slice_query(
                    typed_node(f, locals, tree, base, depth + 1),
                    RuntimeExpressionType::Bool,
                ),
                Form::StrAsBytes { base } => typed_string_bytes(
                    typed_node(f, locals, tree, base, depth + 1),
                ),
                Form::StrIsCharBoundary { base, index } => typed_char_boundary(
                    typed_node(f, locals, tree, base, depth + 1),
                    typed_node(f, locals, tree, index, depth + 1),
                ),
                Form::ReferenceAsPointer { base, mutable } => typed_pointer(
                    typed_node(f, locals, tree, base, depth + 1),
                    mutable,
                ),
                Form::Integer { value, suffix } => Ok(
                    RuntimeExpressionType::Integer(suffix_integer(suffix)),
                ),
                Form::Bool(_) => Ok(RuntimeExpressionType::Bool),
                Form::Char(_) => Ok(RuntimeExpressionType::Char),
                Form::Identifier(name) => Ok(typed_name(f, locals, name)),
                Form::Call { callee, argument_count, .. } => typed_call(
                    f,
                    callee,
                    argument_count,
                ),
                Form::InlineConst { operand } => match problem_of_const(
                    f,
                    locals,
                    tree,
                    operand,
                    depth + 1,
                ) {
                    Some(kind) => Err(kind),
                    None => typed_node(f, locals, tree, operand, depth + 1),
                },
                Form::Cast { operand, target } => typed_cast(
                    typed_node(f, locals, tree, operand, depth + 1),
                    target,
                ),
                Form::Ascribe { operand, target } => typed_ascription(
                    typed_node(f, locals, tree, operand, depth + 1),
                    target,
                ),
                Form::If { condition, then_branch, else_branch } => typed_choice(
                    typed_node(f, locals, tree, condition, depth + 1),
                    typed_node(f, locals, tree, then_branch, depth + 1),
                    typed_node(f, locals, tree, else_branch, depth + 1),
                ),
                Form::LoopBreakIf { condition, then_branch, else_branch } => typed_choice(
                    typed_node(f, locals, tree, condition, depth + 1),
                    typed_node(f, locals, tree, then_branch, depth + 1),
                    typed_node(f, locals, tree, else_branch, depth + 1),
                ),
                Form::Return { operand } => typed_node(
                    f,
                    locals,
                    tree,
                    operand,
                    depth + 1,
                ),
                Form::LoopBreak { operand } => typed_node(
                    f,
                    locals,
                    tree,
                    operand,
                    depth + 1,
                ),
                Form::Sequence { first, then } => typed_sequence(
                    typed_node(f, locals, tree, first, depth + 1),
                    typed_node(f, locals, tree, then, depth + 1),
                ),
                Form::Unary { operator, operand } => match operator {
                    UnaryOperator::Not => typed_node(
                        f,
                        locals,
                        tree,
                        operand,
                        depth + 1,
                    ),
                    UnaryOperator::Negate => typed_negation(
                        typed_node(f, locals, tree, operand, depth + 1),
                    ),
                    UnaryOperator::Dereference => typed_dereference(
                        typed_node(f, locals, tree, operand, depth + 1),
                    ),
                    UnaryOperator::AddressOf => typed_address(
                        f,
                        locals,
                        tree,
                        operand,
                        false,
                        depth + 1,
                    ),
                    UnaryOperator::AddressOfMut => typed_address(
                        f,
                        locals,
                        tree,
                        operand,
                        true,
                        depth + 1,
                    ),
                },
                Form::Binary { operator, left, right } => typed_binary(
                    operator,
                    typed_node(f, locals, tree, left, depth + 1),
                    typed_node(f, locals, tree, right, depth + 1),
                ),
            },
        }
    }
}

/// The type that an operation works on: for a comparison, that of its first operand.
#[verifier::opaque]
pub open spec fn typed_operation<R: ConstantResolver, const P: usize, const N: usize>(
    f: Frame<R, P, N>,
    locals: Seq<LocalModel>,
    tree: Tree,
    id: ExprId,
    ty: RuntimeExpressionType,
    depth: int,
) -> Typing {
    if ty == RuntimeExpressionType::Bool {
        match form_at(tree, id) {
            Some(Form::Binary { left, .. }) => typed(
                f,
                locals,
                tree,
                left,
                depth + 1,
            ),
            _ => Ok(ty),
        }
    } else {
        Ok(ty)
    }
}

/// Whether a name stands for a parameter or a local.
#[verifier::opaque]
pub open spec fn known_name<R: ConstantResolver, const P: usize, const N: usize>(
    f: Frame<R, P, N>,
    locals: Seq<LocalModel>,
    name: Seq<char>,
) -> bool {
    match parameter_named(f.function.parameters@, name) {
        Some(_) => true,
        None => match local_named(locals, name) {
            Some(_) => true,
            None => false,
        },
    }
}

pub proof fn problem_of_optional_rule<R: ConstantResolver, const P: usize, const N: usize>(
    f: Frame<R, P, N>,
    locals: Seq<LocalModel>,
    tree: Tree,
    id: Option<ExprId>,
    depth: int,
)
    ensures
        problem_of_optional(f, locals, tree, id, depth) == ({
            match id {
                Some(id) => problem_of_const(f, locals, tree, id, depth),
                None => None,
            }
        }),
{
    reveal(problem_of_optional);
    reveal(problem_of_const);
}

pub proof fn problem_of_elements_rule<R: ConstantResolver, const P: usize, const N: usize>(
    f: Frame<R, P, N>,
    locals: Seq<LocalModel>,
    tree: Tree,
    elements: Seq<Option<ExprId>>,
    index: usize,
    count: usize,
    depth: int,
)
    ensures
        problem_of_elements(f, locals, tree, elements, index, count, depth) == ({
            if index >= count || index >= elements.len() {
                None
            } else {
                first_of(
                    problem_of_optional(f, locals, tree, elements[index as int], depth),
                    problem_of_elements(f, locals, tree, elements, (index + 1) as usize, count, depth),
                )
            }
        }),
{
    reveal(problem_of_elements);
    reveal(problem_of_optional);
}

pub proof fn problem_of_const_rule<R: ConstantResolver, const P: usize, const N: usize>(
    f: Frame<R, P, N>,
    locals: Seq<LocalModel>,
    tree: Tree,
    id: ExprId,
    depth: int,
)
    ensures
        problem_of_const(f, locals, tree, id, depth) == ({
            if depth >= MAX_EXPRESSION_DEPTH {
                Some(CodegenErrorKind::Lowering(IrErrorKind::NestingLimitExceeded))
            } else {
                match form_at(tree, id) {
                    None => Some(CodegenErrorKind::RuntimeExpressionUnsupported),
                    Some(kind) => match kind {
                        Form::Identifier(name) => problem_of_name(f, locals, name),
                        Form::Call { callee, arguments, argument_count } => problem_of_call(
                            f,
                            tree,
                            callee,
                            arguments,
                            argument_count,
                        ),
                        Form::Array { elements, element_count } => problem_of_elements(
                            f,
                            locals,
                            tree,
                            elements,
                            0,
                            element_count,
                            depth + 1,
                        ),
                        Form::ArrayRepeat { element, .. } => problem_of_const(
                            f,
                            locals,
                            tree,
                            element,
                            depth + 1,
                        ),
                        Form::Index { base, index } => first_of(
                            problem_of_const(f, locals, tree, base, depth + 1),
                            problem_of_const(f, locals, tree, index, depth + 1),
                        ),
                        Form::RangeIndex { base, start, end, .. } => first_of(
                            problem_of_const(f, locals, tree, base, depth + 1),
                            first_of(
                                problem_of_optional(f, locals, tree, start, depth + 1),
                                problem_of_optional(f, locals, tree, end, depth + 1),
                            ),
                        ),
                        Form::SliceLen { base } => problem_of_const(
                            f,
                            locals,
                            tree,
                            base,
                            depth + 1,
                        ),
                        Form::SliceIsEmpty { base } => problem_of_const(
                            f,
                            locals,
                            tree,
                            base,
                            depth + 1,
                        ),
                        Form::StrAsBytes { base } => problem_of_const(
                            f,
                            locals,
                            tree,
                            base,
                            depth + 1,
                        ),
                        Form::StrIsCharBoundary { base, index } => first_of(
                            problem_of_const(f, locals, tree, base, depth + 1),
                            problem_of_const(f, locals, tree, index, depth + 1),
                        ),
                        Form::ReferenceAsPointer { base, .. } => problem_of_const(
                            f,
                            locals,
                            tree,
                            base,
                            depth + 1,
                        ),
                        Form::Cast { operand, .. } => problem_of_const(
                            f,
                            locals,
                            tree,
                            operand,
                            depth + 1,
                        ),
                        Form::Ascribe { operand, .. } => problem_of_const(
                            f,
                            locals,
                            tree,
                            operand,
                            depth + 1,
                        ),
                        Form::Unary { operand, .. } => problem_of_const(
                            f,
                            locals,
                            tree,
                            operand,
                            depth + 1,
                        ),
                        Form::Return { operand } => problem_of_const(
                            f,
                            locals,
                            tree,
                            operand,
                            depth + 1,
                        ),
                        Form::LoopBreak { operand } => problem_of_const(
                            f,
                            locals,
                            tree,
                            operand,
                            depth + 1,
                        ),
                        Form::InlineConst { operand } => problem_of_const(
                            f,
                            locals,
                            tree,
                            operand,
                            depth + 1,
                        ),
                        Form::Binary { left, right, .. } => first_of(
                            problem_of_const(f, locals, tree, left, depth + 1),
                            problem_of_const(f, locals, tree, right, depth + 1),
                        ),
                        Form::Sequence { first, then } => first_of(
                            problem_of_const(f, locals, tree, first, depth + 1),
                            problem_of_const(f, locals, tree, then, depth + 1),
                        ),
                        Form::If { condition, then_branch, else_branch } => first_of(
                            problem_of_const(f, locals, tree, condition, depth + 1),
                            first_of(
                                problem_of_const(f, locals, tree, then_branch, depth + 1),
                                problem_of_const(f, locals, tree, else_branch, depth + 1),
                            ),
                        ),
                        Form::LoopBreakIf { condition, then_branch, else_branch } => first_of(
                            problem_of_const(f, locals, tree, condition, depth + 1),
                            first_of(
                                problem_of_const(f, locals, tree, then_branch, depth + 1),
                                problem_of_const(f, locals, tree, else_branch, depth + 1),
                            ),
                        ),
                        Form::Unit | Form::DefaultValue | Form::Integer { .. } | Form::Bool(_)
                        | Form::Char(_) => None,
                    },
                }
            }
        }),
{
    reveal(problem_of_const);
    reveal(problem_of_optional);
    reveal(problem_of_elements);
}

pub proof fn typed_rule<R: ConstantResolver, const P: usize, const N: usize>(
    f: Frame<R, P, N>,
    locals: Seq<LocalModel>,
    tree: Tree,
    id: ExprId,
    depth: int,
)
    ensures
        typed(f, locals, tree, id, depth) == ({
            if depth == 0 {
                match range_problem(tree, f.resolver) {
                    Some(kind) => Err(kind),
                    None => match problem_of_ranges(f, locals, tree, 0, 1) {
                        Some(kind) => Err(kind),
                        None => typed_node(f, locals, tree, id, depth),
                    },
                }
            } else {
                typed_node(f, locals, tree, id, depth)
            }
        }),
{
    reveal(typed);
    reveal(problem_of_ranges);
    reveal(typed_node);
}

pub proof fn problem_of_ranges_rule<R: ConstantResolver, const P: usize, const N: usize>(
    f: Frame<R, P, N>,
    locals: Seq<LocalModel>,
    tree: Tree,
    index: int,
    depth: int,
)
    ensures
        problem_of_ranges(f, locals, tree, index, depth) == ({
            if index >= tree.ranges.len() {
                None
            } else {
                first_of(
                    problem_of_pattern(
                        f,
                        tree,
                        typed_node(f, locals, tree, tree.ranges[index as int].scrutinee, depth),
                        tree.ranges[index as int].start,
                        tree.ranges[index as int].end,
                    ),
                    problem_of_ranges(f, locals, tree, index + 1, depth),
                )
            }
        }),
{
    reveal(problem_of_ranges);
    reveal(typed_node);
}

pub proof fn typed_elements_rule<R: ConstantResolver, const P: usize, const N: usize>(
    f: Frame<R, P, N>,
    locals: Seq<LocalModel>,
    tree: Tree,
    elements: Seq<Option<ExprId>>,
    index: usize,
    count: usize,
    found: RuntimeArrayElementType,
    depth: int,
)
    ensures
        typed_elements(f, locals, tree, elements, index, count, found, depth) == ({
            if index >= count || index >= elements.len() {
                Ok(found)
            } else {
                match elements[index as int] {
                    None => typed_elements(
                        f,
                        locals,
                        tree,
                        elements,
                        (index + 1) as usize,
                        count,
                        found,
                        depth,
                    ),
                    Some(id) => match typed_next_element(
                        found,
                        typed_node(f, locals, tree, id, depth),
                    ) {
                        Err(kind) => Err(kind),
                        Ok(found) => typed_elements(
                            f,
                            locals,
                            tree,
                            elements,
                            (index + 1) as usize,
                            count,
                            found,
                            depth,
                        ),
                    },
                }
            }
        }),
{
    reveal(typed_elements);
    reveal(typed_node);
}

pub proof fn problem_of_end_rule<R: ConstantResolver, const P: usize, const N: usize>(
    f: Frame<R, P, N>,
    locals: Seq<LocalModel>,
    tree: Tree,
    id: Option<ExprId>,
    depth: int,
)
    ensures
        problem_of_end(f, locals, tree, id, depth) == ({
            match id {
                None => None,
                Some(id) => typed_endpoint(typed_node(f, locals, tree, id, depth)),
            }
        }),
{
    reveal(problem_of_end);
    reveal(typed_node);
}

pub proof fn typed_address_rule<R: ConstantResolver, const P: usize, const N: usize>(
    f: Frame<R, P, N>,
    locals: Seq<LocalModel>,
    tree: Tree,
    operand: ExprId,
    mutable: bool,
    depth: int,
)
    ensures
        typed_address(f, locals, tree, operand, mutable, depth) == ({
            match form_at(tree, operand) {
                None => Err(CodegenErrorKind::RuntimeExpressionUnsupported),
                Some(Form::Identifier(name)) => match problem_of_address(f, locals, name, mutable) {
                    Some(kind) => Err(kind),
                    None => typed_reference(
                        typed_target(typed_node(f, locals, tree, operand, depth)),
                        mutable,
                    ),
                },
                Some(Form::Unary { operator: UnaryOperator::Dereference, operand: reference }) => {
                    typed_reference(
                        typed_reborrow(
                            typed_node(f, locals, tree, reference, depth),
                            mutable,
                        ),
                        mutable,
                    )
                },
                Some(Form::RangeIndex { base, start, end, inclusive }) => typed_reference(
                    typed_range(
                        typed_node(f, locals, tree, base, depth),
                        access_of_local(f, locals, tree, base),
                        mutable,
                        inclusive && end is None,
                        first_of(
                            problem_of_end(f, locals, tree, start, depth),
                            problem_of_end(f, locals, tree, end, depth),
                        ),
                        bounds_problem(
                            tree,
                            start,
                            end,
                            inclusive,
                            counted(
                                typed_node(f, locals, tree, base, depth),
                                access_of_local(f, locals, tree, base),
                            ),
                            f.resolver,
                        ),
                    ),
                    mutable,
                ),
                Some(Form::Index { base, index }) => typed_reference(
                    typed_element(
                        typed_node(f, locals, tree, index, depth),
                        typed_node(f, locals, tree, base, depth),
                        named_expression(f, tree, base),
                        access_of_local(f, locals, tree, base) == Some(true),
                        mutable,
                    ),
                    mutable,
                ),
                Some(_) => Err(CodegenErrorKind::RuntimeExpressionUnsupported),
            }
        }),
{
    reveal(typed_address);
    reveal(problem_of_end);
    reveal(typed_node);
}

pub proof fn typed_node_rule<R: ConstantResolver, const P: usize, const N: usize>(
    f: Frame<R, P, N>,
    locals: Seq<LocalModel>,
    tree: Tree,
    id: ExprId,
    depth: int,
)
    ensures
        typed_node(f, locals, tree, id, depth) == ({
            if depth >= MAX_EXPRESSION_DEPTH {
                Err(CodegenErrorKind::Lowering(IrErrorKind::NestingLimitExceeded))
            } else {
                match form_at(tree, id) {
                    None => Err(CodegenErrorKind::RuntimeExpressionUnsupported),
                    Some(kind) => match kind {
                        Form::Unit => Ok(RuntimeExpressionType::Unit),
                        Form::DefaultValue => Ok(RuntimeExpressionType::Default),
                        Form::Array { elements, element_count } => match typed_elements(
                            f,
                            locals,
                            tree,
                            elements,
                            0,
                            element_count,
                            RuntimeArrayElementType::Default,
                            depth + 1,
                        ) {
                            Err(kind) => Err(kind),
                            Ok(element) => Ok(
                                RuntimeExpressionType::Array { element, count: element_count },
                            ),
                        },
                        Form::ArrayRepeat { element, count } => typed_repeat(
                            typed_node(f, locals, tree, element, depth + 1),
                            count,
                        ),
                        Form::Index { base, index } => typed_index(
                            typed_node(f, locals, tree, index, depth + 1),
                            typed_node(f, locals, tree, base, depth + 1),
                        ),
                        Form::RangeIndex { .. } => Err(CodegenErrorKind::RuntimeExpressionUnsupported),
                        Form::SliceLen { base } => typed_slice_query(
                            typed_node(f, locals, tree, base, depth + 1),
                            RuntimeExpressionType::Integer(Some(IntegerType::Usize)),
                        ),
                        Form::SliceIsEmpty { base } => typed_slice_query(
                            typed_node(f, locals, tree, base, depth + 1),
                            RuntimeExpressionType::Bool,
                        ),
                        Form::StrAsBytes { base } => typed_string_bytes(
                            typed_node(f, locals, tree, base, depth + 1),
                        ),
                        Form::StrIsCharBoundary { base, index } => typed_char_boundary(
                            typed_node(f, locals, tree, base, depth + 1),
                            typed_node(f, locals, tree, index, depth + 1),
                        ),
                        Form::ReferenceAsPointer { base, mutable } => typed_pointer(
                            typed_node(f, locals, tree, base, depth + 1),
                            mutable,
                        ),
                        Form::Integer { value, suffix } => Ok(
                            RuntimeExpressionType::Integer(suffix_integer(suffix)),
                        ),
                        Form::Bool(_) => Ok(RuntimeExpressionType::Bool),
                        Form::Char(_) => Ok(RuntimeExpressionType::Char),
                        Form::Identifier(name) => Ok(typed_name(f, locals, name)),
                        Form::Call { callee, argument_count, .. } => typed_call(
                            f,
                            callee,
                            argument_count,
                        ),
                        Form::InlineConst { operand } => match problem_of_const(
                            f,
                            locals,
                            tree,
                            operand,
                            depth + 1,
                        ) {
                            Some(kind) => Err(kind),
                            None => typed_node(f, locals, tree, operand, depth + 1),
                        },
                        Form::Cast { operand, target } => typed_cast(
                            typed_node(f, locals, tree, operand, depth + 1),
                            target,
                        ),
                        Form::Ascribe { operand, target } => typed_ascription(
                            typed_node(f, locals, tree, operand, depth + 1),
                            target,
                        ),
                        Form::If { condition, then_branch, else_branch } => typed_choice(
                            typed_node(f, locals, tree, condition, depth + 1),
                            typed_node(f, locals, tree, then_branch, depth + 1),
                            typed_node(f, locals, tree, else_branch, depth + 1),
                        ),
                        Form::LoopBreakIf { condition, then_branch, else_branch } => typed_choice(
                            typed_node(f, locals, tree, condition, depth + 1),
                            typed_node(f, locals, tree, then_branch, depth + 1),
                            typed_node(f, locals, tree, else_branch, depth + 1),
                        ),
                        Form::Return { operand } => typed_node(
                            f,
                            locals,
                            tree,
                            operand,
                            depth + 1,
                        ),
                        Form::LoopBreak { operand } => typed_node(
                            f,
                            locals,
                            tree,
                            operand,
                            depth + 1,
                        ),
                        Form::Sequence { first, then } => typed_sequence(
                            typed_node(f, locals, tree, first, depth + 1),
                            typed_node(f, locals, tree, then, depth + 1),
                        ),
                        Form::Unary { operator, operand } => match operator {
                            UnaryOperator::Not => typed_node(
                                f,
                                locals,
                                tree,
                                operand,
                                depth + 1,
                            ),
                            UnaryOperator::Negate => typed_negation(
                                typed_node(f, locals, tree, operand, depth + 1),
                            ),
                            UnaryOperator::Dereference => typed_dereference(
                                typed_node(f, locals, tree, operand, depth + 1),
                            ),
                            UnaryOperator::AddressOf => typed_address(
                                f,
                                locals,
                                tree,
                                operand,
                                false,
                                depth + 1,
                            ),
                            UnaryOperator::AddressOfMut => typed_address(
                                f,
                                locals,
                                tree,
                                operand,
                                true,
                                depth + 1,
                            ),
                        },
                        Form::Binary { operator, left, right } => typed_binary(
                            operator,
                            typed_node(f, locals, tree, left, depth + 1),
                            typed_node(f, locals, tree, right, depth + 1),
                        ),
                    },
                }
            }
        }),
{
    reveal(typed_node);
    reveal(typed_elements);
    reveal(typed_address);
}

} // verus!
