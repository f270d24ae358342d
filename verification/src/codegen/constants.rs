//! Functions whose value is known before the program runs.
use crate::codegen::error::{
    CodegenError, CodegenErrorKind,
};
use crate::codegen::frame::{
    Frame, RuntimeLocal, local_models, place_from, span_from, translate_place,
    translate_span,
};
use crate::codegen::runtime::{
    RuntimeExpressionType, integer_width, runtime_types_compatible, types_agree,
    width_of_integer,
};
use crate::codegen::types::find;
use crate::expression::{
    ConstantResolver, ExpressionTree, Tree,
};
use crate::function::{
    Assignment, BodyStatement, FunctionBody, LocalBinding,
};
use crate::integer::{
    ConstEvalError, IntegerType, binary_value, cast_integer, cast_value, evaluate_binary,
    integer_type_named,
};
use crate::ir::{
    lower_expression, lowered_tree, run,
    ExecutionError, IrError,
};
use crate::text::same_text;
use crate::token::Span;
use crate::codegen::encoding::{
    assignment_binary_operator, operation_of_assignment,
};
use crate::codegen::typing::typed;
use crate::codegen::typer::{
    call_type, runtime_expression_type_with_locals,
};
use crate::codegen::trees::{
    body_error, body_tree, error_in_body, parse_body_tree, tree_and_type, typed_tree,
    value_of_type, value_tree,
};
use vstd::prelude::*;

verus! {

pub const MAX_FUNCTION_IR_INSTRUCTIONS: usize = 256;

pub const MAX_FUNCTION_STACK_VALUES: usize = 64;

/// A local whose value is known.
#[derive(Clone, Copy, Debug, PartialEq, Eq)]
pub struct ConstantLocal<'source> {
    pub name: &'source str,
    pub value: u128,
    pub ty: IntegerType,
    pub mutable: bool,
}

/// The locals whose values are known, the last first.
pub enum Bindings<'source> {
    Empty,
    Bound { local: ConstantLocal<'source>, rest: Box<Bindings<'source>> },
}

impl<'source> Bindings<'source> {
    /// The local of a name.
    pub open spec fn named(self, name: Seq<char>) -> Option<ConstantLocal<'source>>
        decreases self,
    {
        match self {
            Bindings::Empty => None,
            Bindings::Bound { local, rest } => if local.name@ == name {
                Some(local)
            } else {
                rest.named(name)
            },
        }
    }

    pub fn find(&self, name: &str) -> (result: Option<ConstantLocal<'source>>)
        ensures
            result == self.named(name@),
        decreases self,
    {
        match self {
            Bindings::Empty => None,
            Bindings::Bound { local, rest } => {
                if same_text(local.name, name) {
                    Some(*local)
                } else {
                    rest.find(name)
                }
            },
        }
    }

    /// The same locals, the one of a name with another value.
    pub open spec fn with_value(self, name: Seq<char>, value: u128) -> Bindings<'source>
        decreases self,
    {
        match self {
            Bindings::Empty => Bindings::Empty,
            Bindings::Bound { local, rest } => if local.name@ == name {
                Bindings::Bound { local: ConstantLocal { value, ..local }, rest }
            } else {
                Bindings::Bound { local, rest: Box::new(rest.with_value(name, value)) }
            },
        }
    }

    pub fn change(self, name: &str, value: u128) -> (result: Bindings<'source>)
        ensures
            result == self.with_value(name@, value),
        decreases self,
    {
        match self {
            Bindings::Empty => Bindings::Empty,
            Bindings::Bound { local, rest } => {
                if same_text(local.name, name) {
                    Bindings::Bound {
                        local: ConstantLocal {
                            name: local.name,
                            value,
                            ty: local.ty,
                            mutable: local.mutable,
                        },
                        rest,
                    }
                } else {
                    let changed = (*rest).change(name, value);
                    Bindings::Bound { local, rest: Box::new(changed) }
                }
            },
        }
    }
}

/// The resolver that knows the locals beside the constants.
pub struct LocalResolver<'values, 'source, R> {
    pub outer: &'values R,
    pub values: &'values Bindings<'source>,
}

impl<'values, 'source, R: ConstantResolver> ConstantResolver for LocalResolver<'values, 'source, R> {
    open spec fn value_of(&self, name: Seq<char>) -> Option<u128> {
        match self.values.named(name) {
            Some(local) => Some(local.value),
            None => self.outer.value_of(name),
        }
    }

    open spec fn type_of(&self, name: Seq<char>) -> Option<IntegerType> {
        self.outer.type_of(name)
    }

    open spec fn bool_named(&self, name: Seq<char>) -> bool {
        self.outer.bool_named(name)
    }

    open spec fn call_value(&self, name: Seq<char>, arguments: Seq<u128>) -> Option<u128> {
        self.outer.call_value(name, arguments)
    }

    open spec fn call_type(&self, name: Seq<char>, argument_count: usize) -> Option<IntegerType> {
        self.outer.call_type(name, argument_count)
    }

    open spec fn call_bool(&self, name: Seq<char>, argument_count: usize) -> bool {
        self.outer.call_bool(name, argument_count)
    }

    fn resolve(&self, name: &str) -> (value: Option<u128>) {
        match self.values.find(name) {
            Some(local) => Some(local.value),
            None => self.outer.resolve(name),
        }
    }

    fn resolve_type(&self, name: &str) -> (ty: Option<IntegerType>) {
        self.outer.resolve_type(name)
    }

    fn resolves_bool(&self, name: &str) -> (result: bool) {
        self.outer.resolves_bool(name)
    }

    fn resolve_call(&self, name: &str, arguments: &[u128]) -> (value: Option<u128>) {
        self.outer.resolve_call(name, arguments)
    }

    fn resolve_call_type(&self, name: &str, argument_count: usize) -> (ty: Option<IntegerType>) {
        self.outer.resolve_call_type(name, argument_count)
    }

    fn call_resolves_bool(&self, name: &str, argument_count: usize) -> (result: bool) {
        self.outer.call_resolves_bool(name, argument_count)
    }
}

/// Why an expression cannot be computed.
#[derive(Clone, Copy, Debug, PartialEq, Eq, Structural)]
pub enum ComputeError {
    Lowering(IrError),
    Execution(ExecutionError),
}

/// What running the code of a tree gives.
#[verifier::opaque]
pub open spec fn computed<R: ConstantResolver>(tree: Tree, resolver: &R) -> Result<u128, ComputeError> {
    match lowered_tree(tree, 64, MAX_FUNCTION_IR_INSTRUCTIONS as int) {
        Err(error) => Err(ComputeError::Lowering(error)),
        Ok(code) => match run(code, resolver, 0, seq![], MAX_FUNCTION_STACK_VALUES as int) {
            Err(error) => Err(ComputeError::Execution(error)),
            Ok(value) => Ok(value),
        },
    }
}

pub fn compute<R: ConstantResolver, const N: usize>(tree: &ExpressionTree<'_, N>, resolver: &R) -> (result:
    Result<u128, ComputeError>)
    ensures
        result == computed(tree@, resolver),
{
    proof {
        reveal(computed);
    }
    match lower_expression::<MAX_FUNCTION_IR_INSTRUCTIONS, N>(tree) {
        Err(error) => Err(ComputeError::Lowering(error)),
        Ok(program) => match program.execute::<R, MAX_FUNCTION_STACK_VALUES>(resolver) {
            Err(error) => Err(ComputeError::Execution(error)),
            Ok(value) => Ok(value),
        },
    }
}

/// Whether a value is one of a type.
pub open spec fn value_fits(value: u128, ty: IntegerType) -> bool {
    cast_value(value, ty, 64) == Ok::<u128, ConstEvalError>(value)
}

pub fn fits(value: u128, ty: IntegerType) -> (result: bool)
    ensures
        result == value_fits(value, ty),
{
    match cast_integer(value, ty, 64) {
        Ok(cast) => cast == value,
        Err(_) => false,
    }
}

/// The value of an expression of the body, where the locals are known.
#[verifier::opaque]
pub open spec fn bound_value<R: ConstantResolver, const P: usize, const N: usize>(
    f: Frame<R, P, N>,
    bindings: Bindings,
    tree: Tree,
    span: Span,
) -> Result<u128, CodegenError> {
    match computed(tree, &LocalResolver { outer: f.resolver, values: &bindings }) {
        Err(ComputeError::Lowering(error)) => Err(
            CodegenError {
                kind: CodegenErrorKind::Lowering(error.kind),
                span: span_from(
                    place_from(f.function.body_expression_span.start, span.start),
                    error.span,
                ),
            },
        ),
        Err(ComputeError::Execution(error)) => Err(
            error_in_body(f, CodegenErrorKind::Execution(error), span),
        ),
        Ok(value) => Ok(value),
    }
}

pub fn evaluate_bound<R: ConstantResolver, const P: usize, const N: usize>(
    frame: &Frame<R, P, N>,
    bindings: &Bindings,
    tree: &ExpressionTree<'_, N>,
    span: Span,
) -> (result: Result<u128, CodegenError>)
    ensures
        result == bound_value(*frame, *bindings, tree@, span),
{
    proof {
        reveal(bound_value);
    }
    let resolver = LocalResolver { outer: frame.resolver, values: bindings };
    match compute(tree, &resolver) {
        Err(ComputeError::Lowering(error)) => Err(
            CodegenError {
                kind: CodegenErrorKind::Lowering(error.kind),
                span: translate_span(
                    translate_place(frame.function.body_expression_span.start, span.start),
                    error.span,
                ),
            },
        ),
        Err(ComputeError::Execution(error)) => Err(
            body_error(frame, CodegenErrorKind::Execution(error), span),
        ),
        Ok(value) => Ok(value),
    }
}

/// The type of a local of a constant function; without a type of its own it has that of its value,
/// or else that of the result.
#[verifier::opaque]
pub open spec fn constant_type<R: ConstantResolver, const P: usize, const N: usize>(
    f: Frame<R, P, N>,
    local: LocalBinding,
    ty: RuntimeExpressionType,
    result: IntegerType,
) -> Result<IntegerType, CodegenError> {
    match local.ty {
        Some(declared) => match integer_type_named(declared.text@) {
            Some(integer) => match width_of_integer(integer) {
                Some(_) => Ok(integer),
                None => Err(
                    error_in_body(f, CodegenErrorKind::UnsupportedRuntimeType, declared.span),
                ),
            },
            None => Err(error_in_body(f, CodegenErrorKind::UnsupportedRuntimeType, declared.span)),
        },
        None => match ty {
            RuntimeExpressionType::Integer(Some(integer)) => Ok(integer),
            RuntimeExpressionType::Integer(None) => Ok(result),
            _ => Err(
                error_in_body(f, CodegenErrorKind::RuntimeTypeMismatch, local.initializer_span),
            ),
        },
    }
}

pub fn constant_local_type<R: ConstantResolver, const P: usize, const N: usize>(
    frame: &Frame<R, P, N>,
    local: &LocalBinding,
    ty: RuntimeExpressionType,
    result_type: IntegerType,
) -> (result: Result<IntegerType, CodegenError>)
    ensures
        result == constant_type(*frame, *local, ty, result_type),
{
    proof {
        reveal(constant_type);
    }
    match local.ty {
        Some(declared) => match IntegerType::from_name(declared.text) {
            Some(integer) => match integer_width(integer) {
                Some(_) => Ok(integer),
                None => Err(
                    body_error(frame, CodegenErrorKind::UnsupportedRuntimeType, declared.span),
                ),
            },
            None => Err(body_error(frame, CodegenErrorKind::UnsupportedRuntimeType, declared.span)),
        },
        None => match ty {
            RuntimeExpressionType::Integer(Some(integer)) => Ok(integer),
            RuntimeExpressionType::Integer(None) => Ok(result_type),
            _ => Err(
                body_error(frame, CodegenErrorKind::RuntimeTypeMismatch, local.initializer_span),
            ),
        },
    }
}

/// A local of a constant function.
#[verifier::opaque]
pub open spec fn constant_local<'source, R: ConstantResolver, const P: usize, const N: usize>(
    f: Frame<R, P, N>,
    bindings: Bindings<'source>,
    local: LocalBinding<'source>,
    result: IntegerType,
) -> Result<ConstantLocal<'source>, CodegenError> {
    match bindings.named(local.name@) {
        Some(_) => Err(error_in_body(f, CodegenErrorKind::DuplicateLocal, local.name_span)),
        None => match tree_and_type(f, seq![], local.initializer@, local.initializer_span) {
            Err(error) => Err(error),
            Ok((tree, ty)) => match constant_type(f, local, ty, result) {
                Err(error) => Err(error),
                Ok(integer) => if !types_agree(ty, RuntimeExpressionType::Integer(Some(integer))) {
                    Err(
                        error_in_body(
                            f,
                            CodegenErrorKind::RuntimeTypeMismatch,
                            local.initializer_span,
                        ),
                    )
                } else {
                    match bound_value(f, bindings, tree, local.initializer_span) {
                        Err(error) => Err(error),
                        Ok(value) => if value_fits(value, integer) {
                            Ok(
                                ConstantLocal {
                                    name: local.name,
                                    value,
                                    ty: integer,
                                    mutable: local.mutable,
                                },
                            )
                        } else {
                            Err(
                                error_in_body(
                                    f,
                                    CodegenErrorKind::ValueOutOfRange,
                                    local.initializer_span,
                                ),
                            )
                        },
                    }
                },
            },
        },
    }
}

pub fn evaluate_local<'source, R: ConstantResolver, const P: usize, const N: usize>(
    frame: &Frame<R, P, N>,
    bindings: &Bindings<'source>,
    local: &LocalBinding<'source>,
    result_type: IntegerType,
) -> (result: Result<ConstantLocal<'source>, CodegenError>)
    ensures
        result == constant_local(*frame, *bindings, *local, result_type),
{
    proof {
        reveal(constant_local);
    }
    if bindings.find(local.name).is_some() {
        return Err(body_error(frame, CodegenErrorKind::DuplicateLocal, local.name_span));
    }
    let locals: Vec<RuntimeLocal> = Vec::new();
    proof {
        assert(local_models(locals@) =~= seq![]);
    }
    let (tree, ty) = typed_tree(frame, &locals, local.initializer, local.initializer_span)?;
    let integer = constant_local_type(frame, local, ty, result_type)?;
    if !runtime_types_compatible(ty, RuntimeExpressionType::Integer(Some(integer))) {
        return Err(
            body_error(frame, CodegenErrorKind::RuntimeTypeMismatch, local.initializer_span),
        );
    }
    let value: u128 = evaluate_bound(frame, bindings, &tree, local.initializer_span)?;
    if !fits(value, integer) {
        return Err(body_error(frame, CodegenErrorKind::ValueOutOfRange, local.initializer_span));
    }
    Ok(ConstantLocal { name: local.name, value, ty: integer, mutable: local.mutable })
}

/// The locals of a constant function, from a statement on.
#[verifier::opaque]
pub open spec fn constant_locals<'source, R: ConstantResolver, const P: usize, const N: usize>(
    f: Frame<R, P, N>,
    bindings: Bindings<'source>,
    statements: Seq<BodyStatement<'source>>,
    result: IntegerType,
    index: int,
) -> Result<Bindings<'source>, CodegenError>
    decreases statements.len() - index,
{
    if index < 0 || index >= statements.len() {
        Ok(bindings)
    } else {
        match statements[index] {
            BodyStatement::Local(local) => match constant_local(f, bindings, local, result) {
                Err(error) => Err(error),
                Ok(local) => constant_locals(
                    f,
                    Bindings::Bound { local, rest: Box::new(bindings) },
                    statements,
                    result,
                    index + 1,
                ),
            },
            _ => constant_locals(f, bindings, statements, result, index + 1),
        }
    }
}

pub fn evaluate_locals<'source, R: ConstantResolver, const P: usize, const N: usize>(
    frame: &Frame<R, P, N>,
    bindings: Bindings<'source>,
    statements: &Vec<BodyStatement<'source>>,
    result_type: IntegerType,
    index: usize,
) -> (result: Result<Bindings<'source>, CodegenError>)
    ensures
        result == constant_locals(*frame, bindings, statements@, result_type, index as int),
    decreases statements@.len() - index,
{
    proof {
        reveal(constant_locals);
    }
    if index >= statements.len() {
        return Ok(bindings);
    }
    match &statements[index] {
        BodyStatement::Local(local) => {
            let local = evaluate_local(frame, &bindings, local, result_type)?;
            evaluate_locals(
                frame,
                Bindings::Bound { local, rest: Box::new(bindings) },
                statements,
                result_type,
                index + 1,
            )
        },
        _ => evaluate_locals(frame, bindings, statements, result_type, index + 1),
    }
}

/// The value that an assignment gives a local of a constant function.
#[verifier::opaque]
pub open spec fn assigned_constant<R: ConstantResolver, const P: usize, const N: usize>(
    f: Frame<R, P, N>,
    bindings: Bindings,
    assignment: Assignment,
) -> Result<u128, CodegenError> {
    if assignment.index is Some {
        Err(
            error_in_body(
                f,
                CodegenErrorKind::RuntimeExpressionUnsupported,
                assignment.name_span,
            ),
        )
    } else {
        match bindings.named(assignment.name@) {
            None => Err(
                error_in_body(f, CodegenErrorKind::UnknownRuntimeName, assignment.name_span),
            ),
            Some(target) => if !target.mutable {
                Err(error_in_body(f, CodegenErrorKind::ImmutableAssignment, assignment.name_span))
            } else {
                match value_of_type(
                    f,
                    seq![],
                    assignment.value@,
                    assignment.value_span,
                    RuntimeExpressionType::Integer(Some(target.ty)),
                ) {
                    Err(error) => Err(error),
                    Ok(tree) => match bound_value(f, bindings, tree, assignment.value_span) {
                        Err(error) => Err(error),
                        Ok(right) => {
                            let value = match operation_of_assignment(assignment.operator) {
                                None => Ok(right),
                                Some(operator) => binary_value(operator, target.value, right),
                            };
                            match value {
                                Err(error) => Err(
                                    error_in_body(
                                        f,
                                        CodegenErrorKind::Execution(
                                            ExecutionError::Arithmetic(error),
                                        ),
                                        assignment.value_span,
                                    ),
                                ),
                                Ok(value) => if value_fits(value, target.ty) {
                                    Ok(value)
                                } else {
                                    Err(
                                        error_in_body(
                                            f,
                                            CodegenErrorKind::ValueOutOfRange,
                                            assignment.value_span,
                                        ),
                                    )
                                },
                            }
                        },
                    },
                }
            },
        }
    }
}

pub fn evaluate_assignment<R: ConstantResolver, const P: usize, const N: usize>(
    frame: &Frame<R, P, N>,
    bindings: &Bindings,
    assignment: &Assignment,
) -> (result: Result<u128, CodegenError>)
    ensures
        result == assigned_constant(*frame, *bindings, *assignment),
{
    proof {
        reveal(assigned_constant);
    }
    if assignment.index.is_some() {
        return Err(
            body_error(
                frame,
                CodegenErrorKind::RuntimeExpressionUnsupported,
                assignment.name_span,
            ),
        );
    }
    let target = match bindings.find(assignment.name) {
        Some(target) => target,
        None => return Err(
            body_error(frame, CodegenErrorKind::UnknownRuntimeName, assignment.name_span),
        ),
    };
    if !target.mutable {
        return Err(body_error(frame, CodegenErrorKind::ImmutableAssignment, assignment.name_span));
    }
    let locals: Vec<RuntimeLocal> = Vec::new();
    proof {
        assert(local_models(locals@) =~= seq![]);
    }
    let tree = value_tree(
        frame,
        &locals,
        assignment.value,
        assignment.value_span,
        RuntimeExpressionType::Integer(Some(target.ty)),
    )?;
    let right: u128 = evaluate_bound(frame, bindings, &tree, assignment.value_span)?;
    let value: Result<u128, ConstEvalError> = match assignment_binary_operator(
        assignment.operator,
    ) {
        None => Ok(right),
        Some(operator) => evaluate_binary(operator, target.value, right),
    };
    match value {
        Err(error) => Err(
            body_error(
                frame,
                CodegenErrorKind::Execution(ExecutionError::Arithmetic(error)),
                assignment.value_span,
            ),
        ),
        Ok(value) => {
            if fits(value, target.ty) {
                Ok(value)
            } else {
                Err(body_error(frame, CodegenErrorKind::ValueOutOfRange, assignment.value_span))
            }
        },
    }
}

/// The locals of a constant function behind its assignments, from a statement on.
#[verifier::opaque]
pub open spec fn constant_assignments<'source, R: ConstantResolver, const P: usize, const N: usize>(
    f: Frame<R, P, N>,
    bindings: Bindings<'source>,
    statements: Seq<BodyStatement<'source>>,
    index: int,
) -> Result<Bindings<'source>, CodegenError>
    decreases statements.len() - index,
{
    if index < 0 || index >= statements.len() {
        Ok(bindings)
    } else {
        match statements[index] {
            BodyStatement::Assignment(assignment) => match assigned_constant(
                f,
                bindings,
                assignment,
            ) {
                Err(error) => Err(error),
                Ok(value) => constant_assignments(
                    f,
                    bindings.with_value(assignment.name@, value),
                    statements,
                    index + 1,
                ),
            },
            _ => constant_assignments(f, bindings, statements, index + 1),
        }
    }
}

pub fn evaluate_assignments<'source, R: ConstantResolver, const P: usize, const N: usize>(
    frame: &Frame<R, P, N>,
    bindings: Bindings<'source>,
    statements: &Vec<BodyStatement<'source>>,
    index: usize,
) -> (result: Result<Bindings<'source>, CodegenError>)
    ensures
        result == constant_assignments(*frame, bindings, statements@, index as int),
    decreases statements@.len() - index,
{
    proof {
        reveal(constant_assignments);
    }
    if index >= statements.len() {
        return Ok(bindings);
    }
    match &statements[index] {
        BodyStatement::Assignment(assignment) => {
            let value: u128 = evaluate_assignment(frame, &bindings, assignment)?;
            evaluate_assignments(
                frame,
                bindings.change(assignment.name, value),
                statements,
                index + 1,
            )
        },
        _ => evaluate_assignments(frame, bindings, statements, index + 1),
    }
}

/// The value of a constant function, behind its statements.
#[verifier::opaque]
pub open spec fn constant_tail<R: ConstantResolver, const P: usize, const N: usize>(
    f: Frame<R, P, N>,
    bindings: Bindings,
    body: FunctionBody,
    result: IntegerType,
) -> Result<u128, CodegenError> {
    let whole = f.function.body_expression_span;
    match body_tree(f, body.tail@, body.tail_span) {
        Err(error) => Err(error),
        Ok(tree) => match typed(f, seq![], tree, tree.root, 0) {
            Err(kind) => Err(CodegenError { kind, span: whole }),
            Ok(ty) => if !types_agree(ty, RuntimeExpressionType::Integer(Some(result))) {
                Err(CodegenError { kind: CodegenErrorKind::RuntimeTypeMismatch, span: whole })
            } else {
                match computed(tree, &LocalResolver { outer: f.resolver, values: &bindings }) {
                    Err(ComputeError::Lowering(error)) => Err(
                        error_in_body(f, CodegenErrorKind::Lowering(error.kind), error.span),
                    ),
                    Err(ComputeError::Execution(error)) => Err(
                        CodegenError { kind: CodegenErrorKind::Execution(error), span: whole },
                    ),
                    Ok(value) => if value_fits(value, result) {
                        Ok(value)
                    } else {
                        Err(CodegenError { kind: CodegenErrorKind::ValueOutOfRange, span: whole })
                    },
                }
            },
        },
    }
}

pub fn evaluate_tail<R: ConstantResolver, const P: usize, const N: usize>(
    frame: &Frame<R, P, N>,
    bindings: &Bindings,
    body: &FunctionBody,
    result_type: IntegerType,
) -> (result: Result<u128, CodegenError>)
    ensures
        result == constant_tail(*frame, *bindings, *body, result_type),
{
    proof {
        reveal(constant_tail);
    }
    let whole = frame.function.body_expression_span;
    let tree = parse_body_tree(frame, body.tail, body.tail_span)?;
    let locals: Vec<RuntimeLocal> = Vec::new();
    proof {
        assert(local_models(locals@) =~= seq![]);
    }
    let ty = match runtime_expression_type_with_locals(frame, &locals, &tree, tree.root(), 0) {
        Ok(ty) => ty,
        Err(kind) => return Err(CodegenError { kind, span: whole }),
    };
    if !runtime_types_compatible(ty, RuntimeExpressionType::Integer(Some(result_type))) {
        return Err(CodegenError { kind: CodegenErrorKind::RuntimeTypeMismatch, span: whole });
    }
    let resolver = LocalResolver { outer: frame.resolver, values: bindings };
    match compute(&tree, &resolver) {
        Err(ComputeError::Lowering(error)) => Err(
            body_error(frame, CodegenErrorKind::Lowering(error.kind), error.span),
        ),
        Err(ComputeError::Execution(error)) => Err(
            CodegenError { kind: CodegenErrorKind::Execution(error), span: whole },
        ),
        Ok(value) => {
            if fits(value, result_type) {
                Ok(value)
            } else {
                Err(CodegenError { kind: CodegenErrorKind::ValueOutOfRange, span: whole })
            }
        },
    }
}

/// The value of a body that is known before the program runs.
#[verifier::opaque]
pub open spec fn constant_body<R: ConstantResolver, const P: usize, const N: usize>(
    f: Frame<R, P, N>,
    body: FunctionBody,
    result: IntegerType,
) -> Result<u128, CodegenError> {
    match constant_locals(f, Bindings::Empty, body.statements@, result, 0) {
        Err(error) => Err(error),
        Ok(bindings) => match constant_assignments(f, bindings, body.statements@, 0) {
            Err(error) => Err(error),
            Ok(bindings) => constant_tail(f, bindings, body, result),
        },
    }
}

pub fn evaluate_body<R: ConstantResolver, const P: usize, const N: usize>(
    frame: &Frame<R, P, N>,
    body: &FunctionBody,
    result_type: IntegerType,
) -> (result: Result<u128, CodegenError>)
    ensures
        result == constant_body(*frame, *body, result_type),
{
    proof {
        reveal(constant_body);
    }
    let bindings = evaluate_locals(frame, Bindings::Empty, &body.statements, result_type, 0)?;
    let bindings = evaluate_assignments(frame, bindings, &body.statements, 0)?;
    evaluate_tail(frame, &bindings, body, result_type)
}

} // verus!
