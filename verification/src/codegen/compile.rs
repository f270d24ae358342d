//! From functions to machine code.
use vstd::string::StrSliceExecFns;
use crate::codegen::error::{
    CodegenError, CodegenErrorKind,
};
use crate::codegen::frame::{
    CodegenOptions, Frame, RuntimeLocal, X86_64Abi, local_models, span_from, translate_span,
};
use crate::codegen::runtime::{
    RuntimeExpressionType, RuntimeWidth, checked_sum, integer_width, runtime_width, sum_of,
    width_named, width_of_integer,
};
use crate::codegen::types::{
    array_type, find, place_of, runtime_array_type,
};
use crate::expression::ConstantResolver;
use crate::function::{
    BodyStatement, Function, FunctionAbi, FunctionBody, LocalBinding, Parameter, TypeRef,
};
use crate::integer::{
    IntegerType, integer_type_named,
};
use crate::codegen::emission::{
    Emission, parameter_slots_from, quad_bytes, sites_stand,
};
use crate::codegen::emitter::{
    RuntimeEmitter, parameter_stack_slots_from,
};
use crate::codegen::trees::{
    Operand, operand_width, tree_and_type, typed_tree, width_of_operand,
};
use crate::codegen::statements::{body_adds_code, emitted_body};
use crate::codegen::constants::{
    constant_body, evaluate_body,
};
use crate::codegen::plan::{
    MAX_X86_64_ABI_PARAMETERS, final_operand, first_of_operands, first_operand,
    hidden_result, operand_of_function, operand_of_parameter, outcome_named,
    parameter_operand, passes_result_address, read_outcome,
};
use vstd::prelude::*;

verus! {

/// Machine code of at most `MAX_BYTES` bytes.
#[derive(Debug, PartialEq, Eq)]
pub struct MachineCode<const MAX_BYTES: usize> {
    bytes: Vec<u8>,
}

impl<const MAX_BYTES: usize> View for MachineCode<MAX_BYTES> {
    type V = Seq<u8>;

    closed spec fn view(&self) -> Seq<u8> {
        self.bytes@
    }
}

impl<const MAX_BYTES: usize> Clone for MachineCode<MAX_BYTES> {
    fn clone(&self) -> (result: Self)
        ensures
            result@ == self@,
    {
        proof {
            use_type_invariant(self);
        }
        let bytes: Vec<u8> = self.bytes.clone();
        proof {
            assert(bytes@ =~= self.bytes@);
        }
        MachineCode { bytes }
    }
}

impl<const MAX_BYTES: usize> MachineCode<MAX_BYTES> {
    /// The code is no longer than it may be.
    #[verifier::type_invariant]
    spec fn fits(self) -> bool {
        self.bytes@.len() <= MAX_BYTES
    }

    pub fn bytes(&self) -> (result: &[u8])
        ensures
            result@ == self@,
            result@.len() <= MAX_BYTES,
    {
        proof {
            use_type_invariant(self);
        }
        self.bytes.as_slice()
    }

    pub fn len(&self) -> (result: usize)
        ensures
            result == self@.len(),
            result <= MAX_BYTES,
    {
        proof {
            use_type_invariant(self);
        }
        self.bytes.len()
    }

    pub fn is_empty(&self) -> (result: bool)
        ensures
            result == (self@.len() == 0),
    {
        self.bytes.len() == 0
    }
}

/// Whether code or an error is what it should be. Code is never longer than it may be.
pub open spec fn gives_code<const MAX_BYTES: usize>(
    result: Result<MachineCode<MAX_BYTES>, CodegenError>,
    expected: Result<Seq<u8>, CodegenError>,
) -> bool {
    match result {
        Ok(code) => expected == Ok::<Seq<u8>, CodegenError>(code@) && code@.len() <= MAX_BYTES,
        Err(error) => expected == Err::<Seq<u8>, CodegenError>(error),
    }
}

/// Whether others can call a function by its name.
pub open spec fn exported<const P: usize>(function: Function<P>) -> bool {
    function.public && function.abi == FunctionAbi::C && function.no_mangle
}

/// An error at the name of a function.
pub open spec fn error_at_name<const P: usize>(
    function: Function<P>,
    kind: CodegenErrorKind,
) -> CodegenError {
    CodegenError { kind, span: function.name_span }
}

fn validate_stable_export<const P: usize>(function: &Function<P>) -> (result: Result<(), CodegenError>)
    ensures
        match result {
            Ok(()) => exported(*function),
            Err(error) => !exported(*function) && error == error_at_name(
                *function,
                CodegenErrorKind::StableExportRequired,
            ),
        },
{
    if !function.public || function.abi != FunctionAbi::C || !function.no_mangle {
        Err(
            CodegenError {
                kind: CodegenErrorKind::StableExportRequired,
                span: function.name_span,
            },
        )
    } else {
        Ok(())
    }
}

/// The body of a function, or why it cannot be read.
pub open spec fn read_body<'source, const P: usize>(function: Function<'source, P>) -> Result<
    FunctionBody<'source>,
    CodegenError,
> {
    match function.body {
        Ok(body) => Ok(body),
        Err(error) => Err(
            CodegenError {
                kind: CodegenErrorKind::Body(error.kind),
                span: span_from(function.body_expression_span.start, error.span),
            },
        ),
    }
}

fn parsed_body<'a, 'source, const P: usize>(function: &'a Function<'source, P>) -> (result: Result<
    &'a FunctionBody<'source>,
    CodegenError,
>)
    ensures
        match result {
            Ok(body) => read_body(*function) == Ok::<FunctionBody, CodegenError>(*body),
            Err(error) => read_body(*function) == Err::<FunctionBody, CodegenError>(error),
        },
{
    match &function.body {
        Ok(body) => Ok(body),
        Err(error) => Err(
            CodegenError {
                kind: CodegenErrorKind::Body(error.kind),
                span: translate_span(function.body_expression_span.start, error.span),
            },
        ),
    }
}

/// The rules for code in which nothing is passed.
pub open spec fn constant_frame<'a, 'source, R: ConstantResolver, const P: usize, const N: usize>(
    function: &'a Function<'source, P>,
    resolver: &'a R,
) -> Frame<'a, 'source, R, P, N> {
    Frame {
        function,
        resolver,
        abi: X86_64Abi::SystemV,
        uses_sret: false,
        saved_parameter_slots: 0,
    }
}

/// Code that gives back the lower half of a constant.
pub open spec fn constant_return(value: u128) -> Seq<u8> {
    seq![0x48u8, 0xb8] + quad_bytes(value as int % 0x1_0000_0000_0000_0000) + seq![0xc3u8]
}

/// The result type of a constant function, or why there is none.
pub open spec fn constant_result<const P: usize>(function: Function<P>) -> Result<
    IntegerType,
    CodegenError,
> {
    match function.return_type {
        None => Err(error_at_name(function, CodegenErrorKind::MissingReturnType)),
        Some(ty) => match integer_type_named(ty.text@) {
            Some(integer) => match width_of_integer(integer) {
                Some(_) => Ok(integer),
                None => Err(
                    CodegenError { kind: CodegenErrorKind::UnsupportedReturnType, span: ty.span },
                ),
            },
            None => Err(
                CodegenError { kind: CodegenErrorKind::UnsupportedReturnType, span: ty.span },
            ),
        },
    }
}

fn constant_result_type<const P: usize>(function: &Function<P>) -> (result: Result<
    IntegerType,
    CodegenError,
>)
    ensures
        result == constant_result(*function),
{
    match function.return_type {
        None => Err(
            CodegenError { kind: CodegenErrorKind::MissingReturnType, span: function.name_span },
        ),
        Some(ty) => match IntegerType::from_name(ty.text) {
            Some(integer) => match integer_width(integer) {
                Some(_) => Ok(integer),
                None => Err(
                    CodegenError { kind: CodegenErrorKind::UnsupportedReturnType, span: ty.span },
                ),
            },
            None => Err(
                CodegenError { kind: CodegenErrorKind::UnsupportedReturnType, span: ty.span },
            ),
        },
    }
}

/// The value of a constant function, or why it is none.
pub open spec fn constant_of<R: ConstantResolver, const P: usize, const N: usize>(
    function: Function<P>,
    resolver: &R,
) -> Result<u128, CodegenError> {
    if !exported(function) {
        Err(error_at_name(function, CodegenErrorKind::StableExportRequired))
    } else if function.parameters@.len() != 0 {
        Err(error_at_name(function, CodegenErrorKind::ParametersUnsupported))
    } else {
        match constant_result(function) {
            Err(error) => Err(error),
            Ok(ty) => match read_body(function) {
                Err(error) => Err(error),
                Ok(body) => constant_body(constant_frame::<R, P, N>(&function, resolver), body, ty),
            },
        }
    }
}

/// The code of a constant function of at most `capacity` bytes.
pub open spec fn constant_code<R: ConstantResolver, const P: usize, const N: usize>(
    function: Function<P>,
    resolver: &R,
    capacity: int,
) -> Result<Seq<u8>, CodegenError> {
    match constant_of::<R, P, N>(function, resolver) {
        Err(error) => Err(error),
        Ok(value) => if capacity < constant_return(value).len() {
            Err(
                CodegenError {
                    kind: CodegenErrorKind::OutputTooSmall,
                    span: function.body_expression_span,
                },
            )
        } else {
            Ok(constant_return(value))
        },
    }
}

/// Compiles a function without parameters to code that gives back its value.
pub fn compile_x86_64_constant_function<
    'source,
    R: ConstantResolver,
    const MAX_BYTES: usize,
    const MAX_PARAMETERS: usize,
    const MAX_EXPRESSION_NODES: usize,
>(function: &Function<'source, MAX_PARAMETERS>, resolver: &R) -> (result: Result<
    MachineCode<MAX_BYTES>,
    CodegenError,
>)
    ensures
        gives_code(
            result,
            constant_code::<R, MAX_PARAMETERS, MAX_EXPRESSION_NODES>(
                *function,
                resolver,
                MAX_BYTES as int,
            ),
        ),
        result matches Ok(code) ==> code@.len() == 11,
{
    validate_stable_export(function)?;
    if function.parameters.len() != 0 {
        return Err(
            CodegenError {
                kind: CodegenErrorKind::ParametersUnsupported,
                span: function.name_span,
            },
        );
    }
    let ty = constant_result_type(function)?;
    let body = parsed_body(function)?;
    let frame: Frame<'_, 'source, R, MAX_PARAMETERS, MAX_EXPRESSION_NODES> = Frame {
        function,
        resolver,
        abi: X86_64Abi::SystemV,
        uses_sret: false,
        saved_parameter_slots: 0,
    };
    let value: u128 = evaluate_body(&frame, body, ty)?;
    if MAX_BYTES < 11 {
        return Err(
            CodegenError {
                kind: CodegenErrorKind::OutputTooSmall,
                span: function.body_expression_span,
            },
        );
    }
    let low: u64 = (value % 0x1_0000_0000_0000_0000) as u64;
    let high: u64 = low / 4294967296;
    let bytes: Vec<u8> = vec![
        0x48,
        0xb8,
        (low % 256) as u8,
        (low / 256 % 256) as u8,
        (low / 65536 % 256) as u8,
        (low / 16777216 % 256) as u8,
        (high % 256) as u8,
        (high / 256 % 256) as u8,
        (high / 65536 % 256) as u8,
        (high / 16777216 % 256) as u8,
        0xc3,
    ];
    proof {
        assert(quad_bytes(low as int).len() == 8);
        assert(bytes@ =~= constant_return(value));
    }
    Ok(MachineCode { bytes })
}

/// Whether a text holds an opening bracket.
pub open spec fn holds_bracket(text: Seq<char>) -> bool {
    place_of(text, '[', 0) < text.len()
}

/// Whether a local may be an array.
#[verifier::opaque]
pub open spec fn array_local<R: ConstantResolver, const P: usize, const N: usize>(
    f: Frame<R, P, N>,
    local: LocalBinding,
) -> bool {
    ||| local.ty matches Some(ty) && array_type(ty.text@) is Some
    ||| holds_bracket(local.initializer@)
    ||| tree_and_type(f, seq![], local.initializer@, local.initializer_span) matches Ok((_, ty))
        && ty is Array
}

fn is_array_local<R: ConstantResolver, const P: usize, const N: usize>(
    frame: &Frame<R, P, N>,
    local: &LocalBinding,
) -> (result: bool)
    ensures
        result == array_local(*frame, *local),
{
    proof {
        reveal(array_local);
    }
    if let Some(ty) = local.ty {
        if runtime_array_type(ty.text).is_some() {
            return true;
        }
    }
    if find(local.initializer, '[') < local.initializer.unicode_len() {
        return true;
    }
    let locals: Vec<RuntimeLocal> = Vec::new();
    proof {
        assert(local_models(locals@) =~= seq![]);
    }
    match typed_tree(frame, &locals, local.initializer, local.initializer_span) {
        Ok((_, RuntimeExpressionType::Array { .. })) => true,
        _ => false,
    }
}

/// Whether a statement needs code of its own.
pub open spec fn statement_runs<R: ConstantResolver, const P: usize, const N: usize>(
    f: Frame<R, P, N>,
    statement: BodyStatement,
) -> bool {
    match statement {
        BodyStatement::Local(local) => array_local(f, local),
        BodyStatement::Loop => false,
        _ => true,
    }
}

/// Whether one of the statements, from a place on, needs code of its own.
#[verifier::opaque]
pub open spec fn statements_run<R: ConstantResolver, const P: usize, const N: usize>(
    f: Frame<R, P, N>,
    statements: Seq<BodyStatement>,
    index: int,
) -> bool
    decreases statements.len() - index,
{
    if index < 0 || index >= statements.len() {
        false
    } else {
        statement_runs(f, statements[index]) || statements_run(f, statements, index + 1)
    }
}

fn any_statement_runs<R: ConstantResolver, const P: usize, const N: usize>(
    frame: &Frame<R, P, N>,
    statements: &Vec<BodyStatement>,
    index: usize,
) -> (result: bool)
    ensures
        result == statements_run(*frame, statements@, index as int),
    decreases statements@.len() - index,
{
    proof {
        reveal(statements_run);
    }
    if index >= statements.len() {
        return false;
    }
    let runs = match &statements[index] {
        BodyStatement::Local(local) => is_array_local(frame, local),
        BodyStatement::Loop => false,
        _ => true,
    };
    runs || any_statement_runs(frame, statements, index + 1)
}

/// Whether a function can be compiled to a constant.
pub open spec fn is_constant<R: ConstantResolver, const P: usize, const N: usize>(
    f: Frame<R, P, N>,
    body: FunctionBody,
) -> bool {
    &&& f.function.parameters@.len() == 0
    &&& !statements_run(f, body.statements@, 0)
    &&& body.while_loops@.len() == 0
    &&& f.function.return_type matches Some(ty) && width_named(ty.text@) is Some
}

/// The numbers that the parameters say, from one of them on, behind those found.
#[verifier::opaque]
pub open spec fn parameters_operand(
    parameters: Seq<Parameter>,
    found: Option<Operand>,
    index: int,
) -> Result<Option<Operand>, CodegenError>
    decreases parameters.len() - index,
{
    if index < 0 || index >= parameters.len() {
        Ok(found)
    } else {
        match operand_of_parameter(parameters[index].ty.text@) {
            Err(kind) => Err(CodegenError { kind, span: parameters[index].ty.span }),
            Ok(operand) => parameters_operand(
                parameters,
                first_of_operands(found, operand),
                index + 1,
            ),
        }
    }
}

fn find_parameters_operand(parameters: &Vec<Parameter>, found: Option<Operand>, index: usize) -> (result:
    Result<Option<Operand>, CodegenError>)
    ensures
        result == parameters_operand(parameters@, found, index as int),
    decreases parameters@.len() - index,
{
    proof {
        reveal(parameters_operand);
    }
    if index >= parameters.len() {
        return Ok(found);
    }
    match parameter_operand(parameters[index].ty.text) {
        Err(kind) => Err(CodegenError { kind, span: parameters[index].ty.span }),
        Ok(operand) => find_parameters_operand(
            parameters,
            first_operand(found, operand),
            index + 1,
        ),
    }
}

/// The text of the result type.
pub open spec fn result_text<const P: usize>(function: Function<P>) -> Seq<char> {
    match function.return_type {
        Some(ty) => ty.text@,
        None => "()"@,
    }
}

/// What is decided of a function before its code is made.
pub struct Plan {
    pub expected: RuntimeExpressionType,
    pub operand: Operand,
    pub width: RuntimeWidth,
    pub uses_sret: bool,
    pub saved_parameter_slots: usize,
}

/// What is decided of a function before its code is made, or why it has none.
#[verifier::opaque]
pub open spec fn planned<const P: usize>(function: Function<P>, abi: X86_64Abi) -> Result<
    Plan,
    CodegenError,
> {
    if !exported(function) {
        Err(error_at_name(function, CodegenErrorKind::StableExportRequired))
    } else if function.parameters@.len() > MAX_X86_64_ABI_PARAMETERS {
        Err(error_at_name(function, CodegenErrorKind::TooManyAbiParameters))
    } else {
        match outcome_named(result_text(function)) {
            None => Err(
                CodegenError {
                    kind: CodegenErrorKind::UnsupportedReturnType,
                    span: match function.return_type {
                        Some(ty) => ty.span,
                        None => function.name_span,
                    },
                },
            ),
            Some(outcome) => match parameters_operand(function.parameters@, None, 0) {
                Err(error) => Err(error),
                Ok(found) => {
                    let operand = operand_of_function(outcome, found);
                    let uses_sret = passes_result_address(abi, outcome.ty);
                    match width_of_operand(operand) {
                        None => Err(
                            error_at_name(function, CodegenErrorKind::UnsupportedRuntimeType),
                        ),
                        Some(width) => match slots_with_result(
                            parameter_slots_from(function.parameters@, 0),
                            uses_sret,
                        ) {
                            None => Err(
                                error_at_name(function, CodegenErrorKind::TooManyAbiParameters),
                            ),
                            Some(saved_parameter_slots) => Ok(
                                Plan {
                                    expected: outcome.ty,
                                    operand,
                                    width,
                                    uses_sret,
                                    saved_parameter_slots,
                                },
                            ),
                        },
                    }
                },
            },
        }
    }
}

/// How many slots are saved, with one for the address of the result.
pub open spec fn slots_with_result(slots: Option<usize>, uses_sret: bool) -> Option<usize> {
    match slots {
        None => None,
        Some(slots) => if uses_sret {
            sum_of(slots, 1)
        } else {
            Some(slots)
        },
    }
}

fn plan_function<const P: usize>(function: &Function<P>, abi: X86_64Abi) -> (result: Result<
    Plan,
    CodegenError,
>)
    ensures
        result == planned(*function, abi),
{
    proof {
        reveal(planned);
    }
    validate_stable_export(function)?;
    if function.parameters.len() > MAX_X86_64_ABI_PARAMETERS {
        return Err(
            CodegenError { kind: CodegenErrorKind::TooManyAbiParameters, span: function.name_span },
        );
    }
    let (text, span) = match function.return_type {
        Some(ty) => (ty.text, ty.span),
        None => ("()", function.name_span),
    };
    let outcome = match read_outcome(text) {
        Some(outcome) => outcome,
        None => return Err(CodegenError { kind: CodegenErrorKind::UnsupportedReturnType, span }),
    };
    let found = find_parameters_operand(&function.parameters, None, 0)?;
    let operand = final_operand(outcome, found);
    let uses_sret = hidden_result(abi, outcome.ty);
    let width = match operand_width(operand) {
        Some(width) => width,
        None => return Err(
            CodegenError {
                kind: CodegenErrorKind::UnsupportedRuntimeType,
                span: function.name_span,
            },
        ),
    };
    let slots: Option<usize> = match parameter_stack_slots_from(&function.parameters, 0) {
        None => None,
        Some(slots) => {
            if uses_sret {
                checked_sum(slots, 1)
            } else {
                Some(slots)
            }
        },
    };
    match slots {
        None => Err(
            CodegenError { kind: CodegenErrorKind::TooManyAbiParameters, span: function.name_span },
        ),
        Some(saved_parameter_slots) => Ok(
            Plan { expected: outcome.ty, operand, width, uses_sret, saved_parameter_slots },
        ),
    }
}

/// The rules for the code of a function that is planned.
pub open spec fn runtime_frame<'a, 'source, R: ConstantResolver, const P: usize, const N: usize>(
    function: &'a Function<'source, P>,
    resolver: &'a R,
    abi: X86_64Abi,
    plan: Plan,
) -> Frame<'a, 'source, R, P, N> {
    Frame {
        function,
        resolver,
        abi,
        uses_sret: plan.uses_sret,
        saved_parameter_slots: plan.saved_parameter_slots,
    }
}

/// No code yet.
pub open spec fn nothing_emitted(
    width: RuntimeWidth,
    capacity: usize,
    overflow_checks: bool,
) -> Emission {
    Emission {
        code: seq![],
        capacity,
        overflow_checks,
        traps: seq![],
        exits: seq![],
        inner_exits: seq![],
        locals: seq![],
        temporaries: 0,
        width,
        failure: None,
    }
}

/// The code of a function that is planned, of at most `capacity` bytes.
pub open spec fn runtime_code<R: ConstantResolver, const P: usize, const N: usize>(
    f: Frame<R, P, N>,
    body: FunctionBody,
    plan: Plan,
    capacity: usize,
    overflow_checks: bool,
) -> Result<Seq<u8>, CodegenError> {
    let emission = emitted_body(
        f,
        nothing_emitted(plan.width, capacity, overflow_checks),
        body,
        plan.expected,
        plan.operand,
    );
    match emission.failure {
        Some(error) => Err(error),
        None => Ok(emission.code),
    }
}

/// The code of a function of at most `capacity` bytes.
pub open spec fn function_code<R: ConstantResolver, const P: usize, const N: usize>(
    function: Function<P>,
    resolver: &R,
    abi: X86_64Abi,
    options: CodegenOptions,
    capacity: usize,
) -> Result<Seq<u8>, CodegenError> {
    match read_body(function) {
        Err(error) => Err(error),
        Ok(body) => if is_constant(constant_frame::<R, P, N>(&function, resolver), body) {
            constant_code::<R, P, N>(function, resolver, capacity as int)
        } else {
            match planned(function, abi) {
                Err(error) => Err(error),
                Ok(plan) => runtime_code(
                    runtime_frame::<R, P, N>(&function, resolver, abi, plan),
                    body,
                    plan,
                    capacity,
                    options.overflow_checks,
                ),
            }
        },
    }
}

fn has_width(ty: Option<TypeRef>) -> (result: bool)
    ensures
        result == (ty matches Some(ty) && width_named(ty.text@) is Some),
{
    match ty {
        Some(ty) => runtime_width(ty.text).is_some(),
        None => false,
    }
}

fn compile_planned<
    'source,
    R: ConstantResolver,
    const MAX_BYTES: usize,
    const MAX_PARAMETERS: usize,
    const MAX_EXPRESSION_NODES: usize,
>(
    function: &Function<'source, MAX_PARAMETERS>,
    resolver: &R,
    abi: X86_64Abi,
    options: CodegenOptions,
    body: &FunctionBody<'source>,
    plan: Plan,
) -> (result: Result<MachineCode<MAX_BYTES>, CodegenError>)
    ensures
        gives_code(
            result,
            runtime_code(
                runtime_frame::<R, MAX_PARAMETERS, MAX_EXPRESSION_NODES>(
                    function,
                    resolver,
                    abi,
                    plan,
                ),
                *body,
                plan,
                MAX_BYTES,
                options.overflow_checks,
            ),
        ),
        body_adds_code(*body) ==> (result matches Ok(code) ==> code@.len() > 0),
{
    let mut emitter: RuntimeEmitter<'_, 'source, R, MAX_PARAMETERS, MAX_EXPRESSION_NODES> =
        RuntimeEmitter {
        frame: Frame {
            function,
            resolver,
            abi,
            uses_sret: plan.uses_sret,
            saved_parameter_slots: plan.saved_parameter_slots,
        },
        bytes: Vec::new(),
        capacity: MAX_BYTES,
        overflow_checks: options.overflow_checks,
        trap_patches: Vec::new(),
        exits: Vec::new(),
        inner_exits: Vec::new(),
        locals: Vec::new(),
        temporaries: 0,
        width: plan.width,
        failure: None,
    };
    proof {
        let start = nothing_emitted(plan.width, MAX_BYTES, options.overflow_checks);
        assert(emitter@.code =~= start.code);
        assert(emitter@.traps =~= start.traps);
        assert(emitter@.exits =~= start.exits);
        assert(emitter@.inner_exits =~= start.inner_exits);
        assert(emitter@.locals =~= start.locals);
        assert(emitter@ == start);
        reveal(sites_stand);
        assert(emitter.fits() && emitter.traps_stand());
    }
    emitter.emit_body(body, plan.expected, plan.operand);
    match emitter.failure {
        Some(error) => Err(error),
        None => Ok(MachineCode { bytes: emitter.bytes }),
    }
}

/// Compiles a function for a calling convention.
pub fn compile_x86_64_function_with_options<
    'source,
    R: ConstantResolver,
    const MAX_BYTES: usize,
    const MAX_PARAMETERS: usize,
    const MAX_EXPRESSION_NODES: usize,
>(
    function: &Function<'source, MAX_PARAMETERS>,
    resolver: &R,
    abi: X86_64Abi,
    options: CodegenOptions,
) -> (result: Result<MachineCode<MAX_BYTES>, CodegenError>)
    ensures
        gives_code(
            result,
            function_code::<R, MAX_PARAMETERS, MAX_EXPRESSION_NODES>(
                *function,
                resolver,
                abi,
                options,
                MAX_BYTES,
            ),
        ),
        function.body matches Ok(body) && body_adds_code(body) ==> (result matches Ok(code)
            ==> code@.len() > 0),
{
    let body = parsed_body(function)?;
    let frame: Frame<'_, 'source, R, MAX_PARAMETERS, MAX_EXPRESSION_NODES> = Frame {
        function,
        resolver,
        abi: X86_64Abi::SystemV,
        uses_sret: false,
        saved_parameter_slots: 0,
    };
    if function.parameters.len() == 0 && body.while_loops.len() == 0 && has_width(
        function.return_type,
    ) && !any_statement_runs(&frame, &body.statements, 0) {
        return compile_x86_64_constant_function::<
            R,
            MAX_BYTES,
            MAX_PARAMETERS,
            MAX_EXPRESSION_NODES,
        >(function, resolver);
    }
    let plan = plan_function(function, abi)?;
    compile_planned::<R, MAX_BYTES, MAX_PARAMETERS, MAX_EXPRESSION_NODES>(
        function,
        resolver,
        abi,
        options,
        body,
        plan,
    )
}

/// Compiles a function for a calling convention; arithmetic that leaves its type stops the program.
pub fn compile_x86_64_function<
    'source,
    R: ConstantResolver,
    const MAX_BYTES: usize,
    const MAX_PARAMETERS: usize,
    const MAX_EXPRESSION_NODES: usize,
>(function: &Function<'source, MAX_PARAMETERS>, resolver: &R, abi: X86_64Abi) -> (result: Result<
    MachineCode<MAX_BYTES>,
    CodegenError,
>)
    ensures
        gives_code(
            result,
            function_code::<R, MAX_PARAMETERS, MAX_EXPRESSION_NODES>(
                *function,
                resolver,
                abi,
                (CodegenOptions { overflow_checks: true }),
                MAX_BYTES,
            ),
        ),
        function.body matches Ok(body) && body_adds_code(body) ==> (result matches Ok(code)
            ==> code@.len() > 0),
{
    compile_x86_64_function_with_options::<R, MAX_BYTES, MAX_PARAMETERS, MAX_EXPRESSION_NODES>(
        function,
        resolver,
        abi,
        CodegenOptions::checked(),
    )
}

} // verus!
