//! What holds of compiled functions as a whole.
use crate::codegen::compile::{
    constant_code, constant_frame, constant_of, constant_result, constant_return, error_at_name,
    exported, function_code, is_constant, nothing_emitted, planned, read_body, runtime_frame,
};
use crate::codegen::constants::{
    computed, constant_assignments, constant_body, constant_locals, constant_tail, value_fits,
    Bindings, LocalResolver, MAX_FUNCTION_IR_INSTRUCTIONS, MAX_FUNCTION_STACK_VALUES,
};
use crate::codegen::emission::{quad_bytes, word_bytes};
use crate::codegen::error::{CodegenError, CodegenErrorKind};
use crate::codegen::frame::{tree_of, CodegenOptions, X86_64Abi};
use crate::codegen::trees::body_tree;
use crate::codegen::twin_statements::emitted_body_twins;
use crate::equivalence::{execution_agrees_with_evaluation, larger, stack_need};
use crate::execution::a_larger_stack_keeps_the_result;
use crate::expression::{evaluation, ConstantResolver, ExpressionError, Tree};
use crate::function::{Function, FunctionBody};
use crate::grammar::expression_tree;
use crate::integer::{ConstEvalError, IntegerType};
use crate::ir::lowered_tree;
use crate::laws::{answer_alike, evaluation_asks_for_values_only};
use vstd::prelude::*;

verus! {

/// The number that some bytes stand for, the lowest byte first.
pub open spec fn bytes_value(bytes: Seq<u8>) -> int
    decreases bytes.len(),
{
    if bytes.len() == 0 {
        0
    } else {
        bytes[0] + 256 * bytes_value(bytes.skip(1))
    }
}

/// Four bytes of a number, read back, are that number.
pub proof fn word_bytes_read_back(value: int)
    requires
        0 <= value < 0x1_0000_0000,
    ensures
        word_bytes(value).len() == 4,
        bytes_value(word_bytes(value)) == value,
{
    let bytes = word_bytes(value);
    reveal_with_fuel(bytes_value, 5);
    assert(bytes.skip(1).skip(1) =~= bytes.skip(2));
    assert(bytes.skip(2).skip(1) =~= bytes.skip(3));
    assert(bytes.skip(3).skip(1) =~= bytes.skip(4));
    assert(bytes_value(bytes.skip(4)) == 0);
    assert(bytes_value(bytes.skip(3)) == bytes[3]);
    assert(bytes_value(bytes.skip(2)) == bytes[2] + 256 * bytes[3]);
    assert(bytes_value(bytes.skip(1)) == bytes[1] + 256 * (bytes[2] + 256 * bytes[3]));
    assert(value / 65536 == value / 256 / 256);
    assert(value / 16777216 == value / 65536 / 256);
}

/// Bytes that are put together stand for the sum of what they stand for at their places.
proof fn bytes_value_of_two_words(low: Seq<u8>, high: Seq<u8>)
    requires
        low.len() == 4,
    ensures
        bytes_value(low + high) == bytes_value(low) + 0x1_0000_0000 * bytes_value(high),
{
    let bytes = low + high;
    reveal_with_fuel(bytes_value, 5);
    assert(low.skip(1).skip(1) =~= low.skip(2));
    assert(low.skip(2).skip(1) =~= low.skip(3));
    assert(low.skip(3).skip(1) =~= low.skip(4));
    assert(bytes.skip(1).skip(1) =~= bytes.skip(2));
    assert(bytes.skip(2).skip(1) =~= bytes.skip(3));
    assert(bytes.skip(3).skip(1) =~= high);
    assert(bytes_value(bytes.skip(3)) == low[3] + 256 * bytes_value(high));
    assert(bytes_value(bytes.skip(2)) == low[2] + 256 * (low[3] + 256 * bytes_value(high)));
    assert(bytes_value(bytes.skip(1)) == low[1] + 256 * bytes_value(bytes.skip(2)));
    assert(bytes_value(low.skip(4)) == 0);
    assert(bytes_value(low.skip(3)) == low[3]);
    assert(bytes_value(low.skip(2)) == low[2] + 256 * low[3]);
    assert(bytes_value(low.skip(1)) == low[1] + 256 * bytes_value(low.skip(2)));
}

/// Eight bytes of a number, read back, are that number.
pub proof fn quad_bytes_read_back(value: int)
    requires
        0 <= value < 0x1_0000_0000_0000_0000,
    ensures
        quad_bytes(value).len() == 8,
        bytes_value(quad_bytes(value)) == value,
{
    let high = value / 4294967296;
    let low = value % 4294967296;
    word_bytes_read_back(low);
    word_bytes_read_back(high);
    low_word_of(value);
    bytes_value_of_two_words(word_bytes(value), word_bytes(high));
}

/// Four bytes of a number do not depend on what lies above them.
pub proof fn low_word_of(value: int)
    ensures
        word_bytes(value) == word_bytes(value % 4294967296),
{
    let high = value / 4294967296;
    let low = value % 4294967296;
    assert(value == low + high * 4294967296);
    vstd::arithmetic::div_mod::lemma_mod_multiples_vanish(high * 0x100_0000, low, 256);
    vstd::arithmetic::div_mod::lemma_hoist_over_denominator(low, high * 0x100_0000, 256);
    vstd::arithmetic::div_mod::lemma_mod_multiples_vanish(high * 0x1_0000, low / 256, 256);
    vstd::arithmetic::div_mod::lemma_hoist_over_denominator(low, high * 0x1_0000, 65536);
    vstd::arithmetic::div_mod::lemma_mod_multiples_vanish(high * 0x100, low / 65536, 256);
    vstd::arithmetic::div_mod::lemma_hoist_over_denominator(low, high * 0x100, 16777216);
    vstd::arithmetic::div_mod::lemma_mod_multiples_vanish(high, low / 16777216, 256);
    assert(word_bytes(value) =~= word_bytes(low));
}

/// The locals of a constant function behind its statements.
pub open spec fn constant_bindings<
    'source,
    R: ConstantResolver,
    const P: usize,
    const N: usize,
>(
    function: Function<'source, P>,
    resolver: &R,
    body: FunctionBody<'source>,
    ty: IntegerType,
) -> Result<Bindings<'source>, CodegenError> {
    let frame = constant_frame::<R, P, N>(&function, resolver);
    match constant_locals(frame, Bindings::Empty, body.statements@, ty, 0) {
        Err(error) => Err(error),
        Ok(bindings) => constant_assignments(frame, bindings, body.statements@, 0),
    }
}

/// The code of a constant function moves a number to the register for results and goes back
/// to the caller. The number is the lower half of the function's value, which is one of the
/// result type.
pub proof fn constant_code_holds_the_value<R: ConstantResolver, const P: usize, const N: usize>(
    function: Function<P>,
    resolver: &R,
    capacity: int,
    code: Seq<u8>,
)
    requires
        constant_code::<R, P, N>(function, resolver, capacity) == Ok::<Seq<u8>, CodegenError>(code),
    ensures
        code.len() == 11,
        code.len() <= capacity,
        code[0] == 0x48u8,
        code[1] == 0xb8u8,
        code[10] == 0xc3u8,
        constant_of::<R, P, N>(function, resolver) matches Ok(value) && bytes_value(
            code.subrange(2, 10),
        ) == value as int % 0x1_0000_0000_0000_0000 && (constant_result(function) matches Ok(ty)
            && value_fits(value, ty)),
{
    reveal(constant_body);
    reveal(constant_tail);
    let value = constant_of::<R, P, N>(function, resolver)->Ok_0;
    let low = value as int % 0x1_0000_0000_0000_0000;
    quad_bytes_read_back(low);
    assert(code == constant_return(value));
    assert(code.subrange(2, 10) =~= quad_bytes(low));
}

/// A constant function gives back what evaluating its last expression gives. Evaluation refuses
/// an ascription of `bool` to what is no truth value by its form, and the code normalizes it.
pub proof fn constant_code_gives_what_evaluation_gives<
    R: ConstantResolver,
    const P: usize,
    const N: usize,
>(
    function: Function<P>,
    resolver: &R,
    capacity: int,
    code: Seq<u8>,
    body: FunctionBody,
    ty: IntegerType,
    bindings: Bindings,
    tree: Tree,
)
    requires
        constant_code::<R, P, N>(function, resolver, capacity) == Ok::<Seq<u8>, CodegenError>(code),
        read_body(function) == Ok::<FunctionBody, CodegenError>(body),
        constant_result(function) == Ok::<IntegerType, CodegenError>(ty),
        constant_bindings::<R, P, N>(function, resolver, body, ty) == Ok::<Bindings, CodegenError>(
            bindings,
        ),
        body_tree(constant_frame::<R, P, N>(&function, resolver), body.tail@, body.tail_span)
            == Ok::<Tree, CodegenError>(tree),
        evaluation(
            tree.nodes,
            &(LocalResolver { outer: resolver, values: &bindings }),
            tree.root,
            0,
        ) != Err::<u128, ConstEvalError>(ConstEvalError::InvalidCast),
    ensures
        evaluation(
            tree.nodes,
            &(LocalResolver { outer: resolver, values: &bindings }),
            tree.root,
            0,
        ) matches Ok(value) && bytes_value(code.subrange(2, 10)) == value as int
            % 0x1_0000_0000_0000_0000,
{
    constant_code_holds_the_value::<R, P, N>(function, resolver, capacity, code);
    reveal(constant_body);
    reveal(constant_tail);
    reveal(computed);
    let local = LocalResolver { outer: resolver, values: &bindings };
    let room = larger(
        MAX_FUNCTION_STACK_VALUES as int,
        stack_need(tree.nodes, tree.root, 0),
    );
    execution_agrees_with_evaluation(tree, &local, MAX_FUNCTION_IR_INSTRUCTIONS as int, room);
    let program = lowered_tree(tree, 64, MAX_FUNCTION_IR_INSTRUCTIONS as int)->Ok_0;
    a_larger_stack_keeps_the_result(
        program,
        &local,
        0,
        seq![],
        MAX_FUNCTION_STACK_VALUES as int,
        room,
    );
}

/// A constant function that is nothing but an expression gives back what that expression stands
/// for, but for ascriptions of `bool` that evaluation refuses.
pub proof fn constant_code_gives_what_the_text_stands_for<
    R: ConstantResolver,
    const P: usize,
    const N: usize,
>(
    function: Function<P>,
    resolver: &R,
    capacity: int,
    code: Seq<u8>,
    body: FunctionBody,
    tree: Tree,
)
    requires
        constant_code::<R, P, N>(function, resolver, capacity) == Ok::<Seq<u8>, CodegenError>(code),
        read_body(function) == Ok::<FunctionBody, CodegenError>(body),
        body.statements@.len() == 0,
        expression_tree(body.tail@, N as int) == Ok::<Tree, ExpressionError>(tree),
        evaluation(tree.nodes, resolver, tree.root, 0) != Err::<u128, ConstEvalError>(
            ConstEvalError::InvalidCast,
        ),
    ensures
        evaluation(tree.nodes, resolver, tree.root, 0) matches Ok(value) && bytes_value(
            code.subrange(2, 10),
        ) == value as int % 0x1_0000_0000_0000_0000,
{
    reveal(constant_locals);
    reveal(constant_assignments);
    reveal(body_tree);
    reveal(tree_of);
    constant_code_holds_the_value::<R, P, N>(function, resolver, capacity, code);
    let ty = constant_result(function)->Ok_0;
    let bindings = Bindings::Empty;
    let local = LocalResolver { outer: resolver, values: &bindings };
    assert(answer_alike(&local, resolver));
    evaluation_asks_for_values_only(tree.nodes, &local, resolver, tree.root, 0);
    constant_code_gives_what_evaluation_gives::<R, P, N>(
        function,
        resolver,
        capacity,
        code,
        body,
        ty,
        bindings,
        tree,
    );
}

/// The code of a function whose value is known before the program runs is the same for each
/// calling convention and with each choice of options.
pub proof fn constant_code_suits_each_convention<
    R: ConstantResolver,
    const P: usize,
    const N: usize,
>(
    function: Function<P>,
    resolver: &R,
    body: FunctionBody,
    first: X86_64Abi,
    second: X86_64Abi,
    first_options: CodegenOptions,
    second_options: CodegenOptions,
    capacity: usize,
)
    requires
        read_body(function) == Ok::<FunctionBody, CodegenError>(body),
        is_constant(constant_frame::<R, P, N>(&function, resolver), body),
    ensures
        function_code::<R, P, N>(function, resolver, first, first_options, capacity)
            == function_code::<R, P, N>(function, resolver, second, second_options, capacity),
{
}

/// A function that others cannot call by its name is refused.
pub proof fn only_exported_functions_are_compiled<
    R: ConstantResolver,
    const P: usize,
    const N: usize,
>(
    function: Function<P>,
    resolver: &R,
    abi: X86_64Abi,
    options: CodegenOptions,
    capacity: usize,
)
    requires
        !exported(function),
        function.body is Ok,
    ensures
        constant_code::<R, P, N>(function, resolver, capacity as int) == Err::<
            Seq<u8>,
            CodegenError,
        >(error_at_name(function, CodegenErrorKind::StableExportRequired)),
        function_code::<R, P, N>(function, resolver, abi, options, capacity) == Err::<
            Seq<u8>,
            CodegenError,
        >(error_at_name(function, CodegenErrorKind::StableExportRequired)),
{
    reveal(planned);
}

/// Whether there is no code because it does not fit.
pub open spec fn too_long(result: Result<Seq<u8>, CodegenError>) -> bool {
    result matches Err(error) && error.kind == CodegenErrorKind::OutputTooSmall
}

/// The room for the code never changes the code: whoever has room for it gets all of it, and
/// whoever has not gets none.
pub proof fn room_never_changes_the_code<R: ConstantResolver, const P: usize, const N: usize>(
    function: Function<P>,
    resolver: &R,
    abi: X86_64Abi,
    options: CodegenOptions,
    capacity: usize,
    other: usize,
    code: Seq<u8>,
)
    requires
        function_code::<R, P, N>(function, resolver, abi, options, capacity) == Ok::<
            Seq<u8>,
            CodegenError,
        >(code),
    ensures
        code.len() <= other ==> function_code::<R, P, N>(function, resolver, abi, options, other)
            == Ok::<Seq<u8>, CodegenError>(code),
        code.len() > other ==> too_long(
            function_code::<R, P, N>(function, resolver, abi, options, other),
        ),
{
    let body = read_body(function)->Ok_0;
    if !is_constant(constant_frame::<R, P, N>(&function, resolver), body) {
        reveal(planned);
        let plan = planned(function, abi)->Ok_0;
        let f = runtime_frame::<R, P, N>(&function, resolver, abi, plan);
        let checks = options.overflow_checks;
        let less = if capacity <= other {
            capacity
        } else {
            other
        };
        let more = if capacity <= other {
            other
        } else {
            capacity
        };
        emitted_body_twins(
            f,
            nothing_emitted(plan.width, less, checks),
            nothing_emitted(plan.width, more, checks),
            body,
            plan.expected,
            plan.operand,
        );
    }
}

/// Checks of overflow change the code only. Where the code fits, a function is accepted with them
/// as without, and refused with the same error.
pub proof fn overflow_checks_change_the_code_only<
    R: ConstantResolver,
    const P: usize,
    const N: usize,
>(
    function: Function<P>,
    resolver: &R,
    abi: X86_64Abi,
    first: CodegenOptions,
    second: CodegenOptions,
    capacity: usize,
)
    requires
        !too_long(function_code::<R, P, N>(function, resolver, abi, first, capacity)),
        !too_long(function_code::<R, P, N>(function, resolver, abi, second, capacity)),
    ensures
        match function_code::<R, P, N>(function, resolver, abi, first, capacity) {
            Ok(_) => function_code::<R, P, N>(function, resolver, abi, second, capacity) is Ok,
            Err(error) => function_code::<R, P, N>(function, resolver, abi, second, capacity)
                == Err::<Seq<u8>, CodegenError>(error),
        },
{
    if let Ok(body) = read_body(function) {
        if !is_constant(constant_frame::<R, P, N>(&function, resolver), body) {
            if let Ok(plan) = planned(function, abi) {
                reveal(planned);
                emitted_body_twins(
                    runtime_frame::<R, P, N>(&function, resolver, abi, plan),
                    nothing_emitted(plan.width, capacity, first.overflow_checks),
                    nothing_emitted(plan.width, capacity, second.overflow_checks),
                    body,
                    plan.expected,
                    plan.operand,
                );
            }
        }
    }
}

} // verus!
