//! A stack program for an expression: lowering and execution.
use crate::expression::{
    boolean_form, node_at, signed_suffix, ConstantResolver, Expr, ExprId, ExprKind,
    ExpressionTree, Form, Node, Tree, MAX_ARRAY_ELEMENTS, MAX_CALL_ARGUMENTS,
};
use crate::integer::{
    ascribe_integer, ascribed_value, binary_value, cast_integer, cast_value, evaluate_binary,
    negate_signed_magnitude, negated_magnitude, truth,
};
use crate::integer::{BinaryOperator, ConstEvalError, IntegerType, ScalarType, UnaryOperator};
use crate::token::Span;
use vstd::prelude::*;

verus! {

pub const MAX_LOWERING_DEPTH: usize = 64;

#[derive(Clone, Copy, Debug, PartialEq, Eq)]
pub enum Instruction<'source> {
    PushInteger(u128),
    LoadConstant(&'source str),
    CallConstant(&'source str, usize),
    Unary(UnaryOperator),
    BooleanNot,
    SignedLiteralNegate(IntegerType, u8),
    Cast(IntegerType, u8),
    AscribeInteger(IntegerType, u8),
    Binary(BinaryOperator),
    NormalizeBool,
    Pop,
    BranchIfFalse(usize),
    BranchIfTrue(usize),
    JumpIfFalse(usize),
    Jump(usize),
}

#[derive(Clone, Copy, Debug, PartialEq, Eq, Structural)]
pub enum IrErrorKind {
    MissingExpression,
    InvalidExpressionTree,
    TooManyInstructions,
    NestingLimitExceeded,
    UnsupportedCall,
}

#[derive(Clone, Copy, Debug, PartialEq, Eq, Structural)]
pub struct IrError {
    pub kind: IrErrorKind,
    pub span: Span,
}

#[derive(Clone, Copy, Debug, PartialEq, Eq, Structural)]
pub enum ExecutionError {
    UnknownConstant,
    StackOverflow,
    StackUnderflow,
    InvalidBranch,
    InvalidFinalStack,
    Arithmetic(ConstEvalError),
}

/// A program of at most `MAX_INSTRUCTIONS` instructions.
#[derive(Clone, Debug, PartialEq, Eq)]
pub struct IrProgram<'source, const MAX_INSTRUCTIONS: usize> {
    pub instructions: Vec<Option<Instruction<'source>>>,
}

/// An instruction with its name as a sequence of characters.
pub ghost enum Op {
    PushInteger(u128),
    LoadConstant(Seq<char>),
    CallConstant(Seq<char>, usize),
    Unary(UnaryOperator),
    BooleanNot,
    SignedLiteralNegate(IntegerType, u8),
    Cast(IntegerType, u8),
    AscribeInteger(IntegerType, u8),
    Binary(BinaryOperator),
    NormalizeBool,
    Pop,
    BranchIfFalse(int),
    BranchIfTrue(int),
    JumpIfFalse(int),
    Jump(int),
}

impl<'source> View for Instruction<'source> {
    type V = Op;

    open spec fn view(&self) -> Op {
        match *self {
            Instruction::PushInteger(value) => Op::PushInteger(value),
            Instruction::LoadConstant(name) => Op::LoadConstant(name@),
            Instruction::CallConstant(name, count) => Op::CallConstant(name@, count),
            Instruction::Unary(operator) => Op::Unary(operator),
            Instruction::BooleanNot => Op::BooleanNot,
            Instruction::SignedLiteralNegate(ty, bits) => Op::SignedLiteralNegate(ty, bits),
            Instruction::Cast(ty, bits) => Op::Cast(ty, bits),
            Instruction::AscribeInteger(ty, bits) => Op::AscribeInteger(ty, bits),
            Instruction::Binary(operator) => Op::Binary(operator),
            Instruction::NormalizeBool => Op::NormalizeBool,
            Instruction::Pop => Op::Pop,
            Instruction::BranchIfFalse(target) => Op::BranchIfFalse(target as int),
            Instruction::BranchIfTrue(target) => Op::BranchIfTrue(target as int),
            Instruction::JumpIfFalse(target) => Op::JumpIfFalse(target as int),
            Instruction::Jump(target) => Op::Jump(target as int),
        }
    }
}

pub open spec fn op_view(entry: Option<Instruction>) -> Option<Op> {
    match entry {
        Some(instruction) => Some(instruction@),
        None => None,
    }
}

pub open spec fn code_view(entries: Seq<Option<Instruction>>) -> Seq<Option<Op>> {
    entries.map_values(|entry: Option<Instruction>| op_view(entry))
}

impl<'source, const MAX_INSTRUCTIONS: usize> View for IrProgram<'source, MAX_INSTRUCTIONS> {
    type V = Seq<Option<Op>>;

    open spec fn view(&self) -> Seq<Option<Op>> {
        code_view(self.instructions@)
    }
}

/// The stack with one more value, if it has room.
pub open spec fn pushed(stack: Seq<u128>, value: u128, limit: int) -> Result<
    Seq<u128>,
    ExecutionError,
> {
    if stack.len() < limit {
        Ok(stack.push(value))
    } else {
        Err(ExecutionError::StackOverflow)
    }
}

/// The value on top of the stack and the stack below it, if there is one.
pub open spec fn popped(stack: Seq<u128>) -> Result<(u128, Seq<u128>), ExecutionError> {
    if stack.len() > 0 {
        Ok((stack.last(), stack.drop_last()))
    } else {
        Err(ExecutionError::StackUnderflow)
    }
}

/// A branch from `current` goes forward and no further than the end.
pub open spec fn branch_stands(current: int, target: int, length: int) -> bool {
    current < target <= length
}

/// The stack after its top has been replaced by what `result` holds.
pub open spec fn replaced(
    stack: Seq<u128>,
    count: int,
    result: Result<u128, ConstEvalError>,
    limit: int,
) -> Result<Seq<u128>, ExecutionError> {
    match result {
        Ok(value) => pushed(stack.take(stack.len() - count), value, limit),
        Err(error) => Err(ExecutionError::Arithmetic(error)),
    }
}

/// What a unary instruction makes of a value.
pub open spec fn unary_value(operator: UnaryOperator, value: u128) -> Result<u128, ConstEvalError> {
    match operator {
        UnaryOperator::Negate => if value == 0 {
            Ok(0)
        } else {
            Err(ConstEvalError::Overflow)
        },
        UnaryOperator::Not => Ok(!value),
        _ => Err(ConstEvalError::InvalidExpressionTree),
    }
}

/// Going on behind `pc` with the stack that came out.
pub open spec fn advanced(pc: int, outcome: Result<Seq<u128>, ExecutionError>) -> Result<
    (int, Seq<u128>),
    ExecutionError,
> {
    match outcome {
        Ok(stack) => Ok((pc + 1, stack)),
        Err(error) => Err(error),
    }
}

/// Execution of one instruction at `pc`: the next position and the stack.
pub open spec fn step<R: ConstantResolver>(
    op: Op,
    resolver: &R,
    pc: int,
    length: int,
    stack: Seq<u128>,
    limit: int,
) -> Result<(int, Seq<u128>), ExecutionError> {
    let underflow = Err::<(int, Seq<u128>), ExecutionError>(ExecutionError::StackUnderflow);
    match op {
        Op::PushInteger(value) => advanced(pc, pushed(stack, value, limit)),
        Op::LoadConstant(name) => match resolver.value_of(name) {
            Some(value) => advanced(pc, pushed(stack, value, limit)),
            None => Err(ExecutionError::UnknownConstant),
        },
        Op::CallConstant(name, count) => if count > MAX_CALL_ARGUMENTS {
            Err(ExecutionError::InvalidFinalStack)
        } else if stack.len() < count {
            underflow
        } else {
            match resolver.call_value(name, stack.skip(stack.len() - count)) {
                Some(value) => advanced(pc, pushed(stack.take(stack.len() - count), value, limit)),
                None => Err(ExecutionError::UnknownConstant),
            }
        },
        Op::Unary(operator) => if stack.len() < 1 {
            underflow
        } else {
            advanced(pc, replaced(stack, 1, unary_value(operator, stack.last()), limit))
        },
        Op::BooleanNot => if stack.len() < 1 {
            underflow
        } else {
            advanced(pc, replaced(stack, 1, Ok(truth(stack.last() == 0)), limit))
        },
        Op::SignedLiteralNegate(ty, bits) => if stack.len() < 1 {
            underflow
        } else {
            advanced(pc, replaced(stack, 1, negated_magnitude(stack.last(), ty, bits), limit))
        },
        Op::Cast(ty, bits) => if stack.len() < 1 {
            underflow
        } else {
            advanced(pc, replaced(stack, 1, cast_value(stack.last(), ty, bits), limit))
        },
        Op::AscribeInteger(ty, bits) => if stack.len() < 1 {
            underflow
        } else {
            advanced(pc, replaced(stack, 1, ascribed_value(stack.last(), ty, bits), limit))
        },
        Op::Binary(operator) => if stack.len() < 2 {
            underflow
        } else {
            advanced(
                pc,
                replaced(
                    stack,
                    2,
                    binary_value(operator, stack[stack.len() - 2], stack.last()),
                    limit,
                ),
            )
        },
        Op::NormalizeBool => if stack.len() < 1 {
            underflow
        } else {
            advanced(pc, replaced(stack, 1, Ok(truth(stack.last() != 0)), limit))
        },
        Op::Pop => if stack.len() < 1 {
            underflow
        } else {
            Ok((pc + 1, stack.drop_last()))
        },
        Op::BranchIfFalse(target) => if stack.len() < 1 {
            underflow
        } else if stack.last() != 0 {
            Ok((pc + 1, stack.drop_last()))
        } else if !branch_stands(pc, target, length) {
            Err(ExecutionError::InvalidBranch)
        } else {
            match pushed(stack.drop_last(), 0, limit) {
                Ok(stack) => Ok((target, stack)),
                Err(error) => Err(error),
            }
        },
        Op::BranchIfTrue(target) => if stack.len() < 1 {
            underflow
        } else if stack.last() == 0 {
            Ok((pc + 1, stack.drop_last()))
        } else if !branch_stands(pc, target, length) {
            Err(ExecutionError::InvalidBranch)
        } else {
            match pushed(stack.drop_last(), 1, limit) {
                Ok(stack) => Ok((target, stack)),
                Err(error) => Err(error),
            }
        },
        Op::JumpIfFalse(target) => if stack.len() < 1 {
            underflow
        } else if stack.last() != 0 {
            Ok((pc + 1, stack.drop_last()))
        } else if !branch_stands(pc, target, length) {
            Err(ExecutionError::InvalidBranch)
        } else {
            Ok((target, stack.drop_last()))
        },
        Op::Jump(target) => if !branch_stands(pc, target, length) {
            Err(ExecutionError::InvalidBranch)
        } else {
            Ok((target, stack))
        },
    }
}

/// Execution of a program from `pc` on to its end.
pub open spec fn run<R: ConstantResolver>(
    code: Seq<Option<Op>>,
    resolver: &R,
    pc: int,
    stack: Seq<u128>,
    limit: int,
) -> Result<u128, ExecutionError>
    decreases code.len() - pc,
{
    if pc < 0 || pc >= code.len() {
        if stack.len() == 1 {
            Ok(stack[0])
        } else {
            Err(ExecutionError::InvalidFinalStack)
        }
    } else {
        match code[pc] {
            None => Err(ExecutionError::InvalidBranch),
            Some(op) => match step(op, resolver, pc, code.len() as int, stack, limit) {
                Err(error) => Err(error),
                Ok((next, stack)) => if next > pc {
                    run(code, resolver, next, stack, limit)
                } else {
                    Err(ExecutionError::InvalidBranch)
                },
            },
        }
    }
}

fn validate_branch(current: usize, target: usize, length: usize) -> (result: Result<
    (),
    ExecutionError,
>)
    ensures
        match result {
            Ok(()) => branch_stands(current as int, target as int, length as int),
            Err(error) => error == ExecutionError::InvalidBranch && !branch_stands(
                current as int,
                target as int,
                length as int,
            ),
        },
{
    if target <= current || target > length {
        Err(ExecutionError::InvalidBranch)
    } else {
        Ok(())
    }
}

fn push(stack: &mut Vec<u128>, limit: usize, value: u128) -> (result: Result<(), ExecutionError>)
    ensures
        match result {
            Ok(()) => pushed(old(stack)@, value, limit as int) == Ok::<Seq<u128>, ExecutionError>(
                final(stack)@,
            ),
            Err(error) => pushed(old(stack)@, value, limit as int) == Err::<
                Seq<u128>,
                ExecutionError,
            >(error) && final(stack)@ == old(stack)@,
        },
{
    if stack.len() >= limit {
        return Err(ExecutionError::StackOverflow);
    }
    stack.push(value);
    Ok(())
}

fn pop(stack: &mut Vec<u128>) -> (result: Result<u128, ExecutionError>)
    ensures
        match result {
            Ok(value) => popped(old(stack)@) == Ok::<(u128, Seq<u128>), ExecutionError>(
                (value, final(stack)@),
            ),
            Err(error) => popped(old(stack)@) == Err::<(u128, Seq<u128>), ExecutionError>(error)
                && final(stack)@ == old(stack)@,
        },
{
    match stack.pop() {
        Some(value) => Ok(value),
        None => Err(ExecutionError::StackUnderflow),
    }
}

/// Takes the last `count` values off the stack.
fn pop_all(stack: &mut Vec<u128>, count: usize) -> (result: Result<Vec<u128>, ExecutionError>)
    ensures
        match result {
            Ok(values) => old(stack)@.len() >= count && values@ == old(stack)@.skip(
                old(stack)@.len() - count,
            ) && final(stack)@ == old(stack)@.take(old(stack)@.len() - count),
            Err(error) => old(stack)@.len() < count && error == ExecutionError::StackUnderflow
                && final(stack)@ == old(stack)@,
        },
{
    if stack.len() < count {
        return Err(ExecutionError::StackUnderflow);
    }
    let kept: usize = stack.len() - count;
    let values: Vec<u128> = stack.split_off(kept);
    proof {
        assert(values@ =~= old(stack)@.skip(old(stack)@.len() - count));
        assert(stack@ =~= old(stack)@.take(old(stack)@.len() - count));
    }
    Ok(values)
}

fn truth_value(condition: bool) -> (value: u128)
    ensures
        value == truth(condition),
{
    if condition {
        1
    } else {
        0
    }
}

fn arithmetic(result: Result<u128, ConstEvalError>) -> (outcome: Result<u128, ExecutionError>)
    ensures
        outcome == match result {
            Ok(value) => Ok::<u128, ExecutionError>(value),
            Err(error) => Err(ExecutionError::Arithmetic(error)),
        },
{
    match result {
        Ok(value) => Ok(value),
        Err(error) => Err(ExecutionError::Arithmetic(error)),
    }
}

/// Executes one instruction: the next position, with the stack changed.
fn execute_instruction<R: ConstantResolver>(
    instruction: Instruction,
    resolver: &R,
    pc: usize,
    length: usize,
    stack: &mut Vec<u128>,
    limit: usize,
) -> (result: Result<usize, ExecutionError>)
    requires
        pc < length,
    ensures
        match result {
            Ok(next) => step(
                instruction@,
                resolver,
                pc as int,
                length as int,
                old(stack)@,
                limit as int,
            ) == Ok::<(int, Seq<u128>), ExecutionError>((next as int, final(stack)@)) && pc < next
                <= length,
            Err(error) => step(
                instruction@,
                resolver,
                pc as int,
                length as int,
                old(stack)@,
                limit as int,
            ) == Err::<(int, Seq<u128>), ExecutionError>(error),
        },
{
    let ghost before = stack@;
    match instruction {
        Instruction::PushInteger(value) => push(stack, limit, value)?,
        Instruction::LoadConstant(name) => match resolver.resolve(name) {
            Some(value) => push(stack, limit, value)?,
            None => return Err(ExecutionError::UnknownConstant),
        },
        Instruction::CallConstant(name, count) => {
            if count > MAX_CALL_ARGUMENTS {
                return Err(ExecutionError::InvalidFinalStack);
            }
            let arguments: Vec<u128> = pop_all(stack, count)?;
            match resolver.resolve_call(name, arguments.as_slice()) {
                Some(value) => push(stack, limit, value)?,
                None => return Err(ExecutionError::UnknownConstant),
            }
        },
        Instruction::Unary(operator) => {
            let value: u128 = pop(stack)?;
            proof {
                assert(before.take(before.len() - 1) =~= before.drop_last());
            }
            match operator {
                UnaryOperator::Negate => {
                    if value != 0 {
                        return Err(ExecutionError::Arithmetic(ConstEvalError::Overflow));
                    }
                    push(stack, limit, 0)?
                },
                UnaryOperator::Not => push(stack, limit, !value)?,
                _ => return Err(
                    ExecutionError::Arithmetic(ConstEvalError::InvalidExpressionTree),
                ),
            }
        },
        Instruction::BooleanNot => {
            let value: u128 = pop(stack)?;
            proof {
                assert(before.take(before.len() - 1) =~= before.drop_last());
            }
            push(stack, limit, truth_value(value == 0))?
        },
        Instruction::SignedLiteralNegate(target, bits) => {
            let magnitude: u128 = pop(stack)?;
            proof {
                assert(before.take(before.len() - 1) =~= before.drop_last());
            }
            let value: u128 = arithmetic(negate_signed_magnitude(magnitude, target, bits))?;
            push(stack, limit, value)?
        },
        Instruction::Cast(target, bits) => {
            let operand: u128 = pop(stack)?;
            proof {
                assert(before.take(before.len() - 1) =~= before.drop_last());
            }
            let value: u128 = arithmetic(cast_integer(operand, target, bits))?;
            push(stack, limit, value)?
        },
        Instruction::AscribeInteger(target, bits) => {
            let operand: u128 = pop(stack)?;
            proof {
                assert(before.take(before.len() - 1) =~= before.drop_last());
            }
            let value: u128 = arithmetic(ascribe_integer(operand, target, bits))?;
            push(stack, limit, value)?
        },
        Instruction::Binary(operator) => {
            let right: u128 = pop(stack)?;
            let left: u128 = pop(stack)?;
            proof {
                assert(before.take(before.len() - 2) =~= before.drop_last().drop_last());
            }
            let value: u128 = arithmetic(evaluate_binary(operator, left, right))?;
            push(stack, limit, value)?
        },
        Instruction::NormalizeBool => {
            let value: u128 = pop(stack)?;
            proof {
                assert(before.take(before.len() - 1) =~= before.drop_last());
            }
            push(stack, limit, truth_value(value != 0))?
        },
        Instruction::Pop => {
            pop(stack)?;
        },
        Instruction::BranchIfFalse(target) => {
            let value: u128 = pop(stack)?;
            if value == 0 {
                validate_branch(pc, target, length)?;
                push(stack, limit, 0)?;
                return Ok(target);
            }
        },
        Instruction::BranchIfTrue(target) => {
            let value: u128 = pop(stack)?;
            if value != 0 {
                validate_branch(pc, target, length)?;
                push(stack, limit, 1)?;
                return Ok(target);
            }
        },
        Instruction::JumpIfFalse(target) => {
            let value: u128 = pop(stack)?;
            if value == 0 {
                validate_branch(pc, target, length)?;
                return Ok(target);
            }
        },
        Instruction::Jump(target) => {
            validate_branch(pc, target, length)?;
            return Ok(target);
        },
    }
    Ok(pc + 1)
}

impl<'source, const MAX_INSTRUCTIONS: usize> IrProgram<'source, MAX_INSTRUCTIONS> {
    pub fn instructions(&self) -> (result: &[Option<Instruction<'source>>])
        ensures
            result@ == self.instructions@,
    {
        self.instructions.as_slice()
    }

    pub fn len(&self) -> (result: usize)
        ensures
            result == self@.len(),
    {
        self.instructions.len()
    }

    pub fn is_empty(&self) -> (result: bool)
        ensures
            result == (self@.len() == 0),
    {
        self.instructions.len() == 0
    }

    /// Runs the program on a stack of at most `MAX_STACK` values.
    pub fn execute<R: ConstantResolver, const MAX_STACK: usize>(&self, resolver: &R) -> (result:
        Result<u128, ExecutionError>)
        ensures
            result == run(self@, resolver, 0, seq![], MAX_STACK as int),
    {
        let mut stack: Vec<u128> = Vec::new();
        let mut pc: usize = 0;
        proof {
            assert(stack@ =~= seq![]);
        }
        while pc < self.instructions.len()
            invariant
                pc <= self.instructions.len(),
                run(self@, resolver, 0, seq![], MAX_STACK as int) == run(
                    self@,
                    resolver,
                    pc as int,
                    stack@,
                    MAX_STACK as int,
                ),
            decreases self.instructions.len() - pc,
        {
            let instruction: Instruction<'source> = match self.instructions[pc] {
                Some(instruction) => instruction,
                None => return Err(ExecutionError::InvalidBranch),
            };
            pc = execute_instruction(
                instruction,
                resolver,
                pc,
                self.instructions.len(),
                &mut stack,
                MAX_STACK,
            )?;
        }
        if stack.len() != 1 {
            return Err(ExecutionError::InvalidFinalStack);
        }
        Ok(stack[0])
    }
}

/// An instruction and the text that it comes from.
pub ghost struct Piece {
    pub op: Op,
    pub span: Span,
}

/// The instructions that lowering makes one after the other, and the error
/// that it ends in. Branch targets are absolute.
pub ghost struct Lowering {
    pub pieces: Seq<Piece>,
    pub error: Option<IrError>,
}

pub open spec fn lower_nothing() -> Lowering {
    Lowering { pieces: seq![], error: None }
}

pub open spec fn lower_one(op: Op, span: Span) -> Lowering {
    Lowering { pieces: seq![Piece { op, span }], error: None }
}

pub open spec fn lower_failure(kind: IrErrorKind, span: Span) -> Lowering {
    Lowering { pieces: seq![], error: Some(IrError { kind, span }) }
}

/// First `first`, then, where that gave no error, `second`.
pub open spec fn in_turn(first: Lowering, second: Lowering) -> Lowering {
    if first.error is Some {
        first
    } else {
        Lowering { pieces: first.pieces + second.pieces, error: second.error }
    }
}

/// A condition, a jump to `other_start` where it is false, `chosen`, a jump to
/// `end`, `other`.
pub open spec fn lower_jumps(
    condition: Lowering,
    chosen: Lowering,
    other: Lowering,
    span: Span,
    other_start: int,
    end: int,
) -> Lowering {
    in_turn(
        condition,
        in_turn(
            lower_one(Op::JumpIfFalse(other_start), span),
            in_turn(chosen, in_turn(lower_one(Op::Jump(end), span), other)),
        ),
    )
}

/// A condition that chooses between two pieces of code.
pub open spec fn lower_choice(
    condition: Lowering,
    chosen: Lowering,
    other: Lowering,
    span: Span,
    base: int,
) -> Lowering {
    let other_start = base + condition.pieces.len() + 1 + chosen.pieces.len() + 1;
    let end = other_start + other.pieces.len();
    lower_jumps(condition, chosen, other, span, other_start, end)
}

/// The branch of a short-circuit operator.
pub open spec fn logical_branch(operator: BinaryOperator, target: int) -> Op {
    if operator == BinaryOperator::LogicalAnd {
        Op::BranchIfFalse(target)
    } else {
        Op::BranchIfTrue(target)
    }
}

/// A short-circuit operator with a branch to `end`.
pub open spec fn lower_branch(
    operator: BinaryOperator,
    left: Lowering,
    right: Lowering,
    span: Span,
    end: int,
) -> Lowering {
    in_turn(
        left,
        in_turn(
            lower_one(logical_branch(operator, end), span),
            in_turn(right, lower_one(Op::NormalizeBool, span)),
        ),
    )
}

/// A short-circuit operator: the right operand runs only where the left one
/// does not decide.
pub open spec fn lower_logical(
    operator: BinaryOperator,
    left: Lowering,
    right: Lowering,
    span: Span,
    base: int,
) -> Lowering {
    let end = base + left.pieces.len() + 1 + right.pieces.len() + 1;
    lower_branch(operator, left, right, span, end)
}

pub open spec fn no_span() -> Span {
    Span { start: 0, end: 0 }
}

/// The instruction for a unary operator on `operand`.
pub open spec fn unary_op(
    nodes: Seq<Option<Node>>,
    pointer_bits: u8,
    operator: UnaryOperator,
    operand: ExprId,
    depth: int,
) -> Op {
    match (operator, signed_suffix(nodes, operand)) {
        (UnaryOperator::Negate, Some(target)) => Op::SignedLiteralNegate(target, pointer_bits),
        _ => if operator == UnaryOperator::Not && boolean_form(nodes, operand, depth) {
            Op::BooleanNot
        } else {
            Op::Unary(operator)
        },
    }
}

/// The instructions for the expression `id`, placed from `base` on.
pub open spec fn lowered(
    nodes: Seq<Option<Node>>,
    pointer_bits: u8,
    id: ExprId,
    depth: int,
    base: int,
) -> Lowering
    decreases MAX_LOWERING_DEPTH - depth, 0int,
{
    match node_at(nodes, id) {
        None => lower_failure(IrErrorKind::MissingExpression, no_span()),
        Some(node) => if depth >= MAX_LOWERING_DEPTH {
            lower_failure(IrErrorKind::NestingLimitExceeded, node.span)
        } else {
            match node.form {
                Form::Unit | Form::DefaultValue => lower_one(Op::PushInteger(0), node.span),
                Form::Integer { value, .. } => lower_one(Op::PushInteger(value), node.span),
                Form::Bool(value) => lower_one(Op::PushInteger(truth(value)), node.span),
                Form::Char(value) => lower_one(Op::PushInteger(value as u128), node.span),
                Form::Identifier(name) => lower_one(Op::LoadConstant(name), node.span),
                Form::Call { callee, arguments, argument_count } => if argument_count
                    > MAX_CALL_ARGUMENTS {
                    lower_failure(IrErrorKind::InvalidExpressionTree, node.span)
                } else {
                    in_turn(
                        lowered_arguments(
                            nodes,
                            pointer_bits,
                            arguments,
                            argument_count as int,
                            node.span,
                            depth + 1,
                            base,
                        ),
                        lower_one(Op::CallConstant(callee, argument_count), node.span),
                    )
                },
                Form::Index { base: array, index } => match node_at(nodes, index) {
                    None => lower_failure(IrErrorKind::MissingExpression, node.span),
                    Some(place) => match place.form {
                        Form::Integer { value, .. } => if value > usize::MAX {
                            lower_failure(IrErrorKind::InvalidExpressionTree, place.span)
                        } else {
                            lowered_element(
                                nodes,
                                pointer_bits,
                                array,
                                value as int,
                                depth + 1,
                                base,
                            )
                        },
                        _ => lower_failure(IrErrorKind::InvalidExpressionTree, place.span),
                    },
                },
                Form::Cast { operand, target } => in_turn(
                    lowered(nodes, pointer_bits, operand, depth + 1, base),
                    lower_one(Op::Cast(target, pointer_bits), node.span),
                ),
                Form::Ascribe { operand, target } => in_turn(
                    lowered(nodes, pointer_bits, operand, depth + 1, base),
                    match target {
                        ScalarType::Integer(target) => lower_one(
                            Op::AscribeInteger(target, pointer_bits),
                            node.span,
                        ),
                        ScalarType::Bool => lower_one(Op::NormalizeBool, node.span),
                    },
                ),
                Form::Unary { operator, operand } => in_turn(
                    lowered(nodes, pointer_bits, operand, depth + 1, base),
                    lower_one(
                        unary_op(nodes, pointer_bits, operator, operand, depth + 1),
                        node.span,
                    ),
                ),
                Form::Binary { operator, left, right } => {
                    let first = lowered(nodes, pointer_bits, left, depth + 1, base);
                    if operator == BinaryOperator::LogicalAnd || operator
                        == BinaryOperator::LogicalOr {
                        let second = lowered(
                            nodes,
                            pointer_bits,
                            right,
                            depth + 1,
                            base + first.pieces.len() + 1,
                        );
                        lower_logical(operator, first, second, node.span, base)
                    } else {
                        let second = lowered(
                            nodes,
                            pointer_bits,
                            right,
                            depth + 1,
                            base + first.pieces.len(),
                        );
                        in_turn(
                            first,
                            in_turn(second, lower_one(Op::Binary(operator), node.span)),
                        )
                    }
                },
                Form::If { condition, then_branch, else_branch } => {
                    let test = lowered(nodes, pointer_bits, condition, depth + 1, base);
                    let chosen_start = base + test.pieces.len() + 1;
                    let chosen = lowered(nodes, pointer_bits, then_branch, depth + 1, chosen_start);
                    let other_start = chosen_start + chosen.pieces.len() + 1;
                    let other = lowered(nodes, pointer_bits, else_branch, depth + 1, other_start);
                    lower_choice(test, chosen, other, node.span, base)
                },
                Form::LoopBreakIf { condition, then_branch, else_branch } => {
                    let test = lowered(nodes, pointer_bits, condition, depth + 1, base);
                    let chosen_start = base + test.pieces.len() + 1;
                    let chosen = lowered(nodes, pointer_bits, then_branch, depth + 1, chosen_start);
                    let other_start = chosen_start + chosen.pieces.len() + 1;
                    let other = lowered(nodes, pointer_bits, else_branch, depth + 1, other_start);
                    lower_choice(test, chosen, other, node.span, base)
                },
                Form::Return { operand } => lowered(nodes, pointer_bits, operand, depth + 1, base),
                Form::LoopBreak { operand } => lowered(
                    nodes,
                    pointer_bits,
                    operand,
                    depth + 1,
                    base,
                ),
                Form::InlineConst { operand } => lowered(
                    nodes,
                    pointer_bits,
                    operand,
                    depth + 1,
                    base,
                ),
                Form::Sequence { first, then } => {
                    let discarded = lowered(nodes, pointer_bits, first, depth + 1, base);
                    in_turn(
                        discarded,
                        in_turn(
                            lower_one(Op::Pop, node.span),
                            lowered(
                                nodes,
                                pointer_bits,
                                then,
                                depth + 1,
                                base + discarded.pieces.len() + 1,
                            ),
                        ),
                    )
                },
                _ => lower_failure(IrErrorKind::InvalidExpressionTree, node.span),
            }
        },
    }
}

/// The instructions for the first `count` of the expressions `ids`, in order.
pub open spec fn lowered_arguments(
    nodes: Seq<Option<Node>>,
    pointer_bits: u8,
    ids: Seq<Option<ExprId>>,
    count: int,
    span: Span,
    depth: int,
    base: int,
) -> Lowering
    decreases MAX_LOWERING_DEPTH - depth, count,
{
    if count <= 0 {
        lower_nothing()
    } else {
        let before = lowered_arguments(
            nodes,
            pointer_bits,
            ids,
            count - 1,
            span,
            depth,
            base,
        );
        in_turn(
            before,
            match ids[count - 1] {
                None => lower_failure(IrErrorKind::MissingExpression, span),
                Some(id) => lowered(nodes, pointer_bits, id, depth, base + before.pieces.len()),
            },
        )
    }
}

/// The instructions for the first `count` elements of an array, of which all
/// but the one with the number `index` are discarded.
pub open spec fn lowered_elements(
    nodes: Seq<Option<Node>>,
    pointer_bits: u8,
    ids: Seq<Option<ExprId>>,
    count: int,
    index: int,
    span: Span,
    depth: int,
    base: int,
) -> Lowering
    decreases MAX_LOWERING_DEPTH - depth, count,
{
    if count <= 0 {
        lower_nothing()
    } else {
        let before = lowered_elements(
            nodes,
            pointer_bits,
            ids,
            count - 1,
            index,
            span,
            depth,
            base,
        );
        in_turn(
            before,
            match ids[count - 1] {
                None => lower_failure(IrErrorKind::InvalidExpressionTree, span),
                Some(id) => in_turn(
                    lowered(nodes, pointer_bits, id, depth, base + before.pieces.len()),
                    if count - 1 != index {
                        lower_one(Op::Pop, span)
                    } else {
                        lower_nothing()
                    },
                ),
            },
        )
    }
}

/// The instructions for the element with the number `index` of the array
/// expression `id`.
pub open spec fn lowered_element(
    nodes: Seq<Option<Node>>,
    pointer_bits: u8,
    id: ExprId,
    index: int,
    depth: int,
    base: int,
) -> Lowering
    decreases MAX_LOWERING_DEPTH - depth, 0int,
{
    match node_at(nodes, id) {
        None => lower_failure(IrErrorKind::MissingExpression, no_span()),
        Some(node) => if depth >= MAX_LOWERING_DEPTH {
            lower_failure(IrErrorKind::NestingLimitExceeded, node.span)
        } else {
            match node.form {
                Form::DefaultValue => lower_one(Op::PushInteger(0), node.span),
                Form::Array { elements, element_count } => if element_count > MAX_ARRAY_ELEMENTS
                    || index >= element_count {
                    lower_failure(IrErrorKind::InvalidExpressionTree, node.span)
                } else {
                    lowered_elements(
                        nodes,
                        pointer_bits,
                        elements,
                        element_count as int,
                        index,
                        node.span,
                        depth + 1,
                        base,
                    )
                },
                Form::ArrayRepeat { element, count } => if index >= count {
                    lower_failure(IrErrorKind::InvalidExpressionTree, node.span)
                } else {
                    lowered(nodes, pointer_bits, element, depth + 1, base)
                },
                Form::If { condition, then_branch, else_branch } => {
                    let test = lowered(nodes, pointer_bits, condition, depth + 1, base);
                    let chosen_start = base + test.pieces.len() + 1;
                    let chosen = lowered_element(
                        nodes,
                        pointer_bits,
                        then_branch,
                        index,
                        depth + 1,
                        chosen_start,
                    );
                    let other_start = chosen_start + chosen.pieces.len() + 1;
                    let other = lowered_element(
                        nodes,
                        pointer_bits,
                        else_branch,
                        index,
                        depth + 1,
                        other_start,
                    );
                    lower_choice(test, chosen, other, node.span, base)
                },
                Form::LoopBreakIf { condition, then_branch, else_branch } => {
                    let test = lowered(nodes, pointer_bits, condition, depth + 1, base);
                    let chosen_start = base + test.pieces.len() + 1;
                    let chosen = lowered_element(
                        nodes,
                        pointer_bits,
                        then_branch,
                        index,
                        depth + 1,
                        chosen_start,
                    );
                    let other_start = chosen_start + chosen.pieces.len() + 1;
                    let other = lowered_element(
                        nodes,
                        pointer_bits,
                        else_branch,
                        index,
                        depth + 1,
                        other_start,
                    );
                    lower_choice(test, chosen, other, node.span, base)
                },
                Form::InlineConst { operand } => lowered_element(
                    nodes,
                    pointer_bits,
                    operand,
                    index,
                    depth + 1,
                    base,
                ),
                Form::LoopBreak { operand } => lowered_element(
                    nodes,
                    pointer_bits,
                    operand,
                    index,
                    depth + 1,
                    base,
                ),
                Form::Return { operand } => lowered_element(
                    nodes,
                    pointer_bits,
                    operand,
                    index,
                    depth + 1,
                    base,
                ),
                Form::Sequence { first, then } => {
                    let discarded = lowered(nodes, pointer_bits, first, depth + 1, base);
                    in_turn(
                        discarded,
                        in_turn(
                            lower_one(Op::Pop, node.span),
                            lowered_element(
                                nodes,
                                pointer_bits,
                                then,
                                index,
                                depth + 1,
                                base + discarded.pieces.len() + 1,
                            ),
                        ),
                    )
                },
                _ => lower_failure(IrErrorKind::InvalidExpressionTree, node.span),
            }
        },
    }
}

/// The bare instructions of a lowering.
pub open spec fn piece_ops(pieces: Seq<Piece>) -> Seq<Option<Op>> {
    pieces.map_values(|piece: Piece| Some(piece.op))
}

/// The error that a lowering ends in where a program that holds `present`
/// instructions already may hold no more than `limit`.
pub open spec fn lowering_error(lowering: Lowering, present: int, limit: int) -> Option<IrError> {
    if present + lowering.pieces.len() > limit {
        Some(
            IrError {
                kind: IrErrorKind::TooManyInstructions,
                span: lowering.pieces[limit - present].span,
            },
        )
    } else {
        lowering.error
    }
}

/// Whether a program begins with what was there before.
pub open spec fn goes_on_from(before: Seq<Option<Op>>, after: Seq<Option<Op>>) -> bool {
    before.len() <= after.len() && after.take(before.len() as int) =~= before
}

/// Whether a program has become `after` by the lowering, or has failed as the
/// lowering fails. What was there before stays.
pub open spec fn lowers(
    before: Seq<Option<Op>>,
    after: Seq<Option<Op>>,
    lowering: Lowering,
    limit: int,
    result: Result<(), IrError>,
) -> bool {
    match lowering_error(lowering, before.len() as int, limit) {
        Some(error) => result == Err::<(), IrError>(error) && goes_on_from(before, after),
        None => result is Ok && after == before + piece_ops(lowering.pieces) && after.len()
            <= limit,
    }
}

/// Two lowerings one after the other, the second only where the first ends well.
proof fn lowers_in_turn(
    start: Seq<Option<Op>>,
    middle: Seq<Option<Op>>,
    end: Seq<Option<Op>>,
    first: Lowering,
    second: Lowering,
    limit: int,
    first_result: Result<(), IrError>,
    result: Result<(), IrError>,
)
    requires
        start.len() <= limit,
        lowers(start, middle, first, limit, first_result),
        first_result is Ok ==> lowers(middle, end, second, limit, result),
        first_result is Err ==> result == first_result && end == middle,
    ensures
        lowers(start, end, in_turn(first, second), limit, result),
{
    let both = in_turn(first, second);
    if first_result is Ok {
        assert(piece_ops(both.pieces) =~= piece_ops(first.pieces) + piece_ops(second.pieces));
        assert(start + piece_ops(both.pieces) =~= middle + piece_ops(second.pieces));
        if result is Err {
            assert(end.take(start.len() as int) =~= end.take(middle.len() as int).take(
                start.len() as int,
            ));
            assert(end.take(start.len() as int) =~= start);
        }
    }
}

/// The targets of branches decide neither how long a lowering is nor how it
/// ends.
proof fn jump_targets_keep_shape(
    condition: Lowering,
    chosen: Lowering,
    other: Lowering,
    span: Span,
    other_start: int,
    end: int,
    present: int,
    limit: int,
)
    requires
        present <= limit,
    ensures
        lowering_error(lower_jumps(condition, chosen, other, span, 0, 0), present, limit)
            == lowering_error(
            lower_jumps(condition, chosen, other, span, other_start, end),
            present,
            limit,
        ),
{
    let plain = lower_jumps(condition, chosen, other, span, 0, 0);
    let placed = lower_jumps(condition, chosen, other, span, other_start, end);
    assert(plain.pieces.len() == placed.pieces.len());
    assert(forall|k: int|
        0 <= k < plain.pieces.len() ==> plain.pieces[k].span == placed.pieces[k].span);
}

proof fn branch_target_keeps_shape(
    operator: BinaryOperator,
    left: Lowering,
    right: Lowering,
    span: Span,
    end: int,
    present: int,
    limit: int,
)
    requires
        present <= limit,
    ensures
        lowering_error(lower_branch(operator, left, right, span, 0), present, limit)
            == lowering_error(lower_branch(operator, left, right, span, end), present, limit),
{
    let plain = lower_branch(operator, left, right, span, 0);
    let placed = lower_branch(operator, left, right, span, end);
    assert(plain.pieces.len() == placed.pieces.len());
    assert(forall|k: int|
        0 <= k < plain.pieces.len() ==> plain.pieces[k].span == placed.pieces[k].span);
}

struct Lowerer<'tree, 'source, const MAX_NODES: usize, const MAX_INSTRUCTIONS: usize> {
    tree: &'tree ExpressionTree<'source, MAX_NODES>,
    pointer_bits: u8,
    program: IrProgram<'source, MAX_INSTRUCTIONS>,
}

impl<
    'tree,
    'source,
    const MAX_NODES: usize,
    const MAX_INSTRUCTIONS: usize,
> Lowerer<'tree, 'source, MAX_NODES, MAX_INSTRUCTIONS> {
    spec fn same_task(&self, other: &Self) -> bool {
        self.tree == other.tree && self.pointer_bits == other.pointer_bits
    }

    fn push(&mut self, instruction: Instruction<'source>, span: Span) -> (result: Result<
        usize,
        IrError,
    >)
        requires
            old(self).program@.len() <= MAX_INSTRUCTIONS,
        ensures
            final(self).same_task(old(self)),
            match result {
                Ok(index) => index == old(self).program@.len() && lowers(
                    old(self).program@,
                    final(self).program@,
                    lower_one(instruction@, span),
                    MAX_INSTRUCTIONS as int,
                    Ok(()),
                ) && final(self).program@ == old(self).program@.push(Some(instruction@)),
                Err(error) => lowers(
                    old(self).program@,
                    final(self).program@,
                    lower_one(instruction@, span),
                    MAX_INSTRUCTIONS as int,
                    Err(error),
                ),
            },
    {
        if self.program.instructions.len() >= MAX_INSTRUCTIONS {
            return Err(IrError { kind: IrErrorKind::TooManyInstructions, span });
        }
        let index: usize = self.program.instructions.len();
        self.program.instructions.push(Some(instruction));
        proof {
            assert(self.program@ =~= old(self).program@.push(Some(instruction@)));
            assert(old(self).program@ + piece_ops(lower_one(instruction@, span).pieces) =~= old(
                self,
            ).program@.push(Some(instruction@)));
        }
        Ok(index)
    }

    /// Appends an instruction whose place does not matter.
    fn append(&mut self, instruction: Instruction<'source>, span: Span) -> (result: Result<
        (),
        IrError,
    >)
        requires
            old(self).program@.len() <= MAX_INSTRUCTIONS,
        ensures
            final(self).same_task(old(self)),
            lowers(
                old(self).program@,
                final(self).program@,
                lower_one(instruction@, span),
                MAX_INSTRUCTIONS as int,
                result,
            ),
    {
        self.push(instruction, span)?;
        Ok(())
    }

    fn patch(&mut self, index: usize, instruction: Instruction<'source>)
        requires
            index < old(self).program@.len(),
        ensures
            final(self).same_task(old(self)),
            final(self).program@ == old(self).program@.update(index as int, Some(instruction@)),
    {
        self.program.instructions.set(index, Some(instruction));
        proof {
            assert(self.program@ =~= old(self).program@.update(index as int, Some(instruction@)));
        }
    }

    fn logical_instruction(operator: BinaryOperator, target: usize) -> (result: Instruction<
        'source,
    >)
        ensures
            result@ == logical_branch(operator, target as int),
    {
        if operator == BinaryOperator::LogicalAnd {
            Instruction::BranchIfFalse(target)
        } else {
            Instruction::BranchIfTrue(target)
        }
    }

    /// Lowers the operand of a conversion, an operator or a discarded value,
    /// then appends an instruction.
    fn lower_then_append(
        &mut self,
        operand: ExprId,
        instruction: Instruction<'source>,
        span: Span,
        depth: usize,
    ) -> (result: Result<(), IrError>)
        requires
            old(self).program@.len() <= MAX_INSTRUCTIONS,
            depth <= MAX_LOWERING_DEPTH,
        ensures
            final(self).same_task(old(self)),
            lowers(
                old(self).program@,
                final(self).program@,
                in_turn(
                    lowered(
                        old(self).tree@.nodes,
                        old(self).pointer_bits,
                        operand,
                        depth as int,
                        old(self).program@.len() as int,
                    ),
                    lower_one(instruction@, span),
                ),
                MAX_INSTRUCTIONS as int,
                result,
            ),
        decreases MAX_LOWERING_DEPTH - depth, 1int,
    {
        let ghost start = self.program@;
        let first = self.lower(operand, depth);
        let ghost middle = self.program@;
        let result = if first.is_ok() {
            self.append(instruction, span)
        } else {
            first
        };
        proof {
            lowers_in_turn(
                start,
                middle,
                self.program@,
                lowered(
                    old(self).tree@.nodes,
                    old(self).pointer_bits,
                    operand,
                    depth as int,
                    start.len() as int,
                ),
                lower_one(instruction@, span),
                MAX_INSTRUCTIONS as int,
                first,
                result,
            );
        }
        result
    }

    fn lower(&mut self, id: ExprId, depth: usize) -> (result: Result<(), IrError>)
        requires
            old(self).program@.len() <= MAX_INSTRUCTIONS,
        ensures
            final(self).same_task(old(self)),
            lowers(
                old(self).program@,
                final(self).program@,
                lowered(
                    old(self).tree@.nodes,
                    old(self).pointer_bits,
                    id,
                    depth as int,
                    old(self).program@.len() as int,
                ),
                MAX_INSTRUCTIONS as int,
                result,
            ),
            depth >= MAX_LOWERING_DEPTH ==> final(self).program@ == old(self).program@,
            result is Err ==> old(self).program@.len() <= final(self).program@.len()
                && final(self).program@.take(old(self).program@.len() as int)
                == old(self).program@,
        decreases MAX_LOWERING_DEPTH - depth, 0int,
    {
        let tree = self.tree;
        let expression: &Expr<'source> = match tree.expression(id) {
            Some(expression) => expression,
            None => return Err(
                IrError {
                    kind: IrErrorKind::MissingExpression,
                    span: Span { start: 0, end: 0 },
                },
            ),
        };
        let span: Span = expression.span;
        if depth >= MAX_LOWERING_DEPTH {
            return Err(IrError { kind: IrErrorKind::NestingLimitExceeded, span });
        }
        match expression.kind {
            ExprKind::Unit | ExprKind::DefaultValue => {
                self.append(Instruction::PushInteger(0), span)
            },
            ExprKind::Integer(literal) => self.append(Instruction::PushInteger(literal.value), span),
            ExprKind::Bool(value) => {
                self.append(Instruction::PushInteger(truth_value(value)), span)
            },
            ExprKind::Char(value) => self.append(Instruction::PushInteger(value as u128), span),
            ExprKind::Identifier(name) => self.append(Instruction::LoadConstant(name), span),
            ExprKind::Call { callee, arguments, argument_count } => {
                if argument_count > MAX_CALL_ARGUMENTS {
                    return Err(IrError { kind: IrErrorKind::InvalidExpressionTree, span });
                }
                let ghost start = self.program@;
                let first = self.lower_arguments(
                    arguments.as_slice(),
                    argument_count,
                    span,
                    depth + 1,
                );
                let ghost middle = self.program@;
                let instruction = Instruction::CallConstant(callee, argument_count);
                let result = if first.is_ok() {
                    self.append(instruction, span)
                } else {
                    first
                };
                proof {
                    lowers_in_turn(
                        start,
                        middle,
                        self.program@,
                        lowered_arguments(
                            old(self).tree@.nodes,
                            old(self).pointer_bits,
                            arguments@,
                            argument_count as int,
                            span,
                            depth + 1,
                            start.len() as int,
                        ),
                        lower_one(instruction@, span),
                        MAX_INSTRUCTIONS as int,
                        first,
                        result,
                    );
                }
                result
            },
            ExprKind::Index { base, index } => {
                let place: &Expr<'source> = match tree.expression(index) {
                    Some(place) => place,
                    None => return Err(IrError { kind: IrErrorKind::MissingExpression, span }),
                };
                match place.kind {
                    ExprKind::Integer(literal) => {
                        if literal.value > usize::MAX as u128 {
                            return Err(
                                IrError {
                                    kind: IrErrorKind::InvalidExpressionTree,
                                    span: place.span,
                                },
                            );
                        }
                        self.lower_array_element(base, literal.value as usize, depth + 1)
                    },
                    _ => Err(
                        IrError { kind: IrErrorKind::InvalidExpressionTree, span: place.span },
                    ),
                }
            },
            ExprKind::Cast { operand, target } => {
                let instruction = Instruction::Cast(target, self.pointer_bits);
                self.lower_then_append(operand, instruction, span, depth + 1)
            },
            ExprKind::Ascribe { operand, target } => {
                let instruction = match target {
                    ScalarType::Integer(target) => Instruction::AscribeInteger(
                        target,
                        self.pointer_bits,
                    ),
                    ScalarType::Bool => Instruction::NormalizeBool,
                };
                self.lower_then_append(operand, instruction, span, depth + 1)
            },
            ExprKind::Unary { operator, operand } => {
                let instruction = match (operator, tree.signed_literal_type(operand)) {
                    (UnaryOperator::Negate, Some(target)) => Instruction::SignedLiteralNegate(
                        target,
                        self.pointer_bits,
                    ),
                    _ => {
                        if operator == UnaryOperator::Not && tree.is_boolean_expression(
                            operand,
                            depth + 1,
                        ) {
                            Instruction::BooleanNot
                        } else {
                            Instruction::Unary(operator)
                        }
                    },
                };
                self.lower_then_append(operand, instruction, span, depth + 1)
            },
            ExprKind::Binary { operator, left, right } => {
                if operator == BinaryOperator::LogicalAnd || operator == BinaryOperator::LogicalOr {
                    return self.lower_short_circuit(operator, left, right, span, depth + 1);
                }
                let ghost start = self.program@;
                let ghost nodes = self.tree@.nodes;
                let ghost bits = self.pointer_bits;
                let first = self.lower(left, depth + 1);
                let ghost middle = self.program@;
                let instruction = Instruction::Binary(operator);
                let result = if first.is_ok() {
                    self.lower_then_append(right, instruction, span, depth + 1)
                } else {
                    first
                };
                proof {
                    let left_code = lowered(nodes, bits, left, depth + 1, start.len() as int);
                    let right_code = lowered(
                        nodes,
                        bits,
                        right,
                        depth + 1,
                        start.len() as int + left_code.pieces.len(),
                    );
                    lowers_in_turn(
                        start,
                        middle,
                        self.program@,
                        left_code,
                        in_turn(right_code, lower_one(instruction@, span)),
                        MAX_INSTRUCTIONS as int,
                        first,
                        result,
                    );
                }
                result
            },
            ExprKind::If { condition, then_branch, else_branch }
            | ExprKind::LoopBreakIf { condition, then_branch, else_branch } => {
                self.lower_branches(condition, then_branch, else_branch, None, span, depth + 1)
            },
            ExprKind::Return { operand }
            | ExprKind::LoopBreak { operand }
            | ExprKind::InlineConst { operand } => self.lower(operand, depth + 1),
            ExprKind::Sequence { first, then } => {
                self.lower_sequence(first, then, None, span, depth + 1)
            },
            _ => Err(IrError { kind: IrErrorKind::InvalidExpressionTree, span }),
        }
    }

    /// Lowers an expression, or one element of it where `element` tells which.
    fn lower_part(&mut self, id: ExprId, element: Option<usize>, depth: usize) -> (result: Result<
        (),
        IrError,
    >)
        requires
            old(self).program@.len() <= MAX_INSTRUCTIONS,
            depth <= MAX_LOWERING_DEPTH,
        ensures
            final(self).same_task(old(self)),
            lowers(
                old(self).program@,
                final(self).program@,
                lowered_part(
                    old(self).tree@.nodes,
                    old(self).pointer_bits,
                    id,
                    element,
                    depth as int,
                    old(self).program@.len() as int,
                ),
                MAX_INSTRUCTIONS as int,
                result,
            ),
        decreases MAX_LOWERING_DEPTH - depth, 1int,
    {
        match element {
            Some(index) => self.lower_array_element(id, index, depth),
            None => self.lower(id, depth),
        }
    }

    /// Lowers a statement whose value is discarded and what comes after it.
    fn lower_sequence(
        &mut self,
        first: ExprId,
        then: ExprId,
        element: Option<usize>,
        span: Span,
        depth: usize,
    ) -> (result: Result<(), IrError>)
        requires
            old(self).program@.len() <= MAX_INSTRUCTIONS,
            depth <= MAX_LOWERING_DEPTH,
        ensures
            final(self).same_task(old(self)),
            ({
                let nodes = old(self).tree@.nodes;
                let bits = old(self).pointer_bits;
                let base = old(self).program@.len() as int;
                let discarded = lowered(nodes, bits, first, depth as int, base);
                lowers(
                    old(self).program@,
                    final(self).program@,
                    in_turn(
                        discarded,
                        in_turn(
                            lower_one(Op::Pop, span),
                            lowered_part(
                                nodes,
                                bits,
                                then,
                                element,
                                depth as int,
                                base + discarded.pieces.len() + 1,
                            ),
                        ),
                    ),
                    MAX_INSTRUCTIONS as int,
                    result,
                )
            }),
        decreases MAX_LOWERING_DEPTH - depth, 2int,
    {
        let ghost nodes = self.tree@.nodes;
        let ghost bits = self.pointer_bits;
        let ghost start = self.program@;
        let limit: Ghost<int> = Ghost(MAX_INSTRUCTIONS as int);
        let first_result = self.lower(first, depth);
        let ghost discarded = lowered(nodes, bits, first, depth as int, start.len() as int);
        let ghost after_first = self.program@;
        let pop_result = if first_result.is_ok() {
            self.append(Instruction::Pop, span)
        } else {
            first_result
        };
        let ghost after_pop = self.program@;
        let result = if pop_result.is_ok() {
            self.lower_part(then, element, depth)
        } else {
            pop_result
        };
        proof {
            let rest = lowered_part(
                nodes,
                bits,
                then,
                element,
                depth as int,
                start.len() as int + discarded.pieces.len() + 1,
            );
            let tail = in_turn(lower_one(Op::Pop, span), rest);
            if first_result is Ok {
                lowers_in_turn(
                    after_first,
                    after_pop,
                    self.program@,
                    lower_one(Op::Pop, span),
                    rest,
                    limit@,
                    pop_result,
                    result,
                );
            }
            lowers_in_turn(
                start,
                after_first,
                self.program@,
                discarded,
                tail,
                limit@,
                first_result,
                result,
            );
        }
        result
    }

    fn lower_short_circuit(
        &mut self,
        operator: BinaryOperator,
        left: ExprId,
        right: ExprId,
        span: Span,
        depth: usize,
    ) -> (result: Result<(), IrError>)
        requires
            old(self).program@.len() <= MAX_INSTRUCTIONS,
            depth <= MAX_LOWERING_DEPTH,
        ensures
            final(self).same_task(old(self)),
            ({
                let nodes = old(self).tree@.nodes;
                let bits = old(self).pointer_bits;
                let base = old(self).program@.len() as int;
                let first = lowered(nodes, bits, left, depth as int, base);
                let second = lowered(
                    nodes,
                    bits,
                    right,
                    depth as int,
                    base + first.pieces.len() + 1,
                );
                lowers(
                    old(self).program@,
                    final(self).program@,
                    lower_logical(operator, first, second, span, base),
                    MAX_INSTRUCTIONS as int,
                    result,
                )
            }),
        decreases MAX_LOWERING_DEPTH - depth, 2int,
    {
        let ghost nodes = self.tree@.nodes;
        let ghost bits = self.pointer_bits;
        let ghost start = self.program@;
        let ghost limit = MAX_INSTRUCTIONS as int;
        let ghost first = lowered(nodes, bits, left, depth as int, start.len() as int);
        let ghost second = lowered(
            nodes,
            bits,
            right,
            depth as int,
            start.len() as int + first.pieces.len() + 1,
        );
        let ghost normalize = lower_one(Op::NormalizeBool, span);
        let ghost end = start.len() as int + first.pieces.len() + 1 + second.pieces.len() + 1;
        let ghost unplaced = lower_one(logical_branch(operator, 0), span);
        proof {
            branch_target_keeps_shape(
                operator,
                first,
                second,
                span,
                end,
                start.len() as int,
                limit,
            );
        }
        let left_result = self.lower(left, depth);
        let ghost after_left = self.program@;
        let mut branch: usize = 0;
        let branch_result = match left_result {
            Ok(()) => match self.push(Self::logical_instruction(operator, 0), span) {
                Ok(index) => {
                    branch = index;
                    Ok(())
                },
                Err(error) => Err(error),
            },
            Err(error) => Err(error),
        };
        let ghost after_branch = self.program@;
        let result = if branch_result.is_ok() {
            self.lower_then_append(right, Instruction::NormalizeBool, span, depth)
        } else {
            branch_result
        };
        proof {
            let tail = in_turn(second, normalize);
            if left_result is Ok {
                lowers_in_turn(
                    after_left,
                    after_branch,
                    self.program@,
                    unplaced,
                    tail,
                    limit,
                    branch_result,
                    result,
                );
            }
            lowers_in_turn(
                start,
                after_left,
                self.program@,
                first,
                in_turn(unplaced, tail),
                limit,
                left_result,
                result,
            );
        }
        if result.is_ok() {
            let ghost code = self.program@;
            let target: usize = self.program.instructions.len();
            self.patch(branch, Self::logical_instruction(operator, target));
            proof {
                let placed = lower_branch(operator, first, second, span, end);
                assert(target == end);
                assert(self.program@ =~= start + piece_ops(placed.pieces));
            }
        }
        result
    }

    /// Lowers a choice between two expressions, or between one element of each.
    fn lower_branches(
        &mut self,
        condition: ExprId,
        then_branch: ExprId,
        else_branch: ExprId,
        element: Option<usize>,
        span: Span,
        depth: usize,
    ) -> (result: Result<(), IrError>)
        requires
            old(self).program@.len() <= MAX_INSTRUCTIONS,
            depth <= MAX_LOWERING_DEPTH,
        ensures
            final(self).same_task(old(self)),
            ({
                let nodes = old(self).tree@.nodes;
                let bits = old(self).pointer_bits;
                let base = old(self).program@.len() as int;
                let test = lowered(nodes, bits, condition, depth as int, base);
                let chosen_start = base + test.pieces.len() + 1;
                let chosen = lowered_part(
                    nodes,
                    bits,
                    then_branch,
                    element,
                    depth as int,
                    chosen_start,
                );
                let other_start = chosen_start + chosen.pieces.len() + 1;
                let other = lowered_part(
                    nodes,
                    bits,
                    else_branch,
                    element,
                    depth as int,
                    other_start,
                );
                lowers(
                    old(self).program@,
                    final(self).program@,
                    lower_choice(test, chosen, other, span, base),
                    MAX_INSTRUCTIONS as int,
                    result,
                )
            }),
        decreases MAX_LOWERING_DEPTH - depth, 2int,
    {
        let ghost nodes = self.tree@.nodes;
        let ghost bits = self.pointer_bits;
        let ghost start = self.program@;
        let ghost base = start.len() as int;
        let ghost limit = MAX_INSTRUCTIONS as int;
        let ghost test = lowered(nodes, bits, condition, depth as int, base);
        let ghost chosen_start = base + test.pieces.len() + 1;
        let ghost chosen = lowered_part(
            nodes,
            bits,
            then_branch,
            element,
            depth as int,
            chosen_start,
        );
        let ghost other_start = chosen_start + chosen.pieces.len() + 1;
        let ghost other = lowered_part(
            nodes,
            bits,
            else_branch,
            element,
            depth as int,
            other_start,
        );
        let ghost end = other_start + other.pieces.len();
        let ghost false_jump = lower_one(Op::JumpIfFalse(0), span);
        let ghost end_jump = lower_one(Op::Jump(0), span);
        proof {
            jump_targets_keep_shape(test, chosen, other, span, other_start, end, base, limit);
        }
        let test_result = self.lower(condition, depth);
        let ghost after_test = self.program@;
        let mut false_branch: usize = 0;
        let false_result = match test_result {
            Ok(()) => match self.push(Instruction::JumpIfFalse(0), span) {
                Ok(index) => {
                    false_branch = index;
                    Ok(())
                },
                Err(error) => Err(error),
            },
            Err(error) => Err(error),
        };
        let ghost after_false = self.program@;
        let chosen_result = if false_result.is_ok() {
            self.lower_part(then_branch, element, depth)
        } else {
            false_result
        };
        let ghost after_chosen = self.program@;
        let mut end_branch: usize = 0;
        let end_result = match chosen_result {
            Ok(()) => match self.push(Instruction::Jump(0), span) {
                Ok(index) => {
                    end_branch = index;
                    Ok(())
                },
                Err(error) => Err(error),
            },
            Err(error) => Err(error),
        };
        let ghost after_end = self.program@;
        let else_target: usize = self.program.instructions.len();
        let result = if end_result.is_ok() {
            self.lower_part(else_branch, element, depth)
        } else {
            end_result
        };
        proof {
            let end_tail = in_turn(end_jump, other);
            let chosen_tail = in_turn(chosen, end_tail);
            let false_tail = in_turn(false_jump, chosen_tail);
            if chosen_result is Ok {
                lowers_in_turn(
                    after_chosen,
                    after_end,
                    self.program@,
                    end_jump,
                    other,
                    limit,
                    end_result,
                    result,
                );
            }
            if false_result is Ok {
                lowers_in_turn(
                    after_false,
                    after_chosen,
                    self.program@,
                    chosen,
                    end_tail,
                    limit,
                    chosen_result,
                    result,
                );
            }
            if test_result is Ok {
                lowers_in_turn(
                    after_test,
                    after_false,
                    self.program@,
                    false_jump,
                    chosen_tail,
                    limit,
                    false_result,
                    result,
                );
            }
            lowers_in_turn(
                start,
                after_test,
                self.program@,
                test,
                false_tail,
                limit,
                test_result,
                result,
            );
        }
        if result.is_ok() {
            let end_target: usize = self.program.instructions.len();
            self.patch(false_branch, Instruction::JumpIfFalse(else_target));
            self.patch(end_branch, Instruction::Jump(end_target));
            proof {
                let placed = lower_jumps(test, chosen, other, span, other_start, end);
                assert(else_target == other_start);
                assert(end_target == end);
                assert(self.program@ =~= start + piece_ops(placed.pieces));
            }
        }
        result
    }

    fn lower_arguments(
        &mut self,
        ids: &[Option<ExprId>],
        count: usize,
        span: Span,
        depth: usize,
    ) -> (result: Result<(), IrError>)
        requires
            old(self).program@.len() <= MAX_INSTRUCTIONS,
            count <= ids@.len(),
            depth <= MAX_LOWERING_DEPTH,
        ensures
            final(self).same_task(old(self)),
            lowers(
                old(self).program@,
                final(self).program@,
                lowered_arguments(
                    old(self).tree@.nodes,
                    old(self).pointer_bits,
                    ids@,
                    count as int,
                    span,
                    depth as int,
                    old(self).program@.len() as int,
                ),
                MAX_INSTRUCTIONS as int,
                result,
            ),
        decreases MAX_LOWERING_DEPTH - depth, 1 + count,
    {
        if count == 0 {
            proof {
                assert(self.program@ + piece_ops(lower_nothing().pieces) =~= self.program@);
            }
            return Ok(());
        }
        let ghost nodes = self.tree@.nodes;
        let ghost bits = self.pointer_bits;
        let ghost start = self.program@;
        let first = self.lower_arguments(ids, count - 1, span, depth);
        let ghost middle = self.program@;
        let result = match first {
            Ok(()) => match ids[count - 1] {
                Some(id) => self.lower(id, depth),
                None => Err(IrError { kind: IrErrorKind::MissingExpression, span }),
            },
            Err(error) => Err(error),
        };
        proof {
            let before = lowered_arguments(
                nodes,
                bits,
                ids@,
                count - 1,
                span,
                depth as int,
                start.len() as int,
            );
            lowers_in_turn(
                start,
                middle,
                self.program@,
                before,
                match ids@[count - 1] {
                    None => lower_failure(IrErrorKind::MissingExpression, span),
                    Some(id) => lowered(
                        nodes,
                        bits,
                        id,
                        depth as int,
                        start.len() as int + before.pieces.len(),
                    ),
                },
                MAX_INSTRUCTIONS as int,
                first,
                result,
            );
        }
        result
    }

    fn lower_elements(
        &mut self,
        ids: &[Option<ExprId>],
        count: usize,
        index: usize,
        span: Span,
        depth: usize,
    ) -> (result: Result<(), IrError>)
        requires
            old(self).program@.len() <= MAX_INSTRUCTIONS,
            count <= ids@.len(),
            depth <= MAX_LOWERING_DEPTH,
        ensures
            final(self).same_task(old(self)),
            lowers(
                old(self).program@,
                final(self).program@,
                lowered_elements(
                    old(self).tree@.nodes,
                    old(self).pointer_bits,
                    ids@,
                    count as int,
                    index as int,
                    span,
                    depth as int,
                    old(self).program@.len() as int,
                ),
                MAX_INSTRUCTIONS as int,
                result,
            ),
        decreases MAX_LOWERING_DEPTH - depth, 2 + count,
    {
        if count == 0 {
            proof {
                assert(self.program@ + piece_ops(lower_nothing().pieces) =~= self.program@);
            }
            return Ok(());
        }
        let ghost nodes = self.tree@.nodes;
        let ghost bits = self.pointer_bits;
        let ghost start = self.program@;
        let first = self.lower_elements(ids, count - 1, index, span, depth);
        let ghost middle = self.program@;
        let ghost mut element = lower_failure(IrErrorKind::InvalidExpressionTree, span);
        let result = match first {
            Ok(()) => match ids[count - 1] {
                Some(id) => {
                    proof {
                        let code = lowered(nodes, bits, id, depth as int, middle.len() as int);
                        element = in_turn(
                            code,
                            if count - 1 != index {
                                lower_one(Op::Pop, span)
                            } else {
                                lower_nothing()
                            },
                        );
                        if count - 1 == index {
                            assert(code.pieces + lower_nothing().pieces =~= code.pieces);
                            assert(element.pieces =~= code.pieces && element.error == code.error);
                        }
                    }
                    if count - 1 != index {
                        self.lower_then_append(id, Instruction::Pop, span, depth)
                    } else {
                        self.lower(id, depth)
                    }
                },
                None => Err(IrError { kind: IrErrorKind::InvalidExpressionTree, span }),
            },
            Err(error) => Err(error),
        };
        proof {
            let before = lowered_elements(
                nodes,
                bits,
                ids@,
                count - 1,
                index as int,
                span,
                depth as int,
                start.len() as int,
            );
            lowers_in_turn(
                start,
                middle,
                self.program@,
                before,
                element,
                MAX_INSTRUCTIONS as int,
                first,
                result,
            );
        }
        result
    }

    fn lower_array_element(&mut self, id: ExprId, index: usize, depth: usize) -> (result: Result<
        (),
        IrError,
    >)
        requires
            old(self).program@.len() <= MAX_INSTRUCTIONS,
        ensures
            final(self).same_task(old(self)),
            lowers(
                old(self).program@,
                final(self).program@,
                lowered_element(
                    old(self).tree@.nodes,
                    old(self).pointer_bits,
                    id,
                    index as int,
                    depth as int,
                    old(self).program@.len() as int,
                ),
                MAX_INSTRUCTIONS as int,
                result,
            ),
        decreases MAX_LOWERING_DEPTH - depth, 0int,
    {
        let tree = self.tree;
        let expression: &Expr<'source> = match tree.expression(id) {
            Some(expression) => expression,
            None => return Err(
                IrError {
                    kind: IrErrorKind::MissingExpression,
                    span: Span { start: 0, end: 0 },
                },
            ),
        };
        let span: Span = expression.span;
        if depth >= MAX_LOWERING_DEPTH {
            return Err(IrError { kind: IrErrorKind::NestingLimitExceeded, span });
        }
        match expression.kind {
            ExprKind::DefaultValue => self.append(Instruction::PushInteger(0), span),
            ExprKind::Array { elements, element_count } => {
                if element_count > MAX_ARRAY_ELEMENTS || index >= element_count {
                    return Err(IrError { kind: IrErrorKind::InvalidExpressionTree, span });
                }
                self.lower_elements(elements.as_slice(), element_count, index, span, depth + 1)
            },
            ExprKind::ArrayRepeat { element, count } => {
                if index >= count {
                    return Err(IrError { kind: IrErrorKind::InvalidExpressionTree, span });
                }
                self.lower(element, depth + 1)
            },
            ExprKind::If { condition, then_branch, else_branch }
            | ExprKind::LoopBreakIf { condition, then_branch, else_branch } => {
                self.lower_branches(
                    condition,
                    then_branch,
                    else_branch,
                    Some(index),
                    span,
                    depth + 1,
                )
            },
            ExprKind::InlineConst { operand }
            | ExprKind::LoopBreak { operand }
            | ExprKind::Return { operand } => self.lower_array_element(operand, index, depth + 1),
            ExprKind::Sequence { first, then } => {
                self.lower_sequence(first, then, Some(index), span, depth + 1)
            },
            _ => Err(IrError { kind: IrErrorKind::InvalidExpressionTree, span }),
        }
    }
}

/// The instructions for an expression, or for one element of it.
pub open spec fn lowered_part(
    nodes: Seq<Option<Node>>,
    pointer_bits: u8,
    id: ExprId,
    element: Option<usize>,
    depth: int,
    base: int,
) -> Lowering {
    match element {
        Some(index) => lowered_element(nodes, pointer_bits, id, index as int, depth, base),
        None => lowered(nodes, pointer_bits, id, depth, base),
    }
}

/// What lowering a whole tree gives: the code, or the error.
pub open spec fn lowered_tree(tree: Tree, pointer_bits: u8, limit: int) -> Result<
    Seq<Option<Op>>,
    IrError,
> {
    let lowering = lowered(tree.nodes, pointer_bits, tree.root, 0, 0);
    match lowering_error(lowering, 0, limit) {
        Some(error) => Err(error),
        None => Ok(piece_ops(lowering.pieces)),
    }
}

pub fn lower_expression<'source, const MAX_INSTRUCTIONS: usize, const MAX_NODES: usize>(
    tree: &ExpressionTree<'source, MAX_NODES>,
) -> (result: Result<IrProgram<'source, MAX_INSTRUCTIONS>, IrError>)
    ensures
        match result {
            Ok(program) => lowered_tree(tree@, 64, MAX_INSTRUCTIONS as int) == Ok::<
                Seq<Option<Op>>,
                IrError,
            >(program@),
            Err(error) => lowered_tree(tree@, 64, MAX_INSTRUCTIONS as int) == Err::<
                Seq<Option<Op>>,
                IrError,
            >(error),
        },
{
    lower_expression_with_pointer_bits(tree, 64)
}

pub fn lower_expression_with_pointer_bits<
    'source,
    const MAX_INSTRUCTIONS: usize,
    const MAX_NODES: usize,
>(tree: &ExpressionTree<'source, MAX_NODES>, pointer_bits: u8) -> (result: Result<
    IrProgram<'source, MAX_INSTRUCTIONS>,
    IrError,
>)
    ensures
        match result {
            Ok(program) => lowered_tree(tree@, pointer_bits, MAX_INSTRUCTIONS as int) == Ok::<
                Seq<Option<Op>>,
                IrError,
            >(program@),
            Err(error) => lowered_tree(tree@, pointer_bits, MAX_INSTRUCTIONS as int) == Err::<
                Seq<Option<Op>>,
                IrError,
            >(error),
        },
{
    let mut lowerer: Lowerer<'_, 'source, MAX_NODES, MAX_INSTRUCTIONS> = Lowerer {
        tree,
        pointer_bits,
        program: IrProgram { instructions: Vec::new() },
    };
    proof {
        assert(lowerer.program@ =~= seq![]);
    }
    lowerer.lower(tree.root(), 0)?;
    proof {
        let ops = piece_ops(lowered(tree@.nodes, pointer_bits, tree@.root, 0, 0).pieces);
        assert(Seq::<Option<Op>>::empty() + ops =~= ops);
    }
    Ok(lowerer.program)
}

} // verus!
