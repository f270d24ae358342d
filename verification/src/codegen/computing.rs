//! What the code of expressions computes, by what the code of their parts computes.
use crate::codegen::trees::Operand as LocalOperand;
use vstd::arithmetic::power2::{lemma2_to64, lemma2_to64_rest, lemma_pow2_adds, pow2};
use crate::expression::{
    ConstantResolver, ExprId, Form, Tree, room,
};
use crate::function::FunctionBody;
use crate::integer::{
    BinaryOperator, truth,
};
use crate::codegen::machine::{
    Machine, Outcome, leading_goes_on, leads, loaded, next, performed, register_modulus,
    stays, stored,
};
use crate::codegen::decoding::{
    pop_rcx_is_read, push_rax_is_read,
};
use crate::codegen::standing::{
    both_parts_stand, grown, grown_twice, in_trap_site, leads_to_trap, put_grows,
    put_stands, stands,
};
use crate::codegen::growth::{
    grown_with_places, nothing_is_added, put_adds, raised_adds, released_adds,
};
use crate::codegen::instruction_growth::{
    emitted_binary_adds, emitted_negated_adds, emitted_prologue_adds,
};
use crate::codegen::value_growth::emitted_expression_adds;
use crate::codegen::statement_growth::{
    emitted_statements_adds, emitted_tail_adds,
};
use crate::codegen::value_rules::{
    emitted_expression_rule, emitted_negation_rule, emitted_operation_rule,
};
use crate::codegen::operations::{
    a_negation_has_the_other_sign, arrival, gives, in_width, near_registers,
    operator_result, register_of, the_code_of_an_operator_gives_its_value, true_width,
    wrapped,
};
use crate::codegen::accesses::{
    a_constant_is_loaded, after_push, becomes, becoming, one_step_becomes, stack_address,
    word_is_read,
};
use crate::codegen::flow::{
    a_choice_computes_one_of_two_values, a_logical_operator_leaves_out_its_second_operand,
    guarded_arm, other_arm,
};
use crate::codegen::emission::{
    Emission, each_trap_branch_leads_to_the_trap, finished, landed_at, place, put, raised,
    released, sites_stand, trapped_at, word_bytes,
};
use crate::codegen::instructions::{
    emitted_binary, emitted_negated, emitted_prologue,
};
use crate::codegen::frame::{
    Frame, form_at,
};
use crate::codegen::runtime::{
    RuntimeExpressionType, RuntimeWidth,
};
use crate::codegen::selection::opcode_of_logical;
use crate::codegen::values::{
    emitted_choice, emitted_expression, emitted_literal, emitted_negation,
    emitted_operation,
};
use crate::codegen::statements::{
    emitted_body, emitted_statements, emitted_tail,
};
use vstd::prelude::*;

verus! {

/// Whether code has left a machine as it was, but for flags, for three registers and for what stands
/// below the top of the stack.
pub open spec fn settled(before: Machine, after: Machine) -> bool {
    &&& after.registers.len() == 16
    &&& forall|i: int| 3 <= i < 16 ==> #[trigger] after.registers[i] == before.registers[i]
    &&& forall|address: int|
        before.registers[4] <= address ==> #[trigger] after.memory[address] == before.memory[address]
}

/// Whether the code from a place computes a number in `rax` on its way to another place, or stops the
/// program where there is none.
pub open spec fn computes_from(
    whole: Seq<u8>,
    m: Machine,
    from: int,
    to: int,
    result: Option<int>,
    room: int,
) -> bool {
    m.at == from && m.registers.len() == 16 && m.registers[4] >= room ==> match result {
        Some(number) => exists|after: Machine| #[trigger]
            leads(whole, m, Outcome::Running(after)) && after.at == to && after.registers[0]
                == register_of(number) && settled(m, after),
        None => leads(whole, m, Outcome::Trapped),
    }
}

/// Whether it does so for every machine that has some room on its stack.
pub open spec fn computes(whole: Seq<u8>, from: int, to: int, result: Option<int>, room: int) -> bool {
    forall|m: Machine| #[trigger] computes_from(whole, m, from, to, result, room)
}

/// A machine that has computed a number.
proof fn computed(whole: Seq<u8>, m: Machine, from: int, to: int, number: int, room: int) -> (after:
    Machine)
    requires
        computes(whole, from, to, Some(number), room),
        m.at == from,
        m.registers.len() == 16,
        m.registers[4] >= room,
    ensures
        leads(whole, m, Outcome::Running(after)),
        after.at == to,
        after.registers[0] == register_of(number),
        settled(m, after),
{
    assert(computes_from(whole, m, from, to, Some(number), room));
    choose|after: Machine| #[trigger]
        leads(whole, m, Outcome::Running(after)) && after.at == to && after.registers[0]
            == register_of(number) && settled(m, after)
}

proof fn stored_elsewhere(memory: Map<int, u8>, address: int, bytes: int, value: int, place: int)
    requires
        place < address || address + bytes <= place,
    ensures
        stored(memory, address, bytes, value)[place] == memory[place],
    decreases bytes,
{
    if bytes > 0 {
        stored_elsewhere(
            memory.insert(address, (value % 256) as u8),
            address + 1,
            bytes - 1,
            value / 256,
            place,
        );
    }
}

proof fn loaded_agrees(first: Map<int, u8>, second: Map<int, u8>, address: int, bytes: int)
    requires
        forall|place: int|
            address <= place < address + bytes ==> #[trigger] first[place] == second[place],
    ensures
        loaded(first, address, bytes) == loaded(second, address, bytes),
    decreases bytes,
{
    if bytes > 0 {
        assert(first[address] == second[address]);
        loaded_agrees(first, second, address + 1, bytes - 1);
    }
}

/// What is stored is loaded again.
pub proof fn what_is_stored_is_loaded(memory: Map<int, u8>, address: int, bytes: int, value: int)
    requires
        0 <= bytes,
        0 <= value < pow2((8 * bytes) as nat),
    ensures
        loaded(stored(memory, address, bytes, value), address, bytes) == value,
    decreases bytes,
{
    lemma2_to64();
    if bytes > 0 {
        let low = memory.insert(address, (value % 256) as u8);
        lemma_pow2_adds((8 * (bytes - 1)) as nat, 8);
        let rest = pow2((8 * (bytes - 1)) as nat) as int;
        assert(0 <= value / 256 < rest) by (nonlinear_arith)
            requires
                0 <= value < rest * 256,
        ;
        what_is_stored_is_loaded(low, address + 1, bytes - 1, value / 256);
        stored_elsewhere(low, address + 1, bytes - 1, value / 256, address);
    }
}

proof fn register_is_loaded(memory: Map<int, u8>, address: int, value: u64)
    ensures
        loaded(stored(memory, address, 8, value as int), address, 8) == value,
{
    lemma2_to64();
    lemma2_to64_rest();
    what_is_stored_is_loaded(memory, address, 8, value as int);
}

/// The code of an operation up to where its left operand is on the stack.
pub open spec fn left_operand_pushed<R: ConstantResolver, const P: usize, const N: usize>(
    f: Frame<R, P, N>,
    s: Emission,
    tree: Tree,
    left: ExprId,
    depth: int,
    fuel: int,
) -> Emission {
    raised(f, put(f, emitted_expression(f, s, tree, left, depth + 1, fuel - 1), [0x50u8]@), 1)
}

/// The code of an operation up to where it operates.
pub open spec fn left_operand_popped<R: ConstantResolver, const P: usize, const N: usize>(
    f: Frame<R, P, N>,
    s: Emission,
    tree: Tree,
    left: ExprId,
    right: ExprId,
    depth: int,
    fuel: int,
) -> Emission {
    let pushed = left_operand_pushed(f, s, tree, left, depth, fuel);
    put(f, released(f, emitted_expression(f, pushed, tree, right, depth + 1, fuel - 1), 1), [0x59u8]@)
}

/// The code of an operation computes its left operand and puts it on the stack, computes its right
/// operand, takes the left one from the stack again, and operates on both.
#[verifier::rlimit(60)]
pub proof fn an_operation_computes_its_operands<R: ConstantResolver, const P: usize, const N: usize>(
    whole: Seq<u8>,
    f: Frame<R, P, N>,
    s: Emission,
    tree: Tree,
    operator: BinaryOperator,
    left: ExprId,
    right: ExprId,
    depth: int,
    fuel: int,
    m: Machine,
    n: Machine,
)
    requires
        fuel > 0,
        !(operator is LogicalAnd),
        !(operator is LogicalOr),
        emitted_operation(f, s, tree, operator, left, right, depth, fuel).failure is None,
        stands(whole, s, emitted_operation(f, s, tree, operator, left, right, depth, fuel)),
        m.registers.len() == 16,
        n.registers.len() == 16,
    ensures
        ({
            let pushed = left_operand_pushed(f, s, tree, left, depth, fuel);
            let popped = left_operand_popped(f, s, tree, left, right, depth, fuel);
            let first = emitted_expression(f, s, tree, left, depth + 1, fuel - 1);
            let second = emitted_expression(f, pushed, tree, right, depth + 1, fuel - 1);
            let end = emitted_operation(f, s, tree, operator, left, right, depth, fuel);
            &&& stands(whole, s, first)
            &&& m.at == first.code.len() ==> becomes(
                whole,
                m,
                pushed.code.len() as int,
                after_push(m, 0).0,
                after_push(m, 0).1,
            )
            &&& pushed.temporaries == first.temporaries + 1
            &&& stands(whole, pushed, second)
            &&& n.at == second.code.len() ==> becomes(
                whole,
                n,
                popped.code.len() as int,
                n.registers.update(4, stack_address(n, 8) as u64).update(
                    1,
                    loaded(n.memory, n.registers[4] as int, 8) as u64,
                ),
                n.memory,
            )
            &&& popped.width == s.width
            &&& popped.overflow_checks == s.overflow_checks
            &&& end == emitted_binary(f, popped, operator)
            &&& stands(whole, popped, end)
        }),
{
    emitted_operation_rule(f, s, tree, operator, left, right, depth, fuel);
    let end = emitted_operation(f, s, tree, operator, left, right, depth, fuel);
    let first = emitted_expression(f, s, tree, left, depth + 1, fuel - 1);
    let saved = put(f, first, [0x50u8]@);
    let pushed = raised(f, saved, 1);
    let second = emitted_expression(f, pushed, tree, right, depth + 1, fuel - 1);
    let lower = released(f, second, 1);
    let popped = put(f, lower, [0x59u8]@);
    emitted_expression_rule(f, s, tree, left, depth + 1, fuel - 1);
    emitted_expression_rule(f, pushed, tree, right, depth + 1, fuel - 1);
    emitted_binary_adds(s, f, popped, operator);
    put_adds(s, f, lower, [0x59u8]@);
    released_adds(s, f, second, 1);
    emitted_expression_adds(s, f, pushed, tree, right, depth + 1, fuel - 1);
    raised_adds(s, f, saved, 1);
    put_adds(s, f, first, [0x50u8]@);
    emitted_expression_adds(s, f, s, tree, left, depth + 1, fuel - 1);
    nothing_is_added(s);
    nothing_is_added(popped);
    emitted_binary_adds(popped, f, popped, operator);
    nothing_is_added(pushed);
    emitted_expression_adds(pushed, f, pushed, tree, right, depth + 1, fuel - 1);
    put_grows(f, first, [0x50u8]@);
    put_grows(f, lower, [0x59u8]@);
    assert(pushed.code == saved.code && pushed.traps == saved.traps && pushed.width == saved.width
        && pushed.temporaries == saved.temporaries + 1) by {
        reveal(raised);
    }
    assert(lower.code == second.code && lower.traps == second.traps && lower.width == second.width)
        by {
        reveal(released);
    }
    assert(grown(s, first) && grown(first, pushed) && grown(pushed, second) && grown(
        second,
        popped,
    ) && grown(popped, end) && grown(lower, popped) && grown(first, saved)) by {
        reveal(grown_with_places);
        reveal(grown);
    }
    grown_twice(s, first, pushed);
    grown_twice(s, pushed, second);
    grown_twice(s, second, popped);
    both_parts_stand(whole, s, popped, end);
    both_parts_stand(whole, s, second, popped);
    both_parts_stand(whole, s, pushed, second);
    both_parts_stand(whole, s, first, pushed);
    assert(stands(whole, first, saved) && stands(whole, lower, popped)) by {
        reveal(stands);
    }
    put_stands(whole, f, first, [0x50u8]@);
    put_stands(whole, f, lower, [0x59u8]@);
    assert([0x50u8]@[0] == 0x50 && [0x59u8]@[0] == 0x59);
    if m.at == first.code.len() {
        push_rax_is_read(whole, m.at);
        let after = Machine {
            registers: after_push(m, 0).0,
            memory: after_push(m, 0).1,
            at: m.at + 1,
            ..m
        };
        assert(next(whole, m) == Outcome::Running(after)) by {
            reveal(performed);
        }
        one_step_becomes(whole, m, after);
    }
    if n.at == second.code.len() {
        pop_rcx_is_read(whole, n.at);
        let after = Machine {
            registers: n.registers.update(4, stack_address(n, 8) as u64).update(
                1,
                loaded(n.memory, n.registers[4] as int, 8) as u64,
            ),
            at: n.at + 1,
            ..n
        };
        assert(next(whole, n) == Outcome::Running(after)) by {
            reveal(performed);
        }
        one_step_becomes(whole, n, after);
    }
}

/// The result of an operation, by those of its operands.
pub open spec fn operation_result(
    operator: BinaryOperator,
    left: Option<int>,
    right: Option<int>,
    width: RuntimeWidth,
    checks: bool,
) -> Option<int> {
    match (left, right) {
        (Some(left), Some(right)) => operator_result(operator, left, right, width, checks),
        _ => None,
    }
}

/// Where the code of the left operand of an operation computes a number, and so does that of the
/// right one, the code of the operation computes the value of its operator. It stops the program where
/// an operand does, or where there is no such value.
#[verifier::rlimit(60)]
pub proof fn an_operation_computes_the_value_of_its_operator<R: ConstantResolver, const P: usize, const N: usize>(
    whole: Seq<u8>,
    f: Frame<R, P, N>,
    s: Emission,
    tree: Tree,
    operator: BinaryOperator,
    left: ExprId,
    right: ExprId,
    depth: int,
    fuel: int,
    first_result: Option<int>,
    second_result: Option<int>,
    room: int,
)
    requires
        fuel > 0,
        !(operator is LogicalAnd),
        !(operator is LogicalOr),
        true_width(s.width),
        emitted_operation(f, s, tree, operator, left, right, depth, fuel).failure is None,
        stands(whole, s, emitted_operation(f, s, tree, operator, left, right, depth, fuel)),
        first_result matches Some(number) ==> in_width(number, s.width),
        second_result matches Some(number) ==> in_width(number, s.width),
        room >= 8,
    ensures
        ({
            let pushed = left_operand_pushed(f, s, tree, left, depth, fuel);
            let first = emitted_expression(f, s, tree, left, depth + 1, fuel - 1);
            let second = emitted_expression(f, pushed, tree, right, depth + 1, fuel - 1);
            let end = emitted_operation(f, s, tree, operator, left, right, depth, fuel);
            &&& stands(whole, s, first)
            &&& stands(whole, pushed, second)
            &&& computes(
                whole,
                s.code.len() as int,
                first.code.len() as int,
                first_result,
                room,
            ) && computes(
                whole,
                pushed.code.len() as int,
                second.code.len() as int,
                second_result,
                room - 8,
            ) ==> computes(
                whole,
                s.code.len() as int,
                end.code.len() as int,
                operation_result(
                    operator,
                    first_result,
                    second_result,
                    s.width,
                    s.overflow_checks,
                ),
                room,
            )
        }),
{
    let pushed = left_operand_pushed(f, s, tree, left, depth, fuel);
    let first = emitted_expression(f, s, tree, left, depth + 1, fuel - 1);
    let second = emitted_expression(f, pushed, tree, right, depth + 1, fuel - 1);
    let end = emitted_operation(f, s, tree, operator, left, right, depth, fuel);
    let from = s.code.len() as int;
    let to = end.code.len() as int;
    let result = operation_result(operator, first_result, second_result, s.width, s.overflow_checks);
    operation_stands(whole, f, s, tree, operator, left, right, depth, fuel);
    if computes(whole, from, first.code.len() as int, first_result, room) && computes(
        whole,
        pushed.code.len() as int,
        second.code.len() as int,
        second_result,
        room - 8,
    ) {
        assert forall|m: Machine| #[trigger] computes_from(whole, m, from, to, result, room) by {
            if m.at == from && m.registers.len() == 16 && m.registers[4] >= room {
                operation_computes_from(
                    whole,
                    f,
                    s,
                    tree,
                    operator,
                    left,
                    right,
                    depth,
                    fuel,
                    first_result,
                    second_result,
                    room,
                    m,
                );
            }
        }
    }
}

proof fn operation_stands<R: ConstantResolver, const P: usize, const N: usize>(
    whole: Seq<u8>,
    f: Frame<R, P, N>,
    s: Emission,
    tree: Tree,
    operator: BinaryOperator,
    left: ExprId,
    right: ExprId,
    depth: int,
    fuel: int,
)
    requires
        fuel > 0,
        !(operator is LogicalAnd),
        !(operator is LogicalOr),
        emitted_operation(f, s, tree, operator, left, right, depth, fuel).failure is None,
        stands(whole, s, emitted_operation(f, s, tree, operator, left, right, depth, fuel)),
    ensures
        ({
            let pushed = left_operand_pushed(f, s, tree, left, depth, fuel);
            &&& stands(whole, s, emitted_expression(f, s, tree, left, depth + 1, fuel - 1))
            &&& stands(whole, pushed, emitted_expression(f, pushed, tree, right, depth + 1, fuel - 1))
        }),
{
    let any = Machine {
        registers: Seq::new(16, |i: int| 0u64),
        zero: false,
        sign: false,
        carry: false,
        overflow: false,
        memory: Map::empty(),
        at: 0,
    };
    an_operation_computes_its_operands(
        whole,
        f,
        s,
        tree,
        operator,
        left,
        right,
        depth,
        fuel,
        any,
        any,
    );
}

#[verifier::rlimit(80)]
proof fn operation_computes_from<R: ConstantResolver, const P: usize, const N: usize>(
    whole: Seq<u8>,
    f: Frame<R, P, N>,
    s: Emission,
    tree: Tree,
    operator: BinaryOperator,
    left: ExprId,
    right: ExprId,
    depth: int,
    fuel: int,
    first_result: Option<int>,
    second_result: Option<int>,
    room: int,
    m: Machine,
)
    requires
        fuel > 0,
        !(operator is LogicalAnd),
        !(operator is LogicalOr),
        true_width(s.width),
        emitted_operation(f, s, tree, operator, left, right, depth, fuel).failure is None,
        stands(whole, s, emitted_operation(f, s, tree, operator, left, right, depth, fuel)),
        first_result matches Some(number) ==> in_width(number, s.width),
        second_result matches Some(number) ==> in_width(number, s.width),
        room >= 8,
        ({
            let pushed = left_operand_pushed(f, s, tree, left, depth, fuel);
            let first = emitted_expression(f, s, tree, left, depth + 1, fuel - 1);
            let second = emitted_expression(f, pushed, tree, right, depth + 1, fuel - 1);
            &&& computes(whole, s.code.len() as int, first.code.len() as int, first_result, room)
            &&& computes(
                whole,
                pushed.code.len() as int,
                second.code.len() as int,
                second_result,
                room - 8,
            )
        }),
        m.at == s.code.len(),
        m.registers.len() == 16,
        m.registers[4] >= room,
    ensures
        computes_from(
            whole,
            m,
            s.code.len() as int,
            emitted_operation(f, s, tree, operator, left, right, depth, fuel).code.len() as int,
            operation_result(operator, first_result, second_result, s.width, s.overflow_checks),
            room,
        ),
{
    let pushed = left_operand_pushed(f, s, tree, left, depth, fuel);
    let popped = left_operand_popped(f, s, tree, left, right, depth, fuel);
    let first = emitted_expression(f, s, tree, left, depth + 1, fuel - 1);
    let second = emitted_expression(f, pushed, tree, right, depth + 1, fuel - 1);
    let end = emitted_operation(f, s, tree, operator, left, right, depth, fuel);
    let from = s.code.len() as int;
    let a = first.code.len() as int;
    let b = pushed.code.len() as int;
    let c = second.code.len() as int;
    let d = popped.code.len() as int;
    assert(computes_from(whole, m, from, a, first_result, room));
    if let Some(number) = first_result {
        let m1 = computed(whole, m, from, a, number, room);
        an_operation_computes_its_operands(
            whole,
            f,
            s,
            tree,
            operator,
            left,
            right,
            depth,
            fuel,
            m1,
            m1,
        );
        let (registers, memory) = after_push(m1, 0);
        let m2 = becoming(whole, m1, b, registers, memory);
        leading_goes_on(whole, m, m1, Outcome::Running(m2));
        let top = m.registers[4] - 8;
        near_registers(top);
        assert(m2.registers[4] == top);
        assert(computes_from(whole, m2, b, c, second_result, room - 8));
        if let Some(other) = second_result {
            let m3 = computed(whole, m2, b, c, other, room - 8);
            leading_goes_on(whole, m, m2, Outcome::Running(m3));
            an_operation_computes_its_operands(
                whole,
                f,
                s,
                tree,
                operator,
                left,
                right,
                depth,
                fuel,
                m1,
                m3,
            );
            let value = register_of(number);
            assert(loaded(m3.memory, top, 8) == value) by {
                loaded_agrees(m3.memory, m2.memory, top, 8);
                register_is_loaded(m1.memory, top, value);
            }
            near_registers(m.registers[4] as int);
            let m4 = becoming(
                whole,
                m3,
                d,
                m3.registers.update(4, stack_address(m3, 8) as u64).update(1, value),
                m3.memory,
            );
            leading_goes_on(whole, m, m3, Outcome::Running(m4));
            assert(settled(m, m4)) by {
                assert forall|i: int| 3 <= i < 16 implies #[trigger] m4.registers[i]
                    == m.registers[i] by {
                    assert(m1.registers[i] == m.registers[i]);
                    if i != 4 {
                        assert(m2.registers[i] == m1.registers[i]);
                        assert(m3.registers[i] == m2.registers[i]);
                    }
                }
                assert forall|address: int| m.registers[4] <= address implies #[trigger] m4.memory[address]
                    == m.memory[address] by {
                    assert(m3.memory[address] == m2.memory[address]);
                    stored_elsewhere(m1.memory, top, 8, value as int, address);
                    assert(m1.memory[address] == m.memory[address]);
                }
            }
            the_code_of_an_operator_gives_its_value(whole, f, popped, operator, m4, number, other);
            match operator_result(operator, number, other, s.width, s.overflow_checks) {
                Some(answer) => {
                    let m5 = arrival(whole, m4, end.code.len() as int, register_of(answer));
                    leading_goes_on(whole, m, m4, Outcome::Running(m5));
                    assert forall|i: int| 3 <= i < 16 implies #[trigger] m5.registers[i]
                        == m.registers[i] by {
                        assert(m4.registers[i] == m.registers[i]);
                    }
                    assert(settled(m, m5));
                },
                None => {
                    leading_goes_on(whole, m, m4, Outcome::Trapped);
                },
            }
        } else {
            leading_goes_on(whole, m, m2, Outcome::Trapped);
        }
    }
}

/// What a machine computes by way of a machine that it leads to.
proof fn computes_after(
    whole: Seq<u8>,
    m: Machine,
    middle: Machine,
    from: int,
    start: int,
    to: int,
    result: Option<int>,
    room: int,
)
    requires
        leads(whole, m, Outcome::Running(middle)),
        settled(m, middle),
        middle.at == start,
        m.registers.len() == 16,
        m.registers[4] >= room,
        computes_from(whole, middle, start, to, result, room),
    ensures
        computes_from(whole, m, from, to, result, room),
{
    assert(middle.registers[4] == m.registers[4]);
    match result {
        Some(number) => {
            let after = choose|after: Machine| #[trigger]
                leads(whole, middle, Outcome::Running(after)) && after.at == to && after.registers[0]
                    == register_of(number) && settled(middle, after);
            leading_goes_on(whole, m, middle, Outcome::Running(after));
            assert forall|i: int| 3 <= i < 16 implies #[trigger] after.registers[i]
                == m.registers[i] by {
                assert(middle.registers[i] == m.registers[i]);
            }
            assert forall|address: int| m.registers[4] <= address implies #[trigger] after.memory[address]
                == m.memory[address] by {
                assert(middle.memory[address] == m.memory[address]);
            }
            assert(settled(m, after));
        },
        None => {
            leading_goes_on(whole, m, middle, Outcome::Trapped);
        },
    }
}

/// A machine that is in place has computed what it holds.
proof fn computed_already(whole: Seq<u8>, m: Machine, number: int, room: int)
    requires
        m.registers.len() == 16,
        m.registers[0] == register_of(number),
    ensures
        computes_from(whole, m, m.at, m.at, Some(number), room),
{
    stays(whole, m);
    assert(settled(m, m));
}

/// The code of a number computes it.
pub proof fn a_literal_computes_its_number<R: ConstantResolver, const P: usize, const N: usize>(
    whole: Seq<u8>,
    f: Frame<R, P, N>,
    s: Emission,
    value: u128,
    room: int,
)
    requires
        emitted_literal(f, s, value).failure is None,
        stands(whole, s, emitted_literal(f, s, value)),
    ensures
        computes(
            whole,
            s.code.len() as int,
            emitted_literal(f, s, value).code.len() as int,
            Some(value as int),
            room,
        ),
{
    reveal(emitted_literal);
    let from = s.code.len() as int;
    let to = emitted_literal(f, s, value).code.len() as int;
    near_registers(value as int);
    assert forall|m: Machine| #[trigger]
        computes_from(whole, m, from, to, Some(value as int), room) by {
        if m.at == from && m.registers.len() == 16 {
            a_constant_is_loaded(whole, f, s, value as u64, m);
            let after = becoming(whole, m, to, m.registers.update(0, value as u64), m.memory);
            assert(settled(m, after));
        }
    }
}

/// Where the code of a condition computes a number, and the code of the value that it chooses
/// computes another one, the code of `if` computes that one.
#[verifier::rlimit(60)]
pub proof fn a_choice_computes_the_chosen_value<R: ConstantResolver, const P: usize, const N: usize>(
    whole: Seq<u8>,
    f: Frame<R, P, N>,
    s: Emission,
    tree: Tree,
    condition: ExprId,
    then_branch: ExprId,
    else_branch: ExprId,
    depth: int,
    fuel: int,
    truth: int,
    result: Option<int>,
    room: int,
)
    requires
        fuel > 0,
        emitted_choice(f, s, tree, condition, then_branch, else_branch, depth, fuel).failure is None,
        stands(
            whole,
            s,
            emitted_choice(f, s, tree, condition, then_branch, else_branch, depth, fuel),
        ),
        whole.len() <= usize::MAX,
        -register_modulus() < truth < register_modulus(),
        ({
            let tested = emitted_expression(f, s, tree, condition, depth + 1, fuel - 1);
            let entered = guarded_arm(f, tested, 0x84);
            let done = emitted_expression(f, entered, tree, then_branch, depth + 1, fuel - 1);
            let other = other_arm(f, tested, done);
            let over = emitted_expression(f, other, tree, else_branch, depth + 1, fuel - 1);
            &&& computes(
                whole,
                s.code.len() as int,
                tested.code.len() as int,
                Some(truth),
                room,
            )
            &&& truth != 0 ==> computes(
                whole,
                entered.code.len() as int,
                done.code.len() as int,
                result,
                room,
            )
            &&& truth == 0 ==> computes(
                whole,
                other.code.len() as int,
                over.code.len() as int,
                result,
                room,
            )
        }),
    ensures
        computes(
            whole,
            s.code.len() as int,
            emitted_choice(
                f,
                s,
                tree,
                condition,
                then_branch,
                else_branch,
                depth,
                fuel,
            ).code.len() as int,
            result,
            room,
        ),
{
    let tested = emitted_expression(f, s, tree, condition, depth + 1, fuel - 1);
    let entered = guarded_arm(f, tested, 0x84);
    let done = emitted_expression(f, entered, tree, then_branch, depth + 1, fuel - 1);
    let other = other_arm(f, tested, done);
    let over = emitted_expression(f, other, tree, else_branch, depth + 1, fuel - 1);
    let end = emitted_choice(f, s, tree, condition, then_branch, else_branch, depth, fuel);
    let from = s.code.len() as int;
    let a = tested.code.len() as int;
    let b = entered.code.len() as int;
    let c = done.code.len() as int;
    let d = other.code.len() as int;
    let to = end.code.len() as int;
    near_registers(truth);
    assert forall|m: Machine| #[trigger] computes_from(whole, m, from, to, result, room) by {
        if m.at == from && m.registers.len() == 16 && m.registers[4] >= room {
            let m1 = computed(whole, m, from, a, truth, room);
            a_choice_computes_one_of_two_values(
                whole,
                f,
                s,
                tree,
                condition,
                then_branch,
                else_branch,
                depth,
                fuel,
                m1,
                m1,
            );
            if truth == 0 {
                let m2 = becoming(whole, m1, d, m1.registers, m1.memory);
                assert(computes_from(whole, m2, d, to, result, room));
                computes_after(whole, m1, m2, a, d, to, result, room);
            } else {
                let m2 = becoming(whole, m1, b, m1.registers, m1.memory);
                match result {
                    Some(number) => {
                        let m3 = computed(whole, m2, b, c, number, room);
                        a_choice_computes_one_of_two_values(
                            whole,
                            f,
                            s,
                            tree,
                            condition,
                            then_branch,
                            else_branch,
                            depth,
                            fuel,
                            m1,
                            m3,
                        );
                        let m4 = becoming(whole, m3, to, m3.registers, m3.memory);
                        computed_already(whole, m4, number, room);
                        computes_after(whole, m3, m4, c, to, to, result, room);
                        computes_after(whole, m2, m3, b, c, to, result, room);
                    },
                    None => {
                        assert(computes_from(whole, m2, b, c, result, room));
                    },
                }
                computes_after(whole, m1, m2, a, b, to, result, room);
            }
            computes_after(whole, m, m1, from, a, to, result, room);
        }
    }
}

/// Where the code of both operands computes truths, the code of `&&` computes whether both hold, and
/// that of `||` whether one of them does. The second operand does not matter where the first one
/// tells.
#[verifier::rlimit(60)]
pub proof fn a_logical_operator_computes_a_truth<R: ConstantResolver, const P: usize, const N: usize>(
    whole: Seq<u8>,
    f: Frame<R, P, N>,
    s: Emission,
    tree: Tree,
    operator: BinaryOperator,
    left: ExprId,
    right: ExprId,
    depth: int,
    fuel: int,
    first: bool,
    second: bool,
    room: int,
)
    requires
        fuel > 0,
        operator is LogicalAnd || operator is LogicalOr,
        emitted_operation(f, s, tree, operator, left, right, depth, fuel).failure is None,
        stands(whole, s, emitted_operation(f, s, tree, operator, left, right, depth, fuel)),
        whole.len() <= usize::MAX,
        ({
            let tested = emitted_expression(f, s, tree, left, depth + 1, fuel - 1);
            let entered = guarded_arm(f, tested, opcode_of_logical(operator));
            let done = emitted_expression(f, entered, tree, right, depth + 1, fuel - 1);
            &&& computes(
                whole,
                s.code.len() as int,
                tested.code.len() as int,
                Some(number_of_truth(first)),
                room,
            )
            &&& first == (operator is LogicalAnd) ==> computes(
                whole,
                entered.code.len() as int,
                done.code.len() as int,
                Some(number_of_truth(second)),
                room,
            )
        }),
    ensures
        computes(
            whole,
            s.code.len() as int,
            emitted_operation(f, s, tree, operator, left, right, depth, fuel).code.len() as int,
            Some(
                number_of_truth(
                    if operator is LogicalAnd {
                        first && second
                    } else {
                        first || second
                    },
                ),
            ),
            room,
        ),
{
    let tested = emitted_expression(f, s, tree, left, depth + 1, fuel - 1);
    let entered = guarded_arm(f, tested, opcode_of_logical(operator));
    let done = emitted_expression(f, entered, tree, right, depth + 1, fuel - 1);
    let end = emitted_operation(f, s, tree, operator, left, right, depth, fuel);
    let from = s.code.len() as int;
    let a = tested.code.len() as int;
    let b = entered.code.len() as int;
    let to = end.code.len() as int;
    let answer = number_of_truth(
        if operator is LogicalAnd {
            first && second
        } else {
            first || second
        },
    );
    assert forall|m: Machine| #[trigger] computes_from(whole, m, from, to, Some(answer), room) by {
        if m.at == from && m.registers.len() == 16 && m.registers[4] >= room {
            let m1 = computed(whole, m, from, a, number_of_truth(first), room);
            a_logical_operator_leaves_out_its_second_operand(
                whole,
                f,
                s,
                tree,
                operator,
                left,
                right,
                depth,
                fuel,
                m1,
            );
            if first == (operator is LogicalAnd) {
                let m2 = becoming(whole, m1, b, m1.registers, m1.memory);
                assert(computes_from(whole, m2, b, to, Some(number_of_truth(second)), room));
                computes_after(whole, m1, m2, a, b, to, Some(answer), room);
            } else {
                let m2 = becoming(whole, m1, to, m1.registers, m1.memory);
                computed_already(whole, m2, answer, room);
                computes_after(whole, m1, m2, a, to, to, Some(answer), room);
            }
            computes_after(whole, m, m1, from, a, to, Some(answer), room);
        }
    }
}

/// The number of a truth.
pub open spec fn number_of_truth(holds: bool) -> int {
    if holds {
        1
    } else {
        0
    }
}

/// Every branch to the trap is near enough.
proof fn traps_are_near<R: ConstantResolver, const P: usize, const N: usize>(
    f: Frame<R, P, N>,
    s: Emission,
    target: usize,
    from: int,
)
    requires
        0 <= from,
        trapped_at(f, s, target, from).failure is None,
    ensures
        forall|i: int|
            from <= i < s.traps.len() ==> 0 <= target - (#[trigger] s.traps[i] + 4) <= 0x7fff_ffff,
        s.failure is None,
    decreases s.traps.len() - from,
{
    reveal(trapped_at);
    if from < s.traps.len() {
        let next = Emission { traps: s.traps, ..landed_at(f, s, s.traps[from], target) };
        traps_are_near(f, next, target, from + 1);
        reveal(landed_at);
    }
}

/// Code that has been added to nothing stands in the code that is made whole from it.
proof fn finished_code_stands<R: ConstantResolver, const P: usize, const N: usize>(
    f: Frame<R, P, N>,
    s: Emission,
    last: Emission,
)
    requires
        s.code.len() == 0,
        s.traps.len() == 0,
        grown(s, last),
        finished(f, last).failure is None,
    ensures
        stands(finished(f, last).code, s, last),
{
    let end = finished(f, last);
    reveal(finished);
    reveal(grown);
    reveal(stands);
    if last.traps.len() > 0 {
        reveal(place);
        let trap = place(last);
        let start = put(f, last, [0x0fu8, 0x0b]@);
        traps_are_near(f, start, trap, 0);
        put_grows(f, last, [0x0fu8, 0x0b]@);
        assert(sites_stand(last.traps, last.code.len() as int)) by {
            reveal(sites_stand);
        }
        each_trap_branch_leads_to_the_trap(f, last);
        assert forall|place: int|
            0 <= place < last.code.len() && !in_trap_site(last, 0, place) implies #[trigger] end.code[place]
            == last.code[place] by {
            assert forall|i: int| #![trigger last.traps[i]] 0 <= i < last.traps.len() implies !(
            last.traps[i] <= place < last.traps[i] + 4) by {}
        }
        assert forall|i: int| 0 <= i < last.traps.len() implies leads_to_trap(
            end.code,
            #[trigger] last.traps[i] as int,
        ) by {
            let site = last.traps[i] as int;
            let distance = trap - (site + 4);
            assert(start.traps[i] == last.traps[i]);
            assert forall|k: int| 0 <= k < 4 implies end.code[site + k] == #[trigger] word_bytes(
                distance,
            )[k] by {
                assert(end.code.subrange(site, site + 4)[k] == end.code[site + k]);
            }
            word_is_read(end.code, site, distance);
        }
    }
}

/// The parts of a function stand in its code one behind the other: what saves the parameters, the
/// statements, and the value at the end.
pub proof fn the_parts_of_a_function_stand_in_its_code<R: ConstantResolver, const P: usize, const N: usize>(
    f: Frame<R, P, N>,
    s: Emission,
    body: FunctionBody,
    expected: RuntimeExpressionType,
    operand: LocalOperand,
)
    requires
        s.code.len() == 0,
        s.traps.len() == 0,
        emitted_body(f, s, body, expected, operand).failure is None,
    ensures
        ({
            let whole = emitted_body(f, s, body, expected, operand).code;
            let saved = emitted_prologue(f, s);
            let stated = emitted_statements(f, saved, body, expected, operand, 0);
            let last = emitted_tail(f, stated, body, expected);
            &&& stands(whole, s, saved)
            &&& stands(whole, saved, stated)
            &&& stands(whole, stated, last)
        }),
{
    reveal(emitted_body);
    let end = emitted_body(f, s, body, expected, operand);
    let saved = emitted_prologue(f, s);
    let stated = emitted_statements(f, saved, body, expected, operand, 0);
    let last = emitted_tail(f, stated, body, expected);
    assert(last.failure is None) by {
        reveal(finished);
        if last.traps.len() > 0 {
            traps_are_near(f, put(f, last, [0x0fu8, 0x0b]@), place(last), 0);
            put_grows(f, last, [0x0fu8, 0x0b]@);
        }
    }
    emitted_tail_adds(s, f, stated, body, expected);
    emitted_statements_adds(s, f, saved, body, expected, operand, 0);
    emitted_prologue_adds(s, f, s);
    nothing_is_added(s);
    nothing_is_added(saved);
    nothing_is_added(stated);
    emitted_statements_adds(saved, f, saved, body, expected, operand, 0);
    emitted_tail_adds(stated, f, stated, body, expected);
    assert(grown(s, saved) && grown(saved, stated) && grown(stated, last) && grown(s, last)) by {
        reveal(grown_with_places);
    }
    finished_code_stands(f, s, last);
    grown_twice(s, saved, stated);
    both_parts_stand(end.code, s, stated, last);
    both_parts_stand(end.code, s, saved, stated);
}

/// What code does behind code that computes a number.
proof fn computes_further(
    whole: Seq<u8>,
    m: Machine,
    from: int,
    middle: int,
    to: int,
    number: int,
    result: Option<int>,
    room: int,
)
    requires
        computes(whole, from, middle, Some(number), room),
        forall|n: Machine|
            n.at == middle && n.registers.len() == 16 && n.registers[0] == register_of(number)
                ==> #[trigger] gives(whole, n, to, result),
    ensures
        computes_from(whole, m, from, to, result, room),
{
    if m.at == from && m.registers.len() == 16 && m.registers[4] >= room {
        let n = computed(whole, m, from, middle, number, room);
        assert(gives(whole, n, to, result));
        if let Some(answer) = result {
            let after = arrival(whole, n, to, register_of(answer));
            assert(settled(n, after));
        }
        assert(computes_from(whole, n, middle, to, result, room));
        computes_after(whole, m, n, from, middle, to, result, room);
    }
}

/// Where the code of an operand computes a number, the code of its negation computes the number with
/// the other sign, or stops the program where there is none.
pub proof fn a_negation_computes_the_other_sign<R: ConstantResolver, const P: usize, const N: usize>(
    whole: Seq<u8>,
    f: Frame<R, P, N>,
    s: Emission,
    tree: Tree,
    operand: ExprId,
    depth: int,
    fuel: int,
    number: int,
    room: int,
)
    requires
        fuel > 0,
        true_width(s.width),
        s.width.signed,
        in_width(number, s.width),
        !(form_at(tree, operand) matches Some(Form::Integer { .. })),
        emitted_negation(f, s, tree, operand, depth, fuel).failure is None,
        stands(whole, s, emitted_negation(f, s, tree, operand, depth, fuel)),
        computes(
            whole,
            s.code.len() as int,
            emitted_expression(f, s, tree, operand, depth + 1, fuel - 1).code.len() as int,
            Some(number),
            room,
        ),
    ensures
        computes(
            whole,
            s.code.len() as int,
            emitted_negation(f, s, tree, operand, depth, fuel).code.len() as int,
            if in_width(-number, s.width) {
                Some(-number)
            } else if s.overflow_checks {
                None
            } else {
                Some(wrapped(-number, s.width))
            },
            room,
        ),
{
    emitted_negation_rule(f, s, tree, operand, depth, fuel);
    let first = emitted_expression(f, s, tree, operand, depth + 1, fuel - 1);
    let end = emitted_negation(f, s, tree, operand, depth, fuel);
    assert(end == emitted_negated(f, first, s.width));
    emitted_expression_rule(f, s, tree, operand, depth + 1, fuel - 1);
    emitted_negated_adds(s, f, first, s.width);
    emitted_expression_adds(s, f, s, tree, operand, depth + 1, fuel - 1);
    nothing_is_added(s);
    nothing_is_added(first);
    emitted_negated_adds(first, f, first, s.width);
    assert(grown(s, first) && grown(first, end)) by {
        reveal(grown_with_places);
    }
    both_parts_stand(whole, s, first, end);
    let result = if in_width(-number, s.width) {
        Some(-number)
    } else if s.overflow_checks {
        None
    } else {
        Some(wrapped(-number, s.width))
    };
    let from = s.code.len() as int;
    let middle = first.code.len() as int;
    let to = end.code.len() as int;
    assert forall|n: Machine|
        n.at == middle && n.registers.len() == 16 && n.registers[0] == register_of(
            number,
        ) implies #[trigger] gives(whole, n, to, result) by {
        a_negation_has_the_other_sign(whole, f, first, n, number);
    }
    assert forall|m: Machine| #[trigger] computes_from(whole, m, from, to, result, room) by {
        computes_further(whole, m, from, middle, to, number, result, room);
    }
}

} // verus!
