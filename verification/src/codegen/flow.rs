//! Where the code of conditions and loops goes.
use crate::codegen::trees::{Operand as LocalOperand, LoopPlaces, condition_of, ends_loop, number_of_controls, value_of_type};
use crate::expression::{
    ConstantResolver, ExprId, Tree,
};
use crate::function::{
    ConditionalAssignment, ConditionalLoopBlock, ConditionalLoopControl,
    ConditionalLoopElseArm, ConditionalReturn, NestedLoopBlock, NestedLoopControlTarget,
    WhileLoop,
};
use crate::integer::BinaryOperator;
use crate::codegen::machine::{
    Machine, Operand, Operation, Outcome, after_operation, meets, next, performed,
};
use crate::codegen::decoding::{
    branch_is_read, jump_is_read, test_rax_rax_is_read,
};
use crate::codegen::standing::{
    both_parts_stand, grown, in_trap_site, leads_to_trap, put_grows, put_stands, stands,
};
use crate::codegen::growth::{
    added, added_twice, ended_inner_loop_adds, ended_loop_adds, grown_with_places, kept,
    landed_adds, left_inner_loop_adds, left_loop_adds, left_loop_on_zero_adds,
    nothing_is_added, put_adds, returned_to_adds, truncated_adds,
};
use crate::codegen::instruction_growth::emitted_cleanup_to_adds;
use crate::codegen::value_growth::emitted_expression_adds;
use crate::codegen::statement_growth::{
    emitted_action_block_adds, emitted_assignment_branches_adds, emitted_else_arms_adds,
    emitted_loop_block_adds, emitted_loop_body_adds, emitted_loop_operations_adds,
    emitted_nested_actions_adds, emitted_nested_body_adds, emitted_typed_return_adds,
    emitted_way_out_adds,
};
use crate::codegen::value_rules::{
    emitted_choice_rule, emitted_operation_rule,
};
use crate::codegen::operations::{
    operation_leads, test_tells,
};
use crate::codegen::accesses::{
    becomes, one_step_becomes, step_becomes, word_is_read,
};
use crate::codegen::emission::{
    Emission, branch_place, ended_inner_loop, ended_loop, landed, landed_all, landed_at,
    left_inner_loop, left_loop, left_loop_on_zero, place, put, returned_to, tree_size,
    truncated, word_bytes,
};
use crate::codegen::instructions::emitted_cleanup_to;
use crate::codegen::encoding::number_of_locals;
use crate::codegen::frame::Frame;
use crate::codegen::runtime::RuntimeExpressionType;
use crate::codegen::selection::opcode_of_logical;
use crate::codegen::values::{
    emitted_choice, emitted_expression, emitted_operation,
};
use crate::codegen::statements::{
    emitted_action_block, emitted_assignment_branches, emitted_conditional_block,
    emitted_conditional_control, emitted_conditional_return, emitted_else_arms,
    emitted_loop_block, emitted_loop_body, emitted_loop_operations, emitted_nested_actions,
    emitted_nested_block, emitted_nested_body, emitted_test, emitted_typed_return,
    emitted_way_out, emitted_while_loop,
};
use crate::codegen::error::CodegenError;
use crate::codegen::types::behind;
use vstd::prelude::*;

verus! {

/// Whether a part of some code is still there later, and the branches to the trap with it.
#[verifier::opaque]
pub open spec fn keeps(c: Emission, d: Emission, from: int, to: int) -> bool {
    &&& 0 <= from <= to <= c.code.len() <= d.code.len()
    &&& forall|place: int| from <= place < to ==> #[trigger] d.code[place] == c.code[place]
    &&& c.traps.len() <= d.traps.len()
    &&& forall|i: int| 0 <= i < c.traps.len() ==> #[trigger] d.traps[i] == c.traps[i]
    &&& forall|i: int| c.traps.len() <= i < d.traps.len() ==> c.code.len() <= #[trigger] d.traps[i]
}

proof fn keeps_twice(c: Emission, d: Emission, e: Emission, from: int, to: int)
    requires
        keeps(c, d, from, to),
        keeps(d, e, from, to),
    ensures
        keeps(c, e, from, to),
{
    reveal(keeps);
    assert forall|place: int| from <= place < to implies #[trigger] e.code[place] == c.code[place] by {
        assert(d.code[place] == c.code[place]);
    }
    assert forall|i: int| 0 <= i < c.traps.len() implies #[trigger] e.traps[i] == c.traps[i] by {
        assert(d.traps[i] == c.traps[i]);
    }
    assert forall|i: int| c.traps.len() <= i < e.traps.len() implies c.code.len()
        <= #[trigger] e.traps[i] by {
        if i < d.traps.len() {
            assert(e.traps[i] == d.traps[i]);
        }
    }
}

/// Code that is added keeps what is there.
proof fn added_keeps(c: Emission, d: Emission, from: int, to: int)
    requires
        added(c, d),
        0 <= from <= to <= c.code.len(),
    ensures
        keeps(c, d, from, to),
{
    reveal(keeps);
    reveal(grown_with_places);
    reveal(grown);
}

/// A branch that is filled in keeps what does not overlap it.
proof fn landed_keeps<R: ConstantResolver, const P: usize, const N: usize>(
    f: Frame<R, P, N>,
    s: Emission,
    at: usize,
    from: int,
    to: int,
)
    requires
        landed(f, s, at).failure is None,
        0 <= from <= to <= s.code.len(),
        to <= at || at + 4 <= from,
    ensures
        keeps(s, landed(f, s, at), from, to),
        landed(f, s, at).code.len() == s.code.len(),
        landed(f, s, at).traps == s.traps,
{
    reveal(keeps);
    reveal(landed);
    reveal(landed_at);
}

/// What a branch that is filled in holds.
proof fn landed_holds<R: ConstantResolver, const P: usize, const N: usize>(
    f: Frame<R, P, N>,
    s: Emission,
    at: usize,
)
    requires
        landed(f, s, at).failure is None,
        s.code.len() <= usize::MAX,
    ensures
        at + 4 <= s.code.len(),
        s.code.len() - (at + 4) <= 0x7fff_ffff,
        landed(f, s, at).code.len() == s.code.len(),
        forall|i: int|
            0 <= i < 4 ==> landed(f, s, at).code[at + i] == #[trigger] word_bytes(
                s.code.len() - (at + 4),
            )[i],
{
    reveal(landed);
    reveal(landed_at);
}

/// Code that stands as part of more code stands itself.
proof fn part_stands(whole: Seq<u8>, a: Emission, b: Emission, c: Emission, d: Emission)
    requires
        added(a, b),
        added(b, c),
        keeps(c, d, b.code.len() as int, c.code.len() as int),
        stands(whole, a, d),
    ensures
        stands(whole, b, c),
{
    reveal(grown_with_places);
    reveal(grown);
    reveal(keeps);
    reveal(stands);
    let low = b.traps.len() as int;
    assert forall|place: int|
        b.code.len() <= place < c.code.len() && !in_trap_site(c, low, place) implies #[trigger] whole[place]
        == c.code[place] by {
        assert(!in_trap_site(d, a.traps.len() as int, place)) by {
            if in_trap_site(d, a.traps.len() as int, place) {
                let i = choose|i: int|
                    a.traps.len() <= i < d.traps.len() && #[trigger] d.traps[i] <= place
                        < d.traps[i] + 4;
                if i < c.traps.len() {
                    assert(d.traps[i] == c.traps[i]);
                    if i < low {
                        assert(c.traps[i] == b.traps[i]);
                    } else {
                        assert(c.traps[i] <= place < c.traps[i] + 4);
                    }
                }
            }
        }
        assert(d.code[place] == c.code[place]);
    }
    assert forall|i: int| low <= i < c.traps.len() implies leads_to_trap(
        whole,
        #[trigger] c.traps[i] as int,
    ) by {
        assert(d.traps[i] == c.traps[i]);
    }
}

/// Bytes that are added, without a branch to the trap among them, stand as they are in the end.
proof fn bytes_stand(whole: Seq<u8>, a: Emission, b: Emission, c: Emission, d: Emission)
    requires
        added(a, b),
        c.traps == b.traps,
        b.code.len() <= c.code.len(),
        keeps(c, d, c.code.len() as int, c.code.len() as int),
        stands(whole, a, d),
    ensures
        c.code.len() <= d.code.len() <= whole.len(),
        forall|place: int|
            b.code.len() <= place < c.code.len() ==> #[trigger] whole[place] == d.code[place],
{
    reveal(grown_with_places);
    reveal(grown);
    reveal(keeps);
    reveal(stands);
    assert forall|place: int| b.code.len() <= place < c.code.len() implies #[trigger] whole[place]
        == d.code[place] by {
        assert(!in_trap_site(d, a.traps.len() as int, place)) by {
            if in_trap_site(d, a.traps.len() as int, place) {
                let i = choose|i: int|
                    a.traps.len() <= i < d.traps.len() && #[trigger] d.traps[i] <= place
                        < d.traps[i] + 4;
                if i < b.traps.len() {
                    assert(d.traps[i] == c.traps[i]);
                    assert(b.traps[i] + 4 <= b.code.len());
                }
            }
        }
    }
}

/// A branch whose opcode and distance stand in the whole code.
proof fn branch_goes(whole: Seq<u8>, m: Machine, opcode: u8, target: int)
    requires
        0 <= m.at,
        m.at + 6 <= whole.len(),
        whole[m.at] == 0x0fu8,
        whole[m.at + 1] == opcode,
        0x80 <= opcode <= 0x8f,
        -0x8000_0000 <= target - (m.at + 6) <= 0x7fff_ffff,
        forall|i: int| 0 <= i < 4 ==> whole[m.at + 2 + i] == #[trigger] word_bytes(target - (m.at + 6))[i],
    ensures
        next(whole, m) == Outcome::Running(
            Machine {
                at: if meets(m, opcode - 0x80) {
                    target
                } else {
                    m.at + 6
                },
                ..m
            },
        ),
{
    reveal(performed);
    branch_is_read(whole, m.at, opcode);
    word_is_read(whole, m.at + 2, target - (m.at + 6));
    assert(meets(Machine { at: m.at + 6, ..m }, opcode - 0x80) == meets(m, opcode - 0x80));
}

/// The same of a jump.
proof fn jump_goes(whole: Seq<u8>, m: Machine, target: int)
    requires
        0 <= m.at,
        m.at + 5 <= whole.len(),
        whole[m.at] == 0xe9u8,
        -0x8000_0000 <= target - (m.at + 5) <= 0x7fff_ffff,
        forall|i: int| 0 <= i < 4 ==> whole[m.at + 1 + i] == #[trigger] word_bytes(target - (m.at + 5))[i],
    ensures
        next(whole, m) == Outcome::Running(Machine { at: target, ..m }),
{
    reveal(performed);
    jump_is_read(whole, m.at);
    word_is_read(whole, m.at + 1, target - (m.at + 5));
}

/// A branch that is put behind `b` and filled in when the code is `x`: it stands in the end.
proof fn branch_stands<R: ConstantResolver, const P: usize, const N: usize>(
    whole: Seq<u8>,
    f: Frame<R, P, N>,
    a: Emission,
    b: Emission,
    opcode: u8,
    x: Emission,
    d: Emission,
    m: Machine,
)
    requires
        0x80 <= opcode <= 0x8f,
        added(a, b),
        ({
            let c = put(f, b, [0x0fu8, opcode, 0, 0, 0, 0]@);
            let y = landed(f, x, branch_place(b, 2));
            let n = b.code.len() as int;
            &&& c.failure is None
            &&& y.failure is None
            &&& x.code.len() <= usize::MAX
            &&& keeps(c, x, n, n + 6)
            &&& keeps(y, d, n, n + 6)
            &&& x.code.len() <= d.code.len()
        }),
        stands(whole, a, d),
        m.at == b.code.len(),
    ensures
        next(whole, m) == Outcome::Running(
            Machine {
                at: if meets(m, opcode - 0x80) {
                    x.code.len() as int
                } else {
                    m.at + 6
                },
                ..m
            },
        ),
{
    let bytes = [0x0fu8, opcode, 0, 0, 0, 0]@;
    let c = put(f, b, bytes);
    let at = branch_place(b, 2);
    let y = landed(f, x, at);
    let n = b.code.len() as int;
    put_grows(f, b, bytes);
    assert(at == n + 2) by {
        reveal(branch_place);
    }
    landed_holds(f, x, at);
    landed_keeps(f, x, at, n, n + 2);
    assert(keeps(c, d, c.code.len() as int, c.code.len() as int)) by {
        reveal(keeps);
    }
    bytes_stand(whole, a, b, c, d);
    assert(whole[n] == 0x0fu8 && whole[n + 1] == opcode) by {
        reveal(keeps);
        assert(whole[n] == d.code[n] && whole[n + 1] == d.code[n + 1]);
        assert(y.code[n] == x.code[n] && y.code[n + 1] == x.code[n + 1]);
        assert(c.code[n] == bytes[0] && c.code[n + 1] == bytes[1]);
    }
    let target = x.code.len() as int;
    assert forall|i: int| 0 <= i < 4 implies whole[m.at + 2 + i] == #[trigger] word_bytes(
        target - (m.at + 6),
    )[i] by {
        reveal(keeps);
        assert(whole[n + 2 + i] == d.code[n + 2 + i]);
        assert(d.code[n + 2 + i] == y.code[n + 2 + i]);
        assert(y.code[at + i] == word_bytes(x.code.len() - (at + 4))[i]);
    }
    branch_goes(whole, m, opcode, target);
}

/// The same of a jump.
proof fn jump_stands<R: ConstantResolver, const P: usize, const N: usize>(
    whole: Seq<u8>,
    f: Frame<R, P, N>,
    a: Emission,
    b: Emission,
    x: Emission,
    d: Emission,
    m: Machine,
)
    requires
        added(a, b),
        ({
            let c = put(f, b, [0xe9u8, 0, 0, 0, 0]@);
            let y = landed(f, x, branch_place(b, 1));
            let n = b.code.len() as int;
            &&& c.failure is None
            &&& y.failure is None
            &&& x.code.len() <= usize::MAX
            &&& keeps(c, x, n, n + 5)
            &&& keeps(y, d, n, n + 5)
            &&& x.code.len() <= d.code.len()
        }),
        stands(whole, a, d),
        m.at == b.code.len(),
    ensures
        next(whole, m) == Outcome::Running(Machine { at: x.code.len() as int, ..m }),
{
    let bytes = [0xe9u8, 0, 0, 0, 0]@;
    let c = put(f, b, bytes);
    let at = branch_place(b, 1);
    let y = landed(f, x, at);
    let n = b.code.len() as int;
    put_grows(f, b, bytes);
    assert(at == n + 1) by {
        reveal(branch_place);
    }
    landed_holds(f, x, at);
    landed_keeps(f, x, at, n, n + 1);
    assert(keeps(c, d, c.code.len() as int, c.code.len() as int)) by {
        reveal(keeps);
    }
    bytes_stand(whole, a, b, c, d);
    assert(whole[n] == 0xe9u8) by {
        reveal(keeps);
        assert(whole[n] == d.code[n]);
        assert(y.code[n] == x.code[n]);
        assert(c.code[n] == bytes[0]);
    }
    let target = x.code.len() as int;
    assert forall|i: int| 0 <= i < 4 implies whole[m.at + 1 + i] == #[trigger] word_bytes(
        target - (m.at + 5),
    )[i] by {
        reveal(keeps);
        assert(whole[n + 1 + i] == d.code[n + 1 + i]);
        assert(d.code[n + 1 + i] == y.code[n + 1 + i]);
        assert(y.code[at + i] == word_bytes(x.code.len() - (at + 4))[i]);
    }
    jump_goes(whole, m, target);
}

/// A branch back to a place leads there.
pub proof fn a_branch_back_leads_back<R: ConstantResolver, const P: usize, const N: usize>(
    whole: Seq<u8>,
    f: Frame<R, P, N>,
    s: Emission,
    target: usize,
    m: Machine,
)
    requires
        returned_to(f, s, target).failure is None,
        stands(whole, s, returned_to(f, s, target)),
        m.at == s.code.len(),
    ensures
        next(whole, m) == Outcome::Running(Machine { at: target as int, ..m }),
{
    reveal(returned_to);
    let opcode = [0xe9u8]@;
    let distance = target - (s.code.len() + 5);
    let middle = put(f, s, opcode);
    let end = put(f, middle, word_bytes(distance));
    put_grows(f, middle, word_bytes(distance));
    put_grows(f, s, opcode);
    both_parts_stand(whole, s, middle, end);
    put_stands(whole, f, s, opcode);
    put_stands(whole, f, middle, word_bytes(distance));
    assert(opcode[0] == 0xe9);
    assert forall|i: int| 0 <= i < 4 implies whole[m.at + 1 + i] == #[trigger] word_bytes(
        target - (m.at + 5),
    )[i] by {
        assert(whole[middle.code.len() + i] == word_bytes(distance)[i]);
    }
    jump_goes(whole, m, target as int);
}

proof fn keeps_itself(d: Emission, from: int, to: int)
    requires
        0 <= from <= to <= d.code.len(),
    ensures
        keeps(d, d, from, to),
{
    reveal(keeps);
}

/// A part of a part that is kept is kept.
proof fn keeps_less(c: Emission, d: Emission, from: int, to: int, low: int, high: int)
    requires
        keeps(c, d, from, to),
        from <= low <= high <= to,
    ensures
        keeps(c, d, low, high),
{
    reveal(keeps);
}

/// A test of `rax` and the branch behind it: where the machine goes from there.
#[verifier::rlimit(60)]
proof fn tested_branch_stands<R: ConstantResolver, const P: usize, const N: usize>(
    whole: Seq<u8>,
    f: Frame<R, P, N>,
    a: Emission,
    b: Emission,
    opcode: u8,
    x: Emission,
    d: Emission,
    m: Machine,
)
    requires
        opcode == 0x84 || opcode == 0x85,
        added(a, b),
        ({
            let t = put(f, b, [0x48u8, 0x85, 0xc0]@);
            let c = put(f, t, [0x0fu8, opcode, 0, 0, 0, 0]@);
            let y = landed(f, x, branch_place(t, 2));
            let n = b.code.len() as int;
            &&& c.failure is None
            &&& y.failure is None
            &&& x.code.len() <= usize::MAX
            &&& keeps(c, x, n, n + 9)
            &&& keeps(y, d, n, n + 9)
            &&& x.code.len() <= d.code.len()
        }),
        stands(whole, a, d),
        m.at == b.code.len(),
        m.registers.len() == 16,
    ensures
        becomes(
            whole,
            m,
            if (m.registers[0] == 0) == (opcode == 0x84) {
                x.code.len() as int
            } else {
                b.code.len() as int + 9
            },
            m.registers,
            m.memory,
        ),
{
    let test = [0x48u8, 0x85, 0xc0]@;
    let bytes = [0x0fu8, opcode, 0, 0, 0, 0]@;
    let t = put(f, b, test);
    let c = put(f, t, bytes);
    let at = branch_place(t, 2);
    let y = landed(f, x, at);
    let n = b.code.len() as int;
    put_grows(f, t, bytes);
    put_grows(f, b, test);
    put_adds(a, f, b, test);
    assert(at == n + 5) by {
        reveal(branch_place);
    }
    landed_holds(f, x, at);
    keeps_less(c, x, n, n + 9, n + 3, n + 9);
    keeps_less(y, d, n, n + 9, n + 3, n + 9);
    keeps_less(c, x, n, n + 9, n, n + 3);
    keeps_less(y, d, n, n + 9, n, n + 3);
    landed_keeps(f, x, at, n, n + 3);
    assert(keeps(t, d, t.code.len() as int, t.code.len() as int)) by {
        reveal(keeps);
    }
    bytes_stand(whole, a, b, t, d);
    assert(whole[n] == 0x48 && whole[n + 1] == 0x85 && whole[n + 2] == 0xc0) by {
        reveal(keeps);
        assert forall|i: int| 0 <= i < 3 implies whole[n + i] == #[trigger] test[i] by {
            assert(whole[n + i] == d.code[n + i]);
            assert(d.code[n + i] == y.code[n + i]);
            assert(y.code[n + i] == x.code[n + i]);
            assert(x.code[n + i] == c.code[n + i]);
        }
        assert(test[0] == 0x48 && test[1] == 0x85 && test[2] == 0xc0);
    }
    test_rax_rax_is_read(whole, m.at);
    operation_leads(whole, m, Operation::Test, 0, 0, 3);
    test_tells(Machine { at: m.at + 3, ..m }, 0, m.registers[0]);
    let m1 = after_operation(
        Machine { at: m.at + 3, ..m },
        Operation::Test,
        64,
        Operand::Register(0),
        m.registers[0] as int,
        m.registers[0] as int,
    );
    branch_stands(whole, f, a, t, opcode, x, d, m1);
    let after = Machine {
        at: if meets(m1, opcode - 0x80) {
            x.code.len() as int
        } else {
            m1.at + 6
        },
        ..m1
    };
    one_step_becomes(whole, m1, after);
    step_becomes(whole, m, m1, after.at, m.registers, m.memory);
}

/// Whether code is to go on as it was, at a later place.
pub open spec fn goes_on_like(before: Emission, after: Emission) -> bool {
    &&& after.failure is None
    &&& before.code.len() <= after.code.len()
    &&& after.locals == before.locals
    &&& after.width == before.width
    &&& after.temporaries == before.temporaries
    &&& after.overflow_checks == before.overflow_checks
    &&& after.capacity == before.capacity
}

/// A condition and what it guards. The condition ends at `tested`, the branch behind it at
/// `entered`, and what is guarded at `done`.
#[verifier::rlimit(60)]
proof fn guarded_code_stands<R: ConstantResolver, const P: usize, const N: usize>(
    whole: Seq<u8>,
    f: Frame<R, P, N>,
    s: Emission,
    tested: Emission,
    opcode: u8,
    done: Emission,
    m: Machine,
)
    requires
        opcode == 0x84 || opcode == 0x85,
        added(s, tested),
        ({
            let t = put(f, tested, [0x48u8, 0x85, 0xc0]@);
            let entered = put(f, t, [0x0fu8, opcode, 0, 0, 0, 0]@);
            let end = landed(f, done, branch_place(t, 2));
            &&& added(entered, done)
            &&& end.failure is None
            &&& stands(whole, s, end)
        }),
        whole.len() <= usize::MAX,
        m.registers.len() == 16,
    ensures
        ({
            let t = put(f, tested, [0x48u8, 0x85, 0xc0]@);
            let entered = put(f, t, [0x0fu8, opcode, 0, 0, 0, 0]@);
            let end = landed(f, done, branch_place(t, 2));
            &&& stands(whole, s, tested)
            &&& stands(whole, entered, done)
            &&& goes_on_like(tested, entered)
            &&& end.code.len() == done.code.len()
            &&& m.at == tested.code.len() ==> becomes(
                whole,
                m,
                if (m.registers[0] == 0) == (opcode == 0x84) {
                    end.code.len() as int
                } else {
                    entered.code.len() as int
                },
                m.registers,
                m.memory,
            )
        }),
{
    let test = [0x48u8, 0x85, 0xc0]@;
    let bytes = [0x0fu8, opcode, 0, 0, 0, 0]@;
    let t = put(f, tested, test);
    let entered = put(f, t, bytes);
    let at = branch_place(t, 2);
    let end = landed(f, done, at);
    let n = tested.code.len() as int;
    assert(entered.failure is None) by {
        reveal(grown_with_places);
        reveal(grown);
    }
    put_grows(f, t, bytes);
    put_grows(f, tested, test);
    put_adds(s, f, tested, test);
    put_adds(s, f, t, bytes);
    assert(at == n + 5) by {
        reveal(branch_place);
    }
    landed_length(whole, f, s, done, at);
    landed_holds(f, done, at);
    added_keeps(entered, done, n, n + 9);
    keeps_itself(end, n, n + 9);
    if m.at == tested.code.len() {
        tested_branch_stands(whole, f, s, tested, opcode, done, end, m);
    }
    landed_keeps(f, done, at, n + 9, done.code.len() as int);
    part_stands(whole, s, entered, done, end);
    let low = s.code.len() as int;
    added_keeps(entered, done, low, n);
    landed_keeps(f, done, at, low, n);
    keeps_twice(entered, done, end, low, n);
    assert(keeps(tested, entered, low, n)) by {
        reveal(keeps);
    }
    keeps_twice(tested, entered, end, low, n);
    assert(added(s, s)) by {
        assert(s.failure is None) by {
            reveal(grown_with_places);
            reveal(grown);
        }
        nothing_is_added(s);
    }
    part_stands(whole, s, s, tested, end);
}

/// A condition and the two things that it chooses from. The first of them ends at `done`, the second
/// one at `over`.
#[verifier::rlimit(80)]
proof fn chosen_code_stands<R: ConstantResolver, const P: usize, const N: usize>(
    whole: Seq<u8>,
    f: Frame<R, P, N>,
    s: Emission,
    tested: Emission,
    done: Emission,
    over: Emission,
    m: Machine,
    n: Machine,
)
    requires
        added(s, tested),
        ({
            let t = put(f, tested, [0x48u8, 0x85, 0xc0]@);
            let entered = put(f, t, [0x0fu8, 0x84, 0, 0, 0, 0]@);
            let left = put(f, done, [0xe9u8, 0, 0, 0, 0]@);
            let other = landed(f, left, branch_place(t, 2));
            let end = landed(f, over, branch_place(done, 1));
            &&& added(entered, done)
            &&& added(other, over)
            &&& end.failure is None
            &&& stands(whole, s, end)
        }),
        whole.len() <= usize::MAX,
        m.registers.len() == 16,
    ensures
        ({
            let t = put(f, tested, [0x48u8, 0x85, 0xc0]@);
            let entered = put(f, t, [0x0fu8, 0x84, 0, 0, 0, 0]@);
            let left = put(f, done, [0xe9u8, 0, 0, 0, 0]@);
            let other = landed(f, left, branch_place(t, 2));
            let end = landed(f, over, branch_place(done, 1));
            &&& stands(whole, s, tested)
            &&& stands(whole, entered, done)
            &&& stands(whole, other, over)
            &&& goes_on_like(tested, entered)
            &&& goes_on_like(done, other)
            &&& end.code.len() == over.code.len()
            &&& m.at == tested.code.len() ==> becomes(
                whole,
                m,
                if m.registers[0] == 0 {
                    other.code.len() as int
                } else {
                    entered.code.len() as int
                },
                m.registers,
                m.memory,
            )
            &&& n.at == done.code.len() ==> becomes(
                whole,
                n,
                end.code.len() as int,
                n.registers,
                n.memory,
            )
        }),
{
    let test = [0x48u8, 0x85, 0xc0]@;
    let bytes = [0x0fu8, 0x84, 0, 0, 0, 0]@;
    let jump = [0xe9u8, 0, 0, 0, 0]@;
    let t = put(f, tested, test);
    let entered = put(f, t, bytes);
    let at = branch_place(t, 2);
    let left = put(f, done, jump);
    let other = landed(f, left, at);
    let away = branch_place(done, 1);
    let end = landed(f, over, away);
    let head = tested.code.len() as int;
    let middle = done.code.len() as int;
    let low = s.code.len() as int;
    assert(s.failure is None && entered.failure is None && done.failure is None && other.failure
        is None && over.failure is None) by {
        reveal(grown_with_places);
        reveal(grown);
    }
    landed_adds(s, f, left, at);
    put_grows(f, t, bytes);
    put_grows(f, tested, test);
    put_grows(f, done, jump);
    put_adds(s, f, tested, test);
    put_adds(s, f, t, bytes);
    added_twice(s, entered, done);
    put_adds(s, f, done, jump);
    put_adds(entered, f, done, jump);
    assert(at == head + 5 && away == middle + 1) by {
        reveal(branch_place);
    }
    landed_length(whole, f, s, over, away);
    landed_holds(f, left, at);
    landed_holds(f, over, away);
    nothing_is_added(s);
    // The branch behind the condition.
    added_keeps(entered, left, head, head + 9);
    added_keeps(other, over, head, head + 9);
    landed_keeps(f, over, away, head, head + 9);
    keeps_twice(other, over, end, head, head + 9);
    if m.at == tested.code.len() {
        tested_branch_stands(whole, f, s, tested, 0x84, left, end, m);
    }
    // The condition.
    added_keeps(entered, left, low, head);
    landed_keeps(f, left, at, low, head);
    added_keeps(other, over, low, head);
    landed_keeps(f, over, away, low, head);
    keeps_twice(entered, left, other, low, head);
    keeps_twice(entered, other, over, low, head);
    keeps_twice(entered, over, end, low, head);
    assert(keeps(tested, entered, low, head)) by {
        reveal(keeps);
    }
    keeps_twice(tested, entered, end, low, head);
    part_stands(whole, s, s, tested, end);
    // What is done where the condition holds.
    assert(keeps(done, left, head + 9, middle)) by {
        reveal(keeps);
    }
    landed_keeps(f, left, at, head + 9, middle);
    added_keeps(other, over, head + 9, middle);
    landed_keeps(f, over, away, head + 9, middle);
    keeps_twice(done, left, other, head + 9, middle);
    keeps_twice(done, other, over, head + 9, middle);
    keeps_twice(done, over, end, head + 9, middle);
    part_stands(whole, s, entered, done, end);
    // The jump behind it.
    landed_keeps(f, left, at, middle, middle + 5);
    added_keeps(other, over, middle, middle + 5);
    keeps_twice(left, other, over, middle, middle + 5);
    keeps_itself(end, middle, middle + 5);
    if n.at == done.code.len() {
        jump_stands(whole, f, s, done, over, end, n);
        one_step_becomes(whole, n, Machine { at: over.code.len() as int, ..n });
    }
    // What is done where it does not hold.
    landed_keeps(f, over, away, middle + 5, over.code.len() as int);
    part_stands(whole, s, other, over, end);
    assert(other.capacity == left.capacity && goes_on_like(left, other)) by {
        reveal(landed);
        reveal(landed_at);
    }
}

proof fn landed_length<R: ConstantResolver, const P: usize, const N: usize>(
    whole: Seq<u8>,
    f: Frame<R, P, N>,
    s: Emission,
    x: Emission,
    at: usize,
)
    requires
        landed(f, x, at).failure is None,
        stands(whole, s, landed(f, x, at)),
    ensures
        landed(f, x, at).code.len() == x.code.len(),
        x.code.len() <= whole.len(),
{
    reveal(landed);
    reveal(landed_at);
    reveal(stands);
}

/// Where the code begins that a branch behind a condition guards.
pub open spec fn guarded_arm<R: ConstantResolver, const P: usize, const N: usize>(
    f: Frame<R, P, N>,
    tested: Emission,
    opcode: u8,
) -> Emission {
    put(f, put(f, tested, [0x48u8, 0x85, 0xc0]@), [0x0fu8, opcode, 0, 0, 0, 0]@)
}

/// Where the code begins that runs otherwise, behind that which ends at `done`.
pub open spec fn other_arm<R: ConstantResolver, const P: usize, const N: usize>(
    f: Frame<R, P, N>,
    tested: Emission,
    done: Emission,
) -> Emission {
    landed(
        f,
        put(f, done, [0xe9u8, 0, 0, 0, 0]@),
        branch_place(put(f, tested, [0x48u8, 0x85, 0xc0]@), 2),
    )
}

/// The code of `&&` leaves out the second operand where the first one is zero, and that of `||` where
/// it is not.
pub proof fn a_logical_operator_leaves_out_its_second_operand<R: ConstantResolver, const P: usize, const N: usize>(
    whole: Seq<u8>,
    f: Frame<R, P, N>,
    s: Emission,
    tree: Tree,
    operator: BinaryOperator,
    left: ExprId,
    right: ExprId,
    depth: int,
    fuel: int,
    m: Machine,
) -> (entered: Emission)
    requires
        fuel > 0,
        operator is LogicalAnd || operator is LogicalOr,
        emitted_operation(f, s, tree, operator, left, right, depth, fuel).failure is None,
        stands(whole, s, emitted_operation(f, s, tree, operator, left, right, depth, fuel)),
        whole.len() <= usize::MAX,
        m.registers.len() == 16,
    ensures
        ({
            let tested = emitted_expression(f, s, tree, left, depth + 1, fuel - 1);
            let done = emitted_expression(f, entered, tree, right, depth + 1, fuel - 1);
            let end = emitted_operation(f, s, tree, operator, left, right, depth, fuel);
            &&& entered == guarded_arm(f, tested, opcode_of_logical(operator))
            &&& stands(whole, s, tested)
            &&& goes_on_like(tested, entered)
            &&& stands(whole, entered, done)
            &&& end.code.len() == done.code.len()
            &&& m.at == tested.code.len() ==> becomes(
                whole,
                m,
                if (m.registers[0] == 0) == (operator is LogicalAnd) {
                    end.code.len() as int
                } else {
                    entered.code.len() as int
                },
                m.registers,
                m.memory,
            )
        }),
{
    emitted_operation_rule(f, s, tree, operator, left, right, depth, fuel);
    let tested = emitted_expression(f, s, tree, left, depth + 1, fuel - 1);
    let t = put(f, tested, [0x48u8, 0x85, 0xc0]@);
    let entered = put(f, t, [0x0fu8, opcode_of_logical(operator), 0, 0, 0, 0]@);
    let done = emitted_expression(f, entered, tree, right, depth + 1, fuel - 1);
    let at = branch_place(t, 2);
    landed_adds(s, f, done, at);
    emitted_expression_adds(entered, f, entered, tree, right, depth + 1, fuel - 1);
    put_adds(s, f, t, [0x0fu8, opcode_of_logical(operator), 0, 0, 0, 0]@);
    put_adds(s, f, tested, [0x48u8, 0x85, 0xc0]@);
    emitted_expression_adds(s, f, s, tree, left, depth + 1, fuel - 1);
    nothing_is_added(s);
    nothing_is_added(entered);
    guarded_code_stands(whole, f, s, tested, opcode_of_logical(operator), done, m);
    entered
}

/// The code of `if` computes the second value where the condition is not zero and the third one where it
/// is, and ends in the same place either way.
pub proof fn a_choice_computes_one_of_two_values<R: ConstantResolver, const P: usize, const N: usize>(
    whole: Seq<u8>,
    f: Frame<R, P, N>,
    s: Emission,
    tree: Tree,
    condition: ExprId,
    then_branch: ExprId,
    else_branch: ExprId,
    depth: int,
    fuel: int,
    m: Machine,
    n: Machine,
) -> (parts: (Emission, Emission))
    requires
        fuel > 0,
        emitted_choice(f, s, tree, condition, then_branch, else_branch, depth, fuel).failure is None,
        stands(whole, s, emitted_choice(f, s, tree, condition, then_branch, else_branch, depth, fuel)),
        whole.len() <= usize::MAX,
        m.registers.len() == 16,
    ensures
        ({
            let (entered, other) = parts;
            let tested = emitted_expression(f, s, tree, condition, depth + 1, fuel - 1);
            let done = emitted_expression(f, entered, tree, then_branch, depth + 1, fuel - 1);
            let over = emitted_expression(f, other, tree, else_branch, depth + 1, fuel - 1);
            let end = emitted_choice(f, s, tree, condition, then_branch, else_branch, depth, fuel);
            &&& entered == guarded_arm(f, tested, 0x84)
            &&& other == other_arm(f, tested, done)
            &&& stands(whole, s, tested)
            &&& goes_on_like(tested, entered)
            &&& stands(whole, entered, done)
            &&& goes_on_like(done, other)
            &&& stands(whole, other, over)
            &&& end.code.len() == over.code.len()
            &&& m.at == tested.code.len() ==> becomes(
                whole,
                m,
                if m.registers[0] == 0 {
                    other.code.len() as int
                } else {
                    entered.code.len() as int
                },
                m.registers,
                m.memory,
            )
            &&& n.at == done.code.len() ==> becomes(
                whole,
                n,
                end.code.len() as int,
                n.registers,
                n.memory,
            )
        }),
{
    emitted_choice_rule(f, s, tree, condition, then_branch, else_branch, depth, fuel);
    let tested = emitted_expression(f, s, tree, condition, depth + 1, fuel - 1);
    let t = put(f, tested, [0x48u8, 0x85, 0xc0]@);
    let entered = put(f, t, [0x0fu8, 0x84, 0, 0, 0, 0]@);
    let done = emitted_expression(f, entered, tree, then_branch, depth + 1, fuel - 1);
    let left = put(f, done, [0xe9u8, 0, 0, 0, 0]@);
    let other = landed(f, left, branch_place(t, 2));
    let over = emitted_expression(f, other, tree, else_branch, depth + 1, fuel - 1);
    landed_adds(s, f, over, branch_place(done, 1));
    emitted_expression_adds(other, f, other, tree, else_branch, depth + 1, fuel - 1);
    landed_adds(s, f, left, branch_place(t, 2));
    put_adds(s, f, done, [0xe9u8, 0, 0, 0, 0]@);
    emitted_expression_adds(entered, f, entered, tree, then_branch, depth + 1, fuel - 1);
    put_adds(s, f, t, [0x0fu8, 0x84, 0, 0, 0, 0]@);
    put_adds(s, f, tested, [0x48u8, 0x85, 0xc0]@);
    emitted_expression_adds(s, f, s, tree, condition, depth + 1, fuel - 1);
    nothing_is_added(s);
    nothing_is_added(entered);
    nothing_is_added(other);
    chosen_code_stands(whole, f, s, tested, done, over, m, n);
    (entered, other)
}

/// The code of `if c { return v }` computes `v` and returns where the condition is not zero, and goes on
/// behind it where it is.
pub proof fn a_conditional_return_returns_on_its_condition<R: ConstantResolver, const P: usize, const N: usize>(
    whole: Seq<u8>,
    f: Frame<R, P, N>,
    s: Emission,
    conditional: ConditionalReturn,
    expected: RuntimeExpressionType,
    condition: Tree,
    value: Tree,
    m: Machine,
) -> (entered: Emission)
    requires
        condition_of(f, s.locals, conditional.condition@, conditional.condition_span) == Ok::<Tree, CodegenError>(condition),
        value_of_type(f, s.locals, conditional.value@, conditional.value_span, expected) == Ok::<Tree, CodegenError>(value),
        emitted_conditional_return(f, s, conditional, expected).failure is None,
        stands(whole, s, emitted_conditional_return(f, s, conditional, expected)),
        whole.len() <= usize::MAX,
        m.registers.len() == 16,
    ensures
        ({
            let tested = emitted_expression(f, s, condition, condition.root, 0, tree_size(condition));
            let done = emitted_typed_return(f, entered, value, expected);
            let end = emitted_conditional_return(f, s, conditional, expected);
            &&& entered == guarded_arm(f, tested, 0x84)
            &&& stands(whole, s, tested)
            &&& goes_on_like(tested, entered)
            &&& stands(whole, entered, done)
            &&& end.code.len() == done.code.len()
            &&& m.at == tested.code.len() ==> becomes(
                whole,
                m,
                if m.registers[0] == 0 {
                    end.code.len() as int
                } else {
                    entered.code.len() as int
                },
                m.registers,
                m.memory,
            )
        }),
{
    reveal(emitted_conditional_return);
    reveal(emitted_test);
    let tested = emitted_expression(f, s, condition, condition.root, 0, tree_size(condition));
    let t = put(f, tested, [0x48u8, 0x85, 0xc0]@);
    let entered = put(f, t, [0x0fu8, 0x84, 0, 0, 0, 0]@);
    let done = emitted_typed_return(f, entered, value, expected);
    let at = branch_place(t, 2);
    landed_adds(s, f, done, at);
    emitted_typed_return_adds(entered, f, entered, value, expected);
    put_adds(s, f, t, [0x0fu8, 0x84, 0, 0, 0, 0]@);
    put_adds(s, f, tested, [0x48u8, 0x85, 0xc0]@);
    emitted_expression_adds(s, f, s, condition, condition.root, 0, tree_size(condition));
    nothing_is_added(s);
    nothing_is_added(entered);
    guarded_code_stands(whole, f, s, tested, 0x84, done, m);
    entered
}

/// The code of `if c { break }` or of `if c { continue }` leaves or goes back where the condition is not
/// zero, and goes on behind it where it is.
pub proof fn a_conditional_way_out_is_taken_on_its_condition<R: ConstantResolver, const P: usize, const N: usize>(
    whole: Seq<u8>,
    f: Frame<R, P, N>,
    s: Emission,
    control: ConditionalLoopControl,
    leaves: bool,
    target: NestedLoopControlTarget,
    places: LoopPlaces,
    condition: Tree,
    m: Machine,
) -> (entered: Emission)
    requires
        condition_of(f, s.locals, control.condition@, control.condition_span) == Ok::<Tree, CodegenError>(condition),
        emitted_conditional_control(f, s, control, leaves, target, places).failure is None,
        stands(whole, s, emitted_conditional_control(f, s, control, leaves, target, places)),
        whole.len() <= usize::MAX,
        m.registers.len() == 16,
    ensures
        ({
            let tested = emitted_expression(f, s, condition, condition.root, 0, tree_size(condition));
            let done = emitted_way_out(f, entered, leaves, target, places);
            let end = emitted_conditional_control(f, s, control, leaves, target, places);
            &&& entered == guarded_arm(f, tested, 0x84)
            &&& stands(whole, s, tested)
            &&& goes_on_like(tested, entered)
            &&& stands(whole, entered, done)
            &&& end.code.len() == done.code.len()
            &&& m.at == tested.code.len() ==> becomes(
                whole,
                m,
                if m.registers[0] == 0 {
                    end.code.len() as int
                } else {
                    entered.code.len() as int
                },
                m.registers,
                m.memory,
            )
        }),
{
    reveal(emitted_conditional_control);
    reveal(emitted_test);
    let tested = emitted_expression(f, s, condition, condition.root, 0, tree_size(condition));
    let t = put(f, tested, [0x48u8, 0x85, 0xc0]@);
    let entered = put(f, t, [0x0fu8, 0x84, 0, 0, 0, 0]@);
    let done = emitted_way_out(f, entered, leaves, target, places);
    let at = branch_place(t, 2);
    landed_adds(s, f, done, at);
    emitted_way_out_adds(entered, f, entered, leaves, target, places);
    put_adds(s, f, t, [0x0fu8, 0x84, 0, 0, 0, 0]@);
    put_adds(s, f, tested, [0x48u8, 0x85, 0xc0]@);
    emitted_expression_adds(s, f, s, condition, condition.root, 0, tree_size(condition));
    nothing_is_added(s);
    nothing_is_added(entered);
    guarded_code_stands(whole, f, s, tested, 0x84, done, m);
    entered
}

/// The code of a block under a condition in a loop runs where the condition is not zero.
pub proof fn a_conditional_block_runs_on_its_condition<R: ConstantResolver, const P: usize, const N: usize>(
    whole: Seq<u8>,
    f: Frame<R, P, N>,
    s: Emission,
    block: ConditionalLoopBlock,
    expected: RuntimeExpressionType,
    operand: LocalOperand,
    places: LoopPlaces,
    condition: Tree,
    m: Machine,
) -> (entered: Emission)
    requires
        condition_of(f, s.locals, block.condition@, block.condition_span) == Ok::<Tree, CodegenError>(condition),
        block.else_arms@.len() == 0,
        emitted_conditional_block(f, s, block, expected, operand, places).failure is None,
        stands(whole, s, emitted_conditional_block(f, s, block, expected, operand, places)),
        whole.len() <= usize::MAX,
        m.registers.len() == 16,
    ensures
        ({
            let tested = emitted_expression(f, s, condition, condition.root, 0, tree_size(condition));
            let done = emitted_loop_block(f, entered, block.actions@, block.terminal, expected, operand, places);
            let end = emitted_conditional_block(f, s, block, expected, operand, places);
            &&& entered == guarded_arm(f, tested, 0x84)
            &&& stands(whole, s, tested)
            &&& goes_on_like(tested, entered)
            &&& stands(whole, entered, done)
            &&& end.code.len() == done.code.len()
            &&& m.at == tested.code.len() ==> becomes(
                whole,
                m,
                if m.registers[0] == 0 {
                    end.code.len() as int
                } else {
                    entered.code.len() as int
                },
                m.registers,
                m.memory,
            )
        }),
{
    reveal(emitted_conditional_block);
    reveal(emitted_test);
    let tested = emitted_expression(f, s, condition, condition.root, 0, tree_size(condition));
    let t = put(f, tested, [0x48u8, 0x85, 0xc0]@);
    let entered = put(f, t, [0x0fu8, 0x84, 0, 0, 0, 0]@);
    let done = emitted_loop_block(f, entered, block.actions@, block.terminal, expected, operand, places);
    let at = branch_place(t, 2);
    landed_adds(s, f, done, at);
    emitted_loop_block_adds(entered, f, entered, block.actions@, block.terminal, expected, operand, places);
    put_adds(s, f, t, [0x0fu8, 0x84, 0, 0, 0, 0]@);
    put_adds(s, f, tested, [0x48u8, 0x85, 0xc0]@);
    emitted_expression_adds(s, f, s, condition, condition.root, 0, tree_size(condition));
    nothing_is_added(s);
    nothing_is_added(entered);
    guarded_code_stands(whole, f, s, tested, 0x84, done, m);
    entered
}

/// The code of a block under a condition in a loop runs where the condition is not zero, and that of its
/// other arms where it is.
pub proof fn a_conditional_block_or_its_other_arms_run<R: ConstantResolver, const P: usize, const N: usize>(
    whole: Seq<u8>,
    f: Frame<R, P, N>,
    s: Emission,
    block: ConditionalLoopBlock,
    expected: RuntimeExpressionType,
    operand: LocalOperand,
    places: LoopPlaces,
    condition: Tree,
    m: Machine,
    n: Machine,
) -> (parts: (Emission, Emission))
    requires
        condition_of(f, s.locals, block.condition@, block.condition_span) == Ok::<Tree, CodegenError>(condition),
        block.else_arms@.len() != 0,
        emitted_conditional_block(f, s, block, expected, operand, places).failure is None,
        stands(whole, s, emitted_conditional_block(f, s, block, expected, operand, places)),
        whole.len() <= usize::MAX,
        m.registers.len() == 16,
    ensures
        ({
            let (entered, other) = parts;
            let tested = emitted_expression(f, s, condition, condition.root, 0, tree_size(condition));
            let done = emitted_loop_block(f, entered, block.actions@, block.terminal, expected, operand, places);
            let over = emitted_else_arms(f, other, block.else_arms@, expected, operand, places, 0);
            let end = emitted_conditional_block(f, s, block, expected, operand, places);
            &&& entered == guarded_arm(f, tested, 0x84)
            &&& other == other_arm(f, tested, done)
            &&& stands(whole, s, tested)
            &&& goes_on_like(tested, entered)
            &&& stands(whole, entered, done)
            &&& goes_on_like(done, other)
            &&& stands(whole, other, over)
            &&& end.code.len() == over.code.len()
            &&& m.at == tested.code.len() ==> becomes(
                whole,
                m,
                if m.registers[0] == 0 {
                    other.code.len() as int
                } else {
                    entered.code.len() as int
                },
                m.registers,
                m.memory,
            )
            &&& n.at == done.code.len() ==> becomes(
                whole,
                n,
                end.code.len() as int,
                n.registers,
                n.memory,
            )
        }),
{
    reveal(emitted_conditional_block);
    reveal(emitted_test);
    let tested = emitted_expression(f, s, condition, condition.root, 0, tree_size(condition));
    let t = put(f, tested, [0x48u8, 0x85, 0xc0]@);
    let entered = put(f, t, [0x0fu8, 0x84, 0, 0, 0, 0]@);
    let done = emitted_loop_block(f, entered, block.actions@, block.terminal, expected, operand, places);
    let left = put(f, done, [0xe9u8, 0, 0, 0, 0]@);
    let other = landed(f, left, branch_place(t, 2));
    let over = emitted_else_arms(f, other, block.else_arms@, expected, operand, places, 0);
    landed_adds(s, f, over, branch_place(done, 1));
    emitted_else_arms_adds(other, f, other, block.else_arms@, expected, operand, places, 0);
    landed_adds(s, f, left, branch_place(t, 2));
    put_adds(s, f, done, [0xe9u8, 0, 0, 0, 0]@);
    emitted_loop_block_adds(entered, f, entered, block.actions@, block.terminal, expected, operand, places);
    put_adds(s, f, t, [0x0fu8, 0x84, 0, 0, 0, 0]@);
    put_adds(s, f, tested, [0x48u8, 0x85, 0xc0]@);
    emitted_expression_adds(s, f, s, condition, condition.root, 0, tree_size(condition));
    nothing_is_added(s);
    nothing_is_added(entered);
    nothing_is_added(other);
    chosen_code_stands(whole, f, s, tested, done, over, m, n);
    (entered, other)
}

/// The code of an arm with a condition runs where the condition is not zero, and that of the arms behind it
/// where it is.
pub proof fn an_arm_or_the_arms_behind_it_run<R: ConstantResolver, const P: usize, const N: usize>(
    whole: Seq<u8>,
    f: Frame<R, P, N>,
    s: Emission,
    arms: Seq<ConditionalLoopElseArm>,
    expected: RuntimeExpressionType,
    operand: LocalOperand,
    places: LoopPlaces,
    index: int,
    control: ConditionalLoopControl,
    condition: Tree,
    m: Machine,
    n: Machine,
) -> (parts: (Emission, Emission))
    requires
        0 <= index < arms.len(),
        arms[index].condition == Some(control),
        condition_of(f, s.locals, control.condition@, control.condition_span) == Ok::<Tree, CodegenError>(condition),
        emitted_else_arms(f, s, arms, expected, operand, places, index).failure is None,
        stands(whole, s, emitted_else_arms(f, s, arms, expected, operand, places, index)),
        whole.len() <= usize::MAX,
        m.registers.len() == 16,
    ensures
        ({
            let (entered, other) = parts;
            let tested = emitted_expression(f, s, condition, condition.root, 0, tree_size(condition));
            let done = emitted_loop_block(f, entered, arms[index].actions@, arms[index].terminal, expected, operand, places);
            let over = emitted_else_arms(f, other, arms, expected, operand, places, index + 1);
            let end = emitted_else_arms(f, s, arms, expected, operand, places, index);
            &&& entered == guarded_arm(f, tested, 0x84)
            &&& other == other_arm(f, tested, done)
            &&& stands(whole, s, tested)
            &&& goes_on_like(tested, entered)
            &&& stands(whole, entered, done)
            &&& goes_on_like(done, other)
            &&& stands(whole, other, over)
            &&& end.code.len() == over.code.len()
            &&& m.at == tested.code.len() ==> becomes(
                whole,
                m,
                if m.registers[0] == 0 {
                    other.code.len() as int
                } else {
                    entered.code.len() as int
                },
                m.registers,
                m.memory,
            )
            &&& n.at == done.code.len() ==> becomes(
                whole,
                n,
                end.code.len() as int,
                n.registers,
                n.memory,
            )
        }),
{
    reveal(emitted_else_arms);
    reveal(emitted_test);
    let tested = emitted_expression(f, s, condition, condition.root, 0, tree_size(condition));
    let t = put(f, tested, [0x48u8, 0x85, 0xc0]@);
    let entered = put(f, t, [0x0fu8, 0x84, 0, 0, 0, 0]@);
    let done = emitted_loop_block(f, entered, arms[index].actions@, arms[index].terminal, expected, operand, places);
    let left = put(f, done, [0xe9u8, 0, 0, 0, 0]@);
    let other = landed(f, left, branch_place(t, 2));
    let over = emitted_else_arms(f, other, arms, expected, operand, places, index + 1);
    landed_adds(s, f, over, branch_place(done, 1));
    emitted_else_arms_adds(other, f, other, arms, expected, operand, places, index + 1);
    landed_adds(s, f, left, branch_place(t, 2));
    put_adds(s, f, done, [0xe9u8, 0, 0, 0, 0]@);
    emitted_loop_block_adds(entered, f, entered, arms[index].actions@, arms[index].terminal, expected, operand, places);
    put_adds(s, f, t, [0x0fu8, 0x84, 0, 0, 0, 0]@);
    put_adds(s, f, tested, [0x48u8, 0x85, 0xc0]@);
    emitted_expression_adds(s, f, s, condition, condition.root, 0, tree_size(condition));
    nothing_is_added(s);
    nothing_is_added(entered);
    nothing_is_added(other);
    chosen_code_stands(whole, f, s, tested, done, over, m, n);
    (entered, other)
}

/// The code of a branch of statements runs where its condition is not zero, and that of the branches behind
/// it where it is.
pub proof fn an_assigning_branch_or_those_behind_it_run<R: ConstantResolver, const P: usize, const N: usize>(
    whole: Seq<u8>,
    f: Frame<R, P, N>,
    s: Emission,
    conditional: ConditionalAssignment,
    expected: RuntimeExpressionType,
    operand: LocalOperand,
    index: int,
    condition: Tree,
    m: Machine,
    n: Machine,
) -> (parts: (Emission, Emission))
    requires
        0 <= index < conditional.branches@.len(),
        condition_of(f, s.locals, conditional.branches@[index].condition@, conditional.branches@[index].condition_span) == Ok::<Tree, CodegenError>(condition),
        emitted_assignment_branches(f, s, conditional, expected, operand, index).failure is None,
        stands(whole, s, emitted_assignment_branches(f, s, conditional, expected, operand, index)),
        whole.len() <= usize::MAX,
        m.registers.len() == 16,
    ensures
        ({
            let (entered, other) = parts;
            let tested = emitted_expression(f, s, condition, condition.root, 0, tree_size(condition));
            let done = emitted_action_block(f, entered, conditional.branches@[index].actions@, expected, operand);
            let over = emitted_assignment_branches(f, other, conditional, expected, operand, index + 1);
            let end = emitted_assignment_branches(f, s, conditional, expected, operand, index);
            &&& entered == guarded_arm(f, tested, 0x84)
            &&& other == other_arm(f, tested, done)
            &&& stands(whole, s, tested)
            &&& goes_on_like(tested, entered)
            &&& stands(whole, entered, done)
            &&& goes_on_like(done, other)
            &&& stands(whole, other, over)
            &&& end.code.len() == over.code.len()
            &&& m.at == tested.code.len() ==> becomes(
                whole,
                m,
                if m.registers[0] == 0 {
                    other.code.len() as int
                } else {
                    entered.code.len() as int
                },
                m.registers,
                m.memory,
            )
            &&& n.at == done.code.len() ==> becomes(
                whole,
                n,
                end.code.len() as int,
                n.registers,
                n.memory,
            )
        }),
{
    reveal(emitted_assignment_branches);
    reveal(emitted_test);
    let tested = emitted_expression(f, s, condition, condition.root, 0, tree_size(condition));
    let t = put(f, tested, [0x48u8, 0x85, 0xc0]@);
    let entered = put(f, t, [0x0fu8, 0x84, 0, 0, 0, 0]@);
    let done = emitted_action_block(f, entered, conditional.branches@[index].actions@, expected, operand);
    let left = put(f, done, [0xe9u8, 0, 0, 0, 0]@);
    let other = landed(f, left, branch_place(t, 2));
    let over = emitted_assignment_branches(f, other, conditional, expected, operand, index + 1);
    landed_adds(s, f, over, branch_place(done, 1));
    emitted_assignment_branches_adds(other, f, other, conditional, expected, operand, index + 1);
    landed_adds(s, f, left, branch_place(t, 2));
    put_adds(s, f, done, [0xe9u8, 0, 0, 0, 0]@);
    emitted_action_block_adds(entered, f, entered, conditional.branches@[index].actions@, expected, operand);
    put_adds(s, f, t, [0x0fu8, 0x84, 0, 0, 0, 0]@);
    put_adds(s, f, tested, [0x48u8, 0x85, 0xc0]@);
    emitted_expression_adds(s, f, s, condition, condition.root, 0, tree_size(condition));
    nothing_is_added(s);
    nothing_is_added(entered);
    nothing_is_added(other);
    chosen_code_stands(whole, f, s, tested, done, over, m, n);
    (entered, other)
}

/// Branches that are filled in keep what does not overlap them.
proof fn landed_all_keep<R: ConstantResolver, const P: usize, const N: usize>(
    f: Frame<R, P, N>,
    s: Emission,
    branches: Seq<usize>,
    first: int,
    from: int,
    to: int,
)
    requires
        0 <= first,
        landed_all(f, s, branches, first).failure is None,
        0 <= from <= to <= s.code.len(),
        forall|j: int|
            first <= j < branches.len() ==> to <= #[trigger] branches[j] || branches[j] + 4 <= from,
    ensures
        keeps(s, landed_all(f, s, branches, first), from, to),
        landed_all(f, s, branches, first).code.len() == s.code.len(),
        landed_all(f, s, branches, first).traps == s.traps,
    decreases branches.len() - first,
{
    reveal_with_fuel(landed_all, 2);
    if first < branches.len() {
        let next = landed(f, s, branches[first]);
        landed_all_ends(f, next, branches, first + 1);
        landed_keeps(f, s, branches[first], from, to);
        landed_all_keep(f, next, branches, first + 1, from, to);
        keeps_twice(s, next, landed_all(f, s, branches, first), from, to);
    } else {
        keeps_itself(s, from, to);
    }
}

proof fn landed_all_ends<R: ConstantResolver, const P: usize, const N: usize>(
    f: Frame<R, P, N>,
    s: Emission,
    branches: Seq<usize>,
    first: int,
)
    ensures
        landed_all(f, s, branches, first).failure is None ==> s.failure is None,
    decreases branches.len() - first,
{
    reveal_with_fuel(landed_all, 2);
    if 0 <= first < branches.len() {
        let next = landed(f, s, branches[first]);
        landed_all_ends(f, next, branches, first + 1);
        landed_adds(s, f, s, branches[first]);
    }
}

/// What one of the branches that are filled in holds.
proof fn landed_all_hold<R: ConstantResolver, const P: usize, const N: usize>(
    f: Frame<R, P, N>,
    s: Emission,
    branches: Seq<usize>,
    first: int,
    k: int,
)
    requires
        0 <= first <= k < branches.len(),
        landed_all(f, s, branches, first).failure is None,
        s.code.len() <= usize::MAX,
        forall|j: int|
            first <= j < branches.len() && j != k ==> branches[k] + 4 <= #[trigger] branches[j]
                || branches[j] + 4 <= branches[k],
    ensures
        landed_all(f, s, branches, first).code.len() == s.code.len(),
        branches[k] + 4 <= s.code.len(),
        s.code.len() - (branches[k] + 4) <= 0x7fff_ffff,
        forall|i: int|
            0 <= i < 4 ==> landed_all(f, s, branches, first).code[branches[k] + i]
                == #[trigger] word_bytes(s.code.len() - (branches[k] + 4))[i],
    decreases k - first,
{
    reveal_with_fuel(landed_all, 2);
    let next = landed(f, s, branches[first]);
    let end = landed_all(f, s, branches, first);
    landed_all_ends(f, next, branches, first + 1);
    landed_holds(f, s, branches[first]);
    if first == k {
        let at = branches[k] as int;
        landed_all_keep(f, next, branches, first + 1, at, at + 4);
        assert forall|i: int| 0 <= i < 4 implies end.code[at + i] == #[trigger] word_bytes(
            s.code.len() - (at + 4),
        )[i] by {
            reveal(keeps);
            assert(end.code[at + i] == next.code[at + i]);
        }
    } else {
        landed_all_hold(f, next, branches, first + 1, k);
    }
}

/// A branch that leaves a loop. The loop begins at `entered`, the branch stands between `before` and
/// `behind`, and the loop ends at `last`.
proof fn exit_lands<R: ConstantResolver, const P: usize, const N: usize>(
    f: Frame<R, P, N>,
    entered: Emission,
    before: Emission,
    behind: Emission,
    last: Emission,
    site: usize,
)
    requires
        entered.exits.len() == 0,
        added(entered, before),
        behind.exits == before.exits.push(site),
        before.code.len() <= site,
        site + 4 <= behind.code.len(),
        added(behind, last),
        kept(behind.exits, last.exits),
        last.code.len() <= usize::MAX,
        ended_loop(f, last).failure is None,
    ensures
        ended_loop(f, last).code.len() == last.code.len(),
        ended_loop(f, last).traps == last.traps,
        last.code.len() - (site + 4) <= 0x7fff_ffff,
        forall|i: int|
            0 <= i < 4 ==> ended_loop(f, last).code[site + i] == #[trigger] word_bytes(
                last.code.len() - (site + 4),
            )[i],
        forall|j: int|
            0 <= j < last.exits.len() ==> last.exits[j] == site && j == before.exits.len()
                || #[trigger] last.exits[j] + 4 <= before.code.len() || behind.code.len()
                <= last.exits[j],
{
    reveal(ended_loop);
    let k = before.exits.len() as int;
    let sites = last.exits;
    assert(k < sites.len() && sites[k] == site) by {
        reveal(kept);
        assert(behind.exits[k] == site);
    }
    assert forall|j: int| 0 <= j < sites.len() && j != k implies #[trigger] sites[j] + 4
        <= before.code.len() || behind.code.len() <= sites[j] by {
        reveal(grown_with_places);
        if j < k {
            reveal(kept);
            assert(sites[j] == behind.exits[j]);
            assert(behind.exits[j] == before.exits[j]);
        } else {
            assert(j >= behind.exits.len());
        }
    }
    landed_all_hold(f, last, sites, 0, k);
    landed_all_keep(f, last, sites, 0, 0, 0);
}

/// A branch that leaves a loop. The loop begins at `entered`, the branch stands between `before` and
/// `behind`, and the loop ends at `last`.
proof fn inner_exit_lands<R: ConstantResolver, const P: usize, const N: usize>(
    f: Frame<R, P, N>,
    entered: Emission,
    before: Emission,
    behind: Emission,
    last: Emission,
    site: usize,
)
    requires
        entered.inner_exits.len() == 0,
        added(entered, before),
        behind.inner_exits == before.inner_exits.push(site),
        before.code.len() <= site,
        site + 4 <= behind.code.len(),
        added(behind, last),
        kept(behind.inner_exits, last.inner_exits),
        last.code.len() <= usize::MAX,
        ended_inner_loop(f, last).failure is None,
    ensures
        ended_inner_loop(f, last).code.len() == last.code.len(),
        ended_inner_loop(f, last).traps == last.traps,
        last.code.len() - (site + 4) <= 0x7fff_ffff,
        forall|i: int|
            0 <= i < 4 ==> ended_inner_loop(f, last).code[site + i] == #[trigger] word_bytes(
                last.code.len() - (site + 4),
            )[i],
        forall|j: int|
            0 <= j < last.inner_exits.len() ==> last.inner_exits[j] == site && j == before.inner_exits.len()
                || #[trigger] last.inner_exits[j] + 4 <= before.code.len() || behind.code.len()
                <= last.inner_exits[j],
{
    reveal(ended_inner_loop);
    let k = before.inner_exits.len() as int;
    let sites = last.inner_exits;
    assert(k < sites.len() && sites[k] == site) by {
        reveal(kept);
        assert(behind.inner_exits[k] == site);
    }
    assert forall|j: int| 0 <= j < sites.len() && j != k implies #[trigger] sites[j] + 4
        <= before.code.len() || behind.code.len() <= sites[j] by {
        reveal(grown_with_places);
        if j < k {
            reveal(kept);
            assert(sites[j] == behind.inner_exits[j]);
            assert(behind.inner_exits[j] == before.inner_exits[j]);
        } else {
            assert(j >= behind.inner_exits.len());
        }
    }
    landed_all_hold(f, last, sites, 0, k);
    landed_all_keep(f, last, sites, 0, 0, 0);
}

/// What leaves a loop goes on behind it. The loop begins at `entered` and ends at `last`; in between,
/// at `s`, stands the branch.
pub proof fn what_leaves_an_outer_loop_goes_on_behind_it<R: ConstantResolver, const P: usize, const N: usize>(
    whole: Seq<u8>,
    f: Frame<R, P, N>,
    entered: Emission,
    s: Emission,
    last: Emission,
    m: Machine,
)
    requires
        entered.exits.len() == 0,
        added(entered, s),
        added(left_loop(f, s), last),
        kept(left_loop(f, s).exits, last.exits),
        ended_loop(f, last).failure is None,
        stands(whole, entered, ended_loop(f, last)),
        whole.len() <= usize::MAX,
        m.at == s.code.len(),
    ensures
        next(whole, m) == Outcome::Running(Machine { at: last.code.len() as int, ..m }),
        ended_loop(f, last).code.len() == last.code.len(),
{
    reveal(left_loop);
    let bytes = [0xe9u8, 0, 0, 0, 0]@;
    let site = branch_place(s, 1);
    let behind = left_loop(f, s);
    let end = ended_loop(f, last);
    let n = s.code.len() as int;
    assert(behind.failure is None && last.failure is None) by {
        reveal(grown_with_places);
        reveal(grown);
    }
    put_grows(f, s, bytes);
    assert(site == n + 1) by {
        reveal(branch_place);
    }
    assert(last.code.len() <= whole.len()) by {
        ended_length(whole, f, entered, last);
    }
    exit_lands(f, entered, s, behind, last, site);
    assert(keeps(last, end, n, n + 1)) by {
        reveal(ended_loop);
        landed_all_keep(f, last, last.exits, 0, n, n + 1);
    }
    added_keeps(behind, last, n, n + 5);
    assert(keeps(behind, end, n + 5, n + 5)) by {
        reveal(keeps);
    }
    bytes_stand(whole, entered, s, behind, end);
    assert(whole[n] == 0xe9u8) by {
        reveal(keeps);
        assert(whole[n] == end.code[n]);
        assert(end.code[n] == last.code[n]);
        assert(last.code[n] == behind.code[n]);
        assert(behind.code[n] == bytes[0]);
    }
    assert forall|i: int| 0 <= i < 4 implies whole[m.at + 1 + i] == #[trigger] word_bytes(
        last.code.len() - (m.at + 5),
    )[i] by {
        assert(whole[n + 1 + i] == end.code[n + 1 + i]);
        assert(end.code[site + i] == word_bytes(last.code.len() - (site + 4))[i]);
    }
    jump_goes(whole, m, last.code.len() as int);
}

proof fn ended_length<R: ConstantResolver, const P: usize, const N: usize>(
    whole: Seq<u8>,
    f: Frame<R, P, N>,
    s: Emission,
    last: Emission,
)
    requires
        ended_loop(f, last).failure is None,
        stands(whole, s, ended_loop(f, last)),
    ensures
        last.code.len() <= whole.len(),
        ended_loop(f, last).code.len() == last.code.len(),
{
    reveal(ended_loop);
    reveal(stands);
    landed_all_keep(f, last, last.exits, 0, 0, 0);
}

/// What leaves a loop in a loop goes on behind it. The loop begins at `entered` and ends at `last`; in between,
/// at `s`, stands the branch.
pub proof fn what_leaves_an_inner_loop_goes_on_behind_it<R: ConstantResolver, const P: usize, const N: usize>(
    whole: Seq<u8>,
    f: Frame<R, P, N>,
    entered: Emission,
    s: Emission,
    last: Emission,
    m: Machine,
)
    requires
        entered.inner_exits.len() == 0,
        added(entered, s),
        added(left_inner_loop(f, s), last),
        kept(left_inner_loop(f, s).inner_exits, last.inner_exits),
        ended_inner_loop(f, last).failure is None,
        stands(whole, entered, ended_inner_loop(f, last)),
        whole.len() <= usize::MAX,
        m.at == s.code.len(),
    ensures
        next(whole, m) == Outcome::Running(Machine { at: last.code.len() as int, ..m }),
        ended_inner_loop(f, last).code.len() == last.code.len(),
{
    reveal(left_inner_loop);
    let bytes = [0xe9u8, 0, 0, 0, 0]@;
    let site = branch_place(s, 1);
    let behind = left_inner_loop(f, s);
    let end = ended_inner_loop(f, last);
    let n = s.code.len() as int;
    assert(behind.failure is None && last.failure is None) by {
        reveal(grown_with_places);
        reveal(grown);
    }
    put_grows(f, s, bytes);
    assert(site == n + 1) by {
        reveal(branch_place);
    }
    assert(last.code.len() <= whole.len()) by {
        inner_ended_length(whole, f, entered, last);
    }
    inner_exit_lands(f, entered, s, behind, last, site);
    assert(keeps(last, end, n, n + 1)) by {
        reveal(ended_inner_loop);
        landed_all_keep(f, last, last.inner_exits, 0, n, n + 1);
    }
    added_keeps(behind, last, n, n + 5);
    assert(keeps(behind, end, n + 5, n + 5)) by {
        reveal(keeps);
    }
    bytes_stand(whole, entered, s, behind, end);
    assert(whole[n] == 0xe9u8) by {
        reveal(keeps);
        assert(whole[n] == end.code[n]);
        assert(end.code[n] == last.code[n]);
        assert(last.code[n] == behind.code[n]);
        assert(behind.code[n] == bytes[0]);
    }
    assert forall|i: int| 0 <= i < 4 implies whole[m.at + 1 + i] == #[trigger] word_bytes(
        last.code.len() - (m.at + 5),
    )[i] by {
        assert(whole[n + 1 + i] == end.code[n + 1 + i]);
        assert(end.code[site + i] == word_bytes(last.code.len() - (site + 4))[i]);
    }
    jump_goes(whole, m, last.code.len() as int);
}

proof fn inner_ended_length<R: ConstantResolver, const P: usize, const N: usize>(
    whole: Seq<u8>,
    f: Frame<R, P, N>,
    s: Emission,
    last: Emission,
)
    requires
        ended_inner_loop(f, last).failure is None,
        stands(whole, s, ended_inner_loop(f, last)),
    ensures
        last.code.len() <= whole.len(),
        ended_inner_loop(f, last).code.len() == last.code.len(),
{
    reveal(ended_inner_loop);
    reveal(stands);
    landed_all_keep(f, last, last.inner_exits, 0, 0, 0);
}

/// Whether the code of a loop's body stands, with the branches out of it filled in: the rest is as it
/// was, and those are at the places `exits`.
pub open spec fn stands_but_for_exits(
    whole: Seq<u8>,
    before: Emission,
    after: Emission,
    exits: Seq<usize>,
) -> bool {
    &&& forall|place: int|
        before.code.len() <= place < after.code.len() && !in_trap_site(
            after,
            before.traps.len() as int,
            place,
        ) && !(exists|j: int| 0 <= j < exits.len() && #[trigger] exits[j] <= place < exits[j] + 4)
            ==> #[trigger] whole[place] == after.code[place]
    &&& forall|i: int|
        before.traps.len() <= i < after.traps.len() ==> leads_to_trap(
            whole,
            #[trigger] after.traps[i] as int,
        )
}

proof fn body_stands<R: ConstantResolver, const P: usize, const N: usize>(
    whole: Seq<u8>,
    f: Frame<R, P, N>,
    entered: Emission,
    behind: Emission,
    last: Emission,
)
    requires
        added(entered, behind),
        added(behind, last),
        ended_loop(f, last).failure is None,
        stands(whole, entered, ended_loop(f, last)),
    ensures
        stands_but_for_exits(whole, behind, last, last.exits),
{
    reveal(ended_loop);
    reveal(grown_with_places);
    reveal(grown);
    reveal(stands);
    let end = ended_loop(f, last);
    landed_all_keep(f, last, last.exits, 0, 0, 0);
    assert forall|place: int|
        behind.code.len() <= place < last.code.len() && !in_trap_site(
            last,
            behind.traps.len() as int,
            place,
        ) && !(exists|j: int|
            0 <= j < last.exits.len() && #[trigger] last.exits[j] <= place < last.exits[j]
                + 4) implies #[trigger] whole[place] == last.code[place] by {
        assert forall|j: int| 0 <= j < last.exits.len() implies place + 1 <= #[trigger] last.exits[j]
            || last.exits[j] + 4 <= place by {}
        landed_all_keep(f, last, last.exits, 0, place, place + 1);
        assert(end.code[place] == last.code[place]) by {
            reveal(keeps);
        }
        assert(!in_trap_site(end, entered.traps.len() as int, place)) by {
            if in_trap_site(end, entered.traps.len() as int, place) {
                let i = choose|i: int|
                    entered.traps.len() <= i < end.traps.len() && #[trigger] end.traps[i] <= place
                        < end.traps[i] + 4;
                if i < behind.traps.len() {
                    assert(last.traps[i] == behind.traps[i]);
                    assert(behind.traps[i] + 4 <= behind.code.len());
                } else {
                    assert(last.traps[i] <= place < last.traps[i] + 4);
                }
            }
        }
    }
}

/// A loop with a condition: the condition ends at `tested`, the branch behind it at `behind`, and the
/// loop itself at `last`.
#[verifier::rlimit(60)]
proof fn loop_stands<R: ConstantResolver, const P: usize, const N: usize>(
    whole: Seq<u8>,
    f: Frame<R, P, N>,
    entered: Emission,
    tested: Emission,
    last: Emission,
    m: Machine,
)
    requires
        entered.exits.len() == 0,
        tested.exits.len() == 0,
        added(entered, tested),
        ({
            let behind = left_loop_on_zero(f, put(f, tested, [0x48u8, 0x85, 0xc0]@));
            &&& added(behind, last)
            &&& kept(behind.exits, last.exits)
        }),
        ended_loop(f, last).failure is None,
        stands(whole, entered, ended_loop(f, last)),
        whole.len() <= usize::MAX,
        m.registers.len() == 16,
    ensures
        ({
            let behind = left_loop_on_zero(f, put(f, tested, [0x48u8, 0x85, 0xc0]@));
            &&& stands(whole, entered, tested)
            &&& goes_on_like(tested, behind)
            &&& added(entered, behind)
            &&& stands_but_for_exits(whole, behind, last, last.exits)
            &&& ended_loop(f, last).code.len() == last.code.len()
            &&& m.at == tested.code.len() ==> becomes(
                whole,
                m,
                if m.registers[0] == 0 {
                    last.code.len() as int
                } else {
                    behind.code.len() as int
                },
                m.registers,
                m.memory,
            )
        }),
{
    reveal(left_loop_on_zero);
    let test = [0x48u8, 0x85, 0xc0]@;
    let bytes = [0x0fu8, 0x84, 0, 0, 0, 0]@;
    let t = put(f, tested, test);
    let c = put(f, t, bytes);
    let behind = left_loop_on_zero(f, t);
    let site = branch_place(t, 2);
    let end = ended_loop(f, last);
    let n = tested.code.len() as int;
    let low = entered.code.len() as int;
    assert(entered.failure is None && behind.failure is None && last.failure is None) by {
        reveal(grown_with_places);
        reveal(grown);
    }
    put_grows(f, t, bytes);
    put_grows(f, tested, test);
    put_adds(entered, f, tested, test);
    left_loop_on_zero_adds(entered, f, t);
    assert(site == n + 5) by {
        reveal(branch_place);
    }
    ended_length(whole, f, entered, last);
    exit_lands(f, entered, t, behind, last, site);
    body_stands(whole, f, entered, behind, last);
    added_keeps(behind, last, n, n + 9);
    assert(keeps(behind, end, n + 9, n + 9)) by {
        reveal(keeps);
    }
    assert forall|j: int| 0 <= j < last.exits.len() implies n + 5 <= #[trigger] last.exits[j] by {
        reveal(grown_with_places);
        reveal(kept);
        if j == 0 {
            assert(last.exits[0] == behind.exits[0]);
        }
    }
    assert(keeps(last, end, n, n + 5)) by {
        reveal(ended_loop);
        landed_all_keep(f, last, last.exits, 0, n, n + 5);
    }
    bytes_stand(whole, entered, tested, behind, end);
    assert(whole[n] == 0x48 && whole[n + 1] == 0x85 && whole[n + 2] == 0xc0 && whole[n + 3] == 0x0f
        && whole[n + 4] == 0x84) by {
        reveal(keeps);
        assert forall|i: int| 0 <= i < 5 implies #[trigger] whole[n + i] == c.code[n + i] by {
            assert(whole[n + i] == end.code[n + i]);
            assert(end.code[n + i] == last.code[n + i]);
            assert(last.code[n + i] == behind.code[n + i]);
        }
        assert(c.code[n] == test[0] && c.code[n + 1] == test[1] && c.code[n + 2] == test[2]);
        assert(c.code[n + 3] == bytes[0] && c.code[n + 4] == bytes[1]);
        assert(whole[n + 0] == 0x48 && whole[n + 1] == 0x85 && whole[n + 2] == 0xc0 && whole[n + 3]
            == 0x0f && whole[n + 4] == 0x84);
    }
    if m.at == n {
        test_rax_rax_is_read(whole, m.at);
        operation_leads(whole, m, Operation::Test, 0, 0, 3);
        test_tells(Machine { at: m.at + 3, ..m }, 0, m.registers[0]);
        let m1 = after_operation(
            Machine { at: m.at + 3, ..m },
            Operation::Test,
            64,
            Operand::Register(0),
            m.registers[0] as int,
            m.registers[0] as int,
        );
        let target = last.code.len() as int;
        assert forall|i: int| 0 <= i < 4 implies whole[m1.at + 2 + i] == #[trigger] word_bytes(
            target - (m1.at + 6),
        )[i] by {
            assert(whole[n + 5 + i] == end.code[n + 5 + i]);
            assert(end.code[site + i] == word_bytes(last.code.len() - (site + 4))[i]);
        }
        branch_goes(whole, m1, 0x84, target);
        let after = Machine {
            at: if m1.zero {
                target
            } else {
                m1.at + 6
            },
            ..m1
        };
        assert(next(whole, m1) == Outcome::Running(after));
        one_step_becomes(whole, m1, after);
        step_becomes(whole, m, m1, after.at, m.registers, m.memory);
    }
    // The condition.
    nothing_is_added(entered);
    added_keeps(behind, last, low, n);
    assert(keeps(tested, behind, low, n)) by {
        reveal(keeps);
    }
    keeps_twice(tested, behind, last, low, n);
    assert(keeps(last, end, low, n)) by {
        reveal(ended_loop);
        landed_all_keep(f, last, last.exits, 0, low, n);
    }
    keeps_twice(tested, last, end, low, n);
    part_stands(whole, entered, entered, tested, end);
}

/// The places of a loop that begins at `s`, and whose body begins at `behind`.
pub open spec fn loop_places(s: Emission, behind: Emission) -> LoopPlaces {
    LoopPlaces {
        start: s.code.len() as usize,
        checkpoint: number_of_locals(behind.locals),
        inner_start: s.code.len() as usize,
        inner_checkpoint: number_of_locals(behind.locals),
    }
}

/// The end of the body of a loop, behind its statements, leads back to where the loop begins.
#[verifier::rlimit(60)]
proof fn body_returns<R: ConstantResolver, const P: usize, const N: usize>(
    whole: Seq<u8>,
    f: Frame<R, P, N>,
    s: Emission,
    behind: Emission,
    statement: WhileLoop,
    expected: RuntimeExpressionType,
    operand: LocalOperand,
    n: Machine,
) -> (last: Emission)
    requires
        ({
            let entered = Emission { exits: seq![], ..s };
            let end = emitted_loop_body(
                f,
                behind,
                statement.operations@,
                expected,
                operand,
                s.code.len() as usize,
            );
            &&& added(entered, behind)
            &&& end.failure is None
            &&& stands(whole, entered, end)
        }),
        whole.len() <= usize::MAX,
    ensures
        ({
            let end = emitted_loop_body(
                f,
                behind,
                statement.operations@,
                expected,
                operand,
                s.code.len() as usize,
            );
            let done = emitted_loop_operations(
                f,
                behind,
                statement.operations@,
                expected,
                operand,
                loop_places(s, behind),
                0,
            );
            let cleaned = emitted_cleanup_to(f, done, number_of_locals(behind.locals));
            &&& end == ended_loop(f, last)
            &&& last.failure is None
            &&& added(behind, last)
            &&& added(done, last)
            &&& kept(behind.exits, last.exits)
            &&& end.code.len() == last.code.len()
            &&& !ends_loop(statement.operations@, 0) ==> stands(whole, done, cleaned)
            &&& !ends_loop(statement.operations@, 0) && n.at == cleaned.code.len() ==> next(whole, n)
                == Outcome::Running(Machine { at: s.code.len() as int, ..n })
        }),
{
    reveal(emitted_loop_body);
    let entered = Emission { exits: seq![], ..s };
    let start = s.code.len() as usize;
    let places = loop_places(s, behind);
    let done = emitted_loop_operations(
                f,
                behind,
                statement.operations@,
                expected,
                operand,
                loop_places(s, behind),
                0,
            );
    let ends = ends_loop(statement.operations@, 0);
    let cleaned = emitted_cleanup_to(f, done, places.checkpoint);
    let back = returned_to(f, cleaned, start);
    let late = if !ends {
        back
    } else {
        done
    };
    let last = truncated(f, late, places.checkpoint);
    let end = ended_loop(f, last);
    ended_loop_adds(entered, f, last);
    truncated_adds(entered, f, late, places.checkpoint);
    returned_to_adds(entered, f, cleaned, start);
    emitted_cleanup_to_adds(entered, f, done, places.checkpoint);
    emitted_loop_operations_adds(
        entered,
        f,
        behind,
        statement.operations@,
        expected,
        operand,
        places,
        0,
    );
    nothing_is_added(behind);
    nothing_is_added(done);
    truncated_adds(behind, f, late, places.checkpoint);
    returned_to_adds(behind, f, cleaned, start);
    emitted_cleanup_to_adds(behind, f, done, places.checkpoint);
    emitted_loop_operations_adds(
        behind,
        f,
        behind,
        statement.operations@,
        expected,
        operand,
        places,
        0,
    );
    truncated_adds(done, f, late, places.checkpoint);
    returned_to_adds(done, f, cleaned, start);
    emitted_cleanup_to_adds(done, f, done, places.checkpoint);
    ended_length(whole, f, entered, last);
    if !ends {
        nothing_is_added(cleaned);
        returned_to_adds(cleaned, f, cleaned, start);
        assert(last.exits == done.exits && last.code == back.code && last.traps == back.traps) by {
            reveal(truncated);
        }
        let low = done.code.len() as int;
        let middle = cleaned.code.len() as int;
        let high = back.code.len() as int;
        assert forall|j: int| 0 <= j < last.exits.len() implies last.exits[j] + 4 <= low by {
            reveal(grown_with_places);
        }
        assert(keeps(last, end, low, high)) by {
            reveal(ended_loop);
            landed_all_keep(f, last, last.exits, 0, low, high);
        }
        assert(keeps(back, end, low, high)) by {
            reveal(keeps);
        }
        keeps_less(back, end, low, high, middle, high);
        part_stands(whole, entered, cleaned, back, end);
        if n.at == middle {
            a_branch_back_leads_back(whole, f, cleaned, start, n);
        }
        added_keeps(cleaned, back, low, middle);
        keeps_less(back, end, low, high, low, middle);
        keeps_twice(cleaned, back, end, low, middle);
        part_stands(whole, entered, done, cleaned, end);
        assert(s.code.len() <= whole.len());
    }
    last
}

/// The code of `while c { .. }` computes `c`; where that is not zero it goes on with the body, and
/// behind the body it goes back to compute `c` again; where it is zero it goes on behind the loop.
#[verifier::rlimit(60)]
pub proof fn a_loop_repeats_while_its_condition_holds<R: ConstantResolver, const P: usize, const N: usize>(
    whole: Seq<u8>,
    f: Frame<R, P, N>,
    s: Emission,
    statement: WhileLoop,
    expected: RuntimeExpressionType,
    operand: LocalOperand,
    control: ConditionalLoopControl,
    condition: Tree,
    m: Machine,
    n: Machine,
) -> (parts: (Emission, Emission))
    requires
        statement.condition == Some(control),
        condition_of(f, s.locals, control.condition@, control.condition_span) == Ok::<
            Tree,
            CodegenError,
        >(condition),
        emitted_while_loop(f, s, statement, expected, operand).failure is None,
        stands(whole, s, emitted_while_loop(f, s, statement, expected, operand)),
        whole.len() <= usize::MAX,
        m.registers.len() == 16,
    ensures
        ({
            let (behind, last) = parts;
            let entered = Emission { exits: seq![], ..s };
            let tested = emitted_expression(
                f,
                entered,
                condition,
                condition.root,
                0,
                tree_size(condition),
            );
            let done = emitted_loop_operations(
                f,
                behind,
                statement.operations@,
                expected,
                operand,
                loop_places(s, behind),
                0,
            );
            let cleaned = emitted_cleanup_to(f, done, number_of_locals(behind.locals));
            let end = emitted_while_loop(f, s, statement, expected, operand);
            &&& stands(whole, entered, tested)
            &&& goes_on_like(tested, behind)
            &&& m.at == tested.code.len() ==> becomes(
                whole,
                m,
                if m.registers[0] == 0 {
                    end.code.len() as int
                } else {
                    behind.code.len() as int
                },
                m.registers,
                m.memory,
            )
            &&& added(done, last)
            &&& stands_but_for_exits(whole, behind, last, last.exits)
            &&& end.code.len() == last.code.len()
            &&& !ends_loop(statement.operations@, 0) ==> stands(whole, done, cleaned)
            &&& !ends_loop(statement.operations@, 0) && n.at == cleaned.code.len() ==> next(whole, n)
                == Outcome::Running(Machine { at: s.code.len() as int, ..n })
        }),
{
    reveal(emitted_while_loop);
    reveal(emitted_test);
    reveal(place);
    let entered = Emission { exits: seq![], ..s };
    let tested = emitted_expression(f, entered, condition, condition.root, 0, tree_size(condition));
    let t = put(f, tested, [0x48u8, 0x85, 0xc0]@);
    let behind = left_loop_on_zero(f, t);
    let end = emitted_while_loop(f, s, statement, expected, operand);
    emitted_loop_body_adds(
        entered,
        f,
        behind,
        statement.operations@,
        expected,
        operand,
        s.code.len() as usize,
    );
    left_loop_on_zero_adds(entered, f, t);
    put_adds(entered, f, tested, [0x48u8, 0x85, 0xc0]@);
    emitted_expression_adds(entered, f, entered, condition, condition.root, 0, tree_size(condition));
    nothing_is_added(entered);
    assert(stands(whole, entered, end)) by {
        reveal(stands);
    }
    let last = body_returns(whole, f, s, behind, statement, expected, operand, n);
    loop_stands(whole, f, entered, tested, last, m);
    (behind, last)
}

/// The code of `loop { .. }` goes back to where it begins behind its body.
pub proof fn a_loop_without_a_condition_repeats<R: ConstantResolver, const P: usize, const N: usize>(
    whole: Seq<u8>,
    f: Frame<R, P, N>,
    s: Emission,
    statement: WhileLoop,
    expected: RuntimeExpressionType,
    operand: LocalOperand,
    n: Machine,
) -> (parts: (Emission, Emission))
    requires
        statement.condition is None,
        emitted_while_loop(f, s, statement, expected, operand).failure is None,
        stands(whole, s, emitted_while_loop(f, s, statement, expected, operand)),
        whole.len() <= usize::MAX,
    ensures
        ({
            let (behind, last) = parts;
            let done = emitted_loop_operations(
                f,
                behind,
                statement.operations@,
                expected,
                operand,
                loop_places(s, behind),
                0,
            );
            let cleaned = emitted_cleanup_to(f, done, number_of_locals(behind.locals));
            let end = emitted_while_loop(f, s, statement, expected, operand);
            &&& goes_on_like(s, behind)
            &&& behind.code == s.code
            &&& added(done, last)
            &&& stands_but_for_exits(whole, behind, last, last.exits)
            &&& end.code.len() == last.code.len()
            &&& !ends_loop(statement.operations@, 0) ==> stands(whole, done, cleaned)
            &&& !ends_loop(statement.operations@, 0) && n.at == cleaned.code.len() ==> next(whole, n)
                == Outcome::Running(Machine { at: s.code.len() as int, ..n })
        }),
{
    reveal(emitted_while_loop);
    reveal(place);
    let behind = Emission { exits: seq![], ..s };
    let end = emitted_while_loop(f, s, statement, expected, operand);
    emitted_loop_body_adds(
        behind,
        f,
        behind,
        statement.operations@,
        expected,
        operand,
        s.code.len() as usize,
    );
    nothing_is_added(behind);
    assert(stands(whole, behind, end)) by {
        reveal(stands);
    }
    let last = body_returns(whole, f, s, behind, statement, expected, operand, n);
    body_stands(whole, f, behind, behind, last);
    (behind, last)
}

/// The places of a loop that begins at `s` in another one.
pub open spec fn nested_places(s: Emission, outer: LoopPlaces) -> LoopPlaces {
    LoopPlaces {
        start: outer.start,
        checkpoint: outer.checkpoint,
        inner_start: s.code.len() as usize,
        inner_checkpoint: number_of_locals(s.locals),
    }
}

/// The end of the body of a loop in a loop, behind its statements, leads back to where that loop
/// begins.
#[verifier::rlimit(60)]
proof fn nested_body_returns<R: ConstantResolver, const P: usize, const N: usize>(
    whole: Seq<u8>,
    f: Frame<R, P, N>,
    s: Emission,
    behind: Emission,
    block: NestedLoopBlock,
    expected: RuntimeExpressionType,
    operand: LocalOperand,
    outer: LoopPlaces,
    count: usize,
    end: Emission,
    n: Machine,
) -> (last: Emission)
    requires
        ({
            let entered = Emission { inner_exits: seq![], ..s };
            let body = emitted_nested_body(
                f,
                behind,
                block,
                expected,
                operand,
                nested_places(s, outer),
            );
            &&& added(entered, behind)
            &&& behind.inner_exits.len() == 0
            &&& body.failure is None
            &&& keeps(body, end, behind.code.len() as int, body.code.len() as int)
            &&& stands(whole, entered, end)
        }),
        number_of_controls(block) == Some(count),
        s.code.len() <= usize::MAX,
    ensures
        ({
            let body = emitted_nested_body(
                f,
                behind,
                block,
                expected,
                operand,
                nested_places(s, outer),
            );
            let done = emitted_nested_actions(
                f,
                behind,
                block,
                count,
                0,
                expected,
                operand,
                nested_places(s, outer),
            );
            let cleaned = emitted_cleanup_to(f, done, number_of_locals(s.locals));
            let repeats = block.unconditional_controls@.len() == 0;
            &&& body == ended_inner_loop(f, last)
            &&& last.failure is None
            &&& added(behind, last)
            &&& added(done, last)
            &&& repeats ==> stands(whole, done, cleaned)
            &&& repeats && n.at == cleaned.code.len() ==> next(whole, n) == Outcome::Running(
                Machine { at: s.code.len() as int, ..n },
            )
        }),
{
    reveal(emitted_nested_body);
    let entered = Emission { inner_exits: seq![], ..s };
    let places = nested_places(s, outer);
    let done = emitted_nested_actions(
                f,
                behind,
                block,
                count,
                0,
                expected,
                operand,
                nested_places(s, outer),
            );
    let cleaned = emitted_cleanup_to(f, done, places.inner_checkpoint);
    let cut = truncated(f, cleaned, places.inner_checkpoint);
    let repeats = block.unconditional_controls@.len() == 0;
    let last = if repeats {
        returned_to(f, cut, places.inner_start)
    } else {
        cut
    };
    let body = ended_inner_loop(f, last);
    ended_inner_loop_adds(entered, f, last);
    returned_to_adds(entered, f, cut, places.inner_start);
    truncated_adds(entered, f, cleaned, places.inner_checkpoint);
    emitted_cleanup_to_adds(entered, f, done, places.inner_checkpoint);
    emitted_nested_actions_adds(entered, f, behind, block, count, 0, expected, operand, places);
    nothing_is_added(behind);
    returned_to_adds(behind, f, cut, places.inner_start);
    truncated_adds(behind, f, cleaned, places.inner_checkpoint);
    emitted_cleanup_to_adds(behind, f, done, places.inner_checkpoint);
    emitted_nested_actions_adds(behind, f, behind, block, count, 0, expected, operand, places);
    nothing_is_added(done);
    returned_to_adds(done, f, cut, places.inner_start);
    truncated_adds(done, f, cleaned, places.inner_checkpoint);
    emitted_cleanup_to_adds(done, f, done, places.inner_checkpoint);
    if repeats {
        nothing_is_added(cut);
        returned_to_adds(cut, f, cut, places.inner_start);
        assert(cut.code == cleaned.code && cut.traps == cleaned.traps && cut.inner_exits
            == done.inner_exits) by {
            reveal(truncated);
        }
        let low = done.code.len() as int;
        let middle = cut.code.len() as int;
        let high = last.code.len() as int;
        assert forall|j: int| 0 <= j < last.inner_exits.len() implies last.inner_exits[j] + 4 <= low by {
            reveal(grown_with_places);
        }
        assert(keeps(last, body, low, high) && body.code.len() == last.code.len()) by {
            reveal(ended_inner_loop);
            landed_all_keep(f, last, last.inner_exits, 0, low, high);
        }
        keeps_less(body, end, behind.code.len() as int, high, low, high);
        keeps_twice(last, body, end, low, high);
        keeps_less(last, end, low, high, middle, high);
        part_stands(whole, entered, cut, last, end);
        if n.at == middle {
            a_branch_back_leads_back(whole, f, cut, places.inner_start, n);
        }
        added_keeps(cut, last, low, middle);
        keeps_less(last, end, low, high, low, middle);
        keeps_twice(cut, last, end, low, middle);
        assert(keeps(cleaned, end, low, middle)) by {
            reveal(keeps);
        }
        part_stands(whole, entered, done, cleaned, end);
    }
    last
}

/// The code of a loop with a condition in a loop does the same: it goes into its body while its
/// condition is not zero, back from there to the condition, and on behind the loop where the
/// condition is zero.
#[verifier::rlimit(80)]
pub proof fn a_nested_loop_repeats_while_its_condition_holds<R: ConstantResolver, const P: usize, const N: usize>(
    whole: Seq<u8>,
    f: Frame<R, P, N>,
    s: Emission,
    block: NestedLoopBlock,
    expected: RuntimeExpressionType,
    operand: LocalOperand,
    outer: LoopPlaces,
    control: ConditionalLoopControl,
    condition: Tree,
    count: usize,
    m: Machine,
    n: Machine,
) -> (behind: Emission)
    requires
        block.entry_condition == Some(control),
        condition_of(f, s.locals, control.condition@, control.condition_span) == Ok::<
            Tree,
            CodegenError,
        >(condition),
        number_of_controls(block) == Some(count),
        emitted_nested_block(f, s, block, expected, operand, outer).failure is None,
        stands(whole, s, emitted_nested_block(f, s, block, expected, operand, outer)),
        whole.len() <= usize::MAX,
        m.registers.len() == 16,
    ensures
        ({
            let entered = Emission { inner_exits: seq![], ..s };
            let tested = emitted_expression(
                f,
                entered,
                condition,
                condition.root,
                0,
                tree_size(condition),
            );
            let done = emitted_nested_actions(
                f,
                behind,
                block,
                count,
                0,
                expected,
                operand,
                nested_places(s, outer),
            );
            let cleaned = emitted_cleanup_to(f, done, number_of_locals(s.locals));
            let end = emitted_nested_block(f, s, block, expected, operand, outer);
            let repeats = block.unconditional_controls@.len() == 0;
            &&& stands(whole, entered, tested)
            &&& goes_on_like(tested, behind)
            &&& m.at == tested.code.len() ==> becomes(
                whole,
                m,
                if m.registers[0] == 0 {
                    end.code.len() as int
                } else {
                    behind.code.len() as int
                },
                m.registers,
                m.memory,
            )
            &&& repeats ==> stands(whole, done, cleaned)
            &&& repeats && n.at == cleaned.code.len() ==> next(whole, n) == Outcome::Running(
                Machine { at: s.code.len() as int, ..n },
            )
        }),
{
    reveal(emitted_nested_block);
    reveal(emitted_test);
    reveal(place);
    let entered = Emission { inner_exits: seq![], ..s };
    let tested = emitted_expression(f, entered, condition, condition.root, 0, tree_size(condition));
    let test = [0x48u8, 0x85, 0xc0]@;
    let bytes = [0x0fu8, 0x84, 0, 0, 0, 0]@;
    let t = put(f, tested, test);
    let behind = put(f, t, bytes);
    let at = branch_place(t, 2);
    let body = emitted_nested_body(
                f,
                behind,
                block,
                expected,
                operand,
                nested_places(s, outer),
            );
    let end = landed(f, body, at);
    assert(end == emitted_nested_block(f, s, block, expected, operand, outer));
    let head = tested.code.len() as int;
    let low = entered.code.len() as int;
    landed_adds(entered, f, body, at);
    emitted_nested_body_adds(
        entered,
        f,
        behind,
        block,
        expected,
        operand,
        nested_places(s, outer),
    );
    put_adds(entered, f, t, bytes);
    put_adds(entered, f, tested, test);
    emitted_expression_adds(entered, f, entered, condition, condition.root, 0, tree_size(condition));
    nothing_is_added(entered);
    put_grows(f, t, bytes);
    put_grows(f, tested, test);
    assert(at == head + 5) by {
        reveal(branch_place);
    }
    assert(stands(whole, entered, end)) by {
        reveal(stands);
    }
    landed_length(whole, f, entered, body, at);
    assert(s.code.len() <= whole.len());
    nothing_is_added(behind);
    emitted_nested_body_adds(
        behind,
        f,
        behind,
        block,
        expected,
        operand,
        nested_places(s, outer),
    );
    landed_keeps(f, body, at, behind.code.len() as int, body.code.len() as int);
    let last = nested_body_returns(
        whole,
        f,
        s,
        behind,
        block,
        expected,
        operand,
        outer,
        count,
        end,
        n,
    );
    assert forall|j: int| 0 <= j < last.inner_exits.len() implies behind.code.len()
        <= #[trigger] last.inner_exits[j] by {
        reveal(grown_with_places);
    }
    assert(keeps(last, body, low, head + 9)) by {
        reveal(ended_inner_loop);
        landed_all_keep(f, last, last.inner_exits, 0, low, head + 9);
    }
    added_keeps(behind, last, low, head + 9);
    keeps_twice(behind, last, body, low, head + 9);
    keeps_less(behind, body, low, head + 9, head, head + 9);
    keeps_itself(end, head, head + 9);
    if m.at == tested.code.len() {
        tested_branch_stands(whole, f, entered, tested, 0x84, body, end, m);
    }
    keeps_less(behind, body, low, head + 9, low, head);
    landed_keeps(f, body, at, low, head);
    keeps_twice(behind, body, end, low, head);
    assert(keeps(tested, behind, low, head)) by {
        reveal(keeps);
    }
    keeps_twice(tested, behind, end, low, head);
    part_stands(whole, entered, entered, tested, end);
    behind
}

/// A way back in a loop drops the locals of the loop that it names and leads to where that loop
/// begins; a way out of a loop becomes one of the branches that lead behind the loop that it names.
pub proof fn a_way_out_is_one_of_the_loop_that_it_names<R: ConstantResolver, const P: usize, const N: usize>(
    whole: Seq<u8>,
    f: Frame<R, P, N>,
    s: Emission,
    leaves: bool,
    target: NestedLoopControlTarget,
    places: LoopPlaces,
    n: Machine,
)
    requires
        emitted_way_out(f, s, leaves, target, places).failure is None,
        stands(whole, s, emitted_way_out(f, s, leaves, target, places)),
    ensures
        ({
            let outer = target is Outer;
            let end = emitted_way_out(f, s, leaves, target, places);
            let cleaned = emitted_cleanup_to(
                f,
                s,
                if outer {
                    places.checkpoint
                } else {
                    places.inner_checkpoint
                },
            );
            &&& stands(whole, s, cleaned)
            &&& leaves && outer ==> end.exits == s.exits.push((end.code.len() - 4) as usize)
                && end.inner_exits == s.inner_exits
            &&& leaves && !outer ==> end.inner_exits == s.inner_exits.push(
                (end.code.len() - 4) as usize,
            ) && end.exits == s.exits
            &&& !leaves ==> end.exits == s.exits && end.inner_exits == s.inner_exits
            &&& !leaves && n.at == cleaned.code.len() ==> next(whole, n) == Outcome::Running(
                Machine {
                    at: if outer {
                        places.start as int
                    } else {
                        places.inner_start as int
                    },
                    ..n
                },
            )
        }),
{
    reveal(emitted_way_out);
    let outer = target is Outer;
    let end = emitted_way_out(f, s, leaves, target, places);
    let checkpoint = if outer {
        places.checkpoint
    } else {
        places.inner_checkpoint
    };
    let start = if outer {
        places.start
    } else {
        places.inner_start
    };
    let cleaned = emitted_cleanup_to(f, s, checkpoint);
    left_loop_adds(s, f, cleaned);
    left_inner_loop_adds(s, f, cleaned);
    returned_to_adds(s, f, cleaned, start);
    emitted_cleanup_to_adds(s, f, s, checkpoint);
    nothing_is_added(s);
    nothing_is_added(cleaned);
    left_loop_adds(cleaned, f, cleaned);
    left_inner_loop_adds(cleaned, f, cleaned);
    returned_to_adds(cleaned, f, cleaned, start);
    assert(grown(s, cleaned) && grown(cleaned, end)) by {
        reveal(grown_with_places);
    }
    both_parts_stand(whole, s, cleaned, end);
    if leaves {
        reveal(left_loop);
        reveal(left_inner_loop);
        reveal(branch_place);
        put_grows(f, cleaned, [0xe9u8, 0, 0, 0, 0]@);
    } else if n.at == cleaned.code.len() {
        a_branch_back_leads_back(whole, f, cleaned, start, n);
    }
}

} // verus!
