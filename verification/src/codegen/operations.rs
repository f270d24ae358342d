//! What the code of operations computes.
use vstd::arithmetic::div_mod::{lemma_mod_mod, lemma_mul_mod_noop_left};
use vstd::arithmetic::power2::{lemma_pow2_pos, pow2};
use crate::expression::ConstantResolver;
use crate::integer::{
    BinaryOperator, IntegerType, integer_bits, integer_signed, truth,
};
use crate::codegen::machine::{
    Machine, Operand, Operation, Outcome, Shifting, Step, after_arithmetic, after_operation,
    leading_goes_on, leads, meets, next, next_leads, next_leads_on, performed, quotient,
    register_modulus, shifted, size_modulus, stays, step_at, unsigned_word_at, with_flags,
    with_sign,
};
use crate::codegen::decoding::{
    add_rax_rcx_is_read, and_ecx_short_is_read, and_rax_rcx_is_read, answer_al_is_read,
    compare_rax_rdx_is_read, compare_rcx_rax_is_read, compare_rcx_short_is_read,
    constant_rdx_is_read, divide_rcx_is_read, exchange_rcx_rax_is_read,
    move_eax_eax_is_read, move_rax_rcx_is_read, move_rax_rdx_is_read, multiply_rcx_is_read,
    negate_rax_is_read, or_rax_rcx_is_read, shift_left_rax_is_read, shift_right_rax_is_read,
    shift_signed_right_rax_is_read, short_branch_not_zero_is_read,
    signed_divide_rcx_is_read, signed_multiply_rax_rcx_is_read, spread_sign_is_read,
    sub_rcx_rax_is_read, test_rcx_rcx_is_read, test_rdx_rdx_is_read, widen_al_is_read,
    widen_ax_is_read, widen_signed_al_is_read, widen_signed_ax_is_read,
    widen_signed_eax_is_read, xor_rax_rcx_is_read, xor_rdx_rdx_is_read,
};
use crate::codegen::standing::{
    both_parts_stand, grown, grown_twice, leads_to_trap, put_grows, put_stands, stands,
    trap_branch_leads, trapped_grows, trapped_stands,
};
use crate::codegen::emission::{
    Emission, put, quad_bytes, trapped, word_bytes,
};
use crate::codegen::instructions::{
    emitted_binary, emitted_carry_check, emitted_difference, emitted_division,
    emitted_multiplication, emitted_negated, emitted_normal, emitted_normal_width,
    emitted_range_check, emitted_shift, emitted_sum,
};
use crate::codegen::encoding::{
    code_of_condition, difference, mask_of_shift,
};
use crate::codegen::laws::{
    bytes_value, low_word_of, word_bytes_read_back,
};
use crate::codegen::frame::Frame;
use crate::codegen::runtime::{
    RuntimeWidth, width_of_char, width_of_integer,
};
use vstd::prelude::*;

verus! {

/// Whether a number is one of a width.
pub open spec fn in_width(number: int, width: RuntimeWidth) -> bool {
    let modulus = size_modulus(width.bits as int);
    if width.signed {
        -modulus <= 2 * number < modulus
    } else {
        0 <= number < modulus
    }
}

/// The number of a width that has the same low bits.
pub open spec fn wrapped(number: int, width: RuntimeWidth) -> int {
    let low = number % size_modulus(width.bits as int);
    if width.signed {
        with_sign(low, width.bits as int)
    } else {
        low
    }
}

/// How a register holds a number.
pub open spec fn register_of(number: int) -> u64 {
    (number % register_modulus()) as u64
}

/// The number that a register holds in 64 bits.
pub open spec fn number_in(value: u64, signed: bool) -> int {
    if signed {
        with_sign(value as int, 64)
    } else {
        value as int
    }
}

/// Whether a width tells its least and its greatest number.
pub open spec fn true_width(width: RuntimeWidth) -> bool {
    let modulus = size_modulus(width.bits as int);
    &&& width.bits == 8 || width.bits == 16 || width.bits == 32 || width.bits == 64
    &&& width.minimum == register_of(
        if width.signed {
            -modulus / 2
        } else {
            0
        },
    )
    &&& width.maximum == if width.signed {
        modulus / 2 - 1
    } else {
        modulus - 1
    }
}

/// Whether a machine differs from another in its flags and in the registers that operations use.
pub open spec fn untouched(before: Machine, after: Machine) -> bool {
    &&& after.memory == before.memory
    &&& after.registers.len() == 16
    &&& forall|i: int| 3 <= i < 16 ==> #[trigger] after.registers[i] == before.registers[i]
}

/// Whether the code leads to a place with a value in `rax`, and touches nothing else.
pub open spec fn arrives(whole: Seq<u8>, m: Machine, at: int, value: u64) -> bool {
    exists|after: Machine| #[trigger] leads(whole, m, Outcome::Running(after)) && after.at == at
        && after.registers[0] == value && untouched(m, after)
}

/// A step before an arrival.
proof fn step_before_arrival(whole: Seq<u8>, m: Machine, after: Machine, at: int, value: u64)
    requires
        next(whole, m) == Outcome::Running(after),
        untouched(m, after),
        arrives(whole, after, at, value),
    ensures
        arrives(whole, m, at, value),
{
    let last = choose|last: Machine| #[trigger] leads(whole, after, Outcome::Running(last)) && last.at == at
        && last.registers[0] == value && untouched(after, last);
    next_leads_on(whole, m, after, Outcome::Running(last));
}

/// A step before a stop.
proof fn step_before_stop(whole: Seq<u8>, m: Machine, after: Machine)
    requires
        next(whole, m) == Outcome::Running(after),
        leads(whole, after, Outcome::Trapped),
    ensures
        leads(whole, m, Outcome::Trapped),
{
    next_leads_on(whole, m, after, Outcome::Trapped);
}

/// An arrival without a step.
proof fn already_there(whole: Seq<u8>, m: Machine)
    requires
        m.registers.len() == 16,
    ensures
        arrives(whole, m, m.at, m.registers[0]),
{
    stays(whole, m);
    assert(leads(whole, m, Outcome::Running(m)));
}

/// What an operator gives on two numbers of a width: with checks nothing where the result is no
/// number of the width, and without them the number that has the same low bits.
pub open spec fn operator_result(
    operator: BinaryOperator,
    left: int,
    right: int,
    width: RuntimeWidth,
    checks: bool,
) -> Option<int> {
    let bits = width.bits as int;
    let fitted = |number: int|
        if in_width(number, width) {
            Some(number)
        } else if checks {
            None
        } else {
            Some(wrapped(number, width))
        };
    let truth = |holds: bool|
        Some(
            if holds {
                1int
            } else {
                0
            },
        );
    let bitwise = |value: u64| Some(number_in(value, width.signed));
    match operator {
        BinaryOperator::Add => fitted(left + right),
        BinaryOperator::Subtract => fitted(left - right),
        BinaryOperator::Multiply => fitted(left * right),
        BinaryOperator::Divide => if right == 0 || !in_width(quotient(left, right), width) {
            None
        } else {
            Some(quotient(left, right))
        },
        BinaryOperator::Remainder => if right == 0 || !in_width(quotient(left, right), width) {
            None
        } else {
            Some(left - quotient(left, right) * right)
        },
        BinaryOperator::ShiftLeft => if checks && !(0 <= right < bits) {
            None
        } else {
            Some(wrapped(left * pow2((right % bits) as nat), width))
        },
        BinaryOperator::ShiftRight => if checks && !(0 <= right < bits) {
            None
        } else {
            Some(left / pow2((right % bits) as nat) as int)
        },
        BinaryOperator::BitAnd => bitwise(register_of(left) & register_of(right)),
        BinaryOperator::BitOr => bitwise(register_of(left) | register_of(right)),
        BinaryOperator::BitXor => bitwise(register_of(left) ^ register_of(right)),
        BinaryOperator::Equal => truth(left == right),
        BinaryOperator::NotEqual => truth(left != right),
        BinaryOperator::Less => truth(left < right),
        BinaryOperator::LessEqual => truth(left <= right),
        BinaryOperator::Greater => truth(left > right),
        BinaryOperator::GreaterEqual => truth(left >= right),
        _ => None,
    }
}

/// Whether the code leads to a place with a number in `rax`, or stops the program where there is
/// none.
pub open spec fn gives(whole: Seq<u8>, m: Machine, at: int, number: Option<int>) -> bool {
    match number {
        Some(number) => arrives(whole, m, at, register_of(number)),
        None => leads(whole, m, Outcome::Trapped),
    }
}

/// A number of four bytes, the lowest first.
pub(crate) proof fn unsigned_word_is_read(code: Seq<u8>, at: int, value: int)
    requires
        0 <= at,
        at + 4 <= code.len(),
        forall|i: int| 0 <= i < 4 ==> code[at + i] == #[trigger] word_bytes(value)[i],
    ensures
        unsigned_word_at(code, at) == value % 0x1_0000_0000,
{
    let bytes = word_bytes(value);
    assert(code[at + 0] == bytes[0]);
    assert(code[at + 1] == bytes[1]);
    assert(code[at + 2] == bytes[2]);
    assert(code[at + 3] == bytes[3]);
    low_word_of(value);
    word_bytes_read_back(value % 0x1_0000_0000);
    four_bytes_have_a_value(bytes);
}

proof fn four_bytes_have_a_value(bytes: Seq<u8>)
    requires
        bytes.len() == 4,
    ensures
        bytes_value(bytes) == bytes[0] + 256 * bytes[1] + 65536 * bytes[2] + 16777216 * bytes[3],
{
    reveal_with_fuel(bytes_value, 5);
    assert(bytes.skip(1).skip(1) =~= bytes.skip(2));
    assert(bytes.skip(2).skip(1) =~= bytes.skip(3));
    assert(bytes.skip(3).skip(1) =~= bytes.skip(4));
    assert(bytes_value(bytes.skip(4)) == 0);
    assert(bytes_value(bytes.skip(3)) == bytes[3]);
    assert(bytes_value(bytes.skip(2)) == bytes[2] + 256 * bytes[3]);
    assert(bytes_value(bytes.skip(1)) == bytes[1] + 256 * (bytes[2] + 256 * bytes[3]));
}

/// A number of eight bytes, the lowest first.
pub(crate) proof fn unsigned_quad_is_read(code: Seq<u8>, at: int, value: u64)
    requires
        0 <= at,
        at + 8 <= code.len(),
        forall|i: int| 0 <= i < 8 ==> code[at + i] == #[trigger] quad_bytes(value as int)[i],
    ensures
        unsigned_word_at(code, at) + 0x1_0000_0000 * unsigned_word_at(code, at + 4) == value,
{
    let high = value as int / 0x1_0000_0000;
    let quad = quad_bytes(value as int);
    assert forall|i: int| 0 <= i < 4 implies code[at + i] == #[trigger] word_bytes(value as int)[i] by {
        assert(code[at + i] == quad[i]);
    }
    assert forall|i: int| 0 <= i < 4 implies code[at + 4 + i] == #[trigger] word_bytes(high)[i] by {
        assert(code[at + (4 + i)] == quad[4 + i]);
    }
    unsigned_word_is_read(code, at, value as int);
    unsigned_word_is_read(code, at + 4, high);
}

/// The code that makes a register hold a number of a width gives the number of the width that has the
/// same low bits.
pub proof fn normal_width_wraps<R: ConstantResolver, const P: usize, const N: usize>(
    whole: Seq<u8>,
    f: Frame<R, P, N>,
    s: Emission,
    width: RuntimeWidth,
    m: Machine,
    number: int,
)
    requires
        width.bits == 8 || width.bits == 16 || width.bits == 32 || width.bits == 64,
        emitted_normal_width(f, s, width).failure is None,
        stands(whole, s, emitted_normal_width(f, s, width)),
        m.at == s.code.len(),
        m.registers.len() == 16,
        m.registers[0] as int % size_modulus(width.bits as int) == number % size_modulus(
            width.bits as int,
        ),
    ensures
        arrives(
            whole,
            m,
            emitted_normal_width(f, s, width).code.len() as int,
            register_of(wrapped(number, width)),
        ),
        s.failure is None ==> grown(s, emitted_normal_width(f, s, width)),
{
    reveal(emitted_normal_width);
    reveal(performed);
    reveal(grown);
    let after = Machine {
        registers: m.registers.update(0, register_of(wrapped(number, width))),
        at: emitted_normal_width(f, s, width).code.len() as int,
        ..m
    };
    let value = m.registers[0] as int;
    if width.bits == 8 && !width.signed {
        let bytes = [0x0fu8, 0xb6, 0xc0]@;
        put_grows(f, s, bytes);
        put_stands(whole, f, s, bytes);
        assert(bytes[0] == 0x0f && bytes[1] == 0xb6 && bytes[2] == 0xc0);
        widen_al_is_read(whole, m.at);
        assert(next(whole, m) == Outcome::Running(after));
    } else if width.bits == 16 && !width.signed {
        let bytes = [0x0fu8, 0xb7, 0xc0]@;
        put_grows(f, s, bytes);
        put_stands(whole, f, s, bytes);
        assert(bytes[0] == 0x0f && bytes[1] == 0xb7 && bytes[2] == 0xc0);
        widen_ax_is_read(whole, m.at);
        assert(next(whole, m) == Outcome::Running(after));
    } else if width.bits == 32 && !width.signed {
        let bytes = [0x89u8, 0xc0]@;
        put_grows(f, s, bytes);
        put_stands(whole, f, s, bytes);
        assert(bytes[0] == 0x89 && bytes[1] == 0xc0);
        move_eax_eax_is_read(whole, m.at);
        assert(next(whole, m) == Outcome::Running(after));
    } else if width.bits == 8 {
        let bytes = [0x48u8, 0x0f, 0xbe, 0xc0]@;
        put_grows(f, s, bytes);
        put_stands(whole, f, s, bytes);
        assert(bytes[0] == 0x48 && bytes[1] == 0x0f && bytes[2] == 0xbe && bytes[3] == 0xc0);
        widen_signed_al_is_read(whole, m.at);
        assert(next(whole, m) == Outcome::Running(after));
    } else if width.bits == 16 {
        let bytes = [0x48u8, 0x0f, 0xbf, 0xc0]@;
        put_grows(f, s, bytes);
        put_stands(whole, f, s, bytes);
        assert(bytes[0] == 0x48 && bytes[1] == 0x0f && bytes[2] == 0xbf && bytes[3] == 0xc0);
        widen_signed_ax_is_read(whole, m.at);
        assert(next(whole, m) == Outcome::Running(after));
    } else if width.bits == 32 {
        let bytes = [0x48u8, 0x63, 0xc0]@;
        put_grows(f, s, bytes);
        put_stands(whole, f, s, bytes);
        assert(bytes[0] == 0x48 && bytes[1] == 0x63 && bytes[2] == 0xc0);
        widen_signed_eax_is_read(whole, m.at);
        assert(next(whole, m) == Outcome::Running(after));
    } else {
        assert(register_of(wrapped(number, width)) == m.registers[0]);
        already_there(whole, m);
    }
    if width.bits != 64 {
        already_there(whole, after);
        step_before_arrival(whole, m, after, after.at, after.registers[0]);
    }
}

/// The code that loads a number into `rdx`.
proof fn rdx_is_loaded<R: ConstantResolver, const P: usize, const N: usize>(
    whole: Seq<u8>,
    f: Frame<R, P, N>,
    s: Emission,
    value: u64,
    m: Machine,
)
    requires
        put(f, put(f, s, [0x48u8, 0xba]@), quad_bytes(value as int)).failure is None,
        stands(whole, s, put(f, put(f, s, [0x48u8, 0xba]@), quad_bytes(value as int))),
        m.at == s.code.len(),
        m.registers.len() == 16,
    ensures
        ({
            let after = put(f, put(f, s, [0x48u8, 0xba]@), quad_bytes(value as int));
            &&& grown(s, after)
            &&& after == (Emission { code: after.code, ..s })
            &&& after.code.len() == s.code.len() + 10
        }),
        next(whole, m) == Outcome::Running(
            Machine { registers: m.registers.update(2, value), at: m.at + 10, ..m },
        ),
{
    reveal(performed);
    let opening = [0x48u8, 0xba]@;
    let s1 = put(f, s, opening);
    let quad = quad_bytes(value as int);
    let s2 = put(f, s1, quad);
    put_grows(f, s1, quad);
    put_grows(f, s, opening);
    both_parts_stand(whole, s, s1, s2);
    put_stands(whole, f, s, opening);
    put_stands(whole, f, s1, quad);
    assert(opening[0] == 0x48 && opening[1] == 0xba);
    assert(quad.len() == 8);
    let at = m.at;
    assert forall|i: int| 0 <= i < 8 implies whole[at + 2 + i] == #[trigger] quad_bytes(value as int)[i] by {
        assert(whole[s1.code.len() + i] == quad[i]);
    }
    unsigned_quad_is_read(whole, at + 2, value);
    constant_rdx_is_read(whole, at);
}

/// What the flags tell after two numbers of 64 bits have been compared.
proof fn flags_tell_the_order(m: Machine, left: u64, right: u64)
    ensures
        ({
            let after = after_operation(
                m,
                Operation::Compare,
                64,
                Operand::Register(0),
                left as int,
                right as int,
            );
            &&& after == (Machine {
                zero: left == right,
                carry: left < right,
                sign: after.sign,
                overflow: after.overflow,
                ..m
            })
            &&& (after.sign != after.overflow) == (number_in(left, true) < number_in(right, true))
        }),
{
    reveal(after_operation);
    let difference = (left - right) % 0x1_0000_0000_0000_0000;
    assert(left >= right ==> difference == left - right);
    assert(left < right ==> difference == left - right + 0x1_0000_0000_0000_0000);
}

/// A machine at which the code arrives.
pub(crate) proof fn arrival(whole: Seq<u8>, m: Machine, at: int, value: u64) -> (after: Machine)
    requires
        arrives(whole, m, at, value),
    ensures
        leads(whole, m, Outcome::Running(after)),
        after.at == at,
        after.registers[0] == value,
        untouched(m, after),
{
    choose|after: Machine| #[trigger] leads(whole, m, Outcome::Running(after)) && after.at == at
        && after.registers[0] == value && untouched(m, after)
}

/// What the code gives behind some steps, it gives before them.
proof fn gives_before(whole: Seq<u8>, m: Machine, middle: Machine, at: int, number: Option<int>)
    requires
        leads(whole, m, Outcome::Running(middle)),
        untouched(m, middle),
        gives(whole, middle, at, number),
    ensures
        gives(whole, m, at, number),
{
    match number {
        Some(number) => {
            let after = arrival(whole, middle, at, register_of(number));
            leading_goes_on(whole, m, middle, Outcome::Running(after));
        },
        None => {
            leading_goes_on(whole, m, middle, Outcome::Trapped);
        },
    }
}

/// The same for one step.
proof fn gives_before_step(whole: Seq<u8>, m: Machine, middle: Machine, at: int, number: Option<int>)
    requires
        next(whole, m) == Outcome::Running(middle),
        untouched(m, middle),
        gives(whole, middle, at, number),
    ensures
        gives(whole, m, at, number),
{
    next_leads(whole, m);
    gives_before(whole, m, middle, at, number);
}

/// A register holds the number that it holds.
proof fn registers_hold_their_numbers(value: u64, signed: bool)
    ensures
        register_of(number_in(value, signed)) == value,
{
}

/// What is left of a check against a bound, where `opcode` tells when to stop.
spec fn bound_checked<R: ConstantResolver, const P: usize, const N: usize>(
    f: Frame<R, P, N>,
    s: Emission,
    bound: u64,
    opcode: u8,
) -> Emission {
    let s = put(f, s, [0x48u8, 0xba]@);
    let s = put(f, s, quad_bytes(bound as int));
    let s = put(f, s, [0x48u8, 0x39, 0xd0]@);
    trapped(f, s, opcode)
}

/// Whether a number beyond a bound is meant to stop the program.
spec fn beyond(value: u64, bound: u64, opcode: u8) -> bool {
    if opcode == 0x8f {
        number_in(value, true) > number_in(bound, true)
    } else if opcode == 0x8c {
        number_in(value, true) < number_in(bound, true)
    } else {
        value > bound
    }
}

proof fn bound_check_grows<R: ConstantResolver, const P: usize, const N: usize>(
    f: Frame<R, P, N>,
    s: Emission,
    bound: u64,
    opcode: u8,
)
    ensures
        bound_checked(f, s, bound, opcode).failure is None ==> {
            &&& s.failure is None
            &&& grown(s, bound_checked(f, s, bound, opcode))
            &&& bound_checked(f, s, bound, opcode).width == s.width
            &&& bound_checked(f, s, bound, opcode).overflow_checks == s.overflow_checks
            &&& bound_checked(f, s, bound, opcode).code.len() == s.code.len() + 19
        },
{
    let end = bound_checked(f, s, bound, opcode);
    if end.failure is None {
        let a = put(f, s, [0x48u8, 0xba]@);
        let b = put(f, a, quad_bytes(bound as int));
        let c = put(f, b, [0x48u8, 0x39, 0xd0]@);
        trapped_grows(f, c, opcode);
        put_grows(f, b, [0x48u8, 0x39, 0xd0]@);
        put_grows(f, a, quad_bytes(bound as int));
        put_grows(f, s, [0x48u8, 0xba]@);
        grown_twice(s, a, b);
        grown_twice(s, b, c);
        grown_twice(s, c, end);
    }
}

/// A check against a bound stops the program where the number is beyond it.
proof fn bound_check_leads<R: ConstantResolver, const P: usize, const N: usize>(
    whole: Seq<u8>,
    f: Frame<R, P, N>,
    s: Emission,
    bound: u64,
    opcode: u8,
    m: Machine,
)
    requires
        opcode == 0x8f || opcode == 0x8c || opcode == 0x87,
        bound_checked(f, s, bound, opcode).failure is None,
        stands(whole, s, bound_checked(f, s, bound, opcode)),
        m.at == s.code.len(),
        m.registers.len() == 16,
    ensures
        if beyond(m.registers[0], bound, opcode) {
            leads(whole, m, Outcome::Trapped)
        } else {
            arrives(whole, m, s.code.len() as int + 19, m.registers[0])
        },
{
    let end = bound_checked(f, s, bound, opcode);
    let compare = [0x48u8, 0x39, 0xd0]@;
    let a = put(f, s, [0x48u8, 0xba]@);
    let b = put(f, a, quad_bytes(bound as int));
    let c = put(f, b, compare);
    trapped_grows(f, c, opcode);
    put_grows(f, b, compare);
    put_grows(f, a, quad_bytes(bound as int));
    put_grows(f, s, [0x48u8, 0xba]@);
    grown_twice(s, a, b);
    grown_twice(s, b, c);
    both_parts_stand(whole, s, c, end);
    both_parts_stand(whole, s, b, c);
    rdx_is_loaded(whole, f, s, bound, m);
    put_stands(whole, f, b, compare);
    assert(compare[0] == 0x48 && compare[1] == 0x39 && compare[2] == 0xd0);
    trapped_stands(whole, f, c, opcode);
    comparison_leads(whole, m, bound, opcode);
}

proof fn comparison_leads(whole: Seq<u8>, m: Machine, bound: u64, opcode: u8)
    requires
        opcode == 0x8f || opcode == 0x8c || opcode == 0x87,
        0 <= m.at,
        m.at + 19 <= whole.len(),
        m.registers.len() == 16,
        next(whole, m) == Outcome::Running(
            Machine { registers: m.registers.update(2, bound), at: m.at + 10, ..m },
        ),
        whole[m.at + 10] == 0x48,
        whole[m.at + 11] == 0x39,
        whole[m.at + 12] == 0xd0,
        whole[m.at + 13] == 0x0f,
        whole[m.at + 14] == opcode,
        leads_to_trap(whole, m.at + 15),
    ensures
        if beyond(m.registers[0], bound, opcode) {
            leads(whole, m, Outcome::Trapped)
        } else {
            arrives(whole, m, m.at + 19, m.registers[0])
        },
{
    let rax = m.registers[0];
    let m1 = Machine { registers: m.registers.update(2, bound), at: m.at + 10, ..m };
    compare_rax_rdx_is_read(whole, m1.at);
    flags_tell_the_order(Machine { at: m1.at + 3, ..m1 }, rax, bound);
    let m2 = after_operation(
        Machine { at: m1.at + 3, ..m1 },
        Operation::Compare,
        64,
        Operand::Register(0),
        rax as int,
        bound as int,
    );
    assert(next(whole, m1) == Outcome::Running(m2)) by {
        reveal(performed);
    }
    trap_branch_leads(whole, m2, opcode);
    if meets(m2, opcode - 0x80) {
        step_before_stop(whole, m1, m2);
        step_before_stop(whole, m, m1);
    } else {
        let m3 = Machine { at: m2.at + 6, ..m2 };
        already_there(whole, m3);
        step_before_arrival(whole, m2, m3, m3.at, rax);
        step_before_arrival(whole, m1, m2, m3.at, rax);
        step_before_arrival(whole, m, m1, m3.at, rax);
    }
}

/// The code that checks a range stops the program exactly where a number is none of the width.
pub proof fn range_check_stops_what_is_out_of_range<R: ConstantResolver, const P: usize, const N: usize>(
    whole: Seq<u8>,
    f: Frame<R, P, N>,
    s: Emission,
    m: Machine,
)
    requires
        true_width(s.width),
        s.failure is None,
        emitted_range_check(f, s).failure is None,
        stands(whole, s, emitted_range_check(f, s)),
        m.at == s.code.len(),
        m.registers.len() == 16,
    ensures
        ({
            let number = number_in(m.registers[0], s.width.signed);
            gives(
                whole,
                m,
                emitted_range_check(f, s).code.len() as int,
                if in_width(number, s.width) {
                    Some(number)
                } else {
                    None
                },
            )
        }),
{
    reveal(emitted_range_check);
    let width = s.width;
    let rax = m.registers[0];
    let end = emitted_range_check(f, s);
    registers_hold_their_numbers(rax, width.signed);
    if width.bits == 64 {
        already_there(whole, m);
    } else if width.signed {
        let middle = bound_checked(f, s, width.maximum, 0x8f);
        assert(end == bound_checked(f, middle, width.minimum, 0x8c));
        bound_check_grows(f, middle, width.minimum, 0x8c);
        bound_check_grows(f, s, width.maximum, 0x8f);
        both_parts_stand(whole, s, middle, end);
        bound_check_leads(whole, f, s, width.maximum, 0x8f, m);
        if !beyond(rax, width.maximum, 0x8f) {
            let n = arrival(whole, m, middle.code.len() as int, rax);
            bound_check_leads(whole, f, middle, width.minimum, 0x8c, n);
            let number = number_in(rax, true);
            gives_before(
                whole,
                m,
                n,
                end.code.len() as int,
                if in_width(number, width) {
                    Some(number)
                } else {
                    None
                },
            );
        }
    } else {
        assert(end == bound_checked(f, s, width.maximum, 0x87));
        bound_check_grows(f, s, width.maximum, 0x87);
        bound_check_leads(whole, f, s, width.maximum, 0x87, m);
    }
}

/// A range check adds code and keeps the rest.
proof fn range_check_grows<R: ConstantResolver, const P: usize, const N: usize>(
    f: Frame<R, P, N>,
    s: Emission,
)
    ensures
        s.failure is None && emitted_range_check(f, s).failure is None ==> grown(
            s,
            emitted_range_check(f, s),
        ),
{
    reveal(emitted_range_check);
    reveal(grown);
    let width = s.width;
    let end = emitted_range_check(f, s);
    if width.bits != 64 && end.failure is None {
        if width.signed {
            let middle = bound_checked(f, s, width.maximum, 0x8f);
            assert(end == bound_checked(f, middle, width.minimum, 0x8c));
            bound_check_grows(f, middle, width.minimum, 0x8c);
            bound_check_grows(f, s, width.maximum, 0x8f);
            grown_twice(s, middle, end);
        } else {
            assert(end == bound_checked(f, s, width.maximum, 0x87));
            bound_check_grows(f, s, width.maximum, 0x87);
        }
    }
}

/// The low bits of a number are those of the register that holds it.
proof fn low_bits_are_held(number: int, width: RuntimeWidth)
    requires
        width.bits == 8 || width.bits == 16 || width.bits == 32 || width.bits == 64,
    ensures
        register_of(number) as int % size_modulus(width.bits as int) == number % size_modulus(
            width.bits as int,
        ),
        in_width(number, width) ==> wrapped(number, width) == number,
        in_width(number, width) ==> number_in(register_of(number), width.signed) == number,
{
    low_bits_of_low_bits(number);
}

/// The low bits of the low 64 bits are the low bits.
#[verifier::spinoff_prover]
proof fn low_bits_of_low_bits(number: int)
    ensures
        number % 0x1_0000_0000_0000_0000 % 0x100 == number % 0x100,
        number % 0x1_0000_0000_0000_0000 % 0x1_0000 == number % 0x1_0000,
        number % 0x1_0000_0000_0000_0000 % 0x1_0000_0000 == number % 0x1_0000_0000,
        number % 0x1_0000_0000_0000_0000 % 0x1_0000_0000_0000_0000 == number
            % 0x1_0000_0000_0000_0000,
{
    lemma_mod_mod(number, 0x100, 0x100_0000_0000_0000);
    lemma_mod_mod(number, 0x1_0000, 0x1_0000_0000_0000);
    lemma_mod_mod(number, 0x1_0000_0000, 0x1_0000_0000);
}

proof fn normal_width_grows<R: ConstantResolver, const P: usize, const N: usize>(
    f: Frame<R, P, N>,
    s: Emission,
    width: RuntimeWidth,
)
    ensures
        s.failure is None && emitted_normal_width(f, s, width).failure is None ==> grown(
            s,
            emitted_normal_width(f, s, width),
        ),
        emitted_normal_width(f, s, width).failure is None ==> s.failure is None,
{
    reveal(emitted_normal_width);
    reveal(grown);
    reveal(put);
}

/// The check of a sum or a difference stops the program where the flags tell that it left the
/// register.
proof fn carry_check_leads<R: ConstantResolver, const P: usize, const N: usize>(
    whole: Seq<u8>,
    f: Frame<R, P, N>,
    s: Emission,
    opcode: u8,
    m: Machine,
)
    requires
        0x80 <= opcode <= 0x8f,
        trapped(f, s, opcode).failure is None,
        stands(whole, s, trapped(f, s, opcode)),
        m.at == s.code.len(),
        m.registers.len() == 16,
    ensures
        if meets(m, opcode - 0x80) {
            leads(whole, m, Outcome::Trapped)
        } else {
            arrives(whole, m, trapped(f, s, opcode).code.len() as int, m.registers[0])
        },
{
    trapped_grows(f, s, opcode);
    trapped_stands(whole, f, s, opcode);
    trap_branch_leads(whole, m, opcode);
    if !meets(m, opcode - 0x80) {
        let after = Machine { at: m.at + 6, ..m };
        already_there(whole, after);
        step_before_arrival(whole, m, after, after.at, m.registers[0]);
    }
}

/// What is done with the result of a sum or a product.
spec fn result_fitted<R: ConstantResolver, const P: usize, const N: usize>(
    f: Frame<R, P, N>,
    s: Emission,
    opcode: u8,
) -> Emission {
    if s.overflow_checks && s.width.bits == 64 {
        trapped(f, s, opcode)
    } else if s.overflow_checks {
        emitted_range_check(f, s)
    } else {
        emitted_normal(f, s)
    }
}

proof fn fitting_grows<R: ConstantResolver, const P: usize, const N: usize>(
    f: Frame<R, P, N>,
    s: Emission,
    opcode: u8,
)
    requires
        s.failure is None,
    ensures
        result_fitted(f, s, opcode).failure is None ==> grown(s, result_fitted(f, s, opcode)),
{
    reveal(emitted_normal);
    trapped_grows(f, s, opcode);
    range_check_grows(f, s);
    normal_width_grows(f, s, s.width);
}

/// A result is fitted into its width, or the program is stopped.
proof fn result_is_fitted<R: ConstantResolver, const P: usize, const N: usize>(
    whole: Seq<u8>,
    f: Frame<R, P, N>,
    s: Emission,
    opcode: u8,
    m: Machine,
    number: int,
)
    requires
        true_width(s.width),
        0x80 <= opcode <= 0x8f,
        s.failure is None,
        result_fitted(f, s, opcode).failure is None,
        stands(whole, s, result_fitted(f, s, opcode)),
        m.at == s.code.len(),
        m.registers.len() == 16,
        m.registers[0] == register_of(number),
        s.width.bits == 64 ==> meets(m, opcode - 0x80) == !in_width(number, s.width),
        s.width.bits < 64 ==> number_in(register_of(number), s.width.signed) == number
            || !in_width(number, s.width) && !in_width(
            number_in(register_of(number), s.width.signed),
            s.width,
        ),
    ensures
        gives(
            whole,
            m,
            result_fitted(f, s, opcode).code.len() as int,
            if in_width(number, s.width) {
                Some(number)
            } else if s.overflow_checks {
                None
            } else {
                Some(wrapped(number, s.width))
            },
        ),
{
    low_bits_are_held(number, s.width);
    if s.overflow_checks && s.width.bits == 64 {
        carry_check_leads(whole, f, s, opcode, m);
    } else if s.overflow_checks {
        range_check_stops_what_is_out_of_range(whole, f, s, m);
    } else {
        reveal(emitted_normal);
        normal_width_wraps(whole, f, s, s.width, m, number);
    }
}

/// What a sum of two registers is, and what the flags tell of it.
proof fn sum_tells(m: Machine, left: int, right: int, width: RuntimeWidth)
    requires
        true_width(width),
        in_width(left, width),
        in_width(right, width),
        m.registers.len() == 16,
    ensures
        ({
            let after = after_operation(
                m,
                Operation::Add,
                64,
                Operand::Register(0),
                register_of(right) as int,
                register_of(left) as int,
            );
            &&& after.registers == m.registers.update(0, register_of(left + right))
            &&& after.memory == m.memory
            &&& after.at == m.at
            &&& width.bits == 64 ==> (if width.signed {
                after.overflow
            } else {
                after.carry
            }) == !in_width(left + right, width)
            &&& width.bits < 64 ==> number_in(register_of(left + right), width.signed) == left + right
        }),
{
    reveal(after_operation);
    near_registers(left);
    near_registers(right);
    near_registers(left + right);
    let l = register_of(left) as int;
    let r = register_of(right) as int;
    near_registers(r + l);
    assert(size_modulus(64) == register_modulus());
    assert((r + l) % register_modulus() == (left + right) % register_modulus());
}

/// How a register holds a number that is not far from those that it can hold.
pub(crate) proof fn near_registers(number: int)
    requires
        -register_modulus() <= number < 2 * register_modulus(),
    ensures
        number % register_modulus() == if number < 0 {
            number + register_modulus()
        } else if number >= register_modulus() {
            number - register_modulus()
        } else {
            number
        },
        register_of(number) == number % register_modulus(),
{
}

/// The code of a sum gives the sum of the numbers in `rcx` and `rax`.
proof fn sum_is_computed<R: ConstantResolver, const P: usize, const N: usize>(
    whole: Seq<u8>,
    f: Frame<R, P, N>,
    s: Emission,
    m: Machine,
    left: int,
    right: int,
)
    requires
        true_width(s.width),
        emitted_sum(f, s).failure is None,
        stands(whole, s, emitted_sum(f, s)),
        operands_stand(s, m, left, right),
    ensures
        gives(
            whole,
            m,
            emitted_sum(f, s).code.len() as int,
            operator_result(BinaryOperator::Add, left, right, s.width, s.overflow_checks),
        ),
{
    reveal(emitted_sum);
    reveal(emitted_carry_check);
    let bytes = [0x48u8, 0x01, 0xc8]@;
    let s1 = put(f, s, bytes);
    let opcode: u8 = if s.width.signed {
        0x80
    } else {
        0x82
    };
    let end = emitted_sum(f, s);
    put_keeps(f, s, bytes);
    assert(end == result_fitted(f, s1, opcode));
    fitting_keeps_failure(f, s1, opcode);
    put_grows(f, s, bytes);
    fitting_grows(f, s1, opcode);
    both_parts_stand(whole, s, s1, end);
    put_stands(whole, f, s, bytes);
    assert(bytes[0] == 0x48 && bytes[1] == 0x01 && bytes[2] == 0xc8);
    add_rax_rcx_is_read(whole, m.at);
    let number = left + right;
    let m1 = after_operation(
        Machine { at: m.at + 3, ..m },
        Operation::Add,
        64,
        Operand::Register(0),
        m.registers[0] as int,
        m.registers[1] as int,
    );
    assert(next(whole, m) == Outcome::Running(m1)) by {
        reveal(performed);
    }
    sum_tells(Machine { at: m.at + 3, ..m }, left, right, s.width);
    result_is_fitted(whole, f, s1, opcode, m1, number);
    gives_before_step(
        whole,
        m,
        m1,
        end.code.len() as int,
        operator_result(BinaryOperator::Add, left, right, s.width, s.overflow_checks),
    );
}

proof fn range_check_keeps_failure<R: ConstantResolver, const P: usize, const N: usize>(
    f: Frame<R, P, N>,
    s: Emission,
)
    requires
        s.failure is Some,
    ensures
        emitted_range_check(f, s).failure is Some,
{
    reveal(emitted_range_check);
    reveal(put);
    reveal(trapped);
}

proof fn fitting_keeps_failure<R: ConstantResolver, const P: usize, const N: usize>(
    f: Frame<R, P, N>,
    s: Emission,
    opcode: u8,
)
    ensures
        s.failure is Some ==> result_fitted(f, s, opcode).failure is Some,
{
    if s.failure is Some {
        reveal(trapped);
        reveal(put);
        range_check_keeps_failure(f, s);
        normal_width_grows(f, s, s.width);
        reveal(emitted_normal);
    }
}

/// What is known while code is made stays known.
proof fn put_keeps<R: ConstantResolver, const P: usize, const N: usize>(
    f: Frame<R, P, N>,
    s: Emission,
    bytes: Seq<u8>,
)
    ensures
        put(f, s, bytes).width == s.width,
        put(f, s, bytes).overflow_checks == s.overflow_checks,
{
    reveal(put);
}

/// Whether the operands of an operation are at hand: the left number in `rcx` and the right one in
/// `rax`.
pub open spec fn operands_stand(s: Emission, m: Machine, left: int, right: int) -> bool {
    &&& in_width(left, s.width)
    &&& in_width(right, s.width)
    &&& m.at == s.code.len()
    &&& m.registers.len() == 16
    &&& m.registers[1] == register_of(left)
    &&& m.registers[0] == register_of(right)
}

/// An operation on two registers.
pub(crate) proof fn operation_leads(
    code: Seq<u8>,
    m: Machine,
    operation: Operation,
    to: int,
    from: int,
    length: int,
)
    requires
        step_at(code, m.at) == Some(
            (
                Step::Operate {
                    operation,
                    size: 64,
                    to: Operand::Register(to),
                    from: Operand::Register(from),
                },
                m.at + length,
            ),
        ),
    ensures
        next(code, m) == Outcome::Running(
            after_operation(
                Machine { at: m.at + length, ..m },
                operation,
                64,
                Operand::Register(to),
                m.registers[to] as int,
                m.registers[from] as int,
            ),
        ),
{
    reveal(performed);
}

/// What a difference of two registers is, and what the flags tell of it.
proof fn difference_tells(m: Machine, operation: Operation, left: int, right: int, width: RuntimeWidth)
    requires
        operation == Operation::Subtract || operation == Operation::Compare,
        true_width(width),
        in_width(left, width),
        in_width(right, width),
        m.registers.len() == 16,
    ensures
        ({
            let after = after_operation(
                m,
                operation,
                64,
                Operand::Register(1),
                register_of(left) as int,
                register_of(right) as int,
            );
            &&& after.registers == if operation == Operation::Subtract {
                m.registers.update(1, register_of(left - right))
            } else {
                m.registers
            }
            &&& after.memory == m.memory
            &&& after.at == m.at
            &&& after.zero == (left == right)
            &&& width.signed ==> (after.sign != after.overflow) == (left < right)
            &&& !width.signed ==> after.carry == (left < right)
            &&& width.bits == 64 ==> (if width.signed {
                after.overflow
            } else {
                after.carry
            }) == !in_width(left - right, width)
            &&& width.bits < 64 ==> number_in(register_of(left - right), width.signed) == left - right
                || !in_width(left - right, width) && !in_width(
                number_in(register_of(left - right), width.signed),
                width,
            )
        }),
{
    reveal(after_operation);
    near_registers(left);
    near_registers(right);
    near_registers(left - right);
    let l = register_of(left) as int;
    let r = register_of(right) as int;
    near_registers(l - r);
    assert(size_modulus(64) == register_modulus());
    assert((l - r) % register_modulus() == (left - right) % register_modulus());
}

/// The code of a difference gives the difference of the numbers in `rcx` and `rax`.
#[verifier::rlimit(60)]
proof fn difference_is_computed<R: ConstantResolver, const P: usize, const N: usize>(
    whole: Seq<u8>,
    f: Frame<R, P, N>,
    s: Emission,
    m: Machine,
    left: int,
    right: int,
)
    requires
        true_width(s.width),
        emitted_difference(f, s).failure is None,
        stands(whole, s, emitted_difference(f, s)),
        operands_stand(s, m, left, right),
    ensures
        gives(
            whole,
            m,
            emitted_difference(f, s).code.len() as int,
            operator_result(BinaryOperator::Subtract, left, right, s.width, s.overflow_checks),
        ),
{
    reveal(emitted_difference);
    reveal(emitted_carry_check);
    let width = s.width;
    let number = left - right;
    let opcode: u8 = if width.signed {
        0x80
    } else {
        0x82
    };
    let subtract = [0x48u8, 0x29, 0xc1]@;
    let store = [0x48u8, 0x89, 0xc8]@;
    let checked = s.overflow_checks && width.bits == 64;
    let a = put(f, s, subtract);
    let b = if checked {
        trapped(f, a, opcode)
    } else {
        a
    };
    let c = put(f, b, store);
    let end = emitted_difference(f, s);
    put_keeps(f, s, subtract);
    trap_keeps(f, a, opcode);
    put_keeps(f, b, store);
    assert(end == difference_fitted(f, c));
    difference_fitting_grows(f, c);
    put_grows(f, b, store);
    trapped_grows(f, a, opcode);
    put_grows(f, s, subtract);
    assert(grown(a, b)) by {
        reveal(grown);
    }
    grown_twice(s, a, b);
    grown_twice(s, b, c);
    both_parts_stand(whole, s, c, end);
    both_parts_stand(whole, s, b, c);
    both_parts_stand(whole, s, a, b);
    put_stands(whole, f, s, subtract);
    assert(subtract[0] == 0x48 && subtract[1] == 0x29 && subtract[2] == 0xc1);
    put_stands(whole, f, b, store);
    assert(store[0] == 0x48 && store[1] == 0x89 && store[2] == 0xc8);
    sub_rcx_rax_is_read(whole, m.at);
    let m1 = after_operation(
        Machine { at: m.at + 3, ..m },
        Operation::Subtract,
        64,
        Operand::Register(1),
        m.registers[1] as int,
        m.registers[0] as int,
    );
    operation_leads(whole, m, Operation::Subtract, 1, 0, 3);
    difference_tells(Machine { at: m.at + 3, ..m }, Operation::Subtract, left, right, width);
    let result = operator_result(BinaryOperator::Subtract, left, right, s.width, s.overflow_checks);
    let at = end.code.len() as int;
    if checked {
        trapped_stands(whole, f, a, opcode);
        trap_branch_leads(whole, m1, opcode);
    }
    if checked && !in_width(number, width) {
        step_before_stop(whole, m, m1);
    } else {
        let m2 = if checked {
            Machine { at: m1.at + 6, ..m1 }
        } else {
            m1
        };
        move_rax_rcx_is_read(whole, m2.at);
        let m3 = Machine {
            registers: m2.registers.update(0, register_of(number)),
            at: m2.at + 3,
            ..m2
        };
        assert(next(whole, m2) == Outcome::Running(m3)) by {
            reveal(performed);
        }
        difference_is_fitted(whole, f, c, m3, number);
        gives_before_step(whole, m2, m3, at, result);
        if checked {
            gives_before_step(whole, m1, m2, at, result);
        }
        gives_before_step(whole, m, m1, at, result);
    }
}

spec fn difference_fitted<R: ConstantResolver, const P: usize, const N: usize>(
    f: Frame<R, P, N>,
    s: Emission,
) -> Emission {
    if s.overflow_checks && s.width.bits < 64 {
        emitted_range_check(f, s)
    } else {
        emitted_normal(f, s)
    }
}

proof fn difference_fitting_grows<R: ConstantResolver, const P: usize, const N: usize>(
    f: Frame<R, P, N>,
    s: Emission,
)
    ensures
        difference_fitted(f, s).failure is None ==> s.failure is None && grown(
            s,
            difference_fitted(f, s),
        ),
{
    reveal(emitted_normal);
    if s.failure is Some {
        range_check_keeps_failure(f, s);
    }
    range_check_grows(f, s);
    normal_width_grows(f, s, s.width);
}

proof fn difference_is_fitted<R: ConstantResolver, const P: usize, const N: usize>(
    whole: Seq<u8>,
    f: Frame<R, P, N>,
    s: Emission,
    m: Machine,
    number: int,
)
    requires
        true_width(s.width),
        s.failure is None,
        difference_fitted(f, s).failure is None,
        stands(whole, s, difference_fitted(f, s)),
        m.at == s.code.len(),
        m.registers.len() == 16,
        m.registers[0] == register_of(number),
        s.overflow_checks && s.width.bits == 64 ==> in_width(number, s.width),
        s.width.bits < 64 ==> number_in(register_of(number), s.width.signed) == number
            || !in_width(number, s.width) && !in_width(
            number_in(register_of(number), s.width.signed),
            s.width,
        ),
    ensures
        gives(
            whole,
            m,
            difference_fitted(f, s).code.len() as int,
            if in_width(number, s.width) {
                Some(number)
            } else if s.overflow_checks {
                None
            } else {
                Some(wrapped(number, s.width))
            },
        ),
{
    low_bits_are_held(number, s.width);
    if s.overflow_checks && s.width.bits < 64 {
        range_check_stops_what_is_out_of_range(whole, f, s, m);
    } else {
        reveal(emitted_normal);
        normal_width_wraps(whole, f, s, s.width, m, number);
    }
}

proof fn trap_keeps<R: ConstantResolver, const P: usize, const N: usize>(
    f: Frame<R, P, N>,
    s: Emission,
    opcode: u8,
)
    ensures
        trapped(f, s, opcode).width == s.width,
        trapped(f, s, opcode).overflow_checks == s.overflow_checks,
        s.failure is Some ==> trapped(f, s, opcode).failure is Some,
{
    reveal(trapped);
    reveal(put);
}

/// The code of a bitwise operator gives it of the registers.
proof fn and_is_computed<R: ConstantResolver, const P: usize, const N: usize>(
    whole: Seq<u8>,
    f: Frame<R, P, N>,
    s: Emission,
    m: Machine,
    left: int,
    right: int,
)
    requires
        true_width(s.width),
        emitted_binary(f, s, BinaryOperator::BitAnd).failure is None,
        stands(whole, s, emitted_binary(f, s, BinaryOperator::BitAnd)),
        operands_stand(s, m, left, right),
    ensures
        gives(
            whole,
            m,
            emitted_binary(f, s, BinaryOperator::BitAnd).code.len() as int,
            operator_result(BinaryOperator::BitAnd, left, right, s.width, s.overflow_checks),
        ),
{
    reveal(emitted_binary);
    let bytes = [0x48u8, 0x21, 0xc8]@;
    put_grows(f, s, bytes);
    put_stands(whole, f, s, bytes);
    assert(bytes[0] == 0x48 && bytes[1] == 0x21 && bytes[2] == 0xc8);
    and_rax_rcx_is_read(whole, m.at);
    let first = m.registers[1];
    let second = m.registers[0];
    assert(second & first == first & second) by (bit_vector);
    let m1 = after_operation(
        Machine { at: m.at + 3, ..m },
        Operation::And,
        64,
        Operand::Register(0),
        second as int,
        first as int,
    );
    assert(next(whole, m) == Outcome::Running(m1)) by {
        reveal(performed);
    }
    assert(m1.registers == m.registers.update(0, first & second) && m1.memory == m.memory && m1.at
        == m.at + 3) by {
        reveal(after_operation);
    }
    registers_hold_their_numbers(first & second, s.width.signed);
    already_there(whole, m1);
    step_before_arrival(whole, m, m1, m1.at, first & second);
}

/// The code of a bitwise operator gives it of the registers.
proof fn or_is_computed<R: ConstantResolver, const P: usize, const N: usize>(
    whole: Seq<u8>,
    f: Frame<R, P, N>,
    s: Emission,
    m: Machine,
    left: int,
    right: int,
)
    requires
        true_width(s.width),
        emitted_binary(f, s, BinaryOperator::BitOr).failure is None,
        stands(whole, s, emitted_binary(f, s, BinaryOperator::BitOr)),
        operands_stand(s, m, left, right),
    ensures
        gives(
            whole,
            m,
            emitted_binary(f, s, BinaryOperator::BitOr).code.len() as int,
            operator_result(BinaryOperator::BitOr, left, right, s.width, s.overflow_checks),
        ),
{
    reveal(emitted_binary);
    let bytes = [0x48u8, 0x09, 0xc8]@;
    put_grows(f, s, bytes);
    put_stands(whole, f, s, bytes);
    assert(bytes[0] == 0x48 && bytes[1] == 0x09 && bytes[2] == 0xc8);
    or_rax_rcx_is_read(whole, m.at);
    let first = m.registers[1];
    let second = m.registers[0];
    assert(second | first == first | second) by (bit_vector);
    let m1 = after_operation(
        Machine { at: m.at + 3, ..m },
        Operation::Or,
        64,
        Operand::Register(0),
        second as int,
        first as int,
    );
    assert(next(whole, m) == Outcome::Running(m1)) by {
        reveal(performed);
    }
    assert(m1.registers == m.registers.update(0, first | second) && m1.memory == m.memory && m1.at
        == m.at + 3) by {
        reveal(after_operation);
    }
    registers_hold_their_numbers(first | second, s.width.signed);
    already_there(whole, m1);
    step_before_arrival(whole, m, m1, m1.at, first | second);
}

/// The code of a bitwise operator gives it of the registers.
proof fn xor_is_computed<R: ConstantResolver, const P: usize, const N: usize>(
    whole: Seq<u8>,
    f: Frame<R, P, N>,
    s: Emission,
    m: Machine,
    left: int,
    right: int,
)
    requires
        true_width(s.width),
        emitted_binary(f, s, BinaryOperator::BitXor).failure is None,
        stands(whole, s, emitted_binary(f, s, BinaryOperator::BitXor)),
        operands_stand(s, m, left, right),
    ensures
        gives(
            whole,
            m,
            emitted_binary(f, s, BinaryOperator::BitXor).code.len() as int,
            operator_result(BinaryOperator::BitXor, left, right, s.width, s.overflow_checks),
        ),
{
    reveal(emitted_binary);
    let bytes = [0x48u8, 0x31, 0xc8]@;
    put_grows(f, s, bytes);
    put_stands(whole, f, s, bytes);
    assert(bytes[0] == 0x48 && bytes[1] == 0x31 && bytes[2] == 0xc8);
    xor_rax_rcx_is_read(whole, m.at);
    let first = m.registers[1];
    let second = m.registers[0];
    assert(second ^ first == first ^ second) by (bit_vector);
    let m1 = after_operation(
        Machine { at: m.at + 3, ..m },
        Operation::Xor,
        64,
        Operand::Register(0),
        second as int,
        first as int,
    );
    assert(next(whole, m) == Outcome::Running(m1)) by {
        reveal(performed);
    }
    assert(m1.registers == m.registers.update(0, first ^ second) && m1.memory == m.memory && m1.at
        == m.at + 3) by {
        reveal(after_operation);
    }
    registers_hold_their_numbers(first ^ second, s.width.signed);
    already_there(whole, m1);
    step_before_arrival(whole, m, m1, m1.at, first ^ second);
}

/// Whether an operator compares.
pub open spec fn compares(operator: BinaryOperator) -> bool {
    operator == BinaryOperator::Equal || operator == BinaryOperator::NotEqual || operator
        == BinaryOperator::Less || operator == BinaryOperator::LessEqual || operator
        == BinaryOperator::Greater || operator == BinaryOperator::GreaterEqual
}

/// The code of a comparison gives one where it holds and zero where it does not.
proof fn comparison_is_computed<R: ConstantResolver, const P: usize, const N: usize>(
    whole: Seq<u8>,
    f: Frame<R, P, N>,
    s: Emission,
    operator: BinaryOperator,
    m: Machine,
    left: int,
    right: int,
)
    requires
        compares(operator),
        true_width(s.width),
        emitted_binary(f, s, operator).failure is None,
        stands(whole, s, emitted_binary(f, s, operator)),
        operands_stand(s, m, left, right),
    ensures
        gives(
            whole,
            m,
            emitted_binary(f, s, operator).code.len() as int,
            operator_result(operator, left, right, s.width, s.overflow_checks),
        ),
{
    reveal(emitted_binary);
    let code = code_of_condition(operator, s.width.signed);
    let bytes = [0x48u8, 0x39, 0xc1, 0x0f, code, 0xc0, 0x0f, 0xb6, 0xc0]@;
    put_grows(f, s, bytes);
    put_stands(whole, f, s, bytes);
    assert(bytes[0] == 0x48 && bytes[1] == 0x39 && bytes[2] == 0xc1 && bytes[3] == 0x0f && bytes[4]
        == code && bytes[5] == 0xc0 && bytes[6] == 0x0f && bytes[7] == 0xb6 && bytes[8] == 0xc0);
    compare_rcx_rax_is_read(whole, m.at);
    let m1 = after_operation(
        Machine { at: m.at + 3, ..m },
        Operation::Compare,
        64,
        Operand::Register(1),
        m.registers[1] as int,
        m.registers[0] as int,
    );
    operation_leads(whole, m, Operation::Compare, 1, 0, 3);
    difference_tells(Machine { at: m.at + 3, ..m }, Operation::Compare, left, right, s.width);
    answer_al_is_read(whole, m1.at, code);
    let holds = operator_result(operator, left, right, s.width, s.overflow_checks) == Some(1int);
    assert(meets(m1, code - 0x90) == holds);
    assert(meets(Machine { at: m1.at + 3, ..m1 }, code - 0x90) == holds);
    let value: u64 = if holds {
        1
    } else {
        0
    };
    let rax = m1.registers[0];
    let m2 = Machine {
        registers: m1.registers.update(0, (rax - rax as int % 0x100 + value) as u64),
        at: m1.at + 3,
        ..m1
    };
    assert(next(whole, m1) == Outcome::Running(m2)) by {
        reveal(performed);
    }
    widen_al_is_read(whole, m2.at);
    let m3 = Machine { registers: m2.registers.update(0, value), at: m2.at + 3, ..m2 };
    assert(next(whole, m2) == Outcome::Running(m3)) by {
        reveal(performed);
        assert(m2.registers[0] as int % 0x100 == value);
    }
    already_there(whole, m3);
    step_before_arrival(whole, m2, m3, m3.at, value);
    step_before_arrival(whole, m1, m2, m3.at, value);
    step_before_arrival(whole, m, m1, m3.at, value);
}

/// The code that exchanges `rcx` and `rax`.
proof fn exchange_leads(whole: Seq<u8>, m: Machine)
    requires
        0 <= m.at,
        m.at + 3 <= whole.len(),
        m.registers.len() == 16,
        whole[m.at] == 0x48,
        whole[m.at + 1] == 0x87,
        whole[m.at + 2] == 0xc1,
    ensures
        next(whole, m) == Outcome::Running(
            Machine {
                registers: m.registers.update(1, m.registers[0]).update(0, m.registers[1]),
                at: m.at + 3,
                ..m
            },
        ),
{
    exchange_rcx_rax_is_read(whole, m.at);
    reveal(performed);
}

/// What a product of two registers is, and what the flags tell of it.
proof fn signed_product_tells(left: int, right: int, width: RuntimeWidth)
    requires
        true_width(width),
        width.signed,
        in_width(left, width),
        in_width(right, width),
    ensures
        with_sign(register_of(left) as int, 64) == left,
        with_sign(register_of(right) as int, 64) == right,
        width.bits == 64 ==> (with_sign(left * right % register_modulus(), 64) != left * right)
            == !in_width(left * right, width),
        width.bits < 64 ==> number_in(register_of(left * right), true) == left * right,
{
    near_registers(left);
    near_registers(right);
    let product = left * right;
    if width.bits < 64 {
        assert(-0x4000_0000_0000_0000 <= product <= 0x4000_0000_0000_0000) by (nonlinear_arith)
            requires
                product == left * right,
                -0x8000_0000 <= left < 0x8000_0000,
                -0x8000_0000 <= right < 0x8000_0000,
        ;
        near_registers(product);
    } else {
        if in_width(product, width) {
            near_registers(product);
        }
    }
}

proof fn product_tells(left: int, right: int, width: RuntimeWidth)
    requires
        true_width(width),
        !width.signed,
        in_width(left, width),
        in_width(right, width),
    ensures
        register_of(left) == left,
        register_of(right) == right,
        left * right >= 0,
        0 <= left * right / register_modulus() < register_modulus(),
        (left * right / register_modulus() == 0) == (left * right < register_modulus()),
        width.bits < 64 ==> left * right < register_modulus() && number_in(
            register_of(left * right),
            false,
        ) == left * right,
{
    near_registers(left);
    near_registers(right);
    let product = left * right;
    assert(product >= 0) by (nonlinear_arith)
        requires
            product == left * right,
            left >= 0,
            right >= 0,
    ;
    assert(product < 0x1_0000_0000_0000_0000 * 0x1_0000_0000_0000_0000) by (nonlinear_arith)
        requires
            product == left * right,
            0 <= left < 0x1_0000_0000_0000_0000,
            0 <= right < 0x1_0000_0000_0000_0000,
    ;
    if width.bits < 64 {
        assert(product < 0x1_0000_0000 * 0x1_0000_0000) by (nonlinear_arith)
            requires
                product == left * right,
                0 <= left < 0x1_0000_0000,
                0 <= right < 0x1_0000_0000,
        ;
    }
}

/// The code of a product gives the product of the numbers in `rcx` and `rax`.
#[verifier::rlimit(60)]
proof fn product_is_computed<R: ConstantResolver, const P: usize, const N: usize>(
    whole: Seq<u8>,
    f: Frame<R, P, N>,
    s: Emission,
    m: Machine,
    left: int,
    right: int,
)
    requires
        true_width(s.width),
        emitted_multiplication(f, s).failure is None,
        stands(whole, s, emitted_multiplication(f, s)),
        operands_stand(s, m, left, right),
    ensures
        gives(
            whole,
            m,
            emitted_multiplication(f, s).code.len() as int,
            operator_result(BinaryOperator::Multiply, left, right, s.width, s.overflow_checks),
        ),
{
    reveal(emitted_multiplication);
    let width = s.width;
    let product = left * right;
    let opcode: u8 = if width.signed {
        0x80
    } else {
        0x85
    };
    let exchange = [0x48u8, 0x87, 0xc1]@;
    let signed = [0x48u8, 0x0f, 0xaf, 0xc1]@;
    let unsigned = [0x48u8, 0xf7, 0xe1, 0x48, 0x85, 0xd2]@;
    let multiply = if width.signed {
        signed
    } else {
        unsigned
    };
    let a = put(f, s, exchange);
    let b = put(f, a, multiply);
    let end = emitted_multiplication(f, s);
    put_keeps(f, s, exchange);
    put_keeps(f, a, multiply);
    assert(end == result_fitted(f, b, opcode));
    fitting_keeps_failure(f, b, opcode);
    put_grows(f, a, multiply);
    put_grows(f, s, exchange);
    fitting_grows(f, b, opcode);
    grown_twice(s, a, b);
    both_parts_stand(whole, s, b, end);
    both_parts_stand(whole, s, a, b);
    put_stands(whole, f, s, exchange);
    assert(exchange[0] == 0x48 && exchange[1] == 0x87 && exchange[2] == 0xc1);
    exchange_leads(whole, m);
    let m1 = Machine {
        registers: m.registers.update(1, m.registers[0]).update(0, m.registers[1]),
        at: m.at + 3,
        ..m
    };
    put_stands(whole, f, a, multiply);
    let result = operator_result(BinaryOperator::Multiply, left, right, s.width, s.overflow_checks);
    let at = end.code.len() as int;
    if width.signed {
        assert(multiply[0] == 0x48 && multiply[1] == 0x0f && multiply[2] == 0xaf && multiply[3] == 0xc1);
        signed_multiply_rax_rcx_is_read(whole, m1.at);
        signed_product_tells(left, right, width);
        let m2 = with_flags(
            Machine {
                registers: m1.registers.update(0, register_of(product)),
                at: m1.at + 4,
                ..m1
            },
            register_of(product) as int,
            64,
            with_sign(register_of(product) as int, 64) != product,
            with_sign(register_of(product) as int, 64) != product,
        );
        assert(next(whole, m1) == Outcome::Running(m2)) by {
            reveal(performed);
        }
        result_is_fitted(whole, f, b, opcode, m2, product);
        gives_before_step(whole, m1, m2, at, result);
    } else {
        assert(multiply[0] == 0x48 && multiply[1] == 0xf7 && multiply[2] == 0xe1 && multiply[3] == 0x48
            && multiply[4] == 0x85 && multiply[5] == 0xd2);
        multiply_rcx_is_read(whole, m1.at);
        product_tells(left, right, width);
        let high = (product / register_modulus()) as u64;
        let m2 = with_flags(
            Machine {
                registers: m1.registers.update(0, register_of(product)).update(2, high),
                at: m1.at + 3,
                ..m1
            },
            register_of(product) as int,
            64,
            product >= register_modulus(),
            product >= register_modulus(),
        );
        assert(next(whole, m1) == Outcome::Running(m2)) by {
            reveal(performed);
            reveal(after_arithmetic);
        }
        test_rdx_rdx_is_read(whole, m2.at);
        operation_leads(whole, m2, Operation::Test, 2, 2, 3);
        let m3 = next(whole, m2)->Running_0;
        test_tells(Machine { at: m2.at + 3, ..m2 }, 2, high);
        result_is_fitted(whole, f, b, opcode, m3, product);
        gives_before_step(whole, m2, m3, at, result);
        gives_before_step(whole, m1, m2, at, result);
    }
    gives_before_step(whole, m, m1, at, result);
}

/// What the flags tell of a register that has been tested.
pub(crate) proof fn test_tells(m: Machine, number: int, value: u64)
    ensures
        ({
            let after = after_operation(
                m,
                Operation::Test,
                64,
                Operand::Register(number),
                value as int,
                value as int,
            );
            &&& after.registers == m.registers
            &&& after.memory == m.memory
            &&& after.at == m.at
            &&& after.zero == (value == 0)
        }),
{
    reveal(after_operation);
    assert(value & value == value) by (bit_vector);
}

/// Nothing is done to a number that is one of its width already.
proof fn normal_keeps_numbers<R: ConstantResolver, const P: usize, const N: usize>(
    whole: Seq<u8>,
    f: Frame<R, P, N>,
    s: Emission,
    m: Machine,
    number: int,
)
    requires
        true_width(s.width),
        emitted_normal(f, s).failure is None,
        stands(whole, s, emitted_normal(f, s)),
        m.at == s.code.len(),
        m.registers.len() == 16,
        m.registers[0] == register_of(number),
    ensures
        arrives(
            whole,
            m,
            emitted_normal(f, s).code.len() as int,
            register_of(wrapped(number, s.width)),
        ),
        in_width(number, s.width) ==> wrapped(number, s.width) == number,
{
    reveal(emitted_normal);
    low_bits_are_held(number, s.width);
    normal_width_wraps(whole, f, s, s.width, m, number);
}

/// The code of a negation gives the number with the other sign, or stops the program where there is
/// none.
#[verifier::rlimit(60)]
pub proof fn a_negation_has_the_other_sign<R: ConstantResolver, const P: usize, const N: usize>(
    whole: Seq<u8>,
    f: Frame<R, P, N>,
    s: Emission,
    m: Machine,
    number: int,
)
    requires
        true_width(s.width),
        s.width.signed,
        emitted_negated(f, s, s.width).failure is None,
        stands(whole, s, emitted_negated(f, s, s.width)),
        in_width(number, s.width) || s.width.bits < 64 && in_width(-number, s.width),
        m.at == s.code.len(),
        m.registers.len() == 16,
        m.registers[0] == register_of(number),
    ensures
        gives(
            whole,
            m,
            emitted_negated(f, s, s.width).code.len() as int,
            if in_width(-number, s.width) {
                Some(-number)
            } else if s.overflow_checks {
                None
            } else {
                Some(wrapped(-number, s.width))
            },
        ),
{
    reveal(emitted_negated);
    let width = s.width;
    let bytes = [0x48u8, 0xf7, 0xd8]@;
    let a = put(f, s, bytes);
    let b = if s.overflow_checks && width.bits == 64 {
        trapped(f, a, 0x80)
    } else if s.overflow_checks {
        emitted_range_check(f, a)
    } else {
        a
    };
    let end = emitted_negated(f, s, width);
    put_keeps(f, s, bytes);
    trap_keeps(f, a, 0x80);
    range_check_keeps(f, a);
    reveal(emitted_normal);
    normal_width_grows(f, b, b.width);
    if a.failure is Some {
        range_check_keeps_failure(f, a);
    }
    put_grows(f, s, bytes);
    trapped_grows(f, a, 0x80);
    range_check_grows(f, a);
    assert(grown(a, b)) by {
        reveal(grown);
    }
    grown_twice(s, a, b);
    both_parts_stand(whole, s, b, end);
    both_parts_stand(whole, s, a, b);
    put_stands(whole, f, s, bytes);
    assert(bytes[0] == 0x48 && bytes[1] == 0xf7 && bytes[2] == 0xd8);
    negate_rax_is_read(whole, m.at);
    near_registers(number);
    near_registers(-number);
    let value = m.registers[0] as int;
    near_registers(-value);
    let m1 = with_flags(
        Machine { registers: m.registers.update(0, register_of(-number)), at: m.at + 3, ..m },
        register_of(-number) as int,
        64,
        value != 0,
        2 * value == register_modulus(),
    );
    assert(next(whole, m) == Outcome::Running(m1)) by {
        reveal(performed);
        reveal(after_arithmetic);
        assert(-value % register_modulus() == -number % register_modulus());
    }
    let result = if in_width(-number, width) {
        Some(-number)
    } else if s.overflow_checks {
        None
    } else {
        Some(wrapped(-number, width))
    };
    let at = end.code.len() as int;
    low_bits_are_held(-number, width);
    if s.overflow_checks && width.bits == 64 {
        carry_check_leads(whole, f, a, 0x80, m1);
    } else if s.overflow_checks {
        range_check_stops_what_is_out_of_range(whole, f, a, m1);
    } else {
        already_there(whole, m1);
    }
    if result is None {
        step_before_stop(whole, m, m1);
    } else {
        let n = arrival(whole, m1, b.code.len() as int, register_of(-number));
        normal_keeps_numbers(whole, f, b, n, -number);
        gives_before(whole, m1, n, at, result);
        gives_before_step(whole, m, m1, at, result);
    }
}

proof fn range_check_keeps<R: ConstantResolver, const P: usize, const N: usize>(
    f: Frame<R, P, N>,
    s: Emission,
)
    ensures
        emitted_range_check(f, s).width == s.width,
        emitted_range_check(f, s).overflow_checks == s.overflow_checks,
{
    reveal(emitted_range_check);
    reveal(put);
    reveal(trapped);
}

/// The low bits of a count.
proof fn low_bits_of_a_count(value: u64)
    ensures
        value & 7 == value % 8,
        value & 15 == value % 16,
        value & 31 == value % 32,
        value & 63 == value % 64,
{
    assert(value & 7 == value % 8) by (bit_vector);
    assert(value & 15 == value % 16) by (bit_vector);
    assert(value & 31 == value % 32) by (bit_vector);
    assert(value & 63 == value % 64) by (bit_vector);
}

/// What shifts of registers are.
proof fn shift_tells(left: int, places: int, width: RuntimeWidth)
    requires
        true_width(width),
        in_width(left, width),
        0 <= places < 64,
    ensures
        shifted(Shifting::Left, 64, register_of(left) as int, places) == register_of(
            left * pow2(places as nat),
        ),
        width.signed ==> shifted(Shifting::SignedRight, 64, register_of(left) as int, places)
            == register_of(left / pow2(places as nat) as int),
        !width.signed ==> shifted(Shifting::Right, 64, register_of(left) as int, places)
            == register_of(left / pow2(places as nat) as int),
        in_width(left / pow2(places as nat) as int, width),
{
    reveal(shifted);
    lemma_pow2_pos(places as nat);
    let factor = pow2(places as nat) as int;
    near_registers(left);
    lemma_mul_mod_noop_left(left, factor, register_modulus());
    assert(left >= 0 ==> 0 <= left / factor <= left) by (nonlinear_arith)
        requires
            factor >= 1,
    ;
    assert(left < 0 ==> left <= left / factor < 0) by (nonlinear_arith)
        requires
            factor >= 1,
    ;
    near_registers(left / factor);
}

/// The code of a shift behind the exchange of its operands: the count is in `rcx`.
#[verifier::rlimit(60)]
proof fn shift_leads<R: ConstantResolver, const P: usize, const N: usize>(
    whole: Seq<u8>,
    f: Frame<R, P, N>,
    s: Emission,
    left_shift: bool,
    m: Machine,
    left: int,
    places: int,
)
    requires
        true_width(s.width),
        in_width(left, s.width),
        0 <= places < 64,
        s.failure is None,
        shift_done(f, s, left_shift).failure is None,
        stands(whole, s, shift_done(f, s, left_shift)),
        m.at == s.code.len(),
        m.registers.len() == 16,
        m.registers[0] == register_of(left),
        m.registers[1] == places,
    ensures
        arrives(
            whole,
            m,
            shift_done(f, s, left_shift).code.len() as int,
            register_of(
                if left_shift {
                    wrapped(left * pow2(places as nat), s.width)
                } else {
                    left / pow2(places as nat) as int
                },
            ),
        ),
{
    let width = s.width;
    let end = shift_done(f, s, left_shift);
    let bytes = if left_shift {
        [0x48u8, 0xd3, 0xe0]@
    } else if width.signed {
        [0x48u8, 0xd3, 0xf8]@
    } else {
        [0x48u8, 0xd3, 0xe8]@
    };
    let a = put(f, s, bytes);
    put_keeps(f, s, bytes);
    reveal(emitted_normal);
    normal_width_grows(f, a, a.width);
    put_grows(f, s, bytes);
    both_parts_stand(whole, s, a, end);
    put_stands(whole, f, s, bytes);
    assert(bytes[0] == 0x48 && bytes[1] == 0xd3);
    assert(bytes[2] == if left_shift {
        0xe0u8
    } else if width.signed {
        0xf8u8
    } else {
        0xe8u8
    });
    shift_tells(left, places, width);
    let number = if left_shift {
        left * pow2(places as nat)
    } else {
        left / pow2(places as nat) as int
    };
    let m1 = Machine { registers: m.registers.update(0, register_of(number)), at: m.at + 3, ..m };
    if left_shift {
        shift_left_rax_is_read(whole, m.at);
        assert(next(whole, m) == Outcome::Running(m1)) by {
            reveal(performed);
        }
    } else if width.signed {
        shift_signed_right_rax_is_read(whole, m.at);
        assert(next(whole, m) == Outcome::Running(m1)) by {
            reveal(performed);
        }
    } else {
        shift_right_rax_is_read(whole, m.at);
        assert(next(whole, m) == Outcome::Running(m1)) by {
            reveal(performed);
        }
    }
    normal_keeps_numbers(whole, f, a, m1, number);
    step_before_arrival(whole, m, m1, end.code.len() as int, register_of(wrapped(number, width)));
}

spec fn shift_done<R: ConstantResolver, const P: usize, const N: usize>(
    f: Frame<R, P, N>,
    s: Emission,
    left: bool,
) -> Emission {
    let s1 = put(
        f,
        s,
        if left {
            [0x48u8, 0xd3, 0xe0]@
        } else if s.width.signed {
            [0x48u8, 0xd3, 0xf8]@
        } else {
            [0x48u8, 0xd3, 0xe8]@
        },
    );
    emitted_normal(f, s1)
}

proof fn shift_done_grows<R: ConstantResolver, const P: usize, const N: usize>(
    f: Frame<R, P, N>,
    s: Emission,
    left: bool,
)
    ensures
        shift_done(f, s, left).failure is None ==> s.failure is None && grown(
            s,
            shift_done(f, s, left),
        ),
{
    let bytes = if left {
        [0x48u8, 0xd3, 0xe0]@
    } else if s.width.signed {
        [0x48u8, 0xd3, 0xf8]@
    } else {
        [0x48u8, 0xd3, 0xe8]@
    };
    let a = put(f, s, bytes);
    reveal(emitted_normal);
    normal_width_grows(f, a, a.width);
    put_grows(f, s, bytes);
    if shift_done(f, s, left).failure is None {
        grown_twice(s, a, shift_done(f, s, left));
    }
}

/// The low bits of a count, as the code of a shift takes them.
#[verifier::spinoff_prover]
proof fn count_is_masked(right: int, bits: int)
    requires
        bits == 8 || bits == 16 || bits == 32 || bits == 64,
        -register_modulus() <= right < register_modulus(),
    ensures
        ({
            let low = (register_of(right) as int % 0x1_0000_0000) as u64;
            low & ((bits - 1) as u64) == right % bits
        }),
{
    let low = (register_of(right) as int % 0x1_0000_0000) as u64;
    low_bits_of_a_count(low);
    near_registers(right);
    let count = register_of(right) as int;
    lemma_mod_mod(count, bits, 0x1_0000_0000int / bits);
    lemma_mod_mod(right, bits, register_modulus() / bits);
}

spec fn count_bounded<R: ConstantResolver, const P: usize, const N: usize>(
    f: Frame<R, P, N>,
    s: Emission,
) -> Emission {
    if s.overflow_checks {
        trapped(f, put(f, s, [0x48u8, 0x83, 0xf9, s.width.bits]@), 0x83)
    } else {
        put(f, s, [0x83u8, 0xe1, mask_of_shift(s.width.bits)]@)
    }
}

proof fn count_bounded_grows<R: ConstantResolver, const P: usize, const N: usize>(
    f: Frame<R, P, N>,
    s: Emission,
)
    ensures
        count_bounded(f, s).failure is None ==> s.failure is None && grown(s, count_bounded(f, s)),
        count_bounded(f, s).width == s.width,
{
    let compare = [0x48u8, 0x83, 0xf9, s.width.bits]@;
    let mask = [0x83u8, 0xe1, mask_of_shift(s.width.bits)]@;
    put_keeps(f, s, compare);
    put_keeps(f, s, mask);
    put_grows(f, s, compare);
    put_grows(f, s, mask);
    let b = put(f, s, compare);
    trap_keeps(f, b, 0x83);
    trapped_grows(f, b, 0x83);
    if s.overflow_checks && count_bounded(f, s).failure is None {
        grown_twice(s, b, trapped(f, b, 0x83));
    }
}

/// Whether a machine is another with a count bounded, behind some code.
spec fn counted(before: Machine, after: Machine, at: int, places: int) -> bool {
    &&& after.registers == before.registers.update(1, places as u64)
    &&& after.memory == before.memory
    &&& after.at == at
}

#[verifier::rlimit(60)]
proof fn count_is_checked<R: ConstantResolver, const P: usize, const N: usize>(
    whole: Seq<u8>,
    f: Frame<R, P, N>,
    s: Emission,
    m: Machine,
    right: int,
) -> (after: Machine)
    requires
        true_width(s.width),
        s.overflow_checks,
        count_bounded(f, s).failure is None,
        stands(whole, s, count_bounded(f, s)),
        in_width(right, s.width),
        m.at == s.code.len(),
        m.registers.len() == 16,
        m.registers[1] == register_of(right),
    ensures
        if 0 <= right < s.width.bits {
            leads(whole, m, Outcome::Running(after)) && counted(
                m,
                after,
                count_bounded(f, s).code.len() as int,
                right,
            )
        } else {
            leads(whole, m, Outcome::Trapped)
        },
{
    let bits = s.width.bits as int;
    let compare = [0x48u8, 0x83, 0xf9, s.width.bits]@;
    let b = put(f, s, compare);
    let end = trapped(f, b, 0x83);
    trapped_grows(f, b, 0x83);
    put_grows(f, s, compare);
    both_parts_stand(whole, s, b, end);
    put_stands(whole, f, s, compare);
    near_registers(right);
    let count = m.registers[1];
    assert(compare[0] == 0x48 && compare[1] == 0x83 && compare[2] == 0xf9 && compare[3]
        == s.width.bits);
    compare_rcx_short_is_read(whole, m.at);
    let m2 = after_operation(
        Machine { at: m.at + 4, ..m },
        Operation::Compare,
        64,
        Operand::Register(1),
        count as int,
        bits,
    );
    assert(next(whole, m) == Outcome::Running(m2)) by {
        reveal(performed);
    }
    assert(m2.registers == m.registers && m2.memory == m.memory && m2.at == m.at + 4 && m2.carry
        == (count < bits)) by {
        reveal(after_operation);
    }
    trapped_stands(whole, f, b, 0x83);
    trap_branch_leads(whole, m2, 0x83);
    let m3 = Machine { at: m2.at + 6, ..m2 };
    if count < bits {
        assert(m.registers.update(1, right as u64) =~= m.registers);
        stays(whole, m3);
        next_leads_on(whole, m2, m3, Outcome::Running(m3));
        next_leads_on(whole, m, m2, Outcome::Running(m3));
    } else {
        next_leads_on(whole, m, m2, Outcome::Trapped);
    }
    m3
}

#[verifier::rlimit(60)]
proof fn count_wraps<R: ConstantResolver, const P: usize, const N: usize>(
    whole: Seq<u8>,
    f: Frame<R, P, N>,
    s: Emission,
    m: Machine,
    right: int,
) -> (after: Machine)
    requires
        true_width(s.width),
        !s.overflow_checks,
        count_bounded(f, s).failure is None,
        stands(whole, s, count_bounded(f, s)),
        in_width(right, s.width),
        m.at == s.code.len(),
        m.registers.len() == 16,
        m.registers[1] == register_of(right),
    ensures
        leads(whole, m, Outcome::Running(after)),
        counted(m, after, count_bounded(f, s).code.len() as int, right % (s.width.bits as int)),
{
    let bits = s.width.bits as int;
    let mask = [0x83u8, 0xe1, mask_of_shift(s.width.bits)]@;
    put_grows(f, s, mask);
    put_stands(whole, f, s, mask);
    assert(mask[0] == 0x83 && mask[1] == 0xe1 && mask[2] == bits - 1);
    and_ecx_short_is_read(whole, m.at);
    count_is_masked(right, bits);
    let places = right % bits;
    let m2 = with_flags(
        Machine { registers: m.registers.update(1, places as u64), at: m.at + 3, ..m },
        places,
        32,
        false,
        false,
    );
    assert(next(whole, m) == Outcome::Running(m2)) by {
        reveal(performed);
        reveal(after_operation);
        assert((bits - 1) % 0x1_0000_0000 == bits - 1);
    }
    next_leads(whole, m);
    m2
}

/// The code of a shift gives the number in `rcx`, shifted by the number in `rax`.
#[verifier::rlimit(60)]
proof fn shift_is_computed<R: ConstantResolver, const P: usize, const N: usize>(
    whole: Seq<u8>,
    f: Frame<R, P, N>,
    s: Emission,
    left_shift: bool,
    m: Machine,
    left: int,
    right: int,
)
    requires
        true_width(s.width),
        emitted_shift(f, s, left_shift).failure is None,
        stands(whole, s, emitted_shift(f, s, left_shift)),
        operands_stand(s, m, left, right),
    ensures
        gives(
            whole,
            m,
            emitted_shift(f, s, left_shift).code.len() as int,
            operator_result(
                if left_shift {
                    BinaryOperator::ShiftLeft
                } else {
                    BinaryOperator::ShiftRight
                },
                left,
                right,
                s.width,
                s.overflow_checks,
            ),
        ),
{
    let width = s.width;
    let bits = width.bits as int;
    let exchange = [0x48u8, 0x87, 0xc1]@;
    let checks = s.overflow_checks;
    let a = put(f, s, exchange);
    let c = count_bounded(f, a);
    let end = emitted_shift(f, s, left_shift);
    put_keeps(f, s, exchange);
    count_bounded_grows(f, a);
    assert(end == shift_done(f, c, left_shift)) by {
        reveal(emitted_shift);
    }
    shift_done_grows(f, c, left_shift);
    put_grows(f, s, exchange);
    grown_twice(s, a, c);
    both_parts_stand(whole, s, c, end);
    both_parts_stand(whole, s, a, c);
    put_stands(whole, f, s, exchange);
    assert(exchange[0] == 0x48 && exchange[1] == 0x87 && exchange[2] == 0xc1);
    exchange_leads(whole, m);
    let m1 = Machine {
        registers: m.registers.update(1, m.registers[0]).update(0, m.registers[1]),
        at: m.at + 3,
        ..m
    };
    let result = operator_result(
        if left_shift {
            BinaryOperator::ShiftLeft
        } else {
            BinaryOperator::ShiftRight
        },
        left,
        right,
        width,
        checks,
    );
    let at = end.code.len() as int;
    assert(0 <= right < bits ==> right % bits == right) by (nonlinear_arith);
    if checks {
        let m3 = count_is_checked(whole, f, a, m1, right);
        if 0 <= right < bits {
            shift_leads(whole, f, c, left_shift, m3, left, right);
            gives_before(whole, m1, m3, at, result);
            gives_before_step(whole, m, m1, at, result);
        } else {
            step_before_stop(whole, m, m1);
        }
    } else {
        let m2 = count_wraps(whole, f, a, m1, right);
        assert(0 <= right % bits < bits) by (nonlinear_arith)
            requires
                bits > 0,
        ;
        shift_leads(whole, f, c, left_shift, m2, left, right % bits);
        gives_before(whole, m1, m2, at, result);
        gives_before_step(whole, m, m1, at, result);
    }
}

/// Whether a machine is another with two operands exchanged, behind some code. `rdx` may differ.
spec fn exchanged(before: Machine, after: Machine, at: int) -> bool {
    &&& untouched(before, after)
    &&& after.registers[0] == before.registers[1]
    &&& after.registers[1] == before.registers[0]
    &&& after.at == at
}

spec fn divisor_tested<R: ConstantResolver, const P: usize, const N: usize>(
    f: Frame<R, P, N>,
    s: Emission,
) -> Emission {
    trapped(f, put(f, s, [0x48u8, 0x87, 0xc1, 0x48, 0x85, 0xc9]@), 0x84)
}

proof fn divisor_tested_grows<R: ConstantResolver, const P: usize, const N: usize>(
    f: Frame<R, P, N>,
    s: Emission,
)
    ensures
        divisor_tested(f, s).failure is None ==> s.failure is None && grown(s, divisor_tested(f, s)),
        divisor_tested(f, s).width == s.width,
{
    let bytes = [0x48u8, 0x87, 0xc1, 0x48, 0x85, 0xc9]@;
    put_keeps(f, s, bytes);
    put_grows(f, s, bytes);
    let b = put(f, s, bytes);
    trap_keeps(f, b, 0x84);
    trapped_grows(f, b, 0x84);
    if divisor_tested(f, s).failure is None {
        grown_twice(s, b, divisor_tested(f, s));
    }
}

/// A division by zero stops the program.
#[verifier::rlimit(60)]
proof fn zero_divisor_stops<R: ConstantResolver, const P: usize, const N: usize>(
    whole: Seq<u8>,
    f: Frame<R, P, N>,
    s: Emission,
    m: Machine,
) -> (after: Machine)
    requires
        divisor_tested(f, s).failure is None,
        stands(whole, s, divisor_tested(f, s)),
        m.at == s.code.len(),
        m.registers.len() == 16,
    ensures
        if m.registers[0] == 0 {
            leads(whole, m, Outcome::Trapped)
        } else {
            leads(whole, m, Outcome::Running(after)) && exchanged(
                m,
                after,
                divisor_tested(f, s).code.len() as int,
            )
        },
{
    let bytes = [0x48u8, 0x87, 0xc1, 0x48, 0x85, 0xc9]@;
    let b = put(f, s, bytes);
    let end = trapped(f, b, 0x84);
    trapped_grows(f, b, 0x84);
    put_grows(f, s, bytes);
    both_parts_stand(whole, s, b, end);
    put_stands(whole, f, s, bytes);
    assert(bytes[0] == 0x48 && bytes[1] == 0x87 && bytes[2] == 0xc1 && bytes[3] == 0x48 && bytes[4]
        == 0x85 && bytes[5] == 0xc9);
    exchange_leads(whole, m);
    let m1 = Machine {
        registers: m.registers.update(1, m.registers[0]).update(0, m.registers[1]),
        at: m.at + 3,
        ..m
    };
    test_rcx_rcx_is_read(whole, m1.at);
    operation_leads(whole, m1, Operation::Test, 1, 1, 3);
    test_tells(Machine { at: m1.at + 3, ..m1 }, 1, m1.registers[1]);
    let m2 = after_operation(
        Machine { at: m1.at + 3, ..m1 },
        Operation::Test,
        64,
        Operand::Register(1),
        m1.registers[1] as int,
        m1.registers[1] as int,
    );
    trapped_stands(whole, f, b, 0x84);
    trap_branch_leads(whole, m2, 0x84);
    let m3 = Machine { at: m2.at + 6, ..m2 };
    if m.registers[0] == 0 {
        next_leads_on(whole, m1, m2, Outcome::Trapped);
        next_leads_on(whole, m, m1, Outcome::Trapped);
    } else {
        stays(whole, m3);
        next_leads_on(whole, m2, m3, Outcome::Running(m3));
        next_leads_on(whole, m1, m2, Outcome::Running(m3));
        next_leads_on(whole, m, m1, Outcome::Running(m3));
    }
    m3
}

spec fn quotient_guarded<R: ConstantResolver, const P: usize, const N: usize>(
    f: Frame<R, P, N>,
    s: Emission,
    minimum: u64,
) -> Emission {
    let s1 = put(f, s, [0x48u8, 0x83, 0xf9, 0xff, 0x75, 19]@);
    let s2 = put(f, put(f, s1, [0x48u8, 0xba]@), quad_bytes(minimum as int));
    let s3 = put(f, s2, [0x48u8, 0x39, 0xd0]@);
    trapped(f, s3, 0x84)
}

proof fn quotient_guarded_grows<R: ConstantResolver, const P: usize, const N: usize>(
    f: Frame<R, P, N>,
    s: Emission,
    minimum: u64,
)
    ensures
        quotient_guarded(f, s, minimum).failure is None ==> s.failure is None && grown(
            s,
            quotient_guarded(f, s, minimum),
        ),
        quotient_guarded(f, s, minimum).width == s.width,
        quotient_guarded(f, s, minimum).failure is None ==> quotient_guarded(
            f,
            s,
            minimum,
        ).code.len() == s.code.len() + 25,
{
    let bytes = [0x48u8, 0x83, 0xf9, 0xff, 0x75, 19]@;
    let opening = [0x48u8, 0xba]@;
    let quad = quad_bytes(minimum as int);
    let comparison = [0x48u8, 0x39, 0xd0]@;
    let s1 = put(f, s, bytes);
    let s2 = put(f, s1, opening);
    let s3 = put(f, s2, quad);
    let s4 = put(f, s3, comparison);
    let end = trapped(f, s4, 0x84);
    put_keeps(f, s, bytes);
    put_keeps(f, s1, opening);
    put_keeps(f, s2, quad);
    put_keeps(f, s3, comparison);
    trap_keeps(f, s4, 0x84);
    put_grows(f, s, bytes);
    put_grows(f, s1, opening);
    put_grows(f, s2, quad);
    put_grows(f, s3, comparison);
    trapped_grows(f, s4, 0x84);
    if end.failure is None {
        grown_twice(s, s1, s2);
        grown_twice(s, s2, s3);
        grown_twice(s, s3, s4);
        grown_twice(s, s4, end);
    }
}

/// A least number that is divided by minus one stops the program.
#[verifier::rlimit(60)]
proof fn greatest_quotient_stops<R: ConstantResolver, const P: usize, const N: usize>(
    whole: Seq<u8>,
    f: Frame<R, P, N>,
    s: Emission,
    minimum: u64,
    m: Machine,
) -> (after: Machine)
    requires
        quotient_guarded(f, s, minimum).failure is None,
        stands(whole, s, quotient_guarded(f, s, minimum)),
        m.at == s.code.len(),
        m.registers.len() == 16,
    ensures
        if m.registers[1] == 0xffff_ffff_ffff_ffff && m.registers[0] == minimum {
            leads(whole, m, Outcome::Trapped)
        } else {
            &&& leads(whole, m, Outcome::Running(after))
            &&& untouched(m, after)
            &&& after.registers[0] == m.registers[0]
            &&& after.registers[1] == m.registers[1]
            &&& after.at == quotient_guarded(f, s, minimum).code.len()
        },
{
    let bytes = [0x48u8, 0x83, 0xf9, 0xff, 0x75, 19]@;
    let comparison = [0x48u8, 0x39, 0xd0]@;
    let s1 = put(f, s, bytes);
    let s2 = put(f, put(f, s1, [0x48u8, 0xba]@), quad_bytes(minimum as int));
    let s3 = put(f, s2, comparison);
    let end = trapped(f, s3, 0x84);
    quotient_guarded_grows(f, s, minimum);
    trapped_grows(f, s3, 0x84);
    put_grows(f, s2, comparison);
    put_grows(f, put(f, s1, [0x48u8, 0xba]@), quad_bytes(minimum as int));
    put_grows(f, s1, [0x48u8, 0xba]@);
    put_grows(f, s, bytes);
    grown_twice(s1, put(f, s1, [0x48u8, 0xba]@), s2);
    grown_twice(s, s1, s2);
    grown_twice(s, s2, s3);
    both_parts_stand(whole, s, s3, end);
    both_parts_stand(whole, s, s2, s3);
    both_parts_stand(whole, s, s1, s2);
    put_stands(whole, f, s, bytes);
    assert(bytes[0] == 0x48 && bytes[1] == 0x83 && bytes[2] == 0xf9 && bytes[3] == 0xff && bytes[4]
        == 0x75 && bytes[5] == 19);
    compare_rcx_short_is_read(whole, m.at);
    let m1 = after_operation(
        Machine { at: m.at + 4, ..m },
        Operation::Compare,
        64,
        Operand::Register(1),
        m.registers[1] as int,
        0xffff_ffff_ffff_ffff,
    );
    assert(next(whole, m) == Outcome::Running(m1)) by {
        reveal(performed);
        assert(-1int % 0x1_0000_0000_0000_0000 == 0xffff_ffff_ffff_ffff);
    }
    short_branch_not_zero_is_read(whole, m.at + 4);
    compared_registers(Machine { at: m.at + 4, ..m }, 1, m.registers[1], 0xffff_ffff_ffff_ffff);
    if m.registers[1] != 0xffff_ffff_ffff_ffff {
        let m2 = Machine { at: m.at + 25, ..m1 };
        assert(next(whole, m1) == Outcome::Running(m2)) by {
            reveal(performed);
        }
        stays(whole, m2);
        next_leads_on(whole, m1, m2, Outcome::Running(m2));
        next_leads_on(whole, m, m1, Outcome::Running(m2));
        m2
    } else {
        let m2 = Machine { at: m.at + 6, ..m1 };
        assert(next(whole, m1) == Outcome::Running(m2)) by {
            reveal(performed);
        }
        rdx_is_loaded(whole, f, s1, minimum, m2);
        let m3 = Machine { registers: m2.registers.update(2, minimum), at: m2.at + 10, ..m2 };
        put_stands(whole, f, s2, comparison);
        assert(comparison[0] == 0x48 && comparison[1] == 0x39 && comparison[2] == 0xd0);
        compare_rax_rdx_is_read(whole, m3.at);
        operation_leads(whole, m3, Operation::Compare, 0, 2, 3);
        compared_registers(Machine { at: m3.at + 3, ..m3 }, 0, m3.registers[0], minimum);
        let m4 = after_operation(
            Machine { at: m3.at + 3, ..m3 },
            Operation::Compare,
            64,
            Operand::Register(0),
            m3.registers[0] as int,
            minimum as int,
        );
        trapped_stands(whole, f, s3, 0x84);
        trap_branch_leads(whole, m4, 0x84);
        let m5 = Machine { at: m4.at + 6, ..m4 };
        let outcome = if m.registers[0] == minimum {
            Outcome::Trapped
        } else {
            stays(whole, m5);
            next_leads_on(whole, m4, m5, Outcome::Running(m5));
            Outcome::Running(m5)
        };
        next_leads_on(whole, m3, m4, outcome);
        next_leads_on(whole, m2, m3, outcome);
        next_leads_on(whole, m1, m2, outcome);
        next_leads_on(whole, m, m1, outcome);
        m5
    }
}

/// What a comparison of two numbers tells of their equality.
proof fn compared_registers(m: Machine, number: int, left: u64, right: u64)
    ensures
        ({
            let after = after_operation(
                m,
                Operation::Compare,
                64,
                Operand::Register(number),
                left as int,
                right as int,
            );
            &&& after.registers == m.registers
            &&& after.memory == m.memory
            &&& after.at == m.at
            &&& after.zero == (left == right)
        }),
{
    reveal(after_operation);
    near_registers(left - right);
}

/// Whether a machine is another with a quotient and its remainder, behind some code.
spec fn divided(before: Machine, after: Machine, at: int, left: int, right: int) -> bool {
    &&& untouched(before, after)
    &&& after.registers[0] == register_of(quotient(left, right))
    &&& after.registers[2] == register_of(left - quotient(left, right) * right)
    &&& after.at == at
}

/// What a quotient without its fraction and its remainder are.
#[verifier::spinoff_prover]
proof fn quotient_tells(left: int, right: int, width: RuntimeWidth)
    requires
        true_width(width),
        in_width(left, width),
        in_width(right, width),
        right != 0,
    ensures
        width.signed ==> (in_width(quotient(left, right), width) <==> !(right == -1 && left
            == -size_modulus(width.bits as int) / 2)),
        !width.signed ==> in_width(quotient(left, right), width),
        !width.signed ==> quotient(left, right) == left / right,
        !width.signed ==> left - quotient(left, right) * right == left % right,
        in_width(left - quotient(left, right) * right, width),
{
    let above = if left < 0 {
        -left
    } else {
        left
    };
    let below = if right < 0 {
        -right
    } else {
        right
    };
    let ratio = above / below;
    assert(0 <= ratio <= above && (below >= 2 ==> 2 * ratio <= above) && (below == 1 ==> ratio
        == above)) by (nonlinear_arith)
        requires
            above >= 0,
            below >= 1,
            ratio == above / below,
    ;
    assert(0 <= above - ratio * below < below && above - ratio * below == above % below)
        by (nonlinear_arith)
        requires
            above >= 0,
            below >= 1,
            ratio == above / below,
    ;
    let result = quotient(left, right);
    assert(result * right == if left < 0 {
        -(ratio * below)
    } else {
        ratio * below
    }) by (nonlinear_arith)
        requires
            below == if right < 0 {
                -right
            } else {
                right
            },
            result == if (left < 0) == (right < 0) {
                ratio
            } else {
                -ratio
            },
    ;
}

proof fn unsigned_division_leads<R: ConstantResolver, const P: usize, const N: usize>(
    whole: Seq<u8>,
    f: Frame<R, P, N>,
    s: Emission,
    m: Machine,
    left: int,
    right: int,
) -> (after: Machine)
    requires
        true_width(s.width),
        !s.width.signed,
        right != 0,
        in_width(left, s.width),
        in_width(right, s.width),
        put(f, s, [0x48u8, 0x31, 0xd2, 0x48, 0xf7, 0xf1]@).failure is None,
        stands(whole, s, put(f, s, [0x48u8, 0x31, 0xd2, 0x48, 0xf7, 0xf1]@)),
        m.at == s.code.len(),
        m.registers.len() == 16,
        m.registers[0] == register_of(left),
        m.registers[1] == register_of(right),
    ensures
        leads(whole, m, Outcome::Running(after)),
        divided(
            m,
            after,
            put(f, s, [0x48u8, 0x31, 0xd2, 0x48, 0xf7, 0xf1]@).code.len() as int,
            left,
            right,
        ),
{
    let bytes = [0x48u8, 0x31, 0xd2, 0x48, 0xf7, 0xf1]@;
    put_grows(f, s, bytes);
    put_stands(whole, f, s, bytes);
    assert(bytes[0] == 0x48 && bytes[1] == 0x31 && bytes[2] == 0xd2 && bytes[3] == 0x48 && bytes[4]
        == 0xf7 && bytes[5] == 0xf1);
    near_registers(left);
    near_registers(right);
    quotient_tells(left, right, s.width);
    xor_rdx_rdx_is_read(whole, m.at);
    operation_leads(whole, m, Operation::Xor, 2, 2, 3);
    let m1 = after_operation(
        Machine { at: m.at + 3, ..m },
        Operation::Xor,
        64,
        Operand::Register(2),
        m.registers[2] as int,
        m.registers[2] as int,
    );
    assert(m1.registers == m.registers.update(2, 0) && m1.memory == m.memory && m1.at == m.at + 3)
        by {
        reveal(after_operation);
        let value = m.registers[2];
        assert(value ^ value == 0) by (bit_vector);
    }
    divide_rcx_is_read(whole, m1.at);
    let result = quotient(left, right);
    let rest = left - result * right;
    near_registers(result);
    near_registers(rest);
    let m2 = Machine {
        registers: m1.registers.update(0, register_of(result)).update(2, register_of(rest)),
        at: m1.at + 3,
        ..m1
    };
    assert(next(whole, m1) == Outcome::Running(m2)) by {
        reveal(performed);
        reveal(after_arithmetic);
    }
    stays(whole, m2);
    next_leads_on(whole, m1, m2, Outcome::Running(m2));
    next_leads_on(whole, m, m1, Outcome::Running(m2));
    m2
}

#[verifier::rlimit(60)]
proof fn signed_division_leads<R: ConstantResolver, const P: usize, const N: usize>(
    whole: Seq<u8>,
    f: Frame<R, P, N>,
    s: Emission,
    m: Machine,
    left: int,
    right: int,
) -> (after: Machine)
    requires
        true_width(s.width),
        s.width.signed,
        right != 0,
        in_width(left, s.width),
        in_width(right, s.width),
        in_width(quotient(left, right), s.width),
        put(f, s, [0x48u8, 0x99, 0x48, 0xf7, 0xf9]@).failure is None,
        stands(whole, s, put(f, s, [0x48u8, 0x99, 0x48, 0xf7, 0xf9]@)),
        m.at == s.code.len(),
        m.registers.len() == 16,
        m.registers[0] == register_of(left),
        m.registers[1] == register_of(right),
    ensures
        leads(whole, m, Outcome::Running(after)),
        divided(
            m,
            after,
            put(f, s, [0x48u8, 0x99, 0x48, 0xf7, 0xf9]@).code.len() as int,
            left,
            right,
        ),
{
    let bytes = [0x48u8, 0x99, 0x48, 0xf7, 0xf9]@;
    put_grows(f, s, bytes);
    put_stands(whole, f, s, bytes);
    assert(bytes[0] == 0x48 && bytes[1] == 0x99 && bytes[2] == 0x48 && bytes[3] == 0xf7 && bytes[4]
        == 0xf9);
    near_registers(left);
    near_registers(right);
    quotient_tells(left, right, s.width);
    spread_sign_is_read(whole, m.at);
    let m1 = Machine {
        registers: m.registers.update(
            2,
            if left < 0 {
                0xffff_ffff_ffff_ffff
            } else {
                0u64
            },
        ),
        at: m.at + 2,
        ..m
    };
    assert(next(whole, m) == Outcome::Running(m1)) by {
        reveal(performed);
    }
    signed_divide_rcx_is_read(whole, m1.at);
    let result = quotient(left, right);
    let rest = left - result * right;
    let m2 = Machine {
        registers: m1.registers.update(0, register_of(result)).update(2, register_of(rest)),
        at: m1.at + 3,
        ..m1
    };
    assert(with_sign(m1.registers[2] as int, 64) * register_modulus() + m1.registers[0] as int
        == left);
    assert(with_sign(m1.registers[1] as int, 64) == right);
    assert(next(whole, m1) == Outcome::Running(m2)) by {
        reveal(performed);
        reveal(after_arithmetic);
    }
    stays(whole, m2);
    next_leads_on(whole, m1, m2, Outcome::Running(m2));
    next_leads_on(whole, m, m1, Outcome::Running(m2));
    m2
}

spec fn division_done<R: ConstantResolver, const P: usize, const N: usize>(
    f: Frame<R, P, N>,
    s: Emission,
    remainder: bool,
) -> Emission {
    emitted_normal(
        f,
        if remainder {
            put(f, s, [0x48u8, 0x89, 0xd0]@)
        } else {
            s
        },
    )
}

proof fn division_done_grows<R: ConstantResolver, const P: usize, const N: usize>(
    f: Frame<R, P, N>,
    s: Emission,
    remainder: bool,
)
    ensures
        division_done(f, s, remainder).failure is None ==> s.failure is None && grown(
            s,
            division_done(f, s, remainder),
        ),
{
    let a = put(f, s, [0x48u8, 0x89, 0xd0]@);
    reveal(emitted_normal);
    normal_width_grows(f, a, a.width);
    normal_width_grows(f, s, s.width);
    put_grows(f, s, [0x48u8, 0x89, 0xd0]@);
    if remainder && division_done(f, s, remainder).failure is None {
        grown_twice(s, a, division_done(f, s, remainder));
    }
}

proof fn division_done_leads<R: ConstantResolver, const P: usize, const N: usize>(
    whole: Seq<u8>,
    f: Frame<R, P, N>,
    s: Emission,
    remainder: bool,
    m: Machine,
    result: int,
    rest: int,
)
    requires
        true_width(s.width),
        in_width(result, s.width),
        in_width(rest, s.width),
        division_done(f, s, remainder).failure is None,
        stands(whole, s, division_done(f, s, remainder)),
        m.at == s.code.len(),
        m.registers.len() == 16,
        m.registers[0] == register_of(result),
        m.registers[2] == register_of(rest),
    ensures
        arrives(
            whole,
            m,
            division_done(f, s, remainder).code.len() as int,
            register_of(
                if remainder {
                    rest
                } else {
                    result
                },
            ),
        ),
{
    let bytes = [0x48u8, 0x89, 0xd0]@;
    let a = put(f, s, bytes);
    let end = division_done(f, s, remainder);
    if remainder {
        put_keeps(f, s, bytes);
        reveal(emitted_normal);
        normal_width_grows(f, a, a.width);
        put_grows(f, s, bytes);
        both_parts_stand(whole, s, a, end);
        put_stands(whole, f, s, bytes);
        assert(bytes[0] == 0x48 && bytes[1] == 0x89 && bytes[2] == 0xd0);
        move_rax_rdx_is_read(whole, m.at);
        let m1 = Machine { registers: m.registers.update(0, register_of(rest)), at: m.at + 3, ..m };
        assert(next(whole, m) == Outcome::Running(m1)) by {
            reveal(performed);
        }
        normal_keeps_numbers(whole, f, a, m1, rest);
        step_before_arrival(whole, m, m1, end.code.len() as int, register_of(rest));
    } else {
        normal_keeps_numbers(whole, f, s, m, result);
    }
}

/// The code of a division gives the quotient or the remainder of the number in `rcx` and the number
/// in `rax`.
#[verifier::rlimit(60)]
proof fn division_is_computed<R: ConstantResolver, const P: usize, const N: usize>(
    whole: Seq<u8>,
    f: Frame<R, P, N>,
    s: Emission,
    remainder: bool,
    m: Machine,
    left: int,
    right: int,
)
    requires
        true_width(s.width),
        emitted_division(f, s, remainder).failure is None,
        stands(whole, s, emitted_division(f, s, remainder)),
        operands_stand(s, m, left, right),
    ensures
        gives(
            whole,
            m,
            emitted_division(f, s, remainder).code.len() as int,
            operator_result(
                if remainder {
                    BinaryOperator::Remainder
                } else {
                    BinaryOperator::Divide
                },
                left,
                right,
                s.width,
                s.overflow_checks,
            ),
        ),
{
    let width = s.width;
    let signed_bytes = [0x48u8, 0x99, 0x48, 0xf7, 0xf9]@;
    let unsigned_bytes = [0x48u8, 0x31, 0xd2, 0x48, 0xf7, 0xf1]@;
    let a = divisor_tested(f, s);
    let guarded = quotient_guarded(f, a, width.minimum);
    let b = if width.signed {
        guarded
    } else {
        a
    };
    let bytes = if width.signed {
        signed_bytes
    } else {
        unsigned_bytes
    };
    let c = put(f, b, bytes);
    let end = emitted_division(f, s, remainder);
    assert(end == division_done(f, c, remainder)) by {
        reveal(emitted_division);
    }
    divisor_tested_grows(f, s);
    quotient_guarded_grows(f, a, width.minimum);
    put_keeps(f, b, bytes);
    division_done_grows(f, c, remainder);
    put_grows(f, b, bytes);
    assert(grown(a, b)) by {
        reveal(grown);
    }
    grown_twice(s, a, b);
    grown_twice(s, b, c);
    both_parts_stand(whole, s, c, end);
    both_parts_stand(whole, s, b, c);
    both_parts_stand(whole, s, a, b);
    let result = operator_result(
        if remainder {
            BinaryOperator::Remainder
        } else {
            BinaryOperator::Divide
        },
        left,
        right,
        width,
        s.overflow_checks,
    );
    let at = end.code.len() as int;
    near_registers(left);
    near_registers(right);
    let m1 = zero_divisor_stops(whole, f, s, m);
    if right != 0 {
        quotient_tells(left, right, width);
        if width.signed {
            let least = -size_modulus(width.bits as int) / 2;
            near_registers(least);
            let m2 = greatest_quotient_stops(whole, f, a, width.minimum, m1);
            if in_width(quotient(left, right), width) {
                let m3 = signed_division_leads(whole, f, b, m2, left, right);
                division_done_leads(
                    whole,
                    f,
                    c,
                    remainder,
                    m3,
                    quotient(left, right),
                    left - quotient(left, right) * right,
                );
                gives_before(whole, m2, m3, at, result);
                gives_before(whole, m1, m2, at, result);
                gives_before(whole, m, m1, at, result);
            } else {
                leading_goes_on(whole, m, m1, Outcome::Trapped);
            }
        } else {
            let m2 = unsigned_division_leads(whole, f, b, m1, left, right);
            division_done_leads(
                whole,
                f,
                c,
                remainder,
                m2,
                quotient(left, right),
                left - quotient(left, right) * right,
            );
            gives_before(whole, m1, m2, at, result);
            gives_before(whole, m, m1, at, result);
        }
    }
}

/// The code of an operator, with its left operand in `rcx` and its right one in `rax`, leaves the
/// value of the operator in `rax`, or stops the program where the operator has no value.
pub proof fn the_code_of_an_operator_gives_its_value<R: ConstantResolver, const P: usize, const N: usize>(
    whole: Seq<u8>,
    f: Frame<R, P, N>,
    s: Emission,
    operator: BinaryOperator,
    m: Machine,
    left: int,
    right: int,
)
    requires
        true_width(s.width),
        emitted_binary(f, s, operator).failure is None,
        stands(whole, s, emitted_binary(f, s, operator)),
        operands_stand(s, m, left, right),
        !(operator is LogicalAnd),
        !(operator is LogicalOr),
    ensures
        gives(
            whole,
            m,
            emitted_binary(f, s, operator).code.len() as int,
            operator_result(operator, left, right, s.width, s.overflow_checks),
        ),
{
    reveal(emitted_binary);
    match operator {
        BinaryOperator::Add => sum_is_computed(whole, f, s, m, left, right),
        BinaryOperator::Subtract => difference_is_computed(whole, f, s, m, left, right),
        BinaryOperator::Multiply => product_is_computed(whole, f, s, m, left, right),
        BinaryOperator::Divide => division_is_computed(whole, f, s, false, m, left, right),
        BinaryOperator::Remainder => division_is_computed(whole, f, s, true, m, left, right),
        BinaryOperator::BitAnd => and_is_computed(whole, f, s, m, left, right),
        BinaryOperator::BitOr => or_is_computed(whole, f, s, m, left, right),
        BinaryOperator::BitXor => xor_is_computed(whole, f, s, m, left, right),
        BinaryOperator::ShiftLeft => shift_is_computed(whole, f, s, true, m, left, right),
        BinaryOperator::ShiftRight => shift_is_computed(whole, f, s, false, m, left, right),
        _ => comparison_is_computed(whole, f, s, operator, m, left, right),
    }
}

/// The width of each integer type is that of its numbers.
pub proof fn widths_are_those_of_their_types(ty: IntegerType)
    ensures
        match width_of_integer(ty) {
            Some(width) => true_width(width) && integer_bits(ty, 64) == Some(width.bits)
                && width.signed == integer_signed(ty),
            None => integer_bits(ty, 64) == Some(128u8),
        },
        true_width(width_of_char()),
{
}

} // verus!
