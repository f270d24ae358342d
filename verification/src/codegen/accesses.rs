//! What the code of memory accesses does.
use vstd::arithmetic::power2::{lemma2_to64, lemma2_to64_rest, lemma_pow2_adds, pow2};
use crate::expression::ConstantResolver;
use crate::integer::{
    integer_bits, integer_signed,
};
use crate::codegen::machine::{
    Machine, Operand, Operation, Outcome, Step, address_of, after_operation,
    leading_goes_on, leads, loaded, next, next_leads, next_leads_on, performed,
    register_modulus, size_modulus, stays, step_at, stored, with_sign, word_at,
};
use crate::codegen::decoding::{
    add_rax_rcx_is_read, add_rdx_rcx_is_read, add_rsp_short_is_read, add_rsp_word_is_read,
    address_rax_eight_is_read, address_rax_four_is_read, address_rax_slot_short_is_read,
    address_rax_slot_word_is_read, address_rax_twice_is_read, address_rdx_eight_is_read,
    address_rdx_four_is_read, address_rdx_twice_is_read, constant_rax_is_read,
    load_byte_rax_is_read, load_eax_rax_is_read, load_half_rax_is_read,
    load_rax_rax_is_read, load_rax_slot_short_is_read, load_rax_slot_word_is_read,
    load_rcx_below_top_is_read, load_signed_byte_rax_is_read, load_signed_half_rax_is_read,
    load_signed_word_rax_is_read, move_rax_r8_is_read, move_rax_r9_is_read,
    move_rax_rcx_is_read, move_rax_rdi_is_read, move_rax_rdx_is_read, move_rax_rsi_is_read,
    push_r8_is_read, push_r9_is_read, push_rcx_is_read, push_rdi_is_read, push_rdx_is_read,
    push_rsi_is_read, return_is_read, store_al_rdx_is_read, store_ax_rdx_is_read,
    store_eax_rdx_is_read, store_rax_rdx_is_read, store_rax_slot_short_is_read,
    store_rax_slot_word_is_read,
};
use crate::codegen::standing::{
    both_parts_stand, grown, put_grows, put_stands, stands,
};
use crate::codegen::operations::{
    near_registers, register_of, unsigned_quad_is_read, unsigned_word_is_read,
};
use crate::codegen::emission::{
    Emission, put, quad_bytes, slots_from, slots_sum, word_bytes,
};
use crate::codegen::instructions::{
    emitted_cleanup, emitted_constant, emitted_element_address,
    emitted_element_store_address, emitted_epilogue, emitted_indexed_address,
    emitted_indexed_store_address, emitted_original_load, emitted_parameter_push,
    emitted_reference_load, emitted_reference_store, emitted_register_load,
    emitted_stack_access, emitted_stack_slot, emitted_stack_slot_address,
    emitted_store_stack_slot, emitted_wide_access,
};
use crate::codegen::frame::{
    Frame, X86_64Abi,
};
use crate::codegen::runtime::{
    RuntimeArrayElementType, element_bytes,
};
use crate::codegen::error::CodegenErrorKind;
use vstd::prelude::*;

verus! {

/// Whether the code leads to a place with some registers and some memory.
pub open spec fn becomes(
    whole: Seq<u8>,
    m: Machine,
    at: int,
    registers: Seq<u64>,
    memory: Map<int, u8>,
) -> bool {
    exists|after: Machine| #[trigger] leads(whole, m, Outcome::Running(after)) && after.at == at
        && after.registers == registers && after.memory == memory
}

/// A machine that the code leads to.
pub(crate) proof fn becoming(
    whole: Seq<u8>,
    m: Machine,
    at: int,
    registers: Seq<u64>,
    memory: Map<int, u8>,
) -> (after: Machine)
    requires
        becomes(whole, m, at, registers, memory),
    ensures
        leads(whole, m, Outcome::Running(after)),
        after.at == at,
        after.registers == registers,
        after.memory == memory,
{
    choose|after: Machine| #[trigger] leads(whole, m, Outcome::Running(after)) && after.at == at
        && after.registers == registers && after.memory == memory
}

/// What one instruction makes of a machine.
pub(crate) proof fn one_step_becomes(whole: Seq<u8>, m: Machine, after: Machine)
    requires
        next(whole, m) == Outcome::Running(after),
    ensures
        becomes(whole, m, after.at, after.registers, after.memory),
{
    next_leads(whole, m);
}

/// What an instruction makes of a machine, and then more code.
pub(crate) proof fn step_becomes(
    whole: Seq<u8>,
    m: Machine,
    middle: Machine,
    at: int,
    registers: Seq<u64>,
    memory: Map<int, u8>,
)
    requires
        next(whole, m) == Outcome::Running(middle),
        becomes(whole, middle, at, registers, memory),
    ensures
        becomes(whole, m, at, registers, memory),
{
    let after = becoming(whole, middle, at, registers, memory);
    next_leads_on(whole, m, middle, Outcome::Running(after));
}

/// A number of four bytes in the code is read as what was written there.
pub(crate) proof fn word_is_read(code: Seq<u8>, at: int, value: int)
    requires
        0 <= at,
        at + 4 <= code.len(),
        -0x8000_0000 <= value < 0x8000_0000,
        forall|i: int| 0 <= i < 4 ==> code[at + i] == #[trigger] word_bytes(value)[i],
    ensures
        word_at(code, at) == value,
{
    unsigned_word_is_read(code, at, value);
}

/// The address of an element is that of the first one, and behind it the index times the bytes of an
/// element.
#[verifier::rlimit(40)]
pub proof fn an_element_stands_its_index_times_its_size_behind_the_first<R: ConstantResolver, const P: usize, const N: usize>(
    whole: Seq<u8>,
    f: Frame<R, P, N>,
    s: Emission,
    element_bytes: usize,
    m: Machine,
)
    requires
        emitted_element_address(f, s, element_bytes).failure is None,
        stands(whole, s, emitted_element_address(f, s, element_bytes)),
        m.at == s.code.len(),
        m.registers.len() == 16,
    ensures
        becomes(
            whole,
            m,
            emitted_element_address(f, s, element_bytes).code.len() as int,
            m.registers.update(0, ((m.registers[0] + m.registers[1] * element_bytes) % register_modulus()) as u64),
            m.memory,
        ),
{
    reveal(emitted_element_address);
    let address = (m.registers[0] + m.registers[1] * element_bytes) % register_modulus();
    if element_bytes == 1 {
        let bytes = [0x48u8, 0x01, 0xc8]@;
        put_grows(f, s, bytes);
        put_stands(whole, f, s, bytes);
        assert(bytes[0] == 0x48 && bytes[1] == 0x01 && bytes[2] == 0xc8);
        add_rax_rcx_is_read(whole, m.at);
        let after = after_operation(
            Machine { at: m.at + 3, ..m },
            Operation::Add,
            64,
            Operand::Register(0),
            m.registers[0] as int,
            m.registers[1] as int,
        );
        assert(next(whole, m) == Outcome::Running(after)) by {
            reveal(performed);
        }
        assert(after.registers == m.registers.update(0, address as u64) && after.memory == m.memory
            && after.at == m.at + 3) by {
            reveal(after_operation);
        }
        one_step_becomes(whole, m, after);
    } else if element_bytes == 2 {
        let bytes = [0x48u8, 0x8d, 0x04, 0x48]@;
        put_grows(f, s, bytes);
        put_stands(whole, f, s, bytes);
        assert(bytes[0] == 0x48 && bytes[1] == 0x8d && bytes[2] == 0x04 && bytes[3] == 0x48);
        address_rax_twice_is_read(whole, m.at);
        let after = Machine { registers: m.registers.update(0, address as u64), at: m.at + 4, ..m };
        assert(next(whole, m) == Outcome::Running(after)) by {
            reveal(performed);
            assert(2 * m.registers[1] == m.registers[1] * element_bytes) by (nonlinear_arith)
                requires
                    element_bytes == 2,
            ;
            assert(address_of(Machine { at: m.at + 4, ..m }, 0, Some((1int, 2int)), 0) == address);
        }
        one_step_becomes(whole, m, after);
    } else if element_bytes == 4 {
        let bytes = [0x48u8, 0x8d, 0x04, 0x88]@;
        put_grows(f, s, bytes);
        put_stands(whole, f, s, bytes);
        assert(bytes[0] == 0x48 && bytes[1] == 0x8d && bytes[2] == 0x04 && bytes[3] == 0x88);
        address_rax_four_is_read(whole, m.at);
        let after = Machine { registers: m.registers.update(0, address as u64), at: m.at + 4, ..m };
        assert(next(whole, m) == Outcome::Running(after)) by {
            reveal(performed);
            assert(4 * m.registers[1] == m.registers[1] * element_bytes) by (nonlinear_arith)
                requires
                    element_bytes == 4,
            ;
            assert(address_of(Machine { at: m.at + 4, ..m }, 0, Some((1int, 4int)), 0) == address);
        }
        one_step_becomes(whole, m, after);
    } else if element_bytes == 8 {
        let bytes = [0x48u8, 0x8d, 0x04, 0xc8]@;
        put_grows(f, s, bytes);
        put_stands(whole, f, s, bytes);
        assert(bytes[0] == 0x48 && bytes[1] == 0x8d && bytes[2] == 0x04 && bytes[3] == 0xc8);
        address_rax_eight_is_read(whole, m.at);
        let after = Machine { registers: m.registers.update(0, address as u64), at: m.at + 4, ..m };
        assert(next(whole, m) == Outcome::Running(after)) by {
            reveal(performed);
            assert(8 * m.registers[1] == m.registers[1] * element_bytes) by (nonlinear_arith)
                requires
                    element_bytes == 8,
            ;
            assert(address_of(Machine { at: m.at + 4, ..m }, 0, Some((1int, 8int)), 0) == address);
        }
        one_step_becomes(whole, m, after);
    }
}

/// The same of the address of an element that is stored to.
#[verifier::rlimit(40)]
pub proof fn a_stored_element_stands_its_index_times_its_size_behind_the_first<R: ConstantResolver, const P: usize, const N: usize>(
    whole: Seq<u8>,
    f: Frame<R, P, N>,
    s: Emission,
    element_bytes: usize,
    m: Machine,
)
    requires
        emitted_element_store_address(f, s, element_bytes).failure is None,
        stands(whole, s, emitted_element_store_address(f, s, element_bytes)),
        m.at == s.code.len(),
        m.registers.len() == 16,
    ensures
        becomes(
            whole,
            m,
            emitted_element_store_address(f, s, element_bytes).code.len() as int,
            m.registers.update(2, ((m.registers[2] + m.registers[1] * element_bytes) % register_modulus()) as u64),
            m.memory,
        ),
{
    reveal(emitted_element_store_address);
    let address = (m.registers[2] + m.registers[1] * element_bytes) % register_modulus();
    if element_bytes == 1 {
        let bytes = [0x48u8, 0x01, 0xca]@;
        put_grows(f, s, bytes);
        put_stands(whole, f, s, bytes);
        assert(bytes[0] == 0x48 && bytes[1] == 0x01 && bytes[2] == 0xca);
        add_rdx_rcx_is_read(whole, m.at);
        let after = after_operation(
            Machine { at: m.at + 3, ..m },
            Operation::Add,
            64,
            Operand::Register(2),
            m.registers[2] as int,
            m.registers[1] as int,
        );
        assert(next(whole, m) == Outcome::Running(after)) by {
            reveal(performed);
        }
        assert(after.registers == m.registers.update(2, address as u64) && after.memory == m.memory
            && after.at == m.at + 3) by {
            reveal(after_operation);
        }
        one_step_becomes(whole, m, after);
    } else if element_bytes == 2 {
        let bytes = [0x48u8, 0x8d, 0x14, 0x4a]@;
        put_grows(f, s, bytes);
        put_stands(whole, f, s, bytes);
        assert(bytes[0] == 0x48 && bytes[1] == 0x8d && bytes[2] == 0x14 && bytes[3] == 0x4a);
        address_rdx_twice_is_read(whole, m.at);
        let after = Machine { registers: m.registers.update(2, address as u64), at: m.at + 4, ..m };
        assert(next(whole, m) == Outcome::Running(after)) by {
            reveal(performed);
            assert(2 * m.registers[1] == m.registers[1] * element_bytes) by (nonlinear_arith)
                requires
                    element_bytes == 2,
            ;
            assert(address_of(Machine { at: m.at + 4, ..m }, 2, Some((1int, 2int)), 0) == address);
        }
        one_step_becomes(whole, m, after);
    } else if element_bytes == 4 {
        let bytes = [0x48u8, 0x8d, 0x14, 0x8a]@;
        put_grows(f, s, bytes);
        put_stands(whole, f, s, bytes);
        assert(bytes[0] == 0x48 && bytes[1] == 0x8d && bytes[2] == 0x14 && bytes[3] == 0x8a);
        address_rdx_four_is_read(whole, m.at);
        let after = Machine { registers: m.registers.update(2, address as u64), at: m.at + 4, ..m };
        assert(next(whole, m) == Outcome::Running(after)) by {
            reveal(performed);
            assert(4 * m.registers[1] == m.registers[1] * element_bytes) by (nonlinear_arith)
                requires
                    element_bytes == 4,
            ;
            assert(address_of(Machine { at: m.at + 4, ..m }, 2, Some((1int, 4int)), 0) == address);
        }
        one_step_becomes(whole, m, after);
    } else if element_bytes == 8 {
        let bytes = [0x48u8, 0x8d, 0x14, 0xca]@;
        put_grows(f, s, bytes);
        put_stands(whole, f, s, bytes);
        assert(bytes[0] == 0x48 && bytes[1] == 0x8d && bytes[2] == 0x14 && bytes[3] == 0xca);
        address_rdx_eight_is_read(whole, m.at);
        let after = Machine { registers: m.registers.update(2, address as u64), at: m.at + 4, ..m };
        assert(next(whole, m) == Outcome::Running(after)) by {
            reveal(performed);
            assert(8 * m.registers[1] == m.registers[1] * element_bytes) by (nonlinear_arith)
                requires
                    element_bytes == 8,
            ;
            assert(address_of(Machine { at: m.at + 4, ..m }, 2, Some((1int, 8int)), 0) == address);
        }
        one_step_becomes(whole, m, after);
    }
}

/// How many bits of memory a value takes that an address leads to, and whether it has a sign.
pub open spec fn held_in_memory(pointee: RuntimeArrayElementType) -> (int, bool) {
    match pointee {
        RuntimeArrayElementType::Bool => (8, false),
        RuntimeArrayElementType::Char => (32, false),
        RuntimeArrayElementType::Integer(Some(ty)) => (
            match integer_bits(ty, 64) {
                Some(bits) => bits as int,
                None => 0,
            },
            integer_signed(ty),
        ),
        _ => (0, false),
    }
}

/// The number that an address leads to.
pub open spec fn number_at(memory: Map<int, u8>, address: int, pointee: RuntimeArrayElementType) -> int {
    let (bits, signed) = held_in_memory(pointee);
    let value = loaded(memory, address, bits / 8);
    if signed {
        with_sign(value, bits)
    } else {
        value
    }
}

proof fn loaded_is_small(memory: Map<int, u8>, address: int, bytes: int)
    requires
        0 <= bytes,
    ensures
        0 <= loaded(memory, address, bytes) < pow2((8 * bytes) as nat),
    decreases bytes,
{
    if bytes > 0 {
        loaded_is_small(memory, address + 1, bytes - 1);
        lemma_pow2_adds((8 * (bytes - 1)) as nat, 8);
        lemma2_to64();
    } else {
        lemma2_to64();
    }
}

/// What some bytes of memory hold fits them.
proof fn loaded_fits(memory: Map<int, u8>, address: int)
    ensures
        0 <= loaded(memory, address, 1) < 0x100,
        0 <= loaded(memory, address, 2) < 0x1_0000,
        0 <= loaded(memory, address, 4) < 0x1_0000_0000,
        0 <= loaded(memory, address, 8) < 0x1_0000_0000_0000_0000,
{
    loaded_is_small(memory, address, 1);
    loaded_is_small(memory, address, 2);
    loaded_is_small(memory, address, 4);
    loaded_is_small(memory, address, 8);
    lemma2_to64();
    lemma2_to64_rest();
}

/// A load gives the number that the address in `rax` leads to.
#[verifier::rlimit(40)]
pub proof fn a_load_gives_what_the_address_leads_to<R: ConstantResolver, const P: usize, const N: usize>(
    whole: Seq<u8>,
    f: Frame<R, P, N>,
    s: Emission,
    pointee: RuntimeArrayElementType,
    m: Machine,
)
    requires
        emitted_reference_load(f, s, pointee).failure is None,
        stands(whole, s, emitted_reference_load(f, s, pointee)),
        m.at == s.code.len(),
        m.registers.len() == 16,
    ensures
        becomes(
            whole,
            m,
            emitted_reference_load(f, s, pointee).code.len() as int,
            m.registers.update(0, register_of(number_at(m.memory, m.registers[0] as int, pointee))),
            m.memory,
        ),
{
    reveal(emitted_reference_load);
    let (bits, signed) = held_in_memory(pointee);
    let number = number_at(m.memory, m.registers[0] as int, pointee);
    loaded_fits(m.memory, m.registers[0] as int);
    near_registers(number);
    near_registers(m.registers[0] as int);
    if bits == 8 && !signed {
        let bytes = [0x0fu8, 0xb6, 0x00]@;
        put_grows(f, s, bytes);
        put_stands(whole, f, s, bytes);
        assert(bytes[0] == 0x0f && bytes[1] == 0xb6 && bytes[2] == 0x00);
        load_byte_rax_is_read(whole, m.at);
        let after = Machine { registers: m.registers.update(0, register_of(number)), at: m.at + 3, ..m };
        assert(next(whole, m) == Outcome::Running(after)) by {
            reveal(performed);
        }
        one_step_becomes(whole, m, after);
    } else if bits == 8 {
        let bytes = [0x48u8, 0x0f, 0xbe, 0x00]@;
        put_grows(f, s, bytes);
        put_stands(whole, f, s, bytes);
        assert(bytes[0] == 0x48 && bytes[1] == 0x0f && bytes[2] == 0xbe && bytes[3] == 0x00);
        load_signed_byte_rax_is_read(whole, m.at);
        let after = Machine { registers: m.registers.update(0, register_of(number)), at: m.at + 4, ..m };
        assert(next(whole, m) == Outcome::Running(after)) by {
            reveal(performed);
        }
        one_step_becomes(whole, m, after);
    } else if bits == 16 && !signed {
        let bytes = [0x0fu8, 0xb7, 0x00]@;
        put_grows(f, s, bytes);
        put_stands(whole, f, s, bytes);
        assert(bytes[0] == 0x0f && bytes[1] == 0xb7 && bytes[2] == 0x00);
        load_half_rax_is_read(whole, m.at);
        let after = Machine { registers: m.registers.update(0, register_of(number)), at: m.at + 3, ..m };
        assert(next(whole, m) == Outcome::Running(after)) by {
            reveal(performed);
        }
        one_step_becomes(whole, m, after);
    } else if bits == 16 {
        let bytes = [0x48u8, 0x0f, 0xbf, 0x00]@;
        put_grows(f, s, bytes);
        put_stands(whole, f, s, bytes);
        assert(bytes[0] == 0x48 && bytes[1] == 0x0f && bytes[2] == 0xbf && bytes[3] == 0x00);
        load_signed_half_rax_is_read(whole, m.at);
        let after = Machine { registers: m.registers.update(0, register_of(number)), at: m.at + 4, ..m };
        assert(next(whole, m) == Outcome::Running(after)) by {
            reveal(performed);
        }
        one_step_becomes(whole, m, after);
    } else if bits == 32 && !signed {
        let bytes = [0x8bu8, 0x00]@;
        put_grows(f, s, bytes);
        put_stands(whole, f, s, bytes);
        assert(bytes[0] == 0x8b && bytes[1] == 0x00);
        load_eax_rax_is_read(whole, m.at);
        let after = Machine { registers: m.registers.update(0, register_of(number)), at: m.at + 2, ..m };
        assert(next(whole, m) == Outcome::Running(after)) by {
            reveal(performed);
        }
        one_step_becomes(whole, m, after);
    } else if bits == 32 {
        let bytes = [0x48u8, 0x63, 0x00]@;
        put_grows(f, s, bytes);
        put_stands(whole, f, s, bytes);
        assert(bytes[0] == 0x48 && bytes[1] == 0x63 && bytes[2] == 0x00);
        load_signed_word_rax_is_read(whole, m.at);
        let after = Machine { registers: m.registers.update(0, register_of(number)), at: m.at + 3, ..m };
        assert(next(whole, m) == Outcome::Running(after)) by {
            reveal(performed);
        }
        one_step_becomes(whole, m, after);
    } else {
        let bytes = [0x48u8, 0x8b, 0x00]@;
        put_grows(f, s, bytes);
        put_stands(whole, f, s, bytes);
        assert(bytes[0] == 0x48 && bytes[1] == 0x8b && bytes[2] == 0x00);
        load_rax_rax_is_read(whole, m.at);
        let after = Machine { registers: m.registers.update(0, register_of(number)), at: m.at + 3, ..m };
        assert(next(whole, m) == Outcome::Running(after)) by {
            reveal(performed);
        }
        one_step_becomes(whole, m, after);
    }
}

/// A store puts the number in `rax` where the address in `rdx` leads to, in as many bits as it takes.
#[verifier::rlimit(40)]
pub proof fn a_store_puts_a_number_where_the_address_leads<R: ConstantResolver, const P: usize, const N: usize>(
    whole: Seq<u8>,
    f: Frame<R, P, N>,
    s: Emission,
    pointee: RuntimeArrayElementType,
    m: Machine,
)
    requires
        emitted_reference_store(f, s, pointee).failure is None,
        stands(whole, s, emitted_reference_store(f, s, pointee)),
        m.at == s.code.len(),
        m.registers.len() == 16,
    ensures
        becomes(
            whole,
            m,
            emitted_reference_store(f, s, pointee).code.len() as int,
            m.registers,
            stored(
                m.memory,
                m.registers[2] as int,
                held_in_memory(pointee).0 / 8,
                m.registers[0] as int % size_modulus(held_in_memory(pointee).0),
            ),
        ),
{
    reveal(emitted_reference_store);
    let (bits, signed) = held_in_memory(pointee);
    let value = m.registers[0] as int % size_modulus(bits);
    near_registers(m.registers[2] as int);
    if bits == 8 {
        let bytes = [0x88u8, 0x02]@;
        put_grows(f, s, bytes);
        put_stands(whole, f, s, bytes);
        assert(bytes[0] == 0x88 && bytes[1] == 0x02);
        store_al_rdx_is_read(whole, m.at);
        let after = Machine { memory: stored(m.memory, m.registers[2] as int, bits / 8, value), at: m.at + 2, ..m };
        assert(next(whole, m) == Outcome::Running(after)) by {
            reveal(performed);
        }
        one_step_becomes(whole, m, after);
    } else if bits == 16 {
        let bytes = [0x66u8, 0x89, 0x02]@;
        put_grows(f, s, bytes);
        put_stands(whole, f, s, bytes);
        assert(bytes[0] == 0x66 && bytes[1] == 0x89 && bytes[2] == 0x02);
        store_ax_rdx_is_read(whole, m.at);
        let after = Machine { memory: stored(m.memory, m.registers[2] as int, bits / 8, value), at: m.at + 3, ..m };
        assert(next(whole, m) == Outcome::Running(after)) by {
            reveal(performed);
        }
        one_step_becomes(whole, m, after);
    } else if bits == 32 {
        let bytes = [0x89u8, 0x02]@;
        put_grows(f, s, bytes);
        put_stands(whole, f, s, bytes);
        assert(bytes[0] == 0x89 && bytes[1] == 0x02);
        store_eax_rdx_is_read(whole, m.at);
        let after = Machine { memory: stored(m.memory, m.registers[2] as int, bits / 8, value), at: m.at + 2, ..m };
        assert(next(whole, m) == Outcome::Running(after)) by {
            reveal(performed);
        }
        one_step_becomes(whole, m, after);
    } else {
        let bytes = [0x48u8, 0x89, 0x02]@;
        put_grows(f, s, bytes);
        put_stands(whole, f, s, bytes);
        assert(bytes[0] == 0x48 && bytes[1] == 0x89 && bytes[2] == 0x02);
        store_rax_rdx_is_read(whole, m.at);
        let after = Machine { memory: stored(m.memory, m.registers[2] as int, bits / 8, value), at: m.at + 3, ..m };
        assert(next(whole, m) == Outcome::Running(after)) by {
            reveal(performed);
        }
        one_step_becomes(whole, m, after);
    }
}

/// The address of what stands some bytes above the top of the stack.
pub open spec fn stack_address(m: Machine, displacement: int) -> int {
    (m.registers[4] + displacement) % register_modulus()
}

/// What stands some bytes above the top of the stack is loaded.
#[verifier::rlimit(40)]
 proof fn wide_load_leads<R: ConstantResolver, const P: usize, const N: usize>(
    whole: Seq<u8>,
    f: Frame<R, P, N>,
    s: Emission,
    displacement: usize,
    kind: CodegenErrorKind,
    m: Machine,
)
    requires
        emitted_wide_access(f, s, 0x8b, displacement, kind).failure is None,
        stands(whole, s, emitted_wide_access(f, s, 0x8b, displacement, kind)),
        m.at == s.code.len(),
        m.registers.len() == 16,
        displacement < 0x8000_0000,
    ensures
        becomes(
            whole,
            m,
            emitted_wide_access(f, s, 0x8b, displacement, kind).code.len() as int,
            m.registers.update(0, loaded(m.memory, stack_address(m, displacement as int), 8) as u64),
            m.memory,
        ),
{
    reveal(emitted_wide_access);
    let address = stack_address(m, displacement as int);
    loaded_fits(m.memory, address);
    if displacement <= 127 {
        let bytes = [0x48u8, 0x8b, 0x44, 0x24, displacement as u8]@;
        put_grows(f, s, bytes);
        put_stands(whole, f, s, bytes);
        assert(bytes[0] == 0x48 && bytes[1] == 0x8b && bytes[2] == 0x44 && bytes[3] == 0x24 && bytes[4]
            == displacement);
        load_rax_slot_short_is_read(whole, m.at);
        let after = Machine { registers: m.registers.update(0, loaded(m.memory, stack_address(m, displacement as int), 8) as u64), memory: m.memory, at: m.at + 5, ..m };
        assert(next(whole, m) == Outcome::Running(after)) by {
            reveal(performed);
        }
        one_step_becomes(whole, m, after);
    } else {
        let bytes = [0x48u8, 0x8b, 0x84, 0x24]@;
        let middle = put(f, s, bytes);
        let end = put(f, middle, word_bytes(displacement as int));
        put_grows(f, middle, word_bytes(displacement as int));
        put_grows(f, s, bytes);
        both_parts_stand(whole, s, middle, end);
        put_stands(whole, f, s, bytes);
        put_stands(whole, f, middle, word_bytes(displacement as int));
        assert(bytes[0] == 0x48 && bytes[1] == 0x8b && bytes[2] == 0x84 && bytes[3] == 0x24);
        assert(word_bytes(displacement as int).len() == 4);
        assert forall|i: int| 0 <= i < 4 implies whole[m.at + 4 + i] == #[trigger] word_bytes(
            displacement as int,
        )[i] by {
            assert(whole[middle.code.len() + i] == word_bytes(displacement as int)[i]);
        }
        word_is_read(whole, m.at + 4, displacement as int);
        load_rax_slot_word_is_read(whole, m.at);
        let after = Machine { registers: m.registers.update(0, loaded(m.memory, stack_address(m, displacement as int), 8) as u64), memory: m.memory, at: m.at + 8, ..m };
        assert(next(whole, m) == Outcome::Running(after)) by {
            reveal(performed);
        }
        one_step_becomes(whole, m, after);
    }
}

/// The code that reads a slot loads the eight bytes that stand so many slots above the top of the stack.
#[verifier::rlimit(40)]
pub proof fn a_slot_gives_what_it_holds<R: ConstantResolver, const P: usize, const N: usize>(
    whole: Seq<u8>,
    f: Frame<R, P, N>,
    s: Emission,
    slots: usize,
    m: Machine,
)
    requires
        emitted_stack_slot(f, s, slots).failure is None,
        stands(whole, s, emitted_stack_slot(f, s, slots)),
        m.at == s.code.len(),
        m.registers.len() == 16,
        8 * slots < 0x8000_0000,
    ensures
        becomes(
            whole,
            m,
            emitted_stack_slot(f, s, slots).code.len() as int,
            m.registers.update(0, loaded(m.memory, stack_address(m, 8 * slots), 8) as u64),
            m.memory,
        ),
{
    reveal(emitted_stack_slot);
    reveal(emitted_stack_access);
    wide_load_leads(whole, f, s, (slots * 8) as usize, CodegenErrorKind::OutputTooSmall, m);
}

/// What stands some bytes above the top of the stack is stored.
#[verifier::rlimit(40)]
 proof fn wide_store_leads<R: ConstantResolver, const P: usize, const N: usize>(
    whole: Seq<u8>,
    f: Frame<R, P, N>,
    s: Emission,
    displacement: usize,
    kind: CodegenErrorKind,
    m: Machine,
)
    requires
        emitted_wide_access(f, s, 0x89, displacement, kind).failure is None,
        stands(whole, s, emitted_wide_access(f, s, 0x89, displacement, kind)),
        m.at == s.code.len(),
        m.registers.len() == 16,
        displacement < 0x8000_0000,
    ensures
        becomes(
            whole,
            m,
            emitted_wide_access(f, s, 0x89, displacement, kind).code.len() as int,
            m.registers,
            stored(m.memory, stack_address(m, displacement as int), 8, m.registers[0] as int),
        ),
{
    reveal(emitted_wide_access);
    let address = stack_address(m, displacement as int);
    loaded_fits(m.memory, address);
    if displacement <= 127 {
        let bytes = [0x48u8, 0x89, 0x44, 0x24, displacement as u8]@;
        put_grows(f, s, bytes);
        put_stands(whole, f, s, bytes);
        assert(bytes[0] == 0x48 && bytes[1] == 0x89 && bytes[2] == 0x44 && bytes[3] == 0x24 && bytes[4]
            == displacement);
        store_rax_slot_short_is_read(whole, m.at);
        let after = Machine { registers: m.registers, memory: stored(m.memory, stack_address(m, displacement as int), 8, m.registers[0] as int), at: m.at + 5, ..m };
        assert(next(whole, m) == Outcome::Running(after)) by {
            reveal(performed);
        }
        one_step_becomes(whole, m, after);
    } else {
        let bytes = [0x48u8, 0x89, 0x84, 0x24]@;
        let middle = put(f, s, bytes);
        let end = put(f, middle, word_bytes(displacement as int));
        put_grows(f, middle, word_bytes(displacement as int));
        put_grows(f, s, bytes);
        both_parts_stand(whole, s, middle, end);
        put_stands(whole, f, s, bytes);
        put_stands(whole, f, middle, word_bytes(displacement as int));
        assert(bytes[0] == 0x48 && bytes[1] == 0x89 && bytes[2] == 0x84 && bytes[3] == 0x24);
        assert(word_bytes(displacement as int).len() == 4);
        assert forall|i: int| 0 <= i < 4 implies whole[m.at + 4 + i] == #[trigger] word_bytes(
            displacement as int,
        )[i] by {
            assert(whole[middle.code.len() + i] == word_bytes(displacement as int)[i]);
        }
        word_is_read(whole, m.at + 4, displacement as int);
        store_rax_slot_word_is_read(whole, m.at);
        let after = Machine { registers: m.registers, memory: stored(m.memory, stack_address(m, displacement as int), 8, m.registers[0] as int), at: m.at + 8, ..m };
        assert(next(whole, m) == Outcome::Running(after)) by {
            reveal(performed);
        }
        one_step_becomes(whole, m, after);
    }
}

/// The code that writes a slot stores `rax` so many slots above the top of the stack.
#[verifier::rlimit(40)]
pub proof fn a_slot_takes_a_value<R: ConstantResolver, const P: usize, const N: usize>(
    whole: Seq<u8>,
    f: Frame<R, P, N>,
    s: Emission,
    slots: usize,
    m: Machine,
)
    requires
        emitted_store_stack_slot(f, s, slots).failure is None,
        stands(whole, s, emitted_store_stack_slot(f, s, slots)),
        m.at == s.code.len(),
        m.registers.len() == 16,
        8 * slots < 0x8000_0000,
    ensures
        becomes(
            whole,
            m,
            emitted_store_stack_slot(f, s, slots).code.len() as int,
            m.registers,
            stored(m.memory, stack_address(m, 8 * slots), 8, m.registers[0] as int),
        ),
{
    reveal(emitted_store_stack_slot);
    reveal(emitted_stack_access);
    wide_store_leads(whole, f, s, (slots * 8) as usize, CodegenErrorKind::OutputTooSmall, m);
}

/// What stands some bytes above the top of the stack has its address taken.
#[verifier::rlimit(40)]
 proof fn wide_address_leads<R: ConstantResolver, const P: usize, const N: usize>(
    whole: Seq<u8>,
    f: Frame<R, P, N>,
    s: Emission,
    displacement: usize,
    kind: CodegenErrorKind,
    m: Machine,
)
    requires
        emitted_wide_access(f, s, 0x8d, displacement, kind).failure is None,
        stands(whole, s, emitted_wide_access(f, s, 0x8d, displacement, kind)),
        m.at == s.code.len(),
        m.registers.len() == 16,
        displacement < 0x8000_0000,
    ensures
        becomes(
            whole,
            m,
            emitted_wide_access(f, s, 0x8d, displacement, kind).code.len() as int,
            m.registers.update(0, stack_address(m, displacement as int) as u64),
            m.memory,
        ),
{
    reveal(emitted_wide_access);
    let address = stack_address(m, displacement as int);
    loaded_fits(m.memory, address);
    if displacement <= 127 {
        let bytes = [0x48u8, 0x8d, 0x44, 0x24, displacement as u8]@;
        put_grows(f, s, bytes);
        put_stands(whole, f, s, bytes);
        assert(bytes[0] == 0x48 && bytes[1] == 0x8d && bytes[2] == 0x44 && bytes[3] == 0x24 && bytes[4]
            == displacement);
        address_rax_slot_short_is_read(whole, m.at);
        let after = Machine { registers: m.registers.update(0, stack_address(m, displacement as int) as u64), memory: m.memory, at: m.at + 5, ..m };
        assert(next(whole, m) == Outcome::Running(after)) by {
            reveal(performed);
        }
        one_step_becomes(whole, m, after);
    } else {
        let bytes = [0x48u8, 0x8d, 0x84, 0x24]@;
        let middle = put(f, s, bytes);
        let end = put(f, middle, word_bytes(displacement as int));
        put_grows(f, middle, word_bytes(displacement as int));
        put_grows(f, s, bytes);
        both_parts_stand(whole, s, middle, end);
        put_stands(whole, f, s, bytes);
        put_stands(whole, f, middle, word_bytes(displacement as int));
        assert(bytes[0] == 0x48 && bytes[1] == 0x8d && bytes[2] == 0x84 && bytes[3] == 0x24);
        assert(word_bytes(displacement as int).len() == 4);
        assert forall|i: int| 0 <= i < 4 implies whole[m.at + 4 + i] == #[trigger] word_bytes(
            displacement as int,
        )[i] by {
            assert(whole[middle.code.len() + i] == word_bytes(displacement as int)[i]);
        }
        word_is_read(whole, m.at + 4, displacement as int);
        address_rax_slot_word_is_read(whole, m.at);
        let after = Machine { registers: m.registers.update(0, stack_address(m, displacement as int) as u64), memory: m.memory, at: m.at + 8, ..m };
        assert(next(whole, m) == Outcome::Running(after)) by {
            reveal(performed);
        }
        one_step_becomes(whole, m, after);
    }
}

/// The address of a slot is so many slots above the top of the stack.
#[verifier::rlimit(40)]
pub proof fn a_slot_has_an_address<R: ConstantResolver, const P: usize, const N: usize>(
    whole: Seq<u8>,
    f: Frame<R, P, N>,
    s: Emission,
    slots: usize,
    m: Machine,
)
    requires
        emitted_stack_slot_address(f, s, slots).failure is None,
        stands(whole, s, emitted_stack_slot_address(f, s, slots)),
        m.at == s.code.len(),
        m.registers.len() == 16,
        8 * slots < 0x8000_0000,
    ensures
        becomes(
            whole,
            m,
            emitted_stack_slot_address(f, s, slots).code.len() as int,
            m.registers.update(0, stack_address(m, 8 * slots) as u64),
            m.memory,
        ),
{
    reveal(emitted_stack_slot_address);
    reveal(emitted_stack_access);
    wide_address_leads(whole, f, s, (slots * 8) as usize, CodegenErrorKind::OutputTooSmall, m);
}

/// A word that the caller has put on the stack is found above what has been pushed since.
#[verifier::rlimit(40)]
pub proof fn a_word_of_the_caller_is_loaded<R: ConstantResolver, const P: usize, const N: usize>(
    whole: Seq<u8>,
    f: Frame<R, P, N>,
    s: Emission,
    original_offset: usize,
    pushed_slots: usize,
    m: Machine,
)
    requires
        emitted_original_load(f, s, original_offset, pushed_slots).failure is None,
        stands(whole, s, emitted_original_load(f, s, original_offset, pushed_slots)),
        m.at == s.code.len(),
        m.registers.len() == 16,
        original_offset + 8 * pushed_slots < 0x8000_0000,
    ensures
        becomes(
            whole,
            m,
            emitted_original_load(f, s, original_offset, pushed_slots).code.len() as int,
            m.registers.update(0, loaded(m.memory, stack_address(m, original_offset + 8 * pushed_slots), 8) as u64),
            m.memory,
        ),
{
    reveal(emitted_original_load);
    wide_load_leads(
        whole,
        f,
        s,
        (original_offset + pushed_slots * 8) as usize,
        CodegenErrorKind::TooManyAbiParameters,
        m,
    );
}

/// Dropping bytes of the stack moves its top up by them.
#[verifier::rlimit(40)]
pub proof fn a_cleanup_drops_bytes<R: ConstantResolver, const P: usize, const N: usize>(
    whole: Seq<u8>,
    f: Frame<R, P, N>,
    s: Emission,
    bytes: usize,
    kind: CodegenErrorKind,
    m: Machine,
)
    requires
        emitted_cleanup(f, s, bytes, kind).failure is None,
        stands(whole, s, emitted_cleanup(f, s, bytes, kind)),
        m.at == s.code.len(),
        m.registers.len() == 16,
        bytes < 0x8000_0000,
    ensures
        becomes(
            whole,
            m,
            emitted_cleanup(f, s, bytes, kind).code.len() as int,
            m.registers.update(4, stack_address(m, bytes as int) as u64),
            m.memory,
        ),
{
    reveal(emitted_cleanup);
    let address = stack_address(m, bytes as int);
    if bytes == 0 {
        near_registers(m.registers[4] as int);
        assert(m.registers.update(4, address as u64) =~= m.registers);
        stays(whole, m);
    } else if bytes <= 127 {
        let code = [0x48u8, 0x83, 0xc4, bytes as u8]@;
        put_grows(f, s, code);
        put_stands(whole, f, s, code);
        assert(code[0] == 0x48 && code[1] == 0x83 && code[2] == 0xc4 && code[3] == bytes);
        add_rsp_short_is_read(whole, m.at);
        stack_top_moves(whole, m, 4, bytes as int);
    } else {
        let code = [0x48u8, 0x81, 0xc4]@;
        let word = word_bytes(bytes as int);
        let middle = put(f, s, code);
        let end = put(f, middle, word);
        put_grows(f, middle, word);
        put_grows(f, s, code);
        both_parts_stand(whole, s, middle, end);
        put_stands(whole, f, s, code);
        put_stands(whole, f, middle, word);
        assert(code[0] == 0x48 && code[1] == 0x81 && code[2] == 0xc4);
        assert(word.len() == 4);
        assert forall|i: int| 0 <= i < 4 implies whole[m.at + 3 + i] == #[trigger] word_bytes(
            bytes as int,
        )[i] by {
            assert(whole[middle.code.len() + i] == word[i]);
        }
        word_is_read(whole, m.at + 3, bytes as int);
        add_rsp_word_is_read(whole, m.at);
        stack_top_moves(whole, m, 7, bytes as int);
    }
}

proof fn stack_top_moves(whole: Seq<u8>, m: Machine, length: int, bytes: int)
    requires
        m.registers.len() == 16,
        0 <= bytes < 0x8000_0000,
        step_at(whole, m.at) == Some(
            (
                Step::Operate {
                    operation: Operation::Add,
                    size: 64,
                    to: Operand::Register(4),
                    from: Operand::Immediate(bytes),
                },
                m.at + length,
            ),
        ),
    ensures
        becomes(
            whole,
            m,
            m.at + length,
            m.registers.update(4, stack_address(m, bytes) as u64),
            m.memory,
        ),
{
    let after = after_operation(
        Machine { at: m.at + length, ..m },
        Operation::Add,
        64,
        Operand::Register(4),
        m.registers[4] as int,
        bytes,
    );
    near_registers(bytes);
    assert(next(whole, m) == Outcome::Running(after)) by {
        reveal(performed);
        assert(bytes % size_modulus(64) == bytes);
    }
    assert(after.registers == m.registers.update(4, stack_address(m, bytes) as u64)
        && after.memory == m.memory && after.at == m.at + length) by {
        reveal(after_operation);
    }
    one_step_becomes(whole, m, after);
}

/// The code of a constant loads it.
#[verifier::rlimit(40)]
pub proof fn a_constant_is_loaded<R: ConstantResolver, const P: usize, const N: usize>(
    whole: Seq<u8>,
    f: Frame<R, P, N>,
    s: Emission,
    value: u64,
    m: Machine,
)
    requires
        emitted_constant(f, s, value).failure is None,
        stands(whole, s, emitted_constant(f, s, value)),
        m.at == s.code.len(),
        m.registers.len() == 16,
    ensures
        becomes(
            whole,
            m,
            emitted_constant(f, s, value).code.len() as int,
            m.registers.update(0, value),
            m.memory,
        ),
{
    reveal(emitted_constant);
    let opening = [0x48u8, 0xb8]@;
    let quad = quad_bytes(value as int);
    let middle = put(f, s, opening);
    let end = put(f, middle, quad);
    put_grows(f, middle, quad);
    put_grows(f, s, opening);
    both_parts_stand(whole, s, middle, end);
    put_stands(whole, f, s, opening);
    put_stands(whole, f, middle, quad);
    assert(opening[0] == 0x48 && opening[1] == 0xb8);
    assert(quad.len() == 8);
    assert forall|i: int| 0 <= i < 8 implies whole[m.at + 2 + i] == #[trigger] quad_bytes(
        value as int,
    )[i] by {
        assert(whole[middle.code.len() + i] == quad[i]);
    }
    unsigned_quad_is_read(whole, m.at + 2, value);
    constant_rax_is_read(whole, m.at);
    let after = Machine { registers: m.registers.update(0, value), at: m.at + 10, ..m };
    assert(next(whole, m) == Outcome::Running(after)) by {
        reveal(performed);
    }
    one_step_becomes(whole, m, after);
}

/// The register in which a convention hands over the parameter of an index.
pub open spec fn parameter_register(abi: X86_64Abi, index: int) -> int {
    let order = match abi {
        X86_64Abi::Windows => seq![1int, 2, 8, 9],
        X86_64Abi::SystemV => seq![7int, 6, 2, 1, 8, 9],
    };
    order[index]
}

/// A parameter is loaded from the register in which the convention hands it over.
#[verifier::rlimit(40)]
pub proof fn a_parameter_register_is_loaded<R: ConstantResolver, const P: usize, const N: usize>(
    whole: Seq<u8>,
    f: Frame<R, P, N>,
    s: Emission,
    abi: X86_64Abi,
    index: usize,
    m: Machine,
)
    requires
        emitted_register_load(f, s, abi, index).failure is None,
        stands(whole, s, emitted_register_load(f, s, abi, index)),
        m.at == s.code.len(),
        m.registers.len() == 16,
    ensures
        becomes(
            whole,
            m,
            emitted_register_load(f, s, abi, index).code.len() as int,
            m.registers.update(0, m.registers[parameter_register(abi, index as int)]),
            m.memory,
        ),
{
    reveal(emitted_register_load);
    let number = parameter_register(abi, index as int);
    if number == 7 {
        let bytes = [0x48u8, 0x89, 0xf8]@;
        put_grows(f, s, bytes);
        put_stands(whole, f, s, bytes);
        assert(bytes[0] == 0x48 && bytes[1] == 0x89 && bytes[2] == 0xf8);
        move_rax_rdi_is_read(whole, m.at);
        let after = Machine { registers: m.registers.update(0, m.registers[7]), at: m.at + 3, ..m };
        assert(next(whole, m) == Outcome::Running(after)) by {
            reveal(performed);
        }
        one_step_becomes(whole, m, after);
    } else if number == 6 {
        let bytes = [0x48u8, 0x89, 0xf0]@;
        put_grows(f, s, bytes);
        put_stands(whole, f, s, bytes);
        assert(bytes[0] == 0x48 && bytes[1] == 0x89 && bytes[2] == 0xf0);
        move_rax_rsi_is_read(whole, m.at);
        let after = Machine { registers: m.registers.update(0, m.registers[6]), at: m.at + 3, ..m };
        assert(next(whole, m) == Outcome::Running(after)) by {
            reveal(performed);
        }
        one_step_becomes(whole, m, after);
    } else if number == 2 {
        let bytes = [0x48u8, 0x89, 0xd0]@;
        put_grows(f, s, bytes);
        put_stands(whole, f, s, bytes);
        assert(bytes[0] == 0x48 && bytes[1] == 0x89 && bytes[2] == 0xd0);
        move_rax_rdx_is_read(whole, m.at);
        let after = Machine { registers: m.registers.update(0, m.registers[2]), at: m.at + 3, ..m };
        assert(next(whole, m) == Outcome::Running(after)) by {
            reveal(performed);
        }
        one_step_becomes(whole, m, after);
    } else if number == 1 {
        let bytes = [0x48u8, 0x89, 0xc8]@;
        put_grows(f, s, bytes);
        put_stands(whole, f, s, bytes);
        assert(bytes[0] == 0x48 && bytes[1] == 0x89 && bytes[2] == 0xc8);
        move_rax_rcx_is_read(whole, m.at);
        let after = Machine { registers: m.registers.update(0, m.registers[1]), at: m.at + 3, ..m };
        assert(next(whole, m) == Outcome::Running(after)) by {
            reveal(performed);
        }
        one_step_becomes(whole, m, after);
    } else if number == 8 {
        let bytes = [0x4cu8, 0x89, 0xc0]@;
        put_grows(f, s, bytes);
        put_stands(whole, f, s, bytes);
        assert(bytes[0] == 0x4c && bytes[1] == 0x89 && bytes[2] == 0xc0);
        move_rax_r8_is_read(whole, m.at);
        let after = Machine { registers: m.registers.update(0, m.registers[8]), at: m.at + 3, ..m };
        assert(next(whole, m) == Outcome::Running(after)) by {
            reveal(performed);
        }
        one_step_becomes(whole, m, after);
    } else if number == 9 {
        let bytes = [0x4cu8, 0x89, 0xc8]@;
        put_grows(f, s, bytes);
        put_stands(whole, f, s, bytes);
        assert(bytes[0] == 0x4c && bytes[1] == 0x89 && bytes[2] == 0xc8);
        move_rax_r9_is_read(whole, m.at);
        let after = Machine { registers: m.registers.update(0, m.registers[9]), at: m.at + 3, ..m };
        assert(next(whole, m) == Outcome::Running(after)) by {
            reveal(performed);
        }
        one_step_becomes(whole, m, after);
    }
}

/// A machine that has pushed a register.
pub open spec fn after_push(m: Machine, number: int) -> (Seq<u64>, Map<int, u8>) {
    let top = stack_address(m, -8);
    (m.registers.update(4, top as u64), stored(m.memory, top, 8, m.registers[number] as int))
}

/// A parameter is saved from the register in which the convention hands it over.
#[verifier::rlimit(40)]
pub proof fn a_parameter_register_is_saved<R: ConstantResolver, const P: usize, const N: usize>(
    whole: Seq<u8>,
    f: Frame<R, P, N>,
    s: Emission,
    abi: X86_64Abi,
    index: usize,
    m: Machine,
)
    requires
        emitted_parameter_push(f, s, abi, index).failure is None,
        stands(whole, s, emitted_parameter_push(f, s, abi, index)),
        m.at == s.code.len(),
        m.registers.len() == 16,
    ensures
        becomes(
            whole,
            m,
            emitted_parameter_push(f, s, abi, index).code.len() as int,
            after_push(m, parameter_register(abi, index as int)).0,
            after_push(m, parameter_register(abi, index as int)).1,
        ),
{
    reveal(emitted_parameter_push);
    let number = parameter_register(abi, index as int);
    if number == 7 {
        let bytes = [0x57u8]@;
        put_grows(f, s, bytes);
        put_stands(whole, f, s, bytes);
        assert(bytes[0] == 0x57);
        push_rdi_is_read(whole, m.at);
        let after = Machine { registers: after_push(m, 7).0, memory: after_push(m, 7).1, at: m.at + 1, ..m };
        assert(next(whole, m) == Outcome::Running(after)) by {
            reveal(performed);
        }
        one_step_becomes(whole, m, after);
    } else if number == 6 {
        let bytes = [0x56u8]@;
        put_grows(f, s, bytes);
        put_stands(whole, f, s, bytes);
        assert(bytes[0] == 0x56);
        push_rsi_is_read(whole, m.at);
        let after = Machine { registers: after_push(m, 6).0, memory: after_push(m, 6).1, at: m.at + 1, ..m };
        assert(next(whole, m) == Outcome::Running(after)) by {
            reveal(performed);
        }
        one_step_becomes(whole, m, after);
    } else if number == 2 {
        let bytes = [0x52u8]@;
        put_grows(f, s, bytes);
        put_stands(whole, f, s, bytes);
        assert(bytes[0] == 0x52);
        push_rdx_is_read(whole, m.at);
        let after = Machine { registers: after_push(m, 2).0, memory: after_push(m, 2).1, at: m.at + 1, ..m };
        assert(next(whole, m) == Outcome::Running(after)) by {
            reveal(performed);
        }
        one_step_becomes(whole, m, after);
    } else if number == 1 {
        let bytes = [0x51u8]@;
        put_grows(f, s, bytes);
        put_stands(whole, f, s, bytes);
        assert(bytes[0] == 0x51);
        push_rcx_is_read(whole, m.at);
        let after = Machine { registers: after_push(m, 1).0, memory: after_push(m, 1).1, at: m.at + 1, ..m };
        assert(next(whole, m) == Outcome::Running(after)) by {
            reveal(performed);
        }
        one_step_becomes(whole, m, after);
    } else if number == 8 {
        let bytes = [0x41u8, 0x50]@;
        put_grows(f, s, bytes);
        put_stands(whole, f, s, bytes);
        assert(bytes[0] == 0x41 && bytes[1] == 0x50);
        push_r8_is_read(whole, m.at);
        let after = Machine { registers: after_push(m, 8).0, memory: after_push(m, 8).1, at: m.at + 2, ..m };
        assert(next(whole, m) == Outcome::Running(after)) by {
            reveal(performed);
        }
        one_step_becomes(whole, m, after);
    } else if number == 9 {
        let bytes = [0x41u8, 0x51]@;
        put_grows(f, s, bytes);
        put_stands(whole, f, s, bytes);
        assert(bytes[0] == 0x41 && bytes[1] == 0x51);
        push_r9_is_read(whole, m.at);
        let after = Machine { registers: after_push(m, 9).0, memory: after_push(m, 9).1, at: m.at + 2, ..m };
        assert(next(whole, m) == Outcome::Running(after)) by {
            reveal(performed);
        }
        one_step_becomes(whole, m, after);
    }
}

/// The index of an element stands in the slot below the top of the stack.
#[verifier::rlimit(40)]
pub proof fn an_indexed_element_stands_behind_the_first<R: ConstantResolver, const P: usize, const N: usize>(
    whole: Seq<u8>,
    f: Frame<R, P, N>,
    s: Emission,
    element_bytes: usize,
    m: Machine,
)
    requires
        emitted_indexed_address(f, s, element_bytes).failure is None,
        stands(whole, s, emitted_indexed_address(f, s, element_bytes)),
        m.at == s.code.len(),
        m.registers.len() == 16,
    ensures
        becomes(
            whole,
            m,
            emitted_indexed_address(f, s, element_bytes).code.len() as int,
            ({
                let index = loaded(m.memory, stack_address(m, 8), 8);
                m.registers.update(1, index as u64).update(
                    0,
                    ((m.registers[0] + index * element_bytes) % register_modulus()) as u64,
                )
            }),
            m.memory,
        ),
{
    reveal(emitted_indexed_address);
    let bytes = [0x48u8, 0x8b, 0x4c, 0x24, 0x08]@;
    let middle = put(f, s, bytes);
    let end = emitted_indexed_address(f, s, element_bytes);
    let index = loaded(m.memory, stack_address(m, 8), 8);
    loaded_fits(m.memory, stack_address(m, 8));
    assert(middle.failure is None) by {
        reveal(emitted_element_address);
        reveal(put);
    }
    put_grows(f, s, bytes);
    assert(grown(middle, end)) by {
        reveal(grown);
        reveal(emitted_element_address);
        reveal(put);
    }
    both_parts_stand(whole, s, middle, end);
    put_stands(whole, f, s, bytes);
    assert(bytes[0] == 0x48 && bytes[1] == 0x8b && bytes[2] == 0x4c && bytes[3] == 0x24 && bytes[4] == 0x08);
    load_rcx_below_top_is_read(whole, m.at);
    let after = Machine { registers: m.registers.update(1, index as u64), at: m.at + 5, ..m };
    assert(next(whole, m) == Outcome::Running(after)) by {
        reveal(performed);
    }
    if element_bytes == 0 {
        near_registers(m.registers[0] as int);
        assert(index * element_bytes == 0) by (nonlinear_arith)
            requires
                element_bytes == 0,
        ;
        assert(after.registers.update(0, m.registers[0]) =~= after.registers);
        one_step_becomes(whole, m, after);
    } else {
        an_element_stands_its_index_times_its_size_behind_the_first(whole, f, middle, element_bytes, after);
        step_becomes(
            whole,
            m,
            after,
            end.code.len() as int,
            after.registers.update(
                0,
                ((after.registers[0] + after.registers[1] * element_bytes)
                    % register_modulus()) as u64,
            ),
            m.memory,
        );
    }
}

/// The index of an element stands in the slot below the top of the stack.
#[verifier::rlimit(40)]
pub proof fn an_indexed_stored_element_stands_behind_the_first<R: ConstantResolver, const P: usize, const N: usize>(
    whole: Seq<u8>,
    f: Frame<R, P, N>,
    s: Emission,
    element_bytes: usize,
    m: Machine,
)
    requires
        emitted_indexed_store_address(f, s, element_bytes).failure is None,
        stands(whole, s, emitted_indexed_store_address(f, s, element_bytes)),
        m.at == s.code.len(),
        m.registers.len() == 16,
    ensures
        becomes(
            whole,
            m,
            emitted_indexed_store_address(f, s, element_bytes).code.len() as int,
            ({
                let index = loaded(m.memory, stack_address(m, 8), 8);
                m.registers.update(1, index as u64).update(
                    2,
                    ((m.registers[2] + index * element_bytes) % register_modulus()) as u64,
                )
            }),
            m.memory,
        ),
{
    reveal(emitted_indexed_store_address);
    let bytes = [0x48u8, 0x8b, 0x4c, 0x24, 0x08]@;
    let middle = put(f, s, bytes);
    let end = emitted_indexed_store_address(f, s, element_bytes);
    let index = loaded(m.memory, stack_address(m, 8), 8);
    loaded_fits(m.memory, stack_address(m, 8));
    assert(middle.failure is None) by {
        reveal(emitted_element_store_address);
        reveal(put);
    }
    put_grows(f, s, bytes);
    assert(grown(middle, end)) by {
        reveal(grown);
        reveal(emitted_element_store_address);
        reveal(put);
    }
    both_parts_stand(whole, s, middle, end);
    put_stands(whole, f, s, bytes);
    assert(bytes[0] == 0x48 && bytes[1] == 0x8b && bytes[2] == 0x4c && bytes[3] == 0x24 && bytes[4] == 0x08);
    load_rcx_below_top_is_read(whole, m.at);
    let after = Machine { registers: m.registers.update(1, index as u64), at: m.at + 5, ..m };
    assert(next(whole, m) == Outcome::Running(after)) by {
        reveal(performed);
    }
    a_stored_element_stands_its_index_times_its_size_behind_the_first(whole, f, middle, element_bytes, after);
    step_becomes(
        whole,
        m,
        after,
        end.code.len() as int,
        after.registers.update(
            2,
            ((after.registers[2] + after.registers[1] * element_bytes) % register_modulus()) as u64,
        ),
        m.memory,
    );
}

/// At its end a function drops what it has put on the stack, and returns with the rest untouched.
pub proof fn a_function_returns_with_its_stack_dropped<R: ConstantResolver, const P: usize, const N: usize>(
    whole: Seq<u8>,
    f: Frame<R, P, N>,
    s: Emission,
    m: Machine,
)
    requires
        emitted_epilogue(f, s).failure is None,
        stands(whole, s, emitted_epilogue(f, s)),
        m.at == s.code.len(),
        m.registers.len() == 16,
        8 * (f.saved_parameter_slots + slots_sum(s.locals, 0)) < 0x8000_0000,
        0 <= slots_sum(s.locals, 0),
    ensures
        exists|after: Machine| #[trigger]
            leads(whole, m, Outcome::Returned(after)) && after.memory == m.memory && after.registers
                == m.registers.update(
                4,
                stack_address(m, 8 * (f.saved_parameter_slots + slots_sum(s.locals, 0))) as u64,
            ),
{
    reveal(emitted_epilogue);
    reveal(slots_from);
    let slots = f.saved_parameter_slots + slots_sum(s.locals, 0);
    let bytes = (slots * 8) as usize;
    let kind = CodegenErrorKind::TooManyAbiParameters;
    let middle = emitted_cleanup(f, s, bytes, kind);
    let end = put(f, middle, [0xc3u8]@);
    put_grows(f, middle, [0xc3u8]@);
    assert(grown(s, middle)) by {
        reveal(emitted_cleanup);
        reveal(grown);
        reveal(put);
    }
    both_parts_stand(whole, s, middle, end);
    a_cleanup_drops_bytes(whole, f, s, bytes, kind, m);
    let after = becoming(
        whole,
        m,
        middle.code.len() as int,
        m.registers.update(4, stack_address(m, bytes as int) as u64),
        m.memory,
    );
    put_stands(whole, f, middle, [0xc3u8]@);
    assert([0xc3u8]@[0] == 0xc3);
    return_is_read(whole, after.at);
    let returned = Machine { at: after.at + 1, ..after };
    assert(next(whole, after) == Outcome::Returned(returned)) by {
        reveal(performed);
    }
    next_leads(whole, after);
    leading_goes_on(whole, m, after, Outcome::Returned(returned));
}

} // verus!
