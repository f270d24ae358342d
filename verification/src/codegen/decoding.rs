//! What the instructions of the code are, byte by byte.
use crate::codegen::machine::{
    short_at, step_at, unsigned_word_at, word_at, Arithmetic, Operand, Operation, Shifting, Step,
};
use vstd::prelude::*;

verus! {

pub(crate) proof fn add_rax_rcx_is_read(code: Seq<u8>, at: int)
    requires
        0 <= at,
        at + 3 <= code.len(),
        code[at] == 0x48u8,
        code[at + 1] == 0x01u8,
        code[at + 2] == 0xc8u8,
    ensures
        step_at(code, at) == Some((Step::Operate { operation: Operation::Add, size: 64, to: Operand::Register(0), from: Operand::Register(1) }, at + 3)),
{
    reveal(step_at);
}

pub(crate) proof fn add_rdx_rcx_is_read(code: Seq<u8>, at: int)
    requires
        0 <= at,
        at + 3 <= code.len(),
        code[at] == 0x48u8,
        code[at + 1] == 0x01u8,
        code[at + 2] == 0xcau8,
    ensures
        step_at(code, at) == Some((Step::Operate { operation: Operation::Add, size: 64, to: Operand::Register(2), from: Operand::Register(1) }, at + 3)),
{
    reveal(step_at);
}

pub(crate) proof fn or_rax_rcx_is_read(code: Seq<u8>, at: int)
    requires
        0 <= at,
        at + 3 <= code.len(),
        code[at] == 0x48u8,
        code[at + 1] == 0x09u8,
        code[at + 2] == 0xc8u8,
    ensures
        step_at(code, at) == Some((Step::Operate { operation: Operation::Or, size: 64, to: Operand::Register(0), from: Operand::Register(1) }, at + 3)),
{
    reveal(step_at);
}

pub(crate) proof fn and_rax_rcx_is_read(code: Seq<u8>, at: int)
    requires
        0 <= at,
        at + 3 <= code.len(),
        code[at] == 0x48u8,
        code[at + 1] == 0x21u8,
        code[at + 2] == 0xc8u8,
    ensures
        step_at(code, at) == Some((Step::Operate { operation: Operation::And, size: 64, to: Operand::Register(0), from: Operand::Register(1) }, at + 3)),
{
    reveal(step_at);
}

pub(crate) proof fn sub_rcx_rax_is_read(code: Seq<u8>, at: int)
    requires
        0 <= at,
        at + 3 <= code.len(),
        code[at] == 0x48u8,
        code[at + 1] == 0x29u8,
        code[at + 2] == 0xc1u8,
    ensures
        step_at(code, at) == Some((Step::Operate { operation: Operation::Subtract, size: 64, to: Operand::Register(1), from: Operand::Register(0) }, at + 3)),
{
    reveal(step_at);
}

pub(crate) proof fn xor_rax_rcx_is_read(code: Seq<u8>, at: int)
    requires
        0 <= at,
        at + 3 <= code.len(),
        code[at] == 0x48u8,
        code[at + 1] == 0x31u8,
        code[at + 2] == 0xc8u8,
    ensures
        step_at(code, at) == Some((Step::Operate { operation: Operation::Xor, size: 64, to: Operand::Register(0), from: Operand::Register(1) }, at + 3)),
{
    reveal(step_at);
}

pub(crate) proof fn xor_rdx_rdx_is_read(code: Seq<u8>, at: int)
    requires
        0 <= at,
        at + 3 <= code.len(),
        code[at] == 0x48u8,
        code[at + 1] == 0x31u8,
        code[at + 2] == 0xd2u8,
    ensures
        step_at(code, at) == Some((Step::Operate { operation: Operation::Xor, size: 64, to: Operand::Register(2), from: Operand::Register(2) }, at + 3)),
{
    reveal(step_at);
}

pub(crate) proof fn compare_rax_rdx_is_read(code: Seq<u8>, at: int)
    requires
        0 <= at,
        at + 3 <= code.len(),
        code[at] == 0x48u8,
        code[at + 1] == 0x39u8,
        code[at + 2] == 0xd0u8,
    ensures
        step_at(code, at) == Some((Step::Operate { operation: Operation::Compare, size: 64, to: Operand::Register(0), from: Operand::Register(2) }, at + 3)),
{
    reveal(step_at);
}

pub(crate) proof fn compare_rcx_rax_is_read(code: Seq<u8>, at: int)
    requires
        0 <= at,
        at + 3 <= code.len(),
        code[at] == 0x48u8,
        code[at + 1] == 0x39u8,
        code[at + 2] == 0xc1u8,
    ensures
        step_at(code, at) == Some((Step::Operate { operation: Operation::Compare, size: 64, to: Operand::Register(1), from: Operand::Register(0) }, at + 3)),
{
    reveal(step_at);
}

pub(crate) proof fn compare_rcx_short_is_read(code: Seq<u8>, at: int)
    requires
        0 <= at,
        at + 4 <= code.len(),
        code[at] == 0x48u8,
        code[at + 1] == 0x83u8,
        code[at + 2] == 0xf9u8,
    ensures
        step_at(code, at) == Some((Step::Operate { operation: Operation::Compare, size: 64, to: Operand::Register(1), from: Operand::Immediate(short_at(code, at + 3)) }, at + 4)),
{
    reveal(step_at);
}

pub(crate) proof fn add_rsp_short_is_read(code: Seq<u8>, at: int)
    requires
        0 <= at,
        at + 4 <= code.len(),
        code[at] == 0x48u8,
        code[at + 1] == 0x83u8,
        code[at + 2] == 0xc4u8,
    ensures
        step_at(code, at) == Some((Step::Operate { operation: Operation::Add, size: 64, to: Operand::Register(4), from: Operand::Immediate(short_at(code, at + 3)) }, at + 4)),
{
    reveal(step_at);
}

pub(crate) proof fn add_rsp_word_is_read(code: Seq<u8>, at: int)
    requires
        0 <= at,
        at + 7 <= code.len(),
        code[at] == 0x48u8,
        code[at + 1] == 0x81u8,
        code[at + 2] == 0xc4u8,
    ensures
        step_at(code, at) == Some((Step::Operate { operation: Operation::Add, size: 64, to: Operand::Register(4), from: Operand::Immediate(word_at(code, at + 3)) }, at + 7)),
{
    reveal(step_at);
}

pub(crate) proof fn and_ecx_short_is_read(code: Seq<u8>, at: int)
    requires
        0 <= at,
        at + 3 <= code.len(),
        code[at] == 0x83u8,
        code[at + 1] == 0xe1u8,
    ensures
        step_at(code, at) == Some((Step::Operate { operation: Operation::And, size: 32, to: Operand::Register(1), from: Operand::Immediate(short_at(code, at + 2)) }, at + 3)),
{
    reveal(step_at);
}

pub(crate) proof fn test_rax_rax_is_read(code: Seq<u8>, at: int)
    requires
        0 <= at,
        at + 3 <= code.len(),
        code[at] == 0x48u8,
        code[at + 1] == 0x85u8,
        code[at + 2] == 0xc0u8,
    ensures
        step_at(code, at) == Some((Step::Operate { operation: Operation::Test, size: 64, to: Operand::Register(0), from: Operand::Register(0) }, at + 3)),
{
    reveal(step_at);
}

pub(crate) proof fn test_rcx_rcx_is_read(code: Seq<u8>, at: int)
    requires
        0 <= at,
        at + 3 <= code.len(),
        code[at] == 0x48u8,
        code[at + 1] == 0x85u8,
        code[at + 2] == 0xc9u8,
    ensures
        step_at(code, at) == Some((Step::Operate { operation: Operation::Test, size: 64, to: Operand::Register(1), from: Operand::Register(1) }, at + 3)),
{
    reveal(step_at);
}

pub(crate) proof fn test_rdx_rdx_is_read(code: Seq<u8>, at: int)
    requires
        0 <= at,
        at + 3 <= code.len(),
        code[at] == 0x48u8,
        code[at + 1] == 0x85u8,
        code[at + 2] == 0xd2u8,
    ensures
        step_at(code, at) == Some((Step::Operate { operation: Operation::Test, size: 64, to: Operand::Register(2), from: Operand::Register(2) }, at + 3)),
{
    reveal(step_at);
}

pub(crate) proof fn exchange_rcx_rax_is_read(code: Seq<u8>, at: int)
    requires
        0 <= at,
        at + 3 <= code.len(),
        code[at] == 0x48u8,
        code[at + 1] == 0x87u8,
        code[at + 2] == 0xc1u8,
    ensures
        step_at(code, at) == Some((Step::Exchange { size: 64, first: 0, second: Operand::Register(1) }, at + 3)),
{
    reveal(step_at);
}

pub(crate) proof fn move_rax_rcx_is_read(code: Seq<u8>, at: int)
    requires
        0 <= at,
        at + 3 <= code.len(),
        code[at] == 0x48u8,
        code[at + 1] == 0x89u8,
        code[at + 2] == 0xc8u8,
    ensures
        step_at(code, at) == Some((Step::Move { size: 64, to: Operand::Register(0), from: Operand::Register(1) }, at + 3)),
{
    reveal(step_at);
}

pub(crate) proof fn move_rax_rdx_is_read(code: Seq<u8>, at: int)
    requires
        0 <= at,
        at + 3 <= code.len(),
        code[at] == 0x48u8,
        code[at + 1] == 0x89u8,
        code[at + 2] == 0xd0u8,
    ensures
        step_at(code, at) == Some((Step::Move { size: 64, to: Operand::Register(0), from: Operand::Register(2) }, at + 3)),
{
    reveal(step_at);
}

pub(crate) proof fn move_rax_r8_is_read(code: Seq<u8>, at: int)
    requires
        0 <= at,
        at + 3 <= code.len(),
        code[at] == 0x4cu8,
        code[at + 1] == 0x89u8,
        code[at + 2] == 0xc0u8,
    ensures
        step_at(code, at) == Some((Step::Move { size: 64, to: Operand::Register(0), from: Operand::Register(8) }, at + 3)),
{
    reveal(step_at);
}

pub(crate) proof fn move_rax_r9_is_read(code: Seq<u8>, at: int)
    requires
        0 <= at,
        at + 3 <= code.len(),
        code[at] == 0x4cu8,
        code[at + 1] == 0x89u8,
        code[at + 2] == 0xc8u8,
    ensures
        step_at(code, at) == Some((Step::Move { size: 64, to: Operand::Register(0), from: Operand::Register(9) }, at + 3)),
{
    reveal(step_at);
}

pub(crate) proof fn move_rax_rdi_is_read(code: Seq<u8>, at: int)
    requires
        0 <= at,
        at + 3 <= code.len(),
        code[at] == 0x48u8,
        code[at + 1] == 0x89u8,
        code[at + 2] == 0xf8u8,
    ensures
        step_at(code, at) == Some((Step::Move { size: 64, to: Operand::Register(0), from: Operand::Register(7) }, at + 3)),
{
    reveal(step_at);
}

pub(crate) proof fn move_rax_rsi_is_read(code: Seq<u8>, at: int)
    requires
        0 <= at,
        at + 3 <= code.len(),
        code[at] == 0x48u8,
        code[at + 1] == 0x89u8,
        code[at + 2] == 0xf0u8,
    ensures
        step_at(code, at) == Some((Step::Move { size: 64, to: Operand::Register(0), from: Operand::Register(6) }, at + 3)),
{
    reveal(step_at);
}

pub(crate) proof fn move_eax_eax_is_read(code: Seq<u8>, at: int)
    requires
        0 <= at,
        at + 2 <= code.len(),
        code[at] == 0x89u8,
        code[at + 1] == 0xc0u8,
    ensures
        step_at(code, at) == Some((Step::Move { size: 32, to: Operand::Register(0), from: Operand::Register(0) }, at + 2)),
{
    reveal(step_at);
}

pub(crate) proof fn load_rcx_below_top_is_read(code: Seq<u8>, at: int)
    requires
        0 <= at,
        at + 5 <= code.len(),
        code[at] == 0x48u8,
        code[at + 1] == 0x8bu8,
        code[at + 2] == 0x4cu8,
        code[at + 3] == 0x24u8,
        code[at + 4] == 0x08u8,
    ensures
        step_at(code, at) == Some((Step::Move { size: 64, to: Operand::Register(1), from: Operand::Memory { base: 4, index: None, displacement: 8 } }, at + 5)),
{
    reveal(step_at);
}

pub(crate) proof fn load_rax_slot_short_is_read(code: Seq<u8>, at: int)
    requires
        0 <= at,
        at + 5 <= code.len(),
        code[at] == 0x48u8,
        code[at + 1] == 0x8bu8,
        code[at + 2] == 0x44u8,
        code[at + 3] == 0x24u8,
    ensures
        step_at(code, at) == Some((Step::Move { size: 64, to: Operand::Register(0), from: Operand::Memory { base: 4, index: None, displacement: short_at(code, at + 4) } }, at + 5)),
{
    reveal(step_at);
}

pub(crate) proof fn load_rax_slot_word_is_read(code: Seq<u8>, at: int)
    requires
        0 <= at,
        at + 8 <= code.len(),
        code[at] == 0x48u8,
        code[at + 1] == 0x8bu8,
        code[at + 2] == 0x84u8,
        code[at + 3] == 0x24u8,
    ensures
        step_at(code, at) == Some((Step::Move { size: 64, to: Operand::Register(0), from: Operand::Memory { base: 4, index: None, displacement: word_at(code, at + 4) } }, at + 8)),
{
    reveal(step_at);
}

pub(crate) proof fn store_rax_slot_short_is_read(code: Seq<u8>, at: int)
    requires
        0 <= at,
        at + 5 <= code.len(),
        code[at] == 0x48u8,
        code[at + 1] == 0x89u8,
        code[at + 2] == 0x44u8,
        code[at + 3] == 0x24u8,
    ensures
        step_at(code, at) == Some((Step::Move { size: 64, to: Operand::Memory { base: 4, index: None, displacement: short_at(code, at + 4) }, from: Operand::Register(0) }, at + 5)),
{
    reveal(step_at);
}

pub(crate) proof fn store_rax_slot_word_is_read(code: Seq<u8>, at: int)
    requires
        0 <= at,
        at + 8 <= code.len(),
        code[at] == 0x48u8,
        code[at + 1] == 0x89u8,
        code[at + 2] == 0x84u8,
        code[at + 3] == 0x24u8,
    ensures
        step_at(code, at) == Some((Step::Move { size: 64, to: Operand::Memory { base: 4, index: None, displacement: word_at(code, at + 4) }, from: Operand::Register(0) }, at + 8)),
{
    reveal(step_at);
}

pub(crate) proof fn address_rax_slot_short_is_read(code: Seq<u8>, at: int)
    requires
        0 <= at,
        at + 5 <= code.len(),
        code[at] == 0x48u8,
        code[at + 1] == 0x8du8,
        code[at + 2] == 0x44u8,
        code[at + 3] == 0x24u8,
    ensures
        step_at(code, at) == Some((Step::Address { to: 0, address: Operand::Memory { base: 4, index: None, displacement: short_at(code, at + 4) } }, at + 5)),
{
    reveal(step_at);
}

pub(crate) proof fn address_rax_slot_word_is_read(code: Seq<u8>, at: int)
    requires
        0 <= at,
        at + 8 <= code.len(),
        code[at] == 0x48u8,
        code[at + 1] == 0x8du8,
        code[at + 2] == 0x84u8,
        code[at + 3] == 0x24u8,
    ensures
        step_at(code, at) == Some((Step::Address { to: 0, address: Operand::Memory { base: 4, index: None, displacement: word_at(code, at + 4) } }, at + 8)),
{
    reveal(step_at);
}

pub(crate) proof fn address_rax_twice_is_read(code: Seq<u8>, at: int)
    requires
        0 <= at,
        at + 4 <= code.len(),
        code[at] == 0x48u8,
        code[at + 1] == 0x8du8,
        code[at + 2] == 0x04u8,
        code[at + 3] == 0x48u8,
    ensures
        step_at(code, at) == Some((Step::Address { to: 0, address: Operand::Memory { base: 0, index: Some((1, 2)), displacement: 0 } }, at + 4)),
{
    reveal(step_at);
}

pub(crate) proof fn address_rax_four_is_read(code: Seq<u8>, at: int)
    requires
        0 <= at,
        at + 4 <= code.len(),
        code[at] == 0x48u8,
        code[at + 1] == 0x8du8,
        code[at + 2] == 0x04u8,
        code[at + 3] == 0x88u8,
    ensures
        step_at(code, at) == Some((Step::Address { to: 0, address: Operand::Memory { base: 0, index: Some((1, 4)), displacement: 0 } }, at + 4)),
{
    reveal(step_at);
}

pub(crate) proof fn address_rax_eight_is_read(code: Seq<u8>, at: int)
    requires
        0 <= at,
        at + 4 <= code.len(),
        code[at] == 0x48u8,
        code[at + 1] == 0x8du8,
        code[at + 2] == 0x04u8,
        code[at + 3] == 0xc8u8,
    ensures
        step_at(code, at) == Some((Step::Address { to: 0, address: Operand::Memory { base: 0, index: Some((1, 8)), displacement: 0 } }, at + 4)),
{
    reveal(step_at);
}

pub(crate) proof fn address_rdx_twice_is_read(code: Seq<u8>, at: int)
    requires
        0 <= at,
        at + 4 <= code.len(),
        code[at] == 0x48u8,
        code[at + 1] == 0x8du8,
        code[at + 2] == 0x14u8,
        code[at + 3] == 0x4au8,
    ensures
        step_at(code, at) == Some((Step::Address { to: 2, address: Operand::Memory { base: 2, index: Some((1, 2)), displacement: 0 } }, at + 4)),
{
    reveal(step_at);
}

pub(crate) proof fn address_rdx_four_is_read(code: Seq<u8>, at: int)
    requires
        0 <= at,
        at + 4 <= code.len(),
        code[at] == 0x48u8,
        code[at + 1] == 0x8du8,
        code[at + 2] == 0x14u8,
        code[at + 3] == 0x8au8,
    ensures
        step_at(code, at) == Some((Step::Address { to: 2, address: Operand::Memory { base: 2, index: Some((1, 4)), displacement: 0 } }, at + 4)),
{
    reveal(step_at);
}

pub(crate) proof fn address_rdx_eight_is_read(code: Seq<u8>, at: int)
    requires
        0 <= at,
        at + 4 <= code.len(),
        code[at] == 0x48u8,
        code[at + 1] == 0x8du8,
        code[at + 2] == 0x14u8,
        code[at + 3] == 0xcau8,
    ensures
        step_at(code, at) == Some((Step::Address { to: 2, address: Operand::Memory { base: 2, index: Some((1, 8)), displacement: 0 } }, at + 4)),
{
    reveal(step_at);
}

pub(crate) proof fn load_rax_rax_is_read(code: Seq<u8>, at: int)
    requires
        0 <= at,
        at + 3 <= code.len(),
        code[at] == 0x48u8,
        code[at + 1] == 0x8bu8,
        code[at + 2] == 0x00u8,
    ensures
        step_at(code, at) == Some((Step::Move { size: 64, to: Operand::Register(0), from: Operand::Memory { base: 0, index: None, displacement: 0 } }, at + 3)),
{
    reveal(step_at);
}

pub(crate) proof fn load_eax_rax_is_read(code: Seq<u8>, at: int)
    requires
        0 <= at,
        at + 2 <= code.len(),
        code[at] == 0x8bu8,
        code[at + 1] == 0x00u8,
    ensures
        step_at(code, at) == Some((Step::Move { size: 32, to: Operand::Register(0), from: Operand::Memory { base: 0, index: None, displacement: 0 } }, at + 2)),
{
    reveal(step_at);
}

pub(crate) proof fn load_byte_rax_is_read(code: Seq<u8>, at: int)
    requires
        0 <= at,
        at + 3 <= code.len(),
        code[at] == 0x0fu8,
        code[at + 1] == 0xb6u8,
        code[at + 2] == 0x00u8,
    ensures
        step_at(code, at) == Some((Step::Widen { signed: false, size: 32, to: 0, from_size: 8, from: Operand::Memory { base: 0, index: None, displacement: 0 } }, at + 3)),
{
    reveal(step_at);
}

pub(crate) proof fn load_half_rax_is_read(code: Seq<u8>, at: int)
    requires
        0 <= at,
        at + 3 <= code.len(),
        code[at] == 0x0fu8,
        code[at + 1] == 0xb7u8,
        code[at + 2] == 0x00u8,
    ensures
        step_at(code, at) == Some((Step::Widen { signed: false, size: 32, to: 0, from_size: 16, from: Operand::Memory { base: 0, index: None, displacement: 0 } }, at + 3)),
{
    reveal(step_at);
}

pub(crate) proof fn load_signed_byte_rax_is_read(code: Seq<u8>, at: int)
    requires
        0 <= at,
        at + 4 <= code.len(),
        code[at] == 0x48u8,
        code[at + 1] == 0x0fu8,
        code[at + 2] == 0xbeu8,
        code[at + 3] == 0x00u8,
    ensures
        step_at(code, at) == Some((Step::Widen { signed: true, size: 64, to: 0, from_size: 8, from: Operand::Memory { base: 0, index: None, displacement: 0 } }, at + 4)),
{
    reveal(step_at);
}

pub(crate) proof fn load_signed_half_rax_is_read(code: Seq<u8>, at: int)
    requires
        0 <= at,
        at + 4 <= code.len(),
        code[at] == 0x48u8,
        code[at + 1] == 0x0fu8,
        code[at + 2] == 0xbfu8,
        code[at + 3] == 0x00u8,
    ensures
        step_at(code, at) == Some((Step::Widen { signed: true, size: 64, to: 0, from_size: 16, from: Operand::Memory { base: 0, index: None, displacement: 0 } }, at + 4)),
{
    reveal(step_at);
}

pub(crate) proof fn load_signed_word_rax_is_read(code: Seq<u8>, at: int)
    requires
        0 <= at,
        at + 3 <= code.len(),
        code[at] == 0x48u8,
        code[at + 1] == 0x63u8,
        code[at + 2] == 0x00u8,
    ensures
        step_at(code, at) == Some((Step::Widen { signed: true, size: 64, to: 0, from_size: 32, from: Operand::Memory { base: 0, index: None, displacement: 0 } }, at + 3)),
{
    reveal(step_at);
}

pub(crate) proof fn store_al_rdx_is_read(code: Seq<u8>, at: int)
    requires
        0 <= at,
        at + 2 <= code.len(),
        code[at] == 0x88u8,
        code[at + 1] == 0x02u8,
    ensures
        step_at(code, at) == Some((Step::Move { size: 8, to: Operand::Memory { base: 2, index: None, displacement: 0 }, from: Operand::Register(0) }, at + 2)),
{
    reveal(step_at);
}

pub(crate) proof fn store_ax_rdx_is_read(code: Seq<u8>, at: int)
    requires
        0 <= at,
        at + 3 <= code.len(),
        code[at] == 0x66u8,
        code[at + 1] == 0x89u8,
        code[at + 2] == 0x02u8,
    ensures
        step_at(code, at) == Some((Step::Move { size: 16, to: Operand::Memory { base: 2, index: None, displacement: 0 }, from: Operand::Register(0) }, at + 3)),
{
    reveal(step_at);
}

pub(crate) proof fn store_eax_rdx_is_read(code: Seq<u8>, at: int)
    requires
        0 <= at,
        at + 2 <= code.len(),
        code[at] == 0x89u8,
        code[at + 1] == 0x02u8,
    ensures
        step_at(code, at) == Some((Step::Move { size: 32, to: Operand::Memory { base: 2, index: None, displacement: 0 }, from: Operand::Register(0) }, at + 2)),
{
    reveal(step_at);
}

pub(crate) proof fn store_rax_rdx_is_read(code: Seq<u8>, at: int)
    requires
        0 <= at,
        at + 3 <= code.len(),
        code[at] == 0x48u8,
        code[at + 1] == 0x89u8,
        code[at + 2] == 0x02u8,
    ensures
        step_at(code, at) == Some((Step::Move { size: 64, to: Operand::Memory { base: 2, index: None, displacement: 0 }, from: Operand::Register(0) }, at + 3)),
{
    reveal(step_at);
}

pub(crate) proof fn widen_al_is_read(code: Seq<u8>, at: int)
    requires
        0 <= at,
        at + 3 <= code.len(),
        code[at] == 0x0fu8,
        code[at + 1] == 0xb6u8,
        code[at + 2] == 0xc0u8,
    ensures
        step_at(code, at) == Some((Step::Widen { signed: false, size: 32, to: 0, from_size: 8, from: Operand::Register(0) }, at + 3)),
{
    reveal(step_at);
}

pub(crate) proof fn widen_ax_is_read(code: Seq<u8>, at: int)
    requires
        0 <= at,
        at + 3 <= code.len(),
        code[at] == 0x0fu8,
        code[at + 1] == 0xb7u8,
        code[at + 2] == 0xc0u8,
    ensures
        step_at(code, at) == Some((Step::Widen { signed: false, size: 32, to: 0, from_size: 16, from: Operand::Register(0) }, at + 3)),
{
    reveal(step_at);
}

pub(crate) proof fn widen_signed_al_is_read(code: Seq<u8>, at: int)
    requires
        0 <= at,
        at + 4 <= code.len(),
        code[at] == 0x48u8,
        code[at + 1] == 0x0fu8,
        code[at + 2] == 0xbeu8,
        code[at + 3] == 0xc0u8,
    ensures
        step_at(code, at) == Some((Step::Widen { signed: true, size: 64, to: 0, from_size: 8, from: Operand::Register(0) }, at + 4)),
{
    reveal(step_at);
}

pub(crate) proof fn widen_signed_ax_is_read(code: Seq<u8>, at: int)
    requires
        0 <= at,
        at + 4 <= code.len(),
        code[at] == 0x48u8,
        code[at + 1] == 0x0fu8,
        code[at + 2] == 0xbfu8,
        code[at + 3] == 0xc0u8,
    ensures
        step_at(code, at) == Some((Step::Widen { signed: true, size: 64, to: 0, from_size: 16, from: Operand::Register(0) }, at + 4)),
{
    reveal(step_at);
}

pub(crate) proof fn widen_signed_eax_is_read(code: Seq<u8>, at: int)
    requires
        0 <= at,
        at + 3 <= code.len(),
        code[at] == 0x48u8,
        code[at + 1] == 0x63u8,
        code[at + 2] == 0xc0u8,
    ensures
        step_at(code, at) == Some((Step::Widen { signed: true, size: 64, to: 0, from_size: 32, from: Operand::Register(0) }, at + 3)),
{
    reveal(step_at);
}

pub(crate) proof fn constant_rax_is_read(code: Seq<u8>, at: int)
    requires
        0 <= at,
        at + 10 <= code.len(),
        code[at] == 0x48u8,
        code[at + 1] == 0xb8u8,
    ensures
        step_at(code, at) == Some((Step::Move { size: 64, to: Operand::Register(0), from: Operand::Immediate(unsigned_word_at(code, at + 2) + 0x1_0000_0000 * unsigned_word_at(code, at + 6)) }, at + 10)),
{
    reveal(step_at);
}

pub(crate) proof fn constant_rdx_is_read(code: Seq<u8>, at: int)
    requires
        0 <= at,
        at + 10 <= code.len(),
        code[at] == 0x48u8,
        code[at + 1] == 0xbau8,
    ensures
        step_at(code, at) == Some((Step::Move { size: 64, to: Operand::Register(2), from: Operand::Immediate(unsigned_word_at(code, at + 2) + 0x1_0000_0000 * unsigned_word_at(code, at + 6)) }, at + 10)),
{
    reveal(step_at);
}

pub(crate) proof fn shift_left_rax_is_read(code: Seq<u8>, at: int)
    requires
        0 <= at,
        at + 3 <= code.len(),
        code[at] == 0x48u8,
        code[at + 1] == 0xd3u8,
        code[at + 2] == 0xe0u8,
    ensures
        step_at(code, at) == Some((Step::Shift { shifting: Shifting::Left, size: 64, to: Operand::Register(0), count: Operand::Register(1) }, at + 3)),
{
    reveal(step_at);
}

pub(crate) proof fn shift_right_rax_is_read(code: Seq<u8>, at: int)
    requires
        0 <= at,
        at + 3 <= code.len(),
        code[at] == 0x48u8,
        code[at + 1] == 0xd3u8,
        code[at + 2] == 0xe8u8,
    ensures
        step_at(code, at) == Some((Step::Shift { shifting: Shifting::Right, size: 64, to: Operand::Register(0), count: Operand::Register(1) }, at + 3)),
{
    reveal(step_at);
}

pub(crate) proof fn shift_signed_right_rax_is_read(code: Seq<u8>, at: int)
    requires
        0 <= at,
        at + 3 <= code.len(),
        code[at] == 0x48u8,
        code[at + 1] == 0xd3u8,
        code[at + 2] == 0xf8u8,
    ensures
        step_at(code, at) == Some((Step::Shift { shifting: Shifting::SignedRight, size: 64, to: Operand::Register(0), count: Operand::Register(1) }, at + 3)),
{
    reveal(step_at);
}

pub(crate) proof fn negate_rax_is_read(code: Seq<u8>, at: int)
    requires
        0 <= at,
        at + 3 <= code.len(),
        code[at] == 0x48u8,
        code[at + 1] == 0xf7u8,
        code[at + 2] == 0xd8u8,
    ensures
        step_at(code, at) == Some((Step::Compute { arithmetic: Arithmetic::Negate, size: 64, with: Operand::Register(0) }, at + 3)),
{
    reveal(step_at);
}

pub(crate) proof fn multiply_rcx_is_read(code: Seq<u8>, at: int)
    requires
        0 <= at,
        at + 3 <= code.len(),
        code[at] == 0x48u8,
        code[at + 1] == 0xf7u8,
        code[at + 2] == 0xe1u8,
    ensures
        step_at(code, at) == Some((Step::Compute { arithmetic: Arithmetic::Multiply, size: 64, with: Operand::Register(1) }, at + 3)),
{
    reveal(step_at);
}

pub(crate) proof fn divide_rcx_is_read(code: Seq<u8>, at: int)
    requires
        0 <= at,
        at + 3 <= code.len(),
        code[at] == 0x48u8,
        code[at + 1] == 0xf7u8,
        code[at + 2] == 0xf1u8,
    ensures
        step_at(code, at) == Some((Step::Compute { arithmetic: Arithmetic::Divide, size: 64, with: Operand::Register(1) }, at + 3)),
{
    reveal(step_at);
}

pub(crate) proof fn signed_divide_rcx_is_read(code: Seq<u8>, at: int)
    requires
        0 <= at,
        at + 3 <= code.len(),
        code[at] == 0x48u8,
        code[at + 1] == 0xf7u8,
        code[at + 2] == 0xf9u8,
    ensures
        step_at(code, at) == Some((Step::Compute { arithmetic: Arithmetic::SignedDivide, size: 64, with: Operand::Register(1) }, at + 3)),
{
    reveal(step_at);
}

pub(crate) proof fn signed_multiply_rax_rcx_is_read(code: Seq<u8>, at: int)
    requires
        0 <= at,
        at + 4 <= code.len(),
        code[at] == 0x48u8,
        code[at + 1] == 0x0fu8,
        code[at + 2] == 0xafu8,
        code[at + 3] == 0xc1u8,
    ensures
        step_at(code, at) == Some((Step::SignedMultiply { size: 64, to: 0, with: Operand::Register(1) }, at + 4)),
{
    reveal(step_at);
}

pub(crate) proof fn spread_sign_is_read(code: Seq<u8>, at: int)
    requires
        0 <= at,
        at + 2 <= code.len(),
        code[at] == 0x48u8,
        code[at + 1] == 0x99u8,
    ensures
        step_at(code, at) == Some((Step::SpreadSign, at + 2)),
{
    reveal(step_at);
}

pub(crate) proof fn push_rax_is_read(code: Seq<u8>, at: int)
    requires
        0 <= at,
        at + 1 <= code.len(),
        code[at] == 0x50u8,
    ensures
        step_at(code, at) == Some((Step::Push(0), at + 1)),
{
    reveal(step_at);
}

pub(crate) proof fn push_rcx_is_read(code: Seq<u8>, at: int)
    requires
        0 <= at,
        at + 1 <= code.len(),
        code[at] == 0x51u8,
    ensures
        step_at(code, at) == Some((Step::Push(1), at + 1)),
{
    reveal(step_at);
}

pub(crate) proof fn push_rdx_is_read(code: Seq<u8>, at: int)
    requires
        0 <= at,
        at + 1 <= code.len(),
        code[at] == 0x52u8,
    ensures
        step_at(code, at) == Some((Step::Push(2), at + 1)),
{
    reveal(step_at);
}

pub(crate) proof fn push_rsi_is_read(code: Seq<u8>, at: int)
    requires
        0 <= at,
        at + 1 <= code.len(),
        code[at] == 0x56u8,
    ensures
        step_at(code, at) == Some((Step::Push(6), at + 1)),
{
    reveal(step_at);
}

pub(crate) proof fn push_rdi_is_read(code: Seq<u8>, at: int)
    requires
        0 <= at,
        at + 1 <= code.len(),
        code[at] == 0x57u8,
    ensures
        step_at(code, at) == Some((Step::Push(7), at + 1)),
{
    reveal(step_at);
}

pub(crate) proof fn push_r8_is_read(code: Seq<u8>, at: int)
    requires
        0 <= at,
        at + 2 <= code.len(),
        code[at] == 0x41u8,
        code[at + 1] == 0x50u8,
    ensures
        step_at(code, at) == Some((Step::Push(8), at + 2)),
{
    reveal(step_at);
}

pub(crate) proof fn push_r9_is_read(code: Seq<u8>, at: int)
    requires
        0 <= at,
        at + 2 <= code.len(),
        code[at] == 0x41u8,
        code[at + 1] == 0x51u8,
    ensures
        step_at(code, at) == Some((Step::Push(9), at + 2)),
{
    reveal(step_at);
}

pub(crate) proof fn pop_rcx_is_read(code: Seq<u8>, at: int)
    requires
        0 <= at,
        at + 1 <= code.len(),
        code[at] == 0x59u8,
    ensures
        step_at(code, at) == Some((Step::Pop(1), at + 1)),
{
    reveal(step_at);
}

pub(crate) proof fn return_is_read(code: Seq<u8>, at: int)
    requires
        0 <= at,
        at + 1 <= code.len(),
        code[at] == 0xc3u8,
    ensures
        step_at(code, at) == Some((Step::Return, at + 1)),
{
    reveal(step_at);
}

pub(crate) proof fn stop_is_read(code: Seq<u8>, at: int)
    requires
        0 <= at,
        at + 2 <= code.len(),
        code[at] == 0x0fu8,
        code[at + 1] == 0x0bu8,
    ensures
        step_at(code, at) == Some((Step::Stop, at + 2)),
{
    reveal(step_at);
}

pub(crate) proof fn jump_is_read(code: Seq<u8>, at: int)
    requires
        0 <= at,
        at + 5 <= code.len(),
        code[at] == 0xe9u8,
    ensures
        step_at(code, at) == Some((Step::Jump { target: at + 5 + word_at(code, at + 1) }, at + 5)),
{
    reveal(step_at);
}

pub(crate) proof fn branch_is_read(code: Seq<u8>, at: int, c: u8)
    requires
        0 <= at,
        at + 6 <= code.len(),
        code[at] == 0x0fu8,
        0x80 <= c <= 0x8f,
        code[at + 1] == c,
    ensures
        step_at(code, at) == Some((Step::Branch { condition: c - 0x80, target: at + 6 + word_at(code, at + 2) }, at + 6)),
{
    reveal(step_at);
}

pub(crate) proof fn short_branch_not_zero_is_read(code: Seq<u8>, at: int)
    requires
        0 <= at,
        at + 2 <= code.len(),
        code[at] == 0x75u8,
    ensures
        step_at(code, at) == Some((Step::Branch { condition: 5, target: at + 2 + short_at(code, at + 1) }, at + 2)),
{
    reveal(step_at);
}

pub(crate) proof fn answer_al_is_read(code: Seq<u8>, at: int, c: u8)
    requires
        0 <= at,
        at + 3 <= code.len(),
        code[at] == 0x0fu8,
        0x90 <= c <= 0x9f,
        code[at + 1] == c,
        code[at + 2] == 0xc0u8,
    ensures
        step_at(code, at) == Some((Step::Answer { condition: c - 0x90, to: Operand::Register(0) }, at + 3)),
{
    reveal(step_at);
}

} // verus!
