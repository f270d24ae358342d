//! Two runs beside each other: the code of instructions.
use crate::codegen::error::CodegenErrorKind;
use crate::codegen::frame::{
    Frame, X86_64Abi, local_named, parameter_named, place_from,
};
use crate::codegen::runtime::{
    RuntimeArrayElementType, RuntimeExpressionType, RuntimeWidth, array_layout,
    element_bytes, local_slots, product_of, sum_of, width_of_char, width_of_integer,
};
use crate::codegen::types::reference_type;
use crate::codegen::typing_rules::comparison;
use crate::codegen::emission::{
    Emission, branch_place, failed, landed, named_register, offset_of, parameter_slots_from,
    place, put, quad_bytes, raised, released, shift_in_word, slots_from, stands_in_word,
    trapped, word_bytes, word_elements,
};
use crate::codegen::encoding::{
    ParameterPassing, code_of_condition, excess, fat_local_named, fat_parameter_named,
    load_of_register, mask_of_shift, mirrored, number_of_locals, packed_form, passing_of,
    place_behind_words, place_of_elements, place_of_packed, place_of_parameter,
    pointer_text, push_of_register, slots_of_length, sum_of_three,
};
use crate::codegen::instructions::{
    emitted_binary, emitted_candidate, emitted_carry_check, emitted_chosen_slots,
    emitted_chosen_stores, emitted_cleanup, emitted_cleanup_bytes, emitted_cleanup_to,
    emitted_constant, emitted_constant_name, emitted_copies, emitted_difference,
    emitted_division, emitted_element_address, emitted_element_store_address,
    emitted_epilogue, emitted_identifier, emitted_identifier_address,
    emitted_indexed_address, emitted_indexed_store_address, emitted_local_element,
    emitted_local_element_store, emitted_local_name, emitted_moved_slots,
    emitted_multiplication, emitted_negated, emitted_normal, emitted_normal_element,
    emitted_normal_width, emitted_original_load, emitted_original_push, emitted_packed,
    emitted_packed_array, emitted_packed_word, emitted_packed_words, emitted_parameter_load,
    emitted_parameter_name, emitted_parameter_push, emitted_parameter_slot,
    emitted_pointed_elements, emitted_prologue, emitted_range_check, emitted_reference_load,
    emitted_reference_store, emitted_register_load, emitted_register_words,
    emitted_result_elements, emitted_scoped_cleanup, emitted_shift, emitted_slice_length,
    emitted_slot_of, emitted_slots_cleanup, emitted_stack_access, emitted_stack_slot,
    emitted_stack_slot_address, emitted_stack_words, emitted_store_stack_slot,
    emitted_string_boundary, emitted_string_range_boundaries, emitted_sum, emitted_swapped,
    emitted_system_v_parameters, emitted_unpacked, emitted_unpacked_word,
    emitted_wide_access, emitted_windows_array, emitted_windows_parameters,
    emitted_windows_word, emitted_zero_array, emitted_zero_slots,
};
use crate::expression::ConstantResolver;
use crate::integer::BinaryOperator;
use crate::codegen::twins::{
    adds_code, emitted_carry_check_adds_code, emitted_normal_adds_code,
    emitted_range_check_adds_code, follow, landed_twins, put_adds_code, put_twins,
    raised_twins, released_twins, same_code, trapped_adds_code, trapped_twins,
    truncated_twins, twins, usual_width,
};
use vstd::prelude::*;

verus! {

pub(crate) proof fn emitted_wide_access_twins<R: ConstantResolver, const P: usize, const N: usize>(
    f: Frame<R, P, N>,
    s1: Emission,
    s2: Emission,
    opcode: u8,
    displacement: usize,
    kind: CodegenErrorKind,
)
    requires
        twins(s1, s2),
    ensures
        follow(
            s1,
            s2,
            emitted_wide_access(f, s1, opcode, displacement, kind),
            emitted_wide_access(f, s2, opcode, displacement, kind),
        ),
{
    reveal(emitted_wide_access);
    if displacement <= 127 {
        put_twins(f, s1, s2, [0x48u8, opcode, 0x44, 0x24, displacement as u8]@);
    } else {
        if displacement <= 0xffff_ffff {
            put_twins(f, s1, s2, [0x48u8, opcode, 0x84, 0x24]@);
            let s1 = put(f, s1, [0x48u8, opcode, 0x84, 0x24]@);
            let s2 = put(f, s2, [0x48u8, opcode, 0x84, 0x24]@);
            put_twins(f, s1, s2, word_bytes(displacement as int));
        }
    }
}

pub(crate) proof fn emitted_stack_access_twins<R: ConstantResolver, const P: usize, const N: usize>(
    f: Frame<R, P, N>,
    s1: Emission,
    s2: Emission,
    opcode: u8,
    slots: usize,
)
    requires
        twins(s1, s2),
    ensures
        follow(
            s1,
            s2,
            emitted_stack_access(f, s1, opcode, slots),
            emitted_stack_access(f, s2, opcode, slots),
        ),
{
    reveal(emitted_stack_access);
    match product_of(slots, 8) {
        None => {},
        Some(displacement) => {
            emitted_wide_access_twins(
                f,
                s1,
                s2,
                opcode,
                displacement,
                CodegenErrorKind::OutputTooSmall,
            );
        },
    }
}

pub(crate) proof fn emitted_stack_slot_twins<R: ConstantResolver, const P: usize, const N: usize>(
    f: Frame<R, P, N>,
    s1: Emission,
    s2: Emission,
    slots: usize,
)
    requires
        twins(s1, s2),
    ensures
        follow(
            s1,
            s2,
            emitted_stack_slot(f, s1, slots),
            emitted_stack_slot(f, s2, slots),
        ),
{
    reveal(emitted_stack_slot);
    emitted_stack_access_twins(f, s1, s2, 0x8b, slots);
}

pub(crate) proof fn emitted_stack_slot_address_twins<R: ConstantResolver, const P: usize, const N: usize>(
    f: Frame<R, P, N>,
    s1: Emission,
    s2: Emission,
    slots: usize,
)
    requires
        twins(s1, s2),
    ensures
        follow(
            s1,
            s2,
            emitted_stack_slot_address(f, s1, slots),
            emitted_stack_slot_address(f, s2, slots),
        ),
{
    reveal(emitted_stack_slot_address);
    emitted_stack_access_twins(f, s1, s2, 0x8d, slots);
}

pub(crate) proof fn emitted_store_stack_slot_twins<R: ConstantResolver, const P: usize, const N: usize>(
    f: Frame<R, P, N>,
    s1: Emission,
    s2: Emission,
    slots: usize,
)
    requires
        twins(s1, s2),
    ensures
        follow(
            s1,
            s2,
            emitted_store_stack_slot(f, s1, slots),
            emitted_store_stack_slot(f, s2, slots),
        ),
{
    reveal(emitted_store_stack_slot);
    emitted_stack_access_twins(f, s1, s2, 0x89, slots);
}

pub(crate) proof fn emitted_cleanup_twins<R: ConstantResolver, const P: usize, const N: usize>(
    f: Frame<R, P, N>,
    s1: Emission,
    s2: Emission,
    bytes: usize,
    kind: CodegenErrorKind,
)
    requires
        twins(s1, s2),
    ensures
        follow(
            s1,
            s2,
            emitted_cleanup(f, s1, bytes, kind),
            emitted_cleanup(f, s2, bytes, kind),
        ),
{
    reveal(emitted_cleanup);
    if bytes == 0 {
    } else {
        if bytes <= 127 {
            put_twins(f, s1, s2, [0x48u8, 0x83, 0xc4, bytes as u8]@);
        } else {
            if bytes <= 0xffff_ffff {
                put_twins(f, s1, s2, [0x48u8, 0x81, 0xc4]@);
                let s1 = put(f, s1, [0x48u8, 0x81, 0xc4]@);
                let s2 = put(f, s2, [0x48u8, 0x81, 0xc4]@);
                put_twins(f, s1, s2, word_bytes(bytes as int));
            }
        }
    }
}

pub(crate) proof fn emitted_cleanup_bytes_twins<R: ConstantResolver, const P: usize, const N: usize>(
    f: Frame<R, P, N>,
    s1: Emission,
    s2: Emission,
    bytes: usize,
)
    requires
        twins(s1, s2),
    ensures
        follow(
            s1,
            s2,
            emitted_cleanup_bytes(f, s1, bytes),
            emitted_cleanup_bytes(f, s2, bytes),
        ),
{
    reveal(emitted_cleanup_bytes);
    emitted_cleanup_twins(f, s1, s2, bytes, CodegenErrorKind::OutputTooSmall);
}

pub(crate) proof fn emitted_slots_cleanup_twins<R: ConstantResolver, const P: usize, const N: usize>(
    f: Frame<R, P, N>,
    s1: Emission,
    s2: Emission,
    slots: usize,
)
    requires
        twins(s1, s2),
    ensures
        follow(
            s1,
            s2,
            emitted_slots_cleanup(f, s1, slots),
            emitted_slots_cleanup(f, s2, slots),
        ),
{
    reveal(emitted_slots_cleanup);
    match product_of(slots, 8) {
        None => {},
        Some(bytes) => {
            emitted_cleanup_bytes_twins(f, s1, s2, bytes);
        },
    }
}

pub(crate) proof fn emitted_original_load_twins<R: ConstantResolver, const P: usize, const N: usize>(
    f: Frame<R, P, N>,
    s1: Emission,
    s2: Emission,
    original_offset: usize,
    pushed_slots: usize,
)
    requires
        twins(s1, s2),
    ensures
        follow(
            s1,
            s2,
            emitted_original_load(f, s1, original_offset, pushed_slots),
            emitted_original_load(f, s2, original_offset, pushed_slots),
        ),
{
    reveal(emitted_original_load);
    match product_of(pushed_slots, 8) {
        None => {},
        Some(delta) => {
            match sum_of(original_offset, delta) {
                None => {},
                Some(displacement) => {
                    emitted_wide_access_twins(
                        f,
                        s1,
                        s2,
                        0x8b,
                        displacement,
                        CodegenErrorKind::TooManyAbiParameters,
                    );
                },
            }
        },
    }
}

pub(crate) proof fn emitted_original_push_twins<R: ConstantResolver, const P: usize, const N: usize>(
    f: Frame<R, P, N>,
    s1: Emission,
    s2: Emission,
    original_offset: usize,
    pushed_slots: usize,
)
    requires
        twins(s1, s2),
    ensures
        follow(
            s1,
            s2,
            emitted_original_push(f, s1, original_offset, pushed_slots),
            emitted_original_push(f, s2, original_offset, pushed_slots),
        ),
{
    reveal(emitted_original_push);
    emitted_original_load_twins(f, s1, s2, original_offset, pushed_slots);
    let s1 = emitted_original_load(f, s1, original_offset, pushed_slots);
    let s2 = emitted_original_load(f, s2, original_offset, pushed_slots);
    put_twins(f, s1, s2, [0x50u8]@);
}

pub(crate) proof fn emitted_epilogue_twins<R: ConstantResolver, const P: usize, const N: usize>(
    f: Frame<R, P, N>,
    s1: Emission,
    s2: Emission,
)
    requires
        twins(s1, s2),
    ensures
        follow(
            s1,
            s2,
            emitted_epilogue(f, s1),
            emitted_epilogue(f, s2),
        ),
{
    reveal(emitted_epilogue);
    match slots_from(s1.locals, 0) {
        None => {},
        Some(locals) => {
            match sum_of(f.saved_parameter_slots, locals) {
                None => {},
                Some(slots) => {
                    match product_of(slots, 8) {
                        None => {},
                        Some(bytes) => {
                            emitted_cleanup_twins(
                                f,
                                s1,
                                s2,
                                bytes,
                                CodegenErrorKind::TooManyAbiParameters,
                            );
                            let s1 = emitted_cleanup(f, s1, bytes, CodegenErrorKind::TooManyAbiParameters);
                            let s2 = emitted_cleanup(f, s2, bytes, CodegenErrorKind::TooManyAbiParameters);
                            put_twins(f, s1, s2, [0xc3u8]@);
                        },
                    }
                },
            }
        },
    }
}

pub(crate) proof fn emitted_constant_twins<R: ConstantResolver, const P: usize, const N: usize>(
    f: Frame<R, P, N>,
    s1: Emission,
    s2: Emission,
    value: u64,
)
    requires
        twins(s1, s2),
    ensures
        follow(
            s1,
            s2,
            emitted_constant(f, s1, value),
            emitted_constant(f, s2, value),
        ),
{
    reveal(emitted_constant);
    put_twins(f, s1, s2, [0x48u8, 0xb8]@);
    let s1 = put(f, s1, [0x48u8, 0xb8]@);
    let s2 = put(f, s2, [0x48u8, 0xb8]@);
    put_twins(f, s1, s2, quad_bytes(value as int));
}

pub(crate) proof fn emitted_register_load_twins<R: ConstantResolver, const P: usize, const N: usize>(
    f: Frame<R, P, N>,
    s1: Emission,
    s2: Emission,
    abi: X86_64Abi,
    index: usize,
)
    requires
        twins(s1, s2),
    ensures
        follow(
            s1,
            s2,
            emitted_register_load(f, s1, abi, index),
            emitted_register_load(f, s2, abi, index),
        ),
{
    reveal(emitted_register_load);
    match load_of_register(abi, index) {
        None => {},
        Some((first, third)) => {
            put_twins(f, s1, s2, [first, 0x89, third]@);
        },
    }
}

pub(crate) proof fn emitted_parameter_load_twins<R: ConstantResolver, const P: usize, const N: usize>(
    f: Frame<R, P, N>,
    s1: Emission,
    s2: Emission,
    index: usize,
    pushed_slots: usize,
)
    requires
        twins(s1, s2),
    ensures
        follow(
            s1,
            s2,
            emitted_parameter_load(f, s1, index, pushed_slots),
            emitted_parameter_load(f, s2, index, pushed_slots),
        ),
{
    reveal(emitted_parameter_load);
    if index < 4 {
        emitted_register_load_twins(f, s1, s2, X86_64Abi::Windows, index);
    } else {
        match place_of_parameter(index) {
            None => {},
            Some(original) => {
                emitted_original_load_twins(f, s1, s2, original, pushed_slots);
            },
        }
    }
}

pub(crate) proof fn emitted_parameter_push_twins<R: ConstantResolver, const P: usize, const N: usize>(
    f: Frame<R, P, N>,
    s1: Emission,
    s2: Emission,
    abi: X86_64Abi,
    index: usize,
)
    requires
        twins(s1, s2),
    ensures
        follow(
            s1,
            s2,
            emitted_parameter_push(f, s1, abi, index),
            emitted_parameter_push(f, s2, abi, index),
        ),
{
    reveal(emitted_parameter_push);
    match push_of_register(abi, index) {
        None => {},
        Some((false, register)) => {
            put_twins(f, s1, s2, [register]@);
        },
        Some((true, register)) => {
            put_twins(f, s1, s2, [0x41u8, register]@);
        },
    }
}

pub(crate) proof fn emitted_windows_word_twins<R: ConstantResolver, const P: usize, const N: usize>(
    f: Frame<R, P, N>,
    s1: Emission,
    s2: Emission,
    index: usize,
    pushed_slots: usize,
)
    requires
        twins(s1, s2),
    ensures
        follow(
            s1,
            s2,
            emitted_windows_word(f, s1, index, pushed_slots),
            emitted_windows_word(f, s2, index, pushed_slots),
        ),
{
    reveal(emitted_windows_word);
    if index < 4 {
        emitted_parameter_push_twins(f, s1, s2, X86_64Abi::Windows, index);
    } else {
        match place_of_parameter(index) {
            None => {},
            Some(original) => {
                emitted_original_push_twins(f, s1, s2, original, pushed_slots);
            },
        }
    }
}

pub(crate) proof fn emitted_unpacked_twins<R: ConstantResolver, const P: usize, const N: usize>(
    f: Frame<R, P, N>,
    s1: Emission,
    s2: Emission,
    element_bytes: usize,
    count: usize,
    word: usize,
    index: usize,
)
    requires
        twins(s1, s2),
    ensures
        follow(
            s1,
            s2,
            emitted_unpacked(f, s1, element_bytes, count, word, index),
            emitted_unpacked(f, s2, element_bytes, count, word, index),
        ),
    decreases count - index,
{
    reveal(emitted_unpacked);
    if index < count {
        if stands_in_word(index, element_bytes, word) {
            put_twins(f, s1, s2, [0x49u8, 0x89, 0xc2]@);
            let s1 = put(f, s1, [0x49u8, 0x89, 0xc2]@);
            let s2 = put(f, s2, [0x49u8, 0x89, 0xc2]@);
            if shift_in_word(index, element_bytes) != 0 {
                put_twins(f, s1, s2, [0x49u8, 0xc1, 0xea, shift_in_word(index, element_bytes)]@);
            }
            let s1 = if shift_in_word(index, element_bytes) != 0 {
                put(f, s1, [0x49u8, 0xc1, 0xea, shift_in_word(index, element_bytes)]@)
            } else {
                s1
            };
            let s2 = if shift_in_word(index, element_bytes) != 0 {
                put(f, s2, [0x49u8, 0xc1, 0xea, shift_in_word(index, element_bytes)]@)
            } else {
                s2
            };
            if element_bytes == 1 {
                put_twins(f, s1, s2, [0x45u8, 0x0f, 0xb6, 0xd2]@);
            } else {
                if element_bytes == 2 {
                    put_twins(f, s1, s2, [0x45u8, 0x0f, 0xb7, 0xd2]@);
                }
            }
            let s1 = if element_bytes == 1 {
                put(f, s1, [0x45u8, 0x0f, 0xb6, 0xd2]@)
            } else if element_bytes == 2 {
                put(f, s1, [0x45u8, 0x0f, 0xb7, 0xd2]@)
            } else if element_bytes != 4 && element_bytes != 8 {
                failed(f, s1, CodegenErrorKind::UnsupportedParameterType)
            } else {
                s1
            };
            let s2 = if element_bytes == 1 {
                put(f, s2, [0x45u8, 0x0f, 0xb6, 0xd2]@)
            } else if element_bytes == 2 {
                put(f, s2, [0x45u8, 0x0f, 0xb7, 0xd2]@)
            } else if element_bytes != 4 && element_bytes != 8 {
                failed(f, s2, CodegenErrorKind::UnsupportedParameterType)
            } else {
                s2
            };
            put_twins(f, s1, s2, [0x41u8, 0x52]@);
        }
        let s1 = if stands_in_word(index, element_bytes, word) {
            let s1 = put(f, s1, [0x49u8, 0x89, 0xc2]@);
            let s1 = if shift_in_word(index, element_bytes) != 0 {
                put(f, s1, [0x49u8, 0xc1, 0xea, shift_in_word(index, element_bytes)]@)
            } else {
                s1
            };
            let s1 = if element_bytes == 1 {
                put(f, s1, [0x45u8, 0x0f, 0xb6, 0xd2]@)
            } else if element_bytes == 2 {
                put(f, s1, [0x45u8, 0x0f, 0xb7, 0xd2]@)
            } else if element_bytes != 4 && element_bytes != 8 {
                failed(f, s1, CodegenErrorKind::UnsupportedParameterType)
            } else {
                s1
            };
            put(f, s1, [0x41u8, 0x52]@)
        } else {
            s1
        };
        let s2 = if stands_in_word(index, element_bytes, word) {
            let s2 = put(f, s2, [0x49u8, 0x89, 0xc2]@);
            let s2 = if shift_in_word(index, element_bytes) != 0 {
                put(f, s2, [0x49u8, 0xc1, 0xea, shift_in_word(index, element_bytes)]@)
            } else {
                s2
            };
            let s2 = if element_bytes == 1 {
                put(f, s2, [0x45u8, 0x0f, 0xb6, 0xd2]@)
            } else if element_bytes == 2 {
                put(f, s2, [0x45u8, 0x0f, 0xb7, 0xd2]@)
            } else if element_bytes != 4 && element_bytes != 8 {
                failed(f, s2, CodegenErrorKind::UnsupportedParameterType)
            } else {
                s2
            };
            put(f, s2, [0x41u8, 0x52]@)
        } else {
            s2
        };
        emitted_unpacked_twins(f, s1, s2, element_bytes, count, word, (index + 1) as usize);
    }
}

pub(crate) proof fn emitted_unpacked_word_twins<R: ConstantResolver, const P: usize, const N: usize>(
    f: Frame<R, P, N>,
    s1: Emission,
    s2: Emission,
    element_bytes: usize,
    count: usize,
    word: usize,
)
    requires
        twins(s1, s2),
    ensures
        follow(
            s1,
            s2,
            emitted_unpacked_word(f, s1, element_bytes, count, word),
            emitted_unpacked_word(f, s2, element_bytes, count, word),
        ),
{
    reveal(emitted_unpacked_word);
    emitted_unpacked_twins(f, s1, s2, element_bytes, count, word, 0);
}

pub(crate) proof fn emitted_zero_slots_twins<R: ConstantResolver, const P: usize, const N: usize>(
    f: Frame<R, P, N>,
    s1: Emission,
    s2: Emission,
    count: usize,
)
    requires
        twins(s1, s2),
    ensures
        follow(
            s1,
            s2,
            emitted_zero_slots(f, s1, count),
            emitted_zero_slots(f, s2, count),
        ),
    decreases count,
{
    reveal(emitted_zero_slots);
    if count > 0 {
        put_twins(f, s1, s2, [0x50u8]@);
        let s1 = put(f, s1, [0x50u8]@);
        let s2 = put(f, s2, [0x50u8]@);
        emitted_zero_slots_twins(f, s1, s2, (count - 1) as usize);
    }
}

pub(crate) proof fn emitted_zero_array_twins<R: ConstantResolver, const P: usize, const N: usize>(
    f: Frame<R, P, N>,
    s1: Emission,
    s2: Emission,
    count: usize,
)
    requires
        twins(s1, s2),
    ensures
        follow(
            s1,
            s2,
            emitted_zero_array(f, s1, count),
            emitted_zero_array(f, s2, count),
        ),
{
    reveal(emitted_zero_array);
    if count != 0 {
        put_twins(f, s1, s2, [0x31u8, 0xc0]@);
    }
    let s1 = if count != 0 {
        put(f, s1, [0x31u8, 0xc0]@)
    } else {
        s1
    };
    let s2 = if count != 0 {
        put(f, s2, [0x31u8, 0xc0]@)
    } else {
        s2
    };
    emitted_zero_slots_twins(f, s1, s2, count);
}

pub(crate) proof fn emitted_pointed_elements_twins<R: ConstantResolver, const P: usize, const N: usize>(
    f: Frame<R, P, N>,
    s1: Emission,
    s2: Emission,
    element_bytes: usize,
    count: usize,
    index: usize,
)
    requires
        twins(s1, s2),
    ensures
        follow(
            s1,
            s2,
            emitted_pointed_elements(f, s1, element_bytes, count, index),
            emitted_pointed_elements(f, s2, element_bytes, count, index),
        ),
    decreases count - index,
{
    reveal(emitted_pointed_elements);
    if index < count {
        match offset_of(index, element_bytes) {
            None => {},
            Some(displacement) => {
                if element_bytes == 1 {
                    put_twins(f, s1, s2, [0x44u8, 0x0f, 0xb6, 0x50, displacement]@);
                } else {
                    if element_bytes == 2 {
                        put_twins(f, s1, s2, [0x44u8, 0x0f, 0xb7, 0x50, displacement]@);
                    } else {
                        if element_bytes == 4 {
                            put_twins(f, s1, s2, [0x44u8, 0x8b, 0x50, displacement]@);
                        } else {
                            if element_bytes == 8 && displacement == 0 {
                                put_twins(f, s1, s2, [0x4cu8, 0x8b, 0x10]@);
                            } else {
                                if element_bytes == 8 {
                                    put_twins(f, s1, s2, [0x4cu8, 0x8b, 0x50, displacement]@);
                                }
                            }
                        }
                    }
                }
                let s1 = if element_bytes == 1 {
                    put(f, s1, [0x44u8, 0x0f, 0xb6, 0x50, displacement]@)
                } else if element_bytes == 2 {
                    put(f, s1, [0x44u8, 0x0f, 0xb7, 0x50, displacement]@)
                } else if element_bytes == 4 {
                    put(f, s1, [0x44u8, 0x8b, 0x50, displacement]@)
                } else if element_bytes == 8 && displacement == 0 {
                    put(f, s1, [0x4cu8, 0x8b, 0x10]@)
                } else if element_bytes == 8 {
                    put(f, s1, [0x4cu8, 0x8b, 0x50, displacement]@)
                } else {
                    failed(f, s1, CodegenErrorKind::UnsupportedParameterType)
                };
                let s2 = if element_bytes == 1 {
                    put(f, s2, [0x44u8, 0x0f, 0xb6, 0x50, displacement]@)
                } else if element_bytes == 2 {
                    put(f, s2, [0x44u8, 0x0f, 0xb7, 0x50, displacement]@)
                } else if element_bytes == 4 {
                    put(f, s2, [0x44u8, 0x8b, 0x50, displacement]@)
                } else if element_bytes == 8 && displacement == 0 {
                    put(f, s2, [0x4cu8, 0x8b, 0x10]@)
                } else if element_bytes == 8 {
                    put(f, s2, [0x4cu8, 0x8b, 0x50, displacement]@)
                } else {
                    failed(f, s2, CodegenErrorKind::UnsupportedParameterType)
                };
                put_twins(f, s1, s2, [0x41u8, 0x52]@);
            },
        }
        let s1 = match offset_of(index, element_bytes) {
            None => {
                failed(f, s1, CodegenErrorKind::TooManyAbiParameters)
            },
            Some(displacement) => {
                let s1 = if element_bytes == 1 {
                    put(f, s1, [0x44u8, 0x0f, 0xb6, 0x50, displacement]@)
                } else if element_bytes == 2 {
                    put(f, s1, [0x44u8, 0x0f, 0xb7, 0x50, displacement]@)
                } else if element_bytes == 4 {
                    put(f, s1, [0x44u8, 0x8b, 0x50, displacement]@)
                } else if element_bytes == 8 && displacement == 0 {
                    put(f, s1, [0x4cu8, 0x8b, 0x10]@)
                } else if element_bytes == 8 {
                    put(f, s1, [0x4cu8, 0x8b, 0x50, displacement]@)
                } else {
                    failed(f, s1, CodegenErrorKind::UnsupportedParameterType)
                };
                put(f, s1, [0x41u8, 0x52]@)
            },
        };
        let s2 = match offset_of(index, element_bytes) {
            None => {
                failed(f, s2, CodegenErrorKind::TooManyAbiParameters)
            },
            Some(displacement) => {
                let s2 = if element_bytes == 1 {
                    put(f, s2, [0x44u8, 0x0f, 0xb6, 0x50, displacement]@)
                } else if element_bytes == 2 {
                    put(f, s2, [0x44u8, 0x0f, 0xb7, 0x50, displacement]@)
                } else if element_bytes == 4 {
                    put(f, s2, [0x44u8, 0x8b, 0x50, displacement]@)
                } else if element_bytes == 8 && displacement == 0 {
                    put(f, s2, [0x4cu8, 0x8b, 0x10]@)
                } else if element_bytes == 8 {
                    put(f, s2, [0x4cu8, 0x8b, 0x50, displacement]@)
                } else {
                    failed(f, s2, CodegenErrorKind::UnsupportedParameterType)
                };
                put(f, s2, [0x41u8, 0x52]@)
            },
        };
        emitted_pointed_elements_twins(f, s1, s2, element_bytes, count, (index + 1) as usize);
    }
}

pub(crate) proof fn emitted_windows_array_twins<R: ConstantResolver, const P: usize, const N: usize>(
    f: Frame<R, P, N>,
    s1: Emission,
    s2: Emission,
    array: RuntimeExpressionType,
    count: usize,
    abi_index: usize,
    pushed: usize,
)
    requires
        twins(s1, s2),
    ensures
        follow(
            s1,
            s2,
            emitted_windows_array(f, s1, array, count, abi_index, pushed),
            emitted_windows_array(f, s2, array, count, abi_index, pushed),
        ),
{
    reveal(emitted_windows_array);
    match array_layout(array) {
        None => {},
        Some(layout) => {
            if layout.bytes == 0 {
                emitted_zero_array_twins(f, s1, s2, count);
            } else {
                if layout.bytes == 1 || layout.bytes == 2 || layout.bytes == 4 || layout.bytes == 8 {
                    emitted_parameter_load_twins(f, s1, s2, abi_index, pushed);
                    let s1 = emitted_parameter_load(f, s1, abi_index, pushed);
                    let s2 = emitted_parameter_load(f, s2, abi_index, pushed);
                    emitted_unpacked_word_twins(f, s1, s2, layout.element_bytes, count, 0);
                } else {
                    emitted_parameter_load_twins(f, s1, s2, abi_index, pushed);
                    let s1 = emitted_parameter_load(f, s1, abi_index, pushed);
                    let s2 = emitted_parameter_load(f, s2, abi_index, pushed);
                    emitted_pointed_elements_twins(f, s1, s2, layout.element_bytes, count, 0);
                }
            }
        },
    }
}

pub(crate) proof fn emitted_windows_parameters_twins<R: ConstantResolver, const P: usize, const N: usize>(
    f: Frame<R, P, N>,
    s1: Emission,
    s2: Emission,
    index: int,
    abi_index: usize,
    pushed: usize,
)
    requires
        twins(s1, s2),
    ensures
        follow(
            s1,
            s2,
            emitted_windows_parameters(f, s1, index, abi_index, pushed),
            emitted_windows_parameters(f, s2, index, abi_index, pushed),
        ),
    decreases f.function.parameters@.len() - index,
{
    reveal(emitted_windows_parameters);
    if index < f.function.parameters@.len() {
        match passing_of(f.function.parameters@[index as int].ty.text@) {
            ParameterPassing::Fat => {
                emitted_parameter_load_twins(f, s1, s2, abi_index, pushed);
                let s1 = emitted_parameter_load(f, s1, abi_index, pushed);
                let s2 = emitted_parameter_load(f, s2, abi_index, pushed);
                put_twins(f, s1, s2, [0x4cu8, 0x8b, 0x10, 0x41, 0x52]@);
                let s1 = put(f, s1, [0x4cu8, 0x8b, 0x10, 0x41, 0x52]@);
                let s2 = put(f, s2, [0x4cu8, 0x8b, 0x10, 0x41, 0x52]@);
                put_twins(f, s1, s2, [0x4cu8, 0x8b, 0x50, 0x08, 0x41, 0x52]@);
                let s1 = put(f, s1, [0x4cu8, 0x8b, 0x50, 0x08, 0x41, 0x52]@);
                let s2 = put(f, s2, [0x4cu8, 0x8b, 0x50, 0x08, 0x41, 0x52]@);
                emitted_windows_parameters_twins(
                    f,
                    s1,
                    s2,
                    index + 1,
                    place_from(abi_index, 1),
                    place_from(pushed, 2),
                );
            },
            ParameterPassing::Array { array, count } => {
                emitted_windows_array_twins(f, s1, s2, array, count, abi_index, pushed);
                let s1 = emitted_windows_array(f, s1, array, count, abi_index, pushed);
                let s2 = emitted_windows_array(f, s2, array, count, abi_index, pushed);
                emitted_windows_parameters_twins(
                    f,
                    s1,
                    s2,
                    index + 1,
                    place_from(abi_index, 1),
                    place_from(pushed, count),
                );
            },
            ParameterPassing::Word => {
                emitted_windows_word_twins(f, s1, s2, abi_index, pushed);
                let s1 = emitted_windows_word(f, s1, abi_index, pushed);
                let s2 = emitted_windows_word(f, s2, abi_index, pushed);
                emitted_windows_parameters_twins(
                    f,
                    s1,
                    s2,
                    index + 1,
                    place_from(abi_index, 1),
                    place_from(pushed, 1),
                );
            },
        }
    }
}

pub(crate) proof fn emitted_register_words_twins<R: ConstantResolver, const P: usize, const N: usize>(
    f: Frame<R, P, N>,
    s1: Emission,
    s2: Emission,
    element_bytes: usize,
    count: usize,
    word: usize,
    words: usize,
    register: usize,
)
    requires
        twins(s1, s2),
    ensures
        follow(
            s1,
            s2,
            emitted_register_words(f, s1, element_bytes, count, word, words, register),
            emitted_register_words(f, s2, element_bytes, count, word, words, register),
        ),
    decreases words - word,
{
    reveal(emitted_register_words);
    if word < words {
        emitted_register_load_twins(f, s1, s2, X86_64Abi::SystemV, register);
        let s1 = emitted_register_load(f, s1, X86_64Abi::SystemV, register);
        let s2 = emitted_register_load(f, s2, X86_64Abi::SystemV, register);
        emitted_unpacked_word_twins(f, s1, s2, element_bytes, count, word);
        let s1 = emitted_unpacked_word(f, s1, element_bytes, count, word);
        let s2 = emitted_unpacked_word(f, s2, element_bytes, count, word);
        emitted_register_words_twins(
            f,
            s1,
            s2,
            element_bytes,
            count,
            (word + 1) as usize,
            words,
            place_from(register, 1),
        );
    }
}

pub(crate) proof fn emitted_stack_words_twins<R: ConstantResolver, const P: usize, const N: usize>(
    f: Frame<R, P, N>,
    s1: Emission,
    s2: Emission,
    element_bytes: usize,
    count: usize,
    word: usize,
    words: usize,
    offset: usize,
    pushed: usize,
)
    requires
        twins(s1, s2),
    ensures
        follow(
            s1,
            s2,
            emitted_stack_words(f, s1, element_bytes, count, word, words, offset, pushed),
            emitted_stack_words(f, s2, element_bytes, count, word, words, offset, pushed),
        ),
    decreases words - word,
{
    reveal(emitted_stack_words);
    if word < words {
        emitted_original_load_twins(f, s1, s2, offset, pushed);
        let s1 = emitted_original_load(f, s1, offset, pushed);
        let s2 = emitted_original_load(f, s2, offset, pushed);
        emitted_unpacked_word_twins(f, s1, s2, element_bytes, count, word);
        let s1 = emitted_unpacked_word(f, s1, element_bytes, count, word);
        let s2 = emitted_unpacked_word(f, s2, element_bytes, count, word);
        match sum_of(offset, 8) {
            None => {},
            Some(offset) => {
                emitted_stack_words_twins(
                    f,
                    s1,
                    s2,
                    element_bytes,
                    count,
                    (word + 1) as usize,
                    words,
                    offset,
                    place_from(pushed, word_elements(element_bytes, count, word)),
                );
            },
        }
    }
}

pub(crate) proof fn emitted_system_v_parameters_twins<R: ConstantResolver, const P: usize, const N: usize>(
    f: Frame<R, P, N>,
    s1: Emission,
    s2: Emission,
    index: int,
    register: usize,
    offset: usize,
    pushed: usize,
)
    requires
        twins(s1, s2),
    ensures
        follow(
            s1,
            s2,
            emitted_system_v_parameters(f, s1, index, register, offset, pushed),
            emitted_system_v_parameters(f, s2, index, register, offset, pushed),
        ),
    decreases f.function.parameters@.len() - index,
{
    reveal(emitted_system_v_parameters);
    if index < f.function.parameters@.len() {
        match passing_of(f.function.parameters@[index as int].ty.text@) {
            ParameterPassing::Fat => {
                if register <= 4 {
                    emitted_register_load_twins(f, s1, s2, X86_64Abi::SystemV, register);
                    let s1 = emitted_register_load(f, s1, X86_64Abi::SystemV, register);
                    let s2 = emitted_register_load(f, s2, X86_64Abi::SystemV, register);
                    put_twins(f, s1, s2, [0x50u8]@);
                    let s1 = put(f, s1, [0x50u8]@);
                    let s2 = put(f, s2, [0x50u8]@);
                    emitted_register_load_twins(
                        f,
                        s1,
                        s2,
                        X86_64Abi::SystemV,
                        place_from(register, 1),
                    );
                    let s1 = emitted_register_load(f, s1, X86_64Abi::SystemV, place_from(register, 1));
                    let s2 = emitted_register_load(f, s2, X86_64Abi::SystemV, place_from(register, 1));
                    put_twins(f, s1, s2, [0x50u8]@);
                    let s1 = put(f, s1, [0x50u8]@);
                    let s2 = put(f, s2, [0x50u8]@);
                    emitted_system_v_parameters_twins(
                        f,
                        s1,
                        s2,
                        index + 1,
                        place_from(register, 2),
                        offset,
                        place_from(pushed, 2),
                    );
                } else {
                    emitted_original_push_twins(f, s1, s2, offset, pushed);
                    let s1 = emitted_original_push(f, s1, offset, pushed);
                    let s2 = emitted_original_push(f, s2, offset, pushed);
                    emitted_original_push_twins(
                        f,
                        s1,
                        s2,
                        place_from(offset, 8),
                        place_from(pushed, 1),
                    );
                    let s1 = emitted_original_push(f, s1, place_from(offset, 8), place_from(pushed, 1));
                    let s2 = emitted_original_push(f, s2, place_from(offset, 8), place_from(pushed, 1));
                    emitted_system_v_parameters_twins(
                        f,
                        s1,
                        s2,
                        index + 1,
                        register,
                        place_from(offset, 16),
                        place_from(pushed, 2),
                    );
                }
            },
            ParameterPassing::Array { array, count } => {
                match array_layout(array) {
                    None => {},
                    Some(layout) => {
                        if layout.words == 0 {
                            emitted_zero_array_twins(f, s1, s2, count);
                            let s1 = emitted_zero_array(f, s1, count);
                            let s2 = emitted_zero_array(f, s2, count);
                            emitted_system_v_parameters_twins(
                                f,
                                s1,
                                s2,
                                index + 1,
                                register,
                                offset,
                                place_from(pushed, count),
                            );
                        } else {
                            if layout.words <= 2 && place_from(register, layout.words) <= 6 {
                                emitted_register_words_twins(
                                    f,
                                    s1,
                                    s2,
                                    layout.element_bytes,
                                    count,
                                    0,
                                    layout.words,
                                    register,
                                );
                                let s1 = emitted_register_words(
                                f,
                                s1,
                                layout.element_bytes,
                                count,
                                0,
                                layout.words,
                                register,
                            );
                                let s2 = emitted_register_words(
                                f,
                                s2,
                                layout.element_bytes,
                                count,
                                0,
                                layout.words,
                                register,
                            );
                                emitted_system_v_parameters_twins(
                                    f,
                                    s1,
                                    s2,
                                    index + 1,
                                    place_from(register, layout.words),
                                    offset,
                                    place_from(pushed, count),
                                );
                            } else {
                                emitted_stack_words_twins(
                                    f,
                                    s1,
                                    s2,
                                    layout.element_bytes,
                                    count,
                                    0,
                                    layout.words,
                                    offset,
                                    pushed,
                                );
                                let s1 = emitted_stack_words(
                                f,
                                s1,
                                layout.element_bytes,
                                count,
                                0,
                                layout.words,
                                offset,
                                pushed,
                            );
                                let s2 = emitted_stack_words(
                                f,
                                s2,
                                layout.element_bytes,
                                count,
                                0,
                                layout.words,
                                offset,
                                pushed,
                            );
                                match place_behind_words(offset, layout.words) {
                                    None => {},
                                    Some(offset) => {
                                        emitted_system_v_parameters_twins(
                                            f,
                                            s1,
                                            s2,
                                            index + 1,
                                            register,
                                            offset,
                                            place_from(pushed, count),
                                        );
                                    },
                                }
                            }
                        }
                    },
                }
            },
            ParameterPassing::Word => {
                if register < 6 {
                    emitted_parameter_push_twins(f, s1, s2, X86_64Abi::SystemV, register);
                    let s1 = emitted_parameter_push(f, s1, X86_64Abi::SystemV, register);
                    let s2 = emitted_parameter_push(f, s2, X86_64Abi::SystemV, register);
                    emitted_system_v_parameters_twins(
                        f,
                        s1,
                        s2,
                        index + 1,
                        place_from(register, 1),
                        offset,
                        place_from(pushed, 1),
                    );
                } else {
                    emitted_original_push_twins(f, s1, s2, offset, pushed);
                    let s1 = emitted_original_push(f, s1, offset, pushed);
                    let s2 = emitted_original_push(f, s2, offset, pushed);
                    match sum_of(offset, 8) {
                        None => {},
                        Some(offset) => {
                            emitted_system_v_parameters_twins(
                                f,
                                s1,
                                s2,
                                index + 1,
                                register,
                                offset,
                                place_from(pushed, 1),
                            );
                        },
                    }
                }
            },
        }
    }
}

pub(crate) proof fn emitted_prologue_twins<R: ConstantResolver, const P: usize, const N: usize>(
    f: Frame<R, P, N>,
    s1: Emission,
    s2: Emission,
)
    requires
        twins(s1, s2),
    ensures
        follow(
            s1,
            s2,
            emitted_prologue(f, s1),
            emitted_prologue(f, s2),
        ),
{
    reveal(emitted_prologue);
    if f.abi == X86_64Abi::Windows {
        if f.uses_sret {
            put_twins(f, s1, s2, [0x51u8]@);
            let s1 = put(f, s1, [0x51u8]@);
            let s2 = put(f, s2, [0x51u8]@);
            emitted_windows_parameters_twins(f, s1, s2, 0, 1, 1);
        } else {
            emitted_windows_parameters_twins(f, s1, s2, 0, 0, 0);
        }
    } else {
        if f.uses_sret {
            put_twins(f, s1, s2, [0x57u8]@);
            let s1 = put(f, s1, [0x57u8]@);
            let s2 = put(f, s2, [0x57u8]@);
            emitted_system_v_parameters_twins(f, s1, s2, 0, 1, 8, 1);
        } else {
            emitted_system_v_parameters_twins(f, s1, s2, 0, 0, 8, 0);
        }
    }
}

pub(crate) proof fn emitted_normal_width_twins<R: ConstantResolver, const P: usize, const N: usize>(
    f: Frame<R, P, N>,
    s1: Emission,
    s2: Emission,
    width: RuntimeWidth,
)
    requires
        twins(s1, s2),
    ensures
        follow(
            s1,
            s2,
            emitted_normal_width(f, s1, width),
            emitted_normal_width(f, s2, width),
        ),
{
    reveal(emitted_normal_width);
    if width.bits == 8 && !width.signed {
        put_twins(f, s1, s2, [0x0fu8, 0xb6, 0xc0]@);
    } else {
        if width.bits == 16 && !width.signed {
            put_twins(f, s1, s2, [0x0fu8, 0xb7, 0xc0]@);
        } else {
            if width.bits == 32 && !width.signed {
                put_twins(f, s1, s2, [0x89u8, 0xc0]@);
            } else {
                if width.bits == 8 {
                    put_twins(f, s1, s2, [0x48u8, 0x0f, 0xbe, 0xc0]@);
                } else {
                    if width.bits == 16 {
                        put_twins(f, s1, s2, [0x48u8, 0x0f, 0xbf, 0xc0]@);
                    } else {
                        if width.bits == 32 {
                            put_twins(f, s1, s2, [0x48u8, 0x63, 0xc0]@);
                        }
                    }
                }
            }
        }
    }
}

pub(crate) proof fn emitted_normal_twins<R: ConstantResolver, const P: usize, const N: usize>(
    f: Frame<R, P, N>,
    s1: Emission,
    s2: Emission,
)
    requires
        twins(s1, s2),
    ensures
        follow(
            s1,
            s2,
            emitted_normal(f, s1),
            emitted_normal(f, s2),
        ),
{
    reveal(emitted_normal);
    let width1 = s1.width;
    let width2 = s2.width;
    emitted_normal_width_twins(f, s1, s2, width1);
}

pub(crate) proof fn emitted_range_check_twins<R: ConstantResolver, const P: usize, const N: usize>(
    f: Frame<R, P, N>,
    s1: Emission,
    s2: Emission,
)
    requires
        twins(s1, s2),
    ensures
        follow(
            s1,
            s2,
            emitted_range_check(f, s1),
            emitted_range_check(f, s2),
        ),
{
    reveal(emitted_range_check);
    let width1 = s1.width;
    let width2 = s2.width;
    if width1.bits != 64 {
        put_twins(f, s1, s2, [0x48u8, 0xba]@);
        let s1 = put(f, s1, [0x48u8, 0xba]@);
        let s2 = put(f, s2, [0x48u8, 0xba]@);
        put_twins(f, s1, s2, quad_bytes(width1.maximum as int));
        let s1 = put(f, s1, quad_bytes(width1.maximum as int));
        let s2 = put(f, s2, quad_bytes(width2.maximum as int));
        put_twins(f, s1, s2, [0x48u8, 0x39, 0xd0]@);
        let s1 = put(f, s1, [0x48u8, 0x39, 0xd0]@);
        let s2 = put(f, s2, [0x48u8, 0x39, 0xd0]@);
        if width1.signed {
            trapped_twins(f, s1, s2, 0x8f);
            let s1 = trapped(f, s1, 0x8f);
            let s2 = trapped(f, s2, 0x8f);
            put_twins(f, s1, s2, [0x48u8, 0xba]@);
            let s1 = put(f, s1, [0x48u8, 0xba]@);
            let s2 = put(f, s2, [0x48u8, 0xba]@);
            put_twins(f, s1, s2, quad_bytes(width1.minimum as int));
            let s1 = put(f, s1, quad_bytes(width1.minimum as int));
            let s2 = put(f, s2, quad_bytes(width2.minimum as int));
            put_twins(f, s1, s2, [0x48u8, 0x39, 0xd0]@);
            let s1 = put(f, s1, [0x48u8, 0x39, 0xd0]@);
            let s2 = put(f, s2, [0x48u8, 0x39, 0xd0]@);
            trapped_twins(f, s1, s2, 0x8c);
        } else {
            trapped_twins(f, s1, s2, 0x87);
        }
    }
}

pub(crate) proof fn emitted_division_twins<R: ConstantResolver, const P: usize, const N: usize>(
    f: Frame<R, P, N>,
    s1: Emission,
    s2: Emission,
    remainder: bool,
)
    requires
        twins(s1, s2),
    ensures
        follow(
            s1,
            s2,
            emitted_division(f, s1, remainder),
            emitted_division(f, s2, remainder),
        ),
{
    reveal(emitted_division);
    let width1 = s1.width;
    let width2 = s2.width;
    put_twins(f, s1, s2, [0x48u8, 0x87, 0xc1, 0x48, 0x85, 0xc9]@);
    let s1 = put(f, s1, [0x48u8, 0x87, 0xc1, 0x48, 0x85, 0xc9]@);
    let s2 = put(f, s2, [0x48u8, 0x87, 0xc1, 0x48, 0x85, 0xc9]@);
    trapped_twins(f, s1, s2, 0x84);
    let s1 = trapped(f, s1, 0x84);
    let s2 = trapped(f, s2, 0x84);
    if width1.signed {
        put_twins(f, s1, s2, [0x48u8, 0x83, 0xf9, 0xff, 0x75, 19]@);
        let s1 = put(f, s1, [0x48u8, 0x83, 0xf9, 0xff, 0x75, 19]@);
        let s2 = put(f, s2, [0x48u8, 0x83, 0xf9, 0xff, 0x75, 19]@);
        put_twins(f, s1, s2, [0x48u8, 0xba]@);
        let s1 = put(f, s1, [0x48u8, 0xba]@);
        let s2 = put(f, s2, [0x48u8, 0xba]@);
        put_twins(f, s1, s2, quad_bytes(width1.minimum as int));
        let s1 = put(f, s1, quad_bytes(width1.minimum as int));
        let s2 = put(f, s2, quad_bytes(width2.minimum as int));
        put_twins(f, s1, s2, [0x48u8, 0x39, 0xd0]@);
        let s1 = put(f, s1, [0x48u8, 0x39, 0xd0]@);
        let s2 = put(f, s2, [0x48u8, 0x39, 0xd0]@);
        trapped_twins(f, s1, s2, 0x84);
        let s1 = trapped(f, s1, 0x84);
        let s2 = trapped(f, s2, 0x84);
        put_twins(f, s1, s2, [0x48u8, 0x99, 0x48, 0xf7, 0xf9]@);
    } else {
        put_twins(f, s1, s2, [0x48u8, 0x31, 0xd2, 0x48, 0xf7, 0xf1]@);
    }
    let s1 = if width1.signed {
        let s1 = put(f, s1, [0x48u8, 0x83, 0xf9, 0xff, 0x75, 19]@);
        let s1 = put(f, s1, [0x48u8, 0xba]@);
        let s1 = put(f, s1, quad_bytes(width1.minimum as int));
        let s1 = put(f, s1, [0x48u8, 0x39, 0xd0]@);
        let s1 = trapped(f, s1, 0x84);
        put(f, s1, [0x48u8, 0x99, 0x48, 0xf7, 0xf9]@)
    } else {
        put(f, s1, [0x48u8, 0x31, 0xd2, 0x48, 0xf7, 0xf1]@)
    };
    let s2 = if width2.signed {
        let s2 = put(f, s2, [0x48u8, 0x83, 0xf9, 0xff, 0x75, 19]@);
        let s2 = put(f, s2, [0x48u8, 0xba]@);
        let s2 = put(f, s2, quad_bytes(width2.minimum as int));
        let s2 = put(f, s2, [0x48u8, 0x39, 0xd0]@);
        let s2 = trapped(f, s2, 0x84);
        put(f, s2, [0x48u8, 0x99, 0x48, 0xf7, 0xf9]@)
    } else {
        put(f, s2, [0x48u8, 0x31, 0xd2, 0x48, 0xf7, 0xf1]@)
    };
    if remainder {
        put_twins(f, s1, s2, [0x48u8, 0x89, 0xd0]@);
    }
    let s1 = if remainder {
        put(f, s1, [0x48u8, 0x89, 0xd0]@)
    } else {
        s1
    };
    let s2 = if remainder {
        put(f, s2, [0x48u8, 0x89, 0xd0]@)
    } else {
        s2
    };
    emitted_normal_twins(f, s1, s2);
}

pub(crate) proof fn emitted_carry_check_twins<R: ConstantResolver, const P: usize, const N: usize>(
    f: Frame<R, P, N>,
    s1: Emission,
    s2: Emission,
)
    requires
        twins(s1, s2),
    ensures
        follow(
            s1,
            s2,
            emitted_carry_check(f, s1),
            emitted_carry_check(f, s2),
        ),
{
    reveal(emitted_carry_check);
    let width1 = s1.width;
    let width2 = s2.width;
    if width1.signed {
        trapped_twins(f, s1, s2, 0x80);
    } else {
        trapped_twins(f, s1, s2, 0x82);
    }
}

pub(crate) proof fn emitted_binary_twins<R: ConstantResolver, const P: usize, const N: usize>(
    f: Frame<R, P, N>,
    s1: Emission,
    s2: Emission,
    operator: BinaryOperator,
)
    requires
        twins(s1, s2),
    ensures
        follow(
            s1,
            s2,
            emitted_binary(f, s1, operator),
            emitted_binary(f, s2, operator),
        ),
{
    reveal(emitted_binary);
    let width1 = s1.width;
    let width2 = s2.width;
    match operator {
        BinaryOperator::Add => {
            emitted_sum_twins(f, s1, s2);
        },
        BinaryOperator::Subtract => {
            emitted_difference_twins(f, s1, s2);
        },
        BinaryOperator::Multiply => {
            emitted_multiplication_twins(f, s1, s2);
        },
        BinaryOperator::Divide => {
            emitted_division_twins(f, s1, s2, false);
        },
        BinaryOperator::Remainder => {
            emitted_division_twins(f, s1, s2, true);
        },
        BinaryOperator::BitAnd => {
            put_twins(f, s1, s2, [0x48u8, 0x21, 0xc8]@);
        },
        BinaryOperator::BitOr => {
            put_twins(f, s1, s2, [0x48u8, 0x09, 0xc8]@);
        },
        BinaryOperator::BitXor => {
            put_twins(f, s1, s2, [0x48u8, 0x31, 0xc8]@);
        },
        BinaryOperator::ShiftLeft => {
            emitted_shift_twins(f, s1, s2, true);
        },
        BinaryOperator::ShiftRight => {
            emitted_shift_twins(f, s1, s2, false);
        },
        BinaryOperator::LogicalAnd | BinaryOperator::LogicalOr => {},
        comparison => {
            put_twins(
                f,
                s1,
                s2,
                [0x48u8, 0x39, 0xc1, 0x0f, code_of_condition(comparison, width1.signed), 0xc0, 0x0f, 0xb6, 0xc0]@,
            );
        },
    }
}

pub(crate) proof fn emitted_reference_load_twins<R: ConstantResolver, const P: usize, const N: usize>(
    f: Frame<R, P, N>,
    s1: Emission,
    s2: Emission,
    pointee: RuntimeArrayElementType,
)
    requires
        twins(s1, s2),
    ensures
        follow(
            s1,
            s2,
            emitted_reference_load(f, s1, pointee),
            emitted_reference_load(f, s2, pointee),
        ),
{
    reveal(emitted_reference_load);
    match pointee {
        RuntimeArrayElementType::Bool => {
            put_twins(f, s1, s2, [0x0fu8, 0xb6, 0x00]@);
        },
        RuntimeArrayElementType::Char => {
            put_twins(f, s1, s2, [0x8bu8, 0x00]@);
        },
        RuntimeArrayElementType::Integer(Some(ty)) => {
            match width_of_integer(ty) {
                None => {},
                Some(width) => {
                    if width.bits == 8 && !width.signed {
                        put_twins(f, s1, s2, [0x0fu8, 0xb6, 0x00]@);
                    } else {
                        if width.bits == 8 {
                            put_twins(f, s1, s2, [0x48u8, 0x0f, 0xbe, 0x00]@);
                        } else {
                            if width.bits == 16 && !width.signed {
                                put_twins(f, s1, s2, [0x0fu8, 0xb7, 0x00]@);
                            } else {
                                if width.bits == 16 {
                                    put_twins(f, s1, s2, [0x48u8, 0x0f, 0xbf, 0x00]@);
                                } else {
                                    if width.bits == 32 && !width.signed {
                                        put_twins(f, s1, s2, [0x8bu8, 0x00]@);
                                    } else {
                                        if width.bits == 32 {
                                            put_twins(f, s1, s2, [0x48u8, 0x63, 0x00]@);
                                        } else {
                                            put_twins(f, s1, s2, [0x48u8, 0x8b, 0x00]@);
                                        }
                                    }
                                }
                            }
                        }
                    }
                },
            }
        },
        _ => {},
    }
}

pub(crate) proof fn emitted_reference_store_twins<R: ConstantResolver, const P: usize, const N: usize>(
    f: Frame<R, P, N>,
    s1: Emission,
    s2: Emission,
    pointee: RuntimeArrayElementType,
)
    requires
        twins(s1, s2),
    ensures
        follow(
            s1,
            s2,
            emitted_reference_store(f, s1, pointee),
            emitted_reference_store(f, s2, pointee),
        ),
{
    reveal(emitted_reference_store);
    match pointee {
        RuntimeArrayElementType::Bool => {
            put_twins(f, s1, s2, [0x88u8, 0x02]@);
        },
        RuntimeArrayElementType::Char => {
            put_twins(f, s1, s2, [0x89u8, 0x02]@);
        },
        RuntimeArrayElementType::Integer(Some(ty)) => {
            match width_of_integer(ty) {
                None => {},
                Some(width) => {
                    if width.bits == 8 {
                        put_twins(f, s1, s2, [0x88u8, 0x02]@);
                    } else {
                        if width.bits == 16 {
                            put_twins(f, s1, s2, [0x66u8, 0x89, 0x02]@);
                        } else {
                            if width.bits == 32 {
                                put_twins(f, s1, s2, [0x89u8, 0x02]@);
                            } else {
                                put_twins(f, s1, s2, [0x48u8, 0x89, 0x02]@);
                            }
                        }
                    }
                },
            }
        },
        _ => {},
    }
}

pub(crate) proof fn emitted_normal_element_twins<R: ConstantResolver, const P: usize, const N: usize>(
    f: Frame<R, P, N>,
    s1: Emission,
    s2: Emission,
    element: RuntimeArrayElementType,
)
    requires
        twins(s1, s2),
    ensures
        follow(
            s1,
            s2,
            emitted_normal_element(f, s1, element),
            emitted_normal_element(f, s2, element),
        ),
{
    reveal(emitted_normal_element);
    match element {
        RuntimeArrayElementType::Bool => {
            put_twins(f, s1, s2, [0x0fu8, 0xb6, 0xc0]@);
        },
        RuntimeArrayElementType::Integer(_) => {
            emitted_normal_twins(f, s1, s2);
        },
        RuntimeArrayElementType::Char => {
            emitted_normal_width_twins(f, s1, s2, width_of_char());
        },
        _ => {},
    }
}

pub(crate) proof fn emitted_element_address_twins<R: ConstantResolver, const P: usize, const N: usize>(
    f: Frame<R, P, N>,
    s1: Emission,
    s2: Emission,
    element_bytes: usize,
)
    requires
        twins(s1, s2),
    ensures
        follow(
            s1,
            s2,
            emitted_element_address(f, s1, element_bytes),
            emitted_element_address(f, s2, element_bytes),
        ),
{
    reveal(emitted_element_address);
    if element_bytes == 1 {
        put_twins(f, s1, s2, [0x48u8, 0x01, 0xc8]@);
    } else {
        if element_bytes == 2 {
            put_twins(f, s1, s2, [0x48u8, 0x8d, 0x04, 0x48]@);
        } else {
            if element_bytes == 4 {
                put_twins(f, s1, s2, [0x48u8, 0x8d, 0x04, 0x88]@);
            } else {
                if element_bytes == 8 {
                    put_twins(f, s1, s2, [0x48u8, 0x8d, 0x04, 0xc8]@);
                }
            }
        }
    }
}

pub(crate) proof fn emitted_element_store_address_twins<R: ConstantResolver, const P: usize, const N: usize>(
    f: Frame<R, P, N>,
    s1: Emission,
    s2: Emission,
    element_bytes: usize,
)
    requires
        twins(s1, s2),
    ensures
        follow(
            s1,
            s2,
            emitted_element_store_address(f, s1, element_bytes),
            emitted_element_store_address(f, s2, element_bytes),
        ),
{
    reveal(emitted_element_store_address);
    if element_bytes == 1 {
        put_twins(f, s1, s2, [0x48u8, 0x01, 0xca]@);
    } else {
        if element_bytes == 2 {
            put_twins(f, s1, s2, [0x48u8, 0x8d, 0x14, 0x4a]@);
        } else {
            if element_bytes == 4 {
                put_twins(f, s1, s2, [0x48u8, 0x8d, 0x14, 0x8a]@);
            } else {
                if element_bytes == 8 {
                    put_twins(f, s1, s2, [0x48u8, 0x8d, 0x14, 0xca]@);
                }
            }
        }
    }
}

pub(crate) proof fn emitted_indexed_address_twins<R: ConstantResolver, const P: usize, const N: usize>(
    f: Frame<R, P, N>,
    s1: Emission,
    s2: Emission,
    element_bytes: usize,
)
    requires
        twins(s1, s2),
    ensures
        follow(
            s1,
            s2,
            emitted_indexed_address(f, s1, element_bytes),
            emitted_indexed_address(f, s2, element_bytes),
        ),
{
    reveal(emitted_indexed_address);
    put_twins(f, s1, s2, [0x48u8, 0x8b, 0x4c, 0x24, 8]@);
    let s1 = put(f, s1, [0x48u8, 0x8b, 0x4c, 0x24, 8]@);
    let s2 = put(f, s2, [0x48u8, 0x8b, 0x4c, 0x24, 8]@);
    if element_bytes != 0 {
        emitted_element_address_twins(f, s1, s2, element_bytes);
    }
}

pub(crate) proof fn emitted_indexed_store_address_twins<R: ConstantResolver, const P: usize, const N: usize>(
    f: Frame<R, P, N>,
    s1: Emission,
    s2: Emission,
    element_bytes: usize,
)
    requires
        twins(s1, s2),
    ensures
        follow(
            s1,
            s2,
            emitted_indexed_store_address(f, s1, element_bytes),
            emitted_indexed_store_address(f, s2, element_bytes),
        ),
{
    reveal(emitted_indexed_store_address);
    put_twins(f, s1, s2, [0x48u8, 0x8b, 0x4c, 0x24, 8]@);
    let s1 = put(f, s1, [0x48u8, 0x8b, 0x4c, 0x24, 8]@);
    let s2 = put(f, s2, [0x48u8, 0x8b, 0x4c, 0x24, 8]@);
    emitted_element_store_address_twins(f, s1, s2, element_bytes);
}

pub(crate) proof fn emitted_slot_of_twins<R: ConstantResolver, const P: usize, const N: usize>(
    f: Frame<R, P, N>,
    s1: Emission,
    s2: Emission,
    opcode: u8,
    later: Option<usize>,
    more: usize,
    kind: CodegenErrorKind,
)
    requires
        twins(s1, s2),
    ensures
        follow(
            s1,
            s2,
            emitted_slot_of(f, s1, opcode, later, more, kind),
            emitted_slot_of(f, s2, opcode, later, more, kind),
        ),
{
    reveal(emitted_slot_of);
    match later {
        None => {},
        Some(later) => {
            match sum_of_three(later, more, s1.temporaries) {
                None => {},
                Some(slots) => {
                    emitted_stack_access_twins(f, s1, s2, opcode, slots);
                },
            }
        },
    }
}

pub(crate) proof fn emitted_parameter_slot_twins<R: ConstantResolver, const P: usize, const N: usize>(
    f: Frame<R, P, N>,
    s1: Emission,
    s2: Emission,
    opcode: u8,
    index: usize,
    more: usize,
    kind: CodegenErrorKind,
)
    requires
        twins(s1, s2),
    ensures
        follow(
            s1,
            s2,
            emitted_parameter_slot(f, s1, opcode, index, more, kind),
            emitted_parameter_slot(f, s2, opcode, index, more, kind),
        ),
{
    reveal(emitted_parameter_slot);
    match slots_from(s1.locals, 0) {
        None => {},
        Some(locals) => {
            match parameter_slots_from(f.function.parameters@, index) {
                None => {},
                Some(parameters) => {
                    match sum_of(locals, parameters) {
                        None => {},
                        Some(later) => {
                            emitted_slot_of_twins(f, s1, s2, opcode, Some(later), more, kind);
                        },
                    }
                },
            }
        },
    }
}

pub(crate) proof fn emitted_constant_name_twins<R: ConstantResolver, const P: usize, const N: usize>(
    f: Frame<R, P, N>,
    s1: Emission,
    s2: Emission,
    name: Seq<char>,
)
    requires
        twins(s1, s2),
    ensures
        follow(
            s1,
            s2,
            emitted_constant_name(f, s1, name),
            emitted_constant_name(f, s2, name),
        ),
{
    reveal(emitted_constant_name);
    let width1 = s1.width;
    let width2 = s2.width;
    match named_register(f.resolver.value_of(name), f.resolver.type_of(name), width1) {
        Err(kind) => {},
        Ok(value) => {
            emitted_constant_twins(f, s1, s2, value);
        },
    }
}

pub(crate) proof fn emitted_local_name_twins<R: ConstantResolver, const P: usize, const N: usize>(
    f: Frame<R, P, N>,
    s1: Emission,
    s2: Emission,
    index: usize,
    ty: RuntimeExpressionType,
)
    requires
        twins(s1, s2),
    ensures
        follow(
            s1,
            s2,
            emitted_local_name(f, s1, index, ty),
            emitted_local_name(f, s2, index, ty),
        ),
{
    reveal(emitted_local_name);
    match ty {
        RuntimeExpressionType::Array { .. } => {},
        RuntimeExpressionType::Bool => {
            emitted_slot_of_twins(
                f,
                s1,
                s2,
                0x8b,
                slots_from(s1.locals, place_from(index, 1)),
                0,
                CodegenErrorKind::OutputTooSmall,
            );
            let s1 = emitted_slot_of(
                f,
                s1,
                0x8b,
                slots_from(s1.locals, place_from(index, 1)),
                0,
                CodegenErrorKind::OutputTooSmall,
            );
            let s2 = emitted_slot_of(
                f,
                s2,
                0x8b,
                slots_from(s2.locals, place_from(index, 1)),
                0,
                CodegenErrorKind::OutputTooSmall,
            );
            put_twins(f, s1, s2, [0x0fu8, 0xb6, 0xc0]@);
        },
        RuntimeExpressionType::RawPointer { .. } => {
            emitted_slot_of_twins(
                f,
                s1,
                s2,
                0x8b,
                slots_from(s1.locals, place_from(index, 1)),
                0,
                CodegenErrorKind::OutputTooSmall,
            );
        },
        RuntimeExpressionType::Reference { .. } => {
            emitted_slot_of_twins(
                f,
                s1,
                s2,
                0x8b,
                slots_from(s1.locals, place_from(index, 1)),
                slots_of_length(ty),
                CodegenErrorKind::OutputTooSmall,
            );
        },
        _ => {
            emitted_slot_of_twins(
                f,
                s1,
                s2,
                0x8b,
                slots_from(s1.locals, place_from(index, 1)),
                0,
                CodegenErrorKind::OutputTooSmall,
            );
            let s1 = emitted_slot_of(
                f,
                s1,
                0x8b,
                slots_from(s1.locals, place_from(index, 1)),
                0,
                CodegenErrorKind::OutputTooSmall,
            );
            let s2 = emitted_slot_of(
                f,
                s2,
                0x8b,
                slots_from(s2.locals, place_from(index, 1)),
                0,
                CodegenErrorKind::OutputTooSmall,
            );
            emitted_normal_twins(f, s1, s2);
        },
    }
}

pub(crate) proof fn emitted_parameter_name_twins<R: ConstantResolver, const P: usize, const N: usize>(
    f: Frame<R, P, N>,
    s1: Emission,
    s2: Emission,
    index: usize,
    text: Seq<char>,
)
    requires
        twins(s1, s2),
    ensures
        follow(
            s1,
            s2,
            emitted_parameter_name(f, s1, index, text),
            emitted_parameter_name(f, s2, index, text),
        ),
{
    reveal(emitted_parameter_name);
    match reference_type(text) {
        Some(ty) => {
            emitted_parameter_slot_twins(
                f,
                s1,
                s2,
                0x8b,
                place_from(index, 1),
                slots_of_length(ty),
                CodegenErrorKind::OutputTooSmall,
            );
        },
        None => {
            emitted_parameter_slot_twins(
                f,
                s1,
                s2,
                0x8b,
                place_from(index, 1),
                0,
                CodegenErrorKind::OutputTooSmall,
            );
            let s1 = emitted_parameter_slot(
                f,
                s1,
                0x8b,
                place_from(index, 1),
                0,
                CodegenErrorKind::OutputTooSmall,
            );
            let s2 = emitted_parameter_slot(
                f,
                s2,
                0x8b,
                place_from(index, 1),
                0,
                CodegenErrorKind::OutputTooSmall,
            );
            if text == "bool"@ {
                put_twins(f, s1, s2, [0x0fu8, 0xb6, 0xc0]@);
            } else {
                if pointer_text(text) {
                } else {
                    emitted_normal_twins(f, s1, s2);
                }
            }
        },
    }
}

pub(crate) proof fn emitted_identifier_twins<R: ConstantResolver, const P: usize, const N: usize>(
    f: Frame<R, P, N>,
    s1: Emission,
    s2: Emission,
    name: Seq<char>,
)
    requires
        twins(s1, s2),
    ensures
        follow(
            s1,
            s2,
            emitted_identifier(f, s1, name),
            emitted_identifier(f, s2, name),
        ),
{
    reveal(emitted_identifier);
    match local_named(s1.locals, name) {
        Some(index) => {
            emitted_local_name_twins(f, s1, s2, index, s1.locals[index as int].ty);
        },
        None => {
            match parameter_named(f.function.parameters@, name) {
                Some(index) => {
                    emitted_parameter_name_twins(
                        f,
                        s1,
                        s2,
                        index,
                        f.function.parameters@[index as int].ty.text@,
                    );
                },
                None => {
                    emitted_constant_name_twins(f, s1, s2, name);
                },
            }
        },
    }
}

pub(crate) proof fn emitted_identifier_address_twins<R: ConstantResolver, const P: usize, const N: usize>(
    f: Frame<R, P, N>,
    s1: Emission,
    s2: Emission,
    name: Seq<char>,
)
    requires
        twins(s1, s2),
    ensures
        follow(
            s1,
            s2,
            emitted_identifier_address(f, s1, name),
            emitted_identifier_address(f, s2, name),
        ),
{
    reveal(emitted_identifier_address);
    match local_named(s1.locals, name) {
        Some(index) => {
            emitted_slot_of_twins(
                f,
                s1,
                s2,
                0x8d,
                slots_from(s1.locals, place_from(index, 1)),
                0,
                CodegenErrorKind::UnknownRuntimeName,
            );
        },
        None => {
            match parameter_named(f.function.parameters@, name) {
                Some(index) => {
                    emitted_parameter_slot_twins(
                        f,
                        s1,
                        s2,
                        0x8d,
                        place_from(index, 1),
                        0,
                        CodegenErrorKind::UnknownRuntimeName,
                    );
                },
                None => {},
            }
        },
    }
}

pub(crate) proof fn emitted_slice_length_twins<R: ConstantResolver, const P: usize, const N: usize>(
    f: Frame<R, P, N>,
    s1: Emission,
    s2: Emission,
    name: Seq<char>,
)
    requires
        twins(s1, s2),
    ensures
        follow(
            s1,
            s2,
            emitted_slice_length(f, s1, name),
            emitted_slice_length(f, s2, name),
        ),
{
    reveal(emitted_slice_length);
    match fat_local_named(s1.locals, name) {
        Some(index) => {
            emitted_slot_of_twins(
                f,
                s1,
                s2,
                0x8b,
                slots_from(s1.locals, place_from(index, 1)),
                0,
                CodegenErrorKind::UnknownRuntimeName,
            );
        },
        None => {
            match fat_parameter_named(f.function.parameters@, name) {
                Some(index) => {
                    emitted_parameter_slot_twins(
                        f,
                        s1,
                        s2,
                        0x8b,
                        place_from(index, 1),
                        0,
                        CodegenErrorKind::UnknownRuntimeName,
                    );
                },
                None => {},
            }
        },
    }
}

pub(crate) proof fn emitted_string_boundary_twins<R: ConstantResolver, const P: usize, const N: usize>(
    f: Frame<R, P, N>,
    s1: Emission,
    s2: Emission,
)
    requires
        twins(s1, s2),
    ensures
        follow(
            s1,
            s2,
            emitted_string_boundary(f, s1),
            emitted_string_boundary(f, s2),
        ),
{
    reveal(branch_place);
    reveal(emitted_string_boundary);
    put_twins(f, s1, s2, [0x48u8, 0x85, 0xc9]@);
    let s1 = put(f, s1, [0x48u8, 0x85, 0xc9]@);
    let s2 = put(f, s2, [0x48u8, 0x85, 0xc9]@);
    let at_start1 = branch_place(s1, 2);
    let at_start2 = branch_place(s2, 2);
    put_twins(f, s1, s2, [0x0fu8, 0x84, 0, 0, 0, 0]@);
    let s1 = put(f, s1, [0x0fu8, 0x84, 0, 0, 0, 0]@);
    let s2 = put(f, s2, [0x0fu8, 0x84, 0, 0, 0, 0]@);
    put_twins(f, s1, s2, [0x48u8, 0x39, 0xd1]@);
    let s1 = put(f, s1, [0x48u8, 0x39, 0xd1]@);
    let s2 = put(f, s2, [0x48u8, 0x39, 0xd1]@);
    let at_end1 = branch_place(s1, 2);
    let at_end2 = branch_place(s2, 2);
    put_twins(f, s1, s2, [0x0fu8, 0x84, 0, 0, 0, 0]@);
    let s1 = put(f, s1, [0x0fu8, 0x84, 0, 0, 0, 0]@);
    let s2 = put(f, s2, [0x0fu8, 0x84, 0, 0, 0, 0]@);
    put_twins(f, s1, s2, [0x44u8, 0x0f, 0xb6, 0x04, 0x08]@);
    let s1 = put(f, s1, [0x44u8, 0x0f, 0xb6, 0x04, 0x08]@);
    let s2 = put(f, s2, [0x44u8, 0x0f, 0xb6, 0x04, 0x08]@);
    put_twins(f, s1, s2, [0x41u8, 0x80, 0xe0, 0xc0, 0x41, 0x80, 0xf8, 0x80]@);
    let s1 = put(f, s1, [0x41u8, 0x80, 0xe0, 0xc0, 0x41, 0x80, 0xf8, 0x80]@);
    let s2 = put(f, s2, [0x41u8, 0x80, 0xe0, 0xc0, 0x41, 0x80, 0xf8, 0x80]@);
    trapped_twins(f, s1, s2, 0x84);
    let s1 = trapped(f, s1, 0x84);
    let s2 = trapped(f, s2, 0x84);
    landed_twins(f, s1, s2, at_start1, at_start2);
    let s1 = landed(f, s1, at_start1);
    let s2 = landed(f, s2, at_start2);
    landed_twins(f, s1, s2, at_end1, at_end2);
}

pub(crate) proof fn emitted_string_range_boundaries_twins<R: ConstantResolver, const P: usize, const N: usize>(
    f: Frame<R, P, N>,
    s1: Emission,
    s2: Emission,
    source: Seq<char>,
)
    requires
        twins(s1, s2),
    ensures
        follow(
            s1,
            s2,
            emitted_string_range_boundaries(f, s1, source),
            emitted_string_range_boundaries(f, s2, source),
        ),
{
    reveal(emitted_string_range_boundaries);
    put_twins(f, s1, s2, [0x49u8, 0x89, 0xc0]@);
    let s1 = put(f, s1, [0x49u8, 0x89, 0xc0]@);
    let s2 = put(f, s2, [0x49u8, 0x89, 0xc0]@);
    emitted_slice_length_twins(f, s1, s2, source);
    let s1 = emitted_slice_length(f, s1, source);
    let s2 = emitted_slice_length(f, s2, source);
    put_twins(f, s1, s2, [0x48u8, 0x89, 0xc2, 0x4c, 0x89, 0xc0]@);
    let s1 = put(f, s1, [0x48u8, 0x89, 0xc2, 0x4c, 0x89, 0xc0]@);
    let s2 = put(f, s2, [0x48u8, 0x89, 0xc2, 0x4c, 0x89, 0xc0]@);
    put_twins(f, s1, s2, [0x48u8, 0x8b, 0x4c, 0x24, 0x08]@);
    let s1 = put(f, s1, [0x48u8, 0x8b, 0x4c, 0x24, 0x08]@);
    let s2 = put(f, s2, [0x48u8, 0x8b, 0x4c, 0x24, 0x08]@);
    emitted_string_boundary_twins(f, s1, s2);
    let s1 = emitted_string_boundary(f, s1);
    let s2 = emitted_string_boundary(f, s2);
    put_twins(f, s1, s2, [0x48u8, 0x8b, 0x4c, 0x24, 0x08, 0x48, 0x03, 0x0c, 0x24]@);
    let s1 = put(f, s1, [0x48u8, 0x8b, 0x4c, 0x24, 0x08, 0x48, 0x03, 0x0c, 0x24]@);
    let s2 = put(f, s2, [0x48u8, 0x8b, 0x4c, 0x24, 0x08, 0x48, 0x03, 0x0c, 0x24]@);
    emitted_string_boundary_twins(f, s1, s2);
}

pub(crate) proof fn emitted_packed_twins<R: ConstantResolver, const P: usize, const N: usize>(
    f: Frame<R, P, N>,
    s1: Emission,
    s2: Emission,
    count: usize,
    element_bytes: usize,
    word: usize,
    index: usize,
)
    requires
        twins(s1, s2),
    ensures
        follow(
            s1,
            s2,
            emitted_packed(f, s1, count, element_bytes, word, index),
            emitted_packed(f, s2, count, element_bytes, word, index),
        ),
    decreases count - index,
{
    reveal(emitted_packed);
    if index < count {
        if stands_in_word(index, element_bytes, word) {
            emitted_stack_slot_twins(f, s1, s2, index);
            let s1 = emitted_stack_slot(f, s1, index);
            let s2 = emitted_stack_slot(f, s2, index);
            if element_bytes == 1 {
                put_twins(f, s1, s2, [0x0fu8, 0xb6, 0xc0]@);
            } else {
                if element_bytes == 2 {
                    put_twins(f, s1, s2, [0x0fu8, 0xb7, 0xc0]@);
                } else {
                    if element_bytes == 4 {
                        put_twins(f, s1, s2, [0x89u8, 0xc0]@);
                    }
                }
            }
            let s1 = if element_bytes == 1 {
                put(f, s1, [0x0fu8, 0xb6, 0xc0]@)
            } else if element_bytes == 2 {
                put(f, s1, [0x0fu8, 0xb7, 0xc0]@)
            } else if element_bytes == 4 {
                put(f, s1, [0x89u8, 0xc0]@)
            } else if element_bytes != 8 {
                failed(f, s1, CodegenErrorKind::UnsupportedReturnType)
            } else {
                s1
            };
            let s2 = if element_bytes == 1 {
                put(f, s2, [0x0fu8, 0xb6, 0xc0]@)
            } else if element_bytes == 2 {
                put(f, s2, [0x0fu8, 0xb7, 0xc0]@)
            } else if element_bytes == 4 {
                put(f, s2, [0x89u8, 0xc0]@)
            } else if element_bytes != 8 {
                failed(f, s2, CodegenErrorKind::UnsupportedReturnType)
            } else {
                s2
            };
            if shift_in_word(index, element_bytes) != 0 {
                put_twins(f, s1, s2, [0x48u8, 0xc1, 0xe0, shift_in_word(index, element_bytes)]@);
            }
            let s1 = if shift_in_word(index, element_bytes) != 0 {
                put(f, s1, [0x48u8, 0xc1, 0xe0, shift_in_word(index, element_bytes)]@)
            } else {
                s1
            };
            let s2 = if shift_in_word(index, element_bytes) != 0 {
                put(f, s2, [0x48u8, 0xc1, 0xe0, shift_in_word(index, element_bytes)]@)
            } else {
                s2
            };
            put_twins(f, s1, s2, [0x48u8, 0x09, 0xc2]@);
        }
        let s1 = if stands_in_word(index, element_bytes, word) {
            let s1 = emitted_stack_slot(f, s1, index);
            let s1 = if element_bytes == 1 {
                put(f, s1, [0x0fu8, 0xb6, 0xc0]@)
            } else if element_bytes == 2 {
                put(f, s1, [0x0fu8, 0xb7, 0xc0]@)
            } else if element_bytes == 4 {
                put(f, s1, [0x89u8, 0xc0]@)
            } else if element_bytes != 8 {
                failed(f, s1, CodegenErrorKind::UnsupportedReturnType)
            } else {
                s1
            };
            let s1 = if shift_in_word(index, element_bytes) != 0 {
                put(f, s1, [0x48u8, 0xc1, 0xe0, shift_in_word(index, element_bytes)]@)
            } else {
                s1
            };
            put(f, s1, [0x48u8, 0x09, 0xc2]@)
        } else {
            s1
        };
        let s2 = if stands_in_word(index, element_bytes, word) {
            let s2 = emitted_stack_slot(f, s2, index);
            let s2 = if element_bytes == 1 {
                put(f, s2, [0x0fu8, 0xb6, 0xc0]@)
            } else if element_bytes == 2 {
                put(f, s2, [0x0fu8, 0xb7, 0xc0]@)
            } else if element_bytes == 4 {
                put(f, s2, [0x89u8, 0xc0]@)
            } else if element_bytes != 8 {
                failed(f, s2, CodegenErrorKind::UnsupportedReturnType)
            } else {
                s2
            };
            let s2 = if shift_in_word(index, element_bytes) != 0 {
                put(f, s2, [0x48u8, 0xc1, 0xe0, shift_in_word(index, element_bytes)]@)
            } else {
                s2
            };
            put(f, s2, [0x48u8, 0x09, 0xc2]@)
        } else {
            s2
        };
        emitted_packed_twins(f, s1, s2, count, element_bytes, word, (index + 1) as usize);
    }
}

pub(crate) proof fn emitted_packed_word_twins<R: ConstantResolver, const P: usize, const N: usize>(
    f: Frame<R, P, N>,
    s1: Emission,
    s2: Emission,
    count: usize,
    element_bytes: usize,
    word: usize,
)
    requires
        twins(s1, s2),
    ensures
        follow(
            s1,
            s2,
            emitted_packed_word(f, s1, count, element_bytes, word),
            emitted_packed_word(f, s2, count, element_bytes, word),
        ),
{
    reveal(emitted_packed_word);
    put_twins(f, s1, s2, [0x31u8, 0xd2]@);
    let s1 = put(f, s1, [0x31u8, 0xd2]@);
    let s2 = put(f, s2, [0x31u8, 0xd2]@);
    emitted_packed_twins(f, s1, s2, count, element_bytes, word, 0);
    let s1 = emitted_packed(f, s1, count, element_bytes, word, 0);
    let s2 = emitted_packed(f, s2, count, element_bytes, word, 0);
    put_twins(f, s1, s2, [0x48u8, 0x89, 0xd0]@);
}

pub(crate) proof fn emitted_packed_words_twins<R: ConstantResolver, const P: usize, const N: usize>(
    f: Frame<R, P, N>,
    s1: Emission,
    s2: Emission,
    count: usize,
    element_bytes: usize,
    local_slots: usize,
    words: usize,
)
    requires
        twins(s1, s2),
    ensures
        follow(
            s1,
            s2,
            emitted_packed_words(f, s1, count, element_bytes, local_slots, words),
            emitted_packed_words(f, s2, count, element_bytes, local_slots, words),
        ),
    decreases words,
{
    reveal(emitted_packed_words);
    if words > 0 {
        emitted_packed_word_twins(f, s1, s2, count, element_bytes, (words - 1) as usize);
        let s1 = emitted_packed_word(f, s1, count, element_bytes, (words - 1) as usize);
        let s2 = emitted_packed_word(f, s2, count, element_bytes, (words - 1) as usize);
        match place_of_packed(count, local_slots, (words - 1) as usize) {
            None => {},
            Some(destination) => {
                emitted_store_stack_slot_twins(f, s1, s2, destination);
            },
        }
        let s1 = match place_of_packed(count, local_slots, (words - 1) as usize) {
            None => {
                failed(f, s1, CodegenErrorKind::OutputTooSmall)
            },
            Some(destination) => {
                emitted_store_stack_slot(f, s1, destination)
            },
        };
        let s2 = match place_of_packed(count, local_slots, (words - 1) as usize) {
            None => {
                failed(f, s2, CodegenErrorKind::OutputTooSmall)
            },
            Some(destination) => {
                emitted_store_stack_slot(f, s2, destination)
            },
        };
        emitted_packed_words_twins(
            f,
            s1,
            s2,
            count,
            element_bytes,
            local_slots,
            (words - 1) as usize,
        );
    }
}

pub(crate) proof fn emitted_packed_array_twins<R: ConstantResolver, const P: usize, const N: usize>(
    f: Frame<R, P, N>,
    s1: Emission,
    s2: Emission,
    element: RuntimeArrayElementType,
    count: usize,
)
    requires
        twins(s1, s2),
    ensures
        follow(
            s1,
            s2,
            emitted_packed_array(f, s1, element, count),
            emitted_packed_array(f, s2, element, count),
        ),
{
    reveal(emitted_packed_array);
    match packed_form(element, count) {
        None => {},
        Some((element_bytes, local_slots)) => {
            emitted_packed_words_twins(f, s1, s2, count, element_bytes, local_slots, local_slots);
            let s1 = emitted_packed_words(f, s1, count, element_bytes, local_slots, local_slots);
            let s2 = emitted_packed_words(f, s2, count, element_bytes, local_slots, local_slots);
            released_twins(f, s1, s2, excess(count, local_slots));
            let s1 = released(f, s1, excess(count, local_slots));
            let s2 = released(f, s2, excess(count, local_slots));
            emitted_slots_cleanup_twins(f, s1, s2, excess(count, local_slots));
        },
    }
}

pub(crate) proof fn emitted_swapped_twins<R: ConstantResolver, const P: usize, const N: usize>(
    f: Frame<R, P, N>,
    s1: Emission,
    s2: Emission,
    count: usize,
    half: usize,
    index: usize,
)
    requires
        twins(s1, s2),
    ensures
        follow(
            s1,
            s2,
            emitted_swapped(f, s1, count, half, index),
            emitted_swapped(f, s2, count, half, index),
        ),
    decreases half - index,
{
    reveal(emitted_swapped);
    if index < half {
        emitted_stack_slot_twins(f, s1, s2, index);
        let s1 = emitted_stack_slot(f, s1, index);
        let s2 = emitted_stack_slot(f, s2, index);
        put_twins(f, s1, s2, [0x48u8, 0x89, 0xc2]@);
        let s1 = put(f, s1, [0x48u8, 0x89, 0xc2]@);
        let s2 = put(f, s2, [0x48u8, 0x89, 0xc2]@);
        emitted_stack_slot_twins(f, s1, s2, mirrored(count, index));
        let s1 = emitted_stack_slot(f, s1, mirrored(count, index));
        let s2 = emitted_stack_slot(f, s2, mirrored(count, index));
        emitted_store_stack_slot_twins(f, s1, s2, index);
        let s1 = emitted_store_stack_slot(f, s1, index);
        let s2 = emitted_store_stack_slot(f, s2, index);
        put_twins(f, s1, s2, [0x48u8, 0x89, 0xd0]@);
        let s1 = put(f, s1, [0x48u8, 0x89, 0xd0]@);
        let s2 = put(f, s2, [0x48u8, 0x89, 0xd0]@);
        emitted_store_stack_slot_twins(f, s1, s2, mirrored(count, index));
        let s1 = emitted_store_stack_slot(f, s1, mirrored(count, index));
        let s2 = emitted_store_stack_slot(f, s2, mirrored(count, index));
        emitted_swapped_twins(f, s1, s2, count, half, (index + 1) as usize);
    }
}

pub(crate) proof fn emitted_copies_twins<R: ConstantResolver, const P: usize, const N: usize>(
    f: Frame<R, P, N>,
    s1: Emission,
    s2: Emission,
    count: usize,
    index: usize,
)
    requires
        twins(s1, s2),
    ensures
        follow(
            s1,
            s2,
            emitted_copies(f, s1, count, index),
            emitted_copies(f, s2, count, index),
        ),
    decreases count - index,
{
    reveal(emitted_copies);
    if index < count {
        emitted_stack_slot_twins(f, s1, s2, 0);
        let s1 = emitted_stack_slot(f, s1, 0);
        let s2 = emitted_stack_slot(f, s2, 0);
        put_twins(f, s1, s2, [0x50u8]@);
        let s1 = put(f, s1, [0x50u8]@);
        let s2 = put(f, s2, [0x50u8]@);
        raised_twins(f, s1, s2, 1);
        let s1 = raised(f, s1, 1);
        let s2 = raised(f, s2, 1);
        emitted_copies_twins(f, s1, s2, count, (index + 1) as usize);
    }
}

pub(crate) proof fn emitted_moved_slots_twins<R: ConstantResolver, const P: usize, const N: usize>(
    f: Frame<R, P, N>,
    s1: Emission,
    s2: Emission,
    count: usize,
    later: usize,
    slot: usize,
)
    requires
        twins(s1, s2),
    ensures
        follow(
            s1,
            s2,
            emitted_moved_slots(f, s1, count, later, slot),
            emitted_moved_slots(f, s2, count, later, slot),
        ),
    decreases count - slot,
{
    reveal(emitted_moved_slots);
    if slot < count {
        emitted_stack_slot_twins(f, s1, s2, slot);
        let s1 = emitted_stack_slot(f, s1, slot);
        let s2 = emitted_stack_slot(f, s2, slot);
        match sum_of_three(count, later, slot) {
            None => {},
            Some(destination) => {
                emitted_store_stack_slot_twins(f, s1, s2, destination);
            },
        }
        let s1 = match sum_of_three(count, later, slot) {
            None => {
                failed(f, s1, CodegenErrorKind::OutputTooSmall)
            },
            Some(destination) => {
                emitted_store_stack_slot(f, s1, destination)
            },
        };
        let s2 = match sum_of_three(count, later, slot) {
            None => {
                failed(f, s2, CodegenErrorKind::OutputTooSmall)
            },
            Some(destination) => {
                emitted_store_stack_slot(f, s2, destination)
            },
        };
        emitted_moved_slots_twins(f, s1, s2, count, later, (slot + 1) as usize);
    }
}

pub(crate) proof fn emitted_result_elements_twins<R: ConstantResolver, const P: usize, const N: usize>(
    f: Frame<R, P, N>,
    s1: Emission,
    s2: Emission,
    count: usize,
    element_bytes: usize,
    index: usize,
)
    requires
        twins(s1, s2),
    ensures
        follow(
            s1,
            s2,
            emitted_result_elements(f, s1, count, element_bytes, index),
            emitted_result_elements(f, s2, count, element_bytes, index),
        ),
    decreases count - index,
{
    reveal(emitted_result_elements);
    if index < count {
        emitted_stack_slot_twins(f, s1, s2, index);
        let s1 = emitted_stack_slot(f, s1, index);
        let s2 = emitted_stack_slot(f, s2, index);
        match offset_of(index, element_bytes) {
            None => {},
            Some(displacement) => {
                if element_bytes == 1 {
                    put_twins(f, s1, s2, [0x88u8, 0x42, displacement]@);
                } else {
                    if element_bytes == 2 {
                        put_twins(f, s1, s2, [0x66u8, 0x89, 0x42, displacement]@);
                    } else {
                        if element_bytes == 4 {
                            put_twins(f, s1, s2, [0x89u8, 0x42, displacement]@);
                        } else {
                            if element_bytes == 8 && displacement == 0 {
                                put_twins(f, s1, s2, [0x48u8, 0x89, 0x02]@);
                            } else {
                                if element_bytes == 8 {
                                    put_twins(f, s1, s2, [0x48u8, 0x89, 0x42, displacement]@);
                                }
                            }
                        }
                    }
                }
            },
        }
        let s1 = match offset_of(index, element_bytes) {
            None => {
                failed(f, s1, CodegenErrorKind::OutputTooSmall)
            },
            Some(displacement) => {
                if element_bytes == 1 {
                    put(f, s1, [0x88u8, 0x42, displacement]@)
                } else if element_bytes == 2 {
                    put(f, s1, [0x66u8, 0x89, 0x42, displacement]@)
                } else if element_bytes == 4 {
                    put(f, s1, [0x89u8, 0x42, displacement]@)
                } else if element_bytes == 8 && displacement == 0 {
                    put(f, s1, [0x48u8, 0x89, 0x02]@)
                } else if element_bytes == 8 {
                    put(f, s1, [0x48u8, 0x89, 0x42, displacement]@)
                } else {
                    failed(f, s1, CodegenErrorKind::UnsupportedReturnType)
                }
            },
        };
        let s2 = match offset_of(index, element_bytes) {
            None => {
                failed(f, s2, CodegenErrorKind::OutputTooSmall)
            },
            Some(displacement) => {
                if element_bytes == 1 {
                    put(f, s2, [0x88u8, 0x42, displacement]@)
                } else if element_bytes == 2 {
                    put(f, s2, [0x66u8, 0x89, 0x42, displacement]@)
                } else if element_bytes == 4 {
                    put(f, s2, [0x89u8, 0x42, displacement]@)
                } else if element_bytes == 8 && displacement == 0 {
                    put(f, s2, [0x48u8, 0x89, 0x02]@)
                } else if element_bytes == 8 {
                    put(f, s2, [0x48u8, 0x89, 0x42, displacement]@)
                } else {
                    failed(f, s2, CodegenErrorKind::UnsupportedReturnType)
                }
            },
        };
        emitted_result_elements_twins(f, s1, s2, count, element_bytes, (index + 1) as usize);
    }
}

pub(crate) proof fn emitted_candidate_twins<R: ConstantResolver, const P: usize, const N: usize>(
    f: Frame<R, P, N>,
    s1: Emission,
    s2: Emission,
    index_slot: usize,
    candidate: usize,
)
    requires
        twins(s1, s2),
    ensures
        follow(
            s1,
            s2,
            emitted_candidate(f, s1, index_slot, candidate).0,
            emitted_candidate(f, s2, index_slot, candidate).0,
        ),
        same_code(emitted_candidate(f, s1, index_slot, candidate).0, emitted_candidate(f, s2, index_slot, candidate).0) ==> emitted_candidate(f, s1, index_slot, candidate).1 == emitted_candidate(f, s2, index_slot, candidate).1,
{
    reveal(branch_place);
    reveal(emitted_candidate);
    emitted_stack_slot_twins(f, s1, s2, index_slot);
    let s1 = emitted_stack_slot(f, s1, index_slot);
    let s2 = emitted_stack_slot(f, s2, index_slot);
    put_twins(f, s1, s2, [0x48u8, 0x83, 0xf8, candidate as u8]@);
    let s1 = put(f, s1, [0x48u8, 0x83, 0xf8, candidate as u8]@);
    let s2 = put(f, s2, [0x48u8, 0x83, 0xf8, candidate as u8]@);
    let other1 = branch_place(s1, 2);
    let other2 = branch_place(s2, 2);
    put_twins(f, s1, s2, [0x0fu8, 0x85, 0, 0, 0, 0]@);
    let s1 = put(f, s1, [0x0fu8, 0x85, 0, 0, 0, 0]@);
    let s2 = put(f, s2, [0x0fu8, 0x85, 0, 0, 0, 0]@);
}

pub(crate) proof fn emitted_chosen_slots_twins<R: ConstantResolver, const P: usize, const N: usize>(
    f: Frame<R, P, N>,
    s1: Emission,
    s2: Emission,
    index_slot: usize,
    first: usize,
    count: usize,
    candidate: usize,
)
    requires
        twins(s1, s2),
    ensures
        follow(
            s1,
            s2,
            emitted_chosen_slots(f, s1, index_slot, first, count, candidate),
            emitted_chosen_slots(f, s2, index_slot, first, count, candidate),
        ),
    decreases count - candidate,
{
    reveal(branch_place);
    reveal(emitted_chosen_slots);
    if candidate < count {
        emitted_candidate_twins(f, s1, s2, index_slot, candidate);
        let (s1, other1) = emitted_candidate(f, s1, index_slot, candidate);
        let (s2, other2) = emitted_candidate(f, s2, index_slot, candidate);
        match sum_of(first, candidate) {
            None => {},
            Some(slot) => {
                emitted_stack_slot_twins(f, s1, s2, slot);
            },
        }
        let s1 = match sum_of(first, candidate) {
            None => {
                failed(f, s1, CodegenErrorKind::OutputTooSmall)
            },
            Some(slot) => {
                emitted_stack_slot(f, s1, slot)
            },
        };
        let s2 = match sum_of(first, candidate) {
            None => {
                failed(f, s2, CodegenErrorKind::OutputTooSmall)
            },
            Some(slot) => {
                emitted_stack_slot(f, s2, slot)
            },
        };
        let end1 = branch_place(s1, 1);
        let end2 = branch_place(s2, 1);
        put_twins(f, s1, s2, [0xe9u8, 0, 0, 0, 0]@);
        let s1 = put(f, s1, [0xe9u8, 0, 0, 0, 0]@);
        let s2 = put(f, s2, [0xe9u8, 0, 0, 0, 0]@);
        landed_twins(f, s1, s2, other1, other2);
        let s1 = landed(f, s1, other1);
        let s2 = landed(f, s2, other2);
        emitted_chosen_slots_twins(f, s1, s2, index_slot, first, count, (candidate + 1) as usize);
        let s1 = emitted_chosen_slots(f, s1, index_slot, first, count, (candidate + 1) as usize);
        let s2 = emitted_chosen_slots(f, s2, index_slot, first, count, (candidate + 1) as usize);
        landed_twins(f, s1, s2, end1, end2);
    } else {
        put_twins(f, s1, s2, [0x0fu8, 0x0b]@);
    }
}

pub(crate) proof fn emitted_chosen_stores_twins<R: ConstantResolver, const P: usize, const N: usize>(
    f: Frame<R, P, N>,
    s1: Emission,
    s2: Emission,
    index_slot: usize,
    first: usize,
    count: usize,
    candidate: usize,
)
    requires
        twins(s1, s2),
    ensures
        follow(
            s1,
            s2,
            emitted_chosen_stores(f, s1, index_slot, first, count, candidate),
            emitted_chosen_stores(f, s2, index_slot, first, count, candidate),
        ),
    decreases count - candidate,
{
    reveal(branch_place);
    reveal(emitted_chosen_stores);
    if candidate < count {
        emitted_candidate_twins(f, s1, s2, index_slot, candidate);
        let (s1, other1) = emitted_candidate(f, s1, index_slot, candidate);
        let (s2, other2) = emitted_candidate(f, s2, index_slot, candidate);
        emitted_stack_slot_twins(f, s1, s2, 0);
        let s1 = emitted_stack_slot(f, s1, 0);
        let s2 = emitted_stack_slot(f, s2, 0);
        match sum_of(first, candidate) {
            None => {},
            Some(slot) => {
                emitted_store_stack_slot_twins(f, s1, s2, slot);
            },
        }
        let s1 = match sum_of(first, candidate) {
            None => {
                failed(f, s1, CodegenErrorKind::OutputTooSmall)
            },
            Some(slot) => {
                emitted_store_stack_slot(f, s1, slot)
            },
        };
        let s2 = match sum_of(first, candidate) {
            None => {
                failed(f, s2, CodegenErrorKind::OutputTooSmall)
            },
            Some(slot) => {
                emitted_store_stack_slot(f, s2, slot)
            },
        };
        let end1 = branch_place(s1, 1);
        let end2 = branch_place(s2, 1);
        put_twins(f, s1, s2, [0xe9u8, 0, 0, 0, 0]@);
        let s1 = put(f, s1, [0xe9u8, 0, 0, 0, 0]@);
        let s2 = put(f, s2, [0xe9u8, 0, 0, 0, 0]@);
        landed_twins(f, s1, s2, other1, other2);
        let s1 = landed(f, s1, other1);
        let s2 = landed(f, s2, other2);
        emitted_chosen_stores_twins(f, s1, s2, index_slot, first, count, (candidate + 1) as usize);
        let s1 = emitted_chosen_stores(f, s1, index_slot, first, count, (candidate + 1) as usize);
        let s2 = emitted_chosen_stores(f, s2, index_slot, first, count, (candidate + 1) as usize);
        landed_twins(f, s1, s2, end1, end2);
    } else {
        put_twins(f, s1, s2, [0x0fu8, 0x0b]@);
    }
}

pub(crate) proof fn emitted_local_element_twins<R: ConstantResolver, const P: usize, const N: usize>(
    f: Frame<R, P, N>,
    s1: Emission,
    s2: Emission,
    local_index: usize,
    element: RuntimeArrayElementType,
    count: usize,
    index_slot: usize,
)
    requires
        twins(s1, s2),
    ensures
        follow(
            s1,
            s2,
            emitted_local_element(f, s1, local_index, element, count, index_slot),
            emitted_local_element(f, s2, local_index, element, count, index_slot),
        ),
{
    reveal(emitted_local_element);
    match place_of_elements(slots_from(s1.locals, place_from(local_index, 1)), s1.temporaries) {
        None => {},
        Some(first) => {
            match element_bytes(element) {
                None => {},
                Some(bytes) => {
                    if bytes == 1 || bytes == 2 || bytes == 4 {
                        emitted_stack_slot_twins(f, s1, s2, index_slot);
                        let s1 = emitted_stack_slot(f, s1, index_slot);
                        let s2 = emitted_stack_slot(f, s2, index_slot);
                        put_twins(f, s1, s2, [0x48u8, 0x89, 0xc1]@);
                        let s1 = put(f, s1, [0x48u8, 0x89, 0xc1]@);
                        let s2 = put(f, s2, [0x48u8, 0x89, 0xc1]@);
                        emitted_stack_slot_address_twins(f, s1, s2, first);
                        let s1 = emitted_stack_slot_address(f, s1, first);
                        let s2 = emitted_stack_slot_address(f, s2, first);
                        emitted_element_address_twins(f, s1, s2, bytes);
                        let s1 = emitted_element_address(f, s1, bytes);
                        let s2 = emitted_element_address(f, s2, bytes);
                        emitted_reference_load_twins(f, s1, s2, element);
                    } else {
                        emitted_chosen_slots_twins(f, s1, s2, index_slot, first, count, 0);
                    }
                },
            }
        },
    }
}

pub(crate) proof fn emitted_local_element_store_twins<R: ConstantResolver, const P: usize, const N: usize>(
    f: Frame<R, P, N>,
    s1: Emission,
    s2: Emission,
    local_index: usize,
    element: RuntimeArrayElementType,
    count: usize,
    index_slot: usize,
)
    requires
        twins(s1, s2),
    ensures
        follow(
            s1,
            s2,
            emitted_local_element_store(f, s1, local_index, element, count, index_slot),
            emitted_local_element_store(f, s2, local_index, element, count, index_slot),
        ),
{
    reveal(emitted_local_element_store);
    match place_of_elements(slots_from(s1.locals, place_from(local_index, 1)), s1.temporaries) {
        None => {},
        Some(first) => {
            match element_bytes(element) {
                None => {},
                Some(bytes) => {
                    if bytes == 1 || bytes == 2 || bytes == 4 {
                        emitted_stack_slot_twins(f, s1, s2, index_slot);
                        let s1 = emitted_stack_slot(f, s1, index_slot);
                        let s2 = emitted_stack_slot(f, s2, index_slot);
                        put_twins(f, s1, s2, [0x48u8, 0x89, 0xc1]@);
                        let s1 = put(f, s1, [0x48u8, 0x89, 0xc1]@);
                        let s2 = put(f, s2, [0x48u8, 0x89, 0xc1]@);
                        emitted_stack_slot_address_twins(f, s1, s2, first);
                        let s1 = emitted_stack_slot_address(f, s1, first);
                        let s2 = emitted_stack_slot_address(f, s2, first);
                        put_twins(f, s1, s2, [0x48u8, 0x89, 0xc2]@);
                        let s1 = put(f, s1, [0x48u8, 0x89, 0xc2]@);
                        let s2 = put(f, s2, [0x48u8, 0x89, 0xc2]@);
                        emitted_element_store_address_twins(f, s1, s2, bytes);
                        let s1 = emitted_element_store_address(f, s1, bytes);
                        let s2 = emitted_element_store_address(f, s2, bytes);
                        emitted_stack_slot_twins(f, s1, s2, 0);
                        let s1 = emitted_stack_slot(f, s1, 0);
                        let s2 = emitted_stack_slot(f, s2, 0);
                        emitted_reference_store_twins(f, s1, s2, element);
                    } else {
                        emitted_chosen_stores_twins(f, s1, s2, index_slot, first, count, 0);
                    }
                },
            }
        },
    }
}

pub(crate) proof fn emitted_cleanup_to_twins<R: ConstantResolver, const P: usize, const N: usize>(
    f: Frame<R, P, N>,
    s1: Emission,
    s2: Emission,
    checkpoint: usize,
)
    requires
        twins(s1, s2),
    ensures
        follow(
            s1,
            s2,
            emitted_cleanup_to(f, s1, checkpoint),
            emitted_cleanup_to(f, s2, checkpoint),
        ),
{
    reveal(emitted_cleanup_to);
    if checkpoint > number_of_locals(s1.locals) {
    } else {
        match slots_from(s1.locals, checkpoint) {
            None => {},
            Some(slots) => {
                emitted_slots_cleanup_twins(f, s1, s2, slots);
            },
        }
    }
}

pub(crate) proof fn emitted_scoped_cleanup_twins<R: ConstantResolver, const P: usize, const N: usize>(
    f: Frame<R, P, N>,
    s1: Emission,
    s2: Emission,
    checkpoint: usize,
)
    requires
        twins(s1, s2),
    ensures
        follow(
            s1,
            s2,
            emitted_scoped_cleanup(f, s1, checkpoint),
            emitted_scoped_cleanup(f, s2, checkpoint),
        ),
{
    reveal(emitted_scoped_cleanup);
    emitted_cleanup_to_twins(f, s1, s2, checkpoint);
    let s1 = emitted_cleanup_to(f, s1, checkpoint);
    let s2 = emitted_cleanup_to(f, s2, checkpoint);
    truncated_twins(f, s1, s2, checkpoint);
}

proof fn emitted_multiplication_adds_code<R: ConstantResolver, const P: usize, const N: usize>(
    f: Frame<R, P, N>,
    s: Emission,
)
    requires
        usual_width(s.width),
    ensures
        adds_code(s, emitted_multiplication(f, s)),
{
    reveal(emitted_multiplication);
    let width = s.width;
    put_adds_code(f, s, [0x48u8, 0x87, 0xc1]@);
    let s = put(f, s, [0x48u8, 0x87, 0xc1]@);
    if width.signed {
        put_adds_code(f, s, [0x48u8, 0x0f, 0xaf, 0xc1]@);
    } else {
        put_adds_code(f, s, [0x48u8, 0xf7, 0xe1, 0x48, 0x85, 0xd2]@);
    }
    let s = if width.signed {
        put(f, s, [0x48u8, 0x0f, 0xaf, 0xc1]@)
    } else {
        put(f, s, [0x48u8, 0xf7, 0xe1, 0x48, 0x85, 0xd2]@)
    };
    if s.overflow_checks && width.bits == 64 {
        if width.signed {
            trapped_adds_code(f, s, 0x80);
        } else {
            trapped_adds_code(f, s, 0x85);
        }
    } else {
        if s.overflow_checks {
            emitted_range_check_adds_code(f, s);
        } else {
            emitted_normal_adds_code(f, s);
        }
    }
}

pub(crate) proof fn emitted_multiplication_twins<R: ConstantResolver, const P: usize, const N: usize>(
    f: Frame<R, P, N>,
    s1: Emission,
    s2: Emission,
)
    requires
        twins(s1, s2),
    ensures
        follow(
            s1,
            s2,
            emitted_multiplication(f, s1),
            emitted_multiplication(f, s2),
        ),
{
    reveal(emitted_multiplication);
    if s1.overflow_checks == s2.overflow_checks {
        let width1 = s1.width;
        let width2 = s2.width;
        put_twins(f, s1, s2, [0x48u8, 0x87, 0xc1]@);
        let s1 = put(f, s1, [0x48u8, 0x87, 0xc1]@);
        let s2 = put(f, s2, [0x48u8, 0x87, 0xc1]@);
        if width1.signed {
            put_twins(f, s1, s2, [0x48u8, 0x0f, 0xaf, 0xc1]@);
        } else {
            put_twins(f, s1, s2, [0x48u8, 0xf7, 0xe1, 0x48, 0x85, 0xd2]@);
        }
        let s1 = if width1.signed {
            put(f, s1, [0x48u8, 0x0f, 0xaf, 0xc1]@)
        } else {
            put(f, s1, [0x48u8, 0xf7, 0xe1, 0x48, 0x85, 0xd2]@)
        };
        let s2 = if width2.signed {
            put(f, s2, [0x48u8, 0x0f, 0xaf, 0xc1]@)
        } else {
            put(f, s2, [0x48u8, 0xf7, 0xe1, 0x48, 0x85, 0xd2]@)
        };
        if s1.overflow_checks && width1.bits == 64 {
            if width1.signed {
                trapped_twins(f, s1, s2, 0x80);
            } else {
                trapped_twins(f, s1, s2, 0x85);
            }
        } else {
            if s1.overflow_checks {
                emitted_range_check_twins(f, s1, s2);
            } else {
                emitted_normal_twins(f, s1, s2);
            }
        }
    } else {
        emitted_multiplication_adds_code(f, s1);
        emitted_multiplication_adds_code(f, s2);
    }
}

proof fn emitted_sum_adds_code<R: ConstantResolver, const P: usize, const N: usize>(
    f: Frame<R, P, N>,
    s: Emission,
)
    requires
        usual_width(s.width),
    ensures
        adds_code(s, emitted_sum(f, s)),
{
    reveal(emitted_sum);
    let width = s.width;
    put_adds_code(f, s, [0x48u8, 0x01, 0xc8]@);
    let s = put(f, s, [0x48u8, 0x01, 0xc8]@);
    if s.overflow_checks && width.bits == 64 {
        emitted_carry_check_adds_code(f, s);
    } else {
        if s.overflow_checks {
            emitted_range_check_adds_code(f, s);
        } else {
            emitted_normal_adds_code(f, s);
        }
    }
}

pub(crate) proof fn emitted_sum_twins<R: ConstantResolver, const P: usize, const N: usize>(
    f: Frame<R, P, N>,
    s1: Emission,
    s2: Emission,
)
    requires
        twins(s1, s2),
    ensures
        follow(
            s1,
            s2,
            emitted_sum(f, s1),
            emitted_sum(f, s2),
        ),
{
    reveal(emitted_sum);
    if s1.overflow_checks == s2.overflow_checks {
        let width1 = s1.width;
        let width2 = s2.width;
        put_twins(f, s1, s2, [0x48u8, 0x01, 0xc8]@);
        let s1 = put(f, s1, [0x48u8, 0x01, 0xc8]@);
        let s2 = put(f, s2, [0x48u8, 0x01, 0xc8]@);
        if s1.overflow_checks && width1.bits == 64 {
            emitted_carry_check_twins(f, s1, s2);
        } else {
            if s1.overflow_checks {
                emitted_range_check_twins(f, s1, s2);
            } else {
                emitted_normal_twins(f, s1, s2);
            }
        }
    } else {
        emitted_sum_adds_code(f, s1);
        emitted_sum_adds_code(f, s2);
    }
}

proof fn emitted_difference_adds_code<R: ConstantResolver, const P: usize, const N: usize>(
    f: Frame<R, P, N>,
    s: Emission,
)
    requires
        usual_width(s.width),
    ensures
        adds_code(s, emitted_difference(f, s)),
{
    reveal(emitted_difference);
    let width = s.width;
    put_adds_code(f, s, [0x48u8, 0x29, 0xc1]@);
    let s = put(f, s, [0x48u8, 0x29, 0xc1]@);
    if s.overflow_checks && width.bits == 64 {
        emitted_carry_check_adds_code(f, s);
    }
    let s = if s.overflow_checks && width.bits == 64 {
        emitted_carry_check(f, s)
    } else {
        s
    };
    put_adds_code(f, s, [0x48u8, 0x89, 0xc8]@);
    let s = put(f, s, [0x48u8, 0x89, 0xc8]@);
    if s.overflow_checks && width.bits < 64 {
        emitted_range_check_adds_code(f, s);
    } else {
        emitted_normal_adds_code(f, s);
    }
}

pub(crate) proof fn emitted_difference_twins<R: ConstantResolver, const P: usize, const N: usize>(
    f: Frame<R, P, N>,
    s1: Emission,
    s2: Emission,
)
    requires
        twins(s1, s2),
    ensures
        follow(
            s1,
            s2,
            emitted_difference(f, s1),
            emitted_difference(f, s2),
        ),
{
    reveal(emitted_difference);
    if s1.overflow_checks == s2.overflow_checks {
        let width1 = s1.width;
        let width2 = s2.width;
        put_twins(f, s1, s2, [0x48u8, 0x29, 0xc1]@);
        let s1 = put(f, s1, [0x48u8, 0x29, 0xc1]@);
        let s2 = put(f, s2, [0x48u8, 0x29, 0xc1]@);
        if s1.overflow_checks && width1.bits == 64 {
            emitted_carry_check_twins(f, s1, s2);
        }
        let s1 = if s1.overflow_checks && width1.bits == 64 {
            emitted_carry_check(f, s1)
        } else {
            s1
        };
        let s2 = if s2.overflow_checks && width2.bits == 64 {
            emitted_carry_check(f, s2)
        } else {
            s2
        };
        put_twins(f, s1, s2, [0x48u8, 0x89, 0xc8]@);
        let s1 = put(f, s1, [0x48u8, 0x89, 0xc8]@);
        let s2 = put(f, s2, [0x48u8, 0x89, 0xc8]@);
        if s1.overflow_checks && width1.bits < 64 {
            emitted_range_check_twins(f, s1, s2);
        } else {
            emitted_normal_twins(f, s1, s2);
        }
    } else {
        emitted_difference_adds_code(f, s1);
        emitted_difference_adds_code(f, s2);
    }
}

proof fn emitted_shift_adds_code<R: ConstantResolver, const P: usize, const N: usize>(
    f: Frame<R, P, N>,
    s: Emission,
    left: bool,
)
    requires
        usual_width(s.width),
    ensures
        adds_code(s, emitted_shift(f, s, left)),
{
    reveal(emitted_shift);
    let width = s.width;
    put_adds_code(f, s, [0x48u8, 0x87, 0xc1]@);
    let s = put(f, s, [0x48u8, 0x87, 0xc1]@);
    if s.overflow_checks {
        put_adds_code(f, s, [0x48u8, 0x83, 0xf9, width.bits]@);
        let s = put(f, s, [0x48u8, 0x83, 0xf9, width.bits]@);
        trapped_adds_code(f, s, 0x83);
    } else {
        put_adds_code(f, s, [0x83u8, 0xe1, mask_of_shift(width.bits)]@);
    }
    let s = if s.overflow_checks {
        let s = put(f, s, [0x48u8, 0x83, 0xf9, width.bits]@);
        trapped(f, s, 0x83)
    } else {
        put(f, s, [0x83u8, 0xe1, mask_of_shift(width.bits)]@)
    };
    if left {
        put_adds_code(f, s, [0x48u8, 0xd3, 0xe0]@);
    } else {
        if width.signed {
            put_adds_code(f, s, [0x48u8, 0xd3, 0xf8]@);
        } else {
            put_adds_code(f, s, [0x48u8, 0xd3, 0xe8]@);
        }
    }
    let s = if left {
        put(f, s, [0x48u8, 0xd3, 0xe0]@)
    } else if width.signed {
        put(f, s, [0x48u8, 0xd3, 0xf8]@)
    } else {
        put(f, s, [0x48u8, 0xd3, 0xe8]@)
    };
    emitted_normal_adds_code(f, s);
}

pub(crate) proof fn emitted_shift_twins<R: ConstantResolver, const P: usize, const N: usize>(
    f: Frame<R, P, N>,
    s1: Emission,
    s2: Emission,
    left: bool,
)
    requires
        twins(s1, s2),
    ensures
        follow(
            s1,
            s2,
            emitted_shift(f, s1, left),
            emitted_shift(f, s2, left),
        ),
{
    reveal(emitted_shift);
    if s1.overflow_checks == s2.overflow_checks {
        let width1 = s1.width;
        let width2 = s2.width;
        put_twins(f, s1, s2, [0x48u8, 0x87, 0xc1]@);
        let s1 = put(f, s1, [0x48u8, 0x87, 0xc1]@);
        let s2 = put(f, s2, [0x48u8, 0x87, 0xc1]@);
        if s1.overflow_checks {
            put_twins(f, s1, s2, [0x48u8, 0x83, 0xf9, width1.bits]@);
            let s1 = put(f, s1, [0x48u8, 0x83, 0xf9, width1.bits]@);
            let s2 = put(f, s2, [0x48u8, 0x83, 0xf9, width2.bits]@);
            trapped_twins(f, s1, s2, 0x83);
        } else {
            put_twins(f, s1, s2, [0x83u8, 0xe1, mask_of_shift(width1.bits)]@);
        }
        let s1 = if s1.overflow_checks {
            let s1 = put(f, s1, [0x48u8, 0x83, 0xf9, width1.bits]@);
            trapped(f, s1, 0x83)
        } else {
            put(f, s1, [0x83u8, 0xe1, mask_of_shift(width1.bits)]@)
        };
        let s2 = if s2.overflow_checks {
            let s2 = put(f, s2, [0x48u8, 0x83, 0xf9, width2.bits]@);
            trapped(f, s2, 0x83)
        } else {
            put(f, s2, [0x83u8, 0xe1, mask_of_shift(width2.bits)]@)
        };
        if left {
            put_twins(f, s1, s2, [0x48u8, 0xd3, 0xe0]@);
        } else {
            if width1.signed {
                put_twins(f, s1, s2, [0x48u8, 0xd3, 0xf8]@);
            } else {
                put_twins(f, s1, s2, [0x48u8, 0xd3, 0xe8]@);
            }
        }
        let s1 = if left {
            put(f, s1, [0x48u8, 0xd3, 0xe0]@)
        } else if width1.signed {
            put(f, s1, [0x48u8, 0xd3, 0xf8]@)
        } else {
            put(f, s1, [0x48u8, 0xd3, 0xe8]@)
        };
        let s2 = if left {
            put(f, s2, [0x48u8, 0xd3, 0xe0]@)
        } else if width2.signed {
            put(f, s2, [0x48u8, 0xd3, 0xf8]@)
        } else {
            put(f, s2, [0x48u8, 0xd3, 0xe8]@)
        };
        emitted_normal_twins(f, s1, s2);
    } else {
        emitted_shift_adds_code(f, s1, left);
        emitted_shift_adds_code(f, s2, left);
    }
}

proof fn emitted_negated_adds_code<R: ConstantResolver, const P: usize, const N: usize>(
    f: Frame<R, P, N>,
    s: Emission,
    width: RuntimeWidth,
)
    requires
        usual_width(s.width),
    ensures
        adds_code(s, emitted_negated(f, s, width)),
{
    reveal(emitted_negated);
    put_adds_code(f, s, [0x48u8, 0xf7, 0xd8]@);
    let s = put(f, s, [0x48u8, 0xf7, 0xd8]@);
    if s.overflow_checks && width.bits == 64 {
        trapped_adds_code(f, s, 0x80);
    } else {
        if s.overflow_checks {
            emitted_range_check_adds_code(f, s);
        }
    }
    let s = if s.overflow_checks && width.bits == 64 {
        trapped(f, s, 0x80)
    } else if s.overflow_checks {
        emitted_range_check(f, s)
    } else {
        s
    };
    emitted_normal_adds_code(f, s);
}

pub(crate) proof fn emitted_negated_twins<R: ConstantResolver, const P: usize, const N: usize>(
    f: Frame<R, P, N>,
    s1: Emission,
    s2: Emission,
    width: RuntimeWidth,
)
    requires
        twins(s1, s2),
    ensures
        follow(
            s1,
            s2,
            emitted_negated(f, s1, width),
            emitted_negated(f, s2, width),
        ),
{
    reveal(emitted_negated);
    if s1.overflow_checks == s2.overflow_checks {
        put_twins(f, s1, s2, [0x48u8, 0xf7, 0xd8]@);
        let s1 = put(f, s1, [0x48u8, 0xf7, 0xd8]@);
        let s2 = put(f, s2, [0x48u8, 0xf7, 0xd8]@);
        if s1.overflow_checks && width.bits == 64 {
            trapped_twins(f, s1, s2, 0x80);
        } else {
            if s1.overflow_checks {
                emitted_range_check_twins(f, s1, s2);
            }
        }
        let s1 = if s1.overflow_checks && width.bits == 64 {
            trapped(f, s1, 0x80)
        } else if s1.overflow_checks {
            emitted_range_check(f, s1)
        } else {
            s1
        };
        let s2 = if s2.overflow_checks && width.bits == 64 {
            trapped(f, s2, 0x80)
        } else if s2.overflow_checks {
            emitted_range_check(f, s2)
        } else {
            s2
        };
        emitted_normal_twins(f, s1, s2);
    } else {
        emitted_negated_adds_code(f, s1, width);
        emitted_negated_adds_code(f, s2, width);
    }
}

} // verus!
