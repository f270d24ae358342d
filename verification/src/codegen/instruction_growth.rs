//! How code grows by the code of instructions.
use crate::expression::ConstantResolver;
use crate::grammar::Word;
use crate::integer::BinaryOperator;
use crate::codegen::growth::{
    added, goes_on, landed_adds, put_adds, raised_adds, released_adds, trapped_adds,
    truncated_adds,
};
use crate::codegen::typing_rules::comparison;
use crate::codegen::emission::{
    Emission, branch_place, failed, landed, named_register, offset_of, parameter_slots_from,
    place, put, quad_bytes, raised, released, shift_in_word, slots_from, stands_in_word,
    trapped, word_bytes, word_elements,
};
use crate::codegen::instructions::{
    emitted_binary, emitted_candidate, emitted_carry_check, emitted_chosen_slots,
    emitted_chosen_stores, emitted_cleanup, emitted_cleanup_bytes, emitted_cleanup_to,
    emitted_constant, emitted_constant_name, emitted_copies, emitted_difference,
    emitted_division, emitted_element_address, emitted_element_store_address,
    emitted_epilogue, emitted_identifier, emitted_identifier_address,
    emitted_indexed_address, emitted_indexed_store_address, emitted_local_element,
    emitted_local_element_store, emitted_local_name, emitted_moved_slots,
    emitted_multiplication, emitted_negated, emitted_normal, emitted_normal_element,
    emitted_normal_width, emitted_original_load, emitted_original_push, emitted_packed,
    emitted_packed_array, emitted_packed_word, emitted_packed_words, emitted_parameter_load,
    emitted_parameter_name, emitted_parameter_push, emitted_parameter_slot,
    emitted_pointed_elements, emitted_prologue, emitted_range_check, emitted_reference_load,
    emitted_reference_store, emitted_register_load, emitted_register_words,
    emitted_result_elements, emitted_scoped_cleanup, emitted_shift, emitted_slice_length,
    emitted_slot_of, emitted_slots_cleanup, emitted_stack_access, emitted_stack_slot,
    emitted_stack_slot_address, emitted_stack_words, emitted_store_stack_slot,
    emitted_string_boundary, emitted_string_range_boundaries, emitted_sum, emitted_swapped,
    emitted_system_v_parameters, emitted_unpacked, emitted_unpacked_word,
    emitted_wide_access, emitted_windows_array, emitted_windows_parameters,
    emitted_windows_word, emitted_zero_array, emitted_zero_slots,
};
use crate::codegen::encoding::{
    ParameterPassing, code_of_condition, excess, fat_local_named, fat_parameter_named,
    load_of_register, mask_of_shift, mirrored, number_of_locals, packed_form, passing_of,
    place_behind_words, place_of_elements, place_of_packed, place_of_parameter,
    pointer_text, push_of_register, slots_of_length, sum_of_three,
};
use crate::codegen::frame::{
    Frame, X86_64Abi, local_named, parameter_named, place_from,
};
use crate::codegen::runtime::{
    RuntimeArrayElementType, RuntimeExpressionType, RuntimeWidth, array_layout,
    element_bytes, local_slots, product_of, sum_of, width_of_char, width_of_integer,
};
use crate::codegen::error::CodegenErrorKind;
use crate::codegen::types::reference_type;
use vstd::prelude::*;

verus! {

pub(crate) proof fn emitted_wide_access_adds<R: ConstantResolver, const P: usize, const N: usize>(
    ground: Emission,
    f: Frame<R, P, N>,
    s: Emission,
    opcode: u8,
    displacement: usize,
    kind: CodegenErrorKind,
)
    ensures
        goes_on(ground, s, emitted_wide_access(f, s, opcode, displacement, kind), -1),
{
    reveal(emitted_wide_access);
    if displacement <= 127 {
        put_adds(ground, f, s, [0x48u8, opcode, 0x44, 0x24, displacement as u8]@);
    } else {
        if displacement <= 0xffff_ffff {
            put_adds(ground, f, s, [0x48u8, opcode, 0x84, 0x24]@);
            let s = put(f, s, [0x48u8, opcode, 0x84, 0x24]@);
            put_adds(ground, f, s, word_bytes(displacement as int));
        }
    }
}

pub(crate) proof fn emitted_stack_access_adds<R: ConstantResolver, const P: usize, const N: usize>(
    ground: Emission,
    f: Frame<R, P, N>,
    s: Emission,
    opcode: u8,
    slots: usize,
)
    ensures
        goes_on(ground, s, emitted_stack_access(f, s, opcode, slots), -1),
{
    reveal(emitted_stack_access);
    match product_of(slots, 8) {
        None => {},
        Some(displacement) => {
            emitted_wide_access_adds(
                ground,
                f,
                s,
                opcode,
                displacement,
                CodegenErrorKind::OutputTooSmall,
            );
        },
    }
}

pub(crate) proof fn emitted_stack_slot_adds<R: ConstantResolver, const P: usize, const N: usize>(
    ground: Emission,
    f: Frame<R, P, N>,
    s: Emission,
    slots: usize,
)
    ensures
        goes_on(ground, s, emitted_stack_slot(f, s, slots), -1),
{
    reveal(emitted_stack_slot);
    emitted_stack_access_adds(ground, f, s, 0x8b, slots);
}

pub(crate) proof fn emitted_stack_slot_address_adds<R: ConstantResolver, const P: usize, const N: usize>(
    ground: Emission,
    f: Frame<R, P, N>,
    s: Emission,
    slots: usize,
)
    ensures
        goes_on(ground, s, emitted_stack_slot_address(f, s, slots), -1),
{
    reveal(emitted_stack_slot_address);
    emitted_stack_access_adds(ground, f, s, 0x8d, slots);
}

pub(crate) proof fn emitted_store_stack_slot_adds<R: ConstantResolver, const P: usize, const N: usize>(
    ground: Emission,
    f: Frame<R, P, N>,
    s: Emission,
    slots: usize,
)
    ensures
        goes_on(ground, s, emitted_store_stack_slot(f, s, slots), -1),
{
    reveal(emitted_store_stack_slot);
    emitted_stack_access_adds(ground, f, s, 0x89, slots);
}

pub(crate) proof fn emitted_cleanup_adds<R: ConstantResolver, const P: usize, const N: usize>(
    ground: Emission,
    f: Frame<R, P, N>,
    s: Emission,
    bytes: usize,
    kind: CodegenErrorKind,
)
    ensures
        goes_on(ground, s, emitted_cleanup(f, s, bytes, kind), -1),
{
    reveal(emitted_cleanup);
    if bytes == 0 {
    } else {
        if bytes <= 127 {
            put_adds(ground, f, s, [0x48u8, 0x83, 0xc4, bytes as u8]@);
        } else {
            if bytes <= 0xffff_ffff {
                put_adds(ground, f, s, [0x48u8, 0x81, 0xc4]@);
                let s = put(f, s, [0x48u8, 0x81, 0xc4]@);
                put_adds(ground, f, s, word_bytes(bytes as int));
            }
        }
    }
}

pub(crate) proof fn emitted_cleanup_bytes_adds<R: ConstantResolver, const P: usize, const N: usize>(
    ground: Emission,
    f: Frame<R, P, N>,
    s: Emission,
    bytes: usize,
)
    ensures
        goes_on(ground, s, emitted_cleanup_bytes(f, s, bytes), -1),
{
    reveal(emitted_cleanup_bytes);
    emitted_cleanup_adds(ground, f, s, bytes, CodegenErrorKind::OutputTooSmall);
}

pub(crate) proof fn emitted_slots_cleanup_adds<R: ConstantResolver, const P: usize, const N: usize>(
    ground: Emission,
    f: Frame<R, P, N>,
    s: Emission,
    slots: usize,
)
    ensures
        goes_on(ground, s, emitted_slots_cleanup(f, s, slots), -1),
{
    reveal(emitted_slots_cleanup);
    match product_of(slots, 8) {
        None => {},
        Some(bytes) => {
            emitted_cleanup_bytes_adds(ground, f, s, bytes);
        },
    }
}

pub(crate) proof fn emitted_original_load_adds<R: ConstantResolver, const P: usize, const N: usize>(
    ground: Emission,
    f: Frame<R, P, N>,
    s: Emission,
    original_offset: usize,
    pushed_slots: usize,
)
    ensures
        goes_on(ground, s, emitted_original_load(f, s, original_offset, pushed_slots), -1),
{
    reveal(emitted_original_load);
    match product_of(pushed_slots, 8) {
        None => {},
        Some(delta) => {
            match sum_of(original_offset, delta) {
                None => {},
                Some(displacement) => {
                    emitted_wide_access_adds(
                        ground,
                        f,
                        s,
                        0x8b,
                        displacement,
                        CodegenErrorKind::TooManyAbiParameters,
                    );
                },
            }
        },
    }
}

pub(crate) proof fn emitted_original_push_adds<R: ConstantResolver, const P: usize, const N: usize>(
    ground: Emission,
    f: Frame<R, P, N>,
    s: Emission,
    original_offset: usize,
    pushed_slots: usize,
)
    ensures
        goes_on(ground, s, emitted_original_push(f, s, original_offset, pushed_slots), -1),
{
    reveal(emitted_original_push);
    emitted_original_load_adds(ground, f, s, original_offset, pushed_slots);
    let s = emitted_original_load(f, s, original_offset, pushed_slots);
    put_adds(ground, f, s, [0x50u8]@);
}

pub(crate) proof fn emitted_epilogue_adds<R: ConstantResolver, const P: usize, const N: usize>(
    ground: Emission,
    f: Frame<R, P, N>,
    s: Emission,
)
    ensures
        goes_on(ground, s, emitted_epilogue(f, s), -1),
{
    reveal(emitted_epilogue);
    match slots_from(s.locals, 0) {
        None => {},
        Some(locals) => {
            match sum_of(f.saved_parameter_slots, locals) {
                None => {},
                Some(slots) => {
                    match product_of(slots, 8) {
                        None => {},
                        Some(bytes) => {
                            emitted_cleanup_adds(
                                ground,
                                f,
                                s,
                                bytes,
                                CodegenErrorKind::TooManyAbiParameters,
                            );
                            let s = emitted_cleanup(f, s, bytes, CodegenErrorKind::TooManyAbiParameters);
                            put_adds(ground, f, s, [0xc3u8]@);
                        },
                    }
                },
            }
        },
    }
}

pub(crate) proof fn emitted_constant_adds<R: ConstantResolver, const P: usize, const N: usize>(
    ground: Emission,
    f: Frame<R, P, N>,
    s: Emission,
    value: u64,
)
    ensures
        goes_on(ground, s, emitted_constant(f, s, value), -1),
{
    reveal(emitted_constant);
    put_adds(ground, f, s, [0x48u8, 0xb8]@);
    let s = put(f, s, [0x48u8, 0xb8]@);
    put_adds(ground, f, s, quad_bytes(value as int));
}

pub(crate) proof fn emitted_register_load_adds<R: ConstantResolver, const P: usize, const N: usize>(
    ground: Emission,
    f: Frame<R, P, N>,
    s: Emission,
    abi: X86_64Abi,
    index: usize,
)
    ensures
        goes_on(ground, s, emitted_register_load(f, s, abi, index), -1),
{
    reveal(emitted_register_load);
    match load_of_register(abi, index) {
        None => {},
        Some((first, third)) => {
            put_adds(ground, f, s, [first, 0x89, third]@);
        },
    }
}

pub(crate) proof fn emitted_parameter_load_adds<R: ConstantResolver, const P: usize, const N: usize>(
    ground: Emission,
    f: Frame<R, P, N>,
    s: Emission,
    index: usize,
    pushed_slots: usize,
)
    ensures
        goes_on(ground, s, emitted_parameter_load(f, s, index, pushed_slots), -1),
{
    reveal(emitted_parameter_load);
    if index < 4 {
        emitted_register_load_adds(ground, f, s, X86_64Abi::Windows, index);
    } else {
        match place_of_parameter(index) {
            None => {},
            Some(original) => {
                emitted_original_load_adds(ground, f, s, original, pushed_slots);
            },
        }
    }
}

pub(crate) proof fn emitted_parameter_push_adds<R: ConstantResolver, const P: usize, const N: usize>(
    ground: Emission,
    f: Frame<R, P, N>,
    s: Emission,
    abi: X86_64Abi,
    index: usize,
)
    ensures
        goes_on(ground, s, emitted_parameter_push(f, s, abi, index), -1),
{
    reveal(emitted_parameter_push);
    match push_of_register(abi, index) {
        None => {},
        Some((false, register)) => {
            put_adds(ground, f, s, [register]@);
        },
        Some((true, register)) => {
            put_adds(ground, f, s, [0x41u8, register]@);
        },
    }
}

pub(crate) proof fn emitted_windows_word_adds<R: ConstantResolver, const P: usize, const N: usize>(
    ground: Emission,
    f: Frame<R, P, N>,
    s: Emission,
    index: usize,
    pushed_slots: usize,
)
    ensures
        goes_on(ground, s, emitted_windows_word(f, s, index, pushed_slots), -1),
{
    reveal(emitted_windows_word);
    if index < 4 {
        emitted_parameter_push_adds(ground, f, s, X86_64Abi::Windows, index);
    } else {
        match place_of_parameter(index) {
            None => {},
            Some(original) => {
                emitted_original_push_adds(ground, f, s, original, pushed_slots);
            },
        }
    }
}

pub(crate) proof fn emitted_unpacked_adds<R: ConstantResolver, const P: usize, const N: usize>(
    ground: Emission,
    f: Frame<R, P, N>,
    s: Emission,
    element_bytes: usize,
    count: usize,
    word: usize,
    index: usize,
)
    ensures
        goes_on(ground, s, emitted_unpacked(f, s, element_bytes, count, word, index), -1),
    decreases count - index,
{
    reveal(emitted_unpacked);
    if index < count {
        if stands_in_word(index, element_bytes, word) {
            put_adds(ground, f, s, [0x49u8, 0x89, 0xc2]@);
            let s = put(f, s, [0x49u8, 0x89, 0xc2]@);
            if shift_in_word(index, element_bytes) != 0 {
                put_adds(ground, f, s, [0x49u8, 0xc1, 0xea, shift_in_word(index, element_bytes)]@);
            }
            let s = if shift_in_word(index, element_bytes) != 0 {
                put(f, s, [0x49u8, 0xc1, 0xea, shift_in_word(index, element_bytes)]@)
            } else {
                s
            };
            if element_bytes == 1 {
                put_adds(ground, f, s, [0x45u8, 0x0f, 0xb6, 0xd2]@);
            } else {
                if element_bytes == 2 {
                    put_adds(ground, f, s, [0x45u8, 0x0f, 0xb7, 0xd2]@);
                }
            }
            let s = if element_bytes == 1 {
                put(f, s, [0x45u8, 0x0f, 0xb6, 0xd2]@)
            } else if element_bytes == 2 {
                put(f, s, [0x45u8, 0x0f, 0xb7, 0xd2]@)
            } else if element_bytes != 4 && element_bytes != 8 {
                failed(f, s, CodegenErrorKind::UnsupportedParameterType)
            } else {
                s
            };
            put_adds(ground, f, s, [0x41u8, 0x52]@);
        }
        let s = if stands_in_word(index, element_bytes, word) {
            let s = put(f, s, [0x49u8, 0x89, 0xc2]@);
            let s = if shift_in_word(index, element_bytes) != 0 {
                put(f, s, [0x49u8, 0xc1, 0xea, shift_in_word(index, element_bytes)]@)
            } else {
                s
            };
            let s = if element_bytes == 1 {
                put(f, s, [0x45u8, 0x0f, 0xb6, 0xd2]@)
            } else if element_bytes == 2 {
                put(f, s, [0x45u8, 0x0f, 0xb7, 0xd2]@)
            } else if element_bytes != 4 && element_bytes != 8 {
                failed(f, s, CodegenErrorKind::UnsupportedParameterType)
            } else {
                s
            };
            put(f, s, [0x41u8, 0x52]@)
        } else {
            s
        };
        emitted_unpacked_adds(ground, f, s, element_bytes, count, word, (index + 1) as usize);
    }
}

pub(crate) proof fn emitted_unpacked_word_adds<R: ConstantResolver, const P: usize, const N: usize>(
    ground: Emission,
    f: Frame<R, P, N>,
    s: Emission,
    element_bytes: usize,
    count: usize,
    word: usize,
)
    ensures
        goes_on(ground, s, emitted_unpacked_word(f, s, element_bytes, count, word), -1),
{
    reveal(emitted_unpacked_word);
    emitted_unpacked_adds(ground, f, s, element_bytes, count, word, 0);
}

pub(crate) proof fn emitted_zero_slots_adds<R: ConstantResolver, const P: usize, const N: usize>(
    ground: Emission,
    f: Frame<R, P, N>,
    s: Emission,
    count: usize,
)
    ensures
        goes_on(ground, s, emitted_zero_slots(f, s, count), -1),
    decreases count,
{
    reveal(emitted_zero_slots);
    if count > 0 {
        put_adds(ground, f, s, [0x50u8]@);
        let s = put(f, s, [0x50u8]@);
        emitted_zero_slots_adds(ground, f, s, (count - 1) as usize);
    }
}

pub(crate) proof fn emitted_zero_array_adds<R: ConstantResolver, const P: usize, const N: usize>(
    ground: Emission,
    f: Frame<R, P, N>,
    s: Emission,
    count: usize,
)
    ensures
        goes_on(ground, s, emitted_zero_array(f, s, count), -1),
{
    reveal(emitted_zero_array);
    if count != 0 {
        put_adds(ground, f, s, [0x31u8, 0xc0]@);
    }
    let s = if count != 0 {
        put(f, s, [0x31u8, 0xc0]@)
    } else {
        s
    };
    emitted_zero_slots_adds(ground, f, s, count);
}

pub(crate) proof fn emitted_pointed_elements_adds<R: ConstantResolver, const P: usize, const N: usize>(
    ground: Emission,
    f: Frame<R, P, N>,
    s: Emission,
    element_bytes: usize,
    count: usize,
    index: usize,
)
    ensures
        goes_on(ground, s, emitted_pointed_elements(f, s, element_bytes, count, index), -1),
    decreases count - index,
{
    reveal(emitted_pointed_elements);
    if index < count {
        match offset_of(index, element_bytes) {
            None => {},
            Some(displacement) => {
                if element_bytes == 1 {
                    put_adds(ground, f, s, [0x44u8, 0x0f, 0xb6, 0x50, displacement]@);
                } else {
                    if element_bytes == 2 {
                        put_adds(ground, f, s, [0x44u8, 0x0f, 0xb7, 0x50, displacement]@);
                    } else {
                        if element_bytes == 4 {
                            put_adds(ground, f, s, [0x44u8, 0x8b, 0x50, displacement]@);
                        } else {
                            if element_bytes == 8 && displacement == 0 {
                                put_adds(ground, f, s, [0x4cu8, 0x8b, 0x10]@);
                            } else {
                                if element_bytes == 8 {
                                    put_adds(ground, f, s, [0x4cu8, 0x8b, 0x50, displacement]@);
                                }
                            }
                        }
                    }
                }
                let s = if element_bytes == 1 {
                    put(f, s, [0x44u8, 0x0f, 0xb6, 0x50, displacement]@)
                } else if element_bytes == 2 {
                    put(f, s, [0x44u8, 0x0f, 0xb7, 0x50, displacement]@)
                } else if element_bytes == 4 {
                    put(f, s, [0x44u8, 0x8b, 0x50, displacement]@)
                } else if element_bytes == 8 && displacement == 0 {
                    put(f, s, [0x4cu8, 0x8b, 0x10]@)
                } else if element_bytes == 8 {
                    put(f, s, [0x4cu8, 0x8b, 0x50, displacement]@)
                } else {
                    failed(f, s, CodegenErrorKind::UnsupportedParameterType)
                };
                put_adds(ground, f, s, [0x41u8, 0x52]@);
            },
        }
        let s = match offset_of(index, element_bytes) {
            None => {
                failed(f, s, CodegenErrorKind::TooManyAbiParameters)
            },
            Some(displacement) => {
                let s = if element_bytes == 1 {
                    put(f, s, [0x44u8, 0x0f, 0xb6, 0x50, displacement]@)
                } else if element_bytes == 2 {
                    put(f, s, [0x44u8, 0x0f, 0xb7, 0x50, displacement]@)
                } else if element_bytes == 4 {
                    put(f, s, [0x44u8, 0x8b, 0x50, displacement]@)
                } else if element_bytes == 8 && displacement == 0 {
                    put(f, s, [0x4cu8, 0x8b, 0x10]@)
                } else if element_bytes == 8 {
                    put(f, s, [0x4cu8, 0x8b, 0x50, displacement]@)
                } else {
                    failed(f, s, CodegenErrorKind::UnsupportedParameterType)
                };
                put(f, s, [0x41u8, 0x52]@)
            },
        };
        emitted_pointed_elements_adds(ground, f, s, element_bytes, count, (index + 1) as usize);
    }
}

pub(crate) proof fn emitted_windows_array_adds<R: ConstantResolver, const P: usize, const N: usize>(
    ground: Emission,
    f: Frame<R, P, N>,
    s: Emission,
    array: RuntimeExpressionType,
    count: usize,
    abi_index: usize,
    pushed: usize,
)
    ensures
        goes_on(ground, s, emitted_windows_array(f, s, array, count, abi_index, pushed), -1),
{
    reveal(emitted_windows_array);
    match array_layout(array) {
        None => {},
        Some(layout) => {
            if layout.bytes == 0 {
                emitted_zero_array_adds(ground, f, s, count);
            } else {
                if layout.bytes == 1 || layout.bytes == 2 || layout.bytes == 4 || layout.bytes == 8 {
                    emitted_parameter_load_adds(ground, f, s, abi_index, pushed);
                    let s = emitted_parameter_load(f, s, abi_index, pushed);
                    emitted_unpacked_word_adds(ground, f, s, layout.element_bytes, count, 0);
                } else {
                    emitted_parameter_load_adds(ground, f, s, abi_index, pushed);
                    let s = emitted_parameter_load(f, s, abi_index, pushed);
                    emitted_pointed_elements_adds(ground, f, s, layout.element_bytes, count, 0);
                }
            }
        },
    }
}

pub(crate) proof fn emitted_windows_parameters_adds<R: ConstantResolver, const P: usize, const N: usize>(
    ground: Emission,
    f: Frame<R, P, N>,
    s: Emission,
    index: int,
    abi_index: usize,
    pushed: usize,
)
    ensures
        goes_on(ground, s, emitted_windows_parameters(f, s, index, abi_index, pushed), -1),
    decreases f.function.parameters@.len() - index,
{
    reveal(emitted_windows_parameters);
    if index < f.function.parameters@.len() {
        match passing_of(f.function.parameters@[index as int].ty.text@) {
            ParameterPassing::Fat => {
                emitted_parameter_load_adds(ground, f, s, abi_index, pushed);
                let s = emitted_parameter_load(f, s, abi_index, pushed);
                put_adds(ground, f, s, [0x4cu8, 0x8b, 0x10, 0x41, 0x52]@);
                let s = put(f, s, [0x4cu8, 0x8b, 0x10, 0x41, 0x52]@);
                put_adds(ground, f, s, [0x4cu8, 0x8b, 0x50, 0x08, 0x41, 0x52]@);
                let s = put(f, s, [0x4cu8, 0x8b, 0x50, 0x08, 0x41, 0x52]@);
                emitted_windows_parameters_adds(
                    ground,
                    f,
                    s,
                    index + 1,
                    place_from(abi_index, 1),
                    place_from(pushed, 2),
                );
            },
            ParameterPassing::Array { array, count } => {
                emitted_windows_array_adds(ground, f, s, array, count, abi_index, pushed);
                let s = emitted_windows_array(f, s, array, count, abi_index, pushed);
                emitted_windows_parameters_adds(
                    ground,
                    f,
                    s,
                    index + 1,
                    place_from(abi_index, 1),
                    place_from(pushed, count),
                );
            },
            ParameterPassing::Word => {
                emitted_windows_word_adds(ground, f, s, abi_index, pushed);
                let s = emitted_windows_word(f, s, abi_index, pushed);
                emitted_windows_parameters_adds(
                    ground,
                    f,
                    s,
                    index + 1,
                    place_from(abi_index, 1),
                    place_from(pushed, 1),
                );
            },
        }
    }
}

pub(crate) proof fn emitted_register_words_adds<R: ConstantResolver, const P: usize, const N: usize>(
    ground: Emission,
    f: Frame<R, P, N>,
    s: Emission,
    element_bytes: usize,
    count: usize,
    word: usize,
    words: usize,
    register: usize,
)
    ensures
        goes_on(ground, s, emitted_register_words(f, s, element_bytes, count, word, words, register), -1),
    decreases words - word,
{
    reveal(emitted_register_words);
    if word < words {
        emitted_register_load_adds(ground, f, s, X86_64Abi::SystemV, register);
        let s = emitted_register_load(f, s, X86_64Abi::SystemV, register);
        emitted_unpacked_word_adds(ground, f, s, element_bytes, count, word);
        let s = emitted_unpacked_word(f, s, element_bytes, count, word);
        emitted_register_words_adds(
            ground,
            f,
            s,
            element_bytes,
            count,
            (word + 1) as usize,
            words,
            place_from(register, 1),
        );
    }
}

pub(crate) proof fn emitted_stack_words_adds<R: ConstantResolver, const P: usize, const N: usize>(
    ground: Emission,
    f: Frame<R, P, N>,
    s: Emission,
    element_bytes: usize,
    count: usize,
    word: usize,
    words: usize,
    offset: usize,
    pushed: usize,
)
    ensures
        goes_on(ground, s, emitted_stack_words(f, s, element_bytes, count, word, words, offset, pushed), -1),
    decreases words - word,
{
    reveal(emitted_stack_words);
    if word < words {
        emitted_original_load_adds(ground, f, s, offset, pushed);
        let s = emitted_original_load(f, s, offset, pushed);
        emitted_unpacked_word_adds(ground, f, s, element_bytes, count, word);
        let s = emitted_unpacked_word(f, s, element_bytes, count, word);
        match sum_of(offset, 8) {
            None => {},
            Some(offset) => {
                emitted_stack_words_adds(
                    ground,
                    f,
                    s,
                    element_bytes,
                    count,
                    (word + 1) as usize,
                    words,
                    offset,
                    place_from(pushed, word_elements(element_bytes, count, word)),
                );
            },
        }
    }
}

pub(crate) proof fn emitted_system_v_parameters_adds<R: ConstantResolver, const P: usize, const N: usize>(
    ground: Emission,
    f: Frame<R, P, N>,
    s: Emission,
    index: int,
    register: usize,
    offset: usize,
    pushed: usize,
)
    ensures
        goes_on(ground, s, emitted_system_v_parameters(f, s, index, register, offset, pushed), -1),
    decreases f.function.parameters@.len() - index,
{
    reveal(emitted_system_v_parameters);
    if index < f.function.parameters@.len() {
        match passing_of(f.function.parameters@[index as int].ty.text@) {
            ParameterPassing::Fat => {
                if register <= 4 {
                    emitted_register_load_adds(ground, f, s, X86_64Abi::SystemV, register);
                    let s = emitted_register_load(f, s, X86_64Abi::SystemV, register);
                    put_adds(ground, f, s, [0x50u8]@);
                    let s = put(f, s, [0x50u8]@);
                    emitted_register_load_adds(
                        ground,
                        f,
                        s,
                        X86_64Abi::SystemV,
                        place_from(register, 1),
                    );
                    let s = emitted_register_load(f, s, X86_64Abi::SystemV, place_from(register, 1));
                    put_adds(ground, f, s, [0x50u8]@);
                    let s = put(f, s, [0x50u8]@);
                    emitted_system_v_parameters_adds(
                        ground,
                        f,
                        s,
                        index + 1,
                        place_from(register, 2),
                        offset,
                        place_from(pushed, 2),
                    );
                } else {
                    emitted_original_push_adds(ground, f, s, offset, pushed);
                    let s = emitted_original_push(f, s, offset, pushed);
                    emitted_original_push_adds(
                        ground,
                        f,
                        s,
                        place_from(offset, 8),
                        place_from(pushed, 1),
                    );
                    let s = emitted_original_push(f, s, place_from(offset, 8), place_from(pushed, 1));
                    emitted_system_v_parameters_adds(
                        ground,
                        f,
                        s,
                        index + 1,
                        register,
                        place_from(offset, 16),
                        place_from(pushed, 2),
                    );
                }
            },
            ParameterPassing::Array { array, count } => {
                match array_layout(array) {
                    None => {},
                    Some(layout) => {
                        if layout.words == 0 {
                            emitted_zero_array_adds(ground, f, s, count);
                            let s = emitted_zero_array(f, s, count);
                            emitted_system_v_parameters_adds(
                                ground,
                                f,
                                s,
                                index + 1,
                                register,
                                offset,
                                place_from(pushed, count),
                            );
                        } else {
                            if layout.words <= 2 && place_from(register, layout.words) <= 6 {
                                emitted_register_words_adds(
                                    ground,
                                    f,
                                    s,
                                    layout.element_bytes,
                                    count,
                                    0,
                                    layout.words,
                                    register,
                                );
                                let s = emitted_register_words(
                                f,
                                s,
                                layout.element_bytes,
                                count,
                                0,
                                layout.words,
                                register,
                            );
                                emitted_system_v_parameters_adds(
                                    ground,
                                    f,
                                    s,
                                    index + 1,
                                    place_from(register, layout.words),
                                    offset,
                                    place_from(pushed, count),
                                );
                            } else {
                                emitted_stack_words_adds(
                                    ground,
                                    f,
                                    s,
                                    layout.element_bytes,
                                    count,
                                    0,
                                    layout.words,
                                    offset,
                                    pushed,
                                );
                                let s = emitted_stack_words(
                                f,
                                s,
                                layout.element_bytes,
                                count,
                                0,
                                layout.words,
                                offset,
                                pushed,
                            );
                                match place_behind_words(offset, layout.words) {
                                    None => {},
                                    Some(offset) => {
                                        emitted_system_v_parameters_adds(
                                            ground,
                                            f,
                                            s,
                                            index + 1,
                                            register,
                                            offset,
                                            place_from(pushed, count),
                                        );
                                    },
                                }
                            }
                        }
                    },
                }
            },
            ParameterPassing::Word => {
                if register < 6 {
                    emitted_parameter_push_adds(ground, f, s, X86_64Abi::SystemV, register);
                    let s = emitted_parameter_push(f, s, X86_64Abi::SystemV, register);
                    emitted_system_v_parameters_adds(
                        ground,
                        f,
                        s,
                        index + 1,
                        place_from(register, 1),
                        offset,
                        place_from(pushed, 1),
                    );
                } else {
                    emitted_original_push_adds(ground, f, s, offset, pushed);
                    let s = emitted_original_push(f, s, offset, pushed);
                    match sum_of(offset, 8) {
                        None => {},
                        Some(offset) => {
                            emitted_system_v_parameters_adds(
                                ground,
                                f,
                                s,
                                index + 1,
                                register,
                                offset,
                                place_from(pushed, 1),
                            );
                        },
                    }
                }
            },
        }
    }
}

pub(crate) proof fn emitted_prologue_adds<R: ConstantResolver, const P: usize, const N: usize>(
    ground: Emission,
    f: Frame<R, P, N>,
    s: Emission,
)
    ensures
        goes_on(ground, s, emitted_prologue(f, s), -1),
{
    reveal(emitted_prologue);
    if f.abi == X86_64Abi::Windows {
        if f.uses_sret {
            put_adds(ground, f, s, [0x51u8]@);
            let s = put(f, s, [0x51u8]@);
            emitted_windows_parameters_adds(ground, f, s, 0, 1, 1);
        } else {
            emitted_windows_parameters_adds(ground, f, s, 0, 0, 0);
        }
    } else {
        if f.uses_sret {
            put_adds(ground, f, s, [0x57u8]@);
            let s = put(f, s, [0x57u8]@);
            emitted_system_v_parameters_adds(ground, f, s, 0, 1, 8, 1);
        } else {
            emitted_system_v_parameters_adds(ground, f, s, 0, 0, 8, 0);
        }
    }
}

pub(crate) proof fn emitted_normal_width_adds<R: ConstantResolver, const P: usize, const N: usize>(
    ground: Emission,
    f: Frame<R, P, N>,
    s: Emission,
    width: RuntimeWidth,
)
    ensures
        goes_on(ground, s, emitted_normal_width(f, s, width), -1),
{
    reveal(emitted_normal_width);
    if width.bits == 8 && !width.signed {
        put_adds(ground, f, s, [0x0fu8, 0xb6, 0xc0]@);
    } else {
        if width.bits == 16 && !width.signed {
            put_adds(ground, f, s, [0x0fu8, 0xb7, 0xc0]@);
        } else {
            if width.bits == 32 && !width.signed {
                put_adds(ground, f, s, [0x89u8, 0xc0]@);
            } else {
                if width.bits == 8 {
                    put_adds(ground, f, s, [0x48u8, 0x0f, 0xbe, 0xc0]@);
                } else {
                    if width.bits == 16 {
                        put_adds(ground, f, s, [0x48u8, 0x0f, 0xbf, 0xc0]@);
                    } else {
                        if width.bits == 32 {
                            put_adds(ground, f, s, [0x48u8, 0x63, 0xc0]@);
                        }
                    }
                }
            }
        }
    }
}

pub(crate) proof fn emitted_normal_adds<R: ConstantResolver, const P: usize, const N: usize>(
    ground: Emission,
    f: Frame<R, P, N>,
    s: Emission,
)
    ensures
        goes_on(ground, s, emitted_normal(f, s), -1),
{
    reveal(emitted_normal);
    let width = s.width;
    emitted_normal_width_adds(ground, f, s, width);
}

pub(crate) proof fn emitted_range_check_adds<R: ConstantResolver, const P: usize, const N: usize>(
    ground: Emission,
    f: Frame<R, P, N>,
    s: Emission,
)
    ensures
        goes_on(ground, s, emitted_range_check(f, s), -1),
{
    reveal(emitted_range_check);
    let width = s.width;
    if width.bits != 64 {
        put_adds(ground, f, s, [0x48u8, 0xba]@);
        let s = put(f, s, [0x48u8, 0xba]@);
        put_adds(ground, f, s, quad_bytes(width.maximum as int));
        let s = put(f, s, quad_bytes(width.maximum as int));
        put_adds(ground, f, s, [0x48u8, 0x39, 0xd0]@);
        let s = put(f, s, [0x48u8, 0x39, 0xd0]@);
        if width.signed {
            trapped_adds(ground, f, s, 0x8f);
            let s = trapped(f, s, 0x8f);
            put_adds(ground, f, s, [0x48u8, 0xba]@);
            let s = put(f, s, [0x48u8, 0xba]@);
            put_adds(ground, f, s, quad_bytes(width.minimum as int));
            let s = put(f, s, quad_bytes(width.minimum as int));
            put_adds(ground, f, s, [0x48u8, 0x39, 0xd0]@);
            let s = put(f, s, [0x48u8, 0x39, 0xd0]@);
            trapped_adds(ground, f, s, 0x8c);
        } else {
            trapped_adds(ground, f, s, 0x87);
        }
    }
}

pub(crate) proof fn emitted_division_adds<R: ConstantResolver, const P: usize, const N: usize>(
    ground: Emission,
    f: Frame<R, P, N>,
    s: Emission,
    remainder: bool,
)
    ensures
        goes_on(ground, s, emitted_division(f, s, remainder), -1),
{
    reveal(emitted_division);
    let width = s.width;
    put_adds(ground, f, s, [0x48u8, 0x87, 0xc1, 0x48, 0x85, 0xc9]@);
    let s = put(f, s, [0x48u8, 0x87, 0xc1, 0x48, 0x85, 0xc9]@);
    trapped_adds(ground, f, s, 0x84);
    let s = trapped(f, s, 0x84);
    if width.signed {
        put_adds(ground, f, s, [0x48u8, 0x83, 0xf9, 0xff, 0x75, 19]@);
        let s = put(f, s, [0x48u8, 0x83, 0xf9, 0xff, 0x75, 19]@);
        put_adds(ground, f, s, [0x48u8, 0xba]@);
        let s = put(f, s, [0x48u8, 0xba]@);
        put_adds(ground, f, s, quad_bytes(width.minimum as int));
        let s = put(f, s, quad_bytes(width.minimum as int));
        put_adds(ground, f, s, [0x48u8, 0x39, 0xd0]@);
        let s = put(f, s, [0x48u8, 0x39, 0xd0]@);
        trapped_adds(ground, f, s, 0x84);
        let s = trapped(f, s, 0x84);
        put_adds(ground, f, s, [0x48u8, 0x99, 0x48, 0xf7, 0xf9]@);
    } else {
        put_adds(ground, f, s, [0x48u8, 0x31, 0xd2, 0x48, 0xf7, 0xf1]@);
    }
    let s = if width.signed {
        let s = put(f, s, [0x48u8, 0x83, 0xf9, 0xff, 0x75, 19]@);
        let s = put(f, s, [0x48u8, 0xba]@);
        let s = put(f, s, quad_bytes(width.minimum as int));
        let s = put(f, s, [0x48u8, 0x39, 0xd0]@);
        let s = trapped(f, s, 0x84);
        put(f, s, [0x48u8, 0x99, 0x48, 0xf7, 0xf9]@)
    } else {
        put(f, s, [0x48u8, 0x31, 0xd2, 0x48, 0xf7, 0xf1]@)
    };
    if remainder {
        put_adds(ground, f, s, [0x48u8, 0x89, 0xd0]@);
    }
    let s = if remainder {
        put(f, s, [0x48u8, 0x89, 0xd0]@)
    } else {
        s
    };
    emitted_normal_adds(ground, f, s);
}

pub(crate) proof fn emitted_multiplication_adds<R: ConstantResolver, const P: usize, const N: usize>(
    ground: Emission,
    f: Frame<R, P, N>,
    s: Emission,
)
    ensures
        goes_on(ground, s, emitted_multiplication(f, s), -1),
{
    reveal(emitted_multiplication);
    let width = s.width;
    put_adds(ground, f, s, [0x48u8, 0x87, 0xc1]@);
    let s = put(f, s, [0x48u8, 0x87, 0xc1]@);
    if width.signed {
        put_adds(ground, f, s, [0x48u8, 0x0f, 0xaf, 0xc1]@);
    } else {
        put_adds(ground, f, s, [0x48u8, 0xf7, 0xe1, 0x48, 0x85, 0xd2]@);
    }
    let s = if width.signed {
        put(f, s, [0x48u8, 0x0f, 0xaf, 0xc1]@)
    } else {
        put(f, s, [0x48u8, 0xf7, 0xe1, 0x48, 0x85, 0xd2]@)
    };
    if s.overflow_checks && width.bits == 64 {
        if width.signed {
            trapped_adds(ground, f, s, 0x80);
        } else {
            trapped_adds(ground, f, s, 0x85);
        }
    } else {
        if s.overflow_checks {
            emitted_range_check_adds(ground, f, s);
        } else {
            emitted_normal_adds(ground, f, s);
        }
    }
}

pub(crate) proof fn emitted_carry_check_adds<R: ConstantResolver, const P: usize, const N: usize>(
    ground: Emission,
    f: Frame<R, P, N>,
    s: Emission,
)
    ensures
        goes_on(ground, s, emitted_carry_check(f, s), -1),
{
    reveal(emitted_carry_check);
    let width = s.width;
    if width.signed {
        trapped_adds(ground, f, s, 0x80);
    } else {
        trapped_adds(ground, f, s, 0x82);
    }
}

pub(crate) proof fn emitted_sum_adds<R: ConstantResolver, const P: usize, const N: usize>(
    ground: Emission,
    f: Frame<R, P, N>,
    s: Emission,
)
    ensures
        goes_on(ground, s, emitted_sum(f, s), -1),
{
    reveal(emitted_sum);
    let width = s.width;
    put_adds(ground, f, s, [0x48u8, 0x01, 0xc8]@);
    let s = put(f, s, [0x48u8, 0x01, 0xc8]@);
    if s.overflow_checks && width.bits == 64 {
        emitted_carry_check_adds(ground, f, s);
    } else {
        if s.overflow_checks {
            emitted_range_check_adds(ground, f, s);
        } else {
            emitted_normal_adds(ground, f, s);
        }
    }
}

pub(crate) proof fn emitted_difference_adds<R: ConstantResolver, const P: usize, const N: usize>(
    ground: Emission,
    f: Frame<R, P, N>,
    s: Emission,
)
    ensures
        goes_on(ground, s, emitted_difference(f, s), -1),
{
    reveal(emitted_difference);
    let width = s.width;
    put_adds(ground, f, s, [0x48u8, 0x29, 0xc1]@);
    let s = put(f, s, [0x48u8, 0x29, 0xc1]@);
    if s.overflow_checks && width.bits == 64 {
        emitted_carry_check_adds(ground, f, s);
    }
    let s = if s.overflow_checks && width.bits == 64 {
        emitted_carry_check(f, s)
    } else {
        s
    };
    put_adds(ground, f, s, [0x48u8, 0x89, 0xc8]@);
    let s = put(f, s, [0x48u8, 0x89, 0xc8]@);
    if s.overflow_checks && width.bits < 64 {
        emitted_range_check_adds(ground, f, s);
    } else {
        emitted_normal_adds(ground, f, s);
    }
}

pub(crate) proof fn emitted_shift_adds<R: ConstantResolver, const P: usize, const N: usize>(
    ground: Emission,
    f: Frame<R, P, N>,
    s: Emission,
    left: bool,
)
    ensures
        goes_on(ground, s, emitted_shift(f, s, left), -1),
{
    reveal(emitted_shift);
    let width = s.width;
    put_adds(ground, f, s, [0x48u8, 0x87, 0xc1]@);
    let s = put(f, s, [0x48u8, 0x87, 0xc1]@);
    if s.overflow_checks {
        put_adds(ground, f, s, [0x48u8, 0x83, 0xf9, width.bits]@);
        let s = put(f, s, [0x48u8, 0x83, 0xf9, width.bits]@);
        trapped_adds(ground, f, s, 0x83);
    } else {
        put_adds(ground, f, s, [0x83u8, 0xe1, mask_of_shift(width.bits)]@);
    }
    let s = if s.overflow_checks {
        let s = put(f, s, [0x48u8, 0x83, 0xf9, width.bits]@);
        trapped(f, s, 0x83)
    } else {
        put(f, s, [0x83u8, 0xe1, mask_of_shift(width.bits)]@)
    };
    if left {
        put_adds(ground, f, s, [0x48u8, 0xd3, 0xe0]@);
    } else {
        if width.signed {
            put_adds(ground, f, s, [0x48u8, 0xd3, 0xf8]@);
        } else {
            put_adds(ground, f, s, [0x48u8, 0xd3, 0xe8]@);
        }
    }
    let s = if left {
        put(f, s, [0x48u8, 0xd3, 0xe0]@)
    } else if width.signed {
        put(f, s, [0x48u8, 0xd3, 0xf8]@)
    } else {
        put(f, s, [0x48u8, 0xd3, 0xe8]@)
    };
    emitted_normal_adds(ground, f, s);
}

pub(crate) proof fn emitted_negated_adds<R: ConstantResolver, const P: usize, const N: usize>(
    ground: Emission,
    f: Frame<R, P, N>,
    s: Emission,
    width: RuntimeWidth,
)
    ensures
        goes_on(ground, s, emitted_negated(f, s, width), -1),
{
    reveal(emitted_negated);
    put_adds(ground, f, s, [0x48u8, 0xf7, 0xd8]@);
    let s = put(f, s, [0x48u8, 0xf7, 0xd8]@);
    if s.overflow_checks && width.bits == 64 {
        trapped_adds(ground, f, s, 0x80);
    } else {
        if s.overflow_checks {
            emitted_range_check_adds(ground, f, s);
        }
    }
    let s = if s.overflow_checks && width.bits == 64 {
        trapped(f, s, 0x80)
    } else if s.overflow_checks {
        emitted_range_check(f, s)
    } else {
        s
    };
    emitted_normal_adds(ground, f, s);
}

pub(crate) proof fn emitted_binary_adds<R: ConstantResolver, const P: usize, const N: usize>(
    ground: Emission,
    f: Frame<R, P, N>,
    s: Emission,
    operator: BinaryOperator,
)
    ensures
        goes_on(ground, s, emitted_binary(f, s, operator), -1),
{
    reveal(emitted_binary);
    let width = s.width;
    match operator {
        BinaryOperator::Add => {
            emitted_sum_adds(ground, f, s);
        },
        BinaryOperator::Subtract => {
            emitted_difference_adds(ground, f, s);
        },
        BinaryOperator::Multiply => {
            emitted_multiplication_adds(ground, f, s);
        },
        BinaryOperator::Divide => {
            emitted_division_adds(ground, f, s, false);
        },
        BinaryOperator::Remainder => {
            emitted_division_adds(ground, f, s, true);
        },
        BinaryOperator::BitAnd => {
            put_adds(ground, f, s, [0x48u8, 0x21, 0xc8]@);
        },
        BinaryOperator::BitOr => {
            put_adds(ground, f, s, [0x48u8, 0x09, 0xc8]@);
        },
        BinaryOperator::BitXor => {
            put_adds(ground, f, s, [0x48u8, 0x31, 0xc8]@);
        },
        BinaryOperator::ShiftLeft => {
            emitted_shift_adds(ground, f, s, true);
        },
        BinaryOperator::ShiftRight => {
            emitted_shift_adds(ground, f, s, false);
        },
        BinaryOperator::LogicalAnd | BinaryOperator::LogicalOr => {},
        comparison => {
            put_adds(
                ground,
                f,
                s,
                [0x48u8, 0x39, 0xc1, 0x0f, code_of_condition(comparison, width.signed), 0xc0, 0x0f, 0xb6, 0xc0]@,
            );
        },
    }
}

pub(crate) proof fn emitted_reference_load_adds<R: ConstantResolver, const P: usize, const N: usize>(
    ground: Emission,
    f: Frame<R, P, N>,
    s: Emission,
    pointee: RuntimeArrayElementType,
)
    ensures
        goes_on(ground, s, emitted_reference_load(f, s, pointee), -1),
{
    reveal(emitted_reference_load);
    match pointee {
        RuntimeArrayElementType::Bool => {
            put_adds(ground, f, s, [0x0fu8, 0xb6, 0x00]@);
        },
        RuntimeArrayElementType::Char => {
            put_adds(ground, f, s, [0x8bu8, 0x00]@);
        },
        RuntimeArrayElementType::Integer(Some(ty)) => {
            match width_of_integer(ty) {
                None => {},
                Some(width) => {
                    if width.bits == 8 && !width.signed {
                        put_adds(ground, f, s, [0x0fu8, 0xb6, 0x00]@);
                    } else {
                        if width.bits == 8 {
                            put_adds(ground, f, s, [0x48u8, 0x0f, 0xbe, 0x00]@);
                        } else {
                            if width.bits == 16 && !width.signed {
                                put_adds(ground, f, s, [0x0fu8, 0xb7, 0x00]@);
                            } else {
                                if width.bits == 16 {
                                    put_adds(ground, f, s, [0x48u8, 0x0f, 0xbf, 0x00]@);
                                } else {
                                    if width.bits == 32 && !width.signed {
                                        put_adds(ground, f, s, [0x8bu8, 0x00]@);
                                    } else {
                                        if width.bits == 32 {
                                            put_adds(ground, f, s, [0x48u8, 0x63, 0x00]@);
                                        } else {
                                            put_adds(ground, f, s, [0x48u8, 0x8b, 0x00]@);
                                        }
                                    }
                                }
                            }
                        }
                    }
                },
            }
        },
        _ => {},
    }
}

pub(crate) proof fn emitted_reference_store_adds<R: ConstantResolver, const P: usize, const N: usize>(
    ground: Emission,
    f: Frame<R, P, N>,
    s: Emission,
    pointee: RuntimeArrayElementType,
)
    ensures
        goes_on(ground, s, emitted_reference_store(f, s, pointee), -1),
{
    reveal(emitted_reference_store);
    match pointee {
        RuntimeArrayElementType::Bool => {
            put_adds(ground, f, s, [0x88u8, 0x02]@);
        },
        RuntimeArrayElementType::Char => {
            put_adds(ground, f, s, [0x89u8, 0x02]@);
        },
        RuntimeArrayElementType::Integer(Some(ty)) => {
            match width_of_integer(ty) {
                None => {},
                Some(width) => {
                    if width.bits == 8 {
                        put_adds(ground, f, s, [0x88u8, 0x02]@);
                    } else {
                        if width.bits == 16 {
                            put_adds(ground, f, s, [0x66u8, 0x89, 0x02]@);
                        } else {
                            if width.bits == 32 {
                                put_adds(ground, f, s, [0x89u8, 0x02]@);
                            } else {
                                put_adds(ground, f, s, [0x48u8, 0x89, 0x02]@);
                            }
                        }
                    }
                },
            }
        },
        _ => {},
    }
}

pub(crate) proof fn emitted_normal_element_adds<R: ConstantResolver, const P: usize, const N: usize>(
    ground: Emission,
    f: Frame<R, P, N>,
    s: Emission,
    element: RuntimeArrayElementType,
)
    ensures
        goes_on(ground, s, emitted_normal_element(f, s, element), -1),
{
    reveal(emitted_normal_element);
    match element {
        RuntimeArrayElementType::Bool => {
            put_adds(ground, f, s, [0x0fu8, 0xb6, 0xc0]@);
        },
        RuntimeArrayElementType::Integer(_) => {
            emitted_normal_adds(ground, f, s);
        },
        RuntimeArrayElementType::Char => {
            emitted_normal_width_adds(ground, f, s, width_of_char());
        },
        _ => {},
    }
}

pub(crate) proof fn emitted_element_address_adds<R: ConstantResolver, const P: usize, const N: usize>(
    ground: Emission,
    f: Frame<R, P, N>,
    s: Emission,
    element_bytes: usize,
)
    ensures
        goes_on(ground, s, emitted_element_address(f, s, element_bytes), -1),
{
    reveal(emitted_element_address);
    if element_bytes == 1 {
        put_adds(ground, f, s, [0x48u8, 0x01, 0xc8]@);
    } else {
        if element_bytes == 2 {
            put_adds(ground, f, s, [0x48u8, 0x8d, 0x04, 0x48]@);
        } else {
            if element_bytes == 4 {
                put_adds(ground, f, s, [0x48u8, 0x8d, 0x04, 0x88]@);
            } else {
                if element_bytes == 8 {
                    put_adds(ground, f, s, [0x48u8, 0x8d, 0x04, 0xc8]@);
                }
            }
        }
    }
}

pub(crate) proof fn emitted_element_store_address_adds<R: ConstantResolver, const P: usize, const N: usize>(
    ground: Emission,
    f: Frame<R, P, N>,
    s: Emission,
    element_bytes: usize,
)
    ensures
        goes_on(ground, s, emitted_element_store_address(f, s, element_bytes), -1),
{
    reveal(emitted_element_store_address);
    if element_bytes == 1 {
        put_adds(ground, f, s, [0x48u8, 0x01, 0xca]@);
    } else {
        if element_bytes == 2 {
            put_adds(ground, f, s, [0x48u8, 0x8d, 0x14, 0x4a]@);
        } else {
            if element_bytes == 4 {
                put_adds(ground, f, s, [0x48u8, 0x8d, 0x14, 0x8a]@);
            } else {
                if element_bytes == 8 {
                    put_adds(ground, f, s, [0x48u8, 0x8d, 0x14, 0xca]@);
                }
            }
        }
    }
}

pub(crate) proof fn emitted_indexed_address_adds<R: ConstantResolver, const P: usize, const N: usize>(
    ground: Emission,
    f: Frame<R, P, N>,
    s: Emission,
    element_bytes: usize,
)
    ensures
        goes_on(ground, s, emitted_indexed_address(f, s, element_bytes), -1),
{
    reveal(emitted_indexed_address);
    put_adds(ground, f, s, [0x48u8, 0x8b, 0x4c, 0x24, 8]@);
    let s = put(f, s, [0x48u8, 0x8b, 0x4c, 0x24, 8]@);
    if element_bytes != 0 {
        emitted_element_address_adds(ground, f, s, element_bytes);
    }
}

pub(crate) proof fn emitted_indexed_store_address_adds<R: ConstantResolver, const P: usize, const N: usize>(
    ground: Emission,
    f: Frame<R, P, N>,
    s: Emission,
    element_bytes: usize,
)
    ensures
        goes_on(ground, s, emitted_indexed_store_address(f, s, element_bytes), -1),
{
    reveal(emitted_indexed_store_address);
    put_adds(ground, f, s, [0x48u8, 0x8b, 0x4c, 0x24, 8]@);
    let s = put(f, s, [0x48u8, 0x8b, 0x4c, 0x24, 8]@);
    emitted_element_store_address_adds(ground, f, s, element_bytes);
}

pub(crate) proof fn emitted_slot_of_adds<R: ConstantResolver, const P: usize, const N: usize>(
    ground: Emission,
    f: Frame<R, P, N>,
    s: Emission,
    opcode: u8,
    later: Option<usize>,
    more: usize,
    kind: CodegenErrorKind,
)
    ensures
        goes_on(ground, s, emitted_slot_of(f, s, opcode, later, more, kind), -1),
{
    reveal(emitted_slot_of);
    match later {
        None => {},
        Some(later) => {
            match sum_of_three(later, more, s.temporaries) {
                None => {},
                Some(slots) => {
                    emitted_stack_access_adds(ground, f, s, opcode, slots);
                },
            }
        },
    }
}

pub(crate) proof fn emitted_parameter_slot_adds<R: ConstantResolver, const P: usize, const N: usize>(
    ground: Emission,
    f: Frame<R, P, N>,
    s: Emission,
    opcode: u8,
    index: usize,
    more: usize,
    kind: CodegenErrorKind,
)
    ensures
        goes_on(ground, s, emitted_parameter_slot(f, s, opcode, index, more, kind), -1),
{
    reveal(emitted_parameter_slot);
    match slots_from(s.locals, 0) {
        None => {},
        Some(locals) => {
            match parameter_slots_from(f.function.parameters@, index) {
                None => {},
                Some(parameters) => {
                    match sum_of(locals, parameters) {
                        None => {},
                        Some(later) => {
                            emitted_slot_of_adds(ground, f, s, opcode, Some(later), more, kind);
                        },
                    }
                },
            }
        },
    }
}

pub(crate) proof fn emitted_constant_name_adds<R: ConstantResolver, const P: usize, const N: usize>(
    ground: Emission,
    f: Frame<R, P, N>,
    s: Emission,
    name: Seq<char>,
)
    ensures
        goes_on(ground, s, emitted_constant_name(f, s, name), -1),
{
    reveal(emitted_constant_name);
    let width = s.width;
    match named_register(f.resolver.value_of(name), f.resolver.type_of(name), width) {
        Err(kind) => {},
        Ok(value) => {
            emitted_constant_adds(ground, f, s, value);
        },
    }
}

pub(crate) proof fn emitted_local_name_adds<R: ConstantResolver, const P: usize, const N: usize>(
    ground: Emission,
    f: Frame<R, P, N>,
    s: Emission,
    index: usize,
    ty: RuntimeExpressionType,
)
    ensures
        goes_on(ground, s, emitted_local_name(f, s, index, ty), -1),
{
    reveal(emitted_local_name);
    match ty {
        RuntimeExpressionType::Array { .. } => {},
        RuntimeExpressionType::Bool => {
            emitted_slot_of_adds(
                ground,
                f,
                s,
                0x8b,
                slots_from(s.locals, place_from(index, 1)),
                0,
                CodegenErrorKind::OutputTooSmall,
            );
            let s = emitted_slot_of(
                f,
                s,
                0x8b,
                slots_from(s.locals, place_from(index, 1)),
                0,
                CodegenErrorKind::OutputTooSmall,
            );
            put_adds(ground, f, s, [0x0fu8, 0xb6, 0xc0]@);
        },
        RuntimeExpressionType::RawPointer { .. } => {
            emitted_slot_of_adds(
                ground,
                f,
                s,
                0x8b,
                slots_from(s.locals, place_from(index, 1)),
                0,
                CodegenErrorKind::OutputTooSmall,
            );
        },
        RuntimeExpressionType::Reference { .. } => {
            emitted_slot_of_adds(
                ground,
                f,
                s,
                0x8b,
                slots_from(s.locals, place_from(index, 1)),
                slots_of_length(ty),
                CodegenErrorKind::OutputTooSmall,
            );
        },
        _ => {
            emitted_slot_of_adds(
                ground,
                f,
                s,
                0x8b,
                slots_from(s.locals, place_from(index, 1)),
                0,
                CodegenErrorKind::OutputTooSmall,
            );
            let s = emitted_slot_of(
                f,
                s,
                0x8b,
                slots_from(s.locals, place_from(index, 1)),
                0,
                CodegenErrorKind::OutputTooSmall,
            );
            emitted_normal_adds(ground, f, s);
        },
    }
}

pub(crate) proof fn emitted_parameter_name_adds<R: ConstantResolver, const P: usize, const N: usize>(
    ground: Emission,
    f: Frame<R, P, N>,
    s: Emission,
    index: usize,
    text: Seq<char>,
)
    ensures
        goes_on(ground, s, emitted_parameter_name(f, s, index, text), -1),
{
    reveal(emitted_parameter_name);
    match reference_type(text) {
        Some(ty) => {
            emitted_parameter_slot_adds(
                ground,
                f,
                s,
                0x8b,
                place_from(index, 1),
                slots_of_length(ty),
                CodegenErrorKind::OutputTooSmall,
            );
        },
        None => {
            emitted_parameter_slot_adds(
                ground,
                f,
                s,
                0x8b,
                place_from(index, 1),
                0,
                CodegenErrorKind::OutputTooSmall,
            );
            let s = emitted_parameter_slot(
                f,
                s,
                0x8b,
                place_from(index, 1),
                0,
                CodegenErrorKind::OutputTooSmall,
            );
            if text == "bool"@ {
                put_adds(ground, f, s, [0x0fu8, 0xb6, 0xc0]@);
            } else {
                if pointer_text(text) {
                } else {
                    emitted_normal_adds(ground, f, s);
                }
            }
        },
    }
}

pub(crate) proof fn emitted_identifier_adds<R: ConstantResolver, const P: usize, const N: usize>(
    ground: Emission,
    f: Frame<R, P, N>,
    s: Emission,
    name: Seq<char>,
)
    ensures
        goes_on(ground, s, emitted_identifier(f, s, name), -1),
{
    reveal(emitted_identifier);
    match local_named(s.locals, name) {
        Some(index) => {
            emitted_local_name_adds(ground, f, s, index, s.locals[index as int].ty);
        },
        None => {
            match parameter_named(f.function.parameters@, name) {
                Some(index) => {
                    emitted_parameter_name_adds(
                        ground,
                        f,
                        s,
                        index,
                        f.function.parameters@[index as int].ty.text@,
                    );
                },
                None => {
                    emitted_constant_name_adds(ground, f, s, name);
                },
            }
        },
    }
}

pub(crate) proof fn emitted_identifier_address_adds<R: ConstantResolver, const P: usize, const N: usize>(
    ground: Emission,
    f: Frame<R, P, N>,
    s: Emission,
    name: Seq<char>,
)
    ensures
        goes_on(ground, s, emitted_identifier_address(f, s, name), -1),
{
    reveal(emitted_identifier_address);
    match local_named(s.locals, name) {
        Some(index) => {
            emitted_slot_of_adds(
                ground,
                f,
                s,
                0x8d,
                slots_from(s.locals, place_from(index, 1)),
                0,
                CodegenErrorKind::UnknownRuntimeName,
            );
        },
        None => {
            match parameter_named(f.function.parameters@, name) {
                Some(index) => {
                    emitted_parameter_slot_adds(
                        ground,
                        f,
                        s,
                        0x8d,
                        place_from(index, 1),
                        0,
                        CodegenErrorKind::UnknownRuntimeName,
                    );
                },
                None => {},
            }
        },
    }
}

pub(crate) proof fn emitted_slice_length_adds<R: ConstantResolver, const P: usize, const N: usize>(
    ground: Emission,
    f: Frame<R, P, N>,
    s: Emission,
    name: Seq<char>,
)
    ensures
        goes_on(ground, s, emitted_slice_length(f, s, name), -1),
{
    reveal(emitted_slice_length);
    match fat_local_named(s.locals, name) {
        Some(index) => {
            emitted_slot_of_adds(
                ground,
                f,
                s,
                0x8b,
                slots_from(s.locals, place_from(index, 1)),
                0,
                CodegenErrorKind::UnknownRuntimeName,
            );
        },
        None => {
            match fat_parameter_named(f.function.parameters@, name) {
                Some(index) => {
                    emitted_parameter_slot_adds(
                        ground,
                        f,
                        s,
                        0x8b,
                        place_from(index, 1),
                        0,
                        CodegenErrorKind::UnknownRuntimeName,
                    );
                },
                None => {},
            }
        },
    }
}

pub(crate) proof fn emitted_string_boundary_adds<R: ConstantResolver, const P: usize, const N: usize>(
    ground: Emission,
    f: Frame<R, P, N>,
    s: Emission,
)
    ensures
        goes_on(ground, s, emitted_string_boundary(f, s), -1),
{
    reveal(branch_place);
    reveal(place);
    reveal(emitted_string_boundary);
    put_adds(ground, f, s, [0x48u8, 0x85, 0xc9]@);
    let s = put(f, s, [0x48u8, 0x85, 0xc9]@);
    let at_start = branch_place(s, 2);
    put_adds(ground, f, s, [0x0fu8, 0x84, 0, 0, 0, 0]@);
    let s = put(f, s, [0x0fu8, 0x84, 0, 0, 0, 0]@);
    put_adds(ground, f, s, [0x48u8, 0x39, 0xd1]@);
    let s = put(f, s, [0x48u8, 0x39, 0xd1]@);
    let at_end = branch_place(s, 2);
    put_adds(ground, f, s, [0x0fu8, 0x84, 0, 0, 0, 0]@);
    let s = put(f, s, [0x0fu8, 0x84, 0, 0, 0, 0]@);
    put_adds(ground, f, s, [0x44u8, 0x0f, 0xb6, 0x04, 0x08]@);
    let s = put(f, s, [0x44u8, 0x0f, 0xb6, 0x04, 0x08]@);
    put_adds(ground, f, s, [0x41u8, 0x80, 0xe0, 0xc0, 0x41, 0x80, 0xf8, 0x80]@);
    let s = put(f, s, [0x41u8, 0x80, 0xe0, 0xc0, 0x41, 0x80, 0xf8, 0x80]@);
    trapped_adds(ground, f, s, 0x84);
    let s = trapped(f, s, 0x84);
    landed_adds(ground, f, s, at_start);
    let s = landed(f, s, at_start);
    landed_adds(ground, f, s, at_end);
}

pub(crate) proof fn emitted_string_range_boundaries_adds<R: ConstantResolver, const P: usize, const N: usize>(
    ground: Emission,
    f: Frame<R, P, N>,
    s: Emission,
    source: Seq<char>,
)
    ensures
        goes_on(ground, s, emitted_string_range_boundaries(f, s, source), -1),
{
    reveal(emitted_string_range_boundaries);
    put_adds(ground, f, s, [0x49u8, 0x89, 0xc0]@);
    let s = put(f, s, [0x49u8, 0x89, 0xc0]@);
    emitted_slice_length_adds(ground, f, s, source);
    let s = emitted_slice_length(f, s, source);
    put_adds(ground, f, s, [0x48u8, 0x89, 0xc2, 0x4c, 0x89, 0xc0]@);
    let s = put(f, s, [0x48u8, 0x89, 0xc2, 0x4c, 0x89, 0xc0]@);
    put_adds(ground, f, s, [0x48u8, 0x8b, 0x4c, 0x24, 0x08]@);
    let s = put(f, s, [0x48u8, 0x8b, 0x4c, 0x24, 0x08]@);
    emitted_string_boundary_adds(ground, f, s);
    let s = emitted_string_boundary(f, s);
    put_adds(ground, f, s, [0x48u8, 0x8b, 0x4c, 0x24, 0x08, 0x48, 0x03, 0x0c, 0x24]@);
    let s = put(f, s, [0x48u8, 0x8b, 0x4c, 0x24, 0x08, 0x48, 0x03, 0x0c, 0x24]@);
    emitted_string_boundary_adds(ground, f, s);
}

pub(crate) proof fn emitted_packed_adds<R: ConstantResolver, const P: usize, const N: usize>(
    ground: Emission,
    f: Frame<R, P, N>,
    s: Emission,
    count: usize,
    element_bytes: usize,
    word: usize,
    index: usize,
)
    ensures
        goes_on(ground, s, emitted_packed(f, s, count, element_bytes, word, index), -1),
    decreases count - index,
{
    reveal(emitted_packed);
    if index < count {
        if stands_in_word(index, element_bytes, word) {
            emitted_stack_slot_adds(ground, f, s, index);
            let s = emitted_stack_slot(f, s, index);
            if element_bytes == 1 {
                put_adds(ground, f, s, [0x0fu8, 0xb6, 0xc0]@);
            } else {
                if element_bytes == 2 {
                    put_adds(ground, f, s, [0x0fu8, 0xb7, 0xc0]@);
                } else {
                    if element_bytes == 4 {
                        put_adds(ground, f, s, [0x89u8, 0xc0]@);
                    }
                }
            }
            let s = if element_bytes == 1 {
                put(f, s, [0x0fu8, 0xb6, 0xc0]@)
            } else if element_bytes == 2 {
                put(f, s, [0x0fu8, 0xb7, 0xc0]@)
            } else if element_bytes == 4 {
                put(f, s, [0x89u8, 0xc0]@)
            } else if element_bytes != 8 {
                failed(f, s, CodegenErrorKind::UnsupportedReturnType)
            } else {
                s
            };
            if shift_in_word(index, element_bytes) != 0 {
                put_adds(ground, f, s, [0x48u8, 0xc1, 0xe0, shift_in_word(index, element_bytes)]@);
            }
            let s = if shift_in_word(index, element_bytes) != 0 {
                put(f, s, [0x48u8, 0xc1, 0xe0, shift_in_word(index, element_bytes)]@)
            } else {
                s
            };
            put_adds(ground, f, s, [0x48u8, 0x09, 0xc2]@);
        }
        let s = if stands_in_word(index, element_bytes, word) {
            let s = emitted_stack_slot(f, s, index);
            let s = if element_bytes == 1 {
                put(f, s, [0x0fu8, 0xb6, 0xc0]@)
            } else if element_bytes == 2 {
                put(f, s, [0x0fu8, 0xb7, 0xc0]@)
            } else if element_bytes == 4 {
                put(f, s, [0x89u8, 0xc0]@)
            } else if element_bytes != 8 {
                failed(f, s, CodegenErrorKind::UnsupportedReturnType)
            } else {
                s
            };
            let s = if shift_in_word(index, element_bytes) != 0 {
                put(f, s, [0x48u8, 0xc1, 0xe0, shift_in_word(index, element_bytes)]@)
            } else {
                s
            };
            put(f, s, [0x48u8, 0x09, 0xc2]@)
        } else {
            s
        };
        emitted_packed_adds(ground, f, s, count, element_bytes, word, (index + 1) as usize);
    }
}

pub(crate) proof fn emitted_packed_word_adds<R: ConstantResolver, const P: usize, const N: usize>(
    ground: Emission,
    f: Frame<R, P, N>,
    s: Emission,
    count: usize,
    element_bytes: usize,
    word: usize,
)
    ensures
        goes_on(ground, s, emitted_packed_word(f, s, count, element_bytes, word), -1),
{
    reveal(emitted_packed_word);
    put_adds(ground, f, s, [0x31u8, 0xd2]@);
    let s = put(f, s, [0x31u8, 0xd2]@);
    emitted_packed_adds(ground, f, s, count, element_bytes, word, 0);
    let s = emitted_packed(f, s, count, element_bytes, word, 0);
    put_adds(ground, f, s, [0x48u8, 0x89, 0xd0]@);
}

pub(crate) proof fn emitted_packed_words_adds<R: ConstantResolver, const P: usize, const N: usize>(
    ground: Emission,
    f: Frame<R, P, N>,
    s: Emission,
    count: usize,
    element_bytes: usize,
    local_slots: usize,
    words: usize,
)
    ensures
        goes_on(ground, s, emitted_packed_words(f, s, count, element_bytes, local_slots, words), -1),
    decreases words,
{
    reveal(emitted_packed_words);
    if words > 0 {
        emitted_packed_word_adds(ground, f, s, count, element_bytes, (words - 1) as usize);
        let s = emitted_packed_word(f, s, count, element_bytes, (words - 1) as usize);
        match place_of_packed(count, local_slots, (words - 1) as usize) {
            None => {},
            Some(destination) => {
                emitted_store_stack_slot_adds(ground, f, s, destination);
            },
        }
        let s = match place_of_packed(count, local_slots, (words - 1) as usize) {
            None => {
                failed(f, s, CodegenErrorKind::OutputTooSmall)
            },
            Some(destination) => {
                emitted_store_stack_slot(f, s, destination)
            },
        };
        emitted_packed_words_adds(
            ground,
            f,
            s,
            count,
            element_bytes,
            local_slots,
            (words - 1) as usize,
        );
    }
}

pub(crate) proof fn emitted_packed_array_adds<R: ConstantResolver, const P: usize, const N: usize>(
    ground: Emission,
    f: Frame<R, P, N>,
    s: Emission,
    element: RuntimeArrayElementType,
    count: usize,
)
    ensures
        goes_on(ground, s, emitted_packed_array(f, s, element, count), -1),
{
    reveal(emitted_packed_array);
    match packed_form(element, count) {
        None => {},
        Some((element_bytes, local_slots)) => {
            emitted_packed_words_adds(
                ground,
                f,
                s,
                count,
                element_bytes,
                local_slots,
                local_slots,
            );
            let s = emitted_packed_words(f, s, count, element_bytes, local_slots, local_slots);
            released_adds(ground, f, s, excess(count, local_slots));
            let s = released(f, s, excess(count, local_slots));
            emitted_slots_cleanup_adds(ground, f, s, excess(count, local_slots));
        },
    }
}

pub(crate) proof fn emitted_swapped_adds<R: ConstantResolver, const P: usize, const N: usize>(
    ground: Emission,
    f: Frame<R, P, N>,
    s: Emission,
    count: usize,
    half: usize,
    index: usize,
)
    ensures
        goes_on(ground, s, emitted_swapped(f, s, count, half, index), -1),
    decreases half - index,
{
    reveal(emitted_swapped);
    if index < half {
        emitted_stack_slot_adds(ground, f, s, index);
        let s = emitted_stack_slot(f, s, index);
        put_adds(ground, f, s, [0x48u8, 0x89, 0xc2]@);
        let s = put(f, s, [0x48u8, 0x89, 0xc2]@);
        emitted_stack_slot_adds(ground, f, s, mirrored(count, index));
        let s = emitted_stack_slot(f, s, mirrored(count, index));
        emitted_store_stack_slot_adds(ground, f, s, index);
        let s = emitted_store_stack_slot(f, s, index);
        put_adds(ground, f, s, [0x48u8, 0x89, 0xd0]@);
        let s = put(f, s, [0x48u8, 0x89, 0xd0]@);
        emitted_store_stack_slot_adds(ground, f, s, mirrored(count, index));
        let s = emitted_store_stack_slot(f, s, mirrored(count, index));
        emitted_swapped_adds(ground, f, s, count, half, (index + 1) as usize);
    }
}

pub(crate) proof fn emitted_copies_adds<R: ConstantResolver, const P: usize, const N: usize>(
    ground: Emission,
    f: Frame<R, P, N>,
    s: Emission,
    count: usize,
    index: usize,
)
    ensures
        goes_on(ground, s, emitted_copies(f, s, count, index), -1),
    decreases count - index,
{
    reveal(emitted_copies);
    if index < count {
        emitted_stack_slot_adds(ground, f, s, 0);
        let s = emitted_stack_slot(f, s, 0);
        put_adds(ground, f, s, [0x50u8]@);
        let s = put(f, s, [0x50u8]@);
        raised_adds(ground, f, s, 1);
        let s = raised(f, s, 1);
        emitted_copies_adds(ground, f, s, count, (index + 1) as usize);
    }
}

pub(crate) proof fn emitted_moved_slots_adds<R: ConstantResolver, const P: usize, const N: usize>(
    ground: Emission,
    f: Frame<R, P, N>,
    s: Emission,
    count: usize,
    later: usize,
    slot: usize,
)
    ensures
        goes_on(ground, s, emitted_moved_slots(f, s, count, later, slot), -1),
    decreases count - slot,
{
    reveal(emitted_moved_slots);
    if slot < count {
        emitted_stack_slot_adds(ground, f, s, slot);
        let s = emitted_stack_slot(f, s, slot);
        match sum_of_three(count, later, slot) {
            None => {},
            Some(destination) => {
                emitted_store_stack_slot_adds(ground, f, s, destination);
            },
        }
        let s = match sum_of_three(count, later, slot) {
            None => {
                failed(f, s, CodegenErrorKind::OutputTooSmall)
            },
            Some(destination) => {
                emitted_store_stack_slot(f, s, destination)
            },
        };
        emitted_moved_slots_adds(ground, f, s, count, later, (slot + 1) as usize);
    }
}

pub(crate) proof fn emitted_result_elements_adds<R: ConstantResolver, const P: usize, const N: usize>(
    ground: Emission,
    f: Frame<R, P, N>,
    s: Emission,
    count: usize,
    element_bytes: usize,
    index: usize,
)
    ensures
        goes_on(ground, s, emitted_result_elements(f, s, count, element_bytes, index), -1),
    decreases count - index,
{
    reveal(emitted_result_elements);
    if index < count {
        emitted_stack_slot_adds(ground, f, s, index);
        let s = emitted_stack_slot(f, s, index);
        match offset_of(index, element_bytes) {
            None => {},
            Some(displacement) => {
                if element_bytes == 1 {
                    put_adds(ground, f, s, [0x88u8, 0x42, displacement]@);
                } else {
                    if element_bytes == 2 {
                        put_adds(ground, f, s, [0x66u8, 0x89, 0x42, displacement]@);
                    } else {
                        if element_bytes == 4 {
                            put_adds(ground, f, s, [0x89u8, 0x42, displacement]@);
                        } else {
                            if element_bytes == 8 && displacement == 0 {
                                put_adds(ground, f, s, [0x48u8, 0x89, 0x02]@);
                            } else {
                                if element_bytes == 8 {
                                    put_adds(ground, f, s, [0x48u8, 0x89, 0x42, displacement]@);
                                }
                            }
                        }
                    }
                }
            },
        }
        let s = match offset_of(index, element_bytes) {
            None => {
                failed(f, s, CodegenErrorKind::OutputTooSmall)
            },
            Some(displacement) => {
                if element_bytes == 1 {
                    put(f, s, [0x88u8, 0x42, displacement]@)
                } else if element_bytes == 2 {
                    put(f, s, [0x66u8, 0x89, 0x42, displacement]@)
                } else if element_bytes == 4 {
                    put(f, s, [0x89u8, 0x42, displacement]@)
                } else if element_bytes == 8 && displacement == 0 {
                    put(f, s, [0x48u8, 0x89, 0x02]@)
                } else if element_bytes == 8 {
                    put(f, s, [0x48u8, 0x89, 0x42, displacement]@)
                } else {
                    failed(f, s, CodegenErrorKind::UnsupportedReturnType)
                }
            },
        };
        emitted_result_elements_adds(ground, f, s, count, element_bytes, (index + 1) as usize);
    }
}

pub(crate) proof fn emitted_candidate_adds<R: ConstantResolver, const P: usize, const N: usize>(
    ground: Emission,
    f: Frame<R, P, N>,
    s: Emission,
    index_slot: usize,
    candidate: usize,
)
    ensures
        goes_on(ground, s, emitted_candidate(f, s, index_slot, candidate).0, -1),
        emitted_candidate(f, s, index_slot, candidate).0.failure is None && added(ground, s) ==> ground.code.len() <= emitted_candidate(f, s, index_slot, candidate).1,
{
    reveal(branch_place);
    reveal(place);
    reveal(emitted_candidate);
    emitted_stack_slot_adds(ground, f, s, index_slot);
    let s = emitted_stack_slot(f, s, index_slot);
    put_adds(ground, f, s, [0x48u8, 0x83, 0xf8, candidate as u8]@);
    let s = put(f, s, [0x48u8, 0x83, 0xf8, candidate as u8]@);
    let other = branch_place(s, 2);
    put_adds(ground, f, s, [0x0fu8, 0x85, 0, 0, 0, 0]@);
    let s = put(f, s, [0x0fu8, 0x85, 0, 0, 0, 0]@);
}

pub(crate) proof fn emitted_chosen_slots_adds<R: ConstantResolver, const P: usize, const N: usize>(
    ground: Emission,
    f: Frame<R, P, N>,
    s: Emission,
    index_slot: usize,
    first: usize,
    count: usize,
    candidate: usize,
)
    ensures
        goes_on(ground, s, emitted_chosen_slots(f, s, index_slot, first, count, candidate), -1),
    decreases count - candidate,
{
    reveal(branch_place);
    reveal(place);
    reveal(emitted_chosen_slots);
    if candidate < count {
        emitted_candidate_adds(ground, f, s, index_slot, candidate);
        let (s, other) = emitted_candidate(f, s, index_slot, candidate);
        match sum_of(first, candidate) {
            None => {},
            Some(slot) => {
                emitted_stack_slot_adds(ground, f, s, slot);
            },
        }
        let s = match sum_of(first, candidate) {
            None => {
                failed(f, s, CodegenErrorKind::OutputTooSmall)
            },
            Some(slot) => {
                emitted_stack_slot(f, s, slot)
            },
        };
        let end = branch_place(s, 1);
        put_adds(ground, f, s, [0xe9u8, 0, 0, 0, 0]@);
        let s = put(f, s, [0xe9u8, 0, 0, 0, 0]@);
        landed_adds(ground, f, s, other);
        let s = landed(f, s, other);
        emitted_chosen_slots_adds(
            ground,
            f,
            s,
            index_slot,
            first,
            count,
            (candidate + 1) as usize,
        );
        let s = emitted_chosen_slots(f, s, index_slot, first, count, (candidate + 1) as usize);
        landed_adds(ground, f, s, end);
    } else {
        put_adds(ground, f, s, [0x0fu8, 0x0b]@);
    }
}

pub(crate) proof fn emitted_chosen_stores_adds<R: ConstantResolver, const P: usize, const N: usize>(
    ground: Emission,
    f: Frame<R, P, N>,
    s: Emission,
    index_slot: usize,
    first: usize,
    count: usize,
    candidate: usize,
)
    ensures
        goes_on(ground, s, emitted_chosen_stores(f, s, index_slot, first, count, candidate), -1),
    decreases count - candidate,
{
    reveal(branch_place);
    reveal(place);
    reveal(emitted_chosen_stores);
    if candidate < count {
        emitted_candidate_adds(ground, f, s, index_slot, candidate);
        let (s, other) = emitted_candidate(f, s, index_slot, candidate);
        emitted_stack_slot_adds(ground, f, s, 0);
        let s = emitted_stack_slot(f, s, 0);
        match sum_of(first, candidate) {
            None => {},
            Some(slot) => {
                emitted_store_stack_slot_adds(ground, f, s, slot);
            },
        }
        let s = match sum_of(first, candidate) {
            None => {
                failed(f, s, CodegenErrorKind::OutputTooSmall)
            },
            Some(slot) => {
                emitted_store_stack_slot(f, s, slot)
            },
        };
        let end = branch_place(s, 1);
        put_adds(ground, f, s, [0xe9u8, 0, 0, 0, 0]@);
        let s = put(f, s, [0xe9u8, 0, 0, 0, 0]@);
        landed_adds(ground, f, s, other);
        let s = landed(f, s, other);
        emitted_chosen_stores_adds(
            ground,
            f,
            s,
            index_slot,
            first,
            count,
            (candidate + 1) as usize,
        );
        let s = emitted_chosen_stores(f, s, index_slot, first, count, (candidate + 1) as usize);
        landed_adds(ground, f, s, end);
    } else {
        put_adds(ground, f, s, [0x0fu8, 0x0b]@);
    }
}

pub(crate) proof fn emitted_local_element_adds<R: ConstantResolver, const P: usize, const N: usize>(
    ground: Emission,
    f: Frame<R, P, N>,
    s: Emission,
    local_index: usize,
    element: RuntimeArrayElementType,
    count: usize,
    index_slot: usize,
)
    ensures
        goes_on(ground, s, emitted_local_element(f, s, local_index, element, count, index_slot), -1),
{
    reveal(emitted_local_element);
    match place_of_elements(slots_from(s.locals, place_from(local_index, 1)), s.temporaries) {
        None => {},
        Some(first) => {
            match element_bytes(element) {
                None => {},
                Some(bytes) => {
                    if bytes == 1 || bytes == 2 || bytes == 4 {
                        emitted_stack_slot_adds(ground, f, s, index_slot);
                        let s = emitted_stack_slot(f, s, index_slot);
                        put_adds(ground, f, s, [0x48u8, 0x89, 0xc1]@);
                        let s = put(f, s, [0x48u8, 0x89, 0xc1]@);
                        emitted_stack_slot_address_adds(ground, f, s, first);
                        let s = emitted_stack_slot_address(f, s, first);
                        emitted_element_address_adds(ground, f, s, bytes);
                        let s = emitted_element_address(f, s, bytes);
                        emitted_reference_load_adds(ground, f, s, element);
                    } else {
                        emitted_chosen_slots_adds(ground, f, s, index_slot, first, count, 0);
                    }
                },
            }
        },
    }
}

pub(crate) proof fn emitted_local_element_store_adds<R: ConstantResolver, const P: usize, const N: usize>(
    ground: Emission,
    f: Frame<R, P, N>,
    s: Emission,
    local_index: usize,
    element: RuntimeArrayElementType,
    count: usize,
    index_slot: usize,
)
    ensures
        goes_on(ground, s, emitted_local_element_store(f, s, local_index, element, count, index_slot), -1),
{
    reveal(emitted_local_element_store);
    match place_of_elements(slots_from(s.locals, place_from(local_index, 1)), s.temporaries) {
        None => {},
        Some(first) => {
            match element_bytes(element) {
                None => {},
                Some(bytes) => {
                    if bytes == 1 || bytes == 2 || bytes == 4 {
                        emitted_stack_slot_adds(ground, f, s, index_slot);
                        let s = emitted_stack_slot(f, s, index_slot);
                        put_adds(ground, f, s, [0x48u8, 0x89, 0xc1]@);
                        let s = put(f, s, [0x48u8, 0x89, 0xc1]@);
                        emitted_stack_slot_address_adds(ground, f, s, first);
                        let s = emitted_stack_slot_address(f, s, first);
                        put_adds(ground, f, s, [0x48u8, 0x89, 0xc2]@);
                        let s = put(f, s, [0x48u8, 0x89, 0xc2]@);
                        emitted_element_store_address_adds(ground, f, s, bytes);
                        let s = emitted_element_store_address(f, s, bytes);
                        emitted_stack_slot_adds(ground, f, s, 0);
                        let s = emitted_stack_slot(f, s, 0);
                        emitted_reference_store_adds(ground, f, s, element);
                    } else {
                        emitted_chosen_stores_adds(ground, f, s, index_slot, first, count, 0);
                    }
                },
            }
        },
    }
}

pub(crate) proof fn emitted_cleanup_to_adds<R: ConstantResolver, const P: usize, const N: usize>(
    ground: Emission,
    f: Frame<R, P, N>,
    s: Emission,
    checkpoint: usize,
)
    ensures
        goes_on(ground, s, emitted_cleanup_to(f, s, checkpoint), -1),
{
    reveal(emitted_cleanup_to);
    if checkpoint > number_of_locals(s.locals) {
    } else {
        match slots_from(s.locals, checkpoint) {
            None => {},
            Some(slots) => {
                emitted_slots_cleanup_adds(ground, f, s, slots);
            },
        }
    }
}

pub(crate) proof fn emitted_scoped_cleanup_adds<R: ConstantResolver, const P: usize, const N: usize>(
    ground: Emission,
    f: Frame<R, P, N>,
    s: Emission,
    checkpoint: usize,
)
    ensures
        goes_on(ground, s, emitted_scoped_cleanup(f, s, checkpoint), -1),
{
    reveal(emitted_scoped_cleanup);
    emitted_cleanup_to_adds(ground, f, s, checkpoint);
    let s = emitted_cleanup_to(f, s, checkpoint);
    truncated_adds(ground, f, s, checkpoint);
}

} // verus!
