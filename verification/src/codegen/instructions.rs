//! The code of single steps.
use crate::codegen::error::CodegenErrorKind;
use crate::codegen::frame::{
    Frame, X86_64Abi, local_named, parameter_named, place_from,
};
use crate::codegen::runtime::{
    RuntimeArrayElementType, RuntimeExpressionType, RuntimeWidth, array_layout,
    element_bytes, local_slots, product_of, sum_of, width_of_char, width_of_integer,
};
use crate::codegen::types::reference_type;
use crate::expression::ConstantResolver;
use crate::grammar::Word;
use crate::integer::BinaryOperator;
use crate::codegen::emission::{
    Emission, branch_place, failed, landed, named_register, offset_of, parameter_slots_from,
    put, quad_bytes, raised, released, shift_in_word, slots_from, stands_in_word, trapped,
    truncated, word_bytes, word_elements,
};
use crate::codegen::encoding::{
    ParameterPassing, code_of_condition, excess, fat_local_named, fat_parameter_named,
    load_of_register, mask_of_shift, mirrored, number_of_locals, packed_form, passing_of,
    place_behind_words, place_of_elements, place_of_packed, place_of_parameter,
    pointer_text, push_of_register, slots_of_length, sum_of_three,
};
use crate::codegen::typing_rules::comparison;
use vstd::prelude::*;

verus! {

/// Access to the stack with a displacement that may be wide; what does not fit gives an error.
#[verifier::opaque]
pub open spec fn emitted_wide_access<R: ConstantResolver, const P: usize, const N: usize>(
    f: Frame<R, P, N>,
    s: Emission,
    opcode: u8,
    displacement: usize,
    kind: CodegenErrorKind,
) -> Emission {
    if displacement <= 127 {
        put(f, s, [0x48u8, opcode, 0x44, 0x24, displacement as u8]@)
    } else if displacement <= 0xffff_ffff {
        let s = put(f, s, [0x48u8, opcode, 0x84, 0x24]@);
        put(f, s, word_bytes(displacement as int))
    } else {
        failed(f, s, kind)
    }
}

/// Access to a stack slot.
#[verifier::opaque]
pub open spec fn emitted_stack_access<R: ConstantResolver, const P: usize, const N: usize>(
    f: Frame<R, P, N>,
    s: Emission,
    opcode: u8,
    slots: usize,
) -> Emission {
    match product_of(slots, 8) {
        None => {
            failed(f, s, CodegenErrorKind::OutputTooSmall)
        },
        Some(displacement) => {
            emitted_wide_access(f, s, opcode, displacement, CodegenErrorKind::OutputTooSmall)
        },
    }
}

/// Loads a stack slot.
#[verifier::opaque]
pub open spec fn emitted_stack_slot<R: ConstantResolver, const P: usize, const N: usize>(
    f: Frame<R, P, N>,
    s: Emission,
    slots: usize,
) -> Emission {
    emitted_stack_access(f, s, 0x8b, slots)
}

/// Loads the address of a stack slot.
#[verifier::opaque]
pub open spec fn emitted_stack_slot_address<R: ConstantResolver, const P: usize, const N: usize>(
    f: Frame<R, P, N>,
    s: Emission,
    slots: usize,
) -> Emission {
    emitted_stack_access(f, s, 0x8d, slots)
}

/// Stores into a stack slot.
#[verifier::opaque]
pub open spec fn emitted_store_stack_slot<R: ConstantResolver, const P: usize, const N: usize>(
    f: Frame<R, P, N>,
    s: Emission,
    slots: usize,
) -> Emission {
    emitted_stack_access(f, s, 0x89, slots)
}

/// Drops bytes of the stack; what does not fit gives an error.
#[verifier::opaque]
pub open spec fn emitted_cleanup<R: ConstantResolver, const P: usize, const N: usize>(
    f: Frame<R, P, N>,
    s: Emission,
    bytes: usize,
    kind: CodegenErrorKind,
) -> Emission {
    if bytes == 0 {
        s
    } else if bytes <= 127 {
        put(f, s, [0x48u8, 0x83, 0xc4, bytes as u8]@)
    } else if bytes <= 0xffff_ffff {
        let s = put(f, s, [0x48u8, 0x81, 0xc4]@);
        put(f, s, word_bytes(bytes as int))
    } else {
        failed(f, s, kind)
    }
}

/// Drops bytes of the stack.
#[verifier::opaque]
pub open spec fn emitted_cleanup_bytes<R: ConstantResolver, const P: usize, const N: usize>(
    f: Frame<R, P, N>,
    s: Emission,
    bytes: usize,
) -> Emission {
    emitted_cleanup(f, s, bytes, CodegenErrorKind::OutputTooSmall)
}

/// Drops slots of the stack.
#[verifier::opaque]
pub open spec fn emitted_slots_cleanup<R: ConstantResolver, const P: usize, const N: usize>(
    f: Frame<R, P, N>,
    s: Emission,
    slots: usize,
) -> Emission {
    match product_of(slots, 8) {
        None => {
            failed(f, s, CodegenErrorKind::OutputTooSmall)
        },
        Some(bytes) => {
            emitted_cleanup_bytes(f, s, bytes)
        },
    }
}

/// Loads a word that the caller has put on the stack.
#[verifier::opaque]
pub open spec fn emitted_original_load<R: ConstantResolver, const P: usize, const N: usize>(
    f: Frame<R, P, N>,
    s: Emission,
    original_offset: usize,
    pushed_slots: usize,
) -> Emission {
    match product_of(pushed_slots, 8) {
        None => {
            failed(f, s, CodegenErrorKind::TooManyAbiParameters)
        },
        Some(delta) => {
            match sum_of(original_offset, delta) {
                None => {
                    failed(f, s, CodegenErrorKind::TooManyAbiParameters)
                },
                Some(displacement) => {
                    emitted_wide_access(f, s, 0x8b, displacement, CodegenErrorKind::TooManyAbiParameters)
                },
            }
        },
    }
}

/// Saves a word that the caller has put on the stack.
#[verifier::opaque]
pub open spec fn emitted_original_push<R: ConstantResolver, const P: usize, const N: usize>(
    f: Frame<R, P, N>,
    s: Emission,
    original_offset: usize,
    pushed_slots: usize,
) -> Emission {
    let s = emitted_original_load(f, s, original_offset, pushed_slots);
    put(f, s, [0x50u8]@)
}

/// Drops what the function has on the stack and returns.
#[verifier::opaque]
pub open spec fn emitted_epilogue<R: ConstantResolver, const P: usize, const N: usize>(
    f: Frame<R, P, N>,
    s: Emission,
) -> Emission {
    match slots_from(s.locals, 0) {
        None => {
            failed(f, s, CodegenErrorKind::OutputTooSmall)
        },
        Some(locals) => {
            match sum_of(f.saved_parameter_slots, locals) {
                None => {
                    failed(f, s, CodegenErrorKind::OutputTooSmall)
                },
                Some(slots) => {
                    match product_of(slots, 8) {
                        None => {
                            failed(f, s, CodegenErrorKind::OutputTooSmall)
                        },
                        Some(bytes) => {
                            let s = emitted_cleanup(f, s, bytes, CodegenErrorKind::TooManyAbiParameters);
                            put(f, s, [0xc3u8]@)
                        },
                    }
                },
            }
        },
    }
}

/// Loads a constant.
#[verifier::opaque]
pub open spec fn emitted_constant<R: ConstantResolver, const P: usize, const N: usize>(
    f: Frame<R, P, N>,
    s: Emission,
    value: u64,
) -> Emission {
    let s = put(f, s, [0x48u8, 0xb8]@);
    put(f, s, quad_bytes(value as int))
}

/// Loads the register of a parameter.
#[verifier::opaque]
pub open spec fn emitted_register_load<R: ConstantResolver, const P: usize, const N: usize>(
    f: Frame<R, P, N>,
    s: Emission,
    abi: X86_64Abi,
    index: usize,
) -> Emission {
    match load_of_register(abi, index) {
        None => {
            failed(f, s, CodegenErrorKind::TooManyAbiParameters)
        },
        Some((first, third)) => {
            put(f, s, [first, 0x89, third]@)
        },
    }
}

/// Loads a parameter of the Windows convention from its register or from the stack.
#[verifier::opaque]
pub open spec fn emitted_parameter_load<R: ConstantResolver, const P: usize, const N: usize>(
    f: Frame<R, P, N>,
    s: Emission,
    index: usize,
    pushed_slots: usize,
) -> Emission {
    if index < 4 {
        emitted_register_load(f, s, X86_64Abi::Windows, index)
    } else {
        match place_of_parameter(index) {
            None => {
                failed(f, s, CodegenErrorKind::TooManyAbiParameters)
            },
            Some(original) => {
                emitted_original_load(f, s, original, pushed_slots)
            },
        }
    }
}

/// Saves the register of a parameter.
#[verifier::opaque]
pub open spec fn emitted_parameter_push<R: ConstantResolver, const P: usize, const N: usize>(
    f: Frame<R, P, N>,
    s: Emission,
    abi: X86_64Abi,
    index: usize,
) -> Emission {
    match push_of_register(abi, index) {
        None => {
            failed(f, s, CodegenErrorKind::TooManyAbiParameters)
        },
        Some((false, register)) => {
            put(f, s, [register]@)
        },
        Some((true, register)) => {
            put(f, s, [0x41u8, register]@)
        },
    }
}

/// Saves a parameter of the Windows convention.
#[verifier::opaque]
pub open spec fn emitted_windows_word<R: ConstantResolver, const P: usize, const N: usize>(
    f: Frame<R, P, N>,
    s: Emission,
    index: usize,
    pushed_slots: usize,
) -> Emission {
    if index < 4 {
        emitted_parameter_push(f, s, X86_64Abi::Windows, index)
    } else {
        match place_of_parameter(index) {
            None => {
                failed(f, s, CodegenErrorKind::TooManyAbiParameters)
            },
            Some(original) => {
                emitted_original_push(f, s, original, pushed_slots)
            },
        }
    }
}

/// Saves the elements that a register holds, each in a slot, from one of them on.
#[verifier::opaque]
pub open spec fn emitted_unpacked<R: ConstantResolver, const P: usize, const N: usize>(
    f: Frame<R, P, N>,
    s: Emission,
    element_bytes: usize,
    count: usize,
    word: usize,
    index: usize,
) -> Emission
    decreases count - index,
{
    if index < count {
        let s = if stands_in_word(index, element_bytes, word) {
            let s = put(f, s, [0x49u8, 0x89, 0xc2]@);
            let s = if shift_in_word(index, element_bytes) != 0 {
                put(f, s, [0x49u8, 0xc1, 0xea, shift_in_word(index, element_bytes)]@)
            } else {
                s
            };
            let s = if element_bytes == 1 {
                put(f, s, [0x45u8, 0x0f, 0xb6, 0xd2]@)
            } else if element_bytes == 2 {
                put(f, s, [0x45u8, 0x0f, 0xb7, 0xd2]@)
            } else if element_bytes != 4 && element_bytes != 8 {
                failed(f, s, CodegenErrorKind::UnsupportedParameterType)
            } else {
                s
            };
            put(f, s, [0x41u8, 0x52]@)
        } else {
            s
        };
        emitted_unpacked(f, s, element_bytes, count, word, (index + 1) as usize)
    } else {
        s
    }
}

/// Saves the elements of a word of an array, each in a slot.
#[verifier::opaque]
pub open spec fn emitted_unpacked_word<R: ConstantResolver, const P: usize, const N: usize>(
    f: Frame<R, P, N>,
    s: Emission,
    element_bytes: usize,
    count: usize,
    word: usize,
) -> Emission {
    emitted_unpacked(f, s, element_bytes, count, word, 0)
}

#[verifier::opaque]
pub open spec fn emitted_zero_slots<R: ConstantResolver, const P: usize, const N: usize>(
    f: Frame<R, P, N>,
    s: Emission,
    count: usize,
) -> Emission
    decreases count,
{
    if count > 0 {
        let s = put(f, s, [0x50u8]@);
        emitted_zero_slots(f, s, (count - 1) as usize)
    } else {
        s
    }
}

/// Saves slots for elements that take no room.
#[verifier::opaque]
pub open spec fn emitted_zero_array<R: ConstantResolver, const P: usize, const N: usize>(
    f: Frame<R, P, N>,
    s: Emission,
    count: usize,
) -> Emission {
    let s = if count != 0 {
        put(f, s, [0x31u8, 0xc0]@)
    } else {
        s
    };
    emitted_zero_slots(f, s, count)
}

/// Saves the elements of an array behind a pointer, each in a slot, from one of them on.
#[verifier::opaque]
pub open spec fn emitted_pointed_elements<R: ConstantResolver, const P: usize, const N: usize>(
    f: Frame<R, P, N>,
    s: Emission,
    element_bytes: usize,
    count: usize,
    index: usize,
) -> Emission
    decreases count - index,
{
    if index < count {
        let s = match offset_of(index, element_bytes) {
            None => {
                failed(f, s, CodegenErrorKind::TooManyAbiParameters)
            },
            Some(displacement) => {
                let s = if element_bytes == 1 {
                    put(f, s, [0x44u8, 0x0f, 0xb6, 0x50, displacement]@)
                } else if element_bytes == 2 {
                    put(f, s, [0x44u8, 0x0f, 0xb7, 0x50, displacement]@)
                } else if element_bytes == 4 {
                    put(f, s, [0x44u8, 0x8b, 0x50, displacement]@)
                } else if element_bytes == 8 && displacement == 0 {
                    put(f, s, [0x4cu8, 0x8b, 0x10]@)
                } else if element_bytes == 8 {
                    put(f, s, [0x4cu8, 0x8b, 0x50, displacement]@)
                } else {
                    failed(f, s, CodegenErrorKind::UnsupportedParameterType)
                };
                put(f, s, [0x41u8, 0x52]@)
            },
        };
        emitted_pointed_elements(f, s, element_bytes, count, (index + 1) as usize)
    } else {
        s
    }
}

/// Saves an array parameter of the Windows convention.
#[verifier::opaque]
pub open spec fn emitted_windows_array<R: ConstantResolver, const P: usize, const N: usize>(
    f: Frame<R, P, N>,
    s: Emission,
    array: RuntimeExpressionType,
    count: usize,
    abi_index: usize,
    pushed: usize,
) -> Emission {
    match array_layout(array) {
        None => {
            failed(f, s, CodegenErrorKind::UnsupportedParameterType)
        },
        Some(layout) => {
            if layout.bytes == 0 {
                emitted_zero_array(f, s, count)
            } else if layout.bytes == 1 || layout.bytes == 2 || layout.bytes == 4 || layout.bytes == 8 {
                let s = emitted_parameter_load(f, s, abi_index, pushed);
                emitted_unpacked_word(f, s, layout.element_bytes, count, 0)
            } else {
                let s = emitted_parameter_load(f, s, abi_index, pushed);
                emitted_pointed_elements(f, s, layout.element_bytes, count, 0)
            }
        },
    }
}

/// Saves the parameters of the Windows convention, from one of them on.
#[verifier::opaque]
pub open spec fn emitted_windows_parameters<R: ConstantResolver, const P: usize, const N: usize>(
    f: Frame<R, P, N>,
    s: Emission,
    index: int,
    abi_index: usize,
    pushed: usize,
) -> Emission
    decreases f.function.parameters@.len() - index,
{
    if index < f.function.parameters@.len() {
        match passing_of(f.function.parameters@[index as int].ty.text@) {
            ParameterPassing::Fat => {
                let s = emitted_parameter_load(f, s, abi_index, pushed);
                let s = put(f, s, [0x4cu8, 0x8b, 0x10, 0x41, 0x52]@);
                let s = put(f, s, [0x4cu8, 0x8b, 0x50, 0x08, 0x41, 0x52]@);
                emitted_windows_parameters(f, s, index + 1, place_from(abi_index, 1), place_from(pushed, 2))
            },
            ParameterPassing::Array { array, count } => {
                let s = emitted_windows_array(f, s, array, count, abi_index, pushed);
                emitted_windows_parameters(
                    f,
                    s,
                    index + 1,
                    place_from(abi_index, 1),
                    place_from(pushed, count),
                )
            },
            ParameterPassing::Word => {
                let s = emitted_windows_word(f, s, abi_index, pushed);
                emitted_windows_parameters(f, s, index + 1, place_from(abi_index, 1), place_from(pushed, 1))
            },
        }
    } else {
        s
    }
}

/// Saves the words of an array that registers hold, from one of them on.
#[verifier::opaque]
pub open spec fn emitted_register_words<R: ConstantResolver, const P: usize, const N: usize>(
    f: Frame<R, P, N>,
    s: Emission,
    element_bytes: usize,
    count: usize,
    word: usize,
    words: usize,
    register: usize,
) -> Emission
    decreases words - word,
{
    if word < words {
        let s = emitted_register_load(f, s, X86_64Abi::SystemV, register);
        let s = emitted_unpacked_word(f, s, element_bytes, count, word);
        emitted_register_words(
            f,
            s,
            element_bytes,
            count,
            (word + 1) as usize,
            words,
            place_from(register, 1),
        )
    } else {
        s
    }
}

/// Saves the words of an array that are on the stack, from one of them on.
#[verifier::opaque]
pub open spec fn emitted_stack_words<R: ConstantResolver, const P: usize, const N: usize>(
    f: Frame<R, P, N>,
    s: Emission,
    element_bytes: usize,
    count: usize,
    word: usize,
    words: usize,
    offset: usize,
    pushed: usize,
) -> Emission
    decreases words - word,
{
    if word < words {
        let s = emitted_original_load(f, s, offset, pushed);
        let s = emitted_unpacked_word(f, s, element_bytes, count, word);
        match sum_of(offset, 8) {
            None => {
                failed(f, s, CodegenErrorKind::TooManyAbiParameters)
            },
            Some(offset) => {
                emitted_stack_words(
                    f,
                    s,
                    element_bytes,
                    count,
                    (word + 1) as usize,
                    words,
                    offset,
                    place_from(pushed, word_elements(element_bytes, count, word)),
                )
            },
        }
    } else {
        s
    }
}

/// Saves the parameters of the System V convention, from one of them on.
#[verifier::opaque]
pub open spec fn emitted_system_v_parameters<R: ConstantResolver, const P: usize, const N: usize>(
    f: Frame<R, P, N>,
    s: Emission,
    index: int,
    register: usize,
    offset: usize,
    pushed: usize,
) -> Emission
    decreases f.function.parameters@.len() - index,
{
    if index < f.function.parameters@.len() {
        match passing_of(f.function.parameters@[index as int].ty.text@) {
            ParameterPassing::Fat => {
                if register <= 4 {
                    let s = emitted_register_load(f, s, X86_64Abi::SystemV, register);
                    let s = put(f, s, [0x50u8]@);
                    let s = emitted_register_load(f, s, X86_64Abi::SystemV, place_from(register, 1));
                    let s = put(f, s, [0x50u8]@);
                    emitted_system_v_parameters(
                        f,
                        s,
                        index + 1,
                        place_from(register, 2),
                        offset,
                        place_from(pushed, 2),
                    )
                } else {
                    let s = emitted_original_push(f, s, offset, pushed);
                    let s = emitted_original_push(f, s, place_from(offset, 8), place_from(pushed, 1));
                    emitted_system_v_parameters(
                        f,
                        s,
                        index + 1,
                        register,
                        place_from(offset, 16),
                        place_from(pushed, 2),
                    )
                }
            },
            ParameterPassing::Array { array, count } => {
                match array_layout(array) {
                    None => {
                        failed(f, s, CodegenErrorKind::UnsupportedParameterType)
                    },
                    Some(layout) => {
                        if layout.words == 0 {
                            let s = emitted_zero_array(f, s, count);
                            emitted_system_v_parameters(
                                f,
                                s,
                                index + 1,
                                register,
                                offset,
                                place_from(pushed, count),
                            )
                        } else if layout.words <= 2 && place_from(register, layout.words) <= 6 {
                            let s = emitted_register_words(
                                f,
                                s,
                                layout.element_bytes,
                                count,
                                0,
                                layout.words,
                                register,
                            );
                            emitted_system_v_parameters(
                                f,
                                s,
                                index + 1,
                                place_from(register, layout.words),
                                offset,
                                place_from(pushed, count),
                            )
                        } else {
                            let s = emitted_stack_words(
                                f,
                                s,
                                layout.element_bytes,
                                count,
                                0,
                                layout.words,
                                offset,
                                pushed,
                            );
                            match place_behind_words(offset, layout.words) {
                                None => {
                                    failed(f, s, CodegenErrorKind::TooManyAbiParameters)
                                },
                                Some(offset) => {
                                    emitted_system_v_parameters(
                                        f,
                                        s,
                                        index + 1,
                                        register,
                                        offset,
                                        place_from(pushed, count),
                                    )
                                },
                            }
                        }
                    },
                }
            },
            ParameterPassing::Word => {
                if register < 6 {
                    let s = emitted_parameter_push(f, s, X86_64Abi::SystemV, register);
                    emitted_system_v_parameters(
                        f,
                        s,
                        index + 1,
                        place_from(register, 1),
                        offset,
                        place_from(pushed, 1),
                    )
                } else {
                    let s = emitted_original_push(f, s, offset, pushed);
                    match sum_of(offset, 8) {
                        None => {
                            failed(f, s, CodegenErrorKind::TooManyAbiParameters)
                        },
                        Some(offset) => {
                            emitted_system_v_parameters(
                                f,
                                s,
                                index + 1,
                                register,
                                offset,
                                place_from(pushed, 1),
                            )
                        },
                    }
                }
            },
        }
    } else {
        s
    }
}

/// Saves the parameters on the stack.
#[verifier::opaque]
pub open spec fn emitted_prologue<R: ConstantResolver, const P: usize, const N: usize>(
    f: Frame<R, P, N>,
    s: Emission,
) -> Emission {
    if f.abi == X86_64Abi::Windows {
        if f.uses_sret {
            let s = put(f, s, [0x51u8]@);
            emitted_windows_parameters(f, s, 0, 1, 1)
        } else {
            emitted_windows_parameters(f, s, 0, 0, 0)
        }
    } else {
        if f.uses_sret {
            let s = put(f, s, [0x57u8]@);
            emitted_system_v_parameters(f, s, 0, 1, 8, 1)
        } else {
            emitted_system_v_parameters(f, s, 0, 0, 8, 0)
        }
    }
}

/// Makes a register hold a number of a width.
#[verifier::opaque]
pub open spec fn emitted_normal_width<R: ConstantResolver, const P: usize, const N: usize>(
    f: Frame<R, P, N>,
    s: Emission,
    width: RuntimeWidth,
) -> Emission {
    if width.bits == 8 && !width.signed {
        put(f, s, [0x0fu8, 0xb6, 0xc0]@)
    } else if width.bits == 16 && !width.signed {
        put(f, s, [0x0fu8, 0xb7, 0xc0]@)
    } else if width.bits == 32 && !width.signed {
        put(f, s, [0x89u8, 0xc0]@)
    } else if width.bits == 8 {
        put(f, s, [0x48u8, 0x0f, 0xbe, 0xc0]@)
    } else if width.bits == 16 {
        put(f, s, [0x48u8, 0x0f, 0xbf, 0xc0]@)
    } else if width.bits == 32 {
        put(f, s, [0x48u8, 0x63, 0xc0]@)
    } else if width.bits != 64 {
        failed(f, s, CodegenErrorKind::UnsupportedRuntimeType)
    } else {
        s
    }
}

/// Makes a register hold a number of the width at hand.
#[verifier::opaque]
pub open spec fn emitted_normal<R: ConstantResolver, const P: usize, const N: usize>(
    f: Frame<R, P, N>,
    s: Emission,
) -> Emission {
    let width = s.width;
    emitted_normal_width(f, s, width)
}

/// Stops the program where a number is not of the width at hand.
#[verifier::opaque]
pub open spec fn emitted_range_check<R: ConstantResolver, const P: usize, const N: usize>(
    f: Frame<R, P, N>,
    s: Emission,
) -> Emission {
    let width = s.width;
    if width.bits != 64 {
        let s = put(f, s, [0x48u8, 0xba]@);
        let s = put(f, s, quad_bytes(width.maximum as int));
        let s = put(f, s, [0x48u8, 0x39, 0xd0]@);
        if width.signed {
            let s = trapped(f, s, 0x8f);
            let s = put(f, s, [0x48u8, 0xba]@);
            let s = put(f, s, quad_bytes(width.minimum as int));
            let s = put(f, s, [0x48u8, 0x39, 0xd0]@);
            trapped(f, s, 0x8c)
        } else {
            trapped(f, s, 0x87)
        }
    } else {
        s
    }
}

/// Divides, or takes the remainder.
#[verifier::opaque]
pub open spec fn emitted_division<R: ConstantResolver, const P: usize, const N: usize>(
    f: Frame<R, P, N>,
    s: Emission,
    remainder: bool,
) -> Emission {
    let width = s.width;
    let s = put(f, s, [0x48u8, 0x87, 0xc1, 0x48, 0x85, 0xc9]@);
    let s = trapped(f, s, 0x84);
    let s = if width.signed {
        let s = put(f, s, [0x48u8, 0x83, 0xf9, 0xff, 0x75, 19]@);
        let s = put(f, s, [0x48u8, 0xba]@);
        let s = put(f, s, quad_bytes(width.minimum as int));
        let s = put(f, s, [0x48u8, 0x39, 0xd0]@);
        let s = trapped(f, s, 0x84);
        put(f, s, [0x48u8, 0x99, 0x48, 0xf7, 0xf9]@)
    } else {
        put(f, s, [0x48u8, 0x31, 0xd2, 0x48, 0xf7, 0xf1]@)
    };
    let s = if remainder {
        put(f, s, [0x48u8, 0x89, 0xd0]@)
    } else {
        s
    };
    emitted_normal(f, s)
}

/// Multiplies.
#[verifier::opaque]
pub open spec fn emitted_multiplication<R: ConstantResolver, const P: usize, const N: usize>(
    f: Frame<R, P, N>,
    s: Emission,
) -> Emission {
    let width = s.width;
    let s = put(f, s, [0x48u8, 0x87, 0xc1]@);
    let s = if width.signed {
        put(f, s, [0x48u8, 0x0f, 0xaf, 0xc1]@)
    } else {
        put(f, s, [0x48u8, 0xf7, 0xe1, 0x48, 0x85, 0xd2]@)
    };
    if s.overflow_checks && width.bits == 64 {
        if width.signed {
            trapped(f, s, 0x80)
        } else {
            trapped(f, s, 0x85)
        }
    } else if s.overflow_checks {
        emitted_range_check(f, s)
    } else {
        emitted_normal(f, s)
    }
}

/// Stops the program where a sum or a difference does not fit a register.
#[verifier::opaque]
pub open spec fn emitted_carry_check<R: ConstantResolver, const P: usize, const N: usize>(
    f: Frame<R, P, N>,
    s: Emission,
) -> Emission {
    let width = s.width;
    if width.signed {
        trapped(f, s, 0x80)
    } else {
        trapped(f, s, 0x82)
    }
}

/// Adds.
#[verifier::opaque]
pub open spec fn emitted_sum<R: ConstantResolver, const P: usize, const N: usize>(
    f: Frame<R, P, N>,
    s: Emission,
) -> Emission {
    let width = s.width;
    let s = put(f, s, [0x48u8, 0x01, 0xc8]@);
    if s.overflow_checks && width.bits == 64 {
        emitted_carry_check(f, s)
    } else if s.overflow_checks {
        emitted_range_check(f, s)
    } else {
        emitted_normal(f, s)
    }
}

/// Subtracts.
#[verifier::opaque]
pub open spec fn emitted_difference<R: ConstantResolver, const P: usize, const N: usize>(
    f: Frame<R, P, N>,
    s: Emission,
) -> Emission {
    let width = s.width;
    let s = put(f, s, [0x48u8, 0x29, 0xc1]@);
    let s = if s.overflow_checks && width.bits == 64 {
        emitted_carry_check(f, s)
    } else {
        s
    };
    let s = put(f, s, [0x48u8, 0x89, 0xc8]@);
    if s.overflow_checks && width.bits < 64 {
        emitted_range_check(f, s)
    } else {
        emitted_normal(f, s)
    }
}

/// Shifts.
#[verifier::opaque]
pub open spec fn emitted_shift<R: ConstantResolver, const P: usize, const N: usize>(
    f: Frame<R, P, N>,
    s: Emission,
    left: bool,
) -> Emission {
    let width = s.width;
    let s = put(f, s, [0x48u8, 0x87, 0xc1]@);
    let s = if s.overflow_checks {
        let s = put(f, s, [0x48u8, 0x83, 0xf9, width.bits]@);
        trapped(f, s, 0x83)
    } else {
        put(f, s, [0x83u8, 0xe1, mask_of_shift(width.bits)]@)
    };
    let s = if left {
        put(f, s, [0x48u8, 0xd3, 0xe0]@)
    } else if width.signed {
        put(f, s, [0x48u8, 0xd3, 0xf8]@)
    } else {
        put(f, s, [0x48u8, 0xd3, 0xe8]@)
    };
    emitted_normal(f, s)
}

/// Negates a number of a width.
#[verifier::opaque]
pub open spec fn emitted_negated<R: ConstantResolver, const P: usize, const N: usize>(
    f: Frame<R, P, N>,
    s: Emission,
    width: RuntimeWidth,
) -> Emission {
    let s = put(f, s, [0x48u8, 0xf7, 0xd8]@);
    let s = if s.overflow_checks && width.bits == 64 {
        trapped(f, s, 0x80)
    } else if s.overflow_checks {
        emitted_range_check(f, s)
    } else {
        s
    };
    emitted_normal(f, s)
}

/// An operation on two registers.
#[verifier::opaque]
pub open spec fn emitted_binary<R: ConstantResolver, const P: usize, const N: usize>(
    f: Frame<R, P, N>,
    s: Emission,
    operator: BinaryOperator,
) -> Emission {
    let width = s.width;
    match operator {
        BinaryOperator::Add => {
            emitted_sum(f, s)
        },
        BinaryOperator::Subtract => {
            emitted_difference(f, s)
        },
        BinaryOperator::Multiply => {
            emitted_multiplication(f, s)
        },
        BinaryOperator::Divide => {
            emitted_division(f, s, false)
        },
        BinaryOperator::Remainder => {
            emitted_division(f, s, true)
        },
        BinaryOperator::BitAnd => {
            put(f, s, [0x48u8, 0x21, 0xc8]@)
        },
        BinaryOperator::BitOr => {
            put(f, s, [0x48u8, 0x09, 0xc8]@)
        },
        BinaryOperator::BitXor => {
            put(f, s, [0x48u8, 0x31, 0xc8]@)
        },
        BinaryOperator::ShiftLeft => {
            emitted_shift(f, s, true)
        },
        BinaryOperator::ShiftRight => {
            emitted_shift(f, s, false)
        },
        BinaryOperator::LogicalAnd | BinaryOperator::LogicalOr => {
            failed(f, s, CodegenErrorKind::UnsupportedRuntimeOperator)
        },
        comparison => {
            put(
                f,
                s,
                [0x48u8, 0x39, 0xc1, 0x0f, code_of_condition(comparison, width.signed), 0xc0, 0x0f, 0xb6, 0xc0]@,
            )
        },
    }
}

/// Loads what an address leads to.
#[verifier::opaque]
pub open spec fn emitted_reference_load<R: ConstantResolver, const P: usize, const N: usize>(
    f: Frame<R, P, N>,
    s: Emission,
    pointee: RuntimeArrayElementType,
) -> Emission {
    match pointee {
        RuntimeArrayElementType::Bool => {
            put(f, s, [0x0fu8, 0xb6, 0x00]@)
        },
        RuntimeArrayElementType::Char => {
            put(f, s, [0x8bu8, 0x00]@)
        },
        RuntimeArrayElementType::Integer(Some(ty)) => {
            match width_of_integer(ty) {
                None => {
                    failed(f, s, CodegenErrorKind::UnsupportedRuntimeType)
                },
                Some(width) => {
                    if width.bits == 8 && !width.signed {
                        put(f, s, [0x0fu8, 0xb6, 0x00]@)
                    } else if width.bits == 8 {
                        put(f, s, [0x48u8, 0x0f, 0xbe, 0x00]@)
                    } else if width.bits == 16 && !width.signed {
                        put(f, s, [0x0fu8, 0xb7, 0x00]@)
                    } else if width.bits == 16 {
                        put(f, s, [0x48u8, 0x0f, 0xbf, 0x00]@)
                    } else if width.bits == 32 && !width.signed {
                        put(f, s, [0x8bu8, 0x00]@)
                    } else if width.bits == 32 {
                        put(f, s, [0x48u8, 0x63, 0x00]@)
                    } else {
                        put(f, s, [0x48u8, 0x8b, 0x00]@)
                    }
                },
            }
        },
        _ => {
            failed(f, s, CodegenErrorKind::UnsupportedRuntimeType)
        },
    }
}

/// Stores into where an address leads.
#[verifier::opaque]
pub open spec fn emitted_reference_store<R: ConstantResolver, const P: usize, const N: usize>(
    f: Frame<R, P, N>,
    s: Emission,
    pointee: RuntimeArrayElementType,
) -> Emission {
    match pointee {
        RuntimeArrayElementType::Bool => {
            put(f, s, [0x88u8, 0x02]@)
        },
        RuntimeArrayElementType::Char => {
            put(f, s, [0x89u8, 0x02]@)
        },
        RuntimeArrayElementType::Integer(Some(ty)) => {
            match width_of_integer(ty) {
                None => {
                    failed(f, s, CodegenErrorKind::UnsupportedRuntimeType)
                },
                Some(width) => {
                    if width.bits == 8 {
                        put(f, s, [0x88u8, 0x02]@)
                    } else if width.bits == 16 {
                        put(f, s, [0x66u8, 0x89, 0x02]@)
                    } else if width.bits == 32 {
                        put(f, s, [0x89u8, 0x02]@)
                    } else {
                        put(f, s, [0x48u8, 0x89, 0x02]@)
                    }
                },
            }
        },
        _ => {
            failed(f, s, CodegenErrorKind::UnsupportedRuntimeType)
        },
    }
}

/// Makes a register hold an element.
#[verifier::opaque]
pub open spec fn emitted_normal_element<R: ConstantResolver, const P: usize, const N: usize>(
    f: Frame<R, P, N>,
    s: Emission,
    element: RuntimeArrayElementType,
) -> Emission {
    match element {
        RuntimeArrayElementType::Bool => {
            put(f, s, [0x0fu8, 0xb6, 0xc0]@)
        },
        RuntimeArrayElementType::Integer(_) => {
            emitted_normal(f, s)
        },
        RuntimeArrayElementType::Char => {
            emitted_normal_width(f, s, width_of_char())
        },
        _ => {
            s
        },
    }
}

/// The address of an element, by the address of the first and an index.
#[verifier::opaque]
pub open spec fn emitted_element_address<R: ConstantResolver, const P: usize, const N: usize>(
    f: Frame<R, P, N>,
    s: Emission,
    element_bytes: usize,
) -> Emission {
    if element_bytes == 1 {
        put(f, s, [0x48u8, 0x01, 0xc8]@)
    } else if element_bytes == 2 {
        put(f, s, [0x48u8, 0x8d, 0x04, 0x48]@)
    } else if element_bytes == 4 {
        put(f, s, [0x48u8, 0x8d, 0x04, 0x88]@)
    } else if element_bytes == 8 {
        put(f, s, [0x48u8, 0x8d, 0x04, 0xc8]@)
    } else {
        failed(f, s, CodegenErrorKind::UnsupportedRuntimeType)
    }
}

/// The same where the address is to be stored to.
#[verifier::opaque]
pub open spec fn emitted_element_store_address<R: ConstantResolver, const P: usize, const N: usize>(
    f: Frame<R, P, N>,
    s: Emission,
    element_bytes: usize,
) -> Emission {
    if element_bytes == 1 {
        put(f, s, [0x48u8, 0x01, 0xca]@)
    } else if element_bytes == 2 {
        put(f, s, [0x48u8, 0x8d, 0x14, 0x4a]@)
    } else if element_bytes == 4 {
        put(f, s, [0x48u8, 0x8d, 0x14, 0x8a]@)
    } else if element_bytes == 8 {
        put(f, s, [0x48u8, 0x8d, 0x14, 0xca]@)
    } else {
        failed(f, s, CodegenErrorKind::UnsupportedRuntimeType)
    }
}

/// The address of an element, by an index in the slot below the top.
#[verifier::opaque]
pub open spec fn emitted_indexed_address<R: ConstantResolver, const P: usize, const N: usize>(
    f: Frame<R, P, N>,
    s: Emission,
    element_bytes: usize,
) -> Emission {
    let s = put(f, s, [0x48u8, 0x8b, 0x4c, 0x24, 8]@);
    if element_bytes != 0 {
        emitted_element_address(f, s, element_bytes)
    } else {
        s
    }
}

/// The same where the address is to be stored to.
#[verifier::opaque]
pub open spec fn emitted_indexed_store_address<R: ConstantResolver, const P: usize, const N: usize>(
    f: Frame<R, P, N>,
    s: Emission,
    element_bytes: usize,
) -> Emission {
    let s = put(f, s, [0x48u8, 0x8b, 0x4c, 0x24, 8]@);
    emitted_element_store_address(f, s, element_bytes)
}

/// Access to the slot of a local, or of one behind it.
#[verifier::opaque]
pub open spec fn emitted_slot_of<R: ConstantResolver, const P: usize, const N: usize>(
    f: Frame<R, P, N>,
    s: Emission,
    opcode: u8,
    later: Option<usize>,
    more: usize,
    kind: CodegenErrorKind,
) -> Emission {
    match later {
        None => {
            failed(f, s, CodegenErrorKind::OutputTooSmall)
        },
        Some(later) => {
            match sum_of_three(later, more, s.temporaries) {
                None => {
                    failed(f, s, kind)
                },
                Some(slots) => {
                    emitted_stack_access(f, s, opcode, slots)
                },
            }
        },
    }
}

/// Access to the slot of a parameter, or of one behind it.
#[verifier::opaque]
pub open spec fn emitted_parameter_slot<R: ConstantResolver, const P: usize, const N: usize>(
    f: Frame<R, P, N>,
    s: Emission,
    opcode: u8,
    index: usize,
    more: usize,
    kind: CodegenErrorKind,
) -> Emission {
    match slots_from(s.locals, 0) {
        None => {
            failed(f, s, CodegenErrorKind::OutputTooSmall)
        },
        Some(locals) => {
            match parameter_slots_from(f.function.parameters@, index) {
                None => {
                    failed(f, s, CodegenErrorKind::TooManyAbiParameters)
                },
                Some(parameters) => {
                    match sum_of(locals, parameters) {
                        None => {
                            failed(f, s, kind)
                        },
                        Some(later) => {
                            emitted_slot_of(f, s, opcode, Some(later), more, kind)
                        },
                    }
                },
            }
        },
    }
}

/// Loads a constant by its name.
#[verifier::opaque]
pub open spec fn emitted_constant_name<R: ConstantResolver, const P: usize, const N: usize>(
    f: Frame<R, P, N>,
    s: Emission,
    name: Seq<char>,
) -> Emission {
    let width = s.width;
    match named_register(f.resolver.value_of(name), f.resolver.type_of(name), width) {
        Err(kind) => {
            failed(f, s, kind)
        },
        Ok(value) => {
            emitted_constant(f, s, value)
        },
    }
}

/// Loads a local.
#[verifier::opaque]
pub open spec fn emitted_local_name<R: ConstantResolver, const P: usize, const N: usize>(
    f: Frame<R, P, N>,
    s: Emission,
    index: usize,
    ty: RuntimeExpressionType,
) -> Emission {
    match ty {
        RuntimeExpressionType::Array { .. } => {
            failed(f, s, CodegenErrorKind::RuntimeExpressionUnsupported)
        },
        RuntimeExpressionType::Bool => {
            let s = emitted_slot_of(
                f,
                s,
                0x8b,
                slots_from(s.locals, place_from(index, 1)),
                0,
                CodegenErrorKind::OutputTooSmall,
            );
            put(f, s, [0x0fu8, 0xb6, 0xc0]@)
        },
        RuntimeExpressionType::RawPointer { .. } => {
            emitted_slot_of(
                f,
                s,
                0x8b,
                slots_from(s.locals, place_from(index, 1)),
                0,
                CodegenErrorKind::OutputTooSmall,
            )
        },
        RuntimeExpressionType::Reference { .. } => {
            emitted_slot_of(
                f,
                s,
                0x8b,
                slots_from(s.locals, place_from(index, 1)),
                slots_of_length(ty),
                CodegenErrorKind::OutputTooSmall,
            )
        },
        _ => {
            let s = emitted_slot_of(
                f,
                s,
                0x8b,
                slots_from(s.locals, place_from(index, 1)),
                0,
                CodegenErrorKind::OutputTooSmall,
            );
            emitted_normal(f, s)
        },
    }
}

/// Loads a parameter.
#[verifier::opaque]
pub open spec fn emitted_parameter_name<R: ConstantResolver, const P: usize, const N: usize>(
    f: Frame<R, P, N>,
    s: Emission,
    index: usize,
    text: Seq<char>,
) -> Emission {
    match reference_type(text) {
        Some(ty) => {
            emitted_parameter_slot(
                f,
                s,
                0x8b,
                place_from(index, 1),
                slots_of_length(ty),
                CodegenErrorKind::OutputTooSmall,
            )
        },
        None => {
            let s = emitted_parameter_slot(
                f,
                s,
                0x8b,
                place_from(index, 1),
                0,
                CodegenErrorKind::OutputTooSmall,
            );
            if text == "bool"@ {
                put(f, s, [0x0fu8, 0xb6, 0xc0]@)
            } else if pointer_text(text) {
                s
            } else {
                emitted_normal(f, s)
            }
        },
    }
}

/// Loads what a name stands for.
#[verifier::opaque]
pub open spec fn emitted_identifier<R: ConstantResolver, const P: usize, const N: usize>(
    f: Frame<R, P, N>,
    s: Emission,
    name: Seq<char>,
) -> Emission {
    match local_named(s.locals, name) {
        Some(index) => {
            emitted_local_name(f, s, index, s.locals[index as int].ty)
        },
        None => {
            match parameter_named(f.function.parameters@, name) {
                Some(index) => {
                    emitted_parameter_name(f, s, index, f.function.parameters@[index as int].ty.text@)
                },
                None => {
                    emitted_constant_name(f, s, name)
                },
            }
        },
    }
}

/// Loads the address of what a name stands for.
#[verifier::opaque]
pub open spec fn emitted_identifier_address<R: ConstantResolver, const P: usize, const N: usize>(
    f: Frame<R, P, N>,
    s: Emission,
    name: Seq<char>,
) -> Emission {
    match local_named(s.locals, name) {
        Some(index) => {
            emitted_slot_of(
                f,
                s,
                0x8d,
                slots_from(s.locals, place_from(index, 1)),
                0,
                CodegenErrorKind::UnknownRuntimeName,
            )
        },
        None => {
            match parameter_named(f.function.parameters@, name) {
                Some(index) => {
                    emitted_parameter_slot(
                        f,
                        s,
                        0x8d,
                        place_from(index, 1),
                        0,
                        CodegenErrorKind::UnknownRuntimeName,
                    )
                },
                None => {
                    failed(f, s, CodegenErrorKind::UnknownRuntimeName)
                },
            }
        },
    }
}

/// Loads the length of the slice or string that a name stands for.
#[verifier::opaque]
pub open spec fn emitted_slice_length<R: ConstantResolver, const P: usize, const N: usize>(
    f: Frame<R, P, N>,
    s: Emission,
    name: Seq<char>,
) -> Emission {
    match fat_local_named(s.locals, name) {
        Some(index) => {
            emitted_slot_of(
                f,
                s,
                0x8b,
                slots_from(s.locals, place_from(index, 1)),
                0,
                CodegenErrorKind::UnknownRuntimeName,
            )
        },
        None => {
            match fat_parameter_named(f.function.parameters@, name) {
                Some(index) => {
                    emitted_parameter_slot(
                        f,
                        s,
                        0x8b,
                        place_from(index, 1),
                        0,
                        CodegenErrorKind::UnknownRuntimeName,
                    )
                },
                None => {
                    failed(f, s, CodegenErrorKind::UnknownRuntimeName)
                },
            }
        },
    }
}

/// Stops the program where an index of a string is not between two characters.
#[verifier::opaque]
pub open spec fn emitted_string_boundary<R: ConstantResolver, const P: usize, const N: usize>(
    f: Frame<R, P, N>,
    s: Emission,
) -> Emission {
    let s = put(f, s, [0x48u8, 0x85, 0xc9]@);
    let at_start = branch_place(s, 2);
    let s = put(f, s, [0x0fu8, 0x84, 0, 0, 0, 0]@);
    let s = put(f, s, [0x48u8, 0x39, 0xd1]@);
    let at_end = branch_place(s, 2);
    let s = put(f, s, [0x0fu8, 0x84, 0, 0, 0, 0]@);
    let s = put(f, s, [0x44u8, 0x0f, 0xb6, 0x04, 0x08]@);
    let s = put(f, s, [0x41u8, 0x80, 0xe0, 0xc0, 0x41, 0x80, 0xf8, 0x80]@);
    let s = trapped(f, s, 0x84);
    let s = landed(f, s, at_start);
    landed(f, s, at_end)
}

/// Stops the program where a range of a string does not run between characters.
#[verifier::opaque]
pub open spec fn emitted_string_range_boundaries<R: ConstantResolver, const P: usize, const N: usize>(
    f: Frame<R, P, N>,
    s: Emission,
    source: Seq<char>,
) -> Emission {
    let s = put(f, s, [0x49u8, 0x89, 0xc0]@);
    let s = emitted_slice_length(f, s, source);
    let s = put(f, s, [0x48u8, 0x89, 0xc2, 0x4c, 0x89, 0xc0]@);
    let s = put(f, s, [0x48u8, 0x8b, 0x4c, 0x24, 0x08]@);
    let s = emitted_string_boundary(f, s);
    let s = put(f, s, [0x48u8, 0x8b, 0x4c, 0x24, 0x08, 0x48, 0x03, 0x0c, 0x24]@);
    emitted_string_boundary(f, s)
}

/// Gathers the elements of a word, from one of them on.
#[verifier::opaque]
pub open spec fn emitted_packed<R: ConstantResolver, const P: usize, const N: usize>(
    f: Frame<R, P, N>,
    s: Emission,
    count: usize,
    element_bytes: usize,
    word: usize,
    index: usize,
) -> Emission
    decreases count - index,
{
    if index < count {
        let s = if stands_in_word(index, element_bytes, word) {
            let s = emitted_stack_slot(f, s, index);
            let s = if element_bytes == 1 {
                put(f, s, [0x0fu8, 0xb6, 0xc0]@)
            } else if element_bytes == 2 {
                put(f, s, [0x0fu8, 0xb7, 0xc0]@)
            } else if element_bytes == 4 {
                put(f, s, [0x89u8, 0xc0]@)
            } else if element_bytes != 8 {
                failed(f, s, CodegenErrorKind::UnsupportedReturnType)
            } else {
                s
            };
            let s = if shift_in_word(index, element_bytes) != 0 {
                put(f, s, [0x48u8, 0xc1, 0xe0, shift_in_word(index, element_bytes)]@)
            } else {
                s
            };
            put(f, s, [0x48u8, 0x09, 0xc2]@)
        } else {
            s
        };
        emitted_packed(f, s, count, element_bytes, word, (index + 1) as usize)
    } else {
        s
    }
}

/// Gathers the elements of a word of an array.
#[verifier::opaque]
pub open spec fn emitted_packed_word<R: ConstantResolver, const P: usize, const N: usize>(
    f: Frame<R, P, N>,
    s: Emission,
    count: usize,
    element_bytes: usize,
    word: usize,
) -> Emission {
    let s = put(f, s, [0x31u8, 0xd2]@);
    let s = emitted_packed(f, s, count, element_bytes, word, 0);
    put(f, s, [0x48u8, 0x89, 0xd0]@)
}

/// Packs the words of an array, the last first.
#[verifier::opaque]
pub open spec fn emitted_packed_words<R: ConstantResolver, const P: usize, const N: usize>(
    f: Frame<R, P, N>,
    s: Emission,
    count: usize,
    element_bytes: usize,
    local_slots: usize,
    words: usize,
) -> Emission
    decreases words,
{
    if words > 0 {
        let s = emitted_packed_word(f, s, count, element_bytes, (words - 1) as usize);
        let s = match place_of_packed(count, local_slots, (words - 1) as usize) {
            None => {
                failed(f, s, CodegenErrorKind::OutputTooSmall)
            },
            Some(destination) => {
                emitted_store_stack_slot(f, s, destination)
            },
        };
        emitted_packed_words(f, s, count, element_bytes, local_slots, (words - 1) as usize)
    } else {
        s
    }
}

/// Packs an array on top of the stack as a local holds it.
#[verifier::opaque]
pub open spec fn emitted_packed_array<R: ConstantResolver, const P: usize, const N: usize>(
    f: Frame<R, P, N>,
    s: Emission,
    element: RuntimeArrayElementType,
    count: usize,
) -> Emission {
    match packed_form(element, count) {
        None => {
            s
        },
        Some((element_bytes, local_slots)) => {
            let s = emitted_packed_words(f, s, count, element_bytes, local_slots, local_slots);
            let s = released(f, s, excess(count, local_slots));
            emitted_slots_cleanup(f, s, excess(count, local_slots))
        },
    }
}

/// Turns the slots on top of the stack around, from one of them on.
#[verifier::opaque]
pub open spec fn emitted_swapped<R: ConstantResolver, const P: usize, const N: usize>(
    f: Frame<R, P, N>,
    s: Emission,
    count: usize,
    half: usize,
    index: usize,
) -> Emission
    decreases half - index,
{
    if index < half {
        let s = emitted_stack_slot(f, s, index);
        let s = put(f, s, [0x48u8, 0x89, 0xc2]@);
        let s = emitted_stack_slot(f, s, mirrored(count, index));
        let s = emitted_store_stack_slot(f, s, index);
        let s = put(f, s, [0x48u8, 0x89, 0xd0]@);
        let s = emitted_store_stack_slot(f, s, mirrored(count, index));
        emitted_swapped(f, s, count, half, (index + 1) as usize)
    } else {
        s
    }
}

/// Copies the slot on top of the stack.
#[verifier::opaque]
pub open spec fn emitted_copies<R: ConstantResolver, const P: usize, const N: usize>(
    f: Frame<R, P, N>,
    s: Emission,
    count: usize,
    index: usize,
) -> Emission
    decreases count - index,
{
    if index < count {
        let s = emitted_stack_slot(f, s, 0);
        let s = put(f, s, [0x50u8]@);
        let s = raised(f, s, 1);
        emitted_copies(f, s, count, (index + 1) as usize)
    } else {
        s
    }
}

/// Moves slots from the top of the stack to a local, from one of them on.
#[verifier::opaque]
pub open spec fn emitted_moved_slots<R: ConstantResolver, const P: usize, const N: usize>(
    f: Frame<R, P, N>,
    s: Emission,
    count: usize,
    later: usize,
    slot: usize,
) -> Emission
    decreases count - slot,
{
    if slot < count {
        let s = emitted_stack_slot(f, s, slot);
        let s = match sum_of_three(count, later, slot) {
            None => {
                failed(f, s, CodegenErrorKind::OutputTooSmall)
            },
            Some(destination) => {
                emitted_store_stack_slot(f, s, destination)
            },
        };
        emitted_moved_slots(f, s, count, later, (slot + 1) as usize)
    } else {
        s
    }
}

/// Stores the elements of a result where the caller wants them, from one of them on.
#[verifier::opaque]
pub open spec fn emitted_result_elements<R: ConstantResolver, const P: usize, const N: usize>(
    f: Frame<R, P, N>,
    s: Emission,
    count: usize,
    element_bytes: usize,
    index: usize,
) -> Emission
    decreases count - index,
{
    if index < count {
        let s = emitted_stack_slot(f, s, index);
        let s = match offset_of(index, element_bytes) {
            None => {
                failed(f, s, CodegenErrorKind::OutputTooSmall)
            },
            Some(displacement) => {
                if element_bytes == 1 {
                    put(f, s, [0x88u8, 0x42, displacement]@)
                } else if element_bytes == 2 {
                    put(f, s, [0x66u8, 0x89, 0x42, displacement]@)
                } else if element_bytes == 4 {
                    put(f, s, [0x89u8, 0x42, displacement]@)
                } else if element_bytes == 8 && displacement == 0 {
                    put(f, s, [0x48u8, 0x89, 0x02]@)
                } else if element_bytes == 8 {
                    put(f, s, [0x48u8, 0x89, 0x42, displacement]@)
                } else {
                    failed(f, s, CodegenErrorKind::UnsupportedReturnType)
                }
            },
        };
        emitted_result_elements(f, s, count, element_bytes, (index + 1) as usize)
    } else {
        s
    }
}

/// Compares the index in a slot with a number and goes on elsewhere if they differ.
#[verifier::opaque]
pub open spec fn emitted_candidate<R: ConstantResolver, const P: usize, const N: usize>(
    f: Frame<R, P, N>,
    s: Emission,
    index_slot: usize,
    candidate: usize,
) -> (Emission, usize) {
    let s = emitted_stack_slot(f, s, index_slot);
    let s = put(f, s, [0x48u8, 0x83, 0xf8, candidate as u8]@);
    let other = branch_place(s, 2);
    let s = put(f, s, [0x0fu8, 0x85, 0, 0, 0, 0]@);
    (s, other)
}

/// Loads the slot that an index chooses, from one of them on; the branches found so far lead on.
#[verifier::opaque]
pub open spec fn emitted_chosen_slots<R: ConstantResolver, const P: usize, const N: usize>(
    f: Frame<R, P, N>,
    s: Emission,
    index_slot: usize,
    first: usize,
    count: usize,
    candidate: usize,
) -> Emission
    decreases count - candidate,
{
    if candidate < count {
        let (s, other) = emitted_candidate(f, s, index_slot, candidate);
        let s = match sum_of(first, candidate) {
            None => {
                failed(f, s, CodegenErrorKind::OutputTooSmall)
            },
            Some(slot) => {
                emitted_stack_slot(f, s, slot)
            },
        };
        let end = branch_place(s, 1);
        let s = put(f, s, [0xe9u8, 0, 0, 0, 0]@);
        let s = landed(f, s, other);
        let s = emitted_chosen_slots(f, s, index_slot, first, count, (candidate + 1) as usize);
        landed(f, s, end)
    } else {
        put(f, s, [0x0fu8, 0x0b]@)
    }
}

/// Stores the top of the stack into the slot that an index chooses, from one of them on.
#[verifier::opaque]
pub open spec fn emitted_chosen_stores<R: ConstantResolver, const P: usize, const N: usize>(
    f: Frame<R, P, N>,
    s: Emission,
    index_slot: usize,
    first: usize,
    count: usize,
    candidate: usize,
) -> Emission
    decreases count - candidate,
{
    if candidate < count {
        let (s, other) = emitted_candidate(f, s, index_slot, candidate);
        let s = emitted_stack_slot(f, s, 0);
        let s = match sum_of(first, candidate) {
            None => {
                failed(f, s, CodegenErrorKind::OutputTooSmall)
            },
            Some(slot) => {
                emitted_store_stack_slot(f, s, slot)
            },
        };
        let end = branch_place(s, 1);
        let s = put(f, s, [0xe9u8, 0, 0, 0, 0]@);
        let s = landed(f, s, other);
        let s = emitted_chosen_stores(f, s, index_slot, first, count, (candidate + 1) as usize);
        landed(f, s, end)
    } else {
        put(f, s, [0x0fu8, 0x0b]@)
    }
}

/// Loads the element of a local that an index in a slot chooses.
#[verifier::opaque]
pub open spec fn emitted_local_element<R: ConstantResolver, const P: usize, const N: usize>(
    f: Frame<R, P, N>,
    s: Emission,
    local_index: usize,
    element: RuntimeArrayElementType,
    count: usize,
    index_slot: usize,
) -> Emission {
    match place_of_elements(slots_from(s.locals, place_from(local_index, 1)), s.temporaries) {
        None => {
            failed(f, s, CodegenErrorKind::OutputTooSmall)
        },
        Some(first) => {
            match element_bytes(element) {
                None => {
                    failed(f, s, CodegenErrorKind::UnsupportedRuntimeType)
                },
                Some(bytes) => {
                    if bytes == 1 || bytes == 2 || bytes == 4 {
                        let s = emitted_stack_slot(f, s, index_slot);
                        let s = put(f, s, [0x48u8, 0x89, 0xc1]@);
                        let s = emitted_stack_slot_address(f, s, first);
                        let s = emitted_element_address(f, s, bytes);
                        emitted_reference_load(f, s, element)
                    } else {
                        emitted_chosen_slots(f, s, index_slot, first, count, 0)
                    }
                },
            }
        },
    }
}

/// Stores the top of the stack into the element of a local that an index in a slot chooses.
#[verifier::opaque]
pub open spec fn emitted_local_element_store<R: ConstantResolver, const P: usize, const N: usize>(
    f: Frame<R, P, N>,
    s: Emission,
    local_index: usize,
    element: RuntimeArrayElementType,
    count: usize,
    index_slot: usize,
) -> Emission {
    match place_of_elements(slots_from(s.locals, place_from(local_index, 1)), s.temporaries) {
        None => {
            failed(f, s, CodegenErrorKind::OutputTooSmall)
        },
        Some(first) => {
            match element_bytes(element) {
                None => {
                    failed(f, s, CodegenErrorKind::UnsupportedRuntimeType)
                },
                Some(bytes) => {
                    if bytes == 1 || bytes == 2 || bytes == 4 {
                        let s = emitted_stack_slot(f, s, index_slot);
                        let s = put(f, s, [0x48u8, 0x89, 0xc1]@);
                        let s = emitted_stack_slot_address(f, s, first);
                        let s = put(f, s, [0x48u8, 0x89, 0xc2]@);
                        let s = emitted_element_store_address(f, s, bytes);
                        let s = emitted_stack_slot(f, s, 0);
                        emitted_reference_store(f, s, element)
                    } else {
                        emitted_chosen_stores(f, s, index_slot, first, count, 0)
                    }
                },
            }
        },
    }
}

/// Drops the locals behind some number of them from the stack.
#[verifier::opaque]
pub open spec fn emitted_cleanup_to<R: ConstantResolver, const P: usize, const N: usize>(
    f: Frame<R, P, N>,
    s: Emission,
    checkpoint: usize,
) -> Emission {
    if checkpoint > number_of_locals(s.locals) {
        failed(f, s, CodegenErrorKind::OutputTooSmall)
    } else {
        match slots_from(s.locals, checkpoint) {
            None => {
                failed(f, s, CodegenErrorKind::OutputTooSmall)
            },
            Some(slots) => {
                emitted_slots_cleanup(f, s, slots)
            },
        }
    }
}

/// Drops the locals behind some number of them.
#[verifier::opaque]
pub open spec fn emitted_scoped_cleanup<R: ConstantResolver, const P: usize, const N: usize>(
    f: Frame<R, P, N>,
    s: Emission,
    checkpoint: usize,
) -> Emission {
    let s = emitted_cleanup_to(f, s, checkpoint);
    truncated(f, s, checkpoint)
}

} // verus!
