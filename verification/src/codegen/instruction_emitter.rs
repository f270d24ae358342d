//! Making the code of single steps.
use crate::codegen::error::CodegenErrorKind;
use crate::codegen::frame::{
    X86_64Abi, find_local, find_parameter, translate_place,
};
use crate::codegen::runtime::{
    RuntimeArrayElementType, RuntimeExpressionType, RuntimeWidth, char_width,
    checked_product, checked_sum, element_bytes, integer_width, local_slots,
    runtime_array_abi_layout, runtime_array_element_bytes,
};
use crate::codegen::types::runtime_reference_type;
use crate::expression::ConstantResolver;
use crate::grammar::Word;
use crate::integer::BinaryOperator;
use crate::text::same_text;
use crate::codegen::emitter::{
    RuntimeEmitter, element_offset, is_in_word, local_stack_slots_from,
    parameter_stack_slots_from, register_for_name, runtime_array_elements_in_word,
    word_shift,
};
use crate::codegen::encoding::{
    ParameterPassing, condition_code, difference, element_place, fat_extra, find_fat_local,
    find_fat_parameter, is_pointer_text, local_count, mirror, packed_destination, packing,
    parameter_passing, parameter_push_encoding, register_load, shift_mask, stack_parameter,
    three_sum, words_behind,
};
use crate::codegen::instructions::{
    emitted_binary, emitted_candidate, emitted_carry_check, emitted_chosen_slots,
    emitted_chosen_stores, emitted_cleanup, emitted_cleanup_bytes, emitted_cleanup_to,
    emitted_constant, emitted_constant_name, emitted_copies, emitted_difference,
    emitted_division, emitted_element_address, emitted_element_store_address,
    emitted_epilogue, emitted_identifier, emitted_identifier_address,
    emitted_indexed_address, emitted_indexed_store_address, emitted_local_element,
    emitted_local_element_store, emitted_local_name, emitted_moved_slots,
    emitted_multiplication, emitted_negated, emitted_normal, emitted_normal_element, emitted_normal_width,
    emitted_original_load, emitted_original_push, emitted_packed, emitted_packed_array,
    emitted_packed_word, emitted_packed_words, emitted_parameter_load,
    emitted_parameter_name, emitted_parameter_push, emitted_parameter_slot,
    emitted_pointed_elements, emitted_prologue, emitted_range_check, emitted_reference_load,
    emitted_reference_store, emitted_register_load, emitted_register_words,
    emitted_result_elements, emitted_scoped_cleanup, emitted_shift, emitted_slice_length,
    emitted_slot_of, emitted_slots_cleanup, emitted_stack_access, emitted_stack_slot,
    emitted_stack_slot_address, emitted_stack_words, emitted_store_stack_slot,
    emitted_string_boundary, emitted_string_range_boundaries, emitted_sum, emitted_swapped,
    emitted_system_v_parameters, emitted_unpacked, emitted_unpacked_word,
    emitted_wide_access, emitted_windows_array, emitted_windows_parameters,
    emitted_windows_word, emitted_zero_array, emitted_zero_slots,
};
use crate::codegen::typing_rules::comparison;
use vstd::prelude::*;

verus! {

impl<'a, 'source, R: ConstantResolver, const P: usize, const N: usize> RuntimeEmitter<
    'a,
    'source,
    R,
    P,
    N,
> {
    pub(crate) fn emit_wide_access(
        &mut self,
        opcode: u8,
        displacement: usize,
        kind: CodegenErrorKind,
    )
        ensures
            final(self)@ == emitted_wide_access(old(self).frame, old(self)@, opcode, displacement, kind),
            final(self).continues(*old(self)),
            final(self).balances(*old(self)),
    {
        proof {
            reveal(emitted_wide_access);
        }
        if displacement <= 127 {
            self.emit([0x48u8, opcode, 0x44, 0x24, displacement as u8]);
        } else if displacement <= 0xffff_ffff {
            self.emit([0x48u8, opcode, 0x84, 0x24]);
            self.emit_word(displacement);
        } else {
            self.fail(kind);
        }
    }

    pub(crate) fn emit_stack_access(&mut self, opcode: u8, slots: usize)
        ensures
            final(self)@ == emitted_stack_access(old(self).frame, old(self)@, opcode, slots),
            final(self).continues(*old(self)),
            final(self).balances(*old(self)),
    {
        proof {
            reveal(emitted_stack_access);
        }
        match checked_product(slots, 8) {
            None => {
                self.fail(CodegenErrorKind::OutputTooSmall);
            },
            Some(displacement) => {
                self.emit_wide_access(opcode, displacement, CodegenErrorKind::OutputTooSmall);
            },
        }
    }

    pub(crate) fn emit_stack_slot(&mut self, slots: usize)
        ensures
            final(self)@ == emitted_stack_slot(old(self).frame, old(self)@, slots),
            final(self).continues(*old(self)),
            final(self).balances(*old(self)),
    {
        proof {
            reveal(emitted_stack_slot);
        }
        self.emit_stack_access(0x8b, slots);
    }

    pub(crate) fn emit_stack_slot_address(&mut self, slots: usize)
        ensures
            final(self)@ == emitted_stack_slot_address(old(self).frame, old(self)@, slots),
            final(self).continues(*old(self)),
            final(self).balances(*old(self)),
    {
        proof {
            reveal(emitted_stack_slot_address);
        }
        self.emit_stack_access(0x8d, slots);
    }

    pub(crate) fn emit_store_stack_slot(&mut self, slots: usize)
        ensures
            final(self)@ == emitted_store_stack_slot(old(self).frame, old(self)@, slots),
            final(self).continues(*old(self)),
            final(self).balances(*old(self)),
    {
        proof {
            reveal(emitted_store_stack_slot);
        }
        self.emit_stack_access(0x89, slots);
    }

    pub(crate) fn emit_cleanup(&mut self, bytes: usize, kind: CodegenErrorKind)
        ensures
            final(self)@ == emitted_cleanup(old(self).frame, old(self)@, bytes, kind),
            final(self).continues(*old(self)),
            final(self).balances(*old(self)),
    {
        proof {
            reveal(emitted_cleanup);
        }
        if bytes == 0 {
        } else if bytes <= 127 {
            self.emit([0x48u8, 0x83, 0xc4, bytes as u8]);
        } else if bytes <= 0xffff_ffff {
            self.emit([0x48u8, 0x81, 0xc4]);
            self.emit_word(bytes);
        } else {
            self.fail(kind);
        }
    }

    pub(crate) fn emit_stack_cleanup_bytes(&mut self, bytes: usize)
        ensures
            final(self)@ == emitted_cleanup_bytes(old(self).frame, old(self)@, bytes),
            final(self).continues(*old(self)),
            final(self).balances(*old(self)),
    {
        proof {
            reveal(emitted_cleanup_bytes);
        }
        self.emit_cleanup(bytes, CodegenErrorKind::OutputTooSmall);
    }

    pub(crate) fn emit_slots_cleanup(&mut self, slots: usize)
        ensures
            final(self)@ == emitted_slots_cleanup(old(self).frame, old(self)@, slots),
            final(self).continues(*old(self)),
            final(self).balances(*old(self)),
    {
        proof {
            reveal(emitted_slots_cleanup);
        }
        match checked_product(slots, 8) {
            None => {
                self.fail(CodegenErrorKind::OutputTooSmall);
            },
            Some(bytes) => {
                self.emit_stack_cleanup_bytes(bytes);
            },
        }
    }

    pub(crate) fn emit_original_stack_word_load(
        &mut self,
        original_offset: usize,
        pushed_slots: usize,
    )
        ensures
            final(self)@ == emitted_original_load(old(self).frame, old(self)@, original_offset, pushed_slots),
            final(self).continues(*old(self)),
            final(self).balances(*old(self)),
    {
        proof {
            reveal(emitted_original_load);
        }
        match checked_product(pushed_slots, 8) {
            None => {
                self.fail(CodegenErrorKind::TooManyAbiParameters);
            },
            Some(delta) => {
                match checked_sum(original_offset, delta) {
                    None => {
                        self.fail(CodegenErrorKind::TooManyAbiParameters);
                    },
                    Some(displacement) => {
                        self.emit_wide_access(0x8b, displacement, CodegenErrorKind::TooManyAbiParameters);
                    },
                }
            },
        }
    }

    pub(crate) fn emit_original_stack_word_push(
        &mut self,
        original_offset: usize,
        pushed_slots: usize,
    )
        ensures
            final(self)@ == emitted_original_push(old(self).frame, old(self)@, original_offset, pushed_slots),
            final(self).continues(*old(self)),
            final(self).balances(*old(self)),
    {
        proof {
            reveal(emitted_original_push);
        }
        self.emit_original_stack_word_load(original_offset, pushed_slots);
        self.emit([0x50u8]);
    }

    pub(crate) fn emit_epilogue(&mut self)
        ensures
            final(self)@ == emitted_epilogue(old(self).frame, old(self)@),
            final(self).continues(*old(self)),
            final(self).lengthens(*old(self)),
            final(self).balances(*old(self)),
    {
        proof {
            reveal(emitted_epilogue);
        }
        match local_stack_slots_from(&self.locals, 0) {
            None => {
                self.fail(CodegenErrorKind::OutputTooSmall);
            },
            Some(locals) => {
                match checked_sum(self.frame.saved_parameter_slots, locals) {
                    None => {
                        self.fail(CodegenErrorKind::OutputTooSmall);
                    },
                    Some(slots) => {
                        match checked_product(slots, 8) {
                            None => {
                                self.fail(CodegenErrorKind::OutputTooSmall);
                            },
                            Some(bytes) => {
                                self.emit_cleanup(bytes, CodegenErrorKind::TooManyAbiParameters);
                                self.emit([0xc3u8]);
                            },
                        }
                    },
                }
            },
        }
    }

    pub(crate) fn emit_constant(&mut self, value: u64)
        ensures
            final(self)@ == emitted_constant(old(self).frame, old(self)@, value),
            final(self).continues(*old(self)),
            final(self).balances(*old(self)),
    {
        proof {
            reveal(emitted_constant);
        }
        self.emit([0x48u8, 0xb8]);
        self.emit_quad(value);
    }

    pub(crate) fn emit_parameter_register_load(&mut self, abi: X86_64Abi, index: usize)
        ensures
            final(self)@ == emitted_register_load(old(self).frame, old(self)@, abi, index),
            final(self).continues(*old(self)),
            final(self).balances(*old(self)),
    {
        proof {
            reveal(emitted_register_load);
        }
        match register_load(abi, index) {
            None => {
                self.fail(CodegenErrorKind::TooManyAbiParameters);
            },
            Some((first, third)) => {
                self.emit([first, 0x89, third]);
            },
        }
    }

    pub(crate) fn emit_parameter_register_or_stack_load(
        &mut self,
        index: usize,
        pushed_slots: usize,
    )
        ensures
            final(self)@ == emitted_parameter_load(old(self).frame, old(self)@, index, pushed_slots),
            final(self).continues(*old(self)),
            final(self).balances(*old(self)),
    {
        proof {
            reveal(emitted_parameter_load);
        }
        if index < 4 {
            self.emit_parameter_register_load(X86_64Abi::Windows, index);
        } else {
            match stack_parameter(index) {
                None => {
                    self.fail(CodegenErrorKind::TooManyAbiParameters);
                },
                Some(original) => {
                    self.emit_original_stack_word_load(original, pushed_slots);
                },
            }
        }
    }

    pub(crate) fn emit_parameter_push(&mut self, abi: X86_64Abi, index: usize)
        ensures
            final(self)@ == emitted_parameter_push(old(self).frame, old(self)@, abi, index),
            final(self).continues(*old(self)),
            final(self).balances(*old(self)),
    {
        proof {
            reveal(emitted_parameter_push);
        }
        match parameter_push_encoding(abi, index) {
            None => {
                self.fail(CodegenErrorKind::TooManyAbiParameters);
            },
            Some((false, register)) => {
                self.emit([register]);
            },
            Some((true, register)) => {
                self.emit([0x41u8, register]);
            },
        }
    }

    pub(crate) fn emit_windows_parameter_word(&mut self, index: usize, pushed_slots: usize)
        ensures
            final(self)@ == emitted_windows_word(old(self).frame, old(self)@, index, pushed_slots),
            final(self).continues(*old(self)),
            final(self).balances(*old(self)),
    {
        proof {
            reveal(emitted_windows_word);
        }
        if index < 4 {
            self.emit_parameter_push(X86_64Abi::Windows, index);
        } else {
            match stack_parameter(index) {
                None => {
                    self.fail(CodegenErrorKind::TooManyAbiParameters);
                },
                Some(original) => {
                    self.emit_original_stack_word_push(original, pushed_slots);
                },
            }
        }
    }

    pub(crate) fn emit_unpack_elements(
        &mut self,
        element_bytes: usize,
        count: usize,
        word: usize,
        index: usize,
    )
        ensures
            final(self)@ == emitted_unpacked(old(self).frame, old(self)@, element_bytes, count, word, index),
            final(self).continues(*old(self)),
            final(self).balances(*old(self)),
        decreases count - index,
    {
        proof {
            reveal(emitted_unpacked);
        }
        if index < count {
            if is_in_word(index, element_bytes, word) {
                self.emit([0x49u8, 0x89, 0xc2]);
                if word_shift(index, element_bytes) != 0 {
                    self.emit([0x49u8, 0xc1, 0xea, word_shift(index, element_bytes)]);
                }
                if element_bytes == 1 {
                    self.emit([0x45u8, 0x0f, 0xb6, 0xd2]);
                } else if element_bytes == 2 {
                    self.emit([0x45u8, 0x0f, 0xb7, 0xd2]);
                } else if element_bytes != 4 && element_bytes != 8 {
                    self.fail(CodegenErrorKind::UnsupportedParameterType);
                }
                self.emit([0x41u8, 0x52]);
            }
            self.emit_unpack_elements(element_bytes, count, word, index + 1);
        }
    }

    pub(crate) fn emit_unpack_array_word(
        &mut self,
        element_bytes: usize,
        count: usize,
        word: usize,
    )
        ensures
            final(self)@ == emitted_unpacked_word(old(self).frame, old(self)@, element_bytes, count, word),
            final(self).continues(*old(self)),
            final(self).balances(*old(self)),
    {
        proof {
            reveal(emitted_unpacked_word);
        }
        self.emit_unpack_elements(element_bytes, count, word, 0);
    }

    pub(crate) fn emit_zero_slots(&mut self, count: usize)
        ensures
            final(self)@ == emitted_zero_slots(old(self).frame, old(self)@, count),
            final(self).continues(*old(self)),
            final(self).balances(*old(self)),
        decreases count,
    {
        proof {
            reveal(emitted_zero_slots);
        }
        if count > 0 {
            self.emit([0x50u8]);
            self.emit_zero_slots(count - 1);
        }
    }

    pub(crate) fn emit_zero_array_slots(&mut self, count: usize)
        ensures
            final(self)@ == emitted_zero_array(old(self).frame, old(self)@, count),
            final(self).continues(*old(self)),
            final(self).balances(*old(self)),
    {
        proof {
            reveal(emitted_zero_array);
        }
        if count != 0 {
            self.emit([0x31u8, 0xc0]);
        }
        self.emit_zero_slots(count);
    }

    pub(crate) fn emit_compact_pointer_array_pushes(
        &mut self,
        element_bytes: usize,
        count: usize,
        index: usize,
    )
        ensures
            final(self)@ == emitted_pointed_elements(
                old(self).frame,
                old(self)@,
                element_bytes,
                count,
                index,
            ),
            final(self).continues(*old(self)),
            final(self).balances(*old(self)),
        decreases count - index,
    {
        proof {
            reveal(emitted_pointed_elements);
        }
        if index < count {
            match element_offset(index, element_bytes) {
                None => {
                    self.fail(CodegenErrorKind::TooManyAbiParameters);
                },
                Some(displacement) => {
                    if element_bytes == 1 {
                        self.emit([0x44u8, 0x0f, 0xb6, 0x50, displacement]);
                    } else if element_bytes == 2 {
                        self.emit([0x44u8, 0x0f, 0xb7, 0x50, displacement]);
                    } else if element_bytes == 4 {
                        self.emit([0x44u8, 0x8b, 0x50, displacement]);
                    } else if element_bytes == 8 && displacement == 0 {
                        self.emit([0x4cu8, 0x8b, 0x10]);
                    } else if element_bytes == 8 {
                        self.emit([0x4cu8, 0x8b, 0x50, displacement]);
                    } else {
                        self.fail(CodegenErrorKind::UnsupportedParameterType);
                    }
                    self.emit([0x41u8, 0x52]);
                },
            }
            self.emit_compact_pointer_array_pushes(element_bytes, count, index + 1);
        }
    }

    pub(crate) fn emit_windows_array(
        &mut self,
        array: RuntimeExpressionType,
        count: usize,
        abi_index: usize,
        pushed: usize,
    )
        ensures
            final(self)@ == emitted_windows_array(
                old(self).frame,
                old(self)@,
                array,
                count,
                abi_index,
                pushed,
            ),
            final(self).continues(*old(self)),
            final(self).balances(*old(self)),
    {
        proof {
            reveal(emitted_windows_array);
        }
        match runtime_array_abi_layout(array) {
            None => {
                self.fail(CodegenErrorKind::UnsupportedParameterType);
            },
            Some(layout) => {
                if layout.bytes == 0 {
                    self.emit_zero_array_slots(count);
                } else if layout.bytes == 1 || layout.bytes == 2 || layout.bytes == 4 || layout.bytes == 8 {
                    self.emit_parameter_register_or_stack_load(abi_index, pushed);
                    self.emit_unpack_array_word(layout.element_bytes, count, 0);
                } else {
                    self.emit_parameter_register_or_stack_load(abi_index, pushed);
                    self.emit_compact_pointer_array_pushes(layout.element_bytes, count, 0);
                }
            },
        }
    }

    pub(crate) fn emit_windows_parameters(
        &mut self,
        index: usize,
        abi_index: usize,
        pushed: usize,
    )
        ensures
            final(self)@ == emitted_windows_parameters(
                old(self).frame,
                old(self)@,
                index as int,
                abi_index,
                pushed,
            ),
            final(self).continues(*old(self)),
            final(self).balances(*old(self)),
        decreases self.frame.function.parameters@.len() - index,
    {
        proof {
            reveal(emitted_windows_parameters);
        }
        if index < self.frame.function.parameters.len() {
            match parameter_passing(self.frame.function.parameters[index].ty.text) {
                ParameterPassing::Fat => {
                    self.emit_parameter_register_or_stack_load(abi_index, pushed);
                    self.emit([0x4cu8, 0x8b, 0x10, 0x41, 0x52]);
                    self.emit([0x4cu8, 0x8b, 0x50, 0x08, 0x41, 0x52]);
                    self.emit_windows_parameters(
                        index + 1,
                        translate_place(abi_index, 1),
                        translate_place(pushed, 2),
                    );
                },
                ParameterPassing::Array { array, count } => {
                    self.emit_windows_array(array, count, abi_index, pushed);
                    self.emit_windows_parameters(
                        index + 1,
                        translate_place(abi_index, 1),
                        translate_place(pushed, count),
                    );
                },
                ParameterPassing::Word => {
                    self.emit_windows_parameter_word(abi_index, pushed);
                    self.emit_windows_parameters(
                        index + 1,
                        translate_place(abi_index, 1),
                        translate_place(pushed, 1),
                    );
                },
            }
        }
    }

    pub(crate) fn emit_register_words(
        &mut self,
        element_bytes: usize,
        count: usize,
        word: usize,
        words: usize,
        register: usize,
    )
        ensures
            final(self)@ == emitted_register_words(
                old(self).frame,
                old(self)@,
                element_bytes,
                count,
                word,
                words,
                register,
            ),
            final(self).continues(*old(self)),
            final(self).balances(*old(self)),
        decreases words - word,
    {
        proof {
            reveal(emitted_register_words);
        }
        if word < words {
            self.emit_parameter_register_load(X86_64Abi::SystemV, register);
            self.emit_unpack_array_word(element_bytes, count, word);
            self.emit_register_words(element_bytes, count, word + 1, words, translate_place(register, 1));
        }
    }

    pub(crate) fn emit_stack_words(
        &mut self,
        element_bytes: usize,
        count: usize,
        word: usize,
        words: usize,
        offset: usize,
        pushed: usize,
    )
        ensures
            final(self)@ == emitted_stack_words(
                old(self).frame,
                old(self)@,
                element_bytes,
                count,
                word,
                words,
                offset,
                pushed,
            ),
            final(self).continues(*old(self)),
            final(self).balances(*old(self)),
        decreases words - word,
    {
        proof {
            reveal(emitted_stack_words);
        }
        if word < words {
            self.emit_original_stack_word_load(offset, pushed);
            self.emit_unpack_array_word(element_bytes, count, word);
            match checked_sum(offset, 8) {
                None => {
                    self.fail(CodegenErrorKind::TooManyAbiParameters);
                },
                Some(offset) => {
                    self.emit_stack_words(
                        element_bytes,
                        count,
                        word + 1,
                        words,
                        offset,
                        translate_place(pushed, runtime_array_elements_in_word(element_bytes, count, word)),
                    );
                },
            }
        }
    }

    pub(crate) fn emit_system_v_parameters(
        &mut self,
        index: usize,
        register: usize,
        offset: usize,
        pushed: usize,
    )
        ensures
            final(self)@ == emitted_system_v_parameters(
                old(self).frame,
                old(self)@,
                index as int,
                register,
                offset,
                pushed,
            ),
            final(self).continues(*old(self)),
            final(self).balances(*old(self)),
        decreases self.frame.function.parameters@.len() - index,
    {
        proof {
            reveal(emitted_system_v_parameters);
        }
        if index < self.frame.function.parameters.len() {
            match parameter_passing(self.frame.function.parameters[index].ty.text) {
                ParameterPassing::Fat => {
                    if register <= 4 {
                        self.emit_parameter_register_load(X86_64Abi::SystemV, register);
                        self.emit([0x50u8]);
                        self.emit_parameter_register_load(X86_64Abi::SystemV, translate_place(register, 1));
                        self.emit([0x50u8]);
                        self.emit_system_v_parameters(
                            index + 1,
                            translate_place(register, 2),
                            offset,
                            translate_place(pushed, 2),
                        );
                    } else {
                        self.emit_original_stack_word_push(offset, pushed);
                        self.emit_original_stack_word_push(
                            translate_place(offset, 8),
                            translate_place(pushed, 1),
                        );
                        self.emit_system_v_parameters(
                            index + 1,
                            register,
                            translate_place(offset, 16),
                            translate_place(pushed, 2),
                        );
                    }
                },
                ParameterPassing::Array { array, count } => {
                    match runtime_array_abi_layout(array) {
                        None => {
                            self.fail(CodegenErrorKind::UnsupportedParameterType);
                        },
                        Some(layout) => {
                            if layout.words == 0 {
                                self.emit_zero_array_slots(count);
                                self.emit_system_v_parameters(
                                    index + 1,
                                    register,
                                    offset,
                                    translate_place(pushed, count),
                                );
                            } else if layout.words <= 2 && translate_place(register, layout.words) <= 6 {
                                self.emit_register_words(
                                    layout.element_bytes,
                                    count,
                                    0,
                                    layout.words,
                                    register,
                                );
                                self.emit_system_v_parameters(
                                    index + 1,
                                    translate_place(register, layout.words),
                                    offset,
                                    translate_place(pushed, count),
                                );
                            } else {
                                self.emit_stack_words(
                                    layout.element_bytes,
                                    count,
                                    0,
                                    layout.words,
                                    offset,
                                    pushed,
                                );
                                match words_behind(offset, layout.words) {
                                    None => {
                                        self.fail(CodegenErrorKind::TooManyAbiParameters);
                                    },
                                    Some(offset) => {
                                        self.emit_system_v_parameters(
                                            index + 1,
                                            register,
                                            offset,
                                            translate_place(pushed, count),
                                        );
                                    },
                                }
                            }
                        },
                    }
                },
                ParameterPassing::Word => {
                    if register < 6 {
                        self.emit_parameter_push(X86_64Abi::SystemV, register);
                        self.emit_system_v_parameters(
                            index + 1,
                            translate_place(register, 1),
                            offset,
                            translate_place(pushed, 1),
                        );
                    } else {
                        self.emit_original_stack_word_push(offset, pushed);
                        match checked_sum(offset, 8) {
                            None => {
                                self.fail(CodegenErrorKind::TooManyAbiParameters);
                            },
                            Some(offset) => {
                                self.emit_system_v_parameters(
                                    index + 1,
                                    register,
                                    offset,
                                    translate_place(pushed, 1),
                                );
                            },
                        }
                    }
                },
            }
        }
    }

    pub(crate) fn emit_prologue(&mut self)
        ensures
            final(self)@ == emitted_prologue(old(self).frame, old(self)@),
            final(self).continues(*old(self)),
            final(self).balances(*old(self)),
    {
        proof {
            reveal(emitted_prologue);
        }
        if self.frame.abi == X86_64Abi::Windows {
            if self.frame.uses_sret {
                self.emit([0x51u8]);
                self.emit_windows_parameters(0, 1, 1);
            } else {
                self.emit_windows_parameters(0, 0, 0);
            }
        } else {
            if self.frame.uses_sret {
                self.emit([0x57u8]);
                self.emit_system_v_parameters(0, 1, 8, 1);
            } else {
                self.emit_system_v_parameters(0, 0, 8, 0);
            }
        }
    }

    pub(crate) fn emit_normalize_width(&mut self, width: RuntimeWidth)
        ensures
            final(self)@ == emitted_normal_width(old(self).frame, old(self)@, width),
            final(self).continues(*old(self)),
            final(self).balances(*old(self)),
    {
        proof {
            reveal(emitted_normal_width);
        }
        if width.bits == 8 && !width.signed {
            self.emit([0x0fu8, 0xb6, 0xc0]);
        } else if width.bits == 16 && !width.signed {
            self.emit([0x0fu8, 0xb7, 0xc0]);
        } else if width.bits == 32 && !width.signed {
            self.emit([0x89u8, 0xc0]);
        } else if width.bits == 8 {
            self.emit([0x48u8, 0x0f, 0xbe, 0xc0]);
        } else if width.bits == 16 {
            self.emit([0x48u8, 0x0f, 0xbf, 0xc0]);
        } else if width.bits == 32 {
            self.emit([0x48u8, 0x63, 0xc0]);
        } else if width.bits != 64 {
            self.fail(CodegenErrorKind::UnsupportedRuntimeType);
        }
    }

    pub(crate) fn emit_normalize(&mut self)
        ensures
            final(self)@ == emitted_normal(old(self).frame, old(self)@),
            final(self).continues(*old(self)),
            final(self).balances(*old(self)),
    {
        proof {
            reveal(emitted_normal);
        }
        let width = self.width;
        self.emit_normalize_width(width);
    }

    pub(crate) fn emit_range_check(&mut self)
        ensures
            final(self)@ == emitted_range_check(old(self).frame, old(self)@),
            final(self).continues(*old(self)),
            final(self).balances(*old(self)),
    {
        proof {
            reveal(emitted_range_check);
        }
        let width = self.width;
        if width.bits != 64 {
            self.emit([0x48u8, 0xba]);
            self.emit_quad(width.maximum);
            self.emit([0x48u8, 0x39, 0xd0]);
            if width.signed {
                self.emit_trap_branch(0x8f);
                self.emit([0x48u8, 0xba]);
                self.emit_quad(width.minimum);
                self.emit([0x48u8, 0x39, 0xd0]);
                self.emit_trap_branch(0x8c);
            } else {
                self.emit_trap_branch(0x87);
            }
        }
    }

    pub(crate) fn emit_division(&mut self, remainder: bool)
        ensures
            final(self)@ == emitted_division(old(self).frame, old(self)@, remainder),
            final(self).continues(*old(self)),
            final(self).balances(*old(self)),
    {
        proof {
            reveal(emitted_division);
        }
        let width = self.width;
        self.emit([0x48u8, 0x87, 0xc1, 0x48, 0x85, 0xc9]);
        self.emit_trap_branch(0x84);
        if width.signed {
            self.emit([0x48u8, 0x83, 0xf9, 0xff, 0x75, 19]);
            self.emit([0x48u8, 0xba]);
            self.emit_quad(width.minimum);
            self.emit([0x48u8, 0x39, 0xd0]);
            self.emit_trap_branch(0x84);
            self.emit([0x48u8, 0x99, 0x48, 0xf7, 0xf9]);
        } else {
            self.emit([0x48u8, 0x31, 0xd2, 0x48, 0xf7, 0xf1]);
        }
        if remainder {
            self.emit([0x48u8, 0x89, 0xd0]);
        }
        self.emit_normalize();
    }

    pub(crate) fn emit_multiplication(&mut self)
        ensures
            final(self)@ == emitted_multiplication(old(self).frame, old(self)@),
            final(self).continues(*old(self)),
            final(self).balances(*old(self)),
    {
        proof {
            reveal(emitted_multiplication);
        }
        let width = self.width;
        self.emit([0x48u8, 0x87, 0xc1]);
        if width.signed {
            self.emit([0x48u8, 0x0f, 0xaf, 0xc1]);
        } else {
            self.emit([0x48u8, 0xf7, 0xe1, 0x48, 0x85, 0xd2]);
        }
        if self.overflow_checks && width.bits == 64 {
            if width.signed {
                self.emit_trap_branch(0x80);
            } else {
                self.emit_trap_branch(0x85);
            }
        } else if self.overflow_checks {
            self.emit_range_check();
        } else {
            self.emit_normalize();
        }
    }

    pub(crate) fn emit_carry_check(&mut self)
        ensures
            final(self)@ == emitted_carry_check(old(self).frame, old(self)@),
            final(self).continues(*old(self)),
            final(self).balances(*old(self)),
    {
        proof {
            reveal(emitted_carry_check);
        }
        let width = self.width;
        if width.signed {
            self.emit_trap_branch(0x80);
        } else {
            self.emit_trap_branch(0x82);
        }
    }

    pub(crate) fn emit_sum(&mut self)
        ensures
            final(self)@ == emitted_sum(old(self).frame, old(self)@),
            final(self).continues(*old(self)),
            final(self).balances(*old(self)),
    {
        proof {
            reveal(emitted_sum);
        }
        let width = self.width;
        self.emit([0x48u8, 0x01, 0xc8]);
        if self.overflow_checks && width.bits == 64 {
            self.emit_carry_check();
        } else if self.overflow_checks {
            self.emit_range_check();
        } else {
            self.emit_normalize();
        }
    }

    pub(crate) fn emit_difference(&mut self)
        ensures
            final(self)@ == emitted_difference(old(self).frame, old(self)@),
            final(self).continues(*old(self)),
            final(self).balances(*old(self)),
    {
        proof {
            reveal(emitted_difference);
        }
        let width = self.width;
        self.emit([0x48u8, 0x29, 0xc1]);
        if self.overflow_checks && width.bits == 64 {
            self.emit_carry_check();
        }
        self.emit([0x48u8, 0x89, 0xc8]);
        if self.overflow_checks && width.bits < 64 {
            self.emit_range_check();
        } else {
            self.emit_normalize();
        }
    }

    pub(crate) fn emit_shift(&mut self, left: bool)
        ensures
            final(self)@ == emitted_shift(old(self).frame, old(self)@, left),
            final(self).continues(*old(self)),
            final(self).balances(*old(self)),
    {
        proof {
            reveal(emitted_shift);
        }
        let width = self.width;
        self.emit([0x48u8, 0x87, 0xc1]);
        if self.overflow_checks {
            self.emit([0x48u8, 0x83, 0xf9, width.bits]);
            self.emit_trap_branch(0x83);
        } else {
            self.emit([0x83u8, 0xe1, shift_mask(width.bits)]);
        }
        if left {
            self.emit([0x48u8, 0xd3, 0xe0]);
        } else if width.signed {
            self.emit([0x48u8, 0xd3, 0xf8]);
        } else {
            self.emit([0x48u8, 0xd3, 0xe8]);
        }
        self.emit_normalize();
    }

    pub(crate) fn emit_negated(&mut self, width: RuntimeWidth)
        ensures
            final(self)@ == emitted_negated(old(self).frame, old(self)@, width),
            final(self).continues(*old(self)),
            final(self).balances(*old(self)),
    {
        proof {
            reveal(emitted_negated);
        }
        self.emit([0x48u8, 0xf7, 0xd8]);
        if self.overflow_checks && width.bits == 64 {
            self.emit_trap_branch(0x80);
        } else if self.overflow_checks {
            self.emit_range_check();
        }
        self.emit_normalize();
    }

    pub(crate) fn emit_binary(&mut self, operator: BinaryOperator)
        ensures
            final(self)@ == emitted_binary(old(self).frame, old(self)@, operator),
            final(self).continues(*old(self)),
            final(self).balances(*old(self)),
    {
        proof {
            reveal(emitted_binary);
        }
        let width = self.width;
        match operator {
            BinaryOperator::Add => {
                self.emit_sum();
            },
            BinaryOperator::Subtract => {
                self.emit_difference();
            },
            BinaryOperator::Multiply => {
                self.emit_multiplication();
            },
            BinaryOperator::Divide => {
                self.emit_division(false);
            },
            BinaryOperator::Remainder => {
                self.emit_division(true);
            },
            BinaryOperator::BitAnd => {
                self.emit([0x48u8, 0x21, 0xc8]);
            },
            BinaryOperator::BitOr => {
                self.emit([0x48u8, 0x09, 0xc8]);
            },
            BinaryOperator::BitXor => {
                self.emit([0x48u8, 0x31, 0xc8]);
            },
            BinaryOperator::ShiftLeft => {
                self.emit_shift(true);
            },
            BinaryOperator::ShiftRight => {
                self.emit_shift(false);
            },
            BinaryOperator::LogicalAnd | BinaryOperator::LogicalOr => {
                self.fail(CodegenErrorKind::UnsupportedRuntimeOperator);
            },
            comparison => {
                self.emit(
                    [0x48u8, 0x39, 0xc1, 0x0f, condition_code(comparison, width.signed), 0xc0, 0x0f, 0xb6, 0xc0],
                );
            },
        }
    }

    pub(crate) fn emit_reference_load(&mut self, pointee: RuntimeArrayElementType)
        ensures
            final(self)@ == emitted_reference_load(old(self).frame, old(self)@, pointee),
            final(self).continues(*old(self)),
            final(self).balances(*old(self)),
    {
        proof {
            reveal(emitted_reference_load);
        }
        match pointee {
            RuntimeArrayElementType::Bool => {
                self.emit([0x0fu8, 0xb6, 0x00]);
            },
            RuntimeArrayElementType::Char => {
                self.emit([0x8bu8, 0x00]);
            },
            RuntimeArrayElementType::Integer(Some(ty)) => {
                match integer_width(ty) {
                    None => {
                        self.fail(CodegenErrorKind::UnsupportedRuntimeType);
                    },
                    Some(width) => {
                        if width.bits == 8 && !width.signed {
                            self.emit([0x0fu8, 0xb6, 0x00]);
                        } else if width.bits == 8 {
                            self.emit([0x48u8, 0x0f, 0xbe, 0x00]);
                        } else if width.bits == 16 && !width.signed {
                            self.emit([0x0fu8, 0xb7, 0x00]);
                        } else if width.bits == 16 {
                            self.emit([0x48u8, 0x0f, 0xbf, 0x00]);
                        } else if width.bits == 32 && !width.signed {
                            self.emit([0x8bu8, 0x00]);
                        } else if width.bits == 32 {
                            self.emit([0x48u8, 0x63, 0x00]);
                        } else {
                            self.emit([0x48u8, 0x8b, 0x00]);
                        }
                    },
                }
            },
            _ => {
                self.fail(CodegenErrorKind::UnsupportedRuntimeType);
            },
        }
    }

    pub(crate) fn emit_reference_store(&mut self, pointee: RuntimeArrayElementType)
        ensures
            final(self)@ == emitted_reference_store(old(self).frame, old(self)@, pointee),
            final(self).continues(*old(self)),
            final(self).balances(*old(self)),
    {
        proof {
            reveal(emitted_reference_store);
        }
        match pointee {
            RuntimeArrayElementType::Bool => {
                self.emit([0x88u8, 0x02]);
            },
            RuntimeArrayElementType::Char => {
                self.emit([0x89u8, 0x02]);
            },
            RuntimeArrayElementType::Integer(Some(ty)) => {
                match integer_width(ty) {
                    None => {
                        self.fail(CodegenErrorKind::UnsupportedRuntimeType);
                    },
                    Some(width) => {
                        if width.bits == 8 {
                            self.emit([0x88u8, 0x02]);
                        } else if width.bits == 16 {
                            self.emit([0x66u8, 0x89, 0x02]);
                        } else if width.bits == 32 {
                            self.emit([0x89u8, 0x02]);
                        } else {
                            self.emit([0x48u8, 0x89, 0x02]);
                        }
                    },
                }
            },
            _ => {
                self.fail(CodegenErrorKind::UnsupportedRuntimeType);
            },
        }
    }

    pub(crate) fn emit_normalize_array_element(&mut self, element: RuntimeArrayElementType)
        ensures
            final(self)@ == emitted_normal_element(old(self).frame, old(self)@, element),
            final(self).continues(*old(self)),
            final(self).balances(*old(self)),
    {
        proof {
            reveal(emitted_normal_element);
        }
        match element {
            RuntimeArrayElementType::Bool => {
                self.emit([0x0fu8, 0xb6, 0xc0]);
            },
            RuntimeArrayElementType::Integer(_) => {
                self.emit_normalize();
            },
            RuntimeArrayElementType::Char => {
                self.emit_normalize_width(char_width());
            },
            _ => {},
        }
    }

    pub(crate) fn emit_element_address(&mut self, element_bytes: usize)
        ensures
            final(self)@ == emitted_element_address(old(self).frame, old(self)@, element_bytes),
            final(self).continues(*old(self)),
            final(self).balances(*old(self)),
    {
        proof {
            reveal(emitted_element_address);
        }
        if element_bytes == 1 {
            self.emit([0x48u8, 0x01, 0xc8]);
        } else if element_bytes == 2 {
            self.emit([0x48u8, 0x8d, 0x04, 0x48]);
        } else if element_bytes == 4 {
            self.emit([0x48u8, 0x8d, 0x04, 0x88]);
        } else if element_bytes == 8 {
            self.emit([0x48u8, 0x8d, 0x04, 0xc8]);
        } else {
            self.fail(CodegenErrorKind::UnsupportedRuntimeType);
        }
    }

    pub(crate) fn emit_element_store_address(&mut self, element_bytes: usize)
        ensures
            final(self)@ == emitted_element_store_address(old(self).frame, old(self)@, element_bytes),
            final(self).continues(*old(self)),
            final(self).balances(*old(self)),
    {
        proof {
            reveal(emitted_element_store_address);
        }
        if element_bytes == 1 {
            self.emit([0x48u8, 0x01, 0xca]);
        } else if element_bytes == 2 {
            self.emit([0x48u8, 0x8d, 0x14, 0x4a]);
        } else if element_bytes == 4 {
            self.emit([0x48u8, 0x8d, 0x14, 0x8a]);
        } else if element_bytes == 8 {
            self.emit([0x48u8, 0x8d, 0x14, 0xca]);
        } else {
            self.fail(CodegenErrorKind::UnsupportedRuntimeType);
        }
    }

    pub(crate) fn emit_reference_array_address_from_stack_index(&mut self, element_bytes: usize)
        ensures
            final(self)@ == emitted_indexed_address(old(self).frame, old(self)@, element_bytes),
            final(self).continues(*old(self)),
            final(self).balances(*old(self)),
    {
        proof {
            reveal(emitted_indexed_address);
        }
        self.emit([0x48u8, 0x8b, 0x4c, 0x24, 8]);
        if element_bytes != 0 {
            self.emit_element_address(element_bytes);
        }
    }

    pub(crate) fn emit_reference_array_store_address_from_stack_index(
        &mut self,
        element_bytes: usize,
    )
        ensures
            final(self)@ == emitted_indexed_store_address(old(self).frame, old(self)@, element_bytes),
            final(self).continues(*old(self)),
            final(self).balances(*old(self)),
    {
        proof {
            reveal(emitted_indexed_store_address);
        }
        self.emit([0x48u8, 0x8b, 0x4c, 0x24, 8]);
        self.emit_element_store_address(element_bytes);
    }

    pub(crate) fn emit_slot_of(
        &mut self,
        opcode: u8,
        later: Option<usize>,
        more: usize,
        kind: CodegenErrorKind,
    )
        ensures
            final(self)@ == emitted_slot_of(old(self).frame, old(self)@, opcode, later, more, kind),
            final(self).continues(*old(self)),
            final(self).balances(*old(self)),
    {
        proof {
            reveal(emitted_slot_of);
        }
        match later {
            None => {
                self.fail(CodegenErrorKind::OutputTooSmall);
            },
            Some(later) => {
                match three_sum(later, more, self.temporaries) {
                    None => {
                        self.fail(kind);
                    },
                    Some(slots) => {
                        self.emit_stack_access(opcode, slots);
                    },
                }
            },
        }
    }

    pub(crate) fn emit_parameter_slot(
        &mut self,
        opcode: u8,
        index: usize,
        more: usize,
        kind: CodegenErrorKind,
    )
        ensures
            final(self)@ == emitted_parameter_slot(old(self).frame, old(self)@, opcode, index, more, kind),
            final(self).continues(*old(self)),
            final(self).balances(*old(self)),
    {
        proof {
            reveal(emitted_parameter_slot);
        }
        match local_stack_slots_from(&self.locals, 0) {
            None => {
                self.fail(CodegenErrorKind::OutputTooSmall);
            },
            Some(locals) => {
                match parameter_stack_slots_from(&self.frame.function.parameters, index) {
                    None => {
                        self.fail(CodegenErrorKind::TooManyAbiParameters);
                    },
                    Some(parameters) => {
                        match checked_sum(locals, parameters) {
                            None => {
                                self.fail(kind);
                            },
                            Some(later) => {
                                self.emit_slot_of(opcode, Some(later), more, kind);
                            },
                        }
                    },
                }
            },
        }
    }

    pub(crate) fn emit_constant_name(&mut self, name: &str)
        ensures
            final(self)@ == emitted_constant_name(old(self).frame, old(self)@, name@),
            final(self).continues(*old(self)),
            final(self).balances(*old(self)),
    {
        proof {
            reveal(emitted_constant_name);
        }
        let width = self.width;
        match register_for_name(
            self.frame.resolver.resolve(name),
            self.frame.resolver.resolve_type(name),
            width,
        ) {
            Err(kind) => {
                self.fail(kind);
            },
            Ok(value) => {
                self.emit_constant(value);
            },
        }
    }

    pub(crate) fn emit_local_name(&mut self, index: usize, ty: RuntimeExpressionType)
        ensures
            final(self)@ == emitted_local_name(old(self).frame, old(self)@, index, ty),
            final(self).continues(*old(self)),
            final(self).balances(*old(self)),
    {
        proof {
            reveal(emitted_local_name);
        }
        match ty {
            RuntimeExpressionType::Array { .. } => {
                self.fail(CodegenErrorKind::RuntimeExpressionUnsupported);
            },
            RuntimeExpressionType::Bool => {
                self.emit_slot_of(
                    0x8b,
                    local_stack_slots_from(&self.locals, translate_place(index, 1)),
                    0,
                    CodegenErrorKind::OutputTooSmall,
                );
                self.emit([0x0fu8, 0xb6, 0xc0]);
            },
            RuntimeExpressionType::RawPointer { .. } => {
                self.emit_slot_of(
                    0x8b,
                    local_stack_slots_from(&self.locals, translate_place(index, 1)),
                    0,
                    CodegenErrorKind::OutputTooSmall,
                );
            },
            RuntimeExpressionType::Reference { .. } => {
                self.emit_slot_of(
                    0x8b,
                    local_stack_slots_from(&self.locals, translate_place(index, 1)),
                    fat_extra(ty),
                    CodegenErrorKind::OutputTooSmall,
                );
            },
            _ => {
                self.emit_slot_of(
                    0x8b,
                    local_stack_slots_from(&self.locals, translate_place(index, 1)),
                    0,
                    CodegenErrorKind::OutputTooSmall,
                );
                self.emit_normalize();
            },
        }
    }

    pub(crate) fn emit_parameter_name(&mut self, index: usize, text: &str)
        ensures
            final(self)@ == emitted_parameter_name(old(self).frame, old(self)@, index, text@),
            final(self).continues(*old(self)),
            final(self).balances(*old(self)),
    {
        proof {
            reveal(emitted_parameter_name);
        }
        match runtime_reference_type(text) {
            Some(ty) => {
                self.emit_parameter_slot(
                    0x8b,
                    translate_place(index, 1),
                    fat_extra(ty),
                    CodegenErrorKind::OutputTooSmall,
                );
            },
            None => {
                self.emit_parameter_slot(
                    0x8b,
                    translate_place(index, 1),
                    0,
                    CodegenErrorKind::OutputTooSmall,
                );
                if same_text(text, "bool") {
                    self.emit([0x0fu8, 0xb6, 0xc0]);
                } else if is_pointer_text(text) {
                } else {
                    self.emit_normalize();
                }
            },
        }
    }

    pub(crate) fn emit_identifier(&mut self, name: &str)
        ensures
            final(self)@ == emitted_identifier(old(self).frame, old(self)@, name@),
            final(self).continues(*old(self)),
            final(self).balances(*old(self)),
    {
        proof {
            reveal(emitted_identifier);
        }
        match find_local(&self.locals, name) {
            Some(index) => {
                self.emit_local_name(index, self.locals[index].ty);
            },
            None => {
                match find_parameter(&self.frame.function.parameters, name) {
                    Some(index) => {
                        self.emit_parameter_name(index, self.frame.function.parameters[index].ty.text);
                    },
                    None => {
                        self.emit_constant_name(name);
                    },
                }
            },
        }
    }

    pub(crate) fn emit_identifier_address(&mut self, name: &str)
        ensures
            final(self)@ == emitted_identifier_address(old(self).frame, old(self)@, name@),
            final(self).continues(*old(self)),
            final(self).balances(*old(self)),
    {
        proof {
            reveal(emitted_identifier_address);
        }
        match find_local(&self.locals, name) {
            Some(index) => {
                self.emit_slot_of(
                    0x8d,
                    local_stack_slots_from(&self.locals, translate_place(index, 1)),
                    0,
                    CodegenErrorKind::UnknownRuntimeName,
                );
            },
            None => {
                match find_parameter(&self.frame.function.parameters, name) {
                    Some(index) => {
                        self.emit_parameter_slot(
                            0x8d,
                            translate_place(index, 1),
                            0,
                            CodegenErrorKind::UnknownRuntimeName,
                        );
                    },
                    None => {
                        self.fail(CodegenErrorKind::UnknownRuntimeName);
                    },
                }
            },
        }
    }

    pub(crate) fn emit_slice_length(&mut self, name: &str)
        ensures
            final(self)@ == emitted_slice_length(old(self).frame, old(self)@, name@),
            final(self).continues(*old(self)),
            final(self).balances(*old(self)),
    {
        proof {
            reveal(emitted_slice_length);
        }
        match find_fat_local(&self.locals, name) {
            Some(index) => {
                self.emit_slot_of(
                    0x8b,
                    local_stack_slots_from(&self.locals, translate_place(index, 1)),
                    0,
                    CodegenErrorKind::UnknownRuntimeName,
                );
            },
            None => {
                match find_fat_parameter(&self.frame.function.parameters, name) {
                    Some(index) => {
                        self.emit_parameter_slot(
                            0x8b,
                            translate_place(index, 1),
                            0,
                            CodegenErrorKind::UnknownRuntimeName,
                        );
                    },
                    None => {
                        self.fail(CodegenErrorKind::UnknownRuntimeName);
                    },
                }
            },
        }
    }

    pub(crate) fn emit_string_boundary_check(&mut self)
        ensures
            final(self)@ == emitted_string_boundary(old(self).frame, old(self)@),
            final(self).continues(*old(self)),
            final(self).balances(*old(self)),
    {
        proof {
            reveal(emitted_string_boundary);
        }
        self.emit([0x48u8, 0x85, 0xc9]);
        let at_start: usize = self.emit_forward_branch(0x84);
        self.emit([0x48u8, 0x39, 0xd1]);
        let at_end: usize = self.emit_forward_branch(0x84);
        self.emit([0x44u8, 0x0f, 0xb6, 0x04, 0x08]);
        self.emit([0x41u8, 0x80, 0xe0, 0xc0, 0x41, 0x80, 0xf8, 0x80]);
        self.emit_trap_branch(0x84);
        self.patch_forward_branch(at_start);
        self.patch_forward_branch(at_end);
    }

    pub(crate) fn emit_string_range_boundary_checks(&mut self, source: &str)
        ensures
            final(self)@ == emitted_string_range_boundaries(old(self).frame, old(self)@, source@),
            final(self).continues(*old(self)),
            final(self).balances(*old(self)),
    {
        proof {
            reveal(emitted_string_range_boundaries);
        }
        self.emit([0x49u8, 0x89, 0xc0]);
        self.emit_slice_length(source);
        self.emit([0x48u8, 0x89, 0xc2, 0x4c, 0x89, 0xc0]);
        self.emit([0x48u8, 0x8b, 0x4c, 0x24, 0x08]);
        self.emit_string_boundary_check();
        self.emit([0x48u8, 0x8b, 0x4c, 0x24, 0x08, 0x48, 0x03, 0x0c, 0x24]);
        self.emit_string_boundary_check();
    }

    pub(crate) fn emit_pack_elements(
        &mut self,
        count: usize,
        element_bytes: usize,
        word: usize,
        index: usize,
    )
        ensures
            final(self)@ == emitted_packed(old(self).frame, old(self)@, count, element_bytes, word, index),
            final(self).continues(*old(self)),
            final(self).balances(*old(self)),
        decreases count - index,
    {
        proof {
            reveal(emitted_packed);
        }
        if index < count {
            if is_in_word(index, element_bytes, word) {
                self.emit_stack_slot(index);
                if element_bytes == 1 {
                    self.emit([0x0fu8, 0xb6, 0xc0]);
                } else if element_bytes == 2 {
                    self.emit([0x0fu8, 0xb7, 0xc0]);
                } else if element_bytes == 4 {
                    self.emit([0x89u8, 0xc0]);
                } else if element_bytes != 8 {
                    self.fail(CodegenErrorKind::UnsupportedReturnType);
                }
                if word_shift(index, element_bytes) != 0 {
                    self.emit([0x48u8, 0xc1, 0xe0, word_shift(index, element_bytes)]);
                }
                self.emit([0x48u8, 0x09, 0xc2]);
            }
            self.emit_pack_elements(count, element_bytes, word, index + 1);
        }
    }

    pub(crate) fn emit_pack_array_word(&mut self, count: usize, element_bytes: usize, word: usize)
        ensures
            final(self)@ == emitted_packed_word(old(self).frame, old(self)@, count, element_bytes, word),
            final(self).continues(*old(self)),
            final(self).balances(*old(self)),
    {
        proof {
            reveal(emitted_packed_word);
        }
        self.emit([0x31u8, 0xd2]);
        self.emit_pack_elements(count, element_bytes, word, 0);
        self.emit([0x48u8, 0x89, 0xd0]);
    }

    pub(crate) fn emit_packed_words(
        &mut self,
        count: usize,
        element_bytes: usize,
        local_slots: usize,
        words: usize,
    )
        ensures
            final(self)@ == emitted_packed_words(
                old(self).frame,
                old(self)@,
                count,
                element_bytes,
                local_slots,
                words,
            ),
            final(self).continues(*old(self)),
            final(self).balances(*old(self)),
        decreases words,
    {
        proof {
            reveal(emitted_packed_words);
        }
        if words > 0 {
            self.emit_pack_array_word(count, element_bytes, words - 1);
            match packed_destination(count, local_slots, words - 1) {
                None => {
                    self.fail(CodegenErrorKind::OutputTooSmall);
                },
                Some(destination) => {
                    self.emit_store_stack_slot(destination);
                },
            }
            self.emit_packed_words(count, element_bytes, local_slots, words - 1);
        }
    }

    pub(crate) fn pack_temporary_array_for_local(
        &mut self,
        element: RuntimeArrayElementType,
        count: usize,
    )
        ensures
            final(self)@ == emitted_packed_array(old(self).frame, old(self)@, element, count),
            final(self).continues(*old(self)),
            final(self).moves_stack(
                *old(self),
                local_slots(RuntimeExpressionType::Array { element, count }) - count,
            ),
    {
        proof {
            reveal(emitted_packed_array);
            crate::codegen::runtime::packing_saves_slots(element, count);
        }
        match packing(element, count) {
            None => {},
            Some((element_bytes, local_slots)) => {
                self.emit_packed_words(count, element_bytes, local_slots, local_slots);
                self.lower(difference(count, local_slots));
                self.emit_slots_cleanup(difference(count, local_slots));
            },
        }
    }

    pub(crate) fn emit_swapped(&mut self, count: usize, half: usize, index: usize)
        ensures
            final(self)@ == emitted_swapped(old(self).frame, old(self)@, count, half, index),
            final(self).continues(*old(self)),
            final(self).balances(*old(self)),
        decreases half - index,
    {
        proof {
            reveal(emitted_swapped);
        }
        if index < half {
            self.emit_stack_slot(index);
            self.emit([0x48u8, 0x89, 0xc2]);
            self.emit_stack_slot(mirror(count, index));
            self.emit_store_stack_slot(index);
            self.emit([0x48u8, 0x89, 0xd0]);
            self.emit_store_stack_slot(mirror(count, index));
            self.emit_swapped(count, half, index + 1);
        }
    }

    pub(crate) fn emit_copies(&mut self, count: usize, index: usize)
        ensures
            final(self)@ == emitted_copies(old(self).frame, old(self)@, count, index),
            final(self).continues(*old(self)),
            final(self).moves_stack(
                *old(self),
                if index < count {
                    count - index
                } else {
                    0
                },
            ),
        decreases count - index,
    {
        proof {
            reveal(emitted_copies);
        }
        if index < count {
            self.emit_stack_slot(0);
            self.emit([0x50u8]);
            self.raise(1);
            self.emit_copies(count, index + 1);
        }
    }

    pub(crate) fn emit_moved_slots(&mut self, count: usize, later: usize, slot: usize)
        ensures
            final(self)@ == emitted_moved_slots(old(self).frame, old(self)@, count, later, slot),
            final(self).continues(*old(self)),
            final(self).balances(*old(self)),
        decreases count - slot,
    {
        proof {
            reveal(emitted_moved_slots);
        }
        if slot < count {
            self.emit_stack_slot(slot);
            match three_sum(count, later, slot) {
                None => {
                    self.fail(CodegenErrorKind::OutputTooSmall);
                },
                Some(destination) => {
                    self.emit_store_stack_slot(destination);
                },
            }
            self.emit_moved_slots(count, later, slot + 1);
        }
    }

    pub(crate) fn emit_result_elements(
        &mut self,
        count: usize,
        element_bytes: usize,
        index: usize,
    )
        ensures
            final(self)@ == emitted_result_elements(old(self).frame, old(self)@, count, element_bytes, index),
            final(self).continues(*old(self)),
            final(self).balances(*old(self)),
        decreases count - index,
    {
        proof {
            reveal(emitted_result_elements);
        }
        if index < count {
            self.emit_stack_slot(index);
            match element_offset(index, element_bytes) {
                None => {
                    self.fail(CodegenErrorKind::OutputTooSmall);
                },
                Some(displacement) => {
                    if element_bytes == 1 {
                        self.emit([0x88u8, 0x42, displacement]);
                    } else if element_bytes == 2 {
                        self.emit([0x66u8, 0x89, 0x42, displacement]);
                    } else if element_bytes == 4 {
                        self.emit([0x89u8, 0x42, displacement]);
                    } else if element_bytes == 8 && displacement == 0 {
                        self.emit([0x48u8, 0x89, 0x02]);
                    } else if element_bytes == 8 {
                        self.emit([0x48u8, 0x89, 0x42, displacement]);
                    } else {
                        self.fail(CodegenErrorKind::UnsupportedReturnType);
                    }
                },
            }
            self.emit_result_elements(count, element_bytes, index + 1);
        }
    }

    pub(crate) fn emit_candidate(
        &mut self,
        index_slot: usize,
        candidate: usize,
    ) -> (result: usize)
        ensures
            (final(self)@, result) == emitted_candidate(old(self).frame, old(self)@, index_slot, candidate),
            final(self).continues(*old(self)),
            final(self).balances(*old(self)),
    {
        proof {
            reveal(emitted_candidate);
        }
        self.emit_stack_slot(index_slot);
        self.emit([0x48u8, 0x83, 0xf8, candidate as u8]);
        let other: usize = self.emit_forward_branch(0x85);
        other
    }

    pub(crate) fn emit_chosen_slots(
        &mut self,
        index_slot: usize,
        first: usize,
        count: usize,
        candidate: usize,
    )
        ensures
            final(self)@ == emitted_chosen_slots(
                old(self).frame,
                old(self)@,
                index_slot,
                first,
                count,
                candidate,
            ),
            final(self).continues(*old(self)),
            final(self).balances(*old(self)),
        decreases count - candidate,
    {
        proof {
            reveal(emitted_chosen_slots);
        }
        if candidate < count {
            let other: usize = self.emit_candidate(index_slot, candidate);
            match checked_sum(first, candidate) {
                None => {
                    self.fail(CodegenErrorKind::OutputTooSmall);
                },
                Some(slot) => {
                    self.emit_stack_slot(slot);
                },
            }
            let end: usize = self.emit_unconditional_forward_branch();
            self.patch_forward_branch(other);
            self.emit_chosen_slots(index_slot, first, count, candidate + 1);
            self.patch_forward_branch(end);
        } else {
            self.emit([0x0fu8, 0x0b]);
        }
    }

    pub(crate) fn emit_chosen_stores(
        &mut self,
        index_slot: usize,
        first: usize,
        count: usize,
        candidate: usize,
    )
        ensures
            final(self)@ == emitted_chosen_stores(
                old(self).frame,
                old(self)@,
                index_slot,
                first,
                count,
                candidate,
            ),
            final(self).continues(*old(self)),
            final(self).balances(*old(self)),
        decreases count - candidate,
    {
        proof {
            reveal(emitted_chosen_stores);
        }
        if candidate < count {
            let other: usize = self.emit_candidate(index_slot, candidate);
            self.emit_stack_slot(0);
            match checked_sum(first, candidate) {
                None => {
                    self.fail(CodegenErrorKind::OutputTooSmall);
                },
                Some(slot) => {
                    self.emit_store_stack_slot(slot);
                },
            }
            let end: usize = self.emit_unconditional_forward_branch();
            self.patch_forward_branch(other);
            self.emit_chosen_stores(index_slot, first, count, candidate + 1);
            self.patch_forward_branch(end);
        } else {
            self.emit([0x0fu8, 0x0b]);
        }
    }

    pub(crate) fn emit_array_local_element(
        &mut self,
        local_index: usize,
        element: RuntimeArrayElementType,
        count: usize,
        index_slot: usize,
    )
        ensures
            final(self)@ == emitted_local_element(
                old(self).frame,
                old(self)@,
                local_index,
                element,
                count,
                index_slot,
            ),
            final(self).continues(*old(self)),
            final(self).balances(*old(self)),
    {
        proof {
            reveal(emitted_local_element);
        }
        match element_place(
            local_stack_slots_from(&self.locals, translate_place(local_index, 1)),
            self.temporaries,
        ) {
            None => {
                self.fail(CodegenErrorKind::OutputTooSmall);
            },
            Some(first) => {
                match runtime_array_element_bytes(element) {
                    None => {
                        self.fail(CodegenErrorKind::UnsupportedRuntimeType);
                    },
                    Some(bytes) => {
                        if bytes == 1 || bytes == 2 || bytes == 4 {
                            self.emit_stack_slot(index_slot);
                            self.emit([0x48u8, 0x89, 0xc1]);
                            self.emit_stack_slot_address(first);
                            self.emit_element_address(bytes);
                            self.emit_reference_load(element);
                        } else {
                            self.emit_chosen_slots(index_slot, first, count, 0);
                        }
                    },
                }
            },
        }
    }

    pub(crate) fn emit_array_local_element_store(
        &mut self,
        local_index: usize,
        element: RuntimeArrayElementType,
        count: usize,
        index_slot: usize,
    )
        ensures
            final(self)@ == emitted_local_element_store(
                old(self).frame,
                old(self)@,
                local_index,
                element,
                count,
                index_slot,
            ),
            final(self).continues(*old(self)),
            final(self).balances(*old(self)),
    {
        proof {
            reveal(emitted_local_element_store);
        }
        match element_place(
            local_stack_slots_from(&self.locals, translate_place(local_index, 1)),
            self.temporaries,
        ) {
            None => {
                self.fail(CodegenErrorKind::OutputTooSmall);
            },
            Some(first) => {
                match runtime_array_element_bytes(element) {
                    None => {
                        self.fail(CodegenErrorKind::UnsupportedRuntimeType);
                    },
                    Some(bytes) => {
                        if bytes == 1 || bytes == 2 || bytes == 4 {
                            self.emit_stack_slot(index_slot);
                            self.emit([0x48u8, 0x89, 0xc1]);
                            self.emit_stack_slot_address(first);
                            self.emit([0x48u8, 0x89, 0xc2]);
                            self.emit_element_store_address(bytes);
                            self.emit_stack_slot(0);
                            self.emit_reference_store(element);
                        } else {
                            self.emit_chosen_stores(index_slot, first, count, 0);
                        }
                    },
                }
            },
        }
    }

    pub(crate) fn emit_stack_cleanup_to(&mut self, checkpoint: usize)
        ensures
            final(self)@ == emitted_cleanup_to(old(self).frame, old(self)@, checkpoint),
            final(self).continues(*old(self)),
            final(self).balances(*old(self)),
    {
        proof {
            reveal(emitted_cleanup_to);
        }
        if checkpoint > local_count(&self.locals) {
            self.fail(CodegenErrorKind::OutputTooSmall);
        } else {
            match local_stack_slots_from(&self.locals, checkpoint) {
                None => {
                    self.fail(CodegenErrorKind::OutputTooSmall);
                },
                Some(slots) => {
                    self.emit_slots_cleanup(slots);
                },
            }
        }
    }

    pub(crate) fn emit_scoped_local_cleanup(&mut self, checkpoint: usize)
        ensures
            final(self)@ == emitted_scoped_cleanup(old(self).frame, old(self)@, checkpoint),
            final(self).continues(*old(self)),
            final(self).drops_locals(*old(self), checkpoint as int),
    {
        proof {
            reveal(emitted_scoped_cleanup);
        }
        self.emit_stack_cleanup_to(checkpoint);
        self.truncate_scoped_locals(checkpoint);
    }
}

} // verus!
