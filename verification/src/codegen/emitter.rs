//! Adding to code.
use crate::codegen::error::{
    CodegenError, CodegenErrorKind,
};
use crate::codegen::frame::{
    Frame, LocalModel, RuntimeLocal, local_models, translate_place,
};
use crate::codegen::runtime::{
    RuntimeExpressionType, RuntimeWidth, checked_sum, integer_width,
    runtime_local_stack_slots, runtime_type_stack_slots, stack_slots,
};
use crate::codegen::types::runtime_compound_type;
use crate::expression::{
    ConstantResolver, ExpressionTree,
};
use crate::function::{
    LocalBinding, Parameter,
};
use crate::integer::{
    ConstEvalError, IntegerType,
};
use crate::ir::ExecutionError;
use crate::codegen::emission::{
    Emission, branch_place, call_register, constant_register, each_trap_branch_leads_to_the_trap,
    elements_in_word, ended_inner_loop, ended_loop, entered_inner_loop, entered_loop, extended, failed,
    failed_with, finished, integer_register, landed, landed_all, landed_at, left_inner_loop,
    left_loop, left_loop_on_zero, named_register, number_place, offset_of, parameter_slots,
    parameter_slots_from, parameters_sum, place, put, quad_bytes, raised, released,
    returned_to, shift_in_word, signed_type, sites_stand, slots_from, slots_sum, stands_in_word, trapped,
    trapped_at, traps_land, tree_size, truncated, type_has_width, width_mask, with_distance, with_local,
    word_bytes, word_elements,
};
use vstd::prelude::*;

verus! {

/// How many stack slots the locals take, from one of them on.
pub fn local_stack_slots_from(locals: &Vec<RuntimeLocal>, index: usize) -> (result: Option<usize>)
    ensures
        result == slots_from(local_models(locals@), index),
{
    proof {
        reveal(slots_from);
    }
    let ghost models = local_models(locals@);
    let mut slots: usize = 0;
    let mut place: usize = locals.len();
    while place > index
        invariant
            place <= locals@.len(),
            models == local_models(locals@),
            place >= index || place == locals@.len(),
            slots == slots_sum(models, place as int),
            slots_from(models, index) == (if slots_sum(models, index as int) <= usize::MAX {
                Some(slots_sum(models, index as int) as usize)
            } else {
                None
            }),
        decreases place,
    {
        place = place - 1;
        proof {
            slots_shrink(models, index as int, place as int);
        }
        match checked_sum(locals[place].stack_slots, slots) {
            Some(sum) => {
                slots = sum;
            },
            None => {
                return None;
            },
        }
    }
    Some(slots)
}

proof fn slots_shrink(locals: Seq<LocalModel>, from: int, to: int)
    requires
        0 <= from <= to,
    ensures
        slots_sum(locals, from) >= slots_sum(locals, to) >= 0,
    decreases locals.len() - from,
{
    if from < to && from < locals.len() {
        slots_shrink(locals, from + 1, to);
    } else if from < locals.len() {
        slots_shrink(locals, from + 1, from + 1);
    }
}

pub fn slots_of_parameter(parameter: &Parameter) -> (result: usize)
    ensures
        result == parameter_slots(*parameter),
{
    match runtime_compound_type(parameter.ty.text) {
        Some(ty) => runtime_type_stack_slots(ty),
        None => 1,
    }
}

proof fn parameter_slots_shrink(parameters: Seq<Parameter>, from: int, to: int)
    requires
        0 <= from <= to,
    ensures
        parameters_sum(parameters, from) >= parameters_sum(parameters, to) >= 0,
    decreases parameters.len() - from,
{
    if from < to && from < parameters.len() {
        parameter_slots_shrink(parameters, from + 1, to);
    } else if from < parameters.len() {
        parameter_slots_shrink(parameters, from + 1, from + 1);
    }
}

/// How many stack slots the parameters take, from one of them on.
pub fn parameter_stack_slots_from(parameters: &Vec<Parameter>, index: usize) -> (result: Option<
    usize,
>)
    ensures
        result == parameter_slots_from(parameters@, index),
{
    proof {
        reveal(parameter_slots_from);
    }
    let mut slots: usize = 0;
    let mut place: usize = parameters.len();
    while place > index
        invariant
            place <= parameters@.len(),
            place >= index || place == parameters@.len(),
            slots == parameters_sum(parameters@, place as int),
            parameter_slots_from(parameters@, index) == (if parameters_sum(
                parameters@,
                index as int,
            ) <= usize::MAX {
                Some(parameters_sum(parameters@, index as int) as usize)
            } else {
                None
            }),
        decreases place,
    {
        place = place - 1;
        proof {
            parameter_slots_shrink(parameters@, index as int, place as int);
        }
        match checked_sum(slots_of_parameter(&parameters[place]), slots) {
            Some(sum) => {
                slots = sum;
            },
            None => {
                return None;
            },
        }
    }
    Some(slots)
}

fn byte_place(index: usize, bytes: usize) -> (result: u128)
    ensures
        result == index * bytes,
{
    assert(index * bytes <= 0xffff_ffff_ffff_ffff * 0xffff_ffff_ffff_ffff) by (nonlinear_arith)
        requires
            index <= 0xffff_ffff_ffff_ffff,
            bytes <= 0xffff_ffff_ffff_ffff,
    ;
    index as u128 * bytes as u128
}

pub fn is_in_word(index: usize, bytes: usize, word: usize) -> (result: bool)
    ensures
        result == stands_in_word(index, bytes, word),
{
    byte_place(index, bytes) / 8 == word as u128
}

pub fn word_shift(index: usize, bytes: usize) -> (result: u8)
    ensures
        result == shift_in_word(index, bytes),
{
    (byte_place(index, bytes) % 8 * 8) as u8
}

pub fn element_offset(index: usize, bytes: usize) -> (result: Option<u8>)
    ensures
        result == offset_of(index, bytes),
{
    let place: u128 = byte_place(index, bytes);
    if place <= 255 {
        Some(place as u8)
    } else {
        None
    }
}

pub fn runtime_array_elements_in_word(bytes: usize, count: usize, word: usize) -> (result: usize)
    ensures
        result == word_elements(bytes, count, word),
{
    proof {
        reveal(word_elements);
    }
    let mut found: usize = 0;
    let mut index: usize = count;
    while index > 0
        invariant
            index <= count,
            found == elements_in_word(bytes, count, word, index as int),
            found <= count - index,
        decreases index,
    {
        index = index - 1;
        if is_in_word(index, bytes, word) {
            found = found + 1;
        }
    }
    found
}

pub fn size_of_tree<const N: usize>(tree: &ExpressionTree<'_, N>) -> (result: usize)
    ensures
        result == tree_size(tree@),
{
    tree.nodes.len()
}

pub fn read_index(value: u128) -> (result: Option<usize>)
    ensures
        result == number_place(value),
{
    if value <= usize::MAX as u128 {
        Some(value as usize)
    } else {
        None
    }
}

pub fn mask_of_width(bits: u8) -> (result: u64)
    ensures
        result == width_mask(bits),
{
    if bits == 8 {
        0xff
    } else if bits == 16 {
        0xffff
    } else if bits == 32 {
        0xffff_ffff
    } else {
        0xffff_ffff_ffff_ffff
    }
}

pub fn sign_extend(value: u64, bits: u8) -> (result: u64)
    ensures
        result == extended(value, bits),
{
    if bits == 8 && 0x80 <= value && value <= 0xff {
        value + 0xffff_ffff_ffff_ff00
    } else if bits == 16 && 0x8000 <= value && value <= 0xffff {
        value + 0xffff_ffff_ffff_0000
    } else if bits == 32 && 0x8000_0000 <= value && value <= 0xffff_ffff {
        value + 0xffff_ffff_0000_0000
    } else {
        value
    }
}

pub fn width_suits(ty: IntegerType, width: RuntimeWidth) -> (result: bool)
    ensures
        result == type_has_width(ty, width),
{
    match integer_width(ty) {
        Some(other) => other.bits == width.bits && other.signed == width.signed,
        None => false,
    }
}

pub fn is_signed_type(ty: Option<IntegerType>) -> (result: bool)
    ensures
        result == signed_type(ty),
{
    match ty {
        Some(ty) => ty.is_signed(),
        None => false,
    }
}

pub fn register_for_name(value: Option<u128>, ty: Option<IntegerType>, width: RuntimeWidth) -> (result:
    Result<u64, CodegenErrorKind>)
    ensures
        result == named_register(value, ty, width),
{
    match value {
        None => Err(CodegenErrorKind::UnknownRuntimeName),
        Some(value) => match ty {
            Some(ty) => {
                if !width_suits(ty, width) {
                    Err(CodegenErrorKind::RuntimeTypeMismatch)
                } else if value > mask_of_width(width.bits) as u128 {
                    Err(CodegenErrorKind::ValueOutOfRange)
                } else if ty.is_signed() {
                    Ok(sign_extend(value as u64, width.bits))
                } else {
                    Ok(value as u64)
                }
            },
            None => {
                if value > width.maximum as u128 {
                    Err(CodegenErrorKind::ValueOutOfRange)
                } else {
                    Ok(value as u64)
                }
            },
        },
    }
}

pub fn register_for_call(value: u128, ty: Option<IntegerType>, width: RuntimeWidth) -> (result: Result<
    u64,
    CodegenErrorKind,
>)
    ensures
        result == call_register(value, ty, width),
{
    if let Some(ty) = ty {
        if !width_suits(ty, width) {
            return Err(CodegenErrorKind::RuntimeTypeMismatch);
        }
    }
    if value > mask_of_width(width.bits) as u128 {
        Err(CodegenErrorKind::ValueOutOfRange)
    } else if is_signed_type(ty) {
        Ok(sign_extend(value as u64, width.bits))
    } else {
        Ok(value as u64)
    }
}

pub fn register_for_integer(value: u128, ty: Option<IntegerType>, width: RuntimeWidth) -> (result: Result<
    u64,
    CodegenErrorKind,
>)
    ensures
        result == integer_register(value, ty, width),
{
    if let Some(ty) = ty {
        if !width_suits(ty, width) {
            return Err(CodegenErrorKind::RuntimeTypeMismatch);
        }
    }
    let mask: u128 = mask_of_width(width.bits) as u128;
    let half: u128 = (mask + 1) / 2;
    if value <= mask {
        if is_signed_type(ty) {
            Ok(sign_extend(value as u64, width.bits))
        } else {
            Ok(value as u64)
        }
    } else if is_signed_type(ty) && value > u128::MAX - half {
        let low: u128 = value - 0xffff_ffff_ffff_ffff_0000_0000_0000_0000;
        Ok(low as u64)
    } else {
        Err(CodegenErrorKind::ValueOutOfRange)
    }
}

pub fn register_for_constant(
    value: Result<u128, ConstEvalError>,
    ty: RuntimeExpressionType,
    width: RuntimeWidth,
) -> (result: Result<u64, CodegenErrorKind>)
    ensures
        result == constant_register(value, ty, width),
{
    match value {
        Err(error) => Err(CodegenErrorKind::Execution(ExecutionError::Arithmetic(error))),
        Ok(value) => match ty {
            RuntimeExpressionType::Bool => {
                if value > 1 {
                    Err(CodegenErrorKind::ValueOutOfRange)
                } else {
                    Ok(value as u64)
                }
            },
            RuntimeExpressionType::Char => {
                if value > 0x10ffff || (0xd800 <= value && value <= 0xdfff) {
                    Err(CodegenErrorKind::ValueOutOfRange)
                } else {
                    Ok(value as u64)
                }
            },
            RuntimeExpressionType::Integer(ty) => register_for_integer(value, ty, width),
            _ => Err(CodegenErrorKind::RuntimeExpressionUnsupported),
        },
    }
}

/// Code in the making.
pub struct RuntimeEmitter<'a, 'source, R: ConstantResolver, const P: usize, const N: usize> {
    pub frame: Frame<'a, 'source, R, P, N>,
    pub bytes: Vec<u8>,
    pub capacity: usize,
    pub overflow_checks: bool,
    pub trap_patches: Vec<usize>,
    pub exits: Vec<usize>,
    pub inner_exits: Vec<usize>,
    pub locals: Vec<RuntimeLocal<'source>>,
    pub temporaries: usize,
    pub width: RuntimeWidth,
    pub failure: Option<CodegenError>,
}

impl<'a, 'source, R: ConstantResolver, const P: usize, const N: usize> View for RuntimeEmitter<
    'a,
    'source,
    R,
    P,
    N,
> {
    type V = Emission;

    open spec fn view(&self) -> Emission {
        Emission {
            code: self.bytes@,
            capacity: self.capacity,
            overflow_checks: self.overflow_checks,
            traps: self.trap_patches@,
            exits: self.exits@,
            inner_exits: self.inner_exits@,
            locals: local_models(self.locals@),
            temporaries: self.temporaries,
            width: self.width,
            failure: self.failure,
        }
    }
}

impl<'a, 'source, R: ConstantResolver, const P: usize, const N: usize> RuntimeEmitter<
    'a,
    'source,
    R,
    P,
    N,
> {
    /// Whether the code is no longer than it may be.
    pub open spec fn fits(self) -> bool {
        self@.code.len() <= self@.capacity
    }

    /// Whether there is more code than in an earlier state, unless something failed.
    pub open spec fn lengthens(self, before: Self) -> bool {
        self@.failure is None ==> before@.code.len() < self@.code.len()
    }

    /// Whether the branches to the trap stand in the code one behind the other, unless
    /// something failed.
    pub open spec fn traps_stand(self) -> bool {
        self@.failure is None ==> sites_stand(self@.traps, self@.code.len() as int)
    }

    /// Whether this state is reached from an earlier one: the rules are the same, code that
    /// fits goes on to fit, the branches to the trap go on to stand in the code, none of it is
    /// dropped, and after a failure nothing is added.
    pub open spec fn continues(self, before: Self) -> bool {
        &&& self.frame == before.frame
        &&& self@.capacity == before@.capacity
        &&& self@.overflow_checks == before@.overflow_checks
        &&& before.fits() ==> self.fits()
        &&& before.traps_stand() ==> self.traps_stand()
        &&& before@.code.len() <= self@.code.len()
        &&& before@.failure is Some ==> self@.failure == before@.failure && self@.code
            == before@.code
    }

    /// Whether the stack, the locals and the width are those of an earlier state, unless
    /// something failed.
    pub open spec fn balances(self, before: Self) -> bool {
        self.moves_stack(before, 0)
    }

    /// The same with `count` more values on the stack.
    pub open spec fn moves_stack(self, before: Self, count: int) -> bool {
        self@.failure is None ==> {
            &&& self@.temporaries == before@.temporaries + count
            &&& self@.locals == before@.locals
            &&& self@.width == before@.width
        }
    }

    /// Whether the stack and the width are those of an earlier state and the locals begin
    /// with those there, unless something failed.
    pub open spec fn grows(self, before: Self) -> bool {
        self@.failure is None ==> {
            &&& self@.temporaries == before@.temporaries
            &&& self@.width == before@.width
            &&& before@.locals.len() <= self@.locals.len()
            &&& forall|i: int| #![trigger self@.locals[i]]
                0 <= i < before@.locals.len() ==> self@.locals[i] == before@.locals[i]
        }
    }

    /// Whether nothing but the locals behind the first `count` is gone, unless something
    /// failed.
    pub open spec fn drops_locals(self, before: Self, count: int) -> bool {
        self@.failure is None ==> {
            &&& self@.temporaries == before@.temporaries
            &&& self@.width == before@.width
            &&& count <= before@.locals.len()
            &&& self@.locals == before@.locals.subrange(0, count)
        }
    }

    pub(crate) fn fail_with(&mut self, error: CodegenError)
        ensures
            final(self)@ == failed_with(old(self)@, error),
            final(self).continues(*old(self)),
            final(self).balances(*old(self)),
    {
        if self.failure.is_none() {
            self.failure = Some(error);
        }
    }

    pub(crate) fn fail(&mut self, kind: CodegenErrorKind)
        ensures
            final(self)@ == failed(old(self).frame, old(self)@, kind),
            final(self).continues(*old(self)),
            final(self).balances(*old(self)),
    {
        let span = self.frame.function.body_expression_span;
        self.fail_with(CodegenError { kind, span });
    }

    pub(crate) fn set_width(&mut self, width: RuntimeWidth)
        ensures
            final(self)@ == (Emission { width, ..old(self)@ }),
            final(self).continues(*old(self)),
    {
        self.width = width;
    }

    pub(crate) fn emit<const M: usize>(&mut self, bytes: [u8; M])
        ensures
            final(self)@ == put(old(self).frame, old(self)@, bytes@),
            final(self).continues(*old(self)),
            M > 0 ==> final(self).lengthens(*old(self)),
            final(self).balances(*old(self)),
    {
        proof {
            reveal(put);
            reveal(sites_stand);
        }
        if self.failure.is_some() {
            return;
        }
        let length: usize = self.bytes.len();
        if length > self.capacity || self.capacity - length < M {
            self.fail(CodegenErrorKind::OutputTooSmall);
            return;
        }
        let ghost before = self@;
        let mut index: usize = 0;
        while index < M
            invariant
                index <= M,
                before == old(self)@,
                before.failure is None,
                before.code.len() + M <= before.capacity,
                self.frame == old(self).frame,
                self@ == (Emission { code: before.code + bytes@.take(index as int), ..before }),
            decreases M - index,
        {
            self.bytes.push(bytes[index]);
            proof {
                assert(before.code + bytes@.take(index + 1) =~= (before.code + bytes@.take(
                    index as int,
                )).push(bytes@[index as int]));
            }
            index = index + 1;
        }
        proof {
            assert(bytes@.take(M as int) =~= bytes@);
        }
    }

    pub(crate) fn emit_word(&mut self, value: usize)
        ensures
            final(self)@ == put(old(self).frame, old(self)@, word_bytes(value as int)),
            final(self).continues(*old(self)),
            final(self).balances(*old(self)),
    {
        let bytes: [u8; 4] = [
            (value % 256) as u8,
            (value / 256 % 256) as u8,
            (value / 65536 % 256) as u8,
            (value / 16777216 % 256) as u8,
        ];
        proof {
            assert(bytes@ =~= word_bytes(value as int));
        }
        self.emit(bytes);
    }

    pub(crate) fn emit_quad(&mut self, value: u64)
        ensures
            final(self)@ == put(old(self).frame, old(self)@, quad_bytes(value as int)),
            final(self).continues(*old(self)),
            final(self).balances(*old(self)),
    {
        let high: u64 = value / 4294967296;
        let bytes: [u8; 8] = [
            (value % 256) as u8,
            (value / 256 % 256) as u8,
            (value / 65536 % 256) as u8,
            (value / 16777216 % 256) as u8,
            (high % 256) as u8,
            (high / 256 % 256) as u8,
            (high / 65536 % 256) as u8,
            (high / 16777216 % 256) as u8,
        ];
        proof {
            assert(bytes@ =~= quad_bytes(value as int));
        }
        self.emit(bytes);
    }

    pub(crate) fn place(&self) -> (result: usize)
        ensures
            result == place(self@),
    {
        proof {
            reveal(place);
        }
        self.bytes.len()
    }

    pub(crate) fn emit_forward_branch(&mut self, opcode: u8) -> (result: usize)
        ensures
            final(self)@ == put(
                old(self).frame,
                old(self)@,
                [0x0fu8, opcode, 0, 0, 0, 0]@,
            ),
            final(self).continues(*old(self)),
            final(self).lengthens(*old(self)),
            final(self).balances(*old(self)),
            result == branch_place(old(self)@, 2),
    {
        proof {
            reveal(branch_place);
        }
        let at: usize = translate_place(self.bytes.len(), 2);
        self.emit([0x0fu8, opcode, 0, 0, 0, 0]);
        at
    }

    pub(crate) fn emit_unconditional_forward_branch(&mut self) -> (result: usize)
        ensures
            final(self)@ == put(old(self).frame, old(self)@, [0xe9u8, 0, 0, 0, 0]@),
            final(self).continues(*old(self)),
            final(self).lengthens(*old(self)),
            final(self).balances(*old(self)),
            result == branch_place(old(self)@, 1),
    {
        proof {
            reveal(branch_place);
        }
        let at: usize = translate_place(self.bytes.len(), 1);
        self.emit([0xe9u8, 0, 0, 0, 0]);
        at
    }

    fn land_at(&mut self, at: usize, target: usize)
        ensures
            final(self)@ == landed_at(old(self).frame, old(self)@, at, target),
            final(self).continues(*old(self)),
            final(self).balances(*old(self)),
    {
        proof {
            reveal(landed_at);
        }
        if self.failure.is_some() {
            return;
        }
        let length: usize = self.bytes.len();
        if length < 4 || at > length - 4 || target < 4 || at > target - 4 || target - 4 - at
            > 0x7fff_ffff {
            self.fail(CodegenErrorKind::OutputTooSmall);
            return;
        }
        let distance: usize = target - 4 - at;
        let ghost before = self.bytes@;
        self.bytes.set(at, (distance % 256) as u8);
        self.bytes.set(at + 1, (distance / 256 % 256) as u8);
        self.bytes.set(at + 2, (distance / 65536 % 256) as u8);
        self.bytes.set(at + 3, (distance / 16777216 % 256) as u8);
        proof {
            assert(self.bytes@ =~= with_distance(before, at as int, distance as int));
        }
    }

    pub(crate) fn patch_forward_branch(&mut self, patch: usize)
        ensures
            final(self)@ == landed(old(self).frame, old(self)@, patch),
            final(self).continues(*old(self)),
            final(self).balances(*old(self)),
    {
        proof {
            reveal(landed);
        }
        let target: usize = self.bytes.len();
        self.land_at(patch, target);
    }

    pub(crate) fn emit_backward_branch(&mut self, target: usize)
        ensures
            final(self)@ == returned_to(old(self).frame, old(self)@, target),
            final(self).continues(*old(self)),
            final(self).lengthens(*old(self)),
            final(self).balances(*old(self)),
    {
        proof {
            reveal(returned_to);
        }
        let end: i128 = self.bytes.len() as i128 + 5;
        let distance: i128 = target as i128 - end;
        if self.failure.is_none() && (distance < -0x8000_0000 || distance > 0x7fff_ffff) {
            self.fail(CodegenErrorKind::OutputTooSmall);
            return;
        }
        let ghost start = self@;
        if self.failure.is_some() {
            proof {
                reveal(put);
            }
            return;
        }
        let bits: u64 = if distance < 0 {
            (distance + 0x1_0000_0000) as u64
        } else {
            distance as u64
        };
        self.emit([0xe9u8]);
        let bytes: [u8; 4] = [
            (bits % 256) as u8,
            (bits / 256 % 256) as u8,
            (bits / 65536 % 256) as u8,
            (bits / 16777216 % 256) as u8,
        ];
        proof {
            word_of_negative(distance as int);
            assert(bytes@ =~= word_bytes(bits as int));
        }
        self.emit(bytes);
    }

    pub(crate) fn emit_trap_branch(&mut self, opcode: u8)
        ensures
            final(self)@ == trapped(old(self).frame, old(self)@, opcode),
            final(self).continues(*old(self)),
            final(self).balances(*old(self)),
    {
        proof {
            reveal(trapped);
            reveal(put);
            reveal(branch_place);
            reveal(sites_stand);
        }
        let at: usize = self.emit_forward_branch(opcode);
        if self.failure.is_none() {
            self.trap_patches.push(at);
        }
    }

    pub(crate) fn raise(&mut self, count: usize)
        ensures
            final(self)@ == raised(old(self).frame, old(self)@, count),
            final(self).continues(*old(self)),
            final(self).moves_stack(*old(self), count as int),
    {
        proof {
            reveal(raised);
        }
        match checked_sum(self.temporaries, count) {
            Some(sum) => {
                self.temporaries = sum;
            },
            None => {
                self.fail(CodegenErrorKind::OutputTooSmall);
            },
        }
    }

    pub(crate) fn lower(&mut self, count: usize)
        ensures
            final(self)@ == released(old(self).frame, old(self)@, count),
            final(self).continues(*old(self)),
            final(self).moves_stack(*old(self), -count),
    {
        proof {
            reveal(released);
        }
        if count > self.temporaries {
            self.fail(CodegenErrorKind::OutputTooSmall);
        } else {
            self.temporaries = self.temporaries - count;
        }
    }

    pub(crate) fn truncate_scoped_locals(&mut self, checkpoint: usize)
        ensures
            final(self)@ == truncated(old(self).frame, old(self)@, checkpoint),
            final(self).continues(*old(self)),
            final(self).drops_locals(*old(self), checkpoint as int),
    {
        proof {
            reveal(truncated);
        }
        if checkpoint > self.locals.len() {
            self.fail(CodegenErrorKind::OutputTooSmall);
        } else {
            let ghost before = self.locals@;
            self.locals.truncate(checkpoint);
            proof {
                assert(local_models(self.locals@) =~= local_models(before).subrange(
                    0,
                    checkpoint as int,
                ));
            }
        }
    }

    pub(crate) fn add_local(&mut self, local: &LocalBinding<'source>, ty: RuntimeExpressionType)
        ensures
            final(self)@ == with_local(old(self).frame, old(self)@, *local, ty),
            final(self).continues(*old(self)),
            final(self).grows(*old(self)),
    {
        proof {
            reveal(with_local);
        }
        let ghost before = self.locals@;
        let added = RuntimeLocal {
            name: local.name,
            ty,
            mutable: local.mutable,
            stack_slots: runtime_local_stack_slots(ty),
        };
        self.locals.push(added);
        proof {
            assert(local_models(self.locals@) =~= local_models(before).push(added@));
        }
    }

    pub(crate) fn leave_loop(&mut self)
        ensures
            final(self)@ == left_loop(old(self).frame, old(self)@),
            final(self).continues(*old(self)),
            final(self).lengthens(*old(self)),
            final(self).balances(*old(self)),
    {
        proof {
            reveal(left_loop);
        }
        let at: usize = self.emit_unconditional_forward_branch();
        self.exits.push(at);
    }

    pub(crate) fn leave_loop_on_zero(&mut self)
        ensures
            final(self)@ == left_loop_on_zero(old(self).frame, old(self)@),
            final(self).continues(*old(self)),
            final(self).lengthens(*old(self)),
            final(self).balances(*old(self)),
    {
        proof {
            reveal(left_loop_on_zero);
        }
        let at: usize = self.emit_forward_branch(0x84);
        self.exits.push(at);
    }

    pub(crate) fn leave_inner_loop(&mut self)
        ensures
            final(self)@ == left_inner_loop(old(self).frame, old(self)@),
            final(self).continues(*old(self)),
            final(self).lengthens(*old(self)),
            final(self).balances(*old(self)),
    {
        proof {
            reveal(left_inner_loop);
        }
        let at: usize = self.emit_unconditional_forward_branch();
        self.inner_exits.push(at);
    }

    pub(crate) fn enter_loop(&mut self)
        ensures
            final(self)@ == entered_loop(old(self).frame, old(self)@),
            final(self).continues(*old(self)),
            final(self).balances(*old(self)),
    {
        self.exits = Vec::new();
        proof {
            assert(self.exits@ =~= seq![]);
        }
    }

    pub(crate) fn enter_inner_loop(&mut self)
        ensures
            final(self)@ == entered_inner_loop(old(self).frame, old(self)@),
            final(self).continues(*old(self)),
            final(self).balances(*old(self)),
    {
        self.inner_exits = Vec::new();
        proof {
            assert(self.inner_exits@ =~= seq![]);
        }
    }

    pub(crate) fn end_loop(&mut self)
        ensures
            final(self)@ == ended_loop(old(self).frame, old(self)@),
            final(self).continues(*old(self)),
            final(self).balances(*old(self)),
    {
        proof {
            reveal(ended_loop);
        }
        let ghost exits = self.exits@;
        let mut from: usize = 0;
        while from < self.exits.len()
            invariant
                from <= exits.len(),
                self.exits@ == exits,
                exits == old(self)@.exits,
                self.continues(*old(self)),
                self.balances(*old(self)),
                landed_all(old(self).frame, old(self)@, exits, 0) == landed_all(
                    self.frame,
                    self@,
                    exits,
                    from as int,
                ),
            decreases exits.len() - from,
        {
            proof {
                reveal(landed_all);
                landing_keeps_exits(self.frame, self@, exits[from as int]);
            }
            let at: usize = self.exits[from];
            self.patch_forward_branch(at);
            from = from + 1;
        }
        proof {
            reveal(landed_all);
        }
    }

    pub(crate) fn end_inner_loop(&mut self)
        ensures
            final(self)@ == ended_inner_loop(old(self).frame, old(self)@),
            final(self).continues(*old(self)),
            final(self).balances(*old(self)),
    {
        proof {
            reveal(ended_inner_loop);
        }
        let ghost exits = self.inner_exits@;
        let mut from: usize = 0;
        while from < self.inner_exits.len()
            invariant
                from <= exits.len(),
                self.inner_exits@ == exits,
                exits == old(self)@.inner_exits,
                self.continues(*old(self)),
                self.balances(*old(self)),
                landed_all(old(self).frame, old(self)@, exits, 0) == landed_all(
                    self.frame,
                    self@,
                    exits,
                    from as int,
                ),
            decreases exits.len() - from,
        {
            proof {
                reveal(landed_all);
                landing_keeps_exits(self.frame, self@, exits[from as int]);
            }
            let at: usize = self.inner_exits[from];
            self.patch_forward_branch(at);
            from = from + 1;
        }
        proof {
            reveal(landed_all);
        }
    }

    pub(crate) fn finish(&mut self)
        ensures
            final(self)@ == finished(old(self).frame, old(self)@),
            final(self).continues(*old(self)),
            final(self).balances(*old(self)),
            old(self)@.traps.len() > 0 && old(self).traps_stand() && final(self)@.failure is None
                ==> traps_land(old(self)@, final(self)@),
    {
        proof {
            reveal(finished);
            if old(self)@.traps.len() > 0 && old(self).traps_stand() && finished(
                self.frame,
                self@,
            ).failure is None && self@.failure is None {
                assert(self@.code.len() == self.bytes.len());
                each_trap_branch_leads_to_the_trap(self.frame, self@);
            }
        }
        if self.trap_patches.len() == 0 {
            return;
        }
        let trap: usize = self.place();
        let ghost first = self@;
        self.emit([0x0fu8, 0x0b]);
        let ghost start = self@;
        let ghost traps = self.trap_patches@;
        let mut from: usize = 0;
        while from < self.trap_patches.len()
            invariant
                from <= traps.len(),
                self.trap_patches@ == traps,
                self.continues(*old(self)),
                self.balances(*old(self)),
                trapped_at(old(self).frame, start, trap, 0) == trapped_at(
                    self.frame,
                    self@,
                    trap,
                    from as int,
                ),
            decreases traps.len() - from,
        {
            proof {
                reveal(trapped_at);
                reveal(landed_at);
            }
            let at: usize = self.trap_patches[from];
            self.land_at(at, trap);
            from = from + 1;
        }
        proof {
            reveal(trapped_at);
        }
    }
}

proof fn landing_keeps_exits<R: ConstantResolver, const P: usize, const N: usize>(
    f: Frame<R, P, N>,
    s: Emission,
    at: usize,
)
    ensures
        landed(f, s, at).exits == s.exits,
        landed(f, s, at).inner_exits == s.inner_exits,
{
    reveal(landed);
    reveal(landed_at);
}

proof fn word_of_negative(distance: int)
    requires
        -0x8000_0000 <= distance < 0x1_0000_0000,
    ensures
        word_bytes(distance) == word_bytes(
            if distance < 0 {
                distance + 0x1_0000_0000
            } else {
                distance
            },
        ),
{
    if distance < 0 {
        let bits = distance + 0x1_0000_0000;
        vstd::arithmetic::div_mod::lemma_hoist_over_denominator(distance, 0x100_0000, 256);
        vstd::arithmetic::div_mod::lemma_hoist_over_denominator(distance, 0x1_0000, 65536);
        vstd::arithmetic::div_mod::lemma_hoist_over_denominator(distance, 0x100, 16777216);
        vstd::arithmetic::div_mod::lemma_mod_multiples_vanish(0x100_0000, distance, 256);
        vstd::arithmetic::div_mod::lemma_mod_multiples_vanish(0x1_0000, distance / 256, 256);
        vstd::arithmetic::div_mod::lemma_mod_multiples_vanish(0x100, distance / 65536, 256);
        vstd::arithmetic::div_mod::lemma_mod_multiples_vanish(1, distance / 16777216, 256);
        assert(word_bytes(distance) =~= word_bytes(bits));
    }
}

} // verus!
