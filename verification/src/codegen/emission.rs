//! What adding to code does.
use crate::codegen::error::{
    CodegenError, CodegenErrorKind,
};
use crate::codegen::frame::{
    Frame, LocalModel, place_from,
};
use crate::codegen::runtime::{
    RuntimeExpressionType, RuntimeWidth, local_slots, stack_slots, width_of_integer,
};
use crate::codegen::types::compound_type;
use crate::expression::{
    ConstantResolver, Tree,
};
use crate::function::{
    LocalBinding, Parameter,
};
use crate::integer::{
    ConstEvalError, IntegerType, integer_signed,
};
use crate::ir::ExecutionError;
use vstd::prelude::*;

verus! {

/// Code in the making: what is there, and what is known while more is added.
///
/// Once there is a failure, no code is added any more.
pub ghost struct Emission {
    pub code: Seq<u8>,
    /// How long the code may become.
    pub capacity: usize,
    /// Whether arithmetic that leaves its type stops the program.
    pub overflow_checks: bool,
    /// Where the distance to the trap is still missing.
    pub traps: Seq<usize>,
    /// Branches that leave the loop at hand.
    pub exits: Seq<usize>,
    /// Branches that leave the loop in that loop.
    pub inner_exits: Seq<usize>,
    pub locals: Seq<LocalModel>,
    /// How many stack slots hold values that are still needed.
    pub temporaries: usize,
    /// How the numbers of the expression at hand are held.
    pub width: RuntimeWidth,
    pub failure: Option<CodegenError>,
}

pub open spec fn failed_with(s: Emission, error: CodegenError) -> Emission {
    if s.failure is Some {
        s
    } else {
        Emission { failure: Some(error), ..s }
    }
}

pub open spec fn failed<R: ConstantResolver, const P: usize, const N: usize>(
    f: Frame<R, P, N>,
    s: Emission,
    kind: CodegenErrorKind,
) -> Emission {
    failed_with(s, CodegenError { kind, span: f.function.body_expression_span })
}

/// Code with some bytes behind it.
#[verifier::opaque]
pub open spec fn put<R: ConstantResolver, const P: usize, const N: usize>(
    f: Frame<R, P, N>,
    s: Emission,
    bytes: Seq<u8>,
) -> Emission {
    if s.failure is Some {
        s
    } else if s.code.len() + bytes.len() > s.capacity {
        failed(f, s, CodegenErrorKind::OutputTooSmall)
    } else {
        Emission { code: s.code + bytes, ..s }
    }
}

/// The four lowest bytes of a number, the lowest first.
pub open spec fn word_bytes(value: int) -> Seq<u8> {
    seq![
        (value % 256) as u8,
        (value / 256 % 256) as u8,
        (value / 65536 % 256) as u8,
        (value / 16777216 % 256) as u8,
    ]
}

/// The eight lowest bytes of a number, the lowest first.
pub open spec fn quad_bytes(value: int) -> Seq<u8> {
    word_bytes(value) + word_bytes(value / 4294967296)
}

/// How far the code reaches.
#[verifier::opaque]
pub open spec fn place(s: Emission) -> usize {
    s.code.len() as usize
}

/// Whether distances of four bytes stand in code up to `end`, one behind the other.
#[verifier::opaque]
pub open spec fn sites_stand(sites: Seq<usize>, end: int) -> bool {
    &&& forall|i: int| 0 <= i < sites.len() ==> #[trigger] sites[i] + 4 <= end
    &&& forall|i: int, j: int|
        0 <= i < j < sites.len() ==> #[trigger] sites[i] + 4 <= #[trigger] sites[j]
}

/// Where the distance of a branch goes that is added next.
#[verifier::opaque]
pub open spec fn branch_place(s: Emission, opcode: usize) -> usize {
    place_from(s.code.len() as usize, opcode)
}

/// Code in which a distance is filled in.
pub open spec fn with_distance(code: Seq<u8>, at: int, distance: int) -> Seq<u8> {
    code.subrange(0, at) + word_bytes(distance) + code.subrange(at + 4, code.len() as int)
}

/// Code in which a branch leads to a place.
#[verifier::opaque]
pub open spec fn landed_at<R: ConstantResolver, const P: usize, const N: usize>(
    f: Frame<R, P, N>,
    s: Emission,
    at: usize,
    target: usize,
) -> Emission {
    if s.failure is Some {
        s
    } else if at + 4 > s.code.len() || at + 4 > target || target - (at + 4) > 0x7fff_ffff {
        failed(f, s, CodegenErrorKind::OutputTooSmall)
    } else {
        Emission { code: with_distance(s.code, at as int, target - (at + 4)), ..s }
    }
}

/// Code in which a branch leads to what is added next.
#[verifier::opaque]
pub open spec fn landed<R: ConstantResolver, const P: usize, const N: usize>(
    f: Frame<R, P, N>,
    s: Emission,
    at: usize,
) -> Emission {
    landed_at(f, s, at, s.code.len() as usize)
}

/// Code in which all branches of a list lead to what is added next, from one of them on.
#[verifier::opaque]
pub open spec fn landed_all<R: ConstantResolver, const P: usize, const N: usize>(
    f: Frame<R, P, N>,
    s: Emission,
    branches: Seq<usize>,
    from: int,
) -> Emission
    decreases branches.len() - from,
{
    if from < 0 || from >= branches.len() {
        s
    } else {
        landed_all(f, landed(f, s, branches[from]), branches, from + 1)
    }
}

/// Code with a branch back to a place.
#[verifier::opaque]
pub open spec fn returned_to<R: ConstantResolver, const P: usize, const N: usize>(
    f: Frame<R, P, N>,
    s: Emission,
    target: usize,
) -> Emission {
    let distance = target - (s.code.len() + 5);
    if s.failure is None && !(-0x8000_0000 <= distance <= 0x7fff_ffff) {
        failed(f, s, CodegenErrorKind::OutputTooSmall)
    } else {
        put(f, put(f, s, [0xe9u8]@), word_bytes(distance))
    }
}

/// Code with a branch to the trap.
#[verifier::opaque]
pub open spec fn trapped<R: ConstantResolver, const P: usize, const N: usize>(
    f: Frame<R, P, N>,
    s: Emission,
    opcode: u8,
) -> Emission {
    let at = branch_place(s, 2);
    let s = put(f, s, [0x0fu8, opcode, 0, 0, 0, 0]@);
    if s.failure is Some {
        s
    } else {
        Emission { traps: s.traps.push(at), ..s }
    }
}

/// Some more stack slots hold values.
#[verifier::opaque]
pub open spec fn raised<R: ConstantResolver, const P: usize, const N: usize>(
    f: Frame<R, P, N>,
    s: Emission,
    count: usize,
) -> Emission {
    if s.temporaries + count > usize::MAX {
        failed(f, s, CodegenErrorKind::OutputTooSmall)
    } else {
        Emission { temporaries: (s.temporaries + count) as usize, ..s }
    }
}

/// Some stack slots hold values no more.
#[verifier::opaque]
pub open spec fn released<R: ConstantResolver, const P: usize, const N: usize>(
    f: Frame<R, P, N>,
    s: Emission,
    count: usize,
) -> Emission {
    if count > s.temporaries {
        failed(f, s, CodegenErrorKind::OutputTooSmall)
    } else {
        Emission { temporaries: (s.temporaries - count) as usize, ..s }
    }
}

/// How many stack slots the locals take, from one of them on.
pub open spec fn slots_sum(locals: Seq<LocalModel>, from: int) -> int
    decreases locals.len() - from,
{
    if from < 0 || from >= locals.len() {
        0
    } else {
        locals[from].stack_slots + slots_sum(locals, from + 1)
    }
}

/// How many stack slots the locals take, from one of them on, if that can be counted.
#[verifier::opaque]
pub open spec fn slots_from(locals: Seq<LocalModel>, from: usize) -> Option<usize> {
    let slots = slots_sum(locals, from as int);
    if slots <= usize::MAX {
        Some(slots as usize)
    } else {
        None
    }
}

/// How many stack slots a parameter takes.
pub open spec fn parameter_slots(parameter: Parameter) -> usize {
    match compound_type(parameter.ty.text@) {
        Some(ty) => stack_slots(ty),
        None => 1,
    }
}

/// How many stack slots the parameters take, from one of them on.
pub open spec fn parameters_sum(parameters: Seq<Parameter>, from: int) -> int
    decreases parameters.len() - from,
{
    if from < 0 || from >= parameters.len() {
        0
    } else {
        parameter_slots(parameters[from]) + parameters_sum(parameters, from + 1)
    }
}

/// How many stack slots the parameters take, from one of them on, if that can be counted.
#[verifier::opaque]
pub open spec fn parameter_slots_from(parameters: Seq<Parameter>, from: usize) -> Option<usize> {
    let slots = parameters_sum(parameters, from as int);
    if slots <= usize::MAX {
        Some(slots as usize)
    } else {
        None
    }
}

/// Whether an element stands in a word of an array.
pub open spec fn stands_in_word(index: usize, bytes: usize, word: usize) -> bool {
    (index * bytes) / 8 == word
}

/// How many bits an element stands above the lowest of its word.
pub open spec fn shift_in_word(index: usize, bytes: usize) -> u8 {
    ((index * bytes) % 8 * 8) as u8
}

/// Where an element stands in an array, if that is less than 256 bytes in.
pub open spec fn offset_of(index: usize, bytes: usize) -> Option<u8> {
    if index * bytes <= 255 {
        Some((index * bytes) as u8)
    } else {
        None
    }
}

/// How many of the elements from a place on stand in a word.
pub open spec fn elements_in_word(bytes: usize, count: usize, word: usize, from: int) -> int
    decreases count - from,
{
    if from < 0 || from >= count {
        0
    } else {
        (if stands_in_word(from as usize, bytes, word) {
            1int
        } else {
            0
        }) + elements_in_word(bytes, count, word, from + 1)
    }
}

/// How many elements of an array stand in a word.
#[verifier::opaque]
pub open spec fn word_elements(bytes: usize, count: usize, word: usize) -> usize {
    elements_in_word(bytes, count, word, 0) as usize
}

/// How many nodes a tree has.
pub open spec fn tree_size(tree: Tree) -> int {
    tree.nodes.len() as int
}

/// A number as an index.
pub open spec fn number_place(value: u128) -> Option<usize> {
    if value <= usize::MAX {
        Some(value as usize)
    } else {
        None
    }
}

/// The bits that numbers of a width use.
pub open spec fn width_mask(bits: u8) -> u64 {
    if bits == 8 {
        0xff
    } else if bits == 16 {
        0xffff
    } else if bits == 32 {
        0xffff_ffff
    } else {
        0xffff_ffff_ffff_ffff
    }
}

/// A register with a number of a width that is the sign of the register's.
pub open spec fn extended(value: u64, bits: u8) -> u64 {
    if bits == 8 && 0x80 <= value <= 0xff {
        (value + 0xffff_ffff_ffff_ff00) as u64
    } else if bits == 16 && 0x8000 <= value <= 0xffff {
        (value + 0xffff_ffff_ffff_0000) as u64
    } else if bits == 32 && 0x8000_0000 <= value <= 0xffff_ffff {
        (value + 0xffff_ffff_0000_0000) as u64
    } else {
        value
    }
}

/// Whether numbers of a type are held in a width.
pub open spec fn type_has_width(ty: IntegerType, width: RuntimeWidth) -> bool {
    match width_of_integer(ty) {
        Some(other) => other.bits == width.bits && other.signed == width.signed,
        None => false,
    }
}

/// Whether a type, if there is one, is signed.
pub open spec fn signed_type(ty: Option<IntegerType>) -> bool {
    match ty {
        Some(ty) => integer_signed(ty),
        None => false,
    }
}

/// The register that holds a constant of a name.
pub open spec fn named_register(value: Option<u128>, ty: Option<IntegerType>, width: RuntimeWidth) -> Result<
    u64,
    CodegenErrorKind,
> {
    match value {
        None => Err(CodegenErrorKind::UnknownRuntimeName),
        Some(value) => match ty {
            Some(ty) => if !type_has_width(ty, width) {
                Err(CodegenErrorKind::RuntimeTypeMismatch)
            } else if value > width_mask(width.bits) {
                Err(CodegenErrorKind::ValueOutOfRange)
            } else if integer_signed(ty) {
                Ok(extended(value as u64, width.bits))
            } else {
                Ok(value as u64)
            },
            None => if value > width.maximum {
                Err(CodegenErrorKind::ValueOutOfRange)
            } else {
                Ok(value as u64)
            },
        },
    }
}

/// The register that holds what a call gives.
pub open spec fn call_register(value: u128, ty: Option<IntegerType>, width: RuntimeWidth) -> Result<
    u64,
    CodegenErrorKind,
> {
    if ty matches Some(ty) && !type_has_width(ty, width) {
        Err(CodegenErrorKind::RuntimeTypeMismatch)
    } else if value > width_mask(width.bits) {
        Err(CodegenErrorKind::ValueOutOfRange)
    } else if signed_type(ty) {
        Ok(extended(value as u64, width.bits))
    } else {
        Ok(value as u64)
    }
}

/// The register that holds a constant number. A negative number is held in 128 bits.
pub open spec fn integer_register(value: u128, ty: Option<IntegerType>, width: RuntimeWidth) -> Result<
    u64,
    CodegenErrorKind,
> {
    let mask = width_mask(width.bits);
    let lowest = 0x1_0000_0000_0000_0000_0000_0000_0000_0000int - (mask + 1) / 2;
    if ty matches Some(ty) && !type_has_width(ty, width) {
        Err(CodegenErrorKind::RuntimeTypeMismatch)
    } else if value <= mask {
        if signed_type(ty) {
            Ok(extended(value as u64, width.bits))
        } else {
            Ok(value as u64)
        }
    } else if signed_type(ty) && value >= lowest {
        Ok((value - 0xffff_ffff_ffff_ffff_0000_0000_0000_0000) as u64)
    } else {
        Err(CodegenErrorKind::ValueOutOfRange)
    }
}

/// The register that holds a constant of a type.
pub open spec fn constant_register(
    value: Result<u128, ConstEvalError>,
    ty: RuntimeExpressionType,
    width: RuntimeWidth,
) -> Result<u64, CodegenErrorKind> {
    match value {
        Err(error) => Err(CodegenErrorKind::Execution(ExecutionError::Arithmetic(error))),
        Ok(value) => match ty {
            RuntimeExpressionType::Bool => if value > 1 {
                Err(CodegenErrorKind::ValueOutOfRange)
            } else {
                Ok(value as u64)
            },
            RuntimeExpressionType::Char => if value > 0x10ffff || 0xd800 <= value <= 0xdfff {
                Err(CodegenErrorKind::ValueOutOfRange)
            } else {
                Ok(value as u64)
            },
            RuntimeExpressionType::Integer(ty) => integer_register(value, ty, width),
            _ => Err(CodegenErrorKind::RuntimeExpressionUnsupported),
        },
    }
}

/// Only some number of locals is left.
#[verifier::opaque]
pub open spec fn truncated<R: ConstantResolver, const P: usize, const N: usize>(
    f: Frame<R, P, N>,
    s: Emission,
    checkpoint: usize,
) -> Emission {
    if checkpoint > s.locals.len() {
        failed(f, s, CodegenErrorKind::OutputTooSmall)
    } else {
        Emission { locals: s.locals.subrange(0, checkpoint as int), ..s }
    }
}

/// There is one more local.
#[verifier::opaque]
pub open spec fn with_local<R: ConstantResolver, const P: usize, const N: usize>(
    f: Frame<R, P, N>,
    s: Emission,
    local: LocalBinding,
    ty: RuntimeExpressionType,
) -> Emission {
    Emission {
        locals: s.locals.push(
            LocalModel {
                name: local.name@,
                ty,
                mutable: local.mutable,
                stack_slots: local_slots(ty),
            },
        ),
        ..s
    }
}

/// Code with a branch that leaves the loop.
#[verifier::opaque]
pub open spec fn left_loop<R: ConstantResolver, const P: usize, const N: usize>(
    f: Frame<R, P, N>,
    s: Emission,
) -> Emission {
    let at = branch_place(s, 1);
    let s = put(f, s, [0xe9u8, 0, 0, 0, 0]@);
    Emission { exits: s.exits.push(at), ..s }
}

/// Code with a branch that leaves the loop if a value is zero.
#[verifier::opaque]
pub open spec fn left_loop_on_zero<R: ConstantResolver, const P: usize, const N: usize>(
    f: Frame<R, P, N>,
    s: Emission,
) -> Emission {
    let at = branch_place(s, 2);
    let s = put(f, s, [0x0fu8, 0x84, 0, 0, 0, 0]@);
    Emission { exits: s.exits.push(at), ..s }
}

/// Code with a branch that leaves the inner loop.
#[verifier::opaque]
pub open spec fn left_inner_loop<R: ConstantResolver, const P: usize, const N: usize>(
    f: Frame<R, P, N>,
    s: Emission,
) -> Emission {
    let at = branch_place(s, 1);
    let s = put(f, s, [0xe9u8, 0, 0, 0, 0]@);
    Emission { inner_exits: s.inner_exits.push(at), ..s }
}

/// A loop begins.
pub open spec fn entered_loop<R: ConstantResolver, const P: usize, const N: usize>(
    f: Frame<R, P, N>,
    s: Emission,
) -> Emission {
    Emission { exits: seq![], ..s }
}

/// An inner loop begins.
pub open spec fn entered_inner_loop<R: ConstantResolver, const P: usize, const N: usize>(
    f: Frame<R, P, N>,
    s: Emission,
) -> Emission {
    Emission { inner_exits: seq![], ..s }
}

/// A loop ends: what leaves it goes on here.
#[verifier::opaque]
pub open spec fn ended_loop<R: ConstantResolver, const P: usize, const N: usize>(
    f: Frame<R, P, N>,
    s: Emission,
) -> Emission {
    landed_all(f, s, s.exits, 0)
}

/// An inner loop ends: what leaves it goes on here.
#[verifier::opaque]
pub open spec fn ended_inner_loop<R: ConstantResolver, const P: usize, const N: usize>(
    f: Frame<R, P, N>,
    s: Emission,
) -> Emission {
    landed_all(f, s, s.inner_exits, 0)
}

/// Code in which the branches to the trap lead there, from one of them on.
#[verifier::opaque]
pub open spec fn trapped_at<R: ConstantResolver, const P: usize, const N: usize>(
    f: Frame<R, P, N>,
    s: Emission,
    target: usize,
    from: int,
) -> Emission
    decreases s.traps.len() - from,
    when 0 <= from
{
    if from >= s.traps.len() {
        s
    } else {
        trapped_at(
            f,
            Emission { traps: s.traps, ..landed_at(f, s, s.traps[from], target) },
            target,
            from + 1,
        )
    }
}

/// Whether each branch to the trap leads there. The trap stands behind the code that was
/// there, and nothing else of that code is changed.
pub open spec fn traps_land(before: Emission, after: Emission) -> bool {
    let trap = before.code.len() as int;
    &&& after.code.len() == trap + 2
    &&& after.code[trap] == 0x0fu8
    &&& after.code[trap + 1] == 0x0bu8
    &&& forall|i: int| #![trigger before.traps[i]]
        0 <= i < before.traps.len() ==> after.code.subrange(
            before.traps[i] as int,
            before.traps[i] + 4,
        ) == word_bytes(trap - (before.traps[i] + 4))
    &&& forall|place: int| #![trigger after.code[place]]
        0 <= place < trap && (forall|i: int| #![trigger before.traps[i]]
            0 <= i < before.traps.len() ==> !(before.traps[i] <= place < before.traps[i] + 4))
            ==> after.code[place] == before.code[place]
}

/// Code that is whole: the trap stands behind it if something leads there.
#[verifier::opaque]
pub open spec fn finished<R: ConstantResolver, const P: usize, const N: usize>(
    f: Frame<R, P, N>,
    s: Emission,
) -> Emission {
    if s.traps.len() == 0 {
        s
    } else {
        let trap = place(s);
        trapped_at(f, put(f, s, [0x0fu8, 0x0b]@), trap, 0)
    }
}

/// Filling in the branches to the trap, from one of them on, fills in those and changes nothing
/// else.
proof fn filling_in_lands<R: ConstantResolver, const P: usize, const N: usize>(
    f: Frame<R, P, N>,
    s: Emission,
    target: usize,
    from: int,
)
    requires
        0 <= from <= s.traps.len(),
        sites_stand(s.traps, s.code.len() as int),
        trapped_at(f, s, target, from).failure is None,
    ensures
        ({
            let after = trapped_at(f, s, target, from);
            &&& s.failure is None
            &&& after.code.len() == s.code.len()
            &&& after.traps == s.traps
            &&& forall|i: int| #![trigger s.traps[i]]
                from <= i < s.traps.len() ==> after.code.subrange(
                    s.traps[i] as int,
                    s.traps[i] + 4,
                ) == word_bytes(target - (s.traps[i] + 4))
            &&& forall|place: int| #![trigger after.code[place]]
                0 <= place < s.code.len() && (forall|i: int| #![trigger s.traps[i]]
                    from <= i < s.traps.len() ==> !(s.traps[i] <= place < s.traps[i] + 4))
                    ==> after.code[place] == s.code[place]
        }),
    decreases s.traps.len() - from,
{
    reveal(trapped_at);
    if from < s.traps.len() {
        reveal(landed_at);
        reveal(sites_stand);
        let at = s.traps[from];
        let next = Emission { traps: s.traps, ..landed_at(f, s, at, target) };
        assert(next.code.len() == s.code.len());
        filling_in_lands(f, next, target, from + 1);
        let after = trapped_at(f, s, target, from);
        assert(after == trapped_at(f, next, target, from + 1));
        assert forall|i: int| #![trigger s.traps[i]] from <= i < s.traps.len() implies after.code.subrange(
            s.traps[i] as int,
            s.traps[i] + 4,
        ) == word_bytes(target - (s.traps[i] + 4)) by {
            if i == from {
                assert forall|place: int| at <= place < at + 4 implies after.code[place]
                    == next.code[place] by {
                    assert forall|j: int| #![trigger s.traps[j]] from + 1 <= j < s.traps.len() implies !(
                    s.traps[j] <= place < s.traps[j] + 4) by {
                        assert(s.traps[from] + 4 <= s.traps[j]);
                    }
                }
                assert(after.code.subrange(at as int, at + 4) =~= word_bytes(target - (at + 4)));
            }
        }
        assert forall|place: int| #![trigger after.code[place]]
            0 <= place < s.code.len() && (forall|i: int| #![trigger s.traps[i]]
                from <= i < s.traps.len() ==> !(s.traps[i] <= place < s.traps[i] + 4)) implies after.code[place]
            == s.code[place] by {
            assert(!(s.traps[from] <= place < s.traps[from] + 4));
            assert(next.code[place] == s.code[place]);
        }
    }
}

/// Code that is whole is the code that was there, but for the distances of the branches to the
/// trap, with the trap behind it: each of those branches leads to the trap.
pub proof fn each_trap_branch_leads_to_the_trap<
    R: ConstantResolver,
    const P: usize,
    const N: usize,
>(f: Frame<R, P, N>, s: Emission)
    requires
        s.traps.len() > 0,
        s.code.len() <= usize::MAX,
        sites_stand(s.traps, s.code.len() as int),
        finished(f, s).failure is None,
    ensures
        traps_land(s, finished(f, s)),
{
    reveal(finished);
    reveal(place);
    reveal(put);
    reveal(sites_stand);
    let trap = place(s);
    let start = put(f, s, [0x0fu8, 0x0b]@);
    assert(sites_stand(start.traps, start.code.len() as int));
    filling_in_lands(f, start, trap, 0);
    let after = finished(f, s);
    assert(start.code == s.code + [0x0fu8, 0x0b]@);
    assert(after.code[trap as int] == start.code[trap as int]);
    assert(after.code[trap + 1] == start.code[trap + 1]);
}

} // verus!
