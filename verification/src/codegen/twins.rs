//! Two runs beside each other: on one function, with more or less room for the code, and with or
//! without checks of overflow.
use crate::codegen::error::{
    CodegenError, CodegenErrorKind,
};
use crate::codegen::frame::Frame;
use crate::codegen::runtime::{
    RuntimeExpressionType, RuntimeWidth,
};
use crate::codegen::emission::{
    Emission, branch_place, ended_inner_loop, ended_loop, finished, landed, landed_all,
    landed_at, left_inner_loop, left_loop, left_loop_on_zero, place, put, raised, released,
    returned_to, trapped, trapped_at, truncated, with_local,
};
use crate::codegen::instructions::{
    emitted_carry_check, emitted_normal, emitted_normal_width, emitted_range_check,
};
use crate::codegen::trees::LoopPlaces;
use crate::expression::ConstantResolver;
use crate::function::LocalBinding;
use vstd::prelude::*;

verus! {

/// Whether something failed because the output is too small.
pub open spec fn too_small(failure: Option<CodegenError>) -> bool {
    failure matches Some(error) && error.kind == CodegenErrorKind::OutputTooSmall
}

/// Whether a register can hold numbers of a width.
pub open spec fn usual_width(width: RuntimeWidth) -> bool {
    width.bits == 8 || width.bits == 16 || width.bits == 32 || width.bits == 64
}

/// Whether two states hold the same code.
pub open spec fn same_code(s1: Emission, s2: Emission) -> bool {
    &&& s1.overflow_checks == s2.overflow_checks
    &&& s1.code == s2.code
    &&& s1.traps == s2.traps
    &&& s1.exits == s2.exits
    &&& s1.inner_exits == s2.inner_exits
    &&& s1.failure == s2.failure
}

/// Whether two states belong to two runs on one function that differ in the room for the code or
/// in whether overflow is checked.
///
/// They know the same locals, temporaries and width, and failed alike unless one of them ran out
/// of room. Where they check alike and the first has no more room, the first holds the code of
/// the second, or it ran out of room and the second needs more.
pub open spec fn twins(s1: Emission, s2: Emission) -> bool {
    &&& s1.locals == s2.locals
    &&& s1.temporaries == s2.temporaries
    &&& s1.width == s2.width
    &&& usual_width(s1.width)
    &&& s1.failure == s2.failure || too_small(s1.failure) || too_small(s2.failure)
    &&& s1.overflow_checks == s2.overflow_checks ==> {
        &&& s1.capacity <= s2.capacity
        &&& s1.code.len() <= s1.capacity
        &&& same_code(s1, s2) || too_small(s1.failure) && s2.code.len() > s1.capacity
    }
}

/// Whether two runs go on as twins.
pub open spec fn follow(s1: Emission, s2: Emission, t1: Emission, t2: Emission) -> bool {
    &&& twins(t1, t2)
    &&& same_code(t1, t2) ==> same_code(s1, s2)
    &&& t1.capacity == s1.capacity
    &&& t2.capacity == s2.capacity
    &&& t1.overflow_checks == s1.overflow_checks
    &&& t2.overflow_checks == s2.overflow_checks
}

/// Whether the loops of two runs keep the same locals, and begin at the same places where the
/// code is the same.
pub open spec fn loops_alike(s1: Emission, s2: Emission, p1: LoopPlaces, p2: LoopPlaces) -> bool {
    &&& p1.checkpoint == p2.checkpoint
    &&& p1.inner_checkpoint == p2.inner_checkpoint
    &&& same_code(s1, s2) ==> p1 == p2
}

/// Whether nothing but the code is changed, and nothing fails but for want of room.
pub open spec fn adds_code(s: Emission, t: Emission) -> bool {
    &&& t.locals == s.locals
    &&& t.temporaries == s.temporaries
    &&& t.width == s.width
    &&& t.failure == s.failure || s.failure is None && too_small(t.failure)
    &&& t.capacity == s.capacity
    &&& t.overflow_checks == s.overflow_checks
}

pub(crate) proof fn put_twins<R: ConstantResolver, const P: usize, const N: usize>(
    f: Frame<R, P, N>,
    s1: Emission,
    s2: Emission,
    bytes: Seq<u8>,
)
    requires
        twins(s1, s2),
    ensures
        follow(s1, s2, put(f, s1, bytes), put(f, s2, bytes)),
{
    reveal(put);
}

pub(crate) proof fn put_adds_code<R: ConstantResolver, const P: usize, const N: usize>(
    f: Frame<R, P, N>,
    s: Emission,
    bytes: Seq<u8>,
)
    ensures
        adds_code(s, put(f, s, bytes)),
{
    reveal(put);
}

pub(crate) proof fn landed_twins<R: ConstantResolver, const P: usize, const N: usize>(
    f: Frame<R, P, N>,
    s1: Emission,
    s2: Emission,
    at1: usize,
    at2: usize,
)
    requires
        twins(s1, s2),
        same_code(s1, s2) ==> at1 == at2,
    ensures
        follow(s1, s2, landed(f, s1, at1), landed(f, s2, at2)),
{
    reveal(landed);
    reveal(landed_at);
}

pub(crate) proof fn returned_to_twins<R: ConstantResolver, const P: usize, const N: usize>(
    f: Frame<R, P, N>,
    s1: Emission,
    s2: Emission,
    target1: usize,
    target2: usize,
)
    requires
        twins(s1, s2),
        same_code(s1, s2) ==> target1 == target2,
    ensures
        follow(s1, s2, returned_to(f, s1, target1), returned_to(f, s2, target2)),
{
    reveal(returned_to);
    reveal(put);
}

pub(crate) proof fn trapped_twins<R: ConstantResolver, const P: usize, const N: usize>(
    f: Frame<R, P, N>,
    s1: Emission,
    s2: Emission,
    opcode: u8,
)
    requires
        twins(s1, s2),
    ensures
        follow(s1, s2, trapped(f, s1, opcode), trapped(f, s2, opcode)),
{
    reveal(trapped);
    reveal(put);
    reveal(branch_place);
}

pub(crate) proof fn trapped_adds_code<R: ConstantResolver, const P: usize, const N: usize>(
    f: Frame<R, P, N>,
    s: Emission,
    opcode: u8,
)
    ensures
        adds_code(s, trapped(f, s, opcode)),
{
    reveal(trapped);
    reveal(put);
}

pub(crate) proof fn raised_twins<R: ConstantResolver, const P: usize, const N: usize>(
    f: Frame<R, P, N>,
    s1: Emission,
    s2: Emission,
    count: usize,
)
    requires
        twins(s1, s2),
    ensures
        follow(s1, s2, raised(f, s1, count), raised(f, s2, count)),
{
    reveal(raised);
}

pub(crate) proof fn released_twins<R: ConstantResolver, const P: usize, const N: usize>(
    f: Frame<R, P, N>,
    s1: Emission,
    s2: Emission,
    count: usize,
)
    requires
        twins(s1, s2),
    ensures
        follow(s1, s2, released(f, s1, count), released(f, s2, count)),
{
    reveal(released);
}

pub(crate) proof fn truncated_twins<R: ConstantResolver, const P: usize, const N: usize>(
    f: Frame<R, P, N>,
    s1: Emission,
    s2: Emission,
    checkpoint: usize,
)
    requires
        twins(s1, s2),
    ensures
        follow(s1, s2, truncated(f, s1, checkpoint), truncated(f, s2, checkpoint)),
{
    reveal(truncated);
}

pub(crate) proof fn with_local_twins<R: ConstantResolver, const P: usize, const N: usize>(
    f: Frame<R, P, N>,
    s1: Emission,
    s2: Emission,
    local: LocalBinding,
    ty: RuntimeExpressionType,
)
    requires
        twins(s1, s2),
    ensures
        follow(s1, s2, with_local(f, s1, local, ty), with_local(f, s2, local, ty)),
{
    reveal(with_local);
}

pub(crate) proof fn left_loop_twins<R: ConstantResolver, const P: usize, const N: usize>(
    f: Frame<R, P, N>,
    s1: Emission,
    s2: Emission,
)
    requires
        twins(s1, s2),
    ensures
        follow(s1, s2, left_loop(f, s1), left_loop(f, s2)),
{
    reveal(left_loop);
    reveal(put);
    reveal(branch_place);
}

pub(crate) proof fn left_loop_on_zero_twins<R: ConstantResolver, const P: usize, const N: usize>(
    f: Frame<R, P, N>,
    s1: Emission,
    s2: Emission,
)
    requires
        twins(s1, s2),
    ensures
        follow(s1, s2, left_loop_on_zero(f, s1), left_loop_on_zero(f, s2)),
{
    reveal(left_loop_on_zero);
    reveal(put);
    reveal(branch_place);
}

pub(crate) proof fn left_inner_loop_twins<R: ConstantResolver, const P: usize, const N: usize>(
    f: Frame<R, P, N>,
    s1: Emission,
    s2: Emission,
)
    requires
        twins(s1, s2),
    ensures
        follow(s1, s2, left_inner_loop(f, s1), left_inner_loop(f, s2)),
{
    reveal(left_inner_loop);
    reveal(put);
    reveal(branch_place);
}

proof fn landed_all_keeps<R: ConstantResolver, const P: usize, const N: usize>(
    f: Frame<R, P, N>,
    s: Emission,
    branches: Seq<usize>,
    from: int,
)
    requires
        0 <= from,
    ensures
        adds_code(s, landed_all(f, s, branches, from)),
        landed_all(f, s, branches, from).code.len() == s.code.len(),
    decreases branches.len() - from,
{
    reveal(landed_all);
    reveal(landed);
    reveal(landed_at);
    if from < branches.len() {
        landed_all_keeps(f, landed(f, s, branches[from]), branches, from + 1);
    }
}

proof fn landed_all_alike<R: ConstantResolver, const P: usize, const N: usize>(
    f: Frame<R, P, N>,
    s1: Emission,
    s2: Emission,
    branches: Seq<usize>,
    from: int,
)
    requires
        0 <= from,
        same_code(s1, s2),
    ensures
        same_code(landed_all(f, s1, branches, from), landed_all(f, s2, branches, from)),
    decreases branches.len() - from,
{
    reveal(landed_all);
    reveal(landed);
    reveal(landed_at);
    if from < branches.len() {
        landed_all_alike(
            f,
            landed(f, s1, branches[from]),
            landed(f, s2, branches[from]),
            branches,
            from + 1,
        );
    }
}

proof fn trapped_at_keeps<R: ConstantResolver, const P: usize, const N: usize>(
    f: Frame<R, P, N>,
    s: Emission,
    target: usize,
    from: int,
)
    requires
        0 <= from,
    ensures
        adds_code(s, trapped_at(f, s, target, from)),
        trapped_at(f, s, target, from).code.len() == s.code.len(),
    decreases s.traps.len() - from,
{
    reveal(trapped_at);
    reveal(landed_at);
    if from < s.traps.len() {
        trapped_at_keeps(
            f,
            Emission { traps: s.traps, ..landed_at(f, s, s.traps[from], target) },
            target,
            from + 1,
        );
    }
}

proof fn trapped_at_alike<R: ConstantResolver, const P: usize, const N: usize>(
    f: Frame<R, P, N>,
    s1: Emission,
    s2: Emission,
    target: usize,
    from: int,
)
    requires
        0 <= from,
        same_code(s1, s2),
    ensures
        same_code(trapped_at(f, s1, target, from), trapped_at(f, s2, target, from)),
    decreases s1.traps.len() - from,
{
    reveal(trapped_at);
    reveal(landed_at);
    if from < s1.traps.len() {
        trapped_at_alike(
            f,
            Emission { traps: s1.traps, ..landed_at(f, s1, s1.traps[from], target) },
            Emission { traps: s2.traps, ..landed_at(f, s2, s2.traps[from], target) },
            target,
            from + 1,
        );
    }
}

pub(crate) proof fn ended_loop_twins<R: ConstantResolver, const P: usize, const N: usize>(
    f: Frame<R, P, N>,
    s1: Emission,
    s2: Emission,
)
    requires
        twins(s1, s2),
    ensures
        follow(s1, s2, ended_loop(f, s1), ended_loop(f, s2)),
{
    reveal(ended_loop);
    landed_all_keeps(f, s1, s1.exits, 0);
    landed_all_keeps(f, s2, s2.exits, 0);
    if same_code(s1, s2) {
        landed_all_alike(f, s1, s2, s1.exits, 0);
    }
}

pub(crate) proof fn ended_inner_loop_twins<R: ConstantResolver, const P: usize, const N: usize>(
    f: Frame<R, P, N>,
    s1: Emission,
    s2: Emission,
)
    requires
        twins(s1, s2),
    ensures
        follow(s1, s2, ended_inner_loop(f, s1), ended_inner_loop(f, s2)),
{
    reveal(ended_inner_loop);
    landed_all_keeps(f, s1, s1.inner_exits, 0);
    landed_all_keeps(f, s2, s2.inner_exits, 0);
    if same_code(s1, s2) {
        landed_all_alike(f, s1, s2, s1.inner_exits, 0);
    }
}

pub(crate) proof fn finished_twins<R: ConstantResolver, const P: usize, const N: usize>(
    f: Frame<R, P, N>,
    s1: Emission,
    s2: Emission,
)
    requires
        twins(s1, s2),
    ensures
        follow(s1, s2, finished(f, s1), finished(f, s2)),
{
    reveal(finished);
    reveal(place);
    put_twins(f, s1, s2, [0x0fu8, 0x0b]@);
    put_adds_code(f, s1, [0x0fu8, 0x0b]@);
    put_adds_code(f, s2, [0x0fu8, 0x0b]@);
    let t1 = put(f, s1, [0x0fu8, 0x0b]@);
    let t2 = put(f, s2, [0x0fu8, 0x0b]@);
    assert(t1.traps == s1.traps && t2.traps == s2.traps && s2.code.len() <= t2.code.len()) by {
        reveal(put);
    }
    trapped_at_keeps(f, t1, place(s1), 0);
    trapped_at_keeps(f, t2, place(s2), 0);
    if same_code(t1, t2) {
        trapped_at_alike(f, t1, t2, place(s1), 0);
    }
}

pub(crate) proof fn emitted_normal_width_adds_code<R: ConstantResolver, const P: usize, const N: usize>(
    f: Frame<R, P, N>,
    s: Emission,
    width: RuntimeWidth,
)
    requires
        usual_width(width),
    ensures
        adds_code(s, emitted_normal_width(f, s, width)),
{
    reveal(emitted_normal_width);
    reveal(put);
}

pub(crate) proof fn emitted_normal_adds_code<R: ConstantResolver, const P: usize, const N: usize>(
    f: Frame<R, P, N>,
    s: Emission,
)
    requires
        usual_width(s.width),
    ensures
        adds_code(s, emitted_normal(f, s)),
{
    reveal(emitted_normal);
    emitted_normal_width_adds_code(f, s, s.width);
}

pub(crate) proof fn emitted_carry_check_adds_code<R: ConstantResolver, const P: usize, const N: usize>(
    f: Frame<R, P, N>,
    s: Emission,
)
    ensures
        adds_code(s, emitted_carry_check(f, s)),
{
    reveal(emitted_carry_check);
    trapped_adds_code(f, s, 0x80);
    trapped_adds_code(f, s, 0x82);
}

pub(crate) proof fn emitted_range_check_adds_code<R: ConstantResolver, const P: usize, const N: usize>(
    f: Frame<R, P, N>,
    s: Emission,
)
    ensures
        adds_code(s, emitted_range_check(f, s)),
{
    reveal(emitted_range_check);
    reveal(put);
    reveal(trapped);
}

} // verus!
