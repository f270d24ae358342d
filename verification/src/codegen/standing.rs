//! Code that is added, and where it stands in the whole code.
use crate::expression::ConstantResolver;
use crate::codegen::machine::{
    Machine, Outcome, leads, meets, next, next_leads, next_leads_on, performed, word_at,
};
use crate::codegen::decoding::{
    branch_is_read, stop_is_read,
};
use crate::codegen::emission::{
    Emission, branch_place, place, put, trapped,
};
use crate::codegen::frame::Frame;
use vstd::prelude::*;

verus! {

/// Whether the distance of a branch leads to where the program is stopped.
pub open spec fn leads_to_trap(whole: Seq<u8>, site: int) -> bool {
    let target = site + 4 + word_at(whole, site);
    &&& 0 <= site
    &&& site + 4 <= whole.len()
    &&& 0 <= target
    &&& target + 2 <= whole.len()
    &&& whole[target] == 0x0fu8
    &&& whole[target + 1] == 0x0bu8
}

/// Whether a place is one of a distance that leads to the trap, among those from one of them on.
pub open spec fn in_trap_site(s: Emission, from: int, place: int) -> bool {
    exists|i: int| from <= i < s.traps.len() && #[trigger] s.traps[i] <= place < s.traps[i] + 4
}

/// Whether code has been added, and nothing else has been changed that was there.
#[verifier::opaque]
pub open spec fn grown(before: Emission, after: Emission) -> bool {
    &&& before.failure is None
    &&& after.failure is None
    &&& before.code.len() <= after.code.len()
    &&& forall|i: int| 0 <= i < before.code.len() ==> #[trigger] after.code[i] == before.code[i]
    &&& before.traps.len() <= after.traps.len()
    &&& forall|i: int| 0 <= i < before.traps.len() ==> #[trigger] after.traps[i] == before.traps[i]
    &&& forall|i: int|
        before.traps.len() <= i < after.traps.len() ==> before.code.len() <= #[trigger] after.traps[i]
            && after.traps[i] + 4 <= after.code.len()
    &&& forall|i: int, j: int|
        before.traps.len() <= i < j < after.traps.len() ==> #[trigger] after.traps[i] + 4
            <= #[trigger] after.traps[j]
}

/// Whether the code that has been added stands in the whole code, where the branches to the trap
/// lead there.
#[verifier::opaque]
pub open spec fn stands(whole: Seq<u8>, before: Emission, after: Emission) -> bool {
    &&& after.code.len() <= whole.len()
    &&& forall|place: int|
        before.code.len() <= place < after.code.len() && !in_trap_site(
            after,
            before.traps.len() as int,
            place,
        ) ==> #[trigger] whole[place] == after.code[place]
    &&& forall|i: int|
        before.traps.len() <= i < after.traps.len() ==> leads_to_trap(
            whole,
            #[trigger] after.traps[i] as int,
        )
}

/// Code that has been added in two parts.
pub proof fn grown_twice(first: Emission, second: Emission, third: Emission)
    requires
        grown(first, second),
        grown(second, third),
    ensures
        grown(first, third),
{
    reveal(grown);
    assert forall|i: int| 0 <= i < first.code.len() implies #[trigger] third.code[i] == first.code[i] by {
        assert(second.code[i] == first.code[i]);
    }
    assert forall|i: int| 0 <= i < first.traps.len() implies #[trigger] third.traps[i]
        == first.traps[i] by {
        assert(second.traps[i] == first.traps[i]);
    }
    assert forall|i: int| first.traps.len() <= i < third.traps.len() implies first.code.len()
        <= #[trigger] third.traps[i] && third.traps[i] + 4 <= third.code.len() by {
        if i < second.traps.len() {
            assert(third.traps[i] == second.traps[i]);
        }
    }
    assert forall|i: int, j: int|
        first.traps.len() <= i < j < third.traps.len() implies #[trigger] third.traps[i] + 4
        <= #[trigger] third.traps[j] by {
        if i < second.traps.len() {
            assert(third.traps[i] == second.traps[i]);
            if j < second.traps.len() {
                assert(third.traps[j] == second.traps[j]);
            }
        }
    }
}

/// Code that has been added in two parts stands where both parts stand.
pub proof fn both_parts_stand(whole: Seq<u8>, first: Emission, second: Emission, third: Emission)
    requires
        grown(first, second),
        grown(second, third),
        stands(whole, first, third),
    ensures
        stands(whole, first, second),
        stands(whole, second, third),
        grown(first, third),
{
    grown_twice(first, second, third);
    reveal(grown);
    reveal(stands);
    let low = first.traps.len() as int;
    let middle = second.traps.len() as int;
    assert forall|place: int|
        first.code.len() <= place < second.code.len() && !in_trap_site(second, low, place) implies #[trigger] whole[place]
        == second.code[place] by {
        assert(!in_trap_site(third, low, place)) by {
            if in_trap_site(third, low, place) {
                let i = choose|i: int|
                    low <= i < third.traps.len() && #[trigger] third.traps[i] <= place
                        < third.traps[i] + 4;
                if i < middle {
                    assert(third.traps[i] == second.traps[i]);
                    assert(second.traps[i] <= place < second.traps[i] + 4);
                }
            }
        }
        assert(third.code[place] == second.code[place]);
    }
    assert forall|place: int|
        second.code.len() <= place < third.code.len() && !in_trap_site(third, middle, place) implies #[trigger] whole[place]
        == third.code[place] by {
        assert(!in_trap_site(third, low, place)) by {
            if in_trap_site(third, low, place) {
                let i = choose|i: int|
                    low <= i < third.traps.len() && #[trigger] third.traps[i] <= place
                        < third.traps[i] + 4;
                if i < middle {
                    assert(third.traps[i] == second.traps[i]);
                    assert(second.traps[i] + 4 <= second.code.len());
                } else {
                    assert(in_trap_site(third, middle, place));
                }
            }
        }
    }
    assert forall|i: int| low <= i < second.traps.len() implies leads_to_trap(
        whole,
        #[trigger] second.traps[i] as int,
    ) by {
        assert(third.traps[i] == second.traps[i]);
    }
}

/// Bytes that are put behind the code.
pub proof fn put_grows<R: ConstantResolver, const P: usize, const N: usize>(
    f: Frame<R, P, N>,
    s: Emission,
    bytes: Seq<u8>,
)
    ensures
        put(f, s, bytes).failure is None ==> {
            &&& s.failure is None
            &&& s.code.len() + bytes.len() <= s.capacity
            &&& grown(s, put(f, s, bytes))
            &&& put(f, s, bytes) == (Emission { code: s.code + bytes, ..s })
        },
{
    reveal(put);
    reveal(grown);
}

/// Bytes that are put behind the code stand in the whole code.
pub proof fn put_stands<R: ConstantResolver, const P: usize, const N: usize>(
    whole: Seq<u8>,
    f: Frame<R, P, N>,
    s: Emission,
    bytes: Seq<u8>,
)
    requires
        put(f, s, bytes).failure is None,
        stands(whole, s, put(f, s, bytes)),
    ensures
        s.code.len() + bytes.len() <= whole.len(),
        forall|i: int| 0 <= i < bytes.len() ==> whole[s.code.len() + i] == #[trigger] bytes[i],
{
    reveal(put);
    reveal(stands);
    let after = put(f, s, bytes);
    assert forall|i: int| 0 <= i < bytes.len() implies whole[s.code.len() + i] == #[trigger] bytes[i] by {
        assert(whole[s.code.len() + i] == after.code[s.code.len() + i]);
    }
}

/// A branch to the trap.
pub proof fn trapped_grows<R: ConstantResolver, const P: usize, const N: usize>(
    f: Frame<R, P, N>,
    s: Emission,
    opcode: u8,
)
    ensures
        trapped(f, s, opcode).failure is None ==> {
            &&& s.failure is None
            &&& s.code.len() + 6 <= s.capacity
            &&& grown(s, trapped(f, s, opcode))
            &&& trapped(f, s, opcode) == (Emission {
                code: s.code + [0x0fu8, opcode, 0, 0, 0, 0]@,
                traps: s.traps.push((s.code.len() + 2) as usize),
                ..s
            })
        },
{
    reveal(put);
    reveal(trapped);
    reveal(grown);
    reveal(branch_place);
}

/// A branch to the trap stands in the whole code.
pub proof fn trapped_stands<R: ConstantResolver, const P: usize, const N: usize>(
    whole: Seq<u8>,
    f: Frame<R, P, N>,
    s: Emission,
    opcode: u8,
)
    requires
        trapped(f, s, opcode).failure is None,
        stands(whole, s, trapped(f, s, opcode)),
    ensures
        s.code.len() + 6 <= whole.len(),
        whole[s.code.len() as int] == 0x0fu8,
        whole[s.code.len() as int + 1] == opcode,
        leads_to_trap(whole, s.code.len() as int + 2),
{
    trapped_grows(f, s, opcode);
    reveal(stands);
    let after = trapped(f, s, opcode);
    let n = s.code.len() as int;
    assert(after.traps[s.traps.len() as int] == n + 2);
    assert(!in_trap_site(after, s.traps.len() as int, n));
    assert(!in_trap_site(after, s.traps.len() as int, n + 1));
    assert(whole[n] == after.code[n]);
    assert(whole[n + 1] == after.code[n + 1]);
}

/// A branch to the trap stops the program where its condition holds, and does nothing else.
pub proof fn trap_branch_leads(whole: Seq<u8>, m: Machine, opcode: u8)
    requires
        0 <= m.at,
        m.at + 6 <= whole.len(),
        whole[m.at] == 0x0fu8,
        whole[m.at + 1] == opcode,
        0x80 <= opcode <= 0x8f,
        leads_to_trap(whole, m.at + 2),
    ensures
        if meets(m, opcode - 0x80) {
            leads(whole, m, Outcome::Trapped)
        } else {
            next(whole, m) == Outcome::Running(Machine { at: m.at + 6, ..m })
        },
{
    reveal(performed);
    branch_is_read(whole, m.at, opcode);
    if meets(m, opcode - 0x80) {
        let target = m.at + 6 + word_at(whole, m.at + 2);
        let there = Machine { at: target, ..m };
        assert(meets(Machine { at: m.at + 6, ..m }, opcode - 0x80));
        stop_is_read(whole, target);
        next_leads(whole, there);
        next_leads_on(whole, m, there, Outcome::Trapped);
    } else {
        assert(!meets(Machine { at: m.at + 6, ..m }, opcode - 0x80));
    }
}

} // verus!
