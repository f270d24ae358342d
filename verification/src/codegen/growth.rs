//! How code grows.
use crate::expression::ConstantResolver;
use crate::function::LocalBinding;
use crate::codegen::standing::{
    grown, grown_twice, put_grows, trapped_grows,
};
use crate::codegen::emission::{
    Emission, branch_place, ended_inner_loop, ended_loop, landed, landed_all, landed_at,
    left_inner_loop, left_loop, left_loop_on_zero, put, raised, released, returned_to,
    trapped, truncated, with_local, word_bytes,
};
use crate::codegen::frame::Frame;
use crate::codegen::runtime::RuntimeExpressionType;
use vstd::prelude::*;

verus! {

/// Whether places are those that were there, or lie in the code that has been added.
pub open spec fn places_within(before: Seq<usize>, after: Seq<usize>, from: int, to: int) -> bool {
    forall|i: int|
        0 <= i < after.len() ==> i < before.len() && #[trigger] after[i] == before[i] || from
            <= after[i] && after[i] + 4 <= to
}

/// Whether code has been added, with all the places that are filled in later.
pub open spec fn added(before: Emission, after: Emission) -> bool {
    &&& before.code.len() <= after.code.len()
    &&& grown_with_places(before, after)
}

#[verifier::opaque]
pub open spec fn grown_with_places(before: Emission, after: Emission) -> bool {
    &&& grown(before, after)
    &&& places_within(
        before.exits,
        after.exits,
        before.code.len() as int,
        after.code.len() as int,
    )
    &&& places_within(
        before.inner_exits,
        after.inner_exits,
        before.code.len() as int,
        after.code.len() as int,
    )
}

/// Whether places stay the first of a list.
#[verifier::opaque]
pub open spec fn kept(before: Seq<usize>, after: Seq<usize>) -> bool {
    &&& before.len() <= after.len()
    &&& forall|i: int| 0 <= i < before.len() ==> #[trigger] after[i] == before[i]
}

/// Whether code that has been added to some code is, with more code, still code that has been added
/// to it. `level` tells whether it leaves loops, and whether loops begin in it.
pub open spec fn goes_on(base: Emission, s: Emission, after: Emission, level: int) -> bool {
    after.failure is None ==> {
        &&& s.failure is None
        &&& after.overflow_checks == s.overflow_checks
        &&& added(base, s) ==> added(base, after)
        &&& level < 2 && kept(base.exits, s.exits) ==> kept(base.exits, after.exits)
        &&& level < 1 && kept(base.inner_exits, s.inner_exits) ==> kept(
            base.inner_exits,
            after.inner_exits,
        )
        &&& level < 0 ==> after.exits == s.exits && after.inner_exits == s.inner_exits
    }
}

/// Code to which nothing has been added yet.
pub proof fn nothing_is_added(s: Emission)
    requires
        s.failure is None,
    ensures
        added(s, s),
        kept(s.exits, s.exits),
        kept(s.inner_exits, s.inner_exits),
{
    reveal(grown_with_places);
    reveal(grown);
    reveal(kept);
}

/// Code that has been added in two parts.
pub proof fn added_twice(first: Emission, second: Emission, third: Emission)
    requires
        added(first, second),
        added(second, third),
    ensures
        added(first, third),
{
    reveal(grown_with_places);
    grown_twice(first, second, third);
    assert forall|i: int| 0 <= i < third.exits.len() implies i < first.exits.len()
        && #[trigger] third.exits[i] == first.exits[i] || first.code.len() <= third.exits[i]
        && third.exits[i] + 4 <= third.code.len() by {
        if i < second.exits.len() && third.exits[i] == second.exits[i] {
            assert(i < first.exits.len() && second.exits[i] == first.exits[i] || first.code.len()
                <= second.exits[i] && second.exits[i] + 4 <= second.code.len());
        }
    }
    assert forall|i: int| 0 <= i < third.inner_exits.len() implies i < first.inner_exits.len()
        && #[trigger] third.inner_exits[i] == first.inner_exits[i] || first.code.len()
        <= third.inner_exits[i] && third.inner_exits[i] + 4 <= third.code.len() by {
        if i < second.inner_exits.len() && third.inner_exits[i] == second.inner_exits[i] {
            assert(i < first.inner_exits.len() && second.inner_exits[i] == first.inner_exits[i]
                || first.code.len() <= second.inner_exits[i] && second.inner_exits[i] + 4
                <= second.code.len());
        }
    }
}

/// Bytes that are added.
pub proof fn put_adds<R: ConstantResolver, const P: usize, const N: usize>(
    base: Emission,
    f: Frame<R, P, N>,
    s: Emission,
    bytes: Seq<u8>,
)
    ensures
        goes_on(base, s, put(f, s, bytes), -1),
        put(f, s, bytes).failure is None ==> s.code.len() + bytes.len() <= usize::MAX,
{
    let after = put(f, s, bytes);
    put_grows(f, s, bytes);
    reveal(grown_with_places);
    if after.failure is None && added(base, s) {
        grown_twice(base, s, after);
        assert forall|i: int| 0 <= i < after.exits.len() implies i < base.exits.len()
            && #[trigger] after.exits[i] == base.exits[i] || base.code.len() <= after.exits[i]
            && after.exits[i] + 4 <= after.code.len() by {
            assert(after.exits[i] == s.exits[i]);
        }
        assert forall|i: int| 0 <= i < after.inner_exits.len() implies i < base.inner_exits.len()
            && #[trigger] after.inner_exits[i] == base.inner_exits[i] || base.code.len()
            <= after.inner_exits[i] && after.inner_exits[i] + 4 <= after.code.len() by {
            assert(after.inner_exits[i] == s.inner_exits[i]);
        }
    }
}

/// A branch to the trap.
pub proof fn trapped_adds<R: ConstantResolver, const P: usize, const N: usize>(
    base: Emission,
    f: Frame<R, P, N>,
    s: Emission,
    opcode: u8,
)
    ensures
        goes_on(base, s, trapped(f, s, opcode), -1),
{
    let after = trapped(f, s, opcode);
    trapped_grows(f, s, opcode);
    reveal(grown_with_places);
    if after.failure is None && added(base, s) {
        grown_twice(base, s, after);
        assert forall|i: int| 0 <= i < after.exits.len() implies i < base.exits.len()
            && #[trigger] after.exits[i] == base.exits[i] || base.code.len() <= after.exits[i]
            && after.exits[i] + 4 <= after.code.len() by {
            assert(after.exits[i] == s.exits[i]);
        }
        assert forall|i: int| 0 <= i < after.inner_exits.len() implies i < base.inner_exits.len()
            && #[trigger] after.inner_exits[i] == base.inner_exits[i] || base.code.len()
            <= after.inner_exits[i] && after.inner_exits[i] + 4 <= after.code.len() by {
            assert(after.inner_exits[i] == s.inner_exits[i]);
        }
    }
}

/// Code with other locals or other temporaries.
pub proof fn same_code_is_added(base: Emission, s: Emission, after: Emission)
    requires
        after.failure == s.failure,
        after.code == s.code,
        after.traps == s.traps,
        after.exits == s.exits,
        after.inner_exits == s.inner_exits,
    ensures
        added(base, s) ==> added(base, after),
{
    reveal(grown_with_places);
    reveal(grown);
}

pub proof fn raised_adds<R: ConstantResolver, const P: usize, const N: usize>(
    base: Emission,
    f: Frame<R, P, N>,
    s: Emission,
    count: usize,
)
    ensures
        goes_on(base, s, raised(f, s, count), -1),
{
    reveal(raised);
    let after = raised(f, s, count);
    if after.failure is None {
        same_code_is_added(base, s, after);
    }
}

pub proof fn released_adds<R: ConstantResolver, const P: usize, const N: usize>(
    base: Emission,
    f: Frame<R, P, N>,
    s: Emission,
    count: usize,
)
    ensures
        goes_on(base, s, released(f, s, count), -1),
{
    reveal(released);
    let after = released(f, s, count);
    if after.failure is None {
        same_code_is_added(base, s, after);
    }
}

pub proof fn truncated_adds<R: ConstantResolver, const P: usize, const N: usize>(
    base: Emission,
    f: Frame<R, P, N>,
    s: Emission,
    checkpoint: usize,
)
    ensures
        goes_on(base, s, truncated(f, s, checkpoint), -1),
{
    reveal(truncated);
    let after = truncated(f, s, checkpoint);
    if after.failure is None {
        same_code_is_added(base, s, after);
    }
}

pub proof fn with_local_adds<R: ConstantResolver, const P: usize, const N: usize>(
    base: Emission,
    f: Frame<R, P, N>,
    s: Emission,
    local: LocalBinding,
    ty: RuntimeExpressionType,
)
    ensures
        goes_on(base, s, with_local(f, s, local, ty), -1),
{
    reveal(with_local);
    same_code_is_added(base, s, with_local(f, s, local, ty));
}

/// A branch back.
pub proof fn returned_to_adds<R: ConstantResolver, const P: usize, const N: usize>(
    base: Emission,
    f: Frame<R, P, N>,
    s: Emission,
    target: usize,
)
    ensures
        goes_on(base, s, returned_to(f, s, target), -1),
{
    reveal(returned_to);
    let opcode = [0xe9u8]@;
    put_adds(base, f, s, opcode);
    put_adds(base, f, put(f, s, opcode), word_bytes(target - (s.code.len() + 5)));
}

pub proof fn left_loop_adds<R: ConstantResolver, const P: usize, const N: usize>(
    base: Emission,
    f: Frame<R, P, N>,
    s: Emission,
)
    ensures
        goes_on(base, s, left_loop(f, s), 0),
{
    reveal(left_loop);
    reveal(branch_place);
    let bytes = [0xe9u8, 0, 0, 0, 0]@;
    let middle = put(f, s, bytes);
    let after = left_loop(f, s);
    put_adds(base, f, s, bytes);
    put_grows(f, s, bytes);
    reveal(kept);
    if after.failure is None && added(base, s) {
        reveal(grown_with_places);
        reveal(grown);
        assert forall|i: int| 0 <= i < after.exits.len() implies i < base.exits.len()
            && #[trigger] after.exits[i] == base.exits[i] || base.code.len() <= after.exits[i]
            && after.exits[i] + 4 <= after.code.len() by {
            if i < s.exits.len() {
                assert(after.exits[i] == middle.exits[i]);
            }
        }
    }
}

pub proof fn left_loop_on_zero_adds<R: ConstantResolver, const P: usize, const N: usize>(
    base: Emission,
    f: Frame<R, P, N>,
    s: Emission,
)
    ensures
        goes_on(base, s, left_loop_on_zero(f, s), 0),
{
    reveal(left_loop_on_zero);
    reveal(branch_place);
    let bytes = [0x0fu8, 0x84, 0, 0, 0, 0]@;
    let middle = put(f, s, bytes);
    let after = left_loop_on_zero(f, s);
    put_adds(base, f, s, bytes);
    put_grows(f, s, bytes);
    reveal(kept);
    if after.failure is None && added(base, s) {
        reveal(grown_with_places);
        reveal(grown);
        assert forall|i: int| 0 <= i < after.exits.len() implies i < base.exits.len()
            && #[trigger] after.exits[i] == base.exits[i] || base.code.len() <= after.exits[i]
            && after.exits[i] + 4 <= after.code.len() by {
            if i < s.exits.len() {
                assert(after.exits[i] == middle.exits[i]);
            }
        }
    }
}

pub proof fn left_inner_loop_adds<R: ConstantResolver, const P: usize, const N: usize>(
    base: Emission,
    f: Frame<R, P, N>,
    s: Emission,
)
    ensures
        goes_on(base, s, left_inner_loop(f, s), 0),
{
    reveal(left_inner_loop);
    reveal(branch_place);
    let bytes = [0xe9u8, 0, 0, 0, 0]@;
    let middle = put(f, s, bytes);
    let after = left_inner_loop(f, s);
    put_adds(base, f, s, bytes);
    put_grows(f, s, bytes);
    reveal(kept);
    if after.failure is None && added(base, s) {
        reveal(grown_with_places);
        reveal(grown);
        assert forall|i: int| 0 <= i < after.inner_exits.len() implies i < base.inner_exits.len()
            && #[trigger] after.inner_exits[i] == base.inner_exits[i] || base.code.len() <= after.inner_exits[i]
            && after.inner_exits[i] + 4 <= after.code.len() by {
            if i < s.inner_exits.len() {
                assert(after.inner_exits[i] == middle.inner_exits[i]);
            }
        }
    }
}

/// A branch whose distance is filled in.
pub proof fn landed_adds<R: ConstantResolver, const P: usize, const N: usize>(
    base: Emission,
    f: Frame<R, P, N>,
    s: Emission,
    at: usize,
)
    ensures
        base.code.len() <= at ==> goes_on(base, s, landed(f, s, at), -1),
        landed(f, s, at).failure is None ==> s.failure is None,
        landed(f, s, at).exits == s.exits,
        landed(f, s, at).inner_exits == s.inner_exits,
        landed(f, s, at).overflow_checks == s.overflow_checks,
{
    reveal(landed);
    reveal(landed_at);
    reveal(grown_with_places);
    reveal(grown);
}

/// Branches whose distances are filled in.
pub proof fn landed_all_adds<R: ConstantResolver, const P: usize, const N: usize>(
    base: Emission,
    f: Frame<R, P, N>,
    s: Emission,
    branches: Seq<usize>,
    from: int,
)
    requires
        forall|i: int| 0 <= i < branches.len() ==> base.code.len() <= #[trigger] branches[i],
    ensures
        goes_on(base, s, landed_all(f, s, branches, from), -1),
    decreases branches.len() - from,
{
    reveal_with_fuel(landed_all, 2);
    if 0 <= from < branches.len() {
        landed_adds(base, f, s, branches[from]);
        landed_all_adds(base, f, landed(f, s, branches[from]), branches, from + 1);
    } else if s.failure is None {
        same_code_is_added(base, s, s);
    }
}

proof fn landed_all_keeps<R: ConstantResolver, const P: usize, const N: usize>(
    f: Frame<R, P, N>,
    s: Emission,
    branches: Seq<usize>,
    from: int,
)
    ensures
        landed_all(f, s, branches, from).failure is None ==> s.failure is None,
        landed_all(f, s, branches, from).exits == s.exits,
        landed_all(f, s, branches, from).inner_exits == s.inner_exits,
        landed_all(f, s, branches, from).overflow_checks == s.overflow_checks,
    decreases branches.len() - from,
{
    reveal_with_fuel(landed_all, 2);
    if 0 <= from < branches.len() {
        landed_adds(s, f, s, branches[from]);
        landed_all_keeps(f, landed(f, s, branches[from]), branches, from + 1);
    }
}

/// The end of a loop.
pub proof fn ended_loop_adds<R: ConstantResolver, const P: usize, const N: usize>(
    base: Emission,
    f: Frame<R, P, N>,
    s: Emission,
)
    requires
        base.exits.len() == 0,
    ensures
        goes_on(base, s, ended_loop(f, s), -1),
{
    reveal(ended_loop);
    landed_all_keeps(f, s, s.exits, 0);
    if added(base, s) {
        assert forall|i: int| 0 <= i < s.exits.len() implies base.code.len()
            <= #[trigger] s.exits[i] by {
            reveal(grown_with_places);
        }
        landed_all_adds(base, f, s, s.exits, 0);
    }
}

/// The end of a loop.
pub proof fn ended_inner_loop_adds<R: ConstantResolver, const P: usize, const N: usize>(
    base: Emission,
    f: Frame<R, P, N>,
    s: Emission,
)
    requires
        base.inner_exits.len() == 0,
    ensures
        goes_on(base, s, ended_inner_loop(f, s), -1),
{
    reveal(ended_inner_loop);
    landed_all_keeps(f, s, s.inner_exits, 0);
    if added(base, s) {
        assert forall|i: int| 0 <= i < s.inner_exits.len() implies base.code.len()
            <= #[trigger] s.inner_exits[i] by {
            reveal(grown_with_places);
        }
        landed_all_adds(base, f, s, s.inner_exits, 0);
    }
}

/// A loop, whose own branches lead out of it, is added.
pub proof fn loop_is_added(base: Emission, s: Emission, after: Emission)
    requires
        added(base, s),
        added(Emission { exits: seq![], ..s }, after),
    ensures
        added(base, after),
        base.code.len() <= s.code.len() <= after.code.len(),
{
    assert(added(s, after)) by {
        reveal(grown_with_places);
        reveal(grown);
        let entered = Emission { exits: seq![], ..s };
        assert forall|i: int| 0 <= i < after.exits.len() implies i < s.exits.len()
            && #[trigger] after.exits[i] == s.exits[i] || s.code.len() <= after.exits[i]
            && after.exits[i] + 4 <= after.code.len() by {
            assert(i < entered.exits.len() && after.exits[i] == entered.exits[i]
                || entered.code.len() <= after.exits[i] && after.exits[i] + 4
                <= after.code.len());
        }
    }
    added_twice(base, s, after);
    assert(base.code.len() <= s.code.len() <= after.code.len()) by {
        reveal(grown_with_places);
    }
}

/// The same of a loop in a loop.
pub proof fn inner_loop_is_added(base: Emission, s: Emission, after: Emission)
    requires
        added(base, s),
        added(Emission { inner_exits: seq![], ..s }, after),
    ensures
        added(base, after),
        base.code.len() <= s.code.len() <= after.code.len(),
{
    assert(added(s, after)) by {
        reveal(grown_with_places);
        reveal(grown);
        let entered = Emission { inner_exits: seq![], ..s };
        assert forall|i: int| 0 <= i < after.inner_exits.len() implies i < s.inner_exits.len()
            && #[trigger] after.inner_exits[i] == s.inner_exits[i] || s.code.len() <= after.inner_exits[i]
            && after.inner_exits[i] + 4 <= after.code.len() by {
            assert(i < entered.inner_exits.len() && after.inner_exits[i] == entered.inner_exits[i]
                || entered.code.len() <= after.inner_exits[i] && after.inner_exits[i] + 4
                <= after.code.len());
        }
    }
    added_twice(base, s, after);
    assert(base.code.len() <= s.code.len() <= after.code.len()) by {
        reveal(grown_with_places);
    }
}

} // verus!
