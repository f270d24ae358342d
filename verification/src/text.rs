//! Character-level helpers on string slices.
use vstd::prelude::*;

verus! {

/// The characters of `source`, in order.
pub fn characters(source: &str) -> (result: Vec<char>)
    ensures
        result@ == source@,
{
    let mut result: Vec<char> = Vec::new();
    for c in it: source.chars()
        invariant
            result@ == source@.take(it.index() as int),
            it.seq() == source@,
    {
        result.push(c);
        proof {
            assert(source@.take(it.index() + 1) =~= source@.take(it.index() as int).push(c));
        }
    }
    proof {
        assert(source@.take(source@.len() as int) =~= source@);
    }
    result
}

/// Whether two string slices hold the same characters.
pub fn same_text(left: &str, right: &str) -> (same: bool)
    ensures
        same == (left@ == right@),
{
    let first = characters(left);
    let second = characters(right);
    if first.len() != second.len() {
        return false;
    }
    let mut index: usize = 0;
    while index < first.len()
        invariant
            index <= first.len(),
            first.len() == second.len(),
            first@ == left@,
            second@ == right@,
            forall|k: int| 0 <= k < index ==> first@[k] == second@[k],
        decreases first.len() - index,
    {
        if first[index] != second[index] {
            return false;
        }
        index += 1;
    }
    proof {
        assert(first@ =~= second@);
    }
    true
}

} // verus!
