//! Counting marked positions, to say where an item of a list ends up when some
//! of the items are left out.

use vstd::prelude::*;

verus! {

/// How many positions below `end` are marked.
pub open spec fn rank(marked: spec_fn(int) -> bool, end: int) -> int
    decreases end,
{
    if end <= 0 {
        0
    } else {
        rank(marked, end - 1) + if marked(end - 1) {
            1int
        } else {
            0int
        }
    }
}

/// The rank depends on the marks below it alone.
pub proof fn lemma_same_rank(first: spec_fn(int) -> bool, second: spec_fn(int) -> bool, end: int)
    requires
        forall|i: int| 0 <= i < end ==> #[trigger] first(i) == second(i),
    ensures
        rank(first, end) == rank(second, end),
    decreases end,
{
    if end > 0 {
        lemma_same_rank(first, second, end - 1);
        assert(first(end - 1) == second(end - 1));
    }
}

/// Each marked position has a rank of its own, below the number of all.
pub proof fn lemma_rank_grows(marked: spec_fn(int) -> bool, i: int, end: int)
    requires
        0 <= i < end,
    ensures
        0 <= rank(marked, i) <= rank(marked, end),
        marked(i) ==> rank(marked, i) < rank(marked, end),
    decreases end,
{
    if i < end - 1 {
        lemma_rank_grows(marked, i, end - 1);
    } else if i > 0 {
        lemma_rank_grows(marked, i - 1, i);
    }
}

} // verus!
