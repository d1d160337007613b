//! Properties of re-population that relate more than one call.
use vstd::prelude::*;

use crate::list::{shown_count, updated, ListModel};

verus! {

/// Re-populating twice in a row from the same matches gives the same rows and
/// the same selection both times: the two states split into segments of the
/// same lengths, and each row of either is a clone of the same match.
pub proof fn lemma_update_idempotent<T: Clone>(
    pre: ListModel<T>,
    once: ListModel<T>,
    twice: ListModel<T>,
    matches: Seq<T>,
)
    requires
        pre.wf(),
        updated(pre, once, matches),
        updated(once, twice, matches),
    ensures
        twice.capacity == once.capacity,
        twice.above.len() == once.above.len(),
        twice.selected is Some <==> once.selected is Some,
        twice.below.len() == once.below.len(),
        twice.len() == once.len(),
        forall|i: int|
            0 <= i < once.len() ==> {
                &&& cloned(matches[once.len() - 1 - i], #[trigger] once.items()[i])
                &&& cloned(matches[once.len() - 1 - i], twice.items()[i])
            },
{
    assert(once.items().len() == once.above.len() + once.selected_seq().len() + once.below.len());
    assert(twice.items().len() == twice.above.len() + twice.selected_seq().len()
        + twice.below.len());
}

/// Where there are enough matches, re-populating a list that was not empty
/// keeps the number of rows below the selection, so that the selection keeps
/// its place on screen; where there are too few, the top row is selected.
pub proof fn lemma_update_keeps_position<T: Clone>(
    pre: ListModel<T>,
    post: ListModel<T>,
    matches: Seq<T>,
)
    requires
        pre.wf(),
        !pre.is_empty(),
        updated(pre, post, matches),
    ensures
        pre.below.len() < shown_count(pre.capacity, matches.len()) ==> post.below.len()
            == pre.below.len(),
        pre.below.len() >= shown_count(pre.capacity, matches.len()) ==> post.above.len() == 0,
{
    assert(post.items().len() == post.above.len() + post.selected_seq().len() + post.below.len());
}

} // verus!
