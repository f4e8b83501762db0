//! Lists of slots, each of which is filled at most once.

use vstd::prelude::*;

verus! {

/// How many of the slots are filled.
pub open spec fn filled<A>(slots: Seq<Option<A>>) -> nat
    decreases slots.len(),
{
    if slots.len() == 0 {
        0
    } else {
        filled(slots.drop_last()) + if slots.last() is Some {
            1nat
        } else {
            0nat
        }
    }
}

/// No more slots are filled than there are.
pub proof fn lemma_filled_bound<A>(slots: Seq<Option<A>>)
    ensures
        filled(slots) <= slots.len(),
    decreases slots.len(),
{
    if slots.len() > 0 {
        lemma_filled_bound(slots.drop_last());
    }
}

/// Filling an empty slot makes one more.
pub proof fn lemma_fill<A>(slots: Seq<Option<A>>, i: int, value: A)
    requires
        0 <= i < slots.len(),
        slots[i] is None,
    ensures
        filled(slots.update(i, Some(value))) == filled(slots) + 1,
    decreases slots.len(),
{
    let after = slots.update(i, Some(value));
    if i == slots.len() - 1 {
        assert(after.drop_last() =~= slots.drop_last());
    } else {
        assert(after.drop_last() =~= slots.drop_last().update(i, Some(value)));
        lemma_fill(slots.drop_last(), i, value);
    }
}

/// If as many slots are filled as there are, none is empty.
pub proof fn lemma_all_filled<A>(slots: Seq<Option<A>>, i: int)
    requires
        filled(slots) == slots.len(),
        0 <= i < slots.len(),
    ensures
        slots[i] is Some,
    decreases slots.len(),
{
    lemma_filled_bound(slots.drop_last());
    if i < slots.len() - 1 {
        lemma_all_filled(slots.drop_last(), i);
    }
}

/// Empty slots are not filled.
pub proof fn lemma_none_filled<A>(slots: Seq<Option<A>>)
    requires
        forall|i: int| 0 <= i < slots.len() ==> #[trigger] slots[i] is None,
    ensures
        filled(slots) == 0,
    decreases slots.len(),
{
    if slots.len() > 0 {
        lemma_none_filled(slots.drop_last());
    }
}

/// Returns `n` empty slots.
pub fn empty_slots<A>(n: usize) -> (slots: Vec<Option<A>>)
    ensures
        slots@.len() == n,
        forall|i: int| 0 <= i < n ==> #[trigger] slots@[i] is None,
{
    let mut slots: Vec<Option<A>> = Vec::new();
    while slots.len() < n
        invariant
            slots@.len() <= n,
            forall|i: int| 0 <= i < slots@.len() ==> #[trigger] slots@[i] is None,
        decreases n - slots.len(),
    {
        slots.push(None);
    }
    slots
}

} // verus!
