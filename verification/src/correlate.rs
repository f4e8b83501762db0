//! Which reply items answer which requests of a batch.

use crate::decode::BatchItemView;
use crate::http::{fault_from, item_fault, reply_fault};
use crate::request_id::RequestId;
use crate::slots::{filled, lemma_all_filled, lemma_fill, lemma_none_filled};
use vstd::prelude::*;

verus! {

/// Whether some item names the request `id`.
pub open spec fn names(items: Seq<BatchItemView>, id: RequestId) -> bool {
    exists|j: int| 0 <= j < items.len() && (#[trigger] items[j]).id() == Some(id)
}

/// Whether the items that name a request name the requests `first` to `last`,
/// each of them once.
pub open spec fn covers(items: Seq<BatchItemView>, first: RequestId, last: RequestId) -> bool {
    &&& all_in_range(items, first, last)
    &&& all_distinct(items)
    &&& forall|id: RequestId| first.0 <= id.0 <= last.0 ==> #[trigger] names(items, id)
}

/// Whether every item names a request.
pub open spec fn all_named(items: Seq<BatchItemView>) -> bool {
    forall|j: int| 0 <= j < items.len() ==> (#[trigger] items[j]).id() is Some
}

/// Whether `item` is an item of the reply that answers the request `id`.
pub open spec fn answered_with(
    items: Seq<BatchItemView>,
    id: RequestId,
    item: BatchItemView,
) -> bool {
    items.contains(item) && item.id() == Some(id)
}

proof fn lemma_fault_from(
    items: Seq<BatchItemView>,
    first: RequestId,
    last: RequestId,
    i: int,
)
    requires
        0 <= i <= items.len(),
    ensures
        fault_from(items, first, last, i) is None <==> forall|j: int|
            i <= j < items.len() ==> #[trigger] item_fault(items, first, last, j) is None,
    decreases items.len() - i,
{
    if i < items.len() {
        lemma_fault_from(items, first, last, i + 1);
    }
}

/// How many of the first `n` items name a request.
pub open spec fn named_count(items: Seq<BatchItemView>, n: int) -> nat
    decreases n,
{
    if n <= 0 {
        0
    } else {
        named_count(items, n - 1) + if items[n - 1].id() is Some {
            1nat
        } else {
            0nat
        }
    }
}

/// Whether the ids that items name are those of requests of the range.
pub open spec fn all_in_range(
    items: Seq<BatchItemView>,
    first: RequestId,
    last: RequestId,
) -> bool {
    forall|j: int|
        0 <= j < items.len() ==> ((#[trigger] items[j]).id() matches Some(id) ==> first.0 <= id.0
            <= last.0)
}

/// Whether no two items name the same request.
pub open spec fn all_distinct(items: Seq<BatchItemView>) -> bool {
    forall|i: int, j: int|
        0 <= i < j < items.len() && (#[trigger] items[i]).id() is Some ==> items[i].id() != (
        #[trigger] items[j]).id()
}

/// The slots that the first `n` items fill, one for each request.
spec fn slots_after(items: Seq<BatchItemView>, first: RequestId, last: RequestId, n: int) -> Seq<
    Option<()>,
>
    decreases n,
{
    if n <= 0 {
        Seq::new((last.0 - first.0 + 1) as nat, |k: int| None)
    } else if let Some(id) = items[n - 1].id() {
        slots_after(items, first, last, n - 1).update(id.0 - first.0, Some(()))
    } else {
        slots_after(items, first, last, n - 1)
    }
}

proof fn lemma_slots_after(items: Seq<BatchItemView>, first: RequestId, last: RequestId, n: int)
    requires
        0 <= n <= items.len(),
        first.0 <= last.0,
        all_in_range(items, first, last),
    ensures
        slots_after(items, first, last, n).len() == last.0 - first.0 + 1,
        forall|k: int|
            0 <= k <= last.0 - first.0 ==> (#[trigger] slots_after(items, first, last, n)[k]
                is Some <==> exists|j: int|
                0 <= j < n && (#[trigger] items[j]).id() == Some(
                    RequestId((first.0 + k) as u64),
                )),
        all_distinct(items) ==> filled(slots_after(items, first, last, n)) == named_count(
            items,
            n,
        ),
    decreases n,
{
    let after = slots_after(items, first, last, n);
    if n == 0 {
        lemma_none_filled(after);
    } else {
        lemma_slots_after(items, first, last, n - 1);
        let before = slots_after(items, first, last, n - 1);
        if let Some(id) = items[n - 1].id() {
            let k = id.0 - first.0;
            assert(RequestId((first.0 + k) as u64) == id);
            if all_distinct(items) {
                if before[k] is Some {
                    let j = choose|j: int| 0 <= j < n - 1 && (#[trigger] items[j]).id() == Some(id);
                    assert(items[j].id() == items[n - 1].id());
                }
                lemma_fill(before, k, ());
            }
        }
        assert forall|m: int| 0 <= m <= last.0 - first.0 implies (#[trigger] after[m]
            is Some <==> exists|j: int|
            0 <= j < n && (#[trigger] items[j]).id() == Some(
                RequestId((first.0 + m) as u64),
            )) by {
            let wanted = RequestId((first.0 + m) as u64);
            if after[m] is Some {
                if items[n - 1].id() == Some(wanted) {
                } else {
                    assert(before[m] is Some);
                }
            }
            if exists|j: int| 0 <= j < n && (#[trigger] items[j]).id() == Some(wanted) {
                let j = choose|j: int| 0 <= j < n && (#[trigger] items[j]).id() == Some(wanted);
                if j < n - 1 {
                    assert(before[m] is Some);
                }
            }
        }
    }
}

/// If as many items as there are requests name requests of the range, no two
/// of them the same, then every request is named.
pub proof fn lemma_enough_items_cover(
    items: Seq<BatchItemView>,
    first: RequestId,
    last: RequestId,
)
    requires
        first.0 <= last.0,
        all_in_range(items, first, last),
        all_distinct(items),
        named_count(items, items.len() as int) == last.0 - first.0 + 1,
    ensures
        covers(items, first, last),
{
    lemma_slots_after(items, first, last, items.len() as int);
    let slots = slots_after(items, first, last, items.len() as int);
    assert forall|id: RequestId| first.0 <= id.0 <= last.0 implies #[trigger] names(items, id) by {
        let k = id.0 - first.0;
        lemma_all_filled(slots, k);
        assert(slots[k] is Some);
        assert(RequestId((first.0 + k) as u64) == id);
    }
}

/// If every request is named once, then as many items name a request as there
/// are requests.
pub proof fn lemma_cover_counts(
    items: Seq<BatchItemView>,
    first: RequestId,
    last: RequestId,
)
    requires
        first.0 <= last.0,
        covers(items, first, last),
    ensures
        named_count(items, items.len() as int) == last.0 - first.0 + 1,
{
    lemma_slots_after(items, first, last, items.len() as int);
    let slots = slots_after(items, first, last, items.len() as int);
    assert forall|k: int| 0 <= k < slots.len() implies #[trigger] slots[k] is Some by {
        assert(names(items, RequestId((first.0 + k) as u64)));
    }
    lemma_full(slots);
}

proof fn lemma_all_named_count(items: Seq<BatchItemView>, n: int)
    requires
        0 <= n <= items.len(),
        all_named(items),
    ensures
        named_count(items, n) == n,
    decreases n,
{
    if n > 0 {
        lemma_all_named_count(items, n - 1);
    }
}

proof fn lemma_full<A>(slots: Seq<Option<A>>)
    requires
        forall|k: int| 0 <= k < slots.len() ==> #[trigger] slots[k] is Some,
    ensures
        filled(slots) == slots.len(),
    decreases slots.len(),
{
    if slots.len() > 0 {
        lemma_full(slots.drop_last());
    }
}

/// A reply over HTTP is accepted if and only if every item names a request,
/// and the items name the requests that were sent, each of them once: there is
/// no gap, no duplicate and no stranger.
pub proof fn law_accepted_reply_covers_the_batch(
    items: Seq<BatchItemView>,
    first: RequestId,
    last: RequestId,
)
    requires
        first.0 <= last.0,
    ensures
        reply_fault(items, first, last) is None <==> all_named(items) && covers(
            items,
            first,
            last,
        ),
{
    lemma_fault_from(items, first, last, 0);
    if reply_fault(items, first, last) is None {
        assert forall|j: int| 0 <= j < items.len() implies ((#[trigger] items[j]).id() matches Some(
            id,
        ) && first.0 <= id.0 <= last.0) by {
            assert(item_fault(items, first, last, j) is None);
        }
        assert forall|i: int, j: int| 0 <= i < j < items.len() implies (
        #[trigger] items[i]).id() != (#[trigger] items[j]).id() by {
            assert(item_fault(items, first, last, j) is None);
        }
        lemma_all_named_count(items, items.len() as int);
        lemma_enough_items_cover(items, first, last);
    }
    if all_named(items) && covers(items, first, last) {
        lemma_cover_counts(items, first, last);
        lemma_all_named_count(items, items.len() as int);
        assert forall|j: int| 0 <= j < items.len() implies #[trigger] item_fault(
            items,
            first,
            last,
            j,
        ) is None by {
            let id = items[j].id();
            assert forall|i: int| 0 <= i < j implies #[trigger] items[i].id() != id by {}
        }
    }
}

/// Each request of a batch that is covered is answered with exactly one item.
pub proof fn law_one_answer_per_request(
    items: Seq<BatchItemView>,
    first: RequestId,
    last: RequestId,
    id: RequestId,
)
    requires
        covers(items, first, last),
        first.0 <= id.0 <= last.0,
    ensures
        exists|item: BatchItemView| #[trigger] answered_with(items, id, item),
        forall|a: BatchItemView, b: BatchItemView| #[trigger]
            answered_with(items, id, a) && #[trigger] answered_with(items, id, b) ==> a == b,
{
    assert(names(items, id));
    let j = choose|j: int| 0 <= j < items.len() && (#[trigger] items[j]).id() == Some(id);
    assert(answered_with(items, id, items[j]));
    assert forall|a: BatchItemView, b: BatchItemView| #[trigger]
        answered_with(items, id, a) && #[trigger] answered_with(items, id, b) implies a == b by {
        let i = choose|i: int| 0 <= i < items.len() && items[i] == a;
        let k = choose|k: int| 0 <= k < items.len() && items[k] == b;
        if i < k {
            assert(items[i].id() != items[k].id());
        } else if k < i {
            assert(items[k].id() != items[i].id());
        }
    }
}

proof fn lemma_twice<A>(s: Seq<A>, i: int, j: int)
    requires
        0 <= i < j < s.len(),
        s[i] == s[j],
    ensures
        s.to_multiset().count(s[i]) >= 2,
{
    broadcast use vstd::seq_lib::group_to_multiset_ensures;

    let rest = s.remove(j);
    assert(rest[i] == s[i]);
    assert(rest.contains(s[i]));
    assert(rest.to_multiset() == s.to_multiset().remove(s[j]));
    assert(rest.to_multiset().count(s[i]) > 0);
}

proof fn lemma_once<A>(s: Seq<A>, i: int)
    requires
        0 <= i < s.len(),
        forall|j: int| 0 <= j < s.len() && j != i ==> #[trigger] s[j] != s[i],
    ensures
        s.to_multiset().count(s[i]) == 1,
{
    broadcast use vstd::seq_lib::group_to_multiset_ensures;

    let rest = s.remove(i);
    if rest.contains(s[i]) {
        let k = choose|k: int| 0 <= k < rest.len() && rest[k] == s[i];
        if k < i {
            assert(s[k] == rest[k]);
        } else {
            assert(s[k + 1] == rest[k]);
        }
    }
    assert(rest.to_multiset() == s.to_multiset().remove(s[i]));
    assert(rest.to_multiset().count(s[i]) == 0);
    assert(s.to_multiset().count(s[i]) > 0);
}

/// The order in which a reply lists its items is irrelevant: the same items in
/// another order cover the same requests, and each request is answered with
/// the same item.
pub proof fn law_reply_order_is_irrelevant(
    items: Seq<BatchItemView>,
    other: Seq<BatchItemView>,
    first: RequestId,
    last: RequestId,
)
    requires
        items.to_multiset() == other.to_multiset(),
        covers(items, first, last),
    ensures
        covers(other, first, last),
        all_named(items) ==> all_named(other),
        forall|id: RequestId, item: BatchItemView|
            answered_with(items, id, item) == #[trigger] answered_with(other, id, item),
{
    broadcast use vstd::seq_lib::group_to_multiset_ensures;

    assert forall|item: BatchItemView| items.contains(item) == #[trigger] other.contains(item) by {
        assert(items.contains(item) <==> items.to_multiset().count(item) > 0);
        assert(other.contains(item) <==> other.to_multiset().count(item) > 0);
    }
    assert forall|j: int| 0 <= j < other.len() implies items.contains(#[trigger] other[j]) by {
        assert(other.contains(other[j]));
    }
    assert forall|j: int| 0 <= j < other.len() implies ((#[trigger] other[j]).id() matches Some(
        id,
    ) ==> first.0 <= id.0 <= last.0) by {
        let i = choose|i: int| 0 <= i < items.len() && items[i] == other[j];
        assert(items[i].id() == other[j].id());
    }
    assert forall|i: int, j: int|
        0 <= i < j < other.len() && (#[trigger] other[i]).id() is Some implies other[i].id() != (
    #[trigger] other[j]).id() by {
        if other[i].id() == other[j].id() {
            let a = choose|a: int| 0 <= a < items.len() && items[a] == other[i];
            let b = choose|b: int| 0 <= b < items.len() && items[b] == other[j];
            if a < b {
                assert(items[a].id() != items[b].id());
            } else if b < a {
                assert(items[b].id() != items[a].id());
            }
            assert(other[i] == other[j]);
            lemma_twice(other, i, j);
            assert forall|k: int| 0 <= k < items.len() && k != a implies #[trigger] items[k]
                != items[a] by {
                if k < a {
                    if items[k].id() is Some {
                        assert(items[k].id() != items[a].id());
                    }
                } else {
                    assert(items[a].id() != items[k].id());
                }
            }
            lemma_once(items, a);
        }
    }
    assert forall|id: RequestId| first.0 <= id.0 <= last.0 implies #[trigger] names(
        other,
        id,
    ) by {
        assert(names(items, id));
        let i = choose|i: int| 0 <= i < items.len() && (#[trigger] items[i]).id() == Some(id);
        assert(items.contains(items[i]));
        assert(other.contains(items[i]));
        let j = choose|j: int| 0 <= j < other.len() && other[j] == items[i];
        assert(other[j].id() == Some(id));
    }
    if all_named(items) {
        assert forall|j: int| 0 <= j < other.len() implies (#[trigger] other[j]).id() is Some by {
            let i = choose|i: int| 0 <= i < items.len() && items[i] == other[j];
            assert(items[i].id() is Some);
        }
    }
}

/// The first and the last of the requests that the items cover, where they
/// cover such a range.
pub open spec fn batch_key(items: Seq<BatchItemView>) -> Option<(RequestId, RequestId)> {
    if exists|first: RequestId, last: RequestId|
        first.0 <= last.0 && #[trigger] covers(items, first, last) {
        Some(
            choose|first: RequestId, last: RequestId|
                first.0 <= last.0 && #[trigger] covers(items, first, last),
        )
    } else {
        None
    }
}

/// Items cover one range at most.
pub proof fn lemma_key_unique(
    items: Seq<BatchItemView>,
    first: RequestId,
    last: RequestId,
)
    requires
        first.0 <= last.0,
        covers(items, first, last),
    ensures
        batch_key(items) == Some((first, last)),
{
    let (f, l) = batch_key(items)->Some_0;
    assert(names(items, first) && names(items, last) && names(items, f) && names(items, l));
}

/// The item that answers the request `id`.
pub open spec fn item_for(items: Seq<BatchItemView>, id: RequestId) -> BatchItemView {
    choose|item: BatchItemView| #[trigger] answered_with(items, id, item)
}

/// The items in the order of the requests from `first` to `last`.
pub open spec fn in_request_order(
    items: Seq<BatchItemView>,
    first: RequestId,
    last: RequestId,
) -> Seq<BatchItemView> {
    Seq::new(
        (last.0 - first.0 + 1) as nat,
        |k: int| item_for(items, RequestId((first.0 + k) as u64)),
    )
}

/// However a reply lists its items, they are put in the same order.
pub proof fn law_request_order_is_restored(
    items: Seq<BatchItemView>,
    other: Seq<BatchItemView>,
)
    requires
        items.to_multiset() == other.to_multiset(),
        batch_key(items) is Some,
    ensures
        batch_key(other) == batch_key(items),
        ({
            let (first, last) = batch_key(items)->Some_0;
            in_request_order(other, first, last) == in_request_order(items, first, last)
        }),
{
    let (first, last) = batch_key(items)->Some_0;
    law_reply_order_is_irrelevant(items, other, first, last);
    lemma_key_unique(other, first, last);
    assert forall|id: RequestId| first.0 <= id.0 <= last.0 implies #[trigger] item_for(other, id)
        == item_for(items, id) by {
        law_one_answer_per_request(items, first, last, id);
        law_one_answer_per_request(other, first, last, id);
        assert(answered_with(items, id, item_for(items, id)));
        assert(answered_with(other, id, item_for(other, id)));
        assert(answered_with(items, id, item_for(other, id)));
    }
    assert(in_request_order(other, first, last) =~= in_request_order(items, first, last));
}

} // verus!
