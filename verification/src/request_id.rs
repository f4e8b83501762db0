//! Request ids and their allocation.

use std::ops::RangeInclusive;
use vstd::prelude::*;

verus! {

/// `RangeInclusive::start` returns the lower bound of a range that has not
/// been iterated to its end.
pub assume_specification<Idx>[ RangeInclusive::<Idx>::start ](r: &RangeInclusive<Idx>) -> (s: &Idx)
    ensures
        !r@.exhausted ==> *s == r@.start,
;

/// `RangeInclusive::end` returns the upper bound of a range that has not been
/// iterated to its end.
pub assume_specification<Idx>[ RangeInclusive::<Idx>::end ](r: &RangeInclusive<Idx>) -> (e: &Idx)
    ensures
        !r@.exhausted ==> *e == r@.end,
;

/// A JSON-RPC request id. Wraps a `u64` rather than the full spec-permitted
/// `number | string | null`, since every id this crate ever produces is one
/// it allocated itself via [`RequestIdManager`].
#[derive(Debug, Clone, Copy, Hash, PartialEq, Eq, PartialOrd, Ord, Structural)]
pub struct RequestId(pub u64);

impl RequestId {
    /// Wraps `id`.
    pub fn new(id: u64) -> (r: Self)
        ensures
            r == RequestId(id),
    {
        RequestId(id)
    }

    /// The wrapped number.
    pub fn get(&self) -> (n: u64)
        ensures
            n == self.0,
    {
        self.0
    }
}

impl From<u64> for RequestId {
    fn from(id: u64) -> (r: Self) {
        RequestId(id)
    }
}

impl vstd::std_specs::convert::FromSpecImpl<u64> for RequestId {
    open spec fn obeys_from_spec() -> bool {
        true
    }

    open spec fn from_spec(id: u64) -> Self {
        RequestId(id)
    }
}

impl From<RequestId> for u64 {
    fn from(id: RequestId) -> (n: Self) {
        id.0
    }
}

impl vstd::std_specs::convert::FromSpecImpl<RequestId> for u64 {
    open spec fn obeys_from_spec() -> bool {
        true
    }

    open spec fn from_spec(id: RequestId) -> Self {
        id.0
    }
}

/// The ids `start, start + 1, .., start + count - 1`.
pub open spec fn id_block(start: int, count: int) -> Set<int> {
    Set::new(|n: int| start <= n < start + count)
}

/// Whether `range` is the fresh inclusive range `first..=last`.
pub open spec fn is_id_range(range: RangeInclusive<RequestId>, first: int, last: int) -> bool {
    &&& range@.start.0 == first
    &&& range@.end.0 == last
    &&& !range@.exhausted
}

/// Allocates unique, monotonically increasing [`RequestId`]s for a client.
///
/// Every reservation is a single step on one counter, made with exclusive
/// access to the manager. Tasks that share a manager keep it behind a lock, so
/// that no reservation can race with, or be miscounted against, another.
pub struct RequestIdManager {
    next: u64,
}

impl RequestIdManager {
    /// The number that the next reserved id will have.
    pub closed spec fn next_id(&self) -> u64 {
        self.next
    }

    /// A manager whose first id is zero.
    pub fn new() -> (m: Self)
        ensures
            m.next_id() == 0,
    {
        RequestIdManager { next: 0 }
    }

    /// Reserves and returns the next id. The counter wraps around to zero
    /// after `u64::MAX`.
    pub fn reserve_id(&mut self) -> (id: RequestId)
        ensures
            id.0 == old(self).next_id(),
            final(self).next_id() == (if old(self).next_id() == u64::MAX {
                0
            } else {
                old(self).next_id() + 1
            }),
    {
        let id = self.next;
        self.next = id.wrapping_add(1);
        RequestId::new(id)
    }

    /// The next id that will be handed out by
    /// [`reserve_id`](Self::reserve_id) or
    /// [`reserve_range`](Self::reserve_range), without reserving it.
    pub fn current_id(&self) -> (id: RequestId)
        ensures
            id.0 == self.next_id(),
    {
        RequestId::new(self.next)
    }

    /// Reserves `count` contiguous ids in a single step, returned as an
    /// inclusive range. `None` for `count == 0`: there is nothing to reserve.
    pub fn reserve_range(&mut self, count: u64) -> (range: Option<RangeInclusive<RequestId>>)
        requires
            old(self).next_id() + count <= u64::MAX,
        ensures
            final(self).next_id() == old(self).next_id() + count,
            range is None <==> count == 0,
            range matches Some(r) ==> is_id_range(
                r,
                old(self).next_id() as int,
                old(self).next_id() + count - 1,
            ),
    {
        if count == 0 {
            return None;
        }
        let start = self.next;
        self.next = start + count;
        Some(RangeInclusive::new(RequestId::new(start), RequestId::new(start + (count - 1))))
    }

    /// Resets the id counter back to zero.
    pub fn reset(&mut self)
        ensures
            final(self).next_id() == 0,
    {
        self.next = 0;
    }
}

impl Default for RequestIdManager {
    fn default() -> (m: Self)
        ensures
            m.next_id() == 0,
    {
        Self::new()
    }
}

/// The counter after the first `k` of a series of reservations of `counts`
/// ids, made one after another on a manager whose counter stood at `start`.
pub open spec fn counter_after(start: int, counts: Seq<u64>, k: int) -> int
    decreases k,
{
    if k <= 0 {
        start
    } else {
        counter_after(start, counts, k - 1) + counts[k - 1]
    }
}

proof fn lemma_counter_grows(start: int, counts: Seq<u64>, i: int, j: int)
    requires
        0 <= i <= j,
    ensures
        counter_after(start, counts, i) <= counter_after(start, counts, j),
    decreases j,
{
    if i < j {
        lemma_counter_grows(start, counts, i, j - 1);
    }
}

/// Ids are unique and increase: of any series of reservations, each of which
/// takes the ids from the counter on and moves the counter past them, every
/// id of an earlier reservation is below every id of a later one.
pub proof fn law_reservations_never_overlap(start: int, counts: Seq<u64>, i: int, j: int)
    requires
        0 <= i < j < counts.len(),
    ensures
        id_block(counter_after(start, counts, i), counts[i] as int).disjoint(
            id_block(counter_after(start, counts, j), counts[j] as int),
        ),
        forall|a: int, b: int|
            id_block(counter_after(start, counts, i), counts[i] as int).contains(a) && id_block(
                counter_after(start, counts, j),
                counts[j] as int,
            ).contains(b) ==> a < b,
{
    lemma_counter_grows(start, counts, i + 1, j);
}

/// How many ids a series of reservations takes.
pub open spec fn ids_taken(counts: Seq<u64>) -> int
    decreases counts.len(),
{
    if counts.len() == 0 {
        0
    } else {
        ids_taken(counts.drop_last()) + counts.last()
    }
}

proof fn lemma_counter_of_head(start: int, counts: Seq<u64>, k: int)
    requires
        0 <= k < counts.len(),
    ensures
        counter_after(start, counts.drop_last(), k) == counter_after(start, counts, k),
    decreases k,
{
    if k > 0 {
        lemma_counter_of_head(start, counts, k - 1);
    }
}

/// No id is skipped: a series of reservations, whoever makes them and in
/// whatever order they are served, together takes exactly the ids from the
/// counter on up to where the counter stands afterward, and the counter has
/// moved on by as many ids as were asked for.
pub proof fn law_reservations_leave_no_gap(start: int, counts: Seq<u64>)
    ensures
        counter_after(start, counts, counts.len() as int) == start + ids_taken(counts),
        forall|id: int| #[trigger]
            id_block(start, ids_taken(counts)).contains(id) <==> exists|k: int|
                0 <= k < counts.len() && #[trigger] id_block(
                    counter_after(start, counts, k),
                    counts[k] as int,
                ).contains(id),
    decreases counts.len(),
{
    let n = counts.len() as int;
    if n > 0 {
        let head = counts.drop_last();
        law_reservations_leave_no_gap(start, head);
        lemma_counter_of_head(start, counts, n - 1);
        lemma_counter_grows(start, counts, 0, n - 1);
        assert forall|id: int| #[trigger]
            id_block(start, ids_taken(counts)).contains(id) implies exists|k: int|
            0 <= k < n && #[trigger] id_block(
                counter_after(start, counts, k),
                counts[k] as int,
            ).contains(id) by {
            if id >= counter_after(start, counts, n - 1) {
                assert(id_block(counter_after(start, counts, n - 1), counts[n - 1] as int).contains(
                    id,
                ));
            } else {
                assert(id_block(start, ids_taken(head)).contains(id));
                let k = choose|k: int|
                    0 <= k < head.len() && #[trigger] id_block(
                        counter_after(start, head, k),
                        head[k] as int,
                    ).contains(id);
                lemma_counter_of_head(start, counts, k);
                assert(id_block(counter_after(start, counts, k), counts[k] as int).contains(id));
            }
        }
        assert forall|id: int, k: int|
            0 <= k < n && #[trigger] id_block(
                counter_after(start, counts, k),
                counts[k] as int,
            ).contains(id) implies id_block(start, ids_taken(counts)).contains(id) by {
            lemma_counter_grows(start, counts, 0, k);
            lemma_counter_grows(start, counts, k + 1, n);
        }
    }
}

} // verus!
