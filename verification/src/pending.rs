//! The calls that are in flight on a connection.
//!
//! A call is entered with the ticket of whoever waits for its reply, and taken
//! out when it is settled. It is found again by the first and the last of the
//! ids it was sent with, which are the same for a single request. Tasks that
//! share a table keep it behind a lock.

use crate::request_id::RequestId;
use dashmap::DashMap;
use vstd::prelude::*;

verus! {

/// A hash map whose contents are spoken of by name.
#[verifier::external_type_specification]
#[verifier::external_body]
#[verifier::reject_recursive_types(K)]
#[verifier::reject_recursive_types(V)]
#[verifier::reject_recursive_types(S)]
pub struct ExDashMap<K, V, S>(DashMap<K, V, S>);

/// The entries of a table.
pub uninterp spec fn table(map: DashMap<(u64, u64), u64>) -> Map<(u64, u64), u64>;

/// Whether a map has no entries.
pub open spec fn no_entries<K, V>(entries: Map<K, V>) -> bool {
    entries == Map::<K, V>::empty()
}

/// `DashMap::new`: a map without entries.
#[verifier::external_body]
fn new_table() -> (map: DashMap<(u64, u64), u64>)
    ensures
        no_entries(table(map)),
{
    DashMap::new()
}

/// `DashMap::insert`: enters the value under the key, and returns the value
/// that was there before.
#[verifier::external_body]
fn insert(map: &mut DashMap<(u64, u64), u64>, key: (u64, u64), value: u64) -> (before: Option<u64>)
    ensures
        table(*final(map)) == table(*old(map)).insert(key, value),
        before == table(*old(map)).get(key),
{
    map.insert(key, value)
}

/// `DashMap::remove`: takes out the entry of the key and returns it, if there
/// is one.
#[verifier::external_body]
fn remove(map: &mut DashMap<(u64, u64), u64>, key: (u64, u64)) -> (entry: Option<
    ((u64, u64), u64),
>)
    ensures
        table(*final(map)) == table(*old(map)).remove(key),
        entry == match table(*old(map)).get(key) {
            Some(value) => Some((key, value)),
            None => None,
        },
{
    map.remove(&key)
}

/// `DashMap::iter`: hands out each entry once, in no particular order, of which
/// the key is kept.
#[verifier::external_body]
fn keys(map: &DashMap<(u64, u64), u64>) -> (keys: Vec<(u64, u64)>)
    ensures
        keys@.no_duplicates(),
        forall|key: (u64, u64)| keys@.contains(key) <==> table(*map).dom().contains(key),
{
    map.iter().map(|entry| *entry.key()).collect()
}

/// `DashMap::contains_key`: whether the key has an entry.
#[verifier::external_body]
fn contains(map: &DashMap<(u64, u64), u64>, key: (u64, u64)) -> (found: bool)
    ensures
        found == table(*map).dom().contains(key),
{
    map.contains_key(&key)
}

/// `DashMap::is_empty`: whether there is no entry.
#[verifier::external_body]
fn is_empty(map: &DashMap<(u64, u64), u64>) -> (empty: bool)
    ensures
        empty <==> no_entries(table(*map)),
{
    map.is_empty()
}

/// Whether `keys` are the keys of `entries`, each of them once, and `values`
/// are their values.
pub open spec fn listed<K, V>(entries: Map<K, V>, keys: Seq<K>, values: Seq<V>) -> bool {
    &&& keys.no_duplicates()
    &&& forall|key: K| keys.contains(key) <==> entries.dom().contains(key)
    &&& keys.len() == values.len()
    &&& forall|i: int| 0 <= i < keys.len() ==> #[trigger] values[i] == entries[keys[i]]
}

/// Whether `values` are the values of `entries`, one for each, in some order.
pub open spec fn drained<K, V>(entries: Map<K, V>, values: Seq<V>) -> bool {
    exists|keys: Seq<K>| #[trigger] listed(entries, keys, values)
}

/// Whether some entry has the value `value`.
pub open spec fn is_value<K, V>(entries: Map<K, V>, value: V) -> bool {
    exists|key: K| entries.dom().contains(key) && #[trigger] entries[key] == value
}

/// Nothing is lost and nothing is invented when a table is emptied: there are
/// as many values as there were entries, and the value of every entry is among
/// them.
pub proof fn law_drained_once_each<K, V>(entries: Map<K, V>, values: Seq<V>)
    requires
        drained(entries, values),
    ensures
        entries.dom().finite(),
        values.len() == entries.dom().len(),
        forall|key: K| #[trigger]
            entries.dom().contains(key) ==> values.contains(entries[key]),
        forall|i: int| 0 <= i < values.len() ==> is_value(entries, #[trigger] values[i]),
{
    let keys = choose|keys: Seq<K>| #[trigger] listed(entries, keys, values);
    keys.unique_seq_to_set();
    assert(keys.to_set() =~= entries.dom());
    assert forall|key: K| #[trigger] entries.dom().contains(key) implies values.contains(
        entries[key],
    ) by {
        assert(keys.contains(key));
        let i = choose|i: int| 0 <= i < keys.len() && keys[i] == key;
        assert(values[i] == entries[key]);
    }
    assert forall|i: int| 0 <= i < values.len() implies is_value(entries, #[trigger] values[i]) by {
        assert(keys.contains(keys[i]));
        assert(entries[keys[i]] == values[i]);
    }
}

/// Takes all entries out and returns their values, in no particular order.
fn drain(map: &mut DashMap<(u64, u64), u64>) -> (values: Vec<u64>)
    ensures
        no_entries(table(*final(map))),
        drained(table(*old(map)), values@),
{
    let keys = keys(map);
    let ghost before = table(*map);
    assert forall|k: int| 0 <= k < keys@.len() implies before.dom().contains(
        #[trigger] keys@[k],
    ) by {
        assert(keys@.contains(keys@[k]));
    }
    assert forall|key: (u64, u64)| before.dom().contains(key) implies exists|k: int|
        0 <= k < keys@.len() && #[trigger] keys@[k] == key by {
        assert(keys@.contains(key));
    }
    let mut values: Vec<u64> = Vec::new();
    let mut i: usize = 0;
    while i < keys.len()
        invariant
            i <= keys@.len(),
            values@.len() == i,
            keys@.no_duplicates(),
            forall|k: int|
                i <= k < keys@.len() ==> table(*map).dom().contains(#[trigger] keys@[k]) && table(
                    *map,
                )[keys@[k]] == before[keys@[k]],
            forall|key: (u64, u64)|
                table(*map).dom().contains(key) ==> exists|k: int|
                    i <= k < keys@.len() && #[trigger] keys@[k] == key,
            forall|k: int| 0 <= k < i ==> #[trigger] values@[k] == before[keys@[k]],
        decreases keys.len() - i,
    {
        let key = keys[i];
        let ghost now = table(*map);
        if let Some((_, value)) = remove(map, key) {
            values.push(value);
        }
        assert forall|other: (u64, u64)|
            table(*map).dom().contains(other) implies exists|k: int|
            i + 1 <= k < keys@.len() && #[trigger] keys@[k] == other by {
            assert(now.dom().contains(other));
        }
        i = i + 1;
    }
    assert(table(*map) =~= Map::empty());
    assert(listed(before, keys@, values@));
    values
}

/// In-flight unary requests awaiting a reply, keyed by the id they were sent
/// with.
pub struct PendingRequests {
    map: DashMap<(u64, u64), u64>,
}

impl View for PendingRequests {
    type V = Map<(u64, u64), u64>;

    closed spec fn view(&self) -> Map<(u64, u64), u64> {
        table(self.map)
    }
}

impl PendingRequests {
    /// A table without requests.
    pub fn new() -> (requests: Self)
        ensures
            no_entries(requests@),
    {
        PendingRequests { map: new_table() }
    }

    /// Enters a request with the ticket of who waits for its reply. Returns the
    /// ticket that it takes the place of.
    pub fn insert(&mut self, id: RequestId, waiter: u64) -> (before: Option<u64>)
        ensures
            final(self)@ == old(self)@.insert((id.0, id.0), waiter),
            before == old(self)@.get((id.0, id.0)),
    {
        insert(&mut self.map, (id.get(), id.get()), waiter)
    }

    /// Takes a request out and returns the ticket of who waits for its reply.
    pub fn remove(&mut self, id: RequestId) -> (waiter: Option<u64>)
        ensures
            final(self)@ == old(self)@.remove((id.0, id.0)),
            waiter == old(self)@.get((id.0, id.0)),
    {
        match remove(&mut self.map, (id.get(), id.get())) {
            Some((_, waiter)) => Some(waiter),
            None => None,
        }
    }

    /// Whether a request is in flight.
    pub fn contains_key(&self, id: RequestId) -> (found: bool)
        ensures
            found == self@.dom().contains((id.0, id.0)),
    {
        contains(&self.map, (id.get(), id.get()))
    }

    /// Whether no request is in flight.
    pub fn is_empty(&self) -> (empty: bool)
        ensures
            empty <==> no_entries(self@),
    {
        is_empty(&self.map)
    }

    /// Takes all requests out and returns the tickets of who waits for their
    /// replies, in no particular order.
    pub fn drain(&mut self) -> (waiters: Vec<u64>)
        ensures
            no_entries(final(self)@),
            drained(old(self)@, waiters@),
    {
        drain(&mut self.map)
    }
}

/// In-flight batch requests awaiting a reply, keyed by the contiguous id range
/// they were sent with.
pub struct PendingBatchRequests {
    map: DashMap<(u64, u64), u64>,
}

impl View for PendingBatchRequests {
    type V = Map<(u64, u64), u64>;

    closed spec fn view(&self) -> Map<(u64, u64), u64> {
        table(self.map)
    }
}

impl PendingBatchRequests {
    /// A table without batches.
    pub fn new() -> (batches: Self)
        ensures
            no_entries(batches@),
    {
        PendingBatchRequests { map: new_table() }
    }

    /// Enters a batch with the ticket of who waits for its reply. Returns the
    /// ticket that it takes the place of.
    pub fn insert(&mut self, first: RequestId, last: RequestId, waiter: u64) -> (before: Option<
        u64,
    >)
        ensures
            final(self)@ == old(self)@.insert((first.0, last.0), waiter),
            before == old(self)@.get((first.0, last.0)),
    {
        insert(&mut self.map, (first.get(), last.get()), waiter)
    }

    /// Takes a batch out and returns the ticket of who waits for its reply.
    pub fn remove(&mut self, first: RequestId, last: RequestId) -> (waiter: Option<u64>)
        ensures
            final(self)@ == old(self)@.remove((first.0, last.0)),
            waiter == old(self)@.get((first.0, last.0)),
    {
        match remove(&mut self.map, (first.get(), last.get())) {
            Some((_, waiter)) => Some(waiter),
            None => None,
        }
    }

    /// Whether a batch is in flight.
    pub fn contains_key(&self, first: RequestId, last: RequestId) -> (found: bool)
        ensures
            found == self@.dom().contains((first.0, last.0)),
    {
        contains(&self.map, (first.get(), last.get()))
    }

    /// Whether no batch is in flight.
    pub fn is_empty(&self) -> (empty: bool)
        ensures
            empty <==> no_entries(self@),
    {
        is_empty(&self.map)
    }

    /// Takes all batches out and returns the tickets of who waits for their
    /// replies, in no particular order.
    pub fn drain(&mut self) -> (waiters: Vec<u64>)
        ensures
            no_entries(final(self)@),
            drained(old(self)@, waiters@),
    {
        drain(&mut self.map)
    }
}

} // verus!
