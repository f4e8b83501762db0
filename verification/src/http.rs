//! One HTTP POST per call: what to send, and what the reply means.

use crate::batch::BatchResponseItem;
use crate::correlate::{
    answered_with, covers, item_for, law_accepted_reply_covers_the_batch,
    law_one_answer_per_request, law_reply_order_is_irrelevant,
};
use crate::decode::{
    decode_single_response, decoded, item_views, opens_batch, settles_request, BatchItemView,
    IncomingView, JsonRpcBatchResponse, JsonRpcIncoming,
};
use crate::error::Error;
use crate::request_id::RequestId;
use crate::slots::{
    empty_slots, filled, lemma_all_filled, lemma_fill, lemma_none_filled,
};
use std::ops::RangeInclusive;
use vstd::prelude::*;
use vstd::string::StringExecFns;

verus! {

/// Why a batch reply with too few or too many items is refused.
pub const WRONG_COUNT: &'static str = "batch response item count does not match the sent batch";

/// Why a batch reply with an item that names no request is refused.
pub const UNCORRELATED: &'static str =
    "a batch error response is missing its `id`; can't correlate it to a request";

/// Why a batch reply with an item for another request is refused.
pub const OUTSIDE_RANGE: &'static str = "batch response id is outside the range of ids sent";

/// Why a batch reply with two items for one request is refused.
pub const DUPLICATE_ID: &'static str = "batch response contains a duplicate id";

/// What is wrong with the item at `i` of a reply to the requests `first` to
/// `last`, the items before it being all right.
pub open spec fn item_fault(
    items: Seq<BatchItemView>,
    first: RequestId,
    last: RequestId,
    i: int,
) -> Option<Seq<char>> {
    match items[i].id() {
        None => Some(UNCORRELATED@),
        Some(id) => if id.0 < first.0 || id.0 > last.0 {
            Some(OUTSIDE_RANGE@)
        } else if exists|j: int| 0 <= j < i && #[trigger] items[j].id() == Some(id) {
            Some(DUPLICATE_ID@)
        } else {
            None
        },
    }
}

/// What is wrong with the first faulty item from `i` on.
pub open spec fn fault_from(
    items: Seq<BatchItemView>,
    first: RequestId,
    last: RequestId,
    i: int,
) -> Option<Seq<char>>
    decreases items.len() - i,
{
    if 0 <= i < items.len() {
        match item_fault(items, first, last, i) {
            Some(why) => Some(why),
            None => fault_from(items, first, last, i + 1),
        }
    } else {
        None
    }
}

/// What is wrong with a reply to the requests `first` to `last`.
pub open spec fn reply_fault(
    items: Seq<BatchItemView>,
    first: RequestId,
    last: RequestId,
) -> Option<Seq<char>> {
    if items.len() != last.0 - first.0 + 1 {
        Some(WRONG_COUNT@)
    } else {
        fault_from(items, first, last, 0)
    }
}

/// Whether `outcome` is what a caller gets for an item of a reply: what
/// `parser` makes of a result, or the error of an error response.
pub open spec fn settles<T, F: Fn(&str) -> BatchResponseItem<T>>(
    item: BatchItemView,
    parser: F,
    outcome: BatchResponseItem<T>,
) -> bool {
    match item {
        BatchItemView::Response(r) => exists|s: &str|
            s@ == r.result.text && #[trigger] call_ensures(parser, (s,), outcome),
        BatchItemView::ErrorResponse(e) => outcome matches Err(err) && err.stands_for(e),
    }
}

/// Whether `outcome` is what a caller gets for the request `id`.
pub open spec fn answers<T, F: Fn(&str) -> BatchResponseItem<T>>(
    items: Seq<BatchItemView>,
    id: RequestId,
    parser: F,
    outcome: BatchResponseItem<T>,
) -> bool {
    exists|j: int|
        0 <= j < items.len() && (#[trigger] items[j]).id() == Some(id) && settles(
            items[j],
            parser,
            outcome,
        )
}

/// Whether `outcomes` is what a reply to the requests `first` to `last` comes
/// to: what each request is answered with, in request-queue order, or what is
/// wrong with the reply.
pub open spec fn correlated<T, F: Fn(&str) -> BatchResponseItem<T>>(
    items: Seq<BatchItemView>,
    first: RequestId,
    last: RequestId,
    parsers: Seq<F>,
    outcomes: Result<Vec<BatchResponseItem<T>>, Error>,
) -> bool {
    match reply_fault(items, first, last) {
        Some(why) => outcomes matches Err(e) && e.is_invalid_message(why),
        None => outcomes matches Ok(list) && {
            &&& list@.len() == if parsers.len() < items.len() {
                parsers.len()
            } else {
                items.len()
            }
            &&& forall|k: int|
                0 <= k < list@.len() ==> answers(
                    items,
                    RequestId((first.0 + k) as u64),
                    parsers[k],
                    #[trigger] list@[k],
                )
        },
    }
}

/// Places each item of a batch reply at the index matching the caller's
/// request-queue order, regardless of what order the items arrived on the wire
/// in: batch responses may be returned in any order, so they are
/// correlated by `id`. Any mismatch (a wrong count, a gap, a duplicate, or an
/// error item with no `id`) surfaces as an error.
pub fn correlate_batch_items<'a, T, F: Fn(&str) -> BatchResponseItem<T>>(
    items: Vec<JsonRpcBatchResponse<'a>>,
    range: RangeInclusive<RequestId>,
    parsers: Vec<F>,
) -> (outcomes: Result<Vec<BatchResponseItem<T>>, Error>)
    requires
        !range@.exhausted,
        range@.start.0 <= range@.end.0,
        range@.end.0 - range@.start.0 < u64::MAX,
        forall|k: int, s: &str|
            0 <= k < parsers@.len() ==> #[trigger] call_requires(parsers@[k], (s,)),
    ensures
        correlated(item_views(items@), range@.start, range@.end, parsers@, outcomes),
{
    let first = *range.start();
    let last = *range.end();
    let expected_len = last.get() - first.get() + 1;
    if items.len() as u64 != expected_len {
        return Err(Error::InvalidMessage(WRONG_COUNT));
    }
    let n = items.len();
    let ghost views = item_views(items@);
    let mut slots: Vec<Option<JsonRpcBatchResponse<'a>>> = empty_slots(n);
    proof {
        lemma_none_filled(slots@);
    }
    for item in it: items
        invariant
            it.seq() == items@,
            views == item_views(items@),
            n == items@.len(),
            first == range@.start && last == range@.end,
            n == last.0 - first.0 + 1,
            slots@.len() == n,
            filled(slots@) == it.index(),
            reply_fault(views, first, last) == fault_from(views, first, last, it.index() as int),
            forall|k: int|
                0 <= k < n && (#[trigger] slots@[k] is Some) ==> exists|j: int|
                    0 <= j < it.index() && #[trigger] views[j] == slots@[k]->Some_0@ && views[j].id()
                        == Some(RequestId((first.0 + k) as u64)),
            forall|j: int|
                0 <= j < it.index() ==> (#[trigger] views[j].id() matches Some(id) && first.0
                    <= id.0 <= last.0 && slots@[id.0 - first.0] is Some),
    {
        let ghost i = it.index() as int;
        assert(views[i] == item@);
        let id = match item.id() {
            Some(id) => id,
            None => {
                return Err(Error::InvalidMessage(UNCORRELATED));
            },
        };
        if id.get() < first.get() || id.get() > last.get() {
            return Err(Error::InvalidMessage(OUTSIDE_RANGE));
        }
        let idx = (id.get() - first.get()) as usize;
        if slots[idx].is_some() {
            return Err(Error::InvalidMessage(DUPLICATE_ID));
        }
        proof {
            assert forall|j: int| 0 <= j < i implies #[trigger] views[j].id() != Some(id) by {
                assert(slots@[idx as int] is None);
            }
            lemma_fill(slots@, idx as int, item);
        }
        let ghost before = slots@;
        slots[idx] = Some(item);
        assert(slots@ == before.update(idx as int, Some(item)));
    }
    assert(fault_from(views, first, last, n as int) is None);
    let ghost all = slots@;
    proof {
        assert forall|k: int| 0 <= k < n implies #[trigger] all[k] is Some by {
            lemma_all_filled(all, k);
        }
    }
    slots.truncate(parsers.len());
    let mut outcomes: Vec<BatchResponseItem<T>> = Vec::new();
    for slot in it: slots
        invariant
            it.seq() == slots@,
            slots@.len() <= parsers@.len(),
            slots@.len() <= n,
            n == views.len(),
            n == last.0 - first.0 + 1,
            outcomes@.len() == it.index(),
            forall|k: int|
                0 <= k < slots@.len() ==> (#[trigger] slots@[k] is Some && exists|j: int|
                    0 <= j < n && #[trigger] views[j] == slots@[k]->Some_0@ && views[j].id()
                        == Some(RequestId((first.0 + k) as u64))),
            forall|k: int, s: &str|
                0 <= k < parsers@.len() ==> #[trigger] call_requires(parsers@[k], (s,)),
            forall|k: int|
                0 <= k < outcomes@.len() ==> answers(
                    views,
                    RequestId((first.0 + k) as u64),
                    parsers@[k],
                    #[trigger] outcomes@[k],
                ),
    {
        let ghost k = it.index() as int;
        let i = outcomes.len();
        assert(slots@[k] is Some);
        let item = slot.unwrap();
        let outcome = match item {
            JsonRpcBatchResponse::Response(r) => (parsers[i])(r.result.get()),
            JsonRpcBatchResponse::ErrorResponse(e) => Err(Error::from(e)),
        };
        assert(settles(item@, parsers@[k], outcome));
        assert(answers(views, RequestId((first.0 + k) as u64), parsers@[k], outcome)) by {
            let j = choose|j: int|
                0 <= j < n && #[trigger] views[j] == slots@[k]->Some_0@ && views[j].id() == Some(
                    RequestId((first.0 + k) as u64),
                );
            assert(views[j] == item@);
        }
        outcomes.push(outcome);
    }
    Ok(outcomes)
}

/// The message of the error for a reply that is no success, up to its status.
pub const BAD_STATUS: &'static str = "HTTP request failed with status ";

/// Why a reply that is no batch is refused in place of one.
pub const NOT_A_BATCH: &'static str = "expected a batch response";

/// The status of an HTTP reply.
#[derive(Debug, Clone, Copy)]
pub struct Status<'a> {
    /// Its number.
    pub code: u16,
    /// The number and the phrase that goes with it.
    pub line: &'a str,
}

impl<'a> Status<'a> {
    /// Whether the status is one of success.
    pub open spec fn is_success(self) -> bool {
        200 <= self.code < 300
    }

    /// Whether `error` is the error for this status.
    pub open spec fn is_told_by(self, error: Error) -> bool {
        error matches Error::TransportError(text) && text@ == BAD_STATUS@ + self.line@
    }
}

/// Rejects a non-2xx HTTP response before its body is treated as a JSON-RPC
/// message: a proxy error page, an auth failure, etc. isn't JSON-RPC at all,
/// and parsing it as such would otherwise surface as an opaque error with no
/// indication that it was actually a transport-level failure.
pub fn ensure_success(status: Status<'_>) -> (done: Result<(), Error>)
    ensures
        done is Ok <==> status.is_success(),
        done matches Err(e) ==> status.is_told_by(e),
{
    if 200 <= status.code && status.code < 300 {
        Ok(())
    } else {
        let mut text = BAD_STATUS.to_owned();
        text.append(status.line);
        Err(Error::TransportError(text))
    }
}

/// What the reply to the request `id` comes to: an error for a status that is
/// no success, else what its body says.
pub fn finish_request<T, F: FnOnce(&str) -> Result<T, serde_json::Error>>(
    status: Status<'_>,
    body: &[u8],
    id: RequestId,
    parse: F,
) -> (response: Result<T, Error>)
    requires
        forall|s: &str| call_requires(parse, (s,)),
    ensures
        if status.is_success() {
            match decoded(body@, opens_batch(body@, 0)) {
                Ok(message) => settles_request(message, id, parse, response),
                Err(refusal) => response matches Err(e) && refusal.is_told_by(e),
            }
        } else {
            response matches Err(e) && status.is_told_by(e)
        },
{
    match ensure_success(status) {
        Ok(()) => {},
        Err(e) => return Err(e),
    }
    match JsonRpcIncoming::try_from(body) {
        Ok(incoming) => decode_single_response(incoming, id, parse),
        Err(e) => Err(e),
    }
}

/// What the reply to a batch comes to: an error for a status that is no success
/// or a body that is no batch, else what each request is answered with.
pub fn finish_batch<T, F: Fn(&str) -> BatchResponseItem<T>>(
    status: Status<'_>,
    body: &[u8],
    range: RangeInclusive<RequestId>,
    parsers: Vec<F>,
) -> (outcomes: Result<Vec<BatchResponseItem<T>>, Error>)
    requires
        !range@.exhausted,
        range@.start.0 <= range@.end.0,
        range@.end.0 - range@.start.0 < u64::MAX,
        forall|k: int, s: &str|
            0 <= k < parsers@.len() ==> #[trigger] call_requires(parsers@[k], (s,)),
    ensures
        if status.is_success() {
            match decoded(body@, opens_batch(body@, 0)) {
                Ok(IncomingView::BatchResponse(items)) => correlated(
                    items,
                    range@.start,
                    range@.end,
                    parsers@,
                    outcomes,
                ),
                Ok(_) => outcomes matches Err(e) && e.is_invalid_message(NOT_A_BATCH@),
                Err(refusal) => outcomes matches Err(e) && refusal.is_told_by(e),
            }
        } else {
            outcomes matches Err(e) && status.is_told_by(e)
        },
{
    match ensure_success(status) {
        Ok(()) => {},
        Err(e) => return Err(e),
    }
    match JsonRpcIncoming::try_from(body) {
        Ok(JsonRpcIncoming::BatchResponse(items)) => correlate_batch_items(items, range, parsers),
        Ok(_) => Err(Error::InvalidMessage(NOT_A_BATCH)),
        Err(e) => Err(e),
    }
}

/// If the reply to a batch is accepted, every request of the batch gets its own
/// outcome: as many outcomes as requests, each of them what its own parser makes
/// of the one item that answers the request.
pub proof fn law_every_request_gets_its_outcome<T, F: Fn(&str) -> BatchResponseItem<T>>(
    items: Seq<BatchItemView>,
    first: RequestId,
    last: RequestId,
    parsers: Seq<F>,
    list: Vec<BatchResponseItem<T>>,
)
    requires
        first.0 <= last.0,
        parsers.len() == last.0 - first.0 + 1,
        correlated(items, first, last, parsers, Ok(list)),
    ensures
        covers(items, first, last),
        list@.len() == parsers.len(),
        forall|k: int|
            0 <= k < list@.len() ==> settles(
                item_for(items, RequestId((first.0 + k) as u64)),
                parsers[k],
                #[trigger] list@[k],
            ),
{
    law_accepted_reply_covers_the_batch(items, first, last);
    assert forall|k: int| 0 <= k < list@.len() implies settles(
        item_for(items, RequestId((first.0 + k) as u64)),
        parsers[k],
        #[trigger] list@[k],
    ) by {
        let id = RequestId((first.0 + k) as u64);
        assert(answers(items, id, parsers[k], list@[k]));
        let j = choose|j: int|
            0 <= j < items.len() && (#[trigger] items[j]).id() == Some(id) && settles(
                items[j],
                parsers[k],
                list@[k],
            );
        law_one_answer_per_request(items, first, last, id);
        assert(answered_with(items, id, items[j]));
        assert(answered_with(items, id, item_for(items, id)));
    }
}

/// The order in which a reply lists its items is irrelevant: if a reply is
/// accepted, so are the same items in another order, and every request comes to
/// the same.
pub proof fn law_http_order_is_irrelevant<T, F: Fn(&str) -> BatchResponseItem<T>>(
    items: Seq<BatchItemView>,
    other: Seq<BatchItemView>,
    first: RequestId,
    last: RequestId,
)
    requires
        items.to_multiset() == other.to_multiset(),
        first.0 <= last.0,
        reply_fault(items, first, last) is None,
    ensures
        reply_fault(other, first, last) is None,
        forall|id: RequestId, parser: F, outcome: BatchResponseItem<T>|
            answers(items, id, parser, outcome) == #[trigger] answers(other, id, parser, outcome),
{
    law_accepted_reply_covers_the_batch(items, first, last);
    law_reply_order_is_irrelevant(items, other, first, last);
    law_accepted_reply_covers_the_batch(other, first, last);
    assert forall|id: RequestId, parser: F, outcome: BatchResponseItem<T>| answers(
        items,
        id,
        parser,
        outcome,
    ) == #[trigger] answers(other, id, parser, outcome) by {
        if answers(items, id, parser, outcome) {
            let j = choose|j: int|
                0 <= j < items.len() && (#[trigger] items[j]).id() == Some(id) && settles(
                    items[j],
                    parser,
                    outcome,
                );
            assert(answered_with(items, id, items[j]));
            assert(answered_with(other, id, items[j]));
        }
        if answers(other, id, parser, outcome) {
            let j = choose|j: int|
                0 <= j < other.len() && (#[trigger] other[j]).id() == Some(id) && settles(
                    other[j],
                    parser,
                    outcome,
                );
            assert(answered_with(other, id, other[j]));
            assert(answered_with(items, id, other[j]));
        }
    }
}

} // verus!
