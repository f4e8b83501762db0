//! What becomes of the messages and events of a WebSocket connection.

use crate::correlate::{
    all_distinct, all_in_range, answered_with, batch_key, covers, in_request_order, item_for,
    law_one_answer_per_request, law_request_order_is_restored, lemma_cover_counts,
    lemma_enough_items_cover, lemma_key_unique, named_count, names,
};
use crate::decode::{
    decoded, item_borrows_from, item_views, law_decoding_borrows, opens_batch, BatchItemView,
    IncomingView, JsonRpcBatchResponse, JsonRpcIncoming, Refusal,
};
use crate::error::Error;
use crate::json::RawValue;
use crate::pending::{drained, no_entries, PendingBatchRequests, PendingRequests};
use crate::protocol::{Notification, NotificationView, ResponseView};
use crate::request_id::RequestId;
use crate::slots::{empty_slots, filled, lemma_all_filled, lemma_fill, lemma_none_filled};
use std::ops::Range;
use vstd::prelude::*;
use vstd::string::StringExecFns;

verus! {

/// What is done with an incoming message.
#[derive(Debug)]
pub enum Routing {
    /// It does not correlate to anything pending: it is logged and dropped.
    Ignore,
    /// It is malformed: it is logged and dropped.
    Malformed(Error),
    /// It settles a request: whoever holds the ticket gets the byte range of
    /// the result within the message, or the error.
    Deliver { waiter: u64, reply: Result<Range<usize>, Error> },
    /// It settles a batch: whoever holds the ticket gets the byte range of each
    /// result within the message, or its error, in request-queue order.
    DeliverBatch { waiter: u64, items: Vec<Result<Range<usize>, Error>> },
    /// It is a notification, which all subscribers get.
    Broadcast(Notification),
}

/// What is done with an incoming message.
pub enum RoutingView {
    Ignore,
    Malformed(Refusal),
    Deliver { waiter: u64, item: BatchItemView },
    DeliverBatch { waiter: u64, items: Seq<BatchItemView> },
    Broadcast(NotificationView),
}

/// Whether `reply` is what is handed on of an item: where its result stands in
/// the message, or its error.
pub open spec fn hands_on(item: BatchItemView, reply: Result<Range<usize>, Error>) -> bool {
    match item {
        BatchItemView::Response(r) => reply matches Ok(range) && r.result.offset == Some(
            range.start as int,
        ) && range.end == r.result.end(),
        BatchItemView::ErrorResponse(e) => reply matches Err(err) && err.stands_for(e),
    }
}

impl Routing {
    /// Whether this is what `expected` says.
    pub open spec fn agrees(self, expected: RoutingView) -> bool {
        match expected {
            RoutingView::Ignore => self is Ignore,
            RoutingView::Malformed(refusal) => self matches Routing::Malformed(e)
                && refusal.is_told_by(e),
            RoutingView::Deliver { waiter, item } => self matches Routing::Deliver {
                waiter: w,
                reply,
            } && w == waiter && hands_on(item, reply),
            RoutingView::DeliverBatch { waiter, items } => self matches Routing::DeliverBatch {
                waiter: w,
                items: replies,
            } && w == waiter && replies@.len() == items.len() && forall|k: int|
                0 <= k < items.len() ==> hands_on(#[trigger] items[k], replies@[k]),
            RoutingView::Broadcast(notification) => self matches Routing::Broadcast(n) && n@
                == notification.owned(),
        }
    }
}

/// Whether a range of bytes lies within a message.
pub open spec fn range_within(range: Range<usize>, bytes: Seq<u8>) -> bool {
    range.start <= range.end <= bytes.len()
}

impl Routing {
    /// Whether the ranges that are handed on lie within the message.
    pub open spec fn points_into(self, data: Seq<u8>) -> bool {
        match self {
            Routing::Deliver { waiter, reply } => reply matches Ok(range) ==> range_within(
                range,
                data,
            ),
            Routing::DeliverBatch { waiter, items } => forall|k: int|
                0 <= k < items@.len() ==> (#[trigger] items@[k] matches Ok(range) ==> range_within(
                    range,
                    data,
                )),
            _ => true,
        }
    }
}

/// What is handed on of a result is exactly its text: those are the bytes of
/// the message in the range.
pub proof fn law_range_holds_the_result(data: Seq<u8>, r: ResponseView, range: Range<usize>)
    requires
        r.result.lies_in(data),
        hands_on(BatchItemView::Response(r), Ok(range)),
    ensures
        range_within(range, data),
        data.subrange(range.start as int, range.end as int) == vstd::utf8::encode_utf8(
            r.result.text,
        ),
{
}

/// Where a message goes, given what is pending: a response or error response
/// to the request that it names, a batch to the batch whose requests it covers,
/// a notification to everyone.
pub open spec fn route(
    message: Result<IncomingView, Refusal>,
    requests: Map<(u64, u64), u64>,
    batches: Map<(u64, u64), u64>,
) -> RoutingView {
    match message {
        Err(refusal) => RoutingView::Malformed(refusal),
        Ok(IncomingView::Notification(n)) => RoutingView::Broadcast(n),
        Ok(IncomingView::Response(r)) => match requests.get((r.id.0, r.id.0)) {
            Some(waiter) => RoutingView::Deliver { waiter, item: BatchItemView::Response(r) },
            None => RoutingView::Ignore,
        },
        Ok(IncomingView::ErrorResponse(e)) => match e.id {
            Some(id) => match requests.get((id.0, id.0)) {
                Some(waiter) => RoutingView::Deliver {
                    waiter,
                    item: BatchItemView::ErrorResponse(e),
                },
                None => RoutingView::Ignore,
            },
            None => RoutingView::Ignore,
        },
        Ok(IncomingView::BatchResponse(items)) => match batch_key(items) {
            Some((first, last)) => match batches.get((first.0, last.0)) {
                Some(waiter) => RoutingView::DeliverBatch {
                    waiter,
                    items: in_request_order(items, first, last),
                },
                None => RoutingView::Ignore,
            },
            None => RoutingView::Ignore,
        },
    }
}

/// The requests that are pending after a message.
pub open spec fn requests_after(
    message: Result<IncomingView, Refusal>,
    requests: Map<(u64, u64), u64>,
) -> Map<(u64, u64), u64> {
    match message {
        Ok(IncomingView::Response(r)) => requests.remove((r.id.0, r.id.0)),
        Ok(IncomingView::ErrorResponse(e)) => match e.id {
            Some(id) => requests.remove((id.0, id.0)),
            None => requests,
        },
        _ => requests,
    }
}

/// The batches that are pending after a message.
pub open spec fn batches_after(
    message: Result<IncomingView, Refusal>,
    batches: Map<(u64, u64), u64>,
) -> Map<(u64, u64), u64> {
    match message {
        Ok(IncomingView::BatchResponse(items)) => match batch_key(items) {
            Some((first, last)) => batches.remove((first.0, last.0)),
            None => batches,
        },
        _ => batches,
    }
}

/// Where a piece of a message stands in it.
fn place_of(raw: &RawValue<'_>) -> (range: Range<usize>)
    requires
        raw@.offset is Some,
        raw@.end() <= usize::MAX,
    ensures
        raw@.offset == Some(range.start as int),
        range.end == raw@.end(),
{
    match raw {
        RawValue::Borrowed(slice) => slice.range(),
        _ => 0..0,
    }
}

/// What is handed on of an item.
fn hand_on(item: JsonRpcBatchResponse<'_>) -> (reply: Result<Range<usize>, Error>)
    requires
        item@ matches BatchItemView::Response(r) ==> r.result.offset is Some && r.result.end()
            <= usize::MAX,
    ensures
        hands_on(item@, reply),
{
    match item {
        JsonRpcBatchResponse::Response(r) => Ok(place_of(&r.result)),
        JsonRpcBatchResponse::ErrorResponse(e) => Err(Error::from(e)),
    }
}

/// The lowest and the highest id that the items name, and how many items name
/// one.
fn id_span(items: &Vec<JsonRpcBatchResponse<'_>>) -> (span: Option<(RequestId, RequestId, usize)>)
    ensures
        span is None <==> named_count(item_views(items@), items@.len() as int) == 0,
        span matches Some((first, last, count)) ==> {
            &&& count == named_count(item_views(items@), items@.len() as int)
            &&& all_in_range(item_views(items@), first, last)
            &&& names(item_views(items@), first)
            &&& names(item_views(items@), last)
        },
{
    let ghost views = item_views(items@);
    let mut span: Option<(RequestId, RequestId, usize)> = None;
    let mut i: usize = 0;
    while i < items.len()
        invariant
            i <= items@.len(),
            views == item_views(items@),
            span is None <==> named_count(views, i as int) == 0,
            span matches Some((first, last, count)) ==> {
                &&& count == named_count(views, i as int)
                &&& count <= i
                &&& forall|j: int|
                    0 <= j < i ==> ((#[trigger] views[j]).id() matches Some(id) ==> first.0 <= id.0
                        <= last.0)
                &&& exists|j: int| 0 <= j < i && (#[trigger] views[j]).id() == Some(first)
                &&& exists|j: int| 0 <= j < i && (#[trigger] views[j]).id() == Some(last)
            },
            span is None ==> forall|j: int| 0 <= j < i ==> (#[trigger] views[j]).id() is None,
        decreases items.len() - i,
    {
        assert(views[i as int] == items@[i as int]@);
        if let Some(id) = items[i].id() {
            span = match span {
                None => Some((id, id, 1)),
                Some((first, last, count)) => Some(
                    (
                        if id.get() < first.get() {
                            id
                        } else {
                            first
                        },
                        if id.get() > last.get() {
                            id
                        } else {
                            last
                        },
                        count + 1,
                    ),
                ),
            };
            assert(views[i as int].id() == Some(id));
        }
        i = i + 1;
    }
    span
}

/// Puts the replies of a batch in request-queue order. `None` where the items
/// do not name the requests from `first` to `last`, each of them once.
fn sort_replies(
    items: Vec<JsonRpcBatchResponse<'_>>,
    first: RequestId,
    last: RequestId,
    count: usize,
) -> (replies: Option<Vec<Result<Range<usize>, Error>>>)
    requires
        count == named_count(item_views(items@), items@.len() as int),
        count == last.0 - first.0 + 1,
        first.0 <= last.0,
        all_in_range(item_views(items@), first, last),
        forall|j: int|
            0 <= j < items@.len() ==> (#[trigger] item_views(items@)[j] matches BatchItemView::Response(
                r,
            ) ==> r.result.offset is Some && r.result.end() <= usize::MAX),
    ensures
        replies is Some <==> covers(item_views(items@), first, last),
        replies matches Some(list) ==> {
            &&& list@.len() == count
            &&& forall|k: int|
                0 <= k < count ==> hands_on(
                    #[trigger] in_request_order(item_views(items@), first, last)[k],
                    list@[k],
                )
        },
{
    let ghost views = item_views(items@);
    let mut slots: Vec<Option<Result<Range<usize>, Error>>> = empty_slots(count);
    proof {
        lemma_none_filled(slots@);
    }
    for item in it: items
        invariant
            it.seq() == items@,
            views == item_views(items@),
            count == last.0 - first.0 + 1,
            all_in_range(views, first, last),
            forall|j: int|
                0 <= j < items@.len() ==> (#[trigger] views[j] matches BatchItemView::Response(r)
                    ==> r.result.offset is Some && r.result.end() <= usize::MAX),
            slots@.len() == count,
            filled(slots@) == named_count(views, it.index() as int),
            forall|k: int|
                0 <= k < count && (#[trigger] slots@[k] is Some) ==> exists|j: int|
                    0 <= j < it.index() && (#[trigger] views[j]).id() == Some(
                        RequestId((first.0 + k) as u64),
                    ) && hands_on(views[j], slots@[k]->Some_0),
            forall|j: int|
                0 <= j < it.index() ==> (#[trigger] views[j].id() matches Some(id)
                    ==> slots@[id.0 - first.0] is Some),
            forall|i: int, j: int|
                0 <= i < j < it.index() && (#[trigger] views[i]).id() is Some ==> views[i].id()
                    != (#[trigger] views[j]).id(),
    {
        let ghost i = it.index() as int;
        assert(views[i] == item@);
        if let Some(id) = item.id() {
            assert(views[i].id() == Some(id));
            let idx = (id.get() - first.get()) as usize;
            if slots[idx].is_some() {
                assert(!all_distinct(views)) by {
                    let j = choose|j: int|
                        0 <= j < i && (#[trigger] views[j]).id() == Some(
                            RequestId((first.0 + idx) as u64),
                        ) && hands_on(views[j], slots@[idx as int]->Some_0);
                    assert(views[j].id() == views[i].id());
                }
                return None;
            }
            assert forall|j: int| 0 <= j < i implies #[trigger] views[j].id() != Some(id) by {
                assert(slots@[idx as int] is None);
            }
            let reply = hand_on(item);
            let ghost before = slots@;
            proof {
                lemma_fill(slots@, idx as int, reply);
            }
            slots[idx] = Some(reply);
            assert(slots@ == before.update(idx as int, Some(reply)));
            assert(RequestId((first.0 + idx) as u64) == id);
        }
    }
    assert(all_distinct(views));
    proof {
        lemma_enough_items_cover(views, first, last);
    }
    let ghost all = slots@;
    proof {
        assert forall|k: int| 0 <= k < count implies #[trigger] all[k] is Some by {
            lemma_all_filled(all, k);
        }
    }
    let mut replies: Vec<Result<Range<usize>, Error>> = Vec::new();
    for slot in it: slots
        invariant
            it.seq() == slots@,
            slots@.len() == count,
            count == last.0 - first.0 + 1,
            covers(views, first, last),
            forall|k: int|
                0 <= k < count ==> (#[trigger] slots@[k] is Some && exists|j: int|
                    0 <= j < views.len() && (#[trigger] views[j]).id() == Some(
                        RequestId((first.0 + k) as u64),
                    ) && hands_on(views[j], slots@[k]->Some_0)),
            replies@.len() == it.index(),
            forall|k: int|
                0 <= k < it.index() ==> hands_on(
                    #[trigger] in_request_order(views, first, last)[k],
                    replies@[k],
                ),
    {
        let ghost k = it.index() as int;
        assert(slots@[k] is Some);
        let reply = slot.unwrap();
        proof {
            let id = RequestId((first.0 + k) as u64);
            let j = choose|j: int|
                0 <= j < views.len() && (#[trigger] views[j]).id() == Some(id) && hands_on(
                    views[j],
                    slots@[k]->Some_0,
                );
            law_one_answer_per_request(views, first, last, id);
            assert(answered_with(views, id, views[j]));
            assert(answered_with(views, id, item_for(views, id)));
            assert(in_request_order(views, first, last)[k] == views[j]);
        }
        replies.push(reply);
    }
    Some(replies)
}

/// Decodes one incoming wire message and routes it: a single response or error
/// settles the matching entry in `pending_requests`, a full batch response
/// settles the matching entry in `pending_batch_requests` (put back into
/// request-queue order by id), and a notification is broadcast. Malformed
/// frames and responses that don't correlate to anything pending are dropped.
pub fn handle_message(
    data: &[u8],
    pending_requests: &mut PendingRequests,
    pending_batch_requests: &mut PendingBatchRequests,
) -> (routing: Routing)
    ensures
        ({
            let message = decoded(data@, opens_batch(data@, 0));
            &&& routing.agrees(route(message, old(pending_requests)@, old(pending_batch_requests)@))
            &&& routing.points_into(data@)
            &&& final(pending_requests)@ == requests_after(message, old(pending_requests)@)
            &&& final(pending_batch_requests)@ == batches_after(
                message,
                old(pending_batch_requests)@,
            )
        }),
{
    let ghost message = decoded(data@, opens_batch(data@, 0));
    proof {
        law_decoding_borrows(data@, opens_batch(data@, 0));
        assert(data.len() <= usize::MAX);
    }
    match JsonRpcIncoming::try_from(data) {
        Ok(JsonRpcIncoming::BatchResponse(batch)) => {
            let ghost views = item_views(batch@);
            assert(message == Ok::<IncomingView, Refusal>(IncomingView::BatchResponse(views)));
            let (first, last, count) = match id_span(&batch) {
                Some(span) => span,
                None => {
                    proof {
                        if let Some((f, l)) = batch_key(views) {
                            lemma_cover_counts(views, f, l);
                        }
                    }
                    return Routing::Ignore;
                },
            };
            if (count - 1) as u64 != last.get() - first.get() {
                proof {
                    if let Some((f, l)) = batch_key(views) {
                        lemma_span_is_key(views, first, last, f, l);
                        lemma_cover_counts(views, f, l);
                    }
                }
                return Routing::Ignore;
            }
            let items = match sort_replies(batch, first, last, count) {
                Some(items) => items,
                None => {
                    proof {
                        if let Some((f, l)) = batch_key(views) {
                            lemma_span_is_key(views, first, last, f, l);
                        }
                    }
                    return Routing::Ignore;
                },
            };
            proof {
                lemma_key_unique(views, first, last);
                assert forall|k: int| 0 <= k < items@.len() implies (#[trigger] items@[k] matches Ok(
                    range,
                ) ==> range_within(range, data@)) by {
                    let id = RequestId((first.0 + k) as u64);
                    let item = item_for(views, id);
                    law_one_answer_per_request(views, first, last, id);
                    assert(answered_with(views, id, item));
                    let j = choose|j: int| 0 <= j < views.len() && views[j] == item;
                    assert(item_borrows_from(views[j], data@));
                    assert(hands_on(in_request_order(views, first, last)[k], items@[k]));
                }
            }
            match pending_batch_requests.remove(first, last) {
                Some(waiter) => Routing::DeliverBatch { waiter, items },
                None => Routing::Ignore,
            }
        },
        Ok(JsonRpcIncoming::Response(r)) => match pending_requests.remove(r.id) {
            Some(waiter) => Routing::Deliver { waiter, reply: Ok(place_of(&r.result)) },
            None => Routing::Ignore,
        },
        Ok(JsonRpcIncoming::ErrorResponse(e)) => match e.id {
            Some(id) => match pending_requests.remove(id) {
                Some(waiter) => Routing::Deliver { waiter, reply: Err(Error::from(e)) },
                None => Routing::Ignore,
            },
            None => Routing::Ignore,
        },
        Ok(JsonRpcIncoming::Notification(n)) => Routing::Broadcast(Notification::from(n)),
        Err(e) => Routing::Malformed(e),
    }
}

/// The range that items cover reaches from the lowest to the highest id.
proof fn lemma_span_is_key(
    items: Seq<BatchItemView>,
    first: RequestId,
    last: RequestId,
    f: RequestId,
    l: RequestId,
)
    requires
        f.0 <= l.0,
        covers(items, f, l),
        all_in_range(items, first, last),
        names(items, first),
        names(items, last),
    ensures
        f == first,
        l == last,
{
    assert(names(items, f) && names(items, l));
}

/// The message of the error with which calls fail that are in flight when the
/// connection is lost, up to the reason.
pub const CONNECTION_LOST: &'static str = "connection lost before a response was received: ";

/// Whoever waits for calls that fail.
#[derive(Debug)]
pub struct Failures {
    /// The tickets of those who wait for a request, each with its error.
    pub requests: Vec<(u64, Error)>,
    /// The tickets of those who wait for a batch, each with its error.
    pub batches: Vec<(u64, Error)>,
}

/// Whether every waiter is told that the connection was lost for `reason`.
pub open spec fn told(waiters: Seq<u64>, failures: Seq<(u64, Error)>, reason: Seq<char>) -> bool {
    &&& failures.len() == waiters.len()
    &&& forall|i: int|
        0 <= i < failures.len() ==> (#[trigger] failures[i]).0 == waiters[i] && (
        failures[i].1 matches Error::TransportError(text) && text@ == CONNECTION_LOST@ + reason)
}

/// Gives every waiter its error.
fn tell(waiters: Vec<u64>, reason: &str) -> (failures: Vec<(u64, Error)>)
    ensures
        told(waiters@, failures@, reason@),
{
    let mut failures: Vec<(u64, Error)> = Vec::new();
    let mut i: usize = 0;
    while i < waiters.len()
        invariant
            i <= waiters@.len(),
            told(waiters@.take(i as int), failures@, reason@),
        decreases waiters.len() - i,
    {
        let mut text = CONNECTION_LOST.to_owned();
        text.append(reason);
        failures.push((waiters[i], Error::TransportError(text)));
        i = i + 1;
    }
    assert(waiters@.take(i as int) =~= waiters@);
    failures
}

/// Fails every currently in-flight unary and batch request with a
/// `TransportError` describing `reason`, so that callers waiting on a response
/// fail promptly on every disconnect, including reconnects, rather than waiting
/// out their full timeout.
pub fn fail_pending_requests(
    pending_requests: &mut PendingRequests,
    pending_batch_requests: &mut PendingBatchRequests,
    reason: &str,
) -> (failures: Failures)
    ensures
        no_entries(final(pending_requests)@),
        no_entries(final(pending_batch_requests)@),
        exists|waiters: Seq<u64>| #[trigger]
            drained(old(pending_requests)@, waiters) && told(
                waiters,
                failures.requests@,
                reason@,
            ),
        exists|waiters: Seq<u64>| #[trigger]
            drained(old(pending_batch_requests)@, waiters) && told(
                waiters,
                failures.batches@,
                reason@,
            ),
{
    let requests = pending_requests.drain();
    let batches = pending_batch_requests.drain();
    assert(drained(old(pending_requests)@, requests@));
    assert(drained(old(pending_batch_requests)@, batches@));
    Failures { requests: tell(requests, reason), batches: tell(batches, reason) }
}

/// Why a frame that holds no message is refused in place of a reply.
pub const NOT_DATA: &'static str = "expected a Text or Binary message";

/// A WebSocket frame.
#[derive(Debug, Clone, Copy)]
pub enum Frame<'a> {
    /// A message as text.
    Text(&'a str),
    /// A message as bytes.
    Binary(&'a [u8]),
    /// The peer closes the connection.
    Close,
    /// The peer asks for a sign of life.
    Ping,
    /// The peer gives a sign of life.
    Pong,
    /// Any other frame.
    Other,
}

impl<'a> Frame<'a> {
    /// The message that the frame holds, if it holds one.
    pub open spec fn message(self) -> Option<Seq<u8>> {
        match self {
            Frame::Text(text) => Some(vstd::utf8::encode_utf8(text@)),
            Frame::Binary(bytes) => Some(bytes@),
            _ => None,
        }
    }

    /// The message that the frame holds, if it holds one.
    pub fn payload(self) -> (message: Result<&'a [u8], Error>)
        ensures
            match self.message() {
                Some(bytes) => message matches Ok(m) && m@ == bytes,
                None => message matches Err(e) && e.is_invalid_message(NOT_DATA@),
            },
    {
        match self {
            Frame::Text(text) => Ok(text.as_bytes()),
            Frame::Binary(bytes) => Ok(bytes),
            _ => Err(Error::InvalidMessage(NOT_DATA)),
        }
    }
}

/// What comes off a broadcast channel.
#[derive(Debug)]
pub enum Received<M> {
    /// The next message.
    Message(M),
    /// This many messages were dropped, because the receiver fell behind.
    Lagged(u64),
    /// There will be no more.
    Closed,
}

/// What the task that reads messages off a connection does next.
#[derive(Debug)]
pub enum IncomingStep {
    /// A message was read, and is routed.
    Route(Routing),
    /// There is nothing to do.
    Wait,
    /// The connection is gone for good.
    Stop,
}

/// Dispatches what came off the channel of frames: a frame that holds a message
/// goes to [`handle_message`]; others, and lost frames, are passed over.
pub fn incoming_step(
    event: Received<Frame<'_>>,
    pending_requests: &mut PendingRequests,
    pending_batch_requests: &mut PendingBatchRequests,
) -> (step: IncomingStep)
    ensures
        match event {
            Received::Message(frame) => match frame.message() {
                Some(data) => {
                    let message = decoded(data, opens_batch(data, 0));
                    &&& step matches IncomingStep::Route(routing) && routing.agrees(
                        route(message, old(pending_requests)@, old(pending_batch_requests)@),
                    ) && routing.points_into(data)
                    &&& final(pending_requests)@ == requests_after(message, old(pending_requests)@)
                    &&& final(pending_batch_requests)@ == batches_after(
                        message,
                        old(pending_batch_requests)@,
                    )
                },
                None => step is Wait,
            },
            Received::Lagged(_) => step is Wait,
            Received::Closed => step is Stop,
        },
        !(step is Route) ==> {
            &&& final(pending_requests)@ == old(pending_requests)@
            &&& final(pending_batch_requests)@ == old(pending_batch_requests)@
        },
{
    match event {
        Received::Message(frame) => match frame.payload() {
            Ok(data) => IncomingStep::Route(
                handle_message(data, pending_requests, pending_batch_requests),
            ),
            Err(_) => IncomingStep::Wait,
        },
        Received::Lagged(_) => IncomingStep::Wait,
        Received::Closed => IncomingStep::Stop,
    }
}

/// What the task that keeps a connection alive is woken up by.
#[derive(Debug)]
pub enum ManagementEvent<'a> {
    /// Something came off the channel of frames.
    Frame(Received<Frame<'a>>),
    /// It is time for a keepalive ping.
    Tick,
}

/// What the task that keeps a connection alive does next.
#[derive(Debug, Clone, Copy, PartialEq, Eq, Structural)]
pub enum ManagementStep {
    /// Note that the peer closed the connection.
    NoteClose,
    /// Note a ping of the peer, which the transport has answered.
    NotePing,
    /// Note a pong, which confirms that the peer is alive.
    NotePong,
    /// Note that this many frames were lost.
    NoteLag(u64),
    /// There is nothing to do.
    Wait,
    /// Send a keepalive ping.
    Ping,
    /// The connection is gone for good.
    Stop,
}

/// Decides what the task that keeps a connection alive does. It never ends
/// before the channel of frames does.
pub fn management_step(event: ManagementEvent<'_>) -> (step: ManagementStep)
    ensures
        step == match event {
            ManagementEvent::Tick => ManagementStep::Ping,
            ManagementEvent::Frame(Received::Closed) => ManagementStep::Stop,
            ManagementEvent::Frame(Received::Lagged(n)) => ManagementStep::NoteLag(n),
            ManagementEvent::Frame(Received::Message(Frame::Close)) => ManagementStep::NoteClose,
            ManagementEvent::Frame(Received::Message(Frame::Ping)) => ManagementStep::NotePing,
            ManagementEvent::Frame(Received::Message(Frame::Pong)) => ManagementStep::NotePong,
            ManagementEvent::Frame(Received::Message(_)) => ManagementStep::Wait,
        },
{
    match event {
        ManagementEvent::Tick => ManagementStep::Ping,
        ManagementEvent::Frame(received) => match received {
            Received::Message(frame) => match frame {
                Frame::Close => ManagementStep::NoteClose,
                Frame::Ping => ManagementStep::NotePing,
                Frame::Pong => ManagementStep::NotePong,
                _ => ManagementStep::Wait,
            },
            Received::Lagged(n) => ManagementStep::NoteLag(n),
            Received::Closed => ManagementStep::Stop,
        },
    }
}

/// A change of the state of a connection.
#[derive(Debug, Clone, Copy)]
pub enum ConnectionChange<'a> {
    /// The connection was lost, for this reason.
    Disconnected(&'a str),
    /// Anything else.
    Other,
}

/// What the task that watches a connection does next.
#[derive(Debug)]
pub enum DisconnectStep {
    /// Everything in flight fails.
    Fail(Failures),
    /// There is nothing to do.
    Wait,
    /// The connection is gone for good.
    Stop,
}

/// Watches connection changes and fails in-flight requests immediately on every
/// disconnect, rather than relying on their timeout to elapse. The connection is
/// reestablished transparently, so a single disconnect is not terminal for the
/// task itself.
pub fn disconnect_step(
    event: Received<ConnectionChange<'_>>,
    pending_requests: &mut PendingRequests,
    pending_batch_requests: &mut PendingBatchRequests,
) -> (step: DisconnectStep)
    ensures
        match event {
            Received::Message(ConnectionChange::Disconnected(reason)) => {
                &&& step is Fail
                &&& no_entries(final(pending_requests)@)
                &&& no_entries(final(pending_batch_requests)@)
                &&& exists|waiters: Seq<u64>| #[trigger]
                    drained(old(pending_requests)@, waiters) && told(
                        waiters,
                        step->Fail_0.requests@,
                        reason@,
                    )
                &&& exists|waiters: Seq<u64>| #[trigger]
                    drained(old(pending_batch_requests)@, waiters) && told(
                        waiters,
                        step->Fail_0.batches@,
                        reason@,
                    )
            },
            Received::Closed => step is Stop,
            _ => step is Wait,
        },
        !(step is Fail) ==> {
            &&& final(pending_requests)@ == old(pending_requests)@
            &&& final(pending_batch_requests)@ == old(pending_batch_requests)@
        },
{
    match event {
        Received::Message(change) => match change {
            ConnectionChange::Disconnected(reason) => DisconnectStep::Fail(
                fail_pending_requests(pending_requests, pending_batch_requests, reason),
            ),
            ConnectionChange::Other => DisconnectStep::Wait,
        },
        Received::Lagged(_) => DisconnectStep::Wait,
        Received::Closed => DisconnectStep::Stop,
    }
}

/// The next item of a stream of notifications, or its end. An
/// `Err(Error::NotificationsMissed(n))` item means that `n` notifications were
/// dropped before the next one, because the subscriber fell behind; the stream
/// continues afterward. It ends with the channel that the notifications come
/// over, which is closed along with the connection.
pub fn notification_step(event: Received<Notification>) -> (item: Option<
    Result<Notification, Error>,
>)
    ensures
        item == match event {
            Received::Message(n) => Some(Ok::<Notification, Error>(n)),
            Received::Lagged(n) => Some(Err::<Notification, Error>(Error::NotificationsMissed(n))),
            Received::Closed => None,
        },
{
    match event {
        Received::Message(n) => Some(Ok(n)),
        Received::Lagged(n) => Some(Err(Error::NotificationsMissed(n))),
        Received::Closed => None,
    }
}

/// A call is settled at most once: after a message has been routed, the same
/// message again settles nothing.
pub proof fn law_settled_at_most_once(
    message: Result<IncomingView, Refusal>,
    requests: Map<(u64, u64), u64>,
    batches: Map<(u64, u64), u64>,
)
    ensures
        ({
            let again = route(
                message,
                requests_after(message, requests),
                batches_after(message, batches),
            );
            !(again is Deliver) && !(again is DeliverBatch)
        }),
{
}

/// A message touches no call but the one that it settles: every other entry
/// stays, and if it settles none, nothing changes.
pub proof fn law_others_stay_pending(
    message: Result<IncomingView, Refusal>,
    requests: Map<(u64, u64), u64>,
    batches: Map<(u64, u64), u64>,
    key: (u64, u64),
)
    ensures
        ({
            let routing = route(message, requests, batches);
            let requests_then = requests_after(message, requests);
            let batches_then = batches_after(message, batches);
            &&& !(routing is Deliver) ==> requests_then == requests
            &&& !(routing is DeliverBatch) ==> batches_then == batches
            &&& requests.dom().contains(key) && !requests_then.dom().contains(key) ==> routing
                is Deliver && routing->Deliver_waiter == requests[key]
            &&& batches.dom().contains(key) && !batches_then.dom().contains(key) ==> routing
                is DeliverBatch && routing->DeliverBatch_waiter == batches[key]
            &&& requests_then.dom().contains(key) ==> requests.dom().contains(key)
                && requests_then[key] == requests[key]
            &&& batches_then.dom().contains(key) ==> batches.dom().contains(key)
                && batches_then[key] == batches[key]
        }),
{
    assert(requests_after(message, requests) =~= requests || route(message, requests, batches)
        is Deliver);
    assert(batches_after(message, batches) =~= batches || route(message, requests, batches)
        is DeliverBatch);
}

/// A batch reply with a gap or a duplicate settles nothing.
pub proof fn law_broken_batch_is_ignored(
    items: Seq<BatchItemView>,
    requests: Map<(u64, u64), u64>,
    batches: Map<(u64, u64), u64>,
)
    requires
        forall|first: RequestId, last: RequestId|
            first.0 <= last.0 ==> !#[trigger] covers(items, first, last),
    ensures
        route(Ok(IncomingView::BatchResponse(items)), requests, batches) is Ignore,
        requests_after(Ok(IncomingView::BatchResponse(items)), requests) == requests,
        batches_after(Ok(IncomingView::BatchResponse(items)), batches) == batches,
{
}

/// A batch may be answered in any order: the same items in another order settle
/// the same batch, with the same items at the same places.
pub proof fn law_batch_order_is_irrelevant(
    items: Seq<BatchItemView>,
    other: Seq<BatchItemView>,
    requests: Map<(u64, u64), u64>,
    batches: Map<(u64, u64), u64>,
)
    requires
        items.to_multiset() == other.to_multiset(),
    ensures
        route(Ok(IncomingView::BatchResponse(other)), requests, batches) == route(
            Ok(IncomingView::BatchResponse(items)),
            requests,
            batches,
        ),
        batches_after(Ok(IncomingView::BatchResponse(other)), batches) == batches_after(
            Ok(IncomingView::BatchResponse(items)),
            batches,
        ),
{
    if batch_key(items) is Some {
        law_request_order_is_restored(items, other);
    } else if batch_key(other) is Some {
        law_request_order_is_restored(other, items);
    }
}

/// A reply reaches its caller: while a request is in flight, the response or
/// error response that names it goes to who waits for it, whatever else is in
/// flight.
pub proof fn law_reply_reaches_its_caller(
    message: IncomingView,
    item: BatchItemView,
    id: RequestId,
    waiter: u64,
    requests: Map<(u64, u64), u64>,
    batches: Map<(u64, u64), u64>,
)
    requires
        message == match item {
            BatchItemView::Response(r) => IncomingView::Response(r),
            BatchItemView::ErrorResponse(e) => IncomingView::ErrorResponse(e),
        },
        item.id() == Some(id),
    ensures
        route(Ok(message), requests.insert((id.0, id.0), waiter), batches) == (
        RoutingView::Deliver { waiter, item }),
        requests_after(Ok(message), requests.insert((id.0, id.0), waiter)) == requests.remove(
            (id.0, id.0),
        ),
{
    assert(requests.insert((id.0, id.0), waiter).remove((id.0, id.0)) =~= requests.remove(
        (id.0, id.0),
    ));
}

/// A batch reply reaches its caller: while a batch is in flight, the reply that
/// covers its requests goes to who waits for it, in the order of the requests.
pub proof fn law_batch_reply_reaches_its_caller(
    items: Seq<BatchItemView>,
    first: RequestId,
    last: RequestId,
    waiter: u64,
    requests: Map<(u64, u64), u64>,
    batches: Map<(u64, u64), u64>,
)
    requires
        first.0 <= last.0,
        covers(items, first, last),
    ensures
        route(
            Ok(IncomingView::BatchResponse(items)),
            requests,
            batches.insert((first.0, last.0), waiter),
        ) == (RoutingView::DeliverBatch { waiter, items: in_request_order(items, first, last) }),
{
    lemma_key_unique(items, first, last);
}

/// A reply that comes too late is ignored: after a request has been given up,
/// the response or error response that names it goes nowhere.
pub proof fn law_late_reply_is_ignored(
    message: IncomingView,
    id: RequestId,
    requests: Map<(u64, u64), u64>,
    batches: Map<(u64, u64), u64>,
)
    requires
        match message {
            IncomingView::Response(r) => r.id == id,
            IncomingView::ErrorResponse(e) => e.id == Some(id),
            _ => false,
        },
    ensures
        route(Ok(message), requests.remove((id.0, id.0)), batches) is Ignore,
{
}

} // verus!
