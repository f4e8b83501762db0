//! What becomes of what arrives over a connection, of calls in flight and of their
//! ends.

use crate::batch::BatchResponseItem;
use crate::correlate::{
    all_distinct, all_in_range, answered_with, batch_key, covers, in_request_order, item_for,
    law_one_answer_per_request, lemma_key_unique, names,
};
use crate::decode::{
    item_borrows_from, item_views, law_decoding_borrows, opens_batch, BatchItemView, IncomingView,
    JsonRpcIncoming,
};
use crate::error::Error;
use crate::handles::{
    batches_after, disconnect_step, fail_pending_requests, handle_message, hands_on,
    incoming_step, management_step, notification_step, route, told, ConnectionChange, DisconnectStep, Failures, Frame,
    IncomingStep, ManagementEvent, ManagementStep, Received, Routing,
};
use crate::laws::basics::law_standing_for_an_error_response;
use crate::laws::replies::{fails_alike, named, tells_response};
use crate::pending::{
    drained, law_drained_once_each, listed, no_entries, PendingBatchRequests,
    PendingRequests,
};
use crate::protocol::Notification;
use crate::request_id::RequestId;
use crate::ws::{
    effective_timeout, finish_batch, finish_request, reads_item, seconds, settle_batch,
    settle_request, CallEnd, NOTIFICATION_CHANNEL_CAPACITY,
};
use core::time::Duration;
use std::ops::{Range, RangeInclusive};
use vstd::prelude::*;

verus! {

/// Whether `after` is `before` without the entry of `key`.
pub open spec fn taken_out(
    before: Map<(u64, u64), u64>,
    after: Map<(u64, u64), u64>,
    key: (u64, u64),
) -> bool {
    &&& !after.dom().contains(key)
    &&& forall|k: (u64, u64)|
        k != key ==> (#[trigger] after.dom().contains(k) <==> before.dom().contains(k))
    &&& forall|k: (u64, u64)|
        k != key && #[trigger] before.dom().contains(k) ==> after[k] == before[k]
}

/// Whether `after` is `before` with `value` under `key`.
pub open spec fn entered(
    before: Map<(u64, u64), u64>,
    after: Map<(u64, u64), u64>,
    key: (u64, u64),
    value: u64,
) -> bool {
    &&& after.dom().contains(key) && after[key] == value
    &&& forall|k: (u64, u64)|
        k != key ==> (#[trigger] after.dom().contains(k) <==> before.dom().contains(k))
    &&& forall|k: (u64, u64)|
        k != key && #[trigger] before.dom().contains(k) ==> after[k] == before[k]
}

/// Whether `reply` is what is handed on of an item of the message `data`: the bytes
/// that its result takes up, or its error.
pub open spec fn handed_on(
    data: Seq<u8>,
    item: BatchItemView,
    reply: Result<Range<usize>, Error>,
) -> bool {
    match item {
        BatchItemView::Response(r) => reply matches Ok(range) && {
            &&& range.start <= range.end <= data.len()
            &&& data.subrange(range.start as int, range.end as int) == vstd::utf8::encode_utf8(
                r.result.text,
            )
            &&& r.result.offset == Some(range.start as int)
        },
        BatchItemView::ErrorResponse(e) => reply matches Err(err) && tells_response(err, e),
    }
}

proof fn lemma_handed_on(data: Seq<u8>, item: BatchItemView, reply: Result<Range<usize>, Error>)
    requires
        item_borrows_from(item, data),
        hands_on(item, reply),
    ensures
        handed_on(data, item, reply),
{
    if let BatchItemView::ErrorResponse(e) = item {
        law_standing_for_an_error_response(reply->Err_0, e);
    }
}

/// A notification goes to all subscribers, with its method and its params if it has
/// any, and touches no call. What is malformed or refused is told as such, and
/// touches none either.
pub proof fn law_notifications_reach_everyone<'a>(
    data: &'a [u8],
    requests: &mut PendingRequests,
    batches: &mut PendingBatchRequests,
    routing: Routing,
    incoming: Result<JsonRpcIncoming<'a>, Error>,
)
    requires
        call_ensures(handle_message, (data, requests, batches), routing),
        call_ensures(<JsonRpcIncoming<'a> as TryFrom<&'a [u8]>>::try_from, (data,), incoming),
    ensures
        incoming matches Ok(JsonRpcIncoming::Notification(n)) ==> {
            &&& routing matches Routing::Broadcast(pushed)
            &&& pushed.method@ == n.method@
            &&& pushed.params is Some <==> n.params is Some
            &&& pushed.params matches Some(p) ==> p@.text == n.params->Some_0@.text
        },
        incoming matches Err(e) ==> (routing matches Routing::Malformed(other) && fails_alike(
            e,
            other,
        )),
        incoming is Err || (incoming matches Ok(JsonRpcIncoming::Notification(_))) ==> {
            &&& final(requests)@ == old(requests)@
            &&& final(batches)@ == old(batches)@
        },
{
}

/// A response or error response goes to who waits for the request that it names, and
/// takes that request and nothing else out of what is in flight. If nobody waits for
/// it, or it names no request, it is dropped and nothing changes.
pub proof fn law_replies_reach_their_callers<'a>(
    data: &'a [u8],
    requests: &mut PendingRequests,
    batches: &mut PendingBatchRequests,
    routing: Routing,
    incoming: Result<JsonRpcIncoming<'a>, Error>,
    item: BatchItemView,
)
    requires
        call_ensures(handle_message, (data, requests, batches), routing),
        call_ensures(<JsonRpcIncoming<'a> as TryFrom<&'a [u8]>>::try_from, (data,), incoming),
        match incoming {
            Ok(JsonRpcIncoming::Response(r)) => item == BatchItemView::Response(r@),
            Ok(JsonRpcIncoming::ErrorResponse(e)) => item == BatchItemView::ErrorResponse(e@),
            _ => false,
        },
    ensures
        final(batches)@ == old(batches)@,
        match named(item) {
            Some(id) => if old(requests)@.dom().contains((id, id)) {
                &&& routing matches Routing::Deliver { waiter, reply }
                &&& waiter == old(requests)@[(id, id)]
                &&& handed_on(data@, item, reply)
                &&& taken_out(old(requests)@, final(requests)@, (id, id))
            } else {
                routing is Ignore && final(requests)@ == old(requests)@
            },
            None => routing is Ignore && final(requests)@ == old(requests)@,
        },
{
    law_decoding_borrows(data@, opens_batch(data@, 0));
    assert(item_borrows_from(item, data@));
    if let Some(id) = named(item) {
        if old(requests)@.dom().contains((id, id)) {
            lemma_handed_on(data@, item, routing->reply);
        } else {
            assert(old(requests)@.remove((id, id)) =~= old(requests)@);
        }
    }
}

/// Whether the items that name a request name exactly those from `first` to `last`,
/// each of them once.
pub open spec fn names_exactly(items: Seq<BatchItemView>, first: u64, last: u64) -> bool {
    &&& first <= last
    &&& forall|j: int|
        0 <= j < items.len() ==> (named(#[trigger] items[j]) matches Some(id) ==> first <= id
            <= last)
    &&& forall|i: int, j: int|
        0 <= i < j < items.len() && named(#[trigger] items[i]) is Some ==> named(items[i])
            != named(#[trigger] items[j])
    &&& forall|id: u64| first <= id <= last ==> #[trigger] some_item_names(items, id)
}

/// Whether some item names the request `id`.
pub open spec fn some_item_names(items: Seq<BatchItemView>, id: u64) -> bool {
    exists|j: int| 0 <= j < items.len() && named(#[trigger] items[j]) == Some(id)
}

proof fn lemma_named_id(item: BatchItemView)
    ensures
        item.id() is Some <==> named(item) is Some,
        item.id() matches Some(id) ==> named(item) == Some(id.0),
{
}

proof fn lemma_covers(items: Seq<BatchItemView>, first: RequestId, last: RequestId)
    requires
        first.0 <= last.0,
    ensures
        covers(items, first, last) <==> names_exactly(items, first.0, last.0),
{
    assert forall|j: int| 0 <= j < items.len() implies {
        &&& (#[trigger] items[j]).id() is Some <==> named(items[j]) is Some
        &&& items[j].id() matches Some(id) ==> named(items[j]) == Some(id.0)
    } by {
        lemma_named_id(items[j]);
    }
    if covers(items, first, last) {
        assert forall|id: u64| first.0 <= id <= last.0 implies #[trigger] some_item_names(
            items,
            id,
        ) by {
            assert(names(items, RequestId(id)));
            let j = choose|j: int|
                0 <= j < items.len() && (#[trigger] items[j]).id() == Some(RequestId(id));
            assert(named(items[j]) == Some(id));
        }
        assert forall|i: int, j: int|
            0 <= i < j < items.len() && named(#[trigger] items[i]) is Some implies named(items[i])
            != named(#[trigger] items[j]) by {
            assert(items[i].id() != items[j].id());
        }
    }
    if names_exactly(items, first.0, last.0) {
        assert forall|id: RequestId| first.0 <= id.0 <= last.0 implies #[trigger] names(
            items,
            id,
        ) by {
            assert(some_item_names(items, id.0));
            let j = choose|j: int| 0 <= j < items.len() && named(#[trigger] items[j]) == Some(id.0);
            assert(items[j].id() == Some(id));
        }
        assert forall|i: int, j: int|
            0 <= i < j < items.len() && (#[trigger] items[i]).id() is Some implies items[i].id()
            != (#[trigger] items[j]).id() by {
            assert(named(items[i]) != named(items[j]));
        }
        assert(all_in_range(items, first, last));
        assert(all_distinct(items));
    }
}

/// Whether a batch reply to the requests `first` to `last` is handed to who waits for
/// them, each reply at the place of the request that it names, and that batch and
/// nothing else is taken out; or, if nobody waits for them, is dropped.
pub open spec fn batch_delivered(
    data: Seq<u8>,
    items: Seq<BatchItemView>,
    routing: Routing,
    before: Map<(u64, u64), u64>,
    after: Map<(u64, u64), u64>,
    first: u64,
    last: u64,
) -> bool {
    if before.dom().contains((first, last)) {
        &&& routing matches Routing::DeliverBatch { waiter, items: replies }
        &&& waiter == before[(first, last)]
        &&& replies@.len() == last - first + 1
        &&& forall|k: int, j: int|
            0 <= k < replies@.len() && 0 <= j < items.len() && named(#[trigger] items[j]) == Some(
                (first + k) as u64,
            ) ==> handed_on(data, items[j], #[trigger] replies@[k])
        &&& taken_out(before, after, (first, last))
    } else {
        routing is Ignore && after == before
    }
}

proof fn lemma_batch_delivered(
    data: Seq<u8>,
    items: Seq<BatchItemView>,
    routing: Routing,
    requests: Map<(u64, u64), u64>,
    before: Map<(u64, u64), u64>,
    first: u64,
    last: u64,
)
    requires
        names_exactly(items, first, last),
        forall|j: int| 0 <= j < items.len() ==> item_borrows_from(#[trigger] items[j], data),
        routing.agrees(route(Ok(IncomingView::BatchResponse(items)), requests, before)),
    ensures
        batch_delivered(
            data,
            items,
            routing,
            before,
            batches_after(Ok(IncomingView::BatchResponse(items)), before),
            first,
            last,
        ),
{
    let (f, l) = (RequestId(first), RequestId(last));
    lemma_covers(items, f, l);
    lemma_key_unique(items, f, l);
    if before.dom().contains((first, last)) {
        let replies = routing->DeliverBatch_items;
        let order = in_request_order(items, f, l);
        assert forall|k: int, j: int|
            0 <= k < replies@.len() && 0 <= j < items.len() && named(#[trigger] items[j]) == Some(
                (first + k) as u64,
            ) implies handed_on(data, items[j], #[trigger] replies@[k]) by {
            let id = RequestId((first + k) as u64);
            lemma_named_id(items[j]);
            law_one_answer_per_request(items, f, l, id);
            assert(answered_with(items, id, items[j]));
            assert(answered_with(items, id, item_for(items, id)));
            assert(order[k] == items[j]);
            assert(hands_on(order[k], replies@[k]));
            assert(item_borrows_from(items[j], data));
            lemma_handed_on(data, items[j], replies@[k]);
        }
    } else {
        assert(before.remove((first, last)) =~= before);
    }
}

proof fn lemma_no_key(items: Seq<BatchItemView>)
    requires
        forall|first: u64, last: u64| !#[trigger] names_exactly(items, first, last),
    ensures
        batch_key(items) is None,
{
    if let Some((f, l)) = batch_key(items) {
        lemma_covers(items, f, l);
        assert(!names_exactly(items, f.0, l.0));
    }
}

/// A batch reply whose items name exactly the requests of a batch in flight, each of
/// them once and in whatever order, goes to who waits for that batch, each reply at
/// the place of the request that it names; that batch and nothing else is taken out.
/// If nobody waits for those requests, the reply is dropped and nothing changes.
pub proof fn law_batch_replies_reach_their_callers<'a>(
    data: &'a [u8],
    requests: &mut PendingRequests,
    batches: &mut PendingBatchRequests,
    routing: Routing,
    incoming: Result<JsonRpcIncoming<'a>, Error>,
    items: Seq<BatchItemView>,
    first: u64,
    last: u64,
)
    requires
        call_ensures(handle_message, (data, requests, batches), routing),
        call_ensures(<JsonRpcIncoming<'a> as TryFrom<&'a [u8]>>::try_from, (data,), incoming),
        incoming matches Ok(JsonRpcIncoming::BatchResponse(list)) && items == Seq::new(
            list@.len(),
            |i: int| list@[i]@,
        ),
        names_exactly(items, first, last),
    ensures
        final(requests)@ == old(requests)@,
        batch_delivered(
            data@,
            items,
            routing,
            old(batches)@,
            final(batches)@,
            first,
            last,
        ),
{
    let list = incoming->Ok_0->BatchResponse_0;
    assert(items =~= item_views(list@));
    law_decoding_borrows(data@, opens_batch(data@, 0));
    lemma_batch_delivered(data@, items, routing, old(requests)@, old(batches)@, first, last);
}

/// A batch reply whose items do not name a range of requests, each of them once, is
/// dropped and changes nothing.
pub proof fn law_broken_batch_replies_are_dropped<'a>(
    data: &'a [u8],
    requests: &mut PendingRequests,
    batches: &mut PendingBatchRequests,
    routing: Routing,
    incoming: Result<JsonRpcIncoming<'a>, Error>,
    items: Seq<BatchItemView>,
)
    requires
        call_ensures(handle_message, (data, requests, batches), routing),
        call_ensures(<JsonRpcIncoming<'a> as TryFrom<&'a [u8]>>::try_from, (data,), incoming),
        incoming matches Ok(JsonRpcIncoming::BatchResponse(list)) && items == Seq::new(
            list@.len(),
            |i: int| list@[i]@,
        ),
        forall|first: u64, last: u64| !#[trigger] names_exactly(items, first, last),
    ensures
        routing is Ignore,
        final(requests)@ == old(requests)@,
        final(batches)@ == old(batches)@,
{
    let list = incoming->Ok_0->BatchResponse_0;
    assert(items =~= item_views(list@));
    lemma_no_key(items);
}

/// A batch reply in a frame is handed on, or dropped, as one on its own is.
pub proof fn law_batch_replies_in_frames<'a>(
    frame: Frame<'a>,
    data: &'a [u8],
    requests: &mut PendingRequests,
    batches: &mut PendingBatchRequests,
    step: IncomingStep,
    incoming: Result<JsonRpcIncoming<'a>, Error>,
    items: Seq<BatchItemView>,
    first: u64,
    last: u64,
)
    requires
        call_ensures(incoming_step, (Received::Message(frame), requests, batches), step),
        call_ensures(Frame::<'a>::payload, (frame,), Ok(data)),
        call_ensures(<JsonRpcIncoming<'a> as TryFrom<&'a [u8]>>::try_from, (data,), incoming),
        incoming matches Ok(JsonRpcIncoming::BatchResponse(list)) && items == Seq::new(
            list@.len(),
            |i: int| list@[i]@,
        ),
    ensures
        final(requests)@ == old(requests)@,
        names_exactly(items, first, last) ==> (step matches IncomingStep::Route(routing)
            && batch_delivered(
            data@,
            items,
            routing,
            old(batches)@,
            final(batches)@,
            first,
            last,
        )),
        (forall|f: u64, l: u64| !#[trigger] names_exactly(items, f, l)) ==> {
            &&& step matches IncomingStep::Route(routing) && routing is Ignore
            &&& final(batches)@ == old(batches)@
        },
{
    let list = incoming->Ok_0->BatchResponse_0;
    assert(items =~= item_views(list@));
    law_decoding_borrows(data@, opens_batch(data@, 0));
    if names_exactly(items, first, last) {
        lemma_batch_delivered(
            data@,
            items,
            step->Route_0,
            old(requests)@,
            old(batches)@,
            first,
            last,
        );
    } else if forall|f: u64, l: u64| !#[trigger] names_exactly(items, f, l) {
        lemma_no_key(items);
    }
}

/// A frame with text or bytes is handled as the message that it holds; any other, and
/// frames that were lost, are passed over; the end of the frames ends the task.
pub proof fn law_frames_are_dispatched<'a>(
    event: Received<Frame<'a>>,
    requests: &mut PendingRequests,
    batches: &mut PendingBatchRequests,
    step: IncomingStep,
    frame: Frame<'a>,
    payload: Result<&'a [u8], Error>,
)
    requires
        call_ensures(incoming_step, (event, requests, batches), step),
        call_ensures(Frame::<'a>::payload, (frame,), payload),
    ensures
        frame matches Frame::Text(t) ==> (payload matches Ok(m) && m@ == vstd::utf8::encode_utf8(
            t@,
        )),
        frame matches Frame::Binary(b) ==> (payload matches Ok(m) && m@ == b@),
        !(frame is Text) && !(frame is Binary) ==> (payload matches Err(Error::InvalidMessage(why))
            && why@ == "expected a Text or Binary message"@),
        event is Closed <==> step is Stop,
        event is Lagged ==> step is Wait,
        event matches Received::Message(f) ==> (step is Route <==> f is Text || f is Binary),
        !(step is Route) ==> final(requests)@ == old(requests)@ && final(batches)@
            == old(batches)@,
{
}

/// What a frame holds is routed as the message is that it holds.
pub proof fn law_frames_are_routed<'a>(
    frame: Frame<'a>,
    data: &'a [u8],
    requests: &mut PendingRequests,
    batches: &mut PendingBatchRequests,
    step: IncomingStep,
    incoming: Result<JsonRpcIncoming<'a>, Error>,
)
    requires
        call_ensures(
            incoming_step,
            (Received::Message(frame), requests, batches),
            step,
        ),
        call_ensures(Frame::<'a>::payload, (frame,), Ok(data)),
        call_ensures(<JsonRpcIncoming<'a> as TryFrom<&'a [u8]>>::try_from, (data,), incoming),
    ensures
        step matches IncomingStep::Route(routing) && match incoming {
            Err(e) => routing matches Routing::Malformed(other) && fails_alike(e, other),
            Ok(JsonRpcIncoming::Notification(n)) => routing matches Routing::Broadcast(pushed)
                && pushed.method@ == n.method@ && (pushed.params is Some <==> n.params is Some)
                && (pushed.params matches Some(p) ==> p@.text == n.params->Some_0@.text),
            Ok(JsonRpcIncoming::Response(r)) => {
                let id = r.id.0;
                if old(requests)@.dom().contains((id, id)) {
                    &&& routing matches Routing::Deliver { waiter, reply }
                    &&& waiter == old(requests)@[(id, id)]
                    &&& handed_on(data@, BatchItemView::Response(r@), reply)
                    &&& taken_out(old(requests)@, final(requests)@, (id, id))
                } else {
                    routing is Ignore && final(requests)@ == old(requests)@
                }
            },
            Ok(JsonRpcIncoming::ErrorResponse(e)) => match e.id {
                Some(RequestId(id)) => if old(requests)@.dom().contains((id, id)) {
                    &&& routing matches Routing::Deliver { waiter, reply }
                    &&& waiter == old(requests)@[(id, id)]
                    &&& handed_on(data@, BatchItemView::ErrorResponse(e@), reply)
                    &&& taken_out(old(requests)@, final(requests)@, (id, id))
                } else {
                    routing is Ignore && final(requests)@ == old(requests)@
                },
                None => routing is Ignore && final(requests)@ == old(requests)@,
            },
            Ok(JsonRpcIncoming::BatchResponse(_)) => final(requests)@ == old(requests)@,
        },
        !(incoming matches Ok(JsonRpcIncoming::BatchResponse(_))) ==> final(batches)@
            == old(batches)@,
        incoming is Err || (incoming matches Ok(JsonRpcIncoming::Notification(_))) ==> {
            final(requests)@ == old(requests)@
        },
{
    law_decoding_borrows(data@, opens_batch(data@, 0));
    match incoming {
        Ok(JsonRpcIncoming::Response(r)) => {
            let item = BatchItemView::Response(r@);
            let key = (r.id.0, r.id.0);
            assert(item_borrows_from(item, data@));
            if old(requests)@.dom().contains(key) {
                lemma_handed_on(data@, item, step->Route_0->reply);
            } else {
                assert(old(requests)@.remove(key) =~= old(requests)@);
            }
        },
        Ok(JsonRpcIncoming::ErrorResponse(e)) => {
            let item = BatchItemView::ErrorResponse(e@);
            if let Some(id) = e.id {
                let key = (id.0, id.0);
                if old(requests)@.dom().contains(key) {
                    lemma_handed_on(data@, item, step->Route_0->reply);
                } else {
                    assert(old(requests)@.remove(key) =~= old(requests)@);
                }
            }
        },
        _ => {},
    }
}

/// The task that keeps a connection alive pings whenever it is time to, ends with the
/// frames, and else takes note of what it sees.
pub proof fn law_keepalive(event: ManagementEvent<'_>, step: ManagementStep)
    requires
        call_ensures(management_step, (event,), step),
    ensures
        step == ManagementStep::Ping <==> event is Tick,
        step == ManagementStep::Stop <==> event matches ManagementEvent::Frame(Received::Closed),
        event matches ManagementEvent::Frame(Received::Lagged(n)) ==> step
            == ManagementStep::NoteLag(n),
        step == ManagementStep::NoteClose <==> (event matches ManagementEvent::Frame(
            Received::Message(f),
        ) && f is Close),
        step == ManagementStep::NotePing <==> (event matches ManagementEvent::Frame(
            Received::Message(f),
        ) && f is Ping),
        step == ManagementStep::NotePong <==> (event matches ManagementEvent::Frame(
            Received::Message(f),
        ) && f is Pong),
        step == ManagementStep::Wait <==> (event matches ManagementEvent::Frame(
            Received::Message(f),
        ) && !(f is Close) && !(f is Ping) && !(f is Pong)),
{
}

/// Whether `failures` tells whoever waits for a call of `entries`, once for each call,
/// that the connection was lost for `reason`, and nobody else.
pub open spec fn all_told(
    entries: Map<(u64, u64), u64>,
    failures: Seq<(u64, Error)>,
    reason: Seq<char>,
) -> bool {
    exists|keys: Seq<(u64, u64)>| #[trigger] told_by_key(entries, keys, failures, reason)
}

/// Whether `failures` tells whoever waits for the calls `keys`, in their order, that
/// the connection was lost for `reason`, those being all calls of `entries`.
pub open spec fn told_by_key(
    entries: Map<(u64, u64), u64>,
    keys: Seq<(u64, u64)>,
    failures: Seq<(u64, Error)>,
    reason: Seq<char>,
) -> bool {
    &&& keys.len() == failures.len()
    &&& forall|i: int, j: int|
        0 <= i < j < keys.len() ==> #[trigger] keys[i] != #[trigger] keys[j]
    &&& forall|key: (u64, u64)| #[trigger] keys.contains(key) <==> entries.dom().contains(key)
    &&& forall|i: int|
        0 <= i < failures.len() ==> {
            &&& (#[trigger] failures[i]).0 == entries[keys[i]]
            &&& failures[i].1 matches Error::TransportError(text)
            &&& text@ == "connection lost before a response was received: "@ + reason
        }
}

proof fn lemma_all_told(
    entries: Map<(u64, u64), u64>,
    failures: Seq<(u64, Error)>,
    reason: Seq<char>,
)
    requires
        exists|waiters: Seq<u64>| #[trigger]
            drained(entries, waiters) && told(waiters, failures, reason),
    ensures
        all_told(entries, failures, reason),
{
    let waiters = choose|waiters: Seq<u64>| #[trigger]
        drained(entries, waiters) && told(waiters, failures, reason);
    let keys = choose|keys: Seq<(u64, u64)>| #[trigger] listed(entries, keys, waiters);
    assert forall|i: int| 0 <= i < failures.len() implies {
        &&& (#[trigger] failures[i]).0 == entries[keys[i]]
        &&& failures[i].1 matches Error::TransportError(text)
        &&& text@ == "connection lost before a response was received: "@ + reason
    } by {
        assert(waiters[i] == entries[keys[i]]);
    }
    assert(told_by_key(entries, keys, failures, reason));
}

/// When the connection is lost, whoever waits for a request or a batch in flight is
/// told so, with the reason, and nothing is in flight any more.
pub proof fn law_lost_connections_fail_everything(
    requests: &mut PendingRequests,
    batches: &mut PendingBatchRequests,
    reason: &str,
    failures: Failures,
)
    requires
        call_ensures(fail_pending_requests, (requests, batches, reason), failures),
    ensures
        all_told(old(requests)@, failures.requests@, reason@),
        all_told(old(batches)@, failures.batches@, reason@),
        forall|key: (u64, u64)| !#[trigger] final(requests)@.dom().contains(key),
        forall|key: (u64, u64)| !#[trigger] final(batches)@.dom().contains(key),
{
    lemma_all_told(old(requests)@, failures.requests@, reason@);
    lemma_all_told(old(batches)@, failures.batches@, reason@);
}

/// Every disconnect fails everything in flight, with its reason; other changes, and
/// changes that were missed, fail nothing; the end of the changes ends the task.
pub proof fn law_disconnects(
    event: Received<ConnectionChange<'_>>,
    requests: &mut PendingRequests,
    batches: &mut PendingBatchRequests,
    step: DisconnectStep,
)
    requires
        call_ensures(disconnect_step, (event, requests, batches), step),
    ensures
        step is Stop <==> event is Closed,
        step is Fail <==> (event matches Received::Message(change) && change is Disconnected),
        event matches Received::Message(ConnectionChange::Disconnected(reason)) ==> {
            &&& all_told(old(requests)@, step->Fail_0.requests@, reason@)
            &&& all_told(old(batches)@, step->Fail_0.batches@, reason@)
            &&& forall|key: (u64, u64)| !#[trigger] final(requests)@.dom().contains(key)
            &&& forall|key: (u64, u64)| !#[trigger] final(batches)@.dom().contains(key)
        },
        !(step is Fail) ==> final(requests)@ == old(requests)@ && final(batches)@ == old(batches)@,
{
    if let Received::Message(ConnectionChange::Disconnected(reason)) = event {
        lemma_all_told(old(requests)@, step->Fail_0.requests@, reason@);
        lemma_all_told(old(batches)@, step->Fail_0.batches@, reason@);
    }
}

/// A stream of notifications hands on each notification, tells how many were missed,
/// and ends only when its channel does.
pub proof fn law_streams_of_notifications(
    event: Received<Notification>,
    item: Option<Result<Notification, Error>>,
)
    requires
        call_ensures(notification_step, (event,), item),
    ensures
        item is None <==> event is Closed,
        event matches Received::Message(n) ==> item == Some(Ok::<Notification, Error>(n)),
        event matches Received::Lagged(n) ==> (item matches Some(Err(
            Error::NotificationsMissed(m),
        )) && m == n),
{
}

/// A call waits as long as it says itself, else as long as its client is configured
/// to, else half a minute.
pub proof fn law_timeouts(
    call: Option<Duration>,
    configured: Option<Duration>,
    timeout: Duration,
)
    requires
        call_ensures(effective_timeout, (call, configured), timeout),
    ensures
        call matches Some(t) ==> timeout == t,
        call is None ==> (configured matches Some(t) ==> timeout == t),
        call is None && configured is None ==> timeout == seconds(30),
        NOTIFICATION_CHANNEL_CAPACITY == 100,
{
}

/// Whether `outcome` is what the end of a call comes to.
pub open spec fn ended<R>(
    end: CallEnd<R>,
    timeout: Duration,
    outcome: Result<R, Error>,
) -> bool {
    &&& end matches CallEnd::SendFailed(reason) ==> outcome == Err::<R, Error>(
        Error::TransportError(reason),
    )
    &&& end is TimedOut ==> outcome == Err::<R, Error>(Error::RequestTimeout(timeout))
    &&& end matches CallEnd::Abandoned(reason) ==> outcome == Err::<R, Error>(
        Error::TransportError(reason),
    )
    &&& end matches CallEnd::Replied(reply) ==> outcome == reply
}

/// A call that could not be sent or was not answered in time is told so and is given
/// up: its entry and no other is taken out. A call that was answered or abandoned is
/// no longer entered, and nothing changes.
pub proof fn law_calls_end(
    id: RequestId,
    timeout: Duration,
    end: CallEnd<Range<usize>>,
    pending: &mut PendingRequests,
    outcome: Result<Range<usize>, Error>,
)
    requires
        call_ensures(settle_request, (id, timeout, end, pending), outcome),
    ensures
        ended(end, timeout, outcome),
        end is SendFailed || end is TimedOut ==> taken_out(
            old(pending)@,
            final(pending)@,
            (id.0, id.0),
        ),
        end is Abandoned || end is Replied ==> final(pending)@ == old(pending)@,
{
}

/// The same of a batch.
pub proof fn law_batch_calls_end(
    range: RangeInclusive<RequestId>,
    timeout: Duration,
    end: CallEnd<Vec<Result<Range<usize>, Error>>>,
    pending: &mut PendingBatchRequests,
    outcome: Result<Vec<Result<Range<usize>, Error>>, Error>,
)
    requires
        call_ensures(settle_batch, (&range, timeout, end, pending), outcome),
    ensures
        ended(end, timeout, outcome),
        end is SendFailed || end is TimedOut ==> taken_out(
            old(pending)@,
            final(pending)@,
            (range@.start.0, range@.end.0),
        ),
        end is Abandoned || end is Replied ==> final(pending)@ == old(pending)@,
{
}

/// The result of a request is read from exactly those bytes of its message that were
/// handed on.
pub proof fn law_results_are_read_where_they_stand<
    'a,
    T,
    F: FnOnce(&[u8]) -> Result<T, serde_json::Error>,
>(frame: Frame<'a>, range: Range<usize>, parse: F, response: Result<T, Error>)
    requires
        call_ensures(finish_request::<T, F>, (frame, range, parse), response),
    ensures
        !(frame is Text) && !(frame is Binary) ==> (response matches Err(Error::InvalidMessage(why))
            && why@ == "expected a Text or Binary message"@),
        frame is Text || frame is Binary ==> exists|
            b: &[u8],
            r: Result<T, serde_json::Error>,
        | #[trigger]
            call_ensures(parse, (b,), r) && b@ == (match frame {
                Frame::Text(t) => vstd::utf8::encode_utf8(t@),
                Frame::Binary(m) => m@,
                _ => Seq::empty(),
            }).subrange(range.start as int, range.end as int) && match r {
                Ok(value) => response == Ok::<T, Error>(value),
                Err(e) => response == Err::<T, Error>(Error::SerdeError(e)),
            },
{
}

/// Whether `outcome` is what a caller gets for an item of a batch in the message
/// `bytes`: the item's own error, or what the request's own parser gives for exactly
/// the text where the item stands.
pub open spec fn item_read<T, F: Fn(&str) -> BatchResponseItem<T>>(
    bytes: Seq<u8>,
    item: Result<Range<usize>, Error>,
    parser: F,
    outcome: BatchResponseItem<T>,
) -> bool {
    match item {
        Err(e) => outcome == Err::<T, Error>(e),
        Ok(range) => {
            let piece = bytes.subrange(range.start as int, range.end as int);
            &&& vstd::utf8::valid_utf8(piece) ==> exists|s: &str| #[trigger]
                call_ensures(parser, (s,), outcome) && s@ == vstd::utf8::decode_utf8(piece)
            &&& !vstd::utf8::valid_utf8(piece) ==> (outcome matches Err(
                Error::InvalidMessage(why),
            ) && why@ == "response was not valid UTF-8"@)
        },
    }
}

proof fn lemma_item_read<T, F: Fn(&str) -> BatchResponseItem<T>>(
    bytes: Seq<u8>,
    item: Result<Range<usize>, Error>,
    parser: F,
    outcome: BatchResponseItem<T>,
)
    requires
        reads_item(bytes, item, parser, outcome),
    ensures
        item_read(bytes, item, parser, outcome),
{
    if let Ok(range) = item {
        let piece = bytes.subrange(range.start as int, range.end as int);
        if vstd::utf8::valid_utf8(piece) {
            let s = choose|s: &str|
                s@ == vstd::utf8::decode_utf8(piece) && #[trigger] call_ensures(
                    parser,
                    (s,),
                    outcome,
                );
            assert(call_ensures(parser, (s,), outcome));
        }
    }
}

/// The results of a batch are read each with the parser of its own request, from
/// exactly those bytes of the message that were handed on for it.
pub proof fn law_batch_results_are_read_where_they_stand<
    'a,
    T,
    F: Fn(&str) -> BatchResponseItem<T>,
>(
    frame: Frame<'a>,
    items: Vec<Result<Range<usize>, Error>>,
    parsers: Vec<F>,
    outcomes: Result<Vec<BatchResponseItem<T>>, Error>,
)
    requires
        call_ensures(finish_batch::<T, F>, (frame, items, parsers), outcomes),
    ensures
        !(frame is Text) && !(frame is Binary) ==> (outcomes matches Err(Error::InvalidMessage(why))
            && why@ == "expected a Text or Binary message"@),
        frame is Text || frame is Binary ==> {
            let bytes = match frame {
                Frame::Text(t) => vstd::utf8::encode_utf8(t@),
                Frame::Binary(m) => m@,
                _ => Seq::empty(),
            };
            &&& outcomes matches Ok(list)
            &&& parsers@.len() >= items@.len() ==> list@.len() == items@.len()
            &&& parsers@.len() < items@.len() ==> list@.len() == parsers@.len()
            &&& forall|k: int|
                0 <= k < list@.len() ==> item_read(
                    bytes,
                    items@[k],
                    parsers@[k],
                    #[trigger] list@[k],
                )
        },
{
    if let Some(bytes) = frame.message() {
        let list = outcomes->Ok_0;
        assert forall|k: int| 0 <= k < list@.len() implies item_read(
            bytes,
            items@[k],
            parsers@[k],
            #[trigger] list@[k],
        ) by {
            lemma_item_read(bytes, items@[k], parsers@[k], list@[k]);
        }
    }
}

proof fn lemma_no_entries(entries: Map<(u64, u64), u64>)
    ensures
        no_entries(entries) <==> forall|key: (u64, u64)| !#[trigger] entries.dom().contains(key),
{
    if forall|key: (u64, u64)| !#[trigger] entries.dom().contains(key) {
        assert(entries.dom() =~= Set::empty());
        assert(entries =~= Map::empty());
    }
}

/// What is entered under an id is found under it until it is taken out, and nothing
/// else is touched.
pub proof fn law_requests_in_flight(
    fresh: PendingRequests,
    held: PendingRequests,
    table: &mut PendingRequests,
    other: &mut PendingRequests,
    id: RequestId,
    waiter: u64,
    before: Option<u64>,
    found: bool,
    empty: bool,
    taken: Option<u64>,
)
    requires
        call_ensures(PendingRequests::new, (), fresh),
        call_ensures(PendingRequests::insert, (table, id, waiter), before),
        call_ensures(PendingRequests::contains_key, (&held, id), found),
        call_ensures(PendingRequests::is_empty, (&held,), empty),
        call_ensures(PendingRequests::remove, (other, id), taken),
    ensures
        forall|key: (u64, u64)| !#[trigger] fresh@.dom().contains(key),
        entered(old(table)@, final(table)@, (id.0, id.0), waiter),
        before is Some <==> old(table)@.dom().contains((id.0, id.0)),
        before matches Some(w) ==> w == old(table)@[(id.0, id.0)],
        found <==> held@.dom().contains((id.0, id.0)),
        empty <==> forall|key: (u64, u64)| !#[trigger] held@.dom().contains(key),
        taken_out(old(other)@, final(other)@, (id.0, id.0)),
        taken is Some <==> old(other)@.dom().contains((id.0, id.0)),
        taken matches Some(w) ==> w == old(other)@[(id.0, id.0)],
{
    lemma_no_entries(held@);
}

/// The same of batches, which are found under the first and the last of their ids.
pub proof fn law_batches_in_flight(
    fresh: PendingBatchRequests,
    held: PendingBatchRequests,
    table: &mut PendingBatchRequests,
    other: &mut PendingBatchRequests,
    first: RequestId,
    last: RequestId,
    waiter: u64,
    before: Option<u64>,
    found: bool,
    empty: bool,
    taken: Option<u64>,
)
    requires
        call_ensures(PendingBatchRequests::new, (), fresh),
        call_ensures(PendingBatchRequests::insert, (table, first, last, waiter), before),
        call_ensures(PendingBatchRequests::contains_key, (&held, first, last), found),
        call_ensures(PendingBatchRequests::is_empty, (&held,), empty),
        call_ensures(PendingBatchRequests::remove, (other, first, last), taken),
    ensures
        forall|key: (u64, u64)| !#[trigger] fresh@.dom().contains(key),
        entered(old(table)@, final(table)@, (first.0, last.0), waiter),
        before is Some <==> old(table)@.dom().contains((first.0, last.0)),
        before matches Some(w) ==> w == old(table)@[(first.0, last.0)],
        found <==> held@.dom().contains((first.0, last.0)),
        empty <==> forall|key: (u64, u64)| !#[trigger] held@.dom().contains(key),
        taken_out(old(other)@, final(other)@, (first.0, last.0)),
        taken is Some <==> old(other)@.dom().contains((first.0, last.0)),
        taken matches Some(w) ==> w == old(other)@[(first.0, last.0)],
{
    lemma_no_entries(held@);
}

/// Whether `tickets` are those under the keys `keys`, in their order, those being all
/// keys of `entries`.
pub open spec fn handed_out(
    entries: Map<(u64, u64), u64>,
    keys: Seq<(u64, u64)>,
    tickets: Seq<u64>,
) -> bool {
    &&& keys.len() == tickets.len()
    &&& forall|i: int, j: int|
        0 <= i < j < keys.len() ==> #[trigger] keys[i] != #[trigger] keys[j]
    &&& forall|key: (u64, u64)| #[trigger] keys.contains(key) <==> entries.dom().contains(key)
    &&& forall|i: int| 0 <= i < keys.len() ==> #[trigger] tickets[i] == entries[keys[i]]
}

proof fn lemma_handed_out(entries: Map<(u64, u64), u64>, tickets: Seq<u64>)
    requires
        drained(entries, tickets),
    ensures
        exists|keys: Seq<(u64, u64)>| #[trigger] handed_out(entries, keys, tickets),
{
    let keys = choose|keys: Seq<(u64, u64)>| #[trigger] listed(entries, keys, tickets);
    assert(handed_out(entries, keys, tickets));
}

/// Emptying a table hands out every ticket in it, once for each call, and leaves
/// nothing behind.
pub proof fn law_tables_are_emptied(
    requests: &mut PendingRequests,
    batches: &mut PendingBatchRequests,
    a: Vec<u64>,
    b: Vec<u64>,
)
    requires
        call_ensures(PendingRequests::drain, (requests,), a),
        call_ensures(PendingBatchRequests::drain, (batches,), b),
    ensures
        a@.len() == old(requests)@.dom().len(),
        b@.len() == old(batches)@.dom().len(),
        exists|keys: Seq<(u64, u64)>| #[trigger] handed_out(old(requests)@, keys, a@),
        exists|keys: Seq<(u64, u64)>| #[trigger] handed_out(old(batches)@, keys, b@),
        forall|key: (u64, u64)| !#[trigger] final(requests)@.dom().contains(key),
        forall|key: (u64, u64)| !#[trigger] final(batches)@.dom().contains(key),
{
    law_drained_once_each(old(requests)@, a@);
    law_drained_once_each(old(batches)@, b@);
    lemma_handed_out(old(requests)@, a@);
    lemma_handed_out(old(batches)@, b@);
}

} // verus!
