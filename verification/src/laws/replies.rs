//! What a caller gets for a reply.

use crate::batch::BatchResponseItem;
use crate::correlate::{
    answered_with, item_for, law_accepted_reply_covers_the_batch, law_one_answer_per_request,
};
use crate::decode::{
    decode_single_response, item_views, BatchItemView, IncomingView, JsonRpcBatchResponse,
    JsonRpcIncoming,
};
use crate::error::Error;
use crate::http::{
    answers, correlate_batch_items, correlated, ensure_success, fault_from, finish_batch,
    finish_request, item_fault, settles, Status,
};
use crate::laws::basics::{law_standing_for_an_error_response, tells};
use crate::protocol::ErrorResponseView;
use crate::request_id::RequestId;
use std::ops::RangeInclusive;
use vstd::prelude::*;

verus! {

/// Whether `e` is the error of the peer that an error response is.
pub open spec fn tells_response(e: Error, r: ErrorResponseView) -> bool {
    tells(e, r.id, r.error.code, r.error.message, r.error.data)
}

/// Whether `response` is what `parse` makes of `text`.
pub open spec fn parsed_as<T, F: FnOnce(&str) -> Result<T, serde_json::Error>>(
    parse: F,
    text: Seq<char>,
    response: Result<T, Error>,
) -> bool {
    exists|s: &str, r: Result<T, serde_json::Error>| #[trigger]
        call_ensures(parse, (s,), r) && s@ == text && match r {
            Ok(value) => response == Ok::<T, Error>(value),
            Err(e) => response == Err::<T, Error>(Error::SerdeError(e)),
        }
}

/// Whether `response` is what the message `m` comes to for who waits for the reply
/// to the request `id`.
pub open spec fn single_settled<T, F: FnOnce(&str) -> Result<T, serde_json::Error>>(
    m: IncomingView,
    id: RequestId,
    parse: F,
    response: Result<T, Error>,
) -> bool {
    match m {
        IncomingView::Response(r) => {
            &&& r.id == id ==> parsed_as(parse, r.result.text, response)
            &&& r.id != id ==> (response matches Err(Error::InvalidMessage(why)) && why@
                == "response id does not match request id"@)
        },
        IncomingView::ErrorResponse(e) => {
            &&& (e.id matches Some(other) ==> other == id) ==> (response matches Err(err)
                && tells_response(err, e))
            &&& (e.id matches Some(other) && other != id) ==> (response matches Err(
                Error::InvalidMessage(why),
            ) && why@ == "error response id does not match request id"@)
        },
        IncomingView::Notification(_) => response matches Err(Error::InvalidMessage(why)) && why@
            == "notification received"@,
        IncomingView::BatchResponse(_) => response matches Err(Error::InvalidMessage(why)) && why@
            == "batch response received"@,
    }
}

/// A reply to a single request is taken if it names the request: its result is what
/// the request's parser makes of exactly its text, its error is the error. A reply to
/// another request is refused, as is whatever is no reply.
pub proof fn law_single_replies<T, F: FnOnce(&str) -> Result<T, serde_json::Error>>(
    incoming: JsonRpcIncoming<'_>,
    id: RequestId,
    parse: F,
    response: Result<T, Error>,
)
    requires
        call_ensures(decode_single_response::<T, F>, (incoming, id, parse), response),
    ensures
        single_settled(incoming@, id, parse, response),
{
    if let IncomingView::ErrorResponse(e) = incoming@ {
        if let Err(err) = response {
            law_standing_for_an_error_response(err, e);
        }
    }
    if let IncomingView::Response(r) = incoming@ {
        if r.id == id {
            let (s, out) = choose|s: &str, out: Result<T, serde_json::Error>| {
                &&& s@ == r.result.text
                &&& #[trigger] call_ensures(parse, (s,), out)
                &&& response == match out {
                    Ok(value) => Ok::<T, Error>(value),
                    Err(e) => Err::<T, Error>(Error::SerdeError(e)),
                }
            };
            assert(call_ensures(parse, (s,), out));
        }
    }
}

/// A reply over HTTP counts only with a status of success, which is one from 200 up
/// to 299; the error for any other names the status.
pub proof fn law_only_success_counts(status: Status<'_>, done: Result<(), Error>)
    requires
        call_ensures(ensure_success, (status,), done),
    ensures
        done is Ok <==> 200 <= status.code <= 299,
        done matches Err(e) ==> (e matches Error::TransportError(text) && text@
            == "HTTP request failed with status "@ + status.line@),
{
}

/// Whether two failures are alike.
pub open spec fn fails_alike(a: Error, b: Error) -> bool {
    match a {
        Error::SerdeError(_) => b is SerdeError,
        Error::InvalidMessage(why) => b matches Error::InvalidMessage(other) && other@ == why@,
        _ => false,
    }
}

/// The reply to a request over HTTP is an error if its status is no success, or if
/// its body is not accepted as a message; else it comes to what the message says.
pub proof fn law_http_replies<'a, T, F: FnOnce(&str) -> Result<T, serde_json::Error>>(
    status: Status<'_>,
    body: &'a [u8],
    id: RequestId,
    parse: F,
    response: Result<T, Error>,
    incoming: Result<JsonRpcIncoming<'a>, Error>,
)
    requires
        call_ensures(finish_request::<T, F>, (status, body, id, parse), response),
        call_ensures(<JsonRpcIncoming<'a> as TryFrom<&'a [u8]>>::try_from, (body,), incoming),
    ensures
        !(200 <= status.code <= 299) ==> (response matches Err(Error::TransportError(text))
            && text@ == "HTTP request failed with status "@ + status.line@),
        200 <= status.code <= 299 ==> match incoming {
            Err(e) => response matches Err(other) && fails_alike(e, other),
            Ok(m) => single_settled(m@, id, parse, response),
        },
{
    if 200 <= status.code <= 299 {
        if let Ok(m) = incoming {
            if let IncomingView::ErrorResponse(e) = m@ {
                if let Err(err) = response {
                    law_standing_for_an_error_response(err, e);
                }
            }
            if let IncomingView::Response(r) = m@ {
                if r.id == id {
                    let (s, out) = choose|s: &str, out: Result<T, serde_json::Error>| {
                        &&& s@ == r.result.text
                        &&& #[trigger] call_ensures(parse, (s,), out)
                        &&& response == match out {
                            Ok(value) => Ok::<T, Error>(value),
                            Err(e) => Err::<T, Error>(Error::SerdeError(e)),
                        }
                    };
                    assert(call_ensures(parse, (s,), out));
                }
            }
        }
    }
}

/// The request that an item of a batch reply names.
pub open spec fn named(item: BatchItemView) -> Option<u64> {
    match item {
        BatchItemView::Response(r) => Some(r.id.0),
        BatchItemView::ErrorResponse(e) => match e.id {
            Some(id) => Some(id.0),
            None => None,
        },
    }
}

/// Whether the first `n` items each name a request from `first` to `last`, and no two
/// of them the same.
pub open spec fn sound(items: Seq<BatchItemView>, first: u64, last: u64, n: int) -> bool {
    &&& forall|j: int|
        0 <= j < n ==> (named(#[trigger] items[j]) matches Some(id) && first <= id <= last)
    &&& forall|i: int, j: int|
        0 <= i < j < n ==> named(#[trigger] items[i]) != named(#[trigger] items[j])
}

/// Whether `outcome` is what a caller gets for an item of a batch reply: what the
/// request's own parser gives for exactly the text of the result, or the error.
pub open spec fn outcome_of<T, F: Fn(&str) -> BatchResponseItem<T>>(
    item: BatchItemView,
    parser: F,
    outcome: BatchResponseItem<T>,
) -> bool {
    match item {
        BatchItemView::Response(r) => exists|s: &str| #[trigger]
            call_ensures(parser, (s,), outcome) && s@ == r.result.text,
        BatchItemView::ErrorResponse(e) => outcome matches Err(err) && tells_response(err, e),
    }
}

/// Whether `outcomes` is what the reply `items` comes to for the requests `first` to
/// `last`. It is accepted exactly if it has one item for each request, and then each
/// request gets what its own parser makes of its own item; else it is refused for
/// its length or for its first faulty item.
pub open spec fn batch_settled<T, F: Fn(&str) -> BatchResponseItem<T>>(
    items: Seq<BatchItemView>,
    first: u64,
    last: u64,
    parsers: Seq<F>,
    outcomes: Result<Vec<BatchResponseItem<T>>, Error>,
) -> bool {
    &&& outcomes is Ok <==> items.len() == last - first + 1 && sound(
        items,
        first,
        last,
        items.len() as int,
    )
    &&& items.len() != last - first + 1 ==> (outcomes matches Err(Error::InvalidMessage(why))
        && why@ == "batch response item count does not match the sent batch"@)
    &&& forall|j: int|
        items.len() == last - first + 1 && 0 <= j < items.len() && #[trigger] sound(
            items,
            first,
            last,
            j,
        ) && !sound(items, first, last, j + 1) ==> (outcomes matches Err(
            Error::InvalidMessage(why),
        ) && why@ == match named(items[j]) {
            None => "a batch error response is missing its `id`; can't correlate it to a request"@,
            Some(id) => if first <= id <= last {
                "batch response contains a duplicate id"@
            } else {
                "batch response id is outside the range of ids sent"@
            },
        })
    &&& outcomes matches Ok(list) ==> {
        &&& parsers.len() >= items.len() ==> list@.len() == items.len()
        &&& parsers.len() < items.len() ==> list@.len() == parsers.len()
        &&& forall|k: int, j: int|
            0 <= k < list@.len() && 0 <= j < items.len() && named(#[trigger] items[j]) == Some(
                (first + k) as u64,
            ) ==> outcome_of(items[j], parsers[k], #[trigger] list@[k])
        &&& forall|k: int|
            0 <= k < list@.len() ==> some_item_gives(
                items,
                (first + k) as u64,
                parsers[k],
                #[trigger] list@[k],
            )
    }
}

/// Whether `outcome` is what a caller gets for some item that names the request `id`.
pub open spec fn some_item_gives<T, F: Fn(&str) -> BatchResponseItem<T>>(
    items: Seq<BatchItemView>,
    id: u64,
    parser: F,
    outcome: BatchResponseItem<T>,
) -> bool {
    exists|j: int|
        0 <= j < items.len() && named(#[trigger] items[j]) == Some(id) && outcome_of(
            items[j],
            parser,
            outcome,
        )
}

proof fn lemma_named(item: BatchItemView)
    ensures
        item.id() is Some <==> named(item) is Some,
        item.id() matches Some(id) ==> named(item) == Some(id.0),
{
}

proof fn lemma_item_fault(
    items: Seq<BatchItemView>,
    first: RequestId,
    last: RequestId,
    j: int,
)
    requires
        0 <= j < items.len(),
        sound(items, first.0, last.0, j),
    ensures
        item_fault(items, first, last, j) is None <==> sound(items, first.0, last.0, j + 1),
        item_fault(items, first, last, j) matches Some(why) ==> why == match named(items[j]) {
            None => "a batch error response is missing its `id`; can't correlate it to a request"@,
            Some(id) => if first.0 <= id <= last.0 {
                "batch response contains a duplicate id"@
            } else {
                "batch response id is outside the range of ids sent"@
            },
        },
{
    lemma_named(items[j]);
    if item_fault(items, first, last, j) is None {
        assert forall|a: int, b: int| 0 <= a < b < j + 1 implies named(#[trigger] items[a])
            != named(#[trigger] items[b]) by {
            lemma_named(items[a]);
            if b == j {
                assert(items[a].id() != items[j].id());
            }
        }
        assert forall|a: int| 0 <= a < j + 1 implies (named(#[trigger] items[a]) matches Some(id)
            && first.0 <= id <= last.0) by {
            lemma_named(items[a]);
        }
    } else if sound(items, first.0, last.0, j + 1) {
        assert(named(items[j]) is Some);
        let id = items[j].id()->Some_0;
        let a = choose|a: int| 0 <= a < j && #[trigger] items[a].id() == Some(id);
        lemma_named(items[a]);
        assert(named(items[a]) != named(items[j]));
    }
}

proof fn lemma_sound_prefix(items: Seq<BatchItemView>, first: u64, last: u64, n: int, m: int)
    requires
        sound(items, first, last, m),
        n <= m,
    ensures
        sound(items, first, last, n),
{
}

proof fn lemma_fault_at(
    items: Seq<BatchItemView>,
    first: RequestId,
    last: RequestId,
    i: int,
    j: int,
)
    requires
        0 <= i <= j < items.len(),
        sound(items, first.0, last.0, j),
        !sound(items, first.0, last.0, j + 1),
    ensures
        fault_from(items, first, last, i) == item_fault(items, first, last, j),
        item_fault(items, first, last, j) is Some,
    decreases j - i,
{
    lemma_item_fault(items, first, last, j);
    if i < j {
        lemma_sound_prefix(items, first.0, last.0, i, j);
        lemma_sound_prefix(items, first.0, last.0, i + 1, j);
        lemma_item_fault(items, first, last, i);
        lemma_fault_at(items, first, last, i + 1, j);
    }
}

proof fn lemma_no_fault(items: Seq<BatchItemView>, first: RequestId, last: RequestId, i: int)
    requires
        0 <= i <= items.len(),
        sound(items, first.0, last.0, i),
    ensures
        fault_from(items, first, last, i) is None <==> sound(
            items,
            first.0,
            last.0,
            items.len() as int,
        ),
    decreases items.len() - i,
{
    if i < items.len() {
        lemma_item_fault(items, first, last, i);
        if sound(items, first.0, last.0, i + 1) {
            lemma_no_fault(items, first, last, i + 1);
        } else if sound(items, first.0, last.0, items.len() as int) {
            lemma_sound_prefix(items, first.0, last.0, i + 1, items.len() as int);
        }
    }
}

proof fn lemma_outcome<T, F: Fn(&str) -> BatchResponseItem<T>>(
    item: BatchItemView,
    parser: F,
    outcome: BatchResponseItem<T>,
)
    requires
        settles(item, parser, outcome),
    ensures
        outcome_of(item, parser, outcome),
{
    match item {
        BatchItemView::Response(r) => {
            let s = choose|s: &str|
                s@ == r.result.text && #[trigger] call_ensures(parser, (s,), outcome);
            assert(call_ensures(parser, (s,), outcome));
        },
        BatchItemView::ErrorResponse(e) => {
            law_standing_for_an_error_response(outcome->Err_0, e);
        },
    }
}

proof fn lemma_settled<T, F: Fn(&str) -> BatchResponseItem<T>>(
    items: Seq<BatchItemView>,
    first: RequestId,
    last: RequestId,
    parsers: Seq<F>,
    outcomes: Result<Vec<BatchResponseItem<T>>, Error>,
)
    requires
        first.0 <= last.0,
        correlated(items, first, last, parsers, outcomes),
    ensures
        batch_settled(items, first.0, last.0, parsers, outcomes),
{
    lemma_no_fault(items, first, last, 0);
    assert forall|j: int|
        items.len() == last.0 - first.0 + 1 && 0 <= j < items.len() && #[trigger] sound(
            items,
            first.0,
            last.0,
            j,
        ) && !sound(items, first.0, last.0, j + 1) implies (outcomes matches Err(
        Error::InvalidMessage(why),
    ) && why@ == match named(items[j]) {
        None => "a batch error response is missing its `id`; can't correlate it to a request"@,
        Some(id) => if first.0 <= id <= last.0 {
            "batch response contains a duplicate id"@
        } else {
            "batch response id is outside the range of ids sent"@
        },
    }) by {
        lemma_fault_at(items, first, last, 0, j);
        lemma_item_fault(items, first, last, j);
    }
    if let Ok(list) = outcomes {
        assert forall|k: int| 0 <= k < list@.len() implies some_item_gives(
            items,
            (first.0 + k) as u64,
            parsers[k],
            #[trigger] list@[k],
        ) by {
            let id = RequestId((first.0 + k) as u64);
            assert(answers(items, id, parsers[k], list@[k]));
            let j = choose|j: int|
                0 <= j < items.len() && (#[trigger] items[j]).id() == Some(id) && settles(
                    items[j],
                    parsers[k],
                    list@[k],
                );
            lemma_named(items[j]);
            lemma_outcome(items[j], parsers[k], list@[k]);
        }
        assert forall|k: int, j: int|
            0 <= k < list@.len() && 0 <= j < items.len() && named(#[trigger] items[j]) == Some(
                (first.0 + k) as u64,
            ) implies outcome_of(items[j], parsers[k], #[trigger] list@[k]) by {
            assert(some_item_gives(items, (first.0 + k) as u64, parsers[k], list@[k]));
            let i = choose|i: int|
                0 <= i < items.len() && named(#[trigger] items[i]) == Some((first.0 + k) as u64)
                    && outcome_of(items[i], parsers[k], list@[k]);
            if i < j {
                assert(named(items[i]) != named(items[j]));
            } else if j < i {
                assert(named(items[j]) != named(items[i]));
            }
        }
    }
}

/// A batch reply is matched to the requests of the batch by the ids that its items
/// name, each read by its own request's parser, whatever its text is.
pub proof fn law_batch_replies<'a, T, F: Fn(&str) -> BatchResponseItem<T>>(
    items: Vec<JsonRpcBatchResponse<'a>>,
    range: RangeInclusive<RequestId>,
    parsers: Vec<F>,
    outcomes: Result<Vec<BatchResponseItem<T>>, Error>,
)
    requires
        call_ensures(correlate_batch_items::<T, F>, (items, range, parsers), outcomes),
        range@.start.0 <= range@.end.0,
    ensures
        batch_settled(
            Seq::new(items@.len(), |i: int| items@[i]@),
            range@.start.0,
            range@.end.0,
            parsers@,
            outcomes,
        ),
{
    assert(item_views(items@) =~= Seq::new(items@.len(), |i: int| items@[i]@));
    lemma_settled(item_views(items@), range@.start, range@.end, parsers@, outcomes);
}

/// The reply to a batch over HTTP is an error if its status is no success, if its
/// body is not accepted as a message, or if the message is no batch; else each
/// request gets what its own parser makes of its own item.
pub proof fn law_http_batch_replies<'a, T, F: Fn(&str) -> BatchResponseItem<T>>(
    status: Status<'_>,
    body: &'a [u8],
    range: RangeInclusive<RequestId>,
    parsers: Vec<F>,
    outcomes: Result<Vec<BatchResponseItem<T>>, Error>,
    incoming: Result<JsonRpcIncoming<'a>, Error>,
)
    requires
        call_ensures(finish_batch::<T, F>, (status, body, range, parsers), outcomes),
        call_ensures(<JsonRpcIncoming<'a> as TryFrom<&'a [u8]>>::try_from, (body,), incoming),
        range@.start.0 <= range@.end.0,
    ensures
        !(200 <= status.code <= 299) ==> (outcomes matches Err(Error::TransportError(text))
            && text@ == "HTTP request failed with status "@ + status.line@),
        200 <= status.code <= 299 ==> match incoming {
            Err(e) => outcomes matches Err(other) && fails_alike(e, other),
            Ok(JsonRpcIncoming::BatchResponse(items)) => batch_settled(
                Seq::new(items@.len(), |i: int| items@[i]@),
                range@.start.0,
                range@.end.0,
                parsers@,
                outcomes,
            ),
            Ok(_) => outcomes matches Err(Error::InvalidMessage(why)) && why@
                == "expected a batch response"@,
        },
{
    if 200 <= status.code <= 299 {
        if let Ok(JsonRpcIncoming::BatchResponse(items)) = incoming {
            assert(item_views(items@) =~= Seq::new(items@.len(), |i: int| items@[i]@));
            lemma_settled(item_views(items@), range@.start, range@.end, parsers@, outcomes);
        }
    }
}

/// In an accepted batch reply, each request that is answered with a success gets
/// what its own parser gives for the text of that result, whatever the text is, and
/// each that is answered with an error gets that error.
pub proof fn law_every_parser_is_asked<T, F: Fn(&str) -> BatchResponseItem<T>>(
    items: Seq<BatchItemView>,
    first: RequestId,
    last: RequestId,
    parsers: Seq<F>,
    list: Vec<BatchResponseItem<T>>,
    k: int,
)
    requires
        first.0 <= last.0,
        correlated(items, first, last, parsers, Ok(list)),
        0 <= k < list@.len(),
    ensures
        ({
            let id = RequestId((first.0 + k) as u64);
            &&& items.contains(item_for(items, id))
            &&& named(item_for(items, id)) == Some(id.0)
            &&& item_for(items, id) matches BatchItemView::Response(r) ==> exists|s: &str|
                #[trigger] call_ensures(parsers[k], (s,), list@[k]) && s@ == r.result.text
            &&& item_for(items, id) matches BatchItemView::ErrorResponse(e) ==> (
            list@[k] matches Err(err) && tells_response(err, e))
        }),
{
    let id = RequestId((first.0 + k) as u64);
    law_accepted_reply_covers_the_batch(items, first, last);
    law_one_answer_per_request(items, first, last, id);
    let item = item_for(items, id);
    assert(answered_with(items, id, item));
    lemma_named(item);
    lemma_settled::<T, F>(items, first, last, parsers, Ok(list));
    let j = choose|j: int| 0 <= j < items.len() && items[j] == item;
    assert(named(items[j]) == Some((first.0 + k) as u64));
    assert(outcome_of(items[j], parsers[k], list@[k]));
}

} // verus!
