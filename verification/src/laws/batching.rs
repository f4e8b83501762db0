//! What is queued on a batch is what is sent, and what calls are made ready as.

use crate::batch::{
    downcast_outcome, response_parser, Batch, BatchBuilder, BatchResponseItem, BuilderView,
};
use crate::call::{
    prepare_batch, prepare_notification, prepare_request, without_reply, PreparedBatch,
    PreparedRequest,
};
use crate::error::Error;
use crate::json::RawView;
use crate::laws::sending::{
    law_notifications_are_requests_without_id, lemma_params, opens, params_fit, params_kept,
    params_refused, wire_notification, wire_request,
};
use crate::method_id::MethodIdBuf;
use crate::params::{ParamsFault, Serialized};
use crate::pending::{PendingBatchRequests, PendingRequests};
use crate::protocol::{list_json, outgoing_views, JsonRpcOutgoing, OutgoingView};
use crate::request_id::RequestIdManager;
use crate::ws::{begin_batch, begin_request};
use vstd::prelude::*;

verus! {

/// Whether `after` is `before` with one element more, at its end.
pub open spec fn one_more<A>(before: Seq<A>, after: Seq<A>) -> bool {
    &&& after.len() == before.len() + 1
    &&& forall|k: int| 0 <= k < before.len() ==> #[trigger] after[k] == before[k]
}

/// Which fault params have that are not fit to be sent.
pub open spec fn fault_of(params: Option<Serialized>) -> ParamsFault {
    match params {
        Some(Ok(text)) => if opens(text@) {
            ParamsFault::Serde
        } else {
            ParamsFault::Unstructured
        },
        _ => ParamsFault::Serde,
    }
}

proof fn lemma_fault(params: Option<Serialized>)
    ensures
        crate::params::optional_params(params, |j: Serialized| crate::params::params_value(j))
            matches Err(fault) ==> fault == fault_of(params),
{
}

/// Nothing is queued on a new builder, and nothing was refused.
pub proof fn law_builders_begin_empty<F>(a: BatchBuilder<F>, b: BatchBuilder<F>)
    requires
        call_ensures(BatchBuilder::<F>::new, (), a),
        call_ensures(<BatchBuilder<F> as Default>::default, (), b),
    ensures
        a@.requests.len() == 0 && a@.parsers.len() == 0 && a@.notifications.len() == 0,
        b@.requests.len() == 0 && b@.parsers.len() == 0 && b@.notifications.len() == 0,
        a@.failed is None && b@.failed is None,
{
}

/// A request that is fit to be sent is queued behind the others with its own method,
/// params and parser, and nothing else changes; any other is refused and leaves the
/// queue as it was, but for the memory of the first that was refused.
pub proof fn law_requests_are_queued_whole<F, M: Into<MethodIdBuf>>(
    b: &mut BatchBuilder<F>,
    method: M,
    params: Option<Serialized>,
    parser: F,
    done: Result<(), Error>,
)
    requires
        call_ensures(BatchBuilder::<F>::add_request::<M>, (b, method, params, parser), done),
    ensures
        done is Ok <==> params_fit(params),
        final(b)@.notifications == old(b)@.notifications,
        done is Ok ==> {
            let last = final(b)@.requests.last();
            &&& one_more(old(b)@.requests, final(b)@.requests)
            &&& one_more(old(b)@.parsers, final(b)@.parsers)
            &&& final(b)@.parsers.last() == parser
            &&& params_kept(params, last.params)
            &&& exists|name: MethodIdBuf| #[trigger]
                call_ensures(<M as Into<MethodIdBuf>>::into, (method,), name) && last.method
                    == name@
            &&& final(b)@.failed == old(b)@.failed
        },
        done matches Err(e) ==> {
            &&& params_refused(params, e)
            &&& final(b)@.requests == old(b)@.requests
            &&& final(b)@.parsers == old(b)@.parsers
            &&& final(b)@.failed == match old(b)@.failed {
                Some(first) => Some(first),
                None => Some(fault_of(params)),
            }
        },
{
    lemma_params(params);
    lemma_fault(params);
    if let Err(e) = done {
        assert(params_refused(params, e));
    }
}

/// The same of a notification, which has no parser.
pub proof fn law_notifications_are_queued_whole<F, M: Into<MethodIdBuf>>(
    b: &mut BatchBuilder<F>,
    method: M,
    params: Option<Serialized>,
    done: Result<(), Error>,
)
    requires
        call_ensures(BatchBuilder::<F>::add_notification::<M>, (b, method, params), done),
    ensures
        done is Ok <==> params_fit(params),
        final(b)@.requests == old(b)@.requests,
        final(b)@.parsers == old(b)@.parsers,
        done is Ok ==> {
            let last = final(b)@.notifications.last();
            &&& one_more(old(b)@.notifications, final(b)@.notifications)
            &&& params_kept(params, last.params)
            &&& exists|name: MethodIdBuf| #[trigger]
                call_ensures(<M as Into<MethodIdBuf>>::into, (method,), name) && last.method
                    == name@
            &&& final(b)@.failed == old(b)@.failed
        },
        done matches Err(e) ==> {
            &&& params_refused(params, e)
            &&& final(b)@.notifications == old(b)@.notifications
            &&& final(b)@.failed == match old(b)@.failed {
                Some(first) => Some(first),
                None => Some(fault_of(params)),
            }
        },
{
    lemma_params(params);
    lemma_fault(params);
    if let Err(e) = done {
        assert(params_refused(params, e));
    }
}

/// The messages of a batch are what was queued, element by element: first the
/// requests, each with the next id and with its own method and params, then the
/// notifications, each as it is.
pub open spec fn carries<F>(
    queue: BuilderView<F>,
    first: int,
    messages: Seq<OutgoingView>,
) -> bool {
    &&& messages.len() == queue.requests.len() + queue.notifications.len()
    &&& forall|i: int|
        0 <= i < queue.requests.len() ==> {
            &&& #[trigger] messages[i] matches OutgoingView::Request(r)
            &&& r.id.0 == first + i
            &&& r.method == queue.requests[i].method
            &&& r.params == queue.requests[i].params
        }
    &&& forall|j: int|
        queue.requests.len() <= j < messages.len() ==> {
            &&& #[trigger] messages[j] matches OutgoingView::Notification(n)
            &&& n.method == queue.notifications[j - queue.requests.len()].method
            &&& n.params == queue.notifications[j - queue.requests.len()].params
        }
}

/// What was queued is what a batch holds, ids being taken for the requests from the
/// next one on. Nothing is built of nothing. If a message was refused, nothing is
/// built and no id is taken.
pub proof fn law_what_was_queued_is_what_is_built<'a, F>(
    b: BatchBuilder<F>,
    ids: &mut RequestIdManager,
    out: Result<Option<Batch<'a, F>>, Error>,
)
    requires
        call_ensures(BatchBuilder::<F>::build, (b, ids), out),
        old(ids).next_id() + b@.requests.len() <= u64::MAX,
    ensures
        out is Err <==> b@.failed is Some,
        b@.failed is Some ==> final(ids).next_id() == old(ids).next_id(),
        b@.failed == Some(ParamsFault::Unstructured) ==> out matches Err(Error::InvalidParams),
        b@.failed == Some(ParamsFault::Serde) ==> out matches Err(Error::SerdeError(_)),
        out is Ok ==> final(ids).next_id() == old(ids).next_id() + b@.requests.len(),
        out matches Ok(None) ==> b@.requests.len() == 0 && b@.notifications.len() == 0,
        out matches Ok(Some(batch)) ==> {
            let first = old(ids).next_id() as int;
            let n = b@.requests.len() as int;
            &&& n + b@.notifications.len() > 0
            &&& batch.parsers@ == b@.parsers
            &&& batch.request_id_range is Some <==> n > 0
            &&& batch.request_id_range matches Some(r) ==> r@.start.0 == first && r@.end.0 == first
                + n - 1 && !r@.exhausted
            &&& batch.items@.len() == n + b@.notifications.len()
            &&& forall|i: int|
                0 <= i < n ==> {
                    &&& #[trigger] batch.items@[i] matches JsonRpcOutgoing::Request(r)
                    &&& r.id.0 == first + i
                    &&& r.method@ == b@.requests[i].method
                    &&& r@.params == b@.requests[i].params
                }
            &&& forall|j: int|
                n <= j < batch.items@.len() ==> {
                    &&& #[trigger] batch.items@[j] matches JsonRpcOutgoing::Notification(m)
                    &&& m.method@ == b@.notifications[j - n].method
                    &&& m@.params == b@.notifications[j - n].params
                }
        },
{
    if let Ok(Some(batch)) = out {
        let views = outgoing_views(batch.items@);
        let first = old(ids).next_id();
        assert(views.len() == batch.items@.len());
        assert(views == b@.messages(first));
        assert forall|i: int| 0 <= i < b@.requests.len() implies {
            &&& #[trigger] batch.items@[i] matches JsonRpcOutgoing::Request(r)
            &&& r.id.0 == first + i
            &&& r.method@ == b@.requests[i].method
            &&& r@.params == b@.requests[i].params
        } by {
            assert(views[i] == batch.items@[i]@);
        }
        assert forall|j: int| b@.requests.len() <= j < batch.items@.len() implies {
            &&& #[trigger] batch.items@[j] matches JsonRpcOutgoing::Notification(m)
            &&& m.method@ == b@.notifications[j - b@.requests.len()].method
            &&& m@.params == b@.notifications[j - b@.requests.len()].params
        } by {
            assert(views[j] == batch.items@[j]@);
        }
    }
}

proof fn lemma_carries<F>(queue: BuilderView<F>, first: u64)
    requires
        first + queue.requests.len() <= u64::MAX,
    ensures
        carries(queue, first as int, queue.messages(first)),
{
}

/// A batch that is made ready is written as what was queued; it announces the ids of
/// its requests and their parsers.
pub proof fn law_what_was_queued_is_what_is_sent<F>(
    b: BatchBuilder<F>,
    ids: &mut RequestIdManager,
    out: Result<Option<PreparedBatch<F>>, Error>,
)
    requires
        call_ensures(prepare_batch::<F>, (b, ids), out),
        old(ids).next_id() + b@.requests.len() <= u64::MAX,
    ensures
        out is Err <==> b@.failed is Some,
        b@.failed is Some ==> final(ids).next_id() == old(ids).next_id(),
        b@.failed == Some(ParamsFault::Unstructured) ==> out matches Err(Error::InvalidParams),
        b@.failed == Some(ParamsFault::Serde) ==> out matches Err(Error::SerdeError(_)),
        out is Ok ==> final(ids).next_id() == old(ids).next_id() + b@.requests.len(),
        out matches Ok(None) ==> b@.requests.len() == 0 && b@.notifications.len() == 0,
        out matches Ok(Some(batch)) ==> {
            let first = old(ids).next_id() as int;
            let n = b@.requests.len() as int;
            &&& n + b@.notifications.len() > 0
            &&& batch.parsers@ == b@.parsers
            &&& batch.range is Some <==> n > 0
            &&& batch.range matches Some(r) ==> r@.start.0 == first && r@.end.0 == first + n - 1
                && !r@.exhausted
            &&& exists|messages: Seq<OutgoingView>| #[trigger]
                carries(b@, first, messages) && batch.payload@ == "["@ + list_json(messages) + "]"@
        },
{
    if let Ok(Some(batch)) = out {
        lemma_carries(b@, old(ids).next_id());
    }
}

/// A batch that is begun over a connection is the batch that is sent, and exactly if
/// it has requests, it is entered under the first and the last of their ids with the
/// ticket of who waits for it.
pub proof fn law_batches_are_begun_and_entered<F>(
    b: BatchBuilder<F>,
    waiter: u64,
    ids: &mut RequestIdManager,
    pending: &mut PendingBatchRequests,
    out: Result<Option<(PreparedBatch<F>, Option<u64>)>, Error>,
    key: (u64, u64),
)
    requires
        call_ensures(begin_batch::<F>, (b, waiter, ids, pending), out),
        old(ids).next_id() + b@.requests.len() <= u64::MAX,
    ensures
        out is Err <==> b@.failed is Some,
        b@.failed == Some(ParamsFault::Unstructured) ==> out matches Err(Error::InvalidParams),
        b@.failed == Some(ParamsFault::Serde) ==> out matches Err(Error::SerdeError(_)),
        b@.failed is Some || b@.requests.len() == 0 ==> final(pending)@ == old(pending)@,
        b@.failed is Some ==> final(ids).next_id() == old(ids).next_id(),
        out is Ok ==> final(ids).next_id() == old(ids).next_id() + b@.requests.len(),
        out matches Ok(None) ==> b@.requests.len() == 0 && b@.notifications.len() == 0,
        out matches Ok(Some((batch, replaced))) ==> {
            let first = old(ids).next_id();
            let n = b@.requests.len();
            let last = (first + n - 1) as u64;
            &&& n + b@.notifications.len() > 0
            &&& batch.parsers@ == b@.parsers
            &&& batch.range is Some <==> n > 0
            &&& batch.range matches Some(r) ==> r@.start.0 == first && r@.end.0 == first + n - 1
                && !r@.exhausted
            &&& exists|messages: Seq<OutgoingView>| #[trigger]
                carries(b@, first as int, messages) && batch.payload@ == "["@ + list_json(messages)
                    + "]"@
            &&& n > 0 ==> {
                &&& final(pending)@.dom().contains((first, last))
                &&& final(pending)@[(first, last)] == waiter
                &&& key != (first, last) ==> (final(pending)@.dom().contains(key)
                    <==> old(pending)@.dom().contains(key))
                &&& key != (first, last) && old(pending)@.dom().contains(key)
                    ==> final(pending)@[key] == old(pending)@[key]
                &&& replaced is Some <==> old(pending)@.dom().contains((first, last))
                &&& replaced matches Some(w) ==> w == old(pending)@[(first, last)]
            }
            &&& n == 0 ==> replaced is None
        },
{
    if let Ok(Some((batch, replaced))) = out {
        lemma_carries(b@, old(ids).next_id());
    }
}

/// A request that is made ready is written with the next id and with the method and
/// params that it was given; the id is taken even if the params are refused.
pub proof fn law_requests_are_made_ready(
    method: MethodIdBuf,
    params: Option<Serialized>,
    ids: &mut RequestIdManager,
    request: Result<PreparedRequest, Error>,
)
    requires
        call_ensures(prepare_request, (method, params, ids), request),
    ensures
        old(ids).next_id() < u64::MAX ==> final(ids).next_id() == old(ids).next_id() + 1,
        old(ids).next_id() == u64::MAX ==> final(ids).next_id() == 0,
        request is Ok <==> params_fit(params),
        request matches Err(e) ==> params_refused(params, e),
        request matches Ok(r) ==> {
            &&& r.id.0 == old(ids).next_id()
            &&& exists|p: Option<RawView>| #[trigger]
                params_kept(params, p) && r.payload@ == wire_request(r.id.0, method@, p)
        },
{
    lemma_params(params);
    match request {
        Ok(r) => {
            let p = crate::params::optional_params(
                params,
                |j: Serialized| crate::params::params_value(j),
            )->Ok_0;
            law_notifications_are_requests_without_id(r.id.0, method@, p);
            assert(params_kept(params, p));
        },
        Err(e) => {
            assert(params_refused(params, e));
        },
    }
}

/// A notification that is made ready is written with the method and params that it
/// was given.
pub proof fn law_notifications_are_made_ready(
    method: MethodIdBuf,
    params: Option<Serialized>,
    payload: Result<String, Error>,
)
    requires
        call_ensures(prepare_notification, (method, params), payload),
    ensures
        payload is Ok <==> params_fit(params),
        payload matches Err(e) ==> params_refused(params, e),
        payload matches Ok(text) ==> exists|p: Option<RawView>| #[trigger]
            params_kept(params, p) && text@ == wire_notification(method@, p),
{
    lemma_params(params);
    match payload {
        Ok(text) => {
            let p = crate::params::optional_params(
                params,
                |j: Serialized| crate::params::params_value(j),
            )->Ok_0;
            law_notifications_are_requests_without_id(0, method@, p);
            assert(params_kept(params, p));
        },
        Err(e) => {
            assert(params_refused(params, e));
        },
    }
}

/// A request that is begun over a connection is the request that is sent, and it is
/// entered under its id with the ticket of who waits for it; one that is refused is
/// not entered.
pub proof fn law_requests_are_begun_and_entered(
    method: MethodIdBuf,
    params: Option<Serialized>,
    waiter: u64,
    ids: &mut RequestIdManager,
    pending: &mut PendingRequests,
    request: Result<(PreparedRequest, Option<u64>), Error>,
    key: (u64, u64),
)
    requires
        call_ensures(begin_request, (method, params, waiter, ids, pending), request),
    ensures
        old(ids).next_id() < u64::MAX ==> final(ids).next_id() == old(ids).next_id() + 1,
        old(ids).next_id() == u64::MAX ==> final(ids).next_id() == 0,
        request is Ok <==> params_fit(params),
        request matches Err(e) ==> params_refused(params, e) && final(pending)@ == old(pending)@,
        request matches Ok((r, replaced)) ==> {
            let id = old(ids).next_id();
            &&& r.id.0 == id
            &&& exists|p: Option<RawView>| #[trigger]
                params_kept(params, p) && r.payload@ == wire_request(id, method@, p)
            &&& final(pending)@.dom().contains((id, id))
            &&& final(pending)@[(id, id)] == waiter
            &&& key != (id, id) ==> (final(pending)@.dom().contains(key)
                <==> old(pending)@.dom().contains(key))
            &&& key != (id, id) && old(pending)@.dom().contains(key) ==> final(pending)@[key]
                == old(pending)@[key]
            &&& replaced is Some <==> old(pending)@.dom().contains((id, id))
            &&& replaced matches Some(w) ==> w == old(pending)@[(id, id)]
        },
{
    lemma_params(params);
    match request {
        Ok((r, replaced)) => {
            let p = crate::params::optional_params(
                params,
                |j: Serialized| crate::params::params_value(j),
            )->Ok_0;
            law_notifications_are_requests_without_id(r.id.0, method@, p);
            assert(params_kept(params, p));
        },
        Err(e) => {
            assert(params_refused(params, e));
        },
    }
}

/// No reply is due to a batch without requests, nor to none: the first comes to no
/// items, the second to nothing.
pub proof fn law_replies_that_are_not_due<T, F>(
    batch: Option<PreparedBatch<F>>,
    outcome: Option<Option<Vec<BatchResponseItem<T>>>>,
)
    requires
        call_ensures(without_reply::<T, F>, (&batch,), outcome),
    ensures
        batch is None ==> outcome matches Some(None),
        batch matches Some(b) ==> (b.range is Some <==> outcome is None),
        batch matches Some(b) ==> (b.range is None ==> (outcome matches Some(Some(items))
            && items@.len() == 0)),
{
}

/// A value whose type was erased is handed out as the type that it is of, and as no
/// other.
pub proof fn law_downcasts<T>(recovered: Option<T>, response: Result<T, Error>)
    requires
        call_ensures(downcast_outcome::<T>, (recovered,), response),
    ensures
        recovered matches Some(value) ==> response == Ok::<T, Error>(value),
        recovered is None ==> (response matches Err(Error::InvalidMessage(why)) && why@
            == "batch response type mismatch"@),
{
}

/// The parser of a request gives what its reader reads from exactly the text that it
/// is given, its type erased, and an error exactly if the reader gives one.
pub proof fn law_parsers_read_and_erase<
    T,
    V,
    P: Fn(&str) -> Result<V, serde_json::Error>,
    E: Fn(V) -> T,
>(parse: P, erase: E, text: &str, item: BatchResponseItem<T>)
    ensures
        forall|parser|
            call_ensures(response_parser::<T, V, P, E>, (parse, erase), parser) && #[trigger]
                call_ensures(parser, (text,), item) ==> exists|r: Result<V, serde_json::Error>|
                #[trigger]
                call_ensures(parse, (text,), r) && match r {
                    Ok(value) => item matches Ok(t) && call_ensures(erase, (value,), t),
                    Err(e) => item matches Err(Error::SerdeError(other)) && other == e,
                },
{
}

} // verus!
