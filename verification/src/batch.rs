//! Batches of requests and notifications.

use crate::error::Error;
use crate::json::{self, optional_raw, RawValue, RawView};
use crate::method_id::MethodIdBuf;
use crate::params::{
    law_checking_twice_changes_nothing, optional_params, params_value, ParamsFault, Serialized,
};
use crate::protocol::{
    validated_params, outgoing_views, params_sendable, JsonRpcNotification, JsonRpcOutgoing,
    JsonRpcRequest, NotificationView, OutgoingView, RequestView,
};
use crate::request_id::{is_id_range, RequestId, RequestIdManager};
use std::ops::RangeInclusive;
use vstd::prelude::*;

verus! {

/// Why a response is not handed out as the type that was asked for.
pub const TYPE_MISMATCH: &'static str = "batch response type mismatch";

/// One batch response item: what the request's own parser made of its result,
/// or the error it was answered with.
pub type BatchResponseItem<T> = Result<T, Error>;

/// Recovers a batch item's concrete response type from the type-erased value
/// its parser produced.
pub trait DowncastResponse: Sized {
    /// `Err(Error::InvalidMessage(_))` means that `T` doesn't match what was
    /// registered for this item.
    fn downcast_response<T: 'static>(self) -> Result<T, Error>;
}

/// Whether `response` is what asking for a type comes to, `recovered` being the
/// value where it was of that type.
pub open spec fn comes_back<T>(recovered: Option<T>, response: Result<T, Error>) -> bool {
    match recovered {
        Some(value) => response == Ok::<T, Error>(value),
        None => response matches Err(e) && e.is_invalid_message(TYPE_MISMATCH@),
    }
}

/// What [`DowncastResponse::downcast_response`] returns, `recovered` being the
/// value where it was of the type that was asked for.
pub fn downcast_outcome<T>(recovered: Option<T>) -> (response: Result<T, Error>)
    ensures
        comes_back(recovered, response),
{
    match recovered {
        Some(value) => Ok(value),
        None => Err(Error::InvalidMessage(TYPE_MISMATCH)),
    }
}

/// Whether `item` is a value that was read from the JSON text of a reply, its
/// type erased, or the error where none could be read.
pub open spec fn erased<T, V, E: Fn(V) -> T>(
    read: Result<V, serde_json::Error>,
    erase: E,
    item: BatchResponseItem<T>,
) -> bool {
    match read {
        Ok(value) => item matches Ok(t) && call_ensures(erase, (value,), t),
        Err(e) => item == Err::<T, Error>(Error::SerdeError(e)),
    }
}

/// Whether `item` is what a parser makes of the JSON text `text` of a reply: the
/// value that `parse` reads from it, whose type `erase` erases.
pub open spec fn parses<
    T,
    V,
    P: Fn(&str) -> Result<V, serde_json::Error>,
    E: Fn(V) -> T,
>(parse: P, erase: E, text: &str, item: BatchResponseItem<T>) -> bool {
    exists|read: Result<V, serde_json::Error>|
        #[trigger] call_ensures(parse, (text,), read) && erased(read, erase, item)
}

/// The parser of a request: it reads the JSON text of the reply with `parse`, and
/// erases the type of what it read with `erase`.
pub fn response_parser<
    T,
    V,
    P: Fn(&str) -> Result<V, serde_json::Error>,
    E: Fn(V) -> T,
>(parse: P, erase: E) -> (parser: impl Fn(&str) -> BatchResponseItem<T>)
    requires
        forall|text: &str| call_requires(parse, (text,)),
        forall|value: V| call_requires(erase, (value,)),
    ensures
        forall|text: &str| call_requires(parser, (text,)),
        forall|text: &str, item: BatchResponseItem<T>| #[trigger]
            call_ensures(parser, (text,), item) ==> parses(parse, erase, text, item),
{
    move |text: &str| -> (item: BatchResponseItem<T>)
        ensures
            parses(parse, erase, text, item),
        {
            match parse(text) {
                Ok(value) => Ok(erase(value)),
                Err(e) => Err(Error::SerdeError(e)),
            }
        }
}

/// The result of [`BatchBuilder::build`]: every queued request and
/// notification, ready to send as a single JSON-RPC batch.
pub struct Batch<'a, F> {
    pub request_id_range: Option<RangeInclusive<RequestId>>,
    pub parsers: Vec<F>,
    pub items: Vec<JsonRpcOutgoing<'a>>,
}

/// A message queued via [`BatchBuilder`], its params already validated.
struct Queued {
    method: MethodIdBuf,
    params: Option<RawValue<'static>>,
}

impl View for Queued {
    type V = NotificationView;

    closed spec fn view(&self) -> NotificationView {
        NotificationView { method: self.method@, params: optional_raw(self.params) }
    }
}

spec fn queued_views(queue: Seq<Queued>) -> Seq<NotificationView> {
    Seq::new(queue.len(), |i: int| queue[i]@)
}

/// Queues up requests and notifications to send together as a single JSON-RPC
/// batch. Every `add_*` call validates its params immediately;
/// [`build`](BatchBuilder::build) only propagates whichever failed first and
/// reserves ids. A request is queued with the `F` that recovers its response
/// from the JSON text of its reply.
pub struct BatchBuilder<F> {
    requests: Vec<Queued>,
    parsers: Vec<F>,
    notifications: Vec<Queued>,
    failed: Option<ParamsFault>,
}

/// What is queued on a [`BatchBuilder`].
pub struct BuilderView<F> {
    /// The method and params of each request.
    pub requests: Seq<NotificationView>,
    /// The parser of each request.
    pub parsers: Seq<F>,
    /// The notifications.
    pub notifications: Seq<NotificationView>,
    /// Why the first message that was refused was, if one was.
    pub failed: Option<ParamsFault>,
}

impl<F> View for BatchBuilder<F> {
    type V = BuilderView<F>;

    closed spec fn view(&self) -> BuilderView<F> {
        BuilderView {
            requests: queued_views(self.requests@),
            parsers: self.parsers@,
            notifications: queued_views(self.notifications@),
            failed: self.failed,
        }
    }
}

/// Whether the params of all queued messages can be sent as they stand.
pub open spec fn all_sendable(queue: Seq<NotificationView>) -> bool {
    forall|i: int| 0 <= i < queue.len() ==> params_sendable((#[trigger] queue[i]).params)
}

impl<F> BuilderView<F> {
    /// Whether each request has a parser, and all params can be sent as they
    /// stand. Params that come as text are never refused for not being UTF-8.
    pub open spec fn well_formed(self) -> bool {
        &&& self.requests.len() == self.parsers.len()
        &&& all_sendable(self.requests)
        &&& all_sendable(self.notifications)
        &&& self.failed != Some(ParamsFault::NotUtf8)
    }

    /// The first fault, `fault` being one more.
    pub open spec fn failed_with(self, fault: ParamsFault) -> Option<ParamsFault> {
        match self.failed {
            Some(first) => Some(first),
            None => Some(fault),
        }
    }

    /// What the batch will hold, its requests being numbered from `first` on:
    /// the requests, then the notifications, each in the order in which they
    /// were queued.
    pub open spec fn messages(self, first: u64) -> Seq<OutgoingView> {
        Seq::new(
            self.requests.len(),
            |i: int|
                OutgoingView::Request(
                    RequestView {
                        id: RequestId((first + i) as u64),
                        method: self.requests[i].method,
                        params: self.requests[i].params,
                    },
                ),
        ) + Seq::new(
            self.notifications.len(),
            |i: int| OutgoingView::Notification(self.notifications[i]),
        )
    }
}

impl<F> BatchBuilder<F> {
    /// Creates an empty builder.
    pub fn new() -> (builder: Self)
        ensures
            builder@.well_formed(),
            builder@.requests.len() == 0,
            builder@.notifications.len() == 0,
            builder@.failed is None,
    {
        BatchBuilder {
            requests: Vec::new(),
            parsers: Vec::new(),
            notifications: Vec::new(),
            failed: None,
        }
    }

    /// Remembers that a message was refused with `error`.
    fn refuse(&mut self, error: &Error)
        requires
            old(self)@.well_formed(),
            exists|fault: ParamsFault| #[trigger]
                fault.is_told_by(*error) && fault != ParamsFault::NotUtf8,
        ensures
            final(self)@.well_formed(),
            final(self)@.requests == old(self)@.requests,
            final(self)@.parsers == old(self)@.parsers,
            final(self)@.notifications == old(self)@.notifications,
            forall|fault: ParamsFault| #[trigger]
                fault.is_told_by(*error) ==> final(self)@.failed == old(self)@.failed_with(fault),
    {
        if self.failed.is_none() {
            self.failed = ParamsFault::behind(error);
        }
    }

    /// Queues a fire-and-forget notification with `method` and `params` to be
    /// sent as part of the batch. Never reserves a request id.
    pub fn add_notification<Method: Into<MethodIdBuf>>(
        &mut self,
        method: Method,
        params: Option<Serialized>,
    ) -> (done: Result<(), Error>)
        requires
            old(self)@.well_formed(),
        ensures
            final(self)@.well_formed(),
            final(self)@.requests == old(self)@.requests,
            final(self)@.parsers == old(self)@.parsers,
            match optional_params(params, |j: Serialized| params_value(j)) {
                Ok(p) => {
                    &&& done is Ok
                    &&& final(self)@.failed == old(self)@.failed
                    &&& exists|name: MethodIdBuf| #[trigger]
                        call_ensures(<Method as Into<MethodIdBuf>>::into, (method,), name)
                            && final(self)@.notifications == old(self)@.notifications.push(
                            (NotificationView { method: name@, params: p }),
                        )
                },
                Err(fault) => {
                    &&& done matches Err(e) && fault.is_told_by(e)
                    &&& final(self)@.notifications == old(self)@.notifications
                    &&& final(self)@.failed == old(self)@.failed_with(fault)
                },
            },
    {
        let params = match validated_params(params) {
            Ok(params) => params,
            Err(e) => {
                self.refuse(&e);
                return Err(e);
            },
        };
        let method: MethodIdBuf = method.into();
        let ghost before = self.notifications@;
        let ghost name = method@;
        let ghost raw = optional_raw(params);
        self.notifications.push(Queued { method, params });
        assert(queued_views(self.notifications@) =~= queued_views(before).push(
            (NotificationView { method: name, params: raw }),
        ));
        assert(queued_views(before) == old(self)@.notifications);
        Ok(())
    }

    /// Queues a request with `method` and `params` to be sent as part of the
    /// batch, remembering how to parse *this request's own* response: different
    /// requests in the same batch can expect different response types.
    pub fn add_request<Method: Into<MethodIdBuf>>(
        &mut self,
        method: Method,
        params: Option<Serialized>,
        parser: F,
    ) -> (done: Result<(), Error>)
        requires
            old(self)@.well_formed(),
        ensures
            final(self)@.well_formed(),
            final(self)@.notifications == old(self)@.notifications,
            match optional_params(params, |j: Serialized| params_value(j)) {
                Ok(p) => {
                    &&& done is Ok
                    &&& final(self)@.failed == old(self)@.failed
                    &&& final(self)@.parsers == old(self)@.parsers.push(parser)
                    &&& exists|name: MethodIdBuf| #[trigger]
                        call_ensures(<Method as Into<MethodIdBuf>>::into, (method,), name)
                            && final(self)@.requests == old(self)@.requests.push(
                            (NotificationView { method: name@, params: p }),
                        )
                },
                Err(fault) => {
                    &&& done matches Err(e) && fault.is_told_by(e)
                    &&& final(self)@.parsers == old(self)@.parsers
                    &&& final(self)@.requests == old(self)@.requests
                    &&& final(self)@.failed == old(self)@.failed_with(fault)
                },
            },
    {
        let params = match validated_params(params) {
            Ok(params) => params,
            Err(e) => {
                self.refuse(&e);
                return Err(e);
            },
        };
        let method: MethodIdBuf = method.into();
        let ghost before = self.requests@;
        let ghost name = method@;
        let ghost raw = optional_raw(params);
        self.requests.push(Queued { method, params });
        self.parsers.push(parser);
        assert(queued_views(self.requests@) =~= queued_views(before).push(
            (NotificationView { method: name, params: raw }),
        ));
        assert(queued_views(before) == old(self)@.requests);
        Ok(())
    }

    /// Propagates whichever `add_*` call failed first; if none did, reserves ids
    /// for the queued requests and turns everything queued into a [`Batch`].
    /// `Ok(None)` only when nothing was queued at all: a notifications-only batch
    /// is still worth sending, so it builds fine with no reserved id range.
    pub fn build<'a>(self, idmgr: &mut RequestIdManager) -> (batch: Result<
        Option<Batch<'a, F>>,
        Error,
    >)
        requires
            self@.well_formed(),
            old(idmgr).next_id() + self@.requests.len() <= u64::MAX,
        ensures
            match self@.failed {
                Some(fault) => {
                    &&& batch matches Err(e) && fault.is_told_by(e)
                    &&& final(idmgr).next_id() == old(idmgr).next_id()
                },
                None => {
                    &&& final(idmgr).next_id() == old(idmgr).next_id() + self@.requests.len()
                    &&& batch is Ok
                    &&& batch->Ok_0 is None <==> self@.requests.len() == 0
                        && self@.notifications.len() == 0
                    &&& batch->Ok_0 matches Some(b) ==> {
                        &&& b.request_id_range is None <==> self@.requests.len() == 0
                        &&& b.request_id_range matches Some(range) ==> is_id_range(
                            range,
                            old(idmgr).next_id() as int,
                            old(idmgr).next_id() + self@.requests.len() - 1,
                        )
                        &&& b.parsers@ == self@.parsers
                        &&& outgoing_views(b.items@) == self@.messages(old(idmgr).next_id())
                    }
                },
            },
    {
        if let Some(fault) = self.failed {
            return Err(refusal(fault));
        }
        if self.requests.len() == 0 && self.notifications.len() == 0 {
            return Ok(None);
        }
        let ghost view = self@;
        let ghost first = idmgr.next_id();
        let count = self.requests.len() as u64;
        let start = idmgr.current_id().get();
        let request_id_range = idmgr.reserve_range(count);
        let mut items: Vec<JsonRpcOutgoing<'a>> = Vec::new();
        let requests = self.requests;
        let notifications = self.notifications;
        for request in it: requests
            invariant
                it.seq() == requests@,
                view.requests == queued_views(requests@),
                view.requests.len() == count,
                all_sendable(view.requests),
                start == first,
                first + count <= u64::MAX,
                items@.len() == it.index(),
                outgoing_views(items@) == view.messages(first).take(it.index() as int),
        {
            let ghost i = it.index() as int;
            let ghost queued = request@;
            assert(view.requests[i] == queued);
            let params = resend(request.params);
            let id = start + items.len() as u64;
            let message = match JsonRpcRequest::try_new_owned(
                RequestId::new(id),
                request.method,
                params,
            ) {
                Ok(message) => message,
                Err(e) => {
                    assert(false);
                    return Err(e);
                },
            };
            items.push(JsonRpcOutgoing::Request(message));
            assert(outgoing_views(items@) =~= view.messages(first).take(i + 1));
        }
        assert(view.messages(first).take(count as int).len() == count);
        for notification in it: notifications
            invariant
                it.seq() == notifications@,
                view.notifications == queued_views(notifications@),
                view.requests.len() == count,
                all_sendable(view.notifications),
                items@.len() == count + it.index(),
                outgoing_views(items@) == view.messages(first).take(count + it.index()),
        {
            let ghost i = it.index() as int;
            let ghost queued = notification@;
            assert(view.notifications[i] == queued);
            let params = resend(notification.params);
            let message = match JsonRpcNotification::try_new_owned(notification.method, params) {
                Ok(message) => message,
                Err(e) => {
                    assert(false);
                    return Err(e);
                },
            };
            items.push(JsonRpcOutgoing::Notification(message));
            assert(outgoing_views(items@) =~= view.messages(first).take(count + i + 1));
        }
        assert(view.messages(first).take(view.messages(first).len() as int) =~= view.messages(
            first,
        ));
        Ok(Some(Batch { request_id_range, parsers: self.parsers, items }))
    }
}

impl<F> Default for BatchBuilder<F> {
    fn default() -> (builder: Self)
        ensures
            builder@.well_formed(),
            builder@.requests.len() == 0,
            builder@.notifications.len() == 0,
            builder@.failed is None,
    {
        Self::new()
    }
}

/// Why a batch is refused for params that were.
const PARAMS_NOT_JSON: &'static str = "batch params could not be serialized";

/// The error that a batch is refused with for `fault`.
fn refusal(fault: ParamsFault) -> (error: Error)
    requires
        fault != ParamsFault::NotUtf8,
    ensures
        fault.is_told_by(error),
{
    match fault {
        ParamsFault::Serde => Error::SerdeError(json::custom_error(PARAMS_NOT_JSON)),
        _ => Error::InvalidParams,
    }
}

/// Validated params as what serializing them gives: their text.
fn resend(params: Option<RawValue<'static>>) -> (json: Option<Serialized>)
    requires
        params_sendable(optional_raw(params)),
    ensures
        optional_params(json, |j: Serialized| params_value(j)) == Ok::<
            Option<RawView>,
            ParamsFault,
        >(
            match params {
                None => None,
                Some(raw) => Some(raw@.owned()),
            },
        ),
{
    match params {
        None => None,
        Some(raw) => {
            let text = raw.into_string();
            proof {
                law_checking_twice_changes_nothing(text);
            }
            Some(Ok(text))
        },
    }
}

/// A request's own parser is the one that reads its reply: of the request that
/// was queued behind `before`, whatever else was queued after it, the parser that
/// the batch holds in its place gives the value that `read` finds in the reply, if
/// it is asked for as the type that it was registered with, and an error if it is
/// asked for as another. Where `read` finds no such value, it gives the error of
/// that. `recover` and `recover_other` are how values of the two types come out of
/// one whose type was erased.
pub proof fn law_response_comes_back<
    T,
    V,
    W,
    P: Fn(&str) -> Result<V, serde_json::Error>,
    E: Fn(V) -> T,
    F: Fn(&str) -> BatchResponseItem<T>,
>(
    before: BuilderView<F>,
    parser: F,
    queue: BuilderView<F>,
    parse: P,
    read: spec_fn(&str) -> Result<V, serde_json::Error>,
    erase: E,
    recover: spec_fn(T) -> Option<V>,
    recover_other: spec_fn(T) -> Option<W>,
    text: &str,
    item: BatchResponseItem<T>,
    response: Result<V, Error>,
    other: Result<W, Error>,
)
    requires
        before.parsers.push(parser).is_prefix_of(queue.parsers),
        forall|t: &str, i: BatchResponseItem<T>| #[trigger]
            call_ensures(parser, (t,), i) ==> parses(parse, erase, t, i),
        forall|t: &str, r: Result<V, serde_json::Error>| #[trigger]
            call_ensures(parse, (t,), r) ==> r == read(t),
        forall|value: V, t: T| #[trigger]
            call_ensures(erase, (value,), t) ==> recover(t) == Some(value) && recover_other(t)
                is None,
        call_ensures(queue.parsers[before.parsers.len() as int], (text,), item),
        item matches Ok(t) ==> comes_back(recover(t), response) && comes_back(
            recover_other(t),
            other,
        ),
    ensures
        match read(text) {
            Ok(value) => {
                &&& item is Ok
                &&& response == Ok::<V, Error>(value)
                &&& other matches Err(e) && e.is_invalid_message(TYPE_MISMATCH@)
            },
            Err(e) => item == Err::<T, Error>(Error::SerdeError(e)),
        },
{
    let k = before.parsers.len() as int;
    assert(before.parsers.push(parser)[k] == parser);
    assert(queue.parsers[k] == parser);
    assert(parses(parse, erase, text, item));
}

/// The ids that are reserved for a batch are those of its requests: each id of
/// the range is the id of exactly one of them, and notifications have none.
pub proof fn law_batch_ids_fill_the_range<F>(queue: BuilderView<F>, first: u64, id: u64)
    requires
        first + queue.requests.len() <= u64::MAX,
    ensures
        forall|i: int|
            0 <= i < queue.messages(first).len() ==> (#[trigger] queue.messages(
                first,
            )[i] is Request <==> i < queue.requests.len()),
        first <= id < first + queue.requests.len() <==> exists|i: int|
            0 <= i < queue.messages(first).len() && (#[trigger] queue.messages(
                first,
            )[i] matches OutgoingView::Request(r) && r.id == RequestId(id)),
        forall|i: int, j: int|
            0 <= i < j < queue.requests.len() ==> #[trigger] queue.messages(first)[i]
                != #[trigger] queue.messages(first)[j],
{
    let messages = queue.messages(first);
    if first <= id < first + queue.requests.len() {
        let i = id - first;
        assert(messages[i] matches OutgoingView::Request(r) && r.id == RequestId(id));
    }
    assert forall|i: int, j: int| 0 <= i < j < queue.requests.len() implies #[trigger] messages[i]
        != #[trigger] messages[j] by {
        assert(messages[i]->Request_0.id == RequestId((first + i) as u64));
        assert(messages[j]->Request_0.id == RequestId((first + j) as u64));
    }
}

} // verus!
