//! The messages of the protocol.

use crate::error::Error;
use crate::json::{self, optional_raw, RawValue, RawView};
use crate::method_id::{MethodId, MethodIdBuf, MethodName};
use crate::params::{
    buffered, buffered_behind, has_room, optional_params, params_behind, params_to_raw_value,
    params_value, sendable, serialize_params, ParamsBuf, ParamsFault, Serialized,
};
use crate::request_id::RequestId;
use crate::text::copy_text;
use crate::version::{JsonRpcVersion, JSONRPC_VERSION};
use std::borrow::Cow;
use vstd::prelude::*;
use vstd::string::StringExecFns;

verus! {

/// The `error` member of a JSON-RPC error response.
#[derive(Debug)]
pub struct JsonRpcError<'a> {
    pub code: i64,
    pub message: Cow<'a, str>,
    pub data: Option<RawValue<'a>>,
}

/// What a [`JsonRpcError`] says.
#[verifier::ext_equal]
pub struct ErrorView {
    pub code: i64,
    pub message: Seq<char>,
    pub data: Option<RawView>,
}

impl<'a> View for JsonRpcError<'a> {
    type V = ErrorView;

    open spec fn view(&self) -> ErrorView {
        ErrorView { code: self.code, message: self.message@, data: optional_raw(self.data) }
    }
}

/// A JSON-RPC request. `params: None` is written by omitting the member, not
/// as `null`: the member may be omitted, but if it is there it must be a
/// Structured value (an Array or Object).
#[derive(Debug)]
pub struct JsonRpcRequest<'a> {
    pub jsonrpc: JsonRpcVersion,
    pub id: RequestId,
    pub method: MethodName<'a>,
    pub params: Option<RawValue<'a>>,
}

/// What a [`JsonRpcRequest`] says.
#[verifier::ext_equal]
pub struct RequestView {
    pub id: RequestId,
    pub method: Seq<char>,
    pub params: Option<RawView>,
}

impl<'a> View for JsonRpcRequest<'a> {
    type V = RequestView;

    open spec fn view(&self) -> RequestView {
        RequestView { id: self.id, method: self.method@, params: optional_raw(self.params) }
    }
}

/// A JSON-RPC notification: a request with no `id` that the peer must not
/// reply to. Same `params` omission rule as [`JsonRpcRequest`].
#[derive(Debug)]
pub struct JsonRpcNotification<'a> {
    pub jsonrpc: JsonRpcVersion,
    pub method: MethodName<'a>,
    pub params: Option<RawValue<'a>>,
}

/// What a [`JsonRpcNotification`] says.
#[verifier::ext_equal]
pub struct NotificationView {
    pub method: Seq<char>,
    pub params: Option<RawView>,
}

impl<'a> View for JsonRpcNotification<'a> {
    type V = NotificationView;

    open spec fn view(&self) -> NotificationView {
        NotificationView { method: self.method@, params: optional_raw(self.params) }
    }
}

/// A successful JSON-RPC response. `result` is required on a success response:
/// it's `error` that's mutually exclusive with it, not `result` itself being
/// optional. Responses are only ever decoded, never written.
#[derive(Debug)]
pub struct JsonRpcResponse<'a> {
    pub jsonrpc: JsonRpcVersion,
    pub id: RequestId,
    pub result: RawValue<'a>,
}

/// What a [`JsonRpcResponse`] says.
#[verifier::ext_equal]
pub struct ResponseView {
    pub id: RequestId,
    pub result: RawView,
}

impl<'a> View for JsonRpcResponse<'a> {
    type V = ResponseView;

    open spec fn view(&self) -> ResponseView {
        ResponseView { id: self.id, result: self.result@ }
    }
}

/// A JSON-RPC error response. `id` is `None` only when the peer couldn't
/// determine which request this error belongs to (e.g. on a parse error).
#[derive(Debug)]
pub struct JsonRpcErrorResponse<'a> {
    pub jsonrpc: JsonRpcVersion,
    pub id: Option<RequestId>,
    pub error: JsonRpcError<'a>,
}

/// What a [`JsonRpcErrorResponse`] says.
#[verifier::ext_equal]
pub struct ErrorResponseView {
    pub id: Option<RequestId>,
    pub error: ErrorView,
}

impl<'a> View for JsonRpcErrorResponse<'a> {
    type V = ErrorResponseView;

    open spec fn view(&self) -> ErrorResponseView {
        ErrorResponseView { id: self.id, error: self.error@ }
    }
}

/// Copies an optional text.
fn copy_raw<'a>(raw: &Option<RawValue<'a>>) -> (copy: Option<RawValue<'a>>)
    ensures
        optional_raw(copy) == optional_raw(*raw),
{
    match raw {
        None => None,
        Some(value) => Some(value.clone()),
    }
}

impl<'a> Clone for JsonRpcError<'a> {
    fn clone(&self) -> (copy: Self)
        ensures
            copy@ == self@,
    {
        JsonRpcError {
            code: self.code,
            message: copy_text(&self.message),
            data: copy_raw(&self.data),
        }
    }
}

impl<'a> Clone for JsonRpcRequest<'a> {
    fn clone(&self) -> (copy: Self)
        ensures
            copy@ == self@,
    {
        JsonRpcRequest {
            jsonrpc: self.jsonrpc,
            id: self.id,
            method: self.method.clone(),
            params: copy_raw(&self.params),
        }
    }
}

impl<'a> Clone for JsonRpcNotification<'a> {
    fn clone(&self) -> (copy: Self)
        ensures
            copy@ == self@,
    {
        JsonRpcNotification {
            jsonrpc: self.jsonrpc,
            method: self.method.clone(),
            params: copy_raw(&self.params),
        }
    }
}

impl<'a> Clone for JsonRpcResponse<'a> {
    fn clone(&self) -> (copy: Self)
        ensures
            copy@ == self@,
    {
        JsonRpcResponse {
            jsonrpc: self.jsonrpc,
            id: self.id,
            result: self.result.clone(),
        }
    }
}

impl<'a> Clone for JsonRpcErrorResponse<'a> {
    fn clone(&self) -> (copy: Self)
        ensures
            copy@ == self@,
    {
        JsonRpcErrorResponse {
            jsonrpc: self.jsonrpc,
            id: self.id,
            error: self.error.clone(),
        }
    }
}

/// Whether `outcome` is the result of building a message that should come out
/// as `expected` makes it of its params.
pub open spec fn message_comes_out<M: View>(
    outcome: Result<M, Error>,
    params: Result<Option<RawView>, ParamsFault>,
    expected: spec_fn(Option<RawView>) -> M::V,
) -> bool {
    match params {
        Ok(p) => outcome matches Ok(m) && m@ == expected(p),
        Err(fault) => outcome matches Err(e) && fault.is_told_by(e),
    }
}

/// Whether optional params can be sent as they stand, and have their text on
/// its own.
pub open spec fn params_sendable(params: Option<RawView>) -> bool {
    params matches Some(raw) ==> sendable(raw.text) && raw.offset is None
}

/// Validates optional params, owning their text.
pub fn validated_params(params: Option<Serialized>) -> (raw: Result<Option<RawValue<'static>>, Error>)
    ensures
        match optional_params(params, |j: Serialized| params_value(j)) {
            Ok(p) => raw matches Ok(r) && optional_raw(r) == p && params_sendable(p),
            Err(fault) => raw matches Err(e) && fault.is_told_by(e),
        },
        raw matches Ok(Some(r)) ==> r is Owned,
{
    match params {
        None => Ok(None),
        Some(json) => match serialize_params(json) {
            Ok(raw) => Ok(Some(raw)),
            Err(e) => Err(e),
        },
    }
}

/// Validates optional params, keeping their text in `buf`.
fn buffer_params<'a>(params: Option<Serialized>, buf: &'a mut ParamsBuf) -> (raw: Result<
    Option<RawValue<'a>>,
    Error,
>)
    requires
        params matches Some(json) ==> has_room(*old(buf), json),
    ensures
        match optional_params(params, |j: Serialized| params_behind(buffered(*old(buf)), j)) {
            Ok(p) => raw matches Ok(r) && optional_raw(r) == p && params_sendable(p),
            Err(fault) => raw matches Err(e) && fault.is_told_by(e),
        },
        raw matches Ok(Some(r)) ==> r is Buffered,
        buffered(*final(buf)) == buffered_behind(buffered(*old(buf)), params),
{
    match params {
        None => Ok(None),
        Some(json) => match params_to_raw_value(json, buf) {
            Ok(raw) => Ok(Some(raw)),
            Err(e) => Err(e),
        },
    }
}

impl<'a> JsonRpcRequest<'a> {
    /// Builds a request from already-serialized params, checking that they are
    /// a Structured value (an Array or Object).
    pub fn try_new_owned(id: RequestId, method: MethodIdBuf, params: Option<Serialized>) -> (request:
        Result<Self, Error>)
        ensures
            message_comes_out(
                request,
                optional_params(params, |j: Serialized| params_value(j)),
                |p: Option<RawView>| RequestView { id, method: method@, params: p },
            ),
            request matches Ok(r) ==> params_sendable(r@.params),
            request matches Ok(r) ==> {
                &&& r.method is Owned
                &&& r.params matches Some(raw) ==> raw is Owned
            },
    {
        match validated_params(params) {
            Ok(params) => Ok(
                JsonRpcRequest {
                    jsonrpc: JsonRpcVersion,
                    id,
                    method: MethodName::Owned(method),
                    params,
                },
            ),
            Err(e) => Err(e),
        }
    }

    /// Builds a request whose `method` and `params` borrow from `method` and
    /// from the caller-owned `buf`, which avoids allocating for `params` that
    /// fit within its inline capacity.
    pub fn try_new(
        id: RequestId,
        method: MethodId<'a>,
        params: Option<Serialized>,
        buf: &'a mut ParamsBuf,
    ) -> (request: Result<Self, Error>)
        requires
            params matches Some(json) ==> has_room(*old(buf), json),
        ensures
            message_comes_out(
                request,
                optional_params(
                    params,
                    |j: Serialized| params_behind(buffered(*old(buf)), j),
                ),
                |p: Option<RawView>| RequestView { id, method: method@, params: p },
            ),
            request matches Ok(r) ==> params_sendable(r@.params),
            request matches Ok(r) ==> {
                &&& r.method is Borrowed
                &&& r.params matches Some(raw) ==> raw is Buffered
            },
            buffered(*final(buf)) == buffered_behind(buffered(*old(buf)), params),
    {
        match buffer_params(params, buf) {
            Ok(params) => Ok(
                JsonRpcRequest {
                    jsonrpc: JsonRpcVersion,
                    id,
                    method: MethodName::Borrowed(method),
                    params,
                },
            ),
            Err(e) => Err(e),
        }
    }
}

impl<'a> JsonRpcNotification<'a> {
    /// Builds a notification whose `method` and `params` borrow from `method`
    /// and from the caller-owned `buf`, which avoids allocating for `params`
    /// that fit within its inline capacity.
    pub fn try_new(
        method: MethodId<'a>,
        params: Option<Serialized>,
        buf: &'a mut ParamsBuf,
    ) -> (notification: Result<Self, Error>)
        requires
            params matches Some(json) ==> has_room(*old(buf), json),
        ensures
            message_comes_out(
                notification,
                optional_params(
                    params,
                    |j: Serialized| params_behind(buffered(*old(buf)), j),
                ),
                |p: Option<RawView>| NotificationView { method: method@, params: p },
            ),
            notification matches Ok(n) ==> params_sendable(n@.params),
            notification matches Ok(n) ==> {
                &&& n.method is Borrowed
                &&& n.params matches Some(raw) ==> raw is Buffered
            },
            buffered(*final(buf)) == buffered_behind(buffered(*old(buf)), params),
    {
        match buffer_params(params, buf) {
            Ok(params) => Ok(
                JsonRpcNotification {
                    jsonrpc: JsonRpcVersion,
                    method: MethodName::Borrowed(method),
                    params,
                },
            ),
            Err(e) => Err(e),
        }
    }

    /// Builds a notification from already-serialized params, checking that they
    /// are a Structured value (an Array or Object).
    pub fn try_new_owned(method: MethodIdBuf, params: Option<Serialized>) -> (notification: Result<
        Self,
        Error,
    >)
        ensures
            message_comes_out(
                notification,
                optional_params(params, |j: Serialized| params_value(j)),
                |p: Option<RawView>| NotificationView { method: method@, params: p },
            ),
            notification matches Ok(n) ==> params_sendable(n@.params),
            notification matches Ok(n) ==> {
                &&& n.method is Owned
                &&& n.params matches Some(raw) ==> raw is Owned
            },
    {
        match validated_params(params) {
            Ok(params) => Ok(
                JsonRpcNotification {
                    jsonrpc: JsonRpcVersion,
                    method: MethodName::Owned(method),
                    params,
                },
            ),
            Err(e) => Err(e),
        }
    }
}

/// Owned, public-facing form of a notification received from the peer. The
/// version is omitted since it's already validated by the time this is built,
/// and unlike [`JsonRpcNotification`] this carries no borrow on the buffer it
/// was decoded from, since this is what crosses a channel boundary to the
/// subscribers.
#[derive(Debug)]
pub struct Notification {
    pub method: MethodIdBuf,
    pub params: Option<RawValue<'static>>,
}

impl View for Notification {
    type V = NotificationView;

    open spec fn view(&self) -> NotificationView {
        NotificationView { method: self.method@, params: optional_raw(self.params) }
    }
}

impl Clone for Notification {
    fn clone(&self) -> (copy: Self)
        ensures
            copy@ == self@,
    {
        Notification { method: self.method.clone(), params: copy_raw(&self.params) }
    }
}

impl NotificationView {
    /// The same notification, owning its params.
    pub open spec fn owned(self) -> NotificationView {
        NotificationView {
            method: self.method,
            params: match self.params {
                None => None,
                Some(raw) => Some(raw.owned()),
            },
        }
    }
}

/// Copies the borrowed wire data out into an owned `Notification`.
impl<'a> From<JsonRpcNotification<'a>> for Notification {
    fn from(data: JsonRpcNotification<'a>) -> (notification: Self)
        ensures
            notification@ == data@.owned(),
    {
        let params = match data.params {
            None => None,
            Some(raw) => Some(raw.into_owned()),
        };
        Notification { method: data.method.into_owned(), params }
    }
}

impl<'a> vstd::std_specs::convert::FromSpecImpl<JsonRpcNotification<'a>> for Notification {
    open spec fn obeys_from_spec() -> bool {
        false
    }

    open spec fn from_spec(data: JsonRpcNotification<'a>) -> Self {
        arbitrary()
    }
}

/// An owned request-or-notification, ready to be written to the wire. Either
/// is written as it is, without a discriminant: a request keeps its `id`, a
/// notification has none.
#[derive(Debug)]
pub enum JsonRpcOutgoing<'a> {
    Request(JsonRpcRequest<'a>),
    Notification(JsonRpcNotification<'a>),
}

/// What a [`JsonRpcOutgoing`] says.
#[verifier::ext_equal]
pub enum OutgoingView {
    Request(RequestView),
    Notification(NotificationView),
}

impl<'a> View for JsonRpcOutgoing<'a> {
    type V = OutgoingView;

    open spec fn view(&self) -> OutgoingView {
        match self {
            JsonRpcOutgoing::Request(r) => OutgoingView::Request(r@),
            JsonRpcOutgoing::Notification(n) => OutgoingView::Notification(n@),
        }
    }
}

impl<'a> Clone for JsonRpcOutgoing<'a> {
    fn clone(&self) -> (copy: Self)
        ensures
            copy@ == self@,
    {
        match self {
            JsonRpcOutgoing::Request(r) => JsonRpcOutgoing::Request(r.clone()),
            JsonRpcOutgoing::Notification(n) => JsonRpcOutgoing::Notification(n.clone()),
        }
    }
}

/// The messages that a list of [`JsonRpcOutgoing`] stands for.
pub open spec fn outgoing_views(items: Seq<JsonRpcOutgoing<'_>>) -> Seq<OutgoingView> {
    Seq::new(items.len(), |i: int| items[i]@)
}

/// The borrowed counterpart of [`JsonRpcOutgoing`].
#[derive(Debug, Clone, Copy)]
pub enum JsonRpcOutgoingRef<'a> {
    Request(&'a JsonRpcRequest<'a>),
    Notification(&'a JsonRpcNotification<'a>),
}

impl<'a> View for JsonRpcOutgoingRef<'a> {
    type V = OutgoingView;

    open spec fn view(&self) -> OutgoingView {
        match self {
            JsonRpcOutgoingRef::Request(r) => OutgoingView::Request(r@),
            JsonRpcOutgoingRef::Notification(n) => OutgoingView::Notification(n@),
        }
    }
}

/// The `params` member as it is written, with the comma before it; nothing
/// where there are no params.
pub open spec fn params_json(params: Option<RawView>) -> Seq<char> {
    match params {
        None => Seq::empty(),
        Some(raw) => ",\"params\":"@ + raw.text,
    }
}

/// The beginning of every message: the version of the protocol.
pub open spec fn head_json() -> Seq<char> {
    "{\"jsonrpc\":"@ + json::quoted(JSONRPC_VERSION@)
}

/// The end of every message: its method and params.
pub open spec fn tail_json(method: Seq<char>, params: Option<RawView>) -> Seq<char> {
    ",\"method\":"@ + json::quoted(method) + params_json(params) + "}"@
}

/// A request as it is written.
pub open spec fn request_json(request: RequestView) -> Seq<char> {
    head_json() + ",\"id\":"@ + json::decimal(request.id.0 as nat) + tail_json(
        request.method,
        request.params,
    )
}

/// A notification as it is written.
pub open spec fn notification_json(notification: NotificationView) -> Seq<char> {
    head_json() + tail_json(notification.method, notification.params)
}

/// A request or notification as it is written.
pub open spec fn outgoing_json(message: OutgoingView) -> Seq<char> {
    match message {
        OutgoingView::Request(r) => request_json(r),
        OutgoingView::Notification(n) => notification_json(n),
    }
}

/// The messages of a batch as they are written, with commas between them.
pub open spec fn list_json(messages: Seq<OutgoingView>) -> Seq<char>
    decreases messages.len(),
{
    if messages.len() == 0 {
        Seq::empty()
    } else if messages.len() == 1 {
        outgoing_json(messages[0])
    } else {
        list_json(messages.drop_last()) + ","@ + outgoing_json(messages.last())
    }
}

/// A batch as it is written.
pub open spec fn batch_json(messages: Seq<OutgoingView>) -> Seq<char> {
    "["@ + list_json(messages) + "]"@
}

/// Writes the beginning of a message.
fn write_head() -> (text: Result<String, serde_json::Error>)
    ensures
        text is Ok,
        text->Ok_0@ == head_json(),
{
    let version = match json::string_text(JSONRPC_VERSION) {
        Ok(version) => version,
        Err(e) => return Err(e),
    };
    let mut text = "{\"jsonrpc\":".to_owned();
    text.append(version.as_str());
    Ok(text)
}

/// Writes the end of a message behind `text`.
fn write_tail(
    text: &mut String,
    method: MethodId<'_>,
    params: &Option<RawValue<'_>>,
) -> (done: Result<(), serde_json::Error>)
    ensures
        done is Ok,
        final(text)@ == old(text)@ + tail_json(method@, optional_raw(*params)),
{
    let name = match json::string_text(method.as_str()) {
        Ok(name) => name,
        Err(e) => return Err(e),
    };
    text.append(",\"method\":");
    text.append(name.as_str());
    match params {
        None => {},
        Some(raw) => {
            text.append(",\"params\":");
            text.append(raw.get());
        },
    }
    text.append("}");
    assert(text@ =~= old(text)@ + tail_json(method@, optional_raw(*params)));
    Ok(())
}

impl<'a> JsonRpcRequest<'a> {
    /// The request as its wire JSON string.
    pub fn to_json(&self) -> (text: Result<String, serde_json::Error>)
        ensures
            text is Ok,
            text->Ok_0@ == request_json(self@),
    {
        let mut text = match write_head() {
            Ok(text) => text,
            Err(e) => return Err(e),
        };
        let id = match json::number_text(self.id.get()) {
            Ok(id) => id,
            Err(e) => return Err(e),
        };
        text.append(",\"id\":");
        text.append(id.as_str());
        match write_tail(&mut text, self.method.as_ref(), &self.params) {
            Ok(()) => Ok(text),
            Err(e) => Err(e),
        }
    }
}

impl<'a> JsonRpcNotification<'a> {
    /// The notification as its wire JSON string.
    pub fn to_json(&self) -> (text: Result<String, serde_json::Error>)
        ensures
            text is Ok,
            text->Ok_0@ == notification_json(self@),
    {
        let mut text = match write_head() {
            Ok(text) => text,
            Err(e) => return Err(e),
        };
        match write_tail(&mut text, self.method.as_ref(), &self.params) {
            Ok(()) => Ok(text),
            Err(e) => Err(e),
        }
    }
}

impl<'a> JsonRpcOutgoing<'a> {
    /// The message as its wire JSON string.
    pub fn to_json(&self) -> (text: Result<String, serde_json::Error>)
        ensures
            text is Ok,
            text->Ok_0@ == outgoing_json(self@),
    {
        match self {
            JsonRpcOutgoing::Request(r) => r.to_json(),
            JsonRpcOutgoing::Notification(n) => n.to_json(),
        }
    }
}

impl<'a> JsonRpcOutgoingRef<'a> {
    /// The message as its wire JSON string.
    pub fn to_json(&self) -> (text: Result<String, serde_json::Error>)
        ensures
            text is Ok,
            text->Ok_0@ == outgoing_json(self@),
    {
        match self {
            JsonRpcOutgoingRef::Request(r) => r.to_json(),
            JsonRpcOutgoingRef::Notification(n) => n.to_json(),
        }
    }
}

/// Writes a batch as one flat JSON array.
pub fn batch_to_json(items: &Vec<JsonRpcOutgoing<'_>>) -> (text: Result<String, serde_json::Error>)
    ensures
        text is Ok,
        text->Ok_0@ == batch_json(outgoing_views(items@)),
{
    let ghost views = outgoing_views(items@);
    let mut text = "[".to_owned();
    let mut i: usize = 0;
    assert(views.take(0).len() == 0);
    assert(text@ =~= "["@ + list_json(views.take(0)));
    while i < items.len()
        invariant
            i <= items@.len(),
            views == outgoing_views(items@),
            text@ == "["@ + list_json(views.take(i as int)),
        decreases items.len() - i,
    {
        let next = match items[i].to_json() {
            Ok(next) => next,
            Err(e) => return Err(e),
        };
        if i > 0 {
            text.append(",");
        }
        text.append(next.as_str());
        proof {
            let done = views.take(i + 1);
            assert(done.drop_last() =~= views.take(i as int));
            assert(done.last() == items@[i as int]@);
            assert(text@ =~= "["@ + list_json(done));
        }
        i = i + 1;
    }
    assert(views.take(i as int) =~= views);
    text.append("]");
    Ok(text)
}

/// Writes a request as its wire JSON string.
impl<'a> TryFrom<JsonRpcRequest<'a>> for String {
    type Error = serde_json::Error;

    fn try_from(value: JsonRpcRequest<'a>) -> (text: Result<String, serde_json::Error>)
        ensures
            text is Ok,
            text->Ok_0@ == request_json(value@),
    {
        value.to_json()
    }
}

impl<'a> vstd::std_specs::convert::TryFromSpecImpl<JsonRpcRequest<'a>> for String {
    open spec fn obeys_try_from_spec() -> bool {
        false
    }

    open spec fn try_from_spec(value: JsonRpcRequest<'a>) -> Result<Self, serde_json::Error> {
        arbitrary()
    }
}

/// Writes a request as its wire JSON bytes: those of its string.
impl<'a> TryFrom<JsonRpcRequest<'a>> for Vec<u8> {
    type Error = serde_json::Error;

    fn try_from(value: JsonRpcRequest<'a>) -> (bytes: Result<Vec<u8>, serde_json::Error>)
        ensures
            bytes is Ok,
            bytes->Ok_0@ == vstd::utf8::encode_utf8(request_json(value@)),
    {
        match value.to_json() {
            Ok(text) => {
                let mut bytes: Vec<u8> = Vec::new();
                bytes.extend_from_slice(text.as_str().as_bytes());
                assert(bytes@ =~= vstd::utf8::encode_utf8(text@));
                Ok(bytes)
            },
            Err(e) => Err(e),
        }
    }
}

impl<'a> vstd::std_specs::convert::TryFromSpecImpl<JsonRpcRequest<'a>> for Vec<u8> {
    open spec fn obeys_try_from_spec() -> bool {
        false
    }

    open spec fn try_from_spec(value: JsonRpcRequest<'a>) -> Result<Self, serde_json::Error> {
        arbitrary()
    }
}

} // verus!
