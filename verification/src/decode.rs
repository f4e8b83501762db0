//! Decoding of incoming messages, without copying them.

use crate::error::Error;
use crate::json::{self, RawValue};
use crate::method_id::{MethodId, MethodIdBuf, MethodName};
use crate::params::{is_object_or_array, structured};
use crate::probe::{
    lemma_probe_lies_in, plain_message, plain_method, probe_of, read_probe, version_ok, Probe,
    ProbeId, ProbeView, PROBE_FIELDS,
};
use crate::protocol::{
    ErrorResponseView, JsonRpcError, JsonRpcErrorResponse, JsonRpcNotification, JsonRpcResponse,
    NotificationView, ResponseView,
};
use crate::request_id::RequestId;
use crate::text::{copy_text, first_visible, first_visible_char, lemma_decoded_text};
use crate::wire::{
    elements, elements_from, fields_of, json_space_byte, lemma_elements_within, lemma_skip_space,
    next_token, skip_space, span_views, SpanView,
};
use std::borrow::Cow;
use vstd::prelude::*;
use vstd::slice::slice_subrange;

verus! {

/// Why a response without an `id` is refused.
pub const MISSING_ID: &'static str = "a response is missing its `id`";

/// Why a response with a foreign `id` is refused.
pub const FOREIGN_ID: &'static str =
    "a response `id` is not a value this client could have issued";

/// Why a message shaped as a request is refused.
pub const INBOUND_REQUEST: &'static str =
    "received a method call with an id; this client does not handle inbound requests";

/// Why a notification with params of the wrong kind is refused.
pub const UNSTRUCTURED_PARAMS: &'static str =
    "the `params` of a notification are neither an object nor an array";

/// Why a message of no known shape is refused.
pub const NO_SHAPE: &'static str = "message has no `result`, `error`, or `method` field";

/// Why a batch with an item of no known shape is refused.
pub const NO_SHAPE_IN_BATCH: &'static str = "batch item has no `result` or `error`";

/// Why a response to another request is refused.
pub const WRONG_RESPONSE_ID: &'static str = "response id does not match request id";

/// Why an error response to another request is refused.
pub const WRONG_ERROR_ID: &'static str = "error response id does not match request id";

/// Why a notification is refused in place of a response.
pub const UNEXPECTED_NOTIFICATION: &'static str = "notification received";

/// Why a batch is refused in place of a response.
pub const UNEXPECTED_BATCH: &'static str = "batch response received";

/// Which of the wire shapes a received message turned out to be. Folding an
/// error response into [`Error`] is left to the caller, since only the caller
/// knows whether this error correlates to a pending request or needs different
/// handling.
#[derive(Debug)]
pub enum JsonRpcIncoming<'a> {
    Response(JsonRpcResponse<'a>),
    ErrorResponse(JsonRpcErrorResponse<'a>),
    Notification(JsonRpcNotification<'a>),
    BatchResponse(Vec<JsonRpcBatchResponse<'a>>),
}

/// What a [`JsonRpcIncoming`] says.
#[verifier::ext_equal]
pub enum IncomingView {
    Response(ResponseView),
    ErrorResponse(ErrorResponseView),
    Notification(NotificationView),
    BatchResponse(Seq<BatchItemView>),
}

impl<'a> View for JsonRpcIncoming<'a> {
    type V = IncomingView;

    open spec fn view(&self) -> IncomingView {
        match self {
            JsonRpcIncoming::Response(r) => IncomingView::Response(r@),
            JsonRpcIncoming::ErrorResponse(e) => IncomingView::ErrorResponse(e@),
            JsonRpcIncoming::Notification(n) => IncomingView::Notification(n@),
            JsonRpcIncoming::BatchResponse(items) => IncomingView::BatchResponse(
                item_views(items@),
            ),
        }
    }
}

/// One element of a decoded [`JsonRpcIncoming::BatchResponse`].
#[derive(Debug)]
pub enum JsonRpcBatchResponse<'a> {
    Response(JsonRpcResponse<'a>),
    ErrorResponse(JsonRpcErrorResponse<'a>),
}

/// What a [`JsonRpcBatchResponse`] says.
#[verifier::ext_equal]
pub enum BatchItemView {
    Response(ResponseView),
    ErrorResponse(ErrorResponseView),
}

impl BatchItemView {
    /// The id of the request that the item answers, where it names one.
    pub open spec fn id(self) -> Option<RequestId> {
        match self {
            BatchItemView::Response(r) => Some(r.id),
            BatchItemView::ErrorResponse(e) => e.id,
        }
    }
}

impl<'a> View for JsonRpcBatchResponse<'a> {
    type V = BatchItemView;

    open spec fn view(&self) -> BatchItemView {
        match self {
            JsonRpcBatchResponse::Response(r) => BatchItemView::Response(r@),
            JsonRpcBatchResponse::ErrorResponse(e) => BatchItemView::ErrorResponse(e@),
        }
    }
}

/// The items that a list of [`JsonRpcBatchResponse`] stands for.
pub open spec fn item_views(items: Seq<JsonRpcBatchResponse<'_>>) -> Seq<BatchItemView> {
    Seq::new(items.len(), |i: int| items[i]@)
}

impl<'a> JsonRpcBatchResponse<'a> {
    /// The id of the request that the item answers, where it names one.
    pub fn id(&self) -> (id: Option<RequestId>)
        ensures
            id == self@.id(),
    {
        match self {
            JsonRpcBatchResponse::Response(r) => Some(r.id),
            JsonRpcBatchResponse::ErrorResponse(e) => e.id,
        }
    }
}

/// A probe with an `error` or a `result` member as the response that it is, or
/// why it is refused; `None` where it has neither.
pub open spec fn response_of(probe: ProbeView) -> Option<Result<BatchItemView, Seq<char>>> {
    if let Some(error) = probe.error {
        Some(
            Ok(
                BatchItemView::ErrorResponse(
                    ErrorResponseView { id: probe.id.request_id(), error },
                ),
            ),
        )
    } else if let Some(result) = probe.result {
        match probe.id {
            ProbeId::Value(id) => Some(Ok(BatchItemView::Response(ResponseView { id, result }))),
            ProbeId::Absent => Some(Err(MISSING_ID@)),
            _ => Some(Err(FOREIGN_ID@)),
        }
    } else {
        None
    }
}

/// The message that a probe is, outside of a batch, or why it is refused.
pub open spec fn message_of(probe: ProbeView) -> Result<IncomingView, Seq<char>> {
    match response_of(probe) {
        Some(Ok(BatchItemView::Response(r))) => Ok(IncomingView::Response(r)),
        Some(Ok(BatchItemView::ErrorResponse(e))) => Ok(IncomingView::ErrorResponse(e)),
        Some(Err(why)) => Err(why),
        None => if let Some(method) = probe.method {
            if probe.id != ProbeId::Absent {
                Err(INBOUND_REQUEST@)
            } else if probe.params matches Some(raw) && !structured(raw.text) {
                Err(UNSTRUCTURED_PARAMS@)
            } else {
                Ok(IncomingView::Notification(NotificationView { method, params: probe.params }))
            }
        } else {
            Err(NO_SHAPE@)
        },
    }
}

/// The responses that the probes of a batch are, or why the first one that is
/// refused is.
pub open spec fn responses_of(probes: Seq<ProbeView>) -> Result<Seq<BatchItemView>, Seq<char>>
    decreases probes.len(),
{
    if probes.len() == 0 {
        Ok(Seq::empty())
    } else {
        match responses_of(probes.drop_last()) {
            Err(why) => Err(why),
            Ok(items) => match response_of(probes.last()) {
                None => Err(NO_SHAPE_IN_BATCH@),
                Some(Err(why)) => Err(why),
                Some(Ok(item)) => Ok(items.push(item)),
            },
        }
    }
}

/// Builds a [`JsonRpcBatchResponse`] if `probe` has a `result` or `error`
/// member (a response shape); `None` if it has neither (so the caller can try
/// the notification shape instead).
pub fn probe_as_response<'a>(probe: &Probe<'a>) -> (response: Option<
    Result<JsonRpcBatchResponse<'a>, Error>,
>)
    ensures
        match response_of(probe@) {
            None => response is None,
            Some(Ok(item)) => response matches Some(Ok(r)) && r@ == item,
            Some(Err(why)) => response matches Some(Err(e)) && e.is_invalid_message(why),
        },
        response matches Some(Ok(JsonRpcBatchResponse::ErrorResponse(e))) ==> {
            &&& probe.error matches Some(error)
            &&& e.error.message is Borrowed == error.message is Borrowed
        },
{
    let numeric_id = probe.id.value();
    if let Some(error) = &probe.error {
        let data = match error.data {
            None => None,
            Some(slice) => Some(RawValue::Borrowed(slice)),
        };
        return Some(
            Ok(
                JsonRpcBatchResponse::ErrorResponse(
                    JsonRpcErrorResponse {
                        jsonrpc: probe.jsonrpc,
                        id: numeric_id,
                        error: JsonRpcError {
                            code: error.code,
                            message: copy_text(&error.message),
                            data,
                        },
                    },
                ),
            ),
        );
    }
    if let Some(result) = probe.result {
        let id = match numeric_id {
            Some(id) => id,
            None => {
                let message = if !probe.id.is_present() {
                    MISSING_ID
                } else {
                    FOREIGN_ID
                };
                return Some(Err(Error::InvalidMessage(message)));
            },
        };
        return Some(
            Ok(
                JsonRpcBatchResponse::Response(
                    JsonRpcResponse {
                        jsonrpc: probe.jsonrpc,
                        id,
                        result: RawValue::Borrowed(result),
                    },
                ),
            ),
        );
    }
    None
}

/// Classifies a single (non-batch) probe as a response, error response, or
/// notification, per the shapes this client accepts.
pub fn process_probe<'a>(probe: Probe<'a>) -> (incoming: Result<JsonRpcIncoming<'a>, Error>)
    ensures
        match message_of(probe@) {
            Ok(message) => incoming matches Ok(m) && m@ == message,
            Err(why) => incoming matches Err(e) && e.is_invalid_message(why),
        },
        incoming matches Ok(JsonRpcIncoming::ErrorResponse(e)) ==> {
            &&& probe.error matches Some(error)
            &&& e.error.message is Borrowed == error.message is Borrowed
        },
        incoming matches Ok(JsonRpcIncoming::Notification(n)) ==> {
            &&& probe.method matches Some(method)
            &&& n.method is Borrowed == method is Borrowed
        },
{
    match probe_as_response(&probe) {
        Some(Ok(JsonRpcBatchResponse::Response(r))) => return Ok(JsonRpcIncoming::Response(r)),
        Some(Ok(JsonRpcBatchResponse::ErrorResponse(e))) => return Ok(
            JsonRpcIncoming::ErrorResponse(e),
        ),
        Some(Err(e)) => return Err(e),
        None => {},
    }
    if let Some(method) = probe.method {
        if probe.id.is_present() {
            return Err(Error::InvalidMessage(INBOUND_REQUEST));
        }
        let params = match probe.params {
            None => None,
            Some(slice) => {
                if !is_object_or_array(slice.text) {
                    return Err(Error::InvalidMessage(UNSTRUCTURED_PARAMS));
                }
                Some(RawValue::Borrowed(slice))
            },
        };
        let method = match method {
            Cow::Borrowed(name) => MethodName::Borrowed(MethodId::new(name)),
            Cow::Owned(name) => MethodName::Owned(MethodIdBuf::from(name)),
        };
        return Ok(
            JsonRpcIncoming::Notification(
                JsonRpcNotification {
                    jsonrpc: probe.jsonrpc,
                    method,
                    params,
                },
            ),
        );
    }
    Err(Error::InvalidMessage(NO_SHAPE))
}

/// The probes that a list of [`Probe`] stands for.
pub open spec fn probe_views(probes: Seq<Probe<'_>>) -> Seq<ProbeView> {
    Seq::new(probes.len(), |i: int| probes[i]@)
}

/// A batch is refused for the first of its probes that is.
pub proof fn lemma_first_refusal(probes: Seq<ProbeView>, n: int)
    requires
        0 <= n <= probes.len(),
        responses_of(probes.take(n)) is Err,
    ensures
        responses_of(probes) == responses_of(probes.take(n)),
    decreases probes.len(),
{
    if n == probes.len() {
        assert(probes.take(n) =~= probes);
    } else {
        assert(probes.drop_last().take(n) =~= probes.take(n));
        lemma_first_refusal(probes.drop_last(), n);
    }
}

/// Whether the message of an error response is borrowed where the probe's is.
pub open spec fn borrows_like(item: JsonRpcBatchResponse<'_>, probe: Probe<'_>) -> bool {
    item matches JsonRpcBatchResponse::ErrorResponse(e) ==> {
        &&& probe.error matches Some(error)
        &&& e.error.message is Borrowed == error.message is Borrowed
    }
}

/// Classifies every probe in a batch as a response or error response; fails
/// the whole batch if any item is shaped as neither.
pub fn process_batch<'a>(probes: Vec<Probe<'a>>) -> (incoming: Result<JsonRpcIncoming<'a>, Error>)
    ensures
        match responses_of(probe_views(probes@)) {
            Ok(items) => incoming matches Ok(m) && m@ == IncomingView::BatchResponse(items),
            Err(why) => incoming matches Err(e) && e.is_invalid_message(why),
        },
        incoming matches Ok(JsonRpcIncoming::BatchResponse(items)) ==> {
            &&& items@.len() == probes@.len()
            &&& forall|i: int|
                0 <= i < items@.len() ==> borrows_like(#[trigger] items@[i], probes@[i])
        },
{
    let ghost views = probe_views(probes@);
    let mut items: Vec<JsonRpcBatchResponse<'a>> = Vec::new();
    let mut i: usize = 0;
    assert(item_views(items@) =~= Seq::empty());
    while i < probes.len()
        invariant
            i <= probes@.len(),
            views == probe_views(probes@),
            responses_of(views.take(i as int)) == Ok::<Seq<BatchItemView>, Seq<char>>(
                item_views(items@),
            ),
            items@.len() == i,
            forall|k: int| 0 <= k < i ==> borrows_like(#[trigger] items@[k], probes@[k]),
        decreases probes.len() - i,
    {
        assert(views.take(i + 1).drop_last() =~= views.take(i as int));
        assert(views.take(i + 1).last() == probes@[i as int]@);
        match probe_as_response(&probes[i]) {
            Some(Ok(item)) => {
                let ghost done = items@;
                items.push(item);
                assert(item_views(items@) =~= item_views(done).push(item@));
            },
            Some(Err(e)) => {
                proof {
                    lemma_first_refusal(views, i + 1);
                }
                return Err(e);
            },
            None => {
                proof {
                    lemma_first_refusal(views, i + 1);
                }
                return Err(Error::InvalidMessage(NO_SHAPE_IN_BATCH));
            },
        }
        i = i + 1;
    }
    assert(views.take(i as int) =~= views);
    Ok(JsonRpcIncoming::BatchResponse(items))
}

/// The probes that the elements `spans` of a batch read as.
pub open spec fn probes_at(text: Seq<u8>, spans: Seq<SpanView>) -> Option<Seq<ProbeView>>
    decreases spans.len(),
{
    if spans.len() == 0 {
        Some(Seq::empty())
    } else {
        match probes_at(text, spans.drop_last()) {
            None => None,
            Some(probes) => match probe_of(spans.last().of(text), spans.last().start, 2) {
                None => None,
                Some(probe) => Some(probes.push(probe)),
            },
        }
    }
}

/// The probes of the batch that `text` reads as.
pub open spec fn batch_of(text: Seq<u8>) -> Option<Seq<ProbeView>> {
    let p = skip_space(text, 0);
    if p < text.len() && text[p] == 0x5b {
        match elements_from(text, p + 1, true) {
            Some(spans) => probes_at(text, spans),
            None => None,
        }
    } else {
        None
    }
}

/// Why a message is not accepted.
pub enum Refusal {
    /// It does not read as JSON with the members of a message.
    Malformed,
    /// It does, but has a shape that this client does not accept.
    Invalid(Seq<char>),
}

/// What a message says, or why it is not accepted.
pub open spec fn decoded(text: Seq<u8>, batch: bool) -> Result<IncomingView, Refusal> {
    if batch {
        match batch_of(text) {
            None => Err(Refusal::Malformed),
            Some(probes) => match responses_of(probes) {
                Ok(items) => Ok(IncomingView::BatchResponse(items)),
                Err(why) => Err(Refusal::Invalid(why)),
            },
        }
    } else {
        match probe_of(text, 0, 1) {
            None => Err(Refusal::Malformed),
            Some(probe) => match message_of(probe) {
                Ok(message) => Ok(message),
                Err(why) => Err(Refusal::Invalid(why)),
            },
        }
    }
}

impl Refusal {
    /// Whether `error` is the error for this refusal.
    pub open spec fn is_told_by(self, error: Error) -> bool {
        match self {
            Refusal::Malformed => error is SerdeError,
            Refusal::Invalid(why) => error.is_invalid_message(why),
        }
    }
}

/// Whether `outcome` is the result of a call that should come out as `expected`.
pub open spec fn comes_out(
    outcome: Result<JsonRpcIncoming<'_>, Error>,
    expected: Result<IncomingView, Refusal>,
) -> bool {
    match expected {
        Ok(message) => outcome matches Ok(m) && m@ == message,
        Err(refusal) => outcome matches Err(e) && refusal.is_told_by(e),
    }
}

/// Whether a byte is ASCII whitespace.
pub open spec fn ascii_space(b: u8) -> bool {
    b == 0x20 || b == 0x09 || b == 0x0a || b == 0x0c || b == 0x0d
}

/// Whether the first byte from `pos` on that is not ASCII whitespace is an
/// opening square bracket.
pub open spec fn opens_batch(bytes: Seq<u8>, pos: int) -> bool
    decreases bytes.len() - pos,
{
    if 0 <= pos < bytes.len() {
        if ascii_space(bytes[pos]) {
            opens_batch(bytes, pos + 1)
        } else {
            bytes[pos] == 0x5b
        }
    } else {
        false
    }
}

proof fn lemma_probes_at_prefix(text: Seq<u8>, spans: Seq<SpanView>, n: int)
    requires
        0 <= n <= spans.len(),
        probes_at(text, spans.take(n)) is None,
    ensures
        probes_at(text, spans) is None,
    decreases spans.len(),
{
    if n == spans.len() {
        assert(spans.take(n) =~= spans);
    } else {
        assert(spans.drop_last().take(n) =~= spans.take(n));
        lemma_probes_at_prefix(text, spans.drop_last(), n);
    }
}

/// The element `i` of the batch that `text` reads as.
pub open spec fn element(text: Seq<u8>, i: int) -> Seq<u8> {
    elements_from(text, skip_space(text, 0) + 1, true)->Some_0[i].of(text)
}

/// Reads the probes of a batch.
pub fn read_batch<'a>(text: &'a [u8]) -> (probes: Result<Vec<Probe<'a>>, serde_json::Error>)
    ensures
        probes is Ok <==> batch_of(text@) is Some,
        probes matches Ok(list) ==> batch_of(text@) == Some(probe_views(list@)),
        probes matches Ok(list) ==> forall|i: int|
            0 <= i < list@.len() ==> (#[trigger] list@[i]).borrows_strings(element(text@, i)),
{
    let p = next_token(text, 0);
    if p >= text.len() || text[p] != 0x5b {
        return Err(json::custom_error("expected an array"));
    }
    let spans = match elements(text, p + 1) {
        Ok(spans) => spans,
        Err(e) => return Err(e),
    };
    let ghost views = span_views(spans@);
    proof {
        lemma_elements_within(text@, p + 1, true);
    }
    let mut probes: Vec<Probe<'a>> = Vec::new();
    let mut i: usize = 0;
    assert(probe_views(probes@) =~= Seq::empty());
    while i < spans.len()
        invariant
            i <= spans@.len(),
            views == span_views(spans@),
            batch_of(text@) == probes_at(text@, views),
            forall|k: int| 0 <= k < views.len() ==> (#[trigger] views[k]).within(text@),
            probes_at(text@, views.take(i as int)) == Some(probe_views(probes@)),
            p == skip_space(text@, 0) && elements_from(text@, p + 1, true) == Some(views),
            probes@.len() == i,
            forall|k: int|
                0 <= k < i ==> (#[trigger] probes@[k]).borrows_strings(element(text@, k)),
        decreases spans.len() - i,
    {
        assert(views.take(i + 1).drop_last() =~= views.take(i as int));
        assert(views.take(i + 1).last() == views[i as int]);
        assert(views[i as int] == spans@[i as int]@);
        let span = spans[i];
        match read_probe(slice_subrange(text, span.start, span.end), span.start, 2) {
            Ok(probe) => {
                let ghost done = probes@;
                assert(probe.borrows_strings(element(text@, i as int)));
                probes.push(probe);
                assert(probe_views(probes@) =~= probe_views(done).push(probe@));
            },
            Err(e) => {
                proof {
                    lemma_probes_at_prefix(text@, views, i + 1);
                }
                return Err(e);
            },
        }
        i = i + 1;
    }
    assert(views.take(i as int) =~= views);
    Ok(probes)
}

/// Whether the strings of a decoded message are borrowed from it wherever
/// possible: the method of a notification and the message of an error are,
/// exactly if they stand in the message without an escape sequence.
pub open spec fn strings_borrowed(message: JsonRpcIncoming<'_>, text: Seq<u8>) -> bool {
    match message {
        JsonRpcIncoming::Response(_) => true,
        JsonRpcIncoming::ErrorResponse(e) => e.error.message is Borrowed <==> plain_message(text),
        JsonRpcIncoming::Notification(n) => n.method is Borrowed <==> plain_method(text),
        JsonRpcIncoming::BatchResponse(items) => forall|i: int|
            0 <= i < items@.len() ==> item_strings_borrowed(
                #[trigger] items@[i],
                element(text, i),
            ),
    }
}

/// Whether the strings of an item of a batch are borrowed wherever possible,
/// `text` being the element of the batch that it was read from.
pub open spec fn item_strings_borrowed(item: JsonRpcBatchResponse<'_>, text: Seq<u8>) -> bool {
    match item {
        JsonRpcBatchResponse::Response(_) => true,
        JsonRpcBatchResponse::ErrorResponse(e) => e.error.message is Borrowed <==> plain_message(
            text,
        ),
    }
}

/// Decodes a message, as a batch or as a single message.
fn decode<'a>(text: &'a [u8], batch: bool) -> (incoming: Result<JsonRpcIncoming<'a>, Error>)
    ensures
        comes_out(incoming, decoded(text@, batch)),
        incoming matches Ok(m) ==> strings_borrowed(m, text@),
{
    if batch {
        match read_batch(text) {
            Ok(probes) => process_batch(probes),
            Err(e) => Err(Error::SerdeError(e)),
        }
    } else {
        assert(text.len() <= usize::MAX);
        match read_probe(text, 0, 1) {
            Ok(probe) => process_probe(probe),
            Err(e) => Err(Error::SerdeError(e)),
        }
    }
}

/// Decodes a UTF-8 JSON-RPC message, borrowing from `s` wherever possible.
impl<'a> TryFrom<&'a str> for JsonRpcIncoming<'a> {
    type Error = Error;

    fn try_from(s: &'a str) -> (incoming: Result<Self, Error>)
        ensures
            comes_out(
                incoming,
                decoded(vstd::utf8::encode_utf8(s@), first_visible(s@) == Some('[')),
            ),
            incoming matches Ok(m) ==> strings_borrowed(m, vstd::utf8::encode_utf8(s@)),
    {
        let batch = match first_visible_char(s) {
            Some(c) => c == '[',
            None => false,
        };
        decode(s.as_bytes(), batch)
    }
}

impl<'a> vstd::std_specs::convert::TryFromSpecImpl<&'a str> for JsonRpcIncoming<'a> {
    open spec fn obeys_try_from_spec() -> bool {
        false
    }

    open spec fn try_from_spec(s: &'a str) -> Result<Self, Error> {
        arbitrary()
    }
}

/// Decodes a JSON-RPC message from raw bytes, borrowing from `bytes` wherever
/// possible.
impl<'a> TryFrom<&'a [u8]> for JsonRpcIncoming<'a> {
    type Error = Error;

    fn try_from(bytes: &'a [u8]) -> (incoming: Result<Self, Error>)
        ensures
            comes_out(incoming, decoded(bytes@, opens_batch(bytes@, 0))),
            incoming matches Ok(m) ==> strings_borrowed(m, bytes@),
    {
        let mut p: usize = 0;
        while p < bytes.len() && (bytes[p] == 0x20 || bytes[p] == 0x09 || bytes[p] == 0x0a
            || bytes[p] == 0x0c || bytes[p] == 0x0d)
            invariant
                p <= bytes@.len(),
                opens_batch(bytes@, 0) == opens_batch(bytes@, p as int),
            decreases bytes.len() - p,
        {
            p = p + 1;
        }
        let batch = p < bytes.len() && bytes[p] == 0x5b;
        decode(bytes, batch)
    }
}

impl<'a> vstd::std_specs::convert::TryFromSpecImpl<&'a [u8]> for JsonRpcIncoming<'a> {
    open spec fn obeys_try_from_spec() -> bool {
        false
    }

    open spec fn try_from_spec(bytes: &'a [u8]) -> Result<Self, Error> {
        arbitrary()
    }
}

/// Whether the outcome of a call is the outcome of parsing `text` with `parse`.
pub open spec fn parsed<T, F: FnOnce(&str) -> Result<T, serde_json::Error>>(
    parse: F,
    text: Seq<char>,
    outcome: Result<T, Error>,
) -> bool {
    exists|s: &str, r: Result<T, serde_json::Error>|
        {
            &&& s@ == text
            &&& #[trigger] call_ensures(parse, (s,), r)
            &&& outcome == match r {
                Ok(value) => Ok::<T, Error>(value),
                Err(e) => Err::<T, Error>(Error::SerdeError(e)),
            }
        }
}

/// Whether `response` is what a message comes to, for who waits for the reply
/// to the request `expected_id`.
pub open spec fn settles_request<T, F: FnOnce(&str) -> Result<T, serde_json::Error>>(
    message: IncomingView,
    expected_id: RequestId,
    parse: F,
    response: Result<T, Error>,
) -> bool {
    match message {
        IncomingView::Response(r) => if r.id == expected_id {
            parsed(parse, r.result.text, response)
        } else {
            response matches Err(e) && e.is_invalid_message(WRONG_RESPONSE_ID@)
        },
        IncomingView::ErrorResponse(r) => if r.id is None || r.id == Some(expected_id) {
            response matches Err(e) && e.stands_for(r)
        } else {
            response matches Err(e) && e.is_invalid_message(WRONG_ERROR_ID@)
        },
        IncomingView::Notification(_) => response matches Err(e) && e.is_invalid_message(
            UNEXPECTED_NOTIFICATION@,
        ),
        IncomingView::BatchResponse(_) => response matches Err(e) && e.is_invalid_message(
            UNEXPECTED_BATCH@,
        ),
    }
}

/// Decodes a single (non-batch) response for `expected_id`: the shape a
/// one-request-per-connection transport (e.g. HTTP) needs. The message is
/// matched against `expected_id`, its result is handed to `parse`, an error
/// response is mapped to [`Error::RpcError`], and a notification or a batch is
/// rejected as unexpected for a single in-flight request. Transports that
/// multiplex many in-flight requests over one connection (e.g. WebSocket)
/// typically route replies by id through a lookup table instead, and don't fit
/// this shape.
pub fn decode_single_response<T, F: FnOnce(&str) -> Result<T, serde_json::Error>>(
    incoming: JsonRpcIncoming<'_>,
    expected_id: RequestId,
    parse: F,
) -> (response: Result<T, Error>)
    requires
        forall|s: &str| call_requires(parse, (s,)),
    ensures
        settles_request(incoming@, expected_id, parse, response),
{
    match incoming {
        JsonRpcIncoming::Response(r) => {
            if r.id != expected_id {
                return Err(Error::InvalidMessage(WRONG_RESPONSE_ID));
            }
            match parse(r.result.get()) {
                Ok(value) => Ok(value),
                Err(e) => Err(Error::SerdeError(e)),
            }
        },
        JsonRpcIncoming::ErrorResponse(r) => {
            if let Some(id) = r.id {
                if id != expected_id {
                    return Err(Error::InvalidMessage(WRONG_ERROR_ID));
                }
            }
            Err(Error::from(r))
        },
        JsonRpcIncoming::Notification(_) => Err(Error::InvalidMessage(UNEXPECTED_NOTIFICATION)),
        JsonRpcIncoming::BatchResponse(_) => Err(Error::InvalidMessage(UNEXPECTED_BATCH)),
    }
}

/// Whether the texts that an item carries are pieces of `data`.
pub open spec fn item_borrows_from(item: BatchItemView, data: Seq<u8>) -> bool {
    match item {
        BatchItemView::Response(r) => r.result.lies_in(data),
        BatchItemView::ErrorResponse(e) => e.error.data matches Some(d) ==> d.lies_in(data),
    }
}

/// Whether the texts that a message carries are pieces of `data`.
pub open spec fn borrows_from(message: IncomingView, data: Seq<u8>) -> bool {
    match message {
        IncomingView::Response(r) => r.result.lies_in(data),
        IncomingView::ErrorResponse(e) => e.error.data matches Some(d) ==> d.lies_in(data),
        IncomingView::Notification(n) => n.params matches Some(p) ==> p.lies_in(data),
        IncomingView::BatchResponse(items) => forall|i: int|
            0 <= i < items.len() ==> item_borrows_from(#[trigger] items[i], data),
    }
}

proof fn lemma_probes_lie_in(data: Seq<u8>, spans: Seq<SpanView>)
    requires
        forall|k: int| 0 <= k < spans.len() ==> (#[trigger] spans[k]).within(data),
    ensures
        probes_at(data, spans) matches Some(probes) ==> {
            &&& probes.len() == spans.len()
            &&& forall|k: int|
                0 <= k < probes.len() ==> probe_of(spans[k].of(data), spans[k].start, 2) == Some(
                    #[trigger] probes[k],
                )
        },
    decreases spans.len(),
{
    if spans.len() > 0 {
        lemma_probes_lie_in(data, spans.drop_last());
    }
}

/// A batch is accepted whole: there is one item for each of its probes, and it
/// is the response that this probe is.
pub proof fn law_batch_keeps_every_item(probes: Seq<ProbeView>)
    ensures
        responses_of(probes) matches Ok(items) ==> {
            &&& items.len() == probes.len()
            &&& forall|i: int|
                0 <= i < items.len() ==> response_of(probes[i]) == Some(
                    Ok::<BatchItemView, Seq<char>>(#[trigger] items[i]),
                )
        },
        responses_of(probes) is Err ==> exists|i: int|
            0 <= i < probes.len() && !(response_of(#[trigger] probes[i]) matches Some(Ok(_))),
    decreases probes.len(),
{
    if probes.len() > 0 {
        law_batch_keeps_every_item(probes.drop_last());
        if responses_of(probes) is Err {
            if responses_of(probes.drop_last()) is Err {
                let i = choose|i: int|
                    0 <= i < probes.drop_last().len() && !(response_of(
                        #[trigger] probes.drop_last()[i],
                    ) matches Some(Ok(_)));
                assert(probes.drop_last()[i] == probes[i]);
            } else {
                assert(probes.last() == probes[probes.len() - 1]);
            }
        }
    }
}

/// Decoding copies no JSON text: the params, result or error data that a decoded
/// message carries is the piece of the message that stands where it says it
/// does.
pub proof fn law_decoding_borrows(data: Seq<u8>, batch: bool)
    ensures
        decoded(data, batch) matches Ok(message) ==> borrows_from(message, data),
{
    if batch {
        if let Ok(message) = decoded(data, batch) {
            let p = skip_space(data, 0);
            lemma_elements_within(data, p + 1, true);
            let spans = elements_from(data, p + 1, true)->Some_0;
            let probes = batch_of(data)->Some_0;
            lemma_probes_lie_in(data, spans);
            law_batch_keeps_every_item(probes);
            let items = responses_of(probes)->Ok_0;
            assert forall|i: int| 0 <= i < items.len() implies item_borrows_from(
                #[trigger] items[i],
                data,
            ) by {
                let item = items[i];
                assert(response_of(probes[i]) == Some(Ok::<BatchItemView, Seq<char>>(item)));
                assert(probe_of(spans[i].of(data), spans[i].start, 2) == Some(probes[i]));
                lemma_probe_lies_in(data, spans[i].start, spans[i].of(data), 2);
            }
        }
    } else {
        assert(data.subrange(0, data.len() as int) =~= data);
        lemma_probe_lies_in(data, 0, data, 1);
    }
}

/// What becomes of a message depends on which members it has: an error makes
/// it an error response, else a result makes it a response (`null` being as
/// good a result as any), else a method without an id makes it a notification,
/// whose params, where it has any, have to be an object or an array. A method
/// with an id, `null` included, is a request, and this client handles none.
pub proof fn law_shape_decides(text: Seq<u8>)
    requires
        probe_of(text, 0, 1) is Some,
    ensures
        ({
            let probe = probe_of(text, 0, 1)->Some_0;
            let outcome = decoded(text, false);
            &&& probe.error matches Some(error) ==> outcome == Ok::<IncomingView, Refusal>(
                IncomingView::ErrorResponse(
                    (ErrorResponseView { id: probe.id.request_id(), error }),
                ),
            )
            &&& probe.error is None && probe.result is Some ==> (outcome is Ok <==> probe.id
                is Value)
            &&& outcome matches Ok(IncomingView::Response(r)) ==> {
                &&& probe.error is None
                &&& probe.result == Some(r.result)
                &&& probe.id == ProbeId::Value(r.id)
            }
            &&& outcome matches Ok(IncomingView::Notification(n)) ==> {
                &&& probe.error is None && probe.result is None
                &&& probe.id == ProbeId::Absent
                &&& probe.method == Some(n.method)
                &&& probe.params == n.params
            }
            &&& probe.error is None && probe.result is None && probe.method is Some && probe.id
                == ProbeId::Absent ==> (if probe.params matches Some(raw) && !structured(raw.text) {
                outcome == Err::<IncomingView, Refusal>(Refusal::Invalid(UNSTRUCTURED_PARAMS@))
            } else {
                outcome is Ok
            })
            &&& probe.error is None && probe.result is None && probe.method is Some && probe.id
                != ProbeId::Absent ==> outcome == Err::<IncomingView, Refusal>(
                Refusal::Invalid(INBOUND_REQUEST@),
            )
            &&& probe.error is None && probe.result is None && probe.method is None ==> outcome
                == Err::<IncomingView, Refusal>(Refusal::Invalid(NO_SHAPE@))
        }),
{
}

/// Nothing is accepted that does not name the version of the protocol: neither
/// a message on its own nor any element of a batch.
pub proof fn law_version_is_required(text: Seq<u8>)
    ensures
        decoded(text, false) is Ok ==> (fields_of(text, PROBE_FIELDS@) matches Some(f)
            && version_ok(text, f[0])),
        decoded(text, true) is Ok ==> {
            &&& elements_from(text, skip_space(text, 0) + 1, true) matches Some(spans)
            &&& forall|i: int|
                0 <= i < spans.len() ==> (fields_of(
                    (#[trigger] spans[i]).of(text),
                    PROBE_FIELDS@,
                ) matches Some(f) && version_ok(spans[i].of(text), f[0]))
        },
{
    if decoded(text, true) is Ok {
        let p = skip_space(text, 0);
        lemma_elements_within(text, p + 1, true);
        let spans = elements_from(text, p + 1, true)->Some_0;
        lemma_probes_lie_in(text, spans);
        let probes = batch_of(text)->Some_0;
        assert forall|i: int| 0 <= i < spans.len() implies (fields_of(
            (#[trigger] spans[i]).of(text),
            PROBE_FIELDS@,
        ) matches Some(f) && version_ok(spans[i].of(text), f[0])) by {
            assert(probe_of(spans[i].of(text), spans[i].start, 2) == Some(probes[i]));
        }
    }
}

/// A batch holds nothing but responses: one with a notification or a request
/// in it is refused.
pub proof fn law_batch_holds_only_responses(probes: Seq<ProbeView>, i: int)
    requires
        0 <= i < probes.len(),
        probes[i].error is None,
        probes[i].result is None,
    ensures
        responses_of(probes) is Err,
{
    law_batch_keeps_every_item(probes);
    if let Ok(items) = responses_of(probes) {
        let item = items[i];
        assert(response_of(probes[i]) == Some(Ok::<BatchItemView, Seq<char>>(item)));
    }
}

proof fn lemma_ascii_head(bytes: Seq<u8>)
    requires
        bytes.len() > 0,
        vstd::utf8::valid_utf8(bytes),
        bytes[0] <= 0x7f,
    ensures
        vstd::utf8::valid_utf8(bytes.drop_first()),
        vstd::utf8::decode_utf8(bytes).len() > 0,
        vstd::utf8::decode_utf8(bytes)[0] == bytes[0] as char,
        vstd::utf8::decode_utf8(bytes).drop_first() == vstd::utf8::decode_utf8(
            bytes.drop_first(),
        ),
{
    let first = bytes[0];
    assert(first & 0x7f == first) by (bit_vector)
        requires
            first <= 0x7f,
    ;
    assert(vstd::utf8::pop_first_scalar(bytes) =~= bytes.drop_first());
    let rest = vstd::utf8::decode_utf8(bytes.drop_first());
    assert(vstd::utf8::decode_utf8(bytes) =~= seq![first as char] + rest);
    assert((seq![first as char] + rest).drop_first() =~= rest);
}

proof fn lemma_skip_space_shifts(bytes: Seq<u8>, pos: int)
    requires
        bytes.len() > 0,
        0 <= pos,
    ensures
        skip_space(bytes, pos + 1) == skip_space(bytes.drop_first(), pos) + 1,
    decreases bytes.len() - pos,
{
    if pos + 1 < bytes.len() {
        assert(bytes.drop_first()[pos] == bytes[pos + 1]);
        lemma_skip_space_shifts(bytes, pos + 1);
    }
}

/// Behind JSON whitespace, an opening bracket is seen for what it is.
pub proof fn lemma_opens_at_token(bytes: Seq<u8>, pos: int)
    requires
        0 <= pos <= bytes.len(),
        skip_space(bytes, pos) < bytes.len(),
        !ascii_space(bytes[skip_space(bytes, pos)]),
    ensures
        opens_batch(bytes, pos) == (bytes[skip_space(bytes, pos)] == 0x5b),
    decreases bytes.len() - pos,
{
    if pos < bytes.len() && json_space_byte(bytes[pos]) {
        lemma_opens_at_token(bytes, pos + 1);
    }
}

/// Behind JSON whitespace, an opening bracket is seen alike in text and bytes.
proof fn lemma_bracket_seen(bytes: Seq<u8>)
    requires
        vstd::utf8::valid_utf8(bytes),
        skip_space(bytes, 0) < bytes.len(),
        bytes[skip_space(bytes, 0)] == 0x5b || bytes[skip_space(bytes, 0)] == 0x7b,
    ensures
        (first_visible(vstd::utf8::decode_utf8(bytes)) == Some('[')) == (bytes[skip_space(
            bytes,
            0,
        )] == 0x5b),
    decreases bytes.len(),
{
    lemma_ascii_head(bytes);
    if json_space_byte(bytes[0]) {
        let rest = bytes.drop_first();
        lemma_skip_space_shifts(bytes, 0);
        lemma_skip_space(rest, 0);
        assert(rest[skip_space(rest, 0)] == bytes[skip_space(bytes, 0)]);
        lemma_bracket_seen(rest);
    }
}

/// A message decodes alike, whether it is given as text or as bytes.
pub proof fn law_text_and_bytes_decode_alike(text: Seq<char>)
    ensures
        ({
            let bytes = vstd::utf8::encode_utf8(text);
            decoded(bytes, first_visible(text) == Some('[')) == decoded(
                bytes,
                opens_batch(bytes, 0),
            )
        }),
{
    let bytes = vstd::utf8::encode_utf8(text);
    lemma_decoded_text(bytes, text);
    let p = skip_space(bytes, 0);
    if p < bytes.len() && (bytes[p] == 0x5b || bytes[p] == 0x7b) {
        lemma_bracket_seen(bytes);
        lemma_opens_at_token(bytes, 0);
    }
}

} // verus!
