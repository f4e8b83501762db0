//! The members of a message, read without copying them.

use crate::json::{self, RawSlice, RawValue, RawView};
use crate::method_id::{MethodIdBuf, MethodName};
use crate::params::{deserialize_params_with, structured};
use crate::protocol::{
    ErrorView, JsonRpcNotification, JsonRpcResponse, NotificationView, ResponseView,
};
use crate::request_id::RequestId;
use crate::text::lemma_decoded_text;
use crate::version::{JsonRpcVersion, JSONRPC_VERSION};
use crate::wire::{
    check_storable, fields, fields_of, lemma_fields_within, optional_span, storable, Span, SpanView,
};
use std::borrow::Cow;
use vstd::prelude::*;
use vstd::slice::slice_subrange;

verus! {

/// The members of a message, in the order in which an array stands for them.
pub const PROBE_FIELDS: [&'static str; 6] = [
    "jsonrpc",
    "id",
    "method",
    "params",
    "result",
    "error",
];

/// The members of an error object, in the order in which an array stands for
/// them.
pub const ERROR_FIELDS: [&'static str; 3] = ["code", "message", "data"];

/// The `id` member of a message, distinguishing "absent" from "present but
/// `null`" from "present with a value this client didn't issue".
#[derive(Debug, Clone, Copy, PartialEq, Eq, Structural)]
pub enum ProbeId {
    /// There is no such member.
    Absent,
    /// It is `null`.
    Null,
    /// It is a number that this client could have issued.
    Value(RequestId),
    /// It is anything else.
    Other,
}

impl ProbeId {
    /// Whether the member is there at all.
    pub fn is_present(self) -> (present: bool)
        ensures
            present == (self != ProbeId::Absent),
    {
        !matches!(self, ProbeId::Absent)
    }

    /// The id, where it is one that this client could have issued.
    pub open spec fn request_id(self) -> Option<RequestId> {
        match self {
            ProbeId::Value(id) => Some(id),
            _ => None,
        }
    }

    /// The id, where it is one that this client could have issued.
    pub fn value(self) -> (id: Option<RequestId>)
        ensures
            id == self.request_id(),
    {
        match self {
            ProbeId::Value(id) => Some(id),
            _ => None,
        }
    }
}

impl Default for ProbeId {
    fn default() -> (id: Self)
        ensures
            id == ProbeId::Absent,
    {
        ProbeId::Absent
    }
}

/// The `error` member of a message.
#[derive(Debug)]
pub struct ProbeError<'a> {
    pub code: i64,
    pub message: Cow<'a, str>,
    pub data: Option<RawSlice<'a>>,
}

/// What an optional piece of a message is.
pub open spec fn optional_slice(slice: Option<RawSlice<'_>>) -> Option<RawView> {
    match slice {
        None => None,
        Some(s) => Some(s@),
    }
}

/// What an optional string is.
pub open spec fn optional_text(text: Option<Cow<'_, str>>) -> Option<Seq<char>> {
    match text {
        None => None,
        Some(t) => Some(t@),
    }
}

impl<'a> View for ProbeError<'a> {
    type V = ErrorView;

    open spec fn view(&self) -> ErrorView {
        ErrorView { code: self.code, message: self.message@, data: optional_slice(self.data) }
    }
}

/// The members of a message that this client looks at, borrowed from it wherever
/// possible. Which of the accepted shapes they belong to is not decided yet.
#[derive(Debug)]
pub struct Probe<'a> {
    pub jsonrpc: JsonRpcVersion,
    pub id: ProbeId,
    pub method: Option<Cow<'a, str>>,
    pub params: Option<RawSlice<'a>>,
    /// A `result` of `null` is an ordinary success response, so it is there
    /// as the text `null`: `None` means that there is no such member.
    pub result: Option<RawSlice<'a>>,
    pub error: Option<ProbeError<'a>>,
}

/// What a [`Probe`] says.
#[verifier::ext_equal]
pub struct ProbeView {
    pub id: ProbeId,
    pub method: Option<Seq<char>>,
    pub params: Option<RawView>,
    pub result: Option<RawView>,
    pub error: Option<ErrorView>,
}

impl<'a> View for Probe<'a> {
    type V = ProbeView;

    open spec fn view(&self) -> ProbeView {
        ProbeView {
            id: self.id,
            method: optional_text(self.method),
            params: optional_slice(self.params),
            result: optional_slice(self.result),
            error: match self.error {
                None => None,
                Some(e) => Some(e@),
            },
        }
    }
}

/// Whether the value at `span` is `null`.
pub open spec fn is_null(text: Seq<u8>, span: SpanView) -> bool {
    text[span.start] == 0x6e
}

/// One more than the levels of nesting that a value read into memory can have,
/// counted from the outermost level of the message: the recursion limit of
/// `serde_json`.
pub const NESTING_LIMIT: usize = 128;

/// Whether a `jsonrpc` member is there and names the version of the protocol.
pub open spec fn version_ok(text: Seq<u8>, field: Option<SpanView>) -> bool {
    match field {
        None => false,
        Some(span) => json::json_borrowed_str(span.of(text)) == Some(JSONRPC_VERSION@),
    }
}

/// An `id` member `depth` levels deep in the message. A value of another kind
/// than a number is read into memory as well, so it has to be one that can be.
/// The levels around it count toward the limit on nesting.
pub open spec fn id_of(text: Seq<u8>, field: Option<SpanView>, depth: nat) -> Option<ProbeId> {
    match field {
        None => Some(ProbeId::Absent),
        Some(span) => if is_null(text, span) {
            Some(ProbeId::Null)
        } else if !storable(span.of(text), (NESTING_LIMIT - depth) as nat) {
            None
        } else {
            match json::json_u64(span.of(text)) {
                Some(n) => Some(ProbeId::Value(RequestId(n))),
                None => Some(ProbeId::Other),
            }
        },
    }
}

/// A member that is a string, `null` or absent.
pub open spec fn string_of(text: Seq<u8>, field: Option<SpanView>) -> Option<Option<Seq<char>>> {
    match field {
        None => Some(None),
        Some(span) => if is_null(text, span) {
            Some(None)
        } else {
            match json::json_string(span.of(text)) {
                Some(t) => Some(Some(t)),
                None => None,
            }
        },
    }
}

/// A member that is any value or absent, as text. `at` is where in the message
/// `text` begins.
pub open spec fn raw_of(text: Seq<u8>, at: int, field: Option<SpanView>) -> Option<
    Option<RawView>,
> {
    match field {
        None => Some(None),
        Some(span) => if vstd::utf8::valid_utf8(span.of(text)) {
            Some(
                Some(
                    RawView {
                        text: vstd::utf8::decode_utf8(span.of(text)),
                        offset: Some(at + span.start),
                    },
                ),
            )
        } else {
            None
        },
    }
}

/// A member that is any value or absent, as text, `null` being read as absent.
pub open spec fn raw_unless_null(text: Seq<u8>, at: int, field: Option<SpanView>) -> Option<
    Option<RawView>,
> {
    match field {
        None => Some(None),
        Some(span) => if is_null(text, span) {
            Some(None)
        } else {
            raw_of(text, at, field)
        },
    }
}

/// A `code` member.
pub open spec fn code_field(text: Seq<u8>, field: Option<SpanView>) -> Option<i64> {
    match field {
        None => None,
        Some(span) => json::json_i64(span.of(text)),
    }
}

/// A `message` member.
pub open spec fn message_field(text: Seq<u8>, field: Option<SpanView>) -> Option<Seq<char>> {
    match field {
        None => None,
        Some(span) => json::json_string(span.of(text)),
    }
}

/// The error object that `text` is, which begins at `at` in the message.
pub open spec fn error_object(text: Seq<u8>, at: int) -> Option<ErrorView> {
    match fields_of(text, ERROR_FIELDS@) {
        None => None,
        Some(f) => match (
            code_field(text, f[0]),
            message_field(text, f[1]),
            raw_unless_null(text, at, f[2]),
        ) {
            (Some(code), Some(message), Some(data)) => Some(ErrorView { code, message, data }),
            _ => None,
        },
    }
}

/// An `error` member, `null` being read as absent.
pub open spec fn error_field(text: Seq<u8>, at: int, field: Option<SpanView>) -> Option<
    Option<ErrorView>,
> {
    match field {
        None => Some(None),
        Some(span) => if is_null(text, span) {
            Some(None)
        } else {
            match error_object(span.of(text), at + span.start) {
                Some(e) => Some(Some(e)),
                None => None,
            }
        },
    }
}

/// The probe that `text` reads as, which begins at `at` in the message, `depth`
/// being the level of its members.
pub open spec fn probe_of(text: Seq<u8>, at: int, depth: nat) -> Option<ProbeView> {
    match fields_of(text, PROBE_FIELDS@) {
        None => None,
        Some(f) => if version_ok(text, f[0]) {
            match (
                id_of(text, f[1], depth),
                string_of(text, f[2]),
                raw_unless_null(text, at, f[3]),
                raw_of(text, at, f[4]),
                error_field(text, at, f[5]),
            ) {
                (Some(id), Some(method), Some(params), Some(result), Some(error)) => Some(
                    ProbeView { id, method, params, result, error },
                ),
                _ => None,
            }
        } else {
            None
        },
    }
}

/// Whether a member is a string that can be borrowed as it stands, without an
/// escape sequence.
pub open spec fn plain_string(text: Seq<u8>, field: Option<SpanView>) -> bool {
    field matches Some(span) && json::json_borrowed_str(span.of(text)) is Some
}

/// Whether the `message` member of the error object `text` can be borrowed.
pub open spec fn plain_error_message(text: Seq<u8>) -> bool {
    fields_of(text, ERROR_FIELDS@) matches Some(f) && plain_string(text, f[1])
}

/// Whether the `method` member of the message `text` can be borrowed.
pub open spec fn plain_method(text: Seq<u8>) -> bool {
    fields_of(text, PROBE_FIELDS@) matches Some(f) && plain_string(text, f[2])
}

/// Whether the `message` of the `error` member of the message `text` can be
/// borrowed.
pub open spec fn plain_message(text: Seq<u8>) -> bool {
    fields_of(text, PROBE_FIELDS@) matches Some(f) && f[5] matches Some(span)
        && plain_error_message(span.of(text))
}

impl<'a> Probe<'a> {
    /// Whether the strings of a probe of `text` are borrowed wherever possible.
    pub open spec fn borrows_strings(self, text: Seq<u8>) -> bool {
        &&& self.method matches Some(method) ==> (method is Borrowed <==> plain_method(text))
        &&& self.error matches Some(error) ==> (error.message is Borrowed <==> plain_message(text))
    }
}

/// Reads a string, borrowing it where it stands in `text` as it is, without an
/// escape sequence.
fn read_text<'a>(text: &'a [u8]) -> (s: Result<Cow<'a, str>, serde_json::Error>)
    ensures
        s is Ok <==> json::json_string(text@) is Some,
        s matches Ok(t) ==> {
            &&& json::json_string(text@) == Some(t@)
            &&& t is Borrowed <==> json::json_borrowed_str(text@) is Some
        },
{
    match json::borrowed_str(text) {
        Ok(t) => Ok(Cow::Borrowed(t)),
        Err(_) => match json::string(text) {
            Ok(t) => Ok(Cow::Owned(t)),
            Err(e) => Err(e),
        },
    }
}

/// Reads a `jsonrpc` member.
fn read_version(text: &[u8], field: Option<Span>) -> (version: Result<
    JsonRpcVersion,
    serde_json::Error,
>)
    requires
        field matches Some(span) ==> span@.within(text@),
    ensures
        version is Ok <==> version_ok(text@, optional_span(field)),
{
    match field {
        None => Err(json::custom_error("missing field `jsonrpc`")),
        Some(span) => match json::borrowed_str(slice_subrange(text, span.start, span.end)) {
            Err(e) => Err(e),
            Ok(s) => match JsonRpcVersion::parse(s) {
                Some(version) => Ok(version),
                None => Err(json::custom_error("invalid JSON-RPC version")),
            },
        },
    }
}

/// Reads an `id` member.
fn read_id(text: &[u8], field: Option<Span>, depth: usize) -> (id: Result<
    ProbeId,
    serde_json::Error,
>)
    requires
        field matches Some(span) ==> span@.within(text@),
        depth <= NESTING_LIMIT,
    ensures
        id is Ok <==> id_of(text@, optional_span(field), depth as nat) is Some,
        id matches Ok(i) ==> id_of(text@, optional_span(field), depth as nat) == Some(i),
{
    match field {
        None => Ok(ProbeId::Absent),
        Some(span) => {
            if text[span.start] == 0x6e {
                return Ok(ProbeId::Null);
            }
            let value = slice_subrange(text, span.start, span.end);
            match check_storable(value, NESTING_LIMIT - depth) {
                Err(e) => Err(e),
                Ok(()) => match json::unsigned(value) {
                    Ok(n) => Ok(ProbeId::Value(RequestId::new(n))),
                    Err(_) => Ok(ProbeId::Other),
                },
            }
        },
    }
}

/// Reads a member that is a string, `null` or absent.
fn read_string<'a>(text: &'a [u8], field: Option<Span>) -> (s: Result<
    Option<Cow<'a, str>>,
    serde_json::Error,
>)
    requires
        field matches Some(span) ==> span@.within(text@),
    ensures
        s is Ok <==> string_of(text@, optional_span(field)) is Some,
        s matches Ok(t) ==> string_of(text@, optional_span(field)) == Some(optional_text(t)),
        s matches Ok(Some(t)) ==> (t is Borrowed <==> plain_string(text@, optional_span(field))),
{
    match field {
        None => Ok(None),
        Some(span) => {
            if text[span.start] == 0x6e {
                return Ok(None);
            }
            match read_text(slice_subrange(text, span.start, span.end)) {
                Ok(t) => Ok(Some(t)),
                Err(e) => Err(e),
            }
        },
    }
}

/// Reads a member that is any value or absent, as text.
fn read_raw<'a>(text: &'a [u8], at: usize, field: Option<Span>) -> (raw: Result<
    Option<RawSlice<'a>>,
    serde_json::Error,
>)
    requires
        field matches Some(span) ==> span@.within(text@),
        at + text@.len() <= usize::MAX,
    ensures
        raw is Ok <==> raw_of(text@, at as int, optional_span(field)) is Some,
        raw matches Ok(r) ==> raw_of(text@, at as int, optional_span(field)) == Some(
            optional_slice(r),
        ),
{
    match field {
        None => Ok(None),
        Some(span) => {
            let value = slice_subrange(text, span.start, span.end);
            match core::str::from_utf8(value) {
                Ok(t) => {
                    proof {
                        lemma_decoded_text(value@, t@);
                    }
                    Ok(Some(RawSlice { text: t, offset: at + span.start }))
                },
                Err(_) => Err(json::custom_error("invalid unicode code point")),
            }
        },
    }
}

/// Reads a member that is any value or absent, as text, `null` being read as
/// absent.
fn read_raw_unless_null<'a>(text: &'a [u8], at: usize, field: Option<Span>) -> (raw: Result<
    Option<RawSlice<'a>>,
    serde_json::Error,
>)
    requires
        field matches Some(span) ==> span@.within(text@),
        at + text@.len() <= usize::MAX,
    ensures
        raw is Ok <==> raw_unless_null(text@, at as int, optional_span(field)) is Some,
        raw matches Ok(r) ==> raw_unless_null(text@, at as int, optional_span(field)) == Some(
            optional_slice(r),
        ),
{
    match field {
        None => Ok(None),
        Some(span) => if text[span.start] == 0x6e {
            Ok(None)
        } else {
            read_raw(text, at, field)
        },
    }
}

/// Reads an error object.
fn read_error_object<'a>(text: &'a [u8], at: usize) -> (error: Result<
    ProbeError<'a>,
    serde_json::Error,
>)
    requires
        at + text@.len() <= usize::MAX,
    ensures
        error is Ok <==> error_object(text@, at as int) is Some,
        error matches Ok(e) ==> error_object(text@, at as int) == Some(e@),
        error matches Ok(e) ==> (e.message is Borrowed <==> plain_error_message(text@)),
{
    let names = ERROR_FIELDS;
    let f = match fields(text, names.as_slice()) {
        Ok(f) => f,
        Err(e) => return Err(e),
    };
    let code = match f[0] {
        None => return Err(json::custom_error("missing field `code`")),
        Some(span) => match json::signed(slice_subrange(text, span.start, span.end)) {
            Ok(code) => code,
            Err(e) => return Err(e),
        },
    };
    let message = match f[1] {
        None => return Err(json::custom_error("missing field `message`")),
        Some(span) => match read_text(slice_subrange(text, span.start, span.end)) {
            Ok(message) => message,
            Err(e) => return Err(e),
        },
    };
    let data = match read_raw_unless_null(text, at, f[2]) {
        Ok(data) => data,
        Err(e) => return Err(e),
    };
    Ok(ProbeError { code, message, data })
}

/// Reads an `error` member.
fn read_error<'a>(text: &'a [u8], at: usize, field: Option<Span>) -> (error: Result<
    Option<ProbeError<'a>>,
    serde_json::Error,
>)
    requires
        field matches Some(span) ==> span@.within(text@),
        at + text@.len() <= usize::MAX,
    ensures
        error is Ok <==> error_field(text@, at as int, optional_span(field)) is Some,
        error matches Ok(e) ==> error_field(text@, at as int, optional_span(field)) == Some(
            match e {
                None => None,
                Some(object) => Some(object@),
            },
        ),
        error matches Ok(Some(e)) ==> (e.message is Borrowed <==> plain_error_message(
            optional_span(field)->Some_0.of(text@),
        )),
{
    match field {
        None => Ok(None),
        Some(span) => {
            if text[span.start] == 0x6e {
                return Ok(None);
            }
            let value = slice_subrange(text, span.start, span.end);
            match read_error_object(value, at + span.start) {
                Ok(e) => Ok(Some(e)),
                Err(e) => Err(e),
            }
        },
    }
}

/// Reads the members of a message that this client looks at. `at` is where in
/// the message `text` begins, and `depth` the level of its members.
pub fn read_probe<'a>(text: &'a [u8], at: usize, depth: usize) -> (probe: Result<
    Probe<'a>,
    serde_json::Error,
>)
    requires
        at + text@.len() <= usize::MAX,
        depth <= NESTING_LIMIT,
    ensures
        probe is Ok <==> probe_of(text@, at as int, depth as nat) is Some,
        probe matches Ok(p) ==> probe_of(text@, at as int, depth as nat) == Some(p@),
        probe matches Ok(p) ==> p.borrows_strings(text@),
{
    let names = PROBE_FIELDS;
    let f = match fields(text, names.as_slice()) {
        Ok(f) => f,
        Err(e) => return Err(e),
    };
    let jsonrpc = match read_version(text, f[0]) {
        Ok(version) => version,
        Err(e) => return Err(e),
    };
    let id = match read_id(text, f[1], depth) {
        Ok(id) => id,
        Err(e) => return Err(e),
    };
    let method = match read_string(text, f[2]) {
        Ok(method) => method,
        Err(e) => return Err(e),
    };
    let params = match read_raw_unless_null(text, at, f[3]) {
        Ok(params) => params,
        Err(e) => return Err(e),
    };
    let result = match read_raw(text, at, f[4]) {
        Ok(result) => result,
        Err(e) => return Err(e),
    };
    let error = match read_error(text, at, f[5]) {
        Ok(error) => error,
        Err(e) => return Err(e),
    };
    Ok(Probe { jsonrpc, id, method, params, result, error })
}

/// The members of a notification, in the order in which an array stands for
/// them.
pub const NOTIFICATION_FIELDS: [&'static str; 3] = ["jsonrpc", "method", "params"];

/// The members of a success response, in the order in which an array stands
/// for them.
pub const RESPONSE_FIELDS: [&'static str; 3] = ["jsonrpc", "id", "result"];

/// The notification that `text` reads as. Params may be omitted; if they are
/// there and not `null`, they have to be a Structured value.
pub open spec fn notification_of(text: Seq<u8>) -> Option<NotificationView> {
    match fields_of(text, NOTIFICATION_FIELDS@) {
        None => None,
        Some(f) => match f[1] {
            Some(method) => match (
                json::json_string(method.of(text)),
                raw_unless_null(text, 0, f[2]),
            ) {
                (Some(method), Some(params)) => if version_ok(text, f[0]) && (params matches Some(
                    raw,
                ) ==> structured(raw.text)) {
                    Some(NotificationView { method, params })
                } else {
                    None
                },
                _ => None,
            },
            None => None,
        },
    }
}

/// The success response that `text` reads as. All members have to be there.
pub open spec fn response_alone(text: Seq<u8>) -> Option<ResponseView> {
    match fields_of(text, RESPONSE_FIELDS@) {
        None => None,
        Some(f) => match (f[1], raw_of(text, 0, f[2])) {
            (Some(id), Some(Some(result))) => match json::json_u64(id.of(text)) {
                Some(n) => if version_ok(text, f[0]) {
                    Some(ResponseView { id: RequestId(n), result: result.owned() })
                } else {
                    None
                },
                None => None,
            },
            _ => None,
        },
    }
}

impl<'a> JsonRpcNotification<'a> {
    /// Reads a notification, which borrows its params from `text`.
    pub fn from_json(text: &'a [u8]) -> (notification: Result<Self, serde_json::Error>)
        ensures
            notification is Ok <==> notification_of(text@) is Some,
            notification matches Ok(n) ==> notification_of(text@) == Some(n@),
            notification matches Ok(n) ==> n.method is Owned,
    {
        let names = NOTIFICATION_FIELDS;
        let f = match fields(text, names.as_slice()) {
            Ok(f) => f,
            Err(e) => return Err(e),
        };
        assert(text.len() <= usize::MAX);
        let jsonrpc = match read_version(text, f[0]) {
            Ok(version) => version,
            Err(e) => return Err(e),
        };
        let method = match f[1] {
            None => return Err(json::custom_error("missing field `method`")),
            Some(span) => match json::string(slice_subrange(text, span.start, span.end)) {
                Ok(method) => method,
                Err(e) => return Err(e),
            },
        };
        let raw = match read_raw_unless_null(text, 0, f[2]) {
            Ok(None) => None,
            Ok(Some(slice)) => Some(RawValue::Borrowed(slice)),
            Err(e) => return Err(e),
        };
        let params = match deserialize_params_with(raw) {
            Ok(params) => params,
            Err(e) => return Err(e),
        };
        Ok(
            JsonRpcNotification {
                jsonrpc,
                method: MethodName::Owned(MethodIdBuf::from(method)),
                params,
            },
        )
    }
}

impl<'a> JsonRpcResponse<'a> {
    /// Reads a success response, which owns its result.
    pub fn from_json(text: &[u8]) -> (response: Result<Self, serde_json::Error>)
        ensures
            response is Ok <==> response_alone(text@) is Some,
            response matches Ok(r) ==> response_alone(text@) == Some(r@),
            response matches Ok(r) ==> r.result is Owned,
    {
        let names = RESPONSE_FIELDS;
        let f = match fields(text, names.as_slice()) {
            Ok(f) => f,
            Err(e) => return Err(e),
        };
        assert(text.len() <= usize::MAX);
        let jsonrpc = match read_version(text, f[0]) {
            Ok(version) => version,
            Err(e) => return Err(e),
        };
        let id = match f[1] {
            None => return Err(json::custom_error("missing field `id`")),
            Some(span) => match json::unsigned(slice_subrange(text, span.start, span.end)) {
                Ok(n) => RequestId::new(n),
                Err(e) => return Err(e),
            },
        };
        let result = match read_raw(text, 0, f[2]) {
            Ok(None) => return Err(json::custom_error("missing field `result`")),
            Ok(Some(slice)) => RawValue::Owned(slice.text.to_owned()),
            Err(e) => return Err(e),
        };
        Ok(JsonRpcResponse { jsonrpc, id, result })
    }
}

proof fn lemma_raw_lies_in(data: Seq<u8>, at: int, text: Seq<u8>, field: Option<SpanView>)
    requires
        0 <= at <= at + text.len() <= data.len(),
        text == data.subrange(at, at + text.len()),
        field matches Some(span) ==> span.within(text),
    ensures
        raw_of(text, at, field) matches Some(Some(raw)) ==> raw.lies_in(data),
        raw_unless_null(text, at, field) matches Some(Some(raw)) ==> raw.lies_in(data),
{
    if let Some(span) = field {
        let bytes = span.of(text);
        if vstd::utf8::valid_utf8(bytes) {
            vstd::utf8::decode_utf8_encode_utf8(bytes);
            assert(data.subrange(at + span.start, at + span.end) =~= bytes);
        }
    }
}

/// The texts that a probe carries are pieces of the message.
pub proof fn lemma_probe_lies_in(data: Seq<u8>, at: int, text: Seq<u8>, depth: nat)
    requires
        0 <= at <= at + text.len() <= data.len(),
        text == data.subrange(at, at + text.len()),
    ensures
        probe_of(text, at, depth) matches Some(probe) ==> {
            &&& probe.params matches Some(raw) ==> raw.lies_in(data)
            &&& probe.result matches Some(raw) ==> raw.lies_in(data)
            &&& probe.error matches Some(e) ==> (e.data matches Some(raw) ==> raw.lies_in(data))
        },
{
    if let Some(probe) = probe_of(text, at, depth) {
        lemma_fields_within(text, PROBE_FIELDS@);
        let f = fields_of(text, PROBE_FIELDS@)->Some_0;
        lemma_raw_lies_in(data, at, text, f[3]);
        lemma_raw_lies_in(data, at, text, f[4]);
        if let Some(span) = f[5] {
            if !is_null(text, span) {
                let inner = span.of(text);
                assert(inner =~= data.subrange(at + span.start, at + span.end));
                lemma_fields_within(inner, ERROR_FIELDS@);
                let g = fields_of(inner, ERROR_FIELDS@)->Some_0;
                lemma_raw_lies_in(data, at + span.start, inner, g[2]);
            }
        }
    }
}

} // verus!
