//! Error codes of the protocol, and every way a call can fail.

use crate::json::{optional_raw, RawValue};
use crate::protocol::{ErrorResponseView, JsonRpcErrorResponse};
use crate::request_id::RequestId;
use crate::text::own_text;
use core::str::Utf8Error;
use core::time::Duration;
use serde_json::Error as SerdeJsonError;
use vstd::prelude::*;

verus! {

/// The number of [`JsonRpcErrorCode::ParseError`] on the wire.
pub const PARSE_ERROR: i64 = -32700;

/// The number of [`JsonRpcErrorCode::InvalidRequest`] on the wire.
pub const INVALID_REQUEST: i64 = -32600;

/// The number of [`JsonRpcErrorCode::MethodNotFound`] on the wire.
pub const METHOD_NOT_FOUND: i64 = -32601;

/// The number of [`JsonRpcErrorCode::InvalidParams`] on the wire.
pub const INVALID_PARAMS: i64 = -32602;

/// The number of [`JsonRpcErrorCode::InternalError`] on the wire.
pub const INTERNAL_ERROR: i64 = -32603;

/// A JSON-RPC error code. The protocol reserves `-32768..=-32000` for a
/// handful of standard, pre-defined errors; anything outside that range is
/// application-defined and round-trips through `Other`/`ServerError` without
/// loss.
#[derive(Debug, Clone, Copy, PartialEq, Eq, Structural)]
pub enum JsonRpcErrorCode {
    /// Invalid JSON was received by the server.
    ParseError,
    /// The JSON sent is not a valid Request object.
    InvalidRequest,
    /// The method does not exist or is not available.
    MethodNotFound,
    /// Invalid method parameter(s).
    InvalidParams,
    /// Internal JSON-RPC error.
    InternalError,
    /// Reserved for implementation-defined server errors (`-32099..=-32000`).
    ServerError(i64),
    /// Any other code.
    Other(i64),
}

/// The error code that a number on the wire stands for.
pub open spec fn code_of(n: i64) -> JsonRpcErrorCode {
    if n == PARSE_ERROR {
        JsonRpcErrorCode::ParseError
    } else if n == INVALID_REQUEST {
        JsonRpcErrorCode::InvalidRequest
    } else if n == METHOD_NOT_FOUND {
        JsonRpcErrorCode::MethodNotFound
    } else if n == INVALID_PARAMS {
        JsonRpcErrorCode::InvalidParams
    } else if n == INTERNAL_ERROR {
        JsonRpcErrorCode::InternalError
    } else if -32099 <= n <= -32000 {
        JsonRpcErrorCode::ServerError(n)
    } else {
        JsonRpcErrorCode::Other(n)
    }
}

/// The number that an error code has on the wire.
pub open spec fn number_of(code: JsonRpcErrorCode) -> i64 {
    match code {
        JsonRpcErrorCode::ParseError => PARSE_ERROR,
        JsonRpcErrorCode::InvalidRequest => INVALID_REQUEST,
        JsonRpcErrorCode::MethodNotFound => METHOD_NOT_FOUND,
        JsonRpcErrorCode::InvalidParams => INVALID_PARAMS,
        JsonRpcErrorCode::InternalError => INTERNAL_ERROR,
        JsonRpcErrorCode::ServerError(n) => n,
        JsonRpcErrorCode::Other(n) => n,
    }
}

impl From<i64> for JsonRpcErrorCode {
    fn from(code: i64) -> (c: Self) {
        if code == PARSE_ERROR {
            JsonRpcErrorCode::ParseError
        } else if code == INVALID_REQUEST {
            JsonRpcErrorCode::InvalidRequest
        } else if code == METHOD_NOT_FOUND {
            JsonRpcErrorCode::MethodNotFound
        } else if code == INVALID_PARAMS {
            JsonRpcErrorCode::InvalidParams
        } else if code == INTERNAL_ERROR {
            JsonRpcErrorCode::InternalError
        } else if -32099 <= code && code <= -32000 {
            JsonRpcErrorCode::ServerError(code)
        } else {
            JsonRpcErrorCode::Other(code)
        }
    }
}

impl vstd::std_specs::convert::FromSpecImpl<i64> for JsonRpcErrorCode {
    open spec fn obeys_from_spec() -> bool {
        true
    }

    open spec fn from_spec(code: i64) -> Self {
        code_of(code)
    }
}

impl From<JsonRpcErrorCode> for i64 {
    fn from(code: JsonRpcErrorCode) -> (n: i64) {
        match code {
            JsonRpcErrorCode::ParseError => PARSE_ERROR,
            JsonRpcErrorCode::InvalidRequest => INVALID_REQUEST,
            JsonRpcErrorCode::MethodNotFound => METHOD_NOT_FOUND,
            JsonRpcErrorCode::InvalidParams => INVALID_PARAMS,
            JsonRpcErrorCode::InternalError => INTERNAL_ERROR,
            JsonRpcErrorCode::ServerError(n) => n,
            JsonRpcErrorCode::Other(n) => n,
        }
    }
}

impl vstd::std_specs::convert::FromSpecImpl<JsonRpcErrorCode> for i64 {
    open spec fn obeys_from_spec() -> bool {
        true
    }

    open spec fn from_spec(code: JsonRpcErrorCode) -> Self {
        number_of(code)
    }
}

/// No number is lost on its way through an error code.
pub proof fn law_error_code_keeps_the_number(n: i64)
    ensures
        number_of(code_of(n)) == n,
{
}

/// An error code that stands for a number of its own class comes back from the
/// wire as itself. (`ServerError` and `Other` can be built around a number of
/// another class; it is that other class that comes back then.)
pub proof fn law_error_code_comes_back(code: JsonRpcErrorCode)
    requires
        code matches JsonRpcErrorCode::ServerError(n) ==> -32099 <= n <= -32000,
        code matches JsonRpcErrorCode::Other(n) ==> code_of(n) is Other,
    ensures
        code_of(number_of(code)) == code,
{
}

/// Every way a client-side JSON-RPC call can fail: a wire-level error response
/// from the peer, a malformed or unexpected message, a local serialization
/// failure, a transport failure, or a client-enforced condition like a timeout
/// or a missed notification.
#[derive(Debug)]
pub enum Error {
    /// The peer answered with a JSON-RPC error object. `id` is `None` only
    /// when the peer itself couldn't determine which request this error
    /// belongs to (e.g. on a parse error).
    RpcError {
        id: Option<RequestId>,
        code: JsonRpcErrorCode,
        message: String,
        data: Option<RawValue<'static>>,
    },
    /// Failed to serialize an outgoing message or deserialize an incoming one
    /// as valid JSON.
    SerdeError(serde_json::Error),
    /// Params failed to serialize to a JSON-RPC Structured value (an Array or
    /// Object), the only shapes the protocol allows for `params`.
    InvalidParams,
    /// Text that should have been UTF-8 was not.
    InvalidUTF8Str(Utf8Error),
    /// No response arrived before the request's configured timeout elapsed.
    RequestTimeout(Duration),
    /// A message was valid JSON but didn't have a shape this client accepts,
    /// e.g. missing `result`/`error`, an id that doesn't match any pending
    /// request, or a wire shape this client doesn't handle.
    InvalidMessage(&'static str),
    /// The underlying transport (HTTP, WebSocket, ...) failed independently of
    /// the JSON-RPC protocol itself: a connection drop, a non-2xx HTTP status,
    /// a DNS failure, etc.
    TransportError(String),
    /// A notification stream fell behind its bounded internal channel and
    /// dropped this many notifications before catching back up.
    NotificationsMissed(u64),
}

impl Error {
    /// Whether this is the error for a message of the wrong shape, with this
    /// explanation.
    pub open spec fn is_invalid_message(self, explanation: Seq<char>) -> bool {
        self matches Error::InvalidMessage(m) && m@ == explanation
    }

    /// Whether this is the error that stands for an error response: its id,
    /// the code of its number, its message and its data.
    pub open spec fn stands_for(self, response: ErrorResponseView) -> bool {
        &&& self matches Error::RpcError { id, code, message, data }
        &&& id == response.id
        &&& code == code_of(response.error.code)
        &&& message@ == response.error.message
        &&& optional_raw(data) == match response.error.data {
            None => None,
            Some(raw) => Some(raw.owned()),
        }
    }
}

impl<'a> From<JsonRpcErrorResponse<'a>> for Error {
    fn from(response: JsonRpcErrorResponse<'a>) -> (e: Self)
        ensures
            e.stands_for(response@),
    {
        let data = match response.error.data {
            None => None,
            Some(raw) => Some(raw.into_owned()),
        };
        Error::RpcError {
            id: response.id,
            code: JsonRpcErrorCode::from(response.error.code),
            message: own_text(response.error.message),
            data,
        }
    }
}

impl<'a> vstd::std_specs::convert::FromSpecImpl<JsonRpcErrorResponse<'a>> for Error {
    open spec fn obeys_from_spec() -> bool {
        false
    }

    open spec fn from_spec(response: JsonRpcErrorResponse<'a>) -> Self {
        arbitrary()
    }
}

impl From<SerdeJsonError> for Error {
    fn from(e: SerdeJsonError) -> (error: Self) {
        Error::SerdeError(e)
    }
}

impl vstd::std_specs::convert::FromSpecImpl<SerdeJsonError> for Error {
    open spec fn obeys_from_spec() -> bool {
        true
    }

    open spec fn from_spec(e: SerdeJsonError) -> Self {
        Error::SerdeError(e)
    }
}

impl From<Utf8Error> for Error {
    fn from(e: Utf8Error) -> (error: Self) {
        Error::InvalidUTF8Str(e)
    }
}

impl vstd::std_specs::convert::FromSpecImpl<Utf8Error> for Error {
    open spec fn obeys_from_spec() -> bool {
        true
    }

    open spec fn from_spec(e: Utf8Error) -> Self {
        Error::InvalidUTF8Str(e)
    }
}

} // verus!
