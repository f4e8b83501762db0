//! Client-side building blocks for the JSON-RPC 2.0 wire protocol: request,
//! notification and response types ([`protocol`]), a
//! zero-copy decoder for incoming messages ([`decode`]), request id allocation
//! ([`request_id`]), batch request building ([`batch`]), and what a client does
//! over HTTP ([`http`]) or over a WebSocket ([`ws`], [`handles`]). Sending and
//! receiving are left to the program around the library.
//!
//! The library is client-only: it writes outbound requests and notifications
//! and decodes inbound responses and notifications, but rejects any inbound
//! message shaped as a request (see [`decode`]). It cannot be used to implement
//! a JSON-RPC server.

pub mod batch;
pub mod builder;
pub mod call;
pub mod cli;
pub mod correlate;
pub mod decode;
pub mod error;
pub mod handles;
pub mod http;
pub mod json;
pub mod laws;
pub mod method_id;
pub mod params;
pub mod pending;
pub mod probe;
pub mod protocol;
pub mod request_id;
pub mod slots;
pub mod space;
pub mod text;
pub mod version;
pub mod wire;
pub mod ws;

pub use batch::{Batch, BatchBuilder, BatchResponseItem, DowncastResponse};
pub use decode::{decode_single_response, JsonRpcBatchResponse, JsonRpcIncoming};
pub use error::{Error, JsonRpcErrorCode};
pub use json::{RawSlice, RawValue};
pub use method_id::{MethodId, MethodIdBuf, MethodName};
pub use params::{IntoOptionParams, Params, ParamsBuf, Serialized, Unserialized};
pub use protocol::{
    JsonRpcError, JsonRpcErrorResponse, JsonRpcNotification, JsonRpcOutgoing, JsonRpcOutgoingRef,
    JsonRpcRequest, JsonRpcResponse, Notification,
};
pub use request_id::{RequestId, RequestIdManager};
pub use version::{JsonRpcVersion, JSONRPC_VERSION};
