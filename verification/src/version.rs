//! The protocol version marker.

use crate::text::str_eq;
use vstd::prelude::*;

verus! {

/// The JSON-RPC protocol version this crate speaks: the protocol fixes it at
/// `"2.0"`.
pub const JSONRPC_VERSION: &'static str = "2.0";

/// Zero-sized marker for the `"jsonrpc": "2.0"` member every JSON-RPC message
/// carries. It is written as the literal string `"2.0"`, and nothing else is
/// read as it.
#[derive(Debug, Clone, Copy, PartialEq, Eq, Structural)]
pub struct JsonRpcVersion;

impl JsonRpcVersion {
    /// Reads the text of a `jsonrpc` member.
    pub fn parse(text: &str) -> (version: Option<JsonRpcVersion>)
        ensures
            version is Some <==> text@ == JSONRPC_VERSION@,
    {
        if str_eq(text, JSONRPC_VERSION) {
            Some(JsonRpcVersion)
        } else {
            None
        }
    }

    /// The text of a `jsonrpc` member.
    pub fn as_str(&self) -> (text: &'static str)
        ensures
            text@ == JSONRPC_VERSION@,
    {
        JSONRPC_VERSION
    }
}

impl Default for JsonRpcVersion {
    fn default() -> (version: Self)
        ensures
            version == JsonRpcVersion,
    {
        JsonRpcVersion
    }
}

} // verus!
