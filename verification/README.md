# jsonrpc_client

The client side of JSON-RPC 2.0: protocol types, a zero-copy decoder, request
batching, and what a client over HTTP or over a WebSocket decides. The library
is verified with Verus: each function states in its contract what it returns, and
the laws that relate several functions are proved beside them.

It is client-only. It writes outbound requests and notifications and decodes
inbound responses and notifications, but rejects inbound requests.

## Layout

`src/` is the verified library.

| Module | What it holds |
|---|---|
| `protocol`, `version`, `method_id`, `error` | The messages, as values and as they are written. |
| `params` | Params: what is fit to be sent. |
| `request_id` | Request ids and their allocation. |
| `batch` | Batches of requests and notifications. |
| `json`, `wire`, `probe`, `decode`, `space` | From the bytes of a message to what it says. |
| `correlate`, `slots` | Which items of a batch reply answer which requests. |
| `call`, `http` | Calls over HTTP: what to send, and what the reply means. |
| `pending`, `handles`, `ws`, `builder` | Calls over a WebSocket: who waits, where messages go, what the reply means. |
| `cli`, `text` | The command line; text helpers. |

What JSON text is, is asked of `serde_json`; calls in flight are kept in a
`dashmap`, small params in a `smallvec`. What the library believes of them stands
in `json.rs`, `pending.rs` and `params.rs`, each claim in the contract of the
function that makes the call.

`app/` is a command line program around the library: it sends and receives over
`reqwest` and `stream-tungstenite`, serializes params and parses results.

`tests/` runs the library with the real crates linked.
