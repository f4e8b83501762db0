//! One HTTP POST per call.

use jsonrpc_client::batch::downcast_outcome;
use jsonrpc_client::call::{
    prepare_batch, prepare_notification, prepare_request, without_reply,
};
use jsonrpc_client::http::{ensure_success, finish_batch, finish_request, Status};
use jsonrpc_client::{
    BatchBuilder, BatchResponseItem, DowncastResponse, Error, JsonRpcErrorCode, MethodIdBuf,
    RequestId, RequestIdManager, Serialized, Unserialized,
};
use serde::de::DeserializeOwned;
use serde::Serialize;
use std::any::Any;

const OK: Status<'static> = Status {
    code: 200,
    line: "200 OK",
};

/// A response whose type is forgotten.
struct Erased(Box<dyn Any + Send + Sync>);

impl DowncastResponse for Erased {
    fn downcast_response<T: 'static>(self) -> Result<T, Error> {
        downcast_outcome(self.0.downcast::<T>().ok().map(|b| *b))
    }
}

type ResponseParser = Box<dyn Fn(&str) -> BatchResponseItem<Erased> + Send + Sync>;

/// The parser of a request that expects a `T`.
fn expecting<T: DeserializeOwned + Send + Sync + 'static>() -> ResponseParser {
    Box::new(|v: &str| match serde_json::from_str::<T>(v) {
        Ok(value) => Ok(Erased(Box::new(value))),
        Err(e) => Err(Error::SerdeError(e)),
    })
}

fn number(text: &str) -> Result<i64, serde_json::Error> {
    serde_json::from_str(text)
}

/// Sends a request for `method` to a server that answers with `body`.
fn request(method: &'static str, status: Status<'_>, body: &str) -> Result<i64, Error> {
    let mut ids = RequestIdManager::new();
    let prepared = prepare_request(MethodIdBuf::new(method), None, &mut ids).unwrap();
    finish_request(status, body.as_bytes(), prepared.id, number)
}

/// Sends a batch of the requests `a` and `b` to a server that answers with
/// `body`.
fn two_requests(body: &str) -> Result<Vec<BatchResponseItem<Erased>>, Error> {
    let mut ids = RequestIdManager::new();
    let mut builder = BatchBuilder::new();
    builder.add_request("a", None, expecting::<i64>()).unwrap();
    builder.add_request("b", None, expecting::<i64>()).unwrap();
    let prepared = prepare_batch(builder, &mut ids).unwrap().unwrap();
    assert_eq!(
        prepared.payload,
        r#"[{"jsonrpc":"2.0","id":0,"method":"a"},{"jsonrpc":"2.0","id":1,"method":"b"}]"#
    );
    finish_batch(
        OK,
        body.as_bytes(),
        prepared.range.unwrap(),
        prepared.parsers,
    )
}

fn values(results: Vec<BatchResponseItem<Erased>>) -> Vec<i64> {
    results
        .into_iter()
        .map(|r| r.unwrap().downcast_response::<i64>().unwrap())
        .collect()
}

/// What serializing `value` gives.
fn serialized<T: Serialize + ?Sized>(value: &T) -> Serialized {
    let mut written = Vec::new();
    match serde_json::to_writer(&mut written, value) {
        Ok(()) => Ok(String::from_utf8(written).unwrap()),
        Err(error) => Err(Unserialized { written, error }),
    }
}

#[test]
fn request_round_trip_returns_deserialized_result() {
    let result = request("ping", OK, r#"{"jsonrpc":"2.0","id":0,"result":42}"#).unwrap();
    assert_eq!(result, 42);
}

#[test]
fn request_maps_error_response_to_rpc_error() {
    let result = request(
        "missing",
        OK,
        r#"{"jsonrpc":"2.0","id":0,"error":{"code":-32601,"message":"Method not found"}}"#,
    );
    assert!(matches!(
        result,
        Err(Error::RpcError {
            code: JsonRpcErrorCode::MethodNotFound,
            ..
        })
    ));
}

#[test]
fn request_rejects_response_with_mismatched_id() {
    let result = request("ping", OK, r#"{"jsonrpc":"2.0","id":99,"result":42}"#);
    assert!(matches!(
        result,
        Err(Error::InvalidMessage("response id does not match request id"))
    ));
}

#[test]
fn request_maps_malformed_body_to_serde_error() {
    let result = request("ping", OK, "not json");
    assert!(matches!(result, Err(Error::SerdeError(_))));
}

#[test]
fn request_rejects_non_success_status_before_parsing_body() {
    let status = Status {
        code: 500,
        line: "500 Internal Server Error",
    };
    let result = request("ping", status, "<html>oops</html>");
    match result {
        Err(Error::TransportError(text)) => assert_eq!(
            text,
            "HTTP request failed with status 500 Internal Server Error"
        ),
        _ => panic!("expected a transport error"),
    }
}

#[test]
fn lib_batch_request_zips_responses_to_requests_in_order() {
    let results = two_requests(
        r#"[{"jsonrpc":"2.0","id":0,"result":1},{"jsonrpc":"2.0","id":1,"result":2}]"#,
    )
    .unwrap();
    assert_eq!(values(results), vec![1, 2]);
}

#[test]
fn batch_request_correlates_out_of_order_responses_by_id() {
    let results = two_requests(
        r#"[{"jsonrpc":"2.0","id":1,"result":2},{"jsonrpc":"2.0","id":0,"result":1}]"#,
    )
    .unwrap();
    assert_eq!(values(results), vec![1, 2]);
}

#[test]
fn batch_request_rejects_response_with_id_gap() {
    let result = two_requests(r#"[{"jsonrpc":"2.0","id":0,"result":1}]"#);
    assert!(matches!(
        result,
        Err(Error::InvalidMessage(
            "batch response item count does not match the sent batch"
        ))
    ));
}

#[test]
fn batch_request_rejects_response_with_duplicate_id() {
    let result = two_requests(
        r#"[{"jsonrpc":"2.0","id":0,"result":1},{"jsonrpc":"2.0","id":0,"result":2}]"#,
    );
    assert!(matches!(
        result,
        Err(Error::InvalidMessage("batch response contains a duplicate id"))
    ));
}

#[test]
fn batch_request_rejects_response_with_foreign_id() {
    let result = two_requests(
        r#"[{"jsonrpc":"2.0","id":0,"result":1},{"jsonrpc":"2.0","id":2,"result":2}]"#,
    );
    assert!(matches!(
        result,
        Err(Error::InvalidMessage(
            "batch response id is outside the range of ids sent"
        ))
    ));
}

#[test]
fn batch_request_rejects_error_without_id() {
    let result = two_requests(
        r#"[{"jsonrpc":"2.0","id":null,"error":{"code":1,"message":"?"}},{"jsonrpc":"2.0","id":7,"result":2}]"#,
    );
    assert!(matches!(
        result,
        Err(Error::InvalidMessage(
            "a batch error response is missing its `id`; can't correlate it to a request"
        ))
    ));
}

#[test]
fn batch_request_rejects_a_reply_that_is_no_batch() {
    let result = two_requests(r#"{"jsonrpc":"2.0","id":0,"result":1}"#);
    assert!(matches!(
        result,
        Err(Error::InvalidMessage("expected a batch response"))
    ));
}

#[test]
fn a_batch_item_can_fail_on_its_own() {
    let results = two_requests(
        r#"[{"jsonrpc":"2.0","id":1,"result":"x"},{"jsonrpc":"2.0","id":0,"error":{"code":-32603,"message":"oops","data":{"a":1}}}]"#,
    )
    .unwrap();
    assert_eq!(results.len(), 2);
    match &results[0] {
        Err(Error::RpcError {
            id,
            code,
            message,
            data,
        }) => {
            assert_eq!(*id, Some(RequestId::new(0)));
            assert_eq!(*code, JsonRpcErrorCode::InternalError);
            assert_eq!(message, "oops");
            assert_eq!(data.as_ref().unwrap().get(), r#"{"a":1}"#);
        }
        _ => panic!("expected an error"),
    }
    assert!(matches!(results[1], Err(Error::SerdeError(_))));
}

#[test]
fn only_a_2xx_status_is_a_success() {
    for (code, ok) in [(199, false), (200, true), (204, true), (299, true), (300, false)] {
        assert_eq!(ensure_success(Status { code, line: "" }).is_ok(), ok);
    }
}

#[test]
fn a_request_takes_its_id_even_if_its_params_are_refused() {
    let mut ids = RequestIdManager::new();
    let params = Some(serialized(&42));
    assert!(matches!(
        prepare_request(MethodIdBuf::new("a"), params, &mut ids),
        Err(Error::InvalidParams)
    ));
    assert_eq!(ids.current_id(), RequestId::new(1));
    let prepared = prepare_request(
        MethodIdBuf::new("say \"hi\""),
        Some(serialized(&["\u{1}", "é"])),
        &mut ids,
    )
    .unwrap();
    assert_eq!(prepared.id, RequestId::new(1));
    assert_eq!(
        prepared.payload,
        "{\"jsonrpc\":\"2.0\",\"id\":1,\"method\":\"say \\\"hi\\\"\",\"params\":[\"\\u0001\",\"é\"]}"
    );
}

#[test]
fn a_notification_has_no_id() {
    let payload = prepare_notification(MethodIdBuf::new("log"), Some(Ok(" [1] ".to_string())));
    assert_eq!(
        payload.unwrap(),
        r#"{"jsonrpc":"2.0","method":"log","params":[1]}"#
    );
}

#[test]
fn a_batch_of_notifications_alone_has_no_range() {
    let mut ids = RequestIdManager::new();
    let mut builder: BatchBuilder<ResponseParser> = BatchBuilder::new();
    builder.add_notification("a", None).unwrap();
    let prepared = prepare_batch(builder, &mut ids).unwrap();
    assert!(matches!(
        without_reply::<Erased, _>(&prepared),
        Some(Some(items)) if items.is_empty()
    ));
    let prepared = prepared.unwrap();
    assert!(prepared.range.is_none());
    assert_eq!(prepared.payload, r#"[{"jsonrpc":"2.0","method":"a"}]"#);
}

#[test]
fn only_an_empty_batch_comes_to_nothing() {
    let mut ids = RequestIdManager::new();
    let builder: BatchBuilder<ResponseParser> = BatchBuilder::default();
    let prepared = prepare_batch(builder, &mut ids).unwrap();
    assert!(prepared.is_none());
    assert!(matches!(without_reply::<Erased, _>(&prepared), Some(None)));

    let mut builder = BatchBuilder::new();
    builder.add_request("a", None, expecting::<i64>()).unwrap();
    let prepared = prepare_batch(builder, &mut ids).unwrap();
    assert!(without_reply::<Erased, _>(&prepared).is_none());
}
