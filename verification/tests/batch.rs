//! Batches of requests and notifications.

use jsonrpc_client::batch::{downcast_outcome, response_parser};
use jsonrpc_client::{
    BatchBuilder, BatchResponseItem, DowncastResponse, Error, JsonRpcOutgoing, JsonRpcRequest,
    RequestId, RequestIdManager, Serialized, Unserialized,
};
use serde::de::DeserializeOwned;
use serde::Serialize;
use std::any::Any;

/// A response whose type is forgotten.
struct Erased(Box<dyn Any + Send + Sync>);

impl DowncastResponse for Erased {
    fn downcast_response<T: 'static>(self) -> Result<T, Error> {
        downcast_outcome(self.0.downcast::<T>().ok().map(|b| *b))
    }
}

type ResponseParser = Box<dyn Fn(&str) -> BatchResponseItem<Erased> + Send + Sync>;

/// The parser of a request that expects a `T`.
fn expecting<T: DeserializeOwned + Send + Sync + 'static>() -> ResponseParser {
    Box::new(response_parser(
        |text: &str| serde_json::from_str::<T>(text),
        |value: T| Erased(Box::new(value)),
    ))
}

/// What serializing `value` gives.
fn serialized<T: Serialize + ?Sized>(value: &T) -> Serialized {
    let mut written = Vec::new();
    match serde_json::to_writer(&mut written, value) {
        Ok(()) => Ok(String::from_utf8(written).unwrap()),
        Err(error) => Err(Unserialized { written, error }),
    }
}

#[test]
fn build_returns_none_for_empty_batch() {
    let mut idmgr = RequestIdManager::new();
    let builder: BatchBuilder<ResponseParser> = BatchBuilder::new();
    assert!(builder.build(&mut idmgr).unwrap().is_none());
    assert_eq!(idmgr.current_id(), RequestId::new(0));
}

#[test]
fn build_reserves_contiguous_range_matching_request_count() {
    let mut idmgr = RequestIdManager::new();
    let mut builder = BatchBuilder::new();
    builder.add_request("a", None, expecting::<i32>()).unwrap();
    builder.add_request("b", None, expecting::<i32>()).unwrap();
    builder.add_request("c", None, expecting::<i32>()).unwrap();

    let batch = builder.build(&mut idmgr).unwrap().unwrap();
    let range = batch.request_id_range.clone().unwrap();
    let requests: Vec<&JsonRpcRequest> = batch
        .items
        .iter()
        .map(|item| match item {
            JsonRpcOutgoing::Request(req) => req,
            JsonRpcOutgoing::Notification(_) => panic!("expected only requests"),
        })
        .collect();

    assert_eq!(requests.len(), 3);
    assert_eq!(*range.start(), requests[0].id);
    assert_eq!(*range.end(), requests[2].id);
    assert_eq!(u64::from(*range.end()) - u64::from(*range.start()) + 1, 3);
}

#[test]
fn build_includes_notification_only_batch_without_reserving_ids() {
    let mut idmgr = RequestIdManager::new();
    let mut builder: BatchBuilder<ResponseParser> = BatchBuilder::new();
    builder.add_notification("ping", None).unwrap();
    builder.add_notification("pong", None).unwrap();

    let batch = builder.build(&mut idmgr).unwrap().unwrap();
    assert!(batch.request_id_range.is_none());
    assert_eq!(batch.items.len(), 2);
    assert!(
        batch
            .items
            .iter()
            .all(|item| matches!(item, JsonRpcOutgoing::Notification(_)))
    );
    assert_eq!(idmgr.current_id(), RequestId::new(0));
}

#[test]
fn add_request_propagates_param_serialization_errors() {
    let mut builder = BatchBuilder::new();
    assert!(
        builder
            .add_request("a", Some(serialized(&42i32)), expecting::<i32>())
            .is_err()
    );
}

#[test]
fn add_request_closure_roundtrips_through_downcast() {
    let mut idmgr = RequestIdManager::new();
    let mut builder = BatchBuilder::new();
    builder.add_request("a", None, expecting::<i32>()).unwrap();

    let batch = builder.build(&mut idmgr).unwrap().unwrap();
    let parser = &batch.parsers[0];

    let boxed = parser("42").unwrap();
    assert_eq!(boxed.downcast_response::<i32>().unwrap(), 42);

    let boxed = parser("42").unwrap();
    assert!(matches!(
        boxed.downcast_response::<String>(),
        Err(Error::InvalidMessage(_))
    ));
}

#[test]
fn build_propagates_whichever_failed_first() {
    let mut idmgr = RequestIdManager::new();
    let mut builder = BatchBuilder::new();
    builder.add_request("a", None, expecting::<i32>()).unwrap();
    assert!(matches!(
        builder.add_request("b", Some(serialized(&42i32)), expecting::<i32>()),
        Err(Error::InvalidParams)
    ));
    assert!(matches!(
        builder.add_notification("c", Some(Ok("[1".to_string()))),
        Err(Error::SerdeError(_))
    ));
    builder.add_notification("d", None).unwrap();
    assert!(matches!(
        builder.build(&mut idmgr),
        Err(Error::InvalidParams)
    ));
    assert_eq!(idmgr.current_id(), RequestId::new(0));

    let mut builder: BatchBuilder<ResponseParser> = BatchBuilder::default();
    assert!(matches!(
        builder.add_notification("c", Some(Ok("[1".to_string()))),
        Err(Error::SerdeError(_))
    ));
    assert!(matches!(
        builder.add_notification("c", Some(Ok("1".to_string()))),
        Err(Error::InvalidParams)
    ));
    assert!(matches!(
        builder.build(&mut idmgr),
        Err(Error::SerdeError(_))
    ));
    assert_eq!(idmgr.current_id(), RequestId::new(0));
}

#[test]
fn a_parser_reports_a_reply_that_it_cannot_read() {
    let parser = expecting::<i32>();
    assert!(matches!(parser("\"x\""), Err(Error::SerdeError(_))));
    assert_eq!(parser("7").unwrap().downcast_response::<i32>().unwrap(), 7);
    assert!(matches!(
        parser("7").unwrap().downcast_response::<u8>(),
        Err(Error::InvalidMessage("batch response type mismatch"))
    ));
}

#[test]
fn each_request_has_its_own_parser() {
    let mut idmgr = RequestIdManager::new();
    let mut builder = BatchBuilder::new();
    builder.add_request("a", None, expecting::<i32>()).unwrap();
    builder.add_notification("n", None).unwrap();
    builder.add_request("b", None, expecting::<String>()).unwrap();
    let batch = builder.build(&mut idmgr).unwrap().unwrap();
    assert_eq!(batch.parsers.len(), 2);
    let number = (batch.parsers[0])("5").unwrap();
    assert_eq!(number.downcast_response::<i32>().unwrap(), 5);
    let text = (batch.parsers[1])("\"x\"").unwrap();
    assert_eq!(text.downcast_response::<String>().unwrap(), "x");
    assert!(matches!(
        (batch.parsers[0])("\"x\""),
        Err(Error::SerdeError(_))
    ));
    assert!(matches!((batch.parsers[1])("5"), Err(Error::SerdeError(_))));
}
