//! Calls over a WebSocket.

use jsonrpc_client::builder::WsClientBuilder;
use jsonrpc_client::handles::{handle_message, Frame, Routing};
use jsonrpc_client::pending::{PendingBatchRequests, PendingRequests};
use jsonrpc_client::ws::{
    begin_batch, begin_request, effective_timeout, finish_batch, finish_request, settle_batch,
    settle_request, CallEnd, DEFAULT_REQUEST_TIMEOUT_SECS, NOTIFICATION_CHANNEL_CAPACITY,
};
use jsonrpc_client::{
    BatchBuilder, BatchResponseItem, Error, MethodIdBuf, RequestId, RequestIdManager,
};
use std::time::Duration;

type Parser = fn(&str) -> BatchResponseItem<u64>;

fn number(text: &str) -> BatchResponseItem<u64> {
    serde_json::from_str(text).map_err(Error::SerdeError)
}

#[test]
fn a_request_goes_out_and_its_reply_comes_back() {
    let mut ids = RequestIdManager::new();
    let mut pending = PendingRequests::new();
    let mut pending_batches = PendingBatchRequests::new();
    let (call, _) = begin_request(MethodIdBuf::new("ping"), None, 1, &mut ids, &mut pending).unwrap();
    assert_eq!(
        call.payload,
        r#"{"jsonrpc":"2.0","id":0,"method":"ping"}"#
    );
    assert!(pending.contains_key(call.id));

    let reply = r#"{"jsonrpc":"2.0","id":0,"result": 42 }"#;
    let range = match handle_message(reply.as_bytes(), &mut pending, &mut pending_batches) {
        Routing::Deliver { waiter: 1, reply } => settle_request(
            call.id,
            Duration::from_secs(1),
            CallEnd::Replied(reply),
            &mut pending,
        )
        .unwrap(),
        _ => panic!("expected a delivery"),
    };
    let value = finish_request(Frame::Text(reply), range.clone(), |bytes: &[u8]| {
        serde_json::from_slice::<i64>(bytes)
    });
    assert_eq!(value.unwrap(), 42);
    assert!(matches!(
        finish_request(Frame::Text(reply), range, |bytes: &[u8]| {
            serde_json::from_slice::<String>(bytes)
        }),
        Err(Error::SerdeError(_))
    ));
    assert!(matches!(
        finish_request(Frame::Pong, 0..0, |bytes: &[u8]| {
            serde_json::from_slice::<i64>(bytes)
        }),
        Err(Error::InvalidMessage("expected a Text or Binary message"))
    ));
}

#[test]
fn a_request_that_is_refused_is_not_in_flight() {
    let mut ids = RequestIdManager::new();
    let mut pending = PendingRequests::new();
    assert!(matches!(
        begin_request(
            MethodIdBuf::new("ping"),
            Some(Ok("1".to_string())),
            1,
            &mut ids,
            &mut pending
        ),
        Err(Error::InvalidParams)
    ));
    assert!(pending.is_empty());
    assert_eq!(ids.current_id(), RequestId::new(1));
}

#[test]
fn a_request_that_is_given_up_is_not_in_flight() {
    let timeout = Duration::from_millis(100);
    let mut ids = RequestIdManager::new();
    let mut pending = PendingRequests::new();
    let mut pending_batches = PendingBatchRequests::new();

    let (call, _) = begin_request(MethodIdBuf::new("a"), None, 1, &mut ids, &mut pending).unwrap();
    assert!(matches!(
        settle_request(call.id, timeout, CallEnd::TimedOut, &mut pending),
        Err(Error::RequestTimeout(t)) if t == timeout
    ));
    assert!(pending.is_empty());
    let late = br#"{"jsonrpc":"2.0","id":0,"result":1}"#;
    assert!(matches!(
        handle_message(late, &mut pending, &mut pending_batches),
        Routing::Ignore
    ));

    let (call, _) = begin_request(MethodIdBuf::new("a"), None, 1, &mut ids, &mut pending).unwrap();
    assert!(matches!(
        settle_request(
            call.id,
            timeout,
            CallEnd::SendFailed("broken pipe".to_string()),
            &mut pending
        ),
        Err(Error::TransportError(text)) if text == "broken pipe"
    ));
    assert!(pending.is_empty());

    let (call, _) = begin_request(MethodIdBuf::new("a"), None, 1, &mut ids, &mut pending).unwrap();
    assert!(matches!(
        settle_request(
            call.id,
            timeout,
            CallEnd::Abandoned("channel closed".to_string()),
            &mut pending
        ),
        Err(Error::TransportError(text)) if text == "channel closed"
    ));
    assert!(pending.contains_key(call.id));

    ids.reset();
    ids.reserve_range(call.id.get()).unwrap();
    let (again, replaced) =
        begin_request(MethodIdBuf::new("a"), None, 8, &mut ids, &mut pending).unwrap();
    assert_eq!((again.id, replaced), (call.id, Some(1)));
}

#[test]
fn client_batch_request_zips_responses_to_requests_in_order() {
    let mut ids = RequestIdManager::new();
    let mut pending = PendingRequests::new();
    let mut pending_batches = PendingBatchRequests::new();
    let mut builder: BatchBuilder<Parser> = BatchBuilder::new();
    builder.add_request("a", None, number as Parser).unwrap();
    builder.add_request("b", None, number as Parser).unwrap();
    let (call, _) = begin_batch(builder, 3, &mut ids, &mut pending_batches)
        .unwrap()
        .unwrap();
    let range = call.range.unwrap();
    assert!(pending_batches.contains_key(*range.start(), *range.end()));

    let reply = r#"[{"jsonrpc":"2.0","id":0,"result":0},{"jsonrpc":"2.0","id":1,"result":1}]"#;
    let items = match handle_message(reply.as_bytes(), &mut pending, &mut pending_batches) {
        Routing::DeliverBatch { waiter: 3, items } => settle_batch(
            &range,
            Duration::from_secs(1),
            CallEnd::Replied(Ok(items)),
            &mut pending_batches,
        )
        .unwrap(),
        _ => panic!("expected a delivery"),
    };
    let results = finish_batch(Frame::Binary(reply.as_bytes()), items, call.parsers).unwrap();
    let values: Vec<u64> = results.into_iter().map(|r| r.unwrap()).collect();
    assert_eq!(values, vec![0, 1]);
}

#[test]
fn a_batch_that_is_given_up_is_not_in_flight() {
    let mut ids = RequestIdManager::new();
    let mut pending = PendingBatchRequests::new();
    let timeout = Duration::from_secs(2);
    let mut builder: BatchBuilder<Parser> = BatchBuilder::new();
    builder.add_request("a", None, number as Parser).unwrap();
    let (call, _) = begin_batch(builder, 3, &mut ids, &mut pending).unwrap().unwrap();
    let range = call.range.unwrap();
    assert!(matches!(
        settle_batch(&range, timeout, CallEnd::TimedOut, &mut pending),
        Err(Error::RequestTimeout(t)) if t == timeout
    ));
    assert!(pending.is_empty());

    let mut builder: BatchBuilder<Parser> = BatchBuilder::new();
    builder.add_notification("a", None).unwrap();
    let (call, _) = begin_batch(builder, 3, &mut ids, &mut pending).unwrap().unwrap();
    assert!(call.range.is_none());
    assert!(pending.is_empty());
    let builder: BatchBuilder<Parser> = BatchBuilder::new();
    assert!(begin_batch(builder, 3, &mut ids, &mut pending)
        .unwrap()
        .is_none());
}

#[test]
fn each_item_of_a_batch_is_read_on_its_own() {
    let bytes = b"12\xff34";
    let items = vec![
        Ok(0..2),
        Ok(2..3),
        Err(Error::InvalidParams),
        Ok(3..5),
        Ok(0..1),
    ];
    let parsers: Vec<Parser> = vec![number, number, number, number];
    let results = finish_batch(Frame::Binary(bytes), items, parsers).unwrap();
    assert_eq!(results.len(), 4);
    assert!(matches!(results[0], Ok(12)));
    assert!(matches!(
        results[1],
        Err(Error::InvalidMessage("response was not valid UTF-8"))
    ));
    assert!(matches!(results[2], Err(Error::InvalidParams)));
    assert!(matches!(results[3], Ok(34)));
    assert!(matches!(
        finish_batch(Frame::Close, Vec::new(), vec![number as Parser]),
        Err(Error::InvalidMessage("expected a Text or Binary message"))
    ));
}

#[test]
fn the_timeout_of_the_call_takes_precedence() {
    let call = Duration::from_secs(1);
    let configured = Duration::from_secs(2);
    assert_eq!(effective_timeout(Some(call), Some(configured)), call);
    assert_eq!(effective_timeout(Some(call), None), call);
    assert_eq!(effective_timeout(None, Some(configured)), configured);
    assert_eq!(effective_timeout(None, None), Duration::from_secs(30));
    assert_eq!(DEFAULT_REQUEST_TIMEOUT_SECS, 30);
    assert_eq!(NOTIFICATION_CHANNEL_CAPACITY, 100);
}

#[test]
fn a_client_starts_with_nothing_in_flight() {
    let inner = WsClientBuilder::from_websocket_client("connection")
        .ping_interval(Duration::from_secs(5))
        .request_timeout(Duration::from_secs(6))
        .build();
    assert_eq!(inner.client, "connection");
    assert_eq!(inner.ping_interval, Some(Duration::from_secs(5)));
    assert_eq!(inner.request_timeout, Some(Duration::from_secs(6)));
    assert_eq!(inner.request_id_manager.current_id(), RequestId::new(0));
    assert!(inner.pending_requests.is_empty());
    assert!(inner.pending_batch_requests.is_empty());
    let inner = WsClientBuilder::from_websocket_client(()).build();
    assert_eq!((inner.ping_interval, inner.request_timeout), (None, None));
}

#[test]
fn a_batch_with_refused_params_is_not_begun() {
    let mut ids = RequestIdManager::new();
    let mut pending = PendingBatchRequests::new();
    let mut builder: BatchBuilder<Parser> = BatchBuilder::new();
    builder.add_request("a", None, number as Parser).unwrap();
    assert!(builder.add_request("b", Some(Ok("1".to_string())), number as Parser).is_err());
    assert!(matches!(
        begin_batch(builder, 3, &mut ids, &mut pending),
        Err(Error::InvalidParams)
    ));
    assert_eq!(ids.current_id(), RequestId::new(0));

    let mut builder: BatchBuilder<Parser> = BatchBuilder::new();
    builder.add_request("a", None, number as Parser).unwrap();
    let (_, replaced) = begin_batch(builder, 4, &mut ids, &mut pending).unwrap().unwrap();
    assert!(replaced.is_none());
}
