//! What becomes of the messages and events of a WebSocket connection.

use jsonrpc_client::handles::{
    disconnect_step, fail_pending_requests, handle_message, incoming_step, management_step,
    notification_step, ConnectionChange, DisconnectStep, Frame, IncomingStep, ManagementEvent,
    ManagementStep, Received, Routing,
};
use jsonrpc_client::pending::{PendingBatchRequests, PendingRequests};
use jsonrpc_client::{Error, JsonRpcErrorCode, MethodIdBuf, Notification, RequestId};
use std::ops::Range;

fn value_at(data: &[u8], range: Range<usize>) -> serde_json::Value {
    serde_json::from_slice(&data[range]).unwrap()
}

#[test]
fn handle_message_resolves_pending_request() {
    let mut pending_requests = PendingRequests::new();
    let mut pending_batch_requests = PendingBatchRequests::new();
    pending_requests.insert(RequestId::new(7), 70);

    let data = br#"{"jsonrpc":"2.0","id":7,"result":{"foo":42}}"#;
    let routing = handle_message(data, &mut pending_requests, &mut pending_batch_requests);

    assert!(pending_requests.is_empty());
    match routing {
        Routing::Deliver { waiter, reply } => {
            assert_eq!(waiter, 70);
            let value = value_at(data, reply.unwrap());
            assert_eq!(value["foo"], 42);
            assert_eq!(value.as_object().unwrap().len(), 1);
        }
        _ => panic!("expected a delivery"),
    }
}

#[test]
fn handle_message_resolves_pending_request_as_error() {
    let mut pending_requests = PendingRequests::new();
    let mut pending_batch_requests = PendingBatchRequests::new();
    pending_requests.insert(RequestId::new(1), 10);

    let data = br#"{"jsonrpc":"2.0","id":1,"error":{"code":-32601,"message":"Method not found"}}"#;
    let routing = handle_message(data, &mut pending_requests, &mut pending_batch_requests);

    assert!(pending_requests.is_empty());
    match routing {
        Routing::Deliver { waiter, reply } => {
            assert_eq!(waiter, 10);
            let err = reply.unwrap_err();
            assert!(matches!(err, Error::RpcError { .. }));
        }
        _ => panic!("expected a delivery"),
    }
}

#[test]
fn handle_message_broadcasts_notification() {
    let mut pending_requests = PendingRequests::new();
    let mut pending_batch_requests = PendingBatchRequests::new();

    let data = br#"{"jsonrpc":"2.0","method":"tick","params":[1]}"#;
    match handle_message(data, &mut pending_requests, &mut pending_batch_requests) {
        Routing::Broadcast(notification) => {
            assert_eq!(notification.method, MethodIdBuf::from("tick"));
            assert_eq!(notification.params.unwrap().get(), "[1]");
        }
        _ => panic!("expected a broadcast"),
    }
}

#[test]
fn handle_message_resolves_full_batch() {
    let mut pending_requests = PendingRequests::new();
    let mut pending_batch_requests = PendingBatchRequests::new();
    pending_batch_requests.insert(RequestId::new(1), RequestId::new(3), 5);

    let data = br#"[{"jsonrpc":"2.0","id":1,"result":1},{"jsonrpc":"2.0","id":2,"result":2},{"jsonrpc":"2.0","id":3,"result":3}]"#;
    let routing = handle_message(data, &mut pending_requests, &mut pending_batch_requests);

    assert!(pending_batch_requests.is_empty());
    match routing {
        Routing::DeliverBatch { waiter, items } => {
            assert_eq!(waiter, 5);
            assert_eq!(items.len(), 3);
            for (i, item) in items.into_iter().enumerate() {
                let range = item.unwrap();
                assert_eq!(value_at(data, range), i + 1);
            }
        }
        _ => panic!("expected a delivery"),
    }
}

/// A server may answer a batch out of order; the client must correlate by id,
/// not by position on the wire.
#[test]
fn handle_message_resolves_batch_out_of_order() {
    let mut pending_requests = PendingRequests::new();
    let mut pending_batch_requests = PendingBatchRequests::new();
    pending_batch_requests.insert(RequestId::new(1), RequestId::new(3), 5);

    let data = br#"[{"jsonrpc":"2.0","id":3,"result":"c"},{"jsonrpc":"2.0","id":1,"result":"a"},{"jsonrpc":"2.0","id":2,"result":"b"}]"#;
    match handle_message(data, &mut pending_requests, &mut pending_batch_requests) {
        Routing::DeliverBatch { items, .. } => {
            assert_eq!(items.len(), 3);
            let expected = ["a", "b", "c"];
            for (i, item) in items.into_iter().enumerate() {
                let range = item.unwrap();
                assert_eq!(value_at(data, range), expected[i]);
            }
        }
        _ => panic!("expected a delivery"),
    }
}

#[test]
fn handle_message_ignores_batch_with_gap() {
    let mut pending_requests = PendingRequests::new();
    let mut pending_batch_requests = PendingBatchRequests::new();
    pending_batch_requests.insert(RequestId::new(1), RequestId::new(3), 5);

    let data = br#"[{"jsonrpc":"2.0","id":1,"result":1},{"jsonrpc":"2.0","id":3,"result":3}]"#;
    let routing = handle_message(data, &mut pending_requests, &mut pending_batch_requests);

    assert!(pending_batch_requests.contains_key(RequestId::new(1), RequestId::new(3)));
    assert!(matches!(routing, Routing::Ignore));
}

#[test]
fn handle_message_ignores_batch_with_duplicate_id() {
    let mut pending_requests = PendingRequests::new();
    let mut pending_batch_requests = PendingBatchRequests::new();
    pending_batch_requests.insert(RequestId::new(1), RequestId::new(2), 5);

    let data = br#"[{"jsonrpc":"2.0","id":1,"result":1},{"jsonrpc":"2.0","id":1,"result":99}]"#;
    let routing = handle_message(data, &mut pending_requests, &mut pending_batch_requests);

    assert!(pending_batch_requests.contains_key(RequestId::new(1), RequestId::new(2)));
    assert!(matches!(routing, Routing::Ignore));
}

#[test]
fn fail_pending_requests_drains_and_errors_both_maps() {
    let mut pending_requests = PendingRequests::new();
    let mut pending_batch_requests = PendingBatchRequests::new();
    pending_requests.insert(RequestId::new(1), 11);
    pending_batch_requests.insert(RequestId::new(2), RequestId::new(4), 12);

    let failures =
        fail_pending_requests(&mut pending_requests, &mut pending_batch_requests, "Normal");

    assert!(pending_requests.is_empty());
    assert!(pending_batch_requests.is_empty());
    assert_eq!(failures.requests.len(), 1);
    assert_eq!(failures.requests[0].0, 11);
    assert!(matches!(failures.requests[0].1, Error::TransportError(_)));
    assert_eq!(failures.batches.len(), 1);
    assert_eq!(failures.batches[0].0, 12);
    match &failures.batches[0].1 {
        Error::TransportError(text) => assert_eq!(
            text,
            "connection lost before a response was received: Normal"
        ),
        _ => panic!("expected a transport error"),
    }
}

#[test]
fn failing_returns_every_waiter() {
    let mut pending_requests = PendingRequests::new();
    let mut pending_batch_requests = PendingBatchRequests::new();
    for id in 0..10 {
        pending_requests.insert(RequestId::new(id), 100 + id);
    }
    let failures = fail_pending_requests(&mut pending_requests, &mut pending_batch_requests, "x");
    let mut waiters: Vec<u64> = failures.requests.iter().map(|f| f.0).collect();
    waiters.sort_unstable();
    assert_eq!(waiters, (100..110).collect::<Vec<u64>>());
    assert!(failures.batches.is_empty());
}

#[test]
fn a_reply_settles_its_request_once() {
    let mut pending_requests = PendingRequests::new();
    let mut pending_batch_requests = PendingBatchRequests::new();
    pending_requests.insert(RequestId::new(7), 70);
    pending_requests.insert(RequestId::new(8), 80);

    let data = br#"{"jsonrpc":"2.0","id":7,"result":null}"#;
    assert!(matches!(
        handle_message(data, &mut pending_requests, &mut pending_batch_requests),
        Routing::Deliver { waiter: 70, .. }
    ));
    assert!(matches!(
        handle_message(data, &mut pending_requests, &mut pending_batch_requests),
        Routing::Ignore
    ));
    assert!(!pending_requests.contains_key(RequestId::new(7)));
    assert!(pending_requests.contains_key(RequestId::new(8)));
}

#[test]
fn a_request_that_takes_the_place_of_another_hands_its_ticket_back() {
    let mut pending_requests = PendingRequests::new();
    assert_eq!(pending_requests.insert(RequestId::new(1), 5), None);
    assert_eq!(pending_requests.insert(RequestId::new(1), 6), Some(5));
    assert_eq!(pending_requests.remove(RequestId::new(1)), Some(6));
    assert_eq!(pending_requests.remove(RequestId::new(1)), None);
}

#[test]
fn an_error_response_without_id_settles_nothing() {
    let mut pending_requests = PendingRequests::new();
    let mut pending_batch_requests = PendingBatchRequests::new();
    pending_requests.insert(RequestId::new(7), 70);

    let data = br#"{"jsonrpc":"2.0","id":null,"error":{"code":-32700,"message":"Parse error"}}"#;
    assert!(matches!(
        handle_message(data, &mut pending_requests, &mut pending_batch_requests),
        Routing::Ignore
    ));
    assert!(pending_requests.contains_key(RequestId::new(7)));
}

#[test]
fn a_batch_of_errors_without_ids_settles_nothing() {
    let mut pending_requests = PendingRequests::new();
    let mut pending_batch_requests = PendingBatchRequests::new();
    pending_batch_requests.insert(RequestId::new(0), RequestId::new(0), 5);

    let data = br#"[{"jsonrpc":"2.0","id":null,"error":{"code":-32700,"message":"Parse error"}}]"#;
    assert!(matches!(
        handle_message(data, &mut pending_requests, &mut pending_batch_requests),
        Routing::Ignore
    ));
    assert!(!pending_batch_requests.is_empty());
}

#[test]
fn an_item_without_id_does_not_keep_a_batch_from_being_settled() {
    let mut pending_requests = PendingRequests::new();
    let mut pending_batch_requests = PendingBatchRequests::new();
    pending_batch_requests.insert(RequestId::new(4), RequestId::new(5), 9);

    let data = br#"[{"jsonrpc":"2.0","id":5,"error":{"code":-32000,"message":"busy"}},{"jsonrpc":"2.0","id":null,"error":{"code":1,"message":"?"}},{"jsonrpc":"2.0","id":4,"result":[true]}]"#;
    match handle_message(data, &mut pending_requests, &mut pending_batch_requests) {
        Routing::DeliverBatch { waiter, items } => {
            assert_eq!(waiter, 9);
            assert_eq!(items.len(), 2);
            assert_eq!(&data[items[0].as_ref().unwrap().clone()], b"[true]");
            assert!(matches!(
                items[1],
                Err(Error::RpcError {
                    code: JsonRpcErrorCode::ServerError(-32000),
                    ..
                })
            ));
        }
        _ => panic!("expected a delivery"),
    }
}

#[test]
fn a_batch_with_the_highest_id_twice_is_ignored() {
    let mut pending_requests = PendingRequests::new();
    let mut pending_batch_requests = PendingBatchRequests::new();
    pending_batch_requests.insert(RequestId::new(u64::MAX - 1), RequestId::new(u64::MAX), 5);

    let data = br#"[{"jsonrpc":"2.0","id":18446744073709551615,"result":1},{"jsonrpc":"2.0","id":18446744073709551615,"result":2}]"#;
    assert!(matches!(
        handle_message(data, &mut pending_requests, &mut pending_batch_requests),
        Routing::Ignore
    ));
    assert!(!pending_batch_requests.is_empty());
}

#[test]
fn a_batch_from_the_lowest_to_the_highest_id_is_ignored() {
    let mut pending_requests = PendingRequests::new();
    let mut pending_batch_requests = PendingBatchRequests::new();
    let data = br#"[{"jsonrpc":"2.0","id":18446744073709551615,"result":1},{"jsonrpc":"2.0","id":0,"result":2}]"#;
    assert!(matches!(
        handle_message(data, &mut pending_requests, &mut pending_batch_requests),
        Routing::Ignore
    ));
}

#[test]
fn malformed_frames_are_dropped() {
    let mut pending_requests = PendingRequests::new();
    let mut pending_batch_requests = PendingBatchRequests::new();
    pending_requests.insert(RequestId::new(1), 1);
    assert!(matches!(
        handle_message(b"{", &mut pending_requests, &mut pending_batch_requests),
        Routing::Malformed(Error::SerdeError(_))
    ));
    assert!(matches!(
        handle_message(
            br#"{"jsonrpc":"2.0","id":1}"#,
            &mut pending_requests,
            &mut pending_batch_requests
        ),
        Routing::Malformed(Error::InvalidMessage(
            "message has no `result`, `error`, or `method` field"
        ))
    ));
    assert!(pending_requests.contains_key(RequestId::new(1)));
}

#[test]
fn frames_that_hold_messages_are_routed() {
    let mut pending_requests = PendingRequests::new();
    let mut pending_batch_requests = PendingBatchRequests::new();
    pending_requests.insert(RequestId::new(1), 1);
    pending_requests.insert(RequestId::new(2), 2);
    let text = r#"{"jsonrpc":"2.0","id":1,"result":1}"#;
    let binary = br#"{"jsonrpc":"2.0","id":2,"result":2}"#;
    assert!(matches!(
        incoming_step(
            Received::Message(Frame::Text(text)),
            &mut pending_requests,
            &mut pending_batch_requests
        ),
        IncomingStep::Route(Routing::Deliver { waiter: 1, .. })
    ));
    assert!(matches!(
        incoming_step(
            Received::Message(Frame::Binary(binary)),
            &mut pending_requests,
            &mut pending_batch_requests
        ),
        IncomingStep::Route(Routing::Deliver { waiter: 2, .. })
    ));
    for frame in [Frame::Close, Frame::Ping, Frame::Pong, Frame::Other] {
        assert!(matches!(
            incoming_step(
                Received::Message(frame),
                &mut pending_requests,
                &mut pending_batch_requests
            ),
            IncomingStep::Wait
        ));
    }
    assert!(matches!(
        incoming_step(
            Received::Lagged(3),
            &mut pending_requests,
            &mut pending_batch_requests
        ),
        IncomingStep::Wait
    ));
    assert!(matches!(
        incoming_step(
            Received::Closed,
            &mut pending_requests,
            &mut pending_batch_requests
        ),
        IncomingStep::Stop
    ));
}

#[test]
fn keepalive_pings_on_every_tick_until_the_channel_closes() {
    assert_eq!(management_step(ManagementEvent::Tick), ManagementStep::Ping);
    let steps = [
        (Received::Message(Frame::Close), ManagementStep::NoteClose),
        (Received::Message(Frame::Ping), ManagementStep::NotePing),
        (Received::Message(Frame::Pong), ManagementStep::NotePong),
        (Received::Message(Frame::Text("{}")), ManagementStep::Wait),
        (Received::Lagged(2), ManagementStep::NoteLag(2)),
        (Received::Closed, ManagementStep::Stop),
    ];
    for (received, step) in steps {
        assert_eq!(management_step(ManagementEvent::Frame(received)), step);
    }
}

#[test]
fn every_disconnect_fails_what_is_in_flight() {
    let mut pending_requests = PendingRequests::new();
    let mut pending_batch_requests = PendingBatchRequests::new();
    for round in 0..2 {
        pending_requests.insert(RequestId::new(round), round);
        match disconnect_step(
            Received::Message(ConnectionChange::Disconnected("reset")),
            &mut pending_requests,
            &mut pending_batch_requests,
        ) {
            DisconnectStep::Fail(failures) => assert_eq!(failures.requests.len(), 1),
            _ => panic!("expected a failure"),
        }
        assert!(pending_requests.is_empty());
    }
    assert!(matches!(
        disconnect_step(
            Received::Message(ConnectionChange::Other),
            &mut pending_requests,
            &mut pending_batch_requests
        ),
        DisconnectStep::Wait
    ));
    assert!(matches!(
        disconnect_step(
            Received::Lagged(1),
            &mut pending_requests,
            &mut pending_batch_requests
        ),
        DisconnectStep::Wait
    ));
    assert!(matches!(
        disconnect_step(
            Received::Closed,
            &mut pending_requests,
            &mut pending_batch_requests
        ),
        DisconnectStep::Stop
    ));
}

#[test]
fn a_notification_stream_reports_what_it_missed_and_ends_with_the_connection() {
    let notification = Notification {
        method: MethodIdBuf::from("tick"),
        params: None,
    };
    match notification_step(Received::Message(notification)) {
        Some(Ok(n)) => assert_eq!(n.method, MethodIdBuf::from("tick")),
        _ => panic!("expected a notification"),
    }
    assert!(matches!(
        notification_step(Received::Lagged(5)),
        Some(Err(Error::NotificationsMissed(5)))
    ));
    assert!(notification_step(Received::Closed).is_none());
}
