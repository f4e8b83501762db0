//! Decoding of incoming messages.

use jsonrpc_client::{
    decode_single_response, Error, JsonRpcBatchResponse, JsonRpcErrorCode, JsonRpcIncoming,
    JsonRpcNotification, JsonRpcResponse, MethodId, MethodName, RawValue, RequestId,
};
use std::borrow::Cow;


#[test]
fn decodes_response_without_copying() {
    let bytes = br#"{"jsonrpc":"2.0","id":13,"result":{"foo":"bar"}}"#.to_vec();
    let range = bytes.as_ptr_range();

    match JsonRpcIncoming::try_from(bytes.as_slice()).unwrap() {
        JsonRpcIncoming::Response(response) => {
            let result_ptr = response.result.get().as_ptr();
            assert!(
                range.contains(&result_ptr),
                "result was copied out of the input buffer"
            );
        }
        _ => panic!("expected a response"),
    }
}

#[test]
fn decodes_notification_without_copying() {
    let bytes = br#"{"jsonrpc":"2.0","method":"ping","params":[1,2,3]}"#.to_vec();
    let range = bytes.as_ptr_range();

    match JsonRpcIncoming::try_from(bytes.as_slice()).unwrap() {
        JsonRpcIncoming::Notification(notification) => {
            assert_eq!(notification.method.as_ref(), MethodId::new("ping"));
            let params_ptr = notification.params.unwrap().get().as_ptr();
            assert!(
                range.contains(&params_ptr),
                "params was copied out of the input buffer"
            );
        }
        _ => panic!("expected a notification"),
    }
}

#[test]
fn decodes_error_response() {
    let bytes: &[u8] =
        br#"{"jsonrpc":"2.0","id":7,"error":{"code":-32601,"message":"Method not found"}}"#;

    match JsonRpcIncoming::try_from(bytes).unwrap() {
        JsonRpcIncoming::ErrorResponse(response) => {
            assert_eq!(response.error.code, -32601);
            assert_eq!(response.error.message, "Method not found");

            let err = Error::from(response);
            assert!(matches!(
                err,
                Error::RpcError {
                    code: JsonRpcErrorCode::MethodNotFound,
                    ..
                }
            ));
        }
        _ => panic!("expected an error response"),
    }
}

#[test]
fn rejects_unrecognized_shape() {
    let bytes: &[u8] = br#"{"jsonrpc":"2.0"}"#;
    assert!(matches!(
        JsonRpcIncoming::try_from(bytes),
        Err(Error::InvalidMessage(_))
    ));
}

#[test]
fn rejects_request_shaped_messages() {
    let bytes: &[u8] = br#"{"jsonrpc":"2.0","id":5,"method":"ping"}"#;
    assert!(matches!(
        JsonRpcIncoming::try_from(bytes),
        Err(Error::InvalidMessage(_))
    ));
}

#[test]
fn rejects_wrong_version() {
    let bytes: &[u8] = br#"{"jsonrpc":"1.0","id":1,"result":{}}"#;
    assert!(matches!(
        JsonRpcIncoming::try_from(bytes),
        Err(Error::SerdeError(_))
    ));
}

#[test]
fn decodes_batch_response_without_copying() {
    let bytes = br#"[{"jsonrpc":"2.0","id":1,"result":1},{"jsonrpc":"2.0","id":2,"error":{"code":-32601,"message":"Method not found"}}]"#.to_vec();
    let range = bytes.as_ptr_range();

    match JsonRpcIncoming::try_from(bytes.as_slice()).unwrap() {
        JsonRpcIncoming::BatchResponse(items) => {
            assert_eq!(items.len(), 2);
            match &items[0] {
                JsonRpcBatchResponse::Response(r) => {
                    assert_eq!(r.id, RequestId::new(1));
                    assert!(range.contains(&r.result.get().as_ptr()));
                }
                _ => panic!("expected a response at index 0"),
            }
            match &items[1] {
                JsonRpcBatchResponse::ErrorResponse(e) => {
                    assert_eq!(e.id, Some(RequestId::new(2)));
                    assert_eq!(e.error.code, -32601);
                }
                _ => panic!("expected an error response at index 1"),
            }
        }
        _ => panic!("expected a batch response"),
    }
}

#[test]
fn decodes_batch_response_with_leading_whitespace() {
    let bytes: &[u8] = b"  \n[{\"jsonrpc\":\"2.0\",\"id\":1,\"result\":1}]";
    assert!(matches!(
        JsonRpcIncoming::try_from(bytes).unwrap(),
        JsonRpcIncoming::BatchResponse(items) if items.len() == 1
    ));
}

#[test]
fn rejects_batch_item_missing_result_and_error() {
    let bytes: &[u8] = br#"[{"jsonrpc":"2.0","id":1}]"#;
    assert!(matches!(
        JsonRpcIncoming::try_from(bytes),
        Err(Error::InvalidMessage(_))
    ));
}

#[test]
fn rejects_null_id_method_call_as_notification() {
    let bytes: &[u8] = br#"{"jsonrpc":"2.0","id":null,"method":"foo"}"#;
    assert!(matches!(
        JsonRpcIncoming::try_from(bytes),
        Err(Error::InvalidMessage(_))
    ));
}

#[test]
fn treats_absent_id_as_notification() {
    let bytes: &[u8] = br#"{"jsonrpc":"2.0","method":"foo"}"#;
    assert!(matches!(
        JsonRpcIncoming::try_from(bytes),
        Ok(JsonRpcIncoming::Notification(_))
    ));
}

#[test]
fn rejects_non_u64_response_id_gracefully() {
    let bytes: &[u8] = br#"{"jsonrpc":"2.0","id":"abc","result":1}"#;
    assert!(matches!(
        JsonRpcIncoming::try_from(bytes),
        Err(Error::InvalidMessage(_))
    ));
}

#[test]
fn treats_non_u64_error_id_as_indeterminate() {
    let bytes: &[u8] =
        br#"{"jsonrpc":"2.0","id":"abc","error":{"code":-32700,"message":"Parse error"}}"#;
    match JsonRpcIncoming::try_from(bytes).unwrap() {
        JsonRpcIncoming::ErrorResponse(e) => assert_eq!(e.id, None),
        _ => panic!("expected an error response"),
    }
}

#[test]
fn accepts_explicit_null_result_as_a_valid_response() {
    let bytes: &[u8] = br#"{"jsonrpc":"2.0","id":1,"result":null}"#;
    match JsonRpcIncoming::try_from(bytes).unwrap() {
        JsonRpcIncoming::Response(r) => {
            assert_eq!(r.id, RequestId::new(1));
            assert_eq!(r.result.get(), "null");
        }
        _ => panic!("expected a response"),
    }
}

#[test]
fn accepts_explicit_null_result_in_a_batch() {
    let bytes: &[u8] = br#"[{"jsonrpc":"2.0","id":1,"result":null}]"#;
    match JsonRpcIncoming::try_from(bytes).unwrap() {
        JsonRpcIncoming::BatchResponse(items) => {
            assert_eq!(items.len(), 1);
            match &items[0] {
                JsonRpcBatchResponse::Response(r) => assert_eq!(r.result.get(), "null"),
                _ => panic!("expected a response at index 0"),
            }
        }
        _ => panic!("expected a batch response"),
    }
}

#[test]
fn rejects_message_with_neither_result_nor_error_nor_method_still() {
    let bytes: &[u8] = br#"{"jsonrpc":"2.0","id":1}"#;
    assert!(matches!(
        JsonRpcIncoming::try_from(bytes),
        Err(Error::InvalidMessage(_))
    ));
}

fn malformed(bytes: &[u8]) -> bool {
    matches!(JsonRpcIncoming::try_from(bytes), Err(Error::SerdeError(_)))
}

#[test]
fn rejects_text_that_is_not_json() {
    for bytes in [
        &b""[..],
        b"   ",
        b"{",
        b"null",
        b"42",
        br#"{"jsonrpc":"2.0","method":"a"} x"#,
        br#"{"jsonrpc":"2.0","method":"a"}{}"#,
        br#"{"jsonrpc":"2.0","method":"a",}"#,
        br#"{,"jsonrpc":"2.0","method":"a"}"#,
        br#"{"jsonrpc" "2.0"}"#,
        br#"{"jsonrpc":"2.0" "method":"a"}"#,
        br#"{jsonrpc:"2.0"}"#,
        br#"{"jsonrpc":}"#,
        b"[",
        br#"[{"jsonrpc":"2.0","id":1,"result":1},]"#,
        br#"[,{"jsonrpc":"2.0","id":1,"result":1}]"#,
        br#"[{"jsonrpc":"2.0","id":1,"result":1}"#,
        br#"[{"jsonrpc":"2.0","id":1,"result":1} {"jsonrpc":"2.0","id":2,"result":1}]"#,
        br#"[{"jsonrpc":"2.0","id":1,"result":1}]]"#,
        b"[1]",
        b"\x0c{\"jsonrpc\":\"2.0\",\"method\":\"a\"}",
        b"\x0c[{\"jsonrpc\":\"2.0\",\"id\":1,\"result\":1}]",
    ] {
        assert!(malformed(bytes), "{:?}", bytes);
    }
}

#[test]
fn rejects_members_of_the_wrong_kind() {
    for bytes in [
        &br#"{"method":"a"}"#[..],
        br#"{"jsonrpc":2.0,"method":"a"}"#,
        br#"{"jsonrpc":null,"method":"a"}"#,
        br#"{"jsonrpc":"2\u002e0","method":"a"}"#,
        br#"{"jsonrpc":"2.0","method":1}"#,
        br#"{"jsonrpc":"2.0","id":1,"error":1}"#,
        br#"{"jsonrpc":"2.0","id":1,"error":{}}"#,
        br#"{"jsonrpc":"2.0","id":1,"error":{"code":1}}"#,
        br#"{"jsonrpc":"2.0","id":1,"error":{"message":"x"}}"#,
        br#"{"jsonrpc":"2.0","id":1,"error":{"code":1.5,"message":"x"}}"#,
        br#"{"jsonrpc":"2.0","id":1,"error":{"code":9223372036854775808,"message":"x"}}"#,
        br#"{"jsonrpc":"2.0","method":"\ud800"}"#,
        br#"{"jsonrpc":"2.0","id":1,"error":{"code":1,"message":null}}"#,
        br#"{"jsonrpc":"2.0","id":1,"error":[1,"x",null,4]}"#,
        b"{\"jsonrpc\":\"2.0\",\"id\":1,\"result\":\"\xff\"}",
        br#"{"jsonrpc":"2.0","id":1e999,"result":1}"#,
        br#"{"jsonrpc":"2.0","id":"\ud800","result":1}"#,
    ] {
        assert!(malformed(bytes), "{:?}", bytes);
    }
}

#[test]
fn rejects_a_member_that_occurs_twice() {
    assert!(malformed(
        br#"{"jsonrpc":"2.0","id":1,"id":1,"result":1}"#
    ));
    assert!(malformed(
        br#"{"jsonrpc":"2.0","id":1,"error":{"code":1,"code":1,"message":"x"}}"#
    ));
    assert!(malformed(
        br#"{"jsonrpc":"2.0","method":"a","method":"a"}"#
    ));
}

#[test]
fn passes_over_members_it_does_not_know() {
    let bytes: &[u8] =
        b"{\"x\":\"\xff\",\"x\":[{}],\"jsonrpc\":\"2.0\",\"i\\u0064\":3,\"result\" : [ 1 ] }\n";
    match JsonRpcIncoming::try_from(bytes).unwrap() {
        JsonRpcIncoming::Response(r) => {
            assert_eq!(r.id, RequestId::new(3));
            assert_eq!(r.result.get(), "[ 1 ]");
        }
        _ => panic!("expected a response"),
    }
}

#[test]
fn reads_arrays_as_the_members_in_their_order() {
    let bytes: &[u8] =
        br#"[["2.0",1,null,null,5],["2.0",2,null,null,6,[-32700,"Parse error",{"a":[]}]]]"#;
    match JsonRpcIncoming::try_from(bytes).unwrap() {
        JsonRpcIncoming::BatchResponse(items) => {
            match &items[0] {
                JsonRpcBatchResponse::Response(r) => {
                    assert_eq!(r.id, RequestId::new(1));
                    assert_eq!(r.result.get(), "5");
                }
                _ => panic!("expected a response at index 0"),
            }
            match &items[1] {
                JsonRpcBatchResponse::ErrorResponse(e) => {
                    assert_eq!(e.id, Some(RequestId::new(2)));
                    assert_eq!(e.error.code, -32700);
                    assert_eq!(e.error.message, "Parse error");
                    assert_eq!(e.error.data.as_ref().unwrap().get(), r#"{"a":[]}"#);
                }
                _ => panic!("expected an error response at index 1"),
            }
        }
        _ => panic!("expected a batch response"),
    }
    assert!(malformed(br#"[["2.0",1,null,null,5,null,7]]"#));
    assert!(malformed(b"[[]]"));
}

#[test]
fn an_id_of_another_kind_is_not_one_of_ours() {
    for id in ["-1", "1.0", "18446744073709551616", "true", "[1]", "{\"a\":1}", "\"\""] {
        let text = format!(r#"{{"jsonrpc":"2.0","id":{id},"result":1}}"#);
        assert!(matches!(
            JsonRpcIncoming::try_from(text.as_str()),
            Err(Error::InvalidMessage(
                "a response `id` is not a value this client could have issued"
            ))
        ));
    }
    let bytes: &[u8] = br#"{"jsonrpc":"2.0","result":1}"#;
    assert!(matches!(
        JsonRpcIncoming::try_from(bytes),
        Err(Error::InvalidMessage("a response is missing its `id`"))
    ));
    let bytes: &[u8] = br#"{"jsonrpc":"2.0","id":18446744073709551615,"result":1}"#;
    match JsonRpcIncoming::try_from(bytes).unwrap() {
        JsonRpcIncoming::Response(r) => assert_eq!(r.id, RequestId::new(u64::MAX)),
        _ => panic!("expected a response"),
    }
}

#[test]
fn an_id_is_read_as_deep_as_the_recursion_limit_allows() {
    let nested = |n: usize| format!("{}{}", "[".repeat(n), "]".repeat(n));
    let single = |n: usize| format!(r#"{{"jsonrpc":"2.0","id":{},"result":1}}"#, nested(n));
    assert!(matches!(
        JsonRpcIncoming::try_from(single(126).as_str()),
        Err(Error::InvalidMessage(_))
    ));
    assert!(malformed(single(127).as_bytes()));
    let batch = |n: usize| format!("[{}]", single(n));
    assert!(matches!(
        JsonRpcIncoming::try_from(batch(125).as_str()),
        Err(Error::InvalidMessage(_))
    ));
    assert!(malformed(batch(126).as_bytes()));
}

#[test]
fn nested_results_are_carried_as_they_are() {
    let deep = format!("{}{}", "[".repeat(1000), "]".repeat(1000));
    let text = format!(r#"{{"jsonrpc":"2.0","id":1,"result": {deep} }}"#);
    match JsonRpcIncoming::try_from(text.as_str()).unwrap() {
        JsonRpcIncoming::Response(r) => assert_eq!(r.result.get(), deep),
        _ => panic!("expected a response"),
    }
}

#[test]
fn an_error_takes_precedence_over_a_result_unless_it_is_null() {
    let bytes: &[u8] =
        br#"{"jsonrpc":"2.0","id":1,"result":1,"error":{"code":5,"message":"x","data":null}}"#;
    match JsonRpcIncoming::try_from(bytes).unwrap() {
        JsonRpcIncoming::ErrorResponse(e) => {
            assert_eq!(e.error.code, 5);
            assert!(e.error.data.is_none());
        }
        _ => panic!("expected an error response"),
    }
    let bytes: &[u8] = br#"{"jsonrpc":"2.0","id":1,"result":1,"error":null,"method":null}"#;
    assert!(matches!(
        JsonRpcIncoming::try_from(bytes),
        Ok(JsonRpcIncoming::Response(_))
    ));
}

#[test]
fn text_and_bytes_decode_alike() {
    let text = " \r\n\t{\"jsonrpc\":\"2.0\",\"method\":\"é\",\"params\":null}";
    match JsonRpcIncoming::try_from(text).unwrap() {
        JsonRpcIncoming::Notification(n) => {
            assert_eq!(n.method.as_ref(), MethodId::new("é"));
            assert!(n.params.is_none());
        }
        _ => panic!("expected a notification"),
    }
    assert!(matches!(
        JsonRpcIncoming::try_from(text.as_bytes()),
        Ok(JsonRpcIncoming::Notification(_))
    ));
    let batch = "\u{a0}[{\"jsonrpc\":\"2.0\",\"id\":1,\"result\":1}]";
    assert!(matches!(
        JsonRpcIncoming::try_from(batch),
        Err(Error::SerdeError(_))
    ));
    assert!(matches!(
        JsonRpcIncoming::try_from("[]"),
        Ok(JsonRpcIncoming::BatchResponse(items)) if items.is_empty()
    ));
}

#[test]
fn a_decoded_piece_says_where_it_stands() {
    let bytes: &[u8] =
        br#"[{"jsonrpc":"2.0","id":1,"result":{"a":1}},{"jsonrpc":"2.0","id":2,"error":{"code":1,"message":"x","data":[7]}}]"#;
    match JsonRpcIncoming::try_from(bytes).unwrap() {
        JsonRpcIncoming::BatchResponse(items) => {
            match &items[0] {
                JsonRpcBatchResponse::Response(r) => match &r.result {
                    RawValue::Borrowed(slice) => {
                        assert_eq!(&bytes[slice.range()], br#"{"a":1}"#)
                    }
                    _ => panic!("expected a piece of the message"),
                },
                _ => panic!("expected a response at index 0"),
            }
            match &items[1] {
                JsonRpcBatchResponse::ErrorResponse(e) => match &e.error.data {
                    Some(RawValue::Borrowed(slice)) => assert_eq!(&bytes[slice.range()], b"[7]"),
                    _ => panic!("expected a piece of the message"),
                },
                _ => panic!("expected an error response at index 1"),
            }
        }
        _ => panic!("expected a batch response"),
    }
}

#[test]
fn a_batch_with_a_notification_is_refused() {
    let bytes: &[u8] =
        br#"[{"jsonrpc":"2.0","id":1,"result":1},{"jsonrpc":"2.0","method":"a"}]"#;
    assert!(matches!(
        JsonRpcIncoming::try_from(bytes),
        Err(Error::InvalidMessage("batch item has no `result` or `error`"))
    ));
}

#[test]
fn a_single_response_is_matched_against_its_request() {
    let decode = |text: &'static str| {
        let incoming = JsonRpcIncoming::try_from(text).unwrap();
        decode_single_response(incoming, RequestId::new(4), |t: &str| {
            serde_json::from_str::<i64>(t)
        })
    };
    assert_eq!(
        decode(r#"{"jsonrpc":"2.0","id":4,"result":42}"#).unwrap(),
        42
    );
    assert!(matches!(
        decode(r#"{"jsonrpc":"2.0","id":4,"result":"x"}"#),
        Err(Error::SerdeError(_))
    ));
    assert!(matches!(
        decode(r#"{"jsonrpc":"2.0","id":5,"result":42}"#),
        Err(Error::InvalidMessage("response id does not match request id"))
    ));
    assert!(matches!(
        decode(r#"{"jsonrpc":"2.0","id":5,"error":{"code":1,"message":"x"}}"#),
        Err(Error::InvalidMessage(
            "error response id does not match request id"
        ))
    ));
    assert!(matches!(
        decode(r#"{"jsonrpc":"2.0","id":null,"error":{"code":-32700,"message":"x"}}"#),
        Err(Error::RpcError {
            id: None,
            code: JsonRpcErrorCode::ParseError,
            ..
        })
    ));
    assert!(matches!(
        decode(r#"{"jsonrpc":"2.0","method":"a"}"#),
        Err(Error::InvalidMessage("notification received"))
    ));
    assert!(matches!(
        decode("[]"),
        Err(Error::InvalidMessage("batch response received"))
    ));
}

#[test]
fn a_notification_is_read_on_its_own() {
    let n = JsonRpcNotification::from_json(
        br#"{"jsonrpc":"2.0","method":"a\tb","params":{"a":1}}"#,
    )
    .unwrap();
    assert_eq!(n.method.as_ref(), MethodId::new("a\tb"));
    assert_eq!(n.params.unwrap().get(), r#"{"a":1}"#);
    let n = JsonRpcNotification::from_json(br#"["2.0","a",null]"#).unwrap();
    assert!(n.params.is_none());
    let n = JsonRpcNotification::from_json(br#"{"jsonrpc":"2.0","method":"a"}"#).unwrap();
    assert_eq!(n.to_json().unwrap(), r#"{"jsonrpc":"2.0","method":"a"}"#);
    for bytes in [
        &br#"{"jsonrpc":"2.0","params":[]}"#[..],
        br#"{"jsonrpc":"2.0","method":"a","params":1}"#,
        br#"{"jsonrpc":"1.0","method":"a","params":[]}"#,
    ] {
        assert!(JsonRpcNotification::from_json(bytes).is_err());
    }
}

#[test]
fn a_response_is_read_on_its_own() {
    let r = JsonRpcResponse::from_json(br#"{"jsonrpc":"2.0","id":1,"result":null}"#).unwrap();
    assert_eq!(r.id, RequestId::new(1));
    assert_eq!(r.result.get(), "null");
    for bytes in [
        &br#"{"jsonrpc":"2.0","id":1}"#[..],
        br#"{"jsonrpc":"2.0","result":1}"#,
        br#"{"jsonrpc":"2.0","id":"1","result":1}"#,
        br#"{"id":1,"result":1}"#,
    ] {
        assert!(JsonRpcResponse::from_json(bytes).is_err());
    }
}

#[test]
fn escaped_strings_are_read_and_others_borrowed() {
    let bytes = br#"{"jsonrpc":"2.0","method":"a\/b\n"}"#;
    match JsonRpcIncoming::try_from(&bytes[..]).unwrap() {
        JsonRpcIncoming::Notification(n) => {
            assert_eq!(n.method.as_ref(), MethodId::new("a/b\n"));
            assert!(matches!(n.method, MethodName::Owned(_)));
            assert!(n.params.is_none());
        }
        _ => panic!("expected a notification"),
    }
    match JsonRpcIncoming::try_from(r#"{"jsonrpc":"2.0","method":"a/b"}"#).unwrap() {
        JsonRpcIncoming::Notification(n) => {
            assert!(matches!(n.method, MethodName::Borrowed(_)));
            assert_eq!(n.method.into_owned().as_str(), "a/b");
        }
        _ => panic!("expected a notification"),
    }
    let bytes =
        br#"{"jsonrpc":"2.0","id":3,"error":{"code":-32602,"message":"no field \"a\"\nin line 1"}}"#;
    match JsonRpcIncoming::try_from(&bytes[..]).unwrap() {
        JsonRpcIncoming::ErrorResponse(e) => {
            assert_eq!(e.error.message, "no field \"a\"\nin line 1");
            assert!(matches!(e.error.message, Cow::Owned(_)));
            assert_eq!(e.clone().error.message, "no field \"a\"\nin line 1");
            match Error::from(e) {
                Error::RpcError { id, code, message, data } => {
                    assert_eq!(id, Some(RequestId::new(3)));
                    assert_eq!(code, JsonRpcErrorCode::InvalidParams);
                    assert_eq!(message, "no field \"a\"\nin line 1");
                    assert!(data.is_none());
                }
                _ => panic!("expected an error of the peer"),
            }
        }
        _ => panic!("expected an error response"),
    }
    let text = r#"[{"jsonrpc":"2.0","id":3,"error":{"code":1,"message":"plain"}}]"#;
    match JsonRpcIncoming::try_from(text).unwrap() {
        JsonRpcIncoming::BatchResponse(items) => match &items[0] {
            JsonRpcBatchResponse::ErrorResponse(e) => {
                assert!(matches!(e.error.message, Cow::Borrowed("plain")));
            }
            _ => panic!("expected an error response"),
        },
        _ => panic!("expected a batch"),
    }
}

#[test]
fn the_params_of_a_notification_are_an_object_or_an_array() {
    for params in ["5", "\"x\"", "true", "1.5"] {
        let text = format!(r#"{{"jsonrpc":"2.0","method":"foo","params":{params}}}"#);
        assert!(matches!(
            JsonRpcIncoming::try_from(text.as_str()),
            Err(Error::InvalidMessage(
                "the `params` of a notification are neither an object nor an array"
            ))
        ));
        assert!(matches!(
            JsonRpcIncoming::try_from(text.as_bytes()),
            Err(Error::InvalidMessage(_))
        ));
    }
    for params in ["[]", "{}", "[5]", "null"] {
        let text = format!(r#"{{"jsonrpc":"2.0","method":"foo","params":{params}}}"#);
        match JsonRpcIncoming::try_from(text.as_str()).unwrap() {
            JsonRpcIncoming::Notification(n) => {
                let given = n.params.as_ref().map(|p| p.get());
                assert_eq!(given, if params == "null" { None } else { Some(params) });
            }
            _ => panic!("expected a notification"),
        }
    }
    let text = r#"{"jsonrpc":"2.0","id":1,"result":2,"method":"foo","params":5}"#;
    assert!(matches!(
        JsonRpcIncoming::try_from(text),
        Ok(JsonRpcIncoming::Response(_))
    ));
}

#[test]
fn an_id_is_read_whatever_its_keys_are() {
    let text = concat_id(r#"{"$serde_json::private::RawValue":1}"#);
    match JsonRpcIncoming::try_from(text.as_str()).unwrap() {
        JsonRpcIncoming::ErrorResponse(e) => assert!(e.id.is_none()),
        _ => panic!("expected an error response"),
    }
    for id in ["[1,\"a\\n\",{\"k\":[-2.5e3,true,null]}]", "false", "-1", "1.0", "18446744073709551616"] {
        match JsonRpcIncoming::try_from(concat_id(id).as_str()).unwrap() {
            JsonRpcIncoming::ErrorResponse(e) => assert!(e.id.is_none()),
            _ => panic!("expected an error response"),
        }
    }
    for id in ["[1e999]", "{\"a\":\"\\ud800\"}", "[[1e400]]"] {
        assert!(malformed(concat_id(id).as_bytes()), "{}", id);
    }
}

/// An error response with this id.
fn concat_id(id: &str) -> String {
    format!(r#"{{"jsonrpc":"2.0","id":{id},"error":{{"code":1,"message":"x"}}}}"#)
}

#[test]
fn whitespace_in_front_changes_nothing_but_the_places() {
    let single = r#"{"jsonrpc":"2.0","id":4,"result":[7]}"#;
    let batch = r#"[{"jsonrpc":"2.0","id":4,"result":[7]}]"#;
    for front in ["", " ", "\n\t ", "\r\n\r\n"] {
        let text = format!("{front}{single}");
        for incoming in [
            JsonRpcIncoming::try_from(text.as_str()).unwrap(),
            JsonRpcIncoming::try_from(text.as_bytes()).unwrap(),
        ] {
            match incoming {
                JsonRpcIncoming::Response(r) => {
                    assert_eq!(r.id, RequestId::new(4));
                    match r.result {
                        RawValue::Borrowed(slice) => {
                            assert_eq!(slice.text, "[7]");
                            assert_eq!(slice.offset, 33 + front.len());
                        }
                        _ => panic!("expected a borrowed result"),
                    }
                }
                _ => panic!("expected a response"),
            }
        }
        let text = format!("{front}{batch}");
        match JsonRpcIncoming::try_from(text.as_bytes()).unwrap() {
            JsonRpcIncoming::BatchResponse(items) => match &items[0] {
                JsonRpcBatchResponse::Response(r) => match &r.result {
                    RawValue::Borrowed(slice) => assert_eq!(slice.offset, 34 + front.len()),
                    _ => panic!("expected a borrowed result"),
                },
                _ => panic!("expected a response"),
            },
            _ => panic!("expected a batch"),
        }
        let refused = format!(r#"{front}{{"jsonrpc":"2.0"}}"#);
        assert!(matches!(
            JsonRpcIncoming::try_from(refused.as_str()),
            Err(Error::InvalidMessage(_))
        ));
    }
}

#[test]
fn every_element_of_a_batch_names_the_version() {
    assert!(malformed(
        br#"[{"jsonrpc":"2.0","id":1,"result":1},{"id":2,"result":1}]"#
    ));
    assert!(malformed(
        br#"[{"jsonrpc":"1.0","id":1,"result":1},{"jsonrpc":"2.0","id":2,"result":1}]"#
    ));
}
