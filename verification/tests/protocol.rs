//! The messages of the protocol as they are written.

use jsonrpc_client::params::deserialize_params_with;
use jsonrpc_client::protocol::batch_to_json;
use jsonrpc_client::text::{first_visible_char, is_white_space};
use jsonrpc_client::{
    Error, IntoOptionParams, JsonRpcErrorCode, JsonRpcIncoming, JsonRpcNotification,
    JsonRpcOutgoing, JsonRpcOutgoingRef, JsonRpcRequest, JsonRpcVersion, MethodId, MethodIdBuf,
    MethodName, Notification, ParamsBuf, RawValue, RequestId, Serialized, Unserialized,
    JSONRPC_VERSION,
};
use serde::Serialize;
use std::borrow::Cow;
use std::collections::BTreeMap;

/// What serializing `value` gives.
fn serialized<T: Serialize + ?Sized>(value: &T) -> Serialized {
    let mut written = Vec::new();
    match serde_json::to_writer(&mut written, value) {
        Ok(()) => Ok(String::from_utf8(written).unwrap()),
        Err(error) => Err(Unserialized { written, error }),
    }
}

#[test]
fn try_from_string_omits_params_when_none() {
    let request =
        JsonRpcRequest::try_new_owned(RequestId::new(1), MethodIdBuf::new("ping"), None).unwrap();
    let json = String::try_from(request).unwrap();
    assert_eq!(json, r#"{"jsonrpc":"2.0","id":1,"method":"ping"}"#);
}

#[test]
fn try_from_string_includes_structured_params() {
    let params = serde_json::value::RawValue::from_string(r#"[1,2,3]"#.to_string()).unwrap();
    let request = JsonRpcRequest::try_new_owned(
        RequestId::new(2),
        MethodIdBuf::new("sum"),
        Some(serialized(&params)),
    )
    .unwrap();
    let json = String::try_from(request).unwrap();
    assert_eq!(
        json,
        r#"{"jsonrpc":"2.0","id":2,"method":"sum","params":[1,2,3]}"#
    );
}

#[test]
fn try_from_vec_u8_matches_try_from_string_bytes() {
    let params = serde_json::value::RawValue::from_string(r#"{"a":1}"#.to_string()).unwrap();
    let request = JsonRpcRequest::try_new_owned(
        RequestId::new(3),
        MethodIdBuf::new("do"),
        Some(serialized(&params)),
    )
    .unwrap();
    let bytes = Vec::try_from(request).unwrap();

    let params = serde_json::value::RawValue::from_string(r#"{"a":1}"#.to_string()).unwrap();
    let request = JsonRpcRequest::try_new_owned(
        RequestId::new(3),
        MethodIdBuf::new("do"),
        Some(serialized(&params)),
    )
    .unwrap();
    let string = String::try_from(request).unwrap();

    assert_eq!(bytes, string.into_bytes());
}

#[test]
fn a_request_borrows_its_params_from_the_buffer() {
    let mut buf = ParamsBuf::new();
    let request = JsonRpcRequest::try_new(
        RequestId::new(7),
        MethodId::new("m"),
        Some(Ok("\n{\"a\": [1, 2]}\t".to_string())),
        &mut buf,
    )
    .unwrap();
    assert!(matches!(request.params, Some(RawValue::Buffered(_))));
    assert!(matches!(request.method, MethodName::Borrowed(_)));
    assert_eq!(request.params.as_ref().unwrap().get(), "{\"a\": [1, 2]}");
    assert_eq!(
        request.to_json().unwrap(),
        r#"{"jsonrpc":"2.0","id":7,"method":"m","params":{"a": [1, 2]}}"#
    );
}

#[test]
fn a_notification_borrows_its_params_from_the_buffer() {
    let mut buf = ParamsBuf::new();
    let notification =
        JsonRpcNotification::try_new(MethodId::new("m"), Some(Ok("[1]".to_string())), &mut buf)
            .unwrap();
    assert!(matches!(notification.params, Some(RawValue::Buffered("[1]"))));
    assert!(matches!(notification.method, MethodName::Borrowed(_)));
    let owned =
        JsonRpcNotification::try_new_owned(MethodIdBuf::new("m"), Some(Ok("[1]".to_string())))
            .unwrap();
    assert!(matches!(owned.params, Some(RawValue::Owned(_))));
    assert!(matches!(owned.method, MethodName::Owned(_)));
}

#[test]
fn what_was_written_of_failed_params_stays_in_the_buffer() {
    let unwritable = [BTreeMap::from([((1, 2), 3)])];
    match serialized(&unwritable) {
        Err(failed) => assert_eq!(failed.written, b"[{"),
        Ok(text) => panic!("{} was written", text),
    }
    let mut buf = ParamsBuf::new();
    assert!(matches!(
        JsonRpcNotification::try_new(MethodId::new("m"), Some(serialized(&unwritable)), &mut buf),
        Err(Error::SerdeError(_))
    ));
    assert!(matches!(
        JsonRpcNotification::try_new(MethodId::new("m"), Some(serialized(&[1])), &mut buf),
        Err(Error::SerdeError(_))
    ));
    let mut buf = ParamsBuf::new();
    assert!(matches!(
        JsonRpcRequest::try_new(
            RequestId::new(1),
            MethodId::new("m"),
            Some(serialized(&unwritable)),
            &mut buf
        ),
        Err(Error::SerdeError(_))
    ));
    let request = JsonRpcRequest::try_new(
        RequestId::new(1),
        MethodId::new("m"),
        Some(Ok("}]".to_string())),
        &mut buf,
    );
    assert_eq!(request.unwrap().params.unwrap().get(), "[{}]");
    assert!(matches!(
        JsonRpcRequest::try_new_owned(
            RequestId::new(1),
            MethodIdBuf::new("m"),
            Some(serialized(&unwritable))
        ),
        Err(Error::SerdeError(_))
    ));
}

#[test]
fn a_method_name_is_made_of_a_literal_or_a_string() {
    assert_eq!(MethodIdBuf::new("m").as_str(), "m");
    assert_eq!(MethodIdBuf::new("m".to_string()).as_str(), "m");
    assert_eq!(MethodIdBuf::new(Cow::Borrowed("m")).as_str(), "m");
}

#[test]
fn params_go_behind_what_the_buffer_holds() {
    let mut buf = ParamsBuf::default();
    assert!(JsonRpcNotification::try_new(
        MethodId::new("m"),
        Some(Ok("[1".to_string())),
        &mut buf
    )
    .is_err());
    let notification =
        JsonRpcNotification::try_new(MethodId::new("m"), Some(Ok(",2]".to_string())), &mut buf)
            .unwrap();
    assert_eq!(notification.params.unwrap().get(), "[1,2]");
}

#[test]
fn a_fresh_buffer_makes_no_difference() {
    for text in ["[1, 2]", " {\"a\":1}\n", "5", "[1", ""] {
        let mut buf = ParamsBuf::new();
        let buffered =
            JsonRpcNotification::try_new(MethodId::new("m"), Some(Ok(text.to_string())), &mut buf)
                .and_then(|n| n.to_json().map_err(Error::SerdeError));
        let owned =
            JsonRpcNotification::try_new_owned(MethodIdBuf::new("m"), Some(Ok(text.to_string())))
                .and_then(|n| n.to_json().map_err(Error::SerdeError));
        match (buffered, owned) {
            (Ok(a), Ok(b)) => assert_eq!(a, b),
            (Err(Error::InvalidParams), Err(Error::InvalidParams)) => {}
            (Err(Error::SerdeError(_)), Err(Error::SerdeError(_))) => {}
            _ => panic!("{:?} comes out differently", text),
        }
    }
    let mut buf = ParamsBuf::new();
    let request =
        JsonRpcRequest::try_new(RequestId::new(1), MethodId::new("m"), None, &mut buf).unwrap();
    assert!(request.params.is_none());
    let request = JsonRpcRequest::try_new(
        RequestId::new(1),
        MethodId::new("m"),
        Some(Ok("[]".to_string())),
        &mut buf,
    );
    assert_eq!(request.unwrap().params.unwrap().get(), "[]");
}

#[test]
fn params_have_to_be_structured() {
    let attempt = |text: &str| {
        JsonRpcNotification::try_new_owned(MethodIdBuf::new("m"), Some(Ok(text.to_string())))
    };
    for text in ["1", "null", "\"x\"", "true", "", "  "] {
        assert!(matches!(attempt(text), Err(Error::InvalidParams)));
    }
    for text in ["[", "{]", "[1] 2", "\u{a0}[]"] {
        assert!(matches!(attempt(text), Err(Error::SerdeError(_))));
    }
    assert_eq!(attempt(" [ ] ").unwrap().params.unwrap().get(), "[ ]");
    let failed = serialized(&BTreeMap::from([((1, 2), 3)]));
    assert!(matches!(
        JsonRpcNotification::try_new_owned(MethodIdBuf::new("m"), Some(failed)),
        Err(Error::SerdeError(_))
    ));
}

#[test]
fn a_member_that_was_read_as_params_has_to_be_structured() {
    let raw = RawValue::Owned("[1]".to_string());
    assert_eq!(
        deserialize_params_with(Some(raw)).unwrap().unwrap().get(),
        "[1]"
    );
    assert!(deserialize_params_with(None).unwrap().is_none());
    assert!(deserialize_params_with(Some(RawValue::Owned("1".to_string()))).is_err());
}

#[test]
fn large_ids_are_written_in_full() {
    let request =
        JsonRpcRequest::try_new_owned(RequestId::new(u64::MAX), MethodIdBuf::new("m"), None)
            .unwrap();
    let expected = r#"{"jsonrpc":"2.0","id":18446744073709551615,"method":"m"}"#;
    assert_eq!(
        JsonRpcOutgoingRef::Request(&request).to_json().unwrap(),
        expected
    );
    assert_eq!(
        JsonRpcOutgoing::Request(request.clone()).to_json().unwrap(),
        expected
    );
}

#[test]
fn method_names_are_escaped() {
    let name = "a\"b\\c/\u{8}\u{9}\u{a}\u{b}\u{c}\u{d}\u{1f}\u{7f}é\u{1F600}";
    let notification =
        JsonRpcNotification::try_new_owned(MethodIdBuf::from(name.to_string()), None).unwrap();
    let json = notification.to_json().unwrap();
    assert_eq!(
        json,
        "{\"jsonrpc\":\"2.0\",\"method\":\"a\\\"b\\\\c/\\b\\t\\n\\u000b\\f\\r\\u001f\u{7f}é\u{1F600}\"}"
    );
}

#[test]
fn batches_are_one_flat_array() {
    let request =
        JsonRpcRequest::try_new_owned(RequestId::new(1), MethodIdBuf::new("a"), None).unwrap();
    let notification =
        JsonRpcNotification::try_new_owned(MethodIdBuf::new("b"), Some(Ok("[]".to_string())))
            .unwrap();
    let items = vec![
        JsonRpcOutgoing::Request(request),
        JsonRpcOutgoing::Notification(notification),
    ];
    assert_eq!(
        batch_to_json(&items).unwrap(),
        r#"[{"jsonrpc":"2.0","id":1,"method":"a"},{"jsonrpc":"2.0","method":"b","params":[]}]"#
    );
    assert_eq!(batch_to_json(&Vec::new()).unwrap(), "[]");
}

#[test]
fn a_notification_is_copied_out_of_what_it_borrows_from() {
    let owned = {
        let text = r#"{"jsonrpc":"2.0","method":"tick","params":{"n":1}}"#.to_string();
        match JsonRpcIncoming::try_from(text.as_str()).unwrap() {
            JsonRpcIncoming::Notification(n) => Notification::from(n),
            _ => panic!("expected a notification"),
        }
    };
    assert_eq!(owned.method, MethodIdBuf::new("tick"));
    assert_eq!(owned.params.clone().unwrap().get(), r#"{"n":1}"#);
    assert_eq!(owned.clone().method.as_str(), "tick");
}

#[test]
fn method_names_convert_without_changing() {
    let id = MethodId::new("m");
    assert_eq!(id.as_str(), "m");
    assert_eq!(id.to_owned(), MethodIdBuf::new("m"));
    assert_eq!(MethodIdBuf::new("m".to_string()).as_ref(), id);
    assert_eq!(MethodIdBuf::new("m").borrow(), id);
    assert_eq!(MethodName::Borrowed(id).into_owned().as_str(), "m");
}

#[test]
fn params_arguments_are_optional() {
    assert_eq!(().into_option_params(), None);
    assert_eq!(Some(1).into_option_params(), Some(1));
    assert_eq!(None::<i32>.into_option_params(), None);
}

#[test]
fn error_codes_keep_their_number() {
    for (n, code) in [
        (-32700, JsonRpcErrorCode::ParseError),
        (-32600, JsonRpcErrorCode::InvalidRequest),
        (-32601, JsonRpcErrorCode::MethodNotFound),
        (-32602, JsonRpcErrorCode::InvalidParams),
        (-32603, JsonRpcErrorCode::InternalError),
        (-32000, JsonRpcErrorCode::ServerError(-32000)),
        (-32099, JsonRpcErrorCode::ServerError(-32099)),
        (-32100, JsonRpcErrorCode::Other(-32100)),
        (-31999, JsonRpcErrorCode::Other(-31999)),
        (0, JsonRpcErrorCode::Other(0)),
        (i64::MIN, JsonRpcErrorCode::Other(i64::MIN)),
        (i64::MAX, JsonRpcErrorCode::Other(i64::MAX)),
    ] {
        assert_eq!(JsonRpcErrorCode::from(n), code);
        assert_eq!(i64::from(code), n);
    }
}

#[test]
fn there_is_one_version() {
    assert_eq!(JSONRPC_VERSION, "2.0");
    assert_eq!(JsonRpcVersion::parse("2.0"), Some(JsonRpcVersion));
    assert_eq!(JsonRpcVersion::parse("2.00"), None);
    assert_eq!(JsonRpcVersion::default().as_str(), "2.0");
}

#[test]
fn errors_come_from_what_they_wrap() {
    let e = serde_json::from_str::<i32>("x").unwrap_err();
    assert!(matches!(Error::from(e), Error::SerdeError(_)));
    let bytes = vec![0xff];
    let e = core::str::from_utf8(&bytes).unwrap_err();
    assert!(matches!(Error::from(e), Error::InvalidUTF8Str(_)));
}

#[test]
fn white_space_is_that_of_unicode() {
    for n in 0..=0x10ffff {
        if let Some(c) = char::from_u32(n) {
            assert_eq!(is_white_space(c), c.is_whitespace());
        }
    }
    assert_eq!(first_visible_char("\u{3000}\n x"), Some('x'));
    assert_eq!(first_visible_char(" "), None);
}
