//! What the arguments of the command line mean.

use jsonrpc_client::cli::{as_collection, default_level, parse_json_collection, CollectionError};
use jsonrpc_client::Params;

#[test]
fn params_on_the_command_line_have_to_be_a_collection() {
    match parse_json_collection(" { \"b\" : 1, \"a\" : [ 1.0 ] } ").unwrap() {
        Params::Object(text) => assert_eq!(text, r#"{"a":[1.0],"b":1}"#),
        _ => panic!("expected an object"),
    }
    match parse_json_collection("[ 1, 2 ]").unwrap() {
        Params::Array(text) => assert_eq!(text, "[1,2]"),
        _ => panic!("expected an array"),
    }
    assert!(matches!(
        parse_json_collection("1"),
        Err(CollectionError::NotACollection(
            "JSON must be a top-level Object ({}) or Array ([])"
        ))
    ));
    assert!(matches!(
        parse_json_collection("[1"),
        Err(CollectionError::Json(_))
    ));
}

#[test]
fn more_flags_say_more() {
    assert_eq!(default_level(0), "warn");
    assert_eq!(default_level(1), "info");
    assert_eq!(default_level(2), "debug");
    assert_eq!(default_level(3), "trace");
    assert_eq!(default_level(255), "trace");
}

#[test]
fn a_collection_is_told_by_its_bracket() {
    assert!(matches!(
        as_collection("{}".to_string()),
        Ok(Params::Object(text)) if text == "{}"
    ));
    assert!(matches!(
        as_collection("[]".to_string()),
        Ok(Params::Array(text)) if text == "[]"
    ));
    assert!(as_collection("null".to_string()).is_err());
}
