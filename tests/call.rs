use jsonrpc_client::call::{encode_call, encode_request, Id, MethodCall, MethodCallRequest, Params};

#[test]
fn call_without_params_has_no_params_member() {
    let c = MethodCall::new("foo".to_string(), None, 1);
    assert_eq!(encode_call(&c), r#"{"jsonrpc":"2.0","method":"foo","id":1}"#);
}

#[test]
fn call_with_empty_params_keeps_member() {
    let c = MethodCall::new("bar".to_string(), Some(Params::Array(vec![])), 1);
    assert_eq!(encode_call(&c), r#"{"jsonrpc":"2.0","method":"bar","params":[],"id":1}"#);
}

#[test]
fn call_with_params_lists_them_in_order() {
    let p = Params::Array(vec!["1".to_string(), "\"a\"".to_string(), "null".to_string()]);
    let c = MethodCall::new("sum".to_string(), Some(p), 7);
    assert_eq!(
        encode_call(&c),
        r#"{"jsonrpc":"2.0","method":"sum","params":[1,"a",null],"id":7}"#
    );
}

#[test]
fn batch_keeps_submission_order() {
    let a = MethodCall::new("foo".to_string(), None, 1);
    let b = MethodCall::new("bar".to_string(), Some(Params::Array(vec![])), 2);
    let body = encode_request(&MethodCallRequest::Batch(vec![a, b]));
    assert_eq!(
        body,
        r#"[{"jsonrpc":"2.0","method":"foo","id":1},{"jsonrpc":"2.0","method":"bar","params":[],"id":2}]"#
    );
}

#[test]
fn one_call_batch_is_one_element_array() {
    let c = MethodCall::new("foo".to_string(), None, 5);
    assert_eq!(
        encode_request(&MethodCallRequest::Batch(vec![c])),
        r#"[{"jsonrpc":"2.0","method":"foo","id":5}]"#
    );
}

#[test]
fn single_request_is_the_call_object() {
    let c = MethodCall::new("foo".to_string(), None, 3);
    assert_eq!(
        encode_request(&MethodCallRequest::Single(c)),
        r#"{"jsonrpc":"2.0","method":"foo","id":3}"#
    );
}

#[test]
fn method_names_are_escaped() {
    let c = MethodCall::new("a\"b\\c\nd\u{1}e\u{7f}é".to_string(), None, 0);
    assert_eq!(
        encode_call(&c),
        "{\"jsonrpc\":\"2.0\",\"method\":\"a\\\"b\\\\c\\nd\\u0001e\u{7f}é\",\"id\":0}"
    );
}

#[test]
fn control_characters_use_short_escapes() {
    let c = MethodCall::new("\u{8}\u{c}\r\t\u{1f}".to_string(), None, 10);
    assert_eq!(
        encode_call(&c),
        "{\"jsonrpc\":\"2.0\",\"method\":\"\\b\\f\\r\\t\\u001f\",\"id\":10}"
    );
}

#[test]
fn largest_numeric_id() {
    let c = MethodCall::new("m".to_string(), None, u64::MAX);
    assert_eq!(
        encode_call(&c),
        r#"{"jsonrpc":"2.0","method":"m","id":18446744073709551615}"#
    );
}

#[test]
fn string_id_is_a_json_string() {
    let mut c = MethodCall::new("m".to_string(), None, 1);
    c.id = Id::Str("x\"y".to_string());
    assert_eq!(encode_call(&c), r#"{"jsonrpc":"2.0","method":"m","id":"x\"y"}"#);
}

#[test]
fn encoded_call_reads_back_with_same_id() {
    let c = MethodCall::new("bar".to_string(), Some(Params::Array(vec!["true".to_string()])), 9);
    let text = encode_call(&c);
    let read: jsonrpc_types::MethodCall = serde_json::from_str(&text).unwrap();
    assert_eq!(read.id, jsonrpc_types::Id::Num(9));
    assert_eq!(read.method, "bar");
    assert_eq!(read.params, Some(jsonrpc_types::Params::Array(vec![serde_json::Value::Bool(true)])));
    let reply = r#"{"jsonrpc":"2.0","id":9,"result":"x"}"#;
    let out: jsonrpc_types::Output = serde_json::from_str(reply).unwrap();
    match out {
        jsonrpc_types::Output::Success(s) => assert_eq!(s.id, read.id),
        jsonrpc_types::Output::Failure(_) => panic!("success expected"),
    }
}
