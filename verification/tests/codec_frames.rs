use aurora_mcp::codec::{encode_request, encode_response, encode_value, sse_frame, stdio_frame};
use aurora_mcp::dispatch::{ErrorKind, Outcome, Request, Response};
use aurora_mcp::text::{i64_to_string, u64_to_string};
use aurora_mcp::value::Value;

#[test]
fn scalars_encode_canonically() {
    assert_eq!(encode_value(&Value::Null), "null");
    assert_eq!(encode_value(&Value::Bool(true)), "true");
    assert_eq!(encode_value(&Value::Bool(false)), "false");
    assert_eq!(encode_value(&Value::Int(0)), "0");
    assert_eq!(encode_value(&Value::Int(-321)), "-321");
    assert_eq!(encode_value(&Value::Str("hi".to_string())), "\"hi\"");
}

#[test]
fn strings_escape_quotes_backslashes_and_controls() {
    assert_eq!(
        encode_value(&Value::Str("a\"b\\c\nd\re\tf".to_string())),
        "\"a\\\"b\\\\c\\nd\\re\\tf\""
    );
}

#[test]
fn containers_encode_in_order() {
    let v = Value::Obj(vec![
        ("xs".to_string(), Value::Arr(vec![Value::Int(1), Value::Int(2), Value::Null])),
        ("name".to_string(), Value::Str("x".to_string())),
        ("inner".to_string(), Value::Obj(vec![("k".to_string(), Value::Bool(false))])),
    ]);
    assert_eq!(
        encode_value(&v),
        "{\"xs\":[1,2,null],\"name\":\"x\",\"inner\":{\"k\":false}}"
    );
}

#[test]
fn empty_containers_encode_bare() {
    assert_eq!(encode_value(&Value::Arr(Vec::new())), "[]");
    assert_eq!(encode_value(&Value::Obj(Vec::new())), "{}");
}

#[test]
fn decimal_rendering_is_exact() {
    assert_eq!(u64_to_string(0), "0");
    assert_eq!(u64_to_string(90210), "90210");
    assert_eq!(u64_to_string(u64::MAX), "18446744073709551615");
    assert_eq!(i64_to_string(i64::MIN), "-9223372036854775808");
    assert_eq!(i64_to_string(i64::MAX), "9223372036854775807");
}

#[test]
fn requests_encode_canonically() {
    let req = Request {
        id: "1".to_string(),
        tool: "echo".to_string(),
        arguments: vec![("text".to_string(), Value::Str("hi".to_string()))],
        session: None,
    };
    assert_eq!(
        encode_request(&req),
        "{\"id\":\"1\",\"tool\":\"echo\",\"arguments\":{\"text\":\"hi\"}}"
    );
    let tagged = Request {
        id: "2".to_string(),
        tool: "echo".to_string(),
        arguments: Vec::new(),
        session: Some(7),
    };
    assert_eq!(
        encode_request(&tagged),
        "{\"id\":\"2\",\"tool\":\"echo\",\"arguments\":{},\"session\":7}"
    );
}

#[test]
fn failure_responses_encode_the_error_object() {
    let resp = Response {
        id: "9".to_string(),
        outcome: Outcome::Failure(ErrorKind::Timeout, "handler exceeded the configured timeout".to_string()),
    };
    assert_eq!(
        encode_response(&resp),
        "{\"id\":\"9\",\"ok\":false,\"error\":{\"kind\":\"Timeout\",\"message\":\"handler exceeded the configured timeout\"}}"
    );
}

#[test]
fn transport_and_session_failures_carry_their_kind_names() {
    let transport = Response {
        id: String::new(),
        outcome: Outcome::Failure(ErrorKind::TransportError, "malformed request".to_string()),
    };
    assert_eq!(
        encode_response(&transport),
        "{\"id\":\"\",\"ok\":false,\"error\":{\"kind\":\"TransportError\",\"message\":\"malformed request\"}}"
    );
    let session = Response {
        id: "4".to_string(),
        outcome: Outcome::Failure(ErrorKind::UnknownSession, "missing session id".to_string()),
    };
    assert_eq!(
        encode_response(&session),
        "{\"id\":\"4\",\"ok\":false,\"error\":{\"kind\":\"UnknownSession\",\"message\":\"missing session id\"}}"
    );
}

#[test]
fn instructions_describe_tools_and_transports() {
    let text = aurora_mcp::dispatch::server_instructions();
    assert!(text.starts_with("Aurora OS MCP Demo Server"));
    assert!(text.contains("batch_greeting"));
    assert!(text.contains("sse"));
}

#[test]
fn frames_wrap_the_encoded_response() {
    let resp = Response { id: "1".to_string(), outcome: Outcome::Success(Value::Null) };
    assert_eq!(stdio_frame(&resp), "{\"id\":\"1\",\"ok\":true,\"result\":null}\n");
    assert_eq!(sse_frame(&resp), "data: {\"id\":\"1\",\"ok\":true,\"result\":null}\n\n");
}
