use aurora_mcp::clock::{invoke_now, now_rfc3339};
use aurora_mcp::codec::encode_response;
use aurora_mcp::dispatch::{complete, invoke, ErrorKind, Outcome, Request, Response};
use aurora_mcp::registry::{default_registry, echo_tool, Registry};
use aurora_mcp::value::Value;

fn echo_registry() -> Registry {
    let mut reg = Registry::new();
    reg.register(echo_tool()).expect("fresh registry");
    reg
}

fn request(id: &str, tool: &str, args: Vec<(String, Value)>) -> Request {
    Request { id: id.to_string(), tool: tool.to_string(), arguments: args, session: None }
}

fn ts() -> String {
    "2024-01-01T00:00:00+00:00".to_string()
}

#[test]
fn echo_call_round_trips_its_text() {
    let reg = echo_registry();
    let req = request("1", "echo", vec![("text".to_string(), Value::Str("hi".to_string()))]);
    let resp = invoke(&reg, req, &ts());
    assert_eq!(resp.id, "1");
    assert_eq!(resp.outcome, Outcome::Success(Value::Str("hi".to_string())));
    assert_eq!(encode_response(&resp), "{\"id\":\"1\",\"ok\":true,\"result\":\"hi\"}");
}

#[test]
fn unregistered_tool_fails_with_unknown_tool() {
    let reg = echo_registry();
    let req = request("7", "foo", Vec::new());
    let resp = invoke(&reg, req, &ts());
    assert_eq!(
        resp.outcome,
        Outcome::Failure(ErrorKind::UnknownTool, "unknown tool 'foo'".to_string())
    );
    assert_eq!(
        encode_response(&resp),
        "{\"id\":\"7\",\"ok\":false,\"error\":{\"kind\":\"UnknownTool\",\"message\":\"unknown tool 'foo'\"}}"
    );
}

#[test]
fn missing_argument_fails_with_validation_error_naming_the_field() {
    let reg = echo_registry();
    let req = request("2", "echo", Vec::new());
    let resp = invoke(&reg, req, &ts());
    match resp.outcome {
        Outcome::Failure(kind, message) => {
            assert_eq!(kind, ErrorKind::ValidationError);
            assert_eq!(message, "invalid arguments: missing required field 'text'");
            assert!(message.contains("text"));
        }
        other => panic!("expected a validation failure, got {:?}", other),
    }
}

#[test]
fn handler_past_its_deadline_times_out() {
    let slow = complete(
        "1".to_string(),
        1_000,
        5_000,
        Ok(Value::Str("too late".to_string())),
    );
    assert_eq!(
        slow.outcome,
        Outcome::Failure(ErrorKind::Timeout, "handler exceeded the configured timeout".to_string())
    );

    let prompt = complete("1".to_string(), 1_000, 900, Ok(Value::Str("in time".to_string())));
    assert_eq!(prompt.outcome, Outcome::Success(Value::Str("in time".to_string())));

    let fault = complete("1".to_string(), 1_000, 900, Err("boom".to_string()));
    assert_eq!(fault.outcome, Outcome::Failure(ErrorKind::HandlerError, "boom".to_string()));
}

#[test]
fn hello_world_returns_the_fixed_greeting() {
    let reg = default_registry();
    let resp = invoke(&reg, request("h", "hello_world", Vec::new()), &ts());
    assert_eq!(
        resp.outcome,
        Outcome::Success(Value::Str("Hello, World! from Aurora OS MCP Server 🌟".to_string()))
    );
}

#[test]
fn usa_president_returns_the_fixed_line() {
    let reg = default_registry();
    let resp = invoke(&reg, request("p", "get_usa_president", Vec::new()), &ts());
    match resp.outcome {
        Outcome::Success(Value::Str(s)) => {
            assert!(s.contains("2025"));
        }
        other => panic!("expected a string result, got {:?}", other),
    }
}

fn obj_field<'a>(v: &'a Value, key: &str) -> &'a Value {
    match v {
        Value::Obj(pairs) => pairs
            .iter()
            .find(|(k, _)| k == key)
            .map(|(_, v)| v)
            .unwrap_or_else(|| panic!("field {} absent", key)),
        other => panic!("expected an object, got {:?}", other),
    }
}

#[test]
fn server_info_describes_the_server() {
    let reg = default_registry();
    let resp = invoke(&reg, request("i", "get_server_info", Vec::new()), &ts());
    match resp.outcome {
        Outcome::Success(info) => {
            assert_eq!(obj_field(&info, "server"), &Value::Str("Aurora OS MCP Demo Server".to_string()));
            assert_eq!(obj_field(&info, "version"), &Value::Str("0.1.0".to_string()));
            assert_eq!(
                obj_field(&info, "transports"),
                &Value::Arr(vec![
                    Value::Str("stdio".to_string()),
                    Value::Str("http".to_string()),
                    Value::Str("sse".to_string()),
                ])
            );
        }
        other => panic!("expected a structured result, got {:?}", other),
    }
}

#[test]
fn health_report_carries_the_supplied_timestamp() {
    let reg = default_registry();
    let resp = invoke(&reg, request("h", "health_check", Vec::new()), &ts());
    match resp.outcome {
        Outcome::Success(health) => {
            assert_eq!(obj_field(&health, "status"), &Value::Str("healthy".to_string()));
            assert_eq!(obj_field(&health, "timestamp"), &Value::Str(ts()));
            assert_eq!(obj_field(&health, "uptime_seconds"), &Value::Int(0));
            assert_eq!(obj_field(&health, "tools_available"), &Value::Int(4));
        }
        other => panic!("expected a structured result, got {:?}", other),
    }
}

#[test]
fn clock_rendering_is_never_empty() {
    assert!(!now_rfc3339().is_empty());
}

#[test]
fn invoke_now_dispatches_like_invoke() {
    let reg = echo_registry();
    let req = request("9", "echo", vec![("text".to_string(), Value::Str("now".to_string()))]);
    let resp: Response = invoke_now(&reg, req);
    assert_eq!(resp.outcome, Outcome::Success(Value::Str("now".to_string())));
}

#[test]
fn a_duplicated_argument_key_takes_its_first_binding() {
    let reg = echo_registry();
    let req = request(
        "d",
        "echo",
        vec![
            ("text".to_string(), Value::Str("first".to_string())),
            ("text".to_string(), Value::Str("second".to_string())),
        ],
    );
    let resp = invoke(&reg, req, &ts());
    assert_eq!(resp.outcome, Outcome::Success(Value::Str("first".to_string())));
}
