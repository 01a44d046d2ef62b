use aurora_mcp::dispatch::{invoke, ErrorKind, Outcome, Request};
use aurora_mcp::registry::default_registry;
use aurora_mcp::value::Value;

fn ts() -> String {
    "2024-01-01T00:00:00+00:00".to_string()
}

fn names(list: &[&str]) -> Value {
    Value::Arr(list.iter().map(|n| Value::Str(n.to_string())).collect())
}

fn greet(args: Vec<(String, Value)>) -> Outcome {
    let reg = default_registry();
    let req = Request {
        id: "g".to_string(),
        tool: "batch_greeting".to_string(),
        arguments: args,
        session: None,
    };
    invoke(&reg, req, &ts()).outcome
}

#[test]
fn greets_each_name_on_its_own_line() {
    let out = greet(vec![("names".to_string(), names(&["Alice", "Bob"]))]);
    assert_eq!(out, Outcome::Success(Value::Str("Hello, Alice!\nHello, Bob!".to_string())));
}

#[test]
fn prefix_replaces_the_default_greeting() {
    let out = greet(vec![
        ("names".to_string(), names(&["Ada"])),
        ("prefix".to_string(), Value::Str("Welcome".to_string())),
    ]);
    assert_eq!(out, Outcome::Success(Value::Str("Welcome, Ada!".to_string())));
}

#[test]
fn numbering_is_one_based() {
    let out = greet(vec![
        ("names".to_string(), names(&["Alice", "Bob", "Eve"])),
        ("include_numbers".to_string(), Value::Bool(true)),
    ]);
    assert_eq!(
        out,
        Outcome::Success(Value::Str(
            "1. Hello, Alice!\n2. Hello, Bob!\n3. Hello, Eve!".to_string()
        ))
    );
}

#[test]
fn structured_output_carries_count_prefix_and_flag() {
    let out = greet(vec![
        ("names".to_string(), names(&["Alice", "Bob"])),
        ("as_json".to_string(), Value::Bool(true)),
    ]);
    assert_eq!(
        out,
        Outcome::Success(Value::Obj(vec![
            (
                "greetings".to_string(),
                Value::Arr(vec![
                    Value::Str("Hello, Alice!".to_string()),
                    Value::Str("Hello, Bob!".to_string()),
                ])
            ),
            ("count".to_string(), Value::Int(2)),
            ("prefix".to_string(), Value::Str("Hello".to_string())),
            ("include_numbers".to_string(), Value::Bool(false)),
        ]))
    );
}

#[test]
fn no_names_is_a_handler_fault() {
    let out = greet(vec![("names".to_string(), Value::Arr(Vec::new()))]);
    assert_eq!(
        out,
        Outcome::Failure(
            ErrorKind::HandlerError,
            "Error: At least one name must be provided".to_string()
        )
    );
}

#[test]
fn a_non_string_name_is_a_handler_fault() {
    let out = greet(vec![(
        "names".to_string(),
        Value::Arr(vec![Value::Str("Alice".to_string()), Value::Int(5)]),
    )]);
    assert_eq!(
        out,
        Outcome::Failure(ErrorKind::HandlerError, "Error: every name must be a string".to_string())
    );
}

#[test]
fn wrong_typed_names_fail_validation_before_the_handler() {
    let out = greet(vec![("names".to_string(), Value::Str("Alice".to_string()))]);
    match out {
        Outcome::Failure(kind, message) => {
            assert_eq!(kind, ErrorKind::ValidationError);
            assert!(message.contains("names"));
        }
        other => panic!("expected a validation failure, got {:?}", other),
    }
}
