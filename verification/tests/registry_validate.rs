use aurora_mcp::registry::{
    default_registry, echo_tool, FieldSpec, HandlerKind, Registry, RegistryError, Schema, ToolSpec,
};
use aurora_mcp::validate::{validate, FaultKind};
use aurora_mcp::value::{FieldType, Value};

fn named_tool(name: &str) -> ToolSpec {
    ToolSpec {
        name: name.to_string(),
        schema: Schema { fields: Vec::new(), allow_extra: false },
        handler: HandlerKind::HelloWorld,
    }
}

#[test]
fn register_then_lookup_returns_the_spec() {
    let mut reg = Registry::new();
    assert!(reg.register(echo_tool()).is_ok());
    let found = reg.lookup(&"echo".to_string()).expect("echo must resolve");
    assert_eq!(found.name, "echo");
    assert_eq!(found.handler, HandlerKind::Echo);
    assert_eq!(found.schema.fields.len(), 1);
    assert_eq!(found.schema.fields[0].name, "text");
    assert_eq!(found.schema.fields[0].ty, FieldType::Str);
    assert!(found.schema.fields[0].required);
}

#[test]
fn duplicate_registration_fails_on_second_call() {
    let mut reg = Registry::new();
    assert!(reg.register(named_tool("twice")).is_ok());
    assert_eq!(reg.register(named_tool("twice")), Err(RegistryError::DuplicateName));
    assert_eq!(reg.list_all().len(), 1);
}

#[test]
fn lookup_of_unregistered_name_is_none() {
    let reg = Registry::new();
    assert!(reg.lookup(&"anything".to_string()).is_none());
}

#[test]
fn default_registry_lists_tools_in_registration_order() {
    let reg = default_registry();
    let names: Vec<&str> = reg.list_all().iter().map(|t| t.name.as_str()).collect();
    assert_eq!(
        names,
        vec!["hello_world", "get_usa_president", "get_server_info", "health_check", "batch_greeting"]
    );
}

fn echo_schema() -> Schema {
    Schema {
        fields: vec![FieldSpec { name: "text".to_string(), ty: FieldType::Str, required: true }],
        allow_extra: false,
    }
}

#[test]
fn conforming_arguments_validate_and_stay_unchanged() {
    let schema = echo_schema();
    let args = vec![("text".to_string(), Value::Str("hi".to_string()))];
    assert!(validate(&schema, &args).is_ok());
    assert_eq!(args[0].1, Value::Str("hi".to_string()));
}

#[test]
fn missing_required_field_is_named() {
    let schema = echo_schema();
    let args: Vec<(String, Value)> = Vec::new();
    let faults = validate(&schema, &args).expect_err("must fail");
    assert_eq!(faults.len(), 1);
    assert_eq!(faults[0].field, "text");
    assert_eq!(faults[0].kind, FaultKind::Missing);
}

#[test]
fn wrong_typed_field_is_named() {
    let schema = echo_schema();
    let args = vec![("text".to_string(), Value::Int(3))];
    let faults = validate(&schema, &args).expect_err("must fail");
    assert_eq!(faults.len(), 1);
    assert_eq!(faults[0].field, "text");
    assert_eq!(faults[0].kind, FaultKind::WrongType);
}

#[test]
fn unexpected_field_is_named_unless_extras_allowed() {
    let schema = echo_schema();
    let args = vec![
        ("text".to_string(), Value::Str("hi".to_string())),
        ("color".to_string(), Value::Str("red".to_string())),
    ];
    let faults = validate(&schema, &args).expect_err("must fail");
    assert_eq!(faults.len(), 1);
    assert_eq!(faults[0].field, "color");
    assert_eq!(faults[0].kind, FaultKind::Unexpected);

    let mut open_schema = echo_schema();
    open_schema.allow_extra = true;
    assert!(validate(&open_schema, &args).is_ok());
}

#[test]
fn every_violation_is_reported_not_only_the_first() {
    let schema = Schema {
        fields: vec![
            FieldSpec { name: "a".to_string(), ty: FieldType::Str, required: true },
            FieldSpec { name: "b".to_string(), ty: FieldType::Num, required: true },
        ],
        allow_extra: false,
    };
    let args = vec![
        ("b".to_string(), Value::Str("not a number".to_string())),
        ("c".to_string(), Value::Null),
    ];
    let faults = validate(&schema, &args).expect_err("must fail");
    let summary: Vec<(&str, FaultKind)> =
        faults.iter().map(|f| (f.field.as_str(), f.kind)).collect();
    assert_eq!(
        summary,
        vec![("a", FaultKind::Missing), ("b", FaultKind::WrongType), ("c", FaultKind::Unexpected)]
    );
}

#[test]
fn null_is_no_declared_type() {
    let schema = echo_schema();
    let args = vec![("text".to_string(), Value::Null)];
    let faults = validate(&schema, &args).expect_err("must fail");
    assert_eq!(faults[0].kind, FaultKind::WrongType);
}
