//! The registry and the dispatcher: registration and lookup, overwrite
//! semantics, schema derivation, and every dispatch failure mode.

use gemini_client::json::JsonValue;
use gemini_client::message::FunctionCall;
use gemini_client::render::to_json_string;
use gemini_client::schema::FieldDecl;
use gemini_client::schema::Shape;
use gemini_client::tools::finish_call;
use gemini_client::tools::DispatchPlan;
use gemini_client::tools::FunctionCallBuilder;
use gemini_client::tools::FunctionCallError;
use gemini_client::tools::FunctionCallingConfig;
use gemini_client::tools::Mode;
use gemini_client::tools::Tool;
use gemini_client::tools::ToolBox;
use gemini_client::tools::ToolConfig;
use gemini_client::tools::ToolContext;
use gemini_client::tools::ToolEntry;

struct EchoTool;

impl Tool for EchoTool {
    fn name(&self) -> String {
        "echo".to_string()
    }

    fn description(&self) -> Option<String> {
        Some("Echoes its message back".to_string())
    }

    fn input_shape(&self) -> Shape {
        Shape::Object(vec![FieldDecl {
            name: "msg".to_string(),
            shape: Shape::Str,
            required: true,
        }])
    }

    fn invoke(&self, args: JsonValue) -> Result<JsonValue, String> {
        match args.get("msg") {
            Some(m) => Ok(JsonValue::Obj(vec![("echo".to_string(), m.deep_clone())])),
            None => Err("missing msg".to_string()),
        }
    }
}

struct FailTool;

impl Tool for FailTool {
    fn name(&self) -> String {
        "fail".to_string()
    }

    fn description(&self) -> Option<String> {
        None
    }

    fn input_shape(&self) -> Shape {
        Shape::Object(vec![])
    }

    fn invoke(&self, _args: JsonValue) -> Result<JsonValue, String> {
        Err("the handler went wrong".to_string())
    }
}

#[test]
fn register_then_lookup_returns_the_tool() {
    let mut tools: ToolBox<EchoTool> = ToolBox::new();
    assert!(tools.is_empty());
    tools.add(EchoTool);
    assert_eq!(tools.len(), 1);
    let entry = tools.get("echo").expect("the registered tool is found");
    assert_eq!(entry.name(), "echo");
    assert!(tools.get("missing").is_none());
}

#[test]
fn register_existing_name_overwrites() {
    let mut tools: ToolBox<u32> = ToolBox::new();
    tools.register(ToolEntry::new("t".to_string(), None, Shape::Str, 1));
    tools.register(ToolEntry::new("t".to_string(), None, Shape::Int, 2));
    assert_eq!(tools.len(), 1);
    let entry = tools.get("t").unwrap();
    assert_eq!(*entry.tool(), 2);
    assert_eq!(
        to_json_string(entry.schema()),
        r#"{"type":"integer"}"#
    );
}

#[test]
fn dispatch_unknown_name_reports_tool_not_found() {
    let tools: ToolBox<EchoTool> = ToolBox::new();
    let response = tools.invoke(FunctionCall {
        name: "missing".to_string(),
        args: Some(JsonValue::Obj(vec![])),
    });
    assert_eq!(response.name, "missing");
    assert_eq!(
        to_json_string(&response.to_json()),
        r#"{"name":"missing","response":{"error":"Tool not found: missing"}}"#
    );
}

#[test]
fn dispatch_malformed_args_reports_deserialization_failure() {
    let mut tools: ToolBox<EchoTool> = ToolBox::new();
    tools.add(EchoTool);
    let response = tools.invoke(FunctionCall {
        name: "echo".to_string(),
        args: Some(JsonValue::Obj(vec![("msg".to_string(), JsonValue::Int(42))])),
    });
    assert_eq!(response.name, "echo");
    let text = to_json_string(&response.response);
    assert!(text.contains("input deserialization failed"));
}

#[test]
fn dispatch_echo_round_trip() {
    let mut tools: ToolBox<EchoTool> = ToolBox::new();
    tools.add(EchoTool);
    let response = tools.invoke(FunctionCall {
        name: "echo".to_string(),
        args: Some(JsonValue::Obj(vec![(
            "msg".to_string(),
            JsonValue::Str("hi".to_string()),
        )])),
    });
    assert_eq!(
        to_json_string(&response.to_json()),
        r#"{"name":"echo","response":{"echo":"hi"}}"#
    );
}

#[test]
fn dispatch_absent_args_means_empty_object() {
    let mut tools: ToolBox<FailTool> = ToolBox::new();
    tools.add(FailTool);
    let response = tools.invoke(FunctionCall {
        name: "fail".to_string(),
        args: None,
    });
    assert_eq!(
        to_json_string(&response.response),
        r#"{"error":"the handler went wrong"}"#
    );
}

#[test]
fn schema_derivation_for_record() {
    let shape = Shape::Object(vec![
        FieldDecl {
            name: "a".to_string(),
            shape: Shape::Str,
            required: true,
        },
        FieldDecl {
            name: "b".to_string(),
            shape: Shape::Int,
            required: true,
        },
    ]);
    assert_eq!(
        to_json_string(&shape.derive_schema()),
        r#"{"type":"object","properties":{"a":{"type":"string"},"b":{"type":"integer"}},"required":["a","b"]}"#
    );
}

#[test]
fn schema_derivation_for_scalars_and_arrays() {
    assert_eq!(to_json_string(&Shape::Str.derive_schema()), r#"{"type":"string"}"#);
    assert_eq!(to_json_string(&Shape::Num.derive_schema()), r#"{"type":"number"}"#);
    assert_eq!(to_json_string(&Shape::Bool.derive_schema()), r#"{"type":"boolean"}"#);
    assert_eq!(
        to_json_string(&Shape::Array(Box::new(Shape::Int)).derive_schema()),
        r#"{"type":"array","items":{"type":"integer"}}"#
    );
}

#[test]
fn optional_fields_validate_loosely() {
    let shape = Shape::Object(vec![FieldDecl {
        name: "n".to_string(),
        shape: Shape::Int,
        required: false,
    }]);
    let mut tools: ToolBox<FailTool> = ToolBox::new();
    tools.register(ToolEntry::new("t".to_string(), None, shape, FailTool));
    // absent and null both pass; a mismatching value does not
    let ok = tools.invoke(FunctionCall {
        name: "t".to_string(),
        args: Some(JsonValue::Obj(vec![])),
    });
    assert_eq!(to_json_string(&ok.response), r#"{"error":"the handler went wrong"}"#);
    let null_ok = tools.invoke(FunctionCall {
        name: "t".to_string(),
        args: Some(JsonValue::Obj(vec![("n".to_string(), JsonValue::Null)])),
    });
    assert_eq!(to_json_string(&null_ok.response), r#"{"error":"the handler went wrong"}"#);
    let bad = tools.invoke(FunctionCall {
        name: "t".to_string(),
        args: Some(JsonValue::Obj(vec![(
            "n".to_string(),
            JsonValue::Str("x".to_string()),
        )])),
    });
    assert!(to_json_string(&bad.response).contains("input deserialization failed"));
}

#[test]
fn declarations_json_lists_registered_tools() {
    let mut tools: ToolBox<EchoTool> = ToolBox::new();
    tools.add(EchoTool);
    assert_eq!(
        to_json_string(&tools.declarations_json()),
        r#"[{"functionDeclarations":[{"name":"echo","description":"Echoes its message back","parameters":{"type":"object","properties":{"msg":{"type":"string"}},"required":["msg"]}}]}]"#
    );
}

#[test]
fn metadata_carries_names_and_schemas() {
    let mut tools: ToolBox<EchoTool> = ToolBox::new();
    tools.add(EchoTool);
    let meta = tools.metadata();
    assert_eq!(meta.len(), 1);
    assert_eq!(meta[0].function_declarations.len(), 1);
    assert_eq!(meta[0].function_declarations[0].name, "echo");
}

#[test]
fn tool_context_returns_copies_and_replaces() {
    let mut ctx = ToolContext::new();
    assert!(ctx.get("counter").is_none());
    ctx.set("counter", JsonValue::Int(1));
    assert_eq!(ctx.get("counter"), Some(JsonValue::Int(1)));
    ctx.set("counter", JsonValue::Int(2));
    assert_eq!(ctx.get("counter"), Some(JsonValue::Int(2)));
    ctx.set("other", JsonValue::Str("x".to_string()));
    assert_eq!(ctx.get("counter"), Some(JsonValue::Int(2)));
}

#[test]
fn function_call_builder_accumulates_pieces() {
    let mut builder = FunctionCallBuilder::new("tool");
    builder.push_str("{\"a\":");
    builder.push_str(" 1}");
    let call = builder.build().unwrap();
    assert_eq!(call.name, "tool");
    assert_eq!(
        call.args,
        Some(JsonValue::Obj(vec![("a".to_string(), JsonValue::Int(1))]))
    );
}

#[test]
fn function_call_builder_blank_args_mean_none() {
    let builder = FunctionCallBuilder::new("tool");
    let call = builder.build().unwrap();
    assert_eq!(call.args, None);

    let mut spaced = FunctionCallBuilder::new("tool");
    spaced.push_str("   \n");
    assert_eq!(spaced.build().unwrap().args, None);

    let mut broken = FunctionCallBuilder::new("tool");
    broken.push_str("{oops");
    assert!(broken.build().is_err());
}

#[test]
fn function_call_error_messages() {
    assert_eq!(
        FunctionCallError::ToolNotFound("x".to_string()).message(),
        "Tool not found: x"
    );
    assert_eq!(
        FunctionCallError::InputDeserializationFailed("d".to_string()).message(),
        "input deserialization failed: d"
    );
    assert_eq!(
        FunctionCallError::OutputSerializationFailed("d".to_string()).message(),
        "output serialization failed: d"
    );
    assert_eq!(
        FunctionCallError::ExecutionFailed("d".to_string()).message(),
        "Failed to execute tool: d"
    );
}

struct BadOutputTool;

impl Tool for BadOutputTool {
    fn name(&self) -> String {
        "bad_output".to_string()
    }

    fn description(&self) -> Option<String> {
        None
    }

    fn input_shape(&self) -> Shape {
        Shape::Object(vec![])
    }

    fn invoke(&self, _args: JsonValue) -> Result<JsonValue, String> {
        Ok(JsonValue::Num("not a number".to_string()))
    }
}

#[test]
fn dispatch_unserializable_output_is_reported() {
    let mut tools: ToolBox<BadOutputTool> = ToolBox::new();
    tools.add(BadOutputTool);
    let response = tools.invoke(FunctionCall {
        name: "bad_output".to_string(),
        args: None,
    });
    let text = to_json_string(&response.response);
    assert!(text.contains("output serialization failed"));
}

#[test]
fn plan_and_finish_split_dispatch_for_external_handlers() {
    let mut tools: ToolBox<EchoTool> = ToolBox::new();
    tools.add(EchoTool);
    let call = FunctionCall {
        name: "echo".to_string(),
        args: Some(JsonValue::Obj(vec![(
            "msg".to_string(),
            JsonValue::Str("hello".to_string()),
        )])),
    };
    match tools.plan(&call) {
        DispatchPlan::Run { name, args } => {
            assert_eq!(name, "echo");
            // The handler runs elsewhere (it may suspend); its outcome
            // is wrapped without touching the registry.
            let entry = tools.get("echo").unwrap();
            let outcome = entry.tool().invoke(args);
            let response = finish_call(name, outcome);
            assert_eq!(
                to_json_string(&response.to_json()),
                r#"{"name":"echo","response":{"echo":"hello"}}"#
            );
        }
        DispatchPlan::Reply(resp) => panic!("unexpected early reply {:?}", resp),
    }

    let unknown = FunctionCall {
        name: "nope".to_string(),
        args: None,
    };
    match tools.plan(&unknown) {
        DispatchPlan::Reply(resp) => {
            assert_eq!(
                to_json_string(&resp.response),
                r#"{"error":"Tool not found: nope"}"#
            );
        }
        DispatchPlan::Run { .. } => panic!("an unknown name must not run"),
    }
}

#[test]
fn tool_config_builders_set_fields() {
    let config = ToolConfig {
        function_calling_config: None,
    }
    .mode(Mode::Any);
    let fcc = config.function_calling_config.unwrap();
    assert_eq!(fcc.mode, Some(Mode::Any));
    assert_eq!(fcc.allowed_function_names, None);

    let fcc2 = FunctionCallingConfig::new()
        .mode(Mode::Auto)
        .allowed_function_names(vec!["a".to_string()]);
    assert_eq!(fcc2.mode, Some(Mode::Auto));
    assert_eq!(fcc2.allowed_function_names, Some(vec!["a".to_string()]));
}
