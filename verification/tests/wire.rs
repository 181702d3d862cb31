//! Wire-format encoding and decoding of roles, turns, parts and
//! function calls.

use gemini_client::json::JsonValue;
use gemini_client::message::Content;
use gemini_client::message::FunctionCall;
use gemini_client::message::FunctionResponse;
use gemini_client::message::Part;
use gemini_client::message::Parts;
use gemini_client::message::Role;
use gemini_client::message::Text;
use gemini_client::parse::parse_json;
use gemini_client::render::to_json_string;

#[test]
fn test_role_serialization() {
    let user_role = Role::User;
    let user_json = to_json_string(&user_role.to_json());
    assert_eq!(user_json, "\"user\"");

    let model_role = Role::Model;
    let model_json = to_json_string(&model_role.to_json());
    assert_eq!(model_json, "\"model\"");
}

#[test]
fn test_role_deserialization() {
    let user_json = "\"user\"";
    let user_role = Role::from_json(&parse_json(user_json).unwrap()).unwrap();
    assert_eq!(user_role, Role::User);

    let model_json = "\"model\"";
    let model_role = Role::from_json(&parse_json(model_json).unwrap()).unwrap();
    assert_eq!(model_role, Role::Model);
}

#[test]
fn test_content_serialization() {
    let content = Content::user().set_parts(vec![Part::Text(Text("Hello, world!".to_string()))]);
    let json_content = to_json_string(&content.to_json());
    assert_eq!(
        json_content,
        r#"{"role":"user","parts":[{"text":"Hello, world!"}]}"#
    );
}

#[test]
fn test_content_deserialization() {
    let json_content = r#"{"parts":[{"text":"Hello, world!"}],"role":"user"}"#;
    let content = Content::from_json(&parse_json(json_content).unwrap()).unwrap();
    assert_eq!(
        content,
        Content::user().set_parts(vec![Part::Text(Text("Hello, world!".to_string()))])
    );
}

#[test]
fn test_part_serialization() {
    let part = Part::Text(Text("Hello, world!".to_string()));
    let json_part = to_json_string(&part.to_json());
    assert_eq!(json_part, r#"{"text":"Hello, world!"}"#);
}

#[test]
fn test_part_deserialization() {
    let json_part = r#"{"text":"Hello, world!"}"#;
    let part = Part::from_json(&parse_json(json_part).unwrap()).unwrap();
    assert_eq!(part, Part::Text(Text("Hello, world!".to_string())));
}

#[test]
fn test_text_serialization() {
    let text = Text("Hello, world!".to_string());
    let json_text = to_json_string(&text.to_json());
    assert_eq!(json_text, r#"{"text":"Hello, world!"}"#);
}

#[test]
fn test_text_deserialization() {
    let json_text = r#"{"text":"Hello, world!"}"#;
    let text = Text::from_json(&parse_json(json_text).unwrap()).unwrap();
    assert_eq!(text, Text("Hello, world!".to_string()));
}

#[test]
fn test_function_call_serialization() {
    let function_call = FunctionCall {
        name: "my_function".to_string(),
        args: Some(JsonValue::Obj(vec![
            ("arg1".to_string(), JsonValue::Str("value1".to_string())),
            ("arg2".to_string(), JsonValue::Int(42)),
        ])),
    };
    let json_function_call = to_json_string(&function_call.to_json());
    assert_eq!(
        json_function_call,
        r#"{"name":"my_function","args":{"arg1":"value1","arg2":42}}"#
    );
}

#[test]
fn test_function_call_deserialization() {
    let json_function_call = r#"{"name":"my_function","args":{"arg1":"value1","arg2":42}}"#;
    let function_call = FunctionCall::from_json(&parse_json(json_function_call).unwrap()).unwrap();
    assert_eq!(
        function_call,
        FunctionCall {
            name: "my_function".to_string(),
            args: Some(JsonValue::Obj(vec![
                ("arg1".to_string(), JsonValue::Str("value1".to_string())),
                ("arg2".to_string(), JsonValue::Int(42)),
            ])),
        }
    );
}

#[test]
fn test_function_response_serialization() {
    let function_response = FunctionResponse {
        name: "my_function".to_string(),
        response: JsonValue::Obj(vec![(
            "result".to_string(),
            JsonValue::Str("success".to_string()),
        )]),
    };
    let json_function_response = to_json_string(&function_response.to_json());
    assert_eq!(
        json_function_response,
        r#"{"name":"my_function","response":{"result":"success"}}"#
    );
}

#[test]
fn test_function_response_deserialization() {
    let json_function_response = r#"{"name":"my_function","response":{"result":"success"}}"#;
    let function_response =
        FunctionResponse::from_json(&parse_json(json_function_response).unwrap()).unwrap();
    assert_eq!(
        function_response,
        FunctionResponse {
            name: "my_function".to_string(),
            response: JsonValue::Obj(vec![(
                "result".to_string(),
                JsonValue::Str("success".to_string()),
            )]),
        }
    );
}

#[test]
fn test_deserialize_content_with_function_call() {
    let input = r#"{
        "parts": [
            {
                "functionCall": {
                    "name": "test_function",
                    "args": {
                        "x": 1,
                        "y": 2
                    }
                }
            }
        ],
        "role": "model"
    }"#;

    let expected = Content::Model {
        parts: Parts(vec![Part::FunctionCall(FunctionCall {
            name: "test_function".to_string(),
            args: Some(JsonValue::Obj(vec![
                ("x".to_string(), JsonValue::Int(1)),
                ("y".to_string(), JsonValue::Int(2)),
            ])),
        })]),
    };
    let result = Content::from_json(&parse_json(input).unwrap()).unwrap();
    assert_eq!(result, expected);
}
