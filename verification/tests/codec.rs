//! The JSON codec itself, the request rendering, and the safety and
//! model value objects.

use gemini_client::json::JsonValue;
use gemini_client::message::Contents;
use gemini_client::parse::parse_json;
use gemini_client::render::to_json_string;
use gemini_client::request::GenerateContentRequest;
use gemini_client::safety::HarmBlockThreshold;
use gemini_client::safety::HarmCategory;
use gemini_client::safety::Model;
use gemini_client::safety::SafetySettings;
use gemini_client::tools::ToolBox;

#[test]
fn parser_reads_scalars() {
    assert_eq!(parse_json("null"), Some(JsonValue::Null));
    assert_eq!(parse_json("true"), Some(JsonValue::Bool(true)));
    assert_eq!(parse_json("false"), Some(JsonValue::Bool(false)));
    assert_eq!(parse_json("42"), Some(JsonValue::Int(42)));
    assert_eq!(parse_json("-17"), Some(JsonValue::Int(-17)));
    assert_eq!(parse_json("0"), Some(JsonValue::Int(0)));
    assert_eq!(parse_json("\"hi\""), Some(JsonValue::Str("hi".to_string())));
}

#[test]
fn parser_keeps_non_integer_numbers_as_literals() {
    assert_eq!(parse_json("0.5"), Some(JsonValue::Num("0.5".to_string())));
    assert_eq!(parse_json("-1.25e3"), Some(JsonValue::Num("-1.25e3".to_string())));
    assert_eq!(
        parse_json("12345678901234567890123"),
        Some(JsonValue::Num("12345678901234567890123".to_string()))
    );
}

#[test]
fn parser_rejects_malformed_numbers() {
    assert_eq!(parse_json("01"), None);
    assert_eq!(parse_json("1."), None);
    assert_eq!(parse_json("1e"), None);
    assert_eq!(parse_json("--1"), None);
    assert_eq!(parse_json("+1"), None);
}

#[test]
fn parser_reads_nested_structures_with_whitespace() {
    let v = parse_json(" { \"a\" : [ 1 , null , { } ] , \"b\" : [ ] } ").unwrap();
    assert_eq!(
        v,
        JsonValue::Obj(vec![
            (
                "a".to_string(),
                JsonValue::Arr(vec![
                    JsonValue::Int(1),
                    JsonValue::Null,
                    JsonValue::Obj(vec![]),
                ])
            ),
            ("b".to_string(), JsonValue::Arr(vec![])),
        ])
    );
}

#[test]
fn parser_reads_escapes() {
    assert_eq!(
        parse_json(r#""a\"b\\c\/d\n\tA""#),
        Some(JsonValue::Str("a\"b\\c/d\n\tA".to_string()))
    );
}

#[test]
fn parser_rejects_trailing_input_and_broken_syntax() {
    assert_eq!(parse_json("{} x"), None);
    assert_eq!(parse_json("{\"a\":}"), None);
    assert_eq!(parse_json("[1,]"), None);
    assert_eq!(parse_json("\"open"), None);
    assert_eq!(parse_json(""), None);
}

#[test]
fn parser_reads_ascii_unicode_escapes() {
    assert_eq!(
        parse_json(r#""A\u000a""#),
        Some(JsonValue::Str("A\n".to_string()))
    );
    // Raw characters pass through unrestricted...
    assert_eq!(parse_json(r#""é""#), Some(JsonValue::Str("é".to_string())));
    // ... but escapes past the ASCII range are a documented restriction.
    assert_eq!(parse_json("\"\\u00e9\""), None);
}

#[test]
fn media_and_file_parts_round_trip() {
    let blob = r#"{"inlineData":{"mimeType":"image/png","data":"AAAA"}}"#;
    let part = gemini_client::message::Part::from_json(&parse_json(blob).unwrap()).unwrap();
    assert_eq!(to_json_string(&part.to_json()), blob);
    assert_eq!(part.expect_inline_data().mime_type, "image/png");

    let file = r#"{"fileData":{"mimeType":null,"fileUri":"https://files.example/2"}}"#;
    let part = gemini_client::message::Part::from_json(&parse_json(file).unwrap()).unwrap();
    assert_eq!(to_json_string(&part.to_json()), file);
    assert_eq!(part.expect_file_data().file_uri, "https://files.example/2");
}

#[test]
fn content_accessors_follow_roles() {
    let user = gemini_client::message::Content::user();
    assert!(user.as_user().is_some());
    assert!(user.as_model().is_none());
    let model = gemini_client::message::Content::model();
    assert!(model.as_model().is_some());
    assert!(model.expect_model().as_user().is_none());
}

#[test]
fn parts_collect_function_calls_in_order() {
    let text = r#"{"role":"model","parts":[{"text":"a"},{"functionCall":{"name":"one","args":null}},{"text":"b"},{"functionCall":{"name":"two","args":null}}]}"#;
    let content = gemini_client::message::Content::from_json(&parse_json(text).unwrap()).unwrap();
    let calls = content.parts().get_function_calls();
    assert_eq!(calls.len(), 2);
    assert_eq!(calls[0].name, "one");
    assert_eq!(calls[1].name, "two");
    assert_eq!(calls[0].args, None);
}

#[test]
fn renderer_escapes_strings() {
    let v = JsonValue::Str("a\"b\\c\n\u{1}".to_string());
    assert_eq!(to_json_string(&v), r#""a\"b\\c\n\u0001""#);
}

#[test]
fn renderer_writes_integers() {
    assert_eq!(to_json_string(&JsonValue::Int(0)), "0");
    assert_eq!(to_json_string(&JsonValue::Int(-7)), "-7");
    assert_eq!(
        to_json_string(&JsonValue::Int(i64::MIN)),
        "-9223372036854775808"
    );
    assert_eq!(
        to_json_string(&JsonValue::Int(i64::MAX)),
        "9223372036854775807"
    );
}

#[test]
fn round_trip_through_text() {
    let text = r#"{"name":"t","args":{"xs":[1,2.5,"z",false,null]}}"#;
    let v = parse_json(text).unwrap();
    assert_eq!(to_json_string(&v), text);
}

#[test]
fn renderer_agrees_with_reference_parser() {
    let v = JsonValue::Obj(vec![
        ("s".to_string(), JsonValue::Str("a\"\n".to_string())),
        ("n".to_string(), JsonValue::Int(-3)),
        ("x".to_string(), JsonValue::Num("2.75".to_string())),
        ("l".to_string(), JsonValue::Arr(vec![JsonValue::Bool(true)])),
    ]);
    let rendered = to_json_string(&v);
    let reference: serde_json::Value = serde_json::from_str(&rendered).unwrap();
    assert_eq!(reference["s"], serde_json::Value::String("a\"\n".to_string()));
    assert_eq!(reference["n"].as_i64(), Some(-3));
    assert_eq!(reference["x"].as_f64(), Some(2.75));
    assert_eq!(reference["l"][0].as_bool(), Some(true));
}

#[test]
fn wf_check_accepts_parsed_values_and_rejects_bad_literals() {
    let parsed = parse_json(r#"{"a":[1.5e2]}"#).unwrap();
    assert!(parsed.check_wf());
    let bad = JsonValue::Num("not a number".to_string());
    assert!(!bad.check_wf());
    assert!(!JsonValue::Arr(vec![JsonValue::Num("1..2".to_string())]).check_wf());
}

#[test]
fn json_lookup_finds_the_first_match() {
    let v = parse_json(r#"{"k":1,"k":2,"other":3}"#).unwrap();
    assert_eq!(v.get("k"), Some(&JsonValue::Int(1)));
    assert_eq!(v.get("missing"), None);
}

#[test]
fn request_renders_only_present_fields() {
    let tools: ToolBox<u32> = ToolBox::new();
    let request = GenerateContentRequest {
        contents: Contents(vec![]),
        tools,
        safety_settings: None,
        system_instruction: None,
        generation_config: None,
        model: "gemini-1.5-flash".to_string(),
    };
    assert_eq!(
        to_json_string(&request.to_json()),
        r#"{"contents":[],"model":"gemini-1.5-flash"}"#
    );
}

#[test]
fn request_renders_tools_and_settings() {
    let mut tools: ToolBox<u32> = ToolBox::new();
    tools.register(gemini_client::tools::ToolEntry::new(
        "t".to_string(),
        None,
        gemini_client::schema::Shape::Str,
        0,
    ));
    let request = GenerateContentRequest {
        contents: Contents(vec![]),
        tools,
        safety_settings: Some(SafetySettings(vec![]).with_category(
            HarmCategory::HarmCategoryHarassment,
            HarmBlockThreshold::BlockNone,
        )),
        system_instruction: None,
        generation_config: Some(parse_json(r#"{"temperature":0.5}"#).unwrap()),
        model: "gemini-pro".to_string(),
    };
    assert_eq!(
        to_json_string(&request.to_json()),
        r#"{"contents":[],"tools":[{"functionDeclarations":[{"name":"t","parameters":{"type":"string"}}]}],"safety_settings":[{"category":"HARM_CATEGORY_HARASSMENT","threshold":"BLOCK_NONE"}],"generation_config":{"temperature":0.5},"model":"gemini-pro"}"#
    );
}

#[test]
fn safety_settings_default_covers_four_categories() {
    let settings = SafetySettings::default();
    assert_eq!(settings.0.len(), 4);
    assert_eq!(
        settings.0[0].category,
        HarmCategory::HarmCategoryHarassment
    );
    assert_eq!(settings.0[3].threshold, HarmBlockThreshold::BlockNone);
    let extended = settings.with_category(
        HarmCategory::HarmCategoryMedical,
        HarmBlockThreshold::BlockOnlyHigh,
    );
    assert_eq!(extended.0.len(), 5);
}

#[test]
fn model_names() {
    assert_eq!(Model::Gemini15Flash.as_str(), "gemini-1.5-flash");
    assert_eq!(Model::GeminiProVision.as_str(), "gemini-pro-vision");
    assert_eq!(Model::TextEmbedding004.as_str(), "text-embedding-004");
}

#[test]
fn upload_helpers() {
    assert_eq!(
        gemini_client::files::upload_url("v1beta", "k"),
        "https://generativelanguage.googleapis.com/upload/v1beta/files?key=k"
    );
    let reply = parse_json(r#"{"file":{"uri":"https://files.example/1"}}"#).unwrap();
    assert_eq!(
        gemini_client::files::extract_file_uri(&reply),
        Some("https://files.example/1".to_string())
    );
    assert_eq!(
        gemini_client::files::extract_file_uri(&JsonValue::Obj(vec![])),
        None
    );
}

#[test]
fn api_error_detail_text() {
    let detail = gemini_client::request::ApiErrorDetail {
        message: "boom".to_string(),
        param: Some("p".to_string()),
        code: Some("c".to_string()),
    };
    assert_eq!(detail.text(), "boom (parameter: p) (code: c)");
    let bare = gemini_client::request::ApiErrorDetail {
        message: "boom".to_string(),
        param: None,
        code: None,
    };
    assert_eq!(bare.text(), "boom");
}
