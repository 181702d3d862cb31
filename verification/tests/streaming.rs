//! The stream decoder, the HTTP reply interpretation, and the bounded
//! conversation loop.

use gemini_client::convo::Conversation;
use gemini_client::convo::Phase;
use gemini_client::json::JsonValue;
use gemini_client::message::Content;
use gemini_client::message::Contents;
use gemini_client::message::Part;
use gemini_client::message::Text;
use gemini_client::request::interpret_response;
use gemini_client::request::request_url;
use gemini_client::request::ApiRequestError;
use gemini_client::response::FinishReason;
use gemini_client::response::GenerateContentResponse;
use gemini_client::schema::Shape;
use gemini_client::stream::StreamDecoder;
use gemini_client::tools::Tool;
use gemini_client::tools::ToolBox;

fn sample_frame_body() -> &'static str {
    r#"{"candidates":[{"content":{"role":"model","parts":[{"text":"hi"}]},"finishReason":"STOP","index":0}]}"#
}

#[test]
fn decoder_reassembles_a_frame_split_across_chunks() {
    let frame = format!("data: {}\n\n", sample_frame_body());
    let bytes = frame.as_bytes();

    let mut whole = StreamDecoder::new();
    let unsplit = whole.feed(bytes);
    assert_eq!(unsplit.len(), 1);
    let expected = unsplit[0].as_ref().expect("the unsplit frame decodes");

    // Split at every possible boundary: the fragment must be identical.
    let mut cut: usize = 0;
    while cut <= bytes.len() {
        let mut decoder = StreamDecoder::new();
        let mut out = decoder.feed(&bytes[..cut]);
        let mut tail = decoder.feed(&bytes[cut..]);
        out.append(&mut tail);
        assert_eq!(out.len(), 1);
        let got = out[0].as_ref().expect("the split frame decodes");
        assert_eq!(got, expected);
        cut += 1;
    }
}

#[test]
fn decoder_buffers_until_the_frame_completes() {
    let mut decoder = StreamDecoder::new();
    assert_eq!(decoder.feed(b"data: ").len(), 0);
    assert_eq!(decoder.feed(sample_frame_body().as_bytes()).len(), 0);
    assert_eq!(decoder.feed(b"\n").len(), 0);
    let out = decoder.feed(b"\n");
    assert_eq!(out.len(), 1);
    assert!(out[0].is_ok());
}

#[test]
fn decoder_reports_invalid_event_data_with_the_raw_text() {
    let mut decoder = StreamDecoder::new();
    let out = decoder.feed(b"event: ping\n\n");
    assert_eq!(out.len(), 1);
    match &out[0] {
        Err(ApiRequestError::InvalidEventData(t)) => assert_eq!(t, "event: ping"),
        other => panic!("expected invalid event data, got {:?}", other),
    }
}

#[test]
fn decoder_reports_unparseable_payload_and_keeps_going() {
    let mut decoder = StreamDecoder::new();
    let mut input = Vec::new();
    input.extend_from_slice(b"data: {broken\n\n");
    input.extend_from_slice(format!("data: {}\n\n", sample_frame_body()).as_bytes());
    let out = decoder.feed(&input);
    assert_eq!(out.len(), 2);
    match &out[0] {
        Err(ApiRequestError::InvalidEventData(t)) => assert_eq!(t, "data: {broken"),
        other => panic!("expected invalid event data, got {:?}", other),
    }
    assert!(out[1].is_ok());
}

#[test]
fn decoder_skips_empty_frames() {
    let mut decoder = StreamDecoder::new();
    let out = decoder.feed(b"\n\n\n\n");
    assert_eq!(out.len(), 0);
}

#[test]
fn interpret_success_decodes_the_response() {
    let response = interpret_response(200, sample_frame_body()).expect("a response");
    assert_eq!(response.candidates.len(), 1);
    assert_eq!(response.candidates[0].finish_reason, FinishReason::Stop);
    assert_eq!(response.candidates[0].index, 0);
    let content = response.content().expect("one candidate");
    assert_eq!(
        *content.parts().0[0].expect_text(),
        Text("hi".to_string())
    );
}

#[test]
fn interpret_rate_limit() {
    assert_eq!(interpret_response(429, ""), Err(ApiRequestError::RateLimit));
}

#[test]
fn interpret_api_rejection_extracts_the_error() {
    let body = r#"{"error":{"code":"400","message":"bad request","status":"INVALID_ARGUMENT","details":[{"reason":"x"}]}}"#;
    match interpret_response(400, body) {
        Err(ApiRequestError::InvalidRequestError {
            code,
            details,
            message,
            status,
        }) => {
            assert_eq!(code, Some("400".to_string()));
            assert_eq!(message, "bad request");
            assert_eq!(status, Some("INVALID_ARGUMENT".to_string()));
            assert_eq!(
                details,
                JsonValue::Arr(vec![JsonValue::Obj(vec![(
                    "reason".to_string(),
                    JsonValue::Str("x".to_string()),
                )])])
            );
        }
        other => panic!("expected an API rejection, got {:?}", other),
    }
}

#[test]
fn interpret_api_rejection_defaults_the_message() {
    let body = r#"{"error":{}}"#;
    match interpret_response(500, body) {
        Err(ApiRequestError::InvalidRequestError { message, code, .. }) => {
            assert_eq!(message, "no message");
            assert_eq!(code, None);
        }
        other => panic!("expected an API rejection, got {:?}", other),
    }
}

#[test]
fn interpret_unreadable_body() {
    match interpret_response(200, "not json") {
        Err(ApiRequestError::UnexpectedResponse { response }) => {
            assert_eq!(response, "not json");
        }
        other => panic!("expected an unexpected-response error, got {:?}", other),
    }
}

#[test]
fn request_urls() {
    assert_eq!(
        request_url("v1beta", "gemini-1.5-flash", "SECRET-REDACTED", false),
        "https://generativelanguage.googleapis.com/v1beta/models/gemini-1.5-flash:generateContent?key=SECRET-REDACTED"
    );
    assert_eq!(
        request_url("v1beta", "gemini-pro", "k", true),
        "https://generativelanguage.googleapis.com/v1beta/models/gemini-pro:streamGenerateContent?alt=sse&key=k"
    );
}

fn model_turn() -> Content {
    Content::model().add_part(Part::Text(Text("calling a tool".to_string())))
}

fn tool_turn() -> Content {
    Content::user().add_part(Part::Text(Text("tool result".to_string())))
}

#[test]
fn conversation_halts_exactly_at_the_bound() {
    let mut convo = Conversation::new(Contents(vec![]), 3);
    // Three tool rounds run; the fourth reports the exceeded bound.
    for round in 0..3u64 {
        let r = convo.record_round(model_turn(), tool_turn());
        assert!(r.is_ok(), "round {} should run", round);
        assert_eq!(convo.phase, Phase::Awaiting);
    }
    match convo.record_round(model_turn(), tool_turn()) {
        Err(ApiRequestError::LoopIterationExceeded { iterations }) => {
            assert_eq!(iterations, 4);
        }
        other => panic!("expected the loop bound error, got {:?}", other),
    }
    assert_eq!(convo.phase, Phase::Exceeded);
    assert_eq!(convo.iterations, 4);
    // Every round appended its two turns in order.
    assert_eq!(convo.contents.len(), 8);
}

#[test]
fn conversation_finishes_on_a_final_answer() {
    let mut convo = Conversation::new(Contents(vec![]), 5);
    convo.record_round(model_turn(), tool_turn()).unwrap();
    convo.finish();
    assert_eq!(convo.phase, Phase::Finished);
    assert_eq!(convo.iterations, 1);
}

#[test]
fn invoke_functions_collects_responses_in_call_order() {
    struct NameTool;

    impl Tool for NameTool {
        fn name(&self) -> String {
            "name_tool".to_string()
        }

        fn description(&self) -> Option<String> {
            None
        }

        fn input_shape(&self) -> Shape {
            Shape::Object(vec![])
        }

        fn invoke(&self, _args: JsonValue) -> Result<JsonValue, String> {
            Ok(JsonValue::Str("ran".to_string()))
        }
    }

    let body = r#"{"candidates":[{"content":{"role":"model","parts":[{"functionCall":{"name":"name_tool","args":{}}},{"functionCall":{"name":"missing","args":{}}}]},"finishReason":"STOP","index":0}]}"#;
    let response = interpret_response(200, body).unwrap();
    let mut tools: ToolBox<NameTool> = ToolBox::new();
    tools.add(NameTool);
    let content = response.invoke_functions(&tools).expect("two calls");
    let parts = content.parts();
    assert_eq!(parts.len(), 2);
    assert_eq!(parts.0[0].expect_function_response().name, "name_tool");
    assert_eq!(
        parts.0[0].expect_function_response().response,
        JsonValue::Str("ran".to_string())
    );
    assert_eq!(parts.0[1].expect_function_response().name, "missing");

    // A response without calls yields nothing.
    let quiet = interpret_response(200, sample_frame_body()).unwrap();
    assert!(quiet.invoke_functions(&tools).is_none());
}

#[test]
fn responses_decode_usage_and_feedback() {
    let body = r#"{"candidates":[{"content":{"role":"model","parts":[{"text":"x"}]},"finishReason":"MAX_TOKENS","index":1,"safetyRatings":[{"category":"HARM_CATEGORY_HARASSMENT","probability":"LOW"}]}],"promptFeedback":{"safetyRatings":[{"category":"HARM_CATEGORY_HATE_SPEECH","probability":"NEGLIGIBLE"}],"blockReason":"SAFETY"},"usageMetadata":{"promptTokenCount":5,"candidatesTokenCount":7,"totalTokenCount":12}}"#;
    let response: GenerateContentResponse = interpret_response(200, body).unwrap();
    assert_eq!(response.candidates[0].finish_reason, FinishReason::MaxTokens);
    assert_eq!(response.candidates[0].index, 1);
    let ratings = response.candidates[0].safety_ratings.as_ref().unwrap();
    assert_eq!(ratings[0].probability, "LOW");
    let feedback = response.prompt_feedback.as_ref().unwrap();
    assert_eq!(
        feedback.block_reason,
        Some(gemini_client::response::BlockReason::Safety)
    );
    let usage = response.usage_metadata.unwrap();
    assert_eq!(usage.prompt_token_count, 5);
    assert_eq!(usage.candidates_token_count, Some(7));
    assert_eq!(usage.total_token_count, 12);
}
