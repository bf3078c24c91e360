use mahi::compute::hosted::openai::{
    request_body as build_body, OpenAiCompatProvider, OpenAiSseParser,
};
use mahi::contracts::compute::{FinishReason, InferenceRequest, ThinkingConfig, ToolCallDelta, ToolSpec};
use mahi::contracts::data::{ContentBlock, Message, MessageRole};
use mahi::contracts::error::{ContractError, InferenceError};
use mahi::contracts::types::ComputeMode;
use mahi::ident::Uuid;
use mahi::json::Json;

fn v(text: &str) -> serde_json::Value {
    serde_json::from_str(text).expect("valid JSON")
}

fn j(text: &str) -> Json {
    Json::parse(text).expect("valid JSON")
}

fn number(n: f64) -> serde_json::Number {
    serde_json::Number::from_f64(n).expect("a finite number")
}

fn request_body(model: &str, req: &InferenceRequest) -> serde_json::Value {
    v(&build_body(model, req).to_text())
}

fn sample_request() -> InferenceRequest {
    let conv = Uuid::new_v4();
    let mut req = InferenceRequest::from_messages(vec![
        Message::text(
            conv,
            MessageRole::System,
            "Be terse.",
            ComputeMode::Hosted,
            0,
        ),
        Message::text(conv, MessageRole::User, "Hi there", ComputeMode::Hosted, 1),
    ]);
    req.max_tokens = Some(256);
    req.temperature = Some(number(0.5));
    req
}

#[test]
fn request_body_basic_shape() {
    let req = sample_request();
    let body = request_body("test-model", &req);

    assert_eq!(body["model"], "test-model");
    assert_eq!(body["stream"], true);
    assert_eq!(body["max_tokens"], 256);
    assert_eq!(body["temperature"], 0.5);
    let messages = body["messages"].as_array().unwrap();
    assert_eq!(messages.len(), 2);
    assert_eq!(
        messages[0],
        v(r#"{"role": "system", "content": "Be terse."}"#)
    );
    assert_eq!(messages[1], v(r#"{"role": "user", "content": "Hi there"}"#));
    assert!(body.get("tools").is_none());
}

#[test]
fn request_body_maps_tools() {
    let mut req = sample_request();
    req.tools = Some(vec![ToolSpec {
        id: "get_weather".to_string(),
        description: "Get the weather".to_string(),
        input_schema: j(r#"{"type": "object", "properties": {"city": {"type": "string"}}}"#),
    }]);
    let body = request_body("test-model", &req);
    assert_eq!(
        body["tools"],
        v(r#"[{ "type": "function", "function": { "name": "get_weather", "description": "Get the weather", "parameters": {"type": "object", "properties": {"city": {"type": "string"}}} } }]"#)
    );
}

/// Assistant tool calls and tool results round-trip into the OpenAI
/// `tool_calls` / `role:"tool"` wire shape for the next round.
#[test]
fn request_body_serializes_tool_calls_and_results() {
    let conv = Uuid::new_v4();
    let mut assistant = Message::text(
        conv,
        MessageRole::Assistant,
        "Checking two cities.",
        ComputeMode::Hosted,
        1,
    );
    assistant.content.push(ContentBlock::ToolCall {
        call_id: "call_1".to_string(),
        tool_id: "get_weather".to_string(),
        args: j(r#"{"city": "Auckland"}"#),
    });
    assistant.content.push(ContentBlock::ToolCall {
        call_id: "call_2".to_string(),
        tool_id: "get_weather".to_string(),
        args: j(r#"{"city": "Wellington"}"#),
    });
    let mut result_1 = Message::text(conv, MessageRole::Tool, "", ComputeMode::Hosted, 2);
    result_1.content = vec![ContentBlock::ToolResult {
        call_id: "call_1".to_string(),
        output: j(r#"{"temp_c": 21}"#),
    }];
    let mut result_2 = Message::text(conv, MessageRole::Tool, "", ComputeMode::Hosted, 3);
    result_2.content = vec![ContentBlock::ToolResult {
        call_id: "call_2".to_string(),
        output: Json::Str("18C and windy".to_string()),
    }];

    let req = InferenceRequest::from_messages(vec![
        Message::text(conv, MessageRole::User, "Weather?", ComputeMode::Hosted, 0),
        assistant,
        result_1,
        result_2,
    ]);
    let body = request_body("test-model", &req);
    let messages = body["messages"].as_array().unwrap();
    assert_eq!(messages.len(), 4);

    assert_eq!(messages[1]["role"], "assistant");
    assert_eq!(messages[1]["content"], "Checking two cities.");
    assert_eq!(
        messages[1]["tool_calls"],
        v(r#"[ { "id": "call_1", "type": "function", "function": {"name": "get_weather", "arguments": "{\"city\":\"Auckland\"}"} }, { "id": "call_2", "type": "function", "function": {"name": "get_weather", "arguments": "{\"city\":\"Wellington\"}"} } ]"#)
    );

    // Each tool result is its own role:"tool" message keyed by call id;
    // string outputs pass through raw, structured outputs as JSON text.
    assert_eq!(
        messages[2],
        v(r#"{"role": "tool", "tool_call_id": "call_1", "content": "{\"temp_c\":21}"}"#)
    );
    assert_eq!(
        messages[3],
        v(r#"{"role": "tool", "tool_call_id": "call_2", "content": "18C and windy"}"#)
    );
}

#[test]
fn request_body_appends_image_as_user_message_after_tool_result() {
    let conv = Uuid::new_v4();
    let mut result = Message::text(conv, MessageRole::Tool, "", ComputeMode::Hosted, 0);
    result.content = vec![
        ContentBlock::ToolResult {
            call_id: "call_1".to_string(),
            output: j(r#""captured""#),
        },
        ContentBlock::Image {
            media_type: "image/png".to_string(),
            data: "AAAA".to_string(),
        },
    ];
    let req = InferenceRequest::from_messages(vec![result]);
    let body = request_body("test-model", &req);
    let messages = body["messages"].as_array().unwrap();
    // role:"tool" text result, then a role:"user" message carrying the image.
    assert_eq!(messages[0]["role"], "tool");
    assert_eq!(messages[1]["role"], "user");
    let parts = messages[1]["content"].as_array().unwrap();
    assert_eq!(parts.last().unwrap()["type"], "image_url");
    assert_eq!(
        parts.last().unwrap()["image_url"]["url"],
        "data:image/png;base64,AAAA"
    );
}

/// A tool-call-only assistant turn serializes with `content: null`.
#[test]
fn request_body_tool_call_without_text_has_null_content() {
    let conv = Uuid::new_v4();
    let mut assistant = Message::text(conv, MessageRole::Assistant, "", ComputeMode::Hosted, 0);
    assistant.content = vec![ContentBlock::ToolCall {
        call_id: "call_1".to_string(),
        tool_id: "ping".to_string(),
        args: j(r#"{}"#),
    }];
    let req = InferenceRequest::from_messages(vec![assistant]);
    let body = request_body("test-model", &req);
    let msg = &body["messages"][0];
    assert!(msg["content"].is_null());
    assert_eq!(msg["tool_calls"][0]["function"]["name"], "ping");
}

#[test]
fn thinking_maps_to_reasoning_effort_tier() {
    let mut req = sample_request();
    req.thinking = Some(ThinkingConfig::with_budget(4096));
    assert_eq!(request_body("m", &req)["reasoning_effort"], "medium");

    req.thinking = Some(ThinkingConfig::with_budget(1024));
    assert_eq!(request_body("m", &req)["reasoning_effort"], "low");

    req.thinking = Some(ThinkingConfig::with_budget(16_000));
    assert_eq!(request_body("m", &req)["reasoning_effort"], "high");
}

#[test]
fn no_thinking_omits_reasoning_effort() {
    let req = sample_request();
    assert!(request_body("m", &req).get("reasoning_effort").is_none());
}

#[test]
fn reasoning_effort_is_omitted_when_tools_are_present() {
    let mut req = sample_request();
    req.thinking = Some(ThinkingConfig::with_budget(4096));
    req.tools = Some(vec![ToolSpec {
        id: "web_search".to_string(),
        description: "Search the web".to_string(),
        input_schema: j(r#"{"type": "object"}"#),
    }]);
    let body = request_body("m", &req);
    // Tool turns must not carry reasoning_effort (breaks the tool loop on
    // many OpenAI-compatible / llama.cpp servers).
    assert!(
        body.get("reasoning_effort").is_none(),
        "reasoning_effort must be omitted when tools are present: {body}"
    );
    assert!(body["tools"].is_array());
}

#[test]
fn endpoint_trims_trailing_slash() {
    let p = OpenAiCompatProvider::new("https://api.example.com/", "k", "m");
    assert_eq!(
        p.chat_completions_url(),
        "https://api.example.com/v1/chat/completions"
    );
}

#[test]
fn mode_defaults_to_hosted_and_with_mode_overrides() {
    let p = OpenAiCompatProvider::new("http://127.0.0.1:8080", "", "m");
    assert_eq!(p.mode(), ComputeMode::Hosted);
    let p = p.with_mode(ComputeMode::OnDevice);
    assert_eq!(p.mode(), ComputeMode::OnDevice);
}

#[test]
fn parser_text_deltas_and_done() {
    let mut parser = OpenAiSseParser::new(ComputeMode::Hosted);
    let mut chunks = Vec::new();
    for data in [
        r#"{"id":"c1","choices":[{"index":0,"delta":{"role":"assistant","content":"Hel"},"finish_reason":null}]}"#,
        r#"{"id":"c1","choices":[{"index":0,"delta":{"content":"lo"},"finish_reason":null}]}"#,
        r#"{"id":"c1","choices":[{"index":0,"delta":{},"finish_reason":"stop"}]}"#,
        "[DONE]",
    ] {
        chunks.extend(parser.handle_data(data));
    }
    let chunks: Vec<_> = chunks.into_iter().map(Result::unwrap).collect();
    assert_eq!(chunks.len(), 3);
    assert_eq!(chunks[0].delta.as_deref(), Some("Hel"));
    assert_eq!(chunks[1].delta.as_deref(), Some("lo"));
    assert_eq!(chunks[2].finish_reason, Some(FinishReason::Stop));
    assert!(chunks.iter().all(|c| c.active_mode == ComputeMode::Hosted));
    assert!(parser.is_done());
}

#[test]
fn parser_done_without_finish_reason_synthesizes_stop() {
    let mut parser = OpenAiSseParser::new(ComputeMode::Hosted);
    let chunks = parser.handle_data("[DONE]");
    assert_eq!(chunks.len(), 1);
    assert_eq!(
        chunks[0].as_ref().unwrap().finish_reason,
        Some(FinishReason::Stop)
    );
}

#[test]
fn parser_tool_call_deltas_carry_identity() {
    let mut parser = OpenAiSseParser::new(ComputeMode::Hosted);
    let mut chunks = Vec::new();
    for data in [
        r#"{"choices":[{"index":0,"delta":{"tool_calls":[{"index":0,"id":"call_1","type":"function","function":{"name":"get_weather","arguments":""}}]},"finish_reason":null}]}"#,
        r#"{"choices":[{"index":0,"delta":{"tool_calls":[{"index":0,"function":{"arguments":"{\"city\":"}}]},"finish_reason":null}]}"#,
        r#"{"choices":[{"index":0,"delta":{"tool_calls":[{"index":0,"function":{"arguments":"\"Auckland\"}"}}]},"finish_reason":null}]}"#,
        r#"{"choices":[{"index":0,"delta":{},"finish_reason":"tool_calls"}]}"#,
        "[DONE]",
    ] {
        chunks.extend(parser.handle_data(data));
    }
    let chunks: Vec<_> = chunks.into_iter().map(Result::unwrap).collect();
    assert_eq!(chunks.len(), 4);

    let deltas: Vec<&ToolCallDelta> = chunks
        .iter()
        .filter_map(|c| c.tool_call_delta.as_ref())
        .collect();
    assert_eq!(deltas.len(), 3);
    // Identity persists across continuation deltas that omit id/name.
    assert!(deltas
        .iter()
        .all(|d| d.call_id == "call_1" && d.tool_id == "get_weather"));
    let args: String = deltas.iter().map(|d| d.args_delta.as_str()).collect();
    assert_eq!(args, r#"{"city":"Auckland"}"#);
    assert_eq!(chunks[3].finish_reason, Some(FinishReason::ToolCall));
}

/// Two parallel tool calls in one assistant turn: fragments interleave by
/// `index`, ids arrive only on each call's first fragment.
#[test]
fn parser_parallel_tool_calls_interleaved() {
    let mut parser = OpenAiSseParser::new(ComputeMode::Hosted);
    let mut chunks = Vec::new();
    for data in [
        r#"{"choices":[{"index":0,"delta":{"tool_calls":[{"index":0,"id":"call_a","type":"function","function":{"name":"get_weather","arguments":""}}]},"finish_reason":null}]}"#,
        r#"{"choices":[{"index":0,"delta":{"tool_calls":[{"index":1,"id":"call_b","type":"function","function":{"name":"get_time","arguments":""}}]},"finish_reason":null}]}"#,
        r#"{"choices":[{"index":0,"delta":{"tool_calls":[{"index":0,"function":{"arguments":"{\"city\":\"Auck"}}]},"finish_reason":null}]}"#,
        r#"{"choices":[{"index":0,"delta":{"tool_calls":[{"index":1,"function":{"arguments":"{\"tz\":\"Pacific/"}}]},"finish_reason":null}]}"#,
        r#"{"choices":[{"index":0,"delta":{"tool_calls":[{"index":0,"function":{"arguments":"land\"}"}}]},"finish_reason":null}]}"#,
        r#"{"choices":[{"index":0,"delta":{"tool_calls":[{"index":1,"function":{"arguments":"Auckland\"}"}}]},"finish_reason":null}]}"#,
        r#"{"choices":[{"index":0,"delta":{},"finish_reason":"tool_calls"}]}"#,
        "[DONE]",
    ] {
        chunks.extend(parser.handle_data(data));
    }
    let chunks: Vec<_> = chunks.into_iter().map(Result::unwrap).collect();

    let args_for = |call_id: &str| -> String {
        chunks
            .iter()
            .filter_map(|c| c.tool_call_delta.as_ref())
            .filter(|d| d.call_id == call_id)
            .map(|d| d.args_delta.as_str())
            .collect()
    };
    assert_eq!(args_for("call_a"), r#"{"city":"Auckland"}"#);
    assert_eq!(args_for("call_b"), r#"{"tz":"Pacific/Auckland"}"#);
    assert!(chunks
        .iter()
        .filter_map(|c| c.tool_call_delta.as_ref())
        .all(|d| (d.call_id == "call_a" && d.tool_id == "get_weather")
            || (d.call_id == "call_b" && d.tool_id == "get_time")));
    assert_eq!(
        chunks.last().unwrap().finish_reason,
        Some(FinishReason::ToolCall)
    );
}

/// Servers that never send a tool-call `id` (seen in some local
/// llama.cpp builds) still get distinct per-index call ids.
#[test]
fn parser_synthesizes_call_ids_when_server_omits_them() {
    let mut parser = OpenAiSseParser::new(ComputeMode::Hosted);
    let mut chunks = Vec::new();
    for data in [
        r#"{"choices":[{"index":0,"delta":{"tool_calls":[{"index":0,"function":{"name":"alpha","arguments":"{}"}}]},"finish_reason":null}]}"#,
        r#"{"choices":[{"index":0,"delta":{"tool_calls":[{"index":1,"function":{"name":"beta","arguments":"{}"}}]},"finish_reason":null}]}"#,
        r#"{"choices":[{"index":0,"delta":{},"finish_reason":"tool_calls"}]}"#,
    ] {
        chunks.extend(parser.handle_data(data));
    }
    let deltas: Vec<ToolCallDelta> = chunks
        .into_iter()
        .map(Result::unwrap)
        .filter_map(|c| c.tool_call_delta)
        .collect();
    assert_eq!(deltas.len(), 2);
    assert_eq!(deltas[0].call_id, "call_0");
    assert_eq!(deltas[1].call_id, "call_1");
    assert_ne!(deltas[0].call_id, deltas[1].call_id);
}

#[test]
fn parser_malformed_json_yields_provider_error() {
    let mut parser = OpenAiSseParser::new(ComputeMode::Hosted);
    let chunks = parser.handle_data("{not json");
    assert_eq!(chunks.len(), 1);
    match chunks.into_iter().next().unwrap() {
        Err(ContractError::Inference(InferenceError::Provider { retryable, .. })) => {
            assert!(!retryable)
        }
        other => panic!("expected provider error, got {other:?}"),
    }
}

#[test]
fn finish_reasons_of_the_wire_are_mapped() {
    use_finish("stop", FinishReason::Stop);
    use_finish("length", FinishReason::MaxTokens);
    use_finish("tool_calls", FinishReason::ToolCall);
}

fn use_finish(name: &str, expected: FinishReason) {
    let mut parser = OpenAiSseParser::new(ComputeMode::MacLan);
    let data = format!(
        "{{\"choices\":[{{\"index\":0,\"delta\":{{}},\"finish_reason\":\"{name}\"}}]}}"
    );
    let chunks = parser.handle_data(&data);
    assert_eq!(chunks.len(), 1);
    let chunk = chunks[0].as_ref().unwrap();
    assert_eq!(chunk.finish_reason, Some(expected));
    assert_eq!(chunk.active_mode, ComputeMode::MacLan);
}
