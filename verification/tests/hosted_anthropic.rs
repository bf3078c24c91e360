use mahi::compute::hosted::anthropic::{
    request_body as build_body, AnthropicProvider, AnthropicSseParser, DEFAULT_MAX_TOKENS,
};
use mahi::contracts::compute::{FinishReason, InferenceRequest, ThinkingConfig, ToolCallDelta, ToolSpec};
use mahi::contracts::data::{ContentBlock, Message, MessageRole};
use mahi::contracts::error::{ContractError, InferenceError};
use mahi::contracts::types::ComputeMode;
use mahi::ident::Uuid;
use mahi::json::Json;

fn v(text: &str) -> serde_json::Value {
    serde_json::from_str(text).expect("valid JSON")
}

fn j(text: &str) -> Json {
    Json::parse(text).expect("valid JSON")
}

fn number(n: f64) -> serde_json::Number {
    serde_json::Number::from_f64(n).expect("a finite number")
}

fn request_body(model: &str, req: &InferenceRequest) -> serde_json::Value {
    v(&build_body(model, req).to_text())
}

fn sample_request() -> InferenceRequest {
    let conv = Uuid::new_v4();
    InferenceRequest::from_messages(vec![
        Message::text(
            conv,
            MessageRole::System,
            "Be terse.",
            ComputeMode::Hosted,
            0,
        ),
        Message::text(conv, MessageRole::User, "Hi there", ComputeMode::Hosted, 1),
        Message::text(
            conv,
            MessageRole::Assistant,
            "Hello!",
            ComputeMode::Hosted,
            2,
        ),
        Message::text(conv, MessageRole::User, "Bye", ComputeMode::Hosted, 3),
    ])
}

#[test]
fn request_body_lifts_system_and_defaults_max_tokens() {
    let req = sample_request();
    let body = request_body("fable-5", &req);

    assert_eq!(body["model"], "fable-5");
    assert_eq!(body["stream"], true);
    assert_eq!(body["max_tokens"], DEFAULT_MAX_TOKENS);
    assert_eq!(body["system"], "Be terse.");
    let messages = body["messages"].as_array().unwrap();
    assert_eq!(
        messages.len(),
        3,
        "system message must not appear in messages[]"
    );
    assert_eq!(messages[0], v(r#"{"role": "user", "content": "Hi there"}"#));
    assert_eq!(
        messages[1],
        v(r#"{"role": "assistant", "content": "Hello!"}"#)
    );
    assert_eq!(messages[2], v(r#"{"role": "user", "content": "Bye"}"#));
}

#[test]
fn request_body_maps_tools_and_explicit_params() {
    let mut req = sample_request();
    req.max_tokens = Some(2048);
    req.temperature = Some(number(0.2));
    req.tools = Some(vec![ToolSpec {
        id: "get_weather".to_string(),
        description: "Get the weather".to_string(),
        input_schema: j(r#"{"type": "object", "properties": {"city": {"type": "string"}}}"#),
    }]);
    let body = request_body("fable-5", &req);
    assert_eq!(body["max_tokens"], 2048);
    // temperature is f32 in the contract; widened to JSON f64 it is ~0.2.
    assert!((body["temperature"].as_f64().unwrap() - 0.2).abs() < 1e-6);
    assert_eq!(
        body["tools"],
        v(r#"[{ "name": "get_weather", "description": "Get the weather", "input_schema": {"type": "object", "properties": {"city": {"type": "string"}}} }]"#)
    );
}

/// Assistant tool calls and tool results round-trip into Anthropic
/// `tool_use` / `tool_result` content blocks for the next round.
#[test]
fn request_body_serializes_tool_use_and_tool_results() {
    let conv = Uuid::new_v4();
    let mut assistant = Message::text(
        conv,
        MessageRole::Assistant,
        "Let me check.",
        ComputeMode::Hosted,
        1,
    );
    assistant.content.push(ContentBlock::ToolCall {
        call_id: "toolu_1".to_string(),
        tool_id: "get_weather".to_string(),
        args: j(r#"{"city": "Auckland"}"#),
    });
    assistant.content.push(ContentBlock::ToolCall {
        call_id: "toolu_2".to_string(),
        tool_id: "get_time".to_string(),
        args: j(r#"{"tz": "Pacific/Auckland"}"#),
    });
    let mut result_1 = Message::text(conv, MessageRole::Tool, "", ComputeMode::Hosted, 2);
    result_1.content = vec![ContentBlock::ToolResult {
        call_id: "toolu_1".to_string(),
        output: j(r#"{"temp_c": 21}"#),
    }];
    let mut result_2 = Message::text(conv, MessageRole::Tool, "", ComputeMode::Hosted, 3);
    result_2.content = vec![ContentBlock::ToolResult {
        call_id: "toolu_2".to_string(),
        output: Json::Str("09:15".to_string()),
    }];

    let req = InferenceRequest::from_messages(vec![
        Message::text(conv, MessageRole::User, "Weather?", ComputeMode::Hosted, 0),
        assistant,
        result_1,
        result_2,
    ]);
    let body = request_body("fable-5", &req);
    let messages = body["messages"].as_array().unwrap();
    assert_eq!(messages.len(), 4);

    // Assistant turn: text block first, then both tool_use blocks.
    assert_eq!(
        messages[1],
        v(r#"{ "role": "assistant", "content": [ {"type": "text", "text": "Let me check."}, {"type": "tool_use", "id": "toolu_1", "name": "get_weather", "input": {"city": "Auckland"}}, {"type": "tool_use", "id": "toolu_2", "name": "get_time", "input": {"tz": "Pacific/Auckland"}} ] }"#)
    );

    // Tool results: user turns carrying tool_result blocks keyed by the
    // tool_use id (consecutive user turns are merged by the API).
    assert_eq!(
        messages[2],
        v(r#"{ "role": "user", "content": [{ "type": "tool_result", "tool_use_id": "toolu_1", "content": "{\"temp_c\":21}" }] }"#)
    );
    assert_eq!(
        messages[3],
        v(r#"{ "role": "user", "content": [{ "type": "tool_result", "tool_use_id": "toolu_2", "content": "09:15" }] }"#)
    );
}

#[test]
fn request_body_attaches_image_to_tool_result_for_vision() {
    let conv = Uuid::new_v4();
    let mut result = Message::text(conv, MessageRole::Tool, "", ComputeMode::Hosted, 0);
    result.content = vec![
        ContentBlock::ToolResult {
            call_id: "toolu_1".to_string(),
            output: j(r#""screenshot captured""#),
        },
        ContentBlock::Image {
            media_type: "image/png".to_string(),
            data: "AAAA".to_string(),
        },
    ];
    let req = InferenceRequest::from_messages(vec![result]);
    let body = request_body("fable-5", &req);
    let content = &body["messages"][0]["content"];
    assert_eq!(body["messages"][0]["role"], "user");
    assert_eq!(content[0]["type"], "tool_result");
    assert_eq!(content[1]["type"], "image");
    assert_eq!(content[1]["source"]["type"], "base64");
    assert_eq!(content[1]["source"]["media_type"], "image/png");
    assert_eq!(content[1]["source"]["data"], "AAAA");
}

#[test]
fn thinking_enables_block_grows_max_tokens_and_drops_temperature() {
    let mut req = sample_request();
    req.temperature = Some(number(0.2));
    req.max_tokens = Some(1024);
    req.thinking = Some(ThinkingConfig::with_budget(4096));
    let body = request_body("fable-5", &req);

    assert_eq!(body["thinking"]["type"], "enabled");
    assert_eq!(body["thinking"]["budget_tokens"], 4096);
    // max_tokens must exceed the budget; the headroom rule grows it.
    assert!(body["max_tokens"].as_u64().unwrap() > 4096);
    // Extended thinking requires the default temperature.
    assert!(
        body.get("temperature").is_none(),
        "temperature must be omitted when thinking is on: {body}"
    );
}

#[test]
fn thinking_enabled_with_tools_on_clean_history() {
    let mut req = sample_request();
    req.thinking = Some(ThinkingConfig::with_budget(4096));
    req.tools = Some(vec![ToolSpec {
        id: "web_search".to_string(),
        description: "Search the web".to_string(),
        input_schema: j(r#"{"type": "object"}"#),
    }]);
    let body = request_body("fable-5", &req);
    // No prior tool_use turn to replay → thinking and tools coexist.
    assert_eq!(body["thinking"]["type"], "enabled");
    assert!(body["tools"].is_array());
}

#[test]
fn thinking_disabled_when_prior_tool_use_lacks_a_thinking_block() {
    let conv = Uuid::new_v4();
    let mut assistant =
        Message::text(conv, MessageRole::Assistant, "", ComputeMode::Hosted, 1);
    assistant.content = vec![ContentBlock::ToolCall {
        call_id: "toolu_1".to_string(),
        tool_id: "web_search".to_string(),
        args: j(r#"{"query": "x"}"#),
    }];
    let mut req = InferenceRequest::from_messages(vec![
        Message::text(conv, MessageRole::User, "hi", ComputeMode::Hosted, 0),
        assistant,
    ]);
    req.thinking = Some(ThinkingConfig::with_budget(4096));
    let body = request_body("fable-5", &req);
    // The unreplayable tool_use turn would 400 if thinking were enabled.
    assert!(
        body.get("thinking").is_none(),
        "thinking must be disabled when a prior tool_use turn has no signed thinking block: {body}"
    );
}

#[test]
fn request_body_replays_stored_thinking_block_first_with_signature() {
    let conv = Uuid::new_v4();
    let mut assistant =
        Message::text(conv, MessageRole::Assistant, "answer", ComputeMode::Hosted, 1);
    assistant.content = vec![
        ContentBlock::Thinking {
            thinking: "let me search".to_string(),
            signature: "sig_abc".to_string(),
        },
        ContentBlock::ToolCall {
            call_id: "toolu_1".to_string(),
            tool_id: "web_search".to_string(),
            args: j(r#"{"query": "x"}"#),
        },
    ];
    let mut result =
        Message::text(conv, MessageRole::Tool, "", ComputeMode::Hosted, 2);
    result.content = vec![ContentBlock::ToolResult {
        call_id: "toolu_1".to_string(),
        output: j(r#"{"results": []}"#),
    }];
    let mut req = InferenceRequest::from_messages(vec![
        Message::text(conv, MessageRole::User, "search x", ComputeMode::Hosted, 0),
        assistant,
        result,
    ]);
    req.thinking = Some(ThinkingConfig::with_budget(4096));
    let body = request_body("fable-5", &req);
    let assistant_msg = &body["messages"][1];
    // Thinking block replayed FIRST with its signature, then the tool_use.
    assert_eq!(assistant_msg["content"][0]["type"], "thinking");
    assert_eq!(assistant_msg["content"][0]["thinking"], "let me search");
    assert_eq!(assistant_msg["content"][0]["signature"], "sig_abc");
    assert_eq!(assistant_msg["content"][1]["type"], "tool_use");
    // The stored block is replayable, so thinking stays enabled.
    assert_eq!(body["thinking"]["type"], "enabled");
}

#[test]
fn no_thinking_keeps_temperature_and_max_tokens() {
    let mut req = sample_request();
    req.temperature = Some(number(0.3));
    req.max_tokens = Some(512);
    let body = request_body("fable-5", &req);
    assert!(body.get("thinking").is_none());
    assert_eq!(body["max_tokens"], 512);
    assert!((body["temperature"].as_f64().unwrap() - 0.3).abs() < 1e-6);
}

#[test]
fn default_model_is_claude_fable_5() {
    let p = AnthropicProvider::new("sk-test", "fable-5");
    assert_eq!(p.model, "fable-5");
    let q = AnthropicProvider::with_model("sk-test", "opus-4-8");
    assert_eq!(q.model, "opus-4-8");
}

#[test]
fn parser_surfaces_thinking_text_and_signature() {
    let mut parser = AnthropicSseParser::new(ComputeMode::Hosted);
    let mut chunks = Vec::new();
    for (event, data) in [
        (
            "content_block_start",
            r#"{"type":"content_block_start","index":0,"content_block":{"type":"thinking","thinking":""}}"#,
        ),
        (
            "content_block_delta",
            r#"{"type":"content_block_delta","index":0,"delta":{"type":"thinking_delta","thinking":"Let me "}}"#,
        ),
        (
            "content_block_delta",
            r#"{"type":"content_block_delta","index":0,"delta":{"type":"thinking_delta","thinking":"reason."}}"#,
        ),
        (
            "content_block_delta",
            r#"{"type":"content_block_delta","index":0,"delta":{"type":"signature_delta","signature":"sig_xyz"}}"#,
        ),
        ("content_block_stop", r#"{"type":"content_block_stop","index":0}"#),
    ] {
        chunks.extend(parser.handle(event, data));
    }
    let chunks: Vec<_> = chunks.into_iter().map(Result::unwrap).collect();
    let text: String = chunks
        .iter()
        .filter_map(|c| c.thinking_delta.as_ref())
        .map(|t| t.text.as_str())
        .collect();
    assert_eq!(text, "Let me reason.");
    let sig = chunks
        .iter()
        .filter_map(|c| c.thinking_delta.as_ref())
        .find_map(|t| t.signature.clone());
    assert_eq!(sig.as_deref(), Some("sig_xyz"));
}

#[test]
fn parser_text_deltas_then_message_stop() {
    let mut parser = AnthropicSseParser::new(ComputeMode::Hosted);
    let mut chunks = Vec::new();
    for (event, data) in [
        (
            "message_start",
            r#"{"type":"message_start","message":{"id":"msg_1","role":"assistant"}}"#,
        ),
        (
            "content_block_start",
            r#"{"type":"content_block_start","index":0,"content_block":{"type":"text","text":""}}"#,
        ),
        ("ping", r#"{"type":"ping"}"#),
        (
            "content_block_delta",
            r#"{"type":"content_block_delta","index":0,"delta":{"type":"text_delta","text":"Hello"}}"#,
        ),
        (
            "content_block_delta",
            r#"{"type":"content_block_delta","index":0,"delta":{"type":"text_delta","text":" world"}}"#,
        ),
        (
            "content_block_stop",
            r#"{"type":"content_block_stop","index":0}"#,
        ),
        (
            "message_delta",
            r#"{"type":"message_delta","delta":{"stop_reason":"end_turn"},"usage":{"output_tokens":12}}"#,
        ),
        ("message_stop", r#"{"type":"message_stop"}"#),
    ] {
        chunks.extend(parser.handle(event, data));
    }
    let chunks: Vec<_> = chunks.into_iter().map(Result::unwrap).collect();
    assert_eq!(chunks.len(), 3);
    assert_eq!(chunks[0].delta.as_deref(), Some("Hello"));
    assert_eq!(chunks[1].delta.as_deref(), Some(" world"));
    assert_eq!(chunks[2].finish_reason, Some(FinishReason::Stop));
    assert!(parser.is_done());
}

#[test]
fn parser_tool_use_passthrough() {
    let mut parser = AnthropicSseParser::new(ComputeMode::Hosted);
    let mut chunks = Vec::new();
    for (event, data) in [
        (
            "content_block_start",
            r#"{"type":"content_block_start","index":1,"content_block":{"type":"tool_use","id":"toolu_1","name":"get_weather","input":{}}}"#,
        ),
        (
            "content_block_delta",
            r#"{"type":"content_block_delta","index":1,"delta":{"type":"input_json_delta","partial_json":"{\"city\":"}}"#,
        ),
        (
            "content_block_delta",
            r#"{"type":"content_block_delta","index":1,"delta":{"type":"input_json_delta","partial_json":"\"Auckland\"}"}}"#,
        ),
        (
            "content_block_stop",
            r#"{"type":"content_block_stop","index":1}"#,
        ),
        (
            "message_delta",
            r#"{"type":"message_delta","delta":{"stop_reason":"tool_use"}}"#,
        ),
        ("message_stop", r#"{"type":"message_stop"}"#),
    ] {
        chunks.extend(parser.handle(event, data));
    }
    let chunks: Vec<_> = chunks.into_iter().map(Result::unwrap).collect();
    assert_eq!(chunks.len(), 3);
    let deltas: Vec<&ToolCallDelta> = chunks
        .iter()
        .filter_map(|c| c.tool_call_delta.as_ref())
        .collect();
    assert_eq!(deltas.len(), 2);
    assert!(deltas
        .iter()
        .all(|d| d.call_id == "toolu_1" && d.tool_id == "get_weather"));
    let args: String = deltas.iter().map(|d| d.args_delta.as_str()).collect();
    assert_eq!(args, r#"{"city":"Auckland"}"#);
    assert_eq!(chunks[2].finish_reason, Some(FinishReason::ToolCall));
}

/// Two parallel tool_use blocks in one assistant message: each block has
/// its own index, and input_json_delta events interleave between them.
#[test]
fn parser_parallel_tool_use_blocks() {
    let mut parser = AnthropicSseParser::new(ComputeMode::Hosted);
    let mut chunks = Vec::new();
    for (event, data) in [
        (
            "message_start",
            r#"{"type":"message_start","message":{"id":"msg_1","role":"assistant"}}"#,
        ),
        (
            "content_block_start",
            r#"{"type":"content_block_start","index":0,"content_block":{"type":"tool_use","id":"toolu_a","name":"get_weather","input":{}}}"#,
        ),
        (
            "content_block_start",
            r#"{"type":"content_block_start","index":1,"content_block":{"type":"tool_use","id":"toolu_b","name":"get_time","input":{}}}"#,
        ),
        (
            "content_block_delta",
            r#"{"type":"content_block_delta","index":0,"delta":{"type":"input_json_delta","partial_json":"{\"city\":"}}"#,
        ),
        (
            "content_block_delta",
            r#"{"type":"content_block_delta","index":1,"delta":{"type":"input_json_delta","partial_json":"{\"tz\":\"Pacific/"}}"#,
        ),
        (
            "content_block_delta",
            r#"{"type":"content_block_delta","index":0,"delta":{"type":"input_json_delta","partial_json":"\"Auckland\"}"}}"#,
        ),
        (
            "content_block_delta",
            r#"{"type":"content_block_delta","index":1,"delta":{"type":"input_json_delta","partial_json":"Auckland\"}"}}"#,
        ),
        (
            "content_block_stop",
            r#"{"type":"content_block_stop","index":0}"#,
        ),
        (
            "content_block_stop",
            r#"{"type":"content_block_stop","index":1}"#,
        ),
        (
            "message_delta",
            r#"{"type":"message_delta","delta":{"stop_reason":"tool_use"}}"#,
        ),
        ("message_stop", r#"{"type":"message_stop"}"#),
    ] {
        chunks.extend(parser.handle(event, data));
    }
    let chunks: Vec<_> = chunks.into_iter().map(Result::unwrap).collect();

    let args_for = |call_id: &str| -> String {
        chunks
            .iter()
            .filter_map(|c| c.tool_call_delta.as_ref())
            .filter(|d| d.call_id == call_id)
            .map(|d| d.args_delta.as_str())
            .collect()
    };
    assert_eq!(args_for("toolu_a"), r#"{"city":"Auckland"}"#);
    assert_eq!(args_for("toolu_b"), r#"{"tz":"Pacific/Auckland"}"#);
    assert!(chunks
        .iter()
        .filter_map(|c| c.tool_call_delta.as_ref())
        .all(|d| (d.call_id == "toolu_a" && d.tool_id == "get_weather")
            || (d.call_id == "toolu_b" && d.tool_id == "get_time")));
    assert_eq!(
        chunks.last().unwrap().finish_reason,
        Some(FinishReason::ToolCall)
    );
}

#[test]
fn parser_error_event_maps_to_provider_error() {
    let mut parser = AnthropicSseParser::new(ComputeMode::Hosted);
    let chunks = parser.handle(
        "error",
        r#"{"type":"error","error":{"type":"overloaded_error","message":"Overloaded"}}"#,
    );
    assert_eq!(chunks.len(), 1);
    match chunks.into_iter().next().unwrap() {
        Err(ContractError::Inference(InferenceError::Provider { message, retryable })) => {
            assert!(retryable);
            assert!(message.contains("Overloaded"));
        }
        other => panic!("expected provider error, got {other:?}"),
    }
    assert!(parser.is_done());
}
