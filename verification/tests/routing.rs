//! Routing between providers, the on-device model, and event streams.

use mahi::compute::capability::build_capability_snapshot;
use mahi::compute::hosted::openai::OpenAiSseParser;
use mahi::compute::hosted::anthropic::AnthropicSseParser;
use mahi::compute::hosted::http::{http_error, transport_error};
use mahi::compute::hosted::sse::{ChunkStream, SseChunkParser, SseItem};
use mahi::compute::modes::ModeTable;
use mahi::compute::on_device::OnDeviceProvider;
use mahi::compute::router::{stamp, InferenceRouter};
use mahi::contracts::compute::{
    CanHandleResult, FinishReason, InferenceChunk, InferenceRequest,
};
use mahi::contracts::data::{Message, MessageRole};
use mahi::contracts::error::{ContractError, InferenceError};
use mahi::contracts::types::{
    CapabilitySet, ComputeMode, ModelDescriptor, ModelSource, PerfProfile,
};
use mahi::ident::Uuid;

/// A provider with given capabilities, or the model on the device itself.
enum TestProvider {
    Plain { id: &'static str, caps: CapabilitySet, fails: bool },
    Device(OnDeviceProvider),
}

const MODES: [ComputeMode; 4] = [
    ComputeMode::OnDevice,
    ComputeMode::MacLan,
    ComputeMode::MacRemote,
    ComputeMode::Hosted,
];

fn tools_only() -> CapabilitySet {
    CapabilitySet {
        vision: false,
        tool_calling: true,
        min_context_window: 0,
        code_gen: false,
        thinking: false,
    }
}

fn basic(id: &'static str) -> TestProvider {
    TestProvider::Plain { id, caps: CapabilitySet::none(), fails: false }
}

fn with_tools(id: &'static str) -> TestProvider {
    TestProvider::Plain { id, caps: tools_only(), fails: false }
}

impl TestProvider {
    fn descriptor(&self) -> ModelDescriptor {
        match self {
            TestProvider::Device(provider) => provider.descriptor(),
            TestProvider::Plain { id, caps, .. } => ModelDescriptor {
                id: id.to_string(),
                display_name: id.to_string(),
                context_window: 8192,
                capabilities: *caps,
                limitations: vec![],
                size_bytes: None,
                quantization: None,
                source: ModelSource::OnDevice,
                perf_profile: PerfProfile::default(),
            },
        }
    }

    fn can_handle(&self, req: &InferenceRequest) -> CanHandleResult {
        match self {
            TestProvider::Device(provider) => provider.can_handle(req),
            TestProvider::Plain { caps, .. } => {
                CanHandleResult::against(&req.required_caps, caps, None)
            }
        }
    }

    /// The chunks of a plain provider carry a mode that is wrong on purpose.
    fn generate(&self, req: &InferenceRequest) -> Result<Vec<InferenceChunk>, ContractError> {
        match self {
            TestProvider::Device(provider) => {
                let mut stream = provider.generate(req);
                let mut out = Vec::new();
                while let Some(chunk) = stream.next(false) {
                    out.push(chunk);
                }
                Ok(out)
            }
            TestProvider::Plain { fails: true, .. } => Err(ContractError::Cancelled),
            TestProvider::Plain { id, .. } => Ok(vec![
                InferenceChunk::text(id, ComputeMode::OnDevice),
                InferenceChunk::finish(FinishReason::Stop, ComputeMode::OnDevice),
            ]),
        }
    }
}

type Router = InferenceRouter<TestProvider>;

fn text_request(text: &str) -> InferenceRequest {
    InferenceRequest::from_messages(vec![Message::text(
        Uuid::new_v4(),
        MessageRole::User,
        text,
        ComputeMode::OnDevice,
        0,
    )])
}

fn tool_request() -> InferenceRequest {
    let mut req = text_request("use a tool");
    req.required_caps = tools_only();
    req
}

fn probes(router: &Router, req: &InferenceRequest) -> ModeTable<CanHandleResult> {
    let mut table = ModeTable::new();
    for mode in MODES {
        if let Some(p) = router.provider(mode) {
            table.set(mode, p.can_handle(req));
        }
    }
    table
}

fn generate(
    router: &mut Router,
    req: InferenceRequest,
) -> Result<Vec<InferenceChunk>, ContractError> {
    let table = probes(router, &req);
    let mode = router.select(&table)?;
    let started = router.provider(mode).expect("a chosen mode has a provider").generate(&req);
    let chunks = router.generate(mode, started)?;
    Ok(chunks
        .into_iter()
        .map(|c| stamp(Ok(c), mode).expect("a chunk stays a chunk"))
        .collect())
}

fn descriptor(router: &Router) -> ModelDescriptor {
    match router.active_mode() {
        Some(mode) => router.provider(mode).expect("registered").descriptor(),
        None => Router::unavailable_descriptor(),
    }
}

fn expect_pin_violation(err: ContractError, expected: ComputeMode) {
    match err {
        ContractError::Inference(InferenceError::PinViolation { requested }) => {
            assert_eq!(requested, expected)
        }
        other => panic!("expected PinViolation, got: {other:?}"),
    }
}

#[test]
fn router_prefers_mac_lan_over_hosted_and_on_device() {
    let mut router = Router::builder()
        .add_provider(ComputeMode::OnDevice, basic("on-device"))
        .add_provider(ComputeMode::Hosted, basic("hosted"))
        .add_provider(ComputeMode::MacLan, basic("mac-lan"))
        .build();
    let chunks = generate(&mut router, text_request("hi")).unwrap();
    assert!(!chunks.is_empty());
    assert!(
        chunks.iter().all(|c| c.active_mode == ComputeMode::MacLan),
        "every chunk must echo the chosen mode (MacLan)"
    );
    assert_eq!(descriptor(&router).id, "mac-lan");
}

#[test]
fn router_prefers_mac_remote_over_hosted_when_no_lan() {
    let mut router = Router::builder()
        .add_provider(ComputeMode::Hosted, basic("hosted"))
        .add_provider(ComputeMode::MacRemote, basic("mac-remote"))
        .add_provider(ComputeMode::OnDevice, basic("on-device"))
        .build();
    let chunks = generate(&mut router, text_request("hi")).unwrap();
    assert!(chunks.iter().all(|c| c.active_mode == ComputeMode::MacRemote));
}

#[test]
fn router_skips_incapable_providers() {
    let mut router = Router::builder()
        .add_provider(ComputeMode::MacLan, basic("mac-lan"))
        .add_provider(ComputeMode::Hosted, with_tools("hosted"))
        .add_provider(ComputeMode::OnDevice, basic("on-device"))
        .build();
    let chunks = generate(&mut router, tool_request()).unwrap();
    assert!(
        chunks.iter().all(|c| c.active_mode == ComputeMode::Hosted),
        "router must skip incapable MacLan and pick Hosted"
    );
}

#[test]
fn router_falls_back_to_on_device_as_last_resort() {
    let mut router =
        Router::builder().add_provider(ComputeMode::OnDevice, basic("on-device")).build();
    let chunks = generate(&mut router, text_request("hi")).unwrap();
    assert!(chunks.iter().all(|c| c.active_mode == ComputeMode::OnDevice));
}

#[test]
fn pin_is_honored_over_preference_order() {
    let mut router = Router::builder()
        .add_provider(ComputeMode::MacLan, basic("mac-lan"))
        .add_provider(ComputeMode::Hosted, basic("hosted"))
        .pin(Some(ComputeMode::Hosted))
        .build();
    let chunks = generate(&mut router, text_request("hi")).unwrap();
    assert!(chunks.iter().all(|c| c.active_mode == ComputeMode::Hosted));
    assert_eq!(descriptor(&router).id, "hosted", "descriptor must reflect the pinned provider");
}

#[test]
fn pin_to_unregistered_mode_is_a_pin_violation() {
    let mut router = Router::builder()
        .add_provider(ComputeMode::OnDevice, basic("on-device"))
        .pin(Some(ComputeMode::MacRemote))
        .build();
    let err = generate(&mut router, text_request("hi")).err().expect("never a fallback");
    expect_pin_violation(err, ComputeMode::MacRemote);
}

#[test]
fn pin_to_incapable_provider_is_a_pin_violation_not_a_fallback() {
    let mut router = Router::builder()
        .add_provider(ComputeMode::OnDevice, basic("on-device"))
        .add_provider(ComputeMode::Hosted, with_tools("hosted"))
        .pin(Some(ComputeMode::OnDevice))
        .build();
    let err = generate(&mut router, tool_request()).err().expect("never a fallback");
    expect_pin_violation(err, ComputeMode::OnDevice);
}

#[test]
fn no_capable_provider_error_when_nothing_fits() {
    let mut router =
        Router::builder().add_provider(ComputeMode::OnDevice, basic("on-device")).build();
    let err = generate(&mut router, tool_request()).err().expect("nothing supports tools");
    match err {
        ContractError::Inference(InferenceError::NoCapableProvider) => {}
        other => panic!("expected NoCapableProvider, got: {other:?}"),
    }
}

#[test]
fn router_can_handle_probes_in_preference_order() {
    let router = Router::builder()
        .add_provider(ComputeMode::OnDevice, basic("on-device"))
        .add_provider(ComputeMode::Hosted, with_tools("hosted"))
        .build();
    let can = |r: &Router, req: &InferenceRequest| {
        r.can_handle(&probes(r, req), &req.required_caps)
    };
    assert!(can(&router, &text_request("hi")).capable);
    assert!(can(&router, &tool_request()).capable, "hosted supports tools");

    let only_on_device =
        Router::builder().add_provider(ComputeMode::OnDevice, basic("on-device")).build();
    let result = can(&only_on_device, &tool_request());
    assert!(!result.capable);
    assert!(result.missing_caps.tool_calling);
}

fn drain(provider: &OnDeviceProvider, text: &str, cancelled: bool) -> Vec<InferenceChunk> {
    let mut stream = provider.generate(&text_request(text));
    let mut out = Vec::new();
    while let Some(chunk) = stream.next(cancelled) {
        out.push(chunk);
    }
    out
}

#[test]
fn on_device_provider_streams_to_completion_through_router() {
    let mut router = Router::builder()
        .add_provider(
            ComputeMode::OnDevice,
            TestProvider::Device(OnDeviceProvider::canned("kia ora koutou")),
        )
        .build();
    let chunks = generate(&mut router, text_request("hi")).unwrap();
    assert!(chunks.iter().all(|c| c.active_mode == ComputeMode::OnDevice));
    let text: String = chunks.iter().filter_map(|c| c.delta.as_deref()).collect();
    assert_eq!(text, "kia ora koutou");
    assert_eq!(
        chunks.last().unwrap().finish_reason,
        Some(FinishReason::Stop),
        "stream must terminate with a Stop finish chunk"
    );
    assert_eq!(chunks.len(), 4, "three words and the end");
}

#[test]
fn failed_generation_leaves_the_active_model() {
    let failing =
        TestProvider::Plain { id: "lan", caps: CapabilitySet::none(), fails: true };
    let mut router = Router::builder()
        .add_provider(ComputeMode::MacLan, failing)
        .add_provider(ComputeMode::Hosted, with_tools("hosted"))
        .build();
    assert_eq!(descriptor(&router).id, "lan", "the most preferred before any generation");
    generate(&mut router, tool_request()).expect("the hosted one answers");
    assert_eq!(descriptor(&router).id, "hosted");
    assert!(generate(&mut router, text_request("hi")).is_err(), "the preferred one fails");
    assert_eq!(descriptor(&router).id, "hosted");
}

#[test]
fn on_device_echo_replies_with_last_user_message() {
    let chunks = drain(&OnDeviceProvider::echo(), "hello mahi", false);
    let text: String = chunks.iter().filter_map(|c| c.delta.as_deref()).collect();
    assert_eq!(text, "You said: hello mahi");

    let say = |role: MessageRole, text: &str| {
        Message::text(Uuid::new_v4(), role, text, ComputeMode::OnDevice, 0)
    };
    let echo = |messages: Vec<Message>| -> Vec<String> {
        let mut stream =
            OnDeviceProvider::echo().generate(&InferenceRequest::from_messages(messages));
        let mut out = Vec::new();
        while let Some(chunk) = stream.next(false) {
            out.extend(chunk.delta);
        }
        out
    };
    assert_eq!(
        echo(vec![say(MessageRole::User, "a"), say(MessageRole::Assistant, "b")]),
        ["You ", "said: ", "a"]
    );
    assert_eq!(echo(vec![say(MessageRole::Assistant, "b")]), ["You ", "said: "]);
}

#[test]
fn on_device_provider_honors_cancellation() {
    let chunks = drain(&OnDeviceProvider::new(), "hi", true);
    assert_eq!(chunks.len(), 1);
    assert_eq!(chunks[0].finish_reason, Some(FinishReason::Cancelled));
}

#[test]
fn capability_snapshot_reports_all_modes() {
    let router = Router::builder()
        .add_provider(ComputeMode::OnDevice, TestProvider::Device(OnDeviceProvider::new()))
        .add_provider(ComputeMode::Hosted, basic("hosted"))
        .build();
    let device_id = Uuid::new_v4();
    let snapshot = router.capability_snapshot(device_id, |p| p.descriptor());
    assert_eq!(snapshot.device_id, device_id);
    let count = MODES.iter().filter(|m| snapshot.modes.get(**m).is_some()).count();
    assert_eq!(count, 4, "all four modes must be reported");

    let on_device = snapshot.modes.get(ComputeMode::OnDevice).unwrap();
    assert!(on_device.available);
    assert_eq!(on_device.models.len(), 1);
    assert_eq!(on_device.models[0].id, "mahi-on-device-v0");
    assert!(snapshot.modes.get(ComputeMode::Hosted).unwrap().available);
    assert!(!snapshot.modes.get(ComputeMode::MacLan).unwrap().available);
    assert!(!snapshot.modes.get(ComputeMode::MacRemote).unwrap().available);
}

#[test]
fn free_function_snapshot_builder_works_without_router() {
    let snapshot = build_capability_snapshot(
        Uuid::new_v4(),
        vec![(ComputeMode::OnDevice, OnDeviceProvider::new().descriptor())],
    );
    assert!(snapshot.modes.get(ComputeMode::OnDevice).unwrap().available);
    assert!(!snapshot.modes.get(ComputeMode::Hosted).unwrap().available);
}

#[test]
fn empty_router_descriptor_is_placeholder_and_generate_errors() {
    let mut router = Router::builder().build();
    assert_eq!(descriptor(&router).id, "mahi-router/no-active-provider");
    let err = generate(&mut router, text_request("hi")).err().unwrap();
    match err {
        ContractError::Inference(InferenceError::NoCapableProvider) => {}
        other => panic!("expected NoCapableProvider, got: {other:?}"),
    }
}

/// Runs the items of an event stream through a parser, as far as they are taken.
fn run_stream<P: SseChunkParser>(
    parser: P,
    events: &[(&str, &str)],
    cancelled: bool,
) -> Vec<Result<InferenceChunk, ContractError>> {
    let mut stream = ChunkStream::new(parser);
    let mut out = Vec::new();
    if !cancelled {
        for (event, data) in events {
            let item = SseItem::Event { event: event.to_string(), data: data.to_string() };
            match stream.next(item) {
                Some(chunks) => out.extend(chunks),
                None => break,
            }
        }
    }
    if let Some(chunk) = stream.tail(cancelled) {
        out.push(Ok(chunk));
    }
    out
}

const HELLO: &str =
    "{\"choices\":[{\"index\":0,\"delta\":{\"content\":\"hello\"},\"finish_reason\":null}]}";

#[test]
fn parses_events_until_done() {
    let events = [("", HELLO), ("", HELLO), ("", "[DONE]"), ("", HELLO)];
    let chunks = run_stream(OpenAiSseParser::new(ComputeMode::Hosted), &events, false);
    let chunks: Vec<_> = chunks.into_iter().map(Result::unwrap).collect();
    assert_eq!(chunks.len(), 3, "events after [DONE] must be dropped");
    assert_eq!(chunks[0].delta.as_deref(), Some("hello"));
    assert_eq!(chunks[2].finish_reason, Some(FinishReason::Stop));
}

#[test]
fn cancellation_appends_cancelled_finish() {
    let chunks = run_stream(OpenAiSseParser::new(ComputeMode::Hosted), &[("", HELLO)], true);
    let last = chunks.last().unwrap().as_ref().unwrap();
    assert_eq!(last.finish_reason, Some(FinishReason::Cancelled));
}

#[test]
fn natural_completion_has_no_trailing_cancelled_chunk() {
    let chunks =
        run_stream(OpenAiSseParser::new(ComputeMode::Hosted), &[("", HELLO), ("", "[DONE]")], false);
    let finishes: Vec<_> = chunks
        .iter()
        .filter_map(|c| c.as_ref().ok().and_then(|c| c.finish_reason))
        .collect();
    assert_eq!(finishes, vec![FinishReason::Stop]);
}

#[test]
fn anthropic_sse_bytes_end_to_end() {
    let events = [
        ("message_start", "{\"type\":\"message_start\",\"message\":{\"id\":\"msg_1\"}}"),
        ("content_block_start", "{\"type\":\"content_block_start\",\"index\":0,\"content_block\":{\"type\":\"text\",\"text\":\"\"}}"),
        ("content_block_delta", "{\"type\":\"content_block_delta\",\"index\":0,\"delta\":{\"type\":\"text_delta\",\"text\":\"Kia\"}}"),
        ("content_block_delta", "{\"type\":\"content_block_delta\",\"index\":0,\"delta\":{\"type\":\"text_delta\",\"text\":\" ora\"}}"),
        ("content_block_stop", "{\"type\":\"content_block_stop\",\"index\":0}"),
        ("message_delta", "{\"type\":\"message_delta\",\"delta\":{\"stop_reason\":\"end_turn\"}}"),
        ("message_stop", "{\"type\":\"message_stop\"}"),
    ];
    let chunks = run_stream(AnthropicSseParser::new(ComputeMode::Hosted), &events, false);
    let chunks: Vec<_> = chunks.into_iter().map(Result::unwrap).collect();
    let text: String = chunks.iter().filter_map(|c| c.delta.as_deref()).collect();
    assert_eq!(text, "Kia ora");
    assert_eq!(chunks.last().unwrap().finish_reason, Some(FinishReason::Stop));
    assert!(chunks.iter().all(|c| c.active_mode == ComputeMode::Hosted));
}

#[test]
fn openai_sse_bytes_end_to_end() {
    let events = [
        ("", "{\"choices\":[{\"index\":0,\"delta\":{\"content\":\"Hi\"},\"finish_reason\":null}]}"),
        ("", "{\"choices\":[{\"index\":0,\"delta\":{\"content\":\" there\"},\"finish_reason\":null}]}"),
        ("", "{\"choices\":[{\"index\":0,\"delta\":{},\"finish_reason\":\"stop\"}]}"),
        ("", "[DONE]"),
    ];
    let chunks = run_stream(OpenAiSseParser::new(ComputeMode::Hosted), &events, false);
    let chunks: Vec<_> = chunks.into_iter().map(Result::unwrap).collect();
    let text: String = chunks.iter().filter_map(|c| c.delta.as_deref()).collect();
    assert_eq!(text, "Hi there");
    assert_eq!(chunks.last().unwrap().finish_reason, Some(FinishReason::Stop));
    assert!(chunks.iter().all(|c| c.active_mode == ComputeMode::Hosted));
}

#[test]
fn sse_bytes_tool_call_end_to_end() {
    let events = [
        ("", "{\"choices\":[{\"index\":0,\"delta\":{\"role\":\"assistant\",\"content\":null,\"tool_calls\":[{\"index\":0,\"id\":\"call_9\",\"type\":\"function\",\"function\":{\"name\":\"file_read\",\"arguments\":\"\"}}]},\"finish_reason\":null}]}"),
        ("", "{\"choices\":[{\"index\":0,\"delta\":{\"tool_calls\":[{\"index\":0,\"function\":{\"arguments\":\"{\\\"path\\\":\"}}]},\"finish_reason\":null}]}"),
        ("", "{\"choices\":[{\"index\":0,\"delta\":{\"tool_calls\":[{\"index\":0,\"function\":{\"arguments\":\"\\\"notes.txt\\\"}\"}}]},\"finish_reason\":null}]}"),
        ("", "{\"choices\":[{\"index\":0,\"delta\":{},\"finish_reason\":\"tool_calls\"}]}"),
        ("", "[DONE]"),
    ];
    let chunks = run_stream(OpenAiSseParser::new(ComputeMode::Hosted), &events, false);
    let chunks: Vec<_> = chunks.into_iter().map(Result::unwrap).collect();
    let args: String = chunks
        .iter()
        .filter_map(|c| c.tool_call_delta.as_ref())
        .map(|d| d.args_delta.as_str())
        .collect();
    assert_eq!(args, "{\"path\":\"notes.txt\"}");
    assert!(chunks
        .iter()
        .filter_map(|c| c.tool_call_delta.as_ref())
        .all(|d| d.call_id == "call_9" && d.tool_id == "file_read"));
    assert_eq!(chunks.last().unwrap().finish_reason, Some(FinishReason::ToolCall));
}

#[test]
fn stream_failures_are_worth_another_try() {
    let mut stream = ChunkStream::new(OpenAiSseParser::new(ComputeMode::Hosted));
    let out = stream.next(SseItem::Failure { message: "cut".to_string() }).expect("not done");
    match &out[0] {
        Err(ContractError::Inference(InferenceError::Provider { message, retryable })) => {
            assert!(retryable);
            assert_eq!(message, "SSE stream error: cut");
        }
        _ => panic!("expected a provider error"),
    }
}

#[test]
fn http_errors_tell_what_can_be_tried_again() {
    let retryable = |e: ContractError| match e {
        ContractError::Inference(InferenceError::Provider { retryable, .. }) => retryable,
        _ => panic!("expected a provider error"),
    };
    assert!(retryable(http_error("openai-compat", 503, "503 Service Unavailable", "later")));
    assert!(retryable(http_error("openai-compat", 429, "429 Too Many Requests", "later")));
    assert!(!retryable(http_error("openai-compat", 401, "401 Unauthorized", "no")));
    assert!(retryable(transport_error("slow", true, false)));
    assert!(!retryable(transport_error("odd", false, false)));
}
