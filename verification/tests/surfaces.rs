//! The app's handle, the command line and the home server.

use mahi::agent::context::DEFAULT_SYSTEM_PROMPT;
use mahi::cli::{
    approval_prompt, brief, is_approval, parse_command, render_event, render_tool_event,
    spawning_line, subagent_line, tool_line, Command,
};
use mahi::compute::local::download::{DownloadState, DownloadStatus};
use mahi::compute::local::manager::ModelManager;
use mahi::contracts::agent::AgentEvent;
use mahi::contracts::compute::{FinishReason, InferenceChunk, InferenceRequest};
use mahi::contracts::data::{Conversation, Message, MessageRole};
use mahi::contracts::error::{ContractError, InferenceError};
use mahi::contracts::testkit::MockInferenceProvider;
use mahi::contracts::tooling::{
    DestructiveLevel, ToolCategory, ToolDescriptor, ToolEvent,
};
use mahi::contracts::types::ComputeMode;
use mahi::daemon::{
    chunk_body, collect_content, completion_body, error_body, models_body, stream_event,
    to_request, ChatMessage, ChatRequest,
};
use mahi::ffi::events::{map_event, render_tool_output, AgentEventFfi};
use mahi::ffi::handle::{
    collect_reply, goal_of, history, hosted_provider, list_conversations, mcp_config_path,
    own_mcp_config, parse_id, start_download, DownloadEntry, EngineState, HostedConfigFfi,
    HostedProvider, MahiError, ModelStateFfi, ProviderChoice, RuntimeStatusFfi,
};
use mahi::ffi::host::{
    mouse_button_str, screenshot_of, ui_elements_of, ComputerUseHost, MouseButton, ScreenshotFfi,
    UiBounds, UiElementFfi,
};
use mahi::ffi::provider::PlaceholderProvider;
use mahi::ffi::queue::TurnQueue;
use mahi::ident::Uuid;
use mahi::json::Json;

fn j(text: &str) -> Json {
    Json::parse(text).expect("valid JSON")
}

#[test]
fn in_memory_engine_lists_the_full_catalog_all_not_installed() {
    let state = EngineState::new();
    let catalog = state.model_catalog(&Vec::new(), &Vec::new());
    assert_eq!(catalog.len(), 9, "the curated catalog has 9 models");
    assert!(
        catalog.iter().all(|m| matches!(m.state, ModelStateFfi::NotInstalled)),
        "nothing is installed in a fresh in-memory engine"
    );
    assert!(matches!(state.runtime_status(), RuntimeStatusFfi::NoModel));
}

#[test]
fn placeholder_turn_streams_a_setup_hint_and_finishes() {
    let mut queue = TurnQueue::new();
    assert!(queue.poll_batch(32).is_none(), "nothing has come yet");
    for chunk in PlaceholderProvider.generate() {
        let event = match (chunk.delta, chunk.finish_reason) {
            (Some(text), _) => AgentEvent::TextDelta { text },
            (None, Some(reason)) => AgentEvent::TurnFinished { reason },
            (None, None) => panic!("an empty chunk"),
        };
        queue.push(map_event(Ok(event)).expect("shown"));
    }
    queue.finish();

    let mut text = String::new();
    let mut finished = false;
    loop {
        let batch = queue.poll_batch(1).expect("the turn has finished");
        if batch.is_empty() {
            break; // the stream ended
        }
        assert_eq!(batch.len(), 1);
        for event in batch {
            match event {
                AgentEventFfi::TextDelta { text: delta } => text.push_str(&delta),
                AgentEventFfi::TurnFinished { .. } => finished = true,
                _ => {}
            }
        }
    }
    assert!(finished, "the turn must finish");
    assert!(
        text.contains("No model is loaded"),
        "placeholder guidance streamed, got: {text:?}"
    );
}

fn hosted(provider: &str, base_url: Option<&str>) -> HostedConfigFfi {
    HostedConfigFfi {
        provider: provider.to_string(),
        api_key: "test-key".to_string(),
        model: "test-model".to_string(),
        base_url: base_url.map(|s| s.to_string()),
    }
}

#[test]
fn setting_and_clearing_hosted_config_moves_runtime_status() {
    let mut state = EngineState::new();
    state.set_hosted_config(Some(hosted("openai", Some("http://127.0.0.1:9"))));
    match state.runtime_status() {
        RuntimeStatusFfi::Running { model_id } => assert_eq!(model_id, "test-model"),
        other => panic!("expected Running, got {other:?}"),
    }
    assert!(matches!(state.provider(), ProviderChoice::Hosted(_)));

    state.set_hosted_config(None);
    assert!(matches!(state.runtime_status(), RuntimeStatusFfi::NoModel));
    assert!(matches!(state.provider(), ProviderChoice::Placeholder));
}

#[test]
fn hosted_configuration_picks_the_wire_format() {
    match hosted_provider(&hosted("anthropic", None)) {
        HostedProvider::Anthropic(p) => assert_eq!(p.model, "test-model"),
        HostedProvider::OpenAi(_) => panic!("the Messages API was asked for"),
    }
    match hosted_provider(&hosted("openai", None)) {
        HostedProvider::OpenAi(p) => assert_eq!(
            p.chat_completions_url(),
            "https://api.openai.com/v1/chat/completions"
        ),
        HostedProvider::Anthropic(_) => panic!("the OpenAI format was asked for"),
    }
    match hosted_provider(&hosted("other", Some("http://h"))) {
        HostedProvider::OpenAi(p) => {
            assert_eq!(p.chat_completions_url(), "http://h/v1/chat/completions")
        }
        HostedProvider::Anthropic(_) => panic!("the OpenAI format was asked for"),
    }
}

#[test]
fn handle_spawn_subagents_returns_one_summary_per_goal() {
    let goals = vec!["research X".to_string(), "draft Y".to_string()];
    let results: Vec<Result<String, ContractError>> = goals
        .iter()
        .map(|_| {
            let items = PlaceholderProvider
                .generate()
                .into_iter()
                .filter_map(|c| c.delta)
                .map(|text| Ok(AgentEvent::TextDelta { text }))
                .collect();
            Ok(collect_reply(&items).text)
        })
        .collect();
    let summaries = mahi::agent::subagent::collect_summaries(results).expect("subagents run");
    assert_eq!(summaries.len(), 2);
}

#[test]
fn downloads_and_unknown_models_are_handled_gracefully() {
    let mut state = EngineState::new();
    // Deleting a model that was never downloaded is an error of the files.
    assert!(!state.delete_model("qwen2.5-0.5b-instruct"));
    assert!(ModelManager::new("/models").delete("qwen2.5-0.5b-instruct", false, false).is_err());
    // Activating a model that isn't downloaded is a clean error.
    let err = state.activate_model("llama-3.1-8b-instruct", 8192, "/m", false).unwrap_err();
    assert_eq!(err.to_text(), "model `llama-3.1-8b-instruct` is not downloaded");
    // An unknown id is rejected.
    let err = start_download("not-a-real-model").unwrap_err();
    assert_eq!(err.to_text(), "unknown model `not-a-real-model`");
    assert!(state.activate_model("nope", 1, "/m", true).is_err());
    assert!(start_download("gemma-2-9b-it").is_ok());
}

#[test]
fn activation_runs_to_running_or_failed() {
    let mut state = EngineState::new();
    let plan = state.activate_model("gemma-2-9b-it", 1_000_000, "/m/g.gguf", true).unwrap();
    assert_eq!(plan.context, 8192, "no more than the model was trained with");
    assert_eq!(plan.path, "/m/g.gguf");
    assert!(matches!(state.runtime_status(), RuntimeStatusFfi::Starting { .. }));
    state.activation_ended("gemma-2-9b-it", Some("no memory".to_string()));
    assert!(matches!(state.runtime_status(), RuntimeStatusFfi::Failed { message } if message == "no memory"));
    assert_eq!(state.activate_model("gemma-2-9b-it", 1, "/m", true).unwrap().context, 512);
    state.activation_ended("gemma-2-9b-it", None);
    assert!(matches!(state.provider(), ProviderChoice::Local(id) if id == "gemma-2-9b-it"));

    let mut failed = DownloadState::begin(10);
    failed.set_status(DownloadStatus::Failed("x".to_string()));
    let downloads = vec![
        DownloadEntry {
            model_id: "phi-3.5-mini-instruct".to_string(),
            progress: DownloadState::begin(100),
        },
        DownloadEntry { model_id: "qwen2.5-7b-instruct".to_string(), progress: failed },
    ];
    let installed = vec!["llama-3.2-1b-instruct".to_string(), "qwen2.5-7b-instruct".to_string()];
    let catalog = state.model_catalog(&installed, &downloads);
    let state_of = |id: &str| catalog.iter().find(|m| m.id == id).unwrap().state;
    assert_eq!(state_of("gemma-2-9b-it"), ModelStateFfi::Active);
    assert_eq!(
        state_of("phi-3.5-mini-instruct"),
        ModelStateFfi::Downloading { bytes_downloaded: 0, total_bytes: 100 }
    );
    assert_eq!(state_of("qwen2.5-7b-instruct"), ModelStateFfi::NotInstalled);
    assert_eq!(state_of("llama-3.2-1b-instruct"), ModelStateFfi::Installed);

    // Hosted answers for a while; cleared, the local model answers again.
    state.set_hosted_config(Some(hosted("openai", None)));
    state.set_hosted_config(None);
    assert!(matches!(state.provider(), ProviderChoice::Local(_)));
    assert!(state.delete_model("gemma-2-9b-it"));
    assert!(matches!(state.provider(), ProviderChoice::Placeholder));
}

struct FakeHost;

impl ComputerUseHost for FakeHost {
    fn screenshot(&self) -> Result<ScreenshotFfi, MahiError> {
        Ok(ScreenshotFfi { png: vec![1, 2, 3], width: 4, height: 5 })
    }
    fn describe_ui(&self) -> Result<Vec<UiElementFfi>, MahiError> {
        Ok(vec![UiElementFfi {
            role: "button".to_string(),
            label: Some("OK".to_string()),
            x: 1,
            y: 2,
            width: 3,
            height: 4,
            focused: true,
        }])
    }
    fn click(&self, _x: i32, _y: i32, _button: String) -> Result<(), MahiError> {
        Ok(())
    }
    fn move_mouse(&self, _x: i32, _y: i32) -> Result<(), MahiError> {
        Ok(())
    }
    fn type_text(&self, _text: String) -> Result<(), MahiError> {
        Err(MahiError::engine("locked"))
    }
    fn scroll(&self, _dx: i32, _dy: i32) -> Result<(), MahiError> {
        Ok(())
    }
    fn key(&self, _combo: String) -> Result<(), MahiError> {
        Ok(())
    }
    fn is_sensitive_context(&self) -> bool {
        false
    }
}

#[test]
fn host_controller_forwards_to_the_foreign_host() {
    let host = FakeHost;
    let shot = screenshot_of(host.screenshot().unwrap());
    assert_eq!((shot.width, shot.height), (4, 5));
    assert_eq!(shot.bytes, vec![1, 2, 3]);
    assert_eq!(shot.description, "");

    let ui = ui_elements_of(&host.describe_ui().unwrap());
    assert_eq!(ui.len(), 1);
    assert_eq!(ui[0].role, "button");
    assert_eq!(ui[0].label.as_deref(), Some("OK"));
    assert_eq!(ui[0].bounds, UiBounds { x: 1, y: 2, width: 3, height: 4 });
    assert_eq!(mouse_button_str(MouseButton::Left), "left");
    assert_eq!(mouse_button_str(MouseButton::Right), "right");
    assert_eq!(mouse_button_str(MouseButton::Middle), "middle");
    assert_eq!(host.type_text("x".to_string()).unwrap_err().to_text(), "locked");
}

#[test]
fn events_are_flattened_for_the_app() {
    let flat = |e: AgentEvent| map_event(Ok(e));
    assert!(flat(AgentEvent::ModeHandoff { from: ComputeMode::MacLan, to: ComputeMode::Hosted })
        .is_none());
    match flat(AgentEvent::Tool {
        event: ToolEvent::Citation {
            url: "http://x".to_string(),
            title: Some("T".to_string()),
            excerpt: None,
        },
    }) {
        Some(AgentEventFfi::ToolProgress { text }) => assert_eq!(text, "T — http://x"),
        other => panic!("got {other:?}"),
    }
    match map_event(Err(ContractError::Inference(InferenceError::NoCapableProvider))) {
        Some(AgentEventFfi::Error { message }) => assert!(!message.is_empty()),
        other => panic!("got {other:?}"),
    }
    match flat(AgentEvent::TurnFinished { reason: FinishReason::MaxTokens }) {
        Some(AgentEventFfi::TurnFinished { reason }) => assert_eq!(reason, "MaxTokens"),
        other => panic!("got {other:?}"),
    }
    assert_eq!(render_tool_output(&j("\"plain\"")), "plain");
    assert_eq!(render_tool_output(&j("{\"content\":\"inner\",\"n\":1}")), "inner");
    assert_eq!(render_tool_output(&j("{\"content\":1}")), "{\"content\":1}");
    assert_eq!(render_tool_output(&j("[1,2]")), "[1,2]");
}

#[test]
fn summaries_and_transcripts_are_flattened() {
    let mut conv = Conversation::new(ComputeMode::MacLan);
    conv.id = Uuid(1);
    let listed = list_conversations(&vec![conv]);
    assert_eq!(listed[0].id, "00000000-0000-0000-0000-000000000001");
    assert_eq!(listed[0].title, "New conversation");
    assert_eq!(listed[0].mode, "MacLan");
    let msg = Message::text(Uuid(1), MessageRole::Assistant, "hi", ComputeMode::MacLan, 3);
    let shown = history(&vec![msg]);
    assert_eq!(shown[0].role, "assistant");
    assert_eq!(shown[0].text, "hi");
    assert_eq!(shown[0].sequence_num, 3);
    assert!(parse_id("not an id").is_err());
    assert_eq!(parse_id("00000000-0000-0000-0000-000000000001").unwrap(), Uuid(1));
    assert_eq!(parse_id(&Uuid(77).to_text()).unwrap(), Uuid(77));
    assert_eq!(goal_of("  "), None);
    assert_eq!(goal_of("win"), Some(format!("{DEFAULT_SYSTEM_PROMPT}\n\nwin")));
}

#[test]
fn tool_servers_are_configured_by_the_first_file_that_is_there() {
    let home = own_mcp_config("/home/x");
    assert_eq!(home, "/home/x/.config/mahi/mcp_servers.json");
    let candidates = vec!["/a".to_string(), home.clone()];
    assert_eq!(mcp_config_path(&None, &candidates, &vec![false, true]), Some(home));
    assert_eq!(mcp_config_path(&None, &candidates, &vec![false, false]), None);
    assert_eq!(
        mcp_config_path(&Some("/explicit".to_string()), &candidates, &vec![true, true]),
        Some("/explicit".to_string())
    );
    assert_eq!(
        mcp_config_path(&Some("  ".to_string()), &candidates, &vec![true, true]),
        Some("/a".to_string())
    );
}

#[test]
fn commands_are_told_from_messages() {
    assert!(matches!(parse_command("   \n"), Command::Nothing));
    assert!(matches!(parse_command("/quit\n"), Command::Quit));
    assert!(matches!(parse_command(" /exit "), Command::Quit));
    assert!(matches!(parse_command("/help"), Command::Help));
    assert!(matches!(parse_command("/new"), Command::NewConversation));
    assert!(matches!(parse_command("/tools"), Command::ListTools));
    assert!(matches!(parse_command("/spawn  | "), Command::SpawnUsage));
    assert!(matches!(parse_command("/spawn"), Command::Chat(t) if t == "/spawn"));
    match parse_command("/spawn goal one | goal two ||") {
        Command::Spawn(goals) => assert_eq!(goals, vec!["goal one", "goal two"]),
        other => panic!("got {other:?}"),
    }
    assert!(matches!(parse_command(" hi there "), Command::Chat(t) if t == "hi there"));
}

#[test]
fn terminal_lines_are_short_and_plain() {
    assert_eq!(brief("  short  "), "short");
    let long = brief(&"é".repeat(300));
    assert_eq!(long.chars().count(), 201);
    assert!(long.ends_with('…'));
    assert!(is_approval(" Y\n"));
    assert!(is_approval("yEs"));
    assert!(!is_approval("no"));
    assert!(!is_approval(""));
    assert_eq!(approval_prompt(false), "(denied) mahi > ");
    assert_eq!(spawning_line(2), "spawning 2 subagents…\n");
    assert_eq!(subagent_line(0, " done "), "  subagent 1: done\n");
    assert!(render_tool_event(&ToolEvent::Chunk { data: "x".to_string() }).is_none());
    assert_eq!(
        render_tool_event(&ToolEvent::Result { output: j("{\"a\":1}"), truncated: false }),
        Some("\n  ⮑ tool result: {\"a\":1}\n".to_string())
    );
    assert_eq!(
        render_event(&Err(ContractError::Other("x".to_string()))),
        Some("\n[stream error] x\n".to_string())
    );
    assert_eq!(
        render_event(&Ok(AgentEvent::ApprovalRequired {
            approval_id: Uuid(1),
            summary: "rm".to_string(),
        })),
        Some("\n[approval] rm\napprove? [y/N] ".to_string())
    );
    let tool = ToolDescriptor {
        id: "echo".to_string(),
        display_name: "Echo".to_string(),
        category: ToolCategory::BuiltIn,
        available_in_modes: vec![],
        required_permissions: vec![],
        input_schema: Json::Null,
        output_schema: Json::Null,
        requires_approval: true,
        destructive_level: DestructiveLevel::Low,
    };
    assert_eq!(tool_line(&tool), format!("  {:<16} {}{}\n", "echo", "Echo", " (needs approval)"));
}

#[test]
fn tool_events_are_written_on_one_short_line() {
    let error = |message: &str| {
        render_tool_event(&ToolEvent::Error { message: message.to_string(), retryable: false })
    };
    assert_eq!(error("no such file"), Some("\n  ⮑ tool error: no such file\n".to_string()));
    assert_eq!(error("first\r\nsecond\n"), Some("\n  ⮑ tool error: first  second\n".to_string()));
    let long = "é".repeat(300);
    assert_eq!(error(&long), Some(format!("\n  ⮑ tool error: {}…\n", "é".repeat(200))));
    assert_eq!(
        render_tool_event(&ToolEvent::Citation {
            url: "https://example.org/a".to_string(),
            title: None,
            excerpt: None,
        }),
        Some("\n  ⮑ source: https://example.org/a\n".to_string())
    );
    assert_eq!(
        render_tool_event(&ToolEvent::ApprovalRequired {
            approval_id: Uuid(1),
            summary: "run\nthis".to_string(),
            destructive_level: DestructiveLevel::Low,
        }),
        Some("\n  ⮑ run this\n".to_string())
    );
    assert_eq!(
        render_tool_event(&ToolEvent::Cancelled),
        Some("\n  ⮑ tool cancelled\n".to_string())
    );
    let result = render_tool_event(&ToolEvent::Result {
        output: Json::Str(long),
        truncated: false,
    })
    .unwrap();
    assert_eq!(result.chars().count(), 220);
    assert_eq!(result.trim().lines().count(), 1);
}

#[test]
fn chat_requests_become_inference_requests() {
    let req = ChatRequest {
        messages: ["system", "user", "assistant", "tool", "odd"]
            .iter()
            .map(|r| ChatMessage { role: r.to_string(), content: format!("as {r}") })
            .collect(),
        stream: false,
        temperature: None,
        max_tokens: Some(5),
    };
    let infer: InferenceRequest = to_request(&req);
    let roles: Vec<MessageRole> = infer.messages.iter().map(|m| m.role).collect();
    assert_eq!(
        roles,
        vec![
            MessageRole::System,
            MessageRole::User,
            MessageRole::Assistant,
            MessageRole::Tool,
            MessageRole::User
        ]
    );
    assert_eq!(infer.messages[4].text_content(), "as odd");
    assert_eq!(infer.messages[4].sequence_num, 4);
    assert_eq!(infer.messages[0].conversation_id, Uuid(0));
    assert_eq!(infer.max_tokens, Some(5));

    let provider = MockInferenceProvider::echo();
    let items: Vec<Result<InferenceChunk, ContractError>> =
        provider.generate(&infer).into_iter().map(Ok).collect();
    assert_eq!(collect_content(&items), "You said: as odd");
    assert!(stream_event("m", items.last().unwrap()).is_none());
    assert!(stream_event("m", &items[0]).is_some());
}

#[test]
fn answers_have_the_compatible_shapes() {
    let text = |v: Json| v.to_text();
    assert_eq!(
        text(models_body("m", 4096)),
        text(j("{\"object\":\"list\",\"data\":[{\"id\":\"m\",\"object\":\"model\",\"owned_by\":\"mahi\",\"context_window\":4096}]}"))
    );
    assert_eq!(
        text(chunk_body("m", "hi")),
        text(j("{\"object\":\"chat.completion.chunk\",\"model\":\"m\",\"choices\":[{\"index\":0,\"delta\":{\"content\":\"hi\"},\"finish_reason\":null}]}"))
    );
    assert_eq!(
        text(completion_body("m", "hi")),
        text(j("{\"object\":\"chat.completion\",\"model\":\"m\",\"choices\":[{\"index\":0,\"message\":{\"role\":\"assistant\",\"content\":\"hi\"},\"finish_reason\":\"stop\"}]}"))
    );
    assert_eq!(
        text(error_body(&ContractError::Other("x".to_string()))),
        "{\"error\":\"x\"}"
    );
}
