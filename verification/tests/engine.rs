//! Whole turns, run over the in-memory store with scripted models and tools.

use mahi::agent::approval::ApprovalRegistry;
use mahi::agent::context::{assemble_context, compact, CONTEXT_CHAR_BUDGET};
use mahi::agent::engine::{title_from_text, MahiEngine};
use mahi::agent::subagent::{collect_streamed, collect_summaries, subagent_mode, subagent_summary};
use mahi::agent::turn::{Fresh, TurnAction, TurnInput, HISTORY_LIMIT, MEMORY_RECALL_LIMIT};
use mahi::contracts::agent::AgentEvent;
use mahi::contracts::compute::{
    FinishReason, InferenceChunk, InferenceRequest, ThinkingConfig, ToolCallDelta,
};
use mahi::contracts::data::{
    AuditEventType, AuditOutcome, ContentBlock, Conversation, Message, MessageRole,
};
use mahi::contracts::error::ContractError;
use mahi::contracts::testkit::{in_memory_datastore, MemBackend, MockInferenceProvider};
use mahi::contracts::tooling::{
    DestructiveLevel, ToolCategory, ToolDescriptor, ToolEvent, ToolInvocation,
};
use mahi::contracts::types::ComputeMode;
use mahi::ident::{Timestamp, Uuid};
use mahi::json::Json;

fn j(text: &str) -> Json {
    Json::parse(text).expect("valid JSON")
}

fn tool(id: &str, requires_approval: bool, schema: &str) -> ToolDescriptor {
    ToolDescriptor {
        id: id.to_string(),
        display_name: "Echo".to_string(),
        category: ToolCategory::BuiltIn,
        available_in_modes: vec![ComputeMode::OnDevice],
        required_permissions: Vec::new(),
        input_schema: j(schema),
        output_schema: j("{\"type\":\"object\"}"),
        requires_approval,
        destructive_level: DestructiveLevel::Low,
    }
}

type Provider = Box<dyn FnMut(&InferenceRequest) -> Vec<InferenceChunk>>;
type Tools = Box<dyn FnMut(&ToolInvocation) -> Vec<ToolEvent>>;

struct Bench {
    engine: MahiEngine,
    data: MemBackend,
    approvals: ApprovalRegistry<u8>,
    provider: Provider,
    requests: Vec<InferenceRequest>,
    requires_approval: Option<bool>,
    tool_ids: Vec<(String, String)>,
    tools: Tools,
    invocations: usize,
    decision: bool,
    parked: usize,
    cancel_after_deltas: Option<usize>,
}

fn echo_tool(call: &ToolInvocation) -> Vec<ToolEvent> {
    vec![
        ToolEvent::Chunk { data: "working...".to_string() },
        ToolEvent::Result {
            output: Json::object(vec![("echoed".to_string(), call.args.clone())]),
            truncated: false,
        },
    ]
}

impl Bench {
    fn new(provider: Provider) -> Self {
        Bench {
            engine: MahiEngine::new(Uuid::new_v4()),
            data: in_memory_datastore(),
            approvals: ApprovalRegistry::new(),
            provider,
            requests: Vec::new(),
            requires_approval: None,
            tool_ids: vec![("echo".to_string(), "{\"type\":\"object\"}".to_string())],
            tools: Box::new(echo_tool),
            invocations: 0,
            decision: true,
            parked: 0,
            cancel_after_deltas: None,
        }
    }

    fn create(&mut self) -> Uuid {
        let (id, conversation) = self.engine.create_conversation(ComputeMode::OnDevice);
        self.data.conversations.upsert(conversation);
        id
    }

    fn descriptors(&self) -> Vec<ToolDescriptor> {
        match self.requires_approval {
            None => Vec::new(),
            Some(needed) => self
                .tool_ids
                .iter()
                .map(|(id, schema)| tool(id, needed, schema))
                .collect(),
        }
    }

    fn history(&self, id: Uuid) -> Vec<Message> {
        self.data.messages.range(id, 1000)
    }

    fn run(&mut self, id: Uuid, text: &str) -> Vec<AgentEvent> {
        let sequence = self.data.messages.next_sequence(id);
        let found: Option<Conversation> = self.data.conversations.get(id).map(|c| c.clone());
        let begun = self
            .engine
            .run_turn(id, found, text.to_string(), sequence)
            .expect("the conversation is there");
        self.data.messages.append(begun.user_message);
        if let Some(titled) = begun.titled {
            self.data.conversations.upsert(titled);
        }
        let mut runner = begun.runner;
        let mut events: Vec<AgentEvent> = Vec::new();
        let mut input = TurnInput::Start;
        let mut chunks: Vec<InferenceChunk> = Vec::new();
        let mut tool_events: Vec<ToolEvent> = Vec::new();
        let mut deltas = 0;
        loop {
            let output = runner.step(
                "scripted-test",
                false,
                self.engine.context_budget_chars(),
                self.engine.thinking,
                input,
            );
            deltas += output
                .events
                .iter()
                .filter(|e| matches!(e, AgentEvent::TextDelta { .. }))
                .count();
            events.extend(output.events);
            if let Some(id) = output.discard {
                self.approvals.discard(id);
            }
            let cancelled = match self.cancel_after_deltas {
                Some(n) => deltas >= n,
                None => false,
            };
            input = match output.action {
                TurnAction::Prepare { query, space_id, conversation_id, .. } => {
                    let memories =
                        self.data.memory.semantic_search(&query, space_id, MEMORY_RECALL_LIMIT);
                    let history = self.data.messages.range(conversation_id, HISTORY_LIMIT);
                    TurnInput::Prepared {
                        descriptors: self.descriptors(),
                        context: Ok((memories, history)),
                    }
                }
                TurnAction::Generate { request } => {
                    chunks = (self.provider)(&request);
                    chunks.reverse();
                    self.requests.push(request);
                    TurnInput::Generated { result: Ok(()) }
                }
                TurnAction::NextChunk => {
                    if cancelled {
                        TurnInput::Cancelled
                    } else {
                        TurnInput::Chunk { item: chunks.pop().map(Ok) }
                    }
                }
                TurnAction::AwaitApproval { approval_id } => {
                    self.parked += 1;
                    assert_eq!(self.invocations, 0, "the tool waits for the decision");
                    self.approvals.register_as(approval_id, 0);
                    assert!(self.approvals.resolve(approval_id).is_ok());
                    assert!(self.approvals.resolve(approval_id).is_err(), "resolved once");
                    TurnInput::Decision { approved: self.decision }
                }
                TurnAction::Invoke { invocation } => {
                    self.invocations += 1;
                    tool_events = (self.tools)(&invocation);
                    tool_events.reverse();
                    TurnInput::Invoked { result: Ok(()) }
                }
                TurnAction::NextToolEvent => {
                    TurnInput::ToolItem { event: tool_events.pop().map(Ok) }
                }
                TurnAction::Append { message } => {
                    let mut message = message;
                    message.sequence_num = self.data.messages.next_sequence(id);
                    self.data.messages.append(message);
                    TurnInput::Stored { result: Ok(()), cancelled }
                }
                TurnAction::Audit { event } => {
                    self.data.audit.append(event);
                    TurnInput::Stored { result: Ok(()), cancelled }
                }
                TurnAction::Touch { conversation } => {
                    self.data.conversations.upsert(conversation);
                    TurnInput::Stored { result: Ok(()), cancelled }
                }
                TurnAction::Finished => break,
                TurnAction::Wait => panic!("the machine did not take the input"),
            };
        }
        assert!(runner.is_done());
        events
    }
}

fn text_of(events: &[AgentEvent]) -> String {
    events
        .iter()
        .filter_map(|e| match e {
            AgentEvent::TextDelta { text } => Some(text.as_str()),
            _ => None,
        })
        .collect()
}

fn finished_with(events: &[AgentEvent], expected: FinishReason) -> bool {
    matches!(events.last(), Some(AgentEvent::TurnFinished { reason }) if *reason == expected)
}

fn call_chunk(call_id: &str, tool_id: &str, args_delta: &str) -> InferenceChunk {
    InferenceChunk::tool_call(
        ToolCallDelta {
            call_id: call_id.to_string(),
            tool_id: tool_id.to_string(),
            args_delta: args_delta.to_string(),
        },
        ComputeMode::OnDevice,
    )
}

fn scripted(scripts: Vec<fn() -> Vec<InferenceChunk>>) -> Provider {
    let mut round = 0;
    Box::new(move |_| {
        let n = round.min(scripts.len() - 1);
        round += 1;
        scripts[n]()
    })
}

fn finish(reason: FinishReason) -> InferenceChunk {
    InferenceChunk::finish(reason, ComputeMode::OnDevice)
}

fn echo_call() -> Vec<InferenceChunk> {
    vec![
        call_chunk("c1", "echo", "{\"msg\":"),
        call_chunk("c1", "echo", "\"hi\"}"),
        finish(FinishReason::ToolCall),
    ]
}

fn said_hi() -> Vec<InferenceChunk> {
    vec![
        InferenceChunk::text("The tool said hi.", ComputeMode::OnDevice),
        finish(FinishReason::Stop),
    ]
}

fn mock() -> Provider {
    Box::new(|req| MockInferenceProvider::default().generate(req))
}

#[test]
fn run_turn_streams_text_and_persists_assistant_message() {
    let mut bench = Bench::new(mock());
    let id = bench.create();
    let events = bench.run(id, "hello there");

    assert!(matches!(events.first(), Some(AgentEvent::TurnStarted { .. })));
    assert!(finished_with(&events, FinishReason::Stop));
    let delta_count =
        events.iter().filter(|e| matches!(e, AgentEvent::TextDelta { .. })).count();
    assert!(delta_count > 1, "expected streaming deltas, got {delta_count}");
    assert_eq!(text_of(&events), "Hello from Mahi. This is the on-device mock model.");

    let history = bench.history(id);
    assert_eq!(history.len(), 2);
    assert_eq!(history[0].role, MessageRole::User);
    assert_eq!(history[0].text_content(), "hello there");
    assert_eq!(history[1].role, MessageRole::Assistant);
    assert_eq!(
        history[1].text_content(),
        "Hello from Mahi. This is the on-device mock model."
    );
    assert!(history[1].model_id.is_some());
    let stored = bench.data.conversations.get(id).expect("stored");
    assert_eq!(stored.title.as_deref(), Some("hello there"));
}

#[test]
fn tool_call_round_trip_without_approval_completes_loop() {
    let mut bench = Bench::new(scripted(vec![echo_call, said_hi]));
    bench.requires_approval = Some(false);
    let id = bench.create();
    let events = bench.run(id, "use the echo tool");

    assert!(!events.iter().any(|e| matches!(e, AgentEvent::ApprovalRequired { .. })));
    assert_eq!(bench.invocations, 1);
    assert!(events
        .iter()
        .any(|e| matches!(e, AgentEvent::Tool { event: ToolEvent::Result { .. } })));
    assert_eq!(bench.requests.len(), 2);
    assert_eq!(text_of(&events), "The tool said hi.");
    assert!(finished_with(&events, FinishReason::Stop));

    let history = bench.history(id);
    let roles: Vec<MessageRole> = history.iter().map(|m| m.role).collect();
    assert_eq!(
        roles,
        vec![
            MessageRole::User,
            MessageRole::Assistant,
            MessageRole::Tool,
            MessageRole::Assistant
        ]
    );
    assert!(history[1]
        .content
        .iter()
        .any(|b| matches!(b, ContentBlock::ToolCall { tool_id, .. } if tool_id == "echo")));
    assert!(history[2]
        .content
        .iter()
        .any(|b| matches!(b, ContentBlock::ToolResult { call_id, .. } if call_id == "c1")));
    assert_eq!(history[3].text_content(), "The tool said hi.");

    let audit = bench.data.audit.query(Some(id), 10);
    assert_eq!(audit.len(), 1);
    assert_eq!(audit[0].event_type, AuditEventType::ToolCall);
    assert_eq!(audit[0].outcome, AuditOutcome::Allowed);
    assert_eq!(audit[0].resource_ref.as_deref(), Some("echo"));
}

#[test]
fn engine_spawn_subagents_returns_one_summary_per_goal() {
    let mut bench = Bench::new(mock());
    assert_eq!(subagent_mode(), ComputeMode::MacLan);
    let mut results: Vec<Result<String, ContractError>> = Vec::new();
    for goal in ["a", "b"] {
        let id = bench.create();
        let events = bench.run(id, goal);
        let streamed = collect_streamed(&events);
        results.push(Ok(subagent_summary(&bench.history(id), streamed)));
    }
    let summaries = collect_summaries(results).expect("no subagent failed");
    assert_eq!(summaries.len(), 2);
    for summary in &summaries {
        assert_eq!(summary, "Hello from Mahi. This is the on-device mock model.");
    }
    assert_eq!(bench.data.conversations.list(10).len(), 2);
}

#[test]
fn subagent_without_a_stored_reply_is_summed_up_by_its_stream() {
    assert_eq!(subagent_summary(&Vec::new(), "streamed".to_string()), "streamed");
    let failed = collect_summaries(vec![
        Ok("fine".to_string()),
        Err(ContractError::Cancelled),
        Err(ContractError::Other("later".to_string())),
    ]);
    assert!(matches!(failed, Err(ContractError::Cancelled)));
}

#[test]
fn approval_gate_parks_turn_until_resolved() {
    let mut bench = Bench::new(scripted(vec![echo_call, said_hi]));
    bench.requires_approval = Some(true);
    let id = bench.create();
    let events = bench.run(id, "do something risky");

    assert_eq!(bench.parked, 1);
    assert!(events.iter().any(|e| matches!(e, AgentEvent::ApprovalRequired { .. })));
    assert_eq!(bench.invocations, 1);
    assert!(events
        .iter()
        .any(|e| matches!(e, AgentEvent::Tool { event: ToolEvent::Result { .. } })));
    assert!(finished_with(&events, FinishReason::Stop));
    let audit = bench.data.audit.query(Some(id), 10);
    assert_eq!(audit.len(), 1);
    assert_eq!(audit[0].outcome, AuditOutcome::Allowed);
}

#[test]
fn denied_approval_skips_tool_and_feeds_denial_back() {
    let mut bench = Bench::new(scripted(vec![echo_call, said_hi]));
    bench.requires_approval = Some(true);
    bench.decision = false;
    let id = bench.create();
    let events = bench.run(id, "do something risky");

    assert!(finished_with(&events, FinishReason::Stop));
    assert_eq!(bench.invocations, 0);
    let audit = bench.data.audit.query(Some(id), 10);
    assert_eq!(audit.len(), 1);
    assert_eq!(audit[0].outcome, AuditOutcome::Denied);
    assert!(bench.history(id).iter().any(|m| m.role == MessageRole::Tool));
}

fn read_notes() -> Vec<InferenceChunk> {
    vec![
        call_chunk("c1", "file_read", "{\"path\":"),
        call_chunk("c1", "file_read", "\"notes.txt\"}"),
        finish(FinishReason::ToolCall),
    ]
}

fn told_notes() -> Vec<InferenceChunk> {
    vec![
        InferenceChunk::text("The note says: the secret is kiwi.", ComputeMode::OnDevice),
        finish(FinishReason::Stop),
    ]
}

#[test]
fn file_read_round_trip_feeds_result_into_round_two_request() {
    let mut bench = Bench::new(scripted(vec![read_notes, told_notes]));
    bench.requires_approval = Some(false);
    bench.tool_ids = vec![(
        "file_read".to_string(),
        "{\"type\":\"object\",\"properties\":{\"path\":{\"type\":\"string\"}}}".to_string(),
    )];
    bench.tools = Box::new(|call| {
        assert_eq!(call.args.at("path").str_or_empty(), "notes.txt");
        vec![ToolEvent::Result {
            output: j("{\"content\":\"the secret is kiwi\"}"),
            truncated: false,
        }]
    });
    let id = bench.create();
    let events = bench.run(id, "what does notes.txt say?");

    assert!(matches!(events.first(), Some(AgentEvent::TurnStarted { .. })));
    let result_pos = events
        .iter()
        .position(|e| matches!(e, AgentEvent::Tool { event: ToolEvent::Result { .. } }))
        .expect("expected a tool Result event");
    let text_pos = events
        .iter()
        .position(|e| matches!(e, AgentEvent::TextDelta { .. }))
        .expect("expected a text delta after the tool ran");
    assert!(result_pos < text_pos, "tool result must precede final text");
    assert!(!events.iter().any(|e| matches!(e, AgentEvent::Error { .. })));
    assert!(finished_with(&events, FinishReason::Stop));
    assert_eq!(text_of(&events), "The note says: the secret is kiwi.");

    assert_eq!(bench.requests.len(), 2);
    for request in &bench.requests {
        let specs = request.tools.as_ref().expect("tools sent every round");
        let file_read = specs.iter().find(|s| s.id == "file_read").expect("spec present");
        assert!(matches!(file_read.input_schema.at("properties").at("path"), Json::Object(_)));
        assert!(!file_read.description.is_empty());
    }
    let round2 = &bench.requests[1].messages;
    assert!(
        round2.iter().any(|m| m.role == MessageRole::Assistant
            && m.content.iter().any(|b| matches!(
                b,
                ContentBlock::ToolCall { call_id, tool_id, args }
                    if call_id == "c1"
                        && tool_id == "file_read"
                        && args.at("path").str_or_empty() == "notes.txt"
            ))),
        "round 2 must replay the assistant tool call"
    );
    let result_content = round2
        .iter()
        .filter(|m| m.role == MessageRole::Tool)
        .flat_map(|m| m.content.iter())
        .find_map(|b| match b {
            ContentBlock::ToolResult { call_id, output } if call_id == "c1" => {
                Some(output.clone())
            }
            _ => None,
        })
        .expect("round 2 must carry the tool result for c1");
    assert_eq!(result_content.at("content").str_or_empty(), "the secret is kiwi");
}

fn two_calls() -> Vec<InferenceChunk> {
    vec![
        call_chunk("c1", "echo", "{\"msg\":"),
        call_chunk("c2", "echo", "{\"msg\":"),
        call_chunk("c1", "echo", "\"first\"}"),
        call_chunk("c2", "echo", "\"second\"}"),
        finish(FinishReason::ToolCall),
    ]
}

fn both_ran() -> Vec<InferenceChunk> {
    vec![
        InferenceChunk::text("Both tools ran.", ComputeMode::OnDevice),
        finish(FinishReason::Stop),
    ]
}

#[test]
fn parallel_tool_calls_in_one_round_both_execute_and_feed_back() {
    let mut bench = Bench::new(scripted(vec![two_calls, both_ran]));
    bench.requires_approval = Some(false);
    let id = bench.create();
    let events = bench.run(id, "run echo twice");

    assert_eq!(bench.invocations, 2);
    let result_events = events
        .iter()
        .filter(|e| matches!(e, AgentEvent::Tool { event: ToolEvent::Result { .. } }))
        .count();
    assert_eq!(result_events, 2);
    assert!(finished_with(&events, FinishReason::Stop));

    let history = bench.history(id);
    let assistant = history
        .iter()
        .find(|m| {
            m.role == MessageRole::Assistant
                && m.content.iter().any(|b| matches!(b, ContentBlock::ToolCall { .. }))
        })
        .expect("assistant tool-call message persisted");
    let calls: Vec<(&str, &Json)> = assistant
        .content
        .iter()
        .filter_map(|b| match b {
            ContentBlock::ToolCall { call_id, args, .. } => Some((call_id.as_str(), args)),
            _ => None,
        })
        .collect();
    assert_eq!(calls.len(), 2);
    assert_eq!(calls[0].0, "c1");
    assert_eq!(calls[0].1.at("msg").str_or_empty(), "first");
    assert_eq!(calls[1].0, "c2");
    assert_eq!(calls[1].1.at("msg").str_or_empty(), "second");

    assert_eq!(bench.requests.len(), 2);
    let round2_results: Vec<String> = bench.requests[1]
        .messages
        .iter()
        .filter(|m| m.role == MessageRole::Tool)
        .flat_map(|m| m.content.iter())
        .filter_map(|b| match b {
            ContentBlock::ToolResult { call_id, .. } => Some(call_id.clone()),
            _ => None,
        })
        .collect();
    assert_eq!(round2_results, vec!["c1".to_string(), "c2".to_string()]);
}

fn ticks() -> Vec<InferenceChunk> {
    (0..100).map(|_| InferenceChunk::text("tick ", ComputeMode::OnDevice)).collect()
}

#[test]
fn cancellation_finishes_turn_with_cancelled() {
    let mut bench = Bench::new(scripted(vec![ticks]));
    bench.cancel_after_deltas = Some(3);
    let id = bench.create();
    let events = bench.run(id, "never stop");
    assert_eq!(text_of(&events), "tick tick tick ");
    assert!(finished_with(&events, FinishReason::Cancelled));
}

fn ok_script() -> Vec<InferenceChunk> {
    vec![InferenceChunk::text("ok", ComputeMode::OnDevice), finish(FinishReason::Stop)]
}

#[test]
fn thinking_toggle_controls_request_thinking() {
    let mut bench = Bench::new(scripted(vec![ok_script]));
    let id = bench.create();
    bench.run(id, "hi");
    assert!(bench.requests[0].thinking.is_some(), "thinking should be on by default");

    bench.engine.set_thinking_config(false, 0);
    bench.run(id, "again");
    assert!(bench.requests.last().unwrap().thinking.is_none());

    bench.engine.set_thinking_config(true, 8192);
    bench.run(id, "more");
    assert_eq!(
        bench.requests.last().unwrap().thinking.map(|t: ThinkingConfig| t.budget_tokens),
        Some(8192)
    );
}

#[test]
fn unknown_tool_is_answered_and_the_turn_goes_on() {
    let mut bench = Bench::new(scripted(vec![echo_call, said_hi]));
    let id = bench.create();
    let events = bench.run(id, "call what is not there");
    assert_eq!(bench.invocations, 0);
    assert!(finished_with(&events, FinishReason::Stop));
    assert_eq!(bench.requests.len(), 2);
}

#[test]
fn endless_tool_calls_are_capped() {
    let mut bench = Bench::new(scripted(vec![echo_call]));
    bench.requires_approval = Some(false);
    let id = bench.create();
    let events = bench.run(id, "loop");
    assert!(events.iter().any(|e| matches!(e, AgentEvent::Error { .. })));
    assert!(bench.requests.len() < 100);
    assert!(matches!(events.last(), Some(AgentEvent::TurnFinished { .. })));
}

#[test]
fn missing_conversation_cannot_run() {
    let engine = MahiEngine::new(Uuid::new_v4());
    let id = Uuid(7);
    let failed = engine.run_turn(id, None, "x".to_string(), 0);
    match failed {
        Err(e) => assert!(e.to_text().contains("00000000-0000-0000-0000-000000000007")),
        Ok(_) => panic!("there is no such conversation"),
    }
    assert!(engine.set_system_prompt(id, None, None).is_err());
}

#[test]
fn uses_first_nonempty_line() {
    assert_eq!(title_from_text("Hello there"), "Hello there");
    assert_eq!(title_from_text("  \n  Fix the login bug\nmore"), "Fix the login bug");
    assert_eq!(title_from_text("   "), "New conversation");
}

#[test]
fn truncates_long_titles_on_a_char_boundary() {
    let title = title_from_text(&"a".repeat(100));
    assert_eq!(title.chars().count(), 49); // 48 chars + ellipsis
    assert!(title.ends_with('…'));
}

fn msg(conv: Uuid, seq: i64, text: &str) -> Message {
    Message::text(conv, MessageRole::User, text, ComputeMode::OnDevice, seq)
}

#[test]
fn compact_keeps_most_recent_within_budget() {
    let conv = Uuid::new_v4();
    let history: Vec<Message> = (0..10)
        .map(|i| msg(conv, i, &format!("message number {i} {}", "x".repeat(100))))
        .collect();
    let compacted = compact(Vec::new(), history, 400);
    assert!(!compacted.is_empty());
    assert!(compacted.len() < 10, "should have dropped old messages");
    assert_eq!(compacted.last().unwrap().sequence_num, 9);
    let seqs: Vec<i64> = compacted.iter().map(|m| m.sequence_num).collect();
    let mut sorted = seqs.clone();
    sorted.sort();
    assert_eq!(seqs, sorted);
}

#[test]
fn compact_always_keeps_latest_even_over_budget() {
    let conv = Uuid::new_v4();
    let history = vec![msg(conv, 0, &"y".repeat(5000))];
    let compacted = compact(Vec::new(), history, 10);
    assert_eq!(compacted.len(), 1);
}

#[test]
fn compact_preserves_preamble() {
    let conv = Uuid::new_v4();
    let preamble = vec![msg(conv, -1, "system prompt")];
    let history = vec![msg(conv, 0, "hi"), msg(conv, 1, "there")];
    let compacted = compact(preamble, history, CONTEXT_CHAR_BUDGET);
    assert_eq!(compacted.len(), 3);
    assert_eq!(compacted[0].sequence_num, -1);
}

fn context_of(conv: &Conversation) -> Vec<Message> {
    assemble_context(
        conv,
        &Vec::new(),
        Vec::new(),
        CONTEXT_CHAR_BUDGET,
        Uuid(1),
        Uuid(2),
        Timestamp { secs: 0, nanos: 0 },
    )
}

#[test]
fn injects_default_system_prompt_when_conversation_has_none() {
    let conv = Conversation::new(ComputeMode::OnDevice);
    assert!(conv.system_prompt.is_none());
    let ctx = context_of(&conv);
    assert_eq!(ctx[0].role, MessageRole::System);
    let text = ctx[0].text_content();
    assert!(text.contains("Mahi"), "default prompt names the assistant");
    assert!(text.contains("tools"), "default prompt frames tool use");
}

#[test]
fn conversation_system_prompt_overrides_the_default() {
    let mut conv = Conversation::new(ComputeMode::OnDevice);
    conv.system_prompt = Some("You are a terse poet.".to_string());
    let ctx = context_of(&conv);
    assert_eq!(ctx[0].role, MessageRole::System);
    assert_eq!(ctx[0].text_content(), "You are a terse poet.");
}

#[test]
fn resolve_fires_registered_oneshot() {
    let mut registry: ApprovalRegistry<&str> = ApprovalRegistry::new();
    let id = registry.register("waiter");
    assert_eq!(registry.resolve(id).unwrap(), "waiter");
    assert!(ApprovalRegistry::<u8>::delivered(true).is_ok());
    assert_eq!(
        ApprovalRegistry::<u8>::delivered(false).unwrap_err().to_text(),
        "approval waiter gone (turn ended or was cancelled)"
    );
}

#[test]
fn resolve_unknown_id_errors() {
    let mut registry: ApprovalRegistry<u8> = ApprovalRegistry::new();
    assert!(registry.resolve(Uuid::new_v4()).is_err());
}

#[test]
fn discard_removes_pending_entry() {
    let mut registry: ApprovalRegistry<u8> = ApprovalRegistry::new();
    let id = registry.register(1);
    let other = registry.register(2);
    registry.discard(id);
    assert!(registry.resolve(id).is_err());
    assert_eq!(registry.resolve(other).unwrap(), 2);
}

#[test]
fn compaction_asks_for_a_summary_and_pins_it() {
    let engine = MahiEngine::new(Uuid(1));
    let mut conv = Conversation::new(ComputeMode::Hosted);
    conv.system_prompt = Some("Be kind.".to_string());
    assert!(engine.compaction_request(&conv, &Vec::new(), Fresh::draw()).is_none());
    let history = vec![msg(conv.id, 0, "hello")];
    let request = engine.compaction_request(&conv, &history, Fresh::draw()).expect("a request");
    let prompt = request.messages[0].text_content();
    assert!(prompt.starts_with("Summarize this conversation concisely"));
    assert!(prompt.ends_with("hello"));
    let summary = MahiEngine::summary_from(&vec!["  They ".to_string(), "met. ".to_string()]);
    assert_eq!(summary, "They met.");
    let pinned = engine.compact_conversation(conv, &summary).expect("a summary");
    assert_eq!(
        pinned.system_prompt.as_deref(),
        Some("Be kind.\n\nSummary of the conversation so far:\nThey met.")
    );
}

#[test]
fn context_window_has_a_floor() {
    let mut engine = MahiEngine::new(Uuid(1));
    engine.set_context_window(100_000);
    assert_eq!(engine.context_budget_chars(), 400_000);
    engine.set_context_window(0);
    assert!(engine.context_budget_chars() > 0);
}
