//! The agent turn as a state machine: think, act, observe.
//!
//! A turn asks for one piece of outside work at a time and is told what came of
//! it. Each step yields the events to show and the next piece of work.

use crate::agent::context::{assemble_context, compacted, preamble};
use crate::agent::round::{
    chunk_events, empty_round, round_after, round_outcome, CallView, PendingToolCall, Round,
    RoundOutcome, RoundView,
};
use crate::agent::tool_call::{
    approval_summary, audit_tool_call, audit_view, build_approval_summary, build_denied_output,
    build_error_output, build_unknown_tool_text, denied_output, error_output, find_tool, parse_args,
    parsed_args, result_view, tool_position, tool_result_message, unknown_tool_text,
};
use crate::contracts::agent::{AgentEvent, AgentEventView};
use crate::contracts::compute::{
    ChunkView, FinishReason, InferenceChunk, InferenceRequest, RequestView, ThinkingConfig,
    ToolSpec, ToolSpecView,
};
use crate::contracts::data::{
    AuditEvent, AuditOutcome, AuditView, BlockView, ContentBlock, Conversation, ConversationView,
    block_text, concat_all, MemoryRecord, MemoryView, Message, MessageRole, MessageView,
};
use crate::contracts::error::{ContractError, ContractErrorView};
use crate::contracts::tooling::{
    InvocationView, ToolDescriptor, ToolDescriptorView, ToolEvent, ToolEventView, ToolInvocation,
};
use crate::contracts::types::{CapabilitySet, ComputeMode};
use crate::ident::{is_v4, utc_now, Timestamp, Uuid};
use crate::json::{Json, JsonView};
use crate::model::{pick, views};
use vstd::prelude::*;

verus! {

/// The most inference rounds in a single turn.
pub const MAX_TOOL_STEPS: usize = 8;

/// How many recent messages are loaded for a round.
pub const HISTORY_LIMIT: usize = 200;

/// How many memories are recalled for a round.
pub const MEMORY_RECALL_LIMIT: usize = 5;

/// The identifiers and the time that a step may use for what it makes.
#[derive(Clone, Copy, Debug, PartialEq, Eq, Structural)]
pub struct Fresh {
    pub first: Uuid,
    pub second: Uuid,
    pub third: Uuid,
    pub at: Timestamp,
}

impl Fresh {
    /// What holds of all that is drawn.
    pub open spec fn drawn(self) -> bool {
        &&& is_v4(self.first.0)
        &&& is_v4(self.second.0)
        &&& is_v4(self.third.0)
        &&& self.at.of_clock()
    }

    /// Fresh random identifiers of version 4 and the current time.
    pub fn draw() -> (r: Fresh)
        ensures
            r.drawn(),
    {
        Fresh {
            first: Uuid::new_v4(),
            second: Uuid::new_v4(),
            third: Uuid::new_v4(),
            at: utc_now(),
        }
    }
}

/// What a step reads of its surroundings.
#[derive(Debug)]
pub struct TurnEnv {
    /// The model that serves at the moment.
    pub model_id: String,
    /// Whether that model can see.
    pub vision: bool,
    /// The context budget, in characters.
    pub budget_chars: usize,
    /// The reasoning to ask for.
    pub thinking: Option<ThinkingConfig>,
    /// What new records are made with.
    pub fresh: Fresh,
}

/// [`TurnEnv`] as a mathematical value.
pub struct EnvView {
    pub model_id: Seq<char>,
    pub vision: bool,
    pub budget_chars: usize,
    pub thinking: Option<ThinkingConfig>,
    pub fresh: Fresh,
}

impl View for TurnEnv {
    type V = EnvView;

    open spec fn view(&self) -> EnvView {
        EnvView {
            model_id: self.model_id@,
            vision: self.vision,
            budget_chars: self.budget_chars,
            thinking: self.thinking,
            fresh: self.fresh,
        }
    }
}

/// Where a turn stands: what it waits for.
#[derive(Clone, Copy, Debug, PartialEq, Eq, Structural)]
pub enum Phase {
    /// The turn has not begun.
    Idle,
    /// The tools, the memories and the history of a round.
    Preparing,
    /// The start of a generation.
    Generating,
    /// The next chunk.
    Streaming,
    /// The storing of the final text.
    SavingText { reason: FinishReason },
    /// The storing of the message that carries the tool calls.
    SavingCalls,
    /// The user's decision on a call.
    AwaitingApproval,
    /// The start of a tool.
    Invoking,
    /// The next event of a tool.
    Running,
    /// The storing of an audit event.
    Auditing,
    /// The storing of a tool result.
    SavingResult,
    /// The storing of the conversation at the end.
    Touching { reason: FinishReason },
    /// Nothing: the turn is over.
    Done,
}

/// One agent turn.
pub struct TurnRunner {
    conversation: Conversation,
    user_text: String,
    user_message_id: Uuid,
    /// The active mode; it follows the chunks.
    mode: ComputeMode,
    trace_id: Uuid,
    device_id: Uuid,
    phase: Phase,
    /// How many rounds have begun.
    steps: usize,
    descriptors: Vec<ToolDescriptor>,
    round: Round,
    /// The tool calls of the round, and the one at hand.
    calls: Vec<PendingToolCall>,
    next_call: usize,
    /// The message that carries the tool calls.
    message_id: Uuid,
    /// The approval of the call at hand.
    approval: Option<Uuid>,
    /// The output of the call at hand.
    output: Json,
}

/// [`TurnRunner`] as a mathematical value.
pub struct TurnView {
    pub conversation: ConversationView,
    pub user_text: Seq<char>,
    pub user_message_id: Uuid,
    pub mode: ComputeMode,
    pub trace_id: Uuid,
    pub device_id: Uuid,
    pub phase: Phase,
    pub steps: nat,
    pub descriptors: Seq<ToolDescriptorView>,
    pub round: RoundView,
    pub calls: Seq<CallView>,
    pub next_call: nat,
    pub message_id: Uuid,
    pub approval: Option<Uuid>,
    pub output: JsonView,
}

impl View for TurnRunner {
    type V = TurnView;

    closed spec fn view(&self) -> TurnView {
        TurnView {
            conversation: self.conversation@,
            user_text: self.user_text@,
            user_message_id: self.user_message_id,
            mode: self.mode,
            trace_id: self.trace_id,
            device_id: self.device_id,
            phase: self.phase,
            steps: self.steps as nat,
            descriptors: views(self.descriptors@),
            round: self.round@,
            calls: views(self.calls@),
            next_call: self.next_call as nat,
            message_id: self.message_id,
            approval: self.approval,
            output: self.output@,
        }
    }
}

impl Phase {
    /// Whether a tool call is at hand.
    pub open spec fn in_call(self) -> bool {
        ||| self == Phase::AwaitingApproval
        ||| self == Phase::Invoking
        ||| self == Phase::Running
        ||| self == Phase::Auditing
        ||| self == Phase::SavingResult
    }
}

impl TurnView {
    /// A turn that has not begun.
    pub open spec fn idle(
        conversation: ConversationView,
        user_text: Seq<char>,
        user_message_id: Uuid,
        mode: ComputeMode,
        trace_id: Uuid,
        device_id: Uuid,
    ) -> TurnView {
        TurnView {
            conversation,
            user_text,
            user_message_id,
            mode,
            trace_id,
            device_id,
            phase: Phase::Idle,
            steps: 0,
            descriptors: Seq::empty(),
            round: empty_round(),
            calls: Seq::empty(),
            next_call: 0,
            message_id: user_message_id,
            approval: None,
            output: JsonView::Null,
        }
    }

    /// What holds of every turn at every moment.
    pub open spec fn wf(self) -> bool {
        &&& self.steps <= MAX_TOOL_STEPS
        &&& self.phase.in_call() ==> self.next_call < self.calls.len()
        &&& self.phase == Phase::AwaitingApproval ==> self.approval is Some
        &&& self.phase == Phase::SavingCalls ==> self.next_call == 0
        &&& self.next_call <= self.calls.len()
    }

    /// The call at hand.
    pub open spec fn call(self) -> CallView {
        self.calls[self.next_call as int]
    }
}

/// What a turn is told.
#[derive(Debug)]
pub enum TurnInput {
    /// Begin.
    Start,
    /// The tools of the mode, and the memories and the history, or why they
    /// could not be loaded.
    Prepared {
        descriptors: Vec<ToolDescriptor>,
        context: Result<(Vec<MemoryRecord>, Vec<Message>), ContractError>,
    },
    /// The generation has begun, or failed to.
    Generated { result: Result<(), ContractError> },
    /// The next item of the generation; none at its end.
    Chunk { item: Option<Result<InferenceChunk, ContractError>> },
    /// The user's decision.
    Decision { approved: bool },
    /// The tool has begun, or failed to.
    Invoked { result: Result<(), ContractError> },
    /// The next item of the tool; none at its end.
    ToolItem { event: Option<Result<ToolEvent, ContractError>> },
    /// A record has been stored, or could not be; and whether the turn has been
    /// cancelled by now.
    Stored { result: Result<(), ContractError>, cancelled: bool },
    /// The turn was cancelled while it waited.
    Cancelled,
}

/// [`TurnInput`] as a mathematical value.
pub enum InputView {
    Start,
    Prepared {
        descriptors: Seq<ToolDescriptorView>,
        context: Result<(Seq<MemoryView>, Seq<MessageView>), ContractErrorView>,
    },
    Generated { result: Result<(), ContractErrorView> },
    Chunk { item: Option<Result<ChunkView, ContractErrorView>> },
    Decision { approved: bool },
    Invoked { result: Result<(), ContractErrorView> },
    ToolItem { event: Option<Result<ToolEventView, ContractErrorView>> },
    Stored { result: Result<(), ContractErrorView>, cancelled: bool },
    Cancelled,
}

/// The view of a result without a value.
pub open spec fn unit_outcome(r: Result<(), ContractError>) -> Result<(), ContractErrorView> {
    match r {
        Ok(u) => Ok(u),
        Err(e) => Err(e@),
    }
}

impl View for TurnInput {
    type V = InputView;

    open spec fn view(&self) -> InputView {
        match self {
            TurnInput::Start => InputView::Start,
            TurnInput::Prepared { descriptors, context } => InputView::Prepared {
                descriptors: views(descriptors@),
                context: match context {
                    Ok(c) => Ok((views(c.0@), views(c.1@))),
                    Err(e) => Err(e@),
                },
            },
            TurnInput::Generated { result } => InputView::Generated {
                result: unit_outcome(*result),
            },
            TurnInput::Chunk { item } => InputView::Chunk {
                item: match item {
                    Some(Ok(c)) => Some(Ok(c@)),
                    Some(Err(e)) => Some(Err(e@)),
                    None => None,
                },
            },
            TurnInput::Decision { approved } => InputView::Decision { approved: *approved },
            TurnInput::Invoked { result } => InputView::Invoked { result: unit_outcome(*result) },
            TurnInput::ToolItem { event } => InputView::ToolItem {
                event: match event {
                    Some(Ok(c)) => Some(Ok(c@)),
                    Some(Err(e)) => Some(Err(e@)),
                    None => None,
                },
            },
            TurnInput::Stored { result, cancelled } => InputView::Stored {
                result: unit_outcome(*result),
                cancelled: *cancelled,
            },
            TurnInput::Cancelled => InputView::Cancelled,
        }
    }
}

/// What a turn asks for.
#[derive(Debug)]
pub enum TurnAction {
    /// List the tools of a mode; recall memories; load the history.
    Prepare { mode: ComputeMode, query: String, space_id: Option<Uuid>, conversation_id: Uuid },
    /// Begin a generation.
    Generate { request: InferenceRequest },
    /// Wait for the next chunk, or for cancellation.
    NextChunk,
    /// Wait for a decision, or for cancellation.
    AwaitApproval { approval_id: Uuid },
    /// Begin a tool.
    Invoke { invocation: ToolInvocation },
    /// Wait for the next event of the tool, or for cancellation.
    NextToolEvent,
    /// Store a message under the next sequence number.
    Append { message: Message },
    /// Store an audit event.
    Audit { event: AuditEvent },
    /// Store the conversation; a failure does not matter.
    Touch { conversation: Conversation },
    /// Nothing more.
    Finished,
    /// The input did not fit; keep waiting.
    Wait,
}

/// [`TurnAction`] as a mathematical value.
pub enum ActionView {
    Prepare {
        mode: ComputeMode,
        query: Seq<char>,
        space_id: Option<Uuid>,
        conversation_id: Uuid,
    },
    Generate { request: RequestView },
    NextChunk,
    AwaitApproval { approval_id: Uuid },
    Invoke { invocation: InvocationView },
    NextToolEvent,
    Append { message: MessageView },
    Audit { event: AuditView },
    Touch { conversation: ConversationView },
    Finished,
    Wait,
}

impl View for TurnAction {
    type V = ActionView;

    open spec fn view(&self) -> ActionView {
        match self {
            TurnAction::Prepare { mode, query, space_id, conversation_id } => ActionView::Prepare {
                mode: *mode,
                query: query@,
                space_id: *space_id,
                conversation_id: *conversation_id,
            },
            TurnAction::Generate { request } => ActionView::Generate { request: request@ },
            TurnAction::NextChunk => ActionView::NextChunk,
            TurnAction::AwaitApproval { approval_id } => ActionView::AwaitApproval {
                approval_id: *approval_id,
            },
            TurnAction::Invoke { invocation } => ActionView::Invoke { invocation: invocation@ },
            TurnAction::NextToolEvent => ActionView::NextToolEvent,
            TurnAction::Append { message } => ActionView::Append { message: message@ },
            TurnAction::Audit { event } => ActionView::Audit { event: event@ },
            TurnAction::Touch { conversation } => ActionView::Touch { conversation: conversation@ },
            TurnAction::Finished => ActionView::Finished,
            TurnAction::Wait => ActionView::Wait,
        }
    }
}

/// What a step yields: the events to show, the approval that nobody waits for
/// any more, and the next piece of work.
#[derive(Debug)]
pub struct TurnOutput {
    pub events: Vec<AgentEvent>,
    pub discard: Option<Uuid>,
    pub action: TurnAction,
}

/// [`TurnOutput`] as a mathematical value.
pub struct OutputView {
    pub events: Seq<AgentEventView>,
    pub discard: Option<Uuid>,
    pub action: ActionView,
}

impl View for TurnOutput {
    type V = OutputView;

    open spec fn view(&self) -> OutputView {
        OutputView {
            events: views(self.events@),
            discard: self.discard,
            action: self.action@,
        }
    }
}

/// A step that yields events and an action.
pub open spec fn yields(events: Seq<AgentEventView>, action: ActionView) -> OutputView {
    OutputView { events, discard: None, action }
}

/// The turn ends: the conversation is touched.
pub open spec fn finish(
    t: TurnView,
    env: EnvView,
    reason: FinishReason,
    events: Seq<AgentEventView>,
) -> (TurnView, OutputView) {
    (
        TurnView { phase: Phase::Touching { reason }, ..t },
        yields(
            events,
            ActionView::Touch {
                conversation: ConversationView { updated_at: env.fresh.at, ..t.conversation },
            },
        ),
    )
}

/// The turn ends with an error, which is shown.
pub open spec fn fail(t: TurnView, env: EnvView, e: ContractErrorView) -> (TurnView, OutputView) {
    finish(t, env, FinishReason::Error, seq![AgentEventView::Error { message: e.message() }])
}

/// The message for a turn that has used up its rounds.
pub open spec fn cap_text() -> Seq<char> {
    "tool-step cap (8) reached; ending turn"@
}

/// The next round begins, or the turn ends where it has used up its rounds.
pub open spec fn begin_round(t: TurnView, env: EnvView, events: Seq<AgentEventView>) -> (
    TurnView,
    OutputView,
) {
    if t.steps >= MAX_TOOL_STEPS {
        finish(
            t,
            env,
            FinishReason::Error,
            events.push(AgentEventView::Error { message: cap_text() }),
        )
    } else {
        (
            TurnView { phase: Phase::Preparing, steps: t.steps + 1, ..t },
            yields(
                events,
                ActionView::Prepare {
                    mode: t.mode,
                    query: t.user_text,
                    space_id: t.conversation.space_id,
                    conversation_id: t.conversation.id,
                },
            ),
        )
    }
}

/// A tool definition for a provider.
pub open spec fn tool_spec(d: ToolDescriptorView) -> ToolSpecView {
    ToolSpecView { id: d.id, description: d.display_name, input_schema: d.input_schema }
}

/// The request of a round.
pub open spec fn request_for(
    messages: Seq<MessageView>,
    descriptors: Seq<ToolDescriptorView>,
    env: EnvView,
) -> RequestView {
    RequestView {
        request_id: env.fresh.third,
        messages,
        tools: if descriptors.len() == 0 {
            None
        } else {
            Some(Seq::new(descriptors.len(), |i: int| tool_spec(descriptors[i])))
        },
        max_tokens: None,
        temperature: None,
        streaming_hint: true,
        required_caps: CapabilitySet::none_spec(),
        thinking: env.thinking,
    }
}

/// A generation begins with what was loaded.
pub open spec fn begin_generation(
    t: TurnView,
    env: EnvView,
    descriptors: Seq<ToolDescriptorView>,
    memories: Seq<MemoryView>,
    history: Seq<MessageView>,
) -> (TurnView, OutputView) {
    let messages = compacted(
        preamble(t.conversation, memories, env.fresh.first, env.fresh.second, env.fresh.at),
        history,
        env.budget_chars as int,
    );
    (
        TurnView { phase: Phase::Generating, descriptors, ..t },
        yields(
            Seq::empty(),
            ActionView::Generate { request: request_for(messages, descriptors, env) },
        ),
    )
}

/// The message that holds the final text of a turn.
pub open spec fn final_message(t: TurnView, env: EnvView) -> MessageView {
    MessageView {
        model_id: Some(env.model_id),
        ..MessageView::plain(
            env.fresh.first,
            env.fresh.at,
            t.conversation.id,
            MessageRole::Assistant,
            t.round.text,
            t.mode,
            0,
        )
    }
}

/// The blocks of a message that carries tool calls: the signed reasoning, the
/// text, and the calls.
pub open spec fn call_blocks(r: RoundView) -> Seq<BlockView> {
    (match r.signature {
        Some(signature) => seq![BlockView::Thinking { thinking: r.thinking, signature }],
        None => Seq::empty(),
    }) + (if r.text.len() > 0 {
        seq![BlockView::Text { text: r.text }]
    } else {
        Seq::empty()
    }) + Seq::new(
        r.calls.len(),
        |i: int|
            BlockView::ToolCall {
                call_id: r.calls[i].call_id,
                tool_id: r.calls[i].tool_id,
                args: parsed_args(r.calls[i].args_raw),
            },
    )
}

/// The message that carries the tool calls of a round.
pub open spec fn calls_message(t: TurnView, env: EnvView) -> MessageView {
    MessageView {
        id: env.fresh.first,
        conversation_id: t.conversation.id,
        role: MessageRole::Assistant,
        content: call_blocks(t.round),
        model_id: Some(env.model_id),
        mode: t.mode,
        created_at: env.fresh.at,
        sequence_num: 0,
        approval_refs: Seq::empty(),
    }
}

/// The reason with which a round that asks for no tools ends the turn.
pub open spec fn end_reason(o: RoundOutcome) -> FinishReason {
    match o {
        RoundOutcome::Finished(reason) => reason,
        _ => FinishReason::Cancelled,
    }
}

/// A round ends: its message is stored, where it has one.
pub open spec fn end_round(
    t: TurnView,
    env: EnvView,
    outcome: RoundOutcome,
    events: Seq<AgentEventView>,
) -> (TurnView, OutputView) {
    if outcome == RoundOutcome::ToolCalls {
        (
            TurnView {
                phase: Phase::SavingCalls,
                calls: t.round.calls,
                next_call: 0,
                message_id: env.fresh.first,
                round: empty_round(),
                ..t
            },
            yields(events, ActionView::Append { message: calls_message(t, env) }),
        )
    } else if t.round.text.len() == 0 {
        finish(t, env, end_reason(outcome), events)
    } else {
        (
            TurnView { phase: Phase::SavingText { reason: end_reason(outcome) }, ..t },
            yields(events, ActionView::Append { message: final_message(t, env) }),
        )
    }
}

/// A chunk arrives.
pub open spec fn on_chunk(t: TurnView, env: EnvView, c: ChunkView) -> (TurnView, OutputView) {
    let events = chunk_events(t.mode, c);
    let after = TurnView { mode: c.active_mode, round: round_after(t.round, c), ..t };
    match round_outcome(after.round, c) {
        None => (after, yields(events, ActionView::NextChunk)),
        Some(outcome) => end_round(after, env, outcome, events),
    }
}

/// The call at hand is recorded in the audit log; its output waits to be stored.
pub open spec fn settle(
    t: TurnView,
    env: EnvView,
    outcome: AuditOutcome,
    output: JsonView,
    events: Seq<AgentEventView>,
) -> (TurnView, OutputView) {
    (
        TurnView { phase: Phase::Auditing, output, ..t },
        yields(
            events,
            ActionView::Audit {
                event: audit_view(
                    t.call(),
                    outcome,
                    t.approval,
                    t.conversation.id,
                    t.device_id,
                    t.trace_id,
                    env.fresh.first,
                    env.fresh.at,
                ),
            },
        ),
    )
}

/// The tool of the call at hand begins.
pub open spec fn invoke(t: TurnView, env: EnvView) -> (TurnView, OutputView) {
    (
        TurnView { phase: Phase::Invoking, output: JsonView::Null, ..t },
        yields(
            Seq::empty(),
            ActionView::Invoke {
                invocation: InvocationView {
                    invocation_id: env.fresh.first,
                    tool_id: t.call().tool_id,
                    args: parsed_args(t.call().args_raw),
                    session_id: t.conversation.id,
                    conversation_id: t.conversation.id,
                    message_id: t.message_id,
                    compute_mode: t.mode,
                    trace_id: t.trace_id,
                    stream: true,
                },
            },
        ),
    )
}

/// The next call begins: an unknown tool is refused, a tool that requires
/// approval waits for it, any other runs. After the last call comes the next round.
pub open spec fn begin_call(t: TurnView, env: EnvView, cancelled: bool) -> (TurnView, OutputView) {
    if t.next_call >= t.calls.len() {
        begin_round(t, env, Seq::empty())
    } else if cancelled {
        finish(t, env, FinishReason::Cancelled, Seq::empty())
    } else {
        match tool_position(t.descriptors, t.call().tool_id, 0) {
            None => settle(
                TurnView { approval: None, ..t },
                env,
                AuditOutcome::Denied,
                error_output(unknown_tool_text(t.call().tool_id)),
                seq![AgentEventView::Error { message: unknown_tool_text(t.call().tool_id) }],
            ),
            Some(i) => if t.descriptors[i].requires_approval {
                (
                    TurnView {
                        phase: Phase::AwaitingApproval,
                        approval: Some(env.fresh.first),
                        ..t
                    },
                    yields(
                        seq![
                            AgentEventView::ApprovalRequired {
                                approval_id: env.fresh.first,
                                summary: approval_summary(t.descriptors[i], t.call().args_raw),
                            },
                        ],
                        ActionView::AwaitApproval { approval_id: env.fresh.first },
                    ),
                )
            } else {
                invoke(TurnView { approval: None, ..t }, env)
            },
        }
    }
}

/// The output of a call after an event of its tool.
pub open spec fn output_after(output: JsonView, e: ToolEventView) -> JsonView {
    match e {
        ToolEventView::Result { output, truncated } => output,
        ToolEventView::Error { message, retryable } => error_output(message),
        _ => output,
    }
}

/// An event of a tool arrives.
pub open spec fn on_tool_event(t: TurnView, env: EnvView, e: ToolEventView) -> (
    TurnView,
    OutputView,
) {
    let after = TurnView { output: output_after(t.output, e), ..t };
    let events = seq![AgentEventView::Tool { event: e }];
    if e is Cancelled {
        finish(after, env, FinishReason::Cancelled, events)
    } else {
        (after, yields(events, ActionView::NextToolEvent))
    }
}

/// A tool fails: the model is told, and the turn goes on.
pub open spec fn on_tool_failure(t: TurnView, env: EnvView, e: ContractErrorView) -> (
    TurnView,
    OutputView,
) {
    settle(
        t,
        env,
        AuditOutcome::Allowed,
        error_output(e.message()),
        seq![AgentEventView::Error { message: e.message() }],
    )
}

/// The output of the call at hand is stored.
pub open spec fn save_result(t: TurnView, env: EnvView) -> (TurnView, OutputView) {
    (
        TurnView { phase: Phase::SavingResult, output: JsonView::Null, ..t },
        yields(
            Seq::empty(),
            ActionView::Append {
                message: result_view(
                    t.call().call_id,
                    t.output,
                    t.approval,
                    env.vision,
                    t.conversation.id,
                    t.mode,
                    env.fresh.first,
                    env.fresh.at,
                ),
            },
        ),
    )
}

/// A record has been stored, or could not be.
pub open spec fn on_stored(
    t: TurnView,
    env: EnvView,
    result: Result<(), ContractErrorView>,
    cancelled: bool,
) -> (TurnView, OutputView) {
    match t.phase {
        Phase::Touching { reason } => (
            TurnView { phase: Phase::Done, ..t },
            yields(seq![AgentEventView::TurnFinished { reason }], ActionView::Finished),
        ),
        Phase::SavingText { reason } => match result {
            Ok(_) => finish(t, env, reason, Seq::empty()),
            Err(e) => fail(t, env, e),
        },
        Phase::SavingCalls => match result {
            Ok(_) => begin_call(t, env, cancelled),
            Err(e) => fail(t, env, e),
        },
        Phase::Auditing => match result {
            Ok(_) => save_result(t, env),
            Err(e) => fail(t, env, e),
        },
        Phase::SavingResult => match result {
            Ok(_) => begin_call(TurnView { next_call: t.next_call + 1, ..t }, env, cancelled),
            Err(e) => fail(t, env, e),
        },
        _ => (t, yields(Seq::empty(), ActionView::Wait)),
    }
}

/// The turn after an input, and what it yields.
pub open spec fn step_spec(t: TurnView, env: EnvView, input: InputView) -> (TurnView, OutputView) {
    match (t.phase, input) {
        (Phase::Idle, InputView::Start) => begin_round(
            t,
            env,
            seq![
                AgentEventView::TurnStarted {
                    conversation_id: t.conversation.id,
                    message_id: t.user_message_id,
                    mode: t.mode,
                },
            ],
        ),
        (Phase::Preparing, InputView::Prepared { descriptors, context }) => match context {
            Ok(c) => begin_generation(t, env, descriptors, c.0, c.1),
            Err(e) => fail(t, env, e),
        },
        (Phase::Generating, InputView::Generated { result }) => match result {
            Ok(_) => (
                TurnView { phase: Phase::Streaming, round: empty_round(), ..t },
                yields(Seq::empty(), ActionView::NextChunk),
            ),
            Err(e) => fail(t, env, e),
        },
        (Phase::Streaming, InputView::Chunk { item }) => match item {
            Some(Ok(c)) => on_chunk(t, env, c),
            Some(Err(e)) => fail(t, env, e),
            None => end_round(t, env, RoundOutcome::Finished(FinishReason::Stop), Seq::empty()),
        },
        (Phase::Streaming, InputView::Cancelled) => end_round(
            t,
            env,
            RoundOutcome::Cancelled,
            Seq::empty(),
        ),
        (Phase::AwaitingApproval, InputView::Decision { approved }) => if approved {
            invoke(t, env)
        } else {
            settle(t, env, AuditOutcome::Denied, denied_output(), Seq::empty())
        },
        (Phase::AwaitingApproval, InputView::Cancelled) => {
            let (after, out) = finish(t, env, FinishReason::Cancelled, Seq::empty());
            (after, OutputView { discard: t.approval, ..out })
        },
        (Phase::Invoking, InputView::Invoked { result }) => match result {
            Ok(_) => (
                TurnView { phase: Phase::Running, ..t },
                yields(Seq::empty(), ActionView::NextToolEvent),
            ),
            Err(e) => on_tool_failure(t, env, e),
        },
        (Phase::Running, InputView::ToolItem { event }) => match event {
            Some(Ok(e)) => on_tool_event(t, env, e),
            Some(Err(e)) => on_tool_failure(t, env, e),
            None => settle(t, env, AuditOutcome::Allowed, t.output, Seq::empty()),
        },
        (Phase::Running, InputView::Cancelled) => finish(
            t,
            env,
            FinishReason::Cancelled,
            Seq::empty(),
        ),
        (_, InputView::Stored { result, cancelled }) => on_stored(t, env, result, cancelled),
        _ => (t, yields(Seq::empty(), ActionView::Wait)),
    }
}

/// A list without events.
fn no_events() -> (r: Vec<AgentEvent>)
    ensures
        views(r@) == Seq::<AgentEventView>::empty(),
{
    let r: Vec<AgentEvent> = Vec::new();
    assert(views(r@) =~= Seq::<AgentEventView>::empty());
    r
}

/// A list with one event.
fn one_event(e: AgentEvent) -> (r: Vec<AgentEvent>)
    ensures
        views(r@) == seq![e@],
{
    let r = vec![e];
    assert(views(r@) =~= seq![e@]);
    r
}

/// The tool definitions for a provider.
fn tool_specs(descriptors: &Vec<ToolDescriptor>) -> (r: Vec<ToolSpec>)
    ensures
        views(r@) == Seq::new(
            descriptors@.len(),
            |i: int| tool_spec(views(descriptors@)[i]),
        ),
{
    let mut out: Vec<ToolSpec> = Vec::new();
    let mut i: usize = 0;
    while i < descriptors.len()
        invariant
            i <= descriptors.len(),
            out.len() == i,
            forall|j: int| 0 <= j < i ==> (#[trigger] out@[j])@ == tool_spec(descriptors@[j]@),
        decreases descriptors.len() - i,
    {
        let d = &descriptors[i];
        out.push(
            ToolSpec {
                id: d.id.clone(),
                description: d.display_name.clone(),
                input_schema: d.input_schema.clone(),
            },
        );
        i += 1;
    }
    assert(views(out@) =~= Seq::new(
        descriptors@.len(),
        |i: int| tool_spec(views(descriptors@)[i]),
    ));
    out
}

/// The request of a round.
fn build_request(messages: Vec<Message>, descriptors: &Vec<ToolDescriptor>, env: &TurnEnv) -> (r:
    InferenceRequest)
    ensures
        r@ == request_for(views(messages@), views(descriptors@), env@),
{
    let tools = if descriptors.len() == 0 {
        None
    } else {
        Some(tool_specs(descriptors))
    };
    InferenceRequest {
        request_id: env.fresh.third,
        messages,
        tools,
        max_tokens: None,
        temperature: None,
        streaming_hint: true,
        required_caps: CapabilitySet::none(),
        thinking: env.thinking,
    }
}

/// The blocks of a message that carries tool calls.
fn build_call_blocks(round: &Round) -> (r: Vec<ContentBlock>)
    ensures
        views(r@) == call_blocks(round@),
{
    let mut content: Vec<ContentBlock> = Vec::new();
    match &round.signature {
        Some(signature) => {
            content.push(
                ContentBlock::Thinking {
                    thinking: round.thinking.clone(),
                    signature: signature.clone(),
                },
            );
        },
        None => {},
    }
    if !round.text.as_str().is_empty() {
        content.push(ContentBlock::Text { text: round.text.clone() });
    }
    let ghost front = views(content@);
    let ghost calls = Seq::new(
        round@.calls.len(),
        |i: int|
            BlockView::ToolCall {
                call_id: round@.calls[i].call_id,
                tool_id: round@.calls[i].tool_id,
                args: parsed_args(round@.calls[i].args_raw),
            },
    );
    assert(front + calls =~= call_blocks(round@));
    let mut i: usize = 0;
    while i < round.calls.len()
        invariant
            i <= round.calls.len(),
            calls.len() == round.calls.len(),
            forall|j: int|
                0 <= j < calls.len() ==> calls[j] == (BlockView::ToolCall {
                    call_id: (#[trigger] round.calls@[j])@.call_id,
                    tool_id: round.calls@[j]@.tool_id,
                    args: parsed_args(round.calls@[j]@.args_raw),
                }),
            views(content@) == front + calls.take(i as int),
        decreases round.calls.len() - i,
    {
        let call = &round.calls[i];
        let ghost before = content@;
        content.push(
            ContentBlock::ToolCall {
                call_id: call.call_id.clone(),
                tool_id: call.tool_id.clone(),
                args: parse_args(call.args_raw.as_str()),
            },
        );
        assert(calls[i as int] == content@.last()@);
        assert(views(content@) =~= views(before).push(calls[i as int]));
        assert(views(content@) =~= front + calls.take(i + 1));
        i += 1;
    }
    assert(calls.take(calls.len() as int) =~= calls);
    content
}

impl TurnRunner {
    /// A turn that has not begun.
    pub fn new(
        conversation: Conversation,
        user_text: String,
        user_message_id: Uuid,
        mode: ComputeMode,
        trace_id: Uuid,
        device_id: Uuid,
    ) -> (r: TurnRunner)
        ensures
            r@.wf(),
            r@ == TurnView::idle(
                conversation@,
                user_text@,
                user_message_id,
                mode,
                trace_id,
                device_id,
            ),
    {
        let r = TurnRunner {
            conversation,
            user_text,
            user_message_id,
            mode,
            trace_id,
            device_id,
            phase: Phase::Idle,
            steps: 0,
            descriptors: Vec::new(),
            round: Round::new(),
            calls: Vec::new(),
            next_call: 0,
            message_id: user_message_id,
            approval: None,
            output: Json::Null,
        };
        assert(views(r.descriptors@) =~= Seq::empty());
        assert(views(r.calls@) =~= Seq::empty());
        r
    }

    /// Whether the turn is over.
    pub fn is_done(&self) -> (r: bool)
        ensures
            r == (self@.phase == Phase::Done),
    {
        self.phase == Phase::Done
    }

    fn finish(&mut self, env: &TurnEnv, reason: FinishReason, events: Vec<AgentEvent>) -> (r:
        TurnOutput)
        requires
            old(self)@.wf(),
        ensures
            final(self)@.wf(),
            (final(self)@, r@) == finish(old(self)@, env@, reason, views(events@)),
    {
        self.phase = Phase::Touching { reason };
        let mut conversation = self.conversation.clone();
        conversation.updated_at = env.fresh.at;
        TurnOutput { events, discard: None, action: TurnAction::Touch { conversation } }
    }

    fn fail(&mut self, env: &TurnEnv, e: ContractError) -> (r: TurnOutput)
        requires
            old(self)@.wf(),
        ensures
            final(self)@.wf(),
            (final(self)@, r@) == fail(old(self)@, env@, e@),
    {
        let events = one_event(AgentEvent::Error { message: e.to_text() });
        self.finish(env, FinishReason::Error, events)
    }

    fn begin_round(&mut self, env: &TurnEnv, events: Vec<AgentEvent>) -> (r: TurnOutput)
        requires
            old(self)@.wf(),
        ensures
            final(self)@.wf(),
            (final(self)@, r@) == begin_round(old(self)@, env@, views(events@)),
    {
        if self.steps >= MAX_TOOL_STEPS {
            let mut events = events;
            let ghost before = events@;
            events.push(
                AgentEvent::Error { message: "tool-step cap (8) reached; ending turn".to_owned() },
            );
            assert(views(events@) =~= views(before).push(
                AgentEventView::Error { message: cap_text() },
            ));
            self.finish(env, FinishReason::Error, events)
        } else {
            self.phase = Phase::Preparing;
            self.steps = self.steps + 1;
            let action = TurnAction::Prepare {
                mode: self.mode,
                query: self.user_text.clone(),
                space_id: self.conversation.space_id,
                conversation_id: self.conversation.id,
            };
            TurnOutput { events, discard: None, action }
        }
    }

    fn begin_generation(
        &mut self,
        env: &TurnEnv,
        descriptors: Vec<ToolDescriptor>,
        memories: Vec<MemoryRecord>,
        history: Vec<Message>,
    ) -> (r: TurnOutput)
        requires
            old(self)@.wf(),
        ensures
            final(self)@.wf(),
            (final(self)@, r@) == begin_generation(
                old(self)@,
                env@,
                views(descriptors@),
                views(memories@),
                views(history@),
            ),
    {
        let messages = assemble_context(
            &self.conversation,
            &memories,
            history,
            env.budget_chars,
            env.fresh.first,
            env.fresh.second,
            env.fresh.at,
        );
        let request = build_request(messages, &descriptors, env);
        self.phase = Phase::Generating;
        self.descriptors = descriptors;
        TurnOutput { events: no_events(), discard: None, action: TurnAction::Generate { request } }
    }

    fn end_round(&mut self, env: &TurnEnv, outcome: RoundOutcome, events: Vec<AgentEvent>) -> (r:
        TurnOutput)
        requires
            old(self)@.wf(),
        ensures
            final(self)@.wf(),
            (final(self)@, r@) == end_round(old(self)@, env@, outcome, views(events@)),
    {
        let reason = match outcome {
            RoundOutcome::ToolCalls => {
                let mut round = Round::new();
                core::mem::swap(&mut round, &mut self.round);
                let content = build_call_blocks(&round);
                let message = Message {
                    id: env.fresh.first,
                    conversation_id: self.conversation.id,
                    role: MessageRole::Assistant,
                    content,
                    model_id: Some(env.model_id.clone()),
                    mode: self.mode,
                    created_at: env.fresh.at,
                    sequence_num: 0,
                    approval_refs: Vec::new(),
                };
                assert(message@.approval_refs =~= Seq::empty());
                self.phase = Phase::SavingCalls;
                self.calls = round.calls;
                self.next_call = 0;
                self.message_id = env.fresh.first;
                return TurnOutput {
                    events,
                    discard: None,
                    action: TurnAction::Append { message },
                };
            },
            RoundOutcome::Finished(reason) => reason,
            RoundOutcome::Cancelled => FinishReason::Cancelled,
        };
        if self.round.text.as_str().is_empty() {
            self.finish(env, reason, events)
        } else {
            let mut message = Message::plain(
                env.fresh.first,
                env.fresh.at,
                self.conversation.id,
                MessageRole::Assistant,
                self.round.text.as_str(),
                self.mode,
                0,
            );
            message.model_id = Some(env.model_id.clone());
            self.phase = Phase::SavingText { reason };
            TurnOutput { events, discard: None, action: TurnAction::Append { message } }
        }
    }

    fn on_chunk(&mut self, env: &TurnEnv, chunk: InferenceChunk) -> (r: TurnOutput)
        requires
            old(self)@.wf(),
        ensures
            final(self)@.wf(),
            (final(self)@, r@) == on_chunk(old(self)@, env@, chunk@),
    {
        let ghost c = chunk@;
        let reason = chunk.finish_reason;
        let mode = chunk.active_mode;
        let events = self.round.add_chunk(self.mode, chunk);
        self.mode = mode;
        match reason {
            Some(reason) => {
                let outcome = self.round.outcome(reason);
                assert(round_outcome(self.round@, c) == Some(outcome));
                self.end_round(env, outcome, events)
            },
            None => TurnOutput { events, discard: None, action: TurnAction::NextChunk },
        }
    }

    fn settle(&mut self, env: &TurnEnv, outcome: AuditOutcome, output: Json, events: Vec<
        AgentEvent,
    >) -> (r: TurnOutput)
        requires
            old(self)@.wf(),
            old(self)@.next_call < old(self)@.calls.len(),
        ensures
            final(self)@.wf(),
            (final(self)@, r@) == settle(old(self)@, env@, outcome, output@, views(events@)),
    {
        let event = audit_tool_call(
            &self.calls[self.next_call],
            outcome,
            self.approval,
            self.conversation.id,
            self.device_id,
            self.trace_id,
            env.fresh.first,
            env.fresh.at,
        );
        self.phase = Phase::Auditing;
        self.output = output;
        TurnOutput { events, discard: None, action: TurnAction::Audit { event } }
    }

    fn invoke(&mut self, env: &TurnEnv) -> (r: TurnOutput)
        requires
            old(self)@.wf(),
            old(self)@.next_call < old(self)@.calls.len(),
        ensures
            final(self)@.wf(),
            (final(self)@, r@) == invoke(old(self)@, env@),
    {
        let call = &self.calls[self.next_call];
        let invocation = ToolInvocation {
            invocation_id: env.fresh.first,
            tool_id: call.tool_id.clone(),
            args: parse_args(call.args_raw.as_str()),
            session_id: self.conversation.id,
            conversation_id: self.conversation.id,
            message_id: self.message_id,
            compute_mode: self.mode,
            trace_id: self.trace_id,
            stream: true,
        };
        self.phase = Phase::Invoking;
        self.output = Json::Null;
        TurnOutput { events: no_events(), discard: None, action: TurnAction::Invoke { invocation } }
    }

    fn begin_call(&mut self, env: &TurnEnv, cancelled: bool) -> (r: TurnOutput)
        requires
            old(self)@.steps <= MAX_TOOL_STEPS,
            old(self)@.next_call <= old(self)@.calls.len(),
        ensures
            final(self)@.wf(),
            (final(self)@, r@) == begin_call(old(self)@, env@, cancelled),
    {
        self.phase = Phase::Idle;
        if self.next_call >= self.calls.len() {
            return self.begin_round(env, no_events());
        }
        if cancelled {
            return self.finish(env, FinishReason::Cancelled, no_events());
        }
        match find_tool(&self.descriptors, self.calls[self.next_call].tool_id.as_str()) {
            None => {
                let message = build_unknown_tool_text(self.calls[self.next_call].tool_id.as_str());
                let output = build_error_output(message.as_str());
                self.approval = None;
                self.settle(
                    env,
                    AuditOutcome::Denied,
                    output,
                    one_event(AgentEvent::Error { message }),
                )
            },
            Some(i) => {
                if self.descriptors[i].requires_approval {
                    let summary = build_approval_summary(
                        &self.descriptors[i],
                        self.calls[self.next_call].args_raw.as_str(),
                    );
                    let approval_id = env.fresh.first;
                    self.phase = Phase::AwaitingApproval;
                    self.approval = Some(approval_id);
                    TurnOutput {
                        events: one_event(AgentEvent::ApprovalRequired { approval_id, summary }),
                        discard: None,
                        action: TurnAction::AwaitApproval { approval_id },
                    }
                } else {
                    self.approval = None;
                    self.invoke(env)
                }
            },
        }
    }

    fn on_tool_event(&mut self, env: &TurnEnv, event: ToolEvent) -> (r: TurnOutput)
        requires
            old(self)@.wf(),
        ensures
            final(self)@.wf(),
            (final(self)@, r@) == on_tool_event(old(self)@, env@, event@),
    {
        let cancelled = match &event {
            ToolEvent::Cancelled => true,
            _ => false,
        };
        match &event {
            ToolEvent::Result { output, .. } => {
                self.output = output.clone();
            },
            ToolEvent::Error { message, .. } => {
                self.output = build_error_output(message.as_str());
            },
            _ => {},
        }
        let events = one_event(AgentEvent::Tool { event });
        if cancelled {
            self.finish(env, FinishReason::Cancelled, events)
        } else {
            TurnOutput { events, discard: None, action: TurnAction::NextToolEvent }
        }
    }

    fn on_tool_failure(&mut self, env: &TurnEnv, e: ContractError) -> (r: TurnOutput)
        requires
            old(self)@.wf(),
            old(self)@.next_call < old(self)@.calls.len(),
        ensures
            final(self)@.wf(),
            (final(self)@, r@) == on_tool_failure(old(self)@, env@, e@),
    {
        let message = e.to_text();
        let output = build_error_output(message.as_str());
        self.settle(env, AuditOutcome::Allowed, output, one_event(AgentEvent::Error { message }))
    }

    fn save_result(&mut self, env: &TurnEnv) -> (r: TurnOutput)
        requires
            old(self)@.wf(),
            old(self)@.next_call < old(self)@.calls.len(),
        ensures
            final(self)@.wf(),
            (final(self)@, r@) == save_result(old(self)@, env@),
    {
        let mut output = Json::Null;
        core::mem::swap(&mut output, &mut self.output);
        let message = tool_result_message(
            self.calls[self.next_call].call_id.as_str(),
            output,
            self.approval,
            env.vision,
            self.conversation.id,
            self.mode,
            env.fresh.first,
            env.fresh.at,
        );
        self.phase = Phase::SavingResult;
        TurnOutput { events: no_events(), discard: None, action: TurnAction::Append { message } }
    }

    fn on_stored(&mut self, env: &TurnEnv, result: Result<(), ContractError>, cancelled: bool) -> (r:
        TurnOutput)
        requires
            old(self)@.wf(),
        ensures
            final(self)@.wf(),
            (final(self)@, r@) == on_stored(old(self)@, env@, unit_outcome(result), cancelled),
    {
        match self.phase {
            Phase::Touching { reason } => {
                self.phase = Phase::Done;
                TurnOutput {
                    events: one_event(AgentEvent::TurnFinished { reason }),
                    discard: None,
                    action: TurnAction::Finished,
                }
            },
            Phase::SavingText { reason } => match result {
                Ok(_) => self.finish(env, reason, no_events()),
                Err(e) => self.fail(env, e),
            },
            Phase::SavingCalls => match result {
                Ok(_) => self.begin_call(env, cancelled),
                Err(e) => self.fail(env, e),
            },
            Phase::Auditing => match result {
                Ok(_) => self.save_result(env),
                Err(e) => self.fail(env, e),
            },
            Phase::SavingResult => match result {
                Ok(_) => {
                    assert(self.next_call < self.calls.len());
                    self.next_call = self.next_call + 1;
                    self.begin_call(env, cancelled)
                },
                Err(e) => self.fail(env, e),
            },
            _ => TurnOutput { events: no_events(), discard: None, action: TurnAction::Wait },
        }
    }

    /// Takes an input and yields what comes next, with the given surroundings.
    pub fn step_with(&mut self, env: &TurnEnv, input: TurnInput) -> (r: TurnOutput)
        requires
            old(self)@.wf(),
        ensures
            final(self)@.wf(),
            (final(self)@, r@) == step_spec(old(self)@, env@, input@),
    {
        let phase = self.phase;
        match (phase, input) {
            (Phase::Idle, TurnInput::Start) => {
                let events = one_event(
                    AgentEvent::TurnStarted {
                        conversation_id: self.conversation.id,
                        message_id: self.user_message_id,
                        mode: self.mode,
                    },
                );
                self.begin_round(env, events)
            },
            (Phase::Preparing, TurnInput::Prepared { descriptors, context }) => match context {
                Ok((memories, history)) => self.begin_generation(
                    env,
                    descriptors,
                    memories,
                    history,
                ),
                Err(e) => self.fail(env, e),
            },
            (Phase::Generating, TurnInput::Generated { result }) => match result {
                Ok(_) => {
                    self.phase = Phase::Streaming;
                    self.round = Round::new();
                    TurnOutput {
                        events: no_events(),
                        discard: None,
                        action: TurnAction::NextChunk,
                    }
                },
                Err(e) => self.fail(env, e),
            },
            (Phase::Streaming, TurnInput::Chunk { item }) => match item {
                Some(Ok(chunk)) => self.on_chunk(env, chunk),
                Some(Err(e)) => self.fail(env, e),
                None => self.end_round(
                    env,
                    RoundOutcome::Finished(FinishReason::Stop),
                    no_events(),
                ),
            },
            (Phase::Streaming, TurnInput::Cancelled) => self.end_round(
                env,
                RoundOutcome::Cancelled,
                no_events(),
            ),
            (Phase::AwaitingApproval, TurnInput::Decision { approved }) => {
                if approved {
                    self.invoke(env)
                } else {
                    self.settle(env, AuditOutcome::Denied, build_denied_output(), no_events())
                }
            },
            (Phase::AwaitingApproval, TurnInput::Cancelled) => {
                let approval = self.approval;
                let out = self.finish(env, FinishReason::Cancelled, no_events());
                TurnOutput { events: out.events, discard: approval, action: out.action }
            },
            (Phase::Invoking, TurnInput::Invoked { result }) => match result {
                Ok(_) => {
                    self.phase = Phase::Running;
                    TurnOutput {
                        events: no_events(),
                        discard: None,
                        action: TurnAction::NextToolEvent,
                    }
                },
                Err(e) => self.on_tool_failure(env, e),
            },
            (Phase::Running, TurnInput::ToolItem { event }) => match event {
                Some(Ok(event)) => self.on_tool_event(env, event),
                Some(Err(e)) => self.on_tool_failure(env, e),
                None => {
                    let mut output = Json::Null;
                    core::mem::swap(&mut output, &mut self.output);
                    self.settle(env, AuditOutcome::Allowed, output, no_events())
                },
            },
            (Phase::Running, TurnInput::Cancelled) => self.finish(
                env,
                FinishReason::Cancelled,
                no_events(),
            ),
            (_, TurnInput::Stored { result, cancelled }) => self.on_stored(env, result, cancelled),
            _ => TurnOutput { events: no_events(), discard: None, action: TurnAction::Wait },
        }
    }
}

/// A tool runs only if it needs no approval, or right after the user approved
/// the call.
pub proof fn law_tools_run_only_with_approval(t: TurnView, env: EnvView, input: InputView)
    requires
        t.wf(),
        step_spec(t, env, input).1.action is Invoke,
    ensures
        ({
            let after = step_spec(t, env, input).0;
            ||| t.phase == Phase::AwaitingApproval && input == (InputView::Decision {
                approved: true,
            })
            ||| tool_position(after.descriptors, after.call().tool_id, 0) matches Some(i)
                && !after.descriptors[i].requires_approval
        }),
{
}

/// A denied call is recorded as denied and answered with the denial; its tool
/// does not run.
pub proof fn law_denied_call_does_not_run(t: TurnView, env: EnvView)
    requires
        t.wf(),
        t.phase == Phase::AwaitingApproval,
    ensures
        ({
            let (after, out) = step_spec(t, env, InputView::Decision { approved: false });
            &&& out.action matches ActionView::Audit { event } && event.outcome
                == AuditOutcome::Denied
            &&& after.phase == Phase::Auditing
            &&& after.output == denied_output()
            &&& after.approval == t.approval
        }),
{
}

/// Every tool result that is stored was recorded in the audit log just before,
/// and answers the call at hand.
pub proof fn law_every_result_is_audited(t: TurnView, env: EnvView, input: InputView)
    requires
        t.wf(),
    ensures
        ({
            let (after, out) = step_spec(t, env, input);
            &&& (out.action matches ActionView::Append { message } && message.role
                == MessageRole::Tool) ==> t.phase == Phase::Auditing && (
            out.action matches ActionView::Append { message } && message.content[0] matches
                BlockView::ToolResult { call_id, output } && call_id == t.call().call_id)
            &&& (after.phase == Phase::Auditing && t.phase != Phase::Auditing) ==> out.action
                is Audit
            &&& (out.action is Audit) ==> after.phase == Phase::Auditing
        }),
{
}

/// A turn is over exactly once, with one event that says why; nothing follows.
pub proof fn law_turn_ends_once(t: TurnView, env: EnvView, input: InputView)
    requires
        t.wf(),
    ensures
        ({
            let (after, out) = step_spec(t, env, input);
            &&& (after.phase == Phase::Done && t.phase != Phase::Done) ==> (
            t.phase matches Phase::Touching { reason } && out.events =~= seq![
                AgentEventView::TurnFinished { reason },
            ])
            &&& (after.phase != Phase::Done) ==> forall|i: int|
                0 <= i < out.events.len() ==> !(#[trigger] out.events[i] is TurnFinished)
            &&& t.phase == Phase::Done ==> after == t && out.events.len() == 0
        }),
{
    let (after, out) = step_spec(t, env, input);
    match input {
        InputView::Chunk { item: Some(Ok(c)) } => {
            let events = chunk_events(t.mode, c);
            assert(forall|i: int|
                0 <= i < events.len() ==> !(#[trigger] events[i] is TurnFinished));
        },
        _ => {},
    }
}

/// The number of rounds never exceeds the cap, and each round counts.
#[verifier::rlimit(60)]
#[verifier::spinoff_prover]
pub proof fn law_rounds_are_capped(t: TurnView, env: EnvView, input: InputView)
    requires
        t.wf(),
    ensures
        ({
            let (after, out) = step_spec(t, env, input);
            &&& after.wf()
            &&& after.steps == t.steps + (if out.action is Prepare {
                1nat
            } else {
                0nat
            })
        }),
{
    let (after, out) = step_spec(t, env, input);
    match input {
        InputView::Stored { result, cancelled } => {
            let (after_stored, out_stored) = on_stored(t, env, result, cancelled);
            assert(after_stored.wf());
        },
        InputView::Chunk { item: Some(Ok(c)) } => {
            assert(on_chunk(t, env, c).0.steps == t.steps);
        },
        _ => {},
    }
}

/// Cancelling a turn that waits for a chunk, a decision or a tool ends it as
/// cancelled, once the text so far is stored; a pending approval is dropped.
pub proof fn law_cancellation_ends_the_turn(t: TurnView, env: EnvView)
    requires
        t.wf(),
        t.phase == Phase::Streaming || t.phase == Phase::AwaitingApproval || t.phase
            == Phase::Running,
    ensures
        ({
            let (after, out) = step_spec(t, env, InputView::Cancelled);
            &&& after.phase == (Phase::Touching { reason: FinishReason::Cancelled })
                || after.phase == (Phase::SavingText { reason: FinishReason::Cancelled })
            &&& t.phase == Phase::AwaitingApproval ==> out.discard == t.approval
        }),
{
}

/// The final text that is stored is what the round streamed.
pub proof fn law_streamed_text_is_stored(t: TurnView, env: EnvView, input: InputView)
    requires
        t.wf(),
        t.phase == Phase::Streaming,
        step_spec(t, env, input).0.phase is SavingText,
    ensures
        step_spec(t, env, input).1.action matches ActionView::Append { message }
            && message.text_content() == step_spec(t, env, input).0.round.text && message.role
            == MessageRole::Assistant,
{
    let text = step_spec(t, env, input).0.round.text;
    let blocks = seq![BlockView::Text { text }];
    reveal_with_fuel(pick, 2);
    reveal_with_fuel(concat_all, 2);
    assert(blocks.drop_last() =~= Seq::empty());
    let f = |b: BlockView| block_text(b);
    assert(pick(blocks, f) =~= seq![text]);
    assert(seq![text].drop_last() =~= Seq::empty());
    assert(concat_all(seq![text]) =~= text);
}

impl TurnRunner {
    /// Takes an input and yields what comes next. New records get fresh
    /// identifiers and the current time.
    pub fn step(
        &mut self,
        model_id: &str,
        vision: bool,
        budget_chars: usize,
        thinking: Option<ThinkingConfig>,
        input: TurnInput,
    ) -> (r: TurnOutput)
        requires
            old(self)@.wf(),
        ensures
            final(self)@.wf(),
            exists|fresh: Fresh|
                fresh.drawn() && (final(self)@, r@) == #[trigger] step_spec(
                    old(self)@,
                    EnvView { model_id: model_id@, vision, budget_chars, thinking, fresh },
                    input@,
                ),
    {
        let env = TurnEnv {
            model_id: model_id.to_owned(),
            vision,
            budget_chars,
            thinking,
            fresh: Fresh::draw(),
        };
        self.step_with(&env, input)
    }
}

} // verus!
