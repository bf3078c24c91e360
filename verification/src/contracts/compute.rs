//! Inference requests and the chunks that answer them.

use crate::contracts::data::{Message, MessageView};
use crate::contracts::types::{CapabilitySet, ComputeMode};
use crate::ident::{is_v4, Uuid};
use crate::json::{Json, JsonView};
use crate::model::{opt, views};
use vstd::prelude::*;

verus! {

/// How much extended reasoning a request asks for.
#[derive(Clone, Copy, Debug, PartialEq, Eq, Structural)]
pub struct ThinkingConfig {
    pub budget_tokens: u32,
}

/// A budget from which the reasoning effort counts as medium.
pub const MEDIUM_EFFORT_TOKENS: u32 = 4096;

/// A budget from which the reasoning effort counts as high.
pub const HIGH_EFFORT_TOKENS: u32 = 16000;

impl ThinkingConfig {
    /// Reasoning with the given token budget.
    pub fn with_budget(budget_tokens: u32) -> (r: ThinkingConfig)
        ensures
            r.budget_tokens == budget_tokens,
    {
        ThinkingConfig { budget_tokens }
    }

    /// The effort level that the budget stands for.
    pub open spec fn effort(self) -> Seq<char> {
        if self.budget_tokens < MEDIUM_EFFORT_TOKENS {
            "low"@
        } else if self.budget_tokens < HIGH_EFFORT_TOKENS {
            "medium"@
        } else {
            "high"@
        }
    }

    /// The effort level that the budget stands for.
    pub fn reasoning_effort(&self) -> (r: &'static str)
        ensures
            r@ == self.effort(),
    {
        if self.budget_tokens < MEDIUM_EFFORT_TOKENS {
            "low"
        } else if self.budget_tokens < HIGH_EFFORT_TOKENS {
            "medium"
        } else {
            "high"
        }
    }
}

/// A single inference request, whatever the mode.
#[derive(Debug)]
pub struct InferenceRequest {
    pub request_id: Uuid,
    pub messages: Vec<Message>,
    pub tools: Option<Vec<ToolSpec>>,
    pub max_tokens: Option<u32>,
    /// The sampling temperature, as the number that goes on the wire.
    pub temperature: Option<serde_json::Number>,
    pub streaming_hint: bool,
    pub required_caps: CapabilitySet,
    /// Extended reasoning, where it is asked for.
    pub thinking: Option<ThinkingConfig>,
}

/// [`InferenceRequest`] as a mathematical value.
pub struct RequestView {
    pub request_id: Uuid,
    pub messages: Seq<MessageView>,
    pub tools: Option<Seq<ToolSpecView>>,
    pub max_tokens: Option<u32>,
    pub temperature: Option<serde_json::Number>,
    pub streaming_hint: bool,
    pub required_caps: CapabilitySet,
    pub thinking: Option<ThinkingConfig>,
}

/// The views of an optional list of tools.
pub open spec fn tools_view(o: Option<Vec<ToolSpec>>) -> Option<Seq<ToolSpecView>> {
    match o {
        Some(v) => Some(views(v@)),
        None => None,
    }
}

impl View for InferenceRequest {
    type V = RequestView;

    open spec fn view(&self) -> RequestView {
        RequestView {
            request_id: self.request_id,
            messages: views(self.messages@),
            tools: tools_view(self.tools),
            max_tokens: self.max_tokens,
            temperature: self.temperature,
            streaming_hint: self.streaming_hint,
            required_caps: self.required_caps,
            thinking: self.thinking,
        }
    }
}

impl RequestView {
    /// A minimal text-only request.
    pub open spec fn minimal(request_id: Uuid, messages: Seq<MessageView>) -> RequestView {
        RequestView {
            request_id,
            messages,
            tools: None,
            max_tokens: None,
            temperature: None,
            streaming_hint: true,
            required_caps: CapabilitySet::none_spec(),
            thinking: None,
        }
    }
}

impl InferenceRequest {
    /// A minimal text-only request for a list of messages, under a fresh identifier.
    pub fn from_messages(messages: Vec<Message>) -> (r: InferenceRequest)
        ensures
            r@ == RequestView::minimal(r@.request_id, views(messages@)),
            is_v4(r@.request_id.0),
    {
        InferenceRequest {
            request_id: Uuid::new_v4(),
            messages,
            tools: None,
            max_tokens: None,
            temperature: None,
            streaming_hint: true,
            required_caps: CapabilitySet::none(),
            thinking: None,
        }
    }
}

/// A tool definition handed to a provider.
#[derive(Debug)]
pub struct ToolSpec {
    pub id: String,
    pub description: String,
    pub input_schema: Json,
}

/// [`ToolSpec`] as a mathematical value.
pub struct ToolSpecView {
    pub id: Seq<char>,
    pub description: Seq<char>,
    pub input_schema: JsonView,
}

impl View for ToolSpec {
    type V = ToolSpecView;

    open spec fn view(&self) -> ToolSpecView {
        ToolSpecView {
            id: self.id@,
            description: self.description@,
            input_schema: self.input_schema@,
        }
    }
}

/// An increment of a reasoning block: text, or the signature that closes it.
#[derive(Debug)]
pub struct ThinkingDelta {
    pub text: String,
    pub signature: Option<String>,
}

/// [`ThinkingDelta`] as a mathematical value.
pub struct ThinkingDeltaView {
    pub text: Seq<char>,
    pub signature: Option<Seq<char>>,
}

impl View for ThinkingDelta {
    type V = ThinkingDeltaView;

    open spec fn view(&self) -> ThinkingDeltaView {
        ThinkingDeltaView { text: self.text@, signature: opt(self.signature) }
    }
}

/// An increment of a tool call; `args_delta` accumulates until the chunk that finishes.
#[derive(Debug)]
pub struct ToolCallDelta {
    pub call_id: String,
    pub tool_id: String,
    pub args_delta: String,
}

/// [`ToolCallDelta`] as a mathematical value.
pub struct ToolCallDeltaView {
    pub call_id: Seq<char>,
    pub tool_id: Seq<char>,
    pub args_delta: Seq<char>,
}

impl View for ToolCallDelta {
    type V = ToolCallDeltaView;

    open spec fn view(&self) -> ToolCallDeltaView {
        ToolCallDeltaView {
            call_id: self.call_id@,
            tool_id: self.tool_id@,
            args_delta: self.args_delta@,
        }
    }
}

/// Why a generation stream ended.
#[derive(Clone, Copy, Debug, PartialEq, Eq, Structural)]
pub enum FinishReason {
    Stop,
    ToolCall,
    MaxTokens,
    Cancelled,
    Error,
}

/// One streamed unit of model output.
#[derive(Debug)]
pub struct InferenceChunk {
    pub delta: Option<String>,
    pub tool_call_delta: Option<ToolCallDelta>,
    pub thinking_delta: Option<ThinkingDelta>,
    pub finish_reason: Option<FinishReason>,
    /// On every chunk, so that the surface always knows the active mode.
    pub active_mode: ComputeMode,
    pub latency_hint_ms: Option<u32>,
}

/// [`InferenceChunk`] as a mathematical value.
pub struct ChunkView {
    pub delta: Option<Seq<char>>,
    pub tool_call_delta: Option<ToolCallDeltaView>,
    pub thinking_delta: Option<ThinkingDeltaView>,
    pub finish_reason: Option<FinishReason>,
    pub active_mode: ComputeMode,
    pub latency_hint_ms: Option<u32>,
}

impl View for InferenceChunk {
    type V = ChunkView;

    open spec fn view(&self) -> ChunkView {
        ChunkView {
            delta: opt(self.delta),
            tool_call_delta: opt(self.tool_call_delta),
            thinking_delta: opt(self.thinking_delta),
            finish_reason: self.finish_reason,
            active_mode: self.active_mode,
            latency_hint_ms: self.latency_hint_ms,
        }
    }
}

impl ChunkView {
    /// A chunk that carries nothing but the mode.
    pub open spec fn blank(mode: ComputeMode) -> ChunkView {
        ChunkView {
            delta: None,
            tool_call_delta: None,
            thinking_delta: None,
            finish_reason: None,
            active_mode: mode,
            latency_hint_ms: None,
        }
    }

    /// A text chunk.
    pub open spec fn text(delta: Seq<char>, mode: ComputeMode) -> ChunkView {
        ChunkView { delta: Some(delta), ..ChunkView::blank(mode) }
    }

    /// A tool-call chunk.
    pub open spec fn tool_call(delta: ToolCallDeltaView, mode: ComputeMode) -> ChunkView {
        ChunkView { tool_call_delta: Some(delta), ..ChunkView::blank(mode) }
    }

    /// A reasoning chunk.
    pub open spec fn thinking(delta: ThinkingDeltaView, mode: ComputeMode) -> ChunkView {
        ChunkView { thinking_delta: Some(delta), ..ChunkView::blank(mode) }
    }

    /// A chunk that ends the stream.
    pub open spec fn finish(reason: FinishReason, mode: ComputeMode) -> ChunkView {
        ChunkView { finish_reason: Some(reason), ..ChunkView::blank(mode) }
    }
}

impl InferenceChunk {
    /// A text chunk.
    pub fn text(delta: &str, mode: ComputeMode) -> (r: InferenceChunk)
        ensures
            r@ == ChunkView::text(delta@, mode),
    {
        InferenceChunk {
            delta: Some(delta.to_owned()),
            tool_call_delta: None,
            thinking_delta: None,
            finish_reason: None,
            active_mode: mode,
            latency_hint_ms: None,
        }
    }

    /// A tool-call chunk.
    pub fn tool_call(delta: ToolCallDelta, mode: ComputeMode) -> (r: InferenceChunk)
        ensures
            r@ == ChunkView::tool_call(delta@, mode),
    {
        InferenceChunk {
            delta: None,
            tool_call_delta: Some(delta),
            thinking_delta: None,
            finish_reason: None,
            active_mode: mode,
            latency_hint_ms: None,
        }
    }

    /// A reasoning chunk.
    pub fn thinking(delta: ThinkingDelta, mode: ComputeMode) -> (r: InferenceChunk)
        ensures
            r@ == ChunkView::thinking(delta@, mode),
    {
        InferenceChunk {
            delta: None,
            tool_call_delta: None,
            thinking_delta: Some(delta),
            finish_reason: None,
            active_mode: mode,
            latency_hint_ms: None,
        }
    }

    /// A terminal chunk carrying a finish reason.
    pub fn finish(reason: FinishReason, mode: ComputeMode) -> (r: InferenceChunk)
        ensures
            r@ == ChunkView::finish(reason, mode),
    {
        InferenceChunk {
            delta: None,
            tool_call_delta: None,
            thinking_delta: None,
            finish_reason: Some(reason),
            active_mode: mode,
            latency_hint_ms: None,
        }
    }
}

/// The result of probing whether a provider can serve a request.
#[derive(Clone, Copy, Debug, PartialEq, Eq, Structural)]
pub struct CanHandleResult {
    pub capable: bool,
    pub missing_caps: CapabilitySet,
    pub escalation_hint: Option<ComputeMode>,
}

impl CanHandleResult {
    /// Fully capable.
    pub open spec fn yes() -> CanHandleResult {
        CanHandleResult {
            capable: true,
            missing_caps: CapabilitySet::none_spec(),
            escalation_hint: None,
        }
    }

    /// What an offer of capabilities means for a requirement, with a hint on
    /// where to go where it falls short.
    pub open spec fn against_spec(
        required: CapabilitySet,
        offered: CapabilitySet,
        hint: Option<ComputeMode>,
    ) -> CanHandleResult {
        if required.satisfied_spec(offered) {
            CanHandleResult::yes()
        } else {
            CanHandleResult {
                capable: false,
                missing_caps: required.missing_spec(offered),
                escalation_hint: hint,
            }
        }
    }

    /// Fully capable.
    pub fn capable() -> (r: CanHandleResult)
        ensures
            r == CanHandleResult::yes(),
    {
        CanHandleResult { capable: true, missing_caps: CapabilitySet::none(), escalation_hint: None }
    }

    /// What an offer of capabilities means for a requirement, with a hint on
    /// where to go where it falls short.
    pub fn against(
        required: &CapabilitySet,
        offered: &CapabilitySet,
        hint: Option<ComputeMode>,
    ) -> (r: CanHandleResult)
        ensures
            r == CanHandleResult::against_spec(*required, *offered, hint),
    {
        if required.satisfied_by(offered) {
            CanHandleResult::capable()
        } else {
            CanHandleResult {
                capable: false,
                missing_caps: required.missing_from(offered),
                escalation_hint: hint,
            }
        }
    }
}

/// An offer serves a requirement just where nothing is missing; where something is, the
/// answer tells what, and where to go.
pub proof fn law_offer_decides(
    required: CapabilitySet,
    offered: CapabilitySet,
    hint: Option<ComputeMode>,
)
    ensures
        ({
            let r = CanHandleResult::against_spec(required, offered, hint);
            let lacks = |a: bool, b: bool| a && !b;
            &&& r.capable <==> !lacks(required.vision, offered.vision) && !lacks(
                required.tool_calling,
                offered.tool_calling,
            ) && !lacks(required.code_gen, offered.code_gen) && !lacks(
                required.thinking,
                offered.thinking,
            ) && required.min_context_window <= offered.min_context_window
            &&& !r.capable ==> r.escalation_hint == hint && r.missing_caps.vision == lacks(
                required.vision,
                offered.vision,
            ) && r.missing_caps.tool_calling == lacks(required.tool_calling, offered.tool_calling)
                && r.missing_caps.code_gen == lacks(required.code_gen, offered.code_gen)
                && r.missing_caps.thinking == lacks(required.thinking, offered.thinking)
            &&& r.capable ==> r.escalation_hint is None
        }),
{
}

} // verus!
