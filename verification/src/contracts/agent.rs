//! Events of an agent turn.

use crate::contracts::compute::FinishReason;
use crate::contracts::tooling::{ToolEvent, ToolEventView};
use crate::contracts::types::ComputeMode;
use crate::ident::Uuid;
use vstd::prelude::*;

verus! {

/// A single event in an agent turn, streamed to the surface.
#[derive(Debug)]
pub enum AgentEvent {
    /// A turn has begun.
    TurnStarted { conversation_id: Uuid, message_id: Uuid, mode: ComputeMode },
    /// A chunk of assistant text.
    TextDelta { text: String },
    /// A tool produced an event.
    Tool { event: ToolEvent },
    /// The active compute mode changed mid-turn.
    ModeHandoff { from: ComputeMode, to: ComputeMode },
    /// An approval is required before continuing.
    ApprovalRequired { approval_id: Uuid, summary: String },
    /// The turn finished.
    TurnFinished { reason: FinishReason },
    /// A non-fatal error occurred.
    Error { message: String },
}

/// [`AgentEvent`] as a mathematical value.
pub enum AgentEventView {
    TurnStarted { conversation_id: Uuid, message_id: Uuid, mode: ComputeMode },
    TextDelta { text: Seq<char> },
    Tool { event: ToolEventView },
    ModeHandoff { from: ComputeMode, to: ComputeMode },
    ApprovalRequired { approval_id: Uuid, summary: Seq<char> },
    TurnFinished { reason: FinishReason },
    Error { message: Seq<char> },
}

impl View for AgentEvent {
    type V = AgentEventView;

    open spec fn view(&self) -> AgentEventView {
        match self {
            AgentEvent::TurnStarted { conversation_id, message_id, mode } =>
                AgentEventView::TurnStarted {
                conversation_id: *conversation_id,
                message_id: *message_id,
                mode: *mode,
            },
            AgentEvent::TextDelta { text } => AgentEventView::TextDelta { text: text@ },
            AgentEvent::Tool { event } => AgentEventView::Tool { event: event@ },
            AgentEvent::ModeHandoff { from, to } => AgentEventView::ModeHandoff {
                from: *from,
                to: *to,
            },
            AgentEvent::ApprovalRequired { approval_id, summary } =>
                AgentEventView::ApprovalRequired { approval_id: *approval_id, summary: summary@ },
            AgentEvent::TurnFinished { reason } => AgentEventView::TurnFinished { reason: *reason },
            AgentEvent::Error { message } => AgentEventView::Error { message: message@ },
        }
    }
}

} // verus!
