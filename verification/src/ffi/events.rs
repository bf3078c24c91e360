//! The events of a turn, flattened for the app.

use crate::contracts::agent::{AgentEvent, AgentEventView};
use crate::contracts::compute::FinishReason;
use crate::contracts::error::{ContractError, ContractErrorView};
use crate::contracts::tooling::{ToolEvent, ToolEventView};
use crate::json::{json_text, Json, JsonView};
use crate::model::{opt, outcome};
use crate::text::stands_at;
use vstd::prelude::*;

verus! {

/// One streamed event, flattened.
#[derive(Debug)]
pub enum AgentEventFfi {
    TurnStarted { conversation_id: String, message_id: String },
    TextDelta { text: String },
    ToolProgress { text: String },
    ToolResult { output: String },
    ToolError { message: String },
    ApprovalRequired { approval_id: String, summary: String },
    TurnFinished { reason: String },
    Error { message: String },
}

/// [`AgentEventFfi`] as a mathematical value.
pub enum FlatView {
    TurnStarted { conversation_id: Seq<char>, message_id: Seq<char> },
    TextDelta { text: Seq<char> },
    ToolProgress { text: Seq<char> },
    ToolResult { output: Seq<char> },
    ToolError { message: Seq<char> },
    ApprovalRequired { approval_id: Seq<char>, summary: Seq<char> },
    TurnFinished { reason: Seq<char> },
    Error { message: Seq<char> },
}

impl View for AgentEventFfi {
    type V = FlatView;

    open spec fn view(&self) -> FlatView {
        match self {
            AgentEventFfi::TurnStarted { conversation_id, message_id } => FlatView::TurnStarted {
                conversation_id: conversation_id@,
                message_id: message_id@,
            },
            AgentEventFfi::TextDelta { text } => FlatView::TextDelta { text: text@ },
            AgentEventFfi::ToolProgress { text } => FlatView::ToolProgress { text: text@ },
            AgentEventFfi::ToolResult { output } => FlatView::ToolResult { output: output@ },
            AgentEventFfi::ToolError { message } => FlatView::ToolError { message: message@ },
            AgentEventFfi::ApprovalRequired { approval_id, summary } =>
                FlatView::ApprovalRequired { approval_id: approval_id@, summary: summary@ },
            AgentEventFfi::TurnFinished { reason } => FlatView::TurnFinished { reason: reason@ },
            AgentEventFfi::Error { message } => FlatView::Error { message: message@ },
        }
    }
}

/// The name of a reason to finish.
pub open spec fn reason_name(reason: FinishReason) -> Seq<char> {
    match reason {
        FinishReason::Stop => "Stop"@,
        FinishReason::ToolCall => "ToolCall"@,
        FinishReason::MaxTokens => "MaxTokens"@,
        FinishReason::Cancelled => "Cancelled"@,
        FinishReason::Error => "Error"@,
    }
}

fn reason_text(reason: &FinishReason) -> (r: String)
    ensures
        r@ == reason_name(*reason),
{
    match reason {
        FinishReason::Stop => "Stop".to_owned(),
        FinishReason::ToolCall => "ToolCall".to_owned(),
        FinishReason::MaxTokens => "MaxTokens".to_owned(),
        FinishReason::Cancelled => "Cancelled".to_owned(),
        FinishReason::Error => "Error".to_owned(),
    }
}

/// What is shown of a tool's output: a text as it is, the text under `content`
/// where there is one, and otherwise the JSON.
pub open spec fn shown_output(output: JsonView) -> Seq<char> {
    match output {
        JsonView::Str(s) => s,
        JsonView::Object(_) => match output.at("content"@) {
            JsonView::Str(s) => s,
            _ => json_text(output),
        },
        _ => json_text(output),
    }
}

/// What is shown of a tool's output.
pub fn render_tool_output(output: &Json) -> (r: String)
    ensures
        r@ == shown_output(output@),
{
    match output {
        Json::Str(s) => s.clone(),
        Json::Object(_) => match output.at("content") {
            Json::Str(s) => s.clone(),
            _ => output.to_text(),
        },
        _ => output.to_text(),
    }
}

/// What is shown of a source: its title, where it has one, and its address.
pub open spec fn citation_text(title: Option<Seq<char>>, url: Seq<char>) -> Seq<char> {
    match title {
        Some(t) => t + " \u{2014} "@ + url,
        None => url,
    }
}

/// What a tool's event flattens to.
pub open spec fn flat_tool(event: ToolEventView) -> FlatView {
    match event {
        ToolEventView::Result { output, .. } => FlatView::ToolResult {
            output: shown_output(output),
        },
        ToolEventView::Error { message, .. } => FlatView::ToolError { message },
        ToolEventView::Chunk { data } => FlatView::ToolProgress { text: data },
        ToolEventView::Citation { url, title, .. } => FlatView::ToolProgress {
            text: citation_text(title, url),
        },
        ToolEventView::ApprovalRequired { summary, .. } => FlatView::ToolProgress {
            text: summary,
        },
        ToolEventView::Cancelled => FlatView::ToolProgress { text: "cancelled"@ },
    }
}

/// What an event, or an error of the stream, flattens to: nothing where the app
/// shows nothing of it.
pub open spec fn flat_event(item: Result<AgentEventView, ContractErrorView>) -> Option<FlatView> {
    match item {
        Err(e) => Some(FlatView::Error { message: e.message() }),
        Ok(AgentEventView::TurnStarted { conversation_id, message_id, .. }) => Some(
            FlatView::TurnStarted {
                conversation_id: conversation_id.text(),
                message_id: message_id.text(),
            },
        ),
        Ok(AgentEventView::TextDelta { text }) => Some(FlatView::TextDelta { text }),
        Ok(AgentEventView::Tool { event }) => Some(flat_tool(event)),
        Ok(AgentEventView::ApprovalRequired { approval_id, summary }) => Some(
            FlatView::ApprovalRequired { approval_id: approval_id.text(), summary },
        ),
        Ok(AgentEventView::TurnFinished { reason }) => Some(
            FlatView::TurnFinished { reason: reason_name(reason) },
        ),
        Ok(AgentEventView::Error { message }) => Some(FlatView::Error { message }),
        Ok(AgentEventView::ModeHandoff { .. }) => None,
    }
}

fn map_tool_event(event: ToolEvent) -> (r: AgentEventFfi)
    ensures
        r@ == flat_tool(event@),
{
    match event {
        ToolEvent::Result { output, .. } => AgentEventFfi::ToolResult {
            output: render_tool_output(&output),
        },
        ToolEvent::Error { message, .. } => AgentEventFfi::ToolError { message },
        ToolEvent::Chunk { data } => AgentEventFfi::ToolProgress { text: data },
        ToolEvent::Citation { url, title, .. } => {
            let text = match title {
                Some(t) => {
                    let mut text = t;
                    text.append(" \u{2014} ");
                    text.append(url.as_str());
                    text
                },
                None => url,
            };
            AgentEventFfi::ToolProgress { text }
        },
        ToolEvent::ApprovalRequired { summary, .. } => AgentEventFfi::ToolProgress {
            text: summary,
        },
        ToolEvent::Cancelled => AgentEventFfi::ToolProgress { text: "cancelled".to_owned() },
    }
}

/// Flattens an event, or an error of the stream.
pub fn map_event(item: Result<AgentEvent, ContractError>) -> (r: Option<AgentEventFfi>)
    ensures
        opt(r) == flat_event(outcome(item)),
{
    match item {
        Err(e) => Some(AgentEventFfi::Error { message: e.to_text() }),
        Ok(AgentEvent::TurnStarted { conversation_id, message_id, .. }) => Some(
            AgentEventFfi::TurnStarted {
                conversation_id: conversation_id.to_text(),
                message_id: message_id.to_text(),
            },
        ),
        Ok(AgentEvent::TextDelta { text }) => Some(AgentEventFfi::TextDelta { text }),
        Ok(AgentEvent::Tool { event }) => Some(map_tool_event(event)),
        Ok(AgentEvent::ApprovalRequired { approval_id, summary }) => Some(
            AgentEventFfi::ApprovalRequired { approval_id: approval_id.to_text(), summary },
        ),
        Ok(AgentEvent::TurnFinished { reason }) => Some(
            AgentEventFfi::TurnFinished { reason: reason_text(&reason) },
        ),
        Ok(AgentEvent::Error { message }) => Some(AgentEventFfi::Error { message }),
        Ok(AgentEvent::ModeHandoff { .. }) => None,
    }
}

/// Every event but a change of mode reaches the app, and every error does.
pub proof fn law_only_handoffs_are_dropped(item: Result<AgentEventView, ContractErrorView>)
    ensures
        flat_event(item) is None <==> (item matches Ok(e) && e is ModeHandoff),
{
}

/// What reaches the app says what the event says: texts, messages and summaries word for
/// word, and identifiers so that they can be read back.
pub proof fn law_events_reach_the_app_whole(item: Result<AgentEventView, ContractErrorView>)
    ensures
        match item {
            Err(e) => flat_event(item) == Some(FlatView::Error { message: e.message() }),
            Ok(AgentEventView::TextDelta { text }) => flat_event(item) == Some(
                FlatView::TextDelta { text },
            ),
            Ok(AgentEventView::Error { message }) => flat_event(item) == Some(
                FlatView::Error { message },
            ),
            Ok(AgentEventView::ApprovalRequired { approval_id, summary }) => flat_event(
                item,
            ) == Some(FlatView::ApprovalRequired { approval_id: approval_id.text(), summary }),
            Ok(AgentEventView::TurnStarted { conversation_id, message_id, .. }) => flat_event(
                item,
            ) == Some(
                FlatView::TurnStarted {
                    conversation_id: conversation_id.text(),
                    message_id: message_id.text(),
                },
            ),
            Ok(AgentEventView::TurnFinished { .. }) => flat_event(item) is Some && flat_event(
                item,
            )->0 is TurnFinished,
            Ok(AgentEventView::Tool { event }) => match event {
                ToolEventView::Error { message, .. } => flat_event(item) == Some(
                    FlatView::ToolError { message },
                ),
                ToolEventView::Chunk { data } => flat_event(item) == Some(
                    FlatView::ToolProgress { text: data },
                ),
                ToolEventView::Result { output, .. } => flat_event(item) matches Some(
                    FlatView::ToolResult { output: shown },
                ) && (match output {
                    JsonView::Str(s) => shown == s,
                    _ => match output.at("content"@) {
                        JsonView::Str(s) => shown == s,
                        _ => shown == json_text(output),
                    },
                }),
                ToolEventView::Citation { url, title, .. } => flat_event(item) matches Some(
                    FlatView::ToolProgress { text },
                ) && stands_at(text, url, text.len() - url.len()) && (title matches Some(t)
                    ==> stands_at(text, t, 0)) && (title is None ==> text == url),
                ToolEventView::ApprovalRequired { summary, .. } => flat_event(item) == Some(
                    FlatView::ToolProgress { text: summary },
                ),
                ToolEventView::Cancelled => flat_event(item) == Some(
                    FlatView::ToolProgress { text: "cancelled"@ },
                ),
            },
            Ok(AgentEventView::ModeHandoff { .. }) => true,
        },
{
}

/// Every reason to finish has a name of its own.
pub proof fn law_reasons_are_told_apart(a: FinishReason, b: FinishReason)
    requires
        reason_name(a) == reason_name(b),
    ensures
        a == b,
{
    reveal_strlit("Stop");
    reveal_strlit("ToolCall");
    reveal_strlit("MaxTokens");
    reveal_strlit("Cancelled");
    reveal_strlit("Error");
    assert("Stop"@.len() == 4 && "ToolCall"@.len() == 8 && "Error"@.len() == 5);
    assert("MaxTokens"@.len() == 9 && "MaxTokens"@[0] == 'M');
    assert("Cancelled"@.len() == 9 && "Cancelled"@[0] == 'C');
}

} // verus!
