//! Tools: their descriptions, invocations and events.

use crate::contracts::types::ComputeMode;
use crate::ident::Uuid;
use crate::json::{Json, JsonView};
use crate::model::{clone_opt_string, opt, views};
use vstd::prelude::*;

verus! {

/// Static metadata of one tool.
#[derive(Debug)]
pub struct ToolDescriptor {
    pub id: String,
    pub display_name: String,
    pub category: ToolCategory,
    pub available_in_modes: Vec<ComputeMode>,
    pub required_permissions: Vec<String>,
    pub input_schema: Json,
    pub output_schema: Json,
    pub requires_approval: bool,
    pub destructive_level: DestructiveLevel,
}

/// [`ToolDescriptor`] as a mathematical value.
pub struct ToolDescriptorView {
    pub id: Seq<char>,
    pub display_name: Seq<char>,
    pub category: ToolCategory,
    pub available_in_modes: Seq<ComputeMode>,
    pub required_permissions: Seq<Seq<char>>,
    pub input_schema: JsonView,
    pub output_schema: JsonView,
    pub requires_approval: bool,
    pub destructive_level: DestructiveLevel,
}

impl View for ToolDescriptor {
    type V = ToolDescriptorView;

    open spec fn view(&self) -> ToolDescriptorView {
        ToolDescriptorView {
            id: self.id@,
            display_name: self.display_name@,
            category: self.category,
            available_in_modes: self.available_in_modes@,
            required_permissions: views(self.required_permissions@),
            input_schema: self.input_schema@,
            output_schema: self.output_schema@,
            requires_approval: self.requires_approval,
            destructive_level: self.destructive_level,
        }
    }
}

#[derive(Clone, Copy, Debug, PartialEq, Eq, Structural)]
pub enum ToolCategory {
    BuiltIn,
    Connector,
    CodingAgent,
    ComputerUse,
}

#[derive(Clone, Copy, Debug, PartialEq, Eq, Structural)]
pub enum DestructiveLevel {
    Low,
    High,
    Critical,
}

/// A request to invoke a tool.
#[derive(Debug)]
pub struct ToolInvocation {
    pub invocation_id: Uuid,
    pub tool_id: String,
    pub args: Json,
    pub session_id: Uuid,
    pub conversation_id: Uuid,
    pub message_id: Uuid,
    pub compute_mode: ComputeMode,
    pub trace_id: Uuid,
    pub stream: bool,
}

/// [`ToolInvocation`] as a mathematical value.
pub struct InvocationView {
    pub invocation_id: Uuid,
    pub tool_id: Seq<char>,
    pub args: JsonView,
    pub session_id: Uuid,
    pub conversation_id: Uuid,
    pub message_id: Uuid,
    pub compute_mode: ComputeMode,
    pub trace_id: Uuid,
    pub stream: bool,
}

impl View for ToolInvocation {
    type V = InvocationView;

    open spec fn view(&self) -> InvocationView {
        InvocationView {
            invocation_id: self.invocation_id,
            tool_id: self.tool_id@,
            args: self.args@,
            session_id: self.session_id,
            conversation_id: self.conversation_id,
            message_id: self.message_id,
            compute_mode: self.compute_mode,
            trace_id: self.trace_id,
            stream: self.stream,
        }
    }
}

/// One event in a tool's lifecycle.
#[derive(Debug)]
pub enum ToolEvent {
    Chunk { data: String },
    Citation { url: String, title: Option<String>, excerpt: Option<String> },
    ApprovalRequired { approval_id: Uuid, summary: String, destructive_level: DestructiveLevel },
    Result { output: Json, truncated: bool },
    Error { message: String, retryable: bool },
    Cancelled,
}

/// [`ToolEvent`] as a mathematical value.
pub enum ToolEventView {
    Chunk { data: Seq<char> },
    Citation { url: Seq<char>, title: Option<Seq<char>>, excerpt: Option<Seq<char>> },
    ApprovalRequired {
        approval_id: Uuid,
        summary: Seq<char>,
        destructive_level: DestructiveLevel,
    },
    Result { output: JsonView, truncated: bool },
    Error { message: Seq<char>, retryable: bool },
    Cancelled,
}

impl View for ToolEvent {
    type V = ToolEventView;

    open spec fn view(&self) -> ToolEventView {
        match self {
            ToolEvent::Chunk { data } => ToolEventView::Chunk { data: data@ },
            ToolEvent::Citation { url, title, excerpt } => ToolEventView::Citation {
                url: url@,
                title: opt(*title),
                excerpt: opt(*excerpt),
            },
            ToolEvent::ApprovalRequired { approval_id, summary, destructive_level } =>
                ToolEventView::ApprovalRequired {
                approval_id: *approval_id,
                summary: summary@,
                destructive_level: *destructive_level,
            },
            ToolEvent::Result { output, truncated } => ToolEventView::Result {
                output: output@,
                truncated: *truncated,
            },
            ToolEvent::Error { message, retryable } => ToolEventView::Error {
                message: message@,
                retryable: *retryable,
            },
            ToolEvent::Cancelled => ToolEventView::Cancelled,
        }
    }
}

impl Clone for ToolEvent {
    fn clone(&self) -> (r: Self)
        ensures
            r@ == self@,
    {
        match self {
            ToolEvent::Chunk { data } => ToolEvent::Chunk { data: data.clone() },
            ToolEvent::Citation { url, title, excerpt } => ToolEvent::Citation {
                url: url.clone(),
                title: clone_opt_string(title),
                excerpt: clone_opt_string(excerpt),
            },
            ToolEvent::ApprovalRequired { approval_id, summary, destructive_level } =>
                ToolEvent::ApprovalRequired {
                approval_id: *approval_id,
                summary: summary.clone(),
                destructive_level: *destructive_level,
            },
            ToolEvent::Result { output, truncated } => ToolEvent::Result {
                output: output.clone(),
                truncated: *truncated,
            },
            ToolEvent::Error { message, retryable } => ToolEvent::Error {
                message: message.clone(),
                retryable: *retryable,
            },
            ToolEvent::Cancelled => ToolEvent::Cancelled,
        }
    }
}

} // verus!
