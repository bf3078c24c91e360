//! Errors that cross the boundaries between the parts of the agent.

use crate::contracts::connectivity::ChannelId;
use crate::contracts::types::ComputeMode;
use crate::ident::Uuid;
use crate::model::views;
use crate::text::stands_at;
use vstd::prelude::*;

verus! {

/// Top-level error of every contract boundary.
#[derive(Debug)]
pub enum ContractError {
    Inference(InferenceError),
    Tool(ToolError),
    Store(StoreError),
    Connectivity(ConnectivityError),
    Permission(PermissionError),
    Cancelled,
    Other(String),
}

#[derive(Debug)]
pub enum InferenceError {
    NoCapableProvider,
    PinViolation { requested: ComputeMode },
    Provider { message: String, retryable: bool },
    ThermalThrottle,
}

#[derive(Debug)]
pub enum ToolError {
    NotFound { tool_id: String },
    UnavailableInMode { tool_id: String, mode: ComputeMode },
    SchemaValidation { message: String },
    SandboxViolation,
    Execution { message: String },
}

#[derive(Debug)]
pub enum StoreError {
    NotFound { id: Uuid },
    Backend { message: String },
    Encryption { message: String },
    Serialization { message: String },
}

#[derive(Debug)]
pub enum ConnectivityError {
    PeerUnreachable { peer_id: Uuid },
    ChannelClosed { channel: ChannelId },
    Transport { message: String },
}

#[derive(Debug)]
pub enum PermissionError {
    Denied { subject: String, scope: Vec<String> },
    HardRuleBlocked { rule_name: String },
    Backend { message: String },
}

/// [`ContractError`] as a mathematical value.
pub enum ContractErrorView {
    Inference(InferenceErrorView),
    Tool(ToolErrorView),
    Store(StoreErrorView),
    Connectivity(ConnectivityErrorView),
    Permission(PermissionErrorView),
    Cancelled,
    Other(Seq<char>),
}

/// [`InferenceError`] as a mathematical value.
pub enum InferenceErrorView {
    NoCapableProvider,
    PinViolation { requested: ComputeMode },
    Provider { message: Seq<char>, retryable: bool },
    ThermalThrottle,
}

/// [`ToolError`] as a mathematical value.
pub enum ToolErrorView {
    NotFound { tool_id: Seq<char> },
    UnavailableInMode { tool_id: Seq<char>, mode: ComputeMode },
    SchemaValidation { message: Seq<char> },
    SandboxViolation,
    Execution { message: Seq<char> },
}

/// [`StoreError`] as a mathematical value.
pub enum StoreErrorView {
    NotFound { id: Uuid },
    Backend { message: Seq<char> },
    Encryption { message: Seq<char> },
    Serialization { message: Seq<char> },
}

/// [`ConnectivityError`] as a mathematical value.
pub enum ConnectivityErrorView {
    PeerUnreachable { peer_id: Uuid },
    ChannelClosed { channel: ChannelId },
    Transport { message: Seq<char> },
}

/// [`PermissionError`] as a mathematical value.
pub enum PermissionErrorView {
    Denied { subject: Seq<char>, scope: Seq<Seq<char>> },
    HardRuleBlocked { rule_name: Seq<char> },
    Backend { message: Seq<char> },
}

impl View for ContractError {
    type V = ContractErrorView;

    open spec fn view(&self) -> ContractErrorView {
        match self {
            ContractError::Inference(e) => ContractErrorView::Inference(e@),
            ContractError::Tool(e) => ContractErrorView::Tool(e@),
            ContractError::Store(e) => ContractErrorView::Store(e@),
            ContractError::Connectivity(e) => ContractErrorView::Connectivity(e@),
            ContractError::Permission(e) => ContractErrorView::Permission(e@),
            ContractError::Cancelled => ContractErrorView::Cancelled,
            ContractError::Other(s) => ContractErrorView::Other(s@),
        }
    }
}

impl View for InferenceError {
    type V = InferenceErrorView;

    open spec fn view(&self) -> InferenceErrorView {
        match self {
            InferenceError::NoCapableProvider => InferenceErrorView::NoCapableProvider,
            InferenceError::PinViolation { requested } => InferenceErrorView::PinViolation {
                requested: *requested,
            },
            InferenceError::Provider { message, retryable } => InferenceErrorView::Provider {
                message: message@,
                retryable: *retryable,
            },
            InferenceError::ThermalThrottle => InferenceErrorView::ThermalThrottle,
        }
    }
}

impl View for ToolError {
    type V = ToolErrorView;

    open spec fn view(&self) -> ToolErrorView {
        match self {
            ToolError::NotFound { tool_id } => ToolErrorView::NotFound { tool_id: tool_id@ },
            ToolError::UnavailableInMode { tool_id, mode } => ToolErrorView::UnavailableInMode {
                tool_id: tool_id@,
                mode: *mode,
            },
            ToolError::SchemaValidation { message } => ToolErrorView::SchemaValidation {
                message: message@,
            },
            ToolError::SandboxViolation => ToolErrorView::SandboxViolation,
            ToolError::Execution { message } => ToolErrorView::Execution { message: message@ },
        }
    }
}

impl View for StoreError {
    type V = StoreErrorView;

    open spec fn view(&self) -> StoreErrorView {
        match self {
            StoreError::NotFound { id } => StoreErrorView::NotFound { id: *id },
            StoreError::Backend { message } => StoreErrorView::Backend { message: message@ },
            StoreError::Encryption { message } => StoreErrorView::Encryption { message: message@ },
            StoreError::Serialization { message } => StoreErrorView::Serialization {
                message: message@,
            },
        }
    }
}

impl View for ConnectivityError {
    type V = ConnectivityErrorView;

    open spec fn view(&self) -> ConnectivityErrorView {
        match self {
            ConnectivityError::PeerUnreachable { peer_id } =>
                ConnectivityErrorView::PeerUnreachable { peer_id: *peer_id },
            ConnectivityError::ChannelClosed { channel } => ConnectivityErrorView::ChannelClosed {
                channel: *channel,
            },
            ConnectivityError::Transport { message } => ConnectivityErrorView::Transport {
                message: message@,
            },
        }
    }
}

impl View for PermissionError {
    type V = PermissionErrorView;

    open spec fn view(&self) -> PermissionErrorView {
        match self {
            PermissionError::Denied { subject, scope } => PermissionErrorView::Denied {
                subject: subject@,
                scope: views(scope@),
            },
            PermissionError::HardRuleBlocked { rule_name } =>
                PermissionErrorView::HardRuleBlocked { rule_name: rule_name@ },
            PermissionError::Backend { message } => PermissionErrorView::Backend {
                message: message@,
            },
        }
    }
}

/// How std prints a list of texts for debugging.
pub uninterp spec fn debug_texts(s: Seq<Seq<char>>) -> Seq<char>;

/// `Debug` of a list of texts: a function of the texts.
#[verifier::external_body]
fn print_debug_texts(v: &Vec<String>) -> (r: String)
    ensures
        r@ == debug_texts(views(v@)),
{
    format!("{:?}", v)
}

/// A boolean as std prints it.
pub open spec fn bool_text(b: bool) -> Seq<char> {
    if b {
        "true"@
    } else {
        "false"@
    }
}

impl InferenceErrorView {
    /// The message shown for the error.
    pub open spec fn message(self) -> Seq<char> {
        match self {
            InferenceErrorView::NoCapableProvider => "no provider can handle the request"@,
            InferenceErrorView::PinViolation { requested } => "pin violation: requested mode "@
                + requested.name_spec() + " is unavailable"@,
            InferenceErrorView::Provider { message, retryable } => "provider error: "@ + message
                + " (retryable="@ + bool_text(retryable) + ")"@,
            InferenceErrorView::ThermalThrottle => "compute resource is thermally throttled"@,
        }
    }
}

impl InferenceError {
    /// The message shown for the error.
    pub fn to_text(&self) -> (r: String)
        ensures
            r@ == self@.message(),
    {
        match self {
            InferenceError::NoCapableProvider => "no provider can handle the request".to_owned(),
            InferenceError::PinViolation { requested } => {
                let mut s = "pin violation: requested mode ".to_owned();
                s.append(requested.name());
                s.append(" is unavailable");
                s
            },
            InferenceError::Provider { message, retryable } => {
                let mut s = "provider error: ".to_owned();
                s.append(message.as_str());
                s.append(" (retryable=");
                s.append(
                    if *retryable {
                        "true"
                    } else {
                        "false"
                    },
                );
                s.append(")");
                s
            },
            InferenceError::ThermalThrottle => "compute resource is thermally throttled".to_owned(),
        }
    }
}

impl ToolErrorView {
    /// The message shown for the error.
    pub open spec fn message(self) -> Seq<char> {
        match self {
            ToolErrorView::NotFound { tool_id } => "tool not found: "@ + tool_id,
            ToolErrorView::UnavailableInMode { tool_id, mode } => "tool "@ + tool_id
                + " unavailable in mode "@ + mode.name_spec(),
            ToolErrorView::SchemaValidation { message } => "input schema validation failed: "@
                + message,
            ToolErrorView::SandboxViolation => "sandbox violation"@,
            ToolErrorView::Execution { message } => "tool execution failed: "@ + message,
        }
    }
}

impl ToolError {
    /// The message shown for the error.
    pub fn to_text(&self) -> (r: String)
        ensures
            r@ == self@.message(),
    {
        match self {
            ToolError::NotFound { tool_id } => "tool not found: ".to_owned().concat(
                tool_id.as_str(),
            ),
            ToolError::UnavailableInMode { tool_id, mode } => {
                let mut s = "tool ".to_owned();
                s.append(tool_id.as_str());
                s.append(" unavailable in mode ");
                s.append(mode.name());
                s
            },
            ToolError::SchemaValidation {
                message,
            } => "input schema validation failed: ".to_owned().concat(message.as_str()),
            ToolError::SandboxViolation => "sandbox violation".to_owned(),
            ToolError::Execution { message } => "tool execution failed: ".to_owned().concat(
                message.as_str(),
            ),
        }
    }
}

impl StoreErrorView {
    /// The message shown for the error.
    pub open spec fn message(self) -> Seq<char> {
        match self {
            StoreErrorView::NotFound { id } => "record not found: "@ + id.text(),
            StoreErrorView::Backend { message } => "storage backend error: "@ + message,
            StoreErrorView::Encryption { message } => "encryption error: "@ + message,
            StoreErrorView::Serialization { message } => "serialization error: "@ + message,
        }
    }
}

impl StoreError {
    /// The message shown for the error.
    pub fn to_text(&self) -> (r: String)
        ensures
            r@ == self@.message(),
    {
        match self {
            StoreError::NotFound { id } => "record not found: ".to_owned().concat(
                id.to_text().as_str(),
            ),
            StoreError::Backend { message } => "storage backend error: ".to_owned().concat(
                message.as_str(),
            ),
            StoreError::Encryption { message } => "encryption error: ".to_owned().concat(
                message.as_str(),
            ),
            StoreError::Serialization { message } => "serialization error: ".to_owned().concat(
                message.as_str(),
            ),
        }
    }
}

impl ConnectivityErrorView {
    /// The message shown for the error.
    pub open spec fn message(self) -> Seq<char> {
        match self {
            ConnectivityErrorView::PeerUnreachable { peer_id } => "peer unreachable: "@
                + peer_id.text(),
            ConnectivityErrorView::ChannelClosed { channel } => "channel "@ + channel.name_spec()
                + " is not open"@,
            ConnectivityErrorView::Transport { message } => "transport error: "@ + message,
        }
    }
}

impl ConnectivityError {
    /// The message shown for the error.
    pub fn to_text(&self) -> (r: String)
        ensures
            r@ == self@.message(),
    {
        match self {
            ConnectivityError::PeerUnreachable { peer_id } => "peer unreachable: ".to_owned().concat(
                peer_id.to_text().as_str(),
            ),
            ConnectivityError::ChannelClosed { channel } => {
                let mut s = "channel ".to_owned();
                s.append(channel.name());
                s.append(" is not open");
                s
            },
            ConnectivityError::Transport { message } => "transport error: ".to_owned().concat(
                message.as_str(),
            ),
        }
    }
}

impl PermissionErrorView {
    /// The message shown for the error.
    pub open spec fn message(self) -> Seq<char> {
        match self {
            PermissionErrorView::Denied { subject, scope } => "permission denied for "@ + subject
                + " in scope "@ + debug_texts(scope),
            PermissionErrorView::HardRuleBlocked { rule_name } => "blocked by hard rule: "@
                + rule_name,
            PermissionErrorView::Backend { message } => "backend error: "@ + message,
        }
    }
}

impl PermissionError {
    /// The message shown for the error.
    pub fn to_text(&self) -> (r: String)
        ensures
            r@ == self@.message(),
    {
        match self {
            PermissionError::Denied { subject, scope } => {
                let mut s = "permission denied for ".to_owned();
                s.append(subject.as_str());
                s.append(" in scope ");
                s.append(print_debug_texts(scope).as_str());
                s
            },
            PermissionError::HardRuleBlocked {
                rule_name,
            } => "blocked by hard rule: ".to_owned().concat(rule_name.as_str()),
            PermissionError::Backend { message } => "backend error: ".to_owned().concat(
                message.as_str(),
            ),
        }
    }
}

impl ContractErrorView {
    /// The message shown for the error.
    pub open spec fn message(self) -> Seq<char> {
        match self {
            ContractErrorView::Inference(e) => "inference error: "@ + e.message(),
            ContractErrorView::Tool(e) => "tool error: "@ + e.message(),
            ContractErrorView::Store(e) => "store error: "@ + e.message(),
            ContractErrorView::Connectivity(e) => "connectivity error: "@ + e.message(),
            ContractErrorView::Permission(e) => "permission error: "@ + e.message(),
            ContractErrorView::Cancelled => "operation cancelled"@,
            ContractErrorView::Other(s) => s,
        }
    }
}

impl ContractError {
    /// An ad-hoc error.
    pub fn other(msg: String) -> (r: ContractError)
        ensures
            r@ == ContractErrorView::Other(msg@),
    {
        ContractError::Other(msg)
    }

    /// The message shown for the error.
    pub fn to_text(&self) -> (r: String)
        ensures
            r@ == self@.message(),
    {
        match self {
            ContractError::Inference(e) => "inference error: ".to_owned().concat(
                e.to_text().as_str(),
            ),
            ContractError::Tool(e) => "tool error: ".to_owned().concat(e.to_text().as_str()),
            ContractError::Store(e) => "store error: ".to_owned().concat(e.to_text().as_str()),
            ContractError::Connectivity(e) => "connectivity error: ".to_owned().concat(
                e.to_text().as_str(),
            ),
            ContractError::Permission(e) => "permission error: ".to_owned().concat(
                e.to_text().as_str(),
            ),
            ContractError::Cancelled => "operation cancelled".to_owned(),
            ContractError::Other(s) => s.clone(),
        }
    }
}

/// The message of an error tells what the error tells: the texts, the identifiers and the
/// names that it carries stand in the message, word for word.
pub proof fn law_message_tells_the_error(e: ContractErrorView)
    ensures
        ({
            let m = e.message();
            match e {
                ContractErrorView::Inference(InferenceErrorView::Provider { message, .. }) => stands_at(
                    m,
                    message,
                    33,
                ),
                ContractErrorView::Inference(InferenceErrorView::PinViolation { requested }) => stands_at(
                    m,
                    requested.name_spec(),
                    47,
                ),
                ContractErrorView::Tool(ToolErrorView::NotFound { tool_id }) => stands_at(
                    m,
                    tool_id,
                    m.len() - tool_id.len(),
                ),
                ContractErrorView::Tool(ToolErrorView::UnavailableInMode { tool_id, .. }) => stands_at(
                    m,
                    tool_id,
                    17,
                ),
                ContractErrorView::Tool(ToolErrorView::SchemaValidation { message }) => stands_at(
                    m,
                    message,
                    m.len() - message.len(),
                ),
                ContractErrorView::Tool(ToolErrorView::Execution { message }) => stands_at(
                    m,
                    message,
                    m.len() - message.len(),
                ),
                ContractErrorView::Store(StoreErrorView::NotFound { id }) => stands_at(
                    m,
                    id.text(),
                    m.len() - id.text().len(),
                ),
                ContractErrorView::Store(StoreErrorView::Backend { message }) => stands_at(
                    m,
                    message,
                    m.len() - message.len(),
                ),
                ContractErrorView::Store(StoreErrorView::Encryption { message }) => stands_at(
                    m,
                    message,
                    m.len() - message.len(),
                ),
                ContractErrorView::Store(StoreErrorView::Serialization { message }) => stands_at(
                    m,
                    message,
                    m.len() - message.len(),
                ),
                ContractErrorView::Connectivity(ConnectivityErrorView::Transport { message }) => stands_at(
                    m,
                    message,
                    m.len() - message.len(),
                ),
                ContractErrorView::Connectivity(ConnectivityErrorView::PeerUnreachable { peer_id }) => stands_at(
                    m,
                    peer_id.text(),
                    m.len() - peer_id.text().len(),
                ),
                ContractErrorView::Permission(PermissionErrorView::HardRuleBlocked { rule_name }) => stands_at(
                    m,
                    rule_name,
                    m.len() - rule_name.len(),
                ),
                ContractErrorView::Permission(PermissionErrorView::Backend { message }) => stands_at(
                    m,
                    message,
                    m.len() - message.len(),
                ),
                ContractErrorView::Permission(PermissionErrorView::Denied { subject, .. }) => stands_at(
                    m,
                    subject,
                    40,
                ),
                ContractErrorView::Other(s) => m == s,
                _ => true,
            }
        }),
{
    reveal_strlit("inference error: ");
    reveal_strlit("provider error: ");
    reveal_strlit("pin violation: requested mode ");
    reveal_strlit("tool error: ");
    reveal_strlit("tool ");
    reveal_strlit("permission error: ");
    reveal_strlit("permission denied for ");
}

} // verus!
