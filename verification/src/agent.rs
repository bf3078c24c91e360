//! The agent: context assembly, the approval gate, the turn and subagents.

pub mod approval;
pub mod context;
pub mod engine;
pub mod round;
pub mod subagent;
pub mod tool_call;
pub mod turn;
pub mod turn_laws;
