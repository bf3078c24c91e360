//! The records and messages that the parts of the agent exchange.

pub mod agent;
pub mod compute;
pub mod connectivity;
pub mod data;
pub mod error;
pub mod testkit;
pub mod tooling;
pub mod types;
