//! Mahi: the verified core of a local-first personal agent.

pub mod agent;
pub mod cli;
pub mod compute;
pub mod connectivity;
pub mod contracts;
pub mod daemon;
pub mod data;
pub mod ffi;
pub mod ident;
pub mod json;
pub mod model;
pub mod paths;
pub mod table;
pub mod text;
