//! Hosted providers: the OpenAI-compatible and the Anthropic wire formats.

pub mod anthropic;
pub mod anthropic_laws;
pub mod http;
pub mod openai;
pub mod openai_laws;
pub mod sse;
