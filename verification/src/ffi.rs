//! What the app is handed: flat records, flat events, the queue of a turn, and
//! the state of the models behind the engine.

pub mod events;
pub mod handle;
pub mod host;
pub mod provider;
pub mod queue;
