//! Where inference runs: routing, hosted providers and local models.

pub mod capability;
pub mod hosted;
pub mod local;
pub mod modes;
pub mod on_device;
pub mod router;
