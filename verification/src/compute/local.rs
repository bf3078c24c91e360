//! Local models: the catalog, downloads, the managed server and its provider.

pub mod catalog;
pub mod download;
pub mod error;
pub mod manager;
pub mod provider;
pub mod runtime;
