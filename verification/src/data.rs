//! The encrypted store: key derivation, sealed records, and the hash-chained
//! audit log.

pub mod crypto;
pub mod keystore;
pub mod store;
