//! The device-to-device connection: the bus, its frames, sessions, pairing and
//! peers.

pub mod bus;
pub mod mac;
pub mod pairing;
pub mod peers;
pub mod session;
pub mod transport;
