//! UDP transport: framing, adaptive fragmentation, reassembly and the
//! decisions taken during the sender/receiver handshake.

pub mod wire;
pub mod fragment;
pub mod assembly;
pub mod jitter;
pub mod addr;
pub mod endpoint;
pub mod session;
pub mod receiver;
pub mod delivery;
