//! Network core of a dedicated multiplayer vehicle-simulation server:
//! the RoRnet binary wire codec, the per-peer connection state machine
//! and client table, and the directory-service registration client.

use vstd::prelude::*;

pub mod config;
pub mod listener;
pub mod master_server;
pub mod net;

pub use config::Config;
pub use config::ServerType;

verus! {

/// Wire-protocol version string; a peer's Hello payload must match it.
pub const RORNET_VERSION: &'static str = "RoRnet_2.44";

/// Upper bound on the payload carried by one packet, in bytes.
pub const RORNET_MAX_MESSAGE_LENGTH: u32 = 8192;

/// Largest number of simultaneously connected peers the protocol plans for.
pub const RORNET_MAX_PEERS: u32 = 64;

/// UDP port LAN discovery broadcasts go to.
pub const RORNET_LAN_BROADCAST_PORT: u32 = 13000;

/// Width of the username field in a UserInfo payload.
pub const RORNET_MAX_USERNAME_LEN: u32 = 40;

} // verus!
