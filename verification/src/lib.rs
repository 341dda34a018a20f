//! On-demand activator and lifecycle supervisor for a Minecraft
//! Java-edition game server.
//!
//! While the game server is stopped this library's callers occupy its TCP
//! port, answer status probes with a synthetic server listing, launch the
//! real server on the first genuine login attempt, and proxy later
//! connections to it.  The library holds the verified core: the varint
//! codec, the handshake classifier, the pre-serialized response packets,
//! the lifecycle state machine, the idle-watchdog decisions and the
//! connection dispatcher's decision table.  Network and process I/O stays
//! with the caller.

pub mod config;
pub mod dispatch;
pub mod handshake;
pub mod preserialized_packets;
pub mod state;
pub mod watchdog;
pub mod varint;

pub use config::Config;
pub use preserialized_packets::PreserializedPackets;
pub use state::ServerState;
pub use varint::read_varint;
pub use varint::write_varint;
