//! The relay engine of a QUIC tunnel: each accepted inbound connection is
//! paired with one outbound stream, and the bytes of the pair are copied both
//! ways by two independent copy directions.
//!
//! - `session`: the record of one tunnel and how each of its directions ended.
//! - `copy`: one copy direction, as a state machine driven by I/O results.
//! - `handshake`: turning a dial result into an established tunnel.
//! - `stats`: counts aggregated over all tunnels.
//! - `config`: parsing of port ranges and endpoints, and the QUIC transport
//!   parameters derived from the tunnel options.

pub mod config;
pub mod copy;
pub mod handshake;
pub mod session;
pub mod stats;
