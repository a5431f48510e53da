//! Advertises a Minecraft Bedrock dedicated server in the in-game LAN list.
//!
//! Bedrock clients broadcast an "Unconnected Ping" datagram to UDP port 19132
//! and expect an "Unconnected Pong" describing the server. A dedicated server
//! often ignores those broadcasts, so this library provides the two pieces a
//! stand-in listener needs:
//!
//! - [`pong`]: a byte-exact encoder for the RakNet Unconnected Pong packet,
//!   driven by a [`pong::Pong`] record built from a parsed
//!   [`config::server_properties::ServerProperties`];
//! - [`engine`]: the decision logic of the two serving loops, *Relay*
//!   (forward each Ping to the real server and relay its Pong back) and
//!   *Synthesize* (answer every Ping with one pre-rendered Pong), stated as
//!   pure state machines so that the socket loop around them stays trivial.
//!
//! Sockets, timeouts and logging live outside the library; the library only
//! decides what bytes to send and to whom.

pub mod advert;
pub mod config;
pub mod engine;
pub mod error;
pub mod pong;
