//! Plain records describing advertised servers: the data a listener
//! advertising several servers at once keeps per entry. The serving loops in
//! [`crate::engine`] answer for a single server and take their fields from
//! [`crate::pong::Pong`] instead.

use vstd::prelude::*;

verus! {

/// The set of servers a multi-server listener would advertise.
pub struct Servers {
    pub list: Vec<LanAdvert>,
}

/// Everything one advertised server shows a client.
pub struct LanAdvert {
    /// First line of the client's list entry.
    pub title: String,
    /// Second line of the client's list entry.
    pub description: String,
    /// The user-agent-like tag, `MCPE` for Bedrock.
    pub server_type: String,
    /// Protocol the server speaks.
    pub protocol: Protocol,
    /// Server GUID.
    pub guid: u64,
    /// Wider id space some servers advertise alongside the GUID.
    pub server_id: u128,
    /// Game mode, as its display text.
    pub gamemode: String,
    /// The ports the server listens on.
    pub port: Port,
}

/// A protocol version: the numeric wire protocol and its display text.
pub struct Protocol {
    pub numeric: u64,
    pub display: String,
}

/// The IPv4 and IPv6 ports of one server.
pub struct Port {
    pub v4: u16,
    pub v6: u16,
}

} // verus!
