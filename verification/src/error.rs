//! Errors raised while turning a `server.properties` text into a
//! [`crate::config::server_properties::ServerProperties`] record.

use vstd::prelude::*;

verus! {

/// Why a `server.properties` text was rejected.
///
/// The string fields of a server identity end up inside a semicolon-delimited
/// wire descriptor, so a semicolon embedded in one of them would desynchronize
/// the client's parsing; such values are rejected at construction time.
#[derive(Clone, Copy, Debug, PartialEq, Eq, Structural)]
pub enum ConfigError {
    /// `server-name` contains an ASCII semicolon.
    SemicolonInServerName,
    /// `level-name` contains an ASCII semicolon.
    SemicolonInLevelName,
    /// `gamemode` is not one of `survival`, `creative`, `adventure`.
    BadGamemode,
    /// `max-players` is not an unsigned decimal number in range.
    BadMaxPlayers,
    /// `server-port` is not a decimal port number.
    BadPortV4,
    /// `server-portv6` is not a decimal port number.
    BadPortV6,
}

} // verus!
