//! The command-line selection, as plain data.
//!
//! The binary around the library parses its command line into these types;
//! the library itself only consumes the finished selection.

use vstd::prelude::*;

verus! {

/// Everything the operator chose on the command line.
pub struct Args {
    /// How the advertiser should run.
    pub mode: Mode,
}

/// The two operating modes of the advertiser.
pub enum Mode {
    /// Forward each Ping to the real server and relay its Pong back.
    Relay {
        /// Path to the `server.properties` file.
        props: String,
    },
    /// Answer every Ping from `server.properties` alone, without contacting
    /// the real server. The protocol pair cannot be read from the file, so
    /// the operator supplies it explicitly.
    FromProps {
        /// Path to the `server.properties` file.
        props: String,
        /// The protocol the synthesized Pong should advertise.
        proto: Proto,
    },
}

/// The protocol version pair a synthesized Pong advertises.
pub enum Proto {
    Proto {
        /// Protocol version as a single number, e.g. `560`.
        numeric: u64,
        /// The displayed Minecraft version, e.g. `"1.19.51"`.
        string: String,
    },
}

} // verus!
