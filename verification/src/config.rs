//! Configuration records handed to the packet codec and the serving loops:
//! the parsed `server.properties` file and the command-line selection.

pub mod args;
pub mod server_properties;
