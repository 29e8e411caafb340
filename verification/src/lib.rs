//! Client side of the MySQL wire protocol: packet framing, the wire codec,
//! the packet model and the connection handshake, without any I/O.

pub mod conn;
pub mod error;
pub mod flags;
pub mod opts;
pub mod packet;

pub use opts::{ConnectionOptions, ConnectionOptionsBuilder};
