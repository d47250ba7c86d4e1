//! SOCKS5 egress: the wire format and the client side of the handshake.

pub mod client;
pub mod common;
