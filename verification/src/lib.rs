//! A dual-mode TCP proxy core: one parser for SOCKS4, SOCKS5 and HTTP CONNECT
//! handshakes, a rule engine that routes a destination directly or through a
//! remote proxy, and the per-connection decisions that tie the two together.

pub mod addr;
pub mod configuration;
pub mod connection;
pub mod env;
pub mod error;
pub mod protocol;
pub mod rule;
pub mod splice;
pub mod text;

use vstd::prelude::*;

verus! {

/// What the functions of this library return.
pub type Result<T> = std::result::Result<T, error::Error>;

/// The remote server a client is built for, as `host:port`.
pub const REMOTE_SERVER_ADDR: &'static str = "nexel.cc:6789";

/// The host name of that server.
pub const REMOTE_SERVER_DOMAIN: &'static str = "nexel.cc";

} // verus!
