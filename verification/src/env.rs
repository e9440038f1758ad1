//! The remote server that a client is built for.

use vstd::prelude::*;
use crate::text::{host_port, join_host_port};

verus! {

/// The role of a process.
#[derive(Debug, Clone, Copy, Eq, PartialEq, Structural)]
pub enum Plat {
    Client,
    Server,
}

/// Where the remote server is: on this machine, or on the network.
#[derive(Debug, Eq, PartialEq)]
pub enum Env {
    Local(EnvConfig),
    Online(EnvConfig),
}

/// The address of the remote server.
#[derive(Debug, Eq, PartialEq)]
pub struct EnvConfig {
    pub remote_server_addr: &'static str,
    pub remote_server_port: u16,
}

impl EnvConfig {
    /// The host name of the remote server.
    pub fn domain(&self) -> (r: &str)
        ensures
            r@ == self.remote_server_addr@,
    {
        self.remote_server_addr
    }

    /// The remote server as `host:port`.
    pub fn uri(&self) -> (r: String)
        ensures
            r@ == host_port(self.remote_server_addr@, self.remote_server_port),
    {
        join_host_port(self.remote_server_addr, self.remote_server_port)
    }
}

/// The environment in force: the server on the network.
pub fn env() -> (r: Env)
    ensures
        r == Env::Online(EnvConfig { remote_server_addr: "nexel.cc", remote_server_port: 6789 }),
{
    Env::Online(EnvConfig { remote_server_addr: "nexel.cc", remote_server_port: 6789 })
}

/// The address of the remote server in the environment in force.
pub fn config() -> (r: EnvConfig)
    ensures
        r == (EnvConfig { remote_server_addr: "nexel.cc", remote_server_port: 6789 }),
{
    match env() {
        Env::Local(cfg) => cfg,
        Env::Online(cfg) => cfg,
    }
}

} // verus!
