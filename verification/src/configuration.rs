//! Which end of the tunnel a process is.

use vstd::prelude::*;

verus! {

/// The role of a process.
#[derive(Debug, Clone, Copy, Eq, PartialEq, Structural)]
pub enum Plat {
    Client,
    Server,
}

} // verus!
