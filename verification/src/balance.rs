//! The command line of the IoT balance server.

use vstd::prelude::*;

verus! {

/// The subcommands: generate configuration, or run the server.
#[derive(Clone, Copy, Debug, PartialEq, Eq, Structural)]
pub enum Cmd {
    Generate,
    Server,
}

/// Helium Iot Balance Server.
#[derive(Clone, Copy, Debug, PartialEq, Eq, Structural)]
pub struct Cli {
    pub cmd: Cmd,
}

} // verus!
