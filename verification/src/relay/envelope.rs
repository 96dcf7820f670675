//! Frames of the relay hop between an agent and the server.
//!
//! The server unwraps every frame before it reaches a viewer, so a dashboard
//! knows none of these.

use vstd::prelude::*;

use crate::protocol::messages::{ClientCommand, ServerMessage};

verus! {

/// From the agent to the server.
#[derive(Debug)]
pub enum UplinkFrame {
    /// The first frame after the handshake.
    Hello { agent_version: String },
    /// Fan out to every viewer.
    Message(ServerMessage),
    /// The answer to one command, for exactly one viewer.
    Response { req: u64, msg: ServerMessage },
}

/// From the server to the agent.
#[derive(Debug)]
pub enum DownlinkFrame {
    /// Run this on the driver's PC and answer under the same number.
    Command { req: u64, cmd: ClientCommand },
    /// Run this on the driver's PC; its result reaches viewers as a broadcast.
    Broadcast { cmd: ClientCommand },
}

} // verus!
