//! The fault handler: asks once for a restart when a fault is detected.
use vstd::prelude::*;

verus! {

/// Messages to the fault handler.
pub enum MsgToFaultHandler {
    /// A fault was detected somewhere in the system.
    FaultDetected,
}

/// Commands to the system as a whole.
pub enum SystemCommand {
    /// Restart the elevator node.
    Restart,
}

/// Remembers whether a restart was already requested.
pub struct FaultHandler {
    pub restarting: bool,
}

impl FaultHandler {
    /// A handler that has requested nothing.
    pub fn new() -> (h: FaultHandler)
        ensures
            !h.restarting,
    {
        FaultHandler { restarting: false }
    }

    /// Handles a message; returns the command to send, if any. Only the first
    /// detected fault requests a restart.
    pub fn handle(&mut self, msg: MsgToFaultHandler) -> (cmd: Option<SystemCommand>)
        ensures
            final(self).restarting,
            cmd is Some == !old(self).restarting,
    {
        match msg {
            MsgToFaultHandler::FaultDetected => {
                if !self.restarting {
                    self.restarting = true;
                    Some(SystemCommand::Restart)
                } else {
                    None
                }
            },
        }
    }
}

} // verus!
