//! The earlier world view: calls by stage and the state of each peer.
use vstd::prelude::*;
use crate::elevator::{Behaviour, Direction};
use crate::messages::{Call, CallSet, ElevatorId};

verus! {

/// What is known of a peer elevator.
#[derive(Clone, Copy, Debug, PartialEq, Eq, Structural)]
pub struct PeerState {
    pub behaviour: Behaviour,
    pub floor: u8,
    pub direction: Direction,
}

/// Calls by stage, and the peers.
pub struct WorldView {
    /// Calls that are not yet confirmed by the peers.
    pub pending_calls: CallSet,
    /// Calls that are confirmed.
    pub commited_calls: CallSet,
    /// Calls that are served.
    pub finished_calls: CallSet,
    /// The peers by identifier.
    pub peers: Vec<(ElevatorId, PeerState)>,
}

impl WorldView {
    /// A view with no calls and no peers.
    pub fn new() -> (w: WorldView)
        ensures
            w.pending_calls@ == Set::<Call>::empty(),
            w.commited_calls@ == Set::<Call>::empty(),
            w.finished_calls@ == Set::<Call>::empty(),
            w.peers@.len() == 0,
    {
        WorldView {
            pending_calls: CallSet::new(),
            commited_calls: CallSet::new(),
            finished_calls: CallSet::new(),
            peers: Vec::new(),
        }
    }
}

} // verus!
