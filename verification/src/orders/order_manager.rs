//! Pieces of the earlier call handling: the order matrix for the state
//! machine and the update of the local peer's state.
use vstd::prelude::*;
use crate::config::ELEVATOR_NUM_FLOORS;
use crate::messages::{ElevatorId, LocalElevatorStatus};
use crate::orders::world_view::{PeerState, WorldView};
use crate::messages::same_elevator_id;

verus! {

/// Combines the hall call matrix and the cab call row into the order matrix
/// for the state machine: per floor, up, down and cab.
pub fn orders_matrix(cab_calls: &Vec<bool>, hall_calls: &Vec<[bool; 2]>) -> (calls: Vec<[bool; 3]>)
    requires
        cab_calls@.len() >= ELEVATOR_NUM_FLOORS,
        hall_calls@.len() >= ELEVATOR_NUM_FLOORS,
    ensures
        calls@.len() == ELEVATOR_NUM_FLOORS,
        forall|f: int| 0 <= f < ELEVATOR_NUM_FLOORS ==> {
            &&& (#[trigger] calls@[f])[0] == hall_calls@[f][0]
            &&& calls@[f][1] == hall_calls@[f][1]
            &&& calls@[f][2] == cab_calls@[f]
        },
{
    let mut calls: Vec<[bool; 3]> = Vec::new();
    for floor in 0..ELEVATOR_NUM_FLOORS as usize
        invariant
            cab_calls@.len() >= ELEVATOR_NUM_FLOORS,
            hall_calls@.len() >= ELEVATOR_NUM_FLOORS,
            calls@.len() == floor,
            forall|f: int| 0 <= f < floor ==> {
                &&& (#[trigger] calls@[f])[0] == hall_calls@[f][0]
                &&& calls@[f][1] == hall_calls@[f][1]
                &&& calls@[f][2] == cab_calls@[f]
            },
    {
        calls.push([hall_calls[floor][0], hall_calls[floor][1], cab_calls[floor]]);
    }
    calls
}

/// Records the local elevator's behaviour, floor and direction in its peer
/// entry; a view without an entry for `my_id` is left as it is.
pub fn update_my_peer_state(world: &mut WorldView, my_state: &LocalElevatorStatus, my_id: &ElevatorId)
    ensures
        final(world).peers@.len() == old(world).peers@.len(),
        forall|j: int| 0 <= j < old(world).peers@.len() ==> #[trigger] final(world).peers@[j] == if old(world).peers@[j].0 == *my_id {
            (*my_id, PeerState { behaviour: my_state.behaviour, floor: my_state.floor, direction: my_state.direction })
        } else {
            old(world).peers@[j]
        },
        final(world).pending_calls == old(world).pending_calls,
        final(world).commited_calls == old(world).commited_calls,
        final(world).finished_calls == old(world).finished_calls,
{
    let n = world.peers.len();
    for i in 0..n
        invariant
            n == world.peers@.len(),
            world.peers@.len() == old(world).peers@.len(),
            forall|j: int| 0 <= j < i ==> #[trigger] world.peers@[j] == if old(world).peers@[j].0 == *my_id {
                (*my_id, PeerState { behaviour: my_state.behaviour, floor: my_state.floor, direction: my_state.direction })
            } else {
                old(world).peers@[j]
            },
            forall|j: int| i <= j < n ==> #[trigger] world.peers@[j] == old(world).peers@[j],
            world.pending_calls == old(world).pending_calls,
            world.commited_calls == old(world).commited_calls,
            world.finished_calls == old(world).finished_calls,
    {
        if same_elevator_id(&world.peers[i].0, my_id) {
            world.peers.set(i, (*my_id, PeerState { behaviour: my_state.behaviour, floor: my_state.floor, direction: my_state.direction }));
        }
    }
}

} // verus!
