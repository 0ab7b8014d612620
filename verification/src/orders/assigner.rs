//! The earlier assigner interface, which counts every cab call of an
//! elevator rather than only the backed-up ones.
use vstd::prelude::*;
use crate::assigner::{AssignerInput, cab_request_row, hall_calls_on_floors, is_hall_request_matrix, is_state_table_of};
use crate::config::ELEVATOR_NUM_FLOORS;
use crate::elevator::{Behaviour, Direction};
use crate::messages::{CallSet, ElevatorStatus};
use crate::world_view::WorldView;

pub use crate::assigner::{assigned_matrix_to_calls, calls_to_assigner_matrix};

verus! {

/// An elevator's state in the form the assigner expects.
pub struct AssignerState {
    pub behaviour: Behaviour,
    pub floor: u8,
    pub direction: Direction,
    /// Whether the elevator has a cab call at each floor.
    pub cab_requests: Vec<bool>,
}

impl AssignerState {
    /// The assigner state of `elev`, with a cab request at every floor where
    /// it has a cab call.
    pub fn from_elev(elev: &ElevatorStatus) -> (s: AssignerState)
        ensures
            s.behaviour == elev.behaviour,
            s.floor == elev.floor,
            s.direction == elev.direction,
            s.cab_requests@ == cab_request_row(elev.cab_calls@),
    {
        let mut cab_requests: Vec<bool> = Vec::new();
        for f in 0..ELEVATOR_NUM_FLOORS as usize
            invariant
                cab_requests@.len() == f,
                forall|g: int| 0 <= g < f ==> !#[trigger] cab_requests@[g],
        {
            cab_requests.push(false);
        }
        let calls = &elev.cab_calls;
        let n = calls.num_stored();
        for i in 0..n
            invariant
                n == calls.elems().len(),
                cab_requests@.len() == ELEVATOR_NUM_FLOORS,
                forall|f: int| 0 <= f < ELEVATOR_NUM_FLOORS ==> #[trigger] cab_requests@[f]
                    == exists|j: int| 0 <= j < i && calls.elems()[j].floor == f,
        {
            let call = calls.get(i);
            if call.floor < ELEVATOR_NUM_FLOORS {
                cab_requests.set(call.floor as usize, true);
            }
            assert forall|f: int| 0 <= f < ELEVATOR_NUM_FLOORS implies #[trigger] cab_requests@[f]
                == exists|j: int| 0 <= j < i + 1 && calls.elems()[j].floor == f by {
                if call.floor == f {
                    assert(calls.elems()[i as int] == call);
                }
                if exists|j: int| 0 <= j < i && calls.elems()[j].floor == f {
                    let j = choose|j: int| 0 <= j < i && calls.elems()[j].floor == f;
                    assert(0 <= j < i + 1);
                }
            }
        }
        assert(cab_requests@ =~= cab_request_row(calls@)) by {
            assert forall|f: int| 0 <= f < ELEVATOR_NUM_FLOORS implies cab_requests@[f] == crate::assigner::has_any_call_at(calls@, f) by {
                if crate::assigner::has_any_call_at(calls@, f) {
                    let c = choose|c: crate::messages::Call| calls@.contains(c) && c.floor == f;
                    let j = choose|j: int| 0 <= j < calls.elems().len() && calls.elems()[j] == c;
                }
                if cab_requests@[f] {
                    let j = choose|j: int| 0 <= j < n && calls.elems()[j].floor == f;
                    assert(calls@.contains(calls.elems()[j]));
                }
            }
        }
        AssignerState { behaviour: elev.behaviour, floor: elev.floor, direction: elev.direction, cab_requests }
    }
}

/// Builds the input to the assigner from the world view and the active hall calls.
pub fn build_assigner_input(world: &WorldView, active_calls: &CallSet) -> (input: AssignerInput)
    requires
        world.wf(),
        hall_calls_on_floors(active_calls@),
    ensures
        is_hall_request_matrix(input.hall_requests@, active_calls@),
        is_state_table_of(input.states@, *world),
{
    AssignerInput::new(world, active_calls)
}

} // verus!
