//! States of the task-level elevator state machine.
use vstd::prelude::*;

verus! {

/// State of the elevator as the task-level state machine sees it.
#[derive(Clone, Copy, Debug, PartialEq, Eq, Structural)]
pub enum ElevatorState {
    Idle,
    Moving,
    DoorOpen,
    Stopped,
}

} // verus!
