//! Identification of the local node at startup.
use vstd::prelude::*;
use crate::config::BASE_DRIVER_PORT;
use crate::messages::ElevatorId;

verus! {

/// The identifier of simulated elevator number `n`, for running several
/// elevators on one machine: five zero bytes and then `n`.
pub fn elevator_id_from_slot(n: u8) -> (id: ElevatorId)
    ensures
        id == [0u8, 0u8, 0u8, 0u8, 0u8, n],
{
    [0, 0, 0, 0, 0, n]
}

/// The port of the elevator driver of elevator `id`: the base port plus the
/// last byte of the identifier.
pub fn driver_port(id: &ElevatorId) -> (port: u32)
    ensures
        port == BASE_DRIVER_PORT + id[5],
{
    BASE_DRIVER_PORT + id[5] as u32
}

} // verus!
