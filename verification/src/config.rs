//! Static parameters of the elevator system, kept in one place.
use vstd::prelude::*;

verus! {

/// Number of floors served by the elevator.
pub const ELEVATOR_NUM_FLOORS: u8 = 4;

/// The lowest floor.
pub const BOTTOM_FLOOR: u8 = 0;

/// The highest floor.
pub const TOP_FLOOR: u8 = ELEVATOR_NUM_FLOORS - 1;

/// Milliseconds between two polls of the elevator hardware.
pub const ELEVATOR_POLL_MS: u64 = 25;

/// TCP port of the first elevator driver; elevator `n` uses this plus `n`.
pub const BASE_DRIVER_PORT: u32 = 15657;

/// UDP port on which elevator states are broadcast.
pub const UDP_BROADCAST_PORT: u16 = 30000;

/// Milliseconds the door stays open.
pub const DOOR_TIMEOUT_MS: u64 = 3000;

/// Milliseconds the elevator may travel between two floors before it is
/// considered faulty.
pub const TRAVEL_TIMEOUT_MS: u64 = 6000;

/// Milliseconds of silence after which a remote elevator counts as disconnected.
pub const DISCONNECT_TIMEOUT_MS: u64 = 5000;

/// Button type of a hall call going up, as the elevator hardware numbers it.
pub const HALL_UP: u8 = 0;

/// Button type of a hall call going down, as the elevator hardware numbers it.
pub const HALL_DOWN: u8 = 1;

/// Button type of a call made inside the cab, as the elevator hardware numbers it.
pub const CAB: u8 = 2;

} // verus!
