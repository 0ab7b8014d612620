//! A simpler door-and-motor state machine that serves one floor at a time.
//!
//! It moves to a commanded floor, opens the door there, keeps the door open
//! while the obstruction switch is active and reports when it is idle again.
//! Hardware readings (the floor sensor and the obstruction switch) come in as
//! arguments; what to do with the hardware comes out as an `FsmOutput`.
use vstd::prelude::*;
use crate::elevator::Direction;

verus! {

/// Commands to the state machine.
#[derive(Clone, Copy, Debug, PartialEq, Eq, Structural)]
pub enum Command {
    GoToFloor(u8),
    OpenDoor,
    Stop,
}

/// Events of the state machine, from the hardware or reported by it.
#[derive(Clone, Copy, Debug, PartialEq, Eq, Structural)]
pub enum FsmEvent {
    AtFloor(u8),
    DoorTimeout,
    Obstruction(bool),
    Idle,
}

/// State of the elevator.
#[derive(Clone, Copy, Debug, PartialEq, Eq, Structural)]
pub enum ElevatorState {
    Idle,
    Moving { target: u8 },
    DoorOpen,
    Stop,
}

/// What the state machine does with the hardware, in the order in which it
/// is done.
#[derive(Clone, Copy, Debug, PartialEq, Eq, Structural)]
pub struct FsmOutput {
    /// Floor to show on the floor indicator.
    pub floor_indicator: Option<u8>,
    /// Motor direction to command.
    pub motor: Option<Direction>,
    /// Door light to set.
    pub door_light: Option<bool>,
    /// Floor whose three button lights to turn off.
    pub clear_lights_at: Option<u8>,
    /// Whether to start the door timer, which reports `DoorTimeout` after
    /// three seconds.
    pub start_door_timer: bool,
    /// Event to report to the order manager.
    pub notify: Option<FsmEvent>,
}

/// Doing nothing.
pub open spec fn nothing() -> FsmOutput {
    FsmOutput { floor_indicator: None, motor: None, door_light: None, clear_lights_at: None, start_door_timer: false, notify: None }
}

/// Opening the door at the floor that the sensor reads: stop, light the
/// door, clear the button lights there, start the door timer.
pub open spec fn door_opening(sensor_floor: u8, base: FsmOutput) -> FsmOutput {
    FsmOutput {
        motor: Some(Direction::Stop),
        door_light: Some(true),
        clear_lights_at: Some(sensor_floor),
        start_door_timer: true,
        ..base
    }
}

/// The next state and output after command `cmd` in `state`, with the floor
/// sensor reading `sensor`.
pub open spec fn command_step(state: ElevatorState, cmd: Command, sensor: Option<u8>) -> (ElevatorState, FsmOutput) {
    match (state, cmd) {
        (ElevatorState::Idle, Command::GoToFloor(target)) => match sensor {
            None => (state, nothing()),
            Some(current) => if target > current {
                (ElevatorState::Moving { target }, FsmOutput { motor: Some(Direction::Up), ..nothing() })
            } else if target < current {
                (ElevatorState::Moving { target }, FsmOutput { motor: Some(Direction::Down), ..nothing() })
            } else {
                (ElevatorState::DoorOpen, door_opening(current, nothing()))
            },
        },
        (ElevatorState::Idle, Command::OpenDoor) => (ElevatorState::DoorOpen, door_opening(sensor->0, nothing())),
        (ElevatorState::Moving { .. }, Command::Stop) => (ElevatorState::Idle, FsmOutput { motor: Some(Direction::Stop), ..nothing() }),
        (ElevatorState::DoorOpen, Command::OpenDoor) => (state, FsmOutput { start_door_timer: true, ..nothing() }),
        _ => (state, nothing()),
    }
}

/// Whether command `cmd` in `state` opens the door without reading a floor
/// first, so that the floor sensor must read a floor.
pub open spec fn command_needs_floor(state: ElevatorState, cmd: Command) -> bool {
    state == ElevatorState::Idle && cmd == Command::OpenDoor
}

/// The next state and output after event `event` in `state`, with the floor
/// sensor reading `sensor` and the obstruction switch reading `obstructed`.
pub open spec fn event_step(state: ElevatorState, event: FsmEvent, sensor: Option<u8>, obstructed: bool) -> (ElevatorState, FsmOutput) {
    match (state, event) {
        (ElevatorState::Moving { target }, FsmEvent::AtFloor(floor)) => if floor == target {
            (ElevatorState::DoorOpen, door_opening(sensor->0, FsmOutput {
                floor_indicator: Some(floor),
                notify: Some(FsmEvent::AtFloor(floor)),
                ..nothing()
            }))
        } else {
            (state, FsmOutput { floor_indicator: Some(floor), ..nothing() })
        },
        (ElevatorState::DoorOpen, FsmEvent::DoorTimeout) => if obstructed {
            (state, FsmOutput { start_door_timer: true, ..nothing() })
        } else {
            (ElevatorState::Idle, FsmOutput { door_light: Some(false), notify: Some(FsmEvent::Idle), ..nothing() })
        },
        _ => (state, nothing()),
    }
}

/// Whether event `event` in `state` opens the door, so that the floor sensor
/// must read a floor.
pub open spec fn event_needs_floor(state: ElevatorState, event: FsmEvent) -> bool {
    match (state, event) {
        (ElevatorState::Moving { target }, FsmEvent::AtFloor(floor)) => floor == target,
        _ => false,
    }
}

/// The state machine.
pub struct Fsm {
    pub state: ElevatorState,
}

impl Fsm {
    /// A machine in the idle state.
    pub fn new() -> (f: Fsm)
        ensures
            f.state == ElevatorState::Idle,
    {
        Fsm { state: ElevatorState::Idle }
    }

    /// Opens the door at the floor the sensor reads.
    fn open_door(&mut self, sensor_floor: u8, out: &mut FsmOutput)
        ensures
            final(self).state == ElevatorState::DoorOpen,
            *final(out) == door_opening(sensor_floor, *old(out)),
    {
        out.motor = Some(Direction::Stop);
        out.door_light = Some(true);
        out.clear_lights_at = Some(sensor_floor);
        out.start_door_timer = true;
        self.state = ElevatorState::DoorOpen;
    }

    /// Handles a command, with the current floor sensor reading.
    ///
    /// When idle, `GoToFloor` starts the motor towards the target, or opens
    /// the door when the elevator is there already, and does nothing when the
    /// sensor reads no floor; `OpenDoor` opens the door. When moving, `Stop`
    /// stops. When the door is open, `OpenDoor` restarts the door timer.
    /// Every other command is ignored.
    pub fn handle_command(&mut self, cmd: Command, sensor_floor: Option<u8>) -> (out: FsmOutput)
        requires
            command_needs_floor(old(self).state, cmd) ==> sensor_floor is Some,
        ensures
            (final(self).state, out) == command_step(old(self).state, cmd, sensor_floor),
    {
        let mut out = FsmOutput { floor_indicator: None, motor: None, door_light: None, clear_lights_at: None, start_door_timer: false, notify: None };
        match (self.state, cmd) {
            (ElevatorState::Idle, Command::GoToFloor(target)) => {
                let current_floor = match sensor_floor {
                    Some(f) => f,
                    None => {
                        return out;
                    },
                };
                if target > current_floor {
                    out.motor = Some(Direction::Up);
                    self.state = ElevatorState::Moving { target };
                } else if target < current_floor {
                    out.motor = Some(Direction::Down);
                    self.state = ElevatorState::Moving { target };
                } else {
                    self.open_door(current_floor, &mut out);
                }
            },
            (ElevatorState::Idle, Command::OpenDoor) => {
                let f = match sensor_floor {
                    Some(f) => f,
                    None => {
                        return out;
                    },
                };
                self.open_door(f, &mut out);
            },
            (ElevatorState::Moving { .. }, Command::Stop) => {
                out.motor = Some(Direction::Stop);
                self.state = ElevatorState::Idle;
            },
            (ElevatorState::DoorOpen, Command::OpenDoor) => {
                out.start_door_timer = true;
            },
            (_, _) => {},
        }
        out
    }

    /// Handles an event, with the current floor sensor and obstruction
    /// switch readings.
    ///
    /// When moving, arriving at the target stops the elevator, opens the door
    /// and reports the arrival; every arrival is shown on the floor
    /// indicator. When the door is open, a door timeout restarts the timer if
    /// the door is obstructed, and otherwise closes the door, makes the
    /// elevator idle and reports that. Every other event is ignored.
    pub fn handle_event(&mut self, event: FsmEvent, sensor_floor: Option<u8>, obstructed: bool) -> (out: FsmOutput)
        requires
            event_needs_floor(old(self).state, event) ==> sensor_floor is Some,
        ensures
            (final(self).state, out) == event_step(old(self).state, event, sensor_floor, obstructed),
    {
        let mut out = FsmOutput { floor_indicator: None, motor: None, door_light: None, clear_lights_at: None, start_door_timer: false, notify: None };
        match (self.state, event) {
            (ElevatorState::Moving { target }, FsmEvent::AtFloor(floor)) => {
                out.floor_indicator = Some(floor);
                if floor == target {
                    let f = match sensor_floor {
                        Some(f) => f,
                        None => {
                            return out;
                        },
                    };
                    self.open_door(f, &mut out);
                    out.notify = Some(FsmEvent::AtFloor(floor));
                }
            },
            (ElevatorState::DoorOpen, FsmEvent::DoorTimeout) => {
                if obstructed {
                    out.start_door_timer = true;
                } else {
                    out.door_light = Some(false);
                    self.state = ElevatorState::Idle;
                    out.notify = Some(FsmEvent::Idle);
                }
            },
            _ => {},
        }
        out
    }

    /// Whether the machine is idle.
    pub fn is_idle(&self) -> (r: bool)
        ensures
            r == (self.state == ElevatorState::Idle),
    {
        match self.state {
            ElevatorState::Idle => true,
            _ => false,
        }
    }
}

/// The door opens only where the elevator stands still: every step that
/// lights the door also stops the motor, and the door stays lit while the
/// obstruction switch is active.
pub proof fn lemma_door_opens_only_stopped(state: ElevatorState, cmd: Command, event: FsmEvent, sensor: Option<u8>, obstructed: bool)
    ensures
        command_step(state, cmd, sensor).1.door_light == Some(true) ==> command_step(state, cmd, sensor).1.motor == Some(Direction::Stop),
        event_step(state, event, sensor, obstructed).1.door_light == Some(true)
            ==> event_step(state, event, sensor, obstructed).1.motor == Some(Direction::Stop),
        state == ElevatorState::DoorOpen && obstructed ==> event_step(state, FsmEvent::DoorTimeout, sensor, obstructed).0 == ElevatorState::DoorOpen
            && event_step(state, FsmEvent::DoorTimeout, sensor, obstructed).1.door_light is None,
{
}

} // verus!
