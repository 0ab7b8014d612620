//! The local elevator: its state, its scheduling rules and its manager.
use vstd::prelude::*;
use crate::config::{BOTTOM_FLOOR, CAB, HALL_DOWN, HALL_UP, TOP_FLOOR};
use crate::messages::{Call, CallSet, LocalElevatorStatus, MsgToElevatorManager};

verus! {

/// Behaviour of an elevator as reported to the other elevators.
#[derive(Clone, Copy, Debug, PartialEq, Eq, Structural)]
pub enum Behaviour {
    Idle,
    Moving,
    DoorOpen,
}

/// Direction of travel.
#[derive(Clone, Copy, Debug, PartialEq, Eq, Structural)]
pub enum Direction {
    Up,
    Down,
    Stop,
}

/// Physical state of the local elevator.
#[derive(Clone, Copy, Debug, PartialEq, Eq, Structural)]
pub enum ElevatorState {
    /// Stationary, waiting for calls.
    Idle,
    /// The motor runs.
    Moving,
    /// The door is open at a floor.
    DoorOpen,
}

impl ElevatorState {
    /// The behaviour that this state is reported as.
    pub open spec fn spec_behaviour(self) -> Behaviour {
        match self {
            ElevatorState::Idle => Behaviour::Idle,
            ElevatorState::Moving => Behaviour::Moving,
            ElevatorState::DoorOpen => Behaviour::DoorOpen,
        }
    }

    /// Converts the state to the behaviour reported to the other elevators.
    pub fn behaviour(&self) -> (b: Behaviour)
        ensures
            b == self.spec_behaviour(),
    {
        match self {
            ElevatorState::Idle => Behaviour::Idle,
            ElevatorState::Moving => Behaviour::Moving,
            ElevatorState::DoorOpen => Behaviour::DoorOpen,
        }
    }
}


/// Whether call `c` is served at `floor` when the elevator serves in
/// direction `service`: cab calls always, hall calls only in their direction.
pub open spec fn serves(c: Call, floor: u8, service: Direction) -> bool {
    &&& c.floor == floor
    &&& (c.call_type == CAB || (c.call_type == HALL_UP && service == Direction::Up)
        || (c.call_type == HALL_DOWN && service == Direction::Down))
}

/// Some call in `calls` is above `floor`.
pub open spec fn calls_above(floor: u8, calls: Set<Call>) -> bool {
    exists|c: Call| calls.contains(c) && c.floor > floor
}

/// Some call in `calls` is below `floor`.
pub open spec fn calls_below(floor: u8, calls: Set<Call>) -> bool {
    exists|c: Call| calls.contains(c) && c.floor < floor
}

/// Some call in `calls` is a hall call of type `call_type` at `floor`.
pub open spec fn hall_call_at(floor: u8, calls: Set<Call>, call_type: u8) -> bool {
    exists|c: Call| calls.contains(c) && c.floor == floor && c.call_type == call_type
}

/// The SCAN rule: keep the direction of travel while calls remain ahead,
/// otherwise reverse towards the remaining calls, otherwise stop; from a
/// standstill, up is tried first.
pub open spec fn scan_direction(direction: Direction, floor: u8, calls: Set<Call>) -> Direction {
    if direction == Direction::Down {
        if calls_below(floor, calls) {
            Direction::Down
        } else if calls_above(floor, calls) {
            Direction::Up
        } else {
            Direction::Stop
        }
    } else if calls_above(floor, calls) {
        Direction::Up
    } else if calls_below(floor, calls) {
        Direction::Down
    } else {
        Direction::Stop
    }
}

/// The direction served at `floor`: the direction of travel while calls
/// remain ahead, otherwise that of a hall call at `floor`, up first.
pub open spec fn service_direction_of(direction: Direction, floor: u8, calls: Set<Call>) -> Direction {
    if direction == Direction::Up && calls_above(floor, calls) {
        Direction::Up
    } else if direction == Direction::Down && calls_below(floor, calls) {
        Direction::Down
    } else if hall_call_at(floor, calls, HALL_UP) {
        Direction::Up
    } else if hall_call_at(floor, calls, HALL_DOWN) {
        Direction::Down
    } else {
        Direction::Stop
    }
}

/// The calls served at `floor`.
pub open spec fn served_calls_of(direction: Direction, floor: u8, calls: Set<Call>) -> Set<Call> {
    Set::new(|c: Call| calls.contains(c) && serves(c, floor, service_direction_of(direction, floor, calls)))
}

/// The local elevator as the manager sees it, without the hardware handle.
pub struct Elevator {
    /// Current state.
    pub state: ElevatorState,
    /// The floor where the elevator is or last passed.
    pub current_floor: u8,
    /// Current direction of travel.
    pub direction: Direction,
    /// The calls assigned to this elevator, cab calls and hall calls.
    pub calls: CallSet,
    /// Whether the obstruction switch is active.
    pub is_obstructed: bool,
    /// Whether the elevator took too long between two floors, which keeps
    /// it from getting new assignments.
    pub travel_timeout: bool,
}

impl Elevator {
    /// Some assigned call is above the current floor.
    pub open spec fn spec_has_calls_above(&self) -> bool {
        calls_above(self.current_floor, self.calls@)
    }

    /// Some assigned call is below the current floor.
    pub open spec fn spec_has_calls_below(&self) -> bool {
        calls_below(self.current_floor, self.calls@)
    }

    /// Some assigned hall call of type `call_type` is at the current floor.
    pub open spec fn spec_has_hall_call_here(&self, call_type: u8) -> bool {
        hall_call_at(self.current_floor, self.calls@, call_type)
    }

    /// The direction chosen by the SCAN rule.
    pub open spec fn spec_next_direction(&self) -> Direction {
        scan_direction(self.direction, self.current_floor, self.calls@)
    }

    /// The direction served at the current floor.
    pub open spec fn spec_service_direction(&self) -> Direction {
        service_direction_of(self.direction, self.current_floor, self.calls@)
    }

    /// The assigned calls that are served at the current floor.
    pub open spec fn spec_served_calls(&self) -> Set<Call> {
        served_calls_of(self.direction, self.current_floor, self.calls@)
    }

    /// A new elevator at `initial_floor`, idle, with no calls.
    pub fn new(initial_floor: u8, is_obstructed: bool) -> (e: Elevator)
        ensures
            e.state == ElevatorState::Idle,
            e.current_floor == initial_floor,
            e.direction == Direction::Stop,
            e.calls@ == Set::<Call>::empty(),
            e.is_obstructed == is_obstructed,
            !e.travel_timeout,
    {
        Elevator {
            state: ElevatorState::Idle,
            current_floor: initial_floor,
            direction: Direction::Stop,
            calls: CallSet::new(),
            is_obstructed,
            travel_timeout: false,
        }
    }

    /// Returns true if there are calls above the current floor.
    pub fn has_calls_above(&self) -> (r: bool)
        ensures
            r == self.spec_has_calls_above(),
    {
        let n = self.calls.num_stored();
        for i in 0..n
            invariant
                n == self.calls.elems().len(),
                forall|j: int| 0 <= j < i ==> self.calls.elems()[j].floor <= self.current_floor,
        {
            let c = self.calls.get(i);
            if c.floor > self.current_floor {
                assert(self.calls@.contains(c));
                return true;
            }
        }
        assert forall|c: Call| self.calls@.contains(c) implies c.floor <= self.current_floor by {
            let j = choose|j: int| 0 <= j < self.calls.elems().len() && self.calls.elems()[j] == c;
        }
        false
    }

    /// Returns true if there are calls below the current floor.
    pub fn has_calls_below(&self) -> (r: bool)
        ensures
            r == self.spec_has_calls_below(),
    {
        let n = self.calls.num_stored();
        for i in 0..n
            invariant
                n == self.calls.elems().len(),
                forall|j: int| 0 <= j < i ==> self.calls.elems()[j].floor >= self.current_floor,
        {
            let c = self.calls.get(i);
            if c.floor < self.current_floor {
                assert(self.calls@.contains(c));
                return true;
            }
        }
        assert forall|c: Call| self.calls@.contains(c) implies c.floor >= self.current_floor by {
            let j = choose|j: int| 0 <= j < self.calls.elems().len() && self.calls.elems()[j] == c;
        }
        false
    }

    /// Whether a hall call of type `call_type` is assigned at the current floor.
    fn has_hall_call_here(&self, call_type: u8) -> (r: bool)
        ensures
            r == self.spec_has_hall_call_here(call_type),
    {
        let n = self.calls.num_stored();
        for i in 0..n
            invariant
                n == self.calls.elems().len(),
                forall|j: int| 0 <= j < i ==> !(self.calls.elems()[j].floor == self.current_floor
                    && self.calls.elems()[j].call_type == call_type),
        {
            let c = self.calls.get(i);
            if c.floor == self.current_floor && c.call_type == call_type {
                assert(self.calls@.contains(c));
                return true;
            }
        }
        assert forall|c: Call| self.calls@.contains(c) implies !(c.floor == self.current_floor && c.call_type == call_type) by {
            let j = choose|j: int| 0 <= j < self.calls.elems().len() && self.calls.elems()[j] == c;
        }
        false
    }

    /// Determines the next direction with a SCAN-like strategy: the elevator
    /// continues in its direction while calls remain ahead; when none remain
    /// there it reverses towards the remaining calls, and it stops when no
    /// call remains elsewhere.
    pub fn next_direction(&self) -> (d: Direction)
        ensures
            d == self.spec_next_direction(),
    {
        if self.direction == Direction::Down {
            if self.has_calls_below() {
                Direction::Down
            } else if self.has_calls_above() {
                Direction::Up
            } else {
                Direction::Stop
            }
        } else if self.has_calls_above() {
            Direction::Up
        } else if self.has_calls_below() {
            Direction::Down
        } else {
            Direction::Stop
        }
    }

    /// Determines the direction served at the current floor, which decides
    /// which hall calls are served while stopping here.
    pub fn service_direction(&self) -> (d: Direction)
        ensures
            d == self.spec_service_direction(),
    {
        if self.direction == Direction::Up && self.has_calls_above() {
            return Direction::Up;
        }
        if self.direction == Direction::Down && self.has_calls_below() {
            return Direction::Down;
        }
        let has_up = self.has_hall_call_here(HALL_UP);
        let has_down = self.has_hall_call_here(HALL_DOWN);
        if has_up {
            Direction::Up
        } else if has_down {
            Direction::Down
        } else {
            Direction::Stop
        }
    }

    /// Whether call `c` is served here in direction `service`.
    fn serves_here(&self, c: &Call, service: Direction) -> (r: bool)
        ensures
            r == serves(*c, self.current_floor, service),
    {
        c.floor == self.current_floor && (c.call_type == CAB || (c.call_type == HALL_UP && service
            == Direction::Up) || (c.call_type == HALL_DOWN && service == Direction::Down))
    }

    /// Whether the elevator should serve calls at the current floor: a cab
    /// call here, or a hall call here in the service direction.
    pub fn should_serve_here(&self) -> (r: bool)
        ensures
            r == (exists|c: Call| self.calls@.contains(c) && serves(c, self.current_floor, self.spec_service_direction())),
    {
        let service = self.service_direction();
        let n = self.calls.num_stored();
        for i in 0..n
            invariant
                n == self.calls.elems().len(),
                service == self.spec_service_direction(),
                forall|j: int| 0 <= j < i ==> !serves(self.calls.elems()[j], self.current_floor, service),
        {
            let c = self.calls.get(i);
            if self.serves_here(&c, service) {
                assert(self.calls@.contains(c));
                return true;
            }
        }
        assert forall|c: Call| self.calls@.contains(c) implies !serves(c, self.current_floor, service) by {
            let j = choose|j: int| 0 <= j < self.calls.elems().len() && self.calls.elems()[j] == c;
        }
        false
    }

    /// The calls that are served at the current floor, by the rules of
    /// `should_serve_here`.
    pub fn served_calls(&self) -> (r: CallSet)
        ensures
            r@ == self.spec_served_calls(),
    {
        let service = self.service_direction();
        let mut r = CallSet::new();
        let n = self.calls.num_stored();
        for i in 0..n
            invariant
                n == self.calls.elems().len(),
                service == self.spec_service_direction(),
                r@ == Set::new(|c: Call| (exists|j: int| 0 <= j < i && self.calls.elems()[j] == c)
                    && serves(c, self.current_floor, service)),
        {
            let c = self.calls.get(i);
            let ghost prev = r@;
            if self.serves_here(&c, service) {
                r.insert(c);
            }
            assert(r@ =~= Set::new(|x: Call| (exists|j: int| 0 <= j < i + 1 && self.calls.elems()[j] == x)
                && serves(x, self.current_floor, service))) by {
                assert forall|x: Call| (exists|j: int| 0 <= j < i + 1 && self.calls.elems()[j] == x)
                    && serves(x, self.current_floor, service) implies r@.contains(x) by {
                    let j = choose|j: int| 0 <= j < i + 1 && self.calls.elems()[j] == x;
                    if j < i {
                        assert(prev.contains(x));
                    }
                }
                assert forall|x: Call| r@.contains(x) implies (exists|j: int| 0 <= j < i + 1 && self.calls.elems()[j] == x)
                    && serves(x, self.current_floor, service) by {
                    if prev.contains(x) {
                        let j = choose|j: int| 0 <= j < i && self.calls.elems()[j] == x;
                        assert(0 <= j < i + 1);
                    } else {
                        assert(self.calls.elems()[i as int] == x);
                    }
                }
            }
        }
        assert(r@ =~= self.spec_served_calls());
        r
    }
}

impl Elevator {
    /// Stops the elevator: the state becomes idle. The caller stops the motor.
    pub fn stop(&mut self)
        ensures
            final(self).state == ElevatorState::Idle,
            final(self).current_floor == old(self).current_floor,
            final(self).direction == old(self).direction,
            final(self).calls == old(self).calls,
            final(self).is_obstructed == old(self).is_obstructed,
            final(self).travel_timeout == old(self).travel_timeout,
    {
        self.state = ElevatorState::Idle;
    }

    /// Decides the next movement: sets the direction by the SCAN rule and
    /// the state to moving, or to idle when there is nowhere to go. Returns
    /// the motor direction to command, if the elevator shall move.
    pub fn serve_next_action(&mut self) -> (motor: Option<Direction>)
        ensures
            final(self).direction == old(self).spec_next_direction(),
            final(self).state == (if final(self).direction == Direction::Stop { ElevatorState::Idle } else { ElevatorState::Moving }),
            motor == (if final(self).direction == Direction::Stop { None } else { Some(final(self).direction) }),
            final(self).current_floor == old(self).current_floor,
            final(self).calls == old(self).calls,
            final(self).is_obstructed == old(self).is_obstructed,
            final(self).travel_timeout == old(self).travel_timeout,
    {
        self.direction = self.next_direction();
        match self.direction {
            Direction::Up => {
                self.state = ElevatorState::Moving;
                Some(Direction::Up)
            },
            Direction::Down => {
                self.state = ElevatorState::Moving;
                Some(Direction::Down)
            },
            Direction::Stop => {
                self.state = ElevatorState::Idle;
                None
            },
        }
    }

    /// Serves the calls at the current floor: they leave the assigned calls
    /// and are returned, to be reported as served.
    pub fn serve_current_floor(&mut self) -> (served: CallSet)
        ensures
            served@ == old(self).spec_served_calls(),
            final(self).calls@ == old(self).calls@.difference(old(self).spec_served_calls()),
            final(self).state == old(self).state,
            final(self).current_floor == old(self).current_floor,
            final(self).direction == old(self).direction,
            final(self).is_obstructed == old(self).is_obstructed,
            final(self).travel_timeout == old(self).travel_timeout,
    {
        let served = self.served_calls();
        self.calls.retain_where(&served, false);
        served
    }

    /// Opens the door: the state becomes door-open and the direction is set
    /// by the SCAN rule. The caller turns the door light on.
    pub fn open_door(&mut self)
        ensures
            final(self).state == ElevatorState::DoorOpen,
            final(self).direction == old(self).spec_next_direction(),
            final(self).current_floor == old(self).current_floor,
            final(self).calls == old(self).calls,
            final(self).is_obstructed == old(self).is_obstructed,
            final(self).travel_timeout == old(self).travel_timeout,
    {
        self.state = ElevatorState::DoorOpen;
        self.direction = self.next_direction();
    }

    /// The status reported to the world manager; a fault is an active
    /// obstruction or a travel timeout.
    pub fn local_status(&self) -> (s: LocalElevatorStatus)
        ensures
            s == status_report(self.current_floor, self.direction, self.state, self.is_obstructed, self.travel_timeout),
    {
        LocalElevatorStatus::new(
            self.current_floor,
            self.direction,
            self.state.behaviour(),
            self.is_obstructed || self.travel_timeout,
        )
    }
}

/// The status the local elevator reports.
pub open spec fn status_report(floor: u8, direction: Direction, state: ElevatorState, obstructed: bool, travel_timeout: bool) -> LocalElevatorStatus {
    LocalElevatorStatus { floor, direction, behaviour: state.spec_behaviour(), has_faults: obstructed || travel_timeout }
}

/// What to do with one of the manager's timers.
#[derive(Clone, Copy, Debug, PartialEq, Eq, Structural)]
pub enum TimerCommand {
    /// Leave it as it is.
    Keep,
    /// Start it, or start it again, with its full duration.
    Start,
    /// Disable it.
    Stop,
}

/// Whether a timer is running after `cmd`, when it was running iff `active`.
pub open spec fn timer_after(active: bool, cmd: TimerCommand) -> bool {
    match cmd {
        TimerCommand::Keep => active,
        TimerCommand::Start => true,
        TimerCommand::Stop => false,
    }
}

/// The elevator manager's state as a mathematical value.
pub struct ManagerModel {
    pub state: ElevatorState,
    pub current_floor: u8,
    pub direction: Direction,
    pub calls: Set<Call>,
    pub is_obstructed: bool,
    pub travel_timeout: bool,
    pub door_timer_active: bool,
    pub travel_timer_active: bool,
}

/// What the manager does in one step, as a mathematical value, in the order
/// in which it is done.
pub struct OutputModel {
    /// Floor to show on the floor indicator.
    pub floor_indicator: Option<u8>,
    /// Whether to turn the door light off.
    pub close_door: bool,
    /// Motor direction to command.
    pub motor: Option<Direction>,
    /// Calls to report as served.
    pub served: Set<Call>,
    /// Whether to turn the door light on.
    pub open_door: bool,
    /// What to do with the door timer.
    pub door_timer: TimerCommand,
    /// What to do with the travel timer.
    pub travel_timer: TimerCommand,
    /// Status to report to the world manager.
    pub status: Option<LocalElevatorStatus>,
}

/// An event that the manager reacts to, as a mathematical value.
pub enum EventModel {
    AtFloor(u8),
    ActiveCalls(Set<Call>),
    Obstruction(bool),
    DoorTimeout,
    TravelTimeout,
}

/// The status that model `m` reports.
pub open spec fn model_status(m: ManagerModel) -> LocalElevatorStatus {
    status_report(m.current_floor, m.direction, m.state, m.is_obstructed, m.travel_timeout)
}

/// Doing nothing.
pub open spec fn quiet() -> OutputModel {
    OutputModel {
        floor_indicator: None,
        close_door: false,
        motor: None,
        served: Set::empty(),
        open_door: false,
        door_timer: TimerCommand::Keep,
        travel_timer: TimerCommand::Keep,
        status: None,
    }
}

/// Whether some assigned call is served at the current floor.
pub open spec fn model_should_serve(m: ManagerModel) -> bool {
    exists|c: Call| m.calls.contains(c) && serves(c, m.current_floor, service_direction_of(m.direction, m.current_floor, m.calls))
}

/// The calls served at the current floor.
pub open spec fn model_served(m: ManagerModel) -> Set<Call> {
    served_calls_of(m.direction, m.current_floor, m.calls)
}

/// `m` after stopping.
pub open spec fn model_stopped(m: ManagerModel) -> ManagerModel {
    ManagerModel { state: ElevatorState::Idle, ..m }
}

/// `m` after serving the current floor and opening the door, with the door timer started.
pub open spec fn model_served_and_opened(m: ManagerModel) -> ManagerModel {
    let rest = m.calls.difference(model_served(m));
    ManagerModel {
        calls: rest,
        state: ElevatorState::DoorOpen,
        direction: scan_direction(m.direction, m.current_floor, rest),
        door_timer_active: true,
        ..m
    }
}

/// `m` after opening the door again, with the door timer started.
pub open spec fn model_opened(m: ManagerModel) -> ManagerModel {
    ManagerModel {
        state: ElevatorState::DoorOpen,
        direction: scan_direction(m.direction, m.current_floor, m.calls),
        door_timer_active: true,
        ..m
    }
}

/// `m` after choosing the next movement, with the travel timer started when it moves.
pub open spec fn model_next_action(m: ManagerModel) -> ManagerModel {
    let d = scan_direction(m.direction, m.current_floor, m.calls);
    ManagerModel {
        direction: d,
        state: if d == Direction::Stop { ElevatorState::Idle } else { ElevatorState::Moving },
        travel_timer_active: if d == Direction::Stop { m.travel_timer_active } else { true },
        ..m
    }
}

/// The output of serving the current floor of `m` and opening the door.
pub open spec fn serve_output(m: ManagerModel, base: OutputModel) -> OutputModel {
    OutputModel {
        served: model_served(m),
        open_door: true,
        door_timer: TimerCommand::Start,
        status: Some(model_status(model_served_and_opened(m))),
        ..base
    }
}

/// The output of choosing the next movement of `m`.
pub open spec fn move_output(m: ManagerModel, base: OutputModel) -> OutputModel {
    let n = model_next_action(m);
    OutputModel {
        motor: if n.direction == Direction::Stop { None } else { Some(n.direction) },
        travel_timer: if n.direction == Direction::Stop { base.travel_timer } else { TimerCommand::Start },
        status: Some(model_status(n)),
        ..base
    }
}

/// One step of the elevator manager: its next state and what it does.
///
/// - At a floor: show the floor, stop the travel timer, clear a travel
///   timeout; stop when there are no calls; when a call is served here, stop,
///   report the served calls, open the door and start the door timer; stop
///   at the bottom and top floors; report the status.
/// - New assigned calls: take them; unless obstructed, set the direction by
///   the SCAN rule and, when idle, serve the current floor and open the door,
///   or start moving and start the travel timer, and report the status.
/// - Obstruction change: record it; keep an open door open and restart its
///   timer; report the status.
/// - Door timeout: when obstructed, keep the door open and restart its timer;
///   otherwise set the direction, close the door, and either serve the
///   current floor and open the door again or start moving; report the status.
/// - Travel timeout: record the fault, stop the travel timer, report the status.
pub open spec fn manager_step(m: ManagerModel, ev: EventModel) -> (ManagerModel, OutputModel) {
    match ev {
        EventModel::AtFloor(f) => {
            let m1 = ManagerModel { current_floor: f, travel_timer_active: false, travel_timeout: false, ..m };
            let base = OutputModel { floor_indicator: Some(f), travel_timer: TimerCommand::Stop, ..quiet() };
            if m1.calls == Set::<Call>::empty() {
                let m2 = model_stopped(m1);
                (m2, OutputModel { motor: Some(Direction::Stop), status: Some(model_status(m2)), ..base })
            } else if model_should_serve(m1) {
                let m2 = model_stopped(m1);
                (model_served_and_opened(m2), serve_output(m2, OutputModel { motor: Some(Direction::Stop), ..base }))
            } else if f == BOTTOM_FLOOR || f == TOP_FLOOR {
                let m2 = model_stopped(m1);
                (m2, OutputModel { motor: Some(Direction::Stop), status: Some(model_status(m2)), ..base })
            } else {
                (m1, OutputModel { status: Some(model_status(m1)), ..base })
            }
        },
        EventModel::ActiveCalls(calls) => {
            let m1 = ManagerModel { calls, ..m };
            if m1.is_obstructed {
                (m1, quiet())
            } else {
                let m2 = ManagerModel { direction: scan_direction(m1.direction, m1.current_floor, m1.calls), ..m1 };
                if m2.state == ElevatorState::Idle {
                    if model_should_serve(m2) {
                        (model_served_and_opened(m2), serve_output(m2, quiet()))
                    } else {
                        (model_next_action(m2), move_output(m2, quiet()))
                    }
                } else {
                    (m2, quiet())
                }
            }
        },
        EventModel::Obstruction(b) => {
            let m1 = ManagerModel { is_obstructed: b, ..m };
            if b && m1.state == ElevatorState::DoorOpen {
                let m2 = model_opened(m1);
                (m2, OutputModel { open_door: true, door_timer: TimerCommand::Start, status: Some(model_status(m2)), ..quiet() })
            } else {
                (m1, OutputModel { status: Some(model_status(m1)), ..quiet() })
            }
        },
        EventModel::DoorTimeout => {
            let m0 = ManagerModel { door_timer_active: false, ..m };
            if m0.is_obstructed {
                (model_opened(m0), OutputModel { open_door: true, door_timer: TimerCommand::Start, ..quiet() })
            } else {
                let m1 = ManagerModel { direction: scan_direction(m0.direction, m0.current_floor, m0.calls), ..m0 };
                let base = OutputModel { close_door: true, door_timer: TimerCommand::Stop, ..quiet() };
                if model_should_serve(m1) {
                    (model_served_and_opened(m1), serve_output(m1, base))
                } else {
                    (model_next_action(m1), move_output(m1, base))
                }
            }
        },
        EventModel::TravelTimeout => {
            let m1 = ManagerModel { travel_timeout: true, travel_timer_active: false, ..m };
            (m1, OutputModel { travel_timer: TimerCommand::Stop, status: Some(model_status(m1)), ..quiet() })
        },
    }
}

/// An event that the elevator manager reacts to.
pub enum ElevatorEvent {
    /// A message from another task.
    Message(MsgToElevatorManager),
    /// The door timer expired.
    DoorTimeout,
    /// The travel timer expired: the elevator did not reach a floor in time.
    TravelTimeout,
}

impl ElevatorEvent {
    /// The event as a mathematical value.
    pub open spec fn model(&self) -> EventModel {
        match self {
            ElevatorEvent::Message(MsgToElevatorManager::AtFloor(f)) => EventModel::AtFloor(*f),
            ElevatorEvent::Message(MsgToElevatorManager::ActiveCalls(c)) => EventModel::ActiveCalls(c@),
            ElevatorEvent::Message(MsgToElevatorManager::Obstruction(b)) => EventModel::Obstruction(*b),
            ElevatorEvent::DoorTimeout => EventModel::DoorTimeout,
            ElevatorEvent::TravelTimeout => EventModel::TravelTimeout,
        }
    }
}

/// What the elevator manager does in one step, in the order in which the
/// runtime carries it out.
pub struct ElevatorOutput {
    /// Floor to show on the floor indicator.
    pub floor_indicator: Option<u8>,
    /// Whether to turn the door light off.
    pub close_door: bool,
    /// Motor direction to command.
    pub motor: Option<Direction>,
    /// Calls to report to the world manager as served.
    pub served: CallSet,
    /// Whether to turn the door light on.
    pub open_door: bool,
    /// What to do with the door timer.
    pub door_timer: TimerCommand,
    /// What to do with the travel timer.
    pub travel_timer: TimerCommand,
    /// Status to report to the world manager.
    pub status: Option<LocalElevatorStatus>,
}

impl ElevatorOutput {
    /// The output as a mathematical value.
    pub open spec fn model(&self) -> OutputModel {
        OutputModel {
            floor_indicator: self.floor_indicator,
            close_door: self.close_door,
            motor: self.motor,
            served: self.served@,
            open_door: self.open_door,
            door_timer: self.door_timer,
            travel_timer: self.travel_timer,
            status: self.status,
        }
    }

    /// Doing nothing.
    fn quiet() -> (o: ElevatorOutput)
        ensures
            o.model() == quiet(),
    {
        let o = ElevatorOutput {
            floor_indicator: None,
            close_door: false,
            motor: None,
            served: CallSet::new(),
            open_door: false,
            door_timer: TimerCommand::Keep,
            travel_timer: TimerCommand::Keep,
            status: None,
        };
        assert(o.model().served =~= Set::<Call>::empty());
        o
    }
}

/// The local elevator with the state of its door and travel timers.
pub struct ElevatorManager {
    pub elevator: Elevator,
    /// Whether the door timer runs.
    pub door_timer_active: bool,
    /// Whether the travel timer runs.
    pub travel_timer_active: bool,
}

impl ElevatorManager {
    /// The manager as a mathematical value.
    pub open spec fn model(&self) -> ManagerModel {
        ManagerModel {
            state: self.elevator.state,
            current_floor: self.elevator.current_floor,
            direction: self.elevator.direction,
            calls: self.elevator.calls@,
            is_obstructed: self.elevator.is_obstructed,
            travel_timeout: self.elevator.travel_timeout,
            door_timer_active: self.door_timer_active,
            travel_timer_active: self.travel_timer_active,
        }
    }

    /// A manager for an idle elevator at `initial_floor`, with no calls and
    /// no timer running.
    pub fn new(initial_floor: u8, is_obstructed: bool) -> (m: ElevatorManager)
        ensures
            m.model() == (ManagerModel {
                state: ElevatorState::Idle,
                current_floor: initial_floor,
                direction: Direction::Stop,
                calls: Set::empty(),
                is_obstructed,
                travel_timeout: false,
                door_timer_active: false,
                travel_timer_active: false,
            }),
    {
        ElevatorManager {
            elevator: Elevator::new(initial_floor, is_obstructed),
            door_timer_active: false,
            travel_timer_active: false,
        }
    }

    /// Serves the current floor, opens the door and starts the door timer.
    fn serve_and_open(&mut self, out: &mut ElevatorOutput)
        ensures
            final(self).model() == model_served_and_opened(old(self).model()),
            final(out).model() == serve_output(old(self).model(), old(out).model()),
    {
        let served = self.elevator.serve_current_floor();
        self.elevator.open_door();
        self.door_timer_active = true;
        out.served = served;
        out.open_door = true;
        out.door_timer = TimerCommand::Start;
        out.status = Some(self.elevator.local_status());
        assert(self.model() == model_served_and_opened(old(self).model()));
    }

    /// Chooses the next movement and starts the travel timer when moving.
    fn move_on(&mut self, out: &mut ElevatorOutput)
        ensures
            final(self).model() == model_next_action(old(self).model()),
            final(out).model() == move_output(old(self).model(), old(out).model()),
    {
        let motor = self.elevator.serve_next_action();
        if self.elevator.state == ElevatorState::Moving {
            self.travel_timer_active = true;
            out.travel_timer = TimerCommand::Start;
        }
        out.motor = motor;
        out.status = Some(self.elevator.local_status());
    }

    /// Handles one event: updates the elevator and says what to do.
    pub fn handle_event(&mut self, event: ElevatorEvent) -> (out: ElevatorOutput)
        ensures
            (final(self).model(), out.model()) == manager_step(old(self).model(), event.model()),
    {
        let ghost ev = event.model();
        let mut out = ElevatorOutput::quiet();
        match event {
            ElevatorEvent::Message(MsgToElevatorManager::AtFloor(floor)) => {
                self.elevator.current_floor = floor;
                out.floor_indicator = Some(floor);
                self.travel_timer_active = false;
                out.travel_timer = TimerCommand::Stop;
                self.elevator.travel_timeout = false;
                if self.elevator.calls.is_empty() {
                    self.elevator.stop();
                    out.motor = Some(Direction::Stop);
                } else if self.elevator.should_serve_here() {
                    self.elevator.stop();
                    out.motor = Some(Direction::Stop);
                    self.serve_and_open(&mut out);
                    return out;
                } else if floor == BOTTOM_FLOOR || floor == TOP_FLOOR {
                    self.elevator.stop();
                    out.motor = Some(Direction::Stop);
                }
                out.status = Some(self.elevator.local_status());
                out
            },
            ElevatorEvent::Message(MsgToElevatorManager::ActiveCalls(calls)) => {
                self.elevator.calls = calls;
                if self.elevator.is_obstructed {
                    return out;
                }
                self.elevator.direction = self.elevator.next_direction();
                if self.elevator.state == ElevatorState::Idle {
                    if self.elevator.should_serve_here() {
                        self.serve_and_open(&mut out);
                    } else {
                        self.move_on(&mut out);
                    }
                }
                out
            },
            ElevatorEvent::Message(MsgToElevatorManager::Obstruction(is_obstructed)) => {
                self.elevator.is_obstructed = is_obstructed;
                if is_obstructed && self.elevator.state == ElevatorState::DoorOpen {
                    self.elevator.open_door();
                    self.door_timer_active = true;
                    out.open_door = true;
                    out.door_timer = TimerCommand::Start;
                }
                out.status = Some(self.elevator.local_status());
                out
            },
            ElevatorEvent::DoorTimeout => {
                self.door_timer_active = false;
                if self.elevator.is_obstructed {
                    self.elevator.open_door();
                    self.door_timer_active = true;
                    out.open_door = true;
                    out.door_timer = TimerCommand::Start;
                    return out;
                }
                self.elevator.direction = self.elevator.next_direction();
                out.close_door = true;
                out.door_timer = TimerCommand::Stop;
                if self.elevator.should_serve_here() {
                    self.serve_and_open(&mut out);
                } else {
                    self.move_on(&mut out);
                }
                out
            },
            ElevatorEvent::TravelTimeout => {
                self.elevator.travel_timeout = true;
                self.travel_timer_active = false;
                out.travel_timer = TimerCommand::Stop;
                out.status = Some(self.elevator.local_status());
                out
            },
        }
    }
}

/// The manager's record of its timers follows the timer commands it gives:
/// a runtime that carries out every command has each timer running exactly
/// when the manager believes it is.
pub proof fn lemma_timers_follow_commands(m: ManagerModel, ev: EventModel)
    ensures
        manager_step(m, ev).0.door_timer_active == timer_after(m.door_timer_active, manager_step(m, ev).1.door_timer),
        manager_step(m, ev).0.travel_timer_active == timer_after(m.travel_timer_active, manager_step(m, ev).1.travel_timer),
{
}

/// The door never stays open without its timer: whenever the door is open,
/// the door timer runs, and every step keeps it so.
pub proof fn lemma_open_door_has_timer(m: ManagerModel, ev: EventModel)
    requires
        m.state == ElevatorState::DoorOpen ==> m.door_timer_active,
    ensures
        manager_step(m, ev).0.state == ElevatorState::DoorOpen ==> manager_step(m, ev).0.door_timer_active,
{
}

/// An obstructed door is never closed: when the door timer expires while the
/// obstruction is active, the door stays open, its light stays on, the motor
/// is left alone and the timer starts again.
pub proof fn lemma_obstruction_keeps_door_open(m: ManagerModel)
    requires
        m.is_obstructed,
        m.state == ElevatorState::DoorOpen,
    ensures
        manager_step(m, EventModel::DoorTimeout).0.state == ElevatorState::DoorOpen,
        !manager_step(m, EventModel::DoorTimeout).1.close_door,
        manager_step(m, EventModel::DoorTimeout).1.motor is None,
        manager_step(m, EventModel::DoorTimeout).1.door_timer == TimerCommand::Start,
{
}

/// An obstructed elevator never starts its motor: as long as the event does
/// not clear the obstruction, the motor is at most commanded to stop.
pub proof fn lemma_obstructed_never_starts_moving(m: ManagerModel, ev: EventModel)
    requires
        m.is_obstructed,
        !(ev is Obstruction),
    ensures
        manager_step(m, ev).1.motor is None || manager_step(m, ev).1.motor == Some(Direction::Stop),
{
}

/// The motor is never told to move in a step that opens the door.
pub proof fn lemma_no_motion_with_open_door(m: ManagerModel, ev: EventModel)
    ensures
        manager_step(m, ev).1.open_door ==> (manager_step(m, ev).1.motor is None
            || manager_step(m, ev).1.motor == Some(Direction::Stop)),
        manager_step(m, ev).0.state == ElevatorState::DoorOpen ==> manager_step(m, ev).1.motor != Some(Direction::Up)
            && manager_step(m, ev).1.motor != Some(Direction::Down),
{
}

/// Every call reported served was assigned, is at the floor where the
/// elevator now stands, and is no longer assigned.
pub proof fn lemma_served_calls_leave(m: ManagerModel, ev: EventModel)
    ensures
        forall|c: Call| #[trigger] manager_step(m, ev).1.served.contains(c) ==> {
            &&& (m.calls.contains(c) || (ev matches EventModel::ActiveCalls(cs) && cs.contains(c)))
            &&& c.floor == manager_step(m, ev).0.current_floor
            &&& !manager_step(m, ev).0.calls.contains(c)
        },
{
}

/// Whether calls are served at the current floor agrees with whether the
/// set of calls served there is non-empty; a cab call at the current floor
/// is always among them.
pub proof fn lemma_should_serve_iff_served(e: Elevator)
    ensures
        (exists|c: Call| e.calls@.contains(c) && serves(c, e.current_floor, e.spec_service_direction()))
            <==> e.spec_served_calls() != Set::<Call>::empty(),
        forall|c: Call| e.calls@.contains(c) && c.floor == e.current_floor && c.call_type == CAB
            ==> #[trigger] e.spec_served_calls().contains(c),
{
    if exists|c: Call| e.calls@.contains(c) && serves(c, e.current_floor, e.spec_service_direction()) {
        let c = choose|c: Call| e.calls@.contains(c) && serves(c, e.current_floor, e.spec_service_direction());
        assert(e.spec_served_calls().contains(c));
    }
    if e.spec_served_calls() != Set::<Call>::empty() {
        assert(!(e.spec_served_calls() =~= Set::<Call>::empty()));
        let c = choose|c: Call| e.spec_served_calls().contains(c);
        assert(e.calls@.contains(c) && serves(c, e.current_floor, e.spec_service_direction()));
    }
}

/// The SCAN rule only heads where there is work: it goes up only with a call
/// above, down only with a call below, never reverses while calls remain
/// ahead, reverses when none remain ahead but some remain behind, and stops
/// exactly when no call lies above or below.
pub proof fn lemma_scan_heads_to_calls(direction: Direction, floor: u8, calls: Set<Call>)
    ensures
        scan_direction(direction, floor, calls) == Direction::Up ==> calls_above(floor, calls),
        scan_direction(direction, floor, calls) == Direction::Down ==> calls_below(floor, calls),
        direction == Direction::Up && calls_above(floor, calls) ==> scan_direction(direction, floor, calls) == Direction::Up,
        direction == Direction::Down && calls_below(floor, calls) ==> scan_direction(direction, floor, calls) == Direction::Down,
        direction == Direction::Up && !calls_above(floor, calls) && calls_below(floor, calls)
            ==> scan_direction(direction, floor, calls) == Direction::Down,
        direction == Direction::Down && !calls_below(floor, calls) && calls_above(floor, calls)
            ==> scan_direction(direction, floor, calls) == Direction::Up,
        scan_direction(direction, floor, calls) == Direction::Stop <==> !calls_above(floor, calls) && !calls_below(floor, calls),
        calls == Set::<Call>::empty() ==> scan_direction(direction, floor, calls) == Direction::Stop,
{
}

/// Hall calls are served only in their own direction: a stop serves a
/// hall-up call only while the service direction is up and a hall-down call
/// only while it is down. Every call served is assigned, lies at the floor
/// and is of a known type, and a cab call at the floor is always served.
pub proof fn lemma_hall_calls_served_in_their_direction(direction: Direction, floor: u8, calls: Set<Call>, c: Call)
    ensures
        served_calls_of(direction, floor, calls).contains(c) && c.call_type == HALL_UP
            ==> service_direction_of(direction, floor, calls) == Direction::Up,
        served_calls_of(direction, floor, calls).contains(c) && c.call_type == HALL_DOWN
            ==> service_direction_of(direction, floor, calls) == Direction::Down,
        served_calls_of(direction, floor, calls).contains(c) ==> calls.contains(c) && c.floor == floor
            && (c.call_type == CAB || c.call_type == HALL_UP || c.call_type == HALL_DOWN),
        calls.contains(c) && c.floor == floor && c.call_type == CAB ==> served_calls_of(direction, floor, calls).contains(c),
{
}

/// While calls remain ahead in the direction of travel, a stop never serves
/// a hall call for the opposite direction: going down with calls below, an
/// arrival or a door timeout serves no hall-up call, and going up with calls
/// above, none for down.
pub proof fn lemma_no_hall_call_against_travel(m: ManagerModel, ev: EventModel, c: Call)
    requires
        ev matches EventModel::AtFloor(_) || ev is DoorTimeout,
        manager_step(m, ev).1.served.contains(c),
    ensures
        ({
            let floor = match ev { EventModel::AtFloor(f) => f, _ => m.current_floor };
            &&& m.direction == Direction::Down && (exists|d: Call| m.calls.contains(d) && d.floor < floor)
                ==> c.call_type != HALL_UP
            &&& m.direction == Direction::Up && (exists|d: Call| m.calls.contains(d) && d.floor > floor)
                ==> c.call_type != HALL_DOWN
        }),
{
}

/// New assigned calls never set a busy elevator in motion: unless it is idle,
/// the step neither moves the motor, nor opens the door, nor serves a call,
/// and the elevator stays in its state.
pub proof fn lemma_new_calls_leave_a_busy_elevator_be(m: ManagerModel, calls: Set<Call>)
    requires
        m.state != ElevatorState::Idle,
    ensures
        manager_step(m, EventModel::ActiveCalls(calls)).1.motor is None,
        !manager_step(m, EventModel::ActiveCalls(calls)).1.open_door,
        manager_step(m, EventModel::ActiveCalls(calls)).1.served == Set::<Call>::empty(),
        manager_step(m, EventModel::ActiveCalls(calls)).0.state == m.state,
        manager_step(m, EventModel::ActiveCalls(calls)).0.calls == calls,
{
}

/// The motor moves the elevator only with the door closed: a step that sets
/// the motor going up or down does not open the door, closes it when it was
/// open, and leaves the elevator moving.
pub proof fn lemma_motor_moves_only_with_door_closed(m: ManagerModel, ev: EventModel)
    requires
        manager_step(m, ev).1.motor == Some(Direction::Up) || manager_step(m, ev).1.motor == Some(Direction::Down),
    ensures
        !manager_step(m, ev).1.open_door,
        m.state == ElevatorState::DoorOpen ==> manager_step(m, ev).1.close_door,
        manager_step(m, ev).0.state == ElevatorState::Moving,
{
}

} // verus!
