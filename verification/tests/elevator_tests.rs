use elevator::config::{CAB, HALL_DOWN, HALL_UP};
use elevator::elevator::{
    Behaviour, Direction, Elevator, ElevatorEvent, ElevatorManager, ElevatorState, TimerCommand,
};
use elevator::messages::{Call, CallId, CallSet, MsgToElevatorManager};

const ME: [u8; 6] = [0, 0, 0, 0, 0, 1];

fn call(seq: u64, floor: u8, call_type: u8) -> Call {
    Call { call_id: CallId { elevator_id: ME, seq }, floor, call_type }
}

fn set_of(calls: &[Call]) -> CallSet {
    let mut s = CallSet::new();
    for c in calls {
        s.insert(*c);
    }
    s
}

fn members(s: &CallSet) -> Vec<Call> {
    let mut v = Vec::new();
    for i in 0..s.num_stored() {
        v.push(s.get(i));
    }
    v.sort_by_key(|c| (c.call_id.seq, c.floor, c.call_type));
    v
}

fn elevator_at(floor: u8, direction: Direction, calls: &[Call]) -> Elevator {
    let mut e = Elevator::new(floor, false);
    e.direction = direction;
    e.calls = set_of(calls);
    e
}

#[test]
fn behaviour_follows_state() {
    assert_eq!(ElevatorState::Idle.behaviour(), Behaviour::Idle);
    assert_eq!(ElevatorState::Moving.behaviour(), Behaviour::Moving);
    assert_eq!(ElevatorState::DoorOpen.behaviour(), Behaviour::DoorOpen);
}

#[test]
fn scan_keeps_direction_while_calls_remain_ahead() {
    let e = elevator_at(2, Direction::Up, &[call(0, 3, CAB), call(1, 0, CAB)]);
    assert!(e.has_calls_above());
    assert!(e.has_calls_below());
    assert_eq!(e.next_direction(), Direction::Up);
    let e = elevator_at(2, Direction::Down, &[call(0, 3, CAB), call(1, 0, CAB)]);
    assert_eq!(e.next_direction(), Direction::Down);
}

#[test]
fn scan_turns_when_nothing_remains_ahead() {
    let e = elevator_at(2, Direction::Up, &[call(1, 0, CAB)]);
    assert_eq!(e.next_direction(), Direction::Down);
    let e = elevator_at(2, Direction::Down, &[call(1, 3, CAB)]);
    assert_eq!(e.next_direction(), Direction::Up);
    let e = elevator_at(2, Direction::Stop, &[call(1, 0, CAB)]);
    assert_eq!(e.next_direction(), Direction::Down);
    let e = elevator_at(2, Direction::Stop, &[call(1, 3, CAB), call(2, 0, CAB)]);
    assert_eq!(e.next_direction(), Direction::Up);
}

#[test]
fn scan_stops_without_calls_elsewhere() {
    let e = elevator_at(2, Direction::Up, &[]);
    assert_eq!(e.next_direction(), Direction::Stop);
    let e = elevator_at(2, Direction::Stop, &[call(0, 2, CAB)]);
    assert_eq!(e.next_direction(), Direction::Stop);
}

#[test]
fn service_direction_prefers_travel_then_up_then_down() {
    let e = elevator_at(1, Direction::Down, &[call(0, 0, CAB), call(1, 1, HALL_UP)]);
    assert_eq!(e.service_direction(), Direction::Down);
    let e = elevator_at(1, Direction::Stop, &[call(1, 1, HALL_UP), call(2, 1, HALL_DOWN)]);
    assert_eq!(e.service_direction(), Direction::Up);
    let e = elevator_at(1, Direction::Up, &[call(2, 1, HALL_DOWN)]);
    assert_eq!(e.service_direction(), Direction::Down);
    let e = elevator_at(1, Direction::Up, &[call(2, 2, HALL_DOWN)]);
    assert_eq!(e.service_direction(), Direction::Up);
    let e = elevator_at(1, Direction::Stop, &[]);
    assert_eq!(e.service_direction(), Direction::Stop);
}

#[test]
fn cab_calls_here_are_always_served_hall_calls_only_in_direction() {
    let cab = call(0, 1, CAB);
    let down = call(1, 1, HALL_DOWN);
    let ahead = call(2, 3, CAB);
    let e = elevator_at(1, Direction::Up, &[cab, down, ahead]);
    assert!(e.should_serve_here());
    assert_eq!(members(&e.served_calls()), vec![cab]);
    let e = elevator_at(1, Direction::Up, &[down, ahead]);
    assert!(!e.should_serve_here());
    assert!(e.served_calls().is_empty());
    let e = elevator_at(1, Direction::Up, &[down]);
    assert!(e.should_serve_here());
    assert_eq!(members(&e.served_calls()), vec![down]);
}

#[test]
fn unknown_call_type_is_never_served() {
    let e = elevator_at(1, Direction::Stop, &[call(0, 1, 9)]);
    assert!(!e.should_serve_here());
}

#[test]
fn serve_current_floor_removes_served_calls() {
    let cab = call(0, 1, CAB);
    let other = call(1, 3, CAB);
    let mut e = elevator_at(1, Direction::Stop, &[cab, other]);
    let served = e.serve_current_floor();
    assert_eq!(members(&served), vec![cab]);
    assert_eq!(members(&e.calls), vec![other]);
}

#[test]
fn serve_next_action_moves_or_idles() {
    let mut e = elevator_at(1, Direction::Stop, &[call(0, 3, CAB)]);
    assert_eq!(e.serve_next_action(), Some(Direction::Up));
    assert_eq!(e.state, ElevatorState::Moving);
    let mut e = elevator_at(1, Direction::Stop, &[]);
    assert_eq!(e.serve_next_action(), None);
    assert_eq!(e.state, ElevatorState::Idle);
}

#[test]
fn local_status_reports_obstruction_or_timeout_as_fault() {
    let mut e = elevator_at(1, Direction::Stop, &[]);
    assert!(!e.local_status().has_faults);
    e.is_obstructed = true;
    assert!(e.local_status().has_faults);
    e.is_obstructed = false;
    e.travel_timeout = true;
    let s = e.local_status();
    assert!(s.has_faults);
    assert_eq!(s.floor, 1);
    assert_eq!(s.behaviour, Behaviour::Idle);
}

#[test]
fn new_calls_start_the_motor_and_travel_timer() {
    let mut m = ElevatorManager::new(0, false);
    let out = m.handle_event(ElevatorEvent::Message(MsgToElevatorManager::ActiveCalls(set_of(&[call(0, 2, CAB)]))));
    assert_eq!(out.motor, Some(Direction::Up));
    assert_eq!(out.travel_timer, TimerCommand::Start);
    assert_eq!(m.elevator.state, ElevatorState::Moving);
    assert!(m.travel_timer_active);
    let status = out.status.expect("status");
    assert_eq!(status.behaviour, Behaviour::Moving);
    assert_eq!(status.direction, Direction::Up);
}

#[test]
fn new_call_at_current_floor_opens_the_door() {
    let c = call(0, 0, CAB);
    let mut m = ElevatorManager::new(0, false);
    let out = m.handle_event(ElevatorEvent::Message(MsgToElevatorManager::ActiveCalls(set_of(&[c]))));
    assert_eq!(members(&out.served), vec![c]);
    assert!(out.open_door);
    assert_eq!(out.door_timer, TimerCommand::Start);
    assert_eq!(m.elevator.state, ElevatorState::DoorOpen);
    assert!(m.elevator.calls.is_empty());
}

#[test]
fn arrival_at_a_called_floor_stops_serves_and_opens() {
    let c = call(0, 2, CAB);
    let mut m = ElevatorManager::new(0, false);
    m.handle_event(ElevatorEvent::Message(MsgToElevatorManager::ActiveCalls(set_of(&[c]))));
    let out = m.handle_event(ElevatorEvent::Message(MsgToElevatorManager::AtFloor(1)));
    assert_eq!(out.floor_indicator, Some(1));
    assert_eq!(out.motor, None);
    assert_eq!(out.travel_timer, TimerCommand::Stop);
    assert_eq!(m.elevator.state, ElevatorState::Moving);
    let out = m.handle_event(ElevatorEvent::Message(MsgToElevatorManager::AtFloor(2)));
    assert_eq!(out.motor, Some(Direction::Stop));
    assert_eq!(members(&out.served), vec![c]);
    assert!(out.open_door);
    assert_eq!(m.elevator.state, ElevatorState::DoorOpen);
    assert!(m.door_timer_active);
    assert_eq!(out.status.expect("status").behaviour, Behaviour::DoorOpen);
}

#[test]
fn arrival_without_calls_stops() {
    let mut m = ElevatorManager::new(1, false);
    let out = m.handle_event(ElevatorEvent::Message(MsgToElevatorManager::AtFloor(2)));
    assert_eq!(out.motor, Some(Direction::Stop));
    assert_eq!(m.elevator.state, ElevatorState::Idle);
    assert_eq!(m.elevator.current_floor, 2);
}

#[test]
fn arrival_at_top_floor_stops_even_with_calls_elsewhere() {
    let mut m = ElevatorManager::new(0, false);
    m.elevator.calls = set_of(&[call(0, 1, CAB)]);
    m.elevator.state = ElevatorState::Moving;
    m.elevator.direction = Direction::Up;
    let out = m.handle_event(ElevatorEvent::Message(MsgToElevatorManager::AtFloor(3)));
    assert_eq!(out.motor, Some(Direction::Stop));
    assert_eq!(m.elevator.state, ElevatorState::Idle);
}

#[test]
fn obstructed_elevator_ignores_new_calls() {
    let mut m = ElevatorManager::new(0, true);
    let out = m.handle_event(ElevatorEvent::Message(MsgToElevatorManager::ActiveCalls(set_of(&[call(0, 2, CAB)]))));
    assert_eq!(out.motor, None);
    assert!(out.status.is_none());
    assert_eq!(m.elevator.state, ElevatorState::Idle);
    assert_eq!(members(&m.elevator.calls), vec![call(0, 2, CAB)]);
}

#[test]
fn obstruction_keeps_the_door_open() {
    let c = call(0, 0, CAB);
    let mut m = ElevatorManager::new(0, false);
    m.handle_event(ElevatorEvent::Message(MsgToElevatorManager::ActiveCalls(set_of(&[c]))));
    let out = m.handle_event(ElevatorEvent::Message(MsgToElevatorManager::Obstruction(true)));
    assert!(out.open_door);
    assert_eq!(out.door_timer, TimerCommand::Start);
    assert!(out.status.expect("status").has_faults);
    let out = m.handle_event(ElevatorEvent::DoorTimeout);
    assert!(!out.close_door);
    assert!(out.open_door);
    assert_eq!(out.door_timer, TimerCommand::Start);
    assert_eq!(m.elevator.state, ElevatorState::DoorOpen);
    assert!(out.status.is_none());
}

#[test]
fn door_timeout_closes_and_moves_on() {
    let here = call(0, 0, CAB);
    let up = call(1, 3, CAB);
    let mut m = ElevatorManager::new(0, false);
    m.handle_event(ElevatorEvent::Message(MsgToElevatorManager::ActiveCalls(set_of(&[here, up]))));
    assert_eq!(m.elevator.state, ElevatorState::DoorOpen);
    let out = m.handle_event(ElevatorEvent::DoorTimeout);
    assert!(out.close_door);
    assert_eq!(out.door_timer, TimerCommand::Stop);
    assert_eq!(out.motor, Some(Direction::Up));
    assert_eq!(out.travel_timer, TimerCommand::Start);
    assert_eq!(m.elevator.state, ElevatorState::Moving);
    assert!(!m.door_timer_active);
}

#[test]
fn door_timeout_without_calls_goes_idle() {
    let here = call(0, 0, CAB);
    let mut m = ElevatorManager::new(0, false);
    m.handle_event(ElevatorEvent::Message(MsgToElevatorManager::ActiveCalls(set_of(&[here]))));
    let out = m.handle_event(ElevatorEvent::DoorTimeout);
    assert!(out.close_door);
    assert_eq!(out.motor, None);
    assert_eq!(m.elevator.state, ElevatorState::Idle);
    assert_eq!(out.status.expect("status").behaviour, Behaviour::Idle);
}

#[test]
fn travel_timeout_reports_a_fault_until_the_next_floor() {
    let mut m = ElevatorManager::new(0, false);
    m.handle_event(ElevatorEvent::Message(MsgToElevatorManager::ActiveCalls(set_of(&[call(0, 3, CAB)]))));
    let out = m.handle_event(ElevatorEvent::TravelTimeout);
    assert_eq!(out.travel_timer, TimerCommand::Stop);
    assert!(out.status.expect("status").has_faults);
    assert!(m.elevator.travel_timeout);
    let out = m.handle_event(ElevatorEvent::Message(MsgToElevatorManager::AtFloor(1)));
    assert!(!out.status.expect("status").has_faults);
}

fn apply(active: bool, cmd: TimerCommand) -> bool {
    match cmd {
        TimerCommand::Keep => active,
        TimerCommand::Start => true,
        TimerCommand::Stop => false,
    }
}

#[test]
fn timer_commands_keep_runtime_timers_in_step_with_the_manager() {
    let mut m = ElevatorManager::new(0, false);
    let mut door = false;
    let mut travel = false;
    let events = vec![
        ElevatorEvent::Message(MsgToElevatorManager::ActiveCalls(set_of(&[call(0, 2, CAB), call(1, 0, CAB)]))),
        ElevatorEvent::Message(MsgToElevatorManager::AtFloor(1)),
        ElevatorEvent::TravelTimeout,
        ElevatorEvent::Message(MsgToElevatorManager::AtFloor(2)),
        ElevatorEvent::Message(MsgToElevatorManager::Obstruction(true)),
        ElevatorEvent::DoorTimeout,
        ElevatorEvent::Message(MsgToElevatorManager::Obstruction(false)),
        ElevatorEvent::DoorTimeout,
        ElevatorEvent::Message(MsgToElevatorManager::ActiveCalls(set_of(&[call(2, 0, CAB)]))),
        ElevatorEvent::Message(MsgToElevatorManager::AtFloor(1)),
        ElevatorEvent::Message(MsgToElevatorManager::AtFloor(0)),
        ElevatorEvent::DoorTimeout,
    ];
    for ev in events {
        let out = m.handle_event(ev);
        door = apply(door, out.door_timer);
        travel = apply(travel, out.travel_timer);
        assert_eq!(door, m.door_timer_active);
        assert_eq!(travel, m.travel_timer_active);
    }
}
