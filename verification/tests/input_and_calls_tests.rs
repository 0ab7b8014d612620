use elevator::call_manager::{all_active_calls, CallManager};
use elevator::config::{CAB, HALL_DOWN, HALL_UP};
use elevator::fault_handler::{FaultHandler, MsgToFaultHandler, SystemCommand};
use elevator::input::InputTracker;
use elevator::messages::{Call, CallId, CallSet, ElevatorStatus};
use elevator::world_view::WorldView;

const A: [u8; 6] = [0, 0, 0, 0, 0, 1];
const B: [u8; 6] = [0, 0, 0, 0, 0, 2];

fn call(origin: [u8; 6], seq: u64, floor: u8, call_type: u8) -> Call {
    Call { call_id: CallId { elevator_id: origin, seq }, floor, call_type }
}

fn set_of(calls: &[Call]) -> CallSet {
    let mut s = CallSet::new();
    for c in calls {
        s.insert(*c);
    }
    s
}

fn members(s: &CallSet) -> Vec<Call> {
    let mut v = Vec::new();
    for i in 0..s.num_stored() {
        v.push(s.get(i));
    }
    v.sort_by_key(|c| (c.call_id.elevator_id, c.call_id.seq, c.floor, c.call_type));
    v
}

fn sorted(mut v: Vec<Call>) -> Vec<Call> {
    v.sort_by_key(|c| (c.call_id.elevator_id, c.call_id.seq, c.floor, c.call_type));
    v
}

#[test]
fn new_tracker_has_seen_nothing() {
    let t = InputTracker::new(A, 4);
    assert_eq!(t.prev_buttons, vec![[false; 3]; 4]);
    assert_eq!(t.prev_floor, None);
    assert!(!t.prev_obstruction);
    assert_eq!(t.seq, 0);
}

#[test]
fn press_makes_one_call_and_holding_makes_none() {
    let mut t = InputTracker::new(A, 4);
    assert_eq!(t.on_button(2, HALL_UP, true), Some(call(A, 0, 2, HALL_UP)));
    assert_eq!(t.on_button(2, HALL_UP, true), None);
    assert_eq!(t.on_button(2, HALL_UP, false), None);
    assert_eq!(t.on_button(2, HALL_UP, true), Some(call(A, 1, 2, HALL_UP)));
    assert_eq!(t.on_button(0, CAB, true), Some(call(A, 2, 0, CAB)));
    assert_eq!(t.seq, 3);
}

#[test]
fn call_numbers_wrap_around() {
    let mut t = InputTracker::new(A, 4);
    t.seq = u64::MAX;
    assert_eq!(t.on_button(1, HALL_DOWN, true), Some(call(A, u64::MAX, 1, HALL_DOWN)));
    assert_eq!(t.seq, 0);
}

#[test]
fn floor_changes_are_reported_once() {
    let mut t = InputTracker::new(A, 4);
    assert_eq!(t.on_floor(Some(1)), Some(1));
    assert_eq!(t.on_floor(Some(1)), None);
    assert_eq!(t.on_floor(None), None);
    assert_eq!(t.prev_floor, None);
    assert_eq!(t.on_floor(None), None);
    assert_eq!(t.on_floor(Some(2)), Some(2));
}

#[test]
fn obstruction_changes_are_reported_once() {
    let mut t = InputTracker::new(A, 4);
    assert_eq!(t.on_obstruction(false), None);
    assert_eq!(t.on_obstruction(true), Some(true));
    assert_eq!(t.on_obstruction(true), None);
    assert_eq!(t.on_obstruction(false), Some(false));
}

fn two_elevator_world(a_hall: &[Call], b_hall: &[Call], a_cab: &[Call], b_known: &[Call]) -> WorldView {
    let mut a = ElevatorStatus::new(A, 0);
    a.hall_calls = set_of(a_hall);
    a.cab_calls = set_of(a_cab);
    let mut w = WorldView::new(a);
    let mut b = ElevatorStatus::new(B, 0);
    b.hall_calls = set_of(b_hall);
    b.known_cab_calls = set_of(b_known);
    w.insert_status(b);
    w
}

#[test]
fn call_manager_lights_new_and_darkens_old_hall_calls() {
    let h1 = call(A, 0, 1, HALL_UP);
    let h2 = call(B, 0, 2, HALL_DOWN);
    let cab = call(A, 1, 3, CAB);
    let mut m = CallManager::new(A);
    let w = two_elevator_world(&[h1], &[h1], &[cab], &[cab]);
    let u = m.on_new_world_view(&w);
    assert_eq!(members(&u.active_hall_calls), vec![h1]);
    assert_eq!(members(&u.active_cab_calls), vec![cab]);
    assert_eq!(members(&u.lights_on), sorted(vec![h1, cab]));
    assert!(u.lights_off.is_empty());

    let w = two_elevator_world(&[h2], &[h2], &[cab], &[cab]);
    let u = m.on_new_world_view(&w);
    assert_eq!(members(&u.lights_on), sorted(vec![h2, cab]));
    assert_eq!(members(&u.lights_off), vec![h1]);
    assert_eq!(members(&m.previous_active_hall_calls), vec![h2]);
}

#[test]
fn cab_call_not_yet_backed_up_is_not_lit() {
    let cab = call(A, 1, 3, CAB);
    let mut m = CallManager::new(A);
    let w = two_elevator_world(&[], &[], &[cab], &[]);
    let u = m.on_new_world_view(&w);
    assert!(u.active_cab_calls.is_empty());
    assert!(u.lights_on.is_empty());
}

#[test]
fn tracking_cab_calls_darkens_served_cab_calls() {
    let cab = call(A, 1, 3, CAB);
    let mut m = CallManager::new(A);
    let w = two_elevator_world(&[], &[], &[cab], &[cab]);
    let u = m.on_new_world_view_tracking_cab(&w);
    assert_eq!(members(&u.lights_on), vec![cab]);
    let u = m.on_new_world_view_tracking_cab(&w);
    assert!(u.lights_on.is_empty());
    assert!(u.lights_off.is_empty());
    let w = two_elevator_world(&[], &[], &[], &[cab]);
    let u = m.on_new_world_view_tracking_cab(&w);
    assert_eq!(members(&u.lights_off), vec![cab]);
    assert!(m.previous_active_cab_calls.is_empty());
}

#[test]
fn served_calls_are_cab_and_assigned_hall_calls() {
    let cab = call(A, 1, 3, CAB);
    let hall = call(B, 0, 1, HALL_UP);
    assert_eq!(members(&all_active_calls(&set_of(&[cab]), &set_of(&[hall]))), sorted(vec![cab, hall]));
}

#[test]
fn hall_lights_after_updates_match_active_calls() {
    let h1 = call(A, 0, 1, HALL_UP);
    let h2 = call(B, 0, 2, HALL_DOWN);
    let mut m = CallManager::new(A);
    let mut lit: Vec<Call> = Vec::new();
    for (a, b) in [(vec![h1, h2], vec![h1, h2]), (vec![h2], vec![h2]), (vec![], vec![h1])] {
        let w = two_elevator_world(&a, &b, &[], &[]);
        let u = m.on_new_world_view(&w);
        lit.extend(members(&u.lights_on));
        let off = members(&u.lights_off);
        lit.retain(|c| !off.contains(c));
        assert_eq!(sorted(lit.clone()), members(&u.active_hall_calls));
    }
}

#[test]
fn fault_handler_requests_restart_once() {
    let mut h = FaultHandler::new();
    assert!(matches!(h.handle(MsgToFaultHandler::FaultDetected), Some(SystemCommand::Restart)));
    assert!(h.handle(MsgToFaultHandler::FaultDetected).is_none());
    assert!(h.restarting);
}

#[test]
fn calls_are_numbered_in_order_from_zero() {
    let mut t = InputTracker::new(B, 4);
    let mut made = Vec::new();
    let readings = [
        (0, HALL_UP, true),
        (0, HALL_UP, true),
        (3, CAB, true),
        (0, HALL_UP, false),
        (1, HALL_DOWN, true),
        (0, HALL_UP, true),
    ];
    for (floor, call_type, pressed) in readings {
        if let Some(c) = t.on_button(floor, call_type, pressed) {
            made.push(c);
        }
        t.on_floor(Some(floor));
    }
    let seqs: Vec<u64> = made.iter().map(|c| c.call_id.seq).collect();
    assert_eq!(seqs, vec![0, 1, 2, 3]);
    assert!(made.iter().all(|c| c.call_id.elevator_id == B));
    assert_eq!(t.seq, 4);
}
