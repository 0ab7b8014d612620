use elevator::config::{CAB, HALL_DOWN, HALL_UP};
use elevator::elevator::{Behaviour, Direction};
use elevator::messages::{
    Call, CallId, CallSet, ElevatorStatus, LocalElevatorStatus, MsgToWorldManager,
};
use elevator::world_view::WorldView;

const A: [u8; 6] = [0, 0, 0, 0, 0, 1];
const B: [u8; 6] = [0, 0, 0, 0, 0, 2];
const C: [u8; 6] = [0, 0, 0, 0, 0, 3];

fn call(origin: [u8; 6], seq: u64, floor: u8, call_type: u8) -> Call {
    Call { call_id: CallId { elevator_id: origin, seq }, floor, call_type }
}

fn set_of(calls: &[Call]) -> CallSet {
    let mut s = CallSet::new();
    for c in calls {
        s.insert(*c);
    }
    s
}

fn members(s: &CallSet) -> Vec<Call> {
    let mut v = Vec::new();
    for i in 0..s.num_stored() {
        v.push(s.get(i));
    }
    v.sort_by_key(|c| (c.call_id.elevator_id, c.call_id.seq, c.floor, c.call_type));
    v
}

fn sorted(mut v: Vec<Call>) -> Vec<Call> {
    v.sort_by_key(|c| (c.call_id.elevator_id, c.call_id.seq, c.floor, c.call_type));
    v
}

fn status_with(id: [u8; 6], hall: &[Call], served: &[Call]) -> ElevatorStatus {
    let mut s = ElevatorStatus::new(id, 0);
    s.hall_calls = set_of(hall);
    s.served_hall_calls = set_of(served);
    s
}

#[test]
fn new_world_view_holds_only_the_local_elevator() {
    let w = WorldView::new(ElevatorStatus::new(A, 2));
    assert_eq!(w.elevators().len(), 1);
    assert_eq!(w.elevators()[0].elevator_id, A);
    assert_eq!(w.elevators()[0].floor, 2);
    assert_eq!(w.connected_elevators().len(), 1);
}

#[test]
fn elevator_status_new_is_idle_and_empty() {
    let s = ElevatorStatus::new(B, 3);
    assert_eq!(s.behaviour, Behaviour::Idle);
    assert_eq!(s.direction, Direction::Stop);
    assert_eq!(s.floor, 3);
    assert!(s.cab_calls.is_empty());
    assert!(s.hall_calls.is_empty());
    assert!(s.served_hall_calls.is_empty());
    assert!(s.known_cab_calls.is_empty());
    assert!(!s.has_faults);
}

#[test]
fn hall_call_is_active_only_when_all_connected_hold_it() {
    let h1 = call(A, 0, 1, HALL_UP);
    let h2 = call(B, 0, 2, HALL_DOWN);
    let mut w = WorldView::new(status_with(A, &[h1, h2], &[]));
    w.insert_status(status_with(B, &[h1], &[]));
    assert_eq!(members(&w.active_hall_calls()), vec![h1]);
}

#[test]
fn served_hall_call_is_not_active() {
    let h1 = call(A, 0, 1, HALL_UP);
    let mut w = WorldView::new(status_with(A, &[h1], &[]));
    w.insert_status(status_with(B, &[h1], &[h1]));
    assert!(w.active_hall_calls().is_empty());
}

#[test]
fn disconnected_elevator_does_not_block_hall_calls() {
    let h1 = call(A, 0, 1, HALL_UP);
    let mut w = WorldView::new(status_with(A, &[h1], &[]));
    w.insert_status(status_with(B, &[], &[]));
    assert!(w.active_hall_calls().is_empty());
    w.add_disconnected(B);
    assert_eq!(members(&w.active_hall_calls()), vec![h1]);
    w.remove_disconnected(&B);
    assert!(w.active_hall_calls().is_empty());
}

#[test]
fn no_connected_elevator_means_no_active_hall_call() {
    let h1 = call(A, 0, 1, HALL_UP);
    let mut w = WorldView::new(status_with(A, &[h1], &[]));
    w.add_disconnected(A);
    assert!(w.active_hall_calls().is_empty());
}

#[test]
fn lone_elevator_has_all_cab_calls_active() {
    let c1 = call(A, 0, 3, CAB);
    let mut s = ElevatorStatus::new(A, 0);
    s.cab_calls = set_of(&[c1]);
    let w = WorldView::new(s);
    assert_eq!(members(&w.active_cab_calls(&A)), vec![c1]);
}

#[test]
fn cab_call_is_active_once_every_other_elevator_knows_it() {
    let c1 = call(A, 0, 3, CAB);
    let c2 = call(A, 1, 1, CAB);
    let mut s = ElevatorStatus::new(A, 0);
    s.cab_calls = set_of(&[c1, c2]);
    let mut w = WorldView::new(s);
    let mut b = ElevatorStatus::new(B, 0);
    b.known_cab_calls = set_of(&[c1]);
    w.insert_status(b);
    let mut c = ElevatorStatus::new(C, 0);
    c.known_cab_calls = set_of(&[c1, c2]);
    w.insert_status(c);
    assert_eq!(members(&w.active_cab_calls(&A)), vec![c1]);
    w.add_disconnected(B);
    assert_eq!(members(&w.active_cab_calls(&A)), sorted(vec![c1, c2]));
}

#[test]
fn merge_adds_unserved_calls_and_markers_of_held_calls() {
    let h1 = call(B, 0, 1, HALL_UP);
    let h2 = call(B, 1, 2, HALL_DOWN);
    let gone = call(B, 2, 3, HALL_DOWN);
    let mut w = WorldView::new(status_with(A, &[], &[]));
    w.insert_status(status_with(B, &[h1, h2], &[h2]));
    w.insert_status(status_with(C, &[], &[gone]));
    w.merge_hall_calls(&A);
    let local = w.local_elev(&A);
    assert_eq!(members(&local.hall_calls), vec![h1]);
    assert_eq!(members(&local.served_hall_calls), vec![h2]);
}

#[test]
fn merge_ignores_disconnected_elevators() {
    let h1 = call(B, 0, 1, HALL_UP);
    let mut w = WorldView::new(status_with(A, &[], &[]));
    w.insert_status(status_with(B, &[h1], &[]));
    w.add_disconnected(B);
    w.merge_hall_calls(&A);
    assert!(w.local_elev(&A).hall_calls.is_empty());
}

#[test]
fn merge_twice_is_the_same_as_once() {
    let h1 = call(B, 0, 1, HALL_UP);
    let h2 = call(C, 0, 2, HALL_DOWN);
    let mut w = WorldView::new(status_with(A, &[h2], &[]));
    w.insert_status(status_with(B, &[h1, h2], &[h2]));
    w.insert_status(status_with(C, &[h2], &[]));
    w.merge_hall_calls(&A);
    let hall_once = members(&w.local_elev(&A).hall_calls);
    let served_once = members(&w.local_elev(&A).served_hall_calls);
    w.merge_hall_calls(&A);
    assert_eq!(members(&w.local_elev(&A).hall_calls), hall_once);
    assert_eq!(members(&w.local_elev(&A).served_hall_calls), served_once);
}

#[test]
fn acknowledge_records_every_cab_call() {
    let c1 = call(A, 0, 1, CAB);
    let c2 = call(B, 0, 2, CAB);
    let c3 = call(C, 0, 3, CAB);
    let mut a = ElevatorStatus::new(A, 0);
    a.cab_calls = set_of(&[c1]);
    a.known_cab_calls = set_of(&[call(B, 9, 0, CAB)]);
    let mut w = WorldView::new(a);
    let mut b = ElevatorStatus::new(B, 0);
    b.cab_calls = set_of(&[c2]);
    w.insert_status(b);
    let mut c = ElevatorStatus::new(C, 0);
    c.cab_calls = set_of(&[c3]);
    w.insert_status(c);
    w.add_disconnected(C);
    w.acknowledge_cab_calls(&A);
    assert_eq!(members(&w.local_elev(&A).known_cab_calls), sorted(vec![c1, c2, c3]));
}

#[test]
fn cleanup_removes_calls_served_by_all_then_their_markers() {
    let h1 = call(A, 0, 1, HALL_UP);
    let mut w = WorldView::new(status_with(A, &[h1], &[h1]));
    w.insert_status(status_with(B, &[], &[h1]));
    w.cleanup_hall_calls(&A);
    assert!(w.local_elev(&A).hall_calls.is_empty());
    assert!(w.local_elev(&A).served_hall_calls.is_empty());
    assert!(w.local_elev(&B).served_hall_calls.is_empty());
}

#[test]
fn cleanup_keeps_calls_not_served_by_all() {
    let h1 = call(A, 0, 1, HALL_UP);
    let mut w = WorldView::new(status_with(A, &[h1], &[h1]));
    w.insert_status(status_with(B, &[h1], &[]));
    w.cleanup_hall_calls(&A);
    assert_eq!(members(&w.local_elev(&A).hall_calls), vec![h1]);
    assert_eq!(members(&w.local_elev(&A).served_hall_calls), vec![h1]);
}

#[test]
fn cleanup_keeps_markers_while_another_elevator_holds_the_call() {
    let h1 = call(A, 0, 1, HALL_UP);
    let mut w = WorldView::new(status_with(A, &[h1], &[h1]));
    w.insert_status(status_with(B, &[h1], &[h1]));
    w.cleanup_hall_calls(&A);
    assert!(w.local_elev(&A).hall_calls.is_empty());
    assert_eq!(members(&w.local_elev(&A).served_hall_calls), vec![h1]);
    assert_eq!(members(&w.local_elev(&B).hall_calls), vec![h1]);
}

#[test]
fn cleanup_drops_a_marker_of_some_elevators_once_no_one_holds_the_call() {
    let h1 = call(A, 0, 1, HALL_UP);
    let mut w = WorldView::new(status_with(A, &[], &[h1]));
    w.insert_status(status_with(B, &[], &[]));
    w.insert_status(status_with(C, &[], &[h1]));
    w.add_disconnected(C);
    w.cleanup_hall_calls(&A);
    assert!(w.local_elev(&A).served_hall_calls.is_empty());
    // Disconnected elevators lose the marker too.
    assert!(w.local_elev(&C).served_hall_calls.is_empty());
}

#[test]
fn cleanup_keeps_a_marker_of_a_disconnected_elevator_only() {
    let h1 = call(A, 0, 1, HALL_UP);
    let mut w = WorldView::new(status_with(A, &[], &[]));
    w.insert_status(status_with(C, &[], &[h1]));
    w.add_disconnected(C);
    w.cleanup_hall_calls(&A);
    assert_eq!(members(&w.local_elev(&C).served_hall_calls), vec![h1]);
}

#[test]
fn remove_faulty_elevators_drops_faulty_ones() {
    let mut w = WorldView::new(ElevatorStatus::new(A, 0));
    let mut b = ElevatorStatus::new(B, 0);
    b.has_faults = true;
    w.insert_status(b);
    w.insert_status(ElevatorStatus::new(C, 0));
    w.remove_faulty_elevators();
    let ids: Vec<[u8; 6]> = w.elevators().iter().map(|s| s.elevator_id).collect();
    assert_eq!(ids, vec![A, C]);
}

#[test]
fn insert_status_replaces_the_same_elevator() {
    let mut w = WorldView::new(ElevatorStatus::new(A, 0));
    w.insert_status(ElevatorStatus::new(B, 1));
    w.insert_status(ElevatorStatus::new(B, 3));
    assert_eq!(w.elevators().len(), 2);
    assert_eq!(w.local_elev(&B).floor, 3);
}

#[test]
fn local_elevator_mut_changes_the_status_in_place() {
    let mut w = WorldView::new(ElevatorStatus::new(A, 0));
    w.local_elevator_mut(&A).floor = 2;
    assert_eq!(w.local_elev(&A).floor, 2);
}

#[test]
fn add_cab_call_message_records_and_broadcasts() {
    let mut w = WorldView::new(ElevatorStatus::new(A, 0));
    let c1 = call(A, 0, 2, CAB);
    let out = w.handle_message(&A, MsgToWorldManager::AddCall(c1));
    let local = w.local_elev(&A);
    assert_eq!(members(&local.cab_calls), vec![c1]);
    assert_eq!(members(&local.known_cab_calls), vec![c1]);
    let b = out.broadcast.expect("broadcast");
    assert_eq!(members(&b.cab_calls), vec![c1]);
    assert!(out.world_view.is_some());
}

#[test]
fn add_hall_call_and_unknown_call_messages() {
    let mut w = WorldView::new(ElevatorStatus::new(A, 0));
    let h1 = call(A, 0, 2, HALL_DOWN);
    w.handle_message(&A, MsgToWorldManager::AddCall(h1));
    let odd = call(A, 1, 2, 7);
    w.handle_message(&A, MsgToWorldManager::AddCall(odd));
    let local = w.local_elev(&A);
    assert_eq!(members(&local.hall_calls), vec![h1]);
    assert!(local.cab_calls.is_empty());
}

#[test]
fn served_call_messages() {
    let mut w = WorldView::new(ElevatorStatus::new(A, 0));
    let c1 = call(A, 0, 2, CAB);
    let h1 = call(A, 1, 1, HALL_UP);
    w.handle_message(&A, MsgToWorldManager::AddCall(c1));
    w.handle_message(&A, MsgToWorldManager::AddCall(h1));
    w.handle_message(&A, MsgToWorldManager::ServedCall(c1));
    w.handle_message(&A, MsgToWorldManager::ServedCall(h1));
    let local = w.local_elev(&A);
    assert!(local.cab_calls.is_empty());
    assert_eq!(members(&local.known_cab_calls), vec![c1]);
    assert_eq!(members(&local.hall_calls), vec![h1]);
    assert_eq!(members(&local.served_hall_calls), vec![h1]);
}

#[test]
fn local_status_message_updates_broadcasts_and_shares_view() {
    let mut w = WorldView::new(ElevatorStatus::new(A, 0));
    let out = w.handle_message(
        &A,
        MsgToWorldManager::NewLocalElevatorStatus(LocalElevatorStatus::new(3, Direction::Up, Behaviour::Moving, true)),
    );
    let local = w.local_elev(&A);
    assert_eq!(local.floor, 3);
    assert_eq!(local.direction, Direction::Up);
    assert_eq!(local.behaviour, Behaviour::Moving);
    assert!(local.has_faults);
    assert_eq!(out.broadcast.expect("status").floor, 3);
    assert_eq!(out.world_view.expect("view").local_elev(&A).floor, 3);
}

#[test]
fn remote_status_message_merges_cleans_and_acknowledges() {
    let mut w = WorldView::new(ElevatorStatus::new(A, 0));
    let h1 = call(B, 0, 1, HALL_UP);
    let c2 = call(B, 1, 2, CAB);
    let mut b = status_with(B, &[h1], &[]);
    b.cab_calls = set_of(&[c2]);
    let out = w.handle_message(&A, MsgToWorldManager::NewRemoteElevatorStatus(b));
    let local = w.local_elev(&A);
    assert_eq!(members(&local.hall_calls), vec![h1]);
    assert_eq!(members(&local.known_cab_calls), vec![c2]);
    assert!(out.broadcast.is_some());
    let view = out.world_view.expect("view");
    assert_eq!(view.elevators().len(), 2);
}

#[test]
fn disconnect_messages_broadcast_and_share_the_view() {
    let mut w = WorldView::new(ElevatorStatus::new(A, 0));
    w.insert_status(ElevatorStatus::new(B, 0));
    let out = w.handle_message(&A, MsgToWorldManager::AddDisconnectedElevator(B));
    assert_eq!(out.broadcast.expect("status").elevator_id, A);
    assert_eq!(out.world_view.expect("view").connected_elevators().len(), 1);
    let out = w.handle_message(&A, MsgToWorldManager::RemoveDisconnectedElevator(B));
    assert_eq!(out.broadcast.expect("status").elevator_id, A);
    assert_eq!(out.world_view.expect("view").connected_elevators().len(), 2);
}
