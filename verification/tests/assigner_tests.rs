use elevator::assigner::{
    assigned_calls_from_output, assigned_matrix_to_calls, assigner_key_of, calls_to_assigner_matrix,
    prepare_assigner_input, select_assigned_calls, AssignerError, AssignerInput, AssignerState,
};
use elevator::config::{CAB, HALL_DOWN, HALL_UP};
use elevator::elevator::{Behaviour, Direction};
use elevator::messages::{Call, CallId, CallSet, ElevatorStatus};
use elevator::world_view::WorldView;

const A: [u8; 6] = [0, 0, 0, 0, 0, 1];
const B: [u8; 6] = [0, 0, 0, 0, 0, 2];

fn call(origin: [u8; 6], seq: u64, floor: u8, call_type: u8) -> Call {
    Call { call_id: CallId { elevator_id: origin, seq }, floor, call_type }
}

fn set_of(calls: &[Call]) -> CallSet {
    let mut s = CallSet::new();
    for c in calls {
        s.insert(*c);
    }
    s
}

fn members(s: &CallSet) -> Vec<Call> {
    let mut v = Vec::new();
    for i in 0..s.num_stored() {
        v.push(s.get(i));
    }
    v.sort_by_key(|c| (c.call_id.elevator_id, c.call_id.seq, c.floor, c.call_type));
    v
}

fn sorted(mut v: Vec<Call>) -> Vec<Call> {
    v.sort_by_key(|c| (c.call_id.elevator_id, c.call_id.seq, c.floor, c.call_type));
    v
}

#[test]
fn assigner_key_matches_debug_format_of_the_id() {
    assert_eq!(assigner_key_of(&A), "id_[0, 0, 0, 0, 0, 1]");
    let id = [255u8, 10, 7, 100, 0, 42];
    assert_eq!(assigner_key_of(&id), format!("id_{:?}", id));
    assert_eq!(assigner_key_of(&id), "id_[255, 10, 7, 100, 0, 42]");
}

#[test]
fn hall_calls_become_matrix_rows_and_cab_calls_are_left_out() {
    let active = set_of(&[
        call(A, 0, 0, HALL_UP),
        call(A, 1, 3, HALL_DOWN),
        call(B, 0, 2, HALL_UP),
        call(B, 1, 2, HALL_DOWN),
        call(B, 2, 1, CAB),
    ]);
    let m = calls_to_assigner_matrix(&active);
    assert_eq!(m, vec![[true, false], [false, false], [true, true], [false, true]]);
}

#[test]
fn empty_calls_give_an_empty_matrix_of_all_floors() {
    let m = calls_to_assigner_matrix(&CallSet::new());
    assert_eq!(m, vec![[false, false]; 4]);
}

#[test]
fn matrix_marks_select_the_active_hall_calls() {
    let up1 = call(A, 0, 1, HALL_UP);
    let down2 = call(B, 0, 2, HALL_DOWN);
    let cab1 = call(A, 1, 1, CAB);
    let active = set_of(&[up1, down2, cab1]);
    let matrix: Vec<[bool; 3]> = vec![[false; 3], [true, false, true], [false, false, false], [false; 3]];
    assert_eq!(members(&assigned_matrix_to_calls(&active, &matrix)), vec![up1]);
    let short: Vec<[bool; 3]> = vec![[true; 3]];
    assert!(assigned_matrix_to_calls(&active, &short).is_empty());
}

#[test]
fn matrix_roundtrip_gives_back_the_hall_calls() {
    let hall = [call(A, 0, 0, HALL_UP), call(A, 1, 3, HALL_DOWN), call(B, 0, 2, HALL_UP)];
    let mut all = hall.to_vec();
    all.push(call(B, 1, 1, CAB));
    let active = set_of(&all);
    let m = calls_to_assigner_matrix(&active);
    assert_eq!(members(&assigned_matrix_to_calls(&active, &m)), sorted(hall.to_vec()));
}

#[test]
fn assigner_state_counts_only_active_cab_calls() {
    let cab_known = call(A, 0, 2, CAB);
    let cab_unknown = call(A, 1, 3, CAB);
    let mut a = ElevatorStatus::new(A, 1);
    a.behaviour = Behaviour::Moving;
    a.direction = Direction::Up;
    a.cab_calls = set_of(&[cab_known, cab_unknown]);
    let mut w = WorldView::new(a);
    let mut b = ElevatorStatus::new(B, 0);
    b.known_cab_calls = set_of(&[cab_known]);
    w.insert_status(b);
    let s = AssignerState::from_elevator(&w, w.local_elev(&A));
    assert_eq!(s.behaviour, Behaviour::Moving);
    assert_eq!(s.floor, 1);
    assert_eq!(s.direction, Direction::Up);
    assert_eq!(s.cab_requests, vec![false, false, true, false]);
}

#[test]
fn assigner_states_list_connected_elevators_by_key() {
    let mut w = WorldView::new(ElevatorStatus::new(A, 0));
    w.insert_status(ElevatorStatus::new(B, 3));
    let states = w.assigner_states();
    assert_eq!(states.len(), 2);
    assert_eq!(states[0].0, "id_[0, 0, 0, 0, 0, 1]");
    assert_eq!(states[1].0, "id_[0, 0, 0, 0, 0, 2]");
    assert_eq!(states[1].1.floor, 3);
    w.add_disconnected(B);
    let states = w.assigner_states();
    assert_eq!(states.len(), 1);
    assert_eq!(states[0].0, "id_[0, 0, 0, 0, 0, 1]");
}

#[test]
fn assigner_input_holds_matrix_and_states() {
    let w = WorldView::new(ElevatorStatus::new(A, 0));
    let active = set_of(&[call(A, 0, 1, HALL_DOWN)]);
    let input = AssignerInput::new(&w, &active);
    assert_eq!(input.hall_requests, vec![[false, false], [false, true], [false, false], [false, false]]);
    assert_eq!(input.states.len(), 1);
}

#[test]
fn faulty_elevators_get_no_place_in_the_input() {
    let mut w = WorldView::new(ElevatorStatus::new(A, 0));
    let mut b = ElevatorStatus::new(B, 2);
    b.has_faults = true;
    w.insert_status(b);
    let input = prepare_assigner_input(w, &CallSet::new());
    assert_eq!(input.states.len(), 1);
    assert_eq!(input.states[0].0, "id_[0, 0, 0, 0, 0, 1]");
}

#[test]
fn answer_for_this_elevator_selects_its_calls() {
    let up1 = call(A, 0, 1, HALL_UP);
    let down2 = call(B, 0, 2, HALL_DOWN);
    let active = set_of(&[up1, down2]);
    let output = r#"{
        "id_[0, 0, 0, 0, 0, 1]": [[false,false,false],[true,false,false],[false,false,false],[false,false,false]],
        "id_[0, 0, 0, 0, 0, 2]": [[false,false,false],[false,false,false],[false,true,false],[false,false,false]]
    }"#;
    let mine = assigned_calls_from_output(output, &active, &A).unwrap();
    assert_eq!(members(&mine), vec![up1]);
    let theirs = assigned_calls_from_output(output, &active, &B).unwrap();
    assert_eq!(members(&theirs), vec![down2]);
}

#[test]
fn answer_without_this_elevator_assigns_nothing() {
    let active = set_of(&[call(A, 0, 1, HALL_UP)]);
    let output = r#"{"id_[0, 0, 0, 0, 0, 2]": [[true,true,false],[true,true,false],[true,true,false],[true,true,false]]}"#;
    let mine = assigned_calls_from_output(output, &active, &A).unwrap();
    assert!(mine.is_empty());
}

#[test]
fn unparsable_answer_is_invalid_output() {
    let active = set_of(&[call(A, 0, 1, HALL_UP)]);
    assert_eq!(
        assigned_calls_from_output("not json", &active, &A).err(),
        Some(AssignerError::InvalidOutput)
    );
    assert_eq!(
        assigned_calls_from_output(r#"{"id_[0, 0, 0, 0, 0, 1]": [[1, 2]]}"#, &active, &A).err(),
        Some(AssignerError::InvalidOutput)
    );
}

#[test]
fn first_entry_with_the_key_decides() {
    let up1 = call(A, 0, 1, HALL_UP);
    let active = set_of(&[up1]);
    let entries = vec![
        ("id_[0, 0, 0, 0, 0, 2]".to_string(), vec![[true; 3]; 4]),
        ("id_[0, 0, 0, 0, 0, 1]".to_string(), vec![[false; 3]; 4]),
        ("id_[0, 0, 0, 0, 0, 1]".to_string(), vec![[true; 3]; 4]),
    ];
    assert!(select_assigned_calls(&entries, &active, &A).is_empty());
    assert_eq!(members(&select_assigned_calls(&entries, &active, &B)), vec![up1]);
}

#[test]
fn different_elevators_have_different_keys() {
    let ids = [[0u8, 0, 0, 0, 1, 1], [0, 0, 0, 0, 11, 1], [0, 0, 0, 1, 1, 1], [1, 1, 0, 0, 0, 1], [0, 0, 0, 0, 0, 111]];
    for a in ids {
        for b in ids {
            assert_eq!(assigner_key_of(&a) == assigner_key_of(&b), a == b);
        }
    }
}

#[test]
fn faulty_elevator_is_assigned_nothing() {
    let up1 = call(A, 0, 1, HALL_UP);
    let active = set_of(&[up1]);
    let mut a = ElevatorStatus::new(A, 1);
    a.has_faults = true;
    let mut w = WorldView::new(a);
    w.insert_status(ElevatorStatus::new(B, 0));
    let input = prepare_assigner_input(w, &active);
    assert_eq!(input.states.len(), 1);
    assert!(input.states.iter().all(|(k, _)| *k != assigner_key_of(&A)));
    // An answer about the elevators in the input only.
    let output = r#"{"id_[0, 0, 0, 0, 0, 2]": [[false,false,false],[true,false,false],[false,false,false],[false,false,false]]}"#;
    assert!(assigned_calls_from_output(output, &active, &A).unwrap().is_empty());
    assert_eq!(members(&assigned_calls_from_output(output, &active, &B).unwrap()), vec![up1]);
}
