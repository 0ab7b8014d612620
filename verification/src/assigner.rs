//! The interface to the hall request assigner.
//!
//! The assigner is an outside program. It takes, as JSON, the active hall
//! calls as a matrix with a row per floor and a column per direction, and the
//! state of every elevator; it answers, per elevator, a matrix of the hall
//! calls that elevator shall serve. This module builds the input, turns the
//! assigner's answer back into calls, and does the parsing of the answer.
//! Cab calls are never assigned: they stay with the elevator where they were
//! made.
use vstd::prelude::*;
use vstd::string::StringExecFns;
use crate::config::ELEVATOR_NUM_FLOORS;
use crate::elevator::{Behaviour, Direction};
use crate::messages::{Call, CallSet, ElevatorId, ElevatorStatus};
use crate::world_view::{WorldView, is_connected_status};

verus! {

/// The ASCII digit for `d`, which is below ten.
pub open spec fn digit_char(d: int) -> char {
    (48 + d) as char
}

/// The decimal notation of `n`, without leading zeros.
pub open spec fn decimal(n: u8) -> Seq<char> {
    if n < 10 {
        seq![digit_char(n as int)]
    } else if n < 100 {
        seq![digit_char((n / 10) as int), digit_char((n % 10) as int)]
    } else {
        seq![digit_char((n / 100) as int), digit_char(((n / 10) % 10) as int), digit_char((n % 10) as int)]
    }
}

/// The key under which the assigner knows elevator `id`: `id_` followed by
/// the bytes of `id` as a bracketed, comma-separated list of decimals, as in
/// `id_[0, 0, 0, 0, 0, 1]`.
pub open spec fn assigner_key(id: ElevatorId) -> Seq<char> {
    seq!['i', 'd', '_', '['] + decimal(id[0]) + seq![',', ' '] + decimal(id[1]) + seq![',', ' ']
        + decimal(id[2]) + seq![',', ' '] + decimal(id[3]) + seq![',', ' '] + decimal(id[4])
        + seq![',', ' '] + decimal(id[5]) + seq![']']
}

/// Whether `c` is an ASCII decimal digit.
pub open spec fn is_digit(c: char) -> bool {
    '0' <= c && c <= '9'
}

/// The decimal notation of a byte has one to three characters, all digits.
proof fn lemma_decimal_digits(n: u8)
    ensures
        1 <= decimal(n).len() <= 3,
        forall|k: int| 0 <= k < decimal(n).len() ==> is_digit(#[trigger] decimal(n)[k]),
        forall|k: int| 0 <= k < decimal(n).len() ==> 48 <= (#[trigger] decimal(n)[k]) as int && (decimal(n)[k] as int) < 58,
{
}

/// Different bytes have different decimal notations.
proof fn lemma_decimal_injective(a: u8, b: u8)
    requires
        decimal(a) == decimal(b),
    ensures
        a == b,
{
    lemma_decimal_digits(a);
    lemma_decimal_digits(b);
    let d = decimal(a);
    if a < 10 {
        assert(d[0] as int == 48 + a);
        assert(d[0] as int == 48 + b);
    } else if a < 100 {
        assert(d[0] as int == 48 + a / 10 && d[1] as int == 48 + a % 10);
        assert(d[0] as int == 48 + b / 10 && d[1] as int == 48 + b % 10);
    } else {
        assert(d[0] as int == 48 + a / 100 && d[1] as int == 48 + (a / 10) % 10 && d[2] as int == 48 + a % 10);
        assert(d[0] as int == 48 + b / 100 && d[1] as int == 48 + (b / 10) % 10 && d[2] as int == 48 + b % 10);
    }
}

/// A decimal followed by a non-digit can be read back: equal texts that each
/// start with a byte's decimal and go on with a character that is not a digit
/// start with the same byte, and the two decimals have the same length.
proof fn lemma_decimal_prefix(a: u8, b: u8, ta: Seq<char>, tb: Seq<char>)
    requires
        decimal(a) + ta == decimal(b) + tb,
        ta.len() > 0 && !is_digit(ta[0]),
        tb.len() > 0 && !is_digit(tb[0]),
    ensures
        a == b,
        ta == tb,
{
    lemma_decimal_digits(a);
    lemma_decimal_digits(b);
    let la = decimal(a).len() as int;
    let lb = decimal(b).len() as int;
    let x = decimal(a) + ta;
    let y = decimal(b) + tb;
    if la < lb {
        assert(x[la] == ta[0]);
        assert(y[la] == decimal(b)[la]);
    } else if lb < la {
        assert(y[lb] == tb[0]);
        assert(x[lb] == decimal(a)[lb]);
    }
    assert(decimal(a) =~= x.take(la));
    assert(decimal(b) =~= y.take(lb));
    lemma_decimal_injective(a, b);
    assert(ta =~= x.skip(la));
    assert(tb =~= y.skip(lb));
}

/// The part of the assigner key from byte `i` of `id` on.
pub open spec fn key_tail(id: ElevatorId, i: int) -> Seq<char>
    decreases 5 - i,
{
    if i >= 5 {
        decimal(id[5]) + seq![']']
    } else {
        decimal(id[i]) + (seq![',', ' '] + key_tail(id, i + 1))
    }
}

/// Equal key tails from byte `i` on come from identifiers that agree from
/// byte `i` on.
proof fn lemma_key_tail_injective(a: ElevatorId, b: ElevatorId, i: int)
    requires
        0 <= i <= 5,
        key_tail(a, i) == key_tail(b, i),
    ensures
        forall|j: int| i <= j < 6 ==> a[j] == b[j],
    decreases 5 - i,
{
    if i == 5 {
        lemma_decimal_prefix(a[5], b[5], seq![']'], seq![']']);
    } else {
        lemma_decimal_prefix(a[i], b[i], seq![',', ' '] + key_tail(a, i + 1), seq![',', ' '] + key_tail(b, i + 1));
        assert(key_tail(a, i + 1) =~= (seq![',', ' '] + key_tail(a, i + 1)).skip(2));
        assert(key_tail(b, i + 1) =~= (seq![',', ' '] + key_tail(b, i + 1)).skip(2));
        lemma_key_tail_injective(a, b, i + 1);
    }
}

/// Six parts, each followed by `sep` but the last, which `close` follows,
/// grouped from the right.
pub open spec fn joined_from_right(
    d0: Seq<char>, d1: Seq<char>, d2: Seq<char>, d3: Seq<char>, d4: Seq<char>, d5: Seq<char>,
    sep: Seq<char>, close: Seq<char>,
) -> Seq<char> {
    let r5 = d5 + close;
    let r4 = d4 + (sep + r5);
    let r3 = d3 + (sep + r4);
    let r2 = d2 + (sep + r3);
    let r1 = d1 + (sep + r2);
    d0 + (sep + r1)
}

/// Regrouping the concatenation that makes an assigner key.
proof fn lemma_key_regroup(
    p: Seq<char>, d0: Seq<char>, d1: Seq<char>, d2: Seq<char>, d3: Seq<char>, d4: Seq<char>,
    d5: Seq<char>, sep: Seq<char>, close: Seq<char>,
)
    ensures
        p + d0 + sep + d1 + sep + d2 + sep + d3 + sep + d4 + sep + d5 + close
            == p + joined_from_right(d0, d1, d2, d3, d4, d5, sep, close),
{
    assert(p + d0 + sep + d1 + sep + d2 + sep + d3 + sep + d4 + sep + d5 + close
        =~= p + joined_from_right(d0, d1, d2, d3, d4, d5, sep, close));
}

/// The assigner key is `id_[` followed by the key tail from the first byte.
proof fn lemma_key_as_tail(id: ElevatorId)
    ensures
        assigner_key(id) == seq!['i', 'd', '_', '['] + key_tail(id, 0),
{
    let sep = seq![',', ' '];
    let t5 = decimal(id[5]) + seq![']'];
    assert(key_tail(id, 5) == t5);
    let t4 = decimal(id[4]) + (sep + t5);
    assert(key_tail(id, 4) == t4);
    let t3 = decimal(id[3]) + (sep + t4);
    assert(key_tail(id, 3) == t3);
    let t2 = decimal(id[2]) + (sep + t3);
    assert(key_tail(id, 2) == t2);
    let t1 = decimal(id[1]) + (sep + t2);
    assert(key_tail(id, 1) == t1);
    let t0 = decimal(id[0]) + (sep + t1);
    assert(key_tail(id, 0) == t0);
    lemma_key_regroup(seq!['i', 'd', '_', '['], decimal(id[0]), decimal(id[1]), decimal(id[2]), decimal(id[3]),
        decimal(id[4]), decimal(id[5]), sep, seq![']']);
}

/// Different elevators have different assigner keys.
pub proof fn lemma_assigner_key_injective(a: ElevatorId, b: ElevatorId)
    requires
        assigner_key(a) == assigner_key(b),
    ensures
        a == b,
{
    lemma_key_as_tail(a);
    lemma_key_as_tail(b);
    assert(key_tail(a, 0) =~= assigner_key(a).skip(4));
    assert(key_tail(b, 0) =~= assigner_key(b).skip(4));
    lemma_key_tail_injective(a, b, 0);
    assert(a =~= b);
}

/// Appends the decimal digit `d`.
fn push_digit(s: &mut String, d: u8)
    requires
        d < 10,
    ensures
        final(s)@ == old(s)@.push(digit_char(d as int)),
{
    let t = match d {
        0 => "0",
        1 => "1",
        2 => "2",
        3 => "3",
        4 => "4",
        5 => "5",
        6 => "6",
        7 => "7",
        8 => "8",
        _ => "9",
    };
    proof {
        reveal_strlit("0");
        reveal_strlit("1");
        reveal_strlit("2");
        reveal_strlit("3");
        reveal_strlit("4");
        reveal_strlit("5");
        reveal_strlit("6");
        reveal_strlit("7");
        reveal_strlit("8");
        reveal_strlit("9");
    }
    s.append(t);
    assert(s@ =~= old(s)@.push(digit_char(d as int)));
}

/// Appends the decimal notation of `n`.
fn push_decimal(s: &mut String, n: u8)
    ensures
        final(s)@ == old(s)@ + decimal(n),
{
    if n >= 100 {
        push_digit(s, n / 100);
    }
    if n >= 10 {
        push_digit(s, (n / 10) % 10);
    }
    push_digit(s, n % 10);
    assert(s@ =~= old(s)@ + decimal(n));
}

/// Appends `, `.
fn push_separator(s: &mut String)
    ensures
        final(s)@ == old(s)@ + seq![',', ' '],
{
    proof {
        reveal_strlit(", ");
    }
    s.append(", ");
    assert(s@ =~= old(s)@ + seq![',', ' ']);
}

/// The key under which the assigner knows elevator `id`.
pub fn assigner_key_of(id: &ElevatorId) -> (key: String)
    ensures
        key@ == assigner_key(*id),
{
    proof {
        reveal_strlit("id_[");
        reveal_strlit("]");
    }
    let mut s = String::from_str("id_[");
    push_decimal(&mut s, id[0]);
    push_separator(&mut s);
    push_decimal(&mut s, id[1]);
    push_separator(&mut s);
    push_decimal(&mut s, id[2]);
    push_separator(&mut s);
    push_decimal(&mut s, id[3]);
    push_separator(&mut s);
    push_decimal(&mut s, id[4]);
    push_separator(&mut s);
    push_decimal(&mut s, id[5]);
    s.append("]");
    assert(s@ =~= assigner_key(*id));
    s
}


/// Whether some call in `calls` is at `floor` with type `call_type`.
pub open spec fn has_call_at(calls: Set<Call>, floor: int, call_type: int) -> bool {
    exists|c: Call| calls.contains(c) && c.floor == floor && c.call_type == call_type
}

/// Whether some call in `calls` is at `floor`.
pub open spec fn has_any_call_at(calls: Set<Call>, floor: int) -> bool {
    exists|c: Call| calls.contains(c) && c.floor == floor
}

/// Whether `m` is the assigner's hall request matrix of `calls`: a row per
/// floor, with the up and down hall calls at that floor.
pub open spec fn is_hall_request_matrix(m: Seq<[bool; 2]>, calls: Set<Call>) -> bool {
    &&& m.len() == ELEVATOR_NUM_FLOORS
    &&& forall|f: int, t: int| 0 <= f < ELEVATOR_NUM_FLOORS && 0 <= t < 2 ==> #[trigger] m[f][t] == has_call_at(calls, f, t)
}

/// Whether a hall call of `calls` lies outside the floors: the assigner
/// matrix has no row for it.
pub open spec fn hall_calls_on_floors(calls: Set<Call>) -> bool {
    forall|c: Call| calls.contains(c) && c.call_type < 2 ==> c.floor < ELEVATOR_NUM_FLOORS
}

/// The hall calls of `active` that matrix `m` marks: a call is marked when
/// its floor has a row in `m` and the row is set in the call's direction.
pub open spec fn marked_calls<const N: usize>(active: Set<Call>, m: Seq<[bool; N]>) -> Set<Call> {
    Set::new(|c: Call| active.contains(c) && c.call_type < 2 && c.call_type < N && c.floor < m.len()
        && m[c.floor as int][c.call_type as int])
}

/// Converts the hall calls into the matrix format the assigner expects.
pub fn calls_to_assigner_matrix(active_calls: &CallSet) -> (m: Vec<[bool; 2]>)
    requires
        hall_calls_on_floors(active_calls@),
    ensures
        is_hall_request_matrix(m@, active_calls@),
{
    let mut matrix: Vec<[bool; 2]> = Vec::new();
    for f in 0..ELEVATOR_NUM_FLOORS as usize
        invariant
            matrix@.len() == f,
            forall|g: int, t: int| 0 <= g < f && 0 <= t < 2 ==> !#[trigger] matrix@[g][t],
    {
        matrix.push([false; 2]);
    }
    let n = active_calls.num_stored();
    for i in 0..n
        invariant
            n == active_calls.elems().len(),
            hall_calls_on_floors(active_calls@),
            matrix@.len() == ELEVATOR_NUM_FLOORS,
            forall|f: int, t: int| 0 <= f < ELEVATOR_NUM_FLOORS && 0 <= t < 2 ==> #[trigger] matrix@[f][t]
                == exists|j: int| 0 <= j < i && active_calls.elems()[j].floor == f && active_calls.elems()[j].call_type == t,
    {
        let call = active_calls.get(i);
        let ghost prev = matrix@;
        if call.call_type < 2 {
            assert(active_calls@.contains(call));
            let mut row = matrix[call.floor as usize];
            row[call.call_type as usize] = true;
            matrix.set(call.floor as usize, row);
        }
        assert forall|f: int, t: int| 0 <= f < ELEVATOR_NUM_FLOORS && 0 <= t < 2 implies #[trigger] matrix@[f][t]
            == exists|j: int| 0 <= j < i + 1 && active_calls.elems()[j].floor == f && active_calls.elems()[j].call_type == t by {
            if prev[f][t] {
                let j = choose|j: int| 0 <= j < i && active_calls.elems()[j].floor == f && active_calls.elems()[j].call_type == t;
                assert(0 <= j < i + 1);
            }
            if call.floor == f && call.call_type == t {
                assert(active_calls.elems()[i as int] == call);
            }
        }
    }
    assert forall|f: int, t: int| 0 <= f < ELEVATOR_NUM_FLOORS && 0 <= t < 2 implies #[trigger] matrix@[f][t]
        == has_call_at(active_calls@, f, t) by {
        if has_call_at(active_calls@, f, t) {
            let c = choose|c: Call| active_calls@.contains(c) && c.floor == f && c.call_type == t;
            let j = choose|j: int| 0 <= j < active_calls.elems().len() && active_calls.elems()[j] == c;
        }
        if matrix@[f][t] {
            let j = choose|j: int| 0 <= j < n && active_calls.elems()[j].floor == f && active_calls.elems()[j].call_type == t;
            assert(active_calls@.contains(active_calls.elems()[j]));
        }
    }
    matrix
}

/// Converts a matrix answered by the assigner back into calls: the hall calls
/// of `active_calls` whose floor and direction the matrix marks.
pub fn assigned_matrix_to_calls<const N: usize>(active_calls: &CallSet, matrix: &Vec<[bool; N]>) -> (calls: CallSet)
    ensures
        calls@ == marked_calls(active_calls@, matrix@),
{
    let mut calls = CallSet::new();
    let n = active_calls.num_stored();
    for i in 0..n
        invariant
            n == active_calls.elems().len(),
            calls@ == Set::new(|c: Call| (exists|j: int| 0 <= j < i && active_calls.elems()[j] == c)
                && c.call_type < 2 && c.call_type < N && c.floor < matrix@.len() && matrix@[c.floor as int][c.call_type as int]),
    {
        let call = active_calls.get(i);
        let ghost prev = calls@;
        let floor = call.floor as usize;
        let call_type = call.call_type as usize;
        if floor < matrix.len() && call_type < 2 && call_type < N {
            if matrix[floor][call_type] {
                calls.insert(call);
            }
        }
        assert(calls@ =~= Set::new(|c: Call| (exists|j: int| 0 <= j < i + 1 && active_calls.elems()[j] == c)
            && c.call_type < 2 && c.call_type < N && c.floor < matrix@.len() && matrix@[c.floor as int][c.call_type as int])) by {
            assert forall|c: Call| calls@.contains(c) implies (exists|j: int| 0 <= j < i + 1 && active_calls.elems()[j] == c) by {
                if prev.contains(c) {
                    let j = choose|j: int| 0 <= j < i && active_calls.elems()[j] == c;
                    assert(0 <= j < i + 1);
                } else {
                    assert(active_calls.elems()[i as int] == c);
                }
            }
            assert forall|c: Call| (exists|j: int| 0 <= j < i + 1 && active_calls.elems()[j] == c)
                && c.call_type < 2 && c.call_type < N && c.floor < matrix@.len() && matrix@[c.floor as int][c.call_type as int] implies calls@.contains(c) by {
                let j = choose|j: int| 0 <= j < i + 1 && active_calls.elems()[j] == c;
                if j < i {
                    assert(prev.contains(c));
                }
            }
        }
    }
    assert(calls@ =~= marked_calls(active_calls@, matrix@));
    calls
}

/// An elevator's state in the form the assigner expects.
pub struct AssignerState {
    pub behaviour: Behaviour,
    pub floor: u8,
    pub direction: Direction,
    /// Whether the elevator has an active cab call at each floor.
    pub cab_requests: Vec<bool>,
}

/// The cab request row of `calls`: whether some call is at each floor.
pub open spec fn cab_request_row(calls: Set<Call>) -> Seq<bool> {
    Seq::new(ELEVATOR_NUM_FLOORS as nat, |f: int| has_any_call_at(calls, f))
}

/// Whether `s` is the assigner state of `elevator` in `world`: its behaviour,
/// floor and direction, and a cab request at every floor with an active cab call.
pub open spec fn is_assigner_state_of(s: AssignerState, world: WorldView, elevator: ElevatorStatus) -> bool {
    &&& s.behaviour == elevator.behaviour
    &&& s.floor == elevator.floor
    &&& s.direction == elevator.direction
    &&& s.cab_requests@ == cab_request_row(world.spec_active_cab_calls(elevator.elevator_id))
}

impl AssignerState {
    /// The assigner state of `elevator`.
    ///
    /// Cab calls count only when they are active in `world`, that is known by
    /// the other connected elevators.
    pub fn from_elevator(world: &WorldView, elevator: &ElevatorStatus) -> (s: AssignerState)
        requires
            world.wf(),
            world.has_elevator(elevator.elevator_id),
        ensures
            is_assigner_state_of(s, *world, *elevator),
    {
        let active = world.active_cab_calls(&elevator.elevator_id);
        let mut cab_requests: Vec<bool> = Vec::new();
        for f in 0..ELEVATOR_NUM_FLOORS as usize
            invariant
                cab_requests@.len() == f,
                forall|g: int| 0 <= g < f ==> !#[trigger] cab_requests@[g],
        {
            cab_requests.push(false);
        }
        let n = active.num_stored();
        for i in 0..n
            invariant
                n == active.elems().len(),
                cab_requests@.len() == ELEVATOR_NUM_FLOORS,
                forall|f: int| 0 <= f < ELEVATOR_NUM_FLOORS ==> #[trigger] cab_requests@[f]
                    == exists|j: int| 0 <= j < i && active.elems()[j].floor == f,
        {
            let call = active.get(i);
            if call.floor < ELEVATOR_NUM_FLOORS {
                cab_requests.set(call.floor as usize, true);
            }
            assert forall|f: int| 0 <= f < ELEVATOR_NUM_FLOORS implies #[trigger] cab_requests@[f]
                == exists|j: int| 0 <= j < i + 1 && active.elems()[j].floor == f by {
                if call.floor == f {
                    assert(active.elems()[i as int] == call);
                }
                if exists|j: int| 0 <= j < i && active.elems()[j].floor == f {
                    let j = choose|j: int| 0 <= j < i && active.elems()[j].floor == f;
                    assert(0 <= j < i + 1);
                }
            }
        }
        assert(cab_requests@ =~= cab_request_row(active@)) by {
            assert forall|f: int| 0 <= f < ELEVATOR_NUM_FLOORS implies cab_requests@[f] == has_any_call_at(active@, f) by {
                if has_any_call_at(active@, f) {
                    let c = choose|c: Call| active@.contains(c) && c.floor == f;
                    let j = choose|j: int| 0 <= j < active.elems().len() && active.elems()[j] == c;
                }
                if cab_requests@[f] {
                    let j = choose|j: int| 0 <= j < n && active.elems()[j].floor == f;
                    assert(active@.contains(active.elems()[j]));
                }
            }
        }
        AssignerState {
            behaviour: elevator.behaviour,
            floor: elevator.floor,
            direction: elevator.direction,
            cab_requests,
        }
    }
}

/// Whether `states` is the assigner's state table of `world`: one entry per
/// connected elevator, in the order of the view, keyed by its assigner key.
pub open spec fn is_state_table_of(states: Seq<(String, AssignerState)>, world: WorldView) -> bool {
    let connected = world.statuses().filter(|s: ElevatorStatus| is_connected_status(world.disconnected(), s));
    &&& states.len() == connected.len()
    &&& forall|k: int| 0 <= k < states.len() ==> {
        &&& (#[trigger] states[k]).0@ == assigner_key(connected[k].elevator_id)
        &&& is_assigner_state_of(states[k].1, world, connected[k])
    }
}

impl WorldView {
    /// The elevator states for the hall request assigner: every connected
    /// elevator, keyed by its assigner key.
    pub fn assigner_states(&self) -> (states: Vec<(String, AssignerState)>)
        requires
            self.wf(),
        ensures
            is_state_table_of(states@, *self),
    {
        let connected = self.connected_elevators();
        let ghost conn = self.statuses().filter(|s: ElevatorStatus| is_connected_status(self.disconnected(), s));
        let mut states: Vec<(String, AssignerState)> = Vec::new();
        let n = connected.len();
        for k in 0..n
            invariant
                self.wf(),
                n == connected@.len(),
                connected@.map_values(|s: &ElevatorStatus| *s) == conn,
                conn == self.statuses().filter(|s: ElevatorStatus| is_connected_status(self.disconnected(), s)),
                states@.len() == k,
                forall|j: int| 0 <= j < k ==> {
                    &&& (#[trigger] states@[j]).0@ == assigner_key(conn[j].elevator_id)
                    &&& is_assigner_state_of(states@[j].1, *self, conn[j])
                },
        {
            let elevator = connected[k];
            assert(*elevator == conn[k as int]);
            proof {
                let p = |s: ElevatorStatus| is_connected_status(self.disconnected(), s);
                crate::world_view::lemma_filter_entries_come_from(self.statuses(), p);
                assert(self.statuses().contains(conn[k as int]));
                let i = choose|i: int| 0 <= i < self.statuses().len() && self.statuses()[i] == conn[k as int];
                assert(self.statuses()[i].elevator_id == elevator.elevator_id);
            }
            let key = assigner_key_of(&elevator.elevator_id);
            let state = AssignerState::from_elevator(self, elevator);
            states.push((key, state));
        }
        states
    }
}

/// The input to the hall request assigner.
pub struct AssignerInput {
    /// The active hall calls as a matrix: a row per floor, up then down.
    pub hall_requests: Vec<[bool; 2]>,
    /// The state of every elevator that may get assignments, keyed by its assigner key.
    pub states: Vec<(String, AssignerState)>,
}

impl AssignerInput {
    /// Builds the input to the assigner from the world view and the active hall calls.
    pub fn new(world: &WorldView, active_calls: &CallSet) -> (input: AssignerInput)
        requires
            world.wf(),
            hall_calls_on_floors(active_calls@),
        ensures
            is_hall_request_matrix(input.hall_requests@, active_calls@),
            is_state_table_of(input.states@, *world),
    {
        AssignerInput {
            hall_requests: calls_to_assigner_matrix(active_calls),
            states: world.assigner_states(),
        }
    }
}

/// The assigner's answer as parsed by `serde_json` into a map from keys to
/// matrices, listed in key order; `None` when the text is not such a map.
pub uninterp spec fn parsed_assigner_output(text: Seq<char>) -> Option<Seq<(Seq<char>, Seq<[bool; 3]>)>>;

#[verifier::external_type_specification]
#[verifier::external_body]
pub struct ExJsonError(serde_json::Error);

/// The entries of a parsed answer as mathematical values.
pub open spec fn entries_view(entries: Seq<(String, Vec<[bool; 3]>)>) -> Seq<(Seq<char>, Seq<[bool; 3]>)> {
    entries.map_values(|e: (String, Vec<[bool; 3]>)| (e.0@, e.1@))
}

/// Parses the assigner's answer with `serde_json::from_str` into a
/// `BTreeMap<String, Vec<[bool; 3]>>` and lists its entries in key order.
///
/// The contract claims only that the outcome is a function of the text,
/// named `parsed_assigner_output`: `Ok` exactly when that is `Some`, with the
/// same entries. What JSON `serde_json` accepts is not stated.
#[verifier::external_body]
fn parse_assigner_json(text: &str) -> (r: Result<Vec<(String, Vec<[bool; 3]>)>, serde_json::Error>)
    ensures
        match parsed_assigner_output(text@) {
            Some(entries) => r matches Ok(v) && entries_view(v@) == entries,
            None => r is Err,
        },
{
    let map = serde_json::from_str::<std::collections::BTreeMap<String, Vec<[bool; 3]>>>(text)?;
    Ok(map.into_iter().collect())
}

/// Why the assigner's answer could not be used.
#[derive(Clone, Copy, Debug, PartialEq, Eq, Structural)]
pub enum AssignerError {
    /// The answer is not a JSON map from elevator keys to matrices.
    InvalidOutput,
}

/// The position of the first entry with key `key`.
pub open spec fn first_entry_with_key(entries: Seq<(Seq<char>, Seq<[bool; 3]>)>, key: Seq<char>) -> int {
    choose|k: int| 0 <= k < entries.len() && entries[k].0 == key && forall|j: int| 0 <= j < k ==> entries[j].0 != key
}

/// The hall calls of `active` that the answer `entries` assigns to elevator
/// `id`: those its matrix marks, or none when the answer has no matrix for it.
pub open spec fn selected_calls(entries: Seq<(Seq<char>, Seq<[bool; 3]>)>, active: Set<Call>, id: ElevatorId) -> Set<Call> {
    if exists|k: int| 0 <= k < entries.len() && entries[k].0 == assigner_key(id) {
        marked_calls(active, entries[first_entry_with_key(entries, assigner_key(id))].1)
    } else {
        Set::empty()
    }
}

/// The hall calls that the assigner's answer assigns to elevator `elevator_id`.
pub fn select_assigned_calls(
    entries: &Vec<(String, Vec<[bool; 3]>)>,
    active_calls: &CallSet,
    elevator_id: &ElevatorId,
) -> (calls: CallSet)
    ensures
        calls@ == selected_calls(entries_view(entries@), active_calls@, *elevator_id),
{
    let my_key = assigner_key_of(elevator_id);
    let ghost ev = entries_view(entries@);
    let n = entries.len();
    for i in 0..n
        invariant
            n == entries@.len(),
            ev == entries_view(entries@),
            my_key@ == assigner_key(*elevator_id),
            forall|j: int| 0 <= j < i ==> ev[j].0 != my_key@,
    {
        if entries[i].0 == my_key {
            proof {
                assert(ev[i as int].0 == my_key@);
                let k = first_entry_with_key(ev, my_key@);
                assert(0 <= i < ev.len() && ev[i as int].0 == my_key@ && forall|j: int| 0 <= j < i ==> ev[j].0 != my_key@);
                assert(k == i);
            }
            return assigned_matrix_to_calls(active_calls, &entries[i].1);
        }
    }
    CallSet::new()
}

/// The hall calls that the assigner's answer `output` assigns to elevator
/// `elevator_id`, or `InvalidOutput` when the answer cannot be parsed.
pub fn assigned_calls_from_output(output: &str, active_calls: &CallSet, elevator_id: &ElevatorId) -> (r: Result<CallSet, AssignerError>)
    ensures
        match parsed_assigner_output(output@) {
            Some(entries) => r matches Ok(calls) && calls@ == selected_calls(entries, active_calls@, *elevator_id),
            None => r == Err::<CallSet, AssignerError>(AssignerError::InvalidOutput),
        },
{
    match parse_assigner_json(output) {
        Ok(entries) => Ok(select_assigned_calls(&entries, active_calls, elevator_id)),
        Err(_) => Err(AssignerError::InvalidOutput),
    }
}

/// Builds the assigner's input without the elevators that report faults, so
/// that they get no assignments.
pub fn prepare_assigner_input(world: WorldView, active_calls: &CallSet) -> (input: AssignerInput)
    requires
        world.wf(),
        hall_calls_on_floors(active_calls@),
    ensures
        is_hall_request_matrix(input.hall_requests@, active_calls@),
        exists|w: WorldView| #[trigger] is_state_table_of(input.states@, w) && w.disconnected() == world.disconnected()
            && w.statuses() == world.statuses().filter(|s: ElevatorStatus| !s.has_faults),
{
    let mut world = world;
    world.remove_faulty_elevators();
    AssignerInput::new(&world, active_calls)
}

/// Only hall calls are shared out: whatever the assigner answers, the calls
/// assigned to an elevator are active hall calls; cab calls stay with the
/// elevator where they were made.
pub proof fn lemma_assigned_calls_are_active_hall_calls(
    entries: Seq<(Seq<char>, Seq<[bool; 3]>)>,
    active: Set<Call>,
    id: ElevatorId,
)
    ensures
        forall|c: Call| #[trigger] selected_calls(entries, active, id).contains(c) ==> active.contains(c) && c.call_type < 2,
{
}

/// Whether `key` is the assigner key of an elevator of `world` that reports
/// no fault.
pub open spec fn is_key_of_healthy_elevator(key: Seq<char>, world: WorldView) -> bool {
    exists|i: int| 0 <= i < world.statuses().len() && !world.statuses()[i].has_faults
        && key == assigner_key(world.statuses()[i].elevator_id)
}

/// Elevators that report faults get no assignments: every entry of a state
/// table built, as `prepare_assigner_input` builds it, from the view without
/// the faulty elevators belongs to an elevator of the full view that reports
/// no fault.
pub proof fn lemma_faulty_elevators_get_no_entry(states: Seq<(String, AssignerState)>, w: WorldView, world: WorldView)
    requires
        is_state_table_of(states, w),
        w.statuses() == world.statuses().filter(|s: ElevatorStatus| !s.has_faults),
    ensures
        forall|k: int| 0 <= k < states.len() ==> is_key_of_healthy_elevator((#[trigger] states[k]).0@, world),
{
    let p = |s: ElevatorStatus| is_connected_status(w.disconnected(), s);
    let q = |s: ElevatorStatus| !s.has_faults;
    let conn = w.statuses().filter(p);
    assert forall|k: int| 0 <= k < states.len() implies is_key_of_healthy_elevator((#[trigger] states[k]).0@, world) by {
        crate::world_view::lemma_filter_entries_come_from(w.statuses(), p);
        assert(w.statuses().contains(conn[k]));
        let j = choose|j: int| 0 <= j < w.statuses().len() && w.statuses()[j] == conn[k];
        world.statuses().lemma_filter_pred(q, j);
        crate::world_view::lemma_filter_entries_come_from(world.statuses(), q);
        assert(world.statuses().contains(w.statuses()[j]));
        let i = choose|i: int| 0 <= i < world.statuses().len() && world.statuses()[i] == w.statuses()[j];
        assert(states[k].0@ == assigner_key(world.statuses()[i].elevator_id));
    }
}

/// A faulty elevator has no entry in a state table built from the view
/// without the faulty elevators: no entry carries its assigner key.
pub proof fn lemma_faulty_elevator_has_no_entry(states: Seq<(String, AssignerState)>, w: WorldView, world: WorldView, i: int)
    requires
        is_state_table_of(states, w),
        w.statuses() == world.statuses().filter(|s: ElevatorStatus| !s.has_faults),
        world.wf(),
        0 <= i < world.statuses().len(),
        world.statuses()[i].has_faults,
    ensures
        forall|k: int| 0 <= k < states.len() ==> (#[trigger] states[k]).0@ != assigner_key(world.statuses()[i].elevator_id),
{
    lemma_faulty_elevators_get_no_entry(states, w, world);
    assert forall|k: int| 0 <= k < states.len() implies (#[trigger] states[k]).0@ != assigner_key(world.statuses()[i].elevator_id) by {
        assert(is_key_of_healthy_elevator(states[k].0@, world));
        let j = choose|j: int| 0 <= j < world.statuses().len() && !world.statuses()[j].has_faults
            && states[k].0@ == assigner_key(world.statuses()[j].elevator_id);
        if states[k].0@ == assigner_key(world.statuses()[i].elevator_id) {
            lemma_assigner_key_injective(world.statuses()[i].elevator_id, world.statuses()[j].elevator_id);
            assert(i != j);
        }
    }
}

/// A faulty elevator is assigned nothing: when the assigner answers only
/// about the elevators in its input, as it is made to, the answer assigns no
/// call to an elevator that was left out of the input for its faults.
pub proof fn lemma_faulty_elevator_assigned_nothing(
    states: Seq<(String, AssignerState)>,
    w: WorldView,
    world: WorldView,
    i: int,
    entries: Seq<(Seq<char>, Seq<[bool; 3]>)>,
    active: Set<Call>,
)
    requires
        is_state_table_of(states, w),
        w.statuses() == world.statuses().filter(|s: ElevatorStatus| !s.has_faults),
        world.wf(),
        0 <= i < world.statuses().len(),
        world.statuses()[i].has_faults,
        forall|e: int| 0 <= e < entries.len() ==> exists|k: int| 0 <= k < states.len() && (#[trigger] entries[e]).0 == states[k].0@,
    ensures
        selected_calls(entries, active, world.statuses()[i].elevator_id) == Set::<Call>::empty(),
{
    lemma_faulty_elevator_has_no_entry(states, w, world, i);
    let key = assigner_key(world.statuses()[i].elevator_id);
    assert forall|e: int| 0 <= e < entries.len() implies entries[e].0 != key by {
        let k = choose|k: int| 0 <= k < states.len() && entries[e].0 == states[k].0@;
        assert(states[k].0@ != key);
    }
}

/// Reading back the matrix built from a set of calls gives exactly its hall
/// calls: converting calls to the assigner's matrix and back loses none and
/// adds none.
pub proof fn lemma_matrix_roundtrip(active: Set<Call>, m: Seq<[bool; 2]>)
    requires
        hall_calls_on_floors(active),
        is_hall_request_matrix(m, active),
    ensures
        marked_calls(active, m) == Set::new(|c: Call| active.contains(c) && c.call_type < 2),
{
    assert forall|c: Call| active.contains(c) && c.call_type < 2 implies #[trigger] marked_calls(active, m).contains(c) by {
        assert(has_call_at(active, c.floor as int, c.call_type as int));
        assert(m[c.floor as int][c.call_type as int]);
    }
    assert(marked_calls(active, m) =~= Set::new(|c: Call| active.contains(c) && c.call_type < 2));
}
} // verus!
