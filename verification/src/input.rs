//! Edge detection on the polled hardware inputs.
//!
//! The runtime polls the call buttons, the floor sensor and the obstruction
//! switch; this tracker remembers the previous readings and says which
//! readings are events: a button that became pressed is a new call, a change
//! of floor is an arrival, a change of the switch is an obstruction event.
use vstd::prelude::*;
use crate::messages::{Call, CallId, ElevatorId};

verus! {

/// The previous readings of the hardware inputs.
pub struct InputTracker {
    /// The elevator where calls are made.
    pub elevator_id: ElevatorId,
    /// Whether each button was pressed, per floor and button type.
    pub prev_buttons: Vec<[bool; 3]>,
    /// The previous floor sensor reading.
    pub prev_floor: Option<u8>,
    /// The previous obstruction switch reading.
    pub prev_obstruction: bool,
    /// Sequence number of the next call.
    pub seq: u64,
}

/// `new` is `old` after reading button `call_type` at `floor` as `pressed`,
/// with `call` the call that the reading made, if any.
pub open spec fn button_recorded(old: InputTracker, new: InputTracker, floor: u8, call_type: u8, pressed: bool, call: Option<Call>) -> bool {
    let rising = pressed && !old.buttons()[floor as int][call_type as int];
    &&& new.buttons().len() == old.buttons().len()
    &&& forall|f: int, b: int| 0 <= f < old.buttons().len() && 0 <= b < 3 ==> #[trigger] new.buttons()[f][b]
        == if f == floor && b == call_type { pressed } else { old.buttons()[f][b] }
    &&& new.elevator_id == old.elevator_id
    &&& new.prev_floor == old.prev_floor
    &&& new.prev_obstruction == old.prev_obstruction
    &&& rising ==> call == Some(Call { call_id: CallId { elevator_id: old.elevator_id, seq: old.seq }, floor, call_type })
    &&& rising ==> new.seq == (if old.seq == u64::MAX { 0 } else { (old.seq + 1) as u64 })
    &&& !rising ==> call is None && new.seq == old.seq
}

impl InputTracker {
    /// The previous button readings.
    pub open spec fn buttons(&self) -> Seq<[bool; 3]> {
        self.prev_buttons@
    }

    /// A tracker for `num_floors` floors that has seen nothing pressed, no
    /// floor and no obstruction.
    pub fn new(elevator_id: ElevatorId, num_floors: u8) -> (t: InputTracker)
        ensures
            t.elevator_id == elevator_id,
            t.buttons().len() == num_floors,
            forall|f: int, b: int| 0 <= f < num_floors && 0 <= b < 3 ==> !#[trigger] t.buttons()[f][b],
            t.prev_floor is None,
            !t.prev_obstruction,
            t.seq == 0,
    {
        let mut prev_buttons: Vec<[bool; 3]> = Vec::new();
        for f in 0..num_floors as usize
            invariant
                prev_buttons@.len() == f,
                forall|g: int, b: int| 0 <= g < f && 0 <= b < 3 ==> !#[trigger] prev_buttons@[g][b],
        {
            prev_buttons.push([false; 3]);
        }
        InputTracker { elevator_id, prev_buttons, prev_floor: None, prev_obstruction: false, seq: 0 }
    }

    /// Records a reading of button `call_type` at `floor`. A button that is
    /// pressed now and was not before is a new call, numbered with the
    /// sequence number, which then advances (wrapping around).
    pub fn on_button(&mut self, floor: u8, call_type: u8, pressed: bool) -> (call: Option<Call>)
        requires
            floor < old(self).buttons().len(),
            call_type < 3,
        ensures
            button_recorded(*old(self), *final(self), floor, call_type, pressed, call),
    {
        let mut row = self.prev_buttons[floor as usize];
        let was = row[call_type as usize];
        let call = if pressed && was != pressed {
            let call_id = CallId { elevator_id: self.elevator_id, seq: self.seq };
            self.seq = self.seq.wrapping_add(1);
            Some(Call { call_id, floor, call_type })
        } else {
            None
        };
        row[call_type as usize] = pressed;
        self.prev_buttons.set(floor as usize, row);
        call
    }

    /// Records a floor sensor reading; an arrival at a floor is reported
    /// when the reading changed to that floor.
    pub fn on_floor(&mut self, floor: Option<u8>) -> (arrived: Option<u8>)
        ensures
            final(self).prev_floor == floor,
            final(self).buttons() == old(self).buttons(),
            final(self).elevator_id == old(self).elevator_id,
            final(self).prev_obstruction == old(self).prev_obstruction,
            final(self).seq == old(self).seq,
            arrived == (if floor != old(self).prev_floor { floor } else { None }),
    {
        let changed = match (floor, self.prev_floor) {
            (Some(a), Some(b)) => a != b,
            (None, None) => false,
            _ => true,
        };
        self.prev_floor = floor;
        if changed {
            floor
        } else {
            None
        }
    }

    /// Records an obstruction switch reading; a change is reported.
    pub fn on_obstruction(&mut self, obstruction: bool) -> (changed: Option<bool>)
        ensures
            final(self).prev_obstruction == obstruction,
            final(self).buttons() == old(self).buttons(),
            final(self).elevator_id == old(self).elevator_id,
            final(self).prev_floor == old(self).prev_floor,
            final(self).seq == old(self).seq,
            changed == (if obstruction != old(self).prev_obstruction { Some(obstruction) } else { None }),
    {
        if obstruction != self.prev_obstruction {
            self.prev_obstruction = obstruction;
            Some(obstruction)
        } else {
            None
        }
    }
}

/// A button held down makes one call: reading it pressed twice in a row
/// gives a call at most the first time, and a new press after a release
/// gives a call again.
pub proof fn lemma_held_button_calls_once(
    t0: InputTracker,
    t1: InputTracker,
    t2: InputTracker,
    floor: u8,
    call_type: u8,
    second: bool,
    c1: Option<Call>,
    c2: Option<Call>,
)
    requires
        floor < t0.buttons().len(),
        call_type < 3,
        button_recorded(t0, t1, floor, call_type, true, c1),
        button_recorded(t1, t2, floor, call_type, second, c2),
    ensures
        second ==> c2 is None,
        !t0.buttons()[floor as int][call_type as int] ==> c1 is Some,
{
    assert(t1.buttons()[floor as int][call_type as int]);
}


/// The calls made by a run of readings, in order.
pub open spec fn made_calls(calls: Seq<Option<Call>>) -> Seq<Call>
    decreases calls.len(),
{
    if calls.len() == 0 {
        Seq::empty()
    } else {
        let before = made_calls(calls.drop_last());
        match calls.last() {
            Some(c) => before.push(c),
            None => before,
        }
    }
}

/// The identifier of the call made `k` calls after the one numbered `start`
/// at elevator `id`: the numbers wrap around.
pub open spec fn numbered_call_id(id: ElevatorId, start: u64, k: int) -> CallId {
    CallId { elevator_id: id, seq: ((start + k) % 0x1_0000_0000_0000_0000) as u64 }
}

/// Whether `ts[i + 1]` is `ts[i]` after button reading `readings[i]`, which
/// made `calls[i]`, for every reading.
pub open spec fn readings_recorded(ts: Seq<InputTracker>, readings: Seq<(u8, u8, bool)>, calls: Seq<Option<Call>>) -> bool {
    &&& ts.len() == readings.len() + 1
    &&& calls.len() == readings.len()
    &&& forall|i: int| 0 <= i < readings.len() ==> button_recorded(ts[i], ts[i + 1], readings[i].0, readings[i].1,
        readings[i].2, #[trigger] calls[i])
}

/// The calls of one tracker carry its elevator's identifier and consecutive
/// sequence numbers: over any run of button readings, the `k`-th call made is
/// numbered `k` on from the tracker's first number (wrapping around), and the
/// tracker ends up at the number of the next call. A new tracker starts at 0.
pub proof fn lemma_call_numbers_count_up(ts: Seq<InputTracker>, readings: Seq<(u8, u8, bool)>, calls: Seq<Option<Call>>)
    requires
        readings_recorded(ts, readings, calls),
    ensures
        ts.last().elevator_id == ts[0].elevator_id,
        ts.last().seq == (ts[0].seq + made_calls(calls).len()) % 0x1_0000_0000_0000_0000,
        forall|k: int| 0 <= k < made_calls(calls).len() ==> (#[trigger] made_calls(calls)[k]).call_id
            == numbered_call_id(ts[0].elevator_id, ts[0].seq, k),
{
    lemma_call_numbers_prefix(ts, readings, calls, readings.len() as int);
    assert(calls.take(readings.len() as int) =~= calls);
}

/// `lemma_call_numbers_count_up` for the first `n` readings.
proof fn lemma_call_numbers_prefix(ts: Seq<InputTracker>, readings: Seq<(u8, u8, bool)>, calls: Seq<Option<Call>>, n: int)
    requires
        readings_recorded(ts, readings, calls),
        0 <= n <= readings.len(),
    ensures
        ts[n].elevator_id == ts[0].elevator_id,
        ts[n].seq == (ts[0].seq + made_calls(calls.take(n)).len()) % 0x1_0000_0000_0000_0000,
        forall|k: int| 0 <= k < made_calls(calls.take(n)).len() ==> (#[trigger] made_calls(calls.take(n))[k]).call_id
            == numbered_call_id(ts[0].elevator_id, ts[0].seq, k),
    decreases n,
{
    if n > 0 {
        let m = n - 1;
        lemma_call_numbers_prefix(ts, readings, calls, m);
        assert(calls.take(n).drop_last() =~= calls.take(m));
        assert(calls.take(n).last() == calls[m]);
        let before = made_calls(calls.take(m));
        assert(button_recorded(ts[m], ts[m + 1], readings[m].0, readings[m].1, readings[m].2, calls[m]));
        let s = ts[0].seq as int;
        let len = before.len() as int;
        assert(ts[m].seq == (s + len) % 0x1_0000_0000_0000_0000);
        if calls[m] is Some {
            assert(made_calls(calls.take(n)) == before.push(calls[m]->0));
            assert(ts[n].seq == (s + len + 1) % 0x1_0000_0000_0000_0000) by {
                if ts[m].seq == u64::MAX {
                    assert((s + len) % 0x1_0000_0000_0000_0000 == 0xffff_ffff_ffff_ffff);
                    assert((s + len + 1) % 0x1_0000_0000_0000_0000 == 0);
                }
            }
        } else {
            assert(made_calls(calls.take(n)) == before);
        }
    }
}

} // verus!
