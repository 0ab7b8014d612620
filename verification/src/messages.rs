//! Calls, call sets and elevator status records shared between the managers.
use vstd::prelude::*;
use crate::elevator::{Behaviour, Direction};
use crate::world_view::WorldView;
use crate::config::{CAB, HALL_DOWN, HALL_UP};

verus! {

/// Unique identifier of an elevator, shaped like a MAC address.
pub type ElevatorId = [u8; 6];

/// Whether two elevator identifiers are equal.
pub fn same_elevator_id(a: &ElevatorId, b: &ElevatorId) -> (r: bool)
    ensures
        r == (*a == *b),
{
    let r = a[0] == b[0] && a[1] == b[1] && a[2] == b[2] && a[3] == b[3] && a[4] == b[4]
        && a[5] == b[5];
    proof {
        if r {
            assert(*a =~= *b);
        }
    }
    r
}


/// Identifier of a call: the elevator where the button was pressed and a
/// sequence number that this elevator increases for every new call.
#[derive(Clone, Copy, Debug, PartialEq, Eq, Hash)]
pub struct CallId {
    pub elevator_id: ElevatorId,
    pub seq: u64,
}

/// A request for service: a button pressed at a floor.
///
/// `call_type` is one of `HALL_UP`, `HALL_DOWN` and `CAB`.
#[derive(Clone, Copy, Debug, PartialEq, Eq, Hash)]
pub struct Call {
    pub call_id: CallId,
    pub floor: u8,
    pub call_type: u8,
}

impl Call {
    /// Whether two calls are the same call, field by field.
    pub fn same_as(&self, other: &Call) -> (r: bool)
        ensures
            r == (*self == *other),
    {
        same_elevator_id(&self.call_id.elevator_id, &other.call_id.elevator_id)
            && self.call_id.seq == other.call_id.seq && self.floor == other.floor
            && self.call_type == other.call_type
    }
}

/// A finite set of calls.
///
/// Its view is the mathematical set of the calls it holds.
pub struct CallSet {
    calls: Vec<Call>,
}

impl View for CallSet {
    type V = Set<Call>;

    open spec fn view(&self) -> Set<Call> {
        Set::new(|c: Call| self.elems().contains(c))
    }
}

impl CallSet {
    /// The calls in the order in which they are stored.
    pub closed spec fn elems(&self) -> Seq<Call> {
        self.calls@
    }

    /// An empty set.
    pub fn new() -> (s: CallSet)
        ensures
            s@ == Set::<Call>::empty(),
            s.elems().len() == 0,
    {
        let s = CallSet { calls: Vec::new() };
        assert(s@ =~= Set::<Call>::empty());
        s
    }

    /// How many stored entries there are; each stored entry is a member.
    pub fn num_stored(&self) -> (n: usize)
        ensures
            n == self.elems().len(),
    {
        self.calls.len()
    }

    /// The stored entry at position `i`.
    pub fn get(&self, i: usize) -> (c: Call)
        requires
            i < self.elems().len(),
        ensures
            c == self.elems()[i as int],
    {
        self.calls[i]
    }

    /// Whether `c` is a member.
    pub fn contains(&self, c: &Call) -> (r: bool)
        ensures
            r == self@.contains(*c),
    {
        let n = self.calls.len();
        for i in 0..n
            invariant
                n == self.calls@.len(),
                forall|j: int| 0 <= j < i ==> self.calls@[j] != *c,
        {
            if self.calls[i].same_as(c) {
                assert(self.elems().contains(*c)) by {
                    assert(self.elems()[i as int] == *c);
                }
                return true;
            }
        }
        false
    }

    /// Whether the set has no member.
    pub fn is_empty(&self) -> (r: bool)
        ensures
            r == (self@ =~= Set::<Call>::empty()),
    {
        if self.calls.len() == 0 {
            true
        } else {
            assert(self@.contains(self.elems()[0]));
            false
        }
    }

    /// Adds `c`; returns whether it was not a member before.
    pub fn insert(&mut self, c: Call) -> (added: bool)
        ensures
            final(self)@ == old(self)@.insert(c),
            added == !old(self)@.contains(c),
    {
        if self.contains(&c) {
            assert(self@ =~= old(self)@.insert(c));
            false
        } else {
            self.calls.push(c);
            assert(self@ =~= old(self)@.insert(c)) by {
                assert(self.elems() == old(self).elems().push(c));
                assert forall|x: Call| self@.contains(x) <==> old(self)@.insert(c).contains(x) by {
                    if self.elems().contains(x) {
                        let k = choose|k: int| 0 <= k < self.elems().len() && self.elems()[k] == x;
                        if k < old(self).elems().len() {
                            assert(old(self).elems()[k] == x);
                        }
                    }
                    if old(self).elems().contains(x) {
                        let k = choose|k: int| 0 <= k < old(self).elems().len() && old(self).elems()[k] == x;
                        assert(self.elems()[k] == x);
                    }
                    if x == c {
                        assert(self.elems()[self.elems().len() - 1] == c);
                    }
                }
            }
            true
        }
    }

    /// Removes `c`; returns whether it was a member before.
    pub fn remove(&mut self, c: &Call) -> (removed: bool)
        ensures
            final(self)@ == old(self)@.remove(*c),
            removed == old(self)@.contains(*c),
    {
        let was = self.contains(c);
        let mut kept: Vec<Call> = Vec::new();
        let n = self.calls.len();
        for i in 0..n
            invariant
                n == self.calls@.len(),
                self.calls@ == old(self).calls@,
                forall|x: Call| kept@.contains(x) <==> (x != *c && exists|j: int| 0 <= j < i && self.calls@[j] == x),
        {
            let ghost prev = kept@;
            let x = self.calls[i];
            if !x.same_as(c) {
                kept.push(x);
            }
            assert forall|y: Call| kept@.contains(y) <==> (y != *c && exists|j: int| 0 <= j < i + 1 && self.calls@[j] == y) by {
                if y != *c && self.calls@[i as int] == y {
                    assert(kept@[kept@.len() - 1] == y);
                }
                if kept@.contains(y) {
                    let k = choose|k: int| 0 <= k < kept@.len() && kept@[k] == y;
                    if k < prev.len() {
                        assert(prev[k] == y);
                        assert(prev.contains(y));
                    } else {
                        assert(y == x);
                        assert(self.calls@[i as int] == y);
                    }
                }
                if y != *c && exists|j: int| 0 <= j < i && self.calls@[j] == y {
                    assert(prev.contains(y));
                    let k = choose|k: int| 0 <= k < prev.len() && prev[k] == y;
                    assert(kept@[k] == y);
                }
            }
        }
        self.calls = kept;
        assert(self@ =~= old(self)@.remove(*c));
        was
    }
}


impl CallSet {
    /// A set with the same stored entries.
    pub fn copy(&self) -> (r: CallSet)
        ensures
            r.elems() == self.elems(),
            r@ == self@,
    {
        let mut calls: Vec<Call> = Vec::new();
        let n = self.calls.len();
        for i in 0..n
            invariant
                n == self.calls@.len(),
                calls@ == self.calls@.take(i as int),
        {
            calls.push(self.calls[i]);
            assert(calls@ =~= self.calls@.take(i + 1));
        }
        assert(calls@ =~= self.calls@);
        let r = CallSet { calls };
        assert(r@ =~= self@);
        r
    }

    /// Adds every member of `other`.
    pub fn extend_from(&mut self, other: &CallSet)
        ensures
            final(self)@ == old(self)@.union(other@),
    {
        let n = other.num_stored();
        for i in 0..n
            invariant
                n == other.elems().len(),
                self@ == old(self)@.union(prefix_set(other.elems(), i as int)),
        {
            let c = other.get(i);
            self.insert(c);
            proof {
                lemma_prefix_set_step(other.elems(), i as int);
            }
            assert(self@ =~= old(self)@.union(prefix_set(other.elems(), i + 1)));
        }
        proof {
            lemma_prefix_set_full(other.elems());
        }
        assert(self@ =~= old(self)@.union(other@));
    }
}

impl CallSet {
    /// Keeps the members that are in `other` when `keep_members` holds, and
    /// those that are not in `other` when it does not.
    pub fn retain_where(&mut self, other: &CallSet, keep_members: bool)
        ensures
            keep_members ==> final(self)@ == old(self)@.intersect(other@),
            !keep_members ==> final(self)@ == old(self)@.difference(other@),
    {
        let mut kept: Vec<Call> = Vec::new();
        let n = self.calls.len();
        for i in 0..n
            invariant
                n == self.calls@.len(),
                self.calls@ == old(self).calls@,
                forall|x: Call| kept@.contains(x) <==> (other@.contains(x) == keep_members && exists|j: int| 0 <= j < i && self.calls@[j] == x),
        {
            let ghost prev = kept@;
            let x = self.calls[i];
            if other.contains(&x) == keep_members {
                kept.push(x);
            }
            assert forall|y: Call| kept@.contains(y) <==> (other@.contains(y) == keep_members && exists|j: int| 0 <= j < i + 1 && self.calls@[j] == y) by {
                if other@.contains(y) == keep_members && self.calls@[i as int] == y {
                    assert(kept@[kept@.len() - 1] == y);
                }
                if kept@.contains(y) {
                    let k = choose|k: int| 0 <= k < kept@.len() && kept@[k] == y;
                    if k < prev.len() {
                        assert(prev[k] == y);
                        assert(prev.contains(y));
                    } else {
                        assert(self.calls@[i as int] == y);
                    }
                }
                if other@.contains(y) == keep_members && exists|j: int| 0 <= j < i && self.calls@[j] == y {
                    assert(prev.contains(y));
                    let k = choose|k: int| 0 <= k < prev.len() && prev[k] == y;
                    assert(kept@[k] == y);
                }
            }
        }
        self.calls = kept;
        if keep_members {
            assert(self@ =~= old(self)@.intersect(other@));
        } else {
            assert(self@ =~= old(self)@.difference(other@));
        }
    }
}

/// The calls among the first `n` entries of `s`.
spec fn prefix_set(s: Seq<Call>, n: int) -> Set<Call> {
    Set::new(|c: Call| exists|j: int| 0 <= j < n && s[j] == c)
}

/// Taking one more entry adds that entry.
proof fn lemma_prefix_set_step(s: Seq<Call>, n: int)
    requires
        0 <= n < s.len(),
    ensures
        prefix_set(s, n + 1) == prefix_set(s, n).insert(s[n]),
{
    assert forall|x: Call| prefix_set(s, n + 1).contains(x) <==> prefix_set(s, n).insert(s[n]).contains(x) by {
        if prefix_set(s, n + 1).contains(x) {
            let j = choose|j: int| 0 <= j < n + 1 && s[j] == x;
            if j < n {
                assert(prefix_set(s, n).contains(x));
            }
        }
        if prefix_set(s, n).contains(x) {
            let j = choose|j: int| 0 <= j < n && s[j] == x;
            assert(0 <= j < n + 1 && s[j] == x);
        }
        if x == s[n] {
            assert(0 <= n < n + 1 && s[n] == x);
        }
    }
    assert(prefix_set(s, n + 1) =~= prefix_set(s, n).insert(s[n]));
}

/// All entries of `s` are the members of `s`.
proof fn lemma_prefix_set_full(s: Seq<Call>)
    ensures
        prefix_set(s, s.len() as int) == Set::new(|c: Call| s.contains(c)),
{
    assert(prefix_set(s, s.len() as int) =~= Set::new(|c: Call| s.contains(c)));
}

/// Status of an elevator as it is shared with every other elevator.
pub struct ElevatorStatus {
    pub elevator_id: ElevatorId,
    pub behaviour: Behaviour,
    pub floor: u8,
    pub direction: Direction,
    /// Cab calls made in this elevator.
    pub cab_calls: CallSet,
    /// Hall calls this elevator knows about.
    pub hall_calls: CallSet,
    /// Hall calls this elevator knows to be served.
    pub served_hall_calls: CallSet,
    /// Cab calls of all elevators that this elevator has seen, so that each
    /// elevator can tell that its cab calls are backed up on the network.
    pub known_cab_calls: CallSet,
    /// Whether the elevator currently reports a fault.
    pub has_faults: bool,
}

impl ElevatorStatus {
    /// The status of an idle elevator at `floor` with no calls and no faults.
    pub fn new(elevator_id: ElevatorId, floor: u8) -> (s: ElevatorStatus)
        ensures
            s.elevator_id == elevator_id,
            s.behaviour == Behaviour::Idle,
            s.floor == floor,
            s.direction == Direction::Stop,
            s.cab_calls@ == Set::<Call>::empty(),
            s.hall_calls@ == Set::<Call>::empty(),
            s.served_hall_calls@ == Set::<Call>::empty(),
            s.known_cab_calls@ == Set::<Call>::empty(),
            !s.has_faults,
    {
        ElevatorStatus {
            elevator_id,
            behaviour: Behaviour::Idle,
            floor,
            direction: Direction::Stop,
            cab_calls: CallSet::new(),
            hall_calls: CallSet::new(),
            served_hall_calls: CallSet::new(),
            known_cab_calls: CallSet::new(),
            has_faults: false,
        }
    }

    /// Whether two statuses hold the same values, call sets compared by their members.
    pub open spec fn same_values(self, other: ElevatorStatus) -> bool {
        &&& self.elevator_id == other.elevator_id
        &&& self.behaviour == other.behaviour
        &&& self.floor == other.floor
        &&& self.direction == other.direction
        &&& self.cab_calls@ == other.cab_calls@
        &&& self.hall_calls@ == other.hall_calls@
        &&& self.served_hall_calls@ == other.served_hall_calls@
        &&& self.known_cab_calls@ == other.known_cab_calls@
        &&& self.has_faults == other.has_faults
    }

    /// A status with the same values.
    pub fn copy(&self) -> (r: ElevatorStatus)
        ensures
            r.same_values(*self),
    {
        ElevatorStatus {
            elevator_id: self.elevator_id,
            behaviour: self.behaviour,
            floor: self.floor,
            direction: self.direction,
            cab_calls: self.cab_calls.copy(),
            hall_calls: self.hall_calls.copy(),
            served_hall_calls: self.served_hall_calls.copy(),
            known_cab_calls: self.known_cab_calls.copy(),
            has_faults: self.has_faults,
        }
    }
}

/// Status of the local elevator, reported to the world manager whenever it changes.
pub struct LocalElevatorStatus {
    pub floor: u8,
    pub direction: Direction,
    pub behaviour: Behaviour,
    /// Whether the elevator currently reports a fault.
    pub has_faults: bool,
}

impl LocalElevatorStatus {
    /// A status record holding the given values.
    pub fn new(floor: u8, direction: Direction, behaviour: Behaviour, has_faults: bool) -> (s: LocalElevatorStatus)
        ensures
            s.floor == floor,
            s.direction == direction,
            s.behaviour == behaviour,
            s.has_faults == has_faults,
    {
        LocalElevatorStatus { floor, direction, behaviour, has_faults }
    }
}

/// Messages to the elevator manager.
pub enum MsgToElevatorManager {
    /// The elevator arrived at a floor.
    AtFloor(u8),
    /// The set of calls this elevator shall serve changed.
    ActiveCalls(CallSet),
    /// The obstruction switch changed.
    Obstruction(bool),
}

/// Messages to the world manager.
pub enum MsgToWorldManager {
    /// A new call was made at the local elevator.
    AddCall(Call),
    /// The local elevator served a call.
    ServedCall(Call),
    /// The local elevator's status changed.
    NewLocalElevatorStatus(LocalElevatorStatus),
    /// A status was received from a remote elevator.
    NewRemoteElevatorStatus(ElevatorStatus),
    /// A remote elevator went silent.
    AddDisconnectedElevator(ElevatorId),
    /// A silent remote elevator was heard from again.
    RemoveDisconnectedElevator(ElevatorId),
}

/// Messages to the call manager.
pub enum MsgToCallManager {
    /// The world view changed.
    NewWorldView(WorldView),
}

/// The name of a call type as shown in logs.
pub open spec fn call_type_label(call_type: u8) -> Seq<char> {
    if call_type == CAB {
        seq!['C', 'A', 'B']
    } else if call_type == HALL_UP {
        seq!['H', 'A', 'L', 'L', ' ', 'U', 'P']
    } else if call_type == HALL_DOWN {
        seq!['H', 'A', 'L', 'L', ' ', 'D', 'O', 'W', 'N']
    } else {
        seq!['U', 'N', 'K', 'N', 'O', 'W', 'N']
    }
}

/// The name of a call type as shown in logs: `CAB`, `HALL UP`, `HALL DOWN`,
/// or `UNKNOWN` for any other number.
pub fn call_type_name(call_type: u8) -> (name: &'static str)
    ensures
        name@ == call_type_label(call_type),
{
    proof {
        reveal_strlit("CAB");
        reveal_strlit("HALL UP");
        reveal_strlit("HALL DOWN");
        reveal_strlit("UNKNOWN");
    }
    if call_type == CAB {
        let s = "CAB";
        assert(s@ =~= call_type_label(call_type));
        s
    } else if call_type == HALL_UP {
        let s = "HALL UP";
        assert(s@ =~= call_type_label(call_type));
        s
    } else if call_type == HALL_DOWN {
        let s = "HALL DOWN";
        assert(s@ =~= call_type_label(call_type));
        s
    } else {
        let s = "UNKNOWN";
        assert(s@ =~= call_type_label(call_type));
        s
    }
}
} // verus!
