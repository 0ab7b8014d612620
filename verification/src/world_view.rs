//! The shared view of all elevators in the network.
//!
//! Every elevator keeps a `WorldView`: the latest known status of each
//! elevator and the set of elevators that are currently disconnected. From it
//! follow the hall calls and cab calls that are active, the merging of hall
//! calls heard from others, the acknowledgement of cab calls and the cleanup
//! of served hall calls.
use vstd::prelude::*;
use crate::config::{CAB, HALL_DOWN, HALL_UP};
use crate::messages::{
    Call, CallSet, ElevatorId, ElevatorStatus, LocalElevatorStatus, MsgToWorldManager, same_elevator_id,
};

verus! {

/// One of the four call sets of an elevator status.
#[derive(Clone, Copy, Debug, PartialEq, Eq, Structural)]
pub enum CallField {
    Cab,
    Hall,
    Served,
    Known,
}

/// The members of the call set `f` of `s`.
pub open spec fn field_of(s: ElevatorStatus, f: CallField) -> Set<Call> {
    match f {
        CallField::Cab => s.cab_calls@,
        CallField::Hall => s.hall_calls@,
        CallField::Served => s.served_hall_calls@,
        CallField::Known => s.known_cab_calls@,
    }
}

/// `new` is `old` with its call sets replaced by the given sets.
pub open spec fn status_with_sets(
    old: ElevatorStatus,
    new: ElevatorStatus,
    cab: Set<Call>,
    hall: Set<Call>,
    served: Set<Call>,
    known: Set<Call>,
) -> bool {
    &&& new.elevator_id == old.elevator_id
    &&& new.behaviour == old.behaviour
    &&& new.floor == old.floor
    &&& new.direction == old.direction
    &&& new.has_faults == old.has_faults
    &&& new.cab_calls@ == cab
    &&& new.hall_calls@ == hall
    &&& new.served_hall_calls@ == served
    &&& new.known_cab_calls@ == known
}

/// Shared view of all elevators in the system.
///
/// Holds the latest known status of every elevator, at most one per
/// elevator, and the set of elevators that are currently disconnected.
pub struct WorldView {
    elevators: Vec<ElevatorStatus>,
    disconnected_elevators: Vec<ElevatorId>,
}

impl WorldView {
    /// The known statuses.
    pub closed spec fn statuses(&self) -> Seq<ElevatorStatus> {
        self.elevators@
    }

    /// The elevators that are currently disconnected.
    pub closed spec fn disconnected(&self) -> Set<ElevatorId> {
        Set::new(|id: ElevatorId| self.disconnected_elevators@.contains(id))
    }

    /// No two statuses belong to the same elevator.
    pub open spec fn wf(&self) -> bool {
        forall|i: int, j: int|
            0 <= i < self.statuses().len() && 0 <= j < self.statuses().len() && i != j
                ==> self.statuses()[i].elevator_id != self.statuses()[j].elevator_id
    }

    /// Whether the status at position `i` belongs to a connected elevator.
    pub open spec fn is_connected(&self, i: int) -> bool {
        &&& 0 <= i < self.statuses().len()
        &&& !self.disconnected().contains(self.statuses()[i].elevator_id)
    }

    /// Whether some connected elevator is known.
    pub open spec fn has_connected(&self) -> bool {
        exists|i: int| self.is_connected(i)
    }

    /// Whether the view holds a status of elevator `id`.
    pub open spec fn has_elevator(&self, id: ElevatorId) -> bool {
        exists|i: int| 0 <= i < self.statuses().len() && self.statuses()[i].elevator_id == id
    }

    /// The position of the status of elevator `id`.
    pub open spec fn index_of(&self, id: ElevatorId) -> int {
        choose|i: int| 0 <= i < self.statuses().len() && self.statuses()[i].elevator_id == id
    }

    /// The status of elevator `id`.
    pub open spec fn status_of(&self, id: ElevatorId) -> ElevatorStatus {
        self.statuses()[self.index_of(id)]
    }

    /// The calls in set `f` of some included elevator: of every elevator, or
    /// of the connected ones only.
    pub open spec fn union_of(&self, f: CallField, connected_only: bool) -> Set<Call> {
        Set::new(|c: Call| exists|i: int| 0 <= i < self.statuses().len()
            && (!connected_only || self.is_connected(i)) && #[trigger] field_of(self.statuses()[i], f).contains(c))
    }

    /// The hall calls of all connected elevators.
    pub open spec fn connected_hall_calls(&self) -> Set<Call> {
        self.union_of(CallField::Hall, true)
    }

    /// The served hall calls of all connected elevators.
    pub open spec fn connected_served_calls(&self) -> Set<Call> {
        self.union_of(CallField::Served, true)
    }

    /// The hall calls that every connected elevator holds and none has served.
    pub open spec fn spec_active_hall_calls(&self) -> Set<Call> {
        if self.has_connected() {
            Set::new(|c: Call| (forall|i: int| self.is_connected(i) ==> #[trigger] self.statuses()[i].hall_calls@.contains(c))
                && !self.connected_served_calls().contains(c))
        } else {
            Set::empty()
        }
    }

    /// The cab calls of elevator `id` that every other connected elevator knows.
    pub open spec fn spec_active_cab_calls(&self, id: ElevatorId) -> Set<Call> {
        Set::new(|c: Call| self.status_of(id).cab_calls@.contains(c)
            && forall|i: int| self.is_connected(i) && self.statuses()[i].elevator_id != id
                ==> #[trigger] self.statuses()[i].known_cab_calls@.contains(c))
    }

    /// The hall calls that every connected elevator has marked served; none
    /// when no elevator is connected.
    pub open spec fn served_by_all(&self) -> Set<Call> {
        if self.has_connected() {
            Set::new(|c: Call| forall|i: int| self.is_connected(i) ==> #[trigger] self.statuses()[i].served_hall_calls@.contains(c))
        } else {
            Set::empty()
        }
    }

    /// A view that holds only `initial_status`, with no elevator disconnected.
    pub fn new(initial_status: ElevatorStatus) -> (w: WorldView)
        ensures
            w.wf(),
            w.statuses() == seq![initial_status],
            w.disconnected() == Set::<ElevatorId>::empty(),
    {
        let mut elevators = Vec::new();
        elevators.push(initial_status);
        let w = WorldView { elevators, disconnected_elevators: Vec::new() };
        assert(w.statuses() =~= seq![initial_status]);
        assert(w.disconnected() =~= Set::<ElevatorId>::empty());
        w
    }

    /// Whether elevator `id` is among the disconnected ones.
    fn is_disconnected(&self, id: &ElevatorId) -> (r: bool)
        ensures
            r == self.disconnected().contains(*id),
    {
        let n = self.disconnected_elevators.len();
        for i in 0..n
            invariant
                n == self.disconnected_elevators@.len(),
                forall|j: int| 0 <= j < i ==> self.disconnected_elevators@[j] != *id,
        {
            if same_elevator_id(&self.disconnected_elevators[i], id) {
                assert(self.disconnected_elevators@[i as int] == *id);
                return true;
            }
        }
        false
    }

    /// The position of the status of elevator `id`, if there is one.
    fn find(&self, id: &ElevatorId) -> (r: Option<usize>)
        requires
            self.wf(),
        ensures
            r.is_none() == !self.has_elevator(*id),
            r matches Some(k) ==> k == self.index_of(*id) && k < self.statuses().len()
                && self.statuses()[k as int].elevator_id == *id,
    {
        let n = self.elevators.len();
        for i in 0..n
            invariant
                n == self.elevators@.len(),
                self.wf(),
                forall|j: int| 0 <= j < i ==> self.elevators@[j].elevator_id != *id,
        {
            if same_elevator_id(&self.elevators[i].elevator_id, id) {
                proof {
                    assert(self.statuses()[i as int].elevator_id == *id);
                    let c = self.index_of(*id);
                    assert(0 <= c < self.statuses().len() && self.statuses()[c].elevator_id == *id);
                }
                return Some(i);
            }
        }
        None
    }

    /// The union of call set `f` over every elevator, or over the connected ones.
    fn collect_union(&self, f: CallField, connected_only: bool) -> (r: CallSet)
        ensures
            r@ == self.union_of(f, connected_only),
    {
        let mut r = CallSet::new();
        let n = self.elevators.len();
        for i in 0..n
            invariant
                n == self.statuses().len(),
                r@ == Set::new(|c: Call| exists|j: int| 0 <= j < i
                    && (!connected_only || self.is_connected(j)) && #[trigger] field_of(self.statuses()[j], f).contains(c)),
        {
            let ghost prev = r@;
            let included = !connected_only || !self.is_disconnected(&self.elevators[i].elevator_id);
            if included {
                let st = &self.elevators[i];
                match f {
                    CallField::Cab => r.extend_from(&st.cab_calls),
                    CallField::Hall => r.extend_from(&st.hall_calls),
                    CallField::Served => r.extend_from(&st.served_hall_calls),
                    CallField::Known => r.extend_from(&st.known_cab_calls),
                }
            }
            assert(r@ =~= Set::new(|c: Call| exists|j: int| 0 <= j < i + 1
                && (!connected_only || self.is_connected(j)) && #[trigger] field_of(self.statuses()[j], f).contains(c))) by {
                assert forall|c: Call| (exists|j: int| 0 <= j < i + 1
                    && (!connected_only || self.is_connected(j)) && #[trigger] field_of(self.statuses()[j], f).contains(c))
                    implies r@.contains(c) by {
                    let j = choose|j: int| 0 <= j < i + 1
                        && (!connected_only || self.is_connected(j)) && #[trigger] field_of(self.statuses()[j], f).contains(c);
                    if j < i {
                        assert(prev.contains(c));
                    }
                }
                assert forall|c: Call| r@.contains(c) implies (exists|j: int| 0 <= j < i + 1
                    && (!connected_only || self.is_connected(j)) && #[trigger] field_of(self.statuses()[j], f).contains(c)) by {
                    if prev.contains(c) {
                        let j = choose|j: int| 0 <= j < i
                            && (!connected_only || self.is_connected(j)) && #[trigger] field_of(self.statuses()[j], f).contains(c);
                        assert(0 <= j < i + 1);
                    } else {
                        assert(included && field_of(self.statuses()[i as int], f).contains(c));
                    }
                }
            }
        }
        assert(r@ =~= self.union_of(f, connected_only));
        r
    }
}


/// `new` is `old` after merging the hall calls of the connected elevators
/// into the status of elevator `id`.
pub open spec fn hall_calls_merged(old: WorldView, new: WorldView, id: ElevatorId) -> bool {
    let all_hall = old.connected_hall_calls();
    let all_served = old.connected_served_calls();
    &&& new.disconnected() == old.disconnected()
    &&& new.statuses().len() == old.statuses().len()
    &&& forall|j: int| 0 <= j < old.statuses().len() && !(old.has_elevator(id) && j == old.index_of(id))
        ==> #[trigger] new.statuses()[j] == old.statuses()[j]
    &&& old.has_elevator(id) ==> {
        let o = old.status_of(id);
        status_with_sets(
            o,
            new.statuses()[old.index_of(id)],
            o.cab_calls@,
            o.hall_calls@.union(all_hall.difference(all_served)),
            o.served_hall_calls@.union(all_served.intersect(all_hall)),
            o.known_cab_calls@,
        )
    }
}

/// `new` is `old` after recording, in the status of elevator `id`, every cab
/// call of every known elevator.
pub open spec fn cab_calls_acknowledged(old: WorldView, new: WorldView, id: ElevatorId) -> bool {
    &&& new.disconnected() == old.disconnected()
    &&& new.statuses().len() == old.statuses().len()
    &&& forall|j: int| 0 <= j < old.statuses().len() && !(old.has_elevator(id) && j == old.index_of(id))
        ==> #[trigger] new.statuses()[j] == old.statuses()[j]
    &&& old.has_elevator(id) ==> {
        let o = old.status_of(id);
        status_with_sets(
            o,
            new.statuses()[old.index_of(id)],
            o.cab_calls@,
            o.hall_calls@,
            o.served_hall_calls@,
            old.union_of(CallField::Cab, false),
        )
    }
}

/// The hall calls of the connected elevators once the calls served by all
/// have left the hall calls of elevator `id`.
pub open spec fn hall_calls_after_cleanup(old: WorldView, id: ElevatorId) -> Set<Call> {
    Set::new(|c: Call| exists|i: int| old.is_connected(i)
        && #[trigger] old.statuses()[i].hall_calls@.contains(c)
        && !(old.has_elevator(id) && i == old.index_of(id) && old.served_by_all().contains(c)))
}

/// The served markers that the cleanup removes: marked served by some
/// connected elevator and no longer a hall call of any connected elevator.
pub open spec fn removable_served_markers(old: WorldView, id: ElevatorId) -> Set<Call> {
    old.connected_served_calls().difference(hall_calls_after_cleanup(old, id))
}

/// `new` is `old` after the two-stage cleanup of served hall calls seen from
/// elevator `id`.
pub open spec fn hall_calls_cleaned(old: WorldView, new: WorldView, id: ElevatorId) -> bool {
    let removable = removable_served_markers(old, id);
    &&& new.disconnected() == old.disconnected()
    &&& new.statuses().len() == old.statuses().len()
    &&& forall|j: int| 0 <= j < old.statuses().len() ==> {
        let o = #[trigger] old.statuses()[j];
        status_with_sets(
            o,
            new.statuses()[j],
            o.cab_calls@,
            if old.has_elevator(id) && j == old.index_of(id) {
                o.hall_calls@.difference(old.served_by_all())
            } else {
                o.hall_calls@
            },
            o.served_hall_calls@.difference(removable),
            o.known_cab_calls@,
        )
    }
}

impl WorldView {
    /// The position of the first connected elevator, if there is one.
    fn first_connected(&self) -> (r: Option<usize>)
        ensures
            r.is_none() == !self.has_connected(),
            r matches Some(k) ==> self.is_connected(k as int),
    {
        let n = self.elevators.len();
        for i in 0..n
            invariant
                n == self.statuses().len(),
                forall|j: int| 0 <= j < i ==> !self.is_connected(j),
        {
            if !self.is_disconnected(&self.elevators[i].elevator_id) {
                assert(self.is_connected(i as int));
                return Some(i);
            }
        }
        None
    }

    /// Returns the active hall calls: those that every connected elevator
    /// holds and that no connected elevator has marked served.
    ///
    /// All elevators thereby agree that the hall call is active.
    pub fn active_hall_calls(&self) -> (r: CallSet)
        ensures
            r@ == self.spec_active_hall_calls(),
    {
        let served = self.collect_union(CallField::Served, true);
        let first = match self.first_connected() {
            Some(k) => k,
            None => {
                return CallSet::new();
            },
        };
        let mut active = self.elevators[first].hall_calls.copy();
        let n = self.elevators.len();
        for i in 0..n
            invariant
                n == self.statuses().len(),
                first < n,
                self.is_connected(first as int),
                active@ == self.statuses()[first as int].hall_calls@.intersect(
                    Set::new(|c: Call| forall|j: int| 0 <= j < i && self.is_connected(j) ==> #[trigger] self.statuses()[j].hall_calls@.contains(c))),
        {
            if !self.is_disconnected(&self.elevators[i].elevator_id) {
                active.retain_where(&self.elevators[i].hall_calls, true);
            }
            assert(active@ =~= self.statuses()[first as int].hall_calls@.intersect(
                Set::new(|c: Call| forall|j: int| 0 <= j < i + 1 && self.is_connected(j) ==> #[trigger] self.statuses()[j].hall_calls@.contains(c))));
        }
        active.retain_where(&served, false);
        assert(active@ =~= self.spec_active_hall_calls());
        active
    }

    /// Returns the active cab calls of elevator `id`: those that every other
    /// connected elevator knows, so that they are backed up on the network.
    ///
    /// An elevator that is alone has all its cab calls active.
    pub fn active_cab_calls(&self, elevator_id: &ElevatorId) -> (r: CallSet)
        requires
            self.wf(),
            self.has_elevator(*elevator_id),
        ensures
            r@ == self.spec_active_cab_calls(*elevator_id),
    {
        let k = match self.find(elevator_id) {
            Some(k) => k,
            None => {
                return CallSet::new();
            },
        };
        let mut active = self.elevators[k].cab_calls.copy();
        let n = self.elevators.len();
        let mut alone = true;
        for i in 0..n
            invariant
                n == self.statuses().len(),
                alone == forall|j: int| 0 <= j < i && self.is_connected(j) ==> #[trigger] self.statuses()[j].elevator_id == *elevator_id,
        {
            if !self.is_disconnected(&self.elevators[i].elevator_id)
                && !same_elevator_id(&self.elevators[i].elevator_id, elevator_id) {
                alone = false;
            }
        }
        if alone {
            assert(active@ =~= self.spec_active_cab_calls(*elevator_id));
            return active;
        }
        for i in 0..n
            invariant
                n == self.statuses().len(),
                k == self.index_of(*elevator_id),
                k < n,
                active@ == Set::new(|c: Call| self.statuses()[k as int].cab_calls@.contains(c)
                    && forall|j: int| 0 <= j < i && self.is_connected(j) && self.statuses()[j].elevator_id != *elevator_id
                        ==> #[trigger] self.statuses()[j].known_cab_calls@.contains(c)),
        {
            if !self.is_disconnected(&self.elevators[i].elevator_id)
                && !same_elevator_id(&self.elevators[i].elevator_id, elevator_id) {
                active.retain_where(&self.elevators[i].known_cab_calls, true);
            }
            assert(active@ =~= Set::new(|c: Call| self.statuses()[k as int].cab_calls@.contains(c)
                && forall|j: int| 0 <= j < i + 1 && self.is_connected(j) && self.statuses()[j].elevator_id != *elevator_id
                    ==> #[trigger] self.statuses()[j].known_cab_calls@.contains(c)));
        }
        assert(active@ =~= self.spec_active_cab_calls(*elevator_id));
        active
    }
}

impl WorldView {
    /// Merges the hall calls heard from the connected elevators into the
    /// status of elevator `elevator_id`.
    ///
    /// Hall calls that no connected elevator has served are added to its hall
    /// calls; served markers are added only for calls that some connected
    /// elevator still holds, so that a marker that was cleaned up does not
    /// come back.
    pub fn merge_hall_calls(&mut self, elevator_id: &ElevatorId)
        requires
            old(self).wf(),
        ensures
            final(self).wf(),
            hall_calls_merged(*old(self), *final(self), *elevator_id),
    {
        let all_hall_calls = self.collect_union(CallField::Hall, true);
        let all_served_hall_calls = self.collect_union(CallField::Served, true);
        if let Some(k) = self.find(elevator_id) {
            let mut new_hall = all_hall_calls.copy();
            new_hall.retain_where(&all_served_hall_calls, false);
            let mut new_served = all_served_hall_calls.copy();
            new_served.retain_where(&all_hall_calls, true);
            self.elevators[k].hall_calls.extend_from(&new_hall);
            self.elevators[k].served_hall_calls.extend_from(&new_served);
        }
    }
}

impl WorldView {
    /// Records in the status of elevator `elevator_id` every cab call of every
    /// known elevator, so that the others can tell their cab calls are backed up.
    pub fn acknowledge_cab_calls(&mut self, elevator_id: &ElevatorId)
        requires
            old(self).wf(),
        ensures
            final(self).wf(),
            cab_calls_acknowledged(*old(self), *final(self), *elevator_id),
    {
        let all_cab_calls = self.collect_union(CallField::Cab, false);
        if let Some(k) = self.find(elevator_id) {
            self.elevators[k].known_cab_calls = all_cab_calls;
        }
    }

    /// The hall calls that every connected elevator has marked served.
    fn collect_served_by_all(&self) -> (r: CallSet)
        ensures
            r@ == self.served_by_all(),
    {
        let mut r = self.collect_union(CallField::Served, true);
        let n = self.elevators.len();
        for i in 0..n
            invariant
                n == self.statuses().len(),
                r@ == self.connected_served_calls().intersect(Set::new(|c: Call|
                    forall|j: int| 0 <= j < i && self.is_connected(j) ==> #[trigger] self.statuses()[j].served_hall_calls@.contains(c))),
        {
            if !self.is_disconnected(&self.elevators[i].elevator_id) {
                r.retain_where(&self.elevators[i].served_hall_calls, true);
            }
            assert(r@ =~= self.connected_served_calls().intersect(Set::new(|c: Call|
                forall|j: int| 0 <= j < i + 1 && self.is_connected(j) ==> #[trigger] self.statuses()[j].served_hall_calls@.contains(c))));
        }
        proof {
            if self.has_connected() {
                let k = choose|k: int| self.is_connected(k);
                assert forall|c: Call| self.served_by_all().contains(c) implies self.connected_served_calls().contains(c) by {
                    assert(field_of(self.statuses()[k], CallField::Served).contains(c));
                }
            }
        }
        assert(r@ =~= self.served_by_all());
        r
    }

    /// Cleans up hall calls that have been served.
    ///
    /// First, the hall calls that all connected elevators have marked served
    /// leave the hall calls of elevator `elevator_id`. Then the served markers
    /// of those calls are removed from every elevator once no connected
    /// elevator holds the call as a hall call any more. The two stages make
    /// the completion of a call propagate safely across the network.
    pub fn cleanup_hall_calls(&mut self, elevator_id: &ElevatorId)
        requires
            old(self).wf(),
        ensures
            final(self).wf(),
            hall_calls_cleaned(*old(self), *final(self), *elevator_id),
    {
        let served_by_all = self.collect_served_by_all();
        let served_marked = self.collect_union(CallField::Served, true);
        let found = self.find(elevator_id);
        if let Some(k) = found {
            self.elevators[k].hall_calls.retain_where(&served_by_all, false);
        }
        let ghost mid = *self;
        let hall_now = self.collect_union(CallField::Hall, true);
        assert(hall_now@ =~= hall_calls_after_cleanup(*old(self), *elevator_id)) by {
            assert forall|c: Call| hall_now@.contains(c) implies hall_calls_after_cleanup(*old(self), *elevator_id).contains(c) by {
                let i = choose|i: int| 0 <= i < mid.statuses().len() && mid.is_connected(i)
                    && #[trigger] field_of(mid.statuses()[i], CallField::Hall).contains(c);
                assert(old(self).is_connected(i));
                assert(old(self).statuses()[i].hall_calls@.contains(c));
            }
            assert forall|c: Call| hall_calls_after_cleanup(*old(self), *elevator_id).contains(c) implies hall_now@.contains(c) by {
                let i = choose|i: int| old(self).is_connected(i)
                    && #[trigger] old(self).statuses()[i].hall_calls@.contains(c)
                    && !(old(self).has_elevator(*elevator_id) && i == old(self).index_of(*elevator_id) && old(self).served_by_all().contains(c));
                assert(mid.is_connected(i));
                assert(field_of(mid.statuses()[i], CallField::Hall).contains(c));
            }
        }
        let mut removable = served_marked;
        removable.retain_where(&hall_now, false);
        let n = self.elevators.len();
        for i in 0..n
            invariant
                n == self.statuses().len(),
                self.disconnected() == mid.disconnected(),
                mid.statuses().len() == n,
                removable@ == removable_served_markers(*old(self), *elevator_id),
                forall|j: int| i <= j < n ==> #[trigger] self.statuses()[j] == mid.statuses()[j],
                forall|j: int| 0 <= j < i ==> status_with_sets(
                    mid.statuses()[j],
                    #[trigger] self.statuses()[j],
                    mid.statuses()[j].cab_calls@,
                    mid.statuses()[j].hall_calls@,
                    mid.statuses()[j].served_hall_calls@.difference(removable@),
                    mid.statuses()[j].known_cab_calls@,
                ),
        {
            self.elevators[i].served_hall_calls.retain_where(&removable, false);
        }
    }

    /// Removes the elevators that report faults, so that the hall request
    /// assigner does not give them calls.
    pub fn remove_faulty_elevators(&mut self)
        requires
            old(self).wf(),
        ensures
            final(self).wf(),
            final(self).disconnected() == old(self).disconnected(),
            final(self).statuses() == old(self).statuses().filter(|s: ElevatorStatus| !s.has_faults),
    {
        let ghost orig = self.elevators@;
        let ghost mut idx: Seq<int> = Seq::empty();
        let mut rest: Vec<ElevatorStatus> = Vec::new();
        std::mem::swap(&mut rest, &mut self.elevators);
        let n = rest.len();
        let mut i: usize = 0;
        while i < n
            invariant
                i <= n,
                n == orig.len(),
                rest@ == orig.skip(i as int),
                self.elevators@ == orig.take(i as int).filter(|s: ElevatorStatus| !s.has_faults),
                idx.len() == self.elevators@.len(),
                forall|k: int| 0 <= k < idx.len() ==> 0 <= #[trigger] idx[k] < i && self.elevators@[k] == orig[idx[k]],
                forall|a: int, b: int| 0 <= a < b < idx.len() ==> idx[a] < idx[b],
                forall|a: int, b: int| 0 <= a < orig.len() && 0 <= b < orig.len() && a != b ==> orig[a].elevator_id != orig[b].elevator_id,
                self.disconnected() == old(self).disconnected(),
            decreases n - i,
        {
            let st = rest.remove(0);
            assert(st == orig[i as int]);
            let keep = !st.has_faults;
            if keep {
                self.elevators.push(st);
                proof {
                    idx = idx.push(i as int);
                }
            }
            proof {
                let p = |s: ElevatorStatus| !s.has_faults;
                assert(orig.take(i + 1).drop_last() =~= orig.take(i as int));
                reveal_with_fuel(Seq::filter, 1);
                assert(orig.take(i + 1).last() == st);
                assert(self.elevators@ =~= orig.take(i + 1).filter(p));
            }
            assert(rest@ =~= orig.skip(i + 1));
            i = i + 1;
        }
        assert(orig.take(n as int) =~= orig);
        assert forall|a: int, b: int| 0 <= a < self.statuses().len() && 0 <= b < self.statuses().len() && a != b
            implies self.statuses()[a].elevator_id != self.statuses()[b].elevator_id by {
            assert(idx[a] != idx[b]);
        }
    }
}

/// Whether status `s` belongs to an elevator that is not in `disconnected`.
pub open spec fn is_connected_status(disconnected: Set<ElevatorId>, s: ElevatorStatus) -> bool {
    !disconnected.contains(s.elevator_id)
}

impl WorldView {
    /// All known statuses.
    pub fn elevators(&self) -> (r: &[ElevatorStatus])
        ensures
            r@ == self.statuses(),
    {
        self.elevators.as_slice()
    }

    /// The statuses of the connected elevators, in the order of `elevators`.
    pub fn connected_elevators(&self) -> (r: Vec<&ElevatorStatus>)
        ensures
            r@.map_values(|s: &ElevatorStatus| *s) == self.statuses().filter(|s: ElevatorStatus| is_connected_status(self.disconnected(), s)),
    {
        let ghost p = |s: ElevatorStatus| is_connected_status(self.disconnected(), s);
        let mut r: Vec<&ElevatorStatus> = Vec::new();
        let n = self.elevators.len();
        for i in 0..n
            invariant
                n == self.statuses().len(),
                p == (|s: ElevatorStatus| is_connected_status(self.disconnected(), s)),
                r@.map_values(|s: &ElevatorStatus| *s) == self.statuses().take(i as int).filter(p),
        {
            let st = &self.elevators[i];
            if !self.is_disconnected(&st.elevator_id) {
                r.push(st);
            }
            proof {
                assert(self.statuses().take(i + 1).drop_last() =~= self.statuses().take(i as int));
                reveal_with_fuel(Seq::filter, 1);
                assert(self.statuses().take(i + 1).last() == *st);
                assert(r@.map_values(|s: &ElevatorStatus| *s) =~= self.statuses().take(i + 1).filter(p));
            }
        }
        assert(self.statuses().take(n as int) =~= self.statuses());
        r
    }

    /// The status of elevator `elevator_id`, to be changed in place.
    pub fn local_elevator_mut(&mut self, elevator_id: &ElevatorId) -> (r: &mut ElevatorStatus)
        requires
            old(self).wf(),
            old(self).has_elevator(*elevator_id),
        ensures
            *r == old(self).status_of(*elevator_id),
            final(self).statuses() == old(self).statuses().update(old(self).index_of(*elevator_id), *final(r)),
            final(self).disconnected() == old(self).disconnected(),
    {
        let k = match self.find(elevator_id) {
            Some(k) => k,
            None => {
                proof {
                    assert(false);
                }
                0
            },
        };
        &mut self.elevators[k]
    }

    /// The status of elevator `elevator_id`.
    pub fn local_elev(&self, elevator_id: &ElevatorId) -> (r: &ElevatorStatus)
        requires
            self.wf(),
            self.has_elevator(*elevator_id),
        ensures
            *r == self.status_of(*elevator_id),
    {
        let k = match self.find(elevator_id) {
            Some(k) => k,
            None => {
                proof {
                    assert(false);
                }
                0
            },
        };
        &self.elevators[k]
    }
}

/// `a` and `b` hold the same values: the same disconnected elevators and,
/// position by position, statuses with the same values.
pub open spec fn same_view(a: WorldView, b: WorldView) -> bool {
    &&& a.disconnected() == b.disconnected()
    &&& a.statuses().len() == b.statuses().len()
    &&& forall|i: int| 0 <= i < a.statuses().len() ==> (#[trigger] a.statuses()[i]).same_values(b.statuses()[i])
}

/// `new` is `old` with status `st` stored: in place of the status of the
/// same elevator, or added at the end.
pub open spec fn status_inserted(old: WorldView, new: WorldView, st: ElevatorStatus) -> bool {
    &&& new.disconnected() == old.disconnected()
    &&& if old.has_elevator(st.elevator_id) {
        new.statuses() == old.statuses().update(old.index_of(st.elevator_id), st)
    } else {
        new.statuses() == old.statuses().push(st)
    }
}

/// `new` is `old` with only the status of elevator `id` changed, to `st`.
pub open spec fn local_status_replaced(old: WorldView, new: WorldView, id: ElevatorId, st: ElevatorStatus) -> bool {
    &&& new.disconnected() == old.disconnected()
    &&& new.statuses().len() == old.statuses().len()
    &&& new.statuses()[old.index_of(id)] == st
    &&& forall|j: int| 0 <= j < old.statuses().len() && j != old.index_of(id) ==> #[trigger] new.statuses()[j] == old.statuses()[j]
}

/// The local status after a call was added at the local elevator.
pub open spec fn call_added(o: ElevatorStatus, n: ElevatorStatus, call: Call) -> bool {
    if call.call_type == CAB {
        status_with_sets(o, n, o.cab_calls@.insert(call), o.hall_calls@, o.served_hall_calls@, o.known_cab_calls@.insert(call))
    } else if call.call_type == HALL_DOWN || call.call_type == HALL_UP {
        status_with_sets(o, n, o.cab_calls@, o.hall_calls@.insert(call), o.served_hall_calls@, o.known_cab_calls@)
    } else {
        status_with_sets(o, n, o.cab_calls@, o.hall_calls@, o.served_hall_calls@, o.known_cab_calls@)
    }
}

/// The local status after the local elevator served a call.
pub open spec fn call_served(o: ElevatorStatus, n: ElevatorStatus, call: Call) -> bool {
    if call.call_type == CAB {
        status_with_sets(o, n, o.cab_calls@.remove(call), o.hall_calls@, o.served_hall_calls@, o.known_cab_calls@)
    } else if call.call_type == HALL_DOWN || call.call_type == HALL_UP {
        status_with_sets(o, n, o.cab_calls@, o.hall_calls@, o.served_hall_calls@.insert(call), o.known_cab_calls@)
    } else {
        status_with_sets(o, n, o.cab_calls@, o.hall_calls@, o.served_hall_calls@, o.known_cab_calls@)
    }
}

/// The local status after the local elevator reported `l`.
pub open spec fn local_status_applied(o: ElevatorStatus, n: ElevatorStatus, l: LocalElevatorStatus) -> bool {
    &&& n.elevator_id == o.elevator_id
    &&& n.behaviour == l.behaviour
    &&& n.floor == l.floor
    &&& n.direction == l.direction
    &&& n.has_faults == l.has_faults
    &&& n.cab_calls == o.cab_calls
    &&& n.hall_calls == o.hall_calls
    &&& n.served_hall_calls == o.served_hall_calls
    &&& n.known_cab_calls == o.known_cab_calls
}

/// What the world manager sends after handling a message.
pub struct WorldManagerOutput {
    /// The local status to broadcast on the network, if any.
    pub broadcast: Option<ElevatorStatus>,
    /// The world view to hand to the call manager, if any.
    pub world_view: Option<WorldView>,
}

/// `new` is `old` after the world manager of elevator `id` handled `msg`.
pub open spec fn message_applied(old: WorldView, new: WorldView, id: ElevatorId, msg: MsgToWorldManager) -> bool {
    match msg {
        MsgToWorldManager::AddCall(call) => exists|st: ElevatorStatus|
            #[trigger] call_added(old.status_of(id), st, call) && local_status_replaced(old, new, id, st),
        MsgToWorldManager::ServedCall(call) => exists|st: ElevatorStatus|
            #[trigger] call_served(old.status_of(id), st, call) && local_status_replaced(old, new, id, st),
        MsgToWorldManager::NewLocalElevatorStatus(l) => exists|st: ElevatorStatus|
            #[trigger] local_status_applied(old.status_of(id), st, l) && local_status_replaced(old, new, id, st),
        MsgToWorldManager::NewRemoteElevatorStatus(remote) => exists|w1: WorldView, w2: WorldView, w3: WorldView|
            #[trigger] status_inserted(old, w1, remote) && w1.wf() && #[trigger] hall_calls_merged(w1, w2, id)
                && w2.wf() && #[trigger] hall_calls_cleaned(w2, w3, id) && w3.wf() && cab_calls_acknowledged(w3, new, id),
        MsgToWorldManager::AddDisconnectedElevator(other) =>
            new.statuses() == old.statuses() && new.disconnected() == old.disconnected().insert(other),
        MsgToWorldManager::RemoveDisconnectedElevator(other) =>
            new.statuses() == old.statuses() && new.disconnected() == old.disconnected().remove(other),
    }
}

impl WorldView {
    /// A view with the same values.
    pub fn copy(&self) -> (r: WorldView)
        ensures
            same_view(r, *self),
    {
        let mut elevators: Vec<ElevatorStatus> = Vec::new();
        let n = self.elevators.len();
        for i in 0..n
            invariant
                n == self.statuses().len(),
                elevators@.len() == i,
                forall|j: int| 0 <= j < i ==> (#[trigger] elevators@[j]).same_values(self.statuses()[j]),
        {
            elevators.push(self.elevators[i].copy());
        }
        let mut disconnected_elevators: Vec<ElevatorId> = Vec::new();
        let m = self.disconnected_elevators.len();
        for i in 0..m
            invariant
                m == self.disconnected_elevators@.len(),
                disconnected_elevators@ == self.disconnected_elevators@.take(i as int),
        {
            disconnected_elevators.push(self.disconnected_elevators[i]);
            assert(disconnected_elevators@ =~= self.disconnected_elevators@.take(i + 1));
        }
        assert(disconnected_elevators@ =~= self.disconnected_elevators@);
        let r = WorldView { elevators, disconnected_elevators };
        assert(r.disconnected() =~= self.disconnected());
        r
    }

    /// Stores `status`: in place of the status of the same elevator, or at the end.
    pub fn insert_status(&mut self, status: ElevatorStatus)
        requires
            old(self).wf(),
        ensures
            final(self).wf(),
            status_inserted(*old(self), *final(self), status),
    {
        match self.find(&status.elevator_id) {
            Some(k) => {
                self.elevators.set(k, status);
            },
            None => {
                self.elevators.push(status);
            },
        }
    }

    /// Marks elevator `id` as disconnected.
    pub fn add_disconnected(&mut self, id: ElevatorId)
        ensures
            final(self).statuses() == old(self).statuses(),
            final(self).disconnected() == old(self).disconnected().insert(id),
    {
        if !self.is_disconnected(&id) {
            self.disconnected_elevators.push(id);
            proof {
                let s = self.disconnected_elevators@;
                let o = old(self).disconnected_elevators@;
                assert(s == o.push(id));
                assert(s[s.len() - 1] == id);
                assert forall|x: ElevatorId| s.contains(x) <==> (o.contains(x) || x == id) by {
                    if s.contains(x) {
                        let k = choose|k: int| 0 <= k < s.len() && s[k] == x;
                        if k < o.len() {
                            assert(o[k] == x);
                        }
                    }
                    if o.contains(x) {
                        let k = choose|k: int| 0 <= k < o.len() && o[k] == x;
                        assert(s[k] == x);
                    }
                }
            }
        }
        assert(self.disconnected() =~= old(self).disconnected().insert(id));
    }

    /// Marks elevator `id` as connected.
    pub fn remove_disconnected(&mut self, id: &ElevatorId)
        ensures
            final(self).statuses() == old(self).statuses(),
            final(self).disconnected() == old(self).disconnected().remove(*id),
    {
        let mut kept: Vec<ElevatorId> = Vec::new();
        let n = self.disconnected_elevators.len();
        for i in 0..n
            invariant
                n == self.disconnected_elevators@.len(),
                self.disconnected_elevators == old(self).disconnected_elevators,
                forall|x: ElevatorId| kept@.contains(x) <==> (x != *id && exists|j: int| 0 <= j < i && self.disconnected_elevators@[j] == x),
        {
            let ghost prev = kept@;
            let x = self.disconnected_elevators[i];
            if !same_elevator_id(&x, id) {
                kept.push(x);
            }
            assert forall|y: ElevatorId| kept@.contains(y) <==> (y != *id && exists|j: int| 0 <= j < i + 1 && self.disconnected_elevators@[j] == y) by {
                if y != *id && self.disconnected_elevators@[i as int] == y {
                    assert(kept@[kept@.len() - 1] == y);
                }
                if kept@.contains(y) {
                    let k = choose|k: int| 0 <= k < kept@.len() && kept@[k] == y;
                    if k < prev.len() {
                        assert(prev[k] == y);
                        assert(prev.contains(y));
                    } else {
                        assert(self.disconnected_elevators@[i as int] == y);
                    }
                }
                if y != *id && exists|j: int| 0 <= j < i && self.disconnected_elevators@[j] == y {
                    assert(prev.contains(y));
                    let k = choose|k: int| 0 <= k < prev.len() && prev[k] == y;
                    assert(kept@[k] == y);
                }
            }
        }
        self.disconnected_elevators = kept;
        assert(self.disconnected() =~= old(self).disconnected().remove(*id));
    }
}

/// Views whose statuses belong, position by position, to the same elevators
/// agree on well-formedness and on where each elevator's status is.
proof fn lemma_same_ids(old: WorldView, new: WorldView, id: ElevatorId)
    requires
        old.wf(),
        new.statuses().len() == old.statuses().len(),
        forall|j: int| 0 <= j < old.statuses().len() ==> #[trigger] new.statuses()[j].elevator_id == old.statuses()[j].elevator_id,
    ensures
        new.wf(),
        new.has_elevator(id) == old.has_elevator(id),
        old.has_elevator(id) ==> new.index_of(id) == old.index_of(id),
{
    if old.has_elevator(id) {
        let k = old.index_of(id);
        assert(new.statuses()[k].elevator_id == id);
        let k2 = new.index_of(id);
        assert(old.statuses()[k2].elevator_id == id);
    }
    if new.has_elevator(id) {
        let k = choose|k: int| 0 <= k < new.statuses().len() && new.statuses()[k].elevator_id == id;
        assert(old.statuses()[k].elevator_id == id);
    }
}

impl WorldView {
    /// Applies a message to the world view of elevator `elevator_id`; after
    /// every message the local status goes to the network and the world view
    /// to the call manager.
    ///
    /// - `AddCall`: a cab call joins the cab calls and the known cab calls, a
    ///   hall call joins the hall calls.
    /// - `ServedCall`: a cab call leaves the cab calls, a hall call is marked served.
    /// - `NewLocalElevatorStatus`: behaviour, floor, direction and faults are updated.
    /// - `NewRemoteElevatorStatus`: the remote status is stored, then the hall
    ///   calls are merged, the served hall calls cleaned up and the cab calls
    ///   acknowledged.
    /// - `AddDisconnectedElevator` / `RemoveDisconnectedElevator`: the elevator
    ///   is marked disconnected / connected.
    pub fn handle_message(&mut self, elevator_id: &ElevatorId, msg: MsgToWorldManager) -> (out: WorldManagerOutput)
        requires
            old(self).wf(),
            old(self).has_elevator(*elevator_id),
        ensures
            final(self).wf(),
            final(self).has_elevator(*elevator_id),
            message_applied(*old(self), *final(self), *elevator_id, msg),
            out.broadcast is Some,
            out.broadcast matches Some(st) ==> st.same_values(final(self).status_of(*elevator_id)),
            out.world_view is Some,
            out.world_view matches Some(w) ==> same_view(w, *final(self)),
    {
        let ghost w0 = *self;
        match msg {
            MsgToWorldManager::AddCall(call) => {
                {
                    let elevator = self.local_elevator_mut(elevator_id);
                    if call.call_type == CAB {
                        elevator.cab_calls.insert(call);
                        elevator.known_cab_calls.insert(call);
                    } else if call.call_type == HALL_DOWN || call.call_type == HALL_UP {
                        elevator.hall_calls.insert(call);
                    }
                }
                proof {
                    lemma_same_ids(w0, *self, *elevator_id);
                    assert(call_added(w0.status_of(*elevator_id), self.status_of(*elevator_id), call));
                }
                let broadcast = self.local_elev(elevator_id).copy();
                WorldManagerOutput { broadcast: Some(broadcast), world_view: Some(self.copy()) }
            },
            MsgToWorldManager::ServedCall(call) => {
                {
                    let elevator = self.local_elevator_mut(elevator_id);
                    if call.call_type == CAB {
                        elevator.cab_calls.remove(&call);
                    } else if call.call_type == HALL_DOWN || call.call_type == HALL_UP {
                        elevator.served_hall_calls.insert(call);
                    }
                }
                proof {
                    lemma_same_ids(w0, *self, *elevator_id);
                    assert(call_served(w0.status_of(*elevator_id), self.status_of(*elevator_id), call));
                }
                let broadcast = self.local_elev(elevator_id).copy();
                WorldManagerOutput { broadcast: Some(broadcast), world_view: Some(self.copy()) }
            },
            MsgToWorldManager::NewLocalElevatorStatus(local) => {
                {
                    let elevator = self.local_elevator_mut(elevator_id);
                    elevator.behaviour = local.behaviour;
                    elevator.floor = local.floor;
                    elevator.direction = local.direction;
                    elevator.has_faults = local.has_faults;
                }
                proof {
                    lemma_same_ids(w0, *self, *elevator_id);
                    assert(local_status_applied(w0.status_of(*elevator_id), self.status_of(*elevator_id), local));
                }
                let broadcast = self.local_elev(elevator_id).copy();
                WorldManagerOutput { broadcast: Some(broadcast), world_view: Some(self.copy()) }
            },
            MsgToWorldManager::NewRemoteElevatorStatus(remote) => {
                let ghost r = remote;
                self.insert_status(remote);
                let ghost w1 = *self;
                proof {
                    if w0.has_elevator(r.elevator_id) {
                        lemma_same_ids(w0, w1, *elevator_id);
                    } else {
                        let k = w0.index_of(*elevator_id);
                        assert(w1.statuses()[k].elevator_id == *elevator_id);
                    }
                }
                self.merge_hall_calls(elevator_id);
                let ghost w2 = *self;
                proof {
                    lemma_same_ids(w1, w2, *elevator_id);
                }
                self.cleanup_hall_calls(elevator_id);
                let ghost w3 = *self;
                proof {
                    lemma_same_ids(w2, w3, *elevator_id);
                }
                self.acknowledge_cab_calls(elevator_id);
                proof {
                    lemma_same_ids(w3, *self, *elevator_id);
                    assert(status_inserted(w0, w1, r) && w1.wf() && hall_calls_merged(w1, w2, *elevator_id)
                        && w2.wf() && hall_calls_cleaned(w2, w3, *elevator_id) && w3.wf()
                        && cab_calls_acknowledged(w3, *self, *elevator_id));
                }
                let broadcast = self.local_elev(elevator_id).copy();
                WorldManagerOutput { broadcast: Some(broadcast), world_view: Some(self.copy()) }
            },
            MsgToWorldManager::AddDisconnectedElevator(other) => {
                self.add_disconnected(other);
                let broadcast = self.local_elev(elevator_id).copy();
                WorldManagerOutput { broadcast: Some(broadcast), world_view: Some(self.copy()) }
            },
            MsgToWorldManager::RemoveDisconnectedElevator(other) => {
                self.remove_disconnected(&other);
                let broadcast = self.local_elev(elevator_id).copy();
                WorldManagerOutput { broadcast: Some(broadcast), world_view: Some(self.copy()) }
            },
        }
    }
}

/// Merging hall calls is idempotent: merging a second time changes nothing,
/// because the first merge added only calls that the connected elevators
/// already hold and markers that they already carry.
pub proof fn lemma_merge_idempotent(w0: WorldView, w1: WorldView, w2: WorldView, id: ElevatorId)
    requires
        w0.wf(),
        hall_calls_merged(w0, w1, id),
        hall_calls_merged(w1, w2, id),
    ensures
        w2.disconnected() == w1.disconnected(),
        w2.statuses().len() == w1.statuses().len(),
        forall|i: int| 0 <= i < w1.statuses().len() ==> (#[trigger] w2.statuses()[i]).same_values(w1.statuses()[i]),
{
    assert forall|j: int| 0 <= j < w0.statuses().len() implies #[trigger] w1.statuses()[j].elevator_id == w0.statuses()[j].elevator_id by {
        if w0.has_elevator(id) && j == w0.index_of(id) {
        } else {
            assert(w1.statuses()[j] == w0.statuses()[j]);
        }
    }
    lemma_same_ids(w0, w1, id);
    if w0.has_elevator(id) {
        let k = w0.index_of(id);
        let h0 = w0.connected_hall_calls();
        let s0 = w0.connected_served_calls();
        assert(w1.is_connected(k) == w0.is_connected(k));
        assert(w1.connected_hall_calls() =~= h0) by {
            assert forall|c: Call| w1.connected_hall_calls().contains(c) implies h0.contains(c) by {
                let i = choose|i: int| 0 <= i < w1.statuses().len() && w1.is_connected(i)
                    && #[trigger] field_of(w1.statuses()[i], CallField::Hall).contains(c);
                if i != k {
                    assert(w1.statuses()[i] == w0.statuses()[i]);
                    assert(field_of(w0.statuses()[i], CallField::Hall).contains(c));
                } else if w0.statuses()[k].hall_calls@.contains(c) {
                    assert(field_of(w0.statuses()[k], CallField::Hall).contains(c));
                }
            }
            assert forall|c: Call| h0.contains(c) implies w1.connected_hall_calls().contains(c) by {
                let i = choose|i: int| 0 <= i < w0.statuses().len() && w0.is_connected(i)
                    && #[trigger] field_of(w0.statuses()[i], CallField::Hall).contains(c);
                if i != k {
                    assert(w1.statuses()[i] == w0.statuses()[i]);
                }
                assert(field_of(w1.statuses()[i], CallField::Hall).contains(c));
            }
        }
        assert(w1.connected_served_calls() =~= s0) by {
            assert forall|c: Call| w1.connected_served_calls().contains(c) implies s0.contains(c) by {
                let i = choose|i: int| 0 <= i < w1.statuses().len() && w1.is_connected(i)
                    && #[trigger] field_of(w1.statuses()[i], CallField::Served).contains(c);
                if i != k {
                    assert(w1.statuses()[i] == w0.statuses()[i]);
                    assert(field_of(w0.statuses()[i], CallField::Served).contains(c));
                } else if w0.statuses()[k].served_hall_calls@.contains(c) {
                    assert(field_of(w0.statuses()[k], CallField::Served).contains(c));
                }
            }
            assert forall|c: Call| s0.contains(c) implies w1.connected_served_calls().contains(c) by {
                let i = choose|i: int| 0 <= i < w0.statuses().len() && w0.is_connected(i)
                    && #[trigger] field_of(w0.statuses()[i], CallField::Served).contains(c);
                if i != k {
                    assert(w1.statuses()[i] == w0.statuses()[i]);
                }
                assert(field_of(w1.statuses()[i], CallField::Served).contains(c));
            }
        }
        assert(w2.statuses()[k].hall_calls@ =~= w1.statuses()[k].hall_calls@);
        assert(w2.statuses()[k].served_hall_calls@ =~= w1.statuses()[k].served_hall_calls@);
        assert forall|i: int| 0 <= i < w1.statuses().len() implies (#[trigger] w2.statuses()[i]).same_values(w1.statuses()[i]) by {
            if i != k {
                assert(w2.statuses()[i] == w1.statuses()[i]);
            }
        }
    } else {
        assert forall|i: int| 0 <= i < w1.statuses().len() implies (#[trigger] w2.statuses()[i]).same_values(w1.statuses()[i]) by {
            assert(w2.statuses()[i] == w1.statuses()[i]);
        }
    }
}

/// A hall call is active only when every connected elevator holds it and no
/// connected elevator has marked it served, and only while some elevator is
/// connected.
pub proof fn lemma_active_hall_call_agreed(w: WorldView, c: Call)
    requires
        w.spec_active_hall_calls().contains(c),
    ensures
        w.has_connected(),
        forall|i: int| w.is_connected(i) ==> #[trigger] w.statuses()[i].hall_calls@.contains(c)
            && !w.statuses()[i].served_hall_calls@.contains(c),
{
    assert forall|i: int| w.is_connected(i) implies #[trigger] w.statuses()[i].hall_calls@.contains(c)
        && !w.statuses()[i].served_hall_calls@.contains(c) by {
        if w.statuses()[i].served_hall_calls@.contains(c) {
            assert(field_of(w.statuses()[i], CallField::Served).contains(c));
            assert(w.connected_served_calls().contains(c));
        }
    }
}

/// An elevator that is alone among the connected elevators has all its cab
/// calls active at once; otherwise a cab call is active only once every other
/// connected elevator knows it.
pub proof fn lemma_active_cab_calls_backed_up(w: WorldView, id: ElevatorId)
    ensures
        (forall|i: int| w.is_connected(i) ==> #[trigger] w.statuses()[i].elevator_id == id)
            ==> w.spec_active_cab_calls(id) == w.status_of(id).cab_calls@,
        forall|c: Call, i: int| w.spec_active_cab_calls(id).contains(c) && w.is_connected(i)
            && w.statuses()[i].elevator_id != id ==> #[trigger] w.statuses()[i].known_cab_calls@.contains(c),
{
    if forall|i: int| w.is_connected(i) ==> #[trigger] w.statuses()[i].elevator_id == id {
        assert(w.spec_active_cab_calls(id) =~= w.status_of(id).cab_calls@);
    }
}

/// After the cleanup, no hall call that all connected elevators had marked
/// served is still a hall call of the elevator that cleaned up, and a served
/// marker is dropped only for a call that no connected elevator still holds.
/// Once no connected elevator holds a call that some connected elevator marked
/// served, its marker is gone from every elevator, whoever marked it.
pub proof fn lemma_cleanup_removes_served(w0: WorldView, w1: WorldView, id: ElevatorId)
    requires
        w0.wf(),
        w0.has_elevator(id),
        hall_calls_cleaned(w0, w1, id),
    ensures
        forall|c: Call| w0.served_by_all().contains(c) ==> !#[trigger] w1.statuses()[w0.index_of(id)].hall_calls@.contains(c),
        forall|c: Call, i: int| 0 <= i < w0.statuses().len() && w0.statuses()[i].served_hall_calls@.contains(c)
            && !w1.statuses()[i].served_hall_calls@.contains(c)
            ==> forall|j: int| #![trigger w1.statuses()[j]] w0.is_connected(j) ==> !w1.statuses()[j].hall_calls@.contains(c),
        forall|c: Call, i: int| 0 <= i < w0.statuses().len() && w0.connected_served_calls().contains(c)
            && !hall_calls_after_cleanup(w0, id).contains(c)
            ==> !(#[trigger] w1.statuses()[i].served_hall_calls@.contains(c)),
{
    let k = w0.index_of(id);
    assert forall|c: Call, i: int| 0 <= i < w0.statuses().len() && w0.connected_served_calls().contains(c)
        && !hall_calls_after_cleanup(w0, id).contains(c)
        implies !(#[trigger] w1.statuses()[i].served_hall_calls@.contains(c)) by {
        let o = w0.statuses()[i];
        assert(w1.statuses()[i].served_hall_calls@ == o.served_hall_calls@.difference(removable_served_markers(w0, id)));
        assert(removable_served_markers(w0, id).contains(c));
    }
    assert(w1.statuses()[k].hall_calls@ == w0.statuses()[k].hall_calls@.difference(w0.served_by_all()));
    assert forall|c: Call, i: int| 0 <= i < w0.statuses().len() && w0.statuses()[i].served_hall_calls@.contains(c)
        && !w1.statuses()[i].served_hall_calls@.contains(c)
        implies forall|j: int| #![trigger w1.statuses()[j]] w0.is_connected(j) ==> !w1.statuses()[j].hall_calls@.contains(c) by {
        let o = w0.statuses()[i];
        assert(w1.statuses()[i].served_hall_calls@ == o.served_hall_calls@.difference(removable_served_markers(w0, id)));
        assert(removable_served_markers(w0, id).contains(c));
        assert forall|j: int| #![trigger w1.statuses()[j]] w0.is_connected(j) implies !w1.statuses()[j].hall_calls@.contains(c) by {
            let oj = w0.statuses()[j];
            if w1.statuses()[j].hall_calls@.contains(c) {
                assert(oj.hall_calls@.contains(c));
                assert(hall_calls_after_cleanup(w0, id).contains(c));
            }
        }
    }
}

/// Every entry of a filtered sequence is an entry of the sequence.
pub proof fn lemma_filter_entries_come_from(s: Seq<ElevatorStatus>, p: spec_fn(ElevatorStatus) -> bool)
    ensures
        forall|k: int| 0 <= k < s.filter(p).len() ==> s.contains(#[trigger] s.filter(p)[k]),
    decreases s.len(),
{
    reveal_with_fuel(Seq::filter, 1);
    if s.len() > 0 {
        lemma_filter_entries_come_from(s.drop_last(), p);
        let sub = s.drop_last().filter(p);
        assert forall|k: int| 0 <= k < s.filter(p).len() implies s.contains(#[trigger] s.filter(p)[k]) by {
            if k < sub.len() {
                assert(s.filter(p)[k] == sub[k]);
                let j = choose|j: int| 0 <= j < s.drop_last().len() && s.drop_last()[j] == sub[k];
                assert(s[j] == sub[k]);
            } else {
                assert(s.filter(p)[k] == s.last());
                assert(s[s.len() - 1] == s.last());
            }
        }
    }
}

/// Handling a remote status completes served hall calls: afterwards the local
/// elevator holds no hall call that every connected elevator has marked
/// served.
pub proof fn lemma_remote_status_clears_served_calls(old: WorldView, new: WorldView, id: ElevatorId, remote: ElevatorStatus)
    requires
        old.wf(),
        old.has_elevator(id),
        message_applied(old, new, id, MsgToWorldManager::NewRemoteElevatorStatus(remote)),
    ensures
        new.has_elevator(id),
        forall|c: Call| new.served_by_all().contains(c) ==> !(#[trigger] new.status_of(id).hall_calls@.contains(c)),
{
    let (w1, w2, w3) = choose|w1: WorldView, w2: WorldView, w3: WorldView|
        #[trigger] status_inserted(old, w1, remote) && w1.wf() && #[trigger] hall_calls_merged(w1, w2, id)
            && w2.wf() && #[trigger] hall_calls_cleaned(w2, w3, id) && w3.wf() && cab_calls_acknowledged(w3, new, id);
    // The local elevator stays in every intermediate view, at one position.
    if old.has_elevator(remote.elevator_id) {
        let r = old.index_of(remote.elevator_id);
        assert(w1.statuses()[r].elevator_id == remote.elevator_id);
        if remote.elevator_id == id {
            assert(w1.statuses()[r].elevator_id == id);
        } else {
            let k = old.index_of(id);
            assert(w1.statuses()[k] == old.statuses()[k]);
        }
    } else {
        let k = old.index_of(id);
        assert(w1.statuses()[k] == old.statuses()[k]);
    }
    assert(w1.has_elevator(id));
    let k = w1.index_of(id);
    assert forall|j: int| 0 <= j < w1.statuses().len() implies #[trigger] w2.statuses()[j].elevator_id == w1.statuses()[j].elevator_id by {
        if j != k {
            assert(w2.statuses()[j] == w1.statuses()[j]);
        }
    }
    lemma_same_ids(w1, w2, id);
    assert forall|j: int| 0 <= j < w2.statuses().len() implies #[trigger] w3.statuses()[j].elevator_id == w2.statuses()[j].elevator_id by {
        let o = w2.statuses()[j];
    }
    lemma_same_ids(w2, w3, id);
    assert forall|j: int| 0 <= j < w3.statuses().len() implies #[trigger] new.statuses()[j].elevator_id == w3.statuses()[j].elevator_id by {
        if j != k {
            assert(new.statuses()[j] == w3.statuses()[j]);
        }
    }
    lemma_same_ids(w3, new, id);
    assert(new.index_of(id) == k);
    // What every connected elevator has marked served now, it had marked
    // before the cleanup, which removed those calls from the local hall calls.
    assert forall|c: Call| new.served_by_all().contains(c) implies !(#[trigger] new.status_of(id).hall_calls@.contains(c)) by {
        assert(new.has_connected());
        let i0 = choose|i: int| new.is_connected(i);
        assert(w2.is_connected(i0));
        assert forall|i: int| w2.is_connected(i) implies #[trigger] w2.statuses()[i].served_hall_calls@.contains(c) by {
            assert(new.is_connected(i));
            assert(new.statuses()[i].served_hall_calls@.contains(c));
            if i != k {
                assert(new.statuses()[i] == w3.statuses()[i]);
            }
            let o = w2.statuses()[i];
            assert(w3.statuses()[i].served_hall_calls@ == o.served_hall_calls@.difference(removable_served_markers(w2, id)));
        }
        assert(w2.served_by_all().contains(c));
        assert(w3.statuses()[k].hall_calls@ == w2.statuses()[k].hall_calls@.difference(w2.served_by_all()));
    }
}

} // verus!
