//! The call manager's decisions: which button lights change and which calls
//! the local elevator shall serve.
//!
//! On every new world view the call manager lights the active cab calls of
//! the local elevator, lights the hall calls that became active and darkens
//! those that stopped being active, hands the active hall calls to the hall
//! request assigner and sends the local elevator its cab calls together with
//! the hall calls assigned to it.
use vstd::prelude::*;
use crate::messages::{CallSet, ElevatorId};
use crate::world_view::WorldView;

verus! {

/// What the call manager does with a new world view, before the hall calls
/// are assigned.
pub struct CallManagerUpdate {
    /// Button lights to turn on.
    pub lights_on: CallSet,
    /// Button lights to turn off.
    pub lights_off: CallSet,
    /// The active cab calls of the local elevator.
    pub active_cab_calls: CallSet,
    /// The active hall calls, to hand to the assigner.
    pub active_hall_calls: CallSet,
}

/// The call manager of the local elevator, with the calls it last saw active.
pub struct CallManager {
    pub elevator_id: ElevatorId,
    /// The hall calls active at the previous world view.
    pub previous_active_hall_calls: CallSet,
    /// The cab calls active at the previous world view.
    pub previous_active_cab_calls: CallSet,
}

impl CallManager {
    /// A call manager for elevator `elevator_id` that has seen no active call.
    pub fn new(elevator_id: ElevatorId) -> (m: CallManager)
        ensures
            m.elevator_id == elevator_id,
            m.previous_active_hall_calls@ == Set::<crate::messages::Call>::empty(),
            m.previous_active_cab_calls@ == Set::<crate::messages::Call>::empty(),
    {
        CallManager { elevator_id, previous_active_hall_calls: CallSet::new(), previous_active_cab_calls: CallSet::new() }
    }

    /// Handles a new world view: every active cab call of the local elevator
    /// is lit, hall calls that became active are lit and those that are no
    /// longer active are darkened.
    pub fn on_new_world_view(&mut self, world: &WorldView) -> (u: CallManagerUpdate)
        requires
            world.wf(),
            world.has_elevator(old(self).elevator_id),
        ensures
            u.active_cab_calls@ == world.spec_active_cab_calls(old(self).elevator_id),
            u.active_hall_calls@ == world.spec_active_hall_calls(),
            u.lights_on@ == u.active_cab_calls@.union(u.active_hall_calls@.difference(old(self).previous_active_hall_calls@)),
            u.lights_off@ == old(self).previous_active_hall_calls@.difference(u.active_hall_calls@),
            final(self).previous_active_hall_calls@ == u.active_hall_calls@,
            final(self).previous_active_cab_calls@ == old(self).previous_active_cab_calls@,
            final(self).elevator_id == old(self).elevator_id,
    {
        let active_cab_calls = world.active_cab_calls(&self.elevator_id);
        let active_hall_calls = world.active_hall_calls();
        let mut lights_on = active_cab_calls.copy();
        let mut newly_active = active_hall_calls.copy();
        newly_active.retain_where(&self.previous_active_hall_calls, false);
        lights_on.extend_from(&newly_active);
        let mut lights_off = self.previous_active_hall_calls.copy();
        lights_off.retain_where(&active_hall_calls, false);
        self.previous_active_hall_calls = active_hall_calls.copy();
        CallManagerUpdate { lights_on, lights_off, active_cab_calls, active_hall_calls }
    }

    /// Handles a new world view, lighting and darkening cab calls by change
    /// as well: cab calls that became active are lit and those that are no
    /// longer active are darkened, and likewise for hall calls.
    pub fn on_new_world_view_tracking_cab(&mut self, world: &WorldView) -> (u: CallManagerUpdate)
        requires
            world.wf(),
            world.has_elevator(old(self).elevator_id),
        ensures
            u.active_cab_calls@ == world.spec_active_cab_calls(old(self).elevator_id),
            u.active_hall_calls@ == world.spec_active_hall_calls(),
            u.lights_on@ == u.active_cab_calls@.difference(old(self).previous_active_cab_calls@).union(
                u.active_hall_calls@.difference(old(self).previous_active_hall_calls@)),
            u.lights_off@ == old(self).previous_active_cab_calls@.difference(u.active_cab_calls@).union(
                old(self).previous_active_hall_calls@.difference(u.active_hall_calls@)),
            final(self).previous_active_hall_calls@ == u.active_hall_calls@,
            final(self).previous_active_cab_calls@ == u.active_cab_calls@,
            final(self).elevator_id == old(self).elevator_id,
    {
        let active_cab_calls = world.active_cab_calls(&self.elevator_id);
        let active_hall_calls = world.active_hall_calls();
        let mut lights_on = active_cab_calls.copy();
        lights_on.retain_where(&self.previous_active_cab_calls, false);
        let mut cab_off = self.previous_active_cab_calls.copy();
        cab_off.retain_where(&active_cab_calls, false);
        let mut newly_active = active_hall_calls.copy();
        newly_active.retain_where(&self.previous_active_hall_calls, false);
        lights_on.extend_from(&newly_active);
        let mut lights_off = self.previous_active_hall_calls.copy();
        lights_off.retain_where(&active_hall_calls, false);
        let mut all_off = cab_off;
        all_off.extend_from(&lights_off);
        self.previous_active_cab_calls = active_cab_calls.copy();
        self.previous_active_hall_calls = active_hall_calls.copy();
        CallManagerUpdate { lights_on, lights_off: all_off, active_cab_calls, active_hall_calls }
    }
}

/// The calls the local elevator shall serve: its active cab calls and the
/// hall calls assigned to it.
pub fn all_active_calls(active_cab_calls: &CallSet, assigned_calls: &CallSet) -> (calls: CallSet)
    ensures
        calls@ == active_cab_calls@.union(assigned_calls@),
{
    let mut calls = active_cab_calls.copy();
    calls.extend_from(assigned_calls);
    calls
}


/// The hall lights follow the active hall calls: lights that were lit for the
/// previously active hall calls, with the lights turned on and off by an
/// update, end up lit for exactly the hall calls that are now active.
pub proof fn lemma_hall_lights_track_active(previous: Set<crate::messages::Call>, active: Set<crate::messages::Call>)
    ensures
        previous.union(active.difference(previous)).difference(previous.difference(active)) == active,
{
    assert(previous.union(active.difference(previous)).difference(previous.difference(active)) =~= active);
}
} // verus!
