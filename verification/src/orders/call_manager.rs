//! Routing of new local calls in the earlier call handling.
use vstd::prelude::*;
use crate::config::{CAB, HALL_DOWN, HALL_UP};
use crate::messages::Call;

verus! {

/// Where a new local call goes.
#[derive(Clone, Copy, Debug, PartialEq, Eq, Structural)]
pub enum LocalCallRoute {
    /// A cab call: it joins the world view, its light goes on, and the state
    /// machine gets it at once, since a cab call needs no confirmation.
    Cab,
    /// A hall call: it joins the world view and waits for confirmation.
    Hall,
    /// An unknown call type: it is reported and dropped.
    Invalid,
}

/// Decides where a new local call goes, by its type.
pub fn route_local_call(call: &Call) -> (route: LocalCallRoute)
    ensures
        route == (if call.call_type == CAB {
            LocalCallRoute::Cab
        } else if call.call_type == HALL_DOWN || call.call_type == HALL_UP {
            LocalCallRoute::Hall
        } else {
            LocalCallRoute::Invalid
        }),
{
    if call.call_type == CAB {
        LocalCallRoute::Cab
    } else if call.call_type == HALL_DOWN || call.call_type == HALL_UP {
        LocalCallRoute::Hall
    } else {
        LocalCallRoute::Invalid
    }
}

} // verus!
