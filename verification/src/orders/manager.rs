//! A first-come-first-served order queue in front of the door-and-motor
//! state machine: orders are dispatched one at a time, each when the state
//! machine reports that it is idle.
use vstd::prelude::*;
use std::collections::VecDeque;
use crate::fsm::{Command, FsmEvent};

verus! {

/// A call button press: the floor and the button type.
#[derive(Clone, Copy, Debug, PartialEq, Eq, Structural)]
pub struct CallButton {
    pub floor: u8,
    pub call: u8,
}

/// The queue of orders and whether the state machine is idle.
pub struct OrderManager {
    orders: VecDeque<CallButton>,
    fsm_idle: bool,
}

impl OrderManager {
    /// The waiting orders, oldest first.
    pub closed spec fn queue(&self) -> Seq<CallButton> {
        self.orders@
    }

    /// Whether the state machine is idle and can take an order.
    pub closed spec fn idle(&self) -> bool {
        self.fsm_idle
    }

    /// An empty queue in front of an idle state machine.
    pub fn new() -> (m: OrderManager)
        ensures
            m.queue().len() == 0,
            m.idle(),
    {
        OrderManager { orders: VecDeque::new(), fsm_idle: true }
    }

    /// Sends the oldest order to the state machine when it is idle.
    fn try_dispatch(&mut self) -> (cmd: Option<Command>)
        ensures
            dispatched(*old(self), *final(self), cmd),
    {
        if self.fsm_idle {
            match self.orders.pop_front() {
                Some(order) => {
                    self.fsm_idle = false;
                    Some(Command::GoToFloor(order.floor))
                },
                None => None,
            }
        } else {
            None
        }
    }

    /// Queues a new order, whose button light the caller turns on, and
    /// dispatches the oldest order if the state machine is idle.
    pub fn new_call(&mut self, order: CallButton) -> (cmd: Option<Command>)
        ensures
            exists|mid: OrderManager| #[trigger] mid.queue() == old(self).queue().push(order) && mid.idle() == old(self).idle()
                && dispatched(mid, *final(self), cmd),
    {
        self.orders.push_back(order);
        let ghost mid = *self;
        let cmd = self.try_dispatch();
        assert(mid.queue() == old(self).queue().push(order) && mid.idle() == old(self).idle() && dispatched(mid, *self, cmd));
        cmd
    }

    /// Handles an event of the state machine: when it reports that it is
    /// idle, the oldest order is dispatched.
    pub fn handle_fsm_event(&mut self, event: FsmEvent) -> (cmd: Option<Command>)
        ensures
            event == FsmEvent::Idle ==> exists|mid: OrderManager| #[trigger] mid.queue() == old(self).queue() && mid.idle()
                && dispatched(mid, *final(self), cmd),
            event != FsmEvent::Idle ==> cmd is None && final(self).queue() == old(self).queue() && final(self).idle() == old(self).idle(),
    {
        match event {
            FsmEvent::Idle => {
                self.fsm_idle = true;
                let ghost mid = *self;
                let cmd = self.try_dispatch();
                assert(mid.queue() == old(self).queue() && mid.idle() && dispatched(mid, *self, cmd));
                cmd
            },
            _ => None,
        }
    }
}

/// `new` is `old` after trying to dispatch: an idle machine with a waiting
/// order gets the oldest one and is busy; otherwise nothing changes.
pub open spec fn dispatched(old: OrderManager, new: OrderManager, cmd: Option<Command>) -> bool {
    if old.idle() && old.queue().len() > 0 {
        &&& cmd == Some(Command::GoToFloor(old.queue()[0].floor))
        &&& new.queue() == old.queue().drop_first()
        &&& !new.idle()
    } else {
        &&& cmd is None
        &&& new.queue() == old.queue()
        &&& new.idle() == old.idle()
    }
}

/// Orders are served first come, first served, and one at a time: a busy
/// machine gets no order, and an order is dispatched only after every order
/// queued before it.
pub proof fn lemma_dispatch_in_order(old: OrderManager, new: OrderManager, cmd: Option<Command>)
    requires
        dispatched(old, new, cmd),
    ensures
        !old.idle() ==> cmd is None,
        cmd is Some ==> !new.idle() && cmd == Some(Command::GoToFloor(old.queue()[0].floor))
            && new.queue() == old.queue().subrange(1, old.queue().len() as int),
{
}

} // verus!
