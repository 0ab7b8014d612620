//! The controller of the driver's demonstration program: one elevator that
//! drives to the last call pressed, opens the door there, and halts while the
//! stop button is active.
//!
//! The runtime polls the driver and carries out the actions in order; an
//! `OpenDoor` action is the door cycle of three seconds.
use vstd::prelude::*;
use crate::elevator::Direction;

verus! {

/// What the demonstration controller reacts to.
#[derive(Clone, Copy, Debug, PartialEq, Eq, Structural)]
pub enum DemoEvent {
    /// A call button was pressed.
    CallButton { floor: u8, call: u8 },
    /// The floor sensor reads a floor.
    Floor(u8),
    /// The stop button changed.
    StopButton(bool),
    /// The obstruction switch changed.
    Obstruction(bool),
}

/// What the demonstration controller asks of the hardware, in order.
#[derive(Clone, Copy, Debug, PartialEq, Eq, Structural)]
pub enum DemoAction {
    /// Command the motor.
    Motor(Direction),
    /// Set a call button light.
    CallLight { floor: u8, call: u8, on: bool },
    /// Show a floor on the floor indicator.
    FloorIndicator(u8),
    /// Set the stop button light.
    StopLight(bool),
    /// Set the door light.
    DoorLight(bool),
    /// Open the door for three seconds, longer while `obstructed`.
    OpenDoor { obstructed: bool },
    /// Turn every call button light off.
    ClearAllCallLights,
}

/// The controller's state.
#[derive(Clone, Copy, Debug, PartialEq, Eq, Structural)]
pub struct DemoController {
    /// The floor last read, if any.
    pub current_floor: Option<u8>,
    /// The floor the elevator is sent to, if any.
    pub target_floor: Option<u8>,
    /// The button of the call it serves, so that its light can go off.
    pub target_call: Option<u8>,
    pub obstructed: bool,
    pub stop_active: bool,
}

/// The direction from floor `from` towards floor `to`, which differ.
pub open spec fn towards(from: u8, to: u8) -> Direction {
    if to > from { Direction::Up } else { Direction::Down }
}

/// `s` without a target.
pub open spec fn untargeted(s: DemoController) -> DemoController {
    DemoController { target_floor: None, target_call: None, ..s }
}

/// One step of the controller: its next state and its actions.
///
/// - A call, unless stopped: it becomes the target and its light goes on;
///   at the target floor already, the motor stops, the door cycles and the
///   light goes off again; elsewhere, the motor heads for it.
/// - A floor reading: it is shown and recorded; when stopped, the motor
///   stops; at the target, the motor stops, the door cycles and the call's
///   light goes off; short of it, the motor heads for it; without a target
///   the motor stops.
/// - The stop button: its light follows it; pressed, the motor stops, the
///   target is dropped, every call light goes off and, at a floor, the door
///   light goes on; released, the door light goes off.
/// - The obstruction switch: recorded for the next door cycle.
pub open spec fn demo_step(s: DemoController, ev: DemoEvent) -> (DemoController, Seq<DemoAction>) {
    match ev {
        DemoEvent::CallButton { floor, call } => if s.stop_active {
            (s, Seq::empty())
        } else {
            let s1 = DemoController { target_floor: Some(floor), target_call: Some(call), ..s };
            let lit = seq![DemoAction::CallLight { floor, call, on: true }];
            match s.current_floor {
                Some(cf) => if cf == floor {
                    (untargeted(s1), lit + seq![
                        DemoAction::Motor(Direction::Stop),
                        DemoAction::OpenDoor { obstructed: s.obstructed },
                        DemoAction::CallLight { floor, call, on: false },
                    ])
                } else {
                    (s1, lit.push(DemoAction::Motor(towards(cf, floor))))
                },
                None => (s1, lit),
            }
        },
        DemoEvent::Floor(f) => {
            let s1 = DemoController { current_floor: Some(f), ..s };
            let shown = seq![DemoAction::FloorIndicator(f)];
            if s.stop_active {
                (s1, shown.push(DemoAction::Motor(Direction::Stop)))
            } else {
                match s.target_floor {
                    Some(tf) => if f == tf {
                        let off = match s.target_call {
                            Some(c) => seq![DemoAction::CallLight { floor: tf, call: c, on: false }],
                            None => Seq::empty(),
                        };
                        (untargeted(s1), shown + seq![
                            DemoAction::Motor(Direction::Stop),
                            DemoAction::OpenDoor { obstructed: s.obstructed },
                        ] + off)
                    } else {
                        (s1, shown.push(DemoAction::Motor(towards(f, tf))))
                    },
                    None => (s1, shown.push(DemoAction::Motor(Direction::Stop))),
                }
            }
        },
        DemoEvent::StopButton(stop) => {
            let s1 = DemoController { stop_active: stop, ..s };
            let lit = seq![DemoAction::StopLight(stop)];
            if stop {
                let door = if s.current_floor is Some { seq![DemoAction::DoorLight(true)] } else { Seq::empty() };
                (untargeted(s1), lit + seq![DemoAction::Motor(Direction::Stop), DemoAction::ClearAllCallLights] + door)
            } else {
                (s1, lit.push(DemoAction::DoorLight(false)))
            }
        },
        DemoEvent::Obstruction(ob) => (DemoController { obstructed: ob, ..s }, Seq::empty()),
    }
}

impl DemoController {
    /// A controller at the floor the sensor reads, if any, with no target,
    /// no obstruction and the stop button released.
    pub fn new(current_floor: Option<u8>) -> (c: DemoController)
        ensures
            c == (DemoController { current_floor, target_floor: None, target_call: None, obstructed: false, stop_active: false }),
    {
        DemoController { current_floor, target_floor: None, target_call: None, obstructed: false, stop_active: false }
    }

    /// The motor command at startup: down to find a floor when the sensor
    /// reads none, otherwise stop.
    pub fn homing_motor(&self) -> (d: Direction)
        ensures
            d == (if self.current_floor is None { Direction::Down } else { Direction::Stop }),
    {
        match self.current_floor {
            None => Direction::Down,
            Some(_) => Direction::Stop,
        }
    }

    /// Handles one event and returns the actions to carry out, in order.
    pub fn step(&mut self, ev: DemoEvent) -> (actions: Vec<DemoAction>)
        ensures
            (*final(self), actions@) == demo_step(*old(self), ev),
    {
        let mut actions: Vec<DemoAction> = Vec::new();
        match ev {
            DemoEvent::CallButton { floor, call } => {
                if self.stop_active {
                    return actions;
                }
                self.target_floor = Some(floor);
                self.target_call = Some(call);
                actions.push(DemoAction::CallLight { floor, call, on: true });
                match self.current_floor {
                    Some(cf) => {
                        if cf == floor {
                            actions.push(DemoAction::Motor(Direction::Stop));
                            actions.push(DemoAction::OpenDoor { obstructed: self.obstructed });
                            actions.push(DemoAction::CallLight { floor, call, on: false });
                            self.target_floor = None;
                            self.target_call = None;
                        } else {
                            let dir = if floor > cf { Direction::Up } else { Direction::Down };
                            actions.push(DemoAction::Motor(dir));
                        }
                    },
                    None => {},
                }
            },
            DemoEvent::Floor(f) => {
                self.current_floor = Some(f);
                actions.push(DemoAction::FloorIndicator(f));
                if self.stop_active {
                    actions.push(DemoAction::Motor(Direction::Stop));
                    return actions;
                }
                match self.target_floor {
                    Some(tf) => {
                        if f == tf {
                            actions.push(DemoAction::Motor(Direction::Stop));
                            actions.push(DemoAction::OpenDoor { obstructed: self.obstructed });
                            match self.target_call {
                                Some(c) => actions.push(DemoAction::CallLight { floor: tf, call: c, on: false }),
                                None => {},
                            }
                            self.target_floor = None;
                            self.target_call = None;
                        } else {
                            let dir = if tf > f { Direction::Up } else { Direction::Down };
                            actions.push(DemoAction::Motor(dir));
                        }
                    },
                    None => actions.push(DemoAction::Motor(Direction::Stop)),
                }
            },
            DemoEvent::StopButton(stop) => {
                self.stop_active = stop;
                actions.push(DemoAction::StopLight(stop));
                if stop {
                    actions.push(DemoAction::Motor(Direction::Stop));
                    self.target_floor = None;
                    self.target_call = None;
                    actions.push(DemoAction::ClearAllCallLights);
                    if self.current_floor.is_some() {
                        actions.push(DemoAction::DoorLight(true));
                    }
                } else {
                    actions.push(DemoAction::DoorLight(false));
                }
            },
            DemoEvent::Obstruction(ob) => {
                self.obstructed = ob;
            },
        }
        proof {
            assert(actions@ =~= demo_step(*old(self), ev).1);
        }
        actions
    }
}

/// The door cycles only with the motor stopped: every door cycle comes right
/// after a command to stop the motor.
pub proof fn lemma_door_cycles_only_stopped(s: DemoController, ev: DemoEvent)
    ensures
        forall|i: int| 0 <= i < demo_step(s, ev).1.len() && (#[trigger] demo_step(s, ev).1[i]) is OpenDoor
            ==> i > 0 && demo_step(s, ev).1[i - 1] == DemoAction::Motor(Direction::Stop),
{
}

/// While the stop button is active, the elevator does not move and takes no
/// call: no step but the button's release starts the motor or sets a target.
pub proof fn lemma_stop_holds_the_elevator(s: DemoController, ev: DemoEvent)
    requires
        s.stop_active,
        s.target_floor is None,
        !(ev matches DemoEvent::StopButton(b) && !b),
    ensures
        demo_step(s, ev).0.stop_active,
        demo_step(s, ev).0.target_floor is None,
        forall|i: int| 0 <= i < demo_step(s, ev).1.len() ==> !(#[trigger] demo_step(s, ev).1[i] matches DemoAction::Motor(d)
            && d != Direction::Stop),
{
}


/// The motor heads for a new call: a call away from the floor the elevator
/// stands at ends with the motor going down when the call lies below and up
/// when it lies above.
pub proof fn lemma_motor_heads_for_call(s: DemoController, floor: u8, call: u8)
    requires
        !s.stop_active,
        s.current_floor is Some,
        floor != s.current_floor->0,
    ensures
        demo_step(s, DemoEvent::CallButton { floor, call }).1.len() > 0,
        floor < s.current_floor->0 ==> demo_step(s, DemoEvent::CallButton { floor, call }).1.last()
            == DemoAction::Motor(Direction::Down),
        floor > s.current_floor->0 ==> demo_step(s, DemoEvent::CallButton { floor, call }).1.last()
            == DemoAction::Motor(Direction::Up),
        demo_step(s, DemoEvent::CallButton { floor, call }).0.target_floor == Some(floor),
{
}

/// The motor keeps heading for the target: a floor reading short of the
/// target ends with the motor going down when the target lies below and up
/// when it lies above.
pub proof fn lemma_motor_heads_for_target(s: DemoController, f: u8)
    requires
        !s.stop_active,
        s.target_floor is Some,
        f != s.target_floor->0,
    ensures
        demo_step(s, DemoEvent::Floor(f)).1.len() > 0,
        s.target_floor->0 < f ==> demo_step(s, DemoEvent::Floor(f)).1.last() == DemoAction::Motor(Direction::Down),
        s.target_floor->0 > f ==> demo_step(s, DemoEvent::Floor(f)).1.last() == DemoAction::Motor(Direction::Up),
        demo_step(s, DemoEvent::Floor(f)).0.target_floor == s.target_floor,
{
}

} // verus!
