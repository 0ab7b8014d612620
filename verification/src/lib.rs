//! Decision logic of a distributed elevator controller.
//!
//! The library holds the verified core of the controller: the shared world
//! view that every elevator keeps of the others, the rules that decide which
//! calls are active, the local elevator's scheduling and door logic, the
//! conversion to and from the hall request assigner's formats, and the small
//! state machines that the runtime tasks drive.

pub mod config;
pub mod messages;
pub mod elevator;
pub mod world_view;
pub mod assigner;
pub mod network;
pub mod input;
pub mod call_manager;
pub mod fault_handler;
pub mod fsm;
pub mod orders;
pub mod net_test;
pub mod task_fsm;
pub mod init;
pub mod line_input;
pub mod driver_demo;
