//! The earlier order handling: a first-come-first-served order queue, a
//! per-peer world view and the assigner interface working on all cab calls.
pub mod assigner;
pub mod call_manager;
pub mod manager;
pub mod order_manager;
pub mod world_view;
