//! A terminal countdown/cycle timer core: a compact duration codec, a cyclic
//! timer sequence with a cursor, wall-clock run-state accounting, and the
//! controller state machine that ties them together.
//!
//! The crate holds only the scheduling and time-accounting logic; rendering,
//! input handling and notification delivery are left to the surrounding
//! application, which feeds the controller plain values (instants as whole
//! seconds, user actions as characters) and renders the snapshots it returns.

pub mod cli;
pub mod codec;
pub mod controller;
pub mod keymap;
pub mod runstate;
pub mod sequence;
pub mod timer;
