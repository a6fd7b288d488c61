//! Notifications: configured actions when an agent starts, ends or stays idle.
//!
//! By default no action is configured. Actions are run for prompts of the
//! user, for final responses once no tool works in the background any more, and
//! for idle deadlines after a final response. Every prompt of the user resets
//! the idle timer.

pub mod action_laws;
pub mod fault_laws;
pub mod hooks;
pub mod laws;
pub mod outline;
pub mod run;
pub mod state;
pub mod template;
