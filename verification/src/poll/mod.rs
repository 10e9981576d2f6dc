//! The driver on top of a readiness poller.

pub mod args;
pub mod driver;
pub mod laws;
pub mod mask;
pub mod queue;
pub mod state;
pub mod steps;
