//! The driver on top of a completion ring.

pub mod cqe;
pub mod driver;
pub mod laws;
pub mod setup;
pub mod sqe;
pub mod state;
pub mod steps;
